//! Counts the inventory records of gzip-compressed, headerless CSV files
//! whose last-modified timestamp falls after a cutoff instant.
pub mod timestamp;
pub mod counter;
pub mod records;
pub mod aggregate;
pub mod summary;
