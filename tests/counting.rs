use std::io::Write;

use flate2::write::GzEncoder;
use flate2::Compression;
use recent_count::aggregate::{aggregate, RunError};
use recent_count::counter::Counter;
use recent_count::records::{advance, count, CountError, RowOutcome, Scan};
use recent_count::timestamp::{parse_timestamp, Instant};

fn gzip(text: &str) -> Vec<u8> {
    let mut enc = GzEncoder::new(Vec::new(), Compression::default());
    enc.write_all(text.as_bytes()).unwrap();
    enc.finish().unwrap()
}

fn row(ts: &str) -> String {
    format!("bucket,some/key,1234,{},\"abc\"\n", ts)
}

fn cutoff() -> Instant {
    parse_timestamp("2020-01-01T00:00:00.000Z").unwrap()
}

#[test]
fn ten_records_three_recent() {
    let mut text = String::new();
    for i in 0..7 {
        text.push_str(&row(&format!("2019-0{}-15T10:00:00.000Z", i + 1)));
    }
    for i in 0..3 {
        text.push_str(&row(&format!("2020-0{}-15T10:00:00.000Z", i + 1)));
    }
    let c = count(&gzip(&text)[..], cutoff()).unwrap();
    assert_eq!(c, Counter { total: 10, recent: 3 });
}

#[test]
fn cutoff_itself_is_not_recent() {
    let text = row("2020-01-01T00:00:00.000Z") + &row("2020-01-01T00:00:00.001Z");
    let c = count(&gzip(&text)[..], cutoff()).unwrap();
    assert_eq!(c, Counter { total: 2, recent: 1 });
}

#[test]
fn malformed_timestamp_row_counts_in_total_only() {
    let text = row("2021-01-01T00:00:00.000Z")
        + &row("not a timestamp")
        + &row("2021-13-01T00:00:00.000Z")
        + &row("2021-05-01T00:00:00.000Z");
    let c = count(&gzip(&text)[..], cutoff()).unwrap();
    assert_eq!(c, Counter { total: 4, recent: 2 });
}

#[test]
fn invalid_utf8_timestamp_counts_in_total_only() {
    let mut enc = GzEncoder::new(Vec::new(), Compression::default());
    enc.write_all(b"b,k,1,2021-01-01T00:00:00.00\xffZ,e\nb,k,1,2021-01-01T00:00:00.000Z,e\n").unwrap();
    let data = enc.finish().unwrap();
    assert_eq!(count(&data[..], cutoff()).unwrap(), Counter { total: 2, recent: 1 });
}

#[test]
fn short_row_counts_in_total_only() {
    let text = row("2021-01-01T00:00:00.000Z") + "b,k\n" + &row("2021-01-01T00:00:00.000Z");
    let c = count(&gzip(&text)[..], cutoff()).unwrap();
    assert_eq!(c, Counter { total: 3, recent: 2 });
}

#[test]
fn quoted_fields_with_commas_and_newlines() {
    let text = "b,\"a,key\nwith newline\",1,2021-01-01T00:00:00.000Z,\"e\"\"tag\"\n";
    let c = count(&gzip(text)[..], cutoff()).unwrap();
    assert_eq!(c, Counter { total: 1, recent: 1 });
}

#[test]
fn empty_stream_counts_nothing() {
    assert_eq!(count(&gzip("")[..], cutoff()).unwrap(), Counter { total: 0, recent: 0 });
}

#[test]
fn corrupt_stream_is_fatal() {
    let data = b"this is not gzip data at all";
    assert_eq!(count(&data[..], cutoff()), Err(CountError::ReadFailed));
}

#[test]
fn advance_decides_each_outcome() {
    let c = Counter { total: 4, recent: 1 };
    let f: &[u8] = b"2021-01-01T00:00:00.000Z";
    assert!(matches!(advance(c, RowOutcome::Record, Some(f), cutoff()), Scan::Continue(Counter { total: 5, recent: 2 })));
    assert!(matches!(advance(c, RowOutcome::Record, None, cutoff()), Scan::Continue(Counter { total: 5, recent: 1 })));
    assert!(matches!(advance(c, RowOutcome::Malformed, Some(f), cutoff()), Scan::Continue(Counter { total: 5, recent: 1 })));
    assert!(matches!(advance(c, RowOutcome::End, None, cutoff()), Scan::Finished(Ok(Counter { total: 4, recent: 1 }))));
    assert!(matches!(advance(c, RowOutcome::Failed, None, cutoff()), Scan::Finished(Err(CountError::ReadFailed))));
}

#[test]
fn two_files_summary_line() {
    let results = vec![Ok(Counter { total: 10, recent: 3 }), Ok(Counter { total: 5, recent: 1 })];
    let c = aggregate(&results).unwrap();
    assert_eq!(c, Counter { total: 15, recent: 4 });
    assert_eq!(c.summary_line(), "4 / 15 = 26.67%");
}

#[test]
fn summary_line_of_empty_counter() {
    assert_eq!(Counter::new().summary_line(), "0 / 0 = 0.00%");
    assert_eq!(Counter { total: 3, recent: 3 }.summary_line(), "3 / 3 = 100.00%");
    assert_eq!(Counter { total: 3, recent: 1 }.percent_hundredths(), 3333);
    assert_eq!(Counter { total: 8, recent: 1 }.summary_line(), "1 / 8 = 12.50%");
}

#[test]
fn aggregate_reports_first_failed_file() {
    let results = vec![
        Ok(Counter { total: 1, recent: 0 }),
        Err(CountError::ReadFailed),
        Err(CountError::TooManyRecords),
    ];
    assert_eq!(aggregate(&results), Err(RunError::File { index: 1, error: CountError::ReadFailed }));
}

#[test]
fn aggregate_reports_overflow() {
    let results = vec![Ok(Counter { total: u64::MAX, recent: 0 }), Ok(Counter { total: 1, recent: 0 })];
    assert_eq!(aggregate(&results), Err(RunError::Overflow));
}

#[test]
fn aggregate_of_nothing_is_empty() {
    assert_eq!(aggregate(&Vec::new()), Ok(Counter { total: 0, recent: 0 }));
}

#[test]
fn merge_laws_on_values() {
    let a = Counter { total: 10, recent: 3 };
    let b = Counter { total: 5, recent: 1 };
    let c = Counter { total: 7, recent: 7 };
    assert_eq!(a.merge(b).merge(c), a.merge(b.merge(c)));
    assert_eq!(a.merge(b), b.merge(a));
    assert_eq!(a.merge(Counter::new()), a);
    assert_eq!(a.checked_merge(Counter { total: u64::MAX, recent: 0 }), None);
}

#[test]
fn aggregate_twice_and_in_any_order_agrees() {
    let text_a = row("2021-01-01T00:00:00.000Z") + &row("2010-01-01T00:00:00.000Z");
    let text_b = row("2022-01-01T00:00:00.000Z");
    let (ga, gb) = (gzip(&text_a), gzip(&text_b));
    let run = |files: &[&Vec<u8>]| {
        let results: Vec<Result<Counter, CountError>> =
            files.iter().map(|d| count(&d[..], cutoff())).collect();
        aggregate(&results).unwrap().summary_line()
    };
    let first = run(&[&ga, &gb]);
    assert_eq!(first, "2 / 3 = 66.67%");
    assert_eq!(run(&[&ga, &gb]), first);
    assert_eq!(run(&[&gb, &ga]), first);
}
