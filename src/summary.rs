//! The one-line report `<recent> / <total> = <percentage>%`.
use vstd::prelude::*;
use crate::counter::Counter;

verus! {

/// The decimal digits of `n`, without leading zeros.
pub open spec fn decimal(n: nat) -> Seq<char>
    decreases n,
{
    if n < 10 {
        seq![digit_char(n)]
    } else {
        decimal(n / 10).push(digit_char(n % 10))
    }
}

pub open spec fn digit_char(d: nat) -> char {
    (d + 48) as char
}

/// `n < 100` written with exactly two digits.
pub open spec fn two_digits(n: nat) -> Seq<char> {
    seq![digit_char(n / 10), digit_char(n % 10)]
}

/// The text `<recent> / <total> = <whole>.<frac>%`.
pub open spec fn summary_text(recent: nat, total: nat, whole: nat, frac: nat) -> Seq<char> {
    decimal(recent) + seq![' ', '/', ' '] + decimal(total) + seq![' ', '=', ' '] + decimal(whole)
        + seq!['.'] + two_digits(frac) + seq!['%']
}

/// `100 * recent / total` in hundredths of a percent, rounded half up; zero when
/// `total` is zero.
pub open spec fn percent_hundredths_spec(recent: nat, total: nat) -> nat {
    if total == 0 {
        0
    } else {
        (20000 * recent + total) / (2 * total)
    }
}

/// Relies on std's `format!`: `{}` writes an unsigned integer in decimal without
/// leading zeros, and `{:02}` pads it to two digits.
#[verifier::external_body]
fn render_summary(recent: u64, total: u64, whole: u128, frac: u128) -> (r: String)
    requires
        frac < 100,
    ensures
        r@ == summary_text(recent as nat, total as nat, whole as nat, frac as nat),
{
    format!("{} / {} = {}.{:02}%", recent, total, whole, frac)
}

impl Counter {
    /// The share of recent records in hundredths of a percent, rounded half up;
    /// zero when no record was seen.
    pub fn percent_hundredths(&self) -> (r: u128)
        ensures
            r as nat == percent_hundredths_spec(self.recent as nat, self.total as nat),
    {
        if self.total == 0 {
            0
        } else {
            let num: u128 = 20000 * (self.recent as u128) + self.total as u128;
            let den: u128 = 2 * (self.total as u128);
            num / den
        }
    }

    /// The report line `<recent> / <total> = <percentage>%`, the percentage with
    /// two decimals.
    pub fn summary_line(&self) -> (r: String)
        ensures
            r@ == summary_text(
                self.recent as nat,
                self.total as nat,
                percent_hundredths_spec(self.recent as nat, self.total as nat) / 100,
                percent_hundredths_spec(self.recent as nat, self.total as nat) % 100,
            ),
    {
        let p = self.percent_hundredths();
        render_summary(self.recent, self.total, p / 100, p % 100)
    }
}

} // verus!
