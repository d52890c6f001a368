//! Text forms of the numbers and lines that the harness reports.

use std::time::Duration;
use vstd::prelude::*;
use vstd::string::*;

verus! {

/// The decimal digit for `d`.
pub open spec fn digit_char(d: nat) -> char
    recommends
        d < 10,
{
    if d == 0 {
        '0'
    } else if d == 1 {
        '1'
    } else if d == 2 {
        '2'
    } else if d == 3 {
        '3'
    } else if d == 4 {
        '4'
    } else if d == 5 {
        '5'
    } else if d == 6 {
        '6'
    } else if d == 7 {
        '7'
    } else if d == 8 {
        '8'
    } else {
        '9'
    }
}

/// Decimal notation of `n`, without leading zeros.
pub open spec fn decimal(n: nat) -> Seq<char>
    decreases n,
{
    if n < 10 {
        seq![digit_char(n)]
    } else {
        decimal(n / 10).push(digit_char(n % 10))
    }
}

/// Decimal notation of `h` hundredths: the whole part, a point and two digits.
pub open spec fn fixed2(h: nat) -> Seq<char> {
    decimal(h / 100) + seq!['.', digit_char(h / 10 % 10), digit_char(h % 10)]
}

/// Text of a statistic that may be undefined. A defined one is written with
/// two decimals; an undefined one reads `NaN` where the samples add up to
/// nothing and `inf` otherwise.
pub open spec fn stat(value: Option<nat>, zero_total: bool) -> Seq<char> {
    match value {
        Some(h) => fixed2(h),
        None => if zero_total {
            seq!['N', 'a', 'N']
        } else {
            seq!['i', 'n', 'f']
        },
    }
}

/// The summary of a series: `<mean> (±<deviation>ns ~ <percent>%)`.
pub open spec fn summary(mean: Seq<char>, deviation: Seq<char>, percent: Seq<char>) -> Seq<char> {
    mean + seq![' ', '(', '±'] + deviation + seq!['n', 's', ' ', '~', ' '] + percent + seq![
        '%',
        ')',
    ]
}

/// One line of the durable record: `<name>\t<mean>\t<deviation>ns\n`.
pub open spec fn record(name: Seq<char>, mean: Seq<char>, deviation: Seq<char>) -> Seq<char> {
    name + seq!['\t'] + mean + seq!['\t'] + deviation + seq!['n', 's', '\n']
}

/// A signed difference: `+` or `-`, then the magnitude.
pub open spec fn signed(positive: bool, magnitude: Seq<char>) -> Seq<char> {
    seq![if positive { '+' } else { '-' }] + magnitude
}

/// The text that the `Debug` form of a `std::time::Duration` of `nanos`
/// nanoseconds has.
pub uninterp spec fn duration_debug(nanos: nat) -> Seq<char>;

/// Formats a duration of `nanos` nanoseconds with the `Debug` impl of
/// `std::time::Duration`. The text depends on the duration alone; what it
/// looks like is left to the standard library.
#[verifier::external_body]
pub(crate) fn duration_text(nanos: u64) -> (text: String)
    ensures
        text@ == duration_debug(nanos as nat),
{
    format!("{:?}", Duration::from_nanos(nanos))
}

fn digit_str(d: u8) -> (text: &'static str)
    requires
        d < 10,
    ensures
        text@ == seq![digit_char(d as nat)],
{
    proof {
        reveal_strlit("0");
        reveal_strlit("1");
        reveal_strlit("2");
        reveal_strlit("3");
        reveal_strlit("4");
        reveal_strlit("5");
        reveal_strlit("6");
        reveal_strlit("7");
        reveal_strlit("8");
        reveal_strlit("9");
    }
    let text = match d {
        0 => "0",
        1 => "1",
        2 => "2",
        3 => "3",
        4 => "4",
        5 => "5",
        6 => "6",
        7 => "7",
        8 => "8",
        _ => "9",
    };
    assert(text@ =~= seq![digit_char(d as nat)]);
    text
}

/// Writes `n` in decimal notation.
pub fn decimal_text(n: u128) -> (text: String)
    ensures
        text@ == decimal(n as nat),
    decreases n,
{
    if n < 10 {
        String::from_str(digit_str(n as u8))
    } else {
        let mut text = decimal_text(n / 10);
        text.append(digit_str((n % 10) as u8));
        assert(text@ =~= decimal(n as nat));
        text
    }
}

/// Writes `h` hundredths as a number with two decimals.
pub fn fixed2_text(h: u64) -> (text: String)
    ensures
        text@ == fixed2(h as nat),
{
    proof {
        reveal_strlit(".");
    }
    let mut text = decimal_text((h / 100) as u128);
    text.append(".");
    text.append(digit_str((h / 10 % 10) as u8));
    text.append(digit_str((h % 10) as u8));
    assert(text@ =~= fixed2(h as nat));
    text
}

/// The value of a statistic as a natural number.
pub open spec fn widen(value: Option<u64>) -> Option<nat> {
    match value {
        Some(h) => Some(h as nat),
        None => None,
    }
}

/// Writes a statistic that may be undefined.
pub fn stat_text(value: Option<u64>, zero_total: bool) -> (text: String)
    ensures
        text@ == stat(widen(value), zero_total),
{
    proof {
        reveal_strlit("NaN");
        reveal_strlit("inf");
    }
    let text = match value {
        Some(h) => fixed2_text(h),
        None => if zero_total {
            String::from_str("NaN")
        } else {
            String::from_str("inf")
        },
    };
    assert(text@ =~= stat(widen(value), zero_total));
    text
}

/// Writes the summary of a series from the texts of its three statistics.
pub fn summary_text(mean: &str, deviation: &str, percent: &str) -> (text: String)
    ensures
        text@ == summary(mean@, deviation@, percent@),
{
    proof {
        reveal_strlit(" (±");
        reveal_strlit("ns ~ ");
        reveal_strlit("%)");
    }
    let mut text = String::from_str(mean);
    text.append(" (±");
    text.append(deviation);
    text.append("ns ~ ");
    text.append(percent);
    text.append("%)");
    assert(text@ =~= summary(mean@, deviation@, percent@));
    text
}

/// Writes one line of the durable record.
pub fn record_text(name: &str, mean: &str, deviation: &str) -> (text: String)
    ensures
        text@ == record(name@, mean@, deviation@),
{
    proof {
        reveal_strlit("\t");
        reveal_strlit("ns\n");
    }
    let mut text = String::from_str(name);
    text.append("\t");
    text.append(mean);
    text.append("\t");
    text.append(deviation);
    text.append("ns\n");
    assert(text@ =~= record(name@, mean@, deviation@));
    text
}

/// Writes a signed difference.
pub fn signed_text(positive: bool, magnitude: &str) -> (text: String)
    ensures
        text@ == signed(positive, magnitude@),
{
    proof {
        reveal_strlit("+");
        reveal_strlit("-");
    }
    let mut text = if positive {
        String::from_str("+")
    } else {
        String::from_str("-")
    };
    text.append(magnitude);
    assert(text@ =~= signed(positive, magnitude@));
    text
}

} // verus!
