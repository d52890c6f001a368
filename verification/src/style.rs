//! Terminal styling of the console lines, with the escape sequences of the
//! `termion` crate.

use crate::render::{decimal, decimal_text};
use vstd::prelude::*;
use vstd::string::*;

verus! {

/// The control sequence introducer, `ESC [`, followed by `code`.
pub open spec fn csi(code: Seq<char>) -> Seq<char> {
    seq!['\u{1b}', '['] + code
}

/// The heading of a benchmark: a blank line, then the name in bold light blue.
pub open spec fn heading_of(name: Seq<char>) -> Seq<char> {
    seq!['\n'] + csi(seq!['3', '8', ';', '5', ';', '1', '2', 'm']) + csi(seq!['1', 'm']) + name
        + csi(seq!['m'])
}

/// The note under an adaptive run: `After <count> iterations`, fainted.
pub open spec fn iterations_note_of(count: nat) -> Seq<char> {
    csi(seq!['2', 'm']) + "After "@ + decimal(count) + " iterations"@ + csi(seq!['m'])
}

/// The heading of the settings report: a blank line, then the title
/// underlined in green.
pub open spec fn settings_heading_of() -> Seq<char> {
    seq!['\n'] + csi(seq!['3', '8', ';', '5', ';', '2', 'm']) + csi(seq!['4', 'm'])
        + "Benchmarking Settings"@ + csi(seq!['m'])
}

/// The settings report: the heading, the calibration delay, the number of
/// iterations (`auto` for an adaptive run) and, for an adaptive run, the
/// largest number of iterations. The lines are separated by line feeds.
pub open spec fn settings_of(delay: Seq<char>, iterations: nat, cap: nat) -> Seq<char> {
    settings_heading_of() + "\nBenchmarking accuracy delay:\t "@ + delay
        + "\nNumber of iterations:\t "@ + if iterations > 0 {
        decimal(iterations)
    } else {
        "auto"@ + "\nMaximum number of iterations: "@ + decimal(cap)
    }
}

/// `termion::color::Fg(termion::color::LightBlue)` through its `Display`
/// impl, which writes the constant `ESC [ 38;5;12 m`.
#[verifier::external_body]
fn light_blue() -> (code: String)
    ensures
        code@ == csi(seq!['3', '8', ';', '5', ';', '1', '2', 'm']),
{
    format!("{}", termion::color::Fg(termion::color::LightBlue))
}

/// `termion::color::Fg(termion::color::Green)` through its `Display` impl,
/// which writes the constant `ESC [ 38;5;2 m`.
#[verifier::external_body]
fn green() -> (code: String)
    ensures
        code@ == csi(seq!['3', '8', ';', '5', ';', '2', 'm']),
{
    format!("{}", termion::color::Fg(termion::color::Green))
}

/// `termion::style::Bold` through its `Display` impl, which writes the
/// constant `ESC [ 1 m`.
#[verifier::external_body]
fn bold() -> (code: String)
    ensures
        code@ == csi(seq!['1', 'm']),
{
    format!("{}", termion::style::Bold)
}

/// `termion::style::Faint` through its `Display` impl, which writes the
/// constant `ESC [ 2 m`.
#[verifier::external_body]
fn faint() -> (code: String)
    ensures
        code@ == csi(seq!['2', 'm']),
{
    format!("{}", termion::style::Faint)
}

/// `termion::style::Underline` through its `Display` impl, which writes the
/// constant `ESC [ 4 m`.
#[verifier::external_body]
fn underline() -> (code: String)
    ensures
        code@ == csi(seq!['4', 'm']),
{
    format!("{}", termion::style::Underline)
}

/// `termion::style::Reset` through its `Display` impl, which writes the
/// constant `ESC [ m`.
#[verifier::external_body]
fn reset() -> (code: String)
    ensures
        code@ == csi(seq!['m']),
{
    format!("{}", termion::style::Reset)
}

/// Writes the heading of the benchmark called `name`.
pub fn heading(name: &str) -> (text: String)
    ensures
        text@ == heading_of(name@),
{
    proof {
        reveal_strlit("\n");
    }
    let mut text = String::from_str("\n");
    text.append(light_blue().as_str());
    text.append(bold().as_str());
    text.append(name);
    text.append(reset().as_str());
    assert(text@ =~= heading_of(name@));
    text
}

/// Writes the note that follows an adaptive run of `count` iterations.
pub fn iterations_note(count: usize) -> (text: String)
    ensures
        text@ == iterations_note_of(count as nat),
{
    proof {
    }
    let mut text = faint();
    text.append("After ");
    text.append(decimal_text(count as u128).as_str());
    text.append(" iterations");
    text.append(reset().as_str());
    assert(text@ =~= iterations_note_of(count as nat));
    text
}

/// Writes the heading of the settings report.
pub fn settings_heading() -> (text: String)
    ensures
        text@ == settings_heading_of(),
{
    proof {
        reveal_strlit("\n");
    }
    let mut text = String::from_str("\n");
    text.append(green().as_str());
    text.append(underline().as_str());
    text.append("Benchmarking Settings");
    text.append(reset().as_str());
    assert(text@ =~= settings_heading_of());
    text
}

/// Writes the settings report from the text of the calibration delay and
/// the two iteration counts.
pub fn settings_text(delay: &str, iterations: usize, cap: usize) -> (text: String)
    ensures
        text@ == settings_of(delay@, iterations as nat, cap as nat),
{
    let mut text = settings_heading();
    text.append("\nBenchmarking accuracy delay:\t ");
    text.append(delay);
    text.append("\nNumber of iterations:\t ");
    if iterations > 0 {
        text.append(decimal_text(iterations as u128).as_str());
    } else {
        text.append("auto");
        text.append("\nMaximum number of iterations: ");
        text.append(decimal_text(cap as u128).as_str());
    }
    assert(text@ =~= settings_of(delay@, iterations as nat, cap as nat));
    text
}

} // verus!
