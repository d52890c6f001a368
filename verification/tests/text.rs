use benchlib::clock::saturate;
use benchlib::render::{
    decimal_text, fixed2_text, record_text, signed_text, stat_text, summary_text,
};
use benchlib::style::{heading, iterations_note, settings_heading, settings_text};

#[test]
fn decimal_notation() {
    assert_eq!(decimal_text(0), "0");
    assert_eq!(decimal_text(7), "7");
    assert_eq!(decimal_text(10), "10");
    assert_eq!(decimal_text(243), "243");
    assert_eq!(decimal_text(1_000_000), "1000000");
    assert_eq!(decimal_text(9_876_543_210), "9876543210");
    assert_eq!(decimal_text(u128::MAX), format!("{}", u128::MAX));
}

#[test]
fn two_decimals() {
    assert_eq!(fixed2_text(0), "0.00");
    assert_eq!(fixed2_text(5), "0.05");
    assert_eq!(fixed2_text(50), "0.50");
    assert_eq!(fixed2_text(99), "0.99");
    assert_eq!(fixed2_text(100), "1.00");
    assert_eq!(fixed2_text(447_214), "4472.14");
    assert_eq!(fixed2_text(u64::MAX), "184467440737095516.15");
}

#[test]
fn undefined_statistics_read_nan_or_inf() {
    assert_eq!(stat_text(Some(123), false), "1.23");
    assert_eq!(stat_text(Some(0), true), "0.00");
    assert_eq!(stat_text(None, true), "NaN");
    assert_eq!(stat_text(None, false), "inf");
}

#[test]
fn summary_layout() {
    assert_eq!(
        summary_text("10ms", "4472.14", "0.04"),
        "10ms (±4472.14ns ~ 0.04%)"
    );
    assert_eq!(summary_text("", "", ""), " (±ns ~ %)");
}

#[test]
fn record_layout() {
    assert_eq!(
        record_text("closure", "10ms", "4472.14"),
        "closure\t10ms\t4472.14ns\n"
    );
    assert_eq!(record_text("", "", ""), "\t\tns\n");
}

#[test]
fn signed_layout() {
    assert_eq!(signed_text(true, "2ms"), "+2ms");
    assert_eq!(signed_text(false, "2ms"), "-2ms");
    assert_eq!(signed_text(false, ""), "-");
}

#[test]
fn heading_is_bold_light_blue() {
    assert_eq!(heading("lol"), "\n\u{1b}[38;5;12m\u{1b}[1mlol\u{1b}[m");
    assert_eq!(
        heading("lol"),
        format!(
            "\n{}{}{}{}",
            termion::color::Fg(termion::color::LightBlue),
            termion::style::Bold,
            "lol",
            termion::style::Reset
        )
    );
    assert_eq!(heading(""), "\n\u{1b}[38;5;12m\u{1b}[1m\u{1b}[m");
}

#[test]
fn iterations_note_is_faint() {
    assert_eq!(iterations_note(6), "\u{1b}[2mAfter 6 iterations\u{1b}[m");
    assert_eq!(
        iterations_note(1000),
        format!(
            "{}After {} iterations{}",
            termion::style::Faint,
            1000,
            termion::style::Reset
        )
    );
    assert_eq!(iterations_note(0), "\u{1b}[2mAfter 0 iterations\u{1b}[m");
}

#[test]
fn settings_heading_is_underlined_green() {
    assert_eq!(
        settings_heading(),
        "\n\u{1b}[38;5;2m\u{1b}[4mBenchmarking Settings\u{1b}[m"
    );
    assert_eq!(
        settings_heading(),
        format!(
            "\n{}{}Benchmarking Settings{}",
            termion::color::Fg(termion::color::Green),
            termion::style::Underline,
            termion::style::Reset
        )
    );
}

#[test]
fn settings_layout() {
    assert_eq!(
        settings_text("25ns", 100, 10000),
        "\n\u{1b}[38;5;2m\u{1b}[4mBenchmarking Settings\u{1b}[m\nBenchmarking accuracy delay:\t 25ns\nNumber of iterations:\t 100"
    );
    assert_eq!(
        settings_text("25ns", 0, 10000),
        "\n\u{1b}[38;5;2m\u{1b}[4mBenchmarking Settings\u{1b}[m\nBenchmarking accuracy delay:\t 25ns\nNumber of iterations:\t auto\nMaximum number of iterations: 10000"
    );
}

#[test]
fn clock_readings_saturate() {
    assert_eq!(saturate(0), 0);
    assert_eq!(saturate(1_234), 1_234);
    assert_eq!(saturate(u64::MAX as u128), u64::MAX);
    assert_eq!(saturate(u64::MAX as u128 + 1), u64::MAX);
    assert_eq!(saturate(u128::MAX), u64::MAX);
}
