//! The layout of the statistics report.
//!
//! The four statistics reach the report as text, already rendered in
//! milliseconds; the report names the command, gives the run count and
//! sets each statistic on a line of its own, followed by its unit.

use vstd::prelude::*;
use vstd::string::*;
use crate::config::{
    all_digits, decimal_value, digit_value, is_digit, numeral_of, parsed_run_count,
};

verus! {

/// The statistics of a sample, each rendered as text.
#[derive(Debug)]
pub struct Figures {
    /// The shortest duration.
    pub min: String,
    /// The arithmetic mean of the durations.
    pub mean: String,
    /// The longest duration.
    pub max: String,
    /// The population standard deviation of the durations.
    pub sd: String,
}

/// The character that stands for the digit `d`.
pub open spec fn digit_char(d: nat) -> char
    recommends
        d < 10,
{
    if d == 0 {
        '0'
    } else if d == 1 {
        '1'
    } else if d == 2 {
        '2'
    } else if d == 3 {
        '3'
    } else if d == 4 {
        '4'
    } else if d == 5 {
        '5'
    } else if d == 6 {
        '6'
    } else if d == 7 {
        '7'
    } else if d == 8 {
        '8'
    } else {
        '9'
    }
}

/// The decimal numeral of `n`, without sign or leading zeros.
pub open spec fn decimal_text(n: nat) -> Seq<char>
    decreases n,
{
    if n < 10 {
        seq![digit_char(n)]
    } else {
        decimal_text(n / 10).push(digit_char(n % 10))
    }
}

/// The report on `runs` runs of `command` with the given statistics.
pub open spec fn report_text(
    command: Seq<char>,
    runs: u16,
    min: Seq<char>,
    mean: Seq<char>,
    max: Seq<char>,
    sd: Seq<char>,
) -> Seq<char> {
    "Stats for:\n`"@ + command + "`\n"@
        + "--------------------------------\n"@
        + "Runs: "@ + decimal_text(runs as nat) + "\n"@
        + "Min:  "@ + min + " ms\n"@
        + "Mean: "@ + mean + " ms\n"@
        + "Max:  "@ + max + " ms\n"@
        + "SD:   "@ + sd + " ms\n"@
}

/// The one-character text of the digit `d`.
fn digit_text(d: u16) -> (text: &'static str)
    requires
        d < 10,
    ensures
        text@ == seq![digit_char(d as nat)],
{
    proof {
        reveal_strlit("0");
        reveal_strlit("1");
        reveal_strlit("2");
        reveal_strlit("3");
        reveal_strlit("4");
        reveal_strlit("5");
        reveal_strlit("6");
        reveal_strlit("7");
        reveal_strlit("8");
        reveal_strlit("9");
    }
    let text = match d {
        0 => "0",
        1 => "1",
        2 => "2",
        3 => "3",
        4 => "4",
        5 => "5",
        6 => "6",
        7 => "7",
        8 => "8",
        _ => "9",
    };
    assert(text@ =~= seq![digit_char(d as nat)]);
    text
}

/// Appends the decimal numeral of `n` to `out`.
fn push_decimal(out: &mut String, n: u16)
    ensures
        final(out)@ == old(out)@ + decimal_text(n as nat),
    decreases n,
{
    if n >= 10 {
        push_decimal(out, n / 10);
    }
    out.append(digit_text(n % 10));
    assert(out@ =~= old(out)@ + decimal_text(n as nat));
}

/// The decimal numeral of `runs`.
pub fn count_text(runs: u16) -> (text: String)
    ensures
        text@ == decimal_text(runs as nat),
{
    let mut text = String::new();
    push_decimal(&mut text, runs);
    assert(text@ =~= decimal_text(runs as nat));
    text
}

/// Lays out the report on `runs` runs of `command`.
pub fn render_report(command: &str, runs: u16, figures: &Figures) -> (report: String)
    ensures
        report@ == report_text(
            command@,
            runs,
            figures.min@,
            figures.mean@,
            figures.max@,
            figures.sd@,
        ),
{
    let mut report = String::from_str("Stats for:\n`");
    report.append(command);
    report.append("`\n");
    report.append("--------------------------------\n");
    report.append("Runs: ");
    push_decimal(&mut report, runs);
    report.append("\n");
    report.append("Min:  ");
    report.append(figures.min.as_str());
    report.append(" ms\n");
    report.append("Mean: ");
    report.append(figures.mean.as_str());
    report.append(" ms\n");
    report.append("Max:  ");
    report.append(figures.max.as_str());
    report.append(" ms\n");
    report.append("SD:   ");
    report.append(figures.sd.as_str());
    report.append(" ms\n");
    report
}

/// A numeral consists of digits, is never empty, and has the value it was
/// written for.
proof fn lemma_decimal_text(n: nat)
    ensures
        decimal_text(n).len() > 0,
        all_digits(decimal_text(n)),
        decimal_value(decimal_text(n)) == n,
    decreases n,
{
    let text = decimal_text(n);
    assert(digit_value(digit_char(n % 10)) == n % 10);
    if n < 10 {
        assert(text.drop_last() =~= Seq::<char>::empty());
        assert(decimal_value(text.drop_last()) == 0);
    } else {
        lemma_decimal_text(n / 10);
        assert(text.drop_last() =~= decimal_text(n / 10));
    }
    assert(decimal_value(text) == decimal_value(text.drop_last()) * 10 + digit_value(text.last()));
}

/// Round trip. The numeral that the report shows for a run count reads back
/// as that run count.
pub proof fn lemma_count_text_reads_back(runs: u16)
    ensures
        parsed_run_count(decimal_text(runs as nat)) == Some(runs),
{
    let text = decimal_text(runs as nat);
    lemma_decimal_text(runs as nat);
    assert(is_digit(text[0]));
    assert(numeral_of(text) == text);
}

} // verus!
