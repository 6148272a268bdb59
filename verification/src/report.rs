//! The human-readable report and the exit status of a lint run.

use vstd::prelude::*;

use crate::rules::{Finding, FindingView, Severity, findings_view};

verus! {

/// The decimal digits of `n`.
pub open spec fn decimal(n: nat) -> Seq<char>
    decreases n,
{
    if n < 10 {
        seq![digit_char(n)]
    } else {
        decimal(n / 10) + seq![digit_char(n % 10)]
    }
}

/// The character of the decimal digit `d`.
pub open spec fn digit_char(d: nat) -> char {
    if d == 0 { '0' }
    else if d == 1 { '1' }
    else if d == 2 { '2' }
    else if d == 3 { '3' }
    else if d == 4 { '4' }
    else if d == 5 { '5' }
    else if d == 6 { '6' }
    else if d == 7 { '7' }
    else if d == 8 { '8' }
    else { '9' }
}

/// The one-character text of the decimal digit `d`.
fn digit_text(d: usize) -> (r: &'static str)
    requires
        d < 10,
    ensures
        r@ == seq![digit_char(d as nat)],
{
    proof {
        reveal_strlit("0");
        reveal_strlit("1");
        reveal_strlit("2");
        reveal_strlit("3");
        reveal_strlit("4");
        reveal_strlit("5");
        reveal_strlit("6");
        reveal_strlit("7");
        reveal_strlit("8");
        reveal_strlit("9");
    }
    if d == 0 { "0" }
    else if d == 1 { "1" }
    else if d == 2 { "2" }
    else if d == 3 { "3" }
    else if d == 4 { "4" }
    else if d == 5 { "5" }
    else if d == 6 { "6" }
    else if d == 7 { "7" }
    else if d == 8 { "8" }
    else { "9" }
}

/// The decimal text of `n`.
pub fn decimal_text(n: usize) -> (r: String)
    ensures
        r@ == decimal(n as nat),
    decreases n,
{
    if n < 10 {
        digit_text(n).to_owned()
    } else {
        let mut r = decimal_text(n / 10);
        r.append(digit_text(n % 10));
        r
    }
}

/// The label of a severity.
pub open spec fn severity_label(s: Severity) -> Seq<char> {
    match s {
        Severity::Warning => "warning"@,
        Severity::Error => "error"@,
    }
}

/// The report line of one finding.
pub open spec fn finding_line(path: Seq<char>, f: FindingView) -> Seq<char> {
    path + ": ["@ + severity_label(f.severity) + "] "@ + f.service + ": "@ + f.rule + " - "@
        + f.message
}

/// The lines of a report: one per finding, or a single all-clear line.
pub open spec fn report_lines_spec(path: Seq<char>, findings: Seq<FindingView>) -> Seq<Seq<char>> {
    if findings.len() == 0 {
        seq!["composelint: "@ + path + ": no issues found"@]
    } else {
        findings.map_values(|f: FindingView| finding_line(path, f))
    }
}

/// The closing count line of a report with findings.
pub open spec fn summary_spec(path: Seq<char>, count: nat) -> Seq<char> {
    "\ncomposelint: "@ + decimal(count) + " issue(s) found in "@ + path
}

/// The report line of one finding: `path: [severity] service: rule - message`.
pub fn format_finding(path: &str, f: &Finding) -> (r: String)
    ensures
        r@ == finding_line(path@, f@),
{
    let mut line = path.to_owned();
    line.append(": [");
    match f.severity {
        Severity::Warning => line.append("warning"),
        Severity::Error => line.append("error"),
    }
    line.append("] ");
    line.append(f.service.as_str());
    line.append(": ");
    line.append(f.rule);
    line.append(" - ");
    line.append(f.message.as_str());
    line
}

/// The lines that a human-readable report prints on standard output.
pub fn report_lines(path: &str, findings: &[Finding]) -> (r: Vec<String>)
    ensures
        r@.map_values(|s: String| s@) == report_lines_spec(path@, findings_view(findings@)),
{
    let mut lines: Vec<String> = Vec::new();
    let n = findings.len();
    if n == 0 {
        let mut line = "composelint: ".to_owned();
        line.append(path);
        line.append(": no issues found");
        lines.push(line);
        proof {
            assert(lines@.map_values(|s: String| s@) =~= report_lines_spec(path@, findings_view(findings@)));
        }
        return lines;
    }
    let mut i: usize = 0;
    while i < n
        invariant
            n == findings@.len(),
            i <= n,
            lines@.map_values(|s: String| s@) =~= findings_view(findings@).take(i as int).map_values(
                |f: FindingView| finding_line(path@, f),
            ),
        decreases n - i,
    {
        let line = format_finding(path, &findings[i]);
        let ghost before = lines@;
        lines.push(line);
        proof {
            assert(findings_view(findings@).take(i + 1) =~= findings_view(findings@).take(i as int).push(findings@[i as int]@));
            assert(lines@.map_values(|s: String| s@) =~= before.map_values(|s: String| s@).push(line@));
        }
        i = i + 1;
    }
    proof {
        assert(findings_view(findings@).take(n as int) =~= findings_view(findings@));
    }
    lines
}

/// The count line that a report with findings prints on standard error.
pub fn summary_line(path: &str, count: usize) -> (r: String)
    ensures
        r@ == summary_spec(path@, count as nat),
{
    let mut line = "\ncomposelint: ".to_owned();
    let digits = decimal_text(count);
    line.append(digits.as_str());
    line.append(" issue(s) found in ");
    line.append(path);
    line
}

/// The exit status of a lint: 0 when clean, 1 with findings, 2 when the
/// file was not valid Compose YAML.
pub fn exit_status(outcome: &Result<Vec<Finding>, String>) -> (r: u8)
    ensures
        r == match outcome {
            Ok(findings) => if findings@.len() == 0 { 0u8 } else { 1u8 },
            Err(_) => 2u8,
        },
{
    match outcome {
        Ok(findings) => if findings.len() == 0 { 0 } else { 1 },
        Err(_) => 2,
    }
}

} // verus!
