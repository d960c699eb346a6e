//! Rendering a run's diagnostics as the lines the lint prints.
use vstd::prelude::*;
use crate::lint::{Diagnostic, DiagnosticView, diagnostic_views};
use vstd::string::{StrSliceExecFns, StringExecFns};

verus! {

/// The line printed when a run found nothing.
pub const SUCCESS_LINE: &'static str = "\u{2713} No pro plugins detected!";

const DIGITS: &'static str = "0123456789";

/// The character of a decimal digit.
pub open spec fn digit_char(d: nat) -> char {
    seq!['0', '1', '2', '3', '4', '5', '6', '7', '8', '9'][d as int]
}

/// The decimal numeral of `n`, without leading zeros.
pub open spec fn decimal_of(n: nat) -> Seq<char>
    decreases n,
{
    if n < 10 {
        seq![digit_char(n)]
    } else {
        decimal_of(n / 10).push(digit_char(n % 10))
    }
}

/// The line printed for one diagnostic:
/// `<file>:<line>:<column>: data-<plugin> - You are using a pro feature`.
pub open spec fn line_of(d: DiagnosticView) -> Seq<char> {
    d.file + ":"@ + decimal_of(d.line as nat) + ":"@ + decimal_of(d.column as nat) + ": data-"@
        + d.plugin + " - You are using a pro feature"@
}

/// The lines printed for a run: the success line alone when it found nothing,
/// else one line per diagnostic, in order.
pub open spec fn report_of(ds: Seq<DiagnosticView>) -> Seq<Seq<char>> {
    if ds.len() == 0 {
        seq![SUCCESS_LINE@]
    } else {
        ds.map_values(|d: DiagnosticView| line_of(d))
    }
}

/// The decimal numeral of `n`.
pub fn decimal(n: usize) -> (r: String)
    ensures
        r@ == decimal_of(n as nat),
    decreases n,
{
    proof {
        reveal_strlit("0123456789");
    }
    assert(DIGITS@ =~= seq!['0', '1', '2', '3', '4', '5', '6', '7', '8', '9']);
    if n < 10 {
        let s = String::from_str(DIGITS.substring_char(n, n + 1));
        assert(s@ =~= seq![digit_char(n as nat)]);
        s
    } else {
        let mut s = decimal(n / 10);
        let d: usize = n % 10;
        let t = DIGITS.substring_char(d, d + 1);
        assert(t@ =~= seq![digit_char(n as nat % 10)]);
        s.append(t);
        assert(s@ =~= decimal_of(n as nat));
        s
    }
}

/// The line printed for one diagnostic.
pub fn render_diagnostic(d: &Diagnostic) -> (r: String)
    ensures
        r@ == line_of(d@),
{
    let mut s = d.file.clone();
    s.append(":");
    let line = decimal(d.line);
    s.append(line.as_str());
    s.append(":");
    let column = decimal(d.column);
    s.append(column.as_str());
    s.append(": data-");
    s.append(d.plugin.as_str());
    s.append(" - You are using a pro feature");
    s
}

/// The lines printed for a run's diagnostics.
pub fn render_report(ds: &Vec<Diagnostic>) -> (r: Vec<String>)
    ensures
        r@.map_values(|s: String| s@) == report_of(diagnostic_views(ds@)),
{
    let mut r: Vec<String> = Vec::new();
    if ds.len() == 0 {
        r.push(String::from_str(SUCCESS_LINE));
        assert(r@.map_values(|s: String| s@) =~= report_of(diagnostic_views(ds@)));
        return r;
    }
    let mut i: usize = 0;
    while i < ds.len()
        invariant
            i <= ds@.len(),
            r@.len() == i,
            forall|j: int| 0 <= j < i ==> #[trigger] r@[j]@ == line_of(ds@[j]@),
        decreases ds@.len() - i,
    {
        let line = render_diagnostic(&ds[i]);
        r.push(line);
        i = i + 1;
    }
    assert(r@.map_values(|s: String| s@) =~= report_of(diagnostic_views(ds@)));
    r
}

} // verus!
