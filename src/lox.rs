//! Run-level state: the diagnostics reported while scanning and the durable
//! "run failed" flag.
use vstd::prelude::*;
use crate::scanner::{scan, scan_errors, Scanner};
use crate::text::{decimal, push_decimal, push_text};
use crate::token::{views, Token};

verus! {

/// One reported lexical problem.
#[derive(Debug)]
pub struct Report {
    pub line: usize,
    pub location: String,
    pub message: String,
}

/// The mathematical value of a [`Report`].
pub struct ReportView {
    pub line: nat,
    pub location: Seq<char>,
    pub message: Seq<char>,
}

impl View for Report {
    type V = ReportView;

    open spec fn view(&self) -> ReportView {
        ReportView { line: self.line as nat, location: self.location@, message: self.message@ }
    }
}

/// The human-readable line for a report: `[line N] Error<location>: <message>`.
pub open spec fn rendered(r: ReportView) -> Seq<char> {
    "[line "@ + decimal(r.line) + "] Error"@ + r.location + ": "@ + r.message
}

impl Report {
    /// Formats the report as one diagnostic line.
    pub fn render(&self) -> (r: String)
        ensures
            r@ == rendered(self@),
    {
        let mut s = String::new();
        push_text(&mut s, "[line ");
        push_decimal(&mut s, self.line);
        push_text(&mut s, "] Error");
        push_text(&mut s, self.location.as_str());
        push_text(&mut s, ": ");
        push_text(&mut s, self.message.as_str());
        assert(s@ =~= rendered(self@));
        s
    }
}

/// The views of a sequence of reports, in order.
pub open spec fn report_views(rs: Seq<Report>) -> Seq<ReportView> {
    rs.map_values(|r: Report| r@)
}

/// State of one run: every report so far, and whether any was made.
pub struct Lox {
    pub had_error: bool,
    pub reports: Vec<Report>,
}

impl Lox {
    /// A fresh run: nothing reported, the flag clear.
    pub fn new() -> (r: Lox)
        ensures
            !r.had_error,
            r.reports@.len() == 0,
    {
        Lox { had_error: false, reports: Vec::new() }
    }

    /// Reports `message` at `line` with no location label.
    pub fn error(&mut self, line: usize, message: &str)
        ensures
            final(self).had_error,
            report_views(final(self).reports@) == report_views(old(self).reports@).push(
                ReportView { line: line as nat, location: Seq::empty(), message: message@ },
            ),
    {
        self.report(line, "", message);
        proof {
            reveal_strlit("");
            assert(""@ =~= Seq::<char>::empty());
        }
    }

    /// Records one report and sets the run-failed flag for good.
    pub fn report(&mut self, line: usize, location: &str, message: &str)
        ensures
            final(self).had_error,
            report_views(final(self).reports@) == report_views(old(self).reports@).push(
                ReportView { line: line as nat, location: location@, message: message@ },
            ),
    {
        let r = Report {
            line,
            location: location.to_owned(),
            message: message.to_owned(),
        };
        self.reports.push(r);
        self.had_error = true;
        assert(report_views(self.reports@) =~= report_views(old(self).reports@).push(
            ReportView { line: line as nat, location: location@, message: message@ },
        ));
    }

    /// Scans `source` into its tokens, reporting each lexical error of it to
    /// this run.
    pub fn run(&mut self, source: &String) -> (r: Vec<Token>)
        requires
            source@.len() < usize::MAX,
        ensures
            views(r@) == scan(source@),
            report_views(final(self).reports@) == report_views(old(self).reports@) + scan_errors(
                source@,
            ),
            final(self).had_error == (old(self).had_error || scan_errors(source@).len() > 0),
    {
        let mut scanner = Scanner::new(source);
        scanner.scan_tokens(self);
        let r = scanner.into_tokens();
        assert(views(r@) =~= scan(source@));
        r
    }
}

} // verus!
