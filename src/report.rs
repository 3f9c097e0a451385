//! Diagnostics, and the catalog of the rules that the engine knows.
use vstd::prelude::*;

verus! {

/// Where a diagnostic points. Line `0` marks a diagnostic about the whole file.
pub struct Pos {
    pub file: String,
    pub line: usize,
    pub col: usize,
}

pub struct PosView {
    pub file: Seq<char>,
    pub line: usize,
    pub col: usize,
}

impl View for Pos {
    type V = PosView;

    open spec fn view(&self) -> PosView {
        PosView { file: self.file@, line: self.line, col: self.col }
    }
}

impl Pos {
    /// A position in no particular file.
    pub fn new(line: usize, column: usize) -> (r: Pos)
        ensures
            r@ == (PosView { file: Seq::empty(), line, col: column }),
    {
        Pos { file: String::new(), line, col: column }
    }

    /// Sets the file and returns a copy of the result.
    pub fn with_file(&mut self, file: String) -> (r: Pos)
        ensures
            final(self)@ == (PosView { file: file@, ..old(self)@ }),
            r@ == final(self)@,
    {
        self.file = file;
        self.duplicate()
    }

    pub fn duplicate(&self) -> (r: Pos)
        ensures
            r@ == self@,
    {
        Pos { file: self.file.clone(), line: self.line, col: self.col }
    }
}

#[derive(Clone, Copy, Debug, PartialEq, Eq, Structural)]
pub enum ReportLevel {
    Info,
    Warning,
    Error,
}

/// One diagnostic of one rule.
pub struct LintReport {
    pub pos: Pos,
    pub level: ReportLevel,
    pub msg: String,
}

pub struct ReportView {
    pub pos: PosView,
    pub level: ReportLevel,
    pub msg: Seq<char>,
}

impl View for LintReport {
    type V = ReportView;

    open spec fn view(&self) -> ReportView {
        ReportView { pos: self.pos@, level: self.level, msg: self.msg@ }
    }
}

/// The views of a list of diagnostics.
pub open spec fn report_views(v: Seq<LintReport>) -> Seq<ReportView> {
    v.map_values(|r: LintReport| r@)
}

pub proof fn lemma_report_views_push(v: Seq<LintReport>, x: LintReport)
    ensures
        report_views(v.push(x)) == report_views(v).push(x@),
{
    assert(report_views(v.push(x)) =~= report_views(v).push(x@));
}

/// A warning at a position in no particular file.
pub open spec fn warning_at(line: usize, col: usize, msg: Seq<char>) -> ReportView {
    ReportView { pos: PosView { file: Seq::empty(), line, col }, level: ReportLevel::Warning, msg }
}

impl LintReport {
    /// A warning at `line`, `col`.
    pub fn warning(line: usize, col: usize, msg: String) -> (r: LintReport)
        ensures
            r@ == warning_at(line, col, msg@),
    {
        LintReport { pos: Pos::new(line, col), level: ReportLevel::Warning, msg }
    }
}

/// What the catalog says of a rule.
pub struct RuleInfo {
    pub name: &'static str,
    pub description: &'static str,
    pub version: &'static str,
    pub config_example: &'static str,
}

} // verus!
