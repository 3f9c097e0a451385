//! The rules: each one owns its diagnostics and whatever it remembers between
//! callbacks, and reacts at the dispatch points it subscribed to.
use vstd::prelude::*;
use crate::node::NodeWrapper;
use crate::report::{LintReport, ReportView, RuleInfo, report_views};
use crate::token::{Token, TokenView};

pub mod eof_blank_line;
pub mod func_separation;
pub mod max_column_width;
pub mod no_trailing_space;
pub mod one_line_before_else;
pub mod table_ctor_comma;

use eof_blank_line::EofBlankLine;
use func_separation::FuncSeparation;
use max_column_width::MaxColumnWidth;
use no_trailing_space::NoTrailingWhitespace;
use one_line_before_else::OneLineBeforeElse;
use table_ctor_comma::TableCtorComma;

verus! {

/// The rules that the engine knows; each has one callback.
#[derive(Clone, Copy, Debug, PartialEq, Eq, Structural)]
pub enum RuleKind {
    EofBlankLine,
    FuncSeparation,
    MaxColumnWidth,
    NoTrailingSpace,
    OneLineBeforeElse,
    TableCtorComma,
}

/// What a rule holds: its kind, its diagnostics so far, its setting (a width,
/// a number of lines) and the last line it reported.
pub struct RuleView {
    pub kind: RuleKind,
    pub reports: Seq<ReportView>,
    pub setting: usize,
    pub last_line: usize,
}

/// The private state of one bound rule.
pub enum RuleState {
    EofBlankLine(EofBlankLine),
    FuncSeparation(FuncSeparation),
    MaxColumnWidth(MaxColumnWidth),
    NoTrailingSpace(NoTrailingWhitespace),
    OneLineBeforeElse(OneLineBeforeElse),
    TableCtorComma(TableCtorComma),
}

impl View for RuleState {
    type V = RuleView;

    open spec fn view(&self) -> RuleView {
        match self {
            RuleState::EofBlankLine(r) => RuleView {
                kind: RuleKind::EofBlankLine,
                reports: report_views(r.reports@),
                setting: 0,
                last_line: 0,
            },
            RuleState::FuncSeparation(r) => RuleView {
                kind: RuleKind::FuncSeparation,
                reports: report_views(r.reports@),
                setting: r.min_empty_line,
                last_line: 0,
            },
            RuleState::MaxColumnWidth(r) => RuleView {
                kind: RuleKind::MaxColumnWidth,
                reports: report_views(r.reports@),
                setting: r.max_column_width,
                last_line: r.last_check_line,
            },
            RuleState::NoTrailingSpace(r) => RuleView {
                kind: RuleKind::NoTrailingSpace,
                reports: report_views(r.reports@),
                setting: 0,
                last_line: 0,
            },
            RuleState::OneLineBeforeElse(r) => RuleView {
                kind: RuleKind::OneLineBeforeElse,
                reports: report_views(r.reports@),
                setting: 0,
                last_line: 0,
            },
            RuleState::TableCtorComma(r) => RuleView {
                kind: RuleKind::TableCtorComma,
                reports: report_views(r.reports@),
                setting: 0,
                last_line: 0,
            },
        }
    }
}

/// `st` with `more` appended to its diagnostics.
pub open spec fn with_reports(st: RuleView, more: Seq<ReportView>) -> RuleView {
    RuleView { reports: st.reports + more, ..st }
}

/// What a preprocessing callback of `kind` does to a rule's state and to the text.
pub open spec fn pre_effect(kind: RuleKind, st: RuleView, src: Seq<char>) -> (RuleView, Seq<char>) {
    if st.kind != kind {
        (st, src)
    } else {
        match kind {
            RuleKind::EofBlankLine => (eof_blank_line::eof_effect(st, src), src),
            RuleKind::NoTrailingSpace => no_trailing_space::trailing_effect(st, src),
            _ => (st, src),
        }
    }
}

/// What a token callback of `kind` does to a rule's state; the token is kept.
pub open spec fn token_effect(kind: RuleKind, st: RuleView, tok: TokenView) -> RuleView {
    if st.kind != kind {
        st
    } else {
        match kind {
            RuleKind::MaxColumnWidth => max_column_width::width_effect(st, tok),
            _ => st,
        }
    }
}

/// What a walk callback of `kind` does to a rule's state; the node is kept.
pub open spec fn walk_effect(kind: RuleKind, st: RuleView, node: NodeWrapper) -> RuleView {
    if st.kind != kind {
        st
    } else {
        match (kind, node) {
            (RuleKind::FuncSeparation, NodeWrapper::Block(b)) => with_reports(
                st,
                func_separation::separation_reports(b.stmts@, st.setting),
            ),
            (RuleKind::OneLineBeforeElse, NodeWrapper::If(i)) => with_reports(
                st,
                one_line_before_else::else_reports(*i),
            ),
            (RuleKind::TableCtorComma, NodeWrapper::TableConstructor(t)) => with_reports(
                st,
                table_ctor_comma::comma_reports(*t),
            ),
            _ => st,
        }
    }
}

/// The state of a freshly bound rule of `kind` with `setting`.
pub open spec fn initial_view(kind: RuleKind, setting: usize) -> RuleView {
    RuleView {
        kind,
        reports: Seq::empty(),
        setting: match kind {
            RuleKind::MaxColumnWidth | RuleKind::FuncSeparation => setting,
            _ => 0,
        },
        last_line: 0,
    }
}

/// The rule that a configuration calls `name`.
pub open spec fn rule_kind_spec(name: Seq<char>) -> Option<RuleKind> {
    if name == "eof_blank_line"@ {
        Some(RuleKind::EofBlankLine)
    } else if name == "func_separation"@ {
        Some(RuleKind::FuncSeparation)
    } else if name == "max_column_width"@ {
        Some(RuleKind::MaxColumnWidth)
    } else if name == "one_line_before_else"@ {
        Some(RuleKind::OneLineBeforeElse)
    } else if name == "table_ctor_comma"@ {
        Some(RuleKind::TableCtorComma)
    } else {
        None
    }
}

/// The rule that a configuration calls `name`, if it is one that can be configured.
pub fn rule_kind_of(name: &str) -> (r: Option<RuleKind>)
    ensures
        r == rule_kind_spec(name@),
{
    let n = name.to_owned();
    if n == "eof_blank_line".to_owned() {
        Some(RuleKind::EofBlankLine)
    } else if n == "func_separation".to_owned() {
        Some(RuleKind::FuncSeparation)
    } else if n == "max_column_width".to_owned() {
        Some(RuleKind::MaxColumnWidth)
    } else if n == "one_line_before_else".to_owned() {
        Some(RuleKind::OneLineBeforeElse)
    } else if n == "table_ctor_comma".to_owned() {
        Some(RuleKind::TableCtorComma)
    } else {
        None
    }
}

/// The setting a rule takes from its configuration: `max_col` for the width
/// rule (80 when absent), `min_line` for the separation rule (2 when absent).
pub open spec fn setting_spec(kind: RuleKind, value: Option<u64>) -> usize {
    match kind {
        RuleKind::MaxColumnWidth => match value {
            Some(v) => v as usize,
            None => 80,
        },
        RuleKind::FuncSeparation => match value {
            Some(v) => v as usize,
            None => 2,
        },
        _ => 0,
    }
}

pub fn setting_of(kind: RuleKind, value: Option<u64>) -> (r: usize)
    ensures
        r == setting_spec(kind, value),
{
    match kind {
        RuleKind::MaxColumnWidth => match value {
            Some(v) => v as usize,
            None => max_column_width::DEFAULT_MAX_COLUMN_WIDTH,
        },
        RuleKind::FuncSeparation => match value {
            Some(v) => v as usize,
            None => func_separation::DEFAULT_MIN_LINE,
        },
        _ => 0,
    }
}

/// The catalog of every rule the engine knows, in a fixed order.
pub fn all_rules() -> (r: Vec<RuleInfo>)
    ensures
        r@.len() == 6,
        r@[0].name == eof_blank_line::RULE_NAME,
        r@[1].name == func_separation::RULE_NAME,
        r@[2].name == max_column_width::RULE_NAME,
        r@[3].name == no_trailing_space::RULE_NAME,
        r@[4].name == one_line_before_else::RULE_NAME,
        r@[5].name == table_ctor_comma::RULE_NAME,
{
    let mut v: Vec<RuleInfo> = Vec::new();
    v.push(EofBlankLine::info());
    v.push(FuncSeparation::info());
    v.push(MaxColumnWidth::info());
    v.push(NoTrailingWhitespace::info());
    v.push(OneLineBeforeElse::info());
    v.push(TableCtorComma::info());
    v
}

impl RuleState {
    /// The diagnostics this rule has collected.
    pub fn get_reports(&self) -> (r: &Vec<LintReport>)
        ensures
            report_views(r@) == self@.reports,
    {
        match self {
            RuleState::EofBlankLine(r) => &r.reports,
            RuleState::FuncSeparation(r) => &r.reports,
            RuleState::MaxColumnWidth(r) => &r.reports,
            RuleState::NoTrailingSpace(r) => &r.reports,
            RuleState::OneLineBeforeElse(r) => &r.reports,
            RuleState::TableCtorComma(r) => &r.reports,
        }
    }

    pub fn kind(&self) -> (r: RuleKind)
        ensures
            r == self@.kind,
    {
        match self {
            RuleState::EofBlankLine(_) => RuleKind::EofBlankLine,
            RuleState::FuncSeparation(_) => RuleKind::FuncSeparation,
            RuleState::MaxColumnWidth(_) => RuleKind::MaxColumnWidth,
            RuleState::NoTrailingSpace(_) => RuleKind::NoTrailingSpace,
            RuleState::OneLineBeforeElse(_) => RuleKind::OneLineBeforeElse,
            RuleState::TableCtorComma(_) => RuleKind::TableCtorComma,
        }
    }

    /// Runs the preprocessing callback of `kind` against this state.
    pub fn on_source(&mut self, kind: RuleKind, src: String) -> (r: String)
        ensures
            (final(self)@, r@) == pre_effect(kind, old(self)@, src@),
    {
        match self {
            RuleState::EofBlankLine(r) => {
                if kind == RuleKind::EofBlankLine {
                    return r.preprocess(src);
                }
                src
            },
            RuleState::NoTrailingSpace(r) => {
                if kind == RuleKind::NoTrailingSpace {
                    return r.preprocess(src);
                }
                src
            },
            _ => src,
        }
    }

    /// Runs the token callback of `kind` against this state.
    pub fn on_token(&mut self, kind: RuleKind, tok: Token) -> (r: Token)
        ensures
            r == tok,
            final(self)@ == token_effect(kind, old(self)@, tok@),
    {
        match self {
            RuleState::MaxColumnWidth(r) => {
                if kind == RuleKind::MaxColumnWidth {
                    r.check_token(&tok);
                }
                tok
            },
            _ => tok,
        }
    }

    /// Runs the walk callback of `kind` against this state.
    pub fn on_node<'a>(&mut self, kind: RuleKind, node: NodeWrapper<'a>) -> (r: NodeWrapper<'a>)
        ensures
            r == node,
            final(self)@ == walk_effect(kind, old(self)@, node),
    {
        match self {
            RuleState::FuncSeparation(r) => {
                if kind == RuleKind::FuncSeparation {
                    return r.enter_block(node);
                }
                node
            },
            RuleState::OneLineBeforeElse(r) => {
                if kind == RuleKind::OneLineBeforeElse {
                    return r.enter_if(node);
                }
                node
            },
            RuleState::TableCtorComma(r) => {
                if kind == RuleKind::TableCtorComma {
                    return r.enter_table_ctor_block(node);
                }
                node
            },
            _ => node,
        }
    }
}

} // verus!
