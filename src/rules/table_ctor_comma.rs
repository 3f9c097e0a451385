//! Requires a comma after the last field of a table constructor whose closing
//! brace is on another line.
use vstd::prelude::*;
use crate::ast::{Field, TableConstructor, TokenRef, expr_last, expression_last_token};
use crate::node::{NodeKey, NodeWrapper};
use crate::registry::Registry;
use crate::report::{LintReport, RuleInfo, ReportView, report_views, warning_at};
use crate::rules::{RuleKind, RuleView, walk_effect};

verus! {

pub const RULE_NAME: &'static str = "table_ctor_comma";

pub open spec fn comma_message() -> Seq<char> {
    "Table constructor should have a comma after the last field"@
}

pub open spec fn field_last(f: Field) -> Option<TokenRef> {
    match f {
        Field::ExpressionKey { value, .. } => expr_last(value),
        Field::NameKey { value, .. } => expr_last(value),
        Field::NoKey(e) => expr_last(e),
    }
}

/// A report at the end of the last field when no comma follows it and the
/// closing brace is on another line.
pub open spec fn comma_reports(t: TableConstructor) -> Seq<ReportView> {
    if t.fields@.len() > 0 && t.fields@.last().1 is None {
        match field_last(t.fields@.last().0) {
            Some(tok) => if tok.token.end.line != t.close.token.start.line {
                seq![warning_at(tok.token.end.line, tok.token.end.character, comma_message())]
            } else {
                Seq::empty()
            },
            None => Seq::empty(),
        }
    } else {
        Seq::empty()
    }
}

pub struct TableCtorComma {
    pub reports: Vec<LintReport>,
}

impl TableCtorComma {
    pub fn info() -> (r: RuleInfo)
        ensures
            r.name == RULE_NAME,
    {
        RuleInfo {
            name: RULE_NAME,
            description: "Require comma after last field of table ctor",
            version: "20230224",
            config_example: "",
        }
    }

    pub open spec fn state(&self) -> RuleView {
        RuleView { kind: RuleKind::TableCtorComma, reports: report_views(self.reports@), setting: 0, last_line: 0 }
    }

    /// Subscribes, under `rule_name`, to entering table constructors.
    pub fn apply(rules: &mut Registry, rule_name: &str) -> (r: Self)
        requires
            old(rules).wf(),
        ensures
            final(rules).wf(),
            final(rules).bound_walker(*old(rules), rule_name@, NodeKey::TableConstructor, crate::node::WalkTy::Enter, RuleKind::TableCtorComma),
            r.reports@.len() == 0,
    {
        rules.listen_enter(rule_name, NodeKey::TableConstructor, RuleKind::TableCtorComma);
        TableCtorComma { reports: Vec::new() }
    }

    pub fn enter_table_ctor_block<'a>(&mut self, node: NodeWrapper<'a>) -> (r: NodeWrapper<'a>)
        ensures
            r == node,
            final(self).state() == walk_effect(RuleKind::TableCtorComma, old(self).state(), node),
    {
        if let NodeWrapper::TableConstructor(t) = &node {
            let n = t.fields.len();
            if n > 0 && t.fields[n - 1].1.is_none() {
                let last = match &t.fields[n - 1].0 {
                    Field::ExpressionKey { value, .. } => expression_last_token(value),
                    Field::NameKey { value, .. } => expression_last_token(value),
                    Field::NoKey(e) => expression_last_token(e),
                };
                match last {
                    Some(tok) => {
                        let end = tok.token.end_position();
                        if end.line() != t.close.token.start_position().line() {
                            let msg = "Table constructor should have a comma after the last field".to_owned();
                            self.reports.push(LintReport::warning(end.line(), end.character(), msg));
                        }
                    },
                    None => {},
                }
            }
            proof {
                assert(report_views(self.reports@) =~= report_views(old(self).reports@) + comma_reports(**t));
            }
        }
        node
    }
}

} // verus!
