//! Asks for a blank line before `elseif` and `else`: a branch keyword that
//! comes on the line right after the end of the previous branch is reported.
use vstd::prelude::*;
use crate::ast::{Block, ElseIf, If, TokenRef, stmt_last, stmt_last_token};
use crate::node::{NodeKey, NodeWrapper};
use crate::registry::Registry;
use crate::report::{LintReport, RuleInfo, ReportView, lemma_report_views_push, report_views, warning_at};
use crate::rules::{RuleKind, RuleView, walk_effect};

verus! {

pub const RULE_NAME: &'static str = "one_line_before_else";

pub open spec fn else_if_message() -> Seq<char> {
    "There should be a line before else if"@
}

pub open spec fn else_message() -> Seq<char> {
    "There should be a line before else"@
}

/// The last token of the last statement of a block, if it has statements.
pub open spec fn block_last(b: Block) -> Option<TokenRef> {
    if b.stmts@.len() > 0 {
        stmt_last(b.stmts@.last().0)
    } else {
        None
    }
}

/// Whether a branch keyword at `kw` comes on the line right after `prev` ends.
pub open spec fn right_after(prev: TokenRef, kw: TokenRef) -> bool {
    prev.token.end.line + 1 == kw.token.start.line
}

/// One `elseif` branch: a report when it follows right after the previous
/// branch. The branch becomes the previous one unless it was not reported
/// although a previous branch ended before it.
pub open spec fn else_if_step(prev: Option<TokenRef>, e: ElseIf) -> (Option<TokenRef>, Seq<ReportView>) {
    let kw = e.else_if_token;
    let next = if e.block.stmts@.len() > 0 { block_last(e.block) } else { prev };
    match prev {
        Some(p) => if right_after(p, kw) {
            (next, seq![warning_at(kw.token.start.line, kw.token.start.character, else_if_message())])
        } else {
            (prev, Seq::empty())
        },
        None => (next, Seq::empty()),
    }
}

pub open spec fn else_if_scan(prev: Option<TokenRef>, eis: Seq<ElseIf>) -> (Option<TokenRef>, Seq<ReportView>)
    decreases eis.len(),
{
    if eis.len() == 0 {
        (prev, Seq::empty())
    } else {
        let (p, r) = else_if_scan(prev, eis.drop_last());
        let (p2, r2) = else_if_step(p, eis.last());
        (p2, r + r2)
    }
}

/// The diagnostics for one `if` statement.
pub open spec fn else_reports(i: If) -> Seq<ReportView> {
    let (prev, r) = else_if_scan(block_last(i.block), i.else_if@);
    match (i.else_block, i.else_token, prev) {
        (Some(_), Some(kw), Some(p)) => if right_after(p, kw) {
            r.push(warning_at(kw.token.start.line, kw.token.start.character, else_message()))
        } else {
            r
        },
        _ => r,
    }
}

fn last_of_block(b: &Block) -> (r: Option<&TokenRef>)
    ensures
        crate::ast::opt_ref_is(r, block_last(*b)),
{
    if b.stmts.len() > 0 {
        stmt_last_token(&b.stmts[b.stmts.len() - 1].0)
    } else {
        None
    }
}

fn is_right_after(prev: &TokenRef, kw: &TokenRef) -> (r: bool)
    ensures
        r == right_after(*prev, *kw),
{
    let line = kw.token.start_position().line();
    line > 0 && prev.token.end_position().line() == line - 1
}

pub struct OneLineBeforeElse {
    pub reports: Vec<LintReport>,
}

impl OneLineBeforeElse {
    pub fn info() -> (r: RuleInfo)
        ensures
            r.name == RULE_NAME,
    {
        RuleInfo {
            name: RULE_NAME,
            description: "Require a blank line before else",
            version: "20230224",
            config_example: "",
        }
    }

    pub open spec fn state(&self) -> RuleView {
        RuleView { kind: RuleKind::OneLineBeforeElse, reports: report_views(self.reports@), setting: 0, last_line: 0 }
    }

    /// Subscribes, under `rule_name`, to entering `if` statements.
    pub fn apply(rules: &mut Registry, rule_name: &str) -> (r: Self)
        requires
            old(rules).wf(),
        ensures
            final(rules).wf(),
            final(rules).bound_walker(*old(rules), rule_name@, NodeKey::If, crate::node::WalkTy::Enter, RuleKind::OneLineBeforeElse),
            r.reports@.len() == 0,
    {
        rules.listen_enter(rule_name, NodeKey::If, RuleKind::OneLineBeforeElse);
        OneLineBeforeElse { reports: Vec::new() }
    }

    pub fn enter_if<'a>(&mut self, node: NodeWrapper<'a>) -> (r: NodeWrapper<'a>)
        ensures
            r == node,
            final(self).state() == walk_effect(RuleKind::OneLineBeforeElse, old(self).state(), node),
    {
        if let NodeWrapper::If(if_stmt) = &node {
            let ghost eis = if_stmt.else_if@;
            let mut prev = last_of_block(&if_stmt.block);
            let mut k: usize = 0;
            while k < if_stmt.else_if.len()
                invariant
                    eis == if_stmt.else_if@,
                    k <= eis.len(),
                    ({
                        let (p, r) = else_if_scan(block_last(if_stmt.block), eis.take(k as int));
                        &&& crate::ast::opt_ref_is(prev, p)
                        &&& report_views(self.reports@) == report_views(old(self).reports@) + r
                    }),
                decreases if_stmt.else_if.len() - k,
            {
                proof {
                    assert(eis.take(k + 1).drop_last() =~= eis.take(k as int));
                }
                let e = &if_stmt.else_if[k];
                let kw = &e.else_if_token;
                let ghost before = self.reports@;
                let ghost (p0, r0) = else_if_scan(block_last(if_stmt.block), eis.take(k as int));
                proof {
                    assert(eis.take(k + 1).last() == *e);
                }
                match prev {
                    Some(p) => {
                        if is_right_after(p, kw) {
                            let msg = "There should be a line before else if".to_owned();
                            let start = kw.token.start_position();
                            let rep = LintReport::warning(start.line(), start.character(), msg);
                            proof {
                                lemma_report_views_push(before, rep);
                                assert(seq![rep@] =~= Seq::<ReportView>::empty().push(rep@));
                                assert(r0 + seq![rep@] =~= r0.push(rep@));
                            }
                            self.reports.push(rep);
                            if e.block.stmts.len() > 0 {
                                prev = last_of_block(&e.block);
                            }
                        }
                    },
                    None => {
                        if e.block.stmts.len() > 0 {
                            prev = last_of_block(&e.block);
                        }
                    },
                }
                proof {
                    let (p, r) = else_if_scan(block_last(if_stmt.block), eis.take(k + 1));
                    assert(r0 + Seq::<ReportView>::empty() =~= r0);
                    assert(report_views(self.reports@) =~= report_views(old(self).reports@) + r);
                }
                k = k + 1;
            }
            proof {
                assert(eis.take(eis.len() as int) =~= eis);
            }
            match (&if_stmt.else_block, &if_stmt.else_token, prev) {
                (Some(_), Some(kw), Some(p)) => {
                    if is_right_after(p, kw) {
                        let msg = "There should be a line before else".to_owned();
                        let start = kw.token.start_position();
                        let rep = LintReport::warning(start.line(), start.character(), msg);
                        proof {
                            lemma_report_views_push(self.reports@, rep);
                        }
                        self.reports.push(rep);
                    }
                },
                _ => {},
            }
            proof {
                assert(report_views(self.reports@) =~= report_views(old(self).reports@) + else_reports(**if_stmt));
            }
        }
        node
    }
}

} // verus!
