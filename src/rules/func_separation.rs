//! Requires blank lines between two function declarations that follow each other.
use vstd::prelude::*;
use crate::ast::{FunctionDeclaration, FunctionName, Stmt, TokenRef};
use crate::node::{NodeKey, NodeWrapper};
use crate::registry::Registry;
use crate::report::{LintReport, RuleInfo, ReportView, lemma_report_views_push, report_views, warning_at};
use crate::rules::{RuleKind, RuleView, walk_effect};
use crate::text::{capped, chars_of, decimal, string_of};
use crate::token::{LexKind, Token};

verus! {

pub const RULE_NAME: &'static str = "func_separation";

/// The number of blank lines asked for when the configuration gives none.
pub const DEFAULT_MIN_LINE: usize = 2;

/// The text of the diagnostic for the function named `name`.
pub open spec fn separation_text(name: Seq<char>, min: usize) -> Seq<char> {
    "Function declaration '"@ + name + "' should be separated from the previous function declaration by at least "@
        + decimal(min as nat) + " empty lines"@
}

/// Relies on `format!`, which writes the name as it is and the integer in decimal.
#[verifier::external_body]
fn separation_message(name: &str, min: usize) -> (r: String)
    ensures
        r@ == separation_text(name@, min),
{
    format!(
        "Function declaration '{}' should be separated from the previous function declaration by at least {} empty lines",
        name,
        min
    )
}

pub open spec fn count_newlines(s: Seq<char>) -> nat
    decreases s.len(),
{
    if s.len() == 0 {
        0
    } else {
        count_newlines(s.drop_last()) + if s.last() == '\n' {
            1nat
        } else {
            0nat
        }
    }
}

/// The line breaks in the whitespace among `ts`.
pub open spec fn trivia_newlines(ts: Seq<Token>) -> nat
    decreases ts.len(),
{
    if ts.len() == 0 {
        0
    } else {
        trivia_newlines(ts.drop_last()) + if ts.last().kind == LexKind::Whitespace {
            count_newlines(ts.last().text@)
        } else {
            0nat
        }
    }
}

pub open spec fn tokens_text(ts: Seq<Token>) -> Seq<char>
    decreases ts.len(),
{
    if ts.len() == 0 {
        Seq::empty()
    } else {
        tokens_text(ts.drop_last()) + ts.last().text@
    }
}

/// A token with its trivia, as it reads in the source.
pub open spec fn ref_text(t: TokenRef) -> Seq<char> {
    tokens_text(t.leading@) + t.token.text@ + tokens_text(t.trailing@)
}

pub open spec fn names_text(ns: Seq<(TokenRef, Option<TokenRef>)>) -> Seq<char>
    decreases ns.len(),
{
    if ns.len() == 0 {
        Seq::empty()
    } else {
        names_text(ns.drop_last()) + ref_text(ns.last().0) + match ns.last().1 {
            Some(p) => ref_text(p),
            None => Seq::empty(),
        }
    }
}

/// A function's name as it reads in the source.
pub open spec fn name_text(n: FunctionName) -> Seq<char> {
    names_text(n.names@) + match n.method {
        Some((colon, m)) => ref_text(colon) + ref_text(m),
        None => Seq::empty(),
    }
}

/// The line breaks between the end of `x` and the start of `y`, and whether
/// they leave fewer than `min` blank lines.
pub open spec fn pair_report(x: FunctionDeclaration, y: FunctionDeclaration, min: usize) -> Option<ReportView> {
    let n = capped(trivia_newlines(x.body.end_token.trailing@) + trivia_newlines(y.function_token.leading@) as int);
    if n == 0 || n - 1 < min {
        Some(warning_at(x.body.end_token.token.end.line, x.body.end_token.token.end.character, separation_text(name_text(y.name), min)))
    } else {
        None
    }
}

/// The diagnostics for the statements of a block, one for each function
/// declaration placed too close to the declaration before it.
pub open spec fn separation_reports(stmts: Seq<(Stmt, Option<TokenRef>)>, min: usize) -> Seq<ReportView>
    decreases stmts.len(),
{
    if stmts.len() < 2 {
        Seq::empty()
    } else {
        let before = separation_reports(stmts.drop_last(), min);
        match (stmts[stmts.len() - 2].0, stmts.last().0) {
            (Stmt::FunctionDeclaration(x), Stmt::FunctionDeclaration(y)) => match pair_report(x, y, min) {
                Some(r) => before.push(r),
                None => before,
            },
            _ => before,
        }
    }
}

/// Adds the line breaks in the whitespace among `ts` to `count`, stopping at the largest `usize`.
fn add_newlines(count: usize, ts: &Vec<Token>) -> (r: usize)
    ensures
        r == capped(count + trivia_newlines(ts@)),
{
    let mut c = count;
    let mut i: usize = 0;
    while i < ts.len()
        invariant
            i <= ts@.len(),
            c == capped(count + trivia_newlines(ts@.take(i as int))),
        decreases ts.len() - i,
    {
        proof {
            assert(ts@.take(i + 1).drop_last() =~= ts@.take(i as int));
        }
        if ts[i].kind == LexKind::Whitespace {
            let chars = chars_of(ts[i].text.as_str());
            let ghost base = count + trivia_newlines(ts@.take(i as int));
            let mut j: usize = 0;
            while j < chars.len()
                invariant
                    j <= chars@.len(),
                    chars@ == ts@[i as int].text@,
                    base == count + trivia_newlines(ts@.take(i as int)),
                    c == capped(base + count_newlines(chars@.take(j as int))),
                decreases chars.len() - j,
            {
                proof {
                    assert(chars@.take(j + 1).drop_last() =~= chars@.take(j as int));
                    assert(chars@.take(j + 1).last() == chars@[j as int]);
                }
                let ghost x = base + count_newlines(chars@.take(j as int));
                proof {
                    assert(x >= 0);
                    assert(c < usize::MAX ==> x == c as int);
                }
                if chars[j] == '\n' && c < usize::MAX {
                    c = c + 1;
                }
                j = j + 1;
            }
            proof {
                assert(chars@.take(chars@.len() as int) =~= chars@);
            }
        }
        i = i + 1;
    }
    proof {
        assert(ts@.take(ts@.len() as int) =~= ts@);
    }
    c
}

fn append_tokens(out: &mut Vec<char>, ts: &Vec<Token>)
    ensures
        final(out)@ == old(out)@ + tokens_text(ts@),
{
    let mut i: usize = 0;
    while i < ts.len()
        invariant
            i <= ts@.len(),
            out@ == old(out)@ + tokens_text(ts@.take(i as int)),
        decreases ts.len() - i,
    {
        proof {
            assert(ts@.take(i + 1).drop_last() =~= ts@.take(i as int));
        }
        let mut more = chars_of(ts[i].text.as_str());
        out.append(&mut more);
        proof {
            assert(out@ =~= old(out)@ + tokens_text(ts@.take(i + 1)));
        }
        i = i + 1;
    }
    proof {
        assert(ts@.take(ts@.len() as int) =~= ts@);
    }
}

fn append_ref(out: &mut Vec<char>, t: &TokenRef)
    ensures
        final(out)@ == old(out)@ + ref_text(*t),
{
    append_tokens(out, &t.leading);
    let mut more = chars_of(t.token.text.as_str());
    out.append(&mut more);
    append_tokens(out, &t.trailing);
    proof {
        assert(out@ =~= old(out)@ + ref_text(*t));
    }
}

/// A function's name as it reads in the source.
pub fn function_name_text(n: &FunctionName) -> (r: String)
    ensures
        r@ == name_text(*n),
{
    let mut out: Vec<char> = Vec::new();
    let mut i: usize = 0;
    while i < n.names.len()
        invariant
            i <= n.names@.len(),
            out@ == names_text(n.names@.take(i as int)),
        decreases n.names.len() - i,
    {
        proof {
            assert(n.names@.take(i + 1).drop_last() =~= n.names@.take(i as int));
        }
        append_ref(&mut out, &n.names[i].0);
        match &n.names[i].1 {
            Some(p) => append_ref(&mut out, p),
            None => {},
        }
        proof {
            assert(out@ =~= names_text(n.names@.take(i + 1)));
        }
        i = i + 1;
    }
    proof {
        assert(n.names@.take(n.names@.len() as int) =~= n.names@);
    }
    match &n.method {
        Some((colon, m)) => {
            append_ref(&mut out, colon);
            append_ref(&mut out, m);
        },
        None => {},
    }
    proof {
        assert(out@ =~= name_text(*n));
    }
    string_of(out.as_slice())
}

pub struct FuncSeparation {
    pub min_empty_line: usize,
    pub reports: Vec<LintReport>,
}

impl FuncSeparation {
    pub fn info() -> (r: RuleInfo)
        ensures
            r.name == RULE_NAME,
    {
        RuleInfo {
            name: RULE_NAME,
            description: "Require a blank line between function declarations",
            version: "20230224",
            config_example: "min_line: 2",
        }
    }

    pub open spec fn state(&self) -> RuleView {
        RuleView {
            kind: RuleKind::FuncSeparation,
            reports: report_views(self.reports@),
            setting: self.min_empty_line,
            last_line: 0,
        }
    }

    /// Subscribes, under `rule_name`, to entering blocks, asking for `min_linebreak` blank lines.
    pub fn apply(rules: &mut Registry, rule_name: &str, min_linebreak: usize) -> (r: Self)
        requires
            old(rules).wf(),
        ensures
            final(rules).wf(),
            final(rules).bound_walker(*old(rules), rule_name@, NodeKey::Block, crate::node::WalkTy::Enter, RuleKind::FuncSeparation),
            r.reports@.len() == 0,
            r.min_empty_line == min_linebreak,
    {
        rules.listen_enter(rule_name, NodeKey::Block, RuleKind::FuncSeparation);
        FuncSeparation { min_empty_line: min_linebreak, reports: Vec::new() }
    }

    /// Checks each pair of function declarations that follow each other in a block.
    pub fn enter_block<'a>(&mut self, node: NodeWrapper<'a>) -> (r: NodeWrapper<'a>)
        ensures
            r == node,
            final(self).state() == walk_effect(RuleKind::FuncSeparation, old(self).state(), node),
    {
        if let NodeWrapper::Block(block) = &node {
            let ghost stmts = block.stmts@;
            let min = self.min_empty_line;
            if block.stmts.len() == 0 {
                proof {
                    assert(report_views(self.reports@) =~= report_views(old(self).reports@) + separation_reports(stmts, min));
                }
                return node;
            }
            let mut k: usize = 1;
            proof {
                assert(separation_reports(stmts.take(1), min) == Seq::<ReportView>::empty());
                assert(report_views(self.reports@) =~= report_views(old(self).reports@) + separation_reports(stmts.take(1), min));
            }
            while k < block.stmts.len()
                invariant
                    stmts == block.stmts@,
                    1 <= k <= stmts.len(),
                    min == self.min_empty_line,
                    self.min_empty_line == old(self).min_empty_line,
                    report_views(self.reports@) == report_views(old(self).reports@) + separation_reports(stmts.take(k as int), min),
                decreases block.stmts.len() - k,
            {
                proof {
                    assert(stmts.take(k + 1).drop_last() =~= stmts.take(k as int));
                    assert(stmts.take(k + 1)[k - 1] == stmts[k - 1]);
                    assert(stmts.take(k + 1).last() == stmts[k as int]);
                }
                match (&block.stmts[k - 1].0, &block.stmts[k].0) {
                    (Stmt::FunctionDeclaration(x), Stmt::FunctionDeclaration(y)) => {
                        let n0 = add_newlines(0, &x.body.end_token.trailing);
                        let n = add_newlines(n0, &y.function_token.leading);
                        proof {
                            assert(n == capped(trivia_newlines(x.body.end_token.trailing@) + trivia_newlines(y.function_token.leading@) as int));
                        }
                        let ghost before = self.reports@;
                        let ghost prev = separation_reports(stmts.take(k as int), min);
                        if n == 0 || n - 1 < min {
                            let name = function_name_text(&y.name);
                            let msg = separation_message(name.as_str(), min);
                            let end = x.body.end_token.token.end_position();
                            let rep = LintReport::warning(end.line(), end.character(), msg);
                            proof {
                                assert(pair_report(*x, *y, min) == Some(rep@));
                                lemma_report_views_push(before, rep);
                                assert(separation_reports(stmts.take(k + 1), min) == prev.push(rep@));
                            }
                            self.reports.push(rep);
                            proof {
                                assert(report_views(self.reports@) =~= report_views(old(self).reports@) + separation_reports(stmts.take(k + 1), min));
                            }
                        } else {
                            proof {
                                assert(pair_report(*x, *y, min) is None);
                                assert(separation_reports(stmts.take(k + 1), min) == prev);
                            }
                        }
                    },
                    _ => {
                        proof {
                            assert(report_views(self.reports@) =~= report_views(old(self).reports@) + separation_reports(stmts.take(k + 1), min));
                        }
                    },
                }
                k = k + 1;
            }
            proof {
                assert(stmts.take(stmts.len() as int) =~= stmts);
            }
        }
        node
    }
}

} // verus!
