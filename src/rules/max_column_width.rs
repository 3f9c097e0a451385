//! Limits the width of a line: a line whose tokens end past the limit is
//! reported once, at the first column past the limit, when the first such
//! token is met.
use vstd::prelude::*;
use crate::registry::Registry;
use crate::report::{LintReport, RuleInfo, ReportView, report_views, warning_at};
use crate::rules::{RuleKind, RuleView};
use crate::text::decimal;
use crate::token::{Token, TokenView};

verus! {

pub const RULE_NAME: &'static str = "max_column_width";

/// The width used when the configuration gives none.
pub const DEFAULT_MAX_COLUMN_WIDTH: usize = 80;

/// The text of the diagnostic for a line of width `len` over the limit `max`.
pub open spec fn width_text(max: usize, len: usize) -> Seq<char> {
    "Line is expected to be at most "@ + decimal(max as nat) + " characters, but is "@ + decimal(len as nat)
        + " characters"@
}

/// Relies on `format!`, which writes each integer in decimal.
#[verifier::external_body]
fn width_message(max: usize, len: usize) -> (r: String)
    ensures
        r@ == width_text(max, len),
{
    format!("Line is expected to be at most {} characters, but is {} characters", max, len)
}

/// Whether the last character of a token stands past column `max` (its end
/// position is the column just after it).
pub open spec fn over(tok: TokenView, max: usize) -> bool {
    tok.end.character > max + 1
}

/// The diagnostic for a token that ends past the limit: on its line, at the
/// first column past the limit; the message gives the width up to the token's
/// last character.
pub open spec fn width_report(max: usize, tok: TokenView) -> ReportView {
    warning_at(tok.end.line, (max + 1) as usize, width_text(max, (tok.end.character - 1) as usize))
}

/// A token that ends past the limit is reported, unless its line already was.
pub open spec fn width_effect(st: RuleView, tok: TokenView) -> RuleView {
    if over(tok, st.setting) && st.last_line != tok.end.line {
        RuleView { reports: st.reports.push(width_report(st.setting, tok)), last_line: tok.end.line, ..st }
    } else {
        st
    }
}

/// The width rule run over a token stream.
pub open spec fn width_scan(st: RuleView, toks: Seq<TokenView>) -> RuleView
    decreases toks.len(),
{
    if toks.len() == 0 {
        st
    } else {
        width_effect(width_scan(st, toks.drop_last()), toks.last())
    }
}

/// Whether token `i` ends past `w`, and is the first token of its line to do so.
pub open spec fn first_over(toks: Seq<TokenView>, w: usize, i: int) -> bool {
    &&& over(toks[i], w)
    &&& forall|k: int| 0 <= k < i && #[trigger] toks[k].end.line == toks[i].end.line ==> !over(toks[k], w)
}

/// One diagnostic for each line that has a token ending past `w`, at the first such token.
pub open spec fn first_over_reports(toks: Seq<TokenView>, w: usize) -> Seq<ReportView>
    decreases toks.len(),
{
    if toks.len() == 0 {
        Seq::empty()
    } else {
        let r = first_over_reports(toks.drop_last(), w);
        if first_over(toks, w, toks.len() - 1) {
            r.push(width_report(w, toks.last()))
        } else {
            r
        }
    }
}

/// Tokens come in source order: lines, counted from 1, never go back.
pub open spec fn lines_in_order(toks: Seq<TokenView>) -> bool {
    &&& forall|i: int, j: int| 0 <= i < j < toks.len() ==> #[trigger] toks[i].end.line <= #[trigger] toks[j].end.line
    &&& forall|i: int| 0 <= i < toks.len() ==> #[trigger] toks[i].end.line >= 1
}

/// The line of the last token that ends past `w`, or 0.
pub open spec fn last_over_line(toks: Seq<TokenView>, w: usize) -> usize
    decreases toks.len(),
{
    if toks.len() == 0 {
        0
    } else if over(toks.last(), w) {
        toks.last().end.line
    } else {
        last_over_line(toks.drop_last(), w)
    }
}

proof fn lemma_last_over_line(toks: Seq<TokenView>, w: usize)
    requires
        lines_in_order(toks),
    ensures
        forall|k: int| 0 <= k < toks.len() && #[trigger] over(toks[k], w) ==> toks[k].end.line <= last_over_line(toks, w),
        last_over_line(toks, w) == 0 || exists|k: int| 0 <= k < toks.len() && #[trigger] over(toks[k], w) && toks[k].end.line == last_over_line(toks, w),
    decreases toks.len(),
{
    if toks.len() > 0 {
        let p = toks.drop_last();
        assert(lines_in_order(p)) by {
            assert forall|i: int, j: int| 0 <= i < j < p.len() implies #[trigger] p[i].end.line <= #[trigger] p[j].end.line by {
                assert(p[i] == toks[i] && p[j] == toks[j]);
            }
            assert forall|i: int| 0 <= i < p.len() implies #[trigger] p[i].end.line >= 1 by {
                assert(p[i] == toks[i]);
            }
        }
        lemma_last_over_line(p, w);
        let n = toks.len() - 1;
        assert(toks.last() == toks[n]);
        assert forall|k: int| 0 <= k < toks.len() && #[trigger] over(toks[k], w) implies toks[k].end.line <= last_over_line(toks, w) by {
            if k < n {
                assert(p[k] == toks[k]);
                if over(toks[n], w) {
                    assert(toks[k].end.line <= toks[n].end.line);
                }
            }
        }
        if last_over_line(toks, w) != 0 && !over(toks.last(), w) {
            let k = choose|k: int| 0 <= k < p.len() && #[trigger] over(p[k], w) && p[k].end.line == last_over_line(p, w);
            assert(toks[k] == p[k]);
        }
    }
}

/// A width rule reports a line whose tokens end past its limit exactly once,
/// at the first token of that line that ends past the limit; tokens that stay
/// within the limit are never reported.
pub proof fn lemma_width_one_report_per_line(st: RuleView, toks: Seq<TokenView>)
    requires
        st.last_line == 0,
        lines_in_order(toks),
    ensures
        width_scan(st, toks).reports == st.reports + first_over_reports(toks, st.setting),
        width_scan(st, toks).last_line == last_over_line(toks, st.setting),
        width_scan(st, toks).setting == st.setting,
    decreases toks.len(),
{
    let w = st.setting;
    if toks.len() == 0 {
        assert(st.reports + Seq::<ReportView>::empty() =~= st.reports);
    } else {
        let p = toks.drop_last();
        let n = toks.len() - 1;
        assert(lines_in_order(p)) by {
            assert forall|i: int, j: int| 0 <= i < j < p.len() implies #[trigger] p[i].end.line <= #[trigger] p[j].end.line by {
                assert(p[i] == toks[i] && p[j] == toks[j]);
            }
            assert forall|i: int| 0 <= i < p.len() implies #[trigger] p[i].end.line >= 1 by {
                assert(p[i] == toks[i]);
            }
        }
        lemma_width_one_report_per_line(st, p);
        lemma_last_over_line(p, w);
        let t = toks.last();
        assert(t == toks[n]);
        let l = last_over_line(p, w);
        assert(t.end.line >= 1);
        if over(t, w) {
            if l == t.end.line {
                let k = choose|k: int| 0 <= k < p.len() && #[trigger] over(p[k], w) && p[k].end.line == l;
                assert(toks[k] == p[k]);
                assert(!first_over(toks, w, n));
            } else {
                assert forall|k: int| 0 <= k < n && #[trigger] toks[k].end.line == toks[n].end.line implies !over(toks[k], w) by {
                    assert(toks[k] == p[k]);
                    if over(toks[k], w) {
                        assert(p[k].end.line <= l);
                        if l != 0 {
                            let j = choose|j: int| 0 <= j < p.len() && #[trigger] over(p[j], w) && p[j].end.line == l;
                            assert(toks[j] == p[j]);
                            assert(toks[j].end.line <= toks[n].end.line);
                        }
                    }
                }
                assert(first_over(toks, w, n));
            }
        }
        let prev = first_over_reports(p, w);
        assert((st.reports + prev).push(width_report(w, t)) =~= st.reports + prev.push(width_report(w, t)));
    }
}

pub struct MaxColumnWidth {
    pub reports: Vec<LintReport>,
    pub max_column_width: usize,
    pub last_check_line: usize,
}

impl MaxColumnWidth {
    pub fn info() -> (r: RuleInfo)
        ensures
            r.name == RULE_NAME,
    {
        RuleInfo {
            name: RULE_NAME,
            description: "Maximum column width",
            version: "20230224",
            config_example: "max_col: 80",
        }
    }

    pub open spec fn state(&self) -> RuleView {
        RuleView {
            kind: RuleKind::MaxColumnWidth,
            reports: report_views(self.reports@),
            setting: self.max_column_width,
            last_line: self.last_check_line,
        }
    }

    /// Subscribes, under `rule_name`, to the token pass with the limit `max_column_width`.
    pub fn apply(rules: &mut Registry, rule_name: &str, max_column_width: usize) -> (r: Self)
        requires
            old(rules).wf(),
        ensures
            final(rules).wf(),
            final(rules).bound_listener(*old(rules), rule_name@, RuleKind::MaxColumnWidth),
            r.reports@.len() == 0,
            r.max_column_width == max_column_width,
            r.last_check_line == 0,
    {
        rules.listen_token(rule_name, RuleKind::MaxColumnWidth);
        MaxColumnWidth { reports: Vec::new(), max_column_width, last_check_line: 0 }
    }

    /// Checks one token of the stream.
    pub fn check_token(&mut self, token: &Token)
        ensures
            final(self).state() == width_effect(old(self).state(), token@),
            final(self).max_column_width == old(self).max_column_width,
    {
        let end = token.end_position();
        let after = end.character();
        if after > self.max_column_width && after - 1 > self.max_column_width {
            if self.last_check_line == end.line() {
                return;
            }
            let real_len = after - 1;
            let msg = width_message(self.max_column_width, real_len);
            self.reports.push(LintReport::warning(end.line(), self.max_column_width + 1, msg));
            self.last_check_line = end.line();
            proof {
                assert(report_views(self.reports@) =~= report_views(old(self).reports@).push(
                    width_report(old(self).max_column_width, token@),
                ));
            }
        }
    }
}

} // verus!
