//! Reports lines that end with blanks; comments are taken out of the text first.
use vstd::prelude::*;
use crate::ignore::strip_cr;
use crate::lint::{non_comment_text, trim_lua_comments};
use crate::registry::Registry;
use crate::report::{LintReport, RuleInfo, ReportView, lemma_report_views_push, report_views, warning_at};
use crate::rules::{RuleKind, RuleView};
use crate::text::{capped, chars_of, pieces, split_chars, views};
use crate::token::lua_tokens;

verus! {

pub const RULE_NAME: &'static str = "no_trailing_space";

pub open spec fn trailing_message() -> Seq<char> {
    "Line ends with trailing whitespace"@
}

pub open spec fn is_blank(c: char) -> bool {
    c == ' ' || c == '\t'
}

/// How many blanks end `l`.
pub open spec fn trailing_blanks(l: Seq<char>) -> nat
    decreases l.len(),
{
    if l.len() > 0 && is_blank(l.last()) {
        trailing_blanks(l.drop_last()) + 1
    } else {
        0
    }
}

/// One diagnostic for each line that ends with a blank, numbered from 1, at
/// the column one past the number of trailing blanks.
pub open spec fn trailing_reports(lines: Seq<Seq<char>>) -> Seq<ReportView>
    decreases lines.len(),
{
    if lines.len() == 0 {
        Seq::empty()
    } else {
        let before = trailing_reports(lines.drop_last());
        let l = strip_cr(lines.last());
        if trailing_blanks(l) > 0 {
            before.push(warning_at(lines.len() as usize, capped(trailing_blanks(l) + 1 as int), trailing_message()))
        } else {
            before
        }
    }
}

/// The text without comments (unchanged where the tokenizer rejects it).
pub open spec fn uncommented(src: Seq<char>) -> Seq<char> {
    match lua_tokens(src) {
        Some(ts) => non_comment_text(ts),
        None => src,
    }
}

/// The text is handed on without comments, and its lines are checked.
pub open spec fn trailing_effect(st: RuleView, src: Seq<char>) -> (RuleView, Seq<char>) {
    let t = uncommented(src);
    (RuleView { reports: st.reports + trailing_reports(pieces(t, '\n')), ..st }, t)
}

pub struct NoTrailingWhitespace {
    pub reports: Vec<LintReport>,
}

impl NoTrailingWhitespace {
    pub fn info() -> (r: RuleInfo)
        ensures
            r.name == RULE_NAME,
    {
        RuleInfo {
            name: RULE_NAME,
            description: "Disallow trailing whitespace",
            version: "20230224",
            config_example: "",
        }
    }

    /// Subscribes, under `rule_name`, to the preprocessing pass.
    pub fn apply(rules: &mut Registry, rule_name: &str) -> (r: Self)
        requires
            old(rules).wf(),
        ensures
            final(rules).wf(),
            final(rules).bound_preprocessor(*old(rules), rule_name@, RuleKind::NoTrailingSpace),
            r.reports@.len() == 0,
    {
        rules.preprocess(rule_name, RuleKind::NoTrailingSpace);
        NoTrailingWhitespace { reports: Vec::new() }
    }

    pub fn preprocess(&mut self, source: String) -> (r: String)
        ensures
            r@ == uncommented(source@),
            report_views(final(self).reports@) == report_views(old(self).reports@)
                + trailing_reports(pieces(uncommented(source@), '\n')),
    {
        let text = match trim_lua_comments(source.as_str()) {
            Some(t) => t,
            None => source,
        };
        let chars = chars_of(text.as_str());
        let lines = split_chars(chars.as_slice(), '\n');
        let ghost ls = views(lines@);
        let mut i: usize = 0;
        while i < lines.len()
            invariant
                ls == views(lines@),
                i <= lines@.len(),
                report_views(self.reports@) == report_views(old(self).reports@) + trailing_reports(ls.take(i as int)),
            decreases lines.len() - i,
        {
            let line = &lines[i];
            let n = line.len();
            let keep: usize = if n > 0 && line[n - 1] == '\r' { n - 1 } else { n };
            let ghost l = strip_cr(ls[i as int]);
            proof {
                assert(line@.take(keep as int) =~= l);
                assert(ls.take(i + 1).drop_last() =~= ls.take(i as int));
                assert(ls.take(i + 1).last() == ls[i as int]);
            }
            let mut blanks: usize = 0;
            proof {
                assert(l.take(keep as int) =~= l);
            }
            while blanks < keep && (line[keep - 1 - blanks] == ' ' || line[keep - 1 - blanks] == '\t')
                invariant
                    blanks <= keep <= line@.len(),
                    l == line@.take(keep as int),
                    trailing_blanks(l) == blanks + trailing_blanks(l.take(keep - blanks)),
                decreases keep - blanks,
            {
                proof {
                    assert(l.take(keep - blanks).drop_last() =~= l.take(keep - blanks - 1));
                }
                blanks = blanks + 1;
            }
            proof {
                if blanks < keep {
                    assert(l.take(keep - blanks).last() == line@[keep - 1 - blanks]);
                }
                assert(trailing_blanks(l) == blanks);
            }
            if blanks > 0 {
                let msg = "Line ends with trailing whitespace".to_owned();
                let col = if blanks < usize::MAX { blanks + 1 } else { blanks };
                let rep = LintReport::warning(i + 1, col, msg);
                proof {
                    lemma_report_views_push(self.reports@, rep);
                    assert(ls.take(i + 1).len() == i + 1);
                }
                self.reports.push(rep);
                proof {
                    assert(report_views(self.reports@) =~= report_views(old(self).reports@)
                        + trailing_reports(ls.take(i + 1)));
                }
            } else {
                proof {
                    assert(report_views(self.reports@) =~= report_views(old(self).reports@)
                        + trailing_reports(ls.take(i + 1)));
                }
            }
            i = i + 1;
        }
        proof {
            assert(ls.take(ls.len() as int) =~= ls);
        }
        text
    }
}

} // verus!
