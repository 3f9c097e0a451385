//! Runs the engine's passes over a source: preprocessing, then the token pass.
use vstd::prelude::*;
use crate::registry::{Contexts, Registry, fire_pre, fire_token};
use crate::rules::{RuleKind, RuleView};
use crate::ignore::IgnoreRanges;
use crate::text::{chars_of, string_of};
use crate::token::{Token, TokenView, is_comment_kind, lua_tokens, token_views, tokenize};

verus! {

/// A registry populated with a chosen set of rules, ready to run over sources.
pub struct Linter {
    pub rule_registry: Registry,
}

impl Linter {
    pub open spec fn wf(&self) -> bool {
        self.rule_registry.wf()
    }
}

/// Whether a diagnostic at `line` of `file` is suppressed, when there are ranges.
pub open spec fn suppressed(ignore: Option<&IgnoreRanges>, file: Seq<char>, line: usize) -> bool {
    match ignore {
        Some(g) => g.covers(file, line as int),
        None => false,
    }
}

/// Whether a run is clean for `filename`: every diagnostic of every rule is suppressed.
pub fn all_clear(linter: &Linter, filename: &str, ignore: Option<&IgnoreRanges>) -> (r: bool)
    requires
        linter.wf(),
    ensures
        r == forall|p: int, i: int|
            0 <= p < linter.rule_registry.ctxs().len() && 0 <= i < linter.rule_registry.ctxs()[p].1.reports.len()
                ==> suppressed(ignore, filename@, #[trigger] linter.rule_registry.ctxs()[p].1.reports[i].pos.line),
{
    let names = linter.rule_registry.ctx_names();
    let ghost cs = linter.rule_registry.ctxs();
    proof {
        assert(names@.len() == cs.len()) by {
            assert(names@.map_values(|s: String| s@).len() == cs.map_values(|e: (Seq<char>, RuleView)| e.0).len());
        }
    }
    let mut p: usize = 0;
    while p < names.len()
        invariant
            linter.wf(),
            cs == linter.rule_registry.ctxs(),
            names@.map_values(|s: String| s@) == cs.map_values(|e: (Seq<char>, RuleView)| e.0),
            names@.len() == cs.len(),
            p <= names@.len(),
            forall|q: int, i: int| 0 <= q < p && 0 <= i < cs[q].1.reports.len()
                ==> suppressed(ignore, filename@, #[trigger] cs[q].1.reports[i].pos.line),
        decreases names.len() - p,
    {
        proof {
            assert(names@.map_values(|s: String| s@)[p as int] == names@[p as int]@);
            assert(cs.map_values(|e: (Seq<char>, RuleView)| e.0)[p as int] == cs[p as int].0);
            crate::registry::lemma_unique_find(cs, names@[p as int]@, p as int);
        }
        match linter.rule_registry.get_ctx(names[p].as_str()) {
            Some(st) => {
                let reports = st.get_reports();
                let mut i: usize = 0;
                while i < reports.len()
                    invariant
                        cs == linter.rule_registry.ctxs(),
                        p < cs.len(),
                        crate::report::report_views(reports@) == cs[p as int].1.reports,
                        i <= reports@.len(),
                        forall|j: int| 0 <= j < i ==> suppressed(ignore, filename@, #[trigger] cs[p as int].1.reports[j].pos.line),
                    decreases reports.len() - i,
                {
                    let line = reports[i].pos.line;
                    proof {
                        assert(cs[p as int].1.reports[i as int] == reports@[i as int]@);
                    }
                    let hidden = match ignore {
                        Some(g) => g.is_ignored(filename, line),
                        None => false,
                    };
                    if !hidden {
                        proof {
                            assert(cs[p as int].1.reports[i as int].pos.line == line);
                            assert(!suppressed(ignore, filename@, cs[p as int].1.reports[i as int].pos.line));
                        }
                        return false;
                    }
                    i = i + 1;
                }
            },
            None => {},
        }
        p = p + 1;
    }
    true
}

/// Runs the token callbacks over a token stream, one token after another.
pub open spec fn fire_tokens(ctxs: Contexts, cbs: Seq<RuleKind>, names: Seq<Seq<char>>, list: Seq<usize>, toks: Seq<TokenView>) -> Contexts
    decreases toks.len(),
{
    if toks.len() == 0 {
        ctxs
    } else {
        fire_token(fire_tokens(ctxs, cbs, names, list, toks.drop_last()), cbs, names, list, toks.last())
    }
}

/// Hands every token, in stream order, to the token callbacks; the tokens
/// come back as they were.
pub fn lint_tokens(tokens: Vec<Token>, linter: &mut Linter) -> (r: Vec<Token>)
    requires
        old(linter).wf(),
    ensures
        r@ == tokens@,
        final(linter).wf(),
        final(linter).rule_registry.same_tables(old(linter).rule_registry),
        final(linter).rule_registry.ctxs() == fire_tokens(
            old(linter).rule_registry.ctxs(),
            old(linter).rule_registry.callbacks@,
            old(linter).rule_registry.names(),
            old(linter).rule_registry.token_listeners@,
            token_views(tokens@),
        ),
{
    let ghost all = tokens@;
    let ghost reg0 = linter.rule_registry;
    let mut rest = tokens;
    let mut out: Vec<Token> = Vec::new();
    while rest.len() > 0
        invariant
            linter.wf(),
            linter.rule_registry.same_tables(reg0),
            out@.len() + rest@.len() == all.len(),
            out@ == all.take(out@.len() as int),
            rest@ == all.skip(out@.len() as int),
            linter.rule_registry.ctxs() == fire_tokens(reg0.ctxs(), reg0.callbacks@, reg0.names(), reg0.token_listeners@, token_views(all.take(out@.len() as int))),
        decreases rest.len(),
    {
        let t = rest.remove(0);
        let ghost k = out@.len() as int;
        proof {
            assert(all[k] == t);
            assert(rest@ =~= all.skip(k + 1));
            assert(token_views(all.take(k + 1)).drop_last() =~= token_views(all.take(k)));
        }
        let t = linter.rule_registry.notify_token(t);
        out.push(t);
        proof {
            assert(out@ =~= all.take(k + 1));
        }
    }
    proof {
        assert(all.take(all.len() as int) =~= all);
    }
    out
}

/// The preprocessing pass: every preprocessor, in binding order, each on the
/// text the one before it returned. The result is what later passes see.
pub fn lint_src(src: &str, linter: &mut Linter) -> (r: String)
    requires
        old(linter).wf(),
    ensures
        final(linter).wf(),
        final(linter).rule_registry.same_tables(old(linter).rule_registry),
        (final(linter).rule_registry.ctxs(), r@) == fire_pre(
            old(linter).rule_registry.ctxs(),
            old(linter).rule_registry.callbacks@,
            old(linter).rule_registry.names(),
            old(linter).rule_registry.preprocessors@,
            src@,
        ),
{
    linter.rule_registry.trigger_preprocess(src)
}

/// The passes up to the syntax tree: preprocessing, tokenizing the result, and
/// the token pass. Returns the preprocessed text and its tokens; `None` where
/// the tokenizer rejects the text, after preprocessing has run.
pub fn drive_tokens(lua_src: &str, linter: &mut Linter) -> (r: Option<(String, Vec<Token>)>)
    requires
        old(linter).wf(),
    ensures
        final(linter).wf(),
        final(linter).rule_registry.same_tables(old(linter).rule_registry),
        ({
            let (c1, text) = fire_pre(
                old(linter).rule_registry.ctxs(),
                old(linter).rule_registry.callbacks@,
                old(linter).rule_registry.names(),
                old(linter).rule_registry.preprocessors@,
                lua_src@,
            );
            match lua_tokens(text) {
                Some(ts) => r is Some && (r->0).0@ == text && token_views((r->0).1@) == ts
                    && final(linter).rule_registry.ctxs() == fire_tokens(
                        c1,
                        old(linter).rule_registry.callbacks@,
                        old(linter).rule_registry.names(),
                        old(linter).rule_registry.token_listeners@,
                        ts,
                    ),
                None => r is None && final(linter).rule_registry.ctxs() == c1,
            }
        }),
{
    let text = lint_src(lua_src, linter);
    match tokenize(text.as_str()) {
        Some(tokens) => {
            let tokens = lint_tokens(tokens, linter);
            Some((text, tokens))
        },
        None => None,
    }
}

/// The text of the tokens that are not comments, in order.
pub open spec fn non_comment_text(ts: Seq<TokenView>) -> Seq<char>
    decreases ts.len(),
{
    if ts.len() == 0 {
        Seq::empty()
    } else {
        non_comment_text(ts.drop_last()) + if is_comment_kind(ts.last().kind) {
            Seq::empty()
        } else {
            ts.last().text
        }
    }
}

/// Writes the tokens back as text, leaving the comments out.
pub fn strip_comment_tokens(tokens: &Vec<Token>) -> (r: String)
    ensures
        r@ == non_comment_text(token_views(tokens@)),
{
    let ghost ts = token_views(tokens@);
    let mut out: Vec<char> = Vec::new();
    let mut i: usize = 0;
    while i < tokens.len()
        invariant
            ts == token_views(tokens@),
            i <= tokens@.len(),
            out@ == non_comment_text(ts.take(i as int)),
        decreases tokens.len() - i,
    {
        proof {
            assert(ts.take(i + 1).drop_last() =~= ts.take(i as int));
            assert(ts.take(i + 1).last() == tokens@[i as int]@);
        }
        if !tokens[i].is_comment() {
            let mut more = chars_of(tokens[i].text.as_str());
            out.append(&mut more);
        }
        proof {
            assert(out@ =~= non_comment_text(ts.take(i + 1)));
        }
        i = i + 1;
    }
    proof {
        assert(ts.take(ts.len() as int) =~= ts);
    }
    string_of(out.as_slice())
}

/// The source with its comments, line and block comments alike, taken out;
/// `None` where the tokenizer rejects it.
pub fn trim_lua_comments(input: &str) -> (r: Option<String>)
    ensures
        match lua_tokens(input@) {
            Some(ts) => r is Some && r->0@ == non_comment_text(ts),
            None => r is None,
        },
{
    match tokenize(input) {
        Some(tokens) => Some(strip_comment_tokens(&tokens)),
        None => None,
    }
}

} // verus!
