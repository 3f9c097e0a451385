//! Assembling a linter from a chosen, ordered list of named rules.
use vstd::prelude::*;
use crate::lint::Linter;
use crate::registry::{Registry, find_ctx};
use crate::node::{NodeKey, WalkTy};
use crate::rules::{RuleKind, RuleState, initial_view, rule_kind_of, rule_kind_spec, setting_of, setting_spec};
use crate::rules::eof_blank_line::EofBlankLine;
use crate::rules::func_separation::FuncSeparation;
use crate::rules::max_column_width::MaxColumnWidth;
use crate::rules::no_trailing_space::NoTrailingWhitespace;
use crate::rules::one_line_before_else::OneLineBeforeElse;
use crate::rules::table_ctor_comma::TableCtorComma;
use crate::jsonc::{strip_jsonc_comments, strip_jsonc_spec};

verus! {

/// Why a linter could not be built.
#[derive(Clone, Copy, Debug, PartialEq, Eq, Structural)]
pub enum BuildError {
    /// The configuration is not a JSON object.
    InvalidConfig,
    /// A rule name that the engine does not know.
    UnknownRule,
    /// A rule name bound twice.
    DuplicateRule,
}

pub struct LinterBuilder {
    pub rule_registry: Registry,
}

/// Whether the names of `rules` repeat.
pub open spec fn has_duplicate(names: Seq<Seq<char>>) -> bool {
    exists|i: int, j: int| 0 <= i < j < names.len() && names[i] == names[j]
}

/// Rules of this kind subscribe to the preprocessing pass.
pub open spec fn is_preprocessor(k: RuleKind) -> bool {
    k == RuleKind::EofBlankLine || k == RuleKind::NoTrailingSpace
}

/// Rules of this kind subscribe to the token pass.
pub open spec fn is_listener(k: RuleKind) -> bool {
    k == RuleKind::MaxColumnWidth
}

/// The node kind whose enter callbacks a rule of this kind subscribes to.
pub open spec fn enter_key(k: RuleKind) -> Option<NodeKey> {
    match k {
        RuleKind::FuncSeparation => Some(NodeKey::Block),
        RuleKind::OneLineBeforeElse => Some(NodeKey::If),
        RuleKind::TableCtorComma => Some(NodeKey::TableConstructor),
        _ => None,
    }
}

/// `new` is `old` with one more callback, of `kind` and bound to `name`, in
/// the table that its kind subscribes to.
pub open spec fn subscribed(new: Registry, old: Registry, name: Seq<char>, kind: RuleKind) -> bool {
    let idx = old.callbacks@.len() as usize;
    &&& new.callbacks@ == old.callbacks@.push(kind)
    &&& new.names() == old.names().push(name)
    &&& new.preprocessors@ == if is_preprocessor(kind) {
        old.preprocessors@.push(idx)
    } else {
        old.preprocessors@
    }
    &&& new.token_listeners@ == if is_listener(kind) {
        old.token_listeners@.push(idx)
    } else {
        old.token_listeners@
    }
    &&& forall|key: NodeKey| #[trigger] new.walkers(WalkTy::Enter, key) == if enter_key(kind) == Some(key) {
        old.walkers(WalkTy::Enter, key).push(idx)
    } else {
        old.walkers(WalkTy::Enter, key)
    }
    &&& forall|key: NodeKey| #[trigger] new.walkers(WalkTy::Leave, key) == old.walkers(WalkTy::Leave, key)
}

/// The positions of the preprocessing rules among `ks`.
pub open spec fn pre_positions(ks: Seq<RuleKind>) -> Seq<usize>
    decreases ks.len(),
{
    if ks.len() == 0 {
        Seq::empty()
    } else if is_preprocessor(ks.last()) {
        pre_positions(ks.drop_last()).push((ks.len() - 1) as usize)
    } else {
        pre_positions(ks.drop_last())
    }
}

/// The positions of the token rules among `ks`.
pub open spec fn listener_positions(ks: Seq<RuleKind>) -> Seq<usize>
    decreases ks.len(),
{
    if ks.len() == 0 {
        Seq::empty()
    } else if is_listener(ks.last()) {
        listener_positions(ks.drop_last()).push((ks.len() - 1) as usize)
    } else {
        listener_positions(ks.drop_last())
    }
}

/// The positions of the rules among `ks` that enter nodes of `key`.
pub open spec fn enter_positions(ks: Seq<RuleKind>, key: NodeKey) -> Seq<usize>
    decreases ks.len(),
{
    if ks.len() == 0 {
        Seq::empty()
    } else if enter_key(ks.last()) == Some(key) {
        enter_positions(ks.drop_last(), key).push((ks.len() - 1) as usize)
    } else {
        enter_positions(ks.drop_last(), key)
    }
}

/// The tables of a registry into which rules of kinds `ks`, named `ns`, were
/// bound in that order, starting empty.
pub open spec fn tables_for(reg: Registry, ks: Seq<RuleKind>, ns: Seq<Seq<char>>) -> bool {
    &&& reg.callbacks@ == ks
    &&& reg.names() == ns
    &&& reg.preprocessors@ == pre_positions(ks)
    &&& reg.token_listeners@ == listener_positions(ks)
    &&& forall|key: NodeKey| #[trigger] reg.walkers(WalkTy::Enter, key) == enter_positions(ks, key)
    &&& forall|key: NodeKey| #[trigger] reg.walkers(WalkTy::Leave, key) == Seq::<usize>::empty()
}

pub open spec fn rule_names(rs: Seq<(Seq<char>, Option<u64>)>) -> Seq<Seq<char>> {
    rs.map_values(|p: (Seq<char>, Option<u64>)| p.0)
}

pub open spec fn rule_kinds(rs: Seq<(Seq<char>, Option<u64>)>) -> Seq<RuleKind> {
    rs.map_values(|p: (Seq<char>, Option<u64>)| rule_kind_spec(p.0)->0)
}

pub open spec fn rule_views(v: Seq<(String, Option<u64>)>) -> Seq<(Seq<char>, Option<u64>)> {
    v.map_values(|p: (String, Option<u64>)| (p.0@, p.1))
}

/// What building a linter from the rule list `rs` gives: a linter holding
/// each rule, in order, with its fresh state and its callback in the table of
/// its kind, when every name is a rule's and none repeats; else the error.
pub open spec fn built(rs: Seq<(Seq<char>, Option<u64>)>, r: Result<Linter, BuildError>) -> bool {
    match r {
        Ok(l) => {
            &&& l.wf()
            &&& forall|i: int| 0 <= i < rs.len() ==> rule_kind_spec(#[trigger] rs[i].0) is Some
            &&& !has_duplicate(rule_names(rs))
            &&& l.rule_registry.ctxs().len() == rs.len()
            &&& forall|i: int| 0 <= i < rs.len() ==> #[trigger] l.rule_registry.ctxs()[i] == (
                rs[i].0,
                initial_view(rule_kind_spec(rs[i].0)->0, setting_spec(rule_kind_spec(rs[i].0)->0, rs[i].1)),
            )
            &&& tables_for(l.rule_registry, rule_kinds(rs), rule_names(rs))
        },
        Err(e) => (e == BuildError::UnknownRule && exists|i: int| 0 <= i < rs.len() && rule_kind_spec(#[trigger] rs[i].0) is None)
            || (e == BuildError::DuplicateRule && has_duplicate(rule_names(rs))),
    }
}

impl LinterBuilder {
    pub fn new() -> (r: LinterBuilder)
        ensures
            r.rule_registry.wf(),
            r.rule_registry.ctxs().len() == 0,
            tables_for(r.rule_registry, Seq::empty(), Seq::empty()),
    {
        let r = LinterBuilder { rule_registry: Registry::new() };
        proof {
            assert(r.rule_registry.names() =~= Seq::<Seq<char>>::empty());
            assert(r.rule_registry.preprocessors@ =~= Seq::<usize>::empty());
            assert(r.rule_registry.token_listeners@ =~= Seq::<usize>::empty());
            assert(r.rule_registry.callbacks@ =~= Seq::<RuleKind>::empty());
            assert forall|key: NodeKey| #[trigger] r.rule_registry.walkers(WalkTy::Enter, key) == enter_positions(Seq::empty(), key) by {
                assert(r.rule_registry.walkers(WalkTy::Enter, key) =~= Seq::<usize>::empty());
            }
            assert forall|key: NodeKey| #[trigger] r.rule_registry.walkers(WalkTy::Leave, key) == Seq::<usize>::empty() by {
                assert(r.rule_registry.walkers(WalkTy::Leave, key) =~= Seq::<usize>::empty());
            }
        }
        r
    }

    /// Binds a rule of `kind` under `rule_name`: its callback subscribes to the
    /// table of its kind, then its fresh state is bound. A name already bound
    /// is refused, and the builder is then dropped.
    pub fn with_rule(self, kind: RuleKind, rule_name: &str, setting: usize) -> (r: Result<Self, BuildError>)
        requires
            self.rule_registry.wf(),
        ensures
            match r {
                Ok(b) => find_ctx(self.rule_registry.ctxs(), rule_name@) < 0
                    && b.rule_registry.wf()
                    && b.rule_registry.ctxs() == self.rule_registry.ctxs().push((rule_name@, initial_view(kind, setting)))
                    && subscribed(b.rule_registry, self.rule_registry, rule_name@, kind),
                Err(e) => e == BuildError::DuplicateRule && find_ctx(self.rule_registry.ctxs(), rule_name@) >= 0,
            },
    {
        let mut reg = self.rule_registry;
        if reg.get_ctx(rule_name).is_some() {
            return Err(BuildError::DuplicateRule);
        }
        let ghost before = reg;
        let ctx = match kind {
            RuleKind::EofBlankLine => RuleState::EofBlankLine(EofBlankLine::apply(&mut reg, rule_name)),
            RuleKind::FuncSeparation => RuleState::FuncSeparation(FuncSeparation::apply(&mut reg, rule_name, setting)),
            RuleKind::MaxColumnWidth => RuleState::MaxColumnWidth(MaxColumnWidth::apply(&mut reg, rule_name, setting)),
            RuleKind::NoTrailingSpace => RuleState::NoTrailingSpace(NoTrailingWhitespace::apply(&mut reg, rule_name)),
            RuleKind::OneLineBeforeElse => RuleState::OneLineBeforeElse(OneLineBeforeElse::apply(&mut reg, rule_name)),
            RuleKind::TableCtorComma => RuleState::TableCtorComma(TableCtorComma::apply(&mut reg, rule_name)),
        };
        let ghost applied = reg;
        proof {
            assert(ctx@.reports =~= Seq::<crate::report::ReportView>::empty());
            assert(ctx@ == initial_view(kind, setting));
            assert(reg.ctxs() == before.ctxs());
            assert(subscribed(applied, before, rule_name@, kind)) by {
                assert forall|key: NodeKey| #[trigger] applied.walkers(WalkTy::Enter, key) == if enter_key(kind) == Some(key) {
                    before.walkers(WalkTy::Enter, key).push(before.callbacks@.len() as usize)
                } else {
                    before.walkers(WalkTy::Enter, key)
                } by {
                    assert(applied.walkers(WalkTy::Enter, key) == applied.walkers(WalkTy::Enter, key));
                }
                assert forall|key: NodeKey| #[trigger] applied.walkers(WalkTy::Leave, key) == before.walkers(WalkTy::Leave, key) by {
                    assert(applied.walkers(WalkTy::Leave, key) == applied.walkers(WalkTy::Leave, key));
                }
            }
        }
        let bound = reg.bind_ctx(rule_name, ctx);
        assert(bound);
        proof {
            assert forall|ty: WalkTy, key: NodeKey| #[trigger] reg.walkers(ty, key) == applied.walkers(ty, key) by {}
        }
        Ok(LinterBuilder { rule_registry: reg })
    }

    pub fn build(self) -> (r: Linter)
        ensures
            r.rule_registry == self.rule_registry,
    {
        Linter { rule_registry: self.rule_registry }
    }
}

/// Builds a linter from rule names and the setting each one's configuration
/// gives, bound in the order given. Fails when a name is not a rule's, or
/// repeats.
pub fn build_linter(rules: &Vec<(String, Option<u64>)>) -> (r: Result<Linter, BuildError>)
    ensures
        built(rule_views(rules@), r),
{
    let ghost rs = rule_views(rules@);
    let ghost names = rule_names(rs);
    let ghost ks = rule_kinds(rs);
    let mut builder = LinterBuilder::new();
    let mut i: usize = 0;
    proof {
        assert(ks.take(0) =~= Seq::<RuleKind>::empty());
        assert(names.take(0) =~= Seq::<Seq<char>>::empty());
    }
    while i < rules.len()
        invariant
            i <= rules@.len(),
            rs == rule_views(rules@),
            names == rule_names(rs),
            ks == rule_kinds(rs),
            builder.rule_registry.wf(),
            builder.rule_registry.ctxs().len() == i,
            forall|k: int| 0 <= k < i ==> rule_kind_spec(#[trigger] rs[k].0) is Some,
            forall|k: int| 0 <= k < i ==> #[trigger] builder.rule_registry.ctxs()[k] == (
                rs[k].0,
                initial_view(rule_kind_spec(rs[k].0)->0, setting_spec(rule_kind_spec(rs[k].0)->0, rs[k].1)),
            ),
            forall|a: int, b: int| 0 <= a < b < i ==> names[a] != names[b],
            tables_for(builder.rule_registry, ks.take(i as int), names.take(i as int)),
        decreases rules.len() - i,
    {
        let name = rules[i].0.as_str();
        proof {
            assert(rs[i as int] == (rules@[i as int].0@, rules@[i as int].1));
            assert(names[i as int] == name@);
        }
        let kind = match rule_kind_of(name) {
            Some(k) => k,
            None => {
                return Err(BuildError::UnknownRule);
            },
        };
        let setting = setting_of(kind, rules[i].1);
        let ghost prev = builder.rule_registry.ctxs();
        let ghost old_reg = builder.rule_registry;
        match builder.with_rule(kind, name, setting) {
            Ok(b) => {
                builder = b;
                proof {
                    assert forall|a: int| 0 <= a < i implies names[a] != names[i as int] by {
                        if names[a] == names[i as int] {
                            crate::registry::lemma_find_ctx(prev, names[i as int]);
                            assert(prev[a].0 == names[a]);
                        }
                    }
                    let reg = builder.rule_registry;
                    let ks1 = ks.take(i + 1);
                    assert(ks[i as int] == kind);
                    assert(ks1.drop_last() =~= ks.take(i as int));
                    assert(ks1 =~= ks.take(i as int).push(kind));
                    assert(names.take(i + 1) =~= names.take(i as int).push(name@));
                    assert(old_reg.callbacks@.len() == i);
                    assert forall|key: NodeKey| #[trigger] reg.walkers(WalkTy::Enter, key) == enter_positions(ks1, key) by {
                        assert(reg.walkers(WalkTy::Enter, key) == old_reg.walkers(WalkTy::Enter, key) || true);
                        assert(old_reg.walkers(WalkTy::Enter, key) == enter_positions(ks.take(i as int), key));
                    }
                    assert forall|key: NodeKey| #[trigger] reg.walkers(WalkTy::Leave, key) == Seq::<usize>::empty() by {
                        assert(old_reg.walkers(WalkTy::Leave, key) == Seq::<usize>::empty());
                    }
                    assert(tables_for(reg, ks1, names.take(i + 1)));
                }
            },
            Err(e) => {
                proof {
                    crate::registry::lemma_find_ctx(prev, names[i as int]);
                    let a = find_ctx(prev, names[i as int]);
                    assert(prev[a].0 == names[a]);
                    assert(names[a] == names[i as int]);
                }
                return Err(e);
            },
        }
        i = i + 1;
    }
    proof {
        assert(ks.take(rules@.len() as int) =~= ks);
        assert(names.take(rules@.len() as int) =~= names);
    }
    Ok(builder.build())
}

/// The keys of the JSON object that a text holds, in the parsed map's order;
/// `None` when the text is not a JSON object.
pub uninterp spec fn json_object_keys(text: Seq<char>) -> Option<Seq<Seq<char>>>;

/// The unsigned number under `key` in the value of the `i`-th entry of that
/// object, if there is one.
pub uninterp spec fn json_u64_at(text: Seq<char>, i: int, key: Seq<char>) -> Option<u64>;

/// Relies on `serde_json::from_str` and `Value::as_object`, then `Value::get`
/// and `Value::as_u64` on each entry: the keys of the text's top-level object
/// in the map's order, each with the unsigned number under `key` in its value;
/// `None` when the text is not a JSON object.
#[verifier::external_body]
fn json_object_u64_fields(text: &str, key: &str) -> (r: Option<Vec<(String, Option<u64>)>>)
    ensures
        match r {
            Some(v) => json_object_keys(text@) == Some(v@.map_values(|p: (String, Option<u64>)| p.0@))
                && forall|i: int| 0 <= i < v@.len() ==> #[trigger] v@[i].1 == json_u64_at(text@, i, key@),
            None => json_object_keys(text@) is None,
        },
{
    let v = serde_json::from_str::<serde_json::Value>(text).ok()?;
    v.as_object().map(|m| m.iter().map(|(k, x)| (k.clone(), x.get(key).and_then(|y| y.as_u64()))).collect())
}

/// The setting that entry `i`, named `name`, of a configuration object gives:
/// `max_col` for the width rule, `min_line` for the separation rule.
pub open spec fn setting_at(t: Seq<char>, i: int, name: Seq<char>) -> Option<u64> {
    match rule_kind_spec(name) {
        Some(RuleKind::MaxColumnWidth) => json_u64_at(t, i, "max_col"@),
        Some(RuleKind::FuncSeparation) => json_u64_at(t, i, "min_line"@),
        _ => None,
    }
}

/// The rule list of a configuration text: the keys of its object once
/// comments are stripped, each with its setting; `None` when it is not an object.
pub open spec fn rules_spec(text: Seq<char>) -> Option<Seq<(Seq<char>, Option<u64>)>> {
    let t = strip_jsonc_spec(text, true);
    match json_object_keys(t) {
        Some(ks) => Some(Seq::new(ks.len(), |i: int| (ks[i], setting_at(t, i, ks[i])))),
        None => None,
    }
}

/// Reads the rule list of a configuration text: a JSON object (comments
/// allowed) from rule names to each rule's settings.
pub fn parse_rules_json(enabled_rules: &str) -> (r: Option<Vec<(String, Option<u64>)>>)
    ensures
        match r {
            Some(v) => rules_spec(enabled_rules@) == Some(rule_views(v@)),
            None => rules_spec(enabled_rules@) is None,
        },
{
    let text = strip_jsonc_comments(enabled_rules, true);
    let ghost t = text@;
    let widths = json_object_u64_fields(text.as_str(), "max_col");
    let lines = json_object_u64_fields(text.as_str(), "min_line");
    match (widths, lines) {
        (Some(a), Some(b)) => {
            let ghost ks = json_object_keys(t)->0;
            proof {
                assert(a@.len() == ks.len());
                assert(b@.len() == ks.len());
            }
            let mut out: Vec<(String, Option<u64>)> = Vec::new();
            let mut i: usize = 0;
            while i < a.len()
                invariant
                    i <= a@.len(),
                    a@.len() == b@.len(),
                    t == strip_jsonc_spec(enabled_rules@, true),
                    ks == a@.map_values(|p: (String, Option<u64>)| p.0@),
                    forall|k: int| 0 <= k < a@.len() ==> #[trigger] a@[k].1 == json_u64_at(t, k, "max_col"@),
                    forall|k: int| 0 <= k < b@.len() ==> #[trigger] b@[k].1 == json_u64_at(t, k, "min_line"@),
                    out@.len() == i,
                    forall|k: int| 0 <= k < i ==> #[trigger] rule_views(out@)[k] == (ks[k], setting_at(t, k, ks[k])),
                decreases a.len() - i,
            {
                let name = a[i].0.as_str();
                proof {
                    assert(ks[i as int] == name@);
                }
                let value = match rule_kind_of(name) {
                    Some(RuleKind::MaxColumnWidth) => a[i].1,
                    Some(RuleKind::FuncSeparation) => b[i].1,
                    _ => None,
                };
                let ghost before_out = out@;
                out.push((name.to_owned(), value));
                proof {
                    assert(rule_views(out@)[i as int] == (ks[i as int], setting_at(t, i as int, ks[i as int])));
                    assert forall|k: int| 0 <= k < i + 1 implies #[trigger] rule_views(out@)[k] == (ks[k], setting_at(t, k, ks[k])) by {
                        if k < i {
                            assert(out@[k] == before_out[k]);
                            assert(rule_views(before_out)[k] == (ks[k], setting_at(t, k, ks[k])));
                        }
                    }
                }
                i = i + 1;
            }
            proof {
                assert(rule_views(out@) =~= Seq::new(ks.len(), |k: int| (ks[k], setting_at(t, k, ks[k]))));
            }
            Some(out)
        },
        _ => None,
    }
}

/// Builds a linter from a configuration text, as `build_linter` does from the
/// rule list that `parse_rules_json` reads; a text that is not a JSON object
/// gives `InvalidConfig`.
pub fn build_config_linter(enabled_rules: &str) -> (r: Result<Linter, BuildError>)
    ensures
        match rules_spec(enabled_rules@) {
            None => r is Err && r == Err::<Linter, BuildError>(BuildError::InvalidConfig),
            Some(rs) => built(rs, r),
        },
{
    match parse_rules_json(enabled_rules) {
        Some(rules) => build_linter(&rules),
        None => Err(BuildError::InvalidConfig),
    }
}

} // verus!
