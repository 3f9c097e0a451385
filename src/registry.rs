//! The rule registry: callback tables for each dispatch point, and the private
//! state of each bound rule, looked up by name when its callback runs.
use vstd::prelude::*;
use crate::node::{NodeKey, NodeWrapper, WalkTy};
use crate::rules::{RuleKind, RuleState, RuleView, pre_effect, token_effect, walk_effect};
use crate::token::{Token, TokenView};

verus! {

/// Callbacks are numbered in the order they were registered; each number is
/// bound to the name of the rule whose state it runs against.
pub struct Registry {
    pub callbacks: Vec<RuleKind>,
    pub callback_names: linked_hash_map::LinkedHashMap<usize, String>,
    pub enter_walker_map: linked_hash_map::LinkedHashMap<NodeKey, Vec<usize>>,
    pub leave_walker_map: linked_hash_map::LinkedHashMap<NodeKey, Vec<usize>>,
    pub token_listeners: Vec<usize>,
    pub preprocessors: Vec<usize>,
    pub rule_ctx: linked_hash_map::LinkedHashMap<String, RuleState>,
}

/// Named rule states, as the dispatch model sees them.
pub type Contexts = Seq<(Seq<char>, RuleView)>;

/// The callbacks bound to `key` in a walker table (the first entry for it).
pub open spec fn lookup(m: Seq<(NodeKey, Seq<usize>)>, key: NodeKey) -> Seq<usize>
    decreases m.len(),
{
    if m.len() == 0 {
        Seq::empty()
    } else if m[0].0 == key {
        m[0].1
    } else {
        lookup(m.drop_first(), key)
    }
}

/// The position of the first state named `name`, or -1.
pub open spec fn find_ctx(ctxs: Contexts, name: Seq<char>) -> int
    decreases ctxs.len(),
{
    if ctxs.len() == 0 {
        -1
    } else if ctxs[0].0 == name {
        0
    } else {
        let k = find_ctx(ctxs.drop_first(), name);
        if k < 0 {
            -1
        } else {
            k + 1
        }
    }
}

/// Runs the walk callbacks of `list`, in order, each against its own rule's state.
pub open spec fn fire_walk(
    ctxs: Contexts,
    cbs: Seq<RuleKind>,
    names: Seq<Seq<char>>,
    list: Seq<usize>,
    node: NodeWrapper,
) -> Contexts
    decreases list.len(),
{
    if list.len() == 0 {
        ctxs
    } else {
        let c = fire_walk(ctxs, cbs, names, list.drop_last(), node);
        let i = list.last() as int;
        let p = find_ctx(c, names[i]);
        if p >= 0 {
            c.update(p, (c[p].0, walk_effect(cbs[i], c[p].1, node)))
        } else {
            c
        }
    }
}

/// Runs the token callbacks of `list`, in order, each against its own rule's state.
pub open spec fn fire_token(
    ctxs: Contexts,
    cbs: Seq<RuleKind>,
    names: Seq<Seq<char>>,
    list: Seq<usize>,
    tok: TokenView,
) -> Contexts
    decreases list.len(),
{
    if list.len() == 0 {
        ctxs
    } else {
        let c = fire_token(ctxs, cbs, names, list.drop_last(), tok);
        let i = list.last() as int;
        let p = find_ctx(c, names[i]);
        if p >= 0 {
            c.update(p, (c[p].0, token_effect(cbs[i], c[p].1, tok)))
        } else {
            c
        }
    }
}

/// Runs the preprocessing callbacks of `list`, in order: each gets the text
/// that the one before it returned.
pub open spec fn fire_pre(
    ctxs: Contexts,
    cbs: Seq<RuleKind>,
    names: Seq<Seq<char>>,
    list: Seq<usize>,
    src: Seq<char>,
) -> (Contexts, Seq<char>)
    decreases list.len(),
{
    if list.len() == 0 {
        (ctxs, src)
    } else {
        let (c, t) = fire_pre(ctxs, cbs, names, list.drop_last(), src);
        let i = list.last() as int;
        let p = find_ctx(c, names[i]);
        if p >= 0 {
            let (st, t2) = pre_effect(cbs[i], c[p].1, t);
            (c.update(p, (c[p].0, st)), t2)
        } else {
            (c, t)
        }
    }
}

pub proof fn lemma_find_ctx(ctxs: Contexts, name: Seq<char>)
    ensures
        -1 <= find_ctx(ctxs, name) < ctxs.len(),
        find_ctx(ctxs, name) >= 0 ==> ctxs[find_ctx(ctxs, name)].0 == name,
        find_ctx(ctxs, name) >= 0 ==> forall|k: int|
            0 <= k < find_ctx(ctxs, name) ==> ctxs[k].0 != name,
        find_ctx(ctxs, name) < 0 ==> forall|k: int| 0 <= k < ctxs.len() ==> ctxs[k].0 != name,
    decreases ctxs.len(),
{
    if ctxs.len() > 0 {
        lemma_find_ctx(ctxs.drop_first(), name);
        let k = find_ctx(ctxs.drop_first(), name);
        if ctxs[0].0 != name {
            assert forall|j: int| 1 <= j < ctxs.len() implies ctxs[j].0 == ctxs.drop_first()[j - 1].0 by {}
        }
    }
}

/// Whether two state lists hold the same names in the same places.
pub open spec fn same_names(a: Contexts, b: Contexts) -> bool {
    a.len() == b.len() && forall|k: int| 0 <= k < a.len() ==> (#[trigger] a[k]).0 == b[k].0
}

pub proof fn lemma_find_ctx_same_names(a: Contexts, b: Contexts, name: Seq<char>)
    requires
        same_names(a, b),
    ensures
        find_ctx(a, name) == find_ctx(b, name),
    decreases a.len(),
{
    if a.len() > 0 {
        assert(a[0].0 == b[0].0);
        assert(same_names(a.drop_first(), b.drop_first())) by {
            assert forall|k: int| 0 <= k < a.len() - 1 implies (#[trigger] a.drop_first()[k]).0
                == b.drop_first()[k].0 by {
                assert(a[k + 1].0 == b[k + 1].0);
            }
        }
        lemma_find_ctx_same_names(a.drop_first(), b.drop_first(), name);
    }
}

/// The position of the first entry for `key`, or -1.
pub open spec fn find_key(m: Seq<(NodeKey, Seq<usize>)>, key: NodeKey) -> int
    decreases m.len(),
{
    if m.len() == 0 {
        -1
    } else if m[0].0 == key {
        0
    } else {
        let k = find_key(m.drop_first(), key);
        if k < 0 {
            -1
        } else {
            k + 1
        }
    }
}

pub proof fn lemma_find_key(m: Seq<(NodeKey, Seq<usize>)>, key: NodeKey)
    ensures
        -1 <= find_key(m, key) < m.len(),
        find_key(m, key) >= 0 ==> m[find_key(m, key)].0 == key && lookup(m, key) == m[find_key(
            m,
            key,
        )].1,
        find_key(m, key) >= 0 ==> forall|k: int| 0 <= k < find_key(m, key) ==> m[k].0 != key,
        find_key(m, key) < 0 ==> lookup(m, key) == Seq::<usize>::empty() && forall|k: int|
            0 <= k < m.len() ==> m[k].0 != key,
    decreases m.len(),
{
    if m.len() > 0 {
        lemma_find_key(m.drop_first(), key);
        if m[0].0 != key {
            assert forall|j: int| 1 <= j < m.len() implies m[j] == m.drop_first()[j - 1] by {}
        }
    }
}

/// Replacing the list of the first entry for a key changes the lookup of that key only.
pub proof fn lemma_lookup_update(m: Seq<(NodeKey, Seq<usize>)>, a: int, e: (NodeKey, Seq<usize>), key: NodeKey)
    requires
        0 <= a < m.len(),
        e.0 == m[a].0,
        find_key(m, e.0) == a,
    ensures
        lookup(m.update(a, e), key) == if key == e.0 {
            e.1
        } else {
            lookup(m, key)
        },
    decreases m.len(),
{
    lemma_find_key(m, e.0);
    let m2 = m.update(a, e);
    if a > 0 {
        assert(m2.drop_first() =~= m.drop_first().update(a - 1, e));
        assert(m[0].0 != e.0);
        lemma_find_key(m.drop_first(), e.0);
        lemma_lookup_update(m.drop_first(), a - 1, e, key);
        assert(m2[0] == m[0]);
        if m[0].0 != key {
            assert(lookup(m2, key) == lookup(m2.drop_first(), key));
            assert(lookup(m, key) == lookup(m.drop_first(), key));
        }
    } else {
        assert(m2.drop_first() =~= m.drop_first());
        if key != e.0 {
            assert(lookup(m2, key) == lookup(m2.drop_first(), key));
            assert(lookup(m, key) == lookup(m.drop_first(), key));
        }
    }
}

/// Appending an entry for a key that has none adds the lookup of that key only.
pub proof fn lemma_lookup_push(m: Seq<(NodeKey, Seq<usize>)>, e: (NodeKey, Seq<usize>), key: NodeKey)
    requires
        find_key(m, e.0) < 0,
    ensures
        lookup(m.push(e), key) == if key == e.0 {
            e.1
        } else {
            lookup(m, key)
        },
    decreases m.len(),
{
    lemma_find_key(m, e.0);
    let m2 = m.push(e);
    if m.len() > 0 {
        assert(m2.drop_first() =~= m.drop_first().push(e));
        assert(m[0].0 != e.0);
        assert(m2[0] == m[0]);
        lemma_find_key(m.drop_first(), e.0);
        lemma_lookup_push(m.drop_first(), e, key);
        if m[0].0 != key {
            assert(lookup(m2, key) == lookup(m2.drop_first(), key));
            assert(lookup(m, key) == lookup(m.drop_first(), key));
        }
    } else {
        assert(m2.drop_first() =~= Seq::<(NodeKey, Seq<usize>)>::empty());
        if key != e.0 {
            assert(lookup(m2, key) == lookup(m2.drop_first(), key));
        }
    }
}

/// No two entries of a walker table share a node kind.
pub open spec fn unique_keys(m: Seq<(NodeKey, Seq<usize>)>) -> bool {
    forall|i: int, j: int| 0 <= i < j < m.len() ==> (#[trigger] m[i]).0 != (#[trigger] m[j]).0
}

pub proof fn lemma_unique_key_find(m: Seq<(NodeKey, Seq<usize>)>, key: NodeKey, p: int)
    requires
        unique_keys(m),
        0 <= p < m.len(),
        m[p].0 == key,
    ensures
        find_key(m, key) == p,
{
    lemma_find_key(m, key);
    let f = find_key(m, key);
    if f < 0 {
        assert(m[p].0 != key);
    } else if f < p {
        assert(m[f].0 != m[p].0);
    } else if f > p {
        assert(m[p].0 != key);
    }
}

/// Appends callback `idx` to the entry for `key`, making one if there is none.
fn bind_in_table(m: &mut linked_hash_map::LinkedHashMap<NodeKey, Vec<usize>>, key: NodeKey, idx: usize)
    requires
        unique_keys(walker_entries(*old(m))),
    ensures
        unique_keys(walker_entries(*final(m))),
        forall|k: NodeKey| #[trigger] lookup(walker_entries(*final(m)), k) == if k == key {
            lookup(walker_entries(*old(m)), k).push(idx)
        } else {
            lookup(walker_entries(*old(m)), k)
        },
        forall|a: int, k: int|
            0 <= a < walker_entries(*final(m)).len() && 0 <= k < walker_entries(*final(m))[a].1.len()
                ==> #[trigger] walker_entries(*final(m))[a].1[k] == idx || exists|b: int|
                0 <= b < walker_entries(*old(m)).len() && 0 <= k < walker_entries(*old(m))[b].1.len()
                    && walker_entries(*old(m))[b].1[k] == walker_entries(*final(m))[a].1[k],
{
    let ghost om = walker_entries(*m);
    match walker_get_mut(m, key) {
        Some(list) => {
            list.push(idx);
            proof {
                let fm = walker_entries(*m);
                let p = choose|p: int| 0 <= p < om.len() && om[p].0 == key
                    && fm == om.update(p, (key, om[p].1.push(idx)));
                lemma_unique_key_find(om, key, p);
                let e = (key, om[p].1.push(idx));
                assert forall|k: NodeKey| #[trigger] lookup(fm, k) == if k == key {
                    lookup(om, k).push(idx)
                } else {
                    lookup(om, k)
                } by {
                    lemma_lookup_update(om, p, e, k);
                    lemma_find_key(om, key);
                }
                assert forall|i: int, j: int| 0 <= i < j < fm.len() implies (#[trigger] fm[i]).0 != (#[trigger] fm[j]).0 by {
                    assert(fm[i].0 == om[i].0 && fm[j].0 == om[j].0);
                }
                assert forall|a: int, k: int|
                    0 <= a < fm.len() && 0 <= k < fm[a].1.len() implies #[trigger] fm[a].1[k] == idx
                        || exists|b: int| 0 <= b < om.len() && 0 <= k < om[b].1.len() && om[b].1[k] == fm[a].1[k] by {
                    if !(a == p && k == fm[a].1.len() - 1) {
                        assert(om[a].1[k] == fm[a].1[k]);
                    }
                }
            }
        },
        None => {
            let mut list: Vec<usize> = Vec::new();
            list.push(idx);
            walker_insert_new(m, key, list);
            proof {
                let fm = walker_entries(*m);
                let e = (key, seq![idx]);
                assert(list@ =~= seq![idx]);
                assert(fm == om.push(e));
                lemma_find_key(om, key);
                if find_key(om, key) >= 0 {
                    assert(om[find_key(om, key)].0 != key);
                }
                assert forall|k: NodeKey| #[trigger] lookup(fm, k) == if k == key {
                    lookup(om, k).push(idx)
                } else {
                    lookup(om, k)
                } by {
                    lemma_lookup_push(om, e, k);
                    assert(seq![idx] =~= Seq::<usize>::empty().push(idx));
                }
                assert forall|i: int, j: int| 0 <= i < j < fm.len() implies (#[trigger] fm[i]).0 != (#[trigger] fm[j]).0 by {
                    if j < om.len() {
                        assert(fm[i] == om[i] && fm[j] == om[j]);
                    } else {
                        assert(fm[i] == om[i]);
                    }
                }
                assert forall|a: int, k: int|
                    0 <= a < fm.len() && 0 <= k < fm[a].1.len() implies #[trigger] fm[a].1[k] == idx
                        || exists|b: int| 0 <= b < om.len() && 0 <= k < om[b].1.len() && om[b].1[k] == fm[a].1[k] by {
                    if a < om.len() {
                        assert(om[a].1[k] == fm[a].1[k]);
                    }
                }
            }
        },
    }
}

/// The callback tables of a registry, which a walk never changes.
pub struct Tables {
    pub cbs: Seq<RuleKind>,
    pub names: Seq<Seq<char>>,
    pub enter: Seq<(NodeKey, Seq<usize>)>,
    pub leave: Seq<(NodeKey, Seq<usize>)>,
}

/// Runs the callbacks bound to `key` for `ty` on `node`, in binding order.
pub open spec fn hooks(t: Tables, c: Contexts, key: NodeKey, ty: WalkTy, node: NodeWrapper) -> Contexts {
    fire_walk(
        c,
        t.cbs,
        t.names,
        match ty {
            WalkTy::Enter => lookup(t.enter, key),
            WalkTy::Leave => lookup(t.leave, key),
        },
        node,
    )
}

impl Registry {
    pub open spec fn tables(&self) -> Tables {
        Tables {
            cbs: self.callbacks@,
            names: self.names(),
            enter: walker_entries(self.enter_walker_map),
            leave: walker_entries(self.leave_walker_map),
        }
    }

    /// Only the rule states changed, to `c`.
    pub open spec fn stepped(&self, old: Registry, c: Contexts) -> bool {
        &&& self.wf()
        &&& self.same_tables(old)
        &&& self.ctxs() == c
    }

    pub open spec fn names(&self) -> Seq<Seq<char>> {
        name_entries(self.callback_names).map_values(|e: (usize, Seq<char>)| e.1)
    }

    pub open spec fn ctxs(&self) -> Contexts {
        ctx_entries(self.rule_ctx)
    }

    /// The callbacks bound to `key` for `ty`, in binding order.
    pub open spec fn walkers(&self, ty: WalkTy, key: NodeKey) -> Seq<usize> {
        match ty {
            WalkTy::Enter => lookup(walker_entries(self.enter_walker_map), key),
            WalkTy::Leave => lookup(walker_entries(self.leave_walker_map), key),
        }
    }

    /// Every bound callback number refers to a registered callback.
    pub open spec fn wf(&self) -> bool {
        &&& unique_names(self.ctxs())
        &&& unique_keys(walker_entries(self.enter_walker_map))
        &&& unique_keys(walker_entries(self.leave_walker_map))
        &&& self.callbacks@.len() == name_entries(self.callback_names).len()
        &&& numbered(name_entries(self.callback_names))
        &&& forall|k: int|
            0 <= k < self.token_listeners@.len() ==> #[trigger] self.token_listeners@[k]
                < self.callbacks@.len()
        &&& forall|k: int|
            0 <= k < self.preprocessors@.len() ==> #[trigger] self.preprocessors@[k]
                < self.callbacks@.len()
        &&& forall|a: int, k: int|
            0 <= a < walker_entries(self.enter_walker_map).len() && 0 <= k
                < walker_entries(self.enter_walker_map)[a].1.len() ==> #[trigger] walker_entries(self.enter_walker_map)[a].1[k]
                < self.callbacks@.len()
        &&& forall|a: int, k: int|
            0 <= a < walker_entries(self.leave_walker_map).len() && 0 <= k
                < walker_entries(self.leave_walker_map)[a].1.len() ==> #[trigger] walker_entries(self.leave_walker_map)[a].1[k]
                < self.callbacks@.len()
    }

    /// `self` is `old` with one more callback, `kind`, bound to `name`.
    pub open spec fn added_callback(&self, old: Registry, name: Seq<char>, kind: RuleKind) -> bool {
        &&& self.callbacks@ == old.callbacks@.push(kind)
        &&& self.names() == old.names().push(name)
        &&& self.ctxs() == old.ctxs()
    }

    /// `self` is `old` with a preprocessor `kind` for the rule `name` bound last.
    pub open spec fn bound_preprocessor(&self, old: Registry, name: Seq<char>, kind: RuleKind) -> bool {
        &&& self.added_callback(old, name, kind)
        &&& self.preprocessors@ == old.preprocessors@.push(old.callbacks@.len() as usize)
        &&& self.token_listeners@ == old.token_listeners@
        &&& forall|ty: WalkTy, key: NodeKey| #[trigger] self.walkers(ty, key) == old.walkers(ty, key)
    }

    /// `self` is `old` with a token listener `kind` for the rule `name` bound last.
    pub open spec fn bound_listener(&self, old: Registry, name: Seq<char>, kind: RuleKind) -> bool {
        &&& self.added_callback(old, name, kind)
        &&& self.token_listeners@ == old.token_listeners@.push(old.callbacks@.len() as usize)
        &&& self.preprocessors@ == old.preprocessors@
        &&& forall|ty: WalkTy, key: NodeKey| #[trigger] self.walkers(ty, key) == old.walkers(ty, key)
    }

    /// `self` is `old` with a walk callback `kind` for the rule `name` bound
    /// last to (`key`, `ty`).
    pub open spec fn bound_walker(
        &self,
        old: Registry,
        name: Seq<char>,
        key: NodeKey,
        ty: WalkTy,
        kind: RuleKind,
    ) -> bool {
        &&& self.added_callback(old, name, kind)
        &&& self.token_listeners@ == old.token_listeners@
        &&& self.preprocessors@ == old.preprocessors@
        &&& self.walkers(ty, key) == old.walkers(ty, key).push(old.callbacks@.len() as usize)
        &&& forall|t: WalkTy, k: NodeKey|
            !(t == ty && k == key) ==> #[trigger] self.walkers(t, k) == old.walkers(t, k)
    }

    /// Only the rule states changed.
    pub open spec fn same_tables(&self, old: Registry) -> bool {
        &&& self.callbacks@ == old.callbacks@
        &&& self.names() == old.names()
        &&& walker_entries(self.enter_walker_map) == walker_entries(old.enter_walker_map)
        &&& walker_entries(self.leave_walker_map) == walker_entries(old.leave_walker_map)
        &&& self.token_listeners@ == old.token_listeners@
        &&& self.preprocessors@ == old.preprocessors@
    }

    pub fn new() -> (r: Registry)
        ensures
            r.wf(),
            r.callbacks@.len() == 0,
            r.ctxs().len() == 0,
            r.token_listeners@.len() == 0,
            r.preprocessors@.len() == 0,
            forall|ty: WalkTy, key: NodeKey| #[trigger] r.walkers(ty, key).len() == 0,
    {
        Registry {
            callbacks: Vec::new(),
            callback_names: name_map_new(),
            enter_walker_map: walker_map_new(),
            leave_walker_map: walker_map_new(),
            token_listeners: Vec::new(),
            preprocessors: Vec::new(),
            rule_ctx: ctx_map_new(),
        }
    }

    /// Registers callback `kind` for the rule `rule_name` and returns its number.
    fn add_callback(&mut self, rule_name: &str, kind: RuleKind) -> (idx: usize)
        requires
            old(self).wf(),
        ensures
            idx == old(self).callbacks@.len(),
            final(self).added_callback(*old(self), rule_name@, kind),
            walker_entries(final(self).enter_walker_map) == walker_entries(old(self).enter_walker_map),
            walker_entries(final(self).leave_walker_map) == walker_entries(old(self).leave_walker_map),
            final(self).token_listeners@ == old(self).token_listeners@,
            final(self).preprocessors@ == old(self).preprocessors@,
            final(self).callbacks@.len() == name_entries(final(self).callback_names).len(),
            numbered(name_entries(final(self).callback_names)),
    {
        let idx = self.callbacks.len();
        self.callbacks.push(kind);
        proof {
            let e = name_entries(self.callback_names);
            assert forall|p: int| 0 <= p < e.len() implies e[p].0 != idx by {}
        }
        name_insert_new(&mut self.callback_names, idx, rule_name.to_owned());
        proof {
            let e = name_entries(self.callback_names);
            let o = name_entries(old(self).callback_names);
            assert(self.names() =~= old(self).names().push(rule_name@));
            assert forall|p: int| 0 <= p < e.len() implies #[trigger] e[p].0 == p by {
                if p < o.len() {
                    assert(e[p] == o[p]);
                }
            }
        }
        idx
    }

    /// Binds callback `callback` of the rule `rule_name` to `node_type`, to run
    /// on entering or on leaving such nodes, after those bound before it.
    pub fn register_walker(&mut self, rule_name: &str, node_type: NodeKey, walker_type: WalkTy, callback: RuleKind)
        requires
            old(self).wf(),
        ensures
            final(self).wf(),
            final(self).bound_walker(*old(self), rule_name@, node_type, walker_type, callback),
    {
        let idx = self.add_callback(rule_name, callback);
        match walker_type {
            WalkTy::Enter => bind_in_table(&mut self.enter_walker_map, node_type, idx),
            WalkTy::Leave => bind_in_table(&mut self.leave_walker_map, node_type, idx),
        }
        proof {
            assert forall|a: int, k: int|
                0 <= a < walker_entries(self.enter_walker_map).len() && 0 <= k < walker_entries(self.enter_walker_map)[a].1.len()
                    implies #[trigger] walker_entries(self.enter_walker_map)[a].1[k] < self.callbacks@.len() by {
                if walker_type == WalkTy::Enter && walker_entries(self.enter_walker_map)[a].1[k] != idx {
                    let b = choose|b: int| 0 <= b < walker_entries(old(self).enter_walker_map).len() && 0 <= k < walker_entries(old(self).enter_walker_map)[b].1.len()
                        && walker_entries(old(self).enter_walker_map)[b].1[k] == walker_entries(self.enter_walker_map)[a].1[k];
                    assert(walker_entries(old(self).enter_walker_map)[b].1[k] < old(self).callbacks@.len());
                }
            }
            assert forall|a: int, k: int|
                0 <= a < walker_entries(self.leave_walker_map).len() && 0 <= k < walker_entries(self.leave_walker_map)[a].1.len()
                    implies #[trigger] walker_entries(self.leave_walker_map)[a].1[k] < self.callbacks@.len() by {
                if walker_type == WalkTy::Leave && walker_entries(self.leave_walker_map)[a].1[k] != idx {
                    let b = choose|b: int| 0 <= b < walker_entries(old(self).leave_walker_map).len() && 0 <= k < walker_entries(old(self).leave_walker_map)[b].1.len()
                        && walker_entries(old(self).leave_walker_map)[b].1[k] == walker_entries(self.leave_walker_map)[a].1[k];
                    assert(walker_entries(old(self).leave_walker_map)[b].1[k] < old(self).callbacks@.len());
                }
            }
        }
    }

    /// Binds a preprocessing callback of the rule `rule_name`, to run after
    /// those bound before it.
    pub fn preprocess(&mut self, rule_name: &str, callback: RuleKind)
        requires
            old(self).wf(),
        ensures
            final(self).wf(),
            final(self).bound_preprocessor(*old(self), rule_name@, callback),
    {
        let idx = self.add_callback(rule_name, callback);
        self.preprocessors.push(idx);
    }

    /// Binds a token callback of the rule `rule_name`, to run after those bound before it.
    pub fn listen_token(&mut self, rule_name: &str, callback: RuleKind)
        requires
            old(self).wf(),
        ensures
            final(self).wf(),
            final(self).bound_listener(*old(self), rule_name@, callback),
    {
        let idx = self.add_callback(rule_name, callback);
        self.token_listeners.push(idx);
    }

    pub fn listen_enter(&mut self, rule_name: &str, node_type: NodeKey, callback: RuleKind)
        requires
            old(self).wf(),
        ensures
            final(self).wf(),
            final(self).bound_walker(*old(self), rule_name@, node_type, WalkTy::Enter, callback),
    {
        self.register_walker(rule_name, node_type, WalkTy::Enter, callback);
    }

    pub fn listen_leave(&mut self, rule_name: &str, node_type: NodeKey, callback: RuleKind)
        requires
            old(self).wf(),
        ensures
            final(self).wf(),
            final(self).bound_walker(*old(self), rule_name@, node_type, WalkTy::Leave, callback),
    {
        self.register_walker(rule_name, node_type, WalkTy::Leave, callback);
    }

    /// The state of the rule named `key`.
    pub fn get_ctx(&self, key: &str) -> (r: Option<&RuleState>)
        requires
            self.wf(),
        ensures
            match r {
                Some(st) => find_ctx(self.ctxs(), key@) >= 0 && st@ == self.ctxs()[find_ctx(self.ctxs(), key@)].1,
                None => find_ctx(self.ctxs(), key@) < 0,
            },
    {
        let name = key.to_owned();
        let r = ctx_get(&self.rule_ctx, &name);
        proof {
            match r {
                Some(st) => {
                    let p = choose|p: int| 0 <= p < self.ctxs().len() && self.ctxs()[p].0 == name@ && st@ == self.ctxs()[p].1;
                    lemma_unique_find(self.ctxs(), name@, p);
                },
                None => lemma_find_ctx(self.ctxs(), name@),
            }
        }
        r
    }

    /// All bound rule states, by name, in binding order.
    pub fn get_all_ctx(&self) -> (r: &linked_hash_map::LinkedHashMap<String, RuleState>)
        ensures
            r == &self.rule_ctx,
    {
        &self.rule_ctx
    }

    /// The names of the bound rules, in binding order.
    pub fn ctx_names(&self) -> (r: Vec<String>)
        ensures
            r@.map_values(|s: String| s@) == self.ctxs().map_values(|e: (Seq<char>, RuleView)| e.0),
    {
        ctx_keys(&self.rule_ctx)
    }

    /// Binds `ctx` as the state of the rule `rule_name`. A name is bound once:
    /// a second binding under it is refused and changes nothing.
    pub fn bind_ctx(&mut self, rule_name: &str, ctx: RuleState) -> (r: bool)
        requires
            old(self).wf(),
        ensures
            final(self).wf(),
            final(self).same_tables(*old(self)),
            r == (find_ctx(old(self).ctxs(), rule_name@) < 0),
            r ==> final(self).ctxs() == old(self).ctxs().push((rule_name@, ctx@)),
            !r ==> final(self).ctxs() == old(self).ctxs(),
    {
        let name = rule_name.to_owned();
        match ctx_get(&self.rule_ctx, &name) {
            Some(_) => {
                proof {
                    let p = choose|p: int| 0 <= p < self.ctxs().len() && self.ctxs()[p].0 == name@;
                    lemma_unique_find(self.ctxs(), name@, p);
                }
                false
            },
            None => {
                proof {
                    lemma_find_ctx(self.ctxs(), name@);
                }
                ctx_insert_new(&mut self.rule_ctx, name, ctx);
                proof {
                    let c = self.ctxs();
                    let o = old(self).ctxs();
                    assert forall|i: int, j: int| 0 <= i < j < c.len() implies (#[trigger] c[i]).0 != (#[trigger] c[j]).0 by {
                        if j < o.len() {
                            assert(c[i] == o[i] && c[j] == o[j]);
                        } else {
                            assert(c[i] == o[i]);
                        }
                    }
                }
                true
            },
        }
    }

    /// Runs the callbacks bound to `node_key` for `walker_type`, in binding
    /// order, each against its own rule's state.
    pub fn trigger_walker<'a>(&mut self, node_key: NodeKey, walker_type: WalkTy, rule: NodeWrapper<'a>) -> (r: NodeWrapper<'a>)
        requires
            old(self).wf(),
        ensures
            r == rule,
            final(self).wf(),
            final(self).same_tables(*old(self)),
            final(self).ctxs() == fire_walk(
                old(self).ctxs(),
                old(self).callbacks@,
                old(self).names(),
                old(self).walkers(walker_type, node_key),
                rule,
            ),
    {
        let ghost list = self.walkers(walker_type, node_key);
        let ghost table = match walker_type {
            WalkTy::Enter => walker_entries(self.enter_walker_map),
            WalkTy::Leave => walker_entries(self.leave_walker_map),
        };
        let found = match walker_type {
            WalkTy::Enter => walker_get(&self.enter_walker_map, &node_key),
            WalkTy::Leave => walker_get(&self.leave_walker_map, &node_key),
        };
        let cbs = match found {
            Some(v) => copy_list(v),
            None => Vec::new(),
        };
        proof {
            lemma_find_key(table, node_key);
            match found {
                Some(v) => {
                    let p = choose|p: int| 0 <= p < table.len() && table[p].0 == node_key && v@ == table[p].1;
                    lemma_unique_key_find(table, node_key, p);
                },
                None => {
                    if find_key(table, node_key) >= 0 {
                        assert(table[find_key(table, node_key)].0 == node_key);
                    }
                    assert(cbs@ =~= Seq::<usize>::empty());
                },
            }
            assert(cbs@ == list);
        }
        let mut node = rule;
        let mut k: usize = 0;
        while k < cbs.len()
            invariant
                self.wf(),
                self.same_tables(*old(self)),
                list == old(self).walkers(walker_type, node_key),
                cbs@ == list,
                k <= list.len(),
                node == rule,
                forall|j: int| 0 <= j < list.len() ==> #[trigger] list[j] < old(self).callbacks@.len(),
                self.ctxs() == fire_walk(old(self).ctxs(), old(self).callbacks@, old(self).names(), list.take(k as int), rule),
            decreases cbs.len() - k,
        {
            let cb = cbs[k];
            proof {
                assert(list.take(k + 1).drop_last() =~= list.take(k as int));
                assert(cb < self.callbacks@.len());
            }
            let kind = self.callbacks[cb];
            let ghost before = self.ctxs();
            let ghost name = self.names()[cb as int];
            match ctx_get_mut(&mut self.rule_ctx, name_of(&self.callback_names, cb)) {
                Some(st) => {
                    node = st.on_node(kind, node);
                    proof {
                        let p = choose|p: int| 0 <= p < before.len() && before[p].0 == name
                            && self.ctxs() == before.update(p, (name, walk_effect(kind, before[p].1, rule)));
                        lemma_unique_find(before, name, p);
                        lemma_unique_update(before, p, (name, walk_effect(kind, before[p].1, rule)));
                    }
                },
                None => {
                    proof {
                        lemma_find_ctx(before, name);
                    }
                },
            }
            k = k + 1;
        }
        proof {
            assert(list.take(list.len() as int) =~= list);
        }
        node
    }

    pub fn notify_enter<'a>(&mut self, node_key: NodeKey, rule: NodeWrapper<'a>) -> (r: NodeWrapper<'a>)
        requires
            old(self).wf(),
        ensures
            r == rule,
            final(self).wf(),
            final(self).same_tables(*old(self)),
            final(self).ctxs() == fire_walk(old(self).ctxs(), old(self).callbacks@, old(self).names(), old(self).walkers(WalkTy::Enter, node_key), rule),
    {
        self.trigger_walker(node_key, WalkTy::Enter, rule)
    }

    pub fn notify_leave<'a>(&mut self, node_key: NodeKey, rule: NodeWrapper<'a>) -> (r: NodeWrapper<'a>)
        requires
            old(self).wf(),
        ensures
            r == rule,
            final(self).wf(),
            final(self).same_tables(*old(self)),
            final(self).ctxs() == fire_walk(old(self).ctxs(), old(self).callbacks@, old(self).names(), old(self).walkers(WalkTy::Leave, node_key), rule),
    {
        self.trigger_walker(node_key, WalkTy::Leave, rule)
    }

    /// Hands `token` to every token callback, in binding order.
    pub fn notify_token(&mut self, token: Token) -> (r: Token)
        requires
            old(self).wf(),
        ensures
            r == token,
            final(self).wf(),
            final(self).same_tables(*old(self)),
            final(self).ctxs() == fire_token(old(self).ctxs(), old(self).callbacks@, old(self).names(), old(self).token_listeners@, token@),
    {
        let ghost list = self.token_listeners@;
        let mut tok = token;
        let mut k: usize = 0;
        while k < self.token_listeners.len()
            invariant
                self.wf(),
                self.same_tables(*old(self)),
                list == self.token_listeners@,
                k <= list.len(),
                tok == token,
                self.ctxs() == fire_token(old(self).ctxs(), old(self).callbacks@, old(self).names(), list.take(k as int), token@),
            decreases self.token_listeners.len() - k,
        {
            let cb = self.token_listeners[k];
            proof {
                assert(list.take(k + 1).drop_last() =~= list.take(k as int));
            }
            let kind = self.callbacks[cb];
            let ghost before = self.ctxs();
            let ghost name = self.names()[cb as int];
            match ctx_get_mut(&mut self.rule_ctx, name_of(&self.callback_names, cb)) {
                Some(st) => {
                    tok = st.on_token(kind, tok);
                    proof {
                        let p = choose|p: int| 0 <= p < before.len() && before[p].0 == name
                            && self.ctxs() == before.update(p, (name, token_effect(kind, before[p].1, token@)));
                        lemma_unique_find(before, name, p);
                        lemma_unique_update(before, p, (name, token_effect(kind, before[p].1, token@)));
                    }
                },
                None => {
                    proof {
                        lemma_find_ctx(before, name);
                    }
                },
            }
            k = k + 1;
        }
        proof {
            assert(list.take(list.len() as int) =~= list);
        }
        tok
    }

    /// Runs every preprocessing callback, in binding order, each on the text
    /// that the one before it returned.
    pub fn trigger_preprocess(&mut self, src: &str) -> (r: String)
        requires
            old(self).wf(),
        ensures
            final(self).wf(),
            final(self).same_tables(*old(self)),
            (final(self).ctxs(), r@) == fire_pre(old(self).ctxs(), old(self).callbacks@, old(self).names(), old(self).preprocessors@, src@),
    {
        let ghost list = self.preprocessors@;
        let mut source = src.to_owned();
        let mut k: usize = 0;
        while k < self.preprocessors.len()
            invariant
                self.wf(),
                self.same_tables(*old(self)),
                list == self.preprocessors@,
                k <= list.len(),
                (self.ctxs(), source@) == fire_pre(old(self).ctxs(), old(self).callbacks@, old(self).names(), list.take(k as int), src@),
            decreases self.preprocessors.len() - k,
        {
            let cb = self.preprocessors[k];
            proof {
                assert(list.take(k + 1).drop_last() =~= list.take(k as int));
            }
            let kind = self.callbacks[cb];
            let ghost before = self.ctxs();
            let ghost text = source@;
            let ghost name = self.names()[cb as int];
            match ctx_get_mut(&mut self.rule_ctx, name_of(&self.callback_names, cb)) {
                Some(st) => {
                    source = st.on_source(kind, source);
                    proof {
                        let p = choose|p: int| 0 <= p < before.len() && before[p].0 == name
                            && self.ctxs() == before.update(p, (name, pre_effect(kind, before[p].1, text).0));
                        lemma_unique_find(before, name, p);
                        lemma_unique_update(before, p, (name, pre_effect(kind, before[p].1, text).0));
                    }
                },
                None => {
                    proof {
                        lemma_find_ctx(before, name);
                    }
                },
            }
            k = k + 1;
        }
        proof {
            assert(list.take(list.len() as int) =~= list);
        }
        source
    }
}

/// No two rule states share a name.
pub open spec fn unique_names(c: Contexts) -> bool {
    forall|i: int, j: int| 0 <= i < j < c.len() ==> (#[trigger] c[i]).0 != (#[trigger] c[j]).0
}

pub proof fn lemma_unique_find(c: Contexts, name: Seq<char>, p: int)
    requires
        unique_names(c),
        0 <= p < c.len(),
        c[p].0 == name,
    ensures
        find_ctx(c, name) == p,
{
    lemma_find_ctx(c, name);
    let f = find_ctx(c, name);
    if f < 0 {
        assert(c[p].0 != name);
    } else if f < p {
        assert(c[f].0 != c[p].0);
    } else if f > p {
        assert(c[p].0 != name);
    }
}

pub proof fn lemma_unique_update(c: Contexts, p: int, e: (Seq<char>, RuleView))
    requires
        unique_names(c),
        0 <= p < c.len(),
        e.0 == c[p].0,
    ensures
        unique_names(c.update(p, e)),
{
    let d = c.update(p, e);
    assert forall|i: int, j: int| 0 <= i < j < d.len() implies (#[trigger] d[i]).0 != (#[trigger] d[j]).0 by {
        assert(d[i].0 == c[i].0 && d[j].0 == c[j].0);
    }
}

/// The rule states of the registry's map, in insertion order: each name as
/// characters, each state by its view.
pub uninterp spec fn ctx_entries(m: linked_hash_map::LinkedHashMap<String, RuleState>) -> Seq<(Seq<char>, RuleView)>;

/// linked_hash_map's map, which keeps its entries in insertion order.
#[verifier::external_type_specification]
#[verifier::external_body]
#[verifier::reject_recursive_types(K)]
#[verifier::reject_recursive_types(V)]
#[verifier::reject_recursive_types(S)]
pub struct ExLinkedHashMap<K, V, S>(linked_hash_map::LinkedHashMap<K, V, S>);

/// Relies on `LinkedHashMap::new`: the map starts empty.
#[verifier::external_body]
fn ctx_map_new() -> (r: linked_hash_map::LinkedHashMap<String, RuleState>)
    ensures
        ctx_entries(r) == Seq::<(Seq<char>, RuleView)>::empty(),
{
    linked_hash_map::LinkedHashMap::new()
}

/// Relies on `LinkedHashMap::get`: the value under `k`, if `k` is a key.
#[verifier::external_body]
fn ctx_get<'a>(m: &'a linked_hash_map::LinkedHashMap<String, RuleState>, k: &String) -> (r: Option<&'a RuleState>)
    ensures
        match r {
            Some(v) => exists|p: int| 0 <= p < ctx_entries(*m).len() && ctx_entries(*m)[p].0 == k@ && v@ == ctx_entries(*m)[p].1,
            None => forall|p: int| 0 <= p < ctx_entries(*m).len() ==> ctx_entries(*m)[p].0 != k@,
        },
{
    m.get(k)
}

/// Relies on `LinkedHashMap::get_mut`: the value under `k`, to change in
/// place, if `k` is a key; the entry keeps its key and its place.
#[verifier::external_body]
fn ctx_get_mut<'a>(m: &'a mut linked_hash_map::LinkedHashMap<String, RuleState>, k: &String) -> (r: Option<&'a mut RuleState>)
    ensures
        match r {
            Some(e) => exists|p: int| 0 <= p < ctx_entries(*old(m)).len() && ctx_entries(*old(m))[p].0 == k@
                && (*e)@ == ctx_entries(*old(m))[p].1
                && ctx_entries(*final(m)) == ctx_entries(*old(m)).update(p, (k@, final(e)@)),
            None => ctx_entries(*final(m)) == ctx_entries(*old(m)) && forall|p: int|
                0 <= p < ctx_entries(*old(m)).len() ==> ctx_entries(*old(m))[p].0 != k@,
        },
{
    m.get_mut(k)
}

/// Relies on `LinkedHashMap::insert`: a key that is not in the map is added
/// with its value after every other entry.
#[verifier::external_body]
fn ctx_insert_new(m: &mut linked_hash_map::LinkedHashMap<String, RuleState>, k: String, v: RuleState)
    requires
        forall|p: int| 0 <= p < ctx_entries(*old(m)).len() ==> ctx_entries(*old(m))[p].0 != k@,
    ensures
        ctx_entries(*final(m)) == ctx_entries(*old(m)).push((k@, v@)),
{
    m.insert(k, v);
}

/// Relies on `LinkedHashMap::keys`: the keys in insertion order.
#[verifier::external_body]
fn ctx_keys(m: &linked_hash_map::LinkedHashMap<String, RuleState>) -> (r: Vec<String>)
    ensures
        r@.map_values(|s: String| s@) == ctx_entries(*m).map_values(|e: (Seq<char>, RuleView)| e.0),
{
    m.keys().cloned().collect()
}

fn copy_list(v: &Vec<usize>) -> (r: Vec<usize>)
    ensures
        r@ == v@,
{
    let mut out: Vec<usize> = Vec::new();
    let mut i: usize = 0;
    while i < v.len()
        invariant
            i <= v@.len(),
            out@ == v@.take(i as int),
        decreases v.len() - i,
    {
        out.push(v[i]);
        proof {
            assert(out@ =~= v@.take(i + 1));
        }
        i = i + 1;
    }
    proof {
        assert(v@.take(v@.len() as int) =~= v@);
    }
    out
}

/// The entries of a walker table, in insertion order, each list by its view.
pub uninterp spec fn walker_entries(m: linked_hash_map::LinkedHashMap<NodeKey, Vec<usize>>) -> Seq<(NodeKey, Seq<usize>)>;

/// Relies on `LinkedHashMap::new`: the table starts empty.
#[verifier::external_body]
fn walker_map_new() -> (r: linked_hash_map::LinkedHashMap<NodeKey, Vec<usize>>)
    ensures
        walker_entries(r) == Seq::<(NodeKey, Seq<usize>)>::empty(),
{
    linked_hash_map::LinkedHashMap::new()
}

/// Relies on `LinkedHashMap::get`: the list under `key`, if `key` is a key.
#[verifier::external_body]
fn walker_get<'a>(m: &'a linked_hash_map::LinkedHashMap<NodeKey, Vec<usize>>, key: &NodeKey) -> (r: Option<&'a Vec<usize>>)
    ensures
        match r {
            Some(v) => exists|p: int| 0 <= p < walker_entries(*m).len() && walker_entries(*m)[p].0 == *key && v@ == walker_entries(*m)[p].1,
            None => forall|p: int| 0 <= p < walker_entries(*m).len() ==> walker_entries(*m)[p].0 != *key,
        },
{
    m.get(key)
}

/// Relies on `LinkedHashMap::get_mut`: the list under `key`, to change in
/// place, if `key` is a key; the entry keeps its key and its place.
#[verifier::external_body]
fn walker_get_mut<'a>(m: &'a mut linked_hash_map::LinkedHashMap<NodeKey, Vec<usize>>, key: NodeKey) -> (r: Option<&'a mut Vec<usize>>)
    ensures
        match r {
            Some(e) => exists|p: int| 0 <= p < walker_entries(*old(m)).len() && walker_entries(*old(m))[p].0 == key
                && (*e)@ == walker_entries(*old(m))[p].1
                && walker_entries(*final(m)) == walker_entries(*old(m)).update(p, (key, final(e)@)),
            None => walker_entries(*final(m)) == walker_entries(*old(m)) && forall|p: int|
                0 <= p < walker_entries(*old(m)).len() ==> walker_entries(*old(m))[p].0 != key,
        },
{
    m.get_mut(&key)
}

/// Relies on `LinkedHashMap::insert`: a key that is not in the table is added
/// with its list after every other entry.
#[verifier::external_body]
fn walker_insert_new(m: &mut linked_hash_map::LinkedHashMap<NodeKey, Vec<usize>>, key: NodeKey, v: Vec<usize>)
    requires
        forall|p: int| 0 <= p < walker_entries(*old(m)).len() ==> walker_entries(*old(m))[p].0 != key,
    ensures
        walker_entries(*final(m)) == walker_entries(*old(m)).push((key, v@)),
{
    m.insert(key, v);
}

/// Each entry's key is its place: callbacks are numbered in order from 0.
pub open spec fn numbered(e: Seq<(usize, Seq<char>)>) -> bool {
    forall|p: int| 0 <= p < e.len() ==> #[trigger] e[p].0 == p
}

/// The entries of the map from callback numbers to rule names, in insertion order.
pub uninterp spec fn name_entries(m: linked_hash_map::LinkedHashMap<usize, String>) -> Seq<(usize, Seq<char>)>;

/// Relies on `LinkedHashMap::new`: the map starts empty.
#[verifier::external_body]
fn name_map_new() -> (r: linked_hash_map::LinkedHashMap<usize, String>)
    ensures
        name_entries(r) == Seq::<(usize, Seq<char>)>::empty(),
{
    linked_hash_map::LinkedHashMap::new()
}

/// Relies on `LinkedHashMap::get`: the name under `k`, if `k` is a key.
#[verifier::external_body]
fn name_get<'a>(m: &'a linked_hash_map::LinkedHashMap<usize, String>, k: usize) -> (r: Option<&'a String>)
    ensures
        match r {
            Some(v) => exists|p: int| 0 <= p < name_entries(*m).len() && name_entries(*m)[p].0 == k && v@ == name_entries(*m)[p].1,
            None => forall|p: int| 0 <= p < name_entries(*m).len() ==> name_entries(*m)[p].0 != k,
        },
{
    m.get(&k)
}

/// Relies on `LinkedHashMap::insert`: a key that is not in the map is added
/// with its name after every other entry.
#[verifier::external_body]
fn name_insert_new(m: &mut linked_hash_map::LinkedHashMap<usize, String>, k: usize, v: String)
    requires
        forall|p: int| 0 <= p < name_entries(*old(m)).len() ==> name_entries(*old(m))[p].0 != k,
    ensures
        name_entries(*final(m)) == name_entries(*old(m)).push((k, v@)),
{
    m.insert(k, v);
}

/// The name that callback `cb` is bound to.
fn name_of(m: &linked_hash_map::LinkedHashMap<usize, String>, cb: usize) -> (r: &String)
    requires
        numbered(name_entries(*m)),
        cb < name_entries(*m).len(),
    ensures
        r@ == name_entries(*m)[cb as int].1,
{
    match name_get(m, cb) {
        Some(n) => {
            proof {
                let p = choose|p: int| 0 <= p < name_entries(*m).len() && name_entries(*m)[p].0 == cb && n@ == name_entries(*m)[p].1;
                assert(name_entries(*m)[p].0 == p);
            }
            n
        },
        None => {
            proof {
                assert(name_entries(*m)[cb as int].0 == cb);
            }
            unreached()
        },
    }
}

} // verus!
