//! Association sequences: the shared model behind the install manifest and
//! the mods-directory contents.
//!
//! A store is a sequence of (name, value) pairs.  A well-formed store has
//! unique names; lookups return the first match so that a store damaged by
//! outside edits is still read deterministically rather than rejected.

use vstd::prelude::*;

verus! {

/// Names are unique within the store.
pub open spec fn kv_wf<V>(m: Seq<(Seq<char>, V)>) -> bool {
    forall|i: int, j: int| 0 <= i < j < m.len() ==> m[i].0 != m[j].0
}

/// The value recorded under `name`, if any (first match).
pub open spec fn kv_find<V>(m: Seq<(Seq<char>, V)>, name: Seq<char>) -> Option<V>
    decreases m.len(),
{
    if m.len() == 0 {
        None
    } else if m[0].0 == name {
        Some(m[0].1)
    } else {
        kv_find(m.drop_first(), name)
    }
}

/// Whether some value is recorded under `name`.
pub open spec fn kv_has<V>(m: Seq<(Seq<char>, V)>, name: Seq<char>) -> bool {
    kv_find(m, name) is Some
}

/// The store without any pair recorded under `name`.
pub open spec fn kv_remove<V>(m: Seq<(Seq<char>, V)>, name: Seq<char>) -> Seq<(Seq<char>, V)>
    decreases m.len(),
{
    if m.len() == 0 {
        Seq::empty()
    } else if m[0].0 == name {
        kv_remove(m.drop_first(), name)
    } else {
        seq![m[0]] + kv_remove(m.drop_first(), name)
    }
}

/// Recording a value removes any prior pair under the same name and appends
/// the new pair.
pub open spec fn kv_insert<V>(m: Seq<(Seq<char>, V)>, name: Seq<char>, e: V) -> Seq<
    (Seq<char>, V),
> {
    kv_remove(m, name).push((name, e))
}

/// The store restricted to the pairs whose name occurs in `present`.
pub open spec fn kv_prune<V>(m: Seq<(Seq<char>, V)>, present: Seq<Seq<char>>) -> Seq<
    (Seq<char>, V),
>
    decreases m.len(),
{
    if m.len() == 0 {
        Seq::empty()
    } else if present.contains(m[0].0) {
        seq![m[0]] + kv_prune(m.drop_first(), present)
    } else {
        kv_prune(m.drop_first(), present)
    }
}

/// The first pair whose value satisfies `pred`, scanning front to back.
pub open spec fn kv_find_first<V>(m: Seq<(Seq<char>, V)>, pred: spec_fn(V) -> bool) -> Option<
    (Seq<char>, V),
>
    decreases m.len(),
{
    if m.len() == 0 {
        None
    } else if pred(m[0].1) {
        Some(m[0])
    } else {
        kv_find_first(m.drop_first(), pred)
    }
}

pub proof fn lemma_kv_find_some_iff<V>(m: Seq<(Seq<char>, V)>, name: Seq<char>)
    ensures
        kv_has(m, name) <==> exists|i: int| 0 <= i < m.len() && m[i].0 == name,
    decreases m.len(),
{
    if m.len() > 0 {
        lemma_kv_find_some_iff(m.drop_first(), name);
        if m[0].0 != name {
            if kv_has(m, name) {
                let i = choose|i: int|
                    0 <= i < m.drop_first().len() && m.drop_first()[i].0 == name;
                assert(m[i + 1].0 == name);
            }
            if exists|i: int| 0 <= i < m.len() && m[i].0 == name {
                let i = choose|i: int| 0 <= i < m.len() && m[i].0 == name;
                assert(m.drop_first()[i - 1].0 == name);
            }
        }
    }
}

pub proof fn lemma_kv_find_first_some_iff<V>(m: Seq<(Seq<char>, V)>, pred: spec_fn(V) -> bool)
    ensures
        kv_find_first(m, pred) is Some <==> exists|i: int| 0 <= i < m.len() && pred(m[i].1),
    decreases m.len(),
{
    if m.len() > 0 {
        lemma_kv_find_first_some_iff(m.drop_first(), pred);
        if !pred(m[0].1) {
            if kv_find_first(m, pred) is Some {
                let i = choose|i: int|
                    0 <= i < m.drop_first().len() && pred(m.drop_first()[i].1);
                assert(pred(m[i + 1].1));
            }
            if exists|i: int| 0 <= i < m.len() && pred(m[i].1) {
                let i = choose|i: int| 0 <= i < m.len() && pred(m[i].1);
                assert(pred(m.drop_first()[i - 1].1));
            }
        }
    }
}

/// Removal leaves no pair under `name`, only drops pairs, and keeps
/// well-formedness.
pub proof fn lemma_kv_remove_props<V>(m: Seq<(Seq<char>, V)>, name: Seq<char>)
    ensures
        kv_find(kv_remove(m, name), name) is None,
        forall|i: int|
            0 <= i < kv_remove(m, name).len() ==> m.contains(#[trigger] kv_remove(m, name)[i]),
        kv_wf(m) ==> kv_wf(kv_remove(m, name)),
        kv_remove(m, name).len() <= m.len(),
    decreases m.len(),
{
    if m.len() > 0 {
        let tail = m.drop_first();
        lemma_kv_remove_props(tail, name);
        assert(forall|i: int| 0 <= i < tail.len() ==> m.contains(#[trigger] tail[i])) by {
            assert(forall|i: int| 0 <= i < tail.len() ==> #[trigger] tail[i] == m[i + 1]);
        }
        if m[0].0 != name {
            let rr = kv_remove(tail, name);
            let r = seq![m[0]] + rr;
            assert(r.drop_first() =~= rr);
            assert(r[0] == m[0]);
            assert(m.contains(m[0])) by {
                assert(m[0] == m[0]);
            }
            if kv_wf(m) {
                assert(kv_wf(tail)) by {
                    assert(forall|i: int|
                        0 <= i < tail.len() ==> #[trigger] tail[i] == m[i + 1]);
                }
                assert forall|j: int| 0 < j < r.len() implies r[0].0 != #[trigger] r[j].0 by {
                    assert(r[j] == rr[j - 1]);
                    assert(tail.contains(rr[j - 1]));
                    let k = choose|k: int| 0 <= k < tail.len() && tail[k] == rr[j - 1];
                    assert(m[k + 1] == tail[k]);
                    assert(m[0].0 != m[k + 1].0);
                }
                assert(kv_wf(r)) by {
                    assert(forall|i: int, j: int|
                        0 < i < j < r.len() ==> #[trigger] r[i].0 != #[trigger] r[j].0) by {
                        assert(forall|i: int, j: int|
                            0 < i < j < r.len() ==> #[trigger] r[i] == rr[i - 1] && #[trigger] r[j]
                                == rr[j - 1]);
                    }
                }
            }
        }
    }
}

/// Removal under one name does not change the lookup under another.
pub proof fn lemma_kv_remove_find_other<V>(
    m: Seq<(Seq<char>, V)>,
    name: Seq<char>,
    other: Seq<char>,
)
    requires
        other != name,
    ensures
        kv_find(kv_remove(m, name), other) == kv_find(m, other),
    decreases m.len(),
{
    if m.len() > 0 {
        let tail = m.drop_first();
        lemma_kv_remove_find_other(tail, name, other);
        if m[0].0 != name {
            let r = seq![m[0]] + kv_remove(tail, name);
            assert(r.drop_first() =~= kv_remove(tail, name));
            assert(r[0] == m[0]);
        }
    }
}

/// A lookup in `m.push(x)` first consults `m`.
pub proof fn lemma_kv_find_push<V>(m: Seq<(Seq<char>, V)>, x: (Seq<char>, V), n: Seq<char>)
    ensures
        kv_find(m.push(x), n) == if kv_has(m, n) {
            kv_find(m, n)
        } else if x.0 == n {
            Some(x.1)
        } else {
            None::<V>
        },
    decreases m.len(),
{
    if m.len() == 0 {
        assert(m.push(x).drop_first() =~= m);
        assert(m.push(x)[0] == x);
    } else {
        lemma_kv_find_push(m.drop_first(), x, n);
        assert(m.push(x).drop_first() =~= m.drop_first().push(x));
        assert(m.push(x)[0] == m[0]);
    }
}

/// Removal distributes over appending one pair.
pub proof fn lemma_kv_remove_push<V>(m: Seq<(Seq<char>, V)>, x: (Seq<char>, V), n: Seq<char>)
    ensures
        kv_remove(m.push(x), n) == if x.0 == n {
            kv_remove(m, n)
        } else {
            kv_remove(m, n).push(x)
        },
    decreases m.len(),
{
    if m.len() == 0 {
        assert(m.push(x).drop_first() =~= m);
        assert(m.push(x)[0] == x);
        if x.0 == n {
            assert(kv_remove(m.push(x), n) =~= kv_remove(m, n));
        } else {
            assert(kv_remove(m.push(x), n) =~= kv_remove(m, n).push(x));
        }
    } else {
        lemma_kv_remove_push(m.drop_first(), x, n);
        assert(m.push(x).drop_first() =~= m.drop_first().push(x));
        assert(m.push(x)[0] == m[0]);
        if m[0].0 == n {
        } else {
            if x.0 == n {
            } else {
                assert(kv_remove(m.push(x), n) =~= kv_remove(m, n).push(x));
            }
        }
    }
}

/// A first-match search in `m.push(x)` first consults `m`.
pub proof fn lemma_kv_find_first_push<V>(
    m: Seq<(Seq<char>, V)>,
    x: (Seq<char>, V),
    pred: spec_fn(V) -> bool,
)
    ensures
        kv_find_first(m.push(x), pred) == if kv_find_first(m, pred) is Some {
            kv_find_first(m, pred)
        } else if pred(x.1) {
            Some(x)
        } else {
            None::<(Seq<char>, V)>
        },
    decreases m.len(),
{
    if m.len() == 0 {
        assert(m.push(x).drop_first() =~= m);
        assert(m.push(x)[0] == x);
    } else {
        lemma_kv_find_first_push(m.drop_first(), x, pred);
        assert(m.push(x).drop_first() =~= m.drop_first().push(x));
        assert(m.push(x)[0] == m[0]);
    }
}

/// Insertion records exactly the new pair and keeps the store well-formed.
pub proof fn lemma_kv_insert_props<V>(m: Seq<(Seq<char>, V)>, name: Seq<char>, e: V)
    ensures
        kv_find(kv_insert(m, name, e), name) == Some(e),
        kv_wf(m) ==> kv_wf(kv_insert(m, name, e)),
    decreases m.len(),
{
    lemma_kv_remove_props(m, name);
    let r = kv_remove(m, name);
    lemma_kv_find_push(r, (name, e), name);
    if kv_wf(m) {
        lemma_kv_find_some_iff(r, name);
        let rp = r.push((name, e));
        assert forall|i: int, j: int|
            0 <= i < j < rp.len() implies #[trigger] rp[i].0 != #[trigger] rp[j].0 by {
            if j < r.len() {
                assert(rp[i] == r[i] && rp[j] == r[j]);
            } else {
                assert(rp[i] == r[i]);
                assert(r[i].0 != name);
            }
        }
        assert(kv_wf(rp));
    }
}

/// Pruning keeps exactly the lookups under names that are present.
pub proof fn lemma_kv_prune_find<V>(
    m: Seq<(Seq<char>, V)>,
    present: Seq<Seq<char>>,
    n: Seq<char>,
)
    ensures
        kv_find(kv_prune(m, present), n) == if present.contains(n) {
            kv_find(m, n)
        } else {
            None::<V>
        },
    decreases m.len(),
{
    if m.len() > 0 {
        let tail = m.drop_first();
        lemma_kv_prune_find(tail, present, n);
        if present.contains(m[0].0) {
            let r = seq![m[0]] + kv_prune(tail, present);
            assert(r.drop_first() =~= kv_prune(tail, present));
            assert(r[0] == m[0]);
        }
    }
}

/// Pruning only drops pairs and keeps well-formedness.
pub proof fn lemma_kv_prune_props<V>(m: Seq<(Seq<char>, V)>, present: Seq<Seq<char>>)
    ensures
        forall|i: int|
            0 <= i < kv_prune(m, present).len() ==> m.contains(
                #[trigger] kv_prune(m, present)[i],
            ),
        kv_wf(m) ==> kv_wf(kv_prune(m, present)),
        kv_prune(m, present).len() <= m.len(),
    decreases m.len(),
{
    if m.len() > 0 {
        let tail = m.drop_first();
        lemma_kv_prune_props(tail, present);
        assert(forall|i: int| 0 <= i < tail.len() ==> m.contains(#[trigger] tail[i])) by {
            assert(forall|i: int| 0 <= i < tail.len() ==> #[trigger] tail[i] == m[i + 1]);
        }
        if present.contains(m[0].0) {
            let rr = kv_prune(tail, present);
            let r = seq![m[0]] + rr;
            assert(r.drop_first() =~= rr);
            assert(r[0] == m[0]);
            assert(m.contains(m[0])) by {
                assert(m[0] == m[0]);
            }
            if kv_wf(m) {
                assert(kv_wf(tail)) by {
                    assert(forall|i: int|
                        0 <= i < tail.len() ==> #[trigger] tail[i] == m[i + 1]);
                }
                assert forall|j: int| 0 < j < r.len() implies r[0].0 != #[trigger] r[j].0 by {
                    assert(r[j] == rr[j - 1]);
                    assert(tail.contains(rr[j - 1]));
                    let k = choose|k: int| 0 <= k < tail.len() && tail[k] == rr[j - 1];
                    assert(m[k + 1] == tail[k]);
                    assert(m[0].0 != m[k + 1].0);
                }
                assert(kv_wf(r)) by {
                    assert(forall|i: int, j: int|
                        0 < i < j < r.len() ==> #[trigger] r[i].0 != #[trigger] r[j].0) by {
                        assert(forall|i: int, j: int|
                            0 < i < j < r.len() ==> #[trigger] r[i] == rr[i - 1] && #[trigger] r[j]
                                == rr[j - 1]);
                    }
                }
            }
        } else if kv_wf(m) {
            assert(kv_wf(tail)) by {
                assert(forall|i: int| 0 <= i < tail.len() ==> #[trigger] tail[i] == m[i + 1]);
            }
        }
    }
}

/// Pruning distributes over appending one pair.
pub proof fn lemma_kv_prune_push<V>(
    m: Seq<(Seq<char>, V)>,
    x: (Seq<char>, V),
    present: Seq<Seq<char>>,
)
    ensures
        kv_prune(m.push(x), present) == if present.contains(x.0) {
            kv_prune(m, present).push(x)
        } else {
            kv_prune(m, present)
        },
    decreases m.len(),
{
    if m.len() == 0 {
        assert(m.push(x).drop_first() =~= m);
        assert(m.push(x)[0] == x);
        if present.contains(x.0) {
            assert(kv_prune(m.push(x), present) =~= kv_prune(m, present).push(x));
        } else {
            assert(kv_prune(m.push(x), present) =~= kv_prune(m, present));
        }
    } else {
        lemma_kv_prune_push(m.drop_first(), x, present);
        assert(m.push(x).drop_first() =~= m.drop_first().push(x));
        assert(m.push(x)[0] == m[0]);
        if present.contains(m[0].0) && present.contains(x.0) {
            assert(kv_prune(m.push(x), present) =~= kv_prune(m, present).push(x));
        }
    }
}

/// Connecting a lookup hit in a prefix to the whole store.
pub proof fn lemma_kv_find_extends<V>(m: Seq<(Seq<char>, V)>, name: Seq<char>, k: int)
    requires
        0 <= k <= m.len(),
        kv_find(m.take(k), name) is Some,
    ensures
        kv_find(m, name) == kv_find(m.take(k), name),
    decreases m.len(),
{
    if m.len() > 0 && k > 0 {
        if m[0].0 != name {
            assert(m.take(k).drop_first() =~= m.drop_first().take(k - 1));
            lemma_kv_find_extends(m.drop_first(), name, k - 1);
        }
    }
}

/// Connecting a first-match hit in a prefix to the whole store.
pub proof fn lemma_kv_find_first_extends<V>(
    m: Seq<(Seq<char>, V)>,
    pred: spec_fn(V) -> bool,
    k: int,
)
    requires
        0 <= k <= m.len(),
        kv_find_first(m.take(k), pred) is Some,
    ensures
        kv_find_first(m, pred) == kv_find_first(m.take(k), pred),
    decreases m.len(),
{
    if m.len() > 0 && k > 0 {
        if !pred(m[0].1) {
            assert(m.take(k).drop_first() =~= m.drop_first().take(k - 1));
            lemma_kv_find_first_extends(m.drop_first(), pred, k - 1);
        }
    }
}


/// Every pair kept by a removal carries a different name.
pub proof fn lemma_kv_remove_keys<V>(m: Seq<(Seq<char>, V)>, name: Seq<char>)
    ensures
        forall|i: int|
            0 <= i < kv_remove(m, name).len() ==> (#[trigger] kv_remove(m, name)[i]).0 != name,
    decreases m.len(),
{
    if m.len() > 0 {
        let tail = m.drop_first();
        lemma_kv_remove_keys(tail, name);
        if m[0].0 != name {
            let r = seq![m[0]] + kv_remove(tail, name);
            assert(forall|i: int|
                0 < i < r.len() ==> #[trigger] r[i] == kv_remove(tail, name)[i - 1]);
        }
    }
}

/// Removal keeps the values' projections pairwise distinct.
pub proof fn lemma_kv_remove_distinct_by<V>(
    m: Seq<(Seq<char>, V)>,
    name: Seq<char>,
    g: spec_fn(V) -> Seq<char>,
)
    requires
        forall|i: int, j: int| 0 <= i < j < m.len() ==> g(m[i].1) != g(m[j].1),
    ensures
        forall|i: int, j: int|
            0 <= i < j < kv_remove(m, name).len() ==> g(kv_remove(m, name)[i].1) != g(
                kv_remove(m, name)[j].1,
            ),
    decreases m.len(),
{
    if m.len() > 0 {
        let tail = m.drop_first();
        assert(forall|i: int| 0 <= i < tail.len() ==> #[trigger] tail[i] == m[i + 1]);
        lemma_kv_remove_distinct_by(tail, name, g);
        lemma_kv_remove_props(tail, name);
        if m[0].0 != name {
            let rr = kv_remove(tail, name);
            let r = seq![m[0]] + rr;
            assert(r.drop_first() =~= rr);
            assert(r[0] == m[0]);
            assert forall|j: int| 0 < j < r.len() implies g(r[0].1) != g(
                (#[trigger] r[j]).1,
            ) by {
                assert(r[j] == rr[j - 1]);
                assert(tail.contains(rr[j - 1]));
                let k = choose|k: int| 0 <= k < tail.len() && tail[k] == rr[j - 1];
                assert(m[k + 1] == tail[k]);
                assert(g(m[0].1) != g(m[k + 1].1));
            }
            assert(forall|i: int, j: int|
                0 < i < j < r.len() ==> #[trigger] r[i] == rr[i - 1] && #[trigger] r[j]
                    == rr[j - 1]);
        }
    }
}

} // verus!
