//! Deep insertion of values into mappings along paths of keys.
//!
//! A mapping is turned into a tree whose inner nodes are mappings (arrays
//! become mappings from their indices) and whose leaves are primitives;
//! values are inserted along key paths and merged into what is there; the
//! tree is turned back into a mapping.
use vstd::prelude::*;

use crate::spec::text::Text;
use crate::spec::values::{
    KeyV, PrimV, ValueV, MapKey, PrimitiveValue, RuntimeValue, MappingOrArray, RealMapping,
    Array, KeyOrder, key_lt, compare_key, value_view, entries_view, default_view,
    lemma_key_order, key_eq, clone_value, clone_entries,
};

verus! {

/// Model of a tree of nested mappings.
pub enum TreeV {
    Leaf(PrimV),
    Inner(Seq<(KeyV, TreeV)>),
}

/// A tree of nested mappings, as used while inserting along key paths.
#[derive(Debug)]
pub enum DeepExtendable {
    Inner(Vec<(MapKey, DeepExtendable)>),
    Leaf(PrimitiveValue),
}

/// The model of a tree.
pub open spec fn tree_view(t: DeepExtendable) -> TreeV
    decreases t,
{
    match t {
        DeepExtendable::Leaf(p) => TreeV::Leaf(p@),
        DeepExtendable::Inner(m) => TreeV::Inner(
            Seq::new(
                m@.len(),
                |i: int|
                    if 0 <= i < m@.len() {
                        (m@[i].0@, tree_view(m@[i].1))
                    } else {
                        (KeyV::Int(0), TreeV::Leaf(PrimV::Str(Seq::empty())))
                    },
            ),
        ),
    }
}

impl View for DeepExtendable {
    type V = TreeV;

    open spec fn view(&self) -> TreeV {
        tree_view(*self)
    }
}

// ---------------------------------------------------------------------------
// Sorted association lists
// ---------------------------------------------------------------------------

/// The number of leading entries whose key is below `k`.
pub open spec fn lt_prefix<V>(es: Seq<(KeyV, V)>, k: KeyV) -> nat
    decreases es.len(),
{
    if es.len() > 0 && key_lt(es[0].0, k) {
        1 + lt_prefix(es.drop_first(), k)
    } else {
        0
    }
}

/// Sets `k` to `v` in a list sorted by key: replaces the entry of `k` or
/// inserts a new one where it belongs.
pub open spec fn put<V>(es: Seq<(KeyV, V)>, k: KeyV, v: V) -> Seq<(KeyV, V)> {
    let p = lt_prefix(es, k) as int;
    if p < es.len() && es[p].0 == k {
        es.update(p, (k, v))
    } else {
        es.insert(p, (k, v))
    }
}

/// The value of the first entry with key `k`.
pub open spec fn tget<V>(es: Seq<(KeyV, V)>, k: KeyV) -> Option<V>
    decreases es.len(),
{
    if es.len() == 0 {
        None
    } else if es[0].0 == k {
        Some(es[0].1)
    } else {
        tget(es.drop_first(), k)
    }
}

/// Whether the keys strictly increase.
pub open spec fn tsorted<V>(es: Seq<(KeyV, V)>) -> bool {
    forall|i: int, j: int| 0 <= i < j < es.len() ==> key_lt(#[trigger] es[i].0, #[trigger] es[j].0)
}

/// The entries before `lt_prefix` have smaller keys, the one at it (if
/// any) does not.
pub proof fn lemma_lt_prefix<V>(es: Seq<(KeyV, V)>, k: KeyV)
    ensures
        lt_prefix(es, k) <= es.len(),
        forall|j: int| 0 <= j < lt_prefix(es, k) ==> key_lt(#[trigger] es[j].0, k),
        lt_prefix(es, k) < es.len() ==> !key_lt(es[lt_prefix(es, k) as int].0, k),
    decreases es.len(),
{
    if es.len() > 0 && key_lt(es[0].0, k) {
        lemma_lt_prefix(es.drop_first(), k);
        assert forall|j: int| 0 <= j < lt_prefix(es, k) implies key_lt(#[trigger] es[j].0, k) by {
            if j > 0 {
                assert(es[j] == es.drop_first()[j - 1]);
            }
        }
    }
}

/// A position before which all keys are smaller, and at which the key is
/// not, is `lt_prefix`.
pub proof fn lemma_lt_prefix_is<V>(es: Seq<(KeyV, V)>, k: KeyV, p: int)
    requires
        0 <= p <= es.len(),
        forall|j: int| 0 <= j < p ==> key_lt(#[trigger] es[j].0, k),
        p < es.len() ==> !key_lt(es[p].0, k),
    ensures
        lt_prefix(es, k) == p,
    decreases es.len(),
{
    if p > 0 {
        assert(key_lt(es[0].0, k));
        assert forall|j: int| 0 <= j < p - 1 implies key_lt(#[trigger] es.drop_first()[j].0, k) by {
            assert(es.drop_first()[j] == es[j + 1]);
        }
        if p - 1 < es.drop_first().len() {
            assert(es.drop_first()[p - 1] == es[p]);
        }
        lemma_lt_prefix_is(es.drop_first(), k, p - 1);
    } else if es.len() > 0 {
        assert(!key_lt(es[0].0, k));
    }
}

/// A lookup finds the first entry with the key.
pub proof fn lemma_tget_at<V>(es: Seq<(KeyV, V)>, k: KeyV, i: int)
    requires
        0 <= i < es.len(),
        es[i].0 == k,
        forall|j: int| 0 <= j < i ==> es[j].0 != k,
    ensures
        tget(es, k) == Some(es[i].1),
    decreases es.len(),
{
    if i > 0 {
        assert forall|j: int| 0 <= j < i - 1 implies es.drop_first()[j].0 != k by {
            assert(es.drop_first()[j] == es[j + 1]);
        }
        lemma_tget_at(es.drop_first(), k, i - 1);
    }
}

/// A lookup of a key that no entry has finds nothing.
pub proof fn lemma_tget_none<V>(es: Seq<(KeyV, V)>, k: KeyV)
    requires
        forall|j: int| 0 <= j < es.len() ==> es[j].0 != k,
    ensures
        tget(es, k) is None,
    decreases es.len(),
{
    if es.len() > 0 {
        assert forall|j: int| 0 <= j < es.drop_first().len() implies es.drop_first()[j].0 != k by {
            assert(es.drop_first()[j] == es[j + 1]);
        }
        lemma_tget_none(es.drop_first(), k);
    }
}

/// Where some entry has the key, the lookup finds the first such entry.
pub proof fn lemma_tget_first<V>(es: Seq<(KeyV, V)>, k: KeyV, w: int) -> (c: int)
    requires
        0 <= w < es.len(),
        es[w].0 == k,
    ensures
        0 <= c <= w,
        es[c].0 == k,
        forall|j: int| 0 <= j < c ==> es[j].0 != k,
        tget(es, k) == Some(es[c].1),
    decreases es.len(),
{
    if es[0].0 == k {
        0
    } else {
        assert(es.drop_first()[w - 1] == es[w]);
        let c = lemma_tget_first(es.drop_first(), k, w - 1);
        assert forall|j: int| 0 <= j < c + 1 implies es[j].0 != k by {
            if j > 0 {
                assert(es[j] == es.drop_first()[j - 1]);
            }
        }
        c + 1
    }
}

/// Setting a key keeps a sorted list sorted.
pub proof fn lemma_put_sorted<V>(es: Seq<(KeyV, V)>, k: KeyV, v: V)
    requires
        tsorted(es),
    ensures
        tsorted(put(es, k, v)),
{
    lemma_lt_prefix(es, k);
    let p = lt_prefix(es, k) as int;
    let r = put(es, k, v);
    if p < es.len() && es[p].0 == k {
        assert forall|i: int, j: int| 0 <= i < j < r.len() implies key_lt(
            #[trigger] r[i].0,
            #[trigger] r[j].0,
        ) by {
            assert(key_lt(es[i].0, es[j].0));
        }
    } else {
        if p < es.len() {
            lemma_key_order(k, es[p].0, es[p].0);
        }
        assert forall|i: int, j: int| 0 <= i < j < r.len() implies key_lt(
            #[trigger] r[i].0,
            #[trigger] r[j].0,
        ) by {
            if i < p && j == p {
            } else if i == p && j > p {
                assert(r[j] == es[j - 1]);
                if j - 1 > p {
                    assert(key_lt(es[p].0, es[j - 1].0));
                    lemma_key_order(k, es[p].0, es[j - 1].0);
                }
            } else if i < p && j > p {
                assert(r[j] == es[j - 1]);
                assert(key_lt(es[i].0, es[j - 1].0));
            } else if i > p {
                assert(r[i] == es[i - 1]);
                assert(r[j] == es[j - 1]);
                assert(key_lt(es[i - 1].0, es[j - 1].0));
            } else {
                assert(key_lt(es[i].0, es[j].0));
            }
        }
    }
}

/// Reading a key right after setting it gives the value set.
pub proof fn lemma_put_get_same<V>(es: Seq<(KeyV, V)>, k: KeyV, v: V)
    ensures
        tget(put(es, k, v), k) == Some(v),
{
    lemma_lt_prefix(es, k);
    let p = lt_prefix(es, k) as int;
    let r = put(es, k, v);
    assert forall|j: int| 0 <= j < p implies r[j].0 != k by {
        lemma_key_order(k, k, k);
    }
    lemma_tget_at(r, k, p);
}

/// Setting a key leaves the value of every other key as it was.
pub proof fn lemma_put_get_other<V>(es: Seq<(KeyV, V)>, k: KeyV, v: V, k2: KeyV)
    requires
        k2 != k,
    ensures
        tget(put(es, k, v), k2) == tget(es, k2),
{
    lemma_lt_prefix(es, k);
    let p = lt_prefix(es, k) as int;
    let r = put(es, k, v);
    if p < es.len() && es[p].0 == k {
        if exists|i: int| 0 <= i < es.len() && es[i].0 == k2 {
            let w = choose|i: int| 0 <= i < es.len() && es[i].0 == k2;
            let c1 = lemma_tget_first(es, k2, w);
            assert forall|j: int| 0 <= j < c1 implies r[j].0 != k2 by {
                if j != p {
                    assert(r[j] == es[j]);
                }
            }
            lemma_tget_at(r, k2, c1);
        } else {
            assert forall|i: int| 0 <= i < r.len() implies r[i].0 != k2 by {
                if i != p {
                    assert(r[i] == es[i]);
                }
            }
            lemma_tget_none(r, k2);
            lemma_tget_none(es, k2);
        }
    } else {
        if exists|i: int| 0 <= i < es.len() && es[i].0 == k2 {
            let w = choose|i: int| 0 <= i < es.len() && es[i].0 == k2;
            let c1 = lemma_tget_first(es, k2, w);
            let d = if c1 < p {
                c1
            } else {
                c1 + 1
            };
            assert(r[d] == es[c1]);
            assert forall|j: int| 0 <= j < d implies r[j].0 != k2 by {
                if j < p {
                    assert(r[j] == es[j]);
                } else if j > p {
                    assert(r[j] == es[j - 1]);
                }
            }
            lemma_tget_at(r, k2, d);
        } else {
            assert forall|i: int| 0 <= i < r.len() implies r[i].0 != k2 by {
                if i < p {
                    assert(r[i] == es[i]);
                } else if i > p {
                    assert(r[i] == es[i - 1]);
                }
            }
            lemma_tget_none(r, k2);
            lemma_tget_none(es, k2);
        }
    }
}

// ---------------------------------------------------------------------------
// Insertion along paths
// ---------------------------------------------------------------------------

/// The entries of a tree, where a leaf first becomes a mapping that holds it
/// under the empty key.
pub open spec fn ensure_inner(t: TreeV) -> Seq<(KeyV, TreeV)> {
    match t {
        TreeV::Inner(m) => m,
        TreeV::Leaf(l) => seq![(KeyV::Str(Seq::empty()), TreeV::Leaf(l))],
    }
}

/// The child under `k`, or an empty mapping.
pub open spec fn child_or_empty(m: Seq<(KeyV, TreeV)>, k: KeyV) -> TreeV {
    match tget(m, k) {
        Some(c) => c,
        None => TreeV::Inner(Seq::empty()),
    }
}

/// The number of entries of an inner node (0 for a leaf).
pub open spec fn inner_len(t: TreeV) -> nat {
    match t {
        TreeV::Inner(m) => m.len(),
        TreeV::Leaf(_) => 0,
    }
}

/// Inserts `val` into `t` at the path `ks`: every node on the way becomes a
/// mapping (see `ensure_inner`), missing nodes are created empty, and at the
/// end of the path `val` is merged into what is there. The empty path leaves
/// `t` as it is.
pub open spec fn insert_path(t: TreeV, ks: Seq<KeyV>, val: TreeV) -> TreeV
    decreases val, ks.len() + 1 + inner_len(val),
{
    if ks.len() == 0 {
        t
    } else {
        let m = ensure_inner(t);
        let child = child_or_empty(m, ks[0]);
        let c2 = if ks.len() == 1 {
            merge_with(child, val)
        } else {
            insert_path(child, ks.drop_first(), val)
        };
        TreeV::Inner(put(m, ks[0], c2))
    }
}

/// Merges `v` into `t`: a leaf replaces `t`; the entries of a mapping are
/// inserted into `t` one after the other, each under its own key.
pub open spec fn merge_with(t: TreeV, v: TreeV) -> TreeV
    decreases v, inner_len(v) + 1,
{
    match v {
        TreeV::Leaf(l) => TreeV::Leaf(l),
        TreeV::Inner(vm) => merge_prefix(t, v, vm.len() as int),
    }
}

/// `t` after inserting the first `n` entries of the mapping `v`.
pub open spec fn merge_prefix(t: TreeV, v: TreeV, n: int) -> TreeV
    decreases v, n,
{
    match v {
        TreeV::Inner(vm) => if 0 < n <= vm.len() {
            insert_path(merge_prefix(t, v, n - 1), seq![vm[n - 1].0], vm[n - 1].1)
        } else {
            t
        },
        TreeV::Leaf(_) => t,
    }
}

/// The tree of a value: primitives are leaves, arrays become mappings from
/// their indices, mappings keep their entries (and lose their default).
pub open spec fn to_tree(v: ValueV) -> TreeV
    decreases v,
{
    match v {
        ValueV::Prim(p) => TreeV::Leaf(p),
        ValueV::Array(s) => TreeV::Inner(
            Seq::new(
                s.len(),
                |i: int|
                    if 0 <= i < s.len() {
                        (KeyV::Int(i as i64), to_tree(s[i]))
                    } else {
                        (KeyV::Int(0), TreeV::Leaf(PrimV::Str(Seq::empty())))
                    },
            ),
        ),
        ValueV::Mapping(es, _) => TreeV::Inner(
            Seq::new(
                es.len(),
                |i: int|
                    if 0 <= i < es.len() {
                        (es[i].0, to_tree(es[i].1))
                    } else {
                        (KeyV::Int(0), TreeV::Leaf(PrimV::Str(Seq::empty())))
                    },
            ),
        ),
    }
}

/// The value of a tree: leaves are primitives, inner nodes mappings without
/// default.
pub open spec fn from_tree(t: TreeV) -> ValueV
    decreases t,
{
    match t {
        TreeV::Leaf(p) => ValueV::Prim(p),
        TreeV::Inner(m) => ValueV::Mapping(
            Seq::new(
                m.len(),
                |i: int|
                    if 0 <= i < m.len() {
                        (m[i].0, from_tree(m[i].1))
                    } else {
                        (KeyV::Int(0), ValueV::Prim(PrimV::Str(Seq::empty())))
                    },
            ),
            None,
        ),
    }
}

/// Inserting the given paths one after the other.
pub open spec fn insert_all(t: TreeV, items: Seq<(Seq<KeyV>, TreeV)>) -> TreeV
    decreases items.len(),
{
    if items.len() == 0 {
        t
    } else {
        insert_path(insert_all(t, items.drop_last()), items.last().0, items.last().1)
    }
}

/// The entries of a mapping after inserting values along key paths; the
/// default stays.
pub open spec fn with_new_keys_spec(
    es: Seq<(KeyV, ValueV)>,
    d: Option<Box<ValueV>>,
    items: Seq<(Seq<KeyV>, ValueV)>,
) -> ValueV {
    let t0 = to_tree(ValueV::Mapping(es, d));
    let t = insert_all(t0, Seq::new(items.len(), |i: int| (items[i].0, to_tree(items[i].1))));
    match from_tree(t) {
        ValueV::Mapping(res, _) => ValueV::Mapping(res, d),
        _ => ValueV::Mapping(Seq::empty(), d),
    }
}

// ---------------------------------------------------------------------------
// Reading back what was inserted
// ---------------------------------------------------------------------------

/// The subtree at the end of a path of keys, if there is one.
pub open spec fn tree_at(t: TreeV, ks: Seq<KeyV>) -> Option<TreeV>
    decreases ks.len(),
{
    if ks.len() == 0 {
        Some(t)
    } else {
        match t {
            TreeV::Inner(m) => match tget(m, ks[0]) {
                Some(c) => tree_at(c, ks.drop_first()),
                None => None,
            },
            TreeV::Leaf(_) => None,
        }
    }
}

/// After inserting a primitive along a non-empty path, the path leads to
/// it.
pub proof fn lemma_insert_path_then_at(t: TreeV, ks: Seq<KeyV>, p: PrimV)
    requires
        ks.len() > 0,
    ensures
        tree_at(insert_path(t, ks, TreeV::Leaf(p)), ks) == Some(TreeV::Leaf(p)),
    decreases ks.len(),
{
    let m = ensure_inner(t);
    let child = child_or_empty(m, ks[0]);
    let c2 = if ks.len() == 1 {
        merge_with(child, TreeV::Leaf(p))
    } else {
        insert_path(child, ks.drop_first(), TreeV::Leaf(p))
    };
    lemma_put_get_same(m, ks[0], c2);
    assert(insert_path(t, ks, TreeV::Leaf(p)) == TreeV::Inner(put(m, ks[0], c2)));
    assert(tree_at(TreeV::Inner(put(m, ks[0], c2)), ks) == tree_at(c2, ks.drop_first()));
    if ks.len() > 1 {
        lemma_insert_path_then_at(child, ks.drop_first(), p);
    } else {
        assert(c2 == TreeV::Leaf(p));
        assert(ks.drop_first().len() == 0);
    }
}

/// A key that `tget` finds is found by `find_key` at its first position,
/// with the same value.
proof fn lemma_tget_find_key(m: Seq<(KeyV, TreeV)>, k: KeyV, c: TreeV)
    requires
        tget(m, k) == Some(c),
    ensures
        ({
            let fm = Seq::new(
                m.len(),
                |i: int|
                    if 0 <= i < m.len() {
                        (m[i].0, from_tree(m[i].1))
                    } else {
                        (KeyV::Int(0), ValueV::Prim(PrimV::Str(Seq::empty())))
                    },
            );
            &&& crate::spec::values::find_key(fm, k) matches Some(i) && 0 <= i < m.len() && m[i].1 == c
            &&& fm[crate::spec::values::find_key(fm, k)->Some_0].1 == from_tree(c)
        }),
    decreases m.len(),
{
    let fm = Seq::new(
        m.len(),
        |i: int|
            if 0 <= i < m.len() {
                (m[i].0, from_tree(m[i].1))
            } else {
                (KeyV::Int(0), ValueV::Prim(PrimV::Str(Seq::empty())))
            },
    );
    let w = lemma_tget_some(m, k);
    let idx = lemma_tget_first(m, k, w);
    assert(fm[idx].0 == k);
    assert(forall|j: int| 0 <= j < idx ==> fm[j].0 != k);
    let i = choose|i: int| 0 <= i < fm.len() && fm[i].0 == k && forall|j: int| 0 <= j < i ==> fm[j].0 != k;
    assert(crate::spec::values::find_key(fm, k) == Some(i));
    if i < idx {
        assert(m[i].0 == k);
    } else if i > idx {
        assert(fm[idx].0 == k);
    }
}

/// A key that `tget` finds occurs in the entries.
proof fn lemma_tget_some(m: Seq<(KeyV, TreeV)>, k: KeyV) -> (w: int)
    requires
        tget(m, k) is Some,
    ensures
        0 <= w < m.len(),
        m[w].0 == k,
    decreases m.len(),
{
    if m[0].0 == k {
        0
    } else {
        let w2 = lemma_tget_some(m.drop_first(), k);
        w2 + 1
    }
}

/// Where a path of a tree leads to a primitive, the same path leads to it
/// in the value of the tree.
pub proof fn lemma_walk_from_tree(t: TreeV, ks: Seq<KeyV>, p: PrimV)
    requires
        tree_at(t, ks) == Some(TreeV::Leaf(p)),
    ensures
        crate::spec::values::walk(from_tree(t), ks) == Ok::<ValueV, crate::catchable::cerr>(ValueV::Prim(p)),
    decreases ks.len(),
{
    if ks.len() > 0 {
        match t {
            TreeV::Inner(m) => {
                let c = tget(m, ks[0])->Some_0;
                lemma_tget_find_key(m, ks[0], c);
                let fm = from_tree(t)->Mapping_0;
                let fm2 = Seq::new(
                    m.len(),
                    |i: int|
                        if 0 <= i < m.len() {
                            (m[i].0, from_tree(m[i].1))
                        } else {
                            (KeyV::Int(0), ValueV::Prim(PrimV::Str(Seq::empty())))
                        },
                );
                assert(fm =~= fm2);
                assert(from_tree(t) == ValueV::Mapping(fm, None));
                let i = crate::spec::values::find_key(fm, ks[0])->Some_0;
                assert(crate::spec::values::mapping_get(fm, None, ks[0]) == Ok::<ValueV, crate::catchable::cerr>(from_tree(c)));
                assert(crate::spec::values::collection_get(from_tree(t), ks[0]) == Ok::<ValueV, crate::catchable::cerr>(from_tree(c)));
                assert(tree_at(c, ks.drop_first()) == Some(TreeV::Leaf(p)));
                lemma_walk_from_tree(c, ks.drop_first(), p);
            },
            TreeV::Leaf(_) => {},
        }
    }
}

// ---------------------------------------------------------------------------
// Executable trees
// ---------------------------------------------------------------------------

/// The model of a list of tree entries.
pub open spec fn tentries(m: Seq<(MapKey, DeepExtendable)>) -> Seq<(KeyV, TreeV)> {
    Seq::new(m.len(), |i: int| (m[i].0@, m[i].1@))
}

proof fn lemma_inner_view(m: Vec<(MapKey, DeepExtendable)>)
    ensures
        DeepExtendable::Inner(m)@ == TreeV::Inner(tentries(m@)),
{
    assert(tree_view(DeepExtendable::Inner(m))->Inner_0 =~= tentries(m@));
}

proof fn lemma_tree_item_smaller(m: Vec<(MapKey, DeepExtendable)>, i: int)
    requires
        0 <= i < m@.len(),
    ensures
        decreases_to!(DeepExtendable::Inner(m) => m@[i].1),
{
    let t = DeepExtendable::Inner(m);
    assert(decreases_to!(t => t->Inner_0));
    assert(decreases_to!(m => m@));
    assert(decreases_to!(m@ => m@[i]));
}

proof fn lemma_tree_view_item_smaller(m: Vec<(MapKey, DeepExtendable)>, i: int)
    requires
        0 <= i < m@.len(),
    ensures
        decreases_to!(DeepExtendable::Inner(m)@ => m@[i].1@),
{
    lemma_inner_view(m);
    let s = tentries(m@);
    let tt = TreeV::Inner(s);
    assert(decreases_to!(tt => tt->Inner_0));
    assert(decreases_to!(s => s[i]));
    assert(decreases_to!(s[i] => s[i].1));
}

proof fn lemma_value_array_item(a: Array, i: int)
    requires
        0 <= i < a.0@.len(),
    ensures
        decreases_to!(RuntimeValue::Comp(MappingOrArray::Array(a)) => a.0@[i]),
{
    let v = RuntimeValue::Comp(MappingOrArray::Array(a));
    assert(decreases_to!(v => v->Comp_0));
    assert(decreases_to!(v->Comp_0 => v->Comp_0->Array_0));
    assert(decreases_to!(a => a.0));
    assert(decreases_to!(a.0 => a.0@));
}

proof fn lemma_value_mapping_item(m: RealMapping, i: int)
    requires
        0 <= i < m.mapping@.len(),
    ensures
        decreases_to!(RuntimeValue::Comp(MappingOrArray::Mapping(m)) => m.mapping@[i].1),
{
    let v = RuntimeValue::Comp(MappingOrArray::Mapping(m));
    assert(decreases_to!(v => v->Comp_0));
    assert(decreases_to!(v->Comp_0 => v->Comp_0->Mapping_0));
    assert(decreases_to!(m => m.mapping));
    assert(decreases_to!(m.mapping => m.mapping@));
    assert(decreases_to!(m.mapping@ => m.mapping@[i]));
}

/// A copy of a tree.
pub fn clone_deep(t: &DeepExtendable) -> (r: DeepExtendable)
    ensures
        r@ == t@,
    decreases t,
{
    match t {
        DeepExtendable::Leaf(p) => DeepExtendable::Leaf(p.clone()),
        DeepExtendable::Inner(m) => {
            let mut out: Vec<(MapKey, DeepExtendable)> = Vec::new();
            let mut i: usize = 0;
            while i < m.len()
                invariant
                    i <= m.len(),
                    *t == DeepExtendable::Inner(*m),
                    out@.len() == i,
                    forall|j: int|
                        0 <= j < i ==> (#[trigger] out@[j]).0@ == m@[j].0@ && out@[j].1@
                            == m@[j].1@,
                decreases m.len() - i,
            {
                proof {
                    lemma_tree_item_smaller(*m, i as int);
                }
                out.push((m[i].0.clone(), clone_deep(&m[i].1)));
                i = i + 1;
            }
            proof {
                lemma_inner_view(out);
                lemma_inner_view(*m);
                assert(tentries(out@) =~= tentries(m@));
            }
            DeepExtendable::Inner(out)
        },
    }
}

/// The tree of a value.
pub fn to_deep(v: &RuntimeValue) -> (r: DeepExtendable)
    ensures
        r@ == to_tree(v@),
    decreases v,
{
    match v {
        RuntimeValue::Prim(p) => DeepExtendable::Leaf(p.clone()),
        RuntimeValue::Comp(MappingOrArray::Array(a)) => {
            let mut out: Vec<(MapKey, DeepExtendable)> = Vec::new();
            let mut i: usize = 0;
            while i < a.0.len()
                invariant
                    i <= a.0.len(),
                    *v == RuntimeValue::Comp(MappingOrArray::Array(*a)),
                    out@.len() == i,
                    forall|j: int|
                        0 <= j < i ==> (#[trigger] out@[j]).0@ == KeyV::Int(j as i64) && out@[j].1@
                            == to_tree(a.0@[j]@),
                decreases a.0.len() - i,
            {
                proof {
                    lemma_value_array_item(*a, i as int);
                }
                out.push((MapKey::Int(i as i64), to_deep(&a.0[i])));
                i = i + 1;
            }
            proof {
                lemma_inner_view(out);
                assert(value_view(*v)->Array_0 =~= a@);
                assert(tentries(out@) =~= to_tree(v@)->Inner_0);
            }
            DeepExtendable::Inner(out)
        },
        RuntimeValue::Comp(MappingOrArray::Mapping(m)) => {
            let mut out: Vec<(MapKey, DeepExtendable)> = Vec::new();
            let mut i: usize = 0;
            while i < m.mapping.len()
                invariant
                    i <= m.mapping.len(),
                    *v == RuntimeValue::Comp(MappingOrArray::Mapping(*m)),
                    out@.len() == i,
                    forall|j: int|
                        0 <= j < i ==> (#[trigger] out@[j]).0@ == m.mapping@[j].0@ && out@[j].1@
                            == to_tree(m.mapping@[j].1@),
                decreases m.mapping.len() - i,
            {
                proof {
                    lemma_value_mapping_item(*m, i as int);
                }
                out.push((m.mapping[i].0.clone(), to_deep(&m.mapping[i].1)));
                i = i + 1;
            }
            proof {
                lemma_inner_view(out);
                assert(value_view(*v)->Mapping_0 =~= entries_view(m.mapping@));
                assert(tentries(out@) =~= to_tree(v@)->Inner_0);
            }
            DeepExtendable::Inner(out)
        },
    }
}

/// The value of a tree.
pub fn from_deep(t: &DeepExtendable) -> (r: RuntimeValue)
    ensures
        r@ == from_tree(t@),
    decreases t,
{
    match t {
        DeepExtendable::Leaf(p) => RuntimeValue::Prim(p.clone()),
        DeepExtendable::Inner(m) => {
            let mut out: Vec<(MapKey, RuntimeValue)> = Vec::new();
            let mut i: usize = 0;
            while i < m.len()
                invariant
                    i <= m.len(),
                    *t == DeepExtendable::Inner(*m),
                    out@.len() == i,
                    forall|j: int|
                        0 <= j < i ==> (#[trigger] out@[j]).0@ == m@[j].0@ && out@[j].1@
                            == from_tree(m@[j].1@),
                decreases m.len() - i,
            {
                proof {
                    lemma_tree_item_smaller(*m, i as int);
                }
                out.push((m[i].0.clone(), from_deep(&m[i].1)));
                i = i + 1;
            }
            let r = RuntimeValue::Comp(
                MappingOrArray::Mapping(RealMapping { mapping: out, default: None }),
            );
            proof {
                lemma_inner_view(*m);
                assert(value_view(r)->Mapping_0 =~= from_tree(t@)->Mapping_0);
            }
            r
        },
    }
}

/// The number of leading entries whose key is below `k`.
fn lt_prefix_exec(m: &Vec<(MapKey, DeepExtendable)>, k: &MapKey) -> (r: usize)
    ensures
        r == lt_prefix(tentries(m@), k@),
{
    let ghost es = tentries(m@);
    let mut i: usize = 0;
    while i < m.len()
        invariant
            i <= m.len(),
            es == tentries(m@),
            forall|j: int| 0 <= j < i ==> key_lt(#[trigger] es[j].0, k@),
        decreases m.len() - i,
    {
        match compare_key(&m[i].0, k) {
            KeyOrder::Less => {},
            _ => {
                proof {
                    lemma_lt_prefix_is(es, k@, i as int);
                }
                return i;
            },
        }
        i = i + 1;
    }
    proof {
        lemma_lt_prefix_is(es, k@, i as int);
    }
    i
}

/// Sets `k` to `v` in a list sorted by key.
pub fn tree_put(m: Vec<(MapKey, DeepExtendable)>, k: MapKey, v: DeepExtendable) -> (r: Vec<
    (MapKey, DeepExtendable),
>)
    ensures
        tentries(r@) == put(tentries(m@), k@, v@),
{
    let mut m = m;
    let ghost es = tentries(m@);
    let p = lt_prefix_exec(&m, &k);
    proof {
        lemma_lt_prefix(es, k@);
    }
    if p < m.len() && key_eq(&m[p].0, &k) {
        m.set(p, (k, v));
        assert(tentries(m@) =~= es.update(p as int, (k@, v@)));
    } else {
        m.insert(p, (k, v));
        assert(tentries(m@) =~= es.insert(p as int, (k@, v@)));
    }
    m
}

/// The child under `k`, or an empty mapping.
fn child_or_empty_exec(m: &Vec<(MapKey, DeepExtendable)>, k: &MapKey) -> (r: DeepExtendable)
    ensures
        r@ == child_or_empty(tentries(m@), k@),
{
    let ghost es = tentries(m@);
    let mut i: usize = 0;
    while i < m.len()
        invariant
            i <= m.len(),
            es == tentries(m@),
            forall|j: int| 0 <= j < i ==> es[j].0 != k@,
        decreases m.len() - i,
    {
        if key_eq(&m[i].0, k) {
            proof {
                lemma_tget_at(es, k@, i as int);
            }
            return clone_deep(&m[i].1);
        }
        i = i + 1;
    }
    proof {
        lemma_tget_none(es, k@);
    }
    let e: Vec<(MapKey, DeepExtendable)> = Vec::new();
    proof {
        lemma_inner_view(e);
        assert(tentries(e@) =~= Seq::<(KeyV, TreeV)>::empty());
    }
    DeepExtendable::Inner(e)
}

/// The entries of a tree, turning a leaf into a mapping that holds it under
/// the empty key.
fn ensure_inner_exec(t: DeepExtendable) -> (r: Vec<(MapKey, DeepExtendable)>)
    ensures
        tentries(r@) == ensure_inner(t@),
{
    match t {
        DeepExtendable::Inner(m) => {
            proof {
                lemma_inner_view(m);
            }
            m
        },
        DeepExtendable::Leaf(l) => {
            let ghost lv = l@;
            let mut v: Vec<(MapKey, DeepExtendable)> = Vec::new();
            v.push((MapKey::Str(Text(String::new())), DeepExtendable::Leaf(l)));
            assert(tentries(v@) =~= seq![(KeyV::Str(Seq::empty()), TreeV::Leaf(lv))]);
            v
        },
    }
}

/// The model of a list of keys.
pub open spec fn keys_view(ks: Seq<MapKey>) -> Seq<KeyV> {
    Seq::new(ks.len(), |i: int| ks[i]@)
}

/// Inserts `val` into `t` along the path `ks[start..]`.
pub fn insert_path_exec(t: DeepExtendable, ks: &Vec<MapKey>, start: usize, val: &DeepExtendable) -> (r:
    DeepExtendable)
    requires
        start <= ks.len(),
    ensures
        r@ == insert_path(t@, keys_view(ks@).skip(start as int), val@),
    decreases val@, ks.len() - start + 1 + inner_len(val@),
{
    let ghost kv = keys_view(ks@).skip(start as int);
    if start == ks.len() {
        return t;
    }
    let ghost tv = t@;
    let m = ensure_inner_exec(t);
    let child = child_or_empty_exec(&m, &ks[start]);
    assert(kv[0] == ks@[start as int]@);
    let c2 = if start + 1 == ks.len() {
        merge_with_exec(child, val)
    } else {
        assert(kv.drop_first() =~= keys_view(ks@).skip(start + 1));
        insert_path_exec(child, ks, start + 1, val)
    };
    let r = tree_put(m, ks[start].clone(), c2);
    proof {
        lemma_inner_view(r);
    }
    DeepExtendable::Inner(r)
}

/// Merges `val` into `t`.
pub fn merge_with_exec(t: DeepExtendable, val: &DeepExtendable) -> (r: DeepExtendable)
    ensures
        r@ == merge_with(t@, val@),
    decreases val@, inner_len(val@) + 1,
{
    match val {
        DeepExtendable::Leaf(l) => DeepExtendable::Leaf(l.clone()),
        DeepExtendable::Inner(vm) => {
            proof {
                lemma_inner_view(*vm);
            }
            let ghost t0 = t@;
            let mut t = t;
            let mut i: usize = 0;
            while i < vm.len()
                invariant
                    i <= vm.len(),
                    *val == DeepExtendable::Inner(*vm),
                    val@ == TreeV::Inner(tentries(vm@)),
                    t@ == merge_prefix(t0, val@, i as int),
                decreases vm.len() - i,
            {
                let mut ks: Vec<MapKey> = Vec::new();
                ks.push(vm[i].0.clone());
                proof {
                    lemma_tree_view_item_smaller(*vm, i as int);
                    assert(keys_view(ks@).skip(0) =~= seq![vm@[i as int].0@]);
                }
                t = insert_path_exec(t, &ks, 0, &vm[i].1);
                i = i + 1;
            }
            t
        },
    }
}

} // verus!

verus! {

impl RealMapping {
    /// The mapping after inserting each value along its key path, in order:
    /// nested collections become mappings (arrays from their indices), a
    /// primitive at the end of a path replaces what is there, a mapping is
    /// merged key by key; the default stays.
    pub fn with_new_keys(&self, other: &Vec<(Vec<MapKey>, RuntimeValue)>) -> (r: RealMapping)
        ensures
            r@ == with_new_keys_spec(
                entries_view(self.mapping@),
                default_view(self.default),
                Seq::new(other@.len(), |i: int| (keys_view(other@[i].0@), other@[i].1@)),
            ),
    {
        let ghost items = Seq::new(
            other@.len(),
            |i: int| (keys_view(other@[i].0@), other@[i].1@),
        );
        let ghost titems = Seq::new(items.len(), |i: int| (items[i].0, to_tree(items[i].1)));
        let selfv = RuntimeValue::Comp(MappingOrArray::Mapping(RealMapping {
            mapping: clone_entries(&self.mapping),
            default: None,
        }));
        let mut t = to_deep(&selfv);
        proof {
            assert(value_view(selfv)->Mapping_0 =~= entries_view(selfv->Comp_0->Mapping_0.mapping@));
            assert(t@ == to_tree(ValueV::Mapping(entries_view(self.mapping@), default_view(self.default))));
        }
        let ghost t0 = t@;
        let mut i: usize = 0;
        while i < other.len()
            invariant
                i <= other.len(),
                items == Seq::new(other@.len(), |i: int| (keys_view(other@[i].0@), other@[i].1@)),
                titems == Seq::new(items.len(), |i: int| (items[i].0, to_tree(items[i].1))),
                t@ == insert_all(t0, titems.take(i as int)),
            decreases other.len() - i,
        {
            let v = to_deep(&other[i].1);
            assert(keys_view(other@[i as int].0@).skip(0) =~= keys_view(other@[i as int].0@));
            t = insert_path_exec(t, &other[i].0, 0, &v);
            assert(titems.take(i + 1).drop_last() =~= titems.take(i as int));
            i = i + 1;
        }
        assert(titems.take(other.len() as int) =~= titems);
        let out = from_deep(&t);
        let d = match &self.default {
            Some(b) => Some(Box::new(clone_value(&**b))),
            None => None,
        };
        match out {
            RuntimeValue::Comp(MappingOrArray::Mapping(m)) => {
                proof {
                    assert(value_view(RuntimeValue::Comp(MappingOrArray::Mapping(m)))->Mapping_0 =~= entries_view(m.mapping@));
                }
                RealMapping { mapping: m.mapping, default: d }
            },
            _ => {
                let r = RealMapping { mapping: Vec::new(), default: d };
                assert(entries_view(r.mapping@) =~= Seq::empty());
                r
            },
        }
    }

    /// The mapping with the entries of `other` merged in, each under its own
    /// key (see `with_new_keys`).
    pub fn with_merged(&self, other: &Vec<(MapKey, RuntimeValue)>) -> (r: RealMapping)
        ensures
            r@ == with_new_keys_spec(
                entries_view(self.mapping@),
                default_view(self.default),
                Seq::new(other@.len(), |i: int| (seq![other@[i].0@], other@[i].1@)),
            ),
    {
        let mut items: Vec<(Vec<MapKey>, RuntimeValue)> = Vec::new();
        let mut i: usize = 0;
        while i < other.len()
            invariant
                i <= other.len(),
                items@.len() == i,
                forall|j: int|
                    0 <= j < i ==> keys_view((#[trigger] items@[j]).0@) == seq![other@[j].0@]
                        && items@[j].1@ == other@[j].1@,
            decreases other.len() - i,
        {
            let mut ks: Vec<MapKey> = Vec::new();
            ks.push(other[i].0.clone());
            assert(keys_view(ks@) =~= seq![other@[i as int].0@]);
            items.push((ks, other[i].1.clone()));
            i = i + 1;
        }
        let r = self.with_new_keys(&items);
        assert(Seq::new(items@.len(), |i: int| (keys_view(items@[i].0@), items@[i].1@)) =~= Seq::new(
            other@.len(),
            |i: int| (seq![other@[i].0@], other@[i].1@),
        ));
        r
    }
}

} // verus!
