//! Counting the blocks of a project by their opcode.
use vstd::prelude::*;

use crate::spec::text::Text;
use crate::spec::values::{
    KeyOrder, KeyV, MapKey, MappingOrArray, NumV, Numeric, PrimV, PrimitiveValue, RealMapping,
    RuntimeValue, ValueV, chars_lt, compare_text, lemma_chars_order, lemma_comp_view,
    entries_view,
};

verus! {

/// How often `k` occurs in `ops`.
pub open spec fn count_of(ops: Seq<Seq<char>>, k: Seq<char>) -> nat
    decreases ops.len(),
{
    if ops.len() == 0 {
        0
    } else {
        count_of(ops.drop_last(), k) + if ops.last() == k {
            1nat
        } else {
            0nat
        }
    }
}

/// A text occurs at most as often as there are texts.
pub proof fn lemma_count_bound(ops: Seq<Seq<char>>, k: Seq<char>)
    ensures
        count_of(ops, k) <= ops.len(),
    decreases ops.len(),
{
    if ops.len() > 0 {
        lemma_count_bound(ops.drop_last(), k);
    }
}

/// Whether the texts of the pairs strictly increase.
pub open spec fn texts_sorted(r: Seq<(Seq<char>, u64)>) -> bool {
    forall|i: int, j: int| 0 <= i < j < r.len() ==> chars_lt(#[trigger] r[i].0, #[trigger] r[j].0)
}

/// The model of counted opcodes.
pub open spec fn counts_view(r: Seq<(Text, u64)>) -> Seq<(Seq<char>, u64)> {
    r.map_values(|p: (Text, u64)| (p.0@, p.1))
}

/// The model of a list of texts.
pub open spec fn texts_view(ops: Seq<Text>) -> Seq<Seq<char>> {
    ops.map_values(|t: Text| t@)
}

/// Whether `r` holds each text of `ops` once, in order, with how often it
/// occurs.
pub open spec fn counts_of(ops: Seq<Seq<char>>, r: Seq<(Seq<char>, u64)>) -> bool {
    &&& texts_sorted(r)
    &&& forall|i: int| 0 <= i < r.len() ==> #[trigger] r[i].1 == count_of(ops, r[i].0) && r[i].1 > 0
    &&& forall|t: Seq<char>| count_of(ops, t) > 0 ==> exists|i: int| 0 <= i < r.len() && #[trigger] r[i].0 == t
}

/// A count counts: a text once in a list of it alone, nothing in a list of
/// another text, and over two lists one after the other the sum of both.
pub proof fn lemma_count_of_counts(a: Seq<Seq<char>>, b: Seq<Seq<char>>, k: Seq<char>, x: Seq<char>)
    ensures
        count_of(seq![k], k) == 1,
        x != k ==> count_of(seq![x], k) == 0,
        count_of(Seq::empty(), k) == 0,
        count_of(a + b, k) == count_of(a, k) + count_of(b, k),
    decreases b.len(),
{
    assert(seq![k].drop_last() =~= Seq::<Seq<char>>::empty());
    assert(seq![x].drop_last() =~= Seq::<Seq<char>>::empty());
    assert(count_of(Seq::<Seq<char>>::empty(), k) == 0);
    assert(seq![k].last() == k);
    assert(count_of(seq![k], k) == count_of(seq![k].drop_last(), k) + 1);
    assert(seq![x].last() == x);
    assert(count_of(seq![x], k) == count_of(seq![x].drop_last(), k) + if x == k { 1nat } else { 0nat });
    if b.len() == 0 {
        assert(a + b =~= a);
    } else {
        lemma_count_of_counts(a, b.drop_last(), k, x);
        assert((a + b).drop_last() =~= a + b.drop_last());
        assert((a + b).last() == b.last());
    }
}

proof fn lemma_sorted_distinct(r: Seq<(Seq<char>, u64)>, i: int, j: int)
    requires
        texts_sorted(r),
        0 <= i < r.len(),
        0 <= j < r.len(),
        i != j,
    ensures
        r[i].0 != r[j].0,
{
    lemma_chars_order(r[i].0, r[j].0, r[i].0);
}

/// Counts the opcodes: each one once, in the order of texts, with how often
/// it occurs.
pub fn count_opcodes(ops: &Vec<Text>) -> (r: Vec<(Text, u64)>)
    ensures
        counts_of(texts_view(ops@), counts_view(r@)),
{
    let ghost opsv = texts_view(ops@);
    let mut r: Vec<(Text, u64)> = Vec::new();
    let mut i: usize = 0;
    assert(counts_view(r@) =~= Seq::<(Seq<char>, u64)>::empty());
    while i < ops.len()
        invariant
            i <= ops@.len(),
            opsv == texts_view(ops@),
            counts_of(opsv.take(i as int), counts_view(r@)),
        decreases ops@.len() - i,
    {
        let ghost p = opsv.take(i as int);
        let ghost p2 = opsv.take(i + 1);
        let ghost rv = counts_view(r@);
        let o = &ops[i];
        let ghost ov = o@;
        proof {
            assert(p2.drop_last() =~= p);
            assert(p2.last() == ov);
            assert forall|t: Seq<char>| #[trigger] count_of(p2, t) == count_of(p, t) + if t == ov { 1nat } else { 0nat } by {
            }
            lemma_count_bound(p, ov);
        }
        let mut pos: usize = 0;
        while pos < r.len() && compare_text(&r[pos].0, o) == KeyOrder::Less
            invariant
                pos <= r@.len(),
                rv == counts_view(r@),
                ov == o@,
                forall|j: int| 0 <= j < pos ==> chars_lt(#[trigger] rv[j].0, ov),
            decreases r@.len() - pos,
        {
            assert(rv[pos as int].0 == r@[pos as int].0@);
            pos = pos + 1;
        }
        if pos < r.len() && compare_text(&r[pos].0, o) == KeyOrder::Equal {
            let c = r[pos].1;
            proof {
                assert(rv[pos as int] == (r@[pos as int].0@, r@[pos as int].1));
                assert(rv[pos as int].0 == ov);
                assert(rv[pos as int].1 == c);
                assert(c as nat == count_of(p, ov));
                assert(i < ops@.len());
            }
            let t = r[pos].0.clone();
            r.set(pos, (t, c + 1));
            proof {
                let nv = counts_view(r@);
                assert(nv =~= rv.update(pos as int, (ov, (c + 1) as u64)));
                assert forall|a: int| 0 <= a < nv.len() implies #[trigger] nv[a].1 == count_of(p2, nv[a].0) && nv[a].1 > 0 by {
                    if a != pos {
                        lemma_sorted_distinct(rv, a, pos as int);
                    }
                }
                assert forall|t: Seq<char>| count_of(p2, t) > 0 implies exists|a: int| 0 <= a < nv.len() && #[trigger] nv[a].0 == t by {
                    if t == ov {
                        assert(nv[pos as int].0 == t);
                    } else {
                        let a = choose|a: int| 0 <= a < rv.len() && #[trigger] rv[a].0 == t;
                        assert(nv[a].0 == t);
                    }
                }
            }
        } else {
            proof {
                if pos < rv.len() {
                    lemma_chars_order(rv[pos as int].0, ov, ov);
                    assert(chars_lt(ov, rv[pos as int].0));
                }
                // no entry holds `o` yet
                assert forall|a: int| 0 <= a < rv.len() implies #[trigger] rv[a].0 != ov by {
                    if a < pos {
                        lemma_chars_order(rv[a].0, ov, ov);
                    } else {
                        if a > pos {
                            lemma_chars_order(ov, rv[pos as int].0, rv[a].0);
                        }
                        lemma_chars_order(ov, rv[a].0, ov);
                    }
                }
                if count_of(p, ov) > 0 {
                    let a = choose|a: int| 0 <= a < rv.len() && #[trigger] rv[a].0 == ov;
                    assert(rv[a].0 != ov);
                }
            }
            let t = o.clone();
            r.insert(pos, (t, 1));
            proof {
                let nv = counts_view(r@);
                assert(nv =~= rv.insert(pos as int, (ov, 1u64)));
                assert forall|a: int, b: int| 0 <= a < b < nv.len() implies chars_lt(#[trigger] nv[a].0, #[trigger] nv[b].0) by {
                    if b < pos {
                    } else if a < pos && b == pos {
                    } else if a < pos && b > pos {
                        assert(nv[b] == rv[b - 1]);
                        lemma_chars_order(rv[a].0, ov, rv[b - 1].0);
                        if b - 1 > pos {
                            lemma_chars_order(ov, rv[pos as int].0, rv[b - 1].0);
                        }
                    } else if a == pos {
                        assert(nv[b] == rv[b - 1]);
                        if b - 1 > pos {
                            lemma_chars_order(ov, rv[pos as int].0, rv[b - 1].0);
                        }
                    } else {
                        assert(nv[a] == rv[a - 1]);
                        assert(nv[b] == rv[b - 1]);
                    }
                }
                assert forall|a: int| 0 <= a < nv.len() implies #[trigger] nv[a].1 == count_of(p2, nv[a].0) && nv[a].1 > 0 by {
                    if a < pos {
                        assert(nv[a] == rv[a]);
                    } else if a > pos {
                        assert(nv[a] == rv[a - 1]);
                    }
                }
                assert forall|t: Seq<char>| count_of(p2, t) > 0 implies exists|a: int| 0 <= a < nv.len() && #[trigger] nv[a].0 == t by {
                    if t == ov {
                        assert(nv[pos as int].0 == t);
                    } else {
                        let a = choose|a: int| 0 <= a < rv.len() && #[trigger] rv[a].0 == t;
                        if a < pos {
                            assert(nv[a].0 == t);
                        } else {
                            assert(nv[a + 1].0 == t);
                        }
                    }
                }
            }
        }
        i = i + 1;
    }
    proof {
        assert(opsv.take(ops@.len() as int) =~= opsv);
    }
    r
}

/// A count as an `i64`, capped at its largest value.
pub open spec fn capped_count(n: u64) -> i64 {
    if n <= i64::MAX as u64 {
        n as i64
    } else {
        i64::MAX
    }
}

fn cap_count(n: u64) -> (r: i64)
    ensures
        r == capped_count(n),
{
    if n <= 9223372036854775807u64 {
        n as i64
    } else {
        9223372036854775807i64
    }
}

/// The entries of the counts by opcode.
pub open spec fn opcode_entries(r: Seq<(Seq<char>, u64)>) -> Seq<(KeyV, ValueV)> {
    Seq::new(r.len(), |i: int| (KeyV::Str(r[i].0), ValueV::Prim(PrimV::Num(NumV::Int(capped_count(r[i].1))))))
}

/// The number of blocks as an `i64`, capped at its largest value.
pub open spec fn capped_total(n: nat) -> i64 {
    if n <= i64::MAX {
        n as i64
    } else {
        i64::MAX
    }
}

/// The block counts of a project from the opcodes of its blocks: the
/// mapping with the counts by opcode (0 for any other) under "opcode" and
/// the number of blocks under "total"; and, besides, that number and the
/// counts by opcode.
pub fn blockcount_map(ops: &Vec<Text>) -> (r: (RealMapping, (RuntimeValue, RealMapping)))
    ensures
        exists|c: Seq<(Seq<char>, u64)>| {
            &&& counts_of(texts_view(ops@), c)
            &&& r.1.1@ == ValueV::Mapping(opcode_entries(c), Some(Box::new(ValueV::Prim(PrimV::Num(NumV::Int(0))))))
        },
        r.1.0@ == ValueV::Prim(PrimV::Num(NumV::Int(capped_total(ops@.len() as nat)))),
        r.0@ == ValueV::Mapping(
            seq![
                (KeyV::Str(seq!['o', 'p', 'c', 'o', 'd', 'e']), r.1.1@),
                (KeyV::Str(seq!['t', 'o', 't', 'a', 'l']), r.1.0@),
            ],
            None,
        ),
{
    let counts = count_opcodes(ops);
    let ghost cv = counts_view(counts@);
    let mut entries: Vec<(MapKey, RuntimeValue)> = Vec::new();
    let mut i: usize = 0;
    while i < counts.len()
        invariant
            i <= counts@.len(),
            cv == counts_view(counts@),
            entries@.len() == i,
            forall|j: int| 0 <= j < i ==> (#[trigger] entries@[j]).0@ == KeyV::Str(cv[j].0) && entries@[j].1@ == ValueV::Prim(PrimV::Num(NumV::Int(capped_count(cv[j].1)))),
        decreases counts@.len() - i,
    {
        let k = MapKey::Str(counts[i].0.clone());
        let v = RuntimeValue::Prim(PrimitiveValue::Number(Numeric::Int(cap_count(counts[i].1))));
        entries.push((k, v));
        i = i + 1;
    }
    let by_opcode = RealMapping {
        mapping: entries,
        default: Some(Box::new(RuntimeValue::Prim(PrimitiveValue::Number(Numeric::Int(0))))),
    };
    assert(entries_view(by_opcode.mapping@) =~= opcode_entries(cv));
    let n = ops.len();
    let total_n: i64 = if n as u64 <= 9223372036854775807u64 { n as i64 } else { 9223372036854775807i64 };
    let total = RuntimeValue::Prim(PrimitiveValue::Number(Numeric::Int(total_n)));
    let by_clone = by_opcode.clone();
    proof {
        lemma_comp_view(MappingOrArray::Mapping(by_clone));
    }
    let opcode_key = Text::from_str("opcode");
    let total_key = Text::from_str("total");
    proof {
        reveal_strlit("opcode");
        reveal_strlit("total");
    }
    assert(opcode_key@ == seq!['o', 'p', 'c', 'o', 'd', 'e']);
    assert(total_key@ == seq!['t', 'o', 't', 'a', 'l']);
    let v1 = RuntimeValue::Comp(MappingOrArray::Mapping(by_clone));
    let v2 = total.clone();
    assert(v1@ == by_opcode@);
    assert(v2@ == total@);
    let mut bc: Vec<(MapKey, RuntimeValue)> = Vec::new();
    bc.push((MapKey::Str(opcode_key), v1));
    bc.push((MapKey::Str(total_key), v2));
    let blockcount = RealMapping { mapping: bc, default: None };
    assert(entries_view(blockcount.mapping@) =~= seq![
        (KeyV::Str(seq!['o', 'p', 'c', 'o', 'd', 'e']), by_opcode@),
        (KeyV::Str(seq!['t', 'o', 't', 'a', 'l']), total@),
    ]);
    (blockcount, (total, by_opcode))
}

/// The parameters of a specification: the block counts of the project
/// under "doc" → "blockcount", and the parameters of the caller under "my".
pub fn params_mapping(blockcount: RealMapping, my: RealMapping) -> (r: RealMapping)
    ensures
        r@ == ValueV::Mapping(
            seq![
                (KeyV::Str(seq!['d', 'o', 'c']), ValueV::Mapping(seq![(KeyV::Str(seq!['b', 'l', 'o', 'c', 'k', 'c', 'o', 'u', 'n', 't']), blockcount@)], None)),
                (KeyV::Str(seq!['m', 'y']), my@),
            ],
            None,
        ),
{
    let doc_key = Text::from_str("doc");
    let bc_key = Text::from_str("blockcount");
    let my_key = Text::from_str("my");
    proof {
        reveal_strlit("doc");
        reveal_strlit("blockcount");
        reveal_strlit("my");
        lemma_comp_view(MappingOrArray::Mapping(blockcount));
        lemma_comp_view(MappingOrArray::Mapping(my));
    }
    let ghost bv = blockcount@;
    let ghost mv = my@;
    assert(doc_key@ == seq!['d', 'o', 'c']);
    assert(bc_key@ == seq!['b', 'l', 'o', 'c', 'k', 'c', 'o', 'u', 'n', 't']);
    assert(my_key@ == seq!['m', 'y']);
    let bvv = RuntimeValue::Comp(MappingOrArray::Mapping(blockcount));
    assert(bvv@ == bv);
    let mut d: Vec<(MapKey, RuntimeValue)> = Vec::new();
    d.push((MapKey::Str(bc_key), bvv));
    let doc = RealMapping { mapping: d, default: None };
    assert(entries_view(doc.mapping@) =~= seq![(KeyV::Str(seq!['b', 'l', 'o', 'c', 'k', 'c', 'o', 'u', 'n', 't']), bv)]);
    proof {
        lemma_comp_view(MappingOrArray::Mapping(doc));
    }
    let ghost dv = doc@;
    let dvv = RuntimeValue::Comp(MappingOrArray::Mapping(doc));
    let mvv = RuntimeValue::Comp(MappingOrArray::Mapping(my));
    assert(dvv@ == dv);
    assert(mvv@ == mv);
    let mut all: Vec<(MapKey, RuntimeValue)> = Vec::new();
    all.push((MapKey::Str(doc_key), dvv));
    all.push((MapKey::Str(my_key), mvv));
    let r = RealMapping { mapping: all, default: None };
    assert(entries_view(r.mapping@) =~= seq![(KeyV::Str(seq!['d', 'o', 'c']), dv), (KeyV::Str(seq!['m', 'y']), mv)]);
    r
}

} // verus!
