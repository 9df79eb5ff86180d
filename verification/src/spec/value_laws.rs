//! What holds of the evaluation of values across their kinds.
use vstd::prelude::*;

use crate::spec::entities::{Coremapping, ValueEntity, ValueReference};
use crate::spec::eval::{
    AnswerV, CtxV, FlowV, NumericOp, QueryV, TaskV, cast_num, cast_text, cast_value, sp_concat,
    sp_ref, sp_value,
};
use crate::catchable::cerr;
use crate::spec::entities::{ActionEntity, EntityId};
use crate::spec::runtime::{ActV, AnyV};
use crate::spec::eval::cast_action;
use crate::spec::eval::sp_id;
use crate::spec::values::{KeyV, NumV, PrimV, ValueV};
use crate::spec::text::{spec_trim, spec_trim_end, spec_trim_start, unicode_lower, unicode_upper};
use crate::spec::eval::{cast_key, cast_mapping};

verus! {

// ---------------------------------------------------------------------------
// Reading the data of a run
// ---------------------------------------------------------------------------

/// The entity that reads the mapping `m` of a run.
pub open spec fn read_entity(m: Coremapping) -> ValueEntity {
    match m {
        Coremapping::Input => ValueEntity::ReadInput {},
        Coremapping::Output => ValueEntity::ReadOutput {},
        Coremapping::Randoms => ValueEntity::ReadRandoms {},
        Coremapping::Lists => ValueEntity::ReadLists {},
        Coremapping::Variables => ValueEntity::ReadVariables {},
        Coremapping::Param => ValueEntity::ReadParam {},
        Coremapping::Flags => ValueEntity::ReadParam {},
    }
}

#[verifier::rlimit(50)]
proof fn lemma_read_unfold(cx: CtxV, m: Coremapping)
    ensures
        sp_value(cx, read_entity(m)).0 == match m {
            Coremapping::Input => crate::spec::eval::sp_read(cx, QueryV::Selector(Coremapping::Input, None), true),
            Coremapping::Output => crate::spec::eval::sp_read(cx, QueryV::Selector(Coremapping::Output, None), true),
            Coremapping::Randoms => crate::spec::eval::sp_read(cx, QueryV::Selector(Coremapping::Randoms, None), true),
            Coremapping::Lists => crate::spec::eval::sp_read(cx, QueryV::Selector(Coremapping::Lists, None), false),
            Coremapping::Variables => crate::spec::eval::sp_read(cx, QueryV::Selector(Coremapping::Variables, None), false),
            _ => crate::spec::eval::sp_read(cx, QueryV::Selector(Coremapping::Param, None), false),
        },
{
}

/// Reading a mapping of the run asks for exactly that mapping, and gives
/// what the answer holds: an array for input, output and randoms, a mapping
/// for lists, variables and parameters.
pub proof fn lemma_read_run_data(cx: CtxV, m: Coremapping, v: ValueV)
    requires
        m != Coremapping::Flags,
    ensures
        cx.answer is None ==> sp_value(cx, read_entity(m)).0 == FlowV::<ValueV>::Need(QueryV::Selector(m, None)),
        (cx.answer == Some(AnswerV::Selected(AnyV::Value(v))) && (if m == Coremapping::Input
            || m == Coremapping::Output || m == Coremapping::Randoms { v is Array } else { v is Mapping }))
            ==> sp_value(cx, read_entity(m)).0 == FlowV::Done(v),
{
    lemma_read_unfold(cx, m);
}

// ---------------------------------------------------------------------------
// Arithmetic
// ---------------------------------------------------------------------------

/// The entity that applies the binary operation `op`.
pub open spec fn binary_entity(op: NumericOp, left: ValueReference, right: ValueReference) -> ValueEntity {
    match op {
        NumericOp::Add => ValueEntity::Add { left, right },
        NumericOp::Sub => ValueEntity::Sub { left, right },
        NumericOp::Mul => ValueEntity::Mul { left, right },
        NumericOp::Truediv => ValueEntity::Truediv { left, right },
        NumericOp::Floordiv => ValueEntity::Floordiv { left, right },
        NumericOp::Mod => ValueEntity::Mod { left, right },
        NumericOp::Pow => ValueEntity::Pow { left, right },
    }
}

#[verifier::rlimit(50)]
proof fn lemma_binary_unfold(cx: CtxV, op: NumericOp, left: ValueReference, right: ValueReference)
    ensures
        sp_value(cx, binary_entity(op, left, right)).0 == crate::spec::eval::sp_binary(cx, op, left, right),
{
}

/// An arithmetic operation other than a power asks for exactly that
/// operation on the two numbers, left first, and gives the number answered.
pub proof fn lemma_arithmetic(cx: CtxV, op: NumericOp, left: ValueReference, right: ValueReference, l: NumV, r: NumV, n: NumV)
    requires
        op != NumericOp::Pow,
        sp_ref(cx, left, |a: AnyV| cast_num(a)) == FlowV::Done(l),
        sp_ref(cx, right, |a: AnyV| cast_num(a)) == FlowV::Done(r),
    ensures
        cx.answer is None ==> sp_value(cx, binary_entity(op, left, right)).0
            == FlowV::<ValueV>::Need(QueryV::Numeric(TaskV::Binary(op, l, r))),
        cx.answer == Some(AnswerV::Number(n)) ==> sp_value(cx, binary_entity(op, left, right)).0
            == FlowV::Done(ValueV::Prim(PrimV::Num(n))),
{
    lemma_binary_unfold(cx, op, left, right);
}

/// A power of two integers with a small exponent is computed: `a` to the
/// power 0 is 1, and one more in the exponent multiplies by `a`.
pub proof fn lemma_integer_powers(cx: CtxV, left: ValueReference, right: ValueReference, a: i64, b: i64)
    requires
        sp_ref(cx, left, |x: AnyV| cast_num(x)) == FlowV::Done(NumV::Int(a)),
        sp_ref(cx, right, |x: AnyV| cast_num(x)) == FlowV::Done(NumV::Int(b)),
    ensures
        b == 0 ==> sp_value(cx, (ValueEntity::Pow { left, right })).0 == FlowV::Done(ValueV::Prim(PrimV::Num(NumV::Int(1)))),
        b == 1 ==> sp_value(cx, (ValueEntity::Pow { left, right })).0 == FlowV::Done(ValueV::Prim(PrimV::Num(NumV::Int(a)))),
        b == 2 && i64::MIN <= a * a <= i64::MAX ==> sp_value(cx, (ValueEntity::Pow { left, right })).0
            == FlowV::Done(ValueV::Prim(PrimV::Num(NumV::Int((a * a) as i64)))),
{
    lemma_binary_unfold(cx, NumericOp::Pow, left, right);
    reveal_with_fuel(crate::spec::intpow::int_pow, 3);
}

#[verifier::rlimit(50)]
proof fn lemma_neg_unfold(cx: CtxV, value: ValueReference)
    ensures
        sp_value(cx, (ValueEntity::Neg { value })).0 == crate::spec::eval::sp_unary(cx, None, value),
{
}

/// A negation asks for zero minus the number.
pub proof fn lemma_negation_is_zero_minus(cx: CtxV, value: ValueReference, x: NumV, n: NumV)
    requires
        sp_ref(cx, value, |a: AnyV| cast_num(a)) == FlowV::Done(x),
    ensures
        cx.answer is None ==> sp_value(cx, (ValueEntity::Neg { value })).0
            == FlowV::<ValueV>::Need(QueryV::Numeric(TaskV::Binary(NumericOp::Sub, NumV::Int(0), x))),
        cx.answer == Some(AnswerV::Number(n)) ==> sp_value(cx, (ValueEntity::Neg { value })).0
            == FlowV::Done(ValueV::Prim(PrimV::Num(n))),
{
    lemma_neg_unfold(cx, value);
}

// ---------------------------------------------------------------------------
// Length and concatenation
// ---------------------------------------------------------------------------

#[verifier::rlimit(50)]
proof fn lemma_length_unfold(cx: CtxV, value: ValueReference)
    ensures
        sp_value(cx, (ValueEntity::Length { value })).0 == crate::spec::eval::sp_length(cx, value),
{
}

/// The length of a text is its number of characters, that of an array its
/// number of values, that of a mapping its number of entries.
pub proof fn lemma_length(cx: CtxV, value: ValueReference, v: ValueV)
    requires
        sp_ref(cx, value, |a: AnyV| cast_value(a)) == FlowV::Done(v),
    ensures
        match v {
            ValueV::Prim(PrimV::Str(t)) => t.len() <= i64::MAX ==> sp_value(cx, (ValueEntity::Length { value })).0
                == FlowV::Done(ValueV::Prim(PrimV::Num(NumV::Int(t.len() as i64)))),
            ValueV::Array(s) => s.len() <= i64::MAX ==> sp_value(cx, (ValueEntity::Length { value })).0
                == FlowV::Done(ValueV::Prim(PrimV::Num(NumV::Int(s.len() as i64)))),
            ValueV::Mapping(es, _) => es.len() <= i64::MAX ==> sp_value(cx, (ValueEntity::Length { value })).0
                == FlowV::Done(ValueV::Prim(PrimV::Num(NumV::Int(es.len() as i64)))),
            _ => true,
        },
{
    lemma_length_unfold(cx, value);
}

proof fn lemma_concat_from(cx: CtxV, parts: Seq<ValueReference>, ts: Seq<Seq<char>>, i: int, acc: Seq<char>)
    requires
        0 <= i <= parts.len(),
        ts.len() == parts.len(),
        forall|k: int| 0 <= k < parts.len() ==> sp_ref(cx, #[trigger] parts[k], |a: AnyV| cast_text(a)) == FlowV::Done(ts[k]),
    ensures
        sp_concat(cx, parts, i, acc) == FlowV::Done(ValueV::Prim(PrimV::Str(acc + ts.skip(i).flatten()))),
    decreases parts.len() - i,
{
    if i < parts.len() {
        assert(sp_ref(cx, parts[i], |a: AnyV| cast_text(a)) == FlowV::Done(ts[i]));
        lemma_concat_from(cx, parts, ts, i + 1, acc + ts[i]);
        assert(ts.skip(i)[0] == ts[i]);
        assert(ts.skip(i).drop_first() =~= ts.skip(i + 1));
        assert(acc + ts[i] + ts.skip(i + 1).flatten() =~= acc + ts.skip(i).flatten());
    } else {
        assert(ts.skip(i) =~= Seq::<Seq<char>>::empty());
        assert(acc + Seq::<Seq<char>>::empty().flatten() =~= acc);
    }
}

#[verifier::rlimit(50)]
proof fn lemma_concat_unfold(cx: CtxV, a: Seq<ValueReference>, e: ValueEntity)
    requires
        e matches ValueEntity::Concat { a: parts } && parts@ == a,
    ensures
        sp_value(cx, e).0 == sp_concat(cx, a, 0, Seq::empty()),
{
}

/// A concatenation is the texts of its parts, one after the other, in
/// their order.
pub proof fn lemma_concat(cx: CtxV, e: ValueEntity, parts: Seq<ValueReference>, ts: Seq<Seq<char>>)
    requires
        e matches ValueEntity::Concat { a } && a@ == parts,
        ts.len() == parts.len(),
        forall|k: int| 0 <= k < parts.len() ==> sp_ref(cx, #[trigger] parts[k], |a: AnyV| cast_text(a)) == FlowV::Done(ts[k]),
    ensures
        sp_value(cx, e).0 == FlowV::Done(ValueV::Prim(PrimV::Str(ts.flatten()))),
{
    lemma_concat_unfold(cx, parts, e);
    lemma_concat_from(cx, parts, ts, 0, Seq::empty());
    assert(ts.skip(0) =~= ts);
    assert(Seq::<char>::empty() + ts.flatten() =~= ts.flatten());
}


// ---------------------------------------------------------------------------
// Catching errors
// ---------------------------------------------------------------------------

#[verifier::rlimit(50)]
proof fn lemma_catch_unfold(cx: CtxV, value: ValueReference, error: cerr, dflt: Option<ValueReference>, action: Option<EntityId<ActionEntity>>)
    ensures
        sp_value(cx, (ValueEntity::Catch { value, error, only_if: None, default_value: dflt, action }))
            == crate::spec::eval::sp_value_catch(cx, value, error, None, dflt, match action { Some(x) => Some(x.0), None => None }),
{
}

/// A catch without a condition: a value passes through with no action; an
/// error of the kinds it catches becomes the default value (or stays the
/// error if there is none), and its action, if any, is triggered; any other
/// error passes through, with no action.
pub proof fn lemma_value_catch(
    cx: CtxV,
    value: ValueReference,
    error: cerr,
    dflt: Option<ValueReference>,
    action: Option<EntityId<ActionEntity>>,
    got: AnyV,
    dv: ValueV,
    act: ActV,
)
    requires
        sp_ref(cx, value, |a: AnyV| Ok::<AnyV, cerr>(a)) == FlowV::Done(got),
        dflt matches Some(d) ==> sp_ref(cx, d, |a: AnyV| cast_value(a)) == FlowV::Done(dv),
        action matches Some(x) ==> sp_id(cx, x.0, |a: AnyV| cast_action(a)) == FlowV::Done(act),
    ensures
        ({
            let r = sp_value(cx, (ValueEntity::Catch { value, error, only_if: None, default_value: dflt, action }));
            &&& got matches AnyV::Value(v) ==> r == (FlowV::Done(v), None::<ActV>)
            &&& got matches AnyV::Catchable(e) ==> {
                &&& !error.spec_contains(e) ==> r == (FlowV::<ValueV>::Catch(e), None::<ActV>)
                &&& error.spec_contains(e) ==> {
                    &&& r.0 == (if dflt is Some { FlowV::Done(dv) } else { FlowV::<ValueV>::Catch(e) })
                    &&& r.1 == (if action is Some { Some(act) } else { None::<ActV> })
                }
            }
        }),
{
    lemma_catch_unfold(cx, value, error, dflt, action);
}


// ---------------------------------------------------------------------------
// Operations on texts
// ---------------------------------------------------------------------------

#[verifier::rlimit(50)]
proof fn lemma_text_ops_unfold(cx: CtxV, value: ValueReference)
    ensures
        sp_value(cx, (ValueEntity::Trim { value })).0 == crate::spec::eval::sp_text_op(cx, crate::spec::eval::TextOp::Trim, value),
        sp_value(cx, (ValueEntity::TrimStart { value })).0 == crate::spec::eval::sp_text_op(cx, crate::spec::eval::TextOp::TrimStart, value),
        sp_value(cx, (ValueEntity::TrimEnd { value })).0 == crate::spec::eval::sp_text_op(cx, crate::spec::eval::TextOp::TrimEnd, value),
        sp_value(cx, (ValueEntity::ToUpper { value })).0 == crate::spec::eval::sp_text_op(cx, crate::spec::eval::TextOp::Upper, value),
        sp_value(cx, (ValueEntity::ToLower { value })).0 == crate::spec::eval::sp_text_op(cx, crate::spec::eval::TextOp::Lower, value),
{
}

/// Each text operation gives the text it names of the text of its value:
/// trimmed at both ends, at the start, at the end (see `lemma_trim`,
/// `lemma_trim_start`, `lemma_trim_end` for what trimming keeps), in upper
/// or in lower case.
pub proof fn lemma_text_ops(cx: CtxV, value: ValueReference, t: Seq<char>)
    requires
        sp_ref(cx, value, |a: AnyV| cast_text(a)) == FlowV::Done(t),
    ensures
        sp_value(cx, (ValueEntity::Trim { value })).0 == FlowV::Done(ValueV::Prim(PrimV::Str(spec_trim(t)))),
        sp_value(cx, (ValueEntity::TrimStart { value })).0 == FlowV::Done(ValueV::Prim(PrimV::Str(spec_trim_start(t)))),
        sp_value(cx, (ValueEntity::TrimEnd { value })).0 == FlowV::Done(ValueV::Prim(PrimV::Str(spec_trim_end(t)))),
        sp_value(cx, (ValueEntity::ToUpper { value })).0 == FlowV::Done(ValueV::Prim(PrimV::Str(unicode_upper(t)))),
        sp_value(cx, (ValueEntity::ToLower { value })).0 == FlowV::Done(ValueV::Prim(PrimV::Str(unicode_lower(t)))),
{
    lemma_text_ops_unfold(cx, value);
}

// ---------------------------------------------------------------------------
// Mappings
// ---------------------------------------------------------------------------

#[verifier::rlimit(50)]
proof fn lemma_view_unfold(cx: CtxV, perspective: crate::spec::text::Text, mapping: ValueReference)
    ensures
        sp_value(cx, (ValueEntity::View { perspective, mapping })).0 == crate::spec::eval::sp_view(cx, perspective@, mapping),
{
}

/// The keys view of a mapping is the array of its keys, as texts or
/// integers, in its order; the values view the array of its values in the
/// same order; any other perspective is the error `exotic_unknownPerspective`.
pub proof fn lemma_views(cx: CtxV, perspective: crate::spec::text::Text, mapping: ValueReference, es: Seq<(KeyV, ValueV)>, d: Option<Box<ValueV>>)
    requires
        sp_ref(cx, mapping, |a: AnyV| cast_mapping(a)) == FlowV::Done(ValueV::Mapping(es, d)),
    ensures
        perspective@ == seq!['k', 'e', 'y', 's'] ==> (sp_value(cx, (ValueEntity::View { perspective, mapping })).0 matches FlowV::Done(ValueV::Array(ks))
            && ks.len() == es.len()
            && forall|i: int| 0 <= i < es.len() ==> #[trigger] ks[i] == match es[i].0 {
                KeyV::Str(t) => ValueV::Prim(PrimV::Str(t)),
                KeyV::Int(n) => ValueV::Prim(PrimV::Num(NumV::Int(n))),
            }),
        perspective@ == seq!['v', 'a', 'l', 'u', 'e', 's'] ==> (sp_value(cx, (ValueEntity::View { perspective, mapping })).0 matches FlowV::Done(ValueV::Array(vs))
            && vs.len() == es.len()
            && forall|i: int| 0 <= i < es.len() ==> #[trigger] vs[i] == es[i].1),
        perspective@ != seq!['k', 'e', 'y', 's'] && perspective@ != seq!['v', 'a', 'l', 'u', 'e', 's']
            ==> sp_value(cx, (ValueEntity::View { perspective, mapping })).0 == FlowV::<ValueV>::Catch(cerr::exotic_unknownPerspective()),
{
    lemma_view_unfold(cx, perspective, mapping);
}

#[verifier::rlimit(50)]
proof fn lemma_mapitem_unfold(cx: CtxV, e: ValueEntity)
    requires
        e is Mapitem,
    ensures
        sp_value(cx, e).0 == crate::spec::eval::sp_mapitem(cx, e->Mapitem_mapping, e->Mapitem_keys@),
{
}

proof fn lemma_mapitem_walk_one(cx: CtxV, mapping: ValueReference, keys: Seq<ValueReference>, kr: ValueReference, k: KeyV, es: Seq<(KeyV, ValueV)>, d: Option<Box<ValueV>>)
    requires
        keys == seq![kr],
        sp_ref(cx, mapping, |a: AnyV| cast_value(a)) == FlowV::Done(ValueV::Mapping(es, d)),
        sp_ref(cx, kr, |a: AnyV| cast_key(a)) == FlowV::Done(k),
    ensures
        crate::spec::eval::sp_mapitem(cx, mapping, keys) == match crate::spec::values::mapping_get(es, d, k) {
            Ok(n) => FlowV::Done(n),
            Err(_) => FlowV::<ValueV>::Catch(cerr::mapping_missingKey()),
        },
{
    assert(keys[0] == kr);
    let w1 = crate::spec::eval::sp_mapitem_walk(cx, keys, 1, ValueV::Mapping(es, d));
    assert(w1 == FlowV::Done(ValueV::Mapping(es, d)));
    match crate::spec::values::mapping_get(es, d, k) {
        Ok(n) => {
            assert(crate::spec::eval::sp_mapitem_walk(cx, keys, 1, n) == FlowV::Done(n));
        },
        Err(_) => {},
    }
}

proof fn lemma_find_first_key(es: Seq<(KeyV, ValueV)>, k: KeyV, i: int)
    requires
        0 <= i < es.len(),
        es[i].0 == k,
        forall|j: int| 0 <= j < i ==> es[j].0 != k,
    ensures
        crate::spec::values::find_key(es, k) == Some(i),
{
    let c = choose|c: int| 0 <= c < es.len() && es[c].0 == k && forall|j: int| 0 <= j < c ==> es[j].0 != k;
    assert(0 <= c < es.len() && es[c].0 == k && forall|j: int| 0 <= j < c ==> es[j].0 != k);
    if c < i {
        assert(es[c].0 != k);
    } else if c > i {
        assert(es[i].0 != k);
    }
}

/// An item of a mapping under one key is the value of the first entry with
/// that key; without such an entry it is the default, and without a default
/// the error `mapping_missingKey`.
pub proof fn lemma_mapitem_one_key(cx: CtxV, e: ValueEntity, kr: ValueReference, k: KeyV, es: Seq<(KeyV, ValueV)>, d: Option<Box<ValueV>>)
    requires
        e is Mapitem,
        e->Mapitem_keys@ == seq![kr],
        sp_ref(cx, e->Mapitem_mapping, |a: AnyV| cast_value(a)) == FlowV::Done(ValueV::Mapping(es, d)),
        sp_ref(cx, kr, |a: AnyV| cast_key(a)) == FlowV::Done(k),
    ensures
        forall|i: int| 0 <= i < es.len() && #[trigger] es[i].0 == k && (forall|j: int| 0 <= j < i ==> es[j].0 != k)
            ==> sp_value(cx, e).0 == FlowV::Done(es[i].1),
        (forall|i: int| 0 <= i < es.len() ==> #[trigger] es[i].0 != k) ==> sp_value(cx, e).0 == match d {
            Some(b) => FlowV::Done(*b),
            None => FlowV::<ValueV>::Catch(cerr::mapping_missingKey()),
        },
{
    lemma_mapitem_unfold(cx, e);
    lemma_mapitem_walk_one(cx, e->Mapitem_mapping, e->Mapitem_keys@, kr, k, es, d);
    assert forall|i: int| 0 <= i < es.len() && #[trigger] es[i].0 == k && (forall|j: int| 0 <= j < i ==> es[j].0 != k)
        implies sp_value(cx, e).0 == FlowV::Done(es[i].1) by {
        lemma_find_first_key(es, k, i);
    }
}

} // verus!
