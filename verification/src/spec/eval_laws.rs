//! What holds of the evaluation of criteria across their kinds.
use vstd::prelude::*;

use crate::catchable::cerr;
use crate::spec::eval::{
    CompareOp, CtxV, FlowV, cast_crit, cast_prim, cast_text, local_compare, sp_all_of, sp_any_of,
    sp_catch_error, sp_contain_num, sp_contain_with_gaps, sp_criterion, sp_fexp, sp_id, sp_negated,
    sp_ref, sp_wgaps, sp_value, cast_value, sp_value_if_then_else, sp_comparison, cast_num,
    AnswerV, QueryV, TaskV, sp_matches_regex,
};
use crate::spec::entities::{CriterionEntity, EntityId, ValueEntity, ValueReference};
use crate::spec::runtime::{AnyV, CritV, MaybeV};
use crate::spec::text::{first_occurrence_from, occurs_at};
use crate::spec::numbers::find_numbers_spec;
use crate::spec::text::parse_i64_spec;
use crate::spec::regex_support::{regex_is_match, regex_valid};
use crate::spec::values::{NumV, ValueV};
use crate::spec::values::{PrimV, chars_lt, lcp, lemma_chars_order, lemma_lcp, lemma_lcp_is, prim_text};

verus! {

/// Whether the criterion with id `id` evaluates to a fulfilled one.
pub open spec fn clause_ok(cx: CtxV, id: u64) -> bool {
    sp_id(cx, id, |a: AnyV| cast_crit(a)) matches FlowV::Done(c) && c.fulfilled is Ok
}

/// Whether the criterion with id `id` evaluates to a criterion.
pub open spec fn clause_done(cx: CtxV, id: u64) -> bool {
    sp_id(cx, id, |a: AnyV| cast_crit(a)) is Done
}

/// A negation is fulfilled exactly when its clause is not.
pub proof fn lemma_negation(cx: CtxV, clause: u64, fexp: Option<ValueReference>, c: CritV)
    requires
        sp_negated(cx, clause, fexp) == FlowV::Done(c),
    ensures
        clause_done(cx, clause),
        (c.fulfilled is Ok) <==> !clause_ok(cx, clause),
{
}

/// Once all clauses from the `i`-th on evaluate, a disjunction that gives
/// a result is fulfilled exactly when one of them is.
pub proof fn lemma_any_of(cx: CtxV, ids: Seq<u64>, i: int, acc: Seq<MaybeV<CritV>>, fexp: Option<ValueReference>, c: CritV)
    requires
        0 <= i <= ids.len(),
        forall|j: int| i <= j < ids.len() ==> clause_done(cx, #[trigger] ids[j]),
        sp_any_of(cx, ids, i, acc, fexp) == FlowV::Done(c),
    ensures
        (c.fulfilled is Ok) <==> exists|j: int| i <= j < ids.len() && clause_ok(cx, #[trigger] ids[j]),
    decreases ids.len() - i,
{
    if i < ids.len() {
        assert(clause_done(cx, ids[i]));
        let r = sp_id(cx, ids[i], |a: AnyV| cast_crit(a));
        let ci = r->Done_0;
        if ci.fulfilled is Ok {
            assert(clause_ok(cx, ids[i]));
        } else {
            lemma_any_of(cx, ids, i + 1, acc.push(MaybeV::Evaluated(ci)), fexp, c);
            if exists|j: int| i <= j < ids.len() && clause_ok(cx, #[trigger] ids[j]) {
                let j = choose|j: int| i <= j < ids.len() && clause_ok(cx, #[trigger] ids[j]);
                assert(j != i);
                assert(i + 1 <= j < ids.len() && clause_ok(cx, ids[j]));
            }
        }
    }
}

/// Once all clauses from the `i`-th on evaluate, a conjunction that gives a
/// result is fulfilled exactly when all of them are.
pub proof fn lemma_all_of(cx: CtxV, ids: Seq<u64>, i: int, acc: Seq<MaybeV<CritV>>, fexp: Option<ValueReference>, c: CritV)
    requires
        0 <= i <= ids.len(),
        forall|j: int| i <= j < ids.len() ==> clause_done(cx, #[trigger] ids[j]),
        sp_all_of(cx, ids, i, acc, fexp) == FlowV::Done(c),
    ensures
        (c.fulfilled is Ok) <==> forall|j: int| i <= j < ids.len() ==> clause_ok(cx, #[trigger] ids[j]),
    decreases ids.len() - i,
{
    if i < ids.len() {
        assert(clause_done(cx, ids[i]));
        let r = sp_id(cx, ids[i], |a: AnyV| cast_crit(a));
        let ci = r->Done_0;
        if ci.fulfilled is Err {
            assert(!clause_ok(cx, ids[i]));
        } else {
            lemma_all_of(cx, ids, i + 1, acc.push(MaybeV::Evaluated(ci)), fexp, c);
            assert forall|j: int| i <= j < ids.len() && (forall|k: int| i + 1 <= k < ids.len() ==> clause_ok(cx, #[trigger] ids[k])) implies clause_ok(cx, #[trigger] ids[j]) by {
                if j > i {
                }
            }
        }
    }
}

/// Where a comparison is decided without the arithmetic of numbers, `!=`
/// is the opposite of `==`, `>=` that of `<`, and `<=` that of `>`.
pub proof fn lemma_opposite_comparisons(l: PrimV, r: PrimV)
    ensures
        local_compare(CompareOp::Equal, l, r) matches Some(b) ==> local_compare(CompareOp::NotEqual, l, r) == Some(!b),
        local_compare(CompareOp::LowerThen, l, r) matches Some(b) ==> local_compare(CompareOp::GreaterEqual, l, r) == Some(!b),
        local_compare(CompareOp::GreaterThen, l, r) matches Some(b) ==> local_compare(CompareOp::LowerEqual, l, r) == Some(!b),
{
}

/// Two texts: `a > b` exactly when `b < a`, and `a == b` exactly when
/// `b == a`.
pub proof fn lemma_swapped_comparison(a: Seq<char>, b: Seq<char>)
    ensures
        local_compare(CompareOp::GreaterThen, PrimV::Str(a), PrimV::Str(b)) == local_compare(CompareOp::LowerThen, PrimV::Str(b), PrimV::Str(a)),
        local_compare(CompareOp::Equal, PrimV::Str(a), PrimV::Str(b)) == local_compare(CompareOp::Equal, PrimV::Str(b), PrimV::Str(a)),
{
    lemma_chars_order(a, b, a);
    lemma_chars_order(b, a, b);
}

/// An error outside the kinds a catch is for passes through unchanged,
/// and no action is triggered.
pub proof fn lemma_uncaught_errors_pass<T>(cx: CtxV, found: cerr, error: cerr, only_if: Option<u64>, dflt: Option<FlowV<T>>, action: Option<u64>)
    requires
        !error.spec_contains(found),
    ensures
        sp_catch_error(cx, found, error, only_if, dflt, action) == (FlowV::<T>::Catch(found), None::<crate::spec::runtime::ActV>),
{
}

/// A text that holds a number as its only number holds it.
pub proof fn lemma_only_number_is_contained(cx: CtxV, sub: ValueReference, sup: ValueReference, fexp: Option<ValueReference>, c: CritV)
    requires
        sp_contain_num(cx, true, sub, sup, fexp) == FlowV::Done(c),
        c.fulfilled is Ok,
    ensures
        sp_contain_num(cx, false, sub, sup, fexp) matches FlowV::Done(c2) && c2.fulfilled is Ok,
{
}


// ---------------------------------------------------------------------------
// Containing parts with gaps
// ---------------------------------------------------------------------------

/// `qs` are places of the parts from the `i`-th on in `t`: each part
/// occurs at its place, the first at or after `p`, every other at or after
/// the end of the one before.
pub open spec fn fits_at(t: Seq<char>, ws: Seq<Seq<char>>, i: int, p: int, qs: Seq<int>) -> bool {
    &&& 0 <= i <= ws.len()
    &&& qs.len() == ws.len() - i
    &&& forall|k: int| 0 <= k < qs.len() ==> occurs_at(t, ws[i + k], #[trigger] qs[k])
    &&& qs.len() > 0 ==> p <= qs[0]
    &&& forall|k: int| 0 < k < qs.len() ==> qs[k - 1] + ws[i + k - 1].len() <= #[trigger] qs[k]
}

/// The parts from the `i`-th on can be found in `t` one after the other.
pub open spec fn fits_from(t: Seq<char>, ws: Seq<Seq<char>>, i: int, p: int) -> bool {
    exists|qs: Seq<int>| fits_at(t, ws, i, p, qs)
}

/// The search that takes, for each part, its first occurrence after the
/// end of the one before.
pub open spec fn leftmost_fits(t: Seq<char>, ws: Seq<Seq<char>>, i: int, p: int) -> bool
    decreases ws.len() - i,
{
    if i < 0 || i >= ws.len() {
        true
    } else {
        match first_occurrence_from(t, ws[i], p) {
            Some(k) => leftmost_fits(t, ws, i + 1, k + ws[i].len()),
            None => false,
        }
    }
}

/// Where `sub` occurs at or after `from`, its first occurrence there is at
/// or before any of them.
pub proof fn lemma_first_occurrence(sup: Seq<char>, sub: Seq<char>, from: int, q: int)
    requires
        from <= q,
        occurs_at(sup, sub, q),
    ensures
        first_occurrence_from(sup, sub, from) matches Some(k) && from <= k <= q && occurs_at(sup, sub, k),
    decreases q - from,
{
    if exists|j: int| from <= j < q && occurs_at(sup, sub, j) {
        let j = choose|j: int| from <= j < q && occurs_at(sup, sub, j);
        lemma_first_occurrence(sup, sub, from, j);
    } else {
        assert(from <= q && occurs_at(sup, sub, q) && forall|j: int| from <= j < q ==> !occurs_at(sup, sub, j));
        let k = first_occurrence_from(sup, sub, from)->Some_0;
        if k > q {
            assert(!occurs_at(sup, sub, q));
        }
    }
}

/// The places after the first one are places of the parts after the first.
proof fn lemma_fits_at_rest(t: Seq<char>, ws: Seq<Seq<char>>, i: int, p: int, qs: Seq<int>)
    requires
        i < ws.len(),
        fits_at(t, ws, i, p, qs),
    ensures
        fits_at(t, ws, i + 1, qs[0] + ws[i].len(), qs.drop_first()),
        occurs_at(t, ws[i], qs[0]),
        p <= qs[0],
{
    let r = qs.drop_first();
    assert(occurs_at(t, ws[i + 0], qs[0]));
    assert forall|k: int| 0 <= k < r.len() implies occurs_at(t, ws[i + 1 + k], #[trigger] r[k]) by {
        assert(r[k] == qs[k + 1]);
        assert(occurs_at(t, ws[i + (k + 1)], qs[k + 1]));
    }
    if r.len() > 0 {
        assert(qs[1 - 1] + ws[i + 1 - 1].len() <= qs[1]);
    }
    assert forall|k: int| 0 < k < r.len() implies r[k - 1] + ws[i + 1 + k - 1].len() <= #[trigger] r[k] by {
        assert(r[k] == qs[k + 1] && r[k - 1] == qs[k]);
        assert(qs[(k + 1) - 1] + ws[i + (k + 1) - 1].len() <= qs[k + 1]);
    }
}

/// A place of a part, followed by places of the parts after it.
proof fn lemma_fits_at_cons(t: Seq<char>, ws: Seq<Seq<char>>, i: int, p: int, q: int, rest: Seq<int>)
    requires
        0 <= i < ws.len(),
        p <= q,
        occurs_at(t, ws[i], q),
        fits_at(t, ws, i + 1, q + ws[i].len(), rest),
    ensures
        fits_at(t, ws, i, p, seq![q] + rest),
{
    let qs = seq![q] + rest;
    assert forall|k: int| 0 <= k < qs.len() implies occurs_at(t, ws[i + k], #[trigger] qs[k]) by {
        if k > 0 {
            assert(qs[k] == rest[k - 1]);
            assert(occurs_at(t, ws[i + 1 + (k - 1)], rest[k - 1]));
        }
    }
    assert forall|k: int| 0 < k < qs.len() implies qs[k - 1] + ws[i + k - 1].len() <= #[trigger] qs[k] by {
        assert(qs[k] == rest[k - 1]);
        if k > 1 {
            assert(qs[k - 1] == rest[k - 2]);
            assert(rest[(k - 1) - 1] + ws[i + 1 + (k - 1) - 1].len() <= rest[k - 1]);
        }
    }
}

/// Starting earlier never hurts.
proof fn lemma_fits_from_earlier(t: Seq<char>, ws: Seq<Seq<char>>, i: int, p1: int, p2: int)
    requires
        p1 <= p2,
        fits_from(t, ws, i, p2),
    ensures
        fits_from(t, ws, i, p1),
{
    let qs = choose|qs: Seq<int>| fits_at(t, ws, i, p2, qs);
    assert(fits_at(t, ws, i, p1, qs));
}

/// What `first_occurrence_from` gives is an occurrence at or after `from`.
proof fn lemma_first_occurrence_some(sup: Seq<char>, sub: Seq<char>, from: int)
    requires
        first_occurrence_from(sup, sub, from) is Some,
    ensures
        first_occurrence_from(sup, sub, from) matches Some(k) && from <= k && occurs_at(sup, sub, k),
{
    let q = choose|i: int| from <= i && occurs_at(sup, sub, i);
    lemma_first_occurrence(sup, sub, from, q);
}

proof fn lemma_fits_then_after_first(t: Seq<char>, ws: Seq<Seq<char>>, i: int, p: int, k: int)
    requires
        0 <= i < ws.len(),
        first_occurrence_from(t, ws[i], p) == Some(k),
        fits_from(t, ws, i, p),
    ensures
        fits_from(t, ws, i + 1, k + ws[i].len()),
{
    let qs = choose|qs: Seq<int>| fits_at(t, ws, i, p, qs);
    lemma_fits_at_rest(t, ws, i, p, qs);
    lemma_first_occurrence(t, ws[i], p, qs[0]);
    let q = qs[0];
    assert(fits_from(t, ws, i + 1, q + ws[i].len()));
    lemma_fits_from_earlier(t, ws, i + 1, k + ws[i].len(), q + ws[i].len());
}

proof fn lemma_first_then_fits(t: Seq<char>, ws: Seq<Seq<char>>, i: int, p: int, k: int)
    requires
        0 <= i < ws.len(),
        first_occurrence_from(t, ws[i], p) == Some(k),
        fits_from(t, ws, i + 1, k + ws[i].len()),
    ensures
        fits_from(t, ws, i, p),
{
    lemma_first_occurrence_some(t, ws[i], p);
    let rest = choose|qs: Seq<int>| #[trigger] fits_at(t, ws, i + 1, k + ws[i].len(), qs);
    lemma_fits_at_cons(t, ws, i, p, k, rest);
}

proof fn lemma_leftmost_found(t: Seq<char>, ws: Seq<Seq<char>>, i: int, p: int, k: int)
    requires
        0 <= i < ws.len(),
        first_occurrence_from(t, ws[i], p) == Some(k),
        leftmost_fits(t, ws, i + 1, k + ws[i].len()) <==> fits_from(t, ws, i + 1, k + ws[i].len()),
    ensures
        leftmost_fits(t, ws, i, p) <==> fits_from(t, ws, i, p),
{
    if fits_from(t, ws, i, p) {
        lemma_fits_then_after_first(t, ws, i, p, k);
    }
    if leftmost_fits(t, ws, i, p) {
        lemma_first_then_fits(t, ws, i, p, k);
    }
}

proof fn lemma_leftmost_missing(t: Seq<char>, ws: Seq<Seq<char>>, i: int, p: int)
    requires
        0 <= i < ws.len(),
        first_occurrence_from(t, ws[i], p) is None,
    ensures
        !leftmost_fits(t, ws, i, p),
        !fits_from(t, ws, i, p),
{
    if fits_from(t, ws, i, p) {
        let qs = choose|qs: Seq<int>| fits_at(t, ws, i, p, qs);
        lemma_fits_at_rest(t, ws, i, p, qs);
        lemma_first_occurrence(t, ws[i], p, qs[0]);
    }
}

/// Taking the first occurrence of each part finds the parts exactly when
/// they can be found one after the other at all.
pub proof fn lemma_leftmost_is_complete(t: Seq<char>, ws: Seq<Seq<char>>, i: int, p: int)
    requires
        0 <= i <= ws.len(),
    ensures
        leftmost_fits(t, ws, i, p) <==> fits_from(t, ws, i, p),
    decreases ws.len() - i,
{
    if i == ws.len() {
        assert(fits_at(t, ws, i, p, Seq::<int>::empty()));
    }
    if 0 <= i < ws.len() {
        match first_occurrence_from(t, ws[i], p) {
            Some(k) => {
                lemma_leftmost_is_complete(t, ws, i + 1, k + ws[i].len());
                lemma_leftmost_found(t, ws, i, p, k);
            },
            None => {
                lemma_leftmost_missing(t, ws, i, p);
            },
        }
    }
}

/// The texts of the parts.
pub open spec fn part_texts(ps: Seq<PrimV>) -> Seq<Seq<char>> {
    ps.map_values(|x: PrimV| prim_text(x))
}

proof fn lemma_wgaps(cx: CtxV, parts: Seq<ValueReference>, ps: Seq<PrimV>, i: int, acc: Seq<PrimV>, t: Seq<char>, p: int, fexp: Option<ValueReference>)
    requires
        0 <= i <= parts.len(),
        ps.len() == parts.len(),
        forall|k: int| 0 <= k < parts.len() ==> sp_ref(cx, #[trigger] parts[k], |a: AnyV| cast_prim(a)) == FlowV::Done(ps[k]),
    ensures
        sp_wgaps(cx, parts, i, acc, t, p, fexp) matches FlowV::Done(c) ==> (c.fulfilled is Ok <==> leftmost_fits(t, part_texts(ps), i, p)),
        leftmost_fits(t, part_texts(ps), i, p) ==> (sp_wgaps(cx, parts, i, acc, t, p, fexp) matches FlowV::Done(c) && c.fulfilled is Ok),
    decreases parts.len() - i,
{
    if i < parts.len() {
        assert(sp_ref(cx, parts[i], |a: AnyV| cast_prim(a)) == FlowV::Done(ps[i]));
        assert(part_texts(ps)[i] == prim_text(ps[i]));
        match first_occurrence_from(t, prim_text(ps[i]), p) {
            Some(k) => {
                lemma_wgaps(cx, parts, ps, i + 1, acc.push(ps[i]), t, k + prim_text(ps[i]).len(), fexp);
            },
            None => {},
        }
    }
}

/// A text contains parts with gaps exactly when each part can be found in
/// it at or after the end of the one before: the criterion is fulfilled
/// then, and otherwise (where it gives a result) not.
pub proof fn lemma_contain_with_gaps(cx: CtxV, parts: Seq<ValueReference>, sup: ValueReference, fexp: Option<ValueReference>, t: Seq<char>, ps: Seq<PrimV>)
    requires
        sp_ref(cx, sup, |a: AnyV| cast_text(a)) == FlowV::Done(t),
        ps.len() == parts.len(),
        forall|k: int| 0 <= k < parts.len() ==> sp_ref(cx, #[trigger] parts[k], |a: AnyV| cast_prim(a)) == FlowV::Done(ps[k]),
    ensures
        sp_contain_with_gaps(cx, parts, sup, fexp) matches FlowV::Done(c) ==> (c.fulfilled is Ok <==> fits_from(t, part_texts(ps), 0, 0)),
        fits_from(t, part_texts(ps), 0, 0) ==> (sp_contain_with_gaps(cx, parts, sup, fexp) matches FlowV::Done(c) && c.fulfilled is Ok),
{
    lemma_wgaps(cx, parts, ps, 0, Seq::empty(), t, 0, fexp);
    lemma_leftmost_is_complete(t, part_texts(ps), 0, 0);
}


// ---------------------------------------------------------------------------
// Failure explanations
// ---------------------------------------------------------------------------

/// The failure explanation that a criterion entity names.
pub open spec fn fexp_of(e: CriterionEntity) -> Option<ValueReference> {
    match e {
        CriterionEntity::Negated { failure_explaination, .. } => failure_explaination,
        CriterionEntity::AnyOf { failure_explaination, .. } => failure_explaination,
        CriterionEntity::AllOf { failure_explaination, .. } => failure_explaination,
        CriterionEntity::ContainOnlynum { failure_explaination, .. } => failure_explaination,
        CriterionEntity::ContainNum { failure_explaination, .. } => failure_explaination,
        CriterionEntity::ContainText { failure_explaination, .. } => failure_explaination,
        CriterionEntity::ContainWithGaps { failure_explaination, .. } => failure_explaination,
        CriterionEntity::MatchesRegex { failure_explaination, .. } => failure_explaination,
        CriterionEntity::GreaterThen { failure_explaination, .. } => failure_explaination,
        CriterionEntity::LowerThen { failure_explaination, .. } => failure_explaination,
        CriterionEntity::GreaterEqual { failure_explaination, .. } => failure_explaination,
        CriterionEntity::LowerEqual { failure_explaination, .. } => failure_explaination,
        CriterionEntity::NotEqual { failure_explaination, .. } => failure_explaination,
        CriterionEntity::Equal { failure_explaination, .. } => failure_explaination,
        CriterionEntity::Catch { failure_explaination, .. } => failure_explaination,
        CriterionEntity::IfThenElse { failure_explaination, .. } => failure_explaination,
    }
}

/// The same criterion entity without a failure explanation.
pub open spec fn without_fexp(e: CriterionEntity) -> CriterionEntity {
    match e {
        CriterionEntity::Negated { clause, .. } => CriterionEntity::Negated { failure_explaination: None, clause },
        CriterionEntity::AnyOf { clauses, .. } => CriterionEntity::AnyOf { failure_explaination: None, clauses },
        CriterionEntity::AllOf { clauses, .. } => CriterionEntity::AllOf { failure_explaination: None, clauses },
        CriterionEntity::ContainOnlynum { sub, sup, .. } => CriterionEntity::ContainOnlynum { failure_explaination: None, sub, sup },
        CriterionEntity::ContainNum { sub, sup, .. } => CriterionEntity::ContainNum { failure_explaination: None, sub, sup },
        CriterionEntity::ContainText { sub, sup, .. } => CriterionEntity::ContainText { failure_explaination: None, sub, sup },
        CriterionEntity::ContainWithGaps { parts, sup, .. } => CriterionEntity::ContainWithGaps { failure_explaination: None, parts, sup },
        CriterionEntity::MatchesRegex { pattern, sup, .. } => CriterionEntity::MatchesRegex { failure_explaination: None, pattern, sup },
        CriterionEntity::GreaterThen { left, right, .. } => CriterionEntity::GreaterThen { failure_explaination: None, left, right },
        CriterionEntity::LowerThen { left, right, .. } => CriterionEntity::LowerThen { failure_explaination: None, left, right },
        CriterionEntity::GreaterEqual { left, right, .. } => CriterionEntity::GreaterEqual { failure_explaination: None, left, right },
        CriterionEntity::LowerEqual { left, right, .. } => CriterionEntity::LowerEqual { failure_explaination: None, left, right },
        CriterionEntity::NotEqual { left, right, .. } => CriterionEntity::NotEqual { failure_explaination: None, left, right },
        CriterionEntity::Equal { left, right, .. } => CriterionEntity::Equal { failure_explaination: None, left, right },
        CriterionEntity::Catch { criterion, error, only_if, default_value, action, .. } => CriterionEntity::Catch {
            failure_explaination: None,
            criterion,
            error,
            only_if,
            default_value,
            action,
        },
        CriterionEntity::IfThenElse { if_, then_, else_, .. } => CriterionEntity::IfThenElse { failure_explaination: None, if_, then_, else_ },
    }
}

/// The result of a criterion fits its explanation: `ok` when it is
/// fulfilled and then equal to the result without the explanation (which
/// is not read); when it is not fulfilled and the explanation reads as `t`,
/// it carries `t`.
pub open spec fn explained(r: FlowV<CritV>, r_without: FlowV<CritV>, t: Option<Seq<char>>) -> bool {
    &&& (r matches FlowV::Done(c) && c.fulfilled is Ok) ==> r_without == r
    &&& (r matches FlowV::Done(c) && c.fulfilled is Err && t is Some) ==> r == FlowV::Done(CritV { fulfilled: Err(t), inner: r->Done_0.inner })
}

proof fn lemma_any_of_explained(cx: CtxV, ids: Seq<u64>, i: int, acc: Seq<MaybeV<CritV>>, fexp: Option<ValueReference>, t: Option<Seq<char>>)
    requires
        t is Some ==> sp_fexp(cx, fexp) == FlowV::Done(t),
    ensures
        explained(sp_any_of(cx, ids, i, acc, fexp), sp_any_of(cx, ids, i, acc, None), t),
    decreases ids.len() - i,
{
    if 0 <= i < ids.len() {
        lemma_any_of_explained(cx, ids, i + 1, acc.push(MaybeV::Evaluated(sp_id(cx, ids[i], |a: AnyV| cast_crit(a))->Done_0)), fexp, t);
    }
}

proof fn lemma_all_of_explained(cx: CtxV, ids: Seq<u64>, i: int, acc: Seq<MaybeV<CritV>>, fexp: Option<ValueReference>, t: Option<Seq<char>>)
    requires
        t is Some ==> sp_fexp(cx, fexp) == FlowV::Done(t),
    ensures
        explained(sp_all_of(cx, ids, i, acc, fexp), sp_all_of(cx, ids, i, acc, None), t),
    decreases ids.len() - i,
{
    if 0 <= i < ids.len() {
        lemma_all_of_explained(cx, ids, i + 1, acc.push(MaybeV::Evaluated(sp_id(cx, ids[i], |a: AnyV| cast_crit(a))->Done_0)), fexp, t);
    }
}

proof fn lemma_wgaps_explained(cx: CtxV, parts: Seq<ValueReference>, i: int, acc: Seq<PrimV>, text: Seq<char>, p: int, fexp: Option<ValueReference>, t: Option<Seq<char>>)
    requires
        t is Some ==> sp_fexp(cx, fexp) == FlowV::Done(t),
    ensures
        explained(sp_wgaps(cx, parts, i, acc, text, p, fexp), sp_wgaps(cx, parts, i, acc, text, p, None), t),
    decreases parts.len() - i,
{
    if 0 <= i < parts.len() {
        let part = sp_ref(cx, parts[i], |a: AnyV| cast_prim(a))->Done_0;
        match first_occurrence_from(text, prim_text(part), p) {
            Some(k) => lemma_wgaps_explained(cx, parts, i + 1, acc.push(part), text, k + prim_text(part).len(), fexp, t),
            None => {},
        }
    }
}

/// Every criterion treats its failure explanation alike: a fulfilled
/// criterion has none and does not read it (its result is that of the same
/// criterion without one); a criterion that is not fulfilled, and whose
/// explanation reads as the text `t`, carries `t`.
pub proof fn lemma_failure_explanation(cx: CtxV, e: CriterionEntity, t: Option<Seq<char>>)
    requires
        t is Some ==> sp_fexp(cx, fexp_of(e)) == FlowV::Done(t),
    ensures
        explained(sp_criterion(cx, e).0, sp_criterion(cx, without_fexp(e)).0, t),
{
    match e {
        CriterionEntity::AnyOf { failure_explaination, clauses } => {
            lemma_any_of_explained(cx, crate::spec::eval::ids_of(clauses@), 0, Seq::empty(), failure_explaination, t);
        },
        CriterionEntity::AllOf { failure_explaination, clauses } => {
            lemma_all_of_explained(cx, crate::spec::eval::ids_of(clauses@), 0, Seq::empty(), failure_explaination, t);
        },
        CriterionEntity::ContainWithGaps { failure_explaination, parts, sup } => {
            match sp_ref(cx, sup, |a: AnyV| cast_text(a)) {
                FlowV::Done(text) => lemma_wgaps_explained(cx, parts@, 0, Seq::empty(), text, 0, failure_explaination, t),
                _ => {},
            }
        },
        _ => {},
    }
}


// ---------------------------------------------------------------------------
// Containing a text
// ---------------------------------------------------------------------------

/// A text criterion is fulfilled exactly when the text of `sub` occurs in
/// `sup` at some position, the very first one included; where it occurs
/// nowhere, the criterion is not fulfilled.
pub proof fn lemma_contain_text_occurrence(
    cx: CtxV,
    sub: ValueReference,
    sup: ValueReference,
    fexp: Option<ValueReference>,
    p: PrimV,
    t: Seq<char>,
)
    requires
        sp_ref(cx, sub, |a: AnyV| cast_prim(a)) == FlowV::Done(p),
        sp_ref(cx, sup, |a: AnyV| cast_text(a)) == FlowV::Done(t),
    ensures
        ({
            let r = sp_criterion(cx, (CriterionEntity::ContainText { failure_explaination: fexp, sub, sup })).0;
            let w = prim_text(p);
            &&& (exists|i: int| 0 <= i && i + w.len() <= t.len() && #[trigger] t.subrange(i, i + w.len()) == w)
                ==> (r matches FlowV::Done(c) && c.fulfilled is Ok)
            &&& (forall|i: int| 0 <= i && i + w.len() <= t.len() ==> #[trigger] t.subrange(i, i + w.len()) != w)
                ==> (r matches FlowV::Done(c) ==> c.fulfilled is Err)
            &&& fexp is None ==> r is Done
        }),
{
    let w = prim_text(p);
    if exists|i: int| 0 <= i && i + w.len() <= t.len() && #[trigger] t.subrange(i, i + w.len()) == w {
        let i = choose|i: int| 0 <= i && i + w.len() <= t.len() && #[trigger] t.subrange(i, i + w.len()) == w;
        assert(occurs_at(t, w, i));
    }
    if forall|i: int| 0 <= i && i + w.len() <= t.len() ==> #[trigger] t.subrange(i, i + w.len()) != w {
        assert forall|i: int| !occurs_at(t, w, i) by {
            if 0 <= i && i + w.len() <= t.len() {
                assert(t.subrange(i, i + w.len()) != w);
            }
        }
    }
}

/// A text contains every text that it starts with.
pub proof fn lemma_contain_text_prefix(
    cx: CtxV,
    sub: ValueReference,
    sup: ValueReference,
    fexp: Option<ValueReference>,
    p: PrimV,
    rest: Seq<char>,
)
    requires
        sp_ref(cx, sub, |a: AnyV| cast_prim(a)) == FlowV::Done(p),
        sp_ref(cx, sup, |a: AnyV| cast_text(a)) == FlowV::Done(prim_text(p) + rest),
    ensures
        sp_criterion(cx, (CriterionEntity::ContainText { failure_explaination: fexp, sub, sup })).0 matches FlowV::Done(c)
            && c.fulfilled is Ok,
{
    let w = prim_text(p);
    let t = w + rest;
    let zero: int = 0;
    assert(t.subrange(zero, zero + w.len()) =~= w);
    lemma_contain_text_occurrence(cx, sub, sup, fexp, p, t);
}

// ---------------------------------------------------------------------------
// Conditional values
// ---------------------------------------------------------------------------

#[verifier::rlimit(50)]
proof fn lemma_value_ite_is(cx: CtxV, if_: EntityId<CriterionEntity>, then_: ValueReference, else_: ValueReference)
    ensures
        sp_value(cx, (ValueEntity::IfThenElse { if_, then_, else_ })).0 == sp_value_if_then_else(cx, if_.0, then_, else_),
{
}

proof fn lemma_value_ite_branch(cx: CtxV, if_: EntityId<CriterionEntity>, then_: ValueReference, else_: ValueReference, c: CritV)
    requires
        sp_id(cx, if_.0, |a: AnyV| cast_crit(a)) == FlowV::Done(c),
    ensures
        sp_value_if_then_else(cx, if_.0, then_, else_)
            == sp_ref(cx, if c.fulfilled is Ok { then_ } else { else_ }, |a: AnyV| cast_value(a)),
{
}

/// A conditional value is the value of `then_` when its condition is
/// fulfilled, whatever `else_` is, and the value of `else_` when it is not,
/// whatever `then_` is.
pub proof fn lemma_value_if_then_else(
    cx: CtxV,
    if_: EntityId<CriterionEntity>,
    then_: ValueReference,
    else_: ValueReference,
    other: ValueReference,
    c: CritV,
)
    requires
        sp_id(cx, if_.0, |a: AnyV| cast_crit(a)) == FlowV::Done(c),
    ensures
        c.fulfilled is Ok ==> sp_value(cx, (ValueEntity::IfThenElse { if_, then_, else_ })).0
            == sp_ref(cx, then_, |a: AnyV| cast_value(a)),
        c.fulfilled is Ok ==> sp_value(cx, (ValueEntity::IfThenElse { if_, then_, else_ })).0
            == sp_value(cx, (ValueEntity::IfThenElse { if_, then_, else_: other })).0,
        c.fulfilled is Err ==> sp_value(cx, (ValueEntity::IfThenElse { if_, then_, else_ })).0
            == sp_ref(cx, else_, |a: AnyV| cast_value(a)),
        c.fulfilled is Err ==> sp_value(cx, (ValueEntity::IfThenElse { if_, then_, else_ })).0
            == sp_value(cx, (ValueEntity::IfThenElse { if_, then_: other, else_ })).0,
{
    lemma_value_ite_is(cx, if_, then_, else_);
    lemma_value_ite_is(cx, if_, then_, other);
    lemma_value_ite_is(cx, if_, other, else_);
    lemma_value_ite_branch(cx, if_, then_, else_, c);
    lemma_value_ite_branch(cx, if_, then_, other, c);
    lemma_value_ite_branch(cx, if_, other, else_, c);
}

/// A conditional criterion is fulfilled exactly when the branch that its
/// condition selects is: `then_` when the condition is fulfilled, `else_`
/// when it is not.
pub proof fn lemma_criterion_if_then_else(
    cx: CtxV,
    if_: EntityId<CriterionEntity>,
    then_: EntityId<CriterionEntity>,
    else_: EntityId<CriterionEntity>,
    fexp: Option<ValueReference>,
    c: CritV,
    b: CritV,
)
    requires
        sp_id(cx, if_.0, |a: AnyV| cast_crit(a)) == FlowV::Done(c),
        sp_id(cx, if c.fulfilled is Ok { then_.0 } else { else_.0 }, |a: AnyV| cast_crit(a)) == FlowV::Done(b),
    ensures
        sp_criterion(cx, (CriterionEntity::IfThenElse { failure_explaination: fexp, if_, then_, else_ })).0 matches FlowV::Done(r)
            ==> (r.fulfilled is Ok <==> b.fulfilled is Ok),
        b.fulfilled is Ok ==> (sp_criterion(cx, (CriterionEntity::IfThenElse { failure_explaination: fexp, if_, then_, else_ })).0 matches FlowV::Done(r)
            && r.fulfilled is Ok),
{
}


// ---------------------------------------------------------------------------
// Comparing texts
// ---------------------------------------------------------------------------

/// `a` comes before `b` in the order of `str`: after a common beginning of
/// length `k`, either `a` ends and `b` does not, or the next character of
/// `a` is smaller.
pub open spec fn lex_less(a: Seq<char>, b: Seq<char>) -> bool {
    exists|k: int|
        0 <= k <= a.len() && k <= b.len() && #[trigger] a.take(k) == b.take(k) && ((k == a.len() && k < b.len()) || (
        k < a.len() && k < b.len() && a[k] < b[k]))
}

/// What a comparison of two texts says.
pub open spec fn text_relation(op: CompareOp, a: Seq<char>, b: Seq<char>) -> bool {
    match op {
        CompareOp::Equal => a == b,
        CompareOp::NotEqual => a != b,
        CompareOp::LowerThen => lex_less(a, b),
        CompareOp::LowerEqual => lex_less(a, b) || a == b,
        CompareOp::GreaterThen => !lex_less(a, b) && a != b,
        CompareOp::GreaterEqual => !lex_less(a, b),
    }
}

/// The comparison criterion entity for `op`.
pub open spec fn comparison_entity(op: CompareOp, fexp: Option<ValueReference>, left: ValueReference, right: ValueReference) -> CriterionEntity {
    match op {
        CompareOp::Equal => CriterionEntity::Equal { failure_explaination: fexp, left, right },
        CompareOp::NotEqual => CriterionEntity::NotEqual { failure_explaination: fexp, left, right },
        CompareOp::LowerThen => CriterionEntity::LowerThen { failure_explaination: fexp, left, right },
        CompareOp::LowerEqual => CriterionEntity::LowerEqual { failure_explaination: fexp, left, right },
        CompareOp::GreaterThen => CriterionEntity::GreaterThen { failure_explaination: fexp, left, right },
        CompareOp::GreaterEqual => CriterionEntity::GreaterEqual { failure_explaination: fexp, left, right },
    }
}

/// `chars_lt` is the order of `str`.
pub proof fn lemma_chars_lt_is_lex(a: Seq<char>, b: Seq<char>)
    ensures
        chars_lt(a, b) <==> lex_less(a, b),
{
    lemma_lcp(a, b);
    let i = lcp(a, b) as int;
    if chars_lt(a, b) {
        assert(a.take(i) =~= b.take(i));
    }
    if lex_less(a, b) {
        let k = choose|k: int|
            0 <= k <= a.len() && k <= b.len() && #[trigger] a.take(k) == b.take(k) && ((k == a.len() && k < b.len()) || (
            k < a.len() && k < b.len() && a[k] < b[k]));
        assert forall|j: int| 0 <= j < k implies a[j] == b[j] by {
            assert(a.take(k)[j] == b.take(k)[j]);
        }
        lemma_lcp_is(a, b, k);
    }
}

#[verifier::rlimit(50)]
proof fn lemma_comparison_entity_is(cx: CtxV, op: CompareOp, fexp: Option<ValueReference>, left: ValueReference, right: ValueReference)
    ensures
        sp_criterion(cx, comparison_entity(op, fexp, left, right)).0 == sp_comparison(cx, op, left, right, fexp),
{
}

/// A comparison criterion on two texts is fulfilled exactly when the texts
/// stand in the relation it names: equal, different, or in the order of
/// `str` (left operand first); it gives a result whenever it has no
/// failure explanation to read.
pub proof fn lemma_text_comparison(
    cx: CtxV,
    op: CompareOp,
    fexp: Option<ValueReference>,
    left: ValueReference,
    right: ValueReference,
    a: Seq<char>,
    b: Seq<char>,
)
    requires
        sp_ref(cx, left, |x: AnyV| cast_prim(x)) == FlowV::Done(PrimV::Str(a)),
        sp_ref(cx, right, |x: AnyV| cast_prim(x)) == FlowV::Done(PrimV::Str(b)),
    ensures
        sp_criterion(cx, comparison_entity(op, fexp, left, right)).0 matches FlowV::Done(c)
            ==> (c.fulfilled is Ok <==> text_relation(op, a, b)),
        fexp is None ==> sp_criterion(cx, comparison_entity(op, fexp, left, right)).0 is Done,
        text_relation(op, a, b) ==> (sp_criterion(cx, comparison_entity(op, fexp, left, right)).0 matches FlowV::Done(c)
            && c.fulfilled is Ok),
{
    lemma_comparison_entity_is(cx, op, fexp, left, right);
    lemma_chars_lt_is_lex(a, b);
}


// ---------------------------------------------------------------------------
// Containing numbers
// ---------------------------------------------------------------------------

#[verifier::rlimit(50)]
proof fn lemma_contain_num_unfold(cx: CtxV, fexp: Option<ValueReference>, sub: ValueReference, sup: ValueReference)
    ensures
        sp_criterion(cx, (CriterionEntity::ContainNum { failure_explaination: fexp, sub, sup })).0 == sp_contain_num(cx, false, sub, sup, fexp),
        sp_criterion(cx, (CriterionEntity::ContainOnlynum { failure_explaination: fexp, sub, sup })).0 == sp_contain_num(cx, true, sub, sup, fexp),
{
}

/// A number criterion asks which numbers the text holds (all that are
/// written in it) and whether the number is among them; it is fulfilled
/// when it is, and the "only" form when besides it is the only one.
pub proof fn lemma_contain_number(
    cx: CtxV,
    fexp: Option<ValueReference>,
    sub: ValueReference,
    sup: ValueReference,
    n: NumV,
    t: Seq<char>,
    found: Seq<NumV>,
    contains: bool,
)
    requires
        sp_ref(cx, sub, |a: AnyV| cast_num(a)) == FlowV::Done(n),
        sp_ref(cx, sup, |a: AnyV| cast_text(a)) == FlowV::Done(t),
    ensures
        cx.answer is None ==> sp_criterion(cx, (CriterionEntity::ContainNum { failure_explaination: fexp, sub, sup })).0
            == FlowV::<CritV>::Need(QueryV::Numeric(TaskV::ContainsNumber(n, find_numbers_spec(t)))),
        cx.answer == Some(AnswerV::Found(found, contains)) ==> {
            &&& sp_criterion(cx, (CriterionEntity::ContainNum { failure_explaination: fexp, sub, sup })).0 matches FlowV::Done(c)
                ==> (c.fulfilled is Ok <==> contains)
            &&& sp_criterion(cx, (CriterionEntity::ContainOnlynum { failure_explaination: fexp, sub, sup })).0 matches FlowV::Done(c)
                ==> (c.fulfilled is Ok <==> (contains && found.len() == 1))
            &&& contains ==> (sp_criterion(cx, (CriterionEntity::ContainNum { failure_explaination: fexp, sub, sup })).0 matches FlowV::Done(c)
                && c.fulfilled is Ok)
        },
{
    lemma_contain_num_unfold(cx, fexp, sub, sup);
}

// ---------------------------------------------------------------------------
// Regular expressions
// ---------------------------------------------------------------------------

#[verifier::rlimit(50)]
proof fn lemma_matches_regex_unfold(cx: CtxV, fexp: Option<ValueReference>, pattern: ValueReference, sup: ValueReference)
    ensures
        sp_criterion(cx, (CriterionEntity::MatchesRegex { failure_explaination: fexp, pattern, sup })).0 == sp_matches_regex(cx, pattern, sup, fexp),
{
}

/// A regular expression criterion on a text is fulfilled exactly when the
/// expression matches the text; on an array, when it matches one of its
/// texts; an invalid expression is the error `regex_syntax`.
pub proof fn lemma_matches_regex(cx: CtxV, fexp: Option<ValueReference>, pattern: ValueReference, sup: ValueReference, p: Seq<char>, v: ValueV)
    requires
        sp_ref(cx, pattern, |a: AnyV| cast_text(a)) == FlowV::Done(p),
        sp_ref(cx, sup, |a: AnyV| cast_value(a)) == FlowV::Done(v),
    ensures
        !regex_valid(p) ==> sp_criterion(cx, (CriterionEntity::MatchesRegex { failure_explaination: fexp, pattern, sup })).0
            == FlowV::<CritV>::Catch(cerr::regex_syntax()),
        regex_valid(p) ==> match v {
            ValueV::Prim(PrimV::Str(t)) => {
                &&& sp_criterion(cx, (CriterionEntity::MatchesRegex { failure_explaination: fexp, pattern, sup })).0 matches FlowV::Done(c)
                    ==> (c.fulfilled is Ok <==> regex_is_match(p, t))
                &&& regex_is_match(p, t) ==> (sp_criterion(cx, (CriterionEntity::MatchesRegex { failure_explaination: fexp, pattern, sup })).0 matches FlowV::Done(c)
                    && c.fulfilled is Ok)
            },
            ValueV::Array(items) => sp_criterion(cx, (CriterionEntity::MatchesRegex { failure_explaination: fexp, pattern, sup })).0 matches FlowV::Done(c)
                ==> (c.fulfilled is Ok <==> exists|i: int| 0 <= i < items.len() && #[trigger] items[i] == ValueV::Prim(PrimV::Str(items[i]->Prim_0->Str_0))
                    && regex_is_match(p, items[i]->Prim_0->Str_0)),
            _ => sp_criterion(cx, (CriterionEntity::MatchesRegex { failure_explaination: fexp, pattern, sup })).0
                == FlowV::<CritV>::Catch(cerr::regex_invalidHaystack()),
        },
{
    lemma_matches_regex_unfold(cx, fexp, pattern, sup);
    if regex_valid(p) {
        match v {
            ValueV::Array(items) => {
                let hit = exists|i: int| 0 <= i < items.len() && #[trigger] crate::spec::eval::str_hit(p, items[i]);
                let direct = exists|i: int| 0 <= i < items.len() && #[trigger] items[i] == ValueV::Prim(PrimV::Str(items[i]->Prim_0->Str_0))
                    && regex_is_match(p, items[i]->Prim_0->Str_0);
                if hit {
                    let i = choose|i: int| 0 <= i < items.len() && #[trigger] crate::spec::eval::str_hit(p, items[i]);
                    assert(items[i] == ValueV::Prim(PrimV::Str(items[i]->Prim_0->Str_0)));
                }
                if direct {
                    let i = choose|i: int| 0 <= i < items.len() && #[trigger] items[i] == ValueV::Prim(PrimV::Str(items[i]->Prim_0->Str_0))
                        && regex_is_match(p, items[i]->Prim_0->Str_0);
                    assert(crate::spec::eval::str_hit(p, items[i]));
                }
            },
            _ => {},
        }
    }
}


/// A text that reads as an integer equals that integer, in either order,
/// and no other; `!=` says the opposite.
pub proof fn lemma_text_equals_integer(
    cx: CtxV,
    fexp: Option<ValueReference>,
    left: ValueReference,
    right: ValueReference,
    t: Seq<char>,
    i: i64,
    j: i64,
)
    requires
        parse_i64_spec(t) == Some(i),
        (sp_ref(cx, left, |x: AnyV| cast_prim(x)) == FlowV::Done(PrimV::Str(t))
            && sp_ref(cx, right, |x: AnyV| cast_prim(x)) == FlowV::Done(PrimV::Num(NumV::Int(j))))
        || (sp_ref(cx, left, |x: AnyV| cast_prim(x)) == FlowV::Done(PrimV::Num(NumV::Int(j)))
            && sp_ref(cx, right, |x: AnyV| cast_prim(x)) == FlowV::Done(PrimV::Str(t))),
    ensures
        sp_criterion(cx, comparison_entity(CompareOp::Equal, fexp, left, right)).0 matches FlowV::Done(c)
            ==> (c.fulfilled is Ok <==> i == j),
        sp_criterion(cx, comparison_entity(CompareOp::NotEqual, fexp, left, right)).0 matches FlowV::Done(c)
            ==> (c.fulfilled is Ok <==> i != j),
        fexp is None ==> sp_criterion(cx, comparison_entity(CompareOp::Equal, fexp, left, right)).0 is Done,
{
    lemma_comparison_entity_is(cx, CompareOp::Equal, fexp, left, right);
    lemma_comparison_entity_is(cx, CompareOp::NotEqual, fexp, left, right);
}

} // verus!
