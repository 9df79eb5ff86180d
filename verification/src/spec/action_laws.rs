//! What holds of the evaluation of actions.
use vstd::prelude::*;

use crate::spec::entities::{
    ActionEntity, CriterionEntity, EndThisTestMode, EntityId, MessageSendingLevel, MessageSeverity,
    SetFlagMode, ValueReference,
};
use crate::spec::eval::{CtxV, FlowV, cast_action, cast_crit, cast_key, cast_prim, sp_action, sp_id, sp_ref};
use crate::spec::runtime::{ActV, AnyV, CritV};
use crate::spec::values::{KeyV, PrimV, prim_text};

verus! {

/// A message action sends the text of its value, at its level and with its
/// severity; an end action ends the test in its mode with the text of its
/// explanation.
pub proof fn lemma_send_and_end(
    cx: CtxV,
    text: ValueReference,
    severity: MessageSeverity,
    level: MessageSendingLevel,
    mode: EndThisTestMode,
    p: PrimV,
)
    requires
        sp_ref(cx, text, |a: AnyV| cast_prim(a)) == FlowV::Done(p),
    ensures
        sp_action(cx, (ActionEntity::SendMsg { text, severity, level })) == FlowV::Done(ActV::SendMsg(level, severity, prim_text(p))),
        sp_action(cx, (ActionEntity::EndThisTest { mode, explaination: text })) == FlowV::Done(ActV::EndThisTest(mode, prim_text(p))),
{
}

proof fn lemma_set_flag_from(
    cx: CtxV,
    mode: SetFlagMode,
    keys: Seq<ValueReference>,
    ks: Seq<KeyV>,
    i: int,
    acc: Seq<KeyV>,
    value: ValueReference,
    p: PrimV,
)
    requires
        0 <= i <= keys.len(),
        ks.len() == keys.len(),
        forall|k: int| 0 <= k < keys.len() ==> sp_ref(cx, #[trigger] keys[k], |a: AnyV| cast_key(a)) == FlowV::Done(ks[k]),
        sp_ref(cx, value, |a: AnyV| cast_prim(a)) == FlowV::Done(p),
    ensures
        crate::spec::eval::sp_set_flag(cx, mode, keys, i, acc, value) == FlowV::Done(ActV::SetFlag(mode, acc + ks.skip(i), p)),
    decreases keys.len() - i,
{
    if i < keys.len() {
        assert(sp_ref(cx, keys[i], |a: AnyV| cast_key(a)) == FlowV::Done(ks[i]));
        lemma_set_flag_from(cx, mode, keys, ks, i + 1, acc.push(ks[i]), value, p);
        assert(acc.push(ks[i]) + ks.skip(i + 1) =~= acc + ks.skip(i));
    } else {
        assert(acc + ks.skip(i) =~= acc);
    }
}

/// A flag action sets the path of its keys, in their order, to its value.
pub proof fn lemma_set_flag(cx: CtxV, e: ActionEntity, keys: Seq<ValueReference>, ks: Seq<KeyV>, p: PrimV)
    requires
        e matches ActionEntity::SetFlag { key, .. } && key@ == keys,
        ks.len() == keys.len(),
        forall|k: int| 0 <= k < keys.len() ==> sp_ref(cx, #[trigger] keys[k], |a: AnyV| cast_key(a)) == FlowV::Done(ks[k]),
        sp_ref(cx, e->SetFlag_value, |a: AnyV| cast_prim(a)) == FlowV::Done(p),
    ensures
        sp_action(cx, e) == FlowV::Done(ActV::SetFlag(e->SetFlag_mode, ks, p)),
{
    lemma_set_flag_from(cx, e->SetFlag_mode, keys, ks, 0, Seq::empty(), e->SetFlag_value, p);
    assert(Seq::<KeyV>::empty() + ks.skip(0) =~= ks);
}

/// A conditional action is the action `then_` when its condition is
/// fulfilled, whatever `else_` is, and the action `else_` when it is not.
pub proof fn lemma_action_if_then_else(
    cx: CtxV,
    if_: EntityId<CriterionEntity>,
    then_: EntityId<ActionEntity>,
    else_: EntityId<ActionEntity>,
    other: EntityId<ActionEntity>,
    c: CritV,
)
    requires
        sp_id(cx, if_.0, |a: AnyV| cast_crit(a)) == FlowV::Done(c),
    ensures
        c.fulfilled is Ok ==> sp_action(cx, (ActionEntity::IfThenElse { if_, then_, else_ }))
            == sp_id(cx, then_.0, |a: AnyV| cast_action(a)),
        c.fulfilled is Ok ==> sp_action(cx, (ActionEntity::IfThenElse { if_, then_, else_ }))
            == sp_action(cx, (ActionEntity::IfThenElse { if_, then_, else_: other })),
        c.fulfilled is Err ==> sp_action(cx, (ActionEntity::IfThenElse { if_, then_, else_ }))
            == sp_id(cx, else_.0, |a: AnyV| cast_action(a)),
        c.fulfilled is Err ==> sp_action(cx, (ActionEntity::IfThenElse { if_, then_, else_ }))
            == sp_action(cx, (ActionEntity::IfThenElse { if_, then_: other, else_ })),
{
}

} // verus!
