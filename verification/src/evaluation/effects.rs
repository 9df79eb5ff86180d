//! What the actions of evaluations leave behind: flags and messages.
use vstd::prelude::*;

use crate::evaluation::selectable::{
    FlagData, MappingData, SelectableSource, flag_items, inserted, key_items_view,
};
use crate::evaluation::single_evaluation::FatalV;
use crate::features::Features;
use crate::messages::{AnyMessages, Messages, MsgType, MsgV, SentV, kept_msgs, msgs_sorted, sent_view, taken_msgs};
use crate::spec::entities::Selector;
use crate::spec::eval::QueryV;
use crate::spec::runtime::{ActV, AnyV, FatalError, RuntimeAction, RuntimeAny, SendMsgAction};
use crate::spec::values::ValueV;

verus! {

/// The messages that a list of actions sends, in order.
pub open spec fn sent_msgs(acts: Seq<ActV>) -> Seq<SentV>
    decreases acts.len(),
{
    if acts.len() == 0 {
        Seq::empty()
    } else {
        let rest = sent_msgs(acts.drop_last());
        match acts.last() {
            ActV::SendMsg(l, s, t) => rest.push((l, s, t)),
            _ => rest,
        }
    }
}

/// The flags that were set and the messages that were sent.
#[derive(Debug)]
pub struct Effects {
    pub flags: FlagData,
    pub messages: AnyMessages,
}

impl Clone for Effects {
    fn clone(&self) -> (r: Self)
        ensures
            r.flags@ == self.flags@,
            r.messages@ == self.messages@,
    {
        Effects { flags: self.flags.clone(), messages: self.messages.clone() }
    }
}

impl Effects {
    /// No flags, no messages.
    pub fn new() -> (r: Self)
        ensures
            r.flags@ == ValueV::Mapping(Seq::empty(), None),
            r.messages@ == Seq::<SentV>::empty(),
    {
        Effects { flags: MappingData::new(), messages: AnyMessages::new() }
    }

    /// Takes the effects of `other` in after these: its messages after these
    /// messages, its flags merged into these flags.
    pub fn append(&mut self, other: Effects)
        ensures
            final(self).messages@ == old(self).messages@ + other.messages@,
            final(self).flags@ == inserted(old(self).flags@, key_items_view(other.flags.entries())),
    {
        let Effects { flags: of, messages: om } = other;
        self.messages.extend(om.0);
        let m = of.into_mapping();
        self.flags.extend_keys(&m.mapping);
    }

    /// Takes out the messages for the level of `L` (and for the current
    /// level).
    pub fn take_messages<L: MsgType>(&mut self) -> (r: Messages<L>)
        ensures
            final(self).messages@ == kept_msgs(old(self).messages@, L::spec_level()),
            final(self).flags@ == old(self).flags@,
            msgs_sorted(r@),
            forall|x: MsgV| r@.contains(x) <==> taken_msgs(old(self).messages@, L::spec_level()).contains(x),
    {
        self.messages.drain_msg_of()
    }

    /// Takes in the effects of actions: flags are set, messages kept; an
    /// action that ends a test leaves nothing behind.
    pub fn extend(&mut self, actions: Vec<RuntimeAction>)
        ensures
            final(self).flags@ == inserted(old(self).flags@, flag_items(actions@.map_values(|a: RuntimeAction| a@))),
            final(self).messages@ == old(self).messages@ + sent_msgs(actions@.map_values(|a: RuntimeAction| a@)),
    {
        self.flags.extend_with_actions(&actions);
        let mut msgs: Vec<SendMsgAction> = Vec::new();
        let ghost acts = actions@.map_values(|a: RuntimeAction| a@);
        let mut i: usize = 0;
        while i < actions.len()
            invariant
                i <= actions@.len(),
                acts == actions@.map_values(|a: RuntimeAction| a@),
                msgs@.map_values(|a: SendMsgAction| sent_view(a)) == sent_msgs(acts.take(i as int)),
            decreases actions@.len() - i,
        {
            let ghost before = msgs@.map_values(|a: SendMsgAction| sent_view(a));
            assert(acts.take(i + 1).drop_last() =~= acts.take(i as int));
            match &actions[i] {
                RuntimeAction::SendMsg(m) => {
                    msgs.push(SendMsgAction { level: m.level, severity: m.severity, text: m.text.clone() });
                    assert(msgs@.map_values(|a: SendMsgAction| sent_view(a)) =~= before.push(sent_view(*m)));
                },
                _ => {
                    assert(msgs@.map_values(|a: SendMsgAction| sent_view(a)) =~= before);
                },
            }
            i = i + 1;
        }
        assert(acts.take(actions@.len() as int) =~= acts);
        self.messages.extend(msgs);
    }
}

/// Effects serve their flags.
impl SelectableSource for Effects {
    open spec fn spec_request(&self, q: QueryV, allowed: u32) -> Result<AnyV, FatalV> {
        self.flags.spec_request(q, allowed)
    }

    fn request(&self, selector: &Selector, allowed_features: Features) -> (r: Result<RuntimeAny, FatalError>) {
        self.flags.request(selector, allowed_features)
    }
}

} // verus!
