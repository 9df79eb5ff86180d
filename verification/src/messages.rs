//! Messages that evaluations send, collected per level of a specification.
use vstd::prelude::*;

use core::marker::PhantomData;

use crate::spec::entities::{MessageSendingLevel, MessageSeverity};
use crate::spec::runtime::SendMsgAction;
use crate::spec::text::Text;
use crate::spec::values::{KeyOrder, chars_lt, compare_text, lemma_chars_order};

verus! {

/// The model of a message: its severity and its text.
pub type MsgV = (MessageSeverity, Seq<char>);

/// The rank of a severity in the order of messages: errors first.
pub open spec fn severity_rank(s: MessageSeverity) -> int {
    match s {
        MessageSeverity::Error => 0,
        MessageSeverity::Warning => 1,
        MessageSeverity::Info => 2,
    }
}

/// The order of messages: by severity, then by text.
pub open spec fn msg_lt(a: MsgV, b: MsgV) -> bool {
    severity_rank(a.0) < severity_rank(b.0) || (a.0 == b.0 && chars_lt(a.1, b.1))
}

/// The order of messages is a strict total order.
pub proof fn lemma_msg_order(a: MsgV, b: MsgV, c: MsgV)
    ensures
        !msg_lt(a, a),
        msg_lt(a, b) ==> !msg_lt(b, a),
        a != b ==> msg_lt(a, b) || msg_lt(b, a),
        msg_lt(a, b) && msg_lt(b, c) ==> msg_lt(a, c),
{
    lemma_chars_order(a.1, b.1, c.1);
    lemma_chars_order(a.1, a.1, a.1);
    lemma_chars_order(b.1, a.1, a.1);
}

/// Whether the messages strictly increase (so none occurs twice).
pub open spec fn msgs_sorted(s: Seq<MsgV>) -> bool {
    forall|i: int, j: int| 0 <= i < j < s.len() ==> msg_lt(#[trigger] s[i], #[trigger] s[j])
}

/// A message for the level `Level`.
#[derive(Debug)]
pub struct Message<Level> {
    severity: MessageSeverity,
    text: Text,
    _phantom: PhantomData<Level>,
}

impl<Level> View for Message<Level> {
    type V = MsgV;

    closed spec fn view(&self) -> MsgV {
        (self.severity, self.text@)
    }
}

impl<L> Message<L> {
    /// The same message for another level.
    pub fn change_level<O>(self) -> (r: Message<O>)
        ensures
            r@ == self@,
    {
        Message { severity: self.severity, text: self.text, _phantom: PhantomData }
    }

    /// A message.
    pub fn new(severity: MessageSeverity, text: Text) -> (r: Self)
        ensures
            r@ == (severity, text@),
    {
        Message { severity, text, _phantom: PhantomData }
    }

    /// Its severity.
    pub fn severity(&self) -> (r: MessageSeverity)
        ensures
            r == self@.0,
    {
        self.severity
    }

    /// Its text.
    pub fn text(&self) -> (r: &Text)
        ensures
            r@ == self@.1,
    {
        &self.text
    }

    /// A copy.
    pub fn copy(&self) -> (r: Self)
        ensures
            r@ == self@,
    {
        Message { severity: self.severity, text: self.text.clone(), _phantom: PhantomData }
    }
}

fn severity_rank_exec(s: MessageSeverity) -> (r: u8)
    ensures
        r as int == severity_rank(s),
{
    match s {
        MessageSeverity::Error => 0,
        MessageSeverity::Warning => 1,
        MessageSeverity::Info => 2,
    }
}

/// Whether `a` comes before `b` in the order of messages.
fn msg_less<A, B>(a: &Message<A>, b: &Message<B>) -> (r: bool)
    ensures
        r == msg_lt(a@, b@),
{
    let ra = severity_rank_exec(a.severity);
    let rb = severity_rank_exec(b.severity);
    if ra < rb {
        true
    } else if ra == rb {
        compare_text(&a.text, &b.text) == KeyOrder::Less
    } else {
        false
    }
}

/// Whether two messages are equal.
fn msg_eq<A, B>(a: &Message<A>, b: &Message<B>) -> (r: bool)
    ensures
        r == (a@ == b@),
{
    a.severity == b.severity && a.text.text_eq(&b.text)
}

/// A set of messages for the level `Level`, in the order of messages.
#[derive(Debug)]
pub struct Messages<Level>(Vec<Message<Level>>);

impl<Level> View for Messages<Level> {
    type V = Seq<MsgV>;

    closed spec fn view(&self) -> Seq<MsgV> {
        self.0@.map_values(|m: Message<Level>| m@)
    }
}

impl<Level> Messages<Level> {
    #[verifier::type_invariant]
    closed spec fn sorted(&self) -> bool {
        msgs_sorted(self@)
    }

    /// No message.
    pub fn new() -> (r: Self)
        ensures
            r@ == Seq::<MsgV>::empty(),
    {
        let r = Messages(Vec::new());
        assert(r@ =~= Seq::<MsgV>::empty());
        r
    }

    /// The number of messages.
    pub fn len(&self) -> (r: usize)
        ensures
            r == self@.len(),
            msgs_sorted(self@),
    {
        proof {
            use_type_invariant(self);
        }
        self.0.len()
    }

    /// Adds a message; a message that is there already stays once.
    pub fn insert<A>(&mut self, m: Message<A>)
        ensures
            msgs_sorted(final(self)@),
            forall|x: MsgV| final(self)@.contains(x) <==> (old(self)@.contains(x) || x == m@),
    {
        proof {
            use_type_invariant(&*self);
        }
        let ghost s = self@;
        let mut i: usize = 0;
        while i < self.0.len() && msg_less(&self.0[i], &m)
            invariant
                i <= self.0@.len(),
                s == self@,
                msgs_sorted(s),
                forall|j: int| 0 <= j < i ==> msg_lt(#[trigger] s[j], m@),
            decreases self.0@.len() - i,
        {
            i = i + 1;
        }
        if i < self.0.len() && msg_eq(&self.0[i], &m) {
            proof {
                assert forall|x: MsgV| self@.contains(x) <==> (s.contains(x) || x == m@) by {
                    if x == m@ {
                        assert(s[i as int] == x);
                    }
                }
            }
            return;
        }
        let ghost mv = m@;
        proof {
            if i < s.len() {
                lemma_msg_order(s[i as int], mv, mv);
            }
        }
        let nm: Message<Level> = m.change_level();
        let mut nv: Vec<Message<Level>> = Vec::new();
        let mut k: usize = 0;
        while k < self.0.len()
            invariant
                k <= self.0@.len(),
                i <= self.0@.len(),
                s == self@,
                nm@ == mv,
                nv@.len() == if k <= i { k as int } else { k + 1 },
                forall|j: int| 0 <= j < nv@.len() ==> (#[trigger] nv@[j])@ == s.insert(i as int, mv)[j],
            decreases self.0@.len() - k,
        {
            if k == i {
                nv.push(nm.copy());
            }
            nv.push(self.0[k].copy());
            k = k + 1;
        }
        if k == i {
            nv.push(nm);
        }
        proof {
            let t = nv@.map_values(|m: Message<Level>| m@);
            assert(t =~= s.insert(i as int, mv));
            assert forall|a: int, b: int| 0 <= a < b < t.len() implies msg_lt(#[trigger] t[a], #[trigger] t[b]) by {
                if b < i {
                } else if a < i && b == i {
                } else if a < i && b > i {
                    assert(t[b] == s[b - 1]);
                    lemma_msg_order(s[a], mv, s[b - 1]);
                    if b - 1 > i {
                        lemma_msg_order(mv, s[i as int], s[b - 1]);
                    }
                } else if a == i {
                    assert(t[b] == s[b - 1]);
                    if b - 1 > i {
                        lemma_msg_order(mv, s[i as int], s[b - 1]);
                    }
                } else {
                    assert(t[a] == s[a - 1]);
                    assert(t[b] == s[b - 1]);
                }
            }
        }
        self.0 = nv;
        proof {
            let t = self@;
            assert(t =~= s.insert(i as int, mv));
            assert forall|x: MsgV| t.contains(x) <==> (s.contains(x) || x == mv) by {
                if s.contains(x) {
                    let k = choose|k: int| 0 <= k < s.len() && s[k] == x;
                    if k < i {
                        assert(t[k] == x);
                    } else {
                        assert(t[k + 1] == x);
                    }
                }
                if x == mv {
                    assert(t[i as int] == x);
                }
                if t.contains(x) {
                    let k = choose|k: int| 0 <= k < t.len() && t[k] == x;
                    if k < i {
                        assert(s[k] == x);
                    } else if k > i {
                        assert(s[k - 1] == x);
                    }
                }
            }
        }
    }

    /// Takes all messages out, in ascending order (by severity, then text);
    /// none stays.
    pub fn drain(&mut self) -> (r: Vec<Message<Level>>)
        ensures
            r@.map_values(|m: Message<Level>| m@) == old(self)@,
            msgs_sorted(r@.map_values(|m: Message<Level>| m@)),
            final(self)@ == Seq::<MsgV>::empty(),
    {
        proof {
            use_type_invariant(&*self);
        }
        let mut out: Vec<Message<Level>> = Vec::new();
        let mut i: usize = 0;
        while i < self.0.len()
            invariant
                i <= self.0@.len(),
                out@.len() == i,
                forall|j: int| 0 <= j < i ==> (#[trigger] out@[j])@ == self.0@[j]@,
            decreases self.0@.len() - i,
        {
            out.push(self.0[i].copy());
            i = i + 1;
        }
        assert(out@.map_values(|m: Message<Level>| m@) =~= self@);
        self.0 = Vec::new();
        assert(self@ =~= Seq::<MsgV>::empty());
        out
    }

    /// Takes all messages out, in ascending order, as messages for another
    /// level.
    pub fn cast_drain<O>(&mut self) -> (r: Vec<Message<O>>)
        ensures
            r@.map_values(|m: Message<O>| m@) == old(self)@,
            msgs_sorted(r@.map_values(|m: Message<O>| m@)),
            final(self)@ == Seq::<MsgV>::empty(),
    {
        let v = self.drain();
        let mut out: Vec<Message<O>> = Vec::new();
        let mut i: usize = 0;
        while i < v.len()
            invariant
                i <= v@.len(),
                out@.len() == i,
                forall|j: int| 0 <= j < i ==> (#[trigger] out@[j])@ == v@[j]@,
            decreases v@.len() - i,
        {
            out.push(v[i].copy().change_level());
            i = i + 1;
        }
        assert(out@.map_values(|m: Message<O>| m@) =~= v@.map_values(|m: Message<Level>| m@));
        out
    }

    /// Adds messages one after the other.
    pub fn extend<A>(&mut self, msgs: Vec<Message<A>>)
        ensures
            msgs_sorted(final(self)@),
            forall|x: MsgV| final(self)@.contains(x) <==> (old(self)@.contains(x) || msgs@.map_values(|m: Message<A>| m@).contains(x)),
    {
        let ghost s0 = self@;
        let ghost ms = msgs@.map_values(|m: Message<A>| m@);
        let mut i: usize = 0;
        while i < msgs.len()
            invariant
                i <= msgs@.len(),
                ms == msgs@.map_values(|m: Message<A>| m@),
                forall|x: MsgV| #[trigger] self@.contains(x) <==> (s0.contains(x) || ms.take(i as int).contains(x)),
            decreases msgs@.len() - i,
        {
            let ghost before = self@;
            let c = msgs[i].copy();
            assert(c@ == ms[i as int]);
            self.insert(c);
            proof {
                assert forall|x: MsgV| #[trigger] self@.contains(x) <==> (s0.contains(x) || ms.take(i + 1).contains(x)) by {
                    assert(self@.contains(x) <==> (before.contains(x) || x == c@));
                    assert(before.contains(x) <==> (s0.contains(x) || ms.take(i as int).contains(x)));
                    assert(ms.take(i + 1) =~= ms.take(i as int).push(ms[i as int]));
                    if ms.take(i as int).contains(x) {
                        let k = choose|k: int| 0 <= k < i && ms.take(i as int)[k] == x;
                        assert(ms.take(i + 1)[k] == x);
                    }
                    if x == ms[i as int] {
                        assert(ms.take(i + 1)[i as int] == x);
                    }
                    if ms.take(i + 1).contains(x) {
                        let tk1 = ms.take(i + 1);
                        let k = choose|k: int| 0 <= k < tk1.len() && tk1[k] == x;
                        if k < i {
                            assert(ms.take(i as int)[k] == x);
                        }
                    }
                }
            }
            i = i + 1;
        }
        proof {
            use_type_invariant(&*self);
            assert(ms.take(msgs@.len() as int) =~= ms);
        }
    }
}

// ---------------------------------------------------------------------------
// Messages of all levels
// ---------------------------------------------------------------------------

/// A kind of part of a specification that messages are sent to.
pub trait MsgType {
    /// The level of this kind.
    spec fn spec_level() -> MessageSendingLevel;

    /// The level of this kind.
    fn level() -> (r: MessageSendingLevel)
        ensures
            r == Self::spec_level(),
    ;
}

/// The model of a message that an action sends: its level, severity and
/// text.
pub type SentV = (MessageSendingLevel, MessageSeverity, Seq<char>);

/// Whether a message goes to the current level or to `level`.
pub open spec fn goes_to(m: SentV, level: MessageSendingLevel) -> bool {
    m.0 == MessageSendingLevel::Current || m.0 == level
}

/// The messages that do not go to `level`, in order.
pub open spec fn kept_msgs(s: Seq<SentV>, level: MessageSendingLevel) -> Seq<SentV>
    decreases s.len(),
{
    if s.len() == 0 {
        s
    } else if goes_to(s.last(), level) {
        kept_msgs(s.drop_last(), level)
    } else {
        kept_msgs(s.drop_last(), level).push(s.last())
    }
}

/// The messages that go to `level`, in order.
pub open spec fn taken_msgs(s: Seq<SentV>, level: MessageSendingLevel) -> Seq<MsgV>
    decreases s.len(),
{
    if s.len() == 0 {
        Seq::empty()
    } else if goes_to(s.last(), level) {
        taken_msgs(s.drop_last(), level).push((s.last().1, s.last().2))
    } else {
        taken_msgs(s.drop_last(), level)
    }
}

/// The model of a sent message.
pub open spec fn sent_view(a: SendMsgAction) -> SentV {
    (a.level, a.severity, a.text@)
}

/// The messages that actions sent, for all levels, in order.
#[derive(Debug)]
pub struct AnyMessages(pub Vec<SendMsgAction>);

impl View for AnyMessages {
    type V = Seq<SentV>;

    open spec fn view(&self) -> Seq<SentV> {
        self.0@.map_values(|a: SendMsgAction| sent_view(a))
    }
}

fn copy_sent(a: &SendMsgAction) -> (r: SendMsgAction)
    ensures
        sent_view(r) == sent_view(*a),
{
    SendMsgAction { level: a.level, severity: a.severity, text: a.text.clone() }
}

impl Clone for AnyMessages {
    fn clone(&self) -> (r: Self)
        ensures
            r@ == self@,
    {
        let mut out: Vec<SendMsgAction> = Vec::new();
        let mut i: usize = 0;
        while i < self.0.len()
            invariant
                i <= self.0@.len(),
                out@.len() == i,
                forall|j: int| 0 <= j < i ==> sent_view(#[trigger] out@[j]) == sent_view(self.0@[j]),
            decreases self.0@.len() - i,
        {
            out.push(copy_sent(&self.0[i]));
            i = i + 1;
        }
        let r = AnyMessages(out);
        assert(r@ =~= self@);
        r
    }
}

impl AnyMessages {
    /// No message.
    pub fn new() -> (r: Self)
        ensures
            r@ == Seq::<SentV>::empty(),
    {
        let r = AnyMessages(Vec::new());
        assert(r@ =~= Seq::<SentV>::empty());
        r
    }

    /// Adds messages at the end.
    pub fn extend(&mut self, msgs: Vec<SendMsgAction>)
        ensures
            final(self)@ == old(self)@ + msgs@.map_values(|a: SendMsgAction| sent_view(a)),
    {
        let mut m = msgs;
        self.0.append(&mut m);
        assert(self@ =~= old(self)@ + msgs@.map_values(|a: SendMsgAction| sent_view(a)));
    }

    /// Takes out the messages for the level of `T` and those for the current
    /// level; the others stay, in order.
    pub fn drain_msg_of<T: MsgType>(&mut self) -> (r: Messages<T>)
        ensures
            final(self)@ == kept_msgs(old(self)@, T::spec_level()),
            msgs_sorted(r@),
            forall|x: MsgV| r@.contains(x) <==> taken_msgs(old(self)@, T::spec_level()).contains(x),
    {
        let level = T::level();
        let ghost s = self@;
        let mut kept: Vec<SendMsgAction> = Vec::new();
        let mut out: Messages<T> = Messages::new();
        let mut i: usize = 0;
        while i < self.0.len()
            invariant
                i <= self.0@.len(),
                s == self@,
                level == T::spec_level(),
                msgs_sorted(out@),
                kept@.map_values(|a: SendMsgAction| sent_view(a)) == kept_msgs(s.take(i as int), level),
                forall|x: MsgV| out@.contains(x) <==> taken_msgs(s.take(i as int), level).contains(x),
            decreases self.0@.len() - i,
        {
            let a = &self.0[i];
            let ghost ki = kept@.map_values(|a: SendMsgAction| sent_view(a));
            proof {
                assert(s.take(i + 1).drop_last() =~= s.take(i as int));
                assert(s.take(i + 1).last() == sent_view(*a));
            }
            if a.level == MessageSendingLevel::Current || a.level == level {
                let ghost before = out@;
                out.insert(Message::<T>::new(a.severity, a.text.clone()));
                proof {
                    let tk = taken_msgs(s.take(i as int), level);
                    assert(taken_msgs(s.take(i + 1), level) == tk.push((a.severity, a.text@)));
                    assert forall|x: MsgV| out@.contains(x) <==> taken_msgs(s.take(i + 1), level).contains(x) by {
                        if tk.contains(x) {
                            let k = choose|k: int| 0 <= k < tk.len() && tk[k] == x;
                            assert(tk.push((a.severity, a.text@))[k] == x);
                        }
                        if x == (a.severity, a.text@) {
                            assert(tk.push((a.severity, a.text@))[tk.len() as int] == x);
                        }
                        if tk.push((a.severity, a.text@)).contains(x) {
                            let k = choose|k: int| 0 <= k < tk.len() + 1 && tk.push((a.severity, a.text@))[k] == x;
                            if k < tk.len() {
                                assert(tk[k] == x);
                            }
                        }
                    }
                }
            } else {
                kept.push(copy_sent(a));
                assert(kept@.map_values(|a: SendMsgAction| sent_view(a)) =~= ki.push(sent_view(*a)));
            }
            i = i + 1;
        }
        proof {
            assert(s.take(self.0@.len() as int) =~= s);
        }
        self.0 = kept;
        out
    }
}

} // verus!
