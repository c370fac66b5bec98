//! What a module's handler is given with each transaction.
use vstd::prelude::*;
use crate::encoding::{concat, str_bytes};
use crate::tx::{AccountId, SignedTransaction};

verus! {

/// An event as mathematical values: its full type and its attributes in
/// order.
pub struct EventModel {
    /// The module's name, a dot, and the event's own type.
    pub kind: Seq<char>,
    /// The attributes: key and value, in the order they were given.
    pub attributes: Seq<(Seq<u8>, Seq<u8>)>,
}

/// An event that a handler recorded for the consensus host to index.
#[derive(Debug, Clone, PartialEq, Eq)]
pub struct Event {
    /// The module's name, a dot, and the event's own type.
    pub kind: String,
    /// The attributes: key and value, in the order they were given.
    pub attributes: Vec<(Vec<u8>, Vec<u8>)>,
}

impl View for Event {
    type V = EventModel;

    open spec fn view(&self) -> EventModel {
        EventModel {
            kind: self.kind@,
            attributes: Seq::new(
                self.attributes@.len(),
                |i: int| (self.attributes@[i].0@, self.attributes@[i].1@),
            ),
        }
    }
}

/// The events of a list, each by its view.
pub open spec fn events_view(events: Seq<Event>) -> Seq<EventModel> {
    Seq::new(events.len(), |i: int| events[i]@)
}

/// The full type of an event: the module's name, a dot, the event's type.
pub open spec fn event_kind(appname: Seq<char>, event_type: Seq<char>) -> Seq<char> {
    appname + "."@ + event_type
}

/// Text pairs as attribute bytes.
pub open spec fn attributes_of(pairs: Seq<(&str, &str)>) -> Seq<(Seq<u8>, Seq<u8>)> {
    Seq::new(
        pairs.len(),
        |i: int| (vstd::utf8::encode_utf8(pairs[i].0@), vstd::utf8::encode_utf8(pairs[i].1@)),
    )
}

impl Event {
    /// A copy of the event.
    pub fn duplicate(&self) -> (e: Event)
        ensures
            e@ == self@,
    {
        let mut attributes: Vec<(Vec<u8>, Vec<u8>)> = Vec::new();
        let mut i: usize = 0;
        while i < self.attributes.len()
            invariant
                i <= self.attributes@.len(),
                attributes@.len() == i,
                forall|j: int|
                    0 <= j < i ==> attributes@[j].0@ == self.attributes@[j].0@ && attributes@[j].1@
                        == self.attributes@[j].1@,
            decreases self.attributes@.len() - i,
        {
            let k = vstd::slice::slice_to_vec(self.attributes[i].0.as_slice());
            let v = vstd::slice::slice_to_vec(self.attributes[i].1.as_slice());
            attributes.push((k, v));
            i = i + 1;
        }
        let e = Event { kind: self.kind.clone(), attributes };
        assert(e@.attributes == self@.attributes);
        e
    }
}

/// Context is passed to a module's handlers with each transaction. It holds
/// the sender, the encoded message to process, and the events recorded so
/// far.
pub struct Context {
    /// The sender of the transaction.
    pub sender: AccountId,
    /// The encoded message to process.
    pub msg: Vec<u8>,
    events: Vec<Event>,
    appname: String,
}

impl Context {
    /// The sender, as a mathematical value.
    pub closed spec fn spec_sender(&self) -> Seq<u8> {
        self.sender@
    }

    /// The encoded message, as a mathematical value.
    pub closed spec fn spec_msg(&self) -> Seq<u8> {
        self.msg@
    }

    /// The name of the module that the transaction is for.
    pub closed spec fn spec_appname(&self) -> Seq<char> {
        self.appname@
    }

    /// The events recorded so far, in the order they were recorded.
    pub closed spec fn spec_events(&self) -> Seq<EventModel> {
        events_view(self.events@)
    }

    /// The context of a transaction, with no event recorded yet.
    pub fn new(tx: &SignedTransaction) -> (ctx: Self)
        ensures
            ctx.spec_sender() == tx@.sender,
            ctx.spec_msg() == tx@.msg,
            ctx.spec_appname() == tx@.app,
            ctx.spec_events() == Seq::<EventModel>::empty(),
    {
        let ctx = Context {
            sender: tx.sender(),
            msg: tx.msg(),
            events: Vec::new(),
            appname: tx.appname().to_owned(),
        };
        assert(ctx.spec_events() == Seq::<EventModel>::empty());
        ctx
    }

    /// The sender of the transaction.
    pub fn sender(&self) -> (id: AccountId)
        ensures
            id@ == self.spec_sender(),
    {
        vstd::slice::slice_to_vec(self.sender.as_slice())
    }

    /// The encoded message.
    pub fn payload(&self) -> (m: Vec<u8>)
        ensures
            m@ == self.spec_msg(),
    {
        vstd::slice::slice_to_vec(self.msg.as_slice())
    }

    /// Record an event. Its full type is the module's name, a dot, and
    /// `event_type`; it is appended after the events recorded before.
    pub fn dispatch_event(&mut self, event_type: &str, pairs: &[(&str, &str)])
        ensures
            final(self).spec_events() == old(self).spec_events().push(
                EventModel {
                    kind: event_kind(old(self).spec_appname(), event_type@),
                    attributes: attributes_of(pairs@),
                },
            ),
            final(self).spec_sender() == old(self).spec_sender(),
            final(self).spec_msg() == old(self).spec_msg(),
            final(self).spec_appname() == old(self).spec_appname(),
    {
        let mut attributes: Vec<(Vec<u8>, Vec<u8>)> = Vec::new();
        let mut i: usize = 0;
        while i < pairs.len()
            invariant
                i <= pairs@.len(),
                attributes@.len() == i,
                forall|j: int|
                    0 <= j < i ==> attributes@[j].0@ == attributes_of(pairs@)[j].0 && attributes@[j].1@
                        == attributes_of(pairs@)[j].1,
            decreases pairs@.len() - i,
        {
            let k = str_bytes(pairs[i].0);
            let v = str_bytes(pairs[i].1);
            attributes.push((k, v));
            i = i + 1;
        }
        let prefix = concat(self.appname.as_str(), ".");
        let kind = concat(prefix.as_str(), event_type);
        let e = Event { kind, attributes };
        assert(e@.attributes == attributes_of(pairs@));
        let ghost before = self.events@;
        self.events.push(e);
        assert(events_view(self.events@) == events_view(before).push(e@));
    }

    /// The events recorded so far, in the order they were recorded.
    pub fn get_events(&self) -> (events: Vec<Event>)
        ensures
            events_view(events@) == self.spec_events(),
    {
        let mut out: Vec<Event> = Vec::new();
        let mut i: usize = 0;
        while i < self.events.len()
            invariant
                i <= self.events@.len(),
                out@.len() == i,
                forall|j: int| 0 <= j < i ==> out@[j]@ == self.events@[j]@,
            decreases self.events@.len() - i,
        {
            out.push(self.events[i].duplicate());
            i = i + 1;
        }
        assert(events_view(out@) == events_view(self.events@));
        out
    }
}

} // verus!
