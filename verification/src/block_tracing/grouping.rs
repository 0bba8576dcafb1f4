//! From the trace events of one extrinsic to its storage operations.
//!
//! Every trace event gives one message. The messages of concern are grouped
//! by the id of the storage that they worked on, and the largest group is
//! what the extrinsic did.

use crate::block_tracing::events::{Event, EventView, Put};
use crate::block_tracing::parser::{
    message_of, opt_val_of, parse_message, parse_opt_val, tag_bytes, Message, MessageView,
};
use crate::transaction::bytes_eq;
use vstd::prelude::*;

verus! {

/// What a trace event recorded: the named text fields that the messages are
/// read from, and the id of the storage.
#[derive(Debug)]
pub struct TraceFields {
    pub method: Option<String>,
    pub key: Option<String>,
    pub value: Option<String>,
    pub ext_id: Option<u64>,
    pub message: Option<String>,
}

/// The bytes of an optional text.
pub open spec fn opt_bytes(text: Option<String>) -> Option<Seq<u8>> {
    match text {
        Some(t) => Some(vstd::utf8::encode_utf8(t@)),
        None => None,
    }
}

/// The message that stands for a text that does not parse.
pub open spec fn default_message() -> MessageView {
    MessageView { id: 0, event: EventView::NotConcerned }
}

impl TraceFields {
    /// Whether the event recorded a put.
    pub open spec fn is_put(&self) -> bool {
        opt_bytes(self.method) == Some(tag_bytes("Put"))
    }

    /// The message that the event gives: a put from its fields, every other
    /// operation from its message text, and the default message where there
    /// is neither, or where the text does not parse.
    pub open spec fn message(&self) -> MessageView {
        if self.is_put() {
            MessageView {
                id: (match self.ext_id {
                    Some(id) => id % 0x10000,
                    None => 0,
                }) as u16,
                event: EventView::Put {
                    key: opt_bytes(self.key)->Some_0,
                    value: opt_val_of(opt_bytes(self.value)->Some_0),
                },
            }
        } else if self.method is Some {
            default_message()
        } else {
            match opt_bytes(self.message) {
                Some(text) => match message_of(text) {
                    Some(m) => m,
                    None => default_message(),
                },
                None => default_message(),
            }
        }
    }
}

impl Message {
    /// Reads the message of a trace event. An event that recorded a put has
    /// recorded its key and its value.
    pub fn from(event: TraceFields) -> (m: Message)
        requires
            event.is_put() ==> event.key is Some && event.value is Some,
        ensures
            m@ == event.message(),
    {
        match &event.method {
            Some(method) => {
                if bytes_eq(method.as_str().as_bytes(), "Put".as_bytes()) {
                    let id: u64 = match event.ext_id {
                        Some(id) => id % 0x10000,
                        None => 0,
                    };
                    let key: Vec<u8> = match &event.key {
                        Some(k) => crate::block_tracing::parser::copy_range(
                            k.as_str().as_bytes(),
                            0,
                            k.as_str().as_bytes().len(),
                        ),
                        None => Vec::new(),
                    };
                    let value: Option<Vec<u8>> = match &event.value {
                        Some(v) => parse_opt_val(v.as_str()),
                        None => None,
                    };
                    proof {
                        let kb = vstd::utf8::encode_utf8(event.key->Some_0@);
                        assert(kb.subrange(0, kb.len() as int) == kb);
                    }
                    Message { id: id as u16, event: Event::Put(Put { key, value }) }
                } else {
                    Message::default()
                }
            },
            None => match &event.message {
                Some(text) => match parse_message(text.as_str()) {
                    Some(m) => m,
                    None => Message::default(),
                },
                None => Message::default(),
            },
        }
    }
}

/// The messages as mathematical values.
pub open spec fn messages_view(msgs: Seq<Message>) -> Seq<MessageView> {
    Seq::new(msgs.len(), |i: int| msgs[i]@)
}

/// The events as mathematical values.
pub open spec fn events_view(events: Seq<Event>) -> Seq<EventView> {
    Seq::new(events.len(), |i: int| events[i]@)
}

/// Whether a message is of concern and worked on storage `id`.
pub open spec fn in_group(m: MessageView, id: u16) -> bool {
    m.id == id && !(m.event is NotConcerned)
}

/// The events of concern that worked on storage `id`, in their order.
pub open spec fn group_of(msgs: Seq<MessageView>, id: u16) -> Seq<EventView>
    decreases msgs.len(),
{
    if msgs.len() == 0 {
        Seq::empty()
    } else if in_group(msgs.last(), id) {
        group_of(msgs.drop_last(), id).push(msgs.last().event)
    } else {
        group_of(msgs.drop_last(), id)
    }
}

/// Whether `events` is the largest group of the messages: the group of some
/// id that no group is larger than, the one of the smallest such id where
/// several groups are as large.
pub open spec fn is_largest_group(msgs: Seq<MessageView>, events: Seq<EventView>) -> bool {
    exists|id: u16|
        {
            &&& events == #[trigger] group_of(msgs, id)
            &&& forall|other: u16| (#[trigger] group_of(msgs, other)).len() <= events.len()
            &&& forall|other: u16|
                other < id ==> (#[trigger] group_of(msgs, other)).len() < events.len()
        }
}

/// A group that is not empty has a member among the messages.
pub proof fn lemma_group_member(msgs: Seq<MessageView>, id: u16)
    requires
        group_of(msgs, id).len() > 0,
    ensures
        exists|j: int| 0 <= j < msgs.len() && in_group(#[trigger] msgs[j], id),
    decreases msgs.len(),
{
    if in_group(msgs.last(), id) {
        assert(in_group(msgs[msgs.len() - 1], id));
    } else {
        lemma_group_member(msgs.drop_last(), id);
        let j = choose|j: int|
            0 <= j < msgs.drop_last().len() && in_group(#[trigger] msgs.drop_last()[j], id);
        assert(msgs[j] == msgs.drop_last()[j]);
    }
}

/// Counts the events of concern that worked on storage `id`.
pub fn count_group(msgs: &Vec<Message>, id: u16) -> (n: usize)
    ensures
        n == group_of(messages_view(msgs@), id).len(),
{
    let ghost all = messages_view(msgs@);
    let mut n: usize = 0;
    let mut i: usize = 0;
    while i < msgs.len()
        invariant
            i <= msgs@.len(),
            all == messages_view(msgs@),
            n == group_of(all.subrange(0, i as int), id).len(),
            n <= i,
        decreases msgs@.len() - i,
    {
        assert(all.subrange(0, i + 1).drop_last() == all.subrange(0, i as int));
        assert(all.subrange(0, i + 1).last() == msgs@[i as int]@);
        if msgs[i].id == id && msgs[i].event.is_concerned() {
            n += 1;
        }
        i += 1;
    }
    assert(all.subrange(0, msgs@.len() as int) == all);
    n
}

/// Finds the id of the largest group: the smallest one where several groups
/// are as large, and `None` where no message is of concern.
pub fn largest_group_id(msgs: &Vec<Message>) -> (best: Option<u16>)
    ensures
        match best {
            Some(id) => {
                &&& group_of(messages_view(msgs@), id).len() > 0
                &&& forall|other: u16|
                    (#[trigger] group_of(messages_view(msgs@), other)).len() <= group_of(
                        messages_view(msgs@),
                        id,
                    ).len()
                &&& forall|other: u16|
                    other < id ==> (#[trigger] group_of(messages_view(msgs@), other)).len()
                        < group_of(messages_view(msgs@), id).len()
            },
            None => forall|other: u16| (#[trigger] group_of(messages_view(msgs@), other)).len() == 0,
        },
{
    let ghost all = messages_view(msgs@);
    let mut best: Option<(u16, usize)> = None;
    let mut i: usize = 0;
    while i < msgs.len()
        invariant
            i <= msgs@.len(),
            all == messages_view(msgs@),
            match best {
                Some((id, n)) => {
                    &&& n == group_of(all, id).len()
                    &&& n > 0
                    &&& forall|j: int|
                        0 <= j < i && !((#[trigger] all[j]).event is NotConcerned) ==> {
                            &&& group_of(all, all[j].id).len() <= n
                            &&& group_of(all, all[j].id).len() == n ==> id <= all[j].id
                        }
                },
                None => forall|j: int| 0 <= j < i ==> (#[trigger] all[j]).event is NotConcerned,
            },
        decreases msgs@.len() - i,
    {
        assert(all[i as int] == msgs@[i as int]@);
        if msgs[i].event.is_concerned() {
            let id: u16 = msgs[i].id;
            let n: usize = count_group(msgs, id);
            proof {
                if n == 0 {
                    lemma_group_nonempty(all, i as int);
                }
            }
            let better: bool = match best {
                Some((best_id, best_n)) => n > best_n || (n == best_n && id < best_id),
                None => true,
            };
            if better {
                best = Some((id, n));
            }
        }
        i += 1;
    }
    match best {
        Some((id, n)) => {
            proof {
                assert forall|other: u16|
                    (#[trigger] group_of(all, other)).len() <= n && (other < id ==> group_of(
                        all,
                        other,
                    ).len() < n) by {
                    if group_of(all, other).len() > 0 {
                        lemma_group_member(all, other);
                        let j = choose|j: int| 0 <= j < all.len() && in_group(#[trigger] all[j], other);
                        assert(all[j].id == other);
                    }
                }
            }
            Some(id)
        },
        None => {
            proof {
                assert forall|other: u16| (#[trigger] group_of(all, other)).len() == 0 by {
                    if group_of(all, other).len() > 0 {
                        lemma_group_member(all, other);
                    }
                }
            }
            None
        },
    }
}

/// A message of concern is in the group of its id.
pub proof fn lemma_group_nonempty(msgs: Seq<MessageView>, j: int)
    requires
        0 <= j < msgs.len(),
        !(msgs[j].event is NotConcerned),
    ensures
        group_of(msgs, msgs[j].id).len() > 0,
    decreases msgs.len(),
{
    if j < msgs.len() - 1 {
        lemma_group_nonempty(msgs.drop_last(), j);
    }
}

/// Picks the storage operations of an extrinsic out of the messages of its
/// trace events: the largest group of messages of concern with one id.
pub fn parse(msgs: Vec<Message>) -> (events: Vec<Event>)
    ensures
        is_largest_group(messages_view(msgs@), events_view(events@)),
{
    let ghost all = messages_view(msgs@);
    let id: u16 = match largest_group_id(&msgs) {
        Some(id) => id,
        None => {
            proof {
                assert(group_of(all, 0u16).len() == 0);
                assert(Seq::<EventView>::empty() =~= group_of(all, 0u16));
                assert(events_view(Seq::<Event>::empty()) =~= Seq::<EventView>::empty());
            }
            return Vec::new();
        },
    };
    let mut rest: Vec<Message> = msgs;
    let mut reversed: Vec<Event> = Vec::new();
    while rest.len() > 0
        invariant
            group_of(all, id) == group_of(messages_view(rest@), id) + events_view(
                reversed@,
            ).reverse(),
        decreases rest@.len(),
    {
        let ghost before = messages_view(rest@);
        let ghost taken = events_view(reversed@);
        let m: Message = rest.pop().unwrap();
        assert(messages_view(rest@) == before.drop_last());
        assert(before.last() == m@);
        if m.id == id && m.event.is_concerned() {
            reversed.push(m.event);
            proof {
                let now = events_view(reversed@);
                assert(now == taken.push(m@.event));
                assert(now.reverse() =~= seq![m@.event] + taken.reverse());
                assert(group_of(before, id) == group_of(before.drop_last(), id).push(m@.event));
                assert(group_of(before.drop_last(), id).push(m@.event) + taken.reverse()
                    =~= group_of(before.drop_last(), id) + now.reverse());
            }
        } else {
            assert(events_view(reversed@) == taken);
        }
    }
    assert(group_of(all, id) =~= events_view(reversed@).reverse());
    let mut events: Vec<Event> = Vec::new();
    let ghost picked = events_view(reversed@);
    while reversed.len() > 0
        invariant
            picked.reverse() == events_view(events@) + events_view(reversed@).reverse(),
        decreases reversed@.len(),
    {
        let ghost before = events_view(reversed@);
        let ghost done = events_view(events@);
        let e: Event = reversed.pop().unwrap();
        assert(events_view(reversed@) == before.drop_last());
        assert(before.last() == e@);
        events.push(e);
        proof {
            assert(events_view(events@) == done.push(e@));
            assert(before.reverse() =~= seq![e@] + before.drop_last().reverse());
            assert(done + before.reverse() =~= done.push(e@) + before.drop_last().reverse());
        }
    }
    assert(picked.reverse() =~= events_view(events@));
    events
}

} // verus!
