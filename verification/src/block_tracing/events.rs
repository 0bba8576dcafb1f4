//! The storage operations that tracing records of an extrinsic.

use vstd::prelude::*;

verus! {

/// A value was put under a top-level key, or the key was deleted.
#[derive(Debug, PartialEq)]
pub struct Put {
    pub key: Vec<u8>,
    pub value: Option<Vec<u8>>,
}

/// A value was put under a key of a child, or the key was deleted.
#[derive(Debug, PartialEq)]
pub struct PutChild {
    pub child_id: Vec<u8>,
    pub key: Vec<u8>,
    pub value: Option<Vec<u8>>,
}

/// A child was removed as a whole.
#[derive(Debug, PartialEq)]
pub struct KillChild {
    pub child_id: Vec<u8>,
}

/// All top-level keys under a prefix were removed.
#[derive(Debug, PartialEq)]
pub struct ClearPrefix {
    pub prefix: Vec<u8>,
}

/// All keys of a child under a prefix were removed.
#[derive(Debug, PartialEq)]
pub struct ClearChildPrefix {
    pub child_id: Vec<u8>,
    pub prefix: Vec<u8>,
}

/// Bytes were appended to the value under a key.
#[derive(Debug, PartialEq)]
pub struct Append {
    pub key: Vec<u8>,
    pub append: Vec<u8>,
}

/// One recorded storage operation.
#[derive(Debug, PartialEq)]
pub enum Event {
    Put(Put),
    PutChild(PutChild),
    KillChild(KillChild),
    ClearPrefix(ClearPrefix),
    ClearChildPrefix(ClearChildPrefix),
    Append(Append),
    NotConcerned,
}

/// A recorded storage operation, as a mathematical value.
pub enum EventView {
    Put { key: Seq<u8>, value: Option<Seq<u8>> },
    PutChild { child_id: Seq<u8>, key: Seq<u8>, value: Option<Seq<u8>> },
    KillChild { child_id: Seq<u8> },
    ClearPrefix { prefix: Seq<u8> },
    ClearChildPrefix { child_id: Seq<u8>, prefix: Seq<u8> },
    Append { key: Seq<u8>, append: Seq<u8> },
    NotConcerned,
}

impl View for Event {
    type V = EventView;

    open spec fn view(&self) -> EventView {
        match *self {
            Event::Put(p) => EventView::Put {
                key: p.key@,
                value: match p.value {
                    Some(v) => Some(v@),
                    None => None,
                },
            },
            Event::PutChild(p) => EventView::PutChild {
                child_id: p.child_id@,
                key: p.key@,
                value: match p.value {
                    Some(v) => Some(v@),
                    None => None,
                },
            },
            Event::KillChild(k) => EventView::KillChild { child_id: k.child_id@ },
            Event::ClearPrefix(c) => EventView::ClearPrefix { prefix: c.prefix@ },
            Event::ClearChildPrefix(c) => EventView::ClearChildPrefix {
                child_id: c.child_id@,
                prefix: c.prefix@,
            },
            Event::Append(a) => EventView::Append { key: a.key@, append: a.append@ },
            Event::NotConcerned => EventView::NotConcerned,
        }
    }
}

impl Event {
    /// Whether the event is a storage operation that is kept.
    pub fn is_concerned(&self) -> (b: bool)
        ensures
            b == !(self@ is NotConcerned),
    {
        match self {
            Event::NotConcerned => false,
            _ => true,
        }
    }
}

} // verus!
