//! The grammar of trace messages.
//!
//! A trace message is `id: event`, where `id` is a hexadecimal number and
//! `event` names a storage operation and its arguments. A message whose
//! event is none of the operations that are kept still parses, as an event
//! of no concern.

use crate::block_tracing::events::{
    Append, ClearChildPrefix, ClearPrefix, Event, EventView, KillChild,  PutChild,
};
use vstd::prelude::*;
use vstd::slice::slice_subrange;
use vstd::string::StringSliceAdditionalSpecFns;

verus! {

/// `:`, which stands behind the id of a message.
pub const COLON: u8 = 58u8;

/// `=`, which stands between a key and its value.
pub const EQUALS: u8 = 61u8;

/// `(`, which opens an argument.
pub const OPEN: u8 = 40u8;

/// `)`, which closes an argument.
pub const CLOSE: u8 = 41u8;

/// `+`, which may stand before a number.
pub const PLUS: u8 = 43u8;

/// A set of bytes that a run of the input may consist of.
#[derive(Clone, Copy, Debug)]
pub enum ByteClass {
    /// Every byte but the given one.
    Except(u8),
    /// Space, tab, carriage return and line feed.
    Space,
    /// The digits of a hexadecimal number, in either case.
    HexDigit,
}

/// Space, tab, carriage return or line feed.
pub open spec fn is_space(b: u8) -> bool {
    b == 32 || b == 9 || b == 13 || b == 10
}

/// A digit of a hexadecimal number, in either case.
pub open spec fn is_hex_digit(b: u8) -> bool {
    (48 <= b <= 57) || (65 <= b <= 70) || (97 <= b <= 102)
}

/// The value of a hexadecimal digit; 0 for any other byte.
pub open spec fn hex_value(b: u8) -> int {
    if 48 <= b <= 57 {
        b - 48
    } else if 65 <= b <= 70 {
        b - 55
    } else if 97 <= b <= 102 {
        b - 87
    } else {
        0
    }
}

impl ByteClass {
    /// Whether the class holds the byte.
    pub open spec fn holds(self, b: u8) -> bool {
        match self {
            ByteClass::Except(x) => b != x,
            ByteClass::Space => is_space(b),
            ByteClass::HexDigit => is_hex_digit(b),
        }
    }

    /// Whether the class holds the byte.
    pub fn has(&self, b: u8) -> (r: bool)
        ensures
            r == self.holds(b),
    {
        match self {
            ByteClass::Except(x) => b != *x,
            ByteClass::Space => b == 32 || b == 9 || b == 13 || b == 10,
            ByteClass::HexDigit => (48 <= b && b <= 57) || (65 <= b && b <= 70) || (97 <= b && b
                <= 102),
        }
    }
}

/// The end of the longest run of bytes of `class` that starts at `from`.
pub open spec fn run_end(s: Seq<u8>, from: int, class: ByteClass) -> int
    decreases s.len() - from,
{
    if 0 <= from < s.len() && class.holds(s[from]) {
        run_end(s, from + 1, class)
    } else {
        from
    }
}

/// Whether `tag` stands in `s` at `from`.
pub open spec fn has_tag(s: Seq<u8>, from: int, tag: Seq<u8>) -> bool {
    0 <= from && from + tag.len() <= s.len() && s.subrange(from, from + tag.len()) == tag
}

/// The bytes of a tag of the grammar.
pub open spec fn tag_bytes(tag: &str) -> Seq<u8> {
    vstd::utf8::encode_utf8(tag@)
}

/// `(`, one or more bytes other than `)`, `)`: the bytes between the
/// brackets and the position behind the closing one.
pub open spec fn bracketed(s: Seq<u8>, from: int) -> Option<(Seq<u8>, int)> {
    let end = run_end(s, from + 1, ByteClass::Except(CLOSE));
    if 0 <= from < s.len() && s[from] == OPEN && end > from + 1 && end < s.len() {
        Some((s.subrange(from + 1, end), end + 1))
    } else {
        None
    }
}

/// One or more bytes of white space: the position behind them.
pub open spec fn spaces1(s: Seq<u8>, from: int) -> Option<int> {
    let end = run_end(s, from, ByteClass::Space);
    if 0 <= from && end > from {
        Some(end)
    } else {
        None
    }
}

/// One or more hexadecimal digits: the digits.
pub open spec fn hex_digits1(s: Seq<u8>, from: int) -> Option<Seq<u8>> {
    let end = run_end(s, from, ByteClass::HexDigit);
    if 0 <= from && end > from {
        Some(s.subrange(from, end))
    } else {
        None
    }
}

/// One or more bytes other than `=`, then `=`: the bytes before it and the
/// position behind it.
pub open spec fn key_equals(s: Seq<u8>, from: int) -> Option<(Seq<u8>, int)> {
    let end = run_end(s, from, ByteClass::Except(EQUALS));
    if 0 <= from && end > from && end < s.len() {
        Some((s.subrange(from, end), end + 1))
    } else {
        None
    }
}

/// `None`, or `Some` and a bracketed value: the optional value. The outer
/// `None` says that neither stands at `from`.
pub open spec fn opt_value(s: Seq<u8>, from: int) -> Option<Option<Seq<u8>>> {
    if has_tag(s, from, tag_bytes("None")) {
        Some(None)
    } else if has_tag(s, from, tag_bytes("Some")) {
        match bracketed(s, from + tag_bytes("Some").len()) {
            Some((value, _)) => Some(Some(value)),
            None => None,
        }
    } else {
        None
    }
}

/// The optional value that a text stands for: the value of `Some(..)`, and
/// `None` for `None` and for every other text.
pub open spec fn opt_val_of(s: Seq<u8>) -> Option<Seq<u8>> {
    match opt_value(s, 0) {
        Some(value) => value,
        None => None,
    }
}

/// `PutChild(child) key=value`, where value is `None` or `Some(..)`.
pub open spec fn put_child_of(s: Seq<u8>) -> Option<EventView> {
    let tag = tag_bytes("PutChild");
    if has_tag(s, 0, tag) {
        match bracketed(s, tag.len() as int) {
            Some((child_id, p)) => match spaces1(s, p) {
                Some(q) => match key_equals(s, q) {
                    Some((key, v)) => match opt_value(s, v) {
                        Some(value) => Some(EventView::PutChild { child_id, key, value }),
                        None => None,
                    },
                    None => None,
                },
                None => None,
            },
            None => None,
        }
    } else {
        None
    }
}

/// `KillChild(child)`.
pub open spec fn kill_child_of(s: Seq<u8>) -> Option<EventView> {
    let tag = tag_bytes("KillChild");
    if has_tag(s, 0, tag) {
        match bracketed(s, tag.len() as int) {
            Some((child_id, _)) => Some(EventView::KillChild { child_id }),
            None => None,
        }
    } else {
        None
    }
}

/// `ClearPrefix prefix`, the prefix in hexadecimal digits.
pub open spec fn clear_prefix_of(s: Seq<u8>) -> Option<EventView> {
    let tag = tag_bytes("ClearPrefix");
    if has_tag(s, 0, tag) {
        match spaces1(s, tag.len() as int) {
            Some(p) => match hex_digits1(s, p) {
                Some(prefix) => Some(EventView::ClearPrefix { prefix }),
                None => None,
            },
            None => None,
        }
    } else {
        None
    }
}

/// `ClearChildPrefix(child) prefix`, the prefix in hexadecimal digits.
pub open spec fn clear_child_prefix_of(s: Seq<u8>) -> Option<EventView> {
    let tag = tag_bytes("ClearChildPrefix");
    if has_tag(s, 0, tag) {
        match bracketed(s, tag.len() as int) {
            Some((child_id, p)) => match spaces1(s, p) {
                Some(q) => match hex_digits1(s, q) {
                    Some(prefix) => Some(EventView::ClearChildPrefix { child_id, prefix }),
                    None => None,
                },
                None => None,
            },
            None => None,
        }
    } else {
        None
    }
}

/// `Append key=bytes`, the bytes being all that follows `=`. Where `Append`
/// and white space are not followed by `key=`, the event is of no concern.
pub open spec fn append_of(s: Seq<u8>) -> Option<EventView> {
    let tag = tag_bytes("Append");
    if has_tag(s, 0, tag) {
        match spaces1(s, tag.len() as int) {
            Some(p) => match key_equals(s, p) {
                Some((key, v)) => Some(
                    EventView::Append { key, append: s.subrange(v, s.len() as int) },
                ),
                None => Some(EventView::NotConcerned),
            },
            None => None,
        }
    } else {
        None
    }
}

/// The event that a text stands for: the first of the kept operations whose
/// form the text has, and an event of no concern where it has none.
pub open spec fn event_of(s: Seq<u8>) -> EventView {
    if put_child_of(s) is Some {
        put_child_of(s)->Some_0
    } else if kill_child_of(s) is Some {
        kill_child_of(s)->Some_0
    } else if clear_prefix_of(s) is Some {
        clear_prefix_of(s)->Some_0
    } else if clear_child_prefix_of(s) is Some {
        clear_child_prefix_of(s)->Some_0
    } else if append_of(s) is Some {
        append_of(s)->Some_0
    } else {
        EventView::NotConcerned
    }
}

/// The number that hexadecimal digits spell.
pub open spec fn hex_number(digits: Seq<u8>) -> int
    decreases digits.len(),
{
    if digits.len() == 0 {
        0
    } else {
        hex_number(digits.drop_last()) * 16 + hex_value(digits.last())
    }
}

/// Whether all bytes are hexadecimal digits.
pub open spec fn all_hex(digits: Seq<u8>) -> bool {
    forall|i: int| 0 <= i < digits.len() ==> is_hex_digit(#[trigger] digits[i])
}

/// The id that a text stands for: the number that it spells in hexadecimal
/// digits, after an optional `+`, where that fits into 16 bits, and 0 for
/// every other text.
pub open spec fn id_of(text: Seq<u8>) -> u16 {
    let digits = if text.len() > 0 && text[0] == PLUS {
        text.drop_first()
    } else {
        text
    };
    if digits.len() > 0 && all_hex(digits) && hex_number(digits) <= 0xffff {
        hex_number(digits) as u16
    } else {
        0
    }
}

/// A parsed trace message: the id of the storage that the operation worked
/// on, and the operation.
#[derive(Debug, PartialEq)]
pub struct Message {
    pub id: u16,
    pub event: Event,
}

/// A parsed trace message, as a mathematical value.
pub struct MessageView {
    pub id: u16,
    pub event: EventView,
}

impl View for Message {
    type V = MessageView;

    open spec fn view(&self) -> MessageView {
        MessageView { id: self.id, event: self.event@ }
    }
}

impl Default for Message {
    /// The message that stands for a text that does not parse.
    fn default() -> (m: Message)
        ensures
            m@ == (MessageView { id: 0, event: EventView::NotConcerned }),
    {
        Message { id: 0, event: Event::NotConcerned }
    }
}

/// The view of an optional message.
pub open spec fn opt_message_view(m: Option<Message>) -> Option<MessageView> {
    match m {
        Some(m) => Some(m@),
        None => None,
    }
}

/// The message that a text stands for: one or more bytes other than `:`,
/// then `:`, optional white space, and one or more bytes of event. `None`
/// for every other text.
pub open spec fn message_of(s: Seq<u8>) -> Option<MessageView> {
    let id_end = run_end(s, 0, ByteClass::Except(COLON));
    let body = run_end(s, id_end + 1, ByteClass::Space);
    if id_end > 0 && id_end < s.len() && body < s.len() {
        Some(
            MessageView {
                id: id_of(s.subrange(0, id_end)),
                event: event_of(s.subrange(body, s.len() as int)),
            },
        )
    } else {
        None
    }
}

/// A run ends within the input, behind bytes of the class and before a byte
/// that is not of the class.
pub proof fn lemma_run_end(s: Seq<u8>, from: int, class: ByteClass)
    requires
        0 <= from <= s.len(),
    ensures
        from <= run_end(s, from, class) <= s.len(),
        forall|i: int| from <= i < run_end(s, from, class) ==> class.holds(#[trigger] s[i]),
        run_end(s, from, class) < s.len() ==> !class.holds(s[run_end(s, from, class)]),
    decreases s.len() - from,
{
    if from < s.len() && class.holds(s[from]) {
        lemma_run_end(s, from + 1, class);
    }
}

/// Finds the end of the longest run of bytes of `class` that starts at
/// `from`.
pub fn run(s: &[u8], from: usize, class: ByteClass) -> (end: usize)
    requires
        from <= s@.len(),
    ensures
        end == run_end(s@, from as int, class),
        from <= end <= s@.len(),
{
    let mut i: usize = from;
    while i < s.len() && class.has(s[i])
        invariant
            from <= i <= s@.len(),
            run_end(s@, from as int, class) == run_end(s@, i as int, class),
        decreases s@.len() - i,
    {
        i += 1;
    }
    i
}

/// Whether `lit` stands in `s` at `from`.
pub fn tag(s: &[u8], from: usize, lit: &[u8]) -> (found: bool)
    requires
        from <= s@.len(),
    ensures
        found == has_tag(s@, from as int, lit@),
        found ==> from + lit@.len() <= s@.len() <= usize::MAX,
{
    if lit.len() > s.len() - from {
        return false;
    }
    let mut i: usize = 0;
    while i < lit.len()
        invariant
            i <= lit@.len(),
            from + lit@.len() <= s@.len() <= usize::MAX,
            forall|j: int| 0 <= j < i ==> s@[from + j] == lit@[j],
        decreases lit@.len() - i,
    {
        if s[from + i] != lit[i] {
            assert(s@.subrange(from as int, from + lit@.len())[i as int] != lit@[i as int]);
            return false;
        }
        i += 1;
    }
    assert(s@.subrange(from as int, from + lit@.len()) =~= lit@);
    true
}

/// Copies the bytes of `s` from `from` up to `to`.
pub fn copy_range(s: &[u8], from: usize, to: usize) -> (v: Vec<u8>)
    requires
        from <= to <= s@.len(),
    ensures
        v@ == s@.subrange(from as int, to as int),
{
    let mut v: Vec<u8> = Vec::new();
    crate::codec::append_bytes(&mut v, slice_subrange(s, from, to));
    v
}

/// Parses `(`, one or more bytes other than `)`, `)` at `from`.
pub fn parse_bracketed(s: &[u8], from: usize) -> (r: Option<(Vec<u8>, usize)>)
    requires
        from <= s@.len(),
    ensures
        match r {
            Some((arg, next)) => bracketed(s@, from as int) == Some((arg@, next as int)) && next
                <= s@.len(),
            None => bracketed(s@, from as int) is None,
        },
{
    if from < s.len() && s[from] == OPEN {
        let end: usize = run(s, from + 1, ByteClass::Except(CLOSE));
        if end > from + 1 && end < s.len() {
            return Some((copy_range(s, from + 1, end), end + 1));
        }
    }
    None
}

/// Parses one or more bytes of white space at `from`.
pub fn parse_spaces1(s: &[u8], from: usize) -> (r: Option<usize>)
    requires
        from <= s@.len(),
    ensures
        match r {
            Some(next) => spaces1(s@, from as int) == Some(next as int) && next <= s@.len(),
            None => spaces1(s@, from as int) is None,
        },
{
    let end: usize = run(s, from, ByteClass::Space);
    if end > from {
        Some(end)
    } else {
        None
    }
}

/// Parses one or more hexadecimal digits at `from`.
pub fn parse_hex_digits1(s: &[u8], from: usize) -> (r: Option<Vec<u8>>)
    requires
        from <= s@.len(),
    ensures
        crate::codec::opt_view(r) == hex_digits1(s@, from as int),
{
    let end: usize = run(s, from, ByteClass::HexDigit);
    if end > from {
        Some(copy_range(s, from, end))
    } else {
        None
    }
}

/// k-v parser, eg. `0000=1111`: the key and the position behind `=`.
pub fn parse_k_equ_v(s: &[u8], from: usize) -> (r: Option<(Vec<u8>, usize)>)
    requires
        from <= s@.len(),
    ensures
        match r {
            Some((key, next)) => key_equals(s@, from as int) == Some((key@, next as int)) && next
                <= s@.len(),
            None => key_equals(s@, from as int) is None,
        },
{
    let end: usize = run(s, from, ByteClass::Except(EQUALS));
    if end > from && end < s.len() {
        Some((copy_range(s, from, end), end + 1))
    } else {
        None
    }
}

/// eg. `None`
pub fn parse_none(s: &[u8], from: usize) -> (found: bool)
    requires
        from <= s@.len(),
    ensures
        found == has_tag(s@, from as int, tag_bytes("None")),
{
    tag(s, from, "None".as_bytes())
}

/// eg. `Some(00000bbbbb)`
pub fn parse_some(s: &[u8], from: usize) -> (r: Option<Vec<u8>>)
    requires
        from <= s@.len(),
    ensures
        crate::codec::opt_view(r) == (if has_tag(s@, from as int, tag_bytes("Some")) {
            match bracketed(s@, from + tag_bytes("Some").len()) {
                Some((value, _)) => Some(value),
                None => None,
            }
        } else {
            None
        }),
{
    let t: &[u8] = "Some".as_bytes();
    if tag(s, from, t) {
        match parse_bracketed(s, from + t.len()) {
            Some((value, _)) => Some(value),
            None => None,
        }
    } else {
        None
    }
}

/// Parses `None` or `Some(..)` at `from`. The outer `None` says that neither
/// stands there.
pub fn parse_opt_value(s: &[u8], from: usize) -> (r: Option<Option<Vec<u8>>>)
    requires
        from <= s@.len(),
    ensures
        match r {
            Some(value) => opt_value(s@, from as int) == Some(crate::codec::opt_view(value)),
            None => opt_value(s@, from as int) is None,
        },
{
    if parse_none(s, from) {
        Some(None)
    } else {
        match parse_some(s, from) {
            Some(value) => Some(Some(value)),
            None => None,
        }
    }
}

/// The optional value that a text stands for.
pub fn parse_opt_val(value: &str) -> (r: Option<Vec<u8>>)
    ensures
        crate::codec::opt_view(r) == opt_val_of(value.spec_bytes()),
{
    match parse_opt_value(value.as_bytes(), 0) {
        Some(v) => v,
        None => None,
    }
}

/// event parse for `Event::PutChild`
pub fn parse_put_child(s: &[u8]) -> (r: Option<Event>)
    ensures
        event_opt_view(r) == put_child_of(s@),
{
    let t: &[u8] = "PutChild".as_bytes();
    if !tag(s, 0, t) {
        return None;
    }
    let (child_id, p) = match parse_bracketed(s, t.len()) {
        Some(found) => found,
        None => {
            return None;
        },
    };
    let q: usize = match parse_spaces1(s, p) {
        Some(q) => q,
        None => {
            return None;
        },
    };
    let (key, v) = match parse_k_equ_v(s, q) {
        Some(found) => found,
        None => {
            return None;
        },
    };
    match parse_opt_value(s, v) {
        Some(value) => Some(Event::PutChild(PutChild { child_id, key, value })),
        None => None,
    }
}

/// event parse for `Event::KillChild`
pub fn parse_kill_child(s: &[u8]) -> (r: Option<Event>)
    ensures
        event_opt_view(r) == kill_child_of(s@),
{
    let t: &[u8] = "KillChild".as_bytes();
    if !tag(s, 0, t) {
        return None;
    }
    match parse_bracketed(s, t.len()) {
        Some((child_id, _)) => Some(Event::KillChild(KillChild { child_id })),
        None => None,
    }
}

/// event parse for `Event::ClearPrefix`
pub fn parse_clear_prefix(s: &[u8]) -> (r: Option<Event>)
    ensures
        event_opt_view(r) == clear_prefix_of(s@),
{
    let t: &[u8] = "ClearPrefix".as_bytes();
    if !tag(s, 0, t) {
        return None;
    }
    let p: usize = match parse_spaces1(s, t.len()) {
        Some(p) => p,
        None => {
            return None;
        },
    };
    match parse_hex_digits1(s, p) {
        Some(prefix) => Some(Event::ClearPrefix(ClearPrefix { prefix })),
        None => None,
    }
}

/// event parse for `Event::ClearChildPrefix`
pub fn parse_clear_child_prefix(s: &[u8]) -> (r: Option<Event>)
    ensures
        event_opt_view(r) == clear_child_prefix_of(s@),
{
    let t: &[u8] = "ClearChildPrefix".as_bytes();
    if !tag(s, 0, t) {
        return None;
    }
    let (child_id, p) = match parse_bracketed(s, t.len()) {
        Some(found) => found,
        None => {
            return None;
        },
    };
    let q: usize = match parse_spaces1(s, p) {
        Some(q) => q,
        None => {
            return None;
        },
    };
    match parse_hex_digits1(s, q) {
        Some(prefix) => Some(Event::ClearChildPrefix(ClearChildPrefix { child_id, prefix })),
        None => None,
    }
}

/// event parse for `Event::Append`
pub fn parse_append(s: &[u8]) -> (r: Option<Event>)
    ensures
        event_opt_view(r) == append_of(s@),
{
    let t: &[u8] = "Append".as_bytes();
    if !tag(s, 0, t) {
        return None;
    }
    let p: usize = match parse_spaces1(s, t.len()) {
        Some(p) => p,
        None => {
            return None;
        },
    };
    match parse_k_equ_v(s, p) {
        Some((key, v)) => Some(Event::Append(Append { key, append: copy_range(s, v, s.len()) })),
        None => Some(Event::NotConcerned),
    }
}

/// event parse fallback to `Event::NotConcerned`
pub fn parse_not_concerned() -> (e: Event)
    ensures
        e@ is NotConcerned,
{
    Event::NotConcerned
}

/// The view of an optional event.
pub open spec fn event_opt_view(e: Option<Event>) -> Option<EventView> {
    match e {
        Some(e) => Some(e@),
        None => None,
    }
}

/// Parses the event of a trace message.
pub fn parse_event(s: &[u8]) -> (e: Event)
    ensures
        e@ == event_of(s@),
{
    if let Some(e) = parse_put_child(s) {
        return e;
    }
    if let Some(e) = parse_kill_child(s) {
        return e;
    }
    if let Some(e) = parse_clear_prefix(s) {
        return e;
    }
    if let Some(e) = parse_clear_child_prefix(s) {
        return e;
    }
    if let Some(e) = parse_append(s) {
        return e;
    }
    parse_not_concerned()
}

/// The number of a prefix of digits is at most the number of all of them.
pub proof fn lemma_hex_number_prefix(digits: Seq<u8>, n: int)
    requires
        0 <= n <= digits.len(),
    ensures
        0 <= hex_number(digits.subrange(0, n)) <= hex_number(digits),
    decreases digits.len() - n,
{
    lemma_hex_number_nonnegative(digits.subrange(0, n));
    if n < digits.len() {
        lemma_hex_number_prefix(digits, n + 1);
        let longer = digits.subrange(0, n + 1);
        assert(longer.drop_last() == digits.subrange(0, n));
    } else {
        assert(digits.subrange(0, n) == digits);
    }
}

/// The number that digits spell is not negative.
pub proof fn lemma_hex_number_nonnegative(digits: Seq<u8>)
    ensures
        0 <= hex_number(digits),
    decreases digits.len(),
{
    if digits.len() > 0 {
        lemma_hex_number_nonnegative(digits.drop_last());
    }
}

/// Reads the id of a trace message.
pub fn parse_id(text: &[u8]) -> (id: u16)
    ensures
        id == id_of(text@),
{
    let start: usize = if text.len() > 0 && text[0] == PLUS {
        1
    } else {
        0
    };
    let ghost digits = if start == 1 {
        text@.drop_first()
    } else {
        text@
    };
    assert(digits == text@.subrange(start as int, text@.len() as int));
    if start == text.len() {
        return 0;
    }
    let mut acc: u32 = 0;
    let mut i: usize = start;
    while i < text.len()
        invariant
            start <= i <= text@.len(),
            digits == text@.subrange(start as int, text@.len() as int),
            digits == (if text@.len() > 0 && text@[0] == PLUS {
                text@.drop_first()
            } else {
                text@
            }),
            digits.len() > 0,
            all_hex(digits.subrange(0, i - start)),
            acc == hex_number(digits.subrange(0, i - start)),
            acc <= 0xffff,
        decreases text@.len() - i,
    {
        let b: u8 = text[i];
        let d: u32 = if 48 <= b && b <= 57 {
            (b - 48) as u32
        } else if 65 <= b && b <= 70 {
            (b - 55) as u32
        } else if 97 <= b && b <= 102 {
            (b - 87) as u32
        } else {
            assert(!is_hex_digit(digits[i - start]));
            return 0;
        };
        let next: u32 = acc * 16 + d;
        proof {
            let longer = digits.subrange(0, i - start + 1);
            assert(longer.drop_last() == digits.subrange(0, i - start));
            assert(longer.last() == b);
            assert(hex_number(longer) == next);
            assert forall|j: int| 0 <= j < longer.len() implies is_hex_digit(#[trigger] longer[j]) by {
                if j < i - start {
                    assert(digits.subrange(0, i - start)[j] == longer[j]);
                }
            }
        }
        if next > 0xffff {
            proof {
                lemma_hex_number_prefix(digits, i - start + 1);
            }
            return 0;
        }
        acc = next;
        i += 1;
    }
    assert(digits.subrange(0, digits.len() as int) == digits);
    acc as u16
}

/// Parses a trace message given as bytes.
pub fn parse_message_bytes(s: &[u8]) -> (m: Option<Message>)
    ensures
        opt_message_view(m) == message_of(s@),
{
    let id_end: usize = run(s, 0, ByteClass::Except(COLON));
    if id_end == 0 || id_end >= s.len() {
        return None;
    }
    let body: usize = run(s, id_end + 1, ByteClass::Space);
    if body >= s.len() {
        return None;
    }
    let id: u16 = parse_id(slice_subrange(s, 0, id_end));
    let event: Event = parse_event(slice_subrange(s, body, s.len()));
    Some(Message { id, event })
}

/// Parses a trace message.
pub fn parse_message(message: &str) -> (m: Option<Message>)
    ensures
        opt_message_view(m) == message_of(message.spec_bytes()),
{
    parse_message_bytes(message.as_bytes())
}

} // verus!
