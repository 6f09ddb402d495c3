//! Decoding of the event records that the kernel writes for watched
//! directories.

use crate::bytes::get_range;
use vstd::prelude::*;

verus! {

pub const IN_MODIFY: u32 = 0x2;

pub const IN_ATTRIB: u32 = 0x4;

pub const IN_CLOSE_WRITE: u32 = 0x8;

pub const IN_MOVED_FROM: u32 = 0x40;

pub const IN_MOVED_TO: u32 = 0x80;

pub const IN_CREATE: u32 = 0x100;

pub const IN_DELETE: u32 = 0x200;

pub const IN_DELETE_SELF: u32 = 0x400;

pub const IN_MOVE_SELF: u32 = 0x800;

pub const IN_UNMOUNT: u32 = 0x2000;

pub const IN_Q_OVERFLOW: u32 = 0x4000;

pub const IN_IGNORED: u32 = 0x8000;

pub const IN_ISDIR: u32 = 0x4000_0000;

/// The events after which a watch tells nothing more about its directory.
pub const LOST_WATCH: u32 = IN_DELETE_SELF | IN_MOVE_SELF | IN_UNMOUNT | IN_IGNORED | IN_Q_OVERFLOW;

/// The length of an event without its name.
pub const EVENT_HEADER: usize = 16;

/// The order of the bytes of an integer in memory.
#[derive(Clone, Copy, Debug, Eq, PartialEq)]
pub enum ByteOrder {
    Little,
    Big,
}

/// One event: the watch it belongs to, what happened, and the entry's name.
#[derive(Debug)]
pub struct Event {
    pub watch: i32,
    pub mask: u32,
    pub name: Vec<u8>,
}

/// What an event says.
#[verifier::ext_equal]
pub struct EventView {
    pub watch: i32,
    pub mask: u32,
    pub name: Seq<u8>,
}

impl View for Event {
    type V = EventView;

    open spec fn view(&self) -> EventView {
        EventView { watch: self.watch, mask: self.mask, name: self.name@ }
    }
}

/// Why no event can be decoded.
#[derive(Clone, Copy, Debug, Eq, PartialEq)]
pub enum EventFault {
    TruncatedHeader,
    LengthOverflow,
    TruncatedName,
}

/// The 32-bit integer at `at`.
pub open spec fn word_at(buffer: Seq<u8>, at: int, order: ByteOrder) -> u32 {
    match order {
        ByteOrder::Little => (buffer[at] as u32) | ((buffer[at + 1] as u32) << 8) | ((buffer[at
            + 2] as u32) << 16) | ((buffer[at + 3] as u32) << 24),
        ByteOrder::Big => (buffer[at + 3] as u32) | ((buffer[at + 2] as u32) << 8) | ((buffer[at
            + 1] as u32) << 16) | ((buffer[at] as u32) << 24),
    }
}

/// The index of the first zero at or behind `from`, or the length.
pub open spec fn zero_at(bytes: Seq<u8>, from: int) -> int
    decreases bytes.len() - from,
{
    if from < 0 || from >= bytes.len() {
        bytes.len() as int
    } else if bytes[from] == 0 {
        from
    } else {
        zero_at(bytes, from + 1)
    }
}

/// The bytes in front of the first zero.
pub open spec fn before_zero(bytes: Seq<u8>) -> Seq<u8> {
    bytes.subrange(0, zero_at(bytes, 0))
}

/// Where the event at `at` ends.
pub open spec fn event_end(buffer: Seq<u8>, at: int, order: ByteOrder) -> int {
    at + EVENT_HEADER + word_at(buffer, at + 12, order)
}

/// The event at `at`.
pub open spec fn event_at(buffer: Seq<u8>, at: int, order: ByteOrder) -> Result<
    EventView,
    EventFault,
> {
    if buffer.len() - at < EVENT_HEADER {
        Err(EventFault::TruncatedHeader)
    } else if event_end(buffer, at, order) > usize::MAX {
        Err(EventFault::LengthOverflow)
    } else if event_end(buffer, at, order) > buffer.len() {
        Err(EventFault::TruncatedName)
    } else {
        Ok(
            EventView {
                watch: word_at(buffer, at, order) as i32,
                mask: word_at(buffer, at + 4, order),
                name: before_zero(
                    buffer.subrange(at + EVENT_HEADER, event_end(buffer, at, order)),
                ),
            },
        )
    }
}

fn read_word(buffer: &[u8], at: usize, order: ByteOrder) -> (word: u32)
    requires
        at + 4 <= buffer@.len(),
    ensures
        word == word_at(buffer@, at as int, order),
{
    let size: usize = buffer.len();
    assert(at + 4 <= size);
    match order {
        ByteOrder::Little => (buffer[at] as u32) | ((buffer[at + 1] as u32) << 8) | ((buffer[at
            + 2] as u32) << 16) | ((buffer[at + 3] as u32) << 24),
        ByteOrder::Big => (buffer[at + 3] as u32) | ((buffer[at + 2] as u32) << 8) | ((buffer[at
            + 1] as u32) << 16) | ((buffer[at] as u32) << 24),
    }
}

fn cut_at_zero(bytes: &[u8]) -> (name: Vec<u8>)
    ensures
        name@ == before_zero(bytes@),
{
    let mut at: usize = 0;
    while at < bytes.len() && bytes[at] != 0
        invariant
            at <= bytes.len(),
            zero_at(bytes@, 0) == zero_at(bytes@, at as int),
        decreases bytes.len() - at,
    {
        at += 1;
    }
    get_range(bytes, 0, at)
}

/// Decodes the event at `at` and tells where the next one starts.
pub fn read_event(buffer: &[u8], at: usize, order: ByteOrder) -> (event: Result<
    (Event, usize),
    EventFault,
>)
    requires
        at <= buffer@.len(),
    ensures
        match event {
            Ok((event, end)) => event_at(buffer@, at as int, order) == Ok::<EventView, EventFault>(
                event@,
            ) && end == event_end(buffer@, at as int, order) && at < end <= buffer@.len(),
            Err(fault) => event_at(buffer@, at as int, order) == Err::<EventView, EventFault>(
                fault,
            ),
        },
{
    let size: usize = buffer.len();
    if size - at < EVENT_HEADER {
        return Err(EventFault::TruncatedHeader);
    }
    let watch: i32 = read_word(buffer, at, order) as i32;
    let mask: u32 = read_word(buffer, at + 4, order);
    let length: usize = read_word(buffer, at + 12, order) as usize;
    if length > usize::MAX - EVENT_HEADER - at {
        return Err(EventFault::LengthOverflow);
    }
    let end: usize = at + EVENT_HEADER + length;
    if end > size {
        return Err(EventFault::TruncatedName);
    }
    let field = get_range(buffer, at + EVENT_HEADER, end);
    Ok((Event { watch, mask, name: cut_at_zero(&field) }, end))
}

} // verus!
