//! Headers of the trace's packets and streams.

use super::{CacheCheck, Span};
use vstd::prelude::*;

verus! {

/// The common header of a packet or stream.
#[derive(Debug, Clone, Copy, PartialEq, Eq, Structural)]
pub struct Header {
    /// Size of the content, **without** the header.
    pub content_size: u32,
    /// Size of the content, **with** the header.
    pub total_content_size: u32,
    /// The clock range the content covers.
    pub timestamp: Span<u64>,
    /// The object identifier range the content covers.
    pub alloc_id: Span<u64>,
    /// The traced process.
    pub pid: u64,
    /// Version of the trace format.
    pub version: u16,
}

impl Header {
    /// Whether the format version carries a context field.
    pub fn has_context(&self) -> (r: bool)
        ensures
            r == (self.version >= 2),
    {
        self.version >= 2
    }
}

/// A whole trace: its header and its byte order.
#[derive(Debug, Clone, Copy, PartialEq, Eq, Structural)]
pub struct Ctf {
    /// The header.
    pub header: Header,
    /// True for big-endian payloads.
    pub big_e: bool,
}

impl Ctf {
    /// Constructor.
    pub fn new(header: Header, big_e: bool) -> (r: Ctf)
        ensures
            r == (Ctf { header, big_e }),
    {
        Ctf { header, big_e }
    }

    /// True for big-endian payloads.
    pub fn is_be(&self) -> (r: bool)
        ensures
            r == self.big_e,
    {
        self.big_e
    }
}

/// One packet of the trace.
#[derive(Debug, Clone, Copy, PartialEq, Eq, Structural)]
pub struct Packet {
    /// The header.
    pub header: Header,
    /// The cache probe the packet opens with.
    pub cache_check: CacheCheck,
    /// Position of the packet in the trace.
    pub id: usize,
}

impl Packet {
    /// Constructor.
    pub fn new(id: usize, header: Header, cache_check: CacheCheck) -> (r: Packet)
        ensures
            r == (Packet { header, cache_check, id }),
    {
        Packet { id, header, cache_check }
    }

    /// The header.
    pub fn header(&self) -> (r: &Header)
        ensures
            r == &self.header,
    {
        &self.header
    }

    /// The cache probe the packet opens with.
    pub fn cache_check(&self) -> (r: &CacheCheck)
        ensures
            r == &self.cache_check,
    {
        &self.cache_check
    }
}

/// The raw header of one event.
#[derive(Debug, Clone, Copy, PartialEq, Eq, Structural)]
pub struct Event {
    /// Truncated clock of the event.
    pub timestamp: u32,
    /// Raw code of the event.
    pub code: u8,
}

impl Event {
    /// Constructor.
    pub fn new(timestamp: u32, code: u8) -> (r: Event)
        ensures
            r == (Event { timestamp, code }),
    {
        Event { timestamp, code }
    }
}

} // verus!
