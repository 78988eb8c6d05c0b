//! The capture readers of `pcap-parser`, held together with a record of what
//! they were opened on and how they have been driven. The record's fields are
//! private to this module: only the reader operations below change them.

use pcap_parser::traits::PcapReaderIterator;
use pcap_parser::Block::{EnhancedPacket, InterfaceDescription, SectionHeader, SimplePacket};
use pcap_parser::PcapBlockOwned::{Legacy, NG};
use pcap_parser::{LegacyPcapReader, PcapError, PcapNGReader};
use std::io::Cursor;
use vstd::prelude::*;

verus! {

/// A pcapng reader (`pcap_parser::PcapNGReader`) over a capture held in
/// memory, kept as an opaque value: nothing in the library looks inside it.
#[verifier::external_body]
struct NgReader<'a> {
    inner: PcapNGReader<Cursor<&'a [u8]>>,
}

/// A legacy pcap reader (`pcap_parser::LegacyPcapReader`) over a capture held
/// in memory, kept as an opaque value like [`NgReader`].
#[verifier::external_body]
struct LegacyReader<'a> {
    inner: LegacyPcapReader<Cursor<&'a [u8]>>,
}

/// What a reader expects next from the loop that drives it: a call of `next`,
/// the consumption of the block it gave, a refill after a short buffer, or
/// nothing more (after the end or an error).
pub enum ReaderPending {
    Ready,
    Consume(usize),
    Refill,
    Closed,
}

/// A pcapng reader together with what it was opened on (capacity and bytes),
/// how many times `next` has been called, what it expects next, where its next
/// block starts and the byte order of the current section.
pub struct NgSession<'a> {
    r: NgReader<'a>,
    cap: Ghost<usize>,
    data: Ghost<Seq<u8>>,
    calls: Ghost<nat>,
    pending: Ghost<ReaderPending>,
    pos: Ghost<nat>,
    be: Ghost<bool>,
}

/// A legacy pcap reader with the same record as [`NgSession`].
pub struct LegacySession<'a> {
    r: LegacyReader<'a>,
    cap: Ghost<usize>,
    data: Ghost<Seq<u8>>,
    calls: Ghost<nat>,
    pending: Ghost<ReaderPending>,
}

impl<'a> NgSession<'a> {
    /// Where in the bytes the reader parses its next block: the sum of the
    /// offsets consumed.
    pub closed spec fn pos(&self) -> nat {
        self.pos@
    }

    /// Whether the reader takes the current section as big-endian.
    pub closed spec fn big_endian(&self) -> bool {
        self.be@
    }

    /// The capacity the reader was opened with.
    pub closed spec fn cap(&self) -> usize {
        self.cap@
    }

    /// The bytes the reader was opened on.
    pub closed spec fn data(&self) -> Seq<u8> {
        self.data@
    }

    /// How many times `next` has been called.
    pub closed spec fn calls(&self) -> nat {
        self.calls@
    }

    /// What the reader expects next.
    pub closed spec fn pending(&self) -> ReaderPending {
        self.pending@
    }
}

impl<'a> LegacySession<'a> {
    /// The capacity the reader was opened with.
    pub closed spec fn cap(&self) -> usize {
        self.cap@
    }

    /// The bytes the reader was opened on.
    pub closed spec fn data(&self) -> Seq<u8> {
        self.data@
    }

    /// How many times `next` has been called.
    pub closed spec fn calls(&self) -> nat {
        self.calls@
    }

    /// What the reader expects next.
    pub closed spec fn pending(&self) -> ReaderPending {
        self.pending@
    }
}

/// What one call of a pcapng reader's `next` gave, as plain values.
pub enum NgEvent {
    /// An interface description block: bytes to consume, `if_tsresol`, `if_tsoffset`.
    Interface(usize, u8, i64),
    /// An enhanced packet block: bytes to consume, interface id, timestamp high
    /// and low words, packet data.
    Enhanced(usize, u32, u32, u32, Vec<u8>),
    /// A simple packet block: bytes to consume, packet data.
    Simple(usize, Vec<u8>),
    /// A section header block: bytes to consume, whether the section is big-endian.
    Section(usize, bool),
    /// Any other block: bytes to consume.
    Other(usize),
    Eof,
    Incomplete,
    /// Any other error, with its message.
    Failed(String),
}

/// The plain value of an [`NgEvent`].
pub enum NgEventView {
    Interface(usize, u8, i64),
    Enhanced(usize, u32, u32, u32, Seq<u8>),
    Simple(usize, Seq<u8>),
    Section(usize, bool),
    Other(usize),
    Eof,
    Incomplete,
    Failed(Seq<char>),
}

impl View for NgEvent {
    type V = NgEventView;

    open spec fn view(&self) -> NgEventView {
        match self {
            NgEvent::Interface(o, r, off) => NgEventView::Interface(*o, *r, *off),
            NgEvent::Enhanced(o, id, hi, lo, d) => NgEventView::Enhanced(*o, *id, *hi, *lo, d@),
            NgEvent::Simple(o, d) => NgEventView::Simple(*o, d@),
            NgEvent::Section(o, be) => NgEventView::Section(*o, *be),
            NgEvent::Other(o) => NgEventView::Other(*o),
            NgEvent::Eof => NgEventView::Eof,
            NgEvent::Incomplete => NgEventView::Incomplete,
            NgEvent::Failed(m) => NgEventView::Failed(m@),
        }
    }
}

/// What a pcapng reader expects after giving an event.
pub open spec fn ng_pending(e: NgEventView) -> ReaderPending {
    match e {
        NgEventView::Interface(o, _, _) => ReaderPending::Consume(o),
        NgEventView::Enhanced(o, _, _, _, _) => ReaderPending::Consume(o),
        NgEventView::Simple(o, _) => ReaderPending::Consume(o),
        NgEventView::Section(o, _) => ReaderPending::Consume(o),
        NgEventView::Other(o) => ReaderPending::Consume(o),
        NgEventView::Incomplete => ReaderPending::Refill,
        NgEventView::Eof => ReaderPending::Closed,
        NgEventView::Failed(_) => ReaderPending::Closed,
    }
}

/// What one call of a legacy pcap reader's `next` gave, as plain values.
pub enum LegacyEvent {
    /// A packet record: bytes to consume, seconds, microseconds, packet data.
    Packet(usize, u32, u32, Vec<u8>),
    /// The file header: bytes to consume.
    Other(usize),
    Eof,
    Incomplete,
    Failed(String),
}

/// The plain value of a [`LegacyEvent`].
pub enum LegacyEventView {
    Packet(usize, u32, u32, Seq<u8>),
    Other(usize),
    Eof,
    Incomplete,
    Failed(Seq<char>),
}

impl View for LegacyEvent {
    type V = LegacyEventView;

    open spec fn view(&self) -> LegacyEventView {
        match self {
            LegacyEvent::Packet(o, s, u, d) => LegacyEventView::Packet(*o, *s, *u, d@),
            LegacyEvent::Other(o) => LegacyEventView::Other(*o),
            LegacyEvent::Eof => LegacyEventView::Eof,
            LegacyEvent::Incomplete => LegacyEventView::Incomplete,
            LegacyEvent::Failed(m) => LegacyEventView::Failed(m@),
        }
    }
}

/// What a legacy pcap reader expects after giving an event.
pub open spec fn legacy_pending(e: LegacyEventView) -> ReaderPending {
    match e {
        LegacyEventView::Packet(o, _, _, _) => ReaderPending::Consume(o),
        LegacyEventView::Other(o) => ReaderPending::Consume(o),
        LegacyEventView::Incomplete => ReaderPending::Refill,
        LegacyEventView::Eof => ReaderPending::Closed,
        LegacyEventView::Failed(_) => ReaderPending::Closed,
    }
}

/// The block type of a pcapng process information block.
pub const PROCESS_INFORMATION_BLOCK: u32 = 0x8000_0001;

/// The 32-bit word at `p`, in the byte order of the section.
pub open spec fn word_at(d: Seq<u8>, p: int, big_endian: bool) -> int {
    if big_endian {
        d[p] * 16777216 + d[p + 1] * 65536 + d[p + 2] * 256 + d[p + 3]
    } else {
        d[p] + d[p + 1] * 256 + d[p + 2] * 65536 + d[p + 3] * 16777216
    }
}

/// Whether the bytes at `p` hold the type and length of a process information
/// block whose length is below the 12 bytes of a block's frame. `PcapNGReader`
/// accepts such a block's header (its minimum for this block type is 4 bytes),
/// then takes 12 from the length, which overflows.
pub open spec fn short_process_block(d: Seq<u8>, p: nat, big_endian: bool) -> bool {
    &&& p + 8 <= d.len()
    &&& word_at(d, p as int, big_endian) == PROCESS_INFORMATION_BLOCK
    &&& 4 <= word_at(d, p + 4int, big_endian) < 12
}

/// The message of `PcapNGReader::new(capacity, Cursor::new(data))` when it
/// refuses the bytes; `None` when it opens.
pub uninterp spec fn ng_open_error(capacity: usize, data: Seq<u8>) -> Option<Seq<char>>;

/// What the `k`-th call (from 0) of `next` gives on a `PcapNGReader` opened with
/// `capacity` over `data`, when every block it gave was consumed by its offset
/// and every short buffer was refilled before the next call.
pub uninterp spec fn ng_event(capacity: usize, data: Seq<u8>, k: nat) -> NgEventView;

/// The message of the refill of such a reader after its `k`-th call of `next`
/// (counting from 1) reported a short buffer; `None` when the refill succeeds.
pub uninterp spec fn ng_refill_error(capacity: usize, data: Seq<u8>, k: nat) -> Option<Seq<char>>;

/// The message of `LegacyPcapReader::new(capacity, Cursor::new(data))` when it
/// refuses the bytes; `None` when it opens.
pub uninterp spec fn legacy_open_error(capacity: usize, data: Seq<u8>) -> Option<Seq<char>>;

/// What the `k`-th call (from 0) of `next` gives on a `LegacyPcapReader` opened
/// with `capacity` over `data`, driven as for [`ng_event`].
pub uninterp spec fn legacy_event(capacity: usize, data: Seq<u8>, k: nat) -> LegacyEventView;

/// The message of the refill of such a reader after its `k`-th call of `next`
/// (counting from 1) reported a short buffer; `None` when the refill succeeds.
pub uninterp spec fn legacy_refill_error(capacity: usize, data: Seq<u8>, k: nat) -> Option<Seq<char>>;

/// Opens a pcapng reader with `pcap_parser::PcapNGReader::new` over the bytes;
/// the error is the reader's message. The reader reads from an in-memory
/// cursor, so what it gives is fixed by the capacity, the bytes and the calls
/// made; the contract names it (`ng_open_error`) and records the bytes.
#[verifier::external_body]
pub fn ng_reader_new<'a>(capacity: usize, data: &'a [u8]) -> (res: Result<NgSession<'a>, String>)
    ensures
        match res {
            Ok(s) => ng_open_error(capacity, data@) is None && s.cap() == capacity && s.data() == data@
                && s.calls() == 0 && s.pending() == ReaderPending::Ready && s.pos() == 0
                && !s.big_endian(),
            Err(m) => ng_open_error(capacity, data@) == Some(m@),
        },
{
    match PcapNGReader::new(capacity, Cursor::new(data)) {
        Ok(inner) => Ok(NgSession { r: NgReader { inner }, cap: Ghost(capacity), data: Ghost(data@), calls: Ghost(0), pending: Ghost(ReaderPending::Ready), pos: Ghost(0), be: Ghost(false) }),
        Err(e) => Err(format!("{e}")),
    }
}

/// Takes the next block with `PcapReaderIterator::next` of `PcapNGReader`: the
/// `k`-th call gives `ng_event(capacity, data, k)`. The reader parses its next
/// block at `pos()` (the sum of the offsets consumed) in the byte order of the
/// last section header it gave (little-endian before the first). It is not
/// called where that block is a process information block whose length field
/// is 4 to 11: the reader checks that length only against 4, then takes 12
/// from it, which overflows.
#[verifier::external_body]
pub fn ng_reader_next(s: &mut NgSession) -> (res: NgEvent)
    requires
        old(s).pending() == ReaderPending::Ready,
        !short_process_block(old(s).data(), old(s).pos(), old(s).big_endian()),
    ensures
        res@ == ng_event(old(s).cap(), old(s).data(), old(s).calls()),
        final(s).pos() == old(s).pos(),
        final(s).big_endian() == match res@ {
            NgEventView::Section(_, be) => be,
            _ => old(s).big_endian(),
        },
        final(s).cap() == old(s).cap(),
        final(s).data() == old(s).data(),
        final(s).calls() == old(s).calls() + 1,
        final(s).pending() == ng_pending(res@),
{
    match s.r.inner.next() {
        Ok((o, NG(InterfaceDescription(b)))) => NgEvent::Interface(o, b.if_tsresol, b.if_tsoffset),
        Ok((o, NG(EnhancedPacket(b)))) => NgEvent::Enhanced(o, b.if_id, b.ts_high, b.ts_low, b.data.to_vec()),
        Ok((o, NG(SimplePacket(b)))) => NgEvent::Simple(o, b.data.to_vec()),
        Ok((o, NG(SectionHeader(b)))) => NgEvent::Section(o, b.big_endian()),
        Ok((o, _)) => NgEvent::Other(o),
        Err(PcapError::Eof) => NgEvent::Eof,
        Err(PcapError::Incomplete(_)) => NgEvent::Incomplete,
        Err(e) => NgEvent::Failed(format!("{e}")),
    }
}

/// Drops the bytes of the block just given, with `PcapReaderIterator::consume`
/// of `PcapNGReader`.
#[verifier::external_body]
pub fn ng_reader_consume(s: &mut NgSession, offset: usize)
    requires
        old(s).pending() == ReaderPending::Consume(offset),
    ensures
        final(s).pos() == old(s).pos() + offset,
        final(s).big_endian() == old(s).big_endian(),
        final(s).cap() == old(s).cap(),
        final(s).data() == old(s).data(),
        final(s).calls() == old(s).calls(),
        final(s).pending() == ReaderPending::Ready,
{
    s.r.inner.consume(offset)
}

/// Reads more bytes into the buffer, with `PcapReaderIterator::refill` of
/// `PcapNGReader`; the error is the reader's message, named `ng_refill_error`.
#[verifier::external_body]
pub fn ng_reader_refill(s: &mut NgSession) -> (res: Result<(), String>)
    requires
        old(s).pending() == ReaderPending::Refill,
    ensures
        final(s).pos() == old(s).pos(),
        final(s).big_endian() == old(s).big_endian(),
        match res {
            Ok(()) => ng_refill_error(old(s).cap(), old(s).data(), old(s).calls()) is None,
            Err(m) => ng_refill_error(old(s).cap(), old(s).data(), old(s).calls()) == Some(m@),
        },
        final(s).cap() == old(s).cap(),
        final(s).data() == old(s).data(),
        final(s).calls() == old(s).calls(),
        final(s).pending() == ReaderPending::Ready,
{
    match s.r.inner.refill() {
        Ok(()) => Ok(()),
        Err(e) => Err(format!("{e}")),
    }
}

/// Opens a legacy pcap reader with `pcap_parser::LegacyPcapReader::new` over the
/// bytes; the error is the reader's message. As for [`ng_reader_new`], the
/// contract names what the reader gives (`legacy_open_error`) and records the bytes.
#[verifier::external_body]
pub fn legacy_reader_new<'a>(capacity: usize, data: &'a [u8]) -> (res: Result<LegacySession<'a>, String>)
    ensures
        match res {
            Ok(s) => legacy_open_error(capacity, data@) is None && s.cap() == capacity && s.data()
                == data@ && s.calls() == 0 && s.pending() == ReaderPending::Ready,
            Err(m) => legacy_open_error(capacity, data@) == Some(m@),
        },
{
    match LegacyPcapReader::new(capacity, Cursor::new(data)) {
        Ok(inner) => Ok(LegacySession { r: LegacyReader { inner }, cap: Ghost(capacity), data: Ghost(data@), calls: Ghost(0), pending: Ghost(ReaderPending::Ready) }),
        Err(e) => Err(format!("{e}")),
    }
}

/// Takes the next block with `PcapReaderIterator::next` of `LegacyPcapReader`:
/// the `k`-th call gives `legacy_event(capacity, data, k)`.
#[verifier::external_body]
pub fn legacy_reader_next(s: &mut LegacySession) -> (res: LegacyEvent)
    requires
        old(s).pending() == ReaderPending::Ready,
    ensures
        res@ == legacy_event(old(s).cap(), old(s).data(), old(s).calls()),
        final(s).cap() == old(s).cap(),
        final(s).data() == old(s).data(),
        final(s).calls() == old(s).calls() + 1,
        final(s).pending() == legacy_pending(res@),
{
    match s.r.inner.next() {
        Ok((o, Legacy(b))) => LegacyEvent::Packet(o, b.ts_sec, b.ts_usec, b.data.to_vec()),
        Ok((o, _)) => LegacyEvent::Other(o),
        Err(PcapError::Eof) => LegacyEvent::Eof,
        Err(PcapError::Incomplete(_)) => LegacyEvent::Incomplete,
        Err(e) => LegacyEvent::Failed(format!("{e}")),
    }
}

/// Drops the bytes of the block just given, with `PcapReaderIterator::consume`
/// of `LegacyPcapReader`.
#[verifier::external_body]
pub fn legacy_reader_consume(s: &mut LegacySession, offset: usize)
    requires
        old(s).pending() == ReaderPending::Consume(offset),
    ensures
        final(s).cap() == old(s).cap(),
        final(s).data() == old(s).data(),
        final(s).calls() == old(s).calls(),
        final(s).pending() == ReaderPending::Ready,
{
    s.r.inner.consume(offset)
}

/// Reads more bytes into the buffer, with `PcapReaderIterator::refill` of
/// `LegacyPcapReader`; the error is the reader's message, named
/// `legacy_refill_error`.
#[verifier::external_body]
pub fn legacy_reader_refill(s: &mut LegacySession) -> (res: Result<(), String>)
    requires
        old(s).pending() == ReaderPending::Refill,
    ensures
        match res {
            Ok(()) => legacy_refill_error(old(s).cap(), old(s).data(), old(s).calls()) is None,
            Err(m) => legacy_refill_error(old(s).cap(), old(s).data(), old(s).calls()) == Some(m@),
        },
        final(s).cap() == old(s).cap(),
        final(s).data() == old(s).data(),
        final(s).calls() == old(s).calls(),
        final(s).pending() == ReaderPending::Ready,
{
    match s.r.inner.refill() {
        Ok(()) => Ok(()),
        Err(e) => Err(format!("{e}")),
    }
}

} // verus!
