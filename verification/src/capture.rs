//! Reading the packets of a pcap or pcapng capture held in memory.

use vstd::prelude::*;

use crate::error::{parse_error, parse_error_with_prefix, TaplootError};
use crate::reader::{
    legacy_event, legacy_open_error, legacy_reader_consume, legacy_reader_new, legacy_reader_next,
    legacy_reader_refill, legacy_refill_error, ng_event, ng_open_error, ng_reader_consume,
    ng_reader_new, ng_reader_next, ng_reader_refill, ng_refill_error, LegacyEvent, LegacyEventView,
    short_process_block, word_at, NgEvent, NgEventView, ReaderPending, PROCESS_INFORMATION_BLOCK,
};

verus! {

/// Ten to the power `n`.
pub open spec fn pow10(n: nat) -> nat
    decreases n,
{
    if n == 0 {
        1
    } else {
        10 * pow10((n - 1) as nat)
    }
}

/// The interface time resolution in units per second that `if_tsresol` stands
/// for: `10^r` for `r <= 19`; no resolution otherwise (the power-of-two form,
/// flagged by the top bit, is always out of range for the crate).
pub open spec fn resolution_of(tsresol: u8) -> Option<u64> {
    if tsresol <= 19 {
        Some(pow10(tsresol as nat) as u64)
    } else {
        None
    }
}

/// Decodes an interface time resolution (`if_tsresol`) in units per second:
/// `10^r` for `r <= 19`, none otherwise, as `pcap_parser::build_ts_resolution`
/// does (its power-of-two form needs an exponent of at least 128, above its
/// limit of 63, so it never gives a resolution).
fn ts_resolution(tsresol: u8) -> (r: Option<u64>)
    ensures
        r == resolution_of(tsresol),
{
    if tsresol > 19 {
        return None;
    }
    let mut v: u64 = 1;
    let mut i: u8 = 0;
    while i < tsresol
        invariant
            i <= tsresol <= 19,
            v == pow10(i as nat),
        decreases tsresol - i,
    {
        proof {
            lemma_pow10_bounds((i + 1) as nat);
        }
        v = v * 10;
        i = i + 1;
    }
    Some(v)
}

/// Powers of ten up to `10^19` are at least one and fit in a `u64`.
pub proof fn lemma_pow10_bounds(n: nat)
    requires
        n <= 19,
    ensures
        1 <= pow10(n) <= pow10(19),
        pow10(19) == 10_000_000_000_000_000_000nat,
    decreases 19 - n,
{
    reveal_with_fuel(pow10, 20);
    if n < 19 {
        lemma_pow10_bounds(n + 1);
    }
}

/// The resolution assumed for an interface that does not state one, or for a
/// packet whose interface was not described: microseconds.
pub const DEFAULT_RESOLUTION: u64 = 1_000_000;

/// The buffer capacity of the readers.
pub const READER_CAPACITY: usize = 65536;

/// When a packet was captured, as the capture states it.
#[derive(Clone, Copy, PartialEq, Eq, Structural, Debug)]
pub enum PacketTime {
    /// A legacy pcap record: seconds and the microsecond field (taken as
    /// microseconds whatever the file's precision).
    Legacy { ts_sec: u32, ts_usec: u32 },
    /// A pcapng enhanced packet: the 64-bit count split in two words, with the
    /// interface's offset in seconds and resolution in units per second.
    Interface { ts_high: u32, ts_low: u32, ts_offset: u64, resolution: u64 },
    /// No time is recorded (pcapng simple packet block): time zero.
    Unset,
}

/// A captured frame and its time.
pub struct CapturedPacket {
    pub data: Vec<u8>,
    pub time: PacketTime,
}

/// The (offset, resolution) entry recorded for an interface description block.
pub open spec fn interface_entry(tsresol: u8, tsoffset: i64) -> (u64, u64) {
    (
        tsoffset as u64,
        match resolution_of(tsresol) {
            Some(r) => r,
            None => DEFAULT_RESOLUTION,
        },
    )
}

/// The time of an enhanced packet on interface `if_id`, given the entries of
/// the interfaces described so far; an unknown interface takes offset 0 and the
/// default resolution.
pub open spec fn enhanced_time(if_info: Seq<(u64, u64)>, if_id: u32, ts_high: u32, ts_low: u32) -> PacketTime {
    let e = if (if_id as int) < if_info.len() {
        if_info[if_id as int]
    } else {
        (0u64, DEFAULT_RESOLUTION)
    };
    PacketTime::Interface { ts_high, ts_low, ts_offset: e.0, resolution: e.1 }
}

/// An enhanced packet takes the offset and resolution of the interface it names:
/// the entry recorded by the `if_id`-th interface description, whatever the other
/// entries are; a packet on an interface not described takes offset 0 and
/// microseconds. Its timestamp words are kept as they are.
pub proof fn law_packet_time_of_its_interface(if_info: Seq<(u64, u64)>, if_id: u32, ts_high: u32, ts_low: u32)
    ensures
        (if_id as int) < if_info.len() ==> enhanced_time(if_info, if_id, ts_high, ts_low)
            == (PacketTime::Interface {
            ts_high,
            ts_low,
            ts_offset: if_info[if_id as int].0,
            resolution: if_info[if_id as int].1,
        }),
        (if_id as int) >= if_info.len() ==> enhanced_time(if_info, if_id, ts_high, ts_low)
            == (PacketTime::Interface { ts_high, ts_low, ts_offset: 0, resolution: 1_000_000 }),
{
}

/// Describing one more interface changes nothing for packets on the interfaces
/// described before it, and a packet on the new interface takes its entry.
pub proof fn law_later_interfaces_keep_earlier_times(
    if_info: Seq<(u64, u64)>,
    entry: (u64, u64),
    if_id: u32,
    ts_high: u32,
    ts_low: u32,
)
    ensures
        (if_id as int) < if_info.len() ==> enhanced_time(if_info.push(entry), if_id, ts_high, ts_low)
            == enhanced_time(if_info, if_id, ts_high, ts_low),
        (if_id as int) == if_info.len() ==> enhanced_time(if_info.push(entry), if_id, ts_high, ts_low)
            == (PacketTime::Interface { ts_high, ts_low, ts_offset: entry.0, resolution: entry.1 }),
{
}

/// A time whose resolution, if it has one, is at least one unit per second.
pub open spec fn time_well_formed(t: PacketTime) -> bool {
    t matches PacketTime::Interface { resolution, .. } ==> resolution >= 1
}

/// Every interface entry has a resolution of at least one.
pub open spec fn entries_well_formed(if_info: Seq<(u64, u64)>) -> bool {
    forall|i: int| 0 <= i < if_info.len() ==> (#[trigger] if_info[i]).1 >= 1
}

/// The entry recorded for an interface description block.
pub fn interface_info(tsresol: u8, tsoffset: i64) -> (e: (u64, u64))
    ensures
        e == interface_entry(tsresol, tsoffset),
        e.1 >= 1,
{
    let resolution = match ts_resolution(tsresol) {
        Some(r) => r,
        None => DEFAULT_RESOLUTION,
    };
    proof {
        if tsresol <= 19 {
            lemma_pow10_bounds(tsresol as nat);
        }
    }
    (tsoffset as u64, resolution)
}

/// The time of an enhanced packet on interface `if_id`.
pub fn packet_time(if_info: &Vec<(u64, u64)>, if_id: u32, ts_high: u32, ts_low: u32) -> (t: PacketTime)
    ensures
        t == enhanced_time(if_info@, if_id, ts_high, ts_low),
        entries_well_formed(if_info@) ==> time_well_formed(t),
{
    let (ts_offset, resolution) = if (if_id as usize) < if_info.len() {
        if_info[if_id as usize]
    } else {
        (0, DEFAULT_RESOLUTION)
    };
    PacketTime::Interface { ts_high, ts_low, ts_offset, resolution }
}

/// Every packet's time is well formed.
pub open spec fn packets_well_formed(ps: Seq<CapturedPacket>) -> bool {
    forall|i: int| 0 <= i < ps.len() ==> time_well_formed((#[trigger] ps[i]).time)
}

/// The frames and times of captured packets.
pub open spec fn frames(ps: Seq<CapturedPacket>) -> Seq<(Seq<u8>, PacketTime)> {
    ps.map_values(|p: CapturedPacket| (p.data@, p.time))
}

/// What a reader loop does after one event.
pub enum ReaderStep {
    /// Drop this many bytes read and go on.
    Consume(usize),
    /// Read more bytes and go on.
    Refill,
    /// The capture is read to its end.
    Finish,
    /// Stop with this error.
    Fail(TaplootError),
}

/// Takes one pcapng reader event: an interface description records its entry,
/// an enhanced packet is kept with its interface's time, a simple packet is
/// kept with no time, any block (a section header among them) is then consumed;
/// the end finishes, a short buffer asks for a refill, and an error fails with
/// "pcapng: " before its message.
pub fn on_ng_event(if_info: &mut Vec<(u64, u64)>, packets: &mut Vec<CapturedPacket>, ev: NgEvent) -> (step: ReaderStep)
    ensures
        match ev {
            NgEvent::Interface(o, r, off) => {
                &&& final(if_info)@ == old(if_info)@.push(interface_entry(r, off))
                &&& frames(final(packets)@) == frames(old(packets)@)
                &&& step == ReaderStep::Consume(o)
            },
            NgEvent::Enhanced(o, id, hi, lo, d) => {
                &&& final(if_info)@ == old(if_info)@
                &&& frames(final(packets)@) == frames(old(packets)@).push(
                    (d@, enhanced_time(old(if_info)@, id, hi, lo)),
                )
                &&& step == ReaderStep::Consume(o)
            },
            NgEvent::Simple(o, d) => {
                &&& final(if_info)@ == old(if_info)@
                &&& frames(final(packets)@) == frames(old(packets)@).push((d@, PacketTime::Unset))
                &&& step == ReaderStep::Consume(o)
            },
            NgEvent::Section(o, _) => {
                &&& final(if_info)@ == old(if_info)@
                &&& frames(final(packets)@) == frames(old(packets)@)
                &&& step == ReaderStep::Consume(o)
            },
            NgEvent::Other(o) => {
                &&& final(if_info)@ == old(if_info)@
                &&& frames(final(packets)@) == frames(old(packets)@)
                &&& step == ReaderStep::Consume(o)
            },
            NgEvent::Eof => final(if_info)@ == old(if_info)@ && frames(final(packets)@) == frames(
                old(packets)@,
            ) && step == ReaderStep::Finish,
            NgEvent::Incomplete => final(if_info)@ == old(if_info)@ && frames(final(packets)@)
                == frames(old(packets)@) && step == ReaderStep::Refill,
            NgEvent::Failed(m) => final(if_info)@ == old(if_info)@ && frames(final(packets)@)
                == frames(old(packets)@) && (step matches ReaderStep::Fail(TaplootError::Parse(t))
                && t@ == "pcapng: "@ + m@),
        },
        entries_well_formed(old(if_info)@) ==> entries_well_formed(final(if_info)@),
        entries_well_formed(old(if_info)@) && packets_well_formed(old(packets)@)
            ==> packets_well_formed(final(packets)@),
        (forall|i: int| 0 <= i < old(packets)@.len() ==> !((#[trigger] old(packets)@[i]).time is Legacy))
            ==> (forall|i: int| 0 <= i < final(packets)@.len() ==> !((#[trigger] final(packets)@[i]).time is Legacy)),
        step matches ReaderStep::Fail(e) ==> parse_error_with_prefix(e, "pcapng: "@),
{
    let ghost old_packets = packets@;
    match ev {
        NgEvent::Interface(offset, tsresol, tsoffset) => {
            let e = interface_info(tsresol, tsoffset);
            if_info.push(e);
            ReaderStep::Consume(offset)
        },
        NgEvent::Enhanced(offset, if_id, ts_high, ts_low, pkt) => {
            let time = packet_time(if_info, if_id, ts_high, ts_low);
            packets.push(CapturedPacket { data: pkt, time });
            proof {
                assert(frames(packets@) =~= frames(old_packets).push((packets@.last().data@, time)));
            }
            ReaderStep::Consume(offset)
        },
        NgEvent::Simple(offset, pkt) => {
            packets.push(CapturedPacket { data: pkt, time: PacketTime::Unset });
            proof {
                assert(frames(packets@) =~= frames(old_packets).push((packets@.last().data@, PacketTime::Unset)));
            }
            ReaderStep::Consume(offset)
        },
        NgEvent::Section(offset, _) => ReaderStep::Consume(offset),
        NgEvent::Other(offset) => ReaderStep::Consume(offset),
        NgEvent::Eof => ReaderStep::Finish,
        NgEvent::Incomplete => ReaderStep::Refill,
        NgEvent::Failed(e) => ReaderStep::Fail(parse_error("pcapng: ", e.as_str())),
    }
}

/// The number of reader calls a reading loop over `n` bytes allows itself:
/// every block consumes bytes, and at most two refills stand between two blocks.
pub open spec fn read_budget(n: nat) -> nat {
    3 * n + 16
}

/// The message of a reading loop that used up its budget.
pub open spec fn no_progress_message() -> Seq<char> {
    "pcap: "@ + "reader made no progress"@
}

/// The message for a process information block whose length is below the 12
/// bytes of a block's frame.
pub open spec fn short_block_message() -> Seq<char> {
    "pcapng: "@ + "process information block shorter than 12 bytes"@
}

/// What reading a pcapng capture gives from the `k`-th reader call on, with the
/// next block at `pos` in a section of byte order `big_endian`, the interface
/// entries `info` and the packets `acc` gathered so far: the packets read, and
/// the error message when reading stopped on an error (the packets read before
/// an error are kept). A process information block shorter than a block's
/// frame is refused before the reader is asked for it.
pub open spec fn ng_run(
    data: Seq<u8>,
    k: nat,
    pos: nat,
    big_endian: bool,
    info: Seq<(u64, u64)>,
    acc: Seq<(Seq<u8>, PacketTime)>,
) -> (Seq<(Seq<u8>, PacketTime)>, Option<Seq<char>>)
    decreases read_budget(data.len()) - k,
{
    if k >= read_budget(data.len()) {
        (acc, Some(no_progress_message()))
    } else if short_process_block(data, pos, big_endian) {
        (acc, Some(short_block_message()))
    } else {
        match ng_event(READER_CAPACITY, data, k) {
            NgEventView::Interface(o, r, off) => ng_run(
                data,
                k + 1,
                pos + (o as nat),
                big_endian,
                info.push(interface_entry(r, off)),
                acc,
            ),
            NgEventView::Enhanced(o, id, hi, lo, d) => ng_run(
                data,
                k + 1,
                pos + (o as nat),
                big_endian,
                info,
                acc.push((d, enhanced_time(info, id, hi, lo))),
            ),
            NgEventView::Simple(o, d) => ng_run(
                data,
                k + 1,
                pos + (o as nat),
                big_endian,
                info,
                acc.push((d, PacketTime::Unset)),
            ),
            NgEventView::Section(o, b) => ng_run(data, k + 1, pos + (o as nat), b, info, acc),
            NgEventView::Other(o) => ng_run(data, k + 1, pos + (o as nat), big_endian, info, acc),
            NgEventView::Eof => (acc, None),
            NgEventView::Incomplete => match ng_refill_error(READER_CAPACITY, data, k + 1) {
                Some(m) => (acc, Some("refill: "@ + m)),
                None => ng_run(data, k + 1, pos, big_endian, info, acc),
            },
            NgEventView::Failed(m) => (acc, Some("pcapng: "@ + m)),
        }
    }
}

/// What reading a pcapng capture gives: the first block is at the start, and
/// the byte order is little-endian until a section header says otherwise.
pub open spec fn ng_result(data: Seq<u8>) -> (Seq<(Seq<u8>, PacketTime)>, Option<Seq<char>>) {
    match ng_open_error(READER_CAPACITY, data) {
        Some(m) => (Seq::empty(), Some("pcapng reader: "@ + m)),
        None => ng_run(data, 0, 0, false, Seq::empty(), Seq::empty()),
    }
}

/// The 32-bit word at `p` in the given byte order.
fn read_word(data: &[u8], p: usize, big_endian: bool) -> (w: u64)
    requires
        p + 4 <= data@.len(),
    ensures
        w == word_at(data@, p as int, big_endian),
{
    let b0 = data[p] as u64;
    let b1 = data[p + 1] as u64;
    let b2 = data[p + 2] as u64;
    let b3 = data[p + 3] as u64;
    if big_endian {
        b0 * 16777216 + b1 * 65536 + b2 * 256 + b3
    } else {
        b0 + b1 * 256 + b2 * 65536 + b3 * 16777216
    }
}

/// Whether the bytes at `pos` hold a process information block shorter than a
/// block's frame; a position past the end holds none.
fn is_short_process_block(data: &[u8], pos: u128, big_endian: bool) -> (b: bool)
    requires
        pos <= data@.len() + 1,
    ensures
        b == short_process_block(data@, pos as nat, big_endian),
{
    let n: usize = data.len();
    if pos + 8 > n as u128 {
        return false;
    }
    let p = pos as usize;
    let kind = read_word(data, p, big_endian);
    let len = read_word(data, p + 4, big_endian);
    kind == PROCESS_INFORMATION_BLOCK as u64 && 4 <= len && len < 12
}

/// The packets read from a capture, in order, and the error that stopped the
/// reading, if one did.
pub struct CaptureRead {
    pub packets: Vec<CapturedPacket>,
    pub error: Option<TaplootError>,
}

/// The plain value of an optional error: its message.
pub open spec fn error_view(e: Option<TaplootError>) -> Option<Seq<char>> {
    match e {
        Some(TaplootError::Parse(m)) => Some(m@),
        None => None,
    }
}

/// The plain value of a [`CaptureRead`]: the frames and times of the packets,
/// and the error message.
pub open spec fn read_view(r: CaptureRead) -> (Seq<(Seq<u8>, PacketTime)>, Option<Seq<char>>) {
    (frames(r.packets@), error_view(r.error))
}

/// Reads the packets of a pcapng capture: enhanced packets take their time from
/// their interface's description (offset 0 and microseconds for an interface not
/// described), simple packets have no time, other blocks are skipped. When the
/// reader fails, the packets read before the failure are given with the error.
/// A process information block shorter than a block's frame is refused with
/// an error of its own before the reader is asked for it.
pub fn parse_pcapng_data(data: &[u8]) -> (r: CaptureRead)
    ensures
        read_view(r) == ng_result(data@),
        packets_well_formed(r.packets@),
        forall|i: int| 0 <= i < r.packets@.len() ==> !((#[trigger] r.packets@[i]).time is Legacy),
        r.error matches Some(e) ==> parse_error_with_prefix(e, "pcapng reader: "@)
            || parse_error_with_prefix(e, "refill: "@) || parse_error_with_prefix(e, "pcapng: "@)
            || parse_error_with_prefix(e, "pcap: "@),
{
    let mut packets: Vec<CapturedPacket> = Vec::new();
    proof {
        assert(frames(packets@) =~= Seq::<(Seq<u8>, PacketTime)>::empty());
    }
    let mut reader = match ng_reader_new(READER_CAPACITY, data) {
        Ok(r) => r,
        Err(e) => return CaptureRead { packets, error: Some(parse_error("pcapng reader: ", e.as_str())) },
    };
    let mut if_info: Vec<(u64, u64)> = Vec::new();
    let budget: u128 = 3 * (data.len() as u128) + 16;
    let mut steps: u128 = 0;
    // Where the next block starts, held at one past the end once beyond it,
    // and the byte order of the current section.
    let mut pos: u128 = 0;
    let mut big_endian: bool = false;
    proof {
        assert(if_info@ =~= Seq::<(u64, u64)>::empty());
    }
    while steps < budget
        invariant
            entries_well_formed(if_info@),
            packets_well_formed(packets@),
            forall|i: int| 0 <= i < packets@.len() ==> !((#[trigger] packets@[i]).time is Legacy),
            budget == read_budget(data@.len()),
            steps <= budget,
            reader.cap() == READER_CAPACITY,
            reader.data() == data@,
            reader.calls() == steps,
            reader.pending() == ReaderPending::Ready,
            pos as nat == if reader.pos() <= data@.len() { reader.pos() } else { data@.len() + 1 },
            big_endian == reader.big_endian(),
            ng_open_error(READER_CAPACITY, data@) is None,
            ng_result(data@) == ng_run(
                data@,
                steps as nat,
                reader.pos(),
                reader.big_endian(),
                if_info@,
                frames(packets@),
            ),
        decreases budget - steps,
    {
        if is_short_process_block(data, pos, big_endian) {
            return CaptureRead { packets, error: Some(short_block_error()) };
        }
        steps = steps + 1;
        let ev = ng_reader_next(&mut reader);
        if let NgEvent::Section(_, b) = &ev {
            big_endian = *b;
        }
        let step = on_ng_event(&mut if_info, &mut packets, ev);
        match step {
            ReaderStep::Consume(offset) => {
                ng_reader_consume(&mut reader, offset);
                let next: u128 = pos + offset as u128;
                pos = if next <= data.len() as u128 { next } else { data.len() as u128 + 1 };
            },
            ReaderStep::Refill => {
                match ng_reader_refill(&mut reader) {
                    Ok(()) => {},
                    Err(e) => return CaptureRead { packets, error: Some(parse_error("refill: ", e.as_str())) },
                }
            },
            ReaderStep::Finish => return CaptureRead { packets, error: None },
            ReaderStep::Fail(e) => return CaptureRead { packets, error: Some(e) },
        }
    }
    CaptureRead { packets, error: Some(no_progress_error()) }
}

/// The error for a process information block shorter than a block's frame.
fn short_block_error() -> (e: TaplootError)
    ensures
        parse_error_with_prefix(e, "pcapng: "@),
        e matches TaplootError::Parse(m) && m@ == short_block_message(),
{
    parse_error("pcapng: ", "process information block shorter than 12 bytes")
}

/// The error for a reader that keeps returning without reaching the end.
fn no_progress_error() -> (e: TaplootError)
    ensures
        parse_error_with_prefix(e, "pcap: "@),
        e matches TaplootError::Parse(m) && m@ == no_progress_message(),
{
    proof {
        reveal_strlit("reader made no progress");
    }
    parse_error("pcap: ", "reader made no progress")
}

/// Takes one legacy pcap reader event: a packet record is kept with its
/// seconds and microseconds, any block is then consumed; the end finishes, a
/// short buffer asks for a refill, and an error fails with "pcap: " before its
/// message.
pub fn on_legacy_event(packets: &mut Vec<CapturedPacket>, ev: LegacyEvent) -> (step: ReaderStep)
    ensures
        match ev {
            LegacyEvent::Packet(o, sec, usec, d) => {
                &&& frames(final(packets)@) == frames(old(packets)@).push(
                    (d@, PacketTime::Legacy { ts_sec: sec, ts_usec: usec }),
                )
                &&& step == ReaderStep::Consume(o)
            },
            LegacyEvent::Other(o) => frames(final(packets)@) == frames(old(packets)@) && step
                == ReaderStep::Consume(o),
            LegacyEvent::Eof => frames(final(packets)@) == frames(old(packets)@) && step
                == ReaderStep::Finish,
            LegacyEvent::Incomplete => frames(final(packets)@) == frames(old(packets)@) && step
                == ReaderStep::Refill,
            LegacyEvent::Failed(m) => frames(final(packets)@) == frames(old(packets)@) && (
            step matches ReaderStep::Fail(TaplootError::Parse(t)) && t@ == "pcap: "@ + m@),
        },
        packets_well_formed(old(packets)@) ==> packets_well_formed(final(packets)@),
        (forall|i: int| 0 <= i < old(packets)@.len() ==> (#[trigger] old(packets)@[i]).time is Legacy)
            ==> (forall|i: int| 0 <= i < final(packets)@.len() ==> (#[trigger] final(packets)@[i]).time is Legacy),
        step matches ReaderStep::Fail(e) ==> parse_error_with_prefix(e, "pcap: "@),
{
    let ghost old_packets = packets@;
    match ev {
        LegacyEvent::Packet(offset, ts_sec, ts_usec, pkt) => {
            let time = PacketTime::Legacy { ts_sec, ts_usec };
            packets.push(CapturedPacket { data: pkt, time });
            proof {
                assert(frames(packets@) =~= frames(old_packets).push((packets@.last().data@, time)));
            }
            ReaderStep::Consume(offset)
        },
        LegacyEvent::Other(offset) => ReaderStep::Consume(offset),
        LegacyEvent::Eof => ReaderStep::Finish,
        LegacyEvent::Incomplete => ReaderStep::Refill,
        LegacyEvent::Failed(e) => ReaderStep::Fail(parse_error("pcap: ", e.as_str())),
    }
}

/// What reading a legacy pcap capture gives from the `k`-th reader call on,
/// with the packets `acc` gathered so far: the packets read, and the error
/// message when reading stopped on an error.
pub open spec fn legacy_run(
    data: Seq<u8>,
    k: nat,
    acc: Seq<(Seq<u8>, PacketTime)>,
) -> (Seq<(Seq<u8>, PacketTime)>, Option<Seq<char>>)
    decreases read_budget(data.len()) - k,
{
    if k >= read_budget(data.len()) {
        (acc, Some(no_progress_message()))
    } else {
        match legacy_event(READER_CAPACITY, data, k) {
            LegacyEventView::Packet(_, sec, usec, d) => legacy_run(
                data,
                k + 1,
                acc.push((d, PacketTime::Legacy { ts_sec: sec, ts_usec: usec })),
            ),
            LegacyEventView::Other(_) => legacy_run(data, k + 1, acc),
            LegacyEventView::Eof => (acc, None),
            LegacyEventView::Incomplete => match legacy_refill_error(READER_CAPACITY, data, k + 1) {
                Some(m) => (acc, Some("refill: "@ + m)),
                None => legacy_run(data, k + 1, acc),
            },
            LegacyEventView::Failed(m) => (acc, Some("pcap: "@ + m)),
        }
    }
}

/// What reading a legacy pcap capture gives.
pub open spec fn legacy_result(data: Seq<u8>) -> (Seq<(Seq<u8>, PacketTime)>, Option<Seq<char>>) {
    match legacy_open_error(READER_CAPACITY, data) {
        Some(m) => (Seq::empty(), Some("pcap reader: "@ + m)),
        None => legacy_run(data, 0, Seq::empty()),
    }
}

/// Reads the packets of a legacy pcap capture; each record's time is its seconds
/// and microseconds fields. When the reader fails, the records read before the
/// failure are given with the error.
pub fn parse_legacy_data(data: &[u8]) -> (r: CaptureRead)
    ensures
        read_view(r) == legacy_result(data@),
        packets_well_formed(r.packets@),
        forall|i: int| 0 <= i < r.packets@.len() ==> (#[trigger] r.packets@[i]).time is Legacy,
        r.error matches Some(e) ==> parse_error_with_prefix(e, "pcap reader: "@)
            || parse_error_with_prefix(e, "refill: "@) || parse_error_with_prefix(e, "pcap: "@),
{
    let mut packets: Vec<CapturedPacket> = Vec::new();
    proof {
        assert(frames(packets@) =~= Seq::<(Seq<u8>, PacketTime)>::empty());
    }
    let mut reader = match legacy_reader_new(READER_CAPACITY, data) {
        Ok(r) => r,
        Err(e) => return CaptureRead { packets, error: Some(parse_error("pcap reader: ", e.as_str())) },
    };
    let budget: u128 = 3 * (data.len() as u128) + 16;
    let mut steps: u128 = 0;
    while steps < budget
        invariant
            packets_well_formed(packets@),
            forall|i: int| 0 <= i < packets@.len() ==> (#[trigger] packets@[i]).time is Legacy,
            budget == read_budget(data@.len()),
            steps <= budget,
            reader.cap() == READER_CAPACITY,
            reader.data() == data@,
            reader.calls() == steps,
            reader.pending() == ReaderPending::Ready,
            legacy_open_error(READER_CAPACITY, data@) is None,
            legacy_result(data@) == legacy_run(data@, steps as nat, frames(packets@)),
        decreases budget - steps,
    {
        steps = steps + 1;
        let ev = legacy_reader_next(&mut reader);
        let step = on_legacy_event(&mut packets, ev);
        match step {
            ReaderStep::Consume(offset) => {
                legacy_reader_consume(&mut reader, offset);
            },
            ReaderStep::Refill => {
                match legacy_reader_refill(&mut reader) {
                    Ok(()) => {},
                    Err(e) => return CaptureRead { packets, error: Some(parse_error("refill: ", e.as_str())) },
                }
            },
            ReaderStep::Finish => return CaptureRead { packets, error: None },
            ReaderStep::Fail(e) => return CaptureRead { packets, error: Some(e) },
        }
    }
    CaptureRead { packets, error: Some(no_progress_error()) }
}

/// The magic number of a pcapng capture (its section header block type), read
/// little-endian from the first four bytes.
pub const PCAPNG_MAGIC: u32 = 0x0A0D_0D0A;

/// Whether the first four bytes, read little-endian, are the pcapng magic.
pub open spec fn is_pcapng_magic(b: Seq<u8>) -> bool {
    b[0] == 0x0A && b[1] == 0x0D && b[2] == 0x0D && b[3] == 0x0A
}

/// What reading a capture gives: fewer than four bytes are refused with no
/// packet, the pcapng magic selects the pcapng reader, anything else the legacy
/// pcap reader.
pub open spec fn capture_result(buf: Seq<u8>) -> (Seq<(Seq<u8>, PacketTime)>, Option<Seq<char>>) {
    if buf.len() < 4 {
        (Seq::empty(), Some("file too small"@))
    } else if is_pcapng_magic(buf) {
        ng_result(buf)
    } else {
        legacy_result(buf)
    }
}

/// Reads the packets of a capture, choosing pcapng or legacy pcap by the first
/// four bytes; a capture of fewer than four bytes is refused.
pub fn read_capture(buf: &[u8]) -> (r: CaptureRead)
    ensures
        read_view(r) == capture_result(buf@),
        packets_well_formed(r.packets@),
        buf@.len() >= 4 && is_pcapng_magic(buf@) ==> forall|i: int|
            0 <= i < r.packets@.len() ==> !((#[trigger] r.packets@[i]).time is Legacy),
        buf@.len() >= 4 && !is_pcapng_magic(buf@) ==> forall|i: int|
            0 <= i < r.packets@.len() ==> (#[trigger] r.packets@[i]).time is Legacy,
{
    if buf.len() < 4 {
        let packets: Vec<CapturedPacket> = Vec::new();
        proof {
            assert(frames(packets@) =~= Seq::<(Seq<u8>, PacketTime)>::empty());
        }
        return CaptureRead { packets, error: Some(TaplootError::Parse(String::from_str("file too small"))) };
    }
    let magic: u32 = (buf[0] as u32) + (buf[1] as u32) * 256 + (buf[2] as u32) * 65536 + (buf[3] as u32) * 16777216;
    if magic == PCAPNG_MAGIC {
        parse_pcapng_data(buf)
    } else {
        parse_legacy_data(buf)
    }
}

} // verus!
