//! Reading a capture to its end: when the reader gives blocks and short
//! buffers (each refilled) until the end, the capture is read whole, with no
//! error, whatever its size. The reading loops' call budget never cuts such a
//! reading short.

use vstd::prelude::*;

use crate::capture::{
    enhanced_time, interface_entry, legacy_result, legacy_run, ng_result, ng_run, read_budget,
    PacketTime, READER_CAPACITY,
};
use crate::reader::{
    legacy_event, legacy_open_error, legacy_refill_error, ng_event, ng_open_error, ng_refill_error,
    short_process_block, LegacyEventView, NgEventView,
};

verus! {

/// The bytes consumed by the first `k` reader events, given what each event
/// consumes.
pub open spec fn consumed_sum(consumed: spec_fn(nat) -> nat, k: nat) -> nat
    decreases k,
{
    if k == 0 {
        0
    } else {
        consumed_sum(consumed, (k - 1) as nat) + consumed((k - 1) as nat)
    }
}

/// The number of short buffers in a row just before the `k`-th reader event.
pub open spec fn short_run(short: spec_fn(nat) -> bool, k: nat) -> nat
    decreases k,
{
    if k == 0 {
        0
    } else if short((k - 1) as nat) {
        short_run(short, (k - 1) as nat) + 1
    } else {
        0
    }
}

/// With no three short buffers in a row among the first `m` events, at most two
/// stand in a row before any of them.
proof fn lemma_short_run_at_most_two(short: spec_fn(nat) -> bool, m: nat, k: nat)
    requires
        k <= m,
        forall|j: nat| j + 2 < m ==> !(#[trigger] short(j) && short(j + 1) && short(j + 2)),
    ensures
        short_run(short, k) <= 2,
{
    if k >= 3 && short((k - 1) as nat) && short((k - 2) as nat) && short((k - 3) as nat) {
        let j = (k - 3) as nat;
        assert(j + 2 < m);
        assert(short(j) && short(j + 1) && short(j + 2));
    }
    reveal_with_fuel(short_run, 4);
}

/// Counting the events from `k` on: each event that is not a short buffer
/// consumes at least one byte, and short buffers come at most two in a row.
proof fn lemma_calls_from(consumed: spec_fn(nat) -> nat, short: spec_fn(nat) -> bool, m: nat, k: nat)
    requires
        k <= m,
        forall|j: nat| j < m ==> #[trigger] short(j) || consumed(j) >= 1,
        forall|j: nat| j + 2 < m ==> !(#[trigger] short(j) && short(j + 1) && short(j + 2)),
    ensures
        (m - k) + short_run(short, k) <= 3 * (consumed_sum(consumed, m) - consumed_sum(consumed, k)) + 2,
    decreases m - k,
{
    lemma_short_run_at_most_two(short, m, k);
    if k < m {
        lemma_calls_from(consumed, short, m, k + 1);
        assert(consumed_sum(consumed, k + 1) == consumed_sum(consumed, k) + consumed(k));
        assert(short_run(short, k + 1) == if short(k) { short_run(short, k) + 1 } else { 0 });
    }
}

/// A run of `m` reader events in which every event that is not a short buffer
/// consumes at least one byte, and short buffers come at most two in a row, is
/// at most three times the bytes consumed, plus two.
proof fn lemma_calls_bounded(consumed: spec_fn(nat) -> nat, short: spec_fn(nat) -> bool, m: nat)
    requires
        forall|j: nat| j < m ==> #[trigger] short(j) || consumed(j) >= 1,
        forall|j: nat| j + 2 < m ==> !(#[trigger] short(j) && short(j + 1) && short(j + 2)),
    ensures
        m <= 3 * consumed_sum(consumed, m) + 2,
{
    lemma_calls_from(consumed, short, m, 0);
}

// ---------------------------------------------------------------------------
// Legacy pcap
// ---------------------------------------------------------------------------

/// The bytes the `k`-th event of a legacy reader over `data` consumes: its
/// offset for a record or the file header, none otherwise.
pub open spec fn legacy_consumed(data: Seq<u8>) -> spec_fn(nat) -> nat {
    |k: nat|
        match legacy_event(READER_CAPACITY, data, k) {
            LegacyEventView::Packet(o, _, _, _) => o as nat,
            LegacyEventView::Other(o) => o as nat,
            _ => 0,
        }
}

/// Whether the `k`-th event of a legacy reader over `data` is a short buffer.
pub open spec fn legacy_short(data: Seq<u8>) -> spec_fn(nat) -> bool {
    |k: nat| legacy_event(READER_CAPACITY, data, k) is Incomplete
}

/// Whether the first `m` events of a legacy reader over `data` are records or
/// headers that each consume bytes, or short buffers whose refill succeeds, with
/// no three short buffers in a row, and the `m`-th event is the end.
pub open spec fn legacy_reads_to_end(data: Seq<u8>, m: nat) -> bool {
    &&& legacy_open_error(READER_CAPACITY, data) is None
    &&& legacy_event(READER_CAPACITY, data, m) is Eof
    &&& forall|j: nat| j < m ==> match #[trigger] legacy_event(READER_CAPACITY, data, j) {
        LegacyEventView::Packet(o, _, _, _) => o >= 1,
        LegacyEventView::Other(o) => o >= 1,
        LegacyEventView::Incomplete => legacy_refill_error(READER_CAPACITY, data, j + 1) is None,
        _ => false,
    }
    &&& forall|j: nat| j + 2 < m ==> !(#[trigger] legacy_short(data)(j) && legacy_short(data)(j + 1)
        && legacy_short(data)(j + 2))
    &&& consumed_sum(legacy_consumed(data), m) <= data.len()
}

/// The records among the legacy reader's events `k` up to `m`, each with its
/// seconds and microseconds.
pub open spec fn legacy_records(data: Seq<u8>, k: nat, m: nat) -> Seq<(Seq<u8>, PacketTime)>
    decreases m - k,
{
    if k >= m {
        Seq::empty()
    } else {
        match legacy_event(READER_CAPACITY, data, k) {
            LegacyEventView::Packet(_, sec, usec, d) => seq![(d, PacketTime::Legacy { ts_sec: sec, ts_usec: usec })]
                + legacy_records(data, k + 1, m),
            _ => legacy_records(data, k + 1, m),
        }
    }
}

proof fn lemma_legacy_run(data: Seq<u8>, m: nat, k: nat, acc: Seq<(Seq<u8>, PacketTime)>)
    requires
        legacy_reads_to_end(data, m),
        k <= m,
        m < read_budget(data.len()),
    ensures
        legacy_run(data, k, acc) == (acc + legacy_records(data, k, m), None::<Seq<char>>),
    decreases m - k,
{
    if k == m {
        assert(acc + legacy_records(data, k, m) =~= acc);
    } else {
        let e = legacy_event(READER_CAPACITY, data, k);
        match e {
            LegacyEventView::Packet(_, sec, usec, d) => {
                let x = (d, PacketTime::Legacy { ts_sec: sec, ts_usec: usec });
                lemma_legacy_run(data, m, k + 1, acc.push(x));
                assert(acc.push(x) + legacy_records(data, k + 1, m) =~= acc + (seq![x] + legacy_records(
                    data,
                    k + 1,
                    m,
                )));
            },
            _ => {
                lemma_legacy_run(data, m, k + 1, acc);
            },
        }
    }
}

/// Law: a legacy pcap capture that the reader reads to its end (records and
/// headers that each consume bytes, short buffers refilled, at most two of them
/// in a row, the end reached) is read whole: every record, in order, with its
/// seconds and microseconds, and no error, however many records it holds.
pub proof fn law_legacy_read_to_end(data: Seq<u8>, m: nat)
    requires
        legacy_reads_to_end(data, m),
    ensures
        legacy_result(data) == (legacy_records(data, 0, m), None::<Seq<char>>),
{
    assert forall|j: nat| j < m implies #[trigger] legacy_short(data)(j) || legacy_consumed(data)(j) >= 1 by {
        let _ = legacy_event(READER_CAPACITY, data, j);
    }
    lemma_calls_bounded(legacy_consumed(data), legacy_short(data), m);
    lemma_legacy_run(data, m, 0, Seq::empty());
    assert(Seq::<(Seq<u8>, PacketTime)>::empty() + legacy_records(data, 0, m) =~= legacy_records(data, 0, m));
}

// ---------------------------------------------------------------------------
// pcapng
// ---------------------------------------------------------------------------

/// The bytes the `k`-th event of a pcapng reader over `data` consumes: its
/// offset for a block, none otherwise.
pub open spec fn ng_consumed(data: Seq<u8>) -> spec_fn(nat) -> nat {
    |k: nat|
        match ng_event(READER_CAPACITY, data, k) {
            NgEventView::Interface(o, _, _) => o as nat,
            NgEventView::Enhanced(o, _, _, _, _) => o as nat,
            NgEventView::Simple(o, _) => o as nat,
            NgEventView::Section(o, _) => o as nat,
            NgEventView::Other(o) => o as nat,
            _ => 0,
        }
}

/// Whether the `k`-th event of a pcapng reader over `data` is a short buffer.
pub open spec fn ng_short(data: Seq<u8>) -> spec_fn(nat) -> bool {
    |k: nat| ng_event(READER_CAPACITY, data, k) is Incomplete
}

/// Whether the first `m` events of a pcapng reader over `data` are blocks that
/// each consume bytes, or short buffers whose refill succeeds, with no three
/// short buffers in a row, the `m`-th event is the end, and the bytes hold no
/// process information block shorter than a block's frame.
pub open spec fn ng_reads_to_end(data: Seq<u8>, m: nat) -> bool {
    &&& ng_open_error(READER_CAPACITY, data) is None
    &&& ng_event(READER_CAPACITY, data, m) is Eof
    &&& forall|j: nat| j < m ==> match #[trigger] ng_event(READER_CAPACITY, data, j) {
        NgEventView::Interface(o, _, _) => o >= 1,
        NgEventView::Enhanced(o, _, _, _, _) => o >= 1,
        NgEventView::Simple(o, _) => o >= 1,
        NgEventView::Section(o, _) => o >= 1,
        NgEventView::Other(o) => o >= 1,
        NgEventView::Incomplete => ng_refill_error(READER_CAPACITY, data, j + 1) is None,
        _ => false,
    }
    &&& forall|j: nat| j + 2 < m ==> !(#[trigger] ng_short(data)(j) && ng_short(data)(j + 1) && ng_short(
        data,
    )(j + 2))
    &&& consumed_sum(ng_consumed(data), m) <= data.len()
    &&& forall|p: nat, b: bool| !#[trigger] short_process_block(data, p, b)
}

/// The packets among the pcapng reader's events `k` up to `m`, with the
/// interface entries `info` described before `k`: enhanced packets with their
/// interface's time, simple packets with none.
pub open spec fn ng_packets(data: Seq<u8>, k: nat, m: nat, info: Seq<(u64, u64)>) -> Seq<(Seq<u8>, PacketTime)>
    decreases m - k,
{
    if k >= m {
        Seq::empty()
    } else {
        match ng_event(READER_CAPACITY, data, k) {
            NgEventView::Interface(_, r, off) => ng_packets(data, k + 1, m, info.push(interface_entry(r, off))),
            NgEventView::Enhanced(_, id, hi, lo, d) => seq![(d, enhanced_time(info, id, hi, lo))] + ng_packets(
                data,
                k + 1,
                m,
                info,
            ),
            NgEventView::Simple(_, d) => seq![(d, PacketTime::Unset)] + ng_packets(data, k + 1, m, info),
            _ => ng_packets(data, k + 1, m, info),
        }
    }
}

proof fn lemma_ng_run(
    data: Seq<u8>,
    m: nat,
    k: nat,
    pos: nat,
    big_endian: bool,
    info: Seq<(u64, u64)>,
    acc: Seq<(Seq<u8>, PacketTime)>,
)
    requires
        ng_reads_to_end(data, m),
        k <= m,
        m < read_budget(data.len()),
    ensures
        ng_run(data, k, pos, big_endian, info, acc) == (acc + ng_packets(data, k, m, info), None::<Seq<char>>),
    decreases m - k,
{
    assert(!short_process_block(data, pos, big_endian));
    if k == m {
        assert(acc + ng_packets(data, k, m, info) =~= acc);
    } else {
        let e = ng_event(READER_CAPACITY, data, k);
        match e {
            NgEventView::Interface(o, r, off) => {
                lemma_ng_run(data, m, k + 1, pos + (o as nat), big_endian, info.push(interface_entry(r, off)), acc);
            },
            NgEventView::Enhanced(o, id, hi, lo, d) => {
                let x = (d, enhanced_time(info, id, hi, lo));
                lemma_ng_run(data, m, k + 1, pos + (o as nat), big_endian, info, acc.push(x));
                assert(acc.push(x) + ng_packets(data, k + 1, m, info) =~= acc + (seq![x] + ng_packets(
                    data,
                    k + 1,
                    m,
                    info,
                )));
            },
            NgEventView::Simple(o, d) => {
                let x = (d, PacketTime::Unset);
                lemma_ng_run(data, m, k + 1, pos + (o as nat), big_endian, info, acc.push(x));
                assert(acc.push(x) + ng_packets(data, k + 1, m, info) =~= acc + (seq![x] + ng_packets(
                    data,
                    k + 1,
                    m,
                    info,
                )));
            },
            NgEventView::Section(o, b) => {
                lemma_ng_run(data, m, k + 1, pos + (o as nat), b, info, acc);
            },
            NgEventView::Other(o) => {
                lemma_ng_run(data, m, k + 1, pos + (o as nat), big_endian, info, acc);
            },
            _ => {
                lemma_ng_run(data, m, k + 1, pos, big_endian, info, acc);
            },
        }
    }
}

/// Law: a pcapng capture that the reader reads to its end (blocks that each
/// consume bytes, short buffers refilled, at most two of them in a row, the end
/// reached, and no process information block shorter than a block's frame) is
/// read whole: every enhanced and simple packet, in order, each enhanced packet
/// with the time of the interface it names, and no error, however many blocks
/// it holds.
pub proof fn law_ng_read_to_end(data: Seq<u8>, m: nat)
    requires
        ng_reads_to_end(data, m),
    ensures
        ng_result(data) == (ng_packets(data, 0, m, Seq::empty()), None::<Seq<char>>),
{
    assert forall|j: nat| j < m implies #[trigger] ng_short(data)(j) || ng_consumed(data)(j) >= 1 by {
        let _ = ng_event(READER_CAPACITY, data, j);
    }
    lemma_calls_bounded(ng_consumed(data), ng_short(data), m);
    lemma_ng_run(data, m, 0, 0, false, Seq::empty(), Seq::empty());
    assert(Seq::<(Seq<u8>, PacketTime)>::empty() + ng_packets(data, 0, m, Seq::empty()) =~= ng_packets(
        data,
        0,
        m,
        Seq::empty(),
    ));
}

} // verus!
