//! Aggregation of captured packets into hosts, connections and packet rows,
//! as the list of database writes that stores them.
//!
//! Hosts and connections are named by the order in which they are first seen
//! (0, 1, ...); whoever applies the writes maps these numbers to the row ids
//! that the database assigns.

use std::collections::HashMap;
use vstd::prelude::*;

use crate::capture::{capture_result, frames, read_capture, CapturedPacket, PacketTime};
use crate::error::{parse_error, TaplootError};
use crate::dissect::{packet_summary, summarize_packet, Protocol, SummaryView};
use crate::oui::{lookup_vendor, mac_prefix, OuiTable};
use crate::text::{format_ipv4, ipv4_text};

verus! {

broadcast use vstd::std_specs::hash::group_hash_axioms;

/// One write to the capture database.
pub enum DbOp {
    /// Insert host number `host` with its MAC and IP texts, first and last seen at `time`.
    InsertHost { host: usize, mac: String, ip: String, time: PacketTime },
    /// Set the device type of host `host` to the vendor of its MAC prefix.
    SetDeviceType { host: usize, vendor: String },
    /// Widen the first/last-seen times of host `host` to include `time`.
    TouchHost { host: usize, time: PacketTime },
    /// Insert connection number `conn`: one packet of `bytes` bytes at `time`.
    InsertConnection {
        conn: usize,
        src_host: usize,
        dst_host: usize,
        src_port: u16,
        dst_port: u16,
        protocol: Protocol,
        modbus: bool,
        time: PacketTime,
        bytes: usize,
    },
    /// Count one more packet of `bytes` bytes at `time` on connection `conn`.
    TouchConnection { conn: usize, time: PacketTime, bytes: usize },
    /// Insert the summary row of a packet of connection `conn`.
    InsertPacket {
        conn: usize,
        time: PacketTime,
        src_ip: String,
        dst_ip: String,
        src_port: u16,
        dst_port: u16,
        protocol: Protocol,
        length: usize,
    },
}

/// The plain value of a [`DbOp`].
pub enum DbOpView {
    InsertHost { host: nat, mac: Seq<char>, ip: Seq<char>, time: PacketTime },
    SetDeviceType { host: nat, vendor: Seq<char> },
    TouchHost { host: nat, time: PacketTime },
    InsertConnection {
        conn: nat,
        src_host: nat,
        dst_host: nat,
        src_port: u16,
        dst_port: u16,
        protocol: Protocol,
        modbus: bool,
        time: PacketTime,
        bytes: nat,
    },
    TouchConnection { conn: nat, time: PacketTime, bytes: nat },
    InsertPacket {
        conn: nat,
        time: PacketTime,
        src_ip: Seq<char>,
        dst_ip: Seq<char>,
        src_port: u16,
        dst_port: u16,
        protocol: Protocol,
        length: nat,
    },
}

impl View for DbOp {
    type V = DbOpView;

    open spec fn view(&self) -> DbOpView {
        match self {
            DbOp::InsertHost { host, mac, ip, time } => DbOpView::InsertHost {
                host: *host as nat, mac: mac@, ip: ip@, time: *time,
            },
            DbOp::SetDeviceType { host, vendor } => DbOpView::SetDeviceType {
                host: *host as nat, vendor: vendor@,
            },
            DbOp::TouchHost { host, time } => DbOpView::TouchHost { host: *host as nat, time: *time },
            DbOp::InsertConnection {
                conn, src_host, dst_host, src_port, dst_port, protocol, modbus, time, bytes,
            } => DbOpView::InsertConnection {
                conn: *conn as nat,
                src_host: *src_host as nat,
                dst_host: *dst_host as nat,
                src_port: *src_port,
                dst_port: *dst_port,
                protocol: *protocol,
                modbus: *modbus,
                time: *time,
                bytes: *bytes as nat,
            },
            DbOp::TouchConnection { conn, time, bytes } => DbOpView::TouchConnection {
                conn: *conn as nat, time: *time, bytes: *bytes as nat,
            },
            DbOp::InsertPacket {
                conn, time, src_ip, dst_ip, src_port, dst_port, protocol, length,
            } => DbOpView::InsertPacket {
                conn: *conn as nat,
                time: *time,
                src_ip: src_ip@,
                dst_ip: dst_ip@,
                src_port: *src_port,
                dst_port: *dst_port,
                protocol: *protocol,
                length: *length as nat,
            },
        }
    }
}

/// The plain values of a list of writes.
pub open spec fn ops_view(ops: Seq<DbOp>) -> Seq<DbOpView> {
    ops.map_values(|o: DbOp| o@)
}

/// The state of an aggregation: the number of each host by IP address key and of
/// each connection by flow key, the counts, and the writes so far.
pub struct Tally {
    pub hosts: Map<u32, nat>,
    pub host_count: nat,
    pub conns: Map<u128, nat>,
    pub conn_count: nat,
    pub packet_count: nat,
    pub ops: Seq<DbOpView>,
}

/// The state before any packet.
pub open spec fn empty_tally() -> Tally {
    Tally {
        hosts: Map::empty(),
        host_count: 0,
        conns: Map::empty(),
        conn_count: 0,
        packet_count: 0,
        ops: Seq::empty(),
    }
}

/// The key of an IPv4 address: its four bytes, big-endian.
pub open spec fn ip_key(a: [u8; 4]) -> u32 {
    (a[0] as int * 16777216 + a[1] as int * 65536 + a[2] as int * 256 + a[3] as int) as u32
}

/// The number of a protocol within a flow key.
pub open spec fn protocol_code(p: Protocol) -> int {
    match p {
        Protocol::Tcp => 0,
        Protocol::Udp => 1,
        Protocol::Icmp => 2,
    }
}

/// The key of a flow: source address and port, destination address and port,
/// protocol, packed in mixed radix.
pub open spec fn flow_key(src_ip: [u8; 4], src_port: u16, dst_ip: [u8; 4], dst_port: u16, p: Protocol) -> u128 {
    ((((ip_key(src_ip) as int * 65536 + src_port as int) * 4294967296 + ip_key(dst_ip) as int)
        * 65536 + dst_port as int) * 4 + protocol_code(p)) as u128
}

/// The vendor of a MAC address text in a vendor table.
pub open spec fn vendor_for(table: Map<u32, Seq<char>>, mac: Seq<char>) -> Option<Seq<char>> {
    match mac_prefix(mac) {
        Some(k) => if table.contains_key(k) {
            Some(table[k])
        } else {
            None
        },
        None => None,
    }
}

/// Records that a host was seen: a known address widens its times; a new one
/// is inserted with the next number, followed by its vendor when the table
/// knows its MAC prefix. Gives the state and the host's number.
pub open spec fn upsert_host(
    t: Tally,
    ip: [u8; 4],
    mac: Seq<char>,
    time: PacketTime,
    table: Map<u32, Seq<char>>,
) -> (Tally, nat) {
    let k = ip_key(ip);
    if t.hosts.contains_key(k) {
        let id = t.hosts[k];
        (Tally { ops: t.ops.push(DbOpView::TouchHost { host: id, time }), ..t }, id)
    } else {
        let id = t.host_count;
        let ops = t.ops.push(DbOpView::InsertHost { host: id, mac, ip: ipv4_text(ip), time });
        let ops = match vendor_for(table, mac) {
            Some(v) => ops.push(DbOpView::SetDeviceType { host: id, vendor: v }),
            None => ops,
        };
        (Tally { hosts: t.hosts.insert(k, id), host_count: id + 1, ops, ..t }, id)
    }
}

/// Records a kept packet of `len` bytes: its source host, then its destination
/// host, then its connection (a known flow counts one more packet, a new flow is
/// inserted with the next number), then its packet row.
pub open spec fn record_packet(
    t: Tally,
    s: SummaryView,
    len: nat,
    time: PacketTime,
    table: Map<u32, Seq<char>>,
) -> Tally {
    let (t1, src_host) = upsert_host(t, s.src_ip, s.src_mac, time, table);
    let (t2, dst_host) = upsert_host(t1, s.dst_ip, s.dst_mac, time, table);
    let fk = flow_key(s.src_ip, s.src_port, s.dst_ip, s.dst_port, s.protocol);
    let (t3, conn) = if t2.conns.contains_key(fk) {
        let c = t2.conns[fk];
        (Tally { ops: t2.ops.push(DbOpView::TouchConnection { conn: c, time, bytes: len }), ..t2 }, c)
    } else {
        let c = t2.conn_count;
        (
            Tally {
                conns: t2.conns.insert(fk, c),
                conn_count: c + 1,
                ops: t2.ops.push(
                    DbOpView::InsertConnection {
                        conn: c,
                        src_host,
                        dst_host,
                        src_port: s.src_port,
                        dst_port: s.dst_port,
                        protocol: s.protocol,
                        modbus: s.modbus,
                        time,
                        bytes: len,
                    },
                ),
                ..t2
            },
            c,
        )
    };
    Tally {
        packet_count: t3.packet_count + 1,
        ops: t3.ops.push(
            DbOpView::InsertPacket {
                conn,
                time,
                src_ip: ipv4_text(s.src_ip),
                dst_ip: ipv4_text(s.dst_ip),
                src_port: s.src_port,
                dst_port: s.dst_port,
                protocol: s.protocol,
                length: len,
            },
        ),
        ..t3
    }
}

/// Processes one captured frame: a frame that dissects is recorded, any other
/// is skipped.
pub open spec fn process(t: Tally, data: Seq<u8>, time: PacketTime, table: Map<u32, Seq<char>>) -> Tally {
    match packet_summary(data) {
        Some(s) => record_packet(t, s, data.len(), time, table),
        None => t,
    }
}

/// The state after processing frames in order.
pub open spec fn tally_of(fs: Seq<(Seq<u8>, PacketTime)>, table: Map<u32, Seq<char>>) -> Tally
    decreases fs.len(),
{
    if fs.len() == 0 {
        empty_tally()
    } else {
        process(tally_of(fs.drop_last(), table), fs.last().0, fs.last().1, table)
    }
}

/// The key of an IPv4 address.
fn ip_key_of(a: [u8; 4]) -> (k: u32)
    ensures
        k == ip_key(a),
{
    (a[0] as u32) * 16777216 + (a[1] as u32) * 65536 + (a[2] as u32) * 256 + (a[3] as u32)
}

/// The number of a protocol within a flow key.
fn protocol_code_of(p: Protocol) -> (c: u128)
    ensures
        c == protocol_code(p),
{
    match p {
        Protocol::Tcp => 0,
        Protocol::Udp => 1,
        Protocol::Icmp => 2,
    }
}

/// The key of a flow.
fn flow_key_of(src_ip: [u8; 4], src_port: u16, dst_ip: [u8; 4], dst_port: u16, p: Protocol) -> (k: u128)
    ensures
        k == flow_key(src_ip, src_port, dst_ip, dst_port, p),
{
    let code = protocol_code_of(p);
    let a = ip_key_of(src_ip) as u128;
    let b = ip_key_of(dst_ip) as u128;
    (((a * 65536 + src_port as u128) * 4294967296 + b) * 65536 + dst_port as u128) * 4 + code
}

/// The running aggregation of a capture.
pub struct Aggregator {
    hosts: HashMap<u32, usize>,
    conns: HashMap<u128, usize>,
    host_count: usize,
    conn_count: usize,
    packet_count: usize,
    ops: Vec<DbOp>,
}

impl View for Aggregator {
    type V = Tally;

    closed spec fn view(&self) -> Tally {
        Tally {
            hosts: self.hosts@.map_values(|v: usize| v as nat),
            host_count: self.host_count as nat,
            conns: self.conns@.map_values(|v: usize| v as nat),
            conn_count: self.conn_count as nat,
            packet_count: self.packet_count as nat,
            ops: ops_view(self.ops@),
        }
    }
}

impl Aggregator {
    /// An aggregation that has seen no packet.
    pub fn new() -> (a: Aggregator)
        ensures
            a@ == empty_tally(),
    {
        let a = Aggregator {
            hosts: HashMap::new(),
            conns: HashMap::new(),
            host_count: 0,
            conn_count: 0,
            packet_count: 0,
            ops: Vec::new(),
        };
        proof {
            assert(a@.hosts =~= Map::<u32, nat>::empty());
            assert(a@.conns =~= Map::<u128, nat>::empty());
            assert(a@.ops =~= Seq::<DbOpView>::empty());
        }
        a
    }

    /// The number of hosts seen.
    pub fn host_count(&self) -> (n: usize)
        ensures
            n == self@.host_count,
    {
        self.host_count
    }

    /// The number of connections seen.
    pub fn connection_count(&self) -> (n: usize)
        ensures
            n == self@.conn_count,
    {
        self.conn_count
    }

    /// The number of packets kept.
    pub fn packet_count(&self) -> (n: usize)
        ensures
            n == self@.packet_count,
    {
        self.packet_count
    }

    /// The writes so far, handed over.
    pub fn into_ops(self) -> (ops: Vec<DbOp>)
        ensures
            ops_view(ops@) == self@.ops,
    {
        self.ops
    }

    fn push_op(&mut self, op: DbOp)
        ensures
            final(self)@ == (Tally { ops: old(self)@.ops.push(op@), ..old(self)@ }),
    {
        let ghost before = self.ops@;
        self.ops.push(op);
        proof {
            assert(ops_view(self.ops@) =~= ops_view(before).push(op@));
        }
    }

    /// Records that a host was seen (see [`upsert_host`]) and gives its number.
    fn upsert_host(&mut self, ip: [u8; 4], mac: &String, time: PacketTime, table: &OuiTable) -> (id: usize)
        requires
            old(self).host_count < usize::MAX,
        ensures
            (final(self)@, id as nat) == upsert_host(old(self)@, ip, mac@, time, table@),
    {
        let k = ip_key_of(ip);
        match self.hosts.get(&k) {
            Some(id) => {
                let id = *id;
                self.push_op(DbOp::TouchHost { host: id, time });
                id
            },
            None => {
                let id = self.host_count;
                let ip_text = format_ipv4(ip);
                self.push_op(DbOp::InsertHost { host: id, mac: mac.clone(), ip: ip_text, time });
                match lookup_vendor(table, mac.as_str()) {
                    Some(v) => {
                        self.push_op(DbOp::SetDeviceType { host: id, vendor: v });
                    },
                    None => {},
                }
                let ghost before = self.hosts@;
                self.hosts.insert(k, id);
                self.host_count = id + 1;
                proof {
                    assert(self.hosts@.map_values(|v: usize| v as nat) =~= before.map_values(
                        |v: usize| v as nat,
                    ).insert(k, id as nat));
                }
                id
            },
        }
    }

    /// Processes one captured frame (see [`process`]).
    pub fn process_packet(&mut self, pkt: &CapturedPacket, table: &OuiTable)
        requires
            old(self)@.host_count + 2 <= usize::MAX,
            old(self)@.conn_count + 1 <= usize::MAX,
            old(self)@.packet_count + 1 <= usize::MAX,
        ensures
            final(self)@ == process(old(self)@, pkt.data@, pkt.time, table@),
    {
        let s = match summarize_packet(pkt.data.as_slice()) {
            Some(s) => s,
            None => return,
        };
        let time = pkt.time;
        let len = pkt.data.len();
        let src_host = self.upsert_host(s.src_ip, &s.src_mac, time, table);
        let dst_host = self.upsert_host(s.dst_ip, &s.dst_mac, time, table);
        let fk = flow_key_of(s.src_ip, s.src_port, s.dst_ip, s.dst_port, s.protocol);
        let conn = match self.conns.get(&fk) {
            Some(c) => {
                let c = *c;
                self.push_op(DbOp::TouchConnection { conn: c, time, bytes: len });
                c
            },
            None => {
                let c = self.conn_count;
                self.push_op(
                    DbOp::InsertConnection {
                        conn: c,
                        src_host,
                        dst_host,
                        src_port: s.src_port,
                        dst_port: s.dst_port,
                        protocol: s.protocol,
                        modbus: s.modbus,
                        time,
                        bytes: len,
                    },
                );
                let ghost before = self.conns@;
                self.conns.insert(fk, c);
                self.conn_count = c + 1;
                proof {
                    assert(self.conns@.map_values(|v: usize| v as nat) =~= before.map_values(
                        |v: usize| v as nat,
                    ).insert(fk, c as nat));
                }
                c
            },
        };
        let src_ip = format_ipv4(s.src_ip);
        let dst_ip = format_ipv4(s.dst_ip);
        self.push_op(
            DbOp::InsertPacket {
                conn,
                time,
                src_ip,
                dst_ip,
                src_port: s.src_port,
                dst_port: s.dst_port,
                protocol: s.protocol,
                length: len,
            },
        );
        self.packet_count = self.packet_count + 1;
    }
}

// ---------------------------------------------------------------------------
// The shape of the writes
// ---------------------------------------------------------------------------

/// The number of hosts inserted by a list of writes.
pub open spec fn created_hosts(ops: Seq<DbOpView>) -> nat
    decreases ops.len(),
{
    if ops.len() == 0 {
        0
    } else {
        created_hosts(ops.drop_last()) + if ops.last() is InsertHost { 1nat } else { 0nat }
    }
}

/// The number of connections inserted by a list of writes.
pub open spec fn created_conns(ops: Seq<DbOpView>) -> nat
    decreases ops.len(),
{
    if ops.len() == 0 {
        0
    } else {
        created_conns(ops.drop_last()) + if ops.last() is InsertConnection { 1nat } else { 0nat }
    }
}

/// The number of packet rows inserted by a list of writes.
pub open spec fn created_packets(ops: Seq<DbOpView>) -> nat
    decreases ops.len(),
{
    if ops.len() == 0 {
        0
    } else {
        created_packets(ops.drop_last()) + if ops.last() is InsertPacket { 1nat } else { 0nat }
    }
}

/// Whether a write, coming after `h` host and `c` connection insertions, names
/// the next number when it inserts and an earlier one when it refers.
pub open spec fn op_refs_valid(op: DbOpView, h: nat, c: nat) -> bool {
    match op {
        DbOpView::InsertHost { host, .. } => host == h,
        DbOpView::SetDeviceType { host, .. } => host < h,
        DbOpView::TouchHost { host, .. } => host < h,
        DbOpView::InsertConnection { conn, src_host, dst_host, .. } => conn == c && src_host < h
            && dst_host < h,
        DbOpView::TouchConnection { conn, .. } => conn < c,
        DbOpView::InsertPacket { conn, .. } => conn < c,
    }
}

/// Whether every write names hosts and connections in creation order and refers
/// only to hosts and connections inserted before it.
pub open spec fn ops_valid(ops: Seq<DbOpView>) -> bool
    decreases ops.len(),
{
    ops.len() == 0 || (ops_valid(ops.drop_last()) && op_refs_valid(
        ops.last(),
        created_hosts(ops.drop_last()),
        created_conns(ops.drop_last()),
    ))
}

/// What every aggregation state keeps.
pub open spec fn tally_inv(t: Tally) -> bool {
    &&& ops_valid(t.ops)
    &&& created_hosts(t.ops) == t.host_count
    &&& created_conns(t.ops) == t.conn_count
    &&& created_packets(t.ops) == t.packet_count
    &&& forall|k: u32| #[trigger] t.hosts.contains_key(k) ==> t.hosts[k] < t.host_count
    &&& forall|k: u128| #[trigger] t.conns.contains_key(k) ==> t.conns[k] < t.conn_count
    &&& t.hosts.dom().finite()
    &&& t.hosts.dom().len() == t.host_count
    &&& t.conns.dom().finite()
    &&& t.conns.dom().len() == t.conn_count
}

/// Whether a write counts one packet on connection `c` (its insertion or an
/// added packet).
pub open spec fn op_hits(op: DbOpView, c: nat) -> nat {
    match op {
        DbOpView::InsertConnection { conn, .. } => if conn == c { 1nat } else { 0nat },
        DbOpView::TouchConnection { conn, .. } => if conn == c { 1nat } else { 0nat },
        _ => 0nat,
    }
}

/// Whether a write is a packet row of connection `c`.
pub open spec fn op_rows(op: DbOpView, c: nat) -> nat {
    match op {
        DbOpView::InsertPacket { conn, .. } => if conn == c { 1nat } else { 0nat },
        _ => 0nat,
    }
}

/// The packet count that the writes give connection `c`: one for its
/// insertion and one for each packet added to it.
pub open spec fn conn_hits(ops: Seq<DbOpView>, c: nat) -> nat
    decreases ops.len(),
{
    if ops.len() == 0 {
        0
    } else {
        conn_hits(ops.drop_last(), c) + op_hits(ops.last(), c)
    }
}

/// The number of packet rows that the writes give connection `c`.
pub open spec fn packet_rows(ops: Seq<DbOpView>, c: nat) -> nat
    decreases ops.len(),
{
    if ops.len() == 0 {
        0
    } else {
        packet_rows(ops.drop_last(), c) + op_rows(ops.last(), c)
    }
}

/// The number of connection insertions and added packets, over all connections:
/// the sum of the connections' packet counts.
pub open spec fn conn_updates(ops: Seq<DbOpView>) -> nat
    decreases ops.len(),
{
    if ops.len() == 0 {
        0
    } else {
        conn_updates(ops.drop_last()) + if ops.last() is InsertConnection || ops.last() is TouchConnection {
            1nat
        } else {
            0nat
        }
    }
}

/// What every state reached by processing whole frames keeps, beyond
/// [`tally_inv`]: each connection's packet count equals its packet rows, the
/// connections' packet counts add up to the packet count, at most one
/// connection and two hosts per kept packet.
pub open spec fn tally_complete(t: Tally) -> bool {
    &&& tally_inv(t)
    &&& forall|c: nat| #[trigger] conn_hits(t.ops, c) == packet_rows(t.ops, c)
    &&& conn_updates(t.ops) == t.packet_count
    &&& t.conn_count <= t.packet_count
    &&& t.host_count <= 2 * t.packet_count
}

proof fn lemma_push_hits(ops: Seq<DbOpView>, op: DbOpView)
    ensures
        forall|c: nat| #[trigger] conn_hits(ops.push(op), c) == conn_hits(ops, c) + op_hits(op, c),
        forall|c: nat| #[trigger] packet_rows(ops.push(op), c) == packet_rows(ops, c) + op_rows(op, c),
        conn_updates(ops.push(op)) == conn_updates(ops) + if op is InsertConnection || op is TouchConnection {
            1nat
        } else {
            0nat
        },
{
    assert(ops.push(op).drop_last() =~= ops);
}

proof fn lemma_push_op(ops: Seq<DbOpView>, op: DbOpView)
    ensures
        ops.push(op).drop_last() == ops,
        ops.push(op).last() == op,
        created_hosts(ops.push(op)) == created_hosts(ops) + if op is InsertHost { 1nat } else { 0nat },
        created_conns(ops.push(op)) == created_conns(ops) + if op is InsertConnection { 1nat } else { 0nat },
        created_packets(ops.push(op)) == created_packets(ops) + if op is InsertPacket { 1nat } else { 0nat },
        ops_valid(ops.push(op)) == (ops_valid(ops) && op_refs_valid(op, created_hosts(ops), created_conns(ops))),
{
    assert(ops.push(op).drop_last() =~= ops);
}

proof fn lemma_upsert_inv(t: Tally, ip: [u8; 4], mac: Seq<char>, time: PacketTime, table: Map<u32, Seq<char>>)
    requires
        tally_inv(t),
    ensures
        tally_inv(upsert_host(t, ip, mac, time, table).0),
        upsert_host(t, ip, mac, time, table).1 < upsert_host(t, ip, mac, time, table).0.host_count,
        upsert_host(t, ip, mac, time, table).0.conns == t.conns,
        upsert_host(t, ip, mac, time, table).0.conn_count == t.conn_count,
        upsert_host(t, ip, mac, time, table).0.packet_count == t.packet_count,
        upsert_host(t, ip, mac, time, table).0.hosts.dom() == t.hosts.dom().insert(ip_key(ip)),
        forall|k2: u32| #[trigger] t.hosts.contains_key(k2) ==> upsert_host(t, ip, mac, time, table).0.hosts[k2]
            == t.hosts[k2],
        forall|c: nat| #[trigger] conn_hits(upsert_host(t, ip, mac, time, table).0.ops, c) == conn_hits(t.ops, c),
        forall|c: nat| #[trigger] packet_rows(upsert_host(t, ip, mac, time, table).0.ops, c) == packet_rows(t.ops, c),
        conn_updates(upsert_host(t, ip, mac, time, table).0.ops) == conn_updates(t.ops),
{
    let k = ip_key(ip);
    if t.hosts.contains_key(k) {
        lemma_push_op(t.ops, DbOpView::TouchHost { host: t.hosts[k], time });
        lemma_push_hits(t.ops, DbOpView::TouchHost { host: t.hosts[k], time });
        assert(t.hosts.dom().insert(k) =~= t.hosts.dom());
    } else {
        let id = t.host_count;
        let op1 = DbOpView::InsertHost { host: id, mac, ip: ipv4_text(ip), time };
        let ops1 = t.ops.push(op1);
        lemma_push_op(t.ops, op1);
        lemma_push_hits(t.ops, op1);
        match vendor_for(table, mac) {
            Some(v) => {
                lemma_push_op(ops1, DbOpView::SetDeviceType { host: id, vendor: v });
                lemma_push_hits(ops1, DbOpView::SetDeviceType { host: id, vendor: v });
            },
            None => {},
        }
        let r = upsert_host(t, ip, mac, time, table).0;
        assert(r.hosts.dom() =~= t.hosts.dom().insert(k));
        assert forall|k2: u32| #[trigger] r.hosts.contains_key(k2) implies r.hosts[k2] < r.host_count by {
            if k2 != k {
                assert(t.hosts.contains_key(k2));
            }
        }
    }
}

/// Recording a packet keeps the invariant, adds its addresses to the hosts and
/// its flow to the connections, and counts it.
proof fn lemma_record_inv(t: Tally, s: SummaryView, len: nat, time: PacketTime, table: Map<u32, Seq<char>>)
    requires
        tally_inv(t),
    ensures
        tally_inv(record_packet(t, s, len, time, table)),
        record_packet(t, s, len, time, table).hosts.dom() == t.hosts.dom().insert(ip_key(s.src_ip)).insert(
            ip_key(s.dst_ip),
        ),
        record_packet(t, s, len, time, table).conns.dom() == t.conns.dom().insert(
            flow_key(s.src_ip, s.src_port, s.dst_ip, s.dst_port, s.protocol),
        ),
        record_packet(t, s, len, time, table).packet_count == t.packet_count + 1,
        record_packet(t, s, len, time, table).host_count <= t.host_count + 2,
        record_packet(t, s, len, time, table).conn_count <= t.conn_count + 1,
        forall|k2: u32| #[trigger] t.hosts.contains_key(k2) ==> record_packet(t, s, len, time, table).hosts[k2]
            == t.hosts[k2],
        forall|k2: u128| #[trigger] t.conns.contains_key(k2) ==> record_packet(t, s, len, time, table).conns[k2]
            == t.conns[k2],
        (forall|c: nat| #[trigger] conn_hits(t.ops, c) == packet_rows(t.ops, c)) ==> (forall|c: nat|
            #[trigger] conn_hits(record_packet(t, s, len, time, table).ops, c) == packet_rows(
                record_packet(t, s, len, time, table).ops,
                c,
            )),
        conn_updates(record_packet(t, s, len, time, table).ops) == conn_updates(t.ops) + 1,
{
    let (t1, src_host) = upsert_host(t, s.src_ip, s.src_mac, time, table);
    lemma_upsert_inv(t, s.src_ip, s.src_mac, time, table);
    let (t2, dst_host) = upsert_host(t1, s.dst_ip, s.dst_mac, time, table);
    lemma_upsert_inv(t1, s.dst_ip, s.dst_mac, time, table);
    let fk = flow_key(s.src_ip, s.src_port, s.dst_ip, s.dst_port, s.protocol);
    let r = record_packet(t, s, len, time, table);
    if t2.conns.contains_key(fk) {
        let c = t2.conns[fk];
        let op = DbOpView::TouchConnection { conn: c, time, bytes: len };
        lemma_push_op(t2.ops, op);
        lemma_push_hits(t2.ops, op);
        let ops3 = t2.ops.push(op);
        let op2 = DbOpView::InsertPacket {
            conn: c,
            time,
            src_ip: ipv4_text(s.src_ip),
            dst_ip: ipv4_text(s.dst_ip),
            src_port: s.src_port,
            dst_port: s.dst_port,
            protocol: s.protocol,
            length: len,
        };
        lemma_push_op(ops3, op2);
        lemma_push_hits(ops3, op2);
        assert(t2.conns.dom().insert(fk) =~= t2.conns.dom());
    } else {
        let c = t2.conn_count;
        let op = DbOpView::InsertConnection {
            conn: c,
            src_host,
            dst_host,
            src_port: s.src_port,
            dst_port: s.dst_port,
            protocol: s.protocol,
            modbus: s.modbus,
            time,
            bytes: len,
        };
        lemma_push_op(t2.ops, op);
        lemma_push_hits(t2.ops, op);
        let ops3 = t2.ops.push(op);
        let op2 = DbOpView::InsertPacket {
            conn: c,
            time,
            src_ip: ipv4_text(s.src_ip),
            dst_ip: ipv4_text(s.dst_ip),
            src_port: s.src_port,
            dst_port: s.dst_port,
            protocol: s.protocol,
            length: len,
        };
        lemma_push_op(ops3, op2);
        lemma_push_hits(ops3, op2);
        assert(r.conns.dom() =~= t2.conns.dom().insert(fk));
        assert forall|k2: u128| #[trigger] r.conns.contains_key(k2) implies r.conns[k2] < r.conn_count by {
            if k2 != fk {
                assert(t2.conns.contains_key(k2));
            }
        }
    }
}

/// The number of frames that dissect (and so are kept).
pub open spec fn kept_count(fs: Seq<(Seq<u8>, PacketTime)>) -> nat
    decreases fs.len(),
{
    if fs.len() == 0 {
        0
    } else {
        kept_count(fs.drop_last()) + if packet_summary(fs.last().0) is Some { 1nat } else { 0nat }
    }
}

/// The address keys of the sources and destinations of the kept frames.
pub open spec fn seen_hosts(fs: Seq<(Seq<u8>, PacketTime)>) -> Set<u32>
    decreases fs.len(),
{
    if fs.len() == 0 {
        Set::empty()
    } else {
        let s = seen_hosts(fs.drop_last());
        match packet_summary(fs.last().0) {
            Some(x) => s.insert(ip_key(x.src_ip)).insert(ip_key(x.dst_ip)),
            None => s,
        }
    }
}

/// The flow keys of the kept frames.
pub open spec fn seen_flows(fs: Seq<(Seq<u8>, PacketTime)>) -> Set<u128>
    decreases fs.len(),
{
    if fs.len() == 0 {
        Set::empty()
    } else {
        let s = seen_flows(fs.drop_last());
        match packet_summary(fs.last().0) {
            Some(x) => s.insert(flow_key(x.src_ip, x.src_port, x.dst_ip, x.dst_port, x.protocol)),
            None => s,
        }
    }
}

/// Law: processing one frame, from any state reached by processing whole
/// frames, keeps what such states keep; every host and connection already known
/// keeps its number; a kept frame adds its two addresses to the hosts, its flow
/// to the connections and one to the packet count, and a skipped frame changes
/// nothing.
pub proof fn law_process_step(t: Tally, data: Seq<u8>, time: PacketTime, table: Map<u32, Seq<char>>)
    requires
        tally_complete(t),
    ensures
        tally_complete(process(t, data, time, table)),
        forall|k: u32| #[trigger] t.hosts.contains_key(k) ==> process(t, data, time, table).hosts.contains_key(k)
            && process(t, data, time, table).hosts[k] == t.hosts[k],
        forall|k: u128| #[trigger] t.conns.contains_key(k) ==> process(t, data, time, table).conns.contains_key(k)
            && process(t, data, time, table).conns[k] == t.conns[k],
        match packet_summary(data) {
            Some(x) => {
                &&& process(t, data, time, table).hosts.dom() == t.hosts.dom().insert(ip_key(x.src_ip)).insert(
                    ip_key(x.dst_ip),
                )
                &&& process(t, data, time, table).conns.dom() == t.conns.dom().insert(
                    flow_key(x.src_ip, x.src_port, x.dst_ip, x.dst_port, x.protocol),
                )
                &&& process(t, data, time, table).packet_count == t.packet_count + 1
            },
            None => process(t, data, time, table) == t,
        },
{
    match packet_summary(data) {
        Some(x) => {
            lemma_record_inv(t, x, data.len(), time, table);
        },
        None => {},
    }
}

proof fn lemma_tally_inv(fs: Seq<(Seq<u8>, PacketTime)>, table: Map<u32, Seq<char>>)
    ensures
        tally_complete(tally_of(fs, table)),
        tally_of(fs, table).hosts.dom() == seen_hosts(fs),
        tally_of(fs, table).conns.dom() == seen_flows(fs),
        tally_of(fs, table).packet_count == kept_count(fs),
    decreases fs.len(),
{
    if fs.len() == 0 {
        assert(empty_tally().hosts.dom() =~= Set::<u32>::empty());
        assert(empty_tally().conns.dom() =~= Set::<u128>::empty());
    } else {
        lemma_tally_inv(fs.drop_last(), table);
        let t = tally_of(fs.drop_last(), table);
        law_process_step(t, fs.last().0, fs.last().1, table);
    }
}

/// Law: an import has at most one connection per kept packet and at most two
/// hosts per kept packet.
pub proof fn law_counts_bounded(fs: Seq<(Seq<u8>, PacketTime)>, table: Map<u32, Seq<char>>)
    ensures
        tally_of(fs, table).conn_count <= tally_of(fs, table).packet_count,
        tally_of(fs, table).host_count <= 2 * tally_of(fs, table).packet_count,
{
    lemma_tally_inv(fs, table);
}

/// Law: each kept packet counts once on its connection: the packet count that
/// the writes give each connection equals its number of packet rows, and the
/// connections' packet counts add up to the packet count.
pub proof fn law_connection_packet_counts(fs: Seq<(Seq<u8>, PacketTime)>, table: Map<u32, Seq<char>>)
    ensures
        forall|c: nat| #[trigger] conn_hits(tally_of(fs, table).ops, c) == packet_rows(tally_of(fs, table).ops, c),
        conn_updates(tally_of(fs, table).ops) == tally_of(fs, table).packet_count,
{
    lemma_tally_inv(fs, table);
}

proof fn lemma_seen_ignores_times(fs1: Seq<(Seq<u8>, PacketTime)>, fs2: Seq<(Seq<u8>, PacketTime)>)
    requires
        fs1.len() == fs2.len(),
        forall|i: int| 0 <= i < fs1.len() ==> (#[trigger] fs1[i]).0 == fs2[i].0,
    ensures
        seen_hosts(fs1) == seen_hosts(fs2),
        seen_flows(fs1) == seen_flows(fs2),
        kept_count(fs1) == kept_count(fs2),
    decreases fs1.len(),
{
    if fs1.len() > 0 {
        assert forall|i: int| 0 <= i < fs1.drop_last().len() implies (#[trigger] fs1.drop_last()[i]).0
            == fs2.drop_last()[i].0 by {
            assert(fs1[i].0 == fs2[i].0);
        }
        lemma_seen_ignores_times(fs1.drop_last(), fs2.drop_last());
        assert(fs1[fs1.len() - 1].0 == fs2[fs2.len() - 1].0);
    }
}

/// Law: the counts of an import depend only on the frames' bytes, not on their
/// times; the same frames read from a pcap and from a pcapng capture give the
/// same numbers of hosts, connections and packets.
pub proof fn law_counts_ignore_times(
    fs1: Seq<(Seq<u8>, PacketTime)>,
    fs2: Seq<(Seq<u8>, PacketTime)>,
    table: Map<u32, Seq<char>>,
)
    requires
        fs1.len() == fs2.len(),
        forall|i: int| 0 <= i < fs1.len() ==> (#[trigger] fs1[i]).0 == fs2[i].0,
    ensures
        tally_of(fs1, table).host_count == tally_of(fs2, table).host_count,
        tally_of(fs1, table).conn_count == tally_of(fs2, table).conn_count,
        tally_of(fs1, table).packet_count == tally_of(fs2, table).packet_count,
{
    lemma_tally_inv(fs1, table);
    lemma_tally_inv(fs2, table);
    lemma_seen_ignores_times(fs1, fs2);
}

/// Law: the writes of an import are in creation order. Each insertion names
/// the next host or connection number, every other write names a host or
/// connection inserted before it, and the counts equal the insertions: one
/// host row per host, one connection row per connection, one packet row per
/// kept packet.
pub proof fn law_writes_in_creation_order(fs: Seq<(Seq<u8>, PacketTime)>, table: Map<u32, Seq<char>>)
    ensures
        ops_valid(tally_of(fs, table).ops),
        created_hosts(tally_of(fs, table).ops) == tally_of(fs, table).host_count,
        created_conns(tally_of(fs, table).ops) == tally_of(fs, table).conn_count,
        created_packets(tally_of(fs, table).ops) == tally_of(fs, table).packet_count,
{
    lemma_tally_inv(fs, table);
}

/// Law: there is one host per IPv4 address seen as the source or destination of
/// a kept packet, and no other.
pub proof fn law_one_host_per_address(fs: Seq<(Seq<u8>, PacketTime)>, table: Map<u32, Seq<char>>)
    ensures
        tally_of(fs, table).hosts.dom() == seen_hosts(fs),
        tally_of(fs, table).host_count == seen_hosts(fs).len(),
{
    lemma_tally_inv(fs, table);
}

/// Law: there is one connection per flow (source address and port, destination
/// address and port, protocol) of a kept packet, and no other.
pub proof fn law_one_connection_per_flow(fs: Seq<(Seq<u8>, PacketTime)>, table: Map<u32, Seq<char>>)
    ensures
        tally_of(fs, table).conns.dom() == seen_flows(fs),
        tally_of(fs, table).conn_count == seen_flows(fs).len(),
{
    lemma_tally_inv(fs, table);
}

/// Law: the packet count is the number of frames that dissect; skipped frames
/// leave no trace.
pub proof fn law_packet_count(fs: Seq<(Seq<u8>, PacketTime)>, table: Map<u32, Seq<char>>)
    ensures
        tally_of(fs, table).packet_count == kept_count(fs),
{
    lemma_tally_inv(fs, table);
}

/// A packet-table row: time, length, source and destination address texts,
/// source and destination ports, protocol.
pub type PacketRow = (PacketTime, nat, Seq<char>, Seq<char>, u16, u16, Protocol);

/// The rows that a list of writes inserts into the packet table, in order.
pub open spec fn packet_row_list(ops: Seq<DbOpView>) -> Seq<PacketRow>
    decreases ops.len(),
{
    if ops.len() == 0 {
        Seq::empty()
    } else {
        let rest = packet_row_list(ops.drop_last());
        match ops.last() {
            DbOpView::InsertPacket { time, length, src_ip, dst_ip, src_port, dst_port, protocol, .. } => rest.push(
                (time, length, src_ip, dst_ip, src_port, dst_port, protocol),
            ),
            _ => rest,
        }
    }
}

/// For each frame that dissects, in order: its capture time, its length, and its
/// dissected addresses (as text), ports and protocol.
pub open spec fn kept_frame_rows(fs: Seq<(Seq<u8>, PacketTime)>) -> Seq<PacketRow>
    decreases fs.len(),
{
    if fs.len() == 0 {
        Seq::empty()
    } else {
        let rest = kept_frame_rows(fs.drop_last());
        match packet_summary(fs.last().0) {
            Some(x) => rest.push(
                (fs.last().1, fs.last().0.len(), ipv4_text(x.src_ip), ipv4_text(x.dst_ip), x.src_port, x.dst_port, x.protocol),
            ),
            None => rest,
        }
    }
}

proof fn lemma_rows_push(ops: Seq<DbOpView>, op: DbOpView)
    ensures
        packet_row_list(ops.push(op)) == match op {
            DbOpView::InsertPacket { time, length, src_ip, dst_ip, src_port, dst_port, protocol, .. } => packet_row_list(
                ops,
            ).push((time, length, src_ip, dst_ip, src_port, dst_port, protocol)),
            _ => packet_row_list(ops),
        },
{
    assert(ops.push(op).drop_last() =~= ops);
}

proof fn lemma_upsert_rows(t: Tally, ip: [u8; 4], mac: Seq<char>, time: PacketTime, table: Map<u32, Seq<char>>)
    ensures
        packet_row_list(upsert_host(t, ip, mac, time, table).0.ops) == packet_row_list(t.ops),
{
    let k = ip_key(ip);
    if t.hosts.contains_key(k) {
        lemma_rows_push(t.ops, DbOpView::TouchHost { host: t.hosts[k], time });
    } else {
        let id = t.host_count;
        let op1 = DbOpView::InsertHost { host: id, mac, ip: ipv4_text(ip), time };
        lemma_rows_push(t.ops, op1);
        match vendor_for(table, mac) {
            Some(v) => lemma_rows_push(t.ops.push(op1), DbOpView::SetDeviceType { host: id, vendor: v }),
            None => {},
        }
    }
}

proof fn lemma_record_rows(t: Tally, s: SummaryView, len: nat, time: PacketTime, table: Map<u32, Seq<char>>)
    ensures
        packet_row_list(record_packet(t, s, len, time, table).ops) == packet_row_list(t.ops).push(
            (time, len, ipv4_text(s.src_ip), ipv4_text(s.dst_ip), s.src_port, s.dst_port, s.protocol),
        ),
{
    let (t1, src_host) = upsert_host(t, s.src_ip, s.src_mac, time, table);
    lemma_upsert_rows(t, s.src_ip, s.src_mac, time, table);
    let (t2, dst_host) = upsert_host(t1, s.dst_ip, s.dst_mac, time, table);
    lemma_upsert_rows(t1, s.dst_ip, s.dst_mac, time, table);
    let fk = flow_key(s.src_ip, s.src_port, s.dst_ip, s.dst_port, s.protocol);
    let c = if t2.conns.contains_key(fk) { t2.conns[fk] } else { t2.conn_count };
    let op = if t2.conns.contains_key(fk) {
        DbOpView::TouchConnection { conn: c, time, bytes: len }
    } else {
        DbOpView::InsertConnection {
            conn: c,
            src_host,
            dst_host,
            src_port: s.src_port,
            dst_port: s.dst_port,
            protocol: s.protocol,
            modbus: s.modbus,
            time,
            bytes: len,
        }
    };
    lemma_rows_push(t2.ops, op);
    lemma_rows_push(
        t2.ops.push(op),
        DbOpView::InsertPacket {
            conn: c,
            time,
            src_ip: ipv4_text(s.src_ip),
            dst_ip: ipv4_text(s.dst_ip),
            src_port: s.src_port,
            dst_port: s.dst_port,
            protocol: s.protocol,
            length: len,
        },
    );
}

/// Law: the packet rows stand for the kept frames one for one and in order: the
/// k-th row carries the capture time and the length of the k-th frame that
/// dissects, with that frame's addresses, ports and protocol.
pub proof fn law_packet_rows_follow_frames(fs: Seq<(Seq<u8>, PacketTime)>, table: Map<u32, Seq<char>>)
    ensures
        packet_row_list(tally_of(fs, table).ops) == kept_frame_rows(fs),
    decreases fs.len(),
{
    if fs.len() > 0 {
        law_packet_rows_follow_frames(fs.drop_last(), table);
        let t = tally_of(fs.drop_last(), table);
        match packet_summary(fs.last().0) {
            Some(x) => lemma_record_rows(t, x, fs.last().0.len(), fs.last().1, table),
            None => {},
        }
    }
}

/// Whether a write made for a frame of `len` bytes captured at `time` carries
/// that time, and, where it counts bytes or records a length, that length.
pub open spec fn op_fits_frame(op: DbOpView, time: PacketTime, len: nat) -> bool {
    match op {
        DbOpView::InsertHost { time: x, .. } => x == time,
        DbOpView::SetDeviceType { .. } => true,
        DbOpView::TouchHost { time: x, .. } => x == time,
        DbOpView::InsertConnection { time: x, bytes, .. } => x == time && bytes == len,
        DbOpView::TouchConnection { time: x, bytes, .. } => x == time && bytes == len,
        DbOpView::InsertPacket { time: x, length, .. } => x == time && length == len,
    }
}

/// Law: processing a frame only appends writes, and every write it appends
/// carries the frame's capture time; those that count bytes or record a length
/// carry the frame's length.
pub proof fn law_writes_carry_frame_time(t: Tally, data: Seq<u8>, time: PacketTime, table: Map<u32, Seq<char>>)
    ensures
        t.ops.is_prefix_of(process(t, data, time, table).ops),
        forall|i: int|
            t.ops.len() <= i < process(t, data, time, table).ops.len() ==> op_fits_frame(
                #[trigger] process(t, data, time, table).ops[i],
                time,
                data.len(),
            ),
{
    let len = data.len();
    let ok = |op: DbOpView| op_fits_frame(op, time, len);
    assert(t.ops.is_prefix_of(t.ops));
    match packet_summary(data) {
        Some(s) => {
            let (t1, src_host) = upsert_host(t, s.src_ip, s.src_mac, time, table);
            lemma_upsert_appends(t, t.ops, s.src_ip, s.src_mac, time, table, ok);
            let (t2, dst_host) = upsert_host(t1, s.dst_ip, s.dst_mac, time, table);
            lemma_upsert_appends(t1, t.ops, s.dst_ip, s.dst_mac, time, table, ok);
            let fk = flow_key(s.src_ip, s.src_port, s.dst_ip, s.dst_port, s.protocol);
            let c = if t2.conns.contains_key(fk) { t2.conns[fk] } else { t2.conn_count };
            let op = if t2.conns.contains_key(fk) {
                DbOpView::TouchConnection { conn: c, time, bytes: len }
            } else {
                DbOpView::InsertConnection {
                    conn: c,
                    src_host,
                    dst_host,
                    src_port: s.src_port,
                    dst_port: s.dst_port,
                    protocol: s.protocol,
                    modbus: s.modbus,
                    time,
                    bytes: len,
                }
            };
            lemma_appends_push(t.ops, t2.ops, op, ok);
            lemma_appends_push(
                t.ops,
                t2.ops.push(op),
                DbOpView::InsertPacket {
                    conn: c,
                    time,
                    src_ip: ipv4_text(s.src_ip),
                    dst_ip: ipv4_text(s.dst_ip),
                    src_port: s.src_port,
                    dst_port: s.dst_port,
                    protocol: s.protocol,
                    length: len,
                },
                ok,
            );
        },
        None => {},
    }
}

/// Whether a write made for a frame with summary `x`, in an import whose state
/// after the frame is `r`, describes that frame: hosts are those of its
/// addresses (with their MAC and address texts, and the vendor of their MAC),
/// and the connection and packet row are those of its flow, between the hosts
/// of its addresses, with its ports, protocol and Modbus flag.
pub open spec fn op_describes(op: DbOpView, x: SummaryView, r: Tally, table: Map<u32, Seq<char>>) -> bool {
    let src = r.hosts[ip_key(x.src_ip)];
    let dst = r.hosts[ip_key(x.dst_ip)];
    let conn = r.conns[flow_key(x.src_ip, x.src_port, x.dst_ip, x.dst_port, x.protocol)];
    match op {
        DbOpView::InsertHost { host, mac, ip, .. } => (host == src && mac == x.src_mac && ip == ipv4_text(x.src_ip))
            || (host == dst && mac == x.dst_mac && ip == ipv4_text(x.dst_ip)),
        DbOpView::SetDeviceType { host, vendor } => (host == src && vendor_for(table, x.src_mac) == Some(vendor))
            || (host == dst && vendor_for(table, x.dst_mac) == Some(vendor)),
        DbOpView::TouchHost { host, .. } => host == src || host == dst,
        DbOpView::InsertConnection { conn: c, src_host, dst_host, src_port, dst_port, protocol, modbus, .. } => {
            &&& c == conn
            &&& src_host == src
            &&& dst_host == dst
            &&& src_port == x.src_port
            &&& dst_port == x.dst_port
            &&& protocol == x.protocol
            &&& modbus == x.modbus
        },
        DbOpView::TouchConnection { conn: c, .. } => c == conn,
        DbOpView::InsertPacket { conn: c, src_ip, dst_ip, src_port, dst_port, protocol, .. } => {
            &&& c == conn
            &&& src_ip == ipv4_text(x.src_ip)
            &&& dst_ip == ipv4_text(x.dst_ip)
            &&& src_port == x.src_port
            &&& dst_port == x.dst_port
            &&& protocol == x.protocol
        },
    }
}

/// Whether `b` extends `a` with writes that all satisfy `ok`.
pub open spec fn appends_only(a: Seq<DbOpView>, b: Seq<DbOpView>, ok: spec_fn(DbOpView) -> bool) -> bool {
    &&& a.is_prefix_of(b)
    &&& forall|i: int| a.len() <= i < b.len() ==> ok(#[trigger] b[i])
}

proof fn lemma_appends_push(a: Seq<DbOpView>, b: Seq<DbOpView>, op: DbOpView, ok: spec_fn(DbOpView) -> bool)
    requires
        appends_only(a, b, ok),
        ok(op),
    ensures
        appends_only(a, b.push(op), ok),
{
    assert forall|i: int| 0 <= i < a.len() implies a[i] == b.push(op)[i] by {
        assert(a[i] == b[i]);
    }
    assert forall|i: int| a.len() <= i < b.push(op).len() implies ok(#[trigger] b.push(op)[i]) by {
        if i < b.len() {
            assert(b.push(op)[i] == b[i]);
        }
    }
}

proof fn lemma_upsert_appends(
    t: Tally,
    a: Seq<DbOpView>,
    ip: [u8; 4],
    mac: Seq<char>,
    time: PacketTime,
    table: Map<u32, Seq<char>>,
    ok: spec_fn(DbOpView) -> bool,
)
    requires
        appends_only(a, t.ops, ok),
        t.hosts.contains_key(ip_key(ip)) ==> ok(DbOpView::TouchHost { host: t.hosts[ip_key(ip)], time }),
        !t.hosts.contains_key(ip_key(ip)) ==> ok(
            DbOpView::InsertHost { host: t.host_count, mac, ip: ipv4_text(ip), time },
        ),
        !t.hosts.contains_key(ip_key(ip)) ==> (vendor_for(table, mac) matches Some(v) ==> ok(
            DbOpView::SetDeviceType { host: t.host_count, vendor: v },
        )),
    ensures
        appends_only(a, upsert_host(t, ip, mac, time, table).0.ops, ok),
        upsert_host(t, ip, mac, time, table).0.hosts.contains_key(ip_key(ip)),
        upsert_host(t, ip, mac, time, table).0.hosts[ip_key(ip)] == upsert_host(t, ip, mac, time, table).1,
        forall|k: u32| #[trigger] t.hosts.contains_key(k) ==> upsert_host(t, ip, mac, time, table).0.hosts.contains_key(k)
            && upsert_host(t, ip, mac, time, table).0.hosts[k] == t.hosts[k],
        upsert_host(t, ip, mac, time, table).0.conns == t.conns,
{
    let k = ip_key(ip);
    if t.hosts.contains_key(k) {
        lemma_appends_push(a, t.ops, DbOpView::TouchHost { host: t.hosts[k], time }, ok);
    } else {
        let id = t.host_count;
        let op1 = DbOpView::InsertHost { host: id, mac, ip: ipv4_text(ip), time };
        lemma_appends_push(a, t.ops, op1, ok);
        match vendor_for(table, mac) {
            Some(v) => lemma_appends_push(a, t.ops.push(op1), DbOpView::SetDeviceType { host: id, vendor: v }, ok),
            None => {},
        }
    }
}

/// Law: the writes made for a kept frame describe that frame: each host write
/// is for the host of its source or destination address (a new host with that
/// address's MAC and address texts, its vendor from that MAC), the connection
/// write is for the connection of its flow (a new one between the hosts of its
/// addresses, with its ports, protocol and Modbus flag), and its packet row names
/// that connection, its address texts, ports and protocol.
pub proof fn law_writes_describe_frame(t: Tally, data: Seq<u8>, time: PacketTime, table: Map<u32, Seq<char>>)
    ensures
        packet_summary(data) matches Some(x) ==> forall|i: int|
            t.ops.len() <= i < process(t, data, time, table).ops.len() ==> op_describes(
                #[trigger] process(t, data, time, table).ops[i],
                x,
                process(t, data, time, table),
                table,
            ),
{
    match packet_summary(data) {
        Some(x) => {
            let len = data.len();
            let r = process(t, data, time, table);
            let ok = |op: DbOpView| op_describes(op, x, r, table);
            assert(t.ops.is_prefix_of(t.ops));
            let ks = ip_key(x.src_ip);
            let kd = ip_key(x.dst_ip);
            let (t1, src_host) = upsert_host(t, x.src_ip, x.src_mac, time, table);
            let (t2, dst_host) = upsert_host(t1, x.dst_ip, x.dst_mac, time, table);
            let fk = flow_key(x.src_ip, x.src_port, x.dst_ip, x.dst_port, x.protocol);
            let c = if t2.conns.contains_key(fk) { t2.conns[fk] } else { t2.conn_count };
            // the hosts and connection that the state after the frame gives its
            // addresses and flow
            assert(r.hosts == t2.hosts);
            assert(r.conns.contains_key(fk) && r.conns[fk] == c);
            lemma_upsert_appends(t, t.ops, x.src_ip, x.src_mac, time, table, ok);
            if !t1.hosts.contains_key(kd) {
                assert(kd != ks);
            }
            lemma_upsert_appends(t1, t.ops, x.dst_ip, x.dst_mac, time, table, ok);
            assert(t2.hosts[ks] == src_host);
            assert(t2.hosts[kd] == dst_host);
            let op = if t2.conns.contains_key(fk) {
                DbOpView::TouchConnection { conn: c, time, bytes: len }
            } else {
                DbOpView::InsertConnection {
                    conn: c,
                    src_host,
                    dst_host,
                    src_port: x.src_port,
                    dst_port: x.dst_port,
                    protocol: x.protocol,
                    modbus: x.modbus,
                    time,
                    bytes: len,
                }
            };
            lemma_appends_push(t.ops, t2.ops, op, ok);
            lemma_appends_push(
                t.ops,
                t2.ops.push(op),
                DbOpView::InsertPacket {
                    conn: c,
                    time,
                    src_ip: ipv4_text(x.src_ip),
                    dst_ip: ipv4_text(x.dst_ip),
                    src_port: x.src_port,
                    dst_port: x.dst_port,
                    protocol: x.protocol,
                    length: len,
                },
                ok,
            );
        },
        None => {},
    }
}

/// A number written in mixed radix with last digit below `r` determines its
/// digits.
proof fn lemma_radix_unique(x1: int, y1: int, x2: int, y2: int, r: int)
    requires
        r > 0,
        0 <= y1 < r,
        0 <= y2 < r,
        x1 * r + y1 == x2 * r + y2,
    ensures
        x1 == x2,
        y1 == y2,
{
    assert(x1 == x2) by (nonlinear_arith)
        requires
            r > 0,
            0 <= y1 < r,
            0 <= y2 < r,
            x1 * r + y1 == x2 * r + y2,
    {
        if x1 > x2 {
            assert(x1 * r >= (x2 + 1) * r);
        } else if x1 < x2 {
            assert(x2 * r >= (x1 + 1) * r);
        }
    }
}

/// Law: two IPv4 addresses with the same key are the same address, so hosts are
/// told apart exactly by their addresses.
pub proof fn law_ip_key_injective(a: [u8; 4], b: [u8; 4])
    requires
        ip_key(a) == ip_key(b),
    ensures
        a[0] == b[0] && a[1] == b[1] && a[2] == b[2] && a[3] == b[3],
{
    let ka = a[0] as int * 16777216 + a[1] as int * 65536 + a[2] as int * 256 + a[3] as int;
    let kb = b[0] as int * 16777216 + b[1] as int * 65536 + b[2] as int * 256 + b[3] as int;
    assert(ka == ip_key(a) as int);
    assert(kb == ip_key(b) as int);
    lemma_radix_unique(a[0] as int * 65536 + a[1] as int * 256 + a[2] as int, a[3] as int,
        b[0] as int * 65536 + b[1] as int * 256 + b[2] as int, b[3] as int, 256);
    lemma_radix_unique(a[0] as int * 256 + a[1] as int, a[2] as int, b[0] as int * 256 + b[1] as int, b[2] as int, 256);
    lemma_radix_unique(a[0] as int, a[1] as int, b[0] as int, b[1] as int, 256);
}

/// Law: two flows with the same key have the same addresses, ports and protocol,
/// so connections are told apart exactly by their flows.
pub proof fn law_flow_key_injective(
    sa: [u8; 4], spa: u16, da: [u8; 4], dpa: u16, pa: Protocol,
    sb: [u8; 4], spb: u16, db: [u8; 4], dpb: u16, pb: Protocol,
)
    requires
        flow_key(sa, spa, da, dpa, pa) == flow_key(sb, spb, db, dpb, pb),
    ensures
        ip_key(sa) == ip_key(sb),
        spa == spb,
        ip_key(da) == ip_key(db),
        dpa == dpb,
        pa == pb,
{
    let a1 = ip_key(sa) as int * 65536 + spa as int;
    let a2 = a1 * 4294967296 + ip_key(da) as int;
    let a3 = a2 * 65536 + dpa as int;
    let b1 = ip_key(sb) as int * 65536 + spb as int;
    let b2 = b1 * 4294967296 + ip_key(db) as int;
    let b3 = b2 * 65536 + dpb as int;
    assert(0 <= a1 < 281474976710656 && 0 <= b1 < 281474976710656) by (nonlinear_arith)
        requires
            a1 == ip_key(sa) as int * 65536 + spa as int,
            b1 == ip_key(sb) as int * 65536 + spb as int,
            0 <= ip_key(sa) < 4294967296,
            0 <= ip_key(sb) < 4294967296,
            0 <= spa < 65536,
            0 <= spb < 65536,
    ;
    assert(0 <= a2 < 1208925819614629174706176 && 0 <= b2 < 1208925819614629174706176) by (nonlinear_arith)
        requires
            a2 == a1 * 4294967296 + ip_key(da) as int,
            b2 == b1 * 4294967296 + ip_key(db) as int,
            0 <= a1 < 281474976710656,
            0 <= b1 < 281474976710656,
            0 <= ip_key(da) < 4294967296,
            0 <= ip_key(db) < 4294967296,
    ;
    assert(0 <= a3 < 79228162514264337593543950336 && 0 <= b3 < 79228162514264337593543950336) by (nonlinear_arith)
        requires
            a3 == a2 * 65536 + dpa as int,
            b3 == b2 * 65536 + dpb as int,
            0 <= a2 < 1208925819614629174706176,
            0 <= b2 < 1208925819614629174706176,
            0 <= dpa < 65536,
            0 <= dpb < 65536,
    ;
    assert(flow_key(sa, spa, da, dpa, pa) as int == a3 * 4 + protocol_code(pa));
    assert(flow_key(sb, spb, db, dpb, pb) as int == b3 * 4 + protocol_code(pb));
    lemma_radix_unique(a3, protocol_code(pa), b3, protocol_code(pb), 4);
    lemma_radix_unique(a2, dpa as int, b2, dpb as int, 65536);
    lemma_radix_unique(a1, ip_key(da) as int, b1, ip_key(db) as int, 4294967296);
    lemma_radix_unique(ip_key(sa) as int, spa as int, ip_key(sb) as int, spb as int, 65536);
}

/// Processing a frame adds at most two hosts, one connection and one packet.
pub proof fn lemma_process_growth(t: Tally, data: Seq<u8>, time: PacketTime, table: Map<u32, Seq<char>>)
    ensures
        process(t, data, time, table).host_count <= t.host_count + 2,
        process(t, data, time, table).conn_count <= t.conn_count + 1,
        process(t, data, time, table).packet_count <= t.packet_count + 1,
{
}

/// What an import stores: the writes in order, and the numbers of hosts,
/// connections and packets.
pub struct ImportPlan {
    pub ops: Vec<DbOp>,
    pub host_count: usize,
    pub connection_count: usize,
    pub packet_count: usize,
}

/// Whether a plan holds the writes and counts of an aggregation state.
pub open spec fn plan_matches(plan: ImportPlan, t: Tally) -> bool {
    &&& ops_view(plan.ops@) == t.ops
    &&& plan.host_count == t.host_count
    &&& plan.connection_count == t.conn_count
    &&& plan.packet_count == t.packet_count
}

/// Aggregates captured packets, in order, into the writes that store them.
pub fn aggregate(packets: &Vec<CapturedPacket>, table: &OuiTable) -> (plan: ImportPlan)
    requires
        packets@.len() <= usize::MAX / 2,
    ensures
        plan_matches(plan, tally_of(frames(packets@), table@)),
{
    let mut agg = Aggregator::new();
    let n = packets.len();
    let mut i: usize = 0;
    proof {
        assert(frames(packets@).take(0) =~= Seq::<(Seq<u8>, PacketTime)>::empty());
    }
    while i < n
        invariant
            n == packets@.len(),
            n <= usize::MAX / 2,
            i <= n,
            agg@ == tally_of(frames(packets@).take(i as int), table@),
            agg@.host_count <= 2 * i,
            agg@.conn_count <= i,
            agg@.packet_count <= i,
        decreases n - i,
    {
        let ghost before = agg@;
        proof {
            let fs = frames(packets@);
            assert(fs.take(i + 1).drop_last() =~= fs.take(i as int));
            assert(fs.take(i + 1).last() == (packets@[i as int].data@, packets@[i as int].time));
            lemma_process_growth(before, packets@[i as int].data@, packets@[i as int].time, table@);
        }
        agg.process_packet(&packets[i], table);
        i = i + 1;
    }
    proof {
        assert(frames(packets@).take(n as int) =~= frames(packets@));
    }
    let host_count = agg.host_count();
    let connection_count = agg.connection_count();
    let packet_count = agg.packet_count();
    let ops = agg.into_ops();
    ImportPlan { ops, host_count, connection_count, packet_count }
}

/// What an import stores before it fails: the writes of the packets read
/// before the failure, and the error.
pub struct PartialImport {
    pub plan: ImportPlan,
    pub error: TaplootError,
}

/// Analyses a capture held in memory: reads its packets (pcapng or legacy pcap
/// by the first four bytes) and aggregates them. When reading fails (a capture
/// of fewer than four bytes, one that the reader refuses, or a reader error part
/// way), the writes of the packets read before the failure come with the error.
pub fn parse_pcap(buf: &[u8], table: &OuiTable) -> (r: Result<ImportPlan, PartialImport>)
    ensures
        buf@.len() < 4 ==> r is Err,
        ({
            let (fs, err) = capture_result(buf@);
            if fs.len() <= usize::MAX / 2 {
                match err {
                    None => r matches Ok(plan) && plan_matches(plan, tally_of(fs, table@)),
                    Some(m) => r matches Err(p) && plan_matches(p.plan, tally_of(fs, table@)) && (
                    p.error matches TaplootError::Parse(e) && e@ == m),
                }
            } else {
                r matches Err(p) && plan_matches(p.plan, empty_tally()) && (
                p.error matches TaplootError::Parse(e) && e@ == "capture: "@
                    + "more packets than can be counted"@)
            }
        }),
{
    let read = read_capture(buf);
    if read.packets.len() > usize::MAX / 2 {
        let none: Vec<CapturedPacket> = Vec::new();
        proof {
            assert(frames(none@) =~= Seq::<(Seq<u8>, PacketTime)>::empty());
        }
        let plan = aggregate(&none, table);
        return Err(PartialImport { plan, error: parse_error("capture: ", "more packets than can be counted") });
    }
    let plan = aggregate(&read.packets, table);
    match read.error {
        None => Ok(plan),
        Some(error) => Err(PartialImport { plan, error }),
    }
}

} // verus!
