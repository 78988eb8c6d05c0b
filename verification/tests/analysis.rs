use taploot::aggregate::{aggregate, parse_pcap, DbOp};
use taploot::capture::{
    interface_info, on_legacy_event, on_ng_event, packet_time, read_capture, CapturedPacket,
    PacketTime, ReaderStep,
};
use taploot::reader::{LegacyEvent, NgEvent};
use taploot::dissect::{app_protocol_name, summarize_packet, Protocol};
use taploot::error::TaplootError;
use taploot::modbus::is_modbus_tcp;
use taploot::oui::{lookup_vendor, OuiTable};
use taploot::text::{format_ipv4, format_mac, parse_hex_byte, split_colon_fields};

const MAC_A: [u8; 6] = [0x00, 0x1a, 0x2b, 0x3c, 0x4d, 0x5e];
const MAC_B: [u8; 6] = [0xaa, 0xbb, 0xcc, 0x01, 0x02, 0x03];
const IP_A: [u8; 4] = [192, 168, 1, 10];
const IP_B: [u8; 4] = [10, 0, 0, 1];

fn ethernet(dst: [u8; 6], src: [u8; 6], ethertype: u16, payload: &[u8]) -> Vec<u8> {
    let mut f = Vec::new();
    f.extend_from_slice(&dst);
    f.extend_from_slice(&src);
    f.extend_from_slice(&ethertype.to_be_bytes());
    f.extend_from_slice(payload);
    f
}

fn ipv4(src: [u8; 4], dst: [u8; 4], proto: u8, payload: &[u8]) -> Vec<u8> {
    let total = (20 + payload.len()) as u16;
    let mut h = vec![0x45, 0x00];
    h.extend_from_slice(&total.to_be_bytes());
    h.extend_from_slice(&[0, 0, 0x40, 0, 64, proto, 0, 0]);
    h.extend_from_slice(&src);
    h.extend_from_slice(&dst);
    h.extend_from_slice(payload);
    h
}

fn tcp(sport: u16, dport: u16, payload: &[u8]) -> Vec<u8> {
    let mut t = Vec::new();
    t.extend_from_slice(&sport.to_be_bytes());
    t.extend_from_slice(&dport.to_be_bytes());
    t.extend_from_slice(&[0, 0, 0, 1, 0, 0, 0, 0, 0x50, 0x18, 0x20, 0x00, 0, 0, 0, 0]);
    t.extend_from_slice(payload);
    t
}

fn udp(sport: u16, dport: u16, payload: &[u8]) -> Vec<u8> {
    let mut u = Vec::new();
    u.extend_from_slice(&sport.to_be_bytes());
    u.extend_from_slice(&dport.to_be_bytes());
    u.extend_from_slice(&((8 + payload.len()) as u16).to_be_bytes());
    u.extend_from_slice(&[0, 0]);
    u.extend_from_slice(payload);
    u
}

const MODBUS_READ: [u8; 12] = [0x00, 0x01, 0x00, 0x00, 0x00, 0x06, 0x01, 0x03, 0x00, 0x00, 0x00, 0x0a];

fn modbus_frame() -> Vec<u8> {
    ethernet(MAC_B, MAC_A, 0x0800, &ipv4(IP_A, IP_B, 6, &tcp(40000, 502, &MODBUS_READ)))
}

fn udp_frame() -> Vec<u8> {
    ethernet(MAC_A, MAC_B, 0x0800, &ipv4(IP_B, IP_A, 17, &udp(53, 5353, &[1, 2, 3, 4])))
}

fn icmp_frame() -> Vec<u8> {
    ethernet(MAC_B, MAC_A, 0x0800, &ipv4(IP_A, IP_B, 1, &[8, 0, 0, 0, 0, 1, 0, 1]))
}

fn arp_frame() -> Vec<u8> {
    let arp = [0, 1, 8, 0, 6, 4, 0, 1, 0, 0x1a, 0x2b, 0x3c, 0x4d, 0x5e, 192, 168, 1, 10, 0, 0, 0, 0, 0, 0, 10, 0, 0, 1];
    ethernet([0xff; 6], MAC_A, 0x0806, &arp)
}

fn legacy_pcap(records: &[(u32, u32, Vec<u8>)]) -> Vec<u8> {
    let mut b = vec![0xd4, 0xc3, 0xb2, 0xa1, 2, 0, 4, 0, 0, 0, 0, 0, 0, 0, 0, 0, 0xff, 0xff, 0, 0, 1, 0, 0, 0];
    for (sec, usec, data) in records {
        b.extend_from_slice(&sec.to_le_bytes());
        b.extend_from_slice(&usec.to_le_bytes());
        b.extend_from_slice(&(data.len() as u32).to_le_bytes());
        b.extend_from_slice(&(data.len() as u32).to_le_bytes());
        b.extend_from_slice(data);
    }
    b
}

fn pcapng_block(kind: u32, body: &[u8]) -> Vec<u8> {
    let mut body = body.to_vec();
    while body.len() % 4 != 0 {
        body.push(0);
    }
    let len = (12 + body.len()) as u32;
    let mut b = Vec::new();
    b.extend_from_slice(&kind.to_le_bytes());
    b.extend_from_slice(&len.to_le_bytes());
    b.extend_from_slice(&body);
    b.extend_from_slice(&len.to_le_bytes());
    b
}

fn pcapng(tsresol: Option<u8>, packets: &[(u32, u32, u32, Vec<u8>)]) -> Vec<u8> {
    let mut shb = Vec::new();
    shb.extend_from_slice(&0x1A2B3C4Du32.to_le_bytes());
    shb.extend_from_slice(&[1, 0, 0, 0]);
    shb.extend_from_slice(&[0xff; 8]);
    let mut out = pcapng_block(0x0A0D0D0A, &shb);
    let mut idb = vec![1, 0, 0, 0, 0xff, 0xff, 0, 0];
    if let Some(r) = tsresol {
        idb.extend_from_slice(&[9, 0, 1, 0, r, 0, 0, 0, 0, 0, 0, 0]);
    }
    out.extend_from_slice(&pcapng_block(1, &idb));
    for (if_id, hi, lo, data) in packets {
        let mut epb = Vec::new();
        epb.extend_from_slice(&if_id.to_le_bytes());
        epb.extend_from_slice(&hi.to_le_bytes());
        epb.extend_from_slice(&lo.to_le_bytes());
        epb.extend_from_slice(&(data.len() as u32).to_le_bytes());
        epb.extend_from_slice(&(data.len() as u32).to_le_bytes());
        epb.extend_from_slice(data);
        out.extend_from_slice(&pcapng_block(6, &epb));
    }
    out
}

fn oui_table() -> OuiTable {
    OuiTable::from_entries(&vec![("00:1A:2B".to_string(), "Acme Controls".to_string())])
}

fn chars(s: &str) -> Vec<char> {
    s.chars().collect()
}

#[test]
fn modbus_needs_port_502() {
    assert!(is_modbus_tcp(40000, 502, &MODBUS_READ));
    assert!(is_modbus_tcp(502, 40000, &MODBUS_READ));
    assert!(!is_modbus_tcp(40000, 503, &MODBUS_READ));
}

#[test]
fn modbus_needs_full_mbap_header() {
    assert!(!is_modbus_tcp(502, 1, &MODBUS_READ[..6]));
    assert!(is_modbus_tcp(502, 1, &MODBUS_READ[..7]));
}

#[test]
fn modbus_protocol_id_must_be_zero() {
    let mut p = MODBUS_READ;
    p[3] = 1;
    assert!(!is_modbus_tcp(502, 1, &p));
    let mut p = MODBUS_READ;
    p[2] = 1;
    assert!(!is_modbus_tcp(502, 1, &p));
}

#[test]
fn modbus_length_bounds() {
    let mut p = MODBUS_READ;
    p[4] = 0;
    p[5] = 0;
    assert!(!is_modbus_tcp(502, 1, &p));
    p[5] = 1;
    assert!(is_modbus_tcp(502, 1, &p));
    p[5] = 253;
    assert!(is_modbus_tcp(502, 1, &p));
    p[5] = 254;
    assert!(!is_modbus_tcp(502, 1, &p));
    p[4] = 1;
    p[5] = 1;
    assert!(!is_modbus_tcp(502, 1, &p));
}

#[test]
fn mac_is_lower_hex_joined_by_colons() {
    assert_eq!(format_mac(&MAC_B), "aa:bb:cc:01:02:03");
    assert_eq!(format_mac(&[]), "");
    assert_eq!(format_mac(&[0x0f]), "0f");
}

#[test]
fn ipv4_is_dotted_decimal() {
    assert_eq!(format_ipv4(IP_A), "192.168.1.10");
    assert_eq!(format_ipv4([0, 0, 0, 0]), "0.0.0.0");
    assert_eq!(format_ipv4([255, 9, 100, 99]), "255.9.100.99");
}

#[test]
fn hex_byte_reads_like_from_str_radix() {
    assert_eq!(parse_hex_byte(&chars("ff")), Some(255));
    assert_eq!(parse_hex_byte(&chars("FF")), Some(255));
    assert_eq!(parse_hex_byte(&chars("0a")), Some(10));
    assert_eq!(parse_hex_byte(&chars("+a")), Some(10));
    assert_eq!(parse_hex_byte(&chars("0000ff")), Some(255));
    assert_eq!(parse_hex_byte(&chars("+")), None);
    assert_eq!(parse_hex_byte(&chars("")), None);
    assert_eq!(parse_hex_byte(&chars("100")), None);
    assert_eq!(parse_hex_byte(&chars("-1")), None);
    assert_eq!(parse_hex_byte(&chars("g1")), None);
    for b in 0..=255u8 {
        let text = format!("{b:02x}");
        assert_eq!(parse_hex_byte(&chars(&text)), u8::from_str_radix(&text, 16).ok());
    }
}

#[test]
fn split_on_colons() {
    assert_eq!(split_colon_fields(""), vec![Vec::<char>::new()]);
    assert_eq!(split_colon_fields("a:bc:"), vec![chars("a"), chars("bc"), chars("")]);
    assert_eq!(split_colon_fields("::"), vec![chars(""), chars(""), chars("")]);
}

#[test]
fn vendor_lookup_by_prefix() {
    let t = oui_table();
    assert_eq!(lookup_vendor(&t, "00:1a:2b:3c:4d:5e"), Some("Acme Controls".to_string()));
    assert_eq!(lookup_vendor(&t, "00:1A:2B"), Some("Acme Controls".to_string()));
    assert_eq!(lookup_vendor(&t, "00:1a"), None);
    assert_eq!(lookup_vendor(&t, "00:1a:2c:00:00:00"), None);
    assert_eq!(lookup_vendor(&t, "zz:1a:2b:00:00:00"), None);
}

#[test]
fn vendor_lookup_of_formatted_mac() {
    let t = oui_table();
    assert_eq!(lookup_vendor(&t, &format_mac(&MAC_A)), Some("Acme Controls".to_string()));
}

#[test]
fn table_skips_bad_keys_and_later_entries_win() {
    let t = OuiTable::from_entries(&vec![
        ("00:1A:2B".to_string(), "First".to_string()),
        ("00:1a:2b".to_string(), "Second".to_string()),
        ("00:1a:2b:3c".to_string(), "Four fields".to_string()),
        ("x0:00:00".to_string(), "Not hex".to_string()),
    ]);
    assert_eq!(lookup_vendor(&t, "00:1a:2b:00:00:00"), Some("Second".to_string()));
    assert_eq!(lookup_vendor(&t, "00:1a:2b:3c:00:00"), Some("Second".to_string()));
    assert_eq!(t.vendor_of(0x001a2b), Some("Second".to_string()));
}

#[test]
fn table_from_toml() {
    let t = OuiTable::from_toml("\"00:1A:2B\" = \"Acme Controls\"\n\"AA:BB:CC\" = \"Other\"\n");
    assert_eq!(lookup_vendor(&t, "aa:bb:cc:01:02:03"), Some("Other".to_string()));
    assert_eq!(lookup_vendor(&t, "00:1a:2b:00:00:00"), Some("Acme Controls".to_string()));
    let empty = OuiTable::from_toml("not = [valid");
    assert_eq!(lookup_vendor(&empty, "aa:bb:cc:01:02:03"), None);
}

#[test]
fn interface_resolution() {
    assert_eq!(interface_info(6, 0), (0, 1_000_000));
    assert_eq!(interface_info(9, 3), (3, 1_000_000_000));
    assert_eq!(interface_info(0, 0), (0, 1));
    assert_eq!(interface_info(19, 0), (0, 10_000_000_000_000_000_000));
    assert_eq!(interface_info(20, 0), (0, 1_000_000));
    assert_eq!(interface_info(0x86, 0), (0, 1_000_000));
    assert_eq!(interface_info(6, -1), (u64::MAX, 1_000_000));
}

#[test]
fn packet_time_of_unknown_interface() {
    let info = vec![(5u64, 1000u64)];
    assert_eq!(packet_time(&info, 0, 1, 2), PacketTime::Interface { ts_high: 1, ts_low: 2, ts_offset: 5, resolution: 1000 });
    assert_eq!(packet_time(&info, 1, 1, 2), PacketTime::Interface { ts_high: 1, ts_low: 2, ts_offset: 0, resolution: 1_000_000 });
}

#[test]
fn summary_of_modbus_frame() {
    let s = summarize_packet(&modbus_frame()).expect("kept");
    assert_eq!(s.src_mac, "00:1a:2b:3c:4d:5e");
    assert_eq!(s.dst_mac, "aa:bb:cc:01:02:03");
    assert_eq!(s.src_ip, IP_A);
    assert_eq!(s.dst_ip, IP_B);
    assert_eq!((s.src_port, s.dst_port), (40000, 502));
    assert_eq!(s.protocol, Protocol::Tcp);
    assert!(s.modbus);
}

#[test]
fn summary_of_udp_and_icmp_frames() {
    let s = summarize_packet(&udp_frame()).expect("kept");
    assert_eq!((s.src_port, s.dst_port, s.protocol, s.modbus), (53, 5353, Protocol::Udp, false));
    let s = summarize_packet(&icmp_frame()).expect("kept");
    assert_eq!((s.src_port, s.dst_port, s.protocol, s.modbus), (0, 0, Protocol::Icmp, false));
}

#[test]
fn skipped_frames() {
    assert!(summarize_packet(&arp_frame()).is_none());
    assert!(summarize_packet(&[0u8; 10]).is_none());
    assert!(summarize_packet(&[]).is_none());
}

#[test]
fn protocol_names() {
    assert_eq!(Protocol::Tcp.as_str(), "TCP");
    assert_eq!(Protocol::Udp.as_str(), "UDP");
    assert_eq!(Protocol::Icmp.as_str(), "ICMP");
    assert_eq!(app_protocol_name(true), Some("modbus"));
    assert_eq!(app_protocol_name(false), None);
}

#[test]
fn capture_too_small() {
    let r = read_capture(&[0xd4, 0xc3, 0xb2]);
    assert!(r.packets.is_empty());
    match r.error {
        Some(TaplootError::Parse(m)) => assert_eq!(m, "file too small"),
        None => panic!("accepted"),
    }
}

#[test]
fn legacy_capture_records() {
    let buf = legacy_pcap(&[(100, 250_000, modbus_frame()), (101, 0, arp_frame())]);
    let r = read_capture(&buf);
    assert!(r.error.is_none());
    let ps = r.packets;
    assert_eq!(ps.len(), 2);
    assert_eq!(ps[0].time, PacketTime::Legacy { ts_sec: 100, ts_usec: 250_000 });
    assert_eq!(ps[0].data, modbus_frame());
    assert_eq!(ps[1].data, arp_frame());
}

#[test]
fn legacy_capture_bad_header() {
    let mut buf = legacy_pcap(&[]);
    buf[0] = 0;
    let r = read_capture(&buf);
    assert!(r.packets.is_empty());
    match r.error {
        Some(TaplootError::Parse(m)) => assert!(m.starts_with("pcap reader: "), "{m}"),
        None => panic!("accepted"),
    }
}

#[test]
fn pcapng_capture_records() {
    let buf = pcapng(Some(9), &[(0, 0, 1_500, udp_frame()), (3, 0, 7, icmp_frame())]);
    let r = read_capture(&buf);
    assert!(r.error.is_none());
    let ps = r.packets;
    assert_eq!(ps.len(), 2);
    assert_eq!(ps[0].time, PacketTime::Interface { ts_high: 0, ts_low: 1_500, ts_offset: 0, resolution: 1_000_000_000 });
    assert_eq!(ps[1].time, PacketTime::Interface { ts_high: 0, ts_low: 7, ts_offset: 0, resolution: 1_000_000 });
    // the block's data runs to its 32-bit boundary
    assert_eq!(ps[0].data.len(), 48);
    assert_eq!(&ps[0].data[..46], &udp_frame()[..]);
}

#[test]
fn aggregate_hosts_connections_packets() {
    let t = oui_table();
    let packets = vec![
        CapturedPacket { data: modbus_frame(), time: PacketTime::Legacy { ts_sec: 1, ts_usec: 0 } },
        CapturedPacket { data: arp_frame(), time: PacketTime::Legacy { ts_sec: 2, ts_usec: 0 } },
        CapturedPacket { data: modbus_frame(), time: PacketTime::Legacy { ts_sec: 3, ts_usec: 0 } },
        CapturedPacket { data: udp_frame(), time: PacketTime::Unset },
    ];
    let plan = aggregate(&packets, &t);
    assert_eq!((plan.host_count, plan.connection_count, plan.packet_count), (2, 2, 3));
    let len = modbus_frame().len();
    let t1 = PacketTime::Legacy { ts_sec: 1, ts_usec: 0 };
    let t3 = PacketTime::Legacy { ts_sec: 3, ts_usec: 0 };
    match &plan.ops[..] {
        [
            DbOp::InsertHost { host: 0, mac: m0, ip: i0, time: a },
            DbOp::SetDeviceType { host: 0, vendor },
            DbOp::InsertHost { host: 1, mac: m1, ip: i1, time: b },
            DbOp::InsertConnection { conn: 0, src_host: 0, dst_host: 1, src_port: 40000, dst_port: 502, protocol: Protocol::Tcp, modbus: true, time: c, bytes: n0 },
            DbOp::InsertPacket { conn: 0, src_ip: p0, dst_ip: q0, src_port: 40000, dst_port: 502, protocol: Protocol::Tcp, length: n1, .. },
            DbOp::TouchHost { host: 0, time: d },
            DbOp::TouchHost { host: 1, .. },
            DbOp::TouchConnection { conn: 0, time: e, bytes: n2 },
            DbOp::InsertPacket { conn: 0, .. },
            DbOp::TouchHost { host: 1, time: PacketTime::Unset },
            DbOp::TouchHost { host: 0, time: PacketTime::Unset },
            DbOp::InsertConnection { conn: 1, src_host: 1, dst_host: 0, src_port: 53, dst_port: 5353, protocol: Protocol::Udp, modbus: false, .. },
            DbOp::InsertPacket { conn: 1, src_ip: p1, .. },
        ] => {
            assert_eq!((m0.as_str(), i0.as_str()), ("00:1a:2b:3c:4d:5e", "192.168.1.10"));
            assert_eq!((m1.as_str(), i1.as_str()), ("aa:bb:cc:01:02:03", "10.0.0.1"));
            assert_eq!(vendor, "Acme Controls");
            assert_eq!((*a, *b, *c, *d, *e), (t1, t1, t1, t3, t3));
            assert_eq!((*n0, *n1, *n2), (len, len, len));
            assert_eq!((p0.as_str(), q0.as_str(), p1.as_str()), ("192.168.1.10", "10.0.0.1", "10.0.0.1"));
        },
        _ => panic!("unexpected writes: {}", plan.ops.len()),
    }
}

#[test]
fn same_address_as_source_and_destination() {
    let frame = ethernet(MAC_A, MAC_A, 0x0800, &ipv4(IP_A, IP_A, 17, &udp(1, 2, &[])));
    let plan = aggregate(&vec![CapturedPacket { data: frame, time: PacketTime::Unset }], &OuiTable::empty());
    assert_eq!((plan.host_count, plan.connection_count, plan.packet_count), (1, 1, 1));
    assert!(matches!(plan.ops[1], DbOp::TouchHost { host: 0, .. }));
}

#[test]
fn reversed_flow_is_another_connection() {
    let fwd = ethernet(MAC_B, MAC_A, 0x0800, &ipv4(IP_A, IP_B, 17, &udp(1, 2, &[])));
    let rev = ethernet(MAC_A, MAC_B, 0x0800, &ipv4(IP_B, IP_A, 17, &udp(2, 1, &[])));
    let plan = aggregate(
        &vec![
            CapturedPacket { data: fwd, time: PacketTime::Unset },
            CapturedPacket { data: rev, time: PacketTime::Unset },
        ],
        &OuiTable::empty(),
    );
    assert_eq!((plan.host_count, plan.connection_count, plan.packet_count), (2, 2, 2));
}

#[test]
fn import_end_to_end() {
    let t = oui_table();
    let buf = legacy_pcap(&[(10, 5, modbus_frame()), (11, 0, udp_frame()), (12, 0, arp_frame())]);
    let plan = parse_pcap(&buf, &t).unwrap_or_else(|p| panic!("import failed after {} packets", p.plan.packet_count));
    assert_eq!((plan.host_count, plan.connection_count, plan.packet_count), (2, 2, 2));
    let inserts = plan.ops.iter().filter(|o| matches!(o, DbOp::InsertPacket { .. })).count();
    assert_eq!(inserts, 2);
    assert!(parse_pcap(&[1, 2], &t).is_err());
}

#[test]
fn import_empty_capture() {
    let plan = parse_pcap(&legacy_pcap(&[]), &OuiTable::empty()).unwrap_or_else(|p| panic!("import failed after {} packets", p.plan.packet_count));
    assert_eq!((plan.host_count, plan.connection_count, plan.packet_count), (0, 0, 0));
    assert!(plan.ops.is_empty());
}

#[test]
fn pcapng_events() {
    let mut info = Vec::new();
    let mut packets = Vec::new();
    assert!(matches!(on_ng_event(&mut info, &mut packets, NgEvent::Interface(32, 3, 7)), ReaderStep::Consume(32)));
    assert_eq!(info, vec![(7, 1000)]);
    assert!(matches!(on_ng_event(&mut info, &mut packets, NgEvent::Enhanced(40, 0, 0, 9, vec![1, 2])), ReaderStep::Consume(40)));
    assert!(matches!(on_ng_event(&mut info, &mut packets, NgEvent::Simple(20, vec![3])), ReaderStep::Consume(20)));
    assert!(matches!(on_ng_event(&mut info, &mut packets, NgEvent::Section(28, true)), ReaderStep::Consume(28)));
    assert!(matches!(on_ng_event(&mut info, &mut packets, NgEvent::Other(12)), ReaderStep::Consume(12)));
    assert!(matches!(on_ng_event(&mut info, &mut packets, NgEvent::Incomplete), ReaderStep::Refill));
    assert!(matches!(on_ng_event(&mut info, &mut packets, NgEvent::Eof), ReaderStep::Finish));
    match on_ng_event(&mut info, &mut packets, NgEvent::Failed("bad block".to_string())) {
        ReaderStep::Fail(TaplootError::Parse(m)) => assert_eq!(m, "pcapng: bad block"),
        _ => panic!("not a failure"),
    }
    assert_eq!(packets.len(), 2);
    assert_eq!(packets[0].data, vec![1, 2]);
    assert_eq!(packets[0].time, PacketTime::Interface { ts_high: 0, ts_low: 9, ts_offset: 7, resolution: 1000 });
    assert_eq!(packets[1].time, PacketTime::Unset);
}

#[test]
fn legacy_events() {
    let mut packets = Vec::new();
    assert!(matches!(on_legacy_event(&mut packets, LegacyEvent::Other(24)), ReaderStep::Consume(24)));
    assert!(matches!(on_legacy_event(&mut packets, LegacyEvent::Packet(30, 5, 6, vec![9])), ReaderStep::Consume(30)));
    assert!(matches!(on_legacy_event(&mut packets, LegacyEvent::Incomplete), ReaderStep::Refill));
    assert!(matches!(on_legacy_event(&mut packets, LegacyEvent::Eof), ReaderStep::Finish));
    match on_legacy_event(&mut packets, LegacyEvent::Failed("oops".to_string())) {
        ReaderStep::Fail(TaplootError::Parse(m)) => assert_eq!(m, "pcap: oops"),
        _ => panic!("not a failure"),
    }
    assert_eq!(packets.len(), 1);
    assert_eq!(packets[0].time, PacketTime::Legacy { ts_sec: 5, ts_usec: 6 });
}

#[test]
fn truncated_legacy_capture() {
    let mut buf = legacy_pcap(&[(1, 0, modbus_frame()), (2, 0, udp_frame())]);
    buf.truncate(buf.len() - 3);
    let r = read_capture(&buf);
    // the record read before the failure is kept
    assert_eq!(r.packets.len(), 1);
    assert_eq!(r.packets[0].data, modbus_frame());
    match r.error {
        Some(TaplootError::Parse(m)) => assert!(m.starts_with("pcap: "), "{m}"),
        None => panic!("accepted"),
    }
}

#[test]
fn import_keeps_packets_before_a_failure() {
    let t = oui_table();
    let mut buf = legacy_pcap(&[(10, 5, modbus_frame()), (11, 0, udp_frame()), (12, 0, icmp_frame())]);
    buf.truncate(buf.len() - 5);
    match parse_pcap(&buf, &t) {
        Ok(_) => panic!("accepted"),
        Err(p) => {
            assert_eq!((p.plan.host_count, p.plan.connection_count, p.plan.packet_count), (2, 2, 2));
            let rows = p.plan.ops.iter().filter(|o| matches!(o, DbOp::InsertPacket { .. })).count();
            assert_eq!(rows, 2);
            match p.error {
                TaplootError::Parse(m) => assert!(m.starts_with("pcap: "), "{m}"),
            }
        },
    }
}

#[test]
fn import_too_small_has_no_writes() {
    match parse_pcap(&[1, 2], &OuiTable::empty()) {
        Ok(_) => panic!("accepted"),
        Err(p) => {
            assert!(p.plan.ops.is_empty());
            assert_eq!(p.plan.packet_count, 0);
            match p.error {
                TaplootError::Parse(m) => assert_eq!(m, "file too small"),
            }
        },
    }
}

const SHORT_BLOCK: &str = "pcapng: process information block shorter than 12 bytes";

#[test]
fn short_process_block_is_refused() {
    let mut buf = pcapng(None, &[(0, 0, 1, udp_frame())]);
    // a process information block whose length field (8) is below a block's frame
    buf.extend_from_slice(&[0x01, 0x00, 0x00, 0x80, 0x08, 0x00, 0x00, 0x00, 0, 0, 0, 0]);
    let r = read_capture(&buf);
    // the packet read before it is kept
    assert_eq!(r.packets.len(), 1);
    match r.error {
        Some(TaplootError::Parse(m)) => assert_eq!(m, SHORT_BLOCK),
        None => panic!("accepted"),
    }
}

#[test]
fn short_process_block_in_big_endian_section() {
    let mut buf = vec![0x0A, 0x0D, 0x0D, 0x0A, 0, 0, 0, 28, 0x1A, 0x2B, 0x3C, 0x4D, 0, 1, 0, 0];
    buf.extend_from_slice(&[0xff; 8]);
    buf.extend_from_slice(&[0, 0, 0, 28]);
    buf.extend_from_slice(&[0x80, 0x00, 0x00, 0x01, 0x00, 0x00, 0x00, 0x04, 0, 0, 0, 0]);
    let r = read_capture(&buf);
    assert!(r.packets.is_empty());
    match r.error {
        Some(TaplootError::Parse(m)) => assert_eq!(m, SHORT_BLOCK),
        None => panic!("accepted"),
    }
}

#[test]
fn process_information_block_is_skipped() {
    let mut buf = pcapng(None, &[]);
    buf.extend_from_slice(&pcapng_block(0x8000_0001, &[7, 0, 0, 0]));
    let tail = pcapng(None, &[(0, 0, 5, icmp_frame())]);
    // the enhanced packet block after the section and interface blocks (28 + 20 bytes)
    buf.extend_from_slice(&tail[48..]);
    let r = read_capture(&buf);
    assert!(r.error.is_none());
    assert_eq!(r.packets.len(), 1);
    assert_eq!(&r.packets[0].data[..icmp_frame().len()], &icmp_frame()[..]);
}
