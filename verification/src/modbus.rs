//! Modbus TCP recognition from the MBAP header of a TCP payload.

use vstd::prelude::*;

verus! {

/// The TCP port that Modbus TCP servers listen on.
pub const MODBUS_TCP_PORT: u16 = 502;

/// A big-endian 16-bit field made of two bytes.
pub open spec fn be_u16(hi: u8, lo: u8) -> int {
    hi as int * 256 + lo as int
}

/// The Modbus TCP criteria on a TCP segment: one of the two ports is 502, the
/// payload holds at least the 7-byte MBAP header, its protocol identifier
/// (bytes 2-3) is zero and its length field (bytes 4-5) lies in 1..=253.
pub open spec fn modbus_tcp_spec(src_port: u16, dst_port: u16, payload: Seq<u8>) -> bool {
    &&& (src_port == MODBUS_TCP_PORT || dst_port == MODBUS_TCP_PORT)
    &&& payload.len() >= 7
    &&& be_u16(payload[2], payload[3]) == 0
    &&& 1 <= be_u16(payload[4], payload[5]) <= 253
}

/// Check if a TCP segment looks like Modbus TCP.
pub fn is_modbus_tcp(src_port: u16, dst_port: u16, payload: &[u8]) -> (res: bool)
    ensures
        res == modbus_tcp_spec(src_port, dst_port, payload@),
{
    if src_port != MODBUS_TCP_PORT && dst_port != MODBUS_TCP_PORT {
        return false;
    }
    if payload.len() < 7 {
        return false;
    }
    // MBAP header: transaction_id (2) | protocol_id (2) | length (2) | unit_id (1)
    let protocol_id: u16 = (payload[2] as u16) * 256 + (payload[3] as u16);
    if protocol_id != 0 {
        return false;
    }
    let length: u16 = (payload[4] as u16) * 256 + (payload[5] as u16);
    1 <= length && length <= 253
}

/// Modbus TCP is recognised exactly when one of the ports is 502, the payload
/// holds at least 7 bytes, bytes 2 and 3 (the protocol identifier) are zero, and
/// bytes 4 and 5 read big-endian (the length) lie in 1..=253; swapping the two
/// ports changes nothing.
pub proof fn law_modbus_criteria(src_port: u16, dst_port: u16, payload: Seq<u8>)
    ensures
        modbus_tcp_spec(src_port, dst_port, payload) <==> {
            &&& (src_port == 502 || dst_port == 502)
            &&& payload.len() >= 7
            &&& payload[2] == 0
            &&& payload[3] == 0
            &&& 1 <= payload[4] as int * 256 + payload[5] as int <= 253
        },
        modbus_tcp_spec(src_port, dst_port, payload) == modbus_tcp_spec(dst_port, src_port, payload),
{
}

/// Only the protocol identifier and the length of the MBAP header decide: two
/// payloads of at least 7 bytes that agree on bytes 2 to 5 are recognised alike,
/// whatever their transaction identifiers (bytes 0-1), unit identifiers and data.
pub proof fn law_modbus_header_fields_only(src_port: u16, dst_port: u16, p: Seq<u8>, q: Seq<u8>)
    requires
        p.len() >= 7,
        q.len() >= 7,
        p[2] == q[2],
        p[3] == q[3],
        p[4] == q[4],
        p[5] == q[5],
    ensures
        modbus_tcp_spec(src_port, dst_port, p) == modbus_tcp_spec(src_port, dst_port, q),
{
}

} // verus!
