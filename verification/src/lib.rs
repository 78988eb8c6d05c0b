//! Verified core of a pcap analysis tool for OT/ICS networks: capture reading,
//! packet dissection, Modbus TCP detection, vendor lookup by MAC prefix and the
//! aggregation of packets into hosts, connections and packet rows.

pub mod modbus;
pub mod text;
pub mod oui;
pub mod dissect;
pub mod error;
pub mod reader;
pub mod capture;
pub mod aggregate;
pub mod complete_read;
