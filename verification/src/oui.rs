//! Vendor lookup by the first three bytes (the OUI) of a MAC address.

use std::collections::BTreeMap;
use std::collections::HashMap;
use vstd::prelude::*;

use crate::text::{
    byte_hex, fields_view, lemma_byte_hex_roundtrip, lemma_split_mac_text, mac_text, parse_hex_byte,
    parse_hex_u8, split_colon, split_colon_fields,
};

verus! {

broadcast use vstd::std_specs::hash::group_hash_axioms;

/// What a TOML document holds when it is read as a table of string keys to
/// string values, with the keys in ascending order; `None` when it is not such
/// a document.
pub uninterp spec fn toml_string_table(text: Seq<char>) -> Option<Seq<(Seq<char>, Seq<char>)>>;

/// The texts of a list of string pairs.
pub open spec fn pairs_view(pairs: Seq<(String, String)>) -> Seq<(Seq<char>, Seq<char>)> {
    pairs.map_values(|p: (String, String)| (p.0@, p.1@))
}

/// Reads a TOML document as a table of string keys to string values, through
/// `toml::from_str` into an ordered map (the entries are those that a hash map
/// would hold; the ordered map fixes the order in which they are taken). The contract only ties the result to
/// the document through the name `toml_string_table`; what TOML accepts is the
/// `toml` crate's grammar and is not stated here.
#[verifier::external_body]
fn read_toml_string_table(text: &str) -> (res: Option<Vec<(String, String)>>)
    ensures
        res is Some == toml_string_table(text@) is Some,
        res matches Some(v) ==> pairs_view(v@) == toml_string_table(text@)->0,
{
    match toml::from_str::<BTreeMap<String, String>>(text) {
        Ok(m) => Some(m.into_iter().collect()),
        Err(_) => None,
    }
}

/// The lookup key of a three-byte prefix.
pub open spec fn prefix_key(a: u8, b: u8, c: u8) -> u32 {
    (a as int * 65536 + b as int * 256 + c as int) as u32
}

/// The prefix named by the first three of (at least three) fields, each a
/// hexadecimal byte.
pub open spec fn fields_prefix(parts: Seq<Seq<char>>) -> Option<u32> {
    match (parse_hex_u8(parts[0]), parse_hex_u8(parts[1]), parse_hex_u8(parts[2])) {
        (Some(a), Some(b), Some(c)) => Some(prefix_key(a, b, c)),
        _ => None,
    }
}

/// The prefix named by a table key: exactly three ':'-separated hexadecimal bytes.
pub open spec fn table_key(k: Seq<char>) -> Option<u32> {
    let parts = split_colon(k);
    if parts.len() == 3 {
        fields_prefix(parts)
    } else {
        None
    }
}

/// The prefix of a MAC address text: at least three ':'-separated fields, the
/// first three hexadecimal bytes.
pub open spec fn mac_prefix(mac: Seq<char>) -> Option<u32> {
    let parts = split_colon(mac);
    if parts.len() >= 3 {
        fields_prefix(parts)
    } else {
        None
    }
}

/// The table built from (prefix text, vendor) entries taken in order: an entry
/// whose key names a prefix sets that prefix's vendor; other entries are skipped.
pub open spec fn table_from_entries(e: Seq<(Seq<char>, Seq<char>)>) -> Map<u32, Seq<char>>
    decreases e.len(),
{
    if e.len() == 0 {
        Map::empty()
    } else {
        let m = table_from_entries(e.drop_last());
        match table_key(e.last().0) {
            Some(k) => m.insert(k, e.last().1),
            None => m,
        }
    }
}

/// The vendors of known MAC prefixes.
pub struct OuiTable {
    vendors: HashMap<u32, String>,
}

impl View for OuiTable {
    type V = Map<u32, Seq<char>>;

    closed spec fn view(&self) -> Map<u32, Seq<char>> {
        self.vendors@.map_values(|s: String| s@)
    }
}

/// Reads the first three fields as a prefix key.
fn parse_fields_prefix(parts: &Vec<Vec<char>>) -> (r: Option<u32>)
    requires
        parts.len() >= 3,
    ensures
        r == fields_prefix(fields_view(parts@)),
{
    let a = parse_hex_byte(&parts[0]);
    let b = parse_hex_byte(&parts[1]);
    let c = parse_hex_byte(&parts[2]);
    match (a, b, c) {
        (Some(a), Some(b), Some(c)) => Some((a as u32) * 65536 + (b as u32) * 256 + (c as u32)),
        _ => None,
    }
}

impl OuiTable {
    /// The table with no vendor.
    pub fn empty() -> (t: OuiTable)
        ensures
            t@ == Map::<u32, Seq<char>>::empty(),
    {
        let t = OuiTable { vendors: HashMap::new() };
        proof {
            assert(t@ =~= Map::<u32, Seq<char>>::empty());
        }
        t
    }

    /// Builds the table from (prefix text, vendor) pairs in order; a pair whose
    /// prefix text is not three ':'-separated hexadecimal bytes is skipped.
    pub fn from_entries(entries: &Vec<(String, String)>) -> (t: OuiTable)
        ensures
            t@ == table_from_entries(pairs_view(entries@)),
    {
        let mut vendors: HashMap<u32, String> = HashMap::new();
        let n = entries.len();
        let mut i: usize = 0;
        proof {
            assert(pairs_view(entries@).take(0) =~= Seq::<(Seq<char>, Seq<char>)>::empty());
            assert(vendors@.map_values(|s: String| s@) =~= Map::<u32, Seq<char>>::empty());
        }
        while i < n
            invariant
                n == entries@.len(),
                i <= n,
                vendors@.map_values(|s: String| s@) == table_from_entries(
                    pairs_view(entries@).take(i as int),
                ),
            decreases n - i,
        {
            let ghost es = pairs_view(entries@);
            proof {
                assert(es.take(i + 1).drop_last() =~= es.take(i as int));
                assert(es.take(i + 1).last() == (entries@[i as int].0@, entries@[i as int].1@));
            }
            let parts = split_colon_fields(entries[i].0.as_str());
            if parts.len() == 3 {
                match parse_fields_prefix(&parts) {
                    Some(key) => {
                        let ghost before = vendors@;
                        vendors.insert(key, entries[i].1.clone());
                        proof {
                            assert(vendors@.map_values(|s: String| s@) =~= before.map_values(
                                |s: String| s@,
                            ).insert(key, entries@[i as int].1@));
                        }
                    },
                    None => {},
                }
            }
            i = i + 1;
        }
        proof {
            assert(pairs_view(entries@).take(n as int) =~= pairs_view(entries@));
        }
        OuiTable { vendors }
    }

    /// Builds the table from a TOML document of `"aa:bb:cc" = "Vendor"` entries;
    /// a document that is not a table of strings gives the empty table.
    pub fn from_toml(text: &str) -> (t: OuiTable)
        ensures
            t@ == table_from_entries(
                match toml_string_table(text@) {
                    Some(e) => e,
                    None => Seq::empty(),
                },
            ),
    {
        match read_toml_string_table(text) {
            Some(entries) => OuiTable::from_entries(&entries),
            None => {
                let t = OuiTable::empty();
                proof {
                    assert(table_from_entries(Seq::empty()) =~= Map::<u32, Seq<char>>::empty());
                }
                t
            },
        }
    }

    /// The vendor recorded for a prefix key.
    pub fn vendor_of(&self, key: u32) -> (r: Option<String>)
        ensures
            r is Some == self@.contains_key(key),
            r matches Some(v) ==> v@ == self@[key],
    {
        match self.vendors.get(&key) {
            Some(v) => Some(v.clone()),
            None => None,
        }
    }
}

/// The vendor of a MAC address text such as `"00:1a:2b:3c:4d:5e"`, by its first
/// three bytes; `None` when the text has fewer than three ':'-separated fields,
/// when one of the first three is not a hexadecimal byte, or when the prefix is
/// not in the table.
pub fn lookup_vendor(table: &OuiTable, mac: &str) -> (r: Option<String>)
    ensures
        r is Some == (mac_prefix(mac@) matches Some(k) && table@.contains_key(k)),
        r matches Some(v) ==> v@ == table@[mac_prefix(mac@)->0],
{
    let parts = split_colon_fields(mac);
    if parts.len() < 3 {
        return None;
    }
    match parse_fields_prefix(&parts) {
        Some(key) => table.vendor_of(key),
        None => None,
    }
}

/// Law: the printed form of a MAC address of at least three bytes names the
/// prefix of its first three bytes, so a MAC address printed by `format_mac` is
/// looked up by its own OUI.
pub proof fn law_formatted_mac_prefix(bytes: Seq<u8>)
    requires
        bytes.len() >= 3,
    ensures
        mac_prefix(mac_text(bytes)) == Some(prefix_key(bytes[0], bytes[1], bytes[2])),
{
    lemma_split_mac_text(bytes);
    lemma_byte_hex_roundtrip(bytes[0]);
    lemma_byte_hex_roundtrip(bytes[1]);
    lemma_byte_hex_roundtrip(bytes[2]);
    let parts = split_colon(mac_text(bytes));
    assert(parts[0] == byte_hex(bytes[0]));
    assert(parts[1] == byte_hex(bytes[1]));
    assert(parts[2] == byte_hex(bytes[2]));
}

} // verus!
