use vstd::prelude::*;

use std::collections::HashMap;

use crate::bytes::be_u16;
use crate::bytes::read_be_u16;
use crate::cache::Cache;
use crate::definition::Definition;
use crate::definition::archive_map_spec;
use crate::definition::fetch_from_archive;
use crate::error::ParseError;
use crate::error::RuneFsError;

verus! {

broadcast use vstd::std_specs::hash::group_hash_axioms;

/// Index that holds the configuration archives.
pub const CONFIG_INDEX_ID: u8 = 2;

/// Archive of the configuration index that packs the inventory definitions.
pub const INVENTORY_ARCHIVE_ID: u32 = 5;

/// Archive of the configuration index that packs the varbit definitions.
pub const VARBIT_ARCHIVE_ID: u32 = 14;

/// One inventory definition: its id and, when stored, its capacity.
#[derive(Clone, Eq, PartialEq, Debug)]
pub struct InventoryDefinition {
    pub id: u32,
    pub capacity: Option<u16>,
}

/// What walking an inventory buffer's attribute stream from offset `i`
/// yields: attribute 0 ends the stream, attribute 2 stores the capacity;
/// anything else, or running out of bytes, rejects the buffer.
pub open spec fn inv_attrs(s: Seq<u8>, i: int, cap: Option<u16>) -> Option<Option<u16>>
    decreases s.len() - i,
{
    if i < 0 || i >= s.len() {
        None
    } else if s[i] == 0 {
        Some(cap)
    } else if s[i] == 2 && i + 3 <= s.len() {
        inv_attrs(s, i + 3, Some(be_u16(s, i + 1) as u16))
    } else {
        None
    }
}

impl Definition for InventoryDefinition {
    open spec fn parsed(id: u32, data: Seq<u8>) -> Option<InventoryDefinition> {
        match inv_attrs(data, 0, None) {
            Some(cap) => Some(InventoryDefinition { id, capacity: cap }),
            None => None,
        }
    }

    fn new(id: u32, buffer: &[u8]) -> (r: Result<InventoryDefinition, RuneFsError>) {
        let n = buffer.len();
        let mut i: usize = 0;
        let mut capacity: Option<u16> = None;
        loop
            invariant
                i <= n,
                n == buffer@.len(),
                inv_attrs(buffer@, 0, None) == inv_attrs(buffer@, i as int, capacity),
            decreases n - i,
        {
            if i >= n {
                return Err(RuneFsError::Parse(ParseError::Unknown));
            }
            let attr = buffer[i];
            if attr == 0 {
                return Ok(InventoryDefinition { id, capacity });
            } else if attr == 2 && n - i >= 3 {
                capacity = Some(read_be_u16(buffer, i + 1) as u16);
                i += 3;
            } else {
                return Err(RuneFsError::Parse(ParseError::Unknown));
            }
        }
    }
}

/// One varbit definition: the varp it reads and the bit range within it.
#[derive(Clone, Eq, PartialEq, Debug)]
pub struct VarbitDefinition {
    pub id: u32,
    pub varp_id: u16,
    pub least_significant_bit: u8,
    pub most_significant_bit: u8,
}

/// What walking a varbit buffer's attribute stream from offset `i` yields:
/// attribute 0 ends the stream, attribute 1 stores the varp id and bit range;
/// anything else, or running out of bytes, rejects the buffer.
pub open spec fn varbit_attrs(s: Seq<u8>, i: int, cur: (u16, u8, u8)) -> Option<(u16, u8, u8)>
    decreases s.len() - i,
{
    if i < 0 || i >= s.len() {
        None
    } else if s[i] == 0 {
        Some(cur)
    } else if s[i] == 1 && i + 5 <= s.len() {
        varbit_attrs(s, i + 5, (be_u16(s, i + 1) as u16, s[i + 3], s[i + 4]))
    } else {
        None
    }
}

impl Definition for VarbitDefinition {
    open spec fn parsed(id: u32, data: Seq<u8>) -> Option<VarbitDefinition> {
        match varbit_attrs(data, 0, (0, 0, 0)) {
            Some((varp, lsb, msb)) => Some(
                VarbitDefinition {
                    id,
                    varp_id: varp,
                    least_significant_bit: lsb,
                    most_significant_bit: msb,
                },
            ),
            None => None,
        }
    }

    fn new(id: u32, buffer: &[u8]) -> (r: Result<VarbitDefinition, RuneFsError>) {
        let n = buffer.len();
        let mut i: usize = 0;
        let mut varp_id: u16 = 0;
        let mut lsb: u8 = 0;
        let mut msb: u8 = 0;
        loop
            invariant
                i <= n,
                n == buffer@.len(),
                varbit_attrs(buffer@, 0, (0, 0, 0)) == varbit_attrs(
                    buffer@,
                    i as int,
                    (varp_id, lsb, msb),
                ),
            decreases n - i,
        {
            if i >= n {
                return Err(RuneFsError::Parse(ParseError::Unknown));
            }
            let attr = buffer[i];
            if attr == 0 {
                return Ok(
                    VarbitDefinition {
                        id,
                        varp_id,
                        least_significant_bit: lsb,
                        most_significant_bit: msb,
                    },
                );
            } else if attr == 1 && n - i >= 5 {
                varp_id = read_be_u16(buffer, i + 1) as u16;
                lsb = buffer[i + 3];
                msb = buffer[i + 4];
                i += 5;
            } else {
                return Err(RuneFsError::Parse(ParseError::Unknown));
            }
        }
    }
}

/// Loads all inventory definitions from the current cache.
pub struct InventoryLoader(HashMap<u16, InventoryDefinition>);

impl InventoryLoader {
    /// The loaded id-to-definition map.
    pub closed spec fn defs(self) -> Map<u16, InventoryDefinition> {
        self.0@
    }

    /// Loads every inventory definition packed in the configuration index's
    /// inventory archive.
    pub fn new(cache: &Cache) -> (r: Result<InventoryLoader, RuneFsError>)
        ensures
            r is Ok <==> archive_map_spec::<InventoryDefinition>(
                *cache,
                CONFIG_INDEX_ID,
                INVENTORY_ARCHIVE_ID,
            ) is Some,
            r matches Ok(l) ==> Some(l.defs()) == archive_map_spec::<InventoryDefinition>(
                *cache,
                CONFIG_INDEX_ID,
                INVENTORY_ARCHIVE_ID,
            ),
    {
        match fetch_from_archive::<InventoryDefinition>(
            cache,
            CONFIG_INDEX_ID,
            INVENTORY_ARCHIVE_ID,
        ) {
            Ok(map) => Ok(InventoryLoader(map)),
            Err(e) => Err(e),
        }
    }

    /// The inventory definition with the given id, if it was loaded.
    pub fn load(&self, id: u16) -> (r: Option<&InventoryDefinition>)
        ensures
            r is Some <==> self.defs().contains_key(id),
            r matches Some(d) ==> *d == self.defs()[id],
    {
        self.0.get(&id)
    }
}

/// Loads all varbit definitions from the current cache.
pub struct VarbitLoader(HashMap<u16, VarbitDefinition>);

impl VarbitLoader {
    /// The loaded id-to-definition map.
    pub closed spec fn defs(self) -> Map<u16, VarbitDefinition> {
        self.0@
    }

    /// Loads every varbit definition packed in the configuration index's
    /// varbit archive.
    pub fn new(cache: &Cache) -> (r: Result<VarbitLoader, RuneFsError>)
        ensures
            r is Ok <==> archive_map_spec::<VarbitDefinition>(
                *cache,
                CONFIG_INDEX_ID,
                VARBIT_ARCHIVE_ID,
            ) is Some,
            r matches Ok(l) ==> Some(l.defs()) == archive_map_spec::<VarbitDefinition>(
                *cache,
                CONFIG_INDEX_ID,
                VARBIT_ARCHIVE_ID,
            ),
    {
        match fetch_from_archive::<VarbitDefinition>(cache, CONFIG_INDEX_ID, VARBIT_ARCHIVE_ID) {
            Ok(map) => Ok(VarbitLoader(map)),
            Err(e) => Err(e),
        }
    }

    /// The varbit definition with the given id, if it was loaded.
    pub fn load(&self, id: u16) -> (r: Option<&VarbitDefinition>)
        ensures
            r is Some <==> self.defs().contains_key(id),
            r matches Some(d) ==> *d == self.defs()[id],
    {
        self.0.get(&id)
    }
}

} // verus!
