//! The destination-address frequency table, backed by a hash map keyed
//! directly by the address's 32-bit value.

use vstd::prelude::*;

verus! {

/// Frequency table from destination address to occurrence count.
///
/// The key space is IPv4 addresses as unsigned 32-bit values, already
/// well distributed, so the map is keyed by the raw value; this choice
/// is specific to 4-byte keys and does not generalise to 16-byte
/// addresses. Verus sees the table only through `address_counts` and
/// the trusted methods below.
#[verifier::external_body]
pub struct AddressTable {
    table: hashbrown::HashMap<u32, u64>,
}

/// The table's contents as a mathematical map from address to count.
pub uninterp spec fn address_counts(t: AddressTable) -> Map<u32, u64>;

/// The contents of a table with no entries.
pub open spec fn no_counts() -> Map<u32, u64> {
    Map::empty()
}

impl AddressTable {
    /// Relies on hashbrown::HashMap::new: a freshly created map holds
    /// no entries.
    #[verifier::external_body]
    pub fn new() -> (r: AddressTable)
        ensures
            address_counts(r) == no_counts(),
    {
        AddressTable { table: hashbrown::HashMap::new() }
    }

    /// Relies on hashbrown::HashMap::get: returns the value stored
    /// under the key, or nothing when the key is absent.
    #[verifier::external_body]
    pub fn get(&self, address: u32) -> (r: Option<u64>)
        ensures
            r == (if address_counts(*self).dom().contains(address) {
                Some(address_counts(*self)[address])
            } else {
                None::<u64>
            }),
    {
        self.table.get(&address).copied()
    }

    /// Relies on hashbrown::HashMap::insert: stores the value under the
    /// key, replacing any previous value for that key and leaving every
    /// other entry unchanged.
    #[verifier::external_body]
    pub fn set(&mut self, address: u32, count: u64)
        ensures
            address_counts(*final(self)) == address_counts(*old(self)).insert(address, count),
    {
        self.table.insert(address, count);
    }

    /// Relies on hashbrown::HashMap::len: the number of stored entries.
    #[verifier::external_body]
    pub fn len(&self) -> (r: usize)
        ensures
            r == address_counts(*self).dom().len(),
    {
        self.table.len()
    }

    /// Relies on hashbrown::HashMap::iter: yields each stored entry
    /// exactly once; the order is not specified.
    #[verifier::external_body]
    pub fn entries(&self) -> (r: Vec<(u32, u64)>)
        ensures
            r@.len() == address_counts(*self).dom().len(),
            forall|i: int|
                0 <= i < r@.len() ==> address_counts(*self).contains_pair(
                    (#[trigger] r@[i]).0,
                    r@[i].1,
                ),
            forall|i: int, j: int|
                0 <= i < r@.len() && 0 <= j < r@.len() && i != j ==> (#[trigger] r@[i]).0 != (
                #[trigger] r@[j]).0,
            forall|a: u32|
                #[trigger] address_counts(*self).dom().contains(a) ==> exists|i: int|
                    0 <= i < r@.len() && (#[trigger] r@[i]).0 == a,
    {
        self.table.iter().map(|(k, v)| (*k, *v)).collect()
    }
}

} // verus!
