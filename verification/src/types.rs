//! Identifiers that pack a table id and a region number into one region id.

use vstd::prelude::*;
use crate::decimal::{decimal_digits, u64_to_decimal};

verus! {

/// The region id of region `region_number` of table `table_id`: the table id
/// in the upper 32 bits, the region number in the lower 32 bits.
pub open spec fn packed_region_id(table_id: u32, region_number: u32) -> u64 {
    (table_id as int * 0x1_0000_0000 + region_number as int) as u64
}

/// A label followed by a number in decimal.
fn labelled(label: &str, n: u64) -> (s: String)
    ensures
        s@ == label@ + decimal_digits(n as nat),
{
    let mut s = String::from_str(label);
    let digits = u64_to_decimal(n);
    s.append(digits.as_str());
    s
}

/// Region identifier: a partition of a table's data.
#[derive(Debug, Clone, Copy, PartialEq, Eq, Hash, PartialOrd, Ord, Structural)]
pub struct RegionId(pub u64);

impl RegionId {
    pub fn new(id: u64) -> (r: Self)
        ensures
            r.0 == id,
    {
        RegionId(id)
    }

    pub fn as_u64(&self) -> (v: u64)
        ensures
            v == self.0,
    {
        self.0
    }

    /// Packs a table id and a region number.
    pub fn from_u32(table_id: u32, region_number: u32) -> (r: Self)
        ensures
            r.0 == packed_region_id(table_id, region_number),
    {
        let t = table_id as u64;
        let n = region_number as u64;
        let v = (t << 32u64) | n;
        assert(v == (t as int * 0x1_0000_0000 + n as int) as u64) by (bit_vector)
            requires
                t <= 0xFFFF_FFFF,
                n <= 0xFFFF_FFFF,
                v == (t << 32u64) | n,
        ;
        RegionId(v)
    }

    /// The table id: the upper 32 bits.
    pub fn table_id(&self) -> (t: u32)
        ensures
            t == self.0 / 0x1_0000_0000,
    {
        let x = self.0;
        let t = x >> 32u64;
        assert(t == x / 0x1_0000_0000) by (bit_vector)
            requires
                t == x >> 32u64,
        ;
        t as u32
    }

    /// The region number: the lower 32 bits.
    pub fn region_number(&self) -> (n: u32)
        ensures
            n == self.0 % 0x1_0000_0000,
    {
        let x = self.0;
        let n = x & 0xFFFF_FFFFu64;
        assert(n == x % 0x1_0000_0000) by (bit_vector)
            requires
                n == x & 0xFFFF_FFFFu64,
        ;
        n as u32
    }

    /// The display form `region-<id>`.
    pub fn to_display_string(&self) -> (s: String)
        ensures
            s@ == "region-"@ + decimal_digits(self.0 as nat),
    {
        labelled("region-", self.0)
    }
}

impl From<u64> for RegionId {
    fn from(id: u64) -> (r: Self) {
        RegionId(id)
    }
}

impl vstd::std_specs::convert::FromSpecImpl<u64> for RegionId {
    open spec fn obeys_from_spec() -> bool {
        true
    }

    open spec fn from_spec(v: u64) -> Self {
        RegionId(v)
    }
}

/// Packing a table id and a region number, then reading them back, gives
/// both again.
pub proof fn law_region_id_packing(table_id: u32, region_number: u32)
    ensures
        packed_region_id(table_id, region_number) / 0x1_0000_0000 == table_id,
        packed_region_id(table_id, region_number) % 0x1_0000_0000 == region_number,
{
    let v = packed_region_id(table_id, region_number);
    assert(v == table_id as int * 0x1_0000_0000 + region_number as int) by (nonlinear_arith)
        requires
            v == (table_id as int * 0x1_0000_0000 + region_number as int) as u64,
            table_id <= 0xFFFF_FFFF,
            region_number <= 0xFFFF_FFFF,
    ;
    assert(v / 0x1_0000_0000 == table_id && v % 0x1_0000_0000 == region_number) by (nonlinear_arith)
        requires
            v == table_id as int * 0x1_0000_0000 + region_number as int,
            region_number < 0x1_0000_0000,
    ;
}

/// Node identifier: a physical node in the cluster.
#[derive(Debug, Clone, Copy, PartialEq, Eq, Hash, PartialOrd, Ord, Structural)]
pub struct NodeId(pub u64);

impl NodeId {
    pub fn new(id: u64) -> (r: Self)
        ensures
            r.0 == id,
    {
        NodeId(id)
    }

    pub fn as_u64(&self) -> (v: u64)
        ensures
            v == self.0,
    {
        self.0
    }

    /// The display form `node-<id>`.
    pub fn to_display_string(&self) -> (s: String)
        ensures
            s@ == "node-"@ + decimal_digits(self.0 as nat),
    {
        labelled("node-", self.0)
    }
}

impl From<u64> for NodeId {
    fn from(id: u64) -> (r: Self) {
        NodeId(id)
    }
}

impl vstd::std_specs::convert::FromSpecImpl<u64> for NodeId {
    open spec fn obeys_from_spec() -> bool {
        true
    }

    open spec fn from_spec(v: u64) -> Self {
        NodeId(v)
    }
}

/// Partition identifier: a logical division of data.
#[derive(Debug, Clone, Copy, PartialEq, Eq, Hash, Structural)]
pub struct PartitionId(pub u64);

impl PartitionId {
    pub fn new(id: u64) -> (r: Self)
        ensures
            r.0 == id,
    {
        PartitionId(id)
    }

    pub fn as_u64(&self) -> (v: u64)
        ensures
            v == self.0,
    {
        self.0
    }

    /// The display form `partition-<id>`.
    pub fn to_display_string(&self) -> (s: String)
        ensures
            s@ == "partition-"@ + decimal_digits(self.0 as nat),
    {
        labelled("partition-", self.0)
    }
}

impl From<u64> for PartitionId {
    fn from(id: u64) -> (r: Self) {
        PartitionId(id)
    }
}

impl vstd::std_specs::convert::FromSpecImpl<u64> for PartitionId {
    open spec fn obeys_from_spec() -> bool {
        true
    }

    open spec fn from_spec(v: u64) -> Self {
        PartitionId(v)
    }
}

/// Table identifier.
#[derive(Debug, Clone, PartialEq, Eq, Hash, Structural)]
pub struct TableId(pub u32);

impl TableId {
    pub fn new(id: u32) -> (r: Self)
        ensures
            r.0 == id,
    {
        TableId(id)
    }

    pub fn as_u32(&self) -> (v: u32)
        ensures
            v == self.0,
    {
        self.0
    }

    /// The display form `table-<id>`.
    pub fn to_display_string(&self) -> (s: String)
        ensures
            s@ == "table-"@ + decimal_digits(self.0 as nat),
    {
        labelled("table-", self.0 as u64)
    }
}

impl From<u32> for TableId {
    fn from(id: u32) -> (r: Self) {
        TableId(id)
    }
}

impl vstd::std_specs::convert::FromSpecImpl<u32> for TableId {
    open spec fn obeys_from_spec() -> bool {
        true
    }

    open spec fn from_spec(v: u32) -> Self {
        TableId(v)
    }
}

/// Region status
#[derive(Debug, Clone, Copy, PartialEq, Eq, Structural)]
pub enum RegionStatus {
    /// Region is active and serving requests
    Active,
    /// Region is being created
    Creating,
    /// Region is being migrated
    Migrating,
    /// Region is offline
    Offline,
}

/// Node status
#[derive(Debug, Clone, Copy, PartialEq, Eq, Structural)]
pub enum NodeStatus {
    /// Node is active and serving requests
    Active,
    /// Node is starting up
    Starting,
    /// Node is shutting down
    ShuttingDown,
    /// Node is offline
    Offline,
}

} // verus!
