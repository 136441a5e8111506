//! Identifiers of nodes and regions in the cluster.

use vstd::prelude::*;
use crate::decimal::{decimal_digits, parse_u64, spec_parse_u64, u64_to_decimal};

verus! {

/// The big-endian bytes of a 64-bit value, most significant first.
pub open spec fn spec_be_bytes(v: u64) -> Seq<u8> {
    seq![
        (v >> 56u64) as u8,
        (v >> 48u64) as u8,
        (v >> 40u64) as u8,
        (v >> 32u64) as u8,
        (v >> 24u64) as u8,
        (v >> 16u64) as u8,
        (v >> 8u64) as u8,
        v as u8,
    ]
}

/// The 64-bit value whose big-endian bytes are `b`.
pub open spec fn spec_from_be_bytes(b: Seq<u8>) -> u64 {
    ((b[0] as u64) << 56u64) | ((b[1] as u64) << 48u64) | ((b[2] as u64) << 40u64) | ((
    b[3] as u64) << 32u64) | ((b[4] as u64) << 24u64) | ((b[5] as u64) << 16u64) | ((
    b[6] as u64) << 8u64) | (b[7] as u64)
}

/// Encodes a value as eight big-endian bytes.
pub fn u64_to_be_bytes(v: u64) -> (b: [u8; 8])
    ensures
        b@ == spec_be_bytes(v),
{
    let b = [
        (v >> 56u64) as u8,
        (v >> 48u64) as u8,
        (v >> 40u64) as u8,
        (v >> 32u64) as u8,
        (v >> 24u64) as u8,
        (v >> 16u64) as u8,
        (v >> 8u64) as u8,
        v as u8,
    ];
    assert(b@ =~= spec_be_bytes(v));
    b
}

/// Decodes eight big-endian bytes.
pub fn u64_from_be_bytes(b: [u8; 8]) -> (v: u64)
    ensures
        v == spec_from_be_bytes(b@),
{
    ((b[0] as u64) << 56u64) | ((b[1] as u64) << 48u64) | ((b[2] as u64) << 40u64) | ((
    b[3] as u64) << 32u64) | ((b[4] as u64) << 24u64) | ((b[5] as u64) << 16u64) | ((
    b[6] as u64) << 8u64) | (b[7] as u64)
}

/// Decoding the big-endian bytes of a value gives the value back.
pub proof fn lemma_be_bytes_roundtrip(v: u64)
    ensures
        spec_from_be_bytes(spec_be_bytes(v)) == v,
{
    let b0 = (v >> 56u64) as u8;
    let b1 = (v >> 48u64) as u8;
    let b2 = (v >> 40u64) as u8;
    let b3 = (v >> 32u64) as u8;
    let b4 = (v >> 24u64) as u8;
    let b5 = (v >> 16u64) as u8;
    let b6 = (v >> 8u64) as u8;
    let b7 = v as u8;
    assert(((b0 as u64) << 56u64) | ((b1 as u64) << 48u64) | ((b2 as u64) << 40u64) | ((
    b3 as u64) << 32u64) | ((b4 as u64) << 24u64) | ((b5 as u64) << 16u64) | ((
    b6 as u64) << 8u64) | (b7 as u64) == v) by (bit_vector)
        requires
            b0 == (v >> 56u64) as u8,
            b1 == (v >> 48u64) as u8,
            b2 == (v >> 40u64) as u8,
            b3 == (v >> 32u64) as u8,
            b4 == (v >> 24u64) as u8,
            b5 == (v >> 16u64) as u8,
            b6 == (v >> 8u64) as u8,
            b7 == v as u8,
    ;
}

/// Unique identifier for a node in the cluster.
///
/// Each node (Frontend, Datanode, or MetaServer) has a unique NodeId
/// that is used for identification and routing.
#[derive(Clone, Copy, PartialEq, Eq, PartialOrd, Ord, Hash, Debug, Structural)]
pub struct NodeId(pub u64);

impl NodeId {
    /// Create a new NodeId from a u64 value.
    pub fn new(id: u64) -> (r: Self)
        ensures
            r.0 == id,
    {
        NodeId(id)
    }

    /// Get the underlying u64 value.
    pub fn get(&self) -> (r: u64)
        ensures
            r == self.0,
    {
        self.0
    }

    /// Create a NodeId from bytes (big-endian).
    pub fn from_bytes(bytes: [u8; 8]) -> (r: Self)
        ensures
            r.0 == spec_from_be_bytes(bytes@),
    {
        NodeId(u64_from_be_bytes(bytes))
    }

    /// Convert to bytes (big-endian).
    pub fn to_bytes(&self) -> (b: [u8; 8])
        ensures
            b@ == spec_be_bytes(self.0),
    {
        u64_to_be_bytes(self.0)
    }

    /// The display form: the decimal value.
    pub fn to_display_string(&self) -> (s: String)
        ensures
            s@ == decimal_digits(self.0 as nat),
    {
        u64_to_decimal(self.0)
    }

    /// Parses the decimal form (what `FromStr` accepts).
    pub fn parse(s: &str) -> (r: Result<NodeId, std::num::ParseIntError>)
        ensures
            r is Ok <==> spec_parse_u64(s@) is Some,
            r matches Ok(id) ==> spec_parse_u64(s@) == Some(id.0),
    {
        match parse_u64(s) {
            Ok(v) => Ok(NodeId(v)),
            Err(e) => Err(e),
        }
    }
}

impl From<u64> for NodeId {
    fn from(id: u64) -> Self {
        NodeId(id)
    }
}

impl vstd::std_specs::convert::FromSpecImpl<u64> for NodeId {
    open spec fn obeys_from_spec() -> bool {
        true
    }

    open spec fn from_spec(v: u64) -> Self {
        NodeId(v)
    }
}

impl vstd::std_specs::convert::FromSpecImpl<NodeId> for u64 {
    open spec fn obeys_from_spec() -> bool {
        true
    }

    open spec fn from_spec(v: NodeId) -> u64 {
        v.0
    }
}

impl From<NodeId> for u64 {
    fn from(id: NodeId) -> u64 {
        id.0
    }
}

impl std::str::FromStr for NodeId {
    type Err = std::num::ParseIntError;

    fn from_str(s: &str) -> (r: Result<NodeId, std::num::ParseIntError>)
        ensures
            r is Ok <==> spec_parse_u64(s@) is Some,
            r matches Ok(id) ==> spec_parse_u64(s@) == Some(id.0),
    {
        NodeId::parse(s)
    }
}

/// Unique identifier for a region (data partition).
///
/// A region is a unit of data distribution. Each table can be split into
/// multiple regions, and each region is assigned to a Datanode.
#[derive(Clone, Copy, PartialEq, Eq, PartialOrd, Ord, Hash, Debug, Structural)]
pub struct RegionId(pub u64);

impl RegionId {
    /// Create a new RegionId from a u64 value.
    pub fn new(id: u64) -> (r: Self)
        ensures
            r.0 == id,
    {
        RegionId(id)
    }

    /// Get the underlying u64 value.
    pub fn get(&self) -> (r: u64)
        ensures
            r == self.0,
    {
        self.0
    }

    /// Create a RegionId from bytes (big-endian).
    pub fn from_bytes(bytes: [u8; 8]) -> (r: Self)
        ensures
            r.0 == spec_from_be_bytes(bytes@),
    {
        RegionId(u64_from_be_bytes(bytes))
    }

    /// Convert to bytes (big-endian).
    pub fn to_bytes(&self) -> (b: [u8; 8])
        ensures
            b@ == spec_be_bytes(self.0),
    {
        u64_to_be_bytes(self.0)
    }

    /// The display form: the decimal value.
    pub fn to_display_string(&self) -> (s: String)
        ensures
            s@ == decimal_digits(self.0 as nat),
    {
        u64_to_decimal(self.0)
    }

    /// Parses the decimal form (what `FromStr` accepts).
    pub fn parse(s: &str) -> (r: Result<RegionId, std::num::ParseIntError>)
        ensures
            r is Ok <==> spec_parse_u64(s@) is Some,
            r matches Ok(id) ==> spec_parse_u64(s@) == Some(id.0),
    {
        match parse_u64(s) {
            Ok(v) => Ok(RegionId(v)),
            Err(e) => Err(e),
        }
    }
}

impl From<u64> for RegionId {
    fn from(id: u64) -> Self {
        RegionId(id)
    }
}

impl vstd::std_specs::convert::FromSpecImpl<u64> for RegionId {
    open spec fn obeys_from_spec() -> bool {
        true
    }

    open spec fn from_spec(v: u64) -> Self {
        RegionId(v)
    }
}

impl vstd::std_specs::convert::FromSpecImpl<RegionId> for u64 {
    open spec fn obeys_from_spec() -> bool {
        true
    }

    open spec fn from_spec(v: RegionId) -> u64 {
        v.0
    }
}

impl From<RegionId> for u64 {
    fn from(id: RegionId) -> u64 {
        id.0
    }
}

impl std::str::FromStr for RegionId {
    type Err = std::num::ParseIntError;

    fn from_str(s: &str) -> (r: Result<RegionId, std::num::ParseIntError>)
        ensures
            r is Ok <==> spec_parse_u64(s@) is Some,
            r matches Ok(id) ==> spec_parse_u64(s@) == Some(id.0),
    {
        RegionId::parse(s)
    }
}

/// A node id survives the trip through its byte encoding.
pub proof fn law_node_id_bytes_roundtrip(id: NodeId)
    ensures
        spec_from_be_bytes(spec_be_bytes(id.0)) == id.0,
{
    lemma_be_bytes_roundtrip(id.0);
}

/// A region id survives the trip through its byte encoding.
pub proof fn law_region_id_bytes_roundtrip(id: RegionId)
    ensures
        spec_from_be_bytes(spec_be_bytes(id.0)) == id.0,
{
    lemma_be_bytes_roundtrip(id.0);
}

} // verus!
