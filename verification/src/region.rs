//! Region types for data partitioning and distribution.

use vstd::prelude::*;
use crate::ids::{NodeId, RegionId};
use std::hash::Hasher;
use vstd::string::StringSliceAdditionalSpecFns;

verus! {

/// Hash values lie in `[0, MAX_HASH)`.
pub const MAX_HASH: u32 = 65536;

/// The lower end of a time bound: absent means unbounded below.
pub open spec fn lower_bound(b: Option<i64>) -> int {
    match b {
        Some(v) => v as int,
        None => i64::MIN as int,
    }
}

/// The upper end of a time bound: absent means unbounded above.
pub open spec fn upper_bound(b: Option<i64>) -> int {
    match b {
        Some(v) => v as int,
        None => i64::MAX as int,
    }
}

/// The partition range for a region.
///
/// This defines the range of data that belongs to this region,
/// based on time range and/or hash partition.
#[derive(Clone, PartialEq, Eq, Debug, Structural)]
pub struct PartitionRange {
    /// Start timestamp (inclusive) in nanoseconds, None means unbounded
    pub time_start_ns: Option<i64>,
    /// End timestamp (exclusive) in nanoseconds, None means unbounded
    pub time_end_ns: Option<i64>,
    /// Hash partition start (inclusive), range 0-65535
    pub hash_start: u16,
    /// Hash partition end (exclusive)
    pub hash_end: u16,
}

/// The width of each hash bucket when the hash space is split in `total` parts.
pub open spec fn bucket_size(total: u16) -> int {
    65536int / (total as int)
}

/// The hash start of bucket `bucket` out of `total`.
pub open spec fn bucket_start(bucket: u16, total: u16) -> u16 {
    ((bucket as int * bucket_size(total)) % 65536) as u16
}

/// The hash end of bucket `bucket` out of `total`: the last bucket ends at `u16::MAX`.
pub open spec fn bucket_end(bucket: u16, total: u16) -> u16 {
    if bucket as int == total as int - 1 {
        u16::MAX
    } else {
        (((bucket as int + 1) * bucket_size(total)) % 65536) as u16
    }
}

/// The inputs on which `for_hash_bucket` computes without overflow or division by zero.
pub open spec fn hash_bucket_defined(bucket: u16, total: u16) -> bool {
    &&& total > 0
    &&& (bucket as int == total as int - 1 || (bucket as int + 1) * bucket_size(total)
        <= u32::MAX as int)
}

/// Where a hash range ends: its end, exclusive, except that an end of
/// `u16::MAX` stands for the end of the hash space, 65536.
pub open spec fn hash_end_bound(end: u16) -> int {
    if end == u16::MAX {
        65536
    } else {
        end as int
    }
}

/// The range covering every timestamp and the whole hash space.
pub open spec fn spec_full_range() -> PartitionRange {
    PartitionRange { time_start_ns: None, time_end_ns: None, hash_start: 0, hash_end: u16::MAX }
}

impl PartitionRange {
    /// Create a new PartitionRange covering the full hash range.
    pub fn full() -> (r: Self)
        ensures
            r == spec_full_range(),
    {
        PartitionRange { time_start_ns: None, time_end_ns: None, hash_start: 0, hash_end: u16::MAX }
    }

    /// Create a partition range for a specific hash bucket.
    ///
    /// `bucket` is 0-based; the hash space `[0, 65536)` is split in
    /// `total_buckets` equal parts, the last one ending at `u16::MAX`.
    pub fn for_hash_bucket(bucket: u16, total_buckets: u16) -> (r: Self)
        requires
            hash_bucket_defined(bucket, total_buckets),
        ensures
            r.time_start_ns is None,
            r.time_end_ns is None,
            r.hash_start == bucket_start(bucket, total_buckets),
            r.hash_end == bucket_end(bucket, total_buckets),
    {
        let bucket_size: u32 = MAX_HASH / (total_buckets as u32);
        assert(bucket as int * bucket_size <= u32::MAX) by (nonlinear_arith)
            requires
                bucket_size <= 65536,
                bucket < 65536,
        ;
        let start_wide: u32 = bucket as u32 * bucket_size;
        let start: u16 = (start_wide % 65536) as u16;
        let end: u16 = if bucket == total_buckets - 1 {
            u16::MAX
        } else {
            let end_wide: u32 = (bucket as u32 + 1) * bucket_size;
            (end_wide % 65536) as u16
        };
        PartitionRange { time_start_ns: None, time_end_ns: None, hash_start: start, hash_end: end }
    }

    /// A field-by-field copy.
    pub fn copy(&self) -> (r: Self)
        ensures
            r == *self,
    {
        PartitionRange {
            time_start_ns: self.time_start_ns,
            time_end_ns: self.time_end_ns,
            hash_start: self.hash_start,
            hash_end: self.hash_end,
        }
    }

    /// Create a partition range with time bounds.
    pub fn with_time_range(self, start_ns: Option<i64>, end_ns: Option<i64>) -> (r: Self)
        ensures
            r.time_start_ns == start_ns,
            r.time_end_ns == end_ns,
            r.hash_start == self.hash_start,
            r.hash_end == self.hash_end,
    {
        let mut s = self;
        s.time_start_ns = start_ns;
        s.time_end_ns = end_ns;
        s
    }

    /// Whether a hash value falls within this partition (an end of
    /// `u16::MAX` reaching to the end of the hash space).
    pub open spec fn spec_contains_hash(&self, hash: u16) -> bool {
        self.hash_start <= hash && hash < hash_end_bound(self.hash_end)
    }

    /// Whether a timestamp falls within this partition's time range.
    pub open spec fn spec_contains_time(&self, t: i64) -> bool {
        (match self.time_start_ns {
            Some(s) => t >= s,
            None => true,
        }) && (match self.time_end_ns {
            Some(e) => t < e,
            None => true,
        })
    }

    /// Whether the time range `[start, end)` (absent ends unbounded) meets this partition.
    pub open spec fn spec_overlaps_time_range(&self, start: Option<i64>, end: Option<i64>) -> bool {
        lower_bound(start) < upper_bound(self.time_end_ns) && upper_bound(end) > lower_bound(
            self.time_start_ns,
        )
    }

    /// Whether the hash range `[start, end)` meets this partition's hash range.
    pub open spec fn spec_overlaps_hash_range(&self, start: u16, end: u16) -> bool {
        self.hash_start < hash_end_bound(end) && hash_end_bound(self.hash_end) > start
    }

    /// Check if a hash value falls within this partition.
    pub fn contains_hash(&self, hash: u16) -> (b: bool)
        ensures
            b == self.spec_contains_hash(hash),
    {
        hash >= self.hash_start && (self.hash_end == u16::MAX || hash < self.hash_end)
    }

    /// Check if a timestamp falls within this partition's time range.
    pub fn contains_time(&self, timestamp_ns: i64) -> (b: bool)
        ensures
            b == self.spec_contains_time(timestamp_ns),
    {
        let after_start = match self.time_start_ns {
            Some(s) => timestamp_ns >= s,
            None => true,
        };
        let before_end = match self.time_end_ns {
            Some(e) => timestamp_ns < e,
            None => true,
        };
        after_start && before_end
    }

    /// Check if this partition overlaps with a time range.
    pub fn overlaps_time_range(&self, start_ns: Option<i64>, end_ns: Option<i64>) -> (b: bool)
        ensures
            b == self.spec_overlaps_time_range(start_ns, end_ns),
    {
        let query_start = match start_ns {
            Some(v) => v,
            None => i64::MIN,
        };
        let query_end = match end_ns {
            Some(v) => v,
            None => i64::MAX,
        };
        let partition_start = match self.time_start_ns {
            Some(v) => v,
            None => i64::MIN,
        };
        let partition_end = match self.time_end_ns {
            Some(v) => v,
            None => i64::MAX,
        };
        query_start < partition_end && query_end > partition_start
    }

    /// Check if this partition overlaps with a hash range.
    pub fn overlaps_hash_range(&self, hash_start: u16, hash_end: u16) -> (b: bool)
        ensures
            b == self.spec_overlaps_hash_range(hash_start, hash_end),
    {
        (hash_end == u16::MAX || self.hash_start < hash_end) && (self.hash_end == u16::MAX || self.hash_end
            > hash_start)
    }
}

impl Default for PartitionRange {
    fn default() -> (r: Self)
        ensures
            r == spec_full_range(),
    {
        PartitionRange::full()
    }
}

/// Status of a region.
#[derive(Clone, Copy, PartialEq, Eq, Debug, Hash, Structural)]
pub enum RegionStatus {
    /// Region is active and can serve reads and writes
    Active,
    /// Region is read-only, typically during migration
    ReadOnly,
    /// Region is being migrated to another node
    Migrating,
    /// Region is offline
    Offline,
    /// Region is being created
    Creating,
    /// Region is being deleted
    Deleting,
}

/// The display name of a region status.
pub open spec fn region_status_name(s: RegionStatus) -> Seq<char> {
    match s {
        RegionStatus::Active => "Active"@,
        RegionStatus::ReadOnly => "ReadOnly"@,
        RegionStatus::Migrating => "Migrating"@,
        RegionStatus::Offline => "Offline"@,
        RegionStatus::Creating => "Creating"@,
        RegionStatus::Deleting => "Deleting"@,
    }
}

impl RegionStatus {
    /// The display form of the status.
    pub fn to_display_string(&self) -> (s: String)
        ensures
            s@ == region_status_name(*self),
    {
        match self {
            RegionStatus::Active => String::from_str("Active"),
            RegionStatus::ReadOnly => String::from_str("ReadOnly"),
            RegionStatus::Migrating => String::from_str("Migrating"),
            RegionStatus::Offline => String::from_str("Offline"),
            RegionStatus::Creating => String::from_str("Creating"),
            RegionStatus::Deleting => String::from_str("Deleting"),
        }
    }
}

/// A region in these states can serve queries.
pub open spec fn status_serves_query(s: RegionStatus) -> bool {
    s == RegionStatus::Active || s == RegionStatus::ReadOnly || s == RegionStatus::Migrating
}

/// Complete information about a region.
#[derive(Clone, PartialEq, Eq, Debug)]
pub struct RegionInfo {
    /// Unique identifier for this region
    pub region_id: RegionId,
    /// The database this region belongs to
    pub database: String,
    /// The table this region belongs to
    pub table: String,
    /// The node currently hosting this region
    pub node_id: NodeId,
    /// The partition range for this region
    pub partition_range: PartitionRange,
    /// Current status of this region
    pub status: RegionStatus,
    /// Epoch number, incremented on each region reassignment
    pub epoch: u64,
}

impl RegionInfo {
    /// Create a new RegionInfo
    pub fn new(
        region_id: RegionId,
        database: String,
        table: String,
        node_id: NodeId,
        partition_range: PartitionRange,
    ) -> (r: Self)
        ensures
            r.region_id == region_id,
            r.database@ == database@,
            r.table@ == table@,
            r.node_id == node_id,
            r.partition_range == partition_range,
            r.status == RegionStatus::Active,
            r.epoch == 0,
    {
        RegionInfo {
            region_id,
            database,
            table,
            node_id,
            partition_range,
            status: RegionStatus::Active,
            epoch: 0,
        }
    }

    /// A field-by-field copy.
    pub fn copy(&self) -> (r: Self)
        ensures
            r == *self,
    {
        RegionInfo {
            region_id: self.region_id,
            database: self.database.clone(),
            table: self.table.clone(),
            node_id: self.node_id,
            partition_range: self.partition_range.copy(),
            status: self.status,
            epoch: self.epoch,
        }
    }

    /// Check if this region is active
    pub fn is_active(&self) -> (b: bool)
        ensures
            b == (self.status == RegionStatus::Active),
    {
        match self.status {
            RegionStatus::Active => true,
            _ => false,
        }
    }

    /// Check if this region can serve queries
    pub fn can_serve_query(&self) -> (b: bool)
        ensures
            b == status_serves_query(self.status),
    {
        match self.status {
            RegionStatus::Active | RegionStatus::ReadOnly | RegionStatus::Migrating => true,
            _ => false,
        }
    }

    /// Check if this region can accept writes
    pub fn can_accept_write(&self) -> (b: bool)
        ensures
            b == (self.status == RegionStatus::Active),
    {
        match self.status {
            RegionStatus::Active => true,
            _ => false,
        }
    }

    /// Check if a data point with the given hash and timestamp belongs to this region
    pub fn contains(&self, hash: u16, timestamp_ns: i64) -> (b: bool)
        ensures
            b == (self.partition_range.spec_contains_hash(hash)
                && self.partition_range.spec_contains_time(timestamp_ns)),
    {
        self.partition_range.contains_hash(hash) && self.partition_range.contains_time(timestamp_ns)
    }
}

/// The xxHash64 digest (seed 0) of a byte sequence.
pub uninterp spec fn spec_xxhash64(data: Seq<u8>) -> u64;

/// Computes the xxHash64 digest of bytes with seed 0.
///
/// Calls `twox_hash::XxHash64::with_seed(0)`, `Hasher::write` and
/// `Hasher::finish`. The digest is a fixed function of the bytes, named
/// `spec_xxhash64`; nothing else is claimed of it.
#[verifier::external_body]
fn xxhash64(data: &[u8]) -> (h: u64)
    ensures
        h == spec_xxhash64(data@),
{
    let mut hasher = twox_hash::XxHash64::with_seed(0);
    hasher.write(data);
    hasher.finish()
}

/// The hash bucket a digest falls in: the digest modulo 65536.
pub fn hash_bucket_of_digest(digest: u64) -> (b: u16)
    ensures
        b as int == digest as int % 65536,
{
    (digest % 65536) as u16
}

/// Compute the hash bucket for a given partition key.
///
/// Uses the xxhash algorithm for consistent hashing.
pub fn compute_partition_hash(partition_key: &[u8]) -> (b: u16)
    ensures
        b as int == spec_xxhash64(partition_key@) as int % 65536,
{
    hash_bucket_of_digest(xxhash64(partition_key))
}

/// Compute the hash bucket from a string partition key.
pub fn compute_partition_hash_from_str(partition_key: &str) -> (b: u16)
    ensures
        b as int == spec_xxhash64(partition_key.spec_bytes()) as int % 65536,
{
    compute_partition_hash(partition_key.as_bytes())
}

/// Splitting the hash space in `total` buckets partitions it: every hash
/// lies in exactly one bucket.
pub proof fn law_hash_buckets_partition(total: u16, h: u16)
    requires
        total > 0,
    ensures
        exists|b: u16| b < total && bucket_start(b, total) <= h && h < hash_end_bound(bucket_end(b, total)),
        forall|b1: u16, b2: u16|
            b1 < total && b2 < total && bucket_start(b1, total) <= h && h < hash_end_bound(bucket_end(b1, total))
                && bucket_start(b2, total) <= h && h < hash_end_bound(bucket_end(b2, total)) ==> b1 == b2,
{
    let bs = bucket_size(total);
    assert(1 <= bs <= 65536) by (nonlinear_arith)
        requires
            bs == 65536int / (total as int),
            total >= 1,
            total <= 65535,
    ;
    assert(total * bs <= 65536) by (nonlinear_arith)
        requires
            bs == 65536int / (total as int),
            total >= 1,
    ;
    // Every bucket other than the last covers [b * bs, (b + 1) * bs); the
    // last reaches to the end of the hash space.
    assert forall|b: u16| b < total implies bucket_start(b, total) as int == b * bs && (b as int
        == total - 1 || hash_end_bound(bucket_end(b, total)) == (b + 1) * bs) && (b as int == total - 1
        ==> hash_end_bound(bucket_end(b, total)) == 65536) by {
        assert(b * bs <= (total - 1) * bs) by (nonlinear_arith)
            requires
                b <= total - 1,
                bs >= 0,
        ;
        assert((total - 1) * bs == total * bs - bs) by (nonlinear_arith);
        if b as int != total - 1 {
            assert((b + 1) * bs <= (total - 1) * bs) by (nonlinear_arith)
                requires
                    b + 1 <= total - 1,
                    bs >= 0,
            ;
            assert((b + 1) * bs < 65535) by (nonlinear_arith)
                requires
                    (b + 1) * bs <= (total - 1) * bs,
                    total * bs <= 65536,
                    total <= 65535,
                    bs >= 1,
            ;
        }
    }
    // The bucket index of h.
    let q = h as int / bs;
    let bq: int = if q < total - 1 { q } else { total - 1 };
    assert(q * bs <= h < (q + 1) * bs) by (nonlinear_arith)
        requires
            q == h as int / bs,
            bs >= 1,
            h >= 0,
    ;
    assert(bq * bs <= h) by (nonlinear_arith)
        requires
            bq <= q,
            q * bs <= h,
            bs >= 0,
            bq >= 0,
    ;
    let wb = bq as u16;
    assert(wb as int == bq);
    assert(bucket_start(wb, total) as int == wb * bs);
    if bq < total - 1 {
        assert(hash_end_bound(bucket_end(wb, total)) == (wb + 1) * bs);
    } else {
        assert(hash_end_bound(bucket_end(wb, total)) == 65536);
    }
    assert(bucket_start(wb, total) <= h && h < hash_end_bound(bucket_end(wb, total)));
    // Uniqueness: buckets are ordered and adjacent.
    assert forall|b1: u16, b2: u16|
        b1 < total && b2 < total && bucket_start(b1, total) <= h && h < hash_end_bound(bucket_end(b1, total))
            && bucket_start(b2, total) <= h && h < hash_end_bound(bucket_end(b2, total)) implies b1 == b2 by {
        if b1 < b2 {
            assert((b1 + 1) * bs <= b2 * bs) by (nonlinear_arith)
                requires
                    b1 + 1 <= b2,
                    bs >= 0,
            ;
        } else if b2 < b1 {
            assert((b2 + 1) * bs <= b1 * bs) by (nonlinear_arith)
                requires
                    b2 + 1 <= b1,
                    bs >= 0,
            ;
        }
    }
}

/// Adjacent buckets meet: each bucket ends where the next begins, and the
/// first begins at zero.
pub proof fn law_hash_buckets_adjacent(total: u16, b: u16)
    requires
        total > 0,
        b + 1 < total,
    ensures
        bucket_start(0, total) == 0,
        bucket_end(b, total) == bucket_start((b + 1) as u16, total),
{
    let bs = bucket_size(total);
    assert(total * bs <= 65536 && bs >= 1) by (nonlinear_arith)
        requires
            bs == 65536int / (total as int),
            total >= 1,
            total <= 65535,
    ;
    assert((b + 1) * bs < 65536) by (nonlinear_arith)
        requires
            b + 1 < total,
            total * bs <= 65536,
            bs >= 1,
    ;
}

/// The full range holds every hash and every timestamp.
pub proof fn law_full_range_contains(h: u16, t: i64)
    ensures
        spec_full_range().spec_contains_hash(h),
        spec_full_range().spec_contains_time(t),
{
}

} // verus!
