use influxdb3_distributed::ids::{NodeId, RegionId};
use influxdb3_distributed::region::{
    compute_partition_hash, compute_partition_hash_from_str, hash_bucket_of_digest, PartitionRange,
    RegionInfo, RegionStatus,
};

#[test]
fn test_node_id_creation() {
    let id = NodeId::new(42);
    assert_eq!(id.get(), 42);
}

#[test]
fn test_node_id_from_u64() {
    let id: NodeId = 123u64.into();
    assert_eq!(id.get(), 123);
}

#[test]
fn test_node_id_to_u64() {
    let id = NodeId::new(456);
    let val: u64 = id.into();
    assert_eq!(val, 456);
}

#[test]
fn test_node_id_bytes_roundtrip() {
    let id = NodeId::new(0x0102030405060708);
    let bytes = id.to_bytes();
    let id2 = NodeId::from_bytes(bytes);
    assert_eq!(id, id2);
}

#[test]
fn test_node_id_display() {
    let id = NodeId::new(789);
    assert_eq!(id.to_display_string(), "789");
}

#[test]
fn test_node_id_parse() {
    let id: NodeId = "999".parse().unwrap();
    assert_eq!(id.get(), 999);
}

#[test]
fn test_node_id_ordering() {
    let id1 = NodeId::new(1);
    let id2 = NodeId::new(2);
    let id3 = NodeId::new(1);

    assert!(id1 < id2);
    assert_eq!(id1, id3);
}

#[test]
fn test_region_id_creation() {
    let id = RegionId::new(42);
    assert_eq!(id.get(), 42);
}

#[test]
fn test_partition_range_hash_bucket() {
    let r0 = PartitionRange::for_hash_bucket(0, 4);
    let r1 = PartitionRange::for_hash_bucket(1, 4);
    let r2 = PartitionRange::for_hash_bucket(2, 4);
    let r3 = PartitionRange::for_hash_bucket(3, 4);

    assert_eq!(r0.hash_start, 0);
    assert_eq!(r0.hash_end, r1.hash_start);
    assert_eq!(r1.hash_end, r2.hash_start);
    assert_eq!(r2.hash_end, r3.hash_start);
    assert_eq!(r3.hash_end, u16::MAX);
}

#[test]
fn test_partition_range_contains_hash() {
    let range = PartitionRange::for_hash_bucket(1, 4);
    let bucket_size: u16 = (65536u32 / 4) as u16;

    assert!(!range.contains_hash(0));
    assert!(!range.contains_hash(bucket_size - 1));

    assert!(range.contains_hash(bucket_size));
    assert!(range.contains_hash(bucket_size * 2 - 1));

    assert!(!range.contains_hash(bucket_size * 2));
}

#[test]
fn test_partition_range_time_overlap() {
    let range = PartitionRange::full().with_time_range(Some(100), Some(200));

    assert!(range.overlaps_time_range(Some(50), Some(150)));
    assert!(range.overlaps_time_range(Some(150), Some(250)));
    assert!(range.overlaps_time_range(Some(50), Some(250)));
    assert!(range.overlaps_time_range(Some(100), Some(200)));

    assert!(!range.overlaps_time_range(Some(200), Some(300)));
    assert!(!range.overlaps_time_range(Some(0), Some(100)));

    assert!(range.overlaps_time_range(None, None));
}

#[test]
fn region_id_bytes_are_big_endian() {
    let id = RegionId::new(0x0102030405060708);
    assert_eq!(id.to_bytes(), [1, 2, 3, 4, 5, 6, 7, 8]);
    assert_eq!(RegionId::from_bytes([0, 0, 0, 0, 0, 0, 1, 0]).get(), 256);
}

#[test]
fn region_id_parse_and_display() {
    let id: RegionId = "+17".parse().unwrap();
    assert_eq!(id.get(), 17);
    assert_eq!(RegionId::new(0).to_display_string(), "0");
    assert!("abc".parse::<RegionId>().is_err());
    assert!("".parse::<RegionId>().is_err());
    assert!("18446744073709551616".parse::<NodeId>().is_err());
    assert_eq!("18446744073709551615".parse::<NodeId>().unwrap().get(), u64::MAX);
}

#[test]
fn full_range_contains_every_hash_and_time() {
    let full = PartitionRange::full();
    assert_eq!(full.hash_start, 0);
    assert_eq!(full.hash_end, u16::MAX);
    assert!(full.contains_hash(0));
    assert!(full.contains_hash(u16::MAX - 1));
    assert!(full.contains_hash(u16::MAX));
    assert!(full.contains_time(i64::MIN));
    assert!(full.contains_time(i64::MAX));
    assert_eq!(PartitionRange::default(), full);
}

#[test]
fn hash_buckets_tile_the_space() {
    let total: u16 = 3;
    let mut prev_end = 0u16;
    for b in 0..total {
        let r = PartitionRange::for_hash_bucket(b, total);
        assert_eq!(r.hash_start, prev_end);
        prev_end = r.hash_end;
    }
    assert_eq!(prev_end, u16::MAX);
    assert_eq!(PartitionRange::for_hash_bucket(0, 3).hash_end, 21845);
    let last = PartitionRange::for_hash_bucket(total - 1, total);
    assert!(last.contains_hash(u16::MAX));
    for h in [0u16, 21844, 21845, 43690, 65534, 65535] {
        let hits = (0..total).filter(|b| PartitionRange::for_hash_bucket(*b, total).contains_hash(h)).count();
        assert_eq!(hits, 1);
    }
}

#[test]
fn time_range_bounds_are_half_open() {
    let range = PartitionRange::full().with_time_range(Some(100), Some(200));
    assert!(range.contains_time(100));
    assert!(range.contains_time(199));
    assert!(!range.contains_time(200));
    assert!(!range.contains_time(99));
    assert!(range.overlaps_time_range(None, Some(101)));
    assert!(!range.overlaps_time_range(Some(200), None));
    assert!(range.overlaps_hash_range(0, 1));
}

#[test]
fn region_info_states() {
    let mut r = RegionInfo::new(
        RegionId::new(1),
        "db".to_string(),
        "cpu".to_string(),
        NodeId::new(2),
        PartitionRange::for_hash_bucket(0, 2),
    );
    assert_eq!(r.status, RegionStatus::Active);
    assert_eq!(r.epoch, 0);
    assert!(r.is_active());
    assert!(r.can_serve_query());
    assert!(r.can_accept_write());
    assert!(r.contains(10, 5));
    assert!(!r.contains(40000, 5));
    r.status = RegionStatus::ReadOnly;
    assert!(r.can_serve_query());
    assert!(!r.can_accept_write());
    r.status = RegionStatus::Offline;
    assert!(!r.can_serve_query());
    assert_eq!(RegionStatus::Migrating.to_display_string(), "Migrating");
}

#[test]
fn partition_hash_is_a_bucket_of_the_digest() {
    assert_eq!(hash_bucket_of_digest(0x1234_5678_9abc_def0), 0xdef0);
    let a = compute_partition_hash(b"server1");
    assert_eq!(a, compute_partition_hash_from_str("server1"));
    assert_eq!(a, compute_partition_hash(b"server1"));
    let digest = twox_hash::XxHash64::oneshot(0, b"server1");
    assert_eq!(a as u64, digest % 65536);
}
