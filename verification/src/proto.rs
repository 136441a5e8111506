//! Messages exchanged between the nodes of the cluster.
//!
//! Node load metrics carry floating-point gauges; they travel only between
//! the programs and are not part of these messages.

use vstd::prelude::*;
use bytes::Bytes;
use crate::ids::{NodeId, RegionId};
use crate::node::{NodeInfo, NodeStatus};
use crate::region::{RegionInfo, RegionStatus};

verus! {

/// Declares `bytes::Bytes` so that messages can carry encoded payloads.
#[verifier::external_type_specification]
#[verifier::external_body]
pub struct ExBytes(Bytes);

/// Cloning a payload; nothing is claimed of the copy.
pub assume_specification[<Bytes as Clone>::clone](b: &Bytes) -> Bytes;

/// Request for the regions of a table.
#[derive(Debug, Clone)]
pub struct GetTableRegionsRequest {
    pub database: String,
    pub table: String,
}

/// The regions of a table.
#[derive(Debug, Clone)]
pub struct GetTableRegionsResponse {
    pub regions: Vec<RegionInfo>,
}

/// Request to register a datanode.
#[derive(Debug, Clone)]
pub struct RegisterDatanodeRequest {
    pub node_info: NodeInfo,
}

/// Answer to a datanode registration.
#[derive(Debug, Clone)]
pub struct RegisterDatanodeResponse {
    pub success: bool,
    pub node_id: NodeId,
    pub assigned_regions: Vec<RegionInfo>,
    pub error_message: Option<String>,
}

/// Heartbeat sent by a datanode.
#[derive(Debug, Clone)]
pub struct HeartbeatRequest {
    pub node_id: NodeId,
    pub status: NodeStatus,
    pub regions: Vec<RegionId>,
}

/// Answer to a heartbeat.
#[derive(Debug, Clone)]
pub struct HeartbeatResponse {
    pub success: bool,
    pub regions_to_add: Vec<RegionInfo>,
    pub regions_to_remove: Vec<RegionId>,
    pub message: Option<String>,
}

/// Request for cluster information.
#[derive(Debug, Clone)]
pub struct GetClusterInfoRequest {
    pub include_nodes: bool,
    pub include_regions: bool,
}

/// Cluster information.
#[derive(Debug, Clone)]
pub struct GetClusterInfoResponse {
    pub cluster_name: String,
    pub nodes: Vec<NodeInfo>,
    pub total_regions: u64,
    pub health: ClusterHealth,
}

/// Overall health of the cluster.
#[derive(Debug, Clone, Copy, PartialEq, Eq, Structural)]
pub enum ClusterHealth {
    Healthy,
    Degraded,
    Critical,
    Unknown,
}

/// Request to execute an encoded plan on a region.
#[derive(Debug, Clone)]
pub struct ExecutePlanRequest {
    pub plan_bytes: Bytes,
    pub database: String,
    pub region_id: RegionId,
    pub query_id: String,
}

/// Request to write line protocol to a region.
#[derive(Debug, Clone)]
pub struct WriteRequest {
    pub database: String,
    pub region_id: RegionId,
    pub data: Bytes,
    pub precision: WritePrecision,
}

/// Timestamp precision of written data.
#[derive(Debug, Clone, Copy, PartialEq, Eq, Structural)]
pub enum WritePrecision {
    Nanoseconds,
    Microseconds,
    Milliseconds,
    Seconds,
}

/// Answer to a write.
#[derive(Debug, Clone)]
pub struct WriteResponse {
    pub success: bool,
    pub points_written: u64,
    pub error_message: Option<String>,
}

/// Request for the status of a region.
#[derive(Debug, Clone)]
pub struct GetRegionStatusRequest {
    pub region_id: RegionId,
}

/// The status of a region.
#[derive(Debug, Clone)]
pub struct GetRegionStatusResponse {
    pub region_id: RegionId,
    pub status: RegionStatus,
    pub row_count: u64,
    pub size_bytes: u64,
    pub last_write_time: Option<i64>,
}

/// Request to create a table.
#[derive(Debug, Clone)]
pub struct CreateTableRequest {
    pub database: String,
    pub table: String,
    pub num_regions: u32,
    pub partition_keys: Vec<String>,
}

/// Answer to a table creation.
#[derive(Debug, Clone)]
pub struct CreateTableResponse {
    pub success: bool,
    pub regions: Vec<RegionInfo>,
    pub error_message: Option<String>,
}

/// An Arrow record batch in IPC encoding.
#[derive(Debug, Clone)]
pub struct ArrowBatch {
    pub data: Bytes,
    pub num_rows: u64,
}

impl ArrowBatch {
    /// Wraps encoded data and its row count.
    pub fn new(data: Bytes, num_rows: u64) -> (b: Self)
        ensures
            b.data == data,
            b.num_rows == num_rows,
    {
        ArrowBatch { data, num_rows }
    }

    /// Whether the batch has no rows.
    pub fn is_empty(&self) -> (b: bool)
        ensures
            b == (self.num_rows == 0),
    {
        self.num_rows == 0
    }
}

} // verus!
