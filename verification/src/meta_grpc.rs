//! The wire messages of the metadata service and their conversions.
//!
//! Roles, statuses and health travel as numbers; these functions fix the
//! numbering. Addresses travel as text and are checked by the program that
//! parses them.

use vstd::prelude::*;
use crate::ids::{NodeId, RegionId};
use crate::node::{NodeInfo, NodeRole, NodeStatus};
use crate::proto::{ClusterHealth, CreateTableResponse, GetClusterInfoResponse, HeartbeatResponse, RegisterDatanodeResponse};
use crate::region::{PartitionRange, RegionInfo, RegionStatus};

verus! {

#[derive(Debug, Clone)]
pub struct RegisterNodeRequest {
    pub node_info: NodeInfoProto,
}

#[derive(Debug, Clone)]
pub struct RegisterNodeResponse {
    pub success: bool,
    pub assigned_node_id: u64,
    pub assigned_regions: Vec<RegionInfoProto>,
    pub error_message: Option<String>,
}

/// A heartbeat on the wire; load metrics stay with the program.
#[derive(Debug, Clone)]
pub struct HeartbeatRequestProto {
    pub node_id: u64,
    pub status: i32,
    pub regions: Vec<u64>,
}

#[derive(Debug, Clone)]
pub struct HeartbeatResponseProto {
    pub success: bool,
    pub regions_to_add: Vec<RegionInfoProto>,
    pub regions_to_remove: Vec<u64>,
    pub message: Option<String>,
}

#[derive(Debug, Clone)]
pub struct GetTableRegionsRequest {
    pub database: String,
    pub table: String,
}

#[derive(Debug, Clone)]
pub struct GetTableRegionsResponse {
    pub regions: Vec<RegionInfoProto>,
}

#[derive(Debug, Clone)]
pub struct CreateTableRequestProto {
    pub database: String,
    pub table: String,
    pub num_regions: u32,
    pub partition_keys: Vec<String>,
}

#[derive(Debug, Clone)]
pub struct CreateTableResponseProto {
    pub success: bool,
    pub created_regions: Vec<RegionInfoProto>,
    pub error_message: Option<String>,
}

#[derive(Debug, Clone)]
pub struct GetClusterInfoRequest {
    pub include_nodes: bool,
    pub include_regions: bool,
}

#[derive(Debug, Clone)]
pub struct GetClusterInfoResponseProto {
    pub cluster_name: String,
    pub nodes: Vec<NodeInfoProto>,
    pub total_regions: u64,
    pub health: i32,
}

#[derive(Debug, Clone)]
pub struct GetNodeRequest {
    pub node_id: u64,
}

#[derive(Debug, Clone)]
pub struct GetNodeResponse {
    pub node_info: Option<NodeInfoProto>,
}

#[derive(Debug, Clone)]
pub struct GetAllNodesRequest {
    pub filter_role: Option<i32>,
    pub filter_status: Option<i32>,
}

#[derive(Debug, Clone)]
pub struct GetAllNodesResponse {
    pub nodes: Vec<NodeInfoProto>,
}

#[derive(Debug, Clone)]
pub struct NodeInfoProto {
    pub node_id: u64,
    pub grpc_addr: String,
    pub http_addr: Option<String>,
    pub node_role: i32,
    pub status: i32,
    pub regions: Vec<u64>,
    pub last_heartbeat_ms: i64,
}

#[derive(Debug, Clone)]
pub struct RegionInfoProto {
    pub region_id: u64,
    pub database: String,
    pub table: String,
    pub node_id: u64,
    pub partition_range: Option<PartitionRangeProto>,
    pub status: i32,
    pub epoch: u64,
}

#[derive(Debug, Clone, Copy, PartialEq, Eq, Structural)]
pub struct PartitionRangeProto {
    pub time_start_ns: Option<i64>,
    pub time_end_ns: Option<i64>,
    pub hash_start: u32,
    pub hash_end: u32,
}

/// The number of a node role on the wire.
pub open spec fn role_code(r: NodeRole) -> i32 {
    match r {
        NodeRole::Frontend => 1,
        NodeRole::Datanode => 2,
        NodeRole::MetaServer => 3,
    }
}

/// The role a number stands for; unknown numbers stand for a datanode.
pub open spec fn role_of_code(c: i32) -> NodeRole {
    if c == 1 {
        NodeRole::Frontend
    } else if c == 3 {
        NodeRole::MetaServer
    } else {
        NodeRole::Datanode
    }
}

/// The number of a node status on the wire.
pub open spec fn node_status_code(s: NodeStatus) -> i32 {
    match s {
        NodeStatus::Starting => 1,
        NodeStatus::Online => 2,
        NodeStatus::Offline => 3,
        NodeStatus::Maintenance => 4,
        NodeStatus::Draining => 5,
    }
}

/// The node status a number stands for; unknown numbers stand for offline.
pub open spec fn node_status_of_code(c: i32) -> NodeStatus {
    if c == 1 {
        NodeStatus::Starting
    } else if c == 2 {
        NodeStatus::Online
    } else if c == 4 {
        NodeStatus::Maintenance
    } else if c == 5 {
        NodeStatus::Draining
    } else {
        NodeStatus::Offline
    }
}

/// The number of a region status on the wire.
pub open spec fn region_status_code(s: RegionStatus) -> i32 {
    match s {
        RegionStatus::Active => 1,
        RegionStatus::ReadOnly => 2,
        RegionStatus::Migrating => 3,
        RegionStatus::Offline => 4,
        RegionStatus::Creating => 5,
        RegionStatus::Deleting => 6,
    }
}

/// The number of a cluster health on the wire.
pub open spec fn health_code(h: ClusterHealth) -> i32 {
    match h {
        ClusterHealth::Healthy => 1,
        ClusterHealth::Degraded => 2,
        ClusterHealth::Critical => 3,
        ClusterHealth::Unknown => 0,
    }
}

/// The role a number stands for.
pub fn convert_node_role(role: i32) -> (r: NodeRole)
    ensures
        r == role_of_code(role),
{
    if role == 1 {
        NodeRole::Frontend
    } else if role == 2 {
        NodeRole::Datanode
    } else if role == 3 {
        NodeRole::MetaServer
    } else {
        NodeRole::Datanode
    }
}

/// The node status a number stands for.
pub fn convert_node_status(status: i32) -> (s: NodeStatus)
    ensures
        s == node_status_of_code(status),
{
    if status == 1 {
        NodeStatus::Starting
    } else if status == 2 {
        NodeStatus::Online
    } else if status == 3 {
        NodeStatus::Offline
    } else if status == 4 {
        NodeStatus::Maintenance
    } else if status == 5 {
        NodeStatus::Draining
    } else {
        NodeStatus::Offline
    }
}

/// The number of a node role.
pub fn node_role_to_code(r: NodeRole) -> (c: i32)
    ensures
        c == role_code(r),
{
    match r {
        NodeRole::Frontend => 1,
        NodeRole::Datanode => 2,
        NodeRole::MetaServer => 3,
    }
}

/// The number of a node status.
pub fn node_status_to_code(s: NodeStatus) -> (c: i32)
    ensures
        c == node_status_code(s),
{
    match s {
        NodeStatus::Starting => 1,
        NodeStatus::Online => 2,
        NodeStatus::Offline => 3,
        NodeStatus::Maintenance => 4,
        NodeStatus::Draining => 5,
    }
}

/// The number of a region status.
pub fn region_status_to_code(s: RegionStatus) -> (c: i32)
    ensures
        c == region_status_code(s),
{
    match s {
        RegionStatus::Active => 1,
        RegionStatus::ReadOnly => 2,
        RegionStatus::Migrating => 3,
        RegionStatus::Offline => 4,
        RegionStatus::Creating => 5,
        RegionStatus::Deleting => 6,
    }
}

/// The number of a cluster health.
pub fn cluster_health_to_code(h: ClusterHealth) -> (c: i32)
    ensures
        c == health_code(h),
{
    match h {
        ClusterHealth::Healthy => 1,
        ClusterHealth::Degraded => 2,
        ClusterHealth::Critical => 3,
        ClusterHealth::Unknown => 0,
    }
}

/// Statuses survive the trip to the wire and back.
pub proof fn law_node_status_code_roundtrip(s: NodeStatus)
    ensures
        node_status_of_code(node_status_code(s)) == s,
{
}

/// Roles survive the trip to the wire and back.
pub proof fn law_node_role_code_roundtrip(r: NodeRole)
    ensures
        role_of_code(role_code(r)) == r,
{
}

/// The ids of a list of region ids, as numbers.
pub fn region_ids_to_numbers(ids: &Vec<RegionId>) -> (v: Vec<u64>)
    ensures
        v@.len() == ids@.len(),
        forall|i: int| 0 <= i < ids@.len() ==> #[trigger] v@[i] == ids@[i].0,
{
    let mut v: Vec<u64> = Vec::new();
    let mut i: usize = 0;
    while i < ids.len()
        invariant
            i <= ids.len(),
            v@.len() == i,
            forall|k: int| 0 <= k < i ==> #[trigger] v@[k] == ids@[k].0,
        decreases ids.len() - i,
    {
        v.push(ids[i].get());
        i = i + 1;
    }
    v
}

/// Region ids from numbers.
pub fn numbers_to_region_ids(v: &Vec<u64>) -> (ids: Vec<RegionId>)
    ensures
        ids@.len() == v@.len(),
        forall|i: int| 0 <= i < v@.len() ==> #[trigger] ids@[i] == RegionId(v@[i]),
{
    let mut ids: Vec<RegionId> = Vec::new();
    let mut i: usize = 0;
    while i < v.len()
        invariant
            i <= v.len(),
            ids@.len() == i,
            forall|k: int| 0 <= k < i ==> #[trigger] ids@[k] == RegionId(v@[k]),
        decreases v.len() - i,
    {
        ids.push(RegionId::new(v[i]));
        i = i + 1;
    }
    ids
}

/// A node record on the wire.
/// Whether a wire node carries the fields of a node.
pub open spec fn node_proto_matches(p: NodeInfoProto, info: NodeInfo) -> bool {
    &&& p.node_id == info.node_id.0
    &&& p.grpc_addr@ == info.grpc_addr@
    &&& (p.http_addr is Some <==> info.http_addr is Some)
    &&& (info.http_addr matches Some(a) ==> (p.http_addr matches Some(b) && b@ == a@))
    &&& p.node_role == role_code(info.node_mode)
    &&& p.status == node_status_code(info.status)
    &&& p.regions@.len() == info.regions@.len()
    &&& (forall|i: int| 0 <= i < info.regions@.len() ==> #[trigger] p.regions@[i] == info.regions@[i].0)
    &&& p.last_heartbeat_ms == info.last_heartbeat_ms
}

/// Whether a wire region carries the fields of a region.
pub open spec fn region_proto_matches(p: RegionInfoProto, info: RegionInfo) -> bool {
    &&& p.region_id == info.region_id.0
    &&& p.database@ == info.database@
    &&& p.table@ == info.table@
    &&& p.node_id == info.node_id.0
    &&& p.partition_range matches Some(pr) && pr.time_start_ns == info.partition_range.time_start_ns
        && pr.time_end_ns == info.partition_range.time_end_ns && pr.hash_start == info.partition_range.hash_start
        && pr.hash_end == info.partition_range.hash_end
    &&& p.status == region_status_code(info.status)
    &&& p.epoch == info.epoch
}

/// Whether an optional message is carried over unchanged.
pub open spec fn same_message(p: Option<String>, r: Option<String>) -> bool {
    &&& (p is Some <==> r is Some)
    &&& (r matches Some(m) ==> (p matches Some(n) && n@ == m@))
}

pub fn convert_node_info_to_proto(info: &NodeInfo) -> (p: NodeInfoProto)
    ensures
        node_proto_matches(p, *info),
{
    NodeInfoProto {
        node_id: info.node_id.get(),
        grpc_addr: info.grpc_addr.clone(),
        http_addr: match &info.http_addr {
            Some(a) => Some(a.clone()),
            None => None,
        },
        node_role: node_role_to_code(info.node_mode),
        status: node_status_to_code(info.status),
        regions: region_ids_to_numbers(&info.regions),
        last_heartbeat_ms: info.last_heartbeat_ms,
    }
}

/// Whether a node record carries the fields of a wire record: the same id,
/// addresses, role, status, regions and heartbeat time.
pub open spec fn node_from_proto(info: NodeInfo, proto: NodeInfoProto) -> bool {
    &&& info.node_id == NodeId(proto.node_id)
    &&& info.grpc_addr@ == proto.grpc_addr@
    &&& (info.http_addr is Some <==> proto.http_addr is Some)
    &&& (proto.http_addr matches Some(a) ==> (info.http_addr matches Some(b) && b@ == a@))
    &&& info.node_mode == role_of_code(proto.node_role)
    &&& info.status == node_status_of_code(proto.status)
    &&& info.regions@.len() == proto.regions@.len()
    &&& (forall|i: int| 0 <= i < proto.regions@.len() ==> #[trigger] info.regions@[i] == RegionId(proto.regions@[i]))
    &&& info.last_heartbeat_ms == proto.last_heartbeat_ms
}

/// A node record from the wire, the addresses taken as given.
pub fn convert_node_info(proto: &NodeInfoProto) -> (info: NodeInfo)
    ensures
        node_from_proto(info, *proto),
{
    NodeInfo {
        node_id: NodeId::new(proto.node_id),
        grpc_addr: proto.grpc_addr.clone(),
        http_addr: match &proto.http_addr {
            Some(a) => Some(a.clone()),
            None => None,
        },
        node_mode: convert_node_role(proto.node_role),
        status: convert_node_status(proto.status),
        regions: numbers_to_region_ids(&proto.regions),
        last_heartbeat_ms: proto.last_heartbeat_ms,
    }
}

/// A node record from the wire whose addresses were parsed as socket
/// addresses: the parse error of the gRPC address, else that of the HTTP
/// address (where there is one), makes the request an invalid argument
/// with that message; otherwise the record is converted.
pub fn convert_checked_node_info(
    proto: &NodeInfoProto,
    grpc_addr_error: Option<String>,
    http_addr_error: Option<String>,
) -> (r: std::result::Result<NodeInfo, String>)
    ensures
        grpc_addr_error matches Some(m) ==> r == Err::<NodeInfo, String>(m),
        grpc_addr_error is None && proto.http_addr is Some && http_addr_error is Some ==> r == Err::<
            NodeInfo,
            String,
        >(http_addr_error->0),
        grpc_addr_error is None && (proto.http_addr is None || http_addr_error is None) ==> (r matches Ok(info)
            && node_from_proto(info, *proto)),
{
    match grpc_addr_error {
        Some(m) => Err(m),
        None => {
            if proto.http_addr.is_some() {
                if let Some(m) = http_addr_error {
                    return Err(m);
                }
            }
            Ok(convert_node_info(proto))
        },
    }
}

/// A partition range on the wire.
pub fn convert_partition_range_to_proto(r: &PartitionRange) -> (p: PartitionRangeProto)
    ensures
        p.time_start_ns == r.time_start_ns,
        p.time_end_ns == r.time_end_ns,
        p.hash_start == r.hash_start,
        p.hash_end == r.hash_end,
{
    PartitionRangeProto {
        time_start_ns: r.time_start_ns,
        time_end_ns: r.time_end_ns,
        hash_start: r.hash_start as u32,
        hash_end: r.hash_end as u32,
    }
}

/// A region record on the wire.
pub fn convert_region_info_to_proto(info: &RegionInfo) -> (p: RegionInfoProto)
    ensures
        region_proto_matches(p, *info),
{
    RegionInfoProto {
        region_id: info.region_id.get(),
        database: info.database.clone(),
        table: info.table.clone(),
        node_id: info.node_id.get(),
        partition_range: Some(convert_partition_range_to_proto(&info.partition_range)),
        status: region_status_to_code(info.status),
        epoch: info.epoch,
    }
}

/// Region records on the wire.
pub fn convert_regions_to_proto(regions: &Vec<RegionInfo>) -> (v: Vec<RegionInfoProto>)
    ensures
        v@.len() == regions@.len(),
        forall|i: int| 0 <= i < regions@.len() ==> region_proto_matches(#[trigger] v@[i], regions@[i]),
{
    let mut v: Vec<RegionInfoProto> = Vec::new();
    let mut i: usize = 0;
    while i < regions.len()
        invariant
            i <= regions.len(),
            v@.len() == i,
            forall|k: int| 0 <= k < i ==> region_proto_matches(#[trigger] v@[k], regions@[k]),
        decreases regions.len() - i,
    {
        v.push(convert_region_info_to_proto(&regions[i]));
        i = i + 1;
    }
    v
}

/// The answer to a registration on the wire.
pub fn register_response_to_proto(r: &RegisterDatanodeResponse) -> (p: RegisterNodeResponse)
    ensures
        p.success == r.success,
        p.assigned_node_id == r.node_id.0,
        p.assigned_regions@.len() == r.assigned_regions@.len(),
        forall|i: int| 0 <= i < r.assigned_regions@.len() ==> region_proto_matches(
            #[trigger] p.assigned_regions@[i],
            r.assigned_regions@[i],
        ),
        same_message(p.error_message, r.error_message),
{
    RegisterNodeResponse {
        success: r.success,
        assigned_node_id: r.node_id.get(),
        assigned_regions: convert_regions_to_proto(&r.assigned_regions),
        error_message: match &r.error_message {
            Some(m) => Some(m.clone()),
            None => None,
        },
    }
}

/// The answer to a heartbeat on the wire.
pub fn heartbeat_response_to_proto(r: &HeartbeatResponse) -> (p: HeartbeatResponseProto)
    ensures
        p.success == r.success,
        p.regions_to_add@.len() == r.regions_to_add@.len(),
        forall|i: int| 0 <= i < r.regions_to_add@.len() ==> region_proto_matches(
            #[trigger] p.regions_to_add@[i],
            r.regions_to_add@[i],
        ),
        p.regions_to_remove@.len() == r.regions_to_remove@.len(),
        forall|i: int| 0 <= i < r.regions_to_remove@.len() ==> #[trigger] p.regions_to_remove@[i] == r.regions_to_remove@[i].0,
        same_message(p.message, r.message),
{
    HeartbeatResponseProto {
        success: r.success,
        regions_to_add: convert_regions_to_proto(&r.regions_to_add),
        regions_to_remove: region_ids_to_numbers(&r.regions_to_remove),
        message: match &r.message {
            Some(m) => Some(m.clone()),
            None => None,
        },
    }
}

/// The answer to a table creation on the wire.
pub fn create_table_response_to_proto(r: &CreateTableResponse) -> (p: CreateTableResponseProto)
    ensures
        p.success == r.success,
        p.created_regions@.len() == r.regions@.len(),
        forall|i: int| 0 <= i < r.regions@.len() ==> region_proto_matches(#[trigger] p.created_regions@[i], r.regions@[i]),
        same_message(p.error_message, r.error_message),
{
    CreateTableResponseProto {
        success: r.success,
        created_regions: convert_regions_to_proto(&r.regions),
        error_message: match &r.error_message {
            Some(m) => Some(m.clone()),
            None => None,
        },
    }
}

/// Node records on the wire.
pub fn convert_nodes_to_proto(nodes: &Vec<NodeInfo>) -> (v: Vec<NodeInfoProto>)
    ensures
        v@.len() == nodes@.len(),
        forall|i: int| 0 <= i < nodes@.len() ==> node_proto_matches(#[trigger] v@[i], nodes@[i]),
{
    let mut v: Vec<NodeInfoProto> = Vec::new();
    let mut i: usize = 0;
    while i < nodes.len()
        invariant
            i <= nodes.len(),
            v@.len() == i,
            forall|k: int| 0 <= k < i ==> node_proto_matches(#[trigger] v@[k], nodes@[k]),
        decreases nodes.len() - i,
    {
        v.push(convert_node_info_to_proto(&nodes[i]));
        i = i + 1;
    }
    v
}

/// Cluster information on the wire.
pub fn cluster_info_to_proto(info: &GetClusterInfoResponse) -> (p: GetClusterInfoResponseProto)
    ensures
        p.cluster_name@ == info.cluster_name@,
        p.nodes@.len() == info.nodes@.len(),
        forall|i: int| 0 <= i < info.nodes@.len() ==> node_proto_matches(#[trigger] p.nodes@[i], info.nodes@[i]),
        p.total_regions == info.total_regions,
        p.health == health_code(info.health),
{
    GetClusterInfoResponseProto {
        cluster_name: info.cluster_name.clone(),
        nodes: convert_nodes_to_proto(&info.nodes),
        total_regions: info.total_regions,
        health: cluster_health_to_code(info.health),
    }
}

/// A heartbeat from the wire, as the metadata service takes it.
pub fn heartbeat_request_from_proto(p: &HeartbeatRequestProto) -> (r: crate::proto::HeartbeatRequest)
    ensures
        r.node_id == NodeId(p.node_id),
        r.status == node_status_of_code(p.status),
        r.regions@.len() == p.regions@.len(),
        forall|i: int| 0 <= i < p.regions@.len() ==> #[trigger] r.regions@[i] == RegionId(p.regions@[i]),
{
    crate::proto::HeartbeatRequest {
        node_id: NodeId::new(p.node_id),
        status: convert_node_status(p.status),
        regions: numbers_to_region_ids(&p.regions),
    }
}

} // verus!
