//! Nodes of the cluster and the tables they serve.

use vstd::prelude::*;
use crate::ids::{NodeId, RegionId};
use crate::region::RegionInfo;
use crate::time::{duration_millis, spec_duration_millis};

verus! {

/// The role/mode of a node in the cluster.
#[derive(Debug, Clone, Copy, PartialEq, Eq, Hash, Structural)]
pub enum NodeRole {
    /// Frontend node that handles client requests
    Frontend,
    /// Datanode that stores and processes data
    Datanode,
    /// MetaServer that manages cluster metadata
    MetaServer,
}

/// The display name of a node role.
pub open spec fn node_role_name(r: NodeRole) -> Seq<char> {
    match r {
        NodeRole::Frontend => "Frontend"@,
        NodeRole::Datanode => "Datanode"@,
        NodeRole::MetaServer => "MetaServer"@,
    }
}

impl NodeRole {
    /// The display form of the role.
    pub fn to_display_string(&self) -> (s: String)
        ensures
            s@ == node_role_name(*self),
    {
        match self {
            NodeRole::Frontend => String::from_str("Frontend"),
            NodeRole::Datanode => String::from_str("Datanode"),
            NodeRole::MetaServer => String::from_str("MetaServer"),
        }
    }
}

/// Status of a node in the cluster.
#[derive(Debug, Clone, Copy, PartialEq, Eq, Hash, Structural)]
pub enum NodeStatus {
    /// Node is starting up
    Starting,
    /// Node is online and healthy
    Online,
    /// Node is offline or unreachable
    Offline,
    /// Node is in maintenance mode
    Maintenance,
    /// Node is being drained before shutdown
    Draining,
}

/// The display name of a node status.
pub open spec fn node_status_name(s: NodeStatus) -> Seq<char> {
    match s {
        NodeStatus::Starting => "Starting"@,
        NodeStatus::Online => "Online"@,
        NodeStatus::Offline => "Offline"@,
        NodeStatus::Maintenance => "Maintenance"@,
        NodeStatus::Draining => "Draining"@,
    }
}

impl NodeStatus {
    /// The display form of the status.
    pub fn to_display_string(&self) -> (s: String)
        ensures
            s@ == node_status_name(*self),
    {
        match self {
            NodeStatus::Starting => String::from_str("Starting"),
            NodeStatus::Online => String::from_str("Online"),
            NodeStatus::Offline => String::from_str("Offline"),
            NodeStatus::Maintenance => String::from_str("Maintenance"),
            NodeStatus::Draining => String::from_str("Draining"),
        }
    }
}

/// Copies a list of region ids element by element.
pub fn copy_region_ids(v: &Vec<RegionId>) -> (r: Vec<RegionId>)
    ensures
        r@ == v@,
{
    let mut r: Vec<RegionId> = Vec::new();
    let mut i: usize = 0;
    while i < v.len()
        invariant
            i <= v.len(),
            r@ == v@.subrange(0, i as int),
        decreases v.len() - i,
    {
        r.push(v[i]);
        i = i + 1;
        assert(r@ =~= v@.subrange(0, i as int));
    }
    assert(v@.subrange(0, v.len() as int) =~= v@);
    r
}

/// Information about a node in the cluster.
#[derive(Debug, Clone, PartialEq, Eq)]
pub struct NodeInfo {
    /// Unique identifier for this node
    pub node_id: NodeId,
    /// Network address for gRPC communication, as `host:port` text
    pub grpc_addr: String,
    /// Network address for HTTP API (optional, mainly for Frontend), as `host:port` text
    pub http_addr: Option<String>,
    /// The mode this node is running in
    pub node_mode: NodeRole,
    /// Current status of the node
    pub status: NodeStatus,
    /// Regions managed by this node (only applicable for Datanodes)
    pub regions: Vec<RegionId>,
    /// Last heartbeat timestamp (Unix timestamp in milliseconds)
    pub last_heartbeat_ms: i64,
}

impl NodeInfo {
    /// Create a new NodeInfo
    pub fn new(node_id: NodeId, grpc_addr: String, node_mode: NodeRole) -> (r: Self)
        ensures
            r.node_id == node_id,
            r.grpc_addr == grpc_addr,
            r.http_addr is None,
            r.node_mode == node_mode,
            r.status == NodeStatus::Starting,
            r.regions@ == Seq::<RegionId>::empty(),
            r.last_heartbeat_ms == 0,
    {
        NodeInfo {
            node_id,
            grpc_addr,
            http_addr: None,
            node_mode,
            status: NodeStatus::Starting,
            regions: Vec::new(),
            last_heartbeat_ms: 0,
        }
    }

    /// A field-by-field copy.
    pub fn copy(&self) -> (r: Self)
        ensures
            r.node_id == self.node_id,
            r.grpc_addr == self.grpc_addr,
            r.http_addr == self.http_addr,
            r.node_mode == self.node_mode,
            r.status == self.status,
            r.regions@ == self.regions@,
            r.last_heartbeat_ms == self.last_heartbeat_ms,
    {
        NodeInfo {
            node_id: self.node_id,
            grpc_addr: self.grpc_addr.clone(),
            http_addr: match &self.http_addr {
                Some(a) => Some(a.clone()),
                None => None,
            },
            node_mode: self.node_mode,
            status: self.status,
            regions: copy_region_ids(&self.regions),
            last_heartbeat_ms: self.last_heartbeat_ms,
        }
    }

    /// Set the HTTP address
    pub fn with_http_addr(self, addr: String) -> (r: Self)
        ensures
            r == (NodeInfo { http_addr: Some(addr), ..self }),
    {
        let mut s = self;
        s.http_addr = Some(addr);
        s
    }

    /// Add regions to this node
    pub fn with_regions(self, regions: Vec<RegionId>) -> (r: Self)
        ensures
            r == (NodeInfo { regions: regions, ..self }),
    {
        let mut s = self;
        s.regions = regions;
        s
    }

    /// Check if this node is healthy
    pub fn is_healthy(&self) -> (b: bool)
        ensures
            b == (self.status == NodeStatus::Online),
    {
        match self.status {
            NodeStatus::Online => true,
            _ => false,
        }
    }

    /// Update the last heartbeat timestamp
    pub fn update_heartbeat(&mut self, timestamp_ms: i64)
        ensures
            *final(self) == (NodeInfo { last_heartbeat_ms: timestamp_ms, ..*old(self) }),
    {
        self.last_heartbeat_ms = timestamp_ms;
    }

    /// Check if the node is considered stale based on the given timeout.
    ///
    /// The timeout in milliseconds is taken as a signed 64-bit number
    /// (truncated as by `as i64`).
    pub fn is_stale(&self, current_time_ms: i64, timeout: std::time::Duration) -> (b: bool)
        requires
            i64::MIN <= current_time_ms - self.last_heartbeat_ms <= i64::MAX,
        ensures
            b == (current_time_ms - self.last_heartbeat_ms > (spec_duration_millis(timeout) as i64)),
    {
        let timeout_ms = duration_millis(&timeout) as i64;
        current_time_ms - self.last_heartbeat_ms > timeout_ms
    }
}

/// Heartbeat response from the MetaServer.
#[derive(Debug, Clone)]
pub struct HeartbeatResponse {
    /// Whether the heartbeat was accepted
    pub success: bool,
    /// Any regions that should be added to this node
    pub regions_to_add: Vec<RegionInfo>,
    /// Any regions that should be removed from this node
    pub regions_to_remove: Vec<RegionId>,
    /// Optional message from the MetaServer
    pub message: Option<String>,
}

impl Default for HeartbeatResponse {
    fn default() -> (r: Self)
        ensures
            r.success,
            r.regions_to_add@.len() == 0,
            r.regions_to_remove@.len() == 0,
            r.message is None,
    {
        HeartbeatResponse {
            success: true,
            regions_to_add: Vec::new(),
            regions_to_remove: Vec::new(),
            message: None,
        }
    }
}

/// Table location information used for query routing.
#[derive(Debug, Clone)]
pub struct TableLocation {
    /// Database name
    pub database: String,
    /// Table name
    pub table: String,
    /// Regions that contain data for this table
    pub regions: Vec<RegionInfo>,
}

/// `s` is strictly increasing by id value, so it holds no id twice.
pub open spec fn strictly_increasing(s: Seq<NodeId>) -> bool {
    forall|i: int, j: int| 0 <= i < j < s.len() ==> s[i].0 < s[j].0
}

/// The nodes hosting the given regions.
pub open spec fn hosting_nodes(regions: Seq<RegionInfo>) -> Set<NodeId> {
    Set::new(|n: NodeId| exists|i: int| 0 <= i < regions.len() && regions[i].node_id == n)
}

/// Inserts a node id into a strictly increasing list, keeping it so.
pub fn insert_sorted_unique(ids: &mut Vec<NodeId>, id: NodeId)
    requires
        strictly_increasing(old(ids)@),
    ensures
        strictly_increasing(final(ids)@),
        final(ids)@.to_set() == old(ids)@.to_set().insert(id),
{
    let mut i: usize = 0;
    while i < ids.len() && ids[i].0 < id.0
        invariant
            i <= ids.len(),
            forall|k: int| 0 <= k < i ==> ids@[k].0 < id.0,
        decreases ids.len() - i,
    {
        i = i + 1;
    }
    if i < ids.len() && ids[i].0 == id.0 {
        assert(ids@[i as int] == id);
        assert(ids@.to_set().insert(id) =~= ids@.to_set());
        return;
    }
    let ghost before = ids@;
    ids.insert(i, id);
    proof {
        assert(ids@ =~= before.subrange(0, i as int).push(id) + before.subrange(i as int, before.len() as int));
        assert forall|x: NodeId| ids@.to_set().contains(x) <==> before.to_set().insert(id).contains(x) by {
            if ids@.to_set().contains(x) {
                let k = choose|k: int| 0 <= k < ids@.len() && ids@[k] == x;
                if k < i {
                    assert(before[k] == x);
                } else if k > i {
                    assert(before[k - 1] == x);
                }
            }
            if before.to_set().insert(id).contains(x) && x != id {
                let k = choose|k: int| 0 <= k < before.len() && before[k] == x;
                if k < i {
                    assert(ids@[k] == x);
                } else {
                    assert(ids@[k + 1] == x);
                }
            }
            if x == id {
                assert(ids@[i as int] == id);
            }
        }
        assert(ids@.to_set() =~= before.to_set().insert(id));
    }
}

impl TableLocation {
    /// Create a new TableLocation
    pub fn new(database: String, table: String) -> (r: Self)
        ensures
            r.database == database,
            r.table == table,
            r.regions@.len() == 0,
    {
        TableLocation { database, table, regions: Vec::new() }
    }

    /// Add a region to this table location
    pub fn add_region(&mut self, region: RegionInfo)
        ensures
            final(self).database == old(self).database,
            final(self).table == old(self).table,
            final(self).regions@ == old(self).regions@.push(region),
    {
        self.regions.push(region);
    }

    /// Get all unique node IDs that have data for this table, in ascending order.
    pub fn node_ids(&self) -> (ids: Vec<NodeId>)
        ensures
            strictly_increasing(ids@),
            ids@.to_set() == hosting_nodes(self.regions@),
    {
        let mut ids: Vec<NodeId> = Vec::new();
        let mut i: usize = 0;
        while i < self.regions.len()
            invariant
                i <= self.regions.len(),
                strictly_increasing(ids@),
                ids@.to_set() == hosting_nodes(self.regions@.subrange(0, i as int)),
            decreases self.regions.len() - i,
        {
            let ghost prev = ids@.to_set();
            insert_sorted_unique(&mut ids, self.regions[i].node_id);
            proof {
                let s = self.regions@;
                assert(hosting_nodes(s.subrange(0, i + 1)) =~= hosting_nodes(s.subrange(0, i as int)).insert(s[i as int].node_id)) by {
                    assert forall|n: NodeId| hosting_nodes(s.subrange(0, i + 1)).contains(n) implies
                        hosting_nodes(s.subrange(0, i as int)).insert(s[i as int].node_id).contains(n) by {
                        let k = choose|k: int| #![trigger s.subrange(0, i + 1)[k]] 0 <= k < i + 1 && s.subrange(0, i + 1)[k].node_id == n;
                        if k < i {
                            assert(s.subrange(0, i as int)[k].node_id == n);
                        }
                    }
                    assert forall|n: NodeId| hosting_nodes(s.subrange(0, i as int)).insert(s[i as int].node_id).contains(n) implies
                        hosting_nodes(s.subrange(0, i + 1)).contains(n) by {
                        if n == s[i as int].node_id {
                            assert(s.subrange(0, i + 1)[i as int].node_id == n);
                        } else {
                            let k = choose|k: int| #![trigger s.subrange(0, i as int)[k]] 0 <= k < i && s.subrange(0, i as int)[k].node_id == n;
                            assert(s.subrange(0, i + 1)[k].node_id == n);
                        }
                    }
                }
            }
            i = i + 1;
        }
        assert(self.regions@.subrange(0, self.regions.len() as int) =~= self.regions@);
        ids
    }
}

} // verus!
