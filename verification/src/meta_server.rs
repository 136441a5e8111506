//! The metadata service: registered nodes, their health, and the regions of
//! every table.
//!
//! This is the in-memory service. Its operations are plain methods; the
//! program that serves them over the network reads the clock and hands the
//! current time in where an operation stamps a node.

use vstd::prelude::*;
use dashmap::DashMap;
use crate::config::MetaServerConfig;
use crate::dmap::{
    node_records, node_records_contains, node_records_entries, node_records_get,
    node_records_insert, node_records_new,
};
use crate::error::{DistributedError, Result, spec_error_message};
use crate::ids::{NodeId, RegionId};
use crate::node::{NodeInfo, NodeRole, NodeStatus, TableLocation};
use crate::proto::{
    ClusterHealth, CreateTableRequest, CreateTableResponse, GetClusterInfoResponse,
    HeartbeatRequest, HeartbeatResponse, RegisterDatanodeResponse,
};
use crate::region::RegionInfo;
use crate::region_manager::{
    RegionManager, RegionManagerConfig, effective_region_count, hosted_after_assign, lookup_all,
    reassigned, table_key, in_database, region_key, table_has_regions_message,
};

verus! {

/// A datanode that is online.
pub open spec fn is_online_datanode(n: NodeInfo) -> bool {
    n.node_mode == NodeRole::Datanode && n.status == NodeStatus::Online
}

/// The health of a cluster with these nodes: critical without datanodes,
/// healthy when every datanode is online, degraded when some are, critical
/// when none is.
pub open spec fn spec_cluster_health(nodes: Map<u64, NodeInfo>) -> ClusterHealth {
    let has_datanode = exists|k: u64| #[trigger] nodes.contains_key(k) && nodes[k].node_mode == NodeRole::Datanode;
    let all_online = forall|k: u64| #[trigger] nodes.contains_key(k) && nodes[k].node_mode == NodeRole::Datanode
        ==> nodes[k].status == NodeStatus::Online;
    let some_online = exists|k: u64| #[trigger] nodes.contains_key(k) && is_online_datanode(nodes[k]);
    if !has_datanode {
        ClusterHealth::Critical
    } else if all_online {
        ClusterHealth::Healthy
    } else if some_online {
        ClusterHealth::Degraded
    } else {
        ClusterHealth::Critical
    }
}

/// The id after `n` from a counter that wraps around.
pub open spec fn next_after(n: u64) -> u64 {
    if n == u64::MAX {
        0
    } else {
        (n + 1) as u64
    }
}

/// The record of a node as registration stores it.
pub open spec fn registered(info: NodeInfo, id: u64, now_ms: i64) -> NodeInfo {
    NodeInfo {
        node_id: NodeId(id),
        status: NodeStatus::Online,
        last_heartbeat_ms: now_ms,
        ..info
    }
}

/// The record of a node after a heartbeat.
pub open spec fn after_heartbeat(info: NodeInfo, request: HeartbeatRequest, now_ms: i64) -> NodeInfo {
    NodeInfo {
        status: request.status,
        regions: request.regions,
        last_heartbeat_ms: now_ms,
        ..info
    }
}

/// The node ids of a sequence of node records.
pub open spec fn node_ids_of(s: Seq<NodeInfo>) -> Seq<NodeId> {
    s.map_values(|n: NodeInfo| n.node_id)
}

/// Some entry from index `lo` on is the online datanode `id`.
pub open spec fn online_entry_from(all: Seq<(u64, NodeInfo)>, lo: int, id: NodeId) -> bool {
    exists|j: int| lo <= j < all.len() && #[trigger] all[j].0 == id.0 && is_online_datanode(all[j].1)
}

/// Some entry from index `lo` on holds the record `x`, online if asked.
pub open spec fn node_entry_from(all: Seq<(u64, NodeInfo)>, lo: int, x: NodeInfo, online: bool) -> bool {
    exists|j: int| lo <= j < all.len() && #[trigger] all[j].1 == x && (online ==> is_online_datanode(all[j].1))
}

/// MetaServer manages cluster metadata.
///
/// This is an in-memory implementation suitable for development and testing.
pub struct MetaServer {
    /// Server configuration
    config: MetaServerConfig,
    /// Registered nodes by node id
    nodes: DashMap<u64, NodeInfo>,
    /// Region manager
    region_manager: RegionManager,
    /// Next node ID to assign
    next_node_id: u64,
    /// Cluster name
    cluster_name: String,
}

impl MetaServer {
    /// The registered nodes by id.
    pub closed spec fn nodes(&self) -> Map<u64, NodeInfo> {
        node_records(self.nodes)
    }

    /// The region manager.
    pub closed spec fn regions(&self) -> RegionManager {
        self.region_manager
    }

    /// The id the next node registered without one gets.
    pub closed spec fn spec_next_node_id(&self) -> u64 {
        self.next_node_id
    }

    /// The cluster name.
    pub closed spec fn spec_cluster_name(&self) -> Seq<char> {
        self.cluster_name@
    }

    /// The default number of regions of a new table.
    pub closed spec fn default_regions(&self) -> usize {
        self.config.default_num_regions
    }

    /// The server's maps agree with each other.
    pub open spec fn wf(&self) -> bool {
        &&& self.regions().wf()
        &&& self.nodes().dom().finite()
        &&& forall|k: u64| #[trigger] self.nodes().contains_key(k) ==> self.nodes()[k].node_id.0 == k
        &&& self.regions().spec_config().default_num_regions == self.default_regions()
    }

    /// Create a new MetaServer.
    pub fn new(config: MetaServerConfig) -> (s: Self)
        ensures
            s.wf(),
            s.nodes().dom() == Set::<u64>::empty(),
            s.regions().records().dom() == Set::<u64>::empty(),
            s.regions().tables().dom() == Set::<Seq<char>>::empty(),
            s.regions().hosted().dom() == Set::<u64>::empty(),
            s.regions().next_id() == 1,
            s.spec_next_node_id() == 1,
            s.spec_cluster_name() == config.cluster_name@,
            s.default_regions() == config.default_num_regions,
            s.regions().spec_config().max_regions_per_node == 100,
    {
        let cluster_name = config.cluster_name.clone();
        let region_config = RegionManagerConfig {
            default_num_regions: config.default_num_regions,
            max_regions_per_node: 100,
        };
        MetaServer {
            config,
            nodes: node_records_new(),
            region_manager: RegionManager::new(region_config),
            next_node_id: 1,
            cluster_name,
        }
    }

    /// Create a MetaServer with default configuration.
    pub fn with_defaults() -> (s: Self)
        ensures
            s.wf(),
            s.nodes().dom() == Set::<u64>::empty(),
            s.regions().records().dom() == Set::<u64>::empty(),
            s.regions().tables().dom() == Set::<Seq<char>>::empty(),
            s.regions().next_id() == 1,
            s.spec_next_node_id() == 1,
            s.spec_cluster_name() == "influxdb3-cluster"@,
            s.default_regions() == 4,
    {
        MetaServer::new(MetaServerConfig::default())
    }

    /// Generate the next node ID.
    fn next_node_id(&mut self) -> (id: NodeId)
        ensures
            id.0 == old(self).spec_next_node_id(),
            final(self).spec_next_node_id() == next_after(old(self).spec_next_node_id()),
            final(self).nodes() == old(self).nodes(),
            final(self).regions() == old(self).regions(),
            final(self).spec_cluster_name() == old(self).spec_cluster_name(),
            final(self).default_regions() == old(self).default_regions(),
    {
        let id = self.next_node_id;
        self.next_node_id = if id == u64::MAX {
            0
        } else {
            id + 1
        };
        NodeId::new(id)
    }

    /// The region manager.
    pub fn region_manager(&self) -> (m: &RegionManager)
        ensures
            *m == self.regions(),
    {
        &self.region_manager
    }

    /// Get all online datanode IDs.
    ///
    /// Each online datanode once; the order follows the map and is not stated.
    pub fn get_online_datanode_ids(&self) -> (ids: Vec<NodeId>)
        requires
            self.wf(),
        ensures
            forall|m: int| 0 <= m < ids@.len() ==> self.nodes().contains_key(#[trigger] ids@[m].0)
                && is_online_datanode(self.nodes()[ids@[m].0]),
            forall|k: u64| #[trigger] self.nodes().contains_key(k) && is_online_datanode(self.nodes()[k])
                ==> ids@.contains(NodeId(k)),
            ids@.no_duplicates(),
    {
        let mut entries = node_records_entries(&self.nodes);
        let ghost all = entries@;
        let ghost nodes = self.nodes();
        let mut ids: Vec<NodeId> = Vec::new();
        while entries.len() > 0
            invariant
                nodes == self.nodes(),
                entries@.len() <= all.len(),
                entries@ == all.take(entries@.len() as int),
                forall|j: int| #![trigger all[j]] 0 <= j < all.len() ==> nodes.contains_key(all[j].0)
                    && nodes[all[j].0] == all[j].1,
                forall|a: int, b: int| 0 <= a < b < all.len() ==> all[a].0 != all[b].0,
                forall|m: int| 0 <= m < ids@.len() ==> online_entry_from(all, entries@.len() as int, #[trigger] ids@[m]),
                forall|j: int| #![trigger all[j]] entries@.len() <= j < all.len() && is_online_datanode(all[j].1)
                    ==> ids@.contains(NodeId(all[j].0)),
                ids@.no_duplicates(),
            decreases entries@.len(),
        {
            let ghost n = entries@.len() - 1;
            let ghost before = ids@;
            let popped = entries.pop();
            if let Some((k, info)) = popped {
                proof {
                    assert(all[n] == (k, info));
                }
                if info.node_mode == NodeRole::Datanode && info.status == NodeStatus::Online {
                    ids.push(NodeId::new(k));
                    proof {
                        assert(!before.contains(NodeId(k))) by {
                            if before.contains(NodeId(k)) {
                                let m = choose|m: int| 0 <= m < before.len() && before[m] == NodeId(k);
                                let j = choose|j: int| n + 1 <= j < all.len() && #[trigger] all[j].0 == before[m].0 && is_online_datanode(all[j].1);
                            }
                        }
                        assert forall|m: int| 0 <= m < ids@.len() implies online_entry_from(all, n, #[trigger] ids@[m]) by {
                            if m < before.len() {
                                assert(ids@[m] == before[m]);
                                let j = choose|j: int| n + 1 <= j < all.len() && #[trigger] all[j].0 == before[m].0 && is_online_datanode(all[j].1);
                            } else {
                                assert(all[n].0 == ids@[m].0);
                            }
                        }
                        assert forall|j: int| #![trigger all[j]] n <= j < all.len() && is_online_datanode(all[j].1)
                            implies ids@.contains(NodeId(all[j].0)) by {
                            if j == n {
                                assert(ids@[before.len() as int] == NodeId(k));
                            } else {
                                let m = choose|m: int| 0 <= m < before.len() && before[m] == NodeId(all[j].0);
                                assert(ids@[m] == before[m]);
                            }
                        }
                    }
                } else {
                    proof {
                        assert forall|j: int| #![trigger all[j]] n <= j < all.len() && is_online_datanode(all[j].1)
                            implies ids@.contains(NodeId(all[j].0)) by {
                            assert(j != n);
                        }
                        assert forall|m: int| 0 <= m < ids@.len() implies online_entry_from(all, n, #[trigger] ids@[m]) by {
                            let j = choose|j: int| n + 1 <= j < all.len() && #[trigger] all[j].0 == ids@[m].0 && is_online_datanode(all[j].1);
                        }
                    }
                }
            }
        }
        proof {
            assert forall|k: u64| #[trigger] nodes.contains_key(k) && is_online_datanode(nodes[k]) implies ids@.contains(
                NodeId(k),
            ) by {
                let j = choose|j: int| 0 <= j < all.len() && #[trigger] all[j].0 == k;
                assert(nodes[all[j].0] == all[j].1);
            }
            assert forall|m: int| 0 <= m < ids@.len() implies nodes.contains_key(#[trigger] ids@[m].0)
                && is_online_datanode(nodes[ids@[m].0]) by {
                let j = choose|j: int| 0 <= j < all.len() && #[trigger] all[j].0 == ids@[m].0 && is_online_datanode(all[j].1);
            }
        }
        ids
    }

    /// The registered nodes that pass `keep_online_datanodes` (all of them
    /// when it is false), each once, in an order that is not stated.
    fn collect_nodes(&self, keep_online_datanodes: bool) -> (out: Vec<NodeInfo>)
        requires
            self.wf(),
        ensures
            forall|m: int| 0 <= m < out@.len() ==> self.nodes().contains_key(#[trigger] out@[m].node_id.0)
                && self.nodes()[out@[m].node_id.0] == out@[m] && (keep_online_datanodes
                ==> is_online_datanode(out@[m])),
            forall|k: u64| #[trigger] self.nodes().contains_key(k) && (keep_online_datanodes
                ==> is_online_datanode(self.nodes()[k])) ==> node_ids_of(out@).contains(NodeId(k)),
            node_ids_of(out@).no_duplicates(),
    {
        let mut entries = node_records_entries(&self.nodes);
        let ghost all = entries@;
        let ghost nodes = self.nodes();
        let mut out: Vec<NodeInfo> = Vec::new();
        while entries.len() > 0
            invariant
                self.wf(),
                nodes == self.nodes(),
                entries@.len() <= all.len(),
                entries@ == all.take(entries@.len() as int),
                forall|j: int| #![trigger all[j]] 0 <= j < all.len() ==> nodes.contains_key(all[j].0)
                    && nodes[all[j].0] == all[j].1,
                forall|a: int, b: int| 0 <= a < b < all.len() ==> all[a].0 != all[b].0,
                forall|m: int| 0 <= m < out@.len() ==> node_entry_from(all, entries@.len() as int, #[trigger] out@[m], keep_online_datanodes),
                forall|j: int| #![trigger all[j]] entries@.len() <= j < all.len() && (keep_online_datanodes
                    ==> is_online_datanode(all[j].1)) ==> node_ids_of(out@).contains(NodeId(all[j].0)),
                node_ids_of(out@).no_duplicates(),
            decreases entries@.len(),
        {
            let ghost n = entries@.len() - 1;
            let ghost before = out@;
            let popped = entries.pop();
            if let Some((k, info)) = popped {
                proof {
                    assert(all[n] == (k, info));
                    assert(nodes[k].node_id.0 == k);
                }
                let keep = !keep_online_datanodes || (info.node_mode == NodeRole::Datanode
                    && info.status == NodeStatus::Online);
                if keep {
                    out.push(info);
                    proof {
                        let ids0 = node_ids_of(before);
                        let ids1 = node_ids_of(out@);
                        assert(ids1 == ids0.push(NodeId(k)));
                        assert(!ids0.contains(NodeId(k))) by {
                            if ids0.contains(NodeId(k)) {
                                let m = choose|m: int| 0 <= m < ids0.len() && ids0[m] == NodeId(k);
                                let j = choose|j: int| n + 1 <= j < all.len() && #[trigger] all[j].1 == before[m] && (keep_online_datanodes ==> is_online_datanode(all[j].1));
                                assert(nodes[all[j].0].node_id.0 == all[j].0);
                            }
                        }
                        assert forall|m: int| 0 <= m < out@.len() implies node_entry_from(all, n, #[trigger] out@[m], keep_online_datanodes) by {
                            if m < before.len() {
                                assert(out@[m] == before[m]);
                                let j = choose|j: int| n + 1 <= j < all.len() && #[trigger] all[j].1 == before[m] && (keep_online_datanodes ==> is_online_datanode(all[j].1));
                            } else {
                                assert(all[n].1 == out@[m]);
                            }
                        }
                        assert forall|j: int| #![trigger all[j]] n <= j < all.len() && (keep_online_datanodes
                            ==> is_online_datanode(all[j].1)) implies ids1.contains(NodeId(all[j].0)) by {
                            if j == n {
                                assert(ids1[ids0.len() as int] == NodeId(k));
                            } else {
                                let m = choose|m: int| 0 <= m < ids0.len() && ids0[m] == NodeId(all[j].0);
                                assert(ids1[m] == ids0[m]);
                            }
                        }
                    }
                } else {
                    proof {
                        assert forall|j: int| #![trigger all[j]] n <= j < all.len() && (keep_online_datanodes
                            ==> is_online_datanode(all[j].1)) implies node_ids_of(out@).contains(NodeId(all[j].0)) by {
                            assert(j != n);
                        }
                        assert forall|m: int| 0 <= m < out@.len() implies node_entry_from(all, n, #[trigger] out@[m], keep_online_datanodes) by {
                            let j = choose|j: int| n + 1 <= j < all.len() && #[trigger] all[j].1 == out@[m] && (keep_online_datanodes ==> is_online_datanode(all[j].1));
                        }
                    }
                }
            }
        }
        proof {
            assert forall|k: u64| #[trigger] nodes.contains_key(k) && (keep_online_datanodes ==> is_online_datanode(nodes[k]))
                implies node_ids_of(out@).contains(NodeId(k)) by {
                let j = choose|j: int| 0 <= j < all.len() && #[trigger] all[j].0 == k;
                assert(nodes[all[j].0] == all[j].1);
            }
            assert forall|m: int| 0 <= m < out@.len() implies nodes.contains_key(#[trigger] out@[m].node_id.0)
                && nodes[out@[m].node_id.0] == out@[m] && (keep_online_datanodes ==> is_online_datanode(out@[m])) by {
                let j = choose|j: int| 0 <= j < all.len() && #[trigger] all[j].1 == out@[m] && (keep_online_datanodes ==> is_online_datanode(all[j].1));
                assert(nodes[all[j].0] == all[j].1);
                assert(nodes[all[j].0].node_id.0 == all[j].0);
            }
        }
        out
    }

    /// Check cluster health based on node status.
    pub fn check_cluster_health(&self) -> (h: ClusterHealth)
        ensures
            h == spec_cluster_health(self.nodes()),
    {
        let entries = node_records_entries(&self.nodes);
        let ghost nodes = self.nodes();
        let mut total: usize = 0;
        let mut online: usize = 0;
        let mut i: usize = 0;
        while i < entries.len()
            invariant
                nodes == self.nodes(),
                i <= entries.len(),
                online <= total <= i,
                forall|j: int| #![trigger entries@[j]] 0 <= j < entries@.len() ==> nodes.contains_key(
                    entries@[j].0,
                ) && nodes[entries@[j].0] == entries@[j].1,
                (total == 0) <==> !exists|j: int| 0 <= j < i && (#[trigger] entries@[j]).1.node_mode
                    == NodeRole::Datanode,
                (online == total) <==> forall|j: int| 0 <= j < i && (#[trigger] entries@[j]).1.node_mode
                    == NodeRole::Datanode ==> entries@[j].1.status == NodeStatus::Online,
                (online > 0) <==> exists|j: int| 0 <= j < i && is_online_datanode((#[trigger] entries@[j]).1),
            decreases entries.len() - i,
        {
            let is_datanode = entries[i].1.node_mode == NodeRole::Datanode;
            let is_online = entries[i].1.status == NodeStatus::Online;
            if is_datanode {
                total = total + 1;
                if is_online {
                    online = online + 1;
                }
            }
            i = i + 1;
            proof {
                let e = entries@[i - 1];
                if !is_datanode {
                    assert((exists|j: int| 0 <= j < i && (#[trigger] entries@[j]).1.node_mode == NodeRole::Datanode)
                        == (exists|j: int| 0 <= j < i - 1 && (#[trigger] entries@[j]).1.node_mode == NodeRole::Datanode));
                    assert((forall|j: int| 0 <= j < i && (#[trigger] entries@[j]).1.node_mode
                        == NodeRole::Datanode ==> entries@[j].1.status == NodeStatus::Online)
                        == (forall|j: int| 0 <= j < i - 1 && (#[trigger] entries@[j]).1.node_mode
                        == NodeRole::Datanode ==> entries@[j].1.status == NodeStatus::Online));
                    assert((exists|j: int| 0 <= j < i && is_online_datanode((#[trigger] entries@[j]).1))
                        == (exists|j: int| 0 <= j < i - 1 && is_online_datanode((#[trigger] entries@[j]).1)));
                } else if is_online {
                    assert(entries@[i - 1].1.node_mode == NodeRole::Datanode);
                    assert(is_online_datanode(entries@[i - 1].1));
                    assert((forall|j: int| 0 <= j < i && (#[trigger] entries@[j]).1.node_mode
                        == NodeRole::Datanode ==> entries@[j].1.status == NodeStatus::Online)
                        == (forall|j: int| 0 <= j < i - 1 && (#[trigger] entries@[j]).1.node_mode
                        == NodeRole::Datanode ==> entries@[j].1.status == NodeStatus::Online));
                } else {
                    assert(entries@[i - 1].1.node_mode == NodeRole::Datanode);
                    assert(!is_online_datanode(entries@[i - 1].1));
                    assert((exists|j: int| 0 <= j < i && is_online_datanode((#[trigger] entries@[j]).1))
                        == (exists|j: int| 0 <= j < i - 1 && is_online_datanode((#[trigger] entries@[j]).1)));
                }
            }
        }
        proof {
            assert((exists|k: u64| #[trigger] nodes.contains_key(k) && nodes[k].node_mode == NodeRole::Datanode)
                == (exists|j: int| 0 <= j < entries@.len() && (#[trigger] entries@[j]).1.node_mode == NodeRole::Datanode)) by {
                if exists|k: u64| #[trigger] nodes.contains_key(k) && nodes[k].node_mode == NodeRole::Datanode {
                    let k = choose|k: u64| #[trigger] nodes.contains_key(k) && nodes[k].node_mode == NodeRole::Datanode;
                    let j = choose|j: int| 0 <= j < entries@.len() && #[trigger] entries@[j].0 == k;
                    assert(entries@[j].1.node_mode == NodeRole::Datanode);
                }
            }
            assert((forall|k: u64| #[trigger] nodes.contains_key(k) && nodes[k].node_mode == NodeRole::Datanode
                ==> nodes[k].status == NodeStatus::Online)
                == (forall|j: int| 0 <= j < entries@.len() && (#[trigger] entries@[j]).1.node_mode
                == NodeRole::Datanode ==> entries@[j].1.status == NodeStatus::Online)) by {
                if forall|j: int| 0 <= j < entries@.len() && (#[trigger] entries@[j]).1.node_mode
                    == NodeRole::Datanode ==> entries@[j].1.status == NodeStatus::Online {
                    assert forall|k: u64| #[trigger] nodes.contains_key(k) && nodes[k].node_mode == NodeRole::Datanode
                        implies nodes[k].status == NodeStatus::Online by {
                        let j = choose|j: int| 0 <= j < entries@.len() && #[trigger] entries@[j].0 == k;
                    }
                }
            }
            assert((exists|k: u64| #[trigger] nodes.contains_key(k) && is_online_datanode(nodes[k]))
                == (exists|j: int| 0 <= j < entries@.len() && is_online_datanode((#[trigger] entries@[j]).1))) by {
                if exists|k: u64| #[trigger] nodes.contains_key(k) && is_online_datanode(nodes[k]) {
                    let k = choose|k: u64| #[trigger] nodes.contains_key(k) && is_online_datanode(nodes[k]);
                    let j = choose|j: int| 0 <= j < entries@.len() && #[trigger] entries@[j].0 == k;
                    assert(is_online_datanode(entries@[j].1));
                }
            }
        }
        if total == 0 {
            return ClusterHealth::Critical;
        }
        if online == total {
            ClusterHealth::Healthy
        } else if online > 0 {
            ClusterHealth::Degraded
        } else {
            ClusterHealth::Critical
        }
    }
}

impl MetaServer {
    /// Get all regions for a table.
    pub fn get_table_regions(&self, database: &str, table: &str) -> (res: Result<Vec<RegionInfo>>)
        requires
            self.wf(),
        ensures
            self.regions().tables().contains_key(table_key(database@, table@)) ==> (res matches Ok(v)
                && v@ == lookup_all(
                self.regions().records(),
                self.regions().tables()[table_key(database@, table@)],
            )),
            !self.regions().tables().contains_key(table_key(database@, table@)) ==> (res matches Err(
                DistributedError::TableNotFound { database: d, table: t },
            ) && d@ == database@ && t@ == table@),
    {
        self.region_manager.get_table_regions(database, table)
    }

    /// Get all regions of a database: each recorded region of one of its
    /// tables, once; the order follows the region map and is not stated.
    pub fn get_database_regions(&self, database: &str) -> (res: Result<Vec<RegionInfo>>)
        requires
            self.wf(),
        ensures
            res matches Ok(out) && (forall|m: int| #![trigger out@[m]] 0 <= m < out@.len() ==> {
                &&& self.regions().records().contains_key(out@[m].region_id.0)
                &&& self.regions().records()[out@[m].region_id.0] == out@[m]
                &&& in_database(region_key(out@[m]), database@)
            }) && (forall|id: u64| #[trigger] self.regions().records().contains_key(id) && in_database(
                region_key(self.regions().records()[id]),
                database@,
            ) ==> exists|m: int| 0 <= m < out@.len() && #[trigger] out@[m].region_id.0 == id) && (forall|
                a: int,
                b: int,
            | 0 <= a < b < out@.len() ==> out@[a].region_id != out@[b].region_id),
    {
        Ok(self.region_manager.get_database_regions(database))
    }

    /// Get a node by id.
    pub fn get_node(&self, node_id: NodeId) -> (res: Result<NodeInfo>)
        ensures
            self.nodes().contains_key(node_id.0) ==> res == Ok::<NodeInfo, DistributedError>(
                self.nodes()[node_id.0],
            ),
            !self.nodes().contains_key(node_id.0) ==> res == Err::<NodeInfo, DistributedError>(
                DistributedError::NodeNotFound { node_id: node_id.0 },
            ),
    {
        match node_records_get(&self.nodes, node_id.0) {
            Some(n) => Ok(n),
            None => Err(DistributedError::NodeNotFound { node_id: node_id.get() }),
        }
    }

    /// Get all registered nodes, each once, in an order that is not stated.
    pub fn get_all_nodes(&self) -> (res: Result<Vec<NodeInfo>>)
        requires
            self.wf(),
        ensures
            res matches Ok(out) && {
                &&& forall|m: int| 0 <= m < out@.len() ==> self.nodes().contains_key(
                    #[trigger] out@[m].node_id.0,
                ) && self.nodes()[out@[m].node_id.0] == out@[m]
                &&& forall|k: u64| #[trigger] self.nodes().contains_key(k) ==> node_ids_of(
                    out@,
                ).contains(NodeId(k))
                &&& node_ids_of(out@).no_duplicates()
            },
    {
        Ok(self.collect_nodes(false))
    }

    /// Get the online datanodes, each once, in an order that is not stated.
    pub fn get_online_datanodes(&self) -> (res: Result<Vec<NodeInfo>>)
        requires
            self.wf(),
        ensures
            res matches Ok(out) && {
                &&& forall|m: int| 0 <= m < out@.len() ==> self.nodes().contains_key(
                    #[trigger] out@[m].node_id.0,
                ) && self.nodes()[out@[m].node_id.0] == out@[m] && is_online_datanode(out@[m])
                &&& forall|k: u64| #[trigger] self.nodes().contains_key(k) && is_online_datanode(
                    self.nodes()[k],
                ) ==> node_ids_of(out@).contains(NodeId(k))
                &&& node_ids_of(out@).no_duplicates()
            },
    {
        Ok(self.collect_nodes(true))
    }

    /// Register a datanode, stamping it with the current time `now_ms`.
    ///
    /// A node without an id (id 0) gets the next free one. Registering an id
    /// twice is refused.
    pub fn register_datanode(&mut self, node_info: NodeInfo, now_ms: i64) -> (res: Result<
        RegisterDatanodeResponse,
    >)
        requires
            old(self).wf(),
        ensures
            final(self).wf(),
            final(self).regions() == old(self).regions(),
            final(self).spec_cluster_name() == old(self).spec_cluster_name(),
            final(self).default_regions() == old(self).default_regions(),
            ({
                let auto = node_info.node_id.0 == 0;
                let id = if auto {
                    old(self).spec_next_node_id()
                } else {
                    node_info.node_id.0
                };
                &&& final(self).spec_next_node_id() == (if auto {
                    next_after(old(self).spec_next_node_id())
                } else {
                    old(self).spec_next_node_id()
                })
                &&& old(self).nodes().contains_key(id) ==> res == Err::<RegisterDatanodeResponse, DistributedError>(
                    DistributedError::NodeAlreadyRegistered { node_id: id },
                ) && final(self).nodes() == old(self).nodes()
                &&& !old(self).nodes().contains_key(id) ==> (res matches Ok(resp) && resp.success
                    && resp.node_id == NodeId(id) && resp.assigned_regions@.len() == 0
                    && resp.error_message is None && final(self).nodes() == old(self).nodes().insert(
                    id,
                    registered(node_info, id, now_ms),
                ))
            }),
    {
        let mut node_info = node_info;
        if node_info.node_id.get() == 0 {
            node_info.node_id = self.next_node_id();
        }
        let node_id = node_info.node_id;
        if node_records_contains(&self.nodes, node_id.0) {
            return Err(DistributedError::NodeAlreadyRegistered { node_id: node_id.get() });
        }
        node_info.status = NodeStatus::Online;
        node_info.last_heartbeat_ms = now_ms;
        node_records_insert(&mut self.nodes, node_id.0, node_info);
        Ok(
            RegisterDatanodeResponse {
                success: true,
                node_id,
                assigned_regions: Vec::new(),
                error_message: None,
            },
        )
    }

    /// Record a heartbeat of a node at the current time `now_ms`.
    pub fn heartbeat(&mut self, request: HeartbeatRequest, now_ms: i64) -> (res: Result<HeartbeatResponse>)
        requires
            old(self).wf(),
        ensures
            final(self).wf(),
            final(self).regions() == old(self).regions(),
            final(self).spec_next_node_id() == old(self).spec_next_node_id(),
            final(self).spec_cluster_name() == old(self).spec_cluster_name(),
            final(self).default_regions() == old(self).default_regions(),
            !old(self).nodes().contains_key(request.node_id.0) ==> res == Err::<HeartbeatResponse, DistributedError>(
                DistributedError::NodeNotFound { node_id: request.node_id.0 },
            ) && final(self).nodes() == old(self).nodes(),
            old(self).nodes().contains_key(request.node_id.0) ==> (res matches Ok(resp) && resp.success
                && resp.regions_to_add@.len() == 0 && resp.regions_to_remove@.len() == 0
                && resp.message is None && final(self).nodes() == old(self).nodes().insert(
                request.node_id.0,
                after_heartbeat(old(self).nodes()[request.node_id.0], request, now_ms),
            )),
    {
        let node_id = request.node_id;
        let mut node = match node_records_get(&self.nodes, node_id.0) {
            Some(n) => n,
            None => {
                return Err(DistributedError::NodeNotFound { node_id: node_id.get() });
            },
        };
        node.last_heartbeat_ms = now_ms;
        node.status = request.status;
        node.regions = request.regions;
        node_records_insert(&mut self.nodes, node_id.0, node);
        Ok(
            HeartbeatResponse {
                success: true,
                regions_to_add: Vec::new(),
                regions_to_remove: Vec::new(),
                message: None,
            },
        )
    }

    /// Cluster name, all nodes, the number of regions and the health.
    pub fn get_cluster_info(&self) -> (res: Result<GetClusterInfoResponse>)
        requires
            self.wf(),
        ensures
            res matches Ok(info) && {
                &&& info.cluster_name@ == self.spec_cluster_name()
                &&& info.total_regions == self.regions().records().len()
                &&& info.health == spec_cluster_health(self.nodes())
                &&& forall|m: int| 0 <= m < info.nodes@.len() ==> self.nodes().contains_key(
                    #[trigger] info.nodes@[m].node_id.0,
                ) && self.nodes()[info.nodes@[m].node_id.0] == info.nodes@[m]
                &&& forall|k: u64| #[trigger] self.nodes().contains_key(k) ==> node_ids_of(
                    info.nodes@,
                ).contains(NodeId(k))
                &&& node_ids_of(info.nodes@).no_duplicates()
            },
    {
        let nodes = self.collect_nodes(false);
        let total_regions = self.region_manager.total_regions() as u64;
        let health = self.check_cluster_health();
        Ok(
            GetClusterInfoResponse {
                cluster_name: self.cluster_name.clone(),
                nodes,
                total_regions,
                health,
            },
        )
    }

    /// Create a table, spreading its regions over the online datanodes.
    ///
    /// Without an online datanode, or when the table exists, the answer says
    /// so and nothing changes. The order in which the datanodes take turns
    /// follows the node map and is not stated.
    pub fn create_table(&mut self, request: CreateTableRequest) -> (res: Result<CreateTableResponse>)
        requires
            old(self).wf(),
            ({
                let count = effective_region_count(
                    (if request.num_regions == 0 {
                        old(self).default_regions() as u32
                    } else {
                        request.num_regions
                    }) as usize,
                    old(self).regions().spec_config(),
                );
                let has_online = exists|k: u64| #[trigger] old(self).nodes().contains_key(k)
                    && is_online_datanode(old(self).nodes()[k]);
                has_online && !old(self).regions().tables().contains_key(
                    table_key(request.database@, request.table@),
                ) ==> count <= u16::MAX && old(self).regions().next_id() + count <= u64::MAX
            }),
        ensures
            final(self).wf(),
            final(self).nodes() == old(self).nodes(),
            final(self).spec_next_node_id() == old(self).spec_next_node_id(),
            final(self).spec_cluster_name() == old(self).spec_cluster_name(),
            final(self).default_regions() == old(self).default_regions(),
            res matches Ok(resp) && {
                let key = table_key(request.database@, request.table@);
                let has_online = exists|k: u64| #[trigger] old(self).nodes().contains_key(k)
                    && is_online_datanode(old(self).nodes()[k]);
                let count = effective_region_count(
                    (if request.num_regions == 0 {
                        old(self).default_regions() as u32
                    } else {
                        request.num_regions
                    }) as usize,
                    old(self).regions().spec_config(),
                );
                &&& !has_online ==> !resp.success && resp.regions@.len() == 0
                    && (resp.error_message matches Some(m) && m@ == "No online datanodes available"@)
                    && final(self).regions() == old(self).regions()
                &&& has_online && old(self).regions().tables().contains_key(key) ==> !resp.success
                    && resp.regions@.len() == 0 && (resp.error_message matches Some(m) && m@
                    == "Invalid request: "@ + table_has_regions_message(request.database@, request.table@))
                    && final(self).regions() == old(self).regions()
                &&& has_online && !old(self).regions().tables().contains_key(key) ==> {
                    &&& resp.success
                    &&& resp.error_message is None
                    &&& resp.regions@.len() == count
                    &&& final(self).regions().tables().contains_key(key)
                    &&& final(self).regions().next_id() == old(self).regions().next_id() + count
                    &&& forall|j: int| 0 <= j < count ==> {
                        let r = #[trigger] resp.regions@[j];
                        &&& r.region_id.0 == old(self).regions().next_id() + j
                        &&& r.database@ == request.database@
                        &&& r.table@ == request.table@
                        &&& old(self).nodes().contains_key(r.node_id.0)
                        &&& is_online_datanode(old(self).nodes()[r.node_id.0])
                    }
                }
            },
    {
        let available_nodes = self.get_online_datanode_ids();
        if available_nodes.len() == 0 {
            proof {
                reveal_strlit("No online datanodes available");
                if exists|k: u64| #[trigger] self.nodes().contains_key(k) && is_online_datanode(self.nodes()[k]) {
                    let k = choose|k: u64| #[trigger] self.nodes().contains_key(k) && is_online_datanode(self.nodes()[k]);
                    assert(available_nodes@.contains(NodeId(k)));
                }
            }
            return Ok(
                CreateTableResponse {
                    success: false,
                    regions: Vec::new(),
                    error_message: Some(String::from_str("No online datanodes available")),
                },
            );
        }
        proof {
            let k = available_nodes@[0].0;
            assert(self.nodes().contains_key(k) && is_online_datanode(self.nodes()[k]));
        }
        let num_regions: u32 = if request.num_regions == 0 {
            self.config.default_num_regions as u32
        } else {
            request.num_regions
        };
        let ghost old_rm = self.region_manager;
        match self.region_manager.create_table_regions(
            request.database.as_str(),
            request.table.as_str(),
            num_regions as usize,
            available_nodes.as_slice(),
        ) {
            Ok(regions) => {
                proof {
                    assert forall|j: int| 0 <= j < regions@.len() implies {
                        let r = #[trigger] regions@[j];
                        &&& self.nodes().contains_key(r.node_id.0)
                        &&& is_online_datanode(self.nodes()[r.node_id.0])
                    } by {
                        let n = available_nodes@.len() as int;
                        assert(0 <= j % n < n);
                    }
                }
                Ok(CreateTableResponse { success: true, regions, error_message: None })
            },
            Err(e) => Ok(
                CreateTableResponse {
                    success: false,
                    regions: Vec::new(),
                    error_message: Some(e.to_display_string()),
                },
            ),
        }
    }

    /// Where the regions of a table are.
    pub fn get_table_location(&self, database: &str, table: &str) -> (res: Result<TableLocation>)
        requires
            self.wf(),
        ensures
            self.regions().tables().contains_key(table_key(database@, table@)) ==> (res matches Ok(loc)
                && loc.database@ == database@ && loc.table@ == table@ && loc.regions@ == lookup_all(
                self.regions().records(),
                self.regions().tables()[table_key(database@, table@)],
            )),
            !self.regions().tables().contains_key(table_key(database@, table@)) ==> (res matches Err(
                DistributedError::TableNotFound { database: d, table: t },
            ) && d@ == database@ && t@ == table@),
    {
        let regions = self.region_manager.get_table_regions(database, table)?;
        Ok(
            TableLocation {
                database: String::from_str(database),
                table: String::from_str(table),
                regions,
            },
        )
    }

    /// Set the status of a node.
    pub fn update_node_status(&mut self, node_id: NodeId, status: NodeStatus) -> (res: Result<()>)
        requires
            old(self).wf(),
        ensures
            final(self).wf(),
            final(self).regions() == old(self).regions(),
            final(self).spec_next_node_id() == old(self).spec_next_node_id(),
            final(self).spec_cluster_name() == old(self).spec_cluster_name(),
            final(self).default_regions() == old(self).default_regions(),
            !old(self).nodes().contains_key(node_id.0) ==> res == Err::<(), DistributedError>(
                DistributedError::NodeNotFound { node_id: node_id.0 },
            ) && final(self).nodes() == old(self).nodes(),
            old(self).nodes().contains_key(node_id.0) ==> res is Ok && final(self).nodes()
                == old(self).nodes().insert(
                node_id.0,
                NodeInfo { status, ..old(self).nodes()[node_id.0] },
            ),
    {
        let mut node = match node_records_get(&self.nodes, node_id.0) {
            Some(n) => n,
            None => {
                return Err(DistributedError::NodeNotFound { node_id: node_id.get() });
            },
        };
        node.status = status;
        node_records_insert(&mut self.nodes, node_id.0, node);
        Ok(())
    }

    /// Move a region to a registered node.
    pub fn assign_region(&mut self, region_id: RegionId, node_id: NodeId) -> (res: Result<()>)
        requires
            old(self).wf(),
            old(self).regions().records().contains_key(region_id.0) ==> old(self).regions().records()[region_id.0].epoch
                < u64::MAX,
        ensures
            final(self).wf(),
            final(self).nodes() == old(self).nodes(),
            final(self).spec_next_node_id() == old(self).spec_next_node_id(),
            final(self).spec_cluster_name() == old(self).spec_cluster_name(),
            final(self).default_regions() == old(self).default_regions(),
            !old(self).nodes().contains_key(node_id.0) ==> res == Err::<(), DistributedError>(
                DistributedError::NodeNotFound { node_id: node_id.0 },
            ) && final(self).regions() == old(self).regions(),
            old(self).nodes().contains_key(node_id.0) && !old(self).regions().records().contains_key(
                region_id.0,
            ) ==> res == Err::<(), DistributedError>(
                DistributedError::RegionNotFound { region_id: region_id.0 },
            ) && final(self).regions() == old(self).regions(),
            old(self).nodes().contains_key(node_id.0) && old(self).regions().records().contains_key(
                region_id.0,
            ) ==> {
                let r = old(self).regions().records()[region_id.0];
                &&& res is Ok
                &&& final(self).regions().records() == old(self).regions().records().insert(
                    region_id.0,
                    reassigned(r, node_id),
                )
                &&& final(self).regions().hosted() == hosted_after_assign(
                    old(self).regions().hosted(),
                    region_id,
                    r.node_id.0,
                    node_id.0,
                )
                &&& final(self).regions().tables() == old(self).regions().tables()
            },
    {
        if !node_records_contains(&self.nodes, node_id.0) {
            return Err(DistributedError::NodeNotFound { node_id: node_id.get() });
        }
        self.region_manager.assign_region(region_id, node_id)?;
        Ok(())
    }

    /// Get a region by id.
    pub fn get_region(&self, region_id: RegionId) -> (res: Result<RegionInfo>)
        ensures
            self.regions().records().contains_key(region_id.0) ==> res == Ok::<RegionInfo, DistributedError>(
                self.regions().records()[region_id.0],
            ),
            !self.regions().records().contains_key(region_id.0) ==> res == Err::<RegionInfo, DistributedError>(
                DistributedError::RegionNotFound { region_id: region_id.0 },
            ),
    {
        self.region_manager.get_region(region_id)
    }
}


/// A registered node reads back online, under its id, stamped with the
/// registration time, its address and role as given; the other nodes read
/// as before.
pub proof fn law_register_then_get(nodes: Map<u64, NodeInfo>, info: NodeInfo, id: u64, now_ms: i64, other: u64)
    ensures
        ({
            let after = nodes.insert(id, registered(info, id, now_ms));
            &&& after.contains_key(id)
            &&& after[id].node_id == NodeId(id)
            &&& after[id].status == NodeStatus::Online
            &&& after[id].last_heartbeat_ms == now_ms
            &&& after[id].grpc_addr == info.grpc_addr
            &&& after[id].node_mode == info.node_mode
            &&& (other != id ==> after.contains_key(other) == nodes.contains_key(other))
            &&& (other != id && nodes.contains_key(other) ==> after[other] == nodes[other])
        }),
{
}

/// A heartbeat is what a node reads back as afterwards: the status and
/// regions it reported, stamped with the time it arrived.
pub proof fn law_heartbeat_then_get(nodes: Map<u64, NodeInfo>, request: HeartbeatRequest, now_ms: i64)
    requires
        nodes.contains_key(request.node_id.0),
    ensures
        ({
            let after = nodes.insert(request.node_id.0, after_heartbeat(nodes[request.node_id.0], request, now_ms));
            &&& after[request.node_id.0].status == request.status
            &&& after[request.node_id.0].regions == request.regions
            &&& after[request.node_id.0].last_heartbeat_ms == now_ms
            &&& after[request.node_id.0].node_id == nodes[request.node_id.0].node_id
            &&& after.dom() == nodes.dom()
        }),
{
    let after = nodes.insert(request.node_id.0, after_heartbeat(nodes[request.node_id.0], request, now_ms));
    assert(after.dom() =~= nodes.dom());
}

/// A cluster with an online datanode is not critical; a cluster whose
/// datanodes are all online, and which has one, is healthy.
pub proof fn law_cluster_health(nodes: Map<u64, NodeInfo>, k: u64)
    requires
        nodes.contains_key(k),
        is_online_datanode(nodes[k]),
    ensures
        spec_cluster_health(nodes) != ClusterHealth::Critical,
        (forall|j: u64| #[trigger] nodes.contains_key(j) && nodes[j].node_mode == NodeRole::Datanode
            ==> nodes[j].status == NodeStatus::Online) ==> spec_cluster_health(nodes) == ClusterHealth::Healthy,
{
}

} // verus!
