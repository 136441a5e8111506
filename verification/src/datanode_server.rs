//! The region bookkeeping of a datanode: the regions it serves, by id, kept
//! in step with the regions its local executor manages.

use vstd::prelude::*;
use std::collections::HashMap;
use crate::config::DatanodeConfig;
use crate::ids::{NodeId, RegionId};
use crate::local_executor::{LocalExecutor, without_region};
use crate::node::{NodeInfo, NodeRole, NodeStatus};
use crate::error::{DistributedError, Result};
use crate::proto::{ExecutePlanRequest, GetRegionStatusResponse, HeartbeatRequest, WriteRequest, WriteResponse};
use crate::region::RegionInfo;

verus! {

broadcast use vstd::std_specs::hash::group_hash_axioms;

/// The state of a datanode that its services read and change: its
/// configuration, the regions it serves, and its local executor.
#[derive(Debug)]
pub struct DatanodeServer {
    config: DatanodeConfig,
    node_id: NodeId,
    executor: LocalExecutor,
    regions: HashMap<u64, RegionInfo>,
}

impl DatanodeServer {
    /// The node's id.
    pub closed spec fn spec_node_id(&self) -> NodeId {
        self.node_id
    }

    /// The configuration the node was made with.
    pub closed spec fn spec_config(&self) -> DatanodeConfig {
        self.config
    }

    /// The regions the node serves, by id.
    pub closed spec fn region_map(&self) -> Map<u64, RegionInfo> {
        self.regions@
    }

    /// The executor's regions, in the order they were added.
    pub closed spec fn executor_regions(&self) -> Seq<RegionId> {
        self.executor.regions()
    }

    /// The region map and the executor agree: the executor manages a region
    /// exactly when the map holds it, each record under its own id.
    pub closed spec fn wf(&self) -> bool {
        &&& self.executor.wf()
        &&& self.executor.spec_node_id() == self.node_id
        &&& forall|id: u64| #[trigger] self.regions@.contains_key(id) <==> self.executor.regions().contains(RegionId(id))
        &&& forall|id: u64| #[trigger] self.regions@.contains_key(id) ==> self.regions@[id].region_id.0 == id
    }

    /// A datanode that serves no region yet.
    pub fn new(config: DatanodeConfig) -> (s: Self)
        ensures
            s.wf(),
            s.spec_node_id() == NodeId(config.node_id),
            s.spec_config() == config,
            s.region_map() == Map::<u64, RegionInfo>::empty(),
    {
        let node_id = NodeId::new(config.node_id);
        let s = DatanodeServer { config, node_id, executor: LocalExecutor::new(node_id), regions: HashMap::new() };
        assert(s.regions@ =~= Map::<u64, RegionInfo>::empty());
        s
    }

    /// Get the node ID.
    pub fn node_id(&self) -> (n: NodeId)
        ensures
            n == self.spec_node_id(),
    {
        self.node_id
    }

    /// Get the gRPC address.
    pub fn grpc_addr(&self) -> (a: String)
        ensures
            a@ == self.spec_config().grpc_addr@,
    {
        self.config.grpc_addr.clone()
    }

    /// The node as the metadata service knows it: a datanode at the gRPC
    /// address, serving the regions the map holds.
    pub fn node_info(&self) -> (info: NodeInfo)
        requires
            self.wf(),
        ensures
            info.node_id == self.spec_node_id(),
            info.grpc_addr@ == self.spec_config().grpc_addr@,
            info.node_mode == NodeRole::Datanode,
            info.status == NodeStatus::Starting,
            info.regions@ == self.executor_regions(),
            forall|id: u64| #[trigger] self.region_map().contains_key(id) <==> info.regions@.contains(RegionId(id)),
    {
        let regions = self.executor.get_managed_regions();
        NodeInfo::new(self.node_id, self.config.grpc_addr.clone(), NodeRole::Datanode).with_regions(regions)
    }

    /// Add a region to this datanode; a region with the same id is replaced.
    pub fn add_region(&mut self, region: RegionInfo)
        requires
            old(self).wf(),
        ensures
            final(self).wf(),
            final(self).spec_node_id() == old(self).spec_node_id(),
            final(self).spec_config() == old(self).spec_config(),
            final(self).region_map() == old(self).region_map().insert(region.region_id.0, region),
    {
        let region_id = region.region_id;
        self.regions.insert(region_id.0, region);
        self.executor.add_region(region_id);
        proof {
            assert forall|id: u64| #[trigger] self.regions@.contains_key(id) <==> self.executor.regions().contains(
                RegionId(id),
            ) by {
                if id == region_id.0 {
                    assert(self.executor.regions().contains(region_id)) by {
                        if !old(self).executor_regions().contains(region_id) {
                            assert(self.executor.regions()[self.executor.regions().len() - 1] == region_id);
                        }
                    }
                } else {
                    if !old(self).executor_regions().contains(region_id) {
                        assert(self.executor.regions() == old(self).executor_regions().push(region_id));
                        if self.executor.regions().contains(RegionId(id)) {
                            let k = choose|k: int| 0 <= k < self.executor.regions().len() && self.executor.regions()[k]
                                == RegionId(id);
                            assert(old(self).executor_regions()[k] == RegionId(id));
                        }
                        if old(self).executor_regions().contains(RegionId(id)) {
                            let k = choose|k: int| 0 <= k < old(self).executor_regions().len()
                                && old(self).executor_regions()[k] == RegionId(id);
                            assert(self.executor.regions()[k] == RegionId(id));
                        }
                    }
                }
            }
        }
    }

    /// Remove a region from this datanode, if it serves it.
    pub fn remove_region(&mut self, region_id: RegionId)
        requires
            old(self).wf(),
        ensures
            final(self).wf(),
            final(self).spec_node_id() == old(self).spec_node_id(),
            final(self).spec_config() == old(self).spec_config(),
            final(self).region_map() == old(self).region_map().remove(region_id.0),
    {
        self.regions.remove(&region_id.0);
        self.executor.remove_region(region_id);
        proof {
            assert forall|id: u64| #[trigger] self.regions@.contains_key(id) <==> self.executor.regions().contains(
                RegionId(id),
            ) by {
                let s = old(self).executor_regions();
                let f = without_region(s, region_id);
                assert(self.executor.regions() == f);
                if f.contains(RegionId(id)) {
                    let k = choose|k: int| 0 <= k < f.len() && f[k] == RegionId(id);
                    s.lemma_filter_pred(crate::local_executor::other_than(region_id), k);
                    s.lemma_filter_contains_rev(crate::local_executor::other_than(region_id), RegionId(id));
                }
                if id != region_id.0 && s.contains(RegionId(id)) {
                    let k = choose|k: int| 0 <= k < s.len() && s[k] == RegionId(id);
                    s.lemma_filter_contains(crate::local_executor::other_than(region_id), k);
                }
            }
        }
    }

    /// Check if this datanode has a region.
    pub fn has_region(&self, region_id: RegionId) -> (b: bool)
        ensures
            b == self.region_map().contains_key(region_id.0),
    {
        self.regions.contains_key(&region_id.0)
    }

    /// Get all managed regions, in the order they were added.
    pub fn get_managed_regions(&self) -> (v: Vec<RegionInfo>)
        requires
            self.wf(),
        ensures
            v@.len() == self.executor_regions().len(),
            forall|k: int| #![trigger v@[k]] 0 <= k < v@.len() ==> v@[k] == self.region_map()[self.executor_regions()[k].0],
            forall|id: u64| #[trigger] self.region_map().contains_key(id) ==> exists|k: int|
                0 <= k < v@.len() && #[trigger] v@[k].region_id.0 == id,
    {
        let ids = self.executor.get_managed_regions();
        let mut out: Vec<RegionInfo> = Vec::new();
        let mut i: usize = 0;
        while i < ids.len()
            invariant
                self.wf(),
                ids@ == self.executor_regions(),
                i <= ids@.len(),
                out@.len() == i,
                forall|k: int| #![trigger out@[k]] 0 <= k < i ==> out@[k] == self.region_map()[ids@[k].0],
            decreases ids.len() - i,
        {
            let id = ids[i];
            assert(self.executor_regions().contains(id)) by {
                assert(self.executor_regions()[i as int] == id);
            }
            assert(self.regions@.contains_key(id.0));
            match self.regions.get(&id.0) {
                Some(r) => out.push(r.copy()),
                None => {},
            }
            i = i + 1;
        }
        proof {
            assert forall|id: u64| #[trigger] self.region_map().contains_key(id) implies exists|k: int|
                0 <= k < out@.len() && #[trigger] out@[k].region_id.0 == id by {
                assert(self.executor_regions().contains(RegionId(id)));
                let k = choose|k: int| 0 <= k < ids@.len() && ids@[k] == RegionId(id);
                assert(out@[k] == self.region_map()[id]);
            }
        }
        out
    }

    /// Get region count.
    pub fn region_count(&self) -> (n: usize)
        ensures
            n == self.region_map().len(),
    {
        self.regions.len()
    }

    /// Runs a serialized physical plan on a region. Running plans is not
    /// supported yet: a region the node does not serve is reported as not
    /// found, any other request as unsupported.
    pub fn execute_plan(&self, request: &ExecutePlanRequest) -> (r: Result<()>)
        ensures
            !self.region_map().contains_key(request.region_id.0) ==> r == Err::<(), DistributedError>(
                DistributedError::RegionNotFound { region_id: request.region_id.0 },
            ),
            self.region_map().contains_key(request.region_id.0) ==> (r matches Err(
                DistributedError::UnsupportedOperation(m),
            ) && m@ == "Physical plan execution not yet implemented. Use SQL query instead."@),
    {
        if !self.has_region(request.region_id) {
            return Err(DistributedError::RegionNotFound { region_id: request.region_id.get() });
        }
        Err(DistributedError::UnsupportedOperation(
            String::from_str("Physical plan execution not yet implemented. Use SQL query instead."),
        ))
    }

    /// Writes a batch to a region. Direct writes are not supported yet: a
    /// region the node does not serve is reported as not found, any other
    /// request as unsupported.
    pub fn write(&self, request: &WriteRequest) -> (r: Result<WriteResponse>)
        ensures
            !self.region_map().contains_key(request.region_id.0) ==> r == Err::<WriteResponse, DistributedError>(
                DistributedError::RegionNotFound { region_id: request.region_id.0 },
            ),
            self.region_map().contains_key(request.region_id.0) ==> (r matches Err(
                DistributedError::UnsupportedOperation(m),
            ) && m@ == "Direct write to region not yet implemented. Use Line Protocol API."@),
    {
        if !self.has_region(request.region_id) {
            return Err(DistributedError::RegionNotFound { region_id: request.region_id.get() });
        }
        Err(DistributedError::UnsupportedOperation(
            String::from_str("Direct write to region not yet implemented. Use Line Protocol API."),
        ))
    }

    /// The status of a region the node serves; the row count, size and last
    /// write time are not tracked and read as zero, zero and none.
    pub fn get_region_status(&self, region_id: RegionId) -> (r: Result<GetRegionStatusResponse>)
        ensures
            !self.region_map().contains_key(region_id.0) ==> r == Err::<GetRegionStatusResponse, DistributedError>(
                DistributedError::RegionNotFound { region_id: region_id.0 },
            ),
            self.region_map().contains_key(region_id.0) ==> r == Ok::<GetRegionStatusResponse, DistributedError>(
                GetRegionStatusResponse {
                    region_id,
                    status: self.region_map()[region_id.0].status,
                    row_count: 0,
                    size_bytes: 0,
                    last_write_time: None,
                },
            ),
    {
        match self.regions.get(&region_id.0) {
            Some(region) => Ok(
                GetRegionStatusResponse {
                    region_id,
                    status: region.status,
                    row_count: 0,
                    size_bytes: 0,
                    last_write_time: None,
                },
            ),
            None => Err(DistributedError::RegionNotFound { region_id: region_id.get() }),
        }
    }

    /// The heartbeat this node sends: online, with the regions it serves.
    pub fn create_heartbeat_request(&self) -> (r: HeartbeatRequest)
        requires
            self.wf(),
        ensures
            r.node_id == self.spec_node_id(),
            r.status == NodeStatus::Online,
            r.regions@ == self.executor_regions(),
    {
        HeartbeatRequest {
            node_id: self.node_id,
            status: NodeStatus::Online,
            regions: self.executor.get_managed_regions(),
        }
    }
}

} // verus!
