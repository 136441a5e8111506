//! Distributed query planner.
//!
//! Decides whether a plan runs locally, is forwarded whole to the single
//! node that holds all its data, or is split into stages: scans on the
//! datanodes, a merge, and a final step on the frontend. The program fetches
//! the regions of the plan's tables and hands them in.

use vstd::prelude::*;
use std::sync::Arc;
use crate::decimal::str_to_chars;
use crate::error::{DistributedError, Result};
use crate::ids::{NodeId, RegionId};
use crate::node::{insert_sorted_unique, strictly_increasing};
use crate::plan::{PlanNode, collect_scanned_bare_tables, scanned_bare_tables};
use crate::region::RegionInfo;

verus! {

/// `a` comes before `b` in code point order.
pub open spec fn text_lt(a: Seq<char>, b: Seq<char>) -> bool
    decreases a.len(),
{
    if a.len() == 0 {
        b.len() > 0
    } else if b.len() == 0 {
        false
    } else if a[0] != b[0] {
        (a[0] as u32) < (b[0] as u32)
    } else {
        text_lt(a.drop_first(), b.drop_first())
    }
}

/// Compares two texts in code point order, which is the order of their
/// UTF-8 bytes.
fn text_less(a: &Vec<char>, b: &Vec<char>) -> (r: bool)
    ensures
        r == text_lt(a@, b@),
{
    let mut i: usize = 0;
    assert(a@.skip(0) =~= a@ && b@.skip(0) =~= b@);
    while i < a.len() && i < b.len() && a[i] == b[i]
        invariant
            i <= a.len(),
            i <= b.len(),
            text_lt(a@, b@) == text_lt(a@.skip(i as int), b@.skip(i as int)),
        decreases a.len() - i,
    {
        proof {
            assert(a@.skip(i as int).drop_first() =~= a@.skip(i + 1));
            assert(b@.skip(i as int).drop_first() =~= b@.skip(i + 1));
        }
        i = i + 1;
    }
    if i == a.len() {
        return i < b.len();
    }
    if i == b.len() {
        return false;
    }
    (a[i] as u32) < (b[i] as u32)
}

/// The texts of a list of strings are strictly increasing.
pub open spec fn texts_increasing(v: Seq<String>) -> bool {
    forall|i: int, j: int| 0 <= i < j < v.len() ==> text_lt(#[trigger] v[i]@, #[trigger] v[j]@)
}

/// Different characters have different code points.
proof fn lemma_char_code_injective(c: char, d: char)
    ensures
        c != d ==> (c as u32) != (d as u32),
{
}

/// Code point order is a strict order.
proof fn lemma_text_lt_order(a: Seq<char>, b: Seq<char>, c: Seq<char>)
    ensures
        !text_lt(a, a),
        text_lt(a, b) ==> !text_lt(b, a),
        text_lt(a, b) && text_lt(b, c) ==> text_lt(a, c),
        !text_lt(a, b) && !text_lt(b, a) ==> a == b,
    decreases a.len(),
{
    if a.len() > 0 && b.len() > 0 && c.len() > 0 {
        lemma_text_lt_order(a.drop_first(), b.drop_first(), c.drop_first());
    } else if a.len() > 0 && b.len() > 0 {
        lemma_text_lt_order(a.drop_first(), b.drop_first(), b.drop_first());
    } else if a.len() > 0 {
        lemma_text_lt_order(a.drop_first(), a.drop_first(), a.drop_first());
    }
    if a.len() > 0 && b.len() > 0 && a[0] == b[0] && !text_lt(a, b) && !text_lt(b, a) {
        assert(a.drop_first() == b.drop_first());
        assert(a =~= seq![a[0]] + a.drop_first());
        assert(b =~= seq![b[0]] + b.drop_first());
        assert(a =~= b);
    }
    if a.len() > 0 && b.len() > 0 && a[0] != b[0] {
        lemma_char_code_injective(a[0], b[0]);
    }
    if a.len() == 0 && b.len() == 0 {
        assert(a =~= b);
    }
}

/// Inserts a text into a strictly increasing list, keeping it so.
fn insert_text_sorted(v: &mut Vec<String>, s: String)
    requires
        texts_increasing(old(v)@),
    ensures
        texts_increasing(final(v)@),
        final(v)@.map_values(|x: String| x@).to_set() == old(v)@.map_values(|x: String| x@).to_set().insert(s@),
{
    let sc = str_to_chars(s.as_str());
    let mut i: usize = 0;
    while i < v.len() && text_less(&str_to_chars(v[i].as_str()), &sc)
        invariant
            i <= v.len(),
            sc@ == s@,
            forall|k: int| 0 <= k < i ==> text_lt(#[trigger] v@[k]@, s@),
        decreases v.len() - i,
    {
        i = i + 1;
    }
    let ghost before = v@;
    let ghost ts = before.map_values(|x: String| x@);
    if i < v.len() {
        let vc = str_to_chars(v[i].as_str());
        let same = !text_less(&sc, &vc) && !text_less(&vc, &sc);
        if same {
            proof {
                lemma_text_lt_order(s@, v@[i as int]@, s@);
                assert(ts[i as int] == s@);
                assert(ts.to_set().insert(s@) =~= ts.to_set());
            }
            return;
        }
        proof {
            lemma_text_lt_order(s@, v@[i as int]@, s@);
            assert(text_lt(s@, v@[i as int]@));
        }
    }
    v.insert(i, s);
    proof {
        let nv = v@;
        assert(nv =~= before.subrange(0, i as int).push(nv[i as int]) + before.subrange(i as int, before.len() as int));
        assert forall|a: int, b: int| 0 <= a < b < nv.len() implies text_lt(#[trigger] nv[a]@, #[trigger] nv[b]@) by {
            if b < i {
                assert(nv[a] == before[a] && nv[b] == before[b]);
            } else if b == i {
                assert(nv[a] == before[a]);
            } else if a < i {
                assert(nv[a] == before[a] && nv[b] == before[b - 1]);
                assert(text_lt(before[a]@, s@));
                if i < before.len() {
                    if b - 1 > i {
                        assert(text_lt(before[i as int]@, before[b - 1]@));
                        lemma_text_lt_order(s@, before[i as int]@, before[b - 1]@);
                    }
                    lemma_text_lt_order(before[a]@, s@, before[b - 1]@);
                }
            } else if a == i {
                assert(nv[b] == before[b - 1]);
                if b - 1 > i {
                    assert(text_lt(before[i as int]@, before[b - 1]@));
                    lemma_text_lt_order(s@, before[i as int]@, before[b - 1]@);
                }
            } else {
                assert(nv[a] == before[a - 1] && nv[b] == before[b - 1]);
            }
        }
        let nts = nv.map_values(|x: String| x@);
        assert forall|x: Seq<char>| nts.to_set().contains(x) <==> ts.to_set().insert(s@).contains(x) by {
            if nts.to_set().contains(x) {
                let k = choose|k: int| 0 <= k < nts.len() && nts[k] == x;
                if k < i {
                    assert(ts[k] == x);
                } else if k > i {
                    assert(ts[k - 1] == x);
                }
            }
            if ts.to_set().insert(s@).contains(x) && x != s@ {
                let k = choose|k: int| 0 <= k < ts.len() && ts[k] == x;
                if k < i {
                    assert(nts[k] == x);
                } else {
                    assert(nts[k + 1] == x);
                }
            }
            if x == s@ {
                assert(nts[i as int] == x);
            }
        }
        assert(nts.to_set() =~= ts.to_set().insert(s@));
    }
}

/// A scan task to be executed on a datanode.
#[derive(Debug, Clone)]
pub struct ScanTask {
    /// Table to scan
    pub table: String,
    /// Region to scan
    pub region_id: RegionId,
    /// Node that hosts this region
    pub node_id: NodeId,
}

/// An execution stage in a distributed plan.
#[derive(Debug, Clone)]
pub enum ExecutionStage {
    /// Scan stage - executed on each responsible datanode.
    Scan { tasks: Vec<ScanTask> },
    /// Merge stage - collects results from previous stage.
    Merge { input_stage: usize },
    /// Final stage - executes remaining operations on the frontend.
    Final { plan: PlanNode },
}

/// A distributed execution plan.
#[derive(Debug, Clone)]
pub enum DistributedPlan {
    /// Can be executed entirely locally (no table access).
    Local { plan: PlanNode },
    /// Can be forwarded to a single node.
    SingleNode { node_id: NodeId, plan: PlanNode },
    /// Requires distributed execution across multiple nodes.
    Distributed { stages: Vec<ExecutionStage>, table_regions: Vec<(String, Vec<RegionInfo>)> },
}

/// The regions of every listed table, table by table.
pub open spec fn flat_regions(tr: Seq<(String, Vec<RegionInfo>)>) -> Seq<RegionInfo>
    decreases tr.len(),
{
    if tr.len() == 0 {
        Seq::empty()
    } else {
        flat_regions(tr.drop_last()) + tr.last().1@
    }
}

/// The nodes hosting the listed regions.
pub open spec fn hosting_nodes_of(rs: Seq<RegionInfo>) -> Set<NodeId> {
    Set::new(|n: NodeId| exists|i: int| 0 <= i < rs.len() && #[trigger] rs[i].node_id == n)
}

/// The scan tasks of the listed tables: one per region, table by table.
pub open spec fn scan_tasks_spec(tr: Seq<(String, Vec<RegionInfo>)>) -> Seq<(Seq<char>, RegionId, NodeId)>
    decreases tr.len(),
{
    if tr.len() == 0 {
        Seq::empty()
    } else {
        scan_tasks_spec(tr.drop_last()) + tasks_for(tr.last().0@, tr.last().1@)
    }
}

/// One scan task per region of a table.
pub open spec fn tasks_for(table: Seq<char>, rs: Seq<RegionInfo>) -> Seq<(Seq<char>, RegionId, NodeId)> {
    Seq::new(rs.len(), |k: int| (table, rs[k].region_id, rs[k].node_id))
}

/// The scan tasks follow the regions one for one, table by table: the
/// `k`-th task scans the `k`-th listed region and is addressed to the node
/// that hosts it.
pub proof fn law_scan_tasks_follow_regions(tr: Seq<(String, Vec<RegionInfo>)>)
    ensures
        scan_tasks_spec(tr).len() == flat_regions(tr).len(),
        forall|k: int|
            0 <= k < scan_tasks_spec(tr).len() ==> (#[trigger] scan_tasks_spec(tr)[k]).1 == flat_regions(tr)[k].region_id
                && scan_tasks_spec(tr)[k].2 == flat_regions(tr)[k].node_id,
    decreases tr.len(),
{
    if tr.len() > 0 {
        let pre = tr.drop_last();
        law_scan_tasks_follow_regions(pre);
        let rs = tr.last().1@;
        let ts = tasks_for(tr.last().0@, rs);
        assert forall|k: int| 0 <= k < scan_tasks_spec(tr).len() implies (#[trigger] scan_tasks_spec(tr)[k]).1
            == flat_regions(tr)[k].region_id && scan_tasks_spec(tr)[k].2 == flat_regions(tr)[k].node_id by {
            let p = scan_tasks_spec(pre).len() as int;
            if k < p {
                assert(scan_tasks_spec(tr)[k] == scan_tasks_spec(pre)[k]);
                assert(flat_regions(tr)[k] == flat_regions(pre)[k]);
            } else {
                assert(scan_tasks_spec(tr)[k] == ts[k - p]);
                assert(flat_regions(tr)[k] == rs[k - p]);
            }
        }
    }
}

/// Scan tasks as plain values.
pub open spec fn task_views(ts: Seq<ScanTask>) -> Seq<(Seq<char>, RegionId, NodeId)> {
    Seq::new(ts.len(), |k: int| task_view(ts[k]))
}

/// A scan task as plain values.
pub open spec fn task_view(t: ScanTask) -> (Seq<char>, RegionId, NodeId) {
    (t.table@, t.region_id, t.node_id)
}

/// The regions of the listed tables, table by table.
pub fn flatten_regions(tr: &[(String, Vec<RegionInfo>)]) -> (rs: Vec<RegionInfo>)
    ensures
        rs@ == flat_regions(tr@),
{
    let mut rs: Vec<RegionInfo> = Vec::new();
    let mut i: usize = 0;
    while i < tr.len()
        invariant
            i <= tr.len(),
            rs@ == flat_regions(tr@.take(i as int)),
        decreases tr.len() - i,
    {
        proof {
            assert(tr@.take(i + 1).drop_last() =~= tr@.take(i as int));
        }
        let ghost before = rs@;
        let mut j: usize = 0;
        while j < tr[i].1.len()
            invariant
                i < tr.len(),
                j <= tr@[i as int].1@.len(),
                rs@ == before + tr@[i as int].1@.take(j as int),
            decreases tr@[i as int].1@.len() - j,
        {
            rs.push(tr[i].1[j].copy());
            j = j + 1;
            assert(rs@ =~= before + tr@[i as int].1@.take(j as int));
        }
        assert(tr@[i as int].1@.take(tr@[i as int].1@.len() as int) =~= tr@[i as int].1@);
        i = i + 1;
    }
    assert(tr@.take(tr@.len() as int) =~= tr@);
    rs
}

/// The node holding all the regions, when exactly one node holds them.
pub fn single_node_of(rs: &Vec<RegionInfo>) -> (n: Option<NodeId>)
    ensures
        match n {
            Some(x) => hosting_nodes_of(rs@) == set![x],
            None => hosting_nodes_of(rs@).len() != 1,
        },
{
    if rs.len() == 0 {
        assert(hosting_nodes_of(rs@) =~= Set::<NodeId>::empty());
        return None;
    }
    let first = rs[0].node_id;
    let mut k: usize = 1;
    while k < rs.len()
        invariant
            1 <= k <= rs.len(),
            first == rs@[0].node_id,
            forall|q: int| 0 <= q < k ==> #[trigger] rs@[q].node_id == first,
        decreases rs.len() - k,
    {
        if rs[k].node_id != first {
            proof {
                let h = hosting_nodes_of(rs@);
                assert(h.contains(first) && h.contains(rs@[k as int].node_id));
                assert(h.remove(first).contains(rs@[k as int].node_id));
                if h.len() == 1 {
                    assert(h.finite()) by {
                        assert(h.subset_of(rs@.map_values(|r: RegionInfo| r.node_id).to_set())) by {
                            assert forall|x: NodeId| h.contains(x) implies rs@.map_values(|r: RegionInfo| r.node_id).to_set().contains(x) by {
                                let i = choose|i: int| 0 <= i < rs@.len() && #[trigger] rs@[i].node_id == x;
                                assert(rs@.map_values(|r: RegionInfo| r.node_id)[i] == x);
                            }
                        }
                        vstd::set_lib::lemma_set_subset_finite(h, rs@.map_values(|r: RegionInfo| r.node_id).to_set());
                    }
                    assert(h.remove(first).len() == 0);
                }
            }
            return None;
        }
        k = k + 1;
    }
    proof {
        assert(hosting_nodes_of(rs@) =~= set![first]) by {
            assert forall|x: NodeId| hosting_nodes_of(rs@).contains(x) implies x == first by {
                let i = choose|i: int| 0 <= i < rs@.len() && #[trigger] rs@[i].node_id == x;
            }
            assert(rs@[0].node_id == first);
        }
    }
    Some(first)
}

/// Distributed query planner.
#[derive(Debug)]
pub struct DistributedPlanner<M> {
    /// MetaServer client for region information
    meta_client: Arc<M>,
}

impl<M> DistributedPlanner<M> {
    /// Create a new DistributedPlanner.
    pub fn new(meta_client: Arc<M>) -> (p: Self)
        ensures
            p.spec_meta_client() == meta_client,
    {
        DistributedPlanner { meta_client }
    }

    /// The MetaServer client.
    pub closed spec fn spec_meta_client(&self) -> Arc<M> {
        self.meta_client
    }

    /// The MetaServer client.
    pub fn meta_client(&self) -> (m: &Arc<M>)
        ensures
            *m == self.spec_meta_client(),
    {
        &self.meta_client
    }

    /// Extract table names from a plan: the bare names of the scanned
    /// tables, sorted, each once.
    pub fn extract_tables(&self, plan: &PlanNode) -> (r: Result<Vec<String>>)
        ensures
            r matches Ok(tables) && texts_increasing(tables@) && tables@.map_values(|x: String| x@).to_set()
                == scanned_bare_tables(*plan).to_set(),
    {
        let mut raw: Vec<String> = Vec::new();
        collect_scanned_bare_tables(plan, &mut raw);
        let ghost names = raw@.map_values(|s: String| s@);
        assert(names =~= scanned_bare_tables(*plan));
        let mut tables: Vec<String> = Vec::new();
        let mut i: usize = 0;
        while i < raw.len()
            invariant
                i <= raw.len(),
                names == raw@.map_values(|s: String| s@),
                texts_increasing(tables@),
                tables@.map_values(|x: String| x@).to_set() == names.take(i as int).to_set(),
            decreases raw.len() - i,
        {
            insert_text_sorted(&mut tables, raw[i].clone());
            proof {
                assert(names.take(i + 1) =~= names.take(i as int).push(raw@[i as int]@));
                assert(names.take(i + 1).to_set() =~= names.take(i as int).to_set().insert(raw@[i as int]@)) by {
                    names.take(i as int).lemma_push_to_set_commute(raw@[i as int]@);
                }
            }
            i = i + 1;
        }
        assert(names.take(raw.len() as int) =~= names);
        Ok(tables)
    }

    /// Create execution stages for distributed execution: the scans of every
    /// region, a merge of the scan stage, and the final stage.
    pub fn create_execution_stages(&self, plan: &PlanNode, table_regions: &[(String, Vec<RegionInfo>)]) -> (r: Result<Vec<ExecutionStage>>)
        ensures
            r matches Ok(stages) && stages@.len() == 3 && (stages@[0] matches ExecutionStage::Scan { tasks }
                && task_views(tasks@) == scan_tasks_spec(table_regions@) && tasks@.len() == flat_regions(
                table_regions@,
            ).len() && (forall|k: int|
                0 <= k < tasks@.len() ==> (#[trigger] tasks@[k]).region_id == flat_regions(table_regions@)[k].region_id
                    && tasks@[k].node_id == flat_regions(table_regions@)[k].node_id))
                && stages@[1] == (ExecutionStage::Merge { input_stage: 0 }) && stages@[2] is Final,
    {
        let mut tasks: Vec<ScanTask> = Vec::new();
        let mut i: usize = 0;
        while i < table_regions.len()
            invariant
                i <= table_regions.len(),
                task_views(tasks@) == scan_tasks_spec(table_regions@.take(i as int)),
            decreases table_regions.len() - i,
        {
            proof {
                assert(table_regions@.take(i + 1).drop_last() =~= table_regions@.take(i as int));
            }
            let ghost before = task_views(tasks@);
            let ghost entry = table_regions@[i as int];
            let mut j: usize = 0;
            while j < table_regions[i].1.len()
                invariant
                    i < table_regions.len(),
                    entry == table_regions@[i as int],
                    j <= entry.1@.len(),
                    task_views(tasks@) == before + tasks_for(entry.0@, entry.1@.take(j as int)),
                decreases entry.1@.len() - j,
            {
                let region = &table_regions[i].1[j];
                let ghost tv = tasks@;
                tasks.push(ScanTask { table: table_regions[i].0.clone(), region_id: region.region_id, node_id: region.node_id });
                proof {
                    let x = (entry.0@, entry.1@[j as int].region_id, entry.1@[j as int].node_id);
                    assert(task_views(tasks@) =~= task_views(tv).push(x));
                    assert(tasks_for(entry.0@, entry.1@.take(j + 1)) =~= tasks_for(entry.0@, entry.1@.take(j as int)).push(x));
                    assert((before + tasks_for(entry.0@, entry.1@.take(j as int))).push(x) =~= before + tasks_for(
                        entry.0@,
                        entry.1@.take(j as int),
                    ).push(x));
                }
                j = j + 1;
            }
            assert(entry.1@.take(entry.1@.len() as int) =~= entry.1@);
            i = i + 1;
        }
        assert(table_regions@.take(table_regions@.len() as int) =~= table_regions@);
        proof {
            law_scan_tasks_follow_regions(table_regions@);
            assert forall|k: int| 0 <= k < tasks@.len() implies (#[trigger] tasks@[k]).region_id == flat_regions(
                table_regions@,
            )[k].region_id && tasks@[k].node_id == flat_regions(table_regions@)[k].node_id by {
                assert(task_views(tasks@)[k] == task_view(tasks@[k]));
            }
        }
        let mut stages: Vec<ExecutionStage> = Vec::new();
        stages.push(ExecutionStage::Scan { tasks });
        stages.push(ExecutionStage::Merge { input_stage: 0 });
        stages.push(ExecutionStage::Final { plan: plan.copy() });
        Ok(stages)
    }

    /// Decide how a plan over tables with these regions runs: forwarded whole
    /// when one node holds every region, else in stages.
    pub fn plan_with_regions(&self, plan: &PlanNode, table_regions: Vec<(String, Vec<RegionInfo>)>) -> (r: Result<DistributedPlan>)
        ensures
            r matches Ok(dp) && ({
                let nodes = hosting_nodes_of(flat_regions(table_regions@));
                &&& nodes.len() == 1 ==> (dp matches DistributedPlan::SingleNode { node_id, .. } && nodes == set![node_id])
                &&& nodes.len() != 1 ==> (dp matches DistributedPlan::Distributed { stages, table_regions: tr } && tr@
                    == table_regions@ && stages@.len() == 3)
            }),
    {
        let all = flatten_regions(table_regions.as_slice());
        match single_node_of(&all) {
            Some(node_id) => {
                proof {
                    assert(set![node_id].len() == 1);
                }
                Ok(DistributedPlan::SingleNode { node_id, plan: plan.copy() })
            },
            None => {
                let stages = self.create_execution_stages(plan, table_regions.as_slice())?;
                Ok(DistributedPlan::Distributed { stages, table_regions })
            },
        }
    }

    /// The single node to forward a plan to, when the regions of its tables
    /// all lie on one node.
    pub fn push_down_target(&self, table_regions: &[(String, Vec<RegionInfo>)]) -> (n: Option<NodeId>)
        ensures
            match n {
                Some(x) => hosting_nodes_of(flat_regions(table_regions@)) == set![x],
                None => hosting_nodes_of(flat_regions(table_regions@)).len() != 1,
            },
    {
        let all = flatten_regions(table_regions);
        single_node_of(&all)
    }
}

impl DistributedPlan {
    /// Check if this is a local-only plan.
    pub fn is_local(&self) -> (b: bool)
        ensures
            b == (*self is Local),
    {
        match self {
            DistributedPlan::Local { .. } => true,
            _ => false,
        }
    }

    /// Check if this can be executed on a single node.
    pub fn is_single_node(&self) -> (b: bool)
        ensures
            b == (*self is SingleNode),
    {
        match self {
            DistributedPlan::SingleNode { .. } => true,
            _ => false,
        }
    }

    /// Check if this requires distributed execution.
    pub fn is_distributed(&self) -> (b: bool)
        ensures
            b == (*self is Distributed),
    {
        match self {
            DistributedPlan::Distributed { .. } => true,
            _ => false,
        }
    }

    /// Get the target node ID for single-node plans.
    pub fn single_node_target(&self) -> (n: Option<NodeId>)
        ensures
            match *self {
                DistributedPlan::SingleNode { node_id, .. } => n == Some(node_id),
                _ => n is None,
            },
    {
        match self {
            DistributedPlan::SingleNode { node_id, .. } => Some(*node_id),
            _ => None,
        }
    }

    /// Get all nodes involved in this plan, ascending, each once.
    pub fn involved_nodes(&self) -> (nodes: Vec<NodeId>)
        ensures
            strictly_increasing(nodes@),
            match *self {
                DistributedPlan::Local { .. } => nodes@.len() == 0,
                DistributedPlan::SingleNode { node_id, .. } => nodes@ == seq![node_id],
                DistributedPlan::Distributed { table_regions, .. } => nodes@.to_set() == hosting_nodes_of(
                    flat_regions(table_regions@),
                ),
            },
    {
        match self {
            DistributedPlan::Local { .. } => Vec::new(),
            DistributedPlan::SingleNode { node_id, .. } => {
                let mut v: Vec<NodeId> = Vec::new();
                v.push(*node_id);
                v
            },
            DistributedPlan::Distributed { table_regions, .. } => {
                let all = flatten_regions(table_regions.as_slice());
                let mut nodes: Vec<NodeId> = Vec::new();
                let mut i: usize = 0;
                while i < all.len()
                    invariant
                        i <= all.len(),
                        strictly_increasing(nodes@),
                        nodes@.to_set() == hosting_nodes_of(all@.take(i as int)),
                    decreases all.len() - i,
                {
                    insert_sorted_unique(&mut nodes, all[i].node_id);
                    proof {
                        let t = all@.take(i as int);
                        let t1 = all@.take(i + 1);
                        assert(hosting_nodes_of(t1) =~= hosting_nodes_of(t).insert(all@[i as int].node_id)) by {
                            assert forall|x: NodeId| hosting_nodes_of(t1).contains(x) implies hosting_nodes_of(t).insert(all@[i as int].node_id).contains(x) by {
                                let k = choose|k: int| 0 <= k < t1.len() && #[trigger] t1[k].node_id == x;
                                if k < i {
                                    assert(t[k].node_id == x);
                                }
                            }
                            assert forall|x: NodeId| hosting_nodes_of(t).insert(all@[i as int].node_id).contains(x) implies hosting_nodes_of(t1).contains(x) by {
                                if x == all@[i as int].node_id {
                                    assert(t1[i as int].node_id == x);
                                } else {
                                    let k = choose|k: int| 0 <= k < t.len() && #[trigger] t[k].node_id == x;
                                    assert(t1[k].node_id == x);
                                }
                            }
                        }
                    }
                    i = i + 1;
                }
                assert(all@.take(all@.len() as int) =~= all@);
                nodes
            },
        }
    }
}

} // verus!
