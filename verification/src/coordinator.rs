//! Decisions of the query coordinator.
//!
//! The coordinator runs a distributed plan: it takes the scan tasks of the
//! plan's first stage, groups them by node, has each node run its tasks, and
//! combines what comes back. The program does the running; what stands here
//! picks the tasks, groups them, and combines the outcomes.

use vstd::prelude::*;
use crate::error::{DistributedError, Result};
use crate::ids::{NodeId, RegionId};
use crate::planner::{ExecutionStage, ScanTask};

verus! {

/// Copies a scan task.
fn copy_task(t: &ScanTask) -> (r: ScanTask)
    ensures
        r == *t,
{
    ScanTask { table: t.table.clone(), region_id: t.region_id, node_id: t.node_id }
}

/// The scan tasks of a plan's first stage; a plan must start with a scan.
pub fn first_stage_tasks(stages: &Vec<ExecutionStage>) -> (r: Result<Vec<ScanTask>>)
    ensures
        stages@.len() > 0 && stages@[0] is Scan ==> (r matches Ok(tasks) && stages@[0] matches ExecutionStage::Scan {
            tasks: t,
        } && tasks@ == t@),
        !(stages@.len() > 0 && stages@[0] is Scan) ==> (r matches Err(DistributedError::QueryPlanning(m)) && m@
            == "Expected scan stage as first stage"@),
{
    proof {
        reveal_strlit("Expected scan stage as first stage");
    }
    if stages.len() > 0 {
        if let ExecutionStage::Scan { tasks } = &stages[0] {
            let mut out: Vec<ScanTask> = Vec::new();
            let mut i: usize = 0;
            while i < tasks.len()
                invariant
                    i <= tasks.len(),
                    out@ == tasks@.take(i as int),
                decreases tasks.len() - i,
            {
                out.push(copy_task(&tasks[i]));
                i = i + 1;
                assert(out@ =~= tasks@.take(i as int));
            }
            assert(tasks@.take(tasks.len() as int) =~= tasks@);
            return Ok(out);
        }
    }
    Err(DistributedError::QueryPlanning(String::from_str("Expected scan stage as first stage")))
}

/// The tasks of a node, in their order.
pub open spec fn tasks_on(ts: Seq<ScanTask>, node: NodeId) -> Seq<ScanTask>
    decreases ts.len(),
{
    if ts.len() == 0 {
        Seq::empty()
    } else if ts.last().node_id == node {
        tasks_on(ts.drop_last(), node).push(ts.last())
    } else {
        tasks_on(ts.drop_last(), node)
    }
}

/// The nodes of the tasks, in order of first appearance.
pub open spec fn task_nodes(ts: Seq<ScanTask>) -> Seq<NodeId>
    decreases ts.len(),
{
    if ts.len() == 0 {
        Seq::empty()
    } else {
        let before = task_nodes(ts.drop_last());
        if before.contains(ts.last().node_id) {
            before
        } else {
            before.push(ts.last().node_id)
        }
    }
}

/// Groups scan tasks by node: one group per node in order of first
/// appearance, each with that node's tasks in their order.
pub fn group_tasks_by_node(tasks: Vec<ScanTask>) -> (groups: Vec<(NodeId, Vec<ScanTask>)>)
    ensures
        groups@.len() == task_nodes(tasks@).len(),
        forall|k: int| 0 <= k < groups@.len() ==> (#[trigger] groups@[k]).0 == task_nodes(tasks@)[k]
            && groups@[k].1@ == tasks_on(tasks@, groups@[k].0),
{
    let mut groups: Vec<(NodeId, Vec<ScanTask>)> = Vec::new();
    let mut i: usize = 0;
    while i < tasks.len()
        invariant
            i <= tasks.len(),
            groups@.len() == task_nodes(tasks@.take(i as int)).len(),
            forall|k: int| 0 <= k < groups@.len() ==> (#[trigger] groups@[k]).0 == task_nodes(tasks@.take(i as int))[k]
                && groups@[k].1@ == tasks_on(tasks@.take(i as int), groups@[k].0),
        decreases tasks.len() - i,
    {
        let t = copy_task(&tasks[i]);
        let node = t.node_id;
        let ghost pre = tasks@.take(i as int);
        let ghost nodes = task_nodes(pre);
        proof {
            assert(tasks@.take(i + 1).drop_last() =~= pre);
            assert(tasks@.take(i + 1).last() == tasks@[i as int]);
        }
        let mut k: usize = 0;
        while k < groups.len() && groups[k].0 != node
            invariant
                k <= groups.len(),
                groups@.len() == nodes.len(),
                forall|q: int| 0 <= q < k ==> (#[trigger] groups@[q]).0 != node,
                forall|q: int| 0 <= q < groups@.len() ==> (#[trigger] groups@[q]).0 == nodes[q],
            decreases groups.len() - k,
        {
            k = k + 1;
        }
        let ghost before = groups@;
        if k < groups.len() {
            let (n, mut list) = groups.remove(k);
            let ghost old_list = list@;
            list.push(t);
            let ghost new_entry = (n, list);
            groups.insert(k, (n, list));
            proof {
                assert(groups@ =~= before.update(k as int, new_entry));
                assert(n == node);
                assert(old_list == tasks_on(pre, node));
                lemma_task_nodes_unique(pre);
                assert(nodes[k as int] == node);
                assert(nodes.contains(node));
                assert forall|q: int| 0 <= q < groups@.len() implies (#[trigger] groups@[q]).0 == task_nodes(tasks@.take(i + 1))[q]
                    && groups@[q].1@ == tasks_on(tasks@.take(i + 1), groups@[q].0) by {
                    if q == k {
                        assert(groups@[q].0 == node);
                    } else if q < k {
                        assert(groups@[q] == before[q]);
                    } else {
                        assert(groups@[q] == before[q]);
                    }
                }
            }
        } else {
            let mut list: Vec<ScanTask> = Vec::new();
            list.push(t);
            groups.push((node, list));
            proof {
                assert(!nodes.contains(node)) by {
                    if nodes.contains(node) {
                        let q = choose|q: int| 0 <= q < nodes.len() && nodes[q] == node;
                        assert(groups@[q].0 == nodes[q]);
                    }
                }
                assert(tasks_on(pre, node) =~= Seq::<ScanTask>::empty()) by {
                    lemma_tasks_on_absent(pre, node);
                }
                assert forall|q: int| 0 <= q < groups@.len() implies (#[trigger] groups@[q]).0 == task_nodes(tasks@.take(i + 1))[q]
                    && groups@[q].1@ == tasks_on(tasks@.take(i + 1), groups@[q].0) by {
                    if q < before.len() {
                        assert(groups@[q] == before[q]);
                    } else {
                        assert(list@ =~= seq![tasks@[i as int]]);
                    }
                }
            }
        }
        i = i + 1;
    }
    assert(tasks@.take(tasks.len() as int) =~= tasks@);
    groups
}

/// The task nodes hold each node once.
proof fn lemma_task_nodes_unique(ts: Seq<ScanTask>)
    ensures
        task_nodes(ts).no_duplicates(),
    decreases ts.len(),
{
    if ts.len() > 0 {
        lemma_task_nodes_unique(ts.drop_last());
        let before = task_nodes(ts.drop_last());
        if !before.contains(ts.last().node_id) {
            let r = before.push(ts.last().node_id);
            assert forall|a: int, b: int| 0 <= a < r.len() && 0 <= b < r.len() && a != b implies r[a] != r[b] by {
                if a < before.len() && b < before.len() {
                    assert(r[a] == before[a] && r[b] == before[b]);
                } else if a < before.len() {
                    assert(r[a] == before[a]);
                } else {
                    assert(r[b] == before[b]);
                }
            }
        }
    }
}

/// A node that is not among the task nodes has no tasks.
proof fn lemma_tasks_on_absent(ts: Seq<ScanTask>, node: NodeId)
    requires
        !task_nodes(ts).contains(node),
    ensures
        tasks_on(ts, node) == Seq::<ScanTask>::empty(),
    decreases ts.len(),
{
    if ts.len() > 0 {
        let before = task_nodes(ts.drop_last());
        if before.contains(ts.last().node_id) {
            lemma_tasks_on_absent(ts.drop_last(), node);
            if ts.last().node_id == node {
                assert(before.contains(node));
            }
        } else {
            assert(before.push(ts.last().node_id)[before.len() as int] == ts.last().node_id);
            assert forall|q: int| 0 <= q < before.len() implies before[q] != node by {
                assert(before.push(ts.last().node_id)[q] == before[q]);
            }
            lemma_tasks_on_absent(ts.drop_last(), node);
        }
    }
}

/// The regions placed on a node, in their order.
pub open spec fn regions_on(ps: Seq<(RegionId, NodeId)>, node: NodeId) -> Seq<RegionId>
    decreases ps.len(),
{
    if ps.len() == 0 {
        Seq::empty()
    } else if ps.last().1 == node {
        regions_on(ps.drop_last(), node).push(ps.last().0)
    } else {
        regions_on(ps.drop_last(), node)
    }
}

/// The nodes of placed regions, in order of first appearance.
pub open spec fn placement_nodes(ps: Seq<(RegionId, NodeId)>) -> Seq<NodeId>
    decreases ps.len(),
{
    if ps.len() == 0 {
        Seq::empty()
    } else {
        let before = placement_nodes(ps.drop_last());
        if before.contains(ps.last().1) {
            before
        } else {
            before.push(ps.last().1)
        }
    }
}

/// The placement nodes hold each node once.
proof fn lemma_placement_nodes_unique(ps: Seq<(RegionId, NodeId)>)
    ensures
        placement_nodes(ps).no_duplicates(),
    decreases ps.len(),
{
    if ps.len() > 0 {
        lemma_placement_nodes_unique(ps.drop_last());
        let before = placement_nodes(ps.drop_last());
        if !before.contains(ps.last().1) {
            let r = before.push(ps.last().1);
            assert forall|a: int, b: int| 0 <= a < r.len() && 0 <= b < r.len() && a != b implies r[a] != r[b] by {
                if a < before.len() && b < before.len() {
                    assert(r[a] == before[a] && r[b] == before[b]);
                } else if a < before.len() {
                    assert(r[a] == before[a]);
                } else {
                    assert(r[b] == before[b]);
                }
            }
        }
    }
}

/// A node that is not among the placement nodes holds none of the regions.
proof fn lemma_regions_on_absent(ps: Seq<(RegionId, NodeId)>, node: NodeId)
    requires
        !placement_nodes(ps).contains(node),
    ensures
        regions_on(ps, node) == Seq::<RegionId>::empty(),
    decreases ps.len(),
{
    if ps.len() > 0 {
        let before = placement_nodes(ps.drop_last());
        if before.contains(ps.last().1) {
            lemma_regions_on_absent(ps.drop_last(), node);
            if ps.last().1 == node {
                assert(before.contains(node));
            }
        } else {
            assert(before.push(ps.last().1)[before.len() as int] == ps.last().1);
            assert forall|q: int| 0 <= q < before.len() implies before[q] != node by {
                assert(before.push(ps.last().1)[q] == before[q]);
            }
            lemma_regions_on_absent(ps.drop_last(), node);
        }
    }
}

/// Groups regions by the node that hosts them, each region given with its
/// node as the metadata service reports it: one group per node in order of
/// first appearance, each with that node's regions in their order.
pub fn group_regions_by_node(placed: &Vec<(RegionId, NodeId)>) -> (groups: Vec<(NodeId, Vec<RegionId>)>)
    ensures
        groups@.len() == placement_nodes(placed@).len(),
        forall|k: int| 0 <= k < groups@.len() ==> (#[trigger] groups@[k]).0 == placement_nodes(placed@)[k]
            && groups@[k].1@ == regions_on(placed@, groups@[k].0),
{
    let mut groups: Vec<(NodeId, Vec<RegionId>)> = Vec::new();
    let mut i: usize = 0;
    while i < placed.len()
        invariant
            i <= placed.len(),
            groups@.len() == placement_nodes(placed@.take(i as int)).len(),
            forall|k: int| 0 <= k < groups@.len() ==> (#[trigger] groups@[k]).0 == placement_nodes(placed@.take(i as int))[k]
                && groups@[k].1@ == regions_on(placed@.take(i as int), groups@[k].0),
        decreases placed.len() - i,
    {
        let (region, node) = placed[i];
        let ghost pre = placed@.take(i as int);
        let ghost nodes = placement_nodes(pre);
        proof {
            assert(placed@.take(i + 1).drop_last() =~= pre);
            assert(placed@.take(i + 1).last() == placed@[i as int]);
        }
        let mut k: usize = 0;
        while k < groups.len() && groups[k].0 != node
            invariant
                k <= groups.len(),
                groups@.len() == nodes.len(),
                forall|q: int| 0 <= q < k ==> (#[trigger] groups@[q]).0 != node,
                forall|q: int| 0 <= q < groups@.len() ==> (#[trigger] groups@[q]).0 == nodes[q],
            decreases groups.len() - k,
        {
            k = k + 1;
        }
        let ghost before = groups@;
        if k < groups.len() {
            let (n, mut list) = groups.remove(k);
            let ghost old_list = list@;
            list.push(region);
            let ghost new_entry = (n, list);
            groups.insert(k, (n, list));
            proof {
                assert(groups@ =~= before.update(k as int, new_entry));
                assert(n == node);
                assert(old_list == regions_on(pre, node));
                lemma_placement_nodes_unique(pre);
                assert(nodes[k as int] == node);
                assert(nodes.contains(node));
                assert forall|q: int| 0 <= q < groups@.len() implies (#[trigger] groups@[q]).0 == placement_nodes(
                    placed@.take(i + 1),
                )[q] && groups@[q].1@ == regions_on(placed@.take(i + 1), groups@[q].0) by {
                    if q == k {
                        assert(groups@[q].0 == node);
                    } else {
                        assert(groups@[q] == before[q]);
                    }
                }
            }
        } else {
            let mut list: Vec<RegionId> = Vec::new();
            list.push(region);
            groups.push((node, list));
            proof {
                assert(!nodes.contains(node)) by {
                    if nodes.contains(node) {
                        let q = choose|q: int| 0 <= q < nodes.len() && nodes[q] == node;
                        assert(groups@[q].0 == nodes[q]);
                    }
                }
                assert(regions_on(pre, node) =~= Seq::<RegionId>::empty()) by {
                    lemma_regions_on_absent(pre, node);
                }
                assert forall|q: int| 0 <= q < groups@.len() implies (#[trigger] groups@[q]).0 == placement_nodes(
                    placed@.take(i + 1),
                )[q] && groups@[q].1@ == regions_on(placed@.take(i + 1), groups@[q].0) by {
                    if q < before.len() {
                        assert(groups@[q] == before[q]);
                    } else {
                        assert(list@ =~= seq![placed@[i as int].0]);
                    }
                }
            }
        }
        i = i + 1;
    }
    assert(placed@.take(placed.len() as int) =~= placed@);
    groups
}

/// The first error among the outcomes, if any.
pub open spec fn first_error<B>(outcomes: Seq<std::result::Result<Vec<B>, DistributedError>>) -> Option<DistributedError>
    decreases outcomes.len(),
{
    if outcomes.len() == 0 {
        None
    } else {
        match first_error(outcomes.drop_last()) {
            Some(e) => Some(e),
            None => match outcomes.last() {
                Err(e) => Some(e),
                Ok(_) => None,
            },
        }
    }
}

/// The results of the outcomes that succeeded, in order.
pub open spec fn all_results<B>(outcomes: Seq<std::result::Result<Vec<B>, DistributedError>>) -> Seq<B>
    decreases outcomes.len(),
{
    if outcomes.len() == 0 {
        Seq::empty()
    } else {
        all_results(outcomes.drop_last()) + match outcomes.last() {
            Ok(v) => v@,
            Err(_) => Seq::empty(),
        }
    }
}

/// Combines the outcomes of the nodes of a distributed plan: the first error
/// wins; no rows at all is an error too.
pub fn combine_node_results<B>(outcomes: Vec<Result<Vec<B>>>) -> (r: Result<Vec<B>>)
    ensures
        first_error(outcomes@) matches Some(e) ==> r == Err::<Vec<B>, DistributedError>(e),
        first_error(outcomes@) is None && all_results(outcomes@).len() == 0 ==> (r matches Err(
            DistributedError::QueryExecution(m),
        ) && m@ == "No results from distributed execution"@),
        first_error(outcomes@) is None && all_results(outcomes@).len() > 0 ==> (r matches Ok(v) && v@
            == all_results(outcomes@)),
{
    let ghost all = outcomes@;
    let mut outcomes = outcomes;
    let mut rest: Vec<Result<Vec<B>>> = Vec::new();
    // Outcomes are taken from the back; put them back in order first.
    while outcomes.len() > 0
        invariant
            all == outcomes@ + rest@.reverse(),
        decreases outcomes.len(),
    {
        let ghost o = outcomes@;
        let ghost rr = rest@;
        let x = outcomes.pop().unwrap();
        rest.push(x);
        proof {
            assert(o =~= outcomes@.push(x));
            assert(rest@.reverse() =~= seq![x] + rr.reverse());
            assert(all =~= outcomes@ + rest@.reverse());
        }
    }
    assert(rest@.reverse() =~= all);
    let mut batches: Vec<B> = Vec::new();
    let mut failure: Option<DistributedError> = None;
    let mut done: usize = 0;
    let n = rest.len();
    while rest.len() > 0 && failure.is_none()
        invariant
            n == all.len(),
            rest@.len() + done == n,
            rest@.reverse() == all.skip(done as int),
            failure is None ==> first_error(all.take(done as int)) is None,
            failure is Some ==> first_error(all) == failure,
            batches@ == all_results(all.take(done as int)),
        decreases rest.len(),
    {
        let ghost rr = rest@;
        let x = rest.pop().unwrap();
        proof {
            assert(rr =~= rest@.push(x));
            assert(rr.reverse()[0] == x);
            assert(all.skip(done as int)[0] == all[done as int]);
            assert(all.take(done + 1).drop_last() =~= all.take(done as int));
            assert(all.take(done + 1).last() == x);
            assert(rest@.reverse() =~= all.skip(done + 1)) by {
                assert forall|q: int| 0 <= q < rest@.len() implies rest@.reverse()[q] == all.skip(done + 1)[q] by {
                    assert(rr.reverse()[q + 1] == all.skip(done as int)[q + 1]);
                }
            }
        }
        match x {
            Ok(mut v) => {
                batches.append(&mut v);
            },
            Err(e) => {
                proof {
                    assert(first_error(all.take(done + 1)) == Some(e));
                    lemma_first_error_prefix(all, done + 1);
                }
                failure = Some(e);
            },
        }
        done = done + 1;
    }
    if let Some(e) = failure {
        return Err(e);
    }
    assert(all.take(n as int) =~= all);
    if batches.len() == 0 {
        proof {
            reveal_strlit("No results from distributed execution");
        }
        return Err(DistributedError::QueryExecution(String::from_str("No results from distributed execution")));
    }
    Ok(batches)
}

/// The first error of a prefix is the first error of the whole.
proof fn lemma_first_error_prefix<B>(all: Seq<std::result::Result<Vec<B>, DistributedError>>, k: int)
    requires
        0 <= k <= all.len(),
        first_error(all.take(k)) is Some,
    ensures
        first_error(all) == first_error(all.take(k)),
    decreases all.len() - k,
{
    if k < all.len() {
        assert(all.take(k + 1).drop_last() =~= all.take(k));
        lemma_first_error_prefix(all, k + 1);
    } else {
        assert(all.take(k) =~= all);
    }
}

/// The results of a query sent to every datanode, where an outcome is `None`
/// when the node's task could not be joined.
pub open spec fn sql_results<B>(outcomes: Seq<Option<std::result::Result<Vec<B>, DistributedError>>>) -> Seq<B>
    decreases outcomes.len(),
{
    if outcomes.len() == 0 {
        Seq::empty()
    } else {
        sql_results(outcomes.drop_last()) + match outcomes.last() {
            Some(Ok(v)) => v@,
            _ => Seq::empty(),
        }
    }
}

/// The first error reported by a datanode.
pub open spec fn sql_first_error<B>(outcomes: Seq<Option<std::result::Result<Vec<B>, DistributedError>>>) -> Option<DistributedError>
    decreases outcomes.len(),
{
    if outcomes.len() == 0 {
        None
    } else {
        match sql_first_error(outcomes.drop_last()) {
            Some(e) => Some(e),
            None => match outcomes.last() {
                Some(Err(e)) => Some(e),
                _ => None,
            },
        }
    }
}

/// Combines the answers of the datanodes to a query sent to all of them:
/// the rows of those that answered; when none brought rows, the first error,
/// or an error saying so.
pub fn combine_sql_results<B>(outcomes: Vec<Option<Result<Vec<B>>>>) -> (r: Result<Vec<B>>)
    ensures
        sql_results(outcomes@).len() > 0 ==> (r matches Ok(v) && v@ == sql_results(outcomes@)),
        sql_results(outcomes@).len() == 0 && sql_first_error(outcomes@) is Some ==> r == Err::<Vec<B>, DistributedError>(
            sql_first_error(outcomes@)->Some_0,
        ),
        sql_results(outcomes@).len() == 0 && sql_first_error(outcomes@) is None ==> (r matches Err(
            DistributedError::QueryExecution(m),
        ) && m@ == "No results from any datanode"@),
{
    let ghost all = outcomes@;
    let mut outcomes = outcomes;
    let mut rest: Vec<Option<Result<Vec<B>>>> = Vec::new();
    while outcomes.len() > 0
        invariant
            all == outcomes@ + rest@.reverse(),
        decreases outcomes.len(),
    {
        let ghost o = outcomes@;
        let ghost rr = rest@;
        let x = outcomes.pop().unwrap();
        rest.push(x);
        proof {
            assert(o =~= outcomes@.push(x));
            assert(rest@.reverse() =~= seq![x] + rr.reverse());
            assert(all =~= outcomes@ + rest@.reverse());
        }
    }
    assert(rest@.reverse() =~= all);
    let mut batches: Vec<B> = Vec::new();
    let mut first: Option<DistributedError> = None;
    let mut done: usize = 0;
    let n = rest.len();
    while rest.len() > 0
        invariant
            n == all.len(),
            rest@.len() + done == n,
            rest@.reverse() == all.skip(done as int),
            first == sql_first_error(all.take(done as int)),
            batches@ == sql_results(all.take(done as int)),
        decreases rest.len(),
    {
        let ghost rr = rest@;
        let x = rest.pop().unwrap();
        proof {
            assert(rr =~= rest@.push(x));
            assert(rr.reverse()[0] == x);
            assert(all.skip(done as int)[0] == all[done as int]);
            assert(all.take(done + 1).drop_last() =~= all.take(done as int));
            assert(all.take(done + 1).last() == x);
            assert(rest@.reverse() =~= all.skip(done + 1)) by {
                assert forall|q: int| 0 <= q < rest@.len() implies rest@.reverse()[q] == all.skip(done + 1)[q] by {
                    assert(rr.reverse()[q + 1] == all.skip(done as int)[q + 1]);
                }
            }
        }
        match x {
            Some(Ok(mut v)) => {
                batches.append(&mut v);
            },
            Some(Err(e)) => {
                if first.is_none() {
                    first = Some(e);
                }
            },
            None => {},
        }
        done = done + 1;
    }
    assert(all.take(n as int) =~= all);
    if batches.len() == 0 {
        if let Some(e) = first {
            return Err(e);
        }
        proof {
            reveal_strlit("No results from any datanode");
        }
        return Err(DistributedError::QueryExecution(String::from_str("No results from any datanode")));
    }
    Ok(batches)
}

} // verus!
