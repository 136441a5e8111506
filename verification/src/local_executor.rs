//! The regions a datanode's local executor serves.

use vstd::prelude::*;
use crate::ids::{NodeId, RegionId};

verus! {

/// The region bookkeeping of a datanode's local executor: the node it runs
/// on and the regions it manages, each once, in the order they came.
#[derive(Debug, Clone)]
pub struct LocalExecutor {
    node_id: NodeId,
    managed_regions: Vec<RegionId>,
}

/// No region occurs twice.
pub open spec fn no_duplicates(s: Seq<RegionId>) -> bool {
    forall|i: int, j: int| 0 <= i < s.len() && 0 <= j < s.len() && i != j ==> s[i] != s[j]
}

/// The regions of `s` other than `r`, in order.
pub open spec fn without_region(s: Seq<RegionId>, r: RegionId) -> Seq<RegionId> {
    s.filter(other_than(r))
}

/// The test that keeps every region but `r`.
pub open spec fn other_than(r: RegionId) -> spec_fn(RegionId) -> bool {
    |x: RegionId| x != r
}

impl LocalExecutor {
    /// The node the executor runs on.
    pub closed spec fn spec_node_id(&self) -> NodeId {
        self.node_id
    }

    /// The regions it manages, in the order they were added.
    pub closed spec fn regions(&self) -> Seq<RegionId> {
        self.managed_regions@
    }

    /// Each region occurs once.
    pub open spec fn wf(&self) -> bool {
        no_duplicates(self.regions())
    }

    /// An executor for a node, managing no region yet.
    pub fn new(node_id: NodeId) -> (e: Self)
        ensures
            e.spec_node_id() == node_id,
            e.regions() == Seq::<RegionId>::empty(),
            e.wf(),
    {
        LocalExecutor { node_id, managed_regions: Vec::new() }
    }

    /// Get the node ID.
    pub fn node_id(&self) -> (n: NodeId)
        ensures
            n == self.spec_node_id(),
    {
        self.node_id
    }

    /// Adds a region, unless it is managed already.
    pub fn add_region(&mut self, region_id: RegionId)
        requires
            old(self).wf(),
        ensures
            final(self).wf(),
            final(self).spec_node_id() == old(self).spec_node_id(),
            old(self).regions().contains(region_id) ==> final(self).regions() == old(self).regions(),
            !old(self).regions().contains(region_id) ==> final(self).regions() == old(self).regions().push(
                region_id,
            ),
    {
        if !self.has_region(region_id) {
            self.managed_regions.push(region_id);
        }
    }

    /// Removes a region, if it is managed.
    pub fn remove_region(&mut self, region_id: RegionId)
        requires
            old(self).wf(),
        ensures
            final(self).wf(),
            final(self).spec_node_id() == old(self).spec_node_id(),
            final(self).regions() == without_region(old(self).regions(), region_id),
    {
        let mut kept: Vec<RegionId> = Vec::new();
        let mut i: usize = 0;
        while i < self.managed_regions.len()
            invariant
                i <= self.managed_regions@.len(),
                kept@ == without_region(self.managed_regions@.take(i as int), region_id),
            decreases self.managed_regions.len() - i,
        {
            let r = self.managed_regions[i];
            proof {
                let s = self.managed_regions@;
                assert(s.take(i as int + 1).drop_last() =~= s.take(i as int));
                reveal_with_fuel(Seq::<RegionId>::filter, 1);
            }
            if r != region_id {
                kept.push(r);
            }
            i = i + 1;
            assert(kept@ =~= without_region(self.managed_regions@.take(i as int), region_id));
        }
        proof {
            assert(self.managed_regions@.take(i as int) =~= self.managed_regions@);
            lemma_filter_no_duplicates(self.managed_regions@, region_id);
        }
        self.managed_regions = kept;
    }

    /// Whether a region is managed by this executor.
    pub fn has_region(&self, region_id: RegionId) -> (b: bool)
        ensures
            b == self.regions().contains(region_id),
    {
        let mut i: usize = 0;
        while i < self.managed_regions.len()
            invariant
                i <= self.managed_regions@.len(),
                forall|j: int| 0 <= j < i ==> self.managed_regions@[j] != region_id,
            decreases self.managed_regions.len() - i,
        {
            if self.managed_regions[i] == region_id {
                return true;
            }
            i = i + 1;
        }
        false
    }

    /// All managed regions, in the order they were added.
    pub fn get_managed_regions(&self) -> (v: Vec<RegionId>)
        ensures
            v@ == self.regions(),
    {
        self.managed_regions.clone()
    }
}

/// Filtering keeps a sequence free of duplicates.
pub proof fn lemma_filter_no_duplicates(s: Seq<RegionId>, r: RegionId)
    requires
        no_duplicates(s),
    ensures
        no_duplicates(without_region(s, r)),
    decreases s.len(),
{
    reveal_with_fuel(Seq::<RegionId>::filter, 1);
    if s.len() > 0 {
        let init = s.drop_last();
        assert(no_duplicates(init));
        lemma_filter_no_duplicates(init, r);
        let fi = without_region(init, r);
        if s.last() != r {
            assert(without_region(s, r) =~= fi.push(s.last()));
            assert(!fi.contains(s.last())) by {
                if fi.contains(s.last()) {
                    init.lemma_filter_contains_rev(other_than(r), s.last());
                    let k = choose|k: int| 0 <= k < init.len() && init[k] == s.last();
                    assert(s[k] == s[s.len() - 1]);
                }
            }
        } else {
            assert(without_region(s, r) =~= fi);
        }
    }
}


/// A region that was added is managed; a region that was removed is not;
/// adding a managed region or removing an unmanaged one changes nothing.
pub proof fn law_region_membership(s: Seq<RegionId>, r: RegionId)
    ensures
        s.push(r).contains(r),
        !without_region(s, r).contains(r),
        !s.contains(r) ==> without_region(s, r) == s,
{
    assert(s.push(r)[s.len() as int] == r);
    if without_region(s, r).contains(r) {
        let k = choose|k: int| 0 <= k < without_region(s, r).len() && without_region(s, r)[k] == r;
        s.lemma_filter_pred(other_than(r), k);
    }
    if !s.contains(r) {
        lemma_filter_keeps_all(s, r);
    }
}

/// Filtering out a region that does not occur keeps the sequence.
proof fn lemma_filter_keeps_all(s: Seq<RegionId>, r: RegionId)
    requires
        !s.contains(r),
    ensures
        without_region(s, r) == s,
    decreases s.len(),
{
    reveal_with_fuel(Seq::<RegionId>::filter, 1);
    if s.len() > 0 {
        assert(!s.drop_last().contains(r)) by {
            if s.drop_last().contains(r) {
                let k = choose|k: int| 0 <= k < s.drop_last().len() && s.drop_last()[k] == r;
                assert(s[k] == r);
            }
        }
        lemma_filter_keeps_all(s.drop_last(), r);
        assert(s.last() != r) by {
            assert(s[s.len() - 1] == s.last());
        }
        assert(without_region(s, r) =~= s.drop_last().push(s.last()));
        assert(s.drop_last().push(s.last()) =~= s);
    }
}

} // verus!
