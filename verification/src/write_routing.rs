//! Routing of line protocol writes to the regions that take them.
//!
//! A write is planned table by table: the measurement names are read from
//! the text, the program fetches each table's regions, and the plan picks the
//! region that takes the table's data and groups the data by region. The
//! answers of the datanodes are then folded into a `WriteResult`.

use vstd::prelude::*;
use vstd::string::StringSliceAdditionalSpecFns;
use dashmap::DashMap;
use crate::dmap::{
    cached_regions, cached_regions_clear, cached_regions_get, cached_regions_insert,
    cached_regions_new, cached_regions_remove,
};
use crate::error::{DistributedError, Result, spec_error_message};
use crate::ids::{NodeId, RegionId};
use crate::line_protocol::{extract_table_names, table_names};
use crate::proto::WriteResponse;
use crate::region::{RegionInfo, RegionStatus, compute_partition_hash_from_str, spec_xxhash64};
use crate::region_manager::{make_table_key, table_key};

verus! {

/// A region takes writes when it is active.
pub open spec fn takes_writes(r: RegionInfo) -> bool {
    r.status == RegionStatus::Active
}

/// The index of the first region that takes writes, or -1.
pub open spec fn first_writable_from(regions: Seq<RegionInfo>, i: int) -> int
    decreases regions.len() - i,
{
    if i < 0 || i >= regions.len() {
        -1
    } else if takes_writes(regions[i]) {
        i
    } else {
        first_writable_from(regions, i + 1)
    }
}

/// The message when a table has regions but none takes writes.
pub open spec fn no_writable_message(database: Seq<char>, table: Seq<char>) -> Seq<char> {
    "No writable region for table "@ + database + "."@ + table
}

/// Choose the region that takes a table's data: the first one that takes
/// writes.
pub fn select_write_target(regions: &[RegionInfo], database: &str, table: &str) -> (res: Result<(NodeId, RegionId)>)
    ensures
        regions@.len() == 0 ==> (res matches Err(DistributedError::TableNotFound { database: d, table: t })
            && d@ == database@ && t@ == table@),
        regions@.len() > 0 && first_writable_from(regions@, 0) < 0 ==> (res matches Err(
            DistributedError::WriteError(m),
        ) && m@ == no_writable_message(database@, table@)),
        first_writable_from(regions@, 0) >= 0 ==> ({
            let r = regions@[first_writable_from(regions@, 0)];
            res == Ok::<(NodeId, RegionId), DistributedError>((r.node_id, r.region_id))
        }),
{
    if regions.len() == 0 {
        return Err(
            DistributedError::TableNotFound {
                database: String::from_str(database),
                table: String::from_str(table),
            },
        );
    }
    let mut i: usize = 0;
    while i < regions.len()
        invariant
            i <= regions.len(),
            first_writable_from(regions@, 0) == first_writable_from(regions@, i as int),
        decreases regions.len() - i,
    {
        if regions[i].can_accept_write() {
            return Ok((regions[i].node_id, regions[i].region_id));
        }
        i = i + 1;
    }
    let mut msg = String::from_str("No writable region for table ");
    msg.append(database);
    msg.append(".");
    msg.append(table);
    proof {
        reveal_strlit("No writable region for table ");
        reveal_strlit(".");
    }
    assert(msg@ =~= no_writable_message(database@, table@));
    Err(DistributedError::WriteError(msg))
}

/// Data for one region of one node.
#[derive(Debug, Clone)]
pub struct WriteBatch {
    /// The node hosting the region
    pub node_id: NodeId,
    /// The region the data goes to
    pub region_id: RegionId,
    /// The pieces of line protocol, joined by newlines when sent
    pub lines: Vec<String>,
}

/// A batch as plain values.
pub open spec fn batch_view(b: WriteBatch) -> (NodeId, RegionId, Seq<Seq<char>>) {
    (b.node_id, b.region_id, b.lines@.map_values(|s: String| s@))
}

/// Batches as plain values.
pub open spec fn batches_view(bs: Seq<WriteBatch>) -> Seq<(NodeId, RegionId, Seq<Seq<char>>)> {
    bs.map_values(|b: WriteBatch| batch_view(b))
}

/// No two batches go to the same node and region.
pub open spec fn keys_distinct(bs: Seq<(NodeId, RegionId, Seq<Seq<char>>)>) -> bool {
    forall|a: int, b: int| 0 <= a < b < bs.len() ==> (bs[a].0, bs[a].1) != (bs[b].0, bs[b].1)
}

/// The index of the batch for a node and region, or -1.
pub open spec fn batch_index_from(
    bs: Seq<(NodeId, RegionId, Seq<Seq<char>>)>,
    node: NodeId,
    region: RegionId,
    i: int,
) -> int
    decreases bs.len() - i,
{
    if i < 0 || i >= bs.len() {
        -1
    } else if bs[i].0 == node && bs[i].1 == region {
        i
    } else {
        batch_index_from(bs, node, region, i + 1)
    }
}

/// The batches after a piece of data for a node and region was added: to
/// its batch when there is one, else in a new batch at the end.
pub open spec fn add_line(
    bs: Seq<(NodeId, RegionId, Seq<Seq<char>>)>,
    node: NodeId,
    region: RegionId,
    line: Seq<char>,
) -> Seq<(NodeId, RegionId, Seq<Seq<char>>)> {
    let i = batch_index_from(bs, node, region, 0);
    if i >= 0 {
        bs.update(i, (node, region, bs[i].2.push(line)))
    } else {
        bs.push((node, region, seq![line]))
    }
}

proof fn lemma_batch_index(bs: Seq<(NodeId, RegionId, Seq<Seq<char>>)>, node: NodeId, region: RegionId, i: int)
    requires
        0 <= i <= bs.len(),
    ensures
        batch_index_from(bs, node, region, i) == -1 || (i <= batch_index_from(bs, node, region, i)
            < bs.len() && bs[batch_index_from(bs, node, region, i)].0 == node
            && bs[batch_index_from(bs, node, region, i)].1 == region),
        batch_index_from(bs, node, region, i) == -1 ==> forall|k: int| i <= k < bs.len() ==> !(
            #[trigger] bs[k].0 == node && bs[k].1 == region),
    decreases bs.len() - i,
{
    if i < bs.len() {
        lemma_batch_index(bs, node, region, i + 1);
    }
}

/// Adds a piece of data for a node and region to the batches.
pub fn add_to_batches(batches: &mut Vec<WriteBatch>, node_id: NodeId, region_id: RegionId, line: String)
    requires
        keys_distinct(batches_view(old(batches)@)),
    ensures
        keys_distinct(batches_view(final(batches)@)),
        batches_view(final(batches)@) == add_line(batches_view(old(batches)@), node_id, region_id, line@),
{
    let ghost bv = batches_view(batches@);
    let mut i: usize = 0;
    while i < batches.len()
        invariant
            i <= batches.len(),
            bv == batches_view(batches@),
            bv == batches_view(old(batches)@),
            keys_distinct(bv),
            batch_index_from(bv, node_id, region_id, 0) == batch_index_from(bv, node_id, region_id, i as int),
        decreases batches.len() - i,
    {
        if batches[i].node_id == node_id && batches[i].region_id == region_id {
            let ghost before = batches@;
            let mut b = batches.remove(i);
            let ghost old_lines = b.lines@;
            b.lines.push(line);
            proof {
                assert(b.lines@.map_values(|s: String| s@) =~= old_lines.map_values(|s: String| s@).push(line@));
                assert(batch_view(b) == (node_id, region_id, bv[i as int].2.push(line@)));
            }
            batches.insert(i, b);
            proof {
                assert(batches@ =~= before.update(i as int, b));
                assert(bv[i as int].0 == node_id && bv[i as int].1 == region_id);
                assert(batch_index_from(bv, node_id, region_id, i as int) == i);
                assert(batches_view(batches@) =~= bv.update(i as int, (node_id, region_id, bv[i as int].2.push(line@))));
                let nv = batches_view(batches@);
                assert forall|a: int, c: int| 0 <= a < c < nv.len() implies (nv[a].0, nv[a].1) != (nv[c].0, nv[c].1) by {
                    assert((nv[a].0, nv[a].1) == (bv[a].0, bv[a].1));
                    assert((nv[c].0, nv[c].1) == (bv[c].0, bv[c].1));
                }
            }
            return;
        }
        i = i + 1;
    }
    proof {
        lemma_batch_index(bv, node_id, region_id, 0);
    }
    let mut lines: Vec<String> = Vec::new();
    lines.push(line);
    let nb = WriteBatch { node_id, region_id, lines };
    proof {
        assert(nb.lines@.map_values(|s: String| s@) =~= seq![line@]);
    }
    batches.push(nb);
    proof {
        let nv = batches_view(batches@);
        assert(nv =~= bv.push((node_id, region_id, seq![line@])));
        assert forall|a: int, c: int| 0 <= a < c < nv.len() implies (nv[a].0, nv[a].1) != (nv[c].0, nv[c].1) by {
            if c == bv.len() {
                assert(!(bv[a].0 == node_id && bv[a].1 == region_id));
            }
        }
    }
}

/// The text sent for a batch: its pieces joined by newlines.
pub open spec fn joined(lines: Seq<Seq<char>>) -> Seq<char>
    decreases lines.len(),
{
    if lines.len() == 0 {
        Seq::empty()
    } else if lines.len() == 1 {
        lines[0]
    } else {
        joined(lines.drop_last()) + "\n"@ + lines.last()
    }
}

impl WriteBatch {
    /// The pieces joined by newlines.
    pub fn data(&self) -> (s: String)
        ensures
            s@ == joined(self.lines@.map_values(|l: String| l@)),
    {
        let ghost ls = self.lines@.map_values(|l: String| l@);
        let mut s = String::new();
        let mut i: usize = 0;
        proof {
            reveal_strlit("\n");
        }
        while i < self.lines.len()
            invariant
                i <= self.lines.len(),
                ls == self.lines@.map_values(|l: String| l@),
                s@ == joined(ls.take(i as int)),
            decreases self.lines.len() - i,
        {
            proof {
                assert(ls.take(i + 1).drop_last() =~= ls.take(i as int));
            }
            if i > 0 {
                s.append("\n");
            }
            s.append(self.lines[i].as_str());
            i = i + 1;
            proof {
                if i == 1 {
                    assert(ls.take(1)[0] == ls[0]);
                }
            }
        }
        assert(ls.take(self.lines.len() as int) =~= ls);
        s
    }
}

/// The routing of one write, decided table by table.
///
/// The program asks for the regions of each pending table and hands them to
/// `accept_regions`; when no table is pending, `batches` says what to send
/// where.
pub struct WritePlan {
    database: String,
    line_protocol: String,
    tables: Vec<String>,
    next_table: usize,
    batches: Vec<WriteBatch>,
}

impl WritePlan {
    /// The database written to.
    pub closed spec fn spec_database(&self) -> Seq<char> {
        self.database@
    }

    /// The text written.
    pub closed spec fn spec_line_protocol(&self) -> Seq<char> {
        self.line_protocol@
    }

    /// The tables of the write, in order of first appearance.
    pub closed spec fn spec_tables(&self) -> Seq<Seq<char>> {
        self.tables@.map_values(|t: String| t@)
    }

    /// How many tables were routed so far.
    pub closed spec fn routed(&self) -> nat {
        self.next_table as nat
    }

    /// The batches decided so far.
    pub closed spec fn spec_batches(&self) -> Seq<(NodeId, RegionId, Seq<Seq<char>>)> {
        batches_view(self.batches@)
    }

    /// The plan's parts agree.
    pub closed spec fn wf(&self) -> bool {
        &&& self.next_table <= self.tables@.len()
        &&& keys_distinct(batches_view(self.batches@))
    }

    /// Starts routing a write: reads the tables of the text.
    pub fn start(database: &str, line_protocol: &str) -> (res: Result<WritePlan>)
        ensures
            table_names(line_protocol@).len() == 0 ==> (res matches Err(DistributedError::WriteError(m))
                && m@ == "No valid data points in line protocol"@),
            table_names(line_protocol@).len() > 0 ==> (res matches Ok(p) && p.wf() && p.spec_database()
                == database@ && p.spec_line_protocol() == line_protocol@ && p.spec_tables() == table_names(
                line_protocol@,
            ) && p.routed() == 0 && p.spec_batches().len() == 0),
    {
        let tables = extract_table_names(line_protocol);
        if tables.len() == 0 {
            proof {
                reveal_strlit("No valid data points in line protocol");
            }
            return Err(DistributedError::WriteError(String::from_str("No valid data points in line protocol")));
        }
        let p = WritePlan {
            database: String::from_str(database),
            line_protocol: String::from_str(line_protocol),
            tables,
            next_table: 0,
            batches: Vec::new(),
        };
        assert(p.spec_tables() =~= table_names(line_protocol@));
        assert(batches_view(p.batches@) =~= Seq::empty());
        Ok(p)
    }

    /// The table whose regions are needed next, if any.
    pub fn pending_table(&self) -> (t: Option<String>)
        requires
            self.wf(),
        ensures
            self.routed() < self.spec_tables().len() ==> (t matches Some(x) && x@ == self.spec_tables()[self.routed() as int]),
            self.routed() >= self.spec_tables().len() ==> t is None,
    {
        if self.next_table < self.tables.len() {
            Some(self.tables[self.next_table].clone())
        } else {
            None
        }
    }

    /// Routes the pending table to a region among `regions`: the whole text
    /// goes to the first region that takes writes.
    pub fn accept_regions(&mut self, regions: &[RegionInfo]) -> (res: Result<()>)
        requires
            old(self).wf(),
            old(self).routed() < old(self).spec_tables().len(),
        ensures
            final(self).wf(),
            final(self).spec_database() == old(self).spec_database(),
            final(self).spec_line_protocol() == old(self).spec_line_protocol(),
            final(self).spec_tables() == old(self).spec_tables(),
            ({
                let table = old(self).spec_tables()[old(self).routed() as int];
                let i = first_writable_from(regions@, 0);
                &&& regions@.len() == 0 ==> (res matches Err(
                    DistributedError::TableNotFound { database: d, table: t },
                ) && d@ == old(self).spec_database() && t@ == table)
                &&& regions@.len() > 0 && i < 0 ==> (res matches Err(DistributedError::WriteError(m))
                    && m@ == no_writable_message(old(self).spec_database(), table))
                &&& res is Err ==> final(self).routed() == old(self).routed() && final(self).spec_batches()
                    == old(self).spec_batches()
                &&& i >= 0 ==> res is Ok && final(self).routed() == old(self).routed() + 1
                    && final(self).spec_batches() == add_line(
                    old(self).spec_batches(),
                    regions@[i].node_id,
                    regions@[i].region_id,
                    old(self).spec_line_protocol(),
                )
            }),
    {
        assert(self.spec_tables().len() == self.tables@.len());
        let n = self.next_table;
        assert(n < self.tables.len());
        let table = self.tables[n].clone();
        let (node_id, region_id) = select_write_target(regions, self.database.as_str(), table.as_str())?;
        add_to_batches(&mut self.batches, node_id, region_id, self.line_protocol.clone());
        self.next_table = n + 1;
        Ok(())
    }

    /// The batches decided so far.
    pub fn batches(&self) -> (b: &Vec<WriteBatch>)
        ensures
            batches_view(b@) == self.spec_batches(),
    {
        &self.batches
    }
}

/// Result for a single partition write.
#[derive(Debug)]
pub enum WritePartResult {
    /// Write succeeded
    Success { node_id: NodeId, region_id: RegionId, points_written: u64 },
    /// Write failed
    Failed { node_id: NodeId, region_id: RegionId, error: String },
}

/// Result of a distributed write operation.
#[derive(Debug)]
pub struct WriteResult {
    /// Total points written across all partitions
    pub total_points_written: u64,
    /// Results for each partition
    pub partitions: Vec<WritePartResult>,
}

/// The number of failed parts.
pub open spec fn failures(parts: Seq<WritePartResult>) -> nat
    decreases parts.len(),
{
    if parts.len() == 0 {
        0
    } else {
        failures(parts.drop_last()) + if parts.last() is Failed {
            1nat
        } else {
            0nat
        }
    }
}

/// The part result for a datanode's answer to a write.
pub open spec fn part_of_outcome(
    node_id: NodeId,
    region_id: RegionId,
    outcome: std::result::Result<WriteResponse, DistributedError>,
) -> (bool, u64, Seq<char>) {
    match outcome {
        Ok(r) => if r.success {
            (true, r.points_written, Seq::empty())
        } else {
            match r.error_message {
                Some(m) => (false, 0, m@),
                None => (false, 0, "Unknown error"@),
            }
        },
        Err(e) => (false, 0, spec_error_message(e)),
    }
}

/// A datanode's answer counts toward the points written exactly when it
/// reports success, and then with the points it reports; a refused write
/// or a failed request counts nothing and is a failure.
pub proof fn law_write_outcome_counts_its_points(
    node_id: NodeId,
    region_id: RegionId,
    outcome: std::result::Result<WriteResponse, DistributedError>,
)
    ensures
        outcome matches Ok(r) ==> (r.success ==> part_of_outcome(node_id, region_id, outcome).0
            && part_of_outcome(node_id, region_id, outcome).1 == r.points_written),
        !(outcome matches Ok(r) && r.success) ==> !part_of_outcome(node_id, region_id, outcome).0
            && part_of_outcome(node_id, region_id, outcome).1 == 0,
{
}

proof fn lemma_failures_bound(parts: Seq<WritePartResult>)
    ensures
        failures(parts) <= parts.len(),
        failures(parts) == 0 <==> forall|i: int| 0 <= i < parts.len() ==> #[trigger] parts[i] is Success,
    decreases parts.len(),
{
    if parts.len() > 0 {
        lemma_failures_bound(parts.drop_last());
        let d = parts.drop_last();
        if failures(d) == 0 {
            assert forall|i: int| 0 <= i < d.len() implies #[trigger] d[i] is Success by {}
        }
        assert forall|i: int| 0 <= i < d.len() implies d[i] == #[trigger] parts[i] by {}
        if forall|i: int| 0 <= i < parts.len() ==> #[trigger] parts[i] is Success {
            assert(parts[parts.len() - 1] is Success);
            assert forall|i: int| 0 <= i < d.len() implies #[trigger] d[i] is Success by {
                assert(parts[i] is Success);
            }
        }
    }
}

impl WriteResult {
    /// An empty result.
    pub fn new() -> (r: Self)
        ensures
            r.total_points_written == 0,
            r.partitions@.len() == 0,
    {
        WriteResult { total_points_written: 0, partitions: Vec::new() }
    }

    /// Adds the answer of a datanode for one batch.
    pub fn record(&mut self, node_id: NodeId, region_id: RegionId, outcome: Result<WriteResponse>)
        requires
            outcome matches Ok(r) ==> (r.success ==> old(self).total_points_written + r.points_written
                <= u64::MAX),
        ensures
            outcome matches Ok(r) ==> (r.success ==> final(self).total_points_written == old(
                self,
            ).total_points_written + r.points_written && final(self).partitions@.last() == (WritePartResult::Success {
                node_id,
                region_id,
                points_written: r.points_written,
            })),
            !(outcome matches Ok(r) && r.success) ==> final(self).total_points_written == old(
                self,
            ).total_points_written && final(self).partitions@.last() is Failed,
            ({
                let (ok, points, error) = part_of_outcome(node_id, region_id, outcome);
                &&& final(self).total_points_written == old(self).total_points_written + points
                &&& final(self).partitions@.len() == old(self).partitions@.len() + 1
                &&& final(self).partitions@.drop_last() == old(self).partitions@
                &&& ok ==> final(self).partitions@.last() == (WritePartResult::Success {
                    node_id,
                    region_id,
                    points_written: points,
                })
                &&& !ok ==> (final(self).partitions@.last() matches WritePartResult::Failed {
                    node_id: n,
                    region_id: r,
                    error: e,
                } && n == node_id && r == region_id && e@ == error)
            }),
    {
        proof {
            reveal_strlit("Unknown error");
        }
        let part = match outcome {
            Ok(response) => {
                if response.success {
                    self.total_points_written = self.total_points_written + response.points_written;
                    WritePartResult::Success { node_id, region_id, points_written: response.points_written }
                } else {
                    let error = match response.error_message {
                        Some(m) => m,
                        None => String::from_str("Unknown error"),
                    };
                    WritePartResult::Failed { node_id, region_id, error }
                }
            },
            Err(e) => WritePartResult::Failed { node_id, region_id, error: e.to_display_string() },
        };
        let ghost before = self.partitions@;
        self.partitions.push(part);
        assert(self.partitions@.drop_last() =~= before);
    }

    /// Check if the write was fully successful.
    pub fn is_success(&self) -> (b: bool)
        ensures
            b == forall|i: int| 0 <= i < self.partitions@.len() ==> #[trigger] self.partitions@[i] is Success,
    {
        let mut i: usize = 0;
        while i < self.partitions.len()
            invariant
                i <= self.partitions.len(),
                forall|k: int| 0 <= k < i ==> #[trigger] self.partitions@[k] is Success,
            decreases self.partitions.len() - i,
        {
            match &self.partitions[i] {
                WritePartResult::Success { .. } => {},
                WritePartResult::Failed { .. } => {
                    return false;
                },
            }
            i = i + 1;
        }
        true
    }

    /// Check if there were any failures.
    pub fn has_failures(&self) -> (b: bool)
        ensures
            b == exists|i: int| 0 <= i < self.partitions@.len() && #[trigger] self.partitions@[i] is Failed,
    {
        let mut i: usize = 0;
        while i < self.partitions.len()
            invariant
                i <= self.partitions.len(),
                forall|k: int| 0 <= k < i ==> !(#[trigger] self.partitions@[k] is Failed),
            decreases self.partitions.len() - i,
        {
            match &self.partitions[i] {
                WritePartResult::Success { .. } => {},
                WritePartResult::Failed { .. } => {
                    return true;
                },
            }
            i = i + 1;
        }
        false
    }

    /// Get the number of failed partitions.
    pub fn failure_count(&self) -> (n: usize)
        ensures
            n == failures(self.partitions@),
    {
        let mut n: usize = 0;
        let mut i: usize = 0;
        while i < self.partitions.len()
            invariant
                i <= self.partitions.len(),
                n == failures(self.partitions@.take(i as int)),
            decreases self.partitions.len() - i,
        {
            proof {
                assert(self.partitions@.take(i + 1).drop_last() =~= self.partitions@.take(i as int));
                lemma_failures_bound(self.partitions@.take(i as int));
            }
            match &self.partitions[i] {
                WritePartResult::Success { .. } => {},
                WritePartResult::Failed { .. } => {
                    n = n + 1;
                },
            }
            i = i + 1;
        }
        assert(self.partitions@.take(self.partitions.len() as int) =~= self.partitions@);
        n
    }
}

/// A region holds a point when its ranges hold the point's hash and time and
/// it takes writes.
pub open spec fn holds_point(r: RegionInfo, hash: u16, timestamp_ns: i64) -> bool {
    r.partition_range.spec_contains_hash(hash) && r.partition_range.spec_contains_time(timestamp_ns)
        && takes_writes(r)
}

/// The index of the first region holding a point from index `i` on, or -1.
pub open spec fn first_holding_from(regions: Seq<RegionInfo>, hash: u16, timestamp_ns: i64, i: int) -> int
    decreases regions.len() - i,
{
    if i < 0 || i >= regions.len() {
        -1
    } else if holds_point(regions[i], hash, timestamp_ns) {
        i
    } else {
        first_holding_from(regions, hash, timestamp_ns, i + 1)
    }
}

/// The index of the first region that holds a point with the given hash
/// bucket and timestamp.
pub fn find_region_index_for_hash(regions: &[RegionInfo], hash: u16, timestamp_ns: i64) -> (r: Option<usize>)
    ensures
        first_holding_from(regions@, hash, timestamp_ns, 0) < 0 ==> r is None,
        first_holding_from(regions@, hash, timestamp_ns, 0) >= 0 ==> r == Some(
            first_holding_from(regions@, hash, timestamp_ns, 0) as usize,
        ),
{
    let mut i: usize = 0;
    while i < regions.len()
        invariant
            i <= regions.len(),
            first_holding_from(regions@, hash, timestamp_ns, 0) == first_holding_from(regions@, hash, timestamp_ns, i as int),
        decreases regions.len() - i,
    {
        if regions[i].partition_range.contains_hash(hash) && regions[i].partition_range.contains_time(timestamp_ns)
            && regions[i].can_accept_write() {
            return Some(i);
        }
        i = i + 1;
    }
    None
}

/// Find the region for a data point based on its partition key.
///
/// The key is hashed into a bucket; the answer is the index of the first
/// region that holds the bucket and the timestamp and takes writes.
pub fn find_region_index_for_point(regions: &[RegionInfo], partition_key: &str, timestamp_ns: i64) -> (r: Option<usize>)
    ensures
        ({
            let hash = (spec_xxhash64(partition_key.spec_bytes()) % 65536) as u16;
            &&& first_holding_from(regions@, hash, timestamp_ns, 0) < 0 ==> r is None
            &&& first_holding_from(regions@, hash, timestamp_ns, 0) >= 0 ==> r == Some(
                first_holding_from(regions@, hash, timestamp_ns, 0) as usize,
            )
        }),
{
    let hash = compute_partition_hash_from_str(partition_key);
    find_region_index_for_hash(regions, hash, timestamp_ns)
}

/// Cache of table region distributions, by table key.
pub struct RegionCache {
    regions: DashMap<String, Vec<RegionInfo>>,
}

impl RegionCache {
    /// The cached lists by table key.
    pub closed spec fn contents(&self) -> Map<Seq<char>, Seq<RegionInfo>> {
        cached_regions(self.regions)
    }

    /// An empty cache.
    pub fn new() -> (c: Self)
        ensures
            c.contents().dom() == Set::<Seq<char>>::empty(),
    {
        RegionCache { regions: cached_regions_new() }
    }

    /// The cached regions of a table, if any.
    pub fn get(&self, database: &str, table: &str) -> (r: Option<Vec<RegionInfo>>)
        ensures
            self.contents().contains_key(table_key(database@, table@)) ==> (r matches Some(v) && v@
                == self.contents()[table_key(database@, table@)]),
            !self.contents().contains_key(table_key(database@, table@)) ==> r is None,
    {
        let key = make_table_key(database, table);
        cached_regions_get(&self.regions, &key)
    }

    /// Remembers the regions of a table.
    pub fn insert(&mut self, database: &str, table: &str, regions: Vec<RegionInfo>)
        ensures
            final(self).contents() == old(self).contents().insert(table_key(database@, table@), regions@),
    {
        let key = make_table_key(database, table);
        cached_regions_insert(&mut self.regions, key, regions);
    }

    /// Invalidate cache for a table.
    pub fn invalidate(&mut self, database: &str, table: &str)
        ensures
            final(self).contents() == old(self).contents().remove(table_key(database@, table@)),
    {
        let key = make_table_key(database, table);
        cached_regions_remove(&mut self.regions, &key);
    }

    /// Invalidate all caches.
    pub fn invalidate_all(&mut self)
        ensures
            final(self).contents().dom() == Set::<Seq<char>>::empty(),
    {
        cached_regions_clear(&mut self.regions);
    }
}


/// What the region cache remembers reads back: after an insert the table's
/// list is the one inserted and other tables are untouched; after an
/// invalidation the table is no longer cached.
pub proof fn law_region_cache_read_back(
    contents: Map<Seq<char>, Seq<RegionInfo>>,
    key: Seq<char>,
    regions: Seq<RegionInfo>,
    other: Seq<char>,
)
    ensures
        contents.insert(key, regions).contains_key(key),
        contents.insert(key, regions)[key] == regions,
        other != key ==> contents.insert(key, regions).contains_key(other) == contents.contains_key(other),
        other != key && contents.contains_key(other) ==> contents.insert(key, regions)[other] == contents[other],
        !contents.remove(key).contains_key(key),
{
}

} // verus!
