//! Join planning across nodes: when to broadcast the smaller side, and how
//! the size statistics of several nodes combine.

use vstd::prelude::*;

verus! {

/// The default size below which a join side is broadcast: 100 MB.
pub const BROADCAST_THRESHOLD: usize = 104857600;

/// How well a statistic is known.
#[derive(Debug, Clone, Copy, PartialEq, Eq, Structural)]
pub enum Precision {
    /// The exact value
    Exact(usize),
    /// An estimate
    Inexact(usize),
    /// Not known
    Absent,
}

/// What is known of the size of a plan's output.
#[derive(Debug, Clone, Copy, PartialEq, Eq, Structural)]
pub struct SizeStatistics {
    /// Number of rows
    pub num_rows: Precision,
    /// Total size in bytes
    pub total_byte_size: Precision,
}

/// The estimated size in bytes: the byte size when known, else 100 bytes a
/// row, else unbounded.
pub open spec fn spec_estimate_size(s: SizeStatistics) -> int {
    match s.total_byte_size {
        Precision::Exact(b) => b as int,
        Precision::Inexact(b) => b as int,
        Precision::Absent => match s.num_rows {
            Precision::Exact(r) => r * 100,
            Precision::Inexact(r) => r * 100,
            Precision::Absent => usize::MAX as int,
        },
    }
}

/// What to do with a node of a physical plan.
#[derive(Debug, Clone, Copy, PartialEq, Eq, Structural)]
pub enum JoinNodeAction {
    /// Try to broadcast one side of the hash join
    TryBroadcast,
    /// Turn the join into a hash join (the plan is kept as it is)
    ConvertToHash,
    /// Leave the node alone
    Keep,
}

/// How a hash join is executed.
#[derive(Debug, Clone, Copy, PartialEq, Eq, Structural)]
pub enum JoinMode {
    /// Keep the join as planned
    Keep,
    /// Collect the left side and send it to every partition
    CollectLeft,
}

/// Whether `needle` occurs in `s`.
pub open spec fn text_contains(s: Seq<char>, needle: Seq<char>) -> bool {
    exists|i: int| 0 <= i && i + needle.len() <= s.len() && #[trigger] s.subrange(i, i + needle.len()) == needle
}

/// Whether `needle` occurs in `s`.
pub fn chars_contain(s: &Vec<char>, needle: &Vec<char>) -> (b: bool)
    ensures
        b == text_contains(s@, needle@),
{
    if needle.len() > s.len() {
        return false;
    }
    let mut i: usize = 0;
    while i <= s.len() - needle.len()
        invariant
            needle.len() <= s.len(),
            i <= s.len() - needle.len() + 1,
            forall|k: int| 0 <= k < i ==> #[trigger] s@.subrange(k, k + needle@.len()) != needle@,
        decreases s.len() - i,
    {
        let mut j: usize = 0;
        while j < needle.len() && s[i + j] == needle[j]
            invariant
                i + needle.len() <= s.len(),
                j <= needle.len(),
                forall|q: int| 0 <= q < j ==> s@[i + q] == needle@[q],
            decreases needle.len() - j,
        {
            j = j + 1;
        }
        if j == needle.len() {
            assert(s@.subrange(i as int, i + needle@.len()) =~= needle@);
            return true;
        }
        assert(s@.subrange(i as int, i + needle@.len())[j as int] != needle@[j as int]);
        i = i + 1;
    }
    proof {
        assert forall|k: int| 0 <= k && k + needle@.len() <= s@.len() implies #[trigger] s@.subrange(k, k + needle@.len()) != needle@ by {
            assert(k < i);
        }
    }
    false
}

/// Joins across nodes, and when one side is small enough to broadcast.
#[derive(Debug, Clone, Copy)]
pub struct DistributedJoinOptimizer {
    pub enable_filter_pushdown: bool,
    pub enable_predicate_extraction: bool,
    pub enable_hash_join: bool,
    pub enable_broadcast_join: bool,
    pub broadcast_threshold: usize,
}

impl DistributedJoinOptimizer {
    /// Everything enabled, with the default threshold.
    pub fn new() -> (o: Self)
        ensures
            o.enable_filter_pushdown,
            o.enable_predicate_extraction,
            o.enable_hash_join,
            o.enable_broadcast_join,
            o.broadcast_threshold == BROADCAST_THRESHOLD,
    {
        DistributedJoinOptimizer {
            enable_filter_pushdown: true,
            enable_predicate_extraction: true,
            enable_hash_join: true,
            enable_broadcast_join: true,
            broadcast_threshold: BROADCAST_THRESHOLD,
        }
    }

    /// Sets the broadcast threshold.
    pub fn with_broadcast_threshold(self, threshold: usize) -> (o: Self)
        ensures
            o == (DistributedJoinOptimizer { broadcast_threshold: threshold, ..self }),
    {
        let mut o = self;
        o.broadcast_threshold = threshold;
        o
    }

    /// The estimated size in bytes of a plan's output.
    pub fn estimate_size(stats: &SizeStatistics) -> (n: usize)
        requires
            stats.total_byte_size is Absent ==> match stats.num_rows {
                Precision::Exact(r) => r * 100 <= usize::MAX,
                Precision::Inexact(r) => r * 100 <= usize::MAX,
                Precision::Absent => true,
            },
        ensures
            n == spec_estimate_size(*stats),
    {
        match stats.total_byte_size {
            Precision::Exact(size) => size,
            Precision::Inexact(size) => size,
            Precision::Absent => match stats.num_rows {
                Precision::Exact(rows) => rows * 100,
                Precision::Inexact(rows) => rows * 100,
                Precision::Absent => usize::MAX,
            },
        }
    }

    /// How a hash join with sides of these sizes runs: the left side is
    /// collected when it is below the threshold and smaller than the right.
    pub fn broadcast_mode(&self, left_size: usize, right_size: usize) -> (m: JoinMode)
        ensures
            m == (if left_size < self.broadcast_threshold && left_size < right_size {
                JoinMode::CollectLeft
            } else {
                JoinMode::Keep
            }),
    {
        let should_broadcast_left = left_size < self.broadcast_threshold && left_size < right_size;
        let should_broadcast_right = right_size < self.broadcast_threshold && right_size < left_size;
        if !should_broadcast_left && !should_broadcast_right {
            return JoinMode::Keep;
        }
        if should_broadcast_left {
            JoinMode::CollectLeft
        } else {
            JoinMode::Keep
        }
    }

    /// What to do with a plan node of the given name.
    pub fn join_node_action(&self, plan_name: &str) -> (a: JoinNodeAction)
        ensures
            plan_name@ == "HashJoinExec"@ && self.enable_broadcast_join ==> a == JoinNodeAction::TryBroadcast,
            plan_name@ != "HashJoinExec"@ && text_contains(plan_name@, "Join"@) && self.enable_hash_join
                ==> a == JoinNodeAction::ConvertToHash,
            !(plan_name@ == "HashJoinExec"@ && self.enable_broadcast_join) && !(plan_name@ != "HashJoinExec"@
                && text_contains(plan_name@, "Join"@) && self.enable_hash_join) ==> a == JoinNodeAction::Keep,
    {
        let name = String::from_str(plan_name);
        let is_hash_join = name == String::from_str("HashJoinExec");
        if is_hash_join && self.enable_broadcast_join {
            return JoinNodeAction::TryBroadcast;
        }
        let name_chars = crate::decimal::str_to_chars(plan_name);
        let needle = crate::decimal::str_to_chars("Join");
        if chars_contain(&name_chars, &needle) && !is_hash_join {
            if self.enable_hash_join {
                return JoinNodeAction::ConvertToHash;
            }
        }
        JoinNodeAction::Keep
    }
}

impl Default for DistributedJoinOptimizer {
    fn default() -> (o: Self)
        ensures
            o.enable_filter_pushdown,
            o.enable_predicate_extraction,
            o.enable_hash_join,
            o.enable_broadcast_join,
            o.broadcast_threshold == BROADCAST_THRESHOLD,
    {
        DistributedJoinOptimizer::new()
    }
}

/// Rewrites physical plans so that the scans under joins stay remote.
#[derive(Debug, Clone, Copy)]
pub struct PhysicalJoinOptimizer {}

impl PhysicalJoinOptimizer {
    pub fn new() -> (o: Self) {
        PhysicalJoinOptimizer {}
    }
}

impl Default for PhysicalJoinOptimizer {
    fn default() -> (o: Self) {
        PhysicalJoinOptimizer::new()
    }
}

/// The total of the exact row counts and whether there was one, and the total
/// of the exact byte sizes, over the statistics that could be fetched.
pub open spec fn merged_totals(stats: Seq<Option<SizeStatistics>>) -> (int, bool, int)
    decreases stats.len(),
{
    if stats.len() == 0 {
        (0, false, 0)
    } else {
        let (rows, seen, bytes) = merged_totals(stats.drop_last());
        match stats.last() {
            Some(s) => (
                rows + match s.num_rows {
                    Precision::Exact(r) => r as int,
                    _ => 0,
                },
                seen || s.num_rows is Exact,
                bytes + match s.total_byte_size {
                    Precision::Exact(b) => b as int,
                    _ => 0,
                },
            ),
            None => (rows, seen, bytes),
        }
    }
}

/// Merges the statistics of a table fetched from several nodes (`None` where
/// fetching failed): exact counts add up; when no node had an exact row
/// count, nothing is known.
pub fn merge_node_statistics(stats: &Vec<Option<SizeStatistics>>) -> (m: SizeStatistics)
    requires
        merged_totals(stats@).0 <= u64::MAX,
        merged_totals(stats@).2 <= u64::MAX,
    ensures
        ({
            let (rows, seen, bytes) = merged_totals(stats@);
            &&& seen ==> m == (SizeStatistics {
                num_rows: Precision::Exact(rows as u64 as usize),
                total_byte_size: Precision::Exact(bytes as u64 as usize),
            })
            &&& !seen ==> m == (SizeStatistics { num_rows: Precision::Absent, total_byte_size: Precision::Absent })
        }),
{
    let mut total_rows: u64 = 0;
    let mut total_bytes: u64 = 0;
    let mut has_data = false;
    let mut i: usize = 0;
    while i < stats.len()
        invariant
            i <= stats.len(),
            merged_totals(stats@).0 <= u64::MAX,
            merged_totals(stats@).2 <= u64::MAX,
            (total_rows as int, has_data, total_bytes as int) == merged_totals(stats@.take(i as int)),
        decreases stats.len() - i,
    {
        proof {
            assert(stats@.take(i + 1).drop_last() =~= stats@.take(i as int));
            lemma_merged_totals_prefix(stats@, i + 1);
        }
        if let Some(s) = stats[i] {
            if let Precision::Exact(rows) = s.num_rows {
                total_rows = total_rows + rows as u64;
                has_data = true;
            }
            if let Precision::Exact(bytes) = s.total_byte_size {
                total_bytes = total_bytes + bytes as u64;
            }
        }
        i = i + 1;
    }
    assert(stats@.take(stats.len() as int) =~= stats@);
    if has_data {
        SizeStatistics {
            num_rows: Precision::Exact(total_rows as usize),
            total_byte_size: Precision::Exact(total_bytes as usize),
        }
    } else {
        SizeStatistics { num_rows: Precision::Absent, total_byte_size: Precision::Absent }
    }
}

/// The totals of a prefix are at most those of the whole.
proof fn lemma_merged_totals_prefix(stats: Seq<Option<SizeStatistics>>, k: int)
    requires
        0 <= k <= stats.len(),
    ensures
        merged_totals(stats.take(k)).0 <= merged_totals(stats).0,
        merged_totals(stats.take(k)).2 <= merged_totals(stats).2,
        merged_totals(stats.take(k)).0 >= 0,
        merged_totals(stats.take(k)).2 >= 0,
    decreases stats.len() - k,
{
    lemma_merged_totals_nonneg(stats.take(k));
    if k < stats.len() {
        lemma_merged_totals_prefix(stats, k + 1);
        assert(stats.take(k + 1).drop_last() =~= stats.take(k));
    } else {
        assert(stats.take(k) =~= stats);
        lemma_merged_totals_nonneg(stats);
    }
}

/// Totals are never negative.
proof fn lemma_merged_totals_nonneg(stats: Seq<Option<SizeStatistics>>)
    ensures
        merged_totals(stats).0 >= 0,
        merged_totals(stats).2 >= 0,
    decreases stats.len(),
{
    if stats.len() > 0 {
        lemma_merged_totals_nonneg(stats.drop_last());
    }
}

/// The estimated number of rows, when one is known.
pub fn estimate_row_count(stats: &SizeStatistics) -> (n: Option<usize>)
    ensures
        n == match stats.num_rows {
            Precision::Exact(r) => Some(r),
            Precision::Inexact(r) => Some(r),
            Precision::Absent => None::<usize>,
        },
{
    match stats.num_rows {
        Precision::Exact(rows) => Some(rows),
        Precision::Inexact(rows) => Some(rows),
        Precision::Absent => None,
    }
}

} // verus!
