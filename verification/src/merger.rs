//! Decisions for merging the results of several datanodes.
//!
//! The rows themselves run through the program; what stands here decides
//! how many rows of each incoming batch a limit keeps, which steps a final
//! operation asks for, how counts are summed, and how the partial
//! aggregates of the sources combine into one row per group.

use vstd::prelude::*;
use crate::error::{DistributedError, Result, spec_error_message};
use crate::ids::{NodeId, RegionId};
use crate::plan::{PlanExpr, PlanSortExpr};
use crate::optimizer::FinalOperation;

verus! {

/// Configuration for result merging.
#[derive(Debug, Clone, Copy)]
pub struct MergerConfig {
    /// Maximum number of rows to buffer before yielding
    pub batch_size: usize,
    /// Whether to preserve sort order
    pub preserve_order: bool,
    /// Memory limit for buffering (in bytes)
    pub memory_limit: usize,
}

impl Default for MergerConfig {
    fn default() -> (c: Self)
        ensures
            c.batch_size == 8192,
            !c.preserve_order,
            c.memory_limit == 256 * 1024 * 1024,
    {
        MergerConfig { batch_size: 8192, preserve_order: false, memory_limit: 256 * 1024 * 1024 }
    }
}

/// Merger for combining results from multiple sources.
#[derive(Debug)]
pub struct ResultMerger {
    config: MergerConfig,
}

impl ResultMerger {
    /// The configuration of the merger.
    pub closed spec fn spec_config(&self) -> MergerConfig {
        self.config
    }

    /// Create a new ResultMerger with default configuration.
    pub fn new() -> (m: Self)
        ensures
            m.spec_config().batch_size == 8192,
            !m.spec_config().preserve_order,
            m.spec_config().memory_limit == 256 * 1024 * 1024,
    {
        ResultMerger { config: MergerConfig::default() }
    }

    /// Create a ResultMerger with custom configuration.
    pub fn with_config(config: MergerConfig) -> (m: Self)
        ensures
            m.spec_config() == config,
    {
        ResultMerger { config }
    }

    /// The configuration of the merger.
    pub fn config(&self) -> (c: MergerConfig)
        ensures
            c == self.spec_config(),
    {
        self.config
    }
}

impl Default for ResultMerger {
    fn default() -> (m: Self)
        ensures
            m.spec_config().batch_size == 8192,
            !m.spec_config().preserve_order,
            m.spec_config().memory_limit == 256 * 1024 * 1024,
    {
        ResultMerger::new()
    }
}

/// Specification for a sort column.
#[derive(Debug, Clone)]
pub struct SortColumn {
    /// Column name
    pub name: String,
    /// Sort in descending order
    pub descending: bool,
    /// Put nulls first
    pub nulls_first: bool,
}

/// Specification for an aggregate function.
#[derive(Debug, Clone)]
pub struct AggregateSpec {
    /// Aggregate function type
    pub function: AggregateFunction,
    /// Column to aggregate
    pub column: String,
    /// Output alias
    pub alias: String,
}

/// Supported aggregate functions.
#[derive(Debug, Clone, Copy, PartialEq, Eq, Structural)]
pub enum AggregateFunction {
    Sum,
    Count,
    Min,
    Max,
    Avg,
}

/// The aggregate function an upper-case name stands for, if any.
pub open spec fn function_of_upper_name(u: Seq<char>) -> Option<AggregateFunction> {
    if u == "SUM"@ {
        Some(AggregateFunction::Sum)
    } else if u == "COUNT"@ {
        Some(AggregateFunction::Count)
    } else if u == "MIN"@ {
        Some(AggregateFunction::Min)
    } else if u == "MAX"@ {
        Some(AggregateFunction::Max)
    } else if u == "AVG"@ {
        Some(AggregateFunction::Avg)
    } else {
        None
    }
}

/// The Unicode upper-case form of a text.
pub uninterp spec fn spec_to_uppercase(s: Seq<char>) -> Seq<char>;

/// The upper-case form of a text.
///
/// Calls `str::to_uppercase`, whose result depends on the text alone (the
/// Unicode case mapping); the contract names it.
#[verifier::external_body]
pub(crate) fn to_uppercase(s: &str) -> (u: String)
    ensures
        u@ == spec_to_uppercase(s@),
{
    s.to_uppercase()
}

impl AggregateFunction {
    /// Check if this aggregate function can be computed partially.
    pub fn is_decomposable(&self) -> (b: bool)
        ensures
            b,
    {
        match self {
            AggregateFunction::Sum | AggregateFunction::Count | AggregateFunction::Min
            | AggregateFunction::Max | AggregateFunction::Avg => true,
        }
    }

    /// The function named by an already upper-cased name.
    pub fn from_upper_name(u: &str) -> (f: Option<AggregateFunction>)
        ensures
            f == function_of_upper_name(u@),
    {
        proof {
            reveal_strlit("SUM");
            reveal_strlit("COUNT");
            reveal_strlit("MIN");
            reveal_strlit("MAX");
            reveal_strlit("AVG");
        }
        let s = String::from_str(u);
        if s == String::from_str("SUM") {
            Some(AggregateFunction::Sum)
        } else if s == String::from_str("COUNT") {
            Some(AggregateFunction::Count)
        } else if s == String::from_str("MIN") {
            Some(AggregateFunction::Min)
        } else if s == String::from_str("MAX") {
            Some(AggregateFunction::Max)
        } else if s == String::from_str("AVG") {
            Some(AggregateFunction::Avg)
        } else {
            None
        }
    }

    /// Parse an aggregate function name, ignoring case.
    pub fn from_name(name: &str) -> (f: Option<AggregateFunction>)
        ensures
            f == function_of_upper_name(spec_to_uppercase(name@)),
    {
        let upper = to_uppercase(name);
        AggregateFunction::from_upper_name(upper.as_str())
    }
}

/// What a limit does with the next incoming batch.
#[derive(Debug, Clone, Copy, PartialEq, Eq, Structural)]
pub enum LimitStep {
    /// Keep the whole batch and go on
    TakeAll,
    /// Keep the first rows of the batch and stop
    TakePrefix(usize),
    /// Keep nothing more and stop
    Stop,
}

/// What a limit of `limit` rows does with a batch of `batch_rows` rows when
/// `taken` rows are kept already.
pub open spec fn spec_limit_step(taken: usize, batch_rows: usize, limit: usize) -> LimitStep {
    if taken + batch_rows <= limit {
        LimitStep::TakeAll
    } else if limit - taken > 0 {
        LimitStep::TakePrefix((limit - taken) as usize)
    } else {
        LimitStep::Stop
    }
}

/// Decides how much of the next batch a limit keeps: all of it while the
/// total stays within the limit, else the rows still missing (if any), after
/// which collecting stops.
pub fn limit_step(taken: usize, batch_rows: usize, limit: usize) -> (s: LimitStep)
    requires
        taken <= limit,
        taken + batch_rows <= usize::MAX,
    ensures
        s == spec_limit_step(taken, batch_rows, limit),
{
    if taken + batch_rows <= limit {
        LimitStep::TakeAll
    } else {
        let remaining = limit - taken;
        if remaining > 0 {
            LimitStep::TakePrefix(remaining)
        } else {
            LimitStep::Stop
        }
    }
}

/// The rows kept of a sequence of batch sizes under a limit.
pub open spec fn rows_kept(batches: Seq<usize>, limit: usize) -> int
    decreases batches.len(),
{
    if batches.len() == 0 {
        0
    } else {
        let before = rows_kept(batches.drop_last(), limit);
        if before + batches.last() <= limit {
            before + batches.last()
        } else {
            limit as int
        }
    }
}

/// However the batches come, a limit keeps at most `limit` rows, and exactly
/// the smaller of `limit` and the rows offered.
pub proof fn law_limit_keeps_min(batches: Seq<usize>, limit: usize)
    ensures
        0 <= rows_kept(batches, limit) <= limit,
        rows_kept(batches, limit) == if batches.fold_left(0int, |acc: int, b: usize| acc + b) <= limit {
            batches.fold_left(0int, |acc: int, b: usize| acc + b)
        } else {
            limit as int
        },
    decreases batches.len(),
{
    if batches.len() > 0 {
        law_limit_keeps_min(batches.drop_last(), limit);
        batches.lemma_fold_left_split(0int, |acc: int, b: usize| acc + b, batches.len() - 1);
        assert(batches.subrange(0, batches.len() - 1) =~= batches.drop_last());
        let tail = batches.subrange(batches.len() - 1, batches.len() as int);
        assert(tail.fold_left(batches.drop_last().fold_left(0int, |acc: int, b: usize| acc + b), |acc: int, b: usize| acc + b)
            == batches.drop_last().fold_left(0int, |acc: int, b: usize| acc + b) + batches.last()) by {
            reveal_with_fuel(Seq::fold_left, 2);
            assert(tail.drop_last() =~= Seq::<usize>::empty());
        }
    }
}

/// A value of an integer column; a missing value is null.
pub open spec fn present_sum_u64(values: Seq<Option<u64>>) -> int
    decreases values.len(),
{
    if values.len() == 0 {
        0
    } else {
        present_sum_u64(values.drop_last()) + match values.last() {
            Some(v) => v as int,
            None => 0,
        }
    }
}

/// The sum of the present values of a signed column.
pub open spec fn present_sum_i64(values: Seq<Option<i64>>) -> int
    decreases values.len(),
{
    if values.len() == 0 {
        0
    } else {
        present_sum_i64(values.drop_last()) + match values.last() {
            Some(v) => v as int,
            None => 0,
        }
    }
}

/// Every running sum of the present values stays within `lo..=hi`.
pub open spec fn partial_sums_within_i64(values: Seq<Option<i64>>) -> bool {
    forall|k: int| 0 <= k <= values.len() ==> i64::MIN <= #[trigger] present_sum_i64(values.take(k)) <= i64::MAX
}

/// The values of an integer column as a count column is summed from.
#[derive(Debug, Clone)]
pub enum CountColumn {
    /// A signed 64-bit column
    Int64(Vec<Option<i64>>),
    /// An unsigned 64-bit column
    UInt64(Vec<Option<u64>>),
    /// A column of another type, by the name of the type
    Other(String),
}

/// The message for a column that cannot be summed as counts.
pub open spec fn cannot_sum_message(kind_name: Seq<char>) -> Seq<char> {
    "Cannot sum column of type "@ + kind_name + " as u64"@
}

/// Sum a column as u64.
///
/// A signed column is summed as `i64` and the total taken as `u64` bits; an
/// unsigned column is summed as `u64`; nulls are skipped; another type is an
/// error.
pub fn sum_column_as_u64(column: &CountColumn) -> (r: Result<u64>)
    requires
        column matches CountColumn::Int64(v) ==> partial_sums_within_i64(v@),
        column matches CountColumn::UInt64(v) ==> present_sum_u64(v@) <= u64::MAX,
    ensures
        column matches CountColumn::Int64(v) ==> r == Ok::<u64, DistributedError>(
            present_sum_i64(v@) as u64,
        ),
        column matches CountColumn::UInt64(v) ==> r == Ok::<u64, DistributedError>(
            present_sum_u64(v@) as u64,
        ),
        column matches CountColumn::Other(t) ==> (r matches Err(DistributedError::QueryExecution(m))
            && m@ == cannot_sum_message(t@)),
{
    match column {
        CountColumn::Int64(values) => {
            let mut total: i64 = 0;
            let mut i: usize = 0;
            while i < values.len()
                invariant
                    i <= values.len(),
                    partial_sums_within_i64(values@),
                    total == present_sum_i64(values@.take(i as int)),
                decreases values.len() - i,
            {
                proof {
                    assert(values@.take(i + 1).drop_last() =~= values@.take(i as int));
                    assert(i64::MIN <= present_sum_i64(values@.take(i + 1)) <= i64::MAX);
                }
                if let Some(v) = values[i] {
                    total = total + v;
                }
                i = i + 1;
            }
            assert(values@.take(values.len() as int) =~= values@);
            Ok(total as u64)
        },
        CountColumn::UInt64(values) => {
            let mut total: u64 = 0;
            let mut i: usize = 0;
            while i < values.len()
                invariant
                    i <= values.len(),
                    present_sum_u64(values@) <= u64::MAX,
                    total == present_sum_u64(values@.take(i as int)),
                decreases values.len() - i,
            {
                proof {
                    assert(values@.take(i + 1).drop_last() =~= values@.take(i as int));
                    lemma_present_sum_u64_prefix(values@, i + 1);
                }
                if let Some(v) = values[i] {
                    total = total + v;
                }
                i = i + 1;
            }
            assert(values@.take(values.len() as int) =~= values@);
            Ok(total)
        },
        CountColumn::Other(kind_name) => {
            let mut msg = String::from_str("Cannot sum column of type ");
            msg.append(kind_name.as_str());
            msg.append(" as u64");
            proof {
                reveal_strlit("Cannot sum column of type ");
                reveal_strlit(" as u64");
            }
            assert(msg@ =~= cannot_sum_message(kind_name@));
            Err(DistributedError::QueryExecution(msg))
        },
    }
}

/// The sum of a prefix of present unsigned values is at most the whole sum.
proof fn lemma_present_sum_u64_prefix(values: Seq<Option<u64>>, k: int)
    requires
        0 <= k <= values.len(),
    ensures
        present_sum_u64(values.take(k)) <= present_sum_u64(values),
    decreases values.len() - k,
{
    if k < values.len() {
        lemma_present_sum_u64_prefix(values, k + 1);
        assert(values.take(k + 1).drop_last() =~= values.take(k));
    } else {
        assert(values.take(k) =~= values);
    }
}

/// Wrapper for a batch with its source information.
#[derive(Debug)]
pub struct SourcedBatch<B> {
    /// The record batch
    pub batch: B,
    /// Source node ID
    pub node_id: NodeId,
    /// Source region ID
    pub region_id: RegionId,
}

impl<B> SourcedBatch<B> {
    pub fn new(batch: B, node_id: NodeId, region_id: RegionId) -> (s: Self)
        ensures
            s.batch == batch,
            s.node_id == node_id,
            s.region_id == region_id,
    {
        SourcedBatch { batch, node_id, region_id }
    }
}


/// A sort column by its parts: name, descending, nulls first.
pub type SortColumnView = (Seq<char>, bool, bool);

/// The sort columns of sort keys: one for each key that is a plain column,
/// descending where the key is not ascending.
pub open spec fn sort_columns_of(exprs: Seq<PlanSortExpr>) -> Seq<SortColumnView>
    decreases exprs.len(),
{
    if exprs.len() == 0 {
        seq![]
    } else {
        let rest = sort_columns_of(exprs.drop_last());
        let last = exprs.last();
        match last.expr {
            PlanExpr::Column { name } => rest.push((name@, !last.asc, last.nulls_first)),
            _ => rest,
        }
    }
}

/// One step of merging the partial results on the frontend.
#[derive(Debug, Clone)]
pub enum MergeStep {
    /// Merge the streams in this order
    Sort(Vec<SortColumn>),
    /// Keep this many rows
    Limit(usize),
    /// Combine the partial aggregates of each group, the groups keyed by
    /// these columns
    Aggregate(Vec<String>),
}

/// A merge step by its parts.
pub enum MergeStepView {
    Sort(Seq<SortColumnView>),
    Limit(usize),
    Aggregate(Seq<Seq<char>>),
}

/// The names of the plain-column expressions among the grouping expressions.
pub open spec fn group_columns_of(exprs: Seq<PlanExpr>) -> Seq<Seq<char>>
    decreases exprs.len(),
{
    if exprs.len() == 0 {
        seq![]
    } else {
        let rest = group_columns_of(exprs.drop_last());
        match exprs.last() {
            PlanExpr::Column { name } => rest.push(name@),
            _ => rest,
        }
    }
}

/// The names of the plain-column expressions among grouping expressions.
pub fn group_columns(exprs: &Vec<PlanExpr>) -> (cols: Vec<String>)
    ensures
        cols@.map_values(|c: String| c@) == group_columns_of(exprs@),
{
    let mut cols: Vec<String> = Vec::new();
    let mut i: usize = 0;
    while i < exprs.len()
        invariant
            i <= exprs@.len(),
            cols@.map_values(|c: String| c@) == group_columns_of(exprs@.take(i as int)),
        decreases exprs.len() - i,
    {
        proof {
            assert(exprs@.take(i as int + 1).drop_last() =~= exprs@.take(i as int));
        }
        match &exprs[i] {
            PlanExpr::Column { name } => {
                cols.push(name.clone());
            },
            _ => {},
        }
        i = i + 1;
        assert(cols@.map_values(|c: String| c@) =~= group_columns_of(exprs@.take(i as int)));
    }
    assert(exprs@.take(i as int) =~= exprs@);
    cols
}

/// The parts of a sort column.
pub open spec fn sort_column_view(c: SortColumn) -> SortColumnView {
    (c.name@, c.descending, c.nulls_first)
}

/// A merge step by its parts.
pub open spec fn merge_step_view(s: MergeStep) -> MergeStepView {
    match s {
        MergeStep::Sort(cols) => MergeStepView::Sort(cols@.map_values(|c: SortColumn| sort_column_view(c))),
        MergeStep::Limit(n) => MergeStepView::Limit(n),
        MergeStep::Aggregate(cols) => MergeStepView::Aggregate(cols@.map_values(|c: String| c@)),
    }
}

/// Merge steps by their parts.
pub open spec fn merge_steps_view(v: Seq<MergeStep>) -> Seq<MergeStepView> {
    v.map_values(|s: MergeStep| merge_step_view(s))
}

/// The steps a final operation takes on the merged stream: none for a
/// pass-through or a union; a limit; a sort by the plain-column keys, then
/// the limit if there is one; or, for a final aggregate, combining the
/// partial aggregates of each group keyed by the plain-column grouping
/// expressions.
pub open spec fn final_steps_spec(op: FinalOperation) -> Seq<MergeStepView> {
    match op {
        FinalOperation::Limit(n) => seq![MergeStepView::Limit(n)],
        FinalOperation::SortLimit { sort_exprs, limit } => {
            let sort = seq![MergeStepView::Sort(sort_columns_of(sort_exprs@))];
            match limit {
                Some(n) => sort.push(MergeStepView::Limit(n)),
                None => sort,
            }
        },
        FinalOperation::FinalAggregate { group_by, .. } => seq![
            MergeStepView::Aggregate(group_columns_of(group_by@)),
        ],
        _ => seq![],
    }
}

/// The sort columns of sort keys.
pub fn sort_columns(exprs: &Vec<PlanSortExpr>) -> (cols: Vec<SortColumn>)
    ensures
        cols@.map_values(|c: SortColumn| sort_column_view(c)) == sort_columns_of(exprs@),
{
    let mut cols: Vec<SortColumn> = Vec::new();
    let mut i: usize = 0;
    while i < exprs.len()
        invariant
            i <= exprs@.len(),
            cols@.map_values(|c: SortColumn| sort_column_view(c)) == sort_columns_of(exprs@.take(i as int)),
        decreases exprs.len() - i,
    {
        proof {
            assert(exprs@.take(i as int + 1).drop_last() =~= exprs@.take(i as int));
        }
        let e = &exprs[i];
        match &e.expr {
            PlanExpr::Column { name } => {
                cols.push(SortColumn { name: name.clone(), descending: !e.asc, nulls_first: e.nulls_first });
            },
            _ => {},
        }
        i = i + 1;
        assert(cols@.map_values(|c: SortColumn| sort_column_view(c)) =~= sort_columns_of(exprs@.take(i as int)));
    }
    assert(exprs@.take(i as int) =~= exprs@);
    cols
}

/// The steps a final operation takes on the merged stream.
pub fn final_steps(op: &FinalOperation) -> (steps: Vec<MergeStep>)
    ensures
        merge_steps_view(steps@) == final_steps_spec(*op),
{
    let mut steps: Vec<MergeStep> = Vec::new();
    match op {
        FinalOperation::Limit(n) => {
            steps.push(MergeStep::Limit(*n));
        },
        FinalOperation::SortLimit { sort_exprs, limit } => {
            steps.push(MergeStep::Sort(sort_columns(sort_exprs)));
            match limit {
                Some(n) => steps.push(MergeStep::Limit(*n)),
                None => {},
            }
        },
        FinalOperation::FinalAggregate { group_by, .. } => {
            steps.push(MergeStep::Aggregate(group_columns(group_by)));
        },
        _ => {},
    }
    assert(merge_steps_view(steps@) =~= final_steps_spec(*op));
    steps
}

/// One source's partial result for one aggregate: its value (none where
/// the source saw no value) and the number of rows it covers.
#[derive(Debug, Clone, Copy)]
pub struct PartialValue {
    pub value: Option<i64>,
    pub count: u64,
}

/// A row of partial results: the group key (the grouping values as text)
/// and one partial value per aggregate.
#[derive(Debug, Clone)]
pub struct PartialRow {
    pub key: Vec<String>,
    pub values: Vec<PartialValue>,
}

/// A combined aggregate: the combined value (none where no source had a
/// value) and the total number of rows; an average is the value, a sum of
/// sums, divided by the count.
#[derive(Debug, Clone, Copy)]
pub struct CombinedValue {
    pub value: Option<i128>,
    pub count: u128,
}

/// A group with its combined aggregates.
#[derive(Debug, Clone)]
pub struct CombinedRow {
    pub key: Vec<String>,
    pub values: Vec<CombinedValue>,
}

/// An aggregate by its parts: value and row count.
pub type AggView = (Option<int>, int);

/// A group by its parts: key and aggregates.
pub type GroupView = (Seq<Seq<char>>, Seq<AggView>);

/// A group key as texts.
pub open spec fn key_view(k: Seq<String>) -> Seq<Seq<char>> {
    k.map_values(|s: String| s@)
}

/// A partial value by its parts.
pub open spec fn partial_value_view(v: PartialValue) -> AggView {
    (
        match v.value {
            Some(x) => Some(x as int),
            None => None,
        },
        v.count as int,
    )
}

/// A partial row by its parts.
pub open spec fn partial_row_view(r: PartialRow) -> GroupView {
    (key_view(r.key@), r.values@.map_values(|v: PartialValue| partial_value_view(v)))
}

/// Partial rows by their parts.
pub open spec fn partial_rows_view(rows: Seq<PartialRow>) -> Seq<GroupView> {
    rows.map_values(|r: PartialRow| partial_row_view(r))
}

/// A combined value by its parts.
pub open spec fn combined_value_view(v: CombinedValue) -> AggView {
    (
        match v.value {
            Some(x) => Some(x as int),
            None => None,
        },
        v.count as int,
    )
}

/// A combined row by its parts.
pub open spec fn combined_row_view(r: CombinedRow) -> GroupView {
    (key_view(r.key@), r.values@.map_values(|v: CombinedValue| combined_value_view(v)))
}

/// Combined rows by their parts.
pub open spec fn combined_rows_view(rows: Seq<CombinedRow>) -> Seq<GroupView> {
    rows.map_values(|r: CombinedRow| combined_row_view(r))
}

/// One aggregate after a further partial value: `SUM`, `COUNT` and the sum
/// of `AVG` add up, `MIN` and `MAX` keep the smaller or larger value, a
/// missing value leaves the other, and row counts add up.
pub open spec fn combine_agg(f: AggregateFunction, acc: AggView, v: AggView) -> AggView {
    let value = match acc.0 {
        None => v.0,
        Some(a) => match v.0 {
            None => Some(a),
            Some(b) => Some(
                match f {
                    AggregateFunction::Min => if b < a { b } else { a },
                    AggregateFunction::Max => if b > a { b } else { a },
                    _ => a + b,
                },
            ),
        },
    };
    (value, acc.1 + v.1)
}

/// Each aggregate after a further partial value.
pub open spec fn combine_aggs(fs: Seq<AggregateFunction>, accs: Seq<AggView>, vs: Seq<AggView>) -> Seq<AggView> {
    Seq::new(fs.len(), |j: int| combine_agg(fs[j], accs[j], vs[j]))
}

/// `n` aggregates that have seen nothing.
pub open spec fn no_aggs(n: nat) -> Seq<AggView> {
    Seq::new(n, |j: int| (None::<int>, 0int))
}

/// The position of the first group with this key, or -1.
pub open spec fn group_position(groups: Seq<GroupView>, key: Seq<Seq<char>>) -> int
    decreases groups.len(),
{
    if groups.len() == 0 {
        -1
    } else if groups[0].0 == key {
        0
    } else {
        let r = group_position(groups.subrange(1, groups.len() as int), key);
        if r < 0 {
            -1
        } else {
            r + 1
        }
    }
}

/// The groups after one more partial row: combined into the group of its
/// key, or a new group at the end.
pub open spec fn add_partial_row(groups: Seq<GroupView>, row: GroupView, fs: Seq<AggregateFunction>) -> Seq<GroupView> {
    let p = group_position(groups, row.0);
    if p >= 0 {
        groups.update(p, (groups[p].0, combine_aggs(fs, groups[p].1, row.1)))
    } else {
        groups.push((row.0, combine_aggs(fs, no_aggs(fs.len()), row.1)))
    }
}

/// The groups of partial rows with their combined aggregates, in the order
/// their keys first appear.
pub open spec fn merged_groups(rows: Seq<GroupView>, fs: Seq<AggregateFunction>) -> Seq<GroupView>
    decreases rows.len(),
{
    if rows.len() == 0 {
        seq![]
    } else {
        add_partial_row(merged_groups(rows.drop_last(), fs), rows.last(), fs)
    }
}

/// Where no group before `m` has the key, the first with it is at `m`, or
/// there is none when `m` is the end.
proof fn lemma_group_position(groups: Seq<GroupView>, key: Seq<Seq<char>>, m: int)
    requires
        0 <= m <= groups.len(),
        forall|k: int| 0 <= k < m ==> groups[k].0 != key,
    ensures
        m < groups.len() && groups[m].0 == key ==> group_position(groups, key) == m,
        m == groups.len() ==> group_position(groups, key) == -1,
    decreases m,
{
    if m > 0 {
        let t = groups.subrange(1, groups.len() as int);
        assert forall|k: int| 0 <= k < m - 1 implies t[k].0 != key by {
            assert(t[k] == groups[k + 1]);
        }
        lemma_group_position(t, key, m - 1);
        if m < groups.len() {
            assert(t[m - 1] == groups[m]);
        }
    }
}

/// A combined value whose magnitude and count fit what `n` partial values
/// can reach.
pub open spec fn within_rows(v: CombinedValue, n: int) -> bool {
    &&& (v.value matches Some(x) ==> -n * 0x8000_0000_0000_0000 <= x <= n * 0x8000_0000_0000_0000)
    &&& v.count <= n * 0xffff_ffff_ffff_ffff
}

/// Whether two keys hold the same texts.
fn same_key(a: &Vec<String>, b: &Vec<String>) -> (r: bool)
    ensures
        r == (key_view(a@) == key_view(b@)),
{
    if a.len() != b.len() {
        proof {
            if key_view(a@) == key_view(b@) {
                assert(key_view(a@).len() == key_view(b@).len());
            }
        }
        return false;
    }
    let mut i: usize = 0;
    while i < a.len()
        invariant
            i <= a.len(),
            a.len() == b.len(),
            forall|k: int| 0 <= k < i ==> a@[k]@ == b@[k]@,
        decreases a.len() - i,
    {
        let same = a[i] == b[i];
        if !same {
            proof {
                assert(key_view(a@)[i as int] != key_view(b@)[i as int]);
            }
            return false;
        }
        i = i + 1;
    }
    assert(key_view(a@) =~= key_view(b@));
    true
}

/// A copy of a key.
fn copy_key(k: &Vec<String>) -> (r: Vec<String>)
    ensures
        key_view(r@) == key_view(k@),
{
    let mut r: Vec<String> = Vec::new();
    let mut i: usize = 0;
    while i < k.len()
        invariant
            i <= k.len(),
            key_view(r@) == key_view(k@.take(i as int)),
        decreases k.len() - i,
    {
        let c = k[i].clone();
        proof {
            assert(k@.take(i as int + 1) =~= k@.take(i as int).push(k@[i as int]));
            assert(key_view(r@.push(c)) =~= key_view(r@).push(c@));
            assert(key_view(k@.take(i as int).push(k@[i as int])) =~= key_view(k@.take(i as int)).push(
                k@[i as int]@,
            ));
        }
        r.push(c);
        i = i + 1;
    }
    assert(k@.take(i as int) =~= k@);
    r
}

/// One aggregate after a further partial value.
fn combine_value(f: AggregateFunction, acc: CombinedValue, v: PartialValue, n: usize) -> (r: CombinedValue)
    requires
        within_rows(acc, n as int),
        n < usize::MAX,
    ensures
        combined_value_view(r) == combine_agg(f, combined_value_view(acc), partial_value_view(v)),
        within_rows(r, n + 1),
{
    let value = match acc.value {
        None => match v.value {
            Some(b) => Some(b as i128),
            None => None,
        },
        Some(a) => match v.value {
            None => Some(a),
            Some(b) => {
                let b = b as i128;
                match f {
                    AggregateFunction::Min => if b < a { Some(b) } else { Some(a) },
                    AggregateFunction::Max => if b > a { Some(b) } else { Some(a) },
                    _ => Some(a + b),
                }
            },
        },
    };
    CombinedValue { value, count: acc.count + v.count as u128 }
}

/// Each aggregate after a further partial value.
fn combine_values(
    fs: &Vec<AggregateFunction>,
    accs: &Vec<CombinedValue>,
    vals: &Vec<PartialValue>,
    n: usize,
) -> (r: Vec<CombinedValue>)
    requires
        accs.len() == fs.len(),
        vals.len() == fs.len(),
        forall|j: int| 0 <= j < accs.len() ==> within_rows(#[trigger] accs@[j], n as int),
        n < usize::MAX,
    ensures
        r@.map_values(|v: CombinedValue| combined_value_view(v)) == combine_aggs(
            fs@,
            accs@.map_values(|v: CombinedValue| combined_value_view(v)),
            vals@.map_values(|v: PartialValue| partial_value_view(v)),
        ),
        r.len() == fs.len(),
        forall|j: int| 0 <= j < r.len() ==> within_rows(#[trigger] r@[j], n + 1),
{
    let mut r: Vec<CombinedValue> = Vec::new();
    let mut j: usize = 0;
    while j < fs.len()
        invariant
            j <= fs.len(),
            accs.len() == fs.len(),
            vals.len() == fs.len(),
            forall|k: int| 0 <= k < accs.len() ==> within_rows(#[trigger] accs@[k], n as int),
            n < usize::MAX,
            r.len() == j,
            forall|k: int| 0 <= k < j ==> within_rows(#[trigger] r@[k], n + 1),
            forall|k: int|
                0 <= k < j ==> combined_value_view(#[trigger] r@[k]) == combine_agg(
                    fs@[k],
                    combined_value_view(accs@[k]),
                    partial_value_view(vals@[k]),
                ),
        decreases fs.len() - j,
    {
        let c = combine_value(fs[j], accs[j], vals[j], n);
        r.push(c);
        j = j + 1;
    }
    assert(r@.map_values(|v: CombinedValue| combined_value_view(v)) =~= combine_aggs(
        fs@,
        accs@.map_values(|v: CombinedValue| combined_value_view(v)),
        vals@.map_values(|v: PartialValue| partial_value_view(v)),
    ));
    r
}

/// `n` aggregates that have seen nothing.
fn no_values(n: usize) -> (r: Vec<CombinedValue>)
    ensures
        r@.map_values(|v: CombinedValue| combined_value_view(v)) == no_aggs(n as nat),
        r.len() == n,
        forall|j: int| 0 <= j < r.len() ==> (#[trigger] r@[j]).value is None && r@[j].count == 0,
{
    let mut r: Vec<CombinedValue> = Vec::new();
    let mut j: usize = 0;
    while j < n
        invariant
            j <= n,
            r.len() == j,
            forall|k: int| 0 <= k < j ==> (#[trigger] r@[k]).value is None && r@[k].count == 0,
        decreases n - j,
    {
        r.push(CombinedValue { value: None, count: 0 });
        j = j + 1;
    }
    assert(r@.map_values(|v: CombinedValue| combined_value_view(v)) =~= no_aggs(n as nat));
    r
}

impl ResultMerger {
    /// Combines the partial aggregates of several sources: the rows of one
    /// key become one group, the groups in the order their keys first
    /// appear, and each aggregate is combined by its function (`SUM`,
    /// `COUNT` and the sum of `AVG` add up, `MIN` and `MAX` keep the smaller
    /// or larger value, row counts add up). Without grouping columns every
    /// key is empty, and all rows form one group.
    pub fn merge_aggregates(&self, rows: &Vec<PartialRow>, aggregates: &Vec<AggregateFunction>) -> (groups: Vec<
        CombinedRow,
    >)
        requires
            forall|i: int| 0 <= i < rows.len() ==> (#[trigger] rows@[i]).values.len() == aggregates.len(),
        ensures
            combined_rows_view(groups@) == merged_groups(partial_rows_view(rows@), aggregates@),
    {
        let mut groups: Vec<CombinedRow> = Vec::new();
        let mut i: usize = 0;
        while i < rows.len()
            invariant
                i <= rows.len(),
                forall|k: int| 0 <= k < rows.len() ==> (#[trigger] rows@[k]).values.len() == aggregates.len(),
                combined_rows_view(groups@) == merged_groups(partial_rows_view(rows@.take(i as int)), aggregates@),
                forall|g: int| 0 <= g < groups.len() ==> (#[trigger] groups@[g]).values.len() == aggregates.len(),
                forall|g: int, j: int|
                    0 <= g < groups.len() && 0 <= j < aggregates.len() ==> within_rows(
                        #[trigger] groups@[g].values@[j],
                        i as int,
                    ),
            decreases rows.len() - i,
        {
            let row = &rows[i];
            let ghost before = combined_rows_view(groups@);
            let ghost rv = partial_row_view(rows@[i as int]);
            proof {
                assert(partial_rows_view(rows@.take(i as int + 1)).drop_last() =~= partial_rows_view(
                    rows@.take(i as int),
                ));
                assert(partial_rows_view(rows@.take(i as int + 1)).last() == rv);
            }
            let mut g: usize = 0;
            let mut found: bool = false;
            while !found && g < groups.len()
                invariant
                    g <= groups.len(),
                    before == combined_rows_view(groups@),
                    rv == partial_row_view(*row),
                    forall|k: int| 0 <= k < g ==> before[k].0 != rv.0,
                    found ==> g < groups.len() && before[g as int].0 == rv.0,
                decreases groups.len() - g + if found { 0int } else { 1int },
            {
                if same_key(&groups[g].key, &row.key) {
                    found = true;
                } else {
                    g = g + 1;
                }
            }
            proof {
                lemma_group_position(before, rv.0, g as int);
            }
            if found {
                let vals = combine_values(aggregates, &groups[g].values, &row.values, i);
                let key = copy_key(&groups[g].key);
                let ghost old_groups = groups@;
                groups.set(g, CombinedRow { key, values: vals });
                proof {
                    assert(combined_rows_view(groups@) =~= before.update(
                        g as int,
                        (before[g as int].0, combine_aggs(aggregates@, before[g as int].1, rv.1)),
                    ));
                    assert forall|h: int, j: int|
                        0 <= h < groups.len() && 0 <= j < aggregates.len() implies within_rows(
                        #[trigger] groups@[h].values@[j],
                        i + 1,
                    ) by {
                        if h != g {
                            assert(groups@[h] == old_groups[h]);
                            assert(within_rows(old_groups[h].values@[j], i as int));
                        }
                    }
                }
            } else {
                let none = no_values(aggregates.len());
                let vals = combine_values(aggregates, &none, &row.values, i);
                let key = copy_key(&row.key);
                let ghost old_groups = groups@;
                groups.push(CombinedRow { key, values: vals });
                proof {
                    assert(combined_rows_view(groups@) =~= before.push(
                        (rv.0, combine_aggs(aggregates@, no_aggs(aggregates@.len()), rv.1)),
                    ));
                    assert forall|h: int, j: int|
                        0 <= h < groups.len() && 0 <= j < aggregates.len() implies within_rows(
                        #[trigger] groups@[h].values@[j],
                        i + 1,
                    ) by {
                        if h < old_groups.len() {
                            assert(groups@[h] == old_groups[h]);
                            assert(within_rows(old_groups[h].values@[j], i as int));
                        }
                    }
                }
            }
            i = i + 1;
        }
        proof {
            assert(rows@.take(i as int) =~= rows@);
        }
        groups
    }
}

/// The position of a key, where there is one, holds that key.
proof fn lemma_group_position_sound(groups: Seq<GroupView>, key: Seq<Seq<char>>)
    ensures
        group_position(groups, key) >= -1,
        group_position(groups, key) >= 0 ==> group_position(groups, key) < groups.len() && groups[group_position(
            groups,
            key,
        )].0 == key,
        group_position(groups, key) == -1 ==> forall|k: int| 0 <= k < groups.len() ==> groups[k].0 != key,
    decreases groups.len(),
{
    if groups.len() > 0 && groups[0].0 != key {
        let t = groups.subrange(1, groups.len() as int);
        lemma_group_position_sound(t, key);
        let r = group_position(t, key);
        if r >= 0 {
            assert(t[r] == groups[r + 1]);
        } else {
            assert forall|k: int| 0 <= k < groups.len() implies groups[k].0 != key by {
                if k > 0 {
                    assert(t[k - 1] == groups[k]);
                }
            }
        }
    }
}

/// Groups with the same keys, one for one, place every key alike.
proof fn lemma_group_position_same_keys(a: Seq<GroupView>, b: Seq<GroupView>, key: Seq<Seq<char>>)
    requires
        a.len() == b.len(),
        forall|k: int| 0 <= k < a.len() ==> #[trigger] a[k].0 == b[k].0,
    ensures
        group_position(a, key) == group_position(b, key),
    decreases a.len(),
{
    if a.len() > 0 {
        let at = a.subrange(1, a.len() as int);
        let bt = b.subrange(1, b.len() as int);
        assert forall|k: int| 0 <= k < at.len() implies #[trigger] at[k].0 == bt[k].0 by {
            assert(at[k] == a[k + 1]);
            assert(bt[k] == b[k + 1]);
        }
        lemma_group_position_same_keys(at, bt, key);
    }
}

/// A group appended at the end is found only where no earlier one is.
proof fn lemma_group_position_push(groups: Seq<GroupView>, x: GroupView, key: Seq<Seq<char>>)
    ensures
        group_position(groups.push(x), key) == if group_position(groups, key) >= 0 {
            group_position(groups, key)
        } else if x.0 == key {
            groups.len() as int
        } else {
            -1
        },
    decreases groups.len(),
{
    let px = groups.push(x);
    if groups.len() == 0 {
        assert(px[0] == x);
        assert(px.subrange(1, px.len() as int) =~= Seq::<GroupView>::empty());
        assert(group_position(Seq::<GroupView>::empty(), key) == -1);
    } else {
        assert(px[0] == groups[0]);
        let t = groups.subrange(1, groups.len() as int);
        assert(px.subrange(1, px.len() as int) =~= t.push(x));
        lemma_group_position_push(t, x, key);
    }
}

/// Aggregate `j` of the rows with this key, combined one row after the
/// other by the function `f`, from an aggregate that has seen nothing.
pub open spec fn key_aggregate(rows: Seq<GroupView>, key: Seq<Seq<char>>, f: AggregateFunction, j: int) -> AggView
    decreases rows.len(),
{
    if rows.len() == 0 {
        (None, 0)
    } else {
        let before = key_aggregate(rows.drop_last(), key, f, j);
        if rows.last().0 == key {
            combine_agg(f, before, rows.last().1[j])
        } else {
            before
        }
    }
}

/// Whether every row holds one partial value per aggregate.
pub open spec fn rows_shaped(rows: Seq<GroupView>, n: nat) -> bool {
    forall|i: int| 0 <= i < rows.len() ==> (#[trigger] rows[i]).1.len() == n
}

/// Every group holds one aggregate per function.
proof fn lemma_merged_groups_shaped(rows: Seq<GroupView>, fs: Seq<AggregateFunction>)
    ensures
        forall|g: int|
            0 <= g < merged_groups(rows, fs).len() ==> (#[trigger] merged_groups(rows, fs)[g]).1.len()
                == fs.len(),
    decreases rows.len(),
{
    if rows.len() > 0 {
        lemma_merged_groups_shaped(rows.drop_last(), fs);
        lemma_group_position_sound(merged_groups(rows.drop_last(), fs), rows.last().0);
    }
}

/// Merging partial aggregates leaves each key in one group only.
pub proof fn law_merged_keys_distinct(rows: Seq<GroupView>, fs: Seq<AggregateFunction>)
    ensures
        forall|a: int, b: int|
            0 <= a < b < merged_groups(rows, fs).len() ==> (#[trigger] merged_groups(rows, fs)[a]).0
                != (#[trigger] merged_groups(rows, fs)[b]).0,
    decreases rows.len(),
{
    if rows.len() > 0 {
        let prev = merged_groups(rows.drop_last(), fs);
        let r = rows.last();
        law_merged_keys_distinct(rows.drop_last(), fs);
        lemma_group_position_sound(prev, r.0);
        let next = merged_groups(rows, fs);
        assert forall|a: int, b: int| 0 <= a < b < next.len() implies (#[trigger] next[a]).0 != (
        #[trigger] next[b]).0 by {
            if group_position(prev, r.0) < 0 {
                assert(next == prev.push((r.0, combine_aggs(fs, no_aggs(fs.len()), r.1))));
                if b == prev.len() {
                    assert(prev[a].0 != r.0);
                } else {
                    assert(prev[a].0 != prev[b].0);
                }
            } else {
                assert(prev[a].0 != prev[b].0);
            }
        }
    }
}

/// Merging partial aggregates gives each group, for every aggregate, the
/// partial values of exactly the rows with its key combined by the
/// aggregate's function: sums and counts add up, `MIN` and `MAX` keep the
/// extreme value; a key with no group has no rows.
pub proof fn law_merged_groups_combine_their_rows(
    rows: Seq<GroupView>,
    fs: Seq<AggregateFunction>,
    key: Seq<Seq<char>>,
    j: int,
)
    requires
        rows_shaped(rows, fs.len()),
        0 <= j < fs.len(),
    ensures
        group_position(merged_groups(rows, fs), key) == -1 ==> key_aggregate(rows, key, fs[j], j) == (
        None::<int>,
        0int,
        ),
        group_position(merged_groups(rows, fs), key) >= 0 ==> merged_groups(rows, fs)[group_position(
            merged_groups(rows, fs),
            key,
        )].1[j] == key_aggregate(rows, key, fs[j], j),
    decreases rows.len(),
{
    lemma_group_position_sound(merged_groups(rows, fs), key);
    if rows.len() > 0 {
        let prefix = rows.drop_last();
        let prev = merged_groups(prefix, fs);
        let r = rows.last();
        let next = merged_groups(rows, fs);
        assert(rows_shaped(prefix, fs.len())) by {
            assert forall|i: int| 0 <= i < prefix.len() implies (#[trigger] prefix[i]).1.len() == fs.len() by {
                assert(prefix[i] == rows[i]);
            }
        }
        assert(r == rows[rows.len() - 1]);
        law_merged_groups_combine_their_rows(prefix, fs, key, j);
        lemma_group_position_sound(prev, r.0);
        lemma_group_position_sound(prev, key);
        lemma_merged_groups_shaped(prefix, fs);
        let pr = group_position(prev, r.0);
        if pr >= 0 {
            let upd = prev.update(pr, (prev[pr].0, combine_aggs(fs, prev[pr].1, r.1)));
            assert(next == upd);
            assert forall|k: int| 0 <= k < prev.len() implies #[trigger] prev[k].0 == upd[k].0 by {}
            lemma_group_position_same_keys(prev, upd, key);
        } else {
            let x = (r.0, combine_aggs(fs, no_aggs(fs.len()), r.1));
            assert(next == prev.push(x));
            lemma_group_position_push(prev, x, key);
        }
    }
}

} // verus!
