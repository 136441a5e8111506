//! Distributed query optimizer.
//!
//! Decides, for a logical plan over tables split into regions, which
//! predicates, projections, partial aggregates and limits each region's plan
//! takes, and which operation the frontend applies to the merged results.

use vstd::prelude::*;
use crate::error::{DistributedError, Result};
use crate::ids::{NodeId, RegionId};
use crate::merger::{AggregateFunction, function_of_upper_name, spec_to_uppercase, to_uppercase};
use crate::plan::{
    JoinKind, PlanExpr, PlanNode, PlanSortExpr, collect_scanned_tables, copy_exprs,
    copy_sort_exprs, scanned_tables,
};
use crate::region::RegionInfo;

verus! {

/// Configuration for the distributed optimizer.
#[derive(Debug, Clone, Copy)]
pub struct OptimizerConfig {
    /// Enable predicate pushdown
    pub enable_predicate_pushdown: bool,
    /// Enable projection pushdown
    pub enable_projection_pushdown: bool,
    /// Enable aggregate pushdown (partial aggregates)
    pub enable_aggregate_pushdown: bool,
    /// Enable limit pushdown
    pub enable_limit_pushdown: bool,
    /// Enable sort pushdown
    pub enable_sort_pushdown: bool,
    /// Maximum number of regions to query in parallel
    pub max_parallel_regions: usize,
}

impl Default for OptimizerConfig {
    fn default() -> (c: Self)
        ensures
            c.enable_predicate_pushdown,
            c.enable_projection_pushdown,
            c.enable_aggregate_pushdown,
            c.enable_limit_pushdown,
            c.enable_sort_pushdown,
            c.max_parallel_regions == 32,
    {
        OptimizerConfig {
            enable_predicate_pushdown: true,
            enable_projection_pushdown: true,
            enable_aggregate_pushdown: true,
            enable_limit_pushdown: true,
            enable_sort_pushdown: true,
            max_parallel_regions: 32,
        }
    }
}

/// Optimizer for distributed query plans.
#[derive(Debug)]
pub struct DistributedOptimizer {
    config: OptimizerConfig,
}

/// A plan to execute on a specific region.
#[derive(Debug, Clone)]
pub struct RegionPlan {
    /// Region this plan targets
    pub region_id: RegionId,
    /// The plan to execute on this region
    pub plan: PlanNode,
    /// Predicates pushed down to this region
    pub pushed_predicates: Vec<PlanExpr>,
    /// Columns projected at this region
    pub pushed_projections: Vec<String>,
    /// Whether partial aggregation is performed
    pub has_partial_aggregate: bool,
    /// Limit applied at this region (if any)
    pub pushed_limit: Option<usize>,
}

/// Type of final operation after collecting distributed results.
#[derive(Debug, Clone)]
pub enum FinalOperation {
    /// Simple union of results (no additional processing)
    Union,
    /// Final aggregation (combine partial aggregates)
    FinalAggregate { group_by: Vec<PlanExpr>, aggregates: Vec<PlanExpr> },
    /// Final sort and limit
    SortLimit { sort_exprs: Vec<PlanSortExpr>, limit: Option<usize> },
    /// Just apply a limit
    Limit(usize),
    /// No-op (single region case)
    Passthrough,
}

/// Final aggregation/merge plan to run on frontend.
#[derive(Debug, Clone)]
pub struct FinalPlan {
    /// Type of final operation
    pub operation: FinalOperation,
    /// The plan for final processing
    pub plan: PlanNode,
}

/// Statistics about optimization.
#[derive(Debug, Clone, Copy)]
pub struct OptimizationStats {
    /// Number of predicates pushed down
    pub predicates_pushed: usize,
    /// Number of projections applied early
    pub projections_pushed: usize,
    /// Whether aggregate was partially pushed
    pub aggregate_pushed: bool,
    /// Whether limit was pushed
    pub limit_pushed: bool,
}

impl Default for OptimizationStats {
    fn default() -> (s: Self)
        ensures
            s.predicates_pushed == 0,
            s.projections_pushed == 0,
            !s.aggregate_pushed,
            !s.limit_pushed,
    {
        OptimizationStats {
            predicates_pushed: 0,
            projections_pushed: 0,
            aggregate_pushed: false,
            limit_pushed: false,
        }
    }
}

/// Result of analyzing a query plan for distributed execution.
#[derive(Debug, Clone)]
pub struct OptimizedPlan {
    /// The original plan
    pub original_plan: PlanNode,
    /// Per-region plans, one per target region
    pub region_plans: Vec<RegionPlan>,
    /// Final aggregation plan (runs on frontend after collecting results)
    pub final_plan: Option<FinalPlan>,
    /// Tables referenced by the query, each once
    pub referenced_tables: Vec<String>,
    /// Whether the query can potentially benefit from distribution
    pub is_distributable: bool,
    /// Optimization statistics
    pub stats: OptimizationStats,
}

/// What the analysis of a plan found.
#[derive(Debug)]
pub struct PlanAnalysis {
    /// Predicates that can be pushed down
    pub pushable_predicates: Vec<PlanExpr>,
    /// Predicates that cannot be pushed down
    pub non_pushable_predicates: Vec<PlanExpr>,
    /// Columns in projections, each once
    pub projected_columns: Vec<String>,
    /// Whether the plan has a projection
    pub has_projection: bool,
    /// Whether the plan has an aggregate
    pub has_aggregate: bool,
    /// Group by expressions
    pub group_by_exprs: Vec<PlanExpr>,
    /// Aggregate expressions
    pub aggregate_exprs: Vec<PlanExpr>,
    /// Whether partial aggregation is possible
    pub can_partial_aggregate: bool,
    /// Whether the plan has a sort
    pub has_sort: bool,
    /// Sort expressions
    pub sort_exprs: Vec<PlanSortExpr>,
    /// Whether the plan has a limit
    pub has_limit: bool,
    /// Skip value for limit
    pub limit_skip: usize,
    /// Fetch value for limit
    pub limit_fetch: Option<usize>,
    /// Whether the plan has a join
    pub has_join: bool,
    /// Join type if present
    pub join_type: Option<JoinKind>,
    /// Table scans in the plan
    pub table_scans: Vec<String>,
}

/// What the analysis found, as plain values.
#[verifier::ext_equal]
pub struct AnalysisView {
    pub pushable: Seq<PlanExpr>,
    pub non_pushable: Seq<PlanExpr>,
    pub projected: Seq<Seq<char>>,
    pub has_projection: bool,
    pub has_aggregate: bool,
    pub group_by: Seq<PlanExpr>,
    pub aggregates: Seq<PlanExpr>,
    pub can_partial_aggregate: bool,
    pub has_sort: bool,
    pub sort_exprs: Seq<PlanSortExpr>,
    pub has_limit: bool,
    pub limit_skip: usize,
    pub limit_fetch: Option<usize>,
    pub has_join: bool,
    pub join_type: Option<JoinKind>,
    pub table_scans: Seq<Seq<char>>,
}

/// The texts of a list of strings.
pub open spec fn texts(v: Seq<String>) -> Seq<Seq<char>> {
    v.map_values(|s: String| s@)
}

impl PlanAnalysis {
    /// The analysis as plain values.
    pub open spec fn view(&self) -> AnalysisView {
        AnalysisView {
            pushable: self.pushable_predicates@,
            non_pushable: self.non_pushable_predicates@,
            projected: texts(self.projected_columns@),
            has_projection: self.has_projection,
            has_aggregate: self.has_aggregate,
            group_by: self.group_by_exprs@,
            aggregates: self.aggregate_exprs@,
            can_partial_aggregate: self.can_partial_aggregate,
            has_sort: self.has_sort,
            sort_exprs: self.sort_exprs@,
            has_limit: self.has_limit,
            limit_skip: self.limit_skip,
            limit_fetch: self.limit_fetch,
            has_join: self.has_join,
            join_type: self.join_type,
            table_scans: texts(self.table_scans@),
        }
    }

    /// An analysis that found nothing yet.
    pub fn new() -> (a: Self)
        ensures
            a.view() == empty_analysis(),
    {
        let a = PlanAnalysis {
            pushable_predicates: Vec::new(),
            non_pushable_predicates: Vec::new(),
            projected_columns: Vec::new(),
            has_projection: false,
            has_aggregate: false,
            group_by_exprs: Vec::new(),
            aggregate_exprs: Vec::new(),
            can_partial_aggregate: false,
            has_sort: false,
            sort_exprs: Vec::new(),
            has_limit: false,
            limit_skip: 0,
            limit_fetch: None,
            has_join: false,
            join_type: None,
            table_scans: Vec::new(),
        };
        assert(a.view() =~~= empty_analysis());
        a
    }
}

/// The analysis before any operator was seen.
pub open spec fn empty_analysis() -> AnalysisView {
    AnalysisView {
        pushable: Seq::empty(),
        non_pushable: Seq::empty(),
        projected: Seq::empty(),
        has_projection: false,
        has_aggregate: false,
        group_by: Seq::empty(),
        aggregates: Seq::empty(),
        can_partial_aggregate: false,
        has_sort: false,
        sort_exprs: Seq::empty(),
        has_limit: false,
        limit_skip: 0,
        limit_fetch: None,
        has_join: false,
        join_type: None,
        table_scans: Seq::empty(),
    }
}

/// The conjuncts of a predicate: the operands of its top-level `AND`s, left
/// to right.
pub open spec fn conjuncts(e: PlanExpr) -> Seq<PlanExpr>
    decreases e,
{
    match e {
        PlanExpr::And { left, right } => conjuncts(*left) + conjuncts(*right),
        _ => seq![e],
    }
}

/// The column an expression names, looking through aliases.
pub open spec fn column_name_of(e: PlanExpr) -> Option<Seq<char>>
    decreases e,
{
    match e {
        PlanExpr::Column { name } => Some(name@),
        PlanExpr::Alias { expr, .. } => column_name_of(*expr),
        _ => None,
    }
}

/// A list of names with one more name, unless it is there already.
pub open spec fn insert_name(names: Seq<Seq<char>>, n: Seq<char>) -> Seq<Seq<char>> {
    if names.contains(n) {
        names
    } else {
        names.push(n)
    }
}

/// A list of names with the columns named by the first `k` expressions.
pub open spec fn insert_columns(names: Seq<Seq<char>>, exprs: Seq<PlanExpr>, k: int) -> Seq<Seq<char>>
    decreases k,
{
    if k <= 0 || k > exprs.len() {
        names
    } else {
        let before = insert_columns(names, exprs, k - 1);
        match column_name_of(exprs[k - 1]) {
            Some(n) => insert_name(before, n),
            None => before,
        }
    }
}

/// Collecting the projected columns keeps each name once and gathers
/// exactly the names already there and those the expressions name: the
/// columns form a set.
pub proof fn law_projected_columns_form_a_set(names: Seq<Seq<char>>, exprs: Seq<PlanExpr>, k: int)
    requires
        names.no_duplicates(),
        0 <= k <= exprs.len(),
    ensures
        insert_columns(names, exprs, k).no_duplicates(),
        forall|n: Seq<char>|
            #[trigger] insert_columns(names, exprs, k).contains(n) <==> (names.contains(n) || exists|i: int|
                0 <= i < k && #[trigger] column_name_of(exprs[i]) == Some(n)),
    decreases k,
{
    if k > 0 {
        law_projected_columns_form_a_set(names, exprs, k - 1);
        let before = insert_columns(names, exprs, k - 1);
        let after = insert_columns(names, exprs, k);
        match column_name_of(exprs[k - 1]) {
            Some(m) => {
                if !before.contains(m) {
                    assert(after == before.push(m));
                    assert forall|a: int, b: int| 0 <= a < b < after.len() implies after[a] != after[b] by {
                        if b == before.len() {
                            assert(before[a] == after[a]);
                        }
                    }
                }
            },
            None => {},
        }
        let grows = column_name_of(exprs[k - 1]) matches Some(m) && !before.contains(m);
        if grows {
            assert(after == before.push(column_name_of(exprs[k - 1])->0));
        } else {
            assert(after == before);
        }
        assert forall|n: Seq<char>| #[trigger] after.contains(n) <==> (names.contains(n) || exists|i: int|
            0 <= i < k && #[trigger] column_name_of(exprs[i]) == Some(n)) by {
            if after.contains(n) {
                let j = choose|j: int| 0 <= j < after.len() && after[j] == n;
                if j < before.len() {
                    assert(before[j] == after[j]);
                    assert(before.contains(n));
                    if !names.contains(n) {
                        let i = choose|i: int| 0 <= i < k - 1 && #[trigger] column_name_of(exprs[i]) == Some(n);
                        assert(column_name_of(exprs[i]) == Some(n));
                    }
                } else {
                    assert(column_name_of(exprs[k - 1]) == Some(n));
                }
            }
            if exists|i: int| 0 <= i < k && #[trigger] column_name_of(exprs[i]) == Some(n) {
                let i = choose|i: int| 0 <= i < k && #[trigger] column_name_of(exprs[i]) == Some(n);
                if i < k - 1 {
                    assert(before.contains(n));
                } else {
                    assert(column_name_of(exprs[k - 1]) == Some(n));
                    if grows {
                        assert(after[before.len() as int] == n);
                    }
                }
            }
            if before.contains(n) {
                let j = choose|j: int| 0 <= j < before.len() && before[j] == n;
                assert(after[j] == n);
            }
        }
    }
}

/// Aggregates can be computed partially when every aggregate call is of a
/// decomposable function (other expressions do not matter).
pub open spec fn partial_aggregate_ok(aggr: Seq<PlanExpr>) -> bool {
    forall|i: int| 0 <= i < aggr.len() ==> match #[trigger] aggr[i] {
        PlanExpr::AggregateCall { function } => function_of_upper_name(spec_to_uppercase(function@)) is Some,
        _ => true,
    }
}

/// The analysis after reading a plan, operator by operator from the root,
/// inputs left to right; a later aggregate, sort, limit or join replaces
/// what an earlier one set.
pub open spec fn analyze_spec(p: PlanNode, s: AnalysisView) -> AnalysisView
    decreases p,
{
    match p {
        PlanNode::Filter { predicate, input } => analyze_spec(
            *input,
            AnalysisView { pushable: s.pushable + conjuncts(predicate), ..s },
        ),
        PlanNode::Projection { exprs, input } => analyze_spec(
            *input,
            AnalysisView {
                projected: insert_columns(s.projected, exprs@, exprs@.len() as int),
                has_projection: true,
                ..s
            },
        ),
        PlanNode::Aggregate { group_expr, aggr_expr, input } => analyze_spec(
            *input,
            AnalysisView {
                has_aggregate: true,
                group_by: group_expr@,
                aggregates: aggr_expr@,
                can_partial_aggregate: partial_aggregate_ok(aggr_expr@),
                ..s
            },
        ),
        PlanNode::Sort { exprs, input } => analyze_spec(
            *input,
            AnalysisView { has_sort: true, sort_exprs: exprs@, ..s },
        ),
        PlanNode::Limit { skip, fetch, input } => analyze_spec(
            *input,
            AnalysisView { has_limit: true, limit_skip: skip, limit_fetch: fetch, ..s },
        ),
        PlanNode::Join { join_type, left, right } => analyze_spec(
            *right,
            analyze_spec(*left, AnalysisView { has_join: true, join_type: Some(join_type), ..s }),
        ),
        PlanNode::TableScan { table_name, .. } => AnalysisView {
            table_scans: s.table_scans.push(table_name@),
            ..s
        },
        PlanNode::Other { inputs, .. } => analyze_list_spec(inputs@, inputs@.len() as int, s),
        PlanNode::MergeScan { .. } => s,
    }
}

/// The analysis after reading the first `n` plans of a list in order.
pub open spec fn analyze_list_spec(ps: Seq<PlanNode>, n: int, s: AnalysisView) -> AnalysisView
    decreases ps, n,
{
    if n <= 0 || n > ps.len() {
        s
    } else {
        analyze_spec(ps[n - 1], analyze_list_spec(ps, n - 1, s))
    }
}

/// The first listed regions of a table, if the table is listed.
pub open spec fn regions_of(tr: Seq<(String, Vec<RegionInfo>)>, table: Seq<char>) -> Option<Seq<RegionInfo>>
    decreases tr.len(),
{
    if tr.len() == 0 {
        None
    } else if tr[0].0@ == table {
        Some(tr[0].1@)
    } else {
        regions_of(tr.drop_first(), table)
    }
}

/// A list of names without repeats, in order of first appearance.
pub open spec fn dedup_names(names: Seq<Seq<char>>) -> Seq<Seq<char>>
    decreases names.len(),
{
    if names.len() == 0 {
        Seq::empty()
    } else {
        insert_name(dedup_names(names.drop_last()), names.last())
    }
}

/// Some referenced table has more than one region.
pub open spec fn some_table_split(tables: Seq<Seq<char>>, tr: Seq<(String, Vec<RegionInfo>)>) -> bool {
    exists|i: int| 0 <= i < tables.len() && (#[trigger] regions_of(tr, tables[i]) matches Some(rs) && rs.len() > 1)
}

/// Some of the listed regions (if any) is hosted on `node`.
pub open spec fn some_region_on(regions: Option<Seq<RegionInfo>>, node: NodeId) -> bool {
    match regions {
        Some(rs) => exists|j: int| 0 <= j < rs.len() && #[trigger] rs[j].node_id == node,
        None => false,
    }
}

/// The regions of the first `k` tables, table by table.
pub open spec fn referenced_regions(tables: Seq<Seq<char>>, tr: Seq<(String, Vec<RegionInfo>)>, k: int) -> Seq<RegionInfo>
    decreases k,
{
    if k <= 0 || k > tables.len() {
        Seq::empty()
    } else {
        referenced_regions(tables, tr, k - 1) + match regions_of(tr, tables[k - 1]) {
            Some(rs) => rs,
            None => Seq::empty(),
        }
    }
}

/// The regions of all the tables, table by table.
pub open spec fn all_referenced_regions(tables: Seq<Seq<char>>, tr: Seq<(String, Vec<RegionInfo>)>) -> Seq<RegionInfo> {
    referenced_regions(tables, tr, tables.len() as int)
}

/// The regions of the tables lie on more than one node.
pub open spec fn spans_nodes(tables: Seq<Seq<char>>, tr: Seq<(String, Vec<RegionInfo>)>) -> bool {
    let rr = all_referenced_regions(tables, tr);
    exists|a: int, b: int| 0 <= a < rr.len() && 0 <= b < rr.len() && #[trigger] rr[a].node_id != #[trigger] rr[b].node_id
}

/// A list of regions without repeated region ids, keeping the first of each.
pub open spec fn dedup_regions(rs: Seq<RegionInfo>) -> Seq<RegionInfo>
    decreases rs.len(),
{
    if rs.len() == 0 {
        Seq::empty()
    } else {
        let before = dedup_regions(rs.drop_last());
        if exists|i: int| 0 <= i < before.len() && #[trigger] before[i].region_id == rs.last().region_id {
            before
        } else {
            before.push(rs.last())
        }
    }
}

/// Dropping repeated ids never lengthens a list.
proof fn lemma_dedup_regions_len(rs: Seq<RegionInfo>)
    ensures
        dedup_regions(rs).len() <= rs.len(),
    decreases rs.len(),
{
    if rs.len() > 0 {
        lemma_dedup_regions_len(rs.drop_last());
    }
}

/// The target regions of a plan: the regions of its tables, each region id
/// once.
pub open spec fn target_regions_spec(tables: Seq<Seq<char>>, tr: Seq<(String, Vec<RegionInfo>)>) -> Seq<RegionInfo> {
    dedup_regions(all_referenced_regions(tables, tr))
}

/// The final operation for an analysis over `n` target regions.
pub open spec fn final_operation_kind(a: AnalysisView, n: nat) -> int {
    if n <= 1 {
        0
    } else if a.has_aggregate && a.can_partial_aggregate {
        1
    } else if a.has_sort && a.has_limit {
        2
    } else if a.has_limit {
        3
    } else {
        4
    }
}

/// A final operation matches the decision for an analysis over `n` regions:
/// passthrough for one region; else final aggregation when aggregates are
/// partial; else sort and limit when both are there; else a limit (all rows
/// when no fetch is given); else a union.
pub open spec fn final_operation_matches(op: FinalOperation, a: AnalysisView, n: nat) -> bool {
    let k = final_operation_kind(a, n);
    if k == 0 {
        op is Passthrough
    } else if k == 1 {
        op matches FinalOperation::FinalAggregate { group_by, aggregates } && group_by@ == a.group_by
            && aggregates@ == a.aggregates
    } else if k == 2 {
        op matches FinalOperation::SortLimit { sort_exprs, limit } && sort_exprs@ == a.sort_exprs
            && limit == a.limit_fetch
    } else if k == 3 {
        op == FinalOperation::Limit(
            match a.limit_fetch {
                Some(f) => f,
                None => usize::MAX,
            },
        )
    } else {
        op is Union
    }
}

/// With more than one target region, an analysis with a sort and a limit
/// and no partial aggregate is finished by merging the regions' rows in the
/// sort order and then applying the limit: the final operation is a sort
/// and limit carrying the analysis's sort keys and fetch.
pub proof fn law_sorted_limit_merges_in_order(op: FinalOperation, a: AnalysisView, n: nat)
    requires
        n > 1,
        a.has_sort,
        a.has_limit,
        !(a.has_aggregate && a.can_partial_aggregate),
        final_operation_matches(op, a, n),
    ensures
        op matches FinalOperation::SortLimit { sort_exprs, limit } && sort_exprs@ == a.sort_exprs && limit
            == a.limit_fetch,
{
}

/// Every combination of analysis and region count gets the final operation
/// its shape calls for: one region passes through; partial aggregates are
/// combined; a sort with a limit is merged in order then limited; a limit
/// alone is applied to the merged rows; anything else is a plain union.
pub proof fn law_final_operation_by_shape(op: FinalOperation, a: AnalysisView, n: nat)
    requires
        final_operation_matches(op, a, n),
    ensures
        n <= 1 ==> op is Passthrough,
        n > 1 && a.has_aggregate && a.can_partial_aggregate ==> (op matches FinalOperation::FinalAggregate {
            group_by,
            aggregates,
        } && group_by@ == a.group_by && aggregates@ == a.aggregates),
        n > 1 && !(a.has_aggregate && a.can_partial_aggregate) && a.has_sort && a.has_limit ==> (
        op matches FinalOperation::SortLimit { sort_exprs, limit } && sort_exprs@ == a.sort_exprs && limit
            == a.limit_fetch),
        n > 1 && !(a.has_aggregate && a.can_partial_aggregate) && !a.has_sort && a.has_limit ==> (op
            matches FinalOperation::Limit(k) && (a.limit_fetch matches Some(f) ==> k == f) && (a.limit_fetch is None
            ==> k == usize::MAX)),
        n > 1 && !(a.has_aggregate && a.can_partial_aggregate) && !a.has_limit ==> op is Union,
{
}

/// The limit a region plan takes.
pub open spec fn pushed_limit_spec(c: OptimizerConfig, a: AnalysisView) -> Option<usize> {
    if c.enable_limit_pushdown && a.has_limit && !a.has_aggregate && !a.has_sort {
        a.limit_fetch
    } else {
        None
    }
}

/// A region plan matches the decisions for an analysis.
pub open spec fn region_plan_matches(rp: RegionPlan, region: RegionInfo, c: OptimizerConfig, a: AnalysisView) -> bool {
    &&& rp.region_id == region.region_id
    &&& rp.pushed_predicates@ == (if c.enable_predicate_pushdown && a.pushable.len() > 0 {
        a.pushable
    } else {
        Seq::empty()
    })
    &&& texts(rp.pushed_projections@) == (if c.enable_projection_pushdown && a.projected.len() > 0 {
        a.projected
    } else {
        Seq::empty()
    })
    &&& rp.has_partial_aggregate == (c.enable_aggregate_pushdown && a.has_aggregate
        && a.can_partial_aggregate)
    &&& rp.pushed_limit == pushed_limit_spec(c, a)
}

/// The statistics after planning one more region.
pub open spec fn stats_after_region(s: OptimizationStats, c: OptimizerConfig, a: AnalysisView) -> OptimizationStats {
    OptimizationStats {
        predicates_pushed: if c.enable_predicate_pushdown && a.pushable.len() > 0 {
            (s.predicates_pushed + a.pushable.len()) as usize
        } else {
            s.predicates_pushed
        },
        projections_pushed: if c.enable_projection_pushdown && a.projected.len() > 0 {
            a.projected.len() as usize
        } else {
            s.projections_pushed
        },
        aggregate_pushed: s.aggregate_pushed || (c.enable_aggregate_pushdown && a.has_aggregate
            && a.can_partial_aggregate),
        limit_pushed: s.limit_pushed || pushed_limit_spec(c, a) is Some,
    }
}

/// Copies a list of strings.
fn copy_strings(v: &Vec<String>) -> (r: Vec<String>)
    ensures
        texts(r@) == texts(v@),
{
    let mut r: Vec<String> = Vec::new();
    let mut i: usize = 0;
    while i < v.len()
        invariant
            i <= v.len(),
            r@ == v@.take(i as int),
        decreases v.len() - i,
    {
        r.push(v[i].clone());
        i = i + 1;
        assert(r@ =~= v@.take(i as int));
    }
    assert(v@.take(v.len() as int) =~= v@);
    r
}

/// Whether a list of strings holds a text.
fn contains_text(v: &Vec<String>, s: &String) -> (b: bool)
    ensures
        b == texts(v@).contains(s@),
{
    let mut i: usize = 0;
    while i < v.len()
        invariant
            i <= v.len(),
            forall|k: int| 0 <= k < i ==> v@[k]@ != s@,
        decreases v.len() - i,
    {
        if v[i] == *s {
            assert(texts(v@)[i as int] == s@);
            return true;
        }
        i = i + 1;
    }
    proof {
        if texts(v@).contains(s@) {
            let k = choose|k: int| 0 <= k < texts(v@).len() && texts(v@)[k] == s@;
            assert(v@[k]@ == s@);
        }
    }
    false
}

impl DistributedOptimizer {
    /// The configuration of the optimizer.
    pub closed spec fn spec_config(&self) -> OptimizerConfig {
        self.config
    }

    /// Create a new optimizer with default configuration.
    pub fn new() -> (o: Self)
        ensures
            o.spec_config().enable_predicate_pushdown,
            o.spec_config().enable_projection_pushdown,
            o.spec_config().enable_aggregate_pushdown,
            o.spec_config().enable_limit_pushdown,
            o.spec_config().enable_sort_pushdown,
            o.spec_config().max_parallel_regions == 32,
    {
        DistributedOptimizer { config: OptimizerConfig::default() }
    }

    /// Create a new optimizer with custom configuration.
    pub fn with_config(config: OptimizerConfig) -> (o: Self)
        ensures
            o.spec_config() == config,
    {
        DistributedOptimizer { config }
    }

    /// The configuration of the optimizer.
    pub fn config(&self) -> (c: OptimizerConfig)
        ensures
            c == self.spec_config(),
    {
        self.config
    }

    /// Extract individual predicates from a compound predicate.
    pub fn extract_predicates(&self, expr: &PlanExpr) -> (v: Vec<PlanExpr>)
        ensures
            v@ == conjuncts(*expr),
        decreases expr,
    {
        match expr {
            PlanExpr::And { left, right } => {
                let mut l = self.extract_predicates(left);
                let mut r = self.extract_predicates(right);
                l.append(&mut r);
                l
            },
            _ => {
                let mut v: Vec<PlanExpr> = Vec::new();
                v.push(expr.copy());
                assert(v@ =~= seq![*expr]);
                v
            },
        }
    }

    /// Check if a predicate can be pushed down to datanodes: every predicate
    /// can.
    pub fn can_push_predicate(&self, expr: &PlanExpr) -> (b: bool)
        ensures
            b,
    {
        true
    }

    /// Extract column name from an expression if it's a simple column reference.
    pub fn extract_column_name(&self, expr: &PlanExpr) -> (n: Option<String>)
        ensures
            match column_name_of(*expr) {
                Some(x) => n matches Some(s) && s@ == x,
                None => n is None,
            },
        decreases expr,
    {
        match expr {
            PlanExpr::Column { name } => Some(name.clone()),
            PlanExpr::Alias { expr, .. } => self.extract_column_name(expr),
            _ => None,
        }
    }

    /// Check if aggregates can be partially computed on datanodes.
    pub fn can_partial_aggregate(&self, aggr_exprs: &Vec<PlanExpr>) -> (b: bool)
        ensures
            b == partial_aggregate_ok(aggr_exprs@),
    {
        let mut i: usize = 0;
        while i < aggr_exprs.len()
            invariant
                i <= aggr_exprs.len(),
                forall|k: int| 0 <= k < i ==> match #[trigger] aggr_exprs@[k] {
                    PlanExpr::AggregateCall { function } => function_of_upper_name(spec_to_uppercase(function@)) is Some,
                    _ => true,
                },
            decreases aggr_exprs.len() - i,
        {
            match &aggr_exprs[i] {
                PlanExpr::AggregateCall { function } => {
                    if AggregateFunction::from_name(function.as_str()).is_none() {
                        return false;
                    }
                },
                _ => {},
            }
            i = i + 1;
        }
        true
    }

    /// Reads one operator and its inputs into the analysis.
    pub fn analyze_recursive(&self, plan: &PlanNode, analysis: &mut PlanAnalysis) -> (r: Result<()>)
        ensures
            r is Ok,
            final(analysis).view() == analyze_spec(*plan, old(analysis).view()),
        decreases plan,
    {
        match plan {
            PlanNode::Filter { predicate, input } => {
                let predicates = self.extract_predicates(predicate);
                let ghost before = analysis.view();
                let mut i: usize = 0;
                while i < predicates.len()
                    invariant
                        i <= predicates.len(),
                        analysis.view() == (AnalysisView {
                            pushable: before.pushable + predicates@.take(i as int),
                            ..before
                        }),
                    decreases predicates.len() - i,
                {
                    if self.can_push_predicate(&predicates[i]) {
                        analysis.pushable_predicates.push(predicates[i].copy());
                    } else {
                        analysis.non_pushable_predicates.push(predicates[i].copy());
                    }
                    i = i + 1;
                    assert(analysis.view() =~~= (AnalysisView {
                        pushable: before.pushable + predicates@.take(i as int),
                        ..before
                    }));
                }
                assert(predicates@.take(predicates.len() as int) =~= predicates@);
                self.analyze_recursive(input, analysis)
            },
            PlanNode::Projection { exprs, input } => {
                let ghost before = analysis.view();
                let mut i: usize = 0;
                while i < exprs.len()
                    invariant
                        i <= exprs.len(),
                        analysis.view() == (AnalysisView {
                            projected: insert_columns(before.projected, exprs@, i as int),
                            ..before
                        }),
                    decreases exprs.len() - i,
                {
                    if let Some(col_name) = self.extract_column_name(&exprs[i]) {
                        if !contains_text(&analysis.projected_columns, &col_name) {
                            let ghost cols = analysis.projected_columns@;
                            analysis.projected_columns.push(col_name);
                            assert(texts(analysis.projected_columns@) =~= texts(cols).push(col_name@));
                        }
                    }
                    i = i + 1;
                    assert(analysis.view() =~~= (AnalysisView {
                        projected: insert_columns(before.projected, exprs@, i as int),
                        ..before
                    }));
                }
                analysis.has_projection = true;
                assert(analysis.view() =~~= (AnalysisView {
                    projected: insert_columns(before.projected, exprs@, exprs@.len() as int),
                    has_projection: true,
                    ..before
                }));
                self.analyze_recursive(input, analysis)
            },
            PlanNode::Aggregate { group_expr, aggr_expr, input } => {
                analysis.has_aggregate = true;
                analysis.group_by_exprs = copy_exprs(group_expr);
                analysis.aggregate_exprs = copy_exprs(aggr_expr);
                analysis.can_partial_aggregate = self.can_partial_aggregate(aggr_expr);
                self.analyze_recursive(input, analysis)
            },
            PlanNode::Sort { exprs, input } => {
                analysis.has_sort = true;
                analysis.sort_exprs = copy_sort_exprs(exprs);
                self.analyze_recursive(input, analysis)
            },
            PlanNode::Limit { skip, fetch, input } => {
                analysis.has_limit = true;
                analysis.limit_skip = *skip;
                analysis.limit_fetch = *fetch;
                self.analyze_recursive(input, analysis)
            },
            PlanNode::Join { join_type, left, right } => {
                analysis.has_join = true;
                analysis.join_type = Some(*join_type);
                let _ = self.analyze_recursive(left, analysis);
                self.analyze_recursive(right, analysis)
            },
            PlanNode::TableScan { table_name, .. } => {
                let ghost scans = analysis.table_scans@;
                analysis.table_scans.push(table_name.clone());
                assert(texts(analysis.table_scans@) =~= texts(scans).push(table_name@));
                Ok(())
            },
            PlanNode::MergeScan { .. } => Ok(()),
            PlanNode::Other { inputs, .. } => {
                let ghost before = analysis.view();
                let mut i: usize = 0;
                while i < inputs.len()
                    invariant
                        i <= inputs.len(),
                        *plan is Other,
                        *inputs == plan->inputs,
                        analysis.view() == analyze_list_spec(inputs@, i as int, before),
                    decreases inputs.len() - i,
                {
                    proof {
                        assert(decreases_to!(*plan => plan->inputs));
                        assert(decreases_to!(plan->inputs => plan->inputs[i as int]));
                    }
                    let _ = self.analyze_recursive(&inputs[i], analysis);
                    i = i + 1;
                }
                Ok(())
            },
        }
    }

    /// Analyze the plan structure to determine optimization opportunities.
    pub fn analyze_plan(&self, plan: &PlanNode) -> (r: Result<PlanAnalysis>)
        ensures
            r matches Ok(a) && a.view() == analyze_spec(*plan, empty_analysis()),
    {
        let mut analysis = PlanAnalysis::new();
        self.analyze_recursive(plan, &mut analysis)?;
        Ok(analysis)
    }
}

/// The regions listed first for a table, if any.
pub fn lookup_regions<'a>(tr: &'a [(String, Vec<RegionInfo>)], table: &String) -> (r: Option<&'a Vec<RegionInfo>>)
    ensures
        match regions_of(tr@, table@) {
            Some(rs) => r matches Some(v) && v@ == rs,
            None => r is None,
        },
{
    let mut i: usize = 0;
    assert(tr@.skip(0) =~= tr@);
    while i < tr.len()
        invariant
            i <= tr.len(),
            regions_of(tr@, table@) == regions_of(tr@.skip(i as int), table@),
        decreases tr.len() - i,
    {
        proof {
            assert(tr@.skip(i as int).drop_first() =~= tr@.skip(i + 1));
        }
        if tr[i].0 == *table {
            return Some(&tr[i].1);
        }
        i = i + 1;
    }
    None
}

impl DistributedOptimizer {
    /// Extract all table names referenced in the plan, each once.
    pub fn extract_tables(&self, plan: &PlanNode) -> (tables: Vec<String>)
        ensures
            texts(tables@) == dedup_names(scanned_tables(*plan)),
    {
        let mut raw: Vec<String> = Vec::new();
        collect_scanned_tables(plan, &mut raw);
        assert(texts(raw@) =~= scanned_tables(*plan));
        let mut tables: Vec<String> = Vec::new();
        let mut i: usize = 0;
        while i < raw.len()
            invariant
                i <= raw.len(),
                texts(tables@) == dedup_names(texts(raw@).take(i as int)),
            decreases raw.len() - i,
        {
            proof {
                assert(texts(raw@).take(i + 1).drop_last() =~= texts(raw@).take(i as int));
            }
            if !contains_text(&tables, &raw[i]) {
                let ghost before = tables@;
                tables.push(raw[i].clone());
                assert(texts(tables@) =~= texts(before).push(raw@[i as int]@));
            }
            i = i + 1;
        }
        assert(texts(raw@).take(raw.len() as int) =~= texts(raw@));
        tables
    }

    /// The regions of the tables, table by table.
    fn referenced_region_list(&self, tables: &Vec<String>, tr: &[(String, Vec<RegionInfo>)]) -> (rr: Vec<RegionInfo>)
        ensures
            rr@ == all_referenced_regions(texts(tables@), tr@),
    {
        let mut rr: Vec<RegionInfo> = Vec::new();
        let mut i: usize = 0;
        while i < tables.len()
            invariant
                i <= tables.len(),
                rr@ == referenced_regions(texts(tables@), tr@, i as int),
            decreases tables.len() - i,
        {
            let found = lookup_regions(tr, &tables[i]);
            let ghost before = rr@;
            if let Some(rs) = found {
                let mut j: usize = 0;
                while j < rs.len()
                    invariant
                        j <= rs.len(),
                        rr@ == before + rs@.take(j as int),
                    decreases rs.len() - j,
                {
                    rr.push(rs[j].copy());
                    j = j + 1;
                    assert(rr@ =~= before + rs@.take(j as int));
                }
                assert(rs@.take(rs.len() as int) =~= rs@);
            } else {
                assert(rr@ =~= before + Seq::<RegionInfo>::empty());
            }
            i = i + 1;
            assert(texts(tables@)[i - 1] == tables@[i - 1]@);
        }
        rr
    }

    /// Check if the plan can benefit from distributed execution: some table
    /// has several regions, or the tables' regions lie on several nodes.
    pub fn is_distributable(&self, plan: &PlanNode, table_regions: &[(String, Vec<RegionInfo>)]) -> (b: bool)
        ensures
            ({
                let tables = dedup_names(scanned_tables(*plan));
                b == (some_table_split(tables, table_regions@) || spans_nodes(tables, table_regions@))
            }),
    {
        let tables = self.extract_tables(plan);
        let ghost ts = texts(tables@);
        let mut i: usize = 0;
        while i < tables.len()
            invariant
                i <= tables.len(),
                ts == texts(tables@),
                ts == dedup_names(scanned_tables(*plan)),
                forall|k: int| 0 <= k < i ==> !(#[trigger] regions_of(table_regions@, ts[k]) matches Some(rs) && rs.len() > 1),
            decreases tables.len() - i,
        {
            if let Some(rs) = lookup_regions(table_regions, &tables[i]) {
                if rs.len() > 1 {
                    assert(ts[i as int] == tables@[i as int]@);
                    assert(regions_of(table_regions@, ts[i as int]) matches Some(q) && q.len() > 1);
                    return true;
                }
            }
            assert(ts[i as int] == tables@[i as int]@);
            i = i + 1;
        }
        let rr = self.referenced_region_list(&tables, table_regions);
        if rr.len() == 0 {
            return false;
        }
        let first = rr[0].node_id;
        let mut k: usize = 1;
        while k < rr.len()
            invariant
                1 <= k <= rr.len(),
                rr@ == all_referenced_regions(ts, table_regions@),
                ts == dedup_names(scanned_tables(*plan)),
                forall|q: int| 0 <= q < ts.len() ==> !(#[trigger] regions_of(table_regions@, ts[q]) matches Some(rs) && rs.len() > 1),
                first == rr@[0].node_id,
                forall|q: int| 0 <= q < k ==> #[trigger] rr@[q].node_id == first,
            decreases rr.len() - k,
        {
            if rr[k].node_id != first {
                proof {
                    let all = all_referenced_regions(ts, table_regions@);
                    assert(all[k as int].node_id != all[0].node_id);
                }
                return true;
            }
            k = k + 1;
        }
        proof {
            let all = all_referenced_regions(ts, table_regions@);
            assert forall|a: int, c: int| 0 <= a < all.len() && 0 <= c < all.len() implies !(
                #[trigger] all[a].node_id != #[trigger] all[c].node_id) by {
                assert(rr@[a].node_id == first && rr@[c].node_id == first);
            }
        }
        false
    }

    /// Collect all regions that need to be queried, each region id once.
    pub fn collect_target_regions(&self, tables: &Vec<String>, table_regions: &[(String, Vec<RegionInfo>)]) -> (r: Vec<RegionInfo>)
        ensures
            r@ == target_regions_spec(texts(tables@), table_regions@),
    {
        let rr = self.referenced_region_list(tables, table_regions);
        let mut out: Vec<RegionInfo> = Vec::new();
        let mut i: usize = 0;
        while i < rr.len()
            invariant
                i <= rr.len(),
                out@ == dedup_regions(rr@.take(i as int)),
            decreases rr.len() - i,
        {
            proof {
                assert(rr@.take(i + 1).drop_last() =~= rr@.take(i as int));
            }
            let mut seen = false;
            let mut j: usize = 0;
            while j < out.len()
                invariant
                    i < rr.len(),
                    out@ == dedup_regions(rr@.take(i as int)),
                    j <= out.len(),
                    seen == exists|q: int| 0 <= q < j && #[trigger] out@[q].region_id == rr@[i as int].region_id,
                decreases out.len() - j,
            {
                if out[j].region_id == rr[i].region_id {
                    seen = true;
                }
                j = j + 1;
            }
            if !seen {
                out.push(rr[i].copy());
            }
            i = i + 1;
        }
        assert(rr@.take(rr.len() as int) =~= rr@);
        out
    }

    /// Check if a predicate applies to a specific region: every predicate
    /// applies to every region.
    pub fn predicate_applies_to_region(&self, pred: &PlanExpr, region: &RegionInfo) -> (b: bool)
        ensures
            b,
    {
        true
    }

    /// Create an optimized plan for a specific region.
    pub fn create_region_plan(
        &self,
        original_plan: &PlanNode,
        region: &RegionInfo,
        analysis: &PlanAnalysis,
        stats: &mut OptimizationStats,
    ) -> (r: Result<RegionPlan>)
        requires
            old(stats).predicates_pushed + analysis.view().pushable.len() <= usize::MAX,
        ensures
            r matches Ok(rp) && region_plan_matches(rp, *region, self.spec_config(), analysis.view()),
            *final(stats) == stats_after_region(*old(stats), self.spec_config(), analysis.view()),
    {
        let plan = original_plan.copy();
        let mut pushed_predicates: Vec<PlanExpr> = Vec::new();
        let mut pushed_projections: Vec<String> = Vec::new();
        let mut has_partial_aggregate = false;
        let mut pushed_limit: Option<usize> = None;
        let ghost s0 = *stats;
        if self.config.enable_predicate_pushdown && analysis.pushable_predicates.len() > 0 {
            let mut i: usize = 0;
            while i < analysis.pushable_predicates.len()
                invariant
                    i <= analysis.pushable_predicates.len(),
                    s0.predicates_pushed + analysis.pushable_predicates.len() <= usize::MAX,
                    pushed_predicates@ == analysis.pushable_predicates@.take(i as int),
                    *stats == (OptimizationStats { predicates_pushed: (s0.predicates_pushed + i) as usize, ..s0 }),
                decreases analysis.pushable_predicates.len() - i,
            {
                if self.predicate_applies_to_region(&analysis.pushable_predicates[i], region) {
                    pushed_predicates.push(analysis.pushable_predicates[i].copy());
                    stats.predicates_pushed = stats.predicates_pushed + 1;
                }
                i = i + 1;
                assert(pushed_predicates@ =~= analysis.pushable_predicates@.take(i as int));
            }
            assert(analysis.pushable_predicates@.take(analysis.pushable_predicates.len() as int)
                =~= analysis.pushable_predicates@);
        }
        if self.config.enable_projection_pushdown && analysis.projected_columns.len() > 0 {
            pushed_projections = copy_strings(&analysis.projected_columns);
            stats.projections_pushed = pushed_projections.len();
        } else {
            assert(texts(pushed_projections@) =~= Seq::<Seq<char>>::empty());
        }
        if self.config.enable_aggregate_pushdown && analysis.has_aggregate && analysis.can_partial_aggregate {
            has_partial_aggregate = true;
            stats.aggregate_pushed = true;
        }
        if self.config.enable_limit_pushdown && analysis.has_limit && !analysis.has_aggregate
            && !analysis.has_sort {
            if let Some(fetch) = analysis.limit_fetch {
                pushed_limit = Some(fetch);
                stats.limit_pushed = true;
            }
        }
        Ok(
            RegionPlan {
                region_id: region.region_id,
                plan,
                pushed_predicates,
                pushed_projections,
                has_partial_aggregate,
                pushed_limit,
            },
        )
    }

    /// Create the final plan for aggregating results from all regions.
    pub fn create_final_plan(&self, original_plan: &PlanNode, analysis: &PlanAnalysis, num_regions: usize) -> (r: Result<Option<FinalPlan>>)
        ensures
            r matches Ok(Some(fp)) && final_operation_matches(fp.operation, analysis.view(), num_regions as nat),
            num_regions > 1 && !(analysis.has_aggregate && analysis.can_partial_aggregate) && analysis.has_sort
                && analysis.has_limit ==> (r matches Ok(Some(fp)) && fp.operation matches FinalOperation::SortLimit {
                sort_exprs,
                limit,
            } && sort_exprs@ == analysis.view().sort_exprs && limit == analysis.limit_fetch),
    {
        if num_regions <= 1 {
            return Ok(Some(FinalPlan { operation: FinalOperation::Passthrough, plan: original_plan.copy() }));
        }
        let operation = if analysis.has_aggregate && analysis.can_partial_aggregate {
            FinalOperation::FinalAggregate {
                group_by: copy_exprs(&analysis.group_by_exprs),
                aggregates: copy_exprs(&analysis.aggregate_exprs),
            }
        } else if analysis.has_sort && analysis.has_limit {
            FinalOperation::SortLimit {
                sort_exprs: copy_sort_exprs(&analysis.sort_exprs),
                limit: analysis.limit_fetch,
            }
        } else if analysis.has_limit {
            FinalOperation::Limit(
                match analysis.limit_fetch {
                    Some(f) => f,
                    None => usize::MAX,
                },
            )
        } else {
            FinalOperation::Union
        };
        Ok(Some(FinalPlan { operation, plan: original_plan.copy() }))
    }

    /// Optimize a plan for distributed execution.
    ///
    /// Finds the referenced tables; when the plan is not distributable it is
    /// left whole. Otherwise every target region gets its plan with the
    /// pushed-down parts, and the final operation is chosen.
    pub fn optimize(&self, plan: &PlanNode, table_regions: &[(String, Vec<RegionInfo>)]) -> (r: Result<OptimizedPlan>)
        requires
            analyze_spec(*plan, empty_analysis()).pushable.len() * all_referenced_regions(
                dedup_names(scanned_tables(*plan)),
                table_regions@,
            ).len() <= usize::MAX,
        ensures
            r matches Ok(op) && {
                let tables = dedup_names(scanned_tables(*plan));
                let a = analyze_spec(*plan, empty_analysis());
                let targets = target_regions_spec(tables, table_regions@);
                &&& texts(op.referenced_tables@) == tables
                &&& op.is_distributable == (some_table_split(tables, table_regions@) || spans_nodes(
                    tables,
                    table_regions@,
                ))
                &&& !op.is_distributable ==> op.region_plans@.len() == 0 && op.final_plan is None
                    && op.stats == OptimizationStats::default_spec()
                &&& op.is_distributable ==> {
                    &&& op.region_plans@.len() == targets.len()
                    &&& forall|i: int| 0 <= i < targets.len() ==> region_plan_matches(
                        #[trigger] op.region_plans@[i],
                        targets[i],
                        self.spec_config(),
                        a,
                    )
                    &&& op.final_plan matches Some(fp) && final_operation_matches(
                        fp.operation,
                        a,
                        targets.len(),
                    )
                }
            },
    {
        let referenced_tables = self.extract_tables(plan);
        let is_distributable = self.is_distributable(plan, table_regions);
        if !is_distributable {
            return Ok(
                OptimizedPlan {
                    original_plan: plan.copy(),
                    region_plans: Vec::new(),
                    final_plan: None,
                    referenced_tables,
                    is_distributable: false,
                    stats: OptimizationStats::default(),
                },
            );
        }
        let target_regions = self.collect_target_regions(&referenced_tables, table_regions);
        proof {
            lemma_dedup_regions_len(all_referenced_regions(texts(referenced_tables@), table_regions@));
        }
        let analysis = self.analyze_plan(plan)?;
        proof {
            let t = target_regions@.len();
            let all = all_referenced_regions(texts(referenced_tables@), table_regions@).len();
            let n = analysis.view().pushable.len();
            assert(n * t <= n * all) by (nonlinear_arith)
                requires
                    t <= all,
            ;
        }
        let mut region_plans: Vec<RegionPlan> = Vec::new();
        let mut stats = OptimizationStats::default();
        let ghost a = analysis.view();
        let ghost n = a.pushable.len();
        let mut i: usize = 0;
        while i < target_regions.len()
            invariant
                i <= target_regions.len(),
                a == analysis.view(),
                n == a.pushable.len(),
                n * target_regions@.len() <= usize::MAX,
                stats.predicates_pushed <= i * n,
                region_plans@.len() == i,
                forall|k: int| 0 <= k < i ==> region_plan_matches(
                    #[trigger] region_plans@[k],
                    target_regions@[k],
                    self.spec_config(),
                    a,
                ),
            decreases target_regions.len() - i,
        {
            proof {
                assert((i + 1) * n <= n * target_regions@.len()) by (nonlinear_arith)
                    requires
                        i < target_regions@.len(),
                ;
                assert(i * n + n == (i + 1) * n) by (nonlinear_arith);
            }
            let rp = self.create_region_plan(plan, &target_regions[i], &analysis, &mut stats)?;
            region_plans.push(rp);
            i = i + 1;
        }
        let final_plan = self.create_final_plan(plan, &analysis, target_regions.len())?;
        Ok(
            OptimizedPlan {
                original_plan: plan.copy(),
                region_plans,
                final_plan,
                referenced_tables,
                is_distributable: true,
                stats,
            },
        )
    }
}

impl OptimizationStats {
    /// The statistics before anything was pushed down.
    pub open spec fn default_spec() -> OptimizationStats {
        OptimizationStats {
            predicates_pushed: 0,
            projections_pushed: 0,
            aggregate_pushed: false,
            limit_pushed: false,
        }
    }
}

impl Default for DistributedOptimizer {
    fn default() -> (o: Self)
        ensures
            o.spec_config().enable_predicate_pushdown,
            o.spec_config().enable_projection_pushdown,
            o.spec_config().enable_aggregate_pushdown,
            o.spec_config().enable_limit_pushdown,
            o.spec_config().enable_sort_pushdown,
            o.spec_config().max_parallel_regions == 32,
    {
        DistributedOptimizer::new()
    }
}

} // verus!
