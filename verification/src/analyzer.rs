//! Which parts of a logical plan can run on the datanodes.

use vstd::prelude::*;
use crate::plan::{PlanNode, scanned_tables, scanned_tables_of};

verus! {

/// Options for distributed query planning
#[derive(Debug, Clone, Copy)]
pub struct DistPlannerOptions {
    /// Whether to allow fallback when push down fails
    pub allow_query_fallback: bool,
}

impl Default for DistPlannerOptions {
    fn default() -> (o: Self)
        ensures
            o.allow_query_fallback,
    {
        DistPlannerOptions { allow_query_fallback: true }
    }
}

/// Whether an operator can be pushed down to the datanodes: scans,
/// projections, filters, limits, sorts (merged afterwards) and aggregates
/// (in two phases) can; joins and everything else cannot.
pub open spec fn pushable(node: PlanNode) -> bool {
    match node {
        PlanNode::TableScan { .. } => true,
        PlanNode::Projection { .. } => true,
        PlanNode::Filter { .. } => true,
        PlanNode::Limit { .. } => true,
        PlanNode::Sort { .. } => true,
        PlanNode::Aggregate { .. } => true,
        PlanNode::Join { .. } => false,
        PlanNode::Other { .. } => false,
        PlanNode::MergeScan { .. } => false,
    }
}

/// Distributed planner analyzer
#[derive(Debug, Clone, Copy)]
pub struct DistPlannerAnalyzer {
    options: DistPlannerOptions,
}

impl DistPlannerAnalyzer {
    /// The options the analyzer runs with.
    pub closed spec fn spec_options(&self) -> DistPlannerOptions {
        self.options
    }

    /// An analyzer with the default options.
    pub fn new() -> (a: Self)
        ensures
            a.spec_options().allow_query_fallback,
    {
        DistPlannerAnalyzer { options: DistPlannerOptions::default() }
    }

    /// An analyzer with the given options.
    pub fn with_options(options: DistPlannerOptions) -> (a: Self)
        ensures
            a.spec_options() == options,
    {
        DistPlannerAnalyzer { options }
    }

    /// The options the analyzer runs with.
    pub fn options(&self) -> (o: DistPlannerOptions)
        ensures
            o == self.spec_options(),
    {
        self.options
    }

    /// Whether a plan node can be pushed down to the datanodes.
    pub fn can_push_down(&self, node: &PlanNode) -> (b: bool)
        ensures
            b == pushable(*node),
    {
        match node {
            PlanNode::TableScan { .. } => true,
            PlanNode::Projection { .. } => true,
            PlanNode::Filter { .. } => true,
            PlanNode::Limit { .. } => true,
            PlanNode::Sort { .. } => true,
            PlanNode::Aggregate { .. } => true,
            PlanNode::Join { .. } => false,
            PlanNode::Other { .. } => false,
            PlanNode::MergeScan { .. } => false,
        }
    }
}

impl Default for DistPlannerAnalyzer {
    fn default() -> (a: Self)
        ensures
            a.spec_options().allow_query_fallback,
    {
        Self::new()
    }
}


/// Whether `r` is `p` with every table scan that a plan walk reaches wrapped
/// in a merge scan: the same operators with the same properties, and merge
/// scans (whose inner plans a walk does not enter) left as they are.
pub open spec fn merge_scanned(r: PlanNode, p: PlanNode) -> bool
    decreases p, 1nat,
{
    match p {
        PlanNode::TableScan { .. } => r == PlanNode::MergeScan { input: Box::new(p), is_placeholder: false },
        PlanNode::Filter { predicate, input } => r matches PlanNode::Filter { predicate: rp, input: ri } && rp
            == predicate && merge_scanned(*ri, *input),
        PlanNode::Projection { exprs, input } => r matches PlanNode::Projection { exprs: re, input: ri } && re
            == exprs && merge_scanned(*ri, *input),
        PlanNode::Aggregate { group_expr, aggr_expr, input } => r matches PlanNode::Aggregate {
            group_expr: rg,
            aggr_expr: ra,
            input: ri,
        } && rg == group_expr && ra == aggr_expr && merge_scanned(*ri, *input),
        PlanNode::Sort { exprs, input } => r matches PlanNode::Sort { exprs: re, input: ri } && re == exprs
            && merge_scanned(*ri, *input),
        PlanNode::Limit { skip, fetch, input } => r matches PlanNode::Limit { skip: rs, fetch: rf, input: ri } && rs
            == skip && rf == fetch && merge_scanned(*ri, *input),
        PlanNode::Join { join_type, left, right } => r matches PlanNode::Join {
            join_type: rj,
            left: rl,
            right: rr,
        } && rj == join_type && merge_scanned(*rl, *left) && merge_scanned(*rr, *right),
        PlanNode::Other { kind, inputs } => r matches PlanNode::Other { kind: rk, inputs: ri } && rk == kind
            && merge_scanned_list(ri@, inputs@),
        PlanNode::MergeScan { .. } => r == p,
    }
}

/// Whether each plan of `rs` is the corresponding plan of `ps` with its
/// scans wrapped.
pub open spec fn merge_scanned_list(rs: Seq<PlanNode>, ps: Seq<PlanNode>) -> bool
    decreases ps, 0nat,
{
    &&& rs.len() == ps.len()
    &&& (ps.len() == 0 || (merge_scanned(rs[0], ps[0]) && merge_scanned_list(
        rs.subrange(1, rs.len() as int),
        ps.subrange(1, ps.len() as int),
    )))
}

/// Wrapped lists stay wrapped when a wrapped pair is appended.
pub proof fn lemma_merge_scanned_list_push(rs: Seq<PlanNode>, ps: Seq<PlanNode>, r: PlanNode, p: PlanNode)
    requires
        merge_scanned_list(rs, ps),
        merge_scanned(r, p),
    ensures
        merge_scanned_list(rs.push(r), ps.push(p)),
    decreases ps.len(),
{
    if ps.len() == 0 {
        assert(rs.push(r).subrange(1, 1) =~= Seq::<PlanNode>::empty());
        assert(ps.push(p).subrange(1, 1) =~= Seq::<PlanNode>::empty());
        assert(rs.push(r)[0] == r);
        assert(ps.push(p)[0] == p);
        assert(merge_scanned_list(Seq::<PlanNode>::empty(), Seq::<PlanNode>::empty()));
    } else {
        assert(rs.push(r)[0] == rs[0]);
        assert(ps.push(p)[0] == ps[0]);
        let rt = rs.subrange(1, rs.len() as int);
        let pt = ps.subrange(1, ps.len() as int);
        lemma_merge_scanned_list_push(rt, pt, r, p);
        assert(rs.push(r).subrange(1, rs.len() as int + 1) =~= rt.push(r));
        assert(ps.push(p).subrange(1, ps.len() as int + 1) =~= pt.push(p));
    }
}

impl DistPlannerAnalyzer {
    /// The name of the rule.
    pub fn name(&self) -> (n: &'static str)
        ensures
            n@ == "DistPlannerAnalyzer"@,
    {
        "DistPlannerAnalyzer"
    }

    /// Wraps every table scan a plan walk reaches in a merge scan, so that
    /// the scan runs on the datanodes and the rest on the frontend.
    #[verifier::loop_isolation(false)]
    pub fn push_down(plan: PlanNode) -> (r: PlanNode)
        ensures
            merge_scanned(r, plan),
        decreases plan,
    {
        let ghost p = plan;
        match plan {
            PlanNode::TableScan { table_name, table, projection } => PlanNode::MergeScan {
                input: Box::new(PlanNode::TableScan { table_name, table, projection }),
                is_placeholder: false,
            },
            PlanNode::Filter { predicate, input } => PlanNode::Filter {
                predicate,
                input: Box::new(Self::push_down(*input)),
            },
            PlanNode::Projection { exprs, input } => PlanNode::Projection {
                exprs,
                input: Box::new(Self::push_down(*input)),
            },
            PlanNode::Aggregate { group_expr, aggr_expr, input } => PlanNode::Aggregate {
                group_expr,
                aggr_expr,
                input: Box::new(Self::push_down(*input)),
            },
            PlanNode::Sort { exprs, input } => PlanNode::Sort { exprs, input: Box::new(Self::push_down(*input)) },
            PlanNode::Limit { skip, fetch, input } => PlanNode::Limit {
                skip,
                fetch,
                input: Box::new(Self::push_down(*input)),
            },
            PlanNode::Join { join_type, left, right } => {
                let l = Self::push_down(*left);
                let rt = Self::push_down(*right);
                PlanNode::Join { join_type, left: Box::new(l), right: Box::new(rt) }
            },
            PlanNode::Other { kind, inputs } => {
                let ghost orig = inputs@;
                let mut rest = inputs;
                let mut out: Vec<PlanNode> = Vec::new();
                while rest.len() > 0
                    invariant
                        p is Other,
                        orig == p->inputs@,
                        out@.len() + rest@.len() == orig.len(),
                        rest@ == orig.subrange(out@.len() as int, orig.len() as int),
                        merge_scanned_list(out@, orig.take(out@.len() as int)),
                    decreases rest.len(),
                {
                    let ghost k = out@.len() as int;
                    let next = rest.remove(0);
                    proof {
                        assert(next == orig[k]);
                        assert(decreases_to!(p => p->inputs));
                        assert(decreases_to!(p->inputs => p->inputs@));
                        assert(decreases_to!(p->inputs@ => p->inputs@[k]));
                    }
                    let w = Self::push_down(next);
                    proof {
                        lemma_merge_scanned_list_push(out@, orig.take(k), w, orig[k]);
                        assert(orig.take(k).push(orig[k]) =~= orig.take(k + 1));
                    }
                    out.push(w);
                    assert(rest@ =~= orig.subrange(out@.len() as int, orig.len() as int));
                }
                proof {
                    assert(orig.take(out@.len() as int) =~= orig);
                }
                PlanNode::Other { kind, inputs: out }
            },
            PlanNode::MergeScan { input, is_placeholder } => PlanNode::MergeScan { input, is_placeholder },
        }
    }

    /// Analyzes a plan for distributed execution: every table scan is
    /// pushed down to the datanodes behind a merge scan. (The push-down
    /// cannot fail, so the fallback, which wraps the same scans, is never
    /// taken.)
    pub fn analyze(&self, plan: PlanNode) -> (r: PlanNode)
        ensures
            merge_scanned(r, plan),
    {
        Self::push_down(plan)
    }
}

/// The tables the merge scans of a plan read, in walk order.
pub open spec fn merge_scan_tables(p: PlanNode) -> Seq<Seq<char>>
    decreases p, 1nat,
{
    match p {
        PlanNode::TableScan { .. } => Seq::empty(),
        PlanNode::Filter { input, .. } => merge_scan_tables(*input),
        PlanNode::Projection { input, .. } => merge_scan_tables(*input),
        PlanNode::Aggregate { input, .. } => merge_scan_tables(*input),
        PlanNode::Sort { input, .. } => merge_scan_tables(*input),
        PlanNode::Limit { input, .. } => merge_scan_tables(*input),
        PlanNode::Join { left, right, .. } => merge_scan_tables(*left) + merge_scan_tables(*right),
        PlanNode::Other { inputs, .. } => merge_scan_tables_list(inputs@),
        PlanNode::MergeScan { input, .. } => scanned_tables(*input),
    }
}

/// The tables the merge scans of a list of plans read, in order.
pub open spec fn merge_scan_tables_list(ps: Seq<PlanNode>) -> Seq<Seq<char>>
    decreases ps, 0nat,
{
    if ps.len() == 0 {
        Seq::empty()
    } else {
        merge_scan_tables(ps[0]) + merge_scan_tables_list(ps.subrange(1, ps.len() as int))
    }
}

/// The tables a plan reads, counting those under merge scans it already
/// has, in walk order.
pub open spec fn pushed_tables(p: PlanNode) -> Seq<Seq<char>>
    decreases p, 1nat,
{
    match p {
        PlanNode::TableScan { table_name, .. } => seq![table_name@],
        PlanNode::Filter { input, .. } => pushed_tables(*input),
        PlanNode::Projection { input, .. } => pushed_tables(*input),
        PlanNode::Aggregate { input, .. } => pushed_tables(*input),
        PlanNode::Sort { input, .. } => pushed_tables(*input),
        PlanNode::Limit { input, .. } => pushed_tables(*input),
        PlanNode::Join { left, right, .. } => pushed_tables(*left) + pushed_tables(*right),
        PlanNode::Other { inputs, .. } => pushed_tables_list(inputs@),
        PlanNode::MergeScan { input, .. } => scanned_tables(*input),
    }
}

/// The tables a list of plans reads, in order.
pub open spec fn pushed_tables_list(ps: Seq<PlanNode>) -> Seq<Seq<char>>
    decreases ps, 0nat,
{
    if ps.len() == 0 {
        Seq::empty()
    } else {
        pushed_tables(ps[0]) + pushed_tables_list(ps.subrange(1, ps.len() as int))
    }
}

/// Plans that scan nothing outside merge scans add up to nothing.
proof fn lemma_scanned_tables_of_empty(rs: Seq<PlanNode>, n: int)
    requires
        0 <= n <= rs.len(),
        forall|i: int| 0 <= i < rs.len() ==> scanned_tables(#[trigger] rs[i]) == Seq::<Seq<char>>::empty(),
    ensures
        scanned_tables_of(rs, n) == Seq::<Seq<char>>::empty(),
    decreases n,
{
    if n > 0 {
        lemma_scanned_tables_of_empty(rs, n - 1);
        assert(scanned_tables(rs[n - 1]) == Seq::<Seq<char>>::empty());
        assert(Seq::<Seq<char>>::empty() + Seq::<Seq<char>>::empty() =~= Seq::<Seq<char>>::empty());
    }
}

/// Pushing a plan down leaves no table scan outside the merge scans, and
/// the merge scans read exactly the tables the plan read (those under merge
/// scans it already had included), in the same order.
pub proof fn law_push_down_wraps_every_scan(r: PlanNode, p: PlanNode)
    requires
        merge_scanned(r, p),
    ensures
        scanned_tables(r) == Seq::<Seq<char>>::empty(),
        merge_scan_tables(r) == pushed_tables(p),
    decreases p, 1nat,
{
    match p {
        PlanNode::TableScan { .. } => {
            let w = PlanNode::MergeScan { input: Box::new(p), is_placeholder: false };
            assert(r == w);
            assert(merge_scan_tables(w) == scanned_tables(p));
        },
        PlanNode::Filter { input, .. } => {
            let ri = r->Filter_input;
            law_push_down_wraps_every_scan(*ri, *input);
        },
        PlanNode::Projection { input, .. } => {
            let ri = r->Projection_input;
            law_push_down_wraps_every_scan(*ri, *input);
        },
        PlanNode::Aggregate { input, .. } => {
            let ri = r->Aggregate_input;
            law_push_down_wraps_every_scan(*ri, *input);
        },
        PlanNode::Sort { input, .. } => {
            let ri = r->Sort_input;
            law_push_down_wraps_every_scan(*ri, *input);
        },
        PlanNode::Limit { input, .. } => {
            let ri = r->Limit_input;
            law_push_down_wraps_every_scan(*ri, *input);
        },
        PlanNode::Join { left, right, .. } => {
            law_push_down_wraps_every_scan(*r->left, *left);
            law_push_down_wraps_every_scan(*r->right, *right);
            assert(Seq::<Seq<char>>::empty() + Seq::<Seq<char>>::empty() =~= Seq::<Seq<char>>::empty());
        },
        PlanNode::Other { inputs, .. } => {
            let ri = r->Other_inputs;
            law_push_down_list(ri@, inputs@);
            lemma_scanned_tables_of_empty(ri@, ri@.len() as int);
        },
        PlanNode::MergeScan { .. } => {},
    }
}

/// The list form of the push-down law.
proof fn law_push_down_list(rs: Seq<PlanNode>, ps: Seq<PlanNode>)
    requires
        merge_scanned_list(rs, ps),
    ensures
        forall|i: int| 0 <= i < rs.len() ==> scanned_tables(#[trigger] rs[i]) == Seq::<Seq<char>>::empty(),
        merge_scan_tables_list(rs) == pushed_tables_list(ps),
    decreases ps, 0nat,
{
    if ps.len() > 0 {
        let rt = rs.subrange(1, rs.len() as int);
        law_push_down_wraps_every_scan(rs[0], ps[0]);
        law_push_down_list(rt, ps.subrange(1, ps.len() as int));
        assert forall|i: int| 0 <= i < rs.len() implies scanned_tables(#[trigger] rs[i]) == Seq::<Seq<char>>::empty() by {
            if i > 0 {
                assert(rs[i] == rt[i - 1]);
            }
        }
    }
}

} // verus!
