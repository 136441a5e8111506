//! The shape of a logical query plan, as far as distribution decisions read
//! it.
//!
//! A plan is a tree of operators over table scans. Expressions keep what the
//! planner looks at: column references, aliases, conjunctions, aggregate
//! calls by function name; any other expression is kept as its text.

use vstd::prelude::*;

verus! {

/// An expression of a plan.
#[derive(Debug)]
pub enum PlanExpr {
    /// A column reference
    Column { name: String },
    /// An aliased expression
    Alias { expr: Box<PlanExpr>, name: String },
    /// A conjunction `left AND right`
    And { left: Box<PlanExpr>, right: Box<PlanExpr> },
    /// A call of an aggregate function, by name
    AggregateCall { function: String },
    /// Any other expression, by its text
    Other { text: String },
}

impl PlanExpr {
    /// An exact copy.
    pub fn copy(&self) -> (r: Self)
        ensures
            r == *self,
        decreases self,
    {
        match self {
            PlanExpr::Column { name } => PlanExpr::Column { name: name.clone() },
            PlanExpr::Alias { expr, name } => PlanExpr::Alias {
                expr: Box::new((**expr).copy()),
                name: name.clone(),
            },
            PlanExpr::And { left, right } => PlanExpr::And {
                left: Box::new((**left).copy()),
                right: Box::new((**right).copy()),
            },
            PlanExpr::AggregateCall { function } => PlanExpr::AggregateCall { function: function.clone() },
            PlanExpr::Other { text } => PlanExpr::Other { text: text.clone() },
        }
    }
}

/// Exact copies of a list of expressions.
pub fn copy_exprs(v: &Vec<PlanExpr>) -> (r: Vec<PlanExpr>)
    ensures
        r@ == v@,
{
    let mut r: Vec<PlanExpr> = Vec::new();
    let mut i: usize = 0;
    while i < v.len()
        invariant
            i <= v.len(),
            r@ == v@.take(i as int),
        decreases v.len() - i,
    {
        r.push(v[i].copy());
        i = i + 1;
        assert(r@ =~= v@.take(i as int));
    }
    assert(v@.take(v.len() as int) =~= v@);
    r
}

/// The column indices a scan reads, as a sequence.
pub open spec fn projection_view(p: Option<Vec<usize>>) -> Option<Seq<usize>> {
    match p {
        Some(v) => Some(v@),
        None => None,
    }
}

/// A copy of a scan's column indices.
pub fn copy_projection(p: &Option<Vec<usize>>) -> (r: Option<Vec<usize>>)
    ensures
        projection_view(r) == projection_view(*p),
{
    match p {
        None => None,
        Some(v) => {
            let mut r: Vec<usize> = Vec::new();
            let mut i: usize = 0;
            while i < v.len()
                invariant
                    i <= v.len(),
                    r@ == v@.take(i as int),
                decreases v.len() - i,
            {
                r.push(v[i]);
                i = i + 1;
                assert(r@ =~= v@.take(i as int));
            }
            assert(v@.take(v.len() as int) =~= v@);
            Some(r)
        },
    }
}

/// A sort key of a plan.
#[derive(Debug)]
pub struct PlanSortExpr {
    /// The expression sorted by
    pub expr: PlanExpr,
    /// Ascending order
    pub asc: bool,
    /// Nulls before other values
    pub nulls_first: bool,
}

impl PlanSortExpr {
    /// An exact copy.
    pub fn copy(&self) -> (r: Self)
        ensures
            r == *self,
    {
        PlanSortExpr { expr: self.expr.copy(), asc: self.asc, nulls_first: self.nulls_first }
    }
}

impl Clone for PlanExpr {
    fn clone(&self) -> (r: Self)
        ensures
            r == *self,
    {
        self.copy()
    }
}

impl Clone for PlanSortExpr {
    fn clone(&self) -> (r: Self)
        ensures
            r == *self,
    {
        self.copy()
    }
}

/// Exact copies of a list of sort keys.
pub fn copy_sort_exprs(v: &Vec<PlanSortExpr>) -> (r: Vec<PlanSortExpr>)
    ensures
        r@ == v@,
{
    let mut r: Vec<PlanSortExpr> = Vec::new();
    let mut i: usize = 0;
    while i < v.len()
        invariant
            i <= v.len(),
            r@ == v@.take(i as int),
        decreases v.len() - i,
    {
        r.push(v[i].copy());
        i = i + 1;
        assert(r@ =~= v@.take(i as int));
    }
    assert(v@.take(v.len() as int) =~= v@);
    r
}

/// The kind of a join.
#[derive(Debug, Clone, Copy, PartialEq, Eq, Structural)]
pub enum JoinKind {
    Inner,
    Left,
    Right,
    Full,
    LeftSemi,
    RightSemi,
    LeftAnti,
    RightAnti,
    LeftMark,
    RightMark,
}

/// An operator of a logical plan.
#[derive(Debug)]
pub enum PlanNode {
    /// A scan of a table: its full (possibly qualified) name, its bare name
    /// and, where only some columns are read, their indices
    TableScan { table_name: String, table: String, projection: Option<Vec<usize>> },
    /// Rows that satisfy a predicate
    Filter { predicate: PlanExpr, input: Box<PlanNode> },
    /// A projection onto expressions
    Projection { exprs: Vec<PlanExpr>, input: Box<PlanNode> },
    /// Grouping with aggregates
    Aggregate { group_expr: Vec<PlanExpr>, aggr_expr: Vec<PlanExpr>, input: Box<PlanNode> },
    /// Ordering
    Sort { exprs: Vec<PlanSortExpr>, input: Box<PlanNode> },
    /// Skipping and fetching rows
    Limit { skip: usize, fetch: Option<usize>, input: Box<PlanNode> },
    /// A join of two inputs
    Join { join_type: JoinKind, left: Box<PlanNode>, right: Box<PlanNode> },
    /// Any other operator, by its kind (such as `Union`) and its inputs
    Other { kind: String, inputs: Vec<PlanNode> },
    /// A plan run on every datanode whose results are merged; the inner plan
    /// is not an input of the node, so plan walks stop here
    MergeScan { input: Box<PlanNode>, is_placeholder: bool },
}

/// Whether `b` is the same plan as `a`: the same operators with the same
/// properties, lists of expressions and inputs compared element by element.
pub open spec fn same_plan(a: PlanNode, b: PlanNode) -> bool
    decreases a, 1nat,
{
    match a {
        PlanNode::TableScan { table_name, table, projection } => b matches PlanNode::TableScan {
            table_name: bn,
            table: bt,
            projection: bp,
        } && bn == table_name && bt == table && projection_view(bp) == projection_view(projection),
        PlanNode::Filter { predicate, input } => b matches PlanNode::Filter { predicate: bp, input: bi } && bp
            == predicate && same_plan(*input, *bi),
        PlanNode::Projection { exprs, input } => b matches PlanNode::Projection { exprs: be, input: bi } && be@
            == exprs@ && same_plan(*input, *bi),
        PlanNode::Aggregate { group_expr, aggr_expr, input } => b matches PlanNode::Aggregate {
            group_expr: bg,
            aggr_expr: ba,
            input: bi,
        } && bg@ == group_expr@ && ba@ == aggr_expr@ && same_plan(*input, *bi),
        PlanNode::Sort { exprs, input } => b matches PlanNode::Sort { exprs: be, input: bi } && be@ == exprs@
            && same_plan(*input, *bi),
        PlanNode::Limit { skip, fetch, input } => b matches PlanNode::Limit { skip: bs, fetch: bf, input: bi } && bs
            == skip && bf == fetch && same_plan(*input, *bi),
        PlanNode::Join { join_type, left, right } => b matches PlanNode::Join { join_type: bj, left: bl, right: br }
            && bj == join_type && same_plan(*left, *bl) && same_plan(*right, *br),
        PlanNode::Other { kind, inputs } => b matches PlanNode::Other { kind: bk, inputs: bi } && bk == kind
            && same_plans(inputs@, bi@),
        PlanNode::MergeScan { input, is_placeholder } => b matches PlanNode::MergeScan {
            input: bi,
            is_placeholder: bp,
        } && bp == is_placeholder && same_plan(*input, *bi),
    }
}

/// Whether two lists hold the same plans, one for one.
pub open spec fn same_plans(a: Seq<PlanNode>, b: Seq<PlanNode>) -> bool
    decreases a, 0nat,
{
    &&& a.len() == b.len()
    &&& (a.len() == 0 || (same_plan(a[0], b[0]) && same_plans(
        a.subrange(1, a.len() as int),
        b.subrange(1, b.len() as int),
    )))
}

/// Lists of the same plans stay so when the same plan is appended to both.
pub proof fn lemma_same_plans_push(a: Seq<PlanNode>, b: Seq<PlanNode>, x: PlanNode, y: PlanNode)
    requires
        same_plans(a, b),
        same_plan(x, y),
    ensures
        same_plans(a.push(x), b.push(y)),
    decreases a.len(),
{
    if a.len() == 0 {
        assert(a.push(x).subrange(1, 1) =~= Seq::<PlanNode>::empty());
        assert(b.push(y).subrange(1, 1) =~= Seq::<PlanNode>::empty());
        assert(a.push(x)[0] == x);
        assert(b.push(y)[0] == y);
        assert(same_plans(Seq::<PlanNode>::empty(), Seq::<PlanNode>::empty()));
    } else {
        assert(a.push(x)[0] == a[0]);
        assert(b.push(y)[0] == b[0]);
        let at = a.subrange(1, a.len() as int);
        let bt = b.subrange(1, b.len() as int);
        lemma_same_plans_push(at, bt, x, y);
        assert(a.push(x).subrange(1, a.len() as int + 1) =~= at.push(x));
        assert(b.push(y).subrange(1, b.len() as int + 1) =~= bt.push(y));
    }
}

impl PlanNode {
    /// A copy of the plan, operator by operator.
    pub fn copy(&self) -> (r: Self)
        ensures
            same_plan(*self, r),
        decreases self,
    {
        match self {
            PlanNode::TableScan { table_name, table, projection } => PlanNode::TableScan {
                table_name: table_name.clone(),
                table: table.clone(),
                projection: copy_projection(projection),
            },
            PlanNode::Filter { predicate, input } => PlanNode::Filter {
                predicate: predicate.copy(),
                input: Box::new((**input).copy()),
            },
            PlanNode::Projection { exprs, input } => PlanNode::Projection {
                exprs: copy_exprs(exprs),
                input: Box::new((**input).copy()),
            },
            PlanNode::Aggregate { group_expr, aggr_expr, input } => PlanNode::Aggregate {
                group_expr: copy_exprs(group_expr),
                aggr_expr: copy_exprs(aggr_expr),
                input: Box::new((**input).copy()),
            },
            PlanNode::Sort { exprs, input } => PlanNode::Sort {
                exprs: copy_sort_exprs(exprs),
                input: Box::new((**input).copy()),
            },
            PlanNode::Limit { skip, fetch, input } => PlanNode::Limit {
                skip: *skip,
                fetch: *fetch,
                input: Box::new((**input).copy()),
            },
            PlanNode::Join { join_type, left, right } => PlanNode::Join {
                join_type: *join_type,
                left: Box::new((**left).copy()),
                right: Box::new((**right).copy()),
            },
            PlanNode::MergeScan { input, is_placeholder } => PlanNode::MergeScan {
                input: Box::new((**input).copy()),
                is_placeholder: *is_placeholder,
            },
            PlanNode::Other { kind, inputs } => {
                let mut r: Vec<PlanNode> = Vec::new();
                let mut i: usize = 0;
                while i < inputs.len()
                    invariant
                        i <= inputs.len(),
                        *self is Other,
                        *inputs == self->inputs,
                        same_plans(inputs@.take(i as int), r@),
                    decreases inputs.len() - i,
                {
                    proof {
                        assert(decreases_to!(*self => self->inputs));
                        assert(decreases_to!(self->inputs => self->inputs[i as int]));
                    }
                    let c = inputs[i].copy();
                    proof {
                        lemma_same_plans_push(inputs@.take(i as int), r@, inputs@[i as int], c);
                        assert(inputs@.take(i as int).push(inputs@[i as int]) =~= inputs@.take(i as int + 1));
                    }
                    r.push(c);
                    i = i + 1;
                }
                proof {
                    assert(inputs@.take(i as int) =~= inputs@);
                }
                PlanNode::Other { kind: kind.clone(), inputs: r }
            },
        }
    }
}

impl Clone for PlanNode {
    fn clone(&self) -> (r: Self)
        ensures
            same_plan(*self, r),
    {
        self.copy()
    }
}

/// The full names of the tables a plan scans, in scan order.
pub open spec fn scanned_tables(p: PlanNode) -> Seq<Seq<char>>
    decreases p,
{
    match p {
        PlanNode::TableScan { table_name, .. } => seq![table_name@],
        PlanNode::Filter { input, .. } => scanned_tables(*input),
        PlanNode::Projection { input, .. } => scanned_tables(*input),
        PlanNode::Aggregate { input, .. } => scanned_tables(*input),
        PlanNode::Sort { input, .. } => scanned_tables(*input),
        PlanNode::Limit { input, .. } => scanned_tables(*input),
        PlanNode::Join { left, right, .. } => scanned_tables(*left) + scanned_tables(*right),
        PlanNode::Other { inputs, .. } => scanned_tables_of(inputs@, inputs@.len() as int),
        PlanNode::MergeScan { .. } => Seq::empty(),
    }
}

/// The scanned tables of the first `n` plans of a list, in order.
pub open spec fn scanned_tables_of(ps: Seq<PlanNode>, n: int) -> Seq<Seq<char>>
    decreases ps, n,
{
    if n <= 0 || n > ps.len() {
        Seq::empty()
    } else {
        scanned_tables_of(ps, n - 1) + scanned_tables(ps[n - 1])
    }
}

/// The bare names of the tables a plan scans, in scan order.
pub open spec fn scanned_bare_tables(p: PlanNode) -> Seq<Seq<char>>
    decreases p,
{
    match p {
        PlanNode::TableScan { table, .. } => seq![table@],
        PlanNode::Filter { input, .. } => scanned_bare_tables(*input),
        PlanNode::Projection { input, .. } => scanned_bare_tables(*input),
        PlanNode::Aggregate { input, .. } => scanned_bare_tables(*input),
        PlanNode::Sort { input, .. } => scanned_bare_tables(*input),
        PlanNode::Limit { input, .. } => scanned_bare_tables(*input),
        PlanNode::Join { left, right, .. } => scanned_bare_tables(*left) + scanned_bare_tables(*right),
        PlanNode::Other { inputs, .. } => scanned_bare_tables_of(inputs@, inputs@.len() as int),
        PlanNode::MergeScan { .. } => Seq::empty(),
    }
}

/// The scanned bare table names of the first `n` plans of a list.
pub open spec fn scanned_bare_tables_of(ps: Seq<PlanNode>, n: int) -> Seq<Seq<char>>
    decreases ps, n,
{
    if n <= 0 || n > ps.len() {
        Seq::empty()
    } else {
        scanned_bare_tables_of(ps, n - 1) + scanned_bare_tables(ps[n - 1])
    }
}

/// Appends the full names of the scanned tables of a plan.
pub fn collect_scanned_tables(p: &PlanNode, out: &mut Vec<String>)
    ensures
        final(out)@.map_values(|s: String| s@) == old(out)@.map_values(|s: String| s@) + scanned_tables(*p),
    decreases p,
{
    match p {
        PlanNode::TableScan { table_name, .. } => {
            let ghost before = out@;
            out.push(table_name.clone());
            assert(out@.map_values(|s: String| s@) =~= before.map_values(|s: String| s@) + seq![table_name@]);
        },
        PlanNode::Filter { input, .. } => collect_scanned_tables(input, out),
        PlanNode::Projection { input, .. } => collect_scanned_tables(input, out),
        PlanNode::Aggregate { input, .. } => collect_scanned_tables(input, out),
        PlanNode::Sort { input, .. } => collect_scanned_tables(input, out),
        PlanNode::Limit { input, .. } => collect_scanned_tables(input, out),
        PlanNode::Join { left, right, .. } => {
            let ghost before = out@.map_values(|s: String| s@);
            collect_scanned_tables(left, out);
            collect_scanned_tables(right, out);
            assert(out@.map_values(|s: String| s@) =~= before + (scanned_tables(**left) + scanned_tables(**right)));
        },
        PlanNode::MergeScan { .. } => {
            assert(out@.map_values(|s: String| s@) =~= out@.map_values(|s: String| s@) + Seq::<Seq<char>>::empty());
        },
        PlanNode::Other { inputs, .. } => {
            let ghost before = out@.map_values(|s: String| s@);
            let mut i: usize = 0;
            while i < inputs.len()
                invariant
                    i <= inputs.len(),
                    *p is Other,
                    *inputs == p->inputs,
                    out@.map_values(|s: String| s@) == before + scanned_tables_of(inputs@, i as int),
                decreases inputs.len() - i,
            {
                proof {
                    assert(decreases_to!(*p => p->inputs));
                    assert(decreases_to!(p->inputs => p->inputs[i as int]));
                }
                collect_scanned_tables(&inputs[i], out);
                i = i + 1;
                assert(out@.map_values(|s: String| s@) =~= before + scanned_tables_of(inputs@, i as int));
            }
        },
    }
}

/// Appends the bare names of the scanned tables of a plan.
pub fn collect_scanned_bare_tables(p: &PlanNode, out: &mut Vec<String>)
    ensures
        final(out)@.map_values(|s: String| s@) == old(out)@.map_values(|s: String| s@) + scanned_bare_tables(*p),
    decreases p,
{
    match p {
        PlanNode::TableScan { table, .. } => {
            let ghost before = out@;
            out.push(table.clone());
            assert(out@.map_values(|s: String| s@) =~= before.map_values(|s: String| s@) + seq![table@]);
        },
        PlanNode::Filter { input, .. } => collect_scanned_bare_tables(input, out),
        PlanNode::Projection { input, .. } => collect_scanned_bare_tables(input, out),
        PlanNode::Aggregate { input, .. } => collect_scanned_bare_tables(input, out),
        PlanNode::Sort { input, .. } => collect_scanned_bare_tables(input, out),
        PlanNode::Limit { input, .. } => collect_scanned_bare_tables(input, out),
        PlanNode::Join { left, right, .. } => {
            let ghost before = out@.map_values(|s: String| s@);
            collect_scanned_bare_tables(left, out);
            collect_scanned_bare_tables(right, out);
            assert(out@.map_values(|s: String| s@) =~= before + (scanned_bare_tables(**left) + scanned_bare_tables(**right)));
        },
        PlanNode::MergeScan { .. } => {
            assert(out@.map_values(|s: String| s@) =~= out@.map_values(|s: String| s@) + Seq::<Seq<char>>::empty());
        },
        PlanNode::Other { inputs, .. } => {
            let ghost before = out@.map_values(|s: String| s@);
            let mut i: usize = 0;
            while i < inputs.len()
                invariant
                    i <= inputs.len(),
                    *p is Other,
                    *inputs == p->inputs,
                    out@.map_values(|s: String| s@) == before + scanned_bare_tables_of(inputs@, i as int),
                decreases inputs.len() - i,
            {
                proof {
                    assert(decreases_to!(*p => p->inputs));
                    assert(decreases_to!(p->inputs => p->inputs[i as int]));
                }
                collect_scanned_bare_tables(&inputs[i], out);
                i = i + 1;
                assert(out@.map_values(|s: String| s@) =~= before + scanned_bare_tables_of(inputs@, i as int));
            }
        },
    }
}

} // verus!
