//! Reading a table from another node over its HTTP query API: the filters
//! that can be sent along, and the SQL that asks for the rows.

use vstd::prelude::*;
use vstd::string::*;
use crate::decimal::{decimal_digits, u64_to_decimal};
use crate::expr_converter::{
    SqlExpr, SqlOperator, SqlScalar, i64_to_decimal, join_strings, join_texts, signed_decimal, string_views,
};

verus! {

/// The SQL text of an operator the HTTP scan sends along, if it is one.
pub open spec fn http_operator(op: SqlOperator) -> Option<Seq<char>> {
    match op {
        SqlOperator::Eq => Some("="@),
        SqlOperator::NotEq => Some("!="@),
        SqlOperator::Lt => Some("<"@),
        SqlOperator::LtEq => Some("<="@),
        SqlOperator::Gt => Some(">"@),
        SqlOperator::GtEq => Some(">="@),
        SqlOperator::And => Some("AND"@),
        SqlOperator::Or => Some("OR"@),
        _ => None,
    }
}

/// The SQL text of a literal the HTTP scan sends along: 64-bit integers and
/// floats, booleans, and (unescaped, quoted) strings of the plain type.
pub open spec fn http_literal(s: SqlScalar) -> Option<Seq<char>> {
    match s {
        SqlScalar::Int { value, bits } => if bits == 64 { Some(signed_decimal(value as int)) } else { None },
        SqlScalar::Float { text, bits } => if bits == 64 { Some(text@) } else { None },
        SqlScalar::Utf8 { value, large } => if !large { Some("'"@ + value@ + "'"@) } else { None },
        SqlScalar::Boolean(b) => Some(if b { "true"@ } else { "false"@ }),
        _ => None,
    }
}

/// A subexpression's text as an operand: a binary subexpression is put in
/// parentheses, so that the text keeps the expression's grouping whatever
/// the operators' precedence.
pub open spec fn operand_text(e: SqlExpr, t: Seq<char>) -> Seq<char> {
    if e is Binary {
        "("@ + t + ")"@
    } else {
        t
    }
}

/// The SQL text of a filter the HTTP scan can send along, if it can:
/// comparisons and conjunctions of columns and literals, each binary
/// operand in parentheses.
pub open spec fn http_filter_sql(e: SqlExpr) -> Option<Seq<char>>
    decreases e,
{
    match e {
        SqlExpr::Binary { left, op, right } => match http_filter_sql(*left) {
            None => None,
            Some(l) => match http_filter_sql(*right) {
                None => None,
                Some(r) => match http_operator(op) {
                    None => None,
                    Some(o) => Some(operand_text(*left, l) + " "@ + o + " "@ + operand_text(*right, r)),
                },
            },
        },
        SqlExpr::Column(name) => Some(name@),
        SqlExpr::Literal(s) => http_literal(s),
        _ => None,
    }
}

/// A filter's text as one of the conditions joined by `AND`: a disjunction
/// is put in parentheses, since `AND` binds tighter than `OR`.
pub open spec fn condition_text(e: SqlExpr, t: Seq<char>) -> Seq<char> {
    if e matches SqlExpr::Binary { op: SqlOperator::Or, .. } {
        "("@ + t + ")"@
    } else {
        t
    }
}

/// The texts of the filters that can be sent along, in order, each ready to
/// be joined by `AND`; the others are left out.
pub open spec fn http_filters_sql(filters: Seq<SqlExpr>) -> Seq<Seq<char>>
    decreases filters.len(),
{
    if filters.len() == 0 {
        Seq::empty()
    } else {
        let rest = http_filters_sql(filters.drop_last());
        match http_filter_sql(filters.last()) {
            Some(t) => rest.push(condition_text(filters.last(), t)),
            None => rest,
        }
    }
}

/// The query the HTTP scan sends: the columns (all when none are named),
/// the table, the filters joined by `AND`, and the limit.
pub open spec fn scan_sql(
    table: Seq<char>,
    columns: Option<Seq<Seq<char>>>,
    filters: Seq<Seq<char>>,
    limit: Option<usize>,
) -> Seq<char> {
    let cols = match columns {
        Some(c) => join_texts(c, ", "@),
        None => "*"@,
    };
    let base = "SELECT "@ + cols + " FROM "@ + table;
    let filtered = if filters.len() == 0 {
        base
    } else {
        base + " WHERE "@ + join_texts(filters, " AND "@)
    };
    match limit {
        Some(n) => filtered + " LIMIT "@ + decimal_digits(n as nat),
        None => filtered,
    }
}

/// Renders a filter for the HTTP scan, if it can be sent along.
pub fn http_expr_to_sql(e: &SqlExpr) -> (r: Option<String>)
    ensures
        match r {
            Some(s) => http_filter_sql(*e) == Some(s@),
            None => http_filter_sql(*e) is None,
        },
    decreases e,
{
    match e {
        SqlExpr::Binary { left, op, right } => {
            let l = match http_expr_to_sql(left) {
                Some(l) => l,
                None => return None,
            };
            let rt = match http_expr_to_sql(right) {
                Some(rt) => rt,
                None => return None,
            };
            let o = match op {
                SqlOperator::Eq => "=",
                SqlOperator::NotEq => "!=",
                SqlOperator::Lt => "<",
                SqlOperator::LtEq => "<=",
                SqlOperator::Gt => ">",
                SqlOperator::GtEq => ">=",
                SqlOperator::And => "AND",
                SqlOperator::Or => "OR",
                _ => return None,
            };
            let mut s = String::new();
            if left.is_binary() {
                s.append("(");
                s.append(l.as_str());
                s.append(")");
            } else {
                s.append(l.as_str());
            }
            s.append(" ");
            s.append(o);
            s.append(" ");
            if right.is_binary() {
                s.append("(");
                s.append(rt.as_str());
                s.append(")");
            } else {
                s.append(rt.as_str());
            }
            proof {
                reveal_strlit("(");
                reveal_strlit(")");
                reveal_strlit(" ");
            }
            Some(s)
        },
        SqlExpr::Column(name) => Some(name.clone()),
        SqlExpr::Literal(scalar) => match scalar {
            SqlScalar::Int { value, bits } => if *bits == 64 {
                Some(i64_to_decimal(*value))
            } else {
                None
            },
            SqlScalar::Float { text, bits } => if *bits == 64 {
                Some(text.clone())
            } else {
                None
            },
            SqlScalar::Utf8 { value, large } => if !*large {
                let mut s = String::from_str("'");
                s.append(value.as_str());
                s.append("'");
                Some(s)
            } else {
                None
            },
            SqlScalar::Boolean(b) => if *b {
                Some(String::from_str("true"))
            } else {
                Some(String::from_str("false"))
            },
            _ => None,
        },
        _ => None,
    }
}

/// The filters that can be sent along, rendered, in order.
pub fn convert_filters_to_sql(filters: &[SqlExpr]) -> (v: Vec<String>)
    ensures
        string_views(v@) == http_filters_sql(filters@),
{
    let mut v: Vec<String> = Vec::new();
    let mut i: usize = 0;
    while i < filters.len()
        invariant
            i <= filters@.len(),
            string_views(v@) == http_filters_sql(filters@.take(i as int)),
        decreases filters.len() - i,
    {
        proof {
            assert(filters@.take(i as int + 1).drop_last() =~= filters@.take(i as int));
            assert(filters@.take(i as int + 1).last() == filters@[i as int]);
        }
        match http_expr_to_sql(&filters[i]) {
            Some(t) => {
                let is_or = match &filters[i] {
                    SqlExpr::Binary { op: SqlOperator::Or, .. } => true,
                    _ => false,
                };
                if is_or {
                    let mut s = String::from_str("(");
                    s.append(t.as_str());
                    s.append(")");
                    proof {
                        reveal_strlit("(");
                        reveal_strlit(")");
                    }
                    v.push(s);
                } else {
                    v.push(t);
                }
            },
            None => {},
        }
        i = i + 1;
        assert(string_views(v@) =~= http_filters_sql(filters@.take(i as int)));
    }
    assert(filters@.take(i as int) =~= filters@);
    v
}

/// The query the HTTP scan sends for a table.
pub fn build_scan_sql(table: &str, columns: &Option<Vec<String>>, filters: &Vec<String>, limit: Option<usize>) -> (s:
    String)
    ensures
        s@ == scan_sql(
            table@,
            match *columns {
                Some(c) => Some(string_views(c@)),
                None => None,
            },
            string_views(filters@),
            limit,
        ),
{
    let mut s = String::from_str("SELECT ");
    match columns {
        Some(c) => {
            let cols = join_strings(c, ", ");
            s.append(cols.as_str());
        },
        None => {
            s.append("*");
        },
    }
    s.append(" FROM ");
    s.append(table);
    if filters.len() > 0 {
        s.append(" WHERE ");
        let joined = join_strings(filters, " AND ");
        s.append(joined.as_str());
    }
    match limit {
        Some(n) => {
            s.append(" LIMIT ");
            let digits = u64_to_decimal(n as u64);
            s.append(digits.as_str());
        },
        None => {},
    }
    s
}

} // verus!
