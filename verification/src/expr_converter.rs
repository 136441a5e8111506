//! Rendering filter expressions as SQL, so that a remote node can apply
//! them where the data is.
//!
//! The expressions are the library's own: the query engine's expressions
//! are turned into these at the edge, with the text of anything this
//! renderer does not know carried along for its error message.

use vstd::prelude::*;
use vstd::string::*;
use crate::decimal::{decimal_digits, push_char, str_to_chars, u64_to_decimal};

verus! {

/// A binary operator.
#[derive(Debug, Clone, PartialEq, Eq)]
pub enum SqlOperator {
    Eq,
    NotEq,
    Lt,
    LtEq,
    Gt,
    GtEq,
    And,
    Or,
    Plus,
    Minus,
    Multiply,
    Divide,
    Modulo,
    /// Any other operator, with its debug text
    Other(String),
}

/// A literal value.
#[derive(Debug, Clone, PartialEq, Eq)]
pub enum SqlScalar {
    /// A signed integer, with its width in bits
    Int { value: i64, bits: u32 },
    /// An unsigned integer, with its width in bits
    UInt { value: u64, bits: u32 },
    /// A floating-point number, with its text as Rust prints it and its width in bits
    Float { text: String, bits: u32 },
    Boolean(bool),
    /// A string, of the large string type or not
    Utf8 { value: String, large: bool },
    /// Nanoseconds since the epoch
    TimestampNanosecond(i64),
    /// Microseconds since the epoch
    TimestampMicrosecond(i64),
    /// Milliseconds since the epoch
    TimestampMillisecond(i64),
    Null,
    /// Any other value (a typed null among them), with its debug text
    Other(String),
}

/// A filter expression.
#[derive(Debug)]
pub enum SqlExpr {
    Binary { left: Box<SqlExpr>, op: SqlOperator, right: Box<SqlExpr> },
    Column(String),
    Literal(SqlScalar),
    IsNull(Box<SqlExpr>),
    IsNotNull(Box<SqlExpr>),
    Not(Box<SqlExpr>),
    Between { expr: Box<SqlExpr>, negated: bool, low: Box<SqlExpr>, high: Box<SqlExpr> },
    Like { negated: bool, expr: Box<SqlExpr>, pattern: Box<SqlExpr> },
    InList { expr: Box<SqlExpr>, list: Vec<SqlExpr>, negated: bool },
    /// Any other expression, with its debug text
    Other(String),
}

impl SqlExpr {
    /// Whether the expression is a binary operation.
    pub fn is_binary(&self) -> (b: bool)
        ensures
            b == (*self is Binary),
    {
        match self {
            SqlExpr::Binary { .. } => true,
            _ => false,
        }
    }
}

/// Converter for filter expressions to SQL
#[derive(Debug, Copy, Clone)]
pub struct ExprToSqlConverter;

/// The SQL text of an operator, or the error for one it does not know.
pub open spec fn operator_sql(op: SqlOperator) -> Result<Seq<char>, Seq<char>> {
    match op {
        SqlOperator::Eq => Ok("="@),
        SqlOperator::NotEq => Ok("!="@),
        SqlOperator::Lt => Ok("<"@),
        SqlOperator::LtEq => Ok("<="@),
        SqlOperator::Gt => Ok(">"@),
        SqlOperator::GtEq => Ok(">="@),
        SqlOperator::And => Ok("AND"@),
        SqlOperator::Or => Ok("OR"@),
        SqlOperator::Plus => Ok("+"@),
        SqlOperator::Minus => Ok("-"@),
        SqlOperator::Multiply => Ok("*"@),
        SqlOperator::Divide => Ok("/"@),
        SqlOperator::Modulo => Ok("%"@),
        SqlOperator::Other(text) => Err("Unsupported operator: "@ + text@),
    }
}

/// Operators render to their SQL tokens, each its own: every known
/// operator renders, no two of them share a text (so a rendered filter keeps
/// which operator it applies), and the connectives are the SQL keywords
/// `AND` and `OR`.
pub proof fn law_operator_tokens_distinct(a: SqlOperator, b: SqlOperator)
    ensures
        !(a is Other) <==> operator_sql(a) is Ok,
        operator_sql(a) is Ok && operator_sql(a) == operator_sql(b) ==> a == b,
        a is And ==> operator_sql(a) == Ok::<Seq<char>, Seq<char>>(seq!['A', 'N', 'D']),
        a is Or ==> operator_sql(a) == Ok::<Seq<char>, Seq<char>>(seq!['O', 'R']),
{
    reveal_strlit("=");
    assert("="@ =~= seq!['=']);
    reveal_strlit("!=");
    assert("!="@ =~= seq!['!', '=']);
    reveal_strlit("<");
    assert("<"@ =~= seq!['<']);
    reveal_strlit("<=");
    assert("<="@ =~= seq!['<', '=']);
    reveal_strlit(">");
    assert(">"@ =~= seq!['>']);
    reveal_strlit(">=");
    assert(">="@ =~= seq!['>', '=']);
    reveal_strlit("AND");
    assert("AND"@ =~= seq!['A', 'N', 'D']);
    reveal_strlit("OR");
    assert("OR"@ =~= seq!['O', 'R']);
    reveal_strlit("+");
    assert("+"@ =~= seq!['+']);
    reveal_strlit("-");
    assert("-"@ =~= seq!['-']);
    reveal_strlit("*");
    assert("*"@ =~= seq!['*']);
    reveal_strlit("/");
    assert("/"@ =~= seq!['/']);
    reveal_strlit("%");
    assert("%"@ =~= seq!['%']);
    if operator_sql(a) is Ok && operator_sql(a) == operator_sql(b) {
        let ta = operator_sql(a)->Ok_0;
        assert(ta.len() == operator_sql(b)->Ok_0.len());
        assert(ta[0] == operator_sql(b)->Ok_0[0]);
        if ta.len() > 1 {
            assert(ta[1] == operator_sql(b)->Ok_0[1]);
        }
    }
}

/// The decimal text of a signed integer.
pub open spec fn signed_decimal(v: int) -> Seq<char> {
    if v < 0 {
        "-"@ + decimal_digits((-v) as nat)
    } else {
        decimal_digits(v as nat)
    }
}

/// Integer division rounding toward zero, as Rust divides.
pub open spec fn trunc_div(v: int, d: int) -> int {
    if v >= 0 {
        v / d
    } else {
        -((-v) / d)
    }
}

/// The remainder that goes with `trunc_div`: it takes the sign of `v`.
pub open spec fn trunc_rem(v: int, d: int) -> int {
    if v >= 0 {
        v % d
    } else {
        -((-v) % d)
    }
}

/// A string with each single quote doubled.
pub open spec fn escape_quotes(s: Seq<char>) -> Seq<char>
    decreases s.len(),
{
    if s.len() == 0 {
        seq![]
    } else {
        escape_quotes(s.drop_last()) + (if s.last() == '\'' {
            seq!['\'', '\'']
        } else {
            seq![s.last()]
        })
    }
}

/// What `chrono` renders, as RFC 3339, for the instant `secs` seconds and
/// `nanos` nanoseconds after the epoch, or `None` where it has no such instant.
pub uninterp spec fn spec_timestamp_rfc3339(secs: i64, nanos: u32) -> Option<Seq<char>>;

/// The units a timestamp literal counts in.
#[derive(Debug, Clone, Copy, PartialEq, Eq, Structural)]
pub enum TimestampUnit {
    Nanosecond,
    Microsecond,
    Millisecond,
}

/// How many units make a second.
pub open spec fn units_per_second(u: TimestampUnit) -> int {
    match u {
        TimestampUnit::Nanosecond => 1_000_000_000,
        TimestampUnit::Microsecond => 1_000_000,
        TimestampUnit::Millisecond => 1000,
    }
}

/// How many nanoseconds make a unit.
pub open spec fn nanos_per_unit(u: TimestampUnit) -> int {
    match u {
        TimestampUnit::Nanosecond => 1,
        TimestampUnit::Microsecond => 1000,
        TimestampUnit::Millisecond => 1_000_000,
    }
}

/// Whether rendering a timestamp stays within `u32` arithmetic: the
/// fraction of a second is scaled to nanoseconds in a `u32`, which
/// overflows for a negative fraction of microseconds or milliseconds.
pub open spec fn timestamp_renders(v: i64, u: TimestampUnit) -> bool {
    u == TimestampUnit::Nanosecond || trunc_rem(v as int, units_per_second(u)) >= 0
}

/// The SQL text of a timestamp: the quoted RFC 3339 form of its instant,
/// or its plain number where there is no such instant.
pub open spec fn timestamp_sql(v: i64, u: TimestampUnit) -> Seq<char> {
    let secs = trunc_div(v as int, units_per_second(u));
    let frac = trunc_rem(v as int, units_per_second(u));
    let nanos = (frac * nanos_per_unit(u)) as u32;
    match spec_timestamp_rfc3339(secs as i64, nanos) {
        Some(t) => "'"@ + t + "'"@,
        None => signed_decimal(v as int),
    }
}

/// The SQL text of a literal, or the error for one it does not know.
pub open spec fn scalar_sql(s: SqlScalar) -> Result<Seq<char>, Seq<char>> {
    match s {
        SqlScalar::Int { value, .. } => Ok(signed_decimal(value as int)),
        SqlScalar::UInt { value, .. } => Ok(decimal_digits(value as nat)),
        SqlScalar::Float { text, .. } => Ok(text@),
        SqlScalar::Boolean(b) => Ok(if b { "true"@ } else { "false"@ }),
        SqlScalar::Utf8 { value, .. } => Ok("'"@ + escape_quotes(value@) + "'"@),
        SqlScalar::TimestampNanosecond(v) => Ok(timestamp_sql(v, TimestampUnit::Nanosecond)),
        SqlScalar::TimestampMicrosecond(v) => Ok(timestamp_sql(v, TimestampUnit::Microsecond)),
        SqlScalar::TimestampMillisecond(v) => Ok(timestamp_sql(v, TimestampUnit::Millisecond)),
        SqlScalar::Null => Ok("NULL"@),
        SqlScalar::Other(text) => Err("Unsupported scalar type: "@ + text@),
    }
}

/// Whether rendering a literal stays within `u32` arithmetic.
pub open spec fn scalar_renders(s: SqlScalar) -> bool {
    match s {
        SqlScalar::TimestampMicrosecond(v) => timestamp_renders(v, TimestampUnit::Microsecond),
        SqlScalar::TimestampMillisecond(v) => timestamp_renders(v, TimestampUnit::Millisecond),
        _ => true,
    }
}

/// Texts joined with a separator between each two.
pub open spec fn join_texts(items: Seq<Seq<char>>, sep: Seq<char>) -> Seq<char>
    decreases items.len(),
{
    if items.len() == 0 {
        seq![]
    } else if items.len() == 1 {
        items[0]
    } else {
        join_texts(items.drop_last(), sep) + sep + items.last()
    }
}

/// The SQL text of an expression, or the first error met on the way, in
/// the order the renderer visits the parts.
pub open spec fn sql_of(e: SqlExpr) -> Result<Seq<char>, Seq<char>>
    decreases e, 1nat,
{
    match e {
        SqlExpr::Binary { left, op, right } => match sql_of(*left) {
            Err(m) => Err(m),
            Ok(l) => match sql_of(*right) {
                Err(m) => Err(m),
                Ok(r) => match operator_sql(op) {
                    Err(m) => Err(m),
                    Ok(o) => Ok("("@ + l + " "@ + o + " "@ + r + ")"@),
                },
            },
        },
        SqlExpr::Column(name) => Ok(name@),
        SqlExpr::Literal(s) => scalar_sql(s),
        SqlExpr::IsNull(x) => match sql_of(*x) {
            Err(m) => Err(m),
            Ok(t) => Ok(t + " IS NULL"@),
        },
        SqlExpr::IsNotNull(x) => match sql_of(*x) {
            Err(m) => Err(m),
            Ok(t) => Ok(t + " IS NOT NULL"@),
        },
        SqlExpr::Not(x) => match sql_of(*x) {
            Err(m) => Err(m),
            Ok(t) => Ok("NOT ("@ + t + ")"@),
        },
        SqlExpr::Between { expr, negated, low, high } => match sql_of(*expr) {
            Err(m) => Err(m),
            Ok(x) => match sql_of(*low) {
                Err(m) => Err(m),
                Ok(l) => match sql_of(*high) {
                    Err(m) => Err(m),
                    Ok(h) => Ok(x + (if negated { " NOT BETWEEN "@ } else { " BETWEEN "@ }) + l + " AND "@ + h),
                },
            },
        },
        SqlExpr::Like { negated, expr, pattern } => match sql_of(*expr) {
            Err(m) => Err(m),
            Ok(x) => match sql_of(*pattern) {
                Err(m) => Err(m),
                Ok(p) => Ok(x + (if negated { " NOT LIKE "@ } else { " LIKE "@ }) + p),
            },
        },
        SqlExpr::InList { expr, list, negated } => match sql_of(*expr) {
            Err(m) => Err(m),
            Ok(x) => match sql_list(list@) {
                Err(m) => Err(m),
                Ok(items) => Ok(x + (if negated { " NOT IN ("@ } else { " IN ("@ }) + join_texts(items, ", "@)
                    + ")"@),
            },
        },
        SqlExpr::Other(text) => Err("Unsupported expression type: "@ + text@),
    }
}

/// The SQL texts of a list of expressions, or the first error among them.
pub open spec fn sql_list(list: Seq<SqlExpr>) -> Result<Seq<Seq<char>>, Seq<char>>
    decreases list, 0nat,
{
    if list.len() == 0 {
        Ok(seq![])
    } else {
        match sql_of(list[0]) {
            Err(m) => Err(m),
            Ok(first) => match sql_list(list.subrange(1, list.len() as int)) {
                Err(m) => Err(m),
                Ok(rest) => Ok(seq![first] + rest),
            },
        }
    }
}

/// Whether rendering an expression stays within `u32` arithmetic, on the
/// parts the renderer reaches before it stops at an error.
pub open spec fn renders(e: SqlExpr) -> bool
    decreases e, 1nat,
{
    match e {
        SqlExpr::Binary { left, op, right } => renders(*left) && (sql_of(*left) is Ok ==> renders(*right)),
        SqlExpr::Literal(s) => scalar_renders(s),
        SqlExpr::IsNull(x) => renders(*x),
        SqlExpr::IsNotNull(x) => renders(*x),
        SqlExpr::Not(x) => renders(*x),
        SqlExpr::Between { expr, negated, low, high } => renders(*expr) && (sql_of(*expr) is Ok ==> renders(*low)
            && (sql_of(*low) is Ok ==> renders(*high))),
        SqlExpr::Like { negated, expr, pattern } => renders(*expr) && (sql_of(*expr) is Ok ==> renders(*pattern)),
        SqlExpr::InList { expr, list, negated } => renders(*expr) && (sql_of(*expr) is Ok ==> list_renders(list@)),
        _ => true,
    }
}

/// Whether rendering a list stays within `u32` arithmetic, up to its first error.
pub open spec fn list_renders(list: Seq<SqlExpr>) -> bool
    decreases list, 0nat,
{
    list.len() == 0 || (renders(list[0]) && (sql_of(list[0]) is Ok ==> list_renders(
        list.subrange(1, list.len() as int),
    )))
}


/// Calls `chrono::DateTime::from_timestamp` and renders the instant it gives
/// with `DateTime::to_rfc3339`. Trusted: the text is named, not stated; what
/// chrono's source shows is stated, that a nanosecond count of two billion
/// or more has no instant.
#[verifier::external_body]
fn timestamp_rfc3339(secs: i64, nanos: u32) -> (r: Option<String>)
    ensures
        match r {
            Some(t) => spec_timestamp_rfc3339(secs, nanos) == Some(t@),
            None => spec_timestamp_rfc3339(secs, nanos) is None,
        },
        nanos >= 2_000_000_000 ==> r is None,
{
    match chrono::DateTime::from_timestamp(secs, nanos) {
        Some(d) => Some(d.to_rfc3339()),
        None => None,
    }
}

/// The views of a sequence of strings.
pub open spec fn string_views(v: Seq<String>) -> Seq<Seq<char>> {
    v.map_values(|s: String| s@)
}

/// A rendering result, by the views of its texts.
pub open spec fn text_result(r: Result<String, String>) -> Result<Seq<char>, Seq<char>> {
    match r {
        Ok(s) => Ok(s@),
        Err(m) => Err(m@),
    }
}

/// Renders a signed integer in decimal.
pub fn i64_to_decimal(v: i64) -> (s: String)
    ensures
        s@ == signed_decimal(v as int),
{
    if v < 0 {
        let magnitude: u64 = (-(v as i128)) as u64;
        let mut s = String::from_str("-");
        let digits = u64_to_decimal(magnitude);
        s.append(digits.as_str());
        proof {
            reveal_strlit("-");
        }
        assert(s@ =~= signed_decimal(v as int));
        s
    } else {
        u64_to_decimal(v as u64)
    }
}

/// Doubles each single quote of a text.
fn escape_single_quotes(text: &str) -> (s: String)
    ensures
        s@ == escape_quotes(text@),
{
    let chars = str_to_chars(text);
    let mut s = String::new();
    let mut i: usize = 0;
    while i < chars.len()
        invariant
            i <= chars@.len(),
            chars@ == text@,
            s@ == escape_quotes(chars@.take(i as int)),
        decreases chars.len() - i,
    {
        let c = chars[i];
        push_char(&mut s, c);
        if c == '\'' {
            push_char(&mut s, '\'');
        }
        proof {
            assert(chars@.take(i as int + 1).drop_last() =~= chars@.take(i as int));
        }
        i = i + 1;
        assert(s@ =~= escape_quotes(chars@.take(i as int)));
    }
    assert(chars@.take(i as int) =~= chars@);
    s
}

/// Renders a timestamp literal.
fn timestamp_to_sql(v: i64, unit: TimestampUnit) -> (s: String)
    requires
        timestamp_renders(v, unit),
    ensures
        s@ == timestamp_sql(v, unit),
{
    let per_second: u64 = match unit {
        TimestampUnit::Nanosecond => 1_000_000_000,
        TimestampUnit::Microsecond => 1_000_000,
        TimestampUnit::Millisecond => 1000,
    };
    let scale: u32 = match unit {
        TimestampUnit::Nanosecond => 1,
        TimestampUnit::Microsecond => 1000,
        TimestampUnit::Millisecond => 1_000_000,
    };
    let magnitude: u64 = if v < 0 { (-(v as i128)) as u64 } else { v as u64 };
    let whole: u64 = magnitude / per_second;
    let part: u64 = magnitude % per_second;
    assert(whole <= i64::MAX) by (nonlinear_arith)
        requires
            whole == magnitude / per_second,
            magnitude <= i64::MAX + 1,
            per_second >= 1000,
    ;
    let secs: i64 = if v < 0 { -(whole as i64) } else { whole as i64 };
    let frac: i64 = if v < 0 { -(part as i64) } else { part as i64 };
    assert(secs == trunc_div(v as int, units_per_second(unit)));
    assert(frac == trunc_rem(v as int, units_per_second(unit)));
    let nanos: u32 = if scale == 1 {
        #[verifier::truncate] (frac as u32)
    } else {
        assert(frac >= 0);
        assert(frac * scale < 1_000_000_000) by (nonlinear_arith)
            requires
                0 <= frac < per_second,
                per_second * scale == 1_000_000_000,
        ;
        (frac as u32) * scale
    };
    assert(nanos == ((frac * nanos_per_unit(unit)) as u32));
    match timestamp_rfc3339(secs, nanos) {
        Some(t) => {
            let mut s = String::from_str("'");
            s.append(t.as_str());
            s.append("'");
            s
        },
        None => i64_to_decimal(v),
    }
}

/// Texts joined with a separator between each two.
pub fn join_strings(items: &Vec<String>, sep: &str) -> (s: String)
    ensures
        s@ == join_texts(string_views(items@), sep@),
{
    let mut s = String::new();
    let mut i: usize = 0;
    while i < items.len()
        invariant
            i <= items@.len(),
            s@ == join_texts(string_views(items@).take(i as int), sep@),
        decreases items.len() - i,
    {
        if i > 0 {
            s.append(sep);
        }
        s.append(items[i].as_str());
        proof {
            let views = string_views(items@);
            assert(views.take(i as int + 1).drop_last() =~= views.take(i as int));
            assert(views.take(i as int + 1).last() == items@[i as int]@);
            if i == 0 {
                assert(views.take(0).len() == 0);
            }
        }
        i = i + 1;
        assert(s@ =~= join_texts(string_views(items@).take(i as int), sep@));
    }
    assert(string_views(items@).take(i as int) =~= string_views(items@));
    s
}

/// Once the first `i` expressions of a list render to `items`, the list
/// renders as its remainder does, with `items` in front.
pub proof fn lemma_sql_list_prefix(list: Seq<SqlExpr>, i: int, items: Seq<Seq<char>>)
    requires
        0 <= i <= list.len(),
        items.len() == i,
        forall|j: int| 0 <= j < i ==> sql_of(#[trigger] list[j]) == Ok::<Seq<char>, Seq<char>>(items[j]),
    ensures
        sql_list(list) == (match sql_list(list.subrange(i, list.len() as int)) {
            Ok(rest) => Ok(items + rest),
            Err(m) => Err(m),
        }),
        list_renders(list) ==> list_renders(list.subrange(i, list.len() as int)),
    decreases i,
{
    if i == 0 {
        assert(list.subrange(0, list.len() as int) =~= list);
        assert(items =~= seq![]);
        match sql_list(list) {
            Ok(rest) => { assert(items + rest =~= rest); },
            Err(m) => {},
        }
    } else {
        let tail = list.subrange(1, list.len() as int);
        assert forall|j: int| 0 <= j < i - 1 implies sql_of(#[trigger] tail[j]) == Ok::<Seq<char>, Seq<char>>(
            items.drop_first()[j],
        ) by {
            assert(tail[j] == list[j + 1]);
        }
        lemma_sql_list_prefix(tail, i - 1, items.drop_first());
        assert(tail.subrange(i - 1, tail.len() as int) =~= list.subrange(i, list.len() as int));
        assert(sql_of(list[0]) == Ok::<Seq<char>, Seq<char>>(items[0]));
        match sql_list(list.subrange(i, list.len() as int)) {
            Ok(rest) => {
                assert(seq![items[0]] + (items.drop_first() + rest) =~= items + rest);
            },
            Err(m) => {},
        }
    }
}

impl ExprToSqlConverter {
    /// Renders an operator.
    fn operator_to_sql(op: &SqlOperator) -> (r: Result<String, String>)
        ensures
            text_result(r) == operator_sql(*op),
    {
        match op {
            SqlOperator::Eq => Ok(String::from_str("=")),
            SqlOperator::NotEq => Ok(String::from_str("!=")),
            SqlOperator::Lt => Ok(String::from_str("<")),
            SqlOperator::LtEq => Ok(String::from_str("<=")),
            SqlOperator::Gt => Ok(String::from_str(">")),
            SqlOperator::GtEq => Ok(String::from_str(">=")),
            SqlOperator::And => Ok(String::from_str("AND")),
            SqlOperator::Or => Ok(String::from_str("OR")),
            SqlOperator::Plus => Ok(String::from_str("+")),
            SqlOperator::Minus => Ok(String::from_str("-")),
            SqlOperator::Multiply => Ok(String::from_str("*")),
            SqlOperator::Divide => Ok(String::from_str("/")),
            SqlOperator::Modulo => Ok(String::from_str("%")),
            SqlOperator::Other(text) => {
                let mut m = String::from_str("Unsupported operator: ");
                m.append(text.as_str());
                Err(m)
            },
        }
    }

    /// Renders a literal.
    fn scalar_to_sql(scalar: &SqlScalar) -> (r: Result<String, String>)
        requires
            scalar_renders(*scalar),
        ensures
            text_result(r) == scalar_sql(*scalar),
    {
        match scalar {
            SqlScalar::Int { value, .. } => Ok(i64_to_decimal(*value)),
            SqlScalar::UInt { value, .. } => Ok(u64_to_decimal(*value)),
            SqlScalar::Float { text, .. } => Ok(text.clone()),
            SqlScalar::Boolean(b) => if *b {
                Ok(String::from_str("true"))
            } else {
                Ok(String::from_str("false"))
            },
            SqlScalar::Utf8 { value, .. } => {
                let mut s = String::from_str("'");
                let escaped = escape_single_quotes(value.as_str());
                s.append(escaped.as_str());
                s.append("'");
                Ok(s)
            },
            SqlScalar::TimestampNanosecond(v) => Ok(timestamp_to_sql(*v, TimestampUnit::Nanosecond)),
            SqlScalar::TimestampMicrosecond(v) => Ok(timestamp_to_sql(*v, TimestampUnit::Microsecond)),
            SqlScalar::TimestampMillisecond(v) => Ok(timestamp_to_sql(*v, TimestampUnit::Millisecond)),
            SqlScalar::Null => Ok(String::from_str("NULL")),
            SqlScalar::Other(text) => {
                let mut m = String::from_str("Unsupported scalar type: ");
                m.append(text.as_str());
                Err(m)
            },
        }
    }

    /// Renders a filter expression as SQL.
    #[verifier::loop_isolation(false)]
    pub fn expr_to_sql(e: &SqlExpr) -> (r: Result<String, String>)
        requires
            renders(*e),
        ensures
            text_result(r) == sql_of(*e),
        decreases e,
    {
        match e {
            SqlExpr::Binary { left, op, right } => {
                let l = match Self::expr_to_sql(left) {
                    Ok(l) => l,
                    Err(m) => return Err(m),
                };
                let rt = match Self::expr_to_sql(right) {
                    Ok(rt) => rt,
                    Err(m) => return Err(m),
                };
                let o = match Self::operator_to_sql(op) {
                    Ok(o) => o,
                    Err(m) => return Err(m),
                };
                let mut s = String::from_str("(");
                s.append(l.as_str());
                s.append(" ");
                s.append(o.as_str());
                s.append(" ");
                s.append(rt.as_str());
                s.append(")");
                Ok(s)
            },
            SqlExpr::Column(name) => Ok(name.clone()),
            SqlExpr::Literal(scalar) => Self::scalar_to_sql(scalar),
            SqlExpr::IsNull(x) => match Self::expr_to_sql(x) {
                Ok(t) => {
                    let mut s = t;
                    s.append(" IS NULL");
                    Ok(s)
                },
                Err(m) => Err(m),
            },
            SqlExpr::IsNotNull(x) => match Self::expr_to_sql(x) {
                Ok(t) => {
                    let mut s = t;
                    s.append(" IS NOT NULL");
                    Ok(s)
                },
                Err(m) => Err(m),
            },
            SqlExpr::Not(x) => match Self::expr_to_sql(x) {
                Ok(t) => {
                    let mut s = String::from_str("NOT (");
                    s.append(t.as_str());
                    s.append(")");
                    Ok(s)
                },
                Err(m) => Err(m),
            },
            SqlExpr::Between { expr, negated, low, high } => {
                let x = match Self::expr_to_sql(expr) {
                    Ok(x) => x,
                    Err(m) => return Err(m),
                };
                let l = match Self::expr_to_sql(low) {
                    Ok(l) => l,
                    Err(m) => return Err(m),
                };
                let h = match Self::expr_to_sql(high) {
                    Ok(h) => h,
                    Err(m) => return Err(m),
                };
                let mut s = x;
                if *negated {
                    s.append(" NOT BETWEEN ");
                } else {
                    s.append(" BETWEEN ");
                }
                s.append(l.as_str());
                s.append(" AND ");
                s.append(h.as_str());
                Ok(s)
            },
            SqlExpr::Like { negated, expr, pattern } => {
                let x = match Self::expr_to_sql(expr) {
                    Ok(x) => x,
                    Err(m) => return Err(m),
                };
                let p = match Self::expr_to_sql(pattern) {
                    Ok(p) => p,
                    Err(m) => return Err(m),
                };
                let mut s = x;
                if *negated {
                    s.append(" NOT LIKE ");
                } else {
                    s.append(" LIKE ");
                }
                s.append(p.as_str());
                Ok(s)
            },
            SqlExpr::InList { expr, list, negated } => {
                let x = match Self::expr_to_sql(expr) {
                    Ok(x) => x,
                    Err(m) => return Err(m),
                };
                let mut items: Vec<String> = Vec::new();
                let mut i: usize = 0;
                while i < list.len()
                    invariant
                        i <= list@.len(),
                        items@.len() == i,
                        list_renders(list@),
                        forall|j: int| 0 <= j < i ==> sql_of(#[trigger] list@[j]) == Ok::<Seq<char>, Seq<char>>(
                            items@[j]@,
                        ),
                    decreases list.len() - i,
                {
                    proof {
                        lemma_sql_list_prefix(list@, i as int, string_views(items@));
                        assert(list@.subrange(i as int, list@.len() as int)[0] == list@[i as int]);
                        assert(decreases_to!(*e => *list));
                        assert(decreases_to!(*list => list@));
                        assert(decreases_to!(list@ => list@[i as int]));
                    }
                    match Self::expr_to_sql(&list[i]) {
                        Ok(t) => items.push(t),
                        Err(m) => {
                            proof {
                                lemma_sql_list_prefix(list@, i as int, string_views(items@));
                                assert(list@.subrange(i as int, list@.len() as int)[0] == list@[i as int]);
                            }
                            return Err(m);
                        },
                    }
                    i = i + 1;
                }
                proof {
                    lemma_sql_list_prefix(list@, i as int, string_views(items@));
                    assert(string_views(items@) + seq![] =~= string_views(items@));
                }
                let joined = join_strings(&items, ", ");
                let mut s = x;
                if *negated {
                    s.append(" NOT IN (");
                } else {
                    s.append(" IN (");
                }
                s.append(joined.as_str());
                s.append(")");
                Ok(s)
            },
            SqlExpr::Other(text) => {
                let mut m = String::from_str("Unsupported expression type: ");
                m.append(text.as_str());
                Err(m)
            },
        }
    }

    /// Renders a list of filters as a WHERE clause: the filters joined by
    /// `AND`, or the first error among them.
    pub fn filters_to_where_clause(filters: &[SqlExpr]) -> (r: Result<String, String>)
        requires
            list_renders(filters@),
        ensures
            text_result(r) == (match sql_list(filters@) {
                Ok(items) => Ok(join_texts(items, " AND "@)),
                Err(m) => Err(m),
            }),
    {
        if filters.len() == 0 {
            return Ok(String::new());
        }
        let mut items: Vec<String> = Vec::new();
        let mut i: usize = 0;
        while i < filters.len()
            invariant
                i <= filters@.len(),
                items@.len() == i,
                list_renders(filters@),
                forall|j: int| 0 <= j < i ==> sql_of(#[trigger] filters@[j]) == Ok::<Seq<char>, Seq<char>>(
                    items@[j]@,
                ),
            decreases filters.len() - i,
        {
            proof {
                lemma_sql_list_prefix(filters@, i as int, string_views(items@));
                assert(filters@.subrange(i as int, filters@.len() as int)[0] == filters@[i as int]);
            }
            match Self::expr_to_sql(&filters[i]) {
                Ok(t) => items.push(t),
                Err(m) => {
                    return Err(m);
                },
            }
            i = i + 1;
        }
        proof {
            lemma_sql_list_prefix(filters@, i as int, string_views(items@));
            assert(string_views(items@) + seq![] =~= string_views(items@));
        }
        Ok(join_strings(&items, " AND "))
    }
}

} // verus!
