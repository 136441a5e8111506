//! The byte framing of serialized query plans.
//!
//! A logical plan travels as `DFPL`, a version byte, and its JSON text
//! prefixed by its length (four bytes, little-endian). A physical plan
//! travels as `DFPP`, a version byte, then its text and its schema's JSON,
//! each prefixed by its length. The JSON itself is built and read outside
//! this crate; what stands here is the frame: how it is written and how it
//! is checked on the way back.

use vstd::prelude::*;
use vstd::bytes::*;
use vstd::utf8::*;
use vstd::string::*;
use crate::decimal::{decimal_digits, u64_to_decimal};
use crate::error::DistributedError;
use crate::plan::{copy_projection, projection_view, PlanNode};

verus! {

broadcast use vstd::utf8::group_utf8_lib;

/// The magic bytes of a logical plan frame: `DFPL`.
pub open spec fn logical_magic() -> Seq<u8> {
    seq![68u8, 70u8, 80u8, 76u8]
}

/// The magic bytes of a physical plan frame: `DFPP`.
pub open spec fn physical_magic() -> Seq<u8> {
    seq![68u8, 70u8, 80u8, 80u8]
}

/// The version of the frame format that is written and accepted.
pub const PLAN_FORMAT_VERSION: u8 = 1;

/// A payload preceded by its length, as four little-endian bytes (the
/// length is taken modulo 2^32, as a `u32` cast takes it).
pub open spec fn length_prefixed(payload: Seq<u8>) -> Seq<u8> {
    spec_u32_to_le_bytes(payload.len() as u32) + payload
}

/// The frame of a logical plan whose JSON text has the given bytes.
pub open spec fn logical_plan_frame(json: Seq<u8>) -> Seq<u8> {
    logical_magic() + seq![PLAN_FORMAT_VERSION] + length_prefixed(json)
}

/// The frame of a physical plan: its text, then its schema's JSON.
pub open spec fn physical_plan_frame(plan: Seq<u8>, schema: Seq<u8>) -> Seq<u8> {
    physical_magic() + seq![PLAN_FORMAT_VERSION] + length_prefixed(plan) + length_prefixed(schema)
}

/// Why a frame was refused.
#[derive(Debug, Clone, Copy, PartialEq, Eq, Structural)]
pub enum PlanFrameError {
    /// Fewer than nine bytes
    TooShort,
    /// The first four bytes are not the expected magic
    WrongMagic,
    /// The version byte is not the supported one
    UnsupportedVersion(u8),
    /// The payload is shorter than its length prefix says
    Truncated,
}

/// What reading a logical plan frame gives: its payload, or why it was refused.
pub open spec fn logical_frame_payload(bytes: Seq<u8>) -> Result<Seq<u8>, PlanFrameError> {
    if bytes.len() < 9 {
        Err(PlanFrameError::TooShort)
    } else if bytes.subrange(0, 4) != logical_magic() {
        Err(PlanFrameError::WrongMagic)
    } else if bytes[4] != PLAN_FORMAT_VERSION {
        Err(PlanFrameError::UnsupportedVersion(bytes[4]))
    } else {
        let len = spec_u32_from_le_bytes(bytes.subrange(5, 9));
        if bytes.len() < 9 + len {
            Err(PlanFrameError::Truncated)
        } else {
            Ok(bytes.subrange(9, 9 + len))
        }
    }
}

/// The message a refused logical plan frame is reported with.
pub open spec fn frame_error_message(e: PlanFrameError) -> Seq<char> {
    match e {
        PlanFrameError::TooShort => "Invalid plan data: too short"@,
        PlanFrameError::WrongMagic => "Invalid plan format: wrong magic bytes"@,
        PlanFrameError::UnsupportedVersion(v) => "Unsupported plan version: "@ + decimal_digits(v as nat),
        PlanFrameError::Truncated => "Invalid plan data: truncated"@,
    }
}

/// Appends a payload preceded by its length.
pub(crate) fn push_length_prefixed(buffer: &mut Vec<u8>, payload: &[u8])
    ensures
        final(buffer)@ == old(buffer)@ + length_prefixed(payload@),
{
    let len: u32 = #[verifier::truncate] (payload.len() as u32);
    let prefix = u32_to_le_bytes(len);
    buffer.extend_from_slice(prefix.as_slice());
    buffer.extend_from_slice(payload);
    assert(final(buffer)@ =~= old(buffer)@ + length_prefixed(payload@));
}

/// Frames the JSON text of a logical plan.
pub fn frame_logical_plan(plan_json: &str) -> (b: Vec<u8>)
    ensures
        b@ == logical_plan_frame(plan_json.spec_bytes()),
{
    let mut buffer: Vec<u8> = Vec::new();
    buffer.push(68u8);
    buffer.push(70u8);
    buffer.push(80u8);
    buffer.push(76u8);
    buffer.push(PLAN_FORMAT_VERSION);
    let json = plan_json.as_bytes();
    push_length_prefixed(&mut buffer, json);
    assert(buffer@ =~= logical_plan_frame(plan_json.spec_bytes()));
    buffer
}

/// Frames a physical plan: its text, then its schema's JSON.
pub fn frame_physical_plan(plan_text: &str, schema_json: &str) -> (b: Vec<u8>)
    ensures
        b@ == physical_plan_frame(plan_text.spec_bytes(), schema_json.spec_bytes()),
{
    let mut buffer: Vec<u8> = Vec::new();
    buffer.push(68u8);
    buffer.push(70u8);
    buffer.push(80u8);
    buffer.push(80u8);
    buffer.push(PLAN_FORMAT_VERSION);
    push_length_prefixed(&mut buffer, plan_text.as_bytes());
    push_length_prefixed(&mut buffer, schema_json.as_bytes());
    assert(buffer@ =~= physical_plan_frame(plan_text.spec_bytes(), schema_json.spec_bytes()));
    buffer
}

/// Copies `bytes[start..end]`.
fn copy_range(bytes: &[u8], start: usize, end: usize) -> (v: Vec<u8>)
    requires
        start <= end <= bytes@.len(),
    ensures
        v@ == bytes@.subrange(start as int, end as int),
{
    let mut v: Vec<u8> = Vec::new();
    let mut i: usize = start;
    while i < end
        invariant
            start <= i <= end <= bytes@.len(),
            v@ == bytes@.subrange(start as int, i as int),
        decreases end - i,
    {
        v.push(bytes[i]);
        i = i + 1;
        assert(v@ =~= bytes@.subrange(start as int, i as int));
    }
    v
}

/// Reads a logical plan frame: gives its payload, or says why it was refused.
pub fn read_logical_plan_frame(bytes: &[u8]) -> (r: Result<Vec<u8>, PlanFrameError>)
    ensures
        match r {
            Ok(p) => logical_frame_payload(bytes@) == Ok::<Seq<u8>, PlanFrameError>(p@),
            Err(e) => logical_frame_payload(bytes@) == Err::<Seq<u8>, PlanFrameError>(e),
        },
{
    if bytes.len() < 9 {
        return Err(PlanFrameError::TooShort);
    }
    if !(bytes[0] == 68u8 && bytes[1] == 70u8 && bytes[2] == 80u8 && bytes[3] == 76u8) {
        assert(bytes@.subrange(0, 4) != logical_magic()) by {
            if bytes@.subrange(0, 4) == logical_magic() {
                assert(bytes@.subrange(0, 4)[0] == bytes@[0]);
                assert(bytes@.subrange(0, 4)[1] == bytes@[1]);
                assert(bytes@.subrange(0, 4)[2] == bytes@[2]);
                assert(bytes@.subrange(0, 4)[3] == bytes@[3]);
            }
        }
        return Err(PlanFrameError::WrongMagic);
    }
    assert(bytes@.subrange(0, 4) =~= logical_magic());
    let version = bytes[4];
    if version != PLAN_FORMAT_VERSION {
        return Err(PlanFrameError::UnsupportedVersion(version));
    }
    let prefix = copy_range(bytes, 5, 9);
    let len = u32_from_le_bytes(prefix.as_slice());
    if bytes.len() - 9 < len as usize {
        return Err(PlanFrameError::Truncated);
    }
    let end: usize = 9 + len as usize;
    Ok(copy_range(bytes, 9, end))
}

/// The plan error a refused frame is reported with.
pub fn frame_error_to_distributed(e: PlanFrameError) -> (d: DistributedError)
    ensures
        d matches DistributedError::PlanDeserialization(m) && m@ == frame_error_message(e),
{
    match e {
        PlanFrameError::TooShort => {
            let m = String::from_str("Invalid plan data: too short");
            DistributedError::PlanDeserialization(m)
        },
        PlanFrameError::WrongMagic => {
            let m = String::from_str("Invalid plan format: wrong magic bytes");
            DistributedError::PlanDeserialization(m)
        },
        PlanFrameError::UnsupportedVersion(v) => {
            let mut m = String::from_str("Unsupported plan version: ");
            let digits = u64_to_decimal(v as u64);
            m.append(digits.as_str());
            proof {
                reveal_strlit("Unsupported plan version: ");
            }
            assert(m@ =~= frame_error_message(e));
            DistributedError::PlanDeserialization(m)
        },
        PlanFrameError::Truncated => {
            let m = String::from_str("Invalid plan data: truncated");
            DistributedError::PlanDeserialization(m)
        },
    }
}

/// What `std::str::from_utf8` reports, as text, for bytes that are not UTF-8.
pub uninterp spec fn spec_utf8_error_text(bytes: Seq<u8>) -> Seq<char>;

/// Calls `std::str::from_utf8`. Trusted: it succeeds exactly on valid UTF-8
/// and then gives the decoded text; on failure the error's text is named,
/// not stated.
#[verifier::external_body]
fn utf8_text(bytes: &[u8]) -> (r: Result<String, String>)
    ensures
        r is Ok <==> valid_utf8(bytes@),
        r matches Ok(s) ==> s@ == decode_utf8(bytes@),
        r matches Err(m) ==> m@ == spec_utf8_error_text(bytes@),
{
    match std::str::from_utf8(bytes) {
        Ok(s) => Ok(s.to_string()),
        Err(e) => Err(e.to_string()),
    }
}

/// Reads a logical plan frame and gives its JSON text.
pub fn logical_plan_json(bytes: &[u8]) -> (r: Result<String, DistributedError>)
    ensures
        match logical_frame_payload(bytes@) {
            Err(e) => r matches Err(DistributedError::PlanDeserialization(m)) && m@ == frame_error_message(e),
            Ok(p) => if valid_utf8(p) {
                r matches Ok(s) && s@ == decode_utf8(p)
            } else {
                r matches Err(DistributedError::PlanDeserialization(m)) && m@ == spec_utf8_error_text(p)
            },
        },
{
    match read_logical_plan_frame(bytes) {
        Err(e) => Err(frame_error_to_distributed(e)),
        Ok(payload) => match utf8_text(payload.as_slice()) {
            Ok(s) => Ok(s),
            Err(m) => Err(DistributedError::PlanDeserialization(m)),
        },
    }
}

/// Checks a physical plan frame. Reading one back is not supported, so
/// every input is refused; what differs is the reason.
pub fn check_physical_plan_frame(bytes: &[u8]) -> (d: DistributedError)
    ensures
        d matches DistributedError::PlanDeserialization(m) && m@ == (if bytes@.len() < 9 {
            "Invalid physical plan data: too short"@
        } else if bytes@.subrange(0, 4) != physical_magic() {
            "Invalid physical plan format: wrong magic bytes"@
        } else {
            "Physical plan deserialization requires datafusion-proto"@
        }),
{
    if bytes.len() < 9 {
        return DistributedError::PlanDeserialization(String::from_str("Invalid physical plan data: too short"));
    }
    if !(bytes[0] == 68u8 && bytes[1] == 70u8 && bytes[2] == 80u8 && bytes[3] == 80u8) {
        assert(bytes@.subrange(0, 4) != physical_magic()) by {
            if bytes@.subrange(0, 4) == physical_magic() {
                assert(bytes@.subrange(0, 4)[0] == bytes@[0]);
                assert(bytes@.subrange(0, 4)[1] == bytes@[1]);
                assert(bytes@.subrange(0, 4)[2] == bytes@[2]);
                assert(bytes@.subrange(0, 4)[3] == bytes@[3]);
            }
        }
        return DistributedError::PlanDeserialization(
            String::from_str("Invalid physical plan format: wrong magic bytes"),
        );
    }
    assert(bytes@.subrange(0, 4) =~= physical_magic());
    DistributedError::PlanDeserialization(String::from_str("Physical plan deserialization requires datafusion-proto"))
}

/// Reading a logical plan frame gives back the payload it was written with,
/// for every payload whose length fits the four-byte prefix.
pub proof fn law_logical_frame_roundtrip(payload: Seq<u8>)
    requires
        payload.len() <= u32::MAX,
    ensures
        logical_frame_payload(logical_plan_frame(payload)) == Ok::<Seq<u8>, PlanFrameError>(payload),
{
    let b = logical_plan_frame(payload);
    lemma_auto_spec_u32_to_from_le_bytes();
    let len = payload.len() as u32;
    assert(len == payload.len());
    assert(b.subrange(0, 4) =~= logical_magic());
    assert(b.subrange(5, 9) =~= spec_u32_to_le_bytes(len));
    assert(b.subrange(9, 9 + payload.len() as int) =~= payload);
}

/// The JSON text of a logical plan comes back unchanged from its frame, for
/// every text whose UTF-8 encoding fits the four-byte length prefix.
pub proof fn law_logical_plan_json_roundtrip(json: Seq<char>)
    requires
        encode_utf8(json).len() <= u32::MAX,
    ensures
        logical_frame_payload(logical_plan_frame(encode_utf8(json))) == Ok::<Seq<u8>, PlanFrameError>(
            encode_utf8(json),
        ),
        valid_utf8(encode_utf8(json)),
        decode_utf8(encode_utf8(json)) == json,
{
    law_logical_frame_roundtrip(encode_utf8(json));
    encode_utf8_valid_utf8(json);
    encode_utf8_decode_utf8(json);
}


/// The serialized description of a plan: its operator, the properties that
/// are kept (the table of a scan and the columns it reads; the skip and fetch
/// of a limit), and its inputs, described the same way.
#[derive(Debug)]
pub struct LogicalPlanRepr {
    /// The operator's name
    pub plan_type: String,
    /// The inputs' descriptions, in order
    pub children: Vec<LogicalPlanRepr>,
    /// The table a scan reads
    pub table_name: Option<String>,
    /// The column indices a scan reads, where it reads only some
    pub projection: Option<Vec<usize>>,
    /// The rows a limit skips
    pub skip: Option<usize>,
    /// The rows a limit keeps, if bounded
    pub fetch: Option<usize>,
}

/// The name an operator is serialized under; operators without a name of
/// their own are `Other`.
pub open spec fn plan_type_of(p: PlanNode) -> Seq<char> {
    match p {
        PlanNode::TableScan { .. } => "TableScan"@,
        PlanNode::Projection { .. } => "Projection"@,
        PlanNode::Filter { .. } => "Filter"@,
        PlanNode::Aggregate { .. } => "Aggregate"@,
        PlanNode::Sort { .. } => "Sort"@,
        PlanNode::Limit { .. } => "Limit"@,
        PlanNode::Join { .. } => "Join"@,
        PlanNode::MergeScan { .. } => "Other"@,
        PlanNode::Other { kind, .. } => if kind@ == "Union"@ || kind@ == "EmptyRelation"@ || kind@ == "SubqueryAlias"@ {
            kind@
        } else {
            "Other"@
        },
    }
}

/// Whether `r` describes the plan `p`.
pub open spec fn repr_matches(r: LogicalPlanRepr, p: PlanNode) -> bool
    decreases p, 1nat,
{
    &&& r.plan_type@ == plan_type_of(p)
    &&& match p {
        PlanNode::TableScan { table_name, projection, .. } => {
            &&& r.table_name matches Some(t) && t@ == table_name@
            &&& projection_view(r.projection) == projection_view(projection)
            &&& r.skip is None
            &&& r.fetch is None
            &&& r.children@.len() == 0
        },
        PlanNode::Projection { input, .. } => {
            &&& r.table_name is None
            &&& r.projection is None
            &&& r.skip is None
            &&& r.fetch is None
            &&& r.children@.len() == 1
            &&& repr_matches(r.children@[0], *input)
        },
        PlanNode::Filter { input, .. } => {
            &&& r.table_name is None
            &&& r.projection is None
            &&& r.skip is None
            &&& r.fetch is None
            &&& r.children@.len() == 1
            &&& repr_matches(r.children@[0], *input)
        },
        PlanNode::Aggregate { input, .. } => {
            &&& r.table_name is None
            &&& r.projection is None
            &&& r.skip is None
            &&& r.fetch is None
            &&& r.children@.len() == 1
            &&& repr_matches(r.children@[0], *input)
        },
        PlanNode::Sort { input, .. } => {
            &&& r.table_name is None
            &&& r.projection is None
            &&& r.skip is None
            &&& r.fetch is None
            &&& r.children@.len() == 1
            &&& repr_matches(r.children@[0], *input)
        },
        PlanNode::Limit { skip, fetch, input } => {
            &&& r.table_name is None
            &&& r.projection is None
            &&& r.skip == Some(skip)
            &&& r.fetch == fetch
            &&& r.children@.len() == 1
            &&& repr_matches(r.children@[0], *input)
        },
        PlanNode::Join { left, right, .. } => {
            &&& r.table_name is None
            &&& r.projection is None
            &&& r.skip is None
            &&& r.fetch is None
            &&& r.children@.len() == 2
            &&& repr_matches(r.children@[0], *left)
            &&& repr_matches(r.children@[1], *right)
        },
        PlanNode::Other { inputs, .. } => {
            &&& r.table_name is None
            &&& r.projection is None
            &&& r.skip is None
            &&& r.fetch is None
            &&& children_match(r.children@, inputs@)
        },
        PlanNode::MergeScan { .. } => {
            &&& r.table_name is None
            &&& r.projection is None
            &&& r.skip is None
            &&& r.fetch is None
            &&& r.children@.len() == 0
        },
    }
}

/// Whether the descriptions describe the plans, one for one.
pub open spec fn children_match(rs: Seq<LogicalPlanRepr>, ps: Seq<PlanNode>) -> bool
    decreases ps, 0nat,
{
    &&& rs.len() == ps.len()
    &&& (ps.len() == 0 || (repr_matches(rs[0], ps[0]) && children_match(
        rs.subrange(1, rs.len() as int),
        ps.subrange(1, ps.len() as int),
    )))
}

/// Matching lists stay matching when a matching pair is appended.
pub proof fn lemma_children_match_push(rs: Seq<LogicalPlanRepr>, ps: Seq<PlanNode>, r: LogicalPlanRepr, p: PlanNode)
    requires
        children_match(rs, ps),
        repr_matches(r, p),
    ensures
        children_match(rs.push(r), ps.push(p)),
    decreases ps.len(),
{
    if ps.len() == 0 {
        assert(rs.push(r).subrange(1, 1) =~= Seq::<LogicalPlanRepr>::empty());
        assert(ps.push(p).subrange(1, 1) =~= Seq::<PlanNode>::empty());
        assert(rs.push(r)[0] == r);
        assert(ps.push(p)[0] == p);
        assert(children_match(Seq::<LogicalPlanRepr>::empty(), Seq::<PlanNode>::empty()));
    } else {
        assert(rs.push(r)[0] == rs[0]);
        assert(ps.push(p)[0] == ps[0]);
        let rt = rs.subrange(1, rs.len() as int);
        let pt = ps.subrange(1, ps.len() as int);
        lemma_children_match_push(rt, pt, r, p);
        assert(rs.push(r).subrange(1, rs.len() as int + 1) =~= rt.push(r));
        assert(ps.push(p).subrange(1, ps.len() as int + 1) =~= pt.push(p));
    }
}

impl LogicalPlanRepr {
    /// A description with no properties yet.
    fn bare(plan_type: &str, children: Vec<LogicalPlanRepr>) -> (r: Self)
        ensures
            r.plan_type@ == plan_type@,
            r.children@ == children@,
            r.table_name is None,
            r.projection is None,
            r.skip is None,
            r.fetch is None,
    {
        LogicalPlanRepr {
            plan_type: String::from_str(plan_type),
            children,
            table_name: None,
            projection: None,
            skip: None,
            fetch: None,
        }
    }

    /// Describes a plan, operator by operator.
    pub fn from_plan(plan: &PlanNode) -> (r: Self)
        ensures
            repr_matches(r, *plan),
        decreases plan,
    {
        proof {
            reveal_strlit("TableScan");
            reveal_strlit("Projection");
            reveal_strlit("Filter");
            reveal_strlit("Aggregate");
            reveal_strlit("Sort");
            reveal_strlit("Limit");
            reveal_strlit("Join");
            reveal_strlit("Union");
            reveal_strlit("EmptyRelation");
            reveal_strlit("SubqueryAlias");
            reveal_strlit("Other");
        }
        match plan {
            PlanNode::TableScan { table_name, projection, .. } => {
                let mut r = Self::bare("TableScan", Vec::new());
                r.table_name = Some(table_name.clone());
                r.projection = copy_projection(projection);
                r
            },
            PlanNode::Projection { input, .. } => Self::bare("Projection", vec![Self::from_plan(input)]),
            PlanNode::Filter { input, .. } => Self::bare("Filter", vec![Self::from_plan(input)]),
            PlanNode::Aggregate { input, .. } => Self::bare("Aggregate", vec![Self::from_plan(input)]),
            PlanNode::Sort { input, .. } => Self::bare("Sort", vec![Self::from_plan(input)]),
            PlanNode::Limit { skip, fetch, input } => {
                let mut r = Self::bare("Limit", vec![Self::from_plan(input)]);
                r.skip = Some(*skip);
                r.fetch = *fetch;
                r
            },
            PlanNode::Join { left, right, .. } => {
                let l = Self::from_plan(left);
                let rt = Self::from_plan(right);
                Self::bare("Join", vec![l, rt])
            },
            PlanNode::MergeScan { .. } => Self::bare("Other", Vec::new()),
            PlanNode::Other { kind, inputs } => {
                let mut children: Vec<LogicalPlanRepr> = Vec::new();
                let mut i: usize = 0;
                while i < inputs.len()
                    invariant
                        i <= inputs@.len(),
                        *plan is Other,
                        *inputs == plan->inputs,
                        children_match(children@, inputs@.take(i as int)),
                    decreases inputs.len() - i,
                {
                    proof {
                        assert(decreases_to!(*plan => plan->inputs));
                        assert(decreases_to!(plan->inputs => plan->inputs@));
                        assert(decreases_to!(plan->inputs@ => plan->inputs@[i as int]));
                    }
                    let c = Self::from_plan(&inputs[i]);
                    proof {
                        lemma_children_match_push(children@, inputs@.take(i as int), c, inputs@[i as int]);
                        assert(inputs@.take(i as int).push(inputs@[i as int]) =~= inputs@.take(i as int + 1));
                    }
                    children.push(c);
                    i = i + 1;
                }
                proof {
                    assert(inputs@.take(i as int) =~= inputs@);
                }
                let k = kind.as_str();
                let named = String::from_str(k) == String::from_str("Union") || String::from_str(k) == String::from_str(
                    "EmptyRelation",
                ) || String::from_str(k) == String::from_str("SubqueryAlias");
                if named {
                    Self::bare(k, children)
                } else {
                    Self::bare("Other", children)
                }
            },
        }
    }
}

} // verus!
