//! The wire messages of a datanode and the decisions its service makes.

use vstd::prelude::*;
use bytes::Bytes;
use crate::decimal::{decimal_digits, u64_to_decimal};
use crate::error::{StatusCode, spec_error_message};
use crate::meta_grpc::{node_status_code, node_status_to_code, region_status_code, region_status_to_code};
use crate::node::NodeStatus;
use crate::region::RegionInfo;

verus! {

#[derive(Debug, Clone)]
pub struct ExecuteQueryRequest {
    pub database: String,
    pub query: String,
    /// 0 = unspecified, 1 = SQL, 2 = InfluxQL
    pub query_type: i32,
    pub region_id: u64,
    pub query_id: String,
    /// Query parameters by name
    pub params: Vec<(String, String)>,
}

#[derive(Debug, Clone)]
pub struct ExecutePlanRequest {
    pub plan_bytes: Bytes,
    pub database: String,
    pub region_id: u64,
    pub query_id: String,
}

#[derive(Debug, Clone)]
pub struct QueryResultBatch {
    pub arrow_data: Bytes,
    pub num_rows: u64,
    pub is_last: bool,
    pub error_message: Option<String>,
}

#[derive(Debug, Clone)]
pub struct WriteRequestProto {
    pub database: String,
    pub region_id: u64,
    pub data: Bytes,
    pub precision: i32,
    pub no_sync: bool,
}

#[derive(Debug, Clone)]
pub struct WriteResponseProto {
    pub success: bool,
    pub points_written: u64,
    pub error_message: Option<String>,
}

#[derive(Debug, Clone)]
pub struct GetRegionStatusRequestProto {
    pub region_id: u64,
}

#[derive(Debug, Clone)]
pub struct GetRegionStatusResponseProto {
    pub region_id: u64,
    pub status: i32,
    pub row_count: u64,
    pub size_bytes: u64,
    pub last_write_time: Option<i64>,
}

#[derive(Debug, Clone)]
pub struct GetManagedRegionsRequest {}

#[derive(Debug, Clone)]
pub struct GetManagedRegionsResponse {
    pub regions: Vec<RegionInfoProto>,
}

#[derive(Debug, Clone)]
pub struct HealthCheckRequest {}

/// The answer to a health check; load metrics stay with the program.
#[derive(Debug, Clone)]
pub struct HealthCheckResponse {
    pub healthy: bool,
    pub status: i32,
    pub message: Option<String>,
}

#[derive(Debug, Clone)]
pub struct RegionInfoProto {
    pub region_id: u64,
    pub database: String,
    pub table: String,
    pub node_id: u64,
    pub partition_range: Option<PartitionRangeProto>,
    pub status: i32,
    pub epoch: u64,
}

#[derive(Debug, Clone, Copy, PartialEq, Eq, Structural)]
pub struct PartitionRangeProto {
    pub time_start_ns: Option<i64>,
    pub time_end_ns: Option<i64>,
    pub hash_start: u32,
    pub hash_end: u32,
}

/// The language of a query.
#[derive(Debug, Clone, Copy, PartialEq, Eq, Structural)]
pub enum QueryLanguage {
    Sql,
    InfluxQl,
}

/// The decimal form of a signed number.
pub open spec fn signed_decimal(n: i32) -> Seq<char> {
    if n < 0 {
        "-"@ + decimal_digits((-(n as int)) as nat)
    } else {
        decimal_digits(n as nat)
    }
}

/// Renders a signed number in decimal.
pub fn i32_to_decimal(n: i32) -> (s: String)
    ensures
        s@ == signed_decimal(n),
{
    if n < 0 {
        let m: u64 = (0i64 - (n as i64)) as u64;
        let mut s = String::from_str("-");
        let d = u64_to_decimal(m);
        s.append(d.as_str());
        proof {
            reveal_strlit("-");
        }
        s
    } else {
        u64_to_decimal(n as u64)
    }
}

/// The language a query type number asks for: 0 and 1 are SQL, 2 is
/// InfluxQL, anything else is refused as an invalid argument.
pub fn classify_query_type(query_type: i32) -> (r: std::result::Result<QueryLanguage, (StatusCode, String)>)
    ensures
        (query_type == 0 || query_type == 1) ==> r == Ok::<QueryLanguage, (StatusCode, String)>(QueryLanguage::Sql),
        query_type == 2 ==> r == Ok::<QueryLanguage, (StatusCode, String)>(QueryLanguage::InfluxQl),
        !(0 <= query_type <= 2) ==> (r matches Err((code, m)) && code == StatusCode::InvalidArgument && m@
            == "Unknown query type: "@ + signed_decimal(query_type)),
{
    if query_type == 0 || query_type == 1 {
        Ok(QueryLanguage::Sql)
    } else if query_type == 2 {
        Ok(QueryLanguage::InfluxQl)
    } else {
        let mut m = String::from_str("Unknown query type: ");
        let d = i32_to_decimal(query_type);
        m.append(d.as_str());
        proof {
            reveal_strlit("Unknown query type: ");
        }
        Err((StatusCode::InvalidArgument, m))
    }
}

/// The running outcome of a stream of writes.
#[derive(Debug)]
pub struct BatchWriteTally {
    /// Points written so far
    pub total_points: u64,
    /// Error messages so far, in order
    pub errors: Vec<String>,
}

/// Error messages joined by `"; "`.
pub open spec fn joined_errors(errors: Seq<Seq<char>>) -> Seq<char>
    decreases errors.len(),
{
    if errors.len() == 0 {
        Seq::empty()
    } else if errors.len() == 1 {
        errors[0]
    } else {
        joined_errors(errors.drop_last()) + "; "@ + errors.last()
    }
}

impl BatchWriteTally {
    /// A tally of nothing.
    pub fn new() -> (t: Self)
        ensures
            t.total_points == 0,
            t.errors@.len() == 0,
    {
        BatchWriteTally { total_points: 0, errors: Vec::new() }
    }

    /// Counts the points of a write that went through.
    pub fn add_points(&mut self, points: u64)
        requires
            old(self).total_points + points <= u64::MAX,
        ensures
            final(self).total_points == old(self).total_points + points,
            final(self).errors@ == old(self).errors@,
    {
        self.total_points = self.total_points + points;
    }

    /// Notes the message of a write that failed.
    pub fn add_error(&mut self, message: String)
        ensures
            final(self).total_points == old(self).total_points,
            final(self).errors@ == old(self).errors@.push(message),
    {
        self.errors.push(message);
    }

    /// The answer for the whole stream: success when nothing failed, the
    /// points written, and the failures joined by `"; "`.
    pub fn finish(&self) -> (r: WriteResponseProto)
        ensures
            r.success == (self.errors@.len() == 0),
            r.points_written == self.total_points,
            self.errors@.len() == 0 ==> r.error_message is None,
            self.errors@.len() > 0 ==> (r.error_message matches Some(m) && m@ == joined_errors(
                self.errors@.map_values(|e: String| e@),
            )),
    {
        if self.errors.len() == 0 {
            return WriteResponseProto { success: true, points_written: self.total_points, error_message: None };
        }
        let ghost es = self.errors@.map_values(|e: String| e@);
        let mut m = String::new();
        let mut i: usize = 0;
        proof {
            reveal_strlit("; ");
        }
        while i < self.errors.len()
            invariant
                i <= self.errors.len(),
                es == self.errors@.map_values(|e: String| e@),
                m@ == joined_errors(es.take(i as int)),
            decreases self.errors.len() - i,
        {
            proof {
                assert(es.take(i + 1).drop_last() =~= es.take(i as int));
            }
            if i > 0 {
                m.append("; ");
            }
            m.append(self.errors[i].as_str());
            i = i + 1;
            proof {
                if i == 1 {
                    assert(es.take(1)[0] == es[0]);
                }
            }
        }
        assert(es.take(self.errors.len() as int) =~= es);
        WriteResponseProto { success: false, points_written: self.total_points, error_message: Some(m) }
    }
}

/// The answer to a health check for a node in a given status: healthy when
/// online.
pub fn health_check_response(status: NodeStatus) -> (r: HealthCheckResponse)
    ensures
        r.healthy == (status == NodeStatus::Online),
        r.status == node_status_code(status),
        r.message is None,
{
    HealthCheckResponse {
        healthy: match status {
            NodeStatus::Online => true,
            _ => false,
        },
        status: node_status_to_code(status),
        message: None,
    }
}

/// Whether a wire region carries the fields of a region.
pub open spec fn region_proto_matches(p: RegionInfoProto, r: RegionInfo) -> bool {
    &&& p.region_id == r.region_id.0
    &&& p.database@ == r.database@
    &&& p.table@ == r.table@
    &&& p.node_id == r.node_id.0
    &&& p.partition_range == Some(
        PartitionRangeProto {
            time_start_ns: r.partition_range.time_start_ns,
            time_end_ns: r.partition_range.time_end_ns,
            hash_start: r.partition_range.hash_start as u32,
            hash_end: r.partition_range.hash_end as u32,
        },
    )
    &&& p.status == region_status_code(r.status)
    &&& p.epoch == r.epoch
}

/// A managed region on the wire.
pub fn region_to_proto(r: &RegionInfo) -> (p: RegionInfoProto)
    ensures
        region_proto_matches(p, *r),
{
    RegionInfoProto {
        region_id: r.region_id.get(),
        database: r.database.clone(),
        table: r.table.clone(),
        node_id: r.node_id.get(),
        partition_range: Some(
            PartitionRangeProto {
                time_start_ns: r.partition_range.time_start_ns,
                time_end_ns: r.partition_range.time_end_ns,
                hash_start: r.partition_range.hash_start as u32,
                hash_end: r.partition_range.hash_end as u32,
            },
        ),
        status: region_status_to_code(r.status),
        epoch: r.epoch,
    }
}

/// The managed regions of a datanode on the wire, in order.
pub fn managed_regions_response(regions: &Vec<RegionInfo>) -> (r: GetManagedRegionsResponse)
    ensures
        r.regions@.len() == regions@.len(),
        forall|i: int| 0 <= i < regions@.len() ==> region_proto_matches(#[trigger] r.regions@[i], regions@[i]),
{
    let mut v: Vec<RegionInfoProto> = Vec::new();
    let mut i: usize = 0;
    while i < regions.len()
        invariant
            i <= regions.len(),
            v@.len() == i,
            forall|k: int| 0 <= k < i ==> region_proto_matches(#[trigger] v@[k], regions@[k]),
        decreases regions.len() - i,
    {
        v.push(region_to_proto(&regions[i]));
        i = i + 1;
    }
    GetManagedRegionsResponse { regions: v }
}

} // verus!
