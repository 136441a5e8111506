//! The Arrow Flight side of a datanode: tickets, actions, and how incoming
//! flight data is read.

use vstd::prelude::*;
use crate::ids::NodeId;

verus! {

/// Configuration of the Flight service.
#[derive(Debug, Clone, Copy)]
pub struct FlightServiceConfig {
    /// Maximum concurrent queries
    pub max_concurrent_queries: usize,
    /// Query timeout in seconds
    pub query_timeout_secs: u64,
    /// Maximum batch size for streaming
    pub max_batch_size: usize,
}

impl Default for FlightServiceConfig {
    fn default() -> (c: Self)
        ensures
            c.max_concurrent_queries == 100,
            c.query_timeout_secs == 300,
            c.max_batch_size == 8192,
    {
        FlightServiceConfig { max_concurrent_queries: 100, query_timeout_secs: 300, max_batch_size: 8192 }
    }
}

/// The language of a query in a ticket.
#[derive(Debug, Clone, Copy, PartialEq, Eq, Structural)]
pub enum QueryType {
    Sql,
    InfluxQL,
}

/// What a Flight ticket asks for.
#[derive(Debug, Clone)]
pub struct QueryTicket {
    /// Query ID for tracking
    pub query_id: String,
    /// Database to query
    pub database: String,
    /// Query string
    pub query: String,
    /// Query type
    pub query_type: QueryType,
    /// Region to query (if specified)
    pub region_id: Option<u64>,
}

/// An action a Flight client can ask for.
#[derive(Debug, Clone, PartialEq, Eq)]
pub enum FlightAction {
    /// Answer `OK`
    HealthCheck,
    /// Forget the query whose id is in the body, and answer `Cancelled`
    CancelQuery,
    /// Anything else, refused as not implemented with this message
    Unimplemented(String),
}

/// The message for an action that is not implemented.
pub open spec fn unimplemented_action_message(action: Seq<char>) -> Seq<char> {
    "Action '"@ + action + "' not implemented"@
}

/// Classifies an action by its type name.
pub fn classify_action(action_type: &str) -> (a: FlightAction)
    ensures
        action_type@ == "health_check"@ ==> a == FlightAction::HealthCheck,
        action_type@ == "cancel_query"@ ==> a == FlightAction::CancelQuery,
        action_type@ != "health_check"@ && action_type@ != "cancel_query"@ ==> (a matches FlightAction::Unimplemented(
            m,
        ) && m@ == unimplemented_action_message(action_type@)),
{
    proof {
        reveal_strlit("health_check");
        reveal_strlit("cancel_query");
        assert("cancel_query"@[0] != "health_check"@[0]);
    }
    let t = String::from_str(action_type);
    if t == String::from_str("health_check") {
        FlightAction::HealthCheck
    } else if t == String::from_str("cancel_query") {
        FlightAction::CancelQuery
    } else {
        let mut m = String::from_str("Action '");
        m.append(action_type);
        m.append("' not implemented");
        proof {
            reveal_strlit("Action '");
            reveal_strlit("' not implemented");
        }
        assert(m@ =~= unimplemented_action_message(action_type@));
        FlightAction::Unimplemented(m)
    }
}

/// The actions the service lists, with their descriptions.
pub fn list_actions() -> (v: Vec<(String, String)>)
    ensures
        v@.len() == 2,
        v@[0].0@ == "health_check"@,
        v@[0].1@ == "Check if the service is healthy"@,
        v@[1].0@ == "cancel_query"@,
        v@[1].1@ == "Cancel an executing query"@,
{
    let mut v: Vec<(String, String)> = Vec::new();
    v.push((String::from_str("health_check"), String::from_str("Check if the service is healthy")));
    v.push((String::from_str("cancel_query"), String::from_str("Cancel an executing query")));
    v
}

/// What a piece of incoming flight data carries.
#[derive(Debug, Clone, Copy, PartialEq, Eq, Structural)]
pub enum FlightDataKind {
    /// A header without a body: the schema, which is skipped
    Schema,
    /// A body: record batches to decode
    Batches,
    /// Neither
    Empty,
}

/// Classifies a piece of flight data by the sizes of its header and body.
pub fn classify_flight_data(header_len: usize, body_len: usize) -> (k: FlightDataKind)
    ensures
        header_len > 0 && body_len == 0 ==> k == FlightDataKind::Schema,
        body_len > 0 ==> k == FlightDataKind::Batches,
        header_len == 0 && body_len == 0 ==> k == FlightDataKind::Empty,
{
    if header_len > 0 && body_len == 0 {
        FlightDataKind::Schema
    } else if body_len > 0 {
        FlightDataKind::Batches
    } else {
        FlightDataKind::Empty
    }
}

/// Flight client for connecting to Datanode Flight services.
#[derive(Debug, Clone)]
pub struct DatanodeFlightClient {
    addr: String,
}

impl DatanodeFlightClient {
    /// The address the client connects to.
    pub closed spec fn spec_addr(&self) -> Seq<char> {
        self.addr@
    }

    /// Create a new Flight client.
    pub fn new(addr: String) -> (c: Self)
        ensures
            c.spec_addr() == addr@,
    {
        DatanodeFlightClient { addr }
    }

    /// The address the client connects to.
    pub fn addr(&self) -> (a: &String)
        ensures
            a@ == self.spec_addr(),
    {
        &self.addr
    }

    /// The ticket of a query.
    pub fn ticket(query_id: String, database: &str, query: &str, query_type: QueryType, region_id: Option<u64>) -> (t: QueryTicket)
        ensures
            t.query_id == query_id,
            t.database@ == database@,
            t.query@ == query@,
            t.query_type == query_type,
            t.region_id == region_id,
    {
        QueryTicket {
            query_id,
            database: String::from_str(database),
            query: String::from_str(query),
            query_type,
            region_id,
        }
    }
}

/// The Flight service of a datanode, apart from its executor.
#[derive(Debug, Clone, Copy)]
pub struct FlightServiceSettings {
    /// The node the service runs on
    pub node_id: NodeId,
    /// Its configuration
    pub config: FlightServiceConfig,
}

} // verus!
