//! Error types for the distributed framework.

use vstd::prelude::*;
use crate::decimal::{decimal_digits, u64_to_decimal};

verus! {

/// Errors that can occur in the distributed framework.
#[derive(Debug, Clone, PartialEq, Eq)]
pub enum DistributedError {
    /// Error from the metadata service
    MetaError(String),
    /// Error when a node is not found
    NodeNotFound { node_id: u64 },
    /// Error when a region is not found
    RegionNotFound { region_id: u64 },
    /// Error when a database is not found
    DatabaseNotFound { database: String },
    /// Error when a table is not found
    TableNotFound { database: String, table: String },
    /// Error from network communication
    NetworkError(String),
    /// Error from gRPC transport (its description)
    GrpcTransport(String),
    /// Error from gRPC status
    GrpcStatus(String),
    /// Error from Arrow Flight
    FlightError(String),
    /// Error from query execution
    QueryExecution(String),
    /// Error from the query engine (its description)
    DataFusion(String),
    /// Error from query planning
    QueryPlanning(String),
    /// Error when plan serialization fails
    PlanSerialization(String),
    /// Error when plan deserialization fails
    PlanDeserialization(String),
    /// Error from write operations
    WriteError(String),
    /// Error when the cluster is not initialized
    ClusterNotInitialized,
    /// Error when the node is not ready
    NodeNotReady { node_id: u64 },
    /// Error from configuration
    ConfigError(String),
    /// Error when an operation times out
    Timeout(String),
    /// Error when a node is already registered
    NodeAlreadyRegistered { node_id: u64 },
    /// Error when a region is already assigned
    RegionAlreadyAssigned { region_id: u64, node_id: u64 },
    /// Internal error
    Internal(String),
    /// Error from the catalog
    CatalogError(String),
    /// Error from serialization/deserialization
    SerializationError(String),
    /// Connection pool exhausted
    ConnectionPoolExhausted { node_id: u64 },
    /// Invalid request
    InvalidRequest(String),
    /// Unsupported operation
    UnsupportedOperation(String),
}

/// Result type alias for distributed operations.
pub type Result<T> = std::result::Result<T, DistributedError>;

/// The gRPC status codes that errors map to.
#[derive(Debug, Clone, Copy, PartialEq, Eq, Structural)]
pub enum StatusCode {
    NotFound,
    InvalidArgument,
    Unavailable,
    DeadlineExceeded,
    Unimplemented,
    AlreadyExists,
    Internal,
}

/// Whether an error is worth retrying.
pub open spec fn spec_is_retriable(e: DistributedError) -> bool {
    e is NetworkError || e is Timeout || e is NodeNotReady || e is ConnectionPoolExhausted
        || e is GrpcTransport
}

/// Whether an error shows that a node is unavailable.
pub open spec fn spec_is_node_unavailable(e: DistributedError) -> bool {
    e is NodeNotFound || e is NodeNotReady || e is NetworkError || e is GrpcTransport
}

/// The gRPC status code an error is reported with.
pub open spec fn spec_status_code(e: DistributedError) -> StatusCode {
    match e {
        DistributedError::NodeNotFound { .. } | DistributedError::RegionNotFound { .. }
        | DistributedError::DatabaseNotFound { .. } | DistributedError::TableNotFound {
            ..
        } => StatusCode::NotFound,
        DistributedError::InvalidRequest(_) => StatusCode::InvalidArgument,
        DistributedError::ClusterNotInitialized | DistributedError::NodeNotReady {
            ..
        } => StatusCode::Unavailable,
        DistributedError::Timeout(_) => StatusCode::DeadlineExceeded,
        DistributedError::UnsupportedOperation(_) => StatusCode::Unimplemented,
        DistributedError::NodeAlreadyRegistered { .. }
        | DistributedError::RegionAlreadyAssigned { .. } => StatusCode::AlreadyExists,
        _ => StatusCode::Internal,
    }
}

/// The human-readable message of an error.
pub open spec fn spec_error_message(e: DistributedError) -> Seq<char> {
    match e {
        DistributedError::MetaError(m) => "MetaServer error: "@ + m@,
        DistributedError::NodeNotFound { node_id } => "Node not found: "@ + decimal_digits(
            node_id as nat,
        ),
        DistributedError::RegionNotFound { region_id } => "Region not found: "@ + decimal_digits(
            region_id as nat,
        ),
        DistributedError::DatabaseNotFound { database } => "Database not found: "@ + database@,
        DistributedError::TableNotFound { database, table } => "Table not found: "@ + database@
            + "."@ + table@,
        DistributedError::NetworkError(m) => "Network error: "@ + m@,
        DistributedError::GrpcTransport(m) => "gRPC transport error: "@ + m@,
        DistributedError::GrpcStatus(m) => "gRPC status error: "@ + m@,
        DistributedError::FlightError(m) => "Arrow Flight error: "@ + m@,
        DistributedError::QueryExecution(m) => "Query execution error: "@ + m@,
        DistributedError::DataFusion(m) => "DataFusion error: "@ + m@,
        DistributedError::QueryPlanning(m) => "Query planning error: "@ + m@,
        DistributedError::PlanSerialization(m) => "Plan serialization error: "@ + m@,
        DistributedError::PlanDeserialization(m) => "Plan deserialization error: "@ + m@,
        DistributedError::WriteError(m) => "Write error: "@ + m@,
        DistributedError::ClusterNotInitialized => "Cluster not initialized"@,
        DistributedError::NodeNotReady { node_id } => "Node not ready: "@ + decimal_digits(
            node_id as nat,
        ),
        DistributedError::ConfigError(m) => "Configuration error: "@ + m@,
        DistributedError::Timeout(m) => "Operation timed out: "@ + m@,
        DistributedError::NodeAlreadyRegistered { node_id } => "Node already registered: "@
            + decimal_digits(node_id as nat),
        DistributedError::RegionAlreadyAssigned { region_id, node_id } =>
            "Region already assigned: "@ + decimal_digits(region_id as nat) + " to node "@
            + decimal_digits(node_id as nat),
        DistributedError::Internal(m) => "Internal error: "@ + m@,
        DistributedError::CatalogError(m) => "Catalog error: "@ + m@,
        DistributedError::SerializationError(m) => "Serialization error: "@ + m@,
        DistributedError::ConnectionPoolExhausted { node_id } =>
            "Connection pool exhausted for node "@ + decimal_digits(node_id as nat),
        DistributedError::InvalidRequest(m) => "Invalid request: "@ + m@,
        DistributedError::UnsupportedOperation(m) => "Unsupported operation: "@ + m@,
    }
}

/// Concatenates a literal prefix and a string.
fn prefixed(prefix: &str, rest: &str) -> (s: String)
    ensures
        s@ == prefix@ + rest@,
{
    let mut s = String::from_str(prefix);
    s.append(rest);
    s
}

/// Concatenates a literal prefix and the decimal form of a number.
fn prefixed_number(prefix: &str, n: u64) -> (s: String)
    ensures
        s@ == prefix@ + decimal_digits(n as nat),
{
    let digits = u64_to_decimal(n);
    prefixed(prefix, digits.as_str())
}

impl DistributedError {
    /// Create a new meta error
    pub fn meta(msg: String) -> (e: Self)
        ensures
            e == DistributedError::MetaError(msg),
    {
        DistributedError::MetaError(msg)
    }

    /// Create a new network error
    pub fn network(msg: String) -> (e: Self)
        ensures
            e == DistributedError::NetworkError(msg),
    {
        DistributedError::NetworkError(msg)
    }

    /// Create a new query execution error
    pub fn query(msg: String) -> (e: Self)
        ensures
            e == DistributedError::QueryExecution(msg),
    {
        DistributedError::QueryExecution(msg)
    }

    /// Create a new write error
    pub fn write(msg: String) -> (e: Self)
        ensures
            e == DistributedError::WriteError(msg),
    {
        DistributedError::WriteError(msg)
    }

    /// Create a new internal error
    pub fn internal(msg: String) -> (e: Self)
        ensures
            e == DistributedError::Internal(msg),
    {
        DistributedError::Internal(msg)
    }

    /// Check if this error is retriable
    pub fn is_retriable(&self) -> (b: bool)
        ensures
            b == spec_is_retriable(*self),
    {
        match self {
            DistributedError::NetworkError(_) | DistributedError::Timeout(_)
            | DistributedError::NodeNotReady { .. } | DistributedError::ConnectionPoolExhausted {
                ..
            } | DistributedError::GrpcTransport(_) => true,
            _ => false,
        }
    }

    /// Check if this error indicates the node is unavailable
    pub fn is_node_unavailable(&self) -> (b: bool)
        ensures
            b == spec_is_node_unavailable(*self),
    {
        match self {
            DistributedError::NodeNotFound { .. } | DistributedError::NodeNotReady { .. }
            | DistributedError::NetworkError(_) | DistributedError::GrpcTransport(_) => true,
            _ => false,
        }
    }

    /// The gRPC status code this error is reported with.
    pub fn status_code(&self) -> (c: StatusCode)
        ensures
            c == spec_status_code(*self),
    {
        match self {
            DistributedError::NodeNotFound { .. } | DistributedError::RegionNotFound { .. }
            | DistributedError::DatabaseNotFound { .. } | DistributedError::TableNotFound {
                ..
            } => StatusCode::NotFound,
            DistributedError::InvalidRequest(_) => StatusCode::InvalidArgument,
            DistributedError::ClusterNotInitialized | DistributedError::NodeNotReady {
                ..
            } => StatusCode::Unavailable,
            DistributedError::Timeout(_) => StatusCode::DeadlineExceeded,
            DistributedError::UnsupportedOperation(_) => StatusCode::Unimplemented,
            DistributedError::NodeAlreadyRegistered { .. }
            | DistributedError::RegionAlreadyAssigned { .. } => StatusCode::AlreadyExists,
            _ => StatusCode::Internal,
        }
    }

    /// The human-readable message (the display form).
    pub fn to_display_string(&self) -> (s: String)
        ensures
            s@ == spec_error_message(*self),
    {
        match self {
            DistributedError::MetaError(m) => prefixed("MetaServer error: ", m.as_str()),
            DistributedError::NodeNotFound { node_id } => prefixed_number(
                "Node not found: ",
                *node_id,
            ),
            DistributedError::RegionNotFound { region_id } => prefixed_number(
                "Region not found: ",
                *region_id,
            ),
            DistributedError::DatabaseNotFound { database } => prefixed(
                "Database not found: ",
                database.as_str(),
            ),
            DistributedError::TableNotFound { database, table } => {
                let mut s = prefixed("Table not found: ", database.as_str());
                s.append(".");
                s.append(table.as_str());
                s
            },
            DistributedError::NetworkError(m) => prefixed("Network error: ", m.as_str()),
            DistributedError::GrpcTransport(m) => prefixed("gRPC transport error: ", m.as_str()),
            DistributedError::GrpcStatus(m) => prefixed("gRPC status error: ", m.as_str()),
            DistributedError::FlightError(m) => prefixed("Arrow Flight error: ", m.as_str()),
            DistributedError::QueryExecution(m) => prefixed("Query execution error: ", m.as_str()),
            DistributedError::DataFusion(m) => prefixed("DataFusion error: ", m.as_str()),
            DistributedError::QueryPlanning(m) => prefixed("Query planning error: ", m.as_str()),
            DistributedError::PlanSerialization(m) => prefixed(
                "Plan serialization error: ",
                m.as_str(),
            ),
            DistributedError::PlanDeserialization(m) => prefixed(
                "Plan deserialization error: ",
                m.as_str(),
            ),
            DistributedError::WriteError(m) => prefixed("Write error: ", m.as_str()),
            DistributedError::ClusterNotInitialized => String::from_str("Cluster not initialized"),
            DistributedError::NodeNotReady { node_id } => prefixed_number(
                "Node not ready: ",
                *node_id,
            ),
            DistributedError::ConfigError(m) => prefixed("Configuration error: ", m.as_str()),
            DistributedError::Timeout(m) => prefixed("Operation timed out: ", m.as_str()),
            DistributedError::NodeAlreadyRegistered { node_id } => prefixed_number(
                "Node already registered: ",
                *node_id,
            ),
            DistributedError::RegionAlreadyAssigned { region_id, node_id } => {
                let mut s = prefixed_number("Region already assigned: ", *region_id);
                s.append(" to node ");
                let n = u64_to_decimal(*node_id);
                s.append(n.as_str());
                s
            },
            DistributedError::Internal(m) => prefixed("Internal error: ", m.as_str()),
            DistributedError::CatalogError(m) => prefixed("Catalog error: ", m.as_str()),
            DistributedError::SerializationError(m) => prefixed(
                "Serialization error: ",
                m.as_str(),
            ),
            DistributedError::ConnectionPoolExhausted { node_id } => prefixed_number(
                "Connection pool exhausted for node ",
                *node_id,
            ),
            DistributedError::InvalidRequest(m) => prefixed("Invalid request: ", m.as_str()),
            DistributedError::UnsupportedOperation(m) => prefixed(
                "Unsupported operation: ",
                m.as_str(),
            ),
        }
    }

    /// The status code and message a gRPC reply carries for this error.
    pub fn to_status(&self) -> (r: (StatusCode, String))
        ensures
            r.0 == spec_status_code(*self),
            r.1@ == spec_error_message(*self),
    {
        (self.status_code(), self.to_display_string())
    }
}

/// Extension trait for adding context to errors
pub trait ErrorContext<T>: Sized {
    /// Add context to an error
    fn context(self, msg: String) -> Result<T>;
}

impl<T, E: std::fmt::Display> ErrorContext<T> for std::result::Result<T, E> {
    fn context(self, msg: String) -> (out: Result<T>)
        ensures
            self is Ok <==> out is Ok,
            out matches Ok(v) ==> self == std::result::Result::<T, E>::Ok(v),
            out is Err ==> has_context_prefix(out->Err_0, msg@),
    {
        with_context(self, msg)
    }
}

/// The error is internal and its message starts with the context and ": ".
pub open spec fn has_context_prefix(e: DistributedError, msg: Seq<char>) -> bool {
    match e {
        DistributedError::Internal(m) => m@.len() >= msg.len() + 2 && m@.subrange(
            0,
            msg.len() + 2int,
        ) == msg + ": "@,
        _ => false,
    }
}

/// Adds context to a failed result: success passes through unchanged, and a
/// failure becomes an internal error whose message starts with the context.
pub fn with_context<T, E: std::fmt::Display>(r: std::result::Result<T, E>, msg: String) -> (out:
    Result<T>)
    ensures
        r is Ok <==> out is Ok,
        out matches Ok(v) ==> r == std::result::Result::<T, E>::Ok(v),
        out is Err ==> has_context_prefix(out->Err_0, msg@),
{
    match r {
        Ok(v) => Ok(v),
        Err(e) => {
            let mut text = msg;
            text.append(": ");
            let ghost head = text@;
            proof {
                reveal_strlit(": ");
            }
            let detail = e.to_string();
            text.append(detail.as_str());
            assert(text@.subrange(0, head.len() as int) =~= head);
            Err(DistributedError::Internal(text))
        },
    }
}

} // verus!
