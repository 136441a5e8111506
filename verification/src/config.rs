//! Configuration types for the distributed framework.
//!
//! Network addresses are kept as their `host:port` text; the program that
//! binds or connects parses them.

use vstd::prelude::*;
use std::path::PathBuf;
use std::time::Duration;
use crate::node::NodeRole;
use crate::time::{duration_from_millis, duration_from_secs, duration_nanos, spec_duration_nanos};

verus! {

/// Declares `std::path::PathBuf` so that configurations can hold one.
#[verifier::external_type_specification]
#[verifier::external_body]
pub struct ExPathBuf(PathBuf);

/// Cloning a path; nothing is claimed of the copy.
pub assume_specification[<PathBuf as Clone>::clone](p: &PathBuf) -> PathBuf;

/// A path made from text.
///
/// Calls `PathBuf::from`; nothing is claimed of the path.
#[verifier::external_body]
fn path_from(s: &str) -> PathBuf {
    PathBuf::from(s)
}

/// The mode that the distributed node is running in.
#[derive(Debug, Clone, Copy, PartialEq, Eq, Structural)]
pub enum NodeMode {
    /// Standalone mode - single node, no distribution
    Standalone,
    /// Frontend mode - handles client requests and coordinates queries
    Frontend,
    /// Datanode mode - stores and processes data
    Datanode,
    /// MetaServer mode - manages cluster metadata
    MetaServer,
}

impl Default for NodeMode {
    fn default() -> (m: Self)
        ensures
            m == NodeMode::Standalone,
    {
        NodeMode::Standalone
    }
}

/// The display name of a node mode.
pub open spec fn node_mode_name(m: NodeMode) -> Seq<char> {
    match m {
        NodeMode::Standalone => "standalone"@,
        NodeMode::Frontend => "frontend"@,
        NodeMode::Datanode => "datanode"@,
        NodeMode::MetaServer => "metaserver"@,
    }
}

/// The node mode a lower-case name stands for, if any.
pub open spec fn mode_of_lower_name(l: Seq<char>) -> Option<NodeMode> {
    if l == "standalone"@ {
        Some(NodeMode::Standalone)
    } else if l == "frontend"@ {
        Some(NodeMode::Frontend)
    } else if l == "datanode"@ {
        Some(NodeMode::Datanode)
    } else if l == "metaserver"@ || l == "meta"@ {
        Some(NodeMode::MetaServer)
    } else {
        None
    }
}

/// The message for a name that is no node mode.
pub open spec fn unknown_mode_message(s: Seq<char>) -> Seq<char> {
    "Unknown node mode: "@ + s
        + ". Valid modes are: standalone, frontend, datanode, metaserver"@
}

/// The Unicode lower-case form of a text.
pub uninterp spec fn spec_to_lowercase(s: Seq<char>) -> Seq<char>;

/// The lower-case form of a text.
///
/// Calls `str::to_lowercase`, whose result depends on the text alone (the
/// Unicode case mapping); the contract names it.
#[verifier::external_body]
fn to_lowercase(s: &str) -> (l: String)
    ensures
        l@ == spec_to_lowercase(s@),
{
    s.to_lowercase()
}

impl NodeMode {
    /// Check if this is a distributed mode
    pub fn is_distributed(&self) -> (b: bool)
        ensures
            b == !(*self == NodeMode::Standalone),
    {
        match self {
            NodeMode::Standalone => false,
            _ => true,
        }
    }

    /// Convert to NodeRole (for distributed modes only)
    pub fn to_role(&self) -> (r: Option<NodeRole>)
        ensures
            r == match *self {
                NodeMode::Standalone => None,
                NodeMode::Frontend => Some(NodeRole::Frontend),
                NodeMode::Datanode => Some(NodeRole::Datanode),
                NodeMode::MetaServer => Some(NodeRole::MetaServer),
            },
    {
        match self {
            NodeMode::Standalone => None,
            NodeMode::Frontend => Some(NodeRole::Frontend),
            NodeMode::Datanode => Some(NodeRole::Datanode),
            NodeMode::MetaServer => Some(NodeRole::MetaServer),
        }
    }

    /// The display form of the mode.
    pub fn to_display_string(&self) -> (s: String)
        ensures
            s@ == node_mode_name(*self),
    {
        match self {
            NodeMode::Standalone => String::from_str("standalone"),
            NodeMode::Frontend => String::from_str("frontend"),
            NodeMode::Datanode => String::from_str("datanode"),
            NodeMode::MetaServer => String::from_str("metaserver"),
        }
    }

    /// The mode named by an already lower-cased name.
    pub fn from_lower_name(l: &str) -> (m: Option<NodeMode>)
        ensures
            m == mode_of_lower_name(l@),
    {
        proof {
            reveal_strlit("standalone");
            reveal_strlit("frontend");
            reveal_strlit("datanode");
            reveal_strlit("metaserver");
            reveal_strlit("meta");
        }
        let s = String::from_str(l);
        if s == String::from_str("standalone") {
            Some(NodeMode::Standalone)
        } else if s == String::from_str("frontend") {
            Some(NodeMode::Frontend)
        } else if s == String::from_str("datanode") {
            Some(NodeMode::Datanode)
        } else if s == String::from_str("metaserver") || s == String::from_str("meta") {
            Some(NodeMode::MetaServer)
        } else {
            None
        }
    }

    /// Parses a node mode, ignoring case.
    pub fn parse(s: &str) -> (r: Result<NodeMode, String>)
        ensures
            mode_of_lower_name(spec_to_lowercase(s@)) matches Some(m) ==> r == Ok::<NodeMode, String>(m),
            mode_of_lower_name(spec_to_lowercase(s@)) is None ==> (r matches Err(msg) && msg@
                == unknown_mode_message(s@)),
    {
        let lower = to_lowercase(s);
        match NodeMode::from_lower_name(lower.as_str()) {
            Some(m) => Ok(m),
            None => {
                let mut msg = String::from_str("Unknown node mode: ");
                msg.append(s);
                msg.append(". Valid modes are: standalone, frontend, datanode, metaserver");
                proof {
                    reveal_strlit("Unknown node mode: ");
                    reveal_strlit(". Valid modes are: standalone, frontend, datanode, metaserver");
                }
                assert(msg@ =~= unknown_mode_message(s@));
                Err(msg)
            },
        }
    }
}

impl std::str::FromStr for NodeMode {
    type Err = String;

    fn from_str(s: &str) -> (r: Result<Self, Self::Err>)
        ensures
            mode_of_lower_name(spec_to_lowercase(s@)) matches Some(m) ==> r == Ok::<NodeMode, String>(m),
            mode_of_lower_name(spec_to_lowercase(s@)) is None ==> (r matches Err(msg) && msg@
                == unknown_mode_message(s@)),
    {
        NodeMode::parse(s)
    }
}

/// A copy of a list of texts.
fn copy_strings(v: &Vec<String>) -> (r: Vec<String>)
    ensures
        r@.len() == v@.len(),
        forall|i: int| 0 <= i < v@.len() ==> #[trigger] r@[i]@ == v@[i]@,
{
    let mut r: Vec<String> = Vec::new();
    let mut i: usize = 0;
    while i < v.len()
        invariant
            i <= v.len(),
            r@.len() == i,
            forall|j: int| 0 <= j < i ==> #[trigger] r@[j]@ == v@[j]@,
        decreases v.len() - i,
    {
        r.push(v[i].clone());
        i = i + 1;
    }
    r
}

/// Configuration for the distributed cluster.
#[derive(Debug, Clone)]
pub struct ClusterConfig {
    /// Name of this cluster
    pub cluster_name: String,
    /// MetaServer addresses for connection, as `host:port`
    pub meta_server_addrs: Vec<String>,
    /// Connection timeout
    pub connect_timeout: Duration,
    /// Request timeout
    pub request_timeout: Duration,
    /// Heartbeat interval
    pub heartbeat_interval: Duration,
    /// Node considered stale after this duration without heartbeat
    pub node_stale_timeout: Duration,
    /// Maximum number of retries for retriable operations
    pub max_retries: usize,
    /// Retry backoff base duration
    pub retry_backoff_base: Duration,
}

/// The defaults of a cluster configuration, apart from its name.
pub open spec fn cluster_defaults(c: ClusterConfig) -> bool {
    &&& c.meta_server_addrs@.len() == 0
    &&& cluster_timing_defaults(c)
}

/// The default timeouts and retry settings of a cluster configuration.
pub open spec fn cluster_timing_defaults(c: ClusterConfig) -> bool {
    &&& spec_duration_nanos(c.connect_timeout) == 5_000_000_000
    &&& spec_duration_nanos(c.request_timeout) == 30_000_000_000
    &&& spec_duration_nanos(c.heartbeat_interval) == 3_000_000_000
    &&& spec_duration_nanos(c.node_stale_timeout) == 30_000_000_000
    &&& c.max_retries == 3
    &&& spec_duration_nanos(c.retry_backoff_base) == 100_000_000
}

/// The first problem `validate` reports, if any.
pub open spec fn cluster_config_problem(c: ClusterConfig) -> Option<Seq<char>> {
    if c.cluster_name@.len() == 0 {
        Some("Cluster name cannot be empty"@)
    } else if c.meta_server_addrs@.len() == 0 {
        Some("At least one MetaServer address is required"@)
    } else if spec_duration_nanos(c.heartbeat_interval) >= spec_duration_nanos(c.node_stale_timeout) {
        Some("Heartbeat interval must be less than node stale timeout"@)
    } else {
        None
    }
}

impl Default for ClusterConfig {
    fn default() -> (c: Self)
        ensures
            c.cluster_name@ == "influxdb3-cluster"@,
            cluster_defaults(c),
    {
        ClusterConfig::new(String::from_str("influxdb3-cluster"))
    }
}

impl ClusterConfig {
    /// Create a new ClusterConfig with the given cluster name.
    pub fn new(cluster_name: String) -> (c: Self)
        ensures
            c.cluster_name == cluster_name,
            cluster_defaults(c),
    {
        ClusterConfig {
            cluster_name,
            meta_server_addrs: Vec::new(),
            connect_timeout: duration_from_secs(5),
            request_timeout: duration_from_secs(30),
            heartbeat_interval: duration_from_secs(3),
            node_stale_timeout: duration_from_secs(30),
            max_retries: 3,
            retry_backoff_base: duration_from_millis(100),
        }
    }

    /// A field-by-field copy.
    pub fn copy(&self) -> (c: Self)
        ensures
            c.cluster_name@ == self.cluster_name@,
            c.meta_server_addrs@.len() == self.meta_server_addrs@.len(),
            forall|i: int| 0 <= i < self.meta_server_addrs@.len() ==> #[trigger] c.meta_server_addrs@[i]@
                == self.meta_server_addrs@[i]@,
            c.connect_timeout == self.connect_timeout,
            c.request_timeout == self.request_timeout,
            c.heartbeat_interval == self.heartbeat_interval,
            c.node_stale_timeout == self.node_stale_timeout,
            c.max_retries == self.max_retries,
            c.retry_backoff_base == self.retry_backoff_base,
    {
        ClusterConfig {
            cluster_name: self.cluster_name.clone(),
            meta_server_addrs: copy_strings(&self.meta_server_addrs),
            connect_timeout: self.connect_timeout,
            request_timeout: self.request_timeout,
            heartbeat_interval: self.heartbeat_interval,
            node_stale_timeout: self.node_stale_timeout,
            max_retries: self.max_retries,
            retry_backoff_base: self.retry_backoff_base,
        }
    }

    /// Set the MetaServer addresses.
    pub fn with_meta_servers(self, addrs: Vec<String>) -> (c: Self)
        ensures
            c == (ClusterConfig { meta_server_addrs: addrs, ..self }),
    {
        let mut c = self;
        c.meta_server_addrs = addrs;
        c
    }

    /// Add a MetaServer address.
    pub fn add_meta_server(self, addr: String) -> (c: Self)
        ensures
            c.meta_server_addrs@ == self.meta_server_addrs@.push(addr),
            c == (ClusterConfig { meta_server_addrs: c.meta_server_addrs, ..self }),
    {
        let mut c = self;
        c.meta_server_addrs.push(addr);
        c
    }

    /// Set the connection timeout.
    pub fn with_connect_timeout(self, timeout: Duration) -> (c: Self)
        ensures
            c == (ClusterConfig { connect_timeout: timeout, ..self }),
    {
        let mut c = self;
        c.connect_timeout = timeout;
        c
    }

    /// Set the request timeout.
    pub fn with_request_timeout(self, timeout: Duration) -> (c: Self)
        ensures
            c == (ClusterConfig { request_timeout: timeout, ..self }),
    {
        let mut c = self;
        c.request_timeout = timeout;
        c
    }

    /// Set the heartbeat interval.
    pub fn with_heartbeat_interval(self, interval: Duration) -> (c: Self)
        ensures
            c == (ClusterConfig { heartbeat_interval: interval, ..self }),
    {
        let mut c = self;
        c.heartbeat_interval = interval;
        c
    }

    /// Validate the configuration.
    pub fn validate(&self) -> (r: Result<(), String>)
        ensures
            cluster_config_problem(*self) is None ==> r is Ok,
            cluster_config_problem(*self) matches Some(m) ==> (r matches Err(e) && e@ == m),
    {
        proof {
            reveal_strlit("Cluster name cannot be empty");
            reveal_strlit("At least one MetaServer address is required");
            reveal_strlit("Heartbeat interval must be less than node stale timeout");
        }
        if self.cluster_name.as_str().unicode_len() == 0 {
            return Err(String::from_str("Cluster name cannot be empty"));
        }
        if self.meta_server_addrs.len() == 0 {
            return Err(String::from_str("At least one MetaServer address is required"));
        }
        if duration_nanos(&self.heartbeat_interval) >= duration_nanos(&self.node_stale_timeout) {
            return Err(String::from_str("Heartbeat interval must be less than node stale timeout"));
        }
        Ok(())
    }
}

/// Configuration for a Frontend node.
#[derive(Debug, Clone)]
pub struct FrontendConfig {
    /// Base cluster configuration
    pub cluster: ClusterConfig,
    /// HTTP bind address, as `host:port`
    pub http_addr: String,
    /// gRPC bind address, as `host:port`
    pub grpc_addr: String,
    /// Maximum concurrent queries
    pub max_concurrent_queries: usize,
    /// Query timeout
    pub query_timeout: Duration,
    /// Enable query result caching
    pub enable_query_cache: bool,
    /// Query cache size in MB
    pub query_cache_size_mb: usize,
}

impl Default for FrontendConfig {
    fn default() -> (c: Self)
        ensures
            c.cluster.cluster_name@ == "influxdb3-cluster"@,
            cluster_defaults(c.cluster),
            c.http_addr@ == "0.0.0.0:8181"@,
            c.grpc_addr@ == "0.0.0.0:8182"@,
            c.max_concurrent_queries == 100,
            spec_duration_nanos(c.query_timeout) == 300_000_000_000,
            !c.enable_query_cache,
            c.query_cache_size_mb == 256,
    {
        FrontendConfig {
            cluster: ClusterConfig::default(),
            http_addr: String::from_str("0.0.0.0:8181"),
            grpc_addr: String::from_str("0.0.0.0:8182"),
            max_concurrent_queries: 100,
            query_timeout: duration_from_secs(300),
            enable_query_cache: false,
            query_cache_size_mb: 256,
        }
    }
}

/// Configuration for a Datanode.
#[derive(Debug, Clone)]
pub struct DatanodeConfig {
    /// Base cluster configuration
    pub cluster: ClusterConfig,
    /// Unique ID for this datanode
    pub node_id: u64,
    /// gRPC bind address for internal communication, as `host:port`
    pub grpc_addr: String,
    /// Data directory
    pub data_dir: PathBuf,
    /// Maximum number of regions this node can host
    pub max_regions: usize,
    /// Write buffer size per region
    pub write_buffer_size_mb: usize,
}

impl Default for DatanodeConfig {
    fn default() -> (c: Self)
        ensures
            c.cluster.cluster_name@ == "influxdb3-cluster"@,
            cluster_defaults(c.cluster),
            c.node_id == 0,
            c.grpc_addr@ == "0.0.0.0:8183"@,
            c.max_regions == 100,
            c.write_buffer_size_mb == 256,
    {
        DatanodeConfig::new(0)
    }
}

impl DatanodeConfig {
    /// Create a new DatanodeConfig with the given node ID.
    ///
    /// The data directory is `/var/lib/influxdb3/data`.
    pub fn new(node_id: u64) -> (c: Self)
        ensures
            c.cluster.cluster_name@ == "influxdb3-cluster"@,
            cluster_defaults(c.cluster),
            c.node_id == node_id,
            c.grpc_addr@ == "0.0.0.0:8183"@,
            c.max_regions == 100,
            c.write_buffer_size_mb == 256,
    {
        DatanodeConfig {
            cluster: ClusterConfig::default(),
            node_id,
            grpc_addr: String::from_str("0.0.0.0:8183"),
            data_dir: path_from("/var/lib/influxdb3/data"),
            max_regions: 100,
            write_buffer_size_mb: 256,
        }
    }

    /// Set the gRPC address.
    pub fn with_grpc_addr(self, addr: String) -> (c: Self)
        ensures
            c == (DatanodeConfig { grpc_addr: addr, ..self }),
    {
        let mut c = self;
        c.grpc_addr = addr;
        c
    }

    /// Set the data directory.
    pub fn with_data_dir(self, path: PathBuf) -> (c: Self)
        ensures
            c == (DatanodeConfig { data_dir: path, ..self }),
    {
        let mut c = self;
        c.data_dir = path;
        c
    }
}

/// Configuration for a MetaServer node.
#[derive(Debug, Clone)]
pub struct MetaServerConfig {
    /// Cluster name
    pub cluster_name: String,
    /// gRPC bind address, as `host:port`
    pub grpc_addr: String,
    /// Data directory for metadata storage
    pub data_dir: PathBuf,
    /// Raft peer addresses (for HA mode), as `host:port`
    pub raft_peers: Vec<String>,
    /// Heartbeat timeout for nodes
    pub node_heartbeat_timeout: Duration,
    /// How often to check for stale nodes
    pub node_check_interval: Duration,
    /// Default number of regions for new tables
    pub default_num_regions: usize,
}

impl Default for MetaServerConfig {
    fn default() -> (c: Self)
        ensures
            c.cluster_name@ == "influxdb3-cluster"@,
            c.grpc_addr@ == "0.0.0.0:9000"@,
            c.raft_peers@.len() == 0,
            spec_duration_nanos(c.node_heartbeat_timeout) == 30_000_000_000,
            spec_duration_nanos(c.node_check_interval) == 10_000_000_000,
            c.default_num_regions == 4,
    {
        MetaServerConfig::new(String::from_str("influxdb3-cluster"))
    }
}

impl MetaServerConfig {
    /// Create a new MetaServerConfig.
    ///
    /// The data directory is `/var/lib/influxdb3/meta`.
    pub fn new(cluster_name: String) -> (c: Self)
        ensures
            c.cluster_name == cluster_name,
            c.grpc_addr@ == "0.0.0.0:9000"@,
            c.raft_peers@.len() == 0,
            spec_duration_nanos(c.node_heartbeat_timeout) == 30_000_000_000,
            spec_duration_nanos(c.node_check_interval) == 10_000_000_000,
            c.default_num_regions == 4,
    {
        MetaServerConfig {
            cluster_name,
            grpc_addr: String::from_str("0.0.0.0:9000"),
            data_dir: path_from("/var/lib/influxdb3/meta"),
            raft_peers: Vec::new(),
            node_heartbeat_timeout: duration_from_secs(30),
            node_check_interval: duration_from_secs(10),
            default_num_regions: 4,
        }
    }

    /// Set the gRPC address.
    pub fn with_grpc_addr(self, addr: String) -> (c: Self)
        ensures
            c == (MetaServerConfig { grpc_addr: addr, ..self }),
    {
        let mut c = self;
        c.grpc_addr = addr;
        c
    }

    /// Set the Raft peers.
    pub fn with_raft_peers(self, peers: Vec<String>) -> (c: Self)
        ensures
            c == (MetaServerConfig { raft_peers: peers, ..self }),
    {
        let mut c = self;
        c.raft_peers = peers;
        c
    }

    /// Check if HA mode is enabled (has Raft peers).
    pub fn is_ha_enabled(&self) -> (b: bool)
        ensures
            b == (self.raft_peers@.len() > 0),
    {
        self.raft_peers.len() > 0
    }
}

} // verus!
