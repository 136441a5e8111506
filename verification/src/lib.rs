//! Distributed query and write framework for InfluxDB 3: cluster metadata,
//! region partitioning, write routing and distributed query planning.
//!
//! The network, async and Arrow/DataFusion plumbing lives outside this crate;
//! what stands here is the logic that decides: how regions partition a table,
//! how the metadata service keeps its indexes consistent, where a write goes,
//! and how a query plan is split across nodes.

pub mod decimal;
pub mod error;
pub mod ids;
pub mod region;
pub mod time;
pub mod node;
pub mod dmap;
pub mod region_manager;
pub mod config;
pub mod proto;
pub mod meta_server;
pub mod line_protocol;
pub mod write_routing;
pub mod types;
pub mod plan;
pub mod merger;
pub mod optimizer;
pub mod planner;
pub mod coordinator;
pub mod meta_grpc;
pub mod datanode_grpc;
pub mod meta_client;
pub mod join;
pub mod flight;
pub mod plan_serde;
pub mod remote_client;
pub mod expr_converter;
pub mod analyzer;
pub mod local_executor;
pub mod datanode_server;
pub mod http_scan;
