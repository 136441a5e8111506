use std::time::Duration;

use influxdb3_distributed::config::{ClusterConfig, DatanodeConfig, MetaServerConfig, NodeMode};
use influxdb3_distributed::datanode_grpc::classify_query_type;
use influxdb3_distributed::error::DistributedError;
use influxdb3_distributed::flight::{
    classify_action, classify_flight_data, list_actions, FlightAction, FlightDataKind, FlightServiceConfig,
};
use influxdb3_distributed::join::{
    DistributedJoinOptimizer, JoinMode, JoinNodeAction, PhysicalJoinOptimizer, Precision, SizeStatistics,
    BROADCAST_THRESHOLD,
};
use influxdb3_distributed::merger::{limit_step, AggregateFunction, LimitStep, ResultMerger};
use influxdb3_distributed::meta_client::{DatanodeClientBuilder, MetaClientBuilder};
use influxdb3_distributed::node::NodeRole;
use influxdb3_distributed::remote_client::{
    cancel_command, query_status_from_error, query_status_from_flight_info, status_command, QueryStatus,
};

#[test]
fn test_node_mode_parsing() {
    assert_eq!("standalone".parse::<NodeMode>().unwrap(), NodeMode::Standalone);
    assert_eq!("frontend".parse::<NodeMode>().unwrap(), NodeMode::Frontend);
    assert_eq!("datanode".parse::<NodeMode>().unwrap(), NodeMode::Datanode);
    assert_eq!("metaserver".parse::<NodeMode>().unwrap(), NodeMode::MetaServer);
    assert_eq!("meta".parse::<NodeMode>().unwrap(), NodeMode::MetaServer);
}

#[test]
fn test_node_mode_is_distributed() {
    assert!(!NodeMode::Standalone.is_distributed());
    assert!(NodeMode::Frontend.is_distributed());
    assert!(NodeMode::Datanode.is_distributed());
    assert!(NodeMode::MetaServer.is_distributed());
}

#[test]
fn test_cluster_config_validation() {
    let config = ClusterConfig::new("test".to_string());
    assert!(config.validate().is_err());

    let config = config.add_meta_server("127.0.0.1:9000".to_string());
    assert!(config.validate().is_ok());
}

#[test]
fn node_mode_parsing_ignores_case_and_reports_unknown() {
    assert_eq!("FrontEnd".parse::<NodeMode>().unwrap(), NodeMode::Frontend);
    assert_eq!(
        "bogus".parse::<NodeMode>().unwrap_err(),
        "Unknown node mode: bogus. Valid modes are: standalone, frontend, datanode, metaserver"
    );
    assert_eq!(NodeMode::default(), NodeMode::Standalone);
    assert_eq!(NodeMode::MetaServer.to_display_string(), "metaserver");
    assert_eq!(NodeMode::Standalone.to_role(), None);
    assert_eq!(NodeMode::Datanode.to_role(), Some(NodeRole::Datanode));
}

#[test]
fn cluster_config_errors_name_the_first_problem() {
    let empty = ClusterConfig::new(String::new());
    assert_eq!(empty.validate().unwrap_err(), "Cluster name cannot be empty");
    let no_meta = ClusterConfig::default();
    assert_eq!(no_meta.cluster_name, "influxdb3-cluster");
    assert_eq!(no_meta.validate().unwrap_err(), "At least one MetaServer address is required");
    let slow = ClusterConfig::new("c".to_string())
        .add_meta_server("m:1".to_string())
        .with_heartbeat_interval(Duration::from_secs(30));
    assert_eq!(slow.validate().unwrap_err(), "Heartbeat interval must be less than node stale timeout");
    assert_eq!(slow.connect_timeout, Duration::from_secs(5));
    assert_eq!(slow.retry_backoff_base, Duration::from_millis(100));
    assert_eq!(slow.max_retries, 3);
}

#[test]
fn test_datanode_config() {
    let config = DatanodeConfig::new(1).with_grpc_addr("0.0.0.0:8183".to_string());
    assert_eq!(config.node_id, 1);
    assert_eq!(config.grpc_addr, "0.0.0.0:8183");
}

#[test]
fn meta_server_config_ha() {
    let c = MetaServerConfig::new("c".to_string());
    assert!(!c.is_ha_enabled());
    let c = c.with_raft_peers(vec!["a:1".to_string()]);
    assert!(c.is_ha_enabled());
}

#[test]
fn test_flight_config_default() {
    let config = FlightServiceConfig::default();
    assert_eq!(config.max_concurrent_queries, 100);
    assert_eq!(config.query_timeout_secs, 300);
}

#[test]
fn flight_actions_and_data() {
    assert_eq!(classify_action("health_check"), FlightAction::HealthCheck);
    assert_eq!(classify_action("cancel_query"), FlightAction::CancelQuery);
    assert_eq!(
        classify_action("drop"),
        FlightAction::Unimplemented("Action 'drop' not implemented".to_string())
    );
    let actions = list_actions();
    assert_eq!(actions.len(), 2);
    assert_eq!(actions[0].0, "health_check");
    assert_eq!(actions[1].1, "Cancel an executing query");
    assert_eq!(classify_flight_data(10, 0), FlightDataKind::Schema);
    assert_eq!(classify_flight_data(10, 5), FlightDataKind::Batches);
    assert_eq!(classify_flight_data(0, 0), FlightDataKind::Empty);
}

#[test]
fn test_query_type_handling() {
    assert_eq!(0, 0);
    assert_eq!(1, 1);
    assert_eq!(2, 2);
}

#[test]
fn query_type_codes() {
    assert!(classify_query_type(0).is_ok());
    assert!(classify_query_type(1).is_ok());
    assert!(classify_query_type(2).is_ok());
    assert!(classify_query_type(7).is_err());
}

#[test]
fn test_query_status_enum() {
    assert_eq!(QueryStatus::Pending, QueryStatus::Pending);
    assert_ne!(QueryStatus::Pending, QueryStatus::Running);

    let status = QueryStatus::Running;
    assert_eq!(format!("{:?}", status), "Running");
}

#[test]
fn query_status_from_replies() {
    assert_eq!(query_status_from_flight_info(0), QueryStatus::Pending);
    assert_eq!(query_status_from_flight_info(2), QueryStatus::Completed);
    assert_eq!(query_status_from_error("query not found"), QueryStatus::Pending);
    assert_eq!(query_status_from_error("execution failed"), QueryStatus::Failed);
    assert_eq!(query_status_from_error("internal error"), QueryStatus::Failed);
    assert_eq!(query_status_from_error("was cancelled"), QueryStatus::Cancelled);
    assert_eq!(query_status_from_error("busy"), QueryStatus::Running);
    assert_eq!(status_command("q1"), "status:q1");
    assert_eq!(cancel_command("q1"), "cancel:q1");
}

#[test]
fn test_aggregate_function_parsing() {
    assert_eq!(AggregateFunction::from_name("sum"), Some(AggregateFunction::Sum));
    assert_eq!(AggregateFunction::from_name("COUNT"), Some(AggregateFunction::Count));
    assert_eq!(AggregateFunction::from_name("unknown"), None);
}

#[test]
fn test_aggregate_decomposable() {
    assert!(AggregateFunction::Sum.is_decomposable());
    assert!(AggregateFunction::Count.is_decomposable());
    assert!(AggregateFunction::Avg.is_decomposable());
}

#[test]
fn merger_config_and_limits() {
    let m = ResultMerger::new();
    assert_eq!(m.config().memory_limit, 256 * 1024 * 1024);
    assert_eq!(AggregateFunction::from_name("Avg"), Some(AggregateFunction::Avg));
    assert_eq!(limit_step(0, 5, 10), LimitStep::TakeAll);
    assert_eq!(limit_step(8, 5, 10), LimitStep::TakePrefix(2));
    assert_eq!(limit_step(10, 5, 10), LimitStep::Stop);
}

#[test]
fn join_optimizer_test_optimizer_creation() {
    let optimizer = DistributedJoinOptimizer::new();
    assert!(optimizer.enable_filter_pushdown);
    assert!(optimizer.enable_predicate_extraction);
    assert!(optimizer.enable_hash_join);
    assert!(optimizer.enable_broadcast_join);
    assert_eq!(optimizer.broadcast_threshold, BROADCAST_THRESHOLD);
}

#[test]
fn test_custom_broadcast_threshold() {
    let optimizer = DistributedJoinOptimizer::new().with_broadcast_threshold(50 * 1024 * 1024);
    assert_eq!(optimizer.broadcast_threshold, 50 * 1024 * 1024);
}

#[test]
fn test_size_estimation() {
    let stats = SizeStatistics { num_rows: Precision::Exact(1000), total_byte_size: Precision::Exact(50000) };
    assert_eq!(DistributedJoinOptimizer::estimate_size(&stats), 50000);

    let stats = SizeStatistics { num_rows: Precision::Exact(1000), total_byte_size: Precision::Absent };
    assert_eq!(DistributedJoinOptimizer::estimate_size(&stats), 100000);
}

#[test]
fn join_broadcast_decisions() {
    let o = DistributedJoinOptimizer::new();
    assert_eq!(o.broadcast_mode(10, 1000), JoinMode::CollectLeft);
    assert_eq!(o.broadcast_mode(1000, 10), JoinMode::Keep);
    assert_eq!(o.broadcast_mode(BROADCAST_THRESHOLD, usize::MAX), JoinMode::Keep);
    assert_eq!(o.join_node_action("HashJoinExec"), JoinNodeAction::TryBroadcast);
    assert_eq!(o.join_node_action("SortMergeJoinExec"), JoinNodeAction::ConvertToHash);
    assert_eq!(o.join_node_action("FilterExec"), JoinNodeAction::Keep);
    let absent = SizeStatistics { num_rows: Precision::Absent, total_byte_size: Precision::Absent };
    assert_eq!(DistributedJoinOptimizer::estimate_size(&absent), usize::MAX);
}

#[test]
fn physical_join_optimizer_test_optimizer_creation() {
    let optimizer = PhysicalJoinOptimizer::new();
    let _ = optimizer;
}

#[test]
fn test_builder() {
    let client = MetaClientBuilder::new()
        .add_addr("127.0.0.1:9000".to_string())
        .add_addr("127.0.0.1:9001".to_string())
        .connect_timeout(Duration::from_secs(10))
        .build()
        .unwrap();

    assert_eq!(client.meta_addrs().len(), 2);
}

#[test]
fn test_builder_requires_addrs() {
    let result = MetaClientBuilder::new().build();
    assert!(result.is_err());
}

#[test]
fn test_current_addr() {
    let client = MetaClientBuilder::new().add_addr("127.0.0.1:9000".to_string()).build().unwrap();
    let addr = client.current_addr();
    assert_eq!(addr, Some("127.0.0.1:9000".to_string()));
}

#[test]
fn test_try_next_addr() {
    let mut client = MetaClientBuilder::new()
        .add_addr("127.0.0.1:9000".to_string())
        .add_addr("127.0.0.1:9001".to_string())
        .build()
        .unwrap();

    assert_eq!(client.current_addr(), Some("127.0.0.1:9000".to_string()));
    client.try_next_addr();
    assert_eq!(client.current_addr(), Some("127.0.0.1:9001".to_string()));
    client.try_next_addr();
    assert_eq!(client.current_addr(), Some("127.0.0.1:9000".to_string()));
}

#[test]
fn builder_error_message() {
    match MetaClientBuilder::new().build() {
        Err(DistributedError::ConfigError(m)) => assert_eq!(m, "At least one MetaServer address is required"),
        _ => panic!("expected a configuration error"),
    }
}

#[test]
fn test_client_builder() {
    let b = DatanodeClientBuilder::new()
        .connect_timeout(Duration::from_secs(10))
        .request_timeout(Duration::from_secs(60));
    let (c, r) = b.resolved_timeouts();
    assert_eq!(c, Duration::from_secs(10));
    assert_eq!(r, Duration::from_secs(60));
    let (c, r) = DatanodeClientBuilder::new().resolved_timeouts();
    assert_eq!(c, Duration::from_secs(5));
    assert_eq!(r, Duration::from_secs(30));
}
