use influxdb3_distributed::ids::{NodeId, RegionId};
use influxdb3_distributed::meta_grpc::{
    convert_checked_node_info, convert_node_role, convert_node_status, node_role_to_code, node_status_to_code,
    NodeInfoProto,
};
use influxdb3_distributed::meta_server::MetaServer;
use influxdb3_distributed::node::{NodeInfo, NodeRole, NodeStatus};
use influxdb3_distributed::proto::{ClusterHealth, CreateTableRequest, HeartbeatRequest};
use influxdb3_distributed::region::RegionStatus;
use influxdb3_distributed::region_manager::{make_table_key, RegionManager};
use influxdb3_distributed::error::DistributedError;

fn create_test_nodes() -> Vec<NodeId> {
    vec![NodeId::new(1), NodeId::new(2), NodeId::new(3)]
}

fn create_test_node_info(id: u64) -> NodeInfo {
    NodeInfo::new(NodeId::new(id), format!("127.0.0.1:{}", 8180 + id), NodeRole::Datanode)
}

#[test]
fn test_create_table_regions() {
    let mut manager = RegionManager::with_defaults();
    let nodes = create_test_nodes();

    let regions = manager.create_table_regions("mydb", "cpu", 6, &nodes).unwrap();

    assert_eq!(regions.len(), 6);

    let node1_count = regions.iter().filter(|r| r.node_id == nodes[0]).count();
    let node2_count = regions.iter().filter(|r| r.node_id == nodes[1]).count();
    let node3_count = regions.iter().filter(|r| r.node_id == nodes[2]).count();

    assert_eq!(node1_count, 2);
    assert_eq!(node2_count, 2);
    assert_eq!(node3_count, 2);
}

#[test]
fn test_get_table_regions() {
    let mut manager = RegionManager::with_defaults();
    let nodes = create_test_nodes();

    manager.create_table_regions("mydb", "cpu", 4, &nodes).unwrap();

    let regions = manager.get_table_regions("mydb", "cpu").unwrap();
    assert_eq!(regions.len(), 4);

    let result = manager.get_table_regions("mydb", "nonexistent");
    assert!(result.is_err());
}

#[test]
fn test_assign_region() {
    let mut manager = RegionManager::with_defaults();
    let nodes = create_test_nodes();

    let regions = manager.create_table_regions("mydb", "cpu", 1, &nodes).unwrap();
    let region_id = regions[0].region_id;

    assert_eq!(regions[0].node_id, nodes[0]);

    manager.assign_region(region_id, nodes[1]).unwrap();

    let region = manager.get_region(region_id).unwrap();
    assert_eq!(region.node_id, nodes[1]);
    assert_eq!(region.epoch, 1);
}

#[test]
fn test_find_matching_regions() {
    let mut manager = RegionManager::with_defaults();
    let nodes = create_test_nodes();

    manager.create_table_regions("mydb", "cpu", 4, &nodes).unwrap();

    let regions = manager.find_matching_regions("mydb", "cpu", None, None, None).unwrap();
    assert_eq!(regions.len(), 4);

    let regions = manager.find_matching_regions("mydb", "cpu", None, None, Some(0)).unwrap();
    assert_eq!(regions.len(), 1);
}

#[test]
fn test_find_least_loaded_node() {
    let mut manager = RegionManager::with_defaults();
    let nodes = create_test_nodes();

    manager.create_table_regions("db1", "t1", 3, &[nodes[0]]).unwrap();
    manager.create_table_regions("db1", "t2", 2, &[nodes[1]]).unwrap();

    let least_loaded = manager.find_least_loaded_node(&nodes);
    assert_eq!(least_loaded, Some(nodes[2]));
}

#[test]
fn created_regions_read_back_in_order() {
    let mut manager = RegionManager::with_defaults();
    let nodes = create_test_nodes();
    let created = manager.create_table_regions("db", "mem", 3, &nodes).unwrap();
    let read = manager.get_table_regions("db", "mem").unwrap();
    assert_eq!(created, read);
    assert_eq!(created[0].region_id, RegionId::new(1));
    assert_eq!(created[2].region_id, RegionId::new(3));
    assert_eq!(created[2].partition_range.hash_end, u16::MAX);
    assert_eq!(manager.total_regions(), 3);
    assert_eq!(manager.total_tables(), 1);
    assert_eq!(make_table_key("db", "mem"), "db.mem");
}

#[test]
fn region_manager_errors() {
    let mut manager = RegionManager::with_defaults();
    assert!(matches!(manager.create_table_regions("db", "t", 2, &[]), Err(DistributedError::ClusterNotInitialized)));
    match manager.get_table_regions("db", "none") {
        Err(DistributedError::TableNotFound { database, table }) => {
            assert_eq!(database, "db");
            assert_eq!(table, "none");
        }
        _ => panic!("expected TableNotFound"),
    }
    assert!(matches!(
        manager.get_region(RegionId::new(9)),
        Err(DistributedError::RegionNotFound { region_id: 9 })
    ));
    assert!(manager.assign_region(RegionId::new(9), NodeId::new(1)).is_err());
    assert!(manager.update_region_status(RegionId::new(9), RegionStatus::Offline).is_err());
}

#[test]
fn removing_a_node_takes_its_regions_offline() {
    let mut manager = RegionManager::with_defaults();
    let nodes = create_test_nodes();
    manager.create_table_regions("db", "cpu", 3, &nodes).unwrap();
    let removed = manager.remove_node_regions(nodes[1]);
    assert_eq!(removed, vec![RegionId::new(2)]);
    assert_eq!(manager.get_region(RegionId::new(2)).unwrap().status, RegionStatus::Offline);
    assert!(manager.get_node_regions(nodes[1]).is_empty());
    assert_eq!(manager.get_node_regions(nodes[0]).len(), 1);
    let counts = manager.get_node_region_counts();
    assert_eq!(counts.get(&1), Some(&1));
    assert_eq!(counts.get(&2), None);
}

#[test]
fn database_regions_and_tables() {
    let mut manager = RegionManager::with_defaults();
    let nodes = create_test_nodes();
    manager.create_table_regions("db", "cpu", 2, &nodes).unwrap();
    manager.create_table_regions("db", "mem", 1, &nodes).unwrap();
    manager.create_table_regions("other", "cpu", 1, &nodes).unwrap();
    let mut ids: Vec<u64> = manager.get_database_regions("db").iter().map(|r| r.region_id.get()).collect();
    ids.sort();
    assert_eq!(ids, vec![1, 2, 3]);
    let mut tables = manager.get_database_tables("db");
    tables.sort();
    assert_eq!(tables, vec!["cpu".to_string(), "mem".to_string()]);
}

#[test]
fn test_register_datanode() {
    let mut server = MetaServer::with_defaults();

    let node_info = create_test_node_info(0);
    let response = server.register_datanode(node_info, 1000).unwrap();

    assert!(response.success);
    assert!(response.node_id.get() > 0);

    let node = server.get_node(response.node_id).unwrap();
    assert_eq!(node.status, NodeStatus::Online);
}

#[test]
fn test_heartbeat() {
    let mut server = MetaServer::with_defaults();

    let node_info = create_test_node_info(1);
    server.register_datanode(node_info, 1000).unwrap();

    let request = HeartbeatRequest { node_id: NodeId::new(1), status: NodeStatus::Online, regions: vec![] };

    let response = server.heartbeat(request, 2000).unwrap();
    assert!(response.success);
    assert_eq!(server.get_node(NodeId::new(1)).unwrap().last_heartbeat_ms, 2000);
}

#[test]
fn heartbeat_of_unknown_node_is_refused() {
    let mut server = MetaServer::with_defaults();
    let request = HeartbeatRequest { node_id: NodeId::new(5), status: NodeStatus::Online, regions: vec![] };
    assert!(matches!(server.heartbeat(request, 1), Err(DistributedError::NodeNotFound { node_id: 5 })));
}

#[test]
fn test_create_table() {
    let mut server = MetaServer::with_defaults();

    for id in 1..=3 {
        let node_info = create_test_node_info(id);
        server.register_datanode(node_info, 1000).unwrap();
    }

    let request = CreateTableRequest {
        database: "testdb".to_string(),
        table: "cpu".to_string(),
        num_regions: 6,
        partition_keys: vec!["host".to_string()],
    };

    let response = server.create_table(request).unwrap();
    assert!(response.success);
    assert_eq!(response.regions.len(), 6);

    let regions = server.get_table_regions("testdb", "cpu").unwrap();
    assert_eq!(regions.len(), 6);
}

#[test]
fn test_get_table_location() {
    let mut server = MetaServer::with_defaults();

    let node_info = create_test_node_info(1);
    server.register_datanode(node_info, 1000).unwrap();

    let request = CreateTableRequest {
        database: "testdb".to_string(),
        table: "cpu".to_string(),
        num_regions: 4,
        partition_keys: vec![],
    };
    server.create_table(request).unwrap();

    let location = server.get_table_location("testdb", "cpu").unwrap();
    assert_eq!(location.database, "testdb");
    assert_eq!(location.table, "cpu");
    assert_eq!(location.regions.len(), 4);
}

#[test]
fn test_cluster_health() {
    let mut server = MetaServer::with_defaults();

    let info = server.get_cluster_info().unwrap();
    assert_eq!(info.health, ClusterHealth::Critical);

    let node_info = create_test_node_info(1);
    server.register_datanode(node_info, 1000).unwrap();

    let info = server.get_cluster_info().unwrap();
    assert_eq!(info.health, ClusterHealth::Healthy);

    server.update_node_status(NodeId::new(1), NodeStatus::Offline).unwrap();

    let info = server.get_cluster_info().unwrap();
    assert_eq!(info.health, ClusterHealth::Critical);
}

#[test]
fn create_table_without_datanodes_fails() {
    let mut server = MetaServer::with_defaults();
    let request = CreateTableRequest {
        database: "db".to_string(),
        table: "t".to_string(),
        num_regions: 2,
        partition_keys: vec![],
    };
    let response = server.create_table(request).unwrap();
    assert!(!response.success);
    assert!(response.regions.is_empty());
    assert_eq!(response.error_message, Some("No online datanodes available".to_string()));
}

#[test]
fn server_assigns_regions_and_counts_epochs() {
    let mut server = MetaServer::with_defaults();
    server.register_datanode(create_test_node_info(1), 1).unwrap();
    server.register_datanode(create_test_node_info(2), 1).unwrap();
    let request = CreateTableRequest {
        database: "db".to_string(),
        table: "t".to_string(),
        num_regions: 2,
        partition_keys: vec![],
    };
    let created = server.create_table(request).unwrap().regions;
    let id = created[0].region_id;
    server.assign_region(id, NodeId::new(2)).unwrap();
    let r = server.get_region(id).unwrap();
    assert_eq!(r.node_id, NodeId::new(2));
    assert_eq!(r.epoch, 1);
    assert!(server.assign_region(id, NodeId::new(9)).is_err());
    assert_eq!(server.get_all_nodes().unwrap().len(), 2);
    assert_eq!(server.get_online_datanodes().unwrap().len(), 2);
    assert_eq!(server.get_database_regions("db").unwrap().len(), 2);
}

#[test]
fn test_status_conversion() {
    assert_eq!(convert_node_status(1), NodeStatus::Starting);
    assert_eq!(convert_node_status(2), NodeStatus::Online);
    assert_eq!(convert_node_status(999), NodeStatus::Offline);
}

#[test]
fn test_role_conversion() {
    assert_eq!(convert_node_role(1), NodeRole::Frontend);
    assert_eq!(convert_node_role(2), NodeRole::Datanode);
    assert_eq!(convert_node_role(3), NodeRole::MetaServer);
}

#[test]
fn codes_round_trip() {
    for s in [NodeStatus::Starting, NodeStatus::Online, NodeStatus::Offline, NodeStatus::Maintenance, NodeStatus::Draining] {
        assert_eq!(convert_node_status(node_status_to_code(s)), s);
    }
    for r in [NodeRole::Frontend, NodeRole::Datanode, NodeRole::MetaServer] {
        assert_eq!(convert_node_role(node_role_to_code(r)), r);
    }
}

fn node_proto(http_addr: Option<&str>) -> NodeInfoProto {
    NodeInfoProto {
        node_id: 7,
        grpc_addr: "10.0.0.1:8082".to_string(),
        http_addr: http_addr.map(|a| a.to_string()),
        node_role: 2,
        status: 2,
        regions: vec![3, 4],
        last_heartbeat_ms: 99,
    }
}

#[test]
fn checked_node_info_reports_address_errors() {
    let bad = "invalid socket address syntax".to_string();
    assert_eq!(
        convert_checked_node_info(&node_proto(None), Some(bad.clone()), None).err(),
        Some(bad.clone())
    );
    assert_eq!(
        convert_checked_node_info(&node_proto(Some("x")), None, Some("http".to_string())).err(),
        Some("http".to_string())
    );
    let info = convert_checked_node_info(&node_proto(None), None, Some("ignored".to_string())).unwrap();
    assert_eq!(info.node_id, NodeId::new(7));
    assert_eq!(info.grpc_addr, "10.0.0.1:8082");
    assert_eq!(info.http_addr, None);
    assert_eq!(info.status, NodeStatus::Online);
    assert_eq!(info.node_mode, NodeRole::Datanode);
    assert_eq!(info.regions, vec![RegionId::new(3), RegionId::new(4)]);
    assert_eq!(info.last_heartbeat_ms, 99);
}
