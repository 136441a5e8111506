use influxdb3_distributed::analyzer::{DistPlannerAnalyzer, DistPlannerOptions};
use influxdb3_distributed::config::DatanodeConfig;
use influxdb3_distributed::datanode_server::DatanodeServer;
use influxdb3_distributed::node::NodeStatus;
use influxdb3_distributed::plan_serde::LogicalPlanRepr;
use influxdb3_distributed::proto::{WritePrecision, WriteRequest};
use influxdb3_distributed::coordinator::{
    combine_node_results, first_stage_tasks, group_regions_by_node, group_tasks_by_node,
};
use influxdb3_distributed::error::DistributedError;
use influxdb3_distributed::expr_converter::{ExprToSqlConverter, SqlExpr, SqlOperator, SqlScalar};
use influxdb3_distributed::http_scan;
use influxdb3_distributed::ids::{NodeId, RegionId};
use influxdb3_distributed::line_protocol::extract_table_names;
use influxdb3_distributed::local_executor::LocalExecutor;
use influxdb3_distributed::merger::{
    final_steps, AggregateFunction, MergeStep, PartialRow, PartialValue, ResultMerger,
};
use influxdb3_distributed::optimizer::{DistributedOptimizer, FinalOperation};
use influxdb3_distributed::plan::{JoinKind, PlanExpr, PlanNode, PlanSortExpr};
use influxdb3_distributed::plan_serde::{
    check_physical_plan_frame, frame_logical_plan, frame_physical_plan, logical_plan_json,
    read_logical_plan_frame, PlanFrameError,
};
use influxdb3_distributed::planner::{DistributedPlan, ExecutionStage, ScanTask};
use influxdb3_distributed::region::{PartitionRange, RegionInfo};
use influxdb3_distributed::remote_client::encode_ticket;
use influxdb3_distributed::types;
use influxdb3_distributed::write_routing::{select_write_target, WritePlan};

fn region(id: u64, table: &str, node: u64) -> RegionInfo {
    RegionInfo::new(RegionId::new(id), "db".to_string(), table.to_string(), NodeId::new(node), PartitionRange::full())
}

fn bare_scan(table: &str) -> PlanNode {
    PlanNode::TableScan { table_name: table.to_string(), table: table.to_string(), projection: None }
}

fn scan(table: &str) -> PlanNode {
    PlanNode::TableScan { table_name: format!("db.{}", table), table: table.to_string(), projection: None }
}

fn column(name: &str) -> PlanExpr {
    PlanExpr::Column { name: name.to_string() }
}

#[test]
fn test_extract_table_names() {
    let lp = "\ncpu,host=server1 usage=0.5\nmemory,host=server1 used=1024\ncpu,host=server2 usage=0.8\ndisk,host=server1 free=500\n";
    let tables = extract_table_names(lp);
    assert_eq!(tables, vec!["cpu", "memory", "disk"]);
}

#[test]
fn table_names_skip_comments_and_blank_lines() {
    let lp = "# comment\n\n  weather temp=1\nweather,city=x temp=2\n";
    assert_eq!(extract_table_names(lp), vec!["weather"]);
    assert!(extract_table_names("").is_empty());
}

#[test]
fn write_plan_routes_each_table() {
    let mut plan = WritePlan::start("db", "cpu v=1\nmem v=2").unwrap();
    assert_eq!(plan.pending_table(), Some("cpu".to_string()));
    plan.accept_regions(&[region(1, "cpu", 7)]).unwrap();
    assert_eq!(plan.pending_table(), Some("mem".to_string()));
    plan.accept_regions(&[region(2, "mem", 7)]).unwrap();
    assert_eq!(plan.pending_table(), None);
    let batches = plan.batches();
    assert_eq!(batches.len(), 2);
    assert_eq!(batches[0].node_id, NodeId::new(7));
    assert_eq!(batches[0].data(), "cpu v=1\nmem v=2");
}

#[test]
fn write_plan_errors() {
    assert!(matches!(WritePlan::start("db", "# nothing"), Err(DistributedError::WriteError(_))));
    let mut plan = WritePlan::start("db", "cpu v=1").unwrap();
    assert!(matches!(plan.accept_regions(&[]), Err(DistributedError::TableNotFound { .. })));
    let mut offline = region(1, "cpu", 1);
    offline.status = influxdb3_distributed::region::RegionStatus::Offline;
    match plan.accept_regions(&[offline]) {
        Err(DistributedError::WriteError(m)) => assert_eq!(m, "No writable region for table db.cpu"),
        other => panic!("unexpected {:?}", other),
    }
    assert!(select_write_target(&[], "db", "cpu").is_err());
    assert_eq!(
        select_write_target(&[region(3, "cpu", 2)], "db", "cpu").unwrap(),
        (NodeId::new(2), RegionId::new(3))
    );
}

#[test]
fn test_push_down_rewriter_can_push_down() {
    let analyzer = DistPlannerAnalyzer::new();
    let table_scan = scan("test");
    assert!(analyzer.can_push_down(&table_scan));
    let projection = PlanNode::Projection { exprs: vec![column("id")], input: Box::new(scan("test")) };
    assert!(analyzer.can_push_down(&projection));
}

#[test]
fn analyzer_options_and_joins() {
    let a = DistPlannerAnalyzer::with_options(DistPlannerOptions { allow_query_fallback: false });
    assert!(!a.options().allow_query_fallback);
    assert!(DistPlannerAnalyzer::default().options().allow_query_fallback);
    let join = PlanNode::Join { join_type: JoinKind::Inner, left: Box::new(scan("a")), right: Box::new(scan("b")) };
    assert!(!a.can_push_down(&join));
    assert!(!a.can_push_down(&PlanNode::Other { kind: "Union".to_string(), inputs: vec![] }));
}

#[test]
fn optimizer_test_optimizer_creation() {
    let optimizer = DistributedOptimizer::new();
    assert!(optimizer.config().enable_predicate_pushdown);
    assert!(optimizer.config().enable_projection_pushdown);
    assert!(optimizer.config().enable_aggregate_pushdown);
}

#[test]
fn test_can_partial_aggregate() {
    let optimizer = DistributedOptimizer::new();
    let sum_expr = PlanExpr::AggregateCall { function: "sum".to_string() };
    assert!(optimizer.can_partial_aggregate(&vec![sum_expr]));
    let count_expr = PlanExpr::AggregateCall { function: "count".to_string() };
    assert!(optimizer.can_partial_aggregate(&vec![count_expr]));
}

#[test]
fn test_extract_predicates() {
    let optimizer = DistributedOptimizer::new();
    let pred = PlanExpr::Other { text: "x > 5".to_string() };
    assert_eq!(optimizer.extract_predicates(&pred).len(), 1);
    let compound = PlanExpr::And {
        left: Box::new(PlanExpr::Other { text: "x > 5".to_string() }),
        right: Box::new(PlanExpr::Other { text: "y < 10".to_string() }),
    };
    assert_eq!(optimizer.extract_predicates(&compound).len(), 2);
}

#[test]
fn test_is_distributable() {
    let optimizer = DistributedOptimizer::new();
    let single = vec![("test_table".to_string(), vec![region(1, "test_table", 1)])];
    assert!(!optimizer.is_distributable(&bare_scan("test_table"), &single));
    let multi = vec![(
        "multi_region_table".to_string(),
        vec![region(1, "multi_region_table", 1), region(2, "multi_region_table", 1)],
    )];
    assert!(optimizer.is_distributable(&bare_scan("multi_region_table"), &multi));
}

#[test]
fn final_steps_of_operations() {
    let op = FinalOperation::SortLimit {
        sort_exprs: vec![
            PlanSortExpr { expr: column("time"), asc: false, nulls_first: true },
            PlanSortExpr { expr: PlanExpr::Other { text: "a + b".to_string() }, asc: true, nulls_first: false },
        ],
        limit: Some(5),
    };
    let steps = final_steps(&op);
    assert_eq!(steps.len(), 2);
    match &steps[0] {
        MergeStep::Sort(cols) => {
            assert_eq!(cols.len(), 1);
            assert_eq!(cols[0].name, "time");
            assert!(cols[0].descending);
            assert!(cols[0].nulls_first);
        }
        _ => panic!("expected a sort"),
    }
    assert!(matches!(steps[1], MergeStep::Limit(5)));
    assert!(final_steps(&FinalOperation::Union).is_empty());
    assert!(matches!(final_steps(&FinalOperation::Limit(3))[0], MergeStep::Limit(3)));
}

#[test]
fn final_aggregate_combines_by_group_columns() {
    let op = FinalOperation::FinalAggregate {
        group_by: vec![column("host"), PlanExpr::Other { text: "date_bin(time)".to_string() }],
        aggregates: vec![PlanExpr::AggregateCall { function: "sum".to_string() }],
    };
    let steps = final_steps(&op);
    assert_eq!(steps.len(), 1);
    match &steps[0] {
        MergeStep::Aggregate(cols) => assert_eq!(cols, &vec!["host".to_string()]),
        _ => panic!("expected an aggregate step"),
    }
}

fn partial(key: &[&str], values: &[(Option<i64>, u64)]) -> PartialRow {
    PartialRow {
        key: key.iter().map(|k| k.to_string()).collect(),
        values: values.iter().map(|(v, c)| PartialValue { value: *v, count: *c }).collect(),
    }
}

#[test]
fn partial_aggregates_combine_per_group() {
    let fs = vec![
        AggregateFunction::Sum,
        AggregateFunction::Count,
        AggregateFunction::Min,
        AggregateFunction::Max,
        AggregateFunction::Avg,
    ];
    let rows = vec![
        partial(&["a"], &[(Some(10), 2), (Some(2), 2), (Some(3), 2), (Some(7), 2), (Some(10), 2)]),
        partial(&["b"], &[(Some(5), 1), (Some(1), 1), (Some(5), 1), (Some(5), 1), (Some(5), 1)]),
        partial(&["a"], &[(Some(-4), 3), (Some(3), 3), (Some(-4), 3), (Some(1), 3), (Some(-4), 3)]),
        partial(&["a"], &[(None, 0), (Some(0), 0), (None, 0), (None, 0), (None, 0)]),
    ];
    let groups = ResultMerger::new().merge_aggregates(&rows, &fs);
    assert_eq!(groups.len(), 2);
    assert_eq!(groups[0].key, vec!["a".to_string()]);
    assert_eq!(groups[1].key, vec!["b".to_string()]);
    let a = &groups[0].values;
    assert_eq!(a[0].value, Some(6));
    assert_eq!(a[1].value, Some(5));
    assert_eq!(a[2].value, Some(-4));
    assert_eq!(a[3].value, Some(7));
    assert_eq!((a[4].value, a[4].count), (Some(6), 5));
    assert_eq!(a[0].count, 5);
    let b = &groups[1].values;
    assert_eq!((b[0].value, b[2].value, b[3].value, b[4].count), (Some(5), Some(5), Some(5), 1));
}

#[test]
fn partial_aggregates_without_grouping_form_one_row() {
    let fs = vec![AggregateFunction::Count, AggregateFunction::Max];
    let rows = vec![
        partial(&[], &[(Some(4), 4), (Some(9), 4)]),
        partial(&[], &[(Some(6), 6), (Some(i64::MAX), 6)]),
        partial(&[], &[(Some(i64::MAX), 1), (None, 1)]),
    ];
    let groups = ResultMerger::new().merge_aggregates(&rows, &fs);
    assert_eq!(groups.len(), 1);
    assert!(groups[0].key.is_empty());
    assert_eq!(groups[0].values[0].value, Some(10 + i64::MAX as i128));
    assert_eq!(groups[0].values[1].value, Some(i64::MAX as i128));
    assert_eq!(groups[0].values[1].count, 11);
    assert!(ResultMerger::new().merge_aggregates(&vec![], &fs).is_empty());
}

#[test]
fn coordinator_groups_and_combines() {
    let tasks = vec![
        ScanTask { table: "cpu".to_string(), region_id: RegionId::new(1), node_id: NodeId::new(2) },
        ScanTask { table: "cpu".to_string(), region_id: RegionId::new(2), node_id: NodeId::new(1) },
        ScanTask { table: "mem".to_string(), region_id: RegionId::new(3), node_id: NodeId::new(2) },
    ];
    let groups = group_tasks_by_node(tasks.clone());
    let sizes: Vec<(u64, usize)> = groups.iter().map(|(n, t)| (n.get(), t.len())).collect();
    assert_eq!(sizes.iter().map(|(_, s)| *s).sum::<usize>(), 3);
    assert!(sizes.contains(&(2, 2)));
    assert!(sizes.contains(&(1, 1)));
    let stages = vec![ExecutionStage::Scan { tasks }];
    assert_eq!(first_stage_tasks(&stages).unwrap().len(), 3);
    assert!(first_stage_tasks(&vec![]).is_err());
    let combined: Result<Vec<u8>, DistributedError> = combine_node_results(vec![Ok(vec![1]), Ok(vec![2, 3])]);
    assert_eq!(combined.unwrap(), vec![1, 2, 3]);
    let failed: Result<Vec<u8>, DistributedError> =
        combine_node_results(vec![Ok(vec![1]), Err(DistributedError::Timeout("t".to_string()))]);
    assert!(matches!(failed, Err(DistributedError::Timeout(_))));
}

#[test]
fn test_distributed_plan_is_methods() {
    let local = DistributedPlan::Local { plan: scan("t") };
    assert!(local.is_local());
    assert!(!local.is_distributed());
    let single = DistributedPlan::SingleNode { node_id: NodeId::new(4), plan: scan("t") };
    assert!(single.is_single_node());
    assert_eq!(single.single_node_target(), Some(NodeId::new(4)));
    assert_eq!(single.involved_nodes(), vec![NodeId::new(4)]);
}

#[test]
fn logical_plan_frame_round_trip() {
    let json = r#"{"plan_type":"TableScan"}"#;
    let framed = frame_logical_plan(json);
    assert_eq!(&framed[0..4], b"DFPL");
    assert_eq!(framed[4], 1);
    assert_eq!(&framed[5..9], &(json.len() as u32).to_le_bytes());
    assert_eq!(read_logical_plan_frame(&framed).unwrap(), json.as_bytes());
    assert_eq!(logical_plan_json(&framed).unwrap(), json);
}

#[test]
fn logical_plan_frame_errors() {
    assert_eq!(read_logical_plan_frame(b"DFPL"), Err(PlanFrameError::TooShort));
    assert_eq!(read_logical_plan_frame(b"XXXX\x01\x00\x00\x00\x00"), Err(PlanFrameError::WrongMagic));
    assert_eq!(read_logical_plan_frame(b"DFPL\x02\x00\x00\x00\x00"), Err(PlanFrameError::UnsupportedVersion(2)));
    assert_eq!(read_logical_plan_frame(b"DFPL\x01\x05\x00\x00\x00ab"), Err(PlanFrameError::Truncated));
    assert_eq!(read_logical_plan_frame(b"DFPL\x01\x00\x00\x00\x00").unwrap(), Vec::<u8>::new());
    match logical_plan_json(b"DFPL\x07\x00\x00\x00\x00") {
        Err(DistributedError::PlanDeserialization(m)) => assert_eq!(m, "Unsupported plan version: 7"),
        other => panic!("unexpected {:?}", other),
    }
    match logical_plan_json(b"DFPL\x01\x01\x00\x00\x00\xff") {
        Err(DistributedError::PlanDeserialization(m)) => assert!(!m.is_empty()),
        other => panic!("unexpected {:?}", other),
    }
}

#[test]
fn physical_plan_frame() {
    let framed = frame_physical_plan("Exec", "{}");
    assert_eq!(&framed[0..5], b"DFPP\x01");
    assert_eq!(&framed[5..9], &4u32.to_le_bytes());
    assert_eq!(&framed[9..13], b"Exec");
    assert_eq!(&framed[13..17], &2u32.to_le_bytes());
    assert_eq!(&framed[17..], b"{}");
    match check_physical_plan_frame(&framed) {
        DistributedError::PlanDeserialization(m) => {
            assert_eq!(m, "Physical plan deserialization requires datafusion-proto")
        }
        other => panic!("unexpected {:?}", other),
    }
    match check_physical_plan_frame(b"DFPL\x01\x00\x00\x00\x00") {
        DistributedError::PlanDeserialization(m) => assert_eq!(m, "Invalid physical plan format: wrong magic bytes"),
        other => panic!("unexpected {:?}", other),
    }
}

#[test]
fn ticket_encoding() {
    let ids = vec![types::RegionId::new(1), types::RegionId::new(0x0102)];
    let ticket = encode_ticket("q", &ids, &[9, 8]).unwrap();
    let mut expected: Vec<u8> = vec![1, 0, 0, 0, b'q', 2, 0, 0, 0];
    expected.extend_from_slice(&1u64.to_le_bytes());
    expected.extend_from_slice(&0x0102u64.to_le_bytes());
    expected.extend_from_slice(&[2, 0, 0, 0, 9, 8]);
    assert_eq!(ticket, expected);
}

fn lit(v: SqlScalar) -> Box<SqlExpr> {
    Box::new(SqlExpr::Literal(v))
}

fn col(name: &str) -> Box<SqlExpr> {
    Box::new(SqlExpr::Column(name.to_string()))
}

#[test]
fn expressions_render_as_sql() {
    let e = SqlExpr::Binary { left: col("x"), op: SqlOperator::GtEq, right: lit(SqlScalar::Int { value: -5, bits: 32 }) };
    assert_eq!(ExprToSqlConverter::expr_to_sql(&e).unwrap(), "(x >= -5)");
    let e = SqlExpr::Between {
        expr: col("t"),
        negated: true,
        low: lit(SqlScalar::UInt { value: 1, bits: 8 }),
        high: lit(SqlScalar::UInt { value: 9, bits: 64 }),
    };
    assert_eq!(ExprToSqlConverter::expr_to_sql(&e).unwrap(), "t NOT BETWEEN 1 AND 9");
    let e = SqlExpr::InList {
        expr: col("host"),
        list: vec![SqlExpr::Literal(SqlScalar::Utf8 { value: "a'b".to_string(), large: false }), SqlExpr::Literal(SqlScalar::Null)],
        negated: false,
    };
    assert_eq!(ExprToSqlConverter::expr_to_sql(&e).unwrap(), "host IN ('a''b', NULL)");
    let e = SqlExpr::Not(Box::new(SqlExpr::IsNull(col("v"))));
    assert_eq!(ExprToSqlConverter::expr_to_sql(&e).unwrap(), "NOT (v IS NULL)");
    let e = SqlExpr::Like { negated: false, expr: col("n"), pattern: lit(SqlScalar::Utf8 { value: "%x".to_string(), large: true }) };
    assert_eq!(ExprToSqlConverter::expr_to_sql(&e).unwrap(), "n LIKE '%x'");
    assert_eq!(
        ExprToSqlConverter::expr_to_sql(&SqlExpr::IsNotNull(lit(SqlScalar::Boolean(true)))).unwrap(),
        "true IS NOT NULL"
    );
}

#[test]
fn expression_errors() {
    let e = SqlExpr::Binary { left: col("x"), op: SqlOperator::Other("BitwiseAnd".to_string()), right: col("y") };
    assert_eq!(ExprToSqlConverter::expr_to_sql(&e).unwrap_err(), "Unsupported operator: BitwiseAnd");
    let e = SqlExpr::Other("ScalarFunction(now)".to_string());
    assert_eq!(ExprToSqlConverter::expr_to_sql(&e).unwrap_err(), "Unsupported expression type: ScalarFunction(now)");
    let e = SqlExpr::Literal(SqlScalar::Other("Int64(NULL)".to_string()));
    assert_eq!(ExprToSqlConverter::expr_to_sql(&e).unwrap_err(), "Unsupported scalar type: Int64(NULL)");
}

#[test]
fn timestamps_render_as_rfc3339() {
    let e = SqlExpr::Literal(SqlScalar::TimestampNanosecond(1_500_000_000));
    assert_eq!(ExprToSqlConverter::expr_to_sql(&e).unwrap(), "'1970-01-01T00:00:01.500+00:00'");
    let e = SqlExpr::Literal(SqlScalar::TimestampMillisecond(1000));
    assert_eq!(ExprToSqlConverter::expr_to_sql(&e).unwrap(), "'1970-01-01T00:00:01+00:00'");
    let e = SqlExpr::Literal(SqlScalar::TimestampNanosecond(-5));
    assert_eq!(ExprToSqlConverter::expr_to_sql(&e).unwrap(), "-5");
}

#[test]
fn where_clause_joins_filters() {
    assert_eq!(ExprToSqlConverter::filters_to_where_clause(&[]).unwrap(), "");
    let filters = vec![
        SqlExpr::Binary { left: col("a"), op: SqlOperator::Eq, right: lit(SqlScalar::Int { value: 1, bits: 64 }) },
        SqlExpr::Binary { left: col("b"), op: SqlOperator::Lt, right: lit(SqlScalar::Float { text: "2.5".to_string(), bits: 64 }) },
    ];
    assert_eq!(ExprToSqlConverter::filters_to_where_clause(&filters).unwrap(), "(a = 1) AND (b < 2.5)");
    let bad = vec![SqlExpr::Column("a".to_string()), SqlExpr::Other("x".to_string())];
    assert_eq!(ExprToSqlConverter::filters_to_where_clause(&bad).unwrap_err(), "Unsupported expression type: x");
}

#[test]
fn test_add_remove_region() {
    let mut executor = LocalExecutor::new(NodeId::new(1));

    executor.add_region(RegionId::new(1));
    assert!(executor.has_region(RegionId::new(1)));

    executor.add_region(RegionId::new(1));
    assert_eq!(executor.get_managed_regions().len(), 1);

    executor.remove_region(RegionId::new(1));
    assert!(!executor.has_region(RegionId::new(1)));
}

#[test]
fn local_executor_keeps_order() {
    let mut executor = LocalExecutor::new(NodeId::new(3));
    executor.add_region(RegionId::new(5));
    executor.add_region(RegionId::new(2));
    executor.add_region(RegionId::new(7));
    executor.remove_region(RegionId::new(2));
    assert_eq!(executor.get_managed_regions(), vec![RegionId::new(5), RegionId::new(7)]);
    assert_eq!(executor.node_id(), NodeId::new(3));
}

#[test]
fn packed_region_ids() {
    let id = types::RegionId::from_u32(7, 9);
    assert_eq!(id.table_id(), 7);
    assert_eq!(id.region_number(), 9);
    assert_eq!(id.as_u64(), (7u64 << 32) | 9);
}

#[test]
fn plan_repr_describes_operators() {
    let plan = PlanNode::Limit {
        skip: 2,
        fetch: Some(10),
        input: Box::new(PlanNode::Join {
            join_type: JoinKind::Inner,
            left: Box::new(scan("cpu")),
            right: Box::new(PlanNode::Other { kind: "Union".to_string(), inputs: vec![scan("a"), scan("b")] }),
        }),
    };
    let r = LogicalPlanRepr::from_plan(&plan);
    assert_eq!(r.plan_type, "Limit");
    assert_eq!(r.skip, Some(2));
    assert_eq!(r.fetch, Some(10));
    let join = &r.children[0];
    assert_eq!(join.plan_type, "Join");
    assert_eq!(join.children[0].table_name, Some("db.cpu".to_string()));
    assert_eq!(join.children[1].plan_type, "Union");
    assert_eq!(join.children[1].children.len(), 2);
    let other = LogicalPlanRepr::from_plan(&PlanNode::Other { kind: "Window".to_string(), inputs: vec![] });
    assert_eq!(other.plan_type, "Other");
}

#[test]
fn plan_repr_keeps_scan_projection() {
    let plan = PlanNode::Limit {
        skip: 2,
        fetch: Some(5),
        input: Box::new(PlanNode::TableScan {
            table_name: "t".to_string(),
            table: "t".to_string(),
            projection: Some(vec![1]),
        }),
    };
    let r = LogicalPlanRepr::from_plan(&plan);
    assert_eq!(r.plan_type, "Limit");
    assert_eq!(r.skip, Some(2));
    assert_eq!(r.fetch, Some(5));
    assert_eq!(r.projection, None);
    assert_eq!(r.children.len(), 1);
    let child = &r.children[0];
    assert_eq!(child.plan_type, "TableScan");
    assert_eq!(child.table_name, Some("t".to_string()));
    assert_eq!(child.projection, Some(vec![1]));
    assert!(child.children.is_empty());
    assert_eq!(LogicalPlanRepr::from_plan(&scan("cpu")).projection, None);
}

#[test]
fn datanode_tracks_regions_with_its_executor() {
    let mut server = DatanodeServer::new(DatanodeConfig::new(4));
    assert_eq!(server.node_id(), NodeId::new(4));
    assert_eq!(server.grpc_addr(), "0.0.0.0:8183");
    server.add_region(region(10, "cpu", 4));
    server.add_region(region(11, "cpu", 4));
    server.add_region(region(10, "cpu", 4));
    assert_eq!(server.region_count(), 2);
    assert!(server.has_region(RegionId::new(11)));
    let info = server.node_info();
    assert_eq!(info.regions, vec![RegionId::new(10), RegionId::new(11)]);
    server.remove_region(RegionId::new(10));
    assert!(!server.has_region(RegionId::new(10)));
    let managed = server.get_managed_regions();
    assert_eq!(managed.len(), 1);
    assert_eq!(managed[0].region_id, RegionId::new(11));
    let hb = server.create_heartbeat_request();
    assert_eq!(hb.status, NodeStatus::Online);
    assert_eq!(hb.regions, vec![RegionId::new(11)]);
}

#[test]
fn test_analyzer_with_table_scan() {
    let plan = bare_scan("test_table");
    let analyzer = DistPlannerAnalyzer::new();
    let result = analyzer.analyze(plan);
    assert!(format!("{:?}", result).contains("MergeScan"));
}

#[test]
fn test_analyzer_with_filter() {
    let plan = PlanNode::Filter {
        predicate: PlanExpr::Other { text: "value > 100".to_string() },
        input: Box::new(bare_scan("test_table")),
    };
    let analyzer = DistPlannerAnalyzer::new();
    let result = analyzer.analyze(plan);
    let plan_str = format!("{:?}", result);
    assert!(plan_str.contains("MergeScan"));
}

#[test]
fn test_analyzer_with_projection() {
    let plan = PlanNode::Projection { exprs: vec![column("id"), column("name")], input: Box::new(bare_scan("test_table")) };
    let analyzer = DistPlannerAnalyzer::new();
    let result = analyzer.analyze(plan);
    let plan_str = format!("{:?}", result);
    assert!(plan_str.contains("MergeScan"));
    assert!(plan_str.contains("Projection"));
}

#[test]
fn test_fallback_rewriter() {
    let plan = PlanNode::Filter {
        predicate: PlanExpr::Other { text: "id > 10".to_string() },
        input: Box::new(bare_scan("test_table")),
    };
    let analyzer = DistPlannerAnalyzer::with_options(DistPlannerOptions { allow_query_fallback: true });
    let result = analyzer.analyze(plan);
    let plan_str = format!("{:?}", result);
    assert!(plan_str.contains("MergeScan"));
}

#[test]
fn push_down_wraps_each_scan_once() {
    let plan = PlanNode::Join {
        join_type: JoinKind::Left,
        left: Box::new(bare_scan("a")),
        right: Box::new(PlanNode::Other {
            kind: "Union".to_string(),
            inputs: vec![bare_scan("b"), PlanNode::MergeScan { input: Box::new(bare_scan("c")), is_placeholder: true }],
        }),
    };
    let result = DistPlannerAnalyzer::new().analyze(plan);
    match result {
        PlanNode::Join { left, right, .. } => {
            assert!(matches!(*left, PlanNode::MergeScan { is_placeholder: false, .. }));
            match *right {
                PlanNode::Other { inputs, .. } => {
                    assert!(matches!(inputs[0], PlanNode::MergeScan { is_placeholder: false, .. }));
                    assert!(matches!(inputs[1], PlanNode::MergeScan { is_placeholder: true, .. }));
                }
                _ => panic!("expected the union"),
            }
        }
        _ => panic!("expected the join"),
    }
    assert_eq!(DistPlannerAnalyzer::new().name(), "DistPlannerAnalyzer");
}

#[test]
fn datanode_requests_on_regions() {
    let mut server = DatanodeServer::new(DatanodeConfig::new(1));
    let request = WriteRequest {
        database: "db".to_string(),
        region_id: RegionId::new(3),
        data: bytes::Bytes::from_static(b"cpu v=1"),
        precision: WritePrecision::Nanoseconds,
    };
    assert!(matches!(server.write(&request), Err(DistributedError::RegionNotFound { region_id: 3 })));
    assert!(server.get_region_status(RegionId::new(3)).is_err());
    server.add_region(region(3, "cpu", 1));
    match server.write(&request) {
        Err(DistributedError::UnsupportedOperation(m)) => {
            assert_eq!(m, "Direct write to region not yet implemented. Use Line Protocol API.")
        }
        other => panic!("unexpected {:?}", other.is_ok()),
    }
    let status = server.get_region_status(RegionId::new(3)).unwrap();
    assert_eq!(status.row_count, 0);
    assert_eq!(status.last_write_time, None);
}

#[test]
fn http_scan_sql() {
    let filters = vec![
        SqlExpr::Binary { left: col("host"), op: SqlOperator::Eq, right: lit(SqlScalar::Utf8 { value: "a'b".to_string(), large: false }) },
        SqlExpr::Binary { left: col("v"), op: SqlOperator::Plus, right: lit(SqlScalar::Int { value: 1, bits: 64 }) },
        SqlExpr::Binary { left: col("v"), op: SqlOperator::Gt, right: lit(SqlScalar::Int { value: 1, bits: 32 }) },
        SqlExpr::Binary {
            left: Box::new(SqlExpr::Binary { left: col("a"), op: SqlOperator::Lt, right: lit(SqlScalar::Float { text: "1.5".to_string(), bits: 64 }) }),
            op: SqlOperator::And,
            right: Box::new(SqlExpr::Binary { left: col("b"), op: SqlOperator::NotEq, right: lit(SqlScalar::Boolean(false)) }),
        },
    ];
    let rendered = http_scan::convert_filters_to_sql(&filters);
    assert_eq!(rendered, vec!["host = 'a'b'".to_string(), "(a < 1.5) AND (b != false)".to_string()]);
    let sql = http_scan::build_scan_sql("cpu", &Some(vec!["a".to_string(), "b".to_string()]), &rendered, Some(10));
    assert_eq!(sql, "SELECT a, b FROM cpu WHERE host = 'a'b' AND (a < 1.5) AND (b != false) LIMIT 10");
    let eq = |c: &str, v: i64| SqlExpr::Binary { left: col(c), op: SqlOperator::Eq, right: lit(SqlScalar::Int { value: v, bits: 64 }) };
    let grouped = SqlExpr::Binary {
        left: Box::new(eq("a", 1)),
        op: SqlOperator::And,
        right: Box::new(SqlExpr::Binary { left: Box::new(eq("b", 2)), op: SqlOperator::Or, right: Box::new(eq("c", 3)) }),
    };
    assert_eq!(http_scan::http_expr_to_sql(&grouped).unwrap(), "(a = 1) AND ((b = 2) OR (c = 3))");
    let either = SqlExpr::Binary { left: Box::new(eq("b", 2)), op: SqlOperator::Or, right: Box::new(eq("c", 3)) };
    let conds = http_scan::convert_filters_to_sql(&[eq("a", 1), either]);
    assert_eq!(http_scan::build_scan_sql("t", &None, &conds, None), "SELECT * FROM t WHERE a = 1 AND ((b = 2) OR (c = 3))");
    assert_eq!(http_scan::build_scan_sql("mem", &None, &vec![], None), "SELECT * FROM mem");
}

#[test]
fn regions_group_by_hosting_node() {
    let placed = vec![
        (RegionId::new(1), NodeId::new(1)),
        (RegionId::new(2), NodeId::new(1)),
        (RegionId::new(3), NodeId::new(2)),
        (RegionId::new(4), NodeId::new(1)),
    ];
    let groups = group_regions_by_node(&placed);
    assert_eq!(groups.len(), 2);
    assert_eq!(groups[0], (NodeId::new(1), vec![RegionId::new(1), RegionId::new(2), RegionId::new(4)]));
    assert_eq!(groups[1], (NodeId::new(2), vec![RegionId::new(3)]));
    assert!(group_regions_by_node(&vec![]).is_empty());
}

#[test]
fn projected_columns_are_kept_once() {
    let plan = PlanNode::Projection {
        exprs: vec![
            column("a"),
            PlanExpr::Alias { expr: Box::new(column("b")), name: "x".to_string() },
            column("a"),
            PlanExpr::Other { text: "a + 1".to_string() },
        ],
        input: Box::new(PlanNode::Projection { exprs: vec![column("b"), column("c")], input: Box::new(scan("cpu")) }),
    };
    let analysis = DistributedOptimizer::new().analyze_plan(&plan).unwrap();
    assert_eq!(analysis.projected_columns, vec!["a".to_string(), "b".to_string(), "c".to_string()]);
}
