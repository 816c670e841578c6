use arrow::array::{Array, Int64Array, StringArray};
use connectorx::data_order::DataOrder;
use connectorx::destinations::arrow_destination::ArrowDestination;
use connectorx::dispatcher::{
    join, process_cell, resolve_plan, row_counts, transfer_buffered, worker_count, CellPipe,
};
use connectorx::errors::ConnectorAgentError;
use connectorx::sources::mysql::{MysqlSource, MysqlSourcePartition, MysqlSourcePartitionParser};
use connectorx::typesystem::{ArrowTypeSystem, MysqlTypeSystem};
use connectorx::value::{Cell, NativeKind};

fn source_schema() -> Vec<MysqlTypeSystem> {
    vec![MysqlTypeSystem::LongLong(false), MysqlTypeSystem::VarChar(true)]
}

fn row(id: i64, name: Option<&str>) -> Vec<Cell> {
    vec![
        Cell::Int64(id),
        match name {
            Some(s) => Cell::Utf8(s.to_string()),
            None => Cell::Null,
        },
    ]
}

fn move_partition(
    dest: &ArrowDestination,
    index: usize,
    pipes: &Vec<CellPipe>,
    rows: Vec<Vec<Cell>>,
    buf_size: usize,
) -> Result<connectorx::destinations::arrow_destination::ArrowPartitionWriter, ConnectorAgentError>
{
    let mut parser = MysqlSourcePartitionParser::new(&source_schema(), buf_size);
    let mut writer = dest.partition(index)?;
    let mut pending = rows.into_iter();
    while !writer.is_full() {
        let batch: Vec<Vec<Cell>> = pending.by_ref().take(buf_size).collect();
        parser.refill(batch)?;
        transfer_buffered(pipes, &mut parser, &mut writer)?;
    }
    Ok(writer)
}

#[test]
fn a_plan_binds_the_two_schemas() {
    let plan = resolve_plan(
        &MysqlSource::data_orders(),
        &ArrowDestination::data_orders(),
        &source_schema(),
    )
    .unwrap();
    assert_eq!(plan.order, DataOrder::RowMajor);
    assert_eq!(plan.schema, vec![ArrowTypeSystem::Int64(false), ArrowTypeSystem::Utf8(true)]);
    assert_eq!(
        plan.pipes,
        vec![
            CellPipe { kind: NativeKind::Int64, optional: false },
            CellPipe { kind: NativeKind::Utf8, optional: true },
        ]
    );
}

#[test]
fn a_plan_without_a_common_order_fails_first() {
    match resolve_plan(
        &[DataOrder::RowMajor],
        &[DataOrder::ColumnMajor],
        &[MysqlTypeSystem::Decimal(true)],
    ) {
        Err(ConnectorAgentError::CannotResolveDataOrder(src, dst)) => {
            assert_eq!(src, vec![DataOrder::RowMajor]);
            assert_eq!(dst, vec![DataOrder::ColumnMajor]);
        }
        Err(other) => panic!("unexpected error: {:?}", other),
        Ok(_) => panic!("the orders have nothing in common"),
    }
}

#[test]
fn a_plan_with_a_column_without_rule_fails() {
    match resolve_plan(
        &[DataOrder::RowMajor],
        &[DataOrder::RowMajor],
        &[MysqlTypeSystem::Long(false), MysqlTypeSystem::Decimal(true)],
    ) {
        Err(ConnectorAgentError::NoConversionRule(src, dst)) => {
            assert_eq!(src, "Decimal");
            assert_eq!(dst, "ArrowTypeSystem");
        }
        Err(other) => panic!("unexpected error: {:?}", other),
        Ok(_) => panic!("decimals have no rule"),
    }
}

#[test]
fn two_partitions_arrive_in_partition_order() {
    let plan = resolve_plan(&[DataOrder::RowMajor], &[DataOrder::RowMajor], &source_schema())
        .unwrap();
    let mut dest = ArrowDestination::new();
    let names = vec!["id".to_string(), "name".to_string()];
    dest.allocate(&[2, 3], &names, &plan.schema, plan.order).unwrap();
    let second = move_partition(
        &dest,
        1,
        &plan.pipes,
        vec![row(3, Some("b")), row(4, Some("c")), row(5, None)],
        2,
    )
    .unwrap();
    let first =
        move_partition(&dest, 0, &plan.pipes, vec![row(1, Some("a")), row(2, None)], 2).unwrap();
    let table = dest.finish(vec![first, second]).unwrap();
    let ids = Int64Array::from(table.columns[0].clone());
    let names = StringArray::from(table.columns[1].clone());
    assert_eq!(ids.len(), 5);
    assert_eq!(names.len(), 5);
    for r in 0..5 {
        assert_eq!(ids.value(r), r as i64 + 1);
    }
    assert_eq!(names.value(0), "a");
    assert!(names.is_null(1));
    assert_eq!(names.value(2), "b");
    assert_eq!(names.value(3), "c");
    assert!(names.is_null(4));
    assert_eq!(table.fields[0].name(), "id");
    assert!(!table.fields[0].is_nullable());
    assert_eq!(table.fields[1].name(), "name");
    assert!(table.fields[1].is_nullable());
}

#[test]
fn a_limit_reserves_exactly_its_rows() {
    let schema = source_schema();
    let mut part = MysqlSourcePartition::new("select id, name from t limit 7", &schema, 32);
    part.prepare().unwrap();
    let parts = vec![part];
    let counts = row_counts(&parts);
    assert_eq!(counts, vec![7]);
    let plan = resolve_plan(&[DataOrder::RowMajor], &[DataOrder::RowMajor], &schema).unwrap();
    let mut dest = ArrowDestination::new();
    let names = vec!["id".to_string(), "name".to_string()];
    dest.allocate(&counts, &names, &plan.schema, plan.order).unwrap();
    let rows: Vec<Vec<Cell>> = (0..7).map(|i| row(i, None)).collect();
    let writer = move_partition(&dest, 0, &plan.pipes, rows, 32).unwrap();
    assert!(writer.is_full());
    let table = dest.finish(vec![writer]).unwrap();
    assert_eq!(table.columns[0].len(), 7);
    assert_eq!(table.columns[1].len(), 7);
}

#[test]
fn three_partitions_of_a_thousand_rows_keep_their_order() {
    let plan = resolve_plan(&[DataOrder::RowMajor], &[DataOrder::RowMajor], &source_schema())
        .unwrap();
    let mut dest = ArrowDestination::new();
    let names = vec!["id".to_string(), "name".to_string()];
    dest.allocate(&[1000, 1000, 1000], &names, &plan.schema, plan.order).unwrap();
    let mut writers = vec![None, None, None];
    let mut expected_sum = 0i64;
    for index in [2usize, 0, 1] {
        let rows: Vec<Vec<Cell>> = (0..1000)
            .map(|r| {
                let id = (index * 1000 + r) as i64;
                vec![Cell::Int64(id), Cell::Utf8(format!("row {}", id))]
            })
            .collect();
        expected_sum += rows
            .iter()
            .map(|row| match row[0] {
                Cell::Int64(v) => v,
                _ => 0,
            })
            .sum::<i64>();
        writers[index] = Some(move_partition(&dest, index, &plan.pipes, rows, 32).unwrap());
    }
    let writers = writers.into_iter().map(|w| w.unwrap()).collect();
    let table = dest.finish(writers).unwrap();
    let ids = Int64Array::from(table.columns[0].clone());
    let names = StringArray::from(table.columns[1].clone());
    assert_eq!(ids.len(), 3000);
    let mut sum = 0i64;
    for r in 0..3000 {
        assert_eq!(ids.value(r), r as i64);
        assert_eq!(names.value(r), format!("row {}", r));
        sum += ids.value(r);
    }
    assert_eq!(sum, expected_sum);
}

#[test]
fn one_cell_travels_as_it_was_produced() {
    let mut dest = ArrowDestination::new();
    let names = vec!["id".to_string(), "name".to_string()];
    dest.allocate(
        &[1],
        &names,
        &[ArrowTypeSystem::Int64(false), ArrowTypeSystem::Utf8(true)],
        DataOrder::RowMajor,
    )
    .unwrap();
    let mut writer = dest.partition(0).unwrap();
    let mut parser = MysqlSourcePartitionParser::new(&source_schema(), 4);
    parser.refill(vec![row(i64::MIN, Some("naïve ☃"))]).unwrap();
    process_cell(CellPipe { kind: NativeKind::Int64, optional: false }, &mut parser, &mut writer)
        .unwrap();
    process_cell(CellPipe { kind: NativeKind::Utf8, optional: true }, &mut parser, &mut writer)
        .unwrap();
    assert!(writer.is_full());
    assert!(parser.needs_rows());
    let table = dest.finish(vec![writer]).unwrap();
    assert_eq!(Int64Array::from(table.columns[0].clone()).value(0), i64::MIN);
    assert_eq!(StringArray::from(table.columns[1].clone()).value(0), "naïve ☃");
}

#[test]
fn a_cell_that_does_not_arrive_ends_the_run() {
    let mut dest = ArrowDestination::new();
    let names = vec!["id".to_string(), "name".to_string()];
    let plan = resolve_plan(&[DataOrder::RowMajor], &[DataOrder::RowMajor], &source_schema())
        .unwrap();
    dest.allocate(&[2], &names, &plan.schema, plan.order).unwrap();

    let mut writer = dest.partition(0).unwrap();
    let mut parser = MysqlSourcePartitionParser::new(&source_schema(), 4);
    parser.refill(vec![vec![Cell::Null, Cell::Null], row(2, None)]).unwrap();
    assert!(matches!(
        transfer_buffered(&plan.pipes, &mut parser, &mut writer),
        Err(ConnectorAgentError::CannotProduce("i64", _))
    ));
    assert_eq!(parser.column(), 1);

    let mut writer = dest.partition(0).unwrap();
    let mut parser = MysqlSourcePartitionParser::new(&source_schema(), 4);
    parser.refill(vec![row(1, None), row(2, None)]).unwrap();
    let swapped = vec![plan.pipes[1], plan.pipes[0]];
    assert!(matches!(
        transfer_buffered(&swapped, &mut parser, &mut writer),
        Err(ConnectorAgentError::CannotProduce("String", _))
    ));

    let mut writer = dest.partition(0).unwrap();
    let mut parser = MysqlSourcePartitionParser::new(&source_schema(), 4);
    parser.refill(vec![row(1, None)]).unwrap();
    let optional = vec![CellPipe { kind: NativeKind::Int64, optional: true }, plan.pipes[1]];
    assert!(matches!(
        transfer_buffered(&optional, &mut parser, &mut writer),
        Err(ConnectorAgentError::TypeCheckFailed(_, "i64"))
    ));

    let mut writer = dest.partition(0).unwrap();
    let mut parser = MysqlSourcePartitionParser::new(&source_schema(), 4);
    parser.refill(vec![row(1, None)]).unwrap();
    assert!(matches!(
        transfer_buffered(&vec![plan.pipes[0]], &mut parser, &mut writer),
        Err(ConnectorAgentError::OutOfBound)
    ));
    assert_eq!(parser.column(), 0);
    assert!(!parser.needs_rows());
}

#[test]
fn a_run_stops_where_the_window_is_full() {
    let mut dest = ArrowDestination::new();
    let names = vec!["id".to_string(), "name".to_string()];
    let plan = resolve_plan(&[DataOrder::RowMajor], &[DataOrder::RowMajor], &source_schema())
        .unwrap();
    dest.allocate(&[1], &names, &plan.schema, plan.order).unwrap();
    let mut writer = dest.partition(0).unwrap();
    let mut parser = MysqlSourcePartitionParser::new(&source_schema(), 4);
    parser.refill(vec![row(1, None), row(2, None)]).unwrap();
    transfer_buffered(&plan.pipes, &mut parser, &mut writer).unwrap();
    assert!(writer.is_full());
    assert!(!parser.needs_rows());
    assert_eq!(parser.next_loc().unwrap(), (1, 0));
    assert!(matches!(
        process_cell(plan.pipes[1], &mut parser, &mut writer),
        Err(ConnectorAgentError::OutOfBound)
    ));
}

#[test]
fn workers_are_bounded_by_partitions_and_connections() {
    assert_eq!(worker_count(3, 10), 3);
    assert_eq!(worker_count(10, 3), 3);
    assert_eq!(worker_count(4, 4), 4);
    assert_eq!(worker_count(0, 4), 0);
}

#[test]
fn a_transfer_fails_with_its_first_failure() {
    assert!(join(Vec::new()).is_ok());
    assert!(join(vec![Ok(()), Ok(())]).is_ok());
    let results = vec![
        Ok(()),
        Err(ConnectorAgentError::DuplicatedAllocation),
        Ok(()),
        Err(ConnectorAgentError::OutOfBound),
    ];
    assert!(matches!(join(results), Err(ConnectorAgentError::DuplicatedAllocation)));
}

#[test]
fn rows_without_columns_move_no_cell() {
    let mut dest = ArrowDestination::new();
    dest.allocate(&[2], &[], &[], DataOrder::RowMajor).unwrap();
    let mut writer = dest.partition(0).unwrap();
    let mut parser = MysqlSourcePartitionParser::new(&[], 4);
    parser.refill(vec![Vec::new(), Vec::new()]).unwrap();
    assert!(matches!(
        process_cell(CellPipe { kind: NativeKind::Int64, optional: false }, &mut parser, &mut writer),
        Err(ConnectorAgentError::OutOfBound)
    ));
    transfer_buffered(&Vec::new(), &mut parser, &mut writer).unwrap();
    assert!(!parser.needs_rows());
    assert!(writer.is_full());
    let table = dest.finish(vec![writer]).unwrap();
    assert!(table.columns.is_empty());
}
