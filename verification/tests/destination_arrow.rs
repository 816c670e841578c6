use arrow::array::{Array, BooleanArray, Int32Array, Int64Array, StringArray};
use arrow::datatypes::DataType;
use connectorx::data_order::DataOrder;
use connectorx::destinations::arrow_assoc::{
    seal_boolean, seal_int32, seal_int64, seal_utf8, ArrowAssoc,
};
use connectorx::destinations::arrow_destination::{
    build_array, make_field, ArrowDestination, ArrowPartitionWriter,
};
use connectorx::errors::ConnectorAgentError;
use connectorx::typesystem::ArrowTypeSystem;
use connectorx::value::Cell;

fn names(list: &[&str]) -> Vec<String> {
    list.iter().map(|s| s.to_string()).collect()
}

fn allocated(row_counts: &[usize]) -> ArrowDestination {
    let mut dest = ArrowDestination::new();
    dest.allocate(
        row_counts,
        &names(&["id", "name"]),
        &[ArrowTypeSystem::Int64(false), ArrowTypeSystem::Utf8(true)],
        DataOrder::RowMajor,
    )
    .unwrap();
    dest
}

fn fill(writer: &mut ArrowPartitionWriter, rows: &[(i64, Option<&str>)]) {
    for (id, name) in rows {
        writer.consume::<i64>(*id).unwrap();
        writer.consume_opt::<String>(name.map(|s| s.to_string())).unwrap();
    }
}

#[test]
fn integer_builders_collect_values_and_nulls() {
    let mut b = <i64 as ArrowAssoc>::builder(4);
    <i64 as ArrowAssoc>::append(&mut b, 7).unwrap();
    <Option<i64> as ArrowAssoc>::append(&mut b, None).unwrap();
    <Option<i64> as ArrowAssoc>::append(&mut b, Some(-9)).unwrap();
    let array = Int64Array::from(seal_int64(b));
    assert_eq!(array.len(), 3);
    assert_eq!(array.value(0), 7);
    assert!(array.is_null(1));
    assert_eq!(array.value(2), -9);

    let mut b = <Option<i32> as ArrowAssoc>::builder(0);
    <i32 as ArrowAssoc>::append(&mut b, 1).unwrap();
    <Option<i32> as ArrowAssoc>::append(&mut b, Some(2)).unwrap();
    <Option<i32> as ArrowAssoc>::append(&mut b, None).unwrap();
    let array = Int32Array::from(seal_int32(b));
    assert_eq!(array.len(), 3);
    assert_eq!(array.value(0), 1);
    assert_eq!(array.value(1), 2);
    assert!(array.is_null(2));
}

#[test]
fn boolean_and_string_builders_collect_values_and_nulls() {
    let mut b = <bool as ArrowAssoc>::builder(2);
    <bool as ArrowAssoc>::append(&mut b, true).unwrap();
    <Option<bool> as ArrowAssoc>::append(&mut b, None).unwrap();
    <Option<bool> as ArrowAssoc>::append(&mut b, Some(false)).unwrap();
    let array = BooleanArray::from(seal_boolean(b));
    assert_eq!(array.len(), 3);
    assert!(array.value(0));
    assert!(array.is_null(1));
    assert!(!array.value(2));

    let mut b = <String as ArrowAssoc>::builder(16);
    <String as ArrowAssoc>::append(&mut b, "héllo".to_string()).unwrap();
    <Option<String> as ArrowAssoc>::append(&mut b, None).unwrap();
    <Option<String> as ArrowAssoc>::append(&mut b, Some(String::new())).unwrap();
    <Option<String> as ArrowAssoc>::append(&mut b, Some("z".to_string())).unwrap();
    let array = StringArray::from(seal_utf8(b));
    assert_eq!(array.len(), 4);
    assert_eq!(array.value(0), "héllo");
    assert!(array.is_null(1));
    assert!(!array.is_null(2));
    assert_eq!(array.value(2), "");
    assert_eq!(array.value(3), "z");
}

#[test]
fn an_empty_builder_seals_into_an_empty_array() {
    let array = Int64Array::from(seal_int64(<i64 as ArrowAssoc>::builder(0)));
    assert_eq!(array.len(), 0);
    let array = StringArray::from(seal_utf8(<String as ArrowAssoc>::builder(0)));
    assert_eq!(array.len(), 0);
}

#[test]
fn fields_carry_name_type_and_nullability() {
    let f = <i32 as ArrowAssoc>::field("a");
    assert_eq!(f.name(), "a");
    assert_eq!(f.data_type(), &DataType::Int32);
    assert!(!f.is_nullable());
    let f = <Option<i32> as ArrowAssoc>::field("a");
    assert_eq!(f.data_type(), &DataType::Int32);
    assert!(f.is_nullable());
    let f = <i64 as ArrowAssoc>::field("b");
    assert_eq!(f.data_type(), &DataType::Int64);
    assert!(!f.is_nullable());
    let f = <Option<i64> as ArrowAssoc>::field("b");
    assert_eq!(f.name(), "b");
    assert_eq!(f.data_type(), &DataType::Int64);
    assert!(f.is_nullable());
    let f = <bool as ArrowAssoc>::field("c");
    assert_eq!(f.data_type(), &DataType::Boolean);
    assert!(!f.is_nullable());
    let f = <Option<bool> as ArrowAssoc>::field("c");
    assert!(f.is_nullable());
    let f = <String as ArrowAssoc>::field("d");
    assert_eq!(f.data_type(), &DataType::Utf8);
    assert!(!f.is_nullable());
    let f = <Option<String> as ArrowAssoc>::field("");
    assert_eq!(f.name(), "");
    assert_eq!(f.data_type(), &DataType::Utf8);
    assert!(f.is_nullable());
    let f = make_field("total", ArrowTypeSystem::Int64(true));
    assert_eq!(f.name(), "total");
    assert_eq!(f.data_type(), &DataType::Int64);
    assert!(f.is_nullable());
}

#[test]
fn values_are_read_back_from_cells() {
    assert_eq!(<i64 as ArrowAssoc>::read(&Cell::Int64(5)), Some(5));
    assert_eq!(<i64 as ArrowAssoc>::read(&Cell::Null), None);
    assert_eq!(<Option<i64> as ArrowAssoc>::read(&Cell::Null), Some(None));
    assert_eq!(<Option<i64> as ArrowAssoc>::read(&Cell::Int64(5)), Some(Some(5)));
    assert_eq!(<Option<i64> as ArrowAssoc>::read(&Cell::Int32(5)), None);
    assert_eq!(<Option<bool> as ArrowAssoc>::read(&Cell::Boolean(true)), Some(Some(true)));
    assert_eq!(
        <Option<String> as ArrowAssoc>::read(&Cell::Utf8("x".to_string())),
        Some(Some("x".to_string()))
    );
    assert_eq!(<String as ArrowAssoc>::read(&Cell::Null), None);
    assert_eq!(<i32 as ArrowAssoc>::read(&Cell::Int32(-1)), Some(-1));
}

#[test]
fn an_array_is_built_from_the_cells_of_a_column() {
    let cells = vec![Cell::Int64(1), Cell::Null, Cell::Int64(3)];
    let array = Int64Array::from(build_array(ArrowTypeSystem::Int64(true), &cells).unwrap());
    assert_eq!(array.len(), 3);
    assert_eq!(array.value(0), 1);
    assert!(array.is_null(1));
    assert_eq!(array.value(2), 3);
    let cells = vec![Cell::Utf8("a".to_string()), Cell::Utf8("bc".to_string())];
    let array = StringArray::from(build_array(ArrowTypeSystem::Utf8(false), &cells).unwrap());
    assert_eq!(array.value(0), "a");
    assert_eq!(array.value(1), "bc");
    assert_eq!(array.null_count(), 0);
    let cells = vec![Cell::Boolean(true)];
    let array = BooleanArray::from(build_array(ArrowTypeSystem::Boolean(false), &cells).unwrap());
    assert!(array.value(0));
    let cells = vec![Cell::Int32(4), Cell::Null];
    let array = Int32Array::from(build_array(ArrowTypeSystem::Int32(true), &cells).unwrap());
    assert_eq!(array.value(0), 4);
    assert!(array.is_null(1));
}

#[test]
fn nothing_is_written_before_the_allocation() {
    let dest = ArrowDestination::new();
    assert!(matches!(
        dest.partition(0),
        Err(ConnectorAgentError::DestinationNotAllocated)
    ));
    assert!(matches!(
        dest.finish(Vec::new()),
        Err(ConnectorAgentError::DestinationNotAllocated)
    ));
}

#[test]
fn a_second_allocation_is_refused() {
    let mut dest = allocated(&[2, 3]);
    assert!(matches!(
        dest.allocate(
            &[1],
            &names(&["x"]),
            &[ArrowTypeSystem::Int64(false)],
            DataOrder::RowMajor
        ),
        Err(ConnectorAgentError::DuplicatedAllocation)
    ));
    assert_eq!(dest.partition(1).unwrap().nrows(), 3);
}

#[test]
fn an_order_that_is_not_supported_is_refused() {
    assert_eq!(ArrowDestination::data_orders(), vec![DataOrder::RowMajor]);
    let mut dest = ArrowDestination::new();
    assert!(matches!(
        dest.allocate(
            &[1],
            &names(&["x"]),
            &[ArrowTypeSystem::Int64(false)],
            DataOrder::ColumnMajor
        ),
        Err(ConnectorAgentError::UnsupportedDataOrder(DataOrder::ColumnMajor))
    ));
    assert!(matches!(
        dest.partition(0),
        Err(ConnectorAgentError::DestinationNotAllocated)
    ));
}

#[test]
fn more_rows_than_a_builder_can_hold_are_refused() {
    let mut dest = ArrowDestination::new();
    assert!(matches!(
        dest.allocate(
            &[usize::MAX / 32, 1],
            &names(&["x"]),
            &[ArrowTypeSystem::Int64(false)],
            DataOrder::RowMajor
        ),
        Err(ConnectorAgentError::OutOfBound)
    ));
    assert!(matches!(
        dest.allocate(
            &[usize::MAX, usize::MAX],
            &names(&["x"]),
            &[ArrowTypeSystem::Int64(false)],
            DataOrder::RowMajor
        ),
        Err(ConnectorAgentError::OutOfBound)
    ));
}

#[test]
fn a_partition_gets_a_window_of_its_row_count() {
    let dest = allocated(&[7, 0]);
    let w = dest.partition(0).unwrap();
    assert_eq!(w.index(), 0);
    assert_eq!(w.nrows(), 7);
    assert_eq!(w.ncols(), 2);
    assert!(!w.is_full());
    let w = dest.partition(1).unwrap();
    assert_eq!(w.nrows(), 0);
    assert!(w.is_full());
    assert!(matches!(dest.partition(2), Err(ConnectorAgentError::OutOfBound)));
}

#[test]
fn a_write_past_the_window_is_out_of_bound() {
    let dest = allocated(&[1]);
    let mut w = dest.partition(0).unwrap();
    fill(&mut w, &[(1, Some("a"))]);
    assert!(w.is_full());
    assert!(matches!(w.consume::<i64>(2), Err(ConnectorAgentError::OutOfBound)));
    assert!(matches!(
        w.consume_opt::<String>(None),
        Err(ConnectorAgentError::OutOfBound)
    ));
}

#[test]
fn a_value_of_another_type_fails_the_type_check() {
    let dest = allocated(&[1]);
    let mut w = dest.partition(0).unwrap();
    match w.consume::<String>("a".to_string()) {
        Err(ConnectorAgentError::TypeCheckFailed(expected, found)) => {
            assert_eq!(expected, "Int64");
            assert_eq!(found, "String");
        }
        other => panic!("unexpected outcome: {:?}", other),
    }
    assert!(matches!(
        w.consume_opt::<i64>(Some(1)),
        Err(ConnectorAgentError::TypeCheckFailed(_, _))
    ));
    w.consume::<i64>(1).unwrap();
    assert!(matches!(
        w.consume::<String>("a".to_string()),
        Err(ConnectorAgentError::TypeCheckFailed(_, _))
    ));
    assert!(matches!(
        w.consume_opt::<i64>(None),
        Err(ConnectorAgentError::TypeCheckFailed(_, _))
    ));
    w.consume_opt::<String>(None).unwrap();
    assert!(w.is_full());
}

#[test]
fn partitions_are_concatenated_by_index() {
    let dest = allocated(&[2, 3]);
    let mut w0 = dest.partition(0).unwrap();
    let mut w1 = dest.partition(1).unwrap();
    fill(&mut w1, &[(3, Some("b")), (4, Some("c")), (5, None)]);
    fill(&mut w0, &[(1, Some("a")), (2, None)]);
    assert!(dest.is_filled_by(&vec![]) == false);
    let table = dest.finish(vec![w0, w1]).unwrap();
    assert_eq!(table.fields.len(), 2);
    assert_eq!(table.fields[0].name(), "id");
    assert_eq!(table.fields[0].data_type(), &DataType::Int64);
    assert!(!table.fields[0].is_nullable());
    assert_eq!(table.fields[1].name(), "name");
    assert_eq!(table.fields[1].data_type(), &DataType::Utf8);
    assert!(table.fields[1].is_nullable());
    let ids = Int64Array::from(table.columns[0].clone());
    assert_eq!(ids.len(), 5);
    assert_eq!(ids.null_count(), 0);
    for r in 0..5 {
        assert_eq!(ids.value(r), r as i64 + 1);
    }
    let names = StringArray::from(table.columns[1].clone());
    assert_eq!(names.len(), 5);
    assert_eq!(names.value(0), "a");
    assert!(names.is_null(1));
    assert_eq!(names.value(2), "b");
    assert_eq!(names.value(3), "c");
    assert!(names.is_null(4));
}

#[test]
fn every_column_has_the_sum_of_the_row_counts() {
    let counts = [3usize, 0, 4, 1];
    let dest = allocated(&counts);
    let mut writers = Vec::new();
    let mut next = 0i64;
    for i in 0..counts.len() {
        let mut w = dest.partition(i).unwrap();
        for _ in 0..counts[i] {
            w.consume::<i64>(next).unwrap();
            w.consume_opt::<String>(Some(next.to_string())).unwrap();
            next += 1;
        }
        writers.push(w);
    }
    let table = dest.finish(writers).unwrap();
    for column in &table.columns {
        assert_eq!(column.len(), 8);
    }
    let ids = Int64Array::from(table.columns[0].clone());
    let names = StringArray::from(table.columns[1].clone());
    for r in 0..8 {
        assert_eq!(ids.value(r), r as i64);
        assert_eq!(names.value(r), r.to_string());
    }
}

#[test]
fn a_window_that_is_not_filled_is_detected() {
    let dest = allocated(&[2, 1]);
    let mut w0 = dest.partition(0).unwrap();
    let mut w1 = dest.partition(1).unwrap();
    fill(&mut w0, &[(1, Some("a"))]);
    fill(&mut w1, &[(3, None)]);
    assert!(matches!(
        dest.finish(vec![w0, w1]),
        Err(ConnectorAgentError::OutOfBound)
    ));

    let dest = allocated(&[1]);
    let mut w0 = dest.partition(0).unwrap();
    w0.consume::<i64>(1).unwrap();
    assert!(matches!(dest.finish(vec![w0]), Err(ConnectorAgentError::OutOfBound)));
}

#[test]
fn windows_of_another_layout_are_detected() {
    let dest = allocated(&[1, 1]);
    let mut w0 = dest.partition(0).unwrap();
    let mut w1 = dest.partition(1).unwrap();
    fill(&mut w0, &[(1, None)]);
    fill(&mut w1, &[(2, None)]);
    assert!(!dest.is_filled_by(&vec![dest.partition(0).unwrap()]));
    assert!(matches!(
        dest.finish(vec![w1, w0]),
        Err(ConnectorAgentError::OutOfBound)
    ));

    let dest = allocated(&[1]);
    let other = allocated(&[2]);
    let mut foreign = other.partition(0).unwrap();
    fill(&mut foreign, &[(1, None), (2, None)]);
    assert!(matches!(dest.finish(vec![foreign]), Err(ConnectorAgentError::OutOfBound)));

    let dest = allocated(&[1]);
    assert!(matches!(dest.finish(Vec::new()), Err(ConnectorAgentError::OutOfBound)));
}

#[test]
fn a_destination_without_columns_or_rows() {
    let mut dest = ArrowDestination::new();
    dest.allocate(&[2], &[], &[], DataOrder::RowMajor).unwrap();
    let mut w = dest.partition(0).unwrap();
    assert!(w.is_full());
    assert!(matches!(w.consume::<i64>(1), Err(ConnectorAgentError::OutOfBound)));
    let table = dest.finish(vec![w]).unwrap();
    assert!(table.fields.is_empty());
    assert!(table.columns.is_empty());

    let mut dest = ArrowDestination::new();
    dest.allocate(&[], &names(&["x"]), &[ArrowTypeSystem::Boolean(true)], DataOrder::RowMajor)
        .unwrap();
    let table = dest.finish(Vec::new()).unwrap();
    assert_eq!(table.columns.len(), 1);
    assert_eq!(table.columns[0].len(), 0);
}
