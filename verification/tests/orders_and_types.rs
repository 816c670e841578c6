use connectorx::data_order::{coordinate, copy_orders, is_supported, DataOrder};
use connectorx::errors::{ConnectorAgentError, ProduceContext};
use connectorx::typesystem::{
    convert_schema, convert_type, kind_name, ArrowTypeSystem, MysqlTypeSystem,
};
use connectorx::value::{Cell, NativeKind, Transport};

#[test]
fn coordinate_takes_the_first_order_of_the_source_that_the_destination_accepts() {
    let src = [DataOrder::ColumnMajor, DataOrder::RowMajor];
    let dst = [DataOrder::RowMajor, DataOrder::ColumnMajor];
    assert_eq!(coordinate(&src, &dst).unwrap(), DataOrder::ColumnMajor);
    let dst = [DataOrder::RowMajor];
    assert_eq!(coordinate(&src, &dst).unwrap(), DataOrder::RowMajor);
}

#[test]
fn coordinate_without_a_common_order_reports_both_lists() {
    let src = [DataOrder::RowMajor];
    let dst = [DataOrder::ColumnMajor];
    match coordinate(&src, &dst) {
        Err(ConnectorAgentError::CannotResolveDataOrder(s, d)) => {
            assert_eq!(s, vec![DataOrder::RowMajor]);
            assert_eq!(d, vec![DataOrder::ColumnMajor]);
        }
        other => panic!("unexpected outcome: {:?}", other),
    }
}

#[test]
fn coordinate_with_an_empty_list_fails() {
    let src: [DataOrder; 0] = [];
    let dst = [DataOrder::RowMajor];
    assert!(matches!(
        coordinate(&src, &dst),
        Err(ConnectorAgentError::CannotResolveDataOrder(_, _))
    ));
    assert!(matches!(
        coordinate(&dst, &src),
        Err(ConnectorAgentError::CannotResolveDataOrder(_, _))
    ));
}

#[test]
fn is_supported_finds_an_order_in_a_list() {
    assert!(is_supported(&[DataOrder::RowMajor], DataOrder::RowMajor));
    assert!(!is_supported(&[DataOrder::RowMajor], DataOrder::ColumnMajor));
    assert!(!is_supported(&[], DataOrder::RowMajor));
    assert_eq!(
        copy_orders(&[DataOrder::ColumnMajor, DataOrder::RowMajor]),
        vec![DataOrder::ColumnMajor, DataOrder::RowMajor]
    );
}

#[test]
fn produce_context_from_an_optional_description() {
    match ProduceContext::from(Some("row 3".to_string())) {
        ProduceContext::Context(s) => assert_eq!(s, "row 3"),
        ProduceContext::NoContext => panic!("a description was given"),
    }
    assert!(matches!(ProduceContext::from(None), ProduceContext::NoContext));
}

#[test]
fn produce_context_renders_its_text() {
    assert_eq!(ProduceContext::NoContext.render(), "No Context");
    assert_eq!(ProduceContext::Context("row 3".to_string()).render(), "row 3");
    assert_eq!(ProduceContext::Context(String::new()).render(), "");
}

#[test]
fn cannot_produce_names_the_type_and_keeps_the_context() {
    match ConnectorAgentError::cannot_produce::<i64>(None) {
        ConnectorAgentError::CannotProduce(name, ProduceContext::NoContext) => {
            assert_eq!(name, "i64")
        }
        other => panic!("unexpected error: {:?}", other),
    }
    match ConnectorAgentError::cannot_produce::<String>(Some("cell (2, 1)".to_string())) {
        ConnectorAgentError::CannotProduce(name, ProduceContext::Context(ctx)) => {
            assert_eq!(name, "String");
            assert_eq!(ctx, "cell (2, 1)");
        }
        other => panic!("unexpected error: {:?}", other),
    }
}

#[test]
fn mysql_types_are_built_from_protocol_codes() {
    assert_eq!(MysqlTypeSystem::from_column(3, true), Some(MysqlTypeSystem::Long(true)));
    assert_eq!(MysqlTypeSystem::from_column(5, false), Some(MysqlTypeSystem::Double(false)));
    assert_eq!(MysqlTypeSystem::from_column(8, false), Some(MysqlTypeSystem::LongLong(false)));
    assert_eq!(MysqlTypeSystem::from_column(10, true), Some(MysqlTypeSystem::Date(true)));
    assert_eq!(MysqlTypeSystem::from_column(11, true), Some(MysqlTypeSystem::Time(true)));
    assert_eq!(MysqlTypeSystem::from_column(12, true), Some(MysqlTypeSystem::Datetime(true)));
    assert_eq!(MysqlTypeSystem::from_column(246, true), Some(MysqlTypeSystem::Decimal(true)));
    assert_eq!(MysqlTypeSystem::from_column(253, false), Some(MysqlTypeSystem::VarChar(false)));
    assert_eq!(MysqlTypeSystem::from_column(254, true), Some(MysqlTypeSystem::Char(true)));
    assert_eq!(MysqlTypeSystem::from_column(0, true), None);
    assert_eq!(MysqlTypeSystem::from_column(255, true), None);
}

#[test]
fn mysql_types_know_name_and_nullability() {
    assert_eq!(MysqlTypeSystem::Decimal(true).name(), "Decimal");
    assert_eq!(MysqlTypeSystem::Long(true).native(), Some(NativeKind::Int64));
    assert_eq!(MysqlTypeSystem::LongLong(false).native(), Some(NativeKind::Int64));
    assert_eq!(MysqlTypeSystem::Char(true).native(), Some(NativeKind::Utf8));
    assert_eq!(MysqlTypeSystem::VarChar(true).native(), Some(NativeKind::Utf8));
    assert_eq!(MysqlTypeSystem::Date(true).native(), Some(NativeKind::Date));
    assert_eq!(MysqlTypeSystem::Time(true).native(), Some(NativeKind::Time));
    assert_eq!(MysqlTypeSystem::Datetime(true).native(), Some(NativeKind::DateTime));
    assert_eq!(MysqlTypeSystem::Decimal(true).native(), Some(NativeKind::Decimal));
    assert_eq!(MysqlTypeSystem::Double(true).native(), None);
    assert_eq!(MysqlTypeSystem::LongLong(false).name(), "LongLong");
    assert!(MysqlTypeSystem::VarChar(true).nullable());
    assert!(!MysqlTypeSystem::VarChar(false).nullable());
    assert_eq!(ArrowTypeSystem::Utf8(true).name(), "Utf8");
    assert_eq!(ArrowTypeSystem::Int64(false).native(), NativeKind::Int64);
    assert!(ArrowTypeSystem::Boolean(true).nullable());
    assert_eq!(kind_name(NativeKind::DateTime), "NaiveDateTime");
}

#[test]
fn check_accepts_only_the_native_type_of_the_variant() {
    assert!(MysqlTypeSystem::Long(false).check(NativeKind::Int64, false).is_ok());
    assert!(MysqlTypeSystem::VarChar(true).check(NativeKind::Utf8, true).is_ok());
    match MysqlTypeSystem::Long(false).check(NativeKind::Int64, true) {
        Err(ConnectorAgentError::TypeCheckFailed(expected, found)) => {
            assert_eq!(expected, "Long");
            assert_eq!(found, "i64");
        }
        other => panic!("unexpected outcome: {:?}", other),
    }
    assert!(MysqlTypeSystem::Double(false).check(NativeKind::Int64, false).is_err());
    assert!(ArrowTypeSystem::Int64(true).check(NativeKind::Int64, true).is_ok());
    match ArrowTypeSystem::Int64(true).check(NativeKind::Utf8, true) {
        Err(ConnectorAgentError::TypeCheckFailed(expected, found)) => {
            assert_eq!(expected, "Int64");
            assert_eq!(found, "String");
        }
        other => panic!("unexpected outcome: {:?}", other),
    }
    assert!(ArrowTypeSystem::Int64(true).check(NativeKind::Int64, false).is_err());
}

#[test]
fn rules_keep_the_nullability_of_a_column() {
    assert_eq!(
        convert_type(MysqlTypeSystem::Long(true)).unwrap(),
        ArrowTypeSystem::Int64(true)
    );
    assert_eq!(
        convert_type(MysqlTypeSystem::LongLong(false)).unwrap(),
        ArrowTypeSystem::Int64(false)
    );
    assert_eq!(
        convert_type(MysqlTypeSystem::Char(false)).unwrap(),
        ArrowTypeSystem::Utf8(false)
    );
    assert_eq!(
        convert_type(MysqlTypeSystem::VarChar(true)).unwrap(),
        ArrowTypeSystem::Utf8(true)
    );
    let src = [
        MysqlTypeSystem::LongLong(false),
        MysqlTypeSystem::VarChar(true),
        MysqlTypeSystem::Long(true),
    ];
    let dst = convert_schema(&src).unwrap();
    assert_eq!(dst.len(), 3);
    for c in 0..3 {
        assert_eq!(dst[c].nullable(), src[c].nullable());
    }
}

#[test]
fn a_column_without_a_rule_is_reported_by_name() {
    match convert_type(MysqlTypeSystem::Decimal(true)) {
        Err(ConnectorAgentError::NoConversionRule(src, dst)) => {
            assert_eq!(src, "Decimal");
            assert_eq!(dst, "ArrowTypeSystem");
        }
        other => panic!("unexpected outcome: {:?}", other),
    }
    let schema = [
        MysqlTypeSystem::Long(false),
        MysqlTypeSystem::Date(true),
        MysqlTypeSystem::Decimal(true),
    ];
    match convert_schema(&schema) {
        Err(ConnectorAgentError::NoConversionRule(src, _)) => assert_eq!(src, "Date"),
        other => panic!("unexpected outcome: {:?}", other),
    }
    assert_eq!(convert_schema(&[]).unwrap(), vec![]);
}

#[test]
fn transport_types_wrap_and_unwrap_cells() {
    assert!(matches!(7i64.into_cell(), Cell::Int64(7)));
    assert_eq!(<i64 as Transport>::from_cell(&Cell::Int64(-3)), Some(-3));
    assert_eq!(<i64 as Transport>::from_cell(&Cell::Int32(3)), None);
    assert_eq!(<i64 as Transport>::from_cell(&Cell::Null), None);
    assert_eq!(<i32 as Transport>::from_cell(&Cell::Int32(3)), Some(3));
    assert_eq!(<bool as Transport>::from_cell(&Cell::Boolean(true)), Some(true));
    assert_eq!(
        <String as Transport>::from_cell(&Cell::Utf8("x".to_string())),
        Some("x".to_string())
    );
    assert_eq!(<String as Transport>::from_cell(&Cell::Int64(1)), None);
    assert_eq!(<i64 as Transport>::kind(), NativeKind::Int64);
    assert_eq!(<String as Transport>::label(), "String");
    let date = chrono::NaiveDate::from_ymd(2021, 5, 17);
    assert_eq!(<chrono::NaiveDate as Transport>::from_cell(&date.into_cell()), Some(date));
    let amount = rust_decimal::Decimal::new(1234, 2);
    assert_eq!(
        <rust_decimal::Decimal as Transport>::from_cell(&amount.into_cell()),
        Some(amount)
    );
    assert!(Cell::Null.is_null());
    assert!(!Cell::Int64(0).is_null());
    assert!(matches!(Cell::Utf8("a".to_string()).duplicate(), Cell::Utf8(s) if s == "a"));
}
