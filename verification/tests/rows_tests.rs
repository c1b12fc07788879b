use postgres_browser_proxy::{
    cell_value, Fetched, column_kind, render_cell, row_to_string, CellValue, Column, ColumnKind,
};

fn col(name: &str, value: CellValue) -> Column {
    Column { name: name.to_string(), value }
}

#[test]
fn kinds_by_type() {
    assert_eq!(column_kind(1082, "date"), ColumnKind::Date);
    assert_eq!(column_kind(1083, "time"), ColumnKind::Time);
    assert_eq!(column_kind(1114, "timestamp"), ColumnKind::Timestamp);
    assert_eq!(column_kind(1184, "timestamptz"), ColumnKind::TimestampTz);
    for oid in [18, 1043, 25, 19] {
        assert_eq!(column_kind(oid, "x"), ColumnKind::Text);
    }
    assert_eq!(column_kind(23, "int4"), ColumnKind::Int4);
    assert_eq!(column_kind(16, "bool"), ColumnKind::Bool);
    assert_eq!(column_kind(701, "float8"), ColumnKind::Float8);
    assert_eq!(column_kind(98765, "geography"), ColumnKind::Geography);
    assert_eq!(column_kind(98765, "geometry"), ColumnKind::Unknown);
    assert_eq!(column_kind(20, "int8"), ColumnKind::Unknown);
}

#[test]
fn cells() {
    assert_eq!(render_cell(&CellValue::Null), "null");
    assert_eq!(render_cell(&CellValue::Int4(-42)), "-42");
    assert_eq!(render_cell(&CellValue::Bool(true)), "true");
    assert_eq!(render_cell(&CellValue::Bool(false)), "false");
    assert_eq!(render_cell(&CellValue::Quoted("2022-11-03".to_string())), "\"2022-11-03\"");
    assert_eq!(render_cell(&CellValue::Plain("1.5".to_string())), "1.5");
    assert_eq!(
        render_cell(&CellValue::UnknownType("int8".to_string())),
        "\"type 'int8' is unknown\""
    );
}

#[test]
fn users_table_as_json() {
    let rows = vec![
        vec![
            col("id", CellValue::Int4(1)),
            col("username", CellValue::Quoted("Macy".to_string())),
            col("age", CellValue::Int4(24)),
        ],
        vec![
            col("id", CellValue::Int4(2)),
            col("username", CellValue::Quoted("Terry".to_string())),
            col("age", CellValue::Null),
        ],
    ];
    assert_eq!(
        row_to_string(rows),
        "[{\"id\":1,\"username\":\"Macy\",\"age\":24},{\"id\":2,\"username\":\"Terry\",\"age\":null}]"
    );
}

#[test]
fn empty_results() {
    assert_eq!(row_to_string(vec![]), "[]");
    assert_eq!(row_to_string(vec![vec![col("a", CellValue::Bool(true))]]), "[{\"a\":true}]");
}

fn json(kind: ColumnKind, fetched: Fetched) -> String {
    render_cell(&cell_value(&kind, fetched, "int8".to_string()))
}

#[test]
fn value_forms_by_kind() {
    assert_eq!(json(ColumnKind::Int4, Fetched::Int4(7)), "7");
    assert_eq!(json(ColumnKind::Int4, Fetched::Null), "null");
    assert_eq!(json(ColumnKind::Bool, Fetched::Bool(false)), "false");
    assert_eq!(json(ColumnKind::Float8, Fetched::Text("2.5".to_string())), "2.5");
    assert_eq!(json(ColumnKind::Float8, Fetched::Null), "null");
    assert_eq!(json(ColumnKind::Text, Fetched::Text("Evan".to_string())), "\"Evan\"");
    assert_eq!(json(ColumnKind::Date, Fetched::Text("2022-11-03".to_string())), "\"2022-11-03\"");
    assert_eq!(json(ColumnKind::TimestampTz, Fetched::Null), "null");
    assert_eq!(
        json(ColumnKind::Geography, Fetched::Text("{\"long\":1,\"lat\":2}".to_string())),
        "{\"long\":1,\"lat\":2}"
    );
    assert_eq!(json(ColumnKind::Unknown, Fetched::Null), "\"type 'int8' is unknown\"");
    assert_eq!(json(ColumnKind::Unknown, Fetched::Int4(3)), "\"type 'int8' is unknown\"");
}
