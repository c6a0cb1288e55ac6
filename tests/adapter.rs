use gitql_pgwire::cache::StatementCache;
use gitql_pgwire::columns::{
    describe_columns, encode_column, format_for, wire_type, ColumnType, Schema, SemanticType,
    TransferFormat, TypeResolutionError, WireType,
};
use gitql_pgwire::handler::{
    answer_query, execute_portal, first_statement, is_session_control, plan_simple_query,
    record_description, QueryError, QueryOutcome, SimplePlan,
};
use gitql_pgwire::projection::{project, Group, Projection, RawResult, SelectedGroups};
use gitql_pgwire::values::{encode_row, encode_value, Row, Value, WireValue};

fn text(s: &str) -> Value {
    Value::Text(s.to_string())
}

fn row(values: Vec<Value>) -> Row {
    Row { values }
}

fn titles(ts: &[&str]) -> Vec<String> {
    ts.iter().map(|t| t.to_string()).collect()
}

fn files_schema() -> Schema {
    Schema {
        columns: vec![
            ColumnType { title: "name".to_string(), kind: SemanticType::Text },
            ColumnType { title: "size".to_string(), kind: SemanticType::Integer },
            ColumnType { title: "author".to_string(), kind: SemanticType::Text },
            ColumnType { title: "commit_hash".to_string(), kind: SemanticType::Text },
            ColumnType { title: "stamp".to_string(), kind: SemanticType::DateTime },
            ColumnType { title: "tags".to_string(), kind: SemanticType::Other },
        ],
    }
}

fn files_result() -> RawResult {
    RawResult::Selected(SelectedGroups {
        titles: titles(&["name", "size"]),
        groups: vec![Group {
            rows: vec![
                row(vec![text("a.txt"), Value::Integer(10)]),
                row(vec![text("b.txt"), Value::Integer(20)]),
            ],
        }],
        hidden: vec![],
    })
}

fn rows_of(p: Projection) -> (Vec<String>, Vec<Row>) {
    match p {
        Projection::Rows(p) => (p.titles, p.rows),
        Projection::Acknowledged => panic!("expected rows"),
    }
}

fn text_values(r: &Row) -> Vec<String> {
    r.values
        .iter()
        .map(|v| match v {
            Value::Text(s) => s.clone(),
            other => format!("{:?}", other),
        })
        .collect()
}

#[test]
fn single_group_without_hidden_columns_is_unchanged() {
    let (ts, rows) = rows_of(project(&files_result()).unwrap());
    assert_eq!(ts, titles(&["name", "size"]));
    assert_eq!(rows.len(), 2);
    assert!(matches!(&rows[0].values[..], [Value::Text(a), Value::Integer(10)] if a == "a.txt"));
    assert!(matches!(&rows[1].values[..], [Value::Text(b), Value::Integer(20)] if b == "b.txt"));
}

#[test]
fn files_scenario_schema_and_first_row_encoding() {
    let schema = files_schema();
    let (ts, rows) = rows_of(project(&files_result()).unwrap());
    let fields = describe_columns(&schema, &ts);
    assert_eq!(fields.len(), 2);
    assert_eq!(fields[0].name, "name");
    assert_eq!(fields[0].wire_type, WireType::Text);
    assert_eq!(fields[1].name, "size");
    assert_eq!(fields[1].wire_type, WireType::Int8);
    let encoded = encode_row(&rows[0]);
    assert!(matches!(&encoded.fields[..], [WireValue::Text(a), WireValue::Int8(10)] if a == "a.txt"));
}

#[test]
fn hidden_column_is_removed_from_titles_and_rows() {
    let raw = RawResult::Selected(SelectedGroups {
        titles: titles(&["author", "commit_hash"]),
        groups: vec![Group { rows: vec![row(vec![text("alice"), text("deadbeef")])] }],
        hidden: titles(&["commit_hash"]),
    });
    let (ts, rows) = rows_of(project(&raw).unwrap());
    assert_eq!(ts, titles(&["author"]));
    assert_eq!(rows.len(), 1);
    assert_eq!(text_values(&rows[0]), vec!["alice".to_string()]);
}

#[test]
fn hidden_set_shrinks_titles_by_hidden_count() {
    let raw = RawResult::Selected(SelectedGroups {
        titles: titles(&["a", "b", "c", "d"]),
        groups: vec![Group {
            rows: vec![row(vec![text("1"), text("2"), text("3"), text("4")])],
        }],
        hidden: titles(&["d", "b", "zz"]),
    });
    let (ts, rows) = rows_of(project(&raw).unwrap());
    assert_eq!(ts, titles(&["a", "c"]));
    assert_eq!(text_values(&rows[0]), vec!["1".to_string(), "3".to_string()]);
}

#[test]
fn groups_are_flattened_in_order() {
    let raw = RawResult::Selected(SelectedGroups {
        titles: titles(&["x"]),
        groups: vec![
            Group { rows: vec![row(vec![text("a")]), row(vec![text("b")])] },
            Group { rows: vec![row(vec![text("c")]), row(vec![text("d")])] },
        ],
        hidden: vec![],
    });
    let (_, rows) = rows_of(project(&raw).unwrap());
    let flat: Vec<String> = rows.iter().map(|r| text_values(r)[0].clone()).collect();
    assert_eq!(flat, vec!["a", "b", "c", "d"]);
}

#[test]
fn no_groups_gives_no_rows() {
    let raw = RawResult::Selected(SelectedGroups { titles: titles(&["x"]), groups: vec![], hidden: vec![] });
    let (ts, rows) = rows_of(project(&raw).unwrap());
    assert_eq!(ts, titles(&["x"]));
    assert!(rows.is_empty());
}

#[test]
fn row_of_wrong_arity_is_an_error() {
    let raw = RawResult::Selected(SelectedGroups {
        titles: titles(&["x", "y"]),
        groups: vec![Group { rows: vec![row(vec![text("a")])] }],
        hidden: vec![],
    });
    assert!(project(&raw).is_err());
    assert!(matches!(answer_query(&files_schema(), &raw), Err(QueryError::InconsistentRow)));
}

#[test]
fn acknowledged_result_answers_one_row_and_no_fields() {
    assert!(matches!(project(&RawResult::Acknowledged), Ok(Projection::Acknowledged)));
    assert!(matches!(
        answer_query(&files_schema(), &RawResult::Acknowledged),
        Ok(QueryOutcome::Acknowledge { rows: 1 })
    ));
    let mut cache = StatementCache::new();
    let fields = record_description(&mut cache, &files_schema(), "DO 1", RawResult::Acknowledged).unwrap();
    assert!(fields.is_empty());
}

#[test]
fn type_mapping_is_fixed() {
    assert_eq!(wire_type(SemanticType::Text), Ok(WireType::Text));
    assert_eq!(wire_type(SemanticType::Integer), Ok(WireType::Int8));
    assert_eq!(wire_type(SemanticType::Float), Ok(WireType::Float8));
    assert_eq!(wire_type(SemanticType::Boolean), Ok(WireType::Bool));
    assert_eq!(wire_type(SemanticType::Date), Ok(WireType::Date));
    assert_eq!(wire_type(SemanticType::Time), Ok(WireType::Time));
    assert_eq!(wire_type(SemanticType::DateTime), Ok(WireType::Time));
    assert_eq!(wire_type(SemanticType::Other), Err(TypeResolutionError::UnsupportedType));
    assert_eq!(format_for(3), TransferFormat::Text);
}

#[test]
fn datetime_column_is_described_with_time_wire_type() {
    let f = encode_column(&files_schema(), "stamp", 2).unwrap();
    assert_eq!(f.name, "stamp");
    assert_eq!(f.wire_type, WireType::Time);
    assert_eq!(f.format, TransferFormat::Text);
}

#[test]
fn unmapped_and_unknown_columns_are_skipped() {
    let schema = files_schema();
    assert_eq!(encode_column(&schema, "tags", 0).unwrap_err(), TypeResolutionError::UnsupportedType);
    assert_eq!(encode_column(&schema, "nope", 0).unwrap_err(), TypeResolutionError::UnknownColumn);
    let fields = describe_columns(&schema, &titles(&["tags", "name", "nope", "size"]));
    let names: Vec<&str> = fields.iter().map(|f| f.name.as_str()).collect();
    assert_eq!(names, vec!["name", "size"]);
}

#[test]
fn values_encode_by_variant() {
    assert!(matches!(encode_value(&Value::Float(4.5f64.to_bits())), WireValue::Float8(b) if f64::from_bits(b) == 4.5));
    assert!(matches!(encode_value(&Value::Boolean(true)), WireValue::Bool(true)));
    assert!(matches!(encode_value(&Value::Date("2024-01-02".to_string())), WireValue::Text(s) if s == "2024-01-02"));
    assert!(matches!(encode_value(&Value::Time("10:00:00".to_string())), WireValue::Text(s) if s == "10:00:00"));
    assert!(matches!(encode_value(&Value::DateTime("2024-01-02 10:00:00".to_string())), WireValue::Text(s) if s == "2024-01-02 10:00:00"));
    assert!(matches!(encode_value(&Value::Null), WireValue::Null));
}

fn result_names(o: &QueryOutcome) -> (Vec<String>, Vec<Vec<String>>) {
    match o {
        QueryOutcome::Rows(rs) => (
            rs.fields.iter().map(|f| f.name.clone()).collect(),
            rs.rows
                .iter()
                .map(|r| {
                    r.fields
                        .iter()
                        .map(|v| match v {
                            WireValue::Text(s) => s.clone(),
                            WireValue::Int8(i) => i.to_string(),
                            other => format!("{:?}", other),
                        })
                        .collect()
                })
                .collect(),
        ),
        QueryOutcome::Acknowledge { .. } => panic!("expected rows"),
    }
}

#[test]
fn execute_after_describe_repeats_the_described_rows() {
    let schema = files_schema();
    let mut cache = StatementCache::new();
    let statement = "SELECT name, size FROM files";
    let fields = record_description(&mut cache, &schema, statement, files_result()).unwrap();
    assert_eq!(fields.len(), 2);
    // The data source changes after the description; execution must not see it.
    let _changed = RawResult::Selected(SelectedGroups {
        titles: titles(&["name", "size"]),
        groups: vec![Group { rows: vec![row(vec![text("c.txt"), Value::Integer(30)])] }],
        hidden: vec![],
    });
    let first = execute_portal(&cache, &schema, statement);
    let second = execute_portal(&cache, &schema, statement);
    let a = result_names(&first);
    let b = result_names(&second);
    assert_eq!(a, b);
    assert_eq!(a.0, vec!["name", "size"]);
    assert_eq!(a.1, vec![vec!["a.txt", "10"], vec!["b.txt", "20"]]);
}

#[test]
fn redescribing_overwrites_the_cached_result() {
    let schema = files_schema();
    let mut cache = StatementCache::new();
    let statement = "SELECT name FROM files";
    let one = RawResult::Selected(SelectedGroups {
        titles: titles(&["name"]),
        groups: vec![Group { rows: vec![row(vec![text("a.txt")])] }],
        hidden: vec![],
    });
    let two = RawResult::Selected(SelectedGroups {
        titles: titles(&["name"]),
        groups: vec![Group { rows: vec![row(vec![text("z.txt")])] }],
        hidden: vec![],
    });
    record_description(&mut cache, &schema, statement, one).unwrap();
    record_description(&mut cache, &schema, "SELECT size FROM files", files_result()).unwrap();
    record_description(&mut cache, &schema, statement, two).unwrap();
    let (_, rows) = result_names(&execute_portal(&cache, &schema, statement));
    assert_eq!(rows, vec![vec!["z.txt"]]);
    assert!(cache.get("SELECT size FROM files").is_some());
    assert!(cache.get("SELECT  name FROM files").is_none());
}

#[test]
fn execute_without_describe_is_acknowledged() {
    let cache = StatementCache::new();
    let o = execute_portal(&cache, &files_schema(), "SELECT name FROM files");
    assert!(matches!(o, QueryOutcome::Acknowledge { rows: 1 }));
}

#[test]
fn session_control_statements_are_acknowledged() {
    assert!(is_session_control("SET extra_float_digits = 3"));
    assert!(is_session_control("set x"));
    assert!(!is_session_control("SELECT 1"));
    let mut cache = StatementCache::new();
    record_description(&mut cache, &files_schema(), "Set x", files_result()).unwrap();
    let o = execute_portal(&cache, &files_schema(), "Set x");
    assert!(matches!(o, QueryOutcome::Acknowledge { rows: 1 }));
}

#[test]
fn simple_query_plan() {
    assert!(matches!(plan_simple_query("deallocate pdo_stmt_1"), SimplePlan::Acknowledge));
    assert!(matches!(plan_simple_query("DEALLOCATE ALL"), SimplePlan::Acknowledge));
    match plan_simple_query("SELECT 1; SELECT 2") {
        SimplePlan::Run(s) => assert_eq!(s, "SELECT 1"),
        SimplePlan::Acknowledge => panic!("expected a statement"),
    }
    assert_eq!(first_statement("SELECT name FROM files"), "SELECT name FROM files");
    assert_eq!(first_statement(";x"), "");
}
