use to_parquet::{
    from_value_to_delimited_string, merge_descriptors, output_path, render_rows,
    to_delimited_text, to_string_tagged_value, DynamicValue, RenderError, ToParquet,
    Span, DEFAULT_OUTPUT, SAVED_MESSAGE,
};

fn s(t: &str) -> DynamicValue {
    DynamicValue::String(t.to_string())
}

fn record(pairs: Vec<(&str, DynamicValue)>) -> DynamicValue {
    let mut cols = Vec::new();
    let mut vals = Vec::new();
    for (k, v) in pairs {
        cols.push(k.to_string());
        vals.push(v);
    }
    DynamicValue::Record { cols, vals }
}

fn bad(start: usize) -> DynamicValue {
    DynamicValue::Unsupported(Span { start, end: start + 3 })
}

fn at(start: usize) -> RenderError {
    RenderError::UnsupportedValue(Span { start, end: start + 3 })
}

fn text(v: &DynamicValue) -> String {
    from_value_to_delimited_string(v).expect("renders")
}

#[test]
fn record_renders_header_and_row() {
    let v = record(vec![("a", DynamicValue::Int(1)), ("b", s("x"))]);
    assert_eq!(text(&v), "a,b\n1,x\n");
}

#[test]
fn list_of_records_fills_missing_fields_with_empty_cells() {
    let v = DynamicValue::List(vec![
        record(vec![("a", DynamicValue::Int(1))]),
        record(vec![("b", DynamicValue::Int(2))]),
    ]);
    assert_eq!(text(&v), "a,b\n1,\n,2\n");
}

#[test]
fn flat_scalar_list_is_one_headerless_row() {
    let v = DynamicValue::List(vec![
        DynamicValue::Int(1),
        DynamicValue::Int(2),
        DynamicValue::Int(3),
    ]);
    assert_eq!(text(&v), "1,2,3\n");
}

#[test]
fn unsupported_value_in_record_fails() {
    let v = record(vec![("a", DynamicValue::Int(1)), ("b", bad(10))]);
    assert_eq!(from_value_to_delimited_string(&v), Err(at(10)));
}

#[test]
fn unsupported_value_in_table_fails() {
    let v = DynamicValue::List(vec![
        record(vec![("a", DynamicValue::Int(1))]),
        record(vec![("a", bad(20))]),
    ]);
    assert_eq!(from_value_to_delimited_string(&v), Err(at(20)));
    assert_eq!(render_rows(&v), Err(at(20)));
}

#[test]
fn unsupported_value_in_flat_list_fails() {
    let v = DynamicValue::List(vec![DynamicValue::Int(1), bad(30)]);
    assert_eq!(from_value_to_delimited_string(&v), Err(at(30)));
}

#[test]
fn unsupported_bare_value_fails() {
    assert_eq!(
        from_value_to_delimited_string(&bad(0)),
        Err(at(0))
    );
    assert_eq!(to_string_tagged_value(&bad(7)), Err(at(7)));
}

#[test]
fn default_destination_is_fixed_file_name() {
    assert_eq!(output_path(None), "foo.parquet");
    assert_eq!(DEFAULT_OUTPUT, "foo.parquet");
    assert_eq!(output_path(Some("out.parquet".to_string())), "out.parquet");
}

#[test]
fn converting_twice_gives_the_same_text() {
    let v = DynamicValue::List(vec![
        record(vec![("a", DynamicValue::Int(1)), ("b", s("x,y"))]),
        record(vec![("b", DynamicValue::Bool(true))]),
    ]);
    assert_eq!(text(&v), text(&v));
    assert_eq!(text(&v), "a,b\n1,\"x,y\"\n,true\n");
}

#[test]
fn unify_keeps_first_seen_order_without_repeats() {
    let vals = vec![
        record(vec![("b", DynamicValue::Int(1)), ("a", DynamicValue::Int(2))]),
        record(vec![("a", DynamicValue::Int(3)), ("c", DynamicValue::Int(4))]),
        record(vec![("", DynamicValue::Int(5)), ("b", DynamicValue::Int(6))]),
        DynamicValue::Int(7),
    ];
    assert_eq!(merge_descriptors(&vals), vec!["b", "a", "c"]);
}

#[test]
fn unify_of_nothing_is_empty() {
    assert!(merge_descriptors(&vec![]).is_empty());
    assert!(merge_descriptors(&vec![DynamicValue::Int(1), s("x")]).is_empty());
}

#[test]
fn scalar_cells() {
    let cell = |v: DynamicValue| to_string_tagged_value(&v).expect("cell");
    assert_eq!(cell(DynamicValue::Int(-42)), "-42");
    assert_eq!(cell(DynamicValue::Int(i64::MIN)), "-9223372036854775808");
    assert_eq!(cell(DynamicValue::Int(0)), "0");
    assert_eq!(cell(DynamicValue::Bool(false)), "false");
    assert_eq!(cell(DynamicValue::Binary(vec![1, 2, 255])), "[1, 2, 255]");
    assert_eq!(cell(DynamicValue::Binary(vec![])), "[]");
    assert_eq!(cell(DynamicValue::Nothing), "");
    assert_eq!(cell(DynamicValue::Float("1.5".to_string())), "1.5");
    assert_eq!(
        cell(DynamicValue::Date("2020-01-02 03:04:05 +00:00".to_string())),
        "2020-01-02 03:04:05 +00:00"
    );
    assert_eq!(cell(DynamicValue::Filesize("1.0 KiB".to_string())), "1.0 KiB");
}

#[test]
fn nested_values_are_summarised() {
    let cell = |v: DynamicValue| to_string_tagged_value(&v).expect("cell");
    assert_eq!(cell(DynamicValue::List(vec![DynamicValue::Int(1), DynamicValue::Int(2)])), "[list 2 items]");
    assert_eq!(cell(DynamicValue::List(vec![DynamicValue::Int(1)])), "[list 1 item]");
    assert_eq!(cell(record(vec![("a", DynamicValue::Int(1))])), "{record 1 field}");
    assert_eq!(cell(record(vec![])), "{record 0 fields}");
    assert_eq!(cell(DynamicValue::List(vec![])), "[list 0 items]");
    let table = DynamicValue::List(vec![
        record(vec![("a", DynamicValue::Int(1))]),
        record(vec![("a", DynamicValue::Int(2))]),
    ]);
    assert_eq!(cell(table), "[table 2 rows]");
    assert_eq!(cell(DynamicValue::List(vec![record(vec![])])), "[table 1 row]");
    let mixed = DynamicValue::List(vec![record(vec![]), DynamicValue::Int(1)]);
    assert_eq!(cell(mixed), "[list 2 items]");
}

#[test]
fn bare_scalar_is_its_cell_text() {
    assert_eq!(text(&s("a,b")), "a,b");
    assert_eq!(text(&DynamicValue::Int(7)), "7");
    assert_eq!(text(&DynamicValue::Nothing), "");
}

#[test]
fn fields_are_quoted_when_needed() {
    let rows = vec![vec![
        "plain".to_string(),
        "with,comma".to_string(),
        "say \"hi\"".to_string(),
        "two\nlines".to_string(),
    ]];
    assert_eq!(
        to_delimited_text(&rows).unwrap(),
        "plain,\"with,comma\",\"say \"\"hi\"\"\",\"two\nlines\"\n"
    );
}

#[test]
fn empty_records_are_written_as_empty_quoted_field() {
    let rows = vec![vec![], vec![String::new()], vec![String::new(), String::new()]];
    assert_eq!(to_delimited_text(&rows).unwrap(), "\"\"\n\"\"\n,\n");
    assert_eq!(text(&DynamicValue::List(vec![])), "\"\"\n");
}

#[test]
fn rows_of_a_table() {
    let v = DynamicValue::List(vec![
        record(vec![("a", DynamicValue::Int(1))]),
        DynamicValue::Int(9),
    ]);
    assert_eq!(
        render_rows(&v).unwrap(),
        vec![vec!["a".to_string()], vec!["1".to_string()], vec![String::new()]]
    );
}

#[test]
fn command_texts() {
    assert_eq!(ToParquet.name(), "to parquet");
    assert_eq!(ToParquet.usage(), "Convert table into a parquet file ");
    assert_eq!(SAVED_MESSAGE, "Saved parquet file");
}

#[test]
fn unsupported_non_record_element_of_a_table_is_never_looked_up() {
    let v = DynamicValue::List(vec![record(vec![("a", DynamicValue::Int(1))]), bad(40)]);
    assert_eq!(text(&v), "a\n1\n\"\"\n");
}

#[test]
fn nested_unsupported_value_is_summarised_not_rejected() {
    let v = record(vec![("a", DynamicValue::List(vec![bad(50)]))]);
    assert_eq!(text(&v), "a\n[list 1 item]\n");
}

#[test]
fn the_first_unsupported_cell_is_reported() {
    let v = record(vec![("a", bad(5)), ("b", bad(9))]);
    assert_eq!(from_value_to_delimited_string(&v), Err(at(5)));
    let t = DynamicValue::List(vec![
        record(vec![("a", DynamicValue::Int(1)), ("b", bad(60))]),
        record(vec![("a", bad(70))]),
    ]);
    assert_eq!(from_value_to_delimited_string(&t), Err(at(60)));
    assert_eq!(from_value_to_delimited_string(&t), from_value_to_delimited_string(&t));
}
