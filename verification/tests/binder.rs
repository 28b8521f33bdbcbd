use raxtest::{
    gen_flatten_step, InputData, InputDataMap, InputOption, InputStep, JsonNumber, JsonObject,
    JsonValue, RunError, Table,
};

fn step(name: &str, ref_data: &str, body: bool, query: bool) -> InputStep {
    InputStep {
        name: name.to_string(),
        path: format!("/{}/{{id}}", name),
        method: "POST".to_string(),
        ref_data: ref_data.to_string(),
        option: InputOption { body, query },
    }
}

fn object(key: &str, n: u64) -> JsonObject {
    let mut table: JsonObject = Table::new();
    table.insert(key.to_string(), JsonValue::Number(JsonNumber::Unsigned(n)));
    table
}

fn record(n: u64, expect_status: u16) -> InputData {
    InputData { body: Some(object("b", n)), query: Some(object("id", n)), expect_status }
}

fn data(entries: Vec<(&str, Vec<InputData>)>) -> InputDataMap {
    let mut map: InputDataMap = Table::new();
    for (key, records) in entries {
        map.insert(key.to_string(), records);
    }
    map
}

#[test]
fn a_step_is_bound_once_for_each_record_in_record_order() {
    let steps = vec![step("s", "k", true, true)];
    let map = data(vec![("k", vec![record(10, 200), record(11, 201), record(12, 404)])]);
    let flat = gen_flatten_step(&steps, &map).unwrap();
    assert_eq!(flat.len(), 3);
    for (j, (step_index, data_index, bound)) in flat.iter().enumerate() {
        assert_eq!(*step_index, 0);
        assert_eq!(*data_index, j);
        assert_eq!(bound.name, format!("s[{}]", j));
        assert_eq!(bound.path, "/s/{id}");
        assert_eq!(bound.method, "POST");
    }
    assert_eq!(flat[0].2.input_data.expect_status, 200);
    assert_eq!(flat[1].2.input_data.expect_status, 201);
    assert_eq!(flat[2].2.input_data.expect_status, 404);
    let query = flat[1].2.input_data.query.as_ref().unwrap();
    assert_eq!(query.get("id").unwrap().path_text(), "11");
    let body = flat[2].2.input_data.body.as_ref().unwrap();
    assert_eq!(body.get("b").unwrap().path_text(), "12");
}

#[test]
fn record_numbers_beyond_nine_are_written_in_full() {
    let steps = vec![step("s", "k", false, false)];
    let records: Vec<InputData> = (0..12).map(|n| record(n, 200)).collect();
    let map = data(vec![("k", records)]);
    let flat = gen_flatten_step(&steps, &map).unwrap();
    assert_eq!(flat.len(), 12);
    assert_eq!(flat[9].2.name, "s[9]");
    assert_eq!(flat[10].2.name, "s[10]");
    assert_eq!(flat[11].2.name, "s[11]");
}

#[test]
fn body_and_query_follow_the_options_of_the_step() {
    let steps = vec![
        step("none", "k", false, false),
        step("body", "k", true, false),
        step("query", "k", false, true),
    ];
    let map = data(vec![("k", vec![record(1, 200)])]);
    let flat = gen_flatten_step(&steps, &map).unwrap();
    assert_eq!(flat.len(), 3);
    assert!(flat[0].2.input_data.body.is_none() && flat[0].2.input_data.query.is_none());
    assert!(flat[1].2.input_data.body.is_some() && flat[1].2.input_data.query.is_none());
    assert!(flat[2].2.input_data.body.is_none() && flat[2].2.input_data.query.is_some());
    assert_eq!(flat[1].0, 1);
    assert_eq!(flat[2].0, 2);
    assert_eq!(flat[2].2.name, "query[0]");
}

#[test]
fn a_record_without_body_gives_none_even_where_asked() {
    let steps = vec![step("s", "k", true, true)];
    let map = data(vec![("k", vec![InputData { body: None, query: None, expect_status: 204 }])]);
    let flat = gen_flatten_step(&steps, &map).unwrap();
    assert_eq!(flat.len(), 1);
    assert!(flat[0].2.input_data.body.is_none());
    assert!(flat[0].2.input_data.query.is_none());
    assert_eq!(flat[0].2.input_data.expect_status, 204);
}

#[test]
fn a_key_without_records_adds_nothing() {
    let steps = vec![step("a", "empty", true, true), step("b", "k", true, true)];
    let map = data(vec![("empty", vec![]), ("k", vec![record(1, 200), record(2, 200)])]);
    let flat = gen_flatten_step(&steps, &map).unwrap();
    assert_eq!(flat.len(), 2);
    assert_eq!((flat[0].0, flat[0].1), (1, 0));
    assert_eq!((flat[1].0, flat[1].1), (1, 1));
    assert_eq!(flat[0].2.name, "b[0]");
    assert_eq!(flat[1].2.name, "b[1]");
}

#[test]
fn steps_come_in_step_order() {
    let steps = vec![step("a", "two", false, false), step("b", "one", false, false)];
    let map = data(vec![("one", vec![record(1, 200)]), ("two", vec![record(2, 200), record(3, 200)])]);
    let flat = gen_flatten_step(&steps, &map).unwrap();
    let names: Vec<&str> = flat.iter().map(|(_, _, bound)| bound.name.as_str()).collect();
    assert_eq!(names, vec!["a[0]", "a[1]", "b[0]"]);
    assert!(gen_flatten_step(&Vec::new(), &map).unwrap().is_empty());
}

#[test]
fn an_unknown_data_key_is_a_data_reference_error() {
    let steps = vec![
        step("a", "k", false, false),
        step("b", "missing", false, false),
        step("c", "gone", false, false),
    ];
    let map = data(vec![("k", vec![record(1, 200)])]);
    match gen_flatten_step(&steps, &map) {
        Err(RunError::DataReference { key }) => assert_eq!(key, "missing"),
        other => panic!("unexpected: {:?}", other),
    }
}

#[test]
fn a_record_is_copied_in_depth() {
    let first = record(5, 418);
    let copy = first.duplicate();
    assert_eq!(format!("{:?}", copy), format!("{:?}", first));
    assert_eq!(copy.expect_status, 418);
    assert_eq!(copy.query.unwrap().get("id").unwrap().path_text(), "5");
    let bare = InputData { body: None, query: None, expect_status: 1 }.duplicate();
    assert!(bare.body.is_none() && bare.query.is_none());
}
