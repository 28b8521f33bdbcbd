use raxtest::{
    build_request, data_file_path, finalize, method_or_get, FlattenStep, InputCaterogy,
    InputConfigration, InputData, JsonNumber, JsonObject, JsonValue, OutputResult, RunError,
    Table,
};

fn object(key: &str, n: u64) -> JsonObject {
    let mut table: JsonObject = Table::new();
    table.insert(key.to_string(), JsonValue::Number(JsonNumber::Unsigned(n)));
    table
}

fn bound(path: &str, method: &str, body: Option<JsonObject>, query: Option<JsonObject>) -> FlattenStep {
    FlattenStep {
        name: "s[0]".to_string(),
        path: path.to_string(),
        method: method.to_string(),
        input_data: InputData { body, query, expect_status: 200 },
    }
}

#[test]
fn url_is_base_and_resolved_path_put_together() {
    let step = bound("/users/{id}", "GET", None, Some(object("id", 7)));
    let request = build_request("http://host:8080", &step, None).unwrap();
    assert_eq!(request.url, "http://host:8080/users/7");
    assert_eq!(request.method, "GET");
    assert!(request.body.is_none());
    assert!(request.cookie.is_none());
}

#[test]
fn slashes_are_neither_added_nor_removed() {
    let step = bound("/a", "GET", None, None);
    assert_eq!(build_request("http://h/", &step, None).unwrap().url, "http://h//a");
    let bare = bound("a", "GET", None, None);
    assert_eq!(build_request("http://h", &bare, None).unwrap().url, "http://ha");
    assert_eq!(build_request("", &bare, None).unwrap().url, "a");
}

#[test]
fn body_and_cookie_are_carried_as_they_are() {
    let step = bound("/login", "POST", Some(object("pin", 1234)), None);
    let cookie = "sid=abc; Path=/; HttpOnly".to_string();
    let request = build_request("http://h", &step, Some(&cookie)).unwrap();
    assert_eq!(request.method, "POST");
    assert_eq!(request.cookie.as_deref(), Some("sid=abc; Path=/; HttpOnly"));
    let body = request.body.unwrap();
    assert_eq!(body.len(), 1);
    assert_eq!(body.key_at(0), "pin");
    assert_eq!(body.get("pin").unwrap().path_text(), "1234");
}

#[test]
fn a_placeholder_without_query_entry_fails_the_request() {
    let step = bound("/users/{id}", "GET", None, Some(object("other", 7)));
    match build_request("http://h", &step, None) {
        Err(RunError::Template { token }) => assert_eq!(token, "id"),
        other => panic!("unexpected: {:?}", other),
    }
}

#[test]
fn a_method_that_does_not_parse_falls_back_to_get() {
    assert_eq!(method_or_get("GET"), "GET");
    assert_eq!(method_or_get("POST"), "POST");
    assert_eq!(method_or_get("DELETE"), "DELETE");
    assert_eq!(method_or_get("PATCH"), "PATCH");
    assert_eq!(method_or_get("OPTIONS"), "OPTIONS");
    assert_eq!(method_or_get("post"), "post");
    assert_eq!(method_or_get("PROPFIND"), "PROPFIND");
    assert_eq!(method_or_get("M-SEARCH"), "M-SEARCH");
    assert_eq!(method_or_get("A-VERY-LONG-METHOD-NAME"), "A-VERY-LONG-METHOD-NAME");
    assert_eq!(method_or_get("!*+-.^_`|~09AZaz"), "!*+-.^_`|~09AZaz");
    assert_eq!(method_or_get(""), "GET");
    assert_eq!(method_or_get("P ST"), "GET");
    assert_eq!(method_or_get("GET "), "GET");
    assert_eq!(method_or_get("PÖST"), "GET");
    assert_eq!(method_or_get("a/b"), "GET");
    assert_eq!(method_or_get("a:b"), "GET");
    assert_eq!(method_or_get("{x}"), "GET");
    assert_eq!(method_or_get("a@b"), "GET");
    assert_eq!(method_or_get("[x]"), "GET");
    let step = bound("/a", "FETCH IT", None, None);
    assert_eq!(build_request("http://h", &step, None).unwrap().method, "GET");
}

#[test]
fn the_method_rule_is_the_one_of_the_http_library() {
    for code in 0u32..300 {
        let c = char::from_u32(code).unwrap();
        for text in [c.to_string(), format!("GE{}T", c)] {
            let parses = reqwest::Method::from_bytes(text.as_bytes()).is_ok();
            let kept = method_or_get(&text) == text;
            assert_eq!(parses, kept, "text {:?}", text);
        }
    }
}

#[test]
fn data_pointer_must_start_with_the_scheme() {
    assert_eq!(data_file_path("json://data.json").unwrap(), "data.json");
    assert_eq!(data_file_path("json:///abs/data.json").unwrap(), "/abs/data.json");
    assert_eq!(data_file_path("json://").unwrap(), "");
    assert_eq!(data_file_path("json://json://x").unwrap(), "x");
    assert_eq!(data_file_path("json://a/json://x").unwrap(), "a/json://x");
    assert!(matches!(data_file_path("data.json"), Err(RunError::Config)));
    assert!(matches!(data_file_path(""), Err(RunError::Config)));
    assert!(matches!(data_file_path("json:/x"), Err(RunError::Config)));
    assert!(matches!(data_file_path("JSON://x"), Err(RunError::Config)));
    assert!(matches!(data_file_path(" json://x"), Err(RunError::Config)));
    assert!(matches!(data_file_path("yaml://x"), Err(RunError::Config)));
}

#[test]
fn a_suite_names_its_data_file() {
    let mut categories: Table<InputCaterogy> = Table::new();
    categories.insert("users".to_string(), InputCaterogy { login: None, steps: Vec::new() });
    let suite = InputConfigration {
        base_url: "http://h".to_string(),
        data: "json://suite/data.json".to_string(),
        init: Vec::new(),
        categories,
    };
    assert_eq!(suite.data_file().unwrap(), "suite/data.json");
    let broken = InputConfigration {
        base_url: "http://h".to_string(),
        data: "suite/data.json".to_string(),
        init: Vec::new(),
        categories: Table::new(),
    };
    assert!(matches!(broken.data_file(), Err(RunError::Config)));
}

#[test]
fn the_report_wraps_the_outcomes_as_they_came() {
    let outcome = |name: &str| OutputResult {
        name: name.to_string(),
        category: "c".to_string(),
        status: "success".to_string(),
        duration: 1_500_000,
        message: "m".to_string(),
    };
    let report = finalize("http://h", vec![outcome("b[0]"), outcome("a[0]"), outcome("b[1]")]);
    assert_eq!(report.base_url, "http://h");
    let names: Vec<&str> = report.results.iter().map(|r| r.name.as_str()).collect();
    assert_eq!(names, vec!["b[0]", "a[0]", "b[1]"]);
    assert_eq!(report.results[0].duration, 1_500_000);
    assert!(finalize("", Vec::new()).results.is_empty());
}
