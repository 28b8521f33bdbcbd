use raxtest::{
    classify, expand_template, resolve_path, JsonNumber, JsonObject, JsonValue, RunError, Table,
};

fn object(entries: Vec<(&str, JsonValue)>) -> JsonObject {
    let mut table: JsonObject = Table::new();
    for (key, value) in entries {
        table.insert(key.to_string(), value);
    }
    table
}

fn query(entries: Vec<(&str, JsonValue)>) -> Option<JsonObject> {
    Some(object(entries))
}

fn unsigned(n: u64) -> JsonValue {
    JsonValue::Number(JsonNumber::Unsigned(n))
}

fn text(s: &str) -> JsonValue {
    JsonValue::Text(s.to_string())
}

/// What the regular expression itself makes of a path, given the text for
/// each name.
fn by_regex(path: &str, values: &[(&str, &str)]) -> String {
    let pattern = regex::Regex::new(r"\{(\w+)\}").unwrap();
    pattern
        .replace_all(path, |found: &regex::Captures| {
            let name = &found[1];
            values
                .iter()
                .find(|(key, _)| *key == name)
                .map(|(_, value)| value.to_string())
                .unwrap()
        })
        .to_string()
}

#[test]
fn number_replaces_placeholder_in_decimal() {
    let q = query(vec![("id", unsigned(42))]);
    assert_eq!(resolve_path("/items/{id}", &q).unwrap(), "/items/42");
}

#[test]
fn string_replaces_placeholder_verbatim() {
    let q = query(vec![("id", text("abc"))]);
    assert_eq!(resolve_path("/items/{id}", &q).unwrap(), "/items/abc");
}

#[test]
fn object_and_array_resolve_to_nothing() {
    let q = query(vec![
        ("o", JsonValue::Object(object(vec![("k", unsigned(1))]))),
        ("a", JsonValue::Array(vec![unsigned(1), unsigned(2)])),
    ]);
    assert_eq!(resolve_path("/x/{o}/y/{a}/z", &q).unwrap(), "/x//y//z");
}

#[test]
fn bool_and_null_resolve_to_nothing() {
    let q = query(vec![("b", JsonValue::Bool(true)), ("n", JsonValue::Null)]);
    assert_eq!(resolve_path("/{b}-{n}.", &q).unwrap(), "/-.");
}

#[test]
fn negative_and_real_numbers_keep_their_text() {
    let q = query(vec![
        ("neg", JsonValue::Number(JsonNumber::Signed(-17))),
        ("pos", JsonValue::Number(JsonNumber::Signed(5))),
        ("real", JsonValue::Number(JsonNumber::Real("1.5".to_string()))),
        ("zero", unsigned(0)),
        ("max", unsigned(u64::MAX)),
        ("min", JsonValue::Number(JsonNumber::Signed(i64::MIN))),
    ]);
    assert_eq!(
        resolve_path("{neg}/{pos}/{real}/{zero}/{max}/{min}", &q).unwrap(),
        "-17/5/1.5/0/18446744073709551615/-9223372036854775808"
    );
}

#[test]
fn several_placeholders_are_replaced_left_to_right() {
    let q = query(vec![("a", text("1")), ("b", text("2"))]);
    assert_eq!(resolve_path("{a}{b}/{a}", &q).unwrap(), "12/1");
}

#[test]
fn missing_query_entry_is_a_template_error() {
    let q = query(vec![("other", JsonValue::Null)]);
    match resolve_path("/items/{id}", &q) {
        Err(RunError::Template { token }) => assert_eq!(token, "id"),
        other => panic!("unexpected: {:?}", other),
    }
}

#[test]
fn leftmost_missing_placeholder_is_the_one_reported() {
    let q = query(vec![("b", text("x"))]);
    match resolve_path("/{a}/{b}/{c}", &q) {
        Err(RunError::Template { token }) => assert_eq!(token, "a"),
        other => panic!("unexpected: {:?}", other),
    }
}

#[test]
fn path_without_query_record_is_left_as_it_is() {
    assert_eq!(resolve_path("/items/{id}", &None).unwrap(), "/items/{id}");
}

#[test]
fn text_outside_placeholders_is_not_altered() {
    let q = query(vec![("id", unsigned(7))]);
    assert_eq!(resolve_path("/a b/%7B/{id}?x=y#z", &q).unwrap(), "/a b/%7B/7?x=y#z");
    assert_eq!(resolve_path("", &q).unwrap(), "");
    assert_eq!(resolve_path("/plain/path", &q).unwrap(), "/plain/path");
}

#[test]
fn braces_that_form_no_placeholder_stay() {
    let q = query(vec![("id", unsigned(7)), ("a", text("A"))]);
    assert_eq!(resolve_path("/{}/{id", &q).unwrap(), "/{}/{id");
    assert_eq!(resolve_path("/{a-b}/id}", &q).unwrap(), "/{a-b}/id}");
    assert_eq!(resolve_path("/{ a}", &q).unwrap(), "/{ a}");
    assert_eq!(resolve_path("{{a}}", &q).unwrap(), "{A}");
    assert_eq!(resolve_path("{a{a}", &q).unwrap(), "{aA");
}

#[test]
fn replacement_text_is_not_read_again() {
    let q = query(vec![("a", text("{b}")), ("b", text("never"))]);
    assert_eq!(resolve_path("/{a}", &q).unwrap(), "/{b}");
}

#[test]
fn names_may_hold_any_word_character() {
    let q = query(vec![("user_id2", text("u")), ("名前", text("n")), ("é", text("e"))]);
    assert_eq!(resolve_path("/{user_id2}/{名前}/{é}", &q).unwrap(), "/u/n/e");
}

#[test]
fn resolution_agrees_with_the_regular_expression() {
    let values = [("a", "1"), ("b_2", "two"), ("名前", "n"), ("x", "")];
    let q = query(values.iter().map(|(k, v)| (*k, text(v))).collect());
    let paths = [
        "/{a}/{b_2}/{名前}/{x}",
        "{a}{a}{a}",
        "/{a/{b_2}}",
        "{{a}}",
        "/{}/{a}",
        "/{a b}/{x}",
        "no placeholders at all",
        "{a",
        "a}",
        "/é{a}ü/{b_2}",
    ];
    for path in paths {
        assert_eq!(resolve_path(path, &q).unwrap(), by_regex(path, &values), "path {:?}", path);
    }
}

#[test]
fn word_characters_are_told_from_the_others() {
    assert_eq!(
        classify("a_9{é-} /名"),
        vec![true, true, true, false, true, false, false, false, false, true]
    );
    assert_eq!(classify(""), Vec::<bool>::new());
}

#[test]
fn expansion_follows_the_mask_it_is_given() {
    let q = object(vec![("id", unsigned(3)), ("i", unsigned(4))]);
    let all_words = vec![true; 5];
    assert_eq!(expand_template("/{id}", &all_words, &q).unwrap(), "/{id}");
    let none = vec![false; 5];
    assert_eq!(expand_template("/{id}", &none, &q).unwrap(), "/{id}");
    let exact = vec![false, false, true, true, false];
    assert_eq!(expand_template("/{id}", &exact, &q).unwrap(), "/3");
    let short = vec![false, false, true];
    assert_eq!(expand_template("/{id}", &short, &q).unwrap(), "/{id}");
    let first_only = vec![false, false, true, false, false];
    assert_eq!(expand_template("/{id}", &first_only, &q).unwrap(), "/{id}");
}
