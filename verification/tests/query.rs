use ccql::parse::parse_json;
use ccql::query::{parse_index, QueryEngine};
use ccql::text::chars_of;
use ccql::value::{clone_json, JsonNumber, JsonValue};

fn json(text: &str) -> JsonValue {
    parse_json(text).unwrap()
}

fn run(query: &str, input: &str) -> Vec<JsonValue> {
    QueryEngine::new().execute(query, json(input)).unwrap()
}

fn all(texts: &[&str]) -> Vec<JsonValue> {
    texts.iter().map(|t| json(t)).collect()
}

#[test]
fn identity_gives_the_input() {
    assert_eq!(run(".", r#"{"a":1}"#), all(&[r#"{"a":1}"#]));
    assert_eq!(run("  .  ", "[1,2]"), all(&["[1,2]"]));
    assert_eq!(run("", "7"), all(&["7"]));
    assert_eq!(run("nonsense", "7"), all(&["7"]));
}

#[test]
fn iteration_gives_the_items() {
    assert_eq!(run(".[]", "[1,2,3]"), all(&["1", "2", "3"]));
    assert_eq!(run(".[]", "[]"), all(&[]));
    assert_eq!(run(".[]", r#"{"a":1}"#), all(&[]));
    assert_eq!(run(".[].a", r#"[{"a":1},{"b":2},{"a":[3]}]"#), all(&["1", "null", "[3]"]));
    assert_eq!(run(".[].[]", "[[1,2],[3],[]]"), all(&["1", "2", "3"]));
}

#[test]
fn positions_give_one_item() {
    assert_eq!(run(".[0]", "[10,20]"), all(&["10"]));
    assert_eq!(run(".[1]", "[10,20]"), all(&["20"]));
    assert_eq!(run(".[+1]", "[10,20]"), all(&["20"]));
    assert_eq!(run(".[2]", "[10,20]"), all(&[]));
    assert_eq!(run(".[0]", r#"{"a":1}"#), all(&[]));
    assert_eq!(run(".[1].a", r#"[{"a":1},{"a":2}]"#), all(&["2"]));
    assert_eq!(run(".[0].[1]", "[[5,6]]"), all(&["6"]));
}

#[test]
fn a_position_that_is_no_number_is_read_as_a_name() {
    assert_eq!(run(".[x]", "[10,20]"), all(&["null"]));
    assert_eq!(run(".[x]", r#"{"":5}"#), all(&["5"]));
    assert_eq!(run(".[", "[10,20]"), all(&["null"]));
    assert_eq!(run(".[-1]", "[10,20]"), all(&["null"]));
}

#[test]
fn names_give_members() {
    assert_eq!(run(".a", r#"{"a":1}"#), all(&["1"]));
    assert_eq!(run(".b", r#"{"a":1}"#), all(&["null"]));
    assert_eq!(run(".a", "[1]"), all(&["null"]));
    assert_eq!(run(".a.b", r#"{"a":{"b":"deep"}}"#), all(&[r#""deep""#]));
    assert_eq!(run(".a.b", r#"{"a":5}"#), all(&["null"]));
    assert_eq!(run(".a[0]", r#"{"a":[7,8]}"#), all(&["[7,8]"]));
    assert_eq!(run(".a.[0]", r#"{"a":[7,8]}"#), all(&["7"]));
}

#[test]
fn select_keeps_or_drops_the_input() {
    let user = r#"{"type":"user","n":1}"#;
    assert_eq!(run(r#"select(.type == "user")"#, user), all(&[user]));
    assert_eq!(run(r#"select(.type == "tool")"#, user), all(&[]));
    assert_eq!(run(r#"select(.type != "tool")"#, user), all(&[user]));
    assert_eq!(run(r#"select(.type != "user")"#, user), all(&[]));
    assert_eq!(run(r#"select(.n == "1")"#, user), all(&[]));
    assert_eq!(run(r#"select(.n != "1")"#, user), all(&[user]));
    assert_eq!(run(r#"select(.type == user)"#, user), all(&[user]));
    assert_eq!(run("select()", user), all(&[]));
    assert_eq!(run("select(", user), all(&[user]));
}

#[test]
fn select_with_a_test_looks_for_a_text() {
    let entry = r#"{"content":"an error occurred"}"#;
    assert_eq!(run(r#"select(.content | test("error"))"#, entry), all(&[entry]));
    assert_eq!(run(r#"select(.content | test("warning"))"#, entry), all(&[]));
    assert_eq!(run(r#"select(.other | test("error"))"#, entry), all(&[]));
    assert_eq!(run(r#"select(.content | test(""))"#, entry), all(&[entry]));
}

#[test]
fn select_goes_on_with_its_rest() {
    let user = r#"{"type":"user","n":1}"#;
    assert_eq!(run(r#"select(.type == "user") | .n"#, user), all(&["1"]));
    assert_eq!(run(r#"select(.type == "user" ) ||  .n "#, user), all(&["1"]));
    assert_eq!(run(r#"select(.type == "tool") | .n"#, user), all(&[]));
    assert_eq!(run(r#"select(.n != "x") .type"#, user), all(&[r#""user""#]));
}

#[test]
fn pipelines_feed_results_on() {
    assert_eq!(run(".a|.b", r#"{"a":{"b":2}}"#), all(&["2"]));
    assert_eq!(run(".a | .b", r#"{"a":{"b":2}}"#), all(&["null"]));
    assert_eq!(run(".a | .b", r#"{"a ":{"b":2}}"#), all(&["2"]));
    assert_eq!(
        run(r#".[] | select(.type == "user")"#, r#"[{"type":"user"},{"type":"tool"},{"type":"user","x":1}]"#),
        all(&[r#"{"type":"user"}"#, r#"{"type":"user","x":1}"#])
    );
    assert_eq!(run(".[] | .[]", "[[1],[2,3]]"), all(&["1", "2", "3"]));
    assert_eq!(run("| .a", r#"{"a":1}"#), all(&["1"]));
    assert_eq!(run("x | y | .a", r#"{"a":1}"#), all(&["1"]));
}

#[test]
fn conditions_alone() {
    let engine = QueryEngine::new();
    let input = json(r#"{"type":"user","tags":["a"]}"#);
    assert_eq!(engine.evaluate_condition(r#" .type == "user" "#, &input), Ok(true));
    assert_eq!(engine.evaluate_condition(r#".type=="user""#, &input), Ok(true));
    assert_eq!(engine.evaluate_condition(r#".type == "other""#, &input), Ok(false));
    assert_eq!(engine.evaluate_condition(r#".tags != "a""#, &input), Ok(true));
    assert_eq!(engine.evaluate_condition(r#".tags|.[] == "a""#, &input), Ok(true));
    assert_eq!(engine.evaluate_condition(r#".tags | .[] == "a""#, &input), Ok(false));
    assert_eq!(engine.evaluate_condition(r#".type | test("se")"#, &input), Ok(true));
    assert_eq!(engine.evaluate_condition(r#".type | test("xx")"#, &input), Ok(false));
    assert_eq!(engine.evaluate_condition(r#".type | contains("se")"#, &input), Ok(false));
    assert_eq!(engine.evaluate_condition("", &input), Ok(false));
    assert_eq!(engine.evaluate_condition(".type", &input), Ok(false));
}

#[test]
fn queries_over_many_inputs() {
    let engine = QueryEngine::new();
    let inputs = || all(&[r#"{"x":1}"#, r#"{"y":2}"#, r#"{"x":3}"#]);
    assert_eq!(engine.execute_on_array(".[] | .x", inputs()), Ok(all(&["1", "null", "3"])));
    assert_eq!(engine.execute_on_array(".[1]", inputs()), Ok(all(&[r#"{"y":2}"#])));
    assert_eq!(engine.execute_on_array(".", inputs()), Ok(vec![JsonValue::Array(inputs())]));
    assert_eq!(engine.execute_per_item(".x", inputs()), Ok(all(&["1", "null", "3"])));
    assert_eq!(engine.execute_per_item(".[]", all(&["[1]", "2", "[3,4]"])), Ok(all(&["1", "3", "4"])));
    assert_eq!(engine.execute_per_item(".x", vec![]), Ok(vec![]));
}

#[test]
fn positions_are_parsed_like_unsigned_integers() {
    let p = |s: &str| parse_index(&chars_of(s));
    assert_eq!(p("0"), Some(0));
    assert_eq!(p("007"), Some(7));
    assert_eq!(p("+12"), Some(12));
    assert_eq!(p(""), None);
    assert_eq!(p("+"), None);
    assert_eq!(p("-1"), None);
    assert_eq!(p("1 "), None);
    assert_eq!(p("++1"), None);
    assert_eq!(p("12a"), None);
    assert_eq!(p(&usize::MAX.to_string()), Some(usize::MAX));
    assert_eq!(p(&format!("{}0", usize::MAX)), None);
    assert_eq!(p("99999999999999999999999999"), None);
    for s in ["0", "+5", "5+", "18446744073709551615", "18446744073709551616", " 1", "٣"] {
        assert_eq!(p(s), s.parse::<usize>().ok(), "{}", s);
    }
}

#[test]
fn copies_hold_the_same() {
    let v = json(r#"{"a":[1,{"b":null}],"c":"d","e":1.5,"f":-2,"g":true}"#);
    assert_eq!(clone_json(&v), v);
    assert_eq!(clone_json(&JsonValue::Number(JsonNumber::PosInt(u64::MAX))), JsonValue::Number(JsonNumber::PosInt(u64::MAX)));
}
