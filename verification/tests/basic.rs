use rupert::json::JsonValue;
use rupert::BuildRequest;
use rupert::Hookable;
use rupert::Integrations;
use rupert::ParseError;

fn text(s: &str) -> JsonValue {
    JsonValue::Text(String::from(s))
}

/// The shape of a provider push payload: actor, repository, and the new
/// head's hash under push.changes[0].new.target.
fn example_payload(actor: &str, repository: &str, hash: Option<&str>) -> JsonValue {
    let mut target: Vec<(String, JsonValue)> = Vec::new();
    if let Some(h) = hash {
        target.push((String::from("hash"), text(h)));
    }
    let mut newobj: Vec<(String, JsonValue)> = Vec::new();
    newobj.push((String::from("target"), JsonValue::Object(target)));
    let mut first: Vec<(String, JsonValue)> = Vec::new();
    first.push((String::from("new"), JsonValue::Object(newobj)));
    let changes = vec![JsonValue::Object(first)];
    let mut push: Vec<(String, JsonValue)> = Vec::new();
    push.push((String::from("changes"), JsonValue::Array(changes)));
    let mut root: Vec<(String, JsonValue)> = Vec::new();
    root.push((String::from("actor"), text(actor)));
    root.push((String::from("repository"), text(repository)));
    root.push((String::from("push"), JsonValue::Object(push)));
    JsonValue::Object(root)
}

#[test]
fn it_works() {}

#[test]
fn utils_test_checkout() {}

#[test]
fn mod_test_checkout() {}

#[test]
fn parse_example_build_request() {
    let payload = example_payload("alice", "demo", Some("abc123"));
    BuildRequest::parse_push_request(&payload).unwrap();
}

#[test]
fn parse_happy_path_fields() {
    let payload = example_payload("alice", "demo", Some("abc123"));
    let req = BuildRequest::parse_push_request(&payload).unwrap();
    assert_eq!(req.owner, "alice");
    assert_eq!(req.reponame, "demo");
    assert_eq!(req.commit, "abc123");
    assert_eq!(req.integration, Integrations::Bitbucket);
}

#[test]
fn parse_missing_hash_names_it() {
    let payload = example_payload("alice", "demo", None);
    let err = BuildRequest::parse_push_request(&payload).unwrap_err();
    assert_eq!(err, ParseError::MissingKey(String::from("hash")));
    assert_eq!(err.message(), "No \"hash\" in json");
}

#[test]
fn parse_missing_actor() {
    let payload = JsonValue::Object(Vec::new());
    let err = BuildRequest::parse_push_request(&payload).unwrap_err();
    assert_eq!(err, ParseError::MissingKey(String::from("actor")));
    assert_eq!(err.message(), "No \"actor\" in json");
}

#[test]
fn parse_actor_not_string() {
    let mut root: Vec<(String, JsonValue)> = Vec::new();
    root.push((String::from("actor"), JsonValue::Int(7)));
    let payload = JsonValue::Object(root);
    let err = BuildRequest::parse_push_request(&payload).unwrap_err();
    assert_eq!(err, ParseError::NotString(String::from("actor")));
    assert_eq!(err.message(), "\"actor\" is not string");
}

#[test]
fn parse_empty_changes_array() {
    let changes: Vec<JsonValue> = Vec::new();
    let mut push: Vec<(String, JsonValue)> = Vec::new();
    push.push((String::from("changes"), JsonValue::Array(changes)));
    let mut root: Vec<(String, JsonValue)> = Vec::new();
    root.push((String::from("actor"), text("alice")));
    root.push((String::from("repository"), text("demo")));
    root.push((String::from("push"), JsonValue::Object(push)));
    let payload = JsonValue::Object(root);
    let err = BuildRequest::parse_push_request(&payload).unwrap_err();
    assert_eq!(err, ParseError::MissingIndex(0));
    assert_eq!(err.message(), "No \"0\" in json");
}

#[test]
fn parse_missing_push() {
    let mut root: Vec<(String, JsonValue)> = Vec::new();
    root.push((String::from("actor"), text("alice")));
    root.push((String::from("repository"), text("demo")));
    let payload = JsonValue::Object(root);
    let err = BuildRequest::parse_push_request(&payload).unwrap_err();
    assert_eq!(err, ParseError::MissingKey(String::from("push")));
}

#[test]
fn parse_hash_not_string() {
    let mut target: Vec<(String, JsonValue)> = Vec::new();
    target.push((String::from("hash"), JsonValue::Int(42)));
    let mut newobj: Vec<(String, JsonValue)> = Vec::new();
    newobj.push((String::from("target"), JsonValue::Object(target)));
    let mut first: Vec<(String, JsonValue)> = Vec::new();
    first.push((String::from("new"), JsonValue::Object(newobj)));
    let mut push: Vec<(String, JsonValue)> = Vec::new();
    push.push((String::from("changes"), JsonValue::Array(vec![JsonValue::Object(first)])));
    let mut root: Vec<(String, JsonValue)> = Vec::new();
    root.push((String::from("actor"), text("alice")));
    root.push((String::from("repository"), text("demo")));
    root.push((String::from("push"), JsonValue::Object(push)));
    let payload = JsonValue::Object(root);
    let err = BuildRequest::parse_push_request(&payload).unwrap_err();
    assert_eq!(err, ParseError::NotString(String::from("hash")));
}

#[test]
fn parse_duplicate_key_takes_first() {
    let mut root: Vec<(String, JsonValue)> = Vec::new();
    root.push((String::from("actor"), text("first")));
    root.push((String::from("actor"), text("second")));
    let payload = JsonValue::Object(root);
    let v = payload.get_key("actor").unwrap();
    assert_eq!(v.as_str().unwrap(), "first");
}

#[test]
fn json_accessors() {
    let arr = JsonValue::Array(vec![JsonValue::Bool(true), JsonValue::Null]);
    assert!(arr.get_index(0).is_some());
    assert!(arr.get_index(2).is_none());
    assert!(arr.get_key("x").is_none());
    assert!(text("hi").as_str().is_some());
    assert!(JsonValue::Int(3).as_str().is_none());
}
