use openapi_mocker::engine::{
    decimal_chars, get_example, load_endpoint, load_response, Request, ResolveError, Spec,
};
use openapi_mocker::examples::{find_example_match, resolve_example_value, select_example};
use openapi_mocker::model::{
    Components, Document, Example, MediaExamples, MediaType, Method, Operation, PathItem, RefOr,
    Response,
};
use openapi_mocker::path::{load_path, match_url};
use openapi_mocker::query::QueryString;
use openapi_mocker::refs::resolve;
use openapi_mocker::text::{chars_of, path_segments, split_chars};

fn json(text: &str) -> serde_json::Value {
    serde_json::from_str(text).unwrap()
}

fn named(name: &str, text: &str) -> (String, RefOr<Example>) {
    (name.to_string(), RefOr::Item(Example { value: Some(json(text)) }))
}

fn with_examples(examples: Vec<(String, RefOr<Example>)>) -> Response {
    Response {
        description: None,
        content: vec![(
            "application/json".to_string(),
            MediaType { examples: Some(MediaExamples::Named(examples)) },
        )],
    }
}

fn empty_document() -> Document {
    Document {
        paths: vec![],
        components: Components { responses: vec![], examples: vec![] },
    }
}

fn pick(examples: Vec<(String, RefOr<Example>)>, path: &str, query: &str) -> Option<serde_json::Value> {
    let doc = empty_document();
    let response = with_examples(examples);
    select_example(&doc, &response, "application/json", path, query).cloned()
}

#[test]
fn literal_templates_match_exactly() {
    assert!(match_url("/pets", &["/pets"]));
    assert!(match_url("/pets/", &["/pets"]));
    assert!(match_url("//pets", &["/pets/"]));
    assert!(!match_url("/pets", &["/Pets"]));
    assert!(!match_url("/pets/mine", &["/pets"]));
    assert!(!match_url("/pet", &["/pets"]));
    assert!(!match_url("/pets", &[]));
}

#[test]
fn parameter_segments_match_any_value() {
    let routes = ["/pets/{petId}"];
    assert!(match_url("/pets/123", &routes));
    assert!(match_url("/pets/abc", &routes));
    assert!(!match_url("/pets/123/x", &routes));
    assert!(!match_url("/pets", &routes));
    assert!(!match_url("/dogs/1", &routes));
    assert!(!match_url("/pets/1", &["/pets/{petId"]));
    assert!(match_url("/pets/1", &["/users", "/pets/{id}"]));
}

#[test]
fn first_matching_template_wins() {
    let mut doc = empty_document();
    doc.paths.push(("/pets/{a}".to_string(), PathItem { operations: vec![] }));
    doc.paths.push((
        "/pets/{b}".to_string(),
        PathItem { operations: vec![(Method::Get, Operation { operation_id: None, responses: vec![] })] },
    ));
    assert!(load_path(&doc, "/pets/1").unwrap().operations.is_empty());
}

#[test]
fn status_selects_its_own_response() {
    let ok = with_examples(vec![named("default", r#""ok""#)]);
    let missing = with_examples(vec![named("default", r#""missing""#)]);
    let op = Operation {
        operation_id: None,
        responses: vec![("200".to_string(), RefOr::Item(ok)), ("404".to_string(), RefOr::Item(missing))],
    };
    let doc = empty_document();
    let r404 = load_response(&doc, &op, 404).unwrap();
    let value = select_example(&doc, r404, "application/json", "/pets", "").unwrap();
    assert_eq!(value, &json(r#""missing""#));
    assert_eq!(load_response(&doc, &op, 500).err(), Some(ResolveError::ResponseNotFound));
}

#[test]
fn exact_name_beats_default() {
    let examples = vec![named("default", "2"), named("/pets", "1")];
    assert_eq!(pick(examples, "/pets", ""), Some(json("1")));
}

#[test]
fn first_fitting_example_wins() {
    let examples = || vec![named("query:page=1", "3"), named("/pets", "1"), named("default", "2")];
    assert_eq!(pick(examples(), "/pets", "page=1"), Some(json("3")));
    assert_eq!(pick(examples(), "/pets", "page=2"), Some(json("1")));
    let path_first = vec![named("/pets", "1"), named("query:page=1", "3")];
    assert_eq!(pick(path_first, "/pets", "page=1"), Some(json("1")));
}

#[test]
fn query_examples_match_subsets() {
    let examples = || vec![named("query:page=1", "1"), named("default", "2")];
    assert_eq!(pick(examples(), "/pets", "page=1"), Some(json("1")));
    assert_eq!(pick(examples(), "/pets", "page=2"), Some(json("2")));
    assert_eq!(pick(examples(), "/pets", "page=1&limit=5"), Some(json("1")));
    assert_eq!(pick(examples(), "/pets", ""), Some(json("2")));
}

#[test]
fn query_example_needs_every_stated_parameter() {
    let examples = vec![named("query:page=1&limit=5", "1"), named("default", "2")];
    assert_eq!(pick(examples, "/pets", "page=1"), Some(json("2")));
}

#[test]
fn later_query_value_overrides() {
    let q = QueryString::from_query("page=1&page=2");
    assert!(q.match_example("query:page=2"));
    assert!(!q.match_example("query:page=1"));
    assert!(!q.match_example("page=2"));
}

#[test]
fn every_stated_pair_must_be_present() {
    let q = QueryString::from_query("a=2");
    assert!(!q.match_example("query:a=1&a=2"));
    assert!(q.match_example("query:a=2&a=2"));
    let examples = vec![named("query:a=1&a=2", "1"), named("default", "2")];
    assert_eq!(pick(examples, "/x", "a=2"), Some(json("2")));
}

#[test]
fn example_names_are_literal_paths() {
    let examples = || vec![named("/pets/{petId}", "1")];
    assert_eq!(pick(examples(), "/pets/2", ""), None);
    assert_eq!(pick(examples(), "/pets/{petId}", ""), Some(json("1")));
    let literal = vec![named("/pets/{petId}", "1"), named("/pets/2", "2")];
    assert_eq!(pick(literal, "/pets/2", ""), Some(json("2")));
}

#[test]
fn no_match_and_no_default_is_absent() {
    assert_eq!(pick(vec![named("/other", "1")], "/pets", ""), None);
    assert_eq!(pick(vec![], "/pets", ""), None);
}

#[test]
fn find_example_match_gives_index() {
    let examples = vec![named("default", "0"), named("query:a=b", "1"), named("/x", "2")];
    let q = QueryString::from_query("a=b");
    let other = QueryString::from_query("a=c");
    assert_eq!(find_example_match(&examples, "/x", &q), Some(1));
    assert_eq!(find_example_match(&examples, "/x", &other), Some(2));
    assert_eq!(find_example_match(&examples, "/y", &q), Some(1));
    assert_eq!(find_example_match(&examples, "/y", &other), Some(0));
}

fn chain_registry(length: usize) -> Vec<(String, RefOr<Response>)> {
    let mut registry = Vec::new();
    for i in 0..length {
        registry.push((format!("r{}", i), RefOr::Ref(format!("r{}", i + 1))));
    }
    registry.push((format!("r{}", length), RefOr::Item(with_examples(vec![named("default", "7")]))));
    registry
}

#[test]
fn two_step_reference_resolves() {
    let registry = chain_registry(1);
    let start = RefOr::Ref("r0".to_string());
    let response = resolve(&registry, &start).unwrap();
    assert_eq!(response.content[0].0, "application/json");
}

#[test]
fn reference_chains_are_bounded() {
    let start = RefOr::Ref("r0".to_string());
    // The starting reference and seven registered ones: eight followed.
    assert!(resolve(&chain_registry(7), &start).is_some());
    assert!(resolve(&chain_registry(8), &start).is_none());
    let cycle: Vec<(String, RefOr<Response>)> = vec![("a".to_string(), RefOr::Ref("a".to_string()))];
    assert!(resolve(&cycle, &RefOr::Ref("a".to_string())).is_none());
    assert!(resolve(&cycle, &RefOr::Ref("missing".to_string())).is_none());
}

#[test]
fn referenced_response_resolves_through_operation() {
    let mut doc = empty_document();
    doc.components.responses = chain_registry(2);
    let op = Operation { operation_id: None, responses: vec![("200".to_string(), RefOr::Ref("r0".to_string()))] };
    let response = load_response(&doc, &op, 200).unwrap();
    assert_eq!(select_example(&doc, response, "application/json", "/", ""), Some(&json("7")));
}

#[test]
fn broken_example_reference_is_absent() {
    let mut doc = empty_document();
    doc.components.examples.push(("good".to_string(), RefOr::Item(Example { value: Some(json("5")) })));
    doc.components.examples.push(("empty".to_string(), RefOr::Item(Example { value: None })));
    assert_eq!(resolve_example_value(&doc, &RefOr::Ref("good".to_string())), Some(&json("5")));
    assert_eq!(resolve_example_value(&doc, &RefOr::Ref("empty".to_string())), None);
    assert_eq!(resolve_example_value(&doc, &RefOr::Ref("gone".to_string())), None);
    let examples = MediaExamples::Named(vec![("default".to_string(), RefOr::Ref("gone".to_string()))]);
    assert_eq!(get_example(&doc, &examples, "default"), None);
    assert_eq!(get_example(&doc, &MediaExamples::Single(json("1")), "default"), None);
}

#[test]
fn end_to_end_listing() {
    let two = r#"[{"id":1,"name":"doggie","tag":"dog"},{"id":2,"name":"kitty","tag":"cat"}]"#;
    let one = r#"[{"id":1,"name":"doggie","tag":"dog"}]"#;
    let op = Operation {
        operation_id: Some("listPets".to_string()),
        responses: vec![(
            "200".to_string(),
            RefOr::Item(with_examples(vec![named("default", two), named("query:page=1", one)])),
        )],
    };
    let mut doc = empty_document();
    doc.paths.push(("/pets".to_string(), PathItem { operations: vec![(Method::Get, op)] }));
    let spec = Spec::new(doc);
    let mut req = Request {
        method: Method::Get,
        path: "/pets".to_string(),
        query: String::new(),
        content_type: "application/json".to_string(),
        status: 200,
    };
    assert_eq!(spec.get_example(&req), Some(&json(two)));
    req.query = "page=1".to_string();
    assert_eq!(spec.get_example(&req), Some(&json(one)));
    req.method = Method::Post;
    assert_eq!(spec.get_example(&req), None);
    req.method = Method::Get;
    req.path = "/nothing".to_string();
    assert_eq!(spec.get_example(&req), None);
    req.path = "/pets".to_string();
    req.content_type = "text/plain".to_string();
    assert_eq!(spec.get_example(&req), None);
}

#[test]
fn endpoint_errors() {
    let mut doc = empty_document();
    doc.paths.push(("/pets".to_string(), PathItem { operations: vec![] }));
    assert_eq!(load_endpoint(&doc, "/nothing", Method::Get).err(), Some(ResolveError::PathNotFound));
    assert_eq!(load_endpoint(&doc, "/pets", Method::Get).err(), Some(ResolveError::OperationNotFound));
}

#[test]
fn method_tokens_ignore_case() {
    assert_eq!(Method::from_token("get"), Some(Method::Get));
    assert_eq!(Method::from_token("Delete"), Some(Method::Delete));
    assert_eq!(Method::from_token("TRACE"), Some(Method::Trace));
    assert_eq!(Method::from_token("fetch"), None);
    assert_eq!(Method::from_upper("get"), None);
    assert_eq!(Method::from_upper("PATCH"), Some(Method::Patch));
}

#[test]
fn status_codes_in_decimal() {
    assert_eq!(decimal_chars(0), vec!['0']);
    assert_eq!(decimal_chars(404), vec!['4', '0', '4']);
    assert_eq!(decimal_chars(65535), vec!['6', '5', '5', '3', '5']);
}

#[test]
fn splitting_keeps_or_drops_empty_pieces() {
    assert_eq!(chars_of("a/b"), vec!['a', '/', 'b']);
    assert_eq!(split_chars(&['a', '&', '&'], '&'), vec![vec!['a'], vec![], vec![]]);
    assert_eq!(split_chars(&[], '&'), vec![Vec::<char>::new()]);
    assert_eq!(path_segments(&['/', '/', 'a', '/']), vec![vec!['a']]);
}

#[test]
fn query_pairs_without_value() {
    let q = QueryString::from_query("flag&x=1=2");
    assert_eq!(q.pairs, vec![(vec!['f', 'l', 'a', 'g'], vec![]), (vec!['x'], vec!['1'])]);
}
