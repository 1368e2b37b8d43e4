use serde_json::Value;
use veloce::context::Context;
use veloce::display::display_data;
use veloce::presto::{
    check_errors, follow_presto_query, start_presto_query, Column, Error, QueryIterator,
    QueryIteratorState, QueryResults, Request,
};

fn ctx() -> Context {
    Context::new(
        "localhost:8080",
        "hive".to_string(),
        "default".to_string(),
        "alice".to_string(),
        "less".to_string(),
    )
    .unwrap()
}

fn page(id: &str, next: Option<&str>, columns: Option<Vec<&str>>, data: Option<Vec<Vec<Value>>>) -> QueryResults {
    QueryResults {
        id: id.to_string(),
        info_uri: format!("http://x/ui/{}", id),
        next_uri: next.map(|s| s.to_string()),
        columns: columns.map(|cs| cs.into_iter().map(|c| Column { name: c.to_string() }).collect()),
        data,
        error: None,
    }
}

fn error_page(id: &str, next: Option<&str>, error: &str) -> QueryResults {
    let mut p = page(id, next, None, None);
    p.error = Some(serde_json::from_str(error).unwrap());
    p
}

fn url_of(request: &Request) -> String {
    match request {
        Request::Post { url, .. } => url.clone(),
        Request::Get { url, .. } => url.clone(),
    }
}

/// Drives a sequence against a mock coordinator that answers the requests
/// put to it with `answers`, in order, and panics when asked for more.
fn drive(
    it: &mut QueryIterator,
    answers: Vec<Result<QueryResults, String>>,
) -> (Vec<Request>, Vec<Result<QueryResults, Error>>) {
    let mut answers = answers.into_iter();
    let mut requests = Vec::new();
    let mut items = Vec::new();
    while let Some(request) = it.request() {
        requests.push(request);
        let answer = answers.next().expect("asked for more than the coordinator has");
        match it.next(answer) {
            Some(item) => items.push(item),
            None => panic!("a pending sequence yielded nothing"),
        }
    }
    (requests, items)
}

#[test]
fn submit_request_is_a_post_to_v1_statement() {
    let ctx = ctx();
    match start_presto_query(&ctx, "SELECT 'é'".to_string()) {
        Request::Post { url, headers, body } => {
            assert_eq!(url, "http://localhost:8080/v1/statement");
            assert_eq!(body, "SELECT 'é'".as_bytes().to_vec());
            let names: Vec<&str> = headers.iter().map(|h| h.name.as_str()).collect();
            assert_eq!(
                names,
                vec!["X-Presto-Catalog", "X-Presto-Schema", "X-Presto-Source", "X-Presto-User"]
            );
            let values: Vec<&str> = headers.iter().map(|h| h.value.as_str()).collect();
            assert_eq!(values, vec!["hive", "default", "alice", "alice"]);
        }
        other => panic!("unexpected {:?}", other),
    }
}

#[test]
fn follow_request_is_a_get_of_the_link_as_given() {
    let ctx = ctx();
    let link = "http://other:9/v1/statement/q1/2?x=%20y/";
    match follow_presto_query(&ctx, link) {
        Request::Get { url, headers } => {
            assert_eq!(url, link);
            assert_eq!(headers.len(), 4);
            assert_eq!(headers[3].name, "X-Presto-User");
            assert_eq!(headers[3].value, "alice");
        }
        other => panic!("unexpected {:?}", other),
    }
}

#[test]
fn check_errors_hands_on_a_page_without_error() {
    let p = page("q1", Some("http://x/2"), Some(vec!["a"]), Some(vec![vec![Value::from(1)]]));
    let checked = check_errors(p).unwrap();
    assert_eq!(checked.id, "q1");
    assert_eq!(checked.info_uri, "http://x/ui/q1");
    assert_eq!(checked.next_uri.as_deref(), Some("http://x/2"));
    assert_eq!(checked.columns.unwrap()[0].name, "a");
    assert_eq!(checked.data.unwrap(), vec![vec![Value::from(1)]]);
    assert!(checked.error.is_none());
}

#[test]
fn check_errors_turns_an_error_page_into_a_protocol_error() {
    let p = error_page("q1", None, r#"{"message":"syntax error at line 1"}"#);
    match check_errors(p) {
        Err(Error::PrestoError(text)) => {
            assert_eq!(text, r#"{"message":"syntax error at line 1"}"#);
        }
        other => panic!("unexpected {:?}", other),
    }
}

#[test]
fn error_text_is_compact_json() {
    let p = error_page("q1", None, "{ \"b\" : [1, 2.5, null, true],\n \"a\" : \"x\\\"y\" }");
    match check_errors(p) {
        Err(Error::PrestoError(text)) => {
            assert_eq!(text, r#"{"a":"x\"y","b":[1,2.5,null,true]}"#);
        }
        other => panic!("unexpected {:?}", other),
    }
}

#[test]
fn error_messages_name_their_kind() {
    assert_eq!(Error::ReqwestError("timed out".to_string()).message(), "Reqwest error: timed out");
    assert_eq!(Error::PrestoError("{}".to_string()).message(), "Presto error: {}");
}

#[test]
fn new_sequence_starts_with_the_statement() {
    let ctx = ctx();
    let it = QueryIterator::new(&ctx, "SELECT 1".to_string());
    assert!(matches!(&it.state, QueryIteratorState::Query(q) if q == "SELECT 1"));
    assert!(matches!(it.request(), Some(Request::Post { .. })));
}

#[test]
fn transport_failure_yields_one_error_and_ends() {
    let ctx = ctx();
    let mut it = QueryIterator::new(&ctx, "SELECT 1".to_string());
    let (requests, items) = drive(&mut it, vec![Err("connection refused".to_string())]);
    assert_eq!(requests.len(), 1);
    assert_eq!(items.len(), 1);
    assert!(matches!(&items[0], Err(Error::ReqwestError(c)) if c == "connection refused"));
    assert!(it.request().is_none());
    assert!(it.next(Ok(page("q", None, None, None))).is_none());
    assert!(it.next(Err("again".to_string())).is_none());
    assert!(matches!(it.state, QueryIteratorState::Fetch(None)));
}

#[test]
fn transport_failure_on_a_continuation_ends_the_sequence() {
    let ctx = ctx();
    let mut it = QueryIterator::new(&ctx, "SELECT 1".to_string());
    let (requests, items) = drive(
        &mut it,
        vec![Ok(page("q1", Some("http://x/2"), None, None)), Err("reset".to_string())],
    );
    assert_eq!(requests.len(), 2);
    assert!(items[0].is_ok());
    assert!(matches!(&items[1], Err(Error::ReqwestError(c)) if c == "reset"));
    assert!(it.request().is_none());
}

#[test]
fn single_page_yields_one_page() {
    let ctx = ctx();
    let mut it = QueryIterator::new(&ctx, "SELECT 1".to_string());
    let (requests, items) = drive(&mut it, vec![Ok(page("q1", None, Some(vec!["a"]), None))]);
    assert_eq!(requests.len(), 1);
    assert_eq!(url_of(&requests[0]), "http://localhost:8080/v1/statement");
    assert_eq!(items.len(), 1);
    assert_eq!(items[0].as_ref().unwrap().id, "q1");
    assert!(it.request().is_none());
    assert!(it.next(Ok(page("q2", None, None, None))).is_none());
}

#[test]
fn chain_of_pages_is_followed_link_by_link() {
    let ctx = ctx();
    let mut it = QueryIterator::new(&ctx, "SELECT * FROM t".to_string());
    let links = ["http://a/1?k=v", "HTTP://B/2/", "relative/3", "http://localhost:8080/v1/4"];
    let mut answers = Vec::new();
    for (k, link) in links.iter().enumerate() {
        answers.push(Ok(page(&format!("page{}", k), Some(link), None, None)));
    }
    answers.push(Ok(page("page4", None, None, None)));
    let (requests, items) = drive(&mut it, answers);
    assert_eq!(requests.len(), 5);
    assert_eq!(items.len(), 5);
    assert!(matches!(&requests[0], Request::Post { body, .. } if body == b"SELECT * FROM t"));
    for k in 0..4 {
        assert!(matches!(&requests[k + 1], Request::Get { url, .. } if url == links[k]));
    }
    for (k, item) in items.iter().enumerate() {
        assert_eq!(item.as_ref().unwrap().id, format!("page{}", k));
    }
    assert!(it.request().is_none());
}

#[test]
fn state_holds_the_link_of_the_last_page() {
    let ctx = ctx();
    let mut it = QueryIterator::new(&ctx, "SELECT 1".to_string());
    it.next(Ok(page("q1", Some("http://x/2"), None, None)));
    assert!(matches!(&it.state, QueryIteratorState::Fetch(Some(l)) if l == "http://x/2"));
    it.next(Ok(page("q1", None, None, None)));
    assert!(matches!(&it.state, QueryIteratorState::Fetch(None)));
}

#[test]
fn error_page_ends_the_sequence_even_with_a_link() {
    let ctx = ctx();
    let mut it = QueryIterator::new(&ctx, "SELECT 1".to_string());
    let (requests, items) = drive(
        &mut it,
        vec![
            Ok(page("q1", Some("http://x/2"), None, None)),
            Ok(error_page("q1", Some("http://x/3"), r#""boom""#)),
        ],
    );
    assert_eq!(requests.len(), 2);
    assert_eq!(items.len(), 2);
    assert!(matches!(&items[1], Err(Error::PrestoError(t)) if t == "\"boom\""));
    assert!(it.request().is_none());
    assert!(matches!(it.state, QueryIteratorState::Fetch(None)));
}

#[test]
fn sequences_on_one_context_are_independent() {
    let ctx = ctx();
    let answers = || {
        vec![
            Ok(page("q1", Some("http://x/2"), Some(vec!["a"]), Some(vec![vec![Value::from(1)]]))),
            Ok(page("q1", None, None, Some(vec![vec![Value::from(2)]]))),
        ]
    };
    let mut first = QueryIterator::new(&ctx, "SELECT 1".to_string());
    let (requests_a, items_a) = drive(&mut first, answers());
    let mut second = QueryIterator::new(&ctx, "SELECT 1".to_string());
    assert!(matches!(&second.state, QueryIteratorState::Query(q) if q == "SELECT 1"));
    let (requests_b, items_b) = drive(&mut second, answers());
    assert_eq!(requests_a.len(), requests_b.len());
    for (a, b) in requests_a.iter().zip(requests_b.iter()) {
        assert_eq!(format!("{:?}", a), format!("{:?}", b));
    }
    assert_eq!(format!("{:?}", items_a), format!("{:?}", items_b));
    assert!(first.request().is_none());
    let mut third = QueryIterator::new(&ctx, "SELECT 2".to_string());
    let mut fourth = QueryIterator::new(&ctx, "SELECT 3".to_string());
    third.next(Err("down".to_string()));
    assert!(third.request().is_none());
    assert!(matches!(fourth.request(), Some(Request::Post { body, .. }) if body == b"SELECT 3"));
    assert!(fourth.next(Ok(page("q", None, None, None))).is_some());
}

#[test]
fn scenario_two_pages_add_up() {
    let ctx = ctx();
    let mut it = QueryIterator::new(&ctx, "SELECT 1".to_string());
    let (requests, items) = drive(
        &mut it,
        vec![
            Ok(page(
                "q1",
                Some("http://x/v1/q1/2"),
                Some(vec!["_col0"]),
                Some(vec![vec![Value::from(1)]]),
            )),
            Ok(page("q1", None, None, Some(vec![vec![Value::from(2)]]))),
        ],
    );
    assert_eq!(requests.len(), 2);
    assert!(matches!(&requests[0], Request::Post { url, body, .. }
        if url == "http://localhost:8080/v1/statement" && body == b"SELECT 1"));
    assert!(matches!(&requests[1], Request::Get { url, .. } if url == "http://x/v1/q1/2"));
    assert!(it.request().is_none());
    let pages: Vec<QueryResults> = items.into_iter().map(|i| i.unwrap()).collect();
    assert_eq!(pages.len(), 2);
    let table = display_data(&pages);
    assert_eq!(table.titles, Some(vec!["_col0".to_string()]));
    assert_eq!(table.rows, vec![vec!["1".to_string()], vec!["2".to_string()]]);
}

#[test]
fn scenario_syntax_error_on_submit() {
    let ctx = ctx();
    let mut it = QueryIterator::new(&ctx, "SELEC 1".to_string());
    let (requests, items) =
        drive(&mut it, vec![Ok(error_page("q1", None, r#"{"message":"syntax error at line 1"}"#))]);
    assert_eq!(requests.len(), 1);
    assert!(matches!(&requests[0], Request::Post { .. }));
    assert_eq!(items.len(), 1);
    match &items[0] {
        Err(Error::PrestoError(text)) => assert!(text.contains("syntax error at line 1")),
        other => panic!("unexpected {:?}", other),
    }
    assert!(it.request().is_none());
}
