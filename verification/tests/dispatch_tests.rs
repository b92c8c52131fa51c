use crabapi::dispatch::{dispatch, send_requests, Batch, Handle};
use crabapi::method::Method;
use crabapi::report::{RequestOutcome, Response, Version};
use crabapi::request::{build_request, BuiltRequest, ClientConfig, RequestSpec};

fn request(port: u16) -> BuiltRequest {
    let spec = RequestSpec {
        method: Method::Post,
        url: format!("http://localhost:{}", port),
        query: vec![],
        headers: vec![("key".to_string(), "3".to_string())],
        body: "POST Request".as_bytes().to_vec(),
    };
    build_request(&ClientConfig::new(), &spec).unwrap()
}

fn ok(url: &str, body: &str) -> RequestOutcome {
    RequestOutcome::Success(Response {
        url: url.to_string(),
        status: 200,
        version: Version::Http11,
        headers: vec![],
        body: body.to_string(),
    })
}

fn failed(reason: &str) -> RequestOutcome {
    RequestOutcome::Failure(reason.to_string())
}

fn body_under(batch: &Batch, index: usize) -> Option<String> {
    match batch.outcome(Handle { index }) {
        Some(RequestOutcome::Success(response)) => Some(response.body.clone()),
        _ => None,
    }
}

fn reason_under(batch: &Batch, index: usize) -> Option<String> {
    match batch.outcome(Handle { index }) {
        Some(RequestOutcome::Failure(reason)) => Some(reason.clone()),
        _ => None,
    }
}

#[test]
fn a_batch_gets_one_handle_per_request_in_order() {
    let requests: Vec<BuiltRequest> = (0..10).map(|i| request(7000 + i)).collect();
    let units = send_requests(requests);
    assert_eq!(units.len(), 10);
    for (i, unit) in units.iter().enumerate() {
        assert_eq!(unit.handle, Handle { index: i });
        assert_eq!(unit.request.url, format!("http://localhost:{}/", 7000 + i));
    }
}

#[test]
fn an_empty_batch_gets_no_handle() {
    assert_eq!(send_requests(vec![]).len(), 0);
    let batch = Batch::new(0);
    assert_eq!(batch.len(), 0);
    assert_eq!(batch.pending(), 0);
    assert!(batch.is_complete());
}

#[test]
fn a_single_request_gets_the_first_handle() {
    let units = send_requests(vec![request(7878)]);
    assert_eq!(units.len(), 1);
    assert_eq!(units[0].handle.index, 0);
    assert_eq!(units[0].request.method, Method::Post);
    assert_eq!(units[0].request.body, "POST Request".as_bytes().to_vec());
}

#[test]
fn one_request_alone_yields_one_outcome() {
    let units = send_requests(vec![request(7878)]);
    let mut batch = Batch::new(units.len());
    assert!(batch.resolve(units[0].handle, ok("http://localhost:7878/", "POST Request")));
    assert!(batch.is_complete());
    assert_eq!(batch.len(), 1);
    match batch.outcome(units[0].handle) {
        Some(RequestOutcome::Success(response)) => {
            assert_eq!(response.status, 200);
            assert_eq!(response.body, "POST Request");
        }
        other => panic!("{:?}", other),
    }
}

#[test]
fn a_fresh_batch_has_nothing_resolved() {
    let batch = Batch::new(3);
    assert_eq!(batch.len(), 3);
    assert_eq!(batch.pending(), 3);
    assert!(!batch.is_complete());
    for index in 0..3 {
        assert!(batch.outcome(Handle { index }).is_none());
    }
}

#[test]
fn an_unreachable_host_fails_alone() {
    let units = send_requests(vec![request(1), request(7878)]);
    let mut batch = Batch::new(units.len());
    assert!(batch.resolve(units[1].handle, ok("http://localhost:7878/", "POST Request")));
    assert_eq!(batch.pending(), 1);
    assert!(batch.outcome(units[0].handle).is_none());
    assert!(batch.resolve(units[0].handle, failed("connection refused")));
    assert!(batch.is_complete());
    assert_eq!(reason_under(&batch, 0), Some("connection refused".to_string()));
    assert_eq!(body_under(&batch, 1), Some("POST Request".to_string()));
    assert!(!batch.outcome(units[0].handle).unwrap().is_success());
    assert!(batch.outcome(units[1].handle).unwrap().is_success());
}

#[test]
fn outcomes_stay_with_their_handles_whatever_the_order_of_arrival() {
    let orders: [[usize; 4]; 4] = [[0, 1, 2, 3], [3, 2, 1, 0], [2, 0, 3, 1], [1, 3, 0, 2]];
    for order in orders {
        let mut batch = Batch::new(4);
        for index in order {
            assert!(batch.resolve(Handle { index }, ok("http://h/", &format!("body {}", index))));
        }
        assert!(batch.is_complete());
        for index in 0..4 {
            assert_eq!(body_under(&batch, index), Some(format!("body {}", index)));
        }
    }
}

#[test]
fn a_recorded_outcome_is_final() {
    let mut batch = Batch::new(2);
    assert!(batch.resolve(Handle { index: 0 }, failed("timeout")));
    assert!(!batch.resolve(Handle { index: 0 }, ok("http://h/", "late")));
    assert_eq!(reason_under(&batch, 0), Some("timeout".to_string()));
    assert_eq!(batch.pending(), 1);
}

#[test]
fn a_handle_of_another_batch_is_not_taken() {
    let mut batch = Batch::new(2);
    assert!(!batch.resolve(Handle { index: 2 }, ok("http://h/", "x")));
    assert!(!batch.resolve(Handle { index: usize::MAX }, ok("http://h/", "x")));
    assert_eq!(batch.pending(), 2);
    assert!(batch.outcome(Handle { index: 2 }).is_none());
}

#[test]
fn a_batch_with_failures_still_reports_every_outcome() {
    let mut batch = Batch::new(5);
    for index in 0..5 {
        let outcome = if index % 2 == 0 { failed("tls") } else { ok("http://h/", "fine") };
        assert!(batch.resolve(Handle { index }, outcome));
        assert_eq!(batch.pending(), 4 - index);
    }
    let successes = (0..5).filter(|i| batch.outcome(Handle { index: *i }).unwrap().is_success()).count();
    assert_eq!(successes, 2);
}

#[test]
fn an_outcome_is_handed_out_once() {
    let mut batch = Batch::new(2);
    assert!(batch.take(Handle { index: 0 }).is_none());
    assert!(batch.resolve(Handle { index: 0 }, ok("http://h/", "first")));
    match batch.take(Handle { index: 0 }) {
        Some(RequestOutcome::Success(response)) => assert_eq!(response.body, "first"),
        other => panic!("{:?}", other),
    }
    assert!(batch.take(Handle { index: 0 }).is_none());
    assert!(batch.outcome(Handle { index: 0 }).is_none());
    assert!(!batch.resolve(Handle { index: 0 }, ok("http://h/", "again")));
    assert!(batch.take(Handle { index: 0 }).is_none());
    assert_eq!(batch.pending(), 1);
    assert!(!batch.is_complete());
    assert!(batch.take(Handle { index: 2 }).is_none());
}

#[test]
fn reporting_one_outcome_leaves_the_others_waiting() {
    let mut batch = Batch::new(3);
    for index in 0..3 {
        assert!(batch.resolve(Handle { index }, ok("http://h/", &format!("{}", index))));
    }
    assert!(batch.take(Handle { index: 1 }).is_some());
    assert_eq!(body_under(&batch, 0), Some("0".to_string()));
    assert_eq!(body_under(&batch, 1), None);
    assert_eq!(body_under(&batch, 2), Some("2".to_string()));
    assert!(batch.is_complete());
    assert_eq!(batch.len(), 3);
}

fn described(url: &str, header: &str) -> RequestSpec {
    RequestSpec {
        method: Method::Get,
        url: url.to_string(),
        query: vec![],
        headers: vec![(header.to_string(), "v".to_string())],
        body: vec![],
    }
}

#[test]
fn every_description_of_a_batch_gets_the_handle_of_its_place() {
    let specs: Vec<RequestSpec> = (0..5).map(|i| described(&format!("http://h{}/", i), "x")).collect();
    let set_up = dispatch(&ClientConfig::new(), &specs);
    assert_eq!(set_up.batch.len(), 5);
    assert_eq!(set_up.batch.pending(), 5);
    assert_eq!(set_up.work.len(), 5);
    for (i, unit) in set_up.work.iter().enumerate() {
        assert_eq!(unit.handle, Handle { index: i });
        assert_eq!(unit.request.url, format!("http://h{}/", i));
    }
}

#[test]
fn a_description_that_cannot_be_built_fails_at_once_and_alone() {
    let specs = vec![
        described("http://a/", "x"),
        described("nowhere", "x"),
        described("http://b/", "bad name"),
        described("http://c/", "x"),
    ];
    let mut set_up = dispatch(&ClientConfig::new(), &specs);
    assert_eq!(set_up.batch.len(), 4);
    assert_eq!(set_up.batch.pending(), 2);
    assert_eq!(reason_under(&set_up.batch, 1), Some("invalid URL".to_string()));
    assert_eq!(reason_under(&set_up.batch, 2), Some("invalid header name".to_string()));
    let handles: Vec<usize> = set_up.work.iter().map(|unit| unit.handle.index).collect();
    assert_eq!(handles, vec![0, 3]);
    assert_eq!(set_up.work[0].request.url, "http://a/");
    assert_eq!(set_up.work[1].request.url, "http://c/");
    assert!(set_up.batch.resolve(Handle { index: 3 }, ok("http://c/", "c")));
    assert!(set_up.batch.resolve(Handle { index: 0 }, failed("connection refused")));
    assert!(!set_up.batch.resolve(Handle { index: 1 }, ok("http://x/", "late")));
    assert!(set_up.batch.is_complete());
    assert_eq!(reason_under(&set_up.batch, 0), Some("connection refused".to_string()));
    assert_eq!(body_under(&set_up.batch, 3), Some("c".to_string()));
}

#[test]
fn an_empty_batch_of_descriptions_is_complete_at_once() {
    let set_up = dispatch(&ClientConfig::new(), &vec![]);
    assert_eq!(set_up.batch.len(), 0);
    assert!(set_up.batch.is_complete());
    assert!(set_up.work.is_empty());
}
