use std::cell::RefCell;

use polling_monitor::base::{
    BatchError, BatchId, BatchResult, BatchStatus, BatchStatusReader, PendingBatchStore,
};
use polling_monitor::event::Event;
use polling_monitor::requests::{
    get_batches_by_service_id, group_by_service_id, make_batch_requests, pending_failure_text,
    plan_poll, read_pending, start_poll, BatchRequest, Pending, PendingBatches, PollPlan,
};

#[derive(Clone, Debug, PartialEq)]
struct TestBatchId {
    id: String,
    service_id: String,
}

impl BatchId for TestBatchId {
    fn get_id(&self) -> &str {
        &self.id
    }

    fn get_service_id(&self) -> &str {
        &self.service_id
    }
}

fn batch(id: &str, service_id: &str) -> TestBatchId {
    TestBatchId {
        id: id.to_string(),
        service_id: service_id.to_string(),
    }
}

struct TestStore {
    limits: RefCell<Vec<usize>>,
    result: BatchResult<Vec<TestBatchId>>,
}

impl PendingBatchStore for TestStore {
    type Id = TestBatchId;

    fn get_pending_batch_ids(&self, limit: usize) -> BatchResult<Vec<TestBatchId>> {
        self.limits.borrow_mut().push(limit);
        self.result.clone()
    }
}

#[derive(Debug)]
struct NoStatus;

impl BatchStatus for NoStatus {
    fn get_id(&self) -> &str {
        ""
    }

    fn is_unknown(&self) -> bool {
        true
    }
}

struct TestReader;

impl BatchStatusReader for TestReader {
    type Status = NoStatus;

    type Reply<'a> = (&'a str, &'a [String]);

    fn get_batch_statuses<'a>(
        &'a self,
        service_id: &'a str,
        batch_ids: &'a [String],
    ) -> Self::Reply<'a> {
        (service_id, batch_ids)
    }

    fn available_connections(&self) -> usize {
        42
    }
}

fn contents(requests: &[BatchRequest]) -> Vec<(String, Vec<String>)> {
    requests
        .iter()
        .map(|request| (request.service_id.clone(), request.ids.clone()))
        .collect()
}

fn asked(service_id: &str, ids: &[&str]) -> (String, Vec<String>) {
    (
        service_id.to_string(),
        ids.iter().map(|id| id.to_string()).collect(),
    )
}

#[test]
fn batches_are_grouped_by_service() {
    let ids = vec![
        batch("one", "b"),
        batch("two", "a"),
        batch("three", "b"),
        batch("four", "c"),
        batch("two", "a"),
    ];
    let requests = group_by_service_id(read_pending(&ids));
    assert_eq!(
        contents(&requests),
        vec![
            asked("b", &["one", "three"]),
            asked("a", &["two", "two"]),
            asked("c", &["four"]),
        ]
    );
    let total: usize = requests.iter().map(|request| request.ids.len()).sum();
    assert_eq!(total, ids.len());
}

#[test]
fn grouping_goes_part_by_part() {
    let first = vec![batch("one", "b"), batch("two", "a")];
    let second = vec![batch("three", "c"), batch("four", "b"), batch("five", "c")];
    let mut both = first.clone();
    both.extend(second.clone());
    assert_eq!(
        contents(&group_by_service_id(read_pending(&first))),
        vec![asked("b", &["one"]), asked("a", &["two"])]
    );
    assert_eq!(
        contents(&group_by_service_id(read_pending(&second))),
        vec![asked("c", &["three", "five"]), asked("b", &["four"])]
    );
    assert_eq!(
        contents(&group_by_service_id(read_pending(&both))),
        vec![
            asked("b", &["one", "four"]),
            asked("a", &["two"]),
            asked("c", &["three", "five"]),
        ]
    );
}

#[test]
fn no_batches_make_no_requests() {
    let pending: Vec<Pending> = vec![];
    assert!(group_by_service_id(pending).is_empty());
}

#[test]
fn a_poll_starts_with_the_connections_of_the_reader() {
    let start = start_poll::<TestBatchId, TestReader>(&TestReader);
    assert_eq!(start.limit, 42);
    assert_eq!(start.event, Event::FetchPending);
}

#[test]
fn pending_batches_are_reported_and_requested() {
    let ids = vec![batch("one", "a"), batch("two", "b"), batch("three", "a")];
    let store = TestStore {
        limits: RefCell::new(vec![]),
        result: Ok(ids.clone()),
    };
    let plan = make_batch_requests(&store, 100);
    assert_eq!(*store.limits.borrow(), vec![100]);
    assert_eq!(plan.event, Event::FetchPendingComplete { ids: ids.clone() });
    assert_eq!(
        contents(&plan.requests),
        vec![asked("a", &["one", "three"]), asked("b", &["two"])]
    );

    let batches = match get_batches_by_service_id(&store, 7) {
        Ok(batches) => batches,
        Err(_) => panic!("the store answered"),
    };
    assert_eq!(*store.limits.borrow(), vec![100, 7]);
    assert_eq!(batches.ids, ids);
    assert_eq!(contents(&batches.requests), contents(&plan.requests));
}

#[test]
fn a_failure_to_read_pending_batches_is_reported() {
    let store = TestStore {
        limits: RefCell::new(vec![]),
        result: Err(BatchError::InternalError("gone".to_string())),
    };
    let plan = make_batch_requests(&store, 1);
    assert_eq!(
        plan.event,
        Event::Error(BatchError::InternalError(
            "encountered error InternalError(\"gone\") fetching pending batches".to_string()
        ))
    );
    assert!(plan.requests.is_empty());
    match get_batches_by_service_id(&store, 1) {
        Ok(_) => panic!("the store failed"),
        Err(error) => assert_eq!(error, BatchError::InternalError("gone".to_string())),
    }
    assert_eq!(
        pending_failure_text("E"),
        "encountered error E fetching pending batches"
    );
}

#[test]
fn plans_of_given_batches() {
    let plan: PollPlan<TestBatchId> = plan_poll(Ok(PendingBatches {
        ids: vec![batch("one", "a")],
        requests: vec![BatchRequest {
            service_id: "a".to_string(),
            ids: vec!["one".to_string()],
        }],
    }));
    assert_eq!(
        plan.event,
        Event::FetchPendingComplete {
            ids: vec![batch("one", "a")]
        }
    );
    assert_eq!(contents(&plan.requests), vec![asked("a", &["one"])]);
}

#[test]
fn a_request_is_sent_with_its_contents() {
    let request = BatchRequest {
        service_id: "a".to_string(),
        ids: vec!["one".to_string(), "two".to_string()],
    };
    let copy = request.clone();
    let (service_id, ids) = copy.send(&TestReader);
    assert_eq!(service_id, "a");
    assert_eq!(ids, &["one".to_string(), "two".to_string()]);
}
