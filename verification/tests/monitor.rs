use std::collections::VecDeque;
use std::fmt::Debug;
use std::sync::{Arc, Mutex};

use futures::executor::block_on;
use futures::future::{self, BoxFuture};
use polling_monitor::base::{
    BatchError, BatchId, BatchResult, BatchStatus, BatchStatusReader, BatchUpdater,
    PendingBatchStore,
};
use polling_monitor::event::Event;
use polling_monitor::monitor::{
    Handle, Notifier, Observer, PollingLoop, PollingMonitorAssetBuilder, PollingMonitorAssets, Step,
};
use polling_monitor::requests::{group_by_service_id, read_pending, start_poll, BatchRequest};

#[derive(PartialEq, Debug, Clone)]
pub enum Status {
    Unknown,
    Valid,
}

#[derive(PartialEq, Debug, Clone)]
pub struct TestBatchStatus {
    pub id: String,
    pub status: Status,
}

impl BatchStatus for TestBatchStatus {
    fn get_id(&self) -> &str {
        &self.id
    }

    fn is_unknown(&self) -> bool {
        matches!(self.status, Status::Unknown)
    }
}

#[derive(PartialEq, Debug, Clone)]
pub struct TestBatchId {
    pub id: String,
    pub service_id: String,
}

impl BatchId for TestBatchId {
    fn get_id(&self) -> &str {
        &self.id
    }

    fn get_service_id(&self) -> &str {
        &self.service_id
    }
}

#[derive(PartialEq, Debug, Clone)]
struct BatchUpdateCall {
    service_id: String,
    statuses: Vec<TestBatchStatus>,
}

#[derive(PartialEq, Debug, Clone)]
struct BatchStatusCall {
    service_id: String,
    batch_ids: Vec<String>,
}

struct TestShared<T, R> {
    actual_calls: Vec<Option<T>>,
    responses: Vec<Option<R>>,
}

struct CallTester<T: Debug + PartialEq, R> {
    expected_calls: Vec<T>,
    shared: Arc<Mutex<TestShared<T, R>>>,
}

impl<T: Debug + PartialEq, R> CallTester<T, R> {
    fn new(expected_calls: Vec<T>, responses: Vec<R>) -> Self {
        CallTester {
            expected_calls,
            shared: Arc::new(Mutex::new(TestShared {
                actual_calls: responses.iter().map(|_| None).collect(),
                responses: responses.into_iter().map(Option::from).collect(),
            })),
        }
    }

    fn assert_calls(self) {
        let mut guard = self.shared.lock().unwrap();
        let shared = &mut *guard;
        assert_eq!(
            shared.actual_calls,
            self.expected_calls
                .into_iter()
                .map(Option::from)
                .collect::<Vec<_>>()
        );
    }

    fn call(&self, call: T) -> R {
        let index = self
            .expected_calls
            .iter()
            .position(|expected_call| expected_call == &call)
            .unwrap_or_else(|| panic!("unexpected call {:?}", call));

        let mut guard = self.shared.lock().unwrap();
        let protected_value = &mut *guard;

        let response = protected_value
            .responses
            .get_mut(index)
            .unwrap()
            .take()
            .unwrap_or_else(|| panic!("duplicate call made for {:?}", call));

        *protected_value.actual_calls.get_mut(index).unwrap() = Some(call);

        let got = protected_value.actual_calls.len();
        let expected = self.expected_calls.len();

        if got > expected {
            panic!("expected {} but got {} calls", expected, got);
        }

        response
    }
}

struct TestBuilder<T, R> {
    expected_calls: Vec<T>,
    responses: Vec<R>,
}

impl<T: Debug + PartialEq, R> TestBuilder<T, R> {
    fn new() -> Self {
        TestBuilder {
            expected_calls: Vec::new(),
            responses: Vec::new(),
        }
    }

    fn expect_call(mut self, call: T, response: R) -> Self {
        self.expected_calls.push(call);
        self.responses.push(response);
        self
    }

    fn build(self) -> CallTester<T, R> {
        CallTester::new(self.expected_calls, self.responses)
    }
}

type TestStore = CallTester<(), BatchResult<Vec<TestBatchId>>>;
type StatusResult<'a> = BoxFuture<'a, BatchResult<Vec<TestBatchStatus>>>;
type TestReader = CallTester<BatchStatusCall, StatusResult<'static>>;
type TestUpdater = CallTester<BatchUpdateCall, BatchResult<()>>;

impl PendingBatchStore for TestStore {
    type Id = TestBatchId;

    fn get_pending_batch_ids(&self, limit: usize) -> BatchResult<Vec<TestBatchId>> {
        assert_eq!(limit, 100);
        self.call(())
    }
}

impl BatchStatusReader for TestReader {
    type Status = TestBatchStatus;

    type Reply<'a> = StatusResult<'a>;

    fn get_batch_statuses<'a>(
        &'a self,
        service_id: &'a str,
        batch_ids: &'a [String],
    ) -> StatusResult<'a> {
        self.call(BatchStatusCall {
            service_id: service_id.to_string(),
            batch_ids: batch_ids.to_vec(),
        })
    }

    fn available_connections(&self) -> usize {
        100
    }
}

impl BatchUpdater for TestUpdater {
    type Status = TestBatchStatus;

    fn update_batch_statuses(
        &self,
        service_id: &str,
        batches: &[TestBatchStatus],
    ) -> BatchResult<()> {
        self.call(BatchUpdateCall {
            service_id: service_id.to_string(),
            statuses: batches.to_vec(),
        })
    }
}

struct TestObserver {
    events: Arc<Mutex<Vec<Event<TestBatchId>>>>,
}

impl Observer for TestObserver {
    type Event = Event<TestBatchId>;

    type Notified = BoxFuture<'static, ()>;

    fn notify(&self, event: Event<TestBatchId>) -> BoxFuture<'static, ()> {
        let events = self.events.clone();
        Box::pin(async move {
            events.lock().unwrap().push(event);
        })
    }
}

type TestAssets = PollingMonitorAssets<TestObserver, TestStore, TestReader, TestUpdater>;

struct TestAssetsBuilder {
    construct: Box<dyn FnOnce() -> TestAssets + Send>,
}

impl PollingMonitorAssetBuilder for TestAssetsBuilder {
    type Id = TestBatchId;
    type Status = TestBatchStatus;
    type Observer = TestObserver;
    type Store = TestStore;
    type Reader = TestReader;
    type Updater = TestUpdater;

    fn build(self) -> TestAssets {
        (self.construct)()
    }
}

fn notify(assets: &TestAssets, event: Event<TestBatchId>) {
    block_on(future::join_all(assets.notifier.notify(event)));
}

/// Calls the monitor `polls` times, and then no more; returns the rounds it took.
fn run(assets: &TestAssets, mut polls: usize) -> usize {
    let mut polling = PollingLoop::new();
    let mut requests: VecDeque<BatchRequest> = VecDeque::new();
    let mut rounds = 0;
    while !polling.is_finished() {
        rounds += 1;
        let handle = match requests.pop_front() {
            Some(request) => {
                let statuses = block_on(request.send(&assets.reader));
                Handle::RequestResult(request, statuses)
            }
            None if polls > 0 => {
                polls -= 1;
                Handle::from_signal(Some(()))
            }
            None => Handle::from_signal(None),
        };
        match polling.step(handle) {
            Step::Respond(plan) => {
                for event in plan.events {
                    notify(assets, event);
                }
                if let Some(update) = plan.update {
                    notify(assets, update.apply(&assets.updater));
                }
            }
            Step::Poll => {
                let start = start_poll(&assets.reader);
                notify(assets, start.event);
                let plan = polling.poll(&assets.store, start.limit);
                notify(assets, plan.event);
                requests.extend(plan.requests);
            }
            Step::Drain => {}
        }
    }
    rounds
}

fn batch_id(id: &str, service_id: &str) -> TestBatchId {
    TestBatchId {
        id: id.to_string(),
        service_id: service_id.to_string(),
    }
}

fn status(id: &str, status: Status) -> TestBatchStatus {
    TestBatchStatus {
        id: id.to_string(),
        status,
    }
}

#[test]
fn update_sync_correctly_updates_statuses() {
    let events = Arc::new(Mutex::new(Vec::new()));
    let observed = events.clone();
    let asset_builder = TestAssetsBuilder {
        construct: Box::new(move || {
            let store: TestStore = TestBuilder::new()
                .expect_call(
                    (),
                    Ok(vec![
                        TestBatchId {
                            id: "one".to_string(),
                            service_id: "a".to_string(),
                        },
                        TestBatchId {
                            id: "two".to_string(),
                            service_id: "a".to_string(),
                        },
                        TestBatchId {
                            id: "three".to_string(),
                            service_id: "b".to_string(),
                        },
                        TestBatchId {
                            id: "four".to_string(),
                            service_id: "b".to_string(),
                        },
                    ]),
                )
                .build();

            let reader: TestReader = TestBuilder::new()
                .expect_call(
                    BatchStatusCall {
                        service_id: "a".to_string(),
                        batch_ids: vec!["one".to_string(), "two".to_string()],
                    },
                    Box::pin(future::ok(vec![
                        TestBatchStatus {
                            id: "one".to_string(),
                            status: Status::Valid,
                        },
                        TestBatchStatus {
                            id: "two".to_string(),
                            status: Status::Valid,
                        },
                    ])) as StatusResult<'_>,
                )
                .expect_call(
                    BatchStatusCall {
                        service_id: "b".to_string(),
                        batch_ids: vec!["three".to_string(), "four".to_string()],
                    },
                    Box::pin(future::ok(vec![
                        TestBatchStatus {
                            id: "three".to_string(),
                            status: Status::Valid,
                        },
                        TestBatchStatus {
                            id: "four".to_string(),
                            status: Status::Unknown,
                        },
                    ])) as StatusResult<'_>,
                )
                .build();

            let updater: TestUpdater = TestBuilder::new()
                .expect_call(
                    BatchUpdateCall {
                        service_id: "a".to_string(),
                        statuses: vec![
                            TestBatchStatus {
                                id: "one".to_string(),
                                status: Status::Valid,
                            },
                            TestBatchStatus {
                                id: "two".to_string(),
                                status: Status::Valid,
                            },
                        ],
                    },
                    Ok(()),
                )
                .expect_call(
                    BatchUpdateCall {
                        service_id: "b".to_string(),
                        statuses: vec![TestBatchStatus {
                            id: "three".to_string(),
                            status: Status::Valid,
                        }],
                    },
                    Ok(()),
                )
                .build();

            TestAssets {
                notifier: Notifier::new(vec![TestObserver { events: observed }]),
                store,
                reader,
                updater,
            }
        }),
    };

    let assets = asset_builder.build();
    assert_eq!(run(&assets, 1), 4);

    assert_eq!(
        *events.lock().unwrap(),
        vec![
            Event::FetchPending,
            Event::FetchPendingComplete {
                ids: vec![
                    batch_id("one", "a"),
                    batch_id("two", "a"),
                    batch_id("three", "b"),
                    batch_id("four", "b"),
                ]
            },
            Event::FetchStatusesComplete {
                service_id: "a".to_string(),
                total: 2
            },
            Event::UpdateComplete {
                service_id: "a".to_string(),
                total: 2
            },
            Event::FetchStatusesComplete {
                service_id: "b".to_string(),
                total: 2
            },
            Event::Error(BatchError::InternalError(format!(
                "batches returned unknown status: {:?}",
                vec![status("four", Status::Unknown)]
            ))),
            Event::UpdateComplete {
                service_id: "b".to_string(),
                total: 1
            },
        ]
    );
    assets.store.assert_calls();
    assets.reader.assert_calls();
    assets.updater.assert_calls();
}

#[test]
fn a_monitor_that_is_never_called_ends_when_drained() {
    let events = Arc::new(Mutex::new(Vec::new()));
    let assets = TestAssets {
        notifier: Notifier::new(vec![TestObserver {
            events: events.clone(),
        }]),
        store: TestBuilder::new().build(),
        reader: TestBuilder::new().build(),
        updater: TestBuilder::new().build(),
    };
    assert_eq!(run(&assets, 0), 1);
    assert!(events.lock().unwrap().is_empty());
}

#[test]
fn a_poll_that_cannot_read_pending_batches_goes_on_listening() {
    let events = Arc::new(Mutex::new(Vec::new()));
    let assets = TestAssets {
        notifier: Notifier::new(vec![TestObserver {
            events: events.clone(),
        }]),
        store: TestBuilder::new()
            .expect_call((), Err(BatchError::InternalError("gone".to_string())))
            .build(),
        reader: TestBuilder::new().build(),
        updater: TestBuilder::new().build(),
    };
    assert_eq!(run(&assets, 1), 2);
    assert_eq!(
        *events.lock().unwrap(),
        vec![
            Event::FetchPending,
            Event::Error(BatchError::InternalError(
                "encountered error InternalError(\"gone\") fetching pending batches".to_string()
            )),
        ]
    );
}

#[test]
fn every_observer_is_notified_once() {
    let first = Arc::new(Mutex::new(Vec::new()));
    let second = Arc::new(Mutex::new(Vec::new()));
    let notifier = Notifier::new(vec![
        TestObserver {
            events: first.clone(),
        },
        TestObserver {
            events: second.clone(),
        },
    ]);
    let notified = notifier.notify(Event::Update {
        service_id: "a".to_string(),
    });
    assert_eq!(notified.len(), 2);
    block_on(future::join_all(notified));
    let expected = vec![Event::Update {
        service_id: "a".to_string(),
    }];
    assert_eq!(*first.lock().unwrap(), expected);
    assert_eq!(*second.lock().unwrap(), expected);
}

#[test]
fn observers_follow_events_in_order() {
    let first = Arc::new(Mutex::new(Vec::new()));
    let second = Arc::new(Mutex::new(Vec::new()));
    let notifier = Notifier::new(vec![
        TestObserver {
            events: first.clone(),
        },
        TestObserver {
            events: second.clone(),
        },
    ]);
    let events = vec![
        Event::FetchPending,
        Event::Update {
            service_id: "a".to_string(),
        },
        Event::FetchPending,
    ];
    for event in events.clone() {
        block_on(future::join_all(notifier.notify(event)));
    }
    assert_eq!(*first.lock().unwrap(), events);
    assert_eq!(*second.lock().unwrap(), events);
}

#[test]
fn an_answer_updates_what_was_pending_when_it_was_asked_for() {
    let mut polling = PollingLoop::new();
    for (id, service_id) in [("one", "a"), ("two", "b"), ("three", "a")] {
        assert_eq!(step(&mut polling, Handle::Poll), "poll");
        let requests = group_by_service_id(read_pending(&[batch_id(id, service_id)]));
        polling.wait_for_answers(&requests);
    }
    let sent = vec![
        status("one", Status::Valid),
        status("two", Status::Valid),
        status("three", Status::Valid),
    ];
    for (id, service_id) in [("three", "a"), ("one", "a"), ("two", "b")] {
        let handle = Handle::RequestResult(request(service_id, &[id]), Ok(sent.clone()));
        let step: Step<TestBatchId, TestBatchStatus> = polling.step(handle);
        let plan = match step {
            Step::Respond(plan) => plan,
            _ => panic!("a request was answered"),
        };
        let update = plan.update.unwrap();
        assert_eq!(update.service_id, service_id);
        assert_eq!(update.statuses, vec![status(id, Status::Valid)]);
    }
    assert_eq!(step(&mut polling, Handle::Drain), "drain");
    assert!(polling.is_finished());
}

fn request(service_id: &str, ids: &[&str]) -> BatchRequest {
    BatchRequest {
        service_id: service_id.to_string(),
        ids: ids.iter().map(|id| id.to_string()).collect(),
    }
}

fn step(polling: &mut PollingLoop, handle: Handle<TestBatchStatus>) -> &'static str {
    let step: Step<TestBatchId, TestBatchStatus> = polling.step(handle);
    match step {
        Step::Respond(_) => "respond",
        Step::Poll => "poll",
        Step::Drain => "drain",
    }
}

struct FixedStore(BatchResult<Vec<TestBatchId>>);

impl PendingBatchStore for FixedStore {
    type Id = TestBatchId;

    fn get_pending_batch_ids(&self, limit: usize) -> BatchResult<Vec<TestBatchId>> {
        let mut ids = self.0.clone()?;
        ids.truncate(limit);
        Ok(ids)
    }
}

#[test]
fn a_poll_waits_for_what_the_store_answers() {
    let store = FixedStore(Ok(vec![
        batch_id("one", "a"),
        batch_id("two", "b"),
        batch_id("three", "a"),
        batch_id("four", "c"),
    ]));
    let mut polling = PollingLoop::new();
    assert_eq!(step(&mut polling, Handle::Poll), "poll");
    let plan = polling.poll(&store, 3);
    assert_eq!(
        plan.event,
        Event::FetchPendingComplete {
            ids: vec![
                batch_id("one", "a"),
                batch_id("two", "b"),
                batch_id("three", "a"),
            ]
        }
    );
    assert_eq!(step(&mut polling, Handle::Drain), "drain");
    for (service_id, ids) in [("b", vec!["two"]), ("a", vec!["one", "three"])] {
        assert!(!polling.is_finished());
        let answered = Handle::RequestResult(request(service_id, &ids), Ok(vec![]));
        assert_eq!(step(&mut polling, answered), "respond");
    }
    assert!(polling.is_finished());
}

#[test]
fn a_poll_that_cannot_read_the_store_waits_for_the_next_call() {
    let store = FixedStore(Err(BatchError::InternalError("no store".to_string())));
    let mut polling = PollingLoop::new();
    assert_eq!(step(&mut polling, Handle::Poll), "poll");
    assert!(polling.is_finished());
    let plan = polling.poll(&store, 3);
    assert!(matches!(plan.event, Event::Error(_)));
    assert!(plan.requests.is_empty());
    assert!(!polling.is_finished());
    assert_eq!(step(&mut polling, Handle::Drain), "drain");
    assert!(polling.is_finished());
}

#[test]
fn a_drained_monitor_waits_for_the_remaining_answers() {
    let mut polling = PollingLoop::new();
    assert!(!polling.is_finished());
    assert_eq!(step(&mut polling, Handle::Poll), "poll");
    polling.wait_for_answers(&[request("a", &["one"]), request("b", &["two"])]);
    assert_eq!(step(&mut polling, Handle::Drain), "drain");
    assert!(!polling.is_finished());
    let answered = Handle::RequestResult(request("b", &["two"]), Ok(vec![]));
    assert_eq!(step(&mut polling, answered), "respond");
    assert!(!polling.is_finished());
    let answered = Handle::RequestResult(request("a", &["one"]), Ok(vec![]));
    assert_eq!(step(&mut polling, answered), "respond");
    assert!(polling.is_finished());
}

#[test]
fn an_answer_ends_the_wait_for_its_own_request_only() {
    let mut polling = PollingLoop::new();
    assert_eq!(step(&mut polling, Handle::Poll), "poll");
    polling.wait_for_answers(&[request("a", &["one", "two"])]);
    assert_eq!(step(&mut polling, Handle::Drain), "drain");
    for other in [
        request("a", &["one"]),
        request("a", &["one", "three"]),
        request("b", &["one", "two"]),
    ] {
        let answered = Handle::RequestResult(other, Ok(vec![]));
        assert_eq!(step(&mut polling, answered), "respond");
        assert!(!polling.is_finished());
    }
    let answered = Handle::RequestResult(request("a", &["one", "two"]), Ok(vec![]));
    assert_eq!(step(&mut polling, answered), "respond");
    assert!(polling.is_finished());
}

#[test]
fn signals_poll_or_drain() {
    assert!(matches!(
        Handle::<TestBatchStatus>::from_signal(Some(())),
        Handle::Poll
    ));
    assert!(matches!(
        Handle::<TestBatchStatus>::from_signal(None),
        Handle::Drain
    ));
}
