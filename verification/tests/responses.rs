use std::cell::RefCell;

use polling_monitor::base::{BatchError, BatchId, BatchResult, BatchStatus, BatchUpdater};
use polling_monitor::event::Event;
use polling_monitor::responses::{
    failure_text, handle_response, mismatch_text, plan_failure, plan_response, read_statuses,
    reconcile, report_update, show_statuses, unknown_text, BatchUpdate, Reconciled, Report,
    ResponsePlan,
};

#[derive(Clone, Debug, PartialEq)]
struct TestBatchId;

impl BatchId for TestBatchId {
    fn get_id(&self) -> &str {
        "id"
    }

    fn get_service_id(&self) -> &str {
        "service"
    }
}

#[derive(PartialEq, Debug, Clone)]
enum Status {
    Unknown,
    Valid,
}

#[derive(PartialEq, Debug, Clone)]
struct TestBatchStatus {
    id: String,
    status: Status,
}

impl BatchStatus for TestBatchStatus {
    fn get_id(&self) -> &str {
        &self.id
    }

    fn is_unknown(&self) -> bool {
        matches!(self.status, Status::Unknown)
    }
}

fn valid(id: &str) -> TestBatchStatus {
    TestBatchStatus {
        id: id.to_string(),
        status: Status::Valid,
    }
}

fn unknown(id: &str) -> TestBatchStatus {
    TestBatchStatus {
        id: id.to_string(),
        status: Status::Unknown,
    }
}

fn strings(items: &[&str]) -> Vec<String> {
    items.iter().map(|s| s.to_string()).collect()
}

fn error(message: &str) -> Event<TestBatchId> {
    Event::Error(BatchError::InternalError(message.to_string()))
}

fn complete(service_id: &str, total: usize) -> Event<TestBatchId> {
    Event::FetchStatusesComplete {
        service_id: service_id.to_string(),
        total,
    }
}

fn handle(
    pending: &[&str],
    statuses: BatchResult<Vec<TestBatchStatus>>,
) -> ResponsePlan<TestBatchId, TestBatchStatus> {
    handle_response("a".to_string(), &strings(pending), statuses)
}

struct TestUpdater {
    calls: RefCell<Vec<(String, Vec<TestBatchStatus>)>>,
    result: BatchResult<()>,
}

impl BatchUpdater for TestUpdater {
    type Status = TestBatchStatus;

    fn update_batch_statuses(
        &self,
        service_id: &str,
        batches: &[TestBatchStatus],
    ) -> BatchResult<()> {
        self.calls
            .borrow_mut()
            .push((service_id.to_string(), batches.to_vec()));
        self.result.clone()
    }
}

#[test]
fn a_matching_response_is_updated_whole() {
    let plan = handle(
        &["one", "two"],
        Ok(vec![valid("two"), valid("one")]),
    );
    assert_eq!(plan.events, vec![complete("a", 2)]);
    let update = plan.update.unwrap();
    assert_eq!(update.service_id, "a");
    assert_eq!(update.statuses, vec![valid("two"), valid("one")]);
}

#[test]
fn a_failed_request_is_reported_and_not_updated() {
    let plan = handle(
        &["one"],
        Err(BatchError::InternalError("down".to_string())),
    );
    assert_eq!(
        plan.events,
        vec![error(
            "encountered error InternalError(\"down\") fetching batch statuses for service id a"
        )]
    );
    assert!(plan.update.is_none());
}

#[test]
fn a_mismatch_is_reported() {
    let plan = handle(
        &["one", "two", "three", "two"],
        Ok(vec![valid("four"), valid("one"), valid("fi\"ve"), valid("four")]),
    );
    assert_eq!(
        plan.events,
        vec![
            complete("a", 4),
            error(
                "unexpected difference between submission and response during sanity check for \
                 service a. the following batch ids were submitted but not received back: \
                 [\"two\", \"three\"]. the following batch ids were received back but not \
                 submitted: [\"four\", \"fi\\\"ve\", \"four\"]. these will not be updated."
            ),
        ]
    );
    assert_eq!(plan.update.unwrap().statuses, vec![valid("one")]);
}

#[test]
fn a_missing_answer_alone_is_a_mismatch() {
    let plan = handle(&["one", "two"], Ok(vec![valid("one")]));
    assert_eq!(
        plan.events[1],
        error(
            "unexpected difference between submission and response during sanity check for \
             service a. the following batch ids were submitted but not received back: \
             [\"two\"]. the following batch ids were received back but not submitted: []. \
             these will not be updated."
        )
    );
    assert_eq!(plan.events.len(), 2);
}

#[test]
fn unknown_statuses_are_reported_and_not_updated() {
    let plan = handle(
        &["one", "two", "three"],
        Ok(vec![unknown("one"), valid("two"), unknown("three")]),
    );
    assert_eq!(
        plan.events,
        vec![
            complete("a", 3),
            error(&format!(
                "batches returned unknown status: {:?}",
                vec![unknown("one"), unknown("three")]
            )),
        ]
    );
    assert_eq!(plan.update.unwrap().statuses, vec![valid("two")]);
}

#[test]
fn an_unknown_status_that_was_not_submitted_counts_as_not_submitted() {
    let plan = handle(&[], Ok(vec![unknown("one")]));
    assert_eq!(plan.events.len(), 2);
    assert_eq!(
        plan.events[1],
        error(
            "unexpected difference between submission and response during sanity check for \
             service a. the following batch ids were submitted but not received back: []. the \
             following batch ids were received back but not submitted: [\"one\"]. these will \
             not be updated."
        )
    );
    assert!(plan.update.unwrap().statuses.is_empty());
}

#[test]
fn an_empty_response_to_an_empty_request_still_makes_an_update() {
    let plan = handle(&[], Ok(vec![]));
    assert_eq!(plan.events, vec![complete("a", 0)]);
    let updater = TestUpdater {
        calls: RefCell::new(vec![]),
        result: Ok(()),
    };
    let event: Event<TestBatchId> = plan.update.unwrap().apply(&updater);
    assert_eq!(
        event,
        Event::UpdateComplete {
            service_id: "a".to_string(),
            total: 0
        }
    );
    assert_eq!(*updater.calls.borrow(), vec![("a".to_string(), vec![])]);
}

#[test]
fn an_update_is_handed_to_the_updater() {
    let update = BatchUpdate {
        service_id: "a".to_string(),
        statuses: vec![valid("one"), valid("two")],
    };
    let updater = TestUpdater {
        calls: RefCell::new(vec![]),
        result: Ok(()),
    };
    let event: Event<TestBatchId> = update.apply(&updater);
    assert_eq!(
        event,
        Event::UpdateComplete {
            service_id: "a".to_string(),
            total: 2
        }
    );
    assert_eq!(
        *updater.calls.borrow(),
        vec![("a".to_string(), vec![valid("one"), valid("two")])]
    );
}

#[test]
fn a_failed_update_is_reported() {
    let update = BatchUpdate {
        service_id: "a".to_string(),
        statuses: vec![valid("one")],
    };
    let updater = TestUpdater {
        calls: RefCell::new(vec![]),
        result: Err(BatchError::InternalError("locked".to_string())),
    };
    let event: Event<TestBatchId> = update.apply(&updater);
    assert_eq!(
        event,
        error(
            "encountered error InternalError(\"locked\") fetching batch statuses for service id a"
        )
    );
    let reported: Event<TestBatchId> =
        report_update("a", 1, Err(BatchError::InternalError("locked".to_string())));
    assert_eq!(reported, event);
}

#[test]
fn reports_are_sorted_each_once() {
    let reports: Vec<Report<u8>> = vec![
        Report {
            status: 0,
            id: "one".to_string(),
            unknown: false,
        },
        Report {
            status: 1,
            id: "six".to_string(),
            unknown: true,
        },
        Report {
            status: 2,
            id: "two".to_string(),
            unknown: true,
        },
        Report {
            status: 3,
            id: "one".to_string(),
            unknown: false,
        },
    ];
    let reconciled = reconcile(&strings(&["three", "one", "two", "three", "four"]), reports);
    assert_eq!(reconciled.to_update, vec![0, 3]);
    assert_eq!(reconciled.unknown, vec![2]);
    assert_eq!(reconciled.only_in_response, strings(&["six"]));
    assert_eq!(reconciled.only_in_pending, strings(&["three", "four"]));
}

#[test]
fn the_order_of_submission_decides_nothing() {
    let statuses = || vec![valid("two"), unknown("one"), valid("five")];
    let first = reconcile(
        &strings(&["one", "two", "three"]),
        read_statuses(statuses()),
    );
    let second = reconcile(
        &strings(&["three", "two", "two", "one"]),
        read_statuses(statuses()),
    );
    assert_eq!(first.to_update, second.to_update);
    assert_eq!(first.unknown, second.unknown);
    assert_eq!(first.only_in_response, second.only_in_response);
    assert_eq!(first.only_in_pending, second.only_in_pending);
}

#[test]
fn idle_statuses_change_no_update() {
    let plan = handle(&["one", "two"], Ok(vec![valid("two"), valid("one")]));
    let longer = handle(
        &["two", "one", "two"],
        Ok(vec![
            unknown("one"),
            valid("two"),
            valid("three"),
            unknown("four"),
            valid("one"),
            unknown("two"),
        ]),
    );
    let update = plan.update.unwrap();
    let other = longer.update.unwrap();
    assert_eq!(update.service_id, other.service_id);
    assert_eq!(update.statuses, vec![valid("two"), valid("one")]);
    assert_eq!(update.statuses, other.statuses);
}

#[test]
fn statuses_are_read_and_shown() {
    let reports = read_statuses(vec![valid("one"), unknown("two")]);
    assert_eq!(reports[0].id, "one");
    assert!(!reports[0].unknown);
    assert_eq!(reports[1].id, "two");
    assert!(reports[1].unknown);
    assert_eq!(reports[1].status, unknown("two"));
    assert_eq!(
        show_statuses(&[unknown("two")]),
        vec!["TestBatchStatus { id: \"two\", status: Unknown }".to_string()]
    );
}

#[test]
fn plans_of_given_texts() {
    let plan: ResponsePlan<TestBatchId, u8> = plan_failure("a", "E");
    assert_eq!(
        plan.events,
        vec![error(
            "encountered error E fetching batch statuses for service id a"
        )]
    );
    let reconciled = Reconciled {
        only_in_pending: vec![],
        only_in_response: vec![],
        unknown: vec![1u8, 2u8],
        to_update: vec![3u8],
    };
    let plan: ResponsePlan<TestBatchId, u8> =
        plan_response("a".to_string(), 3, reconciled, &strings(&["x", "y"]));
    assert_eq!(
        plan.events,
        vec![
            complete("a", 3),
            error("batches returned unknown status: [x, y]")
        ]
    );
    assert_eq!(plan.update.unwrap().statuses, vec![3]);
    assert_eq!(
        failure_text("E", "s"),
        "encountered error E fetching batch statuses for service id s"
    );
    assert_eq!(
        mismatch_text("s", "[p]", "[r]"),
        "unexpected difference between submission and response during sanity check for service \
         s. the following batch ids were submitted but not received back: [p]. the following \
         batch ids were received back but not submitted: [r]. these will not be updated."
    );
    assert_eq!(unknown_text("[u]"), "batches returned unknown status: [u]");
}
