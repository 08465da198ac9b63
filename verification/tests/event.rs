use polling_monitor::base::{show_error, BatchError, BatchId};
use polling_monitor::event::{error_text, waiting_text, Duration, Event};
use polling_monitor::text::{decimal_text, join, list, quote_all};

#[derive(Clone, Debug, PartialEq)]
struct TestBatchId {
    id: String,
    service_id: String,
}

impl BatchId for TestBatchId {
    fn get_id(&self) -> &str {
        &self.id
    }

    fn get_service_id(&self) -> &str {
        &self.service_id
    }
}

fn id(id: &str) -> TestBatchId {
    TestBatchId {
        id: id.to_string(),
        service_id: "a".to_string(),
    }
}

fn strings(items: &[&str]) -> Vec<String> {
    items.iter().map(|s| s.to_string()).collect()
}

#[test]
fn fetch_pending_line() {
    let event: Event<TestBatchId> = Event::FetchPending;
    assert_eq!(event.to_string(), "fetching pending batches");
}

#[test]
fn fetch_pending_complete_line() {
    let event = Event::FetchPendingComplete {
        ids: vec![id("one"), id("two")],
    };
    assert_eq!(event.to_string(), "found 2 pending batches");
    let event: Event<TestBatchId> = Event::FetchPendingComplete { ids: vec![] };
    assert_eq!(event.to_string(), "found 0 pending batches");
}

#[test]
fn fetch_statuses_line() {
    let event: Event<TestBatchId> = Event::FetchStatuses {
        service_id: "a".to_string(),
        batches: strings(&["one", "two", "three"]),
    };
    assert_eq!(
        event.to_string(),
        "fetching a batch statuses for [one, two, three]"
    );
    let event: Event<TestBatchId> = Event::FetchStatuses {
        service_id: "a".to_string(),
        batches: vec![],
    };
    assert_eq!(event.to_string(), "fetching a batch statuses for []");
}

#[test]
fn fetch_statuses_complete_line() {
    let event: Event<TestBatchId> = Event::FetchStatusesComplete {
        service_id: "gamma::1".to_string(),
        total: 120,
    };
    assert_eq!(
        event.to_string(),
        "service gamma::1 fetched 120 batch statuses"
    );
}

#[test]
fn update_line() {
    let event: Event<TestBatchId> = Event::Update {
        service_id: "a".to_string(),
    };
    assert_eq!(event.to_string(), "updating a batch statuses");
}

#[test]
fn update_complete_line() {
    let event: Event<TestBatchId> = Event::UpdateComplete {
        service_id: "a".to_string(),
        total: 7,
    };
    assert_eq!(event.to_string(), "service a updated 7 batch statuses");
}

#[test]
fn waiting_line() {
    for (secs, nanos) in [
        (5, 0),
        (0, 0),
        (1, 500_000_000),
        (0, 250_000_000),
        (0, 1_500),
        (0, 7),
        (u64::MAX, 999_999_999),
    ] {
        let event: Event<TestBatchId> = Event::Waiting(Duration::new(secs, nanos));
        let interval = std::time::Duration::new(secs, nanos);
        assert_eq!(
            event.to_string(),
            format!("waiting at interval {interval:?}")
        );
    }
    let event: Event<TestBatchId> = Event::Waiting(Duration::new(1, 500_000_000));
    assert_eq!(event.to_string(), "waiting at interval 1.5s");
    assert_eq!(waiting_text("1.5s"), "waiting at interval 1.5s");
}

#[test]
fn error_line() {
    let event: Event<TestBatchId> =
        Event::Error(BatchError::InternalError("no \"route\"\n".to_string()));
    assert_eq!(
        event.to_string(),
        "Error: InternalError(\"no \\\"route\\\"\\n\")"
    );
    assert_eq!(error_text("x"), "Error: x");
}

#[test]
fn shown_errors_are_debug_texts() {
    for message in ["", "plain", "qu\"ote", "back\\slash", "tab\t", "é", "\u{7f}"] {
        let error = BatchError::InternalError(message.to_string());
        assert_eq!(error.shown(), format!("{error:?}"));
    }
    assert_eq!(show_error("\"m\""), "InternalError(\"m\")");
}

#[test]
fn decimals() {
    for n in [0, 1, 9, 10, 11, 99, 100, 101, 1234567890, usize::MAX] {
        assert_eq!(decimal_text(n), n.to_string());
    }
}

#[test]
fn joined_and_listed_strings() {
    for items in [
        strings(&[]),
        strings(&["a"]),
        strings(&["", ""]),
        strings(&["a", "b\"", "c"]),
    ] {
        assert_eq!(join(&items, ", "), items.join(", "));
        assert_eq!(list(&quote_all(&items)), format!("{items:?}"));
    }
}

#[test]
fn duration_gives_back_its_parts() {
    for (secs, nanos) in [(0, 0), (1, 500_000_000), (u64::MAX, 999_999_999)] {
        let duration = Duration::new(secs, nanos);
        assert_eq!(duration.as_secs(), secs);
        assert_eq!(duration.subsec_nanos(), nanos);
    }
}

#[test]
fn events_are_written_with_the_duration_of_std() {
    for (secs, nanos) in [(5, 0), (1, 500_000_000), (0, 1_500), (u64::MAX, 7)] {
        let duration = Duration::new(secs, nanos);
        let interval = std::time::Duration::new(secs, nanos);
        assert_eq!(format!("{duration:?}"), format!("{interval:?}"));
        assert_eq!(format!("{duration:.1?}"), format!("{interval:.1?}"));
        assert_eq!(format!("{duration:>20?}"), format!("{interval:>20?}"));
        assert_eq!(format!("{duration:?}"), duration.shown());
    }
    let event: Event<TestBatchId> = Event::Waiting(Duration::new(1, 500_000_000));
    assert_eq!(format!("{event:?}"), "Waiting(1.5s)");
    assert_eq!(format!("{event:#?}"), "Waiting(\n    1.5s,\n)");
}

#[test]
fn clones_are_equal() {
    let error = BatchError::InternalError("no route".to_string());
    assert_eq!(error.clone(), error);
    let service_id = "a".to_string();
    let events = vec![
        Event::FetchPending,
        Event::FetchPendingComplete {
            ids: vec![id("one"), id("two")],
        },
        Event::FetchStatuses {
            service_id: service_id.clone(),
            batches: strings(&["one", "two"]),
        },
        Event::FetchStatusesComplete {
            service_id: service_id.clone(),
            total: 2,
        },
        Event::Update {
            service_id: service_id.clone(),
        },
        Event::UpdateComplete {
            service_id,
            total: 3,
        },
        Event::Waiting(Duration::new(1, 500_000_000)),
        Event::Error(error),
    ];
    for event in &events {
        assert_eq!(&event.clone(), event);
    }
}
