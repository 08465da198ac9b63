//! What the functions of events and durations return.

use vstd::prelude::*;

use crate::base::{BatchError, BatchId};
use crate::event;
use crate::event::{Duration, Event};
use crate::laws::texts;
use crate::text;

verus! {

/// The line of an event that holds no list: it names the service, and the number in it is
/// read as the number of the event. A duration is shown as `std` shows it, and an error by
/// its name and its quoted message.
///
/// `digits` is the number in the line.
pub proof fn law_line<T: BatchId>(event: Event<T>, line: String) -> (digits: Seq<char>)
    requires
        call_ensures(Event::<T>::to_string, (&event,), line),
    ensures
        match event {
            Event::FetchPending => line@ == "fetching pending batches"@,
            Event::FetchPendingComplete { ids } => {
                &&& line@ == "found "@ + digits + " pending batches"@
                &&& texts::is_numeral(digits)
                &&& texts::number(digits) == ids@.len()
            },
            Event::FetchStatuses { .. } => true,
            Event::FetchStatusesComplete { service_id, total } => {
                &&& line@ == "service "@ + service_id@ + " fetched "@ + digits
                    + " batch statuses"@
                &&& texts::is_numeral(digits)
                &&& texts::number(digits) == total
            },
            Event::Update { service_id } => line@ == "updating "@ + service_id@
                + " batch statuses"@,
            Event::UpdateComplete { service_id, total } => {
                &&& line@ == "service "@ + service_id@ + " updated "@ + digits
                    + " batch statuses"@
                &&& texts::is_numeral(digits)
                &&& texts::number(digits) == total
            },
            Event::Waiting(frequency) => line@ == "waiting at interval "@ + event::duration_shown(
                frequency.secs(),
                frequency.nanos(),
            ),
            Event::Error(BatchError::InternalError(message)) => line@ == "Error: "@ + (
            "InternalError("@ + text::quoted(message@) + ")"@),
        },
{
    let n: nat = match event {
        Event::FetchPendingComplete { ids } => ids@.len(),
        Event::FetchStatusesComplete { total, .. } => total as nat,
        Event::UpdateComplete { total, .. } => total as nat,
        _ => 0,
    };
    texts::lemma_decimal(n);
    text::decimal(n)
}

/// The line of an event that statuses are fetched names the service, and the batches as they
/// are joined with a comma and a space.
pub proof fn law_fetch_statuses_line<T: BatchId>(
    event: Event<T>,
    line: String,
    batches: &[String],
    separator: &str,
    joined: String,
)
    requires
        call_ensures(Event::<T>::to_string, (&event,), line),
        call_ensures(text::join, (batches, separator), joined),
        separator@ == ", "@,
        event is FetchStatuses,
        event->FetchStatuses_batches@ == batches@,
    ensures
        line@ == "fetching "@ + event->FetchStatuses_service_id@ + " batch statuses for ["@
            + joined@ + "]"@,
{
}

/// The lines of two events of one kind on one service are equal only where the events hold
/// the same number.
pub proof fn law_lines_tell_numbers_apart<T: BatchId>(
    a: Event<T>,
    b: Event<T>,
    line_a: String,
    line_b: String,
)
    requires
        call_ensures(Event::<T>::to_string, (&a,), line_a),
        call_ensures(Event::<T>::to_string, (&b,), line_b),
        line_a@ == line_b@,
    ensures
        match (a, b) {
            (
                Event::FetchPendingComplete { ids },
                Event::FetchPendingComplete { ids: other },
            ) => ids@.len() == other@.len(),
            (
                Event::FetchStatusesComplete { service_id, total },
                Event::FetchStatusesComplete { service_id: same, total: other },
            ) => service_id@ == same@ ==> total == other,
            (
                Event::UpdateComplete { service_id, total },
                Event::UpdateComplete { service_id: same, total: other },
            ) => service_id@ == same@ ==> total == other,
            _ => true,
        },
{
    let digits_a = law_line(a, line_a);
    let digits_b = law_line(b, line_b);
    match (a, b) {
        (Event::FetchPendingComplete { .. }, Event::FetchPendingComplete { .. }) => {
            lemma_between("found "@, digits_a, digits_b, " pending batches"@);
        },
        (
            Event::FetchStatusesComplete { service_id, .. },
            Event::FetchStatusesComplete { service_id: same, .. },
        ) => {
            if service_id@ == same@ {
                let before = "service "@ + service_id@ + " fetched "@;
                lemma_between(before, digits_a, digits_b, " batch statuses"@);
            }
        },
        (
            Event::UpdateComplete { service_id, .. },
            Event::UpdateComplete { service_id: same, .. },
        ) => {
            if service_id@ == same@ {
                let before = "service "@ + service_id@ + " updated "@;
                lemma_between(before, digits_a, digits_b, " batch statuses"@);
            }
        },
        _ => {},
    }
}

/// What stands between the same two texts is the same where the whole is the same.
proof fn lemma_between(before: Seq<char>, a: Seq<char>, b: Seq<char>, after: Seq<char>)
    requires
        before + a + after == before + b + after,
    ensures
        a == b,
{
    let whole_a = before + a + after;
    let whole_b = before + b + after;
    assert(whole_a.len() == whole_b.len());
    assert(a.len() == b.len());
    assert forall|i: int| 0 <= i < a.len() implies a[i] == b[i] by {
        assert(whole_a[before.len() + i] == a[i]);
        assert(whole_b[before.len() + i] == b[i]);
    }
    assert(a =~= b);
}

/// The lines that are given the text of an interval or of an error end in it.
pub proof fn law_given_lines(interval: &str, waiting: String, error: &str, failed: String)
    requires
        call_ensures(event::waiting_text, (interval,), waiting),
        call_ensures(event::error_text, (error,), failed),
    ensures
        waiting@ == "waiting at interval "@ + interval@,
        failed@ == "Error: "@ + error@,
{
}

/// A copy of an error has the same message.
pub proof fn law_error_copy(error: BatchError, copy: BatchError)
    requires
        call_ensures(BatchError::clone, (&error,), copy),
    ensures
        match (error, copy) {
            (
                BatchError::InternalError(message),
                BatchError::InternalError(copied),
            ) => copied@ == message@,
        },
{
}

/// A copy of an event is of the same kind and holds the same, with clones of the ids of
/// pending batches in their places.
pub proof fn law_event_copy<T: BatchId>(event: Event<T>, copy: Event<T>)
    requires
        call_ensures(Event::<T>::clone, (&event,), copy),
    ensures
        match (event, copy) {
            (Event::FetchPending, Event::FetchPending) => true,
            (Event::FetchPendingComplete { ids }, Event::FetchPendingComplete { ids: copied }) => {
                &&& copied@.len() == ids@.len()
                &&& forall|i: int| 0 <= i < ids@.len() ==> cloned(#[trigger] ids@[i], copied@[i])
            },
            (
                Event::FetchStatuses { service_id, batches },
                Event::FetchStatuses { service_id: same, batches: copied },
            ) => {
                &&& same@ == service_id@
                &&& copied@.len() == batches@.len()
                &&& forall|i: int|
                    0 <= i < batches@.len() ==> (#[trigger] batches@[i])@ == copied@[i]@
            },
            (
                Event::FetchStatusesComplete { service_id, total },
                Event::FetchStatusesComplete { service_id: same, total: copied },
            ) => same@ == service_id@ && copied == total,
            (Event::Update { service_id }, Event::Update { service_id: same }) => same@
                == service_id@,
            (
                Event::UpdateComplete { service_id, total },
                Event::UpdateComplete { service_id: same, total: copied },
            ) => same@ == service_id@ && copied == total,
            (Event::Waiting(frequency), Event::Waiting(copied)) => copied.secs()
                == frequency.secs() && copied.nanos() == frequency.nanos(),
            (
                Event::Error(BatchError::InternalError(message)),
                Event::Error(BatchError::InternalError(copied)),
            ) => copied@ == message@,
            _ => false,
        },
{
    match (event, copy) {
        (Event::FetchStatuses { batches, .. }, Event::FetchStatuses { batches: copied, .. }) => {
            let texts = text::texts(batches@);
            let copied_texts = text::texts(copied@);
            assert(texts.len() == copied_texts.len());
            assert forall|i: int| 0 <= i < batches@.len() implies (#[trigger] batches@[i])@
                == copied@[i]@ by {
                assert(texts[i] == copied_texts[i]);
            }
        },
        _ => {},
    }
}

/// A duration gives back the seconds and the nanoseconds that it was made of, and is shown
/// as `std` shows a duration of these.
pub proof fn law_duration(
    secs: u64,
    nanos: u32,
    duration: Duration,
    as_secs: u64,
    subsec_nanos: u32,
    shown: String,
)
    requires
        nanos < 1_000_000_000,
        call_ensures(Duration::new, (secs, nanos), duration),
        call_ensures(Duration::as_secs, (&duration,), as_secs),
        call_ensures(Duration::subsec_nanos, (&duration,), subsec_nanos),
        call_ensures(Duration::shown, (&duration,), shown),
    ensures
        as_secs == secs,
        subsec_nanos == nanos,
        shown@ == event::duration_shown(secs, nanos),
{
}

} // verus!
