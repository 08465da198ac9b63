//! What the monitor reports to its observers.

use vstd::prelude::*;

use crate::base;
use crate::base::{BatchError, BatchId};
use crate::text;

verus! {

/// A span of time: whole seconds, and nanoseconds short of another second.
#[derive(Clone, Copy, PartialEq, Eq, PartialOrd, Ord)]
pub struct Duration {
    secs: u64,
    nanos: u32,
}

impl Duration {
    #[verifier::type_invariant]
    spec fn inv(self) -> bool {
        self.nanos < 1_000_000_000
    }

    /// The whole seconds.
    pub closed spec fn secs(self) -> u64 {
        self.secs
    }

    /// The nanoseconds short of another second.
    pub closed spec fn nanos(self) -> u32 {
        self.nanos
    }

    pub fn new(secs: u64, nanos: u32) -> (duration: Duration)
        requires
            nanos < 1_000_000_000,
        ensures
            duration.secs() == secs,
            duration.nanos() == nanos,
    {
        Duration { secs, nanos }
    }

    /// The whole seconds.
    pub fn as_secs(&self) -> (secs: u64)
        ensures
            secs == self.secs(),
    {
        self.secs
    }

    /// The nanoseconds short of another second.
    pub fn subsec_nanos(&self) -> (nanos: u32)
        ensures
            nanos == self.nanos(),
            nanos < 1_000_000_000,
    {
        proof {
            use_type_invariant(self);
        }
        self.nanos
    }

    /// The text that `{:?}` writes for the duration.
    pub fn shown(&self) -> (shown: String)
        ensures
            shown@ == duration_shown(self.secs(), self.nanos()),
    {
        proof {
            use_type_invariant(self);
        }
        show_duration(self.secs, self.nanos)
    }
}

/// The text that `{:?}` writes for a duration of `secs` seconds and `nanos` nanoseconds.
pub uninterp spec fn duration_shown(secs: u64, nanos: u32) -> Seq<char>;

/// Writes a duration.
///
/// This is the `Debug` of `std::time::Duration`, reached through `format!`, on
/// the duration that `Duration::new` makes of `secs` and `nanos`. The contract
/// claims that its text depends on these two numbers alone, and names it; the
/// unit and the fraction are left to `std`.
#[verifier::external_body]
fn show_duration(secs: u64, nanos: u32) -> (shown: String)
    requires
        nanos < 1_000_000_000,
    ensures
        shown@ == duration_shown(secs, nanos),
{
    format!("{:?}", std::time::Duration::new(secs, nanos))
}

/// Where `std` writes a value to.
#[verifier::external_type_specification]
#[verifier::external_body]
pub struct ExFormatter<'a>(std::fmt::Formatter<'a>);

/// What `std` returns when a value could not be written.
#[verifier::external_type_specification]
#[verifier::external_body]
pub struct ExFmtError(std::fmt::Error);

/// Writes a duration to a formatter.
///
/// This is the `Debug` of `std::time::Duration`, with the width and the
/// precision that the formatter asks for, on the duration that `Duration::new`
/// makes of `secs` and `nanos`. Nothing is claimed of the outcome: it rests on
/// where the formatter writes to.
#[verifier::external_body]
fn write_duration(secs: u64, nanos: u32, f: &mut std::fmt::Formatter<'_>) -> std::fmt::Result
    requires
        nanos < 1_000_000_000,
{
    std::fmt::Debug::fmt(&std::time::Duration::new(secs, nanos), f)
}

/// Whether `result` is what `std` may return when it writes a duration of `secs` seconds and
/// `nanos` nanoseconds to `f`.
pub closed spec fn writes(
    secs: u64,
    nanos: u32,
    f: &mut std::fmt::Formatter<'_>,
    result: std::fmt::Result,
) -> bool {
    call_ensures(write_duration, (secs, nanos, f), result)
}

/// What may be returned is what `write_duration` may return on the same numbers and formatter.
proof fn law_writes(secs: u64, nanos: u32, result: std::fmt::Result)
    ensures
        forall|f: &mut std::fmt::Formatter<'_>| #[trigger]
            writes(secs, nanos, f, result) ==> call_ensures(
                write_duration,
                (secs, nanos, f),
                result,
            ),
{
}

impl std::fmt::Debug for Duration {
    /// Writes the duration as `std` does: `1.5s`.
    fn fmt(&self, f: &mut std::fmt::Formatter<'_>) -> (result: std::fmt::Result)
        ensures
            exists|to: &mut std::fmt::Formatter<'_>| #[trigger]
                writes(self.secs(), self.nanos(), to, result) && *to == *old(f) && *final(to)
                    == *final(f),
    {
        proof {
            use_type_invariant(self);
        }
        let result = write_duration(self.secs, self.nanos, f);
        assert forall|to: &mut std::fmt::Formatter<'_>| #[trigger]
            call_ensures(write_duration, (self.secs, self.nanos, to), result) implies writes(
            self.secs(),
            self.nanos(),
            to,
            result,
        ) by {}
        result
    }
}

/// A step of the monitor.
#[derive(Debug, PartialEq, Eq, PartialOrd, Ord)]
pub enum Event<T: BatchId> {
    FetchPending,
    FetchPendingComplete { ids: Vec<T> },
    FetchStatuses { service_id: String, batches: Vec<String> },
    FetchStatusesComplete { service_id: String, total: usize },
    Update { service_id: String },
    UpdateComplete { service_id: String, total: usize },
    Waiting(Duration),
    Error(BatchError),
}

/// An event with its strings and lists as sequences.
#[verifier::ext_equal]
pub enum EventView<T> {
    FetchPending,
    FetchPendingComplete { ids: Seq<T> },
    FetchStatuses { service_id: Seq<char>, batches: Seq<Seq<char>> },
    FetchStatusesComplete { service_id: Seq<char>, total: nat },
    Update { service_id: Seq<char> },
    UpdateComplete { service_id: Seq<char>, total: nat },
    Waiting { secs: u64, nanos: u32 },
    Error { message: Seq<char> },
}

impl<T: BatchId> View for Event<T> {
    type V = EventView<T>;

    open spec fn view(&self) -> EventView<T> {
        match self {
            Event::FetchPending => EventView::FetchPending,
            Event::FetchPendingComplete { ids } => EventView::FetchPendingComplete { ids: ids@ },
            Event::FetchStatuses { service_id, batches } => EventView::FetchStatuses {
                service_id: service_id@,
                batches: text::texts(batches@),
            },
            Event::FetchStatusesComplete { service_id, total } => EventView::FetchStatusesComplete {
                service_id: service_id@,
                total: *total as nat,
            },
            Event::Update { service_id } => EventView::Update { service_id: service_id@ },
            Event::UpdateComplete { service_id, total } => EventView::UpdateComplete {
                service_id: service_id@,
                total: *total as nat,
            },
            Event::Waiting(frequency) => EventView::Waiting {
                secs: frequency.secs(),
                nanos: frequency.nanos(),
            },
            Event::Error(error) => EventView::Error { message: error@ },
        }
    }
}

/// Whether `copy` is a copy of `event`: the two are equal, but for the ids of
/// pending batches, each of which `T::clone` may return for the id in its place.
pub open spec fn copies<T: BatchId>(event: EventView<T>, copy: EventView<T>) -> bool {
    match event {
        EventView::FetchPendingComplete { ids } => {
            &&& copy matches EventView::FetchPendingComplete { ids: copied }
            &&& copied.len() == ids.len()
            &&& forall|i: int| 0 <= i < ids.len() ==> cloned(#[trigger] ids[i], copied[i])
        },
        _ => copy == event,
    }
}

impl<T: BatchId> Clone for Event<T> {
    fn clone(&self) -> (copy: Self)
        ensures
            copies(self@, copy@),
    {
        let copy = match self {
            Event::FetchPending => Event::FetchPending,
            Event::FetchPendingComplete { ids } => Event::FetchPendingComplete { ids: ids.clone() },
            Event::FetchStatuses { service_id, batches } => Event::FetchStatuses {
                service_id: service_id.clone(),
                batches: batches.clone(),
            },
            Event::FetchStatusesComplete { service_id, total } => Event::FetchStatusesComplete {
                service_id: service_id.clone(),
                total: *total,
            },
            Event::Update { service_id } => Event::Update { service_id: service_id.clone() },
            Event::UpdateComplete { service_id, total } => Event::UpdateComplete {
                service_id: service_id.clone(),
                total: *total,
            },
            Event::Waiting(frequency) => Event::Waiting(*frequency),
            Event::Error(error) => Event::Error(error.clone()),
        };
        assert(copies(self@, copy@)) by {
            if self@ !is FetchPendingComplete {
                assert(copy@ =~~= self@);
            }
        }
        copy
    }
}

/// The line that reports that the monitor waits, given the text of the interval.
pub open spec fn waiting_line(interval: Seq<char>) -> Seq<char> {
    "waiting at interval "@ + interval
}

/// The line that reports an error, given the text of the error.
pub open spec fn error_line(error: Seq<char>) -> Seq<char> {
    "Error: "@ + error
}

/// The line that reports an event.
pub open spec fn event_line<T>(event: EventView<T>) -> Seq<char> {
    match event {
        EventView::FetchPending => "fetching pending batches"@,
        EventView::FetchPendingComplete { ids } => "found "@ + text::decimal(ids.len())
            + " pending batches"@,
        EventView::FetchStatuses { service_id, batches } => "fetching "@ + service_id
            + " batch statuses for ["@ + text::joined(batches, ", "@) + "]"@,
        EventView::FetchStatusesComplete { service_id, total } => "service "@ + service_id
            + " fetched "@ + text::decimal(total) + " batch statuses"@,
        EventView::Update { service_id } => "updating "@ + service_id + " batch statuses"@,
        EventView::UpdateComplete { service_id, total } => "service "@ + service_id + " updated "@
            + text::decimal(total) + " batch statuses"@,
        EventView::Waiting { secs, nanos } => waiting_line(duration_shown(secs, nanos)),
        EventView::Error { message } => error_line(base::error_shown(text::quoted(message))),
    }
}

/// Writes the line that reports that the monitor waits.
pub fn waiting_text(interval: &str) -> (line: String)
    ensures
        line@ == waiting_line(interval@),
{
    let mut line = String::from_str("waiting at interval ");
    line.append(interval);
    line
}

/// Writes the line that reports an error.
pub fn error_text(error: &str) -> (line: String)
    ensures
        line@ == error_line(error@),
{
    let mut line = String::from_str("Error: ");
    line.append(error);
    line
}

impl<T: BatchId> Event<T> {
    /// The line that reports this event.
    pub fn to_string(&self) -> (line: String)
        ensures
            line@ == event_line(self@),
    {
        match self {
            Event::FetchPending => String::from_str("fetching pending batches"),
            Event::FetchPendingComplete { ids } => {
                let mut line = String::from_str("found ");
                line.append(text::decimal_text(ids.len()).as_str());
                line.append(" pending batches");
                line
            },
            Event::FetchStatuses { service_id, batches } => {
                let mut line = String::from_str("fetching ");
                line.append(service_id.as_str());
                line.append(" batch statuses for [");
                line.append(text::join(batches.as_slice(), ", ").as_str());
                line.append("]");
                line
            },
            Event::FetchStatusesComplete { service_id, total } => {
                let mut line = String::from_str("service ");
                line.append(service_id.as_str());
                line.append(" fetched ");
                line.append(text::decimal_text(*total).as_str());
                line.append(" batch statuses");
                line
            },
            Event::Update { service_id } => {
                let mut line = String::from_str("updating ");
                line.append(service_id.as_str());
                line.append(" batch statuses");
                line
            },
            Event::UpdateComplete { service_id, total } => {
                let mut line = String::from_str("service ");
                line.append(service_id.as_str());
                line.append(" updated ");
                line.append(text::decimal_text(*total).as_str());
                line.append(" batch statuses");
                line
            },
            Event::Waiting(frequency) => waiting_text(frequency.shown().as_str()),
            Event::Error(error) => error_text(error.shown().as_str()),
        }
    }
}

} // verus!
