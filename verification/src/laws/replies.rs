//! What the functions that go through responses return.

use vstd::prelude::*;

use crate::base::{BatchError, BatchId, BatchResult, BatchStatus, BatchUpdater};
use crate::event::Event;
use crate::laws;
use crate::responses;
use crate::responses::{BatchUpdate, Reconciled, Report, ReportView, ResponsePlan};
use crate::seqs;
use crate::text;

verus! {

/// Whether `id` is the text of one of `strings`.
pub open spec fn among(id: Seq<char>, strings: Seq<String>) -> bool {
    exists|k: int| 0 <= k < strings.len() && (#[trigger] strings[k])@ == id
}

/// Whether `id` is the text of one of `answers`.
pub open spec fn answered(id: Seq<char>, answers: Seq<&'static str>) -> bool {
    exists|k: int| 0 <= k < answers.len() && (#[trigger] answers[k])@ == id
}

/// Whether `id` is the id of one of `reports`.
pub open spec fn reported<T>(id: Seq<char>, reports: Seq<Report<T>>) -> bool {
    exists|k: int| 0 <= k < reports.len() && (#[trigger] reports[k]).id@ == id
}

proof fn lemma_among(strings: Seq<String>)
    ensures
        forall|id: Seq<char>| #[trigger] among(id, strings) <==> text::texts(strings).contains(id),
{
    let texts = text::texts(strings);
    assert forall|id: Seq<char>| #[trigger] among(id, strings) <==> texts.contains(id) by {
        if among(id, strings) {
            let k = choose|k: int| 0 <= k < strings.len() && (#[trigger] strings[k])@ == id;
            assert(texts[k] == id);
        }
        if texts.contains(id) {
            let k = choose|k: int| 0 <= k < texts.len() && texts[k] == id;
            assert(strings[k]@ == id);
        }
    }
}

/// Each status is read: the report holds the status, what `get_id` answered on it, character
/// for character, and what `is_unknown` answered on it.
pub proof fn law_read_statuses<T: BatchStatus>(statuses: Vec<T>, reports: Vec<Report<T>>) -> (ids:
    Seq<&'static str>)
    requires
        call_ensures(responses::read_statuses::<T>, (statuses,), reports),
    ensures
        reports@.len() == statuses@.len(),
        ids.len() == statuses@.len(),
        forall|i: int|
            0 <= i < statuses@.len() ==> call_ensures(
                T::get_id,
                (&statuses@[i],),
                #[trigger] ids[i],
            ),
        forall|i: int|
            0 <= i < statuses@.len() ==> {
                &&& (#[trigger] reports@[i]).status == statuses@[i]
                &&& reports@[i].id@ == ids[i]@
                &&& call_ensures(T::is_unknown, (&statuses@[i],), reports@[i].unknown)
            },
{
    let views = responses::report_views(reports@);
    assert(views.len() == reports@.len());
    let ids = lemma_read(statuses@, views);
    assert forall|i: int| 0 <= i < statuses@.len() implies ({
        &&& (#[trigger] reports@[i]).status == statuses@[i]
        &&& reports@[i].id@ == ids[i]@
        &&& call_ensures(T::is_unknown, (&statuses@[i],), reports@[i].unknown)
    }) by {
        assert(views[i] == reports@[i]@);
        assert(responses::reads(statuses@[i], views[i]));
        assert(ids[i]@ == views[i].id);
    }
    ids
}

proof fn lemma_read<T: BatchStatus>(statuses: Seq<T>, reports: Seq<ReportView<T>>) -> (ids: Seq<
    &'static str,
>)
    requires
        responses::reads_all(statuses, reports),
    ensures
        ids.len() == statuses.len(),
        forall|i: int|
            0 <= i < statuses.len() ==> call_ensures(T::get_id, (&statuses[i],), #[trigger] ids[i])
                && ids[i]@ == reports[i].id,
{
    let ids = Seq::new(
        statuses.len(),
        |i: int|
            choose|id: &'static str| #[trigger]
                call_ensures(T::get_id, (&statuses[i],), id) && id@ == reports[i].id,
    );
    assert forall|i: int| 0 <= i < statuses.len() implies call_ensures(
        T::get_id,
        (&statuses[i],),
        #[trigger] ids[i],
    ) && ids[i]@ == reports[i].id by {
        assert(responses::reads(statuses[i], reports[i]));
    }
    ids
}

/// Where the reports of a response end up: the places of those that are updated, of those
/// that are held back as unknown, and of those that were not submitted.
pub struct Split {
    pub updated: Seq<int>,
    pub unknown: Seq<int>,
    pub foreign: Seq<int>,
}

/// Whether `at` goes up: no place comes twice, and the places are in order.
pub open spec fn goes_up(at: Seq<int>) -> bool {
    forall|j: int, k: int| 0 <= j < k < at.len() ==> #[trigger] at[j] < #[trigger] at[k]
}

proof fn lemma_split<T>(pending: Seq<Seq<char>>, reports: Seq<ReportView<T>>) -> (split: Split)
    ensures
        goes_up(split.updated),
        goes_up(split.unknown),
        goes_up(split.foreign),
        forall|i: int| #[trigger]
            split.updated.contains(i) <==> 0 <= i < reports.len() && pending.contains(
                reports[i].id,
            ) && !reports[i].unknown,
        forall|i: int| #[trigger]
            split.unknown.contains(i) <==> 0 <= i < reports.len() && pending.contains(
                reports[i].id,
            ) && reports[i].unknown,
        forall|i: int| #[trigger]
            split.foreign.contains(i) <==> 0 <= i < reports.len() && !pending.contains(
                reports[i].id,
            ),
        split.updated.len() == responses::reconciliation(pending, reports).to_update.len(),
        split.unknown.len() == responses::reconciliation(pending, reports).unknown.len(),
        split.foreign.len() == responses::reconciliation(pending, reports).only_in_response.len(),
        forall|j: int|
            0 <= j < split.updated.len() ==> 0 <= #[trigger] split.updated[j] < reports.len()
                && responses::reconciliation(pending, reports).to_update[j]
                == reports[split.updated[j]].status,
        forall|j: int|
            0 <= j < split.unknown.len() ==> 0 <= #[trigger] split.unknown[j] < reports.len()
                && responses::reconciliation(pending, reports).unknown[j]
                == reports[split.unknown[j]].status,
        forall|j: int|
            0 <= j < split.foreign.len() ==> 0 <= #[trigger] split.foreign[j] < reports.len()
                && responses::reconciliation(pending, reports).only_in_response[j]
                == reports[split.foreign[j]].id,
{
    let known = |report: ReportView<T>| pending.contains(report.id) && !report.unknown;
    let ignored = |report: ReportView<T>| pending.contains(report.id) && report.unknown;
    let foreign = |report: ReportView<T>| !pending.contains(report.id);
    Split {
        updated: seqs::lemma_filter_places(reports, known),
        unknown: seqs::lemma_filter_places(reports, ignored),
        foreign: seqs::lemma_filter_places(reports, foreign),
    }
}

/// A response is held against what was submitted, report by report: each submitted status
/// that is not unknown is to be updated, each submitted status that is unknown is held back,
/// and each other id is listed as not submitted, all in their order and none left out. What
/// was submitted and is reported on by none is listed as not received back, each once.
pub proof fn law_reconcile<T>(
    pending: &[String],
    reports: Vec<Report<T>>,
    reconciled: Reconciled<T>,
) -> (split: Split)
    requires
        call_ensures(responses::reconcile::<T>, (pending, reports), reconciled),
    ensures
        goes_up(split.updated),
        goes_up(split.unknown),
        goes_up(split.foreign),
        forall|i: int| #[trigger]
            split.updated.contains(i) <==> 0 <= i < reports@.len() && among(
                reports@[i].id@,
                pending@,
            ) && !reports@[i].unknown,
        forall|i: int| #[trigger]
            split.unknown.contains(i) <==> 0 <= i < reports@.len() && among(
                reports@[i].id@,
                pending@,
            ) && reports@[i].unknown,
        forall|i: int| #[trigger]
            split.foreign.contains(i) <==> 0 <= i < reports@.len() && !among(
                reports@[i].id@,
                pending@,
            ),
        reconciled.to_update@.len() == split.updated.len(),
        forall|j: int|
            0 <= j < split.updated.len() ==> reconciled.to_update@[j]
                == reports@[#[trigger] split.updated[j]].status,
        reconciled.unknown@.len() == split.unknown.len(),
        forall|j: int|
            0 <= j < split.unknown.len() ==> reconciled.unknown@[j]
                == reports@[#[trigger] split.unknown[j]].status,
        reconciled.only_in_response@.len() == split.foreign.len(),
        forall|j: int|
            0 <= j < split.foreign.len() ==> reconciled.only_in_response@[j]@
                == reports@[#[trigger] split.foreign[j]].id@,
        forall|j: int, k: int|
            0 <= j < k < reconciled.only_in_pending@.len() ==> (
            #[trigger] reconciled.only_in_pending@[j])@ != (
            #[trigger] reconciled.only_in_pending@[k])@,
        forall|id: Seq<char>| #[trigger]
            among(id, reconciled.only_in_pending@) <==> among(id, pending@) && !reported(
                id,
                reports@,
            ),
{
    let submitted = text::texts(pending@);
    let views = responses::report_views(reports@);
    let split = lemma_split(submitted, views);
    lemma_among(pending@);
    lemma_among(reconciled.only_in_pending@);
    assert(views.len() == reports@.len());
    assert forall|i: int| 0 <= i < reports@.len() implies #[trigger] views[i] == reports@[i]@ by {}
    let foreign = text::texts(reconciled.only_in_response@);
    assert(foreign.len() == reconciled.only_in_response@.len());
    assert forall|j: int| 0 <= j < split.foreign.len() implies reconciled.only_in_response@[j]@
        == reports@[#[trigger] split.foreign[j]].id@ by {
        assert(foreign[j] == reconciled.only_in_response@[j]@);
    }
    laws::law_only_in_pending(submitted, views);
    let missing = text::texts(reconciled.only_in_pending@);
    assert forall|j: int, k: int| 0 <= j < k < reconciled.only_in_pending@.len() implies (
    #[trigger] reconciled.only_in_pending@[j])@ != (#[trigger] reconciled.only_in_pending@[k])@ by {
        assert(missing[j] != missing[k]);
    }
    assert forall|id: Seq<char>| #[trigger] among(id, reconciled.only_in_pending@) <==> among(
        id,
        pending@,
    ) && !reported(id, reports@) by {
        let ids = responses::report_ids(views);
        if reported(id, reports@) {
            let k = choose|k: int| 0 <= k < reports@.len() && (#[trigger] reports@[k]).id@ == id;
            assert(ids[k] == id);
        }
        if ids.contains(id) {
            let k = choose|k: int| 0 <= k < ids.len() && ids[k] == id;
            assert(reports@[k].id@ == id);
        }
        assert(missing.contains(id) <==> submitted.contains(id) && !ids.contains(id));
    }
    split
}

/// A failed request is reported once, with its error and its service, and updates nothing.
pub proof fn law_plan_failure<I: BatchId, T>(
    service_id: &str,
    error: &str,
    plan: ResponsePlan<I, T>,
)
    requires
        call_ensures(responses::plan_failure::<I, T>, (service_id, error), plan),
    ensures
        plan.update is None,
        plan.events@.len() == 1,
        plan.events@[0] matches Event::Error(BatchError::InternalError(message)) && message@
            == "encountered error "@ + error@ + " fetching batch statuses for service id "@
            + service_id@,
{
    let views = responses::event_views(plan.events@);
    assert(views.len() == plan.events@.len());
    assert(views[0] == plan.events@[0]@);
}

/// A response is planned for: it is reported as complete, then as a mismatch if and only if
/// an id is listed on either side, then as holding unknown statuses if and only if there are
/// some, and nothing else is reported. The statuses to update are handed on as they are.
pub proof fn law_plan_response<I: BatchId, T>(
    service_id: String,
    total: usize,
    reconciled: Reconciled<T>,
    unknown: &[String],
    plan: ResponsePlan<I, T>,
)
    requires
        call_ensures(
            responses::plan_response::<I, T>,
            (service_id, total, reconciled, unknown),
            plan,
        ),
    ensures
        ({
            let mismatch = reconciled.only_in_pending@.len() > 0
                || reconciled.only_in_response@.len() > 0;
            let ignored = reconciled.unknown@.len() > 0;
            let events = plan.events@;
            &&& events.len() == 1 + (if mismatch {
                1int
            } else {
                0int
            }) + (if ignored {
                1int
            } else {
                0int
            })
            &&& events[0] matches Event::FetchStatusesComplete { service_id: service, total: sent }
                && service@ == service_id@ && sent == total
            &&& mismatch ==> (events[1] matches Event::Error(BatchError::InternalError(message))
                && message@
                == "unexpected difference between submission and response during sanity check for service "@
                + service_id@ + ". the following batch ids were submitted but not received back: "@
                + text::listed(text::all_quoted(text::texts(reconciled.only_in_pending@)))
                + ". the following batch ids were received back but not submitted: "@
                + text::listed(text::all_quoted(text::texts(reconciled.only_in_response@)))
                + ". these will not be updated."@)
            &&& ignored ==> (events[events.len() - 1] matches Event::Error(
                BatchError::InternalError(message),
            ) && message@ == "batches returned unknown status: "@ + text::listed(
                text::texts(unknown@),
            ))
        }),
        plan.update matches Some(update) && update.service_id@ == service_id@ && update.statuses@
            == reconciled.to_update@,
{
    lemma_event_views(plan.events@);
}

proof fn lemma_event_views<I: BatchId>(events: Seq<Event<I>>)
    ensures
        responses::event_views(events).len() == events.len(),
        forall|k: int|
            0 <= k < events.len() ==> (#[trigger] events[k])@ == responses::event_views(events)[k],
{
}

/// A request that failed is reported once, with its error and its service, and updates
/// nothing.
pub proof fn law_failed_request<I: BatchId, T: BatchStatus>(
    service_id: String,
    pending: &[String],
    cause: String,
    plan: ResponsePlan<I, T>,
)
    requires
        call_ensures(
            responses::handle_response::<I, T>,
            (service_id, pending, Err(BatchError::InternalError(cause))),
            plan,
        ),
    ensures
        plan.update is None,
        plan.events@.len() == 1,
        plan.events@[0] matches Event::Error(BatchError::InternalError(message)) && message@
            == "encountered error "@ + ("InternalError("@ + text::quoted(cause@) + ")"@)
            + " fetching batch statuses for service id "@ + service_id@,
{
    lemma_event_views(plan.events@);
    assert(responses::event_views(plan.events@)[0] == plan.events@[0]@);
}

/// What was answered on the statuses of a response, and where the statuses end up.
pub struct Reply {
    /// What `get_id` answered on each status.
    pub ids: Seq<&'static str>,
    /// What `is_unknown` answered on each status.
    pub unknown: Seq<bool>,
    /// The places of the statuses that are updated.
    pub updated: Seq<int>,
    /// The places of the statuses that are held back as unknown.
    pub held_back: Seq<int>,
    /// The places of the statuses that were not submitted.
    pub foreign: Seq<int>,
    /// The ids that were submitted and not received back.
    pub missing: Seq<Seq<char>>,
    /// The texts of the statuses that are held back.
    pub shown: Seq<Seq<char>>,
}

/// A response is gone through as a whole. Going by what `get_id` and `is_unknown` answered on
/// each status:
///
/// The update is for the service that was asked, and holds every submitted status that is not
/// unknown, in their order, and no other, whatever else is missing, foreign or unknown.
///
/// The response is reported as complete with the number of its statuses; then, if and only if
/// the ids that were submitted and that were received are not the same, as a mismatch, with
/// the ids on either side; then, if and only if a submitted status is unknown, with the texts
/// of the unknown statuses. Nothing else is reported.
pub proof fn law_response<I: BatchId, T: BatchStatus>(
    service_id: String,
    pending: &[String],
    statuses: Vec<T>,
    plan: ResponsePlan<I, T>,
) -> (reply: Reply)
    requires
        call_ensures(
            responses::handle_response::<I, T>,
            (service_id, pending, Ok(statuses)),
            plan,
        ),
    ensures
        reply.ids.len() == statuses@.len(),
        reply.unknown.len() == statuses@.len(),
        forall|i: int|
            0 <= i < statuses@.len() ==> call_ensures(
                T::get_id,
                (&statuses@[i],),
                #[trigger] reply.ids[i],
            ),
        forall|i: int|
            0 <= i < statuses@.len() ==> call_ensures(
                T::is_unknown,
                (&statuses@[i],),
                #[trigger] reply.unknown[i],
            ),
        goes_up(reply.updated),
        forall|i: int| #[trigger]
            reply.updated.contains(i) <==> 0 <= i < statuses@.len() && among(
                reply.ids[i]@,
                pending@,
            ) && !reply.unknown[i],
        goes_up(reply.held_back),
        forall|i: int| #[trigger]
            reply.held_back.contains(i) <==> 0 <= i < statuses@.len() && among(
                reply.ids[i]@,
                pending@,
            ) && reply.unknown[i],
        goes_up(reply.foreign),
        forall|i: int| #[trigger]
            reply.foreign.contains(i) <==> 0 <= i < statuses@.len() && !among(
                reply.ids[i]@,
                pending@,
            ),
        reply.missing.no_duplicates(),
        forall|id: Seq<char>| #[trigger]
            reply.missing.contains(id) <==> among(id, pending@) && !answered(id, reply.ids),
        reply.shown.len() == reply.held_back.len(),
        forall|j: int|
            0 <= j < reply.shown.len() ==> responses::shows(
                statuses@[reply.held_back[j]],
                #[trigger] reply.shown[j],
            ),
        plan.update matches Some(update) && {
            &&& update.service_id@ == service_id@
            &&& update.statuses@.len() == reply.updated.len()
            &&& forall|j: int|
                0 <= j < reply.updated.len() ==> update.statuses@[j]
                    == statuses@[#[trigger] reply.updated[j]]
        },
        ({
            let mismatch = !(forall|id: Seq<char>|
                among(id, pending@) <==> #[trigger] answered(id, reply.ids));
            let ignored = exists|i: int|
                0 <= i < statuses@.len() && #[trigger] reply.unknown[i] && among(
                    reply.ids[i]@,
                    pending@,
                );
            let events = plan.events@;
            &&& events.len() == 1 + (if mismatch {
                1int
            } else {
                0int
            }) + (if ignored {
                1int
            } else {
                0int
            })
            &&& events[0] matches Event::FetchStatusesComplete { service_id: service, total }
                && service@ == service_id@ && total == statuses@.len()
            &&& mismatch ==> (events[1] matches Event::Error(BatchError::InternalError(message))
                && message@
                == "unexpected difference between submission and response during sanity check for service "@
                + service_id@ + ". the following batch ids were submitted but not received back: "@
                + text::listed(text::all_quoted(reply.missing))
                + ". the following batch ids were received back but not submitted: "@
                + text::listed(
                text::all_quoted(reply.foreign.map_values(|i: int| reply.ids[i]@)),
            ) + ". these will not be updated."@)
            &&& ignored ==> (events[events.len() - 1] matches Event::Error(
                BatchError::InternalError(message),
            ) && message@ == "batches returned unknown status: "@ + text::listed(reply.shown))
        }),
{
    let submitted = text::texts(pending@);
    let service = service_id@;
    let (reports, shown) = responses::lemma_follows_success(service, submitted, statuses, plan@);
    let ids = lemma_read(statuses@, reports);
    let split = lemma_split(submitted, reports);
    let reconciled = responses::reconciliation(submitted, reports);
    let unknown = reports.map_values(|report: ReportView<T>| report.unknown);
    let reply = Reply {
        ids,
        unknown,
        updated: split.updated,
        held_back: split.unknown,
        foreign: split.foreign,
        missing: reconciled.only_in_pending,
        shown,
    };
    lemma_among(pending@);
    lemma_event_views(plan.events@);
    laws::law_only_in_pending(submitted, reports);
    laws::law_mismatch(submitted, reports);
    assert forall|i: int| 0 <= i < statuses@.len() implies call_ensures(
        T::is_unknown,
        (&statuses@[i],),
        #[trigger] reply.unknown[i],
    ) && reports[i].status == statuses@[i] by {
        assert(responses::reads(statuses@[i], reports[i]));
    }
    let received = responses::report_ids(reports);
    assert forall|id: Seq<char>| #[trigger] answered(id, ids) <==> received.contains(id) by {
        if answered(id, ids) {
            let k = choose|k: int| 0 <= k < ids.len() && (#[trigger] ids[k])@ == id;
            assert(received[k] == id);
        }
        if received.contains(id) {
            let k = choose|k: int| 0 <= k < received.len() && received[k] == id;
            assert(ids[k]@ == id);
        }
    }
    assert forall|j: int| 0 <= j < reply.shown.len() implies responses::shows(
        statuses@[reply.held_back[j]],
        #[trigger] reply.shown[j],
    ) by {
        assert(responses::shows(reconciled.unknown[j], shown[j]));
        assert(reconciled.unknown[j] == reports[split.unknown[j]].status);
        assert(unknown[split.unknown[j]] == reports[split.unknown[j]].unknown);
    }
    assert forall|j: int| 0 <= j < reply.updated.len() implies reconciled.to_update[j]
        == statuses@[#[trigger] reply.updated[j]] by {
        assert(unknown[split.updated[j]] == reports[split.updated[j]].unknown);
    }
    assert(reconciled.only_in_response =~= reply.foreign.map_values(|i: int| reply.ids[i]@)) by {
        assert forall|j: int| 0 <= j < reply.foreign.len() implies reconciled.only_in_response[j]
            == reply.ids[#[trigger] reply.foreign[j]]@ by {}
    }
    let ignored = exists|i: int|
        0 <= i < statuses@.len() && #[trigger] reply.unknown[i] && among(reply.ids[i]@, pending@);
    if ignored {
        let i = choose|i: int|
            0 <= i < statuses@.len() && #[trigger] reply.unknown[i] && among(
                reply.ids[i]@,
                pending@,
            );
        assert(reply.held_back.contains(i));
        assert(reconciled.unknown.len() > 0);
    } else if reconciled.unknown.len() > 0 {
        let i = split.unknown[0];
        assert(split.unknown.contains(i));
        assert(reply.unknown[i] && among(reply.ids[i]@, pending@));
    }
    let mismatch = !(forall|id: Seq<char>|
        among(id, pending@) <==> #[trigger] answered(id, reply.ids));
    if !mismatch {
        assert forall|id: Seq<char>| #[trigger] submitted.contains(id) <==> received.contains(
            id,
        ) by {
            assert(among(id, pending@) <==> answered(id, reply.ids));
        }
    }
    assert(mismatch <==> reconciled.only_in_pending.len() > 0 || reconciled.only_in_response.len()
        > 0);
    reply
}

/// Whether an event is an error whose message begins with `text`.
pub open spec fn is_error_on<I: BatchId>(event: Event<I>, text: Seq<char>) -> bool {
    event matches Event::Error(BatchError::InternalError(message)) && text.is_prefix_of(message@)
}

/// A response is reported as holding unknown statuses if and only if a submitted status is
/// unknown, and as a mismatch if and only if the ids that were submitted and that were
/// received are not the same: the one is independent of the other.
pub proof fn law_reported_errors<I: BatchId, T: BatchStatus>(
    service_id: String,
    pending: &[String],
    statuses: Vec<T>,
    plan: ResponsePlan<I, T>,
) -> (reply: Reply)
    requires
        call_ensures(
            responses::handle_response::<I, T>,
            (service_id, pending, Ok(statuses)),
            plan,
        ),
    ensures
        reply.ids.len() == statuses@.len(),
        reply.unknown.len() == statuses@.len(),
        forall|i: int|
            0 <= i < statuses@.len() ==> call_ensures(
                T::get_id,
                (&statuses@[i],),
                #[trigger] reply.ids[i],
            ),
        forall|i: int|
            0 <= i < statuses@.len() ==> call_ensures(
                T::is_unknown,
                (&statuses@[i],),
                #[trigger] reply.unknown[i],
            ),
        (exists|k: int|
            0 <= k < plan.events@.len() && is_error_on(
                #[trigger] plan.events@[k],
                "batches returned unknown status: "@,
            )) <==> exists|i: int|
            0 <= i < statuses@.len() && #[trigger] reply.unknown[i] && among(
                reply.ids[i]@,
                pending@,
            ),
        (exists|k: int|
            0 <= k < plan.events@.len() && is_error_on(
                #[trigger] plan.events@[k],
                "unexpected difference between submission and response"@,
            )) <==> !(forall|id: Seq<char>|
            among(id, pending@) <==> #[trigger] answered(id, reply.ids)),
{
    let reply = law_response(service_id, pending, statuses, plan);
    let on_unknown = "batches returned unknown status: "@;
    let on_mismatch = "unexpected difference between submission and response"@;
    let mismatch_start =
        "unexpected difference between submission and response during sanity check for service "@;
    reveal_strlit("batches returned unknown status: ");
    reveal_strlit("unexpected difference between submission and response");
    reveal_strlit(
        "unexpected difference between submission and response during sanity check for service ",
    );
    assert(on_mismatch =~= mismatch_start.subrange(0, on_mismatch.len() as int));
    let mismatch = !(forall|id: Seq<char>|
        among(id, pending@) <==> #[trigger] answered(id, reply.ids));
    let ignored = exists|i: int|
        0 <= i < statuses@.len() && #[trigger] reply.unknown[i] && among(reply.ids[i]@, pending@);
    let events = plan.events@;
    let last = events.len() - 1;
    if mismatch {
        let message = events[1]->Error_0->InternalError_0@;
        assert forall|k: int| 0 <= k < mismatch_start.len() implies message[k]
            == mismatch_start[k] by {}
        assert(on_mismatch =~= message.subrange(0, on_mismatch.len() as int));
        assert(is_error_on(events[1], on_mismatch));
        assert(message[0] == 'u');
        assert(!is_error_on(events[1], on_unknown)) by {
            if on_unknown.is_prefix_of(message) {
                assert(message.subrange(0, on_unknown.len() as int)[0] == message[0]);
            }
        }
    }
    if ignored {
        let message = events[last]->Error_0->InternalError_0@;
        assert(on_unknown =~= message.subrange(0, on_unknown.len() as int));
        assert(is_error_on(events[last], on_unknown));
        assert(message[0] == 'b');
        assert(!is_error_on(events[last], on_mismatch)) by {
            if on_mismatch.is_prefix_of(message) {
                assert(message.subrange(0, on_mismatch.len() as int)[0] == message[0]);
            }
        }
    }
    assert(!is_error_on(events[0], on_unknown) && !is_error_on(events[0], on_mismatch));
    reply
}

/// How an update ended is reported as it ended: as complete, with the service and the number
/// of statuses, if and only if it succeeded, and as an error, with its cause and the service,
/// if and only if it failed.
pub proof fn law_report_update<I: BatchId>(
    service_id: &str,
    total: usize,
    result: BatchResult<()>,
    event: Event<I>,
)
    requires
        call_ensures(responses::report_update::<I>, (service_id, total, result), event),
    ensures
        result is Ok <==> event is UpdateComplete,
        result is Err <==> event is Error,
        event matches Event::UpdateComplete { service_id: service, total: updated }
            ==> service@ == service_id@ && updated == total,
        result matches Err(BatchError::InternalError(cause)) ==> (event matches Event::Error(
            BatchError::InternalError(message),
        ) && message@ == "encountered error "@ + ("InternalError("@ + text::quoted(cause@) + ")"@)
            + " fetching batch statuses for service id "@ + service_id@),
{
}

/// An update hands the updater its service and all of its statuses, and what is reported is
/// how the updater answered: complete, with the service and the number of statuses, if and
/// only if it answered success, and an error if and only if it answered one.
pub proof fn law_apply<I: BatchId, T: BatchStatus, U: BatchUpdater<Status = T>>(
    update: BatchUpdate<T>,
    updater: U,
    event: Event<I>,
) -> (result: BatchResult<()>)
    requires
        call_ensures(BatchUpdate::<T>::apply::<I, U>, (&update, &updater), event),
    ensures
        exists|service_id: &str, batches: &[T]|
            {
                &&& #[trigger] call_ensures(
                    U::update_batch_statuses,
                    (&updater, service_id, batches),
                    result,
                )
                &&& service_id@ == update.service_id@
                &&& batches@ == update.statuses@
            },
        result is Ok <==> event is UpdateComplete,
        result is Err <==> event is Error,
        event matches Event::UpdateComplete { service_id, total } ==> service_id@
            == update.service_id@ && total == update.statuses@.len(),
        result matches Err(BatchError::InternalError(cause)) ==> (event matches Event::Error(
            BatchError::InternalError(message),
        ) && message@ == "encountered error "@ + ("InternalError("@ + text::quoted(cause@) + ")"@)
            + " fetching batch statuses for service id "@ + update.service_id@),
{
    let (service_id, batches, result) = choose|
        service_id: &str,
        batches: &[T],
        result: BatchResult<()>,
    |
        {
            &&& #[trigger] call_ensures(
                U::update_batch_statuses,
                (&updater, service_id, batches),
                result,
            )
            &&& service_id@ == update.service_id@
            &&& batches@ == update.statuses@
            &&& event@ == responses::update_event::<I>(
                update.service_id@,
                update.statuses@.len(),
                result,
            )
        };
    result
}

} // verus!
