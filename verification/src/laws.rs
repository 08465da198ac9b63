//! What holds of every poll and of every response.

use vstd::prelude::*;

use crate::base::{BatchId, BatchResult, BatchStatus};
use crate::event::EventView;
use crate::requests;
use crate::requests::{BatchRequestView, PendingView};
use crate::responses;
use crate::responses::{BatchUpdateView, ReportView, ResponsePlanView};
use crate::seqs;

pub mod events;
pub mod loops;
pub mod polls;
pub mod replies;
pub mod texts;

verus! {

/// Each report counts once: it is updated, or ignored as unknown, or listed as not
/// submitted.
pub proof fn law_each_report_counts_once<T>(
    pending: Seq<Seq<char>>,
    reports: Seq<ReportView<T>>,
)
    ensures
        responses::statuses_to_update(pending, reports).len() + responses::unknown_statuses(
            pending,
            reports,
        ).len() + responses::only_in_response(pending, reports).len() == reports.len(),
    decreases reports.len(),
{
    reveal(Seq::filter);
    if reports.len() > 0 {
        law_each_report_counts_once(pending, reports.drop_last());
    }
}

/// What is updated is what was submitted and came back with a status that is not
/// unknown.
pub proof fn law_updated_statuses<T>(
    pending: Seq<Seq<char>>,
    reports: Seq<ReportView<T>>,
    status: T,
)
    ensures
        responses::statuses_to_update(pending, reports).contains(status) <==> exists|i: int|
            0 <= i < reports.len() && (#[trigger] reports[i]).status == status && pending.contains(
                reports[i].id,
            ) && !reports[i].unknown,
{
    let keep = |report: ReportView<T>| pending.contains(report.id) && !report.unknown;
    lemma_kept_statuses(reports, keep, status);
}

/// What is ignored as unknown is what was submitted and came back as unknown.
pub proof fn law_unknown_statuses<T>(
    pending: Seq<Seq<char>>,
    reports: Seq<ReportView<T>>,
    status: T,
)
    ensures
        responses::unknown_statuses(pending, reports).contains(status) <==> exists|i: int|
            0 <= i < reports.len() && (#[trigger] reports[i]).status == status && pending.contains(
                reports[i].id,
            ) && reports[i].unknown,
{
    let keep = |report: ReportView<T>| pending.contains(report.id) && report.unknown;
    lemma_kept_statuses(reports, keep, status);
}

proof fn lemma_kept_statuses<T>(
    reports: Seq<ReportView<T>>,
    keep: spec_fn(ReportView<T>) -> bool,
    status: T,
)
    ensures
        responses::report_statuses(reports.filter(keep)).contains(status) <==> exists|i: int|
            0 <= i < reports.len() && (#[trigger] reports[i]).status == status && keep(reports[i]),
{
    let kept = reports.filter(keep);
    let statuses = responses::report_statuses(kept);
    if statuses.contains(status) {
        let k = choose|k: int| 0 <= k < statuses.len() && statuses[k] == status;
        reports.lemma_filter_pred(keep, k);
        assert(kept.contains(kept[k]));
        reports.lemma_filter_contains_rev(keep, kept[k]);
        let i = choose|i: int| 0 <= i < reports.len() && reports[i] == kept[k];
        assert(reports[i].status == status && keep(reports[i]));
    }
    if exists|i: int|
        0 <= i < reports.len() && (#[trigger] reports[i]).status == status && keep(reports[i]) {
        let i = choose|i: int|
            0 <= i < reports.len() && (#[trigger] reports[i]).status == status && keep(reports[i]);
        reports.lemma_filter_contains(keep, i);
        let k = choose|k: int| 0 <= k < kept.len() && kept[k] == reports[i];
        assert(statuses[k] == status);
    }
}

/// What is listed as submitted but not received back is, each once, what was
/// submitted and what no report answers.
pub proof fn law_only_in_pending<T>(pending: Seq<Seq<char>>, reports: Seq<ReportView<T>>)
    ensures
        responses::only_in_pending(pending, reports).no_duplicates(),
        forall|id: Seq<char>| #[trigger]
            responses::only_in_pending(pending, reports).contains(id) <==> pending.contains(id)
                && !responses::report_ids(reports).contains(id),
{
    let keep = |id: Seq<char>| !responses::report_ids(reports).contains(id);
    seqs::lemma_distinct(pending.filter(keep));
    seqs::lemma_filter_members(pending, keep);
}

/// What is listed as received back but not submitted is the id of each report that
/// answers nothing submitted.
pub proof fn law_only_in_response<T>(pending: Seq<Seq<char>>, reports: Seq<ReportView<T>>)
    ensures
        forall|id: Seq<char>| #[trigger]
            responses::only_in_response(pending, reports).contains(id) <==> !pending.contains(id)
                && responses::report_ids(reports).contains(id),
{
    let keep = |report: ReportView<T>| !pending.contains(report.id);
    let kept = reports.filter(keep);
    let ids = responses::only_in_response(pending, reports);
    seqs::lemma_filter_members(reports, keep);
    assert forall|id: Seq<char>| #[trigger] ids.contains(id) <==> !pending.contains(id)
        && responses::report_ids(reports).contains(id) by {
        if ids.contains(id) {
            let k = choose|k: int| 0 <= k < ids.len() && ids[k] == id;
            assert(kept.contains(kept[k]));
            let i = choose|i: int| 0 <= i < reports.len() && reports[i] == kept[k];
            assert(responses::report_ids(reports)[i] == id);
        }
        if !pending.contains(id) && responses::report_ids(reports).contains(id) {
            let i = choose|i: int|
                0 <= i < reports.len() && responses::report_ids(reports)[i] == id;
            assert(reports.contains(reports[i]));
            assert(kept.contains(reports[i]));
            let k = choose|k: int| 0 <= k < kept.len() && kept[k] == reports[i];
            assert(ids[k] == id);
        }
    }
}

/// Nothing is listed on either side if and only if the response answers exactly what
/// was submitted.
pub proof fn law_mismatch<T>(pending: Seq<Seq<char>>, reports: Seq<ReportView<T>>)
    ensures
        responses::only_in_pending(pending, reports).len() == 0 && responses::only_in_response(
            pending,
            reports,
        ).len() == 0 <==> (forall|id: Seq<char>| #[trigger]
            pending.contains(id) <==> responses::report_ids(reports).contains(id)),
{
    law_only_in_pending(pending, reports);
    law_only_in_response(pending, reports);
    let missing = responses::only_in_pending(pending, reports);
    let foreign = responses::only_in_response(pending, reports);
    if missing.len() > 0 {
        assert(missing.contains(missing[0]));
    }
    if foreign.len() > 0 {
        assert(foreign.contains(foreign[0]));
    }
    if missing.len() == 0 && foreign.len() == 0 {
        assert forall|id: Seq<char>| #[trigger]
            pending.contains(id) <==> responses::report_ids(reports).contains(id) by {
            assert(!missing.contains(id));
            assert(!foreign.contains(id));
        }
    }
}

/// In what order ids were submitted, and how often, decides nothing: what is updated,
/// what is ignored and what is listed depends on which ids were submitted alone.
pub proof fn law_submitted_ids_decide<T>(
    pending: Seq<Seq<char>>,
    other: Seq<Seq<char>>,
    reports: Seq<ReportView<T>>,
)
    requires
        forall|id: Seq<char>| #[trigger] pending.contains(id) <==> other.contains(id),
    ensures
        responses::statuses_to_update(pending, reports) == responses::statuses_to_update(
            other,
            reports,
        ),
        responses::unknown_statuses(pending, reports) == responses::unknown_statuses(
            other,
            reports,
        ),
        responses::only_in_response(pending, reports) == responses::only_in_response(
            other,
            reports,
        ),
        forall|id: Seq<char>| #[trigger]
            responses::only_in_pending(pending, reports).contains(id)
                <==> responses::only_in_pending(other, reports).contains(id),
{
    assert((|report: ReportView<T>| pending.contains(report.id) && !report.unknown) =~= (
    |report: ReportView<T>| other.contains(report.id) && !report.unknown));
    assert((|report: ReportView<T>| pending.contains(report.id) && report.unknown) =~= (
    |report: ReportView<T>| other.contains(report.id) && report.unknown));
    assert((|report: ReportView<T>| !pending.contains(report.id)) =~= (|report: ReportView<T>|
        !other.contains(report.id)));
    law_only_in_pending(pending, reports);
    law_only_in_pending(other, reports);
}

/// Whether a report changes no update: it is unknown, or its id was not submitted.
pub open spec fn is_idle<T>(pending: Seq<Seq<char>>, report: ReportView<T>) -> bool {
    report.unknown || !pending.contains(report.id)
}

/// Reports that are unknown or were not submitted, wherever they stand, change no update.
pub proof fn law_idle_reports_change_no_update<T>(
    pending: Seq<Seq<char>>,
    before: Seq<ReportView<T>>,
    extra: Seq<ReportView<T>>,
    after: Seq<ReportView<T>>,
)
    requires
        forall|i: int| 0 <= i < extra.len() ==> is_idle(pending, #[trigger] extra[i]),
    ensures
        responses::statuses_to_update(pending, before + extra + after)
            == responses::statuses_to_update(pending, before + after),
{
    let keep = |report: ReportView<T>| pending.contains(report.id) && !report.unknown;
    seqs::lemma_filter_none(extra, keep);
    Seq::filter_distributes_over_add(before + extra, after, keep);
    Seq::filter_distributes_over_add(before, extra, keep);
    Seq::filter_distributes_over_add(before, after, keep);
    assert((before + extra + after).filter(keep) == (before + after).filter(keep));
}

/// Two responses lead to the same update where the same ids were submitted, in whatever
/// order and however often, and where one response is the other with reports put in, at
/// any places, that are unknown or were not submitted.
///
/// The marked reports are those of the shorter response. How many statuses were received,
/// and the texts of the unknown ones, decide nothing either.
pub proof fn law_same_update<I, T>(
    service_id: Seq<char>,
    pending: Seq<Seq<char>>,
    other: Seq<Seq<char>>,
    reports: Seq<ReportView<T>>,
    marks: Seq<bool>,
    unknown: Seq<Seq<char>>,
    other_unknown: Seq<Seq<char>>,
)
    requires
        forall|id: Seq<char>| #[trigger] pending.contains(id) <==> other.contains(id),
        marks.len() == reports.len(),
        forall|i: int|
            0 <= i < reports.len() && !marks[i] ==> is_idle(pending, #[trigger] reports[i]),
    ensures
        responses::response_plan::<I, T>(
            service_id,
            seqs::marked(reports, marks).len(),
            responses::reconciliation(pending, seqs::marked(reports, marks)),
            unknown,
        ).update == responses::response_plan::<I, T>(
            service_id,
            reports.len(),
            responses::reconciliation(other, reports),
            other_unknown,
        ).update,
{
    lemma_marked_reports_decide(pending, reports, marks);
    law_submitted_ids_decide(pending, other, reports);
}

/// Two responses to whose statuses `get_id` and `is_unknown` have one answer each lead to
/// the same update where the same ids were submitted, in whatever order and however often,
/// and where one response is the other with statuses put in, at any places, that are
/// unknown or were not submitted.
///
/// The marked statuses are those of the shorter response.
pub proof fn law_same_update_follows<I: BatchId, T: BatchStatus>(
    service_id: Seq<char>,
    pending: Seq<Seq<char>>,
    other: Seq<Seq<char>>,
    shorter: Vec<T>,
    longer: Vec<T>,
    marks: Seq<bool>,
    plan: ResponsePlanView<I, T>,
    other_plan: ResponsePlanView<I, T>,
)
    requires
        responses::reads_steadily(longer@),
        forall|id: Seq<char>| #[trigger] pending.contains(id) <==> other.contains(id),
        marks.len() == longer@.len(),
        shorter@ == seqs::marked(longer@, marks),
        forall|i: int, report: ReportView<T>|
            0 <= i < longer@.len() && !marks[i] && #[trigger] responses::reads(longer@[i], report)
                ==> is_idle(pending, report),
        responses::follows(service_id, pending, Ok(shorter), plan),
        responses::follows(service_id, other, Ok(longer), other_plan),
    ensures
        plan.update is Some,
        plan.update == other_plan.update,
{
    let (reports, unknown) = responses::lemma_follows_success(service_id, pending, shorter, plan);
    let (all, other_unknown) = responses::lemma_follows_success(
        service_id,
        other,
        longer,
        other_plan,
    );
    lemma_marked_reads(longer@, all, marks);
    assert(reports =~= seqs::marked(all, marks)) by {
        assert forall|i: int| 0 <= i < reports.len() implies reports[i] == seqs::marked(
            all,
            marks,
        )[i] by {
            seqs::lemma_marked_members(longer@, marks, i);
            let j = choose|j: int| 0 <= j < longer@.len() && longer@[j] == shorter@[i];
            assert(responses::reads(shorter@[i], reports[i]));
            assert(responses::reads(shorter@[i], seqs::marked(all, marks)[i]));
            assert(responses::reads(longer@[j], reports[i]));
        }
    }
    assert forall|i: int| 0 <= i < all.len() && !marks[i] implies is_idle(
        pending,
        #[trigger] all[i],
    ) by {
        assert(responses::reads(longer@[i], all[i]));
    }
    law_same_update::<I, T>(service_id, pending, other, all, marks, unknown, other_unknown);
}

proof fn lemma_marked_reads<T: BatchStatus>(
    statuses: Seq<T>,
    reports: Seq<ReportView<T>>,
    marks: Seq<bool>,
)
    requires
        responses::reads_all(statuses, reports),
    ensures
        responses::reads_all(seqs::marked(statuses, marks), seqs::marked(reports, marks)),
    decreases statuses.len(),
{
    if statuses.len() > 0 {
        let rest = statuses.drop_last();
        assert(responses::reads(statuses[statuses.len() - 1], reports[statuses.len() - 1]));
        assert(responses::reads_all(rest, reports.drop_last())) by {
            assert forall|i: int| 0 <= i < rest.len() implies responses::reads(
                #[trigger] rest[i],
                reports.drop_last()[i],
            ) by {
                assert(responses::reads(statuses[i], reports[i]));
            }
        }
        lemma_marked_reads(rest, reports.drop_last(), marks);
    }
}

proof fn lemma_marked_reports_decide<T>(
    pending: Seq<Seq<char>>,
    reports: Seq<ReportView<T>>,
    marks: Seq<bool>,
)
    requires
        forall|i: int|
            0 <= i < reports.len() && !marks[i] ==> is_idle(pending, #[trigger] reports[i]),
    ensures
        responses::statuses_to_update(pending, seqs::marked(reports, marks))
            == responses::statuses_to_update(pending, reports),
    decreases reports.len(),
{
    if reports.len() > 0 {
        let keep = |report: ReportView<T>| pending.contains(report.id) && !report.unknown;
        let rest = reports.drop_last();
        let last = reports.last();
        lemma_marked_reports_decide(pending, rest, marks);
        assert(reports == rest.push(last));
        seqs::lemma_filter_push(rest, last, keep);
        seqs::lemma_filter_push(seqs::marked(rest, marks), last, keep);
        let kept = rest.filter(keep);
        let marked_kept = seqs::marked(rest, marks).filter(keep);
        assert(responses::report_statuses(kept.push(last)) == responses::report_statuses(kept).push(
            last.status,
        ));
        assert(responses::report_statuses(marked_kept.push(last)) == responses::report_statuses(
            marked_kept,
        ).push(last.status));
        assert(reports[reports.len() - 1] == last);
    }
}

/// A response that answers exactly what was submitted, with no status unknown, is
/// reported as complete and nothing else, and all of it is updated.
pub proof fn law_matching_response<I, T>(
    service_id: Seq<char>,
    pending: Seq<Seq<char>>,
    reports: Seq<ReportView<T>>,
    unknown: Seq<Seq<char>>,
)
    requires
        forall|id: Seq<char>| #[trigger]
            pending.contains(id) <==> responses::report_ids(reports).contains(id),
        forall|i: int| 0 <= i < reports.len() ==> !(#[trigger] reports[i]).unknown,
    ensures
        responses::response_plan::<I, T>(
            service_id,
            reports.len(),
            responses::reconciliation(pending, reports),
            unknown,
        ) == (ResponsePlanView::<I, T> {
            events: seq![EventView::FetchStatusesComplete { service_id, total: reports.len() }],
            update: Some(
                BatchUpdateView { service_id, statuses: responses::report_statuses(reports) },
            ),
        }),
{
    law_mismatch(pending, reports);
    let known = |report: ReportView<T>| pending.contains(report.id) && !report.unknown;
    let ignored = |report: ReportView<T>| pending.contains(report.id) && report.unknown;
    assert forall|i: int| 0 <= i < reports.len() implies known(reports[i]) && !ignored(
        reports[i],
    ) by {
        assert(responses::report_ids(reports)[i] == reports[i].id);
        assert(responses::report_ids(reports).contains(reports[i].id));
    }
    seqs::lemma_filter_all(reports, known);
    seqs::lemma_filter_none(reports, ignored);
    assert(responses::response_plan::<I, T>(
        service_id,
        reports.len(),
        responses::reconciliation(pending, reports),
        unknown,
    ) =~~= (ResponsePlanView::<I, T> {
        events: seq![EventView::FetchStatusesComplete { service_id, total: reports.len() }],
        update: Some(BatchUpdateView { service_id, statuses: responses::report_statuses(reports) }),
    }));
}

/// An update is made if and only if the request succeeded; it is made for the service
/// that was asked, and with nothing but statuses that the service sent.
pub proof fn law_update_follows_success<I: BatchId, T: BatchStatus>(
    service_id: Seq<char>,
    pending: Seq<Seq<char>>,
    statuses: BatchResult<Vec<T>>,
    plan: ResponsePlanView<I, T>,
)
    requires
        responses::follows(service_id, pending, statuses, plan),
    ensures
        plan.update is Some <==> statuses is Ok,
        statuses is Err ==> plan.events.len() == 1,
        plan.update matches Some(update) ==> update.service_id == service_id && forall|status: T|
            #[trigger]
            update.statuses.contains(status) ==> statuses->Ok_0@.contains(status),
{
    if let Ok(statuses) = statuses {
        let (reports, _) = responses::lemma_follows_success(service_id, pending, statuses, plan);
        let updated = responses::statuses_to_update(pending, reports);
        assert forall|status: T| #[trigger] updated.contains(status) implies statuses@.contains(
            status,
        ) by {
            law_updated_statuses(pending, reports, status);
            let i = choose|i: int|
                0 <= i < reports.len() && (#[trigger] reports[i]).status == status
                    && pending.contains(reports[i].id) && !reports[i].unknown;
            assert(responses::reads(statuses@[i], reports[i]));
        }
    }
}

/// Each service is asked once, and for at least one batch.
pub proof fn law_one_request_per_service(pending: Seq<PendingView>)
    ensures
        forall|i: int, j: int|
            0 <= i < j < requests::batches_by_service_id(pending).len()
                ==> #[trigger] requests::batches_by_service_id(pending)[i].service_id
                != #[trigger] requests::batches_by_service_id(pending)[j].service_id,
        forall|i: int|
            0 <= i < requests::batches_by_service_id(pending).len()
                ==> (#[trigger] requests::batches_by_service_id(pending)[i]).ids.len() > 0,
{
    let made = requests::batches_by_service_id(pending);
    let services = requests::services(pending);
    seqs::lemma_distinct(requests::service_ids(pending));
    assert forall|i: int, j: int| 0 <= i < j < made.len() implies #[trigger] made[i].service_id
        != #[trigger] made[j].service_id by {
        assert(services[i] != services[j]);
    }
    assert forall|i: int| 0 <= i < made.len() implies (#[trigger] made[i]).ids.len() > 0 by {
        assert(services.contains(services[i]));
        assert(requests::service_ids(pending).contains(services[i]));
        let k = choose|k: int|
            0 <= k < pending.len() && requests::service_ids(pending)[k] == services[i];
        pending.lemma_filter_contains(
            |batch: PendingView| batch.service_id == services[i],
            k,
        );
    }
}

/// A service is asked for a batch if and only if the batch is pending there.
pub proof fn law_pending_batches_are_requested(
    pending: Seq<PendingView>,
    service_id: Seq<char>,
    id: Seq<char>,
)
    ensures
        (exists|i: int|
            0 <= i < requests::batches_by_service_id(pending).len()
                && (#[trigger] requests::batches_by_service_id(pending)[i]).service_id == service_id
                && requests::batches_by_service_id(pending)[i].ids.contains(id))
            <==> pending.contains(PendingView { id, service_id }),
{
    let made = requests::batches_by_service_id(pending);
    let services = requests::services(pending);
    let batch = PendingView { id, service_id };
    let keep = |batch: PendingView| batch.service_id == service_id;
    let kept = pending.filter(keep);
    seqs::lemma_distinct(requests::service_ids(pending));
    seqs::lemma_filter_members(pending, keep);
    if exists|i: int|
        0 <= i < made.len() && (#[trigger] made[i]).service_id == service_id
            && made[i].ids.contains(id) {
        let i = choose|i: int|
            0 <= i < made.len() && (#[trigger] made[i]).service_id == service_id
                && made[i].ids.contains(id);
        let k = choose|k: int| 0 <= k < made[i].ids.len() && made[i].ids[k] == id;
        assert(kept.contains(kept[k]));
        assert(kept[k] == batch);
    }
    if pending.contains(batch) {
        let k = choose|k: int| 0 <= k < pending.len() && pending[k] == batch;
        assert(requests::service_ids(pending)[k] == service_id);
        assert(requests::service_ids(pending).contains(service_id));
        assert(services.contains(service_id));
        let i = choose|i: int| 0 <= i < services.len() && services[i] == service_id;
        assert(kept.contains(batch));
        let m = choose|m: int| 0 <= m < kept.len() && kept[m] == batch;
        assert(made[i].ids[m] == id);
        assert(made[i].service_id == service_id && made[i].ids.contains(id));
    }
}

/// Grouping goes through lists of pending batches part by part: the services of two lists
/// together are those of the one and of the other, and each is asked for its batches of the
/// one list and then of the other. A service that is not in a list is asked for none of it.
pub proof fn law_grouping_goes_part_by_part(
    a: Seq<PendingView>,
    b: Seq<PendingView>,
    service_id: Seq<char>,
)
    ensures
        requests::services(a + b) == seqs::distinct(requests::services(a) + requests::services(b)),
        requests::services(a + b).contains(service_id) <==> requests::services(a).contains(
            service_id,
        ) || requests::services(b).contains(service_id),
        requests::ids_at(a + b, service_id) == requests::ids_at(a, service_id) + requests::ids_at(
            b,
            service_id,
        ),
        !requests::services(a).contains(service_id) ==> requests::ids_at(a, service_id) == Seq::<
            Seq<char>,
        >::empty(),
        !requests::services(b).contains(service_id) ==> requests::ids_at(b, service_id) == Seq::<
            Seq<char>,
        >::empty(),
{
    let keep = |batch: PendingView| batch.service_id == service_id;
    let in_a = requests::service_ids(a);
    let in_b = requests::service_ids(b);
    assert(requests::service_ids(a + b) == in_a + in_b);
    seqs::lemma_distinct_add(in_a, in_b);
    seqs::lemma_distinct(in_a);
    seqs::lemma_distinct(in_b);
    seqs::lemma_distinct(in_a + in_b);
    seqs::lemma_add_contains(in_a, in_b);
    Seq::filter_distributes_over_add(a, b, keep);
    assert(requests::ids_at(a + b, service_id) =~= requests::ids_at(a, service_id)
        + requests::ids_at(b, service_id));
    if !in_a.contains(service_id) {
        requests::lemma_ids_at_none(a, service_id);
    }
    if !in_b.contains(service_id) {
        requests::lemma_ids_at_none(b, service_id);
    }
}

/// A service is asked if and only if a batch is pending there, and for what is pending
/// there.
pub proof fn law_services_are_asked(pending: Seq<PendingView>, service_id: Seq<char>)
    ensures
        requests::asks(requests::batches_by_service_id(pending), service_id)
            <==> requests::services(pending).contains(service_id),
        requests::ids_asked(requests::batches_by_service_id(pending), service_id)
            == requests::ids_at(pending, service_id),
{
    let made = requests::batches_by_service_id(pending);
    let services = requests::services(pending);
    if services.contains(service_id) {
        let i = choose|i: int| 0 <= i < services.len() && services[i] == service_id;
        assert(made[i].service_id == service_id);
    }
    if requests::asks(made, service_id) {
        let i = choose|i: int|
            0 <= i < made.len() && (#[trigger] made[i]).service_id == service_id;
        assert(services[i] == service_id);
    } else {
        seqs::lemma_distinct(requests::service_ids(pending));
        requests::lemma_ids_at_none(pending, service_id);
    }
}

/// Where `get_id` and `get_service_id` have one answer to each id of two lists, the
/// requests for the lists together ask the services that the requests for the one or for
/// the other ask, and each for its ids of the one and then of the other.
pub proof fn law_requests_go_part_by_part<I: BatchId>(
    a: Seq<I>,
    b: Seq<I>,
    made_a: Seq<BatchRequestView>,
    made_b: Seq<BatchRequestView>,
    made: Seq<BatchRequestView>,
    service_id: Seq<char>,
)
    requires
        requests::reads_steadily(a + b),
        requests::requests_for(a, made_a),
        requests::requests_for(b, made_b),
        requests::requests_for(a + b, made),
    ensures
        requests::asks(made, service_id) <==> requests::asks(made_a, service_id) || requests::asks(
            made_b,
            service_id,
        ),
        requests::ids_asked(made, service_id) == requests::ids_asked(made_a, service_id)
            + requests::ids_asked(made_b, service_id),
{
    let pending_a = choose|pending: Seq<PendingView>| #[trigger]
        requests::reads_all(a, pending) && made_a == requests::batches_by_service_id(pending);
    let pending_b = choose|pending: Seq<PendingView>| #[trigger]
        requests::reads_all(b, pending) && made_b == requests::batches_by_service_id(pending);
    let pending = choose|pending: Seq<PendingView>| #[trigger]
        requests::reads_all(a + b, pending) && made == requests::batches_by_service_id(pending);
    assert(pending =~= pending_a + pending_b) by {
        assert forall|i: int| 0 <= i < pending.len() implies pending[i] == (pending_a
            + pending_b)[i] by {
            assert(requests::reads((a + b)[i], pending[i]));
            if i < a.len() {
                assert(requests::reads(a[i], pending_a[i]));
            } else {
                assert(requests::reads(b[i - a.len()], pending_b[i - a.len()]));
            }
        }
    }
    law_grouping_goes_part_by_part(pending_a, pending_b, service_id);
    law_services_are_asked(pending_a, service_id);
    law_services_are_asked(pending_b, service_id);
    law_services_are_asked(pending, service_id);
}

/// A pending batch is updated if its service reports on it with a status that is not
/// unknown.
pub proof fn law_pending_batch_is_updated<T>(
    pending: Seq<PendingView>,
    batch: PendingView,
    reports: Seq<ReportView<T>>,
    report: ReportView<T>,
)
    requires
        pending.contains(batch),
        reports.contains(report),
        report.id == batch.id,
        !report.unknown,
    ensures
        exists|i: int|
            0 <= i < requests::batches_by_service_id(pending).len()
                && (#[trigger] requests::batches_by_service_id(pending)[i]).service_id
                == batch.service_id && responses::statuses_to_update(
                requests::batches_by_service_id(pending)[i].ids,
                reports,
            ).contains(report.status),
{
    let made = requests::batches_by_service_id(pending);
    law_pending_batches_are_requested(pending, batch.service_id, batch.id);
    assert(batch == PendingView { id: batch.id, service_id: batch.service_id });
    let i = choose|i: int|
        0 <= i < made.len() && (#[trigger] made[i]).service_id == batch.service_id
            && made[i].ids.contains(batch.id);
    let j = choose|j: int| 0 <= j < reports.len() && reports[j] == report;
    law_updated_statuses(made[i].ids, reports, report.status);
    assert(reports[j].status == report.status && made[i].ids.contains(reports[j].id));
}

/// Nothing else is updated: what the answer to a request updates is the status of a
/// batch that is pending at the service, reported as something else than unknown.
pub proof fn law_updated_status_is_of_pending_batch<T>(
    pending: Seq<PendingView>,
    i: int,
    reports: Seq<ReportView<T>>,
    status: T,
)
    requires
        0 <= i < requests::batches_by_service_id(pending).len(),
        responses::statuses_to_update(
            requests::batches_by_service_id(pending)[i].ids,
            reports,
        ).contains(status),
    ensures
        exists|j: int|
            0 <= j < reports.len() && (#[trigger] reports[j]).status == status
                && !reports[j].unknown && pending.contains(
                PendingView {
                    id: reports[j].id,
                    service_id: requests::batches_by_service_id(pending)[i].service_id,
                },
            ),
{
    let request = requests::batches_by_service_id(pending)[i];
    law_updated_statuses(request.ids, reports, status);
    let j = choose|j: int|
        0 <= j < reports.len() && (#[trigger] reports[j]).status == status
            && request.ids.contains(reports[j].id) && !reports[j].unknown;
    law_pending_batches_are_requested(pending, request.service_id, reports[j].id);
    assert(reports[j].status == status);
}

/// The number of batches that some requests ask for.
pub open spec fn requested(made: Seq<BatchRequestView>) -> nat
    decreases made.len(),
{
    if made.len() == 0 {
        0
    } else {
        requested(made.drop_last()) + made.last().ids.len()
    }
}

/// As many batches are asked for as there are pending: none is left out or asked for
/// twice.
pub proof fn law_requests_cover_pending(pending: Seq<PendingView>)
    ensures
        requested(requests::batches_by_service_id(pending)) == pending.len(),
    decreases pending.len(),
{
    let services = requests::services(pending);
    assert(requests::batches_by_service_id(pending) == requests_at(services, pending));
    if pending.len() > 0 {
        let rest = pending.drop_last();
        let last = pending.last();
        let before = requests::services(rest);
        assert(pending == rest.push(last));
        assert(requests::service_ids(pending) == requests::service_ids(rest).push(
            last.service_id,
        ));
        assert(requests::service_ids(pending).drop_last() == requests::service_ids(rest));
        law_requests_cover_pending(rest);
        assert(requests::batches_by_service_id(rest) == requests_at(before, rest));
        seqs::lemma_distinct(requests::service_ids(rest));
        lemma_requested_push(before, rest, last);
        if !requests::service_ids(rest).contains(last.service_id) {
            assert(services == before.push(last.service_id));
            assert(requests_at(services, pending).drop_last() == requests_at(before, pending));
            requests::lemma_ids_at_none(rest, last.service_id);
            requests::lemma_ids_at_push(rest, last, last.service_id);
        }
    }
}

spec fn requests_at(services: Seq<Seq<char>>, pending: Seq<PendingView>) -> Seq<BatchRequestView> {
    services.map_values(
        |service_id: Seq<char>|
            BatchRequestView { service_id, ids: requests::ids_at(pending, service_id) },
    )
}

proof fn lemma_requested_push(
    services: Seq<Seq<char>>,
    pending: Seq<PendingView>,
    batch: PendingView,
)
    requires
        services.no_duplicates(),
    ensures
        requested(requests_at(services, pending.push(batch))) == requested(
            requests_at(services, pending),
        ) + if services.contains(batch.service_id) {
            1nat
        } else {
            0nat
        },
    decreases services.len(),
{
    if services.len() > 0 {
        let rest = services.drop_last();
        assert(services == rest.push(services.last()));
        assert(requests_at(services, pending).drop_last() == requests_at(rest, pending));
        assert(requests_at(services, pending.push(batch)).drop_last() == requests_at(
            rest,
            pending.push(batch),
        ));
        lemma_requested_push(rest, pending, batch);
        requests::lemma_ids_at_push(pending, batch, services.last());
        seqs::lemma_push_contains(rest, services.last());
        if rest.contains(services.last()) {
            let k = choose|k: int| 0 <= k < rest.len() && rest[k] == services.last();
            assert(services[k] == services[services.len() - 1]);
        }
    }
}

} // verus!
