//! What follows from the statuses that a service sent back.

use vstd::hash_set::StringHashSet;
use vstd::prelude::*;

use crate::base;
use crate::base::{BatchError, BatchId, BatchResult, BatchStatus, BatchUpdater};
use crate::event::{Event, EventView};
use crate::seqs;
use crate::text;

verus! {

/// A status, with what the monitor reads of it.
pub struct Report<T> {
    pub status: T,
    pub id: String,
    pub unknown: bool,
}

#[verifier::ext_equal]
pub struct ReportView<T> {
    pub status: T,
    pub id: Seq<char>,
    pub unknown: bool,
}

impl<T> View for Report<T> {
    type V = ReportView<T>;

    open spec fn view(&self) -> ReportView<T> {
        ReportView { status: self.status, id: self.id@, unknown: self.unknown }
    }
}

/// The views of a sequence of reports.
pub open spec fn report_views<T>(reports: Seq<Report<T>>) -> Seq<ReportView<T>> {
    reports.map_values(|report: Report<T>| report@)
}

/// Whether `report` holds what `get_id` and `is_unknown` may answer on `status`.
pub open spec fn reads<T: BatchStatus>(status: T, report: ReportView<T>) -> bool {
    &&& report.status == status
    &&& exists|id: &str| #[trigger]
        call_ensures(T::get_id, (&status,), id) && id@ == report.id
    &&& call_ensures(T::is_unknown, (&status,), report.unknown)
}

/// Whether `reports` reads `statuses`, one by one and in their order.
pub open spec fn reads_all<T: BatchStatus>(
    statuses: Seq<T>,
    reports: Seq<ReportView<T>>,
) -> bool {
    &&& reports.len() == statuses.len()
    &&& forall|i: int| 0 <= i < statuses.len() ==> reads(#[trigger] statuses[i], reports[i])
}

/// Whether `get_id` and `is_unknown` have one answer to each of `statuses`.
pub open spec fn reads_steadily<T: BatchStatus>(statuses: Seq<T>) -> bool {
    forall|i: int, a: ReportView<T>, b: ReportView<T>|
        0 <= i < statuses.len() && #[trigger] reads(statuses[i], a) && #[trigger] reads(
            statuses[i],
            b,
        ) ==> a == b
}

/// Reads the statuses.
pub fn read_statuses<T: BatchStatus>(statuses: Vec<T>) -> (reports: Vec<Report<T>>)
    ensures
        reads_all(statuses@, report_views(reports@)),
{
    let mut reports: Vec<Report<T>> = Vec::new();
    for status in it: statuses
        invariant
            it.seq() == statuses@,
            reports@.len() == it.index(),
            forall|j: int|
                0 <= j < it.index() ==> reads(statuses@[j], (#[trigger] reports@[j])@),
    {
        let id = String::from_str(status.get_id());
        let unknown = status.is_unknown();
        reports.push(Report { status, id, unknown });
    }
    reports
}

/// The ids of the reports, in their order.
pub open spec fn report_ids<T>(reports: Seq<ReportView<T>>) -> Seq<Seq<char>> {
    reports.map_values(|report: ReportView<T>| report.id)
}

/// The statuses of the reports, in their order.
pub open spec fn report_statuses<T>(reports: Seq<ReportView<T>>) -> Seq<T> {
    reports.map_values(|report: ReportView<T>| report.status)
}

/// The ids that were submitted and that no report answers, each once.
pub open spec fn only_in_pending<T>(
    pending: Seq<Seq<char>>,
    reports: Seq<ReportView<T>>,
) -> Seq<Seq<char>> {
    seqs::distinct(pending.filter(|id: Seq<char>| !report_ids(reports).contains(id)))
}

/// The ids of the reports that answer no submitted id.
pub open spec fn only_in_response<T>(
    pending: Seq<Seq<char>>,
    reports: Seq<ReportView<T>>,
) -> Seq<Seq<char>> {
    report_ids(reports.filter(|report: ReportView<T>| !pending.contains(report.id)))
}

/// The submitted statuses that came back as unknown.
pub open spec fn unknown_statuses<T>(
    pending: Seq<Seq<char>>,
    reports: Seq<ReportView<T>>,
) -> Seq<T> {
    report_statuses(
        reports.filter(|report: ReportView<T>| pending.contains(report.id) && report.unknown),
    )
}

/// The submitted statuses that came back as something else than unknown.
pub open spec fn statuses_to_update<T>(
    pending: Seq<Seq<char>>,
    reports: Seq<ReportView<T>>,
) -> Seq<T> {
    report_statuses(
        reports.filter(|report: ReportView<T>| pending.contains(report.id) && !report.unknown),
    )
}

/// A response held against the ids that were submitted.
pub struct Reconciled<T> {
    pub only_in_pending: Vec<String>,
    pub only_in_response: Vec<String>,
    pub unknown: Vec<T>,
    pub to_update: Vec<T>,
}

#[verifier::ext_equal]
pub struct ReconciledView<T> {
    pub only_in_pending: Seq<Seq<char>>,
    pub only_in_response: Seq<Seq<char>>,
    pub unknown: Seq<T>,
    pub to_update: Seq<T>,
}

impl<T> View for Reconciled<T> {
    type V = ReconciledView<T>;

    open spec fn view(&self) -> ReconciledView<T> {
        ReconciledView {
            only_in_pending: text::texts(self.only_in_pending@),
            only_in_response: text::texts(self.only_in_response@),
            unknown: self.unknown@,
            to_update: self.to_update@,
        }
    }
}

/// The reports held against the ids that were submitted.
pub open spec fn reconciliation<T>(
    pending: Seq<Seq<char>>,
    reports: Seq<ReportView<T>>,
) -> ReconciledView<T> {
    ReconciledView {
        only_in_pending: only_in_pending(pending, reports),
        only_in_response: only_in_response(pending, reports),
        unknown: unknown_statuses(pending, reports),
        to_update: statuses_to_update(pending, reports),
    }
}

/// Collects the strings in a set.
fn string_set(strings: &[String]) -> (set: StringHashSet)
    ensures
        forall|s: Seq<char>| set@.contains(s) <==> text::texts(strings@).contains(s),
{
    let mut set = StringHashSet::new();
    let ghost all = text::texts(strings@);
    let mut i: usize = 0;
    while i < strings.len()
        invariant
            i <= strings.len(),
            all == text::texts(strings@),
            forall|s: Seq<char>| set@.contains(s) <==> all.take(i as int).contains(s),
        decreases strings.len() - i,
    {
        set.insert(strings[i].clone());
        proof {
            assert(all.take(i + 1) == all.take(i as int).push(all[i as int]));
            seqs::lemma_push_contains(all.take(i as int), all[i as int]);
        }
        i = i + 1;
    }
    assert(all.take(i as int) == all);
    set
}

/// Finds the strings of `strings` that are not in `others`, each once.
fn difference(strings: &[String], others: &[String]) -> (missing: Vec<String>)
    ensures
        text::texts(missing@) == seqs::distinct(
            text::texts(strings@).filter(|s: Seq<char>| !text::texts(others@).contains(s)),
        ),
{
    let other_set = string_set(others);
    let mut missing: Vec<String> = Vec::new();
    let mut found = StringHashSet::new();
    let ghost all = text::texts(strings@);
    let ghost keep = |s: Seq<char>| !text::texts(others@).contains(s);
    let mut i: usize = 0;
    proof {
        reveal(Seq::filter);
        assert(all.take(0) =~= seq![]);
        assert(text::texts(missing@) =~= seq![]);
    }
    while i < strings.len()
        invariant
            i <= strings.len(),
            all == text::texts(strings@),
            keep == (|s: Seq<char>| !text::texts(others@).contains(s)),
            forall|s: Seq<char>| other_set@.contains(s) <==> text::texts(others@).contains(s),
            forall|s: Seq<char>|
                found@.contains(s) <==> all.take(i as int).filter(keep).contains(s),
            text::texts(missing@) == seqs::distinct(all.take(i as int).filter(keep)),
        decreases strings.len() - i,
    {
        let ghost before = all.take(i as int).filter(keep);
        let ghost after = all.take(i + 1).filter(keep);
        let ghost missing_before = missing@;
        proof {
            assert(all.take(i + 1) == all.take(i as int).push(all[i as int]));
            seqs::lemma_filter_push(all.take(i as int), all[i as int], keep);
        }
        if !other_set.contains(strings[i].as_str()) {
            proof {
                assert(after == before.push(all[i as int]));
                assert(after.drop_last() == before);
                seqs::lemma_push_contains(before, all[i as int]);
            }
            if !found.contains(strings[i].as_str()) {
                missing.push(strings[i].clone());
                assert(text::texts(missing@) == text::texts(missing_before).push(all[i as int]));
            }
            found.insert(strings[i].clone());
        }
        i = i + 1;
    }
    assert(all.take(i as int) == all);
    missing
}

/// Holds the reports against the ids that were submitted.
pub fn reconcile<T>(pending: &[String], reports: Vec<Report<T>>) -> (reconciled: Reconciled<T>)
    ensures
        reconciled@ == reconciliation(text::texts(pending@), report_views(reports@)),
{
    let pending_set = string_set(pending);
    let ghost submitted = text::texts(pending@);
    let ghost all = report_views(reports@);
    let ghost is_foreign = |report: ReportView<T>| !submitted.contains(report.id);
    let ghost is_unknown = |report: ReportView<T>| submitted.contains(report.id) && report.unknown;
    let ghost is_known = |report: ReportView<T>| submitted.contains(report.id) && !report.unknown;

    let mut response_ids: Vec<String> = Vec::new();
    let mut only_in_response: Vec<String> = Vec::new();
    let mut unknown: Vec<T> = Vec::new();
    let mut to_update: Vec<T> = Vec::new();
    proof {
        reveal(Seq::filter);
        assert(all.take(0) =~= seq![]);
        assert(text::texts(response_ids@) =~= report_ids(all.take(0)));
        assert(text::texts(only_in_response@) =~= report_ids(all.take(0).filter(is_foreign)));
        assert(unknown@ =~= report_statuses(all.take(0).filter(is_unknown)));
        assert(to_update@ =~= report_statuses(all.take(0).filter(is_known)));
    }
    for report in it: reports
        invariant
            it.seq() == reports@,
            all == report_views(reports@),
            submitted == text::texts(pending@),
            is_foreign == (|report: ReportView<T>| !submitted.contains(report.id)),
            is_unknown == (|report: ReportView<T>|
                submitted.contains(report.id) && report.unknown),
            is_known == (|report: ReportView<T>|
                submitted.contains(report.id) && !report.unknown),
            forall|s: Seq<char>| pending_set@.contains(s) <==> submitted.contains(s),
            text::texts(response_ids@) == report_ids(all.take(it.index())),
            text::texts(only_in_response@) == report_ids(all.take(it.index()).filter(is_foreign)),
            unknown@ == report_statuses(all.take(it.index()).filter(is_unknown)),
            to_update@ == report_statuses(all.take(it.index()).filter(is_known)),
    {
        let ghost i = it.index();
        let ghost ids_before = response_ids@;
        let ghost foreign_before = only_in_response@;
        let ghost unknown_before = unknown@;
        let ghost known_before = to_update@;
        proof {
            assert(all[i] == report@);
            assert(all.take(i + 1) == all.take(i).push(all[i]));
            seqs::lemma_filter_push(all.take(i), all[i], is_foreign);
            seqs::lemma_filter_push(all.take(i), all[i], is_unknown);
            seqs::lemma_filter_push(all.take(i), all[i], is_known);
        }
        response_ids.push(report.id.clone());
        assert(text::texts(response_ids@) == text::texts(ids_before).push(report@.id));
        assert(report_ids(all.take(i + 1)) == report_ids(all.take(i)).push(report@.id));
        if !pending_set.contains(report.id.as_str()) {
            only_in_response.push(report.id);
            assert(text::texts(only_in_response@) == text::texts(foreign_before).push(all[i].id));
            assert(report_ids(all.take(i).filter(is_foreign).push(all[i])) == report_ids(
                all.take(i).filter(is_foreign),
            ).push(all[i].id));
        } else if report.unknown {
            unknown.push(report.status);
            assert(report_statuses(all.take(i).filter(is_unknown).push(all[i])) == report_statuses(
                all.take(i).filter(is_unknown),
            ).push(all[i].status));
        } else {
            to_update.push(report.status);
            assert(report_statuses(all.take(i).filter(is_known).push(all[i])) == report_statuses(
                all.take(i).filter(is_known),
            ).push(all[i].status));
        }
    }
    assert(all.take(all.len() as int) == all);
    let only_in_pending = difference(pending, response_ids.as_slice());
    Reconciled { only_in_pending, only_in_response, unknown, to_update }
}

/// The message that a request for statuses or an update failed, given the text of
/// the error.
pub open spec fn failure_message(error: Seq<char>, service_id: Seq<char>) -> Seq<char> {
    "encountered error "@ + error + " fetching batch statuses for service id "@ + service_id
}

/// The message that a response does not match what was submitted, given the texts
/// of the two lists of ids.
pub open spec fn mismatch_message(
    service_id: Seq<char>,
    only_in_pending: Seq<char>,
    only_in_response: Seq<char>,
) -> Seq<char> {
    "unexpected difference between submission and response during sanity check for service "@
        + service_id
        + ". the following batch ids were submitted but not received back: "@
        + only_in_pending
        + ". the following batch ids were received back but not submitted: "@
        + only_in_response + ". these will not be updated."@
}

/// The message that statuses came back as unknown, given the text of their list.
pub open spec fn unknown_message(unknown: Seq<char>) -> Seq<char> {
    "batches returned unknown status: "@ + unknown
}

/// Writes the message that a request for statuses or an update failed.
pub fn failure_text(error: &str, service_id: &str) -> (message: String)
    ensures
        message@ == failure_message(error@, service_id@),
{
    let mut message = String::from_str("encountered error ");
    message.append(error);
    message.append(" fetching batch statuses for service id ");
    message.append(service_id);
    message
}

/// Writes the message that a response does not match what was submitted.
pub fn mismatch_text(
    service_id: &str,
    only_in_pending: &str,
    only_in_response: &str,
) -> (message: String)
    ensures
        message@ == mismatch_message(service_id@, only_in_pending@, only_in_response@),
{
    let mut message = String::from_str(
        "unexpected difference between submission and response during sanity check for service ",
    );
    message.append(service_id);
    message.append(". the following batch ids were submitted but not received back: ");
    message.append(only_in_pending);
    message.append(". the following batch ids were received back but not submitted: ");
    message.append(only_in_response);
    message.append(". these will not be updated.");
    message
}

/// Writes the message that statuses came back as unknown.
pub fn unknown_text(unknown: &str) -> (message: String)
    ensures
        message@ == unknown_message(unknown@),
{
    let mut message = String::from_str("batches returned unknown status: ");
    message.append(unknown);
    message
}

/// Statuses that are to be recorded for a service.
pub struct BatchUpdate<T> {
    pub service_id: String,
    pub statuses: Vec<T>,
}

#[verifier::ext_equal]
pub struct BatchUpdateView<T> {
    pub service_id: Seq<char>,
    pub statuses: Seq<T>,
}

impl<T> View for BatchUpdate<T> {
    type V = BatchUpdateView<T>;

    open spec fn view(&self) -> BatchUpdateView<T> {
        BatchUpdateView { service_id: self.service_id@, statuses: self.statuses@ }
    }
}

/// What is to be done about a response: the events to report, one after the
/// other, and then the update to make.
pub struct ResponsePlan<I: BatchId, T> {
    pub events: Vec<Event<I>>,
    pub update: Option<BatchUpdate<T>>,
}

#[verifier::ext_equal]
pub struct ResponsePlanView<I, T> {
    pub events: Seq<EventView<I>>,
    pub update: Option<BatchUpdateView<T>>,
}

/// The views of a sequence of events.
pub open spec fn event_views<I: BatchId>(events: Seq<Event<I>>) -> Seq<EventView<I>> {
    events.map_values(|event: Event<I>| event@)
}

impl<I: BatchId, T> View for ResponsePlan<I, T> {
    type V = ResponsePlanView<I, T>;

    open spec fn view(&self) -> ResponsePlanView<I, T> {
        ResponsePlanView {
            events: event_views(self.events@),
            update: match self.update {
                Some(update) => Some(update@),
                None => None,
            },
        }
    }
}

/// The plan for a request that failed, given the text of the error.
pub open spec fn failure_plan<I, T>(
    service_id: Seq<char>,
    error: Seq<char>,
) -> ResponsePlanView<I, T> {
    ResponsePlanView {
        events: seq![EventView::Error { message: failure_message(error, service_id) }],
        update: None,
    }
}

/// The plan for a response of `total` statuses, given the texts of those that are
/// unknown.
pub open spec fn response_plan<I, T>(
    service_id: Seq<char>,
    total: nat,
    reconciled: ReconciledView<T>,
    unknown: Seq<Seq<char>>,
) -> ResponsePlanView<I, T> {
    let complete = seq![EventView::FetchStatusesComplete { service_id, total }];
    let mismatch = if reconciled.only_in_pending.len() > 0 || reconciled.only_in_response.len()
        > 0 {
        seq![
            EventView::Error {
                message: mismatch_message(
                    service_id,
                    text::listed(text::all_quoted(reconciled.only_in_pending)),
                    text::listed(text::all_quoted(reconciled.only_in_response)),
                ),
            },
        ]
    } else {
        seq![]
    };
    let ignored = if reconciled.unknown.len() > 0 {
        seq![EventView::Error { message: unknown_message(text::listed(unknown)) }]
    } else {
        seq![]
    };
    ResponsePlanView {
        events: complete + mismatch + ignored,
        update: Some(BatchUpdateView { service_id, statuses: reconciled.to_update }),
    }
}

/// Plans what follows from a request that failed, given the text of the error.
pub fn plan_failure<I: BatchId, T>(service_id: &str, error: &str) -> (plan: ResponsePlan<I, T>)
    ensures
        plan@ == failure_plan::<I, T>(service_id@, error@),
{
    let mut events: Vec<Event<I>> = Vec::new();
    events.push(Event::Error(BatchError::InternalError(failure_text(error, service_id))));
    let plan = ResponsePlan { events, update: None };
    assert(plan@ =~~= failure_plan::<I, T>(service_id@, error@));
    plan
}

/// Plans what follows from a response of `total` statuses, given the texts of those
/// that are unknown.
pub fn plan_response<I: BatchId, T>(
    service_id: String,
    total: usize,
    reconciled: Reconciled<T>,
    unknown: &[String],
) -> (plan: ResponsePlan<I, T>)
    ensures
        plan@ == response_plan::<I, T>(
            service_id@,
            total as nat,
            reconciled@,
            text::texts(unknown@),
        ),
{
    let mut events: Vec<Event<I>> = Vec::new();
    events.push(Event::FetchStatusesComplete { service_id: service_id.clone(), total });
    if !reconciled.only_in_pending.is_empty() || !reconciled.only_in_response.is_empty() {
        let only_in_pending = text::list(
            text::quote_all(reconciled.only_in_pending.as_slice()).as_slice(),
        );
        let only_in_response = text::list(
            text::quote_all(reconciled.only_in_response.as_slice()).as_slice(),
        );
        let message = mismatch_text(
            service_id.as_str(),
            only_in_pending.as_str(),
            only_in_response.as_str(),
        );
        events.push(Event::Error(BatchError::InternalError(message)));
    }
    if !reconciled.unknown.is_empty() {
        let message = unknown_text(text::list(unknown).as_str());
        events.push(Event::Error(BatchError::InternalError(message)));
    }
    let ghost service = service_id@;
    let plan = ResponsePlan {
        events,
        update: Some(BatchUpdate { service_id, statuses: reconciled.to_update }),
    };
    assert(plan@ =~~= response_plan::<I, T>(
        service,
        total as nat,
        reconciled@,
        text::texts(unknown@),
    ));
    plan
}

/// Writes a status.
///
/// This is the `Debug` of the status, reached through `format!`. Nothing is
/// claimed of its text, which is up to whoever implements `BatchStatus`. It is
/// taken for granted that the implementation reports no formatting error, on
/// which `format!` would panic.
#[verifier::external_body]
fn show_status<T: BatchStatus>(status: &T) -> (shown: String) {
    format!("{:?}", status)
}

/// Whether `shown` is a text that `{:?}` may write for `status`.
pub closed spec fn shows<T: BatchStatus>(status: T, shown: Seq<char>) -> bool {
    exists|text: String| #[trigger]
        call_ensures(show_status::<T>, (&status,), text) && text@ == shown
}

/// Whether `shown` holds texts of `statuses`, one by one and in their order.
pub open spec fn shows_all<T: BatchStatus>(statuses: Seq<T>, shown: Seq<Seq<char>>) -> bool {
    &&& shown.len() == statuses.len()
    &&& forall|i: int| 0 <= i < statuses.len() ==> shows(#[trigger] statuses[i], shown[i])
}

/// Writes the statuses.
pub fn show_statuses<T: BatchStatus>(statuses: &[T]) -> (shown: Vec<String>)
    ensures
        shows_all(statuses@, text::texts(shown@)),
{
    let mut shown: Vec<String> = Vec::new();
    let mut i: usize = 0;
    while i < statuses.len()
        invariant
            i <= statuses.len(),
            shown@.len() == i,
            forall|j: int| 0 <= j < i ==> shows(statuses@[j], (#[trigger] shown@[j])@),
        decreases statuses.len() - i,
    {
        shown.push(show_status(&statuses[i]));
        i = i + 1;
    }
    shown
}

/// Each status is written as `show_status` writes it, in its place.
proof fn law_show_statuses<T: BatchStatus>(statuses: &[T], shown: Vec<String>, i: int) -> (written:
    String)
    requires
        call_ensures(show_statuses::<T>, (statuses,), shown),
        0 <= i < statuses@.len(),
    ensures
        shown@.len() == statuses@.len(),
        call_ensures(show_status::<T>, (&statuses@[i],), written),
        written@ == shown@[i]@,
{
    let texts = text::texts(shown@);
    assert(texts.len() == shown@.len());
    assert(shows(statuses@[i], texts[i]));
    law_shows(statuses@[i], shown@[i]@)
}

/// What is shown of a status is a text that `show_status` may write for it.
proof fn law_shows<T: BatchStatus>(status: T, shown: Seq<char>) -> (written: String)
    requires
        shows(status, shown),
    ensures
        call_ensures(show_status::<T>, (&status,), written),
        written@ == shown,
{
    choose|text: String| #[trigger]
        call_ensures(show_status::<T>, (&status,), text) && text@ == shown
}

/// Whether `plan` is what follows when the request for the statuses of `pending`
/// ended in `statuses`.
///
/// On success the plan is the one for what `get_id` and `is_unknown` answered and
/// for the texts that `{:?}` wrote for the unknown statuses.
pub open spec fn follows<I: BatchId, T: BatchStatus>(
    service_id: Seq<char>,
    pending: Seq<Seq<char>>,
    statuses: BatchResult<Vec<T>>,
    plan: ResponsePlanView<I, T>,
) -> bool {
    match statuses {
        Err(error) => plan == failure_plan::<I, T>(
            service_id,
            base::error_shown(text::quoted(error@)),
        ),
        Ok(statuses) => exists|reports: Seq<ReportView<T>>, unknown: Seq<Seq<char>>|
            {
                &&& #[trigger] reads_all(statuses@, reports)
                &&& #[trigger] shows_all(unknown_statuses(pending, reports), unknown)
                &&& plan == response_plan::<I, T>(
                    service_id,
                    statuses@.len(),
                    reconciliation(pending, reports),
                    unknown,
                )
            },
    }
}

/// What `follows` says of a request that succeeded: the reports and the texts of the
/// unknown statuses that the plan was made of.
pub proof fn lemma_follows_success<I: BatchId, T: BatchStatus>(
    service_id: Seq<char>,
    pending: Seq<Seq<char>>,
    statuses: Vec<T>,
    plan: ResponsePlanView<I, T>,
) -> (made_of: (Seq<ReportView<T>>, Seq<Seq<char>>))
    requires
        follows(service_id, pending, Ok(statuses), plan),
    ensures
        reads_all(statuses@, made_of.0),
        shows_all(unknown_statuses(pending, made_of.0), made_of.1),
        plan == response_plan::<I, T>(
            service_id,
            statuses@.len(),
            reconciliation(pending, made_of.0),
            made_of.1,
        ),
{
    choose|reports: Seq<ReportView<T>>, unknown: Seq<Seq<char>>|
        {
            &&& #[trigger] reads_all(statuses@, reports)
            &&& #[trigger] shows_all(unknown_statuses(pending, reports), unknown)
            &&& plan == response_plan::<I, T>(
                service_id,
                statuses@.len(),
                reconciliation(pending, reports),
                unknown,
            )
        }
}

/// Decides what follows from the end of a request for the statuses of `pending`.
pub fn handle_response<I: BatchId, T: BatchStatus>(
    service_id: String,
    pending: &[String],
    statuses: BatchResult<Vec<T>>,
) -> (plan: ResponsePlan<I, T>)
    ensures
        follows(service_id@, text::texts(pending@), statuses, plan@),
{
    match statuses {
        Err(error) => plan_failure(service_id.as_str(), error.shown().as_str()),
        Ok(statuses) => {
            let total: usize = statuses.len();
            let reports = read_statuses(statuses);
            let reconciled = reconcile(pending, reports);
            let unknown = show_statuses(reconciled.unknown.as_slice());
            plan_response(service_id, total, reconciled, unknown.as_slice())
        },
    }
}

/// The event that reports how an update of `total` statuses ended.
pub open spec fn update_event<I>(
    service_id: Seq<char>,
    total: nat,
    result: BatchResult<()>,
) -> EventView<I> {
    match result {
        Err(error) => EventView::Error {
            message: failure_message(base::error_shown(text::quoted(error@)), service_id),
        },
        Ok(()) => EventView::UpdateComplete { service_id, total },
    }
}

/// Reports how an update of `total` statuses ended.
pub fn report_update<I: BatchId>(
    service_id: &str,
    total: usize,
    result: BatchResult<()>,
) -> (event: Event<I>)
    ensures
        event@ == update_event::<I>(service_id@, total as nat, result),
{
    match result {
        Err(error) => Event::Error(
            BatchError::InternalError(failure_text(error.shown().as_str(), service_id)),
        ),
        Ok(()) => Event::UpdateComplete { service_id: String::from_str(service_id), total },
    }
}

impl<T: BatchStatus> BatchUpdate<T> {
    /// Hands the statuses to the updater, and reports how that ended.
    ///
    /// The updater is called even where there is no status to record.
    pub fn apply<I: BatchId, U: BatchUpdater<Status = T>>(&self, updater: &U) -> (event: Event<I>)
        ensures
            exists|service_id: &str, batches: &[T], result: BatchResult<()>|
                {
                    &&& #[trigger] call_ensures(
                        U::update_batch_statuses,
                        (updater, service_id, batches),
                        result,
                    )
                    &&& service_id@ == self.service_id@
                    &&& batches@ == self.statuses@
                    &&& event@ == update_event::<I>(
                        self.service_id@,
                        self.statuses@.len(),
                        result,
                    )
                },
    {
        let service_id: &str = self.service_id.as_str();
        let result = updater.update_batch_statuses(service_id, self.statuses.as_slice());
        report_update(service_id, self.statuses.len(), result)
    }
}

} // verus!
