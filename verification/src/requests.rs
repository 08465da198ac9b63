//! Which statuses to request for the batches that are pending.

use vstd::hash_map::StringHashMap;
use vstd::prelude::*;

use crate::base;
use crate::base::{BatchError, BatchId, BatchResult, BatchStatusReader, PendingBatchStore};
use crate::event::{Event, EventView};
use crate::seqs;
use crate::text;

verus! {

/// What the monitor reads of the id of a pending batch.
pub struct Pending {
    pub id: String,
    pub service_id: String,
}

#[verifier::ext_equal]
pub struct PendingView {
    pub id: Seq<char>,
    pub service_id: Seq<char>,
}

impl View for Pending {
    type V = PendingView;

    open spec fn view(&self) -> PendingView {
        PendingView { id: self.id@, service_id: self.service_id@ }
    }
}

/// The views of a sequence of pending batches.
pub open spec fn pending_views(pending: Seq<Pending>) -> Seq<PendingView> {
    pending.map_values(|batch: Pending| batch@)
}

/// Whether `batch` holds what `get_id` and `get_service_id` may answer on `id`.
pub open spec fn reads<I: BatchId>(id: I, batch: PendingView) -> bool {
    &&& exists|answer: &str| #[trigger]
        call_ensures(I::get_id, (&id,), answer) && answer@ == batch.id
    &&& exists|answer: &str| #[trigger]
        call_ensures(I::get_service_id, (&id,), answer) && answer@ == batch.service_id
}

/// Whether `pending` reads `ids`, one by one and in their order.
pub open spec fn reads_all<I: BatchId>(ids: Seq<I>, pending: Seq<PendingView>) -> bool {
    &&& pending.len() == ids.len()
    &&& forall|i: int| 0 <= i < ids.len() ==> reads(#[trigger] ids[i], pending[i])
}

/// Whether `get_id` and `get_service_id` have one answer to each of `ids`.
pub open spec fn reads_steadily<I: BatchId>(ids: Seq<I>) -> bool {
    forall|i: int, a: PendingView, b: PendingView|
        0 <= i < ids.len() && #[trigger] reads(ids[i], a) && #[trigger] reads(ids[i], b) ==> a == b
}

/// Reads the ids of the pending batches.
pub fn read_pending<I: BatchId>(ids: &[I]) -> (pending: Vec<Pending>)
    ensures
        reads_all(ids@, pending_views(pending@)),
{
    let mut pending: Vec<Pending> = Vec::new();
    let mut i: usize = 0;
    while i < ids.len()
        invariant
            i <= ids.len(),
            pending@.len() == i,
            forall|j: int| 0 <= j < i ==> reads(ids@[j], (#[trigger] pending@[j])@),
        decreases ids.len() - i,
    {
        let id = String::from_str(ids[i].get_id());
        let service_id = String::from_str(ids[i].get_service_id());
        pending.push(Pending { id, service_id });
        i = i + 1;
    }
    pending
}

/// A request for the statuses of batches of one service.
pub struct BatchRequest {
    pub service_id: String,
    pub ids: Vec<String>,
}

#[verifier::ext_equal]
pub struct BatchRequestView {
    pub service_id: Seq<char>,
    pub ids: Seq<Seq<char>>,
}

impl View for BatchRequest {
    type V = BatchRequestView;

    open spec fn view(&self) -> BatchRequestView {
        BatchRequestView { service_id: self.service_id@, ids: text::texts(self.ids@) }
    }
}

impl Clone for BatchRequest {
    fn clone(&self) -> (request: Self)
        ensures
            request@ == self@,
    {
        let mut ids: Vec<String> = Vec::new();
        let mut i: usize = 0;
        while i < self.ids.len()
            invariant
                i <= self.ids.len(),
                ids@.len() == i,
                forall|j: int| 0 <= j < i ==> (#[trigger] ids@[j])@ == self.ids@[j]@,
            decreases self.ids.len() - i,
        {
            ids.push(self.ids[i].clone());
            i = i + 1;
        }
        let request = BatchRequest { service_id: self.service_id.clone(), ids };
        assert(request@ =~~= self@);
        request
    }
}

/// The views of a sequence of requests.
pub open spec fn request_views(requests: Seq<BatchRequest>) -> Seq<BatchRequestView> {
    requests.map_values(|request: BatchRequest| request@)
}

/// The service of each pending batch, in their order.
pub open spec fn service_ids(pending: Seq<PendingView>) -> Seq<Seq<char>> {
    pending.map_values(|batch: PendingView| batch.service_id)
}

/// The services that batches are pending at, each once.
pub open spec fn services(pending: Seq<PendingView>) -> Seq<Seq<char>> {
    seqs::distinct(service_ids(pending))
}

/// The ids of the batches that are pending at a service, in their order.
pub open spec fn ids_at(pending: Seq<PendingView>, service_id: Seq<char>) -> Seq<Seq<char>> {
    pending.filter(|batch: PendingView| batch.service_id == service_id).map_values(
        |batch: PendingView| batch.id,
    )
}

/// Whether a service is asked.
pub open spec fn asks(made: Seq<BatchRequestView>, service_id: Seq<char>) -> bool {
    exists|i: int| 0 <= i < made.len() && (#[trigger] made[i]).service_id == service_id
}

/// The ids that a service is asked for: none where it is not asked.
pub open spec fn ids_asked(made: Seq<BatchRequestView>, service_id: Seq<char>) -> Seq<Seq<char>> {
    if asks(made, service_id) {
        made[choose|i: int|
            0 <= i < made.len() && (#[trigger] made[i]).service_id == service_id].ids
    } else {
        seq![]
    }
}

/// One request for each service, for the batches that are pending there.
pub open spec fn batches_by_service_id(pending: Seq<PendingView>) -> Seq<BatchRequestView> {
    services(pending).map_values(
        |service_id: Seq<char>| BatchRequestView { service_id, ids: ids_at(pending, service_id) },
    )
}

/// A further pending batch is asked for at its own service alone.
pub proof fn lemma_ids_at_push(pending: Seq<PendingView>, batch: PendingView, service_id: Seq<char>)
    ensures
        ids_at(pending.push(batch), service_id) == if batch.service_id == service_id {
            ids_at(pending, service_id).push(batch.id)
        } else {
            ids_at(pending, service_id)
        },
{
    let keep = |batch: PendingView| batch.service_id == service_id;
    seqs::lemma_filter_push(pending, batch, keep);
    assert(ids_at(pending.push(batch), service_id) =~= if batch.service_id == service_id {
        ids_at(pending, service_id).push(batch.id)
    } else {
        ids_at(pending, service_id)
    });
}

/// A service that no batch is pending at is asked for none.
pub proof fn lemma_ids_at_none(pending: Seq<PendingView>, service_id: Seq<char>)
    requires
        !service_ids(pending).contains(service_id),
    ensures
        ids_at(pending, service_id) == Seq::<Seq<char>>::empty(),
    decreases pending.len(),
{
    reveal(Seq::filter);
    if pending.len() > 0 {
        let rest = pending.drop_last();
        assert(pending == rest.push(pending.last()));
        assert(service_ids(pending) == service_ids(rest).push(pending.last().service_id));
        seqs::lemma_push_contains(service_ids(rest), pending.last().service_id);
        lemma_ids_at_none(rest, service_id);
        lemma_ids_at_push(rest, pending.last(), service_id);
    }
}

/// Makes one request for each service, for the batches that are pending there.
pub fn group_by_service_id(pending: Vec<Pending>) -> (requests: Vec<BatchRequest>)
    ensures
        request_views(requests@) == batches_by_service_id(pending_views(pending@)),
{
    let ghost all = pending_views(pending@);
    let mut requests: Vec<BatchRequest> = Vec::new();
    let mut positions: StringHashMap<usize> = StringHashMap::new();
    assert(request_views(requests@) =~= batches_by_service_id(all.take(0)));
    for batch in it: pending
        invariant
            it.seq() == pending@,
            all == pending_views(pending@),
            request_views(requests@) == batches_by_service_id(all.take(it.index())),
            forall|s: Seq<char>|
                positions@.contains_key(s) <==> service_ids(all.take(it.index())).contains(s),
            forall|s: Seq<char>| #[trigger]
                positions@.contains_key(s) ==> positions@[s] < requests@.len()
                    && requests@[positions@[s] as int]@.service_id == s,
    {
        let ghost done = all.take(it.index());
        let ghost next = all.take(it.index() + 1);
        let ghost seen = batch@;
        let ghost before = requests@;
        proof {
            assert(request_views(before).len() == services(done).len());
            assert(next == done.push(seen));
            assert(service_ids(next) == service_ids(done).push(seen.service_id));
            assert(service_ids(next).drop_last() == service_ids(done));
            seqs::lemma_push_contains(service_ids(done), seen.service_id);
            seqs::lemma_distinct(service_ids(done));
            assert forall|s: Seq<char>| #[trigger] ids_at(next, s) == if seen.service_id == s {
                ids_at(done, s).push(seen.id)
            } else {
                ids_at(done, s)
            } by {
                lemma_ids_at_push(done, seen, s);
            }
        }
        let position = match positions.get(batch.service_id.as_str()) {
            Some(position) => Some(*position),
            None => None,
        };
        match position {
            Some(position) => {
                requests[position].ids.push(batch.id);
                proof {
                    let asked = before[position as int]@;
                    assert(services(done)[position as int] == request_views(
                        before,
                    )[position as int].service_id);
                    assert(requests@[position as int]@.ids =~= asked.ids.push(seen.id));
                    assert(request_views(requests@) =~~= batches_by_service_id(next)) by {
                        assert forall|k: int|
                            0 <= k < requests@.len() implies #[trigger] request_views(
                            requests@,
                        )[k] == batches_by_service_id(next)[k] by {
                            assert(request_views(before)[k] == batches_by_service_id(done)[k]);
                            assert(services(next)[k] == services(done)[k]);
                            if k != position {
                                assert(services(done)[k] != services(done)[position as int]);
                            }
                        }
                    }
                }
            },
            None => {
                positions.insert(batch.service_id.clone(), requests.len());
                let mut ids: Vec<String> = Vec::new();
                ids.push(batch.id);
                requests.push(BatchRequest { service_id: batch.service_id, ids });
                proof {
                    lemma_ids_at_none(done, seen.service_id);
                    assert(request_views(requests@) =~~= batches_by_service_id(next)) by {
                        assert forall|k: int|
                            0 <= k < requests@.len() implies #[trigger] request_views(
                            requests@,
                        )[k] == batches_by_service_id(next)[k] by {
                            if k < before.len() {
                                assert(request_views(before)[k] == batches_by_service_id(done)[k]);
                                assert(services(done).contains(services(done)[k]));
                            } else {
                                assert(text::texts(ids@) =~= seq![seen.id]);
                            }
                        }
                    }
                }
            },
        }
    }
    assert(all.take(all.len() as int) == all);
    requests
}

/// Whether `requests` are those for the batches `ids`, going by what `get_id` and
/// `get_service_id` answered.
pub open spec fn requests_for<I: BatchId>(ids: Seq<I>, requests: Seq<BatchRequestView>) -> bool {
    exists|pending: Seq<PendingView>| #[trigger]
        reads_all(ids, pending) && requests == batches_by_service_id(pending)
}

/// The batches that are pending, and the requests to make for them.
pub struct PendingBatches<I> {
    pub ids: Vec<I>,
    pub requests: Vec<BatchRequest>,
}

/// Asks the store for the pending batches, with a limit, and groups them by service.
pub fn get_batches_by_service_id<S: PendingBatchStore>(
    store: &S,
    limit: usize,
) -> (batches: BatchResult<PendingBatches<S::Id>>)
    ensures
        exists|ids: BatchResult<Vec<S::Id>>| #[trigger]
            call_ensures(S::get_pending_batch_ids, (store, limit), ids) && match ids {
                Err(error) => batches == Err::<PendingBatches<S::Id>, BatchError>(error),
                Ok(ids) => match batches {
                    Err(_) => false,
                    Ok(batches) => batches.ids == ids && requests_for(
                        ids@,
                        request_views(batches.requests@),
                    ),
                },
            },
{
    match store.get_pending_batch_ids(limit) {
        Err(error) => Err(error),
        Ok(ids) => {
            let pending = read_pending(ids.as_slice());
            let requests = group_by_service_id(pending);
            Ok(PendingBatches { ids, requests })
        },
    }
}

/// The message that the pending batches could not be read, given the text of the error.
pub open spec fn pending_failure_message(error: Seq<char>) -> Seq<char> {
    "encountered error "@ + error + " fetching pending batches"@
}

/// Writes the message that the pending batches could not be read.
pub fn pending_failure_text(error: &str) -> (message: String)
    ensures
        message@ == pending_failure_message(error@),
{
    let mut message = String::from_str("encountered error ");
    message.append(error);
    message.append(" fetching pending batches");
    message
}

/// What is to be done once the pending batches were read: the event to report, and
/// then the requests to make.
pub struct PollPlan<I: BatchId> {
    pub event: Event<I>,
    pub requests: Vec<BatchRequest>,
}

#[verifier::ext_equal]
pub struct PollPlanView<I> {
    pub event: EventView<I>,
    pub requests: Seq<BatchRequestView>,
}

impl<I: BatchId> View for PollPlan<I> {
    type V = PollPlanView<I>;

    open spec fn view(&self) -> PollPlanView<I> {
        PollPlanView { event: self.event@, requests: request_views(self.requests@) }
    }
}

/// The plan for the batches that are pending, or for the failure to read them.
pub open spec fn poll_plan<I>(batches: BatchResult<PendingBatches<I>>) -> PollPlanView<I> {
    match batches {
        Err(error) => PollPlanView {
            event: EventView::Error {
                message: pending_failure_message(base::error_shown(text::quoted(error@))),
            },
            requests: seq![],
        },
        Ok(batches) => PollPlanView {
            event: EventView::FetchPendingComplete { ids: batches.ids@ },
            requests: request_views(batches.requests@),
        },
    }
}

/// Plans what follows from the pending batches, or from the failure to read them.
pub fn plan_poll<I: BatchId>(batches: BatchResult<PendingBatches<I>>) -> (plan: PollPlan<I>)
    ensures
        plan@ == poll_plan(batches),
        batches matches Ok(batches) ==> plan.requests == batches.requests,
{
    match batches {
        Err(error) => {
            let message = pending_failure_text(error.shown().as_str());
            let requests: Vec<BatchRequest> = Vec::new();
            assert(request_views(requests@) =~= seq![]);
            PollPlan { event: Event::Error(BatchError::InternalError(message)), requests }
        },
        Ok(batches) => PollPlan {
            event: Event::FetchPendingComplete { ids: batches.ids },
            requests: batches.requests,
        },
    }
}

/// Whether `plan` is what follows when the store answered `ids`.
pub open spec fn poll_follows<I: BatchId>(
    ids: BatchResult<Vec<I>>,
    plan: PollPlanView<I>,
) -> bool {
    match ids {
        Err(error) => {
            &&& plan.event == EventView::<I>::Error {
                message: pending_failure_message(base::error_shown(text::quoted(error@))),
            }
            &&& plan.requests == Seq::<BatchRequestView>::empty()
        },
        Ok(ids) => {
            &&& plan.event == EventView::FetchPendingComplete { ids: ids@ }
            &&& requests_for(ids@, plan.requests)
        },
    }
}

/// The start of a poll: the event to report, and then the limit to read with.
pub struct PollStart<I: BatchId> {
    pub limit: usize,
    pub event: Event<I>,
}

/// Starts a poll: as many batches are read as the reader has connections for.
pub fn start_poll<I: BatchId, R: BatchStatusReader>(reader: &R) -> (start: PollStart<I>)
    ensures
        call_ensures(R::available_connections, (reader,), start.limit),
        start.event@ == EventView::<I>::FetchPending,
{
    PollStart { limit: reader.available_connections(), event: Event::FetchPending }
}

/// Reads the pending batches, and decides what to report and which requests to make.
pub fn make_batch_requests<S: PendingBatchStore>(store: &S, limit: usize) -> (plan: PollPlan<
    S::Id,
>)
    ensures
        exists|ids: BatchResult<Vec<S::Id>>| #[trigger]
            call_ensures(S::get_pending_batch_ids, (store, limit), ids) && poll_follows(ids, plan@),
{
    plan_poll(get_batches_by_service_id(store, limit))
}

impl BatchRequest {
    /// Sends the request, for the caller to await.
    pub fn send<'a, R: BatchStatusReader>(&'a self, reader: &'a R) -> (reply: R::Reply<'a>)
        ensures
            exists|service_id: &str, ids: &[String]|
                {
                    &&& #[trigger] call_ensures(
                        R::get_batch_statuses,
                        (reader, service_id, ids),
                        reply,
                    )
                    &&& service_id@ == self.service_id@
                    &&& ids@ == self.ids@
                },
    {
        reader.get_batch_statuses(self.service_id.as_str(), self.ids.as_slice())
    }
}

} // verus!
