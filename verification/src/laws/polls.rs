//! What the functions that make requests return.

use vstd::prelude::*;

use crate::base::{BatchError, BatchId, BatchResult, BatchStatusReader, PendingBatchStore};
use crate::event::Event;
use crate::requests;
use crate::requests::{BatchRequest, Pending, PendingBatches, PendingView, PollPlan, PollStart};
use crate::seqs;
use crate::text;

verus! {

/// What `get_id` and `get_service_id` answered on some ids, one by one.
pub struct Read {
    pub names: Seq<&'static str>,
    pub services: Seq<&'static str>,
}

/// Each id is read: the batch and its service are what `get_id` and `get_service_id` answered
/// on the id, character for character.
pub proof fn law_read_pending<I: BatchId>(ids: &[I], pending: Vec<Pending>) -> (answers: Read)
    requires
        call_ensures(requests::read_pending::<I>, (ids,), pending),
    ensures
        ({
            &&& answers.names.len() == ids@.len()
            &&& answers.services.len() == ids@.len()
            &&& forall|i: int|
                0 <= i < ids@.len() ==> call_ensures(
                    I::get_id,
                    (&ids@[i],),
                    #[trigger] answers.names[i],
                )
            &&& forall|i: int|
                0 <= i < ids@.len() ==> call_ensures(
                    I::get_service_id,
                    (&ids@[i],),
                    #[trigger] answers.services[i],
                )
            &&& pending@.len() == ids@.len()
            &&& forall|i: int|
                0 <= i < ids@.len() ==> (#[trigger] pending@[i]).id@ == answers.names[i]@
                    && pending@[i].service_id@ == answers.services[i]@
        }),
{
    let views = requests::pending_views(pending@);
    let answers = lemma_read(ids@, views);
    assert(views.len() == pending@.len());
    assert forall|i: int| 0 <= i < ids@.len() implies (#[trigger] pending@[i]).id@
        == answers.names[i]@ && pending@[i].service_id@ == answers.services[i]@ by {
        assert(views[i] == pending@[i]@);
    }
    answers
}

proof fn lemma_read<I: BatchId>(ids: Seq<I>, pending: Seq<PendingView>) -> (answers: Read)
    requires
        requests::reads_all(ids, pending),
    ensures
        answers.names.len() == ids.len(),
        answers.services.len() == ids.len(),
        forall|i: int|
            0 <= i < ids.len() ==> call_ensures(I::get_id, (&ids[i],), #[trigger] answers.names[i])
                && answers.names[i]@ == pending[i].id,
        forall|i: int|
            0 <= i < ids.len() ==> call_ensures(
                I::get_service_id,
                (&ids[i],),
                #[trigger] answers.services[i],
            ) && answers.services[i]@ == pending[i].service_id,
{
    let names = Seq::new(
        ids.len(),
        |i: int|
            choose|answer: &'static str| #[trigger]
                call_ensures(I::get_id, (&ids[i],), answer) && answer@ == pending[i].id,
    );
    let services = Seq::new(
        ids.len(),
        |i: int|
            choose|answer: &'static str| #[trigger]
                call_ensures(I::get_service_id, (&ids[i],), answer) && answer@
                    == pending[i].service_id,
    );
    assert forall|i: int| 0 <= i < ids.len() implies call_ensures(
        I::get_id,
        (&ids[i],),
        #[trigger] names[i],
    ) && names[i]@ == pending[i].id by {
        assert(requests::reads(ids[i], pending[i]));
    }
    assert forall|i: int| 0 <= i < ids.len() implies call_ensures(
        I::get_service_id,
        (&ids[i],),
        #[trigger] services[i],
    ) && services[i]@ == pending[i].service_id by {
        assert(requests::reads(ids[i], pending[i]));
    }
    Read { names, services }
}

/// Where batches and requests meet: for each batch the request that asks for it, and for
/// each request the places of the batches that it asks for.
pub struct Grouping {
    pub request: Seq<int>,
    pub places: Seq<Seq<int>>,
}

proof fn lemma_requests(pending: Seq<PendingView>, made: Seq<BatchRequest>) -> (grouping: Grouping)
    requires
        requests::request_views(made) == requests::batches_by_service_id(pending),
    ensures
        ({
            &&& forall|r: int, q: int|
                0 <= r < q < made.len() ==> (#[trigger] made[r]).service_id@ != (
                #[trigger] made[q]).service_id@
            &&& grouping.request.len() == pending.len()
            &&& forall|i: int|
                0 <= i < pending.len() ==> 0 <= #[trigger] grouping.request[i] < made.len()
                    && made[grouping.request[i]].service_id@ == pending[i].service_id
            &&& grouping.places.len() == made.len()
            &&& forall|r: int|
                0 <= r < made.len() ==> 0 < (#[trigger] grouping.places[r]).len()
                    && grouping.places[r].len() == made[r].ids@.len()
            &&& forall|r: int, j: int, k: int|
                0 <= r < made.len() && 0 <= j < k < grouping.places[r].len()
                    ==> #[trigger] grouping.places[r][j] < #[trigger] grouping.places[r][k]
            &&& forall|r: int, i: int|
                0 <= r < made.len() ==> (#[trigger] grouping.places[r].contains(i) <==> 0 <= i
                    < pending.len() && pending[i].service_id == made[r].service_id@)
            &&& forall|r: int, j: int|
                0 <= r < made.len() && 0 <= j < grouping.places[r].len()
                    ==> (#[trigger] made[r].ids@[j])@ == pending[grouping.places[r][j]].id
        }),
{
    let views = requests::request_views(made);
    let asked = requests::services(pending);
    let services = requests::service_ids(pending);
    seqs::lemma_distinct(services);
    assert(views.len() == made.len());
    assert forall|r: int| 0 <= r < made.len() implies (#[trigger] made[r]).service_id@ == asked[r]
        && text::texts(made[r].ids@) == requests::ids_at(pending, asked[r]) by {
        assert(views[r] == made[r]@);
    }
    let request = Seq::new(
        pending.len(),
        |i: int|
            choose|r: int| 0 <= r < asked.len() && #[trigger] asked[r] == pending[i].service_id,
    );
    assert forall|i: int| 0 <= i < pending.len() implies 0 <= #[trigger] request[i] < made.len()
        && made[request[i]].service_id@ == pending[i].service_id by {
        assert(services[i] == pending[i].service_id);
        assert(asked.contains(services[i]));
    }
    let places = lemma_places(pending, asked);
    assert forall|r: int, j: int|
        0 <= r < made.len() && 0 <= j < places[r].len() implies (#[trigger] made[r].ids@[j])@
        == pending[places[r][j]].id by {
        assert(made[r].service_id@ == asked[r]);
        assert(text::texts(made[r].ids@)[j] == made[r].ids@[j]@);
    }
    assert forall|r: int| 0 <= r < made.len() implies 0 < (#[trigger] places[r]).len()
        && places[r].len() == made[r].ids@.len() by {
        assert(made[r].service_id@ == asked[r]);
        assert(text::texts(made[r].ids@).len() == made[r].ids@.len());
        assert(asked.contains(asked[r]));
        let i = choose|i: int| 0 <= i < services.len() && services[i] == asked[r];
        assert(places[r].contains(i));
    }
    assert forall|r: int, i: int| 0 <= r < made.len() implies (#[trigger] places[r].contains(i)
        <==> 0 <= i < pending.len() && pending[i].service_id == made[r].service_id@) by {
        assert(made[r].service_id@ == asked[r]);
    }
    Grouping { request, places }
}

/// The places of the batches that are pending at each service.
proof fn lemma_places(pending: Seq<PendingView>, services: Seq<Seq<char>>) -> (places: Seq<
    Seq<int>,
>)
    ensures
        places.len() == services.len(),
        forall|r: int|
            0 <= r < services.len() ==> (#[trigger] places[r]).len() == requests::ids_at(
                pending,
                services[r],
            ).len(),
        forall|r: int, j: int, k: int|
            0 <= r < services.len() && 0 <= j < k < places[r].len()
                ==> #[trigger] places[r][j] < #[trigger] places[r][k],
        forall|r: int, i: int|
            0 <= r < services.len() ==> (#[trigger] places[r].contains(i) <==> 0 <= i
                < pending.len() && pending[i].service_id == services[r]),
        forall|r: int, j: int|
            0 <= r < services.len() && 0 <= j < places[r].len() ==> 0 <= #[trigger] places[r][j]
                < pending.len() && requests::ids_at(pending, services[r])[j]
                == pending[places[r][j]].id,
    decreases services.len(),
{
    if services.len() == 0 {
        seq![]
    } else {
        let rest = services.drop_last();
        let service_id = services.last();
        let keep = |batch: PendingView| batch.service_id == service_id;
        let before = lemma_places(pending, rest);
        let at = seqs::lemma_filter_places(pending, keep);
        let places = before.push(at);
        assert forall|r: int| 0 <= r < rest.len() implies #[trigger] places[r] == before[r]
            && services[r] == rest[r] by {}
        assert forall|r: int, i: int| 0 <= r < services.len() implies (
        #[trigger] places[r].contains(i) <==> 0 <= i < pending.len() && pending[i].service_id
            == services[r]) by {
            if r < rest.len() {
                assert(before[r].contains(i) <==> 0 <= i < pending.len() && pending[i].service_id
                    == rest[r]);
            }
        }
        places
    }
}

/// Grouping makes one request for each service: no service is asked twice, none is asked for
/// nothing, each service of a batch is asked, and a service is asked for exactly its batches,
/// in their order.
pub proof fn law_group_by_service_id(pending: Vec<Pending>, made: Vec<BatchRequest>) -> (grouping:
    Grouping)
    requires
        call_ensures(requests::group_by_service_id, (pending,), made),
    ensures
        ({
            &&& forall|r: int, q: int|
                0 <= r < q < made@.len() ==> (#[trigger] made@[r]).service_id@ != (
                #[trigger] made@[q]).service_id@
            &&& grouping.request.len() == pending@.len()
            &&& forall|i: int|
                0 <= i < pending@.len() ==> 0 <= #[trigger] grouping.request[i] < made@.len()
                    && made@[grouping.request[i]].service_id@ == pending@[i].service_id@
            &&& grouping.places.len() == made@.len()
            &&& forall|r: int|
                0 <= r < made@.len() ==> 0 < (#[trigger] grouping.places[r]).len()
                    && grouping.places[r].len() == made@[r].ids@.len()
            &&& forall|r: int, j: int, k: int|
                0 <= r < made@.len() && 0 <= j < k < grouping.places[r].len()
                    ==> #[trigger] grouping.places[r][j] < #[trigger] grouping.places[r][k]
            &&& forall|r: int, i: int|
                0 <= r < made@.len() ==> (#[trigger] grouping.places[r].contains(i) <==> 0 <= i
                    < pending@.len() && pending@[i].service_id@ == made@[r].service_id@)
            &&& forall|r: int, j: int|
                0 <= r < made@.len() && 0 <= j < grouping.places[r].len()
                    ==> (#[trigger] made@[r].ids@[j])@ == pending@[grouping.places[r][j]].id@
        }),
{
    let views = requests::pending_views(pending@);
    assert(views.len() == pending@.len());
    assert forall|i: int| 0 <= i < pending@.len() implies #[trigger] views[i] == pending@[i]@ by {}
    let grouping = lemma_requests(views, made@);
    assert forall|r: int, j: int|
        0 <= r < made@.len() && 0 <= j < grouping.places[r].len() implies (
    #[trigger] made@[r].ids@[j])@ == pending@[grouping.places[r][j]].id@ by {
        assert(grouping.places[r].contains(grouping.places[r][j]));
    }
    grouping
}

/// What was answered when the pending batches were read, and where the ids and the requests
/// for them meet.
pub struct PollAnswers<I> {
    /// What the store answered.
    pub ids: BatchResult<Vec<I>>,
    /// What `get_id` answered on each id.
    pub names: Seq<&'static str>,
    /// What `get_service_id` answered on each id.
    pub services: Seq<&'static str>,
    /// The request that asks for each id.
    pub request: Seq<int>,
    /// The places of the ids that each request asks for.
    pub places: Seq<Seq<int>>,
}

proof fn lemma_requests_for<I: BatchId>(ids: Vec<I>, made: Seq<BatchRequest>) -> (answers:
    PollAnswers<I>)
    requires
        requests::requests_for(ids@, requests::request_views(made)),
    ensures
        answers.ids == Ok::<Vec<I>, BatchError>(ids),
        ({
            &&& answers.names.len() == ids@.len()
            &&& answers.services.len() == ids@.len()
            &&& forall|i: int|
                0 <= i < ids@.len() ==> call_ensures(
                    I::get_id,
                    (&ids@[i],),
                    #[trigger] answers.names[i],
                )
            &&& forall|i: int|
                0 <= i < ids@.len() ==> call_ensures(
                    I::get_service_id,
                    (&ids@[i],),
                    #[trigger] answers.services[i],
                )
            &&& forall|r: int, q: int|
                0 <= r < q < made.len() ==> (#[trigger] made[r]).service_id@ != (
                #[trigger] made[q]).service_id@
            &&& answers.request.len() == ids@.len()
            &&& forall|i: int|
                0 <= i < ids@.len() ==> 0 <= #[trigger] answers.request[i] < made.len()
                    && made[answers.request[i]].service_id@ == answers.services[i]@
            &&& answers.places.len() == made.len()
            &&& forall|r: int|
                0 <= r < made.len() ==> 0 < (#[trigger] answers.places[r]).len()
                    && answers.places[r].len() == made[r].ids@.len()
            &&& forall|r: int, j: int, k: int|
                0 <= r < made.len() && 0 <= j < k < answers.places[r].len()
                    ==> #[trigger] answers.places[r][j] < #[trigger] answers.places[r][k]
            &&& forall|r: int, i: int|
                0 <= r < made.len() ==> (#[trigger] answers.places[r].contains(i) <==> 0 <= i
                    < ids@.len() && answers.services[i]@ == made[r].service_id@)
            &&& forall|r: int, j: int|
                0 <= r < made.len() && 0 <= j < answers.places[r].len()
                    ==> (#[trigger] made[r].ids@[j])@ == answers.names[answers.places[r][j]]@
        }),
{
    let pending = choose|pending: Seq<PendingView>| #[trigger]
        requests::reads_all(ids@, pending) && requests::request_views(made)
            == requests::batches_by_service_id(pending);
    let read = lemma_read(ids@, pending);
    let grouping = lemma_requests(pending, made);
    let answers = PollAnswers {
        ids: Ok(ids),
        names: read.names,
        services: read.services,
        request: grouping.request,
        places: grouping.places,
    };
    assert forall|i: int| 0 <= i < ids@.len() implies 0 <= #[trigger] answers.request[i]
        < made.len() && made[answers.request[i]].service_id@ == answers.services[i]@ by {}
    assert forall|r: int, i: int| 0 <= r < made.len() implies (
    #[trigger] answers.places[r].contains(i) <==> 0 <= i < ids@.len() && answers.services[i]@
        == made[r].service_id@) by {
        assert(grouping.places[r].contains(i) <==> 0 <= i < pending.len() && pending[i].service_id
            == made[r].service_id@);
        if 0 <= i < ids@.len() {
            assert(read.services[i]@ == pending[i].service_id);
        }
    }
    assert forall|r: int, j: int|
        0 <= r < made.len() && 0 <= j < answers.places[r].len() implies (
    #[trigger] made[r].ids@[j])@ == answers.names[answers.places[r][j]]@ by {
        assert(grouping.places[r].contains(grouping.places[r][j]));
        assert(read.names[grouping.places[r][j]]@ == pending[grouping.places[r][j]].id);
    }
    answers
}

/// A poll reads the store, with the given limit, and reports what it answered. Where the
/// store failed, no request is made. Where it answered ids, a request is made for each
/// service that `get_service_id` answered on one of them, character for character: no
/// service is asked twice, and each is asked for exactly what `get_id` answered on its ids,
/// in their order.
pub proof fn law_make_batch_requests<S: PendingBatchStore>(
    store: S,
    limit: usize,
    plan: PollPlan<S::Id>,
) -> (answers: PollAnswers<S::Id>)
    requires
        call_ensures(requests::make_batch_requests::<S>, (&store, limit), plan),
    ensures
        call_ensures(S::get_pending_batch_ids, (&store, limit), answers.ids),
        answers.ids matches Err(BatchError::InternalError(cause)) ==> {
            &&& plan.requests@.len() == 0
            &&& plan.event matches Event::Error(BatchError::InternalError(message))
            &&& message@ == "encountered error "@ + ("InternalError("@ + text::quoted(cause@)
                + ")"@) + " fetching pending batches"@
        },
        answers.ids matches Ok(ids) ==> {
            let made = plan.requests@;
            &&& plan.event matches Event::FetchPendingComplete { ids: reported }
            &&& reported@ == ids@
            &&& answers.names.len() == ids@.len()
            &&& answers.services.len() == ids@.len()
            &&& forall|i: int|
                0 <= i < ids@.len() ==> call_ensures(
                    <S::Id as BatchId>::get_id,
                    (&ids@[i],),
                    #[trigger] answers.names[i],
                )
            &&& forall|i: int|
                0 <= i < ids@.len() ==> call_ensures(
                    <S::Id as BatchId>::get_service_id,
                    (&ids@[i],),
                    #[trigger] answers.services[i],
                )
            &&& forall|r: int, q: int|
                0 <= r < q < made.len() ==> (#[trigger] made[r]).service_id@ != (
                #[trigger] made[q]).service_id@
            &&& answers.request.len() == ids@.len()
            &&& forall|i: int|
                0 <= i < ids@.len() ==> 0 <= #[trigger] answers.request[i] < made.len()
                    && made[answers.request[i]].service_id@ == answers.services[i]@
            &&& answers.places.len() == made.len()
            &&& forall|r: int|
                0 <= r < made.len() ==> 0 < (#[trigger] answers.places[r]).len()
                    && answers.places[r].len() == made[r].ids@.len()
            &&& forall|r: int, j: int, k: int|
                0 <= r < made.len() && 0 <= j < k < answers.places[r].len()
                    ==> #[trigger] answers.places[r][j] < #[trigger] answers.places[r][k]
            &&& forall|r: int, i: int|
                0 <= r < made.len() ==> (#[trigger] answers.places[r].contains(i) <==> 0 <= i
                    < ids@.len() && answers.services[i]@ == made[r].service_id@)
            &&& forall|r: int, j: int|
                0 <= r < made.len() && 0 <= j < answers.places[r].len()
                    ==> (#[trigger] made[r].ids@[j])@ == answers.names[answers.places[r][j]]@
        },
{
    let answer = choose|ids: BatchResult<Vec<S::Id>>| #[trigger]
        call_ensures(S::get_pending_batch_ids, (&store, limit), ids) && requests::poll_follows(
            ids,
            plan@,
        );
    match answer {
        Err(_) => {
            assert(requests::request_views(plan.requests@).len() == plan.requests@.len());
            PollAnswers {
                ids: answer,
                names: seq![],
                services: seq![],
                request: seq![],
                places: seq![],
            }
        },
        Ok(ids) => lemma_requests_for(ids, plan.requests@),
    }
}

/// Each id that the store answers is asked for, and nothing else is: some request asks the
/// service that `get_service_id` answered on the id for what `get_id` answered on it, and
/// every id of every request arises so.
pub proof fn law_every_pending_batch_is_asked_for<S: PendingBatchStore>(
    store: S,
    limit: usize,
    plan: PollPlan<S::Id>,
) -> (answers: PollAnswers<S::Id>)
    requires
        call_ensures(requests::make_batch_requests::<S>, (&store, limit), plan),
    ensures
        call_ensures(S::get_pending_batch_ids, (&store, limit), answers.ids),
        answers.ids is Err ==> plan.requests@.len() == 0,
        answers.ids matches Ok(ids) ==> {
            let made = plan.requests@;
            &&& answers.names.len() == ids@.len()
            &&& answers.services.len() == ids@.len()
            &&& forall|i: int|
                0 <= i < ids@.len() ==> call_ensures(
                    <S::Id as BatchId>::get_id,
                    (&ids@[i],),
                    #[trigger] answers.names[i],
                )
            &&& forall|i: int|
                0 <= i < ids@.len() ==> call_ensures(
                    <S::Id as BatchId>::get_service_id,
                    (&ids@[i],),
                    #[trigger] answers.services[i],
                )
            &&& forall|i: int|
                0 <= i < ids@.len() ==> {
                    let r = #[trigger] answers.request[i];
                    &&& 0 <= r < made.len()
                    &&& made[r].service_id@ == answers.services[i]@
                    &&& exists|j: int|
                        0 <= j < made[r].ids@.len() && (#[trigger] made[r].ids@[j])@
                            == answers.names[i]@
                }
            &&& forall|r: int, j: int|
                0 <= r < made.len() && 0 <= j < made[r].ids@.len() ==> {
                    let i = #[trigger] answers.places[r][j];
                    &&& 0 <= i < ids@.len()
                    &&& made[r].ids@[j]@ == answers.names[i]@
                    &&& made[r].service_id@ == answers.services[i]@
                }
        },
{
    let answers = law_make_batch_requests(store, limit, plan);
    if let Ok(ids) = answers.ids {
        let made = plan.requests@;
        assert forall|i: int| 0 <= i < ids@.len() implies ({
            let r = #[trigger] answers.request[i];
            &&& 0 <= r < made.len()
            &&& made[r].service_id@ == answers.services[i]@
            &&& exists|j: int|
                0 <= j < made[r].ids@.len() && (#[trigger] made[r].ids@[j])@
                    == answers.names[i]@
        }) by {
            let r = answers.request[i];
            let at = answers.places[r];
            assert(at.contains(i));
            let j = choose|j: int| 0 <= j < at.len() && at[j] == i;
            assert(made[r].ids@[j]@ == answers.names[i]@);
        }
        assert forall|r: int, j: int|
            0 <= r < made.len() && 0 <= j < made[r].ids@.len() implies ({
            let i = #[trigger] answers.places[r][j];
            &&& 0 <= i < ids@.len()
            &&& made[r].ids@[j]@ == answers.names[i]@
            &&& made[r].service_id@ == answers.services[i]@
        }) by {
            assert(answers.places[r].contains(answers.places[r][j]));
        }
    }
    answers
}

/// Reading the pending batches gives back what the store answered: the same error, or the
/// same ids with the requests for them.
pub proof fn law_get_batches_by_service_id<S: PendingBatchStore>(
    store: S,
    limit: usize,
    batches: BatchResult<PendingBatches<S::Id>>,
) -> (answers: PollAnswers<S::Id>)
    requires
        call_ensures(requests::get_batches_by_service_id::<S>, (&store, limit), batches),
    ensures
        call_ensures(S::get_pending_batch_ids, (&store, limit), answers.ids),
        answers.ids is Ok <==> batches is Ok,
        answers.ids matches Err(error) ==> batches->Err_0 == error,
        answers.ids matches Ok(ids) ==> {
            let made = batches->Ok_0.requests@;
            &&& batches->Ok_0.ids@ == ids@
            &&& answers.names.len() == ids@.len()
            &&& answers.services.len() == ids@.len()
            &&& forall|i: int|
                0 <= i < ids@.len() ==> call_ensures(
                    <S::Id as BatchId>::get_id,
                    (&ids@[i],),
                    #[trigger] answers.names[i],
                )
            &&& forall|i: int|
                0 <= i < ids@.len() ==> call_ensures(
                    <S::Id as BatchId>::get_service_id,
                    (&ids@[i],),
                    #[trigger] answers.services[i],
                )
            &&& forall|r: int, q: int|
                0 <= r < q < made.len() ==> (#[trigger] made[r]).service_id@ != (
                #[trigger] made[q]).service_id@
            &&& answers.request.len() == ids@.len()
            &&& forall|i: int|
                0 <= i < ids@.len() ==> 0 <= #[trigger] answers.request[i] < made.len()
                    && made[answers.request[i]].service_id@ == answers.services[i]@
            &&& answers.places.len() == made.len()
            &&& forall|r: int|
                0 <= r < made.len() ==> 0 < (#[trigger] answers.places[r]).len()
                    && answers.places[r].len() == made[r].ids@.len()
            &&& forall|r: int, j: int, k: int|
                0 <= r < made.len() && 0 <= j < k < answers.places[r].len()
                    ==> #[trigger] answers.places[r][j] < #[trigger] answers.places[r][k]
            &&& forall|r: int, i: int|
                0 <= r < made.len() ==> (#[trigger] answers.places[r].contains(i) <==> 0 <= i
                    < ids@.len() && answers.services[i]@ == made[r].service_id@)
            &&& forall|r: int, j: int|
                0 <= r < made.len() && 0 <= j < answers.places[r].len()
                    ==> (#[trigger] made[r].ids@[j])@ == answers.names[answers.places[r][j]]@
        },
{
    let answer = choose|ids: BatchResult<Vec<S::Id>>| #[trigger]
        call_ensures(S::get_pending_batch_ids, (&store, limit), ids) && match ids {
            Err(error) => batches == Err::<PendingBatches<S::Id>, BatchError>(error),
            Ok(ids) => match batches {
                Err(_) => false,
                Ok(batches) => batches.ids == ids && requests::requests_for(
                    ids@,
                    requests::request_views(batches.requests@),
                ),
            },
        };
    match answer {
        Err(_) => PollAnswers {
            ids: answer,
            names: seq![],
            services: seq![],
            request: seq![],
            places: seq![],
        },
        Ok(ids) => lemma_requests_for(ids, batches->Ok_0.requests@),
    }
}

/// What was read is reported, and its requests are made as they are; a failure is reported
/// with its error, and no request is made.
pub proof fn law_plan_poll<I: BatchId>(batches: BatchResult<PendingBatches<I>>, plan: PollPlan<I>)
    requires
        call_ensures(requests::plan_poll::<I>, (batches,), plan),
    ensures
        batches matches Err(BatchError::InternalError(cause)) ==> {
            &&& plan.requests@.len() == 0
            &&& plan.event matches Event::Error(BatchError::InternalError(message))
            &&& message@ == "encountered error "@ + ("InternalError("@ + text::quoted(cause@)
                + ")"@) + " fetching pending batches"@
        },
        batches matches Ok(batches) ==> {
            &&& plan.event matches Event::FetchPendingComplete { ids }
            &&& ids@ == batches.ids@
            &&& plan.requests@ == batches.requests@
        },
{
    assert(requests::request_views(plan.requests@).len() == plan.requests@.len());
}

/// A poll starts with as many batches as the reader has connections for, and reports that
/// it fetches what is pending.
pub proof fn law_start_poll<I: BatchId, R: BatchStatusReader>(reader: R, start: PollStart<I>)
    requires
        call_ensures(requests::start_poll::<I, R>, (&reader,), start),
    ensures
        call_ensures(R::available_connections, (&reader,), start.limit),
        start.event is FetchPending,
{
}

/// A copy of a request asks the same service for the same batches.
pub proof fn law_request_copy(request: BatchRequest, copy: BatchRequest)
    requires
        call_ensures(BatchRequest::clone, (&request,), copy),
    ensures
        copy.service_id@ == request.service_id@,
        copy.ids@.len() == request.ids@.len(),
        forall|j: int|
            0 <= j < request.ids@.len() ==> (#[trigger] copy.ids@[j])@ == request.ids@[j]@,
{
    let ids = text::texts(request.ids@);
    let copied = text::texts(copy.ids@);
    assert(ids.len() == request.ids@.len());
    assert(copied.len() == copy.ids@.len());
    assert forall|j: int| 0 <= j < request.ids@.len() implies (#[trigger] copy.ids@[j])@
        == request.ids@[j]@ by {
        assert(ids[j] == copied[j]);
    }
}

} // verus!
