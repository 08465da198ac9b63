//! What holds of a monitor from its start to its end.

use vstd::prelude::*;

use crate::base::{BatchId, BatchResult, BatchStatus, PendingBatchStore};
use crate::event;
use crate::event::Event;
use crate::laws;
use crate::monitor;
use crate::monitor::{Handle, Observer, WaitForView};
use crate::requests;
use crate::requests::{BatchRequestView, PendingView, PollPlanView};
use crate::responses;
use crate::responses::{ReportView, ResponsePlanView};

verus! {

/// One round of the loop: a wait ends, and what follows is carried out.
pub enum Round {
    /// A request was answered.
    Answered(BatchRequestView),
    /// There was a call to poll, and these requests were made.
    Polled(Seq<BatchRequestView>),
    /// There will be no more calls to poll.
    Drained,
}

impl Round {
    /// The wait that ended.
    pub open spec fn wait(self) -> WaitForView {
        match self {
            Round::Answered(request) => WaitForView::Request(request),
            Round::Polled(_) => WaitForView::Poll,
            Round::Drained => WaitForView::Poll,
        }
    }

    /// The waits that were added.
    pub open spec fn added(self) -> Seq<WaitForView> {
        match self {
            Round::Answered(_) => seq![],
            Round::Polled(requests) => monitor::poll_waits(requests),
            Round::Drained => seq![],
        }
    }
}

/// The waits that a round leaves.
pub open spec fn after_round(waits: Seq<WaitForView>, round: Round) -> Seq<WaitForView> {
    waits.remove_value(round.wait()) + round.added()
}

/// The waits that some rounds leave, from the start of the monitor.
pub open spec fn after_rounds(rounds: Seq<Round>) -> Seq<WaitForView>
    decreases rounds.len(),
{
    if rounds.len() == 0 {
        seq![WaitForView::Poll]
    } else {
        after_round(after_rounds(rounds.drop_last()), rounds.last())
    }
}

/// Whether the rounds can follow one another: each ends a wait that there was.
pub open spec fn is_run(rounds: Seq<Round>) -> bool
    decreases rounds.len(),
{
    rounds.len() > 0 ==> is_run(rounds.drop_last()) && after_rounds(rounds.drop_last()).contains(
        rounds.last().wait(),
    )
}

/// How often `wait` is waited for.
pub open spec fn count(waits: Seq<WaitForView>, wait: WaitForView) -> nat {
    waits.to_multiset().count(wait)
}

/// How often a request was made.
pub open spec fn times_made(rounds: Seq<Round>, request: BatchRequestView) -> nat
    decreases rounds.len(),
{
    if rounds.len() == 0 {
        0
    } else {
        times_made(rounds.drop_last(), request) + match rounds.last() {
            Round::Polled(requests) => requests.to_multiset().count(request),
            _ => 0,
        }
    }
}

/// How often a request was answered.
pub open spec fn times_answered(rounds: Seq<Round>, request: BatchRequestView) -> nat
    decreases rounds.len(),
{
    if rounds.len() == 0 {
        0
    } else {
        times_answered(rounds.drop_last(), request) + match rounds.last() {
            Round::Answered(answered) if answered == request => 1nat,
            _ => 0nat,
        }
    }
}

proof fn lemma_count_round(waits: Seq<WaitForView>, round: Round, wait: WaitForView)
    requires
        waits.contains(round.wait()),
    ensures
        after_round(waits, round).len() == waits.len() - 1 + round.added().len(),
        count(after_round(waits, round), wait) == count(waits, wait) - (if wait == round.wait() {
            1int
        } else {
            0int
        }) + count(round.added(), wait),
{
    broadcast use vstd::multiset::group_multiset_axioms;

    waits.index_of_first_ensures(round.wait());
    let i = waits.index_of_first(round.wait())->0;
    waits.to_multiset_ensures();
    vstd::seq_lib::lemma_multiset_commutative(waits.remove(i), round.added());
}

proof fn lemma_count_poll_waits(requests: Seq<BatchRequestView>, wait: WaitForView)
    ensures
        count(monitor::poll_waits(requests), wait) == match wait {
            WaitForView::Poll => 1,
            WaitForView::Request(request) => requests.to_multiset().count(request),
        },
    decreases requests.len(),
{
    broadcast use vstd::multiset::group_multiset_axioms;

    let waits = requests.map_values(|request: BatchRequestView| WaitForView::Request(request));
    waits.to_multiset_ensures();
    requests.to_multiset_ensures();
    if requests.len() > 0 {
        let rest = requests.drop_last();
        let rest_waits = rest.map_values(
            |request: BatchRequestView| WaitForView::Request(request),
        );
        lemma_count_poll_waits(rest, wait);
        rest_waits.to_multiset_ensures();
        rest.to_multiset_ensures();
        assert(requests == rest.push(requests.last()));
        assert(waits == rest_waits.push(WaitForView::Request(requests.last())));
    } else {
        assert(waits == Seq::<WaitForView>::empty());
        assert(requests == Seq::<BatchRequestView>::empty());
    }
}

/// A monitor waits for exactly one call to poll until there will be no more, and for
/// none afterwards.
pub proof fn law_one_listener(rounds: Seq<Round>)
    requires
        is_run(rounds),
    ensures
        count(after_rounds(rounds), WaitForView::Poll) == if rounds.contains(Round::Drained) {
            0nat
        } else {
            1nat
        },
    decreases rounds.len(),
{
    broadcast use vstd::multiset::group_multiset_axioms;

    if rounds.len() == 0 {
        Seq::<WaitForView>::empty().to_multiset_ensures();
        assert(after_rounds(rounds) == Seq::<WaitForView>::empty().push(WaitForView::Poll));
    } else {
        let rest = rounds.drop_last();
        let last = rounds.last();
        let waits = after_rounds(rest);
        law_one_listener(rest);
        assert(rounds == rest.push(last));
        crate::seqs::lemma_push_contains(rest, last);
        lemma_count_round(waits, last, WaitForView::Poll);
        waits.to_multiset_ensures();
        Seq::<WaitForView>::empty().to_multiset_ensures();
        if let Round::Polled(requests) = last {
            lemma_count_poll_waits(requests, WaitForView::Poll);
        }
    }
}

/// The loop goes round by round: what `PollingLoop::step` and, after a call to poll,
/// `PollingLoop::poll` leave is what the round leaves.
pub proof fn law_loop_goes_by_rounds<T>(
    waits: Seq<WaitForView>,
    handle: Handle<T>,
    requests: Seq<BatchRequestView>,
)
    ensures
        match handle {
            Handle::RequestResult(request, _) => waits.remove_value(handle.wait()) == after_round(
                waits,
                Round::Answered(request@),
            ),
            Handle::Poll => waits.remove_value(handle.wait()) + monitor::poll_waits(requests)
                == after_round(waits, Round::Polled(requests)),
            Handle::Drain => waits.remove_value(handle.wait()) == after_round(
                waits,
                Round::Drained,
            ),
        },
{
    match handle {
        Handle::RequestResult(request, _) => {
            assert(waits.remove_value(handle.wait()) =~= after_round(
                waits,
                Round::Answered(request@),
            ));
        },
        Handle::Poll => {},
        Handle::Drain => {
            assert(waits.remove_value(handle.wait()) =~= after_round(waits, Round::Drained));
        },
    }
}

/// A monitor does not end before there are no more calls to poll.
pub proof fn law_listening_monitor_goes_on(rounds: Seq<Round>)
    requires
        is_run(rounds),
        !rounds.contains(Round::Drained),
    ensures
        after_rounds(rounds).contains(WaitForView::Poll),
        after_rounds(rounds).len() > 0,
{
    law_one_listener(rounds);
    after_rounds(rounds).to_multiset_ensures();
}

/// A call to poll that makes no request, such as one that could not read the pending
/// batches, leaves a monitor with one call to wait for and with the answers it waited
/// for before.
pub proof fn law_empty_poll(rounds: Seq<Round>, wait: WaitForView)
    requires
        is_run(rounds),
        !rounds.contains(Round::Drained),
    ensures
        is_run(rounds.push(Round::Polled(seq![]))),
        count(after_rounds(rounds.push(Round::Polled(seq![]))), wait) == count(
            after_rounds(rounds),
            wait,
        ),
{
    let next = Round::Polled(seq![]);
    let waits = after_rounds(rounds);
    law_listening_monitor_goes_on(rounds);
    assert(rounds.push(next).drop_last() == rounds);
    lemma_count_round(waits, next, wait);
    lemma_count_poll_waits(seq![], wait);
    Seq::<BatchRequestView>::empty().to_multiset_ensures();
}

/// Once there are no more calls to poll, nothing is added: each round is the answer to
/// a request, and leaves one wait less.
pub proof fn law_drained_monitor_adds_nothing(rounds: Seq<Round>, next: Round)
    requires
        is_run(rounds.push(next)),
        rounds.contains(Round::Drained),
    ensures
        next is Answered,
        after_rounds(rounds.push(next)).len() == after_rounds(rounds).len() - 1,
{
    let waits = after_rounds(rounds);
    assert(rounds.push(next).drop_last() == rounds);
    law_one_listener(rounds);
    waits.to_multiset_ensures();
    assert(waits.contains(next.wait()));
    assert(!waits.contains(WaitForView::Poll));
    lemma_count_round(waits, next, next.wait());
}

/// Once there are no more calls to poll, a monitor ends after as many rounds as there
/// are requests without an answer, no earlier and no later.
pub proof fn law_drained_monitor_ends(rounds: Seq<Round>, more: Seq<Round>)
    requires
        is_run(rounds + more),
        rounds.contains(Round::Drained),
    ensures
        after_rounds(rounds + more).len() + more.len() == after_rounds(rounds).len(),
        after_rounds(rounds + more).len() == 0 <==> more.len() == after_rounds(rounds).len(),
    decreases more.len(),
{
    if more.len() == 0 {
        assert(rounds + more == rounds);
    } else {
        let rest = more.drop_last();
        let all = rounds + rest;
        assert(rounds + more == all.push(more.last()));
        assert((rounds + more).drop_last() == all);
        let k = choose|k: int| 0 <= k < rounds.len() && rounds[k] == Round::Drained;
        assert(all[k] == Round::Drained);
        law_drained_monitor_ends(rounds, rest);
        law_drained_monitor_adds_nothing(all, more.last());
    }
}

/// A request is waited for as often as it was made and not answered.
pub proof fn law_requests_are_waited_for(rounds: Seq<Round>, request: BatchRequestView)
    requires
        is_run(rounds),
    ensures
        count(after_rounds(rounds), WaitForView::Request(request)) + times_answered(rounds, request)
            == times_made(rounds, request),
    decreases rounds.len(),
{
    broadcast use vstd::multiset::group_multiset_axioms;

    let wait = WaitForView::Request(request);
    Seq::<WaitForView>::empty().to_multiset_ensures();
    if rounds.len() == 0 {
        assert(after_rounds(rounds) == Seq::<WaitForView>::empty().push(WaitForView::Poll));
    } else {
        let rest = rounds.drop_last();
        let last = rounds.last();
        law_requests_are_waited_for(rest, request);
        lemma_count_round(after_rounds(rest), last, wait);
        if let Round::Polled(requests) = last {
            lemma_count_poll_waits(requests, wait);
        }
    }
}

/// When a monitor ends, every request that it made has been answered, each once.
pub proof fn law_finished_monitor_has_all_answers(rounds: Seq<Round>, request: BatchRequestView)
    requires
        is_run(rounds),
        after_rounds(rounds).len() == 0,
    ensures
        rounds.contains(Round::Drained),
        times_answered(rounds, request) == times_made(rounds, request),
{
    law_requests_are_waited_for(rounds, request);
    after_rounds(rounds).to_multiset_ensures();
    assert(!after_rounds(rounds).contains(WaitForView::Request(request)));
    if !rounds.contains(Round::Drained) {
        law_listening_monitor_goes_on(rounds);
    }
}

/// Whether each poll made the requests for what was pending then: `polls` holds, for
/// each round that is a poll, the batches that the store answered.
pub open spec fn polls_made(rounds: Seq<Round>, polls: Seq<Seq<PendingView>>) -> bool {
    &&& polls.len() == rounds.len()
    &&& forall|k: int|
        0 <= k < rounds.len() ==> (#[trigger] rounds[k] matches Round::Polled(made) ==> made
            == requests::batches_by_service_id(polls[k]))
}

/// A poll makes the requests for what the store answered as pending: for what `get_id` and
/// `get_service_id` answered on its ids, or for nothing where it failed.
pub proof fn law_poll_asks_for_pending_batches<I: BatchId>(
    ids: BatchResult<Vec<I>>,
    plan: PollPlanView<I>,
)
    requires
        requests::poll_follows(ids, plan),
    ensures
        exists|pending: Seq<PendingView>|
            plan.requests == #[trigger] requests::batches_by_service_id(pending) && match ids {
                Ok(ids) => requests::reads_all(ids@, pending),
                Err(_) => pending.len() == 0,
            },
{
    match ids {
        Ok(ids) => {
            let pending = choose|pending: Seq<PendingView>| #[trigger]
                requests::reads_all(ids@, pending) && plan.requests
                    == requests::batches_by_service_id(pending);
            assert(plan.requests == requests::batches_by_service_id(pending));
        },
        Err(_) => {
            let none = Seq::<PendingView>::empty();
            assert(plan.requests =~= requests::batches_by_service_id(none));
        },
    }
}

/// Whether the store may have answered `pending` as the batches that are pending: the
/// batches are what `get_id` and `get_service_id` answered on its ids, or none where it
/// failed.
pub open spec fn reads_store<S: PendingBatchStore>(
    store: S,
    limit: usize,
    pending: Seq<PendingView>,
) -> bool {
    exists|ids: BatchResult<Vec<S::Id>>| #[trigger]
        call_ensures(S::get_pending_batch_ids, (&store, limit), ids) && match ids {
            Ok(ids) => requests::reads_all(ids@, pending),
            Err(_) => pending.len() == 0,
        }
}

/// Whether each round that is a poll carried out what `PollingLoop::poll` returned for the
/// store: `limits` and `plans` hold, for each such round, the limit and the plan.
pub open spec fn polls_store<S: PendingBatchStore>(
    rounds: Seq<Round>,
    store: S,
    limits: Seq<usize>,
    plans: Seq<PollPlanView<S::Id>>,
) -> bool {
    &&& limits.len() == rounds.len()
    &&& plans.len() == rounds.len()
    &&& forall|k: int|
        0 <= k < rounds.len() ==> (#[trigger] rounds[k] matches Round::Polled(made) ==> {
            &&& made == plans[k].requests
            &&& exists|ids: BatchResult<Vec<S::Id>>| #[trigger]
                call_ensures(S::get_pending_batch_ids, (&store, limits[k]), ids)
                    && requests::poll_follows(ids, plans[k])
        })
}

/// Where each poll carried out what `PollingLoop::poll` returned for the store, each poll
/// made the requests for what the store answered as pending then.
pub proof fn law_polls_ask_for_what_the_store_answers<S: PendingBatchStore>(
    rounds: Seq<Round>,
    store: S,
    limits: Seq<usize>,
    plans: Seq<PollPlanView<S::Id>>,
)
    requires
        polls_store(rounds, store, limits, plans),
    ensures
        exists|polls: Seq<Seq<PendingView>>| #[trigger]
            polls_made(rounds, polls) && forall|k: int|
                0 <= k < rounds.len() && #[trigger] rounds[k] is Polled ==> reads_store(
                    store,
                    limits[k],
                    polls[k],
                ),
{
    let polls = Seq::new(
        rounds.len(),
        |k: int|
            choose|pending: Seq<PendingView>|
                plans[k].requests == #[trigger] requests::batches_by_service_id(pending)
                    && reads_store(store, limits[k], pending),
    );
    assert forall|k: int| 0 <= k < rounds.len() && #[trigger] rounds[k] is Polled implies {
        &&& plans[k].requests == requests::batches_by_service_id(polls[k])
        &&& reads_store(store, limits[k], polls[k])
    } by {
        let ids = choose|ids: BatchResult<Vec<S::Id>>| #[trigger]
            call_ensures(S::get_pending_batch_ids, (&store, limits[k]), ids)
                && requests::poll_follows(ids, plans[k]);
        law_poll_asks_for_pending_batches(ids, plans[k]);
    }
    assert(polls_made(rounds, polls));
}

/// What is waited for was asked for by some poll.
proof fn lemma_waited_request_was_made(rounds: Seq<Round>, request: BatchRequestView)
    requires
        is_run(rounds),
        after_rounds(rounds).contains(WaitForView::Request(request)),
    ensures
        exists|k: int|
            0 <= k < rounds.len() && (#[trigger] rounds[k] matches Round::Polled(made)
                && made.contains(request)),
    decreases rounds.len(),
{
    let wait = WaitForView::Request(request);
    if rounds.len() == 0 {
        assert(after_rounds(rounds) == seq![WaitForView::Poll]);
    } else {
        let rest = rounds.drop_last();
        let last = rounds.last();
        let waits = after_rounds(rest);
        let kept = waits.remove_value(last.wait());
        waits.index_of_first_ensures(last.wait());
        let i = choose|i: int|
            0 <= i < after_rounds(rounds).len() && after_rounds(rounds)[i] == wait;
        if i < kept.len() {
            let gone = waits.index_of_first(last.wait())->0;
            assert(waits[if i < gone { i } else { i + 1 }] == wait);
            assert(waits.contains(wait));
            lemma_waited_request_was_made(rest, request);
            let k = choose|k: int|
                0 <= k < rest.len() && (#[trigger] rest[k] matches Round::Polled(made)
                    && made.contains(request));
            assert(rounds[k] == rest[k]);
        } else {
            assert(last.added()[i - kept.len()] == wait);
            assert(last is Polled);
            let made = last->Polled_0;
            assert(made[i - kept.len()] == request);
            assert(rounds[rounds.len() - 1] == last);
        }
    }
}

/// At any moment of a run, what the answer to a request updates is the status of a batch
/// that the store had answered as pending at the service, at a poll before, and that is
/// reported as something else than unknown.
pub proof fn law_run_updates_pending_batches<T>(
    rounds: Seq<Round>,
    polls: Seq<Seq<PendingView>>,
    request: BatchRequestView,
    reports: Seq<ReportView<T>>,
    status: T,
)
    requires
        is_run(rounds),
        polls_made(rounds, polls),
        after_rounds(rounds).contains(WaitForView::Request(request)),
        responses::statuses_to_update(request.ids, reports).contains(status),
    ensures
        exists|k: int, j: int|
            {
                &&& 0 <= k < rounds.len()
                &&& 0 <= j < reports.len()
                &&& #[trigger] rounds[k] is Polled
                &&& (#[trigger] reports[j]).status == status
                &&& !reports[j].unknown
                &&& polls[k].contains(
                    PendingView { id: reports[j].id, service_id: request.service_id },
                )
            },
{
    lemma_waited_request_was_made(rounds, request);
    let k = choose|k: int|
        0 <= k < rounds.len() && (#[trigger] rounds[k] matches Round::Polled(made)
            && made.contains(request));
    let made = requests::batches_by_service_id(polls[k]);
    let i = choose|i: int| 0 <= i < made.len() && made[i] == request;
    laws::law_updated_status_is_of_pending_batch(polls[k], i, reports, status);
    let j = choose|j: int|
        0 <= j < reports.len() && (#[trigger] reports[j]).status == status && !reports[j].unknown
            && polls[k].contains(PendingView { id: reports[j].id, service_id: request.service_id });
    assert(rounds[k] is Polled && reports[j].status == status);
}

/// A run up to some round is a run.
proof fn lemma_run_prefix(rounds: Seq<Round>, m: int)
    requires
        is_run(rounds),
        0 <= m <= rounds.len(),
    ensures
        is_run(rounds.take(m)),
        m < rounds.len() ==> after_rounds(rounds.take(m)).contains(rounds[m].wait()),
    decreases rounds.len(),
{
    if m == rounds.len() {
        assert(rounds.take(m) == rounds);
    } else if m == rounds.len() - 1 {
        assert(rounds.take(m) == rounds.drop_last());
    } else {
        lemma_run_prefix(rounds.drop_last(), m);
        assert(rounds.drop_last().take(m) == rounds.take(m));
    }
}

/// Every status that a run ever hands to the updater was sent in answer to a request for
/// the same service, answers `is_unknown` with false, and answers `get_id` with an id that
/// the store had answered as pending at that service before the request was made.
///
/// Round `m` is the answer to the request, which ended in `statuses`; `plan` is what
/// `PollingLoop::step` makes of it.
pub proof fn law_every_update_was_pending<I: BatchId, T: BatchStatus>(
    rounds: Seq<Round>,
    polls: Seq<Seq<PendingView>>,
    m: int,
    request: BatchRequestView,
    statuses: BatchResult<Vec<T>>,
    plan: ResponsePlanView<I, T>,
    status: T,
)
    requires
        is_run(rounds),
        polls_made(rounds, polls),
        0 <= m < rounds.len(),
        rounds[m] == Round::Answered(request),
        responses::follows(request.service_id, request.ids, statuses, plan),
        plan.update is Some,
        plan.update->0.statuses.contains(status),
    ensures
        plan.update->0.service_id == request.service_id,
        statuses is Ok,
        statuses->Ok_0@.contains(status),
        exists|k: int, id: Seq<char>|
            {
                &&& 0 <= k < m
                &&& rounds[k] is Polled
                &&& #[trigger] polls[k].contains(
                    PendingView { id, service_id: request.service_id },
                )
                &&& responses::reads(status, ReportView { status, id, unknown: false })
            },
{
    laws::law_update_follows_success(request.service_id, request.ids, statuses, plan);
    let sent = statuses->Ok_0@;
    let (reports, _) = responses::lemma_follows_success(
        request.service_id,
        request.ids,
        statuses->Ok_0,
        plan,
    );
    let before = rounds.take(m);
    let answered = polls.take(m);
    lemma_run_prefix(rounds, m);
    assert(polls_made(before, answered)) by {
        assert forall|k: int| 0 <= k < before.len() implies (#[trigger] before[k] matches
            Round::Polled(made) ==> made == requests::batches_by_service_id(answered[k])) by {
            assert(rounds[k] == before[k]);
        }
    }
    law_run_updates_pending_batches(before, answered, request, reports, status);
    let (k, j) = choose|k: int, j: int|
        {
            &&& 0 <= k < before.len()
            &&& 0 <= j < reports.len()
            &&& #[trigger] before[k] is Polled
            &&& (#[trigger] reports[j]).status == status
            &&& !reports[j].unknown
            &&& answered[k].contains(
                PendingView { id: reports[j].id, service_id: request.service_id },
            )
        };
    assert(responses::reads(sent[j], reports[j]));
    assert(reports[j] == ReportView { status, id: reports[j].id, unknown: false });
    assert(rounds[k] == before[k]);
    assert(polls[k].contains(PendingView { id: reports[j].id, service_id: request.service_id }));
}

/// Every status that a run ever hands to the updater answers `get_id` with an id that the
/// store of the monitor had answered as pending, at the service that sent the status, to a
/// poll before the request was made.
///
/// Round `m` is the answer to the request, which ended in `statuses`; `plan` is what
/// `PollingLoop::step` makes of it.
pub proof fn law_every_update_was_in_the_store<
    S: PendingBatchStore,
    I: BatchId,
    T: BatchStatus,
>(
    rounds: Seq<Round>,
    store: S,
    limits: Seq<usize>,
    plans: Seq<PollPlanView<S::Id>>,
    m: int,
    request: BatchRequestView,
    statuses: BatchResult<Vec<T>>,
    plan: ResponsePlanView<I, T>,
    status: T,
)
    requires
        is_run(rounds),
        polls_store(rounds, store, limits, plans),
        0 <= m < rounds.len(),
        rounds[m] == Round::Answered(request),
        responses::follows(request.service_id, request.ids, statuses, plan),
        plan.update is Some,
        plan.update->0.statuses.contains(status),
    ensures
        exists|k: int, pending: Seq<PendingView>, id: Seq<char>|
            {
                &&& 0 <= k < m
                &&& rounds[k] is Polled
                &&& #[trigger] reads_store(store, limits[k], pending)
                &&& #[trigger] pending.contains(PendingView { id, service_id: request.service_id })
                &&& responses::reads(status, ReportView { status, id, unknown: false })
            },
{
    law_polls_ask_for_what_the_store_answers(rounds, store, limits, plans);
    let polls = choose|polls: Seq<Seq<PendingView>>| #[trigger]
        polls_made(rounds, polls) && forall|k: int|
            0 <= k < rounds.len() && #[trigger] rounds[k] is Polled ==> reads_store(
                store,
                limits[k],
                polls[k],
            );
    law_every_update_was_pending(rounds, polls, m, request, statuses, plan, status);
    let (k, id) = choose|k: int, id: Seq<char>|
        {
            &&& 0 <= k < m
            &&& rounds[k] is Polled
            &&& #[trigger] polls[k].contains(PendingView { id, service_id: request.service_id })
            &&& responses::reads(status, ReportView { status, id, unknown: false })
        };
    assert(reads_store(store, limits[k], polls[k]));
}

/// When several events were handed to `Notifier::notify`, one after the other, each
/// observer was handed a clone of each event, in the order of the events. Where a clone is
/// equal to what it was made of, each observer was handed the events themselves.
///
/// `notified[k]` is what the observers answered to `events[k]`.
pub proof fn law_observers_follow_events<O: Observer>(
    observers: Seq<O>,
    events: Seq<O::Event>,
    notified: Seq<Seq<O::Notified>>,
    i: int,
)
    requires
        0 <= i < observers.len(),
        notified.len() == events.len(),
        forall|k: int|
            0 <= k < events.len() ==> monitor::notifies_all(
                observers,
                #[trigger] events[k],
                notified[k],
            ),
    ensures
        exists|copies: Seq<O::Event>| #[trigger]
            monitor::receives(observers[i], copies, monitor::answers_of(notified, i))
                && monitor::clones(events, copies),
        (forall|event: O::Event, copy: O::Event| #[trigger]
            vstd::pervasive::strictly_cloned(event, copy) ==> copy == event) ==> monitor::receives(
            observers[i],
            events,
            monitor::answers_of(notified, i),
        ),
{
    let answers = monitor::answers_of(notified, i);
    let copies = Seq::new(
        events.len(),
        |k: int|
            choose|copy: O::Event| #[trigger]
                call_ensures(O::notify, (&observers[i], copy), notified[k][i])
                    && vstd::pervasive::strictly_cloned(events[k], copy),
    );
    assert forall|k: int| 0 <= k < events.len() implies call_ensures(
        O::notify,
        (&observers[i], #[trigger] copies[k]),
        answers[k],
    ) && vstd::pervasive::strictly_cloned(events[k], copies[k]) by {
        assert(monitor::notifies_all(observers, events[k], notified[k]));
        assert(monitor::notifies(observers[i], events[k], notified[k][i]));
    }
    assert(monitor::receives(observers[i], copies, answers) && monitor::clones(events, copies));
    if forall|event: O::Event, copy: O::Event| #[trigger]
        vstd::pervasive::strictly_cloned(event, copy) ==> copy == event {
        assert(copies =~= events);
    }
}

/// When several events of a monitor were handed to `Notifier::notify`, one after the other,
/// each observer was handed all of them, in their order, and each as it was: only the ids of
/// pending batches are clones.
///
/// `notified[k]` is what the observers answered to `events[k]`.
pub proof fn law_observers_follow_monitor<I: BatchId, O: Observer<Event = Event<I>>>(
    observers: Seq<O>,
    events: Seq<Event<I>>,
    notified: Seq<Seq<O::Notified>>,
    i: int,
)
    requires
        0 <= i < observers.len(),
        notified.len() == events.len(),
        forall|k: int|
            0 <= k < events.len() ==> monitor::notifies_all(
                observers,
                #[trigger] events[k],
                notified[k],
            ),
    ensures
        exists|received: Seq<Event<I>>|
            {
                &&& #[trigger] monitor::receives(
                    observers[i],
                    received,
                    monitor::answers_of(notified, i),
                )
                &&& received.len() == events.len()
                &&& forall|k: int|
                    0 <= k < events.len() ==> event::copies(
                        (#[trigger] events[k])@,
                        received[k]@,
                    )
            },
{
    law_observers_follow_events(observers, events, notified, i);
    let received = choose|received: Seq<Event<I>>| #[trigger]
        monitor::receives(observers[i], received, monitor::answers_of(notified, i))
            && monitor::clones(events, received);
    assert forall|k: int| 0 <= k < events.len() implies event::copies(
        (#[trigger] events[k])@,
        received[k]@,
    ) by {
        assert(vstd::pervasive::strictly_cloned(events[k], received[k]));
    }
}

} // verus!
