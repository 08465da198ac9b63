//! The loop that drives the monitor, and the observers that follow it.

use vstd::prelude::*;

use crate::base::{
    BatchId, BatchResult, BatchStatus, BatchStatusReader, BatchUpdater, PendingBatchStore,
};
use crate::event::Event;
use crate::requests;
use crate::requests::{BatchRequest, BatchRequestView, PollPlan};
use crate::responses;
use crate::responses::ResponsePlan;
use crate::text;

verus! {

/// Someone who follows the steps of the monitor.
pub trait Observer {
    type Event: Clone;

    /// A notification that is under way, to be awaited.
    type Notified;

    fn notify(&self, event: Self::Event) -> Self::Notified;
}

/// The observers of a monitor.
pub struct Notifier<O: Observer> {
    observers: Vec<O>,
}

impl<O: Observer> View for Notifier<O> {
    type V = Seq<O>;

    closed spec fn view(&self) -> Seq<O> {
        self.observers@
    }
}

/// Whether `notified` is what `observer` may answer on a clone of `event`.
pub open spec fn notifies<O: Observer>(
    observer: O,
    event: O::Event,
    notified: O::Notified,
) -> bool {
    exists|copy: O::Event| #[trigger]
        call_ensures(O::notify, (&observer, copy), notified) && vstd::pervasive::strictly_cloned(
            event,
            copy,
        )
}

/// Whether `notified` is what `observers` may answer on clones of `event`, one by one
/// and in their order.
pub open spec fn notifies_all<O: Observer>(
    observers: Seq<O>,
    event: O::Event,
    notified: Seq<O::Notified>,
) -> bool {
    &&& notified.len() == observers.len()
    &&& forall|i: int|
        0 <= i < observers.len() ==> notifies(#[trigger] observers[i], event, notified[i])
}

/// Whether `received` was handed to `observer`, one by one, with `answers` as what it
/// may have answered.
pub open spec fn receives<O: Observer>(
    observer: O,
    received: Seq<O::Event>,
    answers: Seq<O::Notified>,
) -> bool {
    &&& received.len() == answers.len()
    &&& forall|k: int|
        0 <= k < received.len() ==> #[trigger] call_ensures(
            O::notify,
            (&observer, received[k]),
            answers[k],
        )
}

/// Whether `copies` are clones of `events`, one by one and in their order.
pub open spec fn clones<E: Clone>(events: Seq<E>, copies: Seq<E>) -> bool {
    &&& copies.len() == events.len()
    &&& forall|k: int|
        0 <= k < events.len() ==> vstd::pervasive::strictly_cloned(
            #[trigger] events[k],
            copies[k],
        )
}

/// What an observer answered to each of several notifications.
pub open spec fn answers_of<N>(notified: Seq<Seq<N>>, observer: int) -> Seq<N> {
    notified.map_values(|answers: Seq<N>| answers[observer])
}

impl<O: Observer> Notifier<O> {
    pub fn new(observers: Vec<O>) -> (notifier: Self)
        ensures
            notifier@ == observers@,
    {
        Notifier { observers }
    }

    /// Hands each observer a clone of the event. The notifications come back in the
    /// order of the observers, for the caller to await all of them.
    pub fn notify(&self, event: O::Event) -> (notified: Vec<O::Notified>)
        ensures
            notifies_all(self@, event, notified@),
    {
        let mut notified: Vec<O::Notified> = Vec::new();
        let mut i: usize = 0;
        while i < self.observers.len()
            invariant
                i <= self.observers.len(),
                notified@.len() == i,
                forall|j: int|
                    0 <= j < i ==> notifies(self.observers@[j], event, #[trigger] notified@[j]),
            decreases self.observers.len() - i,
        {
            notified.push(self.observers[i].notify(event.clone()));
            i = i + 1;
        }
        notified
    }
}

/// What a monitor works with.
pub struct PollingMonitorAssets<Obs, Store, Reader, Updater> where
    Obs: Observer<Event = Event<Store::Id>>,
    Store: PendingBatchStore,
    Reader: BatchStatusReader,
    Updater: BatchUpdater<Status = Reader::Status>,
 {
    pub store: Store,
    pub reader: Reader,
    pub updater: Updater,
    pub notifier: Notifier<Obs>,
}

/// Makes the assets of a monitor, on the thread that the monitor runs on.
pub trait PollingMonitorAssetBuilder: Send {
    type Id: BatchId;

    type Status: BatchStatus;

    type Observer: Observer<Event = Event<Self::Id>>;

    type Store: PendingBatchStore<Id = Self::Id>;

    type Reader: BatchStatusReader<Status = Self::Status>;

    type Updater: BatchUpdater<Status = Self::Status>;

    fn build(self) -> PollingMonitorAssets<
        Self::Observer,
        Self::Store,
        Self::Reader,
        Self::Updater,
    >;
}

/// What the monitor waits for.
pub enum WaitFor {
    /// The answer to a request for statuses.
    Request(BatchRequest),
    /// A call to poll, from outside.
    Poll,
}

#[verifier::ext_equal]
pub enum WaitForView {
    Request(BatchRequestView),
    Poll,
}

impl View for WaitFor {
    type V = WaitForView;

    open spec fn view(&self) -> WaitForView {
        match self {
            WaitFor::Request(request) => WaitForView::Request(request@),
            WaitFor::Poll => WaitForView::Poll,
        }
    }
}

/// The views of a sequence of waits.
pub open spec fn wait_views(waits: Seq<WaitFor>) -> Seq<WaitForView> {
    waits.map_values(|wait: WaitFor| wait@)
}

/// How a wait ended.
pub enum Handle<T> {
    /// A request was answered.
    RequestResult(BatchRequest, BatchResult<Vec<T>>),
    /// There was a call to poll.
    Poll,
    /// There will be no more calls to poll.
    Drain,
}

impl<T> Handle<T> {
    /// The wait that ended.
    pub open spec fn wait(self) -> WaitForView {
        match self {
            Handle::RequestResult(request, _) => WaitForView::Request(request@),
            Handle::Poll => WaitForView::Poll,
            Handle::Drain => WaitForView::Poll,
        }
    }

    /// How the wait for a call to poll ended: with a call, or with the channel closed.
    pub fn from_signal(signal: Option<()>) -> (handle: Handle<T>)
        ensures
            handle == match signal {
                Some(()) => Handle::<T>::Poll,
                None => Handle::<T>::Drain,
            },
    {
        match signal {
            Some(()) => Handle::Poll,
            None => Handle::Drain,
        }
    }
}

/// What is to be done once a wait ended.
pub enum Step<I: BatchId, T> {
    /// Carry out what follows from a response.
    Respond(ResponsePlan<I, T>),
    /// Poll: read the pending batches and make requests for them.
    Poll,
    /// Nothing: there are only the remaining waits to wait for.
    Drain,
}

/// Compares two requests.
fn same_request(a: &BatchRequest, b: &BatchRequest) -> (same: bool)
    ensures
        same == (a@ == b@),
{
    if a.service_id != b.service_id {
        return false;
    }
    if a.ids.len() != b.ids.len() {
        assert(a@.ids.len() != b@.ids.len());
        return false;
    }
    let mut i: usize = 0;
    while i < a.ids.len()
        invariant
            i <= a.ids.len(),
            a.ids.len() == b.ids.len(),
            forall|j: int| 0 <= j < i ==> (#[trigger] a.ids@[j])@ == b.ids@[j]@,
        decreases a.ids.len() - i,
    {
        if a.ids[i] != b.ids[i] {
            assert(a@.ids[i as int] != b@.ids[i as int]);
            return false;
        }
        i = i + 1;
    }
    assert(a@ =~~= b@);
    true
}

/// The waits of a monitor that have not ended.
pub struct PollingLoop {
    unfinished: Vec<WaitFor>,
}

impl View for PollingLoop {
    type V = Seq<WaitForView>;

    closed spec fn view(&self) -> Seq<WaitForView> {
        wait_views(self.unfinished@)
    }
}

/// The waits that a poll adds: for the answer to each request, and for the next call.
pub open spec fn poll_waits(requests: Seq<BatchRequestView>) -> Seq<WaitForView> {
    requests.map_values(|request: BatchRequestView| WaitForView::Request(request)).push(
        WaitForView::Poll,
    )
}

impl PollingLoop {
    /// A monitor starts by waiting for a call to poll.
    pub fn new() -> (polling: PollingLoop)
        ensures
            polling@ == seq![WaitForView::Poll],
    {
        let mut unfinished: Vec<WaitFor> = Vec::new();
        unfinished.push(WaitFor::Poll);
        let polling = PollingLoop { unfinished };
        assert(polling@ =~= seq![WaitForView::Poll]);
        polling
    }

    /// A monitor ends when there is nothing left to wait for.
    pub fn is_finished(&self) -> (finished: bool)
        ensures
            finished == (self@.len() == 0),
    {
        self.unfinished.is_empty()
    }

    /// Takes out the first wait that `handle` ends, if there is one.
    fn finish<T>(&mut self, handle: &Handle<T>)
        ensures
            final(self)@ == old(self)@.remove_value(handle.wait()),
    {
        let ghost waits = self@;
        let mut i: usize = 0;
        while i < self.unfinished.len()
            invariant
                i <= self.unfinished.len(),
                self@ == waits,
                *self == *old(self),
                forall|j: int| 0 <= j < i ==> #[trigger] waits[j] != handle.wait(),
            decreases self.unfinished.len() - i,
        {
            let ends = match (&self.unfinished[i], handle) {
                (WaitFor::Request(asked), Handle::RequestResult(answered, _)) => same_request(
                    asked,
                    answered,
                ),
                (WaitFor::Poll, Handle::Poll) => true,
                (WaitFor::Poll, Handle::Drain) => true,
                _ => false,
            };
            assert(ends == (waits[i as int] == handle.wait()));
            if ends {
                let _ = self.unfinished.remove(i);
                proof {
                    assert(waits.contains(handle.wait()));
                    waits.index_of_first_ensures(handle.wait());
                    assert(waits.index_of_first(handle.wait()) == Some(i as int));
                    assert(self@ =~= waits.remove(i as int));
                }
                return ;
            }
            i = i + 1;
        }
        proof {
            assert(!waits.contains(handle.wait()));
            waits.index_of_first_ensures(handle.wait());
        }
    }

    /// Decides what follows from the end of a wait.
    pub fn step<I: BatchId, T: BatchStatus>(&mut self, handle: Handle<T>) -> (step: Step<I, T>)
        ensures
            final(self)@ == old(self)@.remove_value(handle.wait()),
            match (handle, step) {
                (Handle::RequestResult(request, statuses), Step::Respond(plan)) =>
                    responses::follows(
                        request.service_id@,
                        text::texts(request.ids@),
                        statuses,
                        plan@,
                    ),
                (Handle::Poll, Step::Poll) => true,
                (Handle::Drain, Step::Drain) => true,
                _ => false,
            },
            handle matches Handle::RequestResult(request, statuses) ==> exists|ids: &[String]|
                ids@ == request.ids@ && #[trigger] call_ensures(
                    responses::handle_response::<I, T>,
                    (request.service_id, ids, statuses),
                    step->Respond_0,
                ),
    {
        self.finish(&handle);
        match handle {
            Handle::RequestResult(request, statuses) => Step::Respond(
                responses::handle_response(request.service_id, request.ids.as_slice(), statuses),
            ),
            Handle::Poll => Step::Poll,
            Handle::Drain => Step::Drain,
        }
    }

    /// After a poll: waits for the answers to the requests, and for the next call.
    pub fn wait_for_answers(&mut self, requests: &[BatchRequest])
        ensures
            final(self)@ == old(self)@ + poll_waits(requests::request_views(requests@)),
    {
        let ghost waits = self@;
        let ghost asked = requests::request_views(requests@);
        let mut i: usize = 0;
        assert(self@ =~= waits + poll_waits(asked).take(0));
        while i < requests.len()
            invariant
                i <= requests.len(),
                asked == requests::request_views(requests@),
                self@ == waits + poll_waits(asked).take(i as int),
            decreases requests.len() - i,
        {
            let ghost before = self@;
            let request = requests[i].clone();
            self.unfinished.push(WaitFor::Request(request));
            assert(self@ =~= before.push(WaitForView::Request(asked[i as int])));
            assert(self@ =~= waits + poll_waits(asked).take(i + 1));
            i = i + 1;
        }
        let ghost before = self@;
        self.unfinished.push(WaitFor::Poll);
        assert(self@ =~= before.push(WaitForView::Poll));
        assert(self@ =~= waits + poll_waits(asked));
    }

    /// Polls: reads the pending batches, and waits for the answers to the requests that
    /// are made for them, and for the next call.
    pub fn poll<S: PendingBatchStore>(&mut self, store: &S, limit: usize) -> (plan: PollPlan<S::Id>)
        ensures
            exists|ids: BatchResult<Vec<S::Id>>| #[trigger]
                call_ensures(S::get_pending_batch_ids, (store, limit), ids)
                    && requests::poll_follows(ids, plan@),
            call_ensures(requests::make_batch_requests::<S>, (store, limit), plan),
            final(self)@ == old(self)@ + poll_waits(plan@.requests),
    {
        let plan = requests::make_batch_requests(store, limit);
        self.wait_for_answers(plan.requests.as_slice());
        plan
    }
}

} // verus!
