//! What the functions of the loop and of the observers return.

use vstd::prelude::*;

use crate::base::BatchId;
use crate::monitor;
use crate::monitor::{Handle, Notifier, Observer, PollingLoop, WaitForView};
use crate::requests::PollPlan;
use crate::text;

verus! {

/// Each observer of a notifier is handed a clone of the event, and each in its place answers.
///
/// `copies` are the clones.
pub proof fn law_notify<O: Observer>(
    observers: Vec<O>,
    notifier: Notifier<O>,
    event: O::Event,
    notified: Vec<O::Notified>,
) -> (copies: Seq<O::Event>)
    requires
        call_ensures(Notifier::<O>::new, (observers,), notifier),
        call_ensures(Notifier::<O>::notify, (&notifier, event), notified),
    ensures
        notified@.len() == observers@.len(),
        copies.len() == observers@.len(),
        forall|i: int|
            0 <= i < observers@.len() ==> {
                &&& call_ensures(O::notify, (&observers@[i], #[trigger] copies[i]), notified@[i])
                &&& vstd::pervasive::strictly_cloned(event, copies[i])
            },
{
    let copies = Seq::new(
        observers@.len(),
        |i: int|
            choose|copy: O::Event| #[trigger]
                call_ensures(O::notify, (&observers@[i], copy), notified@[i])
                    && vstd::pervasive::strictly_cloned(event, copy),
    );
    assert forall|i: int| 0 <= i < observers@.len() implies call_ensures(
        O::notify,
        (&observers@[i], #[trigger] copies[i]),
        notified@[i],
    ) && vstd::pervasive::strictly_cloned(event, copies[i]) by {
        assert(monitor::notifies(observers@[i], event, notified@[i]));
    }
    copies
}

/// A new monitor is not finished.
pub proof fn law_new_monitor_is_not_finished(polling: PollingLoop, finished: bool)
    requires
        call_ensures(PollingLoop::new, (), polling),
        call_ensures(PollingLoop::is_finished, (&polling,), finished),
    ensures
        !finished,
        polling@.len() == 1,
        polling@[0] is Poll,
{
}

/// A poll adds a wait for the answer to each of its requests, in their order, and then one
/// for the next call, and no other.
pub proof fn law_poll_waits<I: BatchId>(plan: PollPlan<I>)
    ensures
        monitor::poll_waits(plan@.requests).len() == plan.requests@.len() + 1,
        monitor::poll_waits(plan@.requests)[plan.requests@.len() as int] is Poll,
        forall|r: int|
            0 <= r < plan.requests@.len() ==> {
                let wait = #[trigger] monitor::poll_waits(plan@.requests)[r];
                &&& wait is Request
                &&& wait->Request_0.service_id == plan.requests@[r].service_id@
                &&& wait->Request_0.ids.len() == plan.requests@[r].ids@.len()
                &&& forall|j: int|
                    0 <= j < wait->Request_0.ids.len() ==> #[trigger] wait->Request_0.ids[j]
                        == plan.requests@[r].ids@[j]@
            },
{
    let asked = plan@.requests;
    assert(asked.len() == plan.requests@.len());
    assert forall|r: int| 0 <= r < plan.requests@.len() implies ({
        let wait = #[trigger] monitor::poll_waits(plan@.requests)[r];
        &&& wait is Request
        &&& wait->Request_0.service_id == plan.requests@[r].service_id@
        &&& wait->Request_0.ids.len() == plan.requests@[r].ids@.len()
        &&& forall|j: int|
            0 <= j < wait->Request_0.ids.len() ==> #[trigger] wait->Request_0.ids[j]
                == plan.requests@[r].ids@[j]@
    }) by {
        let wait = monitor::poll_waits(asked)[r];
        assert(wait == WaitForView::Request(asked[r]));
        assert(asked[r] == plan.requests@[r]@);
        assert(asked[r].ids == text::texts(plan.requests@[r].ids@));
    }
}

/// An answer ends a wait for its own request alone; a call to poll, and the end of such
/// calls, ends a wait for a call.
pub proof fn law_ended_wait<T>(handle: Handle<T>)
    ensures
        match handle {
            Handle::RequestResult(request, _) => {
                &&& handle.wait() is Request
                &&& handle.wait()->Request_0.service_id == request.service_id@
                &&& handle.wait()->Request_0.ids.len() == request.ids@.len()
                &&& forall|j: int|
                    0 <= j < request.ids@.len() ==> #[trigger] handle.wait()->Request_0.ids[j]
                        == request.ids@[j]@
            },
            Handle::Poll => handle.wait() is Poll,
            Handle::Drain => handle.wait() is Poll,
        },
{
}

/// A call on the channel makes a monitor poll, and the end of the channel drains it.
pub proof fn law_signal<T>(signal: Option<()>, handle: Handle<T>)
    requires
        call_ensures(Handle::<T>::from_signal, (signal,), handle),
    ensures
        signal is Some <==> handle is Poll,
        signal is None <==> handle is Drain,
{
}

} // verus!
