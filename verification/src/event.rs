//! Handling an event on a queue of the device: which work is done, in which
//! order, and when the handling ends.
use vstd::prelude::*;

use crate::{Error, BACKEND_EVENT, EVT_QUEUE_EVENT, RX_QUEUE_EVENT, TX_QUEUE_EVENT};

verus! {

/// The next thing that the handler of an event does.
#[derive(Clone, Copy, Debug, PartialEq, Eq, Structural)]
pub enum EventAction {
    /// Tell the vsock backend of the event set.
    NotifyBackend,
    /// Process the TX queue; reports whether it did work.
    ProcessTx,
    /// Ask the vsock backend whether it holds RX data; reports the answer.
    CheckPendingRx,
    /// Process the RX queue; reports whether it did work.
    ProcessRx,
    /// Update the available-event index of the TX and then the RX queue.
    UpdateAvailEvents,
    /// Handling is over; the handler returns `Ok(false)`.
    Finish,
}

/// The handling of one event, between two actions.
#[derive(Clone, Copy, Debug)]
pub struct EventLoop {
    device_event: u16,
    event_idx: bool,
    work: bool,
    action: EventAction,
}

/// Whether `device_event` is one of the four events of the device.
pub open spec fn known_event(device_event: u16) -> bool {
    device_event == RX_QUEUE_EVENT || device_event == TX_QUEUE_EVENT || device_event
        == EVT_QUEUE_EVENT || device_event == BACKEND_EVENT
}

/// What follows the queue work of a round: with the event index, the
/// available events are updated; without it, handling ends after one round.
pub open spec fn end_of_round(event_idx: bool) -> EventAction {
    if event_idx {
        EventAction::UpdateAvailEvents
    } else {
        EventAction::Finish
    }
}

/// The first action of a round: an RX event checks for RX data, a TX event
/// processes the TX queue, a backend event notifies the backend, and an event
/// of the event queue does no queue work.
pub open spec fn first_action(device_event: u16, event_idx: bool) -> EventAction {
    if device_event == RX_QUEUE_EVENT {
        EventAction::CheckPendingRx
    } else if device_event == TX_QUEUE_EVENT {
        EventAction::ProcessTx
    } else if device_event == BACKEND_EVENT {
        EventAction::NotifyBackend
    } else {
        end_of_round(event_idx)
    }
}

/// The action and round work after the action of `state` reported `outcome`
/// (the work done by a queue, or whether RX data is pending; ignored for the
/// other actions). After the TX queue comes the RX check; RX data pending
/// leads to the RX queue; with the event index, a round that did work is
/// followed by another, one that did none ends the handling.
pub open spec fn next_state(device_event: u16, event_idx: bool, state: (EventAction, bool), outcome: bool) -> (EventAction, bool) {
    let (action, work) = state;
    match action {
        EventAction::NotifyBackend => (EventAction::ProcessTx, work),
        EventAction::ProcessTx => (EventAction::CheckPendingRx, work || outcome),
        EventAction::CheckPendingRx => if outcome {
            (EventAction::ProcessRx, work)
        } else {
            (end_of_round(event_idx), work)
        },
        EventAction::ProcessRx => (end_of_round(event_idx), work || outcome),
        EventAction::UpdateAvailEvents => if work {
            EventLoop::round_start(device_event, event_idx)
        } else {
            (EventAction::Finish, work)
        },
        EventAction::Finish => (EventAction::Finish, work),
    }
}

/// The handling after the outcomes `outcomes` were reported, one per action.
pub open spec fn run(device_event: u16, event_idx: bool, state: (EventAction, bool), outcomes: Seq<bool>) -> (EventAction, bool)
    decreases outcomes.len(),
{
    if outcomes.len() == 0 {
        state
    } else {
        run(device_event, event_idx, next_state(device_event, event_idx, state, outcomes[0]), outcomes.drop_first())
    }
}

/// Whether an action works on a virtqueue or on the vsock backend.
pub open spec fn touches_queues(a: EventAction) -> bool {
    a is NotifyBackend || a is ProcessTx || a is CheckPendingRx || a is ProcessRx
}

/// How many actions at most are left in a round without the event index.
pub open spec fn round_rank(a: EventAction) -> int {
    match a {
        EventAction::NotifyBackend => 4,
        EventAction::ProcessTx => 3,
        EventAction::CheckPendingRx => 2,
        EventAction::ProcessRx => 1,
        _ => 0,
    }
}

/// An event of the event queue does no work on a queue or the backend,
/// whatever is reported: it only updates the available events (with the
/// event index) and finishes.
pub proof fn lemma_event_queue_event_does_no_queue_work(
    event_idx: bool,
    state: (EventAction, bool),
    outcomes: Seq<bool>,
)
    requires
        state == EventLoop::round_start(EVT_QUEUE_EVENT, event_idx) || !touches_queues(state.0),
    ensures
        !touches_queues(run(EVT_QUEUE_EVENT, event_idx, state, outcomes).0),
    decreases outcomes.len(),
{
    if outcomes.len() > 0 {
        lemma_event_queue_event_does_no_queue_work(
            event_idx,
            next_state(EVT_QUEUE_EVENT, event_idx, state, outcomes[0]),
            outcomes.drop_first(),
        );
    }
}

/// Without the event index, the available events are never updated and the
/// handling of an event finishes after one round, at most four actions.
pub proof fn lemma_one_round_without_event_idx(
    device_event: u16,
    state: (EventAction, bool),
    outcomes: Seq<bool>,
)
    requires
        known_event(device_event),
        state.0 != EventAction::UpdateAvailEvents,
    ensures
        run(device_event, false, state, outcomes).0 != EventAction::UpdateAvailEvents,
        outcomes.len() >= round_rank(state.0) ==> run(device_event, false, state, outcomes).0
            == EventAction::Finish,
    decreases outcomes.len(),
{
    if outcomes.len() > 0 {
        let next = next_state(device_event, false, state, outcomes[0]);
        assert(state.0 != EventAction::Finish ==> round_rank(next.0) < round_rank(state.0));
        lemma_one_round_without_event_idx(device_event, next, outcomes.drop_first());
    }
}

/// The RX queue is processed only right after the backend reported RX data.
pub proof fn lemma_rx_only_when_pending(
    device_event: u16,
    event_idx: bool,
    state: (EventAction, bool),
    outcome: bool,
)
    ensures
        next_state(device_event, event_idx, state, outcome).0 == EventAction::ProcessRx ==> state.0
            == EventAction::CheckPendingRx && outcome,
{
}

/// With the event index, the end of a round decides: a round that did queue
/// work starts another round afresh, one that did none finishes.
pub proof fn lemma_rounds_repeat_while_working(
    device_event: u16,
    state: (EventAction, bool),
    outcome: bool,
)
    requires
        state.0 == EventAction::UpdateAvailEvents,
    ensures
        state.1 ==> next_state(device_event, true, state, outcome) == EventLoop::round_start(
            device_event,
            true,
        ),
        !state.1 ==> next_state(device_event, true, state, outcome).0 == EventAction::Finish,
{
}

/// Only a queue that reports work marks the round as having done work:
/// notifying the backend, checking for RX data and updating the available
/// events never set the mark, and the start of a new round clears it.
pub proof fn lemma_only_queue_work_marks_the_round(
    device_event: u16,
    event_idx: bool,
    state: (EventAction, bool),
    outcome: bool,
)
    ensures
        next_state(device_event, event_idx, state, outcome).1 ==> (state.1 && !(state.0
            is UpdateAvailEvents)) || (outcome && (state.0 is ProcessTx || state.0 is ProcessRx)),
{
}

/// How many actions are left at most, with the event index, when nothing
/// reports work.
pub open spec fn idle_rank(a: EventAction) -> int {
    match a {
        EventAction::NotifyBackend => 4,
        EventAction::ProcessTx => 3,
        EventAction::CheckPendingRx => 2,
        EventAction::ProcessRx => 2,
        EventAction::UpdateAvailEvents => 1,
        EventAction::Finish => 0,
    }
}

proof fn lemma_idle_run_finishes(device_event: u16, state: (EventAction, bool), outcomes: Seq<bool>)
    requires
        !state.1,
        forall|i: int| 0 <= i < outcomes.len() ==> !outcomes[i],
        outcomes.len() >= idle_rank(state.0),
    ensures
        run(device_event, true, state, outcomes).0 == EventAction::Finish,
    decreases outcomes.len(),
{
    if outcomes.len() == 0 {
    } else {
        let next = next_state(device_event, true, state, outcomes[0]);
        assert(!outcomes[0]);
        assert(!next.1);
        assert(state.0 != EventAction::Finish ==> idle_rank(next.0) < idle_rank(state.0));
        assert(state.0 == EventAction::Finish ==> next.0 == EventAction::Finish);
        assert forall|i: int| 0 <= i < outcomes.drop_first().len() implies !outcomes.drop_first()[i] by {
            assert(outcomes.drop_first()[i] == outcomes[i + 1]);
        }
        lemma_idle_run_finishes(device_event, next, outcomes.drop_first());
    }
}

/// With the event index, an event for which no queue reports work and no RX
/// data is pending is handled in one round: whatever the event, handling
/// finishes within five actions.
pub proof fn lemma_idle_event_finishes_in_one_round(device_event: u16, outcomes: Seq<bool>)
    requires
        known_event(device_event),
        forall|i: int| 0 <= i < outcomes.len() ==> !outcomes[i],
        outcomes.len() >= 5,
    ensures
        run(device_event, true, EventLoop::round_start(device_event, true), outcomes).0
            == EventAction::Finish,
{
    lemma_idle_run_finishes(device_event, EventLoop::round_start(device_event, true), outcomes);
}

/// A backend event begins every round by notifying the backend, with or
/// without the event index: at the start of the handling and at each new round.
pub proof fn lemma_backend_event_notifies_first(event_idx: bool, work: bool, outcome: bool)
    ensures
        EventLoop::round_start(BACKEND_EVENT, event_idx).0 == EventAction::NotifyBackend,
        next_state(BACKEND_EVENT, true, (EventAction::UpdateAvailEvents, true), outcome).0
            == EventAction::NotifyBackend,
        next_state(BACKEND_EVENT, event_idx, (EventAction::NotifyBackend, work), outcome)
            == (EventAction::ProcessTx, work),
{
}

/// Once finished, handling stays finished.
pub proof fn lemma_finish_is_final(
    device_event: u16,
    event_idx: bool,
    state: (EventAction, bool),
    outcomes: Seq<bool>,
)
    requires
        state.0 == EventAction::Finish,
    ensures
        run(device_event, event_idx, state, outcomes).0 == EventAction::Finish,
    decreases outcomes.len(),
{
    if outcomes.len() > 0 {
        lemma_finish_is_final(
            device_event,
            event_idx,
            next_state(device_event, event_idx, state, outcomes[0]),
            outcomes.drop_first(),
        );
    }
}

impl EventLoop {
    pub closed spec fn spec_device_event(&self) -> u16 {
        self.device_event
    }

    pub closed spec fn spec_event_idx(&self) -> bool {
        self.event_idx
    }

    /// Whether queue work was done in the current round.
    pub closed spec fn spec_work(&self) -> bool {
        self.work
    }

    pub closed spec fn spec_action(&self) -> EventAction {
        self.action
    }

    /// The handling at the start of a round.
    pub open spec fn round_start(device_event: u16, event_idx: bool) -> (EventAction, bool) {
        (first_action(device_event, event_idx), false)
    }

    /// The action and round work after the current action reported `outcome`
    /// (see `next_state`).
    pub open spec fn spec_next(&self, outcome: bool) -> (EventAction, bool) {
        next_state(
            self.spec_device_event(),
            self.spec_event_idx(),
            (self.spec_action(), self.spec_work()),
            outcome,
        )
    }

    /// Starts handling `device_event` with the event set `evset` on a thread
    /// whose event index is `event_idx`: refused unless `evset` is exactly
    /// `EPOLLIN`, then refused for an unknown event.
    pub fn start(device_event: u16, evset: u32, event_idx: bool) -> (r: Result<Self, Error>)
        ensures
            evset != 1 ==> r matches Err(Error::HandleEventNotEpollIn),
            evset == 1 && !known_event(device_event) ==> r matches Err(
                Error::HandleEventUnknownEvent,
            ),
            evset == 1 && known_event(device_event) ==> (r matches Ok(h) && h.spec_device_event()
                == device_event && h.spec_event_idx() == event_idx && (h.spec_action(), h.spec_work())
                == Self::round_start(device_event, event_idx)),
            evset == 1 && device_event == BACKEND_EVENT ==> (r matches Ok(h) && h.spec_action()
                == EventAction::NotifyBackend && !h.spec_work()),
            evset == 1 && device_event == TX_QUEUE_EVENT ==> (r matches Ok(h) && h.spec_action()
                == EventAction::ProcessTx && !h.spec_work()),
            evset == 1 && device_event == RX_QUEUE_EVENT ==> (r matches Ok(h) && h.spec_action()
                == EventAction::CheckPendingRx && !h.spec_work()),
    {
        if evset != epollin() {
            return Err(Error::HandleEventNotEpollIn);
        }
        if device_event > BACKEND_EVENT {
            return Err(Error::HandleEventUnknownEvent);
        }
        let action = if device_event == RX_QUEUE_EVENT {
            EventAction::CheckPendingRx
        } else if device_event == TX_QUEUE_EVENT {
            EventAction::ProcessTx
        } else if device_event == BACKEND_EVENT {
            EventAction::NotifyBackend
        } else if event_idx {
            EventAction::UpdateAvailEvents
        } else {
            EventAction::Finish
        };
        Ok(EventLoop { device_event, event_idx, work: false, action })
    }

    /// Whether an event with the event set `evset` is handled at all: only
    /// an event set of exactly `EPOLLIN` is.
    pub fn accepts_event_set(evset: u32) -> (b: bool)
        ensures
            b == (evset == 1),
    {
        evset == epollin()
    }

    /// The next thing to do.
    pub fn action(&self) -> (a: EventAction)
        ensures
            a == self.spec_action(),
    {
        self.action
    }

    /// Whether handling is over.
    pub fn is_finished(&self) -> (b: bool)
        ensures
            b == (self.spec_action() == EventAction::Finish),
    {
        match self.action {
            EventAction::Finish => true,
            _ => false,
        }
    }

    /// Reports the outcome of the current action and moves to the next one.
    pub fn complete(&mut self, outcome: bool)
        ensures
            (final(self).spec_action(), final(self).spec_work()) == old(self).spec_next(outcome),
            final(self).spec_device_event() == old(self).spec_device_event(),
            final(self).spec_event_idx() == old(self).spec_event_idx(),
    {
        match self.action {
            EventAction::NotifyBackend => {
                self.action = EventAction::ProcessTx;
            },
            EventAction::ProcessTx => {
                self.work = self.work || outcome;
                self.action = EventAction::CheckPendingRx;
            },
            EventAction::CheckPendingRx => {
                if outcome {
                    self.action = EventAction::ProcessRx;
                } else {
                    self.action = self.end_of_round();
                }
            },
            EventAction::ProcessRx => {
                self.work = self.work || outcome;
                self.action = self.end_of_round();
            },
            EventAction::UpdateAvailEvents => {
                if self.work {
                    self.work = false;
                    self.action = if self.device_event == RX_QUEUE_EVENT {
                        EventAction::CheckPendingRx
                    } else if self.device_event == TX_QUEUE_EVENT {
                        EventAction::ProcessTx
                    } else if self.device_event == BACKEND_EVENT {
                        EventAction::NotifyBackend
                    } else {
                        self.end_of_round()
                    };
                } else {
                    self.action = EventAction::Finish;
                }
            },
            EventAction::Finish => {},
        }
    }

    fn end_of_round(&self) -> (a: EventAction)
        ensures
            a == end_of_round(self.event_idx),
    {
        if self.event_idx {
            EventAction::UpdateAvailEvents
        } else {
            EventAction::Finish
        }
    }

    /// What the handler returns once handling is over.
    pub fn result(&self) -> (r: Result<bool, Error>)
        ensures
            r matches Ok(b) && !b,
    {
        Ok(false)
    }
}

/// The bits of `epoll::Events::EPOLLIN` (`libc::EPOLLIN`, which is 1 on Linux).
#[verifier::external_body]
fn epollin() -> (bits: u32)
    ensures
        bits == 1,
{
    epoll::Events::EPOLLIN.bits()
}

} // verus!
