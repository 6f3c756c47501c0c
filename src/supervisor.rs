//! The reconnect decisions for one endpoint.
//!
//! Each endpoint has its own supervisor, so one endpoint that gives up leaves
//! the others untouched. A failure counter grows over an unbroken streak of
//! failed connects and lost connections, and goes back to zero on every
//! successful connect; once a failure would take it past the configured
//! maximum, the endpoint is given up for good.

use vstd::prelude::*;

verus! {

/// What happened to the endpoint since the last decision.
#[derive(Debug, Clone, Copy, PartialEq, Eq, Structural)]
pub enum ConnectEvent {
    /// A connect attempt succeeded.
    Connected,
    /// A connect attempt failed.
    ConnectFailed,
    /// A live connection ended: read error, read timeout or end of stream.
    ConnectionLost,
}

/// What to do next for the endpoint.
#[derive(Debug, Clone, Copy, PartialEq, Eq, Structural)]
pub enum SupervisorAction {
    /// Run the read loop on the connection just made.
    RunConnection,
    /// Wait the reconnect delay, then try to connect again.
    RetryAfterDelay,
    /// Stop trying this endpoint.
    GiveUp,
}

#[derive(Debug, Clone, Copy, PartialEq, Eq, Structural)]
pub struct EndpointSupervisor {
    pub max_reconnect_attempts: usize,
    pub failures: usize,
    pub stopped: bool,
}

impl EndpointSupervisor {
    pub open spec fn wf(self) -> bool {
        self.failures <= self.max_reconnect_attempts
    }
}

/// A supervisor that has not tried its endpoint yet.
pub open spec fn fresh(max_reconnect_attempts: usize) -> EndpointSupervisor {
    EndpointSupervisor { max_reconnect_attempts, failures: 0, stopped: false }
}

/// One decision: the next state and the action.
pub open spec fn step(s: EndpointSupervisor, event: ConnectEvent) -> (
    EndpointSupervisor,
    SupervisorAction,
) {
    if s.stopped {
        (s, SupervisorAction::GiveUp)
    } else {
        match event {
            ConnectEvent::Connected => (
                EndpointSupervisor { failures: 0, ..s },
                SupervisorAction::RunConnection,
            ),
            _ => if s.failures >= s.max_reconnect_attempts {
                (EndpointSupervisor { stopped: true, ..s }, SupervisorAction::GiveUp)
            } else {
                (
                    EndpointSupervisor { failures: (s.failures + 1) as usize, ..s },
                    SupervisorAction::RetryAfterDelay,
                )
            },
        }
    }
}

/// The state after a run of events, and the action taken after each.
pub open spec fn run(s: EndpointSupervisor, events: Seq<ConnectEvent>) -> (
    EndpointSupervisor,
    Seq<SupervisorAction>,
)
    decreases events.len(),
{
    if events.len() == 0 {
        (s, Seq::empty())
    } else {
        let (mid, actions) = run(s, events.drop_last());
        let (last, action) = step(mid, events.last());
        (last, actions.push(action))
    }
}

/// `n` failed connect attempts in a row.
pub open spec fn failed_attempts(n: nat) -> Seq<ConnectEvent> {
    Seq::new(n, |i: int| ConnectEvent::ConnectFailed)
}

impl EndpointSupervisor {
    pub fn new(max_reconnect_attempts: usize) -> (r: Self)
        ensures
            r == fresh(max_reconnect_attempts),
            r.wf(),
    {
        EndpointSupervisor { max_reconnect_attempts, failures: 0, stopped: false }
    }

    /// Decides what to do after `event`.
    pub fn on_event(&mut self, event: ConnectEvent) -> (r: SupervisorAction)
        ensures
            (*final(self), r) == step(*old(self), event),
            old(self).wf() ==> final(self).wf(),
    {
        if self.stopped {
            return SupervisorAction::GiveUp;
        }
        match event {
            ConnectEvent::Connected => {
                self.failures = 0;
                SupervisorAction::RunConnection
            },
            _ => {
                if self.failures >= self.max_reconnect_attempts {
                    self.stopped = true;
                    SupervisorAction::GiveUp
                } else {
                    self.failures = self.failures + 1;
                    SupervisorAction::RetryAfterDelay
                }
            },
        }
    }
}

proof fn lemma_failures_within_budget(max: usize, k: nat)
    requires
        k <= max,
    ensures
        run(fresh(max), failed_attempts(k)).0 == (EndpointSupervisor {
            max_reconnect_attempts: max,
            failures: k as usize,
            stopped: false,
        }),
        run(fresh(max), failed_attempts(k)).1 == Seq::new(
            k,
            |i: int| SupervisorAction::RetryAfterDelay,
        ),
    decreases k,
{
    if k > 0 {
        assert(failed_attempts(k).drop_last() =~= failed_attempts((k - 1) as nat));
        lemma_failures_within_budget(max, (k - 1) as nat);
        assert(run(fresh(max), failed_attempts(k)).1 =~= Seq::new(
            k,
            |i: int| SupervisorAction::RetryAfterDelay,
        ));
    } else {
        assert(run(fresh(max), failed_attempts(k)).1 =~= Seq::new(
            k,
            |i: int| SupervisorAction::RetryAfterDelay,
        ));
    }
}

proof fn lemma_stopped_stays(s: EndpointSupervisor, events: Seq<ConnectEvent>)
    requires
        s.stopped,
    ensures
        run(s, events).0 == s,
        forall|i: int|
            0 <= i < events.len() ==> #[trigger] run(s, events).1[i] == SupervisorAction::GiveUp,
        run(s, events).1.len() == events.len(),
    decreases events.len(),
{
    if events.len() > 0 {
        lemma_stopped_stays(s, events.drop_last());
    }
}

/// An endpoint that fails to connect `max_reconnect_attempts + 1` times in a
/// row from a fresh start is retried after each of the first
/// `max_reconnect_attempts` failures and given up at the last one; after
/// that, whatever happens, it is never tried again.
pub proof fn lemma_gives_up_after_budget(max: usize, later: Seq<ConnectEvent>)
    ensures
        ({
            let (s, actions) = run(fresh(max), failed_attempts((max + 1) as nat));
            &&& actions.len() == max + 1
            &&& forall|i: int| 0 <= i < max ==> actions[i] == SupervisorAction::RetryAfterDelay
            &&& actions[max as int] == SupervisorAction::GiveUp
            &&& s.stopped
            &&& forall|i: int|
                0 <= i < later.len() ==> #[trigger] run(s, later).1[i]
                    == SupervisorAction::GiveUp
        }),
{
    let events = failed_attempts((max + 1) as nat);
    assert(events.drop_last() =~= failed_attempts(max as nat));
    lemma_failures_within_budget(max, max as nat);
    let s = run(fresh(max), events).0;
    lemma_stopped_stays(s, later);
}

} // verus!
