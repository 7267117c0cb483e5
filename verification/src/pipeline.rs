//! The ingestion pipeline's control logic: the cooperative stop flag and
//! the consumer task's state machine. The consumer drains a FIFO queue of
//! datasets; it never polls the stop flag itself, it only reacts to the
//! queue being closed by its producer.

use vstd::prelude::*;

verus! {

/// The cooperative stop signal: starts unset, is set at most effectively
/// once (setting it again changes nothing), and never resets.
pub struct CancellationToken {
    pub requested: bool,
}

impl CancellationToken {
    /// A fresh token: stop not requested.
    pub fn new() -> (r: CancellationToken)
        ensures
            !r.requested,
    {
        CancellationToken { requested: false }
    }

    /// Requests a stop. The token stays set whatever it held before.
    pub fn request_stop(&mut self)
        ensures
            final(self).requested,
    {
        self.requested = true;
    }

    /// Whether a stop has been requested.
    pub fn is_stop_requested(&self) -> (r: bool)
        ensures
            r == self.requested,
    {
        self.requested
    }
}

/// The consumer task's lifecycle.
#[derive(Clone, Copy, PartialEq, Eq, Structural, Debug)]
pub enum ConsumerState {
    /// Draining the queue, blocking when it is empty.
    Running,
    /// The producer closed the queue; finishing what is still in flight.
    Draining,
    /// Terminal: the task exits.
    Stopped,
}

/// What the queue reports to the consumer on one receive attempt.
#[derive(Clone, Copy, PartialEq, Eq, Structural, Debug)]
pub enum QueueEvent {
    /// A dataset arrived.
    Received,
    /// The queue is closed and holds nothing more.
    Closed,
}

/// What the consumer does in reaction.
#[derive(Clone, Copy, PartialEq, Eq, Structural, Debug)]
pub enum ConsumerAction {
    /// Run the engine on the delivered dataset and install the result.
    Process,
    /// Nothing to do.
    Idle,
}

/// How far a state is from `Stopped`; the consumer only moves toward 0.
pub open spec fn consumer_rank(s: ConsumerState) -> int {
    match s {
        ConsumerState::Running => 2,
        ConsumerState::Draining => 1,
        ConsumerState::Stopped => 0,
    }
}

/// The consumer's transition function: delivered items are processed in
/// arrival order; queue closure moves the task toward `Stopped`, which is
/// terminal.
pub open spec fn spec_consumer_step(s: ConsumerState, e: QueueEvent) -> (ConsumerState, ConsumerAction) {
    match (s, e) {
        (ConsumerState::Running, QueueEvent::Received) => (
            ConsumerState::Running,
            ConsumerAction::Process,
        ),
        (ConsumerState::Running, QueueEvent::Closed) => (
            ConsumerState::Draining,
            ConsumerAction::Idle,
        ),
        (ConsumerState::Draining, QueueEvent::Received) => (
            ConsumerState::Draining,
            ConsumerAction::Process,
        ),
        (ConsumerState::Draining, QueueEvent::Closed) => (
            ConsumerState::Stopped,
            ConsumerAction::Idle,
        ),
        (ConsumerState::Stopped, _) => (ConsumerState::Stopped, ConsumerAction::Idle),
    }
}

/// One step of the consumer task.
pub fn consumer_step(s: ConsumerState, e: QueueEvent) -> (r: (ConsumerState, ConsumerAction))
    ensures
        r == spec_consumer_step(s, e),
{
    match (s, e) {
        (ConsumerState::Running, QueueEvent::Received) => (
            ConsumerState::Running,
            ConsumerAction::Process,
        ),
        (ConsumerState::Running, QueueEvent::Closed) => (
            ConsumerState::Draining,
            ConsumerAction::Idle,
        ),
        (ConsumerState::Draining, QueueEvent::Received) => (
            ConsumerState::Draining,
            ConsumerAction::Process,
        ),
        (ConsumerState::Draining, QueueEvent::Closed) => (
            ConsumerState::Stopped,
            ConsumerAction::Idle,
        ),
        (ConsumerState::Stopped, _) => (ConsumerState::Stopped, ConsumerAction::Idle),
    }
}

/// `Stopped` is terminal: no event revives the consumer or makes it
/// process anything.
pub proof fn lemma_stopped_is_terminal(e: QueueEvent)
    ensures
        spec_consumer_step(ConsumerState::Stopped, e).0 == ConsumerState::Stopped,
        spec_consumer_step(ConsumerState::Stopped, e).1 == ConsumerAction::Idle,
{
}

/// The consumer never moves away from `Stopped`: every step keeps the rank
/// from growing, and a closure event strictly shrinks it until 0.
pub proof fn lemma_consumer_monotone(s: ConsumerState, e: QueueEvent)
    ensures
        consumer_rank(spec_consumer_step(s, e).0) <= consumer_rank(s),
        e == QueueEvent::Closed && s != ConsumerState::Stopped ==> consumer_rank(
            spec_consumer_step(s, e).0,
        ) < consumer_rank(s),
{
}

/// Once the producer has closed the queue, the consumer terminates: from
/// any state, two closure reports reach `Stopped`.
pub proof fn lemma_closed_queue_stops(s: ConsumerState)
    ensures
        spec_consumer_step(spec_consumer_step(s, QueueEvent::Closed).0, QueueEvent::Closed).0
            == ConsumerState::Stopped,
{
}

/// A dataset is processed exactly on delivery before the queue is closed
/// for good: `Process` happens only on a `Received` event in a live state.
pub proof fn lemma_process_only_on_delivery(s: ConsumerState, e: QueueEvent)
    ensures
        spec_consumer_step(s, e).1 == ConsumerAction::Process <==> (e == QueueEvent::Received && s
            != ConsumerState::Stopped),
{
}

} // verus!
