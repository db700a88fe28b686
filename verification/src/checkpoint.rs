//! The checkpointer: it decides when the ledger is flushed and when the
//! process may stop. Whoever drives it waits, flushes and notifies; it only
//! decides.

use vstd::prelude::*;

verus! {

/// Where the checkpointer stands.
#[derive(Clone, Copy, Debug, PartialEq, Eq, Structural)]
pub enum CheckpointState {
    /// Waiting for the timer or the shutdown signal, whichever comes first.
    Running,
    /// A flush is under way.
    Flushing,
    /// The last flush is done. Nothing follows.
    Stopped,
}

/// What the driver reports.
#[derive(Clone, Copy, Debug, PartialEq, Eq, Structural)]
pub enum CheckpointEvent {
    /// The interval went by without a signal.
    TimerElapsed,
    /// Shutdown was asked for.
    ShutdownSignal,
    /// The shutdown signal cannot be waited for.
    SignalFailed,
    /// The flush that was asked for has been attempted.
    FlushComplete,
}

/// What the driver has to do next.
#[derive(Clone, Copy, Debug, PartialEq, Eq, Structural)]
pub enum CheckpointAction {
    /// Wait for the timer or the shutdown signal.
    AwaitTrigger,
    /// Flush the ledger, then report `FlushComplete`.
    Flush,
    /// Tell whoever depends on it that the process is shutting down.
    NotifyShutdown,
    /// Nothing: the event changes nothing that the driver does.
    Nothing,
}

/// The checkpointer's state, and whether it stops after the flush that is
/// under way.
#[derive(Clone, Copy, Debug, PartialEq, Eq, Structural)]
pub struct Checkpointer {
    pub state: CheckpointState,
    pub stopping: bool,
}

impl Checkpointer {
    /// While running no stop is pending, and a stopped checkpointer was
    /// asked to stop.
    pub open spec fn wf(self) -> bool {
        &&& self.state == CheckpointState::Running ==> !self.stopping
        &&& self.state == CheckpointState::Stopped ==> self.stopping
    }

    /// Whether `event` asks for shutdown.
    pub open spec fn is_stop_request(event: CheckpointEvent) -> bool {
        event == CheckpointEvent::ShutdownSignal || event == CheckpointEvent::SignalFailed
    }

    /// The checkpointer after `event`.
    pub open spec fn after(self, event: CheckpointEvent) -> Checkpointer {
        match self.state {
            CheckpointState::Running => if event == CheckpointEvent::TimerElapsed {
                Checkpointer { state: CheckpointState::Flushing, stopping: false }
            } else if Self::is_stop_request(event) {
                Checkpointer { state: CheckpointState::Flushing, stopping: true }
            } else {
                self
            },
            CheckpointState::Flushing => if event == CheckpointEvent::FlushComplete {
                if self.stopping {
                    Checkpointer { state: CheckpointState::Stopped, stopping: true }
                } else {
                    Checkpointer { state: CheckpointState::Running, stopping: false }
                }
            } else if Self::is_stop_request(event) {
                Checkpointer { state: CheckpointState::Flushing, stopping: true }
            } else {
                self
            },
            CheckpointState::Stopped => self,
        }
    }

    /// What the driver has to do on `event`.
    pub open spec fn action_on(self, event: CheckpointEvent) -> CheckpointAction {
        match self.state {
            CheckpointState::Running => if event == CheckpointEvent::FlushComplete {
                CheckpointAction::Nothing
            } else {
                CheckpointAction::Flush
            },
            CheckpointState::Flushing => if event == CheckpointEvent::FlushComplete {
                if self.stopping {
                    CheckpointAction::NotifyShutdown
                } else {
                    CheckpointAction::AwaitTrigger
                }
            } else {
                CheckpointAction::Nothing
            },
            CheckpointState::Stopped => CheckpointAction::Nothing,
        }
    }

    /// A running checkpointer.
    pub fn new() -> (r: Checkpointer)
        ensures
            r == (Checkpointer { state: CheckpointState::Running, stopping: false }),
            r.wf(),
    {
        Checkpointer { state: CheckpointState::Running, stopping: false }
    }

    /// Whether the checkpointer has stopped for good.
    pub fn is_stopped(&self) -> (r: bool)
        ensures
            r == (self.state == CheckpointState::Stopped),
    {
        match self.state {
            CheckpointState::Stopped => true,
            _ => false,
        }
    }

    /// Takes `event` and says what the driver has to do.
    ///
    /// A running checkpointer starts a flush on the timer and on a request to
    /// stop. When the flush is done it runs on, or stops where a stop was
    /// asked for before or during the flush. A stopped one stays stopped.
    pub fn step(&mut self, event: CheckpointEvent) -> (action: CheckpointAction)
        ensures
            *final(self) == old(self).after(event),
            action == old(self).action_on(event),
            old(self).wf() ==> final(self).wf(),
    {
        let stop_request = match event {
            CheckpointEvent::ShutdownSignal => true,
            CheckpointEvent::SignalFailed => true,
            _ => false,
        };
        match self.state {
            CheckpointState::Running => match event {
                CheckpointEvent::FlushComplete => CheckpointAction::Nothing,
                _ => {
                    self.state = CheckpointState::Flushing;
                    self.stopping = stop_request;
                    CheckpointAction::Flush
                },
            },
            CheckpointState::Flushing => match event {
                CheckpointEvent::FlushComplete => {
                    if self.stopping {
                        self.state = CheckpointState::Stopped;
                        CheckpointAction::NotifyShutdown
                    } else {
                        self.state = CheckpointState::Running;
                        CheckpointAction::AwaitTrigger
                    }
                },
                _ => {
                    if stop_request {
                        self.stopping = true;
                    }
                    CheckpointAction::Nothing
                },
            },
            CheckpointState::Stopped => CheckpointAction::Nothing,
        }
    }
}

/// The checkpointer stops only when a flush has been completed after a
/// request to stop, and it then tells the driver to notify; once stopped it
/// stays so and asks for nothing.
pub proof fn lemma_stop_follows_flush(c: Checkpointer, event: CheckpointEvent)
    requires
        c.wf(),
    ensures
        c.after(event).wf(),
        c.state != CheckpointState::Stopped && c.after(event).state == CheckpointState::Stopped
            ==> c.state == CheckpointState::Flushing && c.stopping && event
            == CheckpointEvent::FlushComplete && c.action_on(event)
            == CheckpointAction::NotifyShutdown,
        c.state == CheckpointState::Stopped ==> c.after(event) == c && c.action_on(event)
            == CheckpointAction::Nothing,
{
}

/// A request to stop is never lost: from it on, the next completed flush
/// stops the checkpointer.
pub proof fn lemma_stop_request_is_kept(c: Checkpointer, event: CheckpointEvent)
    requires
        c.wf(),
        c.state != CheckpointState::Stopped,
        Checkpointer::is_stop_request(event),
    ensures
        c.after(event).state == CheckpointState::Flushing,
        c.after(event).stopping,
        c.after(event).after(CheckpointEvent::FlushComplete).state == CheckpointState::Stopped,
{
}

} // verus!
