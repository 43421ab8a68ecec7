use vstd::prelude::*;

verus! {

/// Seconds that open connections are given to finish once shutdown began.
pub const DRAIN_DEADLINE_SECS: u64 = 10;

/// Where the server stands in its lifecycle.
#[derive(PartialEq, Eq, Structural, Clone, Copy, Debug)]
pub enum ServerPhase {
    /// Accepting and serving connections.
    Running,
    /// A termination signal came; the reload loop was told to stop and the
    /// server waits for it to finish.
    StoppingReloader,
    /// Waiting for open connections to finish, up to the deadline.
    Draining,
    /// Done: the process may exit.
    Stopped,
}

/// What the server loop observed.
#[derive(PartialEq, Eq, Structural, Clone, Copy, Debug)]
pub enum ServerEvent {
    /// A new connection came in.
    Accepted,
    /// A connection finished, well or with an error.
    Closed,
    /// An interrupt or terminate signal arrived.
    Signal,
    /// The reload loop's task finished.
    ReloaderStopped,
    /// The drain deadline elapsed.
    DeadlineElapsed,
}

/// What the server loop does about an event.
#[derive(PartialEq, Eq, Structural, Clone, Copy, Debug)]
pub enum ServerAction {
    /// Hand the new connection to the request router on a task of its own.
    Serve,
    /// Drop the new connection unserved.
    Refuse,
    /// Send the reload loop its stop signal and wait for its task.
    StopReloader,
    /// Stop accepting and start the drain deadline.
    StartDrain,
    /// Exit, abandoning whatever connection is still open.
    Exit,
    /// Nothing to do.
    Nothing,
}

/// The state of the connection and shutdown coordinator.
#[derive(PartialEq, Eq, Structural, Clone, Copy, Debug)]
pub struct Coordinator {
    pub phase: ServerPhase,
    /// Connections accepted and not yet finished.
    pub in_flight: u64,
    /// Whether the reload loop's task is still running.
    pub reloader_running: bool,
}

/// The reload loop runs while its stop is awaited, and is gone by the time
/// the server drains.
pub open spec fn coordinator_wf(c: Coordinator) -> bool {
    &&& c.phase == ServerPhase::StoppingReloader ==> c.reloader_running
    &&& (c.phase == ServerPhase::Draining || c.phase == ServerPhase::Stopped)
        ==> !c.reloader_running
}

/// Drain if connections are open, else stop at once.
pub open spec fn begin_drain(c: Coordinator) -> (Coordinator, ServerAction) {
    if c.in_flight == 0 {
        (Coordinator { phase: ServerPhase::Stopped, ..c }, ServerAction::Exit)
    } else {
        (Coordinator { phase: ServerPhase::Draining, ..c }, ServerAction::StartDrain)
    }
}

/// One less open connection, never below none.
pub open spec fn one_closed(c: Coordinator) -> Coordinator {
    Coordinator { in_flight: if c.in_flight > 0 { (c.in_flight - 1) as u64 } else { 0 }, ..c }
}

/// The coordinator's transition: the next state and the action for `e`.
pub open spec fn step(c: Coordinator, e: ServerEvent) -> (Coordinator, ServerAction) {
    match e {
        ServerEvent::Accepted => if c.phase == ServerPhase::Running && c.in_flight < u64::MAX {
            (Coordinator { in_flight: (c.in_flight + 1) as u64, ..c }, ServerAction::Serve)
        } else {
            (c, ServerAction::Refuse)
        },
        ServerEvent::Closed => {
            let d = one_closed(c);
            if c.phase == ServerPhase::Draining && d.in_flight == 0 {
                (Coordinator { phase: ServerPhase::Stopped, ..d }, ServerAction::Exit)
            } else {
                (d, ServerAction::Nothing)
            }
        },
        ServerEvent::Signal => if c.phase != ServerPhase::Running {
            (c, ServerAction::Nothing)
        } else if c.reloader_running {
            (
                Coordinator { phase: ServerPhase::StoppingReloader, ..c },
                ServerAction::StopReloader,
            )
        } else {
            begin_drain(c)
        },
        ServerEvent::ReloaderStopped => {
            let d = Coordinator { reloader_running: false, ..c };
            if c.phase == ServerPhase::StoppingReloader {
                begin_drain(d)
            } else {
                (d, ServerAction::Nothing)
            }
        },
        ServerEvent::DeadlineElapsed => if c.phase == ServerPhase::Draining {
            (Coordinator { phase: ServerPhase::Stopped, ..c }, ServerAction::Exit)
        } else {
            (c, ServerAction::Nothing)
        },
    }
}

impl Coordinator {
    /// A running server with no connection yet, with or without a reload loop.
    pub fn new(reloader_running: bool) -> (r: Coordinator)
        ensures
            coordinator_wf(r),
            r == (Coordinator { phase: ServerPhase::Running, in_flight: 0, reloader_running }),
    {
        Coordinator { phase: ServerPhase::Running, in_flight: 0, reloader_running }
    }

    fn drain_or_stop(&mut self) -> (a: ServerAction)
        ensures
            (*final(self), a) == begin_drain(*old(self)),
    {
        if self.in_flight == 0 {
            self.phase = ServerPhase::Stopped;
            ServerAction::Exit
        } else {
            self.phase = ServerPhase::Draining;
            ServerAction::StartDrain
        }
    }

    /// Takes `e` into account and says what the server loop does about it.
    pub fn on_event(&mut self, e: ServerEvent) -> (a: ServerAction)
        requires
            coordinator_wf(*old(self)),
        ensures
            (*final(self), a) == step(*old(self), e),
            coordinator_wf(*final(self)),
    {
        match e {
            ServerEvent::Accepted => {
                if self.phase == ServerPhase::Running && self.in_flight < u64::MAX {
                    self.in_flight = self.in_flight + 1;
                    ServerAction::Serve
                } else {
                    ServerAction::Refuse
                }
            },
            ServerEvent::Closed => {
                if self.in_flight > 0 {
                    self.in_flight = self.in_flight - 1;
                }
                if self.phase == ServerPhase::Draining && self.in_flight == 0 {
                    self.phase = ServerPhase::Stopped;
                    ServerAction::Exit
                } else {
                    ServerAction::Nothing
                }
            },
            ServerEvent::Signal => {
                if self.phase != ServerPhase::Running {
                    ServerAction::Nothing
                } else if self.reloader_running {
                    self.phase = ServerPhase::StoppingReloader;
                    ServerAction::StopReloader
                } else {
                    self.drain_or_stop()
                }
            },
            ServerEvent::ReloaderStopped => {
                self.reloader_running = false;
                if self.phase == ServerPhase::StoppingReloader {
                    self.drain_or_stop()
                } else {
                    ServerAction::Nothing
                }
            },
            ServerEvent::DeadlineElapsed => {
                if self.phase == ServerPhase::Draining {
                    self.phase = ServerPhase::Stopped;
                    ServerAction::Exit
                } else {
                    ServerAction::Nothing
                }
            },
        }
    }

    /// Whether the process may exit.
    pub fn is_stopped(&self) -> (r: bool)
        ensures
            r == (self.phase == ServerPhase::Stopped),
    {
        self.phase == ServerPhase::Stopped
    }
}

/// Once a termination signal was taken, no connection is served again and
/// the server never goes back to running.
pub proof fn lemma_no_serving_after_signal(c: Coordinator, e: ServerEvent)
    requires
        c.phase != ServerPhase::Running,
    ensures
        step(c, e).0.phase != ServerPhase::Running,
        step(c, e).1 != ServerAction::Serve,
{
}

/// The server exits only from the drain, with the reload loop finished, and
/// only once every connection finished or the deadline elapsed.
pub proof fn lemma_exit_only_when_drained(c: Coordinator, e: ServerEvent)
    requires
        coordinator_wf(c),
        step(c, e).1 == ServerAction::Exit,
    ensures
        step(c, e).0.phase == ServerPhase::Stopped,
        !step(c, e).0.reloader_running,
        step(c, e).0.in_flight == 0 || e == ServerEvent::DeadlineElapsed,
        c.phase != ServerPhase::Stopped,
{
}

/// Only one termination signal is acted on.
pub proof fn lemma_one_signal_consumed(c: Coordinator)
    requires
        c.phase != ServerPhase::Running,
    ensures
        step(c, ServerEvent::Signal) == (c, ServerAction::Nothing),
{
}

} // verus!
