//! The tunnel session supervisor.
//!
//! A tunnel forwards a local port to a remote port over a named host by
//! running an external forwarding process. The supervisor here is the state
//! machine that keeps that process alive: it decides, on every observation
//! the monitor makes, what the next state is and which single action the
//! monitor must perform (spawn, await, kill, nothing). The monitor loop that
//! actually spawns and waits lives outside the library and feeds every
//! outcome back in as a [`TunnelEvent`].
//!
//! Restart policy: failures are counted consecutively; a process that stays
//! alive past the grace period resets the counter; one failure more than
//! [`RETRY_CAP`] is fatal and stops the session for good. A requested stop
//! always wins over a concurrent restart: once `close` has been called no
//! step ever asks for a spawn again.

use vstd::prelude::*;

use crate::errors::TunnelError;

verus! {

/// The most consecutive failures the supervisor retries; one more is fatal.
pub const RETRY_CAP: u8 = 5;

/// Where the session stands.
#[derive(Clone, Copy, Debug, PartialEq, Eq, Structural)]
pub enum TunnelState {
    /// No tunnel process exists and none is wanted.
    Idle,
    /// The first spawn of this session has been requested.
    Starting,
    /// A tunnel process is being monitored.
    Running,
    /// The process died and a replacement spawn has been requested.
    Restarting,
    /// A stop was requested and the process is being torn down.
    Stopping,
    /// The retry cap was exceeded; the session is over for good.
    Failed,
}

/// What the monitor loop observed.
#[derive(Clone, Copy, Debug, PartialEq, Eq, Structural)]
pub enum TunnelEvent {
    /// The requested spawn produced a live process.
    SpawnOk,
    /// The requested spawn failed outright.
    SpawnFailed,
    /// The process stayed alive past the grace period.
    GracePassed,
    /// The process exited.
    ProcessExited,
}

/// The single action the monitor must perform next.
#[derive(Clone, Copy, Debug, PartialEq, Eq, Structural)]
pub enum TunnelAction {
    /// Spawn the tunnel process.
    SpawnProcess,
    /// Block on the process, reporting `GracePassed` or `ProcessExited`.
    AwaitProcess,
    /// Terminate the process, then report `ProcessExited`.
    KillProcess,
    /// Nothing to do.
    NoAction,
}

/// The whole transition relation of the supervisor: from a state, a
/// consecutive-failure count and the stop flag, under one event, to the next
/// state, the next count, and the action or error handed back.
pub open spec fn spec_step(
    state: TunnelState,
    rc: u8,
    stop: bool,
    ev: TunnelEvent,
) -> (TunnelState, u8, Result<TunnelAction, TunnelError>) {
    match state {
        TunnelState::Starting => match ev {
            TunnelEvent::SpawnOk => if stop {
                (TunnelState::Stopping, rc, Ok(TunnelAction::KillProcess))
            } else {
                (TunnelState::Running, rc, Ok(TunnelAction::AwaitProcess))
            },
            TunnelEvent::SpawnFailed => (TunnelState::Idle, rc, Err(TunnelError::SpawnError)),
            _ => (state, rc, Ok(TunnelAction::NoAction)),
        },
        TunnelState::Restarting => match ev {
            TunnelEvent::SpawnOk => if stop {
                (TunnelState::Stopping, rc, Ok(TunnelAction::KillProcess))
            } else {
                (TunnelState::Running, rc, Ok(TunnelAction::AwaitProcess))
            },
            TunnelEvent::SpawnFailed => if stop {
                (TunnelState::Idle, rc, Ok(TunnelAction::NoAction))
            } else if rc >= RETRY_CAP {
                (TunnelState::Failed, rc, Err(TunnelError::TunnelFatal))
            } else {
                (TunnelState::Restarting, (rc + 1) as u8, Ok(TunnelAction::SpawnProcess))
            },
            _ => (state, rc, Ok(TunnelAction::NoAction)),
        },
        TunnelState::Running => match ev {
            TunnelEvent::GracePassed => (TunnelState::Running, 0, Ok(TunnelAction::AwaitProcess)),
            TunnelEvent::ProcessExited => if stop {
                (TunnelState::Idle, rc, Ok(TunnelAction::NoAction))
            } else if rc >= RETRY_CAP {
                (TunnelState::Failed, rc, Err(TunnelError::TunnelFatal))
            } else {
                (TunnelState::Restarting, (rc + 1) as u8, Ok(TunnelAction::SpawnProcess))
            },
            _ => (state, rc, Ok(TunnelAction::NoAction)),
        },
        TunnelState::Stopping => match ev {
            TunnelEvent::ProcessExited => (TunnelState::Idle, rc, Ok(TunnelAction::NoAction)),
            _ => (TunnelState::Stopping, rc, Ok(TunnelAction::NoAction)),
        },
        TunnelState::Idle => (TunnelState::Idle, rc, Ok(TunnelAction::NoAction)),
        TunnelState::Failed => (TunnelState::Failed, rc, Err(TunnelError::TunnelFatal)),
    }
}

/// A tunnel session: the forwarding endpoints it is for, and the
/// supervisor's state.
#[derive(Clone, Debug)]
pub struct STCPSession {
    /// The remote host the tunnel runs over.
    pub host: String,
    /// The local port the client side connects to.
    pub client_port: String,
    /// The remote port the server daemon listens on.
    pub server_port: String,
    /// The remote workspace the far end serves.
    pub workspace: String,
    /// Where the session stands.
    pub state: TunnelState,
    /// Consecutive failures observed since the last stable run.
    pub retry_count: u8,
    /// A stop has been requested; no further spawns are allowed.
    pub stop_requested: bool,
}

impl STCPSession {
    /// The supervisor's bookkeeping is sound.
    pub open spec fn wf(&self) -> bool {
        self.retry_count <= RETRY_CAP
    }

    /// The supervisor's monitor is meant to be running.
    pub open spec fn spec_supervisor_running(&self) -> bool {
        match self.state {
            TunnelState::Starting => true,
            TunnelState::Running => true,
            TunnelState::Restarting => true,
            TunnelState::Stopping => true,
            TunnelState::Idle => false,
            TunnelState::Failed => false,
        }
    }

    pub fn new(host: String, client_port: String, server_port: String, workspace: String) -> (r:
        STCPSession)
        ensures
            r.host@ == host@,
            r.client_port@ == client_port@,
            r.server_port@ == server_port@,
            r.workspace@ == workspace@,
            r.state == TunnelState::Idle,
            r.retry_count == 0,
            !r.stop_requested,
            r.wf(),
    {
        STCPSession {
            host,
            client_port,
            server_port,
            workspace,
            state: TunnelState::Idle,
            retry_count: 0,
            stop_requested: false,
        }
    }

    /// Begin the session: ask the monitor to spawn the tunnel process. Does
    /// nothing if the session is already under way, stopped, or failed.
    pub fn start_ssh(&mut self) -> (r: TunnelAction)
        ensures
            final(self).host@ == old(self).host@,
            final(self).client_port@ == old(self).client_port@,
            final(self).server_port@ == old(self).server_port@,
            final(self).workspace@ == old(self).workspace@,
            final(self).retry_count == old(self).retry_count,
            final(self).stop_requested == old(self).stop_requested,
            if old(self).state == TunnelState::Idle && !old(self).stop_requested {
                final(self).state == TunnelState::Starting && r == TunnelAction::SpawnProcess
            } else {
                final(self).state == old(self).state && r == TunnelAction::NoAction
            },
            old(self).wf() ==> final(self).wf(),
    {
        if self.state == TunnelState::Idle && !self.stop_requested {
            self.state = TunnelState::Starting;
            return TunnelAction::SpawnProcess;
        }
        TunnelAction::NoAction
    }

    /// One supervisor step: take what the monitor observed, move to the next
    /// state, and hand back the next action — or the error the session must
    /// surface.
    pub fn step(&mut self, ev: TunnelEvent) -> (r: Result<TunnelAction, TunnelError>)
        ensures
            final(self).host@ == old(self).host@,
            final(self).client_port@ == old(self).client_port@,
            final(self).server_port@ == old(self).server_port@,
            final(self).workspace@ == old(self).workspace@,
            final(self).stop_requested == old(self).stop_requested,
            (final(self).state, final(self).retry_count, r) == spec_step(
                old(self).state,
                old(self).retry_count,
                old(self).stop_requested,
                ev,
            ),
            old(self).wf() ==> final(self).wf(),
            old(self).stop_requested ==> r != Ok::<TunnelAction, TunnelError>(
                TunnelAction::SpawnProcess,
            ),
            old(self).state == TunnelState::Failed ==> final(self).state == TunnelState::Failed,
    {
        match self.state {
            TunnelState::Starting => match ev {
                TunnelEvent::SpawnOk => {
                    if self.stop_requested {
                        self.state = TunnelState::Stopping;
                        Ok(TunnelAction::KillProcess)
                    } else {
                        self.state = TunnelState::Running;
                        Ok(TunnelAction::AwaitProcess)
                    }
                },
                TunnelEvent::SpawnFailed => {
                    self.state = TunnelState::Idle;
                    Err(TunnelError::SpawnError)
                },
                _ => Ok(TunnelAction::NoAction),
            },
            TunnelState::Restarting => match ev {
                TunnelEvent::SpawnOk => {
                    if self.stop_requested {
                        self.state = TunnelState::Stopping;
                        Ok(TunnelAction::KillProcess)
                    } else {
                        self.state = TunnelState::Running;
                        Ok(TunnelAction::AwaitProcess)
                    }
                },
                TunnelEvent::SpawnFailed => {
                    if self.stop_requested {
                        self.state = TunnelState::Idle;
                        Ok(TunnelAction::NoAction)
                    } else if self.retry_count >= RETRY_CAP {
                        self.state = TunnelState::Failed;
                        Err(TunnelError::TunnelFatal)
                    } else {
                        self.retry_count = self.retry_count + 1;
                        Ok(TunnelAction::SpawnProcess)
                    }
                },
                _ => Ok(TunnelAction::NoAction),
            },
            TunnelState::Running => match ev {
                TunnelEvent::GracePassed => {
                    self.retry_count = 0;
                    Ok(TunnelAction::AwaitProcess)
                },
                TunnelEvent::ProcessExited => {
                    if self.stop_requested {
                        self.state = TunnelState::Idle;
                        Ok(TunnelAction::NoAction)
                    } else if self.retry_count >= RETRY_CAP {
                        self.state = TunnelState::Failed;
                        Err(TunnelError::TunnelFatal)
                    } else {
                        self.retry_count = self.retry_count + 1;
                        self.state = TunnelState::Restarting;
                        Ok(TunnelAction::SpawnProcess)
                    }
                },
                _ => Ok(TunnelAction::NoAction),
            },
            TunnelState::Stopping => match ev {
                TunnelEvent::ProcessExited => {
                    self.state = TunnelState::Idle;
                    Ok(TunnelAction::NoAction)
                },
                _ => Ok(TunnelAction::NoAction),
            },
            TunnelState::Idle => Ok(TunnelAction::NoAction),
            TunnelState::Failed => Err(TunnelError::TunnelFatal),
        }
    }

    /// Request a stop. The stop wins over any restart in flight: after this
    /// call no step ever asks for a spawn again, and the monitor is asked to
    /// terminate whatever process is still alive.
    pub fn close(&mut self) -> (r: TunnelAction)
        ensures
            final(self).host@ == old(self).host@,
            final(self).client_port@ == old(self).client_port@,
            final(self).server_port@ == old(self).server_port@,
            final(self).workspace@ == old(self).workspace@,
            final(self).retry_count == old(self).retry_count,
            final(self).stop_requested,
            match old(self).state {
                TunnelState::Starting => final(self).state == TunnelState::Stopping && r
                    == TunnelAction::KillProcess,
                TunnelState::Running => final(self).state == TunnelState::Stopping && r
                    == TunnelAction::KillProcess,
                TunnelState::Restarting => final(self).state == TunnelState::Idle && r
                    == TunnelAction::NoAction,
                _ => final(self).state == old(self).state && r == TunnelAction::NoAction,
            },
            old(self).wf() ==> final(self).wf(),
    {
        self.stop_requested = true;
        match self.state {
            TunnelState::Starting => {
                self.state = TunnelState::Stopping;
                TunnelAction::KillProcess
            },
            TunnelState::Running => {
                self.state = TunnelState::Stopping;
                TunnelAction::KillProcess
            },
            TunnelState::Restarting => {
                self.state = TunnelState::Idle;
                TunnelAction::NoAction
            },
            _ => TunnelAction::NoAction,
        }
    }

    /// How the session stands: the fatal condition is surfaced to the owner.
    pub fn status(&self) -> (r: Result<(), TunnelError>)
        ensures
            r == if self.state == TunnelState::Failed {
                Err::<(), TunnelError>(TunnelError::TunnelFatal)
            } else {
                Ok::<(), TunnelError>(())
            },
    {
        if self.state == TunnelState::Failed {
            Err(TunnelError::TunnelFatal)
        } else {
            Ok(())
        }
    }

    /// Whether the supervisor's monitor is meant to be running.
    pub fn supervisor_running(&self) -> (r: bool)
        ensures
            r == self.spec_supervisor_running(),
    {
        match self.state {
            TunnelState::Starting => true,
            TunnelState::Running => true,
            TunnelState::Restarting => true,
            TunnelState::Stopping => true,
            TunnelState::Idle => false,
            TunnelState::Failed => false,
        }
    }
}

/// A stable run resets the failure counter: after the grace period passes,
/// the count is zero again.
pub proof fn lemma_grace_resets_retries(rc: u8, stop: bool)
    ensures
        spec_step(TunnelState::Running, rc, stop, TunnelEvent::GracePassed).1 == 0,
        spec_step(TunnelState::Running, rc, stop, TunnelEvent::GracePassed).0
            == TunnelState::Running,
{
}

/// A requested stop wins over any concurrent restart: with the stop flag
/// set, no step ever asks for a spawn.
pub proof fn lemma_stop_wins(state: TunnelState, rc: u8, ev: TunnelEvent)
    ensures
        spec_step(state, rc, true, ev).2 != Ok::<TunnelAction, TunnelError>(
            TunnelAction::SpawnProcess,
        ),
{
}

/// The fatal state is final: no event leaves it, and no spawn is ever asked
/// for again.
pub proof fn lemma_failed_is_final(rc: u8, stop: bool, ev: TunnelEvent)
    ensures
        spec_step(TunnelState::Failed, rc, stop, ev).0 == TunnelState::Failed,
        spec_step(TunnelState::Failed, rc, stop, ev).2 == Err::<TunnelAction, TunnelError>(
            TunnelError::TunnelFatal,
        ),
{
}

/// The failure counter never exceeds the cap, and a failure at the cap is
/// exactly what turns the session fatal.
pub proof fn lemma_cap_is_never_exceeded(state: TunnelState, rc: u8, stop: bool, ev: TunnelEvent)
    requires
        rc <= RETRY_CAP,
    ensures
        spec_step(state, rc, stop, ev).1 <= RETRY_CAP,
        state == TunnelState::Running && ev == TunnelEvent::ProcessExited && !stop && rc
            == RETRY_CAP ==> spec_step(state, rc, stop, ev).0 == TunnelState::Failed && spec_step(
            state,
            rc,
            stop,
            ev,
        ).2 == Err::<TunnelAction, TunnelError>(TunnelError::TunnelFatal),
{
}

} // verus!
