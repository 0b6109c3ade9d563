//! The server runtime state machine: at most one runtime (bound address and
//! connection count) exists while the server runs, beside an error slot that
//! survives stop and start until the next successful start clears it. The
//! host performs the binding, serving and cancelling around these
//! transitions and emits the status snapshot each one returns.

use vstd::prelude::*;

verus! {

/// What exists only while the server runs: the resolved bound address and
/// the count of currently admitted connections.
#[derive(Debug)]
pub struct RuntimeState {
    pub bind: String,
    pub connections: usize,
}

/// The controller's state: the runtime while one exists, and the last
/// recorded error.
#[derive(Debug)]
pub struct ServerRuntimeState {
    pub runtime: Option<RuntimeState>,
    pub last_error: Option<String>,
}

/// The status snapshot handed to the host and emitted on every state
/// change.
#[derive(Debug)]
pub struct ServerStatus {
    pub running: bool,
    pub bind: String,
    pub connections: usize,
    pub last_error: Option<String>,
}

/// The text of an optional error, for stating that two error slots agree.
pub open spec fn err_view(e: Option<String>) -> Option<Seq<char>> {
    match e {
        Some(s) => Some(s@),
        None => None,
    }
}

/// `st` is the status snapshot of `state`: running with the runtime's bind
/// address and connection count, or stopped with an empty address and zero
/// connections; the last recorded error is reported either way.
pub open spec fn status_matches(state: ServerRuntimeState, st: ServerStatus) -> bool {
    &&& match state.runtime {
        Some(rt) => st.running == true && st.bind@ == rt.bind@ && st.connections == rt.connections,
        None => st.running == false && st.bind@ == Seq::<char>::empty() && st.connections == 0,
    }
    &&& err_view(st.last_error) == err_view(state.last_error)
}

/// The state after one connection is admitted: the running count grows by
/// one; a stopped server is unchanged.
pub open spec fn spec_open(s: ServerRuntimeState) -> ServerRuntimeState {
    match s.runtime {
        Some(rt) => ServerRuntimeState {
            runtime: Some(
                RuntimeState { bind: rt.bind, connections: (rt.connections + 1) as usize },
            ),
            last_error: s.last_error,
        },
        None => s,
    }
}

/// The state after one connection is released: the running count shrinks by
/// one but never below zero; a stopped server is unchanged.
pub open spec fn spec_close(s: ServerRuntimeState) -> ServerRuntimeState {
    match s.runtime {
        Some(rt) => ServerRuntimeState {
            runtime: Some(
                RuntimeState {
                    bind: rt.bind,
                    connections: if rt.connections > 0 {
                        (rt.connections - 1) as usize
                    } else {
                        0
                    },
                },
            ),
            last_error: s.last_error,
        },
        None => s,
    }
}

fn clone_error(e: &Option<String>) -> (r: Option<String>)
    ensures
        err_view(r) == err_view(*e),
{
    match e {
        Some(s) => Some(s.clone()),
        None => None,
    }
}

/// The status snapshot of the current state.
pub fn build_status(state: &ServerRuntimeState) -> (st: ServerStatus)
    ensures
        status_matches(*state, st),
{
    match &state.runtime {
        Some(rt) => ServerStatus {
            running: true,
            bind: rt.bind.clone(),
            connections: rt.connections,
            last_error: clone_error(&state.last_error),
        },
        None => ServerStatus {
            running: false,
            bind: String::new(),
            connections: 0,
            last_error: clone_error(&state.last_error),
        },
    }
}

impl Default for ServerRuntimeState {
    /// The initial state: not running, no error recorded.
    fn default() -> (s: Self)
        ensures
            s.runtime is None,
            s.last_error is None,
    {
        ServerRuntimeState { runtime: None, last_error: None }
    }
}

impl ServerRuntimeState {
    /// The first step of `start`. While a runtime exists, `start` is a
    /// no-op: it returns the current status unchanged, and the caller must
    /// not bind or spawn a second accept loop. Otherwise the error slot is
    /// cleared for the new attempt and the caller proceeds to bind.
    pub fn start_requested(&mut self) -> (r: Option<ServerStatus>)
        ensures
            old(self).runtime is Some ==> ({
                &&& *final(self) == *old(self)
                &&& r matches Some(st) && status_matches(*old(self), st)
            }),
            old(self).runtime is None ==> ({
                &&& r is None
                &&& final(self).runtime is None
                &&& final(self).last_error is None
            }),
    {
        if self.runtime.is_some() {
            Some(build_status(self))
        } else {
            self.last_error = None;
            None
        }
    }

    /// Binding the listening address failed: the error is recorded, the
    /// server stays stopped, and the status to emit is returned.
    pub fn start_bind_failed(&mut self, err: String) -> (st: ServerStatus)
        ensures
            final(self).runtime == old(self).runtime,
            final(self).last_error == Some(err),
            status_matches(*final(self), st),
    {
        self.last_error = Some(err);
        build_status(self)
    }

    /// The listener is bound and the accept loop spawned: a fresh runtime is
    /// installed with the resolved address and zero connections, and the
    /// status to emit is returned.
    pub fn start_succeeded(&mut self, bind: String) -> (st: ServerStatus)
        ensures
            final(self).runtime matches Some(rt) && rt.bind == bind && rt.connections == 0,
            final(self).last_error == old(self).last_error,
            status_matches(*final(self), st),
    {
        self.runtime = Some(RuntimeState { bind, connections: 0 });
        build_status(self)
    }

    /// The accept loop ended on its own (cancellation or a fatal serve
    /// error): the runtime is cleared, a fatal error is recorded when one
    /// is given, and the final status to emit is returned.
    pub fn runtime_finished(&mut self, err: Option<String>) -> (st: ServerStatus)
        ensures
            final(self).runtime is None,
            err is Some ==> final(self).last_error == err,
            err is None ==> final(self).last_error == old(self).last_error,
            status_matches(*final(self), st),
    {
        match err {
            Some(e) => {
                self.last_error = Some(e);
            },
            None => {},
        }
        self.runtime = None;
        build_status(self)
    }

    /// `stop`: the runtime is cleared at once, the error slot is kept, and
    /// the returned flag says whether a runtime existed, so the caller knows
    /// to cancel and abort the accept loop. On a server that is not running
    /// this changes nothing and reports a stopped status without error.
    pub fn stop(&mut self) -> (r: (bool, ServerStatus))
        ensures
            final(self).runtime is None,
            final(self).last_error == old(self).last_error,
            r.0 == (old(self).runtime is Some),
            status_matches(*final(self), r.1),
    {
        let was_running = self.runtime.is_some();
        self.runtime = None;
        let st = build_status(self);
        (was_running, st)
    }

    /// A connection was accepted and admitted: the count grows by one and
    /// the status to emit is returned.
    pub fn connection_opened(&mut self) -> (st: ServerStatus)
        requires
            old(self).runtime matches Some(rt) ==> rt.connections < usize::MAX,
        ensures
            *final(self) == spec_open(*old(self)),
            status_matches(*final(self), st),
    {
        match &mut self.runtime {
            Some(rt) => {
                rt.connections = rt.connections + 1;
            },
            None => {},
        }
        build_status(self)
    }

    /// A connection was torn down (normal close, error, or shutdown): the
    /// count shrinks by one, never below zero, and the status to emit is
    /// returned.
    pub fn connection_closed(&mut self) -> (st: ServerStatus)
        ensures
            *final(self) == spec_close(*old(self)),
            status_matches(*final(self), st),
    {
        match &mut self.runtime {
            Some(rt) => {
                if rt.connections > 0 {
                    rt.connections = rt.connections - 1;
                }
            },
            None => {},
        }
        build_status(self)
    }
}

/// The state after `k` connections are admitted one after another.
pub open spec fn spec_opens(s: ServerRuntimeState, k: nat) -> ServerRuntimeState
    decreases k,
{
    if k == 0 {
        s
    } else {
        spec_open(spec_opens(s, (k - 1) as nat))
    }
}

/// Connection-counter law: from a freshly started runtime (count zero),
/// admitting `k` connections drives the count to exactly `k`, and releasing
/// one connection then drives it to `k - 1`. The count is an unsigned
/// machine word guarded against underflow, so it is never negative.
pub proof fn lemma_connection_count(s: ServerRuntimeState, k: nat)
    requires
        s.runtime matches Some(rt) && rt.connections == 0,
        k <= usize::MAX,
    ensures
        spec_opens(s, k).runtime matches Some(rt2) && rt2.connections == k,
        k > 0 ==> ({
            &&& spec_close(spec_opens(s, k)).runtime matches Some(rt3)
            &&& rt3.connections == k - 1
        }),
    decreases k,
{
    if k > 0 {
        lemma_connection_count(s, (k - 1) as nat);
    }
}

/// Single-runtime law: while the server runs, `start` leaves the state
/// untouched, so two starts in succession both report a running server with
/// the same bind address and the same connection count, and no second
/// accept loop is spawned.
pub proof fn lemma_start_idempotent(s: ServerRuntimeState, st1: ServerStatus, st2: ServerStatus)
    requires
        s.runtime is Some,
        status_matches(s, st1),
        status_matches(s, st2),
    ensures
        st1.running,
        st2.running,
        st1.bind@ == st2.bind@,
        st1.connections == st2.connections,
{
}

/// Stopping a server that is not running reports a stopped status — not
/// running, empty bind address, zero connections — and keeps the error
/// slot, without failing.
pub proof fn lemma_stop_when_stopped(s: ServerRuntimeState, st: ServerStatus)
    requires
        s.runtime is None,
        status_matches(s, st),
    ensures
        !st.running,
        st.bind@ == Seq::<char>::empty(),
        st.connections == 0,
        err_view(st.last_error) == err_view(s.last_error),
{
}

} // verus!
