use vstd::prelude::*;

use crate::error::{TONAPIError, TONAPIResult};
use crate::global_config::LiteServer;
use crate::rotation::{advanced, LiteServerAddressRotation};

verus! {

/// Where a connection attempt stands.
#[derive(PartialEq, Eq, Structural, Debug, Clone, Copy)]
pub enum ConnState {
    Idle,
    Connecting,
    Handshaking,
    Established,
    Exhausted,
}

/// What the caller observed since the last action.
#[derive(Debug)]
pub enum ConnEvent {
    /// The caller asks for a session.
    Start,
    /// The transport connection to the current server is open.
    Connected,
    /// The transport connection to the current server failed.
    ConnectFailed(TONAPIError),
    /// The handshake completed and its confirmation was valid.
    HandshakeDone,
    /// The handshake was rejected, timed out or the key was invalid.
    HandshakeFailed(TONAPIError),
}

/// What the caller is to do next.
#[derive(PartialEq, Eq, Structural, Debug, Clone, Copy)]
pub enum ConnAction {
    /// Open a transport connection to the current server.
    Connect,
    /// Send the handshake to the connected server and await its confirmation.
    SendHandshake,
    /// The session is established.
    Finished,
    /// The attempt cap is reached; the last error explains why.
    GiveUp,
    /// The event does not apply in the current state; nothing changes.
    Ignore,
}

/// One transition: next state, next attempt count, whether the rotation
/// advances, and the action asked of the caller.
pub open spec fn step(s: ConnState, attempts: nat, max: nat, ev: ConnEvent) -> (
    ConnState,
    nat,
    bool,
    ConnAction,
) {
    if s == ConnState::Idle && ev is Start {
        if max == 0 {
            (ConnState::Exhausted, 0, false, ConnAction::GiveUp)
        } else {
            (ConnState::Connecting, 1, false, ConnAction::Connect)
        }
    } else if s == ConnState::Connecting && ev is Connected {
        (ConnState::Handshaking, attempts, false, ConnAction::SendHandshake)
    } else if (s == ConnState::Connecting && ev is ConnectFailed) || (s == ConnState::Handshaking
        && ev is HandshakeFailed) {
        if attempts >= max {
            (ConnState::Exhausted, attempts, false, ConnAction::GiveUp)
        } else {
            (ConnState::Connecting, attempts + 1, true, ConnAction::Connect)
        }
    } else if s == ConnState::Handshaking && ev is HandshakeDone {
        (ConnState::Established, attempts, false, ConnAction::Finished)
    } else {
        (s, attempts, false, ConnAction::Ignore)
    }
}

/// The error carried by a failure event that applies in state `s`.
pub open spec fn recorded_error(s: ConnState, ev: ConnEvent) -> Option<TONAPIError> {
    match ev {
        ConnEvent::ConnectFailed(e) => if s == ConnState::Connecting {
            Some(e)
        } else {
            None
        },
        ConnEvent::HandshakeFailed(e) => if s == ConnState::Handshaking {
            Some(e)
        } else {
            None
        },
        _ => None,
    }
}

/// Decides, event by event, which server to try and when to give up.
pub struct ConnectionManager {
    rotation: LiteServerAddressRotation,
    state: ConnState,
    attempts: u32,
    max_attempts: u32,
    last_error: Option<TONAPIError>,
}

impl ConnectionManager {
    pub closed spec fn wf(&self) -> bool {
        &&& self.rotation.wf()
        &&& self.attempts <= self.max_attempts
    }

    pub closed spec fn servers(&self) -> Seq<LiteServer> {
        self.rotation.servers()
    }

    pub closed spec fn index(&self) -> nat {
        self.rotation.index()
    }

    pub closed spec fn state_spec(&self) -> ConnState {
        self.state
    }

    pub closed spec fn attempts_spec(&self) -> nat {
        self.attempts as nat
    }

    pub closed spec fn max_spec(&self) -> nat {
        self.max_attempts as nat
    }

    pub closed spec fn last_error_spec(&self) -> Option<TONAPIError> {
        self.last_error
    }

    /// A manager in state `Idle` over a non-empty directory, allowed at most
    /// `max_attempts` connection attempts.
    pub fn new(liteservers: Vec<LiteServer>, max_attempts: u32) -> (r: TONAPIResult<Self>)
        ensures
            liteservers@.len() == 0 <==> r is Err,
            r matches Err(e) ==> e is LiteServerRotationError,
            r matches Ok(m) ==> {
                &&& m.wf()
                &&& m.servers() == liteservers@
                &&& m.index() == 0
                &&& m.state_spec() == ConnState::Idle
                &&& m.attempts_spec() == 0
                &&& m.max_spec() == max_attempts
                &&& m.last_error_spec() is None
            },
    {
        let rotation = LiteServerAddressRotation::new(liteservers)?;
        Ok(ConnectionManager {
            rotation,
            state: ConnState::Idle,
            attempts: 0,
            max_attempts,
            last_error: None,
        })
    }

    /// Applies one event and returns what the caller is to do next.
    pub fn on_event(&mut self, ev: ConnEvent) -> (r: ConnAction)
        requires
            old(self).wf(),
        ensures
            final(self).wf(),
            final(self).servers() == old(self).servers(),
            final(self).max_spec() == old(self).max_spec(),
            ({
                let t = step(
                    old(self).state_spec(),
                    old(self).attempts_spec(),
                    old(self).max_spec(),
                    ev,
                );
                &&& final(self).state_spec() == t.0
                &&& final(self).attempts_spec() == t.1
                &&& final(self).index() == (if t.2 {
                    advanced(old(self).index(), old(self).servers().len(), 1)
                } else {
                    old(self).index()
                })
                &&& r == t.3
            }),
            recorded_error(old(self).state_spec(), ev) is Some ==> final(self).last_error_spec()
                == recorded_error(old(self).state_spec(), ev),
            recorded_error(old(self).state_spec(), ev) is None ==> final(self).last_error_spec()
                == old(self).last_error_spec(),
    {
        match ev {
            ConnEvent::Start => {
                if self.state != ConnState::Idle {
                    return ConnAction::Ignore;
                }
                if self.max_attempts == 0 {
                    self.state = ConnState::Exhausted;
                    ConnAction::GiveUp
                } else {
                    self.state = ConnState::Connecting;
                    self.attempts = 1;
                    ConnAction::Connect
                }
            },
            ConnEvent::Connected => {
                if self.state != ConnState::Connecting {
                    return ConnAction::Ignore;
                }
                self.state = ConnState::Handshaking;
                ConnAction::SendHandshake
            },
            ConnEvent::ConnectFailed(e) => {
                if self.state != ConnState::Connecting {
                    return ConnAction::Ignore;
                }
                self.last_error = Some(e);
                self.retry()
            },
            ConnEvent::HandshakeFailed(e) => {
                if self.state != ConnState::Handshaking {
                    return ConnAction::Ignore;
                }
                self.last_error = Some(e);
                self.retry()
            },
            ConnEvent::HandshakeDone => {
                if self.state != ConnState::Handshaking {
                    return ConnAction::Ignore;
                }
                self.state = ConnState::Established;
                ConnAction::Finished
            },
        }
    }

    fn retry(&mut self) -> (r: ConnAction)
        requires
            old(self).wf(),
        ensures
            final(self).wf(),
            final(self).servers() == old(self).servers(),
            final(self).max_spec() == old(self).max_spec(),
            final(self).last_error == old(self).last_error,
            old(self).attempts >= old(self).max_attempts ==> {
                &&& final(self).state == ConnState::Exhausted
                &&& final(self).attempts == old(self).attempts
                &&& final(self).index() == old(self).index()
                &&& r == ConnAction::GiveUp
            },
            old(self).attempts < old(self).max_attempts ==> {
                &&& final(self).state == ConnState::Connecting
                &&& final(self).attempts == old(self).attempts + 1
                &&& final(self).index() == advanced(
                    old(self).index(),
                    old(self).servers().len(),
                    1,
                )
                &&& r == ConnAction::Connect
            },
    {
        if self.attempts >= self.max_attempts {
            self.state = ConnState::Exhausted;
            ConnAction::GiveUp
        } else {
            self.rotation.next();
            self.attempts = self.attempts + 1;
            self.state = ConnState::Connecting;
            ConnAction::Connect
        }
    }

    /// The server to connect to now.
    pub fn current(&self) -> (r: &LiteServer)
        requires
            self.wf(),
        ensures
            *r == self.servers()[self.index() as int],
    {
        self.rotation.current()
    }

    pub fn state(&self) -> (r: ConnState)
        ensures
            r == self.state_spec(),
    {
        self.state
    }

    /// Connection attempts made so far.
    pub fn attempts(&self) -> (r: u32)
        ensures
            r == self.attempts_spec(),
    {
        self.attempts
    }

    /// The last failure observed, reported once the manager gives up.
    pub fn last_error(&self) -> (r: &Option<TONAPIError>)
        ensures
            *r == self.last_error_spec(),
    {
        &self.last_error
    }
}

/// State and attempt count after `j` refused connections, starting while
/// connecting with `attempts` made.
pub open spec fn after_refusals(attempts: nat, max: nat, j: nat) -> (ConnState, nat)
    decreases j,
{
    if j == 0 {
        (ConnState::Connecting, attempts)
    } else {
        let p = after_refusals(attempts, max, (j - 1) as nat);
        if p.0 == ConnState::Connecting {
            let t = step(p.0, p.1, max, ConnEvent::ConnectFailed(TONAPIError::TCPError(arbitrary())));
            (t.0, t.1)
        } else {
            p
        }
    }
}

/// With a cap of `k` attempts and every server refusing, the manager keeps
/// connecting through the first `k - 1` refusals and is exhausted at the
/// `k`-th, having made exactly `k` attempts.
pub proof fn lemma_exhaustion(k: nat, j: nat)
    requires
        k >= 1,
        j <= k,
    ensures
        step(ConnState::Idle, 0, k, ConnEvent::Start).0 == ConnState::Connecting,
        step(ConnState::Idle, 0, k, ConnEvent::Start).1 == 1,
        j < k ==> after_refusals(1, k, j) == (ConnState::Connecting, j + 1),
        j == k ==> after_refusals(1, k, j) == (ConnState::Exhausted, k),
    decreases j,
{
    if j > 0 {
        lemma_exhaustion(k, (j - 1) as nat);
    }
}

} // verus!
