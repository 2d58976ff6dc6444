//! The listener: where the hub listens, and what it does with each attempt
//! to connect.

use vstd::prelude::*;
use crate::connection::Connection;
use crate::peer::PeerId;

verus! {

/// The address that the hub listens on where none is configured, in
/// specifications.
pub open spec fn default_address() -> Seq<char> {
    "127.0.0.1:8080"@
}

/// The address to listen on: the configured one, or the default where none
/// is configured.
pub fn listen_address(configured: Option<String>) -> (address: String)
    ensures
        address@ == match configured {
            Some(given) => given@,
            None => default_address(),
        },
{
    match configured {
        Some(given) => given,
        None => "127.0.0.1:8080".to_owned(),
    }
}

/// Where the listener stands.
#[derive(Clone, Copy, Debug, PartialEq, Eq, Structural)]
pub enum Listening {
    /// The address is not bound yet.
    Starting,
    /// The address is bound and connections are accepted.
    Open,
    /// The address could not be bound. Nothing is accepted.
    Failed,
}

/// What the transport reports to the listener.
#[derive(Clone, Copy, Debug, PartialEq, Eq, Structural)]
pub enum Attempt {
    /// The address was bound.
    Bound,
    /// The address could not be bound.
    BindFailed,
    /// A connection was accepted from the peer.
    Accepted(PeerId),
    /// One attempt to connect failed.
    AcceptFailed,
}

/// What the caller is asked to do after an attempt, without the connection
/// that the request carries.
pub enum Plan {
    /// Nothing.
    Ignore,
    /// Start accepting connections.
    Listen,
    /// Run a handler for a new connection of the peer, and go on accepting.
    Spawn(PeerId),
    /// Note the failed attempt, and go on accepting.
    Skip,
    /// Give up and report that the address cannot be bound.
    Abort,
}

/// What the caller has to do after an attempt.
pub enum Decision {
    /// Nothing: the attempt does not count where the listener stands.
    Ignore,
    /// Start accepting connections.
    Listen,
    /// Run a handler for this new connection, and go on accepting.
    Spawn(Connection),
    /// Note the failed attempt, and go on accepting.
    Skip,
    /// Give up and report that the address cannot be bound.
    Abort,
}

impl Decision {
    /// The plan that the decision stands for.
    pub open spec fn plan(&self) -> Plan {
        match *self {
            Decision::Ignore => Plan::Ignore,
            Decision::Listen => Plan::Listen,
            Decision::Spawn(connection) => Plan::Spawn(connection@.peer),
            Decision::Skip => Plan::Skip,
            Decision::Abort => Plan::Abort,
        }
    }
}

/// Where the listener stands after `attempt`: binding the address opens it
/// or fails it for good, and no attempt to connect changes it.
pub open spec fn listening_after(listening: Listening, attempt: Attempt) -> Listening {
    match (listening, attempt) {
        (Listening::Starting, Attempt::Bound) => Listening::Open,
        (Listening::Starting, Attempt::BindFailed) => Listening::Failed,
        _ => listening,
    }
}

/// The plan that `attempt` gives rise to.
pub open spec fn planned(listening: Listening, attempt: Attempt) -> Plan {
    match (listening, attempt) {
        (Listening::Starting, Attempt::Bound) => Plan::Listen,
        (Listening::Starting, Attempt::BindFailed) => Plan::Abort,
        (Listening::Open, Attempt::Accepted(peer)) => Plan::Spawn(peer),
        (Listening::Open, Attempt::AcceptFailed) => Plan::Skip,
        _ => Plan::Ignore,
    }
}

/// The listener of the hub.
pub struct Acceptor {
    listening: Listening,
}

impl View for Acceptor {
    type V = Listening;

    closed spec fn view(&self) -> Listening {
        self.listening
    }
}

impl Acceptor {
    /// A listener that has not bound its address yet.
    pub fn new() -> (acceptor: Acceptor)
        ensures
            acceptor@ == Listening::Starting,
    {
        Acceptor { listening: Listening::Starting }
    }

    /// Where the listener stands.
    pub fn listening(&self) -> (listening: Listening)
        ensures
            listening == self@,
    {
        self.listening
    }

    /// Takes one report of the transport and says what to do.
    ///
    /// A failure to bind the address is final. Once the address is bound,
    /// every accepted connection gets a handler of its own, which starts
    /// with the handshake, and a failed attempt to connect is passed over:
    /// the listener stays open after either.
    pub fn handle(&mut self, attempt: Attempt) -> (decision: Decision)
        ensures
            final(self)@ == listening_after(old(self)@, attempt),
            decision.plan() == planned(old(self)@, attempt),
            decision matches Decision::Spawn(connection) ==> connection@.state is Handshaking,
    {
        match self.listening {
            Listening::Starting => match attempt {
                Attempt::Bound => {
                    self.listening = Listening::Open;
                    Decision::Listen
                },
                Attempt::BindFailed => {
                    self.listening = Listening::Failed;
                    Decision::Abort
                },
                _ => Decision::Ignore,
            },
            Listening::Open => match attempt {
                Attempt::Accepted(peer) => Decision::Spawn(Connection::new(peer)),
                Attempt::AcceptFailed => Decision::Skip,
                _ => Decision::Ignore,
            },
            Listening::Failed => Decision::Ignore,
        }
    }
}

} // verus!
