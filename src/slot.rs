//! The slot that holds at most one live connection, and the decision of
//! what an operation must do with it before a command can run.
use vstd::prelude::*;

verus! {

/// What the executor does next for an operation that needs a connection.
#[derive(Clone, Copy, Debug, PartialEq, Eq, Structural)]
pub enum Step {
    /// No connector is configured: fail without any network traffic.
    Refuse,
    /// The slot is empty: ask the connector for a new connection.
    Connect,
    /// The slot holds a connection: run the command on it.
    Reuse,
}

/// The step that an operation takes, given whether a connector exists and
/// whether the slot is occupied.
pub open spec fn step_for(configured: bool, occupied: bool) -> Step {
    if !configured {
        Step::Refuse
    } else if occupied {
        Step::Reuse
    } else {
        Step::Connect
    }
}

/// The text that describes the state of a slot.
pub open spec fn status_text(occupied: bool) -> Seq<char> {
    if occupied {
        "Connected"@
    } else {
        "Not connected"@
    }
}

/// At most one live connection. It is filled only by a successful
/// connection attempt and is never emptied again.
pub struct ConnectionSlot<C> {
    pub conn: Option<C>,
}

impl<C> ConnectionSlot<C> {
    pub open spec fn occupied(&self) -> bool {
        self.conn.is_some()
    }

    /// An empty slot: no connection is made when a handle is built.
    pub fn new() -> (s: Self)
        ensures
            !s.occupied(),
    {
        ConnectionSlot { conn: None }
    }

    pub fn is_connected(&self) -> (r: bool)
        ensures
            r == self.occupied(),
    {
        self.conn.is_some()
    }

    pub fn connection_status(&self) -> (r: String)
        ensures
            r@ == status_text(self.occupied()),
    {
        if self.conn.is_some() {
            String::from_str("Connected")
        } else {
            String::from_str("Not connected")
        }
    }

    /// Decides what an operation does before its command runs.
    pub fn next_step(&self, configured: bool) -> (s: Step)
        ensures
            s == step_for(configured, self.occupied()),
    {
        if !configured {
            Step::Refuse
        } else if self.conn.is_some() {
            Step::Reuse
        } else {
            Step::Connect
        }
    }

    /// Records the outcome of a connection attempt made for an empty slot.
    /// A new connection is kept; a failure leaves the slot empty, so that the
    /// next operation tries again from scratch.
    pub fn settle<E>(&mut self, attempt: Result<C, E>) -> (r: Result<(), E>)
        requires
            !old(self).occupied(),
        ensures
            match attempt {
                Ok(c) => r is Ok && final(self).conn == Some(c),
                Err(e) => r == Err::<(), E>(e) && !final(self).occupied(),
            },
    {
        match attempt {
            Ok(c) => {
                self.conn = Some(c);
                Ok(())
            },
            Err(e) => Err(e),
        }
    }
}

} // verus!
