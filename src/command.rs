//! The operations that callers ask for, and the single store command that
//! each one becomes.
use vstd::prelude::*;

use crate::slot::{step_for, Step};

verus! {

/// An operation as a caller asks for it.
pub enum Request {
    Put { key: String, value: String },
    /// `ttl` is a number of seconds; without one the key never expires.
    PutWithTtl { key: String, value: String, ttl: Option<usize> },
    Get { key: String },
    Delete { key: String },
    Exists { key: String },
    FlushAll,
    Ping,
}

/// One command for the store.
pub enum Command {
    Put { key: String, value: String },
    /// Set a key that expires after `seconds`.
    PutExpiring { key: String, value: String, seconds: u64 },
    Get { key: String },
    Del { key: String },
    Exists { key: String },
    FlushAll,
    Ping,
}

/// Why an operation fails before any network traffic.
#[derive(Clone, Copy, Debug, PartialEq, Eq, Structural)]
pub enum Refusal {
    /// No connection target was configured.
    NotConfigured,
}

/// The command for `r`, or the refusal when no connector is configured. A
/// time to live is handed on unchanged, zero included.
pub open spec fn command_for(r: Request, configured: bool) -> Result<Command, Refusal> {
    if !configured {
        Err(Refusal::NotConfigured)
    } else {
        Ok(
            match r {
                Request::Put { key, value } => Command::Put { key, value },
                Request::PutWithTtl { key, value, ttl } => match ttl {
                    Some(t) => Command::PutExpiring { key, value, seconds: t as u64 },
                    None => Command::Put { key, value },
                },
                Request::Get { key } => Command::Get { key },
                Request::Delete { key } => Command::Del { key },
                Request::Exists { key } => Command::Exists { key },
                Request::FlushAll => Command::FlushAll,
                Request::Ping => Command::Ping,
            },
        )
    }
}

/// Turns a request into the command that carries it out.
pub fn plan(r: Request, configured: bool) -> (c: Result<Command, Refusal>)
    ensures
        c == command_for(r, configured),
        configured ==> (r matches Request::PutWithTtl { ttl: Some(t), .. } ==> (c matches Ok(
            Command::PutExpiring { seconds, .. },
        ) && seconds as int == t as int)),
{
    if !configured {
        return Err(Refusal::NotConfigured);
    }
    let c = match r {
        Request::Put { key, value } => Command::Put { key, value },
        Request::PutWithTtl { key, value, ttl } => match ttl {
            Some(t) => {
                assert(t <= u64::MAX);
                Command::PutExpiring { key, value, seconds: t as u64 }
            },
            None => Command::Put { key, value },
        },
        Request::Get { key } => Command::Get { key },
        Request::Delete { key } => Command::Del { key },
        Request::Exists { key } => Command::Exists { key },
        Request::FlushAll => Command::FlushAll,
        Request::Ping => Command::Ping,
    };
    Ok(c)
}

/// Setting a key with no time to live is the same command as a plain set:
/// the key does not expire.
pub proof fn no_ttl_is_plain_set(key: String, value: String, configured: bool)
    ensures
        command_for(Request::PutWithTtl { key, value, ttl: None }, configured) == command_for(
            Request::Put { key, value },
            configured,
        ),
{
}

/// Without a connector every operation is refused with `NotConfigured`, and
/// the executor never tries to connect, whatever the state of the slot.
pub proof fn unconfigured_fails_fast(r: Request, occupied: bool)
    ensures
        command_for(r, false) == Err::<Command, Refusal>(Refusal::NotConfigured),
        step_for(false, occupied) == Step::Refuse,
{
}

} // verus!
