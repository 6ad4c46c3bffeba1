//! The connector: a client of the store, built once from the connection
//! target. Building it checks the target's form and opens no connection.
use vstd::prelude::*;

verus! {

#[verifier::external_type_specification]
#[verifier::external_body]
pub struct ExClient(redis::Client);

/// Whether the client library accepts `url` as the address of a store.
pub uninterp spec fn url_accepted(url: Seq<char>) -> bool;

/// Relies on `redis::Client::open`, which parses the URL (its scheme must
/// be `redis`, `rediss`, `unix` or `redis+unix`) and makes no connection;
/// success depends on the text alone.
#[verifier::external_body]
fn open_client(url: &str) -> (r: Option<redis::Client>)
    ensures
        r.is_some() == url_accepted(url@),
{
    redis::Client::open(url).ok()
}

/// The connector for `target`: none when no target was configured or when
/// the target is not a valid store address.
pub fn connector_for(target: Option<String>) -> (r: Option<redis::Client>)
    ensures
        r.is_some() == match target {
            Some(url) => url_accepted(url@),
            None => false,
        },
{
    match target {
        Some(url) => open_client(url.as_str()),
        None => None,
    }
}

} // verus!
