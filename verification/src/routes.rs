//! What the collector's read and management endpoints answer, given what
//! the store found.

use vstd::prelude::*;
use crate::ingest::{bearer_of, bearer_token, opt_view, STATUS_UNAUTHORIZED};
use crate::models::{clone_opt_string, Client, ClientResponse};

verus! {

/// A record was created.
pub const STATUS_CREATED: u16 = 201;

/// A record was deleted; there is nothing to show.
pub const STATUS_NO_CONTENT: u16 = 204;

/// There is no such record.
pub const STATUS_NOT_FOUND: u16 = 404;

/// Whether `shown` is the public part of `client`.
pub open spec fn shows(shown: ClientResponse, client: Client) -> bool {
    &&& shown.id == client.id
    &&& shown.hostname == client.hostname
    &&& shown.last_seen == client.last_seen
    &&& shown.version == client.version
}

/// The public part of `client`.
pub fn client_response(client: &Client) -> (shown: ClientResponse)
    ensures
        shows(shown, *client),
{
    ClientResponse {
        id: client.id.clone(),
        hostname: client.hostname.clone(),
        last_seen: client.last_seen.clone(),
        version: clone_opt_string(&client.version),
    }
}

/// The clients as they are listed: each without its credential, in the
/// order the store gave them.
pub fn list_clients(clients: &Vec<Client>) -> (listed: Vec<ClientResponse>)
    ensures
        listed@.len() == clients@.len(),
        forall|i: int| 0 <= i < clients@.len() ==> shows(#[trigger] listed@[i], clients@[i]),
{
    let mut listed: Vec<ClientResponse> = Vec::new();
    let mut i: usize = 0;
    while i < clients.len()
        invariant
            i <= clients@.len(),
            listed@.len() == i,
            forall|j: int| 0 <= j < i ==> shows(#[trigger] listed@[j], clients@[j]),
        decreases clients@.len() - i,
    {
        listed.push(client_response(&clients[i]));
        i += 1;
    }
    listed
}

/// The answer to a request for one client: its public part, or that there
/// is no such client.
pub fn get_client(found: Option<Client>) -> (answer: Result<ClientResponse, u16>)
    ensures
        found is Some <==> answer is Ok,
        answer is Ok ==> shows(answer->Ok_0, found->Some_0),
        answer is Err ==> answer->Err_0 == STATUS_NOT_FOUND,
{
    match found {
        Some(client) => Ok(ClientResponse::from(client)),
        None => Err(STATUS_NOT_FOUND),
    }
}

/// The answer to a request to delete a record, given whether the store
/// deleted one.
pub fn delete_status(deleted: bool) -> (answer: Result<u16, u16>)
    ensures
        answer == if deleted {
            Ok::<u16, u16>(STATUS_NO_CONTENT)
        } else {
            Err::<u16, u16>(STATUS_NOT_FOUND)
        },
{
    if deleted {
        Ok(STATUS_NO_CONTENT)
    } else {
        Err(STATUS_NOT_FOUND)
    }
}

/// The answer to a request for something that belongs to a client, given
/// whether the store knows the client.
pub fn require_client(found: Option<Client>) -> (answer: Result<Client, u16>)
    ensures
        answer == match found {
            Some(client) => Ok::<Client, u16>(client),
            None => Err::<Client, u16>(STATUS_NOT_FOUND),
        },
{
    match found {
        Some(client) => Ok(client),
        None => Err(STATUS_NOT_FOUND),
    }
}

/// The credential that a request must be checked for before it is let
/// through. A request without a bearer credential is refused outright.
pub fn auth_middleware(authorization: Option<&str>) -> (token: Result<String, u16>)
    ensures
        token is Ok <==> bearer_of(opt_view(authorization)) is Some,
        token is Ok ==> Some(token->Ok_0@) == bearer_of(opt_view(authorization)),
        token is Err ==> token->Err_0 == STATUS_UNAUTHORIZED,
{
    match bearer_token(authorization) {
        Some(token) => Ok(token),
        None => Err(STATUS_UNAUTHORIZED),
    }
}

/// Whether a request is let through, given the client that the store found
/// for its credential.
pub fn check_credential(found: &Option<Client>) -> (answer: Result<(), u16>)
    ensures
        answer == if *found is Some {
            Ok::<(), u16>(())
        } else {
            Err::<(), u16>(STATUS_UNAUTHORIZED)
        },
{
    match found {
        Some(_) => Ok(()),
        None => Err(STATUS_UNAUTHORIZED),
    }
}

} // verus!
