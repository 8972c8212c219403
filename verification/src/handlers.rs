//! The two request handlers — create a task, delete a task — and the
//! translation of gateway outcomes into response statuses.
//!
//! Each handler validates its input, performs one gateway operation, and maps
//! the outcome to a status: a rejected body never reaches the store, a store
//! failure becomes a server error rather than a crash, and a deletion that
//! matches nothing is "not found", not a failure.

use vstd::prelude::*;
use crate::store::TaskStore;
use crate::task::spec_validate;
use crate::task::validate_create;

verus! {

/// A response status, as the handlers decide it.
#[derive(Debug, Clone, Copy, PartialEq, Eq, Structural)]
pub enum Status {
    /// Success with an empty body: a record was created.
    NoContent,
    /// Success: a record was deleted.
    Okay,
    /// No record matched the identifier.
    NotFound,
    /// The request body was rejected by validation.
    BadRequest,
    /// The store failed the operation.
    ServerError,
}

impl Status {
    /// The numeric code this status is sent as.
    pub open spec fn spec_code(&self) -> u16 {
        match self {
            Status::NoContent => 204,
            Status::Okay => 200,
            Status::NotFound => 404,
            Status::BadRequest => 400,
            Status::ServerError => 500,
        }
    }

    /// The numeric code this status is sent as.
    pub fn code(&self) -> (r: u16)
        ensures
            r == self.spec_code(),
    {
        match self {
            Status::NoContent => 204,
            Status::Okay => 200,
            Status::NotFound => 404,
            Status::BadRequest => 400,
            Status::ServerError => 500,
        }
    }
}

/// Maps a deletion count to the response: one removal is success, zero
/// removals is "not found" — a normal outcome, never a failure.
pub fn delete_response(deleted_count: u64) -> (r: Status)
    ensures
        r == (if deleted_count == 1 {
            Status::Okay
        } else {
            Status::NotFound
        }),
{
    if deleted_count == 1 {
        Status::Okay
    } else {
        Status::NotFound
    }
}

/// Maps the outcome of the store's insert to the response: success is an
/// empty-body success; a store failure is a server error, not a crash.
pub fn create_response(inserted: bool) -> (r: Status)
    ensures
        r == (if inserted {
            Status::NoContent
        } else {
            Status::ServerError
        }),
{
    if inserted {
        Status::NoContent
    } else {
        Status::ServerError
    }
}

/// Handles a creation request against the store: validate, insert, respond.
/// A rejected body never reaches the store; an accepted one adds exactly one
/// record, under a fresh identifier, with the given name and priority.
pub fn create_task(store: &mut TaskStore, name: Option<String>, priority_tag: Option<String>) -> (r:
    Status)
    requires
        old(store).wf(),
    ensures
        final(store).wf(),
        spec_validate(name.deep_view(), priority_tag.deep_view()) is Err ==> r
            == Status::BadRequest && final(store)@ == old(store)@ && final(store).ids_used() == old(
            store,
        ).ids_used(),
        spec_validate(name.deep_view(), priority_tag.deep_view()) matches Ok(v) ==> {
            &&& old(store).can_insert() ==> r == Status::NoContent && (exists|id: u64|
                !old(store)@.dom().contains(id) && final(store)@ == old(store)@.insert(id, v))
            &&& !old(store).can_insert() ==> r == Status::ServerError && final(store)@ == old(
                store,
            )@
        },
{
    match validate_create(name, priority_tag) {
        Err(_) => Status::BadRequest,
        Ok(t) => {
            let ghost content = (t.name@, t.priority);
            match store.insert(t) {
                Ok(id) => {
                    proof {
                        assert(!old(store)@.dom().contains(id) && store@ == old(store)@.insert(
                            id,
                            content,
                        ));
                    }
                    Status::NoContent
                },
                Err(_) => Status::ServerError,
            }
        },
    }
}

/// Handles a deletion request: removes the record carrying the identifier if
/// one is there and reports success; reports "not found", with the collection
/// unchanged, if none is.
pub fn delete_task(store: &mut TaskStore, id: u64) -> (r: Status)
    requires
        old(store).wf(),
    ensures
        final(store).wf(),
        old(store)@.dom().contains(id) ==> r == Status::Okay && final(store)@ == old(
            store,
        )@.remove(id),
        !old(store)@.dom().contains(id) ==> r == Status::NotFound && final(store)@ == old(store)@,
        !final(store)@.dom().contains(id),
        final(store).ids_used() == old(store).ids_used(),
{
    let count = store.delete_by_id(id);
    delete_response(count)
}

} // verus!
