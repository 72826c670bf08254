//! The request side of the queue: create, list, look up and delete, each a
//! single operation on the table, and the status each answer carries.

use vstd::prelude::*;
use crate::filter::{selected_states, selected_types, selection};
use crate::store::{delete_outcome, deleted, has_id, listing, slot, task_of, DeleteOutcome, Row, Store};
use crate::task::{id_text, uuid_text, Task};
use crate::task_state::TaskState;
use crate::task_type::TaskType;

verus! {

/// Why a request failed.
#[derive(Clone, Debug)]
pub enum Error {
    /// The request named a task type outside the closed set; the table was not touched.
    Validation,
    /// The table refused or failed the operation; the text says why.
    Db(String),
}

/// Status of an answered request.
pub const STATUS_OK: u16 = 200;

/// Status of a request for a task that is not there.
pub const STATUS_NOT_FOUND: u16 = 404;

/// Status of a request that named an unknown task type.
pub const STATUS_UNPROCESSABLE: u16 = 422;

/// Status of a request on which the table failed.
pub const STATUS_SERVER_ERROR: u16 = 500;

impl Error {
    /// The status that reports this error.
    pub fn status(&self) -> (r: u16)
        ensures
            r == match self {
                Error::Validation => STATUS_UNPROCESSABLE,
                Error::Db(_) => STATUS_SERVER_ERROR,
            },
    {
        match self {
            Error::Validation => STATUS_UNPROCESSABLE,
            Error::Db(_) => STATUS_SERVER_ERROR,
        }
    }

    /// The text of the `message` field that reports this error.
    pub fn message(&self) -> (r: String)
        ensures
            self matches Error::Db(m) ==> r@ == m@,
            self is Validation ==> r@ == "unknown task type"@,
    {
        match self {
            Error::Validation => "unknown task type".to_owned(),
            Error::Db(m) => m.clone(),
        }
    }
}

impl DeleteOutcome {
    /// The status that answers a delete request, once the table has
    /// answered: a request that met a leased row has no answer yet.
    pub fn status(&self) -> (r: Option<u16>)
        ensures
            r == match self {
                DeleteOutcome::Deleted => Some(STATUS_OK),
                DeleteOutcome::NotFound => Some(STATUS_NOT_FOUND),
                DeleteOutcome::Leased => None,
            },
    {
        match self {
            DeleteOutcome::Deleted => Some(STATUS_OK),
            DeleteOutcome::NotFound => Some(STATUS_NOT_FOUND),
            DeleteOutcome::Leased => None,
        }
    }
}

/// The status that answers a lookup: found or not.
pub fn lookup_status(found: &Option<Task>) -> (r: u16)
    ensures
        r == if found is Some { STATUS_OK } else { STATUS_NOT_FOUND },
{
    match found {
        Some(_) => STATUS_OK,
        None => STATUS_NOT_FOUND,
    }
}

/// The view of an optional text.
pub open spec fn text_of(s: Option<&str>) -> Option<Seq<char>> {
    match s {
        Some(t) => Some(t@),
        None => None,
    }
}

/// Creates a task of the type that `type_token` names, under the fresh id
/// `id`, submitted at `now`, and answers with the id's text. An unknown type
/// is refused before the table is touched.
pub fn create(store: &mut Store, type_token: &str, id: u128, now: i64) -> (r: Result<String, Error>)
    requires
        old(store).wf(),
    ensures
        final(store).wf(),
        match TaskType::parse(type_token@) {
            None => r is Err && r->Err_0 is Validation && final(store)@ == old(store)@,
            Some(t) => if has_id(old(store)@, id) {
                &&& r matches Err(Error::Db(m)) && m@ == "duplicate task id"@
                &&& final(store)@ == old(store)@
            } else {
                &&& r is Ok
                &&& r->Ok_0@ == uuid_text(id)
                &&& final(store)@ == old(store)@.insert(
                    slot(old(store)@, now),
                    Row { task: Task { id, task_type: t, submitted: now, state: TaskState::Incomplete }, holder: None },
                )
            },
        },
{
    match TaskType::from_str(type_token) {
        Err(_) => Err(Error::Validation),
        Ok(t) => match store.insert(id, t, now) {
            Err(_) => Err(Error::Db("duplicate task id".to_owned())),
            Ok(_) => Ok(id_text(id)),
        },
    }
}

/// Lists the tasks that the two filters select, newest first. An absent
/// filter, or one that names nothing, selects every type and every state
/// but `Deleted`.
pub fn list(store: &Store, types: Option<&str>, states: Option<&str>) -> (r: Vec<Task>)
    ensures
        r@ == listing(
            store@,
            selection::<TaskType>(text_of(types), TaskType::all()),
            selection::<TaskState>(text_of(states), TaskState::default_filter()),
        ),
{
    let types = selected_types(types);
    let states = selected_states(states);
    store.list(&types, &states)
}

/// Looks a task up by id: the status and, where it is found, the task.
pub fn get(store: &Store, id: u128) -> (r: (u16, Option<Task>))
    requires
        store.wf(),
    ensures
        r.1 == task_of(store@, id),
        r.0 == if has_id(store@, id) { STATUS_OK } else { STATUS_NOT_FOUND },
{
    let found = store.get(id);
    (lookup_status(&found), found)
}

/// Deletes the incomplete task `id`.
pub fn delete(store: &mut Store, id: u128) -> (r: DeleteOutcome)
    requires
        old(store).wf(),
    ensures
        final(store).wf(),
        r == delete_outcome(old(store)@, id),
        final(store)@ == deleted(old(store)@, id),
{
    store.delete(id)
}

} // verus!
