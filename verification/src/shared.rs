use vstd::prelude::*;
use vstd::rwlock::{RwLock, RwLockPredicate};

use crate::date::spec_parse_date_or_default;
use crate::form::{spec_lookup, FormData};
use crate::ids::parsed_uuid;
use crate::store::{distinct_ids, models, Todo, TodoList};
use crate::validator::{
    create_todo, edit_todo, spec_fields_missing, toggle_todo, ValidationError,
};

verus! {

/// The lock invariant: whatever sits in the lock is a well-formed store.
pub struct StoreInv {}

impl RwLockPredicate<TodoList> for StoreInv {
    open spec fn inv(self, v: TodoList) -> bool {
        v.wf()
    }
}

/// The store as the request handlers share it: one lock around the whole
/// mapping, held for the duration of each operation, so that every
/// operation is atomic with respect to every other and no caller ever
/// observes a partially-updated item. Callers receive copies only.
pub struct SharedTodoList {
    lock: RwLock<TodoList, StoreInv>,
}

impl SharedTodoList {
    pub fn new() -> (s: SharedTodoList) {
        SharedTodoList { lock: RwLock::new(TodoList::new(), Ghost(StoreInv {})) }
    }

    /// A create request against the shared store. Succeeds exactly when the
    /// three required fields are present; the created item carries the
    /// given title, the coerced dates, and a clear completion flag.
    pub fn create(&self, form: &FormData) -> (r: Result<Todo, ValidationError>)
        ensures
            match r {
                Ok(t) => {
                    &&& !spec_fields_missing(form@)
                    &&& spec_lookup(form@, "title"@) == Some(t@.title)
                    &&& t@.complete == false
                    &&& t@.startable == spec_parse_date_or_default(
                        spec_lookup(form@, "start-date"@)->Some_0,
                    )
                    &&& t@.due == spec_parse_date_or_default(
                        spec_lookup(form@, "due-date"@)->Some_0,
                    )
                },
                Err(e) => {
                    &&& e == ValidationError::MissingField
                    &&& spec_fields_missing(form@)
                },
            },
    {
        let (mut list, handle) = self.lock.acquire_write();
        let r = create_todo(&mut list, form);
        handle.release_write(list);
        r
    }

    /// An edit request against the shared store: all-or-nothing over the
    /// fields, the identifier string, and the item's presence at the moment
    /// the lock is held.
    pub fn edit(&self, form: &FormData, id_str: &str) -> (r: Result<(), ValidationError>)
        ensures
            match r {
                Ok(u) => !spec_fields_missing(form@) && parsed_uuid(id_str@) is Some,
                Err(e) => match e {
                    ValidationError::MissingField => spec_fields_missing(form@),
                    ValidationError::MalformedId => {
                        &&& !spec_fields_missing(form@)
                        &&& parsed_uuid(id_str@) is None
                    },
                    ValidationError::UnknownId => {
                        &&& !spec_fields_missing(form@)
                        &&& parsed_uuid(id_str@) is Some
                    },
                },
            },
    {
        let (mut list, handle) = self.lock.acquire_write();
        let r = edit_todo(&mut list, form, id_str);
        handle.release_write(list);
        r
    }

    /// A toggle request against the shared store: fails exactly when the
    /// identifier string does not parse; an unknown identifier is a silent
    /// no-op.
    pub fn toggle(&self, id_str: &str) -> (r: Result<(), ValidationError>)
        ensures
            r is Ok <==> parsed_uuid(id_str@) is Some,
            match r {
                Ok(u) => true,
                Err(e) => e == ValidationError::MalformedId,
            },
    {
        let (mut list, handle) = self.lock.acquire_write();
        let r = toggle_todo(&mut list, id_str);
        handle.release_write(list);
        r
    }

    /// A copy of the item with this identifier in the state the lock
    /// observed, or `None`.
    pub fn get(&self, id: u128) -> (r: Option<Todo>)
        ensures
            match r {
                Some(t) => t@.id == id,
                None => true,
            },
    {
        let (mut list, handle) = self.lock.acquire_write();
        let r = list.get(id);
        proof {
            if r is Some {
                let s = list@;
                assert(s[crate::store::index_of_id(s, id)].id == id);
            }
        }
        handle.release_write(list);
        r
    }

    /// A snapshot copy of all items in the state the lock observed; their
    /// identifiers are pairwise distinct.
    pub fn list(&self) -> (r: Vec<Todo>)
        ensures
            distinct_ids(models(r@)),
    {
        let (mut list, handle) = self.lock.acquire_write();
        let r = list.get_all();
        handle.release_write(list);
        r
    }
}

} // verus!
