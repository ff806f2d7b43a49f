use vstd::prelude::*;

use crate::date::{spec_date_le, spec_parse_date_or_default, Date};
use crate::form::{spec_lookup, FieldModel, FormData};
use crate::ids::{parse_uuid, parsed_uuid};
use crate::store::{
    has_id, models, spec_get, spec_toggle, spec_upsert, IncomingTodo, ItemModel, Todo, TodoList,
};

verus! {

/// Why an operation was rejected. Rejections are local and recoverable; the
/// store is never touched by a rejected operation.
#[derive(Clone, Copy, Debug, PartialEq, Eq, Structural)]
pub enum ValidationError {
    /// A required form field was absent.
    MissingField,
    /// The identifier string did not parse.
    MalformedId,
    /// The identifier parsed but no item carries it.
    UnknownId,
}

/// A required create/edit field is absent from the mapping.
pub open spec fn spec_fields_missing(form: Seq<FieldModel>) -> bool {
    ||| spec_lookup(form, "title"@) is None
    ||| spec_lookup(form, "due-date"@) is None
    ||| spec_lookup(form, "start-date"@) is None
}

/// The replacement record the edit path builds: identifier and completion
/// flag kept from the stored item, title and dates taken from the form.
pub open spec fn spec_edited(m: ItemModel, form: Seq<FieldModel>) -> ItemModel {
    ItemModel {
        id: m.id,
        title: spec_lookup(form, "title"@)->Some_0,
        complete: m.complete,
        startable: spec_parse_date_or_default(spec_lookup(form, "start-date"@)->Some_0),
        due: spec_parse_date_or_default(spec_lookup(form, "due-date"@)->Some_0),
    }
}

/// Validates and performs a create request: `title`, `due-date` and
/// `start-date` must all be present, or nothing happens; dates fall back to
/// the sentinel when unparsable; on success the created item is returned.
pub fn create_todo(list: &mut TodoList, form: &FormData) -> (r: Result<Todo, ValidationError>)
    requires
        old(list).wf(),
    ensures
        final(list).wf(),
        match r {
            Ok(t) => {
                &&& !spec_fields_missing(form@)
                &&& spec_lookup(form@, "title"@) == Some(t@.title)
                &&& t@.startable == spec_parse_date_or_default(
                    spec_lookup(form@, "start-date"@)->Some_0,
                )
                &&& t@.due == spec_parse_date_or_default(spec_lookup(form@, "due-date"@)->Some_0)
                &&& t@.complete == false
                &&& !has_id(old(list)@, t@.id)
                &&& final(list)@ == old(list)@.push(t@)
            },
            Err(e) => {
                &&& e == ValidationError::MissingField
                &&& spec_fields_missing(form@)
                &&& final(list)@ == old(list)@
            },
        },
{
    let title = match form.get("title") {
        Some(v) => v,
        None => { return Err(ValidationError::MissingField) },
    };
    let due_date = match form.get("due-date") {
        Some(v) => v,
        None => { return Err(ValidationError::MissingField) },
    };
    let start_date = match form.get("start-date") {
        Some(v) => v,
        None => { return Err(ValidationError::MissingField) },
    };
    let new = IncomingTodo {
        title: title.clone(),
        startable: Date::parse_or_default(start_date.as_str()),
        due: Date::parse_or_default(due_date.as_str()),
    };
    let created = list.add(new);
    Ok(created)
}

/// Validates and performs an edit request: all three fields must be
/// present, the identifier string must parse, and the item must exist, or
/// nothing happens (all-or-nothing, checked in that order); on success the
/// stored item is replaced by `spec_edited` of it.
pub fn edit_todo(list: &mut TodoList, form: &FormData, id_str: &str) -> (r: Result<
    (),
    ValidationError,
>)
    requires
        old(list).wf(),
    ensures
        final(list).wf(),
        match r {
            Ok(u) => {
                let id = parsed_uuid(id_str@)->Some_0;
                &&& !spec_fields_missing(form@)
                &&& parsed_uuid(id_str@) is Some
                &&& has_id(old(list)@, id)
                &&& final(list)@ == spec_upsert(
                    old(list)@,
                    spec_edited(spec_get(old(list)@, id)->Some_0, form@),
                )
            },
            Err(e) => {
                &&& final(list)@ == old(list)@
                &&& match e {
                    ValidationError::MissingField => spec_fields_missing(form@),
                    ValidationError::MalformedId => {
                        &&& !spec_fields_missing(form@)
                        &&& parsed_uuid(id_str@) is None
                    },
                    ValidationError::UnknownId => {
                        &&& !spec_fields_missing(form@)
                        &&& parsed_uuid(id_str@) is Some
                        &&& !has_id(old(list)@, parsed_uuid(id_str@)->Some_0)
                    },
                }
            },
        },
{
    let title = match form.get("title") {
        Some(v) => v,
        None => { return Err(ValidationError::MissingField) },
    };
    let due_date = match form.get("due-date") {
        Some(v) => v,
        None => { return Err(ValidationError::MissingField) },
    };
    let start_date = match form.get("start-date") {
        Some(v) => v,
        None => { return Err(ValidationError::MissingField) },
    };
    let id = match parse_uuid(id_str) {
        Some(i) => i,
        None => { return Err(ValidationError::MalformedId) },
    };
    let existing = match list.get(id) {
        Some(t) => t,
        None => { return Err(ValidationError::UnknownId) },
    };
    let updated = Todo {
        id: existing.id,
        title: title.clone(),
        complete: existing.complete,
        startable: Date::parse_or_default(start_date.as_str()),
        due: Date::parse_or_default(due_date.as_str()),
    };
    list.update(updated);
    Ok(())
}

/// Validates and performs a toggle request: the identifier string must
/// parse; toggling an identifier no item carries is a success that changes
/// nothing.
pub fn toggle_todo(list: &mut TodoList, id_str: &str) -> (r: Result<(), ValidationError>)
    requires
        old(list).wf(),
    ensures
        final(list).wf(),
        match r {
            Ok(u) => {
                &&& parsed_uuid(id_str@) is Some
                &&& final(list)@ == spec_toggle(old(list)@, parsed_uuid(id_str@)->Some_0)
            },
            Err(e) => {
                &&& e == ValidationError::MalformedId
                &&& parsed_uuid(id_str@) is None
                &&& final(list)@ == old(list)@
            },
        },
{
    let id = match parse_uuid(id_str) {
        Some(i) => i,
        None => { return Err(ValidationError::MalformedId) },
    };
    list.toggle_completed(id);
    Ok(())
}

/// The items whose `startable` is on or before `today`, in order.
pub open spec fn spec_current(s: Seq<ItemModel>, today: Date) -> Seq<ItemModel>
    decreases s.len(),
{
    if s.len() == 0 {
        Seq::empty()
    } else if spec_date_le(s.last().startable, today) {
        spec_current(s.drop_last(), today).push(s.last())
    } else {
        spec_current(s.drop_last(), today)
    }
}

/// The items whose `startable` is after `today`, in order.
pub open spec fn spec_upcoming(s: Seq<ItemModel>, today: Date) -> Seq<ItemModel>
    decreases s.len(),
{
    if s.len() == 0 {
        Seq::empty()
    } else if !spec_date_le(s.last().startable, today) {
        spec_upcoming(s.drop_last(), today).push(s.last())
    } else {
        spec_upcoming(s.drop_last(), today)
    }
}

/// The listing view: splits a snapshot into the items current on `today`
/// (startable on or before it) and the upcoming rest. No other filtering or
/// ordering is applied.
pub fn partition_todos(items: Vec<Todo>, today: Date) -> (r: (Vec<Todo>, Vec<Todo>))
    ensures
        models(r.0@) == spec_current(models(items@), today),
        models(r.1@) == spec_upcoming(models(items@), today),
{
    let mut current: Vec<Todo> = Vec::new();
    let mut upcoming: Vec<Todo> = Vec::new();
    let n = items.len();
    let mut i: usize = 0;
    proof {
        assert(models(current@) =~= spec_current(models(items@).take(0), today));
        assert(models(upcoming@) =~= spec_upcoming(models(items@).take(0), today));
    }
    while i < n
        invariant
            i <= n,
            n == items.len(),
            models(current@) == spec_current(models(items@).take(i as int), today),
            models(upcoming@) == spec_upcoming(models(items@).take(i as int), today),
        decreases n - i,
    {
        let ghost pre_cur = models(current@);
        let ghost pre_up = models(upcoming@);
        let ghost taken = models(items@).take(i as int + 1);
        proof {
            assert(taken.drop_last() =~= models(items@).take(i as int));
            assert(taken.last() == models(items@)[i as int]);
        }
        let item = items[i].clone();
        if item.startable.le(&today) {
            current.push(item);
            proof {
                assert(models(current@) =~= pre_cur.push(models(items@)[i as int]));
                assert(models(upcoming@) == pre_up);
            }
        } else {
            upcoming.push(item);
            proof {
                assert(models(upcoming@) =~= pre_up.push(models(items@)[i as int]));
                assert(models(current@) == pre_cur);
            }
        }
        i += 1;
    }
    proof {
        assert(models(items@).take(n as int) =~= models(items@));
    }
    (current, upcoming)
}

} // verus!
