use todo_list::date::Date;
use todo_list::form::{parse_form_data, FormData};
use todo_list::ids::format_id;
use todo_list::store::{IncomingTodo, Todo, TodoList};
use todo_list::validator::{
    create_todo, edit_todo, partition_todos, toggle_todo, ValidationError,
};

fn date(y: u32, m: u32, d: u32) -> Date {
    Date { year: y, month: m, day: d }
}

fn incoming(title: &str, startable: Date, due: Date) -> IncomingTodo {
    IncomingTodo { title: String::from(title), startable, due }
}

fn sorted_by_id(mut items: Vec<Todo>) -> Vec<Todo> {
    items.sort_by(|a, b| a.id.cmp(&b.id));
    items
}

fn assert_same_items(a: Vec<Todo>, b: Vec<Todo>) {
    let a = sorted_by_id(a);
    let b = sorted_by_id(b);
    assert_eq!(a.len(), b.len());
    for (x, y) in a.iter().zip(b.iter()) {
        assert_eq!(x.id, y.id);
        assert_eq!(x.title, y.title);
        assert_eq!(x.complete, y.complete);
        assert_eq!(x.startable, y.startable);
        assert_eq!(x.due, y.due);
    }
}

/// An identifier no item of the store carries.
fn unused_id(list: &mut TodoList) -> u128 {
    let mut candidate: u128 = 0;
    loop {
        if list.get(candidate).is_none() {
            return candidate;
        }
        candidate += 1;
    }
}

#[test]
fn get_after_add_returns_created_item() {
    let mut list = TodoList::new();
    let created = list.add(incoming("buy milk", date(2024, 1, 2), date(2024, 3, 4)));
    assert_eq!(created.title, "buy milk");
    assert!(!created.complete);
    assert_eq!(created.startable, date(2024, 1, 2));
    assert_eq!(created.due, date(2024, 3, 4));
    let got = list.get(created.id).expect("created item must be present");
    assert_eq!(got.id, created.id);
    assert_eq!(got.title, "buy milk");
    assert!(!got.complete);
    assert_eq!(got.startable, date(2024, 1, 2));
    assert_eq!(got.due, date(2024, 3, 4));
}

#[test]
fn get_unknown_id_is_none() {
    let mut list = TodoList::new();
    let free = unused_id(&mut list);
    assert!(list.get(free).is_none());
}

#[test]
fn created_ids_are_pairwise_distinct() {
    let mut list = TodoList::new();
    let mut ids: Vec<u128> = Vec::new();
    for i in 0..50 {
        let t = list.add(incoming(&format!("item {}", i), date(2024, 1, 1), date(2024, 2, 1)));
        ids.push(t.id);
    }
    assert_eq!(list.get_all().len(), 50);
    for i in 0..ids.len() {
        for j in (i + 1)..ids.len() {
            assert_ne!(ids[i], ids[j]);
        }
    }
}

#[test]
fn toggle_twice_restores_flag() {
    let mut list = TodoList::new();
    let t = list.add(incoming("laundry", date(2024, 1, 1), date(2024, 2, 1)));
    assert!(!t.complete);
    list.toggle_completed(t.id);
    assert!(list.get(t.id).unwrap().complete);
    list.toggle_completed(t.id);
    assert!(!list.get(t.id).unwrap().complete);
}

#[test]
fn toggle_unknown_id_leaves_list_unchanged() {
    let mut list = TodoList::new();
    list.add(incoming("one", date(2024, 1, 1), date(2024, 2, 1)));
    list.add(incoming("two", date(2025, 1, 1), date(2025, 2, 1)));
    let before = list.get_all();
    let free = unused_id(&mut list);
    list.toggle_completed(free);
    let after = list.get_all();
    assert_same_items(before, after);
}

#[test]
fn update_overwrites_existing_id() {
    let mut list = TodoList::new();
    let t = list.add(incoming("draft", date(2024, 1, 1), date(2024, 2, 1)));
    let replacement = Todo {
        id: t.id,
        title: String::from("final"),
        complete: true,
        startable: date(2024, 5, 6),
        due: date(2024, 7, 8),
    };
    list.update(replacement);
    let got = list.get(t.id).unwrap();
    assert_eq!(got.title, "final");
    assert!(got.complete);
    assert_eq!(got.startable, date(2024, 5, 6));
    assert_eq!(got.due, date(2024, 7, 8));
    assert_eq!(list.get_all().len(), 1);
}

#[test]
fn update_unknown_id_inserts() {
    let mut list = TodoList::new();
    let free = unused_id(&mut list);
    let item = Todo {
        id: free,
        title: String::from("resurrected"),
        complete: false,
        startable: date(2024, 1, 1),
        due: date(2024, 2, 1),
    };
    list.update(item);
    assert_eq!(list.get_all().len(), 1);
    assert_eq!(list.get(free).unwrap().title, "resurrected");
}

#[test]
fn parse_date_exact_value() {
    assert_eq!(Date::parse_or_default("2024-02-15"), date(2024, 2, 15));
}

#[test]
fn parse_date_invalid_calendar_day_falls_back() {
    assert_eq!(Date::parse_or_default("2024-02-30"), date(1970, 1, 1));
}

#[test]
fn parse_date_wrong_shape_falls_back() {
    assert_eq!(Date::parse_or_default("garbage"), date(1970, 1, 1));
    assert_eq!(Date::parse_or_default("2024-2-15"), date(1970, 1, 1));
    assert_eq!(Date::parse_or_default(""), date(1970, 1, 1));
    assert_eq!(Date::parse_or_default("2024-13-01"), date(1970, 1, 1));
    assert_eq!(Date::parse_or_default("2024-00-10"), date(1970, 1, 1));
}

#[test]
fn parse_date_leap_day() {
    assert_eq!(Date::parse_or_default("2024-02-29"), date(2024, 2, 29));
    assert_eq!(Date::parse_or_default("2023-02-29"), date(1970, 1, 1));
    assert_eq!(Date::parse_or_default("1900-02-29"), date(1970, 1, 1));
    assert_eq!(Date::parse_or_default("2000-02-29"), date(2000, 2, 29));
}

#[test]
fn form_data_splits_key_value() {
    let form = parse_form_data("title=hello&due-date=2024-01-02&start-date=2024-03-04");
    assert_eq!(form.get("title").unwrap().as_str(), "hello");
    assert_eq!(form.get("due-date").unwrap().as_str(), "2024-01-02");
    assert_eq!(form.get("start-date").unwrap().as_str(), "2024-03-04");
    assert!(form.get("absent").is_none());
}

#[test]
fn form_data_value_stops_at_second_equals() {
    let form = parse_form_data("a=b=c");
    assert_eq!(form.get("a").unwrap().as_str(), "b");
}

#[test]
fn form_data_bare_key_maps_to_true() {
    let form = parse_form_data("flag");
    assert_eq!(form.get("flag").unwrap().as_str(), "true");
}

#[test]
fn form_data_empty_body_has_empty_key() {
    let form = parse_form_data("");
    assert_eq!(form.get("").unwrap().as_str(), "true");
}

#[test]
fn form_data_last_duplicate_wins() {
    let form = parse_form_data("k=first&k=second");
    assert_eq!(form.get("k").unwrap().as_str(), "second");
}

#[test]
fn create_via_validator_stores_item() {
    let mut list = TodoList::new();
    let form = parse_form_data("title=shop&due-date=2024-02-15&start-date=2024-02-30");
    let created = create_todo(&mut list, &form).expect("all fields present");
    assert_eq!(created.title, "shop");
    assert!(!created.complete);
    // the malformed start date falls back to the sentinel; the due date is kept
    assert_eq!(created.startable, date(1970, 1, 1));
    assert_eq!(created.due, date(2024, 2, 15));
    let got = list.get(created.id).unwrap();
    assert_eq!(got.title, "shop");
}

#[test]
fn create_missing_field_changes_nothing() {
    let mut list = TodoList::new();
    let form = parse_form_data("title=shop&start-date=2024-01-01");
    let r = create_todo(&mut list, &form);
    assert_eq!(r.unwrap_err(), ValidationError::MissingField);
    assert_eq!(list.get_all().len(), 0);
}

#[test]
fn create_with_handmade_form() {
    let mut list = TodoList::new();
    let mut form = FormData::new();
    form.push(String::from("title"), String::from("walk dog"));
    form.push(String::from("due-date"), String::from("2024-06-07"));
    form.push(String::from("start-date"), String::from("2024-06-01"));
    let created = create_todo(&mut list, &form).unwrap();
    assert_eq!(created.title, "walk dog");
    assert_eq!(created.startable, date(2024, 6, 1));
    assert_eq!(created.due, date(2024, 6, 7));
}

#[test]
fn edit_preserves_id_and_complete() {
    let mut list = TodoList::new();
    let created = {
        let form = parse_form_data("title=old&due-date=2024-01-02&start-date=2024-01-01");
        create_todo(&mut list, &form).unwrap()
    };
    // mark it complete, then edit the text and dates
    list.toggle_completed(created.id);
    let id_str = format_id(created.id);
    let form = parse_form_data("title=new&due-date=2025-01-02&start-date=2025-01-01");
    edit_todo(&mut list, &form, &id_str).expect("item exists");
    let got = list.get(created.id).unwrap();
    assert_eq!(got.id, created.id);
    assert_eq!(got.title, "new");
    assert!(got.complete, "editing must preserve the completion flag");
    assert_eq!(got.startable, date(2025, 1, 1));
    assert_eq!(got.due, date(2025, 1, 2));
    assert_eq!(list.get_all().len(), 1);
}

#[test]
fn edit_malformed_id_fails() {
    let mut list = TodoList::new();
    let form = parse_form_data("title=x&due-date=2024-01-02&start-date=2024-01-01");
    let r = edit_todo(&mut list, &form, "not-a-uuid");
    assert_eq!(r.unwrap_err(), ValidationError::MalformedId);
    assert_eq!(list.get_all().len(), 0);
}

#[test]
fn edit_unknown_id_fails() {
    let mut list = TodoList::new();
    let free = unused_id(&mut list);
    let id_str = format_id(free);
    let form = parse_form_data("title=x&due-date=2024-01-02&start-date=2024-01-01");
    let r = edit_todo(&mut list, &form, &id_str);
    assert_eq!(r.unwrap_err(), ValidationError::UnknownId);
    assert_eq!(list.get_all().len(), 0);
}

#[test]
fn edit_missing_field_wins_over_bad_id() {
    let mut list = TodoList::new();
    let form = parse_form_data("title=x&start-date=2024-01-01");
    let r = edit_todo(&mut list, &form, "not-a-uuid");
    assert_eq!(r.unwrap_err(), ValidationError::MissingField);
}

#[test]
fn toggle_via_id_string_round_trip() {
    let mut list = TodoList::new();
    let created = list.add(incoming("round trip", date(2024, 1, 1), date(2024, 2, 1)));
    let id_str = format_id(created.id);
    toggle_todo(&mut list, &id_str).expect("well-formed id string");
    assert!(list.get(created.id).unwrap().complete);
}

#[test]
fn toggle_malformed_id_string_fails() {
    let mut list = TodoList::new();
    let r = toggle_todo(&mut list, "xyz");
    assert_eq!(r.unwrap_err(), ValidationError::MalformedId);
}

#[test]
fn toggle_unknown_id_string_is_success() {
    let mut list = TodoList::new();
    list.add(incoming("stays", date(2024, 1, 1), date(2024, 2, 1)));
    let before = list.get_all();
    let free = unused_id(&mut list);
    let id_str = format_id(free);
    toggle_todo(&mut list, &id_str).expect("unknown id toggles as a silent no-op");
    assert_same_items(before, list.get_all());
}

#[test]
fn partition_splits_current_and_upcoming() {
    let mut list = TodoList::new();
    let early = list.add(incoming("early", date(2024, 1, 1), date(2024, 12, 31)));
    let late = list.add(incoming("late", date(2099, 1, 1), date(2099, 12, 31)));
    let (current, upcoming) = partition_todos(list.get_all(), date(2024, 6, 1));
    assert_eq!(current.len(), 1);
    assert_eq!(upcoming.len(), 1);
    assert_eq!(current[0].id, early.id);
    assert_eq!(upcoming[0].id, late.id);
}

#[test]
fn partition_boundary_day_is_current() {
    let mut list = TodoList::new();
    list.add(incoming("today", date(2024, 6, 1), date(2024, 7, 1)));
    let (current, upcoming) = partition_todos(list.get_all(), date(2024, 6, 1));
    assert_eq!(current.len(), 1);
    assert_eq!(upcoming.len(), 0);
}

#[test]
fn format_id_parses_back() {
    let mut list = TodoList::new();
    let a = list.add(incoming("a", date(2024, 1, 1), date(2024, 2, 1)));
    let b = list.add(incoming("b", date(2024, 1, 1), date(2024, 2, 1)));
    assert_ne!(format_id(a.id), format_id(b.id));
    // toggling through a's string must touch a and only a
    let id_str = format_id(a.id);
    toggle_todo(&mut list, &id_str).unwrap();
    assert!(list.get(a.id).unwrap().complete);
    assert!(!list.get(b.id).unwrap().complete);
}

#[test]
fn shared_store_serves_requests() {
    let shared = todo_list::shared::SharedTodoList::new();
    let form = parse_form_data("title=shared&due-date=2024-02-15&start-date=2024-01-01");
    let created = shared.create(&form).expect("all fields present");
    assert_eq!(created.title, "shared");
    assert!(!created.complete);
    let got = shared.get(created.id).expect("item is stored");
    assert_eq!(got.id, created.id);
    assert_eq!(got.title, "shared");
    let id_str = format_id(created.id);
    shared.toggle(&id_str).expect("well-formed id string");
    assert!(shared.get(created.id).unwrap().complete);
    let edit_form = parse_form_data("title=renamed&due-date=2025-02-15&start-date=2025-01-01");
    shared.edit(&edit_form, &id_str).expect("item exists");
    let after = shared.get(created.id).unwrap();
    assert_eq!(after.title, "renamed");
    assert!(after.complete, "editing must preserve the completion flag");
    assert_eq!(shared.list().len(), 1);
}

#[test]
fn shared_store_rejects_like_the_validator() {
    let shared = todo_list::shared::SharedTodoList::new();
    let missing = parse_form_data("title=x&start-date=2024-01-01");
    assert_eq!(
        shared.create(&missing).unwrap_err(),
        ValidationError::MissingField
    );
    assert_eq!(shared.list().len(), 0);
    let full = parse_form_data("title=x&due-date=2024-01-02&start-date=2024-01-01");
    assert_eq!(
        shared.edit(&full, "not-a-uuid").unwrap_err(),
        ValidationError::MalformedId
    );
    assert_eq!(
        shared.toggle("not-a-uuid").unwrap_err(),
        ValidationError::MalformedId
    );
}
