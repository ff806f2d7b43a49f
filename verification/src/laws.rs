use vstd::prelude::*;

use crate::store::{
    distinct_ids, has_id, index_of_id, spec_get, spec_toggle, spec_toggled, spec_upsert, ItemModel,
    lemma_index_unique,
};

verus! {

/// Identifiers returned by `add` are pairwise distinct over any sequence of
/// calls: an `add` returns an identifier that was absent just before the
/// call, no operation ever removes an identifier (see the lemmas below), so
/// the identifier of an earlier `add` is still present when a later `add`
/// picks its own.
pub proof fn lemma_created_ids_distinct(s: Seq<ItemModel>, id1: u128, id2: u128)
    requires
        has_id(s, id1),
        !has_id(s, id2),
    ensures
        id1 != id2,
{
}

/// Appending an entry removes no identifier.
pub proof fn lemma_push_preserves_ids(s: Seq<ItemModel>, m: ItemModel, id: u128)
    requires
        has_id(s, id),
    ensures
        has_id(s.push(m), id),
{
    let i = choose|i: int| 0 <= i < s.len() && s[i].id == id;
    assert(s.push(m)[i].id == id);
}

/// Storing a record whole removes no identifier.
pub proof fn lemma_upsert_preserves_ids(s: Seq<ItemModel>, m: ItemModel, id: u128)
    requires
        has_id(s, id),
    ensures
        has_id(spec_upsert(s, m), id),
{
    let i = choose|i: int| 0 <= i < s.len() && s[i].id == id;
    if has_id(s, m.id) {
        let j = index_of_id(s, m.id);
        if i == j {
            assert(spec_upsert(s, m)[i].id == id);
        } else {
            assert(spec_upsert(s, m)[i].id == id);
        }
    } else {
        assert(spec_upsert(s, m)[i].id == id);
    }
}

/// Toggling removes no identifier.
pub proof fn lemma_toggle_preserves_ids(s: Seq<ItemModel>, tid: u128, id: u128)
    requires
        has_id(s, id),
    ensures
        has_id(spec_toggle(s, tid), id),
{
    let i = choose|i: int| 0 <= i < s.len() && s[i].id == id;
    if has_id(s, tid) {
        assert(spec_toggle(s, tid)[i].id == id);
    }
}

/// Reading back a freshly appended entry by its identifier yields exactly
/// that entry (and so a `get` right after an `add` returns the created item,
/// with its completion flag still clear).
pub proof fn lemma_get_after_add(s: Seq<ItemModel>, m: ItemModel)
    requires
        !has_id(s, m.id),
    ensures
        spec_get(s.push(m), m.id) == Some(m),
{
    let s1 = s.push(m);
    assert(s1[s.len() as int] == m);
    assert(has_id(s1, m.id));
    let j = index_of_id(s1, m.id);
    assert(0 <= j < s1.len() && s1[j].id == m.id);
    if j < s.len() {
        assert(s[j].id == m.id);
        assert(false);
    }
}

/// Toggling an unknown identifier changes nothing.
pub proof fn lemma_toggle_unknown(s: Seq<ItemModel>, id: u128)
    requires
        !has_id(s, id),
    ensures
        spec_toggle(s, id) == s,
{
}

/// Toggling the same existing identifier twice restores the contents, and
/// with them the item's completion flag, exactly.
pub proof fn lemma_toggle_involution(s: Seq<ItemModel>, id: u128)
    requires
        distinct_ids(s),
    ensures
        spec_toggle(spec_toggle(s, id), id) == s,
{
    if has_id(s, id) {
        let i = index_of_id(s, id);
        assert(0 <= i < s.len() && s[i].id == id);
        let s1 = s.update(i, spec_toggled(s[i]));
        assert(spec_toggle(s, id) == s1);
        assert forall|x: int, y: int| 0 <= x < y < s1.len() implies s1[x].id != s1[y].id by {
            assert(s1[x].id == s[x].id);
            assert(s1[y].id == s[y].id);
        }
        assert(s1[i].id == id);
        lemma_index_unique(s1, i, id);
        assert(spec_toggled(spec_toggled(s[i])) == s[i]);
        assert(spec_toggle(s1, id) =~= s);
    } else {
        assert(!has_id(spec_toggle(s, id), id));
    }
}

/// Storing a record whole pins the entry under its identifier and leaves
/// every other entry exactly as it was.
pub proof fn lemma_upsert_get(s: Seq<ItemModel>, m: ItemModel)
    requires
        distinct_ids(s),
    ensures
        spec_get(spec_upsert(s, m), m.id) == Some(m),
        forall|id: u128|
            id != m.id ==> #[trigger] spec_get(spec_upsert(s, m), id) == spec_get(s, id),
{
    let s1 = spec_upsert(s, m);
    if has_id(s, m.id) {
        let i = index_of_id(s, m.id);
        assert(0 <= i < s.len() && s[i].id == m.id);
        assert(s1 == s.update(i, m));
        assert forall|x: int, y: int| 0 <= x < y < s1.len() implies s1[x].id != s1[y].id by {
            assert(s1[x].id == s[x].id);
            assert(s1[y].id == s[y].id);
        }
        lemma_index_unique(s1, i, m.id);
        assert(spec_get(s1, m.id) == Some(m));
        assert forall|id: u128|
            id != m.id implies #[trigger] spec_get(s1, id) == spec_get(s, id) by {
            if has_id(s, id) {
                let j = index_of_id(s, id);
                assert(0 <= j < s.len() && s[j].id == id);
                assert(j != i);
                assert(s1[j] == s[j]);
                lemma_index_unique(s1, j, id);
                lemma_index_unique(s, j, id);
            } else {
                if has_id(s1, id) {
                    let j = index_of_id(s1, id);
                    assert(0 <= j < s1.len() && s1[j].id == id);
                    assert(j != i);
                    assert(s[j].id == id);
                    assert(false);
                }
            }
        }
    } else {
        assert(s1 == s.push(m));
        lemma_get_after_add(s, m);
        assert forall|id: u128|
            id != m.id implies #[trigger] spec_get(s1, id) == spec_get(s, id) by {
            if has_id(s, id) {
                let j = index_of_id(s, id);
                assert(0 <= j < s.len() && s[j].id == id);
                assert(s1[j] == s[j]);
                assert forall|x: int, y: int| 0 <= x < y < s1.len() implies s1[x].id != s1[y].id by {
                    if y < s.len() {
                    } else {
                        assert(s1[y] == m);
                        if s[x].id == m.id {
                            assert(has_id(s, m.id));
                        }
                    }
                }
                lemma_index_unique(s1, j, id);
                lemma_index_unique(s, j, id);
            } else {
                if has_id(s1, id) {
                    let j = index_of_id(s1, id);
                    assert(0 <= j < s1.len() && s1[j].id == id);
                    if j < s.len() {
                        assert(s[j].id == id);
                    } else {
                        assert(s1[j] == m);
                    }
                    assert(false);
                }
            }
        }
    }
}

} // verus!
