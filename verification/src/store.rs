use vstd::prelude::*;
use vstd::set_lib::{lemma_int_range, lemma_len_subset, set_int_range};

use crate::date::Date;
use crate::ids::new_uuid;

verus! {

/// The fields a caller supplies to create an item. The store fills in the
/// identifier and the completion flag itself.
#[derive(Debug)]
pub struct IncomingTodo {
    pub title: String,
    pub startable: Date,
    pub due: Date,
}

/// One todo record. The identifier is assigned by the store on creation and
/// never changes afterwards.
#[derive(Debug)]
pub struct Todo {
    pub id: u128,
    pub title: String,
    pub complete: bool,
    pub startable: Date,
    pub due: Date,
}

/// The mathematical image of a `Todo`: the same fields, with the title as a
/// sequence of characters.
pub struct ItemModel {
    pub id: u128,
    pub title: Seq<char>,
    pub complete: bool,
    pub startable: Date,
    pub due: Date,
}

impl View for Todo {
    type V = ItemModel;

    open spec fn view(&self) -> ItemModel {
        ItemModel {
            id: self.id,
            title: self.title@,
            complete: self.complete,
            startable: self.startable,
            due: self.due,
        }
    }
}

impl Clone for Todo {
    fn clone(&self) -> (r: Todo)
        ensures
            r == *self,
    {
        Todo {
            id: self.id,
            title: self.title.clone(),
            complete: self.complete,
            startable: self.startable,
            due: self.due,
        }
    }
}

/// The models of a sequence of records.
pub open spec fn models(ts: Seq<Todo>) -> Seq<ItemModel> {
    ts.map_values(|t: Todo| t@)
}

/// No two entries carry the same identifier.
pub open spec fn distinct_ids(s: Seq<ItemModel>) -> bool {
    forall|i: int, j: int| 0 <= i < j < s.len() ==> s[i].id != s[j].id
}

/// Some entry carries this identifier.
pub open spec fn has_id(s: Seq<ItemModel>, id: u128) -> bool {
    exists|i: int| 0 <= i < s.len() && s[i].id == id
}

/// The position of the entry with this identifier (meaningful when
/// `has_id(s, id)` holds; with `distinct_ids` it is the only one).
pub open spec fn index_of_id(s: Seq<ItemModel>, id: u128) -> int {
    choose|i: int| 0 <= i < s.len() && s[i].id == id
}

/// The entry with this identifier, if any.
pub open spec fn spec_get(s: Seq<ItemModel>, id: u128) -> Option<ItemModel> {
    if has_id(s, id) {
        Some(s[index_of_id(s, id)])
    } else {
        None
    }
}

/// The same item with its completion flag flipped.
pub open spec fn spec_toggled(m: ItemModel) -> ItemModel {
    ItemModel { complete: !m.complete, ..m }
}

/// What toggling an identifier does to the contents: flips the one matching
/// entry, or changes nothing when the identifier is absent.
pub open spec fn spec_toggle(s: Seq<ItemModel>, id: u128) -> Seq<ItemModel> {
    if has_id(s, id) {
        s.update(index_of_id(s, id), spec_toggled(s[index_of_id(s, id)]))
    } else {
        s
    }
}

/// What storing a full record does to the contents: overwrites the entry
/// with the same identifier, or appends when the identifier is absent.
pub open spec fn spec_upsert(s: Seq<ItemModel>, m: ItemModel) -> Seq<ItemModel> {
    if has_id(s, m.id) {
        s.update(index_of_id(s, m.id), m)
    } else {
        s.push(m)
    }
}

/// With distinct identifiers, a position whose entry carries `id` is the
/// position `index_of_id` names.
pub proof fn lemma_index_unique(s: Seq<ItemModel>, i: int, id: u128)
    requires
        distinct_ids(s),
        0 <= i < s.len(),
        s[i].id == id,
    ensures
        has_id(s, id),
        index_of_id(s, id) == i,
{
    assert(has_id(s, id));
    let j = index_of_id(s, id);
    assert(0 <= j < s.len() && s[j].id == id);
    if i < j {
        assert(s[i].id != s[j].id);
    } else if j < i {
        assert(s[j].id != s[i].id);
    }
}

/// The set of identifiers in the contents, as integers.
spec fn id_set_int(s: Seq<ItemModel>) -> Set<int> {
    Set::new(|x: int| exists|i: int| 0 <= i < s.len() && s[i].id as int == x)
}

proof fn lemma_id_set_card(s: Seq<ItemModel>)
    ensures
        id_set_int(s).finite(),
        id_set_int(s).len() <= s.len(),
    decreases s.len(),
{
    if s.len() == 0 {
        assert(id_set_int(s) =~= Set::<int>::empty());
    } else {
        let t = s.drop_last();
        lemma_id_set_card(t);
        assert forall|x: int| id_set_int(s).contains(x) implies id_set_int(t).insert(
            s.last().id as int,
        ).contains(x) by {
            let i = choose|i: int| 0 <= i < s.len() && s[i].id as int == x;
            if i < s.len() - 1 {
                assert(t[i].id as int == x);
            }
        }
        assert forall|x: int| id_set_int(t).insert(s.last().id as int).contains(x) implies id_set_int(
            s,
        ).contains(x) by {
            if id_set_int(t).contains(x) {
                let i = choose|i: int| 0 <= i < t.len() && t[i].id as int == x;
                assert(s[i].id as int == x);
            } else {
                assert(s[s.len() - 1].id as int == x);
            }
        }
        assert(id_set_int(s) =~= id_set_int(t).insert(s.last().id as int));
    }
}

/// Pigeonhole: among the identifiers `0 ..= s.len()` at least one is free,
/// because the contents hold only `s.len()` entries.
proof fn lemma_small_free_id(s: Seq<ItemModel>)
    requires
        s.len() + 1 < 0x100000000000000000000000000000000,
    ensures
        exists|k: int| 0 <= k <= s.len() && !(#[trigger] has_id(s, k as u128)),
{
    if !(exists|k: int| 0 <= k <= s.len() && !(#[trigger] has_id(s, k as u128))) {
        let r = set_int_range(0, s.len() as int + 1);
        lemma_int_range(0, s.len() as int + 1);
        lemma_id_set_card(s);
        assert forall|x: int| r.contains(x) implies id_set_int(s).contains(x) by {
            assert(0 <= x <= s.len());
            assert(has_id(s, x as u128));
            let i = choose|i: int| 0 <= i < s.len() && s[i].id == x as u128;
            assert(s[i].id as int == x);
        }
        lemma_len_subset(r, id_set_int(s));
        assert(false);
    }
}

/// The todo store: it owns every record, hands out copies only, and keeps
/// the identifiers of its entries distinct.
pub struct TodoList {
    items: Vec<Todo>,
}

impl View for TodoList {
    type V = Seq<ItemModel>;

    closed spec fn view(&self) -> Seq<ItemModel> {
        models(self.items@)
    }
}

impl TodoList {
    /// The store invariant: entries carry pairwise distinct identifiers.
    pub open spec fn wf(&self) -> bool {
        distinct_ids(self@)
    }

    pub fn new() -> (l: TodoList)
        ensures
            l@ == Seq::<ItemModel>::empty(),
            l.wf(),
    {
        let l = TodoList { items: Vec::new() };
        proof {
            assert(l@ =~= Seq::<ItemModel>::empty());
        }
        l
    }

    /// Whether an entry with this identifier is present.
    pub fn contains_id(&self, id: u128) -> (b: bool)
        ensures
            b == has_id(self@, id),
    {
        let n = self.items.len();
        let mut i: usize = 0;
        while i < n
            invariant
                i <= n,
                n == self.items.len(),
                forall|k: int| 0 <= k < i ==> self@[k].id != id,
            decreases n - i,
        {
            if self.items[i].id == id {
                assert(self@[i as int].id == id);
                return true;
            }
            i += 1;
        }
        false
    }

    /// The position of the entry with this identifier, if any.
    fn find_index(&self, id: u128) -> (r: Option<usize>)
        ensures
            match r {
                Some(i) => i < self@.len() && self@[i as int].id == id,
                None => !has_id(self@, id),
            },
    {
        let n = self.items.len();
        let mut i: usize = 0;
        while i < n
            invariant
                i <= n,
                n == self.items.len(),
                forall|k: int| 0 <= k < i ==> self@[k].id != id,
            decreases n - i,
        {
            if self.items[i].id == id {
                return Some(i);
            }
            i += 1;
        }
        None
    }

    /// An identifier no current entry carries. A random identifier is drawn
    /// first; in the vanishingly rare case that it is taken, the small
    /// numbers `0 ..= len` are scanned, among which one must be free.
    fn fresh_id(&self) -> (id: u128)
        ensures
            !has_id(self@, id),
    {
        let id0 = new_uuid();
        if !self.contains_id(id0) {
            return id0;
        }
        let n = self.items.len();
        let mut c: usize = 0;
        while c < n
            invariant
                c <= n,
                n == self.items.len(),
                forall|k: int| 0 <= k < c ==> #[trigger] has_id(self@, k as u128),
            decreases n - c,
        {
            if !self.contains_id(c as u128) {
                return c as u128;
            }
            c += 1;
        }
        if !self.contains_id(n as u128) {
            return n as u128;
        }
        proof {
            lemma_small_free_id(self@);
            let k = choose|k: int| 0 <= k <= self@.len() && !(#[trigger] has_id(self@, k as u128));
            assert(self@.len() == n);
            assert(has_id(self@, k as u128));
            assert(false);
        }
        0
    }

    /// Creates an item from the given fields, under a fresh identifier and
    /// with the completion flag cleared, and returns a copy of what was
    /// stored. Never fails; the title is taken as handed in.
    pub fn add(&mut self, new: IncomingTodo) -> (r: Todo)
        requires
            old(self).wf(),
        ensures
            final(self).wf(),
            !has_id(old(self)@, r@.id),
            final(self)@ == old(self)@.push(r@),
            r@.title == new.title@,
            r@.complete == false,
            r@.startable == new.startable,
            r@.due == new.due,
    {
        let id = self.fresh_id();
        let created = Todo {
            id,
            title: new.title,
            complete: false,
            startable: new.startable,
            due: new.due,
        };
        let result = created.clone();
        let ghost pre = self@;
        self.items.push(created);
        proof {
            assert(final(self)@ =~= pre.push(result@));
            assert forall|i: int, j: int|
                0 <= i < j < final(self)@.len() implies final(self)@[i].id != final(self)@[j].id by {
                if j < pre.len() {
                } else {
                    assert(final(self)@[j] == result@);
                    assert(pre[i].id != result@.id);
                }
            }
        }
        result
    }

    /// Flips the completion flag of the item with this identifier, as one
    /// read-modify-write. An unknown identifier is a silent no-op.
    pub fn toggle_completed(&mut self, id: u128)
        requires
            old(self).wf(),
        ensures
            final(self).wf(),
            final(self)@ == spec_toggle(old(self)@, id),
            !has_id(old(self)@, id) ==> final(self)@ == old(self)@,
    {
        let maybe_index = self.find_index(id);
        if let Some(i) = maybe_index {
            let item = self.items[i].clone();
            let toggled_item = Todo {
                id: item.id,
                title: item.title,
                complete: !item.complete,
                startable: item.startable,
                due: item.due,
            };
            let ghost pre = self@;
            proof {
                lemma_index_unique(pre, i as int, id);
            }
            self.items[i] = toggled_item;
            proof {
                assert(final(self)@ =~= pre.update(i as int, spec_toggled(pre[i as int])));
                assert forall|x: int, y: int|
                    0 <= x < y < final(self)@.len() implies final(self)@[x].id
                    != final(self)@[y].id by {
                    assert(final(self)@[x].id == pre[x].id);
                    assert(final(self)@[y].id == pre[y].id);
                }
            }
        }
    }

    /// Stores the given record whole: overwrites the entry with the same
    /// identifier, or inserts when the identifier is unknown (upsert; the
    /// caller must not rely on unknown identifiers being rejected).
    pub fn update(&mut self, existing: Todo)
        requires
            old(self).wf(),
        ensures
            final(self).wf(),
            final(self)@ == spec_upsert(old(self)@, existing@),
    {
        let maybe_index = self.find_index(existing.id);
        let ghost pre = self@;
        let ghost m = existing@;
        match maybe_index {
            Some(i) => {
                proof {
                    lemma_index_unique(pre, i as int, existing.id);
                }
                self.items[i] = existing;
                proof {
                    assert(final(self)@ =~= pre.update(i as int, m));
                    assert forall|x: int, y: int|
                        0 <= x < y < final(self)@.len() implies final(self)@[x].id
                        != final(self)@[y].id by {
                        assert(final(self)@[x].id == pre[x].id);
                        assert(final(self)@[y].id == pre[y].id);
                    }
                }
            },
            None => {
                self.items.push(existing);
                proof {
                    assert(final(self)@ =~= pre.push(m));
                    assert forall|x: int, y: int|
                        0 <= x < y < final(self)@.len() implies final(self)@[x].id
                        != final(self)@[y].id by {
                        if y < pre.len() {
                        } else {
                            assert(final(self)@[y] == m);
                            assert(pre[x].id != m.id);
                        }
                    }
                }
            },
        }
    }

    /// A copy of the item with this identifier, or `None`. The store itself
    /// is left as it was.
    pub fn get(&mut self, id: u128) -> (r: Option<Todo>)
        requires
            old(self).wf(),
        ensures
            *final(self) == *old(self),
            match r {
                Some(t) => spec_get(old(self)@, id) == Some(t@),
                None => spec_get(old(self)@, id) is None,
            },
    {
        let maybe_index = self.find_index(id);
        match maybe_index {
            Some(i) => {
                proof {
                    lemma_index_unique(self@, i as int, id);
                }
                Some(self.items[i].clone())
            },
            None => None,
        }
    }

    /// A snapshot copy of all items, in no promised order. The store itself
    /// is left as it was.
    pub fn get_all(&mut self) -> (r: Vec<Todo>)
        ensures
            *final(self) == *old(self),
            models(r@) == old(self)@,
    {
        let n = self.items.len();
        let mut result: Vec<Todo> = Vec::with_capacity(n);
        let mut i: usize = 0;
        while i < n
            invariant
                i <= n,
                n == self.items.len(),
                models(result@) =~= self@.take(i as int),
            decreases n - i,
        {
            result.push(self.items[i].clone());
            proof {
                assert(models(result@) =~= self@.take(i as int).push(self@[i as int]));
                assert(self@.take(i as int + 1) =~= self@.take(i as int).push(self@[i as int]));
            }
            i += 1;
        }
        proof {
            assert(self@.take(n as int) =~= self@);
        }
        result
    }
}

impl Default for TodoList {
    fn default() -> (l: TodoList)
        ensures
            l@ == Seq::<ItemModel>::empty(),
            l.wf(),
    {
        TodoList::new()
    }
}

} // verus!
