use vstd::prelude::*;

verus! {

/// One key/value pair of a form-encoded body.
pub struct Field {
    pub key: String,
    pub value: String,
}

/// The mathematical image of a `Field`.
pub struct FieldModel {
    pub key: Seq<char>,
    pub value: Seq<char>,
}

impl View for Field {
    type V = FieldModel;

    open spec fn view(&self) -> FieldModel {
        FieldModel { key: self.key@, value: self.value@ }
    }
}

/// The models of a sequence of fields.
pub open spec fn field_models(fs: Seq<Field>) -> Seq<FieldModel> {
    fs.map_values(|f: Field| f@)
}

/// The position of the first occurrence of `c` in `s`, or `s.len()` when
/// `c` does not occur.
pub open spec fn spec_find(s: Seq<char>, c: char) -> nat
    decreases s.len(),
{
    if s.len() == 0 {
        0
    } else if s[0] == c {
        0
    } else {
        1 + spec_find(s.drop_first(), c)
    }
}

pub proof fn lemma_find(s: Seq<char>, c: char)
    ensures
        spec_find(s, c) <= s.len(),
        spec_find(s, c) < s.len() ==> s[spec_find(s, c) as int] == c,
        forall|i: int| 0 <= i < spec_find(s, c) ==> s[i] != c,
    decreases s.len(),
{
    if s.len() == 0 {
    } else if s[0] == c {
    } else {
        let t = s.drop_first();
        lemma_find(t, c);
        assert forall|i: int| 0 <= i < spec_find(s, c) implies s[i] != c by {
            if i > 0 {
                assert(t[i - 1] != c);
                assert(s[i] == t[i - 1]);
            }
        }
    }
}

/// What one `&`-separated piece contributes: the text before the first `=`
/// is the key; the text between the first `=` and the next (or the end) is
/// the value; a piece without `=` maps its whole text to `"true"`.
pub open spec fn spec_field_of(p: Seq<char>) -> FieldModel {
    let e = spec_find(p, '=') as int;
    if e == p.len() {
        FieldModel { key: p, value: "true"@ }
    } else {
        let rest = p.subrange(e + 1, p.len() as int);
        FieldModel {
            key: p.subrange(0, e),
            value: rest.subrange(0, spec_find(rest, '=') as int),
        }
    }
}

/// The fields of a form-encoded body: the pieces between `&` separators, in
/// order, each read by `spec_field_of`. An empty body still yields the one
/// field of its single empty piece.
pub open spec fn spec_parse_form(s: Seq<char>) -> Seq<FieldModel>
    decreases s.len(),
{
    let a = spec_find(s, '&') as int;
    if a >= s.len() {
        seq![spec_field_of(s)]
    } else {
        seq![spec_field_of(s.subrange(0, a))] + spec_parse_form(s.subrange(a + 1, s.len() as int))
    }
}

/// The value stored under `key`, the latest entry winning, as insertion
/// into a hash map would leave it.
pub open spec fn spec_lookup(fields: Seq<FieldModel>, key: Seq<char>) -> Option<Seq<char>>
    decreases fields.len(),
{
    if fields.len() == 0 {
        None
    } else if fields.last().key == key {
        Some(fields.last().value)
    } else {
        spec_lookup(fields.drop_last(), key)
    }
}

/// An untyped field mapping, as read from a form-encoded body.
pub struct FormData {
    fields: Vec<Field>,
}

impl View for FormData {
    type V = Seq<FieldModel>;

    closed spec fn view(&self) -> Seq<FieldModel> {
        field_models(self.fields@)
    }
}

/// The position of the first occurrence of `c`, or the length when absent.
fn find_in(s: &str, c: char) -> (r: usize)
    ensures
        r == spec_find(s@, c),
{
    let n = s.unicode_len();
    let mut i: usize = 0;
    while i < n
        invariant
            i <= n,
            n == s@.len(),
            forall|k: int| 0 <= k < i ==> s@[k] != c,
        decreases n - i,
    {
        if s.get_char(i) == c {
            proof {
                lemma_find(s@, c);
                let f = spec_find(s@, c) as int;
                if f < i {
                    assert(s@[f] == c);
                } else if f > i {
                    assert(s@[i as int] != c);
                }
            }
            return i;
        }
        i += 1;
    }
    proof {
        lemma_find(s@, c);
        let f = spec_find(s@, c) as int;
        if f < n {
            assert(s@[f] == c);
        }
    }
    n
}

/// The field one piece contributes.
fn field_of(p: &str) -> (f: Field)
    ensures
        f@ == spec_field_of(p@),
{
    let n = p.unicode_len();
    let e = find_in(p, '=');
    proof {
        lemma_find(p@, '=');
    }
    if e == n {
        Field { key: String::from_str(p), value: String::from_str("true") }
    } else {
        let key = p.substring_char(0, e);
        let rest = p.substring_char(e + 1, n);
        proof {
            lemma_find(rest@, '=');
        }
        let e2 = find_in(rest, '=');
        let value = rest.substring_char(0, e2);
        Field { key: String::from_str(key), value: String::from_str(value) }
    }
}

/// The pieces of the body, split on `&`, each read into a field.
fn parse_pieces(s: &str) -> (r: Vec<Field>)
    ensures
        field_models(r@) == spec_parse_form(s@),
    decreases s@.len(),
{
    let n = s.unicode_len();
    let a = find_in(s, '&');
    proof {
        lemma_find(s@, '&');
    }
    if a == n {
        let f = field_of(s);
        let mut v: Vec<Field> = Vec::new();
        v.push(f);
        proof {
            assert(field_models(v@) =~= seq![spec_field_of(s@)]);
        }
        v
    } else {
        let piece = s.substring_char(0, a);
        let f = field_of(piece);
        let rest = s.substring_char(a + 1, n);
        let mut v = parse_pieces(rest);
        v.insert(0, f);
        proof {
            assert(field_models(v@) =~= seq![spec_field_of(s@.subrange(0, a as int))]
                + spec_parse_form(s@.subrange(a as int + 1, s@.len() as int)));
        }
        v
    }
}

/// Reads a form-encoded body into its field mapping: pieces are separated
/// by `&`, a key is the text before the first `=` of its piece, a value the
/// text between the first `=` and the next one or the piece's end, and a
/// piece without `=` maps its text to `"true"`.
pub fn parse_form_data(body: &str) -> (r: FormData)
    ensures
        r@ == spec_parse_form(body@),
{
    FormData { fields: parse_pieces(body) }
}

impl FormData {
    /// An empty mapping.
    pub fn new() -> (r: FormData)
        ensures
            r@ == Seq::<FieldModel>::empty(),
    {
        let r = FormData { fields: Vec::new() };
        proof {
            assert(r@ =~= Seq::<FieldModel>::empty());
        }
        r
    }

    /// Appends a pair; on lookup the latest entry for a key wins.
    pub fn push(&mut self, key: String, value: String)
        ensures
            final(self)@ == old(self)@.push(FieldModel { key: key@, value: value@ }),
    {
        let ghost pre = self@;
        let ghost m = FieldModel { key: key@, value: value@ };
        self.fields.push(Field { key, value });
        proof {
            assert(final(self)@ =~= pre.push(m));
        }
    }

    /// The value stored under `key`, if any; of several entries with the
    /// same key the latest wins.
    pub fn get(&self, key: &str) -> (r: Option<&String>)
        ensures
            match r {
                Some(v) => spec_lookup(self@, key@) == Some(v@),
                None => spec_lookup(self@, key@) is None,
            },
    {
        let k = String::from_str(key);
        let n = self.fields.len();
        let mut i: usize = n;
        proof {
            assert(self@.take(n as int) =~= self@);
        }
        while i > 0
            invariant
                i <= n,
                n == self.fields.len(),
                k@ == key@,
                spec_lookup(self@, key@) == spec_lookup(self@.take(i as int), key@),
            decreases i,
    {
            i -= 1;
            let matches_key = self.fields[i].key == k;
            proof {
                assert(self@.take(i as int + 1).last() == self@[i as int]);
                assert(self@.take(i as int + 1).drop_last() =~= self@.take(i as int));
            }
            if matches_key {
                assert(spec_lookup(self@.take(i as int + 1), key@) == Some(self@[i as int].value));
                return Some(&self.fields[i].value);
            }
        }
        None
    }
}

} // verus!
