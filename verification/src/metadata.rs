//! Note metadata and the values of its extra fields.

use vstd::prelude::*;

use crate::text::{chars_of, str_eq};

verus! {

/// A value of an extra metadata field: what a note's constructor call gives for
/// a field that the vault does not know by name.
#[derive(Debug)]
pub enum JsonValue {
    Str(String),
    Int(i64),
    Bool(bool),
    Array(Vec<JsonValue>),
}

/// The mathematical value of a [`JsonValue`].
pub enum JsonView {
    Str(Seq<char>),
    Int(int),
    Bool(bool),
    Array(Seq<JsonView>),
}

/// The view of a JSON value.
pub open spec fn json_view(v: JsonValue) -> JsonView
    decreases v,
{
    match v {
        JsonValue::Str(s) => JsonView::Str(s@),
        JsonValue::Int(i) => JsonView::Int(i as int),
        JsonValue::Bool(b) => JsonView::Bool(b),
        JsonValue::Array(items) => JsonView::Array(json_views(items@)),
    }
}

/// The views of a sequence of JSON values, in order.
pub open spec fn json_views(s: Seq<JsonValue>) -> Seq<JsonView>
    decreases s,
{
    if s.len() == 0 {
        Seq::empty()
    } else {
        json_views(s.drop_last()).push(json_view(s.last()))
    }
}

impl View for JsonValue {
    type V = JsonView;

    open spec fn view(&self) -> JsonView {
        json_view(*self)
    }
}

impl JsonValue {
    /// The text of a string value; `None` for any other value.
    pub fn as_str(&self) -> (res: Option<&str>)
        ensures
            match self@ {
                JsonView::Str(s) => res matches Some(r) && r@ == s,
                _ => res is None,
            },
    {
        match self {
            JsonValue::Str(s) => Some(s.as_str()),
            _ => None,
        }
    }
}

/// Entries of extra fields, keyed by name, in order of name.
pub type FieldsView = Seq<(Seq<char>, JsonView)>;

/// Whether the name `a` comes before `b`: character by character, by code
/// point, a proper prefix first. This is the order of `String`, whose bytes
/// are compared, since UTF-8 keeps the order of code points.
pub open spec fn name_less(a: Seq<char>, b: Seq<char>) -> bool
    decreases a.len(),
{
    if a.len() == 0 {
        b.len() > 0
    } else if b.len() == 0 {
        false
    } else if a[0] != b[0] {
        a[0] < b[0]
    } else {
        name_less(a.drop_first(), b.drop_first())
    }
}

/// No name comes before itself.
pub proof fn lemma_name_less_irreflexive(a: Seq<char>)
    ensures
        !name_less(a, a),
    decreases a.len(),
{
    if a.len() > 0 {
        lemma_name_less_irreflexive(a.drop_first());
    }
}

/// Of two different names, one comes before the other.
pub proof fn lemma_name_less_total(a: Seq<char>, b: Seq<char>)
    requires
        a != b,
    ensures
        name_less(a, b) || name_less(b, a),
    decreases a.len(),
{
    if a.len() > 0 && b.len() > 0 && a[0] == b[0] {
        if a.drop_first() == b.drop_first() {
            assert(a =~= seq![a[0]] + a.drop_first());
            assert(b =~= seq![b[0]] + b.drop_first());
        }
        lemma_name_less_total(a.drop_first(), b.drop_first());
    } else if a.len() == 0 && b.len() == 0 {
        assert(a =~= b);
    }
}

/// The order of names is transitive.
pub proof fn lemma_name_less_transitive(a: Seq<char>, b: Seq<char>, c: Seq<char>)
    requires
        name_less(a, b),
        name_less(b, c),
    ensures
        name_less(a, c),
    decreases a.len(),
{
    if a.len() > 0 && b.len() > 0 && c.len() > 0 && a[0] == b[0] && b[0] == c[0] {
        lemma_name_less_transitive(a.drop_first(), b.drop_first(), c.drop_first());
    }
}

/// Whether the names of the entries are strictly increasing, so that no two
/// entries share a name.
pub open spec fn sorted_names(s: FieldsView) -> bool {
    forall|i: int, j: int| 0 <= i < j < s.len() ==> name_less(#[trigger] s[i].0, #[trigger] s[j].0)
}

/// The first index at or after `i` whose entry has the name `key`, or the
/// length of `s` when there is none.
pub open spec fn find_field(s: FieldsView, key: Seq<char>, i: int) -> int
    decreases s.len() - i,
{
    if i < 0 || i >= s.len() {
        s.len() as int
    } else if s[i].0 == key {
        i
    } else {
        find_field(s, key, i + 1)
    }
}

/// The first index at or after `i` whose entry's name does not come before
/// `key`, or the length of `s` when there is none: where `key` belongs.
pub open spec fn field_slot(s: FieldsView, key: Seq<char>, i: int) -> int
    decreases s.len() - i,
{
    if i < 0 || i >= s.len() {
        s.len() as int
    } else if !name_less(s[i].0, key) {
        i
    } else {
        field_slot(s, key, i + 1)
    }
}

/// The entries after setting field `key` to `value`: an entry with that name
/// where the name belongs takes the new value in place; otherwise the field
/// is inserted there, before the first entry whose name does not come
/// before `key`.
pub open spec fn insert_field(s: FieldsView, key: Seq<char>, value: JsonView) -> FieldsView {
    let j = field_slot(s, key, 0);
    if j < s.len() && s[j].0 == key {
        s.update(j, (key, value))
    } else {
        s.insert(j, (key, value))
    }
}

/// The value of field `key`, if there is one.
pub open spec fn field_value(s: FieldsView, key: Seq<char>) -> Option<JsonView> {
    let j = find_field(s, key, 0);
    if j < s.len() {
        Some(s[j].1)
    } else {
        None
    }
}

/// The extra fields of a note: a map from field names to values, kept in
/// order of name.
#[derive(Debug)]
pub struct ExtraFields {
    entries: Vec<(String, JsonValue)>,
}

impl View for ExtraFields {
    type V = FieldsView;

    closed spec fn view(&self) -> FieldsView {
        entries_view(self.entries@)
    }
}

/// The view of a list of (name, value) entries.
pub open spec fn entries_view(v: Seq<(String, JsonValue)>) -> FieldsView {
    v.map_values(|e: (String, JsonValue)| (e.0@, json_view(e.1)))
}

proof fn lemma_find_field_step(s: FieldsView, key: Seq<char>, i: int)
    requires
        0 <= i < s.len(),
        s[i].0 != key,
    ensures
        find_field(s, key, i) == find_field(s, key, i + 1),
{
}

proof fn lemma_find_field_bounds(s: FieldsView, key: Seq<char>, i: int)
    requires
        0 <= i <= s.len(),
    ensures
        i <= find_field(s, key, i) <= s.len(),
        find_field(s, key, i) < s.len() ==> s[find_field(s, key, i)].0 == key,
        forall|k: int| i <= k < find_field(s, key, i) ==> s[k].0 != key,
    decreases s.len() - i,
{
    if i < s.len() && s[i].0 != key {
        lemma_find_field_bounds(s, key, i + 1);
    }
}

proof fn lemma_field_slot_bounds(s: FieldsView, key: Seq<char>, i: int)
    requires
        0 <= i <= s.len(),
    ensures
        i <= field_slot(s, key, i) <= s.len(),
        field_slot(s, key, i) < s.len() ==> !name_less(s[field_slot(s, key, i)].0, key),
        forall|k: int| i <= k < field_slot(s, key, i) ==> name_less(#[trigger] s[k].0, key),
    decreases s.len() - i,
{
    if i < s.len() && name_less(s[i].0, key) {
        lemma_field_slot_bounds(s, key, i + 1);
    }
}

/// Setting a field keeps the names in strictly increasing order, and the
/// field then has the value set.
pub proof fn lemma_insert_field_sorted(s: FieldsView, key: Seq<char>, value: JsonView)
    requires
        sorted_names(s),
    ensures
        sorted_names(insert_field(s, key, value)),
        field_value(insert_field(s, key, value), key) == Some(value),
{
    lemma_field_slot_bounds(s, key, 0);
    let j = field_slot(s, key, 0);
    let t = insert_field(s, key, value);
    if j < s.len() && s[j].0 == key {
        assert(forall|k: int| 0 <= k < t.len() ==> #[trigger] t[k].0 == s[k].0);
    } else {
        if j < s.len() {
            lemma_name_less_total(s[j].0, key);
        }
        assert forall|a: int, b: int| 0 <= a < b < t.len() implies name_less(#[trigger] t[a].0, #[trigger] t[b].0) by {
            if b < j {
                assert(t[a] == s[a] && t[b] == s[b]);
            } else if b == j {
                assert(t[a] == s[a]);
            } else if a < j {
                assert(t[a] == s[a] && t[b] == s[b - 1]);
                lemma_name_less_transitive(s[a].0, key, s[j].0);
                if b - 1 > j {
                    lemma_name_less_transitive(s[a].0, s[j].0, s[b - 1].0);
                }
            } else if a == j {
                assert(t[b] == s[b - 1]);
                if b - 1 > j {
                    lemma_name_less_transitive(key, s[j].0, s[b - 1].0);
                }
            } else {
                assert(t[a] == s[a - 1] && t[b] == s[b - 1]);
            }
        }
    }
    lemma_find_field_bounds(t, key, 0);
    let jt = find_field(t, key, 0);
    assert(t[j].0 == key);
    if jt < j {
        assert(name_less(t[jt].0, t[j].0));
        lemma_name_less_irreflexive(key);
    }
    assert(jt == j);
}

/// Whether the name `a` comes before `b`, as [`name_less`] says.
pub fn name_lt(a: &str, b: &str) -> (res: bool)
    ensures
        res == name_less(a@, b@),
{
    let x = chars_of(a);
    let y = chars_of(b);
    let mut i: usize = 0;
    assert(x@.skip(0) =~= x@);
    assert(y@.skip(0) =~= y@);
    loop
        invariant
            x@ == a@,
            y@ == b@,
            i <= x@.len(),
            i <= y@.len(),
            name_less(a@, b@) == name_less(x@.skip(i as int), y@.skip(i as int)),
        decreases x@.len() - i,
    {
        if i == x.len() {
            return i < y.len();
        }
        if i == y.len() {
            return false;
        }
        if x[i] != y[i] {
            return x[i] < y[i];
        }
        assert(x@.skip(i as int).drop_first() =~= x@.skip(i + 1));
        assert(y@.skip(i as int).drop_first() =~= y@.skip(i + 1));
        i = i + 1;
    }
}

impl ExtraFields {
    /// The entries are kept in strictly increasing order of name.
    #[verifier::type_invariant]
    spec fn fields_in_order(self) -> bool {
        sorted_names(self@)
    }

    /// No fields.
    pub fn new() -> (res: ExtraFields)
        ensures
            res@ == Seq::<(Seq<char>, JsonView)>::empty(),
    {
        let res = ExtraFields { entries: Vec::new() };
        assert(res@ =~= Seq::<(Seq<char>, JsonView)>::empty());
        res
    }

    /// The fields, as (name, value) pairs in strictly increasing order of
    /// name.
    pub fn entries(&self) -> (res: &Vec<(String, JsonValue)>)
        ensures
            res@.map_values(|e: (String, JsonValue)| (e.0@, json_view(e.1))) == self@,
            sorted_names(self@),
    {
        proof {
            use_type_invariant(self);
        }
        &self.entries
    }

    /// Number of fields.
    pub fn len(&self) -> (n: usize)
        ensures
            n == self@.len(),
    {
        self.entries.len()
    }

    /// Sets field `key` to `value`, in place of any value it had; a new field
    /// goes where its name belongs in the order of names.
    pub fn insert(&mut self, key: String, value: JsonValue)
        ensures
            final(self)@ == insert_field(old(self)@, key@, value@),
    {
        proof {
            use_type_invariant(&*self);
        }
        let ghost s = self@;
        let ghost k = key@;
        let ghost v = value@;
        let mut entries: Vec<(String, JsonValue)> = Vec::new();
        std::mem::swap(&mut entries, &mut self.entries);
        assert(entries_view(entries@) == s);
        let n = entries.len();
        let mut i: usize = 0;
        proof {
            lemma_field_slot_bounds(s, k, 0);
        }
        loop
            invariant
                n == entries@.len(),
                entries_view(entries@) == s,
                k == key@,
                i <= n,
                field_slot(s, k, 0) == field_slot(s, k, i as int),
            ensures
                n == entries@.len(),
                entries_view(entries@) == s,
                i <= n,
                field_slot(s, k, 0) == i,
            decreases n - i,
        {
            if i == n {
                break;
            }
            assert(s[i as int].0 == entries@[i as int].0@);
            if !name_lt(entries[i].0.as_str(), key.as_str()) {
                assert(field_slot(s, k, i as int) == i);
                break;
            }
            assert(field_slot(s, k, i as int) == field_slot(s, k, i + 1));
            i = i + 1;
        }
        assert(field_slot(s, k, 0) == i);
        if i < n && str_eq(entries[i].0.as_str(), key.as_str()) {
            entries.set(i, (key, value));
            assert(entries_view(entries@) =~= insert_field(s, k, v));
        } else {
            entries.insert(i, (key, value));
            assert(entries_view(entries@) =~= insert_field(s, k, v));
        }
        proof {
            lemma_insert_field_sorted(s, k, v);
        }
        self.entries = entries;
    }

    /// The value of field `key`, if there is one.
    pub fn get(&self, key: &str) -> (res: Option<&JsonValue>)
        ensures
            match field_value(self@, key@) {
                Some(v) => res matches Some(r) && r@ == v,
                None => res is None,
            },
    {
        let n = self.entries.len();
        let mut i: usize = 0;
        while i < n
            invariant
                n == self.entries.len(),
                i <= n,
                find_field(self@, key@, 0) == find_field(self@, key@, i as int),
            decreases n - i,
        {
            if str_eq(self.entries[i].0.as_str(), key) {
                return Some(&self.entries[i].1);
            }
            proof {
                lemma_find_field_step(self@, key@, i as int);
            }
            i = i + 1;
        }
        None
    }
}

} // verus!

verus! {

/// The view of an optional string.
pub open spec fn opt_str_view(o: Option<String>) -> Option<Seq<char>> {
    match o {
        Some(s) => Some(s@),
        None => None,
    }
}

/// The views of a list of strings.
pub open spec fn strs_view(v: Seq<String>) -> Seq<Seq<char>> {
    v.map_values(|s: String| s@)
}

/// Metadata of one note, as the note's constructor call states it.
#[derive(Debug)]
pub struct NoteMetadata {
    pub id: String,
    pub title: String,
    pub note_type: String,
    pub parent: Option<String>,
    pub tags: Vec<String>,
    pub created: Option<String>,
    pub path: String,
    pub extra: ExtraFields,
}

/// The mathematical value of [`NoteMetadata`].
pub struct NoteMetadataView {
    pub id: Seq<char>,
    pub title: Seq<char>,
    pub note_type: Seq<char>,
    pub parent: Option<Seq<char>>,
    pub tags: Seq<Seq<char>>,
    pub created: Option<Seq<char>>,
    pub path: Seq<char>,
    pub extra: FieldsView,
}

impl View for NoteMetadata {
    type V = NoteMetadataView;

    open spec fn view(&self) -> NoteMetadataView {
        NoteMetadataView {
            id: self.id@,
            title: self.title@,
            note_type: self.note_type@,
            parent: opt_str_view(self.parent),
            tags: strs_view(self.tags@),
            created: opt_str_view(self.created),
            path: self.path@,
            extra: self.extra@,
        }
    }
}

/// The view of optional metadata.
pub open spec fn opt_meta_view(o: Option<NoteMetadata>) -> Option<NoteMetadataView> {
    match o {
        Some(m) => Some(m@),
        None => None,
    }
}

} // verus!

verus! {

/// The view of a list of strings grows with the list.
pub proof fn lemma_strs_view_push(v: Seq<String>, s: String)
    ensures
        strs_view(v.push(s)) == strs_view(v).push(s@),
{
    assert(strs_view(v.push(s)) =~= strs_view(v).push(s@));
}

/// The views of JSON values grow with the list.
pub proof fn lemma_json_views_push(v: Seq<JsonValue>, x: JsonValue)
    ensures
        json_views(v.push(x)) == json_views(v).push(json_view(x)),
{
    assert(v.push(x).drop_last() =~= v);
}

} // verus!
