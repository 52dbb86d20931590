//! The record model of the application: a record with its metadata and a map of
//! named fields, kept in key order.
use crate::text::{concat_str, hex_seq, hex_string, str_eq, string_views, trim, trim_seq};
use vstd::prelude::*;

verus! {

// ─── Key order ──────────────────────────────────────────────────────────────

/// The order of field names: lexicographic by code point, which for UTF-8 text
/// is the byte order that `str`'s `Ord` uses.
pub open spec fn key_lt(a: Seq<char>, b: Seq<char>) -> bool
    decreases a.len(),
{
    if b.len() == 0 {
        false
    } else if a.len() == 0 {
        true
    } else if a[0] != b[0] {
        (a[0] as int) < (b[0] as int)
    } else {
        key_lt(a.drop_first(), b.drop_first())
    }
}

/// No name comes before itself.
pub proof fn lemma_key_lt_irreflexive(a: Seq<char>)
    ensures
        !key_lt(a, a),
    decreases a.len(),
{
    if a.len() > 0 {
        lemma_key_lt_irreflexive(a.drop_first());
    }
}

/// Of two different names exactly one comes first.
pub proof fn lemma_key_lt_total(a: Seq<char>, b: Seq<char>)
    ensures
        a != b ==> (key_lt(a, b) || key_lt(b, a)),
        !(key_lt(a, b) && key_lt(b, a)),
    decreases a.len(),
{
    if a.len() > 0 && b.len() > 0 {
        lemma_key_lt_total(a.drop_first(), b.drop_first());
        if a[0] == b[0] && a.drop_first() == b.drop_first() {
            assert(a =~= seq![a[0]] + a.drop_first());
            assert(b =~= seq![b[0]] + b.drop_first());
        }
        if a[0] != b[0] {
            assert((a[0] as int) != (b[0] as int));
        }
    } else if a.len() == 0 && b.len() == 0 {
        assert(a =~= b);
    }
}

/// The order is transitive.
pub proof fn lemma_key_lt_transitive(a: Seq<char>, b: Seq<char>, c: Seq<char>)
    requires
        key_lt(a, b),
        key_lt(b, c),
    ensures
        key_lt(a, c),
    decreases a.len(),
{
    if a.len() > 0 && b.len() > 0 && c.len() > 0 && a[0] == b[0] && b[0] == c[0] {
        lemma_key_lt_transitive(a.drop_first(), b.drop_first(), c.drop_first());
    }
}

proof fn lemma_key_lt_step(a: Seq<char>, b: Seq<char>, i: int)
    requires
        0 <= i < a.len(),
        i < b.len(),
        a[i] == b[i],
    ensures
        key_lt(a.skip(i), b.skip(i)) == key_lt(a.skip(i + 1), b.skip(i + 1)),
{
    assert(a.skip(i).drop_first() =~= a.skip(i + 1));
    assert(b.skip(i).drop_first() =~= b.skip(i + 1));
}

/// Whether `a` comes before `b` in key order.
pub fn str_lt(a: &str, b: &str) -> (r: bool)
    ensures
        r == key_lt(a@, b@),
{
    let n = a.unicode_len();
    let m = b.unicode_len();
    let mut i: usize = 0;
    assert(a@.skip(0) =~= a@);
    assert(b@.skip(0) =~= b@);
    while i < n && i < m
        invariant
            n == a@.len(),
            m == b@.len(),
            i <= n,
            i <= m,
            key_lt(a@, b@) == key_lt(a@.skip(i as int), b@.skip(i as int)),
        decreases n - i,
    {
        let x = a.get_char(i);
        let y = b.get_char(i);
        if x != y {
            assert(a@.skip(i as int)[0] == x);
            assert(b@.skip(i as int)[0] == y);
            return (x as u32) < (y as u32);
        }
        proof {
            lemma_key_lt_step(a@, b@, i as int);
        }
        i = i + 1;
    }
    i < m
}

// ─── Field values ───────────────────────────────────────────────────────────

/// The value of a field.
#[derive(Debug, Clone, PartialEq, Eq)]
pub enum FieldValue {
    Text(String),
    Bytes(Vec<u8>),
    Uint(u64),
}

/// The content of a field value.
pub enum FieldValueView {
    Text(Seq<char>),
    Bytes(Seq<u8>),
    Uint(u64),
}

impl View for FieldValue {
    type V = FieldValueView;

    open spec fn view(&self) -> FieldValueView {
        match self {
            FieldValue::Text(s) => FieldValueView::Text(s@),
            FieldValue::Bytes(b) => FieldValueView::Bytes(b@),
            FieldValue::Uint(n) => FieldValueView::Uint(*n),
        }
    }
}

impl FieldValue {
    /// A copy of the value.
    pub fn duplicate(&self) -> (r: FieldValue)
        ensures
            r@ == self@,
    {
        match self {
            FieldValue::Text(s) => FieldValue::Text(s.clone()),
            FieldValue::Bytes(b) => {
                let mut c: Vec<u8> = Vec::new();
                let mut i: usize = 0;
                while i < b.len()
                    invariant
                        i <= b@.len(),
                        c@ == b@.subrange(0, i as int),
                    decreases b@.len() - i,
                {
                    c.push(b[i]);
                    assert(c@ =~= b@.subrange(0, i + 1));
                    i = i + 1;
                }
                assert(c@ =~= b@);
                FieldValue::Bytes(c)
            },
            FieldValue::Uint(n) => FieldValue::Uint(*n),
        }
    }
}

// ─── The field map ──────────────────────────────────────────────────────────

/// The contents of entries: each name with the content of its value.
pub open spec fn entries_view(v: Seq<(String, FieldValue)>) -> Seq<(Seq<char>, FieldValueView)> {
    Seq::new(v.len(), |i: int| (v[i].0@, v[i].1@))
}

/// Entries in strictly increasing key order, so each name occurs once.
pub open spec fn keys_sorted(s: Seq<(Seq<char>, FieldValueView)>) -> bool {
    forall|i: int, j: int| 0 <= i < j < s.len() ==> key_lt(#[trigger] s[i].0, #[trigger] s[j].0)
}

/// Whether some entry has the name `k`.
pub open spec fn has_key(s: Seq<(Seq<char>, FieldValueView)>, k: Seq<char>) -> bool {
    exists|i: int| 0 <= i < s.len() && (#[trigger] s[i]).0 == k
}

/// The map from the names of the entries to their values.
pub open spec fn as_map(s: Seq<(Seq<char>, FieldValueView)>) -> Map<Seq<char>, FieldValueView> {
    Map::new(|k: Seq<char>| has_key(s, k), |k: Seq<char>| s[choose|i: int| 0 <= i < s.len() && (#[trigger] s[i]).0 == k].1)
}

/// The named fields of a record, ordered by name as a `BTreeMap` keeps them. A
/// sorted vector stands in for `BTreeMap<String, FieldValue>`: vstd's specification
/// of `BTreeMap` gives nothing for a map keyed by `String` (not even its length
/// after one `insert`), so the map's contract could not be stated over it.
#[derive(Debug)]
pub struct FieldMap {
    entries: Vec<(String, FieldValue)>,
}

impl View for FieldMap {
    type V = Seq<(Seq<char>, FieldValueView)>;

    closed spec fn view(&self) -> Seq<(Seq<char>, FieldValueView)> {
        entries_view(self.entries@)
    }
}

impl FieldMap {
    #[verifier::type_invariant]
    spec fn sorted(&self) -> bool {
        keys_sorted(entries_view(self.entries@))
    }

    /// An empty map.
    pub fn new() -> (r: FieldMap)
        ensures
            r@ == Seq::<(Seq<char>, FieldValueView)>::empty(),
    {
        let r = FieldMap { entries: Vec::new() };
        assert(entries_view(r.entries@) =~= Seq::<(Seq<char>, FieldValueView)>::empty());
        r
    }

    /// The entries in key order.
    pub fn entries(&self) -> (r: &Vec<(String, FieldValue)>)
        ensures
            entries_view(r@) == self@,
            keys_sorted(self@),
    {
        proof {
            use_type_invariant(self);
        }
        &self.entries
    }

    /// A copy of the map.
    pub fn duplicate(&self) -> (r: FieldMap)
        ensures
            r@ == self@,
    {
        proof {
            use_type_invariant(self);
        }
        let mut entries: Vec<(String, FieldValue)> = Vec::new();
        let mut i: usize = 0;
        while i < self.entries.len()
            invariant
                i <= self.entries@.len(),
                entries@.len() == i,
                forall|j: int| 0 <= j < i ==> (#[trigger] entries@[j]).0@ == self.entries@[j].0@ && entries@[j].1@ == self.entries@[j].1@,
            decreases self.entries@.len() - i,
        {
            let name = self.entries[i].0.clone();
            let value = self.entries[i].1.duplicate();
            entries.push((name, value));
            i = i + 1;
        }
        assert(entries_view(entries@) =~= entries_view(self.entries@));
        FieldMap { entries }
    }

    /// The number of entries.
    pub fn len(&self) -> (r: usize)
        ensures
            r == self@.len(),
    {
        self.entries.len()
    }

    /// The position of the entry named `key`, if there is one.
    fn position(&self, key: &str) -> (r: Option<usize>)
        ensures
            r matches Some(i) ==> i < self@.len() && self@[i as int].0 == key@,
            r is None ==> !has_key(self@, key@),
    {
        let mut i: usize = 0;
        while i < self.entries.len()
            invariant
                i <= self.entries@.len(),
                forall|j: int| 0 <= j < i ==> self@[j].0 != key@,
            decreases self.entries@.len() - i,
        {
            if str_eq(self.entries[i].0.as_str(), key) {
                return Some(i);
            }
            i = i + 1;
        }
        None
    }

    /// The value of the field named `key`, as `BTreeMap::get` gives it.
    pub fn get(&self, key: &str) -> (r: Option<&FieldValue>)
        ensures
            r is Some <==> has_key(self@, key@),
            r matches Some(v) ==> v@ == as_map(self@)[key@],
            r matches Some(v) ==> exists|i: int| 0 <= i < self@.len() && self@[i] == (key@, v@),
    {
        proof {
            use_type_invariant(self);
        }
        match self.position(key) {
            Some(i) => {
                proof {
                    lemma_unique_key(self@, i as int);
                }
                Some(&self.entries[i].1)
            },
            None => None,
        }
    }

    /// Whether a field is named `key`.
    pub fn contains_key(&self, key: &str) -> (r: bool)
        ensures
            r == has_key(self@, key@),
    {
        self.position(key).is_some()
    }

    /// Sets the field `key` to `value`, as `BTreeMap::insert` does: an entry of
    /// that name is replaced in place, else the entry goes where its name falls in
    /// key order. Returns the value that was replaced.
    pub fn insert(&mut self, key: String, value: FieldValue) -> (r: Option<FieldValue>)
        ensures
            has_key(old(self)@, key@) ==> exists|i: int| 0 <= i < old(self)@.len() && old(self)@[i].0 == key@ && final(self)@ == old(self)@.update(i, (key@, value@)),
            !has_key(old(self)@, key@) ==> exists|p: int| 0 <= p <= old(self)@.len() && final(self)@ == old(self)@.insert(p, (key@, value@)),
            as_map(final(self)@) == as_map(old(self)@).insert(key@, value@),
            keys_sorted(final(self)@),
            r is Some <==> has_key(old(self)@, key@),
            r matches Some(v) ==> v@ == as_map(old(self)@)[key@],
    {
        proof {
            use_type_invariant(&*self);
        }
        let ghost s = self@;
        let mut i: usize = 0;
        while i < self.entries.len() && str_lt(self.entries[i].0.as_str(), key.as_str())
            invariant
                i <= self.entries@.len(),
                s == self@,
                keys_sorted(s),
                forall|j: int| 0 <= j < i ==> key_lt(#[trigger] s[j].0, key@),
            decreases self.entries@.len() - i,
        {
            i = i + 1;
        }
        // every name before position i comes before `key`; the one at i does not
        if i < self.entries.len() && str_eq(self.entries[i].0.as_str(), key.as_str()) {
            let mut entries = Vec::new();
            std::mem::swap(&mut entries, &mut self.entries);
            let ghost before = entries@;
            let old_value = entries[i].1.duplicate();
            entries.set(i, (key, value));
            proof {
                lemma_unique_key(s, i as int);
                assert(entries_view(entries@) =~= s.update(i as int, (key@, value@)));
                lemma_update_sorted(s, i as int, key@, value@);
                lemma_map_update(s, i as int, key@, value@);
            }
            self.entries = entries;
            Some(old_value)
        } else {
            proof {
                assert forall|j: int| i <= j < s.len() implies key_lt(key@, #[trigger] s[j].0) by {
                    lemma_key_lt_total(s[i as int].0, key@);
                    if j > i {
                        lemma_key_lt_transitive(key@, s[i as int].0, s[j].0);
                    }
                }
                assert(!has_key(s, key@)) by {
                    if has_key(s, key@) {
                        let k = choose|k: int| 0 <= k < s.len() && (#[trigger] s[k]).0 == key@;
                        lemma_key_lt_irreflexive(key@);
                        if k < i {
                        } else {
                        }
                    }
                }
            }
            let mut entries = Vec::new();
            std::mem::swap(&mut entries, &mut self.entries);
            entries.insert(i, (key, value));
            proof {
                assert(entries_view(entries@) =~= s.insert(i as int, (key@, value@)));
                lemma_insert_sorted(s, i as int, key@, value@);
                lemma_map_insert(s, i as int, key@, value@);
            }
            self.entries = entries;
            None
        }
    }
}

/// In sorted entries a name occurs once, so the map gives the value at its place.
proof fn lemma_unique_key(s: Seq<(Seq<char>, FieldValueView)>, i: int)
    requires
        keys_sorted(s),
        0 <= i < s.len(),
    ensures
        has_key(s, s[i].0),
        as_map(s)[s[i].0] == s[i].1,
        forall|j: int| 0 <= j < s.len() && s[j].0 == s[i].0 ==> j == i,
{
    assert forall|j: int| 0 <= j < s.len() && s[j].0 == s[i].0 implies j == i by {
        lemma_key_lt_irreflexive(s[i].0);
    }
    let k = choose|k: int| 0 <= k < s.len() && (#[trigger] s[k]).0 == s[i].0;
    assert(k == i);
}

proof fn lemma_update_sorted(s: Seq<(Seq<char>, FieldValueView)>, i: int, k: Seq<char>, v: FieldValueView)
    requires
        keys_sorted(s),
        0 <= i < s.len(),
        s[i].0 == k,
    ensures
        keys_sorted(s.update(i, (k, v))),
{
    let t = s.update(i, (k, v));
    assert forall|a: int, b: int| 0 <= a < b < t.len() implies key_lt(#[trigger] t[a].0, #[trigger] t[b].0) by {
        assert(t[a].0 == s[a].0 && t[b].0 == s[b].0);
    }
}

proof fn lemma_insert_sorted(s: Seq<(Seq<char>, FieldValueView)>, p: int, k: Seq<char>, v: FieldValueView)
    requires
        keys_sorted(s),
        0 <= p <= s.len(),
        forall|j: int| 0 <= j < p ==> key_lt(#[trigger] s[j].0, k),
        forall|j: int| p <= j < s.len() ==> key_lt(k, #[trigger] s[j].0),
    ensures
        keys_sorted(s.insert(p, (k, v))),
{
    let t = s.insert(p, (k, v));
    assert forall|a: int, b: int| 0 <= a < b < t.len() implies key_lt(#[trigger] t[a].0, #[trigger] t[b].0) by {
        if a < p && b < p {
            assert(t[a] == s[a] && t[b] == s[b]);
        } else if a < p && b == p {
            assert(t[a] == s[a]);
        } else if a < p {
            assert(t[a] == s[a] && t[b] == s[b - 1]);
        } else if a == p {
            assert(t[b] == s[b - 1]);
        } else {
            assert(t[a] == s[a - 1] && t[b] == s[b - 1]);
        }
    }
}

proof fn lemma_map_update(s: Seq<(Seq<char>, FieldValueView)>, i: int, k: Seq<char>, v: FieldValueView)
    requires
        keys_sorted(s),
        0 <= i < s.len(),
        s[i].0 == k,
    ensures
        as_map(s.update(i, (k, v))) == as_map(s).insert(k, v),
{
    let t = s.update(i, (k, v));
    lemma_update_sorted(s, i, k, v);
    assert forall|x: Seq<char>| has_key(t, x) == (has_key(s, x) || x == k) by {
        if has_key(s, x) {
            let j = choose|j: int| 0 <= j < s.len() && (#[trigger] s[j]).0 == x;
            assert(t[j].0 == x);
        }
        if has_key(t, x) {
            let j = choose|j: int| 0 <= j < t.len() && (#[trigger] t[j]).0 == x;
            assert(s[j].0 == x);
        }
        assert(t[i].0 == k);
    }
    assert forall|x: Seq<char>| #[trigger] has_key(t, x) implies as_map(t)[x] == as_map(s).insert(k, v)[x] by {
        let j = choose|j: int| 0 <= j < t.len() && (#[trigger] t[j]).0 == x;
        lemma_unique_key(t, j);
        if j != i {
            assert(s[j] == t[j]);
            lemma_unique_key(s, j);
        }
    }
    assert(as_map(t) =~= as_map(s).insert(k, v));
}

proof fn lemma_map_insert(s: Seq<(Seq<char>, FieldValueView)>, p: int, k: Seq<char>, v: FieldValueView)
    requires
        keys_sorted(s),
        0 <= p <= s.len(),
        forall|j: int| 0 <= j < p ==> key_lt(#[trigger] s[j].0, k),
        forall|j: int| p <= j < s.len() ==> key_lt(k, #[trigger] s[j].0),
    ensures
        as_map(s.insert(p, (k, v))) == as_map(s).insert(k, v),
{
    let t = s.insert(p, (k, v));
    lemma_insert_sorted(s, p, k, v);
    assert forall|x: Seq<char>| has_key(t, x) == (has_key(s, x) || x == k) by {
        if has_key(s, x) {
            let j = choose|j: int| 0 <= j < s.len() && (#[trigger] s[j]).0 == x;
            if j < p {
                assert(t[j].0 == x);
            } else {
                assert(t[j + 1].0 == x);
            }
        }
        if has_key(t, x) {
            let j = choose|j: int| 0 <= j < t.len() && (#[trigger] t[j]).0 == x;
            if j < p {
                assert(s[j].0 == x);
            } else if j > p {
                assert(s[j - 1].0 == x);
            }
        }
        assert(t[p].0 == k);
    }
    assert forall|x: Seq<char>| #[trigger] has_key(t, x) implies as_map(t)[x] == as_map(s).insert(k, v)[x] by {
        let j = choose|j: int| 0 <= j < t.len() && (#[trigger] t[j]).0 == x;
        lemma_unique_key(t, j);
        if j < p {
            assert(s[j] == t[j]);
            lemma_unique_key(s, j);
            lemma_key_lt_total(x, k);
        } else if j > p {
            assert(s[j - 1] == t[j]);
            lemma_unique_key(s, j - 1);
            lemma_key_lt_total(x, k);
        }
    }
    assert(as_map(t) =~= as_map(s).insert(k, v));
}

// ─── Records ────────────────────────────────────────────────────────────────

/// The type of a record. Logins are the one type of this version.
#[derive(Debug, Clone, Copy, PartialEq, Eq, Structural)]
pub enum RecordType {
    Login,
}

/// The name of a record type as the file stores it.
pub open spec fn record_type_name(t: RecordType) -> Seq<char> {
    match t {
        RecordType::Login => "login"@,
    }
}

impl RecordType {
    /// The name of the type: `login`.
    pub fn as_str(&self) -> (r: &'static str)
        ensures
            r@ == record_type_name(*self),
    {
        match self {
            RecordType::Login => "login",
        }
    }
}

/// A record of the vault.
#[derive(Debug)]
pub struct Record {
    /// A UUID v4 as 16 bytes; it never changes.
    pub id: [u8; 16],
    pub rtype: RecordType,
    pub title: String,
    pub tags: Vec<String>,
    pub notes: String,
    /// Unix time in nanoseconds.
    pub created_at: u64,
    /// Unix time in nanoseconds.
    pub modified_at: u64,
    /// The named fields, in key order.
    pub fields: FieldMap,
}

/// The content of a record.
pub struct RecordModel {
    pub id: Seq<u8>,
    pub rtype: RecordType,
    pub title: Seq<char>,
    pub tags: Seq<Seq<char>>,
    pub notes: Seq<char>,
    pub created_at: u64,
    pub modified_at: u64,
    pub fields: Seq<(Seq<char>, FieldValueView)>,
}

impl View for Record {
    type V = RecordModel;

    open spec fn view(&self) -> RecordModel {
        RecordModel {
            id: self.id@,
            rtype: self.rtype,
            title: self.title@,
            tags: string_views(self.tags@),
            notes: self.notes@,
            created_at: self.created_at,
            modified_at: self.modified_at,
            fields: self.fields@,
        }
    }
}

/// What the user enters for a new login.
#[derive(Debug, Clone)]
pub struct LoginInput {
    pub title: String,
    pub url: String,
    pub username: String,
    pub password: String,
    pub tags: Vec<String>,
    pub notes: String,
}

/// The fields of a login, in key order: `password`, `url`, `username`.
pub open spec fn login_fields(url: Seq<char>, username: Seq<char>, password: Seq<char>) -> Seq<(Seq<char>, FieldValueView)> {
    seq![
        ("password"@, FieldValueView::Text(password)),
        ("url"@, FieldValueView::Text(url)),
        ("username"@, FieldValueView::Text(username)),
    ]
}

/// Why a login cannot be built from an input, if it cannot.
pub open spec fn login_input_error(title: Seq<char>, username: Seq<char>) -> Option<Seq<char>> {
    if trim_seq(title).len() == 0 {
        Some("tytul nie moze byc pusty"@)
    } else if username.len() == 0 {
        Some("username nie moze byc pusty"@)
    } else {
        None
    }
}

/// The names `password`, `url` and `username` in key order.
proof fn lemma_login_names_ordered()
    ensures
        key_lt("password"@, "url"@),
        key_lt("url"@, "username"@),
        key_lt("password"@, "username"@),
{
    reveal_strlit("password");
    reveal_strlit("url");
    reveal_strlit("username");
    let p = "password"@;
    let u = "url"@;
    let n = "username"@;
    assert(p[0] == 'p' && u[0] == 'u' && n[0] == 'u');
    assert(u[1] == 'r' && n[1] == 's');
    assert(u.drop_first()[0] == 'r' && n.drop_first()[0] == 's');
    assert(key_lt(u.drop_first(), n.drop_first()));
}

/// The field map of a login: `url`, `username` and `password` as texts.
pub fn login_field_map(url: String, username: String, password: String) -> (r: FieldMap)
    ensures
        r@ == login_fields(url@, username@, password@),
{
    let ghost u = url@;
    let ghost n = username@;
    let ghost p = password@;
    proof {
        lemma_login_names_ordered();
        lemma_key_lt_irreflexive("url"@);
        lemma_key_lt_irreflexive("username"@);
    }
    let mut fields = FieldMap::new();
    fields.insert("url".to_owned(), FieldValue::Text(url));
    assert(fields@.len() == 1 && fields@[0].0 == "url"@);
    fields.insert("username".to_owned(), FieldValue::Text(username));
    assert(fields@.len() == 2);
    assert(!has_key(fields@, "password"@)) by {
        assert(fields@[0].0 == "url"@ || fields@[0].0 == "username"@);
        assert(fields@[1].0 == "url"@ || fields@[1].0 == "username"@);
    }
    fields.insert("password".to_owned(), FieldValue::Text(password));
    proof {
        let f = fields@;
        assert(f.len() == 3);
        assert(has_key(f, "url"@) && has_key(f, "username"@) && has_key(f, "password"@)) by {
            assert(as_map(f).dom().contains("url"@));
            assert(as_map(f).dom().contains("username"@));
            assert(as_map(f).dom().contains("password"@));
        }
        lemma_three_sorted(f, "password"@, "url"@, "username"@);
        lemma_unique_key(f, 0);
        lemma_unique_key(f, 1);
        lemma_unique_key(f, 2);
        assert(f =~= login_fields(u, n, p));
    }
    fields
}

/// In the fields of a login each of the three names gives its text.
pub proof fn lemma_login_fields_lookup(url: Seq<char>, username: Seq<char>, password: Seq<char>)
    ensures
        keys_sorted(login_fields(url, username, password)),
        has_key(login_fields(url, username, password), "url"@),
        has_key(login_fields(url, username, password), "username"@),
        has_key(login_fields(url, username, password), "password"@),
        as_map(login_fields(url, username, password))["url"@] == FieldValueView::Text(url),
        as_map(login_fields(url, username, password))["username"@] == FieldValueView::Text(username),
        as_map(login_fields(url, username, password))["password"@] == FieldValueView::Text(password),
{
    let f = login_fields(url, username, password);
    lemma_login_names_ordered();
    assert(keys_sorted(f));
    lemma_unique_key(f, 0);
    lemma_unique_key(f, 1);
    lemma_unique_key(f, 2);
}

impl Record {
    /// A new login record with `id`, created and modified at `now_nanos`. The
    /// title must not be blank and the username not empty.
    pub fn new_login(input: LoginInput, id: [u8; 16], now_nanos: u64) -> (r: Result<Record, &'static str>)
        ensures
            match login_input_error(input.title@, input.username@) {
                Some(why) => r matches Err(e) && e@ == why,
                None => r matches Ok(rec) && rec@ == (RecordModel {
                    id: id@,
                    rtype: RecordType::Login,
                    title: input.title@,
                    tags: string_views(input.tags@),
                    notes: input.notes@,
                    created_at: now_nanos,
                    modified_at: now_nanos,
                    fields: login_fields(input.url@, input.username@, input.password@),
                }),
            },
    {
        let trimmed = trim(input.title.as_str());
        if trimmed.unicode_len() == 0 {
            return Err("tytul nie moze byc pusty");
        }
        if input.username.unicode_len() == 0 {
            return Err("username nie moze byc pusty");
        }
        let fields = login_field_map(input.url, input.username, input.password);
        Ok(Record {
            id,
            rtype: RecordType::Login,
            title: input.title,
            tags: input.tags,
            notes: input.notes,
            created_at: now_nanos,
            modified_at: now_nanos,
            fields,
        })
    }

    /// A copy of the record.
    pub fn duplicate(&self) -> (r: Record)
        ensures
            r@ == self@,
    {
        let mut tags: Vec<String> = Vec::new();
        let mut i: usize = 0;
        while i < self.tags.len()
            invariant
                i <= self.tags@.len(),
                tags@.len() == i,
                forall|j: int| 0 <= j < i ==> (#[trigger] tags@[j])@ == self.tags@[j]@,
            decreases self.tags@.len() - i,
        {
            tags.push(self.tags[i].clone());
            i = i + 1;
        }
        assert(string_views(tags@) =~= string_views(self.tags@));
        Record {
            id: self.id,
            rtype: self.rtype,
            title: self.title.clone(),
            tags,
            notes: self.notes.clone(),
            created_at: self.created_at,
            modified_at: self.modified_at,
            fields: self.fields.duplicate(),
        }
    }

    /// The id in lower-case hexadecimal: 32 digits.
    pub fn id_hex(&self) -> (r: String)
        ensures
            r@ == hex_seq(self.id@),
    {
        hex_string(self.id.as_slice())
    }

    /// A line for the user: id, type and title, separated by two spaces. It holds
    /// no secret.
    pub fn summary(&self) -> (r: String)
        ensures
            r@ == hex_seq(self.id@) + "  "@ + record_type_name(self.rtype) + "  "@ + self.title@,
    {
        let id = self.id_hex();
        let a = concat_str(id.as_str(), "  ");
        let b = concat_str(a.as_str(), self.rtype.as_str());
        let c = concat_str(b.as_str(), "  ");
        concat_str(c.as_str(), self.title.as_str())
    }
}

/// Three sorted entries that hold three names in increasing order hold them in
/// that order.
proof fn lemma_three_sorted(f: Seq<(Seq<char>, FieldValueView)>, a: Seq<char>, b: Seq<char>, c: Seq<char>)
    requires
        f.len() == 3,
        keys_sorted(f),
        has_key(f, a),
        has_key(f, b),
        has_key(f, c),
        key_lt(a, b),
        key_lt(b, c),
        key_lt(a, c),
    ensures
        f[0].0 == a,
        f[1].0 == b,
        f[2].0 == c,
{
    let ia = choose|i: int| 0 <= i < f.len() && (#[trigger] f[i]).0 == a;
    let ib = choose|i: int| 0 <= i < f.len() && (#[trigger] f[i]).0 == b;
    let ic = choose|i: int| 0 <= i < f.len() && (#[trigger] f[i]).0 == c;
    lemma_key_lt_total(a, b);
    lemma_key_lt_total(b, c);
    lemma_key_lt_total(a, c);
    lemma_key_lt_irreflexive(a);
    lemma_key_lt_irreflexive(b);
    lemma_key_lt_irreflexive(c);
    if ia > ib {
        assert(key_lt(f[ib].0, f[ia].0));
    }
    if ib > ic {
        assert(key_lt(f[ic].0, f[ib].0));
    }
    if ia > ic {
        assert(key_lt(f[ic].0, f[ia].0));
    }
}

} // verus!
