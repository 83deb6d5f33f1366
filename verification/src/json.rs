//! JSON values as they travel between Pars and Fits: an exec type, its
//! mathematical view, object operations with map semantics, and the pretty
//! text form in which documents are stored.
use vstd::prelude::*;

verus! {

/// A JSON value.  Numbers are integral.
pub enum Json {
    Null,
    Boolean(bool),
    Number(i64),
    String(String),
    List(Vec<Json>),
    Object(JsonObject),
}

/// A JSON object: named members, each name at most once.
pub struct JsonObject {
    entries: Vec<(String, Json)>,
}

/// The mathematical value of a JSON document.  The members of an object are
/// kept in their stored order.
pub enum JsonV {
    Null,
    Boolean(bool),
    Number(int),
    Str(Seq<char>),
    List(Seq<JsonV>),
    Object(Seq<(Seq<char>, JsonV)>),
}

pub open spec fn list_view(v: Seq<Json>) -> Seq<JsonV>
    decreases v,
{
    Seq::new(v.len(), |i: int| if 0 <= i < v.len() { json_view(v[i]) } else { JsonV::Null })
}

pub open spec fn entries_view(e: Seq<(String, Json)>) -> Seq<(Seq<char>, JsonV)>
    decreases e,
{
    Seq::new(
        e.len(),
        |i: int|
            if 0 <= i < e.len() {
                (e[i].0@, json_view(e[i].1))
            } else {
                (Seq::empty(), JsonV::Null)
            },
    )
}

pub open spec fn json_view(j: Json) -> JsonV
    decreases j,
{
    match j {
        Json::Null => JsonV::Null,
        Json::Boolean(b) => JsonV::Boolean(b),
        Json::Number(n) => JsonV::Number(n as int),
        Json::String(s) => JsonV::Str(s@),
        Json::List(v) => JsonV::List(list_view(v@)),
        Json::Object(o) => JsonV::Object(o.obj_view()),
    }
}

impl View for Json {
    type V = JsonV;

    open spec fn view(&self) -> JsonV {
        json_view(*self)
    }
}

impl JsonObject {
    pub closed spec fn obj_view(&self) -> Seq<(Seq<char>, JsonV)>
        decreases self,
    {
        entries_view(self.entries@)
    }

    #[verifier::type_invariant]
    spec fn names_unique(self) -> bool {
        keys_unique(entries_view(self.entries@))
    }
}

impl View for JsonObject {
    type V = Seq<(Seq<char>, JsonV)>;

    open spec fn view(&self) -> Seq<(Seq<char>, JsonV)> {
        self.obj_view()
    }
}

// ---------------------------------------------------------------------------
// Objects as maps
// ---------------------------------------------------------------------------

pub open spec fn has_key(s: Seq<(Seq<char>, JsonV)>, k: Seq<char>) -> bool {
    exists|i: int| 0 <= i < s.len() && #[trigger] s[i].0 == k
}

pub open spec fn keys_unique(s: Seq<(Seq<char>, JsonV)>) -> bool {
    forall|i: int, j: int|
        0 <= i < s.len() && 0 <= j < s.len() && i != j ==> #[trigger] s[i].0 != #[trigger] s[j].0
}

pub open spec fn key_index(s: Seq<(Seq<char>, JsonV)>, k: Seq<char>) -> int {
    choose|i: int| 0 <= i < s.len() && #[trigger] s[i].0 == k
}

/// The value stored under `k`, if any.
pub open spec fn lookup(s: Seq<(Seq<char>, JsonV)>, k: Seq<char>) -> Option<JsonV> {
    if has_key(s, k) {
        Some(s[key_index(s, k)].1)
    } else {
        None
    }
}

/// Stores `v` under `k`: in place where `k` is already there, else at the end.
pub open spec fn obj_insert(s: Seq<(Seq<char>, JsonV)>, k: Seq<char>, v: JsonV) -> Seq<
    (Seq<char>, JsonV),
> {
    if has_key(s, k) {
        s.update(key_index(s, k), (k, v))
    } else {
        s.push((k, v))
    }
}

/// Drops the member named `k`, if there is one.
pub open spec fn obj_remove(s: Seq<(Seq<char>, JsonV)>, k: Seq<char>) -> Seq<(Seq<char>, JsonV)> {
    if has_key(s, k) {
        s.remove(key_index(s, k))
    } else {
        s
    }
}

/// The member names, in stored order.
pub open spec fn obj_keys(s: Seq<(Seq<char>, JsonV)>) -> Seq<Seq<char>> {
    Seq::new(s.len(), |i: int| s[i].0)
}

/// The object built by inserting the members of `s` one after the other.
pub open spec fn obj_from_pairs(s: Seq<(Seq<char>, JsonV)>) -> Seq<(Seq<char>, JsonV)>
    decreases s.len(),
{
    if s.len() == 0 {
        Seq::empty()
    } else {
        obj_insert(obj_from_pairs(s.drop_last()), s.last().0, s.last().1)
    }
}

pub proof fn lemma_key_index(s: Seq<(Seq<char>, JsonV)>, k: Seq<char>, i: int)
    requires
        keys_unique(s),
        0 <= i < s.len(),
        s[i].0 == k,
    ensures
        has_key(s, k),
        key_index(s, k) == i,
        lookup(s, k) == Some(s[i].1),
{
}

pub proof fn lemma_insert_unique(s: Seq<(Seq<char>, JsonV)>, k: Seq<char>, v: JsonV)
    requires
        keys_unique(s),
    ensures
        keys_unique(obj_insert(s, k, v)),
        has_key(obj_insert(s, k, v), k),
        lookup(obj_insert(s, k, v), k) == Some(v),
        forall|k2: Seq<char>|
            k2 != k ==> #[trigger] lookup(obj_insert(s, k, v), k2) == lookup(s, k2),
{
    let t = obj_insert(s, k, v);
    if has_key(s, k) {
        let i = key_index(s, k);
        assert forall|k2: Seq<char>| k2 != k implies #[trigger] lookup(t, k2) == lookup(s, k2) by {
            if has_key(s, k2) {
                let j = key_index(s, k2);
                assert(t[j].0 == k2);
                lemma_key_index(t, k2, j);
            } else {
                assert(!has_key(t, k2)) by {
                    if has_key(t, k2) {
                        let j = key_index(t, k2);
                        assert(s[j].0 == k2);
                    }
                }
            }
        }
        lemma_key_index(t, k, i);
    } else {
        assert forall|k2: Seq<char>| k2 != k implies #[trigger] lookup(t, k2) == lookup(s, k2) by {
            if has_key(s, k2) {
                let j = key_index(s, k2);
                assert(t[j].0 == k2);
                lemma_key_index(t, k2, j);
            } else {
                assert(!has_key(t, k2)) by {
                    if has_key(t, k2) {
                        let j = key_index(t, k2);
                        assert(s[j].0 == k2);
                    }
                }
            }
        }
        lemma_key_index(t, k, s.len() as int);
    }
}

pub proof fn lemma_remove_unique(s: Seq<(Seq<char>, JsonV)>, k: Seq<char>)
    requires
        keys_unique(s),
    ensures
        keys_unique(obj_remove(s, k)),
        !has_key(obj_remove(s, k), k),
        forall|k2: Seq<char>|
            k2 != k ==> #[trigger] lookup(obj_remove(s, k), k2) == lookup(s, k2),
{
    let t = obj_remove(s, k);
    if has_key(s, k) {
        let i = key_index(s, k);
        assert(forall|j: int| 0 <= j < t.len() ==> #[trigger] t[j] == s[if j < i { j } else { j + 1 }]);
        assert forall|k2: Seq<char>| k2 != k implies #[trigger] lookup(t, k2) == lookup(s, k2) by {
            if has_key(s, k2) {
                let j = key_index(s, k2);
                let jj = if j < i { j } else { j - 1 };
                assert(t[jj] == s[j]);
                lemma_key_index(t, k2, jj);
            } else {
                assert(!has_key(t, k2)) by {
                    if has_key(t, k2) {
                        let j = key_index(t, k2);
                        assert(s[if j < i { j } else { j + 1 }].0 == k2);
                    }
                }
            }
        }
        assert(!has_key(t, k)) by {
            if has_key(t, k) {
                let j = key_index(t, k);
                assert(s[if j < i { j } else { j + 1 }].0 == k);
            }
        }
    }
}

/// Replacing the member named `k` (dropping it, then storing `v` under `k`)
/// reads back `v` under `k`; dropping it reads back nothing; every other
/// name reads back what it held, and names stay unique.
pub proof fn lemma_replace_reads_back(m: Seq<(Seq<char>, JsonV)>, k: Seq<char>, v: JsonV, k2: Seq<char>)
    requires
        keys_unique(m),
    ensures
        lookup(obj_insert(obj_remove(m, k), k, v), k) == Some(v),
        k2 != k ==> lookup(obj_insert(obj_remove(m, k), k, v), k2) == lookup(m, k2),
        lookup(obj_remove(m, k), k) is None,
        k2 != k ==> lookup(obj_remove(m, k), k2) == lookup(m, k2),
        keys_unique(obj_insert(obj_remove(m, k), k, v)),
{
    lemma_remove_unique(m, k);
    lemma_insert_unique(obj_remove(m, k), k, v);
}

// ---------------------------------------------------------------------------
// Exec operations
// ---------------------------------------------------------------------------

proof fn lemma_entries_view_index(e: Seq<(String, Json)>, i: int)
    requires
        0 <= i < e.len(),
    ensures
        entries_view(e).len() == e.len(),
        entries_view(e)[i] == (e[i].0@, json_view(e[i].1)),
{
}

impl JsonObject {
    /// An object with no members.
    pub fn new() -> (r: JsonObject)
        ensures
            r@ == Seq::<(Seq<char>, JsonV)>::empty(),
    {
        let r = JsonObject { entries: Vec::new() };
        assert(r@ =~= Seq::<(Seq<char>, JsonV)>::empty());
        r
    }

    /// The stored members, in order.
    pub fn as_entries(&self) -> (r: &Vec<(String, Json)>)
        ensures
            entries_view(r@) == self@,
            keys_unique(self@),
            forall|i: int| 0 <= i < r@.len() ==> decreases_to!(*self => #[trigger] r@[i].1),
    {
        proof {
            use_type_invariant(self);
            assert forall|i: int| 0 <= i < self.entries@.len() implies decreases_to!(
                *self => #[trigger] self.entries@[i].1
            ) by {
                assert(decreases_to!(self.entries => self.entries@[i]));
            }
        }
        &self.entries
    }

    /// The number of members.
    pub fn len(&self) -> (n: usize)
        ensures
            n == self@.len(),
            keys_unique(self@),
    {
        proof {
            use_type_invariant(self);
        }
        self.entries.len()
    }

    fn find(&self, k: &String) -> (r: Option<usize>)
        ensures
            keys_unique(self@),
            r is None <==> !has_key(self@, k@),
            r matches Some(i) ==> i < self@.len() && key_index(self@, k@) == i && self@[i as int].0
                == k@,
    {
        proof {
            use_type_invariant(self);
        }
        let mut i: usize = 0;
        while i < self.entries.len()
            invariant
                i <= self.entries@.len(),
                self@ == entries_view(self.entries@),
                keys_unique(self@),
                forall|j: int| 0 <= j < i ==> #[trigger] self@[j].0 != k@,
            decreases self.entries@.len() - i,
        {
            proof {
                lemma_entries_view_index(self.entries@, i as int);
            }
            if self.entries[i].0 == *k {
                proof {
                    lemma_key_index(self@, k@, i as int);
                }
                return Some(i);
            }
            i = i + 1;
        }
        proof {
            if has_key(self@, k@) {
                let j = key_index(self@, k@);
                assert(self@[j].0 == k@);
            }
        }
        None
    }

    /// Whether a member is named `k`.
    pub fn contains_key(&self, k: &String) -> (b: bool)
        ensures
            b == has_key(self@, k@),
    {
        self.find(k).is_some()
    }

    /// The value of the member named `k`.
    pub fn get(&self, k: &String) -> (r: Option<&Json>)
        ensures
            keys_unique(self@),
            r is Some <==> has_key(self@, k@),
            r matches Some(v) ==> lookup(self@, k@) == Some(v@),
    {
        match self.find(k) {
            Some(i) => {
                proof {
                    lemma_entries_view_index(self.entries@, i as int);
                    lemma_key_index(self@, k@, i as int);
                }
                Some(&self.entries[i].1)
            },
            None => None,
        }
    }

    /// Stores `v` under `k`, replacing what was there.
    pub fn insert(&mut self, k: String, v: Json)
        ensures
            final(self)@ == obj_insert(old(self)@, k@, v@),
            keys_unique(final(self)@),
    {
        proof {
            use_type_invariant(&*self);
        }
        let found = self.find(&k);
        let ghost ks = k@;
        let ghost vv = v@;
        let ghost old_view = self@;
        let mut e: Vec<(String, Json)> = Vec::new();
        std::mem::swap(&mut e, &mut self.entries);
        assert(entries_view(e@) == old_view);
        match found {
            Some(i) => {
                e.set(i, (k, v));
                proof {
                    lemma_entries_view_index(e@, i as int);
                    assert(entries_view(e@) =~= old_view.update(i as int, (ks, vv)));
                    lemma_insert_unique(old_view, ks, vv);
                }
            },
            None => {
                e.push((k, v));
                proof {
                    lemma_entries_view_index(e@, e@.len() - 1);
                    assert(entries_view(e@) =~= old_view.push((ks, vv)));
                    lemma_insert_unique(old_view, ks, vv);
                }
            },
        }
        self.entries = e;
    }

    /// Drops the member named `k` and returns its value.
    pub fn remove(&mut self, k: &String) -> (r: Option<Json>)
        ensures
            final(self)@ == obj_remove(old(self)@, k@),
            keys_unique(final(self)@),
            r is Some <==> has_key(old(self)@, k@),
            r matches Some(v) ==> lookup(old(self)@, k@) == Some(v@),
    {
        proof {
            use_type_invariant(&*self);
        }
        let found = self.find(k);
        let ghost old_view = self@;
        match found {
            Some(i) => {
                let mut e: Vec<(String, Json)> = Vec::new();
                std::mem::swap(&mut e, &mut self.entries);
                assert(entries_view(e@) == old_view);
                proof {
                    lemma_entries_view_index(e@, i as int);
                    lemma_key_index(old_view, k@, i as int);
                }
                let (_, v) = e.remove(i);
                proof {
                    assert(entries_view(e@) =~= old_view.remove(i as int));
                    lemma_remove_unique(old_view, k@);
                }
                self.entries = e;
                Some(v)
            },
            None => {
                proof {
                    lemma_remove_unique(old_view, k@);
                }
                None
            },
        }
    }

    /// The member names, in stored order.
    pub fn keys(&self) -> (r: Vec<String>)
        ensures
            r@.len() == self@.len(),
            forall|i: int| 0 <= i < r@.len() ==> #[trigger] r@[i]@ == obj_keys(self@)[i],
            keys_unique(self@),
    {
        proof {
            use_type_invariant(self);
        }
        let mut r: Vec<String> = Vec::new();
        let mut i: usize = 0;
        while i < self.entries.len()
            invariant
                i <= self.entries@.len(),
                self@ == entries_view(self.entries@),
                r@.len() == i,
                forall|j: int| 0 <= j < i ==> #[trigger] r@[j]@ == self@[j].0,
            decreases self.entries@.len() - i,
        {
            proof {
                lemma_entries_view_index(self.entries@, i as int);
            }
            r.push(self.entries[i].0.clone());
            i = i + 1;
        }
        r
    }

    /// A copy with the same members in the same order.
    pub fn deep_copy(&self) -> (r: JsonObject)
        ensures
            r@ == self@,
        decreases self, 0int,
    {
        proof {
            use_type_invariant(self);
        }
        let mut e: Vec<(String, Json)> = Vec::new();
        let mut i: usize = 0;
        while i < self.entries.len()
            invariant
                i <= self.entries@.len(),
                self@ == entries_view(self.entries@),
                keys_unique(self@),
                e@.len() == i,
                forall|j: int| 0 <= j < i ==> #[trigger] entries_view(e@)[j] == self@[j],
            decreases self.entries@.len() - i,
        {
            proof {
                lemma_entries_view_index(self.entries@, i as int);
                assert(decreases_to!(self.entries => self.entries@[i as int]));
            }
            let name = self.entries[i].0.clone();
            let value = self.entries[i].1.deep_copy();
            let ghost prev = e@;
            e.push((name, value));
            proof {
                assert forall|j: int| 0 <= j < i + 1 implies #[trigger] entries_view(e@)[j]
                    == self@[j] by {
                    lemma_entries_view_index(e@, j);
                    if j < i {
                        lemma_entries_view_index(prev, j);
                    }
                }
            }
            i = i + 1;
        }
        assert(entries_view(e@) =~= self@);
        JsonObject { entries: e }
    }
}

impl Json {
    /// A copy of this value.
    pub fn deep_copy(&self) -> (r: Json)
        ensures
            r@ == self@,
        decreases self, 1int,
    {
        match self {
            Json::Null => Json::Null,
            Json::Boolean(b) => Json::Boolean(*b),
            Json::Number(n) => Json::Number(*n),
            Json::String(s) => Json::String(s.clone()),
            Json::Object(o) => Json::Object(o.deep_copy()),
            Json::List(v) => {
                let mut out: Vec<Json> = Vec::new();
                let mut i: usize = 0;
                while i < v.len()
                    invariant
                        i <= v@.len(),
                        out@.len() == i,
                        decreases_to!(*self => *v),
                        forall|j: int| 0 <= j < i ==> #[trigger] json_view(out@[j]) == json_view(
                            v@[j],
                        ),
                    decreases v@.len() - i,
                {
                    proof {
                        assert(decreases_to!(*v => v@[i as int]));
                        assert(decreases_to!(*self => v@[i as int]));
                    }
                    let c = v[i].deep_copy();
                    out.push(c);
                    i = i + 1;
                }
                assert forall|j: int| 0 <= j < v@.len() implies #[trigger] list_view(out@)[j]
                    == list_view(v@)[j] by {
                    assert(json_view(out@[j]) == json_view(v@[j]));
                }
                assert(list_view(out@) =~= list_view(v@));
                Json::List(out)
            },
        }
    }
}

} // verus!
