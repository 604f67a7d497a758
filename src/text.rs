//! Text helpers shared by the attribute and label tables: exact comparison of
//! strings and first-match lookup in a list of key/value pairs.

use vstd::prelude::*;
use vstd::string::*;

verus! {

/// The characters of every pair of a key/value list.
pub open spec fn pairs_view(p: Seq<(String, String)>) -> Seq<(Seq<char>, Seq<char>)> {
    p.map_values(|e: (String, String)| (e.0@, e.1@))
}

/// The value of the first pair whose key is `key`, if any.
pub open spec fn lookup(entries: Seq<(Seq<char>, Seq<char>)>, key: Seq<char>) -> Option<Seq<char>>
    decreases entries.len(),
{
    if entries.len() == 0 {
        None
    } else if entries[0].0 == key {
        Some(entries[0].1)
    } else {
        lookup(entries.drop_first(), key)
    }
}

/// The characters of an optional string.
pub open spec fn opt_text(o: Option<String>) -> Option<Seq<char>> {
    match o {
        Some(s) => Some(s@),
        None => None,
    }
}

/// The characters of an optional borrowed string.
pub open spec fn opt_ref_text(o: Option<&String>) -> Option<Seq<char>> {
    match o {
        Some(s) => Some(s@),
        None => None,
    }
}

/// A string's characters, or `default` when it is absent.
pub open spec fn text_or(o: Option<String>, default: Seq<char>) -> Seq<char> {
    match o {
        Some(s) => s@,
        None => default,
    }
}

/// The characters of each string of a list.
pub open spec fn texts(v: Seq<String>) -> Seq<Seq<char>> {
    v.map_values(|s: String| s@)
}

proof fn lemma_lookup_at(entries: Seq<(Seq<char>, Seq<char>)>, key: Seq<char>, i: int)
    requires
        0 <= i < entries.len(),
        entries[i].0 == key,
        forall|j: int| 0 <= j < i ==> entries[j].0 != key,
    ensures
        lookup(entries, key) == Some(entries[i].1),
    decreases i,
{
    if i > 0 {
        lemma_lookup_at(entries.drop_first(), key, i - 1);
    }
}

proof fn lemma_lookup_absent(entries: Seq<(Seq<char>, Seq<char>)>, key: Seq<char>)
    requires
        forall|j: int| 0 <= j < entries.len() ==> entries[j].0 != key,
    ensures
        lookup(entries, key) is None,
    decreases entries.len(),
{
    if entries.len() > 0 {
        lemma_lookup_absent(entries.drop_first(), key);
    }
}

/// Whether two strings hold the same characters.
pub fn same_text(a: &str, b: &str) -> (r: bool)
    ensures
        r == (a@ == b@),
{
    let n = a.unicode_len();
    if n != b.unicode_len() {
        return false;
    }
    let mut i: usize = 0;
    while i < n
        invariant
            n == a@.len(),
            n == b@.len(),
            i <= n,
            a@.subrange(0, i as int) == b@.subrange(0, i as int),
        decreases n - i,
    {
        if a.get_char(i) != b.get_char(i) {
            return false;
        }
        assert(a@.subrange(0, i + 1) =~= a@.subrange(0, i as int).push(a@[i as int]));
        assert(b@.subrange(0, i + 1) =~= b@.subrange(0, i as int).push(b@[i as int]));
        i += 1;
    }
    assert(a@ =~= a@.subrange(0, n as int));
    assert(b@ =~= b@.subrange(0, n as int));
    true
}

/// The index of the first pair whose key is `key`.
pub fn position(entries: &Vec<(String, String)>, key: &str) -> (r: Option<usize>)
    ensures
        match r {
            Some(i) => {
                &&& i < entries@.len()
                &&& entries@[i as int].0@ == key@
                &&& forall|j: int| 0 <= j < i ==> entries@[j].0@ != key@
                &&& lookup(pairs_view(entries@), key@) == Some(entries@[i as int].1@)
            },
            None => {
                &&& forall|j: int| 0 <= j < entries@.len() ==> entries@[j].0@ != key@
                &&& lookup(pairs_view(entries@), key@) is None
            },
        },
{
    let mut i: usize = 0;
    while i < entries.len()
        invariant
            i <= entries@.len(),
            forall|j: int| 0 <= j < i ==> entries@[j].0@ != key@,
        decreases entries@.len() - i,
    {
        if same_text(entries[i].0.as_str(), key) {
            proof {
                lemma_lookup_at(pairs_view(entries@), key@, i as int);
            }
            return Some(i);
        }
        i += 1;
    }
    proof {
        lemma_lookup_absent(pairs_view(entries@), key@);
    }
    None
}

/// The value of the first pair whose key is `key`.
pub fn find_value<'a>(entries: &'a Vec<(String, String)>, key: &str) -> (r: Option<&'a String>)
    ensures
        opt_ref_text(r) == lookup(pairs_view(entries@), key@),
{
    match position(entries, key) {
        Some(i) => Some(&entries[i].1),
        None => None,
    }
}

/// Whether no two pairs of a list share a key.
pub open spec fn distinct_keys(entries: Seq<(Seq<char>, Seq<char>)>) -> bool {
    forall|i: int, j: int|
        0 <= i < j < entries.len() ==> #[trigger] entries[i].0 != #[trigger] entries[j].0
}

/// A table from string keys to string values, each key at most once, kept in
/// the order in which keys were first set.
#[derive(Debug, PartialEq)]
pub struct Table {
    entries: Vec<(String, String)>,
}

impl View for Table {
    type V = Seq<(Seq<char>, Seq<char>)>;

    closed spec fn view(&self) -> Seq<(Seq<char>, Seq<char>)> {
        pairs_view(self.entries@)
    }
}

impl Table {
    #[verifier::type_invariant]
    spec fn keys_unique(&self) -> bool {
        distinct_keys(pairs_view(self.entries@))
    }

    /// A table with no entry.
    pub fn new() -> (r: Table)
        ensures
            r@ == Seq::<(Seq<char>, Seq<char>)>::empty(),
    {
        let r = Table { entries: Vec::new() };
        assert(r@ =~= Seq::<(Seq<char>, Seq<char>)>::empty());
        r
    }

    /// Sets `key` to `value`: in place where `key` is already there, else at
    /// the end.
    pub fn insert(&mut self, key: String, value: String)
        ensures
            distinct_keys(final(self)@),
            lookup(old(self)@, key@) is None ==> final(self)@ == old(self)@.push((key@, value@)),
            lookup(old(self)@, key@) is Some ==> exists|i: int|
                0 <= i < old(self)@.len() && old(self)@[i].0 == key@ && final(self)@ == old(
                    self,
                )@.update(i, (key@, value@)),
    {
        proof {
            use_type_invariant(&*self);
        }
        let mut entries: Vec<(String, String)> = Vec::new();
        std::mem::swap(&mut entries, &mut self.entries);
        let ghost before = pairs_view(entries@);
        assert(before == old(self)@);
        match position(&entries, key.as_str()) {
            Some(i) => {
                entries[i] = (key, value);
                assert(pairs_view(entries@) =~= before.update(i as int, (key@, value@)));
                assert forall|x: int| 0 <= x < before.len() implies #[trigger] pairs_view(
                    entries@,
                )[x].0 == before[x].0 by {}
                assert(distinct_keys(pairs_view(entries@)));
            },
            None => {
                entries.push((key, value));
                assert(pairs_view(entries@) =~= before.push((key@, value@)));
                assert(distinct_keys(pairs_view(entries@))) by {
                    assert forall|a: int, b: int|
                        0 <= a < b < pairs_view(entries@).len() implies #[trigger] pairs_view(
                        entries@,
                    )[a].0 != #[trigger] pairs_view(entries@)[b].0 by {
                        if b == before.len() {
                            assert(before[a].0 != key@);
                        }
                    }
                }
            },
        }
        self.entries = entries;
    }

    /// The value of `key`.
    pub fn get(&self, key: &str) -> (r: Option<&String>)
        ensures
            opt_ref_text(r) == lookup(self@, key@),
    {
        find_value(&self.entries, key)
    }

    /// All entries, in order.
    pub fn entries(&self) -> (r: &Vec<(String, String)>)
        ensures
            pairs_view(r@) == self@,
            distinct_keys(self@),
    {
        proof {
            use_type_invariant(self);
        }
        &self.entries
    }

    /// The number of entries.
    pub fn len(&self) -> (r: usize)
        ensures
            r == self@.len(),
    {
        self.entries.len()
    }
}

} // verus!
