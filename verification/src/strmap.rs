//! A map keyed by strings, held as a vector of entries in which no key
//! occurs twice.

use vstd::prelude::*;

verus! {

/// The most entries that a new map sets room aside for.
pub const MAX_RESERVED: usize = 4096;

/// One key with its value.
struct Entry<V> {
    key: String,
    val: V,
}

/// `entries` holds key `k` at position `i`.
spec fn key_at<V>(entries: Seq<Entry<V>>, k: Seq<char>, i: int) -> bool {
    0 <= i < entries.len() && entries[i].key@ == k
}

/// A position at which `entries` holds key `k`.
spec fn slot<V>(entries: Seq<Entry<V>>, k: Seq<char>) -> int {
    choose|i: int| key_at(entries, k, i)
}

/// No key occurs twice in `entries`.
spec fn distinct_keys<V>(entries: Seq<Entry<V>>) -> bool {
    forall|i: int, j: int| 0 <= i < j < entries.len() ==> entries[i].key@ != entries[j].key@
}

/// The map that `entries` stands for.
spec fn as_map<V>(entries: Seq<Entry<V>>) -> Map<Seq<char>, V> {
    Map::new(
        |k: Seq<char>| exists|i: int| key_at(entries, k, i),
        |k: Seq<char>| entries[slot(entries, k)].val,
    )
}

/// With distinct keys, the entry at position `i` is what the map holds
/// under its key.
proof fn lemma_entry_in_map<V>(entries: Seq<Entry<V>>, i: int)
    requires
        distinct_keys(entries),
        0 <= i < entries.len(),
    ensures
        as_map(entries).contains_key(entries[i].key@),
        as_map(entries)[entries[i].key@] == entries[i].val,
{
    let k = entries[i].key@;
    assert(key_at(entries, k, i));
    let s = slot(entries, k);
    assert(key_at(entries, k, s));
    if s < i {
        assert(entries[s].key@ != entries[i].key@);
    } else if i < s {
        assert(entries[i].key@ != entries[s].key@);
    }
}

/// Putting an entry at position `at`, in place of one with the same key or
/// at the end where no entry has its key, keeps the keys distinct and puts
/// its value under its key.
proof fn lemma_put<V>(before: Seq<Entry<V>>, after: Seq<Entry<V>>, at: int)
    requires
        distinct_keys(before),
        0 <= at < after.len(),
        at < before.len() ==> after == before.update(at, after[at]) && before[at].key@
            == after[at].key@,
        at >= before.len() ==> after == before.push(after[at]) && forall|j: int|
            !key_at(before, after[at].key@, j),
    ensures
        distinct_keys(after),
        as_map(after) == as_map(before).insert(after[at].key@, after[at].val),
{
    let key = after[at].key@;
    assert forall|i: int, j: int| 0 <= i < j < after.len() implies after[i].key@
        != after[j].key@ by {
        if i != at {
            assert(after[i] == before[i]);
            assert(at < before.len() || !key_at(before, key, i));
        }
        if j != at {
            assert(after[j] == before[j]);
            assert(at < before.len() || !key_at(before, key, j));
        }
    }
    let got = as_map(after);
    let wanted = as_map(before).insert(key, after[at].val);
    assert forall|x: Seq<char>| #[trigger] wanted.dom().contains(x) implies got.dom().contains(
        x,
    ) by {
        if x == key {
            assert(key_at(after, x, at));
        } else {
            let j = choose|j: int| key_at(before, x, j);
            assert(key_at(after, x, j));
        }
    }
    assert forall|x: Seq<char>| #[trigger] got.dom().contains(x) implies wanted.dom().contains(x)
        && got[x] == wanted[x] by {
        let j = choose|j: int| key_at(after, x, j);
        lemma_entry_in_map(after, j);
        if j != at {
            assert(key_at(before, x, j));
            lemma_entry_in_map(before, j);
        }
    }
    assert(got.dom() =~= wanted.dom());
    assert(got =~= wanted);
}

/// Taking out the entry at position `at` keeps the keys distinct and takes
/// its key out of the map.
proof fn lemma_take<V>(before: Seq<Entry<V>>, at: int)
    requires
        distinct_keys(before),
        0 <= at < before.len(),
    ensures
        distinct_keys(before.remove(at)),
        as_map(before.remove(at)) == as_map(before).remove(before[at].key@),
{
    let after = before.remove(at);
    let got = as_map(after);
    let wanted = as_map(before).remove(before[at].key@);
    assert forall|x: Seq<char>| #[trigger] wanted.dom().contains(x) implies got.dom().contains(
        x,
    ) by {
        let j = choose|j: int| key_at(before, x, j);
        if j < at {
            assert(key_at(after, x, j));
        } else {
            assert(key_at(after, x, j - 1));
        }
    }
    assert forall|x: Seq<char>| #[trigger] got.dom().contains(x) implies wanted.dom().contains(x)
        && got[x] == wanted[x] by {
        let j = choose|j: int| key_at(after, x, j);
        lemma_entry_in_map(after, j);
        if j < at {
            assert(key_at(before, x, j));
            lemma_entry_in_map(before, j);
        } else {
            assert(key_at(before, x, j + 1));
            lemma_entry_in_map(before, j + 1);
        }
    }
    assert(got.dom() =~= wanted.dom());
    assert(got =~= wanted);
}

/// Position of key `k` in `entries`, where there is one.
fn find_key<V>(entries: &Vec<Entry<V>>, k: &String) -> (at: Option<usize>)
    ensures
        match at {
            Some(i) => key_at(entries@, k@, i as int),
            None => forall|j: int| !key_at(entries@, k@, j),
        },
{
    let mut i: usize = 0;
    while i < entries.len()
        invariant
            i <= entries.len(),
            forall|j: int| 0 <= j < i ==> entries@[j].key@ != k@,
        decreases entries.len() - i,
    {
        if entries[i].key == *k {
            return Some(i);
        }
        i = i + 1;
    }
    None
}

/// A finite map from strings to values of `V`. Its view maps the character
/// sequence of each key to its value.
pub struct StrMap<V> {
    entries: Vec<Entry<V>>,
}

impl<V> View for StrMap<V> {
    type V = Map<Seq<char>, V>;

    closed spec fn view(&self) -> Map<Seq<char>, V> {
        as_map(self.entries@)
    }
}

impl<V> StrMap<V> {
    #[verifier::type_invariant]
    spec fn distinct(self) -> bool {
        distinct_keys(self.entries@)
    }

    /// The empty map.
    pub fn new() -> (m: StrMap<V>)
        ensures
            m@ == Map::<Seq<char>, V>::empty(),
    {
        let m = StrMap { entries: Vec::new() };
        assert(m@ =~= Map::<Seq<char>, V>::empty());
        m
    }

    /// The empty map, with room for `capacity` entries, of which at most
    /// `MAX_RESERVED` are set aside at once.
    pub fn with_capacity(capacity: usize) -> (m: StrMap<V>)
        ensures
            m@ == Map::<Seq<char>, V>::empty(),
    {
        let room = if capacity > MAX_RESERVED {
            MAX_RESERVED
        } else {
            capacity
        };
        let m = StrMap { entries: Vec::with_capacity(room) };
        assert(m@ =~= Map::<Seq<char>, V>::empty());
        m
    }

    /// Whether the map holds key `k`.
    pub fn contains_key(&self, k: &String) -> (found: bool)
        ensures
            found == self@.contains_key(k@),
    {
        find_key(&self.entries, k).is_some()
    }

    /// The value under key `k`, where there is one.
    pub fn get(&self, k: &String) -> (found: Option<&V>)
        ensures
            match found {
                Some(v) => self@.contains_key(k@) && *v == self@[k@],
                None => !self@.contains_key(k@),
            },
    {
        proof {
            use_type_invariant(self);
        }
        match find_key(&self.entries, k) {
            Some(i) => {
                proof {
                    lemma_entry_in_map(self.entries@, i as int);
                }
                Some(&self.entries[i].val)
            },
            None => None,
        }
    }

    /// Puts `v` under key `k`, in place of what was there.
    pub fn insert(&mut self, k: String, v: V)
        ensures
            final(self)@ == old(self)@.insert(k@, v),
    {
        proof {
            use_type_invariant(&*self);
        }
        let mut entries: Vec<Entry<V>> = Vec::new();
        std::mem::swap(&mut entries, &mut self.entries);
        let ghost before = entries@;
        match find_key(&entries, &k) {
            Some(i) => {
                entries.set(i, Entry { key: k, val: v });
                proof {
                    lemma_put(before, entries@, i as int);
                }
            },
            None => {
                entries.push(Entry { key: k, val: v });
                proof {
                    lemma_put(before, entries@, before.len() as int);
                }
            },
        }
        self.entries = entries;
    }

    /// Takes key `k` out of the map and returns its value, where there was
    /// one.
    pub fn remove(&mut self, k: &String) -> (taken: Option<V>)
        ensures
            match taken {
                Some(v) => old(self)@.contains_key(k@) && v == old(self)@[k@] && final(self)@ == old(
                    self,
                )@.remove(k@),
                None => !old(self)@.contains_key(k@) && final(self)@ == old(self)@,
            },
    {
        proof {
            use_type_invariant(&*self);
        }
        let mut entries: Vec<Entry<V>> = Vec::new();
        std::mem::swap(&mut entries, &mut self.entries);
        let taken = match find_key(&entries, k) {
            Some(i) => {
                proof {
                    lemma_entry_in_map(entries@, i as int);
                    lemma_take(entries@, i as int);
                }
                Some(entries.remove(i).val)
            },
            None => None,
        };
        self.entries = entries;
        taken
    }
}

} // verus!
