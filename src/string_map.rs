use vstd::prelude::*;

verus! {

/// A mapping from string keys to string values, each key held once.
#[derive(Debug)]
pub struct StringMap {
    entries: Vec<(String, String)>,
}

/// Whether some entry of `s` has the key `k`.
pub open spec fn has_key(s: Seq<(String, String)>, k: Seq<char>) -> bool {
    exists|i: int| 0 <= i < s.len() && (#[trigger] s[i]).0@ == k
}

/// No two entries of `s` share a key.
pub open spec fn keys_unique(s: Seq<(String, String)>) -> bool {
    forall|i: int, j: int|
        0 <= i < s.len() && 0 <= j < s.len() && (#[trigger] s[i]).0@ == (#[trigger] s[j]).0@
            ==> i == j
}

/// The map that the entries `s` describe.
pub open spec fn entries_map(s: Seq<(String, String)>) -> Map<Seq<char>, Seq<char>> {
    Map::new(
        |k: Seq<char>| has_key(s, k),
        |k: Seq<char>| s[choose|i: int| 0 <= i < s.len() && (#[trigger] s[i]).0@ == k].1@,
    )
}

impl View for StringMap {
    type V = Map<Seq<char>, Seq<char>>;

    closed spec fn view(&self) -> Map<Seq<char>, Seq<char>> {
        entries_map(self.entries@)
    }
}

impl StringMap {
    /// Each key is held by one entry only.
    pub closed spec fn wf(&self) -> bool {
        keys_unique(self.entries@)
    }

    pub fn new() -> (r: StringMap)
        ensures
            r.wf(),
            r@ == Map::<Seq<char>, Seq<char>>::empty(),
    {
        let r = StringMap { entries: Vec::new() };
        assert(r@ =~= Map::<Seq<char>, Seq<char>>::empty());
        r
    }

    /// Position of the entry with key `key`, if any.
    fn find(&self, key: &str) -> (r: Option<usize>)
        requires
            self.wf(),
        ensures
            match r {
                Some(i) => i < self.entries@.len() && self.entries@[i as int].0@ == key@,
                None => !has_key(self.entries@, key@),
            },
    {
        let mut i: usize = 0;
        while i < self.entries.len()
            invariant
                i <= self.entries@.len(),
                forall|j: int| 0 <= j < i ==> (#[trigger] self.entries@[j]).0@ != key@,
            decreases self.entries@.len() - i,
        {
            if string_eq_str(&self.entries[i].0, key) {
                return Some(i);
            }
            i = i + 1;
        }
        None
    }

    /// The value held for `key`.
    pub fn get(&self, key: &str) -> (r: Option<&String>)
        requires
            self.wf(),
        ensures
            match r {
                Some(v) => self@.contains_key(key@) && self@[key@] == v@,
                None => !self@.contains_key(key@),
            },
    {
        match self.find(key) {
            Some(i) => {
                let ghost s = self.entries@;
                assert(s[i as int].0@ == key@);
                Some(&self.entries[i].1)
            },
            None => None,
        }
    }

    /// Whether the map holds no key.
    pub fn is_empty(&self) -> (r: bool)
        ensures
            r == (self@ == Map::<Seq<char>, Seq<char>>::empty()),
    {
        proof {
            if self.entries@.len() > 0 {
                assert(self@.dom().contains(self.entries@[0].0@));
                assert(!Map::<Seq<char>, Seq<char>>::empty().dom().contains(self.entries@[0].0@));
            } else {
                assert(self@ =~= Map::<Seq<char>, Seq<char>>::empty());
                assert(self@.dom() =~= Set::<Seq<char>>::empty());
            }
        }
        self.entries.len() == 0
    }

    /// Sets the value of `key` to `value`, replacing any earlier value.
    pub fn insert(&mut self, key: String, value: String)
        requires
            old(self).wf(),
        ensures
            final(self).wf(),
            final(self)@ == old(self)@.insert(key@, value@),
    {
        let ghost k = key@;
        let ghost v = value@;
        let ghost before = self.entries@;
        match self.find(key.as_str()) {
            Some(i) => {
                self.entries.set(i, (key, value));
                let ghost after = self.entries@;
                assert forall|a: int, b: int|
                    0 <= a < after.len() && 0 <= b < after.len() && (#[trigger] after[a]).0@
                        == (#[trigger] after[b]).0@ implies a == b by {
                    if a != i && b != i {
                        assert(after[a] == before[a] && after[b] == before[b]);
                    } else if a == i && b != i {
                        assert(before[i as int].0@ == k);
                        assert(after[b] == before[b]);
                    } else if b == i && a != i {
                        assert(before[i as int].0@ == k);
                        assert(after[a] == before[a]);
                    }
                }
                assert forall|q: Seq<char>| #[trigger] has_key(after, q) == (has_key(before, q) || q == k) by {
                    if has_key(before, q) {
                        let j = choose|j: int| 0 <= j < before.len() && (#[trigger] before[j]).0@ == q;
                        if j == i {
                            assert(after[i as int].0@ == q);
                        } else {
                            assert(after[j] == before[j]);
                        }
                    }
                    if q == k {
                        assert(after[i as int].0@ == q);
                    }
                    if has_key(after, q) {
                        let j = choose|j: int| 0 <= j < after.len() && (#[trigger] after[j]).0@ == q;
                        if j != i {
                            assert(after[j] == before[j]);
                        }
                    }
                }
                assert(self@ =~= old(self)@.insert(k, v)) by {
                    assert forall|q: Seq<char>| #[trigger] self@.contains_key(q) implies self@[q]
                        == old(self)@.insert(k, v)[q] by {
                        let j = choose|j: int| 0 <= j < after.len() && (#[trigger] after[j]).0@ == q;
                        if q == k {
                            assert(after[i as int].0@ == k);
                        } else {
                            assert(after[j] == before[j]);
                        }
                    }
                }
            },
            None => {
                self.entries.push((key, value));
                let ghost after = self.entries@;
                let ghost n = before.len() as int;
                assert forall|q: Seq<char>| #[trigger] has_key(after, q) == (has_key(before, q) || q == k) by {
                    if has_key(before, q) {
                        let j = choose|j: int| 0 <= j < before.len() && (#[trigger] before[j]).0@ == q;
                        assert(after[j] == before[j]);
                    }
                    if q == k {
                        assert(after[n].0@ == q);
                    }
                    if has_key(after, q) {
                        let j = choose|j: int| 0 <= j < after.len() && (#[trigger] after[j]).0@ == q;
                        if j != n {
                            assert(after[j] == before[j]);
                        }
                    }
                }
                assert forall|a: int, b: int|
                    0 <= a < after.len() && 0 <= b < after.len() && (#[trigger] after[a]).0@
                        == (#[trigger] after[b]).0@ implies a == b by {
                    if a != n && b != n {
                        assert(after[a] == before[a] && after[b] == before[b]);
                    } else if a == n && b != n {
                        assert(after[b] == before[b]);
                    } else if b == n && a != n {
                        assert(after[a] == before[a]);
                    }
                }
                assert(self@ =~= old(self)@.insert(k, v)) by {
                    assert forall|q: Seq<char>| #[trigger] self@.contains_key(q) implies self@[q]
                        == old(self)@.insert(k, v)[q] by {
                        let j = choose|j: int| 0 <= j < after.len() && (#[trigger] after[j]).0@ == q;
                        if q == k {
                            assert(after[n].0@ == k);
                        } else {
                            assert(after[j] == before[j]);
                        }
                    }
                }
            },
        }
    }
}

impl StringMap {
    /// Takes `key` and its value out of the map.
    pub fn remove(&mut self, key: &str)
        requires
            old(self).wf(),
        ensures
            final(self).wf(),
            final(self)@ == old(self)@.remove(key@),
    {
        let ghost before = self.entries@;
        match self.find(key) {
            None => {
                assert(self@ =~= old(self)@.remove(key@));
            },
            Some(i) => {
                self.entries.remove(i);
                let ghost after = self.entries@;
                assert forall|a: int| 0 <= a < after.len() implies #[trigger] after[a] == (if a < i {
                    before[a]
                } else {
                    before[a + 1]
                }) by {}
                assert forall|a: int, b: int|
                    0 <= a < after.len() && 0 <= b < after.len() && (#[trigger] after[a]).0@
                        == (#[trigger] after[b]).0@ implies a == b by {
                    let a2 = if a < i { a } else { a + 1 };
                    let b2 = if b < i { b } else { b + 1 };
                    assert(after[a] == before[a2] && after[b] == before[b2]);
                }
                assert forall|q: Seq<char>| #[trigger] has_key(after, q) == (has_key(before, q) && q != key@) by {
                    if has_key(before, q) && q != key@ {
                        let j = choose|j: int| 0 <= j < before.len() && (#[trigger] before[j]).0@ == q;
                        assert(j != i);
                        if j < i {
                            assert(after[j] == before[j]);
                        } else {
                            assert(after[j - 1] == before[j]);
                        }
                    }
                    if has_key(after, q) {
                        let j = choose|j: int| 0 <= j < after.len() && (#[trigger] after[j]).0@ == q;
                        let j2 = if j < i { j } else { j + 1 };
                        assert(after[j] == before[j2]);
                        assert(j2 != i);
                    }
                }
                assert(self@ =~= old(self)@.remove(key@)) by {
                    assert forall|q: Seq<char>| #[trigger] self@.contains_key(q) implies self@[q]
                        == old(self)@[q] by {
                        let j = choose|j: int| 0 <= j < after.len() && (#[trigger] after[j]).0@ == q;
                        let j2 = if j < i { j } else { j + 1 };
                        assert(after[j] == before[j2]);
                        let k = choose|k: int| 0 <= k < before.len() && (#[trigger] before[k]).0@ == q;
                        assert(k == j2);
                    }
                }
            },
        }
    }

    /// The entries of the map, each key once.
    pub fn to_vec(&self) -> (r: Vec<(String, String)>)
        requires
            self.wf(),
        ensures
            keys_unique(r@),
            entries_map(r@) == self@,
    {
        let mut r: Vec<(String, String)> = Vec::new();
        let mut i: usize = 0;
        while i < self.entries.len()
            invariant
                i <= self.entries@.len(),
                r@ == self.entries@.take(i as int),
            decreases self.entries@.len() - i,
        {
            let (k, v) = (self.entries[i].0.clone(), self.entries[i].1.clone());
            r.push((k, v));
            assert(r@ =~= self.entries@.take(i + 1));
            i = i + 1;
        }
        assert(r@ =~= self.entries@);
        r
    }
}

/// A key given a value twice holds only the later one, and giving a key
/// the value that it already holds changes nothing.
pub proof fn later_value_wins(m: StringMap, k: Seq<char>, v1: Seq<char>, v2: Seq<char>)
    ensures
        m@.insert(k, v1).insert(k, v2) == m@.insert(k, v2),
        m@.insert(k, v2).insert(k, v2) == m@.insert(k, v2),
        m@.insert(k, v2)[k] == v2,
{
    assert(m@.insert(k, v1).insert(k, v2) =~= m@.insert(k, v2));
    assert(m@.insert(k, v2).insert(k, v2) =~= m@.insert(k, v2));
}

/// Character-wise equality of a `String` and a `str`.
pub(crate) fn string_eq_str(a: &String, b: &str) -> (r: bool)
    ensures
        r == (a@ == b@),
{
    let s = a.as_str();
    let n = s.unicode_len();
    if n != b.unicode_len() {
        return false;
    }
    let mut i: usize = 0;
    while i < n
        invariant
            n == s@.len() == b@.len(),
            s@ == a@,
            i <= n,
            s@.take(i as int) == b@.take(i as int),
        decreases n - i,
    {
        if s.get_char(i) != b.get_char(i) {
            assert(s@[i as int] != b@[i as int]);
            return false;
        }
        assert(s@.take(i + 1) == s@.take(i as int).push(s@[i as int]));
        assert(b@.take(i + 1) == b@.take(i as int).push(b@[i as int]));
        i = i + 1;
    }
    assert(s@ == s@.take(n as int));
    assert(b@ == b@.take(n as int));
    true
}

} // verus!
