//! Lists of (name, value) entries that serve as maps keyed by name. The value of a name is
//! that of its first entry; setting a name replaces that entry or appends a new one, so a list
//! built by setting never holds a name twice.
use vstd::prelude::*;

verus! {

/// Entry `i` is the first entry of the list named `k`.
pub open spec fn first_entry<V>(s: Seq<(String, V)>, k: Seq<char>, i: int) -> bool {
    &&& 0 <= i < s.len()
    &&& s[i].0@ == k
    &&& forall|j: int| 0 <= j < i ==> s[j].0@ != k
}

/// The value of the name `k` in the list: that of its first entry, if any.
pub open spec fn lookup<V>(s: Seq<(String, V)>, k: Seq<char>) -> Option<V> {
    if exists|i: int| first_entry(s, k, i) {
        Some(s[choose|i: int| first_entry(s, k, i)].1)
    } else {
        None
    }
}

/// No two entries of the list share a name.
pub open spec fn distinct_names<V>(s: Seq<(String, V)>) -> bool {
    forall|i: int, j: int| 0 <= i < j < s.len() ==> s[i].0@ != s[j].0@
}

/// A name has one first entry.
pub proof fn lemma_first_entry_unique<V>(s: Seq<(String, V)>, k: Seq<char>, i: int, j: int)
    requires
        first_entry(s, k, i),
        first_entry(s, k, j),
    ensures
        i == j,
{
}

/// The value of a name is that of its first entry.
pub proof fn lemma_lookup_at<V>(s: Seq<(String, V)>, k: Seq<char>, i: int)
    requires
        first_entry(s, k, i),
    ensures
        lookup(s, k) == Some(s[i].1),
{
    let c = choose|x: int| first_entry(s, k, x);
    lemma_first_entry_unique(s, k, i, c);
}

/// A name without entries has no value.
pub proof fn lemma_lookup_absent<V>(s: Seq<(String, V)>, k: Seq<char>)
    requires
        forall|j: int| 0 <= j < s.len() ==> s[j].0@ != k,
    ensures
        lookup(s, k) is None,
{
}

/// Two lists whose first entries of `k` sit at the same places with the same values give `k`
/// the same value.
pub proof fn lemma_lookup_same<V>(a: Seq<(String, V)>, b: Seq<(String, V)>, k: Seq<char>)
    requires
        forall|x: int| first_entry(a, k, x) <==> first_entry(b, k, x),
        forall|x: int| first_entry(a, k, x) ==> a[x].1 == b[x].1,
    ensures
        lookup(a, k) == lookup(b, k),
{
    if exists|x: int| first_entry(a, k, x) {
        let x = choose|x: int| first_entry(a, k, x);
        lemma_lookup_at(a, k, x);
        lemma_lookup_at(b, k, x);
    }
}

/// The value of a name in a list is that of the first entry if it is named so, else its value
/// in the rest of the list.
pub proof fn lemma_lookup_front<V>(s: Seq<(String, V)>, k: Seq<char>)
    requires
        s.len() > 0,
    ensures
        lookup(s, k) == (if s[0].0@ == k {
            Some(s[0].1)
        } else {
            lookup(s.drop_first(), k)
        }),
{
    let t = s.drop_first();
    if s[0].0@ == k {
        lemma_lookup_at(s, k, 0);
    } else {
        if exists|x: int| first_entry(t, k, x) {
            let x = choose|x: int| first_entry(t, k, x);
            assert forall|j: int| 0 <= j < x + 1 implies s[j].0@ != k by {
                if j > 0 {
                    assert(s[j] == t[j - 1]);
                }
            }
            assert(first_entry(s, k, x + 1));
            lemma_lookup_at(s, k, x + 1);
            lemma_lookup_at(t, k, x);
        } else {
            if exists|y: int| first_entry(s, k, y) {
                let y = choose|y: int| first_entry(s, k, y);
                assert(y > 0);
                assert forall|j: int| 0 <= j < y - 1 implies t[j].0@ != k by {
                    assert(t[j] == s[j + 1]);
                }
                assert(first_entry(t, k, y - 1));
                assert(false);
            }
        }
    }
}

/// Position of the first entry named `k`, if any.
pub fn find_name<V>(s: &Vec<(String, V)>, k: &str) -> (r: Option<usize>)
    ensures
        match r {
            Some(i) => first_entry(s@, k@, i as int),
            None => forall|j: int| 0 <= j < s@.len() ==> s@[j].0@ != k@,
        },
{
    let key = String::from_str(k);
    let mut i: usize = 0;
    while i < s.len()
        invariant
            i <= s@.len(),
            key@ == k@,
            forall|j: int| 0 <= j < i ==> s@[j].0@ != k@,
        decreases s@.len() - i,
    {
        if s[i].0 == key {
            return Some(i);
        }
        i = i + 1;
    }
    None
}

/// Gives the name `k` the value `v`: its first entry gets the value, or a new entry is
/// appended. Every other name keeps its value, and a list without repeated names keeps none.
pub fn set_name<V>(s: &mut Vec<(String, V)>, k: String, v: V)
    ensures
        forall|n: Seq<char>| #[trigger]
            lookup(final(s)@, n) == (if n == k@ {
                Some(v)
            } else {
                lookup(old(s)@, n)
            }),
        distinct_names(old(s)@) ==> distinct_names(final(s)@),
{
    let ghost k_view = k@;
    let ghost v_value = v;
    let ghost before = s@;
    match find_name(s, k.as_str()) {
        Some(i) => {
            s.set(i, (k, v));
            proof {
                let after = s@;
                assert(first_entry(after, k_view, i as int));
                lemma_lookup_at(after, k_view, i as int);
                assert forall|n: Seq<char>| n != k_view implies #[trigger] lookup(after, n)
                    == lookup(before, n) by {
                    assert forall|x: int| first_entry(after, n, x) <==> first_entry(
                        before,
                        n,
                        x,
                    ) by {
                        if x == i || x < 0 || x >= after.len() {
                        } else {
                            assert forall|j: int| 0 <= j < x implies (after[j].0@ != n
                                <==> before[j].0@ != n) by {
                                if j == i {
                                } else {
                                    assert(after[j] == before[j]);
                                }
                            }
                        }
                    }
                    lemma_lookup_same(after, before, n);
                }
            }
        },
        None => {
            s.push((k, v));
            proof {
                let after = s@;
                let last = before.len() as int;
                assert(first_entry(after, k_view, last));
                lemma_lookup_at(after, k_view, last);
                assert forall|n: Seq<char>| n != k_view implies #[trigger] lookup(after, n)
                    == lookup(before, n) by {
                    assert forall|x: int| first_entry(after, n, x) <==> first_entry(
                        before,
                        n,
                        x,
                    ) by {
                        if 0 <= x < last {
                            assert forall|j: int| 0 <= j < x implies after[j] == before[j] by {}
                        }
                    }
                    lemma_lookup_same(after, before, n);
                }
            }
        },
    }
}

/// The map that a list of entries stands for.
pub open spec fn entries_map<V>(s: Seq<(String, V)>) -> Map<Seq<char>, V> {
    Map::new(|k: Seq<char>| lookup(s, k) is Some, |k: Seq<char>| lookup(s, k)->Some_0)
}

/// Values that can be copied with a known result.
pub trait Duplicate: Sized {
    /// A value equal to this one.
    fn duplicate(&self) -> (r: Self)
        ensures
            r == *self,
    ;
}

impl Duplicate for String {
    fn duplicate(&self) -> (r: String) {
        self.clone()
    }
}

/// A map from names to values, kept as a list of entries.
#[derive(Debug, Clone)]
pub struct NamedMap<V> {
    /// The entries, in the order the names were first set.
    pub entries: Vec<(String, V)>,
}

impl<V> View for NamedMap<V> {
    type V = Map<Seq<char>, V>;

    open spec fn view(&self) -> Map<Seq<char>, V> {
        entries_map(self.entries@)
    }
}

impl<V> NamedMap<V> {
    /// The map holds no name twice.
    pub open spec fn wf(&self) -> bool {
        distinct_names(self.entries@)
    }

    /// An empty map.
    pub fn new() -> (r: NamedMap<V>)
        ensures
            r@ == Map::<Seq<char>, V>::empty(),
            r.wf(),
            r.entries@.len() == 0,
    {
        let r = NamedMap { entries: Vec::new() };
        assert(r@ =~= Map::<Seq<char>, V>::empty());
        r
    }

    /// The value of a name, if it has one.
    pub fn get(&self, k: &str) -> (r: Option<&V>)
        ensures
            r == (if self@.contains_key(k@) {
                Some(&self@[k@])
            } else {
                None::<&V>
            }),
    {
        match find_name(&self.entries, k) {
            Some(i) => {
                proof {
                    lemma_lookup_at(self.entries@, k@, i as int);
                }
                Some(&self.entries[i].1)
            },
            None => {
                proof {
                    lemma_lookup_absent(self.entries@, k@);
                }
                None
            },
        }
    }

    /// Gives the name the value; every other name keeps its value.
    pub fn insert(&mut self, k: String, v: V)
        ensures
            final(self)@ == old(self)@.insert(k@, v),
            old(self).wf() ==> final(self).wf(),
    {
        let ghost before = self.entries@;
        let ghost kv = k@;
        let ghost vv = v;
        set_name(&mut self.entries, k, v);
        proof {
            let after = self.entries@;
            assert forall|n: Seq<char>| #[trigger] lookup(after, n) == (if n == kv {
                Some(vv)
            } else {
                lookup(before, n)
            }) by {}
            assert(entries_map(after) =~= entries_map(before).insert(kv, vv));
        }
    }

    /// Number of entries.
    pub fn len(&self) -> (r: usize)
        ensures
            r == self.entries@.len(),
    {
        self.entries.len()
    }

    /// Whether the map has no entry.
    pub fn is_empty(&self) -> (r: bool)
        ensures
            r == (self.entries@.len() == 0),
            r ==> self@ == Map::<Seq<char>, V>::empty(),
    {
        let r = self.entries.len() == 0;
        if r {
            assert(self@ =~= Map::<Seq<char>, V>::empty());
        }
        r
    }
}

impl<V: Duplicate> NamedMap<V> {
    /// Sets every name of the other map to its value there; other names keep theirs.
    pub fn merge_from(&mut self, other: &NamedMap<V>)
        ensures
            final(self)@ == old(self)@.union_prefer_right(other@),
            old(self).wf() ==> final(self).wf(),
    {
        let ghost start = self@;
        let ghost start_wf = self.wf();
        let n = other.entries.len();
        let mut i = n;
        while i > 0
            invariant
                i <= n,
                n == other.entries@.len(),
                self@ == start.union_prefer_right(entries_map(other.entries@.subrange(i as int, n as int))),
                start_wf ==> self.wf(),
            decreases i,
        {
            i = i - 1;
            let ghost tail = other.entries@.subrange(i + 1, n as int);
            let ghost with_i = other.entries@.subrange(i as int, n as int);
            let name = other.entries[i].0.duplicate();
            let value = other.entries[i].1.duplicate();
            self.insert(name, value);
            proof {
                assert(with_i.drop_first() =~= tail);
                assert forall|k: Seq<char>| #[trigger] lookup(with_i, k) == (if with_i[0].0@ == k {
                    Some(with_i[0].1)
                } else {
                    lookup(tail, k)
                }) by {
                    lemma_lookup_front(with_i, k);
                }
                assert(entries_map(with_i) =~= entries_map(tail).insert(with_i[0].0@, with_i[0].1));
                assert(self@ =~= start.union_prefer_right(entries_map(with_i)));
            }
        }
        proof {
            assert(other.entries@.subrange(0, n as int) =~= other.entries@);
        }
    }
}

} // verus!
