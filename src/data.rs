//! The string-keyed, string-valued data that criteria inspect.
use vstd::prelude::*;

use crate::text::{compare_text, join, lemma_text_lt_irreflexive, lemma_text_lt_transitive, push_joined, text_lt};

verus! {

/// Each key is below every key after it; in particular no key occurs twice.
pub open spec fn key_sorted(s: Seq<(Seq<char>, Seq<char>)>) -> bool {
    forall|i: int, j: int| 0 <= i < j < s.len() ==> text_lt(#[trigger] s[i].0, #[trigger] s[j].0)
}

/// `s` holds the entry `k` -> `v`.
pub open spec fn maps_to(s: Seq<(Seq<char>, Seq<char>)>, k: Seq<char>, v: Seq<char>) -> bool {
    exists|i: int| 0 <= i < s.len() && #[trigger] s[i] == (k, v)
}

/// `s` holds an entry for `k`.
pub open spec fn has_key(s: Seq<(Seq<char>, Seq<char>)>, k: Seq<char>) -> bool {
    exists|i: int| 0 <= i < s.len() && #[trigger] s[i].0 == k
}

/// The keys of `s`, in order.
pub open spec fn keys_of(s: Seq<(Seq<char>, Seq<char>)>) -> Seq<Seq<char>> {
    s.map_values(|e: (Seq<char>, Seq<char>)| e.0)
}

/// The values of `s`, in the order of their keys.
pub open spec fn values_of(s: Seq<(Seq<char>, Seq<char>)>) -> Seq<Seq<char>> {
    s.map_values(|e: (Seq<char>, Seq<char>)| e.1)
}

/// In data whose keys are sorted, a key has at most one value.
pub proof fn lemma_one_value(s: Seq<(Seq<char>, Seq<char>)>, k: Seq<char>, v: Seq<char>, w: Seq<char>)
    requires
        key_sorted(s),
        maps_to(s, k, v),
        maps_to(s, k, w),
    ensures
        v == w,
{
    let i = choose|i: int| 0 <= i < s.len() && #[trigger] s[i] == (k, v);
    let j = choose|j: int| 0 <= j < s.len() && #[trigger] s[j] == (k, w);
    lemma_text_lt_irreflexive(k);
    if i < j {
        assert(text_lt(s[i].0, s[j].0));
    } else if j < i {
        assert(text_lt(s[j].0, s[i].0));
    }
}

/// The views of key-value pairs of strings.
pub open spec fn pairs_view(v: Seq<(String, String)>) -> Seq<(Seq<char>, Seq<char>)> {
    v.map_values(|e: (String, String)| (e.0@, e.1@))
}

/// A mapping from string keys to string values, kept in ascending key order.
#[derive(Debug, PartialEq, Eq)]
pub struct TestData {
    entries: Vec<(String, String)>,
}

impl View for TestData {
    type V = Seq<(Seq<char>, Seq<char>)>;

    closed spec fn view(&self) -> Seq<(Seq<char>, Seq<char>)> {
        pairs_view(self.entries@)
    }
}

impl TestData {
    #[verifier::type_invariant]
    closed spec fn inv(&self) -> bool {
        key_sorted(self@)
    }

    /// Empty data.
    pub fn new() -> (r: TestData)
        ensures
            r@ == Seq::<(Seq<char>, Seq<char>)>::empty(),
    {
        let r = TestData { entries: Vec::new() };
        assert(r@ =~= Seq::<(Seq<char>, Seq<char>)>::empty());
        r
    }

    /// The number of entries.
    pub fn len(&self) -> (r: usize)
        ensures
            r == self@.len(),
    {
        self.entries.len()
    }

    /// Whether there are no entries.
    pub fn is_empty(&self) -> (r: bool)
        ensures
            r == (self@.len() == 0),
    {
        self.entries.len() == 0
    }

    /// The value stored for `key`, if any.
    pub fn get(&self, key: &str) -> (r: Option<&String>)
        ensures
            key_sorted(self@),
            match r {
                Some(v) => maps_to(self@, key@, v@),
                None => !has_key(self@, key@),
            },
    {
        proof {
            use_type_invariant(self);
        }
        let mut i: usize = 0;
        while i < self.entries.len()
            invariant
                i <= self.entries.len(),
                key_sorted(self@),
                forall|j: int| 0 <= j < i ==> self@[j].0 != key@,
            decreases self.entries.len() - i,
        {
            if compare_text(self.entries[i].0.as_str(), key) == 0 {
                assert(self@[i as int] == (key@, self.entries[i as int].1@));
                return Some(&self.entries[i].1);
            }
            i += 1;
        }
        None
    }

    /// Stores `value` under `key`, replacing the value that `key` had.
    pub fn insert(&mut self, key: String, value: String)
        ensures
            forall|q: Seq<char>, w: Seq<char>|
                maps_to(final(self)@, q, w) <==> ((q == key@ && w == value@) || (q != key@
                    && maps_to(old(self)@, q, w))),
    {
        proof {
            use_type_invariant(&*self);
        }
        let ghost s = self@;
        let mut taken = TestData::new();
        std::mem::swap(self, &mut taken);
        let mut entries = taken.entries;
        let n = entries.len();
        let mut i: usize = 0;
        while i < n && compare_text(entries[i].0.as_str(), key.as_str()) < 0
            invariant
                n == entries.len(),
                s == pairs_view(entries@),
                key_sorted(s),
                i <= n,
                forall|j: int| 0 <= j < i ==> text_lt(#[trigger] s[j].0, key@),
            decreases n - i,
        {
            i += 1;
        }
        let c: i8 = if i < n {
            compare_text(entries[i].0.as_str(), key.as_str())
        } else {
            1
        };
        proof {
            lemma_text_lt_irreflexive(key@);
        }
        if i < n && c == 0 {
            entries.set(i, (key, value));
            proof {
                let t = pairs_view(entries@);
                assert(t =~= s.update(i as int, (key@, value@)));
                assert(s[i as int].0 == key@);
                assert forall|j: int| 0 <= j < t.len() implies #[trigger] t[j].0 == s[j].0 by {}
                assert(key_sorted(t));
                assert forall|q: Seq<char>, w: Seq<char>|
                    maps_to(t, q, w) <==> ((q == key@ && w == value@) || (q != key@
                        && maps_to(s, q, w))) by {
                    if maps_to(t, q, w) {
                        let j = choose|j: int| 0 <= j < t.len() && #[trigger] t[j] == (q, w);
                        if j < i {
                            assert(s[j] == (q, w));
                            assert(text_lt(s[j].0, s[i as int].0));
                        } else if j > i {
                            assert(s[j] == (q, w));
                            assert(text_lt(s[i as int].0, s[j].0));
                        }
                    }
                    if q != key@ && maps_to(s, q, w) {
                        let j = choose|j: int| 0 <= j < s.len() && #[trigger] s[j] == (q, w);
                        assert(t[j] == (q, w));
                    }
                    if q == key@ && w == value@ {
                        assert(t[i as int] == (q, w));
                    }
                }
            }
            *self = TestData { entries };
        } else {
            proof {
                assert forall|j: int| i <= j < n implies text_lt(key@, #[trigger] s[j].0) by {
                    assert(text_lt(key@, s[i as int].0));
                    if j > i {
                        lemma_text_lt_transitive(key@, s[i as int].0, s[j].0);
                    }
                }
            }
            entries.insert(i, (key, value));
            proof {
                let t = pairs_view(entries@);
                assert(t =~= s.insert(i as int, (key@, value@)));
                assert(key_sorted(t));
                assert forall|q: Seq<char>, w: Seq<char>|
                    maps_to(t, q, w) <==> ((q == key@ && w == value@) || (q != key@
                        && maps_to(s, q, w))) by {
                    if maps_to(t, q, w) {
                        let j = choose|j: int| 0 <= j < t.len() && #[trigger] t[j] == (q, w);
                        if j < i {
                            assert(s[j] == (q, w));
                            assert(text_lt(s[j].0, key@));
                            assert(text_lt(q, key@));
                        } else if j > i {
                            assert(s[j - 1] == (q, w));
                            assert(j - 1 >= i);
                            assert(text_lt(key@, s[j - 1].0));
                            assert(text_lt(key@, q));
                        }
                    }
                    if q != key@ && maps_to(s, q, w) {
                        let j = choose|j: int| 0 <= j < s.len() && #[trigger] s[j] == (q, w);
                        if j < i {
                            assert(t[j] == (q, w));
                        } else {
                            assert(t[j + 1] == (q, w));
                        }
                    }
                    if q == key@ && w == value@ {
                        assert(t[i as int] == (q, w));
                    }
                }
            }
            *self = TestData { entries };
        }
    }

    /// The keys, in ascending order, separated by commas.
    pub fn header(&self) -> (r: String)
        ensures
            key_sorted(self@),
            r@ == join(keys_of(self@), seq![',']),
    {
        proof {
            use_type_invariant(self);
        }
        let mut ks: Vec<String> = Vec::new();
        let mut i: usize = 0;
        while i < self.entries.len()
            invariant
                i <= self.entries.len(),
                ks@.len() == i,
                forall|j: int| 0 <= j < i ==> #[trigger] ks@[j]@ == self@[j].0,
            decreases self.entries.len() - i,
        {
            ks.push(self.entries[i].0.clone());
            i += 1;
        }
        let mut r = String::new();
        proof {
            reveal_strlit(",");
        }
        push_joined(&mut r, &ks, ",");
        assert(","@ =~= seq![',']);
        assert(crate::text::views(ks@) =~= keys_of(self@));
        assert(r@ =~= join(keys_of(self@), seq![',']));
        r
    }

    /// The values, in the order of their keys, separated by commas.
    pub fn as_csv(&self) -> (r: String)
        ensures
            key_sorted(self@),
            r@ == join(values_of(self@), seq![',']),
    {
        proof {
            use_type_invariant(self);
        }
        let mut vs: Vec<String> = Vec::new();
        let mut i: usize = 0;
        while i < self.entries.len()
            invariant
                i <= self.entries.len(),
                vs@.len() == i,
                forall|j: int| 0 <= j < i ==> #[trigger] vs@[j]@ == self@[j].1,
            decreases self.entries.len() - i,
        {
            vs.push(self.entries[i].1.clone());
            i += 1;
        }
        let mut r = String::new();
        proof {
            reveal_strlit(",");
        }
        push_joined(&mut r, &vs, ",");
        assert(","@ =~= seq![',']);
        assert(crate::text::views(vs@) =~= values_of(self@));
        assert(r@ =~= join(values_of(self@), seq![',']));
        r
    }

    /// The entries, in ascending key order.
    pub fn to_pairs(&self) -> (r: Vec<(String, String)>)
        ensures
            pairs_view(r@) == self@,
    {
        let mut r: Vec<(String, String)> = Vec::new();
        let mut i: usize = 0;
        while i < self.entries.len()
            invariant
                i <= self.entries.len(),
                pairs_view(r@) == self@.take(i as int),
            decreases self.entries.len() - i,
        {
            let k = self.entries[i].0.clone();
            let v = self.entries[i].1.clone();
            assert(self@[i as int] == (k@, v@));
            let ghost before = r@;
            r.push((k, v));
            assert(pairs_view(r@) =~= pairs_view(before).push((k@, v@)));
            assert(self@.take(i + 1) =~= self@.take(i as int).push(self@[i as int]));
            i += 1;
        }
        assert(self@.take(i as int) =~= self@);
        r
    }

    /// The name of the file that data written on its own goes to.
    pub fn filename(&self) -> (r: String)
        ensures
            r@ == "submission_data.csv"@,
    {
        "submission_data.csv".to_owned()
    }
}

} // verus!
