//! Checks over test data, and a registry of named checks.
use vstd::prelude::*;

use crate::data::{has_key, lemma_one_value, maps_to, TestData};

verus! {

/// A side-effect-free check over test data.
#[derive(Debug)]
pub enum Predicate {
    /// Holds, or fails, whatever the data.
    Always(bool),
    /// Holds when the data has the key.
    HasKey(String),
    /// Holds when the data maps the key to exactly the value.
    Equals(String, String),
    /// Holds when the inner check fails.
    Not(Box<Predicate>),
    /// Holds when both checks hold.
    And(Box<Predicate>, Box<Predicate>),
    /// Holds when at least one of the checks holds.
    Or(Box<Predicate>, Box<Predicate>),
}

impl Predicate {
    /// Whether the check holds on data with entries `d`.
    pub open spec fn holds(&self, d: Seq<(Seq<char>, Seq<char>)>) -> bool
        decreases self,
    {
        match self {
            Predicate::Always(b) => *b,
            Predicate::HasKey(k) => has_key(d, k@),
            Predicate::Equals(k, v) => maps_to(d, k@, v@),
            Predicate::Not(p) => !p.holds(d),
            Predicate::And(p, q) => p.holds(d) && q.holds(d),
            Predicate::Or(p, q) => p.holds(d) || q.holds(d),
        }
    }

    /// Runs the check on `data`.
    pub fn evaluate(&self, data: &TestData) -> (r: bool)
        ensures
            r == self.holds(data@),
        decreases self,
    {
        match self {
            Predicate::Always(b) => *b,
            Predicate::HasKey(k) => match data.get(k.as_str()) {
                Some(found) => {
                    proof {
                        let i = choose|i: int|
                            0 <= i < data@.len() && #[trigger] data@[i] == (k@, found@);
                        assert(data@[i].0 == k@);
                    }
                    true
                },
                None => false,
            },
            Predicate::Equals(k, v) => match data.get(k.as_str()) {
                Some(found) => {
                    let same = *found == *v;
                    proof {
                        if maps_to(data@, k@, v@) {
                            lemma_one_value(data@, k@, found@, v@);
                        }
                    }
                    same
                },
                None => {
                    assert(!maps_to(data@, k@, v@)) by {
                        if maps_to(data@, k@, v@) {
                            let i = choose|i: int|
                                0 <= i < data@.len() && #[trigger] data@[i] == (k@, v@);
                            assert(data@[i].0 == k@);
                        }
                    }
                    false
                },
            },
            Predicate::Not(p) => !p.evaluate(data),
            Predicate::And(p, q) => {
                let a = p.evaluate(data);
                let b = q.evaluate(data);
                a && b
            },
            Predicate::Or(p, q) => {
                let a = p.evaluate(data);
                let b = q.evaluate(data);
                a || b
            },
        }
    }

    /// A copy of this check.
    pub fn duplicate(&self) -> (r: Predicate)
        ensures
            r == *self,
        decreases self,
    {
        match self {
            Predicate::Always(b) => Predicate::Always(*b),
            Predicate::HasKey(k) => Predicate::HasKey(k.clone()),
            Predicate::Equals(k, v) => Predicate::Equals(k.clone(), v.clone()),
            Predicate::Not(p) => Predicate::Not(Box::new(p.duplicate())),
            Predicate::And(p, q) => Predicate::And(Box::new(p.duplicate()), Box::new(q.duplicate())),
            Predicate::Or(p, q) => Predicate::Or(Box::new(p.duplicate()), Box::new(q.duplicate())),
        }
    }
}

/// The check registered last under `name` in `s`, which lists the most recent registration first.
pub open spec fn registered(s: Seq<(Seq<char>, Predicate)>, name: Seq<char>) -> Option<Predicate>
    decreases s.len(),
{
    if s.len() == 0 {
        None
    } else if s[0].0 == name {
        Some(s[0].1)
    } else {
        registered(s.drop_first(), name)
    }
}

/// Named checks that rubric entries refer to by name.
/// It is filled before any rubric is loaded and only read afterwards.
pub struct Registry {
    entries: Vec<(String, Predicate)>,
}

impl View for Registry {
    type V = Seq<(Seq<char>, Predicate)>;

    closed spec fn view(&self) -> Seq<(Seq<char>, Predicate)> {
        self.entries@.map_values(|e: (String, Predicate)| (e.0@, e.1))
    }
}

impl Registry {
    /// A registry with no names.
    pub fn new() -> (r: Registry)
        ensures
            forall|name: Seq<char>| registered(r@, name) is None,
    {
        let r = Registry { entries: Vec::new() };
        assert(r@ =~= Seq::<(Seq<char>, Predicate)>::empty());
        r
    }

    /// Registers `check` under `name`, replacing what was registered under it.
    pub fn register(&mut self, name: &str, check: Predicate)
        ensures
            registered(final(self)@, name@) == Some(check),
            forall|other: Seq<char>|
                other != name@ ==> registered(final(self)@, other) == registered(old(self)@, other),
    {
        self.entries.insert(0, (name.to_owned(), check));
        assert(self@.drop_first() =~= old(self)@);
    }

    /// The check registered under `name`, if any.
    pub fn get(&self, name: &str) -> (r: Option<&Predicate>)
        ensures
            match r {
                Some(p) => registered(self@, name@) == Some(*p),
                None => registered(self@, name@) is None,
            },
    {
        let mut i: usize = 0;
        assert(self@.skip(0) =~= self@);
        while i < self.entries.len()
            invariant
                i <= self.entries.len(),
                registered(self@, name@) == registered(self@.skip(i as int), name@),
            decreases self.entries.len() - i,
        {
            assert(self@.skip(i as int).drop_first() =~= self@.skip(i + 1));
            if crate::text::compare_text(self.entries[i].0.as_str(), name) == 0 {
                return Some(&self.entries[i].1);
            }
            i += 1;
        }
        None
    }
}

} // verus!
