//! An ordered set of criteria.
use vstd::prelude::*;
use vstd::string::StringExecFns;

use crate::criterion::{rendering, Criterion};
use crate::error::ConfigError;
use crate::predicate::Predicate;

verus! {

/// The sum of the worths of `s`, whatever their status.
pub open spec fn sum_worth(s: Seq<Criterion>) -> int
    decreases s.len(),
{
    if s.len() == 0 {
        0
    } else {
        sum_worth(s.drop_last()) + s.last().worth
    }
}

/// Position `i` of `s` holds the first criterion whose stub is `stub`.
pub open spec fn first_with_stub(s: Seq<Criterion>, stub: Seq<char>, i: int) -> bool {
    &&& 0 <= i < s.len()
    &&& s[i].stub@ == stub
    &&& forall|j: int| 0 <= j < i ==> s[j].stub@ != stub
}

/// No criterion of `s` has the stub.
pub open spec fn lacks_stub(s: Seq<Criterion>, stub: Seq<char>) -> bool {
    forall|j: int| 0 <= j < s.len() ==> s[j].stub@ != stub
}

/// What showing the criteria `s` in order produces: each one followed by a line break.
pub open spec fn rendering_all(s: Seq<Criterion>) -> Seq<char>
    decreases s.len(),
{
    if s.len() == 0 {
        Seq::empty()
    } else {
        rendering_all(s.drop_last()) + rendering(s.last()) + "\n"@
    }
}

/// The total points of criteria depend on their worths alone, not on their status or
/// anything else: criteria with the same worths, position by position, have the same total.
/// In particular running the checks leaves the total unchanged.
pub proof fn lemma_total_ignores_status(s: Seq<Criterion>, t: Seq<Criterion>)
    requires
        s.len() == t.len(),
        forall|i: int| 0 <= i < s.len() ==> t[i].worth == s[i].worth,
    ensures
        sum_worth(s) == sum_worth(t),
    decreases s.len(),
{
    if s.len() > 0 {
        lemma_total_ignores_status(s.drop_last(), t.drop_last());
        assert(t.last().worth == s.last().worth);
    }
}

/// A criterion placed at `a` may come before one placed at `b`: placed ones come first, in
/// ascending place; ones with no place come last.
pub open spec fn goes_before(a: Option<i64>, b: Option<i64>) -> bool {
    match (a, b) {
        (Some(x), Some(y)) => x <= y,
        (Some(_), None) => true,
        (None, Some(_)) => false,
        (None, None) => true,
    }
}

/// `t` is `s` rearranged by `perm` (position `k` of `t` holds position `perm[k]` of `s`),
/// ordered by place, with criteria of equal place kept in their order in `s`.
pub open spec fn stable_order(s: Seq<Criterion>, t: Seq<Criterion>, perm: Seq<int>) -> bool {
    &&& t.len() == s.len()
    &&& perm.len() == s.len()
    &&& forall|k: int| 0 <= k < t.len() ==> 0 <= #[trigger] perm[k] < s.len() && t[k] == s[perm[k]]
    &&& forall|a: int, b: int| 0 <= a < b < t.len() ==> perm[a] != perm[b]
    &&& forall|a: int, b: int|
        0 <= a < b < t.len() ==> goes_before(#[trigger] t[a].index, #[trigger] t[b].index)
    &&& forall|a: int, b: int|
        0 <= a < b < t.len() && t[a].index == t[b].index ==> #[trigger] perm[a] < #[trigger] perm[b]
}

fn place_goes_before(a: Option<i64>, b: Option<i64>) -> (r: bool)
    ensures
        r == goes_before(a, b),
{
    match (a, b) {
        (Some(x), Some(y)) => x <= y,
        (Some(_), None) => true,
        (None, Some(_)) => false,
        (None, None) => true,
    }
}

/// A collection of criteria, in the order they are graded.
pub struct Criteria(pub Vec<Criterion>);

impl Criteria {
    /// An empty collection.
    pub fn new() -> (r: Criteria)
        ensures
            r.0@.len() == 0,
    {
        Criteria(Vec::new())
    }

    /// Appends a criterion.
    pub fn add(&mut self, criterion: Criterion)
        ensures
            final(self).0@ == old(self).0@.push(criterion),
    {
        self.0.push(criterion);
    }

    /// The position of the first criterion with the stub, if any.
    pub fn position(&self, stub: &str) -> (r: Option<usize>)
        ensures
            match r {
                Some(i) => first_with_stub(self.0@, stub@, i as int),
                None => lacks_stub(self.0@, stub@),
            },
    {
        let mut i: usize = 0;
        while i < self.0.len()
            invariant
                i <= self.0.len(),
                forall|j: int| 0 <= j < i ==> self.0@[j].stub@ != stub@,
            decreases self.0.len() - i,
        {
            if crate::text::compare_text(self.0[i].stub.as_str(), stub) == 0 {
                return Some(i);
            }
            i += 1;
        }
        None
    }

    /// The first criterion with the stub, if any; later ones with the same stub are not reached.
    pub fn get(&self, stub: &str) -> (r: Option<&Criterion>)
        ensures
            match r {
                Some(c) => exists|i: int| first_with_stub(self.0@, stub@, i) && self.0@[i] == *c,
                None => lacks_stub(self.0@, stub@),
            },
    {
        match self.position(stub) {
            Some(i) => Some(&self.0[i]),
            None => None,
        }
    }

    /// Replaces the check of the first criterion with the stub.
    /// A stub that no criterion has is a configuration error.
    pub fn attach(&mut self, stub: &str, test: Predicate) -> (r: Result<(), ConfigError>)
        ensures
            match r {
                Ok(()) => exists|i: int|
                    first_with_stub(old(self).0@, stub@, i) && final(self).0@ == old(self).0@.update(
                        i,
                        Criterion { test, ..old(self).0@[i] },
                    ),
                Err(e) => {
                    &&& lacks_stub(old(self).0@, stub@)
                    &&& final(self).0@ == old(self).0@
                    &&& e matches ConfigError::MissingStub(s) && s@ == stub@
                },
            },
    {
        match self.position(stub) {
            Some(i) => {
                let mut c = self.0.remove(i);
                c.attach(test);
                self.0.insert(i, c);
                let ghost updated = Criterion { test, ..old(self).0@[i as int] };
                assert(self.0@ =~= old(self).0@.update(i as int, updated));
                Ok(())
            },
            None => Err(ConfigError::MissingStub(stub.to_owned())),
        }
    }

    /// A collection holding `criteria`, in the same order.
    pub fn from(criteria: Vec<Criterion>) -> (r: Criteria)
        ensures
            r.0@ == criteria@,
    {
        Criteria(criteria)
    }

    /// The number of criteria.
    pub fn len(&self) -> (r: usize)
        ensures
            r == self.0@.len(),
    {
        self.0.len()
    }

    /// The grade a submission gets when every check passes: the sum of all worths.
    pub fn total_points(&self) -> (r: i64)
        requires
            i64::MIN <= sum_worth(self.0@) <= i64::MAX,
        ensures
            r == sum_worth(self.0@),
    {
        let mut total: i128 = 0;
        let mut i: usize = 0;
        while i < self.0.len()
            invariant
                i <= self.0.len(),
                total == sum_worth(self.0@.take(i as int)),
                -32768 * i <= total <= 32768 * i,
            decreases self.0.len() - i,
        {
            assert(self.0@.take(i + 1).drop_last() =~= self.0@.take(i as int));
            total = total + self.0[i].worth as i128;
            i += 1;
        }
        assert(self.0@.take(i as int) =~= self.0@);
        total as i64
    }

    /// Every criterion as shown to a student, each followed by a line break.
    pub fn render(&self) -> (r: String)
        ensures
            r@ == rendering_all(self.0@),
    {
        let mut out = String::new();
        let mut i: usize = 0;
        proof {
            reveal_strlit("\n");
        }
        assert(self.0@.take(0) =~= Seq::<Criterion>::empty());
        while i < self.0.len()
            invariant
                i <= self.0.len(),
                out@ == rendering_all(self.0@.take(i as int)),
            decreases self.0.len() - i,
        {
            assert(self.0@.take(i + 1).drop_last() =~= self.0@.take(i as int));
            let shown = self.0[i].render();
            out.append(shown.as_str());
            out.append("\n");
            i += 1;
        }
        assert(self.0@.take(i as int) =~= self.0@);
        out
    }

    /// Orders the criteria by place: those with a place first, in ascending place, then those
    /// without one. Criteria of equal place, and those without a place, keep their order.
    pub fn sort_by_index(&mut self)
        ensures
            exists|perm: Seq<int>| stable_order(old(self).0@, final(self).0@, perm),
    {
        let mut input: Vec<Criterion> = Vec::new();
        std::mem::swap(&mut self.0, &mut input);
        let ghost s = input@;
        let n = input.len();
        let mut out: Vec<Criterion> = Vec::new();
        let ghost mut perm: Seq<int> = Seq::empty();
        let mut i: usize = 0;
        assert(s.skip(0) =~= s);
        while i < n
            invariant
                s == old(self).0@,
                n == s.len(),
                i <= n,
                input@ == s.skip(i as int),
                out@.len() == i,
                perm.len() == i,
                forall|k: int| 0 <= k < i ==> 0 <= #[trigger] perm[k] < i && out@[k] == s[perm[k]],
                forall|a: int, b: int| 0 <= a < b < i ==> perm[a] != perm[b],
                forall|a: int, b: int|
                    0 <= a < b < i ==> goes_before(#[trigger] out@[a].index, #[trigger] out@[b].index),
                forall|a: int, b: int|
                    0 <= a < b < i && out@[a].index == out@[b].index ==> #[trigger] perm[a]
                        < #[trigger] perm[b],
            decreases n - i,
        {
            let c = input.remove(0);
            assert(input@ =~= s.skip(i + 1));
            let mut p: usize = 0;
            while p < out.len() && place_goes_before(out[p].index, c.index)
                invariant
                    p <= out@.len(),
                    forall|a: int| 0 <= a < p ==> goes_before(#[trigger] out@[a].index, c.index),
                decreases out@.len() - p,
            {
                p += 1;
            }
            let ghost old_out = out@;
            proof {
                assert forall|a: int| p <= a < i implies !goes_before(#[trigger] old_out[a].index, c.index) by {
                    if a > p {
                        assert(goes_before(old_out[p as int].index, old_out[a].index));
                    }
                }
            }
            out.insert(p, c);
            proof {
                perm = perm.insert(p as int, i as int);
                assert(out@ =~= old_out.insert(p as int, c));
            }
            i += 1;
        }
        self.0 = out;
        assert(stable_order(s, self.0@, perm));
    }
}

} // verus!
