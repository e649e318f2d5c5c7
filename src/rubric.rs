//! Rubric descriptions, as read from a declarative document, and their conversion into criteria.
use vstd::prelude::*;

use crate::criteria::{stable_order, Criteria};
use crate::criterion::{Criterion, CriterionBuilder};
use crate::error::ConfigError;
use crate::predicate::{registered, Predicate, Registry};

verus! {

/// The description of one criterion in a rubric.
pub struct CriterionYaml {
    /// The name of a registered check, if the criterion names one.
    pub func: Option<String>,
    /// Where the criterion goes among the others, if the rubric says.
    pub index: Option<i64>,
    /// A description.
    pub desc: Option<String>,
    /// Points for passing; required.
    pub worth: isize,
    /// The success and failure messages.
    pub messages: Option<(String, String)>,
    /// Whether the criterion is left out when shown.
    pub hide: Option<bool>,
}

/// The description of a whole rubric. Besides the criteria it holds scheduling details that
/// grading does not read.
pub struct RubricYaml {
    pub name: String,
    pub desc: Option<String>,
    /// The criteria, each under its identifier, in the order given; criteria without a place
    /// keep that order.
    pub criteria: Vec<(String, CriterionYaml)>,
    pub total: Option<isize>,
    pub deadline: Option<String>,
    pub final_deadline: Option<String>,
    pub allow_late: Option<bool>,
    pub late_penalty: Option<isize>,
    pub late_penalty_per_day: Option<isize>,
}

/// The worth fits a criterion's points.
pub open spec fn worth_fits(w: isize) -> bool {
    i16::MIN <= w <= i16::MAX
}

/// The check the description names is registered, or it names none.
pub open spec fn func_resolves(y: CriterionYaml, reg: Seq<(Seq<char>, Predicate)>) -> bool {
    match y.func {
        Some(f) => registered(reg, f@) is Some,
        None => true,
    }
}

/// The error that converting `y`, named `name`, gives, if any: a worth that does not fit
/// comes first, then a check name that is not registered.
pub open spec fn conversion_error(
    name: Seq<char>,
    y: CriterionYaml,
    reg: Seq<(Seq<char>, Predicate)>,
    e: ConfigError,
) -> bool {
    if !worth_fits(y.worth) {
        e matches ConfigError::WorthOutOfRange(s) && s@ == name
    } else {
        match y.func {
            Some(f) => e matches ConfigError::UnknownFunc(s) && s@ == f@,
            None => false,
        }
    }
}

/// `c` is the criterion that the description `y` under `name` stands for.
pub open spec fn describes(
    c: Criterion,
    name: Seq<char>,
    y: CriterionYaml,
    reg: Seq<(Seq<char>, Predicate)>,
) -> bool {
    &&& c.stub@ == name
    &&& c.name@ == name
    &&& c.worth as int == y.worth as int
    &&& match y.messages {
        Some(m) => c.messages.0@ == m.0@ && c.messages.1@ == m.1@,
        None => c.messages.0@ == "passed"@ && c.messages.1@ == "failed"@,
    }
    &&& match y.desc {
        Some(d) => c.desc@ == d@,
        None => c.desc@.len() == 0,
    }
    &&& c.hide == match y.hide {
        Some(h) => h,
        None => false,
    }
    &&& c.index == y.index
    &&& c.status is None
    &&& match y.func {
        Some(f) => registered(reg, f@) == Some(c.test),
        None => c.test == Predicate::Always(false),
    }
}

impl CriterionYaml {
    /// The criterion this description stands for, under the identifier `name`, which serves as
    /// both its stub and its name. Messages default to `passed` and `failed`; without a named
    /// check, the check fails until one is attached.
    pub fn into_criterion(self, name: String, registry: &Registry) -> (r: Result<Criterion, ConfigError>)
        ensures
            worth_fits(self.worth) && func_resolves(self, registry@) <==> r is Ok,
            match r {
                Ok(c) => describes(c, name@, self, registry@),
                Err(e) => conversion_error(name@, self, registry@, e),
            },
    {
        if self.worth < i16::MIN as isize || self.worth > i16::MAX as isize {
            return Err(ConfigError::WorthOutOfRange(name));
        }
        let mut builder = CriterionBuilder::new(name.as_str()).stub(name.as_str()).worth(
            self.worth as i16,
        );
        if let Some(m) = &self.messages {
            builder = builder.messages(m.0.as_str(), m.1.as_str());
        }
        if let Some(f) = &self.func {
            match registry.get(f.as_str()) {
                Some(p) => {
                    builder = builder.test(p.duplicate());
                },
                None => {
                    return Err(ConfigError::UnknownFunc(f.clone()));
                },
            }
        }
        if let Some(h) = self.hide {
            builder = builder.hidden(h);
        }
        if let Some(d) = &self.desc {
            builder = builder.desc(d.as_str());
        }
        if let Some(i) = self.index {
            builder = builder.index(i);
        }
        builder.build()
    }
}

/// Every entry of `s` converts.
pub open spec fn all_convert(s: Seq<(String, CriterionYaml)>, reg: Seq<(Seq<char>, Predicate)>) -> bool {
    forall|i: int| 0 <= i < s.len() ==> worth_fits(#[trigger] s[i].1.worth) && func_resolves(s[i].1, reg)
}

/// `t` is the criteria that the entries of `s` describe, in some order that `stable_order` allows.
pub open spec fn arranged_from(
    s: Seq<(String, CriterionYaml)>,
    reg: Seq<(Seq<char>, Predicate)>,
    t: Seq<Criterion>,
) -> bool {
    exists|u: Seq<Criterion>, perm: Seq<int>|
        {
            &&& u.len() == s.len()
            &&& forall|i: int| 0 <= i < u.len() ==> describes(#[trigger] u[i], s[i].0@, s[i].1, reg)
            &&& #[trigger] stable_order(u, t, perm)
        }
}

impl RubricYaml {
    /// The criteria of the rubric, each converted as `CriterionYaml::into_criterion` does, then
    /// ordered as `Criteria::sort_by_index` does. The first entry that does not convert gives
    /// the error.
    pub fn into_criteria(self, registry: &Registry) -> (r: Result<Criteria, ConfigError>)
        ensures
            all_convert(self.criteria@, registry@) <==> r is Ok,
            match r {
                Ok(cs) => arranged_from(self.criteria@, registry@, cs.0@),
                Err(e) => exists|i: int|
                    {
                        &&& 0 <= i < self.criteria@.len()
                        &&& all_convert(self.criteria@.take(i), registry@)
                        &&& conversion_error(
                            self.criteria@[i].0@,
                            self.criteria@[i].1,
                            registry@,
                            e,
                        )
                    },
            },
    {
        let ghost s = self.criteria@;
        let mut entries = self.criteria;
        let n = entries.len();
        let mut made = Criteria::new();
        let mut i: usize = 0;
        assert(s.skip(0) =~= s);
        while i < n
            invariant
                s == self.criteria@,
                n == s.len(),
                i <= n,
                entries@ == s.skip(i as int),
                made.0@.len() == i,
                forall|j: int| 0 <= j < i ==> describes(#[trigger] made.0@[j], s[j].0@, s[j].1, registry@),
                all_convert(s.take(i as int), registry@),
            decreases n - i,
        {
            assert(entries@[0] == s[i as int]);
            let (name, y) = entries.remove(0);
            assert(entries@ =~= s.skip(i + 1));
            assert(name == s[i as int].0 && y == s[i as int].1);
            match y.into_criterion(name, registry) {
                Ok(c) => {
                    made.add(c);
                    assert(all_convert(s.take(i + 1), registry@)) by {
                        assert forall|j: int| 0 <= j < i + 1 implies worth_fits(
                            #[trigger] s.take(i + 1)[j].1.worth,
                        ) && func_resolves(s.take(i + 1)[j].1, registry@) by {
                            if j < i {
                                assert(s.take(i + 1)[j] == s.take(i as int)[j]);
                            }
                        }
                    }
                },
                Err(e) => {
                    assert(!all_convert(s, registry@)) by {
                        assert(!(worth_fits(s[i as int].1.worth) && func_resolves(s[i as int].1, registry@)));
                    }
                    assert(conversion_error(s[i as int].0@, s[i as int].1, registry@, e));
                    return Err(e);
                },
            }
            i += 1;
        }
        assert(s.take(n as int) =~= s);
        let ghost u = made.0@;
        assert(forall|j: int|
            0 <= j < u.len() ==> describes(#[trigger] u[j], s[j].0@, s[j].1, registry@));
        made.sort_by_index();
        proof {
            let perm = choose|perm: Seq<int>| stable_order(u, made.0@, perm);
            assert(stable_order(u, made.0@, perm));
        }
        Ok(made)
    }
}

} // verus!
