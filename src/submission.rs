//! A student's submission: its data, its grade, and what passed and failed.
use vstd::prelude::*;
use vstd::string::StringExecFns;

use crate::criteria::Criteria;
use crate::criterion::{with_status, Criterion};
use crate::data::{keys_of, values_of, TestData};
use crate::text::{decimal, join, push_decimal, push_joined, views};

verus! {

/// The criterion after its check has run on data with entries `d`.
pub open spec fn ran(c: Criterion, d: Seq<(Seq<char>, Seq<char>)>) -> Criterion {
    with_status(c, Some(c.test.holds(d)))
}

/// Every criterion of `s` after its check has run on `d`.
pub open spec fn ran_all(s: Seq<Criterion>, d: Seq<(Seq<char>, Seq<char>)>) -> Seq<Criterion> {
    s.map_values(|c: Criterion| ran(c, d))
}

/// The sum of the worths of the criteria of `s` whose check holds on `d`.
pub open spec fn passed_points(s: Seq<Criterion>, d: Seq<(Seq<char>, Seq<char>)>) -> int
    decreases s.len(),
{
    if s.len() == 0 {
        0
    } else {
        passed_points(s.drop_last(), d) + if s.last().test.holds(d) {
            s.last().worth as int
        } else {
            0
        }
    }
}

/// The entry that records an outcome of `c`: its name, a colon, and the message.
pub open spec fn outcome_line(c: Criterion, message: Seq<char>) -> Seq<char> {
    c.name@ + ": "@ + message
}

/// The entries for the criteria of `s` whose check holds on `d`, in order.
pub open spec fn passed_lines(s: Seq<Criterion>, d: Seq<(Seq<char>, Seq<char>)>) -> Seq<Seq<char>>
    decreases s.len(),
{
    if s.len() == 0 {
        Seq::empty()
    } else if s.last().test.holds(d) {
        passed_lines(s.drop_last(), d).push(outcome_line(s.last(), s.last().messages.0@))
    } else {
        passed_lines(s.drop_last(), d)
    }
}

/// The entries for the criteria of `s` whose check fails on `d`, in order.
pub open spec fn failed_lines(s: Seq<Criterion>, d: Seq<(Seq<char>, Seq<char>)>) -> Seq<Seq<char>>
    decreases s.len(),
{
    if s.len() == 0 {
        Seq::empty()
    } else if s.last().test.holds(d) {
        failed_lines(s.drop_last(), d)
    } else {
        failed_lines(s.drop_last(), d).push(outcome_line(s.last(), s.last().messages.1@))
    }
}

/// One student's submission.
pub struct Submission {
    /// When the submission was created, as RFC 3339 text in local time.
    pub time: String,
    /// The sum of the worths of the criteria that passed.
    pub grade: i64,
    /// The data the criteria are run on.
    pub data: TestData,
    /// One entry per passed criterion: its name and success message.
    pub passed: Vec<String>,
    /// One entry per failed criterion: its name and failure message.
    pub failed: Vec<String>,
}

impl Submission {
    /// An empty submission created at `time`, the creation time as RFC 3339 text in local time.
    pub fn new(time: String) -> (r: Submission)
        ensures
            r.time == time,
            r.grade == 0,
            r.data@.len() == 0,
            r.passed@.len() == 0,
            r.failed@.len() == 0,
    {
        Submission {
            time,
            grade: 0,
            data: TestData::new(),
            passed: Vec::new(),
            failed: Vec::new(),
        }
    }

    /// Replaces the data.
    pub fn use_data(&mut self, data: TestData)
        ensures
            final(self).data == data,
            final(self).time == old(self).time,
            final(self).grade == old(self).grade,
            final(self).passed == old(self).passed,
            final(self).failed == old(self).failed,
    {
        self.data = data;
    }

    /// An empty submission created at `time` (RFC 3339 text in local time), holding `data`.
    pub fn from_data(data: TestData, time: String) -> (r: Submission)
        ensures
            r.time == time,
            r.grade == 0,
            r.data == data,
            r.passed@.len() == 0,
            r.failed@.len() == 0,
    {
        let mut sub = Submission::new(time);
        sub.use_data(data);
        sub
    }

    /// Records a passed criterion.
    pub fn pass(&mut self, criterion: &str)
        ensures
            views(final(self).passed@) == views(old(self).passed@).push(criterion@),
            final(self).failed == old(self).failed,
            final(self).grade == old(self).grade,
            final(self).data == old(self).data,
            final(self).time == old(self).time,
    {
        self.passed.push(criterion.to_owned());
        assert(views(self.passed@) =~= views(old(self).passed@).push(criterion@));
    }

    /// Records a failed criterion.
    pub fn fail(&mut self, criterion: &str)
        ensures
            views(final(self).failed@) == views(old(self).failed@).push(criterion@),
            final(self).passed == old(self).passed,
            final(self).grade == old(self).grade,
            final(self).data == old(self).data,
            final(self).time == old(self).time,
    {
        self.failed.push(criterion.to_owned());
        assert(views(self.failed@) =~= views(old(self).failed@).push(criterion@));
    }

    /// Runs every criterion, in order, on this submission's data. Each one that passes adds
    /// its worth to the grade and an entry to `passed`; each one that fails adds an entry to
    /// `failed`. Nothing is reset first: grading again adds to what is there.
    pub fn grade_against(&mut self, criteria: &mut Criteria)
        requires
            i64::MIN <= old(self).grade + passed_points(old(criteria).0@, old(self).data@) <= i64::MAX,
        ensures
            final(criteria).0@ == ran_all(old(criteria).0@, old(self).data@),
            final(self).grade == old(self).grade + passed_points(old(criteria).0@, old(self).data@),
            views(final(self).passed@) == views(old(self).passed@) + passed_lines(
                old(criteria).0@,
                old(self).data@,
            ),
            views(final(self).failed@) == views(old(self).failed@) + failed_lines(
                old(criteria).0@,
                old(self).data@,
            ),
            final(self).passed@.len() + final(self).failed@.len() == old(self).passed@.len()
                + old(self).failed@.len() + old(criteria).0@.len(),
            final(self).data == old(self).data,
            final(self).time == old(self).time,
    {
        let ghost cs = criteria.0@;
        let ghost d = old(self).data@;
        let ghost passed_before = views(self.passed@);
        let ghost failed_before = views(self.failed@);
        let n = criteria.0.len();
        let mut total: i128 = 0;
        let mut i: usize = 0;
        proof {
            reveal_strlit(": ");
            assert(cs.take(0) =~= Seq::<Criterion>::empty());
            assert(passed_before + passed_lines(cs.take(0), d) =~= passed_before);
            assert(failed_before + failed_lines(cs.take(0), d) =~= failed_before);
        }
        while i < n
            invariant
                cs == old(criteria).0@,
                d == old(self).data@,
                passed_before == views(old(self).passed@),
                failed_before == views(old(self).failed@),
                n == cs.len(),
                i <= n,
                criteria.0@.len() == n,
                forall|j: int| 0 <= j < i ==> criteria.0@[j] == ran(cs[j], d),
                forall|j: int| i <= j < n ==> criteria.0@[j] == cs[j],
                total == passed_points(cs.take(i as int), d),
                -32768 * i <= total <= 32768 * i,
                views(self.passed@) == passed_before + passed_lines(cs.take(i as int), d),
                views(self.failed@) == failed_before + failed_lines(cs.take(i as int), d),
                self.data == old(self).data,
                self.time == old(self).time,
                self.grade == old(self).grade,
            decreases n - i,
        {
            proof {
                assert(cs.take(i + 1).drop_last() =~= cs.take(i as int));
                assert(cs.take(i + 1).last() == cs[i as int]);
            }
            let mut c = criteria.0.remove(i);
            let ok = c.test_with_data(&self.data);
            let mut line = String::new();
            line.append(c.name.as_str());
            line.append(": ");
            if ok {
                total = total + c.worth as i128;
                line.append(c.messages.0.as_str());
                self.pass(line.as_str());
                assert(passed_before + passed_lines(cs.take(i + 1), d) =~= passed_before + passed_lines(
                    cs.take(i as int),
                    d,
                ).push(line@));
                assert(failed_before + failed_lines(cs.take(i + 1), d) =~= failed_before + failed_lines(
                    cs.take(i as int),
                    d,
                ));
            } else {
                line.append(c.messages.1.as_str());
                self.fail(line.as_str());
                assert(passed_before + passed_lines(cs.take(i + 1), d) =~= passed_before + passed_lines(
                    cs.take(i as int),
                    d,
                ));
                assert(failed_before + failed_lines(cs.take(i + 1), d) =~= failed_before + failed_lines(
                    cs.take(i as int),
                    d,
                ).push(line@));
            }
            criteria.0.insert(i, c);
            i += 1;
        }
        proof {
            assert(cs.take(n as int) =~= cs);
            assert(criteria.0@ =~= ran_all(cs, d));
        }
        self.grade = (self.grade as i128 + total) as i64;
        proof {
            lemma_one_entry_per_criterion(cs, d);
            assert(views(self.passed@).len() == self.passed@.len());
            assert(views(self.failed@).len() == self.failed@.len());
        }
    }

    /// The submission as one CSV row: time, grade, the passed entries joined by semicolons,
    /// the failed entries joined by semicolons, then the data's values in key order.
    pub fn as_csv(&self) -> (r: String)
        ensures
            r@ == csv_row(
                self.time@,
                self.grade as int,
                views(self.passed@),
                views(self.failed@),
                self.data@,
            ),
    {
        proof {
            reveal_strlit(",");
            reveal_strlit(";");
        }
        let mut out = String::new();
        out.append(self.time.as_str());
        out.append(",");
        push_decimal(&mut out, self.grade);
        out.append(",");
        push_joined(&mut out, &self.passed, ";");
        out.append(",");
        push_joined(&mut out, &self.failed, ";");
        out.append(",");
        let values = self.data.as_csv();
        out.append(values.as_str());
        assert(","@ =~= seq![',']);
        assert(";"@ =~= seq![';']);
        assert(out@ =~= csv_row(
            self.time@,
            self.grade as int,
            views(self.passed@),
            views(self.failed@),
            self.data@,
        ));
        out
    }

    /// The CSV header that matches `as_csv`: the four fixed columns, then the data's keys in order.
    pub fn header(&self) -> (r: String)
        ensures
            r@ == "time,grade,passed,failed,"@ + join(keys_of(self.data@), seq![',']),
    {
        let mut out = "time,grade,passed,failed,".to_owned();
        let keys = self.data.header();
        out.append(keys.as_str());
        out
    }

    /// The name of the file that submissions are written to.
    pub fn filename(&self) -> (r: String)
        ensures
            r@ == "submissions.csv"@,
    {
        "submissions.csv".to_owned()
    }
}

/// The CSV row of a submission with the given time, grade, entries and data.
pub open spec fn csv_row(
    time: Seq<char>,
    grade: int,
    passed: Seq<Seq<char>>,
    failed: Seq<Seq<char>>,
    data: Seq<(Seq<char>, Seq<char>)>,
) -> Seq<char> {
    time + seq![','] + decimal(grade) + seq![','] + join(passed, seq![';']) + seq![','] + join(
        failed,
        seq![';'],
    ) + seq![','] + join(values_of(data), seq![','])
}

/// Grading adds exactly one entry, passed or failed, for each criterion.
pub proof fn lemma_one_entry_per_criterion(s: Seq<Criterion>, d: Seq<(Seq<char>, Seq<char>)>)
    ensures
        passed_lines(s, d).len() + failed_lines(s, d).len() == s.len(),
    decreases s.len(),
{
    if s.len() > 0 {
        lemma_one_entry_per_criterion(s.drop_last(), d);
    }
}

/// A fresh submission (grade zero, no entries) graded twice against the same criteria, on
/// unchanged data, holds every entry of the first grading twice and twice its points:
/// grading never resets what an earlier grading recorded.
pub proof fn lemma_graded_twice(s: Seq<Criterion>, d: Seq<(Seq<char>, Seq<char>)>)
    ensures
        ({
            let p1 = Seq::<Seq<char>>::empty() + passed_lines(s, d);
            let f1 = Seq::<Seq<char>>::empty() + failed_lines(s, d);
            let g1 = 0 + passed_points(s, d);
            &&& p1 + passed_lines(ran_all(s, d), d) == p1 + p1
            &&& f1 + failed_lines(ran_all(s, d), d) == f1 + f1
            &&& g1 + passed_points(ran_all(s, d), d) == 2 * g1
        }),
{
    lemma_grading_again(s, d);
    assert(Seq::<Seq<char>>::empty() + passed_lines(s, d) =~= passed_lines(s, d));
    assert(Seq::<Seq<char>>::empty() + failed_lines(s, d) =~= failed_lines(s, d));
}

/// Running the checks leaves what grading depends on unchanged: grading again against the
/// criteria as the first grading left them adds the same points and the same entries again.
pub proof fn lemma_grading_again(s: Seq<Criterion>, d: Seq<(Seq<char>, Seq<char>)>)
    ensures
        passed_points(ran_all(s, d), d) == passed_points(s, d),
        passed_lines(ran_all(s, d), d) == passed_lines(s, d),
        failed_lines(ran_all(s, d), d) == failed_lines(s, d),
    decreases s.len(),
{
    if s.len() > 0 {
        assert(ran_all(s, d).drop_last() =~= ran_all(s.drop_last(), d));
        lemma_grading_again(s.drop_last(), d);
    }
}

} // verus!
