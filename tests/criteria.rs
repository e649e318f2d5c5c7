use lab_grader::criteria::Criteria;
use lab_grader::criterion::Criterion;
use lab_grader::predicate::Predicate;
use lab_grader::data::TestData;
use lab_grader::submission::Submission;

fn yes() -> Predicate {
    Predicate::Always(true)
}

fn no() -> Predicate {
    Predicate::Always(false)
}

fn now() -> String {
    chrono::Local::now().to_rfc3339()
}

#[test]
fn test_build_criteria() {
    let loose = vec![
        Criterion::new("test 1", 1, ("p", "f"), yes()),
        Criterion::new("test 2", 1, ("p", "f"), yes()),
    ]
    .into_iter();
    let criteria = Criteria::from(loose.collect());
    assert!(criteria.0.len() == 2);
}

#[test]
fn test_build_from_vec() {
    let criteria = Criteria::from(vec![
        Criterion::new("test 1", 1, ("p", "f"), yes()),
        Criterion::new("test 2", 1, ("p", "f"), yes()),
    ]);
    assert!(criteria.0.len() == 2);
}

#[test]
fn test_len() {
    let criteria = Criteria::from(vec![
        Criterion::new("test 1", 1, ("p", "f"), yes()),
        Criterion::new("test 2", 1, ("p", "f"), yes()),
    ]);
    assert!(criteria.len() == 2);
    assert!(criteria.0.len() == criteria.len());
}

#[test]
fn test_add_criterion() {
    let mut criteria = Criteria::from(vec![
        Criterion::new("test 1", 1, ("p", "f"), yes()),
        Criterion::new("test 2", 1, ("p", "f"), yes()),
    ]);
    assert!(criteria.len() == 2);
    criteria.add(Criterion::new("test 3", 1, ("p", "f"), no()));
    assert!(criteria.len() == 3);
}

#[test]
fn test_total_points() {
    let criteria = Criteria::from(vec![
        Criterion::new("test 1", 10, ("p", "f"), yes()),
        Criterion::new("test 2", 25, ("p", "f"), yes()),
    ]);
    assert!(criteria.total_points() == 35);
}

#[test]
fn test_get_criterion() {
    let expected = "test 1";
    let mut crit1 = Criterion::new("test 1", 10, ("p", "f"), yes());
    crit1.stub = String::from("test1");
    let mut crit2 = Criterion::new("test 2", 25, ("p", "f"), yes());
    crit2.stub = String::from("test2");
    let criteria = Criteria::from(vec![crit1, crit2]);
    if let Some(found) = criteria.get("test1") {
        assert_eq!(found.name, expected);
    }
}

#[test]
fn get_is_none_for_an_absent_stub() {
    let mut crit = Criterion::new("test 1", 10, ("p", "f"), yes());
    crit.stub = String::from("here");
    let criteria = Criteria::from(vec![crit]);
    assert!(criteria.get("elsewhere").is_none());
    assert!(Criteria::new().get("none").is_none());
}

#[test]
fn get_returns_the_first_of_duplicated_stubs() {
    let mut first = Criterion::new("first", 1, ("p", "f"), yes());
    first.stub = String::from("dup");
    let mut second = Criterion::new("second", 2, ("p", "f"), yes());
    second.stub = String::from("dup");
    let criteria = Criteria::from(vec![first, second]);
    assert_eq!(criteria.get("dup").unwrap().name, "first");
    assert_eq!(criteria.position("dup"), Some(0));
}

#[test]
fn total_points_ignores_status_and_counts_negative_worths() {
    let mut criteria = Criteria::from(vec![
        Criterion::new("a", 10, ("p", "f"), yes()),
        Criterion::new("b", 25, ("p", "f"), no()),
        Criterion::new("c", -5, ("p", "f"), yes()),
    ]);
    assert_eq!(criteria.total_points(), 30);
    let mut sub = Submission::new(now());
    sub.grade_against(&mut criteria);
    assert_eq!(criteria.total_points(), 30);
    assert_eq!(sub.grade, 5);
    assert_eq!(Criteria::new().total_points(), 0);
}

#[test]
fn attach_replaces_the_check_of_the_first_match() {
    let mut crit = Criterion::new("a", 10, ("p", "f"), no());
    crit.stub = String::from("a-stub");
    let mut criteria = Criteria::from(vec![crit]);
    assert_eq!(criteria.attach("a-stub", yes()), Ok(()));
    let mut sub = Submission::from_data(TestData::new(), now());
    sub.grade_against(&mut criteria);
    assert_eq!(sub.grade, 10);
}

#[test]
fn attach_to_a_missing_stub_is_a_configuration_error() {
    let mut criteria = Criteria::from(vec![Criterion::new("a", 10, ("p", "f"), no())]);
    assert_eq!(
        criteria.attach("nope", yes()),
        Err(lab_grader::ConfigError::MissingStub(String::from("nope")))
    );
}

#[test]
fn sorting_puts_placed_criteria_first_and_keeps_ties_in_order() {
    let mut a = Criterion::new("a", 1, ("p", "f"), yes());
    a.index = None;
    let mut b = Criterion::new("b", 1, ("p", "f"), yes());
    b.index = Some(2);
    let mut c = Criterion::new("c", 1, ("p", "f"), yes());
    c.index = Some(1);
    let d = Criterion::new("d", 1, ("p", "f"), yes());
    let mut e = Criterion::new("e", 1, ("p", "f"), yes());
    e.index = Some(1);
    let mut criteria = Criteria::from(vec![a, b, c, d, e]);
    criteria.sort_by_index();
    let names: Vec<String> = criteria.0.iter().map(|c| c.name.clone()).collect();
    assert_eq!(names, vec!["c", "e", "b", "a", "d"]);
}

#[test]
fn rendering_a_set_shows_each_criterion_on_its_own_block() {
    let mut hidden = Criterion::new("hidden", 1, ("p", "f"), yes());
    hidden.set_hide(true);
    let criteria = Criteria::from(vec![hidden, Criterion::new("shown", 2, ("p", "f"), yes())]);
    let text = criteria.render();
    assert!(text.starts_with("\n"));
    assert!(text.contains("shown"));
    assert!(!text.contains("hidden"));
}
