use lab_grader::error::ConfigError;
use lab_grader::predicate::{Predicate, Registry};
use lab_grader::rubric::{CriterionYaml, RubricYaml};

fn text(s: &str) -> String {
    String::from(s)
}

fn entry(worth: isize, func: Option<&str>, index: Option<i64>) -> CriterionYaml {
    CriterionYaml {
        func: func.map(text),
        index,
        desc: None,
        worth,
        messages: None,
        hide: None,
    }
}

fn rubric(criteria: Vec<(String, CriterionYaml)>) -> RubricYaml {
    RubricYaml {
        name: text("lab"),
        desc: None,
        criteria,
        total: None,
        deadline: None,
        final_deadline: None,
        allow_late: None,
        late_penalty: None,
        late_penalty_per_day: None,
    }
}

#[test]
fn an_unregistered_func_fails_the_load() {
    let registry = Registry::new();
    let r = rubric(vec![(text("first"), entry(5, Some("missing_check"), None))]);
    match r.into_criteria(&registry) {
        Err(e) => assert_eq!(e, ConfigError::UnknownFunc(text("missing_check"))),
        Ok(_) => panic!("an unknown check name must not load"),
    }
}

#[test]
fn into_criterion_uses_the_name_and_defaults() {
    let mut registry = Registry::new();
    registry.register("yes", Predicate::Always(true));
    let mut y = entry(7, Some("yes"), Some(3));
    y.desc = Some(text("about"));
    y.hide = Some(true);
    let mut c = y.into_criterion(text("c1"), &registry).unwrap();
    assert_eq!(c.stub, "c1");
    assert_eq!(c.name, "c1");
    assert_eq!(c.worth, 7);
    assert_eq!(c.messages, (text("passed"), text("failed")));
    assert_eq!(c.desc, "about");
    assert!(c.hide);
    assert_eq!(c.index, Some(3));
    assert!(c.test());
}

#[test]
fn into_criterion_without_func_fails_until_attached() {
    let registry = Registry::new();
    let mut y = entry(1, None, None);
    y.messages = Some((text("ok"), text("ko")));
    let mut c = y.into_criterion(text("n"), &registry).unwrap();
    assert_eq!(c.success_message(), "ok");
    assert!(!c.test());
}

#[test]
fn a_worth_too_large_is_refused() {
    let registry = Registry::new();
    let r = entry(40000, None, None).into_criterion(text("big"), &registry);
    assert_eq!(r.err(), Some(ConfigError::WorthOutOfRange(text("big"))));
}

#[test]
fn later_registration_wins() {
    let mut registry = Registry::new();
    registry.register("check", Predicate::Always(false));
    registry.register("check", Predicate::Always(true));
    let mut c = entry(1, Some("check"), None).into_criterion(text("n"), &registry).unwrap();
    assert!(c.test());
    assert!(registry.get("other").is_none());
}

#[test]
fn rubric_criteria_are_ordered_by_index() {
    let mut registry = Registry::new();
    registry.register("yes", Predicate::Always(true));
    let r = rubric(vec![
        (text("plain"), entry(1, None, None)),
        (text("second"), entry(2, Some("yes"), Some(2))),
        (text("first"), entry(3, Some("yes"), Some(1))),
    ]);
    let criteria = r.into_criteria(&registry).unwrap();
    let names: Vec<String> = criteria.0.iter().map(|c| c.name.clone()).collect();
    assert_eq!(names, vec!["first", "second", "plain"]);
    assert_eq!(criteria.total_points(), 6);
}

#[test]
fn worths_at_the_limits_are_kept() {
    let registry = Registry::new();
    let hi = entry(32767, None, None).into_criterion(text("hi"), &registry).unwrap();
    let lo = entry(-32768, None, None).into_criterion(text("lo"), &registry).unwrap();
    assert_eq!(hi.worth, i16::MAX);
    assert_eq!(lo.worth, i16::MIN);
    let below = entry(-32769, None, None).into_criterion(text("below"), &registry);
    assert_eq!(below.err(), Some(ConfigError::WorthOutOfRange(text("below"))));
}

#[test]
fn a_bad_worth_is_reported_before_an_unknown_func() {
    let registry = Registry::new();
    let r = entry(100000, Some("missing"), None).into_criterion(text("both"), &registry);
    assert_eq!(r.err(), Some(ConfigError::WorthOutOfRange(text("both"))));
}

#[test]
fn the_first_failing_entry_gives_the_error() {
    let registry = Registry::new();
    let r = rubric(vec![
        (text("ok"), entry(1, None, None)),
        (text("bad1"), entry(1, Some("f1"), None)),
        (text("bad2"), entry(1, Some("f2"), None)),
    ]);
    match r.into_criteria(&registry) {
        Err(e) => assert_eq!(e, ConfigError::UnknownFunc(text("f1"))),
        Ok(_) => panic!("unknown check names must not load"),
    }
}
