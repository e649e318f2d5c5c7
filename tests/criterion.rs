use lab_grader::criterion::{Criterion, CriterionBuilder};
use lab_grader::error::ConfigError;
use lab_grader::data::TestData;
use lab_grader::predicate::Predicate;

fn text(s: &str) -> String {
    String::from(s)
}

#[test]
fn test_new_criterion() {
    let mut c = Criterion::new("A test criterion", 10, ("passed!", "failed!"), Predicate::Always(true));
    assert_eq!(c.name, "A test criterion");
    assert_eq!(c.worth, 10);
    assert!(c.status.is_none());
    assert!(c.test());
    assert!(c.status.is_some());
}

#[test]
fn test_a_criterion_with_data_passes() {
    let mut c = Criterion::new(
        "A test criterion",
        10,
        ("succes!", "failure!"),
        Predicate::Equals(text("my_var"), text("value")),
    );
    let mut data = TestData::new();
    data.insert(text("my_var"), text("value"));
    assert!(c.test_with_data(&data));
}

#[test]
fn test_success_and_failure_messages() {
    let c = Criterion::new("A test criterion", 10, ("passed!", "failed!"), Predicate::Always(true));
    assert_eq!(c.success_message(), "passed!");
    assert_eq!(c.failure_message(), "failed!");
}

#[test]
fn test_data_macro() {
    let mut map = TestData::new();
    map.insert(String::from("key"), String::from("value"));
    let mut data = TestData::new();
    data.insert(String::from("key"), String::from("value"));
    assert_eq!(map, data);
}

#[test]
fn test_set_description() {
    let mut c = Criterion::new("test", 1, ("p", "f"), Predicate::Always(false));
    assert!(c.desc.len() == 0);
    c.set_desc("short desc");
    assert_eq!(c.desc, "short desc");
}

#[test]
fn test_set_test() {
    let mut c = Criterion::new("test", 1, ("p", "f"), Predicate::Always(false));
    assert!(!c.test());
    c.attach(Predicate::Always(true));
    assert!(c.test());
}

#[test]
fn test_hide_criterion() {
    let mut crit = Criterion::new("test", 1, ("p", "f"), Predicate::Always(true));
    assert!(crit.render().len() > 1);
    crit.set_hide(true);
    assert_eq!(crit.render().len(), 0);
}

#[test]
fn new_criterion_defaults() {
    let c = Criterion::new("n", -3, ("p", "f"), Predicate::Always(true));
    assert_eq!(c.stub, "none");
    assert!(!c.hide);
    assert_eq!(c.index, None);
    assert_eq!(c.worth, -3);
}

#[test]
fn a_failing_check_records_false() {
    let mut c = Criterion::new(
        "n",
        1,
        ("p", "f"),
        Predicate::Equals(text("my_var"), text("value")),
    );
    let mut data = TestData::new();
    data.insert(text("my_var"), text("other"));
    assert!(!c.test_with_data(&data));
    assert_eq!(c.status, Some(false));
    assert!(!c.test());
}

#[test]
fn attach_keeps_the_status() {
    let mut c = Criterion::new("n", 1, ("p", "f"), Predicate::Always(false));
    c.test();
    c.attach(Predicate::Always(true));
    assert_eq!(c.status, Some(false));
}

#[test]
fn combined_checks() {
    let mut data = TestData::new();
    data.insert(text("a"), text("1"));
    let has_a = Predicate::HasKey(text("a"));
    let has_b = Predicate::HasKey(text("b"));
    assert!(has_a.evaluate(&data));
    assert!(!has_b.evaluate(&data));
    let both = Predicate::And(Box::new(Predicate::HasKey(text("a"))), Box::new(Predicate::HasKey(text("b"))));
    let either = Predicate::Or(Box::new(Predicate::HasKey(text("a"))), Box::new(Predicate::HasKey(text("b"))));
    let not_b = Predicate::Not(Box::new(Predicate::HasKey(text("b"))));
    assert!(!both.evaluate(&data));
    assert!(either.evaluate(&data));
    assert!(not_b.evaluate(&data));
}

#[test]
fn render_untested_passed_and_failed() {
    let mut c = Criterion::new("Name", -12, ("good", "bad"), Predicate::Always(true));
    c.set_desc("d");
    assert_eq!(
        c.render(),
        "\u{1b}[1;37mName\u{1b}[0m\n\u{1b}[37md\u{1b}[0m\nWorth: -12 pts\nStatus: not tested\n"
    );
    c.test();
    assert_eq!(
        c.render(),
        "\u{1b}[1;32mName\u{1b}[0m\n\u{1b}[37md\u{1b}[0m\nWorth: -12 pts\nStatus: \u{1b}[32mgood\u{1b}[0m\n"
    );
    c.attach(Predicate::Always(false));
    c.test();
    assert_eq!(
        c.render(),
        "\u{1b}[1;31mName\u{1b}[0m\n\u{1b}[37md\u{1b}[0m\nWorth: -12 pts\nStatus: \u{1b}[31mbad\u{1b}[0m\n"
    );
}

#[test]
fn builder_fills_defaults() {
    let mut c = CriterionBuilder::new("test criterion")
        .worth(10)
        .test(Predicate::Always(true))
        .build()
        .unwrap();
    assert_eq!(c.name, "test criterion");
    assert_eq!(c.stub, "none");
    assert_eq!(c.worth, 10);
    assert_eq!(c.success_message(), "passed");
    assert_eq!(c.failure_message(), "failed");
    assert!(c.test());
}

#[test]
fn builder_keeps_what_was_given() {
    let c = CriterionBuilder::new("n")
        .stub("s")
        .worth(-2)
        .messages("y", "n")
        .desc("d")
        .hidden(true)
        .index(4)
        .build()
        .unwrap();
    assert_eq!(c.stub, "s");
    assert_eq!(c.messages, (text("y"), text("n")));
    assert_eq!(c.desc, "d");
    assert!(c.hide);
    assert_eq!(c.index, Some(4));
}

#[test]
fn builder_without_worth_is_refused() {
    let r = CriterionBuilder::new("n").test(Predicate::Always(true)).build();
    assert_eq!(r.err(), Some(ConfigError::MissingWorth(text("n"))));
}
