use std::sync::Arc;
use tollgate::compare::{always_false, CompareStr};

#[derive(Clone)]
struct Odd;

impl CompareStr for Odd {
    fn compare(&self, uri: &str) -> bool {
        uri.len() % 2 == 1
    }
}

#[test]
fn a_rule_of_the_caller_is_asked() {
    assert!(Odd.compare("abc"));
    assert!(!Odd.compare("ab"));
}

#[test]
fn a_literal_matches_the_text_that_it_is() {
    assert!("/login".compare("/login"));
    assert!(!"/login".compare("/admin/login/export"));
    assert!(!"/login".compare("/user/login"));
    assert!(!"/login".compare("/login/"));
    assert!(!"/login".compare("/logout"));
    assert!(!"/login".compare("/logi"));
    assert!(!"/login".compare("/Login"));
    assert!(!"/login".compare(""));
}

#[test]
fn the_empty_literal_matches_the_empty_text_only() {
    assert!("".compare(""));
    assert!(!"".compare("/any"));
}

#[test]
fn a_shared_literal_matches_the_text_that_it_is() {
    let rule = Arc::new(String::from("/login"));
    assert!(rule.compare("/login"));
    assert!(!rule.compare("/a/login"));
    assert!(!rule.compare("/logon"));
}

#[test]
fn a_fixed_set_matches_its_members() {
    static RULE: [&str; 2] = ["/login", "/static"];
    let rule = &RULE;
    assert!(rule.compare("/login"));
    assert!(rule.compare("/static"));
    assert!(!rule.compare("/x/static/y"));
    assert!(!rule.compare("/info"));
    assert!(!rule.compare(""));
    static NONE: [&str; 0] = [];
    assert!(!(&NONE).compare("/login"));
}

#[test]
fn a_shared_list_matches_its_members() {
    let rule = Arc::new(vec![String::from("/login"), String::from("/open")]);
    assert!(rule.compare("/open"));
    assert!(rule.compare("/login"));
    assert!(!rule.compare("/open/door"));
    assert!(!rule.compare("/closed"));
    let none: Arc<Vec<String>> = Arc::new(Vec::new());
    assert!(!none.compare("/login"));
}

#[test]
fn a_function_matches_what_it_says() {
    let rule = |uri: &str| uri.starts_with("/pub");
    assert!(rule.compare("/public"));
    assert!(!rule.compare("/private"));
    assert!(!always_false.compare("/public"));
    assert!(!always_false("/public"));
}

#[test]
fn a_literal_matches_characters_beyond_ascii() {
    assert!("/写入日志".compare("/写入日志"));
    assert!(!"日志".compare("/写入日志"));
}
