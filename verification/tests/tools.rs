use tollgate::database::PgConfig;
use tollgate::resp::Res;
use tollgate::tools::multipart::{summary, Take, TakeError};
use tollgate::tools::unit::{GB, MB};
use tollgate::http::Request;
use tollgate::tools::query::parse_query;
use tollgate::tools::validate::{json_content_type, need_json, report, validate};
use validator::{ValidationError, ValidationErrors};

/// What validation finds on a user whose email is "asd" and whose age is 150,
/// where an email must be one of 6 to 30 characters and an age lie within
/// 0 and 130.
fn found_on_user() -> ValidationErrors {
    let email = "asd";
    let age: u16 = 150;
    let mut errors = ValidationErrors::new();
    if !email.contains('@') {
        errors.add("email", ValidationError::new("邮箱格式不正确"));
    }
    if email.len() < 6 || email.len() > 30 {
        errors.add("email", ValidationError::new("长度6-30"));
    }
    if age > 130 {
        errors.add("age", ValidationError::new("年龄0-130"));
    }
    errors
}

fn check_user_report() {
    let res = validate(Err(found_on_user())).err().unwrap();
    println!("{}", String::from_utf8(res.clone().into_response().body.unwrap()).unwrap());
    assert_eq!(422, res.code);
    let one = "数据验证失败: email<邮箱格式不正确, 长度6-30>; age<年龄0-130>;";
    let other = "数据验证失败: age<年龄0-130>; email<邮箱格式不正确, 长度6-30>;";
    assert!(res.info == one || res.info == other, "{}", res.info);
}

#[test]
fn validate_validate_t() {
    check_user_report();
}

#[test]
fn cors_validate_t() {
    check_user_report();
}

#[test]
fn data_that_passed_is_let_through() {
    assert_eq!(Ok(()), validate(Ok(())));
}

#[test]
fn errors_on_no_field_leave_the_opening_words() {
    let res = validate(Err(ValidationErrors::new())).unwrap_err();
    assert_eq!(Res::msg(422, "数据验证失败:"), res);
}

#[test]
fn a_report_names_fields_in_the_order_given() {
    let finding = |field: &str, codes: &[&str]| {
        (field.to_string(), codes.iter().map(|c| c.to_string()).collect::<Vec<String>>())
    };
    assert_eq!("数据验证失败:", report(&vec![]));
    assert_eq!("数据验证失败: a<x>;", report(&vec![finding("a", &["x"])]));
    assert_eq!(
        "数据验证失败: b<x, y, z>; a<w>;",
        report(&vec![finding("b", &["x", "y", "z"]), finding("a", &["w"])])
    );
    assert_eq!("数据验证失败: a<>;", report(&vec![finding("a", &[])]));
}

#[test]
fn a_field_takes_one_value_below_five_megabytes_unless_told() {
    let mut take = Take::value(String::new());
    assert_eq!(0..5 * MB, take.limit);
    assert_eq!(1..1, take.count);
    assert_eq!(0, take.index());
    assert_eq!(Err(TakeError::Exactly(1)), take.verify());
    assert_eq!(Ok(()), take.extract(0));
    assert_eq!(1, take.index());
    assert_eq!(Ok(()), take.verify());
    assert_eq!(Err(TakeError::TooMany(1)), take.extract(5 * MB - 1));
    assert_eq!(2, take.index());
    assert_eq!(Err(TakeError::Exactly(1)), take.verify());
}

#[test]
fn a_value_outside_the_limit_does_not_count() {
    let mut take = Take::value(0u8);
    assert_eq!(Err(TakeError::Size(0, 5 * MB)), take.extract(5 * MB));
    assert_eq!(0, take.index());
    take.limit = 10..GB;
    assert_eq!(Err(TakeError::Size(10, GB)), take.extract(9));
    assert_eq!(Ok(()), take.extract(10));
    assert_eq!(1, take.index());
}

#[test]
fn a_count_is_held_within_its_bounds() {
    let mut take = Take::value(());
    take.count = 1..3;
    assert_eq!(Err(TakeError::AtLeast(1)), take.verify());
    assert_eq!(Ok(()), take.extract(1));
    assert_eq!(Ok(()), take.verify());
    assert_eq!(Ok(()), take.extract(1));
    assert_eq!(Ok(()), take.verify());
    assert_eq!(Ok(()), take.extract(1));
    assert_eq!(Err(TakeError::AtLeast(1)), take.verify());
    assert_eq!(Err(TakeError::TooMany(3)), take.extract(1));
    take.count = 0..0;
    assert_eq!(Err(TakeError::Exactly(0)), take.verify());
    assert_eq!(Ok(()), Take::value(()).extract(3).and(Ok(())));
}

#[test]
fn the_errors_of_a_field_read_with_their_bounds() {
    assert_eq!("大小0.0KB-5.0MB", TakeError::Size(0, 5 * MB).to_text());
    assert_eq!("大小1.0KB-1.0GB", TakeError::Size(1024, GB).to_text());
    assert_eq!("不大于3个", TakeError::TooMany(3).to_text());
    assert_eq!("必须有1个", TakeError::Exactly(1).to_text());
    assert_eq!("至少有12个", TakeError::AtLeast(12).to_text());
}

#[test]
fn the_failures_of_a_form_are_summed_up() {
    assert_eq!(Ok(()), summary(&vec![]));
    let failure = |field: &str, found: &str| (field.to_string(), found.to_string());
    assert_eq!(
        Err(Res::msg(422, "数据验证失败: title<必须有1个>;")),
        summary(&vec![failure("title", "必须有1个")])
    );
    assert_eq!(
        Err(Res::msg(422, "数据验证失败: images<至少有1个>; video<>;")),
        summary(&vec![failure("images", "至少有1个"), failure("video", "")])
    );
}

#[test]
fn the_database_is_found_at_its_address() {
    let config = PgConfig {
        database: "shop".to_string(),
        hostname: "db.local:5432".to_string(),
        username: "app".to_string(),
        password: "p@ss".to_string(),
    };
    assert_eq!("postgres://app:p@ss@db.local:5432/shop", config.url());
    let empty = PgConfig {
        database: String::new(),
        hostname: String::new(),
        username: String::new(),
        password: String::new(),
    };
    assert_eq!("postgres://:@/", empty.url());
}

#[test]
fn json_is_announced_by_the_content_type() {
    for value in ["application/json", "APPLICATION/JSON", "Application/Json"] {
        assert!(json_content_type(Some(value)), "{value}");
        assert_eq!(Ok(()), need_json(Some(value)));
    }
    for value in [
        "",
        "application/json; charset=utf-8",
        "application/jsonx",
        "text/json",
        "json",
        "application/json\n",
        "application/x-www-form-urlencoded",
    ] {
        assert!(!json_content_type(Some(value)), "{value}");
        assert_eq!(Err(Res::msg(401, "请求头必须为 application/json")), need_json(Some(value)));
    }
    assert!(!json_content_type(None));
    assert_eq!(Err(Res::msg(401, "请求头必须为 application/json")), need_json(None));
}

#[test]
fn the_parameters_of_a_query_are_decoded_in_their_order() {
    let pair = |k: &str, v: &str| (k.to_string(), v.to_string());
    let mut req = Request::new("GET", "/");
    assert_eq!(Ok(vec![]), parse_query(&req));
    req.query = Some(String::new());
    assert_eq!(Ok(vec![]), parse_query(&req));
    req.query = Some("b=1&a=%E6%97%A5+x&b=&c".to_string());
    assert_eq!(
        Ok(vec![pair("b", "1"), pair("a", "日 x"), pair("b", ""), pair("c", "")]),
        parse_query(&req)
    );
}
