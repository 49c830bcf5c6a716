use tollgate::color::{escape_of, paint_one, paint_two, Tint};
use tollgate::http::{Request, Response};
use tollgate::logger::config::{LogFile, LogMsg, LoggerConfig};
use tollgate::logger::middleware::{Action, Logger, LoggerService};
use tollgate::logger::stamp::Stamp;

// 2024-01-02 03:04:05, universal time
const MORNING: i64 = 1_704_164_645;

const DAY: i64 = 86_400;

fn at(secs: i64, nanos: u32) -> Stamp {
    Stamp::new(secs, nanos, 0).unwrap()
}

fn files_only() -> LoggerConfig {
    LoggerConfig { file: true, stdout: false, ..LoggerConfig::default() }
}

fn msg(begin: Stamp, end: Stamp) -> LogMsg {
    LogMsg {
        begin,
        end,
        method: "GET".to_string(),
        path: "/a b".to_string(),
        status: 200,
        ip: "127.0.0.1".to_string(),
    }
}

fn plain_line(time: &str, took: &str) -> String {
    format!("[{time}] [AXUM] │ 200 │ {took} │       127.0.0.1 │ GET    /a b\n")
}

#[test]
fn a_stamp_keeps_within_its_bounds() {
    assert!(Stamp::new(0, 999_999_999, 0).is_some());
    assert!(Stamp::new(0, 1_000_000_000, 0).is_none());
    assert!(Stamp::new(i64::MIN, 0, -86_399).is_some());
    assert!(Stamp::new(i64::MAX, 0, 86_399).is_some());
    assert!(Stamp::new(0, 0, 86_400).is_none());
    assert!(Stamp::new(0, 0, -86_400).is_none());
    let stamp = Stamp::new(-5, 6, 7).unwrap();
    assert_eq!((-5, 6, 7), (stamp.secs(), stamp.nanos(), stamp.offset()));
}

#[test]
fn the_local_day_follows_the_offset() {
    assert_eq!(19_724, at(MORNING, 0).local_day());
    assert_eq!(0, at(0, 0).local_day());
    assert_eq!(0, at(DAY - 1, 999_999_999).local_day());
    assert_eq!(1, at(DAY, 0).local_day());
    assert_eq!(-1, at(-1, 0).local_day());
    assert_eq!(-1, at(-DAY, 0).local_day());
    assert_eq!(-2, at(-DAY - 1, 0).local_day());
    assert_eq!(1, Stamp::new(DAY - 3600, 0, 3600).unwrap().local_day());
    assert_eq!(0, Stamp::new(DAY - 3601, 0, 3600).unwrap().local_day());
    assert_eq!(0, Stamp::new(DAY + 3599, 0, -3600).unwrap().local_day());
    assert_eq!(106_751_991_167_301, Stamp::new(i64::MAX, 0, 86_399).unwrap().local_day());
    assert_eq!(-106_751_991_167_302, Stamp::new(i64::MIN, 0, -86_399).unwrap().local_day());
}

#[test]
fn the_time_taken_is_never_negative() {
    assert_eq!((0, 1_500_000), at(10, 2_000_000).elapsed_since(&at(10, 500_000)));
    assert_eq!((1, 999_999_999), at(12, 0).elapsed_since(&at(10, 1)));
    assert_eq!((0, 0), at(10, 0).elapsed_since(&at(10, 1)));
    assert_eq!((0, 0), at(9, 999_999_999).elapsed_since(&at(10, 0)));
    assert_eq!((u64::MAX, 0), at(i64::MAX, 0).elapsed_since(&at(i64::MIN, 0)));
    let ahead = Stamp::new(10, 0, 3600).unwrap();
    assert_eq!((0, 0), ahead.elapsed_since(&at(10, 0)));
}

#[test]
fn whole_days_drop_the_part_of_a_day() {
    assert_eq!(0, at(DAY - 1, 999_999_999).whole_days_since(&at(0, 0)));
    assert_eq!(1, at(DAY, 0).whole_days_since(&at(0, 0)));
    assert_eq!(6, at(7 * DAY, 0).whole_days_since(&at(0, 1)));
    assert_eq!(7, at(7 * DAY, 1).whole_days_since(&at(0, 1)));
    assert_eq!(0, at(0, 0).whole_days_since(&at(DAY - 1, 0)));
    assert_eq!(-1, at(0, 0).whole_days_since(&at(DAY, 0)));
    assert_eq!(-1, at(0, 0).whole_days_since(&at(2 * DAY - 1, 999_999_999)));
    assert_eq!(0, at(0, 1).whole_days_since(&at(DAY, 0)));
}

#[test]
fn the_default_settings_print_in_colour_and_keep_no_file() {
    let config = LoggerConfig::default();
    assert_eq!("logs", config.path);
    assert_eq!("%Y%m%d.log", config.name);
    assert_eq!("%y-%m-%d %H:%M:%S", config.time);
    assert_eq!("[AXUM]", config.logo);
    assert!(!config.file);
    assert!(config.color);
    assert!(config.stdout);
    assert_eq!(None, config.delete);
}

#[test]
fn a_plain_line_holds_the_record() {
    let record = msg(at(MORNING, 0), at(MORNING, 1_500_000));
    let config = LoggerConfig::default();
    let line = record.write(&config, true).unwrap();
    assert_eq!(plain_line("24-01-02 03:04:05", "  1.50ms"), line);
    let plain = LoggerConfig { color: false, ..LoggerConfig::default() };
    assert_eq!(Some(line), record.write(&plain, false));
}

#[test]
fn a_plain_line_shows_the_time_the_request_came_in() {
    let record = msg(at(MORNING, 0), at(MORNING + 2, 250_000_000));
    let line = record.write(&LoggerConfig::default(), true).unwrap();
    assert_eq!(plain_line("24-01-02 03:04:05", "   2.25s"), line);
}

#[test]
fn a_line_shows_local_time() {
    let begin = Stamp::new(MORNING, 0, 8 * 3600).unwrap();
    let record = msg(begin, begin);
    let config = LoggerConfig { time: "%Y-%m-%d %H:%M:%S %z".to_string(), ..files_only() };
    let line = record.write(&config, true).unwrap();
    assert_eq!(plain_line("2024-01-02 11:04:05 +0800", "  0.00ns"), line);
}

#[test]
fn long_parts_are_not_cut() {
    let mut record = msg(at(MORNING, 0), at(MORNING + 90, 0));
    record.status = 1000;
    record.method = "OPTIONS".to_string();
    record.ip = "2001:db8:85a3::8a2e:370:7334".to_string();
    record.path = String::new();
    let line = record.write(&LoggerConfig::default(), true).unwrap();
    assert_eq!(
        "[24-01-02 03:04:05] [AXUM] │ 1000 │   90.00s │ 2001:db8:85a3::8a2e:370:7334 │ OPTIONS \n",
        line
    );
}

#[test]
fn a_coloured_line_shows_the_time_the_response_was_there() {
    let record = msg(at(MORNING, 0), at(MORNING + 1, 1_500_000));
    let line = record.write(&LoggerConfig::default(), false).unwrap();
    let expected = [
        "[\x1b[38;2;127;132;142m24-01-02 03:04:06\x1b[0m] ",
        "\x1b[1;33m[AXUM]\x1b[0m │ ",
        "\x1b[42m 200 \x1b[0m │ ",
        "   1.00s │ ",
        "\x1b[33m127.0.0.1      \x1b[0m │ ",
        "\x1b[42m GET    \x1b[0m /a b\n",
    ];
    assert_eq!(expected.join(""), line);
}

#[test]
fn status_and_method_are_coloured_by_their_kind() {
    let shown = |status: u16, method: &str| {
        let mut record = msg(at(MORNING, 0), at(MORNING, 0));
        record.status = status;
        record.method = method.to_string();
        let line = record.write(&LoggerConfig::default(), false).unwrap();
        let parts: Vec<&str> = line.split(" │ ").collect();
        (parts[1].to_string(), parts[4].to_string())
    };
    let status = |code: &str, status: u16| format!("\x1b[{code}m {status} \x1b[0m");
    let method = |code: &str, method: &str| format!("\x1b[{code}m {method:<6} \x1b[0m /a b\n");
    assert_eq!((status("42", 204), method("42", "GET")), shown(204, "GET"));
    assert_eq!((status("44", 302), method("44", "POST")), shown(302, "POST"));
    assert_eq!((status("41", 404), method("43", "PUT")), shown(404, "PUT"));
    assert_eq!((status("41", 500), method("43", "PATCH")), shown(500, "PATCH"));
    assert_eq!((status("43", 101), method("41", "DELETE")), shown(101, "DELETE"));
    assert_eq!((status("43", 600), method("45", "HEAD")), shown(600, "HEAD"));
    assert_eq!((status("43", 99), method("45", "get")), shown(99, "get"));
}

#[test]
fn a_style_starts_with_its_escape_sequence() {
    assert_eq!("\x1b[1m", escape_of(Tint::Bold));
    assert_eq!("\x1b[0;1m", escape_of(Tint::RBold));
    assert_eq!("\x1b[32m", escape_of(Tint::Green));
    assert_eq!("\x1b[33m", escape_of(Tint::Yellow));
    assert_eq!("\x1b[0;36m", escape_of(Tint::RCyan));
    assert_eq!("\x1b[41m", escape_of(Tint::BgRed));
    assert_eq!("\x1b[42m", escape_of(Tint::BgGreen));
    assert_eq!("\x1b[43m", escape_of(Tint::BgYellow));
    assert_eq!("\x1b[44m", escape_of(Tint::BgBlue));
    assert_eq!("\x1b[45m", escape_of(Tint::BgPurple));
    assert_eq!("\x1b[38;2;0;9;255m", escape_of(Tint::Color(0, 9, 255)));
}

#[test]
fn a_text_is_set_off_and_the_style_ended() {
    assert_eq!("\x1b[41m 404 \x1b[0m", paint_one(Tint::BgRed, " 404 "));
    assert_eq!("\x1b[1m\x1b[0m", paint_one(Tint::Bold, ""));
    assert_eq!("\x1b[1;33m[AXUM]\x1b[0m", paint_two(Tint::Bold, Tint::Yellow, "[AXUM]"));
}

#[test]
fn a_pattern_that_cannot_be_followed_gives_no_line() {
    let record = msg(at(MORNING, 0), at(MORNING, 0));
    let config = LoggerConfig { time: "%Q".to_string(), ..LoggerConfig::default() };
    assert_eq!(None, record.write(&config, true));
    assert_eq!(None, record.write(&config, false));
    let config = LoggerConfig { name: "%".to_string(), ..LoggerConfig::default() };
    assert_eq!(None, config.update_log_file(&at(MORNING, 0)));
}

#[test]
fn a_moment_off_the_calendar_gives_no_line() {
    let record = msg(at(i64::MAX, 0), at(i64::MAX, 0));
    assert_eq!(None, record.write(&LoggerConfig::default(), true));
    assert_eq!(None, LoggerConfig::default().update_log_file(&at(i64::MIN, 0)));
}

#[test]
fn a_file_is_named_by_the_day() {
    let config = LoggerConfig::default();
    assert_eq!(Some("20240102.log".to_string()), config.update_log_file(&at(MORNING, 0)));
    let late = Stamp::new(MORNING, 0, 21 * 3600).unwrap();
    assert_eq!(Some("20240103.log".to_string()), config.update_log_file(&late));
}

#[test]
fn old_files_go_and_new_ones_stay() {
    let now = at(MORNING, 0);
    let file = |name: &str, age: i64| LogFile { name: name.to_string(), created: at(MORNING - age, 0) };
    let files = vec![
        file("week.log", 7 * DAY),
        file("almost.log", 7 * DAY - 1),
        file("fresh.log", 0),
        file("ancient.log", 400 * DAY),
        file("tomorrow.log", -DAY),
    ];
    let config = LoggerConfig { delete: Some(7), ..LoggerConfig::default() };
    assert_eq!(vec!["week.log".to_string(), "ancient.log".to_string()], config.delete_log_file(&files, &now));
    let config = LoggerConfig { delete: None, ..LoggerConfig::default() };
    assert!(config.delete_log_file(&files, &now).is_empty());
    let config = LoggerConfig { delete: Some(0), ..LoggerConfig::default() };
    assert_eq!(4, config.delete_log_file(&files, &now).len());
    let config = LoggerConfig { delete: Some(-1), ..LoggerConfig::default() };
    assert_eq!(5, config.delete_log_file(&files, &now).len());
    let config = LoggerConfig { delete: Some(7), ..LoggerConfig::default() };
    assert!(config.delete_log_file(&Vec::new(), &now).is_empty());
}

#[test]
fn the_consumer_opens_the_file_of_the_day_when_it_starts() {
    let (_, plan) = Logger::new(files_only(), &at(MORNING, 0));
    assert_eq!(vec![Action::Open("20240102.log".to_string())], plan);
    let config = LoggerConfig { delete: Some(3), ..files_only() };
    let (logger, plan) = Logger::new(config.clone(), &at(MORNING, 0));
    assert_eq!(vec![Action::Sweep, Action::Open("20240102.log".to_string())], plan);
    assert_eq!(&config, logger.config());
    let (_, plan) = Logger::new(LoggerConfig::default(), &at(MORNING, 0));
    assert!(plan.is_empty());
}

#[test]
fn the_file_changes_with_the_day() {
    let (mut logger, _) = Logger::new(files_only(), &at(MORNING, 0));
    let first = msg(at(MORNING + 1, 0), at(MORNING + 1, 0));
    let second = msg(at(MORNING + DAY, 0), at(MORNING + DAY, 0));
    let third = msg(at(MORNING + DAY + 5, 0), at(MORNING + DAY + 5, 0));
    assert_eq!(
        vec![Action::Append(plain_line("24-01-02 03:04:06", "  0.00ns"))],
        logger.record(&first)
    );
    assert_eq!(
        vec![
            Action::Open("20240103.log".to_string()),
            Action::Append(plain_line("24-01-03 03:04:05", "  0.00ns")),
        ],
        logger.record(&second)
    );
    assert_eq!(
        vec![Action::Append(plain_line("24-01-03 03:04:10", "  0.00ns"))],
        logger.record(&third)
    );
    assert_eq!(
        vec![
            Action::Open("20240102.log".to_string()),
            Action::Append(plain_line("24-01-02 03:04:06", "  0.00ns")),
        ],
        logger.record(&first)
    );
}

#[test]
fn the_day_is_the_local_day_of_the_request() {
    let (mut logger, _) = Logger::new(files_only(), &at(MORNING, 0));
    let begin = Stamp::new(MORNING, 0, 21 * 3600).unwrap();
    let plan = logger.record(&msg(begin, begin));
    assert_eq!(Action::Open("20240103.log".to_string()), plan[0]);
    let late = at(MORNING + DAY, 0);
    let plan = logger.record(&msg(late, late));
    assert_eq!(1, plan.len());
    let slow = msg(at(MORNING + DAY, 0), at(MORNING + 2 * DAY, 0));
    assert_eq!(1, logger.record(&slow).len());
}

#[test]
fn old_files_are_swept_after_every_line() {
    let config = LoggerConfig { delete: Some(7), ..files_only() };
    let (mut logger, _) = Logger::new(config, &at(MORNING, 0));
    let record = msg(at(MORNING, 0), at(MORNING, 0));
    let line = plain_line("24-01-02 03:04:05", "  0.00ns");
    assert_eq!(vec![Action::Append(line.clone()), Action::Sweep], logger.record(&record));
    assert_eq!(vec![Action::Append(line), Action::Sweep], logger.record(&record));
}

#[test]
fn the_console_comes_before_the_file() {
    let config = LoggerConfig { file: true, ..LoggerConfig::default() };
    let (mut logger, _) = Logger::new(config.clone(), &at(MORNING, 0));
    let record = msg(at(MORNING + DAY, 0), at(MORNING + DAY, 0));
    let plan = logger.record(&record);
    assert_eq!(
        vec![
            Action::Print(record.write(&config, false).unwrap()),
            Action::Open("20240103.log".to_string()),
            Action::Append(record.write(&config, true).unwrap()),
        ],
        plan
    );
    let quiet = LoggerConfig { stdout: false, file: false, ..LoggerConfig::default() };
    let (mut logger, _) = Logger::new(quiet, &at(MORNING, 0));
    assert!(logger.record(&record).is_empty());
}

#[test]
fn a_file_that_cannot_be_named_is_tried_again() {
    let config = LoggerConfig { name: "%Q".to_string(), ..files_only() };
    let (mut logger, plan) = Logger::new(config, &at(MORNING, 0));
    assert_eq!(vec![Action::Failed], plan);
    let record = msg(at(MORNING, 0), at(MORNING, 0));
    assert_eq!(vec![Action::Failed], logger.record(&record));
    assert_eq!(vec![Action::Failed], logger.record(&record));
    let config = LoggerConfig { time: "%Q".to_string(), delete: Some(1), ..files_only() };
    let (mut logger, _) = Logger::new(config, &at(MORNING, 0));
    assert_eq!(vec![Action::Failed, Action::Sweep], logger.record(&record));
    let config = LoggerConfig { time: "%Q".to_string(), ..LoggerConfig::default() };
    let (mut logger, _) = Logger::new(config, &at(MORNING, 0));
    assert_eq!(vec![Action::Failed], logger.record(&record));
}

#[test]
fn every_record_is_written_once_and_in_order() {
    let config = LoggerConfig { color: false, file: true, ..LoggerConfig::default() };
    let (mut logger, _) = Logger::new(config.clone(), &at(MORNING, 0));
    let mut records = Vec::new();
    for i in 0..50u32 {
        let begin = at(MORNING + (i as i64) * 3000, i);
        let mut record = msg(begin, at(MORNING + (i as i64) * 3001, i));
        record.path = format!("/item/{i}");
        record.status = 200 + i as u16;
        record.ip = format!("10.0.0.{i}");
        records.push(record);
    }
    let plan = logger.record_all(&records);
    assert_eq!(records.len(), plan.len());
    let mut day = at(MORNING, 0).local_day();
    for (record, acts) in records.iter().zip(plan.iter()) {
        let line = record.write(&config, true).unwrap();
        assert!(line.contains(&format!(" {} ", record.status)));
        assert!(line.contains(&record.ip));
        assert!(line.ends_with(&format!("{}\n", record.path)));
        let mut expected = vec![Action::Print(line.clone())];
        if record.begin.local_day() != day {
            day = record.begin.local_day();
            expected.push(Action::Open(config.update_log_file(&record.begin).unwrap()));
        }
        expected.push(Action::Append(line));
        assert_eq!(&expected, acts);
    }
    let (mut again, _) = Logger::new(config, &at(MORNING, 0));
    let one_by_one: Vec<Vec<Action>> = records.iter().map(|r| again.record(r)).collect();
    assert_eq!(one_by_one, plan);
    assert_eq!(again, logger);
}

#[test]
fn the_producer_makes_the_record_of_a_request() {
    let service = LoggerService::new(());
    let mut req = Request::new("POST", "/a%20b/%E6%97%A5%E5%BF%97");
    req.peer = Some("10.1.2.3".to_string());
    let begin = at(MORNING, 5);
    let pending = service.enter(&req, begin);
    assert_eq!(begin, pending.begin);
    assert_eq!("POST", pending.method);
    assert_eq!("10.1.2.3", pending.ip);
    assert_eq!("/a b/日志", pending.path);
    let end = at(MORNING, 9);
    let record = service.leave(pending, &Response::new(201), end);
    assert_eq!(
        LogMsg {
            begin,
            end,
            method: "POST".to_string(),
            path: "/a b/日志".to_string(),
            status: 201,
            ip: "10.1.2.3".to_string(),
        },
        record
    );
}

#[test]
fn a_redirect_shows_its_target() {
    let service = LoggerService::new(());
    let mut req = Request::new("GET", "/old");
    req.peer = Some("10.1.2.3".to_string());
    let pending = service.enter(&req, at(MORNING, 0));
    let mut res = Response::new(302);
    res.location = Some(b"/new%20place?x=%ff".to_vec());
    let record = service.leave(pending, &res, at(MORNING, 0));
    assert_eq!("/old -> /new place?x=\u{fffd}", record.path);
    assert_eq!(302, record.status);
}

#[test]
fn a_path_is_decoded_leniently() {
    let service = LoggerService::new(());
    let mut req = Request::new("GET", "/100%/%zz/%41%e4");
    req.peer = Some(String::new());
    let pending = service.enter(&req, at(MORNING, 0));
    assert_eq!("/100%/%zz/A\u{fffd}", pending.path);
    assert_eq!("", pending.ip);
}

#[test]
fn a_whole_call_reads_the_clock_for_the_request_and_for_the_response() {
    let order = std::cell::RefCell::new(Vec::new());
    let came = |req: &Request| {
        order.borrow_mut().push(format!("came {}", req.path));
        at(MORNING, 0)
    };
    let went = |res: &Response| {
        order.borrow_mut().push(format!("went {}", res.status));
        at(MORNING + 1, 0)
    };
    let service = LoggerService::new(|req: Request| -> Result<Response, String> {
        order.borrow_mut().push("handler".to_string());
        let mut res = Response::new(if req.path == "/a%20b" { 307 } else { 500 });
        res.location = Some(b"/c%20d".to_vec());
        Ok(res)
    });
    let mut req = Request::new("PUT", "/a%20b");
    req.peer = Some("10.1.2.3".to_string());
    let (res, record) = service.call(req, came, went).unwrap();
    assert_eq!(307, res.status);
    assert_eq!(Some(b"/c%20d".to_vec()), res.location);
    assert_eq!(
        vec!["came /a%20b".to_string(), "handler".to_string(), "went 307".to_string()],
        *order.borrow()
    );
    assert_eq!(
        LogMsg {
            begin: at(MORNING, 0),
            end: at(MORNING + 1, 0),
            method: "PUT".to_string(),
            path: "/a b -> /c d".to_string(),
            status: 307,
            ip: "10.1.2.3".to_string(),
        },
        record
    );
}

#[test]
fn a_failing_handler_leaves_no_record() {
    let reads = std::cell::Cell::new(0);
    let came = |_req: &Request| {
        reads.set(reads.get() + 1);
        at(MORNING, 0)
    };
    let went = |_res: &Response| {
        reads.set(reads.get() + 10);
        at(MORNING + 1, 0)
    };
    let service =
        LoggerService::new(|req: Request| -> Result<Response, String> { Err(format!("down at {}", req.path)) });
    let mut req = Request::new("GET", "/x");
    req.peer = Some("10.1.2.3".to_string());
    assert_eq!(Err("down at /x".to_string()), service.call(req, came, went));
    assert_eq!(1, reads.get());
}

#[test]
fn the_ends_of_the_calendar_are_written_or_left_out() {
    let config = LoggerConfig { time: "%Y-%m-%d %H:%M:%S %z %s".to_string(), ..LoggerConfig::default() };
    for secs in [8_210_266_876_799i64, -8_334_601_228_800] {
        for offset in [-86_399, 0, 86_399] {
            for step in [-1i64, 0, 1] {
                let moment = Stamp::new(secs + step, 999_999_999, offset).unwrap();
                let record = msg(moment, moment);
                let line = record.write(&config, true);
                let name = config.update_log_file(&moment);
                assert_eq!(line.is_some(), name.is_some());
                if let Some(line) = line {
                    assert!(line.starts_with('['), "{line}");
                }
            }
        }
    }
}

#[test]
fn a_compact_line_shows_the_time_taken_in_milliseconds() {
    let record = msg(at(MORNING - 1, 998_500_000), at(MORNING, 0));
    assert_eq!(
        Some("[2024-01-02 03:04:05] [AXUM] | 200 |      1ms |       127.0.0.1 | GET    /a b \n".to_string()),
        record.file_out()
    );
    let expected = [
        "[\x1b[38;2;127;132;142m2024-01-02 03:04:05\x1b[0m] ",
        "\x1b[1;33m[AXUM]\x1b[0m |",
        "\x1b[42m 200 \x1b[0m| ",
        "     1ms | ",
        "\x1b[33m127.0.0.1      \x1b[0m |",
        "\x1b[44m GET    \x1b[0m /a b \n",
    ];
    assert_eq!(Some(expected.join("")), record.stdout());
}

#[test]
fn a_compact_line_keeps_the_sign_of_the_time_taken() {
    let took = |begin: Stamp, end: Stamp| {
        let line = msg(begin, end).file_out().unwrap();
        line.split(" | ").nth(2).unwrap().to_string()
    };
    assert_eq!("     0ms", took(at(MORNING, 0), at(MORNING, 999_999)));
    assert_eq!("     0ms", took(at(MORNING, 999_999), at(MORNING, 0)));
    assert_eq!("    -2ms", took(at(MORNING, 2_500_000), at(MORNING, 0)));
    assert_eq!(" -1000ms", took(at(MORNING + 1, 0), at(MORNING, 0)));
    assert_eq!("  1500ms", took(at(MORNING, 0), at(MORNING + 1, 500_000_000)));
    assert_eq!("1234567ms", took(at(MORNING, 0), at(MORNING + 1234, 567_000_000)));
    assert_eq!("-86400000ms", took(at(MORNING + DAY, 0), at(MORNING, 0)));
}

#[test]
fn a_compact_line_colours_the_method_by_its_kind() {
    let shown = |method: &str| {
        let mut record = msg(at(MORNING, 0), at(MORNING, 0));
        record.method = method.to_string();
        record.status = 404;
        let line = record.stdout().unwrap();
        line.split(" |").nth(3).unwrap().to_string()
    };
    assert_eq!("\x1b[44m GET    \x1b[0m /a b \n", shown("GET"));
    assert_eq!("\x1b[44m POST   \x1b[0m /a b \n", shown("POST"));
    assert_eq!("\x1b[41m DELETE \x1b[0m /a b \n", shown("DELETE"));
    assert_eq!("\x1b[43m PUT    \x1b[0m /a b \n", shown("PUT"));
    assert_eq!("\x1b[43m OPTIONS \x1b[0m /a b \n", shown("OPTIONS"));
}

#[test]
fn a_compact_line_has_none_for_a_time_off_the_calendar() {
    let record = msg(at(0, 0), at(i64::MAX, 0));
    assert_eq!(None, record.stdout());
    assert_eq!(None, record.file_out());
    let record = msg(at(i64::MIN, 0), at(0, 0));
    assert!(record.file_out().unwrap().contains(" | 9223372036854775808000ms | "));
}
