//! The sidecar's settings, the record of one request, and the line that a
//! record is written as.

use crate::color::{paint_one, paint_two, painted, painted_both, Tint};
use crate::logger::stamp::{Stamp, NANOS_PER_SEC};
use crate::text::{
    decimal, padded_end, padded_start, push_decimal, push_padded_end, push_padded_start, same_text,
    signed_decimal, signed_text, texts,
};
use std::fmt::Write;
use vstd::prelude::*;
use vstd::string::StringExecFns;

verus! {

/// The text of a point in time under a pattern, with local time ahead of
/// universal time by `offset` seconds; `None` where the point lies outside
/// the calendar or the pattern cannot be followed.
pub uninterp spec fn rendered(secs: i64, nanos: u32, offset: i32, pattern: Seq<char>) -> Option<
    Seq<char>,
>;

/// The text of a span of time, right-aligned in eight characters and with
/// two decimal places in the unit that suits it.
pub uninterp spec fn elapsed(secs: u64, nanos: u32) -> Seq<char>;

/// `chrono::DateTime::format` on the moment that `DateTime::from_timestamp`
/// makes of seconds and nanoseconds, moved by `DateTime::with_timezone` to
/// the zone that `FixedOffset::east_opt` makes of the offset. The text
/// depends on the four arguments alone. A pattern that the formatter gives
/// up on yields none.
#[verifier::external_body]
fn render(secs: i64, nanos: u32, offset: i32, pattern: &str) -> (text: Option<String>)
    ensures
        match text {
            Some(t) => rendered(secs, nanos, offset, pattern@) == Some(t@),
            None => rendered(secs, nanos, offset, pattern@) is None,
        },
{
    let moment = chrono::DateTime::from_timestamp(secs, nanos)?;
    let zone = chrono::FixedOffset::east_opt(offset)?;
    let mut text = String::new();
    write!(text, "{}", moment.with_timezone(&zone).format(pattern)).ok()?;
    Some(text)
}

/// The `Debug` form of `std::time::Duration`, with a width of eight and a
/// precision of two. The text depends on the two arguments alone.
#[verifier::external_body]
fn elapsed_text(secs: u64, nanos: u32) -> (text: String)
    requires
        nanos < NANOS_PER_SEC,
    ensures
        text@ == elapsed(secs, nanos),
{
    format!("{:>8.2?}", std::time::Duration::new(secs, nanos))
}

/// The settings of the sidecar.
#[derive(Debug, Clone, PartialEq, Eq)]
pub struct LoggerConfig {
    /// The directory that log files are kept in.
    pub path: String,
    /// The pattern that a day's file is named by.
    pub name: String,
    /// The pattern that a line's time is written by.
    pub time: String,
    /// The tag that every line carries.
    pub logo: String,
    /// Whether lines go to a file.
    pub file: bool,
    /// Whether lines on the console are coloured.
    pub color: bool,
    /// Whether lines go to the console.
    pub stdout: bool,
    /// After how many days a log file goes, if ever.
    pub delete: Option<i64>,
}

impl Default for LoggerConfig {
    fn default() -> (config: Self)
        ensures
            config.path@ == "logs"@,
            config.name@ == "%Y%m%d.log"@,
            config.time@ == "%y-%m-%d %H:%M:%S"@,
            config.logo@ == "[AXUM]"@,
            !config.file,
            config.color,
            config.stdout,
            config.delete is None,
    {
        Self {
            path: String::from_str("logs"),
            name: String::from_str("%Y%m%d.log"),
            time: String::from_str("%y-%m-%d %H:%M:%S"),
            logo: String::from_str("[AXUM]"),
            file: false,
            color: true,
            stdout: true,
            delete: None,
        }
    }
}

/// One log file of the directory: its name and when it was created.
#[derive(Debug, Clone, PartialEq, Eq)]
pub struct LogFile {
    pub name: String,
    pub created: Stamp,
}

/// The names of the files among `files` that are `days` whole days old or
/// older at `now`, in the order of `files`.
pub open spec fn outdated(files: Seq<LogFile>, now: Stamp, days: i64) -> Seq<Seq<char>>
    decreases files.len(),
{
    if files.len() == 0 {
        Seq::empty()
    } else if now.days_since(files.last().created) >= days {
        outdated(files.drop_last(), now, days).push(files.last().name@)
    } else {
        outdated(files.drop_last(), now, days)
    }
}

/// A file is to go exactly when it has reached the age: every name among
/// the outdated is that of a file that is `days` whole days old or older,
/// and every such file is named.
pub proof fn lemma_outdated_are_old(files: Seq<LogFile>, now: Stamp, days: i64)
    ensures
        forall|name: Seq<char>| #[trigger]
            outdated(files, now, days).contains(name) <==> exists|i: int|
                0 <= i < files.len() && (#[trigger] files[i]).name@ == name && now.days_since(
                    files[i].created,
                ) >= days,
    decreases files.len(),
{
    if files.len() > 0 {
        let rest = files.drop_last();
        let last = files.last();
        lemma_outdated_are_old(rest, now, days);
        assert forall|name: Seq<char>| #[trigger]
            outdated(files, now, days).contains(name) <==> exists|i: int|
                0 <= i < files.len() && (#[trigger] files[i]).name@ == name && now.days_since(
                    files[i].created,
                ) >= days by {
            let old_enough = now.days_since(last.created) >= days;
            if outdated(files, now, days).contains(name) {
                if old_enough && name == last.name@ {
                    assert(files[files.len() - 1] == last);
                } else {
                    if old_enough {
                        let k = choose|k: int|
                            0 <= k < outdated(files, now, days).len() && outdated(
                                files,
                                now,
                                days,
                            )[k] == name;
                        assert(k < outdated(rest, now, days).len());
                        assert(outdated(rest, now, days)[k] == name);
                    }
                    assert(outdated(rest, now, days).contains(name));
                    let i = choose|i: int|
                        0 <= i < rest.len() && (#[trigger] rest[i]).name@ == name
                            && now.days_since(rest[i].created) >= days;
                    assert(files[i] == rest[i]);
                }
            }
            if exists|i: int|
                0 <= i < files.len() && (#[trigger] files[i]).name@ == name && now.days_since(
                    files[i].created,
                ) >= days {
                let i = choose|i: int|
                    0 <= i < files.len() && (#[trigger] files[i]).name@ == name
                        && now.days_since(files[i].created) >= days;
                if i == files.len() - 1 {
                    let all = outdated(files, now, days);
                    assert(all[all.len() - 1] == name);
                } else {
                    assert(rest[i] == files[i]);
                    assert(outdated(rest, now, days).contains(name));
                    let k = choose|k: int|
                        0 <= k < outdated(rest, now, days).len() && outdated(rest, now, days)[k]
                            == name;
                    assert(outdated(files, now, days)[k] == name);
                }
            }
        }
    }
}

impl LoggerConfig {
    /// The name of the file that lines go to at `time`: the name pattern
    /// applied to that moment. There is none where the pattern cannot be
    /// followed.
    pub fn update_log_file(&self, time: &Stamp) -> (name: Option<String>)
        ensures
            match name {
                Some(n) => self.file_name(*time) == Some(n@),
                None => self.file_name(*time) is None,
            },
    {
        render(time.secs(), time.nanos(), time.offset(), self.name.as_str())
    }

    /// The name of the file that lines go to at `time`.
    pub open spec fn file_name(self, time: Stamp) -> Option<Seq<char>> {
        rendered(time.seconds(), time.nanoseconds(), time.ahead(), self.name@)
    }

    /// The files of the log directory that are to be deleted at `now`:
    /// those that have reached the age at which files go. None is, where
    /// no such age is set.
    pub fn delete_log_file(&self, files: &Vec<LogFile>, now: &Stamp) -> (gone: Vec<String>)
        ensures
            texts(gone@) == match self.delete {
                Some(days) => outdated(files@, *now, days),
                None => Seq::empty(),
            },
    {
        let mut gone: Vec<String> = Vec::new();
        if let Some(days) = self.delete {
            let mut i: usize = 0;
            while i < files.len()
                invariant
                    i <= files.len(),
                    texts(gone@) == outdated(files@.take(i as int), *now, days),
                decreases files.len() - i,
            {
                proof {
                    assert(files@.take(i + 1).drop_last() =~= files@.take(i as int));
                }
                if now.whole_days_since(&files[i].created) >= days {
                    gone.push(files[i].name.clone());
                    assert(texts(gone@) =~= outdated(files@.take(i as int), *now, days).push(
                        files@[i as int].name@,
                    ));
                }
                i += 1;
            }
            assert(files@.take(files.len() as int) =~= files@);
        } else {
            assert(texts(gone@) =~= Seq::empty());
        }
        gone
    }
}

/// The record of one finished request.
#[derive(Debug, Clone, PartialEq, Eq)]
pub struct LogMsg {
    /// When the request came in.
    pub begin: Stamp,
    /// When its response was there.
    pub end: Stamp,
    pub method: String,
    /// The path, decoded, and behind it the redirect target where the
    /// response names one.
    pub path: String,
    pub status: u16,
    /// The caller's address.
    pub ip: String,
}

/// What stands between the parts of a line.
pub open spec fn bar() -> Seq<char> {
    " │ "@
}

/// The style that a status is shown in on the console.
pub open spec fn status_tint(status: u16) -> Tint {
    if status / 100 == 2 {
        Tint::BgGreen
    } else if status / 100 == 3 {
        Tint::BgBlue
    } else if status / 100 == 4 || status / 100 == 5 {
        Tint::BgRed
    } else {
        Tint::BgYellow
    }
}

/// The style that a method is shown in on the console.
pub open spec fn method_tint(method: Seq<char>) -> Tint {
    if method == "GET"@ {
        Tint::BgGreen
    } else if method == "POST"@ {
        Tint::BgBlue
    } else if method == "PATCH"@ || method == "PUT"@ {
        Tint::BgYellow
    } else if method == "DELETE"@ {
        Tint::BgRed
    } else {
        Tint::BgPurple
    }
}

/// The style that a method is shown in on a compact line.
pub open spec fn compact_method_tint(method: Seq<char>) -> Tint {
    if method == "GET"@ || method == "POST"@ {
        Tint::BgBlue
    } else if method == "DELETE"@ {
        Tint::BgRed
    } else {
        Tint::BgYellow
    }
}

/// The style that a method is shown in on a compact line.
pub fn compact_tint_of_method(method: &str) -> (tint: Tint)
    ensures
        tint == compact_method_tint(method@),
{
    if same_text(method, "GET") || same_text(method, "POST") {
        Tint::BgBlue
    } else if same_text(method, "DELETE") {
        Tint::BgRed
    } else {
        Tint::BgYellow
    }
}

/// The pattern that the time of a compact line is written by.
pub open spec fn compact_pattern() -> Seq<char> {
    "%Y-%m-%d %H:%M:%S"@
}

/// The tag of a compact line.
pub open spec fn compact_tag() -> Seq<char> {
    "[AXUM]"@
}

/// The colour of the time on the console.
pub open spec fn time_tint() -> Tint {
    Tint::Color(127, 132, 142)
}

/// The style that a status is shown in on the console.
pub fn tint_of_status(status: u16) -> (tint: Tint)
    ensures
        tint == status_tint(status),
{
    let class = status / 100;
    if class == 2 {
        Tint::BgGreen
    } else if class == 3 {
        Tint::BgBlue
    } else if class == 4 || class == 5 {
        Tint::BgRed
    } else {
        Tint::BgYellow
    }
}

/// The style that a method is shown in on the console.
pub fn tint_of_method(method: &str) -> (tint: Tint)
    ensures
        tint == method_tint(method@),
{
    if same_text(method, "GET") {
        Tint::BgGreen
    } else if same_text(method, "POST") {
        Tint::BgBlue
    } else if same_text(method, "PATCH") || same_text(method, "PUT") {
        Tint::BgYellow
    } else if same_text(method, "DELETE") {
        Tint::BgRed
    } else {
        Tint::BgPurple
    }
}

impl LogMsg {
    /// How long the request took.
    pub open spec fn took(self) -> Seq<char> {
        elapsed(self.end.since(self.begin).0, self.end.since(self.begin).1)
    }

    /// The line without colours, given the text of its time: the time in
    /// brackets, the tag, the status, the time taken, the caller's address
    /// at the right of fifteen characters, the method at the left of six,
    /// and the path.
    pub open spec fn plain_text(self, config: LoggerConfig, time: Seq<char>) -> Seq<char> {
        "["@ + time + "] "@ + config.logo@ + bar() + decimal(self.status as nat) + bar()
            + self.took() + bar() + padded_start(self.ip@, 15) + bar() + padded_end(
            self.method@,
            6,
        ) + " "@ + self.path@ + "\n"@
    }

    /// The line in colours, given the text of its time: as the plain line,
    /// with the time in grey, the tag in bold yellow, the status and the
    /// method on the colour of their kind, and the address in yellow at the
    /// left of fifteen characters.
    pub open spec fn colored_text(self, config: LoggerConfig, time: Seq<char>) -> Seq<char> {
        "["@ + painted(time_tint(), time) + "] "@ + painted_both(
            Tint::Bold,
            Tint::Yellow,
            config.logo@,
        ) + bar() + painted(
            status_tint(self.status),
            " "@ + decimal(self.status as nat) + " "@,
        ) + bar() + self.took() + bar() + painted(Tint::Yellow, padded_end(self.ip@, 15)) + bar()
            + painted(method_tint(self.method@), " "@ + padded_end(self.method@, 6) + " "@) + " "@
            + self.path@ + "\n"@
    }

    /// The line that the record is written as. On the console, with
    /// colours switched on, it is the coloured line with the time at which
    /// the response was there. Everywhere else it is the plain line with
    /// the time at which the request came in. There is no line where the
    /// time pattern cannot be followed.
    pub open spec fn line(self, config: LoggerConfig, is_file: bool) -> Option<Seq<char>> {
        if config.color && !is_file {
            match rendered(
                self.end.seconds(),
                self.end.nanoseconds(),
                self.end.ahead(),
                config.time@,
            ) {
                Some(time) => Some(self.colored_text(config, time)),
                None => None,
            }
        } else {
            match rendered(
                self.begin.seconds(),
                self.begin.nanoseconds(),
                self.begin.ahead(),
                config.time@,
            ) {
                Some(time) => Some(self.plain_text(config, time)),
                None => None,
            }
        }
    }

    fn plain(&self, config: &LoggerConfig, time: &str) -> (text: String)
        ensures
            text@ == self.plain_text(*config, time@),
    {
        let lapse = self.end.elapsed_since(&self.begin);
        let took = elapsed_text(lapse.0, lapse.1);
        let mut text = String::from_str("[");
        text.append(time);
        text.append("] ");
        text.append(config.logo.as_str());
        text.append(" │ ");
        push_decimal(&mut text, self.status as u64);
        text.append(" │ ");
        text.append(took.as_str());
        text.append(" │ ");
        push_padded_start(&mut text, self.ip.as_str(), 15);
        text.append(" │ ");
        push_padded_end(&mut text, self.method.as_str(), 6);
        text.append(" ");
        text.append(self.path.as_str());
        text.append("\n");
        assert(text@ =~= self.plain_text(*config, time@));
        text
    }

    fn colored(&self, config: &LoggerConfig, time: &str) -> (text: String)
        ensures
            text@ == self.colored_text(*config, time@),
    {
        let lapse = self.end.elapsed_since(&self.begin);
        let took = elapsed_text(lapse.0, lapse.1);
        let mut status = String::from_str(" ");
        push_decimal(&mut status, self.status as u64);
        status.append(" ");
        let mut ip = String::new();
        push_padded_end(&mut ip, self.ip.as_str(), 15);
        let mut method = String::from_str(" ");
        push_padded_end(&mut method, self.method.as_str(), 6);
        method.append(" ");
        proof {
            assert(ip@ =~= padded_end(self.ip@, 15));
            assert(status@ =~= " "@ + decimal(self.status as nat) + " "@);
            assert(method@ =~= " "@ + padded_end(self.method@, 6) + " "@);
        }
        let mut text = String::from_str("[");
        text.append(paint_one(Tint::Color(127, 132, 142), time).as_str());
        text.append("] ");
        text.append(paint_two(Tint::Bold, Tint::Yellow, config.logo.as_str()).as_str());
        text.append(" │ ");
        text.append(paint_one(tint_of_status(self.status), status.as_str()).as_str());
        text.append(" │ ");
        text.append(took.as_str());
        text.append(" │ ");
        text.append(paint_one(Tint::Yellow, ip.as_str()).as_str());
        text.append(" │ ");
        text.append(paint_one(tint_of_method(self.method.as_str()), method.as_str()).as_str());
        text.append(" ");
        text.append(self.path.as_str());
        text.append("\n");
        assert(text@ =~= self.colored_text(*config, time@));
        text
    }

    /// The compact line for the console: the time at which the response
    /// was there, in grey, the tag in bold yellow, the status on the
    /// colour of its kind, the time taken in whole milliseconds at the
    /// right of six characters, the caller's address in yellow at the left
    /// of fifteen, the method on its colour, and the path. There is none
    /// for a time that lies off the calendar.
    pub open spec fn console_line(self) -> Option<Seq<char>> {
        match self.compact_time() {
            Some(time) => Some(
                "["@ + painted(time_tint(), time) + "] "@ + painted_both(
                    Tint::Bold,
                    Tint::Yellow,
                    compact_tag(),
                ) + " |"@ + painted(
                    status_tint(self.status),
                    " "@ + decimal(self.status as nat) + " "@,
                ) + "| "@ + self.compact_took() + "ms | "@ + painted(
                    Tint::Yellow,
                    padded_end(self.ip@, 15),
                ) + " |"@ + painted(
                    compact_method_tint(self.method@),
                    " "@ + padded_end(self.method@, 6) + " "@,
                ) + " "@ + self.path@ + " \n"@,
            ),
            None => None,
        }
    }

    /// The compact line for a file: as the one for the console, without
    /// colours, and with the address at the right of its fifteen
    /// characters.
    pub open spec fn file_line(self) -> Option<Seq<char>> {
        match self.compact_time() {
            Some(time) => Some(
                "["@ + time + "] "@ + compact_tag() + " | "@ + decimal(self.status as nat) + " | "@
                    + self.compact_took() + "ms | "@ + padded_start(self.ip@, 15) + " | "@
                    + padded_end(self.method@, 6) + " "@ + self.path@ + " \n"@,
            ),
            None => None,
        }
    }

    /// The time of a compact line: that at which the response was there,
    /// by year, month and day and by hour, minute and second.
    pub open spec fn compact_time(self) -> Option<Seq<char>> {
        rendered(self.end.seconds(), self.end.nanoseconds(), self.end.ahead(), compact_pattern())
    }

    /// The time taken in whole milliseconds, at the right of six
    /// characters.
    pub open spec fn compact_took(self) -> Seq<char> {
        padded_start(signed_decimal(self.end.millis_since(self.begin)), 6)
    }

    fn took_millis(&self) -> (text: String)
        ensures
            text@ == self.compact_took(),
    {
        let millis = signed_text(self.end.whole_millis_since(&self.begin));
        let mut text = String::new();
        push_padded_start(&mut text, millis.as_str(), 6);
        assert(text@ =~= self.compact_took());
        text
    }

    /// The compact line for the console.
    pub fn stdout(&self) -> (text: Option<String>)
        ensures
            match text {
                Some(t) => self.console_line() == Some(t@),
                None => self.console_line() is None,
            },
    {
        let time = match render(
            self.end.secs(),
            self.end.nanos(),
            self.end.offset(),
            "%Y-%m-%d %H:%M:%S",
        ) {
            Some(time) => time,
            None => return None,
        };
        let took = self.took_millis();
        let mut status = String::from_str(" ");
        push_decimal(&mut status, self.status as u64);
        status.append(" ");
        let mut ip = String::new();
        push_padded_end(&mut ip, self.ip.as_str(), 15);
        let mut method = String::from_str(" ");
        push_padded_end(&mut method, self.method.as_str(), 6);
        method.append(" ");
        proof {
            assert(ip@ =~= padded_end(self.ip@, 15));
            assert(status@ =~= " "@ + decimal(self.status as nat) + " "@);
            assert(method@ =~= " "@ + padded_end(self.method@, 6) + " "@);
        }
        let mut text = String::from_str("[");
        text.append(paint_one(Tint::Color(127, 132, 142), time.as_str()).as_str());
        text.append("] ");
        text.append(paint_two(Tint::Bold, Tint::Yellow, "[AXUM]").as_str());
        text.append(" |");
        text.append(paint_one(tint_of_status(self.status), status.as_str()).as_str());
        text.append("| ");
        text.append(took.as_str());
        text.append("ms | ");
        text.append(paint_one(Tint::Yellow, ip.as_str()).as_str());
        text.append(" |");
        text.append(paint_one(compact_tint_of_method(self.method.as_str()), method.as_str()).as_str());
        text.append(" ");
        text.append(self.path.as_str());
        text.append(" \n");
        assert(text@ =~= self.console_line()->0);
        Some(text)
    }

    /// The compact line for a file.
    pub fn file_out(&self) -> (text: Option<String>)
        ensures
            match text {
                Some(t) => self.file_line() == Some(t@),
                None => self.file_line() is None,
            },
    {
        let time = match render(
            self.end.secs(),
            self.end.nanos(),
            self.end.offset(),
            "%Y-%m-%d %H:%M:%S",
        ) {
            Some(time) => time,
            None => return None,
        };
        let took = self.took_millis();
        let mut text = String::from_str("[");
        text.append(time.as_str());
        text.append("] ");
        text.append("[AXUM]");
        text.append(" | ");
        push_decimal(&mut text, self.status as u64);
        text.append(" | ");
        text.append(took.as_str());
        text.append("ms | ");
        push_padded_start(&mut text, self.ip.as_str(), 15);
        text.append(" | ");
        push_padded_end(&mut text, self.method.as_str(), 6);
        text.append(" ");
        text.append(self.path.as_str());
        text.append(" \n");
        assert(text@ =~= self.file_line()->0);
        Some(text)
    }

    /// The line that the record is written as, for the console or for a
    /// file.
    pub fn write(&self, config: &LoggerConfig, is_file: bool) -> (text: Option<String>)
        ensures
            match text {
                Some(t) => self.line(*config, is_file) == Some(t@),
                None => self.line(*config, is_file) is None,
            },
    {
        if config.color && !is_file {
            match render(
                self.end.secs(),
                self.end.nanos(),
                self.end.offset(),
                config.time.as_str(),
            ) {
                Some(time) => Some(self.colored(config, time.as_str())),
                None => None,
            }
        } else {
            match render(
                self.begin.secs(),
                self.begin.nanos(),
                self.begin.offset(),
                config.time.as_str(),
            ) {
                Some(time) => Some(self.plain(config, time.as_str())),
                None => None,
            }
        }
    }
}

} // verus!
