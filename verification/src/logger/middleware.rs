//! The two ends of the sidecar. The producer sits in a request's way and
//! makes the record of it. The consumer takes records one by one, in the
//! order in which they were sent, and says what is to be written where.

use crate::http::{opt_bytes, Request, Response};
use crate::logger::config::{LogMsg, LoggerConfig};
use crate::logger::stamp::Stamp;
use vstd::prelude::*;
use vstd::string::StringExecFns;
use vstd::utf8::encode_utf8;

verus! {

/// The text of percent-encoded bytes once they are decoded.
pub uninterp spec fn unescaped(raw: Seq<u8>) -> Seq<char>;

/// `percent_encoding::percent_decode` and, on what it yields,
/// `PercentDecode::decode_utf8_lossy`. The text depends on the bytes alone.
#[verifier::external_body]
fn unescape(raw: &[u8]) -> (text: String)
    ensures
        text@ == unescaped(raw@),
{
    percent_encoding::percent_decode(raw).decode_utf8_lossy().to_string()
}

/// The producer around the handler `inner`.
#[derive(Clone)]
pub struct LoggerService<S> {
    pub inner: S,
}

/// What the producer keeps of a request while its handler runs.
#[derive(Debug, Clone, PartialEq, Eq)]
pub struct Pending {
    pub begin: Stamp,
    pub method: String,
    pub ip: String,
    pub path: String,
}

/// What stands between a path and the redirect target.
pub open spec fn arrow() -> Seq<char> {
    " -> "@
}

/// The path that a record shows: the request's path, decoded, and behind
/// it the redirect target, decoded, where the response names one.
pub open spec fn shown_path(path: Seq<char>, location: Option<Seq<u8>>) -> Seq<char> {
    match location {
        Some(target) => path + arrow() + unescaped(target),
        None => path,
    }
}

impl<S> LoggerService<S> {
    pub fn new(inner: S) -> (service: Self)
        ensures
            service.inner == inner,
    {
        Self { inner }
    }

    /// The first half of a call: notes when the request came in, its
    /// method, its caller and its decoded path. The caller's address must
    /// be known.
    pub fn enter(&self, req: &Request, begin: Stamp) -> (pending: Pending)
        requires
            req.peer is Some,
        ensures
            pending.begin == begin,
            pending.method@ == req.method@,
            pending.ip@ == req.peer->0@,
            pending.path@ == unescaped(encode_utf8(req.path@)),
    {
        let ip = match &req.peer {
            Some(ip) => ip.clone(),
            None => String::new(),
        };
        Pending {
            begin,
            method: req.method.clone(),
            ip,
            path: unescape(req.path.as_str().as_bytes()),
        }
    }

    /// Whether `msg` is the record of the request `req` that came in at
    /// `begin` and whose response `res` was there at `end`.
    pub open spec fn records(req: Request, begin: Stamp, res: Response, end: Stamp, msg: LogMsg) -> bool {
        &&& req.peer is Some
        &&& msg.begin == begin
        &&& msg.end == end
        &&& msg.status == res.status
        &&& msg.ip@ == req.peer->0@
        &&& msg.method@ == req.method@
        &&& msg.path@ == shown_path(unescaped(encode_utf8(req.path@)), opt_bytes(res.location))
    }

    /// Whether `out` is what a whole call may return for `req`, with the
    /// clock read through `came` when the request came in and through
    /// `went` when its response was there. Where the handler failed it is
    /// the handler's error, and no record is made. Otherwise it is the
    /// handler's response as it came, with the record of the call.
    pub open spec fn call_spec<E, C: Fn(&Request) -> Stamp, W: Fn(&Response) -> Stamp>(
        self,
        req: Request,
        came: C,
        went: W,
        out: Result<(Response, LogMsg), E>,
    ) -> bool where S: Fn(Request) -> Result<Response, E> {
        match out {
            Ok(done) => {
                &&& call_ensures(self.inner, (req,), Ok::<Response, E>(done.0))
                &&& exists|begin: Stamp, end: Stamp|
                    {
                        &&& call_ensures(came, (&req,), begin)
                        &&& call_ensures(went, (&done.0,), end)
                        &&& #[trigger] Self::records(req, begin, done.0, end, done.1)
                    }
            },
            Err(e) => call_ensures(self.inner, (req,), Err::<Response, E>(e)),
        }
    }

    /// One whole call, around a handler that answers at once: reads the
    /// clock for the request, hands the request on as it is, and reads the
    /// clock again for the response once it is there. A handler that fails
    /// has its error handed on, and no record is made.
    pub fn call<E, C: Fn(&Request) -> Stamp, W: Fn(&Response) -> Stamp>(
        &self,
        req: Request,
        came: C,
        went: W,
    ) -> (out: Result<(Response, LogMsg), E>) where S: Fn(Request) -> Result<Response, E>
        requires
            req.peer is Some,
            call_requires(came, (&req,)),
            forall|r: &Response| call_requires(went, (r,)),
            forall|r: Request| call_requires(self.inner, (r,)),
        ensures
            self.call_spec(req, came, went, out),
    {
        let begin = came(&req);
        let pending = self.enter(&req, begin);
        match (self.inner)(req) {
            Err(e) => Err(e),
            Ok(res) => {
                let end = went(&res);
                let msg = self.leave(pending, &res, end);
                assert(call_ensures(came, (&req,), begin));
                assert(call_ensures(went, (&res,), end));
                assert(Self::records(req, begin, res, end, msg));
                let done = (res, msg);
                assert(Self::records(req, begin, done.0, end, done.1));
                Ok(done)
            },
        }
    }

    /// The second half of a call: makes the record, with the status of the
    /// response and the time at which it was there.
    pub fn leave(&self, pending: Pending, res: &Response, end: Stamp) -> (msg: LogMsg)
        ensures
            msg.begin == pending.begin,
            msg.end == end,
            msg.status == res.status,
            msg.ip@ == pending.ip@,
            msg.method@ == pending.method@,
            msg.path@ == shown_path(pending.path@, opt_bytes(res.location)),
    {
        let mut path = pending.path;
        if let Some(target) = &res.location {
            path.append(" -> ");
            let shown = unescape(target.as_slice());
            path.append(shown.as_str());
        }
        LogMsg {
            begin: pending.begin,
            end,
            status: res.status,
            ip: pending.ip,
            method: pending.method,
            path,
        }
    }
}

/// One thing for the consumer's host to do. The host does them in the
/// order in which it gets them.
#[derive(Debug, Clone, PartialEq, Eq)]
pub enum Action {
    /// Write the line to the console.
    Print(String),
    /// A line could not be made, or a file could not be named.
    Failed,
    /// Close the open file, if there is one, and open the file of this name
    /// in the log directory for appending.
    Open(String),
    /// Append the line to the open file.
    Append(String),
    /// Delete the log files that are too old.
    Sweep,
}

/// An `Action` with its texts as character sequences.
pub enum Act {
    Print(Seq<char>),
    Failed,
    Open(Seq<char>),
    Append(Seq<char>),
    Sweep,
}

impl View for Action {
    type V = Act;

    open spec fn view(&self) -> Act {
        match self {
            Action::Print(line) => Act::Print(line@),
            Action::Failed => Act::Failed,
            Action::Open(name) => Act::Open(name@),
            Action::Append(line) => Act::Append(line@),
            Action::Sweep => Act::Sweep,
        }
    }
}

/// The actions of a list, each with its texts as character sequences.
pub open spec fn acts(list: Seq<Action>) -> Seq<Act> {
    list.map_values(|a: Action| a@)
}

/// What is done for the console: the line is printed, where the console
/// is switched on.
pub open spec fn console_acts(config: LoggerConfig, msg: LogMsg) -> Seq<Act> {
    if config.stdout {
        match msg.line(config, false) {
            Some(line) => seq![Act::Print(line)],
            None => seq![Act::Failed],
        }
    } else {
        Seq::empty()
    }
}

/// What is done to have the right file open: nothing where the open file
/// is the one of the record's day, and else the file of that day is opened
/// in its place.
pub open spec fn rotation_acts(config: LoggerConfig, day: Option<int>, msg: LogMsg) -> Seq<Act> {
    if day == Some(msg.begin.day()) {
        Seq::empty()
    } else {
        match config.file_name(msg.begin) {
            Some(name) => seq![Act::Open(name)],
            None => seq![Act::Failed],
        }
    }
}

/// The day of the file that is open once the record is dealt with.
pub open spec fn day_after(config: LoggerConfig, day: Option<int>, msg: LogMsg) -> Option<int> {
    if !config.file || day == Some(msg.begin.day()) {
        day
    } else if config.file_name(msg.begin) is Some {
        Some(msg.begin.day())
    } else {
        day
    }
}

/// What is done for the file once the right one is open: the line is
/// appended, and after every line the old files are swept where files go
/// at some age. Nothing is done while no file is open.
pub open spec fn write_acts(config: LoggerConfig, open: Option<int>, msg: LogMsg) -> Seq<Act> {
    if open is None {
        Seq::empty()
    } else {
        let line = match msg.line(config, true) {
            Some(line) => seq![Act::Append(line)],
            None => seq![Act::Failed],
        };
        if config.delete is Some {
            line.push(Act::Sweep)
        } else {
            line
        }
    }
}

/// All that is done for one record, in order: the console first, then the
/// change of file where the day has changed, then the line in the file.
pub open spec fn record_acts(config: LoggerConfig, day: Option<int>, msg: LogMsg) -> Seq<Act> {
    if config.file {
        console_acts(config, msg) + rotation_acts(config, day, msg) + write_acts(
            config,
            day_after(config, day, msg),
            msg,
        )
    } else {
        console_acts(config, msg)
    }
}

/// What is done when the consumer starts at `now`: where lines go to a
/// file, old files are swept and the file of the day is opened.
pub open spec fn start_acts(config: LoggerConfig, now: Stamp) -> Seq<Act> {
    if config.file {
        let sweep = if config.delete is Some {
            seq![Act::Sweep]
        } else {
            Seq::empty()
        };
        match config.file_name(now) {
            Some(name) => sweep.push(Act::Open(name)),
            None => sweep.push(Act::Failed),
        }
    } else {
        Seq::empty()
    }
}

/// The day of the file that is open once the consumer has started.
pub open spec fn start_day(config: LoggerConfig, now: Stamp) -> Option<int> {
    if config.file && config.file_name(now) is Some {
        Some(now.day())
    } else {
        None
    }
}

/// The day of the open file after a run of records.
pub open spec fn day_after_all(config: LoggerConfig, day: Option<int>, msgs: Seq<LogMsg>) -> Option<
    int,
>
    decreases msgs.len(),
{
    if msgs.len() == 0 {
        day
    } else {
        day_after(config, day_after_all(config, day, msgs.drop_last()), msgs.last())
    }
}

/// The consumer's own state: the settings and the day of the open file.
/// It has one owner, the task that drains the channel.
#[derive(Debug, Clone, PartialEq, Eq)]
pub struct Logger {
    config: LoggerConfig,
    day: Option<i64>,
}

impl Logger {
    /// The settings.
    pub closed spec fn settings(self) -> LoggerConfig {
        self.config
    }

    /// The day of the open file, where one is open.
    pub closed spec fn open_day(self) -> Option<int> {
        match self.day {
            Some(day) => Some(day as int),
            None => None,
        }
    }

    /// Starts the consumer at `now` and says what is to be done first.
    pub fn new(config: LoggerConfig, now: &Stamp) -> (started: (Self, Vec<Action>))
        ensures
            started.0.settings() == config,
            started.0.open_day() == start_day(config, *now),
            acts(started.1@) == start_acts(config, *now),
    {
        let mut plan: Vec<Action> = Vec::new();
        let mut day: Option<i64> = None;
        if config.file {
            if config.delete.is_some() {
                plan.push(Action::Sweep);
            }
            match config.update_log_file(now) {
                Some(name) => {
                    plan.push(Action::Open(name));
                    day = Some(now.local_day());
                },
                None => {
                    plan.push(Action::Failed);
                },
            }
        }
        assert(acts(plan@) =~= start_acts(config, *now));
        (Logger { config, day }, plan)
    }

    /// The settings.
    pub fn config(&self) -> (config: &LoggerConfig)
        ensures
            *config == self.settings(),
    {
        &self.config
    }

    /// Takes one record and says what is to be done for it.
    pub fn record(&mut self, msg: &LogMsg) -> (plan: Vec<Action>)
        ensures
            final(self).settings() == old(self).settings(),
            final(self).open_day() == day_after(old(self).settings(), old(self).open_day(), *msg),
            acts(plan@) == record_acts(old(self).settings(), old(self).open_day(), *msg),
    {
        let mut plan: Vec<Action> = Vec::new();
        if self.config.stdout {
            match msg.write(&self.config, false) {
                Some(line) => plan.push(Action::Print(line)),
                None => plan.push(Action::Failed),
            }
        }
        assert(acts(plan@) =~= console_acts(self.config, *msg));
        if self.config.file {
            let day = msg.begin.local_day();
            let same = match self.day {
                Some(open) => open == day,
                None => false,
            };
            if !same {
                match self.config.update_log_file(&msg.begin) {
                    Some(name) => {
                        plan.push(Action::Open(name));
                        self.day = Some(day);
                    },
                    None => plan.push(Action::Failed),
                }
            }
            assert(acts(plan@) =~= console_acts(self.config, *msg) + rotation_acts(
                self.config,
                old(self).open_day(),
                *msg,
            ));
            if self.day.is_some() {
                match msg.write(&self.config, true) {
                    Some(line) => plan.push(Action::Append(line)),
                    None => plan.push(Action::Failed),
                }
                if self.config.delete.is_some() {
                    plan.push(Action::Sweep);
                }
            }
            assert(acts(plan@) =~= record_acts(old(self).settings(), old(self).open_day(), *msg));
        }
        plan
    }

    /// Takes a run of records in the order in which they were sent, and
    /// says for each what is to be done: one list for every record, in the
    /// same order, each made of that record alone and of the day of the
    /// file that was open when its turn came.
    pub fn record_all(&mut self, msgs: &Vec<LogMsg>) -> (plan: Vec<Vec<Action>>)
        ensures
            final(self).settings() == old(self).settings(),
            final(self).open_day() == day_after_all(
                old(self).settings(),
                old(self).open_day(),
                msgs@,
            ),
            plan.len() == msgs.len(),
            forall|i: int|
                0 <= i < msgs.len() ==> acts((#[trigger] plan@[i])@) == record_acts(
                    old(self).settings(),
                    day_after_all(old(self).settings(), old(self).open_day(), msgs@.take(i)),
                    msgs@[i],
                ),
    {
        let mut plan: Vec<Vec<Action>> = Vec::new();
        let mut i: usize = 0;
        while i < msgs.len()
            invariant
                i <= msgs.len(),
                plan.len() == i,
                self.settings() == old(self).settings(),
                self.open_day() == day_after_all(
                    old(self).settings(),
                    old(self).open_day(),
                    msgs@.take(i as int),
                ),
                forall|k: int|
                    0 <= k < i ==> acts((#[trigger] plan@[k])@) == record_acts(
                        old(self).settings(),
                        day_after_all(old(self).settings(), old(self).open_day(), msgs@.take(k)),
                        msgs@[k],
                    ),
            decreases msgs.len() - i,
        {
            let one = self.record(&msgs[i]);
            plan.push(one);
            proof {
                assert(msgs@.take(i + 1).drop_last() =~= msgs@.take(i as int));
                assert(msgs@.take(i + 1).last() == msgs@[i as int]);
            }
            i += 1;
        }
        assert(msgs@.take(msgs.len() as int) =~= msgs@);
        plan
    }
}

/// The lines that a list of actions writes to the file.
pub open spec fn appended(plan: Seq<Act>) -> Seq<Seq<char>>
    decreases plan.len(),
{
    if plan.len() == 0 {
        Seq::empty()
    } else {
        match plan.last() {
            Act::Append(line) => appended(plan.drop_last()).push(line),
            _ => appended(plan.drop_last()),
        }
    }
}

/// A record whose day is not the day of the open file has the file of its
/// own day opened before its line is appended, whatever went to the console
/// before, and that day is the day of the open file from then on.
pub proof fn lemma_rotation_comes_first(config: LoggerConfig, day: Option<int>, msg: LogMsg)
    requires
        config.file,
        day != Some(msg.begin.day()),
        config.file_name(msg.begin) is Some,
        msg.line(config, true) is Some,
    ensures
        record_acts(config, day, msg) == console_acts(config, msg) + seq![
            Act::Open(config.file_name(msg.begin)->0),
            Act::Append(msg.line(config, true)->0),
        ] + if config.delete is Some {
            seq![Act::Sweep]
        } else {
            Seq::empty()
        },
        day_after(config, day, msg) == Some(msg.begin.day()),
{
    let open = seq![Act::Open(config.file_name(msg.begin)->0)];
    let line = seq![Act::Append(msg.line(config, true)->0)];
    let sweep = if config.delete is Some {
        seq![Act::Sweep]
    } else {
        Seq::<Act>::empty()
    };
    assert(rotation_acts(config, day, msg) == open);
    assert(write_acts(config, day_after(config, day, msg), msg) =~= line + sweep);
    assert(console_acts(config, msg) + open + (line + sweep) =~= console_acts(config, msg) + seq![
        Act::Open(config.file_name(msg.begin)->0),
        Act::Append(msg.line(config, true)->0),
    ] + sweep);
}

/// A record of the day of the open file has nothing opened: its line goes
/// to the file that is open.
pub proof fn lemma_same_day_keeps_file(config: LoggerConfig, day: Option<int>, msg: LogMsg)
    requires
        config.file,
        day == Some(msg.begin.day()),
    ensures
        forall|i: int|
            0 <= i < record_acts(config, day, msg).len() ==> !(#[trigger] record_acts(
                config,
                day,
                msg,
            )[i] is Open),
        day_after(config, day, msg) == day,
{
    assert(rotation_acts(config, day, msg) =~= Seq::<Act>::empty());
}

/// Every record leads to one line in the file and no more, and the line is
/// made of that record: with a file open, a record's line is the only thing
/// appended for it.
pub proof fn lemma_one_line_each(config: LoggerConfig, day: Option<int>, msg: LogMsg)
    requires
        config.file,
        day_after(config, day, msg) is Some,
        msg.line(config, true) is Some,
    ensures
        appended(record_acts(config, day, msg)) == seq![msg.line(config, true)->0],
{
    let console = console_acts(config, msg);
    let rotation = rotation_acts(config, day, msg);
    let write = write_acts(config, day_after(config, day, msg), msg);
    let line = msg.line(config, true)->0;
    lemma_nothing_appended(console);
    lemma_nothing_appended(rotation);
    lemma_appended_splits(console, rotation);
    assert(appended(seq![Act::Append(line)]) =~= seq![line]) by {
        assert(seq![Act::Append(line)].drop_last() =~= Seq::<Act>::empty());
        assert(appended(Seq::<Act>::empty()) =~= Seq::<Seq<char>>::empty());
        assert(seq![Act::Append(line)].last() == Act::Append(line));
    }
    if config.delete is Some {
        assert(write.drop_last() =~= seq![Act::Append(line)]);
    }
    lemma_appended_splits(console + rotation, write);
    assert(appended(write) =~= seq![line]);
    assert(appended(console + rotation) + appended(write) =~= seq![line]);
}

proof fn lemma_nothing_appended(plan: Seq<Act>)
    requires
        forall|i: int| 0 <= i < plan.len() ==> !(#[trigger] plan[i] is Append),
    ensures
        appended(plan) == Seq::<Seq<char>>::empty(),
    decreases plan.len(),
{
    if plan.len() > 0 {
        lemma_nothing_appended(plan.drop_last());
    }
}

proof fn lemma_appended_splits(a: Seq<Act>, b: Seq<Act>)
    ensures
        appended(a + b) == appended(a) + appended(b),
    decreases b.len(),
{
    if b.len() == 0 {
        assert(a + b =~= a);
        assert(appended(a) + appended(b) =~= appended(a));
    } else {
        assert((a + b).drop_last() =~= a + b.drop_last());
        lemma_appended_splits(a, b.drop_last());
        assert((a + b).last() == b.last());
        match b.last() {
            Act::Append(line) => {
                assert(appended(a + b) =~= appended(a) + appended(b));
            },
            _ => {},
        }
    }
}

/// All that is done for a run of records, in the order in which they were
/// sent, from the day `day` of the open file.
pub open spec fn run_acts(config: LoggerConfig, day: Option<int>, msgs: Seq<LogMsg>) -> Seq<Act>
    decreases msgs.len(),
{
    if msgs.len() == 0 {
        Seq::empty()
    } else {
        run_acts(config, day, msgs.drop_last()) + record_acts(
            config,
            day_after_all(config, day, msgs.drop_last()),
            msgs.last(),
        )
    }
}

/// The lines of a run of records for the file, in their order.
pub open spec fn file_lines(config: LoggerConfig, msgs: Seq<LogMsg>) -> Seq<Seq<char>> {
    Seq::new(msgs.len(), |i: int| msgs[i].line(config, true)->0)
}

/// With a file open, a run of records has one line appended for every
/// record and no other: as many lines as records, in the order of the
/// records, each the line of its own record.
pub proof fn lemma_run_writes_each_once(config: LoggerConfig, day: Option<int>, msgs: Seq<LogMsg>)
    requires
        config.file,
        day is Some,
        forall|i: int| 0 <= i < msgs.len() ==> (#[trigger] msgs[i]).line(config, true) is Some,
    ensures
        appended(run_acts(config, day, msgs)) == file_lines(config, msgs),
        day_after_all(config, day, msgs) is Some,
    decreases msgs.len(),
{
    if msgs.len() == 0 {
        assert(appended(run_acts(config, day, msgs)) =~= file_lines(config, msgs));
    } else {
        let rest = msgs.drop_last();
        let last = msgs.last();
        assert forall|i: int| 0 <= i < rest.len() implies (#[trigger] rest[i]).line(
            config,
            true,
        ) is Some by {
            assert(rest[i] == msgs[i]);
        }
        lemma_run_writes_each_once(config, day, rest);
        let before = day_after_all(config, day, rest);
        lemma_one_line_each(config, before, last);
        lemma_appended_splits(run_acts(config, day, rest), record_acts(config, before, last));
        assert(file_lines(config, rest).push(last.line(config, true)->0) =~= file_lines(
            config,
            msgs,
        ));
    }
}

/// The file that is open once a list of actions is done, given the one
/// that was open before.
pub open spec fn open_after(plan: Seq<Act>, open: Option<Seq<char>>) -> Option<Seq<char>>
    decreases plan.len(),
{
    if plan.len() == 0 {
        open
    } else {
        open_after(
            plan.drop_first(),
            match plan[0] {
                Act::Open(name) => Some(name),
                _ => open,
            },
        )
    }
}

/// What a list of actions writes where: every appended line with the name
/// of the file that is open when its turn comes, in the order of writing.
pub open spec fn written(plan: Seq<Act>, open: Option<Seq<char>>) -> Seq<(Seq<char>, Seq<char>)>
    decreases plan.len(),
{
    if plan.len() == 0 {
        Seq::empty()
    } else {
        match plan[0] {
            Act::Open(name) => written(plan.drop_first(), Some(name)),
            Act::Append(line) => match open {
                Some(name) => seq![(name, line)] + written(plan.drop_first(), open),
                None => written(plan.drop_first(), open),
            },
            _ => written(plan.drop_first(), open),
        }
    }
}

/// What two lists of actions write, one after the other, is what the first
/// writes and then what the second writes to the file that the first left
/// open.
pub proof fn lemma_written_splits(a: Seq<Act>, b: Seq<Act>, open: Option<Seq<char>>)
    ensures
        written(a + b, open) == written(a, open) + written(b, open_after(a, open)),
        open_after(a + b, open) == open_after(b, open_after(a, open)),
    decreases a.len(),
{
    if a.len() == 0 {
        assert(a + b =~= b);
        assert(written(a, open) + written(b, open) =~= written(b, open));
    } else {
        assert((a + b).drop_first() =~= a.drop_first() + b);
        assert((a + b)[0] == a[0]);
        let next = match a[0] {
            Act::Open(name) => Some(name),
            _ => open,
        };
        lemma_written_splits(a.drop_first(), b, next);
        match a[0] {
            Act::Append(line) => {
                lemma_written_splits(a.drop_first(), b, open);
                if open is Some {
                    assert(written(a + b, open) =~= written(a, open) + written(
                        b,
                        open_after(a, open),
                    ));
                }
            },
            _ => {},
        }
    }
}

proof fn lemma_console_writes_nothing(config: LoggerConfig, msg: LogMsg, open: Option<Seq<char>>)
    ensures
        written(console_acts(config, msg), open) == Seq::<(Seq<char>, Seq<char>)>::empty(),
        open_after(console_acts(config, msg), open) == open,
{
    let plan = console_acts(config, msg);
    if plan.len() > 0 {
        assert(plan.drop_first() =~= Seq::<Act>::empty());
        assert(written(plan.drop_first(), open) =~= Seq::<(Seq<char>, Seq<char>)>::empty());
        assert(open_after(plan.drop_first(), open) == open);
    }
}

/// The line of a record goes to the file of the record's day and to no
/// other: to the open file where that is the file of its day, and else to
/// the file named by the pattern at the record's time, which is opened
/// first and stays open. Nothing else is written for the record.
pub proof fn lemma_line_goes_to_the_file_of_its_day(
    config: LoggerConfig,
    day: Option<int>,
    open: Option<Seq<char>>,
    msg: LogMsg,
)
    requires
        config.file,
        msg.line(config, true) is Some,
        day == Some(msg.begin.day()) ==> open is Some,
        day != Some(msg.begin.day()) ==> config.file_name(msg.begin) is Some,
    ensures
        written(record_acts(config, day, msg), open) == seq![
            (
                if day == Some(msg.begin.day()) {
                    open->0
                } else {
                    config.file_name(msg.begin)->0
                },
                msg.line(config, true)->0,
            ),
        ],
        open_after(record_acts(config, day, msg), open) == Some(
            if day == Some(msg.begin.day()) {
                open->0
            } else {
                config.file_name(msg.begin)->0
            },
        ),
        day_after(config, day, msg) == Some(msg.begin.day()),
{
    let console = console_acts(config, msg);
    let rotation = rotation_acts(config, day, msg);
    let write = write_acts(config, day_after(config, day, msg), msg);
    let line = msg.line(config, true)->0;
    let target = if day == Some(msg.begin.day()) {
        open->0
    } else {
        config.file_name(msg.begin)->0
    };
    let none = Seq::<(Seq<char>, Seq<char>)>::empty();
    lemma_console_writes_nothing(config, msg, open);
    assert(written(rotation, open) == none && open_after(rotation, open) == Some(target)) by {
        if rotation.len() > 0 {
            assert(rotation[0] == Act::Open(target));
            assert(rotation.drop_first() =~= Seq::<Act>::empty());
            assert(written(rotation.drop_first(), Some(target)) =~= none);
            assert(open_after(rotation.drop_first(), Some(target)) == Some(target));
        }
    }
    assert(written(write, Some(target)) =~= seq![(target, line)] && open_after(write, Some(target))
        == Some(target)) by {
        assert(day_after(config, day, msg) == Some(msg.begin.day()));
        assert(write.len() > 0);
        assert(write[0] == Act::Append(line));
        let tail = write.drop_first();
        if config.delete is Some {
            assert(write =~= seq![Act::Append(line), Act::Sweep]);
            assert(tail =~= seq![Act::Sweep]);
            assert(tail[0] == Act::Sweep);
            assert(tail.drop_first() =~= Seq::<Act>::empty());
            assert(written(tail.drop_first(), Some(target)) =~= none);
            assert(open_after(tail.drop_first(), Some(target)) == Some(target));
            assert(written(tail, Some(target)) =~= none);
            assert(open_after(tail, Some(target)) == Some(target));
        } else {
            assert(write =~= seq![Act::Append(line)]);
            assert(tail =~= Seq::<Act>::empty());
            assert(written(tail, Some(target)) =~= none);
            assert(open_after(tail, Some(target)) == Some(target));
        }
        assert(written(write, Some(target)) =~= seq![(target, line)] + written(
            tail,
            Some(target),
        ));
        assert(open_after(write, Some(target)) == open_after(tail, Some(target)));
    }
    lemma_written_splits(console, rotation, open);
    lemma_written_splits(console + rotation, write, open);
    assert(written(console + rotation, open) =~= none);
    assert(none + seq![(target, line)] =~= seq![(target, line)]);
}

/// Where files go at some age, the old files are swept right after a
/// record's line is appended, as the last thing done for the record.
pub proof fn lemma_sweep_follows_line(config: LoggerConfig, day: Option<int>, msg: LogMsg)
    requires
        config.file,
        config.delete is Some,
        day_after(config, day, msg) is Some,
        msg.line(config, true) is Some,
    ensures
        record_acts(config, day, msg).len() >= 2,
        record_acts(config, day, msg).last() == Act::Sweep,
        record_acts(config, day, msg)[record_acts(config, day, msg).len() - 2] == Act::Append(
            msg.line(config, true)->0,
        ),
{
    let write = write_acts(config, day_after(config, day, msg), msg);
    assert(write =~= seq![Act::Append(msg.line(config, true)->0), Act::Sweep]);
}

} // verus!
