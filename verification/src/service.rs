//! A dev service as a state machine: its identity, its command line, its log
//! and the lifecycle that starting, stopping and polling its process drive.
//! The process itself is run by the caller, which reports each outcome here.
use vstd::prelude::*;
use vstd::string::*;
use crate::text::{
    occurs_at,
    chars_of, concat, contains, has_sub, i32_to_string, push_char, signed_decimal, str_eq,
    strs_view, trim_end_char, trim_end_char_spec,
};

verus! {

/// How many log lines a service keeps after `refresh`.
pub const MAX_LOG_LINES: usize = 500;

/// Lifecycle state of a service.
#[derive(Clone, Debug, PartialEq, Eq)]
pub enum Status {
    Stopped,
    Starting,
    Running,
    Stopping,
    Failed(String),
}

/// The mathematical value of a `Status`.
pub enum StatusView {
    Stopped,
    Starting,
    Running,
    Stopping,
    Failed(Seq<char>),
}

impl View for Status {
    type V = StatusView;

    open spec fn view(&self) -> StatusView {
        match self {
            Status::Stopped => StatusView::Stopped,
            Status::Starting => StatusView::Starting,
            Status::Running => StatusView::Running,
            Status::Stopping => StatusView::Stopping,
            Status::Failed(m) => StatusView::Failed(m@),
        }
    }
}

/// A process is attached or on its way: starting, running or stopping.
pub open spec fn is_active(s: StatusView) -> bool {
    s is Starting || s is Running || s is Stopping
}

impl Status {
    /// A copy with the same view.
    pub fn duplicate(&self) -> (r: Status)
        ensures
            r@ == self@,
    {
        match self {
            Status::Stopped => Status::Stopped,
            Status::Starting => Status::Starting,
            Status::Running => Status::Running,
            Status::Stopping => Status::Stopping,
            Status::Failed(m) => Status::Failed(m.clone()),
        }
    }

    /// Starting, running or stopping.
    pub fn is_active(&self) -> (r: bool)
        ensures
            r == is_active(self@),
    {
        match self {
            Status::Starting | Status::Running | Status::Stopping => true,
            _ => false,
        }
    }

    pub fn is_running(&self) -> (r: bool)
        ensures
            r == (self@ is Running),
    {
        match self {
            Status::Running => true,
            _ => false,
        }
    }

    pub fn is_starting(&self) -> (r: bool)
        ensures
            r == (self@ is Starting),
    {
        match self {
            Status::Starting => true,
            _ => false,
        }
    }

    pub fn is_stopping(&self) -> (r: bool)
        ensures
            r == (self@ is Stopping),
    {
        match self {
            Status::Stopping => true,
            _ => false,
        }
    }

    pub fn is_stopped(&self) -> (r: bool)
        ensures
            r == (self@ is Stopped),
    {
        match self {
            Status::Stopped => true,
            _ => false,
        }
    }
}

/// Whether two statuses have the same view.
pub fn status_eq(a: &Status, b: &Status) -> (r: bool)
    ensures
        r == (a@ == b@),
{
    match (a, b) {
        (Status::Stopped, Status::Stopped) => true,
        (Status::Starting, Status::Starting) => true,
        (Status::Running, Status::Running) => true,
        (Status::Stopping, Status::Stopping) => true,
        (Status::Failed(x), Status::Failed(y)) => str_eq(x.as_str(), y.as_str()),
        _ => false,
    }
}

pub open spec fn opt_view(o: Option<String>) -> Option<Seq<char>> {
    match o {
        Some(s) => Some(s@),
        None => None,
    }
}

/// The stable identifier of a service: `<dir>::<name>`, or the bare name
/// where there is no directory or it is empty.
pub open spec fn id_spec(name: Seq<char>, dir: Option<Seq<char>>) -> Seq<char> {
    match dir {
        Some(d) => if d.len() > 0 {
            d + "::"@ + name
        } else {
            name
        },
        None => name,
    }
}

pub fn compute_id(name: &str, dir: Option<&str>) -> (r: String)
    ensures
        r@ == id_spec(name@, match dir {
            Some(d) => Some(d@),
            None => None,
        }),
{
    match dir {
        Some(d) => {
            if d.unicode_len() > 0 {
                let mut s = d.to_owned();
                s.append("::");
                s.append(name);
                s
            } else {
                name.to_owned()
            }
        },
        None => name.to_owned(),
    }
}

/// `c` ends an ANSI escape sequence: an ASCII letter or `~`.
pub open spec fn ends_escape(c: char) -> bool {
    ('a' <= c && c <= 'z') || ('A' <= c && c <= 'Z') || c == '~'
}

/// `s` with ANSI escape sequences and carriage returns removed. An escape
/// sequence runs from ESC up to and including the first character that
/// ends it, or to the end of the text; `in_escape` says whether one is open.
pub open spec fn strip_ansi_from(s: Seq<char>, in_escape: bool) -> Seq<char>
    decreases s.len(),
{
    if s.len() == 0 {
        seq![]
    } else if in_escape {
        strip_ansi_from(s.drop_first(), !ends_escape(s[0]))
    } else if s[0] == '\x1b' {
        strip_ansi_from(s.drop_first(), true)
    } else if s[0] == '\r' {
        strip_ansi_from(s.drop_first(), false)
    } else {
        seq![s[0]] + strip_ansi_from(s.drop_first(), false)
    }
}

pub open spec fn strip_ansi_spec(s: Seq<char>) -> Seq<char> {
    strip_ansi_from(s, false)
}

pub fn strip_ansi(s: &str) -> (r: String)
    ensures
        r@ == strip_ansi_spec(s@),
{
    let v = chars_of(s);
    let n: usize = v.len();
    let mut out = String::new();
    let mut esc = false;
    let mut i: usize = 0;
    assert(v@.skip(0) =~= v@);
    while i < n
        invariant
            i <= n,
            n == v@.len(),
            out@ + strip_ansi_from(v@.skip(i as int), esc) == strip_ansi_spec(v@),
        decreases n - i,
    {
        let c = v[i];
        assert(v@.skip(i as int).drop_first() =~= v@.skip(i + 1));
        assert(v@.skip(i as int)[0] == c);
        if esc {
            esc = !(('a' <= c && c <= 'z') || ('A' <= c && c <= 'Z') || c == '~');
        } else if c == '\x1b' {
            esc = true;
        } else if c != '\r' {
            let ghost before = out@;
            push_char(&mut out, c);
            assert(before + (seq![c] + strip_ansi_from(v@.skip(i + 1), false)) =~= out@
                + strip_ansi_from(v@.skip(i + 1), false));
        }
        i += 1;
    }
    assert(out@ + Seq::<char>::empty() =~= out@);
    out
}

/// What `shlex::split` returns for a text: its POSIX-like tokens, or `None`
/// where the text is malformed (an unclosed quote, a trailing backslash).
pub uninterp spec fn shlex_split(s: Seq<char>) -> Option<Seq<Seq<char>>>;

/// `shlex::split`. The contract names its result.
#[verifier::external_body]
fn shlex_split_exec(s: &str) -> (r: Option<Vec<String>>)
    ensures
        match r {
            Some(v) => shlex_split(s@) == Some(strs_view(v@)),
            None => shlex_split(s@) is None,
        },
{
    shlex::split(s)
}

/// A command line as program and arguments: the first token and the rest,
/// or nothing at all where the text has no tokens or does not split.
pub open spec fn split_cmd_spec(cmd: Seq<char>) -> (Seq<char>, Seq<Seq<char>>) {
    match shlex_split(cmd) {
        Some(parts) => if parts.len() > 0 {
            (parts[0], parts.skip(1))
        } else {
            (seq![], seq![])
        },
        None => (seq![], seq![]),
    }
}

/// Splits a command line into program and arguments (POSIX-like quoting;
/// no shell syntax).
pub fn split_cmd(cmd: &str) -> (r: (String, Vec<String>))
    ensures
        (r.0@, strs_view(r.1@)) == split_cmd_spec(cmd@),
{
    match shlex_split_exec(cmd) {
        Some(parts) => {
            if parts.len() > 0 {
                let exe = parts[0].clone();
                let mut args: Vec<String> = Vec::new();
                let mut i: usize = 1;
                while i < parts.len()
                    invariant
                        1 <= i <= parts.len(),
                        strs_view(args@) == strs_view(parts@).subrange(1, i as int),
                    decreases parts.len() - i,
                {
                    let ghost before = args@;
                    let x = parts[i].clone();
                    args.push(x);
                    assert(args@ == before.push(x));
                    assert(strs_view(args@) =~= strs_view(before).push(x@));
                    assert(strs_view(args@) =~= strs_view(parts@).subrange(1, i + 1));
                    i += 1;
                }
                assert(strs_view(parts@).skip(1) =~= strs_view(parts@).subrange(1, parts.len() as int));
                (exe, args)
            } else {
                let r = (String::new(), Vec::new());
                assert(strs_view(r.1@) =~= Seq::<Seq<char>>::empty());
                r
            }
        },
        None => {
            let r = (String::new(), Vec::new());
            assert(strs_view(r.1@) =~= Seq::<Seq<char>>::empty());
            r
        },
    }
}

/// What the caller must spawn to start a service.
pub struct SpawnRequest {
    pub program: String,
    pub args: Vec<String>,
    pub dir: String,
}

/// Why spawning failed.
pub enum SpawnError {
    NotFound,
    PermissionDenied,
    Other(String),
}

/// What polling an attached process found.
pub enum ChildPoll {
    /// It is still running.
    Running,
    /// It exited, with its exit code, or `None` where a signal ended it.
    Exited(Option<i32>),
    /// Polling failed, with the error's text.
    Error(String),
}

/// The mathematical value of a `Service`.
pub struct ServiceView {
    pub id: Seq<char>,
    pub name: Seq<char>,
    pub executable: Seq<char>,
    pub args: Seq<Seq<char>>,
    pub dir: Option<Seq<char>>,
    pub url: Option<Seq<char>>,
    pub status: StatusView,
    pub log: Seq<Seq<char>>,
    pub stopping: bool,
    pub port_warn: bool,
    pub child: Option<u32>,
}

/// A dev service: a named command, run in the project root or in a
/// subdirectory of it, with its log and its lifecycle state.
pub struct Service {
    pub id: String,
    pub name: String,
    pub executable: String,
    pub args: Vec<String>,
    pub dir: Option<String>,
    pub url: Option<String>,
    pub status: Status,
    pub log: Vec<String>,
    /// A background stop was asked for the attached process.
    pub stopping: bool,
    /// A port conflict was seen in the log since the last start.
    pub port_warn_emitted: bool,
    /// The process ID of the attached process.
    pub child: Option<u32>,
}

impl View for Service {
    type V = ServiceView;

    open spec fn view(&self) -> ServiceView {
        ServiceView {
            id: self.id@,
            name: self.name@,
            executable: self.executable@,
            args: strs_view(self.args@),
            dir: opt_view(self.dir),
            url: opt_view(self.url),
            status: self.status@,
            log: strs_view(self.log@),
            stopping: self.stopping,
            port_warn: self.port_warn_emitted,
            child: self.child,
        }
    }
}

/// A service as detection or configuration creates it: stopped, with
/// nothing attached and the placeholder log line.
pub open spec fn fresh_service(name: Seq<char>, cmd: Seq<char>, dir: Option<Seq<char>>) -> ServiceView {
    ServiceView {
        id: id_spec(name, dir),
        name,
        executable: split_cmd_spec(cmd).0,
        args: split_cmd_spec(cmd).1,
        dir,
        url: None,
        status: StatusView::Stopped,
        log: seq!["Waiting to start..."@],
        stopping: false,
        port_warn: false,
        child: None,
    }
}

/// An argument as the command line shows it: quoted where it holds a space.
pub open spec fn shown_arg(a: Seq<char>) -> Seq<char> {
    if has_sub(a, " "@) {
        "'"@ + a + "'"@
    } else {
        a
    }
}

/// The command line of a program and its arguments, space-separated.
pub open spec fn cmd_line(exe: Seq<char>, args: Seq<Seq<char>>) -> Seq<char>
    decreases args.len(),
{
    if args.len() == 0 {
        exe
    } else {
        cmd_line(exe, args.drop_last()) + " "@ + shown_arg(args.last())
    }
}

/// `path` appended to `base` as `PathBuf::push` does on Unix: an absolute
/// `path` replaces `base`; otherwise a `/` separates the two unless `base`
/// is empty or already ends with one.
pub open spec fn join_path(base: Seq<char>, path: Seq<char>) -> Seq<char> {
    if path.len() > 0 && path[0] == '/' {
        path
    } else if base.len() == 0 || base.last() == '/' {
        base + path
    } else {
        base + "/"@ + path
    }
}

pub fn join(base: &str, path: &str) -> (r: String)
    ensures
        r@ == join_path(base@, path@),
{
    let bv = chars_of(base);
    let pv = chars_of(path);
    if pv.len() > 0 && pv[0] == '/' {
        path.to_owned()
    } else if bv.len() == 0 || bv[bv.len() - 1] == '/' {
        concat(base, path)
    } else {
        let mut s = base.to_owned();
        s.append("/");
        s.append(path);
        s
    }
}

/// The directory a service runs in: its subdirectory of `cwd`, or `cwd`.
pub open spec fn work_dir_spec(cwd: Seq<char>, dir: Option<Seq<char>>) -> Seq<char> {
    match dir {
        Some(d) => join_path(cwd, d),
        None => cwd,
    }
}

/// The executable is looked up in `PATH` unless it holds a `.` or a `/`.
pub open spec fn needs_path_lookup(exe: Seq<char>) -> bool {
    !has_sub(exe, "."@) && !has_sub(exe, "/"@)
}

/// `sv` with `msg` recorded as the reason it failed.
pub open spec fn failed_with(sv: ServiceView, msg: Seq<char>) -> ServiceView {
    ServiceView { status: StatusView::Failed(msg), log: sv.log.push("[err] "@ + msg), ..sv }
}

/// The outcome of asking to start: the new state, and what to spawn (as
/// program, arguments and directory) where spawning is owed.
pub open spec fn start_spec(
    sv: ServiceView,
    cwd: Seq<char>,
    dir_exists: bool,
    exe_in_path: bool,
) -> (ServiceView, Option<(Seq<char>, Seq<Seq<char>>, Seq<char>)>) {
    let dir = work_dir_spec(cwd, sv.dir);
    if is_active(sv.status) {
        (sv, None)
    } else if !dir_exists {
        (failed_with(sv, "Working directory does not exist: "@ + dir), None)
    } else if needs_path_lookup(sv.executable) && !exe_in_path {
        (failed_with(sv, "Executable not found: "@ + sv.executable + " (not in PATH)"@), None)
    } else {
        (sv, Some((sv.executable, sv.args, dir)))
    }
}

pub open spec fn request_view(r: Option<SpawnRequest>) -> Option<(Seq<char>, Seq<Seq<char>>, Seq<char>)> {
    match r {
        Some(q) => Some((q.program@, strs_view(q.args@), q.dir@)),
        None => None,
    }
}

/// The message for a failed spawn.
pub open spec fn spawn_error_message(exe: Seq<char>, e: SpawnError) -> Seq<char> {
    match e {
        SpawnError::NotFound => "Executable not found: "@ + exe,
        SpawnError::PermissionDenied => "Permission denied: "@ + exe,
        SpawnError::Other(d) => "Failed to spawn: "@ + exe + " ("@ + d@ + ")"@,
    }
}

/// The state after a spawn attempt.
pub open spec fn spawned_spec(sv: ServiceView, result: Result<u32, SpawnError>) -> ServiceView {
    match result {
        Ok(pid) => ServiceView {
            stopping: false,
            port_warn: false,
            url: None,
            log: seq!["[sys] Started"@],
            status: StatusView::Starting,
            child: Some(pid),
            ..sv
        },
        Err(e) => failed_with(sv, spawn_error_message(sv.executable, e)),
    }
}

/// The state after a blocking stop.
pub open spec fn stop_spec(sv: ServiceView) -> ServiceView {
    ServiceView { child: None, status: StatusView::Stopped, log: sv.log.push("[sys] Stopped"@), ..sv }
}

/// The state after a non-blocking stop.
pub open spec fn stop_background_spec(sv: ServiceView) -> ServiceView {
    if sv.child is Some {
        ServiceView {
            status: StatusView::Stopping,
            stopping: true,
            log: sv.log.push("[sys] Stopping..."@),
            ..sv
        }
    } else {
        ServiceView { status: StatusView::Stopped, log: sv.log.push("[sys] Stopped"@), ..sv }
    }
}

/// The newest `MAX_LOG_LINES` lines of a log.
pub open spec fn trim_log(log: Seq<Seq<char>>) -> Seq<Seq<char>> {
    if log.len() > 500 {
        log.skip(log.len() - 500)
    } else {
        log
    }
}

/// A log line reports that the service's port is taken.
pub open spec fn reports_port_conflict(line: Seq<char>) -> bool {
    has_sub(line, "port already in use"@) || has_sub(line, "EADDRINUSE"@) || has_sub(
        line,
        "Address already in use"@,
    )
}

/// The pattern of a local URL in a log line.
pub open spec fn url_pattern() -> Seq<char> {
    "https?://(?:localhost|127\\.0\\.0\\.1|0\\.0\\.0\\.0|\\[::1\\])(?::\\d+)?(?:/\\S*)?"@
}

/// What `Regex::find` gives on the regex that `regex::Regex::new(pattern)`
/// compiles: the text of the leftmost-first match in the haystack, or `None`
/// where nothing matches or the pattern does not compile.
pub uninterp spec fn regex_find(pattern: Seq<char>, haystack: Seq<char>) -> Option<Seq<char>>;

/// `regex::Regex`, an opaque compiled pattern.
#[verifier::external_type_specification]
#[verifier::external_body]
pub struct ExRegex(regex::Regex);

/// A compiled pattern, with the text it was compiled from. Only
/// `compile_pattern` makes one.
struct Matcher {
    pattern: String,
    re: regex::Regex,
}

impl Matcher {
    /// The text the pattern was compiled from.
    spec fn pattern(&self) -> Seq<char> {
        self.pattern@
    }
}

/// `regex::Regex::new`: compiles a pattern, keeping its text beside it.
/// Where the pattern does not compile there is nothing to find with it.
#[verifier::external_body]
fn compile_pattern(pattern: &str) -> (r: Option<Matcher>)
    ensures
        match r {
            Some(m) => m.pattern() == pattern@,
            None => forall|h: Seq<char>| #[trigger] regex_find(pattern@, h) is None,
        },
{
    match regex::Regex::new(pattern) {
        Ok(re) => Some(Matcher { pattern: pattern.to_string(), re }),
        Err(_) => None,
    }
}

/// `Regex::find`. The contract names the result and states, as the crate
/// documents, that a match is a piece of the haystack.
#[verifier::external_body]
fn find_match(m: &Matcher, haystack: &str) -> (r: Option<String>)
    ensures
        match r {
            Some(t) => regex_find(m.pattern(), haystack@) == Some(t@) && has_sub(haystack@, t@),
            None => regex_find(m.pattern(), haystack@) is None,
        },
{
    match m.re.find(haystack) {
        Some(found) => Some(found.as_str().to_string()),
        None => None,
    }
}

/// The local URL a log line shows, without trailing slashes.
pub open spec fn url_in(line: Seq<char>) -> Option<Seq<char>> {
    match regex_find(url_pattern(), line) {
        Some(m) => Some(trim_end_char_spec(m, '/')),
        None => None,
    }
}

/// Scans `lines` from the newest back: the port warning is raised by any
/// line reporting a conflict, until the first line showing a URL is found
/// (only while no URL is known), which ends the scan.
pub open spec fn scan_log(
    lines: Seq<Seq<char>>,
    warn: bool,
    url: Option<Seq<char>>,
) -> (bool, Option<Seq<char>>)
    decreases lines.len(),
{
    if lines.len() == 0 {
        (warn, url)
    } else {
        let line = lines.last();
        let w = warn || reports_port_conflict(line);
        if url is None && url_in(line) is Some {
            (w, url_in(line))
        } else {
            scan_log(lines.drop_last(), w, url)
        }
    }
}

pub open spec fn port_warning_line() -> Seq<char> {
    "[warn] Port in use — service may be on a different port"@
}

/// The log with the port warning appended where it is due and not there yet.
pub open spec fn warned_log(log: Seq<Seq<char>>, warn: bool) -> Seq<Seq<char>> {
    if warn && !(exists|i: int| 0 <= i < log.len() && has_sub(log[i], "[warn] Port in use"@)) {
        log.push(port_warning_line())
    } else {
        log
    }
}

/// The log line recording how a process ended.
pub open spec fn exit_message(code: Option<i32>) -> Seq<char> {
    match code {
        Some(c) => "[sys] Process exited (code "@ + signed_decimal(c as int) + ")"@,
        None => "[sys] Process killed by signal"@,
    }
}

/// The status after the process ended.
pub open spec fn exit_status(sv: ServiceView, code: Option<i32>) -> StatusView {
    if sv.status is Stopping || sv.stopping || code == Some(0i32) {
        StatusView::Stopped
    } else {
        StatusView::Failed(
            "exit code "@ + match code {
                Some(c) => signed_decimal(c as int),
                None => "signal"@,
            },
        )
    }
}

/// The state after applying what polling the process found.
pub open spec fn apply_poll(sv: ServiceView, poll: Option<ChildPoll>) -> ServiceView {
    if sv.child is None {
        sv
    } else {
        match poll {
            None => sv,
            Some(ChildPoll::Running) => if sv.status is Starting {
                ServiceView { status: StatusView::Running, ..sv }
            } else {
                sv
            },
            Some(ChildPoll::Exited(code)) => ServiceView {
                child: None,
                status: exit_status(sv, code),
                log: sv.log.push(exit_message(code)),
                ..sv
            },
            Some(ChildPoll::Error(e)) => ServiceView {
                child: None,
                status: StatusView::Failed("process error: "@ + e@),
                log: sv.log.push("[err] "@ + e@),
                ..sv
            },
        }
    }
}

/// The state after a refresh: the log is trimmed and scanned for a URL and
/// for a port conflict, then the poll's outcome is applied.
pub open spec fn refresh_spec(sv: ServiceView, poll: Option<ChildPoll>) -> ServiceView {
    let log = trim_log(sv.log);
    let scanned = scan_log(log, sv.port_warn, sv.url);
    let mid = ServiceView {
        log: warned_log(log, scanned.0),
        port_warn: scanned.0,
        url: scanned.1,
        ..sv
    };
    apply_poll(mid, poll)
}

fn copy_strings(v: &Vec<String>) -> (r: Vec<String>)
    ensures
        strs_view(r@) == strs_view(v@),
{
    let mut out: Vec<String> = Vec::new();
    let mut i: usize = 0;
    while i < v.len()
        invariant
            i <= v.len(),
            strs_view(out@) == strs_view(v@).subrange(0, i as int),
        decreases v.len() - i,
    {
        let x = v[i].clone();
        let ghost before = out@;
        out.push(x);
        assert(out@ == before.push(x));
        assert(strs_view(out@) =~= strs_view(before).push(x@));
        assert(strs_view(out@) =~= strs_view(v@).subrange(0, i + 1));
        i += 1;
    }
    assert(strs_view(v@).subrange(0, v@.len() as int) =~= strs_view(v@));
    out
}

fn copy_opt(o: &Option<String>) -> (r: Option<String>)
    ensures
        opt_view(r) == opt_view(*o),
{
    match o {
        Some(s) => Some(s.clone()),
        None => None,
    }
}

impl Service {
    fn build(name: &str, cmd: &str, dir: Option<&str>) -> (s: Service)
        ensures
            s@ == fresh_service(name@, cmd@, match dir {
                Some(d) => Some(d@),
                None => None,
            }),
    {
        let (executable, args) = split_cmd(cmd);
        let mut log: Vec<String> = Vec::new();
        log.push("Waiting to start...".to_owned());
        let s = Service {
            id: compute_id(name, dir),
            name: name.to_owned(),
            executable,
            args,
            dir: match dir {
                Some(d) => Some(d.to_owned()),
                None => None,
            },
            url: None,
            status: Status::Stopped,
            log,
            stopping: false,
            port_warn_emitted: false,
            child: None,
        };
        assert(strs_view(s.log@) =~= seq!["Waiting to start..."@]);
        s
    }

    /// A stopped service running `cmd` in the project root.
    pub fn new(name: &str, cmd: &str) -> (s: Service)
        ensures
            s@ == fresh_service(name@, cmd@, None),
    {
        Self::build(name, cmd, None)
    }

    /// A stopped service running `cmd` in the subdirectory `dir`.
    pub fn new_with_dir(name: &str, cmd: &str, dir: &str) -> (s: Service)
        ensures
            s@ == fresh_service(name@, cmd@, Some(dir@)),
    {
        Self::build(name, cmd, Some(dir))
    }

    /// The process ID of the attached process, if any.
    pub fn child_pid(&self) -> (r: Option<u32>)
        ensures
            r == self@.child,
    {
        self.child
    }

    /// The command line, with arguments that hold a space single-quoted.
    pub fn cmd_string(&self) -> (r: String)
        ensures
            r@ == cmd_line(self@.executable, self@.args),
    {
        let mut cmd = self.executable.clone();
        let mut i: usize = 0;
        while i < self.args.len()
            invariant
                i <= self.args.len(),
                cmd@ == cmd_line(self@.executable, strs_view(self.args@).take(i as int)),
            decreases self.args.len() - i,
        {
            let arg = &self.args[i];
            cmd.append(" ");
            if contains(arg.as_str(), " ") {
                cmd.append("'");
                cmd.append(arg.as_str());
                cmd.append("'");
            } else {
                cmd.append(arg.as_str());
            }
            assert(strs_view(self.args@).take(i + 1).drop_last() =~= strs_view(self.args@).take(
                i as int,
            ));
            i += 1;
        }
        assert(strs_view(self.args@).take(self.args.len() as int) =~= strs_view(self.args@));
        cmd
    }

    /// Recomputes the identifier from the current name and directory.
    pub fn update_id(&mut self)
        ensures
            final(self)@ == (ServiceView { id: id_spec(old(self)@.name, old(self)@.dir), ..old(self)@ }),
    {
        let id = match &self.dir {
            Some(d) => compute_id(self.name.as_str(), Some(d.as_str())),
            None => compute_id(self.name.as_str(), None),
        };
        self.id = id;
    }

    /// The directory the service runs in, for the project root `cwd`.
    pub fn work_dir(&self, cwd: &str) -> (r: String)
        ensures
            r@ == work_dir_spec(cwd@, self@.dir),
    {
        match &self.dir {
            Some(d) => join(cwd, d.as_str()),
            None => cwd.to_owned(),
        }
    }

    /// Asks to start the service in the project root `cwd`, where
    /// `dir_exists` says whether its working directory exists and
    /// `exe_in_path` whether its executable was found in `PATH`. Refused
    /// while a process is attached or on its way; a failed check is recorded
    /// in the log and the status. Otherwise it returns what to spawn; the
    /// caller reports the outcome with `record_spawn`.
    pub fn start_with(&mut self, cwd: &str, dir_exists: bool, exe_in_path: bool) -> (r: Option<SpawnRequest>)
        ensures
            (final(self)@, request_view(r)) == start_spec(old(self)@, cwd@, dir_exists, exe_in_path),
    {
        if self.status.is_active() {
            return None;
        }
        let dir = self.work_dir(cwd);
        if !dir_exists {
            let mut msg = "Working directory does not exist: ".to_owned();
            msg.append(dir.as_str());
            self.fail(msg);
            return None;
        }
        let lookup = !contains(self.executable.as_str(), ".") && !contains(self.executable.as_str(), "/");
        if lookup && !exe_in_path {
            let mut msg = "Executable not found: ".to_owned();
            msg.append(self.executable.as_str());
            msg.append(" (not in PATH)");
            self.fail(msg);
            return None;
        }
        Some(SpawnRequest { program: self.executable.clone(), args: copy_strings(&self.args), dir })
    }

    /// Asks to start the service in the project root `cwd`, looking the
    /// executable up in `PATH` where it names no path.
    pub fn start(&mut self, cwd: &str, dir_exists: bool) -> (r: Option<SpawnRequest>)
        ensures
            exists|found: bool|
                (final(self)@, request_view(r)) == start_spec(old(self)@, cwd@, dir_exists, found),
            !needs_path_lookup(old(self)@.executable) ==> (final(self)@, request_view(r))
                == start_spec(old(self)@, cwd@, dir_exists, true),
    {
        let found = if self.status.is_active() || !dir_exists {
            true
        } else if !contains(self.executable.as_str(), ".") && !contains(
            self.executable.as_str(),
            "/",
        ) {
            executable_in_path(self.executable.as_str())
        } else {
            true
        };
        self.start_with(cwd, dir_exists, found)
    }

    fn fail(&mut self, msg: String)
        ensures
            final(self)@ == failed_with(old(self)@, msg@),
    {
        let mut line = "[err] ".to_owned();
        line.append(msg.as_str());
        let ghost before = strs_view(self.log@);
        self.log.push(line);
        assert(strs_view(self.log@) =~= before.push("[err] "@ + msg@));
        self.status = Status::Failed(msg);
    }

    /// Records the outcome of spawning what `start` asked for.
    pub fn record_spawn(&mut self, result: Result<u32, SpawnError>)
        ensures
            final(self)@ == spawned_spec(old(self)@, result),
    {
        match result {
            Ok(pid) => {
                self.stopping = false;
                self.port_warn_emitted = false;
                self.url = None;
                let mut log: Vec<String> = Vec::new();
                log.push("[sys] Started".to_owned());
                self.log = log;
                assert(strs_view(self.log@) =~= seq!["[sys] Started"@]);
                self.status = Status::Starting;
                self.child = Some(pid);
            },
            Err(e) => {
                let msg = match &e {
                    SpawnError::NotFound => concat("Executable not found: ", self.executable.as_str()),
                    SpawnError::PermissionDenied => concat("Permission denied: ", self.executable.as_str()),
                    SpawnError::Other(d) => {
                        let mut m = "Failed to spawn: ".to_owned();
                        m.append(self.executable.as_str());
                        m.append(" (");
                        m.append(d.as_str());
                        m.append(")");
                        m
                    },
                };
                self.fail(msg);
            },
        }
    }

    fn push_log(&mut self, line: String)
        ensures
            final(self)@ == (ServiceView { log: old(self)@.log.push(line@), ..old(self)@ }),
    {
        let ghost before = strs_view(self.log@);
        self.log.push(line);
        assert(strs_view(self.log@) =~= before.push(line@));
    }

    /// Stops the service: detaches the process, whose ID is returned for the
    /// caller to end and reap, and marks the service stopped.
    pub fn stop(&mut self) -> (r: Option<u32>)
        ensures
            r == old(self)@.child,
            final(self)@ == stop_spec(old(self)@),
    {
        let r = self.child;
        self.child = None;
        self.status = Status::Stopped;
        self.push_log("[sys] Stopped".to_owned());
        r
    }

    /// Stops the service without waiting: with a process attached it is
    /// marked stopping and the ID is returned for the caller to end in the
    /// background (the next refresh reaps it); otherwise it is marked stopped.
    pub fn stop_background(&mut self) -> (r: Option<u32>)
        ensures
            r == old(self)@.child,
            final(self)@ == stop_background_spec(old(self)@),
    {
        match self.child {
            Some(pid) => {
                self.status = Status::Stopping;
                self.stopping = true;
                self.push_log("[sys] Stopping...".to_owned());
                Some(pid)
            },
            None => {
                self.status = Status::Stopped;
                self.push_log("[sys] Stopped".to_owned());
                None
            },
        }
    }

    /// Appends a line of the process's output, without ANSI escapes.
    pub fn push_output(&mut self, line: &str)
        ensures
            final(self)@ == (ServiceView { log: old(self)@.log.push(strip_ansi_spec(line@)), ..old(self)@ }),
    {
        let l = strip_ansi(line);
        self.push_log(l);
    }

    fn trim_log_exec(&mut self)
        ensures
            final(self)@ == (ServiceView { log: trim_log(old(self)@.log), ..old(self)@ }),
    {
        let n = self.log.len();
        if n > MAX_LOG_LINES {
            let excess: usize = n - MAX_LOG_LINES;
            let mut kept: Vec<String> = Vec::new();
            let mut i: usize = excess;
            while i < n
                invariant
                    excess <= i <= n,
                    n == self.log.len(),
                    strs_view(kept@) == strs_view(self.log@).subrange(excess as int, i as int),
                decreases n - i,
            {
                let x = self.log[i].clone();
                let ghost before = kept@;
                kept.push(x);
                assert(kept@ == before.push(x));
                assert(strs_view(kept@) =~= strs_view(before).push(x@));
                assert(strs_view(kept@) =~= strs_view(self.log@).subrange(excess as int, i + 1));
                i += 1;
            }
            assert(strs_view(self.log@).skip(excess as int) =~= strs_view(self.log@).subrange(
                excess as int,
                n as int,
            ));
            self.log = kept;
        }
    }

    /// Scans the log for a URL and a port conflict (see `scan_log`) and
    /// appends the port warning where it is due.
    fn scan_exec(&mut self)
        ensures
            ({
                let s = scan_log(old(self)@.log, old(self)@.port_warn, old(self)@.url);
                final(self)@ == ServiceView {
                    log: warned_log(old(self)@.log, s.0),
                    port_warn: s.0,
                    url: s.1,
                    ..old(self)@
                }
            }),
    {
        let ghost log0 = strs_view(self.log@);
        let ghost w0 = self.port_warn_emitted;
        let ghost u0 = opt_view(self.url);
        let ghost s0 = self@;
        let pattern = "https?://(?:localhost|127\\.0\\.0\\.1|0\\.0\\.0\\.0|\\[::1\\])(?::\\d+)?(?:/\\S*)?";
        let matcher = compile_pattern(pattern);
        let mut i: usize = self.log.len();
        assert(log0.take(i as int) =~= log0);
        while i > 0
            invariant_except_break
                scan_log(log0, w0, u0) == scan_log(log0.take(i as int), self.port_warn_emitted, opt_view(self.url)),
            invariant
                i <= self.log.len(),
                strs_view(self.log@) == log0,
                pattern@ == url_pattern(),
                matcher matches Some(m) ==> m.pattern() == url_pattern(),
                matcher is None ==> forall|h: Seq<char>| #[trigger] regex_find(url_pattern(), h) is None,
                self@ == (ServiceView { port_warn: self.port_warn_emitted, url: opt_view(self.url), ..s0 }),
            ensures
                strs_view(self.log@) == log0,
                self@ == (ServiceView { port_warn: self.port_warn_emitted, url: opt_view(self.url), ..s0 }),
                scan_log(log0, w0, u0) == (self.port_warn_emitted, opt_view(self.url)),
            decreases i,
        {
            let line = &self.log[i - 1];
            assert(log0.take(i as int).last() == line@);
            assert(log0.take(i as int).drop_last() =~= log0.take(i - 1));
            if !self.port_warn_emitted && (contains(line.as_str(), "port already in use") || contains(
                line.as_str(),
                "EADDRINUSE",
            ) || contains(line.as_str(), "Address already in use")) {
                self.port_warn_emitted = true;
            }
            if self.url.is_none() {
                let found = match &matcher {
                    Some(m) => find_match(m, line.as_str()),
                    None => None,
                };
                assert(found is None ==> regex_find(url_pattern(), line@) is None);
                match found {
                    Some(t) => {
                        let u = trim_end_char(t.as_str(), '/');
                        self.url = Some(u);
                        assert(scan_log(log0, w0, u0) == (self.port_warn_emitted, opt_view(self.url)));
                        break;
                    },
                    None => {},
                }
            }
            i -= 1;
            if i == 0 {
                assert(log0.take(0) =~= Seq::<Seq<char>>::empty());
            }
        }
        if self.port_warn_emitted {
            let mut already = false;
            let mut j: usize = 0;
            while j < self.log.len()
                invariant
                    j <= self.log.len(),
                    strs_view(self.log@) == log0,
                    already == (exists|k: int| 0 <= k < j && has_sub(log0[k], "[warn] Port in use"@)),
                decreases self.log.len() - j,
            {
                assert(log0[j as int] == self.log@[j as int]@);
                if contains(self.log[j].as_str(), "[warn] Port in use") {
                    already = true;
                }
                j += 1;
            }
            if !already {
                self.push_log("[warn] Port in use — service may be on a different port".to_owned());
            }
        }
    }

    fn apply_poll_exec(&mut self, poll: Option<ChildPoll>)
        ensures
            final(self)@ == apply_poll(old(self)@, poll),
    {
        if self.child.is_none() {
            return;
        }
        match poll {
            None => {},
            Some(ChildPoll::Running) => {
                if self.status.is_starting() {
                    self.status = Status::Running;
                }
            },
            Some(ChildPoll::Exited(code)) => {
                self.child = None;
                let msg = match code {
                    Some(c) => {
                        let mut m = "[sys] Process exited (code ".to_owned();
                        let d = i32_to_string(c);
                        m.append(d.as_str());
                        m.append(")");
                        m
                    },
                    None => "[sys] Process killed by signal".to_owned(),
                };
                let stopped = self.status.is_stopping() || self.stopping || match code {
                    Some(c) => c == 0,
                    None => false,
                };
                if stopped {
                    self.status = Status::Stopped;
                } else {
                    let desc = match code {
                        Some(c) => i32_to_string(c),
                        None => "signal".to_owned(),
                    };
                    self.status = Status::Failed(concat("exit code ", desc.as_str()));
                }
                self.push_log(msg);
            },
            Some(ChildPoll::Error(e)) => {
                self.child = None;
                self.status = Status::Failed(concat("process error: ", e.as_str()));
                self.push_log(concat("[err] ", e.as_str()));
            },
        }
    }

    /// Trims the log to its newest lines, scans it for a local URL and a
    /// port conflict, and applies what polling the attached process found
    /// (`None` where nothing was polled).
    pub fn refresh(&mut self, poll: Option<ChildPoll>)
        ensures
            final(self)@ == refresh_spec(old(self)@, poll),
    {
        self.trim_log_exec();
        self.scan_exec();
        self.apply_poll_exec(poll);
    }
}

/// `which::which`: whether an executable of that name is found in the
/// directories of `PATH`. The answer depends on the environment and the
/// file system, so the contract states nothing of it.
#[verifier::external_body]
fn executable_in_path(name: &str) -> bool {
    which::which(name).is_ok()
}

} // verus!

verus! {

/// Stripping leaves no escape character and no carriage return, whatever
/// the text held.
pub proof fn lemma_strip_ansi_clean(s: Seq<char>, in_escape: bool)
    ensures
        forall|i: int|
            0 <= i < strip_ansi_from(s, in_escape).len() ==> #[trigger] strip_ansi_from(s, in_escape)[i]
                != '\x1b' && strip_ansi_from(s, in_escape)[i] != '\r',
    decreases s.len(),
{
    if s.len() > 0 {
        let t = s.drop_first();
        lemma_strip_ansi_clean(t, true);
        lemma_strip_ansi_clean(t, false);
        lemma_strip_ansi_clean(t, !ends_escape(s[0]));
        if !in_escape && s[0] != '\x1b' && s[0] != '\r' {
            let r = strip_ansi_from(s, in_escape);
            assert forall|i: int| 0 <= i < r.len() implies #[trigger] r[i] != '\x1b' && r[i] != '\r' by {
                if i > 0 {
                    assert(r[i] == strip_ansi_from(t, false)[i - 1]);
                }
            }
        }
    }
}

/// `a` is what is left of `b` after leaving some of its characters out.
pub open spec fn is_subsequence(a: Seq<char>, b: Seq<char>) -> bool
    decreases b.len(),
{
    if a.len() == 0 {
        true
    } else if b.len() == 0 {
        false
    } else {
        (a[0] == b[0] && is_subsequence(a.drop_first(), b.drop_first())) || is_subsequence(a, b.drop_first())
    }
}

/// The text holds no escape character and no carriage return.
pub open spec fn plain_text(s: Seq<char>) -> bool {
    forall|i: int| 0 <= i < s.len() ==> #[trigger] s[i] != '\x1b' && s[i] != '\r'
}

proof fn lemma_strip_ansi_subsequence(s: Seq<char>, in_escape: bool)
    ensures
        is_subsequence(strip_ansi_from(s, in_escape), s),
    decreases s.len(),
{
    if s.len() > 0 {
        let t = s.drop_first();
        let r = strip_ansi_from(s, in_escape);
        if !in_escape && s[0] != '\x1b' && s[0] != '\r' {
            lemma_strip_ansi_subsequence(t, false);
            assert(r[0] == s[0]);
            assert(r.drop_first() =~= strip_ansi_from(t, false));
        } else {
            let e = if in_escape {
                !ends_escape(s[0])
            } else if s[0] == '\x1b' {
                true
            } else {
                false
            };
            lemma_strip_ansi_subsequence(t, e);
            assert(r == strip_ansi_from(t, e));
        }
    }
}

proof fn lemma_strip_ansi_plain(s: Seq<char>)
    requires
        plain_text(s),
    ensures
        strip_ansi_from(s, false) == s,
    decreases s.len(),
{
    if s.len() > 0 {
        let t = s.drop_first();
        assert(s[0] != '\x1b' && s[0] != '\r');
        assert forall|i: int| 0 <= i < t.len() implies #[trigger] t[i] != '\x1b' && t[i] != '\r' by {
            assert(t[i] == s[i + 1]);
        }
        lemma_strip_ansi_plain(t);
        assert(seq![s[0]] + t =~= s);
    }
}

/// What stripping leaves: text without escape characters or carriage
/// returns, made of characters of the input in their order; stripping it
/// again changes nothing, and a text without either is left as it is.
pub proof fn lemma_strip_ansi_laws(s: Seq<char>)
    ensures
        plain_text(strip_ansi_spec(s)),
        is_subsequence(strip_ansi_spec(s), s),
        strip_ansi_spec(strip_ansi_spec(s)) == strip_ansi_spec(s),
        plain_text(s) ==> strip_ansi_spec(s) == s,
{
    lemma_strip_ansi_clean(s, false);
    lemma_strip_ansi_subsequence(s, false);
    lemma_strip_ansi_plain(strip_ansi_spec(s));
    if plain_text(s) {
        lemma_strip_ansi_plain(s);
    }
}

/// Starting is refused while a process is attached or on its way: nothing
/// changes and nothing is spawned.
pub proof fn lemma_start_refused_while_active(sv: ServiceView, cwd: Seq<char>, dir_exists: bool, exe_in_path: bool)
    requires
        is_active(sv.status),
    ensures
        start_spec(sv, cwd, dir_exists, exe_in_path) == (sv, None::<(Seq<char>, Seq<Seq<char>>, Seq<char>)>),
{
}

/// A stopped service whose directory and executable are found is spawned
/// as its program and arguments in its working directory; a successful
/// spawn starts it afresh: no URL, no port warning, a log of
/// `[sys] Started` only, starting, with the new process attached.
pub proof fn lemma_restart_clears_url_and_log(sv: ServiceView, cwd: Seq<char>, pid: u32)
    ensures
        ({
            let s1 = stop_spec(sv);
            let st = start_spec(s1, cwd, true, true);
            let s2 = spawned_spec(st.0, Ok(pid));
            &&& st.0 == s1
            &&& st.1 == Some((sv.executable, sv.args, work_dir_spec(cwd, sv.dir)))
            &&& s2.url is None
            &&& !s2.port_warn
            &&& s2.log == seq!["[sys] Started"@]
            &&& s2.status is Starting
            &&& s2.child == Some(pid)
        }),
{
}

/// A process that exits with code 0 leaves the service stopped, not failed,
/// and detached.
pub proof fn lemma_clean_exit_stops(sv: ServiceView)
    requires
        sv.child is Some,
    ensures
        refresh_spec(sv, Some(ChildPoll::Exited(Some(0i32)))).status is Stopped,
        refresh_spec(sv, Some(ChildPoll::Exited(Some(0i32)))).child is None,
{
}

/// A process that ends otherwise, without a stop asked for, leaves the
/// service failed with its exit code (or `signal`).
pub proof fn lemma_unexpected_exit_fails(sv: ServiceView, code: Option<i32>)
    requires
        sv.child is Some,
        !(sv.status is Stopping),
        !sv.stopping,
        code != Some(0i32),
    ensures
        refresh_spec(sv, Some(ChildPoll::Exited(code))).status == StatusView::Failed(
            "exit code "@ + match code {
                Some(c) => signed_decimal(c as int),
                None => "signal"@,
            },
        ),
        refresh_spec(sv, Some(ChildPoll::Exited(code))).child is None,
{
}

/// A background stop keeps the process attached and marks the service
/// stopping; the refresh that finds the process gone marks it stopped and
/// detaches it, however the process ended.
pub proof fn lemma_background_stop_then_reap(sv: ServiceView, code: Option<i32>)
    requires
        sv.child is Some,
    ensures
        stop_background_spec(sv).status is Stopping,
        stop_background_spec(sv).child == sv.child,
        refresh_spec(stop_background_spec(sv), Some(ChildPoll::Exited(code))).status is Stopped,
        refresh_spec(stop_background_spec(sv), Some(ChildPoll::Exited(code))).child is None,
{
}

/// Start is refused after a background stop until the process is reaped.
pub proof fn lemma_start_refused_while_stopping(sv: ServiceView, cwd: Seq<char>, dir_exists: bool, exe_in_path: bool)
    requires
        sv.child is Some,
    ensures
        start_spec(stop_background_spec(sv), cwd, dir_exists, exe_in_path) == (
            stop_background_spec(sv),
            None::<(Seq<char>, Seq<Seq<char>>, Seq<char>)>,
        ),
{
}

/// A background stop with no process attached marks the service stopped.
pub proof fn lemma_background_stop_without_process(sv: ServiceView)
    requires
        sv.child is None,
    ensures
        stop_background_spec(sv).status is Stopped,
        stop_background_spec(sv).child is None,
{
}

proof fn lemma_trim_log(log: Seq<Seq<char>>)
    ensures
        trim_log(log).len() <= MAX_LOG_LINES,
        trim_log(log) == log.skip(log.len() - trim_log(log).len()),
{
    if log.len() <= 500 {
        assert(log.skip(0) =~= log);
    }
}

/// A refresh keeps the newest `MAX_LOG_LINES` lines of the log, in order,
/// and adds at most two: the port warning and the exit line.
pub proof fn lemma_refresh_bounds_log(sv: ServiceView, poll: Option<ChildPoll>)
    ensures
        ({
            let kept = trim_log(sv.log);
            let after = refresh_spec(sv, poll).log;
            &&& kept.len() <= MAX_LOG_LINES
            &&& kept == sv.log.skip(sv.log.len() - kept.len())
            &&& kept.len() <= after.len() <= kept.len() + 2
            &&& after.take(kept.len() as int) == kept
        }),
{
    lemma_trim_log(sv.log);
    let kept = trim_log(sv.log);
    let scanned = scan_log(kept, sv.port_warn, sv.url);
    let w = warned_log(kept, scanned.0);
    assert(w.take(kept.len() as int) =~= kept);
    let after = refresh_spec(sv, poll).log;
    if after.len() > w.len() {
        assert(after.take(kept.len() as int) =~= kept);
    }
}

proof fn lemma_scan_url(lines: Seq<Seq<char>>, warn: bool, url: Option<Seq<char>>)
    requires
        url is None,
    ensures
        scan_log(lines, warn, url).1 matches Some(u) ==> exists|i: int|
            0 <= i < lines.len() && url_in(lines[i]) == Some(u),
    decreases lines.len(),
{
    if lines.len() > 0 {
        let w = warn || reports_port_conflict(lines.last());
        if !(url_in(lines.last()) is Some) {
            lemma_scan_url(lines.drop_last(), w, url);
            if let Some(u) = scan_log(lines, warn, url).1 {
                let i = choose|i: int| 0 <= i < lines.drop_last().len() && url_in(lines.drop_last()[i]) == Some(u);
                assert(lines[i] == lines.drop_last()[i]);
            }
        } else {
            assert(lines[lines.len() - 1] == lines.last());
        }
    }
}

/// A URL a refresh detects was shown by a line of the log it kept.
pub proof fn lemma_detected_url_is_in_log(sv: ServiceView, poll: Option<ChildPoll>)
    requires
        sv.url is None,
    ensures
        refresh_spec(sv, poll).url matches Some(u) ==> exists|i: int|
            0 <= i < trim_log(sv.log).len() && url_in(trim_log(sv.log)[i]) == Some(u),
{
    lemma_scan_url(trim_log(sv.log), sv.port_warn, sv.url);
}

proof fn lemma_scan_warns_from(lines: Seq<Seq<char>>, warn: bool, url: Option<Seq<char>>)
    requires
        warn,
    ensures
        scan_log(lines, warn, url).0,
    decreases lines.len(),
{
    if lines.len() > 0 {
        lemma_scan_warns_from(lines.drop_last(), true, url);
    }
}

proof fn lemma_scan_warns(lines: Seq<Seq<char>>, warn: bool, url: Option<Seq<char>>, k: int)
    requires
        0 <= k < lines.len(),
        reports_port_conflict(lines[k]),
        url is Some || forall|i: int| k < i < lines.len() ==> url_in(#[trigger] lines[i]) is None,
    ensures
        scan_log(lines, warn, url).0,
    decreases lines.len(),
{
    let t = lines.drop_last();
    if k < lines.len() - 1 {
        assert(t[k] == lines[k]);
        assert(url_in(lines[lines.len() - 1]) is None || url is Some);
        assert(lines.last() == lines[lines.len() - 1]);
        assert forall|i: int| k < i < t.len() implies url_in(#[trigger] t[i]) is None || url is Some by {
            assert(t[i] == lines[i]);
        }
        lemma_scan_warns(t, warn || reports_port_conflict(lines.last()), url, k);
    } else {
        assert(lines.last() == lines[k]);
        lemma_scan_warns_from(t, true, url);
    }
}

/// A kept log line that reports the port taken (`port already in use`,
/// `EADDRINUSE` or `Address already in use`) raises the port warning and
/// leaves a `[warn] Port in use` line in the log after the refresh, where
/// the scan reaches it: a URL is known already, or no newer kept line shows
/// one.
pub proof fn lemma_port_conflict_warns(sv: ServiceView, poll: Option<ChildPoll>, k: int)
    requires
        0 <= k < trim_log(sv.log).len(),
        has_sub(trim_log(sv.log)[k], "port already in use"@) || has_sub(trim_log(sv.log)[k], "EADDRINUSE"@)
            || has_sub(trim_log(sv.log)[k], "Address already in use"@),
        sv.url is Some || forall|i: int| k < i < trim_log(sv.log).len() ==> url_in(#[trigger] trim_log(sv.log)[i]) is None,
    ensures
        refresh_spec(sv, poll).port_warn,
        exists|i: int|
            0 <= i < refresh_spec(sv, poll).log.len() && has_sub(
                #[trigger] refresh_spec(sv, poll).log[i],
                "[warn] Port in use"@,
            ),
{
    let kept = trim_log(sv.log);
    lemma_scan_warns(kept, sv.port_warn, sv.url, k);
    let w = warned_log(kept, true);
    if exists|i: int| 0 <= i < kept.len() && has_sub(kept[i], "[warn] Port in use"@) {
        let i = choose|i: int| 0 <= i < kept.len() && has_sub(kept[i], "[warn] Port in use"@);
        assert(w[i] == kept[i]);
        assert(refresh_spec(sv, poll).log[i] == w[i]);
    } else {
        let last = kept.len() as int;
        assert(w[last] == port_warning_line());
        assert(refresh_spec(sv, poll).log[last] == w[last]);
        assert(has_sub(port_warning_line(), "[warn] Port in use"@)) by {
            reveal_strlit("[warn] Port in use — service may be on a different port");
            reveal_strlit("[warn] Port in use");
            assert(port_warning_line().subrange(0, 18) =~= "[warn] Port in use"@);
            assert(occurs_at(port_warning_line(), "[warn] Port in use"@, 0));
        }
    }
}

} // verus!

verus! {

/// A refresh keeps at most the newest 500 lines of the log: a longer log
/// loses its oldest lines down to 500, a shorter one is kept whole.
pub proof fn lemma_log_keeps_newest_500(log: Seq<Seq<char>>)
    ensures
        log.len() > 500 ==> trim_log(log).len() == 500 && trim_log(log) == log.subrange(log.len() - 500, log.len() as int),
        log.len() <= 500 ==> trim_log(log) == log,
{
    if log.len() > 500 {
        assert(log.skip(log.len() - 500) =~= log.subrange(log.len() - 500, log.len() as int));
    }
}

} // verus!
