//! What the command line decides about processes it started: PID files,
//! whether a process is still there, ending a process group, and the
//! summaries it prints.
use vstd::prelude::*;
use crate::detect::services_view;
use crate::service::{
    Service, ServiceView, Status, StatusView, cmd_line, is_active, join, join_path,
};
use crate::text::{chars_of, concat, decimal, digit_char, trim, trim_spec, u64_to_string};

verus! {

/// The directory of PID files of a project: `<project>/.rudder/pids`.
pub open spec fn pid_dir_spec(project: Seq<char>) -> Seq<char> {
    join_path(join_path(project, ".rudder"@), "pids"@)
}

pub fn pid_dir(project: &str) -> (r: String)
    ensures
        r@ == pid_dir_spec(project@),
{
    let d = join(project, ".rudder");
    join(d.as_str(), "pids")
}

/// The text of a PID file.
pub fn pid_text(pid: u32) -> (r: String)
    ensures
        r@ == decimal(pid as nat),
{
    u64_to_string(pid as u64)
}

pub open spec fn is_digit(c: char) -> bool {
    '0' <= c && c <= '9'
}

pub open spec fn all_digits(s: Seq<char>) -> bool {
    forall|i: int| 0 <= i < s.len() ==> is_digit(#[trigger] s[i])
}

/// The value of a string of decimal digits.
pub open spec fn digits_value(s: Seq<char>) -> nat
    decreases s.len(),
{
    if s.len() == 0 {
        0
    } else {
        digits_value(s.drop_last()) * 10 + ((s.last() as u32) - ('0' as u32)) as nat
    }
}

/// What `u32::from_str` accepts: an optional `+`, then at least one digit,
/// with a value that fits.
pub open spec fn parse_u32_spec(s: Seq<char>) -> Option<u32> {
    let d = if s.len() > 0 && s[0] == '+' {
        s.drop_first()
    } else {
        s
    };
    if d.len() > 0 && all_digits(d) && digits_value(d) <= u32::MAX {
        Some(digits_value(d) as u32)
    } else {
        None
    }
}

proof fn lemma_digits_prefix(s: Seq<char>, k: int)
    requires
        0 <= k <= s.len(),
        all_digits(s),
    ensures
        digits_value(s) >= digits_value(s.take(k)),
    decreases s.len(),
{
    if k < s.len() {
        assert(s.drop_last().take(k) =~= s.take(k));
        assert forall|i: int| 0 <= i < s.drop_last().len() implies is_digit(#[trigger] s.drop_last()[i]) by {
            assert(s.drop_last()[i] == s[i]);
        }
        lemma_digits_prefix(s.drop_last(), k);
    } else {
        assert(s.take(k) =~= s);
    }
}

/// Parses a decimal `u32` (see `parse_u32_spec`).
pub fn parse_u32(s: &str) -> (r: Option<u32>)
    ensures
        r == parse_u32_spec(s@),
{
    let v = chars_of(s);
    let start: usize = if v.len() > 0 && v[0] == '+' {
        1
    } else {
        0
    };
    let ghost d = if v@.len() > 0 && v@[0] == '+' {
        v@.drop_first()
    } else {
        v@
    };
    assert(d =~= v@.subrange(start as int, v@.len() as int));
    if start >= v.len() {
        return None;
    }
    let mut acc: u64 = 0;
    let mut i: usize = start;
    assert(d.take(0) =~= Seq::<char>::empty());
    while i < v.len()
        invariant
            start <= i <= v.len(),
            v@ == s@,
            d == (if v@.len() > 0 && v@[0] == '+' {
                v@.drop_first()
            } else {
                v@
            }),
            d =~= v@.subrange(start as int, v@.len() as int),
            all_digits(d.take(i - start)),
            acc == digits_value(d.take(i - start)),
            acc <= u32::MAX,
        decreases v.len() - i,
    {
        let c = v[i];
        assert(d[(i - start) as int] == c);
        if !('0' <= c && c <= '9') {
            assert(!is_digit(d[(i - start) as int]));
            assert(!all_digits(d));
            return None;
        }
        let dig: u64 = (c as u32 - '0' as u32) as u64;
        let next: u64 = acc * 10 + dig;
        assert(d.take(i + 1 - start).drop_last() =~= d.take(i - start));
        assert(d.take(i + 1 - start).last() == c);
        assert(all_digits(d.take(i + 1 - start))) by {
            assert forall|j: int| 0 <= j < d.take(i + 1 - start).len() implies is_digit(
                #[trigger] d.take(i + 1 - start)[j],
            ) by {
                if j < i - start {
                    assert(d.take(i + 1 - start)[j] == d.take(i - start)[j]);
                }
            }
        }
        assert(digits_value(d.take(i + 1 - start)) == next);
        if next > u32::MAX as u64 {
            proof {
                if all_digits(d) {
                    lemma_digits_prefix(d, i + 1 - start);
                }
            }
            return None;
        }
        acc = next;
        i += 1;
    }
    assert(d.take(v.len() - start) =~= d);
    Some(acc as u32)
}

/// The PID a PID file holds: its trimmed text as a `u32`.
pub fn parse_pid(content: &str) -> (r: Option<u32>)
    ensures
        r == parse_u32_spec(trim_spec(content@)),
{
    let t = trim(content);
    parse_u32(t.as_str())
}

/// What `ps -o stat= -p <pid>` tells of a process: it is there when `ps`
/// succeeded and the state it printed is not a zombie (`Z`).
pub open spec fn ps_alive_spec(success: bool, stdout: Seq<char>) -> bool {
    let t = trim_spec(stdout);
    success && t.len() > 0 && t[0] != 'Z'
}

pub fn ps_alive(success: bool, stdout: &str) -> (r: bool)
    ensures
        r == ps_alive_spec(success, stdout@),
{
    if !success {
        return false;
    }
    let t = trim(stdout);
    let v = chars_of(t.as_str());
    v.len() > 0 && v[0] != 'Z'
}

/// Where ending a process group stands.
#[derive(Clone, Copy, Debug, PartialEq, Eq, Structural)]
pub enum KillPhase {
    /// Nothing sent yet.
    Start,
    /// SIGTERM sent; waiting for the group to go.
    Terminating,
    /// SIGKILL sent; waiting for the group to go.
    Killing,
}

/// What to do next to end a process group.
#[derive(Clone, Copy, Debug, PartialEq, Eq, Structural)]
pub enum KillAction {
    /// Send SIGTERM to the group and start a new deadline.
    SendTerm,
    /// Send SIGKILL to the group and start a new deadline.
    SendKill,
    /// Sleep a poll interval and look again.
    Wait,
    /// Finished: whether the group was there and is gone now.
    Done(bool),
}

/// One step of ending a process group, given whether it is still there and
/// whether the current deadline passed: a group that is not there at the
/// start was not running (stale); SIGTERM comes first, SIGKILL where the
/// group outlives its deadline, and the answer is whether it is gone when
/// the wait ends.
pub open spec fn kill_step_spec(phase: KillPhase, exists: bool, timed_out: bool) -> (KillPhase, KillAction) {
    match phase {
        KillPhase::Start => if exists {
            (KillPhase::Terminating, KillAction::SendTerm)
        } else {
            (KillPhase::Start, KillAction::Done(false))
        },
        KillPhase::Terminating => if !exists {
            (KillPhase::Terminating, KillAction::Done(true))
        } else if timed_out {
            (KillPhase::Killing, KillAction::SendKill)
        } else {
            (KillPhase::Terminating, KillAction::Wait)
        },
        KillPhase::Killing => if !exists {
            (KillPhase::Killing, KillAction::Done(true))
        } else if timed_out {
            (KillPhase::Killing, KillAction::Done(false))
        } else {
            (KillPhase::Killing, KillAction::Wait)
        },
    }
}

pub fn kill_step(phase: KillPhase, exists: bool, timed_out: bool) -> (r: (KillPhase, KillAction))
    ensures
        r == kill_step_spec(phase, exists, timed_out),
{
    match phase {
        KillPhase::Start => if exists {
            (KillPhase::Terminating, KillAction::SendTerm)
        } else {
            (KillPhase::Start, KillAction::Done(false))
        },
        KillPhase::Terminating => if !exists {
            (KillPhase::Terminating, KillAction::Done(true))
        } else if timed_out {
            (KillPhase::Killing, KillAction::SendKill)
        } else {
            (KillPhase::Terminating, KillAction::Wait)
        },
        KillPhase::Killing => if !exists {
            (KillPhase::Killing, KillAction::Done(true))
        } else if timed_out {
            (KillPhase::Killing, KillAction::Done(false))
        } else {
            (KillPhase::Killing, KillAction::Wait)
        },
    }
}

/// Some service has a process attached or on its way.
pub open spec fn any_alive_spec(v: Seq<ServiceView>) -> bool {
    exists|k: int| 0 <= k < v.len() && is_active(v[k].status)
}

/// Whether `up` keeps waiting: some service is starting, running or stopping.
pub fn any_alive(services: &Vec<Service>) -> (r: bool)
    ensures
        r == any_alive_spec(services_view(services@)),
{
    let ghost sv = services_view(services@);
    let mut i: usize = 0;
    while i < services.len()
        invariant
            i <= services.len(),
            sv == services_view(services@),
            forall|k: int| 0 <= k < i ==> !is_active(#[trigger] sv[k].status),
        decreases services.len() - i,
    {
        if services[i].status.is_active() {
            assert(is_active(sv[i as int].status));
            return true;
        }
        i += 1;
    }
    false
}

/// A PID file of `up` and whether its process is still there.
pub struct PidEntry {
    pub name: String,
    pub alive: bool,
}

/// The first PID file of that name, whether its process is alive.
pub open spec fn pid_alive(pids: Seq<PidEntry>, name: Seq<char>) -> bool
    decreases pids.len(),
{
    if pids.len() == 0 {
        false
    } else if pids[0].name@ == name {
        pids[0].alive
    } else {
        pid_alive(pids.drop_first(), name)
    }
}

/// A service shown as running by `services` where `up` started it and its
/// process is still there.
pub open spec fn marked(s: ServiceView, pids: Seq<PidEntry>) -> ServiceView {
    if pid_alive(pids, s.name) {
        ServiceView { status: StatusView::Running, ..s }
    } else {
        s
    }
}

fn pid_alive_exec(pids: &Vec<PidEntry>, name: &str) -> (r: bool)
    ensures
        r == pid_alive(pids@, name@),
{
    let mut i: usize = 0;
    assert(pids@.skip(0) =~= pids@);
    while i < pids.len()
        invariant
            i <= pids.len(),
            pid_alive(pids@, name@) == pid_alive(pids@.skip(i as int), name@),
        decreases pids.len() - i,
    {
        assert(pids@.skip(i as int)[0] == pids@[i as int]);
        assert(pids@.skip(i as int).drop_first() =~= pids@.skip(i + 1));
        if crate::text::str_eq(pids[i].name.as_str(), name) {
            return pids[i].alive;
        }
        i += 1;
    }
    false
}

/// Marks as running each service whose PID file shows a live process.
pub fn mark_running(services: &mut Vec<Service>, pids: &Vec<PidEntry>)
    ensures
        services_view(final(services)@) == services_view(old(services)@).map_values(
            |s: ServiceView| marked(s, pids@),
        ),
{
    let ghost sv = services_view(services@);
    let mut i: usize = 0;
    while i < services.len()
        invariant
            i <= services.len(),
            services.len() == sv.len(),
            forall|k: int| 0 <= k < i ==> #[trigger] services@[k]@ == marked(sv[k], pids@),
            forall|k: int| i <= k < services.len() ==> #[trigger] services@[k]@ == sv[k],
        decreases services.len() - i,
    {
        let ghost before = services@;
        let mut s = services.remove(i);
        assert(s@ == sv[i as int]);
        if pid_alive_exec(pids, s.name.as_str()) {
            s.status = Status::Running;
        }
        assert(s@ == marked(sv[i as int], pids@));
        services.insert(i, s);
        assert forall|k: int| 0 <= k < i + 1 implies #[trigger] services@[k]@ == marked(sv[k], pids@) by {
            if k < i {
                assert(services@[k] == before[k]);
            }
        }
        assert forall|k: int| i + 1 <= k < services.len() implies #[trigger] services@[k]@ == sv[k] by {
            assert(services@[k] == before[k]);
        }
        i += 1;
    }
    assert(services_view(services@) =~= sv.map_values(|s: ServiceView| marked(s, pids@)));
}

/// The line `services` prints for a service.
pub open spec fn summary_spec(s: ServiceView) -> Seq<char> {
    let cmd = cmd_line(s.executable, s.args);
    match s.status {
        StatusView::Running => "  ✓  "@ + s.name + "  (running: "@ + cmd + ")"@,
        StatusView::Stopped => "  ○  "@ + s.name + "  ("@ + cmd + ")  ["@ + match s.dir {
            Some(d) => d,
            None => "."@,
        } + "]"@,
        StatusView::Starting => "  ◐  "@ + s.name + "  (starting)"@,
        StatusView::Stopping => "  ↓  "@ + s.name + "  (stopping: "@ + cmd + ")"@,
        StatusView::Failed(e) => "  ✕  "@ + s.name + "  (failed: "@ + e + ")"@,
    }
}

pub fn service_summary(s: &Service) -> (r: String)
    ensures
        r@ == summary_spec(s@),
{
    let cmd = s.cmd_string();
    match &s.status {
        Status::Running => {
            let mut o = concat("  ✓  ", s.name.as_str());
            o.append("  (running: ");
            o.append(cmd.as_str());
            o.append(")");
            o
        },
        Status::Stopped => {
            let mut o = concat("  ○  ", s.name.as_str());
            o.append("  (");
            o.append(cmd.as_str());
            o.append(")  [");
            match &s.dir {
                Some(d) => o.append(d.as_str()),
                None => o.append("."),
            }
            o.append("]");
            o
        },
        Status::Starting => {
            let mut o = concat("  ◐  ", s.name.as_str());
            o.append("  (starting)");
            o
        },
        Status::Stopping => {
            let mut o = concat("  ↓  ", s.name.as_str());
            o.append("  (stopping: ");
            o.append(cmd.as_str());
            o.append(")");
            o
        },
        Status::Failed(e) => {
            let mut o = concat("  ✕  ", s.name.as_str());
            o.append("  (failed: ");
            o.append(e.as_str());
            o.append(")");
            o
        },
    }
}

/// The closing lines of `down`: the stale PID entries cleaned up and the
/// services stopped, where any, in the singular or plural.
pub open spec fn down_summary_spec(stale: nat, stopped: nat) -> Seq<Seq<char>> {
    (if stale > 0 {
        seq!["Cleaned up "@ + decimal(stale) + " stale PID entr"@ + if stale == 1 {
            "y"@
        } else {
            "ies"@
        }]
    } else {
        seq![]
    }) + (if stopped > 0 {
        seq!["Stopped "@ + decimal(stopped) + " service"@ + if stopped == 1 {
            ""@
        } else {
            "s"@
        }]
    } else {
        seq![]
    })
}

pub fn down_summary(stale: u64, stopped: u64) -> (r: Vec<String>)
    ensures
        crate::text::strs_view(r@) == down_summary_spec(stale as nat, stopped as nat),
{
    let mut out: Vec<String> = Vec::new();
    if stale > 0 {
        let mut l = "Cleaned up ".to_owned();
        l.append(u64_to_string(stale).as_str());
        l.append(" stale PID entr");
        l.append(if stale == 1 {
            "y"
        } else {
            "ies"
        });
        out.push(l);
    }
    let ghost mid = out@;
    if stopped > 0 {
        let mut l = "Stopped ".to_owned();
        l.append(u64_to_string(stopped).as_str());
        l.append(" service");
        l.append(if stopped == 1 {
            ""
        } else {
            "s"
        });
        out.push(l);
    }
    assert(crate::text::strs_view(out@) =~= down_summary_spec(stale as nat, stopped as nat));
    out
}

} // verus!

verus! {

proof fn lemma_digit_char(d: int)
    requires
        0 <= d < 10,
    ensures
        is_digit(digit_char(d)),
        (digit_char(d) as u32) - ('0' as u32) == d,
{
}

proof fn lemma_decimal_digits(n: nat)
    ensures
        decimal(n).len() > 0,
        all_digits(decimal(n)),
        digits_value(decimal(n)) == n,
    decreases n,
{
    let d = decimal(n);
    if n < 10 {
        lemma_digit_char(n as int);
        assert(d.drop_last() =~= Seq::<char>::empty());
        assert(d.last() == digit_char(n as int));
        assert(digits_value(d.drop_last()) == 0);
        assert(digits_value(d) == digits_value(d.drop_last()) * 10 + ((d.last() as u32) - ('0' as u32)) as nat);
    } else {
        lemma_decimal_digits(n / 10);
        lemma_digit_char((n % 10) as int);
        assert(d.drop_last() =~= decimal(n / 10));
        assert(d.last() == digit_char((n % 10) as int));
        assert(digits_value(d) == digits_value(decimal(n / 10)) * 10 + (n % 10));
        assert(n == (n / 10) * 10 + n % 10);
        assert forall|i: int| 0 <= i < d.len() implies is_digit(#[trigger] d[i]) by {
            if i < d.len() - 1 {
                assert(d[i] == decimal(n / 10)[i]);
            }
        }
    }
}

/// What `write_pid` writes, `read_pids` reads back: the decimal text of a
/// PID parses, after trimming, to the same PID.
pub proof fn lemma_pid_round_trip(pid: u32)
    ensures
        parse_u32_spec(trim_spec(decimal(pid as nat))) == Some(pid),
{
    let d = decimal(pid as nat);
    lemma_decimal_digits(pid as nat);
    assert(is_digit(d[0]));
    assert(is_digit(d[d.len() - 1]));
    assert(crate::text::trim_start_spec(d) == d);
    assert(crate::text::trim_end_spec(d) == d);
}

/// Ending a process group answers yes only once the group is gone, and no
/// only for a group that was not there at the start or that outlived the
/// SIGKILL deadline; SIGKILL follows only a SIGTERM whose deadline passed.
pub proof fn lemma_kill_step_answers(phase: KillPhase, exists: bool, timed_out: bool)
    ensures
        kill_step_spec(phase, exists, timed_out).1 == KillAction::Done(true) ==> !exists && phase != KillPhase::Start,
        kill_step_spec(phase, exists, timed_out).1 == KillAction::Done(false) ==> (phase == KillPhase::Start
            && !exists) || (phase == KillPhase::Killing && exists && timed_out),
        kill_step_spec(phase, exists, timed_out).1 == KillAction::SendKill ==> phase == KillPhase::Terminating
            && exists && timed_out,
        kill_step_spec(phase, exists, timed_out).1 == KillAction::SendTerm ==> phase == KillPhase::Start && exists,
{
}

} // verus!
