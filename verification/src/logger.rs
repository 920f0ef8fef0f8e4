//! The session log's layout: where it lives and how a line reads. Writing
//! the file is the caller's.
use vstd::prelude::*;
use crate::service::{join, join_path};
use crate::text::{decimal, two_digits, u64_to_string, u64_to_two_digits};

verus! {

/// A time of day, `HH:MM:SS` (UTC), for seconds since the Unix epoch.
pub open spec fn clock_spec(total: nat) -> Seq<char> {
    two_digits((total % 86400) / 3600) + ":"@ + two_digits((total % 3600) / 60) + ":"@ + two_digits(total % 60)
}

/// The timestamp of a session-log line (see `clock_spec`).
pub fn ts_short(total_secs: u64) -> (r: String)
    ensures
        r@ == clock_spec(total_secs as nat),
{
    let h = (total_secs % 86400) / 3600;
    let m = (total_secs % 3600) / 60;
    let s = total_secs % 60;
    let mut out = u64_to_two_digits(h);
    out.append(":");
    out.append(u64_to_two_digits(m).as_str());
    out.append(":");
    out.append(u64_to_two_digits(s).as_str());
    out
}

/// `SystemTime::now()` as whole seconds since the Unix epoch (0 for a clock
/// set before it). The reading is the machine's clock, so the contract
/// states nothing of it.
#[verifier::external_body]
fn epoch_secs() -> u64 {
    std::time::SystemTime::now().duration_since(std::time::UNIX_EPOCH).unwrap_or_default().as_secs()
}

/// The time of day now, `HH:MM:SS` (UTC), as the session log and the panic
/// log stamp their lines.
pub fn super_basic_time() -> (r: String)
    ensures
        exists|t: u64| r@ == clock_spec(t as nat),
{
    let t = epoch_secs();
    ts_short(t)
}

/// A line of the session log: timestamp, message, newline.
pub fn log_line(ts: &str, msg: &str) -> (r: String)
    ensures
        r@ == ts@ + " "@ + msg@ + "\n"@,
{
    let mut out = ts.to_owned();
    out.append(" ");
    out.append(msg);
    out.append("\n");
    out
}

/// The home directory: `HOME`, else `USERPROFILE`, else `.`.
pub fn home_dir(home: Option<String>, userprofile: Option<String>) -> (r: String)
    ensures
        r@ == match home {
            Some(h) => h@,
            None => match userprofile {
                Some(u) => u@,
                None => "."@,
            },
        },
{
    match home {
        Some(h) => h,
        None => match userprofile {
            Some(u) => u,
            None => ".".to_owned(),
        },
    }
}

/// The directory of session logs: `<home>/.rudder/logs`.
pub open spec fn log_dir_spec(home: Seq<char>) -> Seq<char> {
    join_path(join_path(home, ".rudder"@), "logs"@)
}

pub fn log_dir(home: &str) -> (r: String)
    ensures
        r@ == log_dir_spec(home@),
{
    let d = join(home, ".rudder");
    join(d.as_str(), "logs")
}

/// The session log of a session started at `epoch` seconds: `<epoch>.log`.
pub fn log_file_name(epoch: u64) -> (r: String)
    ensures
        r@ == decimal(epoch as nat) + ".log"@,
{
    let mut out = u64_to_string(epoch);
    out.append(".log");
    out
}

/// The file name of a session log started now: `<epoch>.log`, for the
/// seconds since the Unix epoch that the clock reads.
pub fn new_log_file_name() -> (r: String)
    ensures
        exists|t: u64| r@ == decimal(t as nat) + ".log"@,
{
    let t = epoch_secs();
    log_file_name(t)
}

/// The link to the newest session log.
pub fn latest_log_path(home: &str) -> (r: String)
    ensures
        r@ == join_path(log_dir_spec(home@), "latest.log"@),
{
    let d = log_dir(home);
    join(d.as_str(), "latest.log")
}

} // verus!
