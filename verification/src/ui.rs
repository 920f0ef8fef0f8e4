//! The texts the terminal UI shows: status dots, service labels, the header,
//! the command bar and the log pane's window.
use vstd::prelude::*;
use crate::app::{App, Mode, Pane};
use crate::browser::file_name_spec;
use crate::service::{Service, ServiceView, Status, StatusView};
use crate::text::{concat, push_char, strs_view};

verus! {

/// The dot shown for a status.
pub open spec fn status_dot_spec(s: StatusView) -> Seq<char> {
    match s {
        StatusView::Running => "✓"@,
        StatusView::Starting => "◐"@,
        StatusView::Stopping => "↓"@,
        StatusView::Stopped => "○"@,
        StatusView::Failed(_) => "✕"@,
    }
}

pub fn status_dot(status: &Status) -> (r: &'static str)
    ensures
        r@ == status_dot_spec(status@),
{
    match status {
        Status::Running => "✓",
        Status::Starting => "◐",
        Status::Stopping => "↓",
        Status::Stopped => "○",
        Status::Failed(_) => "✕",
    }
}

/// A service's line in the services list: dot and name, and the URL where
/// known.
pub open spec fn service_label_spec(s: ServiceView) -> Seq<char> {
    match s.url {
        Some(u) => " "@ + status_dot_spec(s.status) + "  "@ + s.name + "  →  "@ + u,
        None => " "@ + status_dot_spec(s.status) + "  "@ + s.name,
    }
}

pub fn service_label(s: &Service) -> (r: String)
    ensures
        r@ == service_label_spec(s@),
{
    let mut out = " ".to_owned();
    out.append(status_dot(&s.status));
    out.append("  ");
    out.append(s.name.as_str());
    match &s.url {
        Some(u) => {
            out.append("  →  ");
            out.append(u.as_str());
        },
        None => {},
    }
    out
}

pub open spec fn mode_label(m: Mode) -> Seq<char> {
    match m {
        Mode::Normal => "NORMAL"@,
        Mode::Command => "COMMAND"@,
    }
}

pub open spec fn pane_label(p: Pane) -> Seq<char> {
    match p {
        Pane::Browser => "[Projects]"@,
        Pane::Services => "[Services]"@,
    }
}

/// The header line: mode, focused pane and the current directory.
pub open spec fn header_text_spec(a: App) -> Seq<char> {
    " "@ + mode_label(a.mode) + " "@ + pane_label(a.focused_pane) + "  │  "@ + a.browser.current_dir@
}

pub fn header_text(a: &App) -> (r: String)
    ensures
        r@ == header_text_spec(*a),
{
    let mut out = " ".to_owned();
    out.append(match a.mode {
        Mode::Normal => "NORMAL",
        Mode::Command => "COMMAND",
    });
    out.append(" ");
    out.append(match a.focused_pane {
        Pane::Browser => "[Projects]",
        Pane::Services => "[Services]",
    });
    out.append("  │  ");
    out.append(a.browser.current_dir.as_str());
    out
}

/// The project's name for the command bar: the current directory's name,
/// or `project` where it has none.
pub open spec fn project_name_spec(dir: Seq<char>) -> Seq<char> {
    match file_name_spec(dir) {
        Some(n) => if n.len() > 0 && n != seq!['.'] {
            n
        } else {
            "project"@
        },
        None => "project"@,
    }
}

pub fn project_name(dir: &str) -> (r: String)
    ensures
        r@ == project_name_spec(dir@),
{
    let parts = crate::browser::parts_of(dir);
    let ghost ps = strs_view(parts@);
    if parts.len() > 0 {
        let last = &parts[parts.len() - 1];
        let v = crate::text::chars_of(last.as_str());
        let dd = v.len() == 2 && v[0] == '.' && v[1] == '.';
        assert(dd == (last@ == crate::browser::dot_dot())) by {
            if v.len() == 2 && v[0] == '.' && v[1] == '.' {
                assert(v@ =~= crate::browser::dot_dot());
            }
        }
        assert(ps.last() == last@);
        if !dd {
            let dot = v.len() == 1 && v[0] == '.';
            assert(dot == (last@ == seq!['.'])) by {
                if v.len() == 1 && v[0] == '.' {
                    assert(v@ =~= seq!['.']);
                }
            }
            if v.len() > 0 && !dot {
                return last.clone();
            }
        }
    }
    "project".to_owned()
}

/// The command bar: the line typed in command mode; otherwise a hint, to
/// `init` where no service was detected.
pub open spec fn command_bar_spec(a: App) -> Seq<char> {
    match a.mode {
        Mode::Command => ":"@ + a.command@,
        Mode::Normal => if a.services@.len() == 0 {
            ":init —  generate config for  "@ + project_name_spec(a.browser.current_dir@)
        } else {
            ":start / :stop / :cd  —  "@ + project_name_spec(a.browser.current_dir@)
        },
    }
}

pub fn command_bar(a: &App) -> (r: String)
    ensures
        r@ == command_bar_spec(*a),
{
    match a.mode {
        Mode::Command => concat(":", a.command.as_str()),
        Mode::Normal => {
            let project = project_name(a.browser.current_dir.as_str());
            if a.services.len() == 0 {
                concat(":init —  generate config for  ", project.as_str())
            } else {
                concat(":start / :stop / :cd  —  ", project.as_str())
            }
        },
    }
}

/// Lines joined by newlines.
pub open spec fn join_lines(v: Seq<Seq<char>>) -> Seq<char>
    decreases v.len(),
{
    if v.len() == 0 {
        seq![]
    } else if v.len() == 1 {
        v[0]
    } else {
        join_lines(v.drop_last()) + seq!['\n'] + v.last()
    }
}

/// The text of the log pane: the newest 200 lines.
pub open spec fn log_text_spec(log: Seq<Seq<char>>) -> Seq<char> {
    join_lines(
        if log.len() > 200 {
            log.skip(log.len() - 200)
        } else {
            log
        },
    )
}

pub fn log_text(log: &Vec<String>) -> (r: String)
    ensures
        r@ == log_text_spec(strs_view(log@)),
{
    let ghost lv = strs_view(log@);
    let start: usize = if log.len() > 200 {
        log.len() - 200
    } else {
        0
    };
    let ghost shown = lv.skip(start as int);
    assert(shown =~= if lv.len() > 200 {
        lv.skip(lv.len() - 200)
    } else {
        lv
    });
    let mut out = String::new();
    let mut i: usize = start;
    assert(shown.take(0) =~= Seq::<Seq<char>>::empty());
    while i < log.len()
        invariant
            start <= i <= log.len(),
            lv == strs_view(log@),
            shown == lv.skip(start as int),
            out@ == join_lines(shown.take(i - start)),
        decreases log.len() - i,
    {
        let ghost t = shown.take(i + 1 - start);
        assert(t.drop_last() =~= shown.take(i - start));
        assert(t.last() == log@[i as int]@);
        if i > start {
            push_char(&mut out, '\n');
        } else {
            assert(t.len() == 1);
            assert(out@ =~= Seq::<char>::empty());
        }
        out.append(log[i].as_str());
        assert(i == start ==> out@ =~= t[0]);
        i += 1;
    }
    assert(shown.take(log.len() - start) =~= shown);
    out
}

/// The number of newlines in a text.
pub open spec fn newlines(s: Seq<char>) -> nat
    decreases s.len(),
{
    if s.len() == 0 {
        0
    } else {
        newlines(s.drop_last()) + if s.last() == '\n' {
            1nat
        } else {
            0nat
        }
    }
}

/// How far the log pane scrolls down from its first line so that the
/// newest lines show, moved back by `log_scroll` lines: the text has
/// `newlines + 1` lines, the pane shows `height - 2` of them.
pub open spec fn log_offset_spec(text: Seq<char>, height: u16, log_scroll: i32) -> u16 {
    let lines = newlines(text) + 1;
    let visible = if height >= 2 {
        height - 2
    } else {
        0
    };
    let max_scroll = if lines > visible {
        lines - visible
    } else {
        0
    };
    let v = max_scroll - log_scroll;
    if v > 0 {
        (v % 65536) as u16
    } else {
        0
    }
}

pub fn log_offset(text: &str, height: u16, log_scroll: i32) -> (r: u16)
    ensures
        r == log_offset_spec(text@, height, log_scroll),
{
    let v = crate::text::chars_of(text);
    let mut count: u64 = 0;
    let mut i: usize = 0;
    assert(v@.take(0) =~= Seq::<char>::empty());
    while i < v.len()
        invariant
            i <= v.len(),
            count == newlines(v@.take(i as int)),
            count <= i,
        decreases v.len() - i,
    {
        assert(v@.take(i + 1).drop_last() =~= v@.take(i as int));
        if v[i] == '\n' {
            count += 1;
        }
        i += 1;
    }
    assert(v@.take(v.len() as int) =~= v@);
    let lines: u128 = count as u128 + 1;
    let visible: u128 = if height >= 2 {
        (height - 2) as u128
    } else {
        0
    };
    let max_scroll: u128 = if lines > visible {
        lines - visible
    } else {
        0
    };
    let d: i128 = max_scroll as i128 - log_scroll as i128;
    assert(max_scroll <= u64::MAX as u128 + 1);
    if d > 0 {
        (d % 65536) as u16
    } else {
        0
    }
}

} // verus!

verus! {

/// The log pane shows the newest 200 lines of a longer log, and a shorter
/// log whole, one line per text line.
pub proof fn lemma_log_pane_newest_200(log: Seq<Seq<char>>)
    ensures
        log.len() > 200 ==> log_text_spec(log) == join_lines(log.subrange(log.len() - 200, log.len() as int)),
        log.len() <= 200 ==> log_text_spec(log) == join_lines(log),
{
    if log.len() > 200 {
        assert(log.skip(log.len() - 200) =~= log.subrange(log.len() - 200, log.len() as int));
    }
}

} // verus!
