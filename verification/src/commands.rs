//! Command mode: parsing what was typed after `:` and carrying it out.
use vstd::prelude::*;
use crate::app::{App, Effect, EffectView, Pane, effects_view};
use crate::detect::services_view;
use crate::service::{ServiceView, join_path, stop_background_spec, stop_spec};
use crate::text::{chars_of, concat, str_eq, string_of_range, strs_view, trim, trim_spec, words, words_spec};
use crate::browser::is_absolute;

verus! {

/// A command typed in command mode.
pub enum Command {
    Quit,
    /// `cd` with the rest of the line, trimmed.
    Cd(String),
    Services,
    /// `start`, with the service named (or `all`), if any.
    Start(Option<String>),
    Stop(Option<String>),
    Restart(Option<String>),
    Init,
    ExportLog,
    OpenLog,
    /// Empty, or not a command.
    Nothing,
}

pub enum CommandView {
    Quit,
    Cd(Seq<char>),
    Services,
    Start(Option<Seq<char>>),
    Stop(Option<Seq<char>>),
    Restart(Option<Seq<char>>),
    Init,
    ExportLog,
    OpenLog,
    Nothing,
}

pub open spec fn opt_seq(o: Option<String>) -> Option<Seq<char>> {
    match o {
        Some(s) => Some(s@),
        None => None,
    }
}

impl View for Command {
    type V = CommandView;

    open spec fn view(&self) -> CommandView {
        match self {
            Command::Quit => CommandView::Quit,
            Command::Cd(s) => CommandView::Cd(s@),
            Command::Services => CommandView::Services,
            Command::Start(n) => CommandView::Start(opt_seq(*n)),
            Command::Stop(n) => CommandView::Stop(opt_seq(*n)),
            Command::Restart(n) => CommandView::Restart(opt_seq(*n)),
            Command::Init => CommandView::Init,
            Command::ExportLog => CommandView::ExportLog,
            Command::OpenLog => CommandView::OpenLog,
            Command::Nothing => CommandView::Nothing,
        }
    }
}

/// The second word of a command, where there is one.
pub open spec fn argument(ws: Seq<Seq<char>>) -> Option<Seq<char>> {
    if ws.len() > 1 {
        Some(ws[1])
    } else {
        None
    }
}

/// The rest of a `cd` line after the word `cd`, trimmed.
pub open spec fn cd_rest(t: Seq<char>) -> Seq<char> {
    if t.len() >= 2 {
        trim_spec(t.skip(2))
    } else {
        seq![]
    }
}

/// What a typed line means: its first word picks the command.
pub open spec fn command_spec(input: Seq<char>) -> CommandView {
    let t = trim_spec(input);
    let ws = words_spec(t);
    if ws.len() == 0 {
        CommandView::Nothing
    } else {
        let w = ws[0];
        if w == "quit"@ || w == "q"@ {
            CommandView::Quit
        } else if w == "cd"@ {
            CommandView::Cd(cd_rest(t))
        } else if w == "services"@ || w == "ls"@ {
            CommandView::Services
        } else if w == "start"@ {
            CommandView::Start(argument(ws))
        } else if w == "stop"@ {
            CommandView::Stop(argument(ws))
        } else if w == "restart"@ {
            CommandView::Restart(argument(ws))
        } else if w == "init"@ {
            CommandView::Init
        } else if w == "export-log"@ || w == "L"@ {
            CommandView::ExportLog
        } else if w == "logs"@ || w == "open-log"@ {
            CommandView::OpenLog
        } else {
            CommandView::Nothing
        }
    }
}

/// Parses a typed line (see `command_spec`).
pub fn parse_command(input: &str) -> (r: Command)
    ensures
        r@ == command_spec(input@),
{
    let t = trim(input);
    let ws = words(t.as_str());
    if ws.len() == 0 {
        return Command::Nothing;
    }
    let w = ws[0].as_str();
    let arg = if ws.len() > 1 {
        Some(ws[1].clone())
    } else {
        None
    };
    assert(opt_seq(arg) == argument(strs_view(ws@)));
    if str_eq(w, "quit") || str_eq(w, "q") {
        Command::Quit
    } else if str_eq(w, "cd") {
        let v = chars_of(t.as_str());
        let rest = if v.len() >= 2 {
            let tail = string_of_range(&v, 2, v.len());
            assert(v@.skip(2) =~= v@.subrange(2, v@.len() as int));
            trim(tail.as_str())
        } else {
            String::new()
        };
        Command::Cd(rest)
    } else if str_eq(w, "services") || str_eq(w, "ls") {
        Command::Services
    } else if str_eq(w, "start") {
        Command::Start(arg)
    } else if str_eq(w, "stop") {
        Command::Stop(arg)
    } else if str_eq(w, "restart") {
        Command::Restart(arg)
    } else if str_eq(w, "init") {
        Command::Init
    } else if str_eq(w, "export-log") || str_eq(w, "L") {
        Command::ExportLog
    } else if str_eq(w, "logs") || str_eq(w, "open-log") {
        Command::OpenLog
    } else {
        Command::Nothing
    }
}

/// The index of the first service with that name or identifier, or the
/// length where there is none.
pub open spec fn first_match(v: Seq<ServiceView>, n: Seq<char>) -> int
    decreases v.len(),
{
    if v.len() == 0 {
        0
    } else if v[0].name == n || v[0].id == n {
        0
    } else {
        1 + first_match(v.drop_first(), n)
    }
}

/// The services a command acts on: all for `all`, the first with the name
/// or identifier given, or the selected one where none is given.
pub open spec fn targets_spec(v: Seq<ServiceView>, selected: usize, name: Option<Seq<char>>) -> Seq<int> {
    match name {
        Some(n) => if n == "all"@ {
            Seq::new(v.len(), |i: int| i)
        } else if first_match(v, n) < v.len() {
            seq![first_match(v, n)]
        } else {
            seq![]
        },
        None => if selected < v.len() {
            seq![selected as int]
        } else {
            seq![]
        },
    }
}

proof fn lemma_first_match(v: Seq<ServiceView>, n: Seq<char>, j: int)
    requires
        0 <= j <= v.len(),
        forall|k: int| 0 <= k < j ==> !((#[trigger] v[k]).name == n || v[k].id == n),
        j < v.len() ==> v[j].name == n || v[j].id == n,
    ensures
        first_match(v, n) == j,
    decreases v.len(),
{
    if v.len() > 0 && j > 0 {
        let t = v.drop_first();
        assert forall|k: int| 0 <= k < j - 1 implies !((#[trigger] t[k]).name == n || t[k].id == n) by {
            assert(t[k] == v[k + 1]);
        }
        assert(!(v[0].name == n || v[0].id == n));
        lemma_first_match(t, n, j - 1);
    }
}

pub open spec fn opt_str(o: Option<&str>) -> Option<Seq<char>> {
    match o {
        Some(s) => Some(s@),
        None => None,
    }
}

/// The indices of the services a command acts on (see `targets_spec`).
pub fn resolve_targets(app: &App, name: Option<&str>) -> (r: Vec<usize>)
    ensures
        r@.len() == targets_spec(services_view(app.services@), app.service_selected, opt_str(name)).len(),
        forall|k: int| 0 <= k < r@.len() ==> r@[k] as int == #[trigger] targets_spec(
            services_view(app.services@),
            app.service_selected,
            opt_str(name),
        )[k],
{
    let ghost sv = services_view(app.services@);
    let mut out: Vec<usize> = Vec::new();
    match name {
        Some(n) => {
            if str_eq(n, "all") {
                let mut i: usize = 0;
                while i < app.services.len()
                    invariant
                        i <= app.services.len(),
                        out@.len() == i,
                        forall|k: int| 0 <= k < i ==> out@[k] as int == k,
                    decreases app.services.len() - i,
                {
                    out.push(i);
                    i += 1;
                }
            } else {
                let mut i: usize = 0;
                while i < app.services.len() && !(str_eq(app.services[i].name.as_str(), n) || str_eq(
                    app.services[i].id.as_str(),
                    n,
                ))
                    invariant
                        i <= app.services.len(),
                        sv == services_view(app.services@),
                        forall|k: int| 0 <= k < i ==> !((#[trigger] sv[k]).name == n@ || sv[k].id == n@),
                    decreases app.services.len() - i,
                {
                    i += 1;
                }
                proof {
                    lemma_first_match(sv, n@, i as int);
                }
                if i < app.services.len() {
                    out.push(i);
                }
            }
        },
        None => {
            if app.service_selected < app.services.len() {
                out.push(app.service_selected);
            }
        },
    }
    out
}

/// The log lines and starts of `start` over the targets, in order.
pub open spec fn start_run(v: Seq<ServiceView>, ts: Seq<int>) -> Seq<EffectView>
    decreases ts.len(),
{
    if ts.len() == 0 {
        seq![]
    } else {
        start_run(v, ts.drop_last()) + seq![
            EffectView::Log("[launch] Starting service: "@ + v[ts.last()].name),
            EffectView::Start(ts.last() as usize),
        ]
    }
}

/// `stop` over the targets, in order: each is stopped in the background.
pub open spec fn stop_run(v: Seq<ServiceView>, ts: Seq<int>) -> (Seq<ServiceView>, Seq<EffectView>)
    decreases ts.len(),
{
    if ts.len() == 0 {
        (v, seq![])
    } else {
        let r = stop_run(v, ts.drop_last());
        let k = ts.last();
        let s = r.0[k];
        (r.0.update(k, stop_background_spec(s)), r.1 + seq![EffectView::Log("[sys] Stopping service: "@ + s.name)]
            + match s.child {
            Some(p) => seq![EffectView::KillInBackground(p)],
            None => seq![],
        })
    }
}

/// `restart` over the targets, in order: each is stopped, waiting, then
/// started.
pub open spec fn restart_run(v: Seq<ServiceView>, ts: Seq<int>) -> (Seq<ServiceView>, Seq<EffectView>)
    decreases ts.len(),
{
    if ts.len() == 0 {
        (v, seq![])
    } else {
        let r = restart_run(v, ts.drop_last());
        let k = ts.last();
        let s = r.0[k];
        (r.0.update(k, stop_spec(s)), r.1 + seq![EffectView::Log("[sys] Restarting service: "@ + s.name)]
            + match s.child {
            Some(p) => seq![EffectView::Kill(p)],
            None => seq![],
        } + seq![EffectView::Start(k as usize)])
    }
}

/// The log line where no service matched a name.
pub open spec fn not_found(name: Option<Seq<char>>) -> Seq<EffectView> {
    match name {
        Some(n) => seq![EffectView::Log("[err] Service not found: "@ + n)],
        None => seq![],
    }
}

/// Where `cd` goes: the path, joined to the current directory where relative.
pub open spec fn cd_target(current: Seq<char>, path: Seq<char>) -> Seq<char> {
    if is_absolute(path) {
        path
    } else {
        join_path(current, path)
    }
}

/// The fields a command leaves alone besides the mode and the command line.
pub open spec fn command_frame(pre: App, post: App) -> bool {
    &&& post.browser == pre.browser
    &&& post.service_cache == pre.service_cache
    &&& post.service_selected == pre.service_selected
    &&& post.log_scroll == pre.log_scroll
}

/// `post` is `pre` after carrying out the typed line `input`.
pub open spec fn executed(pre: App, post: App, input: Seq<char>) -> bool {
    &&& carried_out(pre, post, input)
    &&& post.mode == pre.mode
    &&& post.command == pre.command
}

/// What carrying out `input` changes beyond the mode and the command line.
pub open spec fn carried_out(pre: App, post: App, input: Seq<char>) -> bool {
    let pv = services_view(pre.services@);
    let qv = services_view(post.services@);
    let e0 = effects_view(pre.effects@);
    let e1 = effects_view(post.effects@);
    &&& command_frame(pre, post)
    &&& match command_spec(input) {
        CommandView::Nothing => qv == pv && e1 == e0 && post.focused_pane == pre.focused_pane
            && post.should_quit == pre.should_quit,
        CommandView::Quit => qv == pv && e1 == e0.push(EffectView::Log("[sys] Quit requested"@))
            && post.focused_pane == pre.focused_pane && post.should_quit,
        CommandView::Cd(rest) => qv == pv && post.focused_pane == pre.focused_pane && post.should_quit
            == pre.should_quit && e1 == if rest.len() == 0 {
            e0
        } else {
            e0 + seq![
                EffectView::Log("[sys] cd: "@ + rest),
                EffectView::CheckDir(cd_target(pre.browser.current_dir@, rest)),
            ]
        },
        CommandView::Services => qv == pv && e1 == e0 && post.focused_pane == Pane::Services
            && post.should_quit == pre.should_quit,
        CommandView::Start(n) => {
            let ts = targets_spec(pv, pre.service_selected, n);
            &&& qv == pv
            &&& post.should_quit == pre.should_quit
            &&& ts.len() == 0 ==> e1 == e0 + not_found(n) && post.focused_pane == pre.focused_pane
            &&& ts.len() > 0 ==> e1 == e0 + start_run(pv, ts) && post.focused_pane == Pane::Services
        },
        CommandView::Stop(n) => {
            let ts = targets_spec(pv, pre.service_selected, n);
            &&& post.should_quit == pre.should_quit
            &&& ts.len() == 0 ==> qv == pv && e1 == e0 + not_found(n) && post.focused_pane == pre.focused_pane
            &&& ts.len() > 0 ==> qv == stop_run(pv, ts).0 && e1 == e0 + stop_run(pv, ts).1
                && post.focused_pane == Pane::Services
        },
        CommandView::Restart(n) => {
            let ts = targets_spec(pv, pre.service_selected, n);
            &&& post.should_quit == pre.should_quit
            &&& ts.len() == 0 ==> qv == pv && e1 == e0 + not_found(n) && post.focused_pane == pre.focused_pane
            &&& ts.len() > 0 ==> qv == restart_run(pv, ts).0 && e1 == e0 + restart_run(pv, ts).1
                && post.focused_pane == Pane::Services
        },
        CommandView::Init => qv == pv && e1 == e0.push(EffectView::Init) && post.focused_pane
            == pre.focused_pane && post.should_quit == pre.should_quit,
        CommandView::ExportLog => qv == pv && e1 == e0.push(EffectView::ExportLog("rudder-session.log"@))
            && post.focused_pane == pre.focused_pane && post.should_quit == pre.should_quit,
        CommandView::OpenLog => qv == pv && e1 == e0 + seq![
            EffectView::Log("[sys] Opening session log"@),
            EffectView::OpenLog,
        ] && post.focused_pane == pre.focused_pane && post.should_quit == pre.should_quit,
    }
}

fn start_targets(app: &mut App, name: Option<&str>)
    ensures
        ({
            let pre = *old(app);
            let post = *final(app);
            let pv = services_view(pre.services@);
            let ts = targets_spec(pv, pre.service_selected, opt_str(name));
            &&& command_frame(pre, post)
            &&& post.mode == pre.mode && post.command == pre.command
            &&& post.services == pre.services
            &&& post.should_quit == pre.should_quit
            &&& ts.len() == 0 ==> effects_view(post.effects@) == effects_view(pre.effects@) + not_found(opt_str(name)) && post.focused_pane == pre.focused_pane
            &&& ts.len() > 0 ==> effects_view(post.effects@) == effects_view(pre.effects@) + start_run(pv, ts) && post.focused_pane == Pane::Services
        }),
{
    let ghost pv = services_view(app.services@);
    let ghost e0 = effects_view(app.effects@);
    let ghost tsv = targets_spec(pv, app.service_selected, opt_str(name));
    let ts = resolve_targets(app, name);
    proof {
        lemma_targets_in_range(pv, app.service_selected, opt_str(name));
    }
    if ts.len() == 0 {
        match name {
            Some(n) => app.log(concat("[err] Service not found: ", n).as_str()),
            None => {},
        }
        assert(effects_view(app.effects@) =~= e0 + not_found(opt_str(name)));
        return;
    }
    let mut k: usize = 0;
    assert(tsv.take(0) =~= Seq::<int>::empty());
    assert(e0 + Seq::<EffectView>::empty() =~= e0);
    while k < ts.len()
        invariant
            k <= ts.len(),
            ts@.len() == tsv.len(),
            forall|j: int| 0 <= j < ts@.len() ==> ts@[j] as int == #[trigger] tsv[j],
            forall|j: int| 0 <= j < tsv.len() ==> 0 <= #[trigger] tsv[j] < pv.len(),
            pv == services_view(app.services@),
            effects_view(app.effects@) == e0 + start_run(pv, tsv.take(k as int)),
            command_frame(*old(app), *app),
            app.mode == old(app).mode,
            app.command == old(app).command,
            app.services == old(app).services,
            app.should_quit == old(app).should_quit,
            app.focused_pane == old(app).focused_pane,
        decreases ts.len() - k,
    {
        let i = ts[k];
        assert(tsv[k as int] == i as int);
        let nm = app.services[i].name.clone();
        let ghost eb = effects_view(app.effects@);
        app.log(concat("[launch] Starting service: ", nm.as_str()).as_str());
        app.emit(Effect::Start(i));
        assert(tsv.take(k + 1).drop_last() =~= tsv.take(k as int));
        assert(tsv.take(k + 1).last() == i as int);
        assert(effects_view(app.effects@) =~= eb + seq![
            EffectView::Log("[launch] Starting service: "@ + pv[i as int].name),
            EffectView::Start(i),
        ]);
        k += 1;
    }
    assert(tsv.take(ts.len() as int) =~= tsv);
    app.focused_pane = Pane::Services;
}

proof fn lemma_first_match_bounds(v: Seq<ServiceView>, n: Seq<char>)
    ensures
        0 <= first_match(v, n) <= v.len(),
    decreases v.len(),
{
    if v.len() > 0 && !(v[0].name == n || v[0].id == n) {
        lemma_first_match_bounds(v.drop_first(), n);
    }
}

proof fn lemma_targets_in_range(v: Seq<ServiceView>, selected: usize, name: Option<Seq<char>>)
    ensures
        forall|j: int| 0 <= j < targets_spec(v, selected, name).len() ==> 0 <= #[trigger] targets_spec(
            v,
            selected,
            name,
        )[j] < v.len(),
{
    match name {
        Some(n) => {
            lemma_first_match_bounds(v, n);
        },
        None => {},
    }
}

proof fn lemma_stop_run_len(v: Seq<ServiceView>, ts: Seq<int>)
    requires
        forall|j: int| 0 <= j < ts.len() ==> 0 <= #[trigger] ts[j] < v.len(),
    ensures
        stop_run(v, ts).0.len() == v.len(),
        restart_run(v, ts).0.len() == v.len(),
    decreases ts.len(),
{
    if ts.len() > 0 {
        lemma_stop_run_len(v, ts.drop_last());
    }
}

fn stop_targets(app: &mut App, name: Option<&str>, restart: bool)
    ensures
        ({
            let pre = *old(app);
            let post = *final(app);
            let pv = services_view(pre.services@);
            let ts = targets_spec(pv, pre.service_selected, opt_str(name));
            let run = if restart {
                restart_run(pv, ts)
            } else {
                stop_run(pv, ts)
            };
            &&& command_frame(pre, post)
            &&& post.mode == pre.mode && post.command == pre.command
            &&& post.should_quit == pre.should_quit
            &&& ts.len() == 0 ==> post.services == pre.services && effects_view(post.effects@) == effects_view(pre.effects@) + not_found(opt_str(name)) && post.focused_pane == pre.focused_pane
            &&& ts.len() > 0 ==> services_view(post.services@) == run.0 && effects_view(post.effects@) == effects_view(pre.effects@) + run.1 && post.focused_pane == Pane::Services
        }),
{
    let ghost pv = services_view(app.services@);
    let ghost e0 = effects_view(app.effects@);
    let ghost tsv = targets_spec(pv, app.service_selected, opt_str(name));
    let ts = resolve_targets(app, name);
    proof {
        lemma_targets_in_range(pv, app.service_selected, opt_str(name));
    }
    if ts.len() == 0 {
        match name {
            Some(n) => app.log(concat("[err] Service not found: ", n).as_str()),
            None => {},
        }
        assert(effects_view(app.effects@) =~= e0 + not_found(opt_str(name)));
        return;
    }
    let mut k: usize = 0;
    assert(tsv.take(0) =~= Seq::<int>::empty());
    assert(e0 + Seq::<EffectView>::empty() =~= e0);
    while k < ts.len()
        invariant
            k <= ts.len(),
            ts@.len() == tsv.len(),
            forall|j: int| 0 <= j < ts@.len() ==> ts@[j] as int == #[trigger] tsv[j],
            forall|j: int| 0 <= j < tsv.len() ==> 0 <= #[trigger] tsv[j] < pv.len(),
            services_view(app.services@) == (if restart {
                restart_run(pv, tsv.take(k as int))
            } else {
                stop_run(pv, tsv.take(k as int))
            }).0,
            effects_view(app.effects@) == e0 + (if restart {
                restart_run(pv, tsv.take(k as int))
            } else {
                stop_run(pv, tsv.take(k as int))
            }).1,
            command_frame(*old(app), *app),
            app.mode == old(app).mode,
            app.command == old(app).command,
            app.should_quit == old(app).should_quit,
            app.focused_pane == old(app).focused_pane,
        decreases ts.len() - k,
    {
        let i = ts[k];
        assert(tsv[k as int] == i as int);
        assert(tsv.take(k + 1).drop_last() =~= tsv.take(k as int));
        assert(tsv.take(k + 1).last() == i as int);
        assert forall|j: int| 0 <= j < tsv.take(k as int).len() implies 0 <= #[trigger] tsv.take(k as int)[j] < pv.len() by {
            assert(tsv.take(k as int)[j] == tsv[j]);
        }
        proof {
            lemma_stop_run_len(pv, tsv.take(k as int));
        }
        assert(i < app.services.len());
        let nm = app.services[i].name.clone();
        let ghost eb = effects_view(app.effects@);
        let ghost sb = services_view(app.services@);
        if restart {
            app.log(concat("[sys] Restarting service: ", nm.as_str()).as_str());
            let pid = app.stop_at(i);
            match pid {
                Some(p) => app.emit(Effect::Kill(p)),
                None => {},
            }
            app.emit(Effect::Start(i));
            assert(effects_view(app.effects@) =~= eb + seq![EffectView::Log("[sys] Restarting service: "@ + sb[i as int].name)]
                + match sb[i as int].child {
                Some(p) => seq![EffectView::Kill(p)],
                None => Seq::<EffectView>::empty(),
            } + seq![EffectView::Start(i)]);
        } else {
            app.log(concat("[sys] Stopping service: ", nm.as_str()).as_str());
            let pid = app.stop_background_at(i);
            match pid {
                Some(p) => app.emit(Effect::KillInBackground(p)),
                None => {},
            }
            assert(effects_view(app.effects@) =~= eb + seq![EffectView::Log("[sys] Stopping service: "@ + sb[i as int].name)]
                + match sb[i as int].child {
                Some(p) => seq![EffectView::KillInBackground(p)],
                None => Seq::<EffectView>::empty(),
            });
        }
        k += 1;
    }
    assert(tsv.take(ts.len() as int) =~= tsv);
    app.focused_pane = Pane::Services;
}

fn as_opt_str(o: &Option<String>) -> (r: Option<&str>)
    ensures
        opt_str(r) == opt_seq(*o),
{
    match o {
        Some(s) => Some(s.as_str()),
        None => None,
    }
}

/// Carries out a typed line (see `executed`).
pub fn execute(app: &mut App, input: &str)
    ensures
        executed(*old(app), *final(app), input@),
{
    let cmd = parse_command(input);
    match cmd {
        Command::Nothing => {},
        Command::Quit => {
            app.log("[sys] Quit requested");
            app.should_quit = true;
        },
        Command::Cd(rest) => {
            if rest.unicode_len() > 0 {
                let ghost e0 = effects_view(app.effects@);
                app.log(concat("[sys] cd: ", rest.as_str()).as_str());
                app.change_dir(rest.as_str());
                assert(effects_view(app.effects@) =~= e0 + seq![
                    EffectView::Log("[sys] cd: "@ + rest@),
                    EffectView::CheckDir(cd_target(old(app).browser.current_dir@, rest@)),
                ]);
            }
        },
        Command::Services => {
            app.focused_pane = Pane::Services;
        },
        Command::Start(n) => start_targets(app, as_opt_str(&n)),
        Command::Stop(n) => stop_targets(app, as_opt_str(&n), false),
        Command::Restart(n) => stop_targets(app, as_opt_str(&n), true),
        Command::Init => app.emit(Effect::Init),
        Command::ExportLog => app.emit(Effect::ExportLog("rudder-session.log".to_owned())),
        Command::OpenLog => {
            let ghost e0 = effects_view(app.effects@);
            app.log("[sys] Opening session log");
            app.open_log();
            assert(effects_view(app.effects@) =~= e0 + seq![
                EffectView::Log("[sys] Opening session log"@),
                EffectView::OpenLog,
            ]);
        },
    }
}

} // verus!

verus! {

proof fn lemma_command_words_distinct()
    ensures
        "quit"@ != "q"@,
        "quit"@ != "cd"@,
        "quit"@ != "services"@,
        "quit"@ != "ls"@,
        "quit"@ != "start"@,
        "quit"@ != "stop"@,
        "quit"@ != "restart"@,
        "quit"@ != "init"@,
        "quit"@ != "export-log"@,
        "quit"@ != "L"@,
        "quit"@ != "logs"@,
        "quit"@ != "open-log"@,
        "q"@ != "cd"@,
        "q"@ != "services"@,
        "q"@ != "ls"@,
        "q"@ != "start"@,
        "q"@ != "stop"@,
        "q"@ != "restart"@,
        "q"@ != "init"@,
        "q"@ != "export-log"@,
        "q"@ != "L"@,
        "q"@ != "logs"@,
        "q"@ != "open-log"@,
        "cd"@ != "services"@,
        "cd"@ != "ls"@,
        "cd"@ != "start"@,
        "cd"@ != "stop"@,
        "cd"@ != "restart"@,
        "cd"@ != "init"@,
        "cd"@ != "export-log"@,
        "cd"@ != "L"@,
        "cd"@ != "logs"@,
        "cd"@ != "open-log"@,
        "services"@ != "ls"@,
        "services"@ != "start"@,
        "services"@ != "stop"@,
        "services"@ != "restart"@,
        "services"@ != "init"@,
        "services"@ != "export-log"@,
        "services"@ != "L"@,
        "services"@ != "logs"@,
        "services"@ != "open-log"@,
        "ls"@ != "start"@,
        "ls"@ != "stop"@,
        "ls"@ != "restart"@,
        "ls"@ != "init"@,
        "ls"@ != "export-log"@,
        "ls"@ != "L"@,
        "ls"@ != "logs"@,
        "ls"@ != "open-log"@,
        "start"@ != "stop"@,
        "start"@ != "restart"@,
        "start"@ != "init"@,
        "start"@ != "export-log"@,
        "start"@ != "L"@,
        "start"@ != "logs"@,
        "start"@ != "open-log"@,
        "stop"@ != "restart"@,
        "stop"@ != "init"@,
        "stop"@ != "export-log"@,
        "stop"@ != "L"@,
        "stop"@ != "logs"@,
        "stop"@ != "open-log"@,
        "restart"@ != "init"@,
        "restart"@ != "export-log"@,
        "restart"@ != "L"@,
        "restart"@ != "logs"@,
        "restart"@ != "open-log"@,
        "init"@ != "export-log"@,
        "init"@ != "L"@,
        "init"@ != "logs"@,
        "init"@ != "open-log"@,
        "export-log"@ != "L"@,
        "export-log"@ != "logs"@,
        "export-log"@ != "open-log"@,
        "L"@ != "logs"@,
        "L"@ != "open-log"@,
        "logs"@ != "open-log"@,
{
    reveal_strlit("quit");
    assert("quit"@.len() == 4);
    reveal_strlit("q");
    assert("q"@.len() == 1);
    reveal_strlit("cd");
    assert("cd"@.len() == 2);
    reveal_strlit("services");
    assert("services"@.len() == 8);
    reveal_strlit("ls");
    assert("ls"@.len() == 2);
    reveal_strlit("start");
    assert("start"@.len() == 5);
    reveal_strlit("stop");
    assert("stop"@.len() == 4);
    reveal_strlit("restart");
    assert("restart"@.len() == 7);
    reveal_strlit("init");
    assert("init"@.len() == 4);
    reveal_strlit("export-log");
    assert("export-log"@.len() == 10);
    reveal_strlit("L");
    assert("L"@.len() == 1);
    reveal_strlit("logs");
    assert("logs"@.len() == 4);
    reveal_strlit("open-log");
    assert("open-log"@.len() == 8);
    assert("quit"@[0] != "stop"@[0]);
    assert("quit"@[0] != "init"@[0]);
    assert("quit"@[0] != "logs"@[0]);
    assert("q"@[0] != "L"@[0]);
    assert("cd"@[0] != "ls"@[0]);
    assert("services"@[0] != "open-log"@[0]);
    assert("stop"@[0] != "init"@[0]);
    assert("stop"@[0] != "logs"@[0]);
    assert("init"@[0] != "logs"@[0]);
}

/// What a typed line asks for, by its first word (after trimming, words
/// split at whitespace): `quit`/`q`, `cd`, `services`/`ls`, `init`,
/// `export-log`/`L`, `logs`/`open-log`, and `start`, `stop` and `restart`,
/// each of these three acting on the service its second word names, or on
/// the selected one where there is no second word; an empty line or any
/// other word asks for nothing.
pub proof fn lemma_command_words(input: Seq<char>)
    ensures
        ({
            let ws = words_spec(trim_spec(input));
            let c = command_spec(input);
            &&& ws.len() == 0 ==> c == CommandView::Nothing
            &&& ws.len() > 0 && (ws[0] == "quit"@ || ws[0] == "q"@) ==> c == CommandView::Quit
            &&& ws.len() > 0 && ws[0] == "cd"@ ==> c is Cd
            &&& ws.len() > 0 && (ws[0] == "services"@ || ws[0] == "ls"@) ==> c == CommandView::Services
            &&& ws.len() > 1 && ws[0] == "start"@ ==> c == CommandView::Start(Some(ws[1]))
            &&& ws.len() == 1 && ws[0] == "start"@ ==> c == CommandView::Start(None)
            &&& ws.len() > 1 && ws[0] == "stop"@ ==> c == CommandView::Stop(Some(ws[1]))
            &&& ws.len() == 1 && ws[0] == "stop"@ ==> c == CommandView::Stop(None)
            &&& ws.len() > 1 && ws[0] == "restart"@ ==> c == CommandView::Restart(Some(ws[1]))
            &&& ws.len() == 1 && ws[0] == "restart"@ ==> c == CommandView::Restart(None)
            &&& ws.len() > 0 && ws[0] == "init"@ ==> c == CommandView::Init
            &&& ws.len() > 0 && (ws[0] == "export-log"@ || ws[0] == "L"@) ==> c == CommandView::ExportLog
            &&& ws.len() > 0 && (ws[0] == "logs"@ || ws[0] == "open-log"@) ==> c == CommandView::OpenLog
            &&& ws.len() > 0 && !(ws[0] == "quit"@ || ws[0] == "q"@ || ws[0] == "cd"@ || ws[0] == "services"@
                || ws[0] == "ls"@ || ws[0] == "start"@ || ws[0] == "stop"@ || ws[0] == "restart"@ || ws[0]
                == "init"@ || ws[0] == "export-log"@ || ws[0] == "L"@ || ws[0] == "logs"@ || ws[0]
                == "open-log"@) ==> c == CommandView::Nothing
        }),
{
    lemma_command_words_distinct();
}

} // verus!
