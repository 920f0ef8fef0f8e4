//! The state of the terminal UI and how each key action and command changes
//! it. Every outside action that a change calls for (a line for the session
//! log, a process to end or start, a directory to list and detect, a file
//! to write) is queued in `effects`, in order, for the caller to carry out;
//! where the outcome matters, the caller hands it back through the method
//! the effect names.
use vstd::prelude::*;
use crate::browser::FileBrowser;
use crate::detect::services_view;
use crate::browser::{changed_to, entered, went_up};
use crate::input::Action;
use crate::service::{
    ChildPoll, Service, ServiceView, Status, StatusView, is_active, join_path, refresh_spec, status_eq,
    stop_background_spec, stop_spec,
};
use crate::text::{concat, str_eq, strs_view};

verus! {

/// Whether keys move the selection or edit a command.
#[derive(Clone, Copy, Debug, PartialEq, Eq, Structural)]
pub enum Mode {
    Normal,
    Command,
}

/// The focused pane.
#[derive(Clone, Copy, Debug, PartialEq, Eq, Structural)]
pub enum Pane {
    Browser,
    Services,
}

/// An outside action the caller carries out, in queue order.
pub enum Effect {
    /// Append the line to the session log.
    Log(String),
    /// End the process group and reap the process, waiting for it.
    Kill(u32),
    /// End the process group without waiting; a later refresh reaps it.
    KillInBackground(u32),
    /// Start the service at that index (`Service::start`, then spawn and
    /// `Service::record_spawn`) in the browser's directory.
    Start(usize),
    /// List the browser's directory (`FileBrowser::refresh`), detect its
    /// services and hand them to `App::restore_services`.
    Relocate,
    /// Check whether the path is a directory and hand the answer to
    /// `App::finish_change_dir`.
    CheckDir(String),
    /// Detect the services `init` writes out for the browser's directory
    /// and hand them to `App::init_with`.
    Init,
    /// Write the text to the file at the path and hand the outcome to
    /// `App::config_written`.
    WriteConfig(String, String),
    /// Copy the session log to the path and hand the outcome to
    /// `App::log_exported`.
    ExportLog(String),
    /// Open the session log in the system viewer.
    OpenLog,
    /// Detect the services of the browser's directory and hand them to
    /// `App::restore_or_detect`.
    Redetect,
}

pub enum EffectView {
    Log(Seq<char>),
    Kill(u32),
    KillInBackground(u32),
    Start(usize),
    Relocate,
    CheckDir(Seq<char>),
    Init,
    WriteConfig(Seq<char>, Seq<char>),
    ExportLog(Seq<char>),
    OpenLog,
    Redetect,
}

impl View for Effect {
    type V = EffectView;

    open spec fn view(&self) -> EffectView {
        match self {
            Effect::Log(s) => EffectView::Log(s@),
            Effect::Kill(p) => EffectView::Kill(*p),
            Effect::KillInBackground(p) => EffectView::KillInBackground(*p),
            Effect::Start(i) => EffectView::Start(*i),
            Effect::Relocate => EffectView::Relocate,
            Effect::CheckDir(p) => EffectView::CheckDir(p@),
            Effect::Init => EffectView::Init,
            Effect::WriteConfig(p, t) => EffectView::WriteConfig(p@, t@),
            Effect::ExportLog(p) => EffectView::ExportLog(p@),
            Effect::OpenLog => EffectView::OpenLog,
            Effect::Redetect => EffectView::Redetect,
        }
    }
}

pub open spec fn effects_view(v: Seq<Effect>) -> Seq<EffectView> {
    v.map_values(|e: Effect| e@)
}

/// What is kept of a service while its directory is left.
pub struct CachedService {
    pub name: String,
    pub status: Status,
    pub log: Vec<String>,
}

/// The services kept for one directory.
pub struct CacheEntry {
    pub dir: String,
    pub services: Vec<CachedService>,
}

/// The terminal UI's state.
pub struct App {
    pub mode: Mode,
    pub should_quit: bool,
    pub services: Vec<Service>,
    pub command: String,
    pub browser: FileBrowser,
    pub focused_pane: Pane,
    pub service_selected: usize,
    pub log_scroll: i32,
    /// Status and log of the services of directories left, newest last.
    pub service_cache: Vec<CacheEntry>,
    /// Outside actions owed, oldest first.
    pub effects: Vec<Effect>,
}

/// The fields that only moving around, editing a command and scrolling
/// change.
pub open spec fn same_frame(pre: App, post: App) -> bool {
    &&& post.browser == pre.browser
    &&& post.service_cache == pre.service_cache
    &&& post.service_selected == pre.service_selected
    &&& post.log_scroll == pre.log_scroll
    &&& post.mode == pre.mode
    &&& post.command == pre.command
}

/// Only the effects changed.
pub open spec fn only_effects(pre: App, post: App) -> bool {
    &&& same_frame(pre, post)
    &&& post.services == pre.services
    &&& post.focused_pane == pre.focused_pane
    &&& post.should_quit == pre.should_quit
}

/// The services after stopping each, and the processes to end, in order.
pub open spec fn stop_all(s: Seq<ServiceView>) -> (Seq<ServiceView>, Seq<EffectView>)
    decreases s.len(),
{
    if s.len() == 0 {
        (seq![], seq![])
    } else {
        let r = stop_all(s.drop_last());
        (r.0.push(stop_spec(s.last())), match s.last().child {
            Some(pid) => r.1.push(EffectView::Kill(pid)),
            None => r.1,
        })
    }
}

/// What is kept of a service: name, status and log.
pub open spec fn cached_view(c: CachedService) -> (Seq<char>, StatusView, Seq<Seq<char>>) {
    (c.name@, c.status@, strs_view(c.log@))
}

pub open spec fn snapshot(s: Seq<ServiceView>) -> Seq<(Seq<char>, StatusView, Seq<Seq<char>>)> {
    s.map_values(|v: ServiceView| (v.name, v.status, v.log))
}

/// The cache as directory and kept services.
pub open spec fn cache_view(c: Seq<CacheEntry>) -> Seq<(Seq<char>, Seq<(Seq<char>, StatusView, Seq<Seq<char>>)>)> {
    c.map_values(|e: CacheEntry| (e.dir@, e.services@.map_values(|s: CachedService| cached_view(s))))
}

/// The index of the cache entry for `dir`, or the length where there is none.
pub open spec fn cache_index(c: Seq<(Seq<char>, Seq<(Seq<char>, StatusView, Seq<Seq<char>>)>)>, dir: Seq<char>) -> int
    decreases c.len(),
{
    if c.len() == 0 {
        0
    } else if c[0].0 == dir {
        0
    } else {
        1 + cache_index(c.drop_first(), dir)
    }
}

/// The cache with the entry for `dir` (where there is one) replaced by
/// `kept`, placed last.
pub open spec fn cache_saved(
    c: Seq<(Seq<char>, Seq<(Seq<char>, StatusView, Seq<Seq<char>>)>)>,
    dir: Seq<char>,
    kept: Seq<(Seq<char>, StatusView, Seq<Seq<char>>)>,
) -> Seq<(Seq<char>, Seq<(Seq<char>, StatusView, Seq<Seq<char>>)>)> {
    let i = cache_index(c, dir);
    (if i < c.len() {
        c.remove(i)
    } else {
        c
    }).push((dir, kept))
}

/// The last kept service of that name: its status and log.
pub open spec fn kept_for(kept: Seq<(Seq<char>, StatusView, Seq<Seq<char>>)>, name: Seq<char>) -> Option<(StatusView, Seq<Seq<char>>)>
    decreases kept.len(),
{
    if kept.len() == 0 {
        None
    } else if kept.last().0 == name {
        Some((kept.last().1, kept.last().2))
    } else {
        kept_for(kept.drop_last(), name)
    }
}

/// The status a service comes back with: its processes were stopped when
/// the directory was left, so one that was starting, running or stopping
/// comes back stopped; a stopped or failed one keeps its status.
pub open spec fn returned_status(st: StatusView) -> StatusView {
    if is_active(st) {
        StatusView::Stopped
    } else {
        st
    }
}

/// A fresh service with the log kept for its name, where any, and the
/// status kept for it once its process was stopped (see `returned_status`).
pub open spec fn restored(s: ServiceView, kept: Seq<(Seq<char>, StatusView, Seq<Seq<char>>)>) -> ServiceView {
    match kept_for(kept, s.name) {
        Some(k) => ServiceView { status: returned_status(k.0), log: k.1, ..s },
        None => s,
    }
}

/// The services of a directory: freshly detected, with the state kept when
/// it was left (where it was); and the cache without that entry.
pub open spec fn restore_spec(
    fresh: Seq<ServiceView>,
    c: Seq<(Seq<char>, Seq<(Seq<char>, StatusView, Seq<Seq<char>>)>)>,
    dir: Seq<char>,
) -> (Seq<ServiceView>, Seq<(Seq<char>, Seq<(Seq<char>, StatusView, Seq<Seq<char>>)>)>) {
    let i = cache_index(c, dir);
    if i < c.len() {
        (fresh.map_values(|s: ServiceView| restored(s, c[i].1)), c.remove(i))
    } else {
        (fresh, c)
    }
}

proof fn lemma_cache_index(c: Seq<(Seq<char>, Seq<(Seq<char>, StatusView, Seq<Seq<char>>)>)>, dir: Seq<char>, j: int)
    requires
        0 <= j <= c.len(),
        forall|k: int| 0 <= k < j ==> (#[trigger] c[k]).0 != dir,
        j < c.len() ==> c[j].0 == dir,
    ensures
        cache_index(c, dir) == j,
    decreases c.len(),
{
    if c.len() > 0 && j > 0 {
        let t = c.drop_first();
        assert forall|k: int| 0 <= k < j - 1 implies (#[trigger] t[k]).0 != dir by {
            assert(t[k] == c[k + 1]);
        }
        assert(c[0].0 != dir);
        lemma_cache_index(t, dir, j - 1);
    }
}

fn copy_log(v: &Vec<String>) -> (r: Vec<String>)
    ensures
        strs_view(r@) == strs_view(v@),
{
    let mut out: Vec<String> = Vec::new();
    let mut i: usize = 0;
    while i < v.len()
        invariant
            i <= v.len(),
            strs_view(out@) == strs_view(v@).take(i as int),
        decreases v.len() - i,
    {
        let x = v[i].clone();
        let ghost before = out@;
        out.push(x);
        assert(strs_view(out@) =~= strs_view(before).push(x@));
        assert(strs_view(v@).take(i + 1) =~= strs_view(v@).take(i as int).push(v@[i as int]@));
        i += 1;
    }
    assert(strs_view(v@).take(v.len() as int) =~= strs_view(v@));
    out
}

fn find_cache(cache: &Vec<CacheEntry>, dir: &str) -> (r: usize)
    ensures
        r as int == cache_index(cache_view(cache@), dir@),
        r <= cache.len(),
{
    let ghost cv = cache_view(cache@);
    let mut i: usize = 0;
    while i < cache.len()
        invariant
            i <= cache.len(),
            cv == cache_view(cache@),
            forall|k: int| 0 <= k < i ==> (#[trigger] cv[k]).0 != dir@,
        decreases cache.len() - i,
    {
        if str_eq(cache[i].dir.as_str(), dir) {
            proof {
                lemma_cache_index(cv, dir@, i as int);
            }
            return i;
        }
        i += 1;
    }
    proof {
        lemma_cache_index(cv, dir@, i as int);
    }
    i
}

fn kept_lookup(kept: &Vec<CachedService>, name: &str) -> (r: Option<usize>)
    ensures
        match r {
            Some(k) => k < kept.len() && kept_for(kept@.map_values(|s: CachedService| cached_view(s)), name@)
                == Some((kept@[k as int].status@, strs_view(kept@[k as int].log@))),
            None => kept_for(kept@.map_values(|s: CachedService| cached_view(s)), name@) is None,
        },
{
    let ghost kv = kept@.map_values(|s: CachedService| cached_view(s));
    let mut i: usize = kept.len();
    assert(kv.take(i as int) =~= kv);
    while i > 0
        invariant
            i <= kept.len(),
            kv == kept@.map_values(|s: CachedService| cached_view(s)),
            kept_for(kv, name@) == kept_for(kv.take(i as int), name@),
        decreases i,
    {
        assert(kv.take(i as int).last() == cached_view(kept@[i - 1]));
        assert(kv.take(i as int).drop_last() =~= kv.take(i - 1));
        if str_eq(kept[i - 1].name.as_str(), name) {
            return Some(i - 1);
        }
        i -= 1;
    }
    assert(kv.take(0) =~= Seq::<(Seq<char>, StatusView, Seq<Seq<char>>)>::empty());
    None
}

/// Moving the selection up: the browser entry or the service, in normal
/// mode; a new service selection scrolls its log back to the newest lines.
pub open spec fn previous_rel(pre: App, post: App) -> bool {
    if pre.mode != Mode::Normal {
        post == pre
    } else if pre.focused_pane == Pane::Browser {
        post == (App { browser: post.browser, ..pre }) && post.browser == (FileBrowser {
            selected: if pre.browser.selected > 0 {
                (pre.browser.selected - 1) as usize
            } else {
                pre.browser.selected
            },
            ..pre.browser
        })
    } else if pre.service_selected > 0 {
        post == (App { service_selected: (pre.service_selected - 1) as usize, log_scroll: 0, ..pre })
    } else {
        post == pre
    }
}

/// Moving the selection down (see `previous_rel`).
pub open spec fn next_rel(pre: App, post: App) -> bool {
    if pre.mode != Mode::Normal {
        post == pre
    } else if pre.focused_pane == Pane::Browser {
        post == (App { browser: post.browser, ..pre }) && post.browser == (FileBrowser {
            selected: if pre.browser.selected + 1 < pre.browser.entries@.len() {
                (pre.browser.selected + 1) as usize
            } else {
                pre.browser.selected
            },
            ..pre.browser
        })
    } else if pre.service_selected + 1 < pre.services@.len() {
        post == (App { service_selected: (pre.service_selected + 1) as usize, log_scroll: 0, ..pre })
    } else {
        post == pre
    }
}

pub open spec fn scroll_up_ok(pre: App, by: i32) -> bool {
    pre.focused_pane == Pane::Services ==> i32::MIN <= pre.log_scroll + by <= i32::MAX
}

/// Scrolling the log back, while the services pane has focus.
pub open spec fn scroll_up_rel(pre: App, post: App, by: i32) -> bool {
    if pre.focused_pane == Pane::Services {
        post == (App { log_scroll: (pre.log_scroll + by) as i32, ..pre })
    } else {
        post == pre
    }
}

pub open spec fn scroll_down_ok(pre: App, by: i32) -> bool {
    pre.focused_pane == Pane::Services ==> i32::MIN <= pre.log_scroll - by <= i32::MAX
}

/// Scrolling the log forward, not past the newest lines, while the
/// services pane has focus.
pub open spec fn scroll_down_rel(pre: App, post: App, by: i32) -> bool {
    if pre.focused_pane == Pane::Services {
        post == (App {
            log_scroll: if pre.log_scroll - by > 0 {
                (pre.log_scroll - by) as i32
            } else {
                0
            },
            ..pre
        })
    } else {
        post == pre
    }
}

/// Switching the focused pane, in normal mode.
pub open spec fn switch_pane_rel(pre: App, post: App) -> bool {
    if pre.mode != Mode::Normal {
        post == pre
    } else {
        post == (App {
            focused_pane: if pre.focused_pane == Pane::Browser {
                Pane::Services
            } else {
                Pane::Browser
            },
            ..pre
        })
    }
}

/// Entering command mode, or leaving it with the command dropped.
pub open spec fn switch_mode_rel(pre: App, post: App) -> bool {
    if pre.mode == Mode::Normal {
        post == (App { mode: Mode::Command, ..pre })
    } else {
        post == (App { mode: Mode::Normal, command: post.command, ..pre }) && post.command@.len() == 0
    }
}

/// Typing a character, in command mode.
pub open spec fn push_char_rel(pre: App, post: App, c: char) -> bool {
    if pre.mode == Mode::Command {
        post == (App { command: post.command, ..pre }) && post.command@ == pre.command@.push(c)
    } else {
        post == pre
    }
}

/// Deleting the last character typed, in command mode.
pub open spec fn pop_char_rel(pre: App, post: App) -> bool {
    if pre.mode == Mode::Command && pre.command@.len() > 0 {
        post == (App { command: post.command, ..pre }) && post.command@ == pre.command@.drop_last()
    } else {
        post == pre
    }
}

impl App {
    /// A UI on the directory `cwd`; its listing and services follow from
    /// the queued `Relocate`.
    pub fn new(cwd: &str) -> (a: App)
        ensures
            a.mode == Mode::Normal,
            !a.should_quit,
            a.services@.len() == 0,
            a.command@.len() == 0,
            a.browser.current_dir@ == crate::browser::normalize_spec(cwd@),
            a.browser.selected == 0,
            a.focused_pane == Pane::Browser,
            a.service_selected == 0,
            a.log_scroll == 0,
            a.service_cache@.len() == 0,
            effects_view(a.effects@) == seq![EffectView::Relocate],
    {
        let mut effects: Vec<Effect> = Vec::new();
        effects.push(Effect::Relocate);
        let a = App {
            mode: Mode::Normal,
            should_quit: false,
            services: Vec::new(),
            command: String::new(),
            browser: FileBrowser::new(cwd),
            focused_pane: Pane::Browser,
            service_selected: 0,
            log_scroll: 0,
            service_cache: Vec::new(),
            effects,
        };
        assert(effects_view(a.effects@) =~= seq![EffectView::Relocate]);
        a
    }

    /// Queues an effect.
    pub fn emit(&mut self, e: Effect)
        ensures
            effects_view(final(self).effects@) == effects_view(old(self).effects@).push(e@),
            final(self).services == old(self).services,
            final(self).browser == old(self).browser,
            final(self).service_cache == old(self).service_cache,
            final(self).mode == old(self).mode,
            final(self).focused_pane == old(self).focused_pane,
            final(self).service_selected == old(self).service_selected,
            final(self).should_quit == old(self).should_quit,
            final(self).command == old(self).command,
            final(self).log_scroll == old(self).log_scroll,
    {
        let ghost before = self.effects@;
        self.effects.push(e);
        assert(effects_view(self.effects@) =~= effects_view(before).push(e@));
    }

    /// Queues a line for the session log.
    pub fn log(&mut self, msg: &str)
        ensures
            effects_view(final(self).effects@) == effects_view(old(self).effects@).push(EffectView::Log(msg@)),
            final(self).services == old(self).services,
            final(self).browser == old(self).browser,
            final(self).service_cache == old(self).service_cache,
            final(self).mode == old(self).mode,
            final(self).focused_pane == old(self).focused_pane,
            final(self).service_selected == old(self).service_selected,
            final(self).should_quit == old(self).should_quit,
            final(self).command == old(self).command,
            final(self).log_scroll == old(self).log_scroll,
    {
        self.emit(Effect::Log(msg.to_owned()));
    }

    /// Takes the queued effects, oldest first.
    pub fn take_effects(&mut self) -> (r: Vec<Effect>)
        ensures
            r == old(self).effects,
            final(self).effects@.len() == 0,
            *final(self) == (App { effects: final(self).effects, ..*old(self) }),
    {
        let mut r: Vec<Effect> = Vec::new();
        std::mem::swap(&mut r, &mut self.effects);
        r
    }

    /// Stops every service, queueing the end of each attached process.
    pub fn stop_all_services(&mut self)
        ensures
            services_view(final(self).services@) == stop_all(services_view(old(self).services@)).0,
            effects_view(final(self).effects@) == effects_view(old(self).effects@) + stop_all(
                services_view(old(self).services@),
            ).1,
            final(self).browser == old(self).browser,
            final(self).service_cache == old(self).service_cache,
            final(self).mode == old(self).mode,
            final(self).focused_pane == old(self).focused_pane,
            final(self).service_selected == old(self).service_selected,
            final(self).should_quit == old(self).should_quit,
            final(self).command == old(self).command,
            final(self).log_scroll == old(self).log_scroll,
    {
        let ghost s0 = services_view(self.services@);
        let ghost e0 = effects_view(self.effects@);
        let mut i: usize = 0;
        assert(s0.take(0) =~= Seq::<ServiceView>::empty());
        assert(e0 + Seq::<EffectView>::empty() =~= e0);
        while i < self.services.len()
            invariant
                i <= self.services.len(),
                self.services.len() == s0.len(),
                forall|k: int| 0 <= k < i ==> #[trigger] self.services@[k]@ == stop_all(s0.take(i as int)).0[k],
                forall|k: int| i <= k < self.services.len() ==> #[trigger] self.services@[k]@ == s0[k],
                stop_all(s0.take(i as int)).0.len() == i,
                effects_view(self.effects@) == e0 + stop_all(s0.take(i as int)).1,
                self.browser == old(self).browser,
                self.service_cache == old(self).service_cache,
                self.mode == old(self).mode,
                self.focused_pane == old(self).focused_pane,
                self.service_selected == old(self).service_selected,
                self.should_quit == old(self).should_quit,
                self.command == old(self).command,
                self.log_scroll == old(self).log_scroll,
            decreases self.services.len() - i,
        {
            assert(s0.take(i + 1).drop_last() =~= s0.take(i as int));
            assert(s0.take(i + 1).last() == s0[i as int]);
            let mut s = self.services.remove(i);
            let pid = s.stop();
            self.services.insert(i, s);
            match pid {
                Some(p) => {
                    let ghost before = effects_view(self.effects@);
                    self.emit(Effect::Kill(p));
                    assert(before.push(EffectView::Kill(p)) =~= e0 + stop_all(s0.take(i + 1)).1);
                },
                None => {},
            }
            i += 1;
        }
        assert(s0.take(s0.len() as int) =~= s0);
        assert(services_view(self.services@) =~= stop_all(s0).0);
    }

    /// Keeps the name, status and log of each service for the current
    /// directory, replacing what was kept for it before.
    pub fn save_current_services(&mut self)
        ensures
            cache_view(final(self).service_cache@) == cache_saved(
                cache_view(old(self).service_cache@),
                old(self).browser.current_dir@,
                snapshot(services_view(old(self).services@)),
            ),
            final(self).services == old(self).services,
            final(self).browser == old(self).browser,
            final(self).effects == old(self).effects,
            final(self).mode == old(self).mode,
            final(self).focused_pane == old(self).focused_pane,
            final(self).service_selected == old(self).service_selected,
            final(self).should_quit == old(self).should_quit,
            final(self).command == old(self).command,
            final(self).log_scroll == old(self).log_scroll,
    {
        let ghost sv = services_view(self.services@);
        let mut kept: Vec<CachedService> = Vec::new();
        let mut i: usize = 0;
        while i < self.services.len()
            invariant
                i <= self.services.len(),
                sv == services_view(self.services@),
                kept@.map_values(|s: CachedService| cached_view(s)) == snapshot(sv).take(i as int),
            decreases self.services.len() - i,
        {
            let s = &self.services[i];
            let c = CachedService { name: s.name.clone(), status: s.status.duplicate(), log: copy_log(&s.log) };
            let ghost before = kept@;
            kept.push(c);
            assert(kept@.map_values(|s: CachedService| cached_view(s)) =~= before.map_values(
                |s: CachedService| cached_view(s),
            ).push(cached_view(c)));
            assert(snapshot(sv).take(i + 1) =~= snapshot(sv).take(i as int).push(snapshot(sv)[i as int]));
            i += 1;
        }
        assert(snapshot(sv).take(sv.len() as int) =~= snapshot(sv));
        let ghost c0 = cache_view(self.service_cache@);
        let idx = find_cache(&self.service_cache, self.browser.current_dir.as_str());
        if idx < self.service_cache.len() {
            let ghost before = self.service_cache@;
            let _ = self.service_cache.remove(idx);
            assert(cache_view(self.service_cache@) =~= c0.remove(idx as int));
        }
        let entry = CacheEntry { dir: self.browser.current_dir.clone(), services: kept };
        let ghost mid = self.service_cache@;
        self.service_cache.push(entry);
        assert(cache_view(self.service_cache@) =~= cache_view(mid).push(
            (self.browser.current_dir@, snapshot(sv)),
        ));
    }

    /// Takes `fresh`, the services detected for the current directory, and
    /// gives them the log kept for that directory and the status kept,
    /// stopped where it was active (see `restored`); the cache entry is then
    /// dropped (see `restore_spec`).
    pub fn restore_services(&mut self, fresh: Vec<Service>)
        ensures
            ({
                let r = restore_spec(
                    services_view(fresh@),
                    cache_view(old(self).service_cache@),
                    old(self).browser.current_dir@,
                );
                &&& services_view(final(self).services@) == r.0
                &&& cache_view(final(self).service_cache@) == r.1
            }),
            final(self).browser == old(self).browser,
            final(self).effects == old(self).effects,
            final(self).mode == old(self).mode,
            final(self).focused_pane == old(self).focused_pane,
            final(self).service_selected == old(self).service_selected,
            final(self).should_quit == old(self).should_quit,
            final(self).command == old(self).command,
            final(self).log_scroll == old(self).log_scroll,
    {
        let ghost c0 = cache_view(self.service_cache@);
        let ghost fv = services_view(fresh@);
        let idx = find_cache(&self.service_cache, self.browser.current_dir.as_str());
        if idx >= self.service_cache.len() {
            self.services = fresh;
            return;
        }
        let entry = self.service_cache.remove(idx);
        assert(cache_view(self.service_cache@) =~= c0.remove(idx as int));
        let ghost kv = entry.services@.map_values(|s: CachedService| cached_view(s));
        assert(kv == c0[idx as int].1);
        let mut rest = fresh;
        let mut out: Vec<Service> = Vec::new();
        let n = rest.len();
        let mut i: usize = 0;
        assert(fv.skip(0) =~= fv);
        assert(services_view(out@) =~= Seq::<ServiceView>::empty());
        while rest.len() > 0
            invariant
                i + rest.len() == n,
                fv.len() == n,
                services_view(rest@) == fv.skip(i as int),
                services_view(out@) == fv.map_values(|s: ServiceView| restored(s, kv)).take(i as int),
                kv == entry.services@.map_values(|s: CachedService| cached_view(s)),
            decreases rest.len(),
        {
            let ghost prev = rest@;
            proof {
                crate::detect::lemma_view_remove_first(prev);
            }
            let mut s = rest.remove(0);
            assert(services_view(rest@) =~= fv.skip(i + 1));
            assert(s@ == fv[i as int]) by {
                assert(fv.skip(i as int)[0] == fv[i as int]);
            }
            match kept_lookup(&entry.services, s.name.as_str()) {
                Some(k) => {
                    s.status = if entry.services[k].status.is_active() {
                        Status::Stopped
                    } else {
                        entry.services[k].status.duplicate()
                    };
                    s.log = copy_log(&entry.services[k].log);
                },
                None => {},
            }
            let ghost before = out@;
            out.push(s);
            assert(services_view(out@) =~= services_view(before).push(s@));
            assert(fv.map_values(|s: ServiceView| restored(s, kv)).take(i + 1) =~= fv.map_values(
                |s: ServiceView| restored(s, kv),
            ).take(i as int).push(restored(fv[i as int], kv)));
            i += 1;
        }
        assert(fv.map_values(|s: ServiceView| restored(s, kv)).take(n as int) =~= fv.map_values(
            |s: ServiceView| restored(s, kv),
        ));
        self.services = out;
    }

    /// The same as `restore_services`: used after `init` rewrote the
    /// configuration.
    pub fn restore_or_detect(&mut self, fresh: Vec<Service>)
        ensures
            ({
                let r = restore_spec(
                    services_view(fresh@),
                    cache_view(old(self).service_cache@),
                    old(self).browser.current_dir@,
                );
                &&& services_view(final(self).services@) == r.0
                &&& cache_view(final(self).service_cache@) == r.1
            }),
            final(self).browser == old(self).browser,
            final(self).effects == old(self).effects,
            final(self).mode == old(self).mode,
            final(self).focused_pane == old(self).focused_pane,
            final(self).service_selected == old(self).service_selected,
            final(self).should_quit == old(self).should_quit,
            final(self).command == old(self).command,
            final(self).log_scroll == old(self).log_scroll,
    {
        self.restore_services(fresh);
    }

    /// Moves the selection up (browser entry or service) in normal mode.
    pub fn previous(&mut self)
        ensures
            previous_rel(*old(self), *final(self)),
    {
        if self.mode != Mode::Normal {
            return;
        }
        match self.focused_pane {
            Pane::Browser => self.browser.previous(),
            Pane::Services => {
                if self.service_selected > 0 {
                    self.service_selected -= 1;
                    self.log_scroll = 0;
                }
            },
        }
    }

    /// Moves the selection down (browser entry or service) in normal mode.
    pub fn next(&mut self)
        ensures
            next_rel(*old(self), *final(self)),
    {
        if self.mode != Mode::Normal {
            return;
        }
        match self.focused_pane {
            Pane::Browser => self.browser.next(),
            Pane::Services => {
                if self.services.len() > 0 && self.service_selected < self.services.len() - 1 {
                    self.service_selected += 1;
                    self.log_scroll = 0;
                }
            },
        }
    }

    /// Scrolls the log back by `by` lines while the services pane has focus.
    pub fn log_scroll_up(&mut self, by: i32)
        requires
            scroll_up_ok(*old(self), by),
        ensures
            scroll_up_rel(*old(self), *final(self), by),
    {
        if self.focused_pane != Pane::Services {
            return;
        }
        self.log_scroll += by;
    }

    /// Scrolls the log forward by `by` lines, not past the newest, while the
    /// services pane has focus.
    pub fn log_scroll_down(&mut self, by: i32)
        requires
            scroll_down_ok(*old(self), by),
        ensures
            scroll_down_rel(*old(self), *final(self), by),
    {
        if self.focused_pane != Pane::Services {
            return;
        }
        let v = self.log_scroll - by;
        self.log_scroll = if v > 0 {
            v
        } else {
            0
        };
    }

    /// Switches focus between the panes in normal mode.
    pub fn switch_pane(&mut self)
        ensures
            switch_pane_rel(*old(self), *final(self)),
    {
        if self.mode != Mode::Normal {
            return;
        }
        self.focused_pane = match self.focused_pane {
            Pane::Browser => Pane::Services,
            Pane::Services => Pane::Browser,
        };
    }

    /// Enters command mode, or leaves it and drops the command typed.
    pub fn switch_mode(&mut self)
        ensures
            switch_mode_rel(*old(self), *final(self)),
    {
        self.mode = match self.mode {
            Mode::Normal => Mode::Command,
            Mode::Command => {
                self.command = String::new();
                Mode::Normal
            },
        };
    }

    /// Types a character into the command, in command mode.
    pub fn push_char(&mut self, c: char)
        ensures
            push_char_rel(*old(self), *final(self), c),
    {
        if self.mode == Mode::Command {
            crate::text::push_char(&mut self.command, c);
        }
    }

    /// Deletes the last character of the command, in command mode.
    pub fn pop_char(&mut self)
        ensures
            pop_char_rel(*old(self), *final(self)),
    {
        if self.mode == Mode::Command {
            let v = crate::text::chars_of(self.command.as_str());
            if v.len() > 0 {
                self.command = crate::text::string_of_range(&v, 0, v.len() - 1);
                assert(v@.drop_last() =~= v@.subrange(0, v.len() - 1));
            }
        }
    }
}

/// The cache once the current directory's services are kept.
pub open spec fn saved_cache(pre: App) -> Seq<(Seq<char>, Seq<(Seq<char>, StatusView, Seq<Seq<char>>)>)> {
    cache_saved(
        cache_view(pre.service_cache@),
        pre.browser.current_dir@,
        snapshot(services_view(pre.services@)),
    )
}

/// `post` is `pre` after the services were kept in the cache, and nothing else.
pub open spec fn stayed(pre: App, post: App) -> bool {
    &&& cache_view(post.service_cache@) == saved_cache(pre)
    &&& post.services == pre.services
    &&& post.effects == pre.effects
    &&& post.service_selected == pre.service_selected
    &&& post.mode == pre.mode
    &&& post.command == pre.command
    &&& post.focused_pane == pre.focused_pane
    &&& post.should_quit == pre.should_quit
    &&& post.log_scroll == pre.log_scroll
}

/// What leaving a directory queues: the log line, the end of each attached
/// process, and listing and detecting the directory entered.
pub open spec fn leave_effects(services: Seq<ServiceView>, line: Seq<char>) -> Seq<EffectView> {
    seq![EffectView::Log(line)] + stop_all(services).1 + seq![EffectView::Relocate]
}

/// `post` is `pre` after leaving its directory for `post.browser`'s: the
/// services were kept in the cache, then stopped; the new directory is to
/// be listed and detected, and the first service is selected.
pub open spec fn left_dir(pre: App, post: App, line: Seq<char>) -> bool {
    &&& cache_view(post.service_cache@) == saved_cache(pre)
    &&& services_view(post.services@) == stop_all(services_view(pre.services@)).0
    &&& effects_view(post.effects@) == effects_view(pre.effects@) + leave_effects(
        services_view(pre.services@),
        line,
    )
    &&& post.service_selected == 0
    &&& post.mode == pre.mode
    &&& post.command == pre.command
    &&& post.focused_pane == pre.focused_pane
    &&& post.should_quit == pre.should_quit
    &&& post.log_scroll == pre.log_scroll
}

/// The end of an attached process without waiting.
pub open spec fn kill_in_background(child: Option<u32>) -> Seq<EffectView> {
    match child {
        Some(p) => seq![EffectView::KillInBackground(p)],
        None => seq![],
    }
}

/// Enter on the services pane: a starting or running service is stopped
/// in the background, a stopping one is left alone, any other is started.
pub open spec fn toggled(pre: App, post: App) -> bool {
    let i = pre.service_selected as int;
    let pv = services_view(pre.services@);
    let e0 = effects_view(pre.effects@);
    &&& same_frame(pre, post)
    &&& post.focused_pane == pre.focused_pane
    &&& post.should_quit == pre.should_quit
    &&& if i >= pv.len() || pv[i].status is Stopping {
        post.services == pre.services && post.effects == pre.effects
    } else if pv[i].status is Running || pv[i].status is Starting {
        &&& services_view(post.services@) == pv.update(i, stop_background_spec(pv[i]))
        &&& effects_view(post.effects@) == e0 + kill_in_background(pv[i].child) + seq![
            EffectView::Log("[sys] Stopping service: "@ + pv[i].name),
        ]
    } else {
        &&& post.services == pre.services
        &&& effects_view(post.effects@) == e0 + seq![
            EffectView::Start(i as usize),
            EffectView::Log("[launch] Started service: "@ + pv[i].name),
        ]
    }
}

/// Enter: in normal mode it enters the selected directory (the services
/// are kept first, whether it moves or not) or toggles the selected
/// service; in command mode it carries out the typed line and goes back to
/// normal mode.
pub open spec fn confirmed(pre: App, post: App) -> bool {
    match pre.mode {
        Mode::Normal => if pre.focused_pane == Pane::Browser {
            exists|r: bool|
                entered(pre.browser, post.browser, r) && (r ==> left_dir(
                    pre,
                    post,
                    "[sys] Entered directory: "@ + post.browser.current_dir@,
                )) && (!r ==> stayed(pre, post))
        } else {
            toggled(pre, post)
        },
        Mode::Command => {
            &&& post.mode == Mode::Normal
            &&& post.command@.len() == 0
            &&& crate::commands::carried_out(pre, post, pre.command@)
        },
    }
}

/// `h` / Backspace: in normal mode on the browser pane, the services are
/// kept and the browser moves to the parent directory where there is one.
pub open spec fn went_up_rel(pre: App, post: App) -> bool {
    if pre.mode != Mode::Normal || pre.focused_pane != Pane::Browser {
        post == pre
    } else {
        exists|r: bool|
            went_up(pre.browser, post.browser, r) && (r ==> left_dir(
                pre,
                post,
                "[sys] Moved up to: "@ + post.browser.current_dir@,
            )) && (!r ==> stayed(pre, post))
    }
}

/// What polling found for the service at `i`, where anything.
pub open spec fn poll_at(polls: Seq<Option<ChildPoll>>, i: int) -> Option<ChildPoll> {
    if i < polls.len() {
        polls[i]
    } else {
        None
    }
}

/// The session-log line for a service that changed to its status.
pub open spec fn status_log(s: ServiceView) -> Seq<EffectView> {
    match s.status {
        StatusView::Running => seq![EffectView::Log("[sys] Running: "@ + s.name)],
        StatusView::Stopped => seq![EffectView::Log("[sys] Stopped: "@ + s.name)],
        StatusView::Failed(e) => seq![EffectView::Log("[err] "@ + s.name + " exited ("@ + e + ")"@)],
        StatusView::Starting => seq![],
        StatusView::Stopping => seq![EffectView::Log("[sys] Stopping: "@ + s.name)],
    }
}

/// The log lines for the services whose status changed, in order.
pub open spec fn status_events(before: Seq<ServiceView>, after: Seq<ServiceView>) -> Seq<EffectView>
    decreases before.len(),
{
    if before.len() == 0 || after.len() != before.len() {
        seq![]
    } else {
        status_events(before.drop_last(), after.drop_last()) + if after.last().status
            != before.last().status {
            status_log(after.last())
        } else {
            seq![]
        }
    }
}

/// Each service refreshed with what polling found for it.
pub open spec fn refreshed_all(pv: Seq<ServiceView>, polls: Seq<Option<ChildPoll>>) -> Seq<ServiceView> {
    Seq::new(pv.len(), |i: int| refresh_spec(pv[i], poll_at(polls, i)))
}

/// The path of the configuration file in a directory.
pub open spec fn config_path(dir: Seq<char>) -> Seq<char> {
    join_path(dir, "rudder.toml"@)
}

/// What a key press does (see the relation of each method).
pub open spec fn handled(pre: App, post: App, action: Action) -> bool {
    match action {
        Action::Quit => post == (App { should_quit: true, ..pre }),
        Action::Up => previous_rel(pre, post),
        Action::Down => next_rel(pre, post),
        Action::Confirm => confirmed(pre, post),
        Action::ModeSwitch => switch_mode_rel(pre, post),
        Action::Tab => switch_pane_rel(pre, post),
        Action::Char(c) => if pre.mode == Mode::Normal && c == 'h' {
            went_up_rel(pre, post)
        } else if pre.mode == Mode::Normal && c == 'j' {
            next_rel(pre, post)
        } else if pre.mode == Mode::Normal && c == 'k' {
            previous_rel(pre, post)
        } else if pre.mode == Mode::Normal && c == 'l' {
            confirmed(pre, post)
        } else {
            push_char_rel(pre, post, c)
        },
        Action::Backspace => if pre.mode == Mode::Normal {
            went_up_rel(pre, post)
        } else {
            pop_char_rel(pre, post)
        },
        Action::OpenLog => only_effects(pre, post) && effects_view(post.effects@) == effects_view(
            pre.effects@,
        ) + seq![EffectView::Log("[sys] Opening session log (F12)"@), EffectView::OpenLog],
        Action::PageUp => scroll_up_rel(pre, post, 10),
        Action::PageDown => scroll_down_rel(pre, post, 10),
        Action::Ignore => post == pre,
    }
}

impl App {
    /// Stops the service at `i` in the background (`Service::stop_background`).
    pub fn stop_background_at(&mut self, i: usize) -> (r: Option<u32>)
        requires
            i < old(self).services.len(),
        ensures
            r == old(self).services@[i as int]@.child,
            services_view(final(self).services@) == services_view(old(self).services@).update(
                i as int,
                stop_background_spec(old(self).services@[i as int]@),
            ),
            only_effects(*old(self), App { services: old(self).services, ..*final(self) }),
            final(self).effects == old(self).effects,
    {
        let ghost sv = services_view(self.services@);
        let mut s = self.services.remove(i);
        let r = s.stop_background();
        self.services.insert(i, s);
        assert(services_view(self.services@) =~= sv.update(i as int, stop_background_spec(sv[i as int])));
        r
    }

    /// Stops the service at `i`, waiting (`Service::stop`).
    pub fn stop_at(&mut self, i: usize) -> (r: Option<u32>)
        requires
            i < old(self).services.len(),
        ensures
            r == old(self).services@[i as int]@.child,
            services_view(final(self).services@) == services_view(old(self).services@).update(
                i as int,
                stop_spec(old(self).services@[i as int]@),
            ),
            only_effects(*old(self), App { services: old(self).services, ..*final(self) }),
            final(self).effects == old(self).effects,
    {
        let ghost sv = services_view(self.services@);
        let mut s = self.services.remove(i);
        let r = s.stop();
        self.services.insert(i, s);
        assert(services_view(self.services@) =~= sv.update(i as int, stop_spec(sv[i as int])));
        r
    }

    /// Leaves the current directory for the one the browser now shows (see
    /// `left_dir`, after the services were kept).
    fn leave(&mut self, line: String)
        ensures
            services_view(final(self).services@) == stop_all(services_view(old(self).services@)).0,
            effects_view(final(self).effects@) == effects_view(old(self).effects@) + leave_effects(
                services_view(old(self).services@),
                line@,
            ),
            final(self).service_selected == 0,
            final(self).service_cache == old(self).service_cache,
            final(self).browser == old(self).browser,
            final(self).mode == old(self).mode,
            final(self).command == old(self).command,
            final(self).focused_pane == old(self).focused_pane,
            final(self).should_quit == old(self).should_quit,
            final(self).log_scroll == old(self).log_scroll,
    {
        let ghost e0 = effects_view(self.effects@);
        let ghost sv = services_view(self.services@);
        self.log(line.as_str());
        self.stop_all_services();
        self.emit(Effect::Relocate);
        self.service_selected = 0;
        assert(effects_view(self.effects@) =~= e0 + leave_effects(sv, line@));
    }

    /// Enter (see `confirmed`).
    pub fn confirm(&mut self)
        ensures
            confirmed(*old(self), *final(self)),
    {
        match self.mode {
            Mode::Normal => match self.focused_pane {
                Pane::Browser => {
                    self.save_current_services();
                    let moved = self.browser.enter_selected();
                    if moved {
                        let line = concat("[sys] Entered directory: ", self.browser.current_dir.as_str());
                        self.leave(line);
                    }
                },
                Pane::Services => self.toggle_selected(),
            },
            Mode::Command => {
                let mut cmd = String::new();
                std::mem::swap(&mut cmd, &mut self.command);
                self.mode = Mode::Normal;
                crate::commands::execute(self, cmd.as_str());
            },
        }
    }

    fn toggle_selected(&mut self)
        ensures
            toggled(*old(self), *final(self)),
    {
        let i = self.service_selected;
        if i >= self.services.len() {
            return;
        }
        let ghost e0 = effects_view(self.effects@);
        if self.services[i].status.is_running() || self.services[i].status.is_starting() {
            let name = self.services[i].name.clone();
            let pid = self.stop_background_at(i);
            match pid {
                Some(p) => self.emit(Effect::KillInBackground(p)),
                None => {},
            }
            self.log(concat("[sys] Stopping service: ", name.as_str()).as_str());
            assert(effects_view(self.effects@) =~= e0 + kill_in_background(old(self).services@[i as int]@.child)
                + seq![EffectView::Log("[sys] Stopping service: "@ + name@)]);
        } else if self.services[i].status.is_stopping() {
        } else {
            let name = self.services[i].name.clone();
            self.emit(Effect::Start(i));
            self.log(concat("[launch] Started service: ", name.as_str()).as_str());
            assert(effects_view(self.effects@) =~= e0 + seq![
                EffectView::Start(i),
                EffectView::Log("[launch] Started service: "@ + name@),
            ]);
        }
    }

    /// `h` / Backspace in normal mode (see `went_up_rel`).
    pub fn go_up(&mut self)
        ensures
            went_up_rel(*old(self), *final(self)),
    {
        if self.mode != Mode::Normal {
            return;
        }
        if self.focused_pane != Pane::Browser {
            return;
        }
        self.save_current_services();
        let moved = self.browser.go_to_parent();
        if moved {
            let line = concat("[sys] Moved up to: ", self.browser.current_dir.as_str());
            self.leave(line);
        }
    }

    /// Asks to move to `path` (joined to the current directory where
    /// relative): the caller checks that it is a directory and answers
    /// through `finish_change_dir`.
    pub fn change_dir(&mut self, path: &str)
        ensures
            only_effects(*old(self), *final(self)),
            effects_view(final(self).effects@) == effects_view(old(self).effects@).push(
                EffectView::CheckDir(crate::commands::cd_target(old(self).browser.current_dir@, path@)),
            ),
    {
        let v = crate::text::chars_of(path);
        let target = if v.len() > 0 && v[0] == '/' {
            path.to_owned()
        } else {
            crate::service::join(self.browser.current_dir.as_str(), path)
        };
        self.emit(Effect::CheckDir(target));
    }

    /// Moves to `target` where `is_dir` says it is a directory: the services
    /// are kept and stopped, and the new directory is to be listed and
    /// detected.
    pub fn finish_change_dir(&mut self, target: &str, is_dir: bool)
        ensures
            !is_dir ==> *final(self) == *old(self),
            is_dir ==> changed_to(old(self).browser, final(self).browser, target@, true, true) && left_dir(
                *old(self),
                *final(self),
                "[sys] Changed directory to: "@ + target@,
            ),
    {
        if !is_dir {
            return;
        }
        let ghost pre = *self;
        let ghost e0 = effects_view(self.effects@);
        let ghost sv = services_view(self.services@);
        self.log(concat("[sys] Changed directory to: ", target).as_str());
        self.save_current_services();
        self.stop_all_services();
        let _ = self.browser.change_dir(target, true);
        self.emit(Effect::Relocate);
        self.service_selected = 0;
        assert(effects_view(self.effects@) =~= e0 + leave_effects(sv, "[sys] Changed directory to: "@ + target@));
        assert(cache_view(self.service_cache@) == saved_cache(pre));
    }

    /// Queues opening the session log.
    pub fn open_log(&mut self)
        ensures
            only_effects(*old(self), *final(self)),
            effects_view(final(self).effects@) == effects_view(old(self).effects@).push(EffectView::OpenLog),
    {
        self.emit(Effect::OpenLog);
    }

    /// Refreshes every service with what polling found for it (`None`
    /// where nothing was polled or `polls` is short), then logs each change
    /// of status.
    pub fn refresh_services(&mut self, polls: Vec<Option<ChildPoll>>)
        ensures
            services_view(final(self).services@) == refreshed_all(services_view(old(self).services@), polls@),
            effects_view(final(self).effects@) == effects_view(old(self).effects@) + status_events(
                services_view(old(self).services@),
                refreshed_all(services_view(old(self).services@), polls@),
            ),
            same_frame(*old(self), *final(self)),
            final(self).focused_pane == old(self).focused_pane,
            final(self).should_quit == old(self).should_quit,
    {
        let ghost pv = services_view(self.services@);
        let ghost e0 = effects_view(self.effects@);
        let ghost target = refreshed_all(pv, polls@);
        let mut polls = polls;
        let ghost ps = polls@;
        let n = self.services.len();
        let mut i: usize = 0;
        assert(pv.take(0) =~= Seq::<ServiceView>::empty());
        assert(e0 + Seq::<EffectView>::empty() =~= e0);
        while i < n
            invariant
                i <= n,
                n == self.services.len(),
                pv.len() == n,
                target == refreshed_all(pv, ps),
                polls@ == if i < ps.len() {
                    ps.skip(i as int)
                } else {
                    Seq::<Option<ChildPoll>>::empty()
                },
                forall|k: int| 0 <= k < i ==> #[trigger] self.services@[k]@ == target[k],
                forall|k: int| i <= k < n ==> #[trigger] self.services@[k]@ == pv[k],
                effects_view(self.effects@) == e0 + status_events(pv.take(i as int), target.take(i as int)),
                same_frame(*old(self), *self),
                self.focused_pane == old(self).focused_pane,
                self.should_quit == old(self).should_quit,
            decreases n - i,
        {
            let poll = if polls.len() > 0 {
                Some(polls.remove(0))
            } else {
                None
            };
            let p = match poll {
                Some(x) => x,
                None => None,
            };
            assert(p == poll_at(ps, i as int)) by {
                if i < ps.len() {
                    assert(ps.skip(i as int)[0] == ps[i as int]);
                }
            }
            assert(polls@ == if i + 1 < ps.len() {
                ps.skip(i + 1)
            } else {
                Seq::<Option<ChildPoll>>::empty()
            }) by {
                if i < ps.len() {
                    assert(ps.skip(i as int).remove(0) =~= ps.skip(i + 1));
                }
            }
            let mut s = self.services.remove(i);
            let before = s.status.duplicate();
            s.refresh(p);
            let changed = !status_eq(&before, &s.status);
            let name = s.name.clone();
            let after = s.status.duplicate();
            self.services.insert(i, s);
            let ghost ebefore = effects_view(self.effects@);
            if changed {
                match after {
                    Status::Running => self.log(concat("[sys] Running: ", name.as_str()).as_str()),
                    Status::Stopped => self.log(concat("[sys] Stopped: ", name.as_str()).as_str()),
                    Status::Failed(e) => {
                        let mut m = "[err] ".to_owned();
                        m.append(name.as_str());
                        m.append(" exited (");
                        m.append(e.as_str());
                        m.append(")");
                        self.log(m.as_str());
                    },
                    Status::Starting => {},
                    Status::Stopping => self.log(concat("[sys] Stopping: ", name.as_str()).as_str()),
                }
            }
            proof {
                assert(pv.take(i + 1).drop_last() =~= pv.take(i as int));
                assert(target.take(i + 1).drop_last() =~= target.take(i as int));
                assert(pv.take(i + 1).last() == pv[i as int]);
                assert(target.take(i + 1).last() == target[i as int]);
                assert(effects_view(self.effects@) =~= ebefore + if target[i as int].status != pv[i as int].status {
                    status_log(target[i as int])
                } else {
                    Seq::<EffectView>::empty()
                });
            }
            i += 1;
        }
        assert(pv.take(n as int) =~= pv);
        assert(target.take(n as int) =~= target);
        assert(services_view(self.services@) =~= target);
    }

    /// Takes the services `init` would write out for the current directory:
    /// none logs that there is nothing to do; otherwise the configuration
    /// text is to be written to `rudder.toml` there.
    pub fn init_with(&mut self, services: Vec<Service>)
        ensures
            only_effects(*old(self), *final(self)),
            effects_view(final(self).effects@) == effects_view(old(self).effects@).push(
                if services@.len() == 0 {
                    EffectView::Log("[sys] No services detected; nothing to init"@)
                } else {
                    EffectView::WriteConfig(
                        config_path(old(self).browser.current_dir@),
                        crate::config::config_toml(services_view(services@)),
                    )
                },
            ),
    {
        if services.len() == 0 {
            self.log("[sys] No services detected; nothing to init");
            return;
        }
        let path = crate::service::join(self.browser.current_dir.as_str(), "rudder.toml");
        let text = crate::config::generate_config_toml(&services);
        self.emit(Effect::WriteConfig(path, text));
    }

    /// Takes the outcome of writing the configuration to `path`: on success
    /// the services are stopped and detected again (now from the new file);
    /// a failure is logged.
    pub fn config_written(&mut self, path: &str, result: Result<(), String>)
        ensures
            match result {
                Ok(_) => {
                    &&& services_view(final(self).services@) == stop_all(services_view(old(self).services@)).0
                    &&& effects_view(final(self).effects@) == effects_view(old(self).effects@) + seq![
                        EffectView::Log("[sys] Config written to "@ + path@),
                    ] + stop_all(services_view(old(self).services@)).1 + seq![EffectView::Redetect]
                    &&& final(self).service_selected == 0
                    &&& final(self).browser == old(self).browser
                    &&& final(self).service_cache == old(self).service_cache
                    &&& final(self).mode == old(self).mode
                    &&& final(self).command == old(self).command
                    &&& final(self).focused_pane == old(self).focused_pane
                    &&& final(self).should_quit == old(self).should_quit
                    &&& final(self).log_scroll == old(self).log_scroll
                },
                Err(e) => only_effects(*old(self), *final(self)) && effects_view(final(self).effects@)
                    == effects_view(old(self).effects@).push(
                    EffectView::Log("[err] Failed to write config: "@ + e@),
                ),
            },
    {
        match result {
            Ok(_) => {
                let ghost e0 = effects_view(self.effects@);
                let ghost sv = services_view(self.services@);
                self.log(concat("[sys] Config written to ", path).as_str());
                self.stop_all_services();
                self.emit(Effect::Redetect);
                self.service_selected = 0;
                assert(effects_view(self.effects@) =~= e0 + seq![
                    EffectView::Log("[sys] Config written to "@ + path@),
                ] + stop_all(sv).1 + seq![EffectView::Redetect]);
            },
            Err(e) => {
                self.log(concat("[err] Failed to write config: ", e.as_str()).as_str());
            },
        }
    }

    /// Takes the outcome of exporting the session log to `dest` and logs it.
    pub fn log_exported(&mut self, dest: &str, result: Result<(), String>)
        ensures
            only_effects(*old(self), *final(self)),
            effects_view(final(self).effects@) == effects_view(old(self).effects@).push(
                match result {
                    Ok(_) => EffectView::Log("[sys] Log exported to "@ + dest@),
                    Err(e) => EffectView::Log("[err] "@ + e@),
                },
            ),
    {
        match result {
            Ok(_) => self.log(concat("[sys] Log exported to ", dest).as_str()),
            Err(e) => self.log(concat("[err] ", e.as_str()).as_str()),
        }
    }

    /// Carries out a key press (see `handled`).
    pub fn handle_action(&mut self, action: Action)
        requires
            action == Action::PageUp ==> scroll_up_ok(*old(self), 10),
            action == Action::PageDown ==> scroll_down_ok(*old(self), 10),
        ensures
            handled(*old(self), *final(self), action),
    {
        match action {
            Action::Quit => self.should_quit = true,
            Action::Up => self.previous(),
            Action::Down => self.next(),
            Action::Confirm => self.confirm(),
            Action::ModeSwitch => self.switch_mode(),
            Action::Tab => self.switch_pane(),
            Action::Char(c) => {
                if self.mode == Mode::Normal && c == 'h' {
                    self.go_up();
                } else if self.mode == Mode::Normal && c == 'j' {
                    self.next();
                } else if self.mode == Mode::Normal && c == 'k' {
                    self.previous();
                } else if self.mode == Mode::Normal && c == 'l' {
                    self.confirm();
                } else {
                    self.push_char(c);
                }
            },
            Action::Backspace => {
                if self.mode == Mode::Normal {
                    self.go_up();
                } else {
                    self.pop_char();
                }
            },
            Action::OpenLog => {
                let ghost e0 = effects_view(self.effects@);
                self.log("[sys] Opening session log (F12)");
                self.open_log();
                assert(effects_view(self.effects@) =~= e0 + seq![
                    EffectView::Log("[sys] Opening session log (F12)"@),
                    EffectView::OpenLog,
                ]);
            },
            Action::PageUp => self.log_scroll_up(10),
            Action::PageDown => self.log_scroll_down(10),
            Action::Ignore => {},
        }
    }
}

} // verus!

verus! {

/// Leaving a directory stops every service: each one is stopped with no
/// process attached, and the end of exactly the processes that were
/// attached is queued.
pub proof fn lemma_stop_all_stops(s: Seq<ServiceView>)
    ensures
        stop_all(s).0.len() == s.len(),
        forall|k: int| 0 <= k < s.len() ==> #[trigger] stop_all(s).0[k] == stop_spec(s[k]),
        forall|k: int|
            0 <= k < s.len() ==> (#[trigger] stop_all(s).0[k]).status == StatusView::Stopped && stop_all(
                s,
            ).0[k].child is None,
        forall|k: int|
            0 <= k < s.len() && (#[trigger] s[k]).child is Some ==> stop_all(s).1.contains(
                EffectView::Kill(s[k].child->0),
            ),
        forall|i: int|
            0 <= i < stop_all(s).1.len() ==> exists|k: int|
                0 <= k < s.len() && s[k].child is Some && #[trigger] stop_all(s).1[i] == EffectView::Kill(
                    s[k].child->0,
                ),
    decreases s.len(),
{
    if s.len() > 0 {
        let t = s.drop_last();
        lemma_stop_all_stops(t);
        let r = stop_all(t);
        let e = stop_all(s).1;
        assert forall|k: int| 0 <= k < s.len() implies #[trigger] stop_all(s).0[k] == stop_spec(s[k]) by {
            if k < t.len() {
                assert(s[k] == t[k]);
            }
        }
        assert forall|k: int| 0 <= k < s.len() && (#[trigger] s[k]).child is Some implies e.contains(
            EffectView::Kill(s[k].child->0),
        ) by {
            if k < t.len() {
                assert(s[k] == t[k]);
                let i = choose|i: int| 0 <= i < r.1.len() && r.1[i] == EffectView::Kill(t[k].child->0);
                assert(e[i] == r.1[i]);
            } else {
                assert(e[e.len() - 1] == EffectView::Kill(s[k].child->0));
            }
        }
        assert forall|i: int| 0 <= i < e.len() implies exists|k: int|
            0 <= k < s.len() && s[k].child is Some && #[trigger] e[i] == EffectView::Kill(s[k].child->0) by {
            if i < r.1.len() {
                assert(e[i] == r.1[i]);
                let k = choose|k: int| 0 <= k < t.len() && t[k].child is Some && r.1[i] == EffectView::Kill(t[k].child->0);
                assert(s[k] == t[k]);
            } else {
                assert(s[s.len() - 1] == s.last());
            }
        }
    }
}

/// Each directory has at most one entry in the cache.
pub open spec fn dirs_unique(c: Seq<(Seq<char>, Seq<(Seq<char>, StatusView, Seq<Seq<char>>)>)>) -> bool {
    forall|i: int, j: int| 0 <= i < j < c.len() ==> (#[trigger] c[i]).0 != (#[trigger] c[j]).0
}

proof fn lemma_cache_index_first(c: Seq<(Seq<char>, Seq<(Seq<char>, StatusView, Seq<Seq<char>>)>)>, dir: Seq<char>)
    ensures
        0 <= cache_index(c, dir) <= c.len(),
        cache_index(c, dir) < c.len() ==> c[cache_index(c, dir)].0 == dir,
        forall|k: int| 0 <= k < cache_index(c, dir) ==> (#[trigger] c[k]).0 != dir,
    decreases c.len(),
{
    if c.len() > 0 && c[0].0 != dir {
        let t = c.drop_first();
        lemma_cache_index_first(t, dir);
        assert forall|k: int| 0 <= k < cache_index(c, dir) implies (#[trigger] c[k]).0 != dir by {
            if k > 0 {
                assert(c[k] == t[k - 1]);
            }
        }
    }
}

proof fn lemma_kept_for_last(kept: Seq<(Seq<char>, StatusView, Seq<Seq<char>>)>, j: int)
    requires
        0 <= j < kept.len(),
        forall|m: int| j < m < kept.len() ==> (#[trigger] kept[m]).0 != kept[j].0,
    ensures
        kept_for(kept, kept[j].0) == Some((kept[j].1, kept[j].2)),
    decreases kept.len(),
{
    if j < kept.len() - 1 {
        let t = kept.drop_last();
        assert(kept.last() == kept[kept.len() - 1]);
        assert forall|m: int| j < m < t.len() implies (#[trigger] t[m]).0 != t[j].0 by {
            assert(t[m] == kept[m]);
        }
        lemma_kept_for_last(t, j);
    }
}

proof fn lemma_kept_for_none(kept: Seq<(Seq<char>, StatusView, Seq<Seq<char>>)>, name: Seq<char>)
    requires
        forall|m: int| 0 <= m < kept.len() ==> (#[trigger] kept[m]).0 != name,
    ensures
        kept_for(kept, name) is None,
    decreases kept.len(),
{
    if kept.len() > 0 {
        let t = kept.drop_last();
        assert(kept.last() == kept[kept.len() - 1]);
        assert forall|m: int| 0 <= m < t.len() implies (#[trigger] t[m]).0 != name by {
            assert(t[m] == kept[m]);
        }
        lemma_kept_for_none(t, name);
    }
}

proof fn lemma_remove_keeps_unique(c: Seq<(Seq<char>, Seq<(Seq<char>, StatusView, Seq<Seq<char>>)>)>, i: int)
    requires
        dirs_unique(c),
        0 <= i < c.len(),
    ensures
        dirs_unique(c.remove(i)),
{
    let b = c.remove(i);
    assert forall|a: int, d: int| 0 <= a < d < b.len() implies (#[trigger] b[a]).0 != (#[trigger] b[d]).0 by {
        let a2 = if a < i { a } else { a + 1 };
        let d2 = if d < i { d } else { d + 1 };
        assert(b[a] == c[a2]);
        assert(b[d] == c[d2]);
    }
}

/// The cache lists each directory at most once: the empty cache does, and
/// keeping a directory's services and taking them back both preserve it.
pub proof fn lemma_cache_stays_unique(
    c: Seq<(Seq<char>, Seq<(Seq<char>, StatusView, Seq<Seq<char>>)>)>,
    dir: Seq<char>,
    kept: Seq<(Seq<char>, StatusView, Seq<Seq<char>>)>,
    fresh: Seq<ServiceView>,
)
    requires
        dirs_unique(c),
    ensures
        dirs_unique(Seq::<(Seq<char>, Seq<(Seq<char>, StatusView, Seq<Seq<char>>)>)>::empty()),
        dirs_unique(cache_saved(c, dir, kept)),
        dirs_unique(restore_spec(fresh, c, dir).1),
{
    let i = cache_index(c, dir);
    lemma_cache_index_first(c, dir);
    let base = if i < c.len() {
        lemma_remove_keeps_unique(c, i);
        c.remove(i)
    } else {
        c
    };
    assert forall|k: int| 0 <= k < base.len() implies (#[trigger] base[k]).0 != dir by {
        if i < c.len() {
            if k < i {
                assert(base[k] == c[k]);
            } else {
                assert(base[k] == c[k + 1]);
            }
        }
    }
    let saved = base.push((dir, kept));
    assert forall|a: int, b: int| 0 <= a < b < saved.len() implies (#[trigger] saved[a]).0 != (#[trigger] saved[b]).0 by {
        assert(saved[a] == base[a]);
        if b < base.len() {
            assert(saved[b] == base[b]);
        }
    }
}

/// Coming back to a directory restores what was kept when it was left: each
/// service detected again takes the log of the last service of its name
/// that was there and its status once stopped (none comes back starting,
/// running or stopping), the others stay as detected, and the
/// directory's entry leaves the cache, which lists each directory once
/// throughout.
pub proof fn lemma_return_restores(
    c: Seq<(Seq<char>, Seq<(Seq<char>, StatusView, Seq<Seq<char>>)>)>,
    dir: Seq<char>,
    sv: Seq<ServiceView>,
    fresh: Seq<ServiceView>,
)
    requires
        dirs_unique(c),
    ensures
        ({
            let saved = cache_saved(c, dir, snapshot(sv));
            let r = restore_spec(fresh, saved, dir);
            let i = cache_index(c, dir);
            &&& dirs_unique(saved)
            &&& r.0 == fresh.map_values(|f: ServiceView| restored(f, snapshot(sv)))
            &&& r.1 == (if i < c.len() {
                c.remove(i)
            } else {
                c
            })
            &&& dirs_unique(r.1)
            &&& forall|k: int, j: int|
                0 <= k < fresh.len() && 0 <= j < sv.len() && (#[trigger] fresh[k]).name == (#[trigger] sv[j]).name
                    && (forall|m: int| j < m < sv.len() ==> (#[trigger] sv[m]).name != sv[j].name) ==> r.0[k].status
                    == returned_status(sv[j].status) && !is_active(r.0[k].status) && r.0[k].log == sv[j].log
                    && r.0[k].id == fresh[k].id
            &&& forall|k: int|
                0 <= k < fresh.len() && (forall|j: int| 0 <= j < sv.len() ==> (#[trigger] sv[j]).name
                    != fresh[k].name) ==> #[trigger] r.0[k] == fresh[k]
        }),
{
    let kept = snapshot(sv);
    let i = cache_index(c, dir);
    lemma_cache_index_first(c, dir);
    let base = if i < c.len() {
        c.remove(i)
    } else {
        c
    };
    assert forall|k: int| 0 <= k < base.len() implies (#[trigger] base[k]).0 != dir by {
        if i < c.len() {
            if k < i {
                assert(base[k] == c[k]);
            } else {
                assert(base[k] == c[k + 1]);
            }
        }
    }
    assert(dirs_unique(base)) by {
        assert forall|a: int, b: int| 0 <= a < b < base.len() implies (#[trigger] base[a]).0 != (#[trigger] base[b]).0 by {
            if i < c.len() {
                let a2 = if a < i { a } else { a + 1 };
                let b2 = if b < i { b } else { b + 1 };
                assert(base[a] == c[a2]);
                assert(base[b] == c[b2]);
            }
        }
    }
    let saved = base.push((dir, kept));
    assert(saved == cache_saved(c, dir, kept));
    assert(dirs_unique(saved)) by {
        assert forall|a: int, b: int| 0 <= a < b < saved.len() implies (#[trigger] saved[a]).0 != (#[trigger] saved[b]).0 by {
            assert(saved[a] == base[a]);
            if b < base.len() {
                assert(saved[b] == base[b]);
            }
        }
    }
    assert(cache_index(saved, dir) == base.len()) by {
        assert forall|k: int| 0 <= k < base.len() implies (#[trigger] saved[k]).0 != dir by {
            assert(saved[k] == base[k]);
        }
        lemma_cache_index(saved, dir, base.len() as int);
    }
    assert(saved.remove(base.len() as int) =~= base);
    let r = restore_spec(fresh, saved, dir);
    assert(saved[base.len() as int].1 == kept);
    assert forall|k: int, j: int|
        0 <= k < fresh.len() && 0 <= j < sv.len() && (#[trigger] fresh[k]).name == (#[trigger] sv[j]).name && (forall|m: int|
            j < m < sv.len() ==> (#[trigger] sv[m]).name != sv[j].name) implies r.0[k].status == returned_status(
            sv[j].status,
        ) && !is_active(r.0[k].status) && r.0[k].log == sv[j].log && r.0[k].id == fresh[k].id by {
        assert(kept[j] == (sv[j].name, sv[j].status, sv[j].log));
        assert forall|m: int| j < m < kept.len() implies (#[trigger] kept[m]).0 != kept[j].0 by {
            assert(kept[m].0 == sv[m].name);
        }
        lemma_kept_for_last(kept, j);
    }
    assert forall|k: int|
        0 <= k < fresh.len() && (forall|j: int| 0 <= j < sv.len() ==> (#[trigger] sv[j]).name != fresh[k].name) implies #[trigger] r.0[k]
        == fresh[k] by {
        assert forall|m: int| 0 <= m < kept.len() implies (#[trigger] kept[m]).0 != fresh[k].name by {
            assert(kept[m].0 == sv[m].name);
        }
        lemma_kept_for_none(kept, fresh[k].name);
    }
}

} // verus!
