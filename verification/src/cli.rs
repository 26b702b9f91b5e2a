//! Settings from the command line and the config file, resolved into the
//! settings a run uses.
use vstd::prelude::*;

use crate::model::types::{clone_string, opt_view};
use crate::text::{chars_of, string_of, trim, trim_exec};

verus! {

/// The colour theme.
#[derive(Debug, Clone, Copy, PartialEq, Eq, Structural)]
pub enum ThemeChoice {
    Auto,
    Dark,
    Light,
}

impl Default for ThemeChoice {
    fn default() -> (t: Self)
        ensures
            t == ThemeChoice::Auto,
    {
        ThemeChoice::Auto
    }
}

/// How far back the history page looks.
#[derive(Debug, Clone, Copy, PartialEq, Eq, Structural)]
pub enum HistoryWindow {
    H24,
    D3,
    D7,
}

impl Default for HistoryWindow {
    fn default() -> (w: Self)
        ensures
            w == HistoryWindow::H24,
    {
        HistoryWindow::H24
    }
}

/// The window after `w` in the cycle 24h, 3d, 7d.
pub open spec fn next_window(w: HistoryWindow) -> HistoryWindow {
    match w {
        HistoryWindow::H24 => HistoryWindow::D3,
        HistoryWindow::D3 => HistoryWindow::D7,
        HistoryWindow::D7 => HistoryWindow::H24,
    }
}

pub open spec fn window_label(w: HistoryWindow) -> Seq<char> {
    match w {
        HistoryWindow::H24 => "24h"@,
        HistoryWindow::D3 => "3d"@,
        HistoryWindow::D7 => "7d"@,
    }
}

/// The `sacct -S` start time of a window.
pub open spec fn window_start(w: HistoryWindow) -> Seq<char> {
    match w {
        HistoryWindow::H24 => "now-24hours"@,
        HistoryWindow::D3 => "now-3days"@,
        HistoryWindow::D7 => "now-7days"@,
    }
}

impl HistoryWindow {
    pub fn label(self) -> (s: &'static str)
        ensures
            s@ == window_label(self),
    {
        match self {
            HistoryWindow::H24 => "24h",
            HistoryWindow::D3 => "3d",
            HistoryWindow::D7 => "7d",
        }
    }

    pub fn sacct_start(self) -> (s: &'static str)
        ensures
            s@ == window_start(self),
    {
        match self {
            HistoryWindow::H24 => "now-24hours",
            HistoryWindow::D3 => "now-3days",
            HistoryWindow::D7 => "now-7days",
        }
    }

    pub fn next(self) -> (w: Self)
        ensures
            w == next_window(self),
    {
        match self {
            HistoryWindow::H24 => HistoryWindow::D3,
            HistoryWindow::D3 => HistoryWindow::D7,
            HistoryWindow::D7 => HistoryWindow::H24,
        }
    }
}

/// Cycling the history window three times comes back to where it started,
/// and no fewer steps do.
pub proof fn lemma_window_cycle(w: HistoryWindow)
    ensures
        next_window(next_window(next_window(w))) == w,
        next_window(w) != w,
        next_window(next_window(w)) != w,
{
}

/// The trimmed text when it is not empty.
pub open spec fn nonblank(o: Option<Seq<char>>) -> Option<Seq<char>> {
    match o {
        Some(v) => if trim(v).len() > 0 {
            Some(trim(v))
        } else {
            None
        },
        None => None,
    }
}

/// The user named by `USER`, else by `LOGNAME`, else by the output of
/// `id -un`; each taken trimmed, and only when not blank.
pub open spec fn detected_user(
    user_env: Option<Seq<char>>,
    logname_env: Option<Seq<char>>,
    id_output: Option<Seq<char>>,
) -> Option<Seq<char>> {
    if nonblank(user_env) is Some {
        nonblank(user_env)
    } else if nonblank(logname_env) is Some {
        nonblank(logname_env)
    } else {
        nonblank(id_output)
    }
}

pub open spec fn opt_str_view(o: Option<&str>) -> Option<Seq<char>> {
    match o {
        Some(s) => Some(s@),
        None => None,
    }
}

fn nonblank_exec(o: Option<&str>) -> (r: Option<String>)
    ensures
        opt_view(r) == nonblank(opt_str_view(o)),
{
    match o {
        Some(s) => {
            let v = chars_of(s);
            let t = trim_exec(&v);
            if t.len() > 0 {
                Some(string_of(&t))
            } else {
                None
            }
        },
        None => None,
    }
}

pub fn detect_current_user_from_sources(
    user_env: Option<&str>,
    logname_env: Option<&str>,
    id_output: Option<&str>,
) -> (r: Option<String>)
    ensures
        opt_view(r) == detected_user(
            opt_str_view(user_env),
            opt_str_view(logname_env),
            opt_str_view(id_output),
        ),
{
    let u = nonblank_exec(user_env);
    if u.is_some() {
        return u;
    }
    let l = nonblank_exec(logname_env);
    if l.is_some() {
        return l;
    }
    nonblank_exec(id_output)
}

/// The options given on the command line; the refresh interval in
/// milliseconds.
#[derive(Debug, Clone)]
pub struct Cli {
    pub interval_ms: Option<u64>,
    pub user: Option<String>,
    pub all: bool,
    pub no_all_jobs: bool,
    pub theme: Option<ThemeChoice>,
    pub debug_dump: bool,
    pub once: bool,
    pub compact: bool,
    pub no_color: bool,
    pub history_window: Option<HistoryWindow>,
    pub advanced_resources: bool,
    pub no_advanced_resources: bool,
}

/// The options read from the config file; the refresh interval in
/// milliseconds.
#[derive(Debug, Clone)]
pub struct FileConfig {
    pub interval_ms: Option<u64>,
    pub user: Option<String>,
    pub all_jobs_enabled: Option<bool>,
    pub start_in_all_jobs: Option<bool>,
    pub compact: Option<bool>,
    pub no_color: Option<bool>,
    pub theme: Option<ThemeChoice>,
    pub history_window: Option<HistoryWindow>,
    pub show_advanced_resources: Option<bool>,
}

impl Default for FileConfig {
    fn default() -> (f: Self)
        ensures
            f.interval_ms is None && f.user is None && f.all_jobs_enabled is None
                && f.start_in_all_jobs is None && f.compact is None && f.no_color is None
                && f.theme is None && f.history_window is None
                && f.show_advanced_resources is None,
    {
        FileConfig {
            interval_ms: None,
            user: None,
            all_jobs_enabled: None,
            start_in_all_jobs: None,
            compact: None,
            no_color: None,
            theme: None,
            history_window: None,
            show_advanced_resources: None,
        }
    }
}

/// The settings a run uses.
#[derive(Debug, Clone)]
pub struct ResolvedCli {
    pub interval_ms: u64,
    pub user: String,
    pub start_in_all_jobs: bool,
    pub all_jobs_enabled: bool,
    pub theme: ThemeChoice,
    pub debug_dump: bool,
    pub once: bool,
    pub compact: bool,
    pub no_color: bool,
    pub history_window: HistoryWindow,
    pub show_advanced_resources: bool,
}

/// The shortest refresh interval, in milliseconds.
pub const MIN_INTERVAL_MS: u64 = 250;

/// The refresh interval when neither source gives one, in milliseconds.
pub const DEFAULT_INTERVAL_MS: u64 = 2000;

pub open spec fn or_opt<T>(a: Option<T>, b: Option<T>) -> Option<T> {
    match a {
        Some(x) => Some(x),
        None => b,
    }
}

pub open spec fn flag_or(o: Option<bool>, d: bool) -> bool {
    match o {
        Some(b) => b,
        None => d,
    }
}

/// The user the options name: the command line's, else the file's, kept
/// only when it is not blank.
pub open spec fn configured_user_of(cli_user: Option<Seq<char>>, file_user: Option<Seq<char>>) -> Option<
    Seq<char>,
> {
    match or_opt(cli_user, file_user) {
        Some(u) => if trim(u).len() > 0 {
            Some(u)
        } else {
            None
        },
        None => None,
    }
}

pub open spec fn file_user(file: Option<FileConfig>) -> Option<Seq<char>> {
    match file {
        Some(f) => opt_view(f.user),
        None => None,
    }
}

/// The settings of the file, or none when there is no file.
pub open spec fn file_or_default(file: Option<FileConfig>) -> FileConfig {
    match file {
        Some(f) => f,
        None => FileConfig {
            interval_ms: None,
            user: None,
            all_jobs_enabled: None,
            start_in_all_jobs: None,
            compact: None,
            no_color: None,
            theme: None,
            history_window: None,
            show_advanced_resources: None,
        },
    }
}

impl ResolvedCli {
    /// The user named by the options, if any; when none, the caller
    /// detects the user and hands it to `resolve`.
    pub fn configured_user(cli: &Cli, file: &Option<FileConfig>) -> (r: Option<String>)
        ensures
            opt_view(r) == configured_user_of(opt_view(cli.user), file_user(*file)),
    {
        let chosen: Option<&String> = match &cli.user {
            Some(u) => Some(u),
            None => match file {
                Some(f) => match &f.user {
                    Some(u) => Some(u),
                    None => None,
                },
                None => None,
            },
        };
        match chosen {
            Some(u) => {
                let v = chars_of(u.as_str());
                let t = trim_exec(&v);
                if t.len() > 0 {
                    Some(clone_string(u))
                } else {
                    None
                }
            },
            None => None,
        }
    }

    /// Merges the command line over the config file: the command line wins
    /// where it says something, the file fills in the rest, and defaults
    /// cover what neither says. The interval is at least 250 ms; the user
    /// is the configured one, else `detected_user`.
    pub fn resolve(cli: Cli, file: Option<FileConfig>, detected_user: String) -> (r: Self)
        ensures
            ({
                let f = file_or_default(file);
                let interval = match or_opt(cli.interval_ms, f.interval_ms) {
                    Some(v) => v,
                    None => DEFAULT_INTERVAL_MS,
                };
                let all_jobs = !cli.no_all_jobs && flag_or(f.all_jobs_enabled, true);
                &&& r.interval_ms == if interval < MIN_INTERVAL_MS {
                    MIN_INTERVAL_MS
                } else {
                    interval
                }
                &&& r.user@ == match configured_user_of(opt_view(cli.user), file_user(file)) {
                    Some(u) => u,
                    None => detected_user@,
                }
                &&& r.all_jobs_enabled == all_jobs
                &&& r.start_in_all_jobs == (cli.all || (flag_or(f.start_in_all_jobs, false)
                    && all_jobs))
                &&& r.theme == match or_opt(cli.theme, f.theme) {
                    Some(t) => t,
                    None => ThemeChoice::Auto,
                }
                &&& r.debug_dump == cli.debug_dump
                &&& r.once == cli.once
                &&& r.compact == (cli.compact || flag_or(f.compact, false))
                &&& r.no_color == (cli.no_color || flag_or(f.no_color, false))
                &&& r.history_window == match or_opt(cli.history_window, f.history_window) {
                    Some(w) => w,
                    None => HistoryWindow::H24,
                }
                &&& r.show_advanced_resources == (!cli.no_advanced_resources && (
                cli.advanced_resources || flag_or(f.show_advanced_resources, true)))
            }),
    {
        let user = match ResolvedCli::configured_user(&cli, &file) {
            Some(u) => u,
            None => detected_user,
        };
        let f = match file {
            Some(f) => f,
            None => FileConfig::default(),
        };
        let interval = match cli.interval_ms {
            Some(v) => v,
            None => match f.interval_ms {
                Some(v) => v,
                None => DEFAULT_INTERVAL_MS,
            },
        };
        let interval_ms = if interval < MIN_INTERVAL_MS {
            MIN_INTERVAL_MS
        } else {
            interval
        };
        let all_jobs_enabled = if cli.no_all_jobs {
            false
        } else {
            match f.all_jobs_enabled {
                Some(b) => b,
                None => true,
            }
        };
        let start_in_all_jobs = if cli.all {
            true
        } else {
            let from_file = match f.start_in_all_jobs {
                Some(b) => b,
                None => false,
            };
            from_file && all_jobs_enabled
        };
        let theme = match cli.theme {
            Some(t) => t,
            None => match f.theme {
                Some(t) => t,
                None => ThemeChoice::Auto,
            },
        };
        let compact = cli.compact || match f.compact {
            Some(b) => b,
            None => false,
        };
        let no_color = cli.no_color || match f.no_color {
            Some(b) => b,
            None => false,
        };
        let history_window = match cli.history_window {
            Some(w) => w,
            None => match f.history_window {
                Some(w) => w,
                None => HistoryWindow::H24,
            },
        };
        let show_advanced_resources = if cli.no_advanced_resources {
            false
        } else if cli.advanced_resources {
            true
        } else {
            match f.show_advanced_resources {
                Some(b) => b,
                None => true,
            }
        };
        ResolvedCli {
            interval_ms,
            user,
            start_in_all_jobs,
            all_jobs_enabled,
            theme,
            debug_dump: cli.debug_dump,
            once: cli.once,
            compact,
            no_color,
            history_window,
            show_advanced_resources,
        }
    }
}

} // verus!
