//! What a command run produced, and the flag that cancels runs.
use vstd::prelude::*;

use crate::model::types::{clone_string, string_views};
use crate::text::{append, append_str, chars_of, lines, lines_exec, string_of, trim, trim_exec};

verus! {

/// A shared flag that asks running commands to stop.
#[derive(Debug, Clone)]
pub struct CancelFlag {
    inner: std::sync::Arc<std::sync::atomic::AtomicBool>,
}

impl Default for CancelFlag {
    fn default() -> Self {
        CancelFlag { inner: std::sync::Arc::new(std::sync::atomic::AtomicBool::new(false)) }
    }
}

impl CancelFlag {
    /// Raises the flag for every holder of a clone of it.
    pub fn cancel(&self) {
        self.inner.store(true, std::sync::atomic::Ordering::SeqCst);
    }

    /// Whether some holder raised the flag. The flag is shared between
    /// threads, so nothing is promised of the answer.
    pub fn is_cancelled(&self) -> bool {
        self.inner.load(std::sync::atomic::Ordering::SeqCst)
    }
}

/// How a command run ended.
#[derive(Debug, Clone, Copy, PartialEq, Eq, Structural)]
pub enum CommandStatus {
    Success,
    Failed,
    TimedOut,
    Cancelled,
    SpawnError,
}

/// The program, its arguments, how it ended and what it printed.
#[derive(Debug, Clone)]
pub struct CommandCapture {
    pub program: String,
    pub args: Vec<String>,
    pub status: CommandStatus,
    pub exit_code: Option<i32>,
    pub stdout: String,
    pub stderr: String,
    pub duration_ms: u128,
}

pub struct CaptureView {
    pub program: Seq<char>,
    pub args: Seq<Seq<char>>,
    pub status: CommandStatus,
    pub exit_code: Option<i32>,
    pub stdout: Seq<char>,
    pub stderr: Seq<char>,
    pub duration_ms: u128,
}

impl View for CommandCapture {
    type V = CaptureView;

    open spec fn view(&self) -> CaptureView {
        CaptureView {
            program: self.program@,
            args: string_views(self.args@),
            status: self.status,
            exit_code: self.exit_code,
            stdout: self.stdout@,
            stderr: self.stderr@,
            duration_ms: self.duration_ms,
        }
    }
}

/// The first line of a text, or the text itself when it has none.
pub open spec fn first_line(d: Seq<char>) -> Seq<char> {
    if lines(d).len() > 0 {
        lines(d)[0]
    } else {
        d
    }
}

/// The one-line complaint about a run that did not succeed; none for a
/// success or a cancelled run.
pub open spec fn short_error_of(c: CaptureView) -> Option<Seq<char>> {
    if c.status == CommandStatus::Success || c.status == CommandStatus::Cancelled {
        None
    } else if c.status == CommandStatus::TimedOut {
        Some(
            if trim(c.stdout).len() == 0 {
                c.program + " timed out"@
            } else {
                c.program + " timed out; using partial data"@
            },
        )
    } else {
        let detail = trim(c.stderr);
        Some(
            if detail.len() == 0 {
                c.program + " failed"@
            } else {
                c.program + " failed: "@ + first_line(detail)
            },
        )
    }
}

pub fn clone_strings(v: &Vec<String>) -> (r: Vec<String>)
    ensures
        string_views(r@) == string_views(v@),
{
    let mut r: Vec<String> = Vec::new();
    let mut i: usize = 0;
    while i < v.len()
        invariant
            i <= v@.len(),
            r@.len() == i,
            forall|j: int| 0 <= j < i ==> (#[trigger] r@[j])@ == v@[j]@,
        decreases v@.len() - i,
    {
        r.push(clone_string(&v[i]));
        i = i + 1;
    }
    assert(string_views(r@) =~= string_views(v@));
    r
}

/// Whether a capture's output is worth parsing: it succeeded, or it left
/// some output behind.
pub open spec fn usable(c: CaptureView) -> bool {
    c.status == CommandStatus::Success || trim(c.stdout).len() > 0
}

impl CommandCapture {
    /// Whether the output is worth parsing.
    pub fn is_usable(&self) -> (b: bool)
        ensures
            b == usable(self@),
    {
        let out = chars_of(self.stdout.as_str());
        let t = trim_exec(&out);
        self.ok() || t.len() > 0
    }

    /// Whether the run succeeded.
    pub fn ok(&self) -> (b: bool)
        ensures
            b == (self.status == CommandStatus::Success),
    {
        self.status == CommandStatus::Success
    }

    /// A copy of the capture.
    pub fn duplicate(&self) -> (c: CommandCapture)
        ensures
            c@ == self@,
    {
        CommandCapture {
            program: clone_string(&self.program),
            args: clone_strings(&self.args),
            status: self.status,
            exit_code: self.exit_code,
            stdout: clone_string(&self.stdout),
            stderr: clone_string(&self.stderr),
            duration_ms: self.duration_ms,
        }
    }

    /// Why the run did not help, in one line: a timeout (noting whether
    /// partial output is kept), or a failure with the first line of its
    /// error output.
    pub fn short_error(&self) -> (r: Option<String>)
        ensures
            match r {
                Some(s) => short_error_of(self@) == Some(s@),
                None => short_error_of(self@) is None,
            },
    {
        if self.ok() || self.status == CommandStatus::Cancelled {
            return None;
        }
        let mut out = chars_of(self.program.as_str());
        if self.status == CommandStatus::TimedOut {
            let out_text = chars_of(self.stdout.as_str());
            let t = trim_exec(&out_text);
            if t.len() == 0 {
                append_str(&mut out, " timed out");
            } else {
                append_str(&mut out, " timed out; using partial data");
            }
            return Some(string_of(&out));
        }
        let err_text = chars_of(self.stderr.as_str());
        let detail = trim_exec(&err_text);
        if detail.len() == 0 {
            append_str(&mut out, " failed");
        } else {
            append_str(&mut out, " failed: ");
            let ls = lines_exec(&detail);
            if ls.len() > 0 {
                append(&mut out, &ls[0]);
            } else {
                append(&mut out, &detail);
            }
        }
        Some(string_of(&out))
    }
}

/// Runs commands with a time limit and a cancel flag.
#[derive(Debug, Clone)]
pub struct CommandRunner {
    timeout_ms: u64,
    cancel: CancelFlag,
}

impl CommandRunner {
    /// A runner with its own cancel flag.
    pub fn new(timeout_ms: u64) -> (r: Self)
        ensures
            r.timeout_ms_of() == timeout_ms,
    {
        CommandRunner { timeout_ms, cancel: CancelFlag::default() }
    }

    /// A runner that stops when `cancel` is raised.
    pub fn with_cancel(timeout_ms: u64, cancel: CancelFlag) -> (r: Self)
        ensures
            r.timeout_ms_of() == timeout_ms,
            r.cancel_flag_of() == cancel,
    {
        CommandRunner { timeout_ms, cancel }
    }

    /// The time limit of each run, in milliseconds.
    pub closed spec fn timeout_ms_of(&self) -> u64 {
        self.timeout_ms
    }

    pub fn timeout_ms(&self) -> (t: u64)
        ensures
            t == self.timeout_ms_of(),
    {
        self.timeout_ms
    }

    /// The flag that cancels this runner's runs.
    pub closed spec fn cancel_flag_of(&self) -> CancelFlag {
        self.cancel
    }

    pub fn cancel_flag(&self) -> (f: &CancelFlag)
        ensures
            *f == self.cancel_flag_of(),
    {
        &self.cancel
    }
}

} // verus!
