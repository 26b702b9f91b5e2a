//! The commands that gather cluster data, and what their runs produced.
pub mod command;

use vstd::prelude::*;

use crate::cli::{window_start, HistoryWindow};
use crate::collector::command::{
    clone_strings, short_error_of, CancelFlag, CaptureView, CommandCapture, CommandRunner,
};
use crate::model::types::{clone_string, opt_view, string_views};
use crate::text::{append, append_str, chars_of, owned, string_of};

verus! {

/// How long a successful `scontrol show partition` answer is reused, in
/// milliseconds.
pub const PARTITION_CACHE_TTL_MS: u64 = 30000;

/// The time limit of each command run, in milliseconds.
pub const COMMAND_TIMEOUT_MS: u64 = 5000;

/// The `sinfo -o` format: partition, state, node, CPUs, memory, GRES.
pub const SINFO_FORMAT: &'static str = "%P\u{1f}%t\u{1f}%N\u{1f}%c\u{1f}%m\u{1f}%G";

/// The `squeue -o` format of a job row.
pub const SQUEUE_FORMAT: &'static str =
    "%i\u{1f}%u\u{1f}%a\u{1f}%P\u{1f}%j\u{1f}%T\u{1f}%M\u{1f}%l\u{1f}%D\u{1f}%C\u{1f}%b\u{1f}%V\u{1f}%Q\u{1f}%R";

/// The job states `squeue` is asked for.
pub const ACTIVE_STATES: &'static str = "PENDING,RUNNING,CONFIGURING,COMPLETING,SUSPENDED";

/// The `sacct -o` fields of a history row.
pub const HISTORY_FIELDS: &'static str =
    "JobIDRaw,JobName,User,Partition,State,ExitCode,Elapsed,Start,End,AllocTRES,ReqTRES";

/// The `sacct -o` fields of a job's accounting record.
pub const DETAIL_FIELDS: &'static str =
    "JobIDRaw,JobName,User,Account,Partition,State,ExitCode,Elapsed,Submit,Start,End,AllocTRES,ReqTRES,NNodes,NTasks,NodeList";

/// A program to run and its arguments.
#[derive(Debug, Clone)]
pub struct CommandRequest {
    pub program: String,
    pub args: Vec<String>,
}

pub struct RequestView {
    pub program: Seq<char>,
    pub args: Seq<Seq<char>>,
}

impl View for CommandRequest {
    type V = RequestView;

    open spec fn view(&self) -> RequestView {
        RequestView { program: self.program@, args: string_views(self.args@) }
    }
}

pub open spec fn nodes_request_of() -> RequestView {
    RequestView { program: "sinfo"@, args: seq!["-Nh"@, "-o"@, SINFO_FORMAT@] }
}

pub open spec fn jobs_request_of() -> RequestView {
    RequestView {
        program: "squeue"@,
        args: seq!["-h"@, "-t"@, ACTIVE_STATES@, "-o"@, SQUEUE_FORMAT@],
    }
}

pub open spec fn partition_static_request_of() -> RequestView {
    RequestView { program: "scontrol"@, args: seq!["show"@, "partition"@] }
}

/// `sacct` over the window, for every user (`-a`) or only the caller.
pub open spec fn history_request_of(window: HistoryWindow, all_users: bool) -> RequestView {
    let base = seq!["-n"@, "-P"@, "-X"@, "-S"@, window_start(window), "-o"@, HISTORY_FIELDS@];
    RequestView {
        program: "sacct"@,
        args: if all_users {
            seq!["-a"@] + base
        } else {
            base
        },
    }
}

pub open spec fn job_live_request_of(job_id: Seq<char>) -> RequestView {
    RequestView { program: "scontrol"@, args: seq!["show"@, "job"@, "-o"@, job_id] }
}

pub open spec fn job_accounting_request_of(job_id: Seq<char>) -> RequestView {
    RequestView {
        program: "sacct"@,
        args: seq!["-n"@, "-P"@, "-X"@, "-j"@, job_id, "-o"@, DETAIL_FIELDS@],
    }
}

pub open spec fn node_request_of(node: Seq<char>) -> RequestView {
    RequestView { program: "scontrol"@, args: seq!["show"@, "node"@, "-o"@, node] }
}

pub open spec fn node_jobs_request_of(node: Seq<char>) -> RequestView {
    RequestView {
        program: "squeue"@,
        args: seq!["-h"@, "-w"@, node, "-t"@, ACTIVE_STATES@, "-o"@, SQUEUE_FORMAT@],
    }
}

/// One raw sample of the cluster: the three captures and when and where
/// they were taken (the time in milliseconds since the Unix epoch).
#[derive(Debug, Clone)]
pub struct RawSnapshot {
    pub collected_at_ms: i64,
    pub local_time: String,
    pub hostname: String,
    pub current_user: String,
    pub sample_duration_ms: u128,
    pub stale_partition_static: bool,
    pub degraded_notes: Vec<String>,
    pub nodes: CommandCapture,
    pub jobs: CommandCapture,
    pub partition_static: Option<CommandCapture>,
}

/// The `sacct` answer for a history window.
#[derive(Debug, Clone)]
pub struct HistoryRaw {
    pub window: HistoryWindow,
    pub all_users: bool,
    pub capture: CommandCapture,
}

/// The live and the accounting answer for one job.
#[derive(Debug, Clone)]
pub struct JobDetailRaw {
    pub job_id: String,
    pub live: CommandCapture,
    pub accounting: CommandCapture,
}

/// The node record and the node's jobs.
#[derive(Debug, Clone)]
pub struct NodeDetailRaw {
    pub node_name: String,
    pub node: CommandCapture,
    pub jobs: CommandCapture,
}

pub open spec fn opt_note(o: Option<Seq<char>>) -> Seq<Seq<char>> {
    match o {
        Some(e) => seq![e],
        None => Seq::empty(),
    }
}

/// The notes of a sample: each failed capture's one-line error, and a note
/// when the partition data is missing or failed.
pub open spec fn degraded_notes_of(
    nodes: CaptureView,
    jobs: CaptureView,
    partition_static: Option<CaptureView>,
) -> Seq<Seq<char>> {
    opt_note(short_error_of(nodes)) + opt_note(short_error_of(jobs)) + match partition_static {
        Some(c) => match short_error_of(c) {
            Some(e) => seq!["partition static data unavailable: "@ + e],
            None => Seq::empty(),
        },
        None => seq!["partition static data unavailable"@],
    }
}

pub open spec fn opt_capture_view(o: Option<CommandCapture>) -> Option<CaptureView> {
    match o {
        Some(c) => Some(c@),
        None => None,
    }
}

pub fn degraded_notes(
    nodes: &CommandCapture,
    jobs: &CommandCapture,
    partition_static: &Option<CommandCapture>,
) -> (r: Vec<String>)
    ensures
        string_views(r@) == degraded_notes_of(nodes@, jobs@, opt_capture_view(*partition_static)),
{
    let mut notes: Vec<String> = Vec::new();
    match nodes.short_error() {
        Some(e) => notes.push(e),
        None => {},
    }
    match jobs.short_error() {
        Some(e) => notes.push(e),
        None => {},
    }
    let ghost before = string_views(notes@);
    match partition_static {
        Some(c) => match c.short_error() {
            Some(e) => {
                let mut t = chars_of("partition static data unavailable: ");
                append_str(&mut t, e.as_str());
                notes.push(string_of(&t));
            },
            None => {},
        },
        None => notes.push(String::from_str("partition static data unavailable")),
    }
    assert(string_views(notes@) =~= degraded_notes_of(
        nodes@,
        jobs@,
        opt_capture_view(*partition_static),
    ));
    notes
}

/// Gathers cluster data through `sinfo`, `squeue`, `scontrol` and `sacct`
/// and keeps the last good partition answer for a while.
#[derive(Debug)]
pub struct Collector {
    runner: CommandRunner,
    cached_partition_static: Option<(u64, CommandCapture)>,
    hostname: String,
    current_user: String,
}

impl Collector {
    /// The cached partition answer and when it was taken.
    pub closed spec fn cache_of(&self) -> Option<(u64, CaptureView)> {
        match self.cached_partition_static {
            Some(e) => Some((e.0, e.1@)),
            None => None,
        }
    }

    pub closed spec fn hostname_of(&self) -> Seq<char> {
        self.hostname@
    }

    pub closed spec fn user_of(&self) -> Seq<char> {
        self.current_user@
    }

    pub closed spec fn runner_of(&self) -> CommandRunner {
        self.runner
    }

    /// A collector for `current_user` on `hostname`, with nothing cached.
    pub fn new(current_user: &str, hostname: String) -> (c: Self)
        ensures
            c.cache_of() is None,
            c.hostname_of() == hostname@,
            c.user_of() == current_user@,
            c.runner_of().timeout_ms_of() == COMMAND_TIMEOUT_MS,
    {
        Collector::with_cancel(current_user, hostname, CancelFlag::default())
    }

    /// As `new`, with runs that stop when `cancel` is raised.
    pub fn with_cancel(current_user: &str, hostname: String, cancel: CancelFlag) -> (c: Self)
        ensures
            c.cache_of() is None,
            c.hostname_of() == hostname@,
            c.user_of() == current_user@,
            c.runner_of().timeout_ms_of() == COMMAND_TIMEOUT_MS,
    {
        Collector {
            runner: CommandRunner::with_cancel(COMMAND_TIMEOUT_MS, cancel),
            cached_partition_static: None,
            hostname,
            current_user: owned(current_user),
        }
    }

    /// The runner the commands go through.
    pub fn runner(&self) -> (r: &CommandRunner)
        ensures
            *r == self.runner_of(),
    {
        &self.runner
    }

    pub fn nodes_request(&self) -> (r: CommandRequest)
        ensures
            r@ == nodes_request_of(),
    {
        let mut args: Vec<String> = Vec::new();
        args.push(owned("-Nh"));
        args.push(owned("-o"));
        args.push(owned(SINFO_FORMAT));
        let r = CommandRequest { program: owned("sinfo"), args };
        assert(r@.args =~= nodes_request_of().args);
        r
    }

    pub fn jobs_request(&self) -> (r: CommandRequest)
        ensures
            r@ == jobs_request_of(),
    {
        let mut args: Vec<String> = Vec::new();
        args.push(owned("-h"));
        args.push(owned("-t"));
        args.push(owned(ACTIVE_STATES));
        args.push(owned("-o"));
        args.push(owned(SQUEUE_FORMAT));
        let r = CommandRequest { program: owned("squeue"), args };
        assert(r@.args =~= jobs_request_of().args);
        r
    }

    pub fn partition_static_request(&self) -> (r: CommandRequest)
        ensures
            r@ == partition_static_request_of(),
    {
        let mut args: Vec<String> = Vec::new();
        args.push(owned("show"));
        args.push(owned("partition"));
        let r = CommandRequest { program: owned("scontrol"), args };
        assert(r@.args =~= partition_static_request_of().args);
        r
    }

    pub fn history_request(&self, window: HistoryWindow, all_users: bool) -> (r: CommandRequest)
        ensures
            r@ == history_request_of(window, all_users),
    {
        let mut args: Vec<String> = Vec::new();
        if all_users {
            args.push(owned("-a"));
        }
        args.push(owned("-n"));
        args.push(owned("-P"));
        args.push(owned("-X"));
        args.push(owned("-S"));
        args.push(owned(window.sacct_start()));
        args.push(owned("-o"));
        args.push(owned(HISTORY_FIELDS));
        let r = CommandRequest { program: owned("sacct"), args };
        assert(r@.args =~= history_request_of(window, all_users).args);
        r
    }

    /// The `scontrol show job` and the `sacct` request for one job.
    pub fn job_detail_requests(&self, job_id: &str) -> (r: (CommandRequest, CommandRequest))
        ensures
            r.0@ == job_live_request_of(job_id@),
            r.1@ == job_accounting_request_of(job_id@),
    {
        let mut live: Vec<String> = Vec::new();
        live.push(owned("show"));
        live.push(owned("job"));
        live.push(owned("-o"));
        live.push(owned(job_id));
        let mut acct: Vec<String> = Vec::new();
        acct.push(owned("-n"));
        acct.push(owned("-P"));
        acct.push(owned("-X"));
        acct.push(owned("-j"));
        acct.push(owned(job_id));
        acct.push(owned("-o"));
        acct.push(owned(DETAIL_FIELDS));
        let a = CommandRequest { program: owned("scontrol"), args: live };
        let b = CommandRequest { program: owned("sacct"), args: acct };
        assert(a@.args =~= job_live_request_of(job_id@).args);
        assert(b@.args =~= job_accounting_request_of(job_id@).args);
        (a, b)
    }

    /// The `scontrol show node` and the `squeue -w` request for one node.
    pub fn node_detail_requests(&self, node_name: &str) -> (r: (CommandRequest, CommandRequest))
        ensures
            r.0@ == node_request_of(node_name@),
            r.1@ == node_jobs_request_of(node_name@),
    {
        let mut node: Vec<String> = Vec::new();
        node.push(owned("show"));
        node.push(owned("node"));
        node.push(owned("-o"));
        node.push(owned(node_name));
        let mut jobs: Vec<String> = Vec::new();
        jobs.push(owned("-h"));
        jobs.push(owned("-w"));
        jobs.push(owned(node_name));
        jobs.push(owned("-t"));
        jobs.push(owned(ACTIVE_STATES));
        jobs.push(owned("-o"));
        jobs.push(owned(SQUEUE_FORMAT));
        let a = CommandRequest { program: owned("scontrol"), args: node };
        let b = CommandRequest { program: owned("squeue"), args: jobs };
        assert(a@.args =~= node_request_of(node_name@).args);
        assert(b@.args =~= node_jobs_request_of(node_name@).args);
        (a, b)
    }

    /// The history sample: the window, whether every user's jobs were asked
    /// for, and what `sacct` answered to `history_request(window, all_users)`.
    pub fn collect_history(&self, window: HistoryWindow, all_users: bool, capture: CommandCapture) -> (r: HistoryRaw)
        ensures
            r.window == window,
            r.all_users == all_users,
            r.capture@ == capture@,
    {
        HistoryRaw { window, all_users, capture }
    }

    /// The detail sample of a job: its id and the answers to the two
    /// `job_detail_requests`, the live one first.
    pub fn collect_job_detail(&self, job_id: &str, live: CommandCapture, accounting: CommandCapture) -> (r: JobDetailRaw)
        ensures
            r.job_id@ == job_id@,
            r.live@ == live@,
            r.accounting@ == accounting@,
    {
        JobDetailRaw { job_id: owned(job_id), live, accounting }
    }

    /// The detail sample of a node: its name and the answers to the two
    /// `node_detail_requests`, the node one first.
    pub fn collect_node_detail(&self, node_name: &str, node: CommandCapture, jobs: CommandCapture) -> (r: NodeDetailRaw)
        ensures
            r.node_name@ == node_name@,
            r.node@ == node@,
            r.jobs@ == jobs@,
    {
        NodeDetailRaw { node_name: owned(node_name), node, jobs }
    }

    /// `scancel` with the job ids as its arguments.
    pub fn cancel_request(&self, job_ids: &Vec<String>) -> (r: CommandRequest)
        ensures
            r@ == (RequestView { program: "scancel"@, args: string_views(job_ids@) }),
    {
        CommandRequest { program: owned("scancel"), args: clone_strings(job_ids) }
    }

    /// The cached partition answer, while it is younger than the cache's
    /// lifetime at `now_ms` (a monotonic clock in milliseconds).
    pub fn cached_partition_static(&self, now_ms: u64) -> (r: Option<CommandCapture>)
        ensures
            opt_capture_view(r) == cache_answer(self.cache_of(), now_ms),
    {
        match &self.cached_partition_static {
            Some(e) => {
                if e.0 <= now_ms && now_ms - e.0 < PARTITION_CACHE_TTL_MS {
                    Some(e.1.duplicate())
                } else {
                    None
                }
            },
            None => None,
        }
    }

    /// Keeps a successful partition answer taken at `now_ms`; a failed one
    /// leaves the cache as it was.
    pub fn remember_partition_static(&mut self, capture: &CommandCapture, now_ms: u64)
        ensures
            final(self).cache_of() == if capture@.status == crate::collector::command::CommandStatus::Success {
                Some((now_ms, capture@))
            } else {
                old(self).cache_of()
            },
            final(self).hostname_of() == old(self).hostname_of(),
            final(self).user_of() == old(self).user_of(),
            final(self).runner_of() == old(self).runner_of(),
    {
        if capture.ok() {
            self.cached_partition_static = Some((now_ms, capture.duplicate()));
        }
    }

    /// The raw sample made of three captures, with this collector's host
    /// and user and the notes that `degraded_notes` derives.
    pub fn assemble_raw(
        &self,
        collected_at_ms: i64,
        local_time: String,
        sample_duration_ms: u128,
        nodes: CommandCapture,
        jobs: CommandCapture,
        partition_static: Option<CommandCapture>,
        stale_partition_static: bool,
    ) -> (r: RawSnapshot)
        ensures
            r.collected_at_ms == collected_at_ms,
            r.local_time@ == local_time@,
            r.hostname@ == self.hostname_of(),
            r.current_user@ == self.user_of(),
            r.sample_duration_ms == sample_duration_ms,
            r.stale_partition_static == stale_partition_static,
            string_views(r.degraded_notes@) == degraded_notes_of(
                nodes@,
                jobs@,
                opt_capture_view(partition_static),
            ),
            r.nodes@ == nodes@,
            r.jobs@ == jobs@,
            opt_capture_view(r.partition_static) == opt_capture_view(partition_static),
    {
        let degraded_notes = degraded_notes(&nodes, &jobs, &partition_static);
        RawSnapshot {
            collected_at_ms,
            local_time,
            hostname: clone_string(&self.hostname),
            current_user: clone_string(&self.current_user),
            sample_duration_ms,
            stale_partition_static,
            degraded_notes,
            nodes,
            jobs,
            partition_static,
        }
    }
}

/// The answer `cached_partition_static` gives at `now_ms` from a cache.
pub open spec fn cache_answer(cache: Option<(u64, CaptureView)>, now_ms: u64) -> Option<CaptureView> {
    match cache {
        Some(e) => if e.0 <= now_ms && now_ms - e.0 < PARTITION_CACHE_TTL_MS {
            Some(e.1)
        } else {
            None
        },
        None => None,
    }
}

/// A successful partition answer remembered at `t` is served from the
/// cache for the next 30 seconds and not after; a failed one changes
/// nothing.
pub proof fn lemma_partition_cache(
    cache: Option<(u64, CaptureView)>,
    capture: CaptureView,
    t: u64,
    now_ms: u64,
)
    ensures
        ({
            let after = if capture.status == crate::collector::command::CommandStatus::Success {
                Some((t, capture))
            } else {
                cache
            };
            &&& capture.status == crate::collector::command::CommandStatus::Success && t <= now_ms
                && now_ms < t + PARTITION_CACHE_TTL_MS ==> cache_answer(after, now_ms) == Some(capture)
            &&& capture.status == crate::collector::command::CommandStatus::Success && now_ms >= t
                + PARTITION_CACHE_TTL_MS ==> cache_answer(after, now_ms) is None
            &&& capture.status != crate::collector::command::CommandStatus::Success ==> cache_answer(
                after,
                now_ms,
            ) == cache_answer(cache, now_ms)
        }),
{
}

} // verus!
