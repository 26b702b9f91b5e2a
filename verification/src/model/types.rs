//! The normalized records of the cluster model and their summaries.
use vstd::prelude::*;

use crate::strmap::{lemma_sorted_keys_unique, lex_lt, sorted_keys, StrMap};
use crate::text::{append, append_str, chars_of, dec, digit_char, eq_str, push_dec, string_of, views};

verus! {

/// The view of an optional string.
pub open spec fn opt_view(o: Option<String>) -> Option<Seq<char>> {
    match o {
        Some(s) => Some(s@),
        None => None,
    }
}

/// The views of a sequence of strings.
pub open spec fn string_views(v: Seq<String>) -> Seq<Seq<char>> {
    v.map_values(|s: String| s@)
}

/// The views of a sequence of label and value pairs.
pub open spec fn field_views(v: Seq<(String, String)>) -> Seq<(Seq<char>, Seq<char>)> {
    v.map_values(|p: (String, String)| (p.0@, p.1@))
}

/// The views of a sequence of nodes.
pub open spec fn node_views(v: Seq<NodeRecord>) -> Seq<NodeView> {
    v.map_values(|n: NodeRecord| n@)
}

/// The views of a sequence of jobs.
pub open spec fn job_views(v: Seq<JobRecord>) -> Seq<JobView> {
    v.map_values(|j: JobRecord| j@)
}

/// The views of a sequence of accounting records.
pub open spec fn history_views(v: Seq<HistoryRecord>) -> Seq<HistoryView> {
    v.map_values(|h: HistoryRecord| h@)
}

/// The views of a sequence of partition definitions.
pub open spec fn partition_spec_views(v: Seq<PartitionSpec>) -> Seq<PartitionSpecView> {
    v.map_values(|p: PartitionSpec| p@)
}

/// The views of a sequence of partition overviews.
pub open spec fn partition_views(v: Seq<PartitionOverview>) -> Seq<PartitionView> {
    v.map_values(|p: PartitionOverview| p@)
}

pub fn opt_string_of(o: &Option<Vec<char>>) -> (r: Option<String>)
    ensures
        opt_view(r) == match o {
            Some(v) => Some(v@),
            None => None::<Seq<char>>,
        },
{
    match o {
        Some(v) => Some(string_of(v)),
        None => None,
    }
}

pub fn clone_string(s: &String) -> (r: String)
    ensures
        r@ == s@,
{
    s.clone()
}

pub fn clone_opt_string(o: &Option<String>) -> (r: Option<String>)
    ensures
        opt_view(r) == opt_view(*o),
{
    match o {
        Some(s) => Some(s.clone()),
        None => None,
    }
}

/// One row of `sinfo -N` output.
#[derive(Debug, Clone)]
pub struct NodeRecord {
    pub partition: String,
    pub state: String,
    pub node_name: String,
    pub cpus: Option<u32>,
    pub memory_mb: Option<u64>,
    pub gpus: Option<u32>,
    pub gres: Option<String>,
}

pub struct NodeView {
    pub partition: Seq<char>,
    pub state: Seq<char>,
    pub node_name: Seq<char>,
    pub cpus: Option<u32>,
    pub memory_mb: Option<u64>,
    pub gpus: Option<u32>,
    pub gres: Option<Seq<char>>,
}

impl View for NodeRecord {
    type V = NodeView;

    open spec fn view(&self) -> NodeView {
        NodeView {
            partition: self.partition@,
            state: self.state@,
            node_name: self.node_name@,
            cpus: self.cpus,
            memory_mb: self.memory_mb,
            gpus: self.gpus,
            gres: opt_view(self.gres),
        }
    }
}

/// One active job as `squeue` reports it.
#[derive(Debug, Clone)]
pub struct JobRecord {
    pub job_id: String,
    pub user: String,
    pub account: Option<String>,
    pub partition_raw: String,
    pub partitions: Vec<String>,
    pub name: String,
    pub state: String,
    pub runtime_raw: String,
    pub time_limit_raw: String,
    pub runtime_secs: Option<u64>,
    pub time_limit_secs: Option<u64>,
    pub nodes: u32,
    pub cpus: Option<u32>,
    pub memory_mb: Option<u64>,
    pub requested_gpus: Option<u32>,
    pub gres: Option<String>,
    pub req_tres: Option<String>,
    pub alloc_tres: Option<String>,
    pub location_or_reason: String,
    pub submit_time: Option<String>,
    pub priority: Option<u64>,
    pub is_mine: bool,
    pub active: bool,
    pub running: bool,
    pub pending: bool,
}

pub struct JobView {
    pub job_id: Seq<char>,
    pub user: Seq<char>,
    pub account: Option<Seq<char>>,
    pub partition_raw: Seq<char>,
    pub partitions: Seq<Seq<char>>,
    pub name: Seq<char>,
    pub state: Seq<char>,
    pub runtime_raw: Seq<char>,
    pub time_limit_raw: Seq<char>,
    pub runtime_secs: Option<u64>,
    pub time_limit_secs: Option<u64>,
    pub nodes: u32,
    pub cpus: Option<u32>,
    pub memory_mb: Option<u64>,
    pub requested_gpus: Option<u32>,
    pub gres: Option<Seq<char>>,
    pub req_tres: Option<Seq<char>>,
    pub alloc_tres: Option<Seq<char>>,
    pub location_or_reason: Seq<char>,
    pub submit_time: Option<Seq<char>>,
    pub priority: Option<u64>,
    pub is_mine: bool,
    pub active: bool,
    pub running: bool,
    pub pending: bool,
}

impl View for JobRecord {
    type V = JobView;

    open spec fn view(&self) -> JobView {
        JobView {
            job_id: self.job_id@,
            user: self.user@,
            account: opt_view(self.account),
            partition_raw: self.partition_raw@,
            partitions: string_views(self.partitions@),
            name: self.name@,
            state: self.state@,
            runtime_raw: self.runtime_raw@,
            time_limit_raw: self.time_limit_raw@,
            runtime_secs: self.runtime_secs,
            time_limit_secs: self.time_limit_secs,
            nodes: self.nodes,
            cpus: self.cpus,
            memory_mb: self.memory_mb,
            requested_gpus: self.requested_gpus,
            gres: opt_view(self.gres),
            req_tres: opt_view(self.req_tres),
            alloc_tres: opt_view(self.alloc_tres),
            location_or_reason: self.location_or_reason@,
            submit_time: opt_view(self.submit_time),
            priority: self.priority,
            is_mine: self.is_mine,
            active: self.active,
            running: self.running,
            pending: self.pending,
        }
    }
}

/// The partition a job is listed under first: its first normalized
/// partition, or the raw partition field when it names none.
pub open spec fn primary_partition_of(j: JobView) -> Seq<char> {
    if j.partitions.len() > 0 {
        j.partitions[0]
    } else {
        j.partition_raw
    }
}

impl JobRecord {
    pub fn primary_partition(&self) -> (p: &str)
        ensures
            p@ == primary_partition_of(self@),
    {
        if self.partitions.len() > 0 {
            self.partitions[0].as_str()
        } else {
            self.partition_raw.as_str()
        }
    }

    pub fn resources_summary(&self) -> (s: String)
        ensures
            s@ == job_resources_summary(self@),
    {
        let mut parts: Vec<Vec<char>> = Vec::new();
        if let Some(cpus) = self.cpus {
            let mut p = chars_of("cpu=");
            push_dec(&mut p, cpus as u64);
            parts.push(p);
        }
        if let Some(gpus) = self.requested_gpus {
            let mut p = chars_of("gpu=");
            push_dec(&mut p, gpus as u64);
            parts.push(p);
        }
        if let Some(memory_mb) = self.memory_mb {
            let mut p = chars_of("mem=");
            let m = format_mem_mb(memory_mb);
            append_str(&mut p, m.as_str());
            parts.push(p);
        }
        if self.nodes > 0 {
            let mut p = chars_of("node=");
            push_dec(&mut p, self.nodes as u64);
            parts.push(p);
        }
        let ghost expected = job_resource_parts(self@);
        assert(views(parts@) =~= expected);
        if parts.len() == 0 {
            String::from_str("n/a")
        } else {
            let sep = chars_of(" ");
            let joined = join_exec(&parts, &sep);
            string_of(&joined)
        }
    }
}

/// The pieces of a job's resource summary, in order.
pub open spec fn job_resource_parts(j: JobView) -> Seq<Seq<char>> {
    let a = match j.cpus {
        Some(c) => seq!["cpu="@ + dec(c as nat)],
        None => Seq::empty(),
    };
    let b = match j.requested_gpus {
        Some(g) => seq!["gpu="@ + dec(g as nat)],
        None => Seq::empty(),
    };
    let c = match j.memory_mb {
        Some(m) => seq!["mem="@ + mem_text(m as nat)],
        None => Seq::empty(),
    };
    let d = if j.nodes > 0 {
        seq!["node="@ + dec(j.nodes as nat)]
    } else {
        Seq::empty()
    };
    a + b + c + d
}

/// `cpu=.. gpu=.. mem=.. node=..` for the fields a job has, or `n/a`.
pub open spec fn job_resources_summary(j: JobView) -> Seq<char> {
    let parts = job_resource_parts(j);
    if parts.len() == 0 {
        "n/a"@
    } else {
        join(parts, " "@)
    }
}

/// The pieces joined with `sep` between them.
pub open spec fn join(parts: Seq<Seq<char>>, sep: Seq<char>) -> Seq<char>
    decreases parts.len(),
{
    if parts.len() == 0 {
        Seq::empty()
    } else if parts.len() == 1 {
        parts[0]
    } else {
        join(parts.drop_last(), sep) + sep + parts.last()
    }
}

/// The strings joined with `sep` between them.
pub fn join_strings(v: &Vec<String>, sep: &str) -> (s: String)
    ensures
        s@ == join(string_views(v@), sep@),
{
    let mut parts: Vec<Vec<char>> = Vec::new();
    let mut i: usize = 0;
    while i < v.len()
        invariant
            i <= v@.len(),
            views(parts@) == string_views(v@).take(i as int),
        decreases v@.len() - i,
    {
        let ghost before = views(parts@);
        let c = chars_of(v[i].as_str());
        parts.push(c);
        assert(views(parts@) =~= before.push(c@));
        assert(string_views(v@).take(i + 1) =~= string_views(v@).take(i as int).push(string_views(v@)[i as int]));
        i = i + 1;
    }
    assert(string_views(v@).take(v@.len() as int) =~= string_views(v@));
    let sep_chars = chars_of(sep);
    string_of(&join_exec(&parts, &sep_chars))
}

/// `[String]::join`.
pub fn join_exec(parts: &Vec<Vec<char>>, sep: &Vec<char>) -> (out: Vec<char>)
    ensures
        out@ == join(views(parts@), sep@),
{
    let mut out: Vec<char> = Vec::new();
    let mut i: usize = 0;
    while i < parts.len()
        invariant
            i <= parts@.len(),
            out@ == join(views(parts@).take(i as int), sep@),
        decreases parts@.len() - i,
    {
        let ghost before = views(parts@).take(i as int);
        if i > 0 {
            append(&mut out, sep);
        }
        append(&mut out, &parts[i]);
        i = i + 1;
        proof {
            let now = views(parts@).take(i as int);
            assert(now.drop_last() =~= before);
            assert(now.last() == parts@[i - 1]@);
            if i == 1 {
                assert(out@ =~= join(now, sep@));
            }
        }
    }
    assert(views(parts@).take(parts@.len() as int) =~= views(parts@));
    out
}

/// Rounds `num / den` to the nearest integer, ties to even, as formatting a
/// float with a fixed precision does.
pub open spec fn round_half_even(num: nat, den: nat) -> nat {
    let q = num / den;
    let r = num % den;
    if 2 * r > den {
        q + 1
    } else if 2 * r < den {
        q
    } else if q % 2 == 0 {
        q
    } else {
        q + 1
    }
}

/// `t` tenths written with one decimal place.
pub open spec fn tenths_text(t: nat) -> Seq<char> {
    dec(t / 10) + "."@ + seq![digit_char(t % 10)]
}

/// A size in MiB as `format_mem_mb` writes it: `{:.1}T` from 1 TiB,
/// `{:.1}G` from 1 GiB, whole MiB below.
pub open spec fn mem_text(m: nat) -> Seq<char> {
    if m >= 1024 * 1024 {
        tenths_text(round_half_even(m * 10, 1024 * 1024)) + "T"@
    } else if m >= 1024 {
        tenths_text(round_half_even(m * 10, 1024)) + "G"@
    } else {
        dec(m) + "M"@
    }
}

pub fn round_half_even_exec(num: u128, den: u128) -> (r: u128)
    requires
        den > 0,
        num < u128::MAX / 2,
        den < u128::MAX / 4,
    ensures
        r as nat == round_half_even(num as nat, den as nat),
{
    let q = num / den;
    let rem = num % den;
    assert(q <= num) by (nonlinear_arith)
        requires
            den > 0,
            q == num / den,
    ;
    if 2 * rem > den {
        q + 1
    } else if 2 * rem < den {
        q
    } else if q % 2 == 0 {
        q
    } else {
        q + 1
    }
}

fn push_tenths(out: &mut Vec<char>, t: u64)
    ensures
        final(out)@ == old(out)@ + tenths_text(t as nat),
{
    push_dec(out, t / 10);
    out.push('.');
    let d = t % 10;
    let c = if d == 0 {
        '0'
    } else if d == 1 {
        '1'
    } else if d == 2 {
        '2'
    } else if d == 3 {
        '3'
    } else if d == 4 {
        '4'
    } else if d == 5 {
        '5'
    } else if d == 6 {
        '6'
    } else if d == 7 {
        '7'
    } else if d == 8 {
        '8'
    } else {
        '9'
    };
    out.push(c);
    proof {
        reveal_strlit(".");
    }
    assert(out@ =~= old(out)@ + tenths_text(t as nat));
}

/// Writes a size in MiB with a unit: `T` and `G` with one decimal place,
/// whole `M` below 1 GiB.
pub fn format_mem_mb(memory_mb: u64) -> (s: String)
    ensures
        s@ == mem_text(memory_mb as nat),
{
    let mut out: Vec<char> = Vec::new();
    let m = memory_mb as u128;
    if memory_mb >= 1024 * 1024 {
        let t = round_half_even_exec(m * 10, 1024 * 1024);
        assert(t <= u64::MAX) by (nonlinear_arith)
            requires
                t == round_half_even(m as nat * 10, 1024 * 1024),
                m <= u64::MAX,
        ;
        push_tenths(&mut out, t as u64);
        append_str(&mut out, "T");
    } else if memory_mb >= 1024 {
        let t = round_half_even_exec(m * 10, 1024);
        push_tenths(&mut out, t as u64);
        append_str(&mut out, "G");
    } else {
        push_dec(&mut out, memory_mb);
        append_str(&mut out, "M");
    }
    string_of(&out)
}


/// One row of `sacct` history.
#[derive(Debug, Clone)]
pub struct HistoryRecord {
    pub job_id: String,
    pub name: String,
    pub user: String,
    pub partition: Option<String>,
    pub state: String,
    pub exit_code: String,
    pub elapsed_raw: String,
    pub elapsed_secs: Option<u64>,
    pub start: Option<String>,
    pub end: Option<String>,
    pub alloc_tres: Option<String>,
    pub req_tres: Option<String>,
    pub alloc_cpus: Option<u32>,
    pub alloc_gpus: Option<u32>,
    pub alloc_mem_mb: Option<u64>,
    pub is_mine: bool,
}

pub struct HistoryView {
    pub job_id: Seq<char>,
    pub name: Seq<char>,
    pub user: Seq<char>,
    pub partition: Option<Seq<char>>,
    pub state: Seq<char>,
    pub exit_code: Seq<char>,
    pub elapsed_raw: Seq<char>,
    pub elapsed_secs: Option<u64>,
    pub start: Option<Seq<char>>,
    pub end: Option<Seq<char>>,
    pub alloc_tres: Option<Seq<char>>,
    pub req_tres: Option<Seq<char>>,
    pub alloc_cpus: Option<u32>,
    pub alloc_gpus: Option<u32>,
    pub alloc_mem_mb: Option<u64>,
    pub is_mine: bool,
}

impl View for HistoryRecord {
    type V = HistoryView;

    open spec fn view(&self) -> HistoryView {
        HistoryView {
            job_id: self.job_id@,
            name: self.name@,
            user: self.user@,
            partition: opt_view(self.partition),
            state: self.state@,
            exit_code: self.exit_code@,
            elapsed_raw: self.elapsed_raw@,
            elapsed_secs: self.elapsed_secs,
            start: opt_view(self.start),
            end: opt_view(self.end),
            alloc_tres: opt_view(self.alloc_tres),
            req_tres: opt_view(self.req_tres),
            alloc_cpus: self.alloc_cpus,
            alloc_gpus: self.alloc_gpus,
            alloc_mem_mb: self.alloc_mem_mb,
            is_mine: self.is_mine,
        }
    }
}

/// The pieces of a history row's resource summary, in order.
pub open spec fn history_resource_parts(h: HistoryView) -> Seq<Seq<char>> {
    let a = match h.alloc_cpus {
        Some(c) => seq!["cpu="@ + dec(c as nat)],
        None => Seq::empty(),
    };
    let b = match h.alloc_gpus {
        Some(g) => seq!["gpu="@ + dec(g as nat)],
        None => Seq::empty(),
    };
    let c = match h.alloc_mem_mb {
        Some(m) => seq!["mem="@ + mem_text(m as nat)],
        None => Seq::empty(),
    };
    a + b + c
}

/// `cpu=.. gpu=.. mem=..` for the allocations a row records, or `n/a`.
pub open spec fn history_resources_summary(h: HistoryView) -> Seq<char> {
    let parts = history_resource_parts(h);
    if parts.len() == 0 {
        "n/a"@
    } else {
        join(parts, " "@)
    }
}

impl HistoryRecord {
    pub fn resources_summary(&self) -> (s: String)
        ensures
            s@ == history_resources_summary(self@),
    {
        let mut parts: Vec<Vec<char>> = Vec::new();
        if let Some(cpus) = self.alloc_cpus {
            let mut p = chars_of("cpu=");
            push_dec(&mut p, cpus as u64);
            parts.push(p);
        }
        if let Some(gpus) = self.alloc_gpus {
            let mut p = chars_of("gpu=");
            push_dec(&mut p, gpus as u64);
            parts.push(p);
        }
        if let Some(memory_mb) = self.alloc_mem_mb {
            let mut p = chars_of("mem=");
            let m = format_mem_mb(memory_mb);
            append_str(&mut p, m.as_str());
            parts.push(p);
        }
        assert(views(parts@) =~= history_resource_parts(self@));
        if parts.len() == 0 {
            String::from_str("n/a")
        } else {
            let sep = chars_of(" ");
            let joined = join_exec(&parts, &sep);
            string_of(&joined)
        }
    }
}

/// The detail of one job, merged from `scontrol show job` and `sacct`.
#[derive(Debug, Clone)]
pub struct JobDetail {
    pub job_id: String,
    pub name: Option<String>,
    pub user: Option<String>,
    pub account: Option<String>,
    pub partition: Option<String>,
    pub state: Option<String>,
    pub reason: Option<String>,
    pub exit_code: Option<String>,
    pub nodes: Option<u32>,
    pub n_tasks: Option<u32>,
    pub cpus: Option<u32>,
    pub memory_mb: Option<u64>,
    pub requested_gpus: Option<u32>,
    pub gres: Option<String>,
    pub req_tres: Option<String>,
    pub alloc_tres: Option<String>,
    pub runtime_raw: Option<String>,
    pub time_limit_raw: Option<String>,
    pub submit_time: Option<String>,
    pub start_time: Option<String>,
    pub end_time: Option<String>,
    pub node_list: Option<String>,
    pub work_dir: Option<String>,
    pub command: Option<String>,
    pub stdout_path: Option<String>,
    pub stderr_path: Option<String>,
    pub source_notes: Vec<String>,
    pub active: bool,
    pub is_mine: bool,
}

pub struct JobDetailView {
    pub job_id: Seq<char>,
    pub name: Option<Seq<char>>,
    pub user: Option<Seq<char>>,
    pub account: Option<Seq<char>>,
    pub partition: Option<Seq<char>>,
    pub state: Option<Seq<char>>,
    pub reason: Option<Seq<char>>,
    pub exit_code: Option<Seq<char>>,
    pub nodes: Option<u32>,
    pub n_tasks: Option<u32>,
    pub cpus: Option<u32>,
    pub memory_mb: Option<u64>,
    pub requested_gpus: Option<u32>,
    pub gres: Option<Seq<char>>,
    pub req_tres: Option<Seq<char>>,
    pub alloc_tres: Option<Seq<char>>,
    pub runtime_raw: Option<Seq<char>>,
    pub time_limit_raw: Option<Seq<char>>,
    pub submit_time: Option<Seq<char>>,
    pub start_time: Option<Seq<char>>,
    pub end_time: Option<Seq<char>>,
    pub node_list: Option<Seq<char>>,
    pub work_dir: Option<Seq<char>>,
    pub command: Option<Seq<char>>,
    pub stdout_path: Option<Seq<char>>,
    pub stderr_path: Option<Seq<char>>,
    pub source_notes: Seq<Seq<char>>,
    pub active: bool,
    pub is_mine: bool,
}

impl View for JobDetail {
    type V = JobDetailView;

    open spec fn view(&self) -> JobDetailView {
        JobDetailView {
            job_id: self.job_id@,
            name: opt_view(self.name),
            user: opt_view(self.user),
            account: opt_view(self.account),
            partition: opt_view(self.partition),
            state: opt_view(self.state),
            reason: opt_view(self.reason),
            exit_code: opt_view(self.exit_code),
            nodes: self.nodes,
            n_tasks: self.n_tasks,
            cpus: self.cpus,
            memory_mb: self.memory_mb,
            requested_gpus: self.requested_gpus,
            gres: opt_view(self.gres),
            req_tres: opt_view(self.req_tres),
            alloc_tres: opt_view(self.alloc_tres),
            runtime_raw: opt_view(self.runtime_raw),
            time_limit_raw: opt_view(self.time_limit_raw),
            submit_time: opt_view(self.submit_time),
            start_time: opt_view(self.start_time),
            end_time: opt_view(self.end_time),
            node_list: opt_view(self.node_list),
            work_dir: opt_view(self.work_dir),
            command: opt_view(self.command),
            stdout_path: opt_view(self.stdout_path),
            stderr_path: opt_view(self.stderr_path),
            source_notes: string_views(self.source_notes@),
            active: self.active,
            is_mine: self.is_mine,
        }
    }
}

impl JobDetail {
    /// A copy of the detail.
    pub fn clone_detail(&self) -> (d: JobDetail)
        ensures
            d@ == self@,
    {
        let mut notes: Vec<String> = Vec::new();
        let mut i: usize = 0;
        while i < self.source_notes.len()
            invariant
                i <= self.source_notes@.len(),
                notes@.len() == i,
                forall|j: int| 0 <= j < i ==> (#[trigger] notes@[j])@ == self.source_notes@[j]@,
            decreases self.source_notes@.len() - i,
        {
            notes.push(clone_string(&self.source_notes[i]));
            i = i + 1;
        }
        assert(string_views(notes@) =~= string_views(self.source_notes@));
        JobDetail {
            job_id: clone_string(&self.job_id),
            name: clone_opt_string(&self.name),
            user: clone_opt_string(&self.user),
            account: clone_opt_string(&self.account),
            partition: clone_opt_string(&self.partition),
            state: clone_opt_string(&self.state),
            reason: clone_opt_string(&self.reason),
            exit_code: clone_opt_string(&self.exit_code),
            nodes: self.nodes,
            n_tasks: self.n_tasks,
            cpus: self.cpus,
            memory_mb: self.memory_mb,
            requested_gpus: self.requested_gpus,
            gres: clone_opt_string(&self.gres),
            req_tres: clone_opt_string(&self.req_tres),
            alloc_tres: clone_opt_string(&self.alloc_tres),
            runtime_raw: clone_opt_string(&self.runtime_raw),
            time_limit_raw: clone_opt_string(&self.time_limit_raw),
            submit_time: clone_opt_string(&self.submit_time),
            start_time: clone_opt_string(&self.start_time),
            end_time: clone_opt_string(&self.end_time),
            node_list: clone_opt_string(&self.node_list),
            work_dir: clone_opt_string(&self.work_dir),
            command: clone_opt_string(&self.command),
            stdout_path: clone_opt_string(&self.stdout_path),
            stderr_path: clone_opt_string(&self.stderr_path),
            source_notes: notes,
            active: self.active,
            is_mine: self.is_mine,
        }
    }
}

/// The detail of one node from `scontrol show node`.
#[derive(Debug, Clone)]
pub struct NodeDetail {
    pub node_name: String,
    pub partition: Option<String>,
    pub state: Option<String>,
    pub reason: Option<String>,
    pub cpu_alloc: Option<u32>,
    pub cpu_total: Option<u32>,
    pub mem_alloc_mb: Option<u64>,
    pub mem_total_mb: Option<u64>,
    pub gpu_alloc: Option<u32>,
    pub gpu_total: Option<u32>,
    pub gres: Option<String>,
    pub alloc_tres: Option<String>,
    pub cfg_tres: Option<String>,
    pub source_notes: Vec<String>,
}

pub struct NodeDetailView {
    pub node_name: Seq<char>,
    pub partition: Option<Seq<char>>,
    pub state: Option<Seq<char>>,
    pub reason: Option<Seq<char>>,
    pub cpu_alloc: Option<u32>,
    pub cpu_total: Option<u32>,
    pub mem_alloc_mb: Option<u64>,
    pub mem_total_mb: Option<u64>,
    pub gpu_alloc: Option<u32>,
    pub gpu_total: Option<u32>,
    pub gres: Option<Seq<char>>,
    pub alloc_tres: Option<Seq<char>>,
    pub cfg_tres: Option<Seq<char>>,
    pub source_notes: Seq<Seq<char>>,
}

impl View for NodeDetail {
    type V = NodeDetailView;

    open spec fn view(&self) -> NodeDetailView {
        NodeDetailView {
            node_name: self.node_name@,
            partition: opt_view(self.partition),
            state: opt_view(self.state),
            reason: opt_view(self.reason),
            cpu_alloc: self.cpu_alloc,
            cpu_total: self.cpu_total,
            mem_alloc_mb: self.mem_alloc_mb,
            mem_total_mb: self.mem_total_mb,
            gpu_alloc: self.gpu_alloc,
            gpu_total: self.gpu_total,
            gres: opt_view(self.gres),
            alloc_tres: opt_view(self.alloc_tres),
            cfg_tres: opt_view(self.cfg_tres),
            source_notes: string_views(self.source_notes@),
        }
    }
}

/// One partition block of `scontrol show partition`.
#[derive(Debug, Clone)]
pub struct PartitionSpec {
    pub name: String,
    pub state: String,
    pub total_nodes: Option<u32>,
    pub total_cpus: Option<u64>,
    pub total_mem_mb: Option<u64>,
    pub total_gpus: Option<u64>,
}

pub struct PartitionSpecView {
    pub name: Seq<char>,
    pub state: Seq<char>,
    pub total_nodes: Option<u32>,
    pub total_cpus: Option<u64>,
    pub total_mem_mb: Option<u64>,
    pub total_gpus: Option<u64>,
}

impl View for PartitionSpec {
    type V = PartitionSpecView;

    open spec fn view(&self) -> PartitionSpecView {
        PartitionSpecView {
            name: self.name@,
            state: self.state@,
            total_nodes: self.total_nodes,
            total_cpus: self.total_cpus,
            total_mem_mb: self.total_mem_mb,
            total_gpus: self.total_gpus,
        }
    }
}


/// Counts of running and pending work, in unbounded integers.
pub struct Usage {
    pub running_jobs: nat,
    pub pending_jobs: nat,
    pub running_nodes: nat,
    pub pending_nodes: nat,
    pub running_cpus: nat,
    pub pending_cpus: nat,
    pub running_gpus: nat,
    pub pending_gpus: nat,
}

pub open spec fn zero_usage() -> Usage {
    Usage {
        running_jobs: 0,
        pending_jobs: 0,
        running_nodes: 0,
        pending_nodes: 0,
        running_cpus: 0,
        pending_cpus: 0,
        running_gpus: 0,
        pending_gpus: 0,
    }
}

pub open spec fn opt_u32(o: Option<u32>) -> nat {
    match o {
        Some(v) => v as nat,
        None => 0,
    }
}

/// `u` after counting one job: a running job adds to the running counters,
/// a pending job to the pending ones.
pub open spec fn observe_job(u: Usage, j: JobView) -> Usage {
    Usage {
        running_jobs: if j.running { u.running_jobs + 1 } else { u.running_jobs },
        running_nodes: if j.running { u.running_nodes + j.nodes as nat } else { u.running_nodes },
        running_cpus: if j.running { u.running_cpus + opt_u32(j.cpus) } else { u.running_cpus },
        running_gpus: if j.running {
            u.running_gpus + opt_u32(j.requested_gpus)
        } else {
            u.running_gpus
        },
        pending_jobs: if j.pending { u.pending_jobs + 1 } else { u.pending_jobs },
        pending_nodes: if j.pending { u.pending_nodes + j.nodes as nat } else { u.pending_nodes },
        pending_cpus: if j.pending { u.pending_cpus + opt_u32(j.cpus) } else { u.pending_cpus },
        pending_gpus: if j.pending {
            u.pending_gpus + opt_u32(j.requested_gpus)
        } else {
            u.pending_gpus
        },
    }
}

/// The sum of two usages, counter by counter.
pub open spec fn add_usage(a: Usage, b: Usage) -> Usage {
    Usage {
        running_jobs: a.running_jobs + b.running_jobs,
        pending_jobs: a.pending_jobs + b.pending_jobs,
        running_nodes: a.running_nodes + b.running_nodes,
        pending_nodes: a.pending_nodes + b.pending_nodes,
        running_cpus: a.running_cpus + b.running_cpus,
        pending_cpus: a.pending_cpus + b.pending_cpus,
        running_gpus: a.running_gpus + b.running_gpus,
        pending_gpus: a.pending_gpus + b.pending_gpus,
    }
}

/// Whether every counter fits its field of `UsageStats`.
pub open spec fn usage_fits(u: Usage) -> bool {
    &&& u.running_jobs <= u32::MAX
    &&& u.pending_jobs <= u32::MAX
    &&& u.running_nodes <= u32::MAX
    &&& u.pending_nodes <= u32::MAX
    &&& u.running_cpus <= u64::MAX
    &&& u.pending_cpus <= u64::MAX
    &&& u.running_gpus <= u64::MAX
    &&& u.pending_gpus <= u64::MAX
}

/// Running and pending counters of one group of jobs.
#[derive(Debug, Clone, Copy)]
pub struct UsageStats {
    pub running_jobs: u32,
    pub pending_jobs: u32,
    pub running_nodes: u32,
    pub pending_nodes: u32,
    pub running_cpus: u64,
    pub pending_cpus: u64,
    pub running_gpus: u64,
    pub pending_gpus: u64,
}

impl View for UsageStats {
    type V = Usage;

    open spec fn view(&self) -> Usage {
        Usage {
            running_jobs: self.running_jobs as nat,
            pending_jobs: self.pending_jobs as nat,
            running_nodes: self.running_nodes as nat,
            pending_nodes: self.pending_nodes as nat,
            running_cpus: self.running_cpus as nat,
            pending_cpus: self.pending_cpus as nat,
            running_gpus: self.running_gpus as nat,
            pending_gpus: self.pending_gpus as nat,
        }
    }
}

impl Default for UsageStats {
    fn default() -> (s: Self)
        ensures
            s@ == zero_usage(),
    {
        UsageStats {
            running_jobs: 0,
            pending_jobs: 0,
            running_nodes: 0,
            pending_nodes: 0,
            running_cpus: 0,
            pending_cpus: 0,
            running_gpus: 0,
            pending_gpus: 0,
        }
    }
}

/// The quantity a view measures.
#[derive(Debug, Clone, Copy, PartialEq, Eq, Structural)]
pub enum MetricMode {
    Jobs,
    Nodes,
    Cpus,
    Gpus,
}

/// The running counter for `metric`.
pub open spec fn running_of(u: Usage, metric: MetricMode) -> nat {
    match metric {
        MetricMode::Jobs => u.running_jobs,
        MetricMode::Nodes => u.running_nodes,
        MetricMode::Cpus => u.running_cpus,
        MetricMode::Gpus => u.running_gpus,
    }
}

/// The pending counter for `metric`.
pub open spec fn pending_of(u: Usage, metric: MetricMode) -> nat {
    match metric {
        MetricMode::Jobs => u.pending_jobs,
        MetricMode::Nodes => u.pending_nodes,
        MetricMode::Cpus => u.pending_cpus,
        MetricMode::Gpus => u.pending_gpus,
    }
}

impl UsageStats {
    pub fn observe(&mut self, job: &JobRecord)
        requires
            usage_fits(observe_job(old(self)@, job@)),
        ensures
            final(self)@ == observe_job(old(self)@, job@),
    {
        if job.running {
            self.running_jobs += 1;
            self.running_nodes += job.nodes;
            self.running_cpus += match job.cpus {
                Some(c) => c as u64,
                None => 0,
            };
            self.running_gpus += match job.requested_gpus {
                Some(g) => g as u64,
                None => 0,
            };
        }
        if job.pending {
            self.pending_jobs += 1;
            self.pending_nodes += job.nodes;
            self.pending_cpus += match job.cpus {
                Some(c) => c as u64,
                None => 0,
            };
            self.pending_gpus += match job.requested_gpus {
                Some(g) => g as u64,
                None => 0,
            };
        }
    }

    pub fn running_total(&self, metric: MetricMode) -> (n: u64)
        ensures
            n == running_of(self@, metric),
    {
        match metric {
            MetricMode::Jobs => self.running_jobs as u64,
            MetricMode::Nodes => self.running_nodes as u64,
            MetricMode::Cpus => self.running_cpus,
            MetricMode::Gpus => self.running_gpus,
        }
    }

    pub fn pending_total(&self, metric: MetricMode) -> (n: u64)
        ensures
            n == pending_of(self@, metric),
    {
        match metric {
            MetricMode::Jobs => self.pending_jobs as u64,
            MetricMode::Nodes => self.pending_nodes as u64,
            MetricMode::Cpus => self.pending_cpus,
            MetricMode::Gpus => self.pending_gpus,
        }
    }

    pub fn active_total(&self, metric: MetricMode) -> (n: u64)
        requires
            running_of(self@, metric) + pending_of(self@, metric) <= u64::MAX,
        ensures
            n == running_of(self@, metric) + pending_of(self@, metric),
    {
        self.running_total(metric) + self.pending_total(metric)
    }
}

/// The metric after `m` in the cycle jobs, nodes, cpu, gpu.
pub open spec fn next_metric(m: MetricMode) -> MetricMode {
    match m {
        MetricMode::Jobs => MetricMode::Nodes,
        MetricMode::Nodes => MetricMode::Cpus,
        MetricMode::Cpus => MetricMode::Gpus,
        MetricMode::Gpus => MetricMode::Jobs,
    }
}

pub open spec fn metric_label(m: MetricMode) -> Seq<char> {
    match m {
        MetricMode::Jobs => "jobs"@,
        MetricMode::Nodes => "nodes"@,
        MetricMode::Cpus => "cpu"@,
        MetricMode::Gpus => "gpu"@,
    }
}

impl MetricMode {
    pub fn next(self) -> (r: Self)
        ensures
            r == next_metric(self),
    {
        match self {
            MetricMode::Jobs => MetricMode::Nodes,
            MetricMode::Nodes => MetricMode::Cpus,
            MetricMode::Cpus => MetricMode::Gpus,
            MetricMode::Gpus => MetricMode::Jobs,
        }
    }

    pub fn label(self) -> (s: &'static str)
        ensures
            s@ == metric_label(self),
    {
        match self {
            MetricMode::Jobs => "jobs",
            MetricMode::Nodes => "nodes",
            MetricMode::Cpus => "cpu",
            MetricMode::Gpus => "gpu",
        }
    }
}

/// Four steps of the metric cycle come back to the start.
pub proof fn lemma_metric_cycle(m: MetricMode)
    ensures
        next_metric(next_metric(next_metric(next_metric(m)))) == m,
{
}

/// A partition with its node states and the usage of the current user and
/// of everyone else.
#[derive(Debug)]
pub struct PartitionOverview {
    pub name: String,
    pub state: String,
    pub total_nodes: u32,
    pub total_cpus: Option<u64>,
    pub total_mem_mb: Option<u64>,
    pub total_gpus: Option<u64>,
    pub node_state_counts: StrMap<u32>,
    pub mine: UsageStats,
    pub others: UsageStats,
}

pub struct PartitionView {
    pub name: Seq<char>,
    pub state: Seq<char>,
    pub total_nodes: u32,
    pub total_cpus: Option<u64>,
    pub total_mem_mb: Option<u64>,
    pub total_gpus: Option<u64>,
    pub node_state_counts: Map<Seq<char>, u32>,
    pub mine: Usage,
    pub others: Usage,
}

impl View for PartitionOverview {
    type V = PartitionView;

    open spec fn view(&self) -> PartitionView {
        PartitionView {
            name: self.name@,
            state: self.state@,
            total_nodes: self.total_nodes,
            total_cpus: self.total_cpus,
            total_mem_mb: self.total_mem_mb,
            total_gpus: self.total_gpus,
            node_state_counts: self.node_state_counts@,
            mine: self.mine@,
            others: self.others@,
        }
    }
}

/// The count under `key`, zero when absent.
pub open spec fn count_or_zero(m: Map<Seq<char>, u32>, key: Seq<char>) -> nat {
    if m.dom().contains(key) {
        m[key] as nat
    } else {
        0
    }
}

/// The usage a partition's pressure counts: allocated plus mixed nodes for
/// the node metric, the running total of everyone otherwise.
pub open spec fn used_for_pressure_of(p: PartitionView, metric: MetricMode) -> nat {
    match metric {
        MetricMode::Nodes => count_or_zero(p.node_state_counts, "alloc"@) + count_or_zero(
            p.node_state_counts,
            "mix"@,
        ),
        _ => running_of(add_usage(p.mine, p.others), metric),
    }
}

/// The capacity pressure is measured against, when known and positive.
pub open spec fn capacity_of(p: PartitionView, metric: MetricMode) -> Option<nat> {
    match metric {
        MetricMode::Jobs => {
            let t = add_usage(p.mine, p.others);
            Some(if t.running_jobs + t.pending_jobs >= 1 { t.running_jobs + t.pending_jobs } else { 1 })
        },
        MetricMode::Nodes => Some(if p.total_nodes >= 1 { p.total_nodes as nat } else { 1 }),
        MetricMode::Cpus => match p.total_cpus {
            Some(v) => if v > 0 { Some(v as nat) } else { None },
            None => None,
        },
        MetricMode::Gpus => match p.total_gpus {
            Some(v) => if v > 0 { Some(v as nat) } else { None },
            None => None,
        },
    }
}

/// The node states the summary lists, in order.
pub open spec fn summary_states() -> Seq<Seq<char>> {
    seq!["idle"@, "mix"@, "alloc"@, "drain"@, "down"@]
}

/// `state:count` for each of `ks` that `m` holds, in order.
pub open spec fn state_parts(m: Map<Seq<char>, u32>, ks: Seq<Seq<char>>) -> Seq<Seq<char>>
    decreases ks.len(),
{
    if ks.len() == 0 {
        Seq::empty()
    } else {
        let r = state_parts(m, ks.drop_last());
        let k = ks.last();
        if m.dom().contains(k) {
            r.push(k + ":"@ + dec(m[k] as nat))
        } else {
            r
        }
    }
}

/// The states a partition counts besides the five usual ones, in name
/// order (`resv`, `maint` and the like).
pub open spec fn other_states(m: Map<Seq<char>, u32>) -> Seq<Seq<char>> {
    choose|s: Seq<Seq<char>>|
        sorted_keys(s) && forall|k: Seq<char>|
            #[trigger] s.contains(k) <==> (m.dom().contains(k) && !summary_states().contains(k))
}

/// The node states shown for a partition: idle, mix, alloc, drain and
/// down, then every other state it counts, in name order.
pub open spec fn state_order(m: Map<Seq<char>, u32>) -> Seq<Seq<char>> {
    summary_states() + other_states(m)
}

/// Whether `k` is one of the five usual node states.
pub fn is_summary_state(k: &Vec<char>) -> (b: bool)
    ensures
        b == summary_states().contains(k@),
{
    let ghost s = summary_states();
    proof {
        assert(s[0] == "idle"@ && s[1] == "mix"@ && s[2] == "alloc"@ && s[3] == "drain"@ && s[4] == "down"@);
    }
    let b = eq_str(k, "idle") || eq_str(k, "mix") || eq_str(k, "alloc") || eq_str(k, "drain")
        || eq_str(k, "down");
    proof {
        if b {
            if k@ == "idle"@ { assert(s.contains(s[0])); }
            if k@ == "mix"@ { assert(s.contains(s[1])); }
            if k@ == "alloc"@ { assert(s.contains(s[2])); }
            if k@ == "drain"@ { assert(s.contains(s[3])); }
            if k@ == "down"@ { assert(s.contains(s[4])); }
        } else if s.contains(k@) {
            let i = s.index_of(k@);
            assert(0 <= i < 5);
            assert(false);
        }
    }
    b
}

/// The node states to show for the counts `m`, in `state_order`.
pub fn listed_node_states(m: &StrMap<u32>) -> (r: Vec<String>)
    requires
        m.wf(),
    ensures
        string_views(r@) == state_order(m@),
{
    let mut others: Vec<String> = Vec::new();
    let ghost mut pos: Seq<int> = Seq::empty();
    let n = m.len();
    let mut i: usize = 0;
    proof {
        m.lemma_positions();
    }
    while i < n
        invariant
            m.wf(),
            n == m.keys().len(),
            i <= n,
            pos.len() == others@.len(),
            forall|x: int| 0 <= x < pos.len() ==> 0 <= #[trigger] pos[x] < i && m.keys()[pos[x]] == others@[x]@,
            forall|x: int, y: int| 0 <= x < y < pos.len() ==> pos[x] < pos[y],
            forall|x: int| 0 <= x < others@.len() ==> !summary_states().contains(#[trigger] others@[x]@),
            forall|j: int|
                0 <= j < i && !summary_states().contains(#[trigger] m.keys()[j]) ==> string_views(
                    others@,
                ).contains(m.keys()[j]),
        decreases n - i,
    {
        let k = m.key_at(i);
        let kc = chars_of(k.as_str());
        if !is_summary_state(&kc) {
            let ghost before = others@;
            others.push(k);
            proof {
                pos = pos.push(i as int);
                assert forall|j: int|
                    0 <= j < i + 1 && !summary_states().contains(#[trigger] m.keys()[j]) implies string_views(
                    others@,
                ).contains(m.keys()[j]) by {
                    if j < i {
                        let w = string_views(before).index_of(m.keys()[j]);
                        assert(string_views(others@)[w] == m.keys()[j]);
                    } else {
                        assert(string_views(others@)[others@.len() - 1] == m.keys()[j]);
                    }
                }
            }
        }
        i = i + 1;
    }
    let ghost o = string_views(others@);
    proof {
        assert(sorted_keys(o)) by {
            assert forall|x: int, y: int| 0 <= x < y < o.len() implies lex_lt(o[x], o[y]) by {
                assert(o[x] == m.keys()[pos[x]] && o[y] == m.keys()[pos[y]]);
            }
        }
        assert forall|k: Seq<char>| #[trigger] o.contains(k) <==> (m@.dom().contains(k) && !summary_states().contains(k)) by {
            if o.contains(k) {
                let x = o.index_of(k);
                assert(m.keys()[pos[x]] == k);
                assert(m.keys().contains(k));
            }
            if m@.dom().contains(k) && !summary_states().contains(k) {
                assert(m.keys().contains(k));
                let j = m.keys().index_of(k);
                assert(m.keys()[j] == k);
            }
        }
        let c = other_states(m@);
        assert(sorted_keys(c) && forall|k: Seq<char>|
            #[trigger] c.contains(k) <==> (m@.dom().contains(k) && !summary_states().contains(k)));
        lemma_sorted_keys_unique(o, c);
    }
    let mut r: Vec<String> = Vec::new();
    r.push(String::from_str("idle"));
    r.push(String::from_str("mix"));
    r.push(String::from_str("alloc"));
    r.push(String::from_str("drain"));
    r.push(String::from_str("down"));
    proof {
        assert(string_views(r@) =~= summary_states());
    }
    let ghost head = string_views(r@);
    r.append(&mut others);
    proof {
        assert(string_views(r@) =~= head + o);
    }
    r
}

/// `state:count` for each state the partition counts, in `state_order`,
/// or `n/a`.
pub open spec fn node_state_summary_of(m: Map<Seq<char>, u32>) -> Seq<char> {
    let parts = state_parts(m, state_order(m));
    if parts.len() == 0 {
        "n/a"@
    } else {
        join(parts, " "@)
    }
}

impl PartitionOverview {
    pub open spec fn wf(&self) -> bool {
        self.node_state_counts.wf()
    }

    pub fn total_usage(&self) -> (u: UsageStats)
        requires
            usage_fits(add_usage(self.mine@, self.others@)),
        ensures
            u@ == add_usage(self.mine@, self.others@),
    {
        UsageStats {
            running_jobs: self.mine.running_jobs + self.others.running_jobs,
            pending_jobs: self.mine.pending_jobs + self.others.pending_jobs,
            running_nodes: self.mine.running_nodes + self.others.running_nodes,
            pending_nodes: self.mine.pending_nodes + self.others.pending_nodes,
            running_cpus: self.mine.running_cpus + self.others.running_cpus,
            pending_cpus: self.mine.pending_cpus + self.others.pending_cpus,
            running_gpus: self.mine.running_gpus + self.others.running_gpus,
            pending_gpus: self.mine.pending_gpus + self.others.pending_gpus,
        }
    }

    pub fn used_for_pressure(&self, metric: MetricMode) -> (n: u64)
        requires
            self.wf(),
            usage_fits(add_usage(self.mine@, self.others@)),
        ensures
            n == used_for_pressure_of(self@, metric),
    {
        match metric {
            MetricMode::Nodes => {
                let alloc = match self.node_state_counts.get_str("alloc") {
                    Some(c) => *c as u64,
                    None => 0,
                };
                let mix = match self.node_state_counts.get_str("mix") {
                    Some(c) => *c as u64,
                    None => 0,
                };
                alloc + mix
            },
            _ => self.total_usage().running_total(metric),
        }
    }

    pub fn capacity_for(&self, metric: MetricMode) -> (c: Option<u64>)
        requires
            usage_fits(add_usage(self.mine@, self.others@)),
            metric == MetricMode::Jobs ==> add_usage(self.mine@, self.others@).running_jobs
                + add_usage(self.mine@, self.others@).pending_jobs <= u32::MAX,
        ensures
            match c {
                Some(v) => capacity_of(self@, metric) == Some(v as nat),
                None => capacity_of(self@, metric) is None,
            },
    {
        match metric {
            MetricMode::Jobs => {
                let total = self.total_usage();
                let n = total.running_jobs as u64 + total.pending_jobs as u64;
                Some(if n >= 1 { n } else { 1 })
            },
            MetricMode::Nodes => Some(if self.total_nodes >= 1 { self.total_nodes as u64 } else { 1 }),
            MetricMode::Cpus => match self.total_cpus {
                Some(v) => if v > 0 { Some(v) } else { None },
                None => None,
            },
            MetricMode::Gpus => match self.total_gpus {
                Some(v) => if v > 0 { Some(v) } else { None },
                None => None,
            },
        }
    }

    /// The pressure as a fraction: what is used over the capacity, when a
    /// capacity is known.
    pub fn pressure_fraction(&self, metric: MetricMode) -> (r: Option<(u64, u64)>)
        requires
            self.wf(),
            usage_fits(add_usage(self.mine@, self.others@)),
            metric == MetricMode::Jobs ==> add_usage(self.mine@, self.others@).running_jobs
                + add_usage(self.mine@, self.others@).pending_jobs <= u32::MAX,
        ensures
            match r {
                Some(f) => capacity_of(self@, metric) == Some(f.1 as nat) && f.0 as nat
                    == used_for_pressure_of(self@, metric),
                None => capacity_of(self@, metric) is None,
            },
    {
        match self.capacity_for(metric) {
            Some(c) => Some((self.used_for_pressure(metric), c)),
            None => None,
        }
    }

    pub fn node_state_summary(&self) -> (s: String)
        requires
            self.wf(),
        ensures
            s@ == node_state_summary_of(self@.node_state_counts),
    {
        let keys = listed_node_states(&self.node_state_counts);
        let mut parts: Vec<Vec<char>> = Vec::new();
        let ghost m = self@.node_state_counts;
        let ghost all = state_order(m);
        let mut i: usize = 0;
        while i < keys.len()
            invariant
                i <= keys@.len(),
                self.wf(),
                m == self@.node_state_counts,
                string_views(keys@) == all,
                views(parts@) == state_parts(m, all.take(i as int)),
            decreases keys@.len() - i,
        {
            let key = keys[i].as_str();
            assert(key@ == all[i as int]);
            match self.node_state_counts.get_str(key) {
                Some(count) => {
                    let mut p = chars_of(key);
                    append_str(&mut p, ":");
                    push_dec(&mut p, *count as u64);
                    parts.push(p);
                },
                None => {},
            }
            i = i + 1;
            proof {
                let now = all.take(i as int);
                assert(now.drop_last() =~= all.take(i - 1));
                assert(now.last() == key@);
                assert(views(parts@) =~= state_parts(m, now));
            }
        }
        proof {
            assert(all.take(keys@.len() as int) =~= all);
        }
        if parts.len() == 0 {
            String::from_str("n/a")
        } else {
            let sep = chars_of(" ");
            let joined = join_exec(&parts, &sep);
            string_of(&joined)
        }
    }
}

/// What a snapshot could report, given the fields the site exposes.
#[derive(Debug, Clone, Copy)]
pub struct Capabilities {
    pub account: bool,
    pub submit_time: bool,
    pub priority: bool,
    pub job_cpus: bool,
    pub job_gpus: bool,
    pub partition_cpu_totals: bool,
    pub partition_gpu_totals: bool,
    pub partition_static: bool,
    pub sacct_history: bool,
    pub job_detail: bool,
    pub req_tres: bool,
    pub alloc_tres: bool,
}

/// Which sources answered successfully.
#[derive(Debug, Clone, Copy)]
pub struct SourceHealth {
    pub nodes_ok: bool,
    pub jobs_ok: bool,
    pub partition_static_ok: bool,
}

/// One parsed sample of the cluster: what was collected and when (in
/// milliseconds since the Unix epoch), the notes on what went wrong, and
/// the nodes, partitions and jobs.
#[derive(Debug)]
pub struct ClusterSnapshot {
    pub collected_at_ms: i64,
    pub local_time: String,
    pub hostname: String,
    pub current_user: String,
    pub sample_duration_ms: u128,
    pub stale_partition_static: bool,
    pub degraded: bool,
    pub notes: Vec<String>,
    pub capabilities: Capabilities,
    pub source_health: SourceHealth,
    pub nodes: Vec<NodeRecord>,
    pub partitions: Vec<PartitionOverview>,
    pub jobs: Vec<JobRecord>,
}

} // verus!
