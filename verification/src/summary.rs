//! The summary panels beside the tables: the busiest partitions, a
//! partition's usage and node states, and a node's allocation.
use vstd::prelude::*;

use crate::detail::{count_or_na, mem_or_na, or_na};
use crate::listing::{partition_fits, NodeJobQuery};
use crate::model::types::{
    string_views, add_usage, capacity_of, clone_string, count_or_zero, format_mem_mb, pending_of, running_of, listed_node_states, state_order,
    used_for_pressure_of, JobRecord, MetricMode, NodeDetail, NodeDetailView, PartitionOverview,
};
use crate::listing::user_totals_fit;
use crate::model::users::{ranking_of, top_summary, UserUsage};
use crate::tables::{capacity_u64, selected_partitions};
use crate::text::{append, append_str, chars_of, dec, eq_str, owned, push_dec, string_of};
use crate::ui::{left_aligned, max_nat, pressure_bar_of, pressure_bar_text, stacked_widths, stacked_widths_of};

verus! {

/// A bar split between two shares, the empty rest, and the caption that
/// follows it.
#[derive(Debug, Clone)]
pub struct SplitBar {
    pub first: usize,
    pub second: usize,
    pub blank: usize,
    pub caption: String,
}

pub open spec fn split_caption(first_label: Seq<char>, first: nat, second_label: Seq<char>, second: nat) -> Seq<char> {
    "  "@ + first_label + ": "@ + dec(first) + "  "@ + second_label + ": "@ + dec(second)
}

pub open spec fn nat_capacity(c: Option<u64>) -> Option<nat> {
    match c {
        Some(v) => Some(v as nat),
        None => None,
    }
}

/// The bar of two shares against `capacity` (by default both together),
/// `width` cells wide, and its caption.
pub open spec fn split_bar_of(
    first: nat,
    second: nat,
    capacity: Option<nat>,
    width: nat,
    first_label: Seq<char>,
    second_label: Seq<char>,
) -> (nat, nat, nat, Seq<char>) {
    let w = stacked_widths_of(first, second, capacity, width);
    (w.0, w.1, w.2, split_caption(first_label, first, second_label, second))
}

pub open spec fn split_view(b: SplitBar) -> (nat, nat, nat, Seq<char>) {
    (b.first as nat, b.second as nat, b.blank as nat, b.caption@)
}

fn push_count(v: &mut Vec<char>, n: u64)
    ensures
        final(v)@ == old(v)@ + dec(n as nat),
{
    push_dec(v, n);
}

pub fn split_bar(
    first: u64,
    second: u64,
    capacity: Option<u64>,
    width: usize,
    first_label: &str,
    second_label: &str,
) -> (b: SplitBar)
    requires
        capacity is None ==> first + second <= u64::MAX,
    ensures
        split_view(b) == split_bar_of(
            first as nat,
            second as nat,
            nat_capacity(capacity),
            width as nat,
            first_label@,
            second_label@,
        ),
{
    let (f, s, blank) = stacked_widths(first, second, capacity, width);
    assert(nat_capacity(capacity) == match capacity {
        Some(c) => Some(c as nat),
        None => None::<nat>,
    });
    let mut c = chars_of("  ");
    append_str(&mut c, first_label);
    append_str(&mut c, ": ");
    push_count(&mut c, first);
    append_str(&mut c, "  ");
    append_str(&mut c, second_label);
    append_str(&mut c, ": ");
    push_count(&mut c, second);
    SplitBar { first: f, second: s, blank, caption: string_of(&c) }
}

/// A count, or "N/A" when unknown.
pub open spec fn total_or_na(o: Option<u64>) -> Seq<char> {
    match o {
        Some(n) => dec(n as nat),
        None => "N/A"@,
    }
}

fn total_na_text(o: Option<u64>) -> (s: String)
    ensures
        s@ == total_or_na(o),
{
    match o {
        Some(n) => {
            let mut v: Vec<char> = Vec::new();
            push_count(&mut v, n);
            string_of(&v)
        },
        None => owned("N/A"),
    }
}

fn mem_na_text(o: Option<u64>) -> (s: String)
    ensures
        s@ == mem_or_na(o),
{
    match o {
        Some(m) => format_mem_mb(m),
        None => owned("N/A"),
    }
}

/// The usage panel of a partition.
#[derive(Debug, Clone)]
pub struct PartitionUsage {
    pub heading: String,
    pub pressure: String,
    pub running_owners: SplitBar,
    pub pending_owners: SplitBar,
    pub running_pending: SplitBar,
    pub capacity: String,
}

pub struct PartitionUsageView {
    pub heading: Seq<char>,
    pub pressure: Seq<char>,
    pub running_owners: (nat, nat, nat, Seq<char>),
    pub pending_owners: (nat, nat, nat, Seq<char>),
    pub running_pending: (nat, nat, nat, Seq<char>),
    pub capacity: Seq<char>,
}

pub open spec fn usage_view(u: PartitionUsage) -> PartitionUsageView {
    PartitionUsageView {
        heading: u.heading@,
        pressure: u.pressure@,
        running_owners: split_view(u.running_owners),
        pending_owners: split_view(u.pending_owners),
        running_pending: split_view(u.running_pending),
        capacity: u.capacity@,
    }
}

/// A partition's usage: its state and size; its pressure over 26 cells;
/// the current user's and the others' shares of the running total against
/// the capacity, and of the pending total against that total plus one;
/// running against pending jobs; and CPUs and GPUs in use against the
/// totals, with the memory.
pub open spec fn partition_usage_of(p: PartitionOverview, metric: MetricMode) -> PartitionUsageView {
    let t = add_usage(p.mine@, p.others@);
    let pm = pending_of(p.mine@, metric);
    let po = pending_of(p.others@, metric);
    PartitionUsageView {
        heading: "State: "@ + p.state@ + "  Total nodes: "@ + dec(p.total_nodes as nat),
        pressure: pressure_bar_of(used_for_pressure_of(p@, metric), capacity_u64(capacity_of(p@, metric)), 26),
        running_owners: split_bar_of(
            running_of(p.mine@, metric),
            running_of(p.others@, metric),
            capacity_of(p@, metric),
            26,
            "Mine"@,
            "Others"@,
        ),
        pending_owners: split_bar_of(pm, po, Some(pm + po + 1), 26, "Mine"@, "Others"@),
        running_pending: split_bar_of(
            t.running_jobs,
            t.pending_jobs,
            Some(max_nat(t.running_jobs + t.pending_jobs, 1)),
            26,
            "Running"@,
            "Pending"@,
        ),
        capacity: "CPU in use: "@ + dec(t.running_cpus) + " / "@ + total_or_na(p.total_cpus) + "  GPU in use: "@
            + dec(t.running_gpus) + " / "@ + total_or_na(p.total_gpus) + "  Memory capacity: "@ + mem_or_na(
            p.total_mem_mb,
        ),
    }
}

/// The usage panel of a partition; its pending total must leave room for
/// one more.
pub fn partition_usage(p: &PartitionOverview, metric: MetricMode) -> (u: PartitionUsage)
    requires
        partition_fits(*p),
        pending_of(add_usage(p.mine@, p.others@), metric) < u64::MAX,
    ensures
        usage_view(u) == partition_usage_of(*p, metric),
{
    let t = p.total_usage();
    let mut heading = chars_of("State: ");
    append_str(&mut heading, p.state.as_str());
    append_str(&mut heading, "  Total nodes: ");
    push_count(&mut heading, p.total_nodes as u64);
    let used = p.used_for_pressure(metric);
    let capacity = p.capacity_for(metric);
    assert(capacity == capacity_u64(capacity_of(p@, metric)));
    assert(nat_capacity(capacity) == capacity_of(p@, metric));
    let pressure = pressure_bar_text(used, capacity, 26);
    let running_owners = split_bar(
        p.mine.running_total(metric),
        p.others.running_total(metric),
        capacity,
        26,
        "Mine",
        "Others",
    );
    let pm = p.mine.pending_total(metric);
    let po = p.others.pending_total(metric);
    let pending_owners = split_bar(pm, po, Some(pm + po + 1), 26, "Mine", "Others");
    let jobs = t.running_jobs as u64 + t.pending_jobs as u64;
    let running_pending = split_bar(
        t.running_jobs as u64,
        t.pending_jobs as u64,
        Some(if jobs >= 1 {
            jobs
        } else {
            1
        }),
        26,
        "Running",
        "Pending",
    );
    let mut cap = chars_of("CPU in use: ");
    push_count(&mut cap, t.running_cpus);
    append_str(&mut cap, " / ");
    append(&mut cap, &chars_of(total_na_text(p.total_cpus).as_str()));
    append_str(&mut cap, "  GPU in use: ");
    push_count(&mut cap, t.running_gpus);
    append_str(&mut cap, " / ");
    append(&mut cap, &chars_of(total_na_text(p.total_gpus).as_str()));
    append_str(&mut cap, "  Memory capacity: ");
    append(&mut cap, &chars_of(mem_na_text(p.total_mem_mb).as_str()));
    let u = PartitionUsage {
        heading: string_of(&heading),
        pressure,
        running_owners,
        pending_owners,
        running_pending,
        capacity: string_of(&cap),
    };
    assert(usage_view(u).heading =~= partition_usage_of(*p, metric).heading);
    assert(usage_view(u).capacity =~= partition_usage_of(*p, metric).capacity);
    u
}

/// How a node state is coloured.
#[derive(Debug, Clone, Copy, PartialEq, Eq, Structural)]
pub enum NodeStateTone {
    Idle,
    Busy,
    Draining,
    Down,
    Other,
}

/// Idle nodes, busy (mixed or allocated) ones, draining and down ones, and
/// any other state (reserved, in maintenance, ...).
pub open spec fn node_state_tone_of(key: Seq<char>) -> NodeStateTone {
    if key == "idle"@ {
        NodeStateTone::Idle
    } else if key == "mix"@ || key == "alloc"@ {
        NodeStateTone::Busy
    } else if key == "drain"@ {
        NodeStateTone::Draining
    } else if key == "down"@ {
        NodeStateTone::Down
    } else {
        NodeStateTone::Other
    }
}

pub fn node_state_tone(key: &str) -> (t: NodeStateTone)
    ensures
        t == node_state_tone_of(key@),
{
    let k = chars_of(key);
    if eq_str(&k, "idle") {
        NodeStateTone::Idle
    } else if eq_str(&k, "mix") || eq_str(&k, "alloc") {
        NodeStateTone::Busy
    } else if eq_str(&k, "drain") {
        NodeStateTone::Draining
    } else if eq_str(&k, "down") {
        NodeStateTone::Down
    } else {
        NodeStateTone::Other
    }
}

/// The line of one node state of a partition: its colour, the state
/// padded to five characters, then its share of the partition's nodes
/// over 12 cells and the count.
pub open spec fn node_state_line_of(p: PartitionOverview, key: Seq<char>) -> (NodeStateTone, Seq<char>, Seq<char>) {
    let count = count_or_zero(p.node_state_counts@, key);
    (
        node_state_tone_of(key),
        left_aligned(key, 5) + " "@,
        pressure_bar_of(count, Some(max_nat(p.total_nodes as nat, 1) as u64), 12) + "  Nodes: "@ + dec(count),
    )
}

/// The idle, mix, alloc, drain and down lines of a partition, then one for
/// each other state it counts, in name order.
pub open spec fn node_state_lines_of(p: PartitionOverview) -> Seq<(NodeStateTone, Seq<char>, Seq<char>)> {
    state_order(p.node_state_counts@).map_values(|k: Seq<char>| node_state_line_of(p, k))
}

pub open spec fn pair_views(v: Seq<(String, String)>) -> Seq<(Seq<char>, Seq<char>)> {
    v.map_values(|p: (String, String)| (p.0@, p.1@))
}

pub open spec fn toned_views(v: Seq<(NodeStateTone, String, String)>) -> Seq<(NodeStateTone, Seq<char>, Seq<char>)> {
    v.map_values(|p: (NodeStateTone, String, String)| (p.0, p.1@, p.2@))
}

fn node_state_line(p: &PartitionOverview, key: &str, tone: NodeStateTone) -> (r: (NodeStateTone, String, String))
    requires
        p.wf(),
        tone == node_state_tone_of(key@),
    ensures
        (r.0, r.1@, r.2@) == node_state_line_of(*p, key@),
{
    let count: u64 = match p.node_state_counts.get_str(key) {
        Some(c) => *c as u64,
        None => 0,
    };
    let mut head = chars_of(key);
    let len = head.len();
    if len < 5 {
        let mut k: usize = 0;
        while k < 5 - len
            invariant
                k <= 5 - len,
                len == key@.len(),
                head@ == key@ + crate::ui::repeat_char(' ', k as nat),
            decreases 5 - len - k,
        {
            head.push(' ');
            assert(crate::ui::repeat_char(' ', (k + 1) as nat) =~= crate::ui::repeat_char(' ', k as nat).push(' '));
            k = k + 1;
        }
    }
    assert(head@ =~= left_aligned(key@, 5));
    head.push(' ');
    proof {
        reveal_strlit(" ");
    }
    assert(head@ =~= left_aligned(key@, 5) + " "@);
    assert(count as nat == count_or_zero(p.node_state_counts@, key@));
    let total: u64 = if p.total_nodes >= 1 {
        p.total_nodes as u64
    } else {
        1
    };
    let mut rest = chars_of(pressure_bar_text(count, Some(total), 12).as_str());
    append_str(&mut rest, "  Nodes: ");
    push_count(&mut rest, count);
    assert(total as nat == max_nat(p.total_nodes as nat, 1));
    (tone, string_of(&head), string_of(&rest))
}

/// The lines of a partition's node states, each its colour, its state and
/// the rest.
pub fn node_state_lines(p: &PartitionOverview) -> (r: Vec<(NodeStateTone, String, String)>)
    requires
        p.wf(),
    ensures
        toned_views(r@) == node_state_lines_of(*p),
{
    let keys = listed_node_states(&p.node_state_counts);
    let ghost all = state_order(p.node_state_counts@);
    let mut r: Vec<(NodeStateTone, String, String)> = Vec::new();
    let mut i: usize = 0;
    while i < keys.len()
        invariant
            i <= keys@.len(),
            p.wf(),
            string_views(keys@) == all,
            all == state_order(p.node_state_counts@),
            toned_views(r@) == all.take(i as int).map_values(|k: Seq<char>| node_state_line_of(*p, k)),
        decreases keys@.len() - i,
    {
        let key = keys[i].as_str();
        assert(key@ == all[i as int]);
        let tone = node_state_tone(key);
        let line = node_state_line(p, key, tone);
        let ghost before = r@;
        r.push(line);
        assert(r@ == before.push(line));
        assert(toned_views(r@) =~= toned_views(before).push(node_state_line_of(*p, key@)));
        i = i + 1;
        assert(all.take(i as int) =~= all.take(i - 1).push(key@));
        assert(toned_views(r@) =~= all.take(i as int).map_values(|k: Seq<char>| node_state_line_of(*p, k)));
    }
    assert(all.take(keys@.len() as int) =~= all);
    assert(toned_views(r@) =~= node_state_lines_of(*p));
    r
}

/// A line of the busiest partitions: the name padded to ten characters,
/// then its pressure over ten cells, the current user's and the others'
/// running and pending jobs, and all its active jobs.
pub open spec fn hot_line_of(p: PartitionOverview, metric: MetricMode) -> (Seq<char>, Seq<char>) {
    let t = add_usage(p.mine@, p.others@);
    (
        left_aligned(p.name@, 10),
        "  Pressure "@ + pressure_bar_of(
            used_for_pressure_of(p@, metric),
            capacity_u64(capacity_of(p@, metric)),
            10,
        ) + "  Running: Mine "@ + dec(p.mine@.running_jobs) + " / Others "@ + dec(p.others@.running_jobs)
            + "  Pending: Mine "@ + dec(p.mine@.pending_jobs) + " / Others "@ + dec(p.others@.pending_jobs)
            + "  Total active jobs: "@ + dec(t.running_jobs + t.pending_jobs),
    )
}

/// The first three partitions shown, or a note that none matches.
pub open spec fn hot_lines_of(parts: Seq<PartitionOverview>, shown: Seq<usize>, metric: MetricMode) -> Seq<
    (Seq<char>, Seq<char>),
> {
    let ps = selected_partitions(parts, shown);
    if ps.len() == 0 {
        seq![(Seq::empty(), "No partitions match the current filters"@)]
    } else {
        ps.take(if ps.len() < 3 { ps.len() as int } else { 3 }).map_values(
            |p: PartitionOverview| hot_line_of(p, metric),
        )
    }
}

fn hot_line(p: &PartitionOverview, metric: MetricMode) -> (r: (String, String))
    requires
        partition_fits(*p),
    ensures
        (r.0@, r.1@) == hot_line_of(*p, metric),
{
    let t = p.total_usage();
    let mut name = chars_of(p.name.as_str());
    let len = name.len();
    if len < 10 {
        let mut k: usize = 0;
        while k < 10 - len
            invariant
                k <= 10 - len,
                len == p.name@.len(),
                name@ == p.name@ + crate::ui::repeat_char(' ', k as nat),
            decreases 10 - len - k,
        {
            name.push(' ');
            assert(crate::ui::repeat_char(' ', (k + 1) as nat) =~= crate::ui::repeat_char(' ', k as nat).push(' '));
            k = k + 1;
        }
    }
    assert(name@ =~= left_aligned(p.name@, 10));
    let used = p.used_for_pressure(metric);
    let capacity = p.capacity_for(metric);
    assert(capacity == capacity_u64(capacity_of(p@, metric)));
    let mut rest = chars_of("  Pressure ");
    append_str(&mut rest, pressure_bar_text(used, capacity, 10).as_str());
    append_str(&mut rest, "  Running: Mine ");
    push_count(&mut rest, p.mine.running_jobs as u64);
    append_str(&mut rest, " / Others ");
    push_count(&mut rest, p.others.running_jobs as u64);
    append_str(&mut rest, "  Pending: Mine ");
    push_count(&mut rest, p.mine.pending_jobs as u64);
    append_str(&mut rest, " / Others ");
    push_count(&mut rest, p.others.pending_jobs as u64);
    append_str(&mut rest, "  Total active jobs: ");
    push_count(&mut rest, t.running_jobs as u64 + t.pending_jobs as u64);
    (string_of(&name), string_of(&rest))
}

/// The lines of the busiest partitions among those at `shown`: each its
/// name and the rest.
pub fn hot_partition_lines(parts: &Vec<PartitionOverview>, shown: &Vec<usize>, metric: MetricMode) -> (r: Vec<
    (String, String),
>)
    requires
        forall|i: int| 0 <= i < shown@.len() ==> (#[trigger] shown@[i]) < parts@.len(),
        forall|k: int| 0 <= k < parts@.len() ==> partition_fits(#[trigger] parts@[k]),
    ensures
        pair_views(r@) == hot_lines_of(parts@, shown@, metric),
{
    let ghost ps = selected_partitions(parts@, shown@);
    let mut r: Vec<(String, String)> = Vec::new();
    if shown.len() == 0 {
        r.push((String::new(), owned("No partitions match the current filters")));
        assert(pair_views(r@) =~= hot_lines_of(parts@, shown@, metric));
        return r;
    }
    let n = if shown.len() < 3 {
        shown.len()
    } else {
        3
    };
    let mut i: usize = 0;
    while i < n
        invariant
            i <= n <= shown@.len(),
            n == if shown@.len() < 3 { shown@.len() } else { 3 },
            ps == selected_partitions(parts@, shown@),
            forall|i: int| 0 <= i < shown@.len() ==> (#[trigger] shown@[i]) < parts@.len(),
            forall|k: int| 0 <= k < parts@.len() ==> partition_fits(#[trigger] parts@[k]),
            pair_views(r@) == ps.take(i as int).map_values(|p: PartitionOverview| hot_line_of(p, metric)),
        decreases n - i,
    {
        let p = &parts[shown[i]];
        assert(partition_fits(parts@[shown@[i as int] as int]));
        let line = hot_line(p, metric);
        let ghost before = pair_views(r@);
        r.push(line);
        assert(pair_views(r@) =~= before.push((line.0@, line.1@)));
        assert(ps.take(i + 1).map_values(|p: PartitionOverview| hot_line_of(p, metric)) =~= ps.take(
            i as int,
        ).map_values(|p: PartitionOverview| hot_line_of(p, metric)).push(hot_line_of(ps[i as int], metric)));
        i = i + 1;
    }
    r
}

/// How many jobs are active, and how many of those are the current
/// user's.
pub open spec fn active_counts_of(jobs: Seq<JobRecord>) -> (nat, nat)
    decreases jobs.len(),
{
    if jobs.len() == 0 {
        (0, 0)
    } else {
        let c = active_counts_of(jobs.drop_last());
        let j = jobs.last();
        (
            c.0 + if j.is_mine && j.active { 1nat } else { 0nat },
            c.1 + if j.active { 1nat } else { 0nat },
        )
    }
}

proof fn lemma_active_counts_bounded(jobs: Seq<JobRecord>)
    ensures
        active_counts_of(jobs).0 <= active_counts_of(jobs).1 <= jobs.len(),
    decreases jobs.len(),
{
    if jobs.len() > 0 {
        lemma_active_counts_bounded(jobs.drop_last());
    }
}

/// The current user's active jobs and all active jobs.
pub fn active_counts(jobs: &Vec<JobRecord>) -> (r: (usize, usize))
    ensures
        (r.0 as nat, r.1 as nat) == active_counts_of(jobs@),
{
    let mut mine: usize = 0;
    let mut active: usize = 0;
    let mut i: usize = 0;
    while i < jobs.len()
        invariant
            i <= jobs@.len(),
            (mine as nat, active as nat) == active_counts_of(jobs@.take(i as int)),
        decreases jobs@.len() - i,
    {
        proof {
            lemma_active_counts_bounded(jobs@.take(i as int));
        }
        assert(jobs@.take(i + 1).drop_last() =~= jobs@.take(i as int));
        if jobs[i].active {
            active = active + 1;
            if jobs[i].is_mine {
                mine = mine + 1;
            }
        }
        i = i + 1;
    }
    assert(jobs@.take(jobs@.len() as int) =~= jobs@);
    (mine, active)
}

/// A text, or `fallback` when it is missing.
pub open spec fn or_else(o: Option<Seq<char>>, fallback: Seq<char>) -> Seq<char> {
    match o {
        Some(s) => s,
        None => fallback,
    }
}

pub open spec fn opt_detail(d: Option<NodeDetail>) -> Option<NodeDetailView> {
    match d {
        Some(x) => Some(x@),
        None => None,
    }
}

/// The node summary: while loading, a note; otherwise the node and its
/// partition and state, its CPU, GPU and memory allocation, the reason
/// it reports, and when it was loaded with how many of its jobs are
/// shown. What the detail lacks is "N/A".
pub open spec fn node_summary_of(
    name: Seq<char>,
    partition: Seq<char>,
    loading: bool,
    detail: Option<NodeDetailView>,
    loaded_at: Option<Seq<char>>,
    visible: nat,
) -> Seq<Seq<char>> {
    if loading {
        seq!["Loading node data for "@ + name + "..."@]
    } else {
        let (part, state, reason, ca, ct, ga, gt, ma, mt) = match detail {
            Some(d) => (
                or_else(d.partition, partition),
                or_na(d.state),
                or_else(d.reason, "No node-level reason reported"@),
                count_or_na(d.cpu_alloc),
                count_or_na(d.cpu_total),
                count_or_na(d.gpu_alloc),
                count_or_na(d.gpu_total),
                mem_or_na(d.mem_alloc_mb),
                mem_or_na(d.mem_total_mb),
            ),
            None => (
                partition,
                "N/A"@,
                "No node-level reason reported"@,
                "N/A"@,
                "N/A"@,
                "N/A"@,
                "N/A"@,
                "N/A"@,
                "N/A"@,
            ),
        };
        seq![
            name + " Partition: "@ + part + "  State: "@ + state,
            "CPU allocation: "@ + ca + " / "@ + ct + "  GPU allocation: "@ + ga + " / "@ + gt
                + "  Memory allocation: "@ + ma + " / "@ + mt,
            "Node reason: "@ + reason,
            "Loaded at: "@ + or_else(loaded_at, "pending"@) + "  Node jobs visible after filters: "@ + dec(visible),
        ]
    }
}

fn count_na_string(o: Option<u32>) -> (s: String)
    ensures
        s@ == count_or_na(o),
{
    match o {
        Some(n) => {
            let mut v: Vec<char> = Vec::new();
            push_count(&mut v, n as u64);
            string_of(&v)
        },
        None => owned("N/A"),
    }
}

fn or_else_string(o: &Option<String>, fallback: &str) -> (s: String)
    ensures
        s@ == or_else(crate::model::types::opt_view(*o), fallback@),
{
    match o {
        Some(x) => clone_string(x),
        None => owned(fallback),
    }
}

/// The lines of the node summary.
pub fn node_summary_lines(
    name: &str,
    partition: &str,
    loading: bool,
    detail: &Option<NodeDetail>,
    loaded_at: &Option<String>,
    visible: usize,
) -> (r: Vec<String>)
    ensures
        string_views(r@) == node_summary_of(
            name@,
            partition@,
            loading,
            opt_detail(*detail),
            crate::model::types::opt_view(*loaded_at),
            visible as nat,
        ),
{
    if loading {
        let mut l = chars_of("Loading node data for ");
        append_str(&mut l, name);
        append_str(&mut l, "...");
        let r = vec![string_of(&l)];
        assert(string_views(r@) =~= node_summary_of(
            name@,
            partition@,
            loading,
            opt_detail(*detail),
            crate::model::types::opt_view(*loaded_at),
            visible as nat,
        ));
        return r;
    }
    let (part, state, reason, ca, ct, ga, gt, ma, mt) = match detail {
        Some(d) => (
            or_else_string(&d.partition, partition),
            or_else_string(&d.state, "N/A"),
            or_else_string(&d.reason, "No node-level reason reported"),
            count_na_string(d.cpu_alloc),
            count_na_string(d.cpu_total),
            count_na_string(d.gpu_alloc),
            count_na_string(d.gpu_total),
            mem_na_text(d.mem_alloc_mb),
            mem_na_text(d.mem_total_mb),
        ),
        None => (
            owned(partition),
            owned("N/A"),
            owned("No node-level reason reported"),
            owned("N/A"),
            owned("N/A"),
            owned("N/A"),
            owned("N/A"),
            owned("N/A"),
            owned("N/A"),
        ),
    };
    let mut l1 = chars_of(name);
    append_str(&mut l1, " Partition: ");
    append_str(&mut l1, part.as_str());
    append_str(&mut l1, "  State: ");
    append_str(&mut l1, state.as_str());
    let mut l2 = chars_of("CPU allocation: ");
    append_str(&mut l2, ca.as_str());
    append_str(&mut l2, " / ");
    append_str(&mut l2, ct.as_str());
    append_str(&mut l2, "  GPU allocation: ");
    append_str(&mut l2, ga.as_str());
    append_str(&mut l2, " / ");
    append_str(&mut l2, gt.as_str());
    append_str(&mut l2, "  Memory allocation: ");
    append_str(&mut l2, ma.as_str());
    append_str(&mut l2, " / ");
    append_str(&mut l2, mt.as_str());
    let mut l3 = chars_of("Node reason: ");
    append_str(&mut l3, reason.as_str());
    let mut l4 = chars_of("Loaded at: ");
    let at = or_else_string(loaded_at, "pending");
    append_str(&mut l4, at.as_str());
    append_str(&mut l4, "  Node jobs visible after filters: ");
    push_count(&mut l4, visible as u64);
    let r = vec![string_of(&l1), string_of(&l2), string_of(&l3), string_of(&l4)];
    assert(string_views(r@) =~= node_summary_of(
        name@,
        partition@,
        loading,
        opt_detail(*detail),
        crate::model::types::opt_view(*loaded_at),
        visible as nat,
    ));
    r
}

/// The node page's filters in force: user and state, then placement and
/// reason texts, each saying when it keeps everything.
pub open spec fn node_filter_lines_of(user: Seq<char>, state: Seq<char>, where_filter: Seq<char>, why_filter: Seq<char>) -> Seq<
    Seq<char>,
> {
    seq![
        "User filter: "@ + user + "  State filter: "@ + state,
        "Where filter: "@ + (if where_filter.len() == 0 { "All placements"@ } else { where_filter })
            + "  Why filter: "@ + (if why_filter.len() == 0 { "All reasons"@ } else { why_filter }),
    ]
}

pub fn node_filter_lines(q: &NodeJobQuery) -> (r: Vec<String>)
    ensures
        string_views(r@) == node_filter_lines_of(q.user_filter@, q.state_filter@, q.where_filter@, q.why_filter@),
{
    let mut l1 = chars_of("User filter: ");
    append_str(&mut l1, q.user_filter.as_str());
    append_str(&mut l1, "  State filter: ");
    append_str(&mut l1, q.state_filter.as_str());
    let mut l2 = chars_of("Where filter: ");
    let w = chars_of(q.where_filter.as_str());
    if w.len() == 0 {
        append_str(&mut l2, "All placements");
    } else {
        append(&mut l2, &w);
    }
    append_str(&mut l2, "  Why filter: ");
    let y = chars_of(q.why_filter.as_str());
    if y.len() == 0 {
        append_str(&mut l2, "All reasons");
    } else {
        append(&mut l2, &y);
    }
    let r = vec![string_of(&l1), string_of(&l2)];
    assert(string_views(r@) =~= node_filter_lines_of(
        q.user_filter@,
        q.state_filter@,
        q.where_filter@,
        q.why_filter@,
    ));
    r
}

/// The panel of the selected user: the name, its running and pending
/// jobs and CPU and GPU totals, then its four busiest partitions; or a
/// note that no user is selected. Each line is the part drawn in the
/// user's colour and the rest.
pub open spec fn selected_user_lines_of(users: Seq<UserUsage>, shown: Seq<usize>, selected: usize) -> Seq<
    (Seq<char>, Seq<char>),
> {
    if selected < shown.len() && shown[selected as int] < users.len() {
        let u = users[shown[selected as int] as int];
        let j = u.jobs@;
        seq![
            (
                "Selected user: "@ + u.user@,
                "  Running: "@ + dec(j.running_jobs) + "  Pending: "@ + dec(j.pending_jobs) + "  CPUs: "@ + dec(
                    j.running_cpus + j.pending_cpus,
                ) + "  GPUs: "@ + dec(j.running_gpus + j.pending_gpus),
            ),
            ("Main partitions: "@ + top_summary(ranking_of(u@.partitions), 4), Seq::empty()),
        ]
    } else {
        seq![(Seq::empty(), "No active user matches the current filters"@)]
    }
}

pub fn selected_user_lines(users: &Vec<UserUsage>, shown: &Vec<usize>, selected: usize) -> (r: Vec<(String, String)>)
    requires
        forall|k: int| 0 <= k < users@.len() ==> (#[trigger] users@[k]).wf() && user_totals_fit(users@[k]@),
    ensures
        pair_views(r@) == selected_user_lines_of(users@, shown@, selected),
{
    if selected < shown.len() && shown[selected] < users.len() {
        let u = &users[shown[selected]];
        assert(users@[shown@[selected as int] as int].wf() && user_totals_fit(users@[shown@[selected as int] as int]@));
        let mut head = chars_of("Selected user: ");
        append_str(&mut head, u.user.as_str());
        let mut rest = chars_of("  Running: ");
        push_count(&mut rest, u.jobs.running_jobs as u64);
        append_str(&mut rest, "  Pending: ");
        push_count(&mut rest, u.jobs.pending_jobs as u64);
        append_str(&mut rest, "  CPUs: ");
        push_count(&mut rest, u.total_cpus());
        append_str(&mut rest, "  GPUs: ");
        push_count(&mut rest, u.total_gpus());
        let mut main = chars_of("Main partitions: ");
        append_str(&mut main, u.top_partitions_summary(4).as_str());
        let r = vec![(string_of(&head), string_of(&rest)), (string_of(&main), String::new())];
        assert(pair_views(r@) =~= selected_user_lines_of(users@, shown@, selected));
        r
    } else {
        let r = vec![(String::new(), owned("No active user matches the current filters"))];
        assert(pair_views(r@) =~= selected_user_lines_of(users@, shown@, selected));
        r
    }
}

/// The note under the header: the last status message, else the
/// sample's warnings joined by bars, "No active warnings" when it has
/// none, or that the first sample is still being collected.
pub open spec fn status_note_of(message: Option<Seq<char>>, notes: Option<Seq<Seq<char>>>) -> Seq<char> {
    match message {
        Some(m) => m,
        None => match notes {
            Some(n) => if n.len() == 0 {
                "No active warnings"@
            } else {
                "Warnings: "@ + crate::model::types::join(n, " | "@)
            },
            None => "Collecting scheduler data"@,
        },
    }
}

pub fn status_note(message: &Option<String>, snapshot: &Option<crate::model::types::ClusterSnapshot>) -> (s: String)
    ensures
        s@ == status_note_of(
            crate::model::types::opt_view(*message),
            match snapshot {
                Some(x) => Some(string_views(x.notes@)),
                None => None,
            },
        ),
{
    match message {
        Some(m) => clone_string(m),
        None => match snapshot {
            Some(x) => if x.notes.len() == 0 {
                owned("No active warnings")
            } else {
                let mut v = chars_of("Warnings: ");
                append_str(&mut v, crate::model::types::join_strings(&x.notes, " | ").as_str());
                string_of(&v)
            },
            None => owned("Collecting scheduler data"),
        },
    }
}

/// "column n (← →)": the first column shown, counted from one.
pub open spec fn column_note(offset: nat) -> Seq<char> {
    "Horizontal view: column "@ + dec(offset + 1) + " (← →)"@
}

fn push_column_note(v: &mut Vec<char>, offset: usize)
    ensures
        final(v)@ == old(v)@ + column_note(offset as nat),
{
    append_str(v, "Horizontal view: column ");
    crate::text::push_dec_wide(v, offset as u128 + 1);
    append_str(v, " (← →)");
    assert(final(v)@ =~= old(v)@ + column_note(offset as nat));
}

/// The queue pages' header: after the title, how many jobs are shown and
/// under which filter; then the metric in capitals, the sort, the current
/// user and the first column shown.
pub open spec fn queue_header_of(
    visible: nat,
    filter: Seq<char>,
    metric: MetricMode,
    sort: Seq<char>,
    user: Seq<char>,
    offset: nat,
) -> (Seq<char>, Seq<char>) {
    (
        "  Visible jobs: "@ + dec(visible) + "  State filter: "@ + filter,
        "Metric: "@ + crate::text::ascii_upper(crate::model::types::metric_label(metric)) + "  Sort: "@ + sort
            + "  Current user: "@ + user + "  "@ + column_note(offset),
    )
}

pub fn queue_header(
    visible: usize,
    filter: &str,
    metric: MetricMode,
    sort: &str,
    user: &str,
    offset: usize,
) -> (r: (String, String))
    ensures
        (r.0@, r.1@) == queue_header_of(visible as nat, filter@, metric, sort@, user@, offset as nat),
{
    let mut a = chars_of("  Visible jobs: ");
    push_count(&mut a, visible as u64);
    append_str(&mut a, "  State filter: ");
    append_str(&mut a, filter);
    let mut b = chars_of("Metric: ");
    let upper = crate::text::ascii_upper_exec(&chars_of(metric.label()));
    append(&mut b, &upper);
    append_str(&mut b, "  Sort: ");
    append_str(&mut b, sort);
    append_str(&mut b, "  Current user: ");
    append_str(&mut b, user);
    append_str(&mut b, "  ");
    push_column_note(&mut b, offset);
    (string_of(&a), string_of(&b))
}

/// The users page's header: after the title, how many users are shown
/// and under which filter; then the sort, the search (or "All users") and
/// the first column shown.
pub open spec fn users_header_of(visible: nat, filter: Seq<char>, sort: Seq<char>, query: Seq<char>, offset: nat) -> (
    Seq<char>,
    Seq<char>,
) {
    (
        "  Visible users: "@ + dec(visible) + "  Filter: "@ + filter,
        "Sort: "@ + sort + "  Search query: "@ + (if query.len() == 0 { "All users"@ } else { query }) + "  "@
            + column_note(offset),
    )
}

pub fn users_header(visible: usize, filter: &str, sort: &str, query: &str, offset: usize) -> (r: (String, String))
    ensures
        (r.0@, r.1@) == users_header_of(visible as nat, filter@, sort@, query@, offset as nat),
{
    let mut a = chars_of("  Visible users: ");
    push_count(&mut a, visible as u64);
    append_str(&mut a, "  Filter: ");
    append_str(&mut a, filter);
    let mut b = chars_of("Sort: ");
    append_str(&mut b, sort);
    append_str(&mut b, "  Search query: ");
    let q = chars_of(query);
    if q.len() == 0 {
        append_str(&mut b, "All users");
    } else {
        append(&mut b, &q);
    }
    append_str(&mut b, "  ");
    push_column_note(&mut b, offset);
    (string_of(&a), string_of(&b))
}

} // verus!
