//! Aggregation of nodes, jobs and partition data into per-partition and
//! per-user summaries.
use vstd::prelude::*;

use crate::model::parse::mget;
use crate::model::types::{
    add_usage, count_or_zero, observe_job, usage_fits, zero_usage, JobRecord, JobView,
    NodeRecord, NodeView, PartitionOverview, PartitionSpec, PartitionSpecView, PartitionView,
    Usage, UsageStats,
};
use crate::collector::command::{clone_strings, usable, CaptureView, CommandCapture, CommandStatus};
use crate::collector::RawSnapshot;
use crate::model::parse::{
    jobs_fit, nodes_fit, parse_jobs, parse_jobs_of, parse_nodes, parse_nodes_of,
    parse_partition_specs, parse_partition_specs_of,
};
use crate::model::types::{
    clone_string, job_views, node_views, partition_spec_views, primary_partition_of, string_views,
    Capabilities, ClusterSnapshot, SourceHealth,
};
use crate::model::limits::{jobs_fit_exec, nodes_fit_exec};
use crate::text::{trim, trim_exec};
use crate::model::users::{UserUsage, UserView};
use crate::strmap::{sorted_keys, StrMap};
use crate::text::{chars_of, eq_chars, string_of};

verus! {

/// A partition with no usage and no node states yet.
pub open spec fn fresh_partition(
    name: Seq<char>,
    state: Seq<char>,
    total_nodes: u32,
    total_cpus: Option<u64>,
    total_mem_mb: Option<u64>,
    total_gpus: Option<u64>,
) -> PartitionView {
    PartitionView {
        name: name,
        state: state,
        total_nodes: total_nodes,
        total_cpus: total_cpus,
        total_mem_mb: total_mem_mb,
        total_gpus: total_gpus,
        node_state_counts: Map::empty(),
        mine: zero_usage(),
        others: zero_usage(),
    }
}

/// The partition a node or job names that no spec has described.
pub open spec fn unknown_partition(name: Seq<char>) -> PartitionView {
    fresh_partition(name, "UNKNOWN"@, 0, None, None, None)
}

pub open spec fn partition_from_spec(s: PartitionSpecView) -> PartitionView {
    fresh_partition(
        s.name,
        s.state,
        match s.total_nodes {
            Some(n) => n,
            None => 0,
        },
        s.total_cpus,
        s.total_mem_mb,
        s.total_gpus,
    )
}

/// The partitions described by the specs; a later spec replaces an earlier
/// one of the same name.
pub open spec fn specs_map(specs: Seq<PartitionSpecView>) -> Map<Seq<char>, PartitionView>
    decreases specs.len(),
{
    if specs.len() == 0 {
        Map::empty()
    } else {
        specs_map(specs.drop_last()).insert(
            specs.last().name,
            partition_from_spec(specs.last()),
        )
    }
}

pub open spec fn named_by_spec(specs: Seq<PartitionSpecView>, name: Seq<char>) -> bool {
    exists|i: int| 0 <= i < specs.len() && specs[i].name == name
}

/// The entry for `name`, or a new unknown partition.
pub open spec fn entry_or_unknown(
    m: Map<Seq<char>, PartitionView>,
    name: Seq<char>,
) -> PartitionView {
    match mget(m, name) {
        Some(e) => e,
        None => unknown_partition(name),
    }
}

pub open spec fn opt_u32_or_zero(o: Option<u32>) -> nat {
    match o {
        Some(v) => v as nat,
        None => 0,
    }
}

pub open spec fn opt_u64_or_zero(o: Option<u64>) -> nat {
    match o {
        Some(v) => v as nat,
        None => 0,
    }
}

/// A partition after one of its nodes: the node's state is counted; when
/// no spec described the partition, the node's node, CPU, memory and GPU
/// totals are added; an `UNKNOWN` state becomes `UP`. The flag tells
/// whether every counter stayed within its integer type.
pub open spec fn count_node(e: PartitionView, n: NodeView, infer: bool) -> (PartitionView, bool) {
    let count = count_or_zero(e.node_state_counts, n.state) + 1;
    let nodes = e.total_nodes + 1;
    let cpus = opt_u64_or_zero(e.total_cpus) + opt_u32_or_zero(n.cpus);
    let mem = opt_u64_or_zero(e.total_mem_mb) + opt_u64_or_zero(n.memory_mb);
    let gpus = opt_u64_or_zero(e.total_gpus) + opt_u32_or_zero(n.gpus);
    let fits = count <= u32::MAX && (infer ==> nodes <= u32::MAX && cpus <= u64::MAX && mem
        <= u64::MAX && gpus <= u64::MAX);
    (
        PartitionView {
            name: e.name,
            state: if e.state == "UNKNOWN"@ {
                "UP"@
            } else {
                e.state
            },
            total_nodes: if infer {
                nodes as u32
            } else {
                e.total_nodes
            },
            total_cpus: if infer {
                Some(cpus as u64)
            } else {
                e.total_cpus
            },
            total_mem_mb: if infer {
                Some(mem as u64)
            } else {
                e.total_mem_mb
            },
            total_gpus: if infer && (e.total_gpus is Some || n.gpus is Some) {
                Some(gpus as u64)
            } else {
                e.total_gpus
            },
            node_state_counts: e.node_state_counts.insert(n.state, count as u32),
            mine: e.mine,
            others: e.others,
        },
        fits,
    )
}

pub open spec fn nodes_into(
    base: Map<Seq<char>, PartitionView>,
    specs: Seq<PartitionSpecView>,
    nodes: Seq<NodeView>,
) -> (Map<Seq<char>, PartitionView>, bool)
    decreases nodes.len(),
{
    if nodes.len() == 0 {
        (base, true)
    } else {
        let r = nodes_into(base, specs, nodes.drop_last());
        let n = nodes.last();
        let step = count_node(
            entry_or_unknown(r.0, n.partition),
            n,
            !named_by_spec(specs, n.partition),
        );
        (r.0.insert(n.partition, step.0), r.1 && step.1)
    }
}

/// The distinct names, in order of first occurrence.
pub open spec fn distinct(ps: Seq<Seq<char>>) -> Seq<Seq<char>>
    decreases ps.len(),
{
    if ps.len() == 0 {
        Seq::empty()
    } else if ps.drop_last().contains(ps.last()) {
        distinct(ps.drop_last())
    } else {
        distinct(ps.drop_last()).push(ps.last())
    }
}

/// A partition after one job that may run in it: counted as the current
/// user's or as someone else's.
pub open spec fn count_job(e: PartitionView, j: JobView) -> (PartitionView, bool) {
    if j.is_mine {
        (PartitionView { mine: observe_job(e.mine, j), ..e }, usage_fits(observe_job(e.mine, j)))
    } else {
        (
            PartitionView { others: observe_job(e.others, j), ..e },
            usage_fits(observe_job(e.others, j)),
        )
    }
}

pub open spec fn job_into(
    m: Map<Seq<char>, PartitionView>,
    targets: Seq<Seq<char>>,
    j: JobView,
) -> (Map<Seq<char>, PartitionView>, bool)
    decreases targets.len(),
{
    if targets.len() == 0 {
        (m, true)
    } else {
        let r = job_into(m, targets.drop_last(), j);
        let p = targets.last();
        let step = count_job(entry_or_unknown(r.0, p), j);
        (r.0.insert(p, step.0), r.1 && step.1)
    }
}

pub open spec fn jobs_into(m: Map<Seq<char>, PartitionView>, jobs: Seq<JobView>) -> (
    Map<Seq<char>, PartitionView>,
    bool,
)
    decreases jobs.len(),
{
    if jobs.len() == 0 {
        (m, true)
    } else {
        let r = jobs_into(m, jobs.drop_last());
        let j = jobs.last();
        let step = job_into(r.0, distinct(j.partitions), j);
        (step.0, r.1 && step.1)
    }
}

/// The partitions by name: those the specs describe, then those the nodes
/// and the jobs name; with the flag that no counter overflowed.
pub open spec fn partitions_of(
    specs: Seq<PartitionSpecView>,
    nodes: Seq<NodeView>,
    jobs: Seq<JobView>,
) -> (Map<Seq<char>, PartitionView>, bool) {
    let a = nodes_into(specs_map(specs), specs, nodes);
    let b = jobs_into(a.0, jobs);
    (b.0, a.1 && b.1)
}


pub proof fn lemma_nodes_into_prefix(
    base: Map<Seq<char>, PartitionView>,
    specs: Seq<PartitionSpecView>,
    nodes: Seq<NodeView>,
    k: int,
)
    requires
        0 <= k <= nodes.len(),
        nodes_into(base, specs, nodes).1,
    ensures
        nodes_into(base, specs, nodes.take(k)).1,
    decreases nodes.len(),
{
    if k < nodes.len() {
        assert(nodes.drop_last().take(k) =~= nodes.take(k));
        lemma_nodes_into_prefix(base, specs, nodes.drop_last(), k);
    } else {
        assert(nodes.take(k) =~= nodes);
    }
}

pub proof fn lemma_job_into_prefix(
    m: Map<Seq<char>, PartitionView>,
    targets: Seq<Seq<char>>,
    j: JobView,
    k: int,
)
    requires
        0 <= k <= targets.len(),
        job_into(m, targets, j).1,
    ensures
        job_into(m, targets.take(k), j).1,
    decreases targets.len(),
{
    if k < targets.len() {
        assert(targets.drop_last().take(k) =~= targets.take(k));
        lemma_job_into_prefix(m, targets.drop_last(), j, k);
    } else {
        assert(targets.take(k) =~= targets);
    }
}

pub proof fn lemma_jobs_into_prefix(m: Map<Seq<char>, PartitionView>, jobs: Seq<JobView>, k: int)
    requires
        0 <= k <= jobs.len(),
        jobs_into(m, jobs).1,
    ensures
        jobs_into(m, jobs.take(k)).1,
    decreases jobs.len(),
{
    if k < jobs.len() {
        assert(jobs.drop_last().take(k) =~= jobs.take(k));
        lemma_jobs_into_prefix(m, jobs.drop_last(), k);
    } else {
        assert(jobs.take(k) =~= jobs);
    }
}

/// The views of a map of overviews.
pub open spec fn overview_map_views(m: Map<Seq<char>, PartitionOverview>) -> Map<
    Seq<char>,
    PartitionView,
> {
    m.map_values(|p: PartitionOverview| p@)
}

/// Each overview is well formed and filed under its own name.
pub open spec fn overviews_filed(m: Map<Seq<char>, PartitionOverview>) -> bool {
    forall|k: Seq<char>| #[trigger] m.dom().contains(k) ==> m[k].wf() && m[k]@.name == k
}

fn fresh_overview(
    name: &Vec<char>,
    state: String,
    total_nodes: u32,
    total_cpus: Option<u64>,
    total_mem_mb: Option<u64>,
    total_gpus: Option<u64>,
) -> (p: PartitionOverview)
    ensures
        p.wf(),
        p@ == fresh_partition(name@, state@, total_nodes, total_cpus, total_mem_mb, total_gpus),
{
    let counts: StrMap<u32> = StrMap::new();
    PartitionOverview {
        name: string_of(name),
        state,
        total_nodes,
        total_cpus,
        total_mem_mb,
        total_gpus,
        node_state_counts: counts,
        mine: UsageStats::default(),
        others: UsageStats::default(),
    }
}

fn overview_from_spec(s: &PartitionSpec) -> (p: PartitionOverview)
    ensures
        p.wf(),
        p@ == partition_from_spec(s@),
{
    let name = chars_of(s.name.as_str());
    fresh_overview(
        &name,
        s.state.clone(),
        match s.total_nodes {
            Some(n) => n,
            None => 0,
        },
        s.total_cpus,
        s.total_mem_mb,
        s.total_gpus,
    )
}

fn unknown_overview(name: &Vec<char>) -> (p: PartitionOverview)
    ensures
        p.wf(),
        p@ == unknown_partition(name@),
{
    fresh_overview(name, String::from_str("UNKNOWN"), 0, None, None, None)
}

fn named_by_spec_exec(specs: &Vec<PartitionSpec>, name: &Vec<char>) -> (b: bool)
    ensures
        b == named_by_spec(specs@.map_values(|p: PartitionSpec| p@), name@),
{
    let ghost sv = specs@.map_values(|p: PartitionSpec| p@);
    let mut i: usize = 0;
    while i < specs.len()
        invariant
            i <= specs@.len(),
            sv == specs@.map_values(|p: PartitionSpec| p@),
            forall|j: int| 0 <= j < i ==> sv[j].name != name@,
        decreases specs@.len() - i,
    {
        let n = chars_of(specs[i].name.as_str());
        if eq_chars(&n, name) {
            assert(sv[i as int].name == name@);
            return true;
        }
        i = i + 1;
    }
    false
}

fn count_node_exec(e: PartitionOverview, n: &NodeRecord, infer: bool) -> (r: PartitionOverview)
    requires
        e.wf(),
        count_node(e@, n@, infer).1,
    ensures
        r.wf(),
        r@ == count_node(e@, n@, infer).0,
{
    let mut e = e;
    let st = chars_of(n.state.as_str());
    let c: u32 = match e.node_state_counts.get(&st) {
        Some(c) => *c,
        None => 0,
    };
    e.node_state_counts.insert(st, c + 1);
    if infer {
        e.total_nodes = e.total_nodes + 1;
        let cpus: u64 = match n.cpus {
            Some(x) => x as u64,
            None => 0,
        };
        e.total_cpus = Some(
            match e.total_cpus {
                Some(t) => t,
                None => 0,
            } + cpus,
        );
        let mem: u64 = match n.memory_mb {
            Some(x) => x,
            None => 0,
        };
        e.total_mem_mb = Some(
            match e.total_mem_mb {
                Some(t) => t,
                None => 0,
            } + mem,
        );
        if e.total_gpus.is_some() || n.gpus.is_some() {
            let g: u64 = match n.gpus {
                Some(x) => x as u64,
                None => 0,
            };
            e.total_gpus = Some(
                match e.total_gpus {
                    Some(t) => t,
                    None => 0,
                } + g,
            );
        }
    }
    let unknown = chars_of("UNKNOWN");
    let cur = chars_of(e.state.as_str());
    if eq_chars(&cur, &unknown) {
        e.state = String::from_str("UP");
    }
    e
}

fn count_job_exec(e: PartitionOverview, j: &JobRecord) -> (r: PartitionOverview)
    requires
        e.wf(),
        count_job(e@, j@).1,
    ensures
        r.wf(),
        r@ == count_job(e@, j@).0,
{
    let mut e = e;
    if j.is_mine {
        e.mine.observe(j);
    } else {
        e.others.observe(j);
    }
    e
}


pub proof fn lemma_job_into_distinct_prefix(
    m: Map<Seq<char>, PartitionView>,
    ps: Seq<Seq<char>>,
    j: JobView,
    t: int,
)
    requires
        0 <= t <= ps.len(),
        job_into(m, distinct(ps), j).1,
    ensures
        job_into(m, distinct(ps.take(t)), j).1,
    decreases ps.len(),
{
    if t < ps.len() {
        let d = distinct(ps.drop_last());
        if !ps.drop_last().contains(ps.last()) {
            assert(distinct(ps) == d.push(ps.last()));
            assert(d.push(ps.last()).drop_last() =~= d);
        }
        assert(ps.drop_last().take(t) =~= ps.take(t));
        lemma_job_into_distinct_prefix(m, ps.drop_last(), j, t);
    } else {
        assert(ps.take(t) =~= ps);
    }
}

/// The overviews are the entries of `m`, one per name, in increasing order
/// of name.
pub open spec fn lists_partitions(r: Seq<PartitionOverview>, m: Map<Seq<char>, PartitionView>) -> bool {
    &&& sorted_keys(r.map_values(|p: PartitionOverview| p@.name))
    &&& forall|i: int|
        0 <= i < r.len() ==> #[trigger] m.dom().contains(r[i]@.name) && m[r[i]@.name] == r[i]@
            && r[i].wf()
    &&& forall|k: Seq<char>|
        #[trigger] m.dom().contains(k) ==> exists|i: int| 0 <= i < r.len() && r[i]@.name == k
}

fn overview_values(m: StrMap<PartitionOverview>) -> (r: Vec<PartitionOverview>)
    requires
        m.wf(),
        overviews_filed(m@),
    ensures
        lists_partitions(r@, overview_map_views(m@)),
{
    proof {
        m.lemma_positions();
    }
    let ghost keys = m.keys();
    let ghost mv = m@;
    let r = m.into_values();
    proof {
        assert(r@.map_values(|p: PartitionOverview| p@.name) =~= keys) by {
            assert forall|i: int| 0 <= i < r@.len() implies r@[i]@.name == keys[i] by {
                assert(mv.dom().contains(keys[i]));
                assert(mv[keys[i]] == r@[i]);
            }
        }
        assert forall|k: Seq<char>| #[trigger] overview_map_views(mv).dom().contains(
            k,
        ) implies exists|i: int| 0 <= i < r@.len() && r@[i]@.name == k by {
            assert(keys.contains(k));
            let i = keys.index_of(k);
            assert(mv[keys[i]] == r@[i]);
        }
        assert forall|i: int| 0 <= i < r@.len() implies #[trigger] overview_map_views(
            mv,
        ).dom().contains(r@[i]@.name) && overview_map_views(mv)[r@[i]@.name] == r@[i]@
            && r@[i].wf() by {
            assert(mv.dom().contains(keys[i]));
            assert(mv[keys[i]] == r@[i]);
        }
    }
    r
}

/// Builds the per-partition overview: partitions from the specs, then
/// node states and (for partitions no spec describes) totals from the
/// nodes, then the usage of each active job in every partition it names,
/// split into the current user's and everyone else's.
fn opt_u64_value(o: Option<u64>) -> (r: u64)
    ensures
        r as nat == opt_u64_or_zero(o),
{
    match o {
        Some(v) => v,
        None => 0,
    }
}

/// Whether `a + b` fits `u64`.
fn fits_sum(a: u64, b: u64) -> (r: bool)
    ensures
        r == (a + b <= u64::MAX),
{
    a <= u64::MAX - b
}

/// Whether counting a node keeps every counter within its type.
fn count_node_fits(e: &PartitionOverview, n: &NodeRecord, infer: bool) -> (b: bool)
    requires
        e.wf(),
    ensures
        b == count_node(e@, n@, infer).1,
{
    let st = chars_of(n.state.as_str());
    let c: u32 = match e.node_state_counts.get(&st) {
        Some(c) => *c,
        None => 0,
    };
    if c == u32::MAX {
        return false;
    }
    if !infer {
        return true;
    }
    let cpus: u64 = match n.cpus {
        Some(x) => x as u64,
        None => 0,
    };
    let mem: u64 = match n.memory_mb {
        Some(x) => x,
        None => 0,
    };
    let gpus: u64 = match n.gpus {
        Some(x) => x as u64,
        None => 0,
    };
    e.total_nodes < u32::MAX && fits_sum(opt_u64_value(e.total_cpus), cpus) && fits_sum(
        opt_u64_value(e.total_mem_mb),
        mem,
    ) && fits_sum(opt_u64_value(e.total_gpus), gpus)
}

/// Whether one job's counts keep a usage within its types.
fn observe_fits(u: &UsageStats, j: &JobRecord) -> (b: bool)
    ensures
        b == usage_fits(observe_job(u@, j@)),
{
    let cpus: u64 = match j.cpus {
        Some(c) => c as u64,
        None => 0,
    };
    let gpus: u64 = match j.requested_gpus {
        Some(g) => g as u64,
        None => 0,
    };
    let run_ok = !j.running || (u.running_jobs < u32::MAX && u.running_nodes as u64 + j.nodes as u64
        <= u32::MAX as u64 && fits_sum(u.running_cpus, cpus) && fits_sum(u.running_gpus, gpus));
    let pend_ok = !j.pending || (u.pending_jobs < u32::MAX && u.pending_nodes as u64 + j.nodes as u64
        <= u32::MAX as u64 && fits_sum(u.pending_cpus, cpus) && fits_sum(u.pending_gpus, gpus));
    run_ok && pend_ok
}

/// Whether counting a job keeps the partition's usage within its types.
fn count_job_fits(e: &PartitionOverview, j: &JobRecord) -> (b: bool)
    ensures
        b == count_job(e@, j@).1,
{
    if j.is_mine {
        observe_fits(&e.mine, j)
    } else {
        observe_fits(&e.others, j)
    }
}

/// `None` exactly when some counter would leave its integer type.
pub fn aggregate_partitions_checked(
    specs: &Vec<PartitionSpec>,
    nodes: &Vec<NodeRecord>,
    jobs: &Vec<JobRecord>,
) -> (r: Option<Vec<PartitionOverview>>)
    ensures
        r is Some <==> partitions_of(partition_spec_views(specs@), node_views(nodes@), job_views(jobs@)).1,
        match r {
            Some(v) => lists_partitions(
                v@,
                partitions_of(partition_spec_views(specs@), node_views(nodes@), job_views(jobs@)).0,
            ),
            None => true,
        },
{
    let ghost sv = partition_spec_views(specs@);
    let ghost nv = node_views(nodes@);
    let ghost jv = job_views(jobs@);
    let mut m: StrMap<PartitionOverview> = StrMap::new();
    let mut i: usize = 0;
    assert(overview_map_views(m@) =~= Map::<Seq<char>, PartitionView>::empty());
    assert(sv.take(0) =~= Seq::<PartitionSpecView>::empty());
    while i < specs.len()
        invariant
            i <= specs@.len(),
            sv == partition_spec_views(specs@),
            m.wf(),
            overviews_filed(m@),
            overview_map_views(m@) == specs_map(sv.take(i as int)),
        decreases specs@.len() - i,
    {
        let p = overview_from_spec(&specs[i]);
        let key = chars_of(specs[i].name.as_str());
        let ghost before = m@;
        m.insert(key, p);
        proof {
            assert(sv.take(i + 1).drop_last() =~= sv.take(i as int));
            assert(sv.take(i + 1).last() == specs@[i as int]@);
            assert(overview_map_views(m@) =~= overview_map_views(before).insert(key@, p@));
        }
        i = i + 1;
    }
    assert(sv.take(specs@.len() as int) =~= sv);
    let ghost base = specs_map(sv);
    let mut i: usize = 0;
    assert(nv.take(0) =~= Seq::<NodeView>::empty());
    while i < nodes.len()
        invariant
            i <= nodes@.len(),
            sv == partition_spec_views(specs@),
            nv == node_views(nodes@),
            base == specs_map(sv),
            nodes_into(base, sv, nv.take(i as int)).1,
            m.wf(),
            overviews_filed(m@),
            overview_map_views(m@) == nodes_into(base, sv, nv.take(i as int)).0,
        decreases nodes@.len() - i,
    {
        let node = &nodes[i];
        let key = chars_of(node.partition.as_str());
        let infer = !named_by_spec_exec(specs, &key);
        let ghost mv = overview_map_views(m@);
        let ghost before = m@;
        let e = match m.remove(&key) {
            Some(e) => e,
            None => unknown_overview(&key),
        };
        proof {
            assert(e@ == entry_or_unknown(mv, key@));
            assert(nv.take(i + 1).drop_last() =~= nv.take(i as int));
            assert(nv.take(i + 1).last() == node@);
        }
        if !count_node_fits(&e, node, infer) {
            proof {
                if nodes_into(base, sv, nv).1 {
                    lemma_nodes_into_prefix(base, sv, nv, i + 1);
                }
            }
            return None;
        }
        let e2 = count_node_exec(e, node, infer);
        let ghost removed = m@;
        m.insert(key, e2);
        proof {
            assert(overview_map_views(m@) =~= mv.insert(key@, e2@));
            assert(overviews_filed(m@)) by {
                assert forall|k: Seq<char>| #[trigger] m@.dom().contains(k) implies m@[k].wf()
                    && m@[k]@.name == k by {
                    if k != key@ {
                        assert(before.dom().contains(k));
                    }
                }
            }
        }
        i = i + 1;
    }
    assert(nv.take(nodes@.len() as int) =~= nv);
    let ghost after_nodes = nodes_into(base, sv, nv).0;
    let mut i: usize = 0;
    assert(jv.take(0) =~= Seq::<JobView>::empty());
    while i < jobs.len()
        invariant
            i <= jobs@.len(),
            jv == job_views(jobs@),
            sv == partition_spec_views(specs@),
            nv == node_views(nodes@),
            base == specs_map(sv),
            nodes_into(base, sv, nv).1,
            after_nodes == nodes_into(base, sv, nv).0,
            jobs_into(after_nodes, jv.take(i as int)).1,
            m.wf(),
            overviews_filed(m@),
            overview_map_views(m@) == jobs_into(after_nodes, jv.take(i as int)).0,
        decreases jobs@.len() - i,
    {
        let job = &jobs[i];
        let ghost outer = overview_map_views(m@);
        proof {
            assert(jv.take(i + 1).drop_last() =~= jv.take(i as int));
            assert(jv.take(i + 1).last() == job@);
        }
        let ghost ps = job@.partitions;
        let mut t: usize = 0;
        assert(ps.take(0) =~= Seq::<Seq<char>>::empty());
        while t < job.partitions.len()
            invariant
                t <= job.partitions@.len(),
                ps == job@.partitions,
                ps.len() == job.partitions@.len(),
                job_into(outer, distinct(ps.take(t as int)), job@).1,
                jobs_into(after_nodes, jv.take(i as int)).1,
                outer == jobs_into(after_nodes, jv.take(i as int)).0,
                jv.take(i + 1).drop_last() == jv.take(i as int),
                jv.take(i + 1).last() == job@,
                i < jobs@.len(),
                jv == job_views(jobs@),
                sv == partition_spec_views(specs@),
                nv == node_views(nodes@),
                base == specs_map(sv),
                nodes_into(base, sv, nv).1,
                after_nodes == nodes_into(base, sv, nv).0,
                m.wf(),
                overviews_filed(m@),
                overview_map_views(m@) == job_into(outer, distinct(ps.take(t as int)), job@).0,
            decreases job.partitions@.len() - t,
        {
            let key = chars_of(job.partitions[t].as_str());
            assert(key@ == ps[t as int]);
            // Whether this name already came earlier in the list.
            let mut seen = false;
            let mut q: usize = 0;
            while q < t
                invariant
                    q <= t < job.partitions@.len(),
                    ps == job@.partitions,
                    key@ == ps[t as int],
                    seen == exists|x: int| 0 <= x < q && ps[x] == key@,
                decreases t - q,
            {
                let other = chars_of(job.partitions[q].as_str());
                assert(other@ == ps[q as int]);
                if eq_chars(&other, &key) {
                    seen = true;
                }
                q = q + 1;
            }
            let ghost pre = ps.take(t as int);
            let ghost now = ps.take(t + 1);
            proof {
                assert(now.drop_last() =~= pre);
                assert(now.last() == key@);
                assert(seen == pre.contains(key@)) by {
                    if seen {
                        let x = choose|x: int| 0 <= x < t && ps[x] == key@;
                        assert(pre[x] == key@);
                    }
                    if pre.contains(key@) {
                        let x = pre.index_of(key@);
                        assert(ps[x] == key@);
                    }
                }
            }
            if !seen {
                let ghost mv = overview_map_views(m@);
                let ghost before = m@;
                let e = match m.remove(&key) {
                    Some(e) => e,
                    None => unknown_overview(&key),
                };
                proof {
                    assert(e@ == entry_or_unknown(mv, key@));
                    assert(distinct(now) == distinct(pre).push(key@));
                    assert(distinct(pre).push(key@).drop_last() =~= distinct(pre));
                }
                if !count_job_fits(&e, job) {
                    proof {
                        if jobs_into(after_nodes, jv).1 {
                            lemma_jobs_into_prefix(after_nodes, jv, i + 1);
                            assert(jobs_into(after_nodes, jv.take(i + 1)).1);
                            assert(job_into(outer, distinct(ps), job@).1);
                            lemma_job_into_distinct_prefix(outer, ps, job@, t + 1);
                            assert(job_into(outer, distinct(now), job@).1);
                            assert(distinct(now).drop_last() =~= distinct(pre));
                            assert(distinct(now).last() == key@);
                            assert(false);
                        }
                    }
                    return None;
                }
                let e2 = count_job_exec(e, job);
                m.insert(key, e2);
                proof {
                    assert(overview_map_views(m@) =~= mv.insert(key@, e2@));
                    assert(overviews_filed(m@)) by {
                        assert forall|k: Seq<char>| #[trigger] m@.dom().contains(k) implies m@[k].wf()
                            && m@[k]@.name == k by {
                            if k != key@ {
                                assert(before.dom().contains(k));
                            }
                        }
                    }
                }
            } else {
                assert(distinct(now) == distinct(pre));
            }
            t = t + 1;
        }
        assert(ps.take(ps.len() as int) =~= ps);
        i = i + 1;
    }
    assert(jv.take(jobs@.len() as int) =~= jv);
    Some(overview_values(m))
}

/// Builds the per-partition overview: partitions from the specs, then
/// node states and (for partitions no spec describes) totals from the
/// nodes, then the usage of each active job in every partition it names,
/// split into the current user's and everyone else's.
pub fn aggregate_partitions(
    specs: &Vec<PartitionSpec>,
    nodes: &Vec<NodeRecord>,
    jobs: &Vec<JobRecord>,
) -> (r: Vec<PartitionOverview>)
    requires
        partitions_of(partition_spec_views(specs@), node_views(nodes@), job_views(jobs@)).1,
    ensures
        lists_partitions(
            r@,
            partitions_of(partition_spec_views(specs@), node_views(nodes@), job_views(jobs@)).0,
        ),
{
    match aggregate_partitions_checked(specs, nodes, jobs) {
        Some(v) => v,
        None => {
            assert(false);
            Vec::new()
        },
    }
}

/// What the snapshot can show: a field is reported when at least one job
/// (or partition) carries it.
pub open spec fn capabilities_of(
    has_specs: bool,
    partitions: Seq<PartitionOverview>,
    jobs: Seq<JobRecord>,
) -> Capabilities {
    Capabilities {
        account: exists|i: int| 0 <= i < jobs.len() && jobs[i].account is Some,
        submit_time: exists|i: int| 0 <= i < jobs.len() && jobs[i].submit_time is Some,
        priority: exists|i: int| 0 <= i < jobs.len() && jobs[i].priority is Some,
        job_cpus: exists|i: int| 0 <= i < jobs.len() && jobs[i].cpus is Some,
        job_gpus: exists|i: int| 0 <= i < jobs.len() && jobs[i].requested_gpus is Some,
        req_tres: exists|i: int| 0 <= i < jobs.len() && jobs[i].req_tres is Some,
        alloc_tres: exists|i: int| 0 <= i < jobs.len() && jobs[i].alloc_tres is Some,
        partition_cpu_totals: exists|i: int|
            0 <= i < partitions.len() && partitions[i].total_cpus is Some,
        partition_gpu_totals: exists|i: int|
            0 <= i < partitions.len() && partitions[i].total_gpus is Some,
        partition_static: has_specs,
        sacct_history: false,
        job_detail: false,
    }
}

pub fn derive_capabilities(
    specs: &Vec<PartitionSpec>,
    partitions: &Vec<PartitionOverview>,
    jobs: &Vec<JobRecord>,
) -> (c: Capabilities)
    ensures
        c == capabilities_of(specs@.len() > 0, partitions@, jobs@),
{
    let mut c = Capabilities {
        account: false,
        submit_time: false,
        priority: false,
        job_cpus: false,
        job_gpus: false,
        partition_cpu_totals: false,
        partition_gpu_totals: false,
        partition_static: specs.len() > 0,
        sacct_history: false,
        job_detail: false,
        req_tres: false,
        alloc_tres: false,
    };
    let ghost js = jobs@;
    let mut i: usize = 0;
    while i < jobs.len()
        invariant
            i <= js.len(),
            js == jobs@,
            c.account == exists|k: int| 0 <= k < i && js[k].account is Some,
            c.submit_time == exists|k: int| 0 <= k < i && js[k].submit_time is Some,
            c.priority == exists|k: int| 0 <= k < i && js[k].priority is Some,
            c.job_cpus == exists|k: int| 0 <= k < i && js[k].cpus is Some,
            c.job_gpus == exists|k: int| 0 <= k < i && js[k].requested_gpus is Some,
            c.req_tres == exists|k: int| 0 <= k < i && js[k].req_tres is Some,
            c.alloc_tres == exists|k: int| 0 <= k < i && js[k].alloc_tres is Some,
            c.partition_cpu_totals == false,
            c.partition_gpu_totals == false,
            c.partition_static == (specs@.len() > 0),
            c.sacct_history == false,
            c.job_detail == false,
        decreases js.len() - i,
    {
        let j = &jobs[i];
        c.account = c.account || j.account.is_some();
        c.submit_time = c.submit_time || j.submit_time.is_some();
        c.priority = c.priority || j.priority.is_some();
        c.job_cpus = c.job_cpus || j.cpus.is_some();
        c.job_gpus = c.job_gpus || j.requested_gpus.is_some();
        c.req_tres = c.req_tres || j.req_tres.is_some();
        c.alloc_tres = c.alloc_tres || j.alloc_tres.is_some();
        i = i + 1;
    }
    let ghost ps = partitions@;
    let mut i: usize = 0;
    while i < partitions.len()
        invariant
            i <= ps.len(),
            ps == partitions@,
            js == jobs@,
            c.account == exists|k: int| 0 <= k < js.len() && js[k].account is Some,
            c.submit_time == exists|k: int| 0 <= k < js.len() && js[k].submit_time is Some,
            c.priority == exists|k: int| 0 <= k < js.len() && js[k].priority is Some,
            c.job_cpus == exists|k: int| 0 <= k < js.len() && js[k].cpus is Some,
            c.job_gpus == exists|k: int| 0 <= k < js.len() && js[k].requested_gpus is Some,
            c.req_tres == exists|k: int| 0 <= k < js.len() && js[k].req_tres is Some,
            c.alloc_tres == exists|k: int| 0 <= k < js.len() && js[k].alloc_tres is Some,
            c.partition_cpu_totals == exists|k: int| 0 <= k < i && ps[k].total_cpus is Some,
            c.partition_gpu_totals == exists|k: int| 0 <= k < i && ps[k].total_gpus is Some,
            c.partition_static == (specs@.len() > 0),
            c.sacct_history == false,
            c.job_detail == false,
        decreases ps.len() - i,
    {
        let p = &partitions[i];
        c.partition_cpu_totals = c.partition_cpu_totals || p.total_cpus.is_some();
        c.partition_gpu_totals = c.partition_gpu_totals || p.total_gpus.is_some();
        i = i + 1;
    }
    c
}

/// A user first met in the job list.
pub open spec fn fresh_user(name: Seq<char>, me: Seq<char>) -> UserView {
    UserView { user: name, is_current_user: name == me, jobs: zero_usage(), partitions: Map::empty() }
}

/// The users after one active job: it counts toward its user's totals and
/// toward the user's usage of the job's primary partition.
pub open spec fn user_step(m: Map<Seq<char>, UserView>, j: JobView, me: Seq<char>) -> (
    Map<Seq<char>, UserView>,
    bool,
) {
    let e = match mget(m, j.user) {
        Some(e) => e,
        None => fresh_user(j.user, me),
    };
    let part = primary_partition_of(j);
    let pu = match mget(e.partitions, part) {
        Some(u) => u,
        None => zero_usage(),
    };
    let jobs2 = observe_job(e.jobs, j);
    let pu2 = observe_job(pu, j);
    (
        m.insert(j.user, UserView { jobs: jobs2, partitions: e.partitions.insert(part, pu2), ..e }),
        usage_fits(jobs2) && usage_fits(pu2),
    )
}

/// The users of the active jobs, with the flag that no counter overflowed.
pub open spec fn users_of(jobs: Seq<JobView>, me: Seq<char>) -> (Map<Seq<char>, UserView>, bool)
    decreases jobs.len(),
{
    if jobs.len() == 0 {
        (Map::empty(), true)
    } else {
        let r = users_of(jobs.drop_last(), me);
        let j = jobs.last();
        if j.active {
            let st = user_step(r.0, j, me);
            (st.0, r.1 && st.1)
        } else {
            r
        }
    }
}

pub proof fn lemma_users_prefix(jobs: Seq<JobView>, me: Seq<char>, k: int)
    requires
        0 <= k <= jobs.len(),
        users_of(jobs, me).1,
    ensures
        users_of(jobs.take(k), me).1,
    decreases jobs.len(),
{
    if k < jobs.len() {
        assert(jobs.drop_last().take(k) =~= jobs.take(k));
        lemma_users_prefix(jobs.drop_last(), me, k);
    } else {
        assert(jobs.take(k) =~= jobs);
    }
}

/// The usages, one per user, in increasing order of user name.
pub open spec fn lists_users(r: Seq<UserUsage>, m: Map<Seq<char>, UserView>) -> bool {
    &&& sorted_keys(r.map_values(|u: UserUsage| u@.user))
    &&& forall|i: int|
        0 <= i < r.len() ==> #[trigger] m.dom().contains(r[i]@.user) && m[r[i]@.user] == r[i]@
            && r[i].wf()
    &&& forall|k: Seq<char>|
        #[trigger] m.dom().contains(k) ==> exists|i: int| 0 <= i < r.len() && r[i]@.user == k
}

pub open spec fn user_map_views(m: Map<Seq<char>, UserUsage>) -> Map<Seq<char>, UserView> {
    m.map_values(|u: UserUsage| u@)
}

pub open spec fn users_filed(m: Map<Seq<char>, UserUsage>) -> bool {
    forall|k: Seq<char>| #[trigger] m.dom().contains(k) ==> m[k].wf() && m[k]@.user == k
}

fn user_values(m: StrMap<UserUsage>) -> (r: Vec<UserUsage>)
    requires
        m.wf(),
        users_filed(m@),
    ensures
        lists_users(r@, user_map_views(m@)),
{
    proof {
        m.lemma_positions();
    }
    let ghost keys = m.keys();
    let ghost mv = m@;
    let r = m.into_values();
    proof {
        assert(r@.map_values(|u: UserUsage| u@.user) =~= keys) by {
            assert forall|i: int| 0 <= i < r@.len() implies r@[i]@.user == keys[i] by {
                assert(mv.dom().contains(keys[i]));
                assert(mv[keys[i]] == r@[i]);
            }
        }
        assert forall|k: Seq<char>| #[trigger] user_map_views(mv).dom().contains(
            k,
        ) implies exists|i: int| 0 <= i < r@.len() && r@[i]@.user == k by {
            assert(keys.contains(k));
            let i = keys.index_of(k);
            assert(mv[keys[i]] == r@[i]);
        }
        assert forall|i: int| 0 <= i < r@.len() implies #[trigger] user_map_views(
            mv,
        ).dom().contains(r@[i]@.user) && user_map_views(mv)[r@[i]@.user] == r@[i]@
            && r@[i].wf() by {
            assert(mv.dom().contains(keys[i]));
            assert(mv[keys[i]] == r@[i]);
        }
    }
    r
}

/// Per-user usage of the active jobs: each user's running and pending
/// totals and their split over the jobs' primary partitions, with the
/// current user marked.
/// `None` exactly when some counter would leave its integer type.
pub fn aggregate_users_checked(jobs: &Vec<JobRecord>, current_user: &str) -> (r: Option<Vec<UserUsage>>)
    ensures
        r is Some <==> users_of(job_views(jobs@), current_user@).1,
        match r {
            Some(v) => lists_users(v@, users_of(job_views(jobs@), current_user@).0),
            None => true,
        },
{
    let ghost jv = job_views(jobs@);
    let me = chars_of(current_user);
    let mut m: StrMap<UserUsage> = StrMap::new();
    let mut i: usize = 0;
    assert(user_map_views(m@) =~= Map::<Seq<char>, UserView>::empty());
    assert(jv.take(0) =~= Seq::<JobView>::empty());
    while i < jobs.len()
        invariant
            i <= jobs@.len(),
            jv == job_views(jobs@),
            me@ == current_user@,
            users_of(jv.take(i as int), current_user@).1,
            m.wf(),
            users_filed(m@),
            user_map_views(m@) == users_of(jv.take(i as int), current_user@).0,
        decreases jobs@.len() - i,
    {
        let job = &jobs[i];
        proof {
            assert(jv.take(i + 1).drop_last() =~= jv.take(i as int));
            assert(jv.take(i + 1).last() == job@);
        }
        if job.active {
            let key = chars_of(job.user.as_str());
            let ghost mv = user_map_views(m@);
            let ghost before = m@;
            let mut e = match m.remove(&key) {
                Some(e) => e,
                None => {
                    let is_me = eq_chars(&key, &me);
                    let parts: StrMap<UsageStats> = StrMap::new();
                    UserUsage {
                        user: string_of(&key),
                        is_current_user: is_me,
                        jobs: UsageStats::default(),
                        partitions: parts,
                    }
                },
            };
            proof {
                assert(e@.partitions =~= (match mget(mv, key@) {
                    Some(x) => x,
                    None => fresh_user(key@, current_user@),
                }).partitions);
            }
            let ghost e0 = e@;
            let pk0 = chars_of(job.primary_partition());
            let pu_fits = match e.partitions.get(&pk0) {
                Some(u) => observe_fits(u, job),
                None => {
                    let z = UsageStats::default();
                    observe_fits(&z, job)
                },
            };
            if !observe_fits(&e.jobs, job) || !pu_fits {
                proof {
                    if users_of(jv, current_user@).1 {
                        lemma_users_prefix(jv, current_user@, i + 1);
                    }
                }
                return None;
            }
            e.jobs.observe(job);
            let pk = chars_of(job.primary_partition());
            let ghost pm = e.partitions@;
            let mut pu = match e.partitions.remove(&pk) {
                Some(u) => u,
                None => UsageStats::default(),
            };
            pu.observe(job);
            e.partitions.insert(pk, pu);
            proof {
                assert(e.partitions@.map_values(|u: UsageStats| u@) =~= e0.partitions.insert(
                    pk@,
                    pu@,
                ));
            }
            m.insert(key, e);
            proof {
                assert(user_map_views(m@) =~= mv.insert(key@, e@));
                assert(users_filed(m@)) by {
                    assert forall|k: Seq<char>| #[trigger] m@.dom().contains(k) implies m@[k].wf()
                        && m@[k]@.user == k by {
                        if k != key@ {
                            assert(before.dom().contains(k));
                        }
                    }
                }
            }
        }
        i = i + 1;
    }
    assert(jv.take(jobs@.len() as int) =~= jv);
    Some(user_values(m))
}

/// Per-user usage of the active jobs: each user's running and pending
/// totals and their split over the jobs' primary partitions, with the
/// current user marked.
pub fn aggregate_users(jobs: &Vec<JobRecord>, current_user: &str) -> (r: Vec<UserUsage>)
    requires
        users_of(job_views(jobs@), current_user@).1,
    ensures
        lists_users(r@, users_of(job_views(jobs@), current_user@).0),
{
    aggregate_users_checked(jobs, current_user).unwrap()
}

pub open spec fn nodes_part(raw: RawSnapshot) -> (Seq<NodeView>, Seq<Seq<char>>) {
    if usable(raw.nodes@) {
        parse_nodes_of(raw.nodes.stdout@)
    } else {
        (Seq::empty(), Seq::empty())
    }
}

pub open spec fn jobs_part(raw: RawSnapshot, current_user: Seq<char>) -> (
    Seq<JobView>,
    Seq<Seq<char>>,
) {
    if usable(raw.jobs@) {
        parse_jobs_of(raw.jobs.stdout@, current_user)
    } else {
        (Seq::empty(), Seq::empty())
    }
}

pub open spec fn specs_part(raw: RawSnapshot) -> (Seq<PartitionSpecView>, Seq<Seq<char>>) {
    match raw.partition_static {
        Some(c) => if usable(c@) {
            parse_partition_specs_of(c.stdout@)
        } else {
            (Seq::empty(), Seq::empty())
        },
        None => (Seq::empty(), Seq::empty()),
    }
}

/// What `build_snapshot` needs of a sample: every counter it keeps fits
/// its integer type.
pub open spec fn snapshot_fits(raw: RawSnapshot, current_user: Seq<char>) -> bool {
    &&& usable(raw.nodes@) ==> nodes_fit(raw.nodes.stdout@)
    &&& usable(raw.jobs@) ==> jobs_fit(raw.jobs.stdout@)
    &&& partitions_of(
        specs_part(raw).0,
        nodes_part(raw).0,
        jobs_part(raw, current_user).0,
    ).1
}

fn parse_if_usable_nodes(c: &CommandCapture) -> (r: (Vec<NodeRecord>, Vec<String>))
    requires
        usable(c@) ==> nodes_fit(c.stdout@),
    ensures
        (node_views(r.0@), string_views(r.1@)) == (if usable(c@) {
            parse_nodes_of(c.stdout@)
        } else {
            (Seq::<NodeView>::empty(), Seq::<Seq<char>>::empty())
        }),
{
    let out = chars_of(c.stdout.as_str());
    let t = trim_exec(&out);
    if c.ok() || t.len() > 0 {
        parse_nodes(c.stdout.as_str())
    } else {
        let r = (Vec::new(), Vec::new());
        assert(node_views(r.0@) =~= Seq::<NodeView>::empty());
        assert(string_views(r.1@) =~= Seq::<Seq<char>>::empty());
        r
    }
}

fn parse_if_usable_jobs(c: &CommandCapture, current_user: &str) -> (r: (
    Vec<JobRecord>,
    Vec<String>,
))
    requires
        usable(c@) ==> jobs_fit(c.stdout@),
    ensures
        (job_views(r.0@), string_views(r.1@)) == (if usable(c@) {
            parse_jobs_of(c.stdout@, current_user@)
        } else {
            (Seq::<JobView>::empty(), Seq::<Seq<char>>::empty())
        }),
{
    let out = chars_of(c.stdout.as_str());
    let t = trim_exec(&out);
    if c.ok() || t.len() > 0 {
        parse_jobs(c.stdout.as_str(), current_user)
    } else {
        let r = (Vec::new(), Vec::new());
        assert(job_views(r.0@) =~= Seq::<JobView>::empty());
        assert(string_views(r.1@) =~= Seq::<Seq<char>>::empty());
        r
    }
}

fn parse_if_usable_specs(o: &Option<CommandCapture>) -> (r: (Vec<PartitionSpec>, Vec<String>))
    ensures
        (partition_spec_views(r.0@), string_views(r.1@)) == match *o {
            Some(c) => if usable(c@) {
                parse_partition_specs_of(c.stdout@)
            } else {
                (Seq::<PartitionSpecView>::empty(), Seq::<Seq<char>>::empty())
            },
            None => (Seq::<PartitionSpecView>::empty(), Seq::<Seq<char>>::empty()),
        },
{
    match o {
        Some(c) => {
            let out = chars_of(c.stdout.as_str());
            let t = trim_exec(&out);
            if c.ok() || t.len() > 0 {
                return parse_partition_specs(c.stdout.as_str());
            }
        },
        None => {},
    }
    let r = (Vec::new(), Vec::new());
    assert(partition_spec_views(r.0@) =~= Seq::<PartitionSpecView>::empty());
    assert(string_views(r.1@) =~= Seq::<Seq<char>>::empty());
    r
}

fn append_strings(a: &mut Vec<String>, b: Vec<String>)
    ensures
        string_views(final(a)@) == string_views(old(a)@) + string_views(b@),
{
    let ghost start = string_views(a@);
    let ghost bv = string_views(b@);
    let mut i: usize = 0;
    while i < b.len()
        invariant
            i <= b@.len(),
            bv == string_views(b@),
            string_views(a@) == start + bv.take(i as int),
        decreases b@.len() - i,
    {
        let ghost before = string_views(a@);
        a.push(clone_string(&b[i]));
        assert(bv.take(i + 1) =~= bv.take(i as int).push(bv[i as int]));
        assert(string_views(a@) =~= before.push(bv[i as int]));
        i = i + 1;
    }
    assert(bv.take(b@.len() as int) =~= bv);
}

/// `r` is the snapshot of the raw sample: each capture that succeeded or
/// left output parsed, the notes of collection and of parsing in order,
/// the partition overview and the capabilities built from the parsed
/// records, and the snapshot marked degraded when any note was written or
/// any capture failed.
pub open spec fn snapshot_of(raw: RawSnapshot, current_user: Seq<char>, r: ClusterSnapshot) -> bool {
    let np = nodes_part(raw);
    let jp = jobs_part(raw, current_user);
    let sp = specs_part(raw);
    let notes = string_views(raw.degraded_notes@) + np.1 + jp.1 + sp.1;
    let ps_ok = match raw.partition_static {
        Some(c) => c.status == CommandStatus::Success,
        None => false,
    };
    let ps_failed = match raw.partition_static {
        Some(c) => c.status != CommandStatus::Success,
        None => false,
    };
    &&& r.collected_at_ms == raw.collected_at_ms
    &&& r.local_time@ == raw.local_time@
    &&& r.hostname@ == raw.hostname@
    &&& r.current_user@ == current_user
    &&& r.sample_duration_ms == raw.sample_duration_ms
    &&& r.stale_partition_static == raw.stale_partition_static
    &&& string_views(r.notes@) == notes
    &&& node_views(r.nodes@) == np.0
    &&& job_views(r.jobs@) == jp.0
    &&& lists_partitions(r.partitions@, partitions_of(sp.0, np.0, jp.0).0)
    &&& r.capabilities == capabilities_of(sp.0.len() > 0, r.partitions@, r.jobs@)
    &&& r.source_health.nodes_ok == (raw.nodes.status == CommandStatus::Success)
    &&& r.source_health.jobs_ok == (raw.jobs.status == CommandStatus::Success)
    &&& r.source_health.partition_static_ok == ps_ok
    &&& r.degraded == (notes.len() > 0 || raw.nodes.status != CommandStatus::Success
        || raw.jobs.status != CommandStatus::Success || ps_failed)
}

/// The snapshot of a raw sample, or `None` exactly when some count the
/// snapshot keeps would leave its integer type.
pub fn build_snapshot_checked(raw: &RawSnapshot, current_user: &str) -> (r: Option<ClusterSnapshot>)
    ensures
        r is Some <==> snapshot_fits(*raw, current_user@),
        match r {
            Some(x) => snapshot_of(*raw, current_user@, x),
            None => true,
        },
{
    if raw.nodes.is_usable() && !nodes_fit_exec(raw.nodes.stdout.as_str()) {
        return None;
    }
    if raw.jobs.is_usable() && !jobs_fit_exec(raw.jobs.stdout.as_str()) {
        return None;
    }

    let mut notes = clone_strings(&raw.degraded_notes);
    let (nodes, node_notes) = parse_if_usable_nodes(&raw.nodes);
    append_strings(&mut notes, node_notes);
    let (jobs, job_notes) = parse_if_usable_jobs(&raw.jobs, current_user);
    append_strings(&mut notes, job_notes);
    let (specs, spec_notes) = parse_if_usable_specs(&raw.partition_static);
    append_strings(&mut notes, spec_notes);
    let partitions = match aggregate_partitions_checked(&specs, &nodes, &jobs) {
        Some(p) => p,
        None => {
            return None;
        },
    };
    let capabilities = derive_capabilities(&specs, &partitions, &jobs);
    let nodes_ok = raw.nodes.ok();
    let jobs_ok = raw.jobs.ok();
    let (ps_ok, ps_failed) = match &raw.partition_static {
        Some(c) => (c.ok(), !c.ok()),
        None => (false, false),
    };
    let degraded = notes.len() > 0 || !nodes_ok || !jobs_ok || ps_failed;
    Some(ClusterSnapshot {
        collected_at_ms: raw.collected_at_ms,
        local_time: clone_string(&raw.local_time),
        hostname: clone_string(&raw.hostname),
        current_user: String::from_str(current_user),
        sample_duration_ms: raw.sample_duration_ms,
        stale_partition_static: raw.stale_partition_static,
        degraded,
        notes,
        capabilities,
        source_health: SourceHealth {
            nodes_ok,
            jobs_ok,
            partition_static_ok: ps_ok,
        },
        nodes,
        partitions,
        jobs,
    })
}


/// Turns a raw sample into a snapshot, as `snapshot_of` describes.
pub fn build_snapshot(raw: &RawSnapshot, current_user: &str) -> (r: ClusterSnapshot)
    requires
        snapshot_fits(*raw, current_user@),
    ensures
        snapshot_of(*raw, current_user@, r),
{
    build_snapshot_checked(raw, current_user).unwrap()
}

/// `u` after every job of `jobs` that names partition `p` and whose
/// ownership is `mine` (the current user's, or someone else's).
pub open spec fn usage_after(u: Usage, jobs: Seq<JobView>, p: Seq<char>, mine: bool) -> Usage
    decreases jobs.len(),
{
    if jobs.len() == 0 {
        u
    } else {
        let before = usage_after(u, jobs.drop_last(), p, mine);
        let j = jobs.last();
        if j.is_mine == mine && j.partitions.contains(p) {
            observe_job(before, j)
        } else {
            before
        }
    }
}

/// The usage of the jobs that name `p`, split by ownership, each job
/// counted once.
pub open spec fn jobs_usage(jobs: Seq<JobView>, p: Seq<char>, mine: bool) -> Usage {
    usage_after(zero_usage(), jobs, p, mine)
}

proof fn lemma_distinct(ps: Seq<Seq<char>>)
    ensures
        forall|x: Seq<char>| distinct(ps).contains(x) <==> ps.contains(x),
        forall|i: int, k: int|
            0 <= i < k < distinct(ps).len() ==> distinct(ps)[i] != distinct(ps)[k],
    decreases ps.len(),
{
    if ps.len() > 0 {
        lemma_distinct(ps.drop_last());
        let d = distinct(ps.drop_last());
        assert forall|x: Seq<char>| distinct(ps).contains(x) <==> ps.contains(x) by {
            if ps.contains(x) && x != ps.last() {
                let i = choose|i: int| 0 <= i < ps.len() && ps[i] == x;
                assert(ps.drop_last()[i] == x);
            }
            if ps.drop_last().contains(x) {
                let i = choose|i: int| 0 <= i < ps.drop_last().len() && ps.drop_last()[i] == x;
                assert(ps[i] == x);
            }
            if !ps.drop_last().contains(ps.last()) {
                assert(d.push(ps.last())[d.len() as int] == ps.last());
                if d.push(ps.last()).contains(x) && x != ps.last() {
                    let i = choose|i: int| 0 <= i < d.push(ps.last()).len() && d.push(ps.last())[i] == x;
                    assert(d[i] == x);
                }
                if d.contains(x) {
                    let i = choose|i: int| 0 <= i < d.len() && d[i] == x;
                    assert(d.push(ps.last())[i] == x);
                }
            }
        }
    }
}

/// What one job does to one partition's usage, through the entry a
/// missing partition would get.
proof fn lemma_job_into_entry(
    m: Map<Seq<char>, PartitionView>,
    targets: Seq<Seq<char>>,
    j: JobView,
    p: Seq<char>,
)
    requires
        forall|i: int, k: int| 0 <= i < k < targets.len() ==> targets[i] != targets[k],
    ensures
        entry_or_unknown(job_into(m, targets, j).0, p).mine == if targets.contains(p) && j.is_mine {
            observe_job(entry_or_unknown(m, p).mine, j)
        } else {
            entry_or_unknown(m, p).mine
        },
        entry_or_unknown(job_into(m, targets, j).0, p).others == if targets.contains(p)
            && !j.is_mine {
            observe_job(entry_or_unknown(m, p).others, j)
        } else {
            entry_or_unknown(m, p).others
        },
        targets.contains(p) ==> job_into(m, targets, j).0.dom().contains(p),
        m.dom().contains(p) ==> job_into(m, targets, j).0.dom().contains(p),
    decreases targets.len(),
{
    if targets.len() > 0 {
        let t = targets.drop_last();
        lemma_job_into_entry(m, t, j, p);
        let q = targets.last();
        if p == q {
            assert(!t.contains(q)) by {
                if t.contains(q) {
                    let i = choose|i: int| 0 <= i < t.len() && t[i] == q;
                    assert(targets[i] == targets[targets.len() - 1]);
                }
            }
            assert(targets.contains(p)) by {
                assert(targets[targets.len() - 1] == p);
            }
        } else {
            assert(targets.contains(p) == t.contains(p)) by {
                if targets.contains(p) {
                    let i = choose|i: int| 0 <= i < targets.len() && targets[i] == p;
                    assert(t[i] == p);
                }
                if t.contains(p) {
                    let i = choose|i: int| 0 <= i < t.len() && t[i] == p;
                    assert(targets[i] == p);
                }
            }
        }
    }
}

proof fn lemma_jobs_into_entry(m: Map<Seq<char>, PartitionView>, jobs: Seq<JobView>, p: Seq<char>)
    ensures
        entry_or_unknown(jobs_into(m, jobs).0, p).mine == usage_after(
            entry_or_unknown(m, p).mine,
            jobs,
            p,
            true,
        ),
        entry_or_unknown(jobs_into(m, jobs).0, p).others == usage_after(
            entry_or_unknown(m, p).others,
            jobs,
            p,
            false,
        ),
        m.dom().contains(p) ==> jobs_into(m, jobs).0.dom().contains(p),
        forall|k: int|
            0 <= k < jobs.len() && (#[trigger] jobs[k]).partitions.contains(p) ==> jobs_into(
                m,
                jobs,
            ).0.dom().contains(p),
    decreases jobs.len(),
{
    if jobs.len() > 0 {
        let r = jobs_into(m, jobs.drop_last());
        lemma_jobs_into_entry(m, jobs.drop_last(), p);
        let j = jobs.last();
        lemma_distinct(j.partitions);
        lemma_job_into_entry(r.0, distinct(j.partitions), j, p);
        assert forall|k: int|
            0 <= k < jobs.len() && (#[trigger] jobs[k]).partitions.contains(p) implies jobs_into(
            m,
            jobs,
        ).0.dom().contains(p) by {
            if k < jobs.len() - 1 {
                assert(jobs.drop_last()[k] == jobs[k]);
            }
        }
    }
}

proof fn lemma_nodes_keep_usage(
    base: Map<Seq<char>, PartitionView>,
    specs: Seq<PartitionSpecView>,
    nodes: Seq<NodeView>,
    p: Seq<char>,
)
    ensures
        entry_or_unknown(nodes_into(base, specs, nodes).0, p).mine == entry_or_unknown(base, p).mine,
        entry_or_unknown(nodes_into(base, specs, nodes).0, p).others == entry_or_unknown(
            base,
            p,
        ).others,
    decreases nodes.len(),
{
    if nodes.len() > 0 {
        lemma_nodes_keep_usage(base, specs, nodes.drop_last(), p);
    }
}

proof fn lemma_specs_zero(specs: Seq<PartitionSpecView>, p: Seq<char>)
    ensures
        entry_or_unknown(specs_map(specs), p).mine == zero_usage(),
        entry_or_unknown(specs_map(specs), p).others == zero_usage(),
    decreases specs.len(),
{
    if specs.len() > 0 {
        lemma_specs_zero(specs.drop_last(), p);
    }
}

/// The split of a partition's usage: its "mine" usage counts each of the
/// current user's jobs that names the partition exactly once, and its
/// "others" usage each other user's such job; every partition a job names
/// is listed.
pub proof fn lemma_usage_split(
    specs: Seq<PartitionSpecView>,
    nodes: Seq<NodeView>,
    jobs: Seq<JobView>,
    p: Seq<char>,
)
    ensures
        ({
            let m = partitions_of(specs, nodes, jobs).0;
            &&& m.dom().contains(p) ==> m[p].mine == jobs_usage(jobs, p, true)
            &&& m.dom().contains(p) ==> m[p].others == jobs_usage(jobs, p, false)
            &&& (exists|k: int| 0 <= k < jobs.len() && (#[trigger] jobs[k]).partitions.contains(p))
                ==> m.dom().contains(p)
        }),
{
    let a = nodes_into(specs_map(specs), specs, nodes).0;
    lemma_specs_zero(specs, p);
    lemma_nodes_keep_usage(specs_map(specs), specs, nodes, p);
    lemma_jobs_into_entry(a, jobs, p);
}


/// How many of `nodes` belong to `p`.
pub open spec fn nodes_on(nodes: Seq<NodeView>, p: Seq<char>) -> nat
    decreases nodes.len(),
{
    if nodes.len() == 0 {
        0
    } else {
        nodes_on(nodes.drop_last(), p) + if nodes.last().partition == p {
            1nat
        } else {
            0nat
        }
    }
}

/// How many of `nodes` belong to `p` and are in state `st`.
pub open spec fn nodes_in_state(nodes: Seq<NodeView>, p: Seq<char>, st: Seq<char>) -> nat
    decreases nodes.len(),
{
    if nodes.len() == 0 {
        0
    } else {
        nodes_in_state(nodes.drop_last(), p, st) + if nodes.last().partition == p
            && nodes.last().state == st {
            1nat
        } else {
            0nat
        }
    }
}

/// The CPUs, memory and GPUs of the nodes of `p`, a missing figure
/// counting 0; and whether any of them reports GPUs.
pub open spec fn node_sums(nodes: Seq<NodeView>, p: Seq<char>) -> (nat, nat, nat, bool)
    decreases nodes.len(),
{
    if nodes.len() == 0 {
        (0, 0, 0, false)
    } else {
        let r = node_sums(nodes.drop_last(), p);
        let n = nodes.last();
        if n.partition == p {
            (
                r.0 + opt_u32_or_zero(n.cpus),
                r.1 + opt_u64_or_zero(n.memory_mb),
                r.2 + opt_u32_or_zero(n.gpus),
                r.3 || n.gpus is Some,
            )
        } else {
            r
        }
    }
}

/// Two entries that agree on everything but the usage.
pub open spec fn same_shape(a: PartitionView, b: PartitionView) -> bool {
    &&& a.name == b.name
    &&& a.state == b.state
    &&& a.total_nodes == b.total_nodes
    &&& a.total_cpus == b.total_cpus
    &&& a.total_mem_mb == b.total_mem_mb
    &&& a.total_gpus == b.total_gpus
    &&& a.node_state_counts == b.node_state_counts
}

proof fn lemma_specs_map_entries(specs: Seq<PartitionSpecView>, p: Seq<char>)
    ensures
        specs_map(specs).dom().contains(p) <==> named_by_spec(specs, p),
        entry_or_unknown(specs_map(specs), p).name == p,
        entry_or_unknown(specs_map(specs), p).node_state_counts == Map::<Seq<char>, u32>::empty(),
    decreases specs.len(),
{
    if specs.len() > 0 {
        lemma_specs_map_entries(specs.drop_last(), p);
        let n = specs.len() - 1;
        if named_by_spec(specs, p) && specs.last().name != p {
            let i = choose|i: int| 0 <= i < specs.len() && specs[i].name == p;
            assert(specs.drop_last()[i].name == p);
        }
        if named_by_spec(specs.drop_last(), p) {
            let i = choose|i: int| 0 <= i < specs.drop_last().len() && specs.drop_last()[i].name == p;
            assert(specs[i].name == p);
        }
        if specs.last().name == p {
            assert(specs[n].name == p);
        }
    }
}

proof fn lemma_nodes_into_entries(
    base: Map<Seq<char>, PartitionView>,
    specs: Seq<PartitionSpecView>,
    nodes: Seq<NodeView>,
    p: Seq<char>,
    st: Seq<char>,
)
    requires
        nodes_into(base, specs, nodes).1,
        entry_or_unknown(base, p).name == p,
        !named_by_spec(specs, p) ==> !base.dom().contains(p),
    ensures
        ({
            let m = nodes_into(base, specs, nodes).0;
            let e = entry_or_unknown(m, p);
            let e0 = entry_or_unknown(base, p);
            &&& m.dom().contains(p) <==> (base.dom().contains(p) || nodes_on(nodes, p) > 0)
            &&& e.name == p
            &&& count_or_zero(e.node_state_counts, st) == count_or_zero(e0.node_state_counts, st)
                + nodes_in_state(nodes, p, st)
            &&& !named_by_spec(specs, p) ==> {
                &&& e.total_nodes == nodes_on(nodes, p)
                &&& e.state == if nodes_on(nodes, p) > 0 { "UP"@ } else { "UNKNOWN"@ }
                &&& (e.total_cpus is Some <==> nodes_on(nodes, p) > 0)
                &&& opt_u64_or_zero(e.total_cpus) == node_sums(nodes, p).0
                &&& (e.total_mem_mb is Some <==> nodes_on(nodes, p) > 0)
                &&& opt_u64_or_zero(e.total_mem_mb) == node_sums(nodes, p).1
                &&& (e.total_gpus is Some <==> node_sums(nodes, p).3)
                &&& opt_u64_or_zero(e.total_gpus) == node_sums(nodes, p).2
            }
        }),
    decreases nodes.len(),
{
    if nodes.len() > 0 {
        let rest = nodes.drop_last();
        lemma_nodes_into_entries(base, specs, rest, p, st);
        let r = nodes_into(base, specs, rest);
        let n = nodes.last();
        if n.partition == p {
            let e = entry_or_unknown(r.0, p);
            let step = count_node(e, n, !named_by_spec(specs, p));
            assert(step.1);
            assert(nodes_into(base, specs, nodes).0 == r.0.insert(p, step.0));
        }
    }
}

proof fn lemma_job_into_shape(
    m: Map<Seq<char>, PartitionView>,
    targets: Seq<Seq<char>>,
    j: JobView,
    p: Seq<char>,
)
    ensures
        same_shape(entry_or_unknown(job_into(m, targets, j).0, p), entry_or_unknown(m, p)),
        job_into(m, targets, j).0.dom().contains(p) <==> (m.dom().contains(p) || targets.contains(p)),
    decreases targets.len(),
{
    if targets.len() > 0 {
        let t = targets.drop_last();
        lemma_job_into_shape(m, t, j, p);
        if targets.contains(p) && targets.last() != p {
            let i = choose|i: int| 0 <= i < targets.len() && targets[i] == p;
            assert(t[i] == p);
        }
        if t.contains(p) {
            let i = choose|i: int| 0 <= i < t.len() && t[i] == p;
            assert(targets[i] == p);
        }
        if targets.last() == p {
            assert(targets[targets.len() - 1] == p);
        }
    }
}

proof fn lemma_jobs_into_shape(m: Map<Seq<char>, PartitionView>, jobs: Seq<JobView>, p: Seq<char>)
    ensures
        same_shape(entry_or_unknown(jobs_into(m, jobs).0, p), entry_or_unknown(m, p)),
        jobs_into(m, jobs).0.dom().contains(p) <==> (m.dom().contains(p) || exists|k: int|
            0 <= k < jobs.len() && (#[trigger] jobs[k]).partitions.contains(p)),
    decreases jobs.len(),
{
    if jobs.len() > 0 {
        let rest = jobs.drop_last();
        lemma_jobs_into_shape(m, rest, p);
        let r = jobs_into(m, rest);
        let j = jobs.last();
        lemma_distinct(j.partitions);
        lemma_job_into_shape(r.0, distinct(j.partitions), j, p);
        if exists|k: int| 0 <= k < jobs.len() && (#[trigger] jobs[k]).partitions.contains(p) {
            let k = choose|k: int| 0 <= k < jobs.len() && (#[trigger] jobs[k]).partitions.contains(p);
            if k < jobs.len() - 1 {
                assert(rest[k] == jobs[k]);
            }
        }
        if exists|k: int| 0 <= k < rest.len() && (#[trigger] rest[k]).partitions.contains(p) {
            let k = choose|k: int| 0 <= k < rest.len() && (#[trigger] rest[k]).partitions.contains(p);
            assert(jobs[k] == rest[k]);
        }
        if j.partitions.contains(p) {
            assert(jobs[jobs.len() - 1] == j);
        }
    }
}

/// What the partition listing holds: one entry for each partition that a
/// spec describes, a node belongs to or a job names, and no other, each
/// under its own name; each entry counts, for every node state, exactly
/// the partition's nodes in that state; and a partition no spec describes
/// takes its totals from its nodes (their number, CPUs, memory, and GPUs
/// when some node reports them), is `UP` when it has nodes and stays
/// `UNKNOWN` with no totals when it has none.
pub proof fn lemma_partition_listing(
    specs: Seq<PartitionSpecView>,
    nodes: Seq<NodeView>,
    jobs: Seq<JobView>,
    p: Seq<char>,
    st: Seq<char>,
)
    requires
        partitions_of(specs, nodes, jobs).1,
    ensures
        ({
            let m = partitions_of(specs, nodes, jobs).0;
            &&& m.dom().contains(p) <==> (named_by_spec(specs, p) || nodes_on(nodes, p) > 0
                || exists|k: int| 0 <= k < jobs.len() && (#[trigger] jobs[k]).partitions.contains(p))
            &&& m.dom().contains(p) ==> m[p].name == p
            &&& m.dom().contains(p) ==> count_or_zero(m[p].node_state_counts, st) == nodes_in_state(
                nodes,
                p,
                st,
            )
            &&& m.dom().contains(p) && !named_by_spec(specs, p) ==> {
                &&& m[p].total_nodes == nodes_on(nodes, p)
                &&& m[p].state == if nodes_on(nodes, p) > 0 { "UP"@ } else { "UNKNOWN"@ }
                &&& (m[p].total_cpus is Some <==> nodes_on(nodes, p) > 0)
                &&& opt_u64_or_zero(m[p].total_cpus) == node_sums(nodes, p).0
                &&& (m[p].total_mem_mb is Some <==> nodes_on(nodes, p) > 0)
                &&& opt_u64_or_zero(m[p].total_mem_mb) == node_sums(nodes, p).1
                &&& (m[p].total_gpus is Some <==> node_sums(nodes, p).3)
                &&& opt_u64_or_zero(m[p].total_gpus) == node_sums(nodes, p).2
            }
        }),
{
    let base = specs_map(specs);
    lemma_specs_map_entries(specs, p);
    lemma_nodes_into_entries(base, specs, nodes, p, st);
    let a = nodes_into(base, specs, nodes).0;
    lemma_jobs_into_shape(a, jobs, p);
}

/// The usage of `u`'s active jobs, and of those among them whose primary
/// partition is `p`; with whether `u` has any active job, and any in `p`.
pub open spec fn user_usage_of(jobs: Seq<JobView>, u: Seq<char>, p: Seq<char>) -> (Usage, Usage, bool, bool)
    decreases jobs.len(),
{
    if jobs.len() == 0 {
        (zero_usage(), zero_usage(), false, false)
    } else {
        let r = user_usage_of(jobs.drop_last(), u, p);
        let j = jobs.last();
        if j.active && j.user == u {
            let here = primary_partition_of(j) == p;
            (
                observe_job(r.0, j),
                if here { observe_job(r.1, j) } else { r.1 },
                true,
                r.3 || here,
            )
        } else {
            r
        }
    }
}

/// What the per-user listing holds: one entry for each user with an active
/// job and no other, under the user's name and marked as the current user
/// exactly when it is; its totals count every active job of that user once
/// (finished jobs count nowhere), and its usage of a partition counts those
/// of the user's active jobs whose primary partition it is, with an entry
/// for each such partition and no other.
pub proof fn lemma_user_listing(jobs: Seq<JobView>, me: Seq<char>, u: Seq<char>, p: Seq<char>)
    ensures
        ({
            let m = users_of(jobs, me).0;
            let c = user_usage_of(jobs, u, p);
            &&& m.dom().contains(u) <==> c.2
            &&& m.dom().contains(u) ==> {
                &&& m[u].user == u
                &&& m[u].is_current_user == (u == me)
                &&& m[u].jobs == c.0
                &&& (m[u].partitions.dom().contains(p) <==> c.3)
                &&& m[u].partitions.dom().contains(p) ==> m[u].partitions[p] == c.1
            }
            &&& !c.2 ==> c.0 == zero_usage()
            &&& !c.3 ==> c.1 == zero_usage()
            &&& c.3 ==> c.2
        }),
    decreases jobs.len(),
{
    if jobs.len() > 0 {
        lemma_user_listing(jobs.drop_last(), me, u, p);
        let r = users_of(jobs.drop_last(), me);
        let j = jobs.last();
        if j.active {
            let st = user_step(r.0, j, me);
            assert(users_of(jobs, me).0 == st.0);
            if j.user == u {
                let e = match mget(r.0, j.user) {
                    Some(e) => e,
                    None => fresh_user(j.user, me),
                };
                assert(st.0[u].partitions == e.partitions.insert(
                    primary_partition_of(j),
                    observe_job(
                        match mget(e.partitions, primary_partition_of(j)) {
                            Some(x) => x,
                            None => zero_usage(),
                        },
                        j,
                    ),
                ));
            }
        }
    }
}

/// The sum of `w` over `jobs`.
pub open spec fn sum_jobs(jobs: Seq<JobView>, w: spec_fn(JobView) -> nat) -> nat
    decreases jobs.len(),
{
    if jobs.len() == 0 {
        0
    } else {
        sum_jobs(jobs.drop_last(), w) + w(jobs.last())
    }
}

/// The CPUs a job asks for, 0 when unknown.
pub open spec fn job_cpus(j: JobView) -> nat {
    match j.cpus {
        Some(c) => c as nat,
        None => 0,
    }
}

/// The GPUs a job asks for, 0 when unknown.
pub open spec fn job_gpus(j: JobView) -> nat {
    match j.requested_gpus {
        Some(g) => g as nat,
        None => 0,
    }
}

/// The usage of the jobs that `keep` selects, each counter a sum of its
/// own: every running job adds one job, its nodes, its CPUs and its GPUs to
/// the running counters, and every pending job the same to the pending
/// counters.
pub open spec fn usage_sums(jobs: Seq<JobView>, keep: spec_fn(JobView) -> bool) -> Usage {
    Usage {
        running_jobs: sum_jobs(jobs, |j: JobView| if keep(j) && j.running { 1nat } else { 0nat }),
        running_nodes: sum_jobs(jobs, |j: JobView| if keep(j) && j.running { j.nodes as nat } else { 0nat }),
        running_cpus: sum_jobs(jobs, |j: JobView| if keep(j) && j.running { job_cpus(j) } else { 0nat }),
        running_gpus: sum_jobs(jobs, |j: JobView| if keep(j) && j.running { job_gpus(j) } else { 0nat }),
        pending_jobs: sum_jobs(jobs, |j: JobView| if keep(j) && j.pending { 1nat } else { 0nat }),
        pending_nodes: sum_jobs(jobs, |j: JobView| if keep(j) && j.pending { j.nodes as nat } else { 0nat }),
        pending_cpus: sum_jobs(jobs, |j: JobView| if keep(j) && j.pending { job_cpus(j) } else { 0nat }),
        pending_gpus: sum_jobs(jobs, |j: JobView| if keep(j) && j.pending { job_gpus(j) } else { 0nat }),
    }
}

/// Adding one job to the sums.
proof fn lemma_usage_sums_step(jobs: Seq<JobView>, keep: spec_fn(JobView) -> bool)
    requires
        jobs.len() > 0,
    ensures
        ({
            let a = usage_sums(jobs.drop_last(), keep);
            let b = usage_sums(jobs, keep);
            let j = jobs.last();
            &&& b.running_jobs == a.running_jobs + if keep(j) && j.running { 1nat } else { 0nat }
            &&& b.running_nodes == a.running_nodes + if keep(j) && j.running { j.nodes as nat } else { 0nat }
            &&& b.running_cpus == a.running_cpus + if keep(j) && j.running { job_cpus(j) } else { 0nat }
            &&& b.running_gpus == a.running_gpus + if keep(j) && j.running { job_gpus(j) } else { 0nat }
            &&& b.pending_jobs == a.pending_jobs + if keep(j) && j.pending { 1nat } else { 0nat }
            &&& b.pending_nodes == a.pending_nodes + if keep(j) && j.pending { j.nodes as nat } else { 0nat }
            &&& b.pending_cpus == a.pending_cpus + if keep(j) && j.pending { job_cpus(j) } else { 0nat }
            &&& b.pending_gpus == a.pending_gpus + if keep(j) && j.pending { job_gpus(j) } else { 0nat }
        }),
{
}

/// The selection of the jobs owned (or not) by the current user that name
/// partition `p`.
pub open spec fn owned_in(p: Seq<char>, mine: bool) -> spec_fn(JobView) -> bool {
    |j: JobView| j.is_mine == mine && j.partitions.contains(p)
}

proof fn lemma_usage_after_sums(jobs: Seq<JobView>, p: Seq<char>, mine: bool)
    ensures
        usage_after(zero_usage(), jobs, p, mine) == usage_sums(jobs, owned_in(p, mine)),
    decreases jobs.len(),
{
    if jobs.len() > 0 {
        lemma_usage_after_sums(jobs.drop_last(), p, mine);
        lemma_usage_sums_step(jobs, owned_in(p, mine));
    }
}

/// What a partition's usage counts: for the current user's jobs and for
/// everyone else's, each counter is the sum over the jobs that name the
/// partition (each job once): running jobs add one job, their nodes, CPUs
/// and requested GPUs to the running counters, pending jobs the same to the
/// pending counters.
pub proof fn lemma_partition_usage_sums(
    specs: Seq<PartitionSpecView>,
    nodes: Seq<NodeView>,
    jobs: Seq<JobView>,
    p: Seq<char>,
)
    ensures
        ({
            let m = partitions_of(specs, nodes, jobs).0;
            m.dom().contains(p) ==> {
                &&& m[p].mine == usage_sums(jobs, owned_in(p, true))
                &&& m[p].others == usage_sums(jobs, owned_in(p, false))
            }
        }),
{
    lemma_usage_split(specs, nodes, jobs, p);
    lemma_usage_after_sums(jobs, p, true);
    lemma_usage_after_sums(jobs, p, false);
}

/// The partition a job counts under in the per-user breakdown: the first
/// partition it lists, or its raw partition text when it lists none.
pub open spec fn first_partition(j: JobView) -> Seq<char> {
    if j.partitions.len() > 0 {
        j.partitions[0]
    } else {
        j.partition_raw
    }
}

/// The active jobs of user `u`.
pub open spec fn active_of(u: Seq<char>) -> spec_fn(JobView) -> bool {
    |j: JobView| j.active && j.user == u
}

/// The active jobs of user `u` that count under partition `p`.
pub open spec fn active_of_in(u: Seq<char>, p: Seq<char>) -> spec_fn(JobView) -> bool {
    |j: JobView| j.active && j.user == u && first_partition(j) == p
}

proof fn lemma_user_usage_sums(jobs: Seq<JobView>, u: Seq<char>, p: Seq<char>)
    ensures
        user_usage_of(jobs, u, p).0 == usage_sums(jobs, active_of(u)),
        user_usage_of(jobs, u, p).1 == usage_sums(jobs, active_of_in(u, p)),
        user_usage_of(jobs, u, p).2 <==> exists|k: int| 0 <= k < jobs.len() && active_of(u)(jobs[k]),
        user_usage_of(jobs, u, p).3 <==> exists|k: int| 0 <= k < jobs.len() && active_of_in(u, p)(jobs[k]),
    decreases jobs.len(),
{
    if jobs.len() > 0 {
        let rest = jobs.drop_last();
        lemma_user_usage_sums(rest, u, p);
        lemma_usage_sums_step(jobs, active_of(u));
        lemma_usage_sums_step(jobs, active_of_in(u, p));
        let n = jobs.len() - 1;
        assert(jobs[n] == jobs.last());
        if exists|k: int| 0 <= k < jobs.len() && active_of(u)(jobs[k]) {
            let k = choose|k: int| 0 <= k < jobs.len() && active_of(u)(jobs[k]);
            if k < n {
                assert(rest[k] == jobs[k]);
            }
        }
        if exists|k: int| 0 <= k < rest.len() && active_of(u)(rest[k]) {
            let k = choose|k: int| 0 <= k < rest.len() && active_of(u)(rest[k]);
            assert(jobs[k] == rest[k]);
        }
        if exists|k: int| 0 <= k < jobs.len() && active_of_in(u, p)(jobs[k]) {
            let k = choose|k: int| 0 <= k < jobs.len() && active_of_in(u, p)(jobs[k]);
            if k < n {
                assert(rest[k] == jobs[k]);
            }
        }
        if exists|k: int| 0 <= k < rest.len() && active_of_in(u, p)(rest[k]) {
            let k = choose|k: int| 0 <= k < rest.len() && active_of_in(u, p)(rest[k]);
            assert(jobs[k] == rest[k]);
        }
    }
}

/// What a user's usage counts: the user is listed exactly when some job of
/// theirs is active; their totals sum over their active jobs (running jobs
/// add one job, their nodes, CPUs and GPUs to the running counters, pending
/// jobs to the pending ones); and each active job counts under the first
/// partition it lists (its raw partition text when it lists none), so the
/// user's breakdown has an entry for exactly those partitions, each summing
/// the user's active jobs counted there.
pub proof fn lemma_user_usage_law(jobs: Seq<JobView>, me: Seq<char>, u: Seq<char>, p: Seq<char>)
    ensures
        ({
            let m = users_of(jobs, me).0;
            &&& m.dom().contains(u) <==> exists|k: int| 0 <= k < jobs.len() && jobs[k].active && jobs[k].user == u
            &&& m.dom().contains(u) ==> {
                &&& m[u].jobs == usage_sums(jobs, active_of(u))
                &&& (m[u].partitions.dom().contains(p) <==> exists|k: int|
                    0 <= k < jobs.len() && jobs[k].active && jobs[k].user == u && first_partition(jobs[k]) == p)
                &&& m[u].partitions.dom().contains(p) ==> m[u].partitions[p] == usage_sums(
                    jobs,
                    active_of_in(u, p),
                )
            }
        }),
{
    lemma_user_listing(jobs, me, u, p);
    lemma_user_usage_sums(jobs, u, p);
}
} // verus!



