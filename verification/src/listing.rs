//! The rows a job table shows: the jobs that pass the page's filters and
//! the search, in the order of the chosen column.
use vstd::prelude::*;

use crate::app::{
    history_filter_matches, job_filter_matches, job_id_key, job_id_number, state_rank,
    state_sort_key, HistoryFilter, HistorySort, JobColumn, JobFilter, JobSortState, SortDirection,
    OverviewColumn, OverviewSortState, UserColumn, UserSortState,
};
use crate::model::types::{
    add_usage, capacity_of, node_state_summary_of, pending_of, running_of, usage_fits,
    used_for_pressure_of, MetricMode, PartitionOverview, PartitionView,
};
use crate::model::users::{ranking_of, top_summary, user_views, UserUsage, UserView};
use crate::model::types::{
    history_views, job_views, node_views, opt_u32, opt_view, partition_views, HistoryRecord, HistoryView, JobRecord, JobView, NodeRecord, NodeView,
};
use crate::order::{
    lemma_insert_sorted, lemma_order_nat, lemma_order_opt, lemma_order_opt_str, lemma_order_str,
    lemma_sorted_unique, lemma_then_by, order_nat, order_opt, order_opt_str, order_str, preorder3,
    sorted_by, strict_order, then_by,
};
use crate::strmap::{lex_lt, lex_lt_exec};
use crate::text::{
    append_str, ascii_lower, ascii_lower_exec, chars_of, contains_exec, contains_sub, eq_chars,
    eq_str,
};

verus! {

/// What a job table is asked to show.
#[derive(Debug, Clone)]
pub struct JobListQuery {
    /// The page shows only the current user's jobs.
    pub mine_only_page: bool,
    /// The "only mine" toggle is on.
    pub global_mine_only: bool,
    /// The partition the view is pinned to, if any.
    pub pinned_partition: Option<String>,
    /// The partition whose page the table is on, if any.
    pub page_partition: Option<String>,
    /// The user whose jobs the table shows, if only one user's.
    pub page_user: Option<String>,
    pub filter: JobFilter,
    /// The search text, as typed.
    pub query: String,
    pub sort: JobSortState,
}

/// The comparison of two jobs by one column.
pub open spec fn column_order(col: JobColumn, a: JobView, b: JobView) -> int {
    match col {
        JobColumn::Runtime => order_opt(a.runtime_secs, b.runtime_secs),
        JobColumn::TimeLimit => order_opt(a.time_limit_secs, b.time_limit_secs),
        JobColumn::Priority => order_opt(a.priority, b.priority),
        JobColumn::Partition => order_str(a.partition_raw, b.partition_raw),
        JobColumn::State => then_by(
            order_nat(state_rank(a.state) as nat, state_rank(b.state) as nat),
            order_str(a.state, b.state),
        ),
        JobColumn::JobId => then_by(
            order_nat(job_id_number(a.job_id), job_id_number(b.job_id)),
            order_str(a.job_id, b.job_id),
        ),
        JobColumn::User => order_str(a.user, b.user),
        JobColumn::Name => order_str(a.name, b.name),
        JobColumn::Nodes => order_nat(a.nodes as nat, b.nodes as nat),
        JobColumn::Cpus => order_nat(opt_u32(a.cpus), opt_u32(b.cpus)),
        JobColumn::WhereWhy => order_str(a.location_or_reason, b.location_or_reason),
    }
}

/// A comparison turned around for a descending sort.
pub open spec fn directed(c: int, d: SortDirection) -> int {
    match d {
        SortDirection::Asc => c,
        SortDirection::Desc => -c,
    }
}

/// The comparison of two jobs in a table: by the sorted column in its
/// direction, then by job id.
pub open spec fn job_order(sort: JobSortState, a: JobView, b: JobView) -> int {
    then_by(directed(column_order(sort.column, a, b), sort.direction), order_str(a.job_id, b.job_id))
}

proof fn lemma_column_order(col: JobColumn, a: JobView, b: JobView, c: JobView)
    ensures
        preorder3(
            column_order(col, a, b),
            column_order(col, b, a),
            column_order(col, b, c),
            column_order(col, a, c),
        ),
        column_order(col, a, a) == 0,
{
    lemma_order_opt(a.runtime_secs, b.runtime_secs, c.runtime_secs);
    lemma_order_opt(a.runtime_secs, a.runtime_secs, a.runtime_secs);
    lemma_order_opt(a.time_limit_secs, b.time_limit_secs, c.time_limit_secs);
    lemma_order_opt(a.time_limit_secs, a.time_limit_secs, a.time_limit_secs);
    lemma_order_opt(a.priority, b.priority, c.priority);
    lemma_order_opt(a.priority, a.priority, a.priority);
    lemma_order_str(a.partition_raw, b.partition_raw, c.partition_raw);
    lemma_order_str(a.partition_raw, a.partition_raw, a.partition_raw);
    lemma_order_str(a.user, b.user, c.user);
    lemma_order_str(a.user, a.user, a.user);
    lemma_order_str(a.name, b.name, c.name);
    lemma_order_str(a.name, a.name, a.name);
    lemma_order_str(a.location_or_reason, b.location_or_reason, c.location_or_reason);
    lemma_order_str(a.location_or_reason, a.location_or_reason, a.location_or_reason);
    lemma_order_nat(a.nodes as nat, b.nodes as nat, c.nodes as nat);
    lemma_order_nat(opt_u32(a.cpus), opt_u32(b.cpus), opt_u32(c.cpus));
    lemma_order_str(a.state, b.state, c.state);
    lemma_order_str(a.state, a.state, a.state);
    lemma_order_nat(state_rank(a.state) as nat, state_rank(b.state) as nat, state_rank(c.state) as nat);
    lemma_then_by(
        order_nat(state_rank(a.state) as nat, state_rank(b.state) as nat),
        order_nat(state_rank(b.state) as nat, state_rank(a.state) as nat),
        order_nat(state_rank(b.state) as nat, state_rank(c.state) as nat),
        order_nat(state_rank(a.state) as nat, state_rank(c.state) as nat),
        order_str(a.state, b.state),
        order_str(b.state, a.state),
        order_str(b.state, c.state),
        order_str(a.state, c.state),
    );
    lemma_order_str(a.job_id, b.job_id, c.job_id);
    lemma_order_str(a.job_id, a.job_id, a.job_id);
    lemma_order_nat(job_id_number(a.job_id), job_id_number(b.job_id), job_id_number(c.job_id));
    lemma_then_by(
        order_nat(job_id_number(a.job_id), job_id_number(b.job_id)),
        order_nat(job_id_number(b.job_id), job_id_number(a.job_id)),
        order_nat(job_id_number(b.job_id), job_id_number(c.job_id)),
        order_nat(job_id_number(a.job_id), job_id_number(c.job_id)),
        order_str(a.job_id, b.job_id),
        order_str(b.job_id, a.job_id),
        order_str(b.job_id, c.job_id),
        order_str(a.job_id, c.job_id),
    );
}

/// The table order of jobs is a total preorder, and a job ties with
/// itself.
pub proof fn lemma_job_order(sort: JobSortState, a: JobView, b: JobView, c: JobView)
    ensures
        preorder3(
            job_order(sort, a, b),
            job_order(sort, b, a),
            job_order(sort, b, c),
            job_order(sort, a, c),
        ),
        job_order(sort, a, a) == 0,
{
    let col = sort.column;
    lemma_column_order(col, a, b, c);
    lemma_column_order(col, c, b, a);
    lemma_column_order(col, a, c, b);
    lemma_column_order(col, b, c, a);
    lemma_column_order(col, c, a, b);
    lemma_column_order(col, b, a, c);
    lemma_column_order(col, a, a, a);
    lemma_order_str(a.job_id, b.job_id, c.job_id);
    lemma_order_str(a.job_id, a.job_id, a.job_id);
    lemma_then_by(
        directed(column_order(col, a, b), sort.direction),
        directed(column_order(col, b, a), sort.direction),
        directed(column_order(col, b, c), sort.direction),
        directed(column_order(col, a, c), sort.direction),
        order_str(a.job_id, b.job_id),
        order_str(b.job_id, a.job_id),
        order_str(b.job_id, c.job_id),
        order_str(a.job_id, c.job_id),
    );
}

/// Row `i` comes before row `j`: its job sorts first, or the two tie and
/// `i` came first in the input.
pub open spec fn listed_before(jobs: Seq<JobView>, sort: JobSortState, i: nat, j: nat) -> bool {
    job_order(sort, jobs[i as int], jobs[j as int]) < 0 || (job_order(
        sort,
        jobs[i as int],
        jobs[j as int],
    ) == 0 && i < j)
}

pub open spec fn row_order(jobs: Seq<JobView>, sort: JobSortState) -> spec_fn(nat, nat) -> bool {
    |i: nat, j: nat| listed_before(jobs, sort, i, j)
}

pub proof fn lemma_row_order_strict(jobs: Seq<JobView>, sort: JobSortState)
    ensures
        strict_order(row_order(jobs, sort)),
{
    let before = row_order(jobs, sort);
    assert forall|a: nat| !#[trigger] before(a, a) by {
        lemma_job_order(sort, jobs[a as int], jobs[a as int], jobs[a as int]);
    }
    assert forall|a: nat, b: nat, c: nat| #[trigger] before(a, b) && #[trigger] before(b, c) implies before(
        a,
        c,
    ) by {
        lemma_job_order(sort, jobs[a as int], jobs[b as int], jobs[c as int]);
    }
}

/// Whether a job passes the table's filters and the search: the search
/// text, lowercased, must occur in the lowercased id, user, partition,
/// name, state or placement.
pub open spec fn job_listed(j: JobView, q: JobListQuery) -> bool {
    let needle = ascii_lower(q.query@);
    &&& !q.mine_only_page || j.is_mine
    &&& !q.global_mine_only || j.is_mine
    &&& match q.pinned_partition {
        Some(p) => j.partitions.contains(p@),
        None => true,
    }
    &&& match q.page_partition {
        Some(p) => j.partitions.contains(p@),
        None => true,
    }
    &&& match q.page_user {
        Some(u) => j.user == u@,
        None => true,
    }
    &&& job_filter_matches(q.filter, j.active, j.running, j.pending)
    &&& (needle.len() == 0 || contains_sub(ascii_lower(j.job_id), needle) || contains_sub(
        ascii_lower(j.user),
        needle,
    ) || contains_sub(ascii_lower(j.partition_raw), needle) || contains_sub(
        ascii_lower(j.name),
        needle,
    ) || contains_sub(ascii_lower(j.state), needle) || contains_sub(
        ascii_lower(j.location_or_reason),
        needle,
    ))
}

pub open spec fn index_view(v: Seq<usize>) -> Seq<nat> {
    v.map_values(|i: usize| i as nat)
}

/// `r` lists, in table order and once each, the positions of the jobs
/// that pass the query.
pub open spec fn is_job_listing(r: Seq<nat>, jobs: Seq<JobView>, q: JobListQuery) -> bool {
    &&& sorted_by(r, row_order(jobs, q.sort))
    &&& forall|x: nat| r.contains(x) <==> (x < jobs.len() && job_listed(jobs[x as int], q))
}

/// Two listings of the same jobs under the same query are the same.
pub proof fn lemma_job_listing_unique(r1: Seq<nat>, r2: Seq<nat>, jobs: Seq<JobView>, q: JobListQuery)
    requires
        is_job_listing(r1, jobs, q),
        is_job_listing(r2, jobs, q),
    ensures
        r1 == r2,
{
    lemma_row_order_strict(jobs, q.sort);
    lemma_sorted_unique(r1, r2, row_order(jobs, q.sort));
}

fn order_u64(a: u64, b: u64) -> (r: i8)
    ensures
        r as int == order_nat(a as nat, b as nat),
{
    if a < b {
        -1
    } else if a > b {
        1
    } else {
        0
    }
}

fn order_opt_exec(a: Option<u64>, b: Option<u64>) -> (r: i8)
    ensures
        r as int == order_opt(a, b),
{
    match a {
        None => match b {
            None => 0,
            Some(_) => -1,
        },
        Some(x) => match b {
            None => 1,
            Some(y) => order_u64(x, y),
        },
    }
}

fn order_text(a: &str, b: &str) -> (r: i8)
    ensures
        r as int == order_str(a@, b@),
{
    let x = chars_of(a);
    let y = chars_of(b);
    if eq_chars(&x, &y) {
        0
    } else if lex_lt_exec(&x, &y) {
        -1
    } else {
        1
    }
}

fn then_exec(c: i8, d: i8) -> (r: i8)
    ensures
        r as int == then_by(c as int, d as int),
{
    if c != 0 {
        c
    } else {
        d
    }
}

fn column_order_exec(col: JobColumn, a: &JobRecord, b: &JobRecord) -> (r: i8)
    ensures
        r as int == column_order(col, a@, b@),
{
    match col {
        JobColumn::Runtime => order_opt_exec(a.runtime_secs, b.runtime_secs),
        JobColumn::TimeLimit => order_opt_exec(a.time_limit_secs, b.time_limit_secs),
        JobColumn::Priority => order_opt_exec(a.priority, b.priority),
        JobColumn::Partition => order_text(a.partition_raw.as_str(), b.partition_raw.as_str()),
        JobColumn::State => {
            let ka = state_sort_key(a.state.as_str());
            let kb = state_sort_key(b.state.as_str());
            then_exec(order_u64(ka.0 as u64, kb.0 as u64), order_text(ka.1, kb.1))
        },
        JobColumn::JobId => {
            let ka = job_id_key(a.job_id.as_str());
            let kb = job_id_key(b.job_id.as_str());
            then_exec(order_u64(ka.0, kb.0), order_text(ka.1, kb.1))
        },
        JobColumn::User => order_text(a.user.as_str(), b.user.as_str()),
        JobColumn::Name => order_text(a.name.as_str(), b.name.as_str()),
        JobColumn::Nodes => order_u64(a.nodes as u64, b.nodes as u64),
        JobColumn::Cpus => order_u64(
            match a.cpus {
                Some(c) => c as u64,
                None => 0,
            },
            match b.cpus {
                Some(c) => c as u64,
                None => 0,
            },
        ),
        JobColumn::WhereWhy => order_text(
            a.location_or_reason.as_str(),
            b.location_or_reason.as_str(),
        ),
    }
}

/// The table order of two jobs: -1, 0 or 1.
pub fn compare_jobs(sort: JobSortState, a: &JobRecord, b: &JobRecord) -> (r: i8)
    ensures
        r as int == job_order(sort, a@, b@),
{
    let c = column_order_exec(sort.column, a, b);
    let d: i8 = match sort.direction {
        SortDirection::Asc => c,
        SortDirection::Desc => -c,
    };
    then_exec(d, order_text(a.job_id.as_str(), b.job_id.as_str()))
}

fn lowered_contains(field: &str, needle: &Vec<char>) -> (b: bool)
    ensures
        b == contains_sub(ascii_lower(field@), needle@),
{
    let v = chars_of(field);
    let l = ascii_lower_exec(&v);
    contains_exec(&l, needle)
}

fn names_partition(j: &JobRecord, p: &String) -> (b: bool)
    ensures
        b == j@.partitions.contains(p@),
{
    let pv = chars_of(p.as_str());
    let mut found = false;
    let mut k: usize = 0;
    while k < j.partitions.len()
        invariant
            k <= j.partitions@.len(),
            pv@ == p@,
            found == exists|m: int| 0 <= m < k && j.partitions@[m]@ == p@,
        decreases j.partitions@.len() - k,
    {
        let x = chars_of(j.partitions[k].as_str());
        if eq_chars(&x, &pv) {
            found = true;
        }
        k = k + 1;
    }
    proof {
        if found {
            let m = choose|m: int| 0 <= m < j.partitions@.len() && j.partitions@[m]@ == p@;
            assert(j@.partitions[m] == p@);
        }
        if j@.partitions.contains(p@) {
            let m = choose|m: int| 0 <= m < j@.partitions.len() && j@.partitions[m] == p@;
            assert(j.partitions@[m]@ == p@);
        }
    }
    found
}

fn job_listed_exec(j: &JobRecord, q: &JobListQuery, needle: &Vec<char>) -> (b: bool)
    requires
        needle@ == ascii_lower(q.query@),
    ensures
        b == job_listed(j@, *q),
{
    if q.mine_only_page && !j.is_mine {
        return false;
    }
    if q.global_mine_only && !j.is_mine {
        return false;
    }
    match &q.pinned_partition {
        Some(p) => {
            if !names_partition(j, p) {
                return false;
            }
        },
        None => {},
    }
    match &q.page_partition {
        Some(p) => {
            if !names_partition(j, p) {
                return false;
            }
        },
        None => {},
    }
    match &q.page_user {
        Some(u) => {
            let a = chars_of(j.user.as_str());
            let b = chars_of(u.as_str());
            if !eq_chars(&a, &b) {
                return false;
            }
        },
        None => {},
    }
    if !q.filter.matches(j) {
        return false;
    }
    if needle.len() == 0 {
        return true;
    }
    lowered_contains(j.job_id.as_str(), needle) || lowered_contains(j.user.as_str(), needle)
        || lowered_contains(j.partition_raw.as_str(), needle) || lowered_contains(
        j.name.as_str(),
        needle,
    ) || lowered_contains(j.state.as_str(), needle) || lowered_contains(
        j.location_or_reason.as_str(),
        needle,
    )
}

/// The positions of the jobs a table shows, in the order it shows them:
/// the jobs that pass the page filter, the pinned partition, the state
/// filter and the search, sorted by the chosen column and direction, then
/// by job id, ties keeping their input order.
pub fn collect_jobs(jobs: &Vec<JobRecord>, q: &JobListQuery) -> (r: Vec<usize>)
    ensures
        is_job_listing(index_view(r@), job_views(jobs@), *q),
{
    let ghost jv = job_views(jobs@);
    let ghost before = row_order(jv, q.sort);
    proof {
        lemma_row_order_strict(jv, q.sort);
    }
    let raw = chars_of(q.query.as_str());
    let needle = ascii_lower_exec(&raw);
    let mut out: Vec<usize> = Vec::new();
    let mut i: usize = 0;
    while i < jobs.len()
        invariant
            i <= jobs@.len(),
            jv == job_views(jobs@),
            before == row_order(jv, q.sort),
            strict_order(before),
            needle@ == ascii_lower(q.query@),
            sorted_by(index_view(out@), before),
            forall|k: int| 0 <= k < out@.len() ==> #[trigger] out@[k] < i,
            forall|x: nat|
                index_view(out@).contains(x) <==> (x < i && job_listed(jv[x as int], *q)),
        decreases jobs@.len() - i,
    {
        if job_listed_exec(&jobs[i], q, &needle) {
            let ghost rows = index_view(out@);
            let mut p: usize = 0;
            while p < out.len()
                invariant
                    p <= out@.len(),
                    rows == index_view(out@),
                    forall|k: int| 0 <= k < out@.len() ==> #[trigger] out@[k] < i,
                    i < jobs@.len(),
                    jv == job_views(jobs@),
                    before == row_order(jv, q.sort),
                    forall|k: int| 0 <= k < p ==> before(#[trigger] rows[k], i as nat),
                ensures
                    p <= out@.len(),
                    forall|k: int| 0 <= k < p ==> before(#[trigger] rows[k], i as nat),
                    p < out@.len() ==> before(i as nat, rows[p as int]),
                decreases out@.len() - p,
            {
                let o = out[p];
                let c = compare_jobs(q.sort, &jobs[i], &jobs[o]);
                proof {
                    lemma_job_order(q.sort, jv[i as int], jv[o as int], jv[o as int]);
                    assert(jobs@[i as int]@ == jv[i as int]);
                    assert(jobs@[o as int]@ == jv[o as int]);
                }
                if c < 0 {
                    break;
                }
                p = p + 1;
            }
            proof {
                lemma_insert_sorted(rows, i as nat, p as int, before);
            }
            out.insert(p, i);
            proof {
                let now = index_view(out@);
                assert(now =~= rows.insert(p as int, i as nat));
                assert forall|x: nat| now.contains(x) <==> (x < i + 1 && job_listed(
                    jv[x as int],
                    *q,
                )) by {
                    if now.contains(x) {
                        let k = choose|k: int| 0 <= k < now.len() && now[k] == x;
                        if k < p {
                            assert(rows[k] == x && rows.contains(x));
                        } else if k > p {
                            assert(rows[k - 1] == x && rows.contains(x));
                        }
                    }
                    if x < i + 1 && job_listed(jv[x as int], *q) {
                        if x < i {
                            assert(rows.contains(x));
                            let k = choose|k: int| 0 <= k < rows.len() && rows[k] == x;
                            if k < p {
                                assert(now[k] == x);
                            } else {
                                assert(now[k + 1] == x);
                            }
                        } else {
                            assert(now[p as int] == x);
                        }
                    }
                }
            }
        } else {
            proof {
                assert forall|x: nat| index_view(out@).contains(x) <==> (x < i + 1 && job_listed(
                    jv[x as int],
                    *q,
                )) by {
                    if x == i {
                        if index_view(out@).contains(x) {
                            let k = choose|k: int|
                                0 <= k < index_view(out@).len() && index_view(out@)[k] == x;
                            assert(out@[k] < i);
                        }
                    }
                }
            }
        }
        i = i + 1;
    }
    out
}

/// Position `i` comes before `j`: its node name sorts first, or the names
/// are equal and `i` came first.
pub open spec fn node_before(nodes: Seq<NodeView>, i: nat, j: nat) -> bool {
    lex_lt(nodes[i as int].node_name, nodes[j as int].node_name) || (nodes[i as int].node_name
        == nodes[j as int].node_name && i < j)
}

pub open spec fn node_order(nodes: Seq<NodeView>) -> spec_fn(nat, nat) -> bool {
    |i: nat, j: nat| node_before(nodes, i, j)
}

pub proof fn lemma_node_order_strict(nodes: Seq<NodeView>)
    ensures
        strict_order(node_order(nodes)),
{
    let before = node_order(nodes);
    assert forall|a: nat| !#[trigger] before(a, a) by {
        crate::strmap::lemma_lex_irreflexive(nodes[a as int].node_name);
    }
    assert forall|a: nat, b: nat, c: nat| #[trigger] before(a, b) && #[trigger] before(b, c) implies before(
        a,
        c,
    ) by {
        let x = nodes[a as int].node_name;
        let y = nodes[b as int].node_name;
        let z = nodes[c as int].node_name;
        if lex_lt(x, y) && lex_lt(y, z) {
            crate::strmap::lemma_lex_transitive(x, y, z);
        }
    }
}

/// The positions of a partition's nodes, by node name, ties keeping their
/// input order.
pub fn visible_partition_nodes(nodes: &Vec<NodeRecord>, partition: &str) -> (r: Vec<usize>)
    ensures
        sorted_by(index_view(r@), node_order(node_views(nodes@))),
        forall|x: nat|
            index_view(r@).contains(x) <==> (x < nodes@.len() && nodes@[x as int].partition@
                == partition@),
{
    let ghost nv = node_views(nodes@);
    let ghost before = node_order(nv);
    proof {
        lemma_node_order_strict(nv);
    }
    let want = chars_of(partition);
    let mut out: Vec<usize> = Vec::new();
    let mut i: usize = 0;
    while i < nodes.len()
        invariant
            i <= nodes@.len(),
            nv == node_views(nodes@),
            before == node_order(nv),
            strict_order(before),
            want@ == partition@,
            sorted_by(index_view(out@), before),
            forall|k: int| 0 <= k < out@.len() ==> #[trigger] out@[k] < i,
            forall|x: nat|
                index_view(out@).contains(x) <==> (x < i && nodes@[x as int].partition@
                    == partition@),
        decreases nodes@.len() - i,
    {
        let part = chars_of(nodes[i].partition.as_str());
        if eq_chars(&part, &want) {
            let ghost rows = index_view(out@);
            let name = chars_of(nodes[i].node_name.as_str());
            let mut p: usize = 0;
            while p < out.len()
                invariant
                    p <= out@.len(),
                    rows == index_view(out@),
                    forall|k: int| 0 <= k < out@.len() ==> #[trigger] out@[k] < i,
                    i < nodes@.len(),
                    nv == node_views(nodes@),
                    before == node_order(nv),
                    name@ == nodes@[i as int].node_name@,
                    forall|k: int| 0 <= k < p ==> before(#[trigger] rows[k], i as nat),
                ensures
                    p <= out@.len(),
                    forall|k: int| 0 <= k < p ==> before(#[trigger] rows[k], i as nat),
                    p < out@.len() ==> before(i as nat, rows[p as int]),
                decreases out@.len() - p,
            {
                let o = out[p];
                let other = chars_of(nodes[o].node_name.as_str());
                proof {
                    crate::strmap::lemma_lex_total(name@, other@);
                    if lex_lt(name@, other@) {
                        crate::strmap::lemma_lex_asymmetric(name@, other@);
                    }
                    assert(nv[i as int].node_name == name@);
                    assert(nv[o as int].node_name == other@);
                }
                if lex_lt_exec(&name, &other) {
                    break;
                }
                p = p + 1;
            }
            proof {
                lemma_insert_sorted(rows, i as nat, p as int, before);
            }
            out.insert(p, i);
            proof {
                let now = index_view(out@);
                assert(now =~= rows.insert(p as int, i as nat));
                assert forall|x: nat| now.contains(x) <==> (x < i + 1 && nodes@[x as int].partition@
                    == partition@) by {
                    if now.contains(x) {
                        let k = choose|k: int| 0 <= k < now.len() && now[k] == x;
                        if k < p {
                            assert(rows[k] == x && rows.contains(x));
                        } else if k > p {
                            assert(rows[k - 1] == x && rows.contains(x));
                        }
                    }
                    if x < i + 1 && nodes@[x as int].partition@ == partition@ {
                        if x < i {
                            assert(rows.contains(x));
                            let k = choose|k: int| 0 <= k < rows.len() && rows[k] == x;
                            if k < p {
                                assert(now[k] == x);
                            } else {
                                assert(now[k + 1] == x);
                            }
                        } else {
                            assert(now[p as int] == x);
                        }
                    }
                }
            }
        } else {
            proof {
                assert forall|x: nat| index_view(out@).contains(x) <==> (x < i + 1
                    && nodes@[x as int].partition@ == partition@) by {
                    if x == i && index_view(out@).contains(x) {
                        let k = choose|k: int|
                            0 <= k < index_view(out@).len() && index_view(out@)[k] == x;
                        assert(out@[k] < i);
                    }
                }
            }
        }
        i = i + 1;
    }
    out
}

/// What the history table is asked to show.
#[derive(Debug, Clone)]
pub struct HistoryQuery {
    pub mine_only: bool,
    pub pinned_partition: Option<String>,
    pub state_filter: HistoryFilter,
    pub query: String,
    pub sort: HistorySort,
}

/// The comparison of two history rows: latest end first, longest first,
/// or by user or partition; then by job id.
pub open spec fn history_order(sort: HistorySort, a: HistoryView, b: HistoryView) -> int {
    then_by(
        match sort {
            HistorySort::EndTime => order_opt_str(b.end, a.end),
            HistorySort::Elapsed => order_opt(b.elapsed_secs, a.elapsed_secs),
            HistorySort::User => order_str(a.user, b.user),
            HistorySort::Partition => order_opt_str(a.partition, b.partition),
        },
        order_str(a.job_id, b.job_id),
    )
}

pub proof fn lemma_history_order(sort: HistorySort, a: HistoryView, b: HistoryView, c: HistoryView)
    ensures
        preorder3(
            history_order(sort, a, b),
            history_order(sort, b, a),
            history_order(sort, b, c),
            history_order(sort, a, c),
        ),
        history_order(sort, a, a) == 0,
{
    lemma_order_opt_str(c.end, b.end, a.end);
    lemma_order_opt_str(b.end, a.end, c.end);
    lemma_order_opt_str(a.end, c.end, b.end);
    lemma_order_opt_str(b.end, c.end, a.end);
    lemma_order_opt_str(c.end, a.end, b.end);
    lemma_order_opt_str(a.end, b.end, c.end);
    lemma_order_opt(c.elapsed_secs, b.elapsed_secs, a.elapsed_secs);
    lemma_order_opt(b.elapsed_secs, a.elapsed_secs, c.elapsed_secs);
    lemma_order_opt(a.elapsed_secs, c.elapsed_secs, b.elapsed_secs);
    lemma_order_opt(b.elapsed_secs, c.elapsed_secs, a.elapsed_secs);
    lemma_order_opt(c.elapsed_secs, a.elapsed_secs, b.elapsed_secs);
    lemma_order_opt(a.elapsed_secs, b.elapsed_secs, c.elapsed_secs);
    lemma_order_str(a.user, b.user, c.user);
    lemma_order_str(a.user, a.user, a.user);
    lemma_order_opt_str(a.partition, b.partition, c.partition);
    lemma_order_str(a.job_id, b.job_id, c.job_id);
    lemma_order_str(a.job_id, a.job_id, a.job_id);
    let k = |x: HistoryView, y: HistoryView|
        match sort {
            HistorySort::EndTime => order_opt_str(y.end, x.end),
            HistorySort::Elapsed => order_opt(y.elapsed_secs, x.elapsed_secs),
            HistorySort::User => order_str(x.user, y.user),
            HistorySort::Partition => order_opt_str(x.partition, y.partition),
        };
    lemma_then_by(
        k(a, b),
        k(b, a),
        k(b, c),
        k(a, c),
        order_str(a.job_id, b.job_id),
        order_str(b.job_id, a.job_id),
        order_str(b.job_id, c.job_id),
        order_str(a.job_id, c.job_id),
    );
}

pub open spec fn history_before(rows: Seq<HistoryView>, sort: HistorySort, i: nat, j: nat) -> bool {
    history_order(sort, rows[i as int], rows[j as int]) < 0 || (history_order(
        sort,
        rows[i as int],
        rows[j as int],
    ) == 0 && i < j)
}

pub open spec fn history_row_order(rows: Seq<HistoryView>, sort: HistorySort) -> spec_fn(nat, nat) -> bool {
    |i: nat, j: nat| history_before(rows, sort, i, j)
}

pub proof fn lemma_history_row_order_strict(rows: Seq<HistoryView>, sort: HistorySort)
    ensures
        strict_order(history_row_order(rows, sort)),
{
    let before = history_row_order(rows, sort);
    assert forall|a: nat| !#[trigger] before(a, a) by {
        lemma_history_order(sort, rows[a as int], rows[a as int], rows[a as int]);
    }
    assert forall|a: nat, b: nat, c: nat| #[trigger] before(a, b) && #[trigger] before(b, c) implies before(
        a,
        c,
    ) by {
        lemma_history_order(sort, rows[a as int], rows[b as int], rows[c as int]);
    }
}

/// Whether a history row passes the page's filters and the search: the
/// search text, lowercased, must occur in the lowercased id, user, name,
/// state or partition.
pub open spec fn history_listed(h: HistoryView, q: HistoryQuery) -> bool {
    let needle = ascii_lower(q.query@);
    let part = match h.partition {
        Some(p) => p,
        None => Seq::<char>::empty(),
    };
    &&& !q.mine_only || h.is_mine
    &&& match q.pinned_partition {
        Some(p) => h.partition == Some(p@),
        None => true,
    }
    &&& history_filter_matches(q.state_filter, h.state)
    &&& (needle.len() == 0 || contains_sub(ascii_lower(h.job_id), needle) || contains_sub(
        ascii_lower(h.user),
        needle,
    ) || contains_sub(ascii_lower(h.name), needle) || contains_sub(ascii_lower(h.state), needle)
        || contains_sub(ascii_lower(part), needle))
}

fn order_opt_text(a: &Option<String>, b: &Option<String>) -> (r: i8)
    ensures
        r as int == order_opt_str(opt_view(*a), opt_view(*b)),
{
    match a {
        None => match b {
            None => 0,
            Some(_) => -1,
        },
        Some(x) => match b {
            None => 1,
            Some(y) => order_text(x.as_str(), y.as_str()),
        },
    }
}

/// The history order of two rows: -1, 0 or 1.
pub fn compare_history(sort: HistorySort, a: &HistoryRecord, b: &HistoryRecord) -> (r: i8)
    ensures
        r as int == history_order(sort, a@, b@),
{
    let c = match sort {
        HistorySort::EndTime => order_opt_text(&b.end, &a.end),
        HistorySort::Elapsed => order_opt_exec(b.elapsed_secs, a.elapsed_secs),
        HistorySort::User => order_text(a.user.as_str(), b.user.as_str()),
        HistorySort::Partition => order_opt_text(&a.partition, &b.partition),
    };
    then_exec(c, order_text(a.job_id.as_str(), b.job_id.as_str()))
}

fn history_listed_exec(h: &HistoryRecord, q: &HistoryQuery, needle: &Vec<char>) -> (b: bool)
    requires
        needle@ == ascii_lower(q.query@),
    ensures
        b == history_listed(h@, *q),
{
    if q.mine_only && !h.is_mine {
        return false;
    }
    match &q.pinned_partition {
        Some(p) => match &h.partition {
            Some(hp) => {
                let a = chars_of(hp.as_str());
                let b = chars_of(p.as_str());
                if !eq_chars(&a, &b) {
                    return false;
                }
            },
            None => {
                return false;
            },
        },
        None => {},
    }
    if !q.state_filter.matches(h) {
        return false;
    }
    if needle.len() == 0 {
        return true;
    }
    let part: &str = match &h.partition {
        Some(p) => p.as_str(),
        None => "",
    };
    proof {
        reveal_strlit("");
    }
    lowered_contains(h.job_id.as_str(), needle) || lowered_contains(h.user.as_str(), needle)
        || lowered_contains(h.name.as_str(), needle) || lowered_contains(h.state.as_str(), needle)
        || lowered_contains(part, needle)
}

/// The positions of the history rows the page shows, in its order.
pub fn visible_history(records: &Vec<HistoryRecord>, q: &HistoryQuery) -> (r: Vec<usize>)
    ensures
        sorted_by(index_view(r@), history_row_order(history_views(records@), q.sort)),
        forall|x: nat|
            index_view(r@).contains(x) <==> (x < records@.len() && history_listed(
                records@[x as int]@,
                *q,
            )),
{
    let ghost hv = history_views(records@);
    let ghost before = history_row_order(hv, q.sort);
    proof {
        lemma_history_row_order_strict(hv, q.sort);
    }
    let raw = chars_of(q.query.as_str());
    let needle = ascii_lower_exec(&raw);
    let mut out: Vec<usize> = Vec::new();
    let mut i: usize = 0;
    while i < records.len()
        invariant
            i <= records@.len(),
            hv == history_views(records@),
            before == history_row_order(hv, q.sort),
            strict_order(before),
            needle@ == ascii_lower(q.query@),
            sorted_by(index_view(out@), before),
            forall|k: int| 0 <= k < out@.len() ==> #[trigger] out@[k] < i,
            forall|x: nat|
                index_view(out@).contains(x) <==> (x < i && history_listed(records@[x as int]@, *q)),
        decreases records@.len() - i,
    {
        if history_listed_exec(&records[i], q, &needle) {
            let ghost rows = index_view(out@);
            let mut p: usize = 0;
            while p < out.len()
                invariant
                    p <= out@.len(),
                    rows == index_view(out@),
                    forall|k: int| 0 <= k < out@.len() ==> #[trigger] out@[k] < i,
                    i < records@.len(),
                    hv == history_views(records@),
                    before == history_row_order(hv, q.sort),
                    forall|k: int| 0 <= k < p ==> before(#[trigger] rows[k], i as nat),
                ensures
                    p <= out@.len(),
                    forall|k: int| 0 <= k < p ==> before(#[trigger] rows[k], i as nat),
                    p < out@.len() ==> before(i as nat, rows[p as int]),
                decreases out@.len() - p,
            {
                let o = out[p];
                let c = compare_history(q.sort, &records[i], &records[o]);
                proof {
                    lemma_history_order(q.sort, hv[i as int], hv[o as int], hv[o as int]);
                    assert(records@[i as int]@ == hv[i as int]);
                    assert(records@[o as int]@ == hv[o as int]);
                }
                if c < 0 {
                    break;
                }
                p = p + 1;
            }
            proof {
                lemma_insert_sorted(rows, i as nat, p as int, before);
            }
            out.insert(p, i);
            proof {
                let now = index_view(out@);
                assert(now =~= rows.insert(p as int, i as nat));
                assert forall|x: nat| now.contains(x) <==> (x < i + 1 && history_listed(
                    records@[x as int]@,
                    *q,
                )) by {
                    if now.contains(x) {
                        let k = choose|k: int| 0 <= k < now.len() && now[k] == x;
                        if k < p {
                            assert(rows[k] == x && rows.contains(x));
                        } else if k > p {
                            assert(rows[k - 1] == x && rows.contains(x));
                        }
                    }
                    if x < i + 1 && history_listed(records@[x as int]@, *q) {
                        if x < i {
                            assert(rows.contains(x));
                            let k = choose|k: int| 0 <= k < rows.len() && rows[k] == x;
                            if k < p {
                                assert(now[k] == x);
                            } else {
                                assert(now[k + 1] == x);
                            }
                        } else {
                            assert(now[p as int] == x);
                        }
                    }
                }
            }
        } else {
            proof {
                assert forall|x: nat| index_view(out@).contains(x) <==> (x < i + 1 && history_listed(
                    records@[x as int]@,
                    *q,
                )) by {
                    if x == i && index_view(out@).contains(x) {
                        let k = choose|k: int|
                            0 <= k < index_view(out@).len() && index_view(out@)[k] == x;
                        assert(out@[k] < i);
                    }
                }
            }
        }
        i = i + 1;
    }
    out
}

/// What the users table is asked to show.
#[derive(Debug, Clone)]
pub struct UserQuery {
    pub mine_only: bool,
    pub pinned_partition: Option<String>,
    pub query: String,
    pub sort: UserSortState,
}

/// The summary of a user's three busiest partitions, as shown and searched.
pub open spec fn user_summary(u: UserView) -> Seq<char> {
    top_summary(ranking_of(u.partitions), 3)
}

pub open spec fn user_jobs(u: UserView) -> nat {
    u.jobs.running_jobs + u.jobs.pending_jobs
}

/// The comparison of two users by one column.
pub open spec fn user_column_order(col: UserColumn, a: UserView, b: UserView) -> int {
    match col {
        UserColumn::User => order_str(a.user, b.user),
        UserColumn::RunningJobs => order_nat(a.jobs.running_jobs, b.jobs.running_jobs),
        UserColumn::PendingJobs => order_nat(a.jobs.pending_jobs, b.jobs.pending_jobs),
        UserColumn::TotalJobs => order_nat(user_jobs(a), user_jobs(b)),
        UserColumn::ResourceFootprint => then_by(
            order_nat(
                a.jobs.running_gpus + a.jobs.pending_gpus,
                b.jobs.running_gpus + b.jobs.pending_gpus,
            ),
            then_by(
                order_nat(
                    a.jobs.running_cpus + a.jobs.pending_cpus,
                    b.jobs.running_cpus + b.jobs.pending_cpus,
                ),
                order_nat(
                    a.jobs.running_nodes + a.jobs.pending_nodes,
                    b.jobs.running_nodes + b.jobs.pending_nodes,
                ),
            ),
        ),
        UserColumn::Partitions => order_str(user_summary(a), user_summary(b)),
    }
}

/// The comparison of two users in the table: by the sorted column in its
/// direction, then by user name.
pub open spec fn user_order(sort: UserSortState, a: UserView, b: UserView) -> int {
    then_by(directed(user_column_order(sort.column, a, b), sort.direction), order_str(a.user, b.user))
}

proof fn lemma_user_column_order(col: UserColumn, a: UserView, b: UserView, c: UserView)
    ensures
        preorder3(
            user_column_order(col, a, b),
            user_column_order(col, b, a),
            user_column_order(col, b, c),
            user_column_order(col, a, c),
        ),
        user_column_order(col, a, a) == 0,
{
    lemma_order_str(a.user, b.user, c.user);
    lemma_order_str(a.user, a.user, a.user);
    lemma_order_str(user_summary(a), user_summary(b), user_summary(c));
    lemma_order_str(user_summary(a), user_summary(a), user_summary(a));
    let ga = a.jobs.running_gpus + a.jobs.pending_gpus;
    let gb = b.jobs.running_gpus + b.jobs.pending_gpus;
    let gc = c.jobs.running_gpus + c.jobs.pending_gpus;
    let ca = a.jobs.running_cpus + a.jobs.pending_cpus;
    let cb = b.jobs.running_cpus + b.jobs.pending_cpus;
    let cc = c.jobs.running_cpus + c.jobs.pending_cpus;
    let na = a.jobs.running_nodes + a.jobs.pending_nodes;
    let nb = b.jobs.running_nodes + b.jobs.pending_nodes;
    let nc = c.jobs.running_nodes + c.jobs.pending_nodes;
    lemma_order_nat(ca, cb, cc);
    lemma_order_nat(na, nb, nc);
    lemma_order_nat(ga, gb, gc);
    lemma_then_by(
        order_nat(ca, cb),
        order_nat(cb, ca),
        order_nat(cb, cc),
        order_nat(ca, cc),
        order_nat(na, nb),
        order_nat(nb, na),
        order_nat(nb, nc),
        order_nat(na, nc),
    );
    lemma_then_by(
        order_nat(ga, gb),
        order_nat(gb, ga),
        order_nat(gb, gc),
        order_nat(ga, gc),
        then_by(order_nat(ca, cb), order_nat(na, nb)),
        then_by(order_nat(cb, ca), order_nat(nb, na)),
        then_by(order_nat(cb, cc), order_nat(nb, nc)),
        then_by(order_nat(ca, cc), order_nat(na, nc)),
    );
}

pub proof fn lemma_user_order(sort: UserSortState, a: UserView, b: UserView, c: UserView)
    ensures
        preorder3(
            user_order(sort, a, b),
            user_order(sort, b, a),
            user_order(sort, b, c),
            user_order(sort, a, c),
        ),
        user_order(sort, a, a) == 0,
{
    let col = sort.column;
    lemma_user_column_order(col, a, b, c);
    lemma_user_column_order(col, c, b, a);
    lemma_user_column_order(col, a, c, b);
    lemma_user_column_order(col, b, c, a);
    lemma_user_column_order(col, c, a, b);
    lemma_user_column_order(col, b, a, c);
    lemma_user_column_order(col, a, a, a);
    lemma_order_str(a.user, b.user, c.user);
    lemma_order_str(a.user, a.user, a.user);
    lemma_then_by(
        directed(user_column_order(col, a, b), sort.direction),
        directed(user_column_order(col, b, a), sort.direction),
        directed(user_column_order(col, b, c), sort.direction),
        directed(user_column_order(col, a, c), sort.direction),
        order_str(a.user, b.user),
        order_str(b.user, a.user),
        order_str(b.user, c.user),
        order_str(a.user, c.user),
    );
}

pub open spec fn user_before(users: Seq<UserView>, sort: UserSortState, i: nat, j: nat) -> bool {
    user_order(sort, users[i as int], users[j as int]) < 0 || (user_order(
        sort,
        users[i as int],
        users[j as int],
    ) == 0 && i < j)
}

pub open spec fn user_row_order(users: Seq<UserView>, sort: UserSortState) -> spec_fn(nat, nat) -> bool {
    |i: nat, j: nat| user_before(users, sort, i, j)
}

pub proof fn lemma_user_row_order_strict(users: Seq<UserView>, sort: UserSortState)
    ensures
        strict_order(user_row_order(users, sort)),
{
    let before = user_row_order(users, sort);
    assert forall|a: nat| !#[trigger] before(a, a) by {
        lemma_user_order(sort, users[a as int], users[a as int], users[a as int]);
    }
    assert forall|a: nat, b: nat, c: nat| #[trigger] before(a, b) && #[trigger] before(b, c) implies before(
        a,
        c,
    ) by {
        lemma_user_order(sort, users[a as int], users[b as int], users[c as int]);
    }
}

/// Whether a user passes the page's filters and the search: the search
/// text, lowercased, must occur in the lowercased name or partition
/// summary.
pub open spec fn user_listed(u: UserView, q: UserQuery) -> bool {
    let needle = ascii_lower(q.query@);
    &&& !q.mine_only || u.is_current_user
    &&& match q.pinned_partition {
        Some(p) => u.partitions.dom().contains(p@),
        None => true,
    }
    &&& (needle.len() == 0 || contains_sub(ascii_lower(u.user), needle) || contains_sub(
        ascii_lower(user_summary(u)),
        needle,
    ))
}

/// Each user's totals fit their integer types.
pub open spec fn user_totals_fit(u: UserView) -> bool {
    &&& u.jobs.running_jobs + u.jobs.pending_jobs <= u32::MAX
    &&& u.jobs.running_nodes + u.jobs.pending_nodes <= u32::MAX
    &&& u.jobs.running_cpus + u.jobs.pending_cpus <= u64::MAX
    &&& u.jobs.running_gpus + u.jobs.pending_gpus <= u64::MAX
}

fn user_column_order_exec(col: UserColumn, a: &UserUsage, b: &UserUsage, sa: &String, sb: &String) -> (r: i8)
    requires
        user_totals_fit(a@),
        user_totals_fit(b@),
        sa@ == user_summary(a@),
        sb@ == user_summary(b@),
    ensures
        r as int == user_column_order(col, a@, b@),
{
    match col {
        UserColumn::User => order_text(a.user.as_str(), b.user.as_str()),
        UserColumn::RunningJobs => order_u64(a.jobs.running_jobs as u64, b.jobs.running_jobs as u64),
        UserColumn::PendingJobs => order_u64(a.jobs.pending_jobs as u64, b.jobs.pending_jobs as u64),
        UserColumn::TotalJobs => order_u64(a.total_jobs() as u64, b.total_jobs() as u64),
        UserColumn::ResourceFootprint => then_exec(
            order_u64(a.total_gpus(), b.total_gpus()),
            then_exec(
                order_u64(a.total_cpus(), b.total_cpus()),
                order_u64(a.total_nodes() as u64, b.total_nodes() as u64),
            ),
        ),
        UserColumn::Partitions => order_text(sa.as_str(), sb.as_str()),
    }
}

fn user_listed_exec(u: &UserUsage, summary: &String, q: &UserQuery, needle: &Vec<char>) -> (b: bool)
    requires
        u.wf(),
        needle@ == ascii_lower(q.query@),
        summary@ == user_summary(u@),
    ensures
        b == user_listed(u@, *q),
{
    if q.mine_only && !u.is_current_user {
        return false;
    }
    match &q.pinned_partition {
        Some(p) => {
            let k = chars_of(p.as_str());
            if u.partitions.get(&k).is_none() {
                return false;
            }
        },
        None => {},
    }
    if needle.len() == 0 {
        return true;
    }
    lowered_contains(u.user.as_str(), needle) || lowered_contains(summary.as_str(), needle)
}

/// Whether every user meets what `visible_users` needs: its partition
/// map well formed and its totals within their integer types.
pub fn users_listable(users: &Vec<UserUsage>) -> (b: bool)
    ensures
        b == forall|k: int|
            0 <= k < users@.len() ==> (#[trigger] users@[k]).wf() && user_totals_fit(users@[k]@),
{
    let mut i: usize = 0;
    while i < users.len()
        invariant
            i <= users@.len(),
            forall|k: int| 0 <= k < i ==> (#[trigger] users@[k]).wf() && user_totals_fit(users@[k]@),
        decreases users@.len() - i,
    {
        let u = &users[i];
        let j = &u.jobs;
        if !u.partitions.is_wf() || j.running_jobs as u64 + j.pending_jobs as u64 > 0xffff_ffff
            || j.running_nodes as u64 + j.pending_nodes as u64 > 0xffff_ffff || j.running_cpus as u128
            + j.pending_cpus as u128 > 0xffff_ffff_ffff_ffff || j.running_gpus as u128
            + j.pending_gpus as u128 > 0xffff_ffff_ffff_ffff {
            assert(!(users@[i as int].wf() && user_totals_fit(users@[i as int]@)));
            return false;
        }
        i = i + 1;
    }
    true
}

/// The positions of the users the users table shows, in its order: the
/// current user alone when "only mine" is on, those active in the pinned
/// partition, those matching the search; sorted by the chosen column and
/// direction, then by name.
pub fn visible_users(users: &Vec<UserUsage>, q: &UserQuery) -> (r: Vec<usize>)
    requires
        forall|k: int| 0 <= k < users@.len() ==> (#[trigger] users@[k]).wf() && user_totals_fit(
            users@[k]@,
        ),
    ensures
        sorted_by(index_view(r@), user_row_order(user_views(users@), q.sort)),
        forall|x: nat|
            index_view(r@).contains(x) <==> (x < users@.len() && user_listed(users@[x as int]@, *q)),
{
    let ghost uv = user_views(users@);
    let ghost before = user_row_order(uv, q.sort);
    proof {
        lemma_user_row_order_strict(uv, q.sort);
    }
    let mut summaries: Vec<String> = Vec::new();
    let mut k: usize = 0;
    while k < users.len()
        invariant
            k <= users@.len(),
            summaries@.len() == k,
            forall|m: int| 0 <= m < users@.len() ==> (#[trigger] users@[m]).wf(),
            forall|m: int| 0 <= m < k ==> (#[trigger] summaries@[m])@ == user_summary(users@[m]@),
        decreases users@.len() - k,
    {
        summaries.push(users[k].top_partitions_summary(3));
        k = k + 1;
    }
    let raw = chars_of(q.query.as_str());
    let needle = ascii_lower_exec(&raw);
    let mut out: Vec<usize> = Vec::new();
    let mut i: usize = 0;
    while i < users.len()
        invariant
            i <= users@.len(),
            uv == user_views(users@),
            before == user_row_order(uv, q.sort),
            strict_order(before),
            needle@ == ascii_lower(q.query@),
            summaries@.len() == users@.len(),
            forall|m: int| 0 <= m < users@.len() ==> (#[trigger] summaries@[m])@ == user_summary(users@[m]@),
            forall|m: int| 0 <= m < users@.len() ==> (#[trigger] users@[m]).wf() && user_totals_fit(users@[m]@),
            sorted_by(index_view(out@), before),
            forall|m: int| 0 <= m < out@.len() ==> #[trigger] out@[m] < i,
            forall|x: nat|
                index_view(out@).contains(x) <==> (x < i && user_listed(users@[x as int]@, *q)),
        decreases users@.len() - i,
    {
        assert(summaries@[i as int]@ == user_summary(users@[i as int]@));
        assert(users@[i as int].wf());
        if user_listed_exec(&users[i], &summaries[i], q, &needle) {
            let ghost rows = index_view(out@);
            let mut p: usize = 0;
            while p < out.len()
                invariant
                    p <= out@.len(),
                    rows == index_view(out@),
                    forall|m: int| 0 <= m < out@.len() ==> #[trigger] out@[m] < i,
                    i < users@.len(),
                    uv == user_views(users@),
                    before == user_row_order(uv, q.sort),
                    summaries@.len() == users@.len(),
                    forall|m: int| 0 <= m < users@.len() ==> (#[trigger] summaries@[m])@ == user_summary(users@[m]@),
                    forall|m: int| 0 <= m < users@.len() ==> (#[trigger] users@[m]).wf() && user_totals_fit(users@[m]@),
                    forall|m: int| 0 <= m < p ==> before(#[trigger] rows[m], i as nat),
                ensures
                    p <= out@.len(),
                    forall|m: int| 0 <= m < p ==> before(#[trigger] rows[m], i as nat),
                    p < out@.len() ==> before(i as nat, rows[p as int]),
                decreases out@.len() - p,
            {
                let o = out[p];
                assert(summaries@[i as int]@ == user_summary(users@[i as int]@));
                assert(summaries@[o as int]@ == user_summary(users@[o as int]@));
                assert(user_totals_fit(users@[i as int]@) && user_totals_fit(users@[o as int]@));
                let c0 = user_column_order_exec(q.sort.column, &users[i], &users[o], &summaries[i], &summaries[o]);
                let d: i8 = match q.sort.direction {
                    SortDirection::Asc => c0,
                    SortDirection::Desc => -c0,
                };
                let c = then_exec(d, order_text(users[i].user.as_str(), users[o].user.as_str()));
                proof {
                    lemma_user_order(q.sort, uv[i as int], uv[o as int], uv[o as int]);
                    assert(users@[i as int]@ == uv[i as int]);
                    assert(users@[o as int]@ == uv[o as int]);
                }
                if c < 0 {
                    break;
                }
                p = p + 1;
            }
            proof {
                lemma_insert_sorted(rows, i as nat, p as int, before);
            }
            out.insert(p, i);
            proof {
                let now = index_view(out@);
                assert(now =~= rows.insert(p as int, i as nat));
                assert forall|x: nat| now.contains(x) <==> (x < i + 1 && user_listed(
                    users@[x as int]@,
                    *q,
                )) by {
                    if now.contains(x) {
                        let m = choose|m: int| 0 <= m < now.len() && now[m] == x;
                        if m < p {
                            assert(rows[m] == x && rows.contains(x));
                        } else if m > p {
                            assert(rows[m - 1] == x && rows.contains(x));
                        }
                    }
                    if x < i + 1 && user_listed(users@[x as int]@, *q) {
                        if x < i {
                            assert(rows.contains(x));
                            let m = choose|m: int| 0 <= m < rows.len() && rows[m] == x;
                            if m < p {
                                assert(now[m] == x);
                            } else {
                                assert(now[m + 1] == x);
                            }
                        } else {
                            assert(now[p as int] == x);
                        }
                    }
                }
            }
        } else {
            proof {
                assert forall|x: nat| index_view(out@).contains(x) <==> (x < i + 1 && user_listed(
                    users@[x as int]@,
                    *q,
                )) by {
                    if x == i && index_view(out@).contains(x) {
                        let m = choose|m: int|
                            0 <= m < index_view(out@).len() && index_view(out@)[m] == x;
                        assert(out@[m] < i);
                    }
                }
            }
        }
        i = i + 1;
    }
    out
}

/// What the overview table is asked to show.
#[derive(Debug, Clone)]
pub struct PartitionQuery {
    pub pinned_partition: Option<String>,
    pub query: String,
    pub sort: OverviewSortState,
    pub metric: MetricMode,
}

/// A partition's pressure as a fraction: used over capacity, or 0 over 1
/// without a capacity.
pub open spec fn pressure_frac(p: PartitionView, metric: MetricMode) -> (nat, nat) {
    match capacity_of(p, metric) {
        Some(c) => (used_for_pressure_of(p, metric), c),
        None => (0, 1),
    }
}

/// Three-way comparison of fractions with positive denominators.
pub open spec fn order_frac(a: (nat, nat), b: (nat, nat)) -> int {
    order_nat(a.0 * b.1, b.0 * a.1)
}

proof fn lemma_order_frac(a: (nat, nat), b: (nat, nat), c: (nat, nat))
    requires
        a.1 > 0,
        b.1 > 0,
        c.1 > 0,
    ensures
        preorder3(order_frac(a, b), order_frac(b, a), order_frac(b, c), order_frac(a, c)),
        order_frac(a, a) == 0,
{
    let (x, p) = a;
    let (y, q) = b;
    let (z, r) = c;
    assert(x * q <= y * p && y * r <= z * q ==> x * r <= z * p) by (nonlinear_arith)
        requires
            p > 0,
            q > 0,
            r > 0,
    ;
    assert(x * q < y * p && y * r <= z * q ==> x * r < z * p) by (nonlinear_arith)
        requires
            p > 0,
            q > 0,
            r > 0,
    ;
    assert(x * q <= y * p && y * r < z * q ==> x * r < z * p) by (nonlinear_arith)
        requires
            p > 0,
            q > 0,
            r > 0,
    ;
    assert(x * q == y * p && y * r == z * q ==> x * r == z * p) by (nonlinear_arith)
        requires
            p > 0,
            q > 0,
            r > 0,
    ;
    assert(x * p == x * p);
}

proof fn lemma_pressure_frac_positive(p: PartitionView, metric: MetricMode)
    ensures
        pressure_frac(p, metric).1 > 0,
{
}

/// The comparison of two partitions by one column.
pub open spec fn partition_column_order(
    col: OverviewColumn,
    metric: MetricMode,
    a: PartitionView,
    b: PartitionView,
) -> int {
    match col {
        OverviewColumn::Partition => order_str(a.name, b.name),
        OverviewColumn::Nodes => order_nat(a.total_nodes as nat, b.total_nodes as nat),
        OverviewColumn::Pressure => order_frac(pressure_frac(a, metric), pressure_frac(b, metric)),
        OverviewColumn::MineRunning => order_nat(running_of(a.mine, metric), running_of(b.mine, metric)),
        OverviewColumn::MinePending => order_nat(pending_of(a.mine, metric), pending_of(b.mine, metric)),
        OverviewColumn::OthersRunning => order_nat(
            running_of(a.others, metric),
            running_of(b.others, metric),
        ),
        OverviewColumn::OthersPending => order_nat(
            pending_of(a.others, metric),
            pending_of(b.others, metric),
        ),
        OverviewColumn::TotalJobs => order_nat(
            add_usage(a.mine, a.others).running_jobs + add_usage(a.mine, a.others).pending_jobs,
            add_usage(b.mine, b.others).running_jobs + add_usage(b.mine, b.others).pending_jobs,
        ),
    }
}

/// The comparison of two partitions in the overview: by the sorted column
/// in its direction (pressure compared exactly), then by name.
pub open spec fn partition_order(sort: OverviewSortState, metric: MetricMode, a: PartitionView, b: PartitionView) -> int {
    then_by(
        directed(partition_column_order(sort.column, metric, a, b), sort.direction),
        order_str(a.name, b.name),
    )
}

proof fn lemma_partition_column_order(
    col: OverviewColumn,
    metric: MetricMode,
    a: PartitionView,
    b: PartitionView,
    c: PartitionView,
)
    ensures
        preorder3(
            partition_column_order(col, metric, a, b),
            partition_column_order(col, metric, b, a),
            partition_column_order(col, metric, b, c),
            partition_column_order(col, metric, a, c),
        ),
        partition_column_order(col, metric, a, a) == 0,
{
    lemma_order_str(a.name, b.name, c.name);
    lemma_order_str(a.name, a.name, a.name);
    lemma_pressure_frac_positive(a, metric);
    lemma_pressure_frac_positive(b, metric);
    lemma_pressure_frac_positive(c, metric);
    lemma_order_frac(pressure_frac(a, metric), pressure_frac(b, metric), pressure_frac(c, metric));
    lemma_order_frac(pressure_frac(a, metric), pressure_frac(a, metric), pressure_frac(a, metric));
}

pub proof fn lemma_partition_order(
    sort: OverviewSortState,
    metric: MetricMode,
    a: PartitionView,
    b: PartitionView,
    c: PartitionView,
)
    ensures
        preorder3(
            partition_order(sort, metric, a, b),
            partition_order(sort, metric, b, a),
            partition_order(sort, metric, b, c),
            partition_order(sort, metric, a, c),
        ),
        partition_order(sort, metric, a, a) == 0,
{
    let col = sort.column;
    lemma_partition_column_order(col, metric, a, b, c);
    lemma_partition_column_order(col, metric, c, b, a);
    lemma_partition_column_order(col, metric, a, c, b);
    lemma_partition_column_order(col, metric, b, c, a);
    lemma_partition_column_order(col, metric, c, a, b);
    lemma_partition_column_order(col, metric, b, a, c);
    lemma_partition_column_order(col, metric, a, a, a);
    lemma_order_str(a.name, b.name, c.name);
    lemma_order_str(a.name, a.name, a.name);
    lemma_then_by(
        directed(partition_column_order(col, metric, a, b), sort.direction),
        directed(partition_column_order(col, metric, b, a), sort.direction),
        directed(partition_column_order(col, metric, b, c), sort.direction),
        directed(partition_column_order(col, metric, a, c), sort.direction),
        order_str(a.name, b.name),
        order_str(b.name, a.name),
        order_str(b.name, c.name),
        order_str(a.name, c.name),
    );
}

pub open spec fn partition_before(ps: Seq<PartitionView>, sort: OverviewSortState, metric: MetricMode, i: nat, j: nat) -> bool {
    partition_order(sort, metric, ps[i as int], ps[j as int]) < 0 || (partition_order(
        sort,
        metric,
        ps[i as int],
        ps[j as int],
    ) == 0 && i < j)
}

pub open spec fn partition_row_order(ps: Seq<PartitionView>, sort: OverviewSortState, metric: MetricMode) -> spec_fn(nat, nat) -> bool {
    |i: nat, j: nat| partition_before(ps, sort, metric, i, j)
}

pub proof fn lemma_partition_row_order_strict(ps: Seq<PartitionView>, sort: OverviewSortState, metric: MetricMode)
    ensures
        strict_order(partition_row_order(ps, sort, metric)),
{
    let before = partition_row_order(ps, sort, metric);
    assert forall|a: nat| !#[trigger] before(a, a) by {
        lemma_partition_order(sort, metric, ps[a as int], ps[a as int], ps[a as int]);
    }
    assert forall|a: nat, b: nat, c: nat| #[trigger] before(a, b) && #[trigger] before(b, c) implies before(
        a,
        c,
    ) by {
        lemma_partition_order(sort, metric, ps[a as int], ps[b as int], ps[c as int]);
    }
}

/// Whether a partition passes the pin and the search: the search text,
/// lowercased, must occur in the lowercased name, state or node-state
/// summary.
pub open spec fn partition_listed(p: PartitionView, q: PartitionQuery) -> bool {
    let needle = ascii_lower(q.query@);
    &&& match q.pinned_partition {
        Some(pin) => p.name == pin@,
        None => true,
    }
    &&& (needle.len() == 0 || contains_sub(ascii_lower(p.name), needle) || contains_sub(
        ascii_lower(p.state),
        needle,
    ) || contains_sub(ascii_lower(node_state_summary_of(p.node_state_counts)), needle))
}

/// A partition's counters fit what the overview computes from them.
pub open spec fn partition_fits(p: PartitionOverview) -> bool {
    &&& p.wf()
    &&& usage_fits(add_usage(p.mine@, p.others@))
    &&& add_usage(p.mine@, p.others@).running_jobs + add_usage(p.mine@, p.others@).pending_jobs
        <= u32::MAX
}

fn pressure_parts(p: &PartitionOverview, metric: MetricMode) -> (r: (u64, u64))
    requires
        partition_fits(*p),
    ensures
        (r.0 as nat, r.1 as nat) == pressure_frac(p@, metric),
{
    match p.capacity_for(metric) {
        Some(c) => (p.used_for_pressure(metric), c),
        None => (0, 1),
    }
}

fn partition_column_order_exec(
    col: OverviewColumn,
    metric: MetricMode,
    a: &PartitionOverview,
    b: &PartitionOverview,
) -> (r: i8)
    requires
        partition_fits(*a),
        partition_fits(*b),
    ensures
        r as int == partition_column_order(col, metric, a@, b@),
{
    match col {
        OverviewColumn::Partition => order_text(a.name.as_str(), b.name.as_str()),
        OverviewColumn::Nodes => order_u64(a.total_nodes as u64, b.total_nodes as u64),
        OverviewColumn::Pressure => {
            let (ua, ca) = pressure_parts(a, metric);
            let (ub, cb) = pressure_parts(b, metric);
            assert(ua as u128 * cb as u128 <= 0xffff_ffff_ffff_ffff * 0xffff_ffff_ffff_ffff) by (nonlinear_arith)
                requires
                    ua <= 0xffff_ffff_ffff_ffff,
                    cb <= 0xffff_ffff_ffff_ffff,
            ;
            assert(ub as u128 * ca as u128 <= 0xffff_ffff_ffff_ffff * 0xffff_ffff_ffff_ffff) by (nonlinear_arith)
                requires
                    ub <= 0xffff_ffff_ffff_ffff,
                    ca <= 0xffff_ffff_ffff_ffff,
            ;
            let x: u128 = ua as u128 * cb as u128;
            let y: u128 = ub as u128 * ca as u128;
            if x < y {
                -1
            } else if x > y {
                1
            } else {
                0
            }
        },
        OverviewColumn::MineRunning => order_u64(a.mine.running_total(metric), b.mine.running_total(metric)),
        OverviewColumn::MinePending => order_u64(a.mine.pending_total(metric), b.mine.pending_total(metric)),
        OverviewColumn::OthersRunning => order_u64(
            a.others.running_total(metric),
            b.others.running_total(metric),
        ),
        OverviewColumn::OthersPending => order_u64(
            a.others.pending_total(metric),
            b.others.pending_total(metric),
        ),
        OverviewColumn::TotalJobs => {
            let ta = a.total_usage();
            let tb = b.total_usage();
            order_u64(
                ta.running_jobs as u64 + ta.pending_jobs as u64,
                tb.running_jobs as u64 + tb.pending_jobs as u64,
            )
        },
    }
}

fn partition_listed_exec(p: &PartitionOverview, q: &PartitionQuery, needle: &Vec<char>) -> (b: bool)
    requires
        p.wf(),
        needle@ == ascii_lower(q.query@),
    ensures
        b == partition_listed(p@, *q),
{
    match &q.pinned_partition {
        Some(pin) => {
            let a = chars_of(p.name.as_str());
            let b = chars_of(pin.as_str());
            if !eq_chars(&a, &b) {
                return false;
            }
        },
        None => {},
    }
    if needle.len() == 0 {
        return true;
    }
    let summary = p.node_state_summary();
    lowered_contains(p.name.as_str(), needle) || lowered_contains(p.state.as_str(), needle)
        || lowered_contains(summary.as_str(), needle)
}

/// Whether every partition meets what `visible_partitions` needs.
pub fn partitions_listable(partitions: &Vec<PartitionOverview>) -> (b: bool)
    ensures
        b == forall|k: int| 0 <= k < partitions@.len() ==> partition_fits(#[trigger] partitions@[k]),
{
    let mut i: usize = 0;
    while i < partitions.len()
        invariant
            i <= partitions@.len(),
            forall|k: int| 0 <= k < i ==> partition_fits(#[trigger] partitions@[k]),
        decreases partitions@.len() - i,
    {
        let p = &partitions[i];
        let m = &p.mine;
        let o = &p.others;
        let rj = m.running_jobs as u64 + o.running_jobs as u64;
        let pj = m.pending_jobs as u64 + o.pending_jobs as u64;
        if !p.node_state_counts.is_wf() || rj + pj > 0xffff_ffff || m.running_nodes as u64
            + o.running_nodes as u64 > 0xffff_ffff || m.pending_nodes as u64 + o.pending_nodes as u64
            > 0xffff_ffff || m.running_cpus as u128 + o.running_cpus as u128 > 0xffff_ffff_ffff_ffff
            || m.pending_cpus as u128 + o.pending_cpus as u128 > 0xffff_ffff_ffff_ffff
            || m.running_gpus as u128 + o.running_gpus as u128 > 0xffff_ffff_ffff_ffff
            || m.pending_gpus as u128 + o.pending_gpus as u128 > 0xffff_ffff_ffff_ffff {
            assert(!partition_fits(partitions@[i as int]));
            return false;
        }
        i = i + 1;
    }
    true
}

/// The positions of the partitions the overview shows, in its order: the
/// pinned partition alone when one is pinned, those matching the search;
/// sorted by the chosen column and direction, then by name.
pub fn visible_partitions(partitions: &Vec<PartitionOverview>, q: &PartitionQuery) -> (r: Vec<usize>)
    requires
        forall|k: int| 0 <= k < partitions@.len() ==> partition_fits(#[trigger] partitions@[k]),
    ensures
        sorted_by(index_view(r@), partition_row_order(partition_views(partitions@), q.sort, q.metric)),
        forall|x: nat|
            index_view(r@).contains(x) <==> (x < partitions@.len() && partition_listed(
                partitions@[x as int]@,
                *q,
            )),
{
    let ghost pv = partition_views(partitions@);
    let ghost before = partition_row_order(pv, q.sort, q.metric);
    proof {
        lemma_partition_row_order_strict(pv, q.sort, q.metric);
    }
    let raw = chars_of(q.query.as_str());
    let needle = ascii_lower_exec(&raw);
    let mut out: Vec<usize> = Vec::new();
    let mut i: usize = 0;
    while i < partitions.len()
        invariant
            i <= partitions@.len(),
            pv == partition_views(partitions@),
            before == partition_row_order(pv, q.sort, q.metric),
            strict_order(before),
            needle@ == ascii_lower(q.query@),
            forall|k: int| 0 <= k < partitions@.len() ==> partition_fits(#[trigger] partitions@[k]),
            sorted_by(index_view(out@), before),
            forall|m: int| 0 <= m < out@.len() ==> #[trigger] out@[m] < i,
            forall|x: nat|
                index_view(out@).contains(x) <==> (x < i && partition_listed(partitions@[x as int]@, *q)),
        decreases partitions@.len() - i,
    {
        assert(partition_fits(partitions@[i as int]));
        if partition_listed_exec(&partitions[i], q, &needle) {
            let ghost rows = index_view(out@);
            let mut p: usize = 0;
            while p < out.len()
                invariant
                    p <= out@.len(),
                    rows == index_view(out@),
                    forall|m: int| 0 <= m < out@.len() ==> #[trigger] out@[m] < i,
                    i < partitions@.len(),
                    pv == partition_views(partitions@),
                    before == partition_row_order(pv, q.sort, q.metric),
                    forall|k: int| 0 <= k < partitions@.len() ==> partition_fits(#[trigger] partitions@[k]),
                    forall|m: int| 0 <= m < p ==> before(#[trigger] rows[m], i as nat),
                ensures
                    p <= out@.len(),
                    forall|m: int| 0 <= m < p ==> before(#[trigger] rows[m], i as nat),
                    p < out@.len() ==> before(i as nat, rows[p as int]),
                decreases out@.len() - p,
            {
                let o = out[p];
                assert(partition_fits(partitions@[i as int]) && partition_fits(partitions@[o as int]));
                let c0 = partition_column_order_exec(q.sort.column, q.metric, &partitions[i], &partitions[o]);
                let d: i8 = match q.sort.direction {
                    SortDirection::Asc => c0,
                    SortDirection::Desc => -c0,
                };
                let c = then_exec(d, order_text(partitions[i].name.as_str(), partitions[o].name.as_str()));
                proof {
                    lemma_partition_order(q.sort, q.metric, pv[i as int], pv[o as int], pv[o as int]);
                    assert(partitions@[i as int]@ == pv[i as int]);
                    assert(partitions@[o as int]@ == pv[o as int]);
                }
                if c < 0 {
                    break;
                }
                p = p + 1;
            }
            proof {
                lemma_insert_sorted(rows, i as nat, p as int, before);
            }
            out.insert(p, i);
            proof {
                let now = index_view(out@);
                assert(now =~= rows.insert(p as int, i as nat));
                assert forall|x: nat| now.contains(x) <==> (x < i + 1 && partition_listed(
                    partitions@[x as int]@,
                    *q,
                )) by {
                    if now.contains(x) {
                        let m = choose|m: int| 0 <= m < now.len() && now[m] == x;
                        if m < p {
                            assert(rows[m] == x && rows.contains(x));
                        } else if m > p {
                            assert(rows[m - 1] == x && rows.contains(x));
                        }
                    }
                    if x < i + 1 && partition_listed(partitions@[x as int]@, *q) {
                        if x < i {
                            assert(rows.contains(x));
                            let m = choose|m: int| 0 <= m < rows.len() && rows[m] == x;
                            if m < p {
                                assert(now[m] == x);
                            } else {
                                assert(now[m + 1] == x);
                            }
                        } else {
                            assert(now[p as int] == x);
                        }
                    }
                }
            }
        } else {
            proof {
                assert forall|x: nat| index_view(out@).contains(x) <==> (x < i + 1 && partition_listed(
                    partitions@[x as int]@,
                    *q,
                )) by {
                    if x == i && index_view(out@).contains(x) {
                        let m = choose|m: int|
                            0 <= m < index_view(out@).len() && index_view(out@)[m] == x;
                        assert(out@[m] < i);
                    }
                }
            }
        }
        i = i + 1;
    }
    out
}

/// What the node page's job table is asked to show.
#[derive(Debug, Clone)]
pub struct NodeJobQuery {
    pub mine_only: bool,
    /// The chosen user, or "All users".
    pub user_filter: String,
    /// The chosen state, or "All states".
    pub state_filter: String,
    /// Text that must occur in "partition placement", ignoring ASCII case.
    pub where_filter: String,
    /// Text that must occur in the placement or reason, ignoring ASCII case.
    pub why_filter: String,
    pub query: String,
    pub sort: JobSortState,
}

/// Whether a job on the node page passes its filters and the search.
pub open spec fn node_job_listed(j: JobView, q: NodeJobQuery) -> bool {
    let needle = ascii_lower(q.query@);
    let where_needle = ascii_lower(q.where_filter@);
    let why_needle = ascii_lower(q.why_filter@);
    &&& !q.mine_only || j.is_mine
    &&& q.user_filter@ == "All users"@ || j.user == q.user_filter@
    &&& q.state_filter@ == "All states"@ || j.state == q.state_filter@
    &&& where_needle.len() == 0 || contains_sub(
        ascii_lower(j.partition_raw + " "@ + j.location_or_reason),
        where_needle,
    )
    &&& why_needle.len() == 0 || contains_sub(ascii_lower(j.location_or_reason), why_needle)
    &&& (needle.len() == 0 || contains_sub(ascii_lower(j.job_id), needle) || contains_sub(
        ascii_lower(j.user),
        needle,
    ) || contains_sub(ascii_lower(j.partition_raw), needle) || contains_sub(
        ascii_lower(j.name),
        needle,
    ) || contains_sub(ascii_lower(j.state), needle) || contains_sub(
        ascii_lower(j.location_or_reason),
        needle,
    ))
}

fn node_job_listed_exec(
    j: &JobRecord,
    q: &NodeJobQuery,
    needle: &Vec<char>,
    where_needle: &Vec<char>,
    why_needle: &Vec<char>,
) -> (b: bool)
    requires
        needle@ == ascii_lower(q.query@),
        where_needle@ == ascii_lower(q.where_filter@),
        why_needle@ == ascii_lower(q.why_filter@),
    ensures
        b == node_job_listed(j@, *q),
{
    if q.mine_only && !j.is_mine {
        return false;
    }
    let uf = chars_of(q.user_filter.as_str());
    if !eq_str(&uf, "All users") {
        let u = chars_of(j.user.as_str());
        if !eq_chars(&u, &uf) {
            return false;
        }
    }
    let sf = chars_of(q.state_filter.as_str());
    if !eq_str(&sf, "All states") {
        let st = chars_of(j.state.as_str());
        if !eq_chars(&st, &sf) {
            return false;
        }
    }
    if where_needle.len() > 0 {
        let mut hay = chars_of(j.partition_raw.as_str());
        append_str(&mut hay, " ");
        append_str(&mut hay, j.location_or_reason.as_str());
        let low = ascii_lower_exec(&hay);
        if !contains_exec(&low, where_needle) {
            return false;
        }
    }
    if why_needle.len() > 0 && !lowered_contains(j.location_or_reason.as_str(), why_needle) {
        return false;
    }
    if needle.len() == 0 {
        return true;
    }
    lowered_contains(j.job_id.as_str(), needle) || lowered_contains(j.user.as_str(), needle)
        || lowered_contains(j.partition_raw.as_str(), needle) || lowered_contains(
        j.name.as_str(),
        needle,
    ) || lowered_contains(j.state.as_str(), needle) || lowered_contains(
        j.location_or_reason.as_str(),
        needle,
    )
}

/// The positions of the node's jobs the node page shows, in table order.
pub fn visible_node_jobs(jobs: &Vec<JobRecord>, q: &NodeJobQuery) -> (r: Vec<usize>)
    ensures
        sorted_by(index_view(r@), row_order(job_views(jobs@), q.sort)),
        forall|x: nat|
            index_view(r@).contains(x) <==> (x < jobs@.len() && node_job_listed(jobs@[x as int]@, *q)),
{
    let ghost jv = job_views(jobs@);
    let ghost before = row_order(jv, q.sort);
    proof {
        lemma_row_order_strict(jv, q.sort);
    }
    let raw = chars_of(q.query.as_str());
    let needle = ascii_lower_exec(&raw);
    let wraw = chars_of(q.where_filter.as_str());
    let where_needle = ascii_lower_exec(&wraw);
    let yraw = chars_of(q.why_filter.as_str());
    let why_needle = ascii_lower_exec(&yraw);
    let mut out: Vec<usize> = Vec::new();
    let mut i: usize = 0;
    while i < jobs.len()
        invariant
            i <= jobs@.len(),
            jv == job_views(jobs@),
            before == row_order(jv, q.sort),
            strict_order(before),
            needle@ == ascii_lower(q.query@),
            where_needle@ == ascii_lower(q.where_filter@),
            why_needle@ == ascii_lower(q.why_filter@),
            sorted_by(index_view(out@), before),
            forall|k: int| 0 <= k < out@.len() ==> #[trigger] out@[k] < i,
            forall|x: nat|
                index_view(out@).contains(x) <==> (x < i && node_job_listed(jobs@[x as int]@, *q)),
        decreases jobs@.len() - i,
    {
        if node_job_listed_exec(&jobs[i], q, &needle, &where_needle, &why_needle) {
            let ghost rows = index_view(out@);
            let mut p: usize = 0;
            while p < out.len()
                invariant
                    p <= out@.len(),
                    rows == index_view(out@),
                    forall|k: int| 0 <= k < out@.len() ==> #[trigger] out@[k] < i,
                    i < jobs@.len(),
                    jv == job_views(jobs@),
                    before == row_order(jv, q.sort),
                    forall|k: int| 0 <= k < p ==> before(#[trigger] rows[k], i as nat),
                ensures
                    p <= out@.len(),
                    forall|k: int| 0 <= k < p ==> before(#[trigger] rows[k], i as nat),
                    p < out@.len() ==> before(i as nat, rows[p as int]),
                decreases out@.len() - p,
            {
                let o = out[p];
                let c = compare_jobs(q.sort, &jobs[i], &jobs[o]);
                proof {
                    lemma_job_order(q.sort, jv[i as int], jv[o as int], jv[o as int]);
                    assert(jobs@[i as int]@ == jv[i as int]);
                    assert(jobs@[o as int]@ == jv[o as int]);
                }
                if c < 0 {
                    break;
                }
                p = p + 1;
            }
            proof {
                lemma_insert_sorted(rows, i as nat, p as int, before);
            }
            out.insert(p, i);
            proof {
                let now = index_view(out@);
                assert(now =~= rows.insert(p as int, i as nat));
                assert forall|x: nat| now.contains(x) <==> (x < i + 1 && node_job_listed(
                    jobs@[x as int]@,
                    *q,
                )) by {
                    if now.contains(x) {
                        let k = choose|k: int| 0 <= k < now.len() && now[k] == x;
                        if k < p {
                            assert(rows[k] == x && rows.contains(x));
                        } else if k > p {
                            assert(rows[k - 1] == x && rows.contains(x));
                        }
                    }
                    if x < i + 1 && node_job_listed(jobs@[x as int]@, *q) {
                        if x < i {
                            assert(rows.contains(x));
                            let k = choose|k: int| 0 <= k < rows.len() && rows[k] == x;
                            if k < p {
                                assert(now[k] == x);
                            } else {
                                assert(now[k + 1] == x);
                            }
                        } else {
                            assert(now[p as int] == x);
                        }
                    }
                }
            }
        } else {
            proof {
                assert forall|x: nat| index_view(out@).contains(x) <==> (x < i + 1 && node_job_listed(
                    jobs@[x as int]@,
                    *q,
                )) by {
                    if x == i && index_view(out@).contains(x) {
                        let k = choose|k: int|
                            0 <= k < index_view(out@).len() && index_view(out@)[k] == x;
                        assert(out@[k] < i);
                    }
                }
            }
        }
        i = i + 1;
    }
    out
}

} // verus!
