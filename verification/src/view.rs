//! What the cursor rests on: the rows each table shows, and the job,
//! partition and node under the selection of the page in view.
use vstd::prelude::*;

use crate::app::Page;
use crate::control::{page_of, ui_wf, Focus, UiState, UiView};
use crate::listing::partition_fits;
use crate::model::types::{clone_string, primary_partition_of, JobRecord, NodeRecord, PartitionOverview};
use crate::state::{node_job_states, node_job_users, node_states, node_users, sorted_distinct};
use crate::text::{chars_of, string_of};

verus! {

/// The rows each table shows, as positions into the data they list.
#[derive(Debug, Clone, Default)]
pub struct Lists {
    pub partitions: Vec<usize>,
    pub my_jobs: Vec<usize>,
    pub all_jobs: Vec<usize>,
    pub users: Vec<usize>,
    pub user_jobs: Vec<usize>,
    pub partition_jobs: Vec<usize>,
    pub partition_nodes: Vec<usize>,
    pub node_jobs: Vec<usize>,
}

/// The item that the `sel`-th row shows, when there is one.
pub open spec fn row_item<T>(rows: Seq<usize>, sel: usize, items: Seq<T>) -> Option<T> {
    if sel < rows.len() && rows[sel as int] < items.len() {
        Some(items[rows[sel as int] as int])
    } else {
        None
    }
}

/// The job under the cursor on the job pages, the partition page and the
/// node page.
pub open spec fn focused_job_of(ui: UiView, l: Lists, jobs: Seq<JobRecord>, node_jobs: Seq<JobRecord>) -> Option<
    JobRecord,
> {
    match page_of(ui) {
        Page::MyJobs => row_item(l.my_jobs@, ui.selected.my_jobs, jobs),
        Page::AllJobs => row_item(l.all_jobs@, ui.selected.all_jobs, jobs),
        Page::PartitionDetail => row_item(l.partition_jobs@, ui.selected.partition_jobs, jobs),
        Page::NodeDetail => row_item(
            l.node_jobs@,
            match ui.node {
                Some(n) => n.selected_job,
                None => 0,
            },
            node_jobs,
        ),
        _ => None,
    }
}

/// The partition the selection belongs to: the selected partition of the
/// overview, the open partition, the selected job's first partition, or
/// the open node's partition.
pub open spec fn focused_partition_of(
    ui: UiView,
    l: Lists,
    partitions: Seq<PartitionOverview>,
    jobs: Seq<JobRecord>,
    node_jobs: Seq<JobRecord>,
) -> Option<Seq<char>> {
    match page_of(ui) {
        Page::Overview => match row_item(l.partitions@, ui.selected.overview, partitions) {
            Some(p) => Some(p.name@),
            None => None,
        },
        Page::PartitionDetail => ui.detail_partition,
        Page::MyJobs | Page::AllJobs => match focused_job_of(ui, l, jobs, node_jobs) {
            Some(j) => Some(primary_partition_of(j@)),
            None => None,
        },
        Page::Users => None,
        Page::NodeDetail => match ui.node {
            Some(n) => Some(n.partition),
            None => None,
        },
    }
}

/// How many rows the page's table has.
pub open spec fn page_rows_of(ui: UiView, l: Lists) -> nat {
    match page_of(ui) {
        Page::Overview => l.partitions@.len(),
        Page::MyJobs => l.my_jobs@.len(),
        Page::Users => l.users@.len(),
        Page::AllJobs => l.all_jobs@.len(),
        Page::PartitionDetail => l.partition_jobs@.len(),
        Page::NodeDetail => l.node_jobs@.len(),
    }
}

fn row_job<'a>(rows: &Vec<usize>, sel: usize, jobs: &'a Vec<JobRecord>) -> (r: Option<&'a JobRecord>)
    ensures
        match r {
            Some(j) => row_item(rows@, sel, jobs@) == Some(*j),
            None => row_item(rows@, sel, jobs@) is None,
        },
{
    if sel < rows.len() && rows[sel] < jobs.len() {
        Some(&jobs[rows[sel]])
    } else {
        None
    }
}

/// The job under the cursor of the page in view.
pub fn focused_job<'a>(
    ui: &UiState,
    lists: &Lists,
    jobs: &'a Vec<JobRecord>,
    node_jobs: &'a Vec<JobRecord>,
) -> (r: Option<&'a JobRecord>)
    requires
        ui_wf(ui@),
    ensures
        match r {
            Some(j) => focused_job_of(ui@, *lists, jobs@, node_jobs@) == Some(*j),
            None => focused_job_of(ui@, *lists, jobs@, node_jobs@) is None,
        },
{
    match ui.page() {
        Page::MyJobs => row_job(&lists.my_jobs, ui.selected.my_jobs, jobs),
        Page::AllJobs => row_job(&lists.all_jobs, ui.selected.all_jobs, jobs),
        Page::PartitionDetail => row_job(&lists.partition_jobs, ui.selected.partition_jobs, jobs),
        Page::NodeDetail => {
            let sel = match &ui.node {
                Some(n) => n.selected_job,
                None => 0,
            };
            row_job(&lists.node_jobs, sel, node_jobs)
        },
        _ => None,
    }
}

/// What the page in view shows under the cursor: its row count, the
/// partition, job and node of the selection, and how many users and
/// states the open node's jobs have.
pub fn focus_of(
    ui: &UiState,
    lists: &Lists,
    partitions: &Vec<PartitionOverview>,
    nodes: &Vec<NodeRecord>,
    jobs: &Vec<JobRecord>,
    node_jobs: &Vec<JobRecord>,
) -> (f: Focus)
    requires
        ui_wf(ui@),
    ensures
        f@.rows == page_rows_of(ui@, *lists),
        f@.partition == focused_partition_of(ui@, *lists, partitions@, jobs@, node_jobs@),
        f@.job == match focused_job_of(ui@, *lists, jobs@, node_jobs@) {
            Some(j) => Some(j.job_id@),
            None => None::<Seq<char>>,
        },
        f@.partition_nodes == lists.partition_nodes@.len(),
        f@.node == match row_item(lists.partition_nodes@, ui@.selected.partition_node, nodes@) {
            Some(n) => Some(n.node_name@),
            None => None::<Seq<char>>,
        },
        forall|us: Seq<Seq<char>>| sorted_distinct(node_job_users(node_jobs@), us) ==> f.node_users == us.len(),
        forall|ss: Seq<Seq<char>>| sorted_distinct(node_job_states(node_jobs@), ss) ==> f.node_states == ss.len(),
{
    let page = ui.page();
    let rows = match page {
        Page::Overview => lists.partitions.len(),
        Page::MyJobs => lists.my_jobs.len(),
        Page::Users => lists.users.len(),
        Page::AllJobs => lists.all_jobs.len(),
        Page::PartitionDetail => lists.partition_jobs.len(),
        Page::NodeDetail => lists.node_jobs.len(),
    };
    let job = focused_job(ui, lists, jobs, node_jobs);
    let partition = match page {
        Page::Overview => {
            let sel = ui.selected.overview;
            if sel < lists.partitions.len() && lists.partitions[sel] < partitions.len() {
                Some(clone_string(&partitions[lists.partitions[sel]].name))
            } else {
                None
            }
        },
        Page::PartitionDetail => crate::model::types::clone_opt_string(&ui.detail_partition),
        Page::MyJobs | Page::AllJobs => match job {
            Some(j) => Some(string_of(&chars_of(j.primary_partition()))),
            None => None,
        },
        Page::Users => None,
        Page::NodeDetail => match &ui.node {
            Some(n) => Some(clone_string(&n.partition)),
            None => None,
        },
    };
    let sel = ui.selected.partition_node;
    let node = if sel < lists.partition_nodes.len() && lists.partition_nodes[sel] < nodes.len() {
        Some(clone_string(&nodes[lists.partition_nodes[sel]].node_name))
    } else {
        None
    };
    let users = node_users(node_jobs);
    let states = node_states(node_jobs);
    proof {
        assert forall|us: Seq<Seq<char>>| sorted_distinct(node_job_users(node_jobs@), us) implies users@.len()
            == us.len() by {
            crate::state::lemma_sorted_distinct_unique(node_job_users(node_jobs@), us, crate::model::types::string_views(users@));
        }
        assert forall|ss: Seq<Seq<char>>| sorted_distinct(node_job_states(node_jobs@), ss) implies states@.len()
            == ss.len() by {
            crate::state::lemma_sorted_distinct_unique(node_job_states(node_jobs@), ss, crate::model::types::string_views(states@));
        }
    }
    let job_id = match job {
        Some(j) => Some(clone_string(&j.job_id)),
        None => None,
    };
    Focus {
        rows,
        partition,
        job: job_id,
        partition_nodes: lists.partition_nodes.len(),
        node,
        node_users: users.len(),
        node_states: states.len(),
    }
}

/// The items at the given positions, skipping positions past the end.
pub open spec fn picked<T>(rows: Seq<usize>, items: Seq<T>) -> Seq<T>
    decreases rows.len(),
{
    if rows.len() == 0 {
        Seq::empty()
    } else if rows.last() < items.len() {
        picked(rows.drop_last(), items).push(items[rows.last() as int])
    } else {
        picked(rows.drop_last(), items)
    }
}

/// The jobs the page in view lists, in order: the queues', the open
/// partition's, or the open node's; none on the other pages.
pub open spec fn page_jobs_of(ui: UiView, l: Lists, jobs: Seq<JobRecord>, node_jobs: Seq<JobRecord>) -> Seq<JobRecord> {
    match page_of(ui) {
        Page::MyJobs => picked(l.my_jobs@, jobs),
        Page::AllJobs => picked(l.all_jobs@, jobs),
        Page::PartitionDetail => picked(l.partition_jobs@, jobs),
        Page::NodeDetail => picked(l.node_jobs@, node_jobs),
        _ => Seq::empty(),
    }
}

fn pick<'a>(rows: &Vec<usize>, items: &'a Vec<JobRecord>) -> (r: Vec<&'a JobRecord>)
    ensures
        r@.map_values(|j: &JobRecord| *j) == picked(rows@, items@),
{
    let mut r: Vec<&JobRecord> = Vec::new();
    let mut i: usize = 0;
    while i < rows.len()
        invariant
            i <= rows@.len(),
            r@.map_values(|j: &JobRecord| *j) == picked(rows@.take(i as int), items@),
        decreases rows@.len() - i,
    {
        assert(rows@.take(i + 1).drop_last() =~= rows@.take(i as int));
        let ghost before = r@.map_values(|j: &JobRecord| *j);
        if rows[i] < items.len() {
            r.push(&items[rows[i]]);
            assert(r@.map_values(|j: &JobRecord| *j) =~= before.push(items@[rows@[i as int] as int]));
        }
        i = i + 1;
    }
    assert(rows@.take(rows@.len() as int) =~= rows@);
    r
}

/// The jobs the page in view lists.
pub fn page_jobs<'a>(ui: &UiState, lists: &Lists, jobs: &'a Vec<JobRecord>, node_jobs: &'a Vec<JobRecord>) -> (r: Vec<
    &'a JobRecord,
>)
    requires
        ui_wf(ui@),
    ensures
        r@.map_values(|j: &JobRecord| *j) == page_jobs_of(ui@, *lists, jobs@, node_jobs@),
{
    match ui.page() {
        Page::MyJobs => pick(&lists.my_jobs, jobs),
        Page::AllJobs => pick(&lists.all_jobs, jobs),
        Page::PartitionDetail => pick(&lists.partition_jobs, jobs),
        Page::NodeDetail => pick(&lists.node_jobs, node_jobs),
        _ => {
            let r: Vec<&JobRecord> = Vec::new();
            assert(r@.map_values(|j: &JobRecord| *j) =~= Seq::<JobRecord>::empty());
            r
        },
    }
}

/// The running and pending jobs of each partition, by name, as its trend
/// records them.
pub open spec fn partition_trend_points_of(partitions: Seq<PartitionOverview>) -> Seq<(Seq<char>, nat, nat)> {
    partitions.map_values(
        |p: PartitionOverview|
            (
                p.name@,
                (p.mine@.running_jobs + p.others@.running_jobs) as nat,
                (p.mine@.pending_jobs + p.others@.pending_jobs) as nat,
            ),
    )
}

pub fn partition_trend_points(partitions: &Vec<PartitionOverview>) -> (r: Vec<(String, u64, u64)>)
    requires
        forall|k: int| 0 <= k < partitions@.len() ==> partition_fits(#[trigger] partitions@[k]),
    ensures
        r@.map_values(|x: (String, u64, u64)| (x.0@, x.1 as nat, x.2 as nat)) == partition_trend_points_of(
            partitions@,
        ),
{
    let mut r: Vec<(String, u64, u64)> = Vec::new();
    let mut i: usize = 0;
    while i < partitions.len()
        invariant
            i <= partitions@.len(),
            forall|k: int| 0 <= k < partitions@.len() ==> partition_fits(#[trigger] partitions@[k]),
            r@.map_values(|x: (String, u64, u64)| (x.0@, x.1 as nat, x.2 as nat)) == partition_trend_points_of(
                partitions@,
            ).take(i as int),
        decreases partitions@.len() - i,
    {
        let p = &partitions[i];
        assert(partition_fits(partitions@[i as int]));
        let t = p.total_usage();
        let ghost before = r@.map_values(|x: (String, u64, u64)| (x.0@, x.1 as nat, x.2 as nat));
        let item = (clone_string(&p.name), t.running_jobs as u64, t.pending_jobs as u64);
        r.push(item);
        assert(r@.map_values(|x: (String, u64, u64)| (x.0@, x.1 as nat, x.2 as nat)) =~= before.push(
            (item.0@, item.1 as nat, item.2 as nat),
        ));
        assert(partition_trend_points_of(partitions@).take(i + 1) =~= partition_trend_points_of(partitions@).take(
            i as int,
        ).push(partition_trend_points_of(partitions@)[i as int]));
        i = i + 1;
    }
    assert(partition_trend_points_of(partitions@).take(partitions@.len() as int) =~= partition_trend_points_of(
        partitions@,
    ));
    r
}

} // verus!
