//! The interactive state's decisions: pages, filters, sort orders, trends,
//! job detail merging and job cancellation.
use vstd::prelude::*;

use crate::cli::HistoryWindow;
use crate::collector::command::{short_error_of, CaptureView, CommandCapture, CommandStatus};
use crate::collector::opt_note;
use crate::model::parse::{
    parse_history_detail, parse_history_detail_of, parse_scontrol_job, parse_scontrol_job_of,
    scontrol_job_fits,
};
use crate::model::types::{
    clone_opt_string, clone_string, opt_view, string_views, HistoryRecord, JobDetail,
    JobDetailView, JobRecord, JobView, NodeDetail,
};
use crate::text::{
    append_str, ascii_upper, ascii_upper_exec, chars_of, dec, push_dec, contains_str, contains_sub, eq_chars,
    eq_str, lines, lines_exec, parse_u64_exec, parse_unsigned, string_of, trim, trim_exec,
};

verus! {

/// The pages of the interface.
#[derive(Debug, Clone, Copy, PartialEq, Eq, Structural)]
pub enum Page {
    Overview,
    MyJobs,
    Users,
    AllJobs,
    PartitionDetail,
    NodeDetail,
}

pub open spec fn page_label(p: Page) -> Seq<char> {
    match p {
        Page::Overview => "Overview"@,
        Page::MyJobs => "My Jobs"@,
        Page::Users => "Users"@,
        Page::AllJobs => "All Jobs"@,
        Page::PartitionDetail => "Partition Detail"@,
        Page::NodeDetail => "Node Detail"@,
    }
}

impl Page {
    pub fn label(self) -> (s: &'static str)
        ensures
            s@ == page_label(self),
    {
        match self {
            Page::Overview => "Overview",
            Page::MyJobs => "My Jobs",
            Page::Users => "Users",
            Page::AllJobs => "All Jobs",
            Page::PartitionDetail => "Partition Detail",
            Page::NodeDetail => "Node Detail",
        }
    }
}

/// The tabs of the main pages: overview, my jobs and users, then all jobs
/// when that page is enabled.
pub fn main_pages(all_jobs_enabled: bool) -> (pages: Vec<Page>)
    ensures
        pages@ == if all_jobs_enabled {
            seq![Page::Overview, Page::MyJobs, Page::Users, Page::AllJobs]
        } else {
            seq![Page::Overview, Page::MyJobs, Page::Users]
        },
{
    let mut pages: Vec<Page> = Vec::new();
    pages.push(Page::Overview);
    pages.push(Page::MyJobs);
    pages.push(Page::Users);
    if all_jobs_enabled {
        pages.push(Page::AllJobs);
    }
    assert(pages@ =~= if all_jobs_enabled {
        seq![Page::Overview, Page::MyJobs, Page::Users, Page::AllJobs]
    } else {
        seq![Page::Overview, Page::MyJobs, Page::Users]
    });
    pages
}

/// Which jobs the job pages show.
#[derive(Debug, Clone, Copy, PartialEq, Eq, Structural)]
pub enum JobFilter {
    All,
    Active,
    Running,
    Pending,
}

pub open spec fn next_job_filter(f: JobFilter) -> JobFilter {
    match f {
        JobFilter::All => JobFilter::Active,
        JobFilter::Active => JobFilter::Running,
        JobFilter::Running => JobFilter::Pending,
        JobFilter::Pending => JobFilter::All,
    }
}

pub open spec fn job_filter_label(f: JobFilter) -> Seq<char> {
    match f {
        JobFilter::All => "all"@,
        JobFilter::Active => "active"@,
        JobFilter::Running => "running"@,
        JobFilter::Pending => "pending"@,
    }
}

pub open spec fn job_filter_matches(f: JobFilter, active: bool, running: bool, pending: bool) -> bool {
    match f {
        JobFilter::All => true,
        JobFilter::Active => active,
        JobFilter::Running => running,
        JobFilter::Pending => pending,
    }
}

impl JobFilter {
    pub fn next(self) -> (r: Self)
        ensures
            r == next_job_filter(self),
    {
        match self {
            JobFilter::All => JobFilter::Active,
            JobFilter::Active => JobFilter::Running,
            JobFilter::Running => JobFilter::Pending,
            JobFilter::Pending => JobFilter::All,
        }
    }

    pub fn label(self) -> (s: &'static str)
        ensures
            s@ == job_filter_label(self),
    {
        match self {
            JobFilter::All => "all",
            JobFilter::Active => "active",
            JobFilter::Running => "running",
            JobFilter::Pending => "pending",
        }
    }

    pub fn matches(self, job: &JobRecord) -> (b: bool)
        ensures
            b == job_filter_matches(self, job.active, job.running, job.pending),
    {
        match self {
            JobFilter::All => true,
            JobFilter::Active => job.active,
            JobFilter::Running => job.running,
            JobFilter::Pending => job.pending,
        }
    }
}

/// Which finished jobs the history page shows, by state.
#[derive(Debug, Clone, Copy, PartialEq, Eq, Structural)]
pub enum HistoryFilter {
    All,
    Completed,
    Failed,
    Cancelled,
    Timeout,
    Running,
}

pub open spec fn next_history_filter(f: HistoryFilter) -> HistoryFilter {
    match f {
        HistoryFilter::All => HistoryFilter::Completed,
        HistoryFilter::Completed => HistoryFilter::Failed,
        HistoryFilter::Failed => HistoryFilter::Cancelled,
        HistoryFilter::Cancelled => HistoryFilter::Timeout,
        HistoryFilter::Timeout => HistoryFilter::Running,
        HistoryFilter::Running => HistoryFilter::All,
    }
}

pub open spec fn history_filter_label(f: HistoryFilter) -> Seq<char> {
    match f {
        HistoryFilter::All => "all"@,
        HistoryFilter::Completed => "completed"@,
        HistoryFilter::Failed => "failed"@,
        HistoryFilter::Cancelled => "cancelled"@,
        HistoryFilter::Timeout => "timeout"@,
        HistoryFilter::Running => "running"@,
    }
}

/// Whether a state, compared without regard to ASCII case, passes the
/// filter.
pub open spec fn history_filter_matches(f: HistoryFilter, state: Seq<char>) -> bool {
    let s = ascii_upper(state);
    match f {
        HistoryFilter::All => true,
        HistoryFilter::Completed => contains_sub(s, "COMPLETED"@),
        HistoryFilter::Failed => contains_sub(s, "FAILED"@) || contains_sub(s, "NODE_FAIL"@),
        HistoryFilter::Cancelled => contains_sub(s, "CANCELLED"@),
        HistoryFilter::Timeout => contains_sub(s, "TIMEOUT"@),
        HistoryFilter::Running => contains_sub(s, "RUNNING"@),
    }
}

impl HistoryFilter {
    pub fn next(self) -> (r: Self)
        ensures
            r == next_history_filter(self),
    {
        match self {
            HistoryFilter::All => HistoryFilter::Completed,
            HistoryFilter::Completed => HistoryFilter::Failed,
            HistoryFilter::Failed => HistoryFilter::Cancelled,
            HistoryFilter::Cancelled => HistoryFilter::Timeout,
            HistoryFilter::Timeout => HistoryFilter::Running,
            HistoryFilter::Running => HistoryFilter::All,
        }
    }

    pub fn label(self) -> (s: &'static str)
        ensures
            s@ == history_filter_label(self),
    {
        match self {
            HistoryFilter::All => "all",
            HistoryFilter::Completed => "completed",
            HistoryFilter::Failed => "failed",
            HistoryFilter::Cancelled => "cancelled",
            HistoryFilter::Timeout => "timeout",
            HistoryFilter::Running => "running",
        }
    }

    pub fn matches(self, history: &HistoryRecord) -> (b: bool)
        ensures
            b == history_filter_matches(self, history.state@),
    {
        let raw = chars_of(history.state.as_str());
        let s = ascii_upper_exec(&raw);
        match self {
            HistoryFilter::All => true,
            HistoryFilter::Completed => contains_str(&s, "COMPLETED"),
            HistoryFilter::Failed => contains_str(&s, "FAILED") || contains_str(&s, "NODE_FAIL"),
            HistoryFilter::Cancelled => contains_str(&s, "CANCELLED"),
            HistoryFilter::Timeout => contains_str(&s, "TIMEOUT"),
            HistoryFilter::Running => contains_str(&s, "RUNNING"),
        }
    }
}

/// The columns of the overview table.
#[derive(Debug, Clone, Copy, PartialEq, Eq, Structural)]
pub enum OverviewColumn {
    Partition,
    Nodes,
    Pressure,
    MineRunning,
    MinePending,
    OthersRunning,
    OthersPending,
    TotalJobs,
}

pub open spec fn next_overview_column(c: OverviewColumn) -> OverviewColumn {
    match c {
        OverviewColumn::Partition => OverviewColumn::Nodes,
        OverviewColumn::Nodes => OverviewColumn::Pressure,
        OverviewColumn::Pressure => OverviewColumn::MineRunning,
        OverviewColumn::MineRunning => OverviewColumn::MinePending,
        OverviewColumn::MinePending => OverviewColumn::OthersRunning,
        OverviewColumn::OthersRunning => OverviewColumn::OthersPending,
        OverviewColumn::OthersPending => OverviewColumn::TotalJobs,
        OverviewColumn::TotalJobs => OverviewColumn::Partition,
    }
}

pub open spec fn overview_column_label(c: OverviewColumn) -> Seq<char> {
    match c {
        OverviewColumn::Partition => "Partition"@,
        OverviewColumn::Nodes => "Nodes"@,
        OverviewColumn::Pressure => "Pressure"@,
        OverviewColumn::MineRunning => "Mine running"@,
        OverviewColumn::MinePending => "Mine pending"@,
        OverviewColumn::OthersRunning => "Others running"@,
        OverviewColumn::OthersPending => "Others pending"@,
        OverviewColumn::TotalJobs => "Total jobs"@,
    }
}

impl OverviewColumn {
    pub fn next(self) -> (r: Self)
        ensures
            r == next_overview_column(self),
    {
        match self {
            OverviewColumn::Partition => OverviewColumn::Nodes,
            OverviewColumn::Nodes => OverviewColumn::Pressure,
            OverviewColumn::Pressure => OverviewColumn::MineRunning,
            OverviewColumn::MineRunning => OverviewColumn::MinePending,
            OverviewColumn::MinePending => OverviewColumn::OthersRunning,
            OverviewColumn::OthersRunning => OverviewColumn::OthersPending,
            OverviewColumn::OthersPending => OverviewColumn::TotalJobs,
            OverviewColumn::TotalJobs => OverviewColumn::Partition,
        }
    }

    pub fn label(self) -> (s: &'static str)
        ensures
            s@ == overview_column_label(self),
    {
        match self {
            OverviewColumn::Partition => "Partition",
            OverviewColumn::Nodes => "Nodes",
            OverviewColumn::Pressure => "Pressure",
            OverviewColumn::MineRunning => "Mine running",
            OverviewColumn::MinePending => "Mine pending",
            OverviewColumn::OthersRunning => "Others running",
            OverviewColumn::OthersPending => "Others pending",
            OverviewColumn::TotalJobs => "Total jobs",
        }
    }
}

/// The columns of the job tables.
#[derive(Debug, Clone, Copy, PartialEq, Eq, Structural)]
pub enum JobColumn {
    JobId,
    User,
    Partition,
    State,
    Name,
    Runtime,
    TimeLimit,
    Nodes,
    Cpus,
    Priority,
    WhereWhy,
}

pub open spec fn next_job_column(c: JobColumn) -> JobColumn {
    match c {
        JobColumn::JobId => JobColumn::User,
        JobColumn::User => JobColumn::Partition,
        JobColumn::Partition => JobColumn::State,
        JobColumn::State => JobColumn::Name,
        JobColumn::Name => JobColumn::Runtime,
        JobColumn::Runtime => JobColumn::TimeLimit,
        JobColumn::TimeLimit => JobColumn::Nodes,
        JobColumn::Nodes => JobColumn::Cpus,
        JobColumn::Cpus => JobColumn::Priority,
        JobColumn::Priority => JobColumn::WhereWhy,
        JobColumn::WhereWhy => JobColumn::JobId,
    }
}

pub open spec fn job_column_label(c: JobColumn) -> Seq<char> {
    match c {
        JobColumn::JobId => "Job ID"@,
        JobColumn::User => "User"@,
        JobColumn::Partition => "Partition"@,
        JobColumn::State => "State"@,
        JobColumn::Name => "Name"@,
        JobColumn::Runtime => "Runtime"@,
        JobColumn::TimeLimit => "Time limit"@,
        JobColumn::Nodes => "Nodes"@,
        JobColumn::Cpus => "CPUs"@,
        JobColumn::Priority => "Priority"@,
        JobColumn::WhereWhy => "Placement / reason"@,
    }
}

impl JobColumn {
    pub fn next(self) -> (r: Self)
        ensures
            r == next_job_column(self),
    {
        match self {
            JobColumn::JobId => JobColumn::User,
            JobColumn::User => JobColumn::Partition,
            JobColumn::Partition => JobColumn::State,
            JobColumn::State => JobColumn::Name,
            JobColumn::Name => JobColumn::Runtime,
            JobColumn::Runtime => JobColumn::TimeLimit,
            JobColumn::TimeLimit => JobColumn::Nodes,
            JobColumn::Nodes => JobColumn::Cpus,
            JobColumn::Cpus => JobColumn::Priority,
            JobColumn::Priority => JobColumn::WhereWhy,
            JobColumn::WhereWhy => JobColumn::JobId,
        }
    }

    pub fn label(self) -> (s: &'static str)
        ensures
            s@ == job_column_label(self),
    {
        match self {
            JobColumn::JobId => "Job ID",
            JobColumn::User => "User",
            JobColumn::Partition => "Partition",
            JobColumn::State => "State",
            JobColumn::Name => "Name",
            JobColumn::Runtime => "Runtime",
            JobColumn::TimeLimit => "Time limit",
            JobColumn::Nodes => "Nodes",
            JobColumn::Cpus => "CPUs",
            JobColumn::Priority => "Priority",
            JobColumn::WhereWhy => "Placement / reason",
        }
    }
}

/// The columns of the users table.
#[derive(Debug, Clone, Copy, PartialEq, Eq, Structural)]
pub enum UserColumn {
    User,
    RunningJobs,
    PendingJobs,
    TotalJobs,
    ResourceFootprint,
    Partitions,
}

pub open spec fn next_user_column(c: UserColumn) -> UserColumn {
    match c {
        UserColumn::User => UserColumn::RunningJobs,
        UserColumn::RunningJobs => UserColumn::PendingJobs,
        UserColumn::PendingJobs => UserColumn::TotalJobs,
        UserColumn::TotalJobs => UserColumn::ResourceFootprint,
        UserColumn::ResourceFootprint => UserColumn::Partitions,
        UserColumn::Partitions => UserColumn::User,
    }
}

pub open spec fn user_column_label(c: UserColumn) -> Seq<char> {
    match c {
        UserColumn::User => "User"@,
        UserColumn::RunningJobs => "Running jobs"@,
        UserColumn::PendingJobs => "Pending jobs"@,
        UserColumn::TotalJobs => "Total jobs"@,
        UserColumn::ResourceFootprint => "Resource footprint"@,
        UserColumn::Partitions => "Top partitions"@,
    }
}

impl UserColumn {
    pub fn next(self) -> (r: Self)
        ensures
            r == next_user_column(self),
    {
        match self {
            UserColumn::User => UserColumn::RunningJobs,
            UserColumn::RunningJobs => UserColumn::PendingJobs,
            UserColumn::PendingJobs => UserColumn::TotalJobs,
            UserColumn::TotalJobs => UserColumn::ResourceFootprint,
            UserColumn::ResourceFootprint => UserColumn::Partitions,
            UserColumn::Partitions => UserColumn::User,
        }
    }

    pub fn label(self) -> (s: &'static str)
        ensures
            s@ == user_column_label(self),
    {
        match self {
            UserColumn::User => "User",
            UserColumn::RunningJobs => "Running jobs",
            UserColumn::PendingJobs => "Pending jobs",
            UserColumn::TotalJobs => "Total jobs",
            UserColumn::ResourceFootprint => "Resource footprint",
            UserColumn::Partitions => "Top partitions",
        }
    }
}

/// The order of a sorted column.
#[derive(Debug, Clone, Copy, PartialEq, Eq, Structural)]
pub enum SortDirection {
    Desc,
    Asc,
}

pub open spec fn toggled(d: SortDirection) -> SortDirection {
    match d {
        SortDirection::Desc => SortDirection::Asc,
        SortDirection::Asc => SortDirection::Desc,
    }
}

pub open spec fn direction_arrow(d: SortDirection) -> Seq<char> {
    match d {
        SortDirection::Desc => "↓"@,
        SortDirection::Asc => "↑"@,
    }
}

impl SortDirection {
    pub fn toggle(self) -> (r: Self)
        ensures
            r == toggled(self),
    {
        match self {
            SortDirection::Desc => SortDirection::Asc,
            SortDirection::Asc => SortDirection::Desc,
        }
    }

    pub fn arrow(self) -> (s: &'static str)
        ensures
            s@ == direction_arrow(self),
    {
        match self {
            SortDirection::Desc => "↓",
            SortDirection::Asc => "↑",
        }
    }
}

/// The sort order of the history page.
#[derive(Debug, Clone, Copy, PartialEq, Eq, Structural)]
pub enum HistorySort {
    EndTime,
    Elapsed,
    User,
    Partition,
}

pub open spec fn next_history_sort(s: HistorySort) -> HistorySort {
    match s {
        HistorySort::EndTime => HistorySort::Elapsed,
        HistorySort::Elapsed => HistorySort::User,
        HistorySort::User => HistorySort::Partition,
        HistorySort::Partition => HistorySort::EndTime,
    }
}

pub open spec fn history_sort_label(s: HistorySort) -> Seq<char> {
    match s {
        HistorySort::EndTime => "end"@,
        HistorySort::Elapsed => "elapsed"@,
        HistorySort::User => "user"@,
        HistorySort::Partition => "partition"@,
    }
}

impl HistorySort {
    pub fn next(self) -> (r: Self)
        ensures
            r == next_history_sort(self),
    {
        match self {
            HistorySort::EndTime => HistorySort::Elapsed,
            HistorySort::Elapsed => HistorySort::User,
            HistorySort::User => HistorySort::Partition,
            HistorySort::Partition => HistorySort::EndTime,
        }
    }

    pub fn label(self) -> (s: &'static str)
        ensures
            s@ == history_sort_label(self),
    {
        match self {
            HistorySort::EndTime => "end",
            HistorySort::Elapsed => "elapsed",
            HistorySort::User => "user",
            HistorySort::Partition => "partition",
        }
    }
}

/// Each cycle of labels comes back to where it started: four job filters,
/// six history filters, eight overview columns, eleven job columns, six
/// user columns, two directions and four history sorts.
pub proof fn lemma_cycles(
    f: JobFilter,
    h: HistoryFilter,
    o: OverviewColumn,
    j: JobColumn,
    u: UserColumn,
    d: SortDirection,
    s: HistorySort,
)
    ensures
        next_job_filter(next_job_filter(next_job_filter(next_job_filter(f)))) == f,
        next_history_filter(
            next_history_filter(
                next_history_filter(next_history_filter(next_history_filter(next_history_filter(h)))),
            ),
        ) == h,
        next_overview_column(
            next_overview_column(
                next_overview_column(
                    next_overview_column(
                        next_overview_column(
                            next_overview_column(next_overview_column(next_overview_column(o))),
                        ),
                    ),
                ),
            ),
        ) == o,
        next_job_column(
            next_job_column(
                next_job_column(
                    next_job_column(
                        next_job_column(
                            next_job_column(
                                next_job_column(
                                    next_job_column(
                                        next_job_column(next_job_column(next_job_column(j))),
                                    ),
                                ),
                            ),
                        ),
                    ),
                ),
            ),
        ) == j,
        next_user_column(
            next_user_column(
                next_user_column(next_user_column(next_user_column(next_user_column(u)))),
            ),
        ) == u,
        toggled(toggled(d)) == d,
        toggled(d) != d,
        next_history_sort(next_history_sort(next_history_sort(next_history_sort(s)))) == s,
{
}

/// The sort order of the overview table.
#[derive(Debug, Clone, Copy, PartialEq, Eq, Structural)]
pub struct OverviewSortState {
    pub column: OverviewColumn,
    pub direction: SortDirection,
}

/// The sort order of the job tables.
#[derive(Debug, Clone, Copy, PartialEq, Eq, Structural)]
pub struct JobSortState {
    pub column: JobColumn,
    pub direction: SortDirection,
}

/// The sort order of the users table.
#[derive(Debug, Clone, Copy, PartialEq, Eq, Structural)]
pub struct UserSortState {
    pub column: UserColumn,
    pub direction: SortDirection,
}

/// `column arrow`, as shown above a sorted table.
pub open spec fn sort_label_of(column: Seq<char>, d: SortDirection) -> Seq<char> {
    column + " "@ + direction_arrow(d)
}

fn sort_label_text(column: &str, d: SortDirection) -> (s: String)
    ensures
        s@ == sort_label_of(column@, d),
{
    let mut v = chars_of(column);
    append_str(&mut v, " ");
    append_str(&mut v, d.arrow());
    string_of(&v)
}

impl OverviewSortState {
    pub fn label(self) -> (s: String)
        ensures
            s@ == sort_label_of(overview_column_label(self.column), self.direction),
    {
        sort_label_text(self.column.label(), self.direction)
    }

    /// The next column, sorted descending.
    pub fn cycle(self) -> (r: Self)
        ensures
            r == (OverviewSortState {
                column: next_overview_column(self.column),
                direction: SortDirection::Desc,
            }),
    {
        OverviewSortState { column: self.column.next(), direction: SortDirection::Desc }
    }

    /// Choosing the sorted column reverses its order; choosing another
    /// column sorts by it, descending.
    pub fn choose_column(&mut self, column: OverviewColumn)
        ensures
            (final(self).column, final(self).direction) == chosen(
                old(self).column,
                old(self).direction,
                column,
            ),
    {
        if self.column == column {
            self.direction = self.direction.toggle();
        } else {
            self.column = column;
            self.direction = SortDirection::Desc;
        }
    }
}

impl JobSortState {
    pub fn label(self) -> (s: String)
        ensures
            s@ == sort_label_of(job_column_label(self.column), self.direction),
    {
        sort_label_text(self.column.label(), self.direction)
    }

    /// The next column, sorted descending.
    pub fn cycle(self) -> (r: Self)
        ensures
            r == (JobSortState { column: next_job_column(self.column), direction: SortDirection::Desc }),
    {
        JobSortState { column: self.column.next(), direction: SortDirection::Desc }
    }

    /// Choosing the sorted column reverses its order; choosing another
    /// column sorts by it, descending.
    pub fn choose_column(&mut self, column: JobColumn)
        ensures
            (final(self).column, final(self).direction) == chosen(
                old(self).column,
                old(self).direction,
                column,
            ),
    {
        if self.column == column {
            self.direction = self.direction.toggle();
        } else {
            self.column = column;
            self.direction = SortDirection::Desc;
        }
    }
}

impl UserSortState {
    pub fn label(self) -> (s: String)
        ensures
            s@ == sort_label_of(user_column_label(self.column), self.direction),
    {
        sort_label_text(self.column.label(), self.direction)
    }

    /// The next column, sorted descending.
    pub fn cycle(self) -> (r: Self)
        ensures
            r == (UserSortState { column: next_user_column(self.column), direction: SortDirection::Desc }),
    {
        UserSortState { column: self.column.next(), direction: SortDirection::Desc }
    }

    /// Choosing the sorted column reverses its order; choosing another
    /// column sorts by it, descending.
    pub fn choose_column(&mut self, column: UserColumn)
        ensures
            (final(self).column, final(self).direction) == chosen(
                old(self).column,
                old(self).direction,
                column,
            ),
    {
        if self.column == column {
            self.direction = self.direction.toggle();
        } else {
            self.column = column;
            self.direction = SortDirection::Desc;
        }
    }
}

/// What the history page shows and how.
#[derive(Debug)]
pub struct HistoryViewState {
    pub window: HistoryWindow,
    pub sort: HistorySort,
    pub state_filter: HistoryFilter,
    pub records: Vec<HistoryRecord>,
    pub notes: Vec<String>,
    pub last_loaded_at: Option<String>,
    pub loading: bool,
    pub available: bool,
}

impl HistoryViewState {
    /// A history page for `window`, by end time, unfiltered, empty and
    /// loading.
    pub fn new(window: HistoryWindow) -> (h: Self)
        ensures
            h.window == window,
            h.sort == HistorySort::EndTime,
            h.state_filter == HistoryFilter::All,
            h.records@.len() == 0,
            h.notes@.len() == 0,
            h.last_loaded_at is None,
            h.loading,
            h.available,
    {
        HistoryViewState {
            window,
            sort: HistorySort::EndTime,
            state_filter: HistoryFilter::All,
            records: Vec::new(),
            notes: Vec::new(),
            last_loaded_at: None,
            loading: true,
            available: true,
        }
    }
}

/// Which node the node page shows, and the filters on its jobs. What was
/// loaded for the node is kept beside it, by whoever loads it.
#[derive(Debug, Clone)]
pub struct NodeDetailState {
    pub node_name: String,
    pub partition: String,
    pub selected_job: usize,
    pub user_filter_index: usize,
    pub state_filter_index: usize,
    pub where_filter: String,
    pub where_draft: String,
    pub why_filter: String,
    pub why_draft: String,
}

impl NodeDetailState {
    /// The page of `node_name` in `partition`, with no filters.
    pub fn new(node_name: String, partition: String) -> (n: Self)
        ensures
            n.node_name@ == node_name@,
            n.partition@ == partition@,
            n.selected_job == 0,
            n.user_filter_index == 0,
            n.state_filter_index == 0,
            n.where_filter@ == Seq::<char>::empty(),
            n.where_draft@ == Seq::<char>::empty(),
            n.why_filter@ == Seq::<char>::empty(),
            n.why_draft@ == Seq::<char>::empty(),
    {
        NodeDetailState {
            node_name,
            partition,
            selected_job: 0,
            user_filter_index: 0,
            state_filter_index: 0,
            where_filter: String::new(),
            where_draft: String::new(),
            why_filter: String::new(),
            why_draft: String::new(),
        }
    }
}

/// A job offered for cancellation, and whether it may be cancelled.
#[derive(Debug, Clone)]
pub struct CancelCandidate {
    pub job_id: String,
    pub name: String,
    pub user: String,
    pub partition: String,
    pub state: String,
    pub allowed: bool,
    pub reason: Option<String>,
}

/// Whether one job or the visible jobs are being cancelled.
#[derive(Debug, Clone, Copy, PartialEq, Eq, Structural)]
pub enum CancelScope {
    Single,
    Visible,
}

/// The jobs a cancel request would touch.
#[derive(Debug, Clone)]
pub struct CancelPreview {
    pub scope: CancelScope,
    pub title: String,
    pub candidates: Vec<CancelCandidate>,
}

/// The ids of the candidates that may be cancelled, in order.
pub open spec fn allowed_ids(c: Seq<CancelCandidate>) -> Seq<Seq<char>>
    decreases c.len(),
{
    if c.len() == 0 {
        Seq::empty()
    } else if c.last().allowed {
        allowed_ids(c.drop_last()).push(c.last().job_id@)
    } else {
        allowed_ids(c.drop_last())
    }
}

impl CancelPreview {
    pub fn allowed_job_ids(&self) -> (ids: Vec<String>)
        ensures
            string_views(ids@) == allowed_ids(self.candidates@),
    {
        let mut ids: Vec<String> = Vec::new();
        let mut i: usize = 0;
        while i < self.candidates.len()
            invariant
                i <= self.candidates@.len(),
                string_views(ids@) == allowed_ids(self.candidates@.take(i as int)),
            decreases self.candidates@.len() - i,
        {
            let ghost before = string_views(ids@);
            if self.candidates[i].allowed {
                ids.push(clone_string(&self.candidates[i].job_id));
                assert(string_views(ids@) =~= before.push(self.candidates@[i as int].job_id@));
            }
            assert(self.candidates@.take(i + 1).drop_last() =~= self.candidates@.take(i as int));
            i = i + 1;
        }
        assert(self.candidates@.take(self.candidates@.len() as int) =~= self.candidates@);
        ids
    }

    pub fn allowed_count(&self) -> (n: usize)
        ensures
            n == allowed_ids(self.candidates@).len(),
    {
        let mut n: usize = 0;
        let mut i: usize = 0;
        while i < self.candidates.len()
            invariant
                i <= self.candidates@.len(),
                n == allowed_ids(self.candidates@.take(i as int)).len(),
                n <= i,
            decreases self.candidates@.len() - i,
        {
            if self.candidates[i].allowed {
                n = n + 1;
            }
            assert(self.candidates@.take(i + 1).drop_last() =~= self.candidates@.take(i as int));
            i = i + 1;
        }
        assert(self.candidates@.take(self.candidates@.len() as int) =~= self.candidates@);
        n
    }
}

/// The result of cancelling one job.
#[derive(Debug, Clone)]
pub struct CancelOutcome {
    pub job_id: String,
    pub success: bool,
    pub message: String,
}

/// The results of a cancel request.
#[derive(Debug, Clone)]
pub struct CancelReport {
    pub scope: CancelScope,
    pub results: Vec<CancelOutcome>,
}

/// How many outcomes succeeded.
pub open spec fn successes(r: Seq<CancelOutcome>) -> nat
    decreases r.len(),
{
    if r.len() == 0 {
        0
    } else {
        successes(r.drop_last()) + if r.last().success {
            1nat
        } else {
            0nat
        }
    }
}

pub proof fn lemma_successes_bounded(r: Seq<CancelOutcome>)
    ensures
        successes(r) <= r.len(),
    decreases r.len(),
{
    if r.len() > 0 {
        lemma_successes_bounded(r.drop_last());
    }
}

impl CancelReport {
    pub fn succeeded(&self) -> (n: usize)
        ensures
            n == successes(self.results@),
    {
        let mut n: usize = 0;
        let mut i: usize = 0;
        while i < self.results.len()
            invariant
                i <= self.results@.len(),
                n == successes(self.results@.take(i as int)),
                n <= i,
            decreases self.results@.len() - i,
        {
            assert(self.results@.take(i + 1).drop_last() =~= self.results@.take(i as int));
            if self.results[i].success {
                n = n + 1;
            }
            i = i + 1;
        }
        assert(self.results@.take(self.results@.len() as int) =~= self.results@);
        n
    }

    pub fn failed(&self) -> (n: usize)
        ensures
            n == self.results@.len() - successes(self.results@),
    {
        proof {
            lemma_successes_bounded(self.results@);
        }
        self.results.len() - self.succeeded()
    }

    /// The status line after a cancel request: how many jobs were
    /// cancelled and how many failed.
    pub fn summary_line(&self) -> (s: String)
        ensures
            s@ == "Cancelled "@ + dec(successes(self.results@)) + " job(s); "@ + dec(
                (self.results@.len() - successes(self.results@)) as nat,
            ) + " failed"@,
    {
        let ok = self.succeeded();
        let bad = self.failed();
        let mut out = chars_of("Cancelled ");
        push_dec(&mut out, ok as u64);
        append_str(&mut out, " job(s); ");
        push_dec(&mut out, bad as u64);
        append_str(&mut out, " failed");
        string_of(&out)
    }
}

/// The job detail the open dialog waits for, and what has arrived for it.
#[derive(Debug, Clone)]
pub struct DetailRequest {
    pub job_id: String,
    pub loading: bool,
    pub detail: Option<JobDetail>,
    pub error: Option<String>,
}

impl DetailRequest {
    /// A request for `job_id`, still loading.
    pub fn new(job_id: String) -> (r: Self)
        ensures
            r.job_id == job_id,
            r.loading,
            r.detail is None,
            r.error is None,
    {
        DetailRequest { job_id, loading: true, detail: None, error: None }
    }

    /// Takes a fetched detail (or the error that stopped it). It is kept
    /// only when it answers this request; a late answer for another job is
    /// dropped and the request stays as it was.
    pub fn receive(&mut self, job_id: &str, detail: Option<JobDetail>, error: Option<String>)
        ensures
            old(self).job_id@ == job_id@ ==> final(self).job_id == old(self).job_id
                && !final(self).loading && final(self).detail == detail && final(self).error == error,
            old(self).job_id@ != job_id@ ==> *final(self) == *old(self),
    {
        let mine = chars_of(self.job_id.as_str());
        if eq_str(&mine, job_id) {
            self.loading = false;
            self.detail = detail;
            self.error = error;
        }
    }
}

/// Why a job may not be cancelled by `current_user`: it is no longer
/// active, or it belongs to someone else.
pub open spec fn denial_reason(active: bool, user: Seq<char>, current_user: Seq<char>) -> Option<
    Seq<char>,
> {
    if !active {
        Some("job is no longer active"@)
    } else if user != current_user {
        Some("only your active jobs can be cancelled"@)
    } else {
        None
    }
}

pub fn cancel_denial_reason(job: &JobRecord, current_user: &str) -> (r: Option<&'static str>)
    ensures
        match r {
            Some(s) => denial_reason(job.active, job.user@, current_user@) == Some(s@),
            None => denial_reason(job.active, job.user@, current_user@) is None,
        },
{
    if !job.active {
        Some("job is no longer active")
    } else {
        let u = chars_of(job.user.as_str());
        let me = chars_of(current_user);
        if !eq_chars(&u, &me) {
            Some("only your active jobs can be cancelled")
        } else {
            None
        }
    }
}

/// The candidate for a job: its fields, and whether and why not it may be
/// cancelled.
pub open spec fn candidate_of(j: JobView, current_user: Seq<char>) -> (Seq<char>, Seq<char>, Seq<char>, Seq<char>, Seq<char>, bool, Option<Seq<char>>) {
    (
        j.job_id,
        j.name,
        j.user,
        j.partition_raw,
        j.state,
        denial_reason(j.active, j.user, current_user) is None,
        denial_reason(j.active, j.user, current_user),
    )
}

pub open spec fn candidate_view(c: CancelCandidate) -> (Seq<char>, Seq<char>, Seq<char>, Seq<char>, Seq<char>, bool, Option<Seq<char>>) {
    (c.job_id@, c.name@, c.user@, c.partition@, c.state@, c.allowed, opt_view(c.reason))
}

pub fn build_cancel_candidate(job: &JobRecord, current_user: &str) -> (c: CancelCandidate)
    ensures
        candidate_view(c) == candidate_of(job@, current_user@),
{
    let reason = cancel_denial_reason(job, current_user);
    CancelCandidate {
        job_id: clone_string(&job.job_id),
        name: clone_string(&job.name),
        user: clone_string(&job.user),
        partition: clone_string(&job.partition_raw),
        state: clone_string(&job.state),
        allowed: reason.is_none(),
        reason: match reason {
            Some(r) => Some(String::from_str(r)),
            None => None,
        },
    }
}

pub fn build_bulk_cancel_candidates(jobs: &Vec<&JobRecord>, current_user: &str) -> (r: Vec<
    CancelCandidate,
>)
    ensures
        r@.len() == jobs@.len(),
        forall|i: int|
            0 <= i < jobs@.len() ==> candidate_view(#[trigger] r@[i]) == candidate_of(
                jobs@[i]@,
                current_user@,
            ),
{
    let mut r: Vec<CancelCandidate> = Vec::new();
    let mut i: usize = 0;
    while i < jobs.len()
        invariant
            i <= jobs@.len(),
            r@.len() == i,
            forall|k: int|
                0 <= k < i ==> candidate_view(#[trigger] r@[k]) == candidate_of(
                    jobs@[k]@,
                    current_user@,
                ),
        decreases jobs@.len() - i,
    {
        r.push(build_cancel_candidate(jobs[i], current_user));
        i = i + 1;
    }
    r
}

/// The ids, in order, of the jobs that are still active and belong to
/// `current_user`.
pub open spec fn own_active_ids(jobs: Seq<JobView>, current_user: Seq<char>) -> Seq<Seq<char>>
    decreases jobs.len(),
{
    if jobs.len() == 0 {
        Seq::empty()
    } else if jobs.last().active && jobs.last().user == current_user {
        own_active_ids(jobs.drop_last(), current_user).push(jobs.last().job_id)
    } else {
        own_active_ids(jobs.drop_last(), current_user)
    }
}

/// A cancel request built from a list of jobs lets through exactly the
/// current user's jobs that are still active, in the order they were listed:
/// no other user's job and no finished job is ever sent to be cancelled.
pub proof fn lemma_cancel_only_own_active(
    candidates: Seq<CancelCandidate>,
    jobs: Seq<JobView>,
    current_user: Seq<char>,
)
    requires
        candidates.len() == jobs.len(),
        forall|i: int|
            0 <= i < jobs.len() ==> candidate_view(#[trigger] candidates[i]) == candidate_of(
                jobs[i],
                current_user,
            ),
    ensures
        allowed_ids(candidates) == own_active_ids(jobs, current_user),
    decreases jobs.len(),
{
    if jobs.len() > 0 {
        let n = jobs.len() - 1;
        assert(candidate_view(candidates[n]) == candidate_of(jobs[n], current_user));
        lemma_cancel_only_own_active(candidates.drop_last(), jobs.drop_last(), current_user);
    }
}

/// The `Debug` name of a run's status.
pub open spec fn status_name(s: CommandStatus) -> Seq<char> {
    match s {
        CommandStatus::Success => "Success"@,
        CommandStatus::Failed => "Failed"@,
        CommandStatus::TimedOut => "TimedOut"@,
        CommandStatus::Cancelled => "Cancelled"@,
        CommandStatus::SpawnError => "SpawnError"@,
    }
}

fn status_name_exec(s: CommandStatus) -> (r: &'static str)
    ensures
        r@ == status_name(s),
{
    match s {
        CommandStatus::Success => "Success",
        CommandStatus::Failed => "Failed",
        CommandStatus::TimedOut => "TimedOut",
        CommandStatus::Cancelled => "Cancelled",
        CommandStatus::SpawnError => "SpawnError",
    }
}

/// What a `scancel` run says: `cancelled`, the first line of its error
/// output, or the status when it printed none.
pub open spec fn cancel_message_of(c: CaptureView) -> Seq<char> {
    if c.status == CommandStatus::Success {
        "cancelled"@
    } else if trim(c.stderr).len() == 0 {
        "failed ("@ + status_name(c.status) + ")"@
    } else if lines(c.stderr).len() > 0 {
        lines(c.stderr)[0]
    } else {
        "cancel failed"@
    }
}

pub fn cancel_message(capture: &CommandCapture) -> (s: String)
    ensures
        s@ == cancel_message_of(capture@),
{
    if capture.ok() {
        return String::from_str("cancelled");
    }
    let err = chars_of(capture.stderr.as_str());
    let t = trim_exec(&err);
    if t.len() == 0 {
        let mut v = chars_of("failed (");
        append_str(&mut v, status_name_exec(capture.status));
        append_str(&mut v, ")");
        return string_of(&v);
    }
    let ls = lines_exec(&err);
    if ls.len() > 0 {
        string_of(&ls[0])
    } else {
        String::from_str("cancel failed")
    }
}

/// The rank of a job state when sorting by state: running first, then
/// completing, configuring, pending, suspended, completed, failed, timeout,
/// cancelled, and every other state last.
pub open spec fn state_rank(state: Seq<char>) -> u8 {
    if state == "RUNNING"@ {
        0
    } else if state == "COMPLETING"@ {
        1
    } else if state == "CONFIGURING"@ {
        2
    } else if state == "PENDING"@ {
        3
    } else if state == "SUSPENDED"@ {
        4
    } else if state == "COMPLETED"@ {
        5
    } else if state == "FAILED"@ {
        6
    } else if state == "TIMEOUT"@ {
        7
    } else if state == "CANCELLED"@ {
        8
    } else {
        9
    }
}

/// The key a job state sorts by: its rank, then the state itself.
pub fn state_sort_key(state: &str) -> (k: (u8, &str))
    ensures
        k.0 == state_rank(state@),
        k.1@ == state@,
{
    let v = chars_of(state);
    let rank: u8 = if eq_str(&v, "RUNNING") {
        0
    } else if eq_str(&v, "COMPLETING") {
        1
    } else if eq_str(&v, "CONFIGURING") {
        2
    } else if eq_str(&v, "PENDING") {
        3
    } else if eq_str(&v, "SUSPENDED") {
        4
    } else if eq_str(&v, "COMPLETED") {
        5
    } else if eq_str(&v, "FAILED") {
        6
    } else if eq_str(&v, "TIMEOUT") {
        7
    } else if eq_str(&v, "CANCELLED") {
        8
    } else {
        9
    };
    (rank, state)
}

/// The number a job id sorts by: its value as an unsigned integer, or 0
/// when it is not one.
pub open spec fn job_id_number(job_id: Seq<char>) -> nat {
    match parse_unsigned(job_id, u64::MAX as nat) {
        Some(n) => n,
        None => 0,
    }
}

/// The key a job id sorts by: its number, then the id itself.
pub fn job_id_key(job_id: &str) -> (k: (u64, &str))
    ensures
        k.0 == job_id_number(job_id@),
        k.1@ == job_id@,
{
    let v = chars_of(job_id);
    let n: u64 = match parse_u64_exec(&v) {
        Some(n) => n,
        None => 0,
    };
    (n, job_id)
}

/// `a` when it is set, else `b`.
pub open spec fn fill<T>(a: Option<T>, b: Option<T>) -> Option<T> {
    match a {
        Some(x) => Some(x),
        None => b,
    }
}

/// `target` with each of its missing fields taken from `incoming`; the id
/// and the notes stay, and the job counts as active, or as the user's, when
/// either says so.
pub open spec fn merged_detail(t: JobDetailView, i: JobDetailView) -> JobDetailView {
    JobDetailView {
        job_id: t.job_id,
        name: fill(t.name, i.name),
        user: fill(t.user, i.user),
        account: fill(t.account, i.account),
        partition: fill(t.partition, i.partition),
        state: fill(t.state, i.state),
        reason: fill(t.reason, i.reason),
        exit_code: fill(t.exit_code, i.exit_code),
        nodes: fill(t.nodes, i.nodes),
        n_tasks: fill(t.n_tasks, i.n_tasks),
        cpus: fill(t.cpus, i.cpus),
        memory_mb: fill(t.memory_mb, i.memory_mb),
        requested_gpus: fill(t.requested_gpus, i.requested_gpus),
        gres: fill(t.gres, i.gres),
        req_tres: fill(t.req_tres, i.req_tres),
        alloc_tres: fill(t.alloc_tres, i.alloc_tres),
        runtime_raw: fill(t.runtime_raw, i.runtime_raw),
        time_limit_raw: fill(t.time_limit_raw, i.time_limit_raw),
        submit_time: fill(t.submit_time, i.submit_time),
        start_time: fill(t.start_time, i.start_time),
        end_time: fill(t.end_time, i.end_time),
        node_list: fill(t.node_list, i.node_list),
        work_dir: fill(t.work_dir, i.work_dir),
        command: fill(t.command, i.command),
        stdout_path: fill(t.stdout_path, i.stdout_path),
        stderr_path: fill(t.stderr_path, i.stderr_path),
        source_notes: t.source_notes,
        active: t.active || i.active,
        is_mine: t.is_mine || i.is_mine,
    }
}

fn fill_string(t: &mut Option<String>, i: &Option<String>)
    ensures
        opt_view(*final(t)) == fill(opt_view(*old(t)), opt_view(*i)),
{
    if t.is_none() {
        *t = clone_opt_string(i);
    }
}

fn fill_u32(t: &mut Option<u32>, i: Option<u32>)
    ensures
        *final(t) == fill(*old(t), i),
{
    if t.is_none() {
        *t = i;
    }
}

/// Fills the fields `target` lacks from `incoming`.
pub fn merge_detail_fields(target: &mut JobDetail, incoming: &JobDetail)
    ensures
        final(target)@ == merged_detail(old(target)@, incoming@),
{
    fill_string(&mut target.name, &incoming.name);
    fill_string(&mut target.user, &incoming.user);
    fill_string(&mut target.account, &incoming.account);
    fill_string(&mut target.partition, &incoming.partition);
    fill_string(&mut target.state, &incoming.state);
    fill_string(&mut target.reason, &incoming.reason);
    fill_string(&mut target.exit_code, &incoming.exit_code);
    fill_string(&mut target.runtime_raw, &incoming.runtime_raw);
    fill_string(&mut target.time_limit_raw, &incoming.time_limit_raw);
    fill_string(&mut target.submit_time, &incoming.submit_time);
    fill_string(&mut target.start_time, &incoming.start_time);
    fill_string(&mut target.end_time, &incoming.end_time);
    fill_string(&mut target.node_list, &incoming.node_list);
    fill_string(&mut target.work_dir, &incoming.work_dir);
    fill_string(&mut target.command, &incoming.command);
    fill_string(&mut target.stdout_path, &incoming.stdout_path);
    fill_string(&mut target.stderr_path, &incoming.stderr_path);
    fill_string(&mut target.gres, &incoming.gres);
    fill_string(&mut target.req_tres, &incoming.req_tres);
    fill_string(&mut target.alloc_tres, &incoming.alloc_tres);
    fill_u32(&mut target.nodes, incoming.nodes);
    fill_u32(&mut target.n_tasks, incoming.n_tasks);
    fill_u32(&mut target.cpus, incoming.cpus);
    if target.memory_mb.is_none() {
        target.memory_mb = incoming.memory_mb;
    }
    fill_u32(&mut target.requested_gpus, incoming.requested_gpus);
    target.active = target.active || incoming.active;
    target.is_mine = target.is_mine || incoming.is_mine;
}

/// Merging twice with the same detail changes nothing more, and a field
/// the target already had is kept.
pub proof fn lemma_merge_idempotent(t: JobDetailView, i: JobDetailView)
    ensures
        merged_detail(merged_detail(t, i), i) == merged_detail(t, i),
        t.name is Some ==> merged_detail(t, i).name == t.name,
        t.state is Some ==> merged_detail(t, i).state == t.state,
        t.cpus is Some ==> merged_detail(t, i).cpus == t.cpus,
        merged_detail(t, i).job_id == t.job_id,
{
}

/// Whether a capture's output is worth parsing: it succeeded, or it left
/// some output behind.
pub open spec fn worth_parsing(c: CaptureView) -> bool {
    c.status == CommandStatus::Success || trim(c.stdout).len() > 0
}

pub open spec fn live_part(live: CaptureView, current_user: Seq<char>) -> (
    Option<JobDetailView>,
    Seq<Seq<char>>,
) {
    if worth_parsing(live) {
        parse_scontrol_job_of(live.stdout, current_user)
    } else {
        (None, Seq::empty())
    }
}

pub open spec fn accounting_part(acct: CaptureView, current_user: Seq<char>) -> (
    Option<JobDetailView>,
    Seq<Seq<char>>,
) {
    if worth_parsing(acct) {
        parse_history_detail_of(acct.stdout, current_user)
    } else {
        (None, Seq::empty())
    }
}

/// The detail of a job from its live and its accounting answer: the
/// accounting record filled in from the live one (or the live one alone),
/// with the notes of both runs and both parses; an error when neither
/// answer parses.
pub open spec fn merged_job_detail_of(
    live: CaptureView,
    acct: CaptureView,
    current_user: Seq<char>,
) -> Result<JobDetailView, Seq<char>> {
    let lp = live_part(live, current_user);
    let ap = accounting_part(acct, current_user);
    let notes = opt_note(short_error_of(live)) + opt_note(short_error_of(acct)) + lp.1 + ap.1;
    match ap.0 {
        Some(a) => Ok(
            JobDetailView {
                source_notes: notes,
                ..match lp.0 {
                    Some(l) => merged_detail(a, l),
                    None => a,
                }
            },
        ),
        None => match lp.0 {
            Some(l) => Ok(JobDetailView { source_notes: notes, ..merged_detail(l, l) }),
            None => Err("job detail unavailable: no parsable scontrol or sacct output"@),
        },
    }
}

pub open spec fn detail_result_view(r: Result<JobDetail, String>) -> Result<JobDetailView, Seq<char>> {
    match r {
        Ok(d) => Ok(d@),
        Err(e) => Err(e@),
    }
}

fn push_note(notes: &mut Vec<String>, o: Option<String>)
    ensures
        string_views(final(notes)@) == string_views(old(notes)@) + opt_note(opt_view(o)),
{
    match o {
        Some(e) => {
            let ghost before = string_views(notes@);
            notes.push(e);
            assert(string_views(notes@) =~= before + opt_note(opt_view(o)));
        },
        None => {
            assert(string_views(notes@) =~= string_views(notes@) + opt_note(opt_view(o)));
        },
    }
}

fn extend_notes(notes: &mut Vec<String>, more: &Vec<String>)
    ensures
        string_views(final(notes)@) == string_views(old(notes)@) + string_views(more@),
{
    let ghost start = string_views(notes@);
    let ghost mv = string_views(more@);
    let mut i: usize = 0;
    while i < more.len()
        invariant
            i <= more@.len(),
            mv == string_views(more@),
            string_views(notes@) == start + mv.take(i as int),
        decreases more@.len() - i,
    {
        let ghost before = string_views(notes@);
        notes.push(clone_string(&more[i]));
        assert(mv.take(i + 1) =~= mv.take(i as int).push(mv[i as int]));
        assert(string_views(notes@) =~= before.push(mv[i as int]));
        i = i + 1;
    }
    assert(mv.take(more@.len() as int) =~= mv);
}

/// Merges a job's live and accounting answers into one detail.
pub fn merge_job_detail(
    live_capture: CommandCapture,
    accounting_capture: CommandCapture,
    current_user: &str,
) -> (r: Result<JobDetail, String>)
    requires
        worth_parsing(live_capture@) ==> scontrol_job_fits(live_capture.stdout@),
    ensures
        detail_result_view(r) == merged_job_detail_of(
            live_capture@,
            accounting_capture@,
            current_user@,
        ),
{
    let mut notes: Vec<String> = Vec::new();
    push_note(&mut notes, live_capture.short_error());
    push_note(&mut notes, accounting_capture.short_error());
    let lout = chars_of(live_capture.stdout.as_str());
    let lt = trim_exec(&lout);
    let (live, live_notes) = if live_capture.ok() || lt.len() > 0 {
        parse_scontrol_job(live_capture.stdout.as_str(), current_user)
    } else {
        let r: (Option<JobDetail>, Vec<String>) = (None, Vec::new());
        assert(string_views(r.1@) =~= Seq::<Seq<char>>::empty());
        r
    };
    extend_notes(&mut notes, &live_notes);
    let aout = chars_of(accounting_capture.stdout.as_str());
    let at = trim_exec(&aout);
    let (acct, acct_notes) = if accounting_capture.ok() || at.len() > 0 {
        parse_history_detail(accounting_capture.stdout.as_str(), current_user)
    } else {
        let r: (Option<JobDetail>, Vec<String>) = (None, Vec::new());
        assert(string_views(r.1@) =~= Seq::<Seq<char>>::empty());
        r
    };
    extend_notes(&mut notes, &acct_notes);
    let mut detail = match acct {
        Some(a) => a,
        None => match &live {
            Some(l) => l.clone_detail(),
            None => {
                return Err(String::from_str(
                    "job detail unavailable: no parsable scontrol or sacct output",
                ));
            },
        },
    };
    match &live {
        Some(l) => merge_detail_fields(&mut detail, l),
        None => {},
    }
    detail.source_notes = notes;
    Ok(detail)
}

/// The last `n` values of `s`, or all of them when there are fewer.
pub open spec fn last_n(s: Seq<u64>, n: nat) -> Seq<u64> {
    if s.len() > n {
        s.subrange(s.len() - n, s.len() as int)
    } else {
        s
    }
}

/// The recent running and pending counts of one series.
#[derive(Debug)]
pub struct TrendSeries {
    running: std::collections::VecDeque<u64>,
    pending: std::collections::VecDeque<u64>,
}

impl Default for TrendSeries {
    fn default() -> (t: Self)
        ensures
            t.running_view().len() == 0,
            t.pending_view().len() == 0,
    {
        TrendSeries {
            running: std::collections::VecDeque::new(),
            pending: std::collections::VecDeque::new(),
        }
    }
}

impl TrendSeries {
    pub closed spec fn running_view(&self) -> Seq<u64> {
        self.running@
    }

    pub closed spec fn pending_view(&self) -> Seq<u64> {
        self.pending@
    }

    /// Appends one sample and keeps at most the last `max_len` of each
    /// series.
    pub fn push(&mut self, running: u64, pending: u64, max_len: usize)
        ensures
            final(self).running_view() == last_n(old(self).running_view().push(running), max_len as nat),
            final(self).pending_view() == last_n(old(self).pending_view().push(pending), max_len as nat),
    {
        let ghost r0 = self.running@.push(running);
        let ghost p0 = self.pending@.push(pending);
        self.running.push_back(running);
        self.pending.push_back(pending);
        assert(self.running@ =~= r0.subrange(0, r0.len() as int));
        assert(self.pending@ =~= p0.subrange(0, p0.len() as int));
        while self.running.len() > max_len
            invariant
                self.pending@ == p0,
                self.running@.len() <= r0.len(),
                r0.len() > max_len ==> self.running@.len() >= max_len,
                r0.len() <= max_len ==> self.running@.len() == r0.len(),
                self.running@ == r0.subrange(r0.len() - self.running@.len(), r0.len() as int),
            decreases self.running@.len(),
        {
            let ghost before = self.running@;
            self.running.pop_front();
            assert(self.running@ =~= r0.subrange(r0.len() - self.running@.len(), r0.len() as int));
        }
        let ghost rdone = self.running@;
        while self.pending.len() > max_len
            invariant
                self.running@ == rdone,
                self.pending@.len() <= p0.len(),
                p0.len() > max_len ==> self.pending@.len() >= max_len,
                p0.len() <= max_len ==> self.pending@.len() == p0.len(),
                self.pending@ == p0.subrange(p0.len() - self.pending@.len(), p0.len() as int),
            decreases self.pending@.len(),
        {
            self.pending.pop_front();
            assert(self.pending@ =~= p0.subrange(p0.len() - self.pending@.len(), p0.len() as int));
        }
        assert(rdone =~= last_n(r0, max_len as nat));
        assert(self.pending@ =~= last_n(p0, max_len as nat));
    }

    pub fn running_points(&self) -> (v: Vec<u64>)
        ensures
            v@ == self.running_view(),
    {
        deque_values(&self.running)
    }

    pub fn pending_points(&self) -> (v: Vec<u64>)
        ensures
            v@ == self.pending_view(),
    {
        deque_values(&self.pending)
    }

    /// The last running count, or 0 before any sample.
    pub fn latest_running(&self) -> (n: u64)
        ensures
            n == if self.running_view().len() > 0 {
                self.running_view().last()
            } else {
                0
            },
    {
        let k = self.running.len();
        if k > 0 {
            self.running[k - 1]
        } else {
            0
        }
    }

    /// The last pending count, or 0 before any sample.
    pub fn latest_pending(&self) -> (n: u64)
        ensures
            n == if self.pending_view().len() > 0 {
                self.pending_view().last()
            } else {
                0
            },
    {
        let k = self.pending.len();
        if k > 0 {
            self.pending[k - 1]
        } else {
            0
        }
    }
}

fn deque_values(d: &std::collections::VecDeque<u64>) -> (v: Vec<u64>)
    ensures
        v@ == d@,
{
    let mut v: Vec<u64> = Vec::new();
    let mut i: usize = 0;
    while i < d.len()
        invariant
            i <= d@.len(),
            v@ == d@.take(i as int),
        decreases d@.len() - i,
    {
        v.push(d[i]);
        i = i + 1;
        assert(v@ =~= d@.take(i as int));
    }
    assert(d@.take(d@.len() as int) =~= d@);
    v
}

/// A series never holds more than `max_len` samples after a push, and its
/// last sample is the pushed one when it holds any.
pub proof fn lemma_trend_window(s: Seq<u64>, x: u64, max_len: nat)
    ensures
        last_n(s.push(x), max_len).len() <= max_len || last_n(s.push(x), max_len).len() == s.len() + 1,
        last_n(s.push(x), max_len).len() == if s.len() + 1 > max_len { max_len } else { s.len() + 1 },
        max_len > 0 ==> last_n(s.push(x), max_len).last() == x,
{
}

/// The sort state after choosing `c`: the same column reverses its
/// direction, another column sorts descending.
pub open spec fn chosen<C>(column: C, direction: SortDirection, c: C) -> (C, SortDirection) {
    if column == c {
        (c, toggled(direction))
    } else {
        (c, SortDirection::Desc)
    }
}

/// Clicking a header sorts by it; clicking the same header again reverses
/// the order, and a third click restores the first.
pub proof fn lemma_choose_twice<C>(column: C, direction: SortDirection, c: C)
    ensures
        chosen(column, direction, c).0 == c,
        ({
            let once = chosen(column, direction, c);
            let twice = chosen(once.0, once.1, c);
            &&& twice.0 == c
            &&& twice.1 == toggled(once.1)
            &&& column == c ==> twice.1 == direction
            &&& column != c ==> once.1 == SortDirection::Desc && twice.1 == SortDirection::Asc
        }),
{
}

} // verus!
