//! What each key, click and footer button does to the state of the
//! interface, and which work it hands to the caller: reloading, loading a
//! node or a job, reviewing or running a cancel.
use vstd::prelude::*;

use crate::app::{
    chosen, job_column_label, job_filter_label, next_job_column, next_job_filter, next_overview_column,
    next_user_column, overview_column_label, sort_label_of, user_column_label, JobFilter,
    JobSortState, NodeDetailState, OverviewSortState, Page, SortDirection, UserSortState,
};
use crate::model::types::{clone_opt_string, clone_string, next_metric, opt_view, MetricMode};
use crate::state::{
    current_page, current_page_of, main_pages_len, main_tabs, move_index, moved_index,
    next_filter_index, next_page_index, prev_page_index, FooterAction, HitTarget, InputMode,
    ModalAction, RowKind,
};
use crate::listing::{JobListQuery, NodeJobQuery, PartitionQuery, UserQuery};
use crate::model::types::JobRecord;
use crate::state::{current_filter_value, filter_choice, node_states, node_users, sorted_distinct};
use crate::model::types::string_views;
use crate::text::{chars_of, copy_range, eq_chars, owned, string_of};

verus! {

/// A key the interface reacts to; a character typed with Control is
/// `Other`.
#[derive(Debug, Clone, Copy, PartialEq, Eq, Structural)]
pub enum Key {
    Char(char),
    Esc,
    Enter,
    Tab,
    BackTab,
    Up,
    Down,
    Left,
    Right,
    Backspace,
    Other,
}

/// The dialog on top of the page.
#[derive(Debug, Clone, Copy, PartialEq, Eq, Structural)]
pub enum ModalKind {
    Help,
    JobDetail,
    ConfirmCancel,
    CancelResult,
}

/// The work a key or click leaves to the caller.
#[derive(Debug, Clone, Copy, PartialEq, Eq, Structural)]
pub enum Effect {
    Nothing,
    /// Take a new sample now.
    Refresh,
    /// Take a new sample now and reload the open node.
    RefreshWithNode,
    /// Load the node just opened.
    LoadNode,
    /// Load the detail of the focused job.
    LoadJobDetail,
    /// Build the review of cancelling the focused job.
    ReviewSingleCancel,
    /// Build the review of cancelling every job the page lists.
    ReviewBulkCancel,
    /// Run the reviewed cancel.
    RunCancel,
}

/// The selected row of each table.
#[derive(Debug, Clone, Copy, PartialEq, Eq, Structural)]
pub struct Selections {
    pub overview: usize,
    pub my_jobs: usize,
    pub users: usize,
    pub all_jobs: usize,
    pub partition_jobs: usize,
    pub partition_node: usize,
    pub history: usize,
}

/// What the current page shows under the cursor, as the listings give it.
#[derive(Debug, Clone)]
pub struct Focus {
    /// The rows of the page's table.
    pub rows: usize,
    /// The partition the selection belongs to.
    pub partition: Option<String>,
    /// The id of the selected job.
    pub job: Option<String>,
    /// The rows of the partition page's node table.
    pub partition_nodes: usize,
    /// The node selected on the partition page.
    pub node: Option<String>,
    /// How many distinct users and states the open node's jobs have.
    pub node_users: usize,
    pub node_states: usize,
}

pub struct FocusView {
    pub rows: nat,
    pub partition: Option<Seq<char>>,
    pub job: Option<Seq<char>>,
    pub partition_nodes: nat,
    pub node: Option<Seq<char>>,
    pub node_users: usize,
    pub node_states: usize,
}

impl View for Focus {
    type V = FocusView;

    open spec fn view(&self) -> FocusView {
        FocusView {
            rows: self.rows as nat,
            partition: opt_view(self.partition),
            job: opt_view(self.job),
            partition_nodes: self.partition_nodes as nat,
            node: opt_view(self.node),
            node_users: self.node_users,
            node_states: self.node_states,
        }
    }
}

/// The row counts of every table, for keeping selections in range.
#[derive(Debug, Clone, Copy)]
pub struct TableLengths {
    pub overview: usize,
    pub my_jobs: usize,
    pub users: usize,
    pub all_jobs: usize,
    pub partition_jobs: usize,
    pub partition_nodes: usize,
    pub history: usize,
    pub node_jobs: usize,
}

/// The state of the interface apart from the data it shows.
#[derive(Debug)]
pub struct UiState {
    pub all_jobs_enabled: bool,
    pub main_index: usize,
    pub detail_partition: Option<String>,
    pub node: Option<NodeDetailState>,
    pub input_mode: InputMode,
    pub search_query: String,
    pub search_draft: String,
    pub metric_mode: MetricMode,
    pub show_only_mine: bool,
    pub pinned_partition: Option<String>,
    pub modal: Option<ModalKind>,
    pub selected: Selections,
    pub job_horizontal_offset: usize,
    pub overview_sort: OverviewSortState,
    pub job_sort: JobSortState,
    pub user_sort: UserSortState,
    pub job_filter: JobFilter,
    pub quit: bool,
    pub status_message: Option<String>,
}

pub struct NodeView {
    pub node_name: Seq<char>,
    pub partition: Seq<char>,
    pub selected_job: usize,
    pub user_filter_index: usize,
    pub state_filter_index: usize,
    pub where_filter: Seq<char>,
    pub where_draft: Seq<char>,
    pub why_filter: Seq<char>,
    pub why_draft: Seq<char>,
}

pub struct UiView {
    pub all_jobs_enabled: bool,
    pub main_index: usize,
    pub detail_partition: Option<Seq<char>>,
    pub node: Option<NodeView>,
    pub input_mode: InputMode,
    pub search_query: Seq<char>,
    pub search_draft: Seq<char>,
    pub metric_mode: MetricMode,
    pub show_only_mine: bool,
    pub pinned_partition: Option<Seq<char>>,
    pub modal: Option<ModalKind>,
    pub selected: Selections,
    pub job_horizontal_offset: usize,
    pub overview_sort: OverviewSortState,
    pub job_sort: JobSortState,
    pub user_sort: UserSortState,
    pub job_filter: JobFilter,
    pub quit: bool,
    pub status_message: Option<Seq<char>>,
}

pub open spec fn node_view(n: NodeDetailState) -> NodeView {
    NodeView {
        node_name: n.node_name@,
        partition: n.partition@,
        selected_job: n.selected_job,
        user_filter_index: n.user_filter_index,
        state_filter_index: n.state_filter_index,
        where_filter: n.where_filter@,
        where_draft: n.where_draft@,
        why_filter: n.why_filter@,
        why_draft: n.why_draft@,
    }
}

pub open spec fn opt_node_view(n: Option<NodeDetailState>) -> Option<NodeView> {
    match n {
        Some(x) => Some(node_view(x)),
        None => None,
    }
}

impl View for UiState {
    type V = UiView;

    open spec fn view(&self) -> UiView {
        UiView {
            all_jobs_enabled: self.all_jobs_enabled,
            main_index: self.main_index,
            detail_partition: opt_view(self.detail_partition),
            node: opt_node_view(self.node),
            input_mode: self.input_mode,
            search_query: self.search_query@,
            search_draft: self.search_draft@,
            metric_mode: self.metric_mode,
            show_only_mine: self.show_only_mine,
            pinned_partition: opt_view(self.pinned_partition),
            modal: self.modal,
            selected: self.selected,
            job_horizontal_offset: self.job_horizontal_offset,
            overview_sort: self.overview_sort,
            job_sort: self.job_sort,
            user_sort: self.user_sort,
            job_filter: self.job_filter,
            quit: self.quit,
            status_message: opt_view(self.status_message),
        }
    }
}

/// The tables that list jobs.
#[derive(Debug, Clone, Copy, PartialEq, Eq, Structural)]
pub enum JobTable {
    MyJobs,
    AllJobs,
    Partition,
    UserJobs,
}

/// The search text in force: the draft while it is typed.
pub open spec fn active_query_of(s: UiView) -> Seq<char> {
    if s.input_mode == InputMode::Search {
        s.search_draft
    } else {
        s.search_query
    }
}

/// The query of a job table: My Jobs shows only the current user's jobs;
/// All Jobs and the partition page follow the "only mine" toggle; the
/// partition page keeps the jobs of its partition, the user panel those
/// of its user; all follow the pin, the job filter, the search and the
/// job sort.
pub open spec fn job_query_fits(s: UiView, table: JobTable, user: Seq<char>, q: JobListQuery) -> bool {
    &&& q.mine_only_page == (table == JobTable::MyJobs)
    &&& q.global_mine_only == ((table == JobTable::AllJobs || table == JobTable::Partition)
        && s.show_only_mine)
    &&& opt_view(q.pinned_partition) == s.pinned_partition
    &&& opt_view(q.page_partition) == if table == JobTable::Partition {
        Some(
            match s.detail_partition {
                Some(p) => p,
                None => Seq::empty(),
            },
        )
    } else {
        None
    }
    &&& opt_view(q.page_user) == if table == JobTable::UserJobs {
        Some(user)
    } else {
        None
    }
    &&& q.filter == s.job_filter
    &&& q.query@ == active_query_of(s)
    &&& q.sort == s.job_sort
}

/// The filter text of the node page in force: the draft while it is
/// typed.
pub open spec fn active_node_filter(s: UiView, why: bool) -> Seq<char> {
    match s.node {
        Some(n) => if why {
            if s.input_mode == InputMode::NodeWhyFilter {
                n.why_draft
            } else {
                n.why_filter
            }
        } else {
            if s.input_mode == InputMode::NodeWhereFilter {
                n.where_draft
            } else {
                n.where_filter
            }
        },
        None => Seq::empty(),
    }
}

/// The sort order shown for a page.
pub open spec fn sort_label_on(p: Page, s: UiView) -> Seq<char> {
    match p {
        Page::Overview => sort_label_of(overview_column_label(s.overview_sort.column), s.overview_sort.direction),
        Page::Users => sort_label_of(user_column_label(s.user_sort.column), s.user_sort.direction),
        _ => sort_label_of(job_column_label(s.job_sort.column), s.job_sort.direction),
    }
}

/// The filter shown for a page.
pub open spec fn filter_label_on(p: Page, s: UiView, node_user: Seq<char>, node_state: Seq<char>) -> Seq<char> {
    match p {
        Page::Users => if s.show_only_mine {
            "Showing only the current user"@
        } else {
            "Showing all users with active jobs"@
        },
        Page::NodeDetail => if s.node is Some {
            "User: "@ + node_user + " | State: "@ + node_state
        } else {
            "All"@
        },
        _ => job_filter_label(s.job_filter),
    }
}

/// The tab index names a tab, and the node filters can still move on.
pub open spec fn ui_wf(s: UiView) -> bool {
    &&& s.main_index < main_pages_len(s.all_jobs_enabled)
    &&& match s.node {
        Some(n) => n.user_filter_index < usize::MAX && n.state_filter_index < usize::MAX,
        None => true,
    }
}

/// The page shown.
pub open spec fn page_of(s: UiView) -> Page {
    current_page_of(
        s.node is Some,
        s.detail_partition is Some,
        main_tabs(s.all_jobs_enabled),
        s.main_index as int,
    )
}

/// The pages that list jobs.
pub open spec fn job_page(p: Page) -> bool {
    p == Page::MyJobs || p == Page::AllJobs || p == Page::PartitionDetail || p == Page::NodeDetail
}

pub open spec fn with_status(s: UiView, msg: Seq<char>) -> UiView {
    UiView { status_message: Some(msg), ..s }
}

pub open spec fn with_modal(s: UiView, m: Option<ModalKind>) -> UiView {
    UiView { modal: m, ..s }
}

pub open spec fn moved_to(current: usize, delta: int, len: nat) -> usize {
    moved_index(current as int, delta, len as int) as usize
}

/// The selection of the page moved by `delta` within its rows; nothing
/// moves when the table is empty.
pub open spec fn moved(s: UiView, f: FocusView, delta: int) -> UiView {
    if f.rows == 0 {
        s
    } else {
        let sel = s.selected;
        match page_of(s) {
            Page::Overview => UiView {
                selected: Selections { overview: moved_to(sel.overview, delta, f.rows), ..sel },
                ..s
            },
            Page::MyJobs => UiView {
                selected: Selections { my_jobs: moved_to(sel.my_jobs, delta, f.rows), ..sel },
                ..s
            },
            Page::Users => UiView {
                selected: Selections { users: moved_to(sel.users, delta, f.rows), ..sel },
                ..s
            },
            Page::AllJobs => UiView {
                selected: Selections { all_jobs: moved_to(sel.all_jobs, delta, f.rows), ..sel },
                ..s
            },
            Page::PartitionDetail => UiView {
                selected: Selections {
                    partition_jobs: moved_to(sel.partition_jobs, delta, f.rows),
                    ..sel
                },
                ..s
            },
            Page::NodeDetail => match s.node {
                Some(n) => UiView {
                    node: Some(NodeView { selected_job: moved_to(n.selected_job, delta, f.rows), ..n }),
                    ..s
                },
                None => s,
            },
        }
    }
}

/// Back: close the node, else the partition, else leave a job or user tab
/// for the overview.
pub open spec fn back(s: UiView) -> UiView {
    if s.node is Some {
        UiView { node: None, ..s }
    } else if s.detail_partition is Some {
        UiView { detail_partition: None, ..s }
    } else if page_of(s) == Page::MyJobs || page_of(s) == Page::AllJobs || page_of(s) == Page::Users {
        UiView { main_index: 0, ..s }
    } else {
        s
    }
}

pub open spec fn in_detail(s: UiView) -> bool {
    s.detail_partition is Some || s.node is Some
}

pub open spec fn next_tab(s: UiView) -> UiView {
    if in_detail(s) {
        s
    } else {
        UiView {
            main_index: ((s.main_index + 1) % (main_pages_len(s.all_jobs_enabled) as int)) as usize,
            ..s
        }
    }
}

pub open spec fn prev_tab(s: UiView) -> UiView {
    if in_detail(s) {
        s
    } else {
        let n = main_pages_len(s.all_jobs_enabled) as int;
        UiView { main_index: ((s.main_index + n - 1) % n) as usize, ..s }
    }
}

pub open spec fn refresh_effect(s: UiView) -> Effect {
    if s.node is Some {
        Effect::RefreshWithNode
    } else {
        Effect::Refresh
    }
}

/// The next column of the page's table, sorted descending.
pub open spec fn sort_cycled(s: UiView) -> UiView {
    match page_of(s) {
        Page::Overview => UiView {
            overview_sort: OverviewSortState {
                column: next_overview_column(s.overview_sort.column),
                direction: SortDirection::Desc,
            },
            ..s
        },
        Page::Users => UiView {
            user_sort: UserSortState {
                column: next_user_column(s.user_sort.column),
                direction: SortDirection::Desc,
            },
            ..s
        },
        _ => UiView {
            job_sort: JobSortState {
                column: next_job_column(s.job_sort.column),
                direction: SortDirection::Desc,
            },
            ..s
        },
    }
}

/// `index + 1` wrapped at `count + 1` (the choice "all" and each value).
pub open spec fn cycled(index: usize, count: usize) -> usize {
    ((index + 1) % (if count == usize::MAX {
        usize::MAX as int
    } else {
        count + 1
    })) as usize
}

/// `f`: the next state filter on the node page, the next job filter on
/// the other job pages.
pub open spec fn filter_cycled(s: UiView, f: FocusView) -> UiView {
    match page_of(s) {
        Page::NodeDetail => match s.node {
            Some(n) => UiView {
                node: Some(NodeView { state_filter_index: cycled(n.state_filter_index, f.node_states), ..n }),
                ..s
            },
            None => s,
        },
        Page::MyJobs | Page::AllJobs | Page::PartitionDetail => UiView {
            job_filter: next_job_filter(s.job_filter),
            ..s
        },
        _ => s,
    }
}

pub open spec fn user_filter_cycled(s: UiView, f: FocusView) -> UiView {
    if page_of(s) == Page::NodeDetail {
        match s.node {
            Some(n) => UiView {
                node: Some(NodeView { user_filter_index: cycled(n.user_filter_index, f.node_users), ..n }),
                ..s
            },
            None => s,
        }
    } else {
        s
    }
}

pub open spec fn mine_toggled(s: UiView) -> UiView {
    if page_of(s) != Page::MyJobs {
        UiView { show_only_mine: !s.show_only_mine, ..s }
    } else {
        s
    }
}

/// `p`: pin the focused partition, or unpin it when it is the pinned one.
pub open spec fn pin_toggled(s: UiView, f: FocusView) -> UiView {
    if s.pinned_partition == f.partition {
        UiView { pinned_partition: None, ..s }
    } else {
        UiView { pinned_partition: f.partition, ..s }
    }
}

pub open spec fn node_edit_started(s: UiView, why: bool) -> UiView {
    if page_of(s) == Page::NodeDetail {
        match s.node {
            Some(n) => if why {
                UiView {
                    node: Some(NodeView { why_draft: n.why_filter, ..n }),
                    input_mode: InputMode::NodeWhyFilter,
                    ..s
                }
            } else {
                UiView {
                    node: Some(NodeView { where_draft: n.where_filter, ..n }),
                    input_mode: InputMode::NodeWhereFilter,
                    ..s
                }
            },
            None => s,
        }
    } else {
        s
    }
}

/// Every node filter back to "all", and the first job selected.
pub open spec fn node_cleared(s: UiView) -> UiView {
    match s.node {
        Some(n) => UiView {
            node: Some(
                NodeView {
                    user_filter_index: 0,
                    state_filter_index: 0,
                    where_filter: Seq::empty(),
                    where_draft: Seq::empty(),
                    why_filter: Seq::empty(),
                    why_draft: Seq::empty(),
                    selected_job: 0,
                    ..n
                },
            ),
            ..s
        },
        None => s,
    }
}

pub open spec fn fresh_node(name: Seq<char>, partition: Seq<char>) -> NodeView {
    NodeView {
        node_name: name,
        partition,
        selected_job: 0,
        user_filter_index: 0,
        state_filter_index: 0,
        where_filter: Seq::empty(),
        where_draft: Seq::empty(),
        why_filter: Seq::empty(),
        why_draft: Seq::empty(),
    }
}

/// Open the node selected on the partition page, or say why not.
pub open spec fn node_opened(s: UiView, f: FocusView) -> (UiView, Effect) {
    match s.detail_partition {
        None => (with_status(s, "Open a partition before opening a node"@), Effect::Nothing),
        Some(p) => match f.node {
            None => (with_status(s, "No node is available in this partition"@), Effect::Nothing),
            Some(n) => (UiView { node: Some(fresh_node(n, p)), ..s }, Effect::LoadNode),
        },
    }
}

pub open spec fn partition_node_moved(s: UiView, f: FocusView, delta: int) -> UiView {
    if f.partition_nodes == 0 {
        s
    } else {
        UiView {
            selected: Selections {
                partition_node: moved_to(s.selected.partition_node, delta, f.partition_nodes),
                ..s.selected
            },
            ..s
        }
    }
}

pub open spec fn job_detail_opened(s: UiView, f: FocusView) -> (UiView, Effect) {
    if f.job is Some {
        (with_modal(s, Some(ModalKind::JobDetail)), Effect::LoadJobDetail)
    } else {
        (s, Effect::Nothing)
    }
}

/// Enter: open the focused partition from the overview, the focused job's
/// detail on a job page.
pub open spec fn primary_opened(s: UiView, f: FocusView) -> (UiView, Effect) {
    match page_of(s) {
        Page::Overview => match f.partition {
            Some(p) => (
                UiView {
                    detail_partition: Some(p),
                    selected: Selections { partition_jobs: 0, partition_node: 0, ..s.selected },
                    ..s
                },
                Effect::Nothing,
            ),
            None => (s, Effect::Nothing),
        },
        Page::Users => (s, Effect::Nothing),
        _ => job_detail_opened(s, f),
    }
}

pub open spec fn single_cancel(s: UiView, f: FocusView) -> (UiView, Effect) {
    if f.job is Some {
        (with_modal(s, Some(ModalKind::ConfirmCancel)), Effect::ReviewSingleCancel)
    } else {
        (with_status(s, "no active job selected"@), Effect::Nothing)
    }
}

pub open spec fn bulk_cancel(s: UiView, f: FocusView) -> (UiView, Effect) {
    if !job_page(page_of(s)) {
        (with_status(s, "bulk cancel is available only on active job pages"@), Effect::Nothing)
    } else if f.rows == 0 {
        (with_status(s, "no visible jobs to review for cancel"@), Effect::Nothing)
    } else {
        (with_modal(s, Some(ModalKind::ConfirmCancel)), Effect::ReviewBulkCancel)
    }
}

pub open spec fn offset_moved(s: UiView, right: bool) -> UiView {
    if job_page(page_of(s)) {
        if right {
            UiView {
                job_horizontal_offset: if s.job_horizontal_offset == usize::MAX {
                    usize::MAX
                } else {
                    (s.job_horizontal_offset + 1) as usize
                },
                ..s
            }
        } else {
            UiView {
                job_horizontal_offset: if s.job_horizontal_offset == 0 {
                    0
                } else {
                    (s.job_horizontal_offset - 1) as usize
                },
                ..s
            }
        }
    } else {
        s
    }
}

/// A key with no dialog open and nothing being typed.
pub open spec fn normal_step(s: UiView, f: FocusView, k: Key) -> (UiView, Effect) {
    let none = Effect::Nothing;
    match k {
        Key::Esc => (back(s), none),
        Key::Tab => (next_tab(s), none),
        Key::BackTab => (prev_tab(s), none),
        Key::Down => (moved(s, f, 1), none),
        Key::Up => (moved(s, f, -1), none),
        Key::Left => (offset_moved(s, false), none),
        Key::Right => (offset_moved(s, true), none),
        Key::Enter => primary_opened(s, f),
        Key::Char(c) => if c == 'q' {
            (UiView { quit: true, ..s }, none)
        } else if c == 'h' {
            (with_modal(s, Some(ModalKind::Help)), none)
        } else if c == 'b' {
            (back(s), none)
        } else if c == 'j' {
            (moved(s, f, 1), none)
        } else if c == 'k' {
            (moved(s, f, -1), none)
        } else if c == 'r' {
            (s, refresh_effect(s))
        } else if c == 's' {
            (sort_cycled(s), none)
        } else if c == '/' {
            (UiView { search_draft: s.search_query, input_mode: InputMode::Search, ..s }, none)
        } else if c == 'f' {
            (filter_cycled(s, f), none)
        } else if c == 'u' {
            (user_filter_cycled(s, f), none)
        } else if c == 'm' {
            (mine_toggled(s), none)
        } else if c == 'g' {
            (UiView { metric_mode: next_metric(s.metric_mode), ..s }, none)
        } else if c == 'p' {
            (pin_toggled(s, f), none)
        } else if c == 'w' {
            (node_edit_started(s, false), none)
        } else if c == 'y' {
            (node_edit_started(s, true), none)
        } else if c == 'c' {
            (if page_of(s) == Page::NodeDetail {
                node_cleared(s)
            } else {
                s
            }, none)
        } else if c == 'n' {
            if page_of(s) == Page::PartitionDetail {
                node_opened(s, f)
            } else {
                (s, none)
            }
        } else if c == '[' {
            (if page_of(s) == Page::PartitionDetail {
                partition_node_moved(s, f, -1)
            } else {
                s
            }, none)
        } else if c == ']' {
            (if page_of(s) == Page::PartitionDetail {
                partition_node_moved(s, f, 1)
            } else {
                s
            }, none)
        } else if c == 'i' {
            job_detail_opened(s, f)
        } else if c == 'x' {
            single_cancel(s, f)
        } else if c == 'X' {
            bulk_cancel(s, f)
        } else {
            (s, none)
        },
        _ => (s, none),
    }
}

/// A key while a dialog is open: the keys that close it close it, and
/// confirming a cancel runs it.
pub open spec fn modal_step(s: UiView, m: ModalKind, k: Key) -> (UiView, Effect) {
    let closed = with_modal(s, None);
    match m {
        ModalKind::Help => if k == Key::Char('h') || k == Key::Esc || k == Key::Enter || k
            == Key::Char('b') {
            (closed, Effect::Nothing)
        } else {
            (s, Effect::Nothing)
        },
        ModalKind::ConfirmCancel => if k == Key::Esc || k == Key::Char('n') || k == Key::Char('b') {
            (closed, Effect::Nothing)
        } else if k == Key::Enter || k == Key::Char('y') {
            (closed, Effect::RunCancel)
        } else {
            (s, Effect::Nothing)
        },
        _ => if k == Key::Esc || k == Key::Enter || k == Key::Char('b') || k == Key::Char('q') || k
            == Key::Char('i') {
            (closed, Effect::Nothing)
        } else {
            (s, Effect::Nothing)
        },
    }
}

/// The draft being typed, by mode.
pub open spec fn draft_of(s: UiView) -> Seq<char> {
    match s.input_mode {
        InputMode::Search => s.search_draft,
        InputMode::NodeWhereFilter => match s.node {
            Some(n) => n.where_draft,
            None => Seq::empty(),
        },
        InputMode::NodeWhyFilter => match s.node {
            Some(n) => n.why_draft,
            None => Seq::empty(),
        },
        InputMode::Normal => Seq::empty(),
    }
}

/// The state with the draft of the current mode replaced by `d`.
pub open spec fn with_draft(s: UiView, d: Seq<char>) -> UiView {
    match s.input_mode {
        InputMode::Search => UiView { search_draft: d, ..s },
        InputMode::NodeWhereFilter => match s.node {
            Some(n) => UiView { node: Some(NodeView { where_draft: d, ..n }), ..s },
            None => s,
        },
        InputMode::NodeWhyFilter => match s.node {
            Some(n) => UiView { node: Some(NodeView { why_draft: d, ..n }), ..s },
            None => s,
        },
        InputMode::Normal => s,
    }
}

/// Esc while typing: the draft goes back to the applied text.
pub open spec fn typing_abandoned(s: UiView) -> UiView {
    let t = match s.input_mode {
        InputMode::Search => UiView { search_draft: s.search_query, ..s },
        InputMode::NodeWhereFilter => match s.node {
            Some(n) => UiView { node: Some(NodeView { where_draft: n.where_filter, ..n }), ..s },
            None => s,
        },
        InputMode::NodeWhyFilter => match s.node {
            Some(n) => UiView { node: Some(NodeView { why_draft: n.why_filter, ..n }), ..s },
            None => s,
        },
        InputMode::Normal => s,
    };
    UiView { input_mode: InputMode::Normal, ..t }
}

/// Enter while typing: the draft is applied.
pub open spec fn typing_applied(s: UiView) -> UiView {
    let t = match s.input_mode {
        InputMode::Search => UiView { search_query: s.search_draft, ..s },
        InputMode::NodeWhereFilter => match s.node {
            Some(n) => UiView { node: Some(NodeView { where_filter: n.where_draft, ..n }), ..s },
            None => s,
        },
        InputMode::NodeWhyFilter => match s.node {
            Some(n) => UiView { node: Some(NodeView { why_filter: n.why_draft, ..n }), ..s },
            None => s,
        },
        InputMode::Normal => s,
    };
    UiView { input_mode: InputMode::Normal, ..t }
}

/// A key while typing a search or a node filter.
pub open spec fn typing_step(s: UiView, k: Key) -> UiView {
    match k {
        Key::Esc => typing_abandoned(s),
        Key::Enter => typing_applied(s),
        Key::Backspace => if draft_of(s).len() > 0 {
            with_draft(s, draft_of(s).drop_last())
        } else {
            s
        },
        Key::Char(c) => with_draft(s, draft_of(s).push(c)),
        _ => s,
    }
}

/// What a key does.
pub open spec fn key_step(s: UiView, f: FocusView, k: Key) -> (UiView, Effect) {
    if s.input_mode != InputMode::Normal {
        (typing_step(s, k), Effect::Nothing)
    } else {
        match s.modal {
            Some(m) => modal_step(s, m, k),
            None => normal_step(s, f, k),
        }
    }
}

/// What a footer button does.
pub open spec fn footer_step(s: UiView, f: FocusView, a: FooterAction) -> (UiView, Effect) {
    match a {
        FooterAction::BackOverview => (
            UiView { node: None, detail_partition: None, main_index: 0, ..s },
            Effect::Nothing,
        ),
        FooterAction::Refresh => (s, refresh_effect(s)),
        FooterAction::Help => (with_modal(s, Some(ModalKind::Help)), Effect::Nothing),
        FooterAction::ToggleMine => (mine_toggled(s), Effect::Nothing),
        FooterAction::OpenDetail => primary_opened(s, f),
        FooterAction::OpenNode => node_opened(s, f),
        FooterAction::CancelJob => single_cancel(s, f),
        FooterAction::BulkCancel => bulk_cancel(s, f),
        FooterAction::ClearFilters => (node_cleared(s), Effect::Nothing),
    }
}

/// The position of `p` among the tabs, if it is one.
pub open spec fn tab_position(tabs: Seq<Page>, p: Page) -> Option<usize> {
    if tabs.len() > 0 && tabs[0] == p {
        Some(0usize)
    } else if tabs.len() > 1 && tabs[1] == p {
        Some(1usize)
    } else if tabs.len() > 2 && tabs[2] == p {
        Some(2usize)
    } else if tabs.len() > 3 && tabs[3] == p {
        Some(3usize)
    } else {
        None
    }
}

/// A click that selects a row: the row of that table becomes the
/// selection.
pub open spec fn row_selected(s: UiView, kind: RowKind, index: usize) -> UiView {
    let sel = s.selected;
    match kind {
        RowKind::Overview => UiView { selected: Selections { overview: index, ..sel }, ..s },
        RowKind::MyJobs => UiView { selected: Selections { my_jobs: index, ..sel }, ..s },
        RowKind::Users => UiView { selected: Selections { users: index, ..sel }, ..s },
        RowKind::AllJobs => UiView { selected: Selections { all_jobs: index, ..sel }, ..s },
        RowKind::PartitionJobs => UiView { selected: Selections { partition_jobs: index, ..sel }, ..s },
        RowKind::PartitionNodes => UiView { selected: Selections { partition_node: index, ..sel }, ..s },
        RowKind::History => UiView { selected: Selections { history: index, ..sel }, ..s },
        RowKind::NodeJobs => match s.node {
            Some(n) => UiView { node: Some(NodeView { selected_job: index, ..n }), ..s },
            None => s,
        },
    }
}

/// A double click on a selected row: open what the row stands for.
pub open spec fn row_activated(s: UiView, f: FocusView, kind: RowKind) -> (UiView, Effect) {
    match kind {
        RowKind::Overview => primary_opened(s, f),
        RowKind::PartitionNodes => node_opened(s, f),
        RowKind::Users => (s, Effect::Nothing),
        _ => job_detail_opened(s, f),
    }
}

/// What a click on anything but a row does.
pub open spec fn hit_step(s: UiView, f: FocusView, h: HitTarget) -> (UiView, Effect) {
    match h {
        HitTarget::Tab(p) => {
            let closed = UiView { node: None, detail_partition: None, ..s };
            match tab_position(main_tabs(s.all_jobs_enabled), p) {
                Some(i) => (UiView { main_index: i, ..closed }, Effect::Nothing),
                None => (closed, Effect::Nothing),
            }
        },
        HitTarget::Row(kind, index) => (row_selected(s, kind, index), Effect::Nothing),
        HitTarget::OverviewHeader(c) => {
            let (col, dir) = chosen(s.overview_sort.column, s.overview_sort.direction, c);
            (UiView { overview_sort: OverviewSortState { column: col, direction: dir }, ..s }, Effect::Nothing)
        },
        HitTarget::JobHeader(c) => {
            let (col, dir) = chosen(s.job_sort.column, s.job_sort.direction, c);
            (UiView { job_sort: JobSortState { column: col, direction: dir }, ..s }, Effect::Nothing)
        },
        HitTarget::UserHeader(c) => {
            let (col, dir) = chosen(s.user_sort.column, s.user_sort.direction, c);
            (UiView { user_sort: UserSortState { column: col, direction: dir }, ..s }, Effect::Nothing)
        },
        HitTarget::Footer(a) => footer_step(s, f, a),
        HitTarget::Modal(a) => match a {
            ModalAction::Ignore => (s, Effect::Nothing),
            ModalAction::Confirm => if s.modal == Some(ModalKind::ConfirmCancel) {
                (with_modal(s, None), Effect::RunCancel)
            } else {
                (with_modal(s, None), Effect::Nothing)
            },
            _ => (with_modal(s, None), Effect::Nothing),
        },
    }
}

pub open spec fn clamp_to(i: usize, len: usize) -> usize {
    if len == 0 {
        0
    } else if i > len - 1 {
        (len - 1) as usize
    } else {
        i
    }
}

/// Each selection kept within its table.
pub open spec fn clamped(s: UiView, l: TableLengths) -> UiView {
    UiView {
        selected: Selections {
            overview: clamp_to(s.selected.overview, l.overview),
            my_jobs: clamp_to(s.selected.my_jobs, l.my_jobs),
            users: clamp_to(s.selected.users, l.users),
            all_jobs: clamp_to(s.selected.all_jobs, l.all_jobs),
            partition_jobs: clamp_to(s.selected.partition_jobs, l.partition_jobs),
            partition_node: clamp_to(s.selected.partition_node, l.partition_nodes),
            history: clamp_to(s.selected.history, l.history),
        },
        node: match s.node {
            Some(n) => Some(NodeView { selected_job: clamp_to(n.selected_job, l.node_jobs), ..n }),
            None => None,
        },
        ..s
    }
}

fn tab_index(all_jobs_enabled: bool, p: Page) -> (r: Option<usize>)
    ensures
        r == tab_position(main_tabs(all_jobs_enabled), p),
        match r {
            Some(i) => i < main_pages_len(all_jobs_enabled),
            None => true,
        },
{
    if p == Page::Overview {
        Some(0)
    } else if p == Page::MyJobs {
        Some(1)
    } else if p == Page::Users {
        Some(2)
    } else if p == Page::AllJobs && all_jobs_enabled {
        Some(3)
    } else {
        None
    }
}

/// Tab then Shift-Tab returns to the same tab, and so does Shift-Tab then
/// Tab, when no dialog, typing or detail page is open.
pub proof fn lemma_tab_round_trip(s: UiView, f: FocusView)
    requires
        ui_wf(s),
        s.input_mode == InputMode::Normal,
        s.modal is None,
        !in_detail(s),
    ensures
        key_step(key_step(s, f, Key::Tab).0, f, Key::BackTab).0 == s,
        key_step(key_step(s, f, Key::BackTab).0, f, Key::Tab).0 == s,
{
    let n = main_pages_len(s.all_jobs_enabled) as int;
    crate::state::lemma_page_round_trip(s.main_index as int, n);
    let t = key_step(s, f, Key::Tab).0;
    let b = key_step(s, f, Key::BackTab).0;
    assert(key_step(t, f, Key::BackTab).0 == UiView { main_index: s.main_index, ..t });
    assert(key_step(b, f, Key::Tab).0 == UiView { main_index: s.main_index, ..b });
}

/// Opening help and closing it leaves everything as it was.
pub proof fn lemma_help_round_trip(s: UiView, f: FocusView, close: Key)
    requires
        s.input_mode == InputMode::Normal,
        s.modal is None,
        close == Key::Esc || close == Key::Enter || close == Key::Char('h') || close == Key::Char('b'),
    ensures
        key_step(key_step(s, f, Key::Char('h')).0, f, close) == (s, Effect::Nothing),
{
}

/// Away from My Jobs, `m` twice leaves the "only mine" toggle as it was.
pub proof fn lemma_mine_toggle_twice(s: UiView, f: FocusView)
    requires
        s.input_mode == InputMode::Normal,
        s.modal is None,
        page_of(s) != Page::MyJobs,
    ensures
        key_step(key_step(s, f, Key::Char('m')).0, f, Key::Char('m')).0 == s,
        key_step(s, f, Key::Char('m')).0.show_only_mine == !s.show_only_mine,
{
}

/// Clicking a partition column header twice sorts by it in the other
/// direction; clicking the sorted column twice restores its order.
pub proof fn lemma_header_click_twice(s: UiView, f: FocusView, c: crate::app::OverviewColumn)
    ensures
        ({
            let once = hit_step(s, f, HitTarget::OverviewHeader(c)).0;
            let twice = hit_step(once, f, HitTarget::OverviewHeader(c)).0;
            &&& once.overview_sort.column == c
            &&& twice.overview_sort.column == c
            &&& twice.overview_sort.direction == crate::app::toggled(once.overview_sort.direction)
            &&& s.overview_sort.column == c ==> twice.overview_sort == s.overview_sort
        }),
{
    crate::app::lemma_choose_twice(s.overview_sort.column, s.overview_sort.direction, c);
    let once = hit_step(s, f, HitTarget::OverviewHeader(c)).0;
    crate::app::lemma_choose_twice(once.overview_sort.column, once.overview_sort.direction, c);
}

/// After clamping, each selection names a row of its table, or is 0 when
/// the table is empty.
pub proof fn lemma_clamped_in_range(s: UiView, l: TableLengths)
    ensures
        ({
            let c = clamped(s, l).selected;
            &&& (l.overview == 0 ==> c.overview == 0) && (l.overview > 0 ==> c.overview < l.overview)
            &&& (l.my_jobs == 0 ==> c.my_jobs == 0) && (l.my_jobs > 0 ==> c.my_jobs < l.my_jobs)
            &&& (l.users == 0 ==> c.users == 0) && (l.users > 0 ==> c.users < l.users)
            &&& (l.all_jobs == 0 ==> c.all_jobs == 0) && (l.all_jobs > 0 ==> c.all_jobs < l.all_jobs)
            &&& (l.partition_jobs == 0 ==> c.partition_jobs == 0) && (l.partition_jobs > 0
                ==> c.partition_jobs < l.partition_jobs)
            &&& (l.partition_nodes == 0 ==> c.partition_node == 0) && (l.partition_nodes > 0
                ==> c.partition_node < l.partition_nodes)
            &&& (l.history == 0 ==> c.history == 0) && (l.history > 0 ==> c.history < l.history)
        }),
{
}

/// Typing a search and pressing Esc leaves the applied search as it was;
/// pressing Enter applies what was typed.
pub proof fn lemma_search_abandon_or_apply(s: UiView, f: FocusView, typed: char)
    requires
        s.input_mode == InputMode::Normal,
        s.modal is None,
    ensures
        ({
            let opened = key_step(s, f, Key::Char('/')).0;
            let typing = key_step(opened, f, Key::Char(typed)).0;
            let abandoned = key_step(typing, f, Key::Esc).0;
            let applied = key_step(typing, f, Key::Enter).0;
            &&& abandoned.search_query == s.search_query
            &&& abandoned.input_mode == InputMode::Normal
            &&& applied.search_query == s.search_query.push(typed)
            &&& applied.input_mode == InputMode::Normal
        }),
{
}

fn clamp_exec(i: usize, len: usize) -> (r: usize)
    ensures
        r == clamp_to(i, len),
{
    if len == 0 {
        0
    } else if i > len - 1 {
        len - 1
    } else {
        i
    }
}

fn without_last(s: &String) -> (r: String)
    ensures
        s@.len() > 0 ==> r@ == s@.drop_last(),
        s@.len() == 0 ==> r@ == s@,
{
    let v = chars_of(s.as_str());
    if v.len() == 0 {
        clone_string(s)
    } else {
        let t = copy_range(&v, 0, v.len() - 1);
        assert(t@ =~= s@.drop_last());
        string_of(&t)
    }
}

fn same_opt(a: &Option<String>, b: &Option<String>) -> (r: bool)
    ensures
        r == (opt_view(*a) == opt_view(*b)),
{
    match (a, b) {
        (Some(x), Some(y)) => {
            let xv = chars_of(x.as_str());
            let yv = chars_of(y.as_str());
            eq_chars(&xv, &yv)
        },
        (None, None) => true,
        _ => false,
    }
}

impl UiState {
    /// The state the interface starts in: the overview (or the All Jobs tab
    /// when asked for and enabled), pressure sorted descending, jobs by
    /// runtime descending, users by running jobs descending, active jobs,
    /// node metric.
    pub fn new(all_jobs_enabled: bool, start_in_all_jobs: bool) -> (s: Self)
        ensures
            ui_wf(s@),
            s@.all_jobs_enabled == all_jobs_enabled,
            s@.main_index == if start_in_all_jobs && all_jobs_enabled {
                3usize
            } else {
                0usize
            },
            s@.detail_partition is None,
            s@.node is None,
            s@.input_mode == InputMode::Normal,
            s@.search_query == Seq::<char>::empty(),
            s@.search_draft == Seq::<char>::empty(),
            s@.metric_mode == MetricMode::Nodes,
            !s@.show_only_mine,
            s@.pinned_partition is None,
            s@.modal is None,
            s@.selected == (Selections {
                overview: 0,
                my_jobs: 0,
                users: 0,
                all_jobs: 0,
                partition_jobs: 0,
                partition_node: 0,
                history: 0,
            }),
            s@.job_horizontal_offset == 0,
            s@.overview_sort == (OverviewSortState {
                column: crate::app::OverviewColumn::Pressure,
                direction: SortDirection::Desc,
            }),
            s@.job_sort == (JobSortState { column: crate::app::JobColumn::Runtime, direction: SortDirection::Desc }),
            s@.user_sort == (UserSortState {
                column: crate::app::UserColumn::RunningJobs,
                direction: SortDirection::Desc,
            }),
            s@.job_filter == JobFilter::Active,
            !s@.quit,
            s@.status_message is None,
    {
        UiState {
            all_jobs_enabled,
            main_index: crate::state::initial_main_index(start_in_all_jobs, all_jobs_enabled),
            detail_partition: None,
            node: None,
            input_mode: InputMode::Normal,
            search_query: String::new(),
            search_draft: String::new(),
            metric_mode: MetricMode::Nodes,
            show_only_mine: false,
            pinned_partition: None,
            modal: None,
            selected: Selections {
                overview: 0,
                my_jobs: 0,
                users: 0,
                all_jobs: 0,
                partition_jobs: 0,
                partition_node: 0,
                history: 0,
            },
            job_horizontal_offset: 0,
            overview_sort: OverviewSortState {
                column: crate::app::OverviewColumn::Pressure,
                direction: SortDirection::Desc,
            },
            job_sort: JobSortState { column: crate::app::JobColumn::Runtime, direction: SortDirection::Desc },
            user_sort: UserSortState {
                column: crate::app::UserColumn::RunningJobs,
                direction: SortDirection::Desc,
            },
            job_filter: JobFilter::Active,
            quit: false,
            status_message: None,
        }
    }

    /// The page shown.
    pub fn page(&self) -> (p: Page)
        requires
            ui_wf(self@),
        ensures
            p == page_of(self@),
    {
        current_page(self.node.is_some(), self.detail_partition.is_some(), self.all_jobs_enabled, self.main_index)
    }

    /// The sort order of the page in view: the overview's, the users', or
    /// the jobs'.
    pub fn sort_label(&self) -> (l: String)
        requires
            ui_wf(self@),
        ensures
            l@ == sort_label_on(page_of(self@), self@),
    {
        match self.page() {
            Page::Overview => self.overview_sort.label(),
            Page::Users => self.user_sort.label(),
            _ => self.job_sort.label(),
        }
    }

    /// The filter of the page in view: whether the users page shows only
    /// the current user, the node page's user and state choices (given
    /// here), or the job filter.
    pub fn filter_label(&self, node_user: &str, node_state: &str) -> (l: String)
        requires
            ui_wf(self@),
        ensures
            l@ == filter_label_on(page_of(self@), self@, node_user@, node_state@),
    {
        match self.page() {
            Page::Users => if self.show_only_mine {
                owned("Showing only the current user")
            } else {
                owned("Showing all users with active jobs")
            },
            Page::NodeDetail => if self.node.is_some() {
                let mut v = chars_of("User: ");
                crate::text::append_str(&mut v, node_user);
                crate::text::append_str(&mut v, " | State: ");
                crate::text::append_str(&mut v, node_state);
                string_of(&v)
            } else {
                owned("All")
            },
            _ => owned(self.job_filter.label()),
        }
    }

    /// The text being typed or applied as the search.
    pub fn active_query(&self) -> (q: &String)
        ensures
            q@ == if self@.input_mode == InputMode::Search {
                self@.search_draft
            } else {
                self@.search_query
            },
    {
        if self.input_mode == InputMode::Search {
            &self.search_draft
        } else {
            &self.search_query
        }
    }

    /// The query of a job table; `user` names the user of the user panel.
    pub fn job_query(&self, table: JobTable, user: &str) -> (q: JobListQuery)
        ensures
            job_query_fits(self@, table, user@, q),
    {
        let page_partition = if table == JobTable::Partition {
            match &self.detail_partition {
                Some(p) => Some(clone_string(p)),
                None => Some(String::new()),
            }
        } else {
            None
        };
        let page_user = if table == JobTable::UserJobs {
            Some(owned(user))
        } else {
            None
        };
        JobListQuery {
            mine_only_page: table == JobTable::MyJobs,
            global_mine_only: (table == JobTable::AllJobs || table == JobTable::Partition)
                && self.show_only_mine,
            pinned_partition: clone_opt_string(&self.pinned_partition),
            page_partition,
            page_user,
            filter: self.job_filter,
            query: clone_string(self.active_query()),
            sort: self.job_sort,
        }
    }

    /// The query of the overview: the pin, the search, the partition sort
    /// and the metric.
    pub fn partition_query(&self) -> (q: PartitionQuery)
        ensures
            opt_view(q.pinned_partition) == self@.pinned_partition,
            q.query@ == active_query_of(self@),
            q.sort == self@.overview_sort,
            q.metric == self@.metric_mode,
    {
        PartitionQuery {
            pinned_partition: clone_opt_string(&self.pinned_partition),
            query: clone_string(self.active_query()),
            sort: self.overview_sort,
            metric: self.metric_mode,
        }
    }

    /// The query of the users table: the "only mine" toggle, the pin, the
    /// search and the user sort.
    pub fn user_query(&self) -> (q: UserQuery)
        ensures
            q.mine_only == self@.show_only_mine,
            opt_view(q.pinned_partition) == self@.pinned_partition,
            q.query@ == active_query_of(self@),
            q.sort == self@.user_sort,
    {
        UserQuery {
            mine_only: self.show_only_mine,
            pinned_partition: clone_opt_string(&self.pinned_partition),
            query: clone_string(self.active_query()),
            sort: self.user_sort,
        }
    }

    /// The query of the node page's job table over the node's jobs: the
    /// "only mine" toggle, the chosen user and state (by their positions
    /// among the sorted distinct users and states), the placement and
    /// reason filters in force, the search and the job sort.
    pub fn node_job_query(&self, jobs: &Vec<JobRecord>) -> (q: NodeJobQuery)
        ensures
            q.mine_only == self@.show_only_mine,
            forall|users: Seq<Seq<char>>|
                sorted_distinct(crate::state::node_job_users(jobs@), users) ==> q.user_filter@
                    == filter_choice(
                    users,
                    match self@.node {
                        Some(n) => n.user_filter_index as nat,
                        None => 0,
                    },
                    "All users"@,
                ),
            forall|states: Seq<Seq<char>>|
                sorted_distinct(crate::state::node_job_states(jobs@), states) ==> q.state_filter@
                    == filter_choice(
                    states,
                    match self@.node {
                        Some(n) => n.state_filter_index as nat,
                        None => 0,
                    },
                    "All states"@,
                ),
            q.where_filter@ == active_node_filter(self@, false),
            q.why_filter@ == active_node_filter(self@, true),
            q.query@ == active_query_of(self@),
            q.sort == self@.job_sort,
    {
        let users = node_users(jobs);
        let states = node_states(jobs);
        let (ui, si) = match &self.node {
            Some(n) => (n.user_filter_index, n.state_filter_index),
            None => (0, 0),
        };
        let user_filter = current_filter_value(&users, ui, "All users");
        let state_filter = current_filter_value(&states, si, "All states");
        proof {
            assert forall|us: Seq<Seq<char>>|
                sorted_distinct(crate::state::node_job_users(jobs@), us) implies us == string_views(users@) by {
                crate::state::lemma_sorted_distinct_unique(crate::state::node_job_users(jobs@), us, string_views(users@));
            }
            assert forall|ss: Seq<Seq<char>>|
                sorted_distinct(crate::state::node_job_states(jobs@), ss) implies ss == string_views(states@) by {
                crate::state::lemma_sorted_distinct_unique(crate::state::node_job_states(jobs@), ss, string_views(states@));
            }
        }
        let (where_filter, why_filter) = match &self.node {
            Some(n) => (
                clone_string(
                    if self.input_mode == InputMode::NodeWhereFilter {
                        &n.where_draft
                    } else {
                        &n.where_filter
                    },
                ),
                clone_string(
                    if self.input_mode == InputMode::NodeWhyFilter {
                        &n.why_draft
                    } else {
                        &n.why_filter
                    },
                ),
            ),
            None => (String::new(), String::new()),
        };
        NodeJobQuery {
            mine_only: self.show_only_mine,
            user_filter,
            state_filter,
            where_filter,
            why_filter,
            query: clone_string(self.active_query()),
            sort: self.job_sort,
        }
    }

    fn set_status(&mut self, msg: &str)
        ensures
            final(self)@ == with_status(old(self)@, msg@),
    {
        self.status_message = Some(owned(msg));
    }

    fn move_by(&mut self, f: &Focus, delta: isize)
        requires
            ui_wf(old(self)@),
        ensures
            final(self)@ == moved(old(self)@, f@, delta as int),
    {
        if f.rows == 0 {
            return;
        }
        let page = self.page();
        match page {
            Page::Overview => self.selected.overview = move_index(self.selected.overview, delta, f.rows),
            Page::MyJobs => self.selected.my_jobs = move_index(self.selected.my_jobs, delta, f.rows),
            Page::Users => self.selected.users = move_index(self.selected.users, delta, f.rows),
            Page::AllJobs => self.selected.all_jobs = move_index(self.selected.all_jobs, delta, f.rows),
            Page::PartitionDetail => self.selected.partition_jobs = move_index(
                self.selected.partition_jobs,
                delta,
                f.rows,
            ),
            Page::NodeDetail => {
                match &mut self.node {
                    Some(n) => {
                        n.selected_job = move_index(n.selected_job, delta, f.rows);
                    },
                    None => {},
                }
            },
        }
    }

    /// The selection of the page moved by `delta` rows (the mouse wheel).
    pub fn scroll(&mut self, delta: isize, f: &Focus)
        requires
            ui_wf(old(self)@),
        ensures
            ui_wf(final(self)@),
            final(self)@ == moved(old(self)@, f@, delta as int),
    {
        self.move_by(f, delta);
    }

    fn go_back(&mut self)
        requires
            ui_wf(old(self)@),
        ensures
            final(self)@ == back(old(self)@),
    {
        if self.node.is_some() {
            self.node = None;
        } else if self.detail_partition.is_some() {
            self.detail_partition = None;
        } else {
            let page = self.page();
            if page == Page::MyJobs || page == Page::AllJobs || page == Page::Users {
                self.main_index = 0;
            }
        }
    }

    fn tab_count(&self) -> (n: usize)
        ensures
            n == main_pages_len(self.all_jobs_enabled),
    {
        if self.all_jobs_enabled {
            4
        } else {
            3
        }
    }

    fn sort_cycle(&mut self)
        requires
            ui_wf(old(self)@),
        ensures
            final(self)@ == sort_cycled(old(self)@),
    {
        match self.page() {
            Page::Overview => self.overview_sort = self.overview_sort.cycle(),
            Page::Users => self.user_sort = self.user_sort.cycle(),
            _ => self.job_sort = self.job_sort.cycle(),
        }
    }

    fn filter_cycle(&mut self, f: &Focus)
        requires
            ui_wf(old(self)@),
        ensures
            final(self)@ == filter_cycled(old(self)@, f@),
            ui_wf(final(self)@),
    {
        match self.page() {
            Page::NodeDetail => match &mut self.node {
                Some(n) => {
                    n.state_filter_index = next_filter_index(n.state_filter_index, f.node_states);
                },
                None => {},
            },
            Page::MyJobs | Page::AllJobs | Page::PartitionDetail => self.job_filter = self.job_filter.next(),
            _ => {},
        }
    }

    fn user_filter_cycle(&mut self, f: &Focus)
        requires
            ui_wf(old(self)@),
        ensures
            final(self)@ == user_filter_cycled(old(self)@, f@),
            ui_wf(final(self)@),
    {
        if self.page() == Page::NodeDetail {
            match &mut self.node {
                Some(n) => {
                    n.user_filter_index = next_filter_index(n.user_filter_index, f.node_users);
                },
                None => {},
            }
        }
    }

    fn toggle_mine(&mut self)
        requires
            ui_wf(old(self)@),
        ensures
            final(self)@ == mine_toggled(old(self)@),
    {
        if self.page() != Page::MyJobs {
            self.show_only_mine = !self.show_only_mine;
        }
    }

    fn toggle_pin(&mut self, f: &Focus)
        ensures
            final(self)@ == pin_toggled(old(self)@, f@),
    {
        if same_opt(&self.pinned_partition, &f.partition) {
            self.pinned_partition = None;
        } else {
            self.pinned_partition = clone_opt_string(&f.partition);
        }
    }

    fn start_node_edit(&mut self, why: bool)
        requires
            ui_wf(old(self)@),
        ensures
            final(self)@ == node_edit_started(old(self)@, why),
    {
        if self.page() == Page::NodeDetail {
            match &mut self.node {
                Some(n) => {
                    if why {
                        n.why_draft = clone_string(&n.why_filter);
                        self.input_mode = InputMode::NodeWhyFilter;
                    } else {
                        n.where_draft = clone_string(&n.where_filter);
                        self.input_mode = InputMode::NodeWhereFilter;
                    }
                },
                None => {},
            }
        }
    }

    fn clear_node(&mut self)
        ensures
            final(self)@ == node_cleared(old(self)@),
    {
        match &mut self.node {
            Some(n) => {
                n.user_filter_index = 0;
                n.state_filter_index = 0;
                n.where_filter = String::new();
                n.where_draft = String::new();
                n.why_filter = String::new();
                n.why_draft = String::new();
                n.selected_job = 0;
            },
            None => {},
        }
    }

    fn open_node(&mut self, f: &Focus) -> (e: Effect)
        ensures
            (final(self)@, e) == node_opened(old(self)@, f@),
    {
        match &self.detail_partition {
            None => {
                self.set_status("Open a partition before opening a node");
                Effect::Nothing
            },
            Some(p) => match &f.node {
                None => {
                    self.set_status("No node is available in this partition");
                    Effect::Nothing
                },
                Some(n) => {
                    let cursor = NodeDetailState::new(clone_string(n), clone_string(p));
                    self.node = Some(cursor);
                    Effect::LoadNode
                },
            },
        }
    }

    fn move_partition_node(&mut self, f: &Focus, delta: isize)
        ensures
            final(self)@ == partition_node_moved(old(self)@, f@, delta as int),
    {
        if f.partition_nodes > 0 {
            self.selected.partition_node = move_index(self.selected.partition_node, delta, f.partition_nodes);
        }
    }

    fn open_job_detail(&mut self, f: &Focus) -> (e: Effect)
        ensures
            (final(self)@, e) == job_detail_opened(old(self)@, f@),
    {
        if f.job.is_some() {
            self.modal = Some(ModalKind::JobDetail);
            Effect::LoadJobDetail
        } else {
            Effect::Nothing
        }
    }

    fn open_primary(&mut self, f: &Focus) -> (e: Effect)
        requires
            ui_wf(old(self)@),
        ensures
            (final(self)@, e) == primary_opened(old(self)@, f@),
    {
        match self.page() {
            Page::Overview => {
                match &f.partition {
                    Some(p) => {
                        self.detail_partition = Some(clone_string(p));
                        self.selected.partition_jobs = 0;
                        self.selected.partition_node = 0;
                    },
                    None => {},
                }
                Effect::Nothing
            },
            Page::Users => Effect::Nothing,
            _ => self.open_job_detail(f),
        }
    }

    fn review_single_cancel(&mut self, f: &Focus) -> (e: Effect)
        ensures
            (final(self)@, e) == single_cancel(old(self)@, f@),
    {
        if f.job.is_some() {
            self.modal = Some(ModalKind::ConfirmCancel);
            Effect::ReviewSingleCancel
        } else {
            self.set_status("no active job selected");
            Effect::Nothing
        }
    }

    fn review_bulk_cancel(&mut self, f: &Focus) -> (e: Effect)
        requires
            ui_wf(old(self)@),
        ensures
            (final(self)@, e) == bulk_cancel(old(self)@, f@),
    {
        let page = self.page();
        if !(page == Page::MyJobs || page == Page::AllJobs || page == Page::PartitionDetail || page
            == Page::NodeDetail) {
            self.set_status("bulk cancel is available only on active job pages");
            Effect::Nothing
        } else if f.rows == 0 {
            self.set_status("no visible jobs to review for cancel");
            Effect::Nothing
        } else {
            self.modal = Some(ModalKind::ConfirmCancel);
            Effect::ReviewBulkCancel
        }
    }

    fn move_offset(&mut self, right: bool)
        requires
            ui_wf(old(self)@),
        ensures
            final(self)@ == offset_moved(old(self)@, right),
    {
        let page = self.page();
        if page == Page::MyJobs || page == Page::AllJobs || page == Page::PartitionDetail || page
            == Page::NodeDetail {
            if right {
                if self.job_horizontal_offset < usize::MAX {
                    self.job_horizontal_offset = self.job_horizontal_offset + 1;
                }
            } else if self.job_horizontal_offset > 0 {
                self.job_horizontal_offset = self.job_horizontal_offset - 1;
            }
        }
    }

    fn refresh(&self) -> (e: Effect)
        ensures
            e == refresh_effect(self@),
    {
        if self.node.is_some() {
            Effect::RefreshWithNode
        } else {
            Effect::Refresh
        }
    }

    fn normal_key(&mut self, key: Key, f: &Focus) -> (e: Effect)
        requires
            ui_wf(old(self)@),
        ensures
            ui_wf(final(self)@),
            (final(self)@, e) == normal_step(old(self)@, f@, key),
    {
        match key {
            Key::Esc => {
                self.go_back();
                Effect::Nothing
            },
            Key::Tab => {
                let n = self.tab_count();
                let in_detail = self.detail_partition.is_some() || self.node.is_some();
                self.main_index = next_page_index(self.main_index, n, in_detail);
                Effect::Nothing
            },
            Key::BackTab => {
                let n = self.tab_count();
                let in_detail = self.detail_partition.is_some() || self.node.is_some();
                self.main_index = prev_page_index(self.main_index, n, in_detail);
                Effect::Nothing
            },
            Key::Down => {
                self.move_by(f, 1);
                Effect::Nothing
            },
            Key::Up => {
                self.move_by(f, -1);
                Effect::Nothing
            },
            Key::Left => {
                self.move_offset(false);
                Effect::Nothing
            },
            Key::Right => {
                self.move_offset(true);
                Effect::Nothing
            },
            Key::Enter => self.open_primary(f),
            Key::Char(c) => self.char_key(c, f),
            _ => Effect::Nothing,
        }
    }

    #[verifier::rlimit(60)]
    fn char_key(&mut self, c: char, f: &Focus) -> (e: Effect)
        requires
            ui_wf(old(self)@),
        ensures
            ui_wf(final(self)@),
            (final(self)@, e) == normal_step(old(self)@, f@, Key::Char(c)),
    {
        if c == 'q' {
            self.quit = true;
            Effect::Nothing
        } else if c == 'h' {
            self.modal = Some(ModalKind::Help);
            Effect::Nothing
        } else if c == 'b' {
            self.go_back();
            Effect::Nothing
        } else if c == 'j' {
            self.move_by(f, 1);
            Effect::Nothing
        } else if c == 'k' {
            self.move_by(f, -1);
            Effect::Nothing
        } else if c == 'r' {
            self.refresh()
        } else if c == 's' {
            self.sort_cycle();
            Effect::Nothing
        } else if c == '/' {
            self.search_draft = clone_string(&self.search_query);
            self.input_mode = InputMode::Search;
            Effect::Nothing
        } else if c == 'f' {
            self.filter_cycle(f);
            Effect::Nothing
        } else if c == 'u' {
            self.user_filter_cycle(f);
            Effect::Nothing
        } else if c == 'm' {
            self.toggle_mine();
            Effect::Nothing
        } else if c == 'g' {
            self.metric_mode = self.metric_mode.next();
            Effect::Nothing
        } else if c == 'p' {
            self.toggle_pin(f);
            Effect::Nothing
        } else if c == 'w' {
            self.start_node_edit(false);
            Effect::Nothing
        } else if c == 'y' {
            self.start_node_edit(true);
            Effect::Nothing
        } else if c == 'c' {
            if self.page() == Page::NodeDetail {
                self.clear_node();
            }
            Effect::Nothing
        } else if c == 'n' {
            if self.page() == Page::PartitionDetail {
                self.open_node(f)
            } else {
                Effect::Nothing
            }
        } else if c == '[' {
            if self.page() == Page::PartitionDetail {
                self.move_partition_node(f, -1);
            }
            Effect::Nothing
        } else if c == ']' {
            if self.page() == Page::PartitionDetail {
                self.move_partition_node(f, 1);
            }
            Effect::Nothing
        } else if c == 'i' {
            self.open_job_detail(f)
        } else if c == 'x' {
            self.review_single_cancel(f)
        } else if c == 'X' {
            self.review_bulk_cancel(f)
        } else {
            Effect::Nothing
        }
    }

    fn modal_key(&mut self, m: ModalKind, key: Key) -> (e: Effect)
        requires
            old(self)@.modal == Some(m),
        ensures
            (final(self)@, e) == modal_step(old(self)@, m, key),
    {
        match m {
            ModalKind::Help => {
                if key == Key::Char('h') || key == Key::Esc || key == Key::Enter || key == Key::Char('b') {
                    self.modal = None;
                }
                Effect::Nothing
            },
            ModalKind::ConfirmCancel => {
                if key == Key::Esc || key == Key::Char('n') || key == Key::Char('b') {
                    self.modal = None;
                    Effect::Nothing
                } else if key == Key::Enter || key == Key::Char('y') {
                    self.modal = None;
                    Effect::RunCancel
                } else {
                    Effect::Nothing
                }
            },
            _ => {
                if key == Key::Esc || key == Key::Enter || key == Key::Char('b') || key == Key::Char('q')
                    || key == Key::Char('i') {
                    self.modal = None;
                }
                Effect::Nothing
            },
        }
    }

    #[verifier::rlimit(60)]
    fn typing_key(&mut self, key: Key)
        requires
            old(self)@.input_mode != InputMode::Normal,
        ensures
            final(self)@ == typing_step(old(self)@, key),
            final(self)@.main_index == old(self)@.main_index,
            final(self)@.all_jobs_enabled == old(self)@.all_jobs_enabled,
            final(self)@.node is Some <==> old(self)@.node is Some,
            match (final(self)@.node, old(self)@.node) {
                (Some(a), Some(b)) => a.user_filter_index == b.user_filter_index
                    && a.state_filter_index == b.state_filter_index,
                _ => true,
            },
    {
        match key {
            Key::Esc => {
                match self.input_mode {
                    InputMode::Search => self.search_draft = clone_string(&self.search_query),
                    InputMode::NodeWhereFilter => match &mut self.node {
                        Some(n) => n.where_draft = clone_string(&n.where_filter),
                        None => {},
                    },
                    InputMode::NodeWhyFilter => match &mut self.node {
                        Some(n) => n.why_draft = clone_string(&n.why_filter),
                        None => {},
                    },
                    InputMode::Normal => {},
                }
                self.input_mode = InputMode::Normal;
            },
            Key::Enter => {
                match self.input_mode {
                    InputMode::Search => self.search_query = clone_string(&self.search_draft),
                    InputMode::NodeWhereFilter => match &mut self.node {
                        Some(n) => n.where_filter = clone_string(&n.where_draft),
                        None => {},
                    },
                    InputMode::NodeWhyFilter => match &mut self.node {
                        Some(n) => n.why_filter = clone_string(&n.why_draft),
                        None => {},
                    },
                    InputMode::Normal => {},
                }
                self.input_mode = InputMode::Normal;
            },
            Key::Backspace => {
                match self.input_mode {
                    InputMode::Search => self.search_draft = without_last(&self.search_draft),
                    InputMode::NodeWhereFilter => match &mut self.node {
                        Some(n) => n.where_draft = without_last(&n.where_draft),
                        None => {},
                    },
                    InputMode::NodeWhyFilter => match &mut self.node {
                        Some(n) => n.why_draft = without_last(&n.why_draft),
                        None => {},
                    },
                    InputMode::Normal => {},
                }
            },
            Key::Char(c) => {
                match self.input_mode {
                    InputMode::Search => self.search_draft.push(c),
                    InputMode::NodeWhereFilter => match &mut self.node {
                        Some(n) => n.where_draft.push(c),
                        None => {},
                    },
                    InputMode::NodeWhyFilter => match &mut self.node {
                        Some(n) => n.why_draft.push(c),
                        None => {},
                    },
                    InputMode::Normal => {},
                }
            },
            _ => {},
        }
    }

    /// Handles a key, given what the page shows under the cursor, and
    /// says what work it leaves to the caller.
    pub fn handle_key(&mut self, key: Key, f: &Focus) -> (e: Effect)
        requires
            ui_wf(old(self)@),
        ensures
            ui_wf(final(self)@),
            (final(self)@, e) == key_step(old(self)@, f@, key),
    {
        if self.input_mode != InputMode::Normal {
            self.typing_key(key);
            Effect::Nothing
        } else {
            match self.modal {
                Some(m) => self.modal_key(m, key),
                None => self.normal_key(key, f),
            }
        }
    }

    /// Handles a footer button.
    pub fn footer_action(&mut self, a: FooterAction, f: &Focus) -> (e: Effect)
        requires
            ui_wf(old(self)@),
        ensures
            ui_wf(final(self)@),
            (final(self)@, e) == footer_step(old(self)@, f@, a),
    {
        match a {
            FooterAction::BackOverview => {
                self.node = None;
                self.detail_partition = None;
                self.main_index = 0;
                Effect::Nothing
            },
            FooterAction::Refresh => self.refresh(),
            FooterAction::Help => {
                self.modal = Some(ModalKind::Help);
                Effect::Nothing
            },
            FooterAction::ToggleMine => {
                self.toggle_mine();
                Effect::Nothing
            },
            FooterAction::OpenDetail => self.open_primary(f),
            FooterAction::OpenNode => self.open_node(f),
            FooterAction::CancelJob => self.review_single_cancel(f),
            FooterAction::BulkCancel => self.review_bulk_cancel(f),
            FooterAction::ClearFilters => {
                self.clear_node();
                Effect::Nothing
            },
        }
    }

    /// Handles a click; a click on a row only selects it (see
    /// `activate_row`).
    #[verifier::rlimit(80)]
    pub fn handle_hit(&mut self, h: HitTarget, f: &Focus) -> (e: Effect)
        requires
            ui_wf(old(self)@),
        ensures
            ui_wf(final(self)@),
            (final(self)@, e) == hit_step(old(self)@, f@, h),
    {
        match h {
            HitTarget::Tab(p) => {
                self.node = None;
                self.detail_partition = None;
                match tab_index(self.all_jobs_enabled, p) {
                    Some(i) => self.main_index = i,
                    None => {},
                }
                Effect::Nothing
            },
            HitTarget::Row(kind, index) => {
                self.select_row(kind, index);
                Effect::Nothing
            },
            HitTarget::OverviewHeader(c) => {
                self.overview_sort.choose_column(c);
                Effect::Nothing
            },
            HitTarget::JobHeader(c) => {
                self.job_sort.choose_column(c);
                Effect::Nothing
            },
            HitTarget::UserHeader(c) => {
                self.user_sort.choose_column(c);
                Effect::Nothing
            },
            HitTarget::Footer(a) => self.footer_action(a, f),
            HitTarget::Modal(a) => match a {
                ModalAction::Ignore => Effect::Nothing,
                ModalAction::Confirm => {
                    let was_confirm = match self.modal {
                        Some(ModalKind::ConfirmCancel) => true,
                        _ => false,
                    };
                    self.modal = None;
                    if was_confirm {
                        Effect::RunCancel
                    } else {
                        Effect::Nothing
                    }
                },
                _ => {
                    self.modal = None;
                    Effect::Nothing
                },
            },
        }
    }

    fn select_row(&mut self, kind: RowKind, index: usize)
        ensures
            final(self)@ == row_selected(old(self)@, kind, index),
    {
        match kind {
            RowKind::Overview => self.selected.overview = index,
            RowKind::MyJobs => self.selected.my_jobs = index,
            RowKind::Users => self.selected.users = index,
            RowKind::AllJobs => self.selected.all_jobs = index,
            RowKind::PartitionJobs => self.selected.partition_jobs = index,
            RowKind::PartitionNodes => self.selected.partition_node = index,
            RowKind::History => self.selected.history = index,
            RowKind::NodeJobs => match &mut self.node {
                Some(n) => n.selected_job = index,
                None => {},
            },
        }
    }

    /// Opens what a double-clicked row stands for; `f` is what the page
    /// shows once the row is selected.
    pub fn activate_row(&mut self, kind: RowKind, f: &Focus) -> (e: Effect)
        requires
            ui_wf(old(self)@),
        ensures
            ui_wf(final(self)@),
            (final(self)@, e) == row_activated(old(self)@, f@, kind),
    {
        match kind {
            RowKind::Overview => self.open_primary(f),
            RowKind::PartitionNodes => self.open_node(f),
            RowKind::Users => Effect::Nothing,
            _ => self.open_job_detail(f),
        }
    }

    /// Keeps every selection within its table.
    pub fn clamp(&mut self, l: &TableLengths)
        requires
            ui_wf(old(self)@),
        ensures
            ui_wf(final(self)@),
            final(self)@ == clamped(old(self)@, *l),
    {
        self.selected.overview = clamp_exec(self.selected.overview, l.overview);
        self.selected.my_jobs = clamp_exec(self.selected.my_jobs, l.my_jobs);
        self.selected.users = clamp_exec(self.selected.users, l.users);
        self.selected.all_jobs = clamp_exec(self.selected.all_jobs, l.all_jobs);
        self.selected.partition_jobs = clamp_exec(self.selected.partition_jobs, l.partition_jobs);
        self.selected.partition_node = clamp_exec(self.selected.partition_node, l.partition_nodes);
        self.selected.history = clamp_exec(self.selected.history, l.history);
        match &mut self.node {
            Some(n) => n.selected_job = clamp_exec(n.selected_job, l.node_jobs),
            None => {},
        }
    }
}

} // verus!
