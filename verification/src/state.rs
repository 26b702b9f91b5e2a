//! The navigation decisions of the interface: pages and tabs, selections,
//! footer actions, staleness, status badges, click targets, node filters,
//! trend counts, and what a finished background load hands back.
use vstd::prelude::*;

use crate::app::{
    main_pages, JobColumn, OverviewColumn, UserColumn, CancelCandidate, CancelOutcome, CancelPreview, CancelScope, Page,
};
use crate::collector::command::{usable, CaptureView, CommandCapture, CommandStatus};
use crate::collector::opt_note;
use crate::model::parse::{
    history_fit, jobs_fit, parse_history, parse_history_of, parse_jobs, parse_jobs_of,
    parse_scontrol_node, parse_scontrol_node_of,
};
use crate::model::types::{
    clone_string, history_views, job_views, opt_view, string_views, ClusterSnapshot, HistoryRecord, JobRecord, JobView,
    NodeDetail, NodeDetailView,
};
use crate::strmap::{lemma_lex_asymmetric, lemma_lex_irreflexive, lemma_lex_total, lex_lt, lex_lt_exec};
use crate::text::{append_str, chars_of, dec, eq_chars, push_dec, string_of, trim, trim_exec};

verus! {

/// Whether a key or footer action is being typed into a text field.
#[derive(Debug, Clone, Copy, PartialEq, Eq, Structural)]
pub enum InputMode {
    Normal,
    Search,
    NodeWhereFilter,
    NodeWhyFilter,
}

/// The actions the footer offers.
#[derive(Debug, Clone, Copy, PartialEq, Eq, Structural)]
pub enum FooterAction {
    BackOverview,
    Refresh,
    Help,
    ToggleMine,
    OpenDetail,
    OpenNode,
    CancelJob,
    BulkCancel,
    ClearFilters,
}

/// The tab index the interface starts on: the All Jobs tab when asked for
/// and enabled, else the first.
pub fn initial_main_index(start_in_all_jobs: bool, all_jobs_enabled: bool) -> (i: usize)
    ensures
        i == if start_in_all_jobs && all_jobs_enabled {
            3usize
        } else {
            0usize
        },
{
    if start_in_all_jobs && all_jobs_enabled {
        let pages = main_pages(all_jobs_enabled);
        let mut k: usize = 0;
        while k < pages.len()
            invariant
                k <= pages@.len(),
                pages@ == seq![Page::Overview, Page::MyJobs, Page::Users, Page::AllJobs],
                pages@.len() == 4,
                start_in_all_jobs && all_jobs_enabled,
                pages@[0] == Page::Overview,
                pages@[1] == Page::MyJobs,
                pages@[2] == Page::Users,
                pages@[3] == Page::AllJobs,
                forall|m: int| 0 <= m < k ==> pages@[m] != Page::AllJobs,
            decreases pages@.len() - k,
        {
            if pages[k] == Page::AllJobs {
                assert(k == 3) by {
                    if k == 0 {
                    } else if k == 1 {
                    } else if k == 2 {
                    }
                }
                return k;
            }
            k = k + 1;
        }
        0
    } else {
        0
    }
}

/// The page shown: the node page when a node is open, else the partition
/// page when a partition is open, else the selected tab.
pub open spec fn current_page_of(node_open: bool, partition_open: bool, tabs: Seq<Page>, index: int) -> Page {
    if node_open {
        Page::NodeDetail
    } else if partition_open {
        Page::PartitionDetail
    } else {
        tabs[index]
    }
}

pub fn current_page(node_open: bool, partition_open: bool, all_jobs_enabled: bool, index: usize) -> (p: Page)
    requires
        index < main_pages_len(all_jobs_enabled),
    ensures
        p == current_page_of(node_open, partition_open, main_tabs(all_jobs_enabled), index as int),
{
    if node_open {
        Page::NodeDetail
    } else if partition_open {
        Page::PartitionDetail
    } else {
        let tabs = main_pages(all_jobs_enabled);
        tabs[index]
    }
}

/// The main tabs.
pub open spec fn main_tabs(all_jobs_enabled: bool) -> Seq<Page> {
    if all_jobs_enabled {
        seq![Page::Overview, Page::MyJobs, Page::Users, Page::AllJobs]
    } else {
        seq![Page::Overview, Page::MyJobs, Page::Users]
    }
}

pub open spec fn main_pages_len(all_jobs_enabled: bool) -> nat {
    main_tabs(all_jobs_enabled).len()
}

/// The tab after `index`, wrapping around; a detail page stays put.
pub fn next_page_index(index: usize, tab_count: usize, in_detail: bool) -> (r: usize)
    requires
        0 < tab_count,
        index < tab_count,
    ensures
        r == if in_detail {
            index as int
        } else {
            (index + 1) % (tab_count as int)
        },
{
    if in_detail {
        index
    } else {
        (index + 1) % tab_count
    }
}

/// The tab before `index`, wrapping around; a detail page stays put.
pub fn prev_page_index(index: usize, tab_count: usize, in_detail: bool) -> (r: usize)
    requires
        0 < tab_count,
        index < tab_count,
    ensures
        r == if in_detail {
            index as int
        } else {
            (index + tab_count - 1) % (tab_count as int)
        },
{
    if in_detail {
        index
    } else {
        proof {
            vstd::arithmetic::div_mod::lemma_small_mod((tab_count - 1) as nat, tab_count as nat);
            if index > 0 {
                vstd::arithmetic::div_mod::lemma_small_mod((index - 1) as nat, tab_count as nat);
            }
            vstd::arithmetic::div_mod::lemma_mod_add_multiples_vanish(index - 1, tab_count as int);
        }
        if index == 0 {
            tab_count - 1
        } else {
            index - 1
        }
    }
}

/// Moving to the next tab and back returns to the same tab.
pub proof fn lemma_page_round_trip(index: int, tab_count: int)
    requires
        0 < tab_count,
        0 <= index < tab_count,
    ensures
        (((index + 1) % tab_count) + tab_count - 1) % tab_count == index,
        (((index + tab_count - 1) % tab_count) + 1) % tab_count == index,
{
    vstd::arithmetic::div_mod::lemma_small_mod(index as nat, tab_count as nat);
    vstd::arithmetic::div_mod::lemma_small_mod((tab_count - 1) as nat, tab_count as nat);
    vstd::arithmetic::div_mod::lemma_mod_self_0(tab_count);
    if index + 1 < tab_count {
        vstd::arithmetic::div_mod::lemma_small_mod((index + 1) as nat, tab_count as nat);
    }
    if index > 0 {
        vstd::arithmetic::div_mod::lemma_small_mod((index - 1) as nat, tab_count as nat);
    }
    vstd::arithmetic::div_mod::lemma_mod_add_multiples_vanish(index, tab_count);
    vstd::arithmetic::div_mod::lemma_mod_add_multiples_vanish(index - 1, tab_count);
}

/// `current + delta`, kept within `0..len`.
pub open spec fn moved_index(current: int, delta: int, len: int) -> int {
    let t = current + delta;
    if t < 0 {
        0
    } else if t > len - 1 {
        len - 1
    } else {
        t
    }
}

/// The selection after moving by `delta` in a list of `len` rows; an
/// empty list keeps the selection.
pub fn move_index(current: usize, delta: isize, len: usize) -> (r: usize)
    ensures
        r == if len == 0 {
            current as int
        } else {
            moved_index(current as int, delta as int, len as int)
        },
{
    if len == 0 {
        return current;
    }
    let t: i128 = current as i128 + delta as i128;
    let last: i128 = len as i128 - 1;
    if t < 0 {
        0
    } else if t > last {
        len - 1
    } else {
        t as usize
    }
}

/// The footer actions of a page, in order.
pub open spec fn footer_actions_of(page: Page) -> Seq<FooterAction> {
    match page {
        Page::MyJobs => seq![
            FooterAction::BackOverview,
            FooterAction::Refresh,
            FooterAction::Help,
            FooterAction::OpenDetail,
            FooterAction::CancelJob,
            FooterAction::BulkCancel,
        ],
        Page::AllJobs => seq![
            FooterAction::BackOverview,
            FooterAction::Refresh,
            FooterAction::Help,
            FooterAction::ToggleMine,
            FooterAction::OpenDetail,
            FooterAction::CancelJob,
            FooterAction::BulkCancel,
        ],
        Page::PartitionDetail => seq![
            FooterAction::BackOverview,
            FooterAction::Refresh,
            FooterAction::Help,
            FooterAction::ToggleMine,
            FooterAction::OpenDetail,
            FooterAction::CancelJob,
            FooterAction::BulkCancel,
            FooterAction::OpenNode,
        ],
        Page::NodeDetail => seq![
            FooterAction::BackOverview,
            FooterAction::Refresh,
            FooterAction::Help,
            FooterAction::ToggleMine,
            FooterAction::OpenDetail,
            FooterAction::CancelJob,
            FooterAction::BulkCancel,
            FooterAction::ClearFilters,
        ],
        Page::Overview => seq![
            FooterAction::Refresh,
            FooterAction::Help,
            FooterAction::ToggleMine,
            FooterAction::OpenDetail,
        ],
        Page::Users => seq![FooterAction::Refresh, FooterAction::Help, FooterAction::ToggleMine],
    }
}

/// The footer of a page: refresh and help, the mine toggle off the My Jobs
/// page, the way back and the job actions on job pages, node filters on
/// the node page, and opening a node on the partition page.
pub fn footer_actions(page: Page) -> (actions: Vec<FooterAction>)
    ensures
        actions@ == footer_actions_of(page),
{
    let mut actions: Vec<FooterAction> = Vec::new();
    actions.push(FooterAction::Refresh);
    actions.push(FooterAction::Help);
    if page != Page::MyJobs {
        actions.push(FooterAction::ToggleMine);
    }
    match page {
        Page::MyJobs | Page::AllJobs | Page::PartitionDetail => {
            actions.insert(0, FooterAction::BackOverview);
            actions.push(FooterAction::OpenDetail);
            actions.push(FooterAction::CancelJob);
            actions.push(FooterAction::BulkCancel);
        },
        Page::NodeDetail => {
            actions.insert(0, FooterAction::BackOverview);
            actions.push(FooterAction::OpenDetail);
            actions.push(FooterAction::CancelJob);
            actions.push(FooterAction::BulkCancel);
            actions.push(FooterAction::ClearFilters);
        },
        Page::Overview => actions.push(FooterAction::OpenDetail),
        Page::Users => {},
    }
    if page == Page::PartitionDetail {
        actions.push(FooterAction::OpenNode);
    }
    assert(actions@ =~= footer_actions_of(page));
    actions
}

pub open spec fn footer_label_of(action: FooterAction, page: Page) -> Seq<char> {
    match action {
        FooterAction::BackOverview => if page == Page::PartitionDetail || page == Page::NodeDetail {
            "q Back"@
        } else {
            "← Overview"@
        },
        FooterAction::Refresh => "r Refresh"@,
        FooterAction::Help => "h Help"@,
        FooterAction::ToggleMine => "m Mine/All"@,
        FooterAction::OpenDetail => "Enter Detail"@,
        FooterAction::CancelJob => "x Cancel"@,
        FooterAction::BulkCancel => "X Cancel Visible"@,
        FooterAction::OpenNode => "n Open Node"@,
        FooterAction::ClearFilters => "c Clear Filters"@,
    }
}

/// The text of a footer action on a page.
pub fn footer_action_label(action: FooterAction, page: Page) -> (s: &'static str)
    ensures
        s@ == footer_label_of(action, page),
{
    match action {
        FooterAction::BackOverview => if page == Page::PartitionDetail || page == Page::NodeDetail {
            "q Back"
        } else {
            "← Overview"
        },
        FooterAction::Refresh => "r Refresh",
        FooterAction::Help => "h Help",
        FooterAction::ToggleMine => "m Mine/All",
        FooterAction::OpenDetail => "Enter Detail",
        FooterAction::CancelJob => "x Cancel",
        FooterAction::BulkCancel => "X Cancel Visible",
        FooterAction::OpenNode => "n Open Node",
        FooterAction::ClearFilters => "c Clear Filters",
    }
}

/// Whether a sample is stale: more whole seconds have passed since it was
/// taken than three refresh intervals (in whole seconds, rounded up), and
/// never fewer than five.
pub open spec fn stale_of(now_ms: int, collected_at_ms: int, interval_ms: nat) -> bool {
    let elapsed = now_ms - collected_at_ms;
    let secs = if elapsed >= 0 {
        elapsed / 1000
    } else {
        -((-elapsed) / 1000)
    };
    let interval_secs = (interval_ms + 999) / 1000;
    let limit = if interval_secs * 3 > 5 {
        interval_secs * 3
    } else {
        5
    };
    secs > limit
}

pub fn is_stale(now_ms: i64, collected_at_ms: i64, interval_ms: u64) -> (b: bool)
    ensures
        b == stale_of(now_ms as int, collected_at_ms as int, interval_ms as nat),
{
    let elapsed: i128 = now_ms as i128 - collected_at_ms as i128;
    let secs: i128 = if elapsed >= 0 {
        elapsed / 1000
    } else {
        -((-elapsed) / 1000)
    };
    let interval_secs: i128 = (interval_ms as i128 + 999) / 1000;
    let limit: i128 = if interval_secs * 3 > 5 {
        interval_secs * 3
    } else {
        5
    };
    secs > limit
}

/// The status badge: loading before the first sample, error when nodes or
/// jobs could not be read, partial when degraded, else ok.
pub open spec fn status_label_of(
    has_snapshot: bool,
    nodes_ok: bool,
    jobs_ok: bool,
    degraded: bool,
) -> Seq<char> {
    if !has_snapshot {
        "loading"@
    } else if !nodes_ok || !jobs_ok {
        "error"@
    } else if degraded {
        "partial"@
    } else {
        "ok"@
    }
}

pub fn status_label(snapshot: &Option<ClusterSnapshot>) -> (s: &'static str)
    ensures
        s@ == match snapshot {
            Some(x) => status_label_of(
                true,
                x.source_health.nodes_ok,
                x.source_health.jobs_ok,
                x.degraded,
            ),
            None => status_label_of(false, true, true, false),
        },
{
    match snapshot {
        None => "loading",
        Some(x) => {
            if !x.source_health.nodes_ok || !x.source_health.jobs_ok {
                "error"
            } else if x.degraded {
                "partial"
            } else {
                "ok"
            }
        },
    }
}

/// A screen rectangle.
#[derive(Debug, Clone, Copy, PartialEq, Eq, Structural)]
pub struct Area {
    pub x: u16,
    pub y: u16,
    pub width: u16,
    pub height: u16,
}

/// `a + b`, kept at `u16::MAX`.
pub open spec fn sat16(a: u16, b: u16) -> nat {
    if a + b > u16::MAX {
        u16::MAX as nat
    } else {
        (a + b) as nat
    }
}

/// Whether a cell lies inside a rectangle (its far edges cut at the
/// screen's largest coordinate).
pub open spec fn inside(a: Area, column: u16, row: u16) -> bool {
    column >= a.x && column < sat16(a.x, a.width) && row >= a.y && row < sat16(a.y, a.height)
}

/// Which row, tab or control a click landed on.
#[derive(Debug, Clone, Copy, PartialEq, Eq, Structural)]
pub enum HitTarget {
    Tab(Page),
    Row(RowKind, usize),
    OverviewHeader(OverviewColumn),
    JobHeader(JobColumn),
    UserHeader(UserColumn),
    Footer(FooterAction),
    Modal(ModalAction),
}

/// The tables whose rows can be clicked.
#[derive(Debug, Clone, Copy, PartialEq, Eq, Structural)]
pub enum RowKind {
    Overview,
    MyJobs,
    Users,
    AllJobs,
    PartitionJobs,
    PartitionNodes,
    NodeJobs,
    History,
}

/// The buttons of a modal.
#[derive(Debug, Clone, Copy, PartialEq, Eq, Structural)]
pub enum ModalAction {
    Confirm,
    Cancel,
    Close,
    Ignore,
}

/// The clickable areas of the last frame, in drawing order.
#[derive(Debug, Clone)]
pub struct UiHitMap {
    pub hits: Vec<(Area, HitTarget)>,
}

/// The last-drawn area that holds the cell, if any.
pub open spec fn hit_of(hits: Seq<(Area, HitTarget)>, column: u16, row: u16) -> Option<HitTarget>
    decreases hits.len(),
{
    if hits.len() == 0 {
        None
    } else if inside(hits.last().0, column, row) {
        Some(hits.last().1)
    } else {
        hit_of(hits.drop_last(), column, row)
    }
}

impl UiHitMap {
    pub fn new() -> (m: Self)
        ensures
            m.hits@.len() == 0,
    {
        UiHitMap { hits: Vec::new() }
    }

    /// Records a clickable area drawn after the others.
    pub fn push(&mut self, area: Area, hit: HitTarget)
        ensures
            final(self).hits@ == old(self).hits@.push((area, hit)),
    {
        self.hits.push((area, hit));
    }

    /// What a click at the cell hits: the area drawn last among those that
    /// hold it.
    pub fn hit_test(&self, column: u16, row: u16) -> (r: Option<HitTarget>)
        ensures
            r == hit_of(self.hits@, column, row),
    {
        let mut k = self.hits.len();
        assert(self.hits@.take(k as int) =~= self.hits@);
        while k > 0
            invariant
                k <= self.hits@.len(),
                hit_of(self.hits@, column, row) == hit_of(self.hits@.take(k as int), column, row),
            decreases k,
        {
            let (a, h) = self.hits[k - 1];
            let right: u32 = a.x as u32 + a.width as u32;
            let bottom: u32 = a.y as u32 + a.height as u32;
            let right16: u32 = if right > 65535 {
                65535
            } else {
                right
            };
            let bottom16: u32 = if bottom > 65535 {
                65535
            } else {
                bottom
            };
            assert(self.hits@.take(k as int).last() == self.hits@[k - 1]);
            assert(self.hits@.take(k as int).drop_last() =~= self.hits@.take(k - 1));
            if column >= a.x && (column as u32) < right16 && row >= a.y && (row as u32) < bottom16 {
                return Some(h);
            }
            k = k - 1;
        }
        None
    }
}

/// The values listed once each, in increasing order.
pub open spec fn sorted_distinct(values: Seq<Seq<char>>, r: Seq<Seq<char>>) -> bool {
    &&& forall|i: int, j: int| 0 <= i < j < r.len() ==> lex_lt(#[trigger] r[i], #[trigger] r[j])
    &&& forall|x: Seq<char>| r.contains(x) <==> values.contains(x)
}

/// The sorted distinct listing of a sequence of values is unique.
pub proof fn lemma_sorted_distinct_unique(values: Seq<Seq<char>>, r1: Seq<Seq<char>>, r2: Seq<Seq<char>>)
    requires
        sorted_distinct(values, r1),
        sorted_distinct(values, r2),
    ensures
        r1 == r2,
{
    let before = |a: Seq<char>, b: Seq<char>| lex_lt(a, b);
    assert forall|a: Seq<char>| !#[trigger] before(a, a) by {
        lemma_lex_irreflexive(a);
    }
    assert forall|a: Seq<char>, b: Seq<char>, c: Seq<char>| #[trigger] before(a, b) && #[trigger] before(b, c) implies before(a, c) by {
        crate::strmap::lemma_lex_transitive(a, b, c);
    }
    assert(crate::order::sorted_by(r1, before));
    assert(crate::order::sorted_by(r2, before));
    crate::order::lemma_sorted_unique(r1, r2, before);
}

/// Whether some entry of `v` reads `y`.
pub open spec fn has_text(v: Seq<Vec<char>>, y: Seq<char>) -> bool {
    exists|k: int| 0 <= k < v.len() && v[k]@ == y
}

/// Whether one of the first `n` strings of `v` reads `y`.
pub open spec fn has_string(v: Seq<String>, n: int, y: Seq<char>) -> bool {
    exists|k: int| 0 <= k < n && v[k]@ == y
}

/// Inserts `x` into an increasing list of distinct values, unless present.
fn insert_distinct(r: &mut Vec<Vec<char>>, x: Vec<char>)
    requires
        forall|i: int, j: int|
            0 <= i < j < old(r)@.len() ==> lex_lt(#[trigger] old(r)@[i]@, #[trigger] old(r)@[j]@),
    ensures
        forall|i: int, j: int|
            0 <= i < j < final(r)@.len() ==> lex_lt(#[trigger] final(r)@[i]@, #[trigger] final(r)@[j]@),
        forall|y: Seq<char>|
            #[trigger] has_text(final(r)@, y) <==> (has_text(old(r)@, y) || y == x@),
{
    let ghost before = r@;
    let mut p: usize = 0;
    while p < r.len()
        invariant
            p <= r@.len(),
            r@ == before,
            forall|k: int| 0 <= k < p ==> lex_lt(#[trigger] r@[k]@, x@),
        ensures
            p <= r@.len(),
            r@ == before,
            forall|k: int| 0 <= k < p ==> lex_lt(#[trigger] r@[k]@, x@),
            p < r@.len() ==> !lex_lt(r@[p as int]@, x@),
        decreases r@.len() - p,
    {
        if !lex_lt_exec(&r[p], &x) {
            break;
        }
        p = p + 1;
    }
    if p < r.len() && eq_chars(&r[p], &x) {
        return;
    }
    proof {
        if p < r@.len() {
            lemma_lex_total(r@[p as int]@, x@);
        }
    }
    let ghost xv = x@;
    r.insert(p, x);
    proof {
        assert forall|i: int, j: int| 0 <= i < j < r@.len() implies lex_lt(
            #[trigger] r@[i]@,
            #[trigger] r@[j]@,
        ) by {
            if j < p {
                assert(r@[i] == before[i] && r@[j] == before[j]);
            } else if j == p {
                assert(r@[i] == before[i]);
            } else if i < p {
                assert(r@[i] == before[i] && r@[j] == before[j - 1]);
                crate::strmap::lemma_lex_transitive(before[i]@, xv, before[p as int]@);
                if j - 1 > p {
                    crate::strmap::lemma_lex_transitive(before[i]@, before[p as int]@, before[j - 1]@);
                }
            } else if i == p {
                assert(r@[j] == before[j - 1]);
                if j - 1 > p {
                    crate::strmap::lemma_lex_transitive(xv, before[p as int]@, before[j - 1]@);
                }
            } else {
                assert(r@[i] == before[i - 1] && r@[j] == before[j - 1]);
            }
        }
        assert forall|y: Seq<char>|
            #[trigger] has_text(r@, y) <==> (has_text(before, y) || y == xv) by {
            if has_text(r@, y) {
                let k = choose|k: int| 0 <= k < r@.len() && r@[k]@ == y;
                if k < p {
                    assert(before[k] == r@[k]);
                } else if k > p {
                    assert(before[k - 1] == r@[k]);
                }
            }
            if has_text(before, y) {
                let k = choose|k: int| 0 <= k < before.len() && before[k]@ == y;
                if k < p {
                    assert(r@[k] == before[k]);
                } else {
                    assert(r@[k + 1] == before[k]);
                }
            }
            if y == xv {
                assert(r@[p as int]@ == y);
            }
        }
    }
}

pub open spec fn node_job_users(jobs: Seq<JobRecord>) -> Seq<Seq<char>> {
    jobs.map_values(|j: JobRecord| j.user@)
}

pub open spec fn node_job_states(jobs: Seq<JobRecord>) -> Seq<Seq<char>> {
    jobs.map_values(|j: JobRecord| j.state@)
}

fn distinct_sorted(values: &Vec<String>) -> (r: Vec<String>)
    ensures
        sorted_distinct(string_views(values@), string_views(r@)),
{
    let mut acc: Vec<Vec<char>> = Vec::new();
    let mut i: usize = 0;
    while i < values.len()
        invariant
            i <= values@.len(),
            forall|a: int, b: int| 0 <= a < b < acc@.len() ==> lex_lt(#[trigger] acc@[a]@, #[trigger] acc@[b]@),
            forall|y: Seq<char>| #[trigger] has_text(acc@, y) <==> has_string(values@, i as int, y),
        decreases values@.len() - i,
    {
        let x = chars_of(values[i].as_str());
        insert_distinct(&mut acc, x);
        assert forall|y: Seq<char>| #[trigger] has_text(acc@, y) <==> has_string(values@, i + 1, y) by {
            if y == values@[i as int]@ {
                assert(values@[i as int]@ == y);
            }
            if has_string(values@, i + 1, y) {
                let k = choose|k: int| 0 <= k < i + 1 && values@[k]@ == y;
                if k < i {
                    assert(has_string(values@, i as int, y));
                }
            }
            if has_string(values@, i as int, y) {
                let k = choose|k: int| 0 <= k < i && values@[k]@ == y;
                assert(has_string(values@, i + 1, y));
            }
        }
        i = i + 1;
    }
    let mut r: Vec<String> = Vec::new();
    let mut k: usize = 0;
    while k < acc.len()
        invariant
            k <= acc@.len(),
            r@.len() == k,
            forall|y: Seq<char>|
                #[trigger] has_text(acc@, y) <==> has_string(values@, values@.len() as int, y),
            forall|a: int, b: int| 0 <= a < b < acc@.len() ==> lex_lt(#[trigger] acc@[a]@, #[trigger] acc@[b]@),
            forall|m: int| 0 <= m < k ==> (#[trigger] r@[m])@ == acc@[m]@,
        decreases acc@.len() - k,
    {
        r.push(string_of(&acc[k]));
        k = k + 1;
    }
    proof {
        let rv = string_views(r@);
        let vv = string_views(values@);
        assert forall|x: Seq<char>| rv.contains(x) <==> vv.contains(x) by {
            if rv.contains(x) {
                let m = choose|m: int| 0 <= m < rv.len() && rv[m] == x;
                assert(acc@[m]@ == x);
                assert(has_text(acc@, x));
                let k2 = choose|k2: int| 0 <= k2 < values@.len() && values@[k2]@ == x;
                assert(vv[k2] == x);
            }
            if vv.contains(x) {
                let m = choose|m: int| 0 <= m < vv.len() && vv[m] == x;
                assert(values@[m]@ == x);
                assert(has_string(values@, values@.len() as int, x));
                assert(has_text(acc@, x));
                let k2 = choose|k2: int| 0 <= k2 < acc@.len() && acc@[k2]@ == x;
                assert(r@[k2]@ == acc@[k2]@);
                assert(rv[k2] == x);
            }
        }
    }
    r
}

/// The users of a node's jobs, once each, in increasing order.
pub fn node_users(jobs: &Vec<JobRecord>) -> (r: Vec<String>)
    ensures
        sorted_distinct(node_job_users(jobs@), string_views(r@)),
{
    let mut users: Vec<String> = Vec::new();
    let mut i: usize = 0;
    while i < jobs.len()
        invariant
            i <= jobs@.len(),
            users@.len() == i,
            forall|k: int| 0 <= k < i ==> (#[trigger] users@[k])@ == jobs@[k].user@,
        decreases jobs@.len() - i,
    {
        users.push(clone_string(&jobs[i].user));
        i = i + 1;
    }
    assert(string_views(users@) =~= node_job_users(jobs@));
    distinct_sorted(&users)
}

/// The states of a node's jobs, once each, in increasing order.
pub fn node_states(jobs: &Vec<JobRecord>) -> (r: Vec<String>)
    ensures
        sorted_distinct(node_job_states(jobs@), string_views(r@)),
{
    let mut states: Vec<String> = Vec::new();
    let mut i: usize = 0;
    while i < jobs.len()
        invariant
            i <= jobs@.len(),
            states@.len() == i,
            forall|k: int| 0 <= k < i ==> (#[trigger] states@[k])@ == jobs@[k].state@,
        decreases jobs@.len() - i,
    {
        states.push(clone_string(&jobs[i].state));
        i = i + 1;
    }
    assert(string_views(states@) =~= node_job_states(jobs@));
    distinct_sorted(&states)
}

/// The filter value at `index`: index 0 is "all", index k the k-th
/// value; past the end it is "all" again.
pub open spec fn filter_choice(values: Seq<Seq<char>>, index: nat, all: Seq<char>) -> Seq<char> {
    if index == 0 || index > values.len() {
        all
    } else {
        values[index - 1]
    }
}

pub fn current_filter_value(values: &Vec<String>, index: usize, all: &str) -> (s: String)
    ensures
        s@ == filter_choice(string_views(values@), index as nat, all@),
{
    if index == 0 || index > values.len() {
        String::from_str(all)
    } else {
        clone_string(&values[index - 1])
    }
}

/// The next filter index when there are `count` distinct values: one past
/// the current, wrapping after the last value back to "all".
pub fn next_filter_index(index: usize, count: usize) -> (r: usize)
    requires
        index < usize::MAX,
    ensures
        r == (index as int + 1) % (if count == usize::MAX { usize::MAX as int } else { count + 1 }),
{
    let len: usize = if count == usize::MAX {
        usize::MAX
    } else {
        count + 1
    };
    (index + 1) % len
}

/// How many jobs of a list are running and pending, in all and of the
/// current user.
pub open spec fn trend_counts_of(jobs: Seq<JobRecord>) -> (nat, nat, nat, nat)
    decreases jobs.len(),
{
    if jobs.len() == 0 {
        (0, 0, 0, 0)
    } else {
        let r = trend_counts_of(jobs.drop_last());
        let j = jobs.last();
        (
            r.0 + if j.running { 1nat } else { 0nat },
            r.1 + if j.pending { 1nat } else { 0nat },
            r.2 + if j.is_mine && j.running { 1nat } else { 0nat },
            r.3 + if j.is_mine && j.pending { 1nat } else { 0nat },
        )
    }
}

proof fn lemma_trend_counts_bounded(jobs: Seq<JobRecord>)
    ensures
        trend_counts_of(jobs).0 <= jobs.len(),
        trend_counts_of(jobs).1 <= jobs.len(),
        trend_counts_of(jobs).2 <= jobs.len(),
        trend_counts_of(jobs).3 <= jobs.len(),
    decreases jobs.len(),
{
    if jobs.len() > 0 {
        lemma_trend_counts_bounded(jobs.drop_last());
    }
}

/// What the trend counts count: the running jobs, the pending jobs, and
/// the current user's running and pending jobs, each job once.
pub proof fn lemma_trend_counts_law(jobs: Seq<JobRecord>)
    ensures
        trend_counts_of(jobs).0 == jobs.filter(|j: JobRecord| j.running).len(),
        trend_counts_of(jobs).1 == jobs.filter(|j: JobRecord| j.pending).len(),
        trend_counts_of(jobs).2 == jobs.filter(|j: JobRecord| j.is_mine && j.running).len(),
        trend_counts_of(jobs).3 == jobs.filter(|j: JobRecord| j.is_mine && j.pending).len(),
    decreases jobs.len(),
{
    reveal(Seq::filter);
    if jobs.len() > 0 {
        lemma_trend_counts_law(jobs.drop_last());
    }
}

/// The running and pending counts of the cluster and of the current user.
pub fn trend_counts(jobs: &Vec<JobRecord>) -> (r: (u64, u64, u64, u64))
    ensures
        (r.0 as nat, r.1 as nat, r.2 as nat, r.3 as nat) == trend_counts_of(jobs@),
{
    let mut a: u64 = 0;
    let mut b: u64 = 0;
    let mut c: u64 = 0;
    let mut d: u64 = 0;
    let mut i: usize = 0;
    while i < jobs.len()
        invariant
            i <= jobs@.len(),
            (a as nat, b as nat, c as nat, d as nat) == trend_counts_of(jobs@.take(i as int)),
        decreases jobs@.len() - i,
    {
        proof {
            assert(jobs@.take(i + 1).drop_last() =~= jobs@.take(i as int));
            lemma_trend_counts_bounded(jobs@.take(i as int));
        }
        let j = &jobs[i];
        if j.running {
            a = a + 1;
        }
        if j.pending {
            b = b + 1;
        }
        if j.is_mine && j.running {
            c = c + 1;
        }
        if j.is_mine && j.pending {
            d = d + 1;
        }
        i = i + 1;
    }
    assert(jobs@.take(jobs@.len() as int) =~= jobs@);
    (a, b, c, d)
}

/// What the history page receives from a `sacct` run: the rows, the notes
/// of the run and of the parse, and whether any history was available.
pub open spec fn history_load_of(c: CaptureView, user: Seq<char>) -> (
    Seq<crate::model::types::HistoryView>,
    Seq<Seq<char>>,
    bool,
) {
    let available = usable(c);
    let parsed = if available {
        parse_history_of(c.stdout, user)
    } else {
        (Seq::empty(), Seq::empty())
    };
    (parsed.0, opt_note(crate::collector::command::short_error_of(c)) + parsed.1, available)
}

pub fn load_history(capture: &CommandCapture, user: &str) -> (r: (Vec<HistoryRecord>, Vec<String>, bool))
    requires
        usable(capture@) ==> history_fit(capture.stdout@),
    ensures
        (history_views(r.0@), string_views(r.1@), r.2) == history_load_of(capture@, user@),
{
    let mut notes: Vec<String> = Vec::new();
    match capture.short_error() {
        Some(n) => notes.push(n),
        None => {},
    }
    let available = capture.is_usable();
    let ghost first = string_views(notes@);
    if available {
        let (records, more) = parse_history(capture.stdout.as_str(), user);
        append_all(&mut notes, more);
        (records, notes, true)
    } else {
        let records: Vec<HistoryRecord> = Vec::new();
        assert(history_views(records@) =~= Seq::empty());
        assert(string_views(notes@) =~= first + Seq::<Seq<char>>::empty());
        (records, notes, false)
    }
}

fn append_all(a: &mut Vec<String>, b: Vec<String>)
    ensures
        string_views(final(a)@) == string_views(old(a)@) + string_views(b@),
{
    let ghost start = string_views(a@);
    let ghost bv = string_views(b@);
    let mut i: usize = 0;
    while i < b.len()
        invariant
            i <= b@.len(),
            bv == string_views(b@),
            string_views(a@) == start + bv.take(i as int),
        decreases b@.len() - i,
    {
        let ghost before = string_views(a@);
        a.push(clone_string(&b[i]));
        assert(bv.take(i + 1) =~= bv.take(i as int).push(bv[i as int]));
        assert(string_views(a@) =~= before.push(bv[i as int]));
        i = i + 1;
    }
    assert(bv.take(b@.len() as int) =~= bv);
}

/// What the node page receives: the node record, the node's jobs, and the
/// notes of both runs and both parses.
pub open spec fn node_load_of(node: CaptureView, jobs: CaptureView, user: Seq<char>) -> (
    Option<NodeDetailView>,
    Seq<JobView>,
    Seq<Seq<char>>,
) {
    let d = if usable(node) {
        parse_scontrol_node_of(node.stdout)
    } else {
        (None, Seq::empty())
    };
    let j = if usable(jobs) {
        parse_jobs_of(jobs.stdout, user)
    } else {
        (Seq::empty(), Seq::empty())
    };
    (
        d.0,
        j.0,
        opt_note(crate::collector::command::short_error_of(node)) + opt_note(
            crate::collector::command::short_error_of(jobs),
        ) + d.1 + j.1,
    )
}

pub open spec fn opt_node_view(o: Option<NodeDetail>) -> Option<NodeDetailView> {
    match o {
        Some(d) => Some(d@),
        None => None,
    }
}

pub fn load_node_detail(node: &CommandCapture, jobs: &CommandCapture, user: &str) -> (r: (
    Option<NodeDetail>,
    Vec<JobRecord>,
    Vec<String>,
))
    requires
        usable(jobs@) ==> jobs_fit(jobs.stdout@),
    ensures
        (opt_node_view(r.0), job_views(r.1@), string_views(r.2@)) == node_load_of(
            node@,
            jobs@,
            user@,
        ),
{
    let mut notes: Vec<String> = Vec::new();
    match node.short_error() {
        Some(n) => notes.push(n),
        None => {},
    }
    let ghost n1 = string_views(notes@);
    match jobs.short_error() {
        Some(n) => notes.push(n),
        None => {},
    }
    assert(string_views(notes@) =~= opt_note(crate::collector::command::short_error_of(node@))
        + opt_note(crate::collector::command::short_error_of(jobs@)));
    let (detail, detail_notes) = if node.is_usable() {
        parse_scontrol_node(node.stdout.as_str())
    } else {
        let r: (Option<NodeDetail>, Vec<String>) = (None, Vec::new());
        assert(string_views(r.1@) =~= Seq::<Seq<char>>::empty());
        r
    };
    append_all(&mut notes, detail_notes);
    let (records, job_notes) = if jobs.is_usable() {
        parse_jobs(jobs.stdout.as_str(), user)
    } else {
        let r: (Vec<JobRecord>, Vec<String>) = (Vec::new(), Vec::new());
        assert(job_views(r.0@) =~= Seq::<JobView>::empty());
        assert(string_views(r.1@) =~= Seq::<Seq<char>>::empty());
        r
    };
    append_all(&mut notes, job_notes);
    (detail, records, notes)
}

/// The outcome of cancelling one job: success when `scancel` succeeded,
/// with the message `cancel_message` gives.
pub fn cancel_outcome(job_id: String, capture: &CommandCapture) -> (o: CancelOutcome)
    ensures
        o.job_id@ == job_id@,
        o.success == (capture@.status == CommandStatus::Success),
        o.message@ == crate::app::cancel_message_of(capture@),
{
    CancelOutcome {
        job_id,
        success: capture.ok(),
        message: crate::app::cancel_message(capture),
    }
}

/// The preview of cancelling one job.
pub fn single_cancel_preview(job: &JobRecord, current_user: &str) -> (p: CancelPreview)
    ensures
        p.scope == CancelScope::Single,
        p.title@ == "Cancel job "@ + job.job_id@,
        p.candidates@.len() == 1,
        crate::app::candidate_view(p.candidates@[0]) == crate::app::candidate_of(
            job@,
            current_user@,
        ),
{
    let mut t = chars_of("Cancel job ");
    append_str(&mut t, job.job_id.as_str());
    let mut candidates: Vec<CancelCandidate> = Vec::new();
    candidates.push(crate::app::build_cancel_candidate(job, current_user));
    CancelPreview { scope: CancelScope::Single, title: string_of(&t), candidates }
}

/// The preview of cancelling the visible jobs; none when no job is
/// visible.
pub fn bulk_cancel_preview(jobs: &Vec<&JobRecord>, current_user: &str) -> (p: Option<CancelPreview>)
    ensures
        jobs@.len() == 0 <==> p is None,
        match p {
            Some(v) => {
                &&& v.scope == CancelScope::Visible
                &&& v.title@ == "Cancel "@ + dec(jobs@.len() as nat) + " visible jobs"@
                &&& v.candidates@.len() == jobs@.len()
                &&& forall|i: int|
                    0 <= i < jobs@.len() ==> crate::app::candidate_view(#[trigger] v.candidates@[i])
                        == crate::app::candidate_of(jobs@[i]@, current_user@)
            },
            None => true,
        },
{
    let candidates = crate::app::build_bulk_cancel_candidates(jobs, current_user);
    if candidates.len() == 0 {
        return None;
    }
    let mut t = chars_of("Cancel ");
    push_dec(&mut t, candidates.len() as u64);
    append_str(&mut t, " visible jobs");
    Some(CancelPreview { scope: CancelScope::Visible, title: string_of(&t), candidates })
}

/// The longest gap, in milliseconds, between the two clicks of a double
/// click.
pub const DOUBLE_CLICK_MS: u64 = 450;

/// Whether a click on `hit` at `now_ms` completes a double click: the
/// previous click landed on the same target less than 450 ms before.
pub fn is_double_click(previous: Option<(HitTarget, u64)>, hit: HitTarget, now_ms: u64) -> (b: bool)
    ensures
        b == match previous {
            Some((last, at)) => last == hit && at <= now_ms && now_ms - at < DOUBLE_CLICK_MS,
            None => false,
        },
{
    match previous {
        Some((last, at)) => last == hit && at <= now_ms && now_ms - at < DOUBLE_CLICK_MS,
        None => false,
    }
}

} // verus!
