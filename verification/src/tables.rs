//! The wide tables of the pages: their columns and the text of every
//! cell, before the terminal shows the columns that fit. Long texts are
//! split over several columns of equal width, the later ones marked with
//! an arrow.
use vstd::prelude::*;

use crate::app::{JobColumn, OverviewColumn, UserColumn};
use crate::detail::count_or_na;
use crate::layout::rows_view;
use crate::model::types::{
    add_usage, capacity_of, clone_string, pending_of, running_of, string_views, used_for_pressure_of, JobRecord,
    JobView, MetricMode, NodeRecord, PartitionOverview,
};
use crate::state::HitTarget;
use crate::text::{append_str, chars_of, dec, owned, push_dec, string_of};
use crate::listing::{partition_fits, user_totals_fit};
use crate::model::users::{ranking_of, top_summary, UserUsage};
use crate::ui::{
    capped_u32, cap_u32, digit_count, format_partition_resources, max_of, metric_bar_of, metric_value_text,
    partition_resources_of, pressure_bar_of, pressure_bar_text, sat_sub, user_cpus, user_gpus, user_nodes, user_resource_footprint_text,
    UserResourceScale, adaptive_segment_width, clamp_nat, footprint_of, job_cpus, job_gpus, job_nodes, longest, max_nat,
    max_segments, resource_footprint_text, segment_of, segment_text, segment_width_of, segments_needed,
    seq_max, JobResourceScale,
};

verus! {

/// A column: its header, its width, what a click on the header does,
/// and whether the table is sorted by it.
#[derive(Debug, Clone)]
pub struct Column {
    pub label: String,
    pub width: u16,
    pub hit: Option<HitTarget>,
    pub active: bool,
}

pub type ColumnView = (Seq<char>, u16, Option<HitTarget>, bool);

pub open spec fn column_views(v: Seq<Column>) -> Seq<ColumnView> {
    v.map_values(|c: Column| (c.label@, c.width, c.hit, c.active))
}

/// The columns of a table and the cells of each of its rows.
#[derive(Debug, Clone)]
pub struct TableModel {
    pub columns: Vec<Column>,
    pub rows: Vec<Vec<String>>,
}

/// `n` columns holding the pieces of one long text; all but the first are
/// marked as continuing to the right.
pub open spec fn segment_columns(n: nat, label: Seq<char>, width: u16, hit: Option<HitTarget>, active: bool) -> Seq<
    ColumnView,
> {
    Seq::new(n, |s: int| (if n > 1 && s > 0 { label + " →"@ } else { label }, width, hit, active))
}

/// The `n` pieces of `width` characters of a text.
pub open spec fn segment_cells(text: Seq<char>, n: nat, width: nat) -> Seq<Seq<char>> {
    Seq::new(n, |s: int| segment_of(text, s as nat, width))
}

fn push_column(columns: &mut Vec<Column>, label: &str, width: u16, hit: Option<HitTarget>, active: bool)
    ensures
        column_views(final(columns)@) == column_views(old(columns)@).push((label@, width, hit, active)),
{
    columns.push(Column { label: owned(label), width, hit, active });
    assert(column_views(columns@) =~= column_views(old(columns)@).push((label@, width, hit, active)));
}

fn push_segment_columns(
    columns: &mut Vec<Column>,
    n: usize,
    label: &str,
    width: u16,
    hit: Option<HitTarget>,
    active: bool,
)
    ensures
        column_views(final(columns)@) == column_views(old(columns)@) + segment_columns(
            n as nat,
            label@,
            width,
            hit,
            active,
        ),
{
    let ghost start = column_views(columns@);
    let mut more = chars_of(label);
    append_str(&mut more, " →");
    let more = string_of(&more);
    let mut s: usize = 0;
    while s < n
        invariant
            s <= n,
            more@ == label@ + " →"@,
            column_views(columns@) == start + segment_columns(n as nat, label@, width, hit, active).take(
                s as int,
            ),
        decreases n - s,
    {
        let text = if n > 1 && s > 0 {
            clone_string(&more)
        } else {
            owned(label)
        };
        let ghost before = column_views(columns@);
        columns.push(Column { label: text, width, hit, active });
        assert(segment_columns(n as nat, label@, width, hit, active).take(s + 1) =~= segment_columns(
            n as nat,
            label@,
            width,
            hit,
            active,
        ).take(s as int).push(segment_columns(n as nat, label@, width, hit, active)[s as int]));
        assert(column_views(columns@) =~= before.push((text@, width, hit, active)));
        s = s + 1;
    }
    assert(segment_columns(n as nat, label@, width, hit, active).take(n as int) =~= segment_columns(
        n as nat,
        label@,
        width,
        hit,
        active,
    ));
}

fn push_segments(cells: &mut Vec<String>, text: &str, n: usize, width: usize)
    ensures
        string_views(final(cells)@) == string_views(old(cells)@) + segment_cells(text@, n as nat, width as nat),
{
    let ghost start = string_views(cells@);
    let mut s: usize = 0;
    while s < n
        invariant
            s <= n,
            string_views(cells@) == start + segment_cells(text@, n as nat, width as nat).take(s as int),
        decreases n - s,
    {
        let piece = segment_text(text, s, width);
        let ghost before = string_views(cells@);
        cells.push(piece);
        assert(segment_cells(text@, n as nat, width as nat).take(s + 1) =~= segment_cells(
            text@,
            n as nat,
            width as nat,
        ).take(s as int).push(segment_of(text@, s as nat, width as nat)));
        assert(string_views(cells@) =~= before.push(piece@));
        s = s + 1;
    }
    assert(segment_cells(text@, n as nat, width as nat).take(n as int) =~= segment_cells(
        text@,
        n as nat,
        width as nat,
    ));
}

fn push_text(cells: &mut Vec<String>, text: String)
    ensures
        string_views(final(cells)@) == string_views(old(cells)@).push(text@),
{
    cells.push(text);
    assert(string_views(cells@) =~= string_views(old(cells)@).push(text@));
}

fn count_text(n: u64) -> (s: String)
    ensures
        s@ == dec(n as nat),
{
    let mut v: Vec<char> = Vec::new();
    push_dec(&mut v, n);
    assert(v@ =~= dec(n as nat));
    string_of(&v)
}

fn count_na_text(o: Option<u32>) -> (s: String)
    ensures
        s@ == count_or_na(o),
{
    match o {
        Some(n) => count_text(n as u64),
        None => owned("N/A"),
    }
}

/// A segment width fits a column width.
proof fn lemma_segment_width_small(area: nat, preferred: nat, minimum: nat)
    requires
        area < 65536,
        minimum < 65536,
        preferred >= minimum,
    ensures
        segment_width_of(area, preferred, minimum) < 65536,
{
}

// The job tables.

pub open spec fn job_column(label: Seq<char>, width: u16, c: JobColumn, sort: JobColumn) -> ColumnView {
    (label, width, Some(HitTarget::JobHeader(c)), c == sort)
}

/// The columns of a job table: id, the owner when `show_user`, partition,
/// state, runtime, limit, nodes and CPUs, the resource footprint over
/// `rs` columns, where it runs or why it waits, and the name over `ns`
/// columns.
pub open spec fn job_columns_of(
    show_user: bool,
    rs: nat,
    rsw: u16,
    where_width: u16,
    ns: nat,
    nsw: u16,
    sort: JobColumn,
) -> Seq<ColumnView> {
    seq![job_column("Job ID"@, 8, JobColumn::JobId, sort)] + (if show_user {
        seq![job_column("User"@, 10, JobColumn::User, sort)]
    } else {
        Seq::empty()
    }) + seq![
        job_column("Partition"@, 11, JobColumn::Partition, sort),
        job_column("State"@, 11, JobColumn::State, sort),
        job_column("Runtime"@, 9, JobColumn::Runtime, sort),
        job_column("Time limit"@, 10, JobColumn::TimeLimit, sort),
        job_column("Nodes"@, 4, JobColumn::Nodes, sort),
        job_column("CPUs"@, 6, JobColumn::Cpus, sort),
    ] + segment_columns(rs, "Resource footprint"@, rsw, None, false) + seq![
        job_column("Placement or reason"@, where_width, JobColumn::WhereWhy, sort),
    ] + segment_columns(ns, "Name"@, nsw, Some(HitTarget::JobHeader(JobColumn::Name)), sort == JobColumn::Name)
}

/// The cells of a job's row, matching `job_columns_of`.
pub open spec fn job_cells_of(j: JobView, show_user: bool, footprint: Seq<char>, rs: nat, rsw: nat, ns: nat, nsw: nat) -> Seq<
    Seq<char>,
> {
    seq![j.job_id] + (if show_user {
        seq![j.user]
    } else {
        Seq::empty()
    }) + seq![j.partition_raw, j.state, j.runtime_raw, j.time_limit_raw, dec(j.nodes as nat), count_or_na(j.cpus)]
        + segment_cells(footprint, rs, rsw) + seq![j.location_or_reason] + segment_cells(j.name, ns, nsw)
}

/// The footprint of each job against the largest of the jobs shown.
pub open spec fn job_footprints(jobs: Seq<&JobRecord>) -> Seq<Seq<char>> {
    Seq::new(
        jobs.len(),
        |i: int|
            footprint_of(
                Some(jobs[i].nodes),
                jobs[i].cpus,
                jobs[i].requested_gpus,
                max_nat(seq_max(job_nodes(jobs), 1), 1),
                max_nat(seq_max(job_cpus(jobs), 1), 1),
                max_nat(seq_max(job_gpus(jobs), 1), 1),
            ),
    )
}

pub open spec fn job_names(jobs: Seq<&JobRecord>) -> Seq<Seq<char>> {
    Seq::new(jobs.len(), |i: int| jobs[i]@.name)
}

pub open spec fn job_places(jobs: Seq<&JobRecord>) -> Seq<Seq<char>> {
    Seq::new(jobs.len(), |i: int| jobs[i]@.location_or_reason)
}

/// The width of the footprint columns: 32 cells, less on narrow screens.
pub open spec fn footprint_width(area_width: u16) -> nat {
    segment_width_of(area_width as nat, 32, 12)
}

/// The width of the name columns: 36 cells, less on narrow screens.
pub open spec fn name_width(area_width: u16) -> nat {
    segment_width_of(area_width as nat, 36, 12)
}

pub open spec fn footprint_segments(jobs: Seq<&JobRecord>, area_width: u16) -> nat {
    segments_needed(job_footprints(jobs), footprint_width(area_width))
}

pub open spec fn name_segments(jobs: Seq<&JobRecord>, area_width: u16) -> nat {
    segments_needed(job_names(jobs), name_width(area_width))
}

/// A job table `area_width` cells wide: the footprints and names split at
/// 32 and 36 cells (less on narrow screens), the placement column as wide
/// as its longest text between 24 and 72.
pub open spec fn job_table_of(jobs: Seq<&JobRecord>, show_user: bool, area_width: u16, sort: JobColumn) -> (
    Seq<ColumnView>,
    Seq<Seq<Seq<char>>>,
) {
    let rsw = footprint_width(area_width);
    let nsw = name_width(area_width);
    let fps = job_footprints(jobs);
    let rs = footprint_segments(jobs, area_width);
    let ns = name_segments(jobs, area_width);
    let ww = clamp_nat(longest(job_places(jobs), 24), 24, 72);
    (
        job_columns_of(show_user, rs, rsw as u16, ww as u16, ns, nsw as u16, sort),
        Seq::new(jobs.len(), |i: int| job_cells_of(jobs[i]@, show_user, fps[i], rs, rsw, ns, nsw)),
    )
}

/// What the job tables split over several columns, and how.
struct JobTexts {
    footprints: Vec<String>,
    rsw: usize,
    nsw: usize,
    rs: usize,
    ns: usize,
}

fn job_texts(jobs: &Vec<&JobRecord>, area_width: u16) -> (t: JobTexts)
    ensures
        string_views(t.footprints@) == job_footprints(jobs@),
        t.rsw as nat == footprint_width(area_width),
        t.nsw as nat == name_width(area_width),
        t.rs as nat == footprint_segments(jobs@, area_width),
        t.ns as nat == name_segments(jobs@, area_width),
        t.rsw < 65536,
        t.nsw < 65536,
{
    let scale = JobResourceScale::from_jobs(jobs);
    let rsw = adaptive_segment_width(area_width, 32, 12);
    let nsw = adaptive_segment_width(area_width, 36, 12);
    proof {
        lemma_segment_width_small(area_width as nat, 32, 12);
        lemma_segment_width_small(area_width as nat, 36, 12);
    }
    let ghost fps = job_footprints(jobs@);
    let mut footprints: Vec<String> = Vec::new();
    let mut i: usize = 0;
    while i < jobs.len()
        invariant
            i <= jobs@.len(),
            fps == job_footprints(jobs@),
            scale.max_nodes as nat == max_nat(seq_max(job_nodes(jobs@), 1), 1),
            scale.max_cpus as nat == max_nat(seq_max(job_cpus(jobs@), 1), 1),
            scale.max_gpus as nat == max_nat(seq_max(job_gpus(jobs@), 1), 1),
            footprints@.len() == i,
            forall|k: int| 0 <= k < i ==> (#[trigger] footprints@[k])@ == fps[k],
        decreases jobs@.len() - i,
    {
        footprints.push(resource_footprint_text(jobs[i], &scale));
        i = i + 1;
    }
    assert(string_views(footprints@) =~= fps);
    let names = job_field(jobs, 0);
    assert(string_views(names@) =~= job_names(jobs@));
    let rs = max_segments(&footprints, rsw);
    let ns = max_segments(&names, nsw);
    JobTexts { footprints, rsw, nsw, rs, ns }
}

/// The name (0), placement or reason (1), partition (2), or what a
/// pending job waits for and the state of any other (3), of a job.
pub open spec fn job_field_of(j: JobView, field: u8) -> Seq<char> {
    if field == 0 {
        j.name
    } else if field == 1 {
        j.location_or_reason
    } else if field == 2 {
        j.partition_raw
    } else if j.pending {
        j.location_or_reason
    } else {
        j.state
    }
}

fn job_field_text(j: &JobRecord, field: u8) -> (s: String)
    ensures
        s@ == job_field_of(j@, field),
{
    if field == 0 {
        clone_string(&j.name)
    } else if field == 1 {
        clone_string(&j.location_or_reason)
    } else if field == 2 {
        clone_string(&j.partition_raw)
    } else if j.pending {
        clone_string(&j.location_or_reason)
    } else {
        clone_string(&j.state)
    }
}

fn job_field(jobs: &Vec<&JobRecord>, field: u8) -> (v: Vec<String>)
    ensures
        string_views(v@) == Seq::new(jobs@.len(), |i: int| job_field_of(jobs@[i]@, field)),
{
    let mut v: Vec<String> = Vec::new();
    let mut i: usize = 0;
    while i < jobs.len()
        invariant
            i <= jobs@.len(),
            v@.len() == i,
            forall|k: int| 0 <= k < i ==> (#[trigger] v@[k])@ == job_field_of(jobs@[k]@, field),
        decreases jobs@.len() - i,
    {
        v.push(job_field_text(jobs[i], field));
        i = i + 1;
    }
    assert(string_views(v@) =~= Seq::new(jobs@.len(), |k: int| job_field_of(jobs@[k]@, field)));
    v
}

/// The longest of the texts (or `fallback` for none) kept between `lo`
/// and `hi`.
fn clamped_longest(values: &Vec<String>, fallback: usize, lo: usize, hi: usize) -> (w: u16)
    requires
        lo <= hi < 65536,
    ensures
        w as nat == clamp_nat(longest(string_views(values@), fallback as nat), lo as nat, hi as nat),
{
    let l = crate::ui::longest_exec(values, fallback);
    let w = if l < lo {
        lo
    } else if l > hi {
        hi
    } else {
        l
    };
    w as u16
}

fn job_row(job: &JobRecord, show_user: bool, footprint: &String, rs: usize, rsw: usize, ns: usize, nsw: usize) -> (r: Vec<
    String,
>)
    ensures
        string_views(r@) == job_cells_of(
            job@,
            show_user,
            footprint@,
            rs as nat,
            rsw as nat,
            ns as nat,
            nsw as nat,
        ),
{
    let mut cells: Vec<String> = Vec::new();
    push_text(&mut cells, clone_string(&job.job_id));
    if show_user {
        push_text(&mut cells, clone_string(&job.user));
    }
    push_text(&mut cells, clone_string(&job.partition_raw));
    push_text(&mut cells, clone_string(&job.state));
    push_text(&mut cells, clone_string(&job.runtime_raw));
    push_text(&mut cells, clone_string(&job.time_limit_raw));
    push_text(&mut cells, count_text(job.nodes as u64));
    push_text(&mut cells, count_na_text(job.cpus));
    push_segments(&mut cells, footprint.as_str(), rs, rsw);
    push_text(&mut cells, clone_string(&job.location_or_reason));
    push_segments(&mut cells, job.name.as_str(), ns, nsw);
    assert(string_views(cells@) =~= job_cells_of(
        job@,
        show_user,
        footprint@,
        rs as nat,
        rsw as nat,
        ns as nat,
        nsw as nat,
    ));
    cells
}

fn job_columns(show_user: bool, rs: usize, rsw: u16, ww: u16, ns: usize, nsw: u16, sort: JobColumn) -> (c: Vec<Column>)
    ensures
        column_views(c@) == job_columns_of(show_user, rs as nat, rsw, ww, ns as nat, nsw, sort),
{
    let mut columns: Vec<Column> = Vec::new();
    push_column(&mut columns, "Job ID", 8, Some(HitTarget::JobHeader(JobColumn::JobId)), sort == JobColumn::JobId);
    if show_user {
        push_column(&mut columns, "User", 10, Some(HitTarget::JobHeader(JobColumn::User)), sort == JobColumn::User);
    }
    push_column(
        &mut columns,
        "Partition",
        11,
        Some(HitTarget::JobHeader(JobColumn::Partition)),
        sort == JobColumn::Partition,
    );
    push_column(&mut columns, "State", 11, Some(HitTarget::JobHeader(JobColumn::State)), sort == JobColumn::State);
    push_column(
        &mut columns,
        "Runtime",
        9,
        Some(HitTarget::JobHeader(JobColumn::Runtime)),
        sort == JobColumn::Runtime,
    );
    push_column(
        &mut columns,
        "Time limit",
        10,
        Some(HitTarget::JobHeader(JobColumn::TimeLimit)),
        sort == JobColumn::TimeLimit,
    );
    push_column(&mut columns, "Nodes", 4, Some(HitTarget::JobHeader(JobColumn::Nodes)), sort == JobColumn::Nodes);
    push_column(&mut columns, "CPUs", 6, Some(HitTarget::JobHeader(JobColumn::Cpus)), sort == JobColumn::Cpus);
    push_segment_columns(&mut columns, rs, "Resource footprint", rsw, None, false);
    push_column(
        &mut columns,
        "Placement or reason",
        ww,
        Some(HitTarget::JobHeader(JobColumn::WhereWhy)),
        sort == JobColumn::WhereWhy,
    );
    push_segment_columns(
        &mut columns,
        ns,
        "Name",
        nsw,
        Some(HitTarget::JobHeader(JobColumn::Name)),
        sort == JobColumn::Name,
    );
    assert(column_views(columns@) =~= job_columns_of(show_user, rs as nat, rsw, ww, ns as nat, nsw, sort));
    columns
}

/// The columns and rows of a job table; `show_user` adds the owner's
/// column.
pub fn job_table(jobs: &Vec<&JobRecord>, show_user: bool, area_width: u16, sort: JobColumn) -> (t: TableModel)
    ensures
        (column_views(t.columns@), rows_view(t.rows@)) == job_table_of(jobs@, show_user, area_width, sort),
{
    let tx = job_texts(jobs, area_width);
    let places = job_field(jobs, 1);
    assert(string_views(places@) =~= job_places(jobs@));
    let ww = clamped_longest(&places, 24, 24, 72);
    let columns = job_columns(show_user, tx.rs, tx.rsw as u16, ww, tx.ns, tx.nsw as u16, sort);
    let ghost fps = job_footprints(jobs@);
    let mut rows: Vec<Vec<String>> = Vec::new();
    let mut i: usize = 0;
    while i < jobs.len()
        invariant
            i <= jobs@.len(),
            string_views(tx.footprints@) == fps,
            fps.len() == jobs@.len(),
            tx.footprints@.len() == jobs@.len(),
            rows@.len() == i,
            forall|k: int|
                0 <= k < i ==> string_views((#[trigger] rows@[k])@) == job_cells_of(
                    jobs@[k]@,
                    show_user,
                    fps[k],
                    tx.rs as nat,
                    tx.rsw as nat,
                    tx.ns as nat,
                    tx.nsw as nat,
                ),
        decreases jobs@.len() - i,
    {
        assert(string_views(tx.footprints@)[i as int] == tx.footprints@[i as int]@);
        let row = job_row(jobs[i], show_user, &tx.footprints[i], tx.rs, tx.rsw, tx.ns, tx.nsw);
        rows.push(row);
        i = i + 1;
    }
    let t = TableModel { columns, rows };
    proof {
        let spec = job_table_of(jobs@, show_user, area_width, sort);
        assert(rows_view(t.rows@) =~= spec.1);
    }
    t
}

// The job tables of the partition, node and user pages.

/// Which page a job table is drawn on.
#[derive(Debug, Clone, Copy, PartialEq, Eq, Structural)]
pub enum JobLayout {
    /// The jobs of a partition: owner, state, runtime and placement.
    Partition,
    /// The jobs on a node: owner, state, runtime, partition, where it runs
    /// and why it waits.
    Node,
    /// The jobs of the selected user, without sorting.
    Compact,
}

pub open spec fn plain_column(label: Seq<char>, width: u16) -> ColumnView {
    (label, width, None, false)
}

/// The fixed columns of a laid-out job table; `w1` to `w3` are the widths
/// that depend on the jobs shown.
pub open spec fn layout_head_columns(layout: JobLayout, w1: u16, w2: u16, w3: u16, sort: JobColumn) -> Seq<
    ColumnView,
> {
    match layout {
        JobLayout::Partition => seq![
            job_column("Job ID"@, 8, JobColumn::JobId, sort),
            job_column("User"@, 10, JobColumn::User, sort),
            job_column("State"@, 10, JobColumn::State, sort),
            job_column("Runtime"@, 9, JobColumn::Runtime, sort),
            job_column("Where / Why"@, w1, JobColumn::WhereWhy, sort),
        ],
        JobLayout::Node => seq![
            job_column("Job ID"@, 8, JobColumn::JobId, sort),
            job_column("User"@, 10, JobColumn::User, sort),
            job_column("State"@, 11, JobColumn::State, sort),
            job_column("Runtime"@, 10, JobColumn::Runtime, sort),
            job_column("Partition"@, w1, JobColumn::Partition, sort),
            plain_column("Where"@, w2),
            plain_column("Why"@, w3),
        ],
        JobLayout::Compact => seq![
            plain_column("Job ID"@, 8),
            plain_column("Partition"@, 12),
            plain_column("State"@, 11),
            plain_column("Runtime"@, 9),
        ],
    }
}

/// The columns of a laid-out job table: the fixed ones, then the
/// footprint and the name, each over as many columns as it needs.
pub open spec fn layout_columns_of(
    layout: JobLayout,
    w1: u16,
    w2: u16,
    w3: u16,
    rs: nat,
    rsw: u16,
    ns: nat,
    nsw: u16,
    sort: JobColumn,
) -> Seq<ColumnView> {
    layout_head_columns(layout, w1, w2, w3, sort) + segment_columns(rs, "Resource footprint"@, rsw, None, false)
        + if layout == JobLayout::Compact {
        segment_columns(ns, "Name"@, nsw, None, false)
    } else {
        segment_columns(ns, "Name"@, nsw, Some(HitTarget::JobHeader(JobColumn::Name)), sort == JobColumn::Name)
    }
}

/// The fixed cells of a job's row in a laid-out table.
pub open spec fn layout_head_cells(j: JobView, layout: JobLayout) -> Seq<Seq<char>> {
    match layout {
        JobLayout::Partition => seq![j.job_id, j.user, j.state, j.runtime_raw, j.location_or_reason],
        JobLayout::Node => seq![
            j.job_id,
            j.user,
            j.state,
            j.runtime_raw,
            j.partition_raw,
            j.location_or_reason,
            job_field_of(j, 3),
        ],
        JobLayout::Compact => seq![j.job_id, j.partition_raw, j.state, j.runtime_raw],
    }
}

pub open spec fn layout_cells_of(
    j: JobView,
    layout: JobLayout,
    footprint: Seq<char>,
    rs: nat,
    rsw: nat,
    ns: nat,
    nsw: nat,
) -> Seq<Seq<char>> {
    layout_head_cells(j, layout) + segment_cells(footprint, rs, rsw) + segment_cells(j.name, ns, nsw)
}

/// A job field's longest text between `lo` and `hi`, or `fallback` when
/// no job is shown.
pub open spec fn field_width(jobs: Seq<&JobRecord>, field: u8, fallback: nat, lo: nat, hi: nat) -> u16 {
    clamp_nat(longest(Seq::new(jobs.len(), |i: int| job_field_of(jobs[i]@, field)), fallback), lo, hi) as u16
}

/// The widths that depend on the jobs shown: the placement column of a
/// partition's jobs (24 to 72), and the partition (11 to 32), placement
/// (18 to 72) and reason (14 to 48) columns of a node's jobs.
pub open spec fn layout_widths(jobs: Seq<&JobRecord>, layout: JobLayout) -> (u16, u16, u16) {
    match layout {
        JobLayout::Partition => (field_width(jobs, 1, 24, 24, 72), 0, 0),
        JobLayout::Node => (
            field_width(jobs, 2, 11, 11, 32),
            field_width(jobs, 1, 18, 18, 72),
            field_width(jobs, 3, 14, 14, 48),
        ),
        JobLayout::Compact => (0, 0, 0),
    }
}

pub open spec fn layout_table_of(jobs: Seq<&JobRecord>, layout: JobLayout, area_width: u16, sort: JobColumn) -> (
    Seq<ColumnView>,
    Seq<Seq<Seq<char>>>,
) {
    let rsw = footprint_width(area_width);
    let nsw = name_width(area_width);
    let fps = job_footprints(jobs);
    let rs = footprint_segments(jobs, area_width);
    let ns = name_segments(jobs, area_width);
    let w = layout_widths(jobs, layout);
    (
        layout_columns_of(layout, w.0, w.1, w.2, rs, rsw as u16, ns, nsw as u16, sort),
        Seq::new(jobs.len(), |i: int| layout_cells_of(jobs[i]@, layout, fps[i], rs, rsw, ns, nsw)),
    )
}

fn field_width_exec(jobs: &Vec<&JobRecord>, field: u8, fallback: usize, lo: usize, hi: usize) -> (w: u16)
    requires
        lo <= hi < 65536,
    ensures
        w == field_width(jobs@, field, fallback as nat, lo as nat, hi as nat),
{
    let values = job_field(jobs, field);
    clamped_longest(&values, fallback, lo, hi)
}

fn layout_columns(
    layout: JobLayout,
    w1: u16,
    w2: u16,
    w3: u16,
    rs: usize,
    rsw: u16,
    ns: usize,
    nsw: u16,
    sort: JobColumn,
) -> (c: Vec<Column>)
    ensures
        column_views(c@) == layout_columns_of(layout, w1, w2, w3, rs as nat, rsw, ns as nat, nsw, sort),
{
    let mut columns: Vec<Column> = Vec::new();
    match layout {
        JobLayout::Partition => {
            push_column(&mut columns, "Job ID", 8, Some(HitTarget::JobHeader(JobColumn::JobId)), sort == JobColumn::JobId);
            push_column(&mut columns, "User", 10, Some(HitTarget::JobHeader(JobColumn::User)), sort == JobColumn::User);
            push_column(&mut columns, "State", 10, Some(HitTarget::JobHeader(JobColumn::State)), sort == JobColumn::State);
            push_column(
                &mut columns,
                "Runtime",
                9,
                Some(HitTarget::JobHeader(JobColumn::Runtime)),
                sort == JobColumn::Runtime,
            );
            push_column(
                &mut columns,
                "Where / Why",
                w1,
                Some(HitTarget::JobHeader(JobColumn::WhereWhy)),
                sort == JobColumn::WhereWhy,
            );
        },
        JobLayout::Node => {
            push_column(&mut columns, "Job ID", 8, Some(HitTarget::JobHeader(JobColumn::JobId)), sort == JobColumn::JobId);
            push_column(&mut columns, "User", 10, Some(HitTarget::JobHeader(JobColumn::User)), sort == JobColumn::User);
            push_column(&mut columns, "State", 11, Some(HitTarget::JobHeader(JobColumn::State)), sort == JobColumn::State);
            push_column(
                &mut columns,
                "Runtime",
                10,
                Some(HitTarget::JobHeader(JobColumn::Runtime)),
                sort == JobColumn::Runtime,
            );
            push_column(
                &mut columns,
                "Partition",
                w1,
                Some(HitTarget::JobHeader(JobColumn::Partition)),
                sort == JobColumn::Partition,
            );
            push_column(&mut columns, "Where", w2, None, false);
            push_column(&mut columns, "Why", w3, None, false);
        },
        JobLayout::Compact => {
            push_column(&mut columns, "Job ID", 8, None, false);
            push_column(&mut columns, "Partition", 12, None, false);
            push_column(&mut columns, "State", 11, None, false);
            push_column(&mut columns, "Runtime", 9, None, false);
        },
    }
    assert(column_views(columns@) =~= layout_head_columns(layout, w1, w2, w3, sort));
    push_segment_columns(&mut columns, rs, "Resource footprint", rsw, None, false);
    if layout == JobLayout::Compact {
        push_segment_columns(&mut columns, ns, "Name", nsw, None, false);
    } else {
        push_segment_columns(
            &mut columns,
            ns,
            "Name",
            nsw,
            Some(HitTarget::JobHeader(JobColumn::Name)),
            sort == JobColumn::Name,
        );
    }
    columns
}

fn layout_row(job: &JobRecord, layout: JobLayout, footprint: &String, rs: usize, rsw: usize, ns: usize, nsw: usize) -> (r: Vec<
    String,
>)
    ensures
        string_views(r@) == layout_cells_of(
            job@,
            layout,
            footprint@,
            rs as nat,
            rsw as nat,
            ns as nat,
            nsw as nat,
        ),
{
    let mut cells: Vec<String> = Vec::new();
    push_text(&mut cells, clone_string(&job.job_id));
    match layout {
        JobLayout::Partition => {
            push_text(&mut cells, clone_string(&job.user));
            push_text(&mut cells, clone_string(&job.state));
            push_text(&mut cells, clone_string(&job.runtime_raw));
            push_text(&mut cells, clone_string(&job.location_or_reason));
        },
        JobLayout::Node => {
            push_text(&mut cells, clone_string(&job.user));
            push_text(&mut cells, clone_string(&job.state));
            push_text(&mut cells, clone_string(&job.runtime_raw));
            push_text(&mut cells, clone_string(&job.partition_raw));
            push_text(&mut cells, clone_string(&job.location_or_reason));
            push_text(&mut cells, job_field_text(job, 3));
        },
        JobLayout::Compact => {
            push_text(&mut cells, clone_string(&job.partition_raw));
            push_text(&mut cells, clone_string(&job.state));
            push_text(&mut cells, clone_string(&job.runtime_raw));
        },
    }
    assert(string_views(cells@) =~= layout_head_cells(job@, layout));
    push_segments(&mut cells, footprint.as_str(), rs, rsw);
    push_segments(&mut cells, job.name.as_str(), ns, nsw);
    assert(string_views(cells@) =~= layout_cells_of(
        job@,
        layout,
        footprint@,
        rs as nat,
        rsw as nat,
        ns as nat,
        nsw as nat,
    ));
    cells
}

/// The columns and rows of the job table of a partition, a node or the
/// selected user.
pub fn layout_job_table(jobs: &Vec<&JobRecord>, layout: JobLayout, area_width: u16, sort: JobColumn) -> (t: TableModel)
    ensures
        (column_views(t.columns@), rows_view(t.rows@)) == layout_table_of(jobs@, layout, area_width, sort),
{
    let tx = job_texts(jobs, area_width);
    let (w1, w2, w3) = match layout {
        JobLayout::Partition => (field_width_exec(jobs, 1, 24, 24, 72), 0u16, 0u16),
        JobLayout::Node => (
            field_width_exec(jobs, 2, 11, 11, 32),
            field_width_exec(jobs, 1, 18, 18, 72),
            field_width_exec(jobs, 3, 14, 14, 48),
        ),
        JobLayout::Compact => (0u16, 0u16, 0u16),
    };
    let columns = layout_columns(layout, w1, w2, w3, tx.rs, tx.rsw as u16, tx.ns, tx.nsw as u16, sort);
    let ghost fps = job_footprints(jobs@);
    let mut rows: Vec<Vec<String>> = Vec::new();
    let mut i: usize = 0;
    while i < jobs.len()
        invariant
            i <= jobs@.len(),
            string_views(tx.footprints@) == fps,
            fps.len() == jobs@.len(),
            tx.footprints@.len() == jobs@.len(),
            rows@.len() == i,
            forall|k: int|
                0 <= k < i ==> string_views((#[trigger] rows@[k])@) == layout_cells_of(
                    jobs@[k]@,
                    layout,
                    fps[k],
                    tx.rs as nat,
                    tx.rsw as nat,
                    tx.ns as nat,
                    tx.nsw as nat,
                ),
        decreases jobs@.len() - i,
    {
        assert(string_views(tx.footprints@)[i as int] == tx.footprints@[i as int]@);
        let row = layout_row(jobs[i], layout, &tx.footprints[i], tx.rs, tx.rsw, tx.ns, tx.nsw);
        rows.push(row);
        i = i + 1;
    }
    let t = TableModel { columns, rows };
    proof {
        let spec = layout_table_of(jobs@, layout, area_width, sort);
        assert(rows_view(t.rows@) =~= spec.1);
    }
    t
}

// The users table.

/// The users at the given positions, in that order.
pub open spec fn selected_users(users: Seq<UserUsage>, shown: Seq<usize>) -> Seq<UserUsage> {
    Seq::new(shown.len(), |i: int| users[shown[i] as int])
}

/// The footprint of each user's totals against the largest of the users
/// shown.
pub open spec fn user_footprints(us: Seq<UserUsage>) -> Seq<Seq<char>> {
    Seq::new(
        us.len(),
        |i: int|
            {
                let u = us[i].jobs@;
                footprint_of(
                    Some((u.running_nodes + u.pending_nodes) as u32),
                    Some(capped_u32(u.running_cpus + u.pending_cpus) as u32),
                    Some(capped_u32(u.running_gpus + u.pending_gpus) as u32),
                    max_nat(seq_max(user_nodes(us), 1), 1),
                    max_nat(seq_max(user_cpus(us), 1), 1),
                    max_nat(seq_max(user_gpus(us), 1), 1),
                )
            },
    )
}

/// Each user's three busiest partitions.
pub open spec fn user_partition_texts(us: Seq<UserUsage>) -> Seq<Seq<char>> {
    Seq::new(us.len(), |i: int| top_summary(ranking_of(us[i]@.partitions), 3))
}

pub open spec fn user_column(label: Seq<char>, width: u16, c: UserColumn, sort: UserColumn) -> ColumnView {
    (label, width, Some(HitTarget::UserHeader(c)), c == sort)
}

/// The columns of the users table: name, running, pending and all jobs,
/// then the footprint and the busiest partitions over as many columns as
/// they need.
pub open spec fn user_columns_of(fs: nat, fsw: u16, ps: nat, psw: u16, sort: UserColumn) -> Seq<ColumnView> {
    seq![
        user_column("User"@, 12, UserColumn::User, sort),
        user_column("Running jobs"@, 13, UserColumn::RunningJobs, sort),
        user_column("Pending jobs"@, 13, UserColumn::PendingJobs, sort),
        user_column("Total jobs"@, 11, UserColumn::TotalJobs, sort),
    ] + segment_columns(
        fs,
        "Resource footprint"@,
        fsw,
        Some(HitTarget::UserHeader(UserColumn::ResourceFootprint)),
        sort == UserColumn::ResourceFootprint,
    ) + segment_columns(
        ps,
        "Top partitions"@,
        psw,
        Some(HitTarget::UserHeader(UserColumn::Partitions)),
        sort == UserColumn::Partitions,
    )
}

pub open spec fn user_cells_of(
    u: UserUsage,
    footprint: Seq<char>,
    fs: nat,
    fsw: nat,
    partitions: Seq<char>,
    ps: nat,
    psw: nat,
) -> Seq<Seq<char>> {
    seq![
        u.user@,
        dec(u.jobs@.running_jobs),
        dec(u.jobs@.pending_jobs),
        dec(u.jobs@.running_jobs + u.jobs@.pending_jobs),
    ] + segment_cells(footprint, fs, fsw) + segment_cells(partitions, ps, psw)
}

/// The users table over the users at `shown`: footprints split at 32
/// cells and partitions at 40 (less on narrow screens).
pub open spec fn user_table_of(users: Seq<UserUsage>, shown: Seq<usize>, area_width: u16, sort: UserColumn) -> (
    Seq<ColumnView>,
    Seq<Seq<Seq<char>>>,
) {
    let us = selected_users(users, shown);
    let fsw = segment_width_of(area_width as nat, 32, 12);
    let psw = segment_width_of(area_width as nat, 40, 12);
    let fps = user_footprints(us);
    let pts = user_partition_texts(us);
    let fs = segments_needed(fps, fsw);
    let ps = segments_needed(pts, psw);
    (
        user_columns_of(fs, fsw as u16, ps, psw as u16, sort),
        Seq::new(us.len(), |i: int| user_cells_of(us[i], fps[i], fs, fsw, pts[i], ps, psw)),
    )
}

fn selected_scale(users: &Vec<UserUsage>, shown: &Vec<usize>) -> (s: UserResourceScale)
    requires
        forall|i: int| 0 <= i < shown@.len() ==> (#[trigger] shown@[i]) < users@.len(),
        forall|k: int| 0 <= k < users@.len() ==> user_totals_fit((#[trigger] users@[k])@),
    ensures
        s.max_nodes as nat == max_nat(seq_max(user_nodes(selected_users(users@, shown@)), 1), 1),
        s.max_cpus as nat == max_nat(seq_max(user_cpus(selected_users(users@, shown@)), 1), 1),
        s.max_gpus as nat == max_nat(seq_max(user_gpus(selected_users(users@, shown@)), 1), 1),
{
    let ghost us = selected_users(users@, shown@);
    let mut nodes: Vec<u32> = Vec::new();
    let mut cpus: Vec<u32> = Vec::new();
    let mut gpus: Vec<u32> = Vec::new();
    let mut i: usize = 0;
    while i < shown.len()
        invariant
            i <= shown@.len(),
            us == selected_users(users@, shown@),
            forall|i: int| 0 <= i < shown@.len() ==> (#[trigger] shown@[i]) < users@.len(),
            forall|k: int| 0 <= k < users@.len() ==> user_totals_fit((#[trigger] users@[k])@),
            nodes@.len() == i && cpus@.len() == i && gpus@.len() == i,
            forall|k: int| 0 <= k < i ==> (#[trigger] nodes@[k]) as nat == us[k].jobs@.running_nodes + us[k].jobs@.pending_nodes,
            forall|k: int| 0 <= k < i ==> (#[trigger] cpus@[k]) as nat == capped_u32(us[k].jobs@.running_cpus + us[k].jobs@.pending_cpus),
            forall|k: int| 0 <= k < i ==> (#[trigger] gpus@[k]) as nat == capped_u32(us[k].jobs@.running_gpus + us[k].jobs@.pending_gpus),
        decreases shown@.len() - i,
    {
        let u = &users[shown[i]];
        assert(user_totals_fit(users@[shown@[i as int] as int]@));
        nodes.push(u.total_nodes());
        cpus.push(cap_u32(u.total_cpus()));
        gpus.push(cap_u32(u.total_gpus()));
        i = i + 1;
    }
    assert(nodes@.map_values(|v: u32| v as nat) =~= user_nodes(us));
    assert(cpus@.map_values(|v: u32| v as nat) =~= user_cpus(us));
    assert(gpus@.map_values(|v: u32| v as nat) =~= user_gpus(us));
    UserResourceScale { max_nodes: max_of(&nodes), max_cpus: max_of(&cpus), max_gpus: max_of(&gpus) }
}

fn user_columns(fs: usize, fsw: u16, ps: usize, psw: u16, sort: UserColumn) -> (c: Vec<Column>)
    ensures
        column_views(c@) == user_columns_of(fs as nat, fsw, ps as nat, psw, sort),
{
    let mut columns: Vec<Column> = Vec::new();
    push_column(&mut columns, "User", 12, Some(HitTarget::UserHeader(UserColumn::User)), sort == UserColumn::User);
    push_column(
        &mut columns,
        "Running jobs",
        13,
        Some(HitTarget::UserHeader(UserColumn::RunningJobs)),
        sort == UserColumn::RunningJobs,
    );
    push_column(
        &mut columns,
        "Pending jobs",
        13,
        Some(HitTarget::UserHeader(UserColumn::PendingJobs)),
        sort == UserColumn::PendingJobs,
    );
    push_column(
        &mut columns,
        "Total jobs",
        11,
        Some(HitTarget::UserHeader(UserColumn::TotalJobs)),
        sort == UserColumn::TotalJobs,
    );
    push_segment_columns(
        &mut columns,
        fs,
        "Resource footprint",
        fsw,
        Some(HitTarget::UserHeader(UserColumn::ResourceFootprint)),
        sort == UserColumn::ResourceFootprint,
    );
    push_segment_columns(
        &mut columns,
        ps,
        "Top partitions",
        psw,
        Some(HitTarget::UserHeader(UserColumn::Partitions)),
        sort == UserColumn::Partitions,
    );
    assert(column_views(columns@) =~= user_columns_of(fs as nat, fsw, ps as nat, psw, sort));
    columns
}

fn user_row(u: &UserUsage, footprint: &String, fs: usize, fsw: usize, partitions: &String, ps: usize, psw: usize) -> (r: Vec<
    String,
>)
    ensures
        string_views(r@) == user_cells_of(
            *u,
            footprint@,
            fs as nat,
            fsw as nat,
            partitions@,
            ps as nat,
            psw as nat,
        ),
{
    let mut cells: Vec<String> = Vec::new();
    push_text(&mut cells, clone_string(&u.user));
    push_text(&mut cells, count_text(u.jobs.running_jobs as u64));
    push_text(&mut cells, count_text(u.jobs.pending_jobs as u64));
    push_text(&mut cells, count_text(u.jobs.running_jobs as u64 + u.jobs.pending_jobs as u64));
    push_segments(&mut cells, footprint.as_str(), fs, fsw);
    push_segments(&mut cells, partitions.as_str(), ps, psw);
    assert(string_views(cells@) =~= user_cells_of(
        *u,
        footprint@,
        fs as nat,
        fsw as nat,
        partitions@,
        ps as nat,
        psw as nat,
    ));
    cells
}

/// The columns and rows of the users table over the users at `shown`.
pub fn user_table(users: &Vec<UserUsage>, shown: &Vec<usize>, area_width: u16, sort: UserColumn) -> (t: TableModel)
    requires
        forall|i: int| 0 <= i < shown@.len() ==> (#[trigger] shown@[i]) < users@.len(),
        forall|k: int| 0 <= k < users@.len() ==> (#[trigger] users@[k]).wf() && user_totals_fit(users@[k]@),
    ensures
        (column_views(t.columns@), rows_view(t.rows@)) == user_table_of(users@, shown@, area_width, sort),
{
    let ghost us = selected_users(users@, shown@);
    let scale = selected_scale(users, shown);
    let fsw = adaptive_segment_width(area_width, 32, 12);
    let psw = adaptive_segment_width(area_width, 40, 12);
    proof {
        lemma_segment_width_small(area_width as nat, 32, 12);
        lemma_segment_width_small(area_width as nat, 40, 12);
    }
    let ghost fps = user_footprints(us);
    let ghost pts = user_partition_texts(us);
    let mut footprints: Vec<String> = Vec::new();
    let mut partitions: Vec<String> = Vec::new();
    let mut i: usize = 0;
    while i < shown.len()
        invariant
            i <= shown@.len(),
            us == selected_users(users@, shown@),
            fps == user_footprints(us),
            pts == user_partition_texts(us),
            forall|i: int| 0 <= i < shown@.len() ==> (#[trigger] shown@[i]) < users@.len(),
            forall|k: int| 0 <= k < users@.len() ==> (#[trigger] users@[k]).wf() && user_totals_fit(users@[k]@),
            scale.max_nodes as nat == max_nat(seq_max(user_nodes(us), 1), 1),
            scale.max_cpus as nat == max_nat(seq_max(user_cpus(us), 1), 1),
            scale.max_gpus as nat == max_nat(seq_max(user_gpus(us), 1), 1),
            footprints@.len() == i && partitions@.len() == i,
            forall|k: int| 0 <= k < i ==> (#[trigger] footprints@[k])@ == fps[k],
            forall|k: int| 0 <= k < i ==> (#[trigger] partitions@[k])@ == pts[k],
        decreases shown@.len() - i,
    {
        let u = &users[shown[i]];
        assert(users@[shown@[i as int] as int].wf() && user_totals_fit(users@[shown@[i as int] as int]@));
        footprints.push(user_resource_footprint_text(u, &scale));
        partitions.push(u.top_partitions_summary(3));
        i = i + 1;
    }
    assert(string_views(footprints@) =~= fps);
    assert(string_views(partitions@) =~= pts);
    let fs = max_segments(&footprints, fsw);
    let ps = max_segments(&partitions, psw);
    let columns = user_columns(fs, fsw as u16, ps, psw as u16, sort);
    let mut rows: Vec<Vec<String>> = Vec::new();
    let mut i: usize = 0;
    while i < shown.len()
        invariant
            i <= shown@.len(),
            us == selected_users(users@, shown@),
            forall|i: int| 0 <= i < shown@.len() ==> (#[trigger] shown@[i]) < users@.len(),
            footprints@.len() == shown@.len() && partitions@.len() == shown@.len(),
            forall|k: int| 0 <= k < shown@.len() ==> (#[trigger] footprints@[k])@ == fps[k],
            forall|k: int| 0 <= k < shown@.len() ==> (#[trigger] partitions@[k])@ == pts[k],
            rows@.len() == i,
            forall|k: int|
                0 <= k < i ==> string_views((#[trigger] rows@[k])@) == user_cells_of(
                    us[k],
                    fps[k],
                    fs as nat,
                    fsw as nat,
                    pts[k],
                    ps as nat,
                    psw as nat,
                ),
        decreases shown@.len() - i,
    {
        let row = user_row(&users[shown[i]], &footprints[i], fs, fsw, &partitions[i], ps, psw);
        rows.push(row);
        i = i + 1;
    }
    let t = TableModel { columns, rows };
    proof {
        let spec = user_table_of(users@, shown@, area_width, sort);
        assert(rows_view(t.rows@) =~= spec.1);
    }
    t
}

// The partition overview table.

/// The partitions at the given positions, in that order.
pub open spec fn selected_partitions(parts: Seq<PartitionOverview>, shown: Seq<usize>) -> Seq<PartitionOverview> {
    Seq::new(shown.len(), |i: int| parts[shown[i] as int])
}

/// Each partition's running (or pending) total of the metric.
pub open spec fn partition_totals(ps: Seq<PartitionOverview>, metric: MetricMode, running: bool) -> Seq<nat> {
    Seq::new(
        ps.len(),
        |i: int|
            {
                let t = add_usage(ps[i].mine@, ps[i].others@);
                if running {
                    running_of(t, metric)
                } else {
                    pending_of(t, metric)
                }
            },
    )
}

/// The capacity as the pressure bar takes it.
pub open spec fn capacity_u64(c: Option<nat>) -> Option<u64> {
    match c {
        Some(v) => Some(v as u64),
        None => None,
    }
}

/// "Running: r  Pending: p" of a partition's jobs.
pub open spec fn total_jobs_text(p: PartitionOverview) -> Seq<char> {
    let t = add_usage(p.mine@, p.others@);
    "Running: "@ + dec(t.running_jobs) + "  Pending: "@ + dec(t.pending_jobs)
}

/// The sizes the overview table is drawn with.
pub struct OverviewSizes {
    pub name_width: nat,
    pub name_segments: nat,
    pub state_width: nat,
    pub pressure_width: nat,
    pub pressure_bar: nat,
    pub metric_width: nat,
    pub running_scale: nat,
    pub pending_scale: nat,
    pub running_bar: nat,
    pub pending_bar: nat,
    pub jobs_width: nat,
    pub jobs_segments: nat,
    pub resources_width: nat,
    pub resources_segments: nat,
}

/// Partition names split at 18 cells, job totals and resources at 24,
/// the state column as wide as its longest text between 8 and 18, the
/// pressure column 23 cells and each metric column 18 (all less on
/// narrow screens); the bars fill what the numbers leave, at least 3
/// cells, against the largest running and pending totals shown.
pub open spec fn overview_sizes_of(ps: Seq<PartitionOverview>, metric: MetricMode, area_width: u16) -> OverviewSizes {
    let a = area_width as nat;
    let name_width = segment_width_of(a, 18, 10);
    let jobs_width = segment_width_of(a, 24, 12);
    let pressure_width = segment_width_of(a, 23, 12);
    let metric_width = segment_width_of(a, 18, 12);
    let running_scale = seq_max(partition_totals(ps, metric, true), 1);
    let pending_scale = seq_max(partition_totals(ps, metric, false), 1);
    OverviewSizes {
        name_width,
        name_segments: segments_needed(Seq::new(ps.len(), |i: int| ps[i].name@), name_width),
        state_width: segment_width_of(a, clamp_nat(longest(Seq::new(ps.len(), |i: int| ps[i].state@), 8), 8, 18), 8),
        pressure_width,
        pressure_bar: max_nat(sat_sub(pressure_width, 7), 3),
        metric_width,
        running_scale,
        pending_scale,
        running_bar: max_nat(sat_sub(metric_width, digit_count(running_scale) + 4), 3),
        pending_bar: max_nat(sat_sub(metric_width, digit_count(pending_scale) + 4), 3),
        jobs_width,
        jobs_segments: segments_needed(Seq::new(ps.len(), |i: int| total_jobs_text(ps[i])), jobs_width),
        resources_width: jobs_width,
        resources_segments: segments_needed(
            Seq::new(
                ps.len(),
                |i: int| partition_resources_of(ps[i]@, metric, used_for_pressure_of(ps[i]@, metric)),
            ),
            jobs_width,
        ),
    }
}

pub open spec fn overview_column(label: Seq<char>, width: u16, c: OverviewColumn, sort: OverviewColumn) -> ColumnView {
    (label, width, Some(HitTarget::OverviewHeader(c)), c == sort)
}

/// The columns of the overview: the name, state, nodes, pressure, the
/// current user's and the others' running and pending bars, job totals
/// and resources, long texts over several columns.
pub open spec fn overview_columns_of(z: OverviewSizes, sort: OverviewColumn) -> Seq<ColumnView> {
    segment_columns(
        z.name_segments,
        "Partition"@,
        z.name_width as u16,
        Some(HitTarget::OverviewHeader(OverviewColumn::Partition)),
        sort == OverviewColumn::Partition,
    ) + seq![
        plain_column("State"@, z.state_width as u16),
        overview_column("Nodes"@, 7, OverviewColumn::Nodes, sort),
        overview_column("Pressure"@, z.pressure_width as u16, OverviewColumn::Pressure, sort),
        overview_column("Mine Running"@, z.metric_width as u16, OverviewColumn::MineRunning, sort),
        overview_column("Mine Pending"@, z.metric_width as u16, OverviewColumn::MinePending, sort),
        overview_column("Others Running"@, z.metric_width as u16, OverviewColumn::OthersRunning, sort),
        overview_column("Others Pending"@, z.metric_width as u16, OverviewColumn::OthersPending, sort),
    ] + segment_columns(
        z.jobs_segments,
        "Total Jobs"@,
        z.jobs_width as u16,
        Some(HitTarget::OverviewHeader(OverviewColumn::TotalJobs)),
        sort == OverviewColumn::TotalJobs,
    ) + segment_columns(z.resources_segments, "Resources"@, z.resources_width as u16, None, false)
}

pub open spec fn overview_cells_of(p: PartitionOverview, metric: MetricMode, z: OverviewSizes) -> Seq<Seq<char>> {
    let used = used_for_pressure_of(p@, metric);
    segment_cells(p.name@, z.name_segments, z.name_width) + seq![
        p.state@,
        dec(p.total_nodes as nat),
        pressure_bar_of(used, capacity_u64(capacity_of(p@, metric)), z.pressure_bar),
        metric_bar_of(running_of(p.mine@, metric), z.running_scale, z.running_bar, digit_count(z.running_scale)),
        metric_bar_of(pending_of(p.mine@, metric), z.pending_scale, z.pending_bar, digit_count(z.pending_scale)),
        metric_bar_of(running_of(p.others@, metric), z.running_scale, z.running_bar, digit_count(z.running_scale)),
        metric_bar_of(pending_of(p.others@, metric), z.pending_scale, z.pending_bar, digit_count(z.pending_scale)),
    ] + segment_cells(total_jobs_text(p), z.jobs_segments, z.jobs_width) + segment_cells(
        partition_resources_of(p@, metric, used),
        z.resources_segments,
        z.resources_width,
    )
}

/// The overview table over the partitions at `shown`.
pub open spec fn overview_table_of(
    parts: Seq<PartitionOverview>,
    shown: Seq<usize>,
    metric: MetricMode,
    area_width: u16,
    sort: OverviewColumn,
) -> (Seq<ColumnView>, Seq<Seq<Seq<char>>>) {
    let ps = selected_partitions(parts, shown);
    let z = overview_sizes_of(ps, metric, area_width);
    (overview_columns_of(z, sort), Seq::new(ps.len(), |i: int| overview_cells_of(ps[i], metric, z)))
}

/// The overview's sizes, computed.
struct Sizes {
    name_width: usize,
    name_segments: usize,
    state_width: u16,
    pressure_width: usize,
    pressure_bar: usize,
    metric_width: usize,
    running_scale: u64,
    pending_scale: u64,
    running_bar: usize,
    pending_bar: usize,
    jobs_width: usize,
    jobs_segments: usize,
    resources_width: usize,
    resources_segments: usize,
}

spec fn sizes_view(z: Sizes) -> OverviewSizes {
    OverviewSizes {
        name_width: z.name_width as nat,
        name_segments: z.name_segments as nat,
        state_width: z.state_width as nat,
        pressure_width: z.pressure_width as nat,
        pressure_bar: z.pressure_bar as nat,
        metric_width: z.metric_width as nat,
        running_scale: z.running_scale as nat,
        pending_scale: z.pending_scale as nat,
        running_bar: z.running_bar as nat,
        pending_bar: z.pending_bar as nat,
        jobs_width: z.jobs_width as nat,
        jobs_segments: z.jobs_segments as nat,
        resources_width: z.resources_width as nat,
        resources_segments: z.resources_segments as nat,
    }
}

spec fn sizes_small(z: Sizes) -> bool {
    &&& z.name_width < 65536
    &&& z.pressure_width < 65536
    &&& z.metric_width < 65536
    &&& z.jobs_width < 65536
    &&& z.resources_width < 65536
}

fn partition_scale(parts: &Vec<PartitionOverview>, shown: &Vec<usize>, metric: MetricMode, running: bool) -> (m: u64)
    requires
        forall|i: int| 0 <= i < shown@.len() ==> (#[trigger] shown@[i]) < parts@.len(),
        forall|k: int| 0 <= k < parts@.len() ==> partition_fits(#[trigger] parts@[k]),
    ensures
        m as nat == seq_max(partition_totals(selected_partitions(parts@, shown@), metric, running), 1),
{
    let ghost all = partition_totals(selected_partitions(parts@, shown@), metric, running);
    let mut best: u64 = 1;
    let mut i: usize = 0;
    while i < shown.len()
        invariant
            i <= shown@.len(),
            all == partition_totals(selected_partitions(parts@, shown@), metric, running),
            forall|i: int| 0 <= i < shown@.len() ==> (#[trigger] shown@[i]) < parts@.len(),
            forall|k: int| 0 <= k < parts@.len() ==> partition_fits(#[trigger] parts@[k]),
            best as nat == if i == 0 {
                1
            } else {
                seq_max(all.take(i as int), 1)
            },
        decreases shown@.len() - i,
    {
        let p = &parts[shown[i]];
        assert(partition_fits(parts@[shown@[i as int] as int]));
        let t = p.total_usage();
        let v = if running {
            t.running_total(metric)
        } else {
            t.pending_total(metric)
        };
        assert(all.take(i + 1).drop_last() =~= all.take(i as int));
        if i == 0 || v > best {
            best = v;
        }
        i = i + 1;
    }
    assert(all.take(shown@.len() as int) =~= all);
    best
}

fn digits_of(scale: u64) -> (n: usize)
    ensures
        n as nat == digit_count(scale as nat),
{
    let mut v: Vec<char> = Vec::new();
    push_dec(&mut v, if scale >= 1 {
        scale
    } else {
        1
    });
    v.len()
}

fn bar_room(width: usize, digits: usize) -> (n: usize)
    ensures
        n as nat == max_nat(sat_sub(width as nat, (digits + 4) as nat), 3),
{
    let d = if digits <= usize::MAX - 4 {
        digits + 4
    } else {
        usize::MAX
    };
    let r = if width >= d {
        width - d
    } else {
        0
    };
    if r >= 3 {
        r
    } else {
        3
    }
}

fn total_jobs_string(p: &PartitionOverview) -> (s: String)
    requires
        partition_fits(*p),
    ensures
        s@ == total_jobs_text(*p),
{
    let t = p.total_usage();
    let mut v = chars_of("Running: ");
    push_dec(&mut v, t.running_jobs as u64);
    append_str(&mut v, "  Pending: ");
    push_dec(&mut v, t.pending_jobs as u64);
    string_of(&v)
}

/// The partitions' names, states, job totals and resources.
fn overview_texts(parts: &Vec<PartitionOverview>, shown: &Vec<usize>, metric: MetricMode) -> (r: (
    Vec<String>,
    Vec<String>,
    Vec<String>,
    Vec<String>,
))
    requires
        forall|i: int| 0 <= i < shown@.len() ==> (#[trigger] shown@[i]) < parts@.len(),
        forall|k: int| 0 <= k < parts@.len() ==> partition_fits(#[trigger] parts@[k]),
    ensures
        ({
            let ps = selected_partitions(parts@, shown@);
            &&& string_views(r.0@) == Seq::new(ps.len(), |i: int| ps[i].name@)
            &&& string_views(r.1@) == Seq::new(ps.len(), |i: int| ps[i].state@)
            &&& string_views(r.2@) == Seq::new(ps.len(), |i: int| total_jobs_text(ps[i]))
            &&& string_views(r.3@) == Seq::new(
                ps.len(),
                |i: int| partition_resources_of(ps[i]@, metric, used_for_pressure_of(ps[i]@, metric)),
            )
        }),
{
    let ghost ps = selected_partitions(parts@, shown@);
    let mut names: Vec<String> = Vec::new();
    let mut states: Vec<String> = Vec::new();
    let mut totals: Vec<String> = Vec::new();
    let mut resources: Vec<String> = Vec::new();
    let mut i: usize = 0;
    while i < shown.len()
        invariant
            i <= shown@.len(),
            ps == selected_partitions(parts@, shown@),
            forall|i: int| 0 <= i < shown@.len() ==> (#[trigger] shown@[i]) < parts@.len(),
            forall|k: int| 0 <= k < parts@.len() ==> partition_fits(#[trigger] parts@[k]),
            names@.len() == i && states@.len() == i && totals@.len() == i && resources@.len() == i,
            forall|k: int| 0 <= k < i ==> (#[trigger] names@[k])@ == ps[k].name@,
            forall|k: int| 0 <= k < i ==> (#[trigger] states@[k])@ == ps[k].state@,
            forall|k: int| 0 <= k < i ==> (#[trigger] totals@[k])@ == total_jobs_text(ps[k]),
            forall|k: int|
                0 <= k < i ==> (#[trigger] resources@[k])@ == partition_resources_of(
                    ps[k]@,
                    metric,
                    used_for_pressure_of(ps[k]@, metric),
                ),
        decreases shown@.len() - i,
    {
        let p = &parts[shown[i]];
        assert(partition_fits(parts@[shown@[i as int] as int]));
        names.push(clone_string(&p.name));
        states.push(clone_string(&p.state));
        totals.push(total_jobs_string(p));
        let used = p.used_for_pressure(metric);
        resources.push(format_partition_resources(p, metric, used));
        i = i + 1;
    }
    assert(string_views(names@) =~= Seq::new(ps.len(), |i: int| ps[i].name@));
    assert(string_views(states@) =~= Seq::new(ps.len(), |i: int| ps[i].state@));
    assert(string_views(totals@) =~= Seq::new(ps.len(), |i: int| total_jobs_text(ps[i])));
    assert(string_views(resources@) =~= Seq::new(
        ps.len(),
        |i: int| partition_resources_of(ps[i]@, metric, used_for_pressure_of(ps[i]@, metric)),
    ));
    (names, states, totals, resources)
}

fn overview_columns(z: &Sizes, sort: OverviewColumn) -> (c: Vec<Column>)
    requires
        sizes_small(*z),
    ensures
        column_views(c@) == overview_columns_of(sizes_view(*z), sort),
{
    let mut columns: Vec<Column> = Vec::new();
    push_segment_columns(
        &mut columns,
        z.name_segments,
        "Partition",
        z.name_width as u16,
        Some(HitTarget::OverviewHeader(OverviewColumn::Partition)),
        sort == OverviewColumn::Partition,
    );
    push_column(&mut columns, "State", z.state_width, None, false);
    push_column(
        &mut columns,
        "Nodes",
        7,
        Some(HitTarget::OverviewHeader(OverviewColumn::Nodes)),
        sort == OverviewColumn::Nodes,
    );
    push_column(
        &mut columns,
        "Pressure",
        z.pressure_width as u16,
        Some(HitTarget::OverviewHeader(OverviewColumn::Pressure)),
        sort == OverviewColumn::Pressure,
    );
    push_column(
        &mut columns,
        "Mine Running",
        z.metric_width as u16,
        Some(HitTarget::OverviewHeader(OverviewColumn::MineRunning)),
        sort == OverviewColumn::MineRunning,
    );
    push_column(
        &mut columns,
        "Mine Pending",
        z.metric_width as u16,
        Some(HitTarget::OverviewHeader(OverviewColumn::MinePending)),
        sort == OverviewColumn::MinePending,
    );
    push_column(
        &mut columns,
        "Others Running",
        z.metric_width as u16,
        Some(HitTarget::OverviewHeader(OverviewColumn::OthersRunning)),
        sort == OverviewColumn::OthersRunning,
    );
    push_column(
        &mut columns,
        "Others Pending",
        z.metric_width as u16,
        Some(HitTarget::OverviewHeader(OverviewColumn::OthersPending)),
        sort == OverviewColumn::OthersPending,
    );
    push_segment_columns(
        &mut columns,
        z.jobs_segments,
        "Total Jobs",
        z.jobs_width as u16,
        Some(HitTarget::OverviewHeader(OverviewColumn::TotalJobs)),
        sort == OverviewColumn::TotalJobs,
    );
    push_segment_columns(&mut columns, z.resources_segments, "Resources", z.resources_width as u16, None, false);
    assert(column_views(columns@) =~= overview_columns_of(sizes_view(*z), sort));
    columns
}

fn overview_row(p: &PartitionOverview, metric: MetricMode, z: &Sizes, total: &String, resources: &String) -> (r: Vec<
    String,
>)
    requires
        partition_fits(*p),
        total@ == total_jobs_text(*p),
        resources@ == partition_resources_of(p@, metric, used_for_pressure_of(p@, metric)),
    ensures
        string_views(r@) == overview_cells_of(*p, metric, sizes_view(*z)),
{
    let mut cells: Vec<String> = Vec::new();
    push_segments(&mut cells, p.name.as_str(), z.name_segments, z.name_width);
    push_text(&mut cells, clone_string(&p.state));
    push_text(&mut cells, count_text(p.total_nodes as u64));
    let used = p.used_for_pressure(metric);
    let capacity = p.capacity_for(metric);
    assert(capacity == capacity_u64(capacity_of(p@, metric)));
    push_text(&mut cells, pressure_bar_text(used, capacity, z.pressure_bar));
    push_text(&mut cells, metric_value_text(p.mine.running_total(metric), z.running_scale, z.running_bar));
    push_text(&mut cells, metric_value_text(p.mine.pending_total(metric), z.pending_scale, z.pending_bar));
    push_text(&mut cells, metric_value_text(p.others.running_total(metric), z.running_scale, z.running_bar));
    push_text(&mut cells, metric_value_text(p.others.pending_total(metric), z.pending_scale, z.pending_bar));
    push_segments(&mut cells, total.as_str(), z.jobs_segments, z.jobs_width);
    push_segments(&mut cells, resources.as_str(), z.resources_segments, z.resources_width);
    assert(string_views(cells@) =~= overview_cells_of(*p, metric, sizes_view(*z)));
    cells
}

#[verifier::spinoff_prover]
#[verifier::rlimit(40)]
fn overview_sizes(
    parts: &Vec<PartitionOverview>,
    shown: &Vec<usize>,
    metric: MetricMode,
    area_width: u16,
    names: &Vec<String>,
    states: &Vec<String>,
    totals: &Vec<String>,
    resources: &Vec<String>,
) -> (z: Sizes)
    requires
        forall|i: int| 0 <= i < shown@.len() ==> (#[trigger] shown@[i]) < parts@.len(),
        forall|k: int| 0 <= k < parts@.len() ==> partition_fits(#[trigger] parts@[k]),
        ({
            let ps = selected_partitions(parts@, shown@);
            &&& string_views(names@) == Seq::new(ps.len(), |i: int| ps[i].name@)
            &&& string_views(states@) == Seq::new(ps.len(), |i: int| ps[i].state@)
            &&& string_views(totals@) == Seq::new(ps.len(), |i: int| total_jobs_text(ps[i]))
            &&& string_views(resources@) == Seq::new(
                ps.len(),
                |i: int| partition_resources_of(ps[i]@, metric, used_for_pressure_of(ps[i]@, metric)),
            )
        }),
    ensures
        sizes_view(z) == overview_sizes_of(selected_partitions(parts@, shown@), metric, area_width),
        sizes_small(z),
{
    let ghost ps = selected_partitions(parts@, shown@);
    let name_width = adaptive_segment_width(area_width, 18, 10);
    let jobs_width = adaptive_segment_width(area_width, 24, 12);
    let pressure_width = adaptive_segment_width(area_width, 23, 12);
    let metric_width = adaptive_segment_width(area_width, 18, 12);
    proof {
        lemma_segment_width_small(area_width as nat, 18, 10);
        lemma_segment_width_small(area_width as nat, 24, 12);
        lemma_segment_width_small(area_width as nat, 23, 12);
        lemma_segment_width_small(area_width as nat, 18, 12);
        lemma_segment_width_small(
            area_width as nat,
            clamp_nat(longest(string_views(states@), 8), 8, 18),
            8,
        );
    }
    let state_width = crate::ui::adaptive_text_width(&states, area_width, 8, 18, 8);
    let running_scale = partition_scale(parts, shown, metric, true);
    let pending_scale = partition_scale(parts, shown, metric, false);
    let z = Sizes {
        name_width,
        name_segments: max_segments(&names, name_width),
        state_width,
        pressure_width,
        pressure_bar: if pressure_width >= 10 {
            pressure_width - 7
        } else {
            3
        },
        metric_width,
        running_scale,
        pending_scale,
        running_bar: bar_room(metric_width, digits_of(running_scale)),
        pending_bar: bar_room(metric_width, digits_of(pending_scale)),
        jobs_width,
        jobs_segments: max_segments(&totals, jobs_width),
        resources_width: jobs_width,
        resources_segments: max_segments(&resources, jobs_width),
    };
    z
}

/// The columns and rows of the partition overview over the partitions at
/// `shown`.
pub fn overview_table(
    parts: &Vec<PartitionOverview>,
    shown: &Vec<usize>,
    metric: MetricMode,
    area_width: u16,
    sort: OverviewColumn,
) -> (t: TableModel)
    requires
        forall|i: int| 0 <= i < shown@.len() ==> (#[trigger] shown@[i]) < parts@.len(),
        forall|k: int| 0 <= k < parts@.len() ==> partition_fits(#[trigger] parts@[k]),
    ensures
        (column_views(t.columns@), rows_view(t.rows@)) == overview_table_of(parts@, shown@, metric, area_width, sort),
{
    let ghost ps = selected_partitions(parts@, shown@);
    let (names, states, totals, resources) = overview_texts(parts, shown, metric);
    let z = overview_sizes(parts, shown, metric, area_width, &names, &states, &totals, &resources);
    let columns = overview_columns(&z, sort);
    assert(string_views(totals@).len() == totals@.len());
    assert(string_views(resources@).len() == resources@.len());
    let mut rows: Vec<Vec<String>> = Vec::new();
    let mut i: usize = 0;
    while i < shown.len()
        invariant
            i <= shown@.len(),
            ps == selected_partitions(parts@, shown@),
            forall|i: int| 0 <= i < shown@.len() ==> (#[trigger] shown@[i]) < parts@.len(),
            forall|k: int| 0 <= k < parts@.len() ==> partition_fits(#[trigger] parts@[k]),
            string_views(totals@) == Seq::new(ps.len(), |i: int| total_jobs_text(ps[i])),
            string_views(resources@) == Seq::new(
                ps.len(),
                |i: int| partition_resources_of(ps[i]@, metric, used_for_pressure_of(ps[i]@, metric)),
            ),
            totals@.len() == shown@.len(),
            resources@.len() == shown@.len(),
            rows@.len() == i,
            forall|k: int|
                0 <= k < i ==> string_views((#[trigger] rows@[k])@) == overview_cells_of(ps[k], metric, sizes_view(z)),
        decreases shown@.len() - i,
    {
        let p = &parts[shown[i]];
        assert(partition_fits(parts@[shown@[i as int] as int]));
        assert(string_views(totals@)[i as int] == totals@[i as int]@);
        assert(string_views(resources@)[i as int] == resources@[i as int]@);
        let row = overview_row(p, metric, &z, &totals[i], &resources[i]);
        rows.push(row);
        i = i + 1;
    }
    let t = TableModel { columns, rows };
    proof {
        let spec = overview_table_of(parts@, shown@, metric, area_width, sort);
        assert(rows_view(t.rows@) =~= spec.1);
    }
    t
}

// The nodes of a partition.

/// The nodes at the given positions, in that order.
pub open spec fn selected_nodes(nodes: Seq<NodeRecord>, shown: Seq<usize>) -> Seq<NodeRecord> {
    Seq::new(shown.len(), |i: int| nodes[shown[i] as int])
}

/// "CPUs c  GPUs g" of a node, each "N/A" when unknown.
pub open spec fn capacity_text(n: NodeRecord) -> Seq<char> {
    "CPUs "@ + count_or_na(n.cpus) + "  GPUs "@ + count_or_na(n.gpus)
}

/// The node table over the nodes at `shown`: names as wide as the longest
/// between 10 and 40, states between 8 and 18, capacities split at 24
/// cells (all less on narrow screens).
pub open spec fn node_table_of(nodes: Seq<NodeRecord>, shown: Seq<usize>, area_width: u16) -> (
    Seq<ColumnView>,
    Seq<Seq<Seq<char>>>,
) {
    let ns = selected_nodes(nodes, shown);
    let a = area_width as nat;
    let name_w = segment_width_of(a, clamp_nat(longest(Seq::new(ns.len(), |i: int| ns[i].node_name@), 12), 10, 40), 10);
    let state_w = segment_width_of(a, clamp_nat(longest(Seq::new(ns.len(), |i: int| ns[i].state@), 9), 8, 18), 8);
    let cap_w = segment_width_of(a, 24, 12);
    let caps = Seq::new(ns.len(), |i: int| capacity_text(ns[i]));
    let cs = segments_needed(caps, cap_w);
    (
        seq![plain_column("Node"@, name_w as u16), plain_column("State"@, state_w as u16)] + segment_columns(
            cs,
            "Capacity"@,
            cap_w as u16,
            None,
            false,
        ),
        Seq::new(ns.len(), |i: int| seq![ns[i].node_name@, ns[i].state@] + segment_cells(caps[i], cs, cap_w)),
    )
}

fn capacity_string(n: &NodeRecord) -> (s: String)
    ensures
        s@ == capacity_text(*n),
{
    let mut v = chars_of("CPUs ");
    let c = count_na_text(n.cpus);
    crate::text::append(&mut v, &chars_of(c.as_str()));
    append_str(&mut v, "  GPUs ");
    let g = count_na_text(n.gpus);
    crate::text::append(&mut v, &chars_of(g.as_str()));
    string_of(&v)
}

/// The columns and rows of the table of a partition's nodes at `shown`.
pub fn node_table(nodes: &Vec<NodeRecord>, shown: &Vec<usize>, area_width: u16) -> (t: TableModel)
    requires
        forall|i: int| 0 <= i < shown@.len() ==> (#[trigger] shown@[i]) < nodes@.len(),
    ensures
        (column_views(t.columns@), rows_view(t.rows@)) == node_table_of(nodes@, shown@, area_width),
{
    let ghost ns = selected_nodes(nodes@, shown@);
    let mut names: Vec<String> = Vec::new();
    let mut states: Vec<String> = Vec::new();
    let mut caps: Vec<String> = Vec::new();
    let mut i: usize = 0;
    while i < shown.len()
        invariant
            i <= shown@.len(),
            ns == selected_nodes(nodes@, shown@),
            forall|i: int| 0 <= i < shown@.len() ==> (#[trigger] shown@[i]) < nodes@.len(),
            names@.len() == i && states@.len() == i && caps@.len() == i,
            forall|k: int| 0 <= k < i ==> (#[trigger] names@[k])@ == ns[k].node_name@,
            forall|k: int| 0 <= k < i ==> (#[trigger] states@[k])@ == ns[k].state@,
            forall|k: int| 0 <= k < i ==> (#[trigger] caps@[k])@ == capacity_text(ns[k]),
        decreases shown@.len() - i,
    {
        let n = &nodes[shown[i]];
        names.push(clone_string(&n.node_name));
        states.push(clone_string(&n.state));
        caps.push(capacity_string(n));
        i = i + 1;
    }
    let ghost cap_views = Seq::new(ns.len(), |i: int| capacity_text(ns[i]));
    assert(string_views(names@) =~= Seq::new(ns.len(), |i: int| ns[i].node_name@));
    assert(string_views(states@) =~= Seq::new(ns.len(), |i: int| ns[i].state@));
    assert(string_views(caps@) =~= cap_views);
    proof {
        lemma_segment_width_small(area_width as nat, 24, 12);
    }
    let name_w = crate::ui::adaptive_text_width(&names, area_width, 10, 40, 12);
    let state_w = crate::ui::adaptive_text_width(&states, area_width, 8, 18, 9);
    proof {
        lemma_segment_width_small(
            area_width as nat,
            clamp_nat(longest(string_views(names@), 12), 10, 40),
            10,
        );
        lemma_segment_width_small(
            area_width as nat,
            clamp_nat(longest(string_views(states@), 9), 8, 18),
            8,
        );
    }
    let cap_w = adaptive_segment_width(area_width, 24, 12);
    let cs = max_segments(&caps, cap_w);
    let mut columns: Vec<Column> = Vec::new();
    push_column(&mut columns, "Node", name_w, None, false);
    push_column(&mut columns, "State", state_w, None, false);
    push_segment_columns(&mut columns, cs, "Capacity", cap_w as u16, None, false);
    let mut rows: Vec<Vec<String>> = Vec::new();
    let mut i: usize = 0;
    while i < shown.len()
        invariant
            i <= shown@.len(),
            names@.len() == shown@.len() && states@.len() == shown@.len() && caps@.len() == shown@.len(),
            ns.len() == shown@.len(),
            forall|k: int| 0 <= k < shown@.len() ==> (#[trigger] names@[k])@ == ns[k].node_name@,
            forall|k: int| 0 <= k < shown@.len() ==> (#[trigger] states@[k])@ == ns[k].state@,
            forall|k: int| 0 <= k < shown@.len() ==> (#[trigger] caps@[k])@ == capacity_text(ns[k]),
            rows@.len() == i,
            forall|k: int|
                0 <= k < i ==> string_views((#[trigger] rows@[k])@) == seq![ns[k].node_name@, ns[k].state@]
                    + segment_cells(capacity_text(ns[k]), cs as nat, cap_w as nat),
        decreases shown@.len() - i,
    {
        let mut cells: Vec<String> = Vec::new();
        push_text(&mut cells, clone_string(&names[i]));
        push_text(&mut cells, clone_string(&states[i]));
        push_segments(&mut cells, caps[i].as_str(), cs, cap_w);
        assert(string_views(cells@) =~= seq![ns[i as int].node_name@, ns[i as int].state@] + segment_cells(
            capacity_text(ns[i as int]),
            cs as nat,
            cap_w as nat,
        ));
        rows.push(cells);
        i = i + 1;
    }
    let t = TableModel { columns, rows };
    proof {
        let spec = node_table_of(nodes@, shown@, area_width);
        assert(rows_view(t.rows@) =~= spec.1);
        assert(column_views(t.columns@) =~= spec.0);
    }
    t
}

// Every row has one cell per column.

/// Each row of a job table has exactly one cell for each column.
pub proof fn lemma_job_rows_fit_columns(jobs: Seq<&JobRecord>, show_user: bool, area_width: u16, sort: JobColumn)
    ensures
        forall|i: int|
            0 <= i < jobs.len() ==> (#[trigger] job_table_of(jobs, show_user, area_width, sort).1[i]).len()
                == job_table_of(jobs, show_user, area_width, sort).0.len(),
{
}

/// Each row of the job table of a partition, a node or the selected user
/// has exactly one cell for each column.
pub proof fn lemma_layout_rows_fit_columns(jobs: Seq<&JobRecord>, layout: JobLayout, area_width: u16, sort: JobColumn)
    ensures
        forall|i: int|
            0 <= i < jobs.len() ==> (#[trigger] layout_table_of(jobs, layout, area_width, sort).1[i]).len()
                == layout_table_of(jobs, layout, area_width, sort).0.len(),
{
}

/// Each row of the users table has exactly one cell for each column.
pub proof fn lemma_user_rows_fit_columns(users: Seq<UserUsage>, shown: Seq<usize>, area_width: u16, sort: UserColumn)
    ensures
        forall|i: int|
            0 <= i < shown.len() ==> (#[trigger] user_table_of(users, shown, area_width, sort).1[i]).len()
                == user_table_of(users, shown, area_width, sort).0.len(),
{
}

/// Each row of the partition overview has exactly one cell for each
/// column.
pub proof fn lemma_overview_rows_fit_columns(
    parts: Seq<PartitionOverview>,
    shown: Seq<usize>,
    metric: MetricMode,
    area_width: u16,
    sort: OverviewColumn,
)
    ensures
        forall|i: int|
            0 <= i < shown.len() ==> (#[trigger] overview_table_of(parts, shown, metric, area_width, sort).1[i]).len()
                == overview_table_of(parts, shown, metric, area_width, sort).0.len(),
{
}

/// Each row of the node table has exactly one cell for each column.
pub proof fn lemma_node_rows_fit_columns(nodes: Seq<NodeRecord>, shown: Seq<usize>, area_width: u16)
    ensures
        forall|i: int|
            0 <= i < shown.len() ==> (#[trigger] node_table_of(nodes, shown, area_width).1[i]).len()
                == node_table_of(nodes, shown, area_width).0.len(),
{
}

} // verus!
