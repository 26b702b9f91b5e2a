//! The bodies of the dialogs, laid out as lines of toned pieces: the job
//! detail, the review of a cancel and its result.
use vstd::prelude::*;

use crate::app::{allowed_ids, CancelCandidate, CancelOutcome, CancelPreview, CancelReport, CancelScope};
use crate::detail::{
    cancel_result_fields, cancel_result_of, cancel_review_fields, count_outcomes, outcome_counts, cancel_review_of, job_detail_sections,
    job_detail_sections_of, section_views,
};
use crate::layout::{
    detail_grid, grid_of, grid_row, grid_views, kv_box, kv_box_of, lemma_grid_fits, lemma_kv_box_width,
    lemma_side_by_side_width, line_width, lines_view, longest_label, rows_view, side_by_side, table_inner, table_of,
    widths_sum, wrapped_table, LineView, Piece,
};
use crate::model::types::{clone_string, field_views, string_views, JobDetail, JobDetailView};
use crate::text::{append, append_str, chars_of, owned, string_of};
use crate::ui::{is_skipped_message, skipped_message};

verus! {

/// The hint at the foot of the job detail dialog.
pub open spec fn close_hint() -> Seq<char> {
    "Click outside the panel to close. Keyboard: Esc, b, q, or Enter. Scroll with j/k, arrows, Space, b, g, or G."@
}

/// The box that says how to close the job detail dialog.
pub open spec fn close_box_of(width: nat) -> Seq<LineView> {
    kv_box_of("Close"@, seq![("Mouse / Keyboard"@, close_hint())], width, true)
}

/// Whether the job detail dialog puts its boxes two to a row.
pub open spec fn two_columns(width: nat) -> bool {
    width >= 84
}

/// The width of each section box: half the room less the gap when two
/// share a row.
pub open spec fn section_width(width: nat) -> nat {
    if two_columns(width) {
        ((width - 2) / 2) as nat
    } else {
        width
    }
}

/// The box of section `i` of the job detail; the last one stacks its
/// values under their labels.
pub open spec fn section_box_of(d: JobDetailView, i: int, width: nat) -> Seq<LineView> {
    let s = job_detail_sections_of(d);
    kv_box_of(s[i].0, s[i].1, section_width(width), i == 5)
}

/// The job detail dialog: the six section boxes, two to a row when the
/// dialog is wide enough, then the closing hint across the whole width.
pub open spec fn job_detail_panel_of(d: JobDetailView, width: nat) -> Seq<LineView> {
    let b = |i: int| section_box_of(d, i, width);
    if two_columns(width) {
        grid_of(
            seq![
                (b(0), Some(b(1))),
                (b(2), Some(b(3))),
                (b(4), Some(b(5))),
                (close_box_of(width), None),
            ],
        )
    } else {
        grid_of(
            seq![
                (b(0), None),
                (b(1), None),
                (b(2), None),
                (b(3), None),
                (b(4), None),
                (b(5), None),
                (close_box_of(width), None),
            ],
        )
    }
}

fn close_box(width: usize) -> (r: Vec<Vec<Piece>>)
    ensures
        lines_view(r@) == close_box_of(width as nat),
{
    let fields = vec![
        (
            owned("Mouse / Keyboard"),
            owned(
                "Click outside the panel to close. Keyboard: Esc, b, q, or Enter. Scroll with j/k, arrows, Space, b, g, or G.",
            ),
        ),
    ];
    assert(field_views(fields@) =~= seq![("Mouse / Keyboard"@, close_hint())]);
    kv_box("Close", &fields, width, true)
}

/// The body of the job detail dialog, `width` characters wide.
pub fn job_detail_panel(detail: &JobDetail, width: usize) -> (r: Vec<Vec<Piece>>)
    ensures
        lines_view(r@) == job_detail_panel_of(detail@, width as nat),
{
    let two = width >= 84;
    let bw: usize = if two {
        (width - 2) / 2
    } else {
        width
    };
    let sections = job_detail_sections(detail);
    let ghost sv = section_views(sections@);
    assert(sv.len() == 6);
    let mut boxes: Vec<Vec<Vec<Piece>>> = Vec::new();
    let mut i: usize = 0;
    while i < 6
        invariant
            i <= 6,
            sections@.len() == 6,
            sv == section_views(sections@),
            sv == job_detail_sections_of(detail@),
            bw as nat == section_width(width as nat),
            boxes@.len() == i,
            forall|k: int| 0 <= k < i ==> lines_view(#[trigger] boxes@[k]@) == section_box_of(detail@, k, width as nat),
        decreases 6 - i,
    {
        let s = &sections[i];
        assert(s.title@ == sv[i as int].0);
        assert(field_views(s.fields@) == sv[i as int].1);
        let b = kv_box(s.title.as_str(), &s.fields, bw, i == 5);
        boxes.push(b);
        i = i + 1;
    }
    let close = close_box(width);
    let b5 = boxes.pop().unwrap();
    let b4 = boxes.pop().unwrap();
    let b3 = boxes.pop().unwrap();
    let b2 = boxes.pop().unwrap();
    let b1 = boxes.pop().unwrap();
    let b0 = boxes.pop().unwrap();
    let ghost w = width as nat;
    let ghost spec_rows = if two {
        seq![
            (section_box_of(detail@, 0, w), Some(section_box_of(detail@, 1, w))),
            (section_box_of(detail@, 2, w), Some(section_box_of(detail@, 3, w))),
            (section_box_of(detail@, 4, w), Some(section_box_of(detail@, 5, w))),
            (close_box_of(w), None),
        ]
    } else {
        seq![
            (section_box_of(detail@, 0, w), None),
            (section_box_of(detail@, 1, w), None),
            (section_box_of(detail@, 2, w), None),
            (section_box_of(detail@, 3, w), None),
            (section_box_of(detail@, 4, w), None),
            (section_box_of(detail@, 5, w), None),
            (close_box_of(w), None),
        ]
    };
    let rows = if two {
        vec![(b0, Some(b1)), (b2, Some(b3)), (b4, Some(b5)), (close, None)]
    } else {
        vec![(b0, None), (b1, None), (b2, None), (b3, None), (b4, None), (b5, None), (close, None)]
    };
    assert(grid_views(rows@) =~= spec_rows);
    let r = detail_grid(rows);
    assert(job_detail_panel_of(detail@, w) == grid_of(spec_rows));
    r
}

proof fn lemma_section_box_width(d: JobDetailView, i: int, width: nat)
    requires
        0 <= i < 6,
        section_width(width) >= 22,
    ensures
        section_box_of(d, i, width).len() > 0,
        forall|k: int|
            0 <= k < section_box_of(d, i, width).len() ==> line_width(#[trigger] section_box_of(d, i, width)[k])
                == section_width(width),
{
    let s = job_detail_sections_of(d);
    let lw = crate::ui::clamp_nat(longest_label(s[i].1), 8, 18);
    assert(lw <= 18);
    lemma_kv_box_width(s[i].0, s[i].1, section_width(width), i == 5);
}

/// When the job detail dialog is at least 22 characters wide, none of its
/// lines is wider than the dialog: the boxes, alone or two side by side,
/// and the closing hint all fit.
pub proof fn lemma_job_detail_panel_fits(d: JobDetailView, width: nat)
    requires
        width >= 22,
    ensures
        forall|k: int|
            0 <= k < job_detail_panel_of(d, width).len() ==> line_width(#[trigger] job_detail_panel_of(d, width)[k])
                <= width,
{
    let bw = section_width(width);
    let b = |i: int| section_box_of(d, i, width);
    lemma_section_box_width(d, 0, width);
    lemma_section_box_width(d, 1, width);
    lemma_section_box_width(d, 2, width);
    lemma_section_box_width(d, 3, width);
    lemma_section_box_width(d, 4, width);
    lemma_section_box_width(d, 5, width);
    lemma_kv_box_width("Close"@, seq![("Mouse / Keyboard"@, close_hint())], width, true);
    let close = close_box_of(width);
    if two_columns(width) {
        lemma_side_by_side_width(b(0), b(1), 2, bw, bw);
        lemma_side_by_side_width(b(2), b(3), 2, bw, bw);
        lemma_side_by_side_width(b(4), b(5), 2, bw, bw);
        let rows = seq![(b(0), Some(b(1))), (b(2), Some(b(3))), (b(4), Some(b(5))), (close, None)];
        assert forall|i: int, k: int|
            0 <= i < rows.len() && 0 <= k < grid_row(rows[i]).len() implies line_width(
                #[trigger] grid_row(rows[i])[k],
            ) <= width by {
            if i == 0 {
                assert(grid_row(rows[i]) == side_by_side(b(0), b(1), 2));
            } else if i == 1 {
                assert(grid_row(rows[i]) == side_by_side(b(2), b(3), 2));
            } else if i == 2 {
                assert(grid_row(rows[i]) == side_by_side(b(4), b(5), 2));
            } else {
                assert(grid_row(rows[i]) == close);
            }
        }
        lemma_grid_fits(rows, width);
    } else {
        let rows = seq![
            (b(0), None),
            (b(1), None),
            (b(2), None),
            (b(3), None),
            (b(4), None),
            (b(5), None),
            (close, None),
        ];
        assert forall|i: int, k: int|
            0 <= i < rows.len() && 0 <= k < grid_row(rows[i]).len() implies line_width(
                #[trigger] grid_row(rows[i])[k],
            ) <= width by {
            if i < 6 {
                assert(grid_row(rows[i]) == b(i));
            } else {
                assert(grid_row(rows[i]) == close);
            }
        }
        lemma_grid_fits(rows, width);
    }
}

/// The body of the job detail dialog when the detail could not be loaded:
/// one box with the error, or "Unknown error".
pub open spec fn job_detail_error_of(error: Option<Seq<char>>, width: nat) -> Seq<LineView> {
    let message = match error {
        Some(e) => e,
        None => "Unknown error"@,
    };
    grid_of(seq![(kv_box_of("Error"@, seq![("Message"@, message)], width, true), None)])
}

pub fn job_detail_error_panel(error: &Option<String>, width: usize) -> (r: Vec<Vec<Piece>>)
    ensures
        lines_view(r@) == job_detail_error_of(
            match error {
                Some(e) => Some(e@),
                None => None,
            },
            width as nat,
        ),
{
    let message = match error {
        Some(e) => clone_string(e),
        None => owned("Unknown error"),
    };
    let fields = vec![(owned("Message"), message)];
    let ghost spec_message = match error {
        Some(e) => e@,
        None => "Unknown error"@,
    };
    assert(field_views(fields@) =~= seq![("Message"@, spec_message)]);
    let b = kv_box("Error", &fields, width, true);
    let rows = vec![(b, None)];
    let ghost one = seq![(kv_box_of("Error"@, seq![("Message"@, spec_message)], width as nat, true), None)];
    assert(grid_views(rows@) =~= one);
    detail_grid(rows)
}

// The cancel dialogs, block by block.

/// How a block of a dialog is coloured.
#[derive(Debug, Clone, Copy, PartialEq, Eq, Structural)]
pub enum Accent {
    Plain,
    Cancel,
    Ineligible,
    Summary,
    Succeeded,
    Failed,
    Skipped,
}

/// Lines of a dialog drawn in one colour.
#[derive(Debug, Clone)]
pub struct Block {
    pub accent: Accent,
    pub lines: Vec<Vec<Piece>>,
}

pub open spec fn block_views(v: Seq<Block>) -> Seq<(Accent, Seq<LineView>)> {
    v.map_values(|b: Block| (b.accent, lines_view(b.lines@)))
}

/// An empty line between blocks.
pub open spec fn gap_block() -> (Accent, Seq<LineView>) {
    (Accent::Plain, seq![Seq::<(Seq<char>, crate::layout::Tone)>::empty()])
}

fn gap() -> (b: Block)
    ensures
        (b.accent, lines_view(b.lines@)) == gap_block(),
{
    let empty: Vec<Piece> = Vec::new();
    assert(crate::layout::line_view(empty@) =~= Seq::<(Seq<char>, crate::layout::Tone)>::empty());
    let lines: Vec<Vec<Piece>> = vec![empty];
    assert(lines_view(lines@) =~= seq![Seq::<(Seq<char>, crate::layout::Tone)>::empty()]);
    Block { accent: Accent::Plain, lines }
}

/// The reason a candidate is skipped, or "Not allowed".
pub open spec fn skip_reason(c: CancelCandidate) -> Seq<char> {
    match c.reason {
        Some(r) => r@,
        None => "Not allowed"@,
    }
}

/// The cells of a candidate in the review: id, name, owner, partition,
/// state, and whether it is cancelled or why not.
pub open spec fn candidate_row(c: CancelCandidate) -> Seq<Seq<char>> {
    seq![
        c.job_id@,
        c.name@,
        c.user@,
        c.partition@,
        c.state@,
        if c.allowed {
            "Eligible: yes"@
        } else {
            "Skip reason: "@ + skip_reason(c)
        },
    ]
}

/// The rows of the candidates whose `allowed` is `allowed`, in order.
pub open spec fn candidate_rows(c: Seq<CancelCandidate>, allowed: bool) -> Seq<Seq<Seq<char>>>
    decreases c.len(),
{
    if c.len() == 0 {
        Seq::empty()
    } else if c.last().allowed == allowed {
        candidate_rows(c.drop_last(), allowed).push(candidate_row(c.last()))
    } else {
        candidate_rows(c.drop_last(), allowed)
    }
}

/// The review table's column widths; the last column takes the room the
/// others leave.
pub open spec fn review_widths(width: nat) -> Seq<usize> {
    if width >= 96 {
        seq![8usize, 16, 10, 10, 8, (if width >= 70 { width - 70 } else { 0 }) as usize]
    } else {
        seq![8usize, 12, 8, 8, 8, (if width >= 60 { width - 60 } else { 0 }) as usize]
    }
}

pub open spec fn review_headers(last: Seq<char>) -> Seq<Seq<char>> {
    seq!["JobID"@, "Name"@, "User"@, "Partition"@, "State"@, last]
}

/// The cancel review dialog: the summary, the jobs that will be
/// cancelled, those that will not (when there are any), and what
/// confirming runs.
pub open spec fn cancel_review_panel_of(p: CancelPreview, width: nat) -> Seq<(Accent, Seq<LineView>)> {
    let fields = cancel_review_of(p.title@, p.scope, p.candidates@.len(), allowed_ids(p.candidates@).len());
    let widths = review_widths(width);
    let denied = candidate_rows(p.candidates@, false);
    seq![
        (Accent::Cancel, kv_box_of("Summary"@, fields.0, width, false)),
        gap_block(),
        (
            Accent::Cancel,
            table_of(
                if p.scope == CancelScope::Single {
                    "Target Job"@
                } else {
                    "Eligible Jobs"@
                },
                Some("These jobs will be cancelled if you confirm."@),
                review_headers("Details"@),
                widths,
                candidate_rows(p.candidates@, true),
            ),
        ),
    ] + (if denied.len() > 0 {
        seq![
            gap_block(),
            (
                Accent::Ineligible,
                table_of(
                    "Ineligible / Skipped Jobs"@,
                    Some("These jobs will not be cancelled."@),
                    review_headers("Why not"@),
                    widths,
                    denied,
                ),
            ),
        ]
    } else {
        Seq::empty()
    }) + seq![gap_block(), (Accent::Cancel, kv_box_of("Action"@, fields.1, width, false))]
}

fn candidate_cells(c: &CancelCandidate) -> (r: Vec<String>)
    ensures
        string_views(r@) == candidate_row(*c),
{
    let last = if c.allowed {
        owned("Eligible: yes")
    } else {
        let mut t = chars_of("Skip reason: ");
        match &c.reason {
            Some(reason) => {
                let rv = chars_of(reason.as_str());
                append(&mut t, &rv);
            },
            None => {
                append_str(&mut t, "Not allowed");
            },
        }
        string_of(&t)
    };
    let r = vec![
        clone_string(&c.job_id),
        clone_string(&c.name),
        clone_string(&c.user),
        clone_string(&c.partition),
        clone_string(&c.state),
        last,
    ];
    assert(string_views(r@) =~= candidate_row(*c));
    r
}

fn candidate_rows_exec(c: &Vec<CancelCandidate>, allowed: bool) -> (r: Vec<Vec<String>>)
    ensures
        rows_view(r@) == candidate_rows(c@, allowed),
{
    let mut r: Vec<Vec<String>> = Vec::new();
    let mut i: usize = 0;
    while i < c.len()
        invariant
            i <= c@.len(),
            rows_view(r@) == candidate_rows(c@.take(i as int), allowed),
        decreases c@.len() - i,
    {
        assert(c@.take(i + 1).drop_last() =~= c@.take(i as int));
        assert(c@.take(i + 1).last() == c@[i as int]);
        if c[i].allowed == allowed {
            let ghost before = rows_view(r@);
            let cells = candidate_cells(&c[i]);
            r.push(cells);
            assert(rows_view(r@) =~= before.push(candidate_row(c@[i as int])));
        }
        i = i + 1;
    }
    assert(c@.take(c@.len() as int) =~= c@);
    r
}

fn review_widths_exec(width: usize) -> (w: Vec<usize>)
    ensures
        w@ == review_widths(width as nat),
        table_inner(w@) <= usize::MAX,
{
    let w = if width >= 96 {
        vec![8usize, 16, 10, 10, 8, width - 70]
    } else {
        vec![8usize, 12, 8, 8, 8, if width >= 60 { width - 60 } else { 0 }]
    };
    assert(w@ =~= review_widths(width as nat));
    proof {
        reveal_with_fuel(widths_sum, 7);
    }
    w
}

fn string_vec(a: &str, b: &str, c: &str, d: &str, e: &str, f: &str) -> (r: Vec<String>)
    ensures
        string_views(r@) == seq![a@, b@, c@, d@, e@, f@],
{
    let r = vec![owned(a), owned(b), owned(c), owned(d), owned(e), owned(f)];
    assert(string_views(r@) =~= seq![a@, b@, c@, d@, e@, f@]);
    r
}

/// The body of the cancel review dialog, `width` characters wide.
pub fn cancel_review_panel(p: &CancelPreview, width: usize) -> (r: Vec<Block>)
    ensures
        block_views(r@) == cancel_review_panel_of(*p, width as nat),
{
    let (summary, action) = cancel_review_fields(p);
    let widths = review_widths_exec(width);
    let eligible = candidate_rows_exec(&p.candidates, true);
    let denied = candidate_rows_exec(&p.candidates, false);
    let title = if p.scope == CancelScope::Single {
        "Target Job"
    } else {
        "Eligible Jobs"
    };
    let mut r: Vec<Block> = Vec::new();
    r.push(Block { accent: Accent::Cancel, lines: kv_box("Summary", &summary, width, false) });
    r.push(gap());
    let headers = string_vec("JobID", "Name", "User", "Partition", "State", "Details");
    r.push(
        Block {
            accent: Accent::Cancel,
            lines: wrapped_table(title, Some("These jobs will be cancelled if you confirm."), &headers, &widths, &eligible),
        },
    );
    let ghost head = block_views(r@);
    let has_denied = denied.len() > 0;
    if has_denied {
        r.push(gap());
        let headers = string_vec("JobID", "Name", "User", "Partition", "State", "Why not");
        r.push(
            Block {
                accent: Accent::Ineligible,
                lines: wrapped_table(
                    "Ineligible / Skipped Jobs",
                    Some("These jobs will not be cancelled."),
                    &headers,
                    &widths,
                    &denied,
                ),
            },
        );
    }
    let ghost middle = block_views(r@);
    r.push(gap());
    r.push(Block { accent: Accent::Cancel, lines: kv_box("Action", &action, width, false) });
    proof {
        let spec = cancel_review_panel_of(*p, width as nat);
        assert(block_views(r@) =~= spec);
    }
    r
}

/// Which group a cancel request falls in: 0 for a success, 2 for one that
/// was skipped or refused, 1 for a failure.
pub open spec fn outcome_class(o: CancelOutcome) -> nat {
    if o.success {
        0
    } else if skipped_message(o.message@) {
        2
    } else {
        1
    }
}

/// The id and message of each request of group `class`, in order.
pub open spec fn outcome_rows(r: Seq<CancelOutcome>, class: nat) -> Seq<Seq<Seq<char>>>
    decreases r.len(),
{
    if r.len() == 0 {
        Seq::empty()
    } else if outcome_class(r.last()) == class {
        outcome_rows(r.drop_last(), class).push(seq![r.last().job_id@, r.last().message@])
    } else {
        outcome_rows(r.drop_last(), class)
    }
}

/// The result tables' column widths: the id, and the message in the rest.
pub open spec fn result_widths(width: nat) -> Seq<usize> {
    seq![8usize, (if width >= 13 { width - 13 } else { 0 }) as usize]
}

/// A group of the result dialog, when it has rows.
pub open spec fn result_group(
    accent: Accent,
    title: Seq<char>,
    note: Seq<char>,
    rows: Seq<Seq<Seq<char>>>,
    widths: Seq<usize>,
    gap_after: bool,
) -> Seq<(Accent, Seq<LineView>)> {
    if rows.len() > 0 {
        seq![(accent, table_of(title, Some(note), seq!["JobID"@, "Message"@], widths, rows))] + if gap_after {
            seq![gap_block()]
        } else {
            Seq::empty()
        }
    } else {
        Seq::empty()
    }
}

/// The cancel result dialog: the summary, then the succeeded, failed and
/// skipped requests, each group only when it has any.
pub open spec fn cancel_result_panel_of(report: CancelReport, width: nat) -> Seq<(Accent, Seq<LineView>)> {
    let w = result_widths(width);
    let r = report.results@;
    seq![
        (Accent::Summary, kv_box_of("Result Summary"@, cancel_result_of(report.scope, r), width, false)),
        gap_block(),
    ] + result_group(
        Accent::Succeeded,
        "Succeeded"@,
        "These jobs were cancelled successfully."@,
        outcome_rows(r, 0),
        w,
        true,
    ) + result_group(
        Accent::Failed,
        "Failed"@,
        "These jobs were not cancelled because scancel failed."@,
        outcome_rows(r, 1),
        w,
        true,
    ) + result_group(
        Accent::Skipped,
        "Skipped"@,
        "These jobs were intentionally left untouched."@,
        outcome_rows(r, 2),
        w,
        false,
    )
}

fn outcome_rows_exec(results: &Vec<CancelOutcome>, class: u8) -> (r: Vec<Vec<String>>)
    ensures
        rows_view(r@) == outcome_rows(results@, class as nat),
{
    let mut r: Vec<Vec<String>> = Vec::new();
    let mut i: usize = 0;
    while i < results.len()
        invariant
            i <= results@.len(),
            rows_view(r@) == outcome_rows(results@.take(i as int), class as nat),
        decreases results@.len() - i,
    {
        assert(results@.take(i + 1).drop_last() =~= results@.take(i as int));
        assert(results@.take(i + 1).last() == results@[i as int]);
        let o = &results[i];
        let c: u8 = if o.success {
            0
        } else if is_skipped_message(o.message.as_str()) {
            2
        } else {
            1
        };
        if c == class {
            let ghost before = rows_view(r@);
            let row = vec![clone_string(&o.job_id), clone_string(&o.message)];
            assert(string_views(row@) =~= seq![o.job_id@, o.message@]);
            r.push(row);
            assert(rows_view(r@) =~= before.push(seq![o.job_id@, o.message@]));
        }
        i = i + 1;
    }
    assert(results@.take(results@.len() as int) =~= results@);
    r
}

fn push_group(
    out: &mut Vec<Block>,
    accent: Accent,
    title: &str,
    note: &str,
    rows: &Vec<Vec<String>>,
    widths: &Vec<usize>,
    gap_after: bool,
)
    requires
        table_inner(widths@) <= usize::MAX,
    ensures
        block_views(final(out)@) == block_views(old(out)@) + result_group(
            accent,
            title@,
            note@,
            rows_view(rows@),
            widths@,
            gap_after,
        ),
{
    let ghost start = block_views(out@);
    if rows.len() > 0 {
        let headers = vec![owned("JobID"), owned("Message")];
        assert(string_views(headers@) =~= seq!["JobID"@, "Message"@]);
        out.push(Block { accent, lines: wrapped_table(title, Some(note), &headers, widths, rows) });
        if gap_after {
            out.push(gap());
        }
    }
    assert(block_views(out@) =~= start + result_group(accent, title@, note@, rows_view(rows@), widths@, gap_after));
}

/// The body of the cancel result dialog, `width` characters wide.
pub fn cancel_result_panel(report: &CancelReport, width: usize) -> (r: Vec<Block>)
    ensures
        block_views(r@) == cancel_result_panel_of(*report, width as nat),
{
    let summary = cancel_result_fields(report);
    let widths = vec![8usize, if width >= 13 { width - 13 } else { 0 }];
    assert(widths@ =~= result_widths(width as nat));
    proof {
        reveal_with_fuel(widths_sum, 3);
    }
    let mut r: Vec<Block> = Vec::new();
    r.push(Block { accent: Accent::Summary, lines: kv_box("Result Summary", &summary, width, false) });
    r.push(gap());
    let succeeded = outcome_rows_exec(&report.results, 0);
    let failed = outcome_rows_exec(&report.results, 1);
    let skipped = outcome_rows_exec(&report.results, 2);
    push_group(&mut r, Accent::Succeeded, "Succeeded", "These jobs were cancelled successfully.", &succeeded, &widths, true);
    push_group(
        &mut r,
        Accent::Failed,
        "Failed",
        "These jobs were not cancelled because scancel failed.",
        &failed,
        &widths,
        true,
    );
    push_group(&mut r, Accent::Skipped, "Skipped", "These jobs were intentionally left untouched.", &skipped, &widths, false);
    r
}

/// The colour of the result dialog's frame: failures first, then skips,
/// else success.
pub open spec fn result_accent_of(counts: (nat, nat, nat)) -> Accent {
    if counts.1 > 0 {
        Accent::Failed
    } else if counts.2 > 0 {
        Accent::Skipped
    } else {
        Accent::Succeeded
    }
}

pub fn result_accent(report: &CancelReport) -> (a: Accent)
    ensures
        a == result_accent_of(outcome_counts(report.results@)),
{
    let (_, failed, skipped) = count_outcomes(&report.results);
    if failed > 0 {
        Accent::Failed
    } else if skipped > 0 {
        Accent::Skipped
    } else {
        Accent::Succeeded
    }
}

} // verus!
