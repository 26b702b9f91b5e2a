//! The text the screens are drawn from: wrapped and padded cells, column
//! windows, scroll positions, bars and resource footprints, and the colour
//! slot of a partition.
use vstd::prelude::*;

use crate::model::types::{
    add_usage, capacity_of, round_half_even, round_half_even_exec, string_views, usage_fits,
    used_for_pressure_of, JobRecord, MetricMode, PartitionOverview, PartitionView,
};
use crate::model::aggregate::opt_u32_or_zero;
use crate::model::users::UserUsage;
use crate::text::{
    append, append_str, ascii_upper, ascii_upper_exec, chars_of, contains_str, contains_sub, dec,
    push_dec, split_exec, split_on, string_of, views,
};

verus! {

/// The width of one segment of the resource footprint column.
pub const RESOURCE_SEGMENT_WIDTH: usize = 32;

/// The width of one segment of the job name column.
pub const NAME_SEGMENT_WIDTH: usize = 36;

/// The width of one segment of the partition column.
pub const PARTITION_SEGMENT_WIDTH: usize = 40;

pub open spec fn min_nat(a: nat, b: nat) -> nat {
    if a <= b {
        a
    } else {
        b
    }
}

pub open spec fn max_nat(a: nat, b: nat) -> nat {
    if a >= b {
        a
    } else {
        b
    }
}

/// `a - b`, or 0 when `b` is larger.
pub open spec fn sat_sub(a: nat, b: nat) -> nat {
    if a >= b {
        (a - b) as nat
    } else {
        0
    }
}

/// Where a scrolled view of `line_count` lines in a box `height` rows high
/// stands: the scroll clamped to the last full page, the line count (at
/// least one), the first and last line shown (counted from one), and the
/// rows inside the border (at least one).
pub open spec fn scroll_metrics_of(line_count: nat, height: nat, scroll: nat) -> (
    nat,
    nat,
    nat,
    nat,
    nat,
) {
    let rows = max_nat(sat_sub(height, 2), 1);
    let total = max_nat(line_count, 1);
    let clamped = min_nat(scroll, sat_sub(total, rows));
    (clamped, total, clamped + 1, min_nat(clamped + rows, total), rows)
}

pub fn scroll_metrics(line_count: usize, height: u16, scroll: usize) -> (r: (
    usize,
    usize,
    usize,
    usize,
    usize,
))
    ensures
        (r.0 as nat, r.1 as nat, r.2 as nat, r.3 as nat, r.4 as nat) == scroll_metrics_of(
            line_count as nat,
            height as nat,
            scroll as nat,
        ),
{
    let visible_rows: usize = if height >= 2 {
        (height - 2) as usize
    } else {
        0
    };
    let rows: usize = if visible_rows >= 1 {
        visible_rows
    } else {
        1
    };
    let total_rows: usize = if line_count >= 1 {
        line_count
    } else {
        1
    };
    let max_scroll: usize = if total_rows >= rows {
        total_rows - rows
    } else {
        0
    };
    let clamped: usize = if scroll <= max_scroll {
        scroll
    } else {
        max_scroll
    };
    let end: usize = if clamped + rows <= total_rows {
        clamped + rows
    } else {
        total_rows
    };
    (clamped, total_rows, clamped + 1, end, rows)
}

/// `s` cut into pieces of `w` characters, the last one possibly shorter;
/// a single empty piece for an empty text.
pub open spec fn chunks(s: Seq<char>, w: nat) -> Seq<Seq<char>>
    decreases s.len(),
{
    if w == 0 || s.len() <= w {
        seq![s]
    } else {
        seq![s.take(w as int)] + chunks(s.skip(w as int), w)
    }
}

fn chunk_chars(v: &Vec<char>, w: usize) -> (out: Vec<Vec<char>>)
    requires
        w >= 1,
    ensures
        views(out@) == chunks(v@, w as nat),
{
    let n = v.len();
    let mut out: Vec<Vec<char>> = Vec::new();
    let mut start: usize = 0;
    assert(v@.skip(0) =~= v@);
    assert(views(out@) + chunks(v@.skip(0), w as nat) =~= chunks(v@, w as nat));
    while n - start > w
        invariant
            start <= n == v@.len(),
            w >= 1,
            views(out@) + chunks(v@.skip(start as int), w as nat) == chunks(v@, w as nat),
        decreases n - start,
    {
        let ghost rest = v@.skip(start as int);
        let piece = crate::text::copy_range(v, start, start + w);
        let ghost before = views(out@);
        out.push(piece);
        assert(rest.take(w as int) =~= piece@);
        assert(rest.skip(w as int) =~= v@.skip(start + w));
        assert(chunks(rest, w as nat) == seq![rest.take(w as int)] + chunks(rest.skip(w as int), w as nat));
        assert(views(out@) =~= before.push(piece@));
        assert(before + chunks(rest, w as nat) =~= views(out@) + chunks(v@.skip(start + w), w as nat));
        start = start + w;
    }
    let last = crate::text::copy_range(v, start, n);
    let ghost before = views(out@);
    out.push(last);
    assert(v@.skip(start as int) =~= last@);
    assert(views(out@) =~= before + chunks(v@.skip(start as int), w as nat));
    out
}

/// The text cut into lines of at most `width` characters (at least one
/// character per line).
pub fn chunk_text(text: &str, width: usize) -> (lines: Vec<String>)
    ensures
        string_views(lines@) == chunks(text@, if width >= 1 { width as nat } else { 1 }),
{
    let w: usize = if width >= 1 {
        width
    } else {
        1
    };
    let v = chars_of(text);
    let cs = chunk_chars(&v, w);
    to_strings(&cs)
}

fn to_strings(v: &Vec<Vec<char>>) -> (out: Vec<String>)
    ensures
        string_views(out@) == views(v@),
{
    let mut out: Vec<String> = Vec::new();
    let mut i: usize = 0;
    while i < v.len()
        invariant
            i <= v@.len(),
            out@.len() == i,
            forall|j: int| 0 <= j < i ==> (#[trigger] out@[j])@ == v@[j]@,
        decreases v@.len() - i,
    {
        out.push(string_of(&v[i]));
        i = i + 1;
    }
    assert(string_views(out@) =~= views(v@));
    out
}

/// The chunks of each line of `pieces`, one after another.
pub open spec fn wrap_pieces(pieces: Seq<Seq<char>>, w: nat) -> Seq<Seq<char>>
    decreases pieces.len(),
{
    if pieces.len() == 0 {
        Seq::empty()
    } else {
        wrap_pieces(pieces.drop_last(), w) + chunks(pieces.last(), w)
    }
}

/// The text split at its newlines, each line cut into pieces of at most
/// `width` characters.
pub fn wrap_text(text: &str, width: usize) -> (lines: Vec<String>)
    ensures
        string_views(lines@) == wrap_pieces(
            split_on(text@, '\n'),
            if width >= 1 { width as nat } else { 1 },
        ),
{
    let w: usize = if width >= 1 {
        width
    } else {
        1
    };
    let v = chars_of(text);
    let pieces = split_exec(&v, '\n');
    let mut out: Vec<Vec<char>> = Vec::new();
    let mut i: usize = 0;
    while i < pieces.len()
        invariant
            i <= pieces@.len(),
            w >= 1,
            views(pieces@) == split_on(v@, '\n'),
            views(out@) == wrap_pieces(views(pieces@).take(i as int), w as nat),
        decreases pieces@.len() - i,
    {
        let cs = chunk_chars(&pieces[i], w);
        let ghost before = views(out@);
        let mut k: usize = 0;
        while k < cs.len()
            invariant
                k <= cs@.len(),
                views(out@) == before + views(cs@).take(k as int),
            decreases cs@.len() - k,
        {
            let ghost b2 = views(out@);
            out.push(crate::text::copy_range(&cs[k], 0, cs[k].len()));
            assert(cs@[k as int]@.subrange(0, cs@[k as int]@.len() as int) =~= cs@[k as int]@);
            assert(views(cs@).take(k + 1) =~= views(cs@).take(k as int).push(cs@[k as int]@));
            assert(views(out@) =~= b2.push(cs@[k as int]@));
            k = k + 1;
        }
        assert(views(cs@).take(cs@.len() as int) =~= views(cs@));
        let ghost now = views(pieces@).take(i + 1);
        assert(now.drop_last() =~= views(pieces@).take(i as int));
        assert(now.last() == pieces@[i as int]@);
        i = i + 1;
    }
    assert(views(pieces@).take(pieces@.len() as int) =~= views(pieces@));
    to_strings(&out)
}

/// `n` copies of `c`.
pub open spec fn repeat_char(c: char, n: nat) -> Seq<char> {
    Seq::new(n, |i: int| c)
}

fn push_repeat(out: &mut Vec<char>, c: char, n: usize)
    ensures
        final(out)@ == old(out)@ + repeat_char(c, n as nat),
{
    let mut i: usize = 0;
    while i < n
        invariant
            i <= n,
            out@ == old(out)@ + repeat_char(c, i as nat),
        decreases n - i,
    {
        out.push(c);
        i = i + 1;
        assert(out@ =~= old(out)@ + repeat_char(c, i as nat));
    }
}

/// The text cut or filled with spaces to exactly `width` characters.
pub open spec fn padded(s: Seq<char>, width: nat) -> Seq<char> {
    if s.len() >= width {
        s.take(width as int)
    } else {
        s + repeat_char(' ', (width - s.len()) as nat)
    }
}

pub fn pad_right(text: &str, width: usize) -> (s: String)
    ensures
        s@ == padded(text@, width as nat),
{
    let v = chars_of(text);
    if v.len() >= width {
        let t = crate::text::copy_range(&v, 0, width);
        assert(t@ =~= v@.take(width as int));
        string_of(&t)
    } else {
        let mut t = crate::text::copy_range(&v, 0, v.len());
        assert(t@ =~= v@);
        push_repeat(&mut t, ' ', width - v.len());
        string_of(&t)
    }
}

/// The first `width` characters of `s`, or all of them.
pub open spec fn truncated(s: Seq<char>, width: nat) -> Seq<char> {
    if s.len() > width {
        s.take(width as int)
    } else {
        s
    }
}

pub fn truncate_chars(text: &str, width: usize) -> (s: String)
    ensures
        s@ == truncated(text@, width as nat),
{
    let v = chars_of(text);
    let end = if v.len() > width {
        width
    } else {
        v.len()
    };
    let t = crate::text::copy_range(&v, 0, end);
    assert(t@ =~= truncated(v@, width as nat));
    string_of(&t)
}

/// Whether a cancel result message tells of a job that was skipped or
/// refused, ignoring ASCII case.
pub open spec fn skipped_message(m: Seq<char>) -> bool {
    let u = ascii_upper(m);
    contains_sub(u, "SKIP"@) || contains_sub(u, "NOT ALLOWED"@) || contains_sub(u, "DENIED"@)
}

pub fn is_skipped_message(message: &str) -> (b: bool)
    ensures
        b == skipped_message(message@),
{
    let v = chars_of(message);
    let u = ascii_upper_exec(&v);
    contains_str(&u, "SKIP") || contains_str(&u, "NOT ALLOWED") || contains_str(&u, "DENIED")
}

/// How a job or node state is coloured.
#[derive(Debug, Clone, Copy, PartialEq, Eq, Structural)]
pub enum StateTone {
    Running,
    Pending,
    Danger,
    Plain,
}

/// Running, completing or configuring states are running; pending ones
/// pending; failed, cancelled, timed out or down ones dangerous (ASCII
/// case ignored).
pub open spec fn state_tone_of(state: Seq<char>) -> StateTone {
    let u = ascii_upper(state);
    if contains_sub(u, "RUN"@) || contains_sub(u, "COMPLETING"@) || contains_sub(u, "CONFIGURING"@) {
        StateTone::Running
    } else if contains_sub(u, "PEND"@) {
        StateTone::Pending
    } else if contains_sub(u, "FAIL"@) || contains_sub(u, "CANCEL"@) || contains_sub(u, "TIMEOUT"@)
        || contains_sub(u, "DOWN"@) {
        StateTone::Danger
    } else {
        StateTone::Plain
    }
}

pub fn state_tone(state: &str) -> (t: StateTone)
    ensures
        t == state_tone_of(state@),
{
    let v = chars_of(state);
    let u = ascii_upper_exec(&v);
    if contains_str(&u, "RUN") || contains_str(&u, "COMPLETING") || contains_str(&u, "CONFIGURING") {
        StateTone::Running
    } else if contains_str(&u, "PEND") {
        StateTone::Pending
    } else if contains_str(&u, "FAIL") || contains_str(&u, "CANCEL") || contains_str(&u, "TIMEOUT")
        || contains_str(&u, "DOWN") {
        StateTone::Danger
    } else {
        StateTone::Plain
    }
}

/// What one cell of a trend chart shows: both series, one of them, or
/// neither.
#[derive(Debug, Clone, Copy, PartialEq, Eq, Structural)]
pub enum TrendMark {
    Both,
    Running,
    Pending,
    Empty,
}

pub open spec fn mark_of(run: bool, pend: bool) -> TrendMark {
    if run && pend {
        TrendMark::Both
    } else if run {
        TrendMark::Running
    } else if pend {
        TrendMark::Pending
    } else {
        TrendMark::Empty
    }
}

pub open spec fn u64_nats(s: Seq<u64>) -> Seq<nat> {
    s.map_values(|v: u64| v as nat)
}

/// The chart of the last `width` samples (at least 2) in `height` rows (at
/// least 3), top row first: a cell shows a series when that sample's bar,
/// scaled to the largest sample of both series, reaches the cell's row.
pub open spec fn trend_grid_of(running: Seq<u64>, pending: Seq<u64>, width: nat, height: nat) -> Seq<Seq<TrendMark>> {
    let h = max_nat(height, 3);
    let w = max_nat(width, 2);
    let run = tail_of(running, w);
    let pend = tail_of(pending, w);
    let m = max_nat(seq_max(u64_nats(run + pend), 1), 1);
    Seq::new(
        h,
        |row: int|
            Seq::new(
                w,
                |col: int|
                    mark_of(
                        bar_cells(run[col] as nat, m, h) >= h - row,
                        bar_cells(pend[col] as nat, m, h) >= h - row,
                    ),
            ),
    )
}

pub open spec fn grid_view(g: Seq<Vec<TrendMark>>) -> Seq<Seq<TrendMark>> {
    g.map_values(|r: Vec<TrendMark>| r@)
}

/// The largest value, or 1 when there are none or all are 0.
fn max_or_one(values: &Vec<u64>) -> (m: u64)
    ensures
        m as nat == max_nat(seq_max(u64_nats(values@), 1), 1),
{
    let ghost s = u64_nats(values@);
    if values.len() == 0 {
        return 1;
    }
    let mut mx: u64 = values[0];
    assert(s.take(1).drop_last() =~= Seq::<nat>::empty());
    assert(seq_max(s.take(1), 1) == s[0]);
    let mut i: usize = 1;
    while i < values.len()
        invariant
            1 <= i <= values@.len(),
            s == u64_nats(values@),
            mx as nat == seq_max(s.take(i as int), 1),
        decreases values@.len() - i,
    {
        assert(s.take(i + 1).drop_last() =~= s.take(i as int));
        assert(s.take(i + 1).last() == values@[i as int] as nat);
        if values[i] > mx {
            mx = values[i];
        }
        i = i + 1;
    }
    assert(s.take(values@.len() as int) =~= s);
    if mx >= 1 {
        mx
    } else {
        1
    }
}

/// The trend chart of two series as rows of marks.
pub fn trend_grid(running: &Vec<u64>, pending: &Vec<u64>, width: usize, height: usize) -> (g: Vec<Vec<TrendMark>>)
    ensures
        grid_view(g@) == trend_grid_of(running@, pending@, width as nat, height as nat),
{
    let h: usize = if height > 3 {
        height
    } else {
        3
    };
    let w: usize = if width > 2 {
        width
    } else {
        2
    };
    let run = tail_sample(running, w);
    let pend = tail_sample(pending, w);
    let mut all: Vec<u64> = Vec::new();
    let mut k: usize = 0;
    while k < run.len()
        invariant
            k <= run@.len(),
            all@ == run@.take(k as int),
        decreases run@.len() - k,
    {
        all.push(run[k]);
        k = k + 1;
        assert(all@ =~= run@.take(k as int));
    }
    assert(run@.take(run@.len() as int) =~= run@);
    let mut k: usize = 0;
    while k < pend.len()
        invariant
            k <= pend@.len(),
            all@ == run@ + pend@.take(k as int),
        decreases pend@.len() - k,
    {
        all.push(pend[k]);
        k = k + 1;
        assert(all@ =~= run@ + pend@.take(k as int));
    }
    assert(pend@.take(pend@.len() as int) =~= pend@);
    let m = max_or_one(&all);
    let ghost spec_grid = trend_grid_of(running@, pending@, width as nat, height as nat);
    assert(run@.len() == w && pend@.len() == w);
    let mut g: Vec<Vec<TrendMark>> = Vec::new();
    let mut row: usize = 0;
    while row < h
        invariant
            row <= h,
            h as nat == max_nat(height as nat, 3),
            w as nat == max_nat(width as nat, 2),
            run@ == tail_of(running@, w as nat),
            pend@ == tail_of(pending@, w as nat),
            run@.len() == w,
            pend@.len() == w,
            m as nat == max_nat(seq_max(u64_nats(run@ + pend@), 1), 1),
            spec_grid == trend_grid_of(running@, pending@, width as nat, height as nat),
            grid_view(g@) == spec_grid.take(row as int),
        decreases h - row,
    {
        let threshold = h - row;
        let mut line: Vec<TrendMark> = Vec::new();
        let mut col: usize = 0;
        while col < w
            invariant
                col <= w,
                row < h,
                threshold == h - row,
                h as nat == max_nat(height as nat, 3),
                w as nat == max_nat(width as nat, 2),
                run@ == tail_of(running@, w as nat),
                pend@ == tail_of(pending@, w as nat),
                run@.len() == w,
                pend@.len() == w,
                m as nat == max_nat(seq_max(u64_nats(run@ + pend@), 1), 1),
                spec_grid == trend_grid_of(running@, pending@, width as nat, height as nat),
                line@ == spec_grid[row as int].take(col as int),
            decreases w - col,
        {
            let a = scaled_level(run[col], m, h);
            let b = scaled_level(pend[col], m, h);
            let mark = if a >= threshold && b >= threshold {
                TrendMark::Both
            } else if a >= threshold {
                TrendMark::Running
            } else if b >= threshold {
                TrendMark::Pending
            } else {
                TrendMark::Empty
            };
            line.push(mark);
            col = col + 1;
            assert(line@ =~= spec_grid[row as int].take(col as int));
        }
        assert(spec_grid[row as int].take(w as int) =~= spec_grid[row as int]);
        let ghost before = grid_view(g@);
        g.push(line);
        assert(grid_view(g@) =~= before.push(spec_grid[row as int]));
        row = row + 1;
        assert(spec_grid.take(row as int) =~= spec_grid.take(row - 1).push(spec_grid[row - 1]));
    }
    assert(spec_grid.take(h as int) =~= spec_grid);
    g
}

/// How full a pressure bar is: at least 85% is critical, at least 60%
/// high.
#[derive(Debug, Clone, Copy, PartialEq, Eq, Structural)]
pub enum Band {
    Critical,
    High,
    Normal,
}

/// The band of `used` over `capacity` (at least 1), compared exactly.
pub open spec fn band_of(used: nat, capacity: nat) -> Band {
    let c = max_nat(capacity, 1);
    if 100 * used >= 85 * c {
        Band::Critical
    } else if 100 * used >= 60 * c {
        Band::High
    } else {
        Band::Normal
    }
}

pub fn pressure_band(used: u64, capacity: u64) -> (b: Band)
    ensures
        b == band_of(used as nat, capacity as nat),
{
    let c: u128 = if capacity >= 1 {
        capacity as u128
    } else {
        1
    };
    let u = used as u128;
    if 100 * u >= 85 * c {
        Band::Critical
    } else if 100 * u >= 60 * c {
        Band::High
    } else {
        Band::Normal
    }
}

/// The widths of a bar split between the current user's share and the
/// others', within `width` cells, and the empty rest; without a capacity
/// the bar scales to both shares together.
pub open spec fn stacked_widths_of(mine: nat, other: nat, capacity: Option<nat>, width: nat) -> (nat, nat, nat) {
    let c = max_nat(
        match capacity {
            Some(c) => c,
            None => max_nat(mine + other, 1),
        },
        1,
    );
    let m = bar_cells(mine, c, width);
    let o = min_nat(bar_cells(other, c, width), (width - m) as nat);
    (m, o, (width - m - o) as nat)
}

pub fn stacked_widths(mine: u64, other: u64, capacity: Option<u64>, width: usize) -> (r: (usize, usize, usize))
    requires
        capacity is None ==> mine + other <= u64::MAX,
    ensures
        (r.0 as nat, r.1 as nat, r.2 as nat) == stacked_widths_of(
            mine as nat,
            other as nat,
            match capacity {
                Some(c) => Some(c as nat),
                None => None,
            },
            width as nat,
        ),
{
    let c = match capacity {
        Some(c) => c,
        None => if mine + other >= 1 {
            mine + other
        } else {
            1
        },
    };
    let m = scaled_bar_width(mine, c, width);
    let o_full = scaled_bar_width(other, c, width);
    let room = width - m;
    let o = if o_full < room {
        o_full
    } else {
        room
    };
    (m, o, width - m - o)
}

/// How a job row is coloured.
#[derive(Debug, Clone, Copy, PartialEq, Eq, Structural)]
pub enum JobTone {
    MineRunning,
    Running,
    MinePending,
    Pending,
    Failed,
    Mine,
    Other,
}

/// Running and pending (or configuring) jobs by owner, failed, timed out
/// and cancelled ones, and the rest by owner.
pub open spec fn job_tone_of(state: Seq<char>, is_mine: bool) -> JobTone {
    if state == "RUNNING"@ {
        if is_mine {
            JobTone::MineRunning
        } else {
            JobTone::Running
        }
    } else if state == "PENDING"@ || state == "CONFIGURING"@ {
        if is_mine {
            JobTone::MinePending
        } else {
            JobTone::Pending
        }
    } else if state == "FAILED"@ || state == "TIMEOUT"@ || state == "CANCELLED"@ {
        JobTone::Failed
    } else if is_mine {
        JobTone::Mine
    } else {
        JobTone::Other
    }
}

pub fn job_tone(job: &JobRecord) -> (t: JobTone)
    ensures
        t == job_tone_of(job@.state, job.is_mine),
{
    let s = chars_of(job.state.as_str());
    if crate::text::eq_str(&s, "RUNNING") {
        if job.is_mine {
            JobTone::MineRunning
        } else {
            JobTone::Running
        }
    } else if crate::text::eq_str(&s, "PENDING") || crate::text::eq_str(&s, "CONFIGURING") {
        if job.is_mine {
            JobTone::MinePending
        } else {
            JobTone::Pending
        }
    } else if crate::text::eq_str(&s, "FAILED") || crate::text::eq_str(&s, "TIMEOUT") || crate::text::eq_str(
        &s,
        "CANCELLED",
    ) {
        JobTone::Failed
    } else if job.is_mine {
        JobTone::Mine
    } else {
        JobTone::Other
    }
}

/// A partition that is down or has down nodes is dangerous; one with
/// draining nodes, or with at least 80% of its nodes busy, a warning.
pub open spec fn partition_tone_of(p: PartitionView) -> StateTone {
    if contains_sub(ascii_upper(p.state), "DOWN"@) || p.node_state_counts.dom().contains("down"@) {
        StateTone::Danger
    } else if p.node_state_counts.dom().contains("drain"@) {
        StateTone::Pending
    } else if match capacity_of(p, MetricMode::Nodes) {
        Some(c) => 10 * used_for_pressure_of(p, MetricMode::Nodes) >= 8 * c,
        None => false,
    } {
        StateTone::Pending
    } else {
        StateTone::Plain
    }
}

pub fn partition_tone(p: &PartitionOverview) -> (t: StateTone)
    requires
        p.wf(),
        usage_fits(add_usage(p.mine@, p.others@)),
    ensures
        t == partition_tone_of(p@),
{
    let st = chars_of(p.state.as_str());
    let up = ascii_upper_exec(&st);
    proof {
        reveal_strlit("down");
        reveal_strlit("drain");
    }
    if contains_str(&up, "DOWN") || p.node_state_counts.get_str("down").is_some() {
        StateTone::Danger
    } else if p.node_state_counts.get_str("drain").is_some() {
        StateTone::Pending
    } else {
        match p.capacity_for(MetricMode::Nodes) {
            Some(c) => {
                let used = p.used_for_pressure(MetricMode::Nodes);
                if 10 * (used as u128) >= 8 * (c as u128) {
                    StateTone::Pending
                } else {
                    StateTone::Plain
                }
            },
            None => StateTone::Plain,
        }
    }
}

/// The right-hand corner that closes a box line begun with `left`.
pub fn right_border_for(left: char) -> (c: char)
    ensures
        c == if left == '├' {
            '┤'
        } else {
            '┘'
        },
{
    if left == '├' {
        '┤'
    } else {
        '┘'
    }
}

/// `a + b`, kept at `u16::MAX` when it would pass it.
pub open spec fn sat_add16(a: u16, b: u16) -> u16 {
    if a + b > u16::MAX {
        u16::MAX
    } else {
        (a + b) as u16
    }
}

/// The columns from `i` on that fit, greedily, after `used` columns'
/// worth of width; the first column is always taken.
pub open spec fn fitting_columns(widths: Seq<u16>, avail: u16, i: nat, used: u16, first: bool) -> Seq<
    nat,
>
    decreases widths.len() - i,
{
    if i >= widths.len() {
        Seq::empty()
    } else if !first && sat_add16(used, widths[i as int]) > avail {
        Seq::empty()
    } else {
        seq![i] + fitting_columns(widths, avail, i + 1, sat_add16(used, widths[i as int]), false)
    }
}

/// The columns shown of a table scrolled `offset` columns to the right in
/// `avail` cells: as many as fit from the offset (at least one), and how
/// many are hidden on each side.
pub open spec fn visible_columns_of(widths: Seq<u16>, avail: u16, offset: nat) -> (
    Seq<nat>,
    nat,
    nat,
) {
    let start = min_nat(offset, widths.len());
    let taken = fitting_columns(widths, avail, start, 0, true);
    let shown = if taken.len() == 0 && widths.len() > 0 {
        seq![min_nat(offset, (widths.len() - 1) as nat)]
    } else {
        taken
    };
    let hidden_right = if shown.len() > 0 {
        sat_sub(widths.len(), shown.last() + 1)
    } else {
        widths.len()
    };
    (shown, start, hidden_right)
}

proof fn lemma_fitting_bounds(widths: Seq<u16>, avail: u16, i: nat, used: u16, first: bool)
    ensures
        forall|k: int|
            0 <= k < fitting_columns(widths, avail, i, used, first).len() ==> #[trigger] fitting_columns(
                widths,
                avail,
                i,
                used,
                first,
            )[k] == i + k && i + k < widths.len(),
        fitting_columns(widths, avail, i, used, first).len() <= sat_sub(widths.len(), i),
    decreases widths.len() - i,
{
    if i < widths.len() {
        lemma_fitting_bounds(widths, avail, i + 1, sat_add16(used, widths[i as int]), false);
    }
}

pub open spec fn usize_view(v: Seq<usize>) -> Seq<nat> {
    v.map_values(|x: usize| x as nat)
}

pub fn visible_column_indices(widths: &Vec<u16>, available_width: u16, offset: usize) -> (r: (
    Vec<usize>,
    usize,
    usize,
))
    ensures
        (usize_view(r.0@), r.1 as nat, r.2 as nat) == visible_columns_of(
            widths@,
            available_width,
            offset as nat,
        ),
{
    let n = widths.len();
    let start: usize = if offset <= n {
        offset
    } else {
        n
    };
    let mut used: u16 = 0;
    let mut indices: Vec<usize> = Vec::new();
    let mut index = start;
    let ghost total = fitting_columns(widths@, available_width, start as nat, 0, true);
    proof {
        lemma_fitting_bounds(widths@, available_width, start as nat, 0, true);
    }
    while index < n
        invariant
            start <= index <= n == widths@.len(),
            usize_view(indices@) + fitting_columns(
                widths@,
                available_width,
                index as nat,
                used,
                indices@.len() == 0,
            ) == total,
            indices@.len() == index - start,
        ensures
            usize_view(indices@) == total,
        decreases n - index,
    {
        let width = widths[index];
        let next: u16 = if used as u32 + width as u32 > 65535 {
            65535
        } else {
            used + width
        };
        assert(next == sat_add16(used, width));
        let ghost first = indices@.len() == 0;
        if indices.len() > 0 && next > available_width {
            assert(fitting_columns(widths@, available_width, index as nat, used, first)
                =~= Seq::<nat>::empty());
            assert(usize_view(indices@) =~= total);
            break;
        }
        let ghost before = usize_view(indices@);
        let ghost old_used = used;
        assert(fitting_columns(widths@, available_width, index as nat, old_used, first) =~= seq![
            index as nat,
        ] + fitting_columns(widths@, available_width, (index + 1) as nat, next, false));
        used = next;
        indices.push(index);
        assert(usize_view(indices@) =~= before.push(index as nat));
        assert(before + (seq![index as nat] + fitting_columns(
            widths@,
            available_width,
            (index + 1) as nat,
            next,
            false,
        )) =~= before.push(index as nat) + fitting_columns(
            widths@,
            available_width,
            (index + 1) as nat,
            next,
            false,
        ));
        index = index + 1;
    }
    if indices.len() == 0 && n > 0 {
        let first: usize = if offset <= n - 1 {
            offset
        } else {
            n - 1
        };
        indices.push(first);
    }
    let hidden_right: usize = if indices.len() > 0 {
        let last = indices[indices.len() - 1];
        if last < n {
            n - last - 1
        } else {
            0
        }
    } else {
        n
    };
    let r = (indices, start, hidden_right);
    assert(usize_view(r.0@) =~= visible_columns_of(widths@, available_width, offset as nat).0);
    r
}

/// `x` kept between `lo` and `hi`.
pub open spec fn clamp_nat(x: nat, lo: nat, hi: nat) -> nat {
    if x < lo {
        lo
    } else if x > hi {
        hi
    } else {
        x
    }
}

/// The width of a segment: the preferred width, no wider than the area
/// less six cells (but never below `minimum`), and at least `minimum`.
/// `minimum` is taken modulo 2^16 where it bounds the area, as a cast to
/// `u16` does.
pub open spec fn segment_width_of(area_width: nat, preferred: nat, minimum: nat) -> nat {
    let usable = max_nat(sat_sub(area_width, 6), minimum % 65536);
    max_nat(min_nat(preferred, usable), minimum)
}

pub fn adaptive_segment_width(area_width: u16, preferred: usize, minimum: usize) -> (w: usize)
    ensures
        w as nat == segment_width_of(area_width as nat, preferred as nat, minimum as nat),
{
    let narrowed: u16 = if area_width >= 6 {
        area_width - 6
    } else {
        0
    };
    let min16: u16 = (minimum % 65536) as u16;
    let usable: usize = if narrowed >= min16 {
        narrowed as usize
    } else {
        min16 as usize
    };
    let p = if preferred <= usable {
        preferred
    } else {
        usable
    };
    if p >= minimum {
        p
    } else {
        minimum
    }
}

/// The longest text's length in characters, or `fallback` for no texts.
pub open spec fn longest(values: Seq<Seq<char>>, fallback: nat) -> nat
    decreases values.len(),
{
    if values.len() == 0 {
        fallback
    } else if values.len() == 1 {
        values[0].len()
    } else {
        max_nat(longest(values.drop_last(), fallback), values.last().len())
    }
}

pub(crate) fn longest_exec(values: &Vec<String>, fallback: usize) -> (n: usize)
    ensures
        n as nat == longest(string_views(values@), fallback as nat),
{
    let ghost sv = string_views(values@);
    let mut best: usize = fallback;
    let mut i: usize = 0;
    while i < values.len()
        invariant
            i <= values@.len(),
            sv == string_views(values@),
            best as nat == longest(sv.take(i as int), fallback as nat),
        decreases values@.len() - i,
    {
        let c = chars_of(values[i].as_str());
        assert(sv.take(i + 1).drop_last() =~= sv.take(i as int));
        if i == 0 || c.len() > best {
            best = c.len();
        }
        i = i + 1;
    }
    assert(sv.take(values@.len() as int) =~= sv);
    best
}

/// The width of a text column: its longest text kept between `minimum`
/// and `maximum`, narrowed to the area as `adaptive_segment_width` does,
/// and cut to 16 bits.
pub fn adaptive_text_width(
    values: &Vec<String>,
    area_width: u16,
    minimum: usize,
    maximum: usize,
    fallback: usize,
) -> (w: u16)
    requires
        minimum <= maximum,
    ensures
        w as nat == segment_width_of(
            area_width as nat,
            clamp_nat(longest(string_views(values@), fallback as nat), minimum as nat, maximum as nat),
            minimum as nat,
        ) % 65536,
{
    let l = longest_exec(values, fallback);
    let preferred = if l < minimum {
        minimum
    } else if l > maximum {
        maximum
    } else {
        l
    };
    let w = adaptive_segment_width(area_width, preferred, minimum);
    (w % 65536) as u16
}

/// `a / b` rounded up.
pub open spec fn div_ceil(a: nat, b: nat) -> nat {
    ((a + b - 1) as nat / b) as nat
}

/// How many segments of `segment_width` the longest text needs (at least
/// one).
pub open spec fn segments_needed(values: Seq<Seq<char>>, segment_width: nat) -> nat
    decreases values.len(),
{
    if values.len() == 0 {
        1
    } else {
        max_nat(
            segments_needed(values.drop_last(), segment_width),
            div_ceil(max_nat(values.last().len(), 1), segment_width),
        )
    }
}

pub fn max_segments(values: &Vec<String>, segment_width: usize) -> (n: usize)
    requires
        segment_width > 0,
    ensures
        n as nat == segments_needed(string_views(values@), segment_width as nat),
{
    let ghost sv = string_views(values@);
    let mut best: usize = 1;
    let mut i: usize = 0;
    while i < values.len()
        invariant
            i <= values@.len(),
            segment_width > 0,
            sv == string_views(values@),
            best as nat == segments_needed(sv.take(i as int), segment_width as nat),
        decreases values@.len() - i,
    {
        let c = chars_of(values[i].as_str());
        let len: usize = if c.len() >= 1 {
            c.len()
        } else {
            1
        };
        let q = len / segment_width;
        if len % segment_width != 0 {
            assert(q < len) by (nonlinear_arith)
                requires
                    segment_width > 0,
                    len >= 1,
                    q == len / segment_width,
                    len % segment_width != 0,
            ;
        }
        let segs = if len % segment_width == 0 {
            q
        } else {
            q + 1
        };
        proof {
            let a = len as int;
            let b = segment_width as int;
            assert(segs as int == (a + b - 1) / b) by (nonlinear_arith)
                requires
                    b > 0,
                    a >= 1,
                    q == a / b,
                    segs as int == if a % b == 0 { q as int } else { q + 1 },
            ;
        }
        assert(sv.take(i + 1).drop_last() =~= sv.take(i as int));
        if segs > best {
            best = segs;
        }
        i = i + 1;
    }
    assert(sv.take(values@.len() as int) =~= sv);
    best
}

/// The `segment`-th piece of `width` characters of the text.
pub open spec fn segment_of(s: Seq<char>, segment: nat, width: nat) -> Seq<char> {
    truncated(s.skip(min_nat(segment * width, s.len()) as int), width)
}

pub fn segment_text(text: &str, segment: usize, width: usize) -> (s: String)
    ensures
        s@ == segment_of(text@, segment as nat, width as nat),
{
    let v = chars_of(text);
    let len = v.len();
    let start = if width == 0 {
        0
    } else if segment <= len / width {
        assert(segment * width <= len) by (nonlinear_arith)
            requires
                width > 0,
                segment <= len / width,
        ;
        segment * width
    } else {
        assert(segment * width > len) by (nonlinear_arith)
            requires
                width > 0,
                segment > len / width,
        ;
        len
    };
    let end = if v.len() - start > width {
        start + width
    } else {
        v.len()
    };
    let t = crate::text::copy_range(&v, start, end);
    assert(t@ =~= segment_of(v@, segment as nat, width as nat));
    string_of(&t)
}

/// The title of a table, with the counts of columns hidden on each side
/// when there are any.
pub open spec fn wide_title_of(base: Seq<char>, left: nat, right: nat) -> Seq<char> {
    if left == 0 && right == 0 {
        base
    } else {
        base + "  ← "@ + dec(left) + " hidden  "@ + dec(right) + " hidden →"@
    }
}

pub fn wide_table_title(base: &str, hidden_left: usize, hidden_right: usize) -> (s: String)
    ensures
        s@ == wide_title_of(base@, hidden_left as nat, hidden_right as nat),
{
    let mut v = chars_of(base);
    if hidden_left != 0 || hidden_right != 0 {
        append_str(&mut v, "  ← ");
        push_dec(&mut v, hidden_left as u64);
        append_str(&mut v, " hidden  ");
        push_dec(&mut v, hidden_right as u64);
        append_str(&mut v, " hidden →");
    }
    string_of(&v)
}

/// The last `width` values, padded on the left with zeros to `width`.
pub open spec fn tail_of(values: Seq<u64>, width: nat) -> Seq<u64> {
    if values.len() >= width {
        values.skip(values.len() - width)
    } else {
        Seq::new((width - values.len()) as nat, |i: int| 0u64) + values
    }
}

pub fn tail_sample(values: &Vec<u64>, width: usize) -> (r: Vec<u64>)
    ensures
        r@ == tail_of(values@, width as nat),
{
    let n = values.len();
    let mut r: Vec<u64> = Vec::new();
    if n >= width {
        let mut i = n - width;
        while i < n
            invariant
                width <= n,
                n - width <= i <= n == values@.len(),
                r@ == values@.subrange(n - width, i as int),
            decreases n - i,
        {
            let ghost before = r@;
            r.push(values[i]);
            assert(r@ =~= values@.subrange(n - width, i + 1));
            i = i + 1;
        }
        assert(r@ =~= tail_of(values@, width as nat));
    } else {
        let pad = width - n;
        let mut k: usize = 0;
        while k < pad
            invariant
                k <= pad,
                r@ == Seq::new(k as nat, |i: int| 0u64),
            decreases pad - k,
        {
            r.push(0);
            k = k + 1;
            assert(r@ =~= Seq::new(k as nat, |i: int| 0u64));
        }
        let mut i: usize = 0;
        while i < n
            invariant
                i <= n == values@.len(),
                r@ == Seq::new(pad as nat, |j: int| 0u64) + values@.take(i as int),
            decreases n - i,
        {
            r.push(values[i]);
            i = i + 1;
            assert(r@ =~= Seq::new(pad as nat, |j: int| 0u64) + values@.take(i as int));
        }
        assert(values@.take(n as int) =~= values@);
    }
    r
}

/// `value / capacity` of `width` cells, rounded half away from zero and at
/// most `width`; a capacity of 0 counts as 1.
pub open spec fn bar_cells(value: nat, capacity: nat, width: nat) -> nat {
    let c = max_nat(capacity, 1);
    let t = value * width;
    let rounded = if 2 * (t % c) >= c {
        t / c + 1
    } else {
        t / c
    };
    min_nat(rounded as nat, width)
}

/// The filled cells of a bar `width` cells long for `value` out of
/// `capacity`, computed exactly.
pub fn scaled_bar_width(value: u64, capacity: u64, width: usize) -> (w: usize)
    ensures
        w as nat == bar_cells(value as nat, capacity as nat, width as nat),
{
    let c: u128 = if capacity >= 1 {
        capacity as u128
    } else {
        1
    };
    let v = value as u128;
    let wd = width as u128;
    assert(v * wd <= 0xffff_ffff_ffff_ffff * 0xffff_ffff_ffff_ffff) by (nonlinear_arith)
        requires
            v <= 0xffff_ffff_ffff_ffff,
            wd <= 0xffff_ffff_ffff_ffff,
    ;
    let t = v * wd;
    let q = t / c;
    let r = t % c;
    let rounded = if 2 * r >= c {
        q + 1
    } else {
        q
    };
    assert(q <= t) by (nonlinear_arith)
        requires
            c >= 1,
            q == t / c,
    ;
    if rounded < wd {
        rounded as usize
    } else {
        width
    }
}

/// The height of a trend column for `value` against `max_value`, as
/// `scaled_bar_width` computes it.
pub fn scaled_level(value: u64, max_value: u64, height: usize) -> (h: usize)
    ensures
        h as nat == bar_cells(value as nat, max_value as nat, height as nat),
{
    scaled_bar_width(value, max_value, height)
}

/// How many characters the decimal form of `value` takes (at least one).
pub open spec fn digit_count(value: nat) -> nat {
    dec(max_nat(value, 1)).len()
}

pub fn digit_width(value: u32) -> (n: usize)
    ensures
        n as nat == digit_count(value as nat),
{
    let mut v: Vec<char> = Vec::new();
    push_dec(&mut v, if value >= 1 { value as u64 } else { 1 });
    v.len()
}

/// `s` followed by spaces up to `width` characters; never cut.
pub open spec fn left_aligned(s: Seq<char>, width: nat) -> Seq<char> {
    if s.len() >= width {
        s
    } else {
        s + repeat_char(' ', (width - s.len()) as nat)
    }
}

/// `s` preceded by spaces up to `width` characters; never cut.
pub open spec fn right_aligned(s: Seq<char>, width: nat) -> Seq<char> {
    if s.len() >= width {
        s
    } else {
        repeat_char(' ', (width - s.len()) as nat) + s
    }
}

/// A bar of `width` cells for `value` out of `max_value`, then the value
/// right-aligned to `digits` characters.
pub open spec fn metric_bar_of(value: nat, max_value: nat, width: nat, digits: nat) -> Seq<char> {
    let filled = bar_cells(value, max_nat(max_value, 1), width);
    "["@ + repeat_char('█', filled) + repeat_char('·', sat_sub(width, filled)) + "] "@
        + right_aligned(dec(value), digits)
}

/// A labelled bar, or `[n/a]` when the value is unknown.
pub open spec fn metric_segment_of(
    label: Seq<char>,
    value: Option<u32>,
    max_value: nat,
    digits: nat,
    width: nat,
) -> Seq<char> {
    left_aligned(label, 4) + " "@ + match value {
        Some(v) => metric_bar_of(v as nat, max_value, width, digits),
        None => "[n/a]"@,
    }
}

fn push_aligned_right(out: &mut Vec<char>, s: &Vec<char>, width: usize)
    ensures
        final(out)@ == old(out)@ + right_aligned(s@, width as nat),
{
    let len = s.len();
    if len < width {
        push_repeat(out, ' ', width - len);
    }
    append(out, s);
    assert(out@ =~= old(out)@ + right_aligned(s@, width as nat));
}

pub fn metric_bar_text(value: u32, max_value: u32, width: usize, digits: usize) -> (s: String)
    ensures
        s@ == metric_bar_of(value as nat, max_value as nat, width as nat, digits as nat),
{
    let cap: u32 = if max_value >= 1 {
        max_value
    } else {
        1
    };
    let filled = scaled_bar_width(value as u64, cap as u64, width);
    let mut out = chars_of("[");
    push_repeat(&mut out, '█', filled);
    push_repeat(&mut out, '·', width - filled);
    append_str(&mut out, "] ");
    let mut num: Vec<char> = Vec::new();
    push_dec(&mut num, value as u64);
    push_aligned_right(&mut out, &num, digits);
    string_of(&out)
}

/// A bar of `width` cells for `value` against `scale`, then the value
/// right-aligned to the digits of `scale`.
pub fn metric_value_text(value: u64, scale: u64, width: usize) -> (s: String)
    ensures
        s@ == metric_bar_of(value as nat, scale as nat, width as nat, digit_count(scale as nat)),
{
    let cap: u64 = if scale >= 1 {
        scale
    } else {
        1
    };
    let mut digits: Vec<char> = Vec::new();
    push_dec(&mut digits, cap);
    let filled = scaled_bar_width(value, cap, width);
    let mut out = chars_of("[");
    push_repeat(&mut out, '█', filled);
    push_repeat(&mut out, '·', width - filled);
    append_str(&mut out, "] ");
    let mut num: Vec<char> = Vec::new();
    push_dec(&mut num, value);
    push_aligned_right(&mut out, &num, digits.len());
    string_of(&out)
}

pub fn metric_segment_text(
    label: &str,
    value: Option<u32>,
    max_value: u32,
    digits: usize,
    width: usize,
) -> (s: String)
    ensures
        s@ == metric_segment_of(label@, value, max_value as nat, digits as nat, width as nat),
{
    let mut out = chars_of(label);
    let len = out.len();
    if len < 4 {
        push_repeat(&mut out, ' ', 4 - len);
    }
    append_str(&mut out, " ");
    match value {
        Some(v) => {
            let bar = metric_bar_text(v, max_value, width, digits);
            append_str(&mut out, bar.as_str());
        },
        None => append_str(&mut out, "[n/a]"),
    }
    assert(out@ =~= metric_segment_of(label@, value, max_value as nat, digits as nat, width as nat));
    string_of(&out)
}

/// The largest of the values, or `d` for none.
pub open spec fn seq_max(s: Seq<nat>, d: nat) -> nat
    decreases s.len(),
{
    if s.len() == 0 {
        d
    } else if s.len() == 1 {
        s[0]
    } else {
        max_nat(seq_max(s.drop_last(), d), s.last())
    }
}

/// The largest node, CPU and GPU counts of the jobs shown, each at least
/// one, against which their bars are drawn.
#[derive(Debug, Clone, Copy)]
pub struct JobResourceScale {
    pub max_nodes: u32,
    pub max_cpus: u32,
    pub max_gpus: u32,
}

pub open spec fn job_nodes(jobs: Seq<&JobRecord>) -> Seq<nat> {
    jobs.map_values(|j: &JobRecord| j.nodes as nat)
}

pub open spec fn job_cpus(jobs: Seq<&JobRecord>) -> Seq<nat> {
    jobs.map_values(|j: &JobRecord| opt_u32_or_zero(j.cpus))
}

pub open spec fn job_gpus(jobs: Seq<&JobRecord>) -> Seq<nat> {
    jobs.map_values(|j: &JobRecord| opt_u32_or_zero(j.requested_gpus))
}

pub(crate) fn max_of(values: &Vec<u32>) -> (m: u32)
    ensures
        m as nat == max_nat(seq_max(values@.map_values(|v: u32| v as nat), 1), 1),
{
    let ghost all = values@.map_values(|v: u32| v as nat);
    let mut best: u32 = 1;
    let mut i: usize = 0;
    while i < values.len()
        invariant
            i <= values@.len(),
            all == values@.map_values(|v: u32| v as nat),
            best as nat == if i == 0 { 1 } else { seq_max(all.take(i as int), 1) },
        decreases values@.len() - i,
    {
        assert(all.take(i + 1).drop_last() =~= all.take(i as int));
        if i == 0 || values[i] > best {
            best = values[i];
        }
        i = i + 1;
    }
    assert(all.take(values@.len() as int) =~= all);
    if best >= 1 {
        best
    } else {
        1
    }
}

impl JobResourceScale {
    pub fn from_jobs(jobs: &Vec<&JobRecord>) -> (s: Self)
        ensures
            s.max_nodes as nat == max_nat(seq_max(job_nodes(jobs@), 1), 1),
            s.max_cpus as nat == max_nat(seq_max(job_cpus(jobs@), 1), 1),
            s.max_gpus as nat == max_nat(seq_max(job_gpus(jobs@), 1), 1),
    {
        let mut nodes: Vec<u32> = Vec::new();
        let mut cpus: Vec<u32> = Vec::new();
        let mut gpus: Vec<u32> = Vec::new();
        let mut i: usize = 0;
        while i < jobs.len()
            invariant
                i <= jobs@.len(),
                nodes@.len() == i && cpus@.len() == i && gpus@.len() == i,
                forall|k: int| 0 <= k < i ==> (#[trigger] nodes@[k]) as nat == jobs@[k].nodes as nat,
                forall|k: int| 0 <= k < i ==> (#[trigger] cpus@[k]) as nat == opt_u32_or_zero(jobs@[k].cpus),
                forall|k: int| 0 <= k < i ==> (#[trigger] gpus@[k]) as nat == opt_u32_or_zero(jobs@[k].requested_gpus),
            decreases jobs@.len() - i,
        {
            let j = jobs[i];
            nodes.push(j.nodes);
            cpus.push(match j.cpus {
                Some(c) => c,
                None => 0,
            });
            gpus.push(match j.requested_gpus {
                Some(g) => g,
                None => 0,
            });
            i = i + 1;
        }
        assert(nodes@.map_values(|v: u32| v as nat) =~= job_nodes(jobs@));
        assert(cpus@.map_values(|v: u32| v as nat) =~= job_cpus(jobs@));
        assert(gpus@.map_values(|v: u32| v as nat) =~= job_gpus(jobs@));
        JobResourceScale { max_nodes: max_of(&nodes), max_cpus: max_of(&cpus), max_gpus: max_of(&gpus) }
    }

    pub fn node_digits(self) -> (n: usize)
        ensures
            n as nat == digit_count(self.max_nodes as nat),
    {
        digit_width(self.max_nodes)
    }

    pub fn cpu_digits(self) -> (n: usize)
        ensures
            n as nat == digit_count(self.max_cpus as nat),
    {
        digit_width(self.max_cpus)
    }

    pub fn gpu_digits(self) -> (n: usize)
        ensures
            n as nat == digit_count(self.max_gpus as nat),
    {
        digit_width(self.max_gpus)
    }
}

/// The footprint of a job: node, CPU and GPU bars against the scale,
/// two spaces apart.
pub open spec fn footprint_of(
    nodes: Option<u32>,
    cpus: Option<u32>,
    gpus: Option<u32>,
    max_nodes: nat,
    max_cpus: nat,
    max_gpus: nat,
) -> Seq<char> {
    metric_segment_of("Node"@, nodes, max_nodes, digit_count(max_nodes), 5) + "  "@
        + metric_segment_of("CPU"@, cpus, max_cpus, digit_count(max_cpus), 5) + "  "@
        + metric_segment_of("GPU"@, gpus, max_gpus, digit_count(max_gpus), 5)
}

fn footprint_text(
    nodes: Option<u32>,
    cpus: Option<u32>,
    gpus: Option<u32>,
    max_nodes: u32,
    max_cpus: u32,
    max_gpus: u32,
) -> (s: String)
    ensures
        s@ == footprint_of(
            nodes,
            cpus,
            gpus,
            max_nodes as nat,
            max_cpus as nat,
            max_gpus as nat,
        ),
{
    let a = metric_segment_text("Node", nodes, max_nodes, digit_width(max_nodes), 5);
    let b = metric_segment_text("CPU", cpus, max_cpus, digit_width(max_cpus), 5);
    let c = metric_segment_text("GPU", gpus, max_gpus, digit_width(max_gpus), 5);
    let mut out = chars_of(a.as_str());
    append_str(&mut out, "  ");
    append_str(&mut out, b.as_str());
    append_str(&mut out, "  ");
    append_str(&mut out, c.as_str());
    string_of(&out)
}

pub fn resource_footprint_text(job: &JobRecord, scale: &JobResourceScale) -> (s: String)
    ensures
        s@ == footprint_of(
            Some(job.nodes),
            job.cpus,
            job.requested_gpus,
            scale.max_nodes as nat,
            scale.max_cpus as nat,
            scale.max_gpus as nat,
        ),
{
    footprint_text(
        Some(job.nodes),
        job.cpus,
        job.requested_gpus,
        scale.max_nodes,
        scale.max_cpus,
        scale.max_gpus,
    )
}

/// A total kept at `u32::MAX` when larger.
pub open spec fn capped_u32(x: nat) -> nat {
    min_nat(x, u32::MAX as nat)
}

/// The largest node, CPU and GPU totals of the users shown, each at least
/// one and CPU and GPU totals capped at `u32::MAX`.
#[derive(Debug, Clone, Copy)]
pub struct UserResourceScale {
    pub max_nodes: u32,
    pub max_cpus: u32,
    pub max_gpus: u32,
}

pub open spec fn users_fit(users: Seq<UserUsage>) -> bool {
    forall|i: int|
        0 <= i < users.len() ==> {
            let u = (#[trigger] users[i]).jobs@;
            &&& u.running_nodes + u.pending_nodes <= u32::MAX
            &&& u.running_cpus + u.pending_cpus <= u64::MAX
            &&& u.running_gpus + u.pending_gpus <= u64::MAX
        }
}

pub open spec fn user_nodes(users: Seq<UserUsage>) -> Seq<nat> {
    users.map_values(|u: UserUsage| u.jobs@.running_nodes + u.jobs@.pending_nodes)
}

pub open spec fn user_cpus(users: Seq<UserUsage>) -> Seq<nat> {
    users.map_values(|u: UserUsage| capped_u32(u.jobs@.running_cpus + u.jobs@.pending_cpus))
}

pub open spec fn user_gpus(users: Seq<UserUsage>) -> Seq<nat> {
    users.map_values(|u: UserUsage| capped_u32(u.jobs@.running_gpus + u.jobs@.pending_gpus))
}

pub(crate) fn cap_u32(x: u64) -> (r: u32)
    ensures
        r as nat == capped_u32(x as nat),
{
    if x > 0xffff_ffff {
        0xffff_ffff
    } else {
        x as u32
    }
}

/// Whether each user's node, CPU and GPU totals fit their integer types.
pub fn users_fit_exec(users: &Vec<UserUsage>) -> (b: bool)
    ensures
        b == users_fit(users@),
{
    let mut i: usize = 0;
    while i < users.len()
        invariant
            i <= users@.len(),
            forall|k: int|
                0 <= k < i ==> {
                    let u = (#[trigger] users@[k]).jobs@;
                    &&& u.running_nodes + u.pending_nodes <= u32::MAX
                    &&& u.running_cpus + u.pending_cpus <= u64::MAX
                    &&& u.running_gpus + u.pending_gpus <= u64::MAX
                },
        decreases users@.len() - i,
    {
        let j = &users[i].jobs;
        if j.running_nodes as u64 + j.pending_nodes as u64 > 0xffff_ffff || j.running_cpus as u128
            + j.pending_cpus as u128 > 0xffff_ffff_ffff_ffff || j.running_gpus as u128
            + j.pending_gpus as u128 > 0xffff_ffff_ffff_ffff {
            let ghost k = i as int;
            assert(users@[k].jobs@.running_nodes + users@[k].jobs@.pending_nodes > u32::MAX
                || users@[k].jobs@.running_cpus + users@[k].jobs@.pending_cpus > u64::MAX
                || users@[k].jobs@.running_gpus + users@[k].jobs@.pending_gpus > u64::MAX);
            return false;
        }
        i = i + 1;
    }
    true
}

impl UserResourceScale {
    pub fn from_users(users: &Vec<UserUsage>) -> (s: Self)
        requires
            users_fit(users@),
        ensures
            s.max_nodes as nat == max_nat(seq_max(user_nodes(users@), 1), 1),
            s.max_cpus as nat == max_nat(seq_max(user_cpus(users@), 1), 1),
            s.max_gpus as nat == max_nat(seq_max(user_gpus(users@), 1), 1),
    {
        let mut nodes: Vec<u32> = Vec::new();
        let mut cpus: Vec<u32> = Vec::new();
        let mut gpus: Vec<u32> = Vec::new();
        let mut i: usize = 0;
        while i < users.len()
            invariant
                i <= users@.len(),
                users_fit(users@),
                nodes@.len() == i && cpus@.len() == i && gpus@.len() == i,
                forall|k: int| 0 <= k < i ==> (#[trigger] nodes@[k]) as nat == users@[k].jobs@.running_nodes + users@[k].jobs@.pending_nodes,
                forall|k: int| 0 <= k < i ==> (#[trigger] cpus@[k]) as nat == capped_u32(users@[k].jobs@.running_cpus + users@[k].jobs@.pending_cpus),
                forall|k: int| 0 <= k < i ==> (#[trigger] gpus@[k]) as nat == capped_u32(users@[k].jobs@.running_gpus + users@[k].jobs@.pending_gpus),
            decreases users@.len() - i,
        {
            let u = &users[i];
            assert(users@[i as int] == *u);
            nodes.push(u.total_nodes());
            cpus.push(cap_u32(u.total_cpus()));
            gpus.push(cap_u32(u.total_gpus()));
            i = i + 1;
        }
        assert(nodes@.map_values(|v: u32| v as nat) =~= user_nodes(users@));
        assert(cpus@.map_values(|v: u32| v as nat) =~= user_cpus(users@));
        assert(gpus@.map_values(|v: u32| v as nat) =~= user_gpus(users@));
        UserResourceScale {
            max_nodes: max_of(&nodes),
            max_cpus: max_of(&cpus),
            max_gpus: max_of(&gpus),
        }
    }

    pub fn node_digits(self) -> (n: usize)
        ensures
            n as nat == digit_count(self.max_nodes as nat),
    {
        digit_width(self.max_nodes)
    }

    pub fn cpu_digits(self) -> (n: usize)
        ensures
            n as nat == digit_count(self.max_cpus as nat),
    {
        digit_width(self.max_cpus)
    }

    pub fn gpu_digits(self) -> (n: usize)
        ensures
            n as nat == digit_count(self.max_gpus as nat),
    {
        digit_width(self.max_gpus)
    }
}

pub fn user_resource_footprint_text(usage: &UserUsage, scale: &UserResourceScale) -> (s: String)
    requires
        usage.jobs@.running_nodes + usage.jobs@.pending_nodes <= u32::MAX,
        usage.jobs@.running_cpus + usage.jobs@.pending_cpus <= u64::MAX,
        usage.jobs@.running_gpus + usage.jobs@.pending_gpus <= u64::MAX,
    ensures
        s@ == footprint_of(
            Some((usage.jobs@.running_nodes + usage.jobs@.pending_nodes) as u32),
            Some(capped_u32(usage.jobs@.running_cpus + usage.jobs@.pending_cpus) as u32),
            Some(capped_u32(usage.jobs@.running_gpus + usage.jobs@.pending_gpus) as u32),
            scale.max_nodes as nat,
            scale.max_cpus as nat,
            scale.max_gpus as nat,
        ),
{
    footprint_text(
        Some(usage.total_nodes()),
        Some(cap_u32(usage.total_cpus())),
        Some(cap_u32(usage.total_gpus())),
        scale.max_nodes,
        scale.max_cpus,
        scale.max_gpus,
    )
}

/// A pressure bar: `used` out of `capacity` (0 counts as 1), clamped to a
/// full bar, with the share as a whole percentage rounded half to even;
/// `[n/a]` without a capacity. The share is computed exactly.
pub open spec fn pressure_bar_of(used: nat, capacity: Option<u64>, width: nat) -> Seq<char> {
    match capacity {
        None => "[n/a]"@,
        Some(c0) => {
            let c = max_nat(c0 as nat, 1);
            let u = min_nat(used, c);
            let filled = bar_cells(u, c, width);
            "["@ + repeat_char('█', filled) + repeat_char('·', sat_sub(width, filled)) + "] "@
                + right_aligned(dec(round_half_even(100 * u, c)), 3) + "%"@
        },
    }
}

pub fn pressure_bar_text(used: u64, capacity: Option<u64>, width: usize) -> (s: String)
    ensures
        s@ == pressure_bar_of(used as nat, capacity, width as nat),
{
    match capacity {
        None => String::from_str("[n/a]"),
        Some(c0) => {
            let c: u64 = if c0 >= 1 {
                c0
            } else {
                1
            };
            let u: u64 = if used <= c {
                used
            } else {
                c
            };
            let filled = scaled_bar_width(u, c, width);
            let mut out = chars_of("[");
            push_repeat(&mut out, '█', filled);
            push_repeat(&mut out, '·', width - filled);
            append_str(&mut out, "] ");
            let pct = round_half_even_exec(100 * (u as u128), c as u128);
            proof {
                let n = 100 * (u as int);
                let cc = c as int;
                assert(n / cc <= 100) by (nonlinear_arith)
                    requires
                        0 <= n <= 100 * cc,
                        cc >= 1,
                ;
            }
            assert(pct <= 101);
            let mut num: Vec<char> = Vec::new();
            push_dec(&mut num, pct as u64);
            push_aligned_right(&mut out, &num, 3);
            append_str(&mut out, "%");
            string_of(&out)
        },
    }
}

/// The FNV-1a hash of a byte string.
pub open spec fn fnv1a(bytes: Seq<u8>) -> u64
    decreases bytes.len(),
{
    if bytes.len() == 0 {
        1469598103934665603u64
    } else {
        (fnv1a(bytes.drop_last()) ^ (bytes.last() as u64)).wrapping_mul(1099511628211u64)
    }
}

/// The palette slot of a partition: the FNV-1a hash of its UTF-8 bytes
/// modulo the palette size (a size of 0 counts as 1).
pub fn stable_partition_index(partition: &str, len: usize) -> (i: usize)
    ensures
        i == (fnv1a(vstd::utf8::encode_utf8(partition@)) as usize) % (if len >= 1 { len } else { 1 }),
{
    let bytes = partition.as_bytes();
    let mut hash: u64 = 1469598103934665603;
    let mut k: usize = 0;
    while k < bytes.len()
        invariant
            k <= bytes@.len(),
            bytes@ == vstd::utf8::encode_utf8(partition@),
            hash == fnv1a(bytes@.take(k as int)),
        decreases bytes@.len() - k,
    {
        assert(bytes@.take(k + 1).drop_last() =~= bytes@.take(k as int));
        hash = (hash ^ (bytes[k] as u64)).wrapping_mul(1099511628211);
        k = k + 1;
    }
    assert(bytes@.take(bytes@.len() as int) =~= bytes@);
    let m: usize = if len >= 1 {
        len
    } else {
        1
    };
    (hash as usize) % m
}

pub open spec fn nat_or_zero(o: Option<nat>) -> nat {
    match o {
        Some(v) => v,
        None => 0,
    }
}

pub open spec fn u64_or_zero(o: Option<u64>) -> nat {
    match o {
        Some(v) => v as nat,
        None => 0,
    }
}

/// The resource line of a partition's detail for the chosen metric.
pub open spec fn partition_resources_of(p: PartitionView, metric: MetricMode, usage: nat) -> Seq<char> {
    match metric {
        MetricMode::Jobs => "Running jobs: "@ + dec(usage) + " / "@ + dec(
            nat_or_zero(capacity_of(p, metric)),
        ),
        MetricMode::Nodes => "Busy nodes: "@ + dec(used_for_pressure_of(p, metric)) + " / "@ + dec(
            nat_or_zero(capacity_of(p, metric)),
        ),
        MetricMode::Cpus => "CPU in use: "@ + dec(usage) + " / "@ + dec(u64_or_zero(p.total_cpus)),
        MetricMode::Gpus => "GPU in use: "@ + dec(usage) + " / "@ + dec(u64_or_zero(p.total_gpus)),
    }
}

pub fn format_partition_resources(partition: &PartitionOverview, metric: MetricMode, usage: u64) -> (s: String)
    requires
        partition.wf(),
        usage_fits(add_usage(partition.mine@, partition.others@)),
        add_usage(partition.mine@, partition.others@).running_jobs + add_usage(
            partition.mine@,
            partition.others@,
        ).pending_jobs <= u32::MAX,
    ensures
        s@ == partition_resources_of(partition@, metric, usage as nat),
{
    let mut out: Vec<char>;
    match metric {
        MetricMode::Jobs => {
            out = chars_of("Running jobs: ");
            push_dec(&mut out, usage);
            append_str(&mut out, " / ");
            let c: u64 = match partition.capacity_for(metric) {
                Some(c) => c,
                None => 0,
            };
            push_dec(&mut out, c);
        },
        MetricMode::Nodes => {
            out = chars_of("Busy nodes: ");
            push_dec(&mut out, partition.used_for_pressure(metric));
            append_str(&mut out, " / ");
            let c: u64 = match partition.capacity_for(metric) {
                Some(c) => c,
                None => 0,
            };
            push_dec(&mut out, c);
        },
        MetricMode::Cpus => {
            out = chars_of("CPU in use: ");
            push_dec(&mut out, usage);
            append_str(&mut out, " / ");
            push_dec(
                &mut out,
                match partition.total_cpus {
                    Some(c) => c,
                    None => 0,
                },
            );
        },
        MetricMode::Gpus => {
            out = chars_of("GPU in use: ");
            push_dec(&mut out, usage);
            append_str(&mut out, " / ");
            push_dec(
                &mut out,
                match partition.total_gpus {
                    Some(c) => c,
                    None => 0,
                },
            );
        },
    }
    string_of(&out)
}

/// The pieces laid end to end.
pub open spec fn flatten(pieces: Seq<Seq<char>>) -> Seq<char>
    decreases pieces.len(),
{
    if pieces.len() == 0 {
        Seq::empty()
    } else {
        pieces[0] + flatten(pieces.drop_first())
    }
}

/// Cutting a text into chunks loses and adds nothing, and no chunk is
/// wider than the width.
pub proof fn lemma_chunks_cover(s: Seq<char>, w: nat)
    requires
        w >= 1,
    ensures
        flatten(chunks(s, w)) == s,
        forall|i: int| 0 <= i < chunks(s, w).len() ==> (#[trigger] chunks(s, w)[i]).len() <= w,
        chunks(s, w).len() >= 1,
    decreases s.len(),
{
    if s.len() <= w {
        assert(chunks(s, w).drop_first() =~= Seq::<Seq<char>>::empty());
        assert(flatten(Seq::<Seq<char>>::empty()) =~= Seq::<char>::empty());
        assert(flatten(chunks(s, w)) =~= s + flatten(chunks(s, w).drop_first()));
        assert(flatten(chunks(s, w)) =~= s);
    } else {
        lemma_chunks_cover(s.skip(w as int), w);
        let c = chunks(s, w);
        assert(c.drop_first() =~= chunks(s.skip(w as int), w));
        assert(s =~= s.take(w as int) + s.skip(w as int));
        assert forall|i: int| 0 <= i < c.len() implies (#[trigger] c[i]).len() <= w by {
            if i > 0 {
                assert(c[i] == chunks(s.skip(w as int), w)[i - 1]);
            }
        }
    }
}

/// A padded cell is exactly as wide as asked, and keeps the text when it
/// fits.
pub proof fn lemma_padded(s: Seq<char>, width: nat)
    ensures
        padded(s, width).len() == width,
        s.len() <= width ==> padded(s, width).take(s.len() as int) == s,
{
    if s.len() <= width {
        assert(padded(s, width).take(s.len() as int) =~= s);
    }
}

/// The lines shown by a scrolled view run from the first to the last
/// shown, both within the text, and no more than fit in the box.
pub proof fn lemma_scroll_window(line_count: nat, height: nat, scroll: nat)
    ensures
        ({
            let r = scroll_metrics_of(line_count, height, scroll);
            &&& 1 <= r.2 <= r.3 <= r.1
            &&& r.3 - r.2 + 1 <= r.4
            &&& r.0 <= scroll
        }),
{
}

} // verus!
