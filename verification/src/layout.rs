//! Boxes of labelled fields drawn with box characters. Each piece of text
//! says which part of the box it is, so that the terminal can colour it.
use vstd::prelude::*;

use crate::model::types::{field_views, join, join_exec, string_views};
use crate::text::{append_str, chars_of, eq_chars, split_on, string_of, views};
use crate::ui::{clamp_nat, min_nat, pad_right, padded, repeat_char, truncate_chars, truncated, wrap_pieces, wrap_text};

verus! {

/// The part of a box a piece of text belongs to; labels and values carry
/// the position of their field.
#[derive(Debug, Clone, Copy, PartialEq, Eq, Structural)]
pub enum Tone {
    Frame,
    Title,
    Label(usize),
    Value(usize),
    Plain,
    Header,
    Cell,
}

/// A run of text in one tone.
#[derive(Debug, Clone)]
pub struct Piece {
    pub text: String,
    pub tone: Tone,
}

pub type LineView = Seq<(Seq<char>, Tone)>;

pub open spec fn line_view(l: Seq<Piece>) -> LineView {
    l.map_values(|p: Piece| (p.text@, p.tone))
}

pub open spec fn lines_view(ls: Seq<Vec<Piece>>) -> Seq<LineView> {
    ls.map_values(|l: Vec<Piece>| line_view(l@))
}

/// The characters of a line, its pieces one after another.
pub open spec fn line_text(l: LineView) -> Seq<char>
    decreases l.len(),
{
    if l.len() == 0 {
        Seq::empty()
    } else {
        line_text(l.drop_last()) + l.last().0
    }
}

pub open spec fn rule(n: nat) -> Seq<char> {
    repeat_char('─', n)
}

pub open spec fn spaces(n: nat) -> Seq<char> {
    repeat_char(' ', n)
}

/// `┌ title ───┐`: the title, cut to the inside width, then the rule.
pub open spec fn top_line(title: Seq<char>, inner: nat) -> LineView {
    let t = truncated(" "@ + title + " "@, inner);
    seq![
        ("┌"@, Tone::Frame),
        (t, Tone::Title),
        (rule((inner - t.len()) as nat), Tone::Frame),
        ("┐"@, Tone::Frame),
    ]
}

pub open spec fn bottom_line(inner: nat) -> LineView {
    seq![("└"@ + rule(inner) + "┘"@, Tone::Frame)]
}

pub open spec fn blank_line(inner: nat) -> LineView {
    seq![("│"@, Tone::Frame), (spaces(inner), Tone::Plain), ("│"@, Tone::Frame)]
}

/// The longest label.
pub open spec fn longest_label(fields: Seq<(Seq<char>, Seq<char>)>) -> nat
    decreases fields.len(),
{
    if fields.len() == 0 {
        0
    } else {
        let rest = longest_label(fields.drop_last());
        if fields.last().0.len() > rest {
            fields.last().0.len()
        } else {
            rest
        }
    }
}

/// The lines of field `i` beside its label: the value split at newlines
/// and cut to the value width, the label on the first line only.
pub open spec fn side_rows(i: usize, label: Seq<char>, value: Seq<char>, lw: nat, vw: nat) -> Seq<LineView> {
    let parts = wrap_pieces(split_on(value, '\n'), vw);
    Seq::new(
        parts.len(),
        |k: int|
            seq![
                ("│"@, Tone::Frame),
                (
                    if k == 0 {
                        padded(label, lw)
                    } else {
                        spaces(lw)
                    },
                    Tone::Label(i),
                ),
                (" "@, Tone::Plain),
                (padded(parts[k], vw), Tone::Value(i)),
                ("│"@, Tone::Frame),
            ],
    )
}

/// The lines of field `i` under its label: the label, the value indented
/// by two, and a blank line.
pub open spec fn stacked_rows(i: usize, label: Seq<char>, value: Seq<char>, inner: nat) -> Seq<LineView> {
    let parts = wrap_pieces(
        split_on(value, '\n'),
        if inner >= 3 {
            (inner - 2) as nat
        } else {
            1
        },
    );
    seq![seq![("│"@, Tone::Frame), (padded(label, inner), Tone::Label(i)), ("│"@, Tone::Frame)]]
        + Seq::new(
        parts.len(),
        |k: int| seq![("│"@, Tone::Frame), (padded("  "@ + parts[k], inner), Tone::Value(i)), ("│"@, Tone::Frame)],
    ) + seq![blank_line(inner)]
}

pub open spec fn field_rows(
    i: usize,
    f: (Seq<char>, Seq<char>),
    inner: nat,
    stacked: bool,
    lw: nat,
    vw: nat,
) -> Seq<LineView> {
    if stacked {
        stacked_rows(i, f.0, f.1, inner)
    } else {
        side_rows(i, f.0, f.1, lw, vw)
    }
}

/// The rows of the fields, in order.
pub open spec fn body_rows(
    fields: Seq<(Seq<char>, Seq<char>)>,
    inner: nat,
    stacked: bool,
    lw: nat,
    vw: nat,
) -> Seq<LineView>
    decreases fields.len(),
{
    if fields.len() == 0 {
        Seq::empty()
    } else {
        body_rows(fields.drop_last(), inner, stacked, lw, vw) + field_rows(
            (fields.len() - 1) as usize,
            fields.last(),
            inner,
            stacked,
            lw,
            vw,
        )
    }
}

pub open spec fn is_blank(l: LineView, inner: nat) -> bool {
    line_text(l) == "│"@ + spaces(inner) + "│"@
}

/// Blank lines at the end dropped while the last two are blank, keeping
/// at least two lines.
pub open spec fn trim_blank_tail(ls: Seq<LineView>, inner: nat) -> Seq<LineView>
    decreases ls.len(),
{
    if ls.len() > 2 && is_blank(ls.last(), inner) && is_blank(ls[ls.len() - 2], inner) {
        trim_blank_tail(ls.drop_last(), inner)
    } else {
        ls
    }
}

pub open spec fn inner_of(width: nat) -> nat {
    if width >= 3 {
        (width - 2) as nat
    } else {
        1
    }
}

/// A box `width` characters wide with a title and labelled fields; each
/// value beside its label (labels 8 to 18 wide), or under it when
/// `stacked`.
pub open spec fn kv_box_of(title: Seq<char>, fields: Seq<(Seq<char>, Seq<char>)>, width: nat, stacked: bool) -> Seq<LineView> {
    let inner = inner_of(width);
    let lw = clamp_nat(longest_label(fields), 8, 18);
    let vw = if inner > lw + 1 {
        (inner - lw - 1) as nat
    } else {
        1
    };
    let body = if fields.len() == 0 {
        seq![blank_line(inner)]
    } else {
        body_rows(fields, inner, stacked, lw, vw)
    };
    trim_blank_tail(seq![top_line(title, inner)] + body, inner) + seq![bottom_line(inner)]
}

fn piece(text: String, tone: Tone) -> (p: Piece)
    ensures
        p.text@ == text@,
        p.tone == tone,
{
    Piece { text, tone }
}

fn literal(s: &str, tone: Tone) -> (p: Piece)
    ensures
        p.text@ == s@,
        p.tone == tone,
{
    Piece { text: String::from_str(s), tone }
}

fn repeated(c: char, n: usize) -> (s: String)
    ensures
        s@ == repeat_char(c, n as nat),
{
    let mut v: Vec<char> = Vec::new();
    let mut i: usize = 0;
    while i < n
        invariant
            i <= n,
            v@ == repeat_char(c, i as nat),
        decreases n - i,
    {
        v.push(c);
        i = i + 1;
        assert(v@ =~= repeat_char(c, i as nat));
    }
    string_of(&v)
}

fn top(title: &str, inner: usize) -> (l: Vec<Piece>)
    ensures
        line_view(l@) == top_line(title@, inner as nat),
{
    let mut framed = chars_of(" ");
    append_str(&mut framed, title);
    append_str(&mut framed, " ");
    let t = truncate_chars(string_of(&framed).as_str(), inner);
    let tl = chars_of(t.as_str()).len();
    let fill = inner - tl;
    let l = vec![
        literal("┌", Tone::Frame),
        piece(t, Tone::Title),
        piece(repeated('─', fill), Tone::Frame),
        literal("┐", Tone::Frame),
    ];
    assert(line_view(l@) =~= top_line(title@, inner as nat));
    l
}

fn bottom(inner: usize) -> (l: Vec<Piece>)
    ensures
        line_view(l@) == bottom_line(inner as nat),
{
    let mut v = chars_of("└");
    let r = repeated('─', inner);
    append_str(&mut v, r.as_str());
    append_str(&mut v, "┘");
    let l = vec![piece(string_of(&v), Tone::Frame)];
    assert(line_view(l@) =~= bottom_line(inner as nat));
    l
}

fn blank(inner: usize) -> (l: Vec<Piece>)
    ensures
        line_view(l@) == blank_line(inner as nat),
{
    let l = vec![literal("│", Tone::Frame), piece(repeated(' ', inner), Tone::Plain), literal("│", Tone::Frame)];
    assert(line_view(l@) =~= blank_line(inner as nat));
    l
}

fn char_count(s: &String) -> (n: usize)
    ensures
        n == s@.len(),
{
    chars_of(s.as_str()).len()
}

fn label_width(fields: &Vec<(String, String)>) -> (w: usize)
    ensures
        w as nat == clamp_nat(longest_label(field_views(fields@)), 8, 18),
{
    let ghost fv = field_views(fields@);
    let mut longest: usize = 0;
    let mut i: usize = 0;
    while i < fields.len()
        invariant
            i <= fields@.len(),
            fv == field_views(fields@),
            longest as nat == longest_label(fv.take(i as int)),
        decreases fields@.len() - i,
    {
        assert(fv.take(i + 1).drop_last() =~= fv.take(i as int));
        assert(fv.take(i + 1).last() == fv[i as int]);
        let n = char_count(&fields[i].0);
        if n > longest {
            longest = n;
        }
        i = i + 1;
    }
    assert(fv.take(fields@.len() as int) =~= fv);
    if longest < 8 {
        8
    } else if longest > 18 {
        18
    } else {
        longest
    }
}

fn push_lines(lines: &mut Vec<Vec<Piece>>, more: Vec<Vec<Piece>>)
    ensures
        lines_view(final(lines)@) == lines_view(old(lines)@) + lines_view(more@),
{
    let ghost target = lines_view(old(lines)@) + lines_view(more@);
    let mut more = more;
    while more.len() > 0
        invariant
            lines_view(lines@) + lines_view(more@) == target,
        decreases more.len(),
    {
        let ghost before = lines_view(lines@);
        let ghost rest = lines_view(more@);
        let l = more.remove(0);
        lines.push(l);
        assert(lines_view(lines@) =~= before.push(line_view(l@)));
        assert(rest =~= seq![line_view(l@)] + lines_view(more@));
        assert(lines_view(lines@) + lines_view(more@) =~= before + rest);
    }
    assert(lines_view(more@) =~= Seq::<LineView>::empty());
    assert(lines_view(lines@) =~= target);
}

fn side_rows_exec(i: usize, label: &String, value: &String, lw: usize, vw: usize) -> (r: Vec<Vec<Piece>>)
    requires
        vw >= 1,
    ensures
        lines_view(r@) == side_rows(i, label@, value@, lw as nat, vw as nat),
{
    let parts = wrap_text(value.as_str(), vw);
    let ghost spec = side_rows(i, label@, value@, lw as nat, vw as nat);
    assert(string_views(parts@) == wrap_pieces(split_on(value@, '\n'), vw as nat));
    let mut out: Vec<Vec<Piece>> = Vec::new();
    let mut k: usize = 0;
    while k < parts.len()
        invariant
            k <= parts@.len(),
            string_views(parts@) == wrap_pieces(split_on(value@, '\n'), vw as nat),
            spec == side_rows(i, label@, value@, lw as nat, vw as nat),
            spec.len() == parts@.len(),
            lines_view(out@) == spec.take(k as int),
        decreases parts@.len() - k,
    {
        let lab = if k == 0 {
            pad_right(label.as_str(), lw)
        } else {
            repeated(' ', lw)
        };
        let l = vec![
            literal("│", Tone::Frame),
            piece(lab, Tone::Label(i)),
            literal(" ", Tone::Plain),
            piece(pad_right(parts[k].as_str(), vw), Tone::Value(i)),
            literal("│", Tone::Frame),
        ];
        assert(parts@[k as int]@ == string_views(parts@)[k as int]);
        assert(line_view(l@) =~= spec[k as int]);
        let ghost before = lines_view(out@);
        out.push(l);
        assert(lines_view(out@) =~= before.push(spec[k as int]));
        k = k + 1;
        assert(spec.take(k as int) =~= spec.take(k - 1).push(spec[k - 1]));
    }
    assert(spec.take(parts@.len() as int) =~= spec);
    out
}

fn stacked_rows_exec(i: usize, label: &String, value: &String, inner: usize) -> (r: Vec<Vec<Piece>>)
    ensures
        lines_view(r@) == stacked_rows(i, label@, value@, inner as nat),
{
    let w: usize = if inner >= 3 {
        inner - 2
    } else {
        1
    };
    let parts = wrap_text(value.as_str(), w);
    let ghost spec = stacked_rows(i, label@, value@, inner as nat);
    let ghost mid = Seq::new(
        parts@.len(),
        |k: int|
            seq![
                ("│"@, Tone::Frame),
                (padded("  "@ + string_views(parts@)[k], inner as nat), Tone::Value(i)),
                ("│"@, Tone::Frame),
            ],
    );
    let mut out: Vec<Vec<Piece>> = Vec::new();
    let first = vec![literal("│", Tone::Frame), piece(pad_right(label.as_str(), inner), Tone::Label(i)), literal("│", Tone::Frame)];
    let ghost head = seq![seq![("│"@, Tone::Frame), (padded(label@, inner as nat), Tone::Label(i)), ("│"@, Tone::Frame)]];
    assert(line_view(first@) =~= head[0]);
    out.push(first);
    assert(lines_view(out@) =~= head);
    let mut k: usize = 0;
    while k < parts.len()
        invariant
            k <= parts@.len(),
            mid.len() == parts@.len(),
            mid == Seq::new(
                parts@.len(),
                |k: int|
                    seq![
                        ("│"@, Tone::Frame),
                        (padded("  "@ + string_views(parts@)[k], inner as nat), Tone::Value(i)),
                        ("│"@, Tone::Frame),
                    ],
            ),
            lines_view(out@) == head + mid.take(k as int),
        decreases parts@.len() - k,
    {
        let mut text = chars_of("  ");
        append_str(&mut text, parts[k].as_str());
        let l = vec![
            literal("│", Tone::Frame),
            piece(pad_right(string_of(&text).as_str(), inner), Tone::Value(i)),
            literal("│", Tone::Frame),
        ];
        assert(parts@[k as int]@ == string_views(parts@)[k as int]);
        assert(line_view(l@) =~= mid[k as int]);
        let ghost before = lines_view(out@);
        out.push(l);
        assert(lines_view(out@) =~= before.push(mid[k as int]));
        k = k + 1;
        assert(mid.take(k as int) =~= mid.take(k - 1).push(mid[k - 1]));
    }
    assert(mid.take(parts@.len() as int) =~= mid);
    let ghost before = lines_view(out@);
    out.push(blank(inner));
    assert(lines_view(out@) =~= before.push(blank_line(inner as nat)));
    assert(lines_view(out@) =~= spec);
    out
}

fn text_of_line(l: &Vec<Piece>) -> (t: Vec<char>)
    ensures
        t@ == line_text(line_view(l@)),
{
    let ghost lv = line_view(l@);
    let mut t: Vec<char> = Vec::new();
    let mut k: usize = 0;
    while k < l.len()
        invariant
            k <= l@.len(),
            lv == line_view(l@),
            t@ == line_text(lv.take(k as int)),
        decreases l@.len() - k,
    {
        assert(lv.take(k + 1).drop_last() =~= lv.take(k as int));
        assert(lv.take(k + 1).last() == lv[k as int]);
        crate::text::append_str(&mut t, l[k].text.as_str());
        k = k + 1;
    }
    assert(lv.take(l@.len() as int) =~= lv);
    t
}

fn blank_text(inner: usize) -> (t: Vec<char>)
    ensures
        t@ == "│"@ + spaces(inner as nat) + "│"@,
{
    let mut t = chars_of("│");
    append_str(&mut t, repeated(' ', inner).as_str());
    append_str(&mut t, "│");
    t
}

/// The lines of a box of labelled fields, `width` characters wide.
pub fn kv_box(title: &str, fields: &Vec<(String, String)>, width: usize, stacked: bool) -> (r: Vec<Vec<Piece>>)
    ensures
        lines_view(r@) == kv_box_of(title@, field_views(fields@), width as nat, stacked),
{
    let inner: usize = if width >= 3 {
        width - 2
    } else {
        1
    };
    let lw = label_width(fields);
    let vw: usize = if inner > lw + 1 {
        inner - lw - 1
    } else {
        1
    };
    let ghost fv = field_views(fields@);
    let mut lines: Vec<Vec<Piece>> = Vec::new();
    lines.push(top(title, inner));
    let ghost head = seq![top_line(title@, inner as nat)];
    assert(lines_view(lines@) =~= head);
    if fields.len() == 0 {
        lines.push(blank(inner));
        assert(lines_view(lines@) =~= head + seq![blank_line(inner as nat)]);
    } else {
        let mut i: usize = 0;
        while i < fields.len()
            invariant
                i <= fields@.len(),
                fv == field_views(fields@),
                vw >= 1,
                lines_view(lines@) == head + body_rows(fv.take(i as int), inner as nat, stacked, lw as nat, vw as nat),
            decreases fields@.len() - i,
        {
            assert(fv.take(i + 1).drop_last() =~= fv.take(i as int));
            assert(fv.take(i + 1).last() == fv[i as int]);
            let rows = if stacked {
                stacked_rows_exec(i, &fields[i].0, &fields[i].1, inner)
            } else {
                side_rows_exec(i, &fields[i].0, &fields[i].1, lw, vw)
            };
            let ghost before = lines_view(lines@);
            push_lines(&mut lines, rows);
            i = i + 1;
            assert(lines_view(lines@) =~= head + body_rows(fv.take(i as int), inner as nat, stacked, lw as nat, vw as nat));
        }
        assert(fv.take(fields@.len() as int) =~= fv);
    }
    let ghost untrimmed = lines_view(lines@);
    let blank_chars = blank_text(inner);
    loop
        invariant
            lines@.len() >= 1,
            trim_blank_tail(lines_view(lines@), inner as nat) == trim_blank_tail(untrimmed, inner as nat),
            blank_chars@ == "│"@ + spaces(inner as nat) + "│"@,
        ensures
            trim_blank_tail(untrimmed, inner as nat) == lines_view(lines@),
        decreases lines@.len(),
    {
        let n = lines.len();
        if n <= 2 {
            break;
        }
        let a = text_of_line(&lines[n - 1]);
        let b = text_of_line(&lines[n - 2]);
        let ghost lv = lines_view(lines@);
        assert(lv.last() == line_view(lines@[n - 1]@));
        assert(lv[lv.len() - 2] == line_view(lines@[n - 2]@));
        if !(eq_chars(&a, &blank_chars) && eq_chars(&b, &blank_chars)) {
            break;
        }
        lines.pop();
        assert(lines_view(lines@) =~= lv.drop_last());
    }
    let ghost trimmed = lines_view(lines@);
    lines.push(bottom(inner));
    assert(lines_view(lines@) =~= trimmed + seq![bottom_line(inner as nat)]);
    lines
}


// Tables with wrapped cells.

pub open spec fn rows_view(rows: Seq<Vec<String>>) -> Seq<Seq<Seq<char>>> {
    rows.map_values(|r: Vec<String>| string_views(r@))
}

pub open spec fn widths_sum(widths: Seq<usize>) -> nat
    decreases widths.len(),
{
    if widths.len() == 0 {
        0
    } else {
        widths_sum(widths.drop_last()) + widths.last() as nat + 2
    }
}

/// The inside width of a table: each column with a space on both sides,
/// and a bar between columns.
pub open spec fn table_inner(widths: Seq<usize>) -> nat {
    widths_sum(widths) + if widths.len() > 0 {
        (widths.len() - 1) as nat
    } else {
        0
    }
}

pub open spec fn column_rules(widths: Seq<usize>) -> Seq<Seq<char>> {
    widths.map_values(|w: usize| rule((w + 2) as nat))
}

/// A border across the columns: `left`, a rule over each column joined by
/// `mid`, `right`.
pub open spec fn border_line(left: char, mid: char, right: char, widths: Seq<usize>) -> LineView {
    seq![(seq![left] + join(column_rules(widths), seq![mid]) + seq![right], Tone::Frame)]
}

pub open spec fn cell_piece(text: Seq<char>, w: usize, tone: Tone) -> (Seq<char>, Tone) {
    (" "@ + padded(text, w as nat) + " "@, tone)
}

pub open spec fn header_cells(headers: Seq<Seq<char>>, widths: Seq<usize>, n: nat) -> LineView
    decreases n,
{
    if n == 0 {
        seq![("│"@, Tone::Frame)]
    } else {
        header_cells(headers, widths, (n - 1) as nat) + seq![
            cell_piece(headers[n - 1], widths[n - 1], Tone::Header),
            ("│"@, Tone::Frame),
        ]
    }
}

/// A cell cut into lines of at most its column's width.
pub open spec fn wrapped_cell(cell: Seq<char>, w: usize) -> Seq<Seq<char>> {
    wrap_pieces(
        split_on(cell, '\n'),
        if w >= 1 {
            w as nat
        } else {
            1
        },
    )
}

pub open spec fn cell_line(cell: Seq<char>, w: usize, j: int) -> Seq<char> {
    let p = wrapped_cell(cell, w);
    if 0 <= j < p.len() {
        p[j]
    } else {
        Seq::empty()
    }
}

pub open spec fn row_cells(row: Seq<Seq<char>>, widths: Seq<usize>, j: int, n: nat) -> LineView
    decreases n,
{
    if n == 0 {
        seq![("│"@, Tone::Frame)]
    } else {
        row_cells(row, widths, j, (n - 1) as nat) + seq![
            cell_piece(cell_line(row[n - 1], widths[n - 1], j), widths[n - 1], Tone::Cell),
            ("│"@, Tone::Frame),
        ]
    }
}

pub open spec fn row_height(row: Seq<Seq<char>>, widths: Seq<usize>, n: nat) -> nat
    decreases n,
{
    if n == 0 {
        0
    } else {
        let h = wrapped_cell(row[n - 1], widths[n - 1]).len();
        let rest = row_height(row, widths, (n - 1) as nat);
        if h > rest {
            h
        } else {
            rest
        }
    }
}

/// The lines of one row: as many as its tallest cell.
pub open spec fn row_lines(row: Seq<Seq<char>>, widths: Seq<usize>) -> Seq<LineView> {
    let n = min_nat(row.len(), widths.len());
    let h = if n == 0 {
        1
    } else {
        row_height(row, widths, n)
    };
    Seq::new(h, |j: int| row_cells(row, widths, j, n))
}

/// Each row followed by a border.
pub open spec fn rows_block(rows: Seq<Seq<Seq<char>>>, widths: Seq<usize>) -> Seq<LineView>
    decreases rows.len(),
{
    if rows.len() == 0 {
        Seq::empty()
    } else {
        rows_block(rows.drop_last(), widths) + row_lines(rows.last(), widths) + seq![
            border_line('├', '┼', '┤', widths),
        ]
    }
}

pub open spec fn note_lines_of(note: Option<Seq<char>>, inner: nat) -> Seq<LineView> {
    match note {
        Some(t) => {
            let parts = wrap_pieces(
                split_on(t, '\n'),
                if inner >= 1 {
                    inner
                } else {
                    1
                },
            );
            Seq::new(
                parts.len(),
                |k: int| seq![("│"@, Tone::Frame), (padded(parts[k], inner), Tone::Header), ("│"@, Tone::Frame)],
            ) + seq![seq![("├"@ + rule(inner) + "┤"@, Tone::Frame)]]
        },
        None => Seq::empty(),
    }
}

/// A titled table: an optional note, the headers, each row's cells cut to
/// their column widths and separated by borders, or "No rows".
pub open spec fn table_of(
    title: Seq<char>,
    note: Option<Seq<char>>,
    headers: Seq<Seq<char>>,
    widths: Seq<usize>,
    rows: Seq<Seq<Seq<char>>>,
) -> Seq<LineView> {
    let inner = table_inner(widths);
    let body = if rows.len() == 0 {
        seq![seq![("│"@, Tone::Frame), (padded("No rows"@, inner), Tone::Cell), ("│"@, Tone::Frame)]]
    } else {
        rows_block(rows, widths).drop_last()
    };
    seq![top_line(title, inner)] + note_lines_of(note, inner) + seq![
        border_line('├', '┬', '┤', widths),
        header_cells(headers, widths, min_nat(headers.len(), widths.len())),
        border_line('├', '┼', '┤', widths),
    ] + body + seq![border_line('└', '┴', '┘', widths)]
}

fn border_exec(left: char, mid: char, right: char, widths: &Vec<usize>) -> (l: Vec<Piece>)
    requires
        forall|k: int| 0 <= k < widths@.len() ==> widths@[k] + 2 <= usize::MAX,
    ensures
        line_view(l@) == border_line(left, mid, right, widths@),
{
    let mut rules: Vec<Vec<char>> = Vec::new();
    let mut k: usize = 0;
    while k < widths.len()
        invariant
            k <= widths@.len(),
            forall|m: int| 0 <= m < widths@.len() ==> widths@[m] + 2 <= usize::MAX,
            views(rules@) == column_rules(widths@).take(k as int),
        decreases widths@.len() - k,
    {
        let r = chars_of(repeated('─', widths[k] + 2).as_str());
        let ghost before = views(rules@);
        rules.push(r);
        assert(views(rules@) =~= before.push(rule((widths@[k as int] + 2) as nat)));
        k = k + 1;
        assert(column_rules(widths@).take(k as int) =~= column_rules(widths@).take(k - 1).push(
            column_rules(widths@)[k - 1],
        ));
    }
    assert(column_rules(widths@).take(widths@.len() as int) =~= column_rules(widths@));
    let mut sep: Vec<char> = Vec::new();
    sep.push(mid);
    assert(sep@ =~= seq![mid]);
    let joined = join_exec(&rules, &sep);
    assert(joined@ == join(column_rules(widths@), seq![mid]));
    let mut t: Vec<char> = Vec::new();
    t.push(left);
    crate::text::append(&mut t, &joined);
    t.push(right);
    assert(t@ =~= seq![left] + join(column_rules(widths@), seq![mid]) + seq![right]);
    let text = string_of(&t);
    let l = vec![piece(text, Tone::Frame)];
    assert(line_view(l@) =~= border_line(left, mid, right, widths@));
    l
}

fn cell_piece_exec(text: &str, w: usize, tone: Tone) -> (p: Piece)
    ensures
        (p.text@, p.tone) == cell_piece(text@, w, tone),
{
    let mut t = chars_of(" ");
    append_str(&mut t, pad_right(text, w).as_str());
    append_str(&mut t, " ");
    piece(string_of(&t), tone)
}

fn header_exec(headers: &Vec<String>, widths: &Vec<usize>) -> (l: Vec<Piece>)
    ensures
        line_view(l@) == header_cells(
            string_views(headers@),
            widths@,
            min_nat(headers@.len(), widths@.len()),
        ),
{
    let n = if headers.len() <= widths.len() {
        headers.len()
    } else {
        widths.len()
    };
    let ghost hv = string_views(headers@);
    let mut l: Vec<Piece> = Vec::new();
    l.push(literal("│", Tone::Frame));
    assert(line_view(l@) =~= header_cells(hv, widths@, 0));
    let mut c: usize = 0;
    while c < n
        invariant
            c <= n,
            n <= headers@.len(),
            n <= widths@.len(),
            hv == string_views(headers@),
            line_view(l@) == header_cells(hv, widths@, c as nat),
        decreases n - c,
    {
        let ghost before = line_view(l@);
        l.push(cell_piece_exec(headers[c].as_str(), widths[c], Tone::Header));
        l.push(literal("│", Tone::Frame));
        assert(headers@[c as int]@ == hv[c as int]);
        c = c + 1;
        assert(line_view(l@) =~= header_cells(hv, widths@, c as nat));
    }
    l
}

fn row_lines_exec(row: &Vec<String>, widths: &Vec<usize>) -> (r: Vec<Vec<Piece>>)
    ensures
        lines_view(r@) == row_lines(string_views(row@), widths@),
{
    let ghost rv = string_views(row@);
    let n = if row.len() <= widths.len() {
        row.len()
    } else {
        widths.len()
    };
    let mut cells: Vec<Vec<String>> = Vec::new();
    let mut height: usize = 0;
    let mut c: usize = 0;
    while c < n
        invariant
            c <= n,
            n <= row@.len(),
            n <= widths@.len(),
            rv == string_views(row@),
            cells@.len() == c,
            forall|m: int| 0 <= m < c ==> string_views(#[trigger] cells@[m]@) == wrapped_cell(rv[m], widths@[m]),
            height as nat == row_height(rv, widths@, c as nat),
        decreases n - c,
    {
        let w: usize = if widths[c] >= 1 {
            widths[c]
        } else {
            1
        };
        let parts = wrap_text(row[c].as_str(), w);
        assert(row@[c as int]@ == rv[c as int]);
        if parts.len() > height {
            height = parts.len();
        }
        cells.push(parts);
        c = c + 1;
    }
    let h: usize = if n == 0 {
        1
    } else {
        height
    };
    let ghost spec = row_lines(rv, widths@);
    let mut out: Vec<Vec<Piece>> = Vec::new();
    let mut j: usize = 0;
    while j < h
        invariant
            j <= h,
            n <= row@.len(),
            n <= widths@.len(),
            n == min_nat(row@.len(), widths@.len()),
            rv == string_views(row@),
            cells@.len() == n,
            forall|m: int| 0 <= m < n ==> string_views(#[trigger] cells@[m]@) == wrapped_cell(rv[m], widths@[m]),
            h as nat == if n == 0 {
                1
            } else {
                row_height(rv, widths@, n as nat)
            },
            spec == row_lines(rv, widths@),
            spec.len() == h,
            lines_view(out@) == spec.take(j as int),
        decreases h - j,
    {
        let mut l: Vec<Piece> = Vec::new();
        l.push(literal("│", Tone::Frame));
        assert(line_view(l@) =~= row_cells(rv, widths@, j as int, 0));
        let mut c: usize = 0;
        while c < n
            invariant
                c <= n,
                n <= widths@.len(),
                cells@.len() == n,
                forall|m: int| 0 <= m < n ==> string_views(#[trigger] cells@[m]@) == wrapped_cell(rv[m], widths@[m]),
                line_view(l@) == row_cells(rv, widths@, j as int, c as nat),
            decreases n - c,
        {
            let parts = &cells[c];
            assert(string_views(cells@[c as int]@) == wrapped_cell(rv[c as int], widths@[c as int]));
            let text: String = if j < parts.len() {
                assert(parts@[j as int]@ == string_views(parts@)[j as int]);
                clone_text(&parts[j])
            } else {
                String::new()
            };
            let ghost before = line_view(l@);
            l.push(cell_piece_exec(text.as_str(), widths[c], Tone::Cell));
            l.push(literal("│", Tone::Frame));
            c = c + 1;
            assert(line_view(l@) =~= row_cells(rv, widths@, j as int, c as nat));
        }
        let ghost before = lines_view(out@);
        out.push(l);
        assert(lines_view(out@) =~= before.push(spec[j as int]));
        j = j + 1;
        assert(spec.take(j as int) =~= spec.take(j - 1).push(spec[j - 1]));
    }
    assert(spec.take(h as int) =~= spec);
    out
}

fn clone_text(s: &String) -> (r: String)
    ensures
        r@ == s@,
{
    crate::model::types::clone_string(s)
}

/// The lines of a titled table with an optional note, wrapped cells and
/// borders.
pub fn wrapped_table(
    title: &str,
    note: Option<&str>,
    headers: &Vec<String>,
    widths: &Vec<usize>,
    rows: &Vec<Vec<String>>,
) -> (r: Vec<Vec<Piece>>)
    requires
        table_inner(widths@) <= usize::MAX,
    ensures
        lines_view(r@) == table_of(
            title@,
            match note {
                Some(t) => Some(t@),
                None => None,
            },
            string_views(headers@),
            widths@,
            rows_view(rows@),
        ),
{
    proof {
        lemma_widths_bounded(widths@);
    }
    let inner = inner_width(widths);
    let ghost nv = match note {
        Some(t) => Some(t@),
        None => None,
    };
    let mut lines: Vec<Vec<Piece>> = Vec::new();
    lines.push(top(title, inner));
    let ghost head = seq![top_line(title@, inner as nat)];
    assert(lines_view(lines@) =~= head);
    match note {
        Some(t) => {
            let w: usize = if inner >= 1 {
                inner
            } else {
                1
            };
            let parts = wrap_text(t, w);
            let ghost np = Seq::new(
                parts@.len(),
                |k: int| seq![("│"@, Tone::Frame), (padded(string_views(parts@)[k], inner as nat), Tone::Header), ("│"@, Tone::Frame)],
            );
            let mut k: usize = 0;
            while k < parts.len()
                invariant
                    k <= parts@.len(),
                    np.len() == parts@.len(),
                    np == Seq::new(
                        parts@.len(),
                        |k: int| seq![("│"@, Tone::Frame), (padded(string_views(parts@)[k], inner as nat), Tone::Header), ("│"@, Tone::Frame)],
                    ),
                    lines_view(lines@) == head + np.take(k as int),
                decreases parts@.len() - k,
            {
                let l = vec![literal("│", Tone::Frame), piece(pad_right(parts[k].as_str(), inner), Tone::Header), literal("│", Tone::Frame)];
                assert(parts@[k as int]@ == string_views(parts@)[k as int]);
                assert(line_view(l@) =~= np[k as int]);
                let ghost before = lines_view(lines@);
                lines.push(l);
                assert(lines_view(lines@) =~= before.push(np[k as int]));
                k = k + 1;
                assert(np.take(k as int) =~= np.take(k - 1).push(np[k - 1]));
            }
            assert(np.take(parts@.len() as int) =~= np);
            let mut sep = chars_of("├");
            append_str(&mut sep, repeated('─', inner).as_str());
            append_str(&mut sep, "┤");
            assert(sep@ =~= "├"@ + rule(inner as nat) + "┤"@);
            let l = vec![piece(string_of(&sep), Tone::Frame)];
            assert(line_view(l@) =~= seq![("├"@ + rule(inner as nat) + "┤"@, Tone::Frame)]);
            let ghost before = lines_view(lines@);
            lines.push(l);
            assert(lines_view(lines@) =~= before.push(seq![("├"@ + rule(inner as nat) + "┤"@, Tone::Frame)]));
            assert(lines_view(lines@) =~= head + note_lines_of(nv, inner as nat));
        },
        None => {
            assert(lines_view(lines@) =~= head + note_lines_of(nv, inner as nat));
        },
    }
    let ghost with_note = lines_view(lines@);
    lines.push(border_exec('├', '┬', '┤', widths));
    lines.push(header_exec(headers, widths));
    lines.push(border_exec('├', '┼', '┤', widths));
    let ghost with_header = lines_view(lines@);
    assert(with_header =~= with_note + seq![
        border_line('├', '┬', '┤', widths@),
        header_cells(string_views(headers@), widths@, min_nat(headers@.len(), widths@.len())),
        border_line('├', '┼', '┤', widths@),
    ]);
    let ghost rv = rows_view(rows@);
    if rows.len() == 0 {
        let l = vec![literal("│", Tone::Frame), piece(pad_right("No rows", inner), Tone::Cell), literal("│", Tone::Frame)];
        assert(line_view(l@) =~= seq![("│"@, Tone::Frame), (padded("No rows"@, inner as nat), Tone::Cell), ("│"@, Tone::Frame)]);
        lines.push(l);
        assert(lines_view(lines@) =~= with_header + seq![seq![("│"@, Tone::Frame), (padded("No rows"@, inner as nat), Tone::Cell), ("│"@, Tone::Frame)]]);
    } else {
        let mut i: usize = 0;
        while i < rows.len()
            invariant
                i <= rows@.len(),
                rv == rows_view(rows@),
                forall|k: int| 0 <= k < widths@.len() ==> widths@[k] + 2 <= usize::MAX,
                lines_view(lines@) == with_header + rows_block(rv.take(i as int), widths@),
            decreases rows@.len() - i,
        {
            assert(rv.take(i + 1).drop_last() =~= rv.take(i as int));
            assert(rv.take(i + 1).last() == rv[i as int]);
            assert(rv[i as int] == string_views(rows@[i as int]@));
            let block = row_lines_exec(&rows[i], widths);
            let ghost b0 = lines_view(lines@);
            push_lines(&mut lines, block);
            assert(lines_view(lines@) == b0 + row_lines(rv[i as int], widths@));
            let border = border_exec('├', '┼', '┤', widths);
            let ghost b1 = lines_view(lines@);
            lines.push(border);
            assert(lines_view(lines@) =~= b1.push(border_line('├', '┼', '┤', widths@)));
            assert(rows_block(rv.take(i + 1), widths@) == rows_block(rv.take(i as int), widths@) + row_lines(
                rv[i as int],
                widths@,
            ) + seq![border_line('├', '┼', '┤', widths@)]);
            i = i + 1;
            assert(lines_view(lines@) =~= with_header + rows_block(rv.take(i as int), widths@));
        }
        assert(rv.take(rows@.len() as int) =~= rv);
        let ghost full = lines_view(lines@);
        lines.pop();
        assert(lines_view(lines@) =~= full.drop_last());
        assert(rows_block(rv, widths@).len() > 0);
        assert(full.drop_last() =~= with_header + rows_block(rv, widths@).drop_last());
    }
    let ghost before = lines_view(lines@);
    lines.push(border_exec('└', '┴', '┘', widths));
    assert(lines_view(lines@) =~= before.push(border_line('└', '┴', '┘', widths@)));
    lines
}

/// Each column width plus two stays within the table's inside width.
proof fn lemma_widths_bounded(widths: Seq<usize>)
    ensures
        forall|k: int| 0 <= k < widths.len() ==> widths[k] + 2 <= widths_sum(widths),
    decreases widths.len(),
{
    if widths.len() > 0 {
        lemma_widths_bounded(widths.drop_last());
        assert forall|k: int| 0 <= k < widths.len() implies widths[k] + 2 <= widths_sum(widths) by {
            if k < widths.len() - 1 {
                assert(widths.drop_last()[k] == widths[k]);
            }
        }
    }
}

fn inner_width(widths: &Vec<usize>) -> (n: usize)
    requires
        table_inner(widths@) <= usize::MAX,
    ensures
        n as nat == table_inner(widths@),
{
    let mut total: usize = 0;
    let mut k: usize = 0;
    proof {
        lemma_sum_prefix(widths@);
    }
    while k < widths.len()
        invariant
            k <= widths@.len(),
            table_inner(widths@) <= usize::MAX,
            forall|m: int| 0 <= m <= widths@.len() ==> widths_sum(#[trigger] widths@.take(m)) <= widths_sum(widths@),
            total as nat == widths_sum(widths@.take(k as int)),
        decreases widths@.len() - k,
    {
        assert(widths@.take(k + 1).drop_last() =~= widths@.take(k as int));
        assert(widths@.take(k + 1).last() == widths@[k as int]);
        total = total + widths[k] + 2;
        k = k + 1;
    }
    assert(widths@.take(widths@.len() as int) =~= widths@);
    if widths.len() > 0 {
        total + (widths.len() - 1)
    } else {
        total
    }
}

proof fn lemma_sum_prefix(widths: Seq<usize>)
    ensures
        forall|m: int| 0 <= m <= widths.len() ==> widths_sum(#[trigger] widths.take(m)) <= widths_sum(widths),
    decreases widths.len(),
{
    if widths.len() > 0 {
        lemma_sum_prefix(widths.drop_last());
        assert forall|m: int| 0 <= m <= widths.len() implies widths_sum(#[trigger] widths.take(m)) <= widths_sum(widths) by {
            if m < widths.len() {
                assert(widths.take(m) =~= widths.drop_last().take(m));
            } else {
                assert(widths.take(m) =~= widths);
            }
        }
    }
}


// Boxes side by side and one under another.

pub open spec fn line_width(l: LineView) -> nat {
    line_text(l).len()
}

/// Two columns of lines side by side, `gap` spaces apart; the shorter
/// column is filled with blank lines as wide as its first line.
pub open spec fn side_by_side(left: Seq<LineView>, right: Seq<LineView>, gap: nat) -> Seq<LineView> {
    let lw = if left.len() > 0 {
        line_width(left[0])
    } else {
        0
    };
    let rw = if right.len() > 0 {
        line_width(right[0])
    } else {
        0
    };
    let n = if left.len() >= right.len() {
        left.len()
    } else {
        right.len()
    };
    Seq::new(
        n,
        |i: int|
            (if i < left.len() {
                left[i]
            } else {
                seq![(spaces(lw), Tone::Plain)]
            }) + seq![(spaces(gap), Tone::Plain)] + (if i < right.len() {
                right[i]
            } else {
                seq![(spaces(rw), Tone::Plain)]
            }),
    )
}

pub open spec fn grid_row(r: (Seq<LineView>, Option<Seq<LineView>>)) -> Seq<LineView> {
    match r.1 {
        Some(right) => side_by_side(r.0, right, 2),
        None => r.0,
    }
}

/// Rows of boxes, each row one box or two side by side, with an empty
/// line between rows.
pub open spec fn grid_of(rows: Seq<(Seq<LineView>, Option<Seq<LineView>>)>) -> Seq<LineView>
    decreases rows.len(),
{
    if rows.len() == 0 {
        Seq::empty()
    } else {
        grid_of(rows.drop_last()) + (if rows.len() > 1 {
            seq![Seq::<(Seq<char>, Tone)>::empty()]
        } else {
            Seq::empty()
        }) + grid_row(rows.last())
    }
}

fn first_width(ls: &Vec<Vec<Piece>>) -> (w: usize)
    ensures
        w as nat == if ls@.len() > 0 {
            line_width(line_view(ls@[0]@))
        } else {
            0
        },
{
    if ls.len() > 0 {
        text_of_line(&ls[0]).len()
    } else {
        0
    }
}

/// Two boxes side by side, `gap` spaces apart.
pub fn combine_boxes(left: Vec<Vec<Piece>>, right: Vec<Vec<Piece>>, gap: usize) -> (r: Vec<Vec<Piece>>)
    ensures
        lines_view(r@) == side_by_side(lines_view(left@), lines_view(right@), gap as nat),
{
    let ghost spec = side_by_side(lines_view(left@), lines_view(right@), gap as nat);
    let lw = first_width(&left);
    let rw = first_width(&right);
    let ghost lv = lines_view(left@);
    let ghost rv = lines_view(right@);
    let ln = left.len();
    let rn = right.len();
    let n = if ln >= rn {
        ln
    } else {
        rn
    };
    let mut left = left;
    let mut right = right;
    let mut out: Vec<Vec<Piece>> = Vec::new();
    let mut i: usize = 0;
    while i < n
        invariant
            i <= n,
            n == if ln >= rn {
                ln
            } else {
                rn
            },
            ln == lv.len(),
            rn == rv.len(),
            lw as nat == if lv.len() > 0 {
                line_width(lv[0])
            } else {
                0
            },
            rw as nat == if rv.len() > 0 {
                line_width(rv[0])
            } else {
                0
            },
            spec == side_by_side(lv, rv, gap as nat),
            spec.len() == n,
            lines_view(left@) == if i <= ln {
                lv.skip(i as int)
            } else {
                Seq::empty()
            },
            lines_view(right@) == if i <= rn {
                rv.skip(i as int)
            } else {
                Seq::empty()
            },
            lines_view(out@) == spec.take(i as int),
        decreases n - i,
    {
        let mut line: Vec<Piece> = if left.len() > 0 {
            let ghost lb = lines_view(left@);
            assert(lb.len() > 0);
            assert(i < ln);
            assert(lb[0] == lv[i as int]);
            let l = left.remove(0);
            assert(lb[0] == line_view(l@));
            assert(lines_view(left@) =~= lb.drop_first());
            l
        } else {
            assert(lines_view(left@).len() == 0);
            assert(!((i as int) < lv.len()));
            let b = vec![piece(repeated(' ', lw), Tone::Plain)];
            assert(line_view(b@) =~= seq![(spaces(lw as nat), Tone::Plain)]);
            b
        };
        let ghost lpart = line_view(line@);
        assert(lpart == if (i as int) < lv.len() {
            lv[i as int]
        } else {
            seq![(spaces(lw as nat), Tone::Plain)]
        });
        line.push(piece(repeated(' ', gap), Tone::Plain));
        let rpart: Vec<Piece> = if right.len() > 0 {
            let ghost rb = lines_view(right@);
            let l = right.remove(0);
            assert(rb[0] == line_view(l@));
            assert(lines_view(right@) =~= rb.drop_first());
            l
        } else {
            let b = vec![piece(repeated(' ', rw), Tone::Plain)];
            assert(line_view(b@) =~= seq![(spaces(rw as nat), Tone::Plain)]);
            b
        };
        assert(line_view(rpart@) == if (i as int) < rv.len() {
            rv[i as int]
        } else {
            seq![(spaces(rw as nat), Tone::Plain)]
        });
        let ghost before_r = line_view(line@);
        let mut rpart = rpart;
        let ghost rtarget = line_view(rpart@);
        while rpart.len() > 0
            invariant
                line_view(line@) == before_r + rtarget.take(rtarget.len() - rpart@.len()),
                line_view(rpart@) == rtarget.skip(rtarget.len() - rpart@.len()),
                rpart@.len() <= rtarget.len(),
            decreases rpart@.len(),
        {
            let ghost b = line_view(line@);
            let ghost rb = line_view(rpart@);
            let p = rpart.remove(0);
            assert(rb[0] == (p.text@, p.tone));
            line.push(p);
            assert(line_view(line@) =~= b.push(rb[0]));
            assert(line_view(rpart@) =~= rb.drop_first());
            assert(rtarget.take(rtarget.len() - rpart@.len()) =~= rtarget.take(rtarget.len() - rpart@.len() - 1).push(rb[0]));
            assert(rtarget.skip(rtarget.len() - rpart@.len()) =~= rb.drop_first());
        }
        assert(rtarget.take(rtarget.len() as int) =~= rtarget);
        assert(line_view(line@) =~= spec[i as int]);
        let ghost before = lines_view(out@);
        out.push(line);
        assert(lines_view(out@) =~= before.push(spec[i as int]));
        i = i + 1;
        assert(spec.take(i as int) =~= spec.take(i - 1).push(spec[i - 1]));
        assert(i <= ln ==> lv.skip(i as int) =~= lv.skip(i - 1).drop_first());
        assert(i <= rn ==> rv.skip(i as int) =~= rv.skip(i - 1).drop_first());
    }
    assert(spec.take(n as int) =~= spec);
    out
}


pub open spec fn grid_views(rows: Seq<(Vec<Vec<Piece>>, Option<Vec<Vec<Piece>>>)>) -> Seq<(Seq<LineView>, Option<Seq<LineView>>)> {
    rows.map_values(
        |r: (Vec<Vec<Piece>>, Option<Vec<Vec<Piece>>>)|
            (
                lines_view(r.0@),
                match r.1 {
                    Some(x) => Some(lines_view(x@)),
                    None => None,
                },
            ),
    )
}

/// Rows of boxes, one box or two side by side (two spaces apart), with an
/// empty line between rows.
pub fn detail_grid(rows: Vec<(Vec<Vec<Piece>>, Option<Vec<Vec<Piece>>>)>) -> (r: Vec<Vec<Piece>>)
    ensures
        lines_view(r@) == grid_of(grid_views(rows@)),
{
    let ghost gv = grid_views(rows@);
    let n = rows.len();
    let mut rows = rows;
    let mut out: Vec<Vec<Piece>> = Vec::new();
    let mut i: usize = 0;
    while i < n
        invariant
            i <= n,
            n == gv.len(),
            grid_views(rows@) == gv.skip(i as int),
            lines_view(out@) == grid_of(gv.take(i as int)),
        decreases n - i,
    {
        let ghost rb = grid_views(rows@);
        assert(rb.len() == rows@.len());
        assert(rb.len() == n - i);
        assert(rb[0] == gv[i as int]);
        let (left, right) = rows.remove(0);
        assert(grid_views(rows@) =~= rb.drop_first());
        assert(gv.take(i + 1).drop_last() =~= gv.take(i as int));
        assert(gv.take(i + 1).last() == gv[i as int]);
        let ghost b0 = lines_view(out@);
        if i > 0 {
            let e: Vec<Piece> = Vec::new();
            assert(line_view(e@) =~= Seq::<(Seq<char>, Tone)>::empty());
            out.push(e);
            assert(lines_view(out@) =~= b0 + seq![Seq::<(Seq<char>, Tone)>::empty()]);
        } else {
            assert(lines_view(out@) =~= b0 + Seq::<LineView>::empty());
        }
        let block = match right {
            Some(r) => combine_boxes(left, r, 2),
            None => left,
        };
        assert(lines_view(block@) == grid_row(gv[i as int]));
        push_lines(&mut out, block);
        i = i + 1;
        assert(gv.skip(i as int) =~= gv.skip(i - 1).drop_first());
    }
    assert(gv.take(n as int) =~= gv);
    out
}


// The width of a box.

pub proof fn lemma_line_text_push(l: LineView, x: (Seq<char>, Tone))
    ensures
        line_text(l.push(x)) == line_text(l) + x.0,
{
    assert(l.push(x).drop_last() =~= l);
}

proof fn lemma_width3(a: (Seq<char>, Tone), b: (Seq<char>, Tone), c: (Seq<char>, Tone))
    ensures
        line_width(seq![a, b, c]) == a.0.len() + b.0.len() + c.0.len(),
{
    let e = Seq::<(Seq<char>, Tone)>::empty();
    lemma_line_text_push(e, a);
    lemma_line_text_push(e.push(a), b);
    lemma_line_text_push(e.push(a).push(b), c);
    assert(seq![a, b, c] =~= e.push(a).push(b).push(c));
}

proof fn lemma_width4(a: (Seq<char>, Tone), b: (Seq<char>, Tone), c: (Seq<char>, Tone), d: (Seq<char>, Tone))
    ensures
        line_width(seq![a, b, c, d]) == a.0.len() + b.0.len() + c.0.len() + d.0.len(),
{
    let e = Seq::<(Seq<char>, Tone)>::empty();
    lemma_line_text_push(e, a);
    lemma_line_text_push(e.push(a), b);
    lemma_line_text_push(e.push(a).push(b), c);
    lemma_line_text_push(e.push(a).push(b).push(c), d);
    assert(seq![a, b, c, d] =~= e.push(a).push(b).push(c).push(d));
}

proof fn lemma_width5(
    a: (Seq<char>, Tone),
    b: (Seq<char>, Tone),
    c: (Seq<char>, Tone),
    d: (Seq<char>, Tone),
    f: (Seq<char>, Tone),
)
    ensures
        line_width(seq![a, b, c, d, f]) == a.0.len() + b.0.len() + c.0.len() + d.0.len() + f.0.len(),
{
    let e = Seq::<(Seq<char>, Tone)>::empty();
    lemma_line_text_push(e, a);
    lemma_line_text_push(e.push(a), b);
    lemma_line_text_push(e.push(a).push(b), c);
    lemma_line_text_push(e.push(a).push(b).push(c), d);
    lemma_line_text_push(e.push(a).push(b).push(c).push(d), f);
    assert(seq![a, b, c, d, f] =~= e.push(a).push(b).push(c).push(d).push(f));
}

proof fn lemma_field_rows_width(
    i: usize,
    f: (Seq<char>, Seq<char>),
    inner: nat,
    stacked: bool,
    lw: nat,
    vw: nat,
)
    requires
        stacked || lw + vw + 1 == inner,
    ensures
        forall|k: int|
            0 <= k < field_rows(i, f, inner, stacked, lw, vw).len() ==> line_width(
                #[trigger] field_rows(i, f, inner, stacked, lw, vw)[k],
            ) == inner + 2,
{
    reveal_strlit("│");
    reveal_strlit(" ");
    reveal_strlit("  ");
    let rows = field_rows(i, f, inner, stacked, lw, vw);
    if stacked {
        let parts = wrap_pieces(
            split_on(f.1, '\n'),
            if inner >= 3 {
                (inner - 2) as nat
            } else {
                1
            },
        );
        let first = seq![seq![("│"@, Tone::Frame), (padded(f.0, inner), Tone::Label(i)), ("│"@, Tone::Frame)]];
        let mid = Seq::new(
            parts.len(),
            |k: int| seq![("│"@, Tone::Frame), (padded("  "@ + parts[k], inner), Tone::Value(i)), ("│"@, Tone::Frame)],
        );
        assert(rows == first + mid + seq![blank_line(inner)]);
        assert forall|k: int| 0 <= k < rows.len() implies line_width(#[trigger] rows[k]) == inner + 2 by {
            if k == 0 {
                assert(rows[k] == first[0]);
                lemma_width3(("│"@, Tone::Frame), (padded(f.0, inner), Tone::Label(i)), ("│"@, Tone::Frame));
            } else if k <= parts.len() {
                assert(rows[k] == mid[k - 1]);
                lemma_width3(
                    ("│"@, Tone::Frame),
                    (padded("  "@ + parts[k - 1], inner), Tone::Value(i)),
                    ("│"@, Tone::Frame),
                );
            } else {
                assert(rows[k] == blank_line(inner));
                lemma_width3(("│"@, Tone::Frame), (spaces(inner), Tone::Plain), ("│"@, Tone::Frame));
            }
        }
    } else {
        let parts = wrap_pieces(split_on(f.1, '\n'), vw);
        assert forall|k: int| 0 <= k < rows.len() implies line_width(#[trigger] rows[k]) == inner + 2 by {
            assert(rows[k] == seq![
                ("│"@, Tone::Frame),
                (
                    if k == 0 {
                        padded(f.0, lw)
                    } else {
                        spaces(lw)
                    },
                    Tone::Label(i),
                ),
                (" "@, Tone::Plain),
                (padded(parts[k], vw), Tone::Value(i)),
                ("│"@, Tone::Frame),
            ]);
            lemma_width5(
                ("│"@, Tone::Frame),
                (
                    if k == 0 {
                        padded(f.0, lw)
                    } else {
                        spaces(lw)
                    },
                    Tone::Label(i),
                ),
                (" "@, Tone::Plain),
                (padded(parts[k], vw), Tone::Value(i)),
                ("│"@, Tone::Frame),
            );
        }
    }
}

proof fn lemma_body_width(
    fields: Seq<(Seq<char>, Seq<char>)>,
    inner: nat,
    stacked: bool,
    lw: nat,
    vw: nat,
)
    requires
        stacked || lw + vw + 1 == inner,
    ensures
        forall|k: int|
            0 <= k < body_rows(fields, inner, stacked, lw, vw).len() ==> line_width(
                #[trigger] body_rows(fields, inner, stacked, lw, vw)[k],
            ) == inner + 2,
    decreases fields.len(),
{
    if fields.len() > 0 {
        let rest = body_rows(fields.drop_last(), inner, stacked, lw, vw);
        let last = field_rows((fields.len() - 1) as usize, fields.last(), inner, stacked, lw, vw);
        lemma_body_width(fields.drop_last(), inner, stacked, lw, vw);
        lemma_field_rows_width((fields.len() - 1) as usize, fields.last(), inner, stacked, lw, vw);
        let all = body_rows(fields, inner, stacked, lw, vw);
        assert(all == rest + last);
        assert forall|k: int| 0 <= k < all.len() implies line_width(#[trigger] all[k]) == inner + 2 by {
            if k < rest.len() {
                assert(all[k] == rest[k]);
            } else {
                assert(all[k] == last[k - rest.len()]);
            }
        }
    }
}

proof fn lemma_trim_prefix(ls: Seq<LineView>, inner: nat)
    ensures
        trim_blank_tail(ls, inner).len() <= ls.len(),
        forall|k: int| 0 <= k < trim_blank_tail(ls, inner).len() ==> #[trigger] trim_blank_tail(ls, inner)[k] == ls[k],
    decreases ls.len(),
{
    if ls.len() > 2 && is_blank(ls.last(), inner) && is_blank(ls[ls.len() - 2], inner) {
        lemma_trim_prefix(ls.drop_last(), inner);
    }
}

/// When a box is at least three characters wide and, with values beside
/// their labels, wider than its labels need, every line of it, borders
/// included, is exactly `width` characters wide.
pub proof fn lemma_kv_box_width(title: Seq<char>, fields: Seq<(Seq<char>, Seq<char>)>, width: nat, stacked: bool)
    requires
        width >= 3,
        stacked || width - 2 > clamp_nat(longest_label(fields), 8, 18) + 1,
    ensures
        forall|k: int|
            0 <= k < kv_box_of(title, fields, width, stacked).len() ==> line_width(
                #[trigger] kv_box_of(title, fields, width, stacked)[k],
            ) == width,
{
    reveal_strlit("│");
    reveal_strlit("┌");
    reveal_strlit("┐");
    reveal_strlit("└");
    reveal_strlit("┘");
    let inner = inner_of(width);
    let lw = clamp_nat(longest_label(fields), 8, 18);
    let vw = if inner > lw + 1 {
        (inner - lw - 1) as nat
    } else {
        1
    };
    let body = if fields.len() == 0 {
        seq![blank_line(inner)]
    } else {
        body_rows(fields, inner, stacked, lw, vw)
    };
    let head = seq![top_line(title, inner)] + body;
    assert(head[0] == top_line(title, inner));
    let t = truncated(" "@ + title + " "@, inner);
    lemma_width4(("┌"@, Tone::Frame), (t, Tone::Title), (rule((inner - t.len()) as nat), Tone::Frame), ("┐"@, Tone::Frame));
    lemma_width3(("│"@, Tone::Frame), (spaces(inner), Tone::Plain), ("│"@, Tone::Frame));
    lemma_body_width(fields, inner, stacked, lw, vw);
    assert forall|k: int| 0 <= k < head.len() implies line_width(#[trigger] head[k]) == width by {
        if k > 0 {
            assert(head[k] == body[k - 1]);
        }
    }
    lemma_trim_prefix(head, inner);
    let trimmed = trim_blank_tail(head, inner);
    let e = Seq::<(Seq<char>, Tone)>::empty();
    lemma_line_text_push(e, ("└"@ + rule(inner) + "┘"@, Tone::Frame));
    assert(bottom_line(inner) =~= e.push(("└"@ + rule(inner) + "┘"@, Tone::Frame)));
    let all = kv_box_of(title, fields, width, stacked);
    assert(all == trimmed + seq![bottom_line(inner)]);
    assert forall|k: int| 0 <= k < all.len() implies line_width(#[trigger] all[k]) == width by {
        if k < trimmed.len() {
            assert(all[k] == trimmed[k]);
            assert(trimmed[k] == head[k]);
        } else {
            assert(all[k] == bottom_line(inner));
        }
    }
}

// The width of boxes side by side.

/// The width of two runs of pieces one after the other is the sum of
/// their widths.
pub proof fn lemma_line_width_concat(a: LineView, b: LineView)
    ensures
        line_width(a + b) == line_width(a) + line_width(b),
    decreases b.len(),
{
    if b.len() == 0 {
        assert(a + b =~= a);
    } else {
        lemma_line_width_concat(a, b.drop_last());
        assert((a + b).drop_last() =~= a + b.drop_last());
        assert((a + b).last() == b.last());
    }
}

proof fn lemma_spaces_width(n: nat)
    ensures
        line_width(seq![(spaces(n), Tone::Plain)]) == n,
{
    let e = Seq::<(Seq<char>, Tone)>::empty();
    lemma_line_text_push(e, (spaces(n), Tone::Plain));
    assert(seq![(spaces(n), Tone::Plain)] =~= e.push((spaces(n), Tone::Plain)));
}

/// Two columns of lines of widths `wl` and `wr`, side by side `gap`
/// apart, make lines `wl + gap + wr` wide.
pub proof fn lemma_side_by_side_width(left: Seq<LineView>, right: Seq<LineView>, gap: nat, wl: nat, wr: nat)
    requires
        left.len() > 0,
        right.len() > 0,
        forall|k: int| 0 <= k < left.len() ==> line_width(#[trigger] left[k]) == wl,
        forall|k: int| 0 <= k < right.len() ==> line_width(#[trigger] right[k]) == wr,
    ensures
        forall|k: int|
            0 <= k < side_by_side(left, right, gap).len() ==> line_width(#[trigger] side_by_side(left, right, gap)[k])
                == wl + gap + wr,
{
    assert(line_width(left[0]) == wl);
    assert(line_width(right[0]) == wr);
    lemma_spaces_width(wl);
    lemma_spaces_width(wr);
    lemma_spaces_width(gap);
    let sbs = side_by_side(left, right, gap);
    assert forall|k: int| 0 <= k < sbs.len() implies line_width(#[trigger] sbs[k]) == wl + gap + wr by {
        let l = if k < left.len() {
            left[k]
        } else {
            seq![(spaces(wl), Tone::Plain)]
        };
        let r = if k < right.len() {
            right[k]
        } else {
            seq![(spaces(wr), Tone::Plain)]
        };
        let g = seq![(spaces(gap), Tone::Plain)];
        assert(sbs[k] == l + g + r);
        lemma_line_width_concat(l, g);
        lemma_line_width_concat(l + g, r);
    }
}

/// When no line of any row of boxes is wider than `w`, no line of the
/// grid is.
pub proof fn lemma_grid_fits(rows: Seq<(Seq<LineView>, Option<Seq<LineView>>)>, w: nat)
    requires
        forall|i: int, k: int|
            0 <= i < rows.len() && 0 <= k < grid_row(rows[i]).len() ==> line_width(#[trigger] grid_row(rows[i])[k])
                <= w,
    ensures
        forall|k: int| 0 <= k < grid_of(rows).len() ==> line_width(#[trigger] grid_of(rows)[k]) <= w,
    decreases rows.len(),
{
    if rows.len() > 0 {
        let front = rows.drop_last();
        assert forall|i: int, k: int|
            0 <= i < front.len() && 0 <= k < grid_row(front[i]).len() implies line_width(
                #[trigger] grid_row(front[i])[k],
            ) <= w by {
            assert(front[i] == rows[i]);
        }
        lemma_grid_fits(front, w);
        let g = grid_of(rows);
        let head = grid_of(front);
        let gap = if rows.len() > 1 {
            seq![Seq::<(Seq<char>, Tone)>::empty()]
        } else {
            Seq::empty()
        };
        let last = grid_row(rows.last());
        assert(g == head + gap + last);
        assert forall|k: int| 0 <= k < g.len() implies line_width(#[trigger] g[k]) <= w by {
            if k < head.len() {
                assert(g[k] == head[k]);
            } else if k < head.len() + gap.len() {
                assert(g[k] == Seq::<(Seq<char>, Tone)>::empty());
            } else {
                assert(g[k] == last[k - head.len() - gap.len()]);
                assert(rows.last() == rows[rows.len() - 1]);
            }
        }
    }
}

} // verus!
