//! Where the clickable parts of a frame lie: the rows of a table and the
//! footer's buttons, and the hint line under the footer.
use vstd::prelude::*;

use crate::app::Page;
use crate::control::ModalKind;
use crate::state::{
    footer_action_label, footer_actions, footer_actions_of, footer_label_of, inside, sat16, Area, FooterAction,
    HitTarget, RowKind,
};
use crate::text::{append_str, chars_of, owned, string_of};

verus! {

/// `a - b`, kept at zero.
pub open spec fn sat_sub16(a: u16, b: u16) -> nat {
    if a >= b {
        (a - b) as nat
    } else {
        0
    }
}

/// The click areas of a table's rows: one line each from the second line
/// inside the border down to the bottom border, for as many rows as there
/// are and fit, each naming its row by position.
pub open spec fn row_hits_of(area: Area, row_count: nat, kind: RowKind) -> Seq<(Area, HitTarget)> {
    let body_y = sat16(area.y, 2);
    let bottom = sat16(area.y, sat_sub16(area.height, 1) as u16);
    let room: nat = if bottom >= body_y {
        (bottom - body_y) as nat
    } else {
        0
    };
    let n: nat = if row_count < room {
        row_count
    } else {
        room
    };
    Seq::new(
        n,
        |i: int|
            (
                Area {
                    x: sat16(area.x, 1) as u16,
                    y: (body_y + i) as u16,
                    width: sat_sub16(area.width, 2) as u16,
                    height: 1,
                },
                HitTarget::Row(kind, i as usize),
            ),
    )
}

pub fn table_row_hits(area: Area, row_count: usize, kind: RowKind) -> (r: Vec<(Area, HitTarget)>)
    ensures
        r@ == row_hits_of(area, row_count as nat, kind),
{
    let body_y: u16 = if area.y <= u16::MAX - 2 {
        area.y + 2
    } else {
        u16::MAX
    };
    let inner: u16 = if area.height >= 1 {
        area.height - 1
    } else {
        0
    };
    let bottom: u16 = if area.y <= u16::MAX - inner {
        area.y + inner
    } else {
        u16::MAX
    };
    let x: u16 = if area.x < u16::MAX {
        area.x + 1
    } else {
        u16::MAX
    };
    let width: u16 = if area.width >= 2 {
        area.width - 2
    } else {
        0
    };
    let room: usize = if bottom >= body_y {
        (bottom - body_y) as usize
    } else {
        0
    };
    let n = if row_count < room {
        row_count
    } else {
        room
    };
    let ghost spec = row_hits_of(area, row_count as nat, kind);
    let mut r: Vec<(Area, HitTarget)> = Vec::new();
    let mut i: usize = 0;
    while i < n
        invariant
            i <= n,
            n == spec.len(),
            n <= room,
            room as nat + body_y as nat <= u16::MAX,
            spec == row_hits_of(area, row_count as nat, kind),
            body_y as nat == sat16(area.y, 2),
            x as nat == sat16(area.x, 1),
            width as nat == sat_sub16(area.width, 2),
            r@ == spec.take(i as int),
        decreases n - i,
    {
        let y = body_y + i as u16;
        r.push((Area { x, y, width, height: 1 }, HitTarget::Row(kind, i)));
        assert(spec.take(i + 1) =~= spec.take(i as int).push(spec[i as int]));
        i = i + 1;
    }
    assert(spec.take(n as int) =~= spec);
    r
}

/// A click on a row's area lands inside the table, on the line of that
/// row and on no other row's line.
pub proof fn lemma_row_hits_inside(area: Area, row_count: nat, kind: RowKind, i: int, column: u16, row: u16)
    requires
        0 <= i < row_hits_of(area, row_count, kind).len(),
        inside(row_hits_of(area, row_count, kind)[i].0, column, row),
    ensures
        inside(area, column, row),
        row == sat16(area.y, 2) + i,
        row_hits_of(area, row_count, kind)[i].1 == HitTarget::Row(kind, i as usize),
        forall|j: int|
            0 <= j < row_hits_of(area, row_count, kind).len() && j != i ==> !inside(
                #[trigger] row_hits_of(area, row_count, kind)[j].0,
                column,
                row,
            ),
{
}

/// The number of bytes of a character in UTF-8.
pub open spec fn char_bytes(c: char) -> nat {
    if c >= '\u{10000}' {
        4
    } else if c >= '\u{800}' {
        3
    } else if c >= '\u{80}' {
        2
    } else {
        1
    }
}

/// The number of bytes of a text in UTF-8.
pub open spec fn utf8_len(s: Seq<char>) -> nat
    decreases s.len(),
{
    if s.len() == 0 {
        0
    } else {
        utf8_len(s.drop_last()) + char_bytes(s.last())
    }
}

fn utf8_len_exec(v: &Vec<char>) -> (n: usize)
    requires
        v@.len() <= 1000,
    ensures
        n as nat == utf8_len(v@),
        n <= 4 * v@.len(),
{
    let mut n: usize = 0;
    let mut i: usize = 0;
    while i < v.len()
        invariant
            i <= v@.len() <= 1000,
            n as nat == utf8_len(v@.take(i as int)),
            n <= 4 * i,
        decreases v@.len() - i,
    {
        let c = v[i];
        let b: usize = if c >= '\u{10000}' {
            4
        } else if c >= '\u{800}' {
            3
        } else if c >= '\u{80}' {
            2
        } else {
            1
        };
        assert(v@.take(i + 1).drop_last() =~= v@.take(i as int));
        n = n + b;
        i = i + 1;
    }
    assert(v@.take(v@.len() as int) =~= v@);
    n
}

/// The text of a footer button.
pub open spec fn footer_token_of(action: FooterAction, page: Page) -> Seq<char> {
    "["@ + footer_label_of(action, page) + "] "@
}

/// The footer's buttons from column `x` of line `y` on, each as wide as
/// its text's length in UTF-8 bytes.
pub open spec fn footer_buttons_of(x: u16, y: u16, actions: Seq<FooterAction>, page: Page) -> Seq<
    (Seq<char>, Area, FooterAction),
>
    decreases actions.len(),
{
    if actions.len() == 0 {
        Seq::empty()
    } else {
        let t = footer_token_of(actions[0], page);
        let w = utf8_len(t) as u16;
        seq![(t, Area { x, y, width: w, height: 1 }, actions[0])] + footer_buttons_of(
            sat16(x, w) as u16,
            y,
            actions.skip(1),
            page,
        )
    }
}

pub open spec fn button_views(v: Seq<(String, Area, FooterAction)>) -> Seq<(Seq<char>, Area, FooterAction)> {
    v.map_values(|b: (String, Area, FooterAction)| (b.0@, b.1, b.2))
}

/// The footer's buttons for a page, from column `x` of line `y` on.
pub fn footer_buttons(x: u16, y: u16, page: Page) -> (r: Vec<(String, Area, FooterAction)>)
    ensures
        button_views(r@) == footer_buttons_of(x, y, footer_actions_of(page), page),
{
    let actions = footer_actions(page);
    let ghost all = footer_actions_of(page);
    let mut r: Vec<(String, Area, FooterAction)> = Vec::new();
    let mut cx = x;
    let mut i: usize = 0;
    assert(all.skip(0) =~= all);
    assert(button_views(r@) =~= Seq::<(Seq<char>, Area, FooterAction)>::empty());
    assert(Seq::<(Seq<char>, Area, FooterAction)>::empty() + footer_buttons_of(x, y, all, page) =~= footer_buttons_of(
        x,
        y,
        all,
        page,
    ));
    while i < actions.len()
        invariant
            i <= actions@.len(),
            actions@ == all,
            button_views(r@) + footer_buttons_of(cx, y, all.skip(i as int), page) == footer_buttons_of(
                x,
                y,
                all,
                page,
            ),
        decreases actions@.len() - i,
    {
        let action = actions[i];
        let mut t = chars_of("[");
        append_str(&mut t, footer_action_label(action, page));
        append_str(&mut t, "] ");
        assert(t@ =~= footer_token_of(action, page));
        assert(t@.len() <= 1000) by {
            reveal_strlit("[");
            reveal_strlit("] ");
            reveal_strlit("q Back");
            reveal_strlit("← Overview");
            reveal_strlit("r Refresh");
            reveal_strlit("h Help");
            reveal_strlit("m Mine/All");
            reveal_strlit("Enter Detail");
            reveal_strlit("x Cancel");
            reveal_strlit("X Cancel Visible");
            reveal_strlit("n Open Node");
            reveal_strlit("c Clear Filters");
        }
        let w = utf8_len_exec(&t) as u16;
        let ghost rest = all.skip(i as int);
        assert(rest[0] == action);
        assert(rest.skip(1) =~= all.skip(i + 1));
        let ghost before = button_views(r@);
        r.push((string_of(&t), Area { x: cx, y, width: w, height: 1 }, action));
        assert(button_views(r@) =~= before.push((t@, Area { x: cx, y, width: w, height: 1 }, action)));
        cx = if cx <= u16::MAX - w {
            cx + w
        } else {
            u16::MAX
        };
        i = i + 1;
    }
    assert(all.skip(actions@.len() as int) =~= Seq::<FooterAction>::empty());
    assert(button_views(r@) =~= button_views(r@) + Seq::<(Seq<char>, Area, FooterAction)>::empty());
    r
}

/// The hint under the footer: how to move in the open dialog, or the
/// keys of the page followed by the common ones.
pub open spec fn footer_hint_of(page: Page, modal: Option<ModalKind>) -> Seq<char> {
    match modal {
        Some(ModalKind::Help) => "Help: j/k scroll  Space/b page  g/G top/bottom  q or Esc close"@,
        Some(ModalKind::JobDetail) => "Job Detail: j/k scroll  Space/b page  g/G top/bottom  q back  Wheel scroll"@,
        Some(ModalKind::ConfirmCancel) =>
            "Cancel Preview: j/k scroll  Space/b page  g/G top/bottom  Enter/y confirm  q/Esc/n back"@,
        Some(ModalKind::CancelResult) =>
            "Cancel Result: j/k scroll  Space/b page  g/G top/bottom  q back  Wheel scroll"@,
        None => page_hint_of(page) + "  Search: /  Help: h  Mouse: tabs, rows, footer buttons, and modal buttons"@,
    }
}

pub open spec fn page_hint_of(page: Page) -> Seq<char> {
    match page {
        Page::Overview =>
            "Overview: q Quit  g change metric  p pin partition  Enter open partition detail  ← → horizontal view  Click column headers to sort"@,
        Page::MyJobs | Page::AllJobs =>
            "Queue: q Quit  f change state filter  s change sort  m toggle mine-only  x cancel selected job  X review visible jobs for cancel  Enter open job detail  ← → horizontal view"@,
        Page::PartitionDetail =>
            "Partition: q Back  Tab switch top-level pages  s change job sort  [ or ] choose node  n open selected node  g metric  m toggle mine-only  x cancel selected job  ← → horizontal view"@,
        Page::Users =>
            "Users: q Quit  Enter open selected user's jobs  s change sort  m toggle mine-only  Space / b page  ← → horizontal view  Click column headers to sort"@,
        Page::NodeDetail =>
            "Node: q Back  u user filter  f state filter  w where filter  y why filter  c clear filters  x cancel selected job  Space / b page  ← → horizontal view"@,
    }
}

fn page_hint(page: Page) -> (s: &'static str)
    ensures
        s@ == page_hint_of(page),
{
    match page {
        Page::Overview =>
            "Overview: q Quit  g change metric  p pin partition  Enter open partition detail  ← → horizontal view  Click column headers to sort",
        Page::MyJobs | Page::AllJobs =>
            "Queue: q Quit  f change state filter  s change sort  m toggle mine-only  x cancel selected job  X review visible jobs for cancel  Enter open job detail  ← → horizontal view",
        Page::PartitionDetail =>
            "Partition: q Back  Tab switch top-level pages  s change job sort  [ or ] choose node  n open selected node  g metric  m toggle mine-only  x cancel selected job  ← → horizontal view",
        Page::Users =>
            "Users: q Quit  Enter open selected user's jobs  s change sort  m toggle mine-only  Space / b page  ← → horizontal view  Click column headers to sort",
        Page::NodeDetail =>
            "Node: q Back  u user filter  f state filter  w where filter  y why filter  c clear filters  x cancel selected job  Space / b page  ← → horizontal view",
    }
}

pub fn footer_hint(page: Page, modal: Option<ModalKind>) -> (s: String)
    ensures
        s@ == footer_hint_of(page, modal),
{
    match modal {
        Some(ModalKind::Help) => owned("Help: j/k scroll  Space/b page  g/G top/bottom  q or Esc close"),
        Some(ModalKind::JobDetail) => owned(
            "Job Detail: j/k scroll  Space/b page  g/G top/bottom  q back  Wheel scroll",
        ),
        Some(ModalKind::ConfirmCancel) => owned(
            "Cancel Preview: j/k scroll  Space/b page  g/G top/bottom  Enter/y confirm  q/Esc/n back",
        ),
        Some(ModalKind::CancelResult) => owned(
            "Cancel Result: j/k scroll  Space/b page  g/G top/bottom  q back  Wheel scroll",
        ),
        None => {
            let mut v = chars_of(page_hint(page));
            append_str(&mut v, "  Search: /  Help: h  Mouse: tabs, rows, footer buttons, and modal buttons");
            string_of(&v)
        },
    }
}

} // verus!
