use sqtop::layout::{combine_boxes, detail_grid, kv_box, wrapped_table, Piece, Tone};

fn texts(lines: &[Vec<Piece>]) -> Vec<String> {
    lines.iter().map(|l| l.iter().map(|p| p.text.as_str()).collect::<String>()).collect()
}

fn fields(pairs: &[(&str, &str)]) -> Vec<(String, String)> {
    pairs.iter().map(|(a, b)| (a.to_string(), b.to_string())).collect()
}

#[test]
fn kv_box_puts_values_beside_padded_labels() {
    let lines = kv_box("Basic", &fields(&[("Job ID", "7"), ("Name", "train")]), 24, false);
    assert_eq!(
        texts(&lines),
        vec![
            "┌ Basic ───────────────┐",
            "│Job ID   7            │",
            "│Name     train        │",
            "└──────────────────────┘",
        ]
    );
    assert_eq!(lines[1][1].tone, Tone::Label(0));
    assert_eq!(lines[2][3].tone, Tone::Value(1));
    assert_eq!(lines[0][1].tone, Tone::Title);
}

#[test]
fn stacked_kv_box_drops_trailing_blank_lines() {
    let lines = kv_box("X", &fields(&[("A", "")]), 10, true);
    assert_eq!(texts(&lines), vec!["┌ X ─────┐", "│A       │", "│        │", "└────────┘"]);
    let empty = kv_box("E", &Vec::new(), 6, false);
    assert_eq!(texts(&empty), vec!["┌ E ─┐", "│    │", "└────┘"]);
}

#[test]
fn wrapped_table_wraps_cells_and_notes() {
    let headers = vec!["A".to_string(), "B".to_string()];
    let rows = vec![vec!["x".to_string(), "long text".to_string()]];
    let lines = wrapped_table("T", Some("note"), &headers, &vec![3, 4], &rows);
    assert_eq!(
        texts(&lines),
        vec![
            "┌ T ─────────┐",
            "│note        │",
            "├────────────┤",
            "├─────┬──────┤",
            "│ A   │ B    │",
            "├─────┼──────┤",
            "│ x   │ long │",
            "│     │  tex │",
            "│     │ t    │",
            "└─────┴──────┘",
        ]
    );
    let empty = wrapped_table("Empty", None, &vec!["A".to_string()], &vec![5], &Vec::new());
    assert_eq!(
        texts(&empty),
        vec!["┌ Empty ┐", "├───────┤", "│ A     │", "├───────┤", "│No rows│", "└───────┘"]
    );
}

#[test]
fn boxes_combine_side_by_side_and_in_rows() {
    let left = kv_box("L", &fields(&[("a", "1"), ("b", "2")]), 12, false);
    let right = kv_box("R", &fields(&[("c", "3")]), 12, false);
    let joined = combine_boxes(left.clone(), right.clone(), 2);
    let t = texts(&joined);
    assert_eq!(t.len(), 4);
    assert_eq!(t[0], "┌ L ───────┐  ┌ R ───────┐");
    assert_eq!(t[3], "└──────────┘  ".to_string() + "            ");
    let grid = detail_grid(vec![(left, Some(right)), (kv_box("S", &Vec::new(), 6, false), None)]);
    let g = texts(&grid);
    assert_eq!(g.len(), 4 + 1 + 3);
    assert_eq!(g[4], "");
    assert_eq!(g[5], "┌ S ─┐");
}
