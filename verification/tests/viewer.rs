use sheets_tui::app::App;
use sheets_tui::ui::{row_height, ui, MIN_COL_WIDTH};

fn grid(rows: &[&[&str]]) -> Vec<Vec<String>> {
    rows.iter().map(|r| r.iter().map(|c| c.to_string()).collect()).collect()
}

#[test]
fn scenario_named_sheet_wraparound() {
    let mut app = App::new();
    app.add_sheet(
        Some("S1".to_string()),
        grid(&[&["Date", "Happiness"], &["1/1", "3"], &["1/2", "6"]]),
    );
    app.switch_sheet("S1");
    app.next();
    assert_eq!(app.state, Some(0));
    app.next();
    assert_eq!(app.state, Some(1));
    app.next();
    assert_eq!(app.state, Some(0));
}

#[test]
fn scenario_default_names() {
    let mut app = App::new();
    app.add_sheet(None, grid(&[&["a"]]));
    app.add_sheet(None, grid(&[&["b"]]));
    assert_eq!(app.sheets.len(), 2);
    assert_eq!(app.sheets[0].0, "0");
    assert_eq!(app.sheets[1].0, "1");
}

#[test]
fn scenario_unknown_name_fails_loudly() {
    let mut app = App::new();
    app.add_sheet(Some("present".to_string()), grid(&[&["h"], &["b"]]));
    let r = app.try_switch_sheet("X");
    assert!(r.is_err());
    assert_eq!(app.sheets.len(), 1);
    assert_eq!(app.sheets[0].0, "present");
    assert!(app.current.is_none());
}

#[test]
fn row_height_law() {
    let row: Vec<String> =
        vec!["plain".to_string(), "one\ntwo\nthree".to_string(), "flat".to_string()];
    assert_eq!(row_height(&row), 3);
}

#[test]
fn row_height_of_empty_row_is_one() {
    let row: Vec<String> = Vec::new();
    assert_eq!(row_height(&row), 1);
    assert_eq!(row_height(&vec!["no breaks".to_string()]), 1);
}

#[test]
fn ragged_rows_render_with_empty_cells() {
    let mut app = App::new();
    app.add_sheet(Some("r".to_string()), grid(&[&["a", "b", "c"], &["only"], &[]]));
    app.switch_sheet("r");
    let d = ui(&app);
    assert_eq!(d.header, vec!["a", "b", "c"]);
    assert_eq!(d.rows.len(), 2);
    assert_eq!(d.rows[0].cells, vec!["only", "", ""]);
    assert_eq!(d.rows[1].cells, vec!["", "", ""]);
    assert_eq!(d.rows[0].height, 1);
    assert_eq!(d.rows[1].height, 1);
}

#[test]
fn previous_wraps_and_round_trips() {
    let mut app = App::new();
    app.add_sheet(Some("s".to_string()), grid(&[&["h"], &["r1"], &["r2"], &["r3"]]));
    app.switch_sheet("s");
    app.next();
    assert_eq!(app.state, Some(0));
    app.previous();
    assert_eq!(app.state, Some(2));
    app.previous();
    assert_eq!(app.state, Some(1));
    app.previous();
    assert_eq!(app.state, Some(0));
    app.next();
    app.previous();
    assert_eq!(app.state, Some(0));
}

#[test]
fn switch_swaps_without_losing_sheets() {
    let mut app = App::new();
    let ga = grid(&[&["h"], &["a1"]]);
    let gb = grid(&[&["h"], &["b1"], &["b2"]]);
    app.add_sheet(Some("A".to_string()), ga.clone());
    app.add_sheet(Some("B".to_string()), gb.clone());
    app.switch_sheet("A");
    assert_eq!(app.sheets.len(), 1);
    let cur = app.current.as_ref().unwrap();
    assert_eq!(cur.name, "A");
    assert_eq!(cur.data, ga);
    app.switch_sheet("B");
    assert_eq!(app.sheets.len(), 1);
    assert_eq!(app.sheets[0].0, "A");
    assert_eq!(app.sheets[0].1, ga);
    let cur = app.current.as_ref().unwrap();
    assert_eq!(cur.name, "B");
    assert_eq!(cur.data, gb);
}

#[test]
fn default_name_reaches_two_digits() {
    let mut app = App::new();
    for i in 0..10 {
        app.add_sheet(Some(format!("n{}", i)), grid(&[&["h"]]));
    }
    app.add_sheet(None, grid(&[&["h"]]));
    assert_eq!(app.sheets[10].0, "10");
}

#[test]
fn remove_and_take_returns_the_grid() {
    let mut app = App::new();
    let g = grid(&[&["h"], &["b"]]);
    app.add_sheet(Some("s".to_string()), g.clone());
    let taken = app.remove_and_take("s");
    assert_eq!(taken.unwrap(), g);
    assert!(app.sheets.is_empty());
}

#[test]
fn remove_and_take_of_unknown_name_fails() {
    let mut app = App::new();
    app.add_sheet(Some("s".to_string()), grid(&[&["h"]]));
    assert!(app.remove_and_take("t").is_err());
    assert_eq!(app.sheets.len(), 1);
}

#[test]
fn adding_same_name_replaces() {
    let mut app = App::new();
    app.add_sheet(Some("s".to_string()), grid(&[&["old"]]));
    app.add_sheet(Some("s".to_string()), grid(&[&["new"]]));
    assert_eq!(app.sheets.len(), 1);
    assert_eq!(app.sheets[0].1, grid(&[&["new"]]));
}

#[test]
fn empty_grid_renders_empty_table() {
    let mut app = App::new();
    app.add_sheet(Some("empty".to_string()), Vec::new());
    app.switch_sheet("empty");
    let d = ui(&app);
    assert!(d.header.is_empty());
    assert!(d.rows.is_empty());
    assert!(d.widths.is_empty());
    assert_eq!(d.highlighted, None);
}

#[test]
fn header_only_grid_renders_no_body() {
    let mut app = App::new();
    app.add_sheet(Some("h".to_string()), grid(&[&["x", "y"]]));
    app.switch_sheet("h");
    let d = ui(&app);
    assert_eq!(d.header, vec!["x", "y"]);
    assert!(d.rows.is_empty());
    assert_eq!(d.widths, vec![MIN_COL_WIDTH, MIN_COL_WIDTH]);
    assert_eq!(d.header_height, 1);
    assert_eq!(d.header_bottom_margin, 1);
}

#[test]
fn multiline_cells_set_row_heights() {
    let mut app = App::new();
    app.add_sheet(
        Some("m".to_string()),
        grid(&[&["c1", "c2"], &["a", "b\nc"], &["d\ne\nf\ng", "h"]]),
    );
    app.switch_sheet("m");
    app.next();
    let d = ui(&app);
    assert_eq!(d.rows[0].height, 2);
    assert_eq!(d.rows[1].height, 4);
    assert_eq!(d.rows[0].bottom_margin, 1);
    assert_eq!(d.rows[1].bottom_margin, 1);
    assert_eq!(d.widths, vec![MIN_COL_WIDTH, MIN_COL_WIDTH]);
    assert_eq!(d.highlighted, Some(0));
}

#[test]
fn navigation_on_empty_body_records_zero() {
    let mut app = App::new();
    app.add_sheet(Some("h".to_string()), grid(&[&["only header"]]));
    app.switch_sheet("h");
    app.next();
    assert_eq!(app.state, Some(0));
    app.next();
    assert_eq!(app.state, Some(0));
    app.previous();
    assert_eq!(app.state, Some(0));
}

#[test]
fn selection_persists_across_switch() {
    let mut app = App::new();
    app.add_sheet(Some("A".to_string()), grid(&[&["h"], &["1"], &["2"], &["3"]]));
    app.add_sheet(Some("B".to_string()), grid(&[&["h"], &["1"]]));
    app.switch_sheet("A");
    app.next();
    app.next();
    assert_eq!(app.state, Some(1));
    app.switch_sheet("B");
    assert_eq!(app.state, Some(1));
    app.next();
    assert_eq!(app.state, Some(0));
}
