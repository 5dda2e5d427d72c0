use regular_table::events::Extent;
use regular_table::metadata::CellMetadata;
use regular_table::recycler::{Cell, Tag};
use regular_table::sizes::{ColumnSizes, Width};
use regular_table::table::{
    longest_path, measure_width, normalize_row_headers, pad_path, AutosizeEntry, CellMeasure,
    DrawError, FetchRequest, FetchResponse, MinWidthUpdate, RegularTableViewModel, Viewport,
    RESET_WIDTH, UNKEYED,
};

fn path(labels: &[&str]) -> Vec<String> {
    labels.iter().map(|label| label.to_string()).collect()
}

fn rows_of(lengths: &[usize]) -> Vec<Vec<String>> {
    lengths
        .iter()
        .enumerate()
        .map(|(row, length)| (0..*length).map(|level| format!("r{}l{}", row, level)).collect())
        .collect()
}

fn measure(client_width: i32) -> CellMeasure {
    CellMeasure {
        border_box: false,
        client_width,
        offset_width: client_width + 2,
        offset_height: 19,
        padding_left: 4,
        padding_right: 6,
    }
}

fn entry_with(id: u64, key: Option<&str>, measure: CellMeasure, min_width: &str) -> AutosizeEntry {
    let mut metadata = CellMetadata::new();
    metadata.size_key = key.map(|key| key.to_string());
    AutosizeEntry {
        cell: Cell { tag: Tag::Th, id },
        measure,
        min_width: min_width.to_string(),
        metadata,
    }
}

fn entry(id: u64, key: Option<&str>, client_width: i32) -> AutosizeEntry {
    entry_with(id, key, measure(client_width), "")
}

#[test]
fn a_viewport_does_not_end_before_it_starts() {
    let viewport = Viewport::new(0, 0, 5, 20).unwrap();
    assert_eq!(viewport, Viewport { start_col: 0, start_row: 0, end_col: 5, end_row: 20 });
    assert_eq!(viewport.num_columns(), 5);
    assert_eq!(viewport.num_rows(), 20);
    assert_eq!(Viewport::new(3, 7, 3, 7).unwrap().num_rows(), 0);
    assert_eq!(Viewport::new(6, 0, 5, 20), None);
    assert_eq!(Viewport::new(0, 21, 5, 20), None);
}

#[test]
fn draw_asks_for_the_window() {
    let table = RegularTableViewModel::new(ColumnSizes::new());
    let viewport = Viewport { start_col: 2, start_row: 100, end_col: 9, end_row: 140 };
    let request = table.draw(Extent { width: 800, height: 600 }, None, false, viewport, 7);
    assert_eq!(
        request,
        FetchRequest { start_col: 2, start_row: 100, end_col: 9, end_row: 140 }
    );
}

#[test]
fn row_header_normalization() {
    let (rows, length) = normalize_row_headers(&rows_of(&[1, 3, 2]));
    assert_eq!(length, 3);
    assert_eq!(rows.len(), 3);
    for row in &rows {
        assert_eq!(row.len(), 3);
    }
    assert_eq!(rows[0], path(&["r0l0", "", ""]));
    assert_eq!(rows[1], path(&["r1l0", "r1l1", "r1l2"]));
    assert_eq!(rows[2], path(&["r2l0", "r2l1", ""]));
}

#[test]
fn normalization_of_no_rows_and_of_empty_paths() {
    let (rows, length) = normalize_row_headers(&Vec::new());
    assert_eq!(length, 0);
    assert!(rows.is_empty());
    let (rows, length) = normalize_row_headers(&rows_of(&[0, 0]));
    assert_eq!(length, 0);
    assert_eq!(rows, vec![Vec::<String>::new(), Vec::new()]);
    let (rows, length) = normalize_row_headers(&rows_of(&[2, 2]));
    assert_eq!(length, 2);
    assert_eq!(rows, rows_of(&[2, 2]));
}

#[test]
fn the_longest_path_and_padding() {
    assert_eq!(longest_path(&rows_of(&[1, 4, 2, 4, 0])), 4);
    assert_eq!(longest_path(&Vec::new()), 0);
    assert_eq!(pad_path(&path(&["a"]), 3), path(&["a", "", ""]));
    assert_eq!(pad_path(&path(&["a", "b"]), 2), path(&["a", "b"]));
    assert_eq!(pad_path(&path(&["a", "b"]), 1), path(&["a", "b"]));
    assert_eq!(pad_path(&path(&[]), 0), path(&[]));
}

#[test]
fn end_to_end_draw() {
    let table = RegularTableViewModel::new(ColumnSizes::new());
    let viewport = Viewport::new(0, 0, 5, 20).unwrap();
    let request = table.draw(Extent { width: 800, height: 600 }, None, false, viewport, 5);
    assert_eq!(request, FetchRequest { start_col: 0, start_row: 0, end_col: 5, end_row: 20 });

    let data: Vec<Vec<String>> = (0..20)
        .map(|row| (0..5).map(|col| format!("{}:{}", row, col)).collect())
        .collect();
    let mut lengths = vec![1usize; 20];
    lengths[1] = 2;
    let column_headers: Vec<Vec<String>> = (0..5).map(|col| vec![format!("c{}", col)]).collect();
    let response = FetchResponse {
        data: Some(data.clone()),
        row_headers: Some(rows_of(&lengths)),
        column_headers: column_headers.clone(),
    };

    let result = RegularTableViewModel::finish_draw::<String, String>(Ok(response)).unwrap();
    assert_eq!(result.row_headers_length, 2);
    assert_eq!(result.data, data);
    assert_eq!(result.column_headers, column_headers);
    let row_headers = result.row_headers.unwrap();
    assert_eq!(row_headers.len(), 20);
    for row in &row_headers {
        assert_eq!(row.len(), 2);
    }
    assert_eq!(row_headers[0], path(&["r0l0", ""]));
    assert_eq!(row_headers[1], path(&["r1l0", "r1l1"]));
}

#[test]
fn a_draw_without_row_headers_has_length_zero() {
    let response = FetchResponse {
        data: Some(vec![path(&["1", "2"])]),
        row_headers: None,
        column_headers: vec![path(&["a"]), path(&["b"])],
    };
    let result = RegularTableViewModel::finish_draw::<String, String>(Ok(response)).unwrap();
    assert_eq!(result.row_headers_length, 0);
    assert_eq!(result.row_headers, None);
    assert_eq!(result.data, vec![path(&["1", "2"])]);
}

#[test]
fn a_rejected_fetch_fails_the_draw_with_its_reason() {
    let result = RegularTableViewModel::finish_draw::<String, String>(Err(String::from("view deleted")));
    match result {
        Err(DrawError::Rejected(reason)) => assert_eq!(reason, "view deleted"),
        other => panic!("{:?}", other),
    }
}

#[test]
fn an_answer_without_data_fails_the_draw() {
    let response: FetchResponse<String> = FetchResponse {
        data: None,
        row_headers: Some(rows_of(&[1, 2])),
        column_headers: Vec::new(),
    };
    let result = RegularTableViewModel::finish_draw::<String, String>(Ok(response));
    assert!(matches!(result, Err(DrawError::MissingData)));
}

#[test]
fn the_measured_width_follows_the_box() {
    let content_box = measure(110);
    assert_eq!(measure_width(&content_box), 100);
    let border_box = CellMeasure { border_box: true, ..content_box };
    assert_eq!(measure_width(&border_box), 112);
    let narrow = CellMeasure { client_width: 3, ..content_box };
    assert_eq!(measure_width(&narrow), -7);
    let extreme = CellMeasure {
        border_box: false,
        client_width: i32::MIN,
        offset_width: 0,
        offset_height: 0,
        padding_left: i32::MAX,
        padding_right: i32::MAX,
    };
    assert_eq!(measure_width(&extreme), -6_442_450_942);
}

#[test]
fn autosize_records_every_column() {
    let mut table = RegularTableViewModel::new(ColumnSizes::new());
    let updates = table.autosize_cells(vec![
        entry(1, Some("c1"), 110),
        entry_with(2, Some("c2"), measure(60), "50px"),
    ]);
    assert!(updates.is_empty());
    assert_eq!(table.column_sizes.measured_width("c1"), Some(100));
    assert_eq!(table.column_sizes.auto_width("c1"), Some(100));
    assert_eq!(table.column_sizes.measured_width("c2"), Some(50));
    assert_eq!(table.column_sizes.auto_width("c2"), Some(50));
    assert_eq!(table.column_sizes.row_height(), Some(19));
}

#[test]
fn autosize_zero_guard() {
    let mut sizes = ColumnSizes::new();
    sizes.set_auto("c2", 80);
    let mut table = RegularTableViewModel::new(sizes);
    table.autosize_cells(vec![
        entry(1, Some("c1"), 10),
        entry(2, Some("c2"), 10),
        entry(3, Some("c3"), 40),
    ]);
    assert_eq!(table.column_sizes.measured_width("c1"), Some(0));
    assert_eq!(table.column_sizes.auto_width("c1"), None);
    assert_eq!(table.column_sizes.measured_width("c2"), Some(0));
    assert_eq!(table.column_sizes.auto_width("c2"), Some(80));
    assert_eq!(table.column_sizes.auto_width("c3"), Some(30));
}

#[test]
fn autosize_ignores_a_pinned_column() {
    let mut sizes = ColumnSizes::new();
    sizes.set_override("c1", 100);
    sizes.set_auto("c1", 150);
    let mut table = RegularTableViewModel::new(sizes);
    table.autosize_cells(vec![entry_with(1, Some("c1"), measure(210), "100px")]);
    assert_eq!(table.column_sizes.override_width("c1"), Some(100));
    assert_eq!(table.column_sizes.auto_width("c1"), Some(150));
    assert_eq!(table.column_sizes.measured_width("c1"), Some(200));
}

#[test]
fn autosize_gives_the_first_entry_the_last_word() {
    let mut table = RegularTableViewModel::new(ColumnSizes::new());
    table.autosize_cells(vec![
        entry(1, Some("c1"), 110),
        entry(2, Some("c1"), 310),
        entry(3, Some("c1"), 10),
    ]);
    assert_eq!(table.column_sizes.measured_width("c1"), Some(100));
    assert_eq!(table.column_sizes.auto_width("c1"), Some(100));
}

#[test]
fn autosize_takes_the_row_height_once() {
    let mut table = RegularTableViewModel::new(ColumnSizes::new());
    let tall = CellMeasure { offset_height: 40, ..measure(110) };
    let short = CellMeasure { offset_height: 12, ..measure(110) };
    // The last entry is measured first.
    table.autosize_cells(vec![
        entry_with(1, Some("c1"), tall, ""),
        entry_with(2, Some("c2"), short, ""),
    ]);
    assert_eq!(table.column_sizes.row_height(), Some(12));
    table.autosize_cells(vec![entry_with(1, Some("c1"), tall, "")]);
    assert_eq!(table.column_sizes.row_height(), Some(12));
}

#[test]
fn autosize_locks_the_reset_width() {
    let mut table = RegularTableViewModel::new(ColumnSizes::new());
    let updates = table.autosize_cells(vec![
        entry_with(1, Some("c1"), measure(110), "0px"),
        entry(2, Some("c2"), 60),
        entry_with(3, Some("c3"), measure(10), RESET_WIDTH),
        entry_with(4, Some("c4"), measure(45), "45px"),
        entry_with(5, Some("c5"), measure(45), "0"),
        entry_with(6, Some("c6"), measure(45), "0px "),
    ]);
    assert_eq!(
        updates,
        vec![
            MinWidthUpdate { cell: Cell { tag: Tag::Th, id: 3 }, min_width: Width::Px(0) },
            MinWidthUpdate { cell: Cell { tag: Tag::Th, id: 1 }, min_width: Width::Px(100) },
        ]
    );
}

#[test]
fn autosize_keeps_a_cell_without_a_key_under_a_name_of_its_own() {
    let mut table = RegularTableViewModel::new(ColumnSizes::new());
    let unkeyed = entry(1, None, 110);
    assert_eq!(unkeyed.policy_key(), "undefined");
    assert_eq!(entry(2, Some("c2"), 110).policy_key(), "c2");
    table.autosize_cells(vec![unkeyed]);
    assert_eq!(UNKEYED, "undefined");
    assert_eq!(table.column_sizes.measured_width("undefined"), Some(100));
    assert_eq!(table.column_sizes.auto_width("undefined"), Some(100));
}

#[test]
fn autosize_of_nothing_changes_nothing() {
    let mut sizes = ColumnSizes::new();
    sizes.set_auto("c1", 5);
    let mut table = RegularTableViewModel::new(sizes);
    assert!(table.autosize_cells(Vec::new()).is_empty());
    assert_eq!(table.column_sizes.auto_width("c1"), Some(5));
    assert_eq!(table.column_sizes.row_height(), None);
}

#[test]
fn the_table_counts_the_columns_of_its_header() {
    let mut table = RegularTableViewModel::new(ColumnSizes::new());
    assert_eq!(table.num_columns(), 0);
    for _ in 0..2 {
        table.header.draw_group_th(0, "group");
    }
    for _ in 0..5 {
        table.header.draw_group_th(1, "leaf");
    }
    assert_eq!(table.num_columns(), 5);
    for row in 0..3 {
        for col in 0..5 {
            table.body.get_cell(Tag::Td, row, col);
        }
    }
    assert_eq!(table.body.len() + table.header.view_model.len(), 3 * 5 + 7);
}
