use regular_table::metadata::{CellMetadata, MetadataStore};
use regular_table::recycler::{Cell, CellRecycler, Fetched, Tag};

#[test]
fn a_new_recycler_tracks_nothing() {
    let recycler = CellRecycler::new();
    assert_eq!(recycler.len(), 0);
    assert_eq!(recycler.fetch_cell(0, 0), None);
    assert_eq!(recycler.num_rows(), 0);
    assert_eq!(recycler.num_columns(), 0);
}

#[test]
fn get_cell_creates_a_cell_at_a_free_position() {
    let mut recycler = CellRecycler::new();
    let fetched = recycler.get_cell(Tag::Td, 2, 3);
    assert_eq!(
        fetched,
        Fetched { cell: Cell { tag: Tag::Td, id: 0 }, created: true, displaced: None }
    );
    assert_eq!(recycler.len(), 1);
    assert_eq!(recycler.fetch_cell(2, 3), Some(Cell { tag: Tag::Td, id: 0 }));
    assert_eq!(recycler.fetch_cell(3, 2), None);
}

#[test]
fn slot_stability_two_requests_give_one_cell() {
    let mut recycler = CellRecycler::new();
    let first = recycler.get_cell(Tag::Td, 4, 1);
    let second = recycler.get_cell(Tag::Td, 4, 1);
    assert!(first.created);
    assert!(!second.created);
    assert_eq!(second.cell, first.cell);
    assert_eq!(second.displaced, None);
    assert_eq!(recycler.len(), 1);

    let other = recycler.get_cell(Tag::Td, 4, 2);
    let third = recycler.get_cell(Tag::Td, 4, 1);
    assert_ne!(other.cell.id, first.cell.id);
    assert_eq!(third.cell, first.cell);
    assert!(!third.created);
    assert_eq!(recycler.len(), 2);
}

#[test]
fn every_new_cell_has_an_identity_of_its_own() {
    let mut recycler = CellRecycler::new();
    let mut seen: Vec<u64> = Vec::new();
    for row in 0..4 {
        for col in 0..5 {
            let fetched = recycler.get_cell(Tag::Td, row, col);
            assert!(fetched.created);
            assert!(!seen.contains(&fetched.cell.id));
            seen.push(fetched.cell.id);
        }
    }
    assert_eq!(seen.len(), 20);
    assert_eq!(recycler.len(), 20);
}

#[test]
fn a_cell_of_another_kind_is_displaced() {
    let mut recycler = CellRecycler::new();
    let data = recycler.get_cell(Tag::Td, 0, 0);
    let mut metadata = CellMetadata::new();
    metadata.value = Some(String::from("a"));
    assert!(recycler.set_metadata(data.cell, metadata));

    let head = recycler.get_cell(Tag::Th, 0, 0);
    assert_eq!(
        head,
        Fetched {
            cell: Cell { tag: Tag::Th, id: 1 },
            created: true,
            displaced: Some(Cell { tag: Tag::Td, id: 0 }),
        }
    );
    assert_eq!(recycler.len(), 1);
    assert_eq!(recycler.fetch_cell(0, 0), Some(Cell { tag: Tag::Th, id: 1 }));
    assert!(!recycler.is_live(0));
    assert!(recycler.is_live(1));
    assert!(recycler.metadata_of(data.cell).is_none());
    assert!(recycler.metadata_of(head.cell).is_none());
}

#[test]
fn recycling_bound_live_cells_never_exceed_the_window() {
    let rows = 6usize;
    let cols = 4usize;
    let mut recycler = CellRecycler::new();
    // The window moves over a table of a million rows; positions are counted from
    // the top left of the window, so each draw asks for the same positions.
    for _start_row in [0usize, 1, 2, 500, 999_990] {
        for row in 0..rows {
            for col in 0..cols {
                recycler.get_cell(Tag::Td, row, col);
                assert!(recycler.len() <= rows * cols);
            }
        }
        recycler.clean_rows(rows);
        assert_eq!(recycler.len(), rows * cols);
    }
    // A smaller window evicts what lies outside it.
    let evicted = recycler.clean_rows(2);
    assert_eq!(evicted.len(), 4 * cols);
    assert_eq!(recycler.len(), 2 * cols);
    let evicted = recycler.clean_columns_cache(&vec![3, 3]);
    assert_eq!(evicted.len(), 2);
    assert_eq!(recycler.len(), 2 * 3);
}

#[test]
fn clean_rows_evicts_the_row_and_those_after_it() {
    let mut recycler = CellRecycler::new();
    let mut cells: Vec<Vec<Cell>> = Vec::new();
    for row in 0..4 {
        let mut line = Vec::new();
        for col in 0..3 {
            line.push(recycler.get_cell(Tag::Td, row, col).cell);
        }
        cells.push(line);
    }
    let mut evicted = recycler.clean_rows(2);
    evicted.sort_by_key(|cell| cell.id);
    let mut expected: Vec<Cell> = Vec::new();
    expected.extend(&cells[2]);
    expected.extend(&cells[3]);
    expected.sort_by_key(|cell| cell.id);
    assert_eq!(evicted, expected);
    assert_eq!(recycler.len(), 6);
    for row in 0..4 {
        for col in 0..3 {
            let kept = if row < 2 { Some(cells[row][col]) } else { None };
            assert_eq!(recycler.fetch_cell(row, col), kept);
        }
    }
    assert_eq!(recycler.num_rows(), 2);
    assert!(recycler.clean_rows(2).is_empty());
    assert_eq!(recycler.clean_rows(0).len(), 6);
    assert_eq!(recycler.len(), 0);
}

#[test]
fn clean_columns_cache_keeps_the_span_of_each_row() {
    let mut recycler = CellRecycler::new();
    for row in 0..3 {
        for col in 0..4 {
            recycler.get_cell(Tag::Th, row, col);
        }
    }
    // Row 0 keeps two columns, row 1 all four; row 2 has no span and keeps none.
    let evicted = recycler.clean_columns_cache(&vec![2, 9]);
    assert_eq!(evicted.len(), 2 + 0 + 4);
    for col in 0..4 {
        assert_eq!(recycler.fetch_cell(0, col).is_some(), col < 2);
        assert!(recycler.fetch_cell(1, col).is_some());
        assert!(recycler.fetch_cell(2, col).is_none());
    }
    assert_eq!(recycler.len(), 6);
    let evicted = recycler.clean_columns_cache(&Vec::new());
    assert_eq!(evicted.len(), 6);
    assert_eq!(recycler.len(), 0);
}

#[test]
fn an_evicted_position_gets_a_new_cell() {
    let mut recycler = CellRecycler::new();
    let first = recycler.get_cell(Tag::Td, 1, 1);
    let evicted = recycler.clean_rows(1);
    assert_eq!(evicted, vec![first.cell]);
    let second = recycler.get_cell(Tag::Td, 1, 1);
    assert!(second.created);
    assert_ne!(second.cell.id, first.cell.id);
}

#[test]
fn eviction_releases_the_metadata_of_a_cell() {
    let mut recycler = CellRecycler::new();
    let kept = recycler.get_cell(Tag::Td, 0, 0).cell;
    let gone = recycler.get_cell(Tag::Td, 5, 0).cell;
    let mut metadata = CellMetadata::new();
    metadata.value = Some(String::from("kept"));
    assert!(recycler.set_metadata(kept, metadata));
    let mut metadata = CellMetadata::new();
    metadata.value = Some(String::from("gone"));
    assert!(recycler.set_metadata(gone, metadata));

    recycler.clean_rows(3);
    assert_eq!(recycler.metadata_of(kept).unwrap().value.as_deref(), Some("kept"));
    assert!(recycler.metadata_of(gone).is_none());
    // A cell that is no longer tracked gets blank metadata, and none is kept.
    let blank = recycler.get_or_create_metadata(gone);
    assert_eq!(blank.value, None);
    assert!(recycler.metadata_of(gone).is_none());
    let mut metadata = CellMetadata::new();
    metadata.value = Some(String::from("late"));
    assert!(!recycler.set_metadata(gone, metadata));
    assert!(recycler.metadata_of(gone).is_none());
}

#[test]
fn metadata_is_created_once() {
    let mut recycler = CellRecycler::new();
    let cell = recycler.get_cell(Tag::Th, 0, 0).cell;
    assert!(recycler.metadata_of(cell).is_none());
    let first = recycler.get_or_create_metadata(cell);
    assert_eq!(first.column_header, None);
    assert_eq!(first.value, None);
    assert_eq!(first.size_key, None);
    assert_eq!(first.row_header_x, None);
    assert!(recycler.metadata_of(cell).is_some());

    let mut changed = CellMetadata::new();
    changed.size_key = Some(String::from("c1"));
    assert!(recycler.set_metadata(cell, changed));
    let second = recycler.get_or_create_metadata(cell);
    assert_eq!(second.size_key.as_deref(), Some("c1"));
}

#[test]
fn replace_cell_leaves_the_table_as_it_is() {
    let mut recycler = CellRecycler::new();
    let cell = recycler.get_cell(Tag::Td, 1, 2).cell;
    let mut metadata = CellMetadata::new();
    metadata.value = Some(String::from("v"));
    recycler.set_metadata(cell, metadata);
    assert_eq!(recycler.replace_cell(1, 2), Some(cell));
    assert_eq!(recycler.replace_cell(2, 1), None);
    assert_eq!(recycler.len(), 1);
    assert_eq!(recycler.metadata_of(cell).unwrap().value.as_deref(), Some("v"));
    let again = recycler.get_cell(Tag::Td, 1, 2);
    assert_eq!(again.cell, cell);
    assert!(!again.created);
}

#[test]
fn rows_and_columns_are_counted_to_the_last_one() {
    let mut recycler = CellRecycler::new();
    recycler.get_cell(Tag::Th, 0, 0);
    recycler.get_cell(Tag::Th, 0, 6);
    recycler.get_cell(Tag::Th, 2, 1);
    recycler.get_cell(Tag::Th, 2, 3);
    assert_eq!(recycler.num_rows(), 3);
    assert_eq!(recycler.num_columns_in(0), 7);
    assert_eq!(recycler.num_columns_in(1), 0);
    assert_eq!(recycler.num_columns_in(2), 4);
    assert_eq!(recycler.num_columns(), 4);
    recycler.clean_rows(1);
    assert_eq!(recycler.num_rows(), 1);
    assert_eq!(recycler.num_columns(), 7);
}

#[test]
fn the_store_creates_an_entry_once() {
    let mut store = MetadataStore::new();
    assert_eq!(store.len(), 0);
    assert!(!store.contains(7));
    assert!(store.get(7).is_none());
    let first = store.get_or_create(7);
    assert_eq!(first.value, None);
    assert!(store.contains(7));
    assert_eq!(store.len(), 1);

    let mut metadata = CellMetadata::new();
    metadata.value = Some(String::from("seven"));
    metadata.column_header = Some(vec![String::from("a"), String::from("b")]);
    store.put(7, metadata);
    let second = store.get_or_create(7);
    assert_eq!(second.value.as_deref(), Some("seven"));
    assert_eq!(second.column_header, Some(vec![String::from("a"), String::from("b")]));
    assert_eq!(store.len(), 1);
}

#[test]
fn the_store_releases_an_entry() {
    let mut store = MetadataStore::new();
    store.get_or_create(1);
    store.get_or_create(2);
    store.release(1);
    assert!(!store.contains(1));
    assert!(store.contains(2));
    store.release(1);
    assert_eq!(store.len(), 1);
    let copy = store.get(2).unwrap().duplicate();
    assert_eq!(copy.value, None);
}
