use regular_table::sizes::{ClipMark, ColumnSizes, SizeKey, Width, WidthStyle};

#[test]
fn a_new_policy_knows_nothing() {
    let sizes = ColumnSizes::new();
    assert_eq!(sizes.override_width("c1"), None);
    assert_eq!(sizes.auto_width("c1"), None);
    assert_eq!(sizes.measured_width("c1"), None);
    assert_eq!(sizes.row_height(), None);
}

#[test]
fn width_precedence_override_wins_over_auto() {
    let mut sizes = ColumnSizes::new();
    sizes.set_override("c1", 100);
    sizes.set_auto("c1", 150);
    assert_eq!(
        sizes.resolve("c1"),
        WidthStyle {
            min_width: Width::Px(100),
            max_width: Width::Px(100),
            clip: ClipMark::Apply,
        }
    );
    sizes.remove_override("c1");
    assert_eq!(
        sizes.resolve("c1"),
        WidthStyle { min_width: Width::Px(150), max_width: Width::Unset, clip: ClipMark::Remove }
    );
}

#[test]
fn an_override_clips_only_what_is_wider() {
    let mut sizes = ColumnSizes::new();
    sizes.set_override("c1", 100);
    assert_eq!(
        sizes.resolve("c1"),
        WidthStyle {
            min_width: Width::Px(100),
            max_width: Width::Px(100),
            clip: ClipMark::Remove,
        }
    );
    sizes.set_auto("c1", 100);
    assert_eq!(sizes.resolve("c1").clip, ClipMark::Remove);
    sizes.set_auto("c1", 99);
    assert_eq!(sizes.resolve("c1").clip, ClipMark::Remove);
    sizes.set_auto("c1", 101);
    assert_eq!(sizes.resolve("c1").clip, ClipMark::Apply);
}

#[test]
fn a_column_without_widths_gets_none() {
    let mut sizes = ColumnSizes::new();
    sizes.set_override("c1", 100);
    sizes.set_auto("c2", 150);
    assert_eq!(
        sizes.resolve("c3"),
        WidthStyle { min_width: Width::Unset, max_width: Width::Unset, clip: ClipMark::Keep }
    );
    sizes.remove_auto("c2");
    assert_eq!(sizes.resolve("c2").min_width, Width::Unset);
}

#[test]
fn record_notes_the_width_and_makes_it_natural() {
    let mut sizes = ColumnSizes::new();
    sizes.record("c1", 87, 19);
    assert_eq!(sizes.measured_width("c1"), Some(87));
    assert_eq!(sizes.auto_width("c1"), Some(87));
    assert_eq!(sizes.override_width("c1"), None);
    assert_eq!(sizes.row_height(), Some(19));
    sizes.record("c1", 90, 25);
    assert_eq!(sizes.measured_width("c1"), Some(90));
    assert_eq!(sizes.auto_width("c1"), Some(90));
    assert_eq!(sizes.row_height(), Some(19));
}

#[test]
fn autosize_zero_guard_in_record() {
    let mut sizes = ColumnSizes::new();
    sizes.record("hidden", 0, 19);
    assert_eq!(sizes.measured_width("hidden"), Some(0));
    assert_eq!(sizes.auto_width("hidden"), None);
    sizes.set_auto("hidden", 55);
    sizes.record("hidden", 0, 19);
    assert_eq!(sizes.auto_width("hidden"), Some(55));
    assert_eq!(sizes.measured_width("hidden"), Some(0));
}

#[test]
fn record_leaves_a_pinned_column_alone() {
    let mut sizes = ColumnSizes::new();
    sizes.set_override("c1", 100);
    sizes.record("c1", 140, 19);
    assert_eq!(sizes.override_width("c1"), Some(100));
    assert_eq!(sizes.auto_width("c1"), None);
    assert_eq!(sizes.measured_width("c1"), Some(140));
    sizes.record("c2", 140, 19);
    assert_eq!(sizes.auto_width("c2"), Some(140));
}

#[test]
fn the_row_height_can_be_set_and_taken_back() {
    let mut sizes = ColumnSizes::new();
    sizes.set_row_height(Some(21));
    assert_eq!(sizes.row_height(), Some(21));
    sizes.record("c1", 10, 30);
    assert_eq!(sizes.row_height(), Some(21));
    sizes.set_row_height(None);
    sizes.record("c1", 10, 30);
    assert_eq!(sizes.row_height(), Some(30));
}

#[test]
fn the_keys_of_a_size_key() {
    let leaf = SizeKey::Leaf(String::from("c1"));
    assert_eq!(leaf.leaf().as_deref(), Some("c1"));
    assert_eq!(leaf.policy_key().as_deref(), Some("c1"));
    let single = SizeKey::Path(vec![String::from("c2")]);
    assert_eq!(single.leaf().as_deref(), Some("c2"));
    assert_eq!(single.policy_key().as_deref(), Some("c2"));
    let group = SizeKey::Path(vec![String::from("Region"), String::from("State")]);
    assert_eq!(group.leaf().as_deref(), Some("Region"));
    assert_eq!(group.policy_key(), None);
    let empty = SizeKey::Path(Vec::new());
    assert_eq!(empty.leaf(), None);
    assert_eq!(empty.policy_key().as_deref(), Some(""));
}
