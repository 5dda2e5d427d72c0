//! The column-width policy: pinned widths, natural widths, and what was
//! measured last.

use vstd::hash_map::StringHashMap;
use vstd::prelude::*;

verus! {

/// An inline width of a cell: not set, or a number of pixels.
#[derive(Clone, Copy, Debug, PartialEq, Eq, Structural)]
pub enum Width {
    Unset,
    Px(i64),
}

/// What becomes of a cell's "clipped" mark.
#[derive(Clone, Copy, Debug, PartialEq, Eq, Structural)]
pub enum ClipMark {
    /// The mark is put on the cell.
    Apply,
    /// The mark is taken off the cell.
    Remove,
    /// The mark stays as it is.
    Keep,
}

/// The widths that a header cell is rendered with.
#[derive(Clone, Copy, Debug, PartialEq, Eq, Structural)]
pub struct WidthStyle {
    pub min_width: Width,
    pub max_width: Width,
    pub clip: ClipMark,
}

/// The key of a column in the width policy: one identifier, or the path of
/// identifiers of a header of several levels.
#[derive(Debug)]
pub enum SizeKey {
    Leaf(String),
    Path(Vec<String>),
}

/// A `SizeKey` as mathematical values.
pub enum SizeKeyView {
    Leaf(Seq<char>),
    Path(Seq<Seq<char>>),
}

impl View for SizeKey {
    type V = SizeKeyView;

    open spec fn view(&self) -> SizeKeyView {
        match self {
            SizeKey::Leaf(key) => SizeKeyView::Leaf(key@),
            SizeKey::Path(path) => SizeKeyView::Path(path.deep_view()),
        }
    }
}

impl SizeKeyView {
    /// The key that is kept in a cell's metadata: the identifier itself, or
    /// the first segment of a path, if it has one.
    pub open spec fn leaf(self) -> Option<Seq<char>> {
        match self {
            SizeKeyView::Leaf(key) => Some(key),
            SizeKeyView::Path(path) => if path.len() > 0 {
                Some(path[0])
            } else {
                None
            },
        }
    }

    /// Whether the key names a column that has a width of its own. A path of
    /// more than one segment names a group of columns, which has none.
    pub open spec fn is_sizable(self) -> bool {
        match self {
            SizeKeyView::Leaf(_) => true,
            SizeKeyView::Path(path) => path.len() <= 1,
        }
    }

    /// The text under which the policy keeps the widths of a sizable key: the
    /// identifier, the only segment of a path, or nothing for an empty path.
    pub open spec fn policy_key(self) -> Seq<char> {
        match self {
            SizeKeyView::Leaf(key) => key,
            SizeKeyView::Path(path) => if path.len() > 0 {
                path[0]
            } else {
                Seq::empty()
            },
        }
    }
}

impl SizeKey {
    /// The key that is kept in a cell's metadata.
    pub fn leaf(&self) -> (key: Option<String>)
        ensures
            key.deep_view() == self@.leaf(),
    {
        match self {
            SizeKey::Leaf(key) => Some(key.clone()),
            SizeKey::Path(path) => if path.len() > 0 {
                Some(path[0].clone())
            } else {
                None
            },
        }
    }

    /// The text under which the policy keeps the widths of the key, if the
    /// key is sizable.
    pub fn policy_key(&self) -> (key: Option<String>)
        ensures
            key.deep_view() == (if self@.is_sizable() {
                Some(self@.policy_key())
            } else {
                None
            }),
    {
        match self {
            SizeKey::Leaf(key) => Some(key.clone()),
            SizeKey::Path(path) => if path.len() == 0 {
                Some(String::new())
            } else if path.len() == 1 {
                Some(path[0].clone())
            } else {
                None
            },
        }
    }
}

/// The width kept under `key`, if there is one.
pub open spec fn lookup(widths: Map<Seq<char>, i64>, key: Seq<char>) -> Option<i64> {
    if widths.contains_key(key) {
        Some(widths[key])
    } else {
        None
    }
}

/// The widths of a header cell, from the pinned and the natural width of its
/// column.
///
/// A pinned width is both the least and the greatest width, and the cell is
/// marked as clipped exactly when a natural width is known and exceeds it.
/// Without one, a natural width is the least width, there is no greatest
/// width and no mark. With neither, no width is set and the mark stays.
pub open spec fn resolve_width(pinned: Option<i64>, natural: Option<i64>) -> WidthStyle {
    match pinned {
        Some(width) => WidthStyle {
            min_width: Width::Px(width),
            max_width: Width::Px(width),
            clip: if natural.is_some() && natural.unwrap() > width {
                ClipMark::Apply
            } else {
                ClipMark::Remove
            },
        },
        None => match natural {
            Some(width) => WidthStyle {
                min_width: Width::Px(width),
                max_width: Width::Unset,
                clip: ClipMark::Remove,
            },
            None => WidthStyle {
                min_width: Width::Unset,
                max_width: Width::Unset,
                clip: ClipMark::Keep,
            },
        },
    }
}

/// A `ColumnSizes` as mathematical values.
pub struct ColumnSizesView {
    pub overrides: Map<Seq<char>, i64>,
    pub auto: Map<Seq<char>, i64>,
    pub indices: Map<Seq<char>, i64>,
    pub row_height: Option<i32>,
}

/// The policy after a cell of the column `key` was measured `width` pixels
/// wide and `height` pixels high.
///
/// The measured width is always noted. It becomes the natural width unless
/// it is zero or the column is pinned. The height becomes the row height if
/// none is known yet.
pub open spec fn recorded(
    sizes: ColumnSizesView,
    key: Seq<char>,
    width: i64,
    height: i32,
) -> ColumnSizesView {
    ColumnSizesView {
        overrides: sizes.overrides,
        auto: if width != 0 && !sizes.overrides.contains_key(key) {
            sizes.auto.insert(key, width)
        } else {
            sizes.auto
        },
        indices: sizes.indices.insert(key, width),
        row_height: if sizes.row_height.is_none() {
            Some(height)
        } else {
            sizes.row_height
        },
    }
}

/// The widths of the columns, by size key, in three tiers, and the height of
/// a row.
pub struct ColumnSizes {
    /// Widths pinned by the user; they take precedence.
    overrides: StringHashMap<i64>,
    /// Natural widths, used where nothing is pinned.
    auto: StringHashMap<i64>,
    /// The widths measured last.
    indices: StringHashMap<i64>,
    /// The height of the first row that was measured.
    row_height: Option<i32>,
}

impl View for ColumnSizes {
    type V = ColumnSizesView;

    closed spec fn view(&self) -> ColumnSizesView {
        ColumnSizesView {
            overrides: self.overrides@,
            auto: self.auto@,
            indices: self.indices@,
            row_height: self.row_height,
        }
    }
}

/// The width kept under `key` in `widths`, if there is one.
fn width_at(widths: &StringHashMap<i64>, key: &str) -> (width: Option<i64>)
    ensures
        width == lookup(widths@, key@),
{
    match widths.get(key) {
        Some(found) => Some(*found),
        None => None,
    }
}

impl ColumnSizes {
    /// A policy that knows no width and no row height.
    pub fn new() -> (sizes: ColumnSizes)
        ensures
            sizes@ == (ColumnSizesView {
                overrides: Map::empty(),
                auto: Map::empty(),
                indices: Map::empty(),
                row_height: None,
            }),
    {
        ColumnSizes {
            overrides: StringHashMap::new(),
            auto: StringHashMap::new(),
            indices: StringHashMap::new(),
            row_height: None,
        }
    }

    /// The width pinned for `key`.
    pub fn override_width(&self, key: &str) -> (width: Option<i64>)
        ensures
            width == lookup(self@.overrides, key@),
    {
        width_at(&self.overrides, key)
    }

    /// The natural width of `key`.
    pub fn auto_width(&self, key: &str) -> (width: Option<i64>)
        ensures
            width == lookup(self@.auto, key@),
    {
        width_at(&self.auto, key)
    }

    /// The width that `key` measured last.
    pub fn measured_width(&self, key: &str) -> (width: Option<i64>)
        ensures
            width == lookup(self@.indices, key@),
    {
        width_at(&self.indices, key)
    }

    /// The row height, once a row has been measured.
    pub fn row_height(&self) -> (height: Option<i32>)
        ensures
            height == self@.row_height,
    {
        self.row_height
    }

    /// Sets the row height, whether or not one is known.
    pub fn set_row_height(&mut self, height: Option<i32>)
        ensures
            final(self)@ == (ColumnSizesView { row_height: height, ..old(self)@ }),
    {
        self.row_height = height;
    }

    /// Pins the width of `key`.
    pub fn set_override(&mut self, key: &str, width: i64)
        ensures
            final(self)@ == (ColumnSizesView {
                overrides: old(self)@.overrides.insert(key@, width),
                ..old(self)@
            }),
    {
        self.overrides.insert(key.to_owned(), width);
    }

    /// Takes the pin off `key`.
    pub fn remove_override(&mut self, key: &str)
        ensures
            final(self)@ == (ColumnSizesView {
                overrides: old(self)@.overrides.remove(key@),
                ..old(self)@
            }),
    {
        self.overrides.remove(key);
    }

    /// Sets the natural width of `key`.
    pub fn set_auto(&mut self, key: &str, width: i64)
        ensures
            final(self)@ == (ColumnSizesView {
                auto: old(self)@.auto.insert(key@, width),
                ..old(self)@
            }),
    {
        self.auto.insert(key.to_owned(), width);
    }

    /// Forgets the natural width of `key`.
    pub fn remove_auto(&mut self, key: &str)
        ensures
            final(self)@ == (ColumnSizesView {
                auto: old(self)@.auto.remove(key@),
                ..old(self)@
            }),
    {
        self.auto.remove(key);
    }

    /// The widths that a header cell of the column `key` is rendered with.
    pub fn resolve(&self, key: &str) -> (style: WidthStyle)
        ensures
            style == resolve_width(lookup(self@.overrides, key@), lookup(self@.auto, key@)),
    {
        match self.override_width(key) {
            Some(width) => {
                let clip = match self.auto_width(key) {
                    Some(natural) => if natural > width {
                        ClipMark::Apply
                    } else {
                        ClipMark::Remove
                    },
                    None => ClipMark::Remove,
                };
                WidthStyle { min_width: Width::Px(width), max_width: Width::Px(width), clip }
            },
            None => match self.auto_width(key) {
                Some(width) => WidthStyle {
                    min_width: Width::Px(width),
                    max_width: Width::Unset,
                    clip: ClipMark::Remove,
                },
                None => WidthStyle {
                    min_width: Width::Unset,
                    max_width: Width::Unset,
                    clip: ClipMark::Keep,
                },
            },
        }
    }

    /// Takes note that a cell of the column `key` was measured `width` pixels
    /// wide and `height` pixels high.
    pub fn record(&mut self, key: &str, width: i64, height: i32)
        ensures
            final(self)@ == recorded(old(self)@, key@, width, height),
    {
        if self.row_height.is_none() {
            self.row_height = Some(height);
        }
        self.indices.insert(key.to_owned(), width);
        if width != 0 && !self.overrides.contains_key(key) {
            self.auto.insert(key.to_owned(), width);
        }
    }
}

/// A pinned width wins over a natural one: it is both the least and the
/// greatest width, whatever the natural width is, and the cell is marked as
/// clipped exactly when the natural width is the larger.
pub proof fn lemma_override_takes_precedence(pinned: i64, natural: Option<i64>)
    ensures
        resolve_width(Some(pinned), natural).min_width == Width::Px(pinned),
        resolve_width(Some(pinned), natural).max_width == Width::Px(pinned),
        resolve_width(Some(pinned), natural).clip == ClipMark::Apply <==> natural.is_some()
            && natural.unwrap() > pinned,
{
}

/// A measurement of zero never becomes a natural width, and neither does
/// any measurement of a pinned column.
pub proof fn lemma_record_guards_auto(
    sizes: ColumnSizesView,
    key: Seq<char>,
    width: i64,
    height: i32,
)
    requires
        width == 0 || sizes.overrides.contains_key(key),
    ensures
        recorded(sizes, key, width, height).auto == sizes.auto,
        recorded(sizes, key, width, height).overrides == sizes.overrides,
{
}

} // verus!
