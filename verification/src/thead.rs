//! The header of the table: group cells, leaf cells and their widths.

use crate::metadata::{blank_metadata, clone_path, CellMetadata, MetadataView};
use crate::recycler::{
    columns_within, fetched_for, is_column_count, is_row_count, last_row, span_at, stands_outside,
    surviving, Cell, CellRecycler, Fetched, Position, Tag,
};
use crate::sizes::{
    lookup, resolve_width, ClipMark, ColumnSizes, SizeKey, SizeKeyView, Width, WidthStyle,
};
use vstd::prelude::*;
use vstd::string::StringExecFns;

verus! {

/// The marker that follows the label of a group cell, by which the user
/// drags the column to another width.
pub const RESIZE_HANDLE: &'static str = "<span class=\"pd-column-resize\"></span>";

/// What the host has to change on the element of a cell.
#[derive(Debug)]
pub struct CellPatch {
    /// Every class is taken off the element, the "clipped" mark with them.
    pub clear_class: bool,
    /// The element spans one column again.
    pub clear_colspan: bool,
    /// What becomes of the "clipped" mark.
    pub clip: ClipMark,
    /// The least width to set, if it changes.
    pub min_width: Option<Width>,
    /// The greatest width to set, if it changes.
    pub max_width: Option<Width>,
    /// The content to write, if it changes.
    pub content: Option<String>,
}

/// A `CellPatch` as mathematical values.
pub struct PatchView {
    pub clear_class: bool,
    pub clear_colspan: bool,
    pub clip: ClipMark,
    pub min_width: Option<Width>,
    pub max_width: Option<Width>,
    pub content: Option<Seq<char>>,
}

impl View for CellPatch {
    type V = PatchView;

    open spec fn view(&self) -> PatchView {
        PatchView {
            clear_class: self.clear_class,
            clear_colspan: self.clear_colspan,
            clip: self.clip,
            min_width: self.min_width,
            max_width: self.max_width,
            content: self.content.deep_view(),
        }
    }
}

/// The patch that changes nothing.
pub open spec fn no_patch() -> PatchView {
    PatchView {
        clear_class: false,
        clear_colspan: false,
        clip: ClipMark::Keep,
        min_width: None,
        max_width: None,
        content: None,
    }
}

/// The patch of a group cell that shows `label`: classes and span are reset,
/// the least width is the reset width of zero pixels, and the content is the
/// label followed by the resize handle.
pub open spec fn group_patch(label: Seq<char>) -> PatchView {
    PatchView {
        clear_class: true,
        clear_colspan: true,
        clip: ClipMark::Keep,
        min_width: Some(Width::Px(0)),
        max_width: None,
        content: Some(label + RESIZE_HANDLE@),
    }
}

/// The patch that takes every class off a cell.
pub open spec fn class_patch() -> PatchView {
    PatchView { clear_class: true, ..no_patch() }
}

/// The patch that renders a cell with the widths of `style`.
pub open spec fn width_patch(style: WidthStyle) -> PatchView {
    PatchView {
        clip: style.clip,
        min_width: Some(style.min_width),
        max_width: Some(style.max_width),
        ..no_patch()
    }
}

/// The patch of a leaf cell of the column `key`: the widths that the policy
/// resolves for a sizable key, and nothing for the key of a group.
pub open spec fn leaf_patch(
    overrides: Map<Seq<char>, i64>,
    auto: Map<Seq<char>, i64>,
    key: SizeKeyView,
) -> PatchView {
    if key.is_sizable() {
        width_patch(
            resolve_width(lookup(overrides, key.policy_key()), lookup(auto, key.policy_key())),
        )
    } else {
        no_patch()
    }
}

/// The offsets after the next free column of the row `depth` was taken:
/// that row's offset is one more, and the rows before it that had none have
/// an offset of zero.
pub open spec fn advanced(offsets: Seq<usize>, depth: usize) -> Seq<usize> {
    Seq::new(
        if offsets.len() > depth {
            offsets.len()
        } else {
            (depth + 1) as nat
        },
        |row: int|
            if row == depth {
                (span_at(offsets, depth as int) + 1) as usize
            } else {
                span_at(offsets, row)
            },
    )
}

/// The metadata that a cell has before it is drawn: what is kept for it, or
/// blank metadata.
pub open spec fn metadata_before(recycler: CellRecycler, cell: Cell) -> MetadataView {
    if recycler.holds(cell.id) && recycler.metadata().contains_key(cell.id) {
        recycler.metadata()[cell.id]
    } else {
        blank_metadata()
    }
}

/// The metadata that is kept once `drawn` was attached to `cell`: only a
/// tracked cell keeps any.
pub open spec fn metadata_after(recycler: CellRecycler, cell: Cell, drawn: MetadataView) -> Map<
    u64,
    MetadataView,
> {
    if recycler.holds(cell.id) {
        recycler.metadata().insert(cell.id, drawn)
    } else {
        recycler.metadata()
    }
}

/// A group header that runs over several columns.
#[derive(Debug)]
pub struct GroupSpan {
    /// The label of the group.
    pub value: String,
    /// The cell that shows it.
    pub cell: Cell,
    /// The number of columns that it runs over.
    pub colspan: usize,
}

/// A group cell that was drawn.
#[derive(Debug)]
pub struct GroupCell {
    pub fetched: Fetched,
    pub patch: CellPatch,
}

/// A header cell whose metadata was attached.
#[derive(Debug)]
pub struct HeaderCell {
    pub metadata: CellMetadata,
    pub patch: CellPatch,
}

/// The header of the table: its cells, the next free column of each of its
/// rows, and the groups that are being laid out.
pub struct RegularHeadViewModel {
    /// The cells of the header; the row of a cell is its depth.
    pub view_model: CellRecycler,
    /// The next free column of each row.
    pub offset_cache: Vec<usize>,
    /// The group that is running in each row.
    pub group_header_cache: Vec<GroupSpan>,
}

/// `offsets` with one more column taken in the row `depth`.
fn advance_offset(offsets: &mut Vec<usize>, depth: usize)
    requires
        depth < usize::MAX,
        span_at(old(offsets)@, depth as int) < usize::MAX,
    ensures
        final(offsets)@ == advanced(old(offsets)@, depth),
{
    while offsets.len() <= depth
        invariant
            depth < usize::MAX,
            old(offsets)@.len() <= offsets@.len(),
            offsets@.len() <= old(offsets)@.len() || offsets@.len() <= depth + 1,
            forall|row: int|
                0 <= row < offsets@.len() ==> offsets@[row] == span_at(old(offsets)@, row),
        decreases depth + 1 - offsets@.len(),
    {
        offsets.push(0);
    }
    let next: usize = offsets[depth] + 1;
    offsets.set(depth, next);
}

impl RegularHeadViewModel {
    /// The invariant of the header: that of its table of cells.
    pub open spec fn wf(&self) -> bool {
        self.view_model.wf()
    }

    /// A header without cells.
    pub fn new() -> (head: RegularHeadViewModel)
        ensures
            head.wf(),
            head.view_model@ == Map::<Position, Cell>::empty(),
            head.view_model.issued() == 0,
            head.view_model.live() == 0,
            head.view_model.metadata() == Map::<u64, MetadataView>::empty(),
            head.offset_cache@ == Seq::<usize>::empty(),
            head.group_header_cache@.len() == 0,
    {
        RegularHeadViewModel {
            view_model: CellRecycler::new(),
            offset_cache: Vec::new(),
            group_header_cache: Vec::new(),
        }
    }

    /// Draws the next group cell of the row `depth` with the label `label`.
    ///
    /// The cell is the header cell at the next free column of that row (the
    /// first column if nothing was drawn in the row yet), fetched as
    /// `CellRecycler::get_cell` does. The row's offset moves one column on,
    /// and the cell is patched as `group_patch` says.
    ///
    /// As for `get_cell`, an identity must be left to hand out, and neither
    /// the depth nor the row's offset may be the largest index that the
    /// machine has.
    pub fn draw_group_th(&mut self, depth: usize, label: &str) -> (drawn: GroupCell)
        requires
            old(self).wf(),
            old(self).view_model.issued() < u64::MAX,
            depth < usize::MAX,
            span_at(old(self).offset_cache@, depth as int) < usize::MAX,
        ensures
            final(self).wf(),
            drawn.fetched == fetched_for(
                old(self).view_model@,
                old(self).view_model.issued(),
                Tag::Th,
                Position { row: depth, col: span_at(old(self).offset_cache@, depth as int) },
            ),
            final(self).view_model@ == old(self).view_model@.insert(
                Position { row: depth, col: span_at(old(self).offset_cache@, depth as int) },
                drawn.fetched.cell,
            ),
            final(self).view_model.issued() == old(self).view_model.issued() + (
            if drawn.fetched.created {
                1nat
            } else {
                0nat
            }),
            final(self).view_model.metadata() == (match drawn.fetched.displaced {
                Some(cell) => old(self).view_model.metadata().remove(cell.id),
                None => old(self).view_model.metadata(),
            }),
            final(self).view_model.live() == old(self).view_model.live() + (
            if old(self).view_model@.contains_key(
                Position { row: depth, col: span_at(old(self).offset_cache@, depth as int) },
            ) {
                0nat
            } else {
                1nat
            }),
            final(self).offset_cache@ == advanced(old(self).offset_cache@, depth),
            final(self).group_header_cache == old(self).group_header_cache,
            drawn.patch@ == group_patch(label@),
    {
        let col: usize = if depth < self.offset_cache.len() {
            self.offset_cache[depth]
        } else {
            0
        };
        let fetched = self.view_model.get_cell(Tag::Th, depth, col);
        advance_offset(&mut self.offset_cache, depth);
        let content = String::from_str(label).concat(RESIZE_HANDLE);
        GroupCell {
            fetched,
            patch: CellPatch {
                clear_class: true,
                clear_colspan: true,
                clip: ClipMark::Keep,
                min_width: Some(Width::Px(0)),
                max_width: None,
                content: Some(content),
            },
        }
    }

    /// Attaches the column `column` and the label `label` to the group cell
    /// `cell`, and takes every class off the cell.
    ///
    /// The other fields of the cell's metadata stay as they were. A cell that
    /// is not tracked keeps no metadata; what it would have is handed back
    /// all the same.
    pub fn draw_group(&mut self, column: &Vec<String>, label: &str, cell: Cell) -> (drawn:
        HeaderCell)
        requires
            old(self).wf(),
        ensures
            final(self).wf(),
            drawn.metadata@ == (MetadataView {
                column_header: Some(column.deep_view()),
                value: Some(label@),
                ..metadata_before(old(self).view_model, cell)
            }),
            final(self).view_model.metadata() == metadata_after(
                old(self).view_model,
                cell,
                drawn.metadata@,
            ),
            final(self).view_model@ == old(self).view_model@,
            final(self).view_model.issued() == old(self).view_model.issued(),
            final(self).view_model.live() == old(self).view_model.live(),
            final(self).offset_cache == old(self).offset_cache,
            final(self).group_header_cache == old(self).group_header_cache,
            drawn.patch@ == class_patch(),
    {
        let mut metadata = self.view_model.get_or_create_metadata(cell);
        metadata.column_header = Some(clone_path(column));
        metadata.value = Some(String::from_str(label));
        let kept = metadata.duplicate();
        self.view_model.set_metadata(cell, kept);
        HeaderCell {
            metadata,
            patch: CellPatch {
                clear_class: true,
                clear_colspan: false,
                clip: ClipMark::Keep,
                min_width: None,
                max_width: None,
                content: None,
            },
        }
    }

    /// Attaches the column `column`, the label `label` and the size key to
    /// the leaf cell `cell`, and resolves the widths of the cell.
    ///
    /// The metadata keeps the leaf of `size_key`. A sizable key is looked up
    /// in `sizes` and the cell is patched with the widths that `resolve_width`
    /// gives; the key of a group leaves the cell as it is.
    pub fn draw_th(
        &mut self,
        sizes: &ColumnSizes,
        column: &Vec<String>,
        label: &str,
        cell: Cell,
        size_key: &SizeKey,
    ) -> (drawn: HeaderCell)
        requires
            old(self).wf(),
        ensures
            final(self).wf(),
            drawn.metadata@ == (MetadataView {
                column_header: Some(column.deep_view()),
                value: Some(label@),
                size_key: size_key@.leaf(),
                ..metadata_before(old(self).view_model, cell)
            }),
            final(self).view_model.metadata() == metadata_after(
                old(self).view_model,
                cell,
                drawn.metadata@,
            ),
            final(self).view_model@ == old(self).view_model@,
            final(self).view_model.issued() == old(self).view_model.issued(),
            final(self).view_model.live() == old(self).view_model.live(),
            final(self).offset_cache == old(self).offset_cache,
            final(self).group_header_cache == old(self).group_header_cache,
            drawn.patch@ == leaf_patch(sizes@.overrides, sizes@.auto, size_key@),
    {
        let mut metadata = self.view_model.get_or_create_metadata(cell);
        metadata.column_header = Some(clone_path(column));
        metadata.value = Some(String::from_str(label));
        metadata.size_key = size_key.leaf();
        let kept = metadata.duplicate();
        self.view_model.set_metadata(cell, kept);
        let patch = match size_key.policy_key() {
            Some(key) => {
                let style = sizes.resolve(key.as_str());
                CellPatch {
                    clear_class: false,
                    clear_colspan: false,
                    clip: style.clip,
                    min_width: Some(style.min_width),
                    max_width: Some(style.max_width),
                    content: None,
                }
            },
            None => CellPatch {
                clear_class: false,
                clear_colspan: false,
                clip: ClipMark::Keep,
                min_width: None,
                max_width: None,
                content: None,
            },
        };
        HeaderCell { metadata, patch }
    }

    /// The number of rows of the header.
    pub fn num_rows(&self) -> (count: usize)
        requires
            self.wf(),
        ensures
            is_row_count(self.view_model@, count as nat),
            count == 0 <==> self.view_model.live() == 0,
    {
        self.view_model.num_rows()
    }

    /// The number of columns of the last row of the header.
    pub fn num_columns(&self) -> (count: usize)
        requires
            self.wf(),
        ensures
            exists|rows: nat| #[trigger]
                is_row_count(self.view_model@, rows) && is_column_count(
                    self.view_model@,
                    last_row(rows),
                    count as nat,
                ),
    {
        self.view_model.num_columns()
    }

    /// The header cell of the column `col` in the last row of the header,
    /// fetched as `CellRecycler::get_cell` does. The header must have a row,
    /// an identity must be left to hand out, and `col` may not be the largest
    /// index that the machine has.
    pub fn get_column_header(&mut self, col: usize) -> (fetched: Fetched)
        requires
            old(self).wf(),
            old(self).view_model.live() > 0,
            old(self).view_model.issued() < u64::MAX,
            col < usize::MAX,
        ensures
            final(self).wf(),
            exists|rows: nat|
                rows > 0 && #[trigger] is_row_count(old(self).view_model@, rows) && fetched
                    == fetched_for(
                    old(self).view_model@,
                    old(self).view_model.issued(),
                    Tag::Th,
                    Position { row: (rows - 1) as usize, col },
                ) && final(self).view_model@ == old(self).view_model@.insert(
                    Position { row: (rows - 1) as usize, col },
                    fetched.cell,
                ),
            final(self).view_model.issued() == old(self).view_model.issued() + (
            if fetched.created {
                1nat
            } else {
                0nat
            }),
            final(self).view_model.metadata() == (match fetched.displaced {
                Some(cell) => old(self).view_model.metadata().remove(cell.id),
                None => old(self).view_model.metadata(),
            }),
            final(self).view_model.live() == old(self).view_model.live() + (
            if fetched.created && fetched.displaced.is_none() {
                1nat
            } else {
                0nat
            }),
            final(self).offset_cache == old(self).offset_cache,
            final(self).group_header_cache == old(self).group_header_cache,
    {
        let rows = self.view_model.num_rows();
        let fetched = self.view_model.get_cell(Tag::Th, rows - 1, col);
        fetched
    }

    /// Ends a redraw of the header: every cell beyond the columns that the
    /// redraw used is evicted, and both caches are emptied. The evicted cells
    /// are handed back, each once, for the host to detach.
    pub fn clean(&mut self) -> (evicted: Vec<Cell>)
        requires
            old(self).wf(),
        ensures
            final(self).wf(),
            final(self).view_model@ == old(self).view_model@.restrict(
                columns_within(old(self).offset_cache@),
            ),
            forall|cell: Cell|
                evicted@.contains(cell) <==> stands_outside(
                    old(self).view_model@,
                    columns_within(old(self).offset_cache@),
                    cell,
                ),
            evicted@.no_duplicates(),
            final(self).view_model.metadata() == surviving(
                old(self).view_model.metadata(),
                final(self).view_model@,
            ),
            final(self).view_model.issued() == old(self).view_model.issued(),
            final(self).view_model.live() + evicted@.len() == old(self).view_model.live(),
            final(self).offset_cache@ == Seq::<usize>::empty(),
            final(self).group_header_cache@.len() == 0,
    {
        let evicted = self.view_model.clean_columns_cache(&self.offset_cache);
        self.offset_cache = Vec::new();
        self.group_header_cache = Vec::new();
        evicted
    }
}

} // verus!
