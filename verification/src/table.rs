//! The table as a whole: the draw cycle around the data source, and the
//! pass that measures what was drawn.

use crate::events::Extent;
use crate::metadata::{clone_path, CellMetadata};
use crate::recycler::{
    is_column_count, is_row_count, last_row, within_window, Cell, CellRecycler,
};
use crate::sizes::{recorded, ColumnSizes, ColumnSizesView, Width};
use crate::thead::RegularHeadViewModel;
use vstd::prelude::*;
use vstd::string::StringExecFns;

verus! {

/// The key under which the policy keeps the widths of a cell whose metadata
/// names no size key.
pub const UNKEYED: &'static str = "undefined";

/// The least width that a cell is reset to before it is measured, as the
/// host writes it.
pub const RESET_WIDTH: &'static str = "0px";

/// The window of the table that is to be shown, in rows and columns of the
/// whole table.
#[derive(Clone, Copy, Debug, PartialEq, Eq, Structural)]
pub struct Viewport {
    pub start_col: usize,
    pub start_row: usize,
    pub end_col: usize,
    pub end_row: usize,
}

/// What the data source is asked for: the arguments of one fetch, in the
/// order in which the source takes them.
#[derive(Clone, Copy, Debug, PartialEq, Eq, Structural)]
pub struct FetchRequest {
    pub start_col: usize,
    pub start_row: usize,
    pub end_col: usize,
    pub end_row: usize,
}

/// What the data source answered. The cells are of any type `T`: the table
/// hands them on and never looks inside.
#[derive(Debug)]
pub struct FetchResponse<T> {
    /// The cells of the window, row by row.
    pub data: Option<Vec<Vec<T>>>,
    /// The path of labels that heads each row, if the rows have headers.
    pub row_headers: Option<Vec<Vec<String>>>,
    /// The path of labels that heads each column.
    pub column_headers: Vec<Vec<String>>,
}

/// Why a draw failed. The reason of a rejection is of any type `E`: it is
/// handed on as it came.
#[derive(Debug)]
pub enum DrawError<E> {
    /// The data source rejected the fetch.
    Rejected(E),
    /// The answer of the data source holds no data.
    MissingData,
}

/// What a draw hands to the rendering of header and body.
#[derive(Debug)]
pub struct DrawResult<T> {
    /// The cells of the window, as the data source gave them.
    pub data: Vec<Vec<T>>,
    /// The row headers, every path as long as the longest.
    pub row_headers: Option<Vec<Vec<String>>>,
    /// The column headers, as the data source gave them.
    pub column_headers: Vec<Vec<String>>,
    /// The length of every path of the row headers, and zero without any.
    pub row_headers_length: usize,
}

/// What the host measured of a rendered cell.
#[derive(Clone, Copy, Debug, PartialEq, Eq, Structural)]
pub struct CellMeasure {
    /// Whether the cell's box is sized by its border.
    pub border_box: bool,
    pub client_width: i32,
    pub offset_width: i32,
    pub offset_height: i32,
    pub padding_left: i32,
    pub padding_right: i32,
}

/// The last cell of a column, with what the host measured of it.
#[derive(Debug)]
pub struct AutosizeEntry {
    pub cell: Cell,
    pub measure: CellMeasure,
    /// The least width that is set on the cell itself, as the host writes
    /// it; empty where none is set.
    pub min_width: String,
    pub metadata: CellMetadata,
}

/// An `AutosizeEntry` as mathematical values: the cell, its measure, its
/// least width, and the size key of its metadata.
pub struct EntryView {
    pub cell: Cell,
    pub measure: CellMeasure,
    pub min_width: Seq<char>,
    pub size_key: Option<Seq<char>>,
}

impl View for AutosizeEntry {
    type V = EntryView;

    open spec fn view(&self) -> EntryView {
        EntryView {
            cell: self.cell,
            measure: self.measure,
            min_width: self.min_width@,
            size_key: self.metadata@.size_key,
        }
    }
}

/// A least width that the host has to set on a cell.
#[derive(Clone, Copy, Debug, PartialEq, Eq, Structural)]
pub struct MinWidthUpdate {
    pub cell: Cell,
    pub min_width: Width,
}

impl AutosizeEntry {
    /// The key under which the policy keeps the widths of the cell.
    pub fn policy_key(&self) -> (key: String)
        ensures
            key@ == policy_key_of(self@.size_key),
    {
        match &self.metadata.size_key {
            Some(key) => key.clone(),
            None => String::from_str(UNKEYED),
        }
    }
}

impl Viewport {
    /// Whether the window ends where it starts or after it, along both axes.
    pub open spec fn wf(self) -> bool {
        self.start_col <= self.end_col && self.start_row <= self.end_row
    }

    /// The window from `(start_col, start_row)` to `(end_col, end_row)`, if
    /// it does not end before it starts.
    pub fn new(start_col: usize, start_row: usize, end_col: usize, end_row: usize) -> (viewport:
        Option<Viewport>)
        ensures
            viewport == (if start_col <= end_col && start_row <= end_row {
                Some(Viewport { start_col, start_row, end_col, end_row })
            } else {
                None
            }),
            viewport.is_some() ==> viewport.unwrap().wf(),
    {
        if start_col <= end_col && start_row <= end_row {
            Some(Viewport { start_col, start_row, end_col, end_row })
        } else {
            None
        }
    }

    /// The number of columns of the window.
    pub fn num_columns(&self) -> (count: usize)
        requires
            self.wf(),
        ensures
            count == self.end_col - self.start_col,
    {
        self.end_col - self.start_col
    }

    /// The number of rows of the window.
    pub fn num_rows(&self) -> (count: usize)
        requires
            self.wf(),
        ensures
            count == self.end_row - self.start_row,
    {
        self.end_row - self.start_row
    }
}

/// The length of the longest of `paths`, and zero where there is none.
pub open spec fn longest(paths: Seq<Seq<Seq<char>>>) -> nat
    decreases paths.len(),
{
    if paths.len() == 0 {
        0
    } else if paths.last().len() > longest(paths.drop_last()) {
        paths.last().len()
    } else {
        longest(paths.drop_last())
    }
}

/// `path`, followed by as many empty labels as it takes to reach `length`.
/// A path that is longer already stays as it is.
pub open spec fn padded(path: Seq<Seq<char>>, length: nat) -> Seq<Seq<char>> {
    Seq::new(
        if path.len() > length {
            path.len()
        } else {
            length
        },
        |i: int|
            if i < path.len() {
                path[i]
            } else {
                Seq::<char>::empty()
            },
    )
}

/// Every path of `paths`, padded to `length`.
pub open spec fn normalized(paths: Seq<Seq<Seq<char>>>, length: nat) -> Seq<Seq<Seq<char>>> {
    Seq::new(paths.len(), |i: int| padded(paths[i], length))
}

/// The width that a measure stands for: the width of the content where the
/// box is not sized by its border, and the width of the whole box where it
/// is.
pub open spec fn measured_width(measure: CellMeasure) -> int {
    if measure.border_box {
        measure.offset_width as int
    } else {
        measure.client_width - measure.padding_left - measure.padding_right
    }
}

/// The key under which the policy keeps the widths of a cell with the size
/// key `size_key`.
pub open spec fn policy_key_of(size_key: Option<Seq<char>>) -> Seq<char> {
    match size_key {
        Some(key) => key,
        None => UNKEYED@,
    }
}

/// The policy after one entry was measured.
pub open spec fn measured(sizes: ColumnSizesView, entry: EntryView) -> ColumnSizesView {
    recorded(
        sizes,
        policy_key_of(entry.size_key),
        measured_width(entry.measure) as i64,
        entry.measure.offset_height,
    )
}

/// The policy after all of `entries` were measured, the last one first.
pub open spec fn autosized(sizes: ColumnSizesView, entries: Seq<EntryView>) -> ColumnSizesView
    decreases entries.len(),
{
    if entries.len() == 0 {
        sizes
    } else {
        autosized(measured(sizes, entries.last()), entries.drop_last())
    }
}

/// Whether the least width of a measured cell is the reset width, letter
/// for letter, which the measured width has to take the place of.
pub open spec fn needs_lock(entry: EntryView) -> bool {
    entry.min_width == RESET_WIDTH@
}

/// The least widths that the host has to set after `entries` were measured,
/// the last entry first: one for every cell whose least width is the reset
/// width.
pub open spec fn locked(entries: Seq<EntryView>) -> Seq<MinWidthUpdate>
    decreases entries.len(),
{
    if entries.len() == 0 {
        Seq::<MinWidthUpdate>::empty()
    } else if needs_lock(entries.last()) {
        seq![
            MinWidthUpdate {
                cell: entries.last().cell,
                min_width: Width::Px(measured_width(entries.last().measure) as i64),
            },
        ] + locked(entries.drop_last())
    } else {
        locked(entries.drop_last())
    }
}

/// The views of `entries`, in order.
pub open spec fn entry_views(entries: Seq<AutosizeEntry>) -> Seq<EntryView> {
    Seq::new(entries.len(), |i: int| entries[i]@)
}

/// The width that `measure` stands for.
pub fn measure_width(measure: &CellMeasure) -> (width: i64)
    ensures
        width == measured_width(*measure),
{
    if measure.border_box {
        measure.offset_width as i64
    } else {
        measure.client_width as i64 - measure.padding_left as i64 - measure.padding_right as i64
    }
}

/// The length of the longest of `paths`.
pub fn longest_path(paths: &Vec<Vec<String>>) -> (length: usize)
    ensures
        length == longest(paths.deep_view()),
{
    let ghost all = paths.deep_view();
    let mut length: usize = 0;
    let mut i: usize = 0;
    while i < paths.len()
        invariant
            i <= paths.len(),
            all == paths.deep_view(),
            length == longest(all.take(i as int)),
        decreases paths.len() - i,
    {
        proof {
            assert(all.take(i + 1).drop_last() =~= all.take(i as int));
        }
        if paths[i].len() > length {
            length = paths[i].len();
        }
        i += 1;
    }
    assert(all.take(i as int) =~= all);
    length
}

/// `path`, followed by as many empty labels as it takes to reach `length`.
pub fn pad_path(path: &Vec<String>, length: usize) -> (out: Vec<String>)
    ensures
        out.deep_view() == padded(path.deep_view(), length as nat),
{
    let mut out = clone_path(path);
    proof {
        assert(path.deep_view().len() == path@.len());
        assert forall|j: int| 0 <= j < path@.len() implies out@[j]@ == path@[j]@ by {
            assert(out.deep_view()[j] == path.deep_view()[j]);
        }
    }
    while out.len() < length
        invariant
            path@.len() <= out@.len(),
            out@.len() <= path@.len() || out@.len() <= length,
            forall|j: int| 0 <= j < path@.len() ==> out@[j]@ == path@[j]@,
            forall|j: int| path@.len() <= j < out@.len() ==> out@[j]@ == Seq::<char>::empty(),
        decreases length - out@.len(),
    {
        out.push(String::new());
    }
    out
}

/// The row headers of a fetch, made rectangular: the length of the longest
/// path, and every path padded to it with empty labels.
pub fn normalize_row_headers(row_headers: &Vec<Vec<String>>) -> (out: (Vec<Vec<String>>, usize))
    ensures
        out.1 == longest(row_headers.deep_view()),
        out.0.deep_view() == normalized(row_headers.deep_view(), out.1 as nat),
{
    let length = longest_path(row_headers);
    let mut rows: Vec<Vec<String>> = Vec::new();
    let mut i: usize = 0;
    while i < row_headers.len()
        invariant
            i <= row_headers.len(),
            rows@.len() == i,
            forall|j: int|
                0 <= j < i ==> (#[trigger] rows@[j]).deep_view() == padded(
                    row_headers@[j].deep_view(),
                    length as nat,
                ),
        decreases row_headers.len() - i,
    {
        rows.push(pad_path(&row_headers[i], length));
        i += 1;
    }
    (rows, length)
}

/// The table: its header, its body, and the widths of its columns.
pub struct RegularTableViewModel {
    pub header: RegularHeadViewModel,
    pub body: CellRecycler,
    pub column_sizes: ColumnSizes,
}

impl RegularTableViewModel {
    /// The invariant of the table: that of its header and of its body.
    pub open spec fn wf(&self) -> bool {
        self.header.wf() && self.body.wf()
    }

    /// A table without cells, whose columns follow `column_sizes`.
    pub fn new(column_sizes: ColumnSizes) -> (table: RegularTableViewModel)
        ensures
            table.wf(),
            table.column_sizes == column_sizes,
            table.header.view_model.live() == 0,
            table.header.view_model.issued() == 0,
            table.header.offset_cache@ == Seq::<usize>::empty(),
            table.body.live() == 0,
            table.body.issued() == 0,
    {
        RegularTableViewModel {
            header: RegularHeadViewModel::new(),
            body: CellRecycler::new(),
            column_sizes,
        }
    }

    /// The number of columns of the last row of the header.
    pub fn num_columns(&self) -> (count: usize)
        requires
            self.wf(),
        ensures
            exists|rows: nat| #[trigger]
                is_row_count(self.header.view_model@, rows) && is_column_count(
                    self.header.view_model@,
                    last_row(rows),
                    count as nat,
                ),
    {
        self.header.num_columns()
    }

    /// Begins a draw of the window `viewport`: says what to ask the data
    /// source for. The answer goes to `finish_draw`.
    ///
    /// There is one fetch to a draw, and nothing here holds a second draw
    /// back while the first one waits.
    pub fn draw(
        &self,
        container_size: Extent,
        selected_id: Option<u64>,
        preserve_width: bool,
        viewport: Viewport,
        num_columns: usize,
    ) -> (request: FetchRequest)
        ensures
            request == (FetchRequest {
                start_col: viewport.start_col,
                start_row: viewport.start_row,
                end_col: viewport.end_col,
                end_row: viewport.end_row,
            }),
    {
        FetchRequest {
            start_col: viewport.start_col,
            start_row: viewport.start_row,
            end_col: viewport.end_col,
            end_row: viewport.end_row,
        }
    }

    /// Ends a draw with what the data source answered.
    ///
    /// A rejection fails the draw with the reason of the data source, and so
    /// does an answer without data. Otherwise the data and the column headers
    /// pass through, and the row headers are made rectangular: every path is
    /// padded to the length of the longest, which is zero without row
    /// headers.
    pub fn finish_draw<T, E>(outcome: Result<FetchResponse<T>, E>) -> (result: Result<
        DrawResult<T>,
        DrawError<E>,
    >)
        ensures
            match outcome {
                Err(reason) => result == Err::<DrawResult<T>, DrawError<E>>(
                    DrawError::Rejected(reason),
                ),
                Ok(response) => match response.data {
                    None => result == Err::<DrawResult<T>, DrawError<E>>(DrawError::MissingData),
                    Some(data) => match result {
                        Err(_) => false,
                        Ok(drawn) => {
                            &&& drawn.data == data
                            &&& drawn.column_headers == response.column_headers
                            &&& match response.row_headers {
                                None => drawn.row_headers.is_none() && drawn.row_headers_length
                                    == 0,
                                Some(paths) => {
                                    &&& drawn.row_headers.is_some()
                                    &&& drawn.row_headers_length == longest(paths.deep_view())
                                    &&& drawn.row_headers.unwrap().deep_view() == normalized(
                                        paths.deep_view(),
                                        longest(paths.deep_view()),
                                    )
                                },
                            }
                        },
                    },
                },
            },
    {
        match outcome {
            Err(reason) => Err(DrawError::Rejected(reason)),
            Ok(response) => {
                let FetchResponse { data, row_headers, column_headers } = response;
                match data {
                    None => Err(DrawError::MissingData),
                    Some(data) => match row_headers {
                        None => Ok(
                            DrawResult {
                                data,
                                row_headers: None,
                                column_headers,
                                row_headers_length: 0,
                            },
                        ),
                        Some(paths) => {
                            let (rows, length) = normalize_row_headers(&paths);
                            Ok(
                                DrawResult {
                                    data,
                                    row_headers: Some(rows),
                                    column_headers,
                                    row_headers_length: length,
                                },
                            )
                        },
                    },
                }
            },
        }
    }

    /// Measures the last cell of every column and amends the widths of the
    /// columns.
    ///
    /// The entries are taken from the back: the last one is measured first,
    /// so that of two entries with one size key the earlier one has the last
    /// word. Each entry is recorded as `measured` says. The least widths that
    /// come back are for the host to set: one for every cell whose least
    /// width is the reset width, in the order in which the cells were
    /// measured.
    pub fn autosize_cells(&mut self, entries: Vec<AutosizeEntry>) -> (updates: Vec<MinWidthUpdate>)
        ensures
            final(self).column_sizes@ == autosized(
                old(self).column_sizes@,
                entry_views(entries@),
            ),
            updates@ == locked(entry_views(entries@)),
            final(self).header == old(self).header,
            final(self).body == old(self).body,
    {
        let ghost all = entry_views(entries@);
        let mut entries = entries;
        let mut updates: Vec<MinWidthUpdate> = Vec::new();
        let reset = String::from_str(RESET_WIDTH);
        while entries.len() > 0
            invariant
                self.header == old(self).header,
                self.body == old(self).body,
                autosized(self.column_sizes@, entry_views(entries@)) == autosized(
                    old(self).column_sizes@,
                    all,
                ),
                updates@ + locked(entry_views(entries@)) == locked(all),
                reset@ == RESET_WIDTH@,
            decreases entries@.len(),
        {
            let ghost before = entry_views(entries@);
            let entry = entries.pop().unwrap();
            proof {
                assert(entry_views(entries@) =~= before.drop_last());
            }
            let width = measure_width(&entry.measure);
            let key = entry.policy_key();
            self.column_sizes.record(key.as_str(), width, entry.measure.offset_height);
            if entry.min_width.eq(&reset) {
                updates.push(MinWidthUpdate { cell: entry.cell, min_width: Width::Px(width) });
            }
        }
        updates
    }

    /// A table whose body lies in a window of `rows` rows and `cols` columns,
    /// under a header of `header_rows` rows of as many columns, tracks at most
    /// `rows * cols` cells and `header_rows * cols` more, however large the
    /// table that the window looks at.
    pub proof fn lemma_live_cells_bounded(&self, rows: nat, cols: nat, header_rows: nat)
        requires
            self.wf(),
            within_window(self.body@, rows, cols),
            within_window(self.header.view_model@, header_rows, cols),
        ensures
            self.body.live() + self.header.view_model.live() <= rows * cols + header_rows * cols,
    {
        self.body.lemma_window_bounds_live_cells(rows, cols);
        self.header.view_model.lemma_window_bounds_live_cells(header_rows, cols);
    }
}

/// The longest path is at least as long as every path, and as long as one
/// of them.
pub proof fn lemma_longest_is_greatest(paths: Seq<Seq<Seq<char>>>)
    ensures
        forall|i: int| 0 <= i < paths.len() ==> (#[trigger] paths[i]).len() <= longest(paths),
        paths.len() > 0 ==> exists|i: int|
            0 <= i < paths.len() && (#[trigger] paths[i]).len() == longest(paths),
        paths.len() == 0 ==> longest(paths) == 0,
    decreases paths.len(),
{
    if paths.len() > 0 {
        let front = paths.drop_last();
        lemma_longest_is_greatest(front);
        assert forall|i: int| 0 <= i < paths.len() implies (#[trigger] paths[i]).len() <= longest(
            paths,
        ) by {
            if i < front.len() {
                assert(front[i] == paths[i]);
            }
        }
    }
}

/// Row headers that were normalized are rectangular: there are as many
/// paths as before, every path is as long as the longest was, and each
/// begins with the labels that it had and goes on with empty ones.
pub proof fn lemma_normalized_is_rectangular(paths: Seq<Seq<Seq<char>>>)
    ensures
        normalized(paths, longest(paths)).len() == paths.len(),
        forall|i: int|
            0 <= i < paths.len() ==> (#[trigger] normalized(paths, longest(paths))[i]).len()
                == longest(paths),
        forall|i: int, j: int|
            0 <= i < paths.len() && 0 <= j < paths[i].len() ==> #[trigger] normalized(
                paths,
                longest(paths),
            )[i][j] == paths[i][j],
        forall|i: int, j: int|
            0 <= i < paths.len() && paths[i].len() <= j < longest(paths) ==> #[trigger] normalized(
                paths,
                longest(paths),
            )[i][j] == Seq::<char>::empty(),
{
    lemma_longest_is_greatest(paths);
}

/// Measuring changes no pinned width.
pub proof fn lemma_autosize_keeps_overrides(sizes: ColumnSizesView, entries: Seq<EntryView>)
    ensures
        autosized(sizes, entries).overrides == sizes.overrides,
    decreases entries.len(),
{
    if entries.len() > 0 {
        lemma_autosize_keeps_overrides(measured(sizes, entries.last()), entries.drop_last());
    }
}

/// A column whose cells all measure a width of zero keeps the natural
/// width that it had, or keeps having none.
pub proof fn lemma_zero_width_never_sets_auto(
    sizes: ColumnSizesView,
    entries: Seq<EntryView>,
    key: Seq<char>,
)
    requires
        forall|i: int|
            0 <= i < entries.len() && policy_key_of((#[trigger] entries[i]).size_key) == key
                ==> measured_width(entries[i].measure) == 0,
    ensures
        autosized(sizes, entries).auto.contains_key(key) == sizes.auto.contains_key(key),
        sizes.auto.contains_key(key) ==> autosized(sizes, entries).auto[key] == sizes.auto[key],
    decreases entries.len(),
{
    if entries.len() > 0 {
        let front = entries.drop_last();
        let last = entries[entries.len() - 1];
        lemma_zero_width_never_sets_auto(measured(sizes, last), front, key);
    }
}

/// A pinned column keeps the natural width that it had, or keeps having
/// none, whatever its cells measure.
pub proof fn lemma_override_shields_auto(
    sizes: ColumnSizesView,
    entries: Seq<EntryView>,
    key: Seq<char>,
)
    requires
        sizes.overrides.contains_key(key),
    ensures
        autosized(sizes, entries).auto.contains_key(key) == sizes.auto.contains_key(key),
        sizes.auto.contains_key(key) ==> autosized(sizes, entries).auto[key] == sizes.auto[key],
    decreases entries.len(),
{
    if entries.len() > 0 {
        lemma_override_shields_auto(measured(sizes, entries.last()), entries.drop_last(), key);
    }
}

/// Of the entries with one size key, the first has the last word: the width
/// noted for the key of the first entry is the width of that entry.
pub proof fn lemma_first_entry_has_last_word(sizes: ColumnSizesView, entries: Seq<EntryView>)
    requires
        entries.len() > 0,
    ensures
        autosized(sizes, entries).indices.contains_key(policy_key_of(entries[0].size_key)),
        autosized(sizes, entries).indices[policy_key_of(entries[0].size_key)] == measured_width(
            entries[0].measure,
        ),
    decreases entries.len(),
{
    let front = entries.drop_last();
    if front.len() > 0 {
        lemma_first_entry_has_last_word(measured(sizes, entries.last()), front);
    } else {
        assert(autosized(measured(sizes, entries.last()), front) == measured(
            sizes,
            entries.last(),
        ));
    }
}

/// The row height is set once: a known height stays, and an unknown one
/// becomes the height of the cell that is measured first, which is the last
/// entry.
pub proof fn lemma_row_height_is_sticky(sizes: ColumnSizesView, entries: Seq<EntryView>)
    ensures
        autosized(sizes, entries).row_height == (if sizes.row_height.is_some()
            || entries.len() == 0 {
            sizes.row_height
        } else {
            Some(entries.last().measure.offset_height)
        }),
    decreases entries.len(),
{
    if entries.len() > 0 {
        lemma_row_height_is_sticky(measured(sizes, entries.last()), entries.drop_last());
    }
}

} // verus!
