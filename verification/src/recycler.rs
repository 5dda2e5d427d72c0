//! The table from positions to rendered cells.
//!
//! A cell is created the first time its position is asked for, handed out
//! again for as long as the position stays tracked, and evicted when the
//! window moves past it. An evicted cell loses its metadata with it.

use crate::metadata::{blank_metadata, with_entry, CellMetadata, MetadataStore, MetadataView};
use vstd::prelude::*;

verus! {

/// The kind of element that a cell is rendered as.
#[derive(Clone, Copy, Debug, PartialEq, Eq, Structural)]
pub enum Tag {
    /// A header cell.
    Th,
    /// A data cell.
    Td,
}

/// A rendered cell: its kind and the identity of its element. Two cells with
/// the same `id` are the same element.
#[derive(Clone, Copy, Debug, PartialEq, Eq, Structural)]
pub struct Cell {
    pub tag: Tag,
    pub id: u64,
}

/// A place in the grid of rendered cells.
#[derive(Clone, Copy, Debug, PartialEq, Eq, Structural)]
pub struct Position {
    pub row: usize,
    pub col: usize,
}

/// What asking for a cell came to.
#[derive(Clone, Copy, Debug, PartialEq, Eq, Structural)]
pub struct Fetched {
    /// The cell at the position asked for.
    pub cell: Cell,
    /// Whether the cell was made by this request, so that the host has yet to
    /// create and insert its element.
    pub created: bool,
    /// The cell of another kind that the new one took the place of, whose
    /// element the host has to detach.
    pub displaced: Option<Cell>,
}

/// Whether `position` holds a cell of kind `tag`.
pub open spec fn is_hit(cells: Map<Position, Cell>, tag: Tag, position: Position) -> bool {
    cells.contains_key(position) && cells[position].tag == tag
}

/// What asking for the cell of kind `tag` at `position` comes to, in a table
/// that tracks `cells` and has handed out `issued` identities.
pub open spec fn fetched_for(
    cells: Map<Position, Cell>,
    issued: nat,
    tag: Tag,
    position: Position,
) -> Fetched {
    if is_hit(cells, tag, position) {
        Fetched { cell: cells[position], created: false, displaced: None }
    } else {
        Fetched {
            cell: Cell { tag, id: issued as u64 },
            created: true,
            displaced: if cells.contains_key(position) {
                Some(cells[position])
            } else {
                None
            },
        }
    }
}

/// Whether every position of `cells` lies in a window of `rows` rows and
/// `cols` columns.
pub open spec fn within_window(cells: Map<Position, Cell>, rows: nat, cols: nat) -> bool {
    forall|position: Position| #[trigger]
        cells.contains_key(position) ==> position.row < rows && position.col < cols
}

/// One request to a table of cells.
pub enum Request {
    /// The cell of a kind at a position is asked for.
    Get(Tag, Position),
    /// The rows from a row on are evicted.
    CleanRows(usize),
    /// The columns outside the spans of some offsets are evicted.
    CleanColumns(Seq<usize>),
}

/// The cells and the number of identities handed out, after a table that
/// tracks `cells` and has handed out `issued` identities served `request`.
pub open spec fn served(cells: Map<Position, Cell>, issued: nat, request: Request) -> (
    Map<Position, Cell>,
    nat,
) {
    match request {
        Request::Get(tag, position) => (
            cells.insert(position, fetched_for(cells, issued, tag, position).cell),
            if fetched_for(cells, issued, tag, position).created {
                issued + 1
            } else {
                issued
            },
        ),
        Request::CleanRows(row_index) => (cells.restrict(rows_below(row_index)), issued),
        Request::CleanColumns(offsets) => (cells.restrict(columns_within(offsets)), issued),
    }
}

/// The cells and the number of identities handed out, after `requests` were
/// served one after the other.
pub open spec fn served_all(cells: Map<Position, Cell>, issued: nat, requests: Seq<Request>) -> (
    Map<Position, Cell>,
    nat,
)
    decreases requests.len(),
{
    if requests.len() == 0 {
        (cells, issued)
    } else {
        let before = served_all(cells, issued, requests.drop_last());
        served(before.0, before.1, requests.last())
    }
}

/// Whether `request` asks for nothing outside a window of `rows` rows and
/// `cols` columns.
pub open spec fn asks_within(request: Request, rows: nat, cols: nat) -> bool {
    match request {
        Request::Get(_, position) => position.row < rows && position.col < cols,
        _ => true,
    }
}

/// Whether `count` is the number of rows that `cells` reaches into: every
/// tracked row lies before it, and the row just before it is tracked.
pub open spec fn is_row_count(cells: Map<Position, Cell>, count: nat) -> bool {
    &&& forall|position: Position| #[trigger]
        cells.contains_key(position) ==> position.row < count
    &&& count == 0 || exists|position: Position| #[trigger]
        cells.contains_key(position) && position.row + 1 == count
}

/// The last of `rows` rows, and the first row where there is none.
pub open spec fn last_row(rows: nat) -> nat {
    if rows == 0 {
        0
    } else {
        (rows - 1) as nat
    }
}

/// Whether `count` is the number of columns that `cells` reaches into in the
/// row `row`.
pub open spec fn is_column_count(cells: Map<Position, Cell>, row: nat, count: nat) -> bool {
    &&& forall|position: Position| #[trigger]
        cells.contains_key(position) && position.row == row ==> position.col < count
    &&& count == 0 || exists|position: Position| #[trigger]
        cells.contains_key(position) && position.row == row && position.col + 1 == count
}

/// The metadata that is left of `metadata` once only the cells of `cells`
/// are tracked.
pub open spec fn surviving(metadata: Map<u64, MetadataView>, cells: Map<Position, Cell>) -> Map<
    u64,
    MetadataView,
> {
    metadata.restrict(
        Set::new(
            |id: u64|
                exists|position: Position|
                    cells.contains_key(position) && (#[trigger] cells[position]).id == id,
        ),
    )
}

/// The positions in the rows before `row_index`.
pub open spec fn rows_below(row_index: usize) -> Set<Position> {
    Set::new(|position: Position| position.row < row_index)
}

/// The number of columns that `offsets` leaves to the row `row`: what it
/// holds for that row, and none where it holds nothing.
pub open spec fn span_at(offsets: Seq<usize>, row: int) -> usize {
    if 0 <= row < offsets.len() {
        offsets[row]
    } else {
        0
    }
}

/// The positions inside the span that `offsets` leaves to their row.
pub open spec fn columns_within(offsets: Seq<usize>) -> Set<Position> {
    Set::new(|position: Position| position.col < span_at(offsets, position.row as int))
}

/// Whether `cell` is one of the cells of `cells` that stand outside `keep`.
pub open spec fn stands_outside(cells: Map<Position, Cell>, keep: Set<Position>, cell: Cell) -> bool {
    exists|position: Position|
        cells.contains_key(position) && !keep.contains(position) && #[trigger] cells[position]
            == cell
}

// The table is kept as a list of slots, in no order. The list is read as the
// map from each position to its cell.

#[derive(Clone, Copy)]
struct Slot {
    position: Position,
    cell: Cell,
}

spec fn occupied(slots: Seq<Slot>, position: Position) -> bool {
    exists|i: int| 0 <= i < slots.len() && (#[trigger] slots[i]).position == position
}

spec fn slot_index(slots: Seq<Slot>, position: Position) -> int {
    choose|i: int| 0 <= i < slots.len() && (#[trigger] slots[i]).position == position
}

spec fn slots_map(slots: Seq<Slot>) -> Map<Position, Cell> {
    Map::new(
        |position: Position| occupied(slots, position),
        |position: Position| slots[slot_index(slots, position)].cell,
    )
}

spec fn positions_distinct(slots: Seq<Slot>) -> bool {
    forall|i: int, j: int|
        0 <= i < slots.len() && 0 <= j < slots.len() && i != j ==> (#[trigger] slots[i]).position
            != (#[trigger] slots[j]).position
}

spec fn ids_distinct(slots: Seq<Slot>) -> bool {
    forall|i: int, j: int|
        0 <= i < slots.len() && 0 <= j < slots.len() && i != j ==> (#[trigger] slots[i]).cell.id
            != (#[trigger] slots[j]).cell.id
}

spec fn ids_below(slots: Seq<Slot>, bound: u64) -> bool {
    forall|i: int| 0 <= i < slots.len() ==> (#[trigger] slots[i]).cell.id < bound
}

spec fn indices_bounded(slots: Seq<Slot>) -> bool {
    forall|i: int|
        0 <= i < slots.len() ==> (#[trigger] slots[i]).position.row < usize::MAX
            && slots[i].position.col < usize::MAX
}

spec fn has_id(slots: Seq<Slot>, id: u64) -> bool {
    exists|i: int| 0 <= i < slots.len() && (#[trigger] slots[i]).cell.id == id
}

/// What a slot of a table with distinct positions shows up as in the map.
proof fn lemma_slot_in_map(slots: Seq<Slot>, i: int)
    requires
        positions_distinct(slots),
        0 <= i < slots.len(),
    ensures
        slots_map(slots).contains_key(slots[i].position),
        slots_map(slots)[slots[i].position] == slots[i].cell,
{
    let position = slots[i].position;
}

/// Every key of the map is the position of a slot.
proof fn lemma_map_key_has_slot(slots: Seq<Slot>, position: Position) -> (i: int)
    requires
        slots_map(slots).contains_key(position),
    ensures
        0 <= i < slots.len(),
        slots[i].position == position,
        slots_map(slots)[position] == slots[i].cell,
{
    slot_index(slots, position)
}

/// An identity is that of a slot exactly when the map holds it somewhere.
proof fn lemma_has_id_in_map(slots: Seq<Slot>, id: u64)
    requires
        positions_distinct(slots),
    ensures
        has_id(slots, id) <==> (exists|position: Position|
            slots_map(slots).contains_key(position) && (#[trigger] slots_map(slots)[position]).id
                == id),
{
    if has_id(slots, id) {
        let j = choose|j: int| 0 <= j < slots.len() && (#[trigger] slots[j]).cell.id == id;
        lemma_slot_in_map(slots, j);
    }
}

/// A cell put into the slot `i` stands at that slot's position in the map.
proof fn lemma_slot_replaced(before: Seq<Slot>, i: int, cell: Cell)
    requires
        positions_distinct(before),
        0 <= i < before.len(),
    ensures
        positions_distinct(before.update(i, Slot { position: before[i].position, cell })),
        slots_map(before.update(i, Slot { position: before[i].position, cell })) == slots_map(
            before,
        ).insert(before[i].position, cell),
{
    let position = before[i].position;
    let after = before.update(i, Slot { position, cell });
    assert forall|p: Position|
        slots_map(after).contains_key(p) == slots_map(before).insert(position, cell).contains_key(
            p,
        ) by {
        if occupied(before, p) {
            assert(after[slot_index(before, p)].position == p);
        }
    }
}

/// A slot added at a free position stands at that position in the map.
proof fn lemma_slot_added(before: Seq<Slot>, slot: Slot)
    requires
        positions_distinct(before),
        !occupied(before, slot.position),
    ensures
        positions_distinct(before.push(slot)),
        slots_map(before.push(slot)) == slots_map(before).insert(slot.position, slot.cell),
{
    let after = before.push(slot);
    let last = before.len() as int;
    assert(after[last].position == slot.position);
    assert forall|p: Position|
        slots_map(after).contains_key(p) == slots_map(before).insert(
            slot.position,
            slot.cell,
        ).contains_key(p) by {
        if occupied(before, p) {
            assert(after[slot_index(before, p)].position == p);
        }
    }
}

/// Which positions an eviction leaves in place.
enum Sweep<'a> {
    Rows(usize),
    Columns(&'a Vec<usize>),
}

impl<'a> Sweep<'a> {
    spec fn kept(self) -> Set<Position> {
        match self {
            Sweep::Rows(row_index) => rows_below(row_index),
            Sweep::Columns(offsets) => columns_within(offsets@),
        }
    }

    fn keeps(&self, position: Position) -> (keep: bool)
        ensures
            keep == self.kept().contains(position),
    {
        match self {
            Sweep::Rows(row_index) => position.row < *row_index,
            Sweep::Columns(offsets) => {
                let span: usize = if position.row < offsets.len() {
                    offsets[position.row]
                } else {
                    0
                };
                position.col < span
            },
        }
    }
}

spec fn came_from(before: Seq<Slot>, upto: int, slot: Slot) -> bool {
    exists|k: int| 0 <= k < upto && #[trigger] before[k] == slot
}

spec fn gone(before: Seq<Slot>, upto: int, keep: Set<Position>, id: u64) -> bool {
    exists|k: int|
        0 <= k < upto && !keep.contains((#[trigger] before[k]).position) && before[k].cell.id == id
}

spec fn gone_ids(before: Seq<Slot>, upto: int, keep: Set<Position>) -> Set<u64> {
    Set::new(|id: u64| gone(before, upto, keep, id))
}

/// What a sweep over the first `upto` slots of `before` has come to: the
/// slots at kept positions are in `kept`, the cells of the others are in
/// `evicted`, and nothing else is in either.
spec fn swept(
    before: Seq<Slot>,
    upto: int,
    keep: Set<Position>,
    kept: Seq<Slot>,
    evicted: Seq<Cell>,
) -> bool {
    &&& kept.len() + evicted.len() == upto
    &&& forall|j: int|
        0 <= j < kept.len() ==> came_from(before, upto, #[trigger] kept[j]) && keep.contains(
            kept[j].position,
        )
    &&& forall|j: int|
        0 <= j < evicted.len() ==> gone(before, upto, keep, (#[trigger] evicted[j]).id)
            && stands_outside(slots_map(before), keep, evicted[j])
    &&& forall|k: int|
        0 <= k < upto && keep.contains((#[trigger] before[k]).position) ==> kept.contains(
            before[k],
        )
    &&& forall|k: int|
        0 <= k < upto && !keep.contains((#[trigger] before[k]).position) ==> evicted.contains(
            before[k].cell,
        )
    &&& positions_distinct(kept)
    &&& ids_distinct(kept)
    &&& evicted.no_duplicates()
}

/// A sweep goes on over a slot that stays.
proof fn lemma_sweep_keeps(
    before: Seq<Slot>,
    i: int,
    keep: Set<Position>,
    kept: Seq<Slot>,
    evicted: Seq<Cell>,
)
    requires
        positions_distinct(before),
        ids_distinct(before),
        0 <= i < before.len(),
        swept(before, i, keep, kept, evicted),
        keep.contains(before[i].position),
    ensures
        swept(before, i + 1, keep, kept.push(before[i]), evicted),
        gone_ids(before, i + 1, keep) == gone_ids(before, i, keep),
{
    let more = kept.push(before[i]);
    let last = kept.len() as int;
    assert forall|k: int|
        0 <= k < i + 1 && keep.contains((#[trigger] before[k]).position) implies more.contains(
        before[k],
    ) by {
        if k < i {
            let j = choose|j: int| 0 <= j < kept.len() && kept[j] == before[k];
            assert(more[j] == before[k]);
        } else {
            assert(more[last] == before[k]);
        }
    }
}

/// A sweep goes on over a slot that is evicted.
proof fn lemma_sweep_evicts(
    before: Seq<Slot>,
    i: int,
    keep: Set<Position>,
    kept: Seq<Slot>,
    evicted: Seq<Cell>,
)
    requires
        positions_distinct(before),
        ids_distinct(before),
        0 <= i < before.len(),
        swept(before, i, keep, kept, evicted),
        !keep.contains(before[i].position),
    ensures
        swept(before, i + 1, keep, kept, evicted.push(before[i].cell)),
        gone_ids(before, i + 1, keep) == gone_ids(before, i, keep).insert(before[i].cell.id),
{
    let more = evicted.push(before[i].cell);
    let last = evicted.len() as int;
    lemma_slot_in_map(before, i);
    assert forall|k: int|
        0 <= k < i + 1 && !keep.contains((#[trigger] before[k]).position) implies more.contains(
        before[k].cell,
    ) by {
        if k < i {
            let j = choose|j: int| 0 <= j < evicted.len() && evicted[j] == before[k].cell;
            assert(more[j] == before[k].cell);
        } else {
            assert(more[last] == before[k].cell);
        }
    }
}

/// What a sweep over all of `before` has come to, in terms of the map.
proof fn lemma_sweep_done(
    before: Seq<Slot>,
    keep: Set<Position>,
    kept: Seq<Slot>,
    evicted: Seq<Cell>,
    issued: u64,
    metadata: Map<u64, MetadataView>,
)
    requires
        positions_distinct(before),
        ids_distinct(before),
        ids_below(before, issued),
        indices_bounded(before),
        forall|id: u64| #[trigger] metadata.contains_key(id) ==> has_id(before, id),
        swept(before, before.len() as int, keep, kept, evicted),
    ensures
        ids_below(kept, issued),
        indices_bounded(kept),
        slots_map(kept) == slots_map(before).restrict(keep),
        forall|cell: Cell|
            evicted.contains(cell) <==> stands_outside(slots_map(before), keep, cell),
        metadata.remove_keys(gone_ids(before, before.len() as int, keep)) == surviving(
            metadata,
            slots_map(kept),
        ),
        forall|id: u64| #[trigger]
            surviving(metadata, slots_map(kept)).contains_key(id) ==> has_id(kept, id),
{
    let n = before.len() as int;
    assert forall|id: u64| #[trigger] metadata.contains_key(id) implies (!gone(
        before,
        n,
        keep,
        id,
    ) <==> has_id(kept, id)) by {
    }
    assert forall|id: u64|
        has_id(kept, id) <==> (exists|p: Position|
            slots_map(kept).contains_key(p) && (#[trigger] slots_map(kept)[p]).id == id) by {
        lemma_has_id_in_map(kept, id);
    }
}

/// The tracked cells, the metadata of each, and the identities handed out so
/// far.
pub struct CellRecycler {
    slots: Vec<Slot>,
    issued: u64,
    metadata: MetadataStore,
}

impl View for CellRecycler {
    type V = Map<Position, Cell>;

    /// The tracked cells, by position.
    closed spec fn view(&self) -> Map<Position, Cell> {
        slots_map(self.slots@)
    }
}

impl CellRecycler {
    /// The number of identities handed out so far. Identities are handed out
    /// in order, so a cell is fresh exactly when its `id` is not below this.
    pub closed spec fn issued(&self) -> nat {
        self.issued as nat
    }

    /// The metadata of the tracked cells, by identity.
    pub closed spec fn metadata(&self) -> Map<u64, MetadataView> {
        self.metadata@
    }

    /// The number of tracked cells.
    pub closed spec fn live(&self) -> nat {
        self.slots@.len()
    }

    /// Whether the element `id` is tracked at some position.
    pub open spec fn holds(&self, id: u64) -> bool {
        exists|position: Position|
            self@.contains_key(position) && (#[trigger] self@[position]).id == id
    }

    /// The invariant of the table: no position holds two cells, no element
    /// stands at two positions, every tracked identity has been handed out,
    /// and only tracked cells have metadata.
    pub closed spec fn wf(&self) -> bool {
        &&& positions_distinct(self.slots@)
        &&& ids_distinct(self.slots@)
        &&& ids_below(self.slots@, self.issued)
        &&& indices_bounded(self.slots@)
        &&& forall|id: u64| #[trigger]
            self.metadata@.contains_key(id) ==> has_id(self.slots@, id)
    }

    /// An empty table.
    pub fn new() -> (recycler: CellRecycler)
        ensures
            recycler.wf(),
            recycler@ == Map::<Position, Cell>::empty(),
            recycler.issued() == 0,
            recycler.live() == 0,
            recycler.metadata() == Map::<u64, MetadataView>::empty(),
    {
        let recycler = CellRecycler { slots: Vec::new(), issued: 0, metadata: MetadataStore::new() };
        recycler
    }

    /// The index of the slot at `position`, if the position is tracked.
    fn find(&self, position: Position) -> (found: Option<usize>)
        ensures
            match found {
                Some(i) => i < self.slots@.len() && self.slots@[i as int].position == position,
                None => !occupied(self.slots@, position),
            },
    {
        let mut i: usize = 0;
        while i < self.slots.len()
            invariant
                i <= self.slots@.len(),
                forall|j: int| 0 <= j < i ==> (#[trigger] self.slots@[j]).position != position,
            decreases self.slots@.len() - i,
        {
            let slot = self.slots[i];
            if slot.position.row == position.row && slot.position.col == position.col {
                return Some(i);
            }
            i += 1;
        }
        None
    }

    /// The cell at `(row, col)`, if the position is tracked. Nothing is
    /// created.
    pub fn fetch_cell(&self, row: usize, col: usize) -> (found: Option<Cell>)
        requires
            self.wf(),
        ensures
            found == (if self@.contains_key(Position { row, col }) {
                Some(self@[Position { row, col }])
            } else {
                None
            }),
    {
        match self.find(Position { row, col }) {
            Some(i) => {
                Some(self.slots[i].cell)
            },
            None => None,
        }
    }

    /// The cell of kind `tag` at `(row, col)`.
    ///
    /// A position that already holds a cell of that kind gives that very cell,
    /// and nothing changes. Any other position gets a new cell with an
    /// identity that was never handed out before. A cell of another kind that
    /// stood there is displaced: it is no longer tracked and its metadata is
    /// released.
    ///
    /// An identity must be left to hand out, and neither index may be the
    /// largest that the machine has, so that rows and columns can be counted.
    pub fn get_cell(&mut self, tag: Tag, row: usize, col: usize) -> (fetched: Fetched)
        requires
            old(self).wf(),
            old(self).issued() < u64::MAX,
            row < usize::MAX,
            col < usize::MAX,
        ensures
            final(self).wf(),
            fetched == fetched_for(old(self)@, old(self).issued(), tag, Position { row, col }),
            final(self)@ == old(self)@.insert(Position { row, col }, fetched.cell),
            (final(self)@, final(self).issued()) == served(
                old(self)@,
                old(self).issued(),
                Request::Get(tag, Position { row, col }),
            ),
            final(self).issued() == old(self).issued() + (if fetched.created {
                1nat
            } else {
                0nat
            }),
            final(self).live() == old(self).live() + (if old(self)@.contains_key(
                Position { row, col },
            ) {
                0nat
            } else {
                1nat
            }),
            final(self).metadata() == (match fetched.displaced {
                Some(cell) => old(self).metadata().remove(cell.id),
                None => old(self).metadata(),
            }),
    {
        let position = Position { row, col };
        let ghost before = self.slots@;
        match self.find(position) {
            Some(i) => {
                let present = self.slots[i].cell;
                if present.tag == tag {
                    return Fetched { cell: present, created: false, displaced: None };
                }
                let cell = Cell { tag, id: self.issued };
                self.slots.set(i, Slot { position, cell });
                self.issued = self.issued + 1;
                self.metadata.release(present.id);
                proof {
                    lemma_slot_replaced(before, i as int, cell);
                    let after = self.slots@;
                    assert forall|id: u64| #[trigger]
                        self.metadata@.contains_key(id) implies has_id(after, id) by {
                        let k = choose|k: int|
                            0 <= k < before.len() && (#[trigger] before[k]).cell.id == id;
                        assert(after[k] == before[k]);
                    }
                }
                Fetched { cell, created: true, displaced: Some(present) }
            },
            None => {
                let cell = Cell { tag, id: self.issued };
                self.slots.push(Slot { position, cell });
                self.issued = self.issued + 1;
                proof {
                    lemma_slot_added(before, Slot { position, cell });
                    let after = self.slots@;
                    assert forall|id: u64| #[trigger]
                        self.metadata@.contains_key(id) implies has_id(after, id) by {
                        let k = choose|k: int|
                            0 <= k < before.len() && (#[trigger] before[k]).cell.id == id;
                        assert(after[k] == before[k]);
                    }
                }
                Fetched { cell, created: true, displaced: None }
            },
        }
    }

    /// Evicts every cell that stands outside the positions that `sweep` keeps.
    fn evict(&mut self, sweep: Sweep) -> (evicted: Vec<Cell>)
        requires
            old(self).wf(),
        ensures
            final(self).wf(),
            final(self)@ == old(self)@.restrict(sweep.kept()),
            forall|cell: Cell|
                evicted@.contains(cell) <==> stands_outside(old(self)@, sweep.kept(), cell),
            evicted@.no_duplicates(),
            final(self).metadata() == surviving(old(self).metadata(), final(self)@),
            final(self).issued() == old(self).issued(),
            final(self).live() + evicted@.len() == old(self).live(),
    {
        let ghost before = self.slots@;
        let ghost meta_before = self.metadata@;
        let ghost keep = sweep.kept();
        let mut kept: Vec<Slot> = Vec::new();
        let mut evicted: Vec<Cell> = Vec::new();
        let mut i: usize = 0;
        while i < self.slots.len()
            invariant
                self.slots@ == before,
                self.issued == old(self).issued,
                keep == sweep.kept(),
                positions_distinct(before),
                ids_distinct(before),
                i <= before.len(),
                swept(before, i as int, keep, kept@, evicted@),
                self.metadata@ == meta_before.remove_keys(gone_ids(before, i as int, keep)),
            decreases before.len() - i,
        {
            let slot = self.slots[i];
            if sweep.keeps(slot.position) {
                proof {
                    lemma_sweep_keeps(before, i as int, keep, kept@, evicted@);
                }
                kept.push(slot);
            } else {
                proof {
                    lemma_sweep_evicts(before, i as int, keep, kept@, evicted@);
                }
                evicted.push(slot.cell);
                self.metadata.release(slot.cell.id);
            }
            i += 1;
        }
        proof {
            lemma_sweep_done(before, keep, kept@, evicted@, self.issued, meta_before);
        }
        self.slots = kept;
        evicted
    }

    /// Evicts every cell in the row `row_index` and in the rows after it, and
    /// releases the metadata of each. The evicted cells are handed back, each
    /// once, for the host to detach.
    pub fn clean_rows(&mut self, row_index: usize) -> (evicted: Vec<Cell>)
        requires
            old(self).wf(),
        ensures
            final(self).wf(),
            final(self)@ == old(self)@.restrict(rows_below(row_index)),
            (final(self)@, final(self).issued()) == served(
                old(self)@,
                old(self).issued(),
                Request::CleanRows(row_index),
            ),
            forall|cell: Cell|
                evicted@.contains(cell) <==> stands_outside(
                    old(self)@,
                    rows_below(row_index),
                    cell,
                ),
            evicted@.no_duplicates(),
            final(self).metadata() == surviving(old(self).metadata(), final(self)@),
            final(self).issued() == old(self).issued(),
            final(self).live() + evicted@.len() == old(self).live(),
    {
        self.evict(Sweep::Rows(row_index))
    }

    /// Evicts every cell whose column lies outside the span that `offsets`
    /// leaves to its row (`span_at`), and releases the metadata of each. The
    /// evicted cells are handed back, each once, for the host to detach.
    pub fn clean_columns_cache(&mut self, offsets: &Vec<usize>) -> (evicted: Vec<Cell>)
        requires
            old(self).wf(),
        ensures
            final(self).wf(),
            final(self)@ == old(self)@.restrict(columns_within(offsets@)),
            (final(self)@, final(self).issued()) == served(
                old(self)@,
                old(self).issued(),
                Request::CleanColumns(offsets@),
            ),
            forall|cell: Cell|
                evicted@.contains(cell) <==> stands_outside(
                    old(self)@,
                    columns_within(offsets@),
                    cell,
                ),
            evicted@.no_duplicates(),
            final(self).metadata() == surviving(old(self).metadata(), final(self)@),
            final(self).issued() == old(self).issued(),
            final(self).live() + evicted@.len() == old(self).live(),
    {
        self.evict(Sweep::Columns(offsets))
    }

    /// The cell at `(row, col)` whose content the host has to make anew, if
    /// the position is tracked. The table itself stays as it is: the cell
    /// keeps its position, its identity and its metadata.
    pub fn replace_cell(&self, row: usize, col: usize) -> (stale: Option<Cell>)
        requires
            self.wf(),
        ensures
            stale == (if self@.contains_key(Position { row, col }) {
                Some(self@[Position { row, col }])
            } else {
                None
            }),
    {
        self.fetch_cell(row, col)
    }

    /// Whether the element `id` is tracked at some position.
    pub fn is_live(&self, id: u64) -> (found: bool)
        requires
            self.wf(),
        ensures
            found == self.holds(id),
    {
        let mut i: usize = 0;
        while i < self.slots.len()
            invariant
                self.wf(),
                i <= self.slots@.len(),
                forall|j: int| 0 <= j < i ==> (#[trigger] self.slots@[j]).cell.id != id,
            decreases self.slots@.len() - i,
        {
            if self.slots[i].cell.id == id {
                proof {
                    lemma_has_id_in_map(self.slots@, id);
                }
                return true;
            }
            i += 1;
        }
        false
    }

    /// The metadata of `cell`, made blank first if the cell had none. Asking
    /// again changes nothing. A cell that is not tracked has no metadata and
    /// gets none: the answer is blank and nothing is kept.
    pub fn get_or_create_metadata(&mut self, cell: Cell) -> (metadata: CellMetadata)
        requires
            old(self).wf(),
        ensures
            final(self).wf(),
            final(self)@ == old(self)@,
            final(self).issued() == old(self).issued(),
            final(self).live() == old(self).live(),
            final(self).metadata() == (if old(self).holds(cell.id) {
                with_entry(old(self).metadata(), cell.id)
            } else {
                old(self).metadata()
            }),
            metadata@ == (if old(self).holds(cell.id) {
                final(self).metadata()[cell.id]
            } else {
                blank_metadata()
            }),
    {
        if self.is_live(cell.id) {
            self.metadata.get_or_create(cell.id)
        } else {
            CellMetadata::new()
        }
    }

    /// A copy of the metadata of `cell`, if it has any.
    pub fn metadata_of(&self, cell: Cell) -> (found: Option<CellMetadata>)
        ensures
            found.is_some() == self.metadata().contains_key(cell.id),
            found.is_some() ==> found.unwrap()@ == self.metadata()[cell.id],
    {
        self.metadata.get(cell.id)
    }

    /// Makes `metadata` the metadata of `cell`, and says whether it did: only
    /// a tracked cell can have metadata.
    pub fn set_metadata(&mut self, cell: Cell, metadata: CellMetadata) -> (kept: bool)
        requires
            old(self).wf(),
        ensures
            final(self).wf(),
            kept == old(self).holds(cell.id),
            final(self)@ == old(self)@,
            final(self).issued() == old(self).issued(),
            final(self).live() == old(self).live(),
            final(self).metadata() == (if kept {
                old(self).metadata().insert(cell.id, metadata@)
            } else {
                old(self).metadata()
            }),
    {
        if self.is_live(cell.id) {
            self.metadata.put(cell.id, metadata);
            true
        } else {
            false
        }
    }

    /// The number of rows that the tracked cells reach into: one more than
    /// the last tracked row, and none for an empty table.
    pub fn num_rows(&self) -> (count: usize)
        requires
            self.wf(),
        ensures
            is_row_count(self@, count as nat),
            count == 0 <==> self.live() == 0,
    {
        let mut count: usize = 0;
        let mut i: usize = 0;
        while i < self.slots.len()
            invariant
                i <= self.slots@.len(),
                indices_bounded(self.slots@),
                forall|j: int| 0 <= j < i ==> (#[trigger] self.slots@[j]).position.row < count,
                count == 0 || exists|j: int|
                    0 <= j < i && (#[trigger] self.slots@[j]).position.row + 1 == count,
            decreases self.slots@.len() - i,
        {
            let row = self.slots[i].position.row;
            if row >= count {
                count = row + 1;
            }
            i += 1;
        }
        proof {
            if self.slots@.len() > 0 {
                assert(self.slots@[0].position.row < count);
            }
            if count != 0 {
                let j = choose|j: int|
                    0 <= j < i && (#[trigger] self.slots@[j]).position.row + 1 == count;
                lemma_slot_in_map(self.slots@, j);
            }
        }
        count
    }

    /// The number of columns that the tracked cells reach into in the row
    /// `row`: one more than the last tracked column of that row.
    pub fn num_columns_in(&self, row: usize) -> (count: usize)
        requires
            self.wf(),
        ensures
            is_column_count(self@, row as nat, count as nat),
    {
        let mut count: usize = 0;
        let mut i: usize = 0;
        while i < self.slots.len()
            invariant
                i <= self.slots@.len(),
                indices_bounded(self.slots@),
                forall|j: int|
                    0 <= j < i && (#[trigger] self.slots@[j]).position.row == row
                        ==> self.slots@[j].position.col < count,
                count == 0 || exists|j: int|
                    0 <= j < i && (#[trigger] self.slots@[j]).position.row == row
                        && self.slots@[j].position.col + 1 == count,
            decreases self.slots@.len() - i,
        {
            let position = self.slots[i].position;
            if position.row == row && position.col >= count {
                count = position.col + 1;
            }
            i += 1;
        }
        proof {
            if count != 0 {
                let j = choose|j: int|
                    0 <= j < i && (#[trigger] self.slots@[j]).position.row == row
                        && self.slots@[j].position.col + 1 == count;
                lemma_slot_in_map(self.slots@, j);
            }
        }
        count
    }

    /// The number of columns of the last tracked row, and none for an empty
    /// table.
    pub fn num_columns(&self) -> (count: usize)
        requires
            self.wf(),
        ensures
            exists|rows: nat| #[trigger]
                is_row_count(self@, rows) && is_column_count(
                    self@,
                    last_row(rows),
                    count as nat,
                ),
    {
        let rows = self.num_rows();
        let last: usize = if rows == 0 {
            0
        } else {
            rows - 1
        };
        let count = self.num_columns_in(last);
        count
    }

    /// The number of identities handed out so far.
    pub fn issued_count(&self) -> (count: u64)
        ensures
            count == self.issued(),
    {
        self.issued
    }

    /// The number of tracked cells.
    pub fn len(&self) -> (count: usize)
        ensures
            count == self.live(),
    {
        self.slots.len()
    }
}

/// Asking twice for the cell of one kind at one position gives the same
/// cell: the second request finds what the first one left there, whatever
/// the number of identities handed out in between.
pub proof fn lemma_slot_stability(
    cells: Map<Position, Cell>,
    issued: nat,
    later: nat,
    tag: Tag,
    position: Position,
)
    ensures
        ({
            let first = fetched_for(cells, issued, tag, position);
            let second = fetched_for(cells.insert(position, first.cell), later, tag, position);
            &&& second.cell == first.cell
            &&& !second.created
            &&& second.displaced.is_none()
            &&& cells.insert(position, first.cell).insert(position, second.cell) == cells.insert(
                position,
                first.cell,
            )
        }),
{
    let first = fetched_for(cells, issued, tag, position);
}

/// A request inside the window and an eviction of any kind leave the cells
/// inside the window. So the cells stay inside it over any sequence of
/// requests and evictions that begins with an empty table.
pub proof fn lemma_window_is_kept(
    cells: Map<Position, Cell>,
    rows: nat,
    cols: nat,
    position: Position,
    cell: Cell,
    keep: Set<Position>,
)
    requires
        within_window(cells, rows, cols),
    ensures
        within_window(Map::<Position, Cell>::empty(), rows, cols),
        position.row < rows && position.col < cols ==> within_window(
            cells.insert(position, cell),
            rows,
            cols,
        ),
        within_window(cells.restrict(keep), rows, cols),
{
}

/// Over any sequence of requests that ask for nothing outside a window of
/// `rows` rows and `cols` columns, a table that began empty tracks cells
/// inside the window only. By `lemma_window_bounds_live_cells` it then
/// tracks at most `rows * cols` of them, however many requests it served
/// and however large the table that the window looks at.
pub proof fn lemma_recycling_stays_in_window(requests: Seq<Request>, rows: nat, cols: nat)
    requires
        forall|i: int| 0 <= i < requests.len() ==> asks_within(#[trigger] requests[i], rows, cols),
    ensures
        within_window(served_all(Map::<Position, Cell>::empty(), 0, requests).0, rows, cols),
    decreases requests.len(),
{
    if requests.len() > 0 {
        let front = requests.drop_last();
        assert forall|i: int| 0 <= i < front.len() implies asks_within(
            #[trigger] front[i],
            rows,
            cols,
        ) by {
            assert(front[i] == requests[i]);
        }
        lemma_recycling_stays_in_window(front, rows, cols);
        assert(asks_within(requests[requests.len() - 1], rows, cols));
    }
}

/// Evicting the rows from `rows` on, and the columns outside spans of at
/// most `cols` columns, brings any cells into the window of `rows` rows and
/// `cols` columns.
pub proof fn lemma_eviction_restores_window(
    cells: Map<Position, Cell>,
    rows: usize,
    cols: usize,
    offsets: Seq<usize>,
)
    requires
        forall|row: int| 0 <= row < offsets.len() ==> offsets[row] <= cols,
    ensures
        within_window(
            cells.restrict(rows_below(rows)).restrict(columns_within(offsets)),
            rows as nat,
            cols as nat,
        ),
{
}

/// The cells reach into one number of rows, and into one number of columns
/// in each row.
pub proof fn lemma_counts_are_unique(cells: Map<Position, Cell>, row: nat, a: nat, b: nat)
    ensures
        is_row_count(cells, a) && is_row_count(cells, b) ==> a == b,
        is_column_count(cells, row, a) && is_column_count(cells, row, b) ==> a == b,
{
    if is_row_count(cells, a) && is_row_count(cells, b) && a != b {
        let (low, high) = if a < b {
            (a, b)
        } else {
            (b, a)
        };
    }
    if is_column_count(cells, row, a) && is_column_count(cells, row, b) && a != b {
        let (low, high) = if a < b {
            (a, b)
        } else {
            (b, a)
        };
    }
}

impl CellRecycler {
    /// No element stands at two positions, every tracked identity has been
    /// handed out, and only tracked cells have metadata.
    pub proof fn lemma_tracked_cells(&self)
        requires
            self.wf(),
        ensures
            forall|p: Position, q: Position|
                self@.contains_key(p) && self@.contains_key(q) && p != q ==> (#[trigger] self@[p]).id
                    != (#[trigger] self@[q]).id,
            forall|p: Position| #[trigger] self@.contains_key(p) ==> self@[p].id < self.issued(),
            forall|id: u64| #[trigger] self.metadata().contains_key(id) ==> self.holds(id),
    {
        let slots = self.slots@;
        assert forall|id: u64| #[trigger] self.metadata().contains_key(id) implies self.holds(
            id,
        ) by {
            lemma_has_id_in_map(slots, id);
        }
    }

    /// The tracked positions are finitely many, and `live` counts them.
    pub proof fn lemma_live_counts_positions(&self)
        requires
            self.wf(),
        ensures
            self@.dom().finite(),
            self@.dom().len() == self.live(),
    {
        let slots = self.slots@;
        let positions = Seq::new(slots.len(), |i: int| slots[i].position);
        assert(positions.to_set() =~= self@.dom()) by {
            assert forall|p: Position| positions.to_set().contains(p) == self@.dom().contains(
                p,
            ) by {
                if occupied(slots, p) {
                    let i = slot_index(slots, p);
                    assert(positions[i] == p);
                }
            }
        }
        positions.unique_seq_to_set();
    }

    /// A table whose cells all lie in a window of `rows` rows and `cols`
    /// columns tracks at most `rows * cols` cells, however large the table
    /// that the window looks at.
    pub proof fn lemma_window_bounds_live_cells(&self, rows: nat, cols: nat)
        requires
            self.wf(),
            within_window(self@, rows, cols),
        ensures
            self.live() <= rows * cols,
    {
        let slots = self.slots@;
        let codes = Seq::new(
            slots.len(),
            |i: int| slots[i].position.row as int * cols as int + slots[i].position.col as int,
        );
        assert forall|i: int| 0 <= i < slots.len() implies (#[trigger] slots[i]).position.row < rows
            && slots[i].position.col < cols by {
            lemma_slot_in_map(slots, i);
        }
        assert forall|i: int| 0 <= i < codes.len() implies 0 <= #[trigger] codes[i] < rows
            * cols by {
            let r = slots[i].position.row as int;
            let c = slots[i].position.col as int;
            assert(0 <= r * cols + c < rows * cols) by (nonlinear_arith)
                requires
                    0 <= r < rows,
                    0 <= c < cols,
            ;
        }
        assert(codes.no_duplicates()) by {
            assert forall|i: int, j: int|
                0 <= i < codes.len() && 0 <= j < codes.len() && i != j implies codes[i]
                != codes[j] by {
                let r1 = slots[i].position.row as int;
                let c1 = slots[i].position.col as int;
                let r2 = slots[j].position.row as int;
                let c2 = slots[j].position.col as int;
                assert(r1 * cols + c1 != r2 * cols + c2) by (nonlinear_arith)
                    requires
                        0 <= c1 < cols,
                        0 <= c2 < cols,
                        r1 != r2 || c1 != c2,
                ;
            }
        }
        let range = vstd::set_lib::set_int_range(0, (rows * cols) as int);
        vstd::set_lib::lemma_int_range(0, (rows * cols) as int);
        vstd::set_lib::lemma_len_subset(codes.to_set(), range);
        codes.unique_seq_to_set();
    }
}

} // verus!
