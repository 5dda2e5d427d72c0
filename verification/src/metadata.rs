//! What a rendered cell stands for, kept beside the cell and never inside it.

use std::collections::HashMap;
use vstd::prelude::*;

verus! {

broadcast use vstd::std_specs::hash::group_hash_axioms;

/// The logical description of one rendered cell.
#[derive(Debug)]
pub struct CellMetadata {
    /// The path of labels of the column that the cell heads.
    pub column_header: Option<Vec<String>>,
    /// The label that the cell shows.
    pub value: Option<String>,
    /// The key under which the column's width is kept.
    pub size_key: Option<String>,
    /// The size key of the row-header column that the cell belongs to.
    pub row_header_x: Option<String>,
}

/// A `CellMetadata` as mathematical values.
pub struct MetadataView {
    pub column_header: Option<Seq<Seq<char>>>,
    pub value: Option<Seq<char>>,
    pub size_key: Option<Seq<char>>,
    pub row_header_x: Option<Seq<char>>,
}

impl View for CellMetadata {
    type V = MetadataView;

    open spec fn view(&self) -> MetadataView {
        MetadataView {
            column_header: self.column_header.deep_view(),
            value: self.value.deep_view(),
            size_key: self.size_key.deep_view(),
            row_header_x: self.row_header_x.deep_view(),
        }
    }
}

/// The metadata of a cell of which nothing has been said yet.
pub open spec fn blank_metadata() -> MetadataView {
    MetadataView { column_header: None, value: None, size_key: None, row_header_x: None }
}

/// The table `store` once the metadata of the cell `id` was asked for: the
/// cell has an entry, blank if it had none, and nothing else has changed.
pub open spec fn with_entry(store: Map<u64, MetadataView>, id: u64) -> Map<u64, MetadataView> {
    if store.contains_key(id) {
        store
    } else {
        store.insert(id, blank_metadata())
    }
}

/// A copy of a path of labels.
pub(crate) fn clone_path(path: &Vec<String>) -> (copy: Vec<String>)
    ensures
        copy.deep_view() == path.deep_view(),
{
    let mut copy: Vec<String> = Vec::new();
    let mut i: usize = 0;
    while i < path.len()
        invariant
            i <= path.len(),
            copy.len() == i,
            forall|j: int| 0 <= j < i ==> copy@[j]@ == path@[j]@,
        decreases path.len() - i,
    {
        copy.push(path[i].clone());
        i += 1;
    }
    copy
}

/// A copy of a label that may be absent.
fn clone_label(label: &Option<String>) -> (copy: Option<String>)
    ensures
        copy.deep_view() == label.deep_view(),
{
    match label {
        Some(text) => Some(text.clone()),
        None => None,
    }
}

impl CellMetadata {
    /// The metadata of a cell of which nothing has been said yet.
    pub fn new() -> (metadata: CellMetadata)
        ensures
            metadata@ == blank_metadata(),
    {
        CellMetadata { column_header: None, value: None, size_key: None, row_header_x: None }
    }

    /// A copy, field for field.
    pub fn duplicate(&self) -> (copy: CellMetadata)
        ensures
            copy@ == self@,
    {
        let column_header = match &self.column_header {
            Some(path) => Some(clone_path(path)),
            None => None,
        };
        CellMetadata {
            column_header,
            value: clone_label(&self.value),
            size_key: clone_label(&self.size_key),
            row_header_x: clone_label(&self.row_header_x),
        }
    }
}

/// A side table from the identity of a cell to its metadata.
///
/// An entry is made the first time a cell's metadata is asked for. The table
/// does not keep a cell alive: whoever discards a cell releases its entry.
pub struct MetadataStore {
    entries: HashMap<u64, CellMetadata>,
}

impl View for MetadataStore {
    type V = Map<u64, MetadataView>;

    closed spec fn view(&self) -> Map<u64, MetadataView> {
        self.entries@.map_values(|metadata: CellMetadata| metadata@)
    }
}

impl MetadataStore {
    /// A table without entries.
    pub fn new() -> (store: MetadataStore)
        ensures
            store@ == Map::<u64, MetadataView>::empty(),
    {
        let store = MetadataStore { entries: HashMap::new() };
        store
    }

    /// Whether the cell `id` has an entry.
    pub fn contains(&self, id: u64) -> (found: bool)
        ensures
            found == self@.contains_key(id),
    {
        self.entries.contains_key(&id)
    }

    /// A copy of the metadata of the cell `id`, if it has any.
    pub fn get(&self, id: u64) -> (found: Option<CellMetadata>)
        ensures
            found.is_some() == self@.contains_key(id),
            found.is_some() ==> found.unwrap()@ == self@[id],
    {
        match self.entries.get(&id) {
            Some(metadata) => Some(metadata.duplicate()),
            None => None,
        }
    }

    /// The metadata of the cell `id`, made blank first if the cell had none.
    /// Asking again changes nothing.
    pub fn get_or_create(&mut self, id: u64) -> (metadata: CellMetadata)
        ensures
            final(self)@ == with_entry(old(self)@, id),
            metadata@ == final(self)@[id],
    {
        match self.get(id) {
            Some(metadata) => metadata,
            None => {
                self.entries.insert(id, CellMetadata::new());
                CellMetadata::new()
            },
        }
    }

    /// Makes `metadata` the entry of the cell `id`.
    pub fn put(&mut self, id: u64, metadata: CellMetadata)
        ensures
            final(self)@ == old(self)@.insert(id, metadata@),
    {
        self.entries.insert(id, metadata);
    }

    /// Drops the entry of the cell `id`, if there is one.
    pub fn release(&mut self, id: u64)
        ensures
            final(self)@ == old(self)@.remove(id),
    {
        self.entries.remove(&id);
    }

    /// The number of cells that have an entry.
    pub fn len(&self) -> (count: usize)
        ensures
            count == self@.dom().len(),
    {
        assert(self@.dom() =~= self.entries@.dom());
        self.entries.len()
    }
}

/// Asking twice for the metadata of one cell gives the same entry: the
/// second request finds what the first one made, and changes nothing.
pub proof fn lemma_get_or_create_is_idempotent(store: Map<u64, MetadataView>, id: u64)
    ensures
        with_entry(store, id).contains_key(id),
        with_entry(with_entry(store, id), id) == with_entry(store, id),
        store.contains_key(id) ==> with_entry(store, id) == store,
        forall|other: u64|
            other != id ==> with_entry(store, id).contains_key(other) == store.contains_key(other)
                && with_entry(store, id)[other] == store[other],
{
}

} // verus!
