use vstd::prelude::*;

verus! {

/// Identifier of a path of the graph.
#[derive(Clone, Copy, PartialEq, Eq, Structural, Debug, Hash)]
pub struct PathId(pub u64);

/// Identifier of a node of the graph. Node identifiers start at one, so a row
/// buffer can use zero as its "no data" sentinel.
#[derive(Clone, Copy, PartialEq, Eq, Structural, Debug, Hash)]
pub struct NodeId(pub u64);

/// The load state of one row of the path raster. A row is bound to at most one
/// path at a time: `Null` rows hold no path, `NeedLoad` rows are assigned but
/// stale, `Loaded` rows are assigned and current.
#[derive(Clone, Copy, PartialEq, Eq, Structural, Debug)]
pub enum RowState {
    Null,
    NeedLoad(PathId),
    Loaded(PathId),
}

impl RowState {
    /// The path this row is bound to, if any.
    pub open spec fn path_spec(self) -> Option<PathId> {
        match self {
            RowState::Null => None,
            RowState::NeedLoad(p) => Some(p),
            RowState::Loaded(p) => Some(p),
        }
    }

    pub fn is_null(&self) -> (r: bool)
        ensures
            r == (*self is Null),
    {
        matches!(self, RowState::Null)
    }

    pub fn is_loaded(&self) -> (r: bool)
        ensures
            r == (*self is Loaded),
    {
        matches!(self, RowState::Loaded(_))
    }

    pub fn is_loaded_path(&self, path: PathId) -> (r: bool)
        ensures
            r == (*self == RowState::Loaded(path)),
    {
        *self == RowState::Loaded(path)
    }

    pub fn path(&self) -> (r: Option<PathId>)
        ensures
            r == self.path_spec(),
    {
        match *self {
            RowState::NeedLoad(i) => Some(i),
            RowState::Loaded(i) => Some(i),
            RowState::Null => None,
        }
    }

    pub fn same_path(&self, path: PathId) -> (r: bool)
        ensures
            r == (self.path_spec() == Some(path)),
    {
        match *self {
            RowState::NeedLoad(i) => i == path,
            RowState::Loaded(i) => i == path,
            RowState::Null => false,
        }
    }
}

impl Default for RowState {
    /// Rows start unused.
    fn default() -> (r: RowState)
        ensures
            r == RowState::Null,
    {
        RowState::Null
    }
}

/// No path is bound to two rows at once.
pub open spec fn rows_unique(rows: Seq<RowState>) -> bool {
    forall|i: int, j: int|
        0 <= i < rows.len() && 0 <= j < rows.len() && i != j && rows[i].path_spec() is Some
            ==> rows[i].path_spec() != rows[j].path_spec()
}

/// Some row is bound to path `p`.
pub open spec fn row_present(rows: Seq<RowState>, p: PathId) -> bool {
    exists|i: int| 0 <= i < rows.len() && rows[i].path_spec() == Some(p)
}

} // verus!
