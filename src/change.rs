use vstd::prelude::*;

verus! {

/// The kind of row-level operation a change event reports.
#[derive(Clone, Copy, Debug, PartialEq, Eq, Structural)]
pub enum OpKind {
    Insert,
    Update,
    Delete,
}

/// The operation that a one-letter change code stands for.
pub open spec fn op_of_code(c: char) -> Option<OpKind> {
    if c == 'I' {
        Some(OpKind::Insert)
    } else if c == 'U' {
        Some(OpKind::Update)
    } else if c == 'D' {
        Some(OpKind::Delete)
    } else {
        None
    }
}

impl OpKind {
    /// Reads the one-letter code of a change row: `I`, `U` or `D`.
    pub fn from_code(c: char) -> (r: Option<OpKind>)
        ensures
            r == op_of_code(c),
    {
        if c == 'I' {
            Some(OpKind::Insert)
        } else if c == 'U' {
            Some(OpKind::Update)
        } else if c == 'D' {
            Some(OpKind::Delete)
        } else {
            None
        }
    }

    /// The one-letter code of this operation.
    pub fn code(&self) -> (r: char)
        ensures
            op_of_code(r) == Some(*self),
    {
        match self {
            OpKind::Insert => 'I',
            OpKind::Update => 'U',
            OpKind::Delete => 'D',
        }
    }
}

/// One compacted change of a key within a version interval: the key, the
/// version at which it last changed, and the net operation.
#[derive(Debug)]
pub struct Change {
    pub id: String,
    pub version: i64,
    pub operation: OpKind,
}

/// The mathematical value of a `Change`.
pub struct ChangeView {
    pub id: Seq<char>,
    pub version: i64,
    pub operation: OpKind,
}

impl View for Change {
    type V = ChangeView;

    open spec fn view(&self) -> ChangeView {
        ChangeView { id: self.id@, version: self.version, operation: self.operation }
    }
}

/// The values of a sequence of changes.
pub open spec fn views(s: Seq<Change>) -> Seq<ChangeView> {
    s.map_values(|c: Change| c@)
}

impl Change {
    /// A copy of this change.
    pub fn duplicate(&self) -> (r: Change)
        ensures
            r@ == self@,
    {
        Change { id: self.id.clone(), version: self.version, operation: self.operation }
    }
}

/// A copy of a sequence of changes.
pub fn duplicate_all(v: &Vec<Change>) -> (r: Vec<Change>)
    ensures
        views(r@) == views(v@),
{
    let mut out: Vec<Change> = Vec::new();
    let mut i: usize = 0;
    while i < v.len()
        invariant
            i <= v@.len(),
            views(out@) == views(v@.subrange(0, i as int)),
        decreases v@.len() - i,
    {
        out.push(v[i].duplicate());
        proof {
            assert(views(v@.subrange(0, i + 1)) =~= views(v@.subrange(0, i as int)).push(v@[i as int]@));
        }
        i = i + 1;
    }
    proof {
        assert(v@.subrange(0, i as int) =~= v@);
    }
    out
}

/// The outcome of one successful polling cycle: the changes handed
/// downstream and the cursor value persisted afterwards.
#[derive(Debug)]
pub struct ProcessedBatch {
    pub changes: Vec<Change>,
    pub cursor: i64,
}

/// Why a polling cycle aborted. The cursor is never advanced on any of these.
#[derive(Clone, Copy, Debug, PartialEq, Eq, Structural)]
pub enum ConsumerError {
    /// Reading the current version or the changes failed.
    SourceUnavailable,
    /// Reading or writing the persisted cursor failed.
    CursorStoreUnavailable,
    /// The downstream sink rejected the batch.
    DownstreamApplyFailed,
}

/// Why a record mutation was refused.
#[derive(Clone, Copy, Debug, PartialEq, Eq, Structural)]
pub enum MutatorError {
    /// `set_value` was called on a key that was never created.
    KeyNotFound,
}

} // verus!
