pub mod effects;
pub mod ids;
pub mod tree;
pub mod types;

use vstd::prelude::*;

pub use effects::Effects;
pub use ids::{
    ErrorId, FieldId, FunctionId, HandleId, HostFunctionId, IdOverflow, LocalId, ModuleId,
    SourceId, StructId, TypeId,
};
pub use tree::{
    HirBinaryOp, HirCallKind, HirCollectionOp, HirErrorClause, HirExpr, HirExprKind, HirFieldInit,
    HirFunction, HirHostFunction, HirMapPair, HirModule, HirParam, HirProgram, HirStmt,
    HirStmtKind, HirStruct, HirStructField, HirSymbols, LocalSymbol,
};
pub use types::{SemType, SemTypeModel, TypeTable};

verus! {

/// The type of a callable: parameter types, return type and effects.
#[derive(Debug, Clone)]
pub struct Signature {
    pub params: Vec<TypeId>,
    pub return_type: TypeId,
    pub effects: Effects,
}

impl Signature {
    pub fn new(params: Vec<TypeId>, return_type: TypeId, effects: Effects) -> (s: Signature)
        ensures
            s.params@ == params@,
            s.return_type == return_type,
            s.effects == effects,
    {
        Signature { params, return_type, effects }
    }

    pub fn params(&self) -> (p: &[TypeId])
        ensures
            p@ == self.params@,
    {
        self.params.as_slice()
    }

    pub fn return_type(&self) -> (t: TypeId)
        ensures
            t == self.return_type,
    {
        self.return_type
    }

    pub fn effects(&self) -> (e: Effects)
        ensures
            e == self.effects,
    {
        self.effects
    }
}

/// A range of byte offsets in one source file.
#[derive(Debug, Clone, Copy, PartialEq, Eq, Structural, Hash)]
pub struct SourceAnchor {
    pub source: SourceId,
    pub start: u32,
    pub end: u32,
}

/// Why offsets do not make a source anchor.
#[derive(Debug, Clone, Copy, PartialEq, Eq, Structural)]
pub enum SourceAnchorError {
    ReversedRange { start: usize, end: usize },
    OffsetOutOfRange { offset: usize },
}

impl SourceAnchor {
    /// Builds an anchor from byte offsets: the range must not be reversed, and both offsets must fit `u32`.
    pub fn try_from_offsets(source: SourceId, start: usize, end: usize) -> (r: Result<SourceAnchor, SourceAnchorError>)
        ensures
            start > end ==> r == Err::<SourceAnchor, SourceAnchorError>(SourceAnchorError::ReversedRange { start, end }),
            start <= end && start > u32::MAX ==> r == Err::<SourceAnchor, SourceAnchorError>(SourceAnchorError::OffsetOutOfRange { offset: start }),
            start <= end && start <= u32::MAX && end > u32::MAX ==> r == Err::<SourceAnchor, SourceAnchorError>(SourceAnchorError::OffsetOutOfRange { offset: end }),
            start <= end && end <= u32::MAX ==> r == Ok::<SourceAnchor, SourceAnchorError>(SourceAnchor { source, start: start as u32, end: end as u32 }),
    {
        if start > end {
            return Err(SourceAnchorError::ReversedRange { start, end });
        }
        if start > 0xffff_ffffusize {
            return Err(SourceAnchorError::OffsetOutOfRange { offset: start });
        }
        if end > 0xffff_ffffusize {
            return Err(SourceAnchorError::OffsetOutOfRange { offset: end });
        }
        Ok(SourceAnchor { source, start: start as u32, end: end as u32 })
    }

    pub fn source(self) -> (s: SourceId)
        ensures
            s == self.source,
    {
        self.source
    }

    pub fn start(self) -> (s: u32)
        ensures
            s == self.start,
    {
        self.start
    }

    pub fn end(self) -> (e: u32)
        ensures
            e == self.end,
    {
        self.end
    }

    pub fn range(self) -> (r: std::ops::Range<u32>)
        ensures
            r.start == self.start,
            r.end == self.end,
    {
        std::ops::Range { start: self.start, end: self.end }
    }
}

} // verus!
