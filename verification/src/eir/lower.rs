//! Lowering from the semantic tree to executable IR: each function body becomes a
//! graph of basic blocks over numbered slots, each module's top-level statements
//! become its initializer, and the whole program is checked by the verifier before
//! it is handed on.
use vstd::prelude::*;

use crate::hir::{
    ErrorId, FieldId, FunctionId, HirBinaryOp, HirCallKind, HirCollectionOp, HirErrorClause,
    HirExpr, HirExprKind, HirFieldInit, HirMapPair, HirStmt, HirStmtKind, HostFunctionId, LocalId, ModuleId, SemTypeModel, SourceAnchor,
    StructId, TypeId, TypeTable,
};
use crate::text::{decimal, push_decimal, push_str};

use super::order::{deps_model, init_order, initializer_order, stable_order, stable_order_of};
use super::verify::{fields_before, program_findings, program_fits, program_ok, verify_program, VerifyError};
use super::{
    BasicBlock, BlockId, ConstId, Constant, EirFunction, EirIdOverflow, GlobalId, Instruction,
    InstructionKind, SlotId, Terminator, TerminatorKind,
};
use crate::hir::{
    Effects, HirFunction, HirHostFunction, HirModule, HirParam, HirProgram, HirStruct, IdOverflow,
    Signature, SourceId,
};
use super::{EirHostFunction, EirProgram, EirStruct, EirStructField};

verus! {

/// Why lowering failed, and where.
#[derive(Debug, Clone)]
pub struct LowerError {
    pub anchor: SourceAnchor,
    pub kind: LowerErrorKind,
}

#[derive(Debug, Clone)]
pub enum LowerErrorKind {
    Unsupported { operation: &'static str },
    InvalidProgram(String),
    Verification(Vec<VerifyError>),
}

/// The value of a lowering error, with its texts and findings as sequences.
pub enum LowerErrorKindModel {
    Unsupported(Seq<char>),
    InvalidProgram(Seq<char>),
    Verification(Seq<VerifyError>),
}

pub struct LowerErrorModel {
    pub anchor: SourceAnchor,
    pub kind: LowerErrorKindModel,
}

impl View for LowerError {
    type V = LowerErrorModel;

    open spec fn view(&self) -> LowerErrorModel {
        LowerErrorModel {
            anchor: self.anchor,
            kind: match self.kind {
                LowerErrorKind::Unsupported { operation } => LowerErrorKindModel::Unsupported(operation@),
                LowerErrorKind::InvalidProgram(message) => LowerErrorKindModel::InvalidProgram(message@),
                LowerErrorKind::Verification(errors) => LowerErrorKindModel::Verification(errors@),
            },
        }
    }
}

/// The text of a lowering error: where it happened, then what went wrong.
pub open spec fn lower_error_text(e: LowerErrorModel) -> Seq<char> {
    "EIR lowering failed at "@ + decimal(e.anchor.source.0 as nat) + ":"@ + decimal(e.anchor.start as nat)
        + ".."@ + decimal(e.anchor.end as nat) + ": "@ + match e.kind {
        LowerErrorKindModel::Unsupported(operation) => "unsupported "@ + operation,
        LowerErrorKindModel::InvalidProgram(message) => message,
        LowerErrorKindModel::Verification(errors) => decimal(errors.len()) + " verifier error(s)"@,
    }
}

impl LowerError {
    pub fn message(&self) -> (s: String)
        ensures
            s@ == lower_error_text(self@),
    {
        let mut s = String::new();
        push_str(&mut s, "EIR lowering failed at ");
        push_decimal(&mut s, self.anchor.source.0 as u64);
        push_str(&mut s, ":");
        push_decimal(&mut s, self.anchor.start as u64);
        push_str(&mut s, "..");
        push_decimal(&mut s, self.anchor.end as u64);
        push_str(&mut s, ": ");
        match &self.kind {
            LowerErrorKind::Unsupported { operation } => {
                push_str(&mut s, "unsupported ");
                push_str(&mut s, operation);
            },
            LowerErrorKind::InvalidProgram(message) => {
                push_str(&mut s, message.as_str());
            },
            LowerErrorKind::Verification(errors) => {
                push_decimal(&mut s, errors.len() as u64);
                push_str(&mut s, " verifier error(s)");
            },
        }
        s
    }
}

pub open spec fn unsupported(anchor: SourceAnchor, operation: Seq<char>) -> LowerErrorModel {
    LowerErrorModel { anchor, kind: LowerErrorKindModel::Unsupported(operation) }
}

pub open spec fn invalid(anchor: SourceAnchor, message: Seq<char>) -> LowerErrorModel {
    LowerErrorModel { anchor, kind: LowerErrorKindModel::InvalidProgram(message) }
}

/// The text of an identifier overflow: the identifier kind and the index that did not fit.
pub open spec fn overflow_text(kind: Seq<char>, value: nat) -> Seq<char> {
    kind + " value "@ + decimal(value) + " exceeds the u32 EIR ID range"@
}

fn unsupported_error(anchor: SourceAnchor, operation: &'static str) -> (e: LowerError)
    ensures
        e@ == unsupported(anchor, operation@),
{
    LowerError { anchor, kind: LowerErrorKind::Unsupported { operation } }
}

fn invalid_error(anchor: SourceAnchor, message: &str) -> (e: LowerError)
    ensures
        e@ == invalid(anchor, message@),
{
    LowerError { anchor, kind: LowerErrorKind::InvalidProgram(message.to_string()) }
}

fn overflow_error(anchor: SourceAnchor, overflow: EirIdOverflow) -> (e: LowerError)
    ensures
        e@ == invalid(anchor, overflow_text(overflow.kind@, overflow.value as nat)),
{
    let mut message = String::new();
    push_str(&mut message, overflow.kind);
    push_str(&mut message, " value ");
    push_decimal(&mut message, overflow.value as u64);
    push_str(&mut message, " exceeds the u32 EIR ID range");
    LowerError { anchor, kind: LowerErrorKind::InvalidProgram(message) }
}

/// The value of an emitted instruction: its kind, with operand lists as sequences.
pub enum OpModel {
    /// A kind without operand lists, as it is.
    Plain(InstructionKind),
    MakeList { dst: SlotId, items: Seq<SlotId> },
    MakeMap { dst: SlotId, entries: Seq<(SlotId, SlotId)> },
    MakeStruct { dst: SlotId, structure: StructId, fields: Seq<(FieldId, SlotId)> },
    SetField { target: SlotId, fields: Seq<FieldId>, src: SlotId },
    CallDirect { dst: Option<SlotId>, function: FunctionId, args: Seq<SlotId> },
    CallHost { dst: Option<SlotId>, function: HostFunctionId, args: Seq<SlotId> },
    CallIndirect { dst: Option<SlotId>, callee: SlotId, args: Seq<SlotId> },
    Spawn { function: FunctionId, args: Seq<SlotId> },
}

pub open spec fn op_model(k: InstructionKind) -> OpModel {
    match k {
        InstructionKind::MakeList { dst, items } => OpModel::MakeList { dst, items: items@ },
        InstructionKind::MakeMap { dst, entries } => OpModel::MakeMap { dst, entries: entries@ },
        InstructionKind::MakeStruct { dst, structure, fields } => OpModel::MakeStruct { dst, structure, fields: fields@ },
        InstructionKind::SetField { target, fields, src } => OpModel::SetField { target, fields: fields@, src },
        InstructionKind::CallDirect { dst, function, args } => OpModel::CallDirect { dst, function, args: args@ },
        InstructionKind::CallHost { dst, function, args } => OpModel::CallHost { dst, function, args: args@ },
        InstructionKind::CallIndirect { dst, callee, args } => OpModel::CallIndirect { dst, callee, args: args@ },
        InstructionKind::Spawn { function, args } => OpModel::Spawn { function, args: args@ },
        _ => OpModel::Plain(k),
    }
}

/// A block under construction: its instructions so far and, once it ends, its terminator.
pub struct DraftModel {
    pub code: Seq<(OpModel, SourceAnchor)>,
    pub terminator: Option<Terminator>,
}

/// The value of a function under construction.
pub struct BuildModel {
    pub slots: Seq<TypeId>,
    /// Local-to-slot bindings; a later binding of a local replaces an earlier one.
    pub locals: Seq<(LocalId, SlotId)>,
    pub parameter_count: u32,
    pub blocks: Seq<DraftModel>,
    pub current: int,
    /// For each loop being lowered, innermost last: where `continue` and `break` jump.
    pub loops: Seq<(BlockId, BlockId)>,
    /// The program's constant pool, shared by all functions.
    pub constants: Seq<ConstModel>,
}

/// The value of a constant, with its text as a sequence.
pub enum ConstModel {
    Bool(bool),
    Num(Seq<char>, Seq<char>),
    Str(Seq<char>),
}

pub open spec fn const_model(c: Constant) -> ConstModel {
    match c {
        Constant::Bool(b) => ConstModel::Bool(b),
        Constant::Num(code, shown) => ConstModel::Num(code@, shown@),
        Constant::Str(t) => ConstModel::Str(t@),
    }
}

/// What lowering reads besides the function: its module, the program's globals and its types.
pub struct LowerEnv {
    pub module: ModuleId,
    pub globals: Seq<((ModuleId, LocalId), GlobalId)>,
    pub types: Seq<SemTypeModel>,
}

/// The slot a local is bound to: its latest binding.
pub open spec fn local_slot(locals: Seq<(LocalId, SlotId)>, local: LocalId) -> Option<SlotId>
    decreases locals.len(),
{
    if locals.len() == 0 {
        None
    } else if locals.last().0 == local {
        Some(locals.last().1)
    } else {
        local_slot(locals.drop_last(), local)
    }
}

/// The global a module-level local of the current module is stored in.
pub open spec fn global_of(globals: Seq<((ModuleId, LocalId), GlobalId)>, module: ModuleId, local: LocalId) -> Option<GlobalId>
    decreases globals.len(),
{
    if globals.len() == 0 {
        None
    } else if globals.last().0 == (module, local) {
        Some(globals.last().1)
    } else {
        global_of(globals.drop_last(), module, local)
    }
}

pub open spec fn is_terminated(s: BuildModel) -> bool {
    0 <= s.current < s.blocks.len() && s.blocks[s.current].terminator is Some
}

#[verifier::opaque]
pub open spec fn spec_emit(s: BuildModel, op: OpModel, anchor: SourceAnchor) -> BuildModel {
    let b = s.blocks[s.current];
    BuildModel {
        blocks: s.blocks.update(s.current, DraftModel { code: b.code.push((op, anchor)), terminator: b.terminator }),
        ..s
    }
}

#[verifier::opaque]
pub open spec fn spec_terminate(s: BuildModel, kind: TerminatorKind, anchor: SourceAnchor) -> BuildModel {
    let b = s.blocks[s.current];
    BuildModel {
        blocks: s.blocks.update(s.current, DraftModel { code: b.code, terminator: Some(Terminator { kind, anchor }) }),
        ..s
    }
}

#[verifier::opaque]
pub open spec fn spec_allocate(s: BuildModel, ty: TypeId, anchor: SourceAnchor) -> (BuildModel, Result<SlotId, LowerErrorModel>) {
    if s.slots.len() <= u32::MAX {
        (BuildModel { slots: s.slots.push(ty), ..s }, Ok(SlotId(s.slots.len() as u32)))
    } else {
        (s, Err(invalid(anchor, overflow_text("SlotId"@, s.slots.len()))))
    }
}

#[verifier::opaque]
pub open spec fn spec_new_block(s: BuildModel, anchor: SourceAnchor) -> (BuildModel, Result<BlockId, LowerErrorModel>) {
    if s.blocks.len() <= u32::MAX {
        (
            BuildModel { blocks: s.blocks.push(DraftModel { code: Seq::empty(), terminator: None }), ..s },
            Ok(BlockId(s.blocks.len() as u32)),
        )
    } else {
        (s, Err(invalid(anchor, overflow_text("BlockId"@, s.blocks.len()))))
    }
}

#[verifier::opaque]
pub open spec fn spec_switch(s: BuildModel, b: BlockId) -> BuildModel {
    BuildModel { current: b.0 as int, ..s }
}

/// The index of the first constant equal to `c`.
pub open spec fn first_const(cs: Seq<ConstModel>, c: ConstModel) -> Option<int>
    decreases cs.len(),
{
    if cs.len() == 0 {
        None
    } else {
        match first_const(cs.drop_last(), c) {
            Some(k) => Some(k),
            None => if cs.last() == c { Some(cs.len() - 1) } else { None },
        }
    }
}

/// Interning a constant: the ID of the first equal constant, or a new entry at the end.
#[verifier::opaque]
pub open spec fn spec_intern(s: BuildModel, c: ConstModel, anchor: SourceAnchor) -> (BuildModel, Result<ConstId, LowerErrorModel>) {
    if let Some(k) = first_const(s.constants, c) {
        if k <= u32::MAX {
            (s, Ok(ConstId(k as u32)))
        } else {
            (s, Err(invalid(anchor, overflow_text("ConstId"@, k as nat))))
        }
    } else if s.constants.len() <= u32::MAX {
        (BuildModel { constants: s.constants.push(c), ..s }, Ok(ConstId(s.constants.len() as u32)))
    } else {
        (s, Err(invalid(anchor, overflow_text("ConstId"@, s.constants.len()))))
    }
}

/// A value-producing instruction: allocate its destination of type `ty`, then emit.
#[verifier::opaque]
pub open spec fn spec_read_local(env: LowerEnv, s: BuildModel, local: LocalId, ty: TypeId, anchor: SourceAnchor) -> (BuildModel, Result<SlotId, LowerErrorModel>) {
    match local_slot(s.locals, local) {
        Some(slot) => (s, Ok(slot)),
        None => match global_of(env.globals, env.module, local) {
            None => (s, Err(unsupported(anchor, "unresolved local access"@))),
            Some(global) => {
                let (s1, r) = spec_allocate(s, ty, anchor);
                match r {
                    Err(e) => (s1, Err(e)),
                    Ok(dst) => (spec_emit(s1, OpModel::Plain(InstructionKind::LoadGlobal { dst, global }), anchor), Ok(dst)),
                }
            },
        },
    }
}


/// An instruction that writes a fresh destination, with its operands.
#[derive(Clone, Copy)]
pub enum Produce {
    MakeFunction(FunctionId),
    MakeHostFunction(HostFunctionId),
    MakeError(ErrorId),
    MakeAddress,
    MakePipe(Option<usize>),
    Take(SlotId),
    Len(SlotId),
    MakeRef(SlotId),
    Deref(SlotId),
    GetField(SlotId, FieldId),
    GetIndex(SlotId, SlotId),
    Binary(HirBinaryOp, SlotId, SlotId),
    Collection(HirCollectionOp, SlotId, SlotId, SlotId),
}

/// The instruction for a binary operation; a range becomes `MakeRange`.
pub open spec fn binary_kind(op: HirBinaryOp, dst: SlotId, lhs: SlotId, rhs: SlotId) -> InstructionKind {
    match op {
        HirBinaryOp::AddNum => InstructionKind::AddNum { dst, lhs, rhs },
        HirBinaryOp::ConcatString => InstructionKind::ConcatString { dst, lhs, rhs },
        HirBinaryOp::SubNum => InstructionKind::SubNum { dst, lhs, rhs },
        HirBinaryOp::MulNum => InstructionKind::MulNum { dst, lhs, rhs },
        HirBinaryOp::DivNum => InstructionKind::DivNum { dst, lhs, rhs },
        HirBinaryOp::EqNum => InstructionKind::EqNum { dst, lhs, rhs },
        HirBinaryOp::EqString => InstructionKind::EqString { dst, lhs, rhs },
        HirBinaryOp::EqBool => InstructionKind::EqBool { dst, lhs, rhs },
        HirBinaryOp::NeNum => InstructionKind::NeNum { dst, lhs, rhs },
        HirBinaryOp::NeString => InstructionKind::NeString { dst, lhs, rhs },
        HirBinaryOp::NeBool => InstructionKind::NeBool { dst, lhs, rhs },
        HirBinaryOp::GtNum => InstructionKind::GtNum { dst, lhs, rhs },
        HirBinaryOp::LtNum => InstructionKind::LtNum { dst, lhs, rhs },
        HirBinaryOp::GeNum => InstructionKind::GeNum { dst, lhs, rhs },
        HirBinaryOp::LeNum => InstructionKind::LeNum { dst, lhs, rhs },
        HirBinaryOp::RangeNum => InstructionKind::MakeRange { dst, start: lhs, end: rhs },
    }
}

/// What a two-operand instruction computes, where it writes and what it reads: the operator,
/// the destination, then the left and the right operand (of a range, its start and its end).
pub open spec fn binary_parts(k: InstructionKind) -> Option<(HirBinaryOp, SlotId, SlotId, SlotId)> {
    match k {
        InstructionKind::AddNum { dst, lhs, rhs } => Some((HirBinaryOp::AddNum, dst, lhs, rhs)),
        InstructionKind::ConcatString { dst, lhs, rhs } => Some((HirBinaryOp::ConcatString, dst, lhs, rhs)),
        InstructionKind::SubNum { dst, lhs, rhs } => Some((HirBinaryOp::SubNum, dst, lhs, rhs)),
        InstructionKind::MulNum { dst, lhs, rhs } => Some((HirBinaryOp::MulNum, dst, lhs, rhs)),
        InstructionKind::DivNum { dst, lhs, rhs } => Some((HirBinaryOp::DivNum, dst, lhs, rhs)),
        InstructionKind::EqNum { dst, lhs, rhs } => Some((HirBinaryOp::EqNum, dst, lhs, rhs)),
        InstructionKind::EqString { dst, lhs, rhs } => Some((HirBinaryOp::EqString, dst, lhs, rhs)),
        InstructionKind::EqBool { dst, lhs, rhs } => Some((HirBinaryOp::EqBool, dst, lhs, rhs)),
        InstructionKind::NeNum { dst, lhs, rhs } => Some((HirBinaryOp::NeNum, dst, lhs, rhs)),
        InstructionKind::NeString { dst, lhs, rhs } => Some((HirBinaryOp::NeString, dst, lhs, rhs)),
        InstructionKind::NeBool { dst, lhs, rhs } => Some((HirBinaryOp::NeBool, dst, lhs, rhs)),
        InstructionKind::GtNum { dst, lhs, rhs } => Some((HirBinaryOp::GtNum, dst, lhs, rhs)),
        InstructionKind::LtNum { dst, lhs, rhs } => Some((HirBinaryOp::LtNum, dst, lhs, rhs)),
        InstructionKind::GeNum { dst, lhs, rhs } => Some((HirBinaryOp::GeNum, dst, lhs, rhs)),
        InstructionKind::LeNum { dst, lhs, rhs } => Some((HirBinaryOp::LeNum, dst, lhs, rhs)),
        InstructionKind::MakeRange { dst, start, end } => Some((HirBinaryOp::RangeNum, dst, start, end)),
        _ => None,
    }
}

/// The instruction that a binary expression lowers to applies the expression's operator and
/// keeps its operands in order: it writes the destination from the left operand's slot as
/// its first operand and the right operand's slot as its second, for every operator.
pub proof fn lemma_binary_keeps_operator_and_operand_order(op: HirBinaryOp, dst: SlotId, lhs: SlotId, rhs: SlotId)
    ensures
        binary_parts(binary_kind(op, dst, lhs, rhs)) == Some((op, dst, lhs, rhs)),
{
}

/// How many operands a collection operation takes.
pub open spec fn collection_arity(op: HirCollectionOp) -> nat {
    match op {
        HirCollectionOp::ListJoin => 2,
        HirCollectionOp::ListSlice => 3,
        HirCollectionOp::ListReverse => 1,
        HirCollectionOp::MapHas => 2,
        HirCollectionOp::MapSet => 3,
        HirCollectionOp::MapDelete => 2,
    }
}

pub open spec fn produce_kind(p: Produce, dst: SlotId) -> InstructionKind {
    match p {
        Produce::MakeFunction(function) => InstructionKind::MakeFunction { dst, function },
        Produce::MakeHostFunction(function) => InstructionKind::MakeHostFunction { dst, function },
        Produce::MakeError(error) => InstructionKind::MakeError { dst, error },
        Produce::MakeAddress => InstructionKind::MakeAddress { dst },
        Produce::MakePipe(capacity) => InstructionKind::MakePipe { dst, capacity },
        Produce::Take(channel) => InstructionKind::Take { dst, channel },
        Produce::Len(collection) => InstructionKind::Len { dst, collection },
        Produce::MakeRef(value) => InstructionKind::MakeRef { dst, value },
        Produce::Deref(address) => InstructionKind::Deref { dst, address },
        Produce::GetField(target, field) => InstructionKind::GetField { dst, target, field },
        Produce::GetIndex(collection, key) => InstructionKind::GetIndex { dst, collection, key },
        Produce::Binary(op, lhs, rhs) => binary_kind(op, dst, lhs, rhs),
        Produce::Collection(op, a, b, c) => match op {
            HirCollectionOp::ListJoin => InstructionKind::ListJoin { dst, left: a, right: b },
            HirCollectionOp::ListSlice => InstructionKind::ListSlice { dst, list: a, start: b, end: c },
            HirCollectionOp::ListReverse => InstructionKind::ListReverse { dst, list: a },
            HirCollectionOp::MapHas => InstructionKind::MapHas { dst, map: a, key: b },
            HirCollectionOp::MapSet => InstructionKind::MapSet { dst, map: a, key: b, value: c },
            HirCollectionOp::MapDelete => InstructionKind::MapDelete { dst, map: a, key: b },
        },
    }
}

/// The operand slots of a value to produce, in the order its expression names them.
pub open spec fn produce_operands(p: Produce) -> Seq<SlotId> {
    match p {
        Produce::Take(channel) => seq![channel],
        Produce::Len(collection) => seq![collection],
        Produce::MakeRef(value) => seq![value],
        Produce::Deref(address) => seq![address],
        Produce::GetField(target, _) => seq![target],
        Produce::GetIndex(collection, key) => seq![collection, key],
        Produce::Binary(_, lhs, rhs) => seq![lhs, rhs],
        Produce::Collection(op, a, b, c) => seq![a, b, c].take(collection_arity(op) as int),
        _ => Seq::empty(),
    }
}

/// The instruction emitted for a produced value writes exactly its fresh destination and reads
/// exactly its operands, in the order the expression names them (a list before an index, a map
/// before its key and value, a left operand before a right one).
pub proof fn lemma_produce_reads_operands_in_order(p: Produce, dst: SlotId)
    ensures
        produce_kind(p, dst).spec_destination() == Some(dst),
        produce_kind(p, dst).spec_read_slots() == produce_operands(p),
{
    match p {
        Produce::Binary(op, lhs, rhs) => {
            assert(produce_kind(p, dst).spec_read_slots() =~= produce_operands(p));
        },
        Produce::Collection(op, a, b, c) => {
            assert(produce_kind(p, dst).spec_read_slots() =~= produce_operands(p));
        },
        _ => {},
    }
}

/// Allocate a destination of type `ty` and emit the instruction that writes it.
#[verifier::opaque]
pub open spec fn spec_produce(s: BuildModel, p: Produce, ty: TypeId, anchor: SourceAnchor) -> (BuildModel, Result<Option<SlotId>, LowerErrorModel>) {
    let (s1, r) = spec_allocate(s, ty, anchor);
    match r {
        Err(e) => (s1, Err(e)),
        Ok(dst) => (spec_emit(s1, OpModel::Plain(produce_kind(p, dst)), anchor), Ok(Some(dst))),
    }
}

/// Intern a constant, then load it into a fresh slot.
#[verifier::opaque]
pub open spec fn spec_lower_constant(s: BuildModel, c: ConstModel, ty: TypeId, anchor: SourceAnchor) -> (BuildModel, Result<Option<SlotId>, LowerErrorModel>) {
    let (s1, r1) = spec_intern(s, c, anchor);
    match r1 {
        Err(e) => (s1, Err(e)),
        Ok(constant) => {
            let (s2, r2) = spec_allocate(s1, ty, anchor);
            match r2 {
                Err(e) => (s2, Err(e)),
                Ok(dst) => (spec_emit(s2, OpModel::Plain(InstructionKind::Const { dst, constant }), anchor), Ok(Some(dst))),
            }
        },
    }
}

pub open spec fn lift(r: (BuildModel, Result<SlotId, LowerErrorModel>)) -> (BuildModel, Result<Option<SlotId>, LowerErrorModel>) {
    match r.1 {
        Ok(slot) => (r.0, Ok(Some(slot))),
        Err(e) => (r.0, Err(e)),
    }
}

/// Moving out of a local: a fresh slot receives the local's value, or the global's.
#[verifier::opaque]
pub open spec fn spec_lower_move(env: LowerEnv, s: BuildModel, local: LocalId, ty: TypeId, anchor: SourceAnchor) -> (BuildModel, Result<Option<SlotId>, LowerErrorModel>) {
    let (s1, r) = spec_allocate(s, ty, anchor);
    match r {
        Err(e) => (s1, Err(e)),
        Ok(dst) => match local_slot(s1.locals, local) {
            Some(src) => (spec_emit(s1, OpModel::Plain(InstructionKind::Move { dst, src }), anchor), Ok(Some(dst))),
            None => match global_of(env.globals, env.module, local) {
                Some(global) => (spec_emit(s1, OpModel::Plain(InstructionKind::MoveGlobal { dst, global }), anchor), Ok(Some(dst))),
                None => (s1, Err(unsupported(anchor, "unresolved move"@))),
            },
        },
    }
}

/// The slots of `s` are still there, unchanged, in `t`, which may have more.
pub open spec fn slots_grow(s: BuildModel, t: BuildModel) -> bool {
    &&& s.slots.len() <= t.slots.len()
    &&& forall|i: int| 0 <= i < s.slots.len() ==> #[trigger] t.slots[i] == s.slots[i]
}

/// Slot `d` is new in `t` since `s`, and has type `ty`.
pub open spec fn fresh_slot(s: BuildModel, t: BuildModel, d: SlotId, ty: TypeId) -> bool {
    &&& s.slots.len() <= d.0 < t.slots.len()
    &&& t.slots[d.0 as int] == ty
}

proof fn lemma_produce_slots(s: BuildModel, p: Produce, ty: TypeId, anchor: SourceAnchor)
    ensures
        slots_grow(s, spec_produce(s, p, ty, anchor).0),
        spec_produce(s, p, ty, anchor).1 matches Ok(r) ==> (r matches Some(d) && fresh_slot(s, spec_produce(s, p, ty, anchor).0, d, ty)),
{
    reveal(spec_produce);
    reveal(spec_allocate);
    reveal(spec_emit);
}

/// Lowering an expression never drops or retypes a slot. A value comes back exactly where
/// the expression is not a push or a spawn; unless the expression reads a local (whose slot
/// it returns), that value is in a new slot of the expression's type.
#[verifier::rlimit(100)]
#[verifier::spinoff_prover]
pub proof fn lemma_lower_expr_slots(env: LowerEnv, s: BuildModel, e: HirExpr)
    ensures
        slots_grow(s, spec_lower_expr(env, s, e).0),
        spec_lower_expr(env, s, e).1 matches Ok(r) ==> (r is None <==> (e.kind is Push || e.kind is RunCall)),
        spec_lower_expr(env, s, e).1 matches Ok(Some(d))
            ==> (!(e.kind is Local) ==> fresh_slot(s, spec_lower_expr(env, s, e).0, d, e.ty)),
    decreases e, 0int,
{
    match e.kind {
        HirExprKind::Bool(v) => lemma_constant_slots(s, ConstModel::Bool(v), e.ty, e.anchor),
        HirExprKind::Number(code, shown) => lemma_constant_slots(s, ConstModel::Num(code@, shown@), e.ty, e.anchor),
        HirExprKind::String(t) => lemma_constant_slots(s, ConstModel::Str(t@), e.ty, e.anchor),
        HirExprKind::Local(local) => lemma_read_local_slots(env, s, local, e.ty, e.anchor),
        HirExprKind::Move(local) => lemma_move_slots(env, s, local, e.ty, e.anchor),
        HirExprKind::Binary { op, lhs, rhs } => {
            let (s1, r1) = spec_require(env, s, *lhs);
            lemma_require_slots(env, s, *lhs);
            if r1 is Ok {
                let (s2, r2) = spec_require(env, s1, *rhs);
                lemma_require_slots(env, s1, *rhs);
                if r2 is Ok {
                    lemma_produce_slots(s2, Produce::Binary(op, r1->Ok_0, r2->Ok_0), e.ty, e.anchor);
                }
            }
        },
        HirExprKind::Call { kind, args } => {
            let (s1, r1) = spec_require_all(env, s, args@);
            lemma_require_all_slots(env, s, args@);
            if r1 is Ok {
                reveal(spec_allocate);
                reveal(spec_emit);
                let (s2, r2) = spec_allocate(s1, e.ty, e.anchor);
                if r2 is Ok {
                    match kind {
                        HirCallKind::Indirect(callee) => {
                            lemma_require_slots(env, s2, *callee);
                        },
                        _ => {},
                    }
                }
            }
        },
        HirExprKind::ListInit(items) => {
            lemma_require_all_slots(env, s, items@);
            reveal(spec_allocate);
            reveal(spec_emit);
        },
        HirExprKind::MapInit(entries) => {
            lemma_require_pairs_slots(env, s, entries@);
            reveal(spec_allocate);
            reveal(spec_emit);
        },
        HirExprKind::StructInit { structure, fields } => {
            lemma_require_fields_slots(env, s, fields@);
            reveal(spec_allocate);
            reveal(spec_emit);
        },
        HirExprKind::CollectionCall { op, args } => {
            let (s1, r1) = spec_require_all(env, s, args@);
            lemma_require_all_slots(env, s, args@);
            if r1 is Ok {
                let slots = r1->Ok_0;
                if slots.len() == collection_arity(op) {
                    lemma_produce_slots(s1, Produce::Collection(op, slots[0], if slots.len() > 1 { slots[1] } else { slots[0] }, if slots.len() > 2 { slots[2] } else { slots[0] }), e.ty, e.anchor);
                }
            }
        },
        HirExprKind::FieldAccess { target, field } => {
            let (s1, r1) = spec_require(env, s, *target);
            lemma_require_slots(env, s, *target);
            if r1 is Ok {
                lemma_produce_slots(s1, Produce::GetField(r1->Ok_0, field), e.ty, e.anchor);
            }
        },
        HirExprKind::At { collection, key } => {
            let (s1, r1) = spec_require(env, s, *collection);
            lemma_require_slots(env, s, *collection);
            if r1 is Ok {
                let (s2, r2) = spec_require(env, s1, *key);
                lemma_require_slots(env, s1, *key);
                if r2 is Ok {
                    lemma_produce_slots(s2, Produce::GetIndex(r1->Ok_0, r2->Ok_0), e.ty, e.anchor);
                }
            }
        },
        HirExprKind::Push { collection, value } => {
            reveal(spec_allocate);
            reveal(spec_emit);
            let (s1, r1) = spec_require(env, s, *collection);
            lemma_require_slots(env, s, *collection);
            if r1 is Ok {
                lemma_require_slots(env, s1, *value);
            }
        },
        HirExprKind::Function(function) => lemma_produce_slots(s, Produce::MakeFunction(function), e.ty, e.anchor),
        HirExprKind::HostFunction(function) => lemma_produce_slots(s, Produce::MakeHostFunction(function), e.ty, e.anchor),
        HirExprKind::Error(error) => lemma_produce_slots(s, Produce::MakeError(error), e.ty, e.anchor),
        HirExprKind::AddressInit => lemma_produce_slots(s, Produce::MakeAddress, e.ty, e.anchor),
        HirExprKind::PipeInit { capacity } => lemma_produce_slots(s, Produce::MakePipe(capacity), e.ty, e.anchor),
        HirExprKind::Take(channel) => {
            let (s1, r1) = spec_require(env, s, *channel);
            lemma_require_slots(env, s, *channel);
            if r1 is Ok {
                lemma_produce_slots(s1, Produce::Take(r1->Ok_0), e.ty, e.anchor);
            }
        },
        HirExprKind::Len(collection) => {
            let (s1, r1) = spec_require(env, s, *collection);
            lemma_require_slots(env, s, *collection);
            if r1 is Ok {
                lemma_produce_slots(s1, Produce::Len(r1->Ok_0), e.ty, e.anchor);
            }
        },
        HirExprKind::Ref(value) => {
            let (s1, r1) = spec_require(env, s, *value);
            lemma_require_slots(env, s, *value);
            if r1 is Ok {
                lemma_produce_slots(s1, Produce::MakeRef(r1->Ok_0), e.ty, e.anchor);
            }
        },
        HirExprKind::Deref(address) => {
            let (s1, r1) = spec_require(env, s, *address);
            lemma_require_slots(env, s, *address);
            if r1 is Ok {
                lemma_produce_slots(s1, Produce::Deref(r1->Ok_0), e.ty, e.anchor);
            }
        },
        HirExprKind::RunCall(call) => match call.kind {
            HirExprKind::Call { kind: HirCallKind::Direct(function), args } => {
                assert(decreases_to!(e => call));
                reveal(spec_emit);
                lemma_require_all_slots(env, s, args@);
            },
            _ => {},
        },
        _ => {},
    }
}

proof fn lemma_constant_slots(s: BuildModel, c: ConstModel, ty: TypeId, anchor: SourceAnchor)
    ensures
        slots_grow(s, spec_lower_constant(s, c, ty, anchor).0),
        spec_lower_constant(s, c, ty, anchor).1 matches Ok(r) ==> (r matches Some(d) && fresh_slot(s, spec_lower_constant(s, c, ty, anchor).0, d, ty)),
{
    reveal(spec_lower_constant);
    reveal(spec_intern);
    reveal(spec_allocate);
    reveal(spec_emit);
}

proof fn lemma_move_slots(env: LowerEnv, s: BuildModel, local: LocalId, ty: TypeId, anchor: SourceAnchor)
    ensures
        slots_grow(s, spec_lower_move(env, s, local, ty, anchor).0),
        spec_lower_move(env, s, local, ty, anchor).1 matches Ok(r) ==> (r matches Some(d) && fresh_slot(s, spec_lower_move(env, s, local, ty, anchor).0, d, ty)),
{
    reveal(spec_lower_move);
    reveal(spec_allocate);
    reveal(spec_emit);
}

proof fn lemma_read_local_slots(env: LowerEnv, s: BuildModel, local: LocalId, ty: TypeId, anchor: SourceAnchor)
    ensures
        slots_grow(s, spec_read_local(env, s, local, ty, anchor).0),
{
    reveal(spec_read_local);
    reveal(spec_allocate);
    reveal(spec_emit);
}

proof fn lemma_require_slots(env: LowerEnv, s: BuildModel, e: HirExpr)
    ensures
        slots_grow(s, spec_require(env, s, e).0),
    decreases e, 1int,
{
    lemma_lower_expr_slots(env, s, e);
}

proof fn lemma_require_all_slots(env: LowerEnv, s: BuildModel, es: Seq<HirExpr>)
    ensures
        slots_grow(s, spec_require_all(env, s, es).0),
    decreases es, 2int,
{
    if es.len() > 0 {
        lemma_require_all_slots(env, s, es.drop_last());
        let (s1, r1) = spec_require_all(env, s, es.drop_last());
        if r1 is Ok {
            lemma_require_slots(env, s1, es.last());
        }
    }
}

proof fn lemma_require_pairs_slots(env: LowerEnv, s: BuildModel, ps: Seq<HirMapPair>)
    ensures
        slots_grow(s, spec_require_pairs(env, s, ps).0),
    decreases ps, 2int,
{
    if ps.len() > 0 {
        lemma_require_pairs_slots(env, s, ps.drop_last());
        let (s1, r1) = spec_require_pairs(env, s, ps.drop_last());
        if r1 is Ok {
            lemma_require_slots(env, s1, ps.last().key);
            let (s2, r2) = spec_require(env, s1, ps.last().key);
            if r2 is Ok {
                lemma_require_slots(env, s2, ps.last().value);
            }
        }
    }
}

proof fn lemma_require_fields_slots(env: LowerEnv, s: BuildModel, fs: Seq<HirFieldInit>)
    ensures
        slots_grow(s, spec_require_fields(env, s, fs).0),
    decreases fs, 2int,
{
    if fs.len() > 0 {
        lemma_require_fields_slots(env, s, fs.drop_last());
        let (s1, r1) = spec_require_fields(env, s, fs.drop_last());
        if r1 is Ok {
            lemma_require_slots(env, s1, fs.last().value);
        }
    }
}

/// Lowering an expression: the instructions that compute it go to the current block;
/// the result is the slot that holds its value, or none for a push or a spawn.
pub open spec fn spec_lower_expr(env: LowerEnv, s: BuildModel, e: HirExpr) -> (BuildModel, Result<Option<SlotId>, LowerErrorModel>)
    decreases e, 0int,
{
    match e.kind {
        HirExprKind::Bool(v) => spec_lower_constant(s, ConstModel::Bool(v), e.ty, e.anchor),
        HirExprKind::Number(code, shown) => spec_lower_constant(s, ConstModel::Num(code@, shown@), e.ty, e.anchor),
        HirExprKind::String(t) => spec_lower_constant(s, ConstModel::Str(t@), e.ty, e.anchor),
        HirExprKind::Local(local) => lift(spec_read_local(env, s, local, e.ty, e.anchor)),
        HirExprKind::Move(local) => spec_lower_move(env, s, local, e.ty, e.anchor),
        HirExprKind::Binary { op, lhs, rhs } => {
            let (s1, r1) = spec_require(env, s, *lhs);
            match r1 {
                Err(x) => (s1, Err(x)),
                Ok(l) => {
                    let (s2, r2) = spec_require(env, s1, *rhs);
                    match r2 {
                        Err(x) => (s2, Err(x)),
                        Ok(r) => spec_produce(s2, Produce::Binary(op, l, r), e.ty, e.anchor),
                    }
                },
            }
        },
        HirExprKind::Call { kind, args } => {
            let (s1, r1) = spec_require_all(env, s, args@);
            match r1 {
                Err(x) => (s1, Err(x)),
                Ok(slots) => {
                    let (s2, r2) = spec_allocate(s1, e.ty, e.anchor);
                    match r2 {
                        Err(x) => (s2, Err(x)),
                        Ok(dst) => match kind {
                            HirCallKind::Direct(function) =>
                                (spec_emit(s2, OpModel::CallDirect { dst: Some(dst), function, args: slots }, e.anchor), Ok(Some(dst))),
                            HirCallKind::Host(function) =>
                                (spec_emit(s2, OpModel::CallHost { dst: Some(dst), function, args: slots }, e.anchor), Ok(Some(dst))),
                            HirCallKind::Indirect(callee) => {
                                let (s3, r3) = spec_require(env, s2, *callee);
                                match r3 {
                                    Err(x) => (s3, Err(x)),
                                    Ok(c) => (spec_emit(s3, OpModel::CallIndirect { dst: Some(dst), callee: c, args: slots }, e.anchor), Ok(Some(dst))),
                                }
                            },
                        },
                    }
                },
            }
        },
        HirExprKind::ListInit(items) => {
            let (s1, r1) = spec_require_all(env, s, items@);
            match r1 {
                Err(x) => (s1, Err(x)),
                Ok(slots) => {
                    let (s2, r2) = spec_allocate(s1, e.ty, e.anchor);
                    match r2 {
                        Err(x) => (s2, Err(x)),
                        Ok(dst) => (spec_emit(s2, OpModel::MakeList { dst, items: slots }, e.anchor), Ok(Some(dst))),
                    }
                },
            }
        },
        HirExprKind::MapInit(entries) => {
            let (s1, r1) = spec_require_pairs(env, s, entries@);
            match r1 {
                Err(x) => (s1, Err(x)),
                Ok(pairs) => {
                    let (s2, r2) = spec_allocate(s1, e.ty, e.anchor);
                    match r2 {
                        Err(x) => (s2, Err(x)),
                        Ok(dst) => (spec_emit(s2, OpModel::MakeMap { dst, entries: pairs }, e.anchor), Ok(Some(dst))),
                    }
                },
            }
        },
        HirExprKind::StructInit { structure, fields } => {
            let (s1, r1) = spec_require_fields(env, s, fields@);
            match r1 {
                Err(x) => (s1, Err(x)),
                Ok(inits) => {
                    let (s2, r2) = spec_allocate(s1, e.ty, e.anchor);
                    match r2 {
                        Err(x) => (s2, Err(x)),
                        Ok(dst) => (spec_emit(s2, OpModel::MakeStruct { dst, structure, fields: inits }, e.anchor), Ok(Some(dst))),
                    }
                },
            }
        },
        HirExprKind::CollectionCall { op, args } => {
            let (s1, r1) = spec_require_all(env, s, args@);
            match r1 {
                Err(x) => (s1, Err(x)),
                Ok(slots) => if slots.len() == collection_arity(op) {
                    spec_produce(s1, Produce::Collection(op, slots[0], if slots.len() > 1 { slots[1] } else { slots[0] }, if slots.len() > 2 { slots[2] } else { slots[0] }), e.ty, e.anchor)
                } else {
                    (s1, Err(invalid(e.anchor, "collection call arity"@)))
                },
            }
        },
        HirExprKind::FieldAccess { target, field } => {
            let (s1, r1) = spec_require(env, s, *target);
            match r1 {
                Err(x) => (s1, Err(x)),
                Ok(t) => spec_produce(s1, Produce::GetField(t, field), e.ty, e.anchor),
            }
        },
        HirExprKind::At { collection, key } => {
            let (s1, r1) = spec_require(env, s, *collection);
            match r1 {
                Err(x) => (s1, Err(x)),
                Ok(c) => {
                    let (s2, r2) = spec_require(env, s1, *key);
                    match r2 {
                        Err(x) => (s2, Err(x)),
                        Ok(k) => spec_produce(s2, Produce::GetIndex(c, k), e.ty, e.anchor),
                    }
                },
            }
        },
        HirExprKind::Push { collection, value } => {
            let global = match collection.kind {
                HirExprKind::Local(local) => if local_slot(s.locals, local) is None {
                    global_of(env.globals, env.module, local)
                } else {
                    None
                },
                _ => None,
            };
            let (s1, r1) = spec_require(env, s, *collection);
            match r1 {
                Err(x) => (s1, Err(x)),
                Ok(c) => {
                    let (s2, r2) = spec_require(env, s1, *value);
                    match r2 {
                        Err(x) => (s2, Err(x)),
                        Ok(v) => {
                            let s3 = spec_emit(s2, OpModel::Plain(InstructionKind::Push { collection: c, value: v }), e.anchor);
                            match global {
                                Some(g) => (spec_emit(s3, OpModel::Plain(InstructionKind::StoreGlobal { global: g, src: c }), e.anchor), Ok(None)),
                                None => (s3, Ok(None)),
                            }
                        },
                    }
                },
            }
        },
        HirExprKind::Module(_) => (s, Err(unsupported(e.anchor, "module value"@))),
        HirExprKind::Function(function) => spec_produce(s, Produce::MakeFunction(function), e.ty, e.anchor),
        HirExprKind::HostFunction(function) => spec_produce(s, Produce::MakeHostFunction(function), e.ty, e.anchor),
        HirExprKind::Error(error) => spec_produce(s, Produce::MakeError(error), e.ty, e.anchor),
        HirExprKind::AddressInit => spec_produce(s, Produce::MakeAddress, e.ty, e.anchor),
        HirExprKind::PipeInit { capacity } => spec_produce(s, Produce::MakePipe(capacity), e.ty, e.anchor),
        HirExprKind::Take(channel) => {
            let (s1, r1) = spec_require(env, s, *channel);
            match r1 {
                Err(x) => (s1, Err(x)),
                Ok(c) => spec_produce(s1, Produce::Take(c), e.ty, e.anchor),
            }
        },
        HirExprKind::Len(collection) => {
            let (s1, r1) = spec_require(env, s, *collection);
            match r1 {
                Err(x) => (s1, Err(x)),
                Ok(c) => spec_produce(s1, Produce::Len(c), e.ty, e.anchor),
            }
        },
        HirExprKind::Ref(value) => {
            let (s1, r1) = spec_require(env, s, *value);
            match r1 {
                Err(x) => (s1, Err(x)),
                Ok(v) => spec_produce(s1, Produce::MakeRef(v), e.ty, e.anchor),
            }
        },
        HirExprKind::Deref(address) => {
            let (s1, r1) = spec_require(env, s, *address);
            match r1 {
                Err(x) => (s1, Err(x)),
                Ok(a) => spec_produce(s1, Produce::Deref(a), e.ty, e.anchor),
            }
        },
        HirExprKind::RunCall(call) => match call.kind {
            HirExprKind::Call { kind: HirCallKind::Direct(function), args } => {
                let (s1, r1) = spec_require_all(env, s, args@);
                match r1 {
                    Err(x) => (s1, Err(x)),
                    Ok(slots) => (spec_emit(s1, OpModel::Spawn { function, args: slots }, e.anchor), Ok(None)),
                }
            },
            _ => (s, Err(unsupported(e.anchor, "non-direct run call"@))),
        },
    }
}

/// Lowering an expression whose value is needed: a valueless expression is an error.
pub open spec fn spec_require(env: LowerEnv, s: BuildModel, e: HirExpr) -> (BuildModel, Result<SlotId, LowerErrorModel>)
    decreases e, 1int,
{
    let (s1, r) = spec_lower_expr(env, s, e);
    match r {
        Err(x) => (s1, Err(x)),
        Ok(None) => (s1, Err(invalid(e.anchor, "void expression used as a value"@))),
        Ok(Some(slot)) => (s1, Ok(slot)),
    }
}

/// Lowering a list of operands in order, stopping at the first error.
pub open spec fn spec_require_all(env: LowerEnv, s: BuildModel, es: Seq<HirExpr>) -> (BuildModel, Result<Seq<SlotId>, LowerErrorModel>)
    decreases es, 2int,
{
    if es.len() == 0 {
        (s, Ok(Seq::empty()))
    } else {
        let (s1, r1) = spec_require_all(env, s, es.drop_last());
        match r1 {
            Err(x) => (s1, Err(x)),
            Ok(slots) => {
                let (s2, r2) = spec_require(env, s1, es.last());
                match r2 {
                    Err(x) => (s2, Err(x)),
                    Ok(slot) => (s2, Ok(slots.push(slot))),
                }
            },
        }
    }
}

/// Lowering map entries in order: each key, then its value.
pub open spec fn spec_require_pairs(env: LowerEnv, s: BuildModel, ps: Seq<HirMapPair>) -> (BuildModel, Result<Seq<(SlotId, SlotId)>, LowerErrorModel>)
    decreases ps, 2int,
{
    if ps.len() == 0 {
        (s, Ok(Seq::empty()))
    } else {
        let (s1, r1) = spec_require_pairs(env, s, ps.drop_last());
        match r1 {
            Err(x) => (s1, Err(x)),
            Ok(pairs) => {
                let (s2, r2) = spec_require(env, s1, ps.last().key);
                match r2 {
                    Err(x) => (s2, Err(x)),
                    Ok(k) => {
                        let (s3, r3) = spec_require(env, s2, ps.last().value);
                        match r3 {
                            Err(x) => (s3, Err(x)),
                            Ok(v) => (s3, Ok(pairs.push((k, v)))),
                        }
                    },
                }
            },
        }
    }
}

/// Lowering field initializers in order.
pub open spec fn spec_require_fields(env: LowerEnv, s: BuildModel, fs: Seq<HirFieldInit>) -> (BuildModel, Result<Seq<(FieldId, SlotId)>, LowerErrorModel>)
    decreases fs, 2int,
{
    if fs.len() == 0 {
        (s, Ok(Seq::empty()))
    } else {
        let (s1, r1) = spec_require_fields(env, s, fs.drop_last());
        match r1 {
            Err(x) => (s1, Err(x)),
            Ok(inits) => {
                let (s2, r2) = spec_require(env, s1, fs.last().value);
                match r2 {
                    Err(x) => (s2, Err(x)),
                    Ok(v) => (s2, Ok(inits.push((fs.last().field, v)))),
                }
            },
        }
    }
}


proof fn lemma_require_all_err(env: LowerEnv, s: BuildModel, es: Seq<HirExpr>, k: int)
    requires
        0 <= k <= es.len(),
        spec_require_all(env, s, es.subrange(0, k)).1 is Err,
    ensures
        spec_require_all(env, s, es) == spec_require_all(env, s, es.subrange(0, k)),
    decreases es.len() - k,
{
    if k < es.len() {
        assert(es.subrange(0, k + 1).drop_last() =~= es.subrange(0, k));
        lemma_require_all_err(env, s, es, k + 1);
    } else {
        assert(es.subrange(0, k) =~= es);
    }
}

proof fn lemma_require_pairs_err(env: LowerEnv, s: BuildModel, ps: Seq<HirMapPair>, k: int)
    requires
        0 <= k <= ps.len(),
        spec_require_pairs(env, s, ps.subrange(0, k)).1 is Err,
    ensures
        spec_require_pairs(env, s, ps) == spec_require_pairs(env, s, ps.subrange(0, k)),
    decreases ps.len() - k,
{
    if k < ps.len() {
        assert(ps.subrange(0, k + 1).drop_last() =~= ps.subrange(0, k));
        lemma_require_pairs_err(env, s, ps, k + 1);
    } else {
        assert(ps.subrange(0, k) =~= ps);
    }
}

proof fn lemma_require_fields_err(env: LowerEnv, s: BuildModel, fs: Seq<HirFieldInit>, k: int)
    requires
        0 <= k <= fs.len(),
        spec_require_fields(env, s, fs.subrange(0, k)).1 is Err,
    ensures
        spec_require_fields(env, s, fs) == spec_require_fields(env, s, fs.subrange(0, k)),
    decreases fs.len() - k,
{
    if k < fs.len() {
        assert(fs.subrange(0, k + 1).drop_last() =~= fs.subrange(0, k));
        lemma_require_fields_err(env, s, fs, k + 1);
    } else {
        assert(fs.subrange(0, k) =~= fs);
    }
}

pub open spec fn res_seq<T>(r: Result<Vec<T>, LowerError>) -> Result<Seq<T>, LowerErrorModel> {
    match r {
        Ok(v) => Ok(v@),
        Err(e) => Err(e@),
    }
}

fn binary_kind_exec(op: HirBinaryOp, dst: SlotId, lhs: SlotId, rhs: SlotId) -> (k: InstructionKind)
    ensures
        k == binary_kind(op, dst, lhs, rhs),
{
    match op {
        HirBinaryOp::AddNum => InstructionKind::AddNum { dst, lhs, rhs },
        HirBinaryOp::ConcatString => InstructionKind::ConcatString { dst, lhs, rhs },
        HirBinaryOp::SubNum => InstructionKind::SubNum { dst, lhs, rhs },
        HirBinaryOp::MulNum => InstructionKind::MulNum { dst, lhs, rhs },
        HirBinaryOp::DivNum => InstructionKind::DivNum { dst, lhs, rhs },
        HirBinaryOp::EqNum => InstructionKind::EqNum { dst, lhs, rhs },
        HirBinaryOp::EqString => InstructionKind::EqString { dst, lhs, rhs },
        HirBinaryOp::EqBool => InstructionKind::EqBool { dst, lhs, rhs },
        HirBinaryOp::NeNum => InstructionKind::NeNum { dst, lhs, rhs },
        HirBinaryOp::NeString => InstructionKind::NeString { dst, lhs, rhs },
        HirBinaryOp::NeBool => InstructionKind::NeBool { dst, lhs, rhs },
        HirBinaryOp::GtNum => InstructionKind::GtNum { dst, lhs, rhs },
        HirBinaryOp::LtNum => InstructionKind::LtNum { dst, lhs, rhs },
        HirBinaryOp::GeNum => InstructionKind::GeNum { dst, lhs, rhs },
        HirBinaryOp::LeNum => InstructionKind::LeNum { dst, lhs, rhs },
        HirBinaryOp::RangeNum => InstructionKind::MakeRange { dst, start: lhs, end: rhs },
    }
}

fn produce_kind_exec(p: Produce, dst: SlotId) -> (k: InstructionKind)
    ensures
        k == produce_kind(p, dst),
{
    match p {
        Produce::MakeFunction(function) => InstructionKind::MakeFunction { dst, function },
        Produce::MakeHostFunction(function) => InstructionKind::MakeHostFunction { dst, function },
        Produce::MakeError(error) => InstructionKind::MakeError { dst, error },
        Produce::MakeAddress => InstructionKind::MakeAddress { dst },
        Produce::MakePipe(capacity) => InstructionKind::MakePipe { dst, capacity },
        Produce::Take(channel) => InstructionKind::Take { dst, channel },
        Produce::Len(collection) => InstructionKind::Len { dst, collection },
        Produce::MakeRef(value) => InstructionKind::MakeRef { dst, value },
        Produce::Deref(address) => InstructionKind::Deref { dst, address },
        Produce::GetField(target, field) => InstructionKind::GetField { dst, target, field },
        Produce::GetIndex(collection, key) => InstructionKind::GetIndex { dst, collection, key },
        Produce::Binary(op, lhs, rhs) => binary_kind_exec(op, dst, lhs, rhs),
        Produce::Collection(op, a, b, c) => match op {
            HirCollectionOp::ListJoin => InstructionKind::ListJoin { dst, left: a, right: b },
            HirCollectionOp::ListSlice => InstructionKind::ListSlice { dst, list: a, start: b, end: c },
            HirCollectionOp::ListReverse => InstructionKind::ListReverse { dst, list: a },
            HirCollectionOp::MapHas => InstructionKind::MapHas { dst, map: a, key: b },
            HirCollectionOp::MapSet => InstructionKind::MapSet { dst, map: a, key: b, value: c },
            HirCollectionOp::MapDelete => InstructionKind::MapDelete { dst, map: a, key: b },
        },
    }
}

fn collection_arity_exec(op: HirCollectionOp) -> (n: usize)
    ensures
        n == collection_arity(op),
{
    match op {
        HirCollectionOp::ListJoin => 2,
        HirCollectionOp::ListSlice => 3,
        HirCollectionOp::ListReverse => 1,
        HirCollectionOp::MapHas => 2,
        HirCollectionOp::MapSet => 3,
        HirCollectionOp::MapDelete => 2,
    }
}


/// The local and field chain a field assignment writes: `a.b.c` gives `a`, its type and `[b, c]`.
pub open spec fn field_path(e: HirExpr) -> Option<(LocalId, TypeId, Seq<FieldId>)>
    decreases e,
{
    match e.kind {
        HirExprKind::FieldAccess { target, field } => match field_path(*target) {
            Some((local, ty, fields)) => Some((local, ty, fields.push(field))),
            None => None,
        },
        HirExprKind::Local(local) => Some((local, e.ty, Seq::empty())),
        _ => None,
    }
}

#[verifier::opaque]
pub open spec fn spec_bind(s: BuildModel, local: LocalId, slot: SlotId) -> BuildModel {
    BuildModel { locals: s.locals.push((local, slot)), ..s }
}

#[verifier::opaque]
pub open spec fn spec_push_loop(s: BuildModel, continue_to: BlockId, break_to: BlockId) -> BuildModel {
    BuildModel { loops: s.loops.push((continue_to, break_to)), ..s }
}

#[verifier::opaque]
pub open spec fn spec_pop_loop(s: BuildModel) -> BuildModel {
    BuildModel { loops: s.loops.drop_last(), ..s }
}

/// End the current block with a jump to `target` unless it has already ended.
#[verifier::opaque]
pub open spec fn spec_fall_to(s: BuildModel, target: BlockId, anchor: SourceAnchor) -> BuildModel {
    if is_terminated(s) { s } else { spec_terminate(s, TerminatorKind::Jump(target), anchor) }
}

/// The type of the items a loop walks: numbers for a range, the element type of a
/// list, strings for a string, unknown otherwise.
pub open spec fn item_type(types: Seq<SemTypeModel>, ty: TypeId) -> TypeId {
    if (ty.0 as int) < types.len() {
        match types[ty.0 as int] {
            SemTypeModel::Range => TypeId(3),
            SemTypeModel::List(inner) => inner,
            SemTypeModel::Str => TypeId(4),
            _ => TypeId(0),
        }
    } else {
        TypeId(0)
    }
}

/// Lowering statements in order, stopping at the first error or once the current block has ended.
pub open spec fn spec_lower_stmts(env: LowerEnv, s: BuildModel, sts: Seq<HirStmt>) -> (BuildModel, Result<(), LowerErrorModel>)
    decreases sts, 0int,
{
    if sts.len() == 0 {
        (s, Ok(()))
    } else {
        let (s1, r1) = spec_lower_stmts(env, s, sts.drop_last());
        match r1 {
            Err(x) => (s1, Err(x)),
            Ok(_) => if is_terminated(s1) { (s1, r1) } else { spec_lower_stmt(env, s1, sts.last()) },
        }
    }
}

pub open spec fn spec_lower_opt_stmts(env: LowerEnv, s: BuildModel, sts: Option<Vec<HirStmt>>) -> (BuildModel, Result<(), LowerErrorModel>)
    decreases sts, 1int,
{
    match sts {
        Some(v) => spec_lower_stmts(env, s, v@),
        None => (s, Ok(())),
    }
}

/// Lowering one statement.
pub open spec fn spec_lower_stmt(env: LowerEnv, s: BuildModel, st: HirStmt) -> (BuildModel, Result<(), LowerErrorModel>)
    decreases st, 2int,
{
    match st.kind {
        HirStmtKind::VarDecl { local, value } => {
            let (s1, r1) = spec_require(env, s, value);
            match r1 {
                Err(x) => (s1, Err(x)),
                Ok(v) => match global_of(env.globals, env.module, local) {
                    Some(g) => (spec_emit(s1, OpModel::Plain(InstructionKind::StoreGlobal { global: g, src: v }), st.anchor), Ok(())),
                    None => {
                        let (s2, r2) = spec_allocate(s1, value.ty, st.anchor);
                        match r2 {
                            Err(x) => (s2, Err(x)),
                            Ok(slot) => (spec_emit(spec_bind(s2, local, slot), OpModel::Plain(InstructionKind::Copy { dst: slot, src: v }), st.anchor), Ok(())),
                        }
                    },
                },
            }
        },
        HirStmtKind::Assign { target, value } => {
            let (s1, r1) = spec_require(env, s, value);
            match r1 {
                Err(x) => (s1, Err(x)),
                Ok(v) => match target.kind {
                    HirExprKind::Local(local) => match local_slot(s1.locals, local) {
                        Some(d) => (spec_emit(s1, OpModel::Plain(InstructionKind::Copy { dst: d, src: v }), st.anchor), Ok(())),
                        None => match global_of(env.globals, env.module, local) {
                            Some(g) => (spec_emit(s1, OpModel::Plain(InstructionKind::StoreGlobal { global: g, src: v }), st.anchor), Ok(())),
                            None => (s1, Err(unsupported(target.anchor, "unresolved assignment local"@))),
                        },
                    },
                    HirExprKind::Deref(address) => {
                        let (s2, r2) = spec_require(env, s1, *address);
                        match r2 {
                            Err(x) => (s2, Err(x)),
                            Ok(a) => (spec_emit(s2, OpModel::Plain(InstructionKind::StoreDeref { address: a, src: v }), st.anchor), Ok(())),
                        }
                    },
                    _ => match field_path(target) {
                        Some((local, root_type, fields)) => {
                            let bound = local_slot(s1.locals, local);
                            let (s2, r2) = spec_read_local(env, s1, local, root_type, target.anchor);
                            match r2 {
                                Err(x) => (s2, Err(x)),
                                Ok(t) => {
                                    let s3 = spec_emit(s2, OpModel::SetField { target: t, fields, src: v }, st.anchor);
                                    match (bound, global_of(env.globals, env.module, local)) {
                                        (None, Some(g)) => (spec_emit(s3, OpModel::Plain(InstructionKind::StoreGlobal { global: g, src: t }), st.anchor), Ok(())),
                                        _ => (s3, Ok(())),
                                    }
                                },
                            }
                        },
                        None => (s1, Err(unsupported(st.anchor, "assignment target"@))),
                    },
                },
            }
        },
        HirStmtKind::On { error_clauses, .. } => if error_clauses@.len() == 0 {
            spec_lower_on(env, s, st)
        } else {
            spec_lower_on_with_errors(env, s, st)
        },
        HirStmtKind::LoopOn { .. } => spec_lower_loop_on(env, s, st),
        HirStmtKind::LoopIter { .. } => spec_lower_loop_iter(env, s, st),
        HirStmtKind::Return(value) => match value {
            Some(v) => {
                let (s1, r1) = spec_require(env, s, v);
                match r1 {
                    Err(x) => (s1, Err(x)),
                    Ok(slot) => (spec_terminate(s1, TerminatorKind::Return(Some(slot)), st.anchor), Ok(())),
                }
            },
            None => (spec_terminate(s, TerminatorKind::Return(None), st.anchor), Ok(())),
        },
        HirStmtKind::Break => if s.loops.len() > 0 {
            (spec_terminate(s, TerminatorKind::Jump(s.loops.last().1), st.anchor), Ok(()))
        } else {
            (s, Err(invalid(st.anchor, "break outside loop"@)))
        },
        HirStmtKind::Continue => if s.loops.len() > 0 {
            (spec_terminate(s, TerminatorKind::Jump(s.loops.last().0), st.anchor), Ok(()))
        } else {
            (s, Err(invalid(st.anchor, "continue outside loop"@)))
        },
        HirStmtKind::Expr(e) => {
            let (s1, r1) = spec_lower_expr(env, s, e);
            match r1 {
                Err(x) => (s1, Err(x)),
                Ok(_) => (s1, Ok(())),
            }
        },
        HirStmtKind::Give { channel, value } => {
            let (s1, r1) = spec_require(env, s, channel);
            match r1 {
                Err(x) => (s1, Err(x)),
                Ok(c) => {
                    let (s2, r2) = spec_require(env, s1, value);
                    match r2 {
                        Err(x) => (s2, Err(x)),
                        Ok(v) => (spec_emit(s2, OpModel::Plain(InstructionKind::Give { channel: c, value: v }), st.anchor), Ok(())),
                    }
                },
            }
        },
        HirStmtKind::Close(channel) => {
            let (s1, r1) = spec_require(env, s, channel);
            match r1 {
                Err(x) => (s1, Err(x)),
                Ok(c) => (spec_emit(s1, OpModel::Plain(InstructionKind::Close { channel: c }), st.anchor), Ok(())),
            }
        },
        HirStmtKind::Rest => (spec_emit(s, OpModel::Plain(InstructionKind::Rest), st.anchor), Ok(())),
        HirStmtKind::Check { condition, message } => {
            let (s1, r1) = spec_require(env, s, condition);
            match r1 {
                Err(x) => (s1, Err(x)),
                Ok(c) => match message {
                    Some(m) => {
                        let (s2, r2) = spec_intern(s1, ConstModel::Str(m@), st.anchor);
                        match r2 {
                            Err(x) => (s2, Err(x)),
                            Ok(id) => (spec_emit(s2, OpModel::Plain(InstructionKind::Check { condition: c, message: Some(id) }), st.anchor), Ok(())),
                        }
                    },
                    None => (spec_emit(s1, OpModel::Plain(InstructionKind::Check { condition: c, message: None }), st.anchor), Ok(())),
                },
            }
        },
        _ => (s, Ok(())),
    }
}

/// `on` without error clauses: a branch to a then-block and an else-block that
/// rejoin; a join that neither reaches is unreachable.
pub open spec fn spec_lower_on(env: LowerEnv, s: BuildModel, st: HirStmt) -> (BuildModel, Result<(), LowerErrorModel>)
    decreases st, 1int,
{
    match st.kind {
        HirStmtKind::On { condition, body, else_body, .. } => {
            let a = st.anchor;
            let (s1, r1) = spec_require(env, s, condition);
            match r1 {
                Err(x) => (s1, Err(x)),
                Ok(c) => {
                    let (s2, r2) = spec_new_block(s1, a);
                    match r2 {
                        Err(x) => (s2, Err(x)),
                        Ok(then_block) => {
                            let (s3, r3) = spec_new_block(s2, a);
                            match r3 {
                                Err(x) => (s3, Err(x)),
                                Ok(else_block) => {
                                    let (s4, r4) = spec_new_block(s3, a);
                                    match r4 {
                                        Err(x) => (s4, Err(x)),
                                        Ok(join) => {
                                            let s5 = spec_switch(spec_terminate(s4, TerminatorKind::Branch { condition: c, then_block, else_block }, a), then_block);
                                            let (s6, r6) = spec_lower_stmts(env, s5, body@);
                                            match r6 {
                                                Err(x) => (s6, Err(x)),
                                                Ok(_) => {
                                                    let then_falls = !is_terminated(s6);
                                                    let s7 = spec_switch(spec_fall_to(s6, join, a), else_block);
                                                    let (s8, r8) = spec_lower_opt_stmts(env, s7, else_body);
                                                    match r8 {
                                                        Err(x) => (s8, Err(x)),
                                                        Ok(_) => {
                                                            let else_falls = !is_terminated(s8);
                                                            let s9 = spec_switch(spec_fall_to(s8, join, a), join);
                                                            if !then_falls && !else_falls {
                                                                (spec_terminate(s9, TerminatorKind::Unreachable, a), Ok(()))
                                                            } else {
                                                                (s9, Ok(()))
                                                            }
                                                        },
                                                    }
                                                },
                                            }
                                        },
                                    }
                                },
                            }
                        },
                    }
                },
            }
        },
        _ => (s, Ok(())),
    }
}

/// `loop on`: a condition block that branches to the body or the exit; the body
/// jumps back to the condition.
pub open spec fn spec_lower_loop_on(env: LowerEnv, s: BuildModel, st: HirStmt) -> (BuildModel, Result<(), LowerErrorModel>)
    decreases st, 1int,
{
    match st.kind {
        HirStmtKind::LoopOn { condition, body } => {
            let a = st.anchor;
            let (s1, r1) = spec_new_block(s, a);
            match r1 {
                Err(x) => (s1, Err(x)),
                Ok(cond_block) => {
                    let (s2, r2) = spec_new_block(s1, a);
                    match r2 {
                        Err(x) => (s2, Err(x)),
                        Ok(body_block) => {
                            let (s3, r3) = spec_new_block(s2, a);
                            match r3 {
                                Err(x) => (s3, Err(x)),
                                Ok(exit) => {
                                    let s4 = spec_switch(spec_terminate(s3, TerminatorKind::Jump(cond_block), a), cond_block);
                                    let (s5, r5) = spec_require(env, s4, condition);
                                    match r5 {
                                        Err(x) => (s5, Err(x)),
                                        Ok(c) => {
                                            let s6 = spec_push_loop(spec_switch(spec_terminate(s5, TerminatorKind::Branch { condition: c, then_block: body_block, else_block: exit }, a), body_block), cond_block, exit);
                                            let (s7, r7) = spec_lower_stmts(env, s6, body@);
                                            let s8 = spec_pop_loop(s7);
                                            match r7 {
                                                Err(x) => (s8, Err(x)),
                                                Ok(_) => (spec_switch(spec_fall_to(s8, cond_block, a), exit), Ok(())),
                                            }
                                        },
                                    }
                                },
                            }
                        },
                    }
                },
            }
        },
        _ => (s, Ok(())),
    }
}

/// The step of a `loop ... in`: the given expression, or the constant one.
pub open spec fn spec_step(env: LowerEnv, s: BuildModel, step: Option<HirExpr>, a: SourceAnchor) -> (BuildModel, Result<SlotId, LowerErrorModel>)
    decreases step, 1int,
{
    match step {
        Some(e) => spec_require(env, s, e),
        None => {
            let (s1, r1) = spec_intern(s, ConstModel::Num("1.0"@, "1"@), a);
            match r1 {
                Err(x) => (s1, Err(x)),
                Ok(constant) => {
                    let (s2, r2) = spec_allocate(s1, TypeId(3), a);
                    match r2 {
                        Err(x) => (s2, Err(x)),
                        Ok(slot) => (spec_emit(s2, OpModel::Plain(InstructionKind::Const { dst: slot, constant }), a), Ok(slot)),
                    }
                },
            }
        },
    }
}

/// `n` fresh blocks, in order.
pub open spec fn spec_new_blocks(s: BuildModel, n: nat, a: SourceAnchor) -> (BuildModel, Result<Seq<BlockId>, LowerErrorModel>)
    decreases n,
{
    if n == 0 {
        (s, Ok(Seq::empty()))
    } else {
        let (s1, r1) = spec_new_blocks(s, (n - 1) as nat, a);
        match r1 {
            Err(x) => (s1, Err(x)),
            Ok(v) => {
                let (s2, r2) = spec_new_block(s1, a);
                match r2 {
                    Err(x) => (s2, Err(x)),
                    Ok(b) => (s2, Ok(v.push(b))),
                }
            },
        }
    }
}

/// `loop x in ...`: a counter walks the iterable; each item passes the filter into
/// the body or goes to the else-body, and both continue with the next step.
pub open spec fn spec_lower_loop_iter(env: LowerEnv, s: BuildModel, st: HirStmt) -> (BuildModel, Result<(), LowerErrorModel>)
    decreases st, 1int,
{
    match st.kind {
        HirStmtKind::LoopIter { iterator, iterable, step, filter, body, else_body } => {
            let a = st.anchor;
            let (s1, r1) = spec_require(env, s, iterable);
            match r1 {
                Err(x) => (s1, Err(x)),
                Ok(it) => {
                    let (s2, r2) = spec_step(env, s1, step, a);
                    match r2 {
                        Err(x) => (s2, Err(x)),
                        Ok(step_slot) => {
                            let (s3, r3) = spec_allocate(s2, TypeId(3), a);
                            match r3 {
                                Err(x) => (s3, Err(x)),
                                Ok(index) => {
                                    let s4 = spec_emit(s3, OpModel::Plain(InstructionKind::IterInit { dst: index, iterable: it }), a);
                                    let (s5, r5) = spec_allocate(s4, item_type(env.types, iterable.ty), a);
                                    match r5 {
                                        Err(x) => (s5, Err(x)),
                                        Ok(item) => {
                                            let (s6, r6) = spec_new_blocks(spec_bind(s5, iterator, item), 6, a);
                                            match r6 {
                                                Err(x) => (s6, Err(x)),
                                                Ok(b) => spec_loop_iter_body(env, s6, st, it, step_slot, index, item, b),
                                            }
                                        },
                                    }
                                },
                            }
                        },
                    }
                },
            }
        },
        _ => (s, Ok(())),
    }
}

/// The blocks of `loop x in`, once its slots and blocks exist: `b` holds the
/// condition, dispatch, body, else, increment and exit blocks.
pub open spec fn spec_loop_iter_body(env: LowerEnv, s: BuildModel, st: HirStmt, it: SlotId, step_slot: SlotId, index: SlotId, item: SlotId, b: Seq<BlockId>) -> (BuildModel, Result<(), LowerErrorModel>)
    decreases st, 0int,
{
    match st.kind {
        HirStmtKind::LoopIter { filter, body, else_body, .. } => {
            let a = st.anchor;
            let (cond_block, dispatch, body_block, else_block, increment, exit) = (b[0], b[1], b[2], b[3], b[4], b[5]);
            let s1 = spec_switch(spec_terminate(s, TerminatorKind::Jump(cond_block), a), cond_block);
            let (s2, r2) = spec_allocate(s1, TypeId(2), a);
            match r2 {
                Err(x) => (s2, Err(x)),
                Ok(has_next) => {
                    let s3 = spec_emit(s2, OpModel::Plain(InstructionKind::IterHasNext { dst: has_next, iterable: it, index }), a);
                    let s4 = spec_switch(spec_terminate(s3, TerminatorKind::Branch { condition: has_next, then_block: dispatch, else_block: exit }, a), dispatch);
                    let s5 = spec_emit(s4, OpModel::Plain(InstructionKind::IterGet { dst: item, iterable: it, index }), a);
                    let (s6, r6) = match filter {
                        Some(f) => {
                            let (t1, q1) = spec_require(env, s5, f);
                            match q1 {
                                Err(x) => (t1, Err(x)),
                                Ok(c) => (spec_terminate(t1, TerminatorKind::Branch { condition: c, then_block: body_block, else_block }, a), Ok(())),
                            }
                        },
                        None => (spec_terminate(s5, TerminatorKind::Jump(body_block), a), Ok(())),
                    };
                    match r6 {
                        Err(x) => (s6, Err(x)),
                        Ok(_) => {
                            let (s7, r7) = spec_lower_stmts(env, spec_push_loop(spec_switch(s6, body_block), increment, exit), body@);
                            match r7 {
                                Err(x) => (s7, Err(x)),
                                Ok(_) => {
                                    let s8 = spec_switch(spec_fall_to(spec_pop_loop(s7), increment, a), else_block);
                                    let (s9, r9) = spec_lower_opt_stmts(env, s8, else_body);
                                    match r9 {
                                        Err(x) => (s9, Err(x)),
                                        Ok(_) => {
                                            let s10 = spec_switch(spec_fall_to(s9, increment, a), increment);
                                            let s11 = spec_emit(s10, OpModel::Plain(InstructionKind::AddNum { dst: index, lhs: index, rhs: step_slot }), a);
                                            (spec_switch(spec_terminate(s11, TerminatorKind::Jump(cond_block), a), exit), Ok(()))
                                        },
                                    }
                                },
                            }
                        },
                    }
                },
            }
        },
        _ => (s, Ok(())),
    }
}


/// `on` with error clauses: an error value goes through the clauses in order, the
/// first matching one (or a catch-all) runs, and an unmatched error is thrown on;
/// any other value branches on its truth, where a `void` result counts as success.
pub open spec fn spec_lower_on_with_errors(env: LowerEnv, s: BuildModel, st: HirStmt) -> (BuildModel, Result<(), LowerErrorModel>)
    decreases st, 1int,
{
    match st.kind {
        HirStmtKind::On { condition, body, else_body, error_clauses } => {
            let a = st.anchor;
            let (s1, r1) = spec_require(env, s, condition);
            match r1 {
                Err(x) => (s1, Err(x)),
                Ok(c) => {
                    let (s2, r2) = spec_allocate(s1, TypeId(2), a);
                    match r2 {
                        Err(x) => (s2, Err(x)),
                        Ok(is_error) => {
                            let s3 = spec_emit(s2, OpModel::Plain(InstructionKind::IsError { dst: is_error, value: c }), a);
                            let (s4, r4) = spec_new_blocks(s3, 5, a);
                            match r4 {
                                Err(x) => (s4, Err(x)),
                                Ok(b) => {
                                    let (error_dispatch, normal_dispatch, then_block, else_block, join) = (b[0], b[1], b[2], b[3], b[4]);
                                    let s5 = spec_switch(spec_terminate(s4, TerminatorKind::Branch { condition: is_error, then_block: error_dispatch, else_block: normal_dispatch }, a), normal_dispatch);
                                    let (s6, r6) = if condition.ty == TypeId(1) {
                                        (spec_terminate(s5, TerminatorKind::Jump(then_block), a), Ok(()))
                                    } else {
                                        let (t1, q1) = spec_allocate(s5, TypeId(2), a);
                                        match q1 {
                                            Err(x) => (t1, Err(x)),
                                            Ok(truthy) => (spec_terminate(spec_emit(t1, OpModel::Plain(InstructionKind::IsTruthy { dst: truthy, value: c }), a), TerminatorKind::Branch { condition: truthy, then_block, else_block }, a), Ok(())),
                                        }
                                    };
                                    match r6 {
                                        Err(x) => (s6, Err(x)),
                                        Ok(_) => {
                                            let (s8, r8) = spec_lower_stmts(env, spec_switch(s6, then_block), body@);
                                            match r8 {
                                                Err(x) => (s8, Err(x)),
                                                Ok(_) => {
                                                    let (s10, r10) = spec_lower_opt_stmts(env, spec_switch(spec_fall_to(s8, join, a), else_block), else_body);
                                                    match r10 {
                                                        Err(x) => (s10, Err(x)),
                                                        Ok(_) => {
                                                            let (s12, r12) = spec_dispatch(env, spec_switch(spec_fall_to(s10, join, a), error_dispatch), error_clauses@, c, join, a);
                                                            match r12 {
                                                                Err(x) => (s12, Err(x)),
                                                                Ok(_) => {
                                                                    let s13 = if is_terminated(s12) { s12 } else { spec_terminate(s12, TerminatorKind::Throw(c), a) };
                                                                    (spec_switch(s13, join), Ok(()))
                                                                },
                                                            }
                                                        },
                                                    }
                                                },
                                            }
                                        },
                                    }
                                },
                            }
                        },
                    }
                },
            }
        },
        _ => (s, Ok(())),
    }
}

/// The error clauses in order, until a catch-all: the result tells whether one was reached.
pub open spec fn spec_dispatch(env: LowerEnv, s: BuildModel, cs: Seq<HirErrorClause>, c: SlotId, join: BlockId, a: SourceAnchor) -> (BuildModel, Result<bool, LowerErrorModel>)
    decreases cs, 1int,
{
    if cs.len() == 0 {
        (s, Ok(false))
    } else {
        let (s1, r1) = spec_dispatch(env, s, cs.drop_last(), c, join, a);
        match r1 {
            Err(x) => (s1, Err(x)),
            Ok(true) => (s1, Ok(true)),
            Ok(false) => spec_clause(env, s1, cs.last(), c, join, a),
        }
    }
}

/// One error clause: a test of the error (none for a catch-all) that leads to the
/// clause's block; the dispatch continues where the test fails.
pub open spec fn spec_clause(env: LowerEnv, s: BuildModel, clause: HirErrorClause, c: SlotId, join: BlockId, a: SourceAnchor) -> (BuildModel, Result<bool, LowerErrorModel>)
    decreases clause, 0int,
{
    let (s1, r1) = spec_new_block(s, a);
    match r1 {
        Err(x) => (s1, Err(x)),
        Ok(clause_block) => {
            let (s2, r2) = match clause.error {
                Some(error) => {
                    let (t1, q1) = spec_new_block(s1, a);
                    match q1 {
                        Err(x) => (t1, Err(x)),
                        Ok(next) => {
                            let (t2, q2) = spec_allocate(t1, TypeId(2), a);
                            match q2 {
                                Err(x) => (t2, Err(x)),
                                Ok(matches) => {
                                    let t3 = spec_emit(t2, OpModel::Plain(InstructionKind::ErrorMatches { dst: matches, value: c, error }), a);
                                    (spec_switch(spec_terminate(t3, TerminatorKind::Branch { condition: matches, then_block: clause_block, else_block: next }, a), next), Ok(()))
                                },
                            }
                        },
                    }
                },
                None => (spec_terminate(s1, TerminatorKind::Jump(clause_block), a), Ok(())),
            };
            match r2 {
                Err(x) => (s2, Err(x)),
                Ok(_) => {
                    let (s4, r4) = spec_lower_stmts(env, spec_switch(s2, clause_block), clause.body@);
                    match r4 {
                        Err(x) => (s4, Err(x)),
                        Ok(_) => (spec_switch(spec_fall_to(s4, join, a), BlockId(s2.current as u32)), Ok(clause.error is None)),
                    }
                },
            }
        },
    }
}


pub open spec fn res_unit(r: Result<(), LowerError>) -> Result<(), LowerErrorModel> {
    match r {
        Ok(_) => Ok(()),
        Err(e) => Err(e@),
    }
}

proof fn lemma_stmts_stop(env: LowerEnv, s: BuildModel, sts: Seq<HirStmt>, k: int)
    requires
        0 <= k <= sts.len(),
        spec_lower_stmts(env, s, sts.subrange(0, k)).1 is Err || is_terminated(spec_lower_stmts(env, s, sts.subrange(0, k)).0),
    ensures
        spec_lower_stmts(env, s, sts) == spec_lower_stmts(env, s, sts.subrange(0, k)),
    decreases sts.len() - k,
{
    if k < sts.len() {
        assert(sts.subrange(0, k + 1).drop_last() =~= sts.subrange(0, k));
        assert(spec_lower_stmts(env, s, sts.subrange(0, k + 1)) == spec_lower_stmts(env, s, sts.subrange(0, k)));
        lemma_stmts_stop(env, s, sts, k + 1);
    } else {
        assert(sts.subrange(0, k) =~= sts);
    }
}

proof fn lemma_dispatch_stop(env: LowerEnv, s: BuildModel, cs: Seq<HirErrorClause>, c: SlotId, join: BlockId, a: SourceAnchor, k: int)
    requires
        0 <= k <= cs.len(),
        spec_dispatch(env, s, cs.subrange(0, k), c, join, a).1 != Ok::<bool, LowerErrorModel>(false),
    ensures
        spec_dispatch(env, s, cs, c, join, a) == spec_dispatch(env, s, cs.subrange(0, k), c, join, a),
    decreases cs.len() - k,
{
    if k < cs.len() {
        assert(cs.subrange(0, k + 1).drop_last() =~= cs.subrange(0, k));
        lemma_dispatch_stop(env, s, cs, c, join, a, k + 1);
    } else {
        assert(cs.subrange(0, k) =~= cs);
    }
}

fn field_path_exec(e: &HirExpr) -> (r: Option<(LocalId, TypeId, Vec<FieldId>)>)
    ensures
        match r {
            Some((local, ty, fields)) => field_path(*e) == Some((local, ty, fields@)),
            None => field_path(*e) is None,
        },
    decreases *e,
{
    match &e.kind {
        HirExprKind::FieldAccess { target, field } => match field_path_exec(target) {
            Some((local, ty, fields)) => {
                let mut fields = fields;
                fields.push(*field);
                Some((local, ty, fields))
            },
            None => None,
        },
        HirExprKind::Local(local) => {
            let fields: Vec<FieldId> = Vec::new();
            proof {
                assert(fields@ =~= Seq::<FieldId>::empty());
            }
            Some((*local, e.ty, fields))
        },
        _ => None,
    }
}

fn item_type_exec(types: &TypeTable, ty: TypeId) -> (t: TypeId)
    ensures
        t == item_type(types@, ty),
{
    match types.get(ty) {
        Some(crate::hir::SemType::Range) => TypeId(3),
        Some(crate::hir::SemType::List(inner)) => *inner,
        Some(crate::hir::SemType::Str) => TypeId(4),
        _ => TypeId(0),
    }
}


proof fn lemma_new_blocks_err(s: BuildModel, k: nat, n: nat, a: SourceAnchor)
    requires
        k <= n,
        spec_new_blocks(s, k, a).1 is Err,
    ensures
        spec_new_blocks(s, n, a) == spec_new_blocks(s, k, a),
    decreases n - k,
{
    if k < n {
        lemma_new_blocks_err(s, k, (n - 1) as nat, a);
    }
}


/// The value of a lowered function, with its lists as sequences.
pub struct FnModel {
    pub id: FunctionId,
    pub name: Seq<char>,
    pub params: Seq<TypeId>,
    pub return_type: TypeId,
    pub effects: Effects,
    pub slots: Seq<TypeId>,
    pub parameter_count: u32,
    pub blocks: Seq<(Seq<(OpModel, SourceAnchor)>, Terminator)>,
}

pub open spec fn block_model(b: BasicBlock) -> (Seq<(OpModel, SourceAnchor)>, Terminator) {
    (b.instructions@.map_values(|i: Instruction| (op_model(i.kind), i.anchor)), b.terminator)
}

pub open spec fn fn_model(f: EirFunction) -> FnModel {
    FnModel {
        id: f.id,
        name: f.name@,
        params: f.signature.params@,
        return_type: f.signature.return_type,
        effects: f.signature.effects,
        slots: f.slots@,
        parameter_count: f.parameter_count,
        blocks: f.blocks@.map_values(|b: BasicBlock| block_model(b)),
    }
}

/// A fresh function: one empty entry block, no slots, and the program's constant pool.
pub open spec fn initial_model(constants: Seq<ConstModel>) -> BuildModel {
    BuildModel {
        slots: Seq::empty(),
        locals: Seq::empty(),
        parameter_count: 0,
        blocks: seq![DraftModel { code: Seq::empty(), terminator: None }],
        current: 0,
        loops: Seq::empty(),
        constants,
    }
}

/// Declaring a parameter: a slot of its type, bound to its local.
pub open spec fn spec_declare(s: BuildModel, p: HirParam) -> (BuildModel, Result<(), LowerErrorModel>) {
    let (s1, r1) = spec_allocate(s, p.ty, p.anchor);
    match r1 {
        Err(x) => (s1, Err(x)),
        Ok(slot) => {
            let s2 = spec_bind(s1, p.local, slot);
            if s2.parameter_count < u32::MAX {
                (BuildModel { parameter_count: (s2.parameter_count + 1) as u32, ..s2 }, Ok(()))
            } else {
                (s2, Err(invalid(p.anchor, "parameter count exceeds u32"@)))
            }
        },
    }
}

pub open spec fn spec_declare_params(s: BuildModel, ps: Seq<HirParam>) -> (BuildModel, Result<(), LowerErrorModel>)
    decreases ps.len(),
{
    if ps.len() == 0 {
        (s, Ok(()))
    } else {
        let (s1, r1) = spec_declare_params(s, ps.drop_last());
        match r1 {
            Err(x) => (s1, Err(x)),
            Ok(_) => spec_declare(s1, ps.last()),
        }
    }
}

/// A block as finished: its terminator, or `Unreachable` where it never got one.
pub open spec fn finished_block(d: DraftModel, end: SourceAnchor) -> (Seq<(OpModel, SourceAnchor)>, Terminator) {
    (d.code, match d.terminator {
        Some(t) => t,
        None => Terminator { kind: TerminatorKind::Unreachable, anchor: end },
    })
}

/// Finishing a function: a body that can run off its end returns nothing if the
/// function returns `void`, and is an error otherwise.
pub open spec fn spec_finish(s: BuildModel, id: FunctionId, name: Seq<char>, params: Seq<TypeId>, return_type: TypeId, effects: Effects, anchor: SourceAnchor, end: SourceAnchor) -> Result<(FnModel, Seq<ConstModel>), LowerErrorModel> {
    if !is_terminated(s) && return_type != TypeId(1) {
        Err(invalid(anchor, "function "@ + name + " can reach its end without returning"@))
    } else {
        let s1 = if is_terminated(s) { s } else { spec_terminate(s, TerminatorKind::Return(None), end) };
        Ok((
            FnModel {
                id,
                name,
                params,
                return_type,
                effects,
                slots: s1.slots,
                parameter_count: s1.parameter_count,
                blocks: s1.blocks.map_values(|d: DraftModel| finished_block(d, end)),
            },
            s1.constants,
        ))
    }
}

pub open spec fn module_env(module: HirModule, globals: Seq<((ModuleId, LocalId), GlobalId)>, types: Seq<SemTypeModel>) -> LowerEnv {
    LowerEnv { module: module.id, globals, types }
}

/// Lowering a function: its parameters become its first slots, then its body.
pub open spec fn spec_lower_function(module: HirModule, f: HirFunction, globals: Seq<((ModuleId, LocalId), GlobalId)>, types: Seq<SemTypeModel>, constants: Seq<ConstModel>) -> Result<(FnModel, Seq<ConstModel>), LowerErrorModel> {
    let (s1, r1) = spec_declare_params(initial_model(constants), f.params@);
    match r1 {
        Err(x) => Err(x),
        Ok(_) => {
            let (s2, r2) = spec_lower_stmts(module_env(module, globals, types), s1, f.body@);
            match r2 {
                Err(x) => Err(x),
                Ok(_) => spec_finish(s2, f.id, f.name@, f.signature.params@, f.signature.return_type, f.signature.effects, f.anchor, f.anchor),
            }
        },
    }
}

/// Where a module without statements or functions is reported: its own source, at offset zero.
pub open spec fn fallback_module_anchor(m: HirModule) -> SourceAnchor {
    if m.functions@.len() > 0 {
        m.functions@[0].anchor
    } else {
        SourceAnchor { source: SourceId(m.id.0), start: 0, end: 0 }
    }
}

pub open spec fn initializer_anchor(m: HirModule) -> SourceAnchor {
    if m.statements@.len() > 0 { m.statements@[0].anchor } else { fallback_module_anchor(m) }
}

/// The effects an initializer may have: all of them.
pub open spec fn initializer_effects() -> Effects {
    Effects(62)
}

/// A module's initializer: its top-level statements, as a `void` function named `<module>::$init`.
pub open spec fn spec_lower_initializer(module: HirModule, id: FunctionId, globals: Seq<((ModuleId, LocalId), GlobalId)>, types: Seq<SemTypeModel>, constants: Seq<ConstModel>) -> Result<(FnModel, Seq<ConstModel>), LowerErrorModel> {
    let a = initializer_anchor(module);
    let (s1, r1) = spec_lower_stmts(module_env(module, globals, types), initial_model(constants), module.statements@);
    match r1 {
        Err(x) => Err(x),
        Ok(_) => spec_finish(s1, id, module.name@ + "::$init"@, Seq::empty(), TypeId(1), initializer_effects(), a, a),
    }
}

/// The signature of an initializer.
pub open spec fn initializer_signature(sig: Signature) -> bool {
    sig.params@.len() == 0 && sig.return_type == TypeId(1) && sig.effects == initializer_effects()
}


// ---------------------------------------------------------------------------
// The whole program

/// A top-level statement that introduces or assigns a module-level local, with its type.
pub open spec fn global_candidate(st: HirStmt) -> Option<(LocalId, TypeId)> {
    match st.kind {
        HirStmtKind::VarDecl { local, value } => Some((local, value.ty)),
        HirStmtKind::Assign { target, value } => match target.kind {
            HirExprKind::Local(local) => Some((local, value.ty)),
            _ => None,
        },
        _ => None,
    }
}

/// The globals found so far: which module-level local each is, and its type.
pub struct GlobalsModel {
    pub ids: Seq<((ModuleId, LocalId), GlobalId)>,
    pub types: Seq<TypeId>,
}

pub open spec fn spec_global_step(module: ModuleId, st: HirStmt, g: GlobalsModel) -> Result<GlobalsModel, LowerErrorModel> {
    match global_candidate(st) {
        Some((local, ty)) => if global_of(g.ids, module, local) is None {
            if g.types.len() <= u32::MAX {
                Ok(GlobalsModel { ids: g.ids.push(((module, local), GlobalId(g.types.len() as u32))), types: g.types.push(ty) })
            } else {
                Err(invalid(st.anchor, overflow_text("GlobalId"@, g.types.len())))
            }
        } else {
            Ok(g)
        },
        None => Ok(g),
    }
}

pub open spec fn spec_globals_stmts(module: ModuleId, sts: Seq<HirStmt>, g: GlobalsModel) -> Result<GlobalsModel, LowerErrorModel>
    decreases sts.len(),
{
    if sts.len() == 0 {
        Ok(g)
    } else {
        match spec_globals_stmts(module, sts.drop_last(), g) {
            Err(x) => Err(x),
            Ok(g1) => spec_global_step(module, sts.last(), g1),
        }
    }
}

/// Every module-level local, in module and statement order, gets a global slot.
pub open spec fn spec_globals(mods: Seq<HirModule>) -> Result<GlobalsModel, LowerErrorModel>
    decreases mods.len(),
{
    if mods.len() == 0 {
        Ok(GlobalsModel { ids: Seq::empty(), types: Seq::empty() })
    } else {
        match spec_globals(mods.drop_last()) {
            Err(x) => Err(x),
            Ok(g) => spec_globals_stmts(mods.last().id, mods.last().statements@, g),
        }
    }
}

/// The functions of all modules, as (module index, function index), in module order.
pub open spec fn fn_entries(mods: Seq<HirModule>) -> Seq<(int, int)>
    decreases mods.len(),
{
    if mods.len() == 0 {
        Seq::empty()
    } else {
        fn_entries(mods.drop_last()) + Seq::new(mods.last().functions@.len(), |k: int| ((mods.len() - 1) as int, k))
    }
}

pub open spec fn fn_keys(mods: Seq<HirModule>) -> Seq<u32> {
    fn_entries(mods).map_values(|e: (int, int)| mods[e.0].functions@[e.1].id.0)
}

/// The text of a semantic identifier overflow.
pub open spec fn semantic_overflow_text(kind: Seq<char>, value: nat) -> Seq<char> {
    kind + " value "@ + decimal(value) + " exceeds the u32 semantic ID range"@
}

pub open spec fn dense_text(expected: nat, found: nat) -> Seq<char> {
    "function IDs must be dense: expected f"@ + decimal(expected) + ", found f"@ + decimal(found)
}

/// Where a program-wide problem is reported: the first module's fallback, or offset zero of source zero.
pub open spec fn program_anchor(hir: HirProgram) -> SourceAnchor {
    if hir.modules@.len() > 0 {
        fallback_module_anchor(hir.modules@[0])
    } else {
        SourceAnchor { source: SourceId(0), start: 0, end: 0 }
    }
}

/// Lowering the first `k` functions in ID order; the `k`-th must have ID `k - 1`.
pub open spec fn spec_lower_functions(hir: HirProgram, gids: Seq<((ModuleId, LocalId), GlobalId)>, k: nat) -> Result<(Seq<FnModel>, Seq<ConstModel>), LowerErrorModel>
    decreases k,
{
    if k == 0 {
        Ok((Seq::empty(), Seq::empty()))
    } else {
        match spec_lower_functions(hir, gids, (k - 1) as nat) {
            Err(x) => Err(x),
            Ok((fs, cs)) => {
                let mods = hir.modules@;
                let e = fn_entries(mods)[stable_order(fn_keys(mods), fn_keys(mods).len())[k - 1]];
                let f = mods[e.0].functions@[e.1];
                if k - 1 > u32::MAX {
                    Err(invalid(program_anchor(hir), semantic_overflow_text("FunctionId"@, (k - 1) as nat)))
                } else if f.id.0 != k - 1 {
                    Err(invalid(f.anchor, dense_text((k - 1) as nat, f.id.0 as nat)))
                } else {
                    match spec_lower_function(mods[e.0], f, gids, hir.types@, cs) {
                        Err(x) => Err(x),
                        Ok((fm, cs2)) => Ok((fs.push(fm), cs2)),
                    }
                }
            },
        }
    }
}

/// Lowering the initializers of the first `k` modules after `nf` functions.
pub open spec fn spec_lower_inits(hir: HirProgram, gids: Seq<((ModuleId, LocalId), GlobalId)>, nf: nat, start: Seq<ConstModel>, k: nat) -> Result<(Seq<FnModel>, Seq<ConstModel>), LowerErrorModel>
    decreases k,
{
    if k == 0 {
        Ok((Seq::empty(), start))
    } else {
        match spec_lower_inits(hir, gids, nf, start, (k - 1) as nat) {
            Err(x) => Err(x),
            Ok((fs, cs)) => {
                let index = nf + k - 1;
                if index > u32::MAX {
                    Err(invalid(program_anchor(hir), semantic_overflow_text("FunctionId"@, index as nat)))
                } else {
                    match spec_lower_initializer(hir.modules@[k - 1], FunctionId(index as u32), gids, hir.types@, cs) {
                        Err(x) => Err(x),
                        Ok((fm, cs2)) => Ok((fs.push(fm), cs2)),
                    }
                }
            },
        }
    }
}

/// The modules a module imports, in statement order, leaving out unknown ones.
pub open spec fn import_targets(sts: Seq<HirStmt>, n: nat) -> Seq<int>
    decreases sts.len(),
{
    if sts.len() == 0 {
        Seq::empty()
    } else {
        let prev = import_targets(sts.drop_last(), n);
        match sts.last().kind {
            HirStmtKind::Import(m) => if (m.0 as int) < n { prev.push(m.0 as int) } else { prev },
            _ => prev,
        }
    }
}

pub open spec fn module_imports(mods: Seq<HirModule>) -> Seq<Seq<int>> {
    Seq::new(mods.len(), |m: int| import_targets(mods[m].statements@, mods.len()))
}

/// The value of a host function declaration.
pub struct HostModel {
    pub id: HostFunctionId,
    pub module: Seq<char>,
    pub name: Seq<char>,
    pub params: Seq<TypeId>,
    pub return_type: TypeId,
    pub effects: Effects,
    pub anchor: SourceAnchor,
}

pub open spec fn host_model(h: EirHostFunction) -> HostModel {
    HostModel {
        id: h.id,
        module: h.module@,
        name: h.name@,
        params: h.signature.params@,
        return_type: h.signature.return_type,
        effects: h.signature.effects,
        anchor: h.anchor,
    }
}

pub open spec fn host_entries(mods: Seq<HirModule>) -> Seq<(int, int)>
    decreases mods.len(),
{
    if mods.len() == 0 {
        Seq::empty()
    } else {
        host_entries(mods.drop_last()) + Seq::new(mods.last().host_functions@.len(), |k: int| ((mods.len() - 1) as int, k))
    }
}

pub open spec fn host_keys(mods: Seq<HirModule>) -> Seq<u32> {
    host_entries(mods).map_values(|e: (int, int)| mods[e.0].host_functions@[e.1].id.0)
}

pub open spec fn host_of(mods: Seq<HirModule>, e: (int, int)) -> HostModel {
    let h = mods[e.0].host_functions@[e.1];
    HostModel {
        id: h.id,
        module: mods[e.0].name@,
        name: h.name@,
        params: h.signature.params@,
        return_type: h.signature.return_type,
        effects: h.signature.effects,
        anchor: h.anchor,
    }
}

/// The host functions of all modules, ordered by ID; equal IDs keep module order.
pub open spec fn spec_hosts(mods: Seq<HirModule>) -> Seq<HostModel> {
    stable_order(host_keys(mods), host_keys(mods).len()).map_values(|i: int| host_of(mods, host_entries(mods)[i]))
}

/// The value of a struct layout.
pub struct StructModel {
    pub id: StructId,
    pub name: Seq<char>,
    pub fields: Seq<(FieldId, Seq<char>, TypeId)>,
}

pub open spec fn struct_model(s: EirStruct) -> StructModel {
    StructModel {
        id: s.id,
        name: s.name@,
        fields: s.fields@.map_values(|f: EirStructField| (f.id, f.name@, f.ty)),
    }
}

/// The name a symbol table gives an identifier; empty when it has none.
pub open spec fn symbol_name(names: Seq<String>, index: int) -> Seq<char> {
    if 0 <= index < names.len() { names[index]@ } else { Seq::empty() }
}

pub open spec fn struct_entries(mods: Seq<HirModule>) -> Seq<(int, int)>
    decreases mods.len(),
{
    if mods.len() == 0 {
        Seq::empty()
    } else {
        struct_entries(mods.drop_last()) + Seq::new(mods.last().structs@.len(), |k: int| ((mods.len() - 1) as int, k))
    }
}

pub open spec fn struct_keys(mods: Seq<HirModule>) -> Seq<u32> {
    struct_entries(mods).map_values(|e: (int, int)| mods[e.0].structs@[e.1].id.0)
}

pub open spec fn struct_of(hir: HirProgram, e: (int, int)) -> StructModel {
    let st = hir.modules@[e.0].structs@[e.1];
    StructModel {
        id: st.id,
        name: symbol_name(hir.symbols.structs@, st.id.0 as int),
        fields: st.fields@.map_values(|f: crate::hir::HirStructField| (f.id, symbol_name(hir.symbols.fields@, f.id.0 as int), f.ty)),
    }
}

/// The struct layouts of all modules, ordered by ID; names come from the symbol tables.
pub open spec fn spec_structs(hir: HirProgram) -> Seq<StructModel> {
    let mods = hir.modules@;
    stable_order(struct_keys(mods), struct_keys(mods).len()).map_values(|i: int| struct_of(hir, struct_entries(mods)[i]))
}

/// The value of a lowered program.
pub struct ProgramModel {
    pub types: Seq<SemTypeModel>,
    pub errors: Seq<Seq<char>>,
    pub globals: Seq<TypeId>,
    pub structs: Seq<StructModel>,
    pub host_functions: Seq<HostModel>,
    pub constants: Seq<ConstModel>,
    pub functions: Seq<FnModel>,
    pub module_initializers: Seq<FunctionId>,
}

pub open spec fn program_model(p: EirProgram) -> ProgramModel {
    ProgramModel {
        types: p.types@,
        errors: p.errors@.map_values(|e: String| e@),
        globals: p.globals@,
        structs: p.structs@.map_values(|s: EirStruct| struct_model(s)),
        host_functions: p.host_functions@.map_values(|h: EirHostFunction| host_model(h)),
        constants: consts_model(p.constants@),
        functions: p.functions@.map_values(|f: EirFunction| fn_model(f)),
        module_initializers: p.module_initializers@,
    }
}

pub open spec fn model_fields_before(structs: Seq<StructModel>, i: int) -> int
    decreases i,
{
    if i <= 0 { 0 } else { model_fields_before(structs, i - 1) + structs[i - 1].fields.len() }
}

/// Every table of the program fits the `u32` identifier range.
pub open spec fn model_fits(m: ProgramModel) -> bool {
    &&& m.types.len() <= u32::MAX + 1
    &&& m.structs.len() <= u32::MAX + 1
    &&& model_fields_before(m.structs, m.structs.len() as int) <= u32::MAX + 1
    &&& m.host_functions.len() <= u32::MAX + 1
    &&& m.functions.len() <= u32::MAX + 1
    &&& forall|i: int| 0 <= i < m.functions.len() ==> (#[trigger] m.functions[i]).blocks.len() <= u32::MAX + 1
        && m.functions[i].slots.len() <= u32::MAX + 1
}

/// Lowering a program, before it is verified: globals, then every function in ID
/// order, then one initializer per module, run in import order; the constant pool
/// is shared and grows in that order.
pub open spec fn spec_lower_program(hir: HirProgram) -> Result<ProgramModel, LowerErrorModel> {
    let mods = hir.modules@;
    match spec_globals(mods) {
        Err(x) => Err(x),
        Ok(g) => {
            let nf = fn_entries(mods).len();
            match spec_lower_functions(hir, g.ids, nf) {
                Err(x) => Err(x),
                Ok((fs, cs)) => match spec_lower_inits(hir, g.ids, nf, cs, mods.len()) {
                    Err(x) => Err(x),
                    Ok((inits, cs2)) => {
                        let m = ProgramModel {
                            types: hir.types@,
                            errors: hir.symbols.errors@.map_values(|e: String| e@),
                            globals: g.types,
                            structs: spec_structs(hir),
                            host_functions: spec_hosts(mods),
                            constants: cs2,
                            functions: fs + inits,
                            module_initializers: init_order(module_imports(mods), mods.len()).map_values(|j: int| FunctionId((nf + j) as u32)),
                        };
                        if model_fits(m) {
                            Ok(m)
                        } else {
                            Err(invalid(program_anchor(hir), "program exceeds the u32 EIR ID range"@))
                        }
                    },
                },
            }
        },
    }
}


/// Interning is idempotent: interning a constant a second time gives the same ID and
/// leaves the pool as the first call left it, so equal constants share one entry.
pub proof fn lemma_intern_twice(s: BuildModel, c: ConstModel, anchor: SourceAnchor)
    requires
        spec_intern(s, c, anchor).1 is Ok,
    ensures
        spec_intern(spec_intern(s, c, anchor).0, c, anchor) == spec_intern(s, c, anchor),
{
    reveal(spec_intern);
    if first_const(s.constants, c) is None {
        let t = s.constants.push(c);
        assert(t.drop_last() =~= s.constants);
        assert(first_const(t, c) == Some(s.constants.len() as int));
    }
}

proof fn lemma_first_const_prefix(cs: Seq<ConstModel>, c: ConstModel, i: int)
    requires
        0 <= i <= cs.len(),
        first_const(cs.subrange(0, i), c) is Some,
    ensures
        first_const(cs, c) == first_const(cs.subrange(0, i), c),
    decreases cs.len() - i,
{
    if i < cs.len() {
        assert(cs.subrange(0, i + 1).drop_last() =~= cs.subrange(0, i));
        lemma_first_const_prefix(cs, c, i + 1);
    } else {
        assert(cs.subrange(0, i) =~= cs);
    }
}

proof fn lemma_first_const_bound(cs: Seq<ConstModel>, c: ConstModel)
    ensures
        first_const(cs, c) matches Some(k) ==> 0 <= k < cs.len() && cs[k] == c,
    decreases cs.len(),
{
    if cs.len() > 0 {
        lemma_first_const_bound(cs.drop_last(), c);
    }
}

fn const_eq(a: &Constant, b: &Constant) -> (r: bool)
    ensures
        r == (const_model(*a) == const_model(*b)),
{
    match (a, b) {
        (Constant::Bool(x), Constant::Bool(y)) => *x == *y,
        (Constant::Num(x, u), Constant::Num(y, v)) => crate::text::str_eq(x.as_str(), y.as_str()) && crate::text::str_eq(u.as_str(), v.as_str()),
        (Constant::Str(x), Constant::Str(y)) => crate::text::str_eq(x.as_str(), y.as_str()),
        _ => false,
    }
}

struct DraftBlock {
    instructions: Vec<Instruction>,
    terminator: Option<Terminator>,
}

spec fn draft_model(b: DraftBlock) -> DraftModel {
    DraftModel {
        code: b.instructions@.map_values(|i: Instruction| (op_model(i.kind), i.anchor)),
        terminator: b.terminator,
    }
}

pub open spec fn consts_model(cs: Seq<Constant>) -> Seq<ConstModel> {
    cs.map_values(|c: Constant| const_model(c))
}

/// A function under construction: its slots, local bindings and blocks, the block
/// that instructions go to, the loops being lowered and the shared constant pool.
struct FunctionBuilder {
    module: ModuleId,
    id: FunctionId,
    name: String,
    signature: crate::hir::Signature,
    anchor: SourceAnchor,
    constants: Vec<Constant>,
    slots: Vec<TypeId>,
    locals: Vec<(LocalId, SlotId)>,
    parameter_count: u32,
    blocks: Vec<DraftBlock>,
    current: BlockId,
    loops: Vec<(BlockId, BlockId)>,
}

/// The parts of a builder that lowering never changes, and the tables that only grow.
spec fn same_header(a: FunctionBuilder, b: FunctionBuilder) -> bool {
    &&& a.blocks@.len() <= b.blocks@.len()
    &&& a.loops@.len() <= b.loops@.len()
    &&& a.module == b.module
    &&& a.id == b.id
    &&& a.name == b.name
    &&& a.signature == b.signature
    &&& a.anchor == b.anchor
}

spec fn env_of(module: ModuleId, globals: Seq<((ModuleId, LocalId), GlobalId)>, types: crate::hir::TypeTable) -> LowerEnv {
    LowerEnv { module, globals, types: types@ }
}

impl FunctionBuilder {
    spec fn model(&self) -> BuildModel {
        BuildModel {
            slots: self.slots@,
            locals: self.locals@,
            parameter_count: self.parameter_count,
            blocks: self.blocks@.map_values(|b: DraftBlock| draft_model(b)),
            current: self.current.0 as int,
            loops: self.loops@,
            constants: consts_model(self.constants@),
        }
    }

    spec fn wf(&self) -> bool {
        &&& (self.current.0 as int) < self.blocks@.len() <= u32::MAX + 1
        &&& self.slots@.len() <= u32::MAX + 1
    }

    fn emit(&mut self, kind: InstructionKind, anchor: SourceAnchor)
        requires
            old(self).wf(),
        ensures
            final(self).wf(),
            final(self).model() == spec_emit(old(self).model(), op_model(kind), anchor),
            same_header(*old(self), *final(self)),
    {
        reveal(spec_emit);
        let i = self.current.0 as usize;
        let ghost k = kind;
        self.blocks[i].instructions.push(Instruction { kind, anchor });
        proof {
            let m = old(self).model();
            let b = m.blocks[m.current];
            assert(self.model().blocks[i as int].code =~= b.code.push((op_model(k), anchor)));
            assert(self.model().blocks =~= m.blocks.update(m.current, DraftModel { code: b.code.push((op_model(k), anchor)), terminator: b.terminator }));
        }
    }

    fn terminate(&mut self, kind: TerminatorKind, anchor: SourceAnchor)
        requires
            old(self).wf(),
        ensures
            final(self).wf(),
            final(self).model() == spec_terminate(old(self).model(), kind, anchor),
            same_header(*old(self), *final(self)),
    {
        reveal(spec_terminate);
        let i = self.current.0 as usize;
        self.blocks[i].terminator = Some(Terminator { kind, anchor });
        proof {
            let m = old(self).model();
            let b = m.blocks[m.current];
            assert(self.model().blocks =~= m.blocks.update(m.current, DraftModel { code: b.code, terminator: Some(Terminator { kind, anchor }) }));
        }
    }

    fn is_terminated(&self) -> (r: bool)
        requires
            self.wf(),
        ensures
            r == is_terminated(self.model()),
    {
        let i = self.current.0 as usize;
        self.blocks[i].terminator.is_some()
    }

    fn allocate_slot(&mut self, ty: TypeId, anchor: SourceAnchor) -> (r: Result<SlotId, LowerError>)
        requires
            old(self).wf(),
        ensures
            final(self).wf(),
            (final(self).model(), res_view(r)) == spec_allocate(old(self).model(), ty, anchor),
            same_header(*old(self), *final(self)),
    {
        reveal(spec_allocate);
        match SlotId::try_from_index(self.slots.len()) {
            Ok(slot) => {
                self.slots.push(ty);
                proof {
                    assert(self.model().slots =~= old(self).model().slots.push(ty));
                }
                Ok(slot)
            },
            Err(overflow) => Err(overflow_error(anchor, overflow)),
        }
    }

    fn new_block(&mut self, anchor: SourceAnchor) -> (r: Result<BlockId, LowerError>)
        requires
            old(self).wf(),
        ensures
            final(self).wf(),
            (final(self).model(), res_view(r)) == spec_new_block(old(self).model(), anchor),
            r matches Ok(b) ==> b.0 < final(self).blocks@.len(),
            same_header(*old(self), *final(self)),
    {
        reveal(spec_new_block);
        match BlockId::try_from_index(self.blocks.len()) {
            Ok(block) => {
                let fresh = DraftBlock { instructions: Vec::new(), terminator: None };
                proof {
                    assert(draft_model(fresh).code =~= Seq::<(OpModel, SourceAnchor)>::empty());
                }
                self.blocks.push(fresh);
                proof {
                    let m = old(self).model();
                    assert(self.model().blocks =~= m.blocks.push(DraftModel { code: Seq::empty(), terminator: None }));
                }
                Ok(block)
            },
            Err(overflow) => Err(overflow_error(anchor, overflow)),
        }
    }

    fn switch_to(&mut self, block: BlockId)
        requires
            old(self).wf(),
            (block.0 as int) < old(self).blocks@.len(),
        ensures
            final(self).wf(),
            final(self).model() == spec_switch(old(self).model(), block),
            same_header(*old(self), *final(self)),
    {
        reveal(spec_switch);
        self.current = block;
    }

    #[verifier::loop_isolation(false)]
    fn intern_constant(&mut self, value: Constant, anchor: SourceAnchor) -> (r: Result<ConstId, LowerError>)
        requires
            old(self).wf(),
        ensures
            final(self).wf(),
            (final(self).model(), res_view(r)) == spec_intern(old(self).model(), const_model(value), anchor),
            same_header(*old(self), *final(self)),
    {
        reveal(spec_intern);
        let ghost c = const_model(value);
        let ghost cs = old(self).model().constants;
        let mut i: usize = 0;
        while i < self.constants.len()
            invariant
                i <= self.constants@.len(),
                cs == consts_model(self.constants@),
                first_const(cs.subrange(0, i as int), c) is None,
            decreases self.constants.len() - i,
        {
            proof {
                assert(cs.subrange(0, i + 1).drop_last() =~= cs.subrange(0, i as int));
            }
            if const_eq(&self.constants[i], &value) {
                proof {
                    assert(cs[i as int] == const_model(self.constants@[i as int]));
                    assert(cs.subrange(0, i + 1).last() == c);
                    assert(first_const(cs.subrange(0, i + 1), c) == Some(i as int));
                    lemma_first_const_prefix(cs, c, i + 1);
                }
                return match ConstId::try_from_index(i) {
                    Ok(id) => Ok(id),
                    Err(overflow) => Err(overflow_error(anchor, overflow)),
                };
            }
            i += 1;
        }
        proof {
            assert(cs.subrange(0, cs.len() as int) =~= cs);
        }
        match ConstId::try_from_index(self.constants.len()) {
            Ok(id) => {
                self.constants.push(value);
                proof {
                    assert(consts_model(self.constants@) =~= cs.push(c));
                }
                Ok(id)
            },
            Err(overflow) => Err(overflow_error(anchor, overflow)),
        }
    }

    fn local_slot(&self, local: LocalId) -> (r: Option<SlotId>)
        ensures
            r == local_slot(self.locals@, local),
    {
        let mut i: usize = self.locals.len();
        proof {
            assert(self.locals@.subrange(0, i as int) =~= self.locals@);
        }
        while i > 0
            invariant
                i <= self.locals@.len(),
                local_slot(self.locals@, local) == local_slot(self.locals@.subrange(0, i as int), local),
            decreases i,
        {
            proof {
                assert(self.locals@.subrange(0, i as int).drop_last() =~= self.locals@.subrange(0, i - 1));
            }
            if self.locals[i - 1].0 == local {
                return Some(self.locals[i - 1].1);
            }
            i -= 1;
        }
        proof {
            assert(self.locals@.subrange(0, 0) =~= Seq::<(LocalId, SlotId)>::empty());
        }
        None
    }

    fn bind_local(&mut self, local: LocalId, slot: SlotId)
        requires
            old(self).wf(),
        ensures
            final(self).wf(),
            final(self).model() == spec_bind(old(self).model(), local, slot),
            same_header(*old(self), *final(self)),
    {
        reveal(spec_bind);
        self.locals.push((local, slot));
        proof {
            assert(self.model().locals =~= old(self).model().locals.push((local, slot)));
        }
    }


    fn produce(&mut self, p: Produce, ty: TypeId, anchor: SourceAnchor) -> (r: Result<Option<SlotId>, LowerError>)
        requires
            old(self).wf(),
        ensures
            final(self).wf(),
            (final(self).model(), res_view(r)) == spec_produce(old(self).model(), p, ty, anchor),
            same_header(*old(self), *final(self)),
    {
        reveal(spec_produce);
        let dst = match self.allocate_slot(ty, anchor) {
            Ok(dst) => dst,
            Err(e) => return Err(e),
        };
        let kind = produce_kind_exec(p, dst);
        self.emit(kind, anchor);
        Ok(Some(dst))
    }

    fn lower_constant(&mut self, value: Constant, ty: TypeId, anchor: SourceAnchor) -> (r: Result<Option<SlotId>, LowerError>)
        requires
            old(self).wf(),
        ensures
            final(self).wf(),
            (final(self).model(), res_view(r)) == spec_lower_constant(old(self).model(), const_model(value), ty, anchor),
            same_header(*old(self), *final(self)),
    {
        reveal(spec_lower_constant);
        let constant = match self.intern_constant(value, anchor) {
            Ok(c) => c,
            Err(e) => return Err(e),
        };
        let dst = match self.allocate_slot(ty, anchor) {
            Ok(dst) => dst,
            Err(e) => return Err(e),
        };
        self.emit(InstructionKind::Const { dst, constant }, anchor);
        Ok(Some(dst))
    }

    fn lower_move(&mut self, globals: &Vec<((ModuleId, LocalId), GlobalId)>, types: &TypeTable, local: LocalId, ty: TypeId, anchor: SourceAnchor) -> (r: Result<Option<SlotId>, LowerError>)
        requires
            old(self).wf(),
        ensures
            final(self).wf(),
            (final(self).model(), res_view(r)) == spec_lower_move(env_of(old(self).module, globals@, *types), old(self).model(), local, ty, anchor),
            same_header(*old(self), *final(self)),
    {
        reveal(spec_lower_move);
        let dst = match self.allocate_slot(ty, anchor) {
            Ok(dst) => dst,
            Err(e) => return Err(e),
        };
        if let Some(src) = self.local_slot(local) {
            self.emit(InstructionKind::Move { dst, src }, anchor);
        } else if let Some(global) = global_lookup(globals, self.module, local) {
            self.emit(InstructionKind::MoveGlobal { dst, global }, anchor);
        } else {
            return Err(unsupported_error(anchor, "unresolved move"));
        }
        Ok(Some(dst))
    }

    fn require_value(&mut self, globals: &Vec<((ModuleId, LocalId), GlobalId)>, types: &TypeTable, e: &HirExpr) -> (r: Result<SlotId, LowerError>)
        requires
            old(self).wf(),
        ensures
            final(self).wf(),
            (final(self).model(), res_view(r)) == spec_require(env_of(old(self).module, globals@, *types), old(self).model(), *e),
            same_header(*old(self), *final(self)),
        decreases *e, 1int,
    {
        match self.lower_expr(globals, types, e) {
            Err(x) => Err(x),
            Ok(None) => Err(invalid_error(e.anchor, "void expression used as a value")),
            Ok(Some(slot)) => Ok(slot),
        }
    }

    fn require_all(&mut self, globals: &Vec<((ModuleId, LocalId), GlobalId)>, types: &TypeTable, es: &Vec<HirExpr>) -> (r: Result<Vec<SlotId>, LowerError>)
        requires
            old(self).wf(),
        ensures
            final(self).wf(),
            (final(self).model(), res_seq(r)) == spec_require_all(env_of(old(self).module, globals@, *types), old(self).model(), es@),
            same_header(*old(self), *final(self)),
        decreases *es, 2int,
    {
        let ghost env = env_of(self.module, globals@, *types);
        let ghost s0 = self.model();
        let ghost h0 = *self;
        let mut out: Vec<SlotId> = Vec::new();
        let mut i: usize = 0;
        proof {
            assert(es@.subrange(0, 0) =~= Seq::<HirExpr>::empty());
        }
        while i < es.len()
            invariant
                i <= es@.len(),
                self.wf(),
                same_header(h0, *self),
                h0 == *old(self),
                s0 == old(self).model(),
                env == env_of(self.module, globals@, *types),
                spec_require_all(env, s0, es@.subrange(0, i as int)) == (self.model(), Ok::<Seq<SlotId>, LowerErrorModel>(out@)),
            decreases es.len() - i,
        {
            proof {
                assert(es@.subrange(0, i + 1).drop_last() =~= es@.subrange(0, i as int));
                assert(es@.subrange(0, i + 1).last() == es@[i as int]);
                assert(decreases_to!(*es => es@[i as int]));
            }
            match self.require_value(globals, types, &es[i]) {
                Ok(slot) => {
                    out.push(slot);
                },
                Err(x) => {
                    proof {
                        lemma_require_all_err(env, s0, es@, i + 1);
                    }
                    return Err(x);
                },
            }
            i += 1;
        }
        proof {
            assert(es@.subrange(0, es@.len() as int) =~= es@);
        }
        Ok(out)
    }

    fn require_pairs(&mut self, globals: &Vec<((ModuleId, LocalId), GlobalId)>, types: &TypeTable, ps: &Vec<HirMapPair>) -> (r: Result<Vec<(SlotId, SlotId)>, LowerError>)
        requires
            old(self).wf(),
        ensures
            final(self).wf(),
            (final(self).model(), res_seq(r)) == spec_require_pairs(env_of(old(self).module, globals@, *types), old(self).model(), ps@),
            same_header(*old(self), *final(self)),
        decreases *ps, 2int,
    {
        let ghost env = env_of(self.module, globals@, *types);
        let ghost s0 = self.model();
        let ghost h0 = *self;
        let mut out: Vec<(SlotId, SlotId)> = Vec::new();
        let mut i: usize = 0;
        proof {
            assert(ps@.subrange(0, 0) =~= Seq::<HirMapPair>::empty());
        }
        while i < ps.len()
            invariant
                i <= ps@.len(),
                self.wf(),
                same_header(h0, *self),
                h0 == *old(self),
                s0 == old(self).model(),
                env == env_of(self.module, globals@, *types),
                spec_require_pairs(env, s0, ps@.subrange(0, i as int)) == (self.model(), Ok::<Seq<(SlotId, SlotId)>, LowerErrorModel>(out@)),
            decreases ps.len() - i,
        {
            proof {
                assert(ps@.subrange(0, i + 1).drop_last() =~= ps@.subrange(0, i as int));
                assert(ps@.subrange(0, i + 1).last() == ps@[i as int]);
                assert(decreases_to!(*ps => ps@[i as int]));
            }
            let key = match self.require_value(globals, types, &ps[i].key) {
                Ok(slot) => slot,
                Err(x) => {
                    proof {
                        lemma_require_pairs_err(env, s0, ps@, i + 1);
                    }
                    return Err(x);
                },
            };
            let value = match self.require_value(globals, types, &ps[i].value) {
                Ok(slot) => slot,
                Err(x) => {
                    proof {
                        lemma_require_pairs_err(env, s0, ps@, i + 1);
                    }
                    return Err(x);
                },
            };
            out.push((key, value));
            i += 1;
        }
        proof {
            assert(ps@.subrange(0, ps@.len() as int) =~= ps@);
        }
        Ok(out)
    }

    fn require_fields(&mut self, globals: &Vec<((ModuleId, LocalId), GlobalId)>, types: &TypeTable, fs: &Vec<HirFieldInit>) -> (r: Result<Vec<(FieldId, SlotId)>, LowerError>)
        requires
            old(self).wf(),
        ensures
            final(self).wf(),
            (final(self).model(), res_seq(r)) == spec_require_fields(env_of(old(self).module, globals@, *types), old(self).model(), fs@),
            same_header(*old(self), *final(self)),
        decreases *fs, 2int,
    {
        let ghost env = env_of(self.module, globals@, *types);
        let ghost s0 = self.model();
        let ghost h0 = *self;
        let mut out: Vec<(FieldId, SlotId)> = Vec::new();
        let mut i: usize = 0;
        proof {
            assert(fs@.subrange(0, 0) =~= Seq::<HirFieldInit>::empty());
        }
        while i < fs.len()
            invariant
                i <= fs@.len(),
                self.wf(),
                same_header(h0, *self),
                h0 == *old(self),
                s0 == old(self).model(),
                env == env_of(self.module, globals@, *types),
                spec_require_fields(env, s0, fs@.subrange(0, i as int)) == (self.model(), Ok::<Seq<(FieldId, SlotId)>, LowerErrorModel>(out@)),
            decreases fs.len() - i,
        {
            proof {
                assert(fs@.subrange(0, i + 1).drop_last() =~= fs@.subrange(0, i as int));
                assert(fs@.subrange(0, i + 1).last() == fs@[i as int]);
                assert(decreases_to!(*fs => fs@[i as int]));
            }
            let value = match self.require_value(globals, types, &fs[i].value) {
                Ok(slot) => slot,
                Err(x) => {
                    proof {
                        lemma_require_fields_err(env, s0, fs@, i + 1);
                    }
                    return Err(x);
                },
            };
            out.push((fs[i].field, value));
            i += 1;
        }
        proof {
            assert(fs@.subrange(0, fs@.len() as int) =~= fs@);
        }
        Ok(out)
    }

    #[verifier::rlimit(60)]
    fn lower_expr(&mut self, globals: &Vec<((ModuleId, LocalId), GlobalId)>, types: &TypeTable, e: &HirExpr) -> (r: Result<Option<SlotId>, LowerError>)
        requires
            old(self).wf(),
        ensures
            final(self).wf(),
            (final(self).model(), res_view(r)) == spec_lower_expr(env_of(old(self).module, globals@, *types), old(self).model(), *e),
            same_header(*old(self), *final(self)),
        decreases *e, 0int,
    {
        match &e.kind {
            HirExprKind::Bool(v) => self.lower_constant(Constant::Bool(*v), e.ty, e.anchor),
            HirExprKind::Number(code, shown) => self.lower_constant(Constant::Num(code.clone(), shown.clone()), e.ty, e.anchor),
            HirExprKind::String(t) => self.lower_constant(Constant::Str(t.clone()), e.ty, e.anchor),
            HirExprKind::Local(local) => {
                match self.read_local(globals, types, *local, e.ty, e.anchor) {
                    Ok(slot) => Ok(Some(slot)),
                    Err(x) => Err(x),
                }
            },
            HirExprKind::Move(local) => self.lower_move(globals, types, *local, e.ty, e.anchor),
            HirExprKind::Binary { op, lhs, rhs } => {
                let l = match self.require_value(globals, types, lhs) {
                    Ok(x) => x,
                    Err(x) => return Err(x),
                };
                let r = match self.require_value(globals, types, rhs) {
                    Ok(x) => x,
                    Err(x) => return Err(x),
                };
                self.produce(Produce::Binary(*op, l, r), e.ty, e.anchor)
            },
            HirExprKind::Call { kind, args } => {
                let slots = match self.require_all(globals, types, args) {
                    Ok(x) => x,
                    Err(x) => return Err(x),
                };
                let dst = match self.allocate_slot(e.ty, e.anchor) {
                    Ok(x) => x,
                    Err(x) => return Err(x),
                };
                match kind {
                    HirCallKind::Direct(function) => {
                        self.emit(InstructionKind::CallDirect { dst: Some(dst), function: *function, args: slots }, e.anchor);
                    },
                    HirCallKind::Host(function) => {
                        self.emit(InstructionKind::CallHost { dst: Some(dst), function: *function, args: slots }, e.anchor);
                    },
                    HirCallKind::Indirect(callee) => {
                        let c = match self.require_value(globals, types, callee) {
                            Ok(x) => x,
                            Err(x) => return Err(x),
                        };
                        self.emit(InstructionKind::CallIndirect { dst: Some(dst), callee: c, args: slots }, e.anchor);
                    },
                }
                Ok(Some(dst))
            },
            HirExprKind::ListInit(items) => {
                let slots = match self.require_all(globals, types, items) {
                    Ok(x) => x,
                    Err(x) => return Err(x),
                };
                let dst = match self.allocate_slot(e.ty, e.anchor) {
                    Ok(x) => x,
                    Err(x) => return Err(x),
                };
                self.emit(InstructionKind::MakeList { dst, items: slots }, e.anchor);
                Ok(Some(dst))
            },
            HirExprKind::MapInit(entries) => {
                let pairs = match self.require_pairs(globals, types, entries) {
                    Ok(x) => x,
                    Err(x) => return Err(x),
                };
                let dst = match self.allocate_slot(e.ty, e.anchor) {
                    Ok(x) => x,
                    Err(x) => return Err(x),
                };
                self.emit(InstructionKind::MakeMap { dst, entries: pairs }, e.anchor);
                Ok(Some(dst))
            },
            HirExprKind::StructInit { structure, fields } => {
                let inits = match self.require_fields(globals, types, fields) {
                    Ok(x) => x,
                    Err(x) => return Err(x),
                };
                let dst = match self.allocate_slot(e.ty, e.anchor) {
                    Ok(x) => x,
                    Err(x) => return Err(x),
                };
                self.emit(InstructionKind::MakeStruct { dst, structure: *structure, fields: inits }, e.anchor);
                Ok(Some(dst))
            },
            HirExprKind::CollectionCall { op, args } => {
                let slots = match self.require_all(globals, types, args) {
                    Ok(x) => x,
                    Err(x) => return Err(x),
                };
                if slots.len() == collection_arity_exec(*op) {
                    let a = slots[0];
                    let b = if slots.len() > 1 { slots[1] } else { slots[0] };
                    let c = if slots.len() > 2 { slots[2] } else { slots[0] };
                    self.produce(Produce::Collection(*op, a, b, c), e.ty, e.anchor)
                } else {
                    Err(invalid_error(e.anchor, "collection call arity"))
                }
            },
            HirExprKind::FieldAccess { target, field } => {
                let t = match self.require_value(globals, types, target) {
                    Ok(x) => x,
                    Err(x) => return Err(x),
                };
                self.produce(Produce::GetField(t, *field), e.ty, e.anchor)
            },
            HirExprKind::At { collection, key } => {
                let c = match self.require_value(globals, types, collection) {
                    Ok(x) => x,
                    Err(x) => return Err(x),
                };
                let k = match self.require_value(globals, types, key) {
                    Ok(x) => x,
                    Err(x) => return Err(x),
                };
                self.produce(Produce::GetIndex(c, k), e.ty, e.anchor)
            },
            HirExprKind::Push { collection, value } => {
                let global = match &collection.kind {
                    HirExprKind::Local(local) => {
                        if self.local_slot(*local).is_none() {
                            global_lookup(globals, self.module, *local)
                        } else {
                            None
                        }
                    },
                    _ => None,
                };
                let c = match self.require_value(globals, types, collection) {
                    Ok(x) => x,
                    Err(x) => return Err(x),
                };
                let v = match self.require_value(globals, types, value) {
                    Ok(x) => x,
                    Err(x) => return Err(x),
                };
                self.emit(InstructionKind::Push { collection: c, value: v }, e.anchor);
                if let Some(g) = global {
                    self.emit(InstructionKind::StoreGlobal { global: g, src: c }, e.anchor);
                }
                Ok(None)
            },
            HirExprKind::Module(_) => Err(unsupported_error(e.anchor, "module value")),
            HirExprKind::Function(function) => self.produce(Produce::MakeFunction(*function), e.ty, e.anchor),
            HirExprKind::HostFunction(function) => self.produce(Produce::MakeHostFunction(*function), e.ty, e.anchor),
            HirExprKind::Error(error) => self.produce(Produce::MakeError(*error), e.ty, e.anchor),
            HirExprKind::AddressInit => self.produce(Produce::MakeAddress, e.ty, e.anchor),
            HirExprKind::PipeInit { capacity } => self.produce(Produce::MakePipe(*capacity), e.ty, e.anchor),
            HirExprKind::Take(channel) => {
                let c = match self.require_value(globals, types, channel) {
                    Ok(x) => x,
                    Err(x) => return Err(x),
                };
                self.produce(Produce::Take(c), e.ty, e.anchor)
            },
            HirExprKind::Len(collection) => {
                let c = match self.require_value(globals, types, collection) {
                    Ok(x) => x,
                    Err(x) => return Err(x),
                };
                self.produce(Produce::Len(c), e.ty, e.anchor)
            },
            HirExprKind::Ref(value) => {
                let v = match self.require_value(globals, types, value) {
                    Ok(x) => x,
                    Err(x) => return Err(x),
                };
                self.produce(Produce::MakeRef(v), e.ty, e.anchor)
            },
            HirExprKind::Deref(address) => {
                let a = match self.require_value(globals, types, address) {
                    Ok(x) => x,
                    Err(x) => return Err(x),
                };
                self.produce(Produce::Deref(a), e.ty, e.anchor)
            },
            HirExprKind::RunCall(call) => {
                match &call.kind {
                    HirExprKind::Call { kind: HirCallKind::Direct(function), args } => {
                        let slots = match self.require_all(globals, types, args) {
                            Ok(x) => x,
                            Err(x) => return Err(x),
                        };
                        self.emit(InstructionKind::Spawn { function: *function, args: slots }, e.anchor);
                        Ok(None)
                    },
                    _ => Err(unsupported_error(e.anchor, "non-direct run call")),
                }
            },
        }
    }

    fn fall_to(&mut self, target: BlockId, anchor: SourceAnchor)
        requires
            old(self).wf(),
        ensures
            final(self).wf(),
            final(self).model() == spec_fall_to(old(self).model(), target, anchor),
            same_header(*old(self), *final(self)),
    {
        reveal(spec_fall_to);
        if !self.is_terminated() {
            self.terminate(TerminatorKind::Jump(target), anchor);
        }
    }

    fn push_loop(&mut self, continue_to: BlockId, break_to: BlockId)
        requires
            old(self).wf(),
        ensures
            final(self).wf(),
            final(self).model() == spec_push_loop(old(self).model(), continue_to, break_to),
            final(self).loops@.len() == old(self).loops@.len() + 1,
            same_header(*old(self), *final(self)),
    {
        reveal(spec_push_loop);
        self.loops.push((continue_to, break_to));
        proof {
            assert(self.model().loops =~= old(self).model().loops.push((continue_to, break_to)));
        }
    }

    fn pop_loop(&mut self)
        requires
            old(self).wf(),
            old(self).loops@.len() > 0,
        ensures
            final(self).wf(),
            final(self).model() == spec_pop_loop(old(self).model()),
            final(self).loops@.len() == old(self).loops@.len() - 1,
            final(self).blocks@.len() == old(self).blocks@.len(),
            final(self).module == old(self).module && final(self).id == old(self).id && final(self).name == old(self).name
                && final(self).signature == old(self).signature && final(self).anchor == old(self).anchor,
    {
        reveal(spec_pop_loop);
        let _ = self.loops.pop();
        proof {
            assert(self.model().loops =~= old(self).model().loops.drop_last());
        }
    }

    fn new_blocks(&mut self, n: usize, anchor: SourceAnchor) -> (r: Result<Vec<BlockId>, LowerError>)
        requires
            old(self).wf(),
        ensures
            final(self).wf(),
            (final(self).model(), res_seq(r)) == spec_new_blocks(old(self).model(), n as nat, anchor),
            r matches Ok(v) ==> v@.len() == n && forall|i: int| 0 <= i < n ==> (#[trigger] v@[i]).0 < final(self).blocks@.len(),
            same_header(*old(self), *final(self)),
    {
        let ghost s0 = self.model();
        let ghost h0 = *self;
        let mut out: Vec<BlockId> = Vec::new();
        let mut k: usize = 0;
        proof {
            assert(out@ =~= Seq::<BlockId>::empty());
        }
        while k < n
            invariant
                k <= n,
                self.wf(),
                same_header(h0, *self),
                h0 == *old(self),
                s0 == old(self).model(),
                spec_new_blocks(s0, k as nat, anchor) == (self.model(), Ok::<Seq<BlockId>, LowerErrorModel>(out@)),
                out@.len() == k,
                forall|i: int| 0 <= i < k ==> (#[trigger] out@[i]).0 < self.blocks@.len(),
            decreases n - k,
        {
            match self.new_block(anchor) {
                Ok(b) => {
                    out.push(b);
                },
                Err(x) => {
                    proof {
                        lemma_new_blocks_err(s0, k as nat + 1, n as nat, anchor);
                    }
                    return Err(x);
                },
            }
            k += 1;
        }
        Ok(out)
    }

    fn lower_stmts(&mut self, globals: &Vec<((ModuleId, LocalId), GlobalId)>, types: &TypeTable, sts: &Vec<HirStmt>) -> (r: Result<(), LowerError>)
        requires
            old(self).wf(),
        ensures
            final(self).wf(),
            (final(self).model(), res_unit(r)) == spec_lower_stmts(env_of(old(self).module, globals@, *types), old(self).model(), sts@),
            same_header(*old(self), *final(self)),
        decreases *sts, 0int,
    {
        let ghost env = env_of(self.module, globals@, *types);
        let ghost s0 = self.model();
        let ghost h0 = *self;
        let mut i: usize = 0;
        proof {
            assert(sts@.subrange(0, 0) =~= Seq::<HirStmt>::empty());
        }
        while i < sts.len()
            invariant
                i <= sts@.len(),
                self.wf(),
                same_header(h0, *self),
                h0 == *old(self),
                s0 == old(self).model(),
                env == env_of(self.module, globals@, *types),
                spec_lower_stmts(env, s0, sts@.subrange(0, i as int)) == (self.model(), Ok::<(), LowerErrorModel>(())),
            decreases sts.len() - i,
        {
            if self.is_terminated() {
                proof {
                    lemma_stmts_stop(env, s0, sts@, i as int);
                }
                return Ok(());
            }
            proof {
                assert(sts@.subrange(0, i + 1).drop_last() =~= sts@.subrange(0, i as int));
                assert(sts@.subrange(0, i + 1).last() == sts@[i as int]);
                assert(decreases_to!(*sts => sts@[i as int]));
            }
            match self.lower_stmt(globals, types, &sts[i]) {
                Ok(_) => {},
                Err(x) => {
                    proof {
                        lemma_stmts_stop(env, s0, sts@, i + 1);
                    }
                    return Err(x);
                },
            }
            i += 1;
        }
        proof {
            assert(sts@.subrange(0, sts@.len() as int) =~= sts@);
        }
        Ok(())
    }

    fn lower_opt_stmts(&mut self, globals: &Vec<((ModuleId, LocalId), GlobalId)>, types: &TypeTable, sts: &Option<Vec<HirStmt>>) -> (r: Result<(), LowerError>)
        requires
            old(self).wf(),
        ensures
            final(self).wf(),
            (final(self).model(), res_unit(r)) == spec_lower_opt_stmts(env_of(old(self).module, globals@, *types), old(self).model(), *sts),
            same_header(*old(self), *final(self)),
        decreases *sts, 1int,
    {
        match sts {
            Some(v) => self.lower_stmts(globals, types, v),
            None => Ok(()),
        }
    }

    #[verifier::rlimit(80)]
    fn lower_stmt(&mut self, globals: &Vec<((ModuleId, LocalId), GlobalId)>, types: &TypeTable, st: &HirStmt) -> (r: Result<(), LowerError>)
        requires
            old(self).wf(),
        ensures
            final(self).wf(),
            (final(self).model(), res_unit(r)) == spec_lower_stmt(env_of(old(self).module, globals@, *types), old(self).model(), *st),
            same_header(*old(self), *final(self)),
        decreases *st, 2int,
    {
        match &st.kind {
            HirStmtKind::VarDecl { local, value } => {
                let v = match self.require_value(globals, types, value) {
                    Ok(x) => x,
                    Err(x) => return Err(x),
                };
                match global_lookup(globals, self.module, *local) {
                    Some(g) => {
                        self.emit(InstructionKind::StoreGlobal { global: g, src: v }, st.anchor);
                    },
                    None => {
                        let slot = match self.allocate_slot(value.ty, st.anchor) {
                            Ok(x) => x,
                            Err(x) => return Err(x),
                        };
                        self.bind_local(*local, slot);
                        self.emit(InstructionKind::Copy { dst: slot, src: v }, st.anchor);
                    },
                }
                Ok(())
            },
            HirStmtKind::Assign { target, value } => self.lower_assign(globals, types, st),
            HirStmtKind::On { error_clauses, .. } => {
                if error_clauses.len() == 0 {
                    self.lower_on(globals, types, st)
                } else {
                    self.lower_on_with_errors(globals, types, st)
                }
            },
            HirStmtKind::LoopOn { .. } => self.lower_loop_on(globals, types, st),
            HirStmtKind::LoopIter { .. } => self.lower_loop_iter(globals, types, st),
            HirStmtKind::Return(value) => {
                match value {
                    Some(v) => {
                        let slot = match self.require_value(globals, types, v) {
                            Ok(x) => x,
                            Err(x) => return Err(x),
                        };
                        self.terminate(TerminatorKind::Return(Some(slot)), st.anchor);
                    },
                    None => {
                        self.terminate(TerminatorKind::Return(None), st.anchor);
                    },
                }
                Ok(())
            },
            HirStmtKind::Break => {
                let n = self.loops.len();
                if n > 0 {
                    let exit = self.loops[n - 1].1;
                    self.terminate(TerminatorKind::Jump(exit), st.anchor);
                    Ok(())
                } else {
                    Err(invalid_error(st.anchor, "break outside loop"))
                }
            },
            HirStmtKind::Continue => {
                let n = self.loops.len();
                if n > 0 {
                    let cond = self.loops[n - 1].0;
                    self.terminate(TerminatorKind::Jump(cond), st.anchor);
                    Ok(())
                } else {
                    Err(invalid_error(st.anchor, "continue outside loop"))
                }
            },
            HirStmtKind::Expr(e) => {
                match self.lower_expr(globals, types, e) {
                    Ok(_) => Ok(()),
                    Err(x) => Err(x),
                }
            },
            HirStmtKind::Give { channel, value } => {
                let c = match self.require_value(globals, types, channel) {
                    Ok(x) => x,
                    Err(x) => return Err(x),
                };
                let v = match self.require_value(globals, types, value) {
                    Ok(x) => x,
                    Err(x) => return Err(x),
                };
                self.emit(InstructionKind::Give { channel: c, value: v }, st.anchor);
                Ok(())
            },
            HirStmtKind::Close(channel) => {
                let c = match self.require_value(globals, types, channel) {
                    Ok(x) => x,
                    Err(x) => return Err(x),
                };
                self.emit(InstructionKind::Close { channel: c }, st.anchor);
                Ok(())
            },
            HirStmtKind::Rest => {
                self.emit(InstructionKind::Rest, st.anchor);
                Ok(())
            },
            HirStmtKind::Check { condition, message } => {
                let c = match self.require_value(globals, types, condition) {
                    Ok(x) => x,
                    Err(x) => return Err(x),
                };
                match message {
                    Some(m) => {
                        let id = match self.intern_constant(Constant::Str(m.clone()), st.anchor) {
                            Ok(x) => x,
                            Err(x) => return Err(x),
                        };
                        self.emit(InstructionKind::Check { condition: c, message: Some(id) }, st.anchor);
                    },
                    None => {
                        self.emit(InstructionKind::Check { condition: c, message: None }, st.anchor);
                    },
                }
                Ok(())
            },
            _ => Ok(()),
        }
    }

    fn lower_assign(&mut self, globals: &Vec<((ModuleId, LocalId), GlobalId)>, types: &TypeTable, st: &HirStmt) -> (r: Result<(), LowerError>)
        requires
            old(self).wf(),
            st.kind is Assign,
        ensures
            final(self).wf(),
            (final(self).model(), res_unit(r)) == spec_lower_stmt(env_of(old(self).module, globals@, *types), old(self).model(), *st),
            same_header(*old(self), *final(self)),
        decreases *st, 1int,
    {
        match &st.kind {
            HirStmtKind::Assign { target, value } => {
                let v = match self.require_value(globals, types, value) {
                    Ok(x) => x,
                    Err(x) => return Err(x),
                };
                match &target.kind {
                    HirExprKind::Local(local) => {
                        if let Some(d) = self.local_slot(*local) {
                            self.emit(InstructionKind::Copy { dst: d, src: v }, st.anchor);
                            Ok(())
                        } else if let Some(g) = global_lookup(globals, self.module, *local) {
                            self.emit(InstructionKind::StoreGlobal { global: g, src: v }, st.anchor);
                            Ok(())
                        } else {
                            Err(unsupported_error(target.anchor, "unresolved assignment local"))
                        }
                    },
                    HirExprKind::Deref(address) => {
                        let a = match self.require_value(globals, types, address) {
                            Ok(x) => x,
                            Err(x) => return Err(x),
                        };
                        self.emit(InstructionKind::StoreDeref { address: a, src: v }, st.anchor);
                        Ok(())
                    },
                    _ => {
                        match field_path_exec(target) {
                            Some((local, root_type, fields)) => {
                                let bound = self.local_slot(local);
                                let t = match self.read_local(globals, types, local, root_type, target.anchor) {
                                    Ok(x) => x,
                                    Err(x) => return Err(x),
                                };
                                self.emit(InstructionKind::SetField { target: t, fields, src: v }, st.anchor);
                                if bound.is_none() {
                                    if let Some(g) = global_lookup(globals, self.module, local) {
                                        self.emit(InstructionKind::StoreGlobal { global: g, src: t }, st.anchor);
                                    }
                                }
                                Ok(())
                            },
                            None => Err(unsupported_error(st.anchor, "assignment target")),
                        }
                    },
                }
            },
            _ => Ok(()),
        }
    }

    #[verifier::rlimit(40)]
    fn lower_on(&mut self, globals: &Vec<((ModuleId, LocalId), GlobalId)>, types: &TypeTable, st: &HirStmt) -> (r: Result<(), LowerError>)
        requires
            old(self).wf(),
        ensures
            final(self).wf(),
            (final(self).model(), res_unit(r)) == spec_lower_on(env_of(old(self).module, globals@, *types), old(self).model(), *st),
            same_header(*old(self), *final(self)),
        decreases *st, 1int,
    {
        match &st.kind {
            HirStmtKind::On { condition, body, else_body, .. } => {
                let a = st.anchor;
                let c = match self.require_value(globals, types, condition) {
                    Ok(x) => x,
                    Err(x) => return Err(x),
                };
                let then_block = match self.new_block(a) {
                    Ok(x) => x,
                    Err(x) => return Err(x),
                };
                let else_block = match self.new_block(a) {
                    Ok(x) => x,
                    Err(x) => return Err(x),
                };
                let join = match self.new_block(a) {
                    Ok(x) => x,
                    Err(x) => return Err(x),
                };
                self.terminate(TerminatorKind::Branch { condition: c, then_block, else_block }, a);
                self.switch_to(then_block);
                match self.lower_stmts(globals, types, body) {
                    Ok(_) => {},
                    Err(x) => return Err(x),
                }
                let then_falls = !self.is_terminated();
                self.fall_to(join, a);
                self.switch_to(else_block);
                match self.lower_opt_stmts(globals, types, else_body) {
                    Ok(_) => {},
                    Err(x) => return Err(x),
                }
                let else_falls = !self.is_terminated();
                self.fall_to(join, a);
                self.switch_to(join);
                if !then_falls && !else_falls {
                    self.terminate(TerminatorKind::Unreachable, a);
                }
                Ok(())
            },
            _ => Ok(()),
        }
    }

    #[verifier::rlimit(40)]
    fn lower_loop_on(&mut self, globals: &Vec<((ModuleId, LocalId), GlobalId)>, types: &TypeTable, st: &HirStmt) -> (r: Result<(), LowerError>)
        requires
            old(self).wf(),
        ensures
            final(self).wf(),
            (final(self).model(), res_unit(r)) == spec_lower_loop_on(env_of(old(self).module, globals@, *types), old(self).model(), *st),
            same_header(*old(self), *final(self)),
        decreases *st, 1int,
    {
        match &st.kind {
            HirStmtKind::LoopOn { condition, body } => {
                let a = st.anchor;
                let cond_block = match self.new_block(a) {
                    Ok(x) => x,
                    Err(x) => return Err(x),
                };
                let body_block = match self.new_block(a) {
                    Ok(x) => x,
                    Err(x) => return Err(x),
                };
                let exit = match self.new_block(a) {
                    Ok(x) => x,
                    Err(x) => return Err(x),
                };
                self.terminate(TerminatorKind::Jump(cond_block), a);
                self.switch_to(cond_block);
                let c = match self.require_value(globals, types, condition) {
                    Ok(x) => x,
                    Err(x) => return Err(x),
                };
                self.terminate(TerminatorKind::Branch { condition: c, then_block: body_block, else_block: exit }, a);
                self.switch_to(body_block);
                self.push_loop(cond_block, exit);
                let result = self.lower_stmts(globals, types, body);
                self.pop_loop();
                match result {
                    Ok(_) => {},
                    Err(x) => return Err(x),
                }
                self.fall_to(cond_block, a);
                self.switch_to(exit);
                Ok(())
            },
            _ => Ok(()),
        }
    }

    fn lower_step(&mut self, globals: &Vec<((ModuleId, LocalId), GlobalId)>, types: &TypeTable, step: &Option<HirExpr>, a: SourceAnchor) -> (r: Result<SlotId, LowerError>)
        requires
            old(self).wf(),
        ensures
            final(self).wf(),
            (final(self).model(), res_view(r)) == spec_step(env_of(old(self).module, globals@, *types), old(self).model(), *step, a),
            same_header(*old(self), *final(self)),
    {
        match step {
            Some(e) => self.require_value(globals, types, e),
            None => {
                let constant = match self.intern_constant(Constant::Num("1.0".to_string(), "1".to_string()), a) {
                    Ok(x) => x,
                    Err(x) => return Err(x),
                };
                let slot = match self.allocate_slot(TypeId(3), a) {
                    Ok(x) => x,
                    Err(x) => return Err(x),
                };
                self.emit(InstructionKind::Const { dst: slot, constant }, a);
                Ok(slot)
            },
        }
    }

    #[verifier::rlimit(40)]
    fn lower_loop_iter(&mut self, globals: &Vec<((ModuleId, LocalId), GlobalId)>, types: &TypeTable, st: &HirStmt) -> (r: Result<(), LowerError>)
        requires
            old(self).wf(),
        ensures
            final(self).wf(),
            (final(self).model(), res_unit(r)) == spec_lower_loop_iter(env_of(old(self).module, globals@, *types), old(self).model(), *st),
            same_header(*old(self), *final(self)),
        decreases *st, 1int,
    {
        match &st.kind {
            HirStmtKind::LoopIter { iterator, iterable, step, .. } => {
                let a = st.anchor;
                let it = match self.require_value(globals, types, iterable) {
                    Ok(x) => x,
                    Err(x) => return Err(x),
                };
                let step_slot = match self.lower_step(globals, types, step, a) {
                    Ok(x) => x,
                    Err(x) => return Err(x),
                };
                let index = match self.allocate_slot(TypeId(3), a) {
                    Ok(x) => x,
                    Err(x) => return Err(x),
                };
                self.emit(InstructionKind::IterInit { dst: index, iterable: it }, a);
                let item = match self.allocate_slot(item_type_exec(types, iterable.ty), a) {
                    Ok(x) => x,
                    Err(x) => return Err(x),
                };
                self.bind_local(*iterator, item);
                let b = match self.new_blocks(6, a) {
                    Ok(x) => x,
                    Err(x) => return Err(x),
                };
                self.loop_iter_body(globals, types, st, it, step_slot, index, item, &b)
            },
            _ => Ok(()),
        }
    }

    #[verifier::rlimit(60)]
    fn loop_iter_body(
        &mut self,
        globals: &Vec<((ModuleId, LocalId), GlobalId)>,
        types: &TypeTable,
        st: &HirStmt,
        it: SlotId,
        step_slot: SlotId,
        index: SlotId,
        item: SlotId,
        b: &Vec<BlockId>,
    ) -> (r: Result<(), LowerError>)
        requires
            old(self).wf(),
            b@.len() == 6,
            forall|i: int| 0 <= i < 6 ==> (#[trigger] b@[i]).0 < old(self).blocks@.len(),
        ensures
            final(self).wf(),
            (final(self).model(), res_unit(r)) == spec_loop_iter_body(env_of(old(self).module, globals@, *types), old(self).model(), *st, it, step_slot, index, item, b@),
            same_header(*old(self), *final(self)),
        decreases *st, 0int,
    {
        match &st.kind {
            HirStmtKind::LoopIter { filter, body, else_body, .. } => {
                let a = st.anchor;
                let cond_block = b[0];
                let dispatch = b[1];
                let body_block = b[2];
                let else_block = b[3];
                let increment = b[4];
                let exit = b[5];
                self.terminate(TerminatorKind::Jump(cond_block), a);
                self.switch_to(cond_block);
                let has_next = match self.allocate_slot(TypeId(2), a) {
                    Ok(x) => x,
                    Err(x) => return Err(x),
                };
                self.emit(InstructionKind::IterHasNext { dst: has_next, iterable: it, index }, a);
                self.terminate(TerminatorKind::Branch { condition: has_next, then_block: dispatch, else_block: exit }, a);
                self.switch_to(dispatch);
                self.emit(InstructionKind::IterGet { dst: item, iterable: it, index }, a);
                match filter {
                    Some(f) => {
                        let c = match self.require_value(globals, types, f) {
                            Ok(x) => x,
                            Err(x) => return Err(x),
                        };
                        self.terminate(TerminatorKind::Branch { condition: c, then_block: body_block, else_block }, a);
                    },
                    None => {
                        self.terminate(TerminatorKind::Jump(body_block), a);
                    },
                }
                self.switch_to(body_block);
                self.push_loop(increment, exit);
                match self.lower_stmts(globals, types, body) {
                    Ok(_) => {},
                    Err(x) => return Err(x),
                }
                self.pop_loop();
                self.fall_to(increment, a);
                self.switch_to(else_block);
                match self.lower_opt_stmts(globals, types, else_body) {
                    Ok(_) => {},
                    Err(x) => return Err(x),
                }
                self.fall_to(increment, a);
                self.switch_to(increment);
                self.emit(InstructionKind::AddNum { dst: index, lhs: index, rhs: step_slot }, a);
                self.terminate(TerminatorKind::Jump(cond_block), a);
                self.switch_to(exit);
                Ok(())
            },
            _ => Ok(()),
        }
    }

    #[verifier::rlimit(80)]
    fn lower_on_with_errors(&mut self, globals: &Vec<((ModuleId, LocalId), GlobalId)>, types: &TypeTable, st: &HirStmt) -> (r: Result<(), LowerError>)
        requires
            old(self).wf(),
        ensures
            final(self).wf(),
            (final(self).model(), res_unit(r)) == spec_lower_on_with_errors(env_of(old(self).module, globals@, *types), old(self).model(), *st),
            same_header(*old(self), *final(self)),
        decreases *st, 1int,
    {
        match &st.kind {
            HirStmtKind::On { condition, body, else_body, error_clauses } => {
                let a = st.anchor;
                let c = match self.require_value(globals, types, condition) {
                    Ok(x) => x,
                    Err(x) => return Err(x),
                };
                let is_error = match self.allocate_slot(TypeId(2), a) {
                    Ok(x) => x,
                    Err(x) => return Err(x),
                };
                self.emit(InstructionKind::IsError { dst: is_error, value: c }, a);
                let b = match self.new_blocks(5, a) {
                    Ok(x) => x,
                    Err(x) => return Err(x),
                };
                let error_dispatch = b[0];
                let normal_dispatch = b[1];
                let then_block = b[2];
                let else_block = b[3];
                let join = b[4];
                self.terminate(TerminatorKind::Branch { condition: is_error, then_block: error_dispatch, else_block: normal_dispatch }, a);
                self.switch_to(normal_dispatch);
                if condition.ty == TypeId(1) {
                    self.terminate(TerminatorKind::Jump(then_block), a);
                } else {
                    let truthy = match self.allocate_slot(TypeId(2), a) {
                        Ok(x) => x,
                        Err(x) => return Err(x),
                    };
                    self.emit(InstructionKind::IsTruthy { dst: truthy, value: c }, a);
                    self.terminate(TerminatorKind::Branch { condition: truthy, then_block, else_block }, a);
                }
                self.switch_to(then_block);
                match self.lower_stmts(globals, types, body) {
                    Ok(_) => {},
                    Err(x) => return Err(x),
                }
                self.fall_to(join, a);
                self.switch_to(else_block);
                match self.lower_opt_stmts(globals, types, else_body) {
                    Ok(_) => {},
                    Err(x) => return Err(x),
                }
                self.fall_to(join, a);
                self.switch_to(error_dispatch);
                match self.dispatch(globals, types, error_clauses, c, join, a) {
                    Ok(_) => {},
                    Err(x) => return Err(x),
                }
                if !self.is_terminated() {
                    self.terminate(TerminatorKind::Throw(c), a);
                }
                self.switch_to(join);
                Ok(())
            },
            _ => Ok(()),
        }
    }

    fn dispatch(
        &mut self,
        globals: &Vec<((ModuleId, LocalId), GlobalId)>,
        types: &TypeTable,
        cs: &Vec<HirErrorClause>,
        c: SlotId,
        join: BlockId,
        a: SourceAnchor,
    ) -> (r: Result<bool, LowerError>)
        requires
            old(self).wf(),
            join.0 < old(self).blocks@.len(),
        ensures
            final(self).wf(),
            (final(self).model(), res_view(r)) == spec_dispatch(env_of(old(self).module, globals@, *types), old(self).model(), cs@, c, join, a),
            same_header(*old(self), *final(self)),
        decreases *cs, 1int,
    {
        let ghost env = env_of(self.module, globals@, *types);
        let ghost s0 = self.model();
        let ghost h0 = *self;
        let mut i: usize = 0;
        proof {
            assert(cs@.subrange(0, 0) =~= Seq::<HirErrorClause>::empty());
        }
        while i < cs.len()
            invariant
                i <= cs@.len(),
                self.wf(),
                same_header(h0, *self),
                h0 == *old(self),
                s0 == old(self).model(),
                join.0 < self.blocks@.len(),
                env == env_of(self.module, globals@, *types),
                spec_dispatch(env, s0, cs@.subrange(0, i as int), c, join, a) == (self.model(), Ok::<bool, LowerErrorModel>(false)),
            decreases cs.len() - i,
        {
            proof {
                assert(cs@.subrange(0, i + 1).drop_last() =~= cs@.subrange(0, i as int));
                assert(cs@.subrange(0, i + 1).last() == cs@[i as int]);
                assert(decreases_to!(*cs => cs@[i as int]));
            }
            match self.clause(globals, types, &cs[i], c, join, a) {
                Ok(false) => {},
                Ok(true) => {
                    proof {
                        lemma_dispatch_stop(env, s0, cs@, c, join, a, i + 1);
                    }
                    return Ok(true);
                },
                Err(x) => {
                    proof {
                        lemma_dispatch_stop(env, s0, cs@, c, join, a, i + 1);
                    }
                    return Err(x);
                },
            }
            i += 1;
        }
        proof {
            assert(cs@.subrange(0, cs@.len() as int) =~= cs@);
        }
        Ok(false)
    }

    #[verifier::rlimit(40)]
    fn clause(
        &mut self,
        globals: &Vec<((ModuleId, LocalId), GlobalId)>,
        types: &TypeTable,
        clause: &HirErrorClause,
        c: SlotId,
        join: BlockId,
        a: SourceAnchor,
    ) -> (r: Result<bool, LowerError>)
        requires
            old(self).wf(),
            join.0 < old(self).blocks@.len(),
        ensures
            final(self).wf(),
            (final(self).model(), res_view(r)) == spec_clause(env_of(old(self).module, globals@, *types), old(self).model(), *clause, c, join, a),
            same_header(*old(self), *final(self)),
        decreases *clause, 0int,
    {
        let clause_block = match self.new_block(a) {
            Ok(x) => x,
            Err(x) => return Err(x),
        };
        match clause.error {
            Some(error) => {
                let next = match self.new_block(a) {
                    Ok(x) => x,
                    Err(x) => return Err(x),
                };
                let matches = match self.allocate_slot(TypeId(2), a) {
                    Ok(x) => x,
                    Err(x) => return Err(x),
                };
                self.emit(InstructionKind::ErrorMatches { dst: matches, value: c, error }, a);
                self.terminate(TerminatorKind::Branch { condition: matches, then_block: clause_block, else_block: next }, a);
                self.switch_to(next);
            },
            None => {
                self.terminate(TerminatorKind::Jump(clause_block), a);
            },
        }
        let next_dispatch = self.current;
        self.switch_to(clause_block);
        match self.lower_stmts(globals, types, &clause.body) {
            Ok(_) => {},
            Err(x) => return Err(x),
        }
        self.fall_to(join, a);
        self.switch_to(next_dispatch);
        Ok(clause.error.is_none())
    }

    fn read_local(
        &mut self,
        globals: &Vec<((ModuleId, LocalId), GlobalId)>,
        types: &TypeTable,
        local: LocalId,
        ty: TypeId,
        anchor: SourceAnchor,
    ) -> (r: Result<SlotId, LowerError>)
        requires
            old(self).wf(),
        ensures
            final(self).wf(),
            (final(self).model(), res_view(r)) == spec_read_local(env_of(old(self).module, globals@, *types), old(self).model(), local, ty, anchor),
            same_header(*old(self), *final(self)),
    {
        reveal(spec_read_local);
        if let Some(slot) = self.local_slot(local) {
            return Ok(slot);
        }
        match global_lookup(globals, self.module, local) {
            None => Err(unsupported_error(anchor, "unresolved local access")),
            Some(global) => {
                let dst = match self.allocate_slot(ty, anchor) {
                    Ok(dst) => dst,
                    Err(e) => return Err(e),
                };
                self.emit(InstructionKind::LoadGlobal { dst, global }, anchor);
                Ok(dst)
            },
        }
    }
}

/// The result of an operation, with its error as a value.
pub open spec fn res_view<T>(r: Result<T, LowerError>) -> Result<T, LowerErrorModel> {
    match r {
        Ok(v) => Ok(v),
        Err(e) => Err(e@),
    }
}

fn global_lookup(globals: &Vec<((ModuleId, LocalId), GlobalId)>, module: ModuleId, local: LocalId) -> (r: Option<GlobalId>)
    ensures
        r == global_of(globals@, module, local),
{
    let mut i: usize = globals.len();
    proof {
        assert(globals@.subrange(0, i as int) =~= globals@);
    }
    while i > 0
        invariant
            i <= globals@.len(),
            global_of(globals@, module, local) == global_of(globals@.subrange(0, i as int), module, local),
        decreases i,
    {
        proof {
            assert(globals@.subrange(0, i as int).drop_last() =~= globals@.subrange(0, i - 1));
        }
        let entry = globals[i - 1];
        if entry.0.0 == module && entry.0.1 == local {
            return Some(entry.1);
        }
        i -= 1;
    }
    proof {
        assert(globals@.subrange(0, 0) =~= Seq::<((ModuleId, LocalId), GlobalId)>::empty());
    }
    None
}


impl FunctionBuilder {
    fn new(module: ModuleId, id: FunctionId, name: String, signature: Signature, anchor: SourceAnchor, constants: Vec<Constant>) -> (b: FunctionBuilder)
        ensures
            b.wf(),
            b.model() == initial_model(consts_model(constants@)),
            b.module == module && b.id == id && b.name == name && b.signature == signature && b.anchor == anchor,
    {
        let mut blocks: Vec<DraftBlock> = Vec::new();
        let entry = DraftBlock { instructions: Vec::new(), terminator: None };
        proof {
            assert(draft_model(entry).code =~= Seq::<(OpModel, SourceAnchor)>::empty());
        }
        blocks.push(entry);
        let b = FunctionBuilder {
            module,
            id,
            name,
            signature,
            anchor,
            constants,
            slots: Vec::new(),
            locals: Vec::new(),
            parameter_count: 0,
            blocks,
            current: BlockId(0),
            loops: Vec::new(),
        };
        proof {
            assert(b.model().blocks =~= seq![DraftModel { code: Seq::empty(), terminator: None }]);
            assert(b.model().slots =~= Seq::<TypeId>::empty());
            assert(b.model().locals =~= Seq::<(LocalId, SlotId)>::empty());
            assert(b.model().loops =~= Seq::<(BlockId, BlockId)>::empty());
        }
        b
    }

    fn declare_parameter(&mut self, p: &HirParam) -> (r: Result<(), LowerError>)
        requires
            old(self).wf(),
        ensures
            final(self).wf(),
            (final(self).model(), res_unit(r)) == spec_declare(old(self).model(), *p),
            same_header(*old(self), *final(self)),
    {
        let slot = match self.allocate_slot(p.ty, p.anchor) {
            Ok(x) => x,
            Err(x) => return Err(x),
        };
        self.bind_local(p.local, slot);
        proof {
            reveal(spec_bind);
        }
        if self.parameter_count < 0xffff_ffffu32 {
            self.parameter_count = self.parameter_count + 1;
            Ok(())
        } else {
            Err(invalid_error(p.anchor, "parameter count exceeds u32"))
        }
    }

    fn declare_parameters(&mut self, ps: &Vec<HirParam>) -> (r: Result<(), LowerError>)
        requires
            old(self).wf(),
        ensures
            final(self).wf(),
            (final(self).model(), res_unit(r)) == spec_declare_params(old(self).model(), ps@),
            same_header(*old(self), *final(self)),
    {
        let ghost s0 = self.model();
        let ghost h0 = *self;
        let mut i: usize = 0;
        proof {
            assert(ps@.subrange(0, 0) =~= Seq::<HirParam>::empty());
        }
        while i < ps.len()
            invariant
                i <= ps@.len(),
                self.wf(),
                same_header(h0, *self),
                h0 == *old(self),
                s0 == old(self).model(),
                spec_declare_params(s0, ps@.subrange(0, i as int)) == (self.model(), Ok::<(), LowerErrorModel>(())),
            decreases ps.len() - i,
        {
            proof {
                assert(ps@.subrange(0, i + 1).drop_last() =~= ps@.subrange(0, i as int));
                assert(ps@.subrange(0, i + 1).last() == ps@[i as int]);
            }
            match self.declare_parameter(&ps[i]) {
                Ok(_) => {},
                Err(x) => {
                    proof {
                        lemma_declare_params_err(s0, ps@, i + 1);
                    }
                    return Err(x);
                },
            }
            i += 1;
        }
        proof {
            assert(ps@.subrange(0, ps@.len() as int) =~= ps@);
        }
        Ok(())
    }

    fn finish(self, end: SourceAnchor) -> (r: Result<(EirFunction, Vec<Constant>), LowerError>)
        requires
            self.wf(),
        ensures
            match r {
                Ok((f, cs)) => spec_finish(self.model(), self.id, self.name@, self.signature.params@, self.signature.return_type, self.signature.effects, self.anchor, end)
                    == Ok::<(FnModel, Seq<ConstModel>), LowerErrorModel>((fn_model(f), consts_model(cs@)))
                    && f.blocks@.len() <= u32::MAX + 1 && f.slots@.len() <= u32::MAX + 1,
                Err(e) => spec_finish(self.model(), self.id, self.name@, self.signature.params@, self.signature.return_type, self.signature.effects, self.anchor, end) == Err::<(FnModel, Seq<ConstModel>), LowerErrorModel>(e@),
            },
    {
        let mut b = self;
        let ghost s0 = b.model();
        if !b.is_terminated() {
            if b.signature.return_type == TypeId(1) {
                b.terminate(TerminatorKind::Return(None), end);
            } else {
                let mut message = String::new();
                push_str(&mut message, "function ");
                push_str(&mut message, b.name.as_str());
                push_str(&mut message, " can reach its end without returning");
                return Err(LowerError { anchor: b.anchor, kind: LowerErrorKind::InvalidProgram(message) });
            }
        }
        let ghost s1 = b.model();
        let ghost drafts = b.model().blocks;
        let mut blocks: Vec<BasicBlock> = Vec::new();
        let n = b.blocks.len();
        let mut i: usize = 0;
        while i < n
            invariant
                n == b.blocks@.len(),
                n <= u32::MAX + 1,
                b.slots@ == s1.slots,
                b.slots@.len() <= u32::MAX + 1,
                consts_model(b.constants@) == s1.constants,
                b.parameter_count == s1.parameter_count,
                b.id == self.id,
                b.name == self.name,
                b.signature == self.signature,
                i <= n,
                drafts.len() == n,
                forall|j: int| i <= j < n ==> draft_model(#[trigger] b.blocks@[j]) == drafts[j],
                blocks@.len() == i,
                forall|j: int| 0 <= j < i ==> block_model(#[trigger] blocks@[j]) == finished_block(drafts[j], end),
            decreases n - i,
        {
            let mut d = DraftBlock { instructions: Vec::new(), terminator: None };
            std::mem::swap(&mut b.blocks[i], &mut d);
            let terminator = match d.terminator {
                Some(t) => t,
                None => Terminator { kind: TerminatorKind::Unreachable, anchor: end },
            };
            let block = BasicBlock { instructions: d.instructions, terminator };
            proof {
                assert(block_model(block) == finished_block(drafts[i as int], end));
            }
            blocks.push(block);
            i += 1;
        }
        let f = EirFunction {
            id: b.id,
            name: b.name,
            signature: b.signature,
            slots: b.slots,
            parameter_count: b.parameter_count,
            blocks,
        };
        proof {
            assert(fn_model(f).blocks =~= s1.blocks.map_values(|d: DraftModel| finished_block(d, end)));
        }
        Ok((f, b.constants))
    }
}

proof fn lemma_declare_params_err(s: BuildModel, ps: Seq<HirParam>, k: int)
    requires
        0 <= k <= ps.len(),
        spec_declare_params(s, ps.subrange(0, k)).1 is Err,
    ensures
        spec_declare_params(s, ps) == spec_declare_params(s, ps.subrange(0, k)),
    decreases ps.len() - k,
{
    if k < ps.len() {
        assert(ps.subrange(0, k + 1).drop_last() =~= ps.subrange(0, k));
        lemma_declare_params_err(s, ps, k + 1);
    } else {
        assert(ps.subrange(0, k) =~= ps);
    }
}

fn lower_function(
    module: &HirModule,
    f: &HirFunction,
    globals: &Vec<((ModuleId, LocalId), GlobalId)>,
    types: &TypeTable,
    constants: Vec<Constant>,
) -> (r: Result<(EirFunction, Vec<Constant>), LowerError>)
    ensures
        match r {
            Ok((g, cs)) => spec_lower_function(*module, *f, globals@, types@, consts_model(constants@))
                == Ok::<(FnModel, Seq<ConstModel>), LowerErrorModel>((fn_model(g), consts_model(cs@)))
                && g.blocks@.len() <= u32::MAX + 1 && g.slots@.len() <= u32::MAX + 1,
            Err(e) => spec_lower_function(*module, *f, globals@, types@, consts_model(constants@)) == Err::<(FnModel, Seq<ConstModel>), LowerErrorModel>(e@),
        },
{
    let mut b = FunctionBuilder::new(module.id, f.id, f.name.clone(), copy_signature(&f.signature), f.anchor, constants);
    match b.declare_parameters(&f.params) {
        Ok(_) => {},
        Err(x) => return Err(x),
    }
    match b.lower_stmts(globals, types, &f.body) {
        Ok(_) => {},
        Err(x) => return Err(x),
    }
    b.finish(f.anchor)
}

fn copy_signature(s: &Signature) -> (r: Signature)
    ensures
        r.params@ == s.params@,
        r.return_type == s.return_type,
        r.effects == s.effects,
{
    let mut params: Vec<TypeId> = Vec::new();
    let mut i: usize = 0;
    while i < s.params.len()
        invariant
            i <= s.params@.len(),
            params@ == s.params@.subrange(0, i as int),
        decreases s.params.len() - i,
    {
        params.push(s.params[i]);
        i += 1;
    }
    proof {
        assert(s.params@.subrange(0, s.params@.len() as int) =~= s.params@);
    }
    Signature { params, return_type: s.return_type, effects: s.effects }
}

fn module_fallback_anchor(m: &HirModule) -> (a: SourceAnchor)
    ensures
        a == fallback_module_anchor(*m),
{
    if m.functions.len() > 0 {
        m.functions[0].anchor
    } else {
        SourceAnchor { source: SourceId(m.id.0), start: 0, end: 0 }
    }
}

fn lower_initializer(
    module: &HirModule,
    id: FunctionId,
    globals: &Vec<((ModuleId, LocalId), GlobalId)>,
    types: &TypeTable,
    constants: Vec<Constant>,
) -> (r: Result<(EirFunction, Vec<Constant>), LowerError>)
    ensures
        match r {
            Ok((g, cs)) => spec_lower_initializer(*module, id, globals@, types@, consts_model(constants@))
                == Ok::<(FnModel, Seq<ConstModel>), LowerErrorModel>((fn_model(g), consts_model(cs@)))
                && initializer_signature(g.signature)
                && g.blocks@.len() <= u32::MAX + 1 && g.slots@.len() <= u32::MAX + 1,
            Err(e) => spec_lower_initializer(*module, id, globals@, types@, consts_model(constants@)) == Err::<(FnModel, Seq<ConstModel>), LowerErrorModel>(e@),
        },
{
    let anchor = if module.statements.len() > 0 { module.statements[0].anchor } else { module_fallback_anchor(module) };
    let mut name = module.name.clone();
    push_str(&mut name, "::$init");
    let signature = Signature { params: Vec::new(), return_type: TypeId(1), effects: Effects(62) };
    proof {
        assert(signature.params@ =~= Seq::<TypeId>::empty());
    }
    let mut b = FunctionBuilder::new(module.id, id, name, signature, anchor, constants);
    match b.lower_stmts(globals, types, &module.statements) {
        Ok(_) => {},
        Err(x) => return Err(x),
    }
    b.finish(anchor)
}


// ---------------------------------------------------------------------------
// Assembling the program

proof fn lemma_globals_stmts_err(module: ModuleId, sts: Seq<HirStmt>, g: GlobalsModel, k: int)
    requires
        0 <= k <= sts.len(),
        spec_globals_stmts(module, sts.subrange(0, k), g) is Err,
    ensures
        spec_globals_stmts(module, sts, g) == spec_globals_stmts(module, sts.subrange(0, k), g),
    decreases sts.len() - k,
{
    if k < sts.len() {
        assert(sts.subrange(0, k + 1).drop_last() =~= sts.subrange(0, k));
        lemma_globals_stmts_err(module, sts, g, k + 1);
    } else {
        assert(sts.subrange(0, k) =~= sts);
    }
}

proof fn lemma_globals_err(mods: Seq<HirModule>, k: int)
    requires
        0 <= k <= mods.len(),
        spec_globals(mods.subrange(0, k)) is Err,
    ensures
        spec_globals(mods) == spec_globals(mods.subrange(0, k)),
    decreases mods.len() - k,
{
    if k < mods.len() {
        assert(mods.subrange(0, k + 1).drop_last() =~= mods.subrange(0, k));
        lemma_globals_err(mods, k + 1);
    } else {
        assert(mods.subrange(0, k) =~= mods);
    }
}

fn global_candidate_exec(st: &HirStmt) -> (r: Option<(LocalId, TypeId)>)
    ensures
        r == global_candidate(*st),
{
    match &st.kind {
        HirStmtKind::VarDecl { local, value } => Some((*local, value.ty)),
        HirStmtKind::Assign { target, value } => match &target.kind {
            HirExprKind::Local(local) => Some((*local, value.ty)),
            _ => None,
        },
        _ => None,
    }
}

fn collect_globals(mods: &Vec<HirModule>) -> (r: Result<(Vec<((ModuleId, LocalId), GlobalId)>, Vec<TypeId>), LowerError>)
    ensures
        match r {
            Ok((ids, types)) => spec_globals(mods@) == Ok::<GlobalsModel, LowerErrorModel>(GlobalsModel { ids: ids@, types: types@ }),
            Err(e) => spec_globals(mods@) == Err::<GlobalsModel, LowerErrorModel>(e@),
        },
{
    let mut ids: Vec<((ModuleId, LocalId), GlobalId)> = Vec::new();
    let mut types: Vec<TypeId> = Vec::new();
    let mut m: usize = 0;
    proof {
        assert(mods@.subrange(0, 0) =~= Seq::<HirModule>::empty());
    }
    while m < mods.len()
        invariant
            m <= mods@.len(),
            spec_globals(mods@.subrange(0, m as int)) == Ok::<GlobalsModel, LowerErrorModel>(GlobalsModel { ids: ids@, types: types@ }),
        decreases mods.len() - m,
    {
        let module = &mods[m];
        let ghost g0 = GlobalsModel { ids: ids@, types: types@ };
        let mut k: usize = 0;
        proof {
            assert(module.statements@.subrange(0, 0) =~= Seq::<HirStmt>::empty());
            assert(mods@.subrange(0, m + 1).drop_last() =~= mods@.subrange(0, m as int));
        }
        while k < module.statements.len()
            invariant
                m < mods@.len(),
                *module == mods@[m as int],
                spec_globals(mods@.subrange(0, m as int)) == Ok::<GlobalsModel, LowerErrorModel>(g0),
                mods@.subrange(0, m + 1).drop_last() == mods@.subrange(0, m as int),
                mods@.subrange(0, m + 1).last() == mods@[m as int],
                k <= module.statements@.len(),
                spec_globals_stmts(module.id, module.statements@.subrange(0, k as int), g0) == Ok::<GlobalsModel, LowerErrorModel>(GlobalsModel { ids: ids@, types: types@ }),
            decreases module.statements.len() - k,
        {
            let st = &module.statements[k];
            proof {
                assert(module.statements@.subrange(0, k + 1).drop_last() =~= module.statements@.subrange(0, k as int));
                assert(module.statements@.subrange(0, k + 1).last() == *st);
            }
            if let Some((local, ty)) = global_candidate_exec(st) {
                if global_lookup(&ids, module.id, local).is_none() {
                    match GlobalId::try_from_index(types.len()) {
                        Ok(id) => {
                            ids.push(((module.id, local), id));
                            types.push(ty);
                        },
                        Err(overflow) => {
                            let e = overflow_error(st.anchor, overflow);
                            proof {
                                lemma_globals_stmts_err(module.id, module.statements@, g0, k + 1);
                                lemma_globals_err(mods@, m + 1);
                            }
                            return Err(e);
                        },
                    }
                }
            }
            k += 1;
        }
        proof {
            assert(module.statements@.subrange(0, module.statements@.len() as int) =~= module.statements@);
        }
        m += 1;
    }
    proof {
        assert(mods@.subrange(0, mods@.len() as int) =~= mods@);
    }
    Ok((ids, types))
}

fn semantic_overflow_error(anchor: SourceAnchor, overflow: IdOverflow) -> (e: LowerError)
    ensures
        e@ == invalid(anchor, semantic_overflow_text(overflow.kind@, overflow.value as nat)),
{
    let mut message = String::new();
    push_str(&mut message, overflow.kind);
    push_str(&mut message, " value ");
    push_decimal(&mut message, overflow.value as u64);
    push_str(&mut message, " exceeds the u32 semantic ID range");
    LowerError { anchor, kind: LowerErrorKind::InvalidProgram(message) }
}

/// (module index, item index) pairs as integers.
pub open spec fn entries_model(v: Seq<(usize, usize)>) -> Seq<(int, int)> {
    v.map_values(|e: (usize, usize)| (e.0 as int, e.1 as int))
}

fn function_entries(mods: &Vec<HirModule>) -> (r: (Vec<(usize, usize)>, Vec<u32>))
    ensures
        entries_model(r.0@) == fn_entries(mods@),
        r.1@ == fn_keys(mods@),
        r.0@.len() == r.1@.len(),
        forall|i: int| 0 <= i < r.0@.len() ==> (#[trigger] r.0@[i]).0 < mods@.len() && r.0@[i].1 < mods@[r.0@[i].0 as int].functions@.len(),
{
    let mut entries: Vec<(usize, usize)> = Vec::new();
    let mut keys: Vec<u32> = Vec::new();
    let mut m: usize = 0;
    proof {
        assert(entries_model(entries@) =~= fn_entries(mods@.subrange(0, 0)));
    }
    while m < mods.len()
        invariant
            m <= mods@.len(),
            entries_model(entries@) == fn_entries(mods@.subrange(0, m as int)),
            keys@.len() == entries@.len(),
            forall|i: int| 0 <= i < entries@.len() ==> (#[trigger] entries@[i]).0 < m
                && entries@[i].1 < mods@[entries@[i].0 as int].functions@.len()
                && keys@[i] == mods@[entries@[i].0 as int].functions@[entries@[i].1 as int].id.0,
        decreases mods.len() - m,
    {
        let ghost before = entries_model(entries@);
        let mut k: usize = 0;
        while k < mods[m].functions.len()
            invariant
                m < mods@.len(),
                k <= mods@[m as int].functions@.len(),
                entries_model(entries@) == before + Seq::new(k as nat, |j: int| (m as int, j)),
                keys@.len() == entries@.len(),
                forall|i: int| 0 <= i < entries@.len() ==> (#[trigger] entries@[i]).0 <= m
                    && entries@[i].1 < mods@[entries@[i].0 as int].functions@.len()
                    && keys@[i] == mods@[entries@[i].0 as int].functions@[entries@[i].1 as int].id.0,
            decreases mods@[m as int].functions@.len() - k,
        {
            let ghost e0 = entries@;
            entries.push((m, k));
            keys.push(mods[m].functions[k].id.0);
            proof {
                assert(entries_model(entries@) =~= entries_model(e0).push((m as int, k as int)));
                assert(Seq::new((k + 1) as nat, |j: int| (m as int, j)) =~= Seq::new(k as nat, |j: int| (m as int, j)).push((m as int, k as int)));
                assert(entries_model(entries@) =~= before + Seq::new((k + 1) as nat, |j: int| (m as int, j)));
            }
            k += 1;
        }
        proof {
            let sub = mods@.subrange(0, m + 1);
            assert(sub.drop_last() =~= mods@.subrange(0, m as int));
            assert(sub.last() == mods@[m as int]);
            assert(fn_entries(sub) == fn_entries(mods@.subrange(0, m as int)) + Seq::new(mods@[m as int].functions@.len(), |j: int| (m as int, j)));
        }
        m += 1;
    }
    proof {
        assert(mods@.subrange(0, mods@.len() as int) =~= mods@);
        assert(keys@ =~= fn_keys(mods@));
    }
    (entries, keys)
}

fn host_entries_of(mods: &Vec<HirModule>) -> (r: (Vec<(usize, usize)>, Vec<u32>))
    ensures
        entries_model(r.0@) == host_entries(mods@),
        r.1@ == host_keys(mods@),
        r.0@.len() == r.1@.len(),
        forall|i: int| 0 <= i < r.0@.len() ==> (#[trigger] r.0@[i]).0 < mods@.len() && r.0@[i].1 < mods@[r.0@[i].0 as int].host_functions@.len(),
{
    let mut entries: Vec<(usize, usize)> = Vec::new();
    let mut keys: Vec<u32> = Vec::new();
    let mut m: usize = 0;
    proof {
        assert(entries_model(entries@) =~= host_entries(mods@.subrange(0, 0)));
    }
    while m < mods.len()
        invariant
            m <= mods@.len(),
            entries_model(entries@) == host_entries(mods@.subrange(0, m as int)),
            keys@.len() == entries@.len(),
            forall|i: int| 0 <= i < entries@.len() ==> (#[trigger] entries@[i]).0 < m
                && entries@[i].1 < mods@[entries@[i].0 as int].host_functions@.len()
                && keys@[i] == mods@[entries@[i].0 as int].host_functions@[entries@[i].1 as int].id.0,
        decreases mods.len() - m,
    {
        let ghost before = entries_model(entries@);
        let mut k: usize = 0;
        while k < mods[m].host_functions.len()
            invariant
                m < mods@.len(),
                k <= mods@[m as int].host_functions@.len(),
                entries_model(entries@) == before + Seq::new(k as nat, |j: int| (m as int, j)),
                keys@.len() == entries@.len(),
                forall|i: int| 0 <= i < entries@.len() ==> (#[trigger] entries@[i]).0 <= m
                    && entries@[i].1 < mods@[entries@[i].0 as int].host_functions@.len()
                    && keys@[i] == mods@[entries@[i].0 as int].host_functions@[entries@[i].1 as int].id.0,
            decreases mods@[m as int].host_functions@.len() - k,
        {
            let ghost e0 = entries@;
            entries.push((m, k));
            keys.push(mods[m].host_functions[k].id.0);
            proof {
                assert(entries_model(entries@) =~= entries_model(e0).push((m as int, k as int)));
                assert(Seq::new((k + 1) as nat, |j: int| (m as int, j)) =~= Seq::new(k as nat, |j: int| (m as int, j)).push((m as int, k as int)));
                assert(entries_model(entries@) =~= before + Seq::new((k + 1) as nat, |j: int| (m as int, j)));
            }
            k += 1;
        }
        proof {
            let sub = mods@.subrange(0, m + 1);
            assert(sub.drop_last() =~= mods@.subrange(0, m as int));
            assert(sub.last() == mods@[m as int]);
            assert(host_entries(sub) == host_entries(mods@.subrange(0, m as int)) + Seq::new(mods@[m as int].host_functions@.len(), |j: int| (m as int, j)));
        }
        m += 1;
    }
    proof {
        assert(mods@.subrange(0, mods@.len() as int) =~= mods@);
        assert(keys@ =~= host_keys(mods@));
    }
    (entries, keys)
}

fn struct_entries_of(mods: &Vec<HirModule>) -> (r: (Vec<(usize, usize)>, Vec<u32>))
    ensures
        entries_model(r.0@) == struct_entries(mods@),
        r.1@ == struct_keys(mods@),
        r.0@.len() == r.1@.len(),
        forall|i: int| 0 <= i < r.0@.len() ==> (#[trigger] r.0@[i]).0 < mods@.len() && r.0@[i].1 < mods@[r.0@[i].0 as int].structs@.len(),
{
    let mut entries: Vec<(usize, usize)> = Vec::new();
    let mut keys: Vec<u32> = Vec::new();
    let mut m: usize = 0;
    proof {
        assert(entries_model(entries@) =~= struct_entries(mods@.subrange(0, 0)));
    }
    while m < mods.len()
        invariant
            m <= mods@.len(),
            entries_model(entries@) == struct_entries(mods@.subrange(0, m as int)),
            keys@.len() == entries@.len(),
            forall|i: int| 0 <= i < entries@.len() ==> (#[trigger] entries@[i]).0 < m
                && entries@[i].1 < mods@[entries@[i].0 as int].structs@.len()
                && keys@[i] == mods@[entries@[i].0 as int].structs@[entries@[i].1 as int].id.0,
        decreases mods.len() - m,
    {
        let ghost before = entries_model(entries@);
        let mut k: usize = 0;
        while k < mods[m].structs.len()
            invariant
                m < mods@.len(),
                k <= mods@[m as int].structs@.len(),
                entries_model(entries@) == before + Seq::new(k as nat, |j: int| (m as int, j)),
                keys@.len() == entries@.len(),
                forall|i: int| 0 <= i < entries@.len() ==> (#[trigger] entries@[i]).0 <= m
                    && entries@[i].1 < mods@[entries@[i].0 as int].structs@.len()
                    && keys@[i] == mods@[entries@[i].0 as int].structs@[entries@[i].1 as int].id.0,
            decreases mods@[m as int].structs@.len() - k,
        {
            let ghost e0 = entries@;
            entries.push((m, k));
            keys.push(mods[m].structs[k].id.0);
            proof {
                assert(entries_model(entries@) =~= entries_model(e0).push((m as int, k as int)));
                assert(Seq::new((k + 1) as nat, |j: int| (m as int, j)) =~= Seq::new(k as nat, |j: int| (m as int, j)).push((m as int, k as int)));
                assert(entries_model(entries@) =~= before + Seq::new((k + 1) as nat, |j: int| (m as int, j)));
            }
            k += 1;
        }
        proof {
            let sub = mods@.subrange(0, m + 1);
            assert(sub.drop_last() =~= mods@.subrange(0, m as int));
            assert(sub.last() == mods@[m as int]);
            assert(struct_entries(sub) == struct_entries(mods@.subrange(0, m as int)) + Seq::new(mods@[m as int].structs@.len(), |j: int| (m as int, j)));
        }
        m += 1;
    }
    proof {
        assert(mods@.subrange(0, mods@.len() as int) =~= mods@);
        assert(keys@ =~= struct_keys(mods@));
    }
    (entries, keys)
}


proof fn lemma_lower_functions_err(hir: HirProgram, gids: Seq<((ModuleId, LocalId), GlobalId)>, k: nat, n: nat)
    requires
        k <= n,
        spec_lower_functions(hir, gids, k) is Err,
    ensures
        spec_lower_functions(hir, gids, n) == spec_lower_functions(hir, gids, k),
    decreases n - k,
{
    if k < n {
        lemma_lower_functions_err(hir, gids, k, (n - 1) as nat);
    }
}

proof fn lemma_lower_inits_err(hir: HirProgram, gids: Seq<((ModuleId, LocalId), GlobalId)>, nf: nat, start: Seq<ConstModel>, k: nat, n: nat)
    requires
        k <= n,
        spec_lower_inits(hir, gids, nf, start, k) is Err,
    ensures
        spec_lower_inits(hir, gids, nf, start, n) == spec_lower_inits(hir, gids, nf, start, k),
    decreases n - k,
{
    if k < n {
        lemma_lower_inits_err(hir, gids, nf, start, k, (n - 1) as nat);
    }
}

fn program_fallback_anchor(hir: &HirProgram) -> (a: SourceAnchor)
    ensures
        a == program_anchor(*hir),
{
    if hir.modules.len() > 0 {
        module_fallback_anchor(&hir.modules[0])
    } else {
        SourceAnchor { source: SourceId(0), start: 0, end: 0 }
    }
}

pub open spec fn fns_model(fs: Seq<EirFunction>) -> Seq<FnModel> {
    fs.map_values(|f: EirFunction| fn_model(f))
}

pub open spec fn fns_fit(fs: Seq<EirFunction>) -> bool {
    forall|i: int| 0 <= i < fs.len() ==> (#[trigger] fs[i]).blocks@.len() <= u32::MAX + 1 && fs[i].slots@.len() <= u32::MAX + 1
}

fn dense_error(anchor: SourceAnchor, expected: usize, found: u32) -> (e: LowerError)
    ensures
        e@ == invalid(anchor, dense_text(expected as nat, found as nat)),
{
    let mut message = String::new();
    push_str(&mut message, "function IDs must be dense: expected f");
    push_decimal(&mut message, expected as u64);
    push_str(&mut message, ", found f");
    push_decimal(&mut message, found as u64);
    LowerError { anchor, kind: LowerErrorKind::InvalidProgram(message) }
}

#[verifier::loop_isolation(false)]
fn lower_functions(hir: &HirProgram, gids: &Vec<((ModuleId, LocalId), GlobalId)>) -> (r: Result<(Vec<EirFunction>, Vec<Constant>), LowerError>)
    ensures
        match r {
            Ok((fs, cs)) => spec_lower_functions(*hir, gids@, fn_entries(hir.modules@).len())
                == Ok::<(Seq<FnModel>, Seq<ConstModel>), LowerErrorModel>((fns_model(fs@), consts_model(cs@)))
                && fns_fit(fs@) && fs@.len() == fn_entries(hir.modules@).len(),
            Err(e) => spec_lower_functions(*hir, gids@, fn_entries(hir.modules@).len()) == Err::<(Seq<FnModel>, Seq<ConstModel>), LowerErrorModel>(e@),
        },
{
    let ghost mods = hir.modules@;
    let (entries, keys) = function_entries(&hir.modules);
    let order = stable_order_of(&keys);
    let n = entries.len();
    let fallback = program_fallback_anchor(hir);
    let mut lowered: Vec<EirFunction> = Vec::new();
    let mut constants: Vec<Constant> = Vec::new();
    let mut k: usize = 0;
    proof {
        assert(fns_model(lowered@) =~= Seq::<FnModel>::empty());
        assert(consts_model(constants@) =~= Seq::<ConstModel>::empty());
    }
    while k < n
        invariant
            k <= n,
            n == entries@.len(),
            n == fn_entries(mods).len(),
            lowered@.len() == k,
            fns_fit(lowered@),
            spec_lower_functions(*hir, gids@, k as nat) == Ok::<(Seq<FnModel>, Seq<ConstModel>), LowerErrorModel>((fns_model(lowered@), consts_model(constants@))),
        decreases n - k,
    {
        let idx = order[k];
        let (mi, fi) = entries[idx];
        proof {
            assert(entries_model(entries@)[idx as int] == (mi as int, fi as int));
        }
        let module = &hir.modules[mi];
        let f = &module.functions[fi];
        let expected = match FunctionId::try_from_index(k) {
            Ok(id) => id,
            Err(overflow) => {
                let e = semantic_overflow_error(fallback, overflow);
                proof {
                    lemma_lower_functions_err(*hir, gids@, (k + 1) as nat, n as nat);
                }
                return Err(e);
            },
        };
        if f.id.0 != expected.0 {
            let e = dense_error(f.anchor, k, f.id.0);
            proof {
                lemma_lower_functions_err(*hir, gids@, (k + 1) as nat, n as nat);
            }
            return Err(e);
        }
        let ghost before = lowered@;
        match lower_function(module, f, gids, &hir.types, constants) {
            Ok((g, cs)) => {
                lowered.push(g);
                constants = cs;
                proof {
                    assert(fns_model(lowered@) =~= fns_model(before).push(fn_model(g)));
                }
            },
            Err(e) => {
                proof {
                    lemma_lower_functions_err(*hir, gids@, (k + 1) as nat, n as nat);
                }
                return Err(e);
            },
        }
        k += 1;
    }
    Ok((lowered, constants))
}

#[verifier::loop_isolation(false)]
fn lower_initializers(
    hir: &HirProgram,
    gids: &Vec<((ModuleId, LocalId), GlobalId)>,
    lowered: Vec<EirFunction>,
    constants: Vec<Constant>,
) -> (r: Result<(Vec<EirFunction>, Vec<Constant>, Vec<FunctionId>), LowerError>)
    requires
        fns_fit(lowered@),
    ensures
        match r {
            Ok((fs, cs, by_module)) => spec_lower_inits(*hir, gids@, lowered@.len() as nat, consts_model(constants@), hir.modules@.len())
                == Ok::<(Seq<FnModel>, Seq<ConstModel>), LowerErrorModel>((fns_model(fs@).subrange(lowered@.len() as int, fs@.len() as int), consts_model(cs@)))
                && fns_model(fs@).subrange(0, lowered@.len() as int) == fns_model(lowered@)
                && fns_fit(fs@) && fs@.len() == lowered@.len() + hir.modules@.len()
                && by_module@.len() == hir.modules@.len()
                && forall|j: int| 0 <= j < by_module@.len() ==> (#[trigger] by_module@[j]).0 == lowered@.len() + j,
            Err(e) => spec_lower_inits(*hir, gids@, lowered@.len() as nat, consts_model(constants@), hir.modules@.len())
                == Err::<(Seq<FnModel>, Seq<ConstModel>), LowerErrorModel>(e@),
        },
{
    let ghost nf = lowered@.len();
    let ghost start = consts_model(constants@);
    let ghost base = fns_model(lowered@);
    let fallback = program_fallback_anchor(hir);
    let mut fs = lowered;
    let mut cs = constants;
    let mut by_module: Vec<FunctionId> = Vec::new();
    let nm = hir.modules.len();
    let mut j: usize = 0;
    proof {
        assert(fns_model(fs@).subrange(nf as int, fs@.len() as int) =~= Seq::<FnModel>::empty());
        assert(fns_model(fs@).subrange(0, nf as int) =~= base);
    }
    while j < nm
        invariant
            j <= nm,
            nm == hir.modules@.len(),
            fs@.len() == nf + j,
            by_module@.len() == j,
            forall|i: int| 0 <= i < j ==> (#[trigger] by_module@[i]).0 == nf + i,
            fns_fit(fs@),
            fns_model(fs@).subrange(0, nf as int) == base,
            spec_lower_inits(*hir, gids@, nf as nat, start, j as nat)
                == Ok::<(Seq<FnModel>, Seq<ConstModel>), LowerErrorModel>((fns_model(fs@).subrange(nf as int, fs@.len() as int), consts_model(cs@))),
        decreases nm - j,
    {
        let id = match FunctionId::try_from_index(fs.len()) {
            Ok(id) => id,
            Err(overflow) => {
                let e = semantic_overflow_error(fallback, overflow);
                proof {
                    lemma_lower_inits_err(*hir, gids@, nf as nat, start, (j + 1) as nat, nm as nat);
                }
                return Err(e);
            },
        };
        let ghost before = fs@;
        match lower_initializer(&hir.modules[j], id, gids, &hir.types, cs) {
            Ok((g, ncs)) => {
                fs.push(g);
                cs = ncs;
                by_module.push(id);
                proof {
                    assert(fns_model(fs@) =~= fns_model(before).push(fn_model(g)));
                    assert(fns_model(fs@).subrange(0, nf as int) =~= fns_model(before).subrange(0, nf as int));
                    assert(fns_model(fs@).subrange(nf as int, fs@.len() as int) =~= fns_model(before).subrange(nf as int, before.len() as int).push(fn_model(g)));
                }
            },
            Err(e) => {
                proof {
                    lemma_lower_inits_err(*hir, gids@, nf as nat, start, (j + 1) as nat, nm as nat);
                }
                return Err(e);
            },
        }
        j += 1;
    }
    Ok((fs, cs, by_module))
}


fn import_deps(mods: &Vec<HirModule>) -> (r: Vec<Vec<usize>>)
    ensures
        deps_model(r@) == module_imports(mods@),
        r@.len() == mods@.len(),
        forall|m: int, k: int| 0 <= m < r@.len() && 0 <= k < r@[m]@.len() ==> (#[trigger] r@[m]@[k]) < r@.len(),
{
    let n = mods.len();
    let mut deps: Vec<Vec<usize>> = Vec::new();
    let mut m: usize = 0;
    while m < n
        invariant
            m <= n,
            n == mods@.len(),
            deps@.len() == m,
            forall|j: int| 0 <= j < m ==> (#[trigger] deps@[j])@.map_values(|v: usize| v as int) == import_targets(mods@[j].statements@, n as nat),
            forall|j: int, k: int| 0 <= j < m && 0 <= k < deps@[j]@.len() ==> (#[trigger] deps@[j]@[k]) < n,
        decreases n - m,
    {
        let sts = &mods[m].statements;
        let mut targets: Vec<usize> = Vec::new();
        let mut k: usize = 0;
        proof {
            assert(sts@.subrange(0, 0) =~= Seq::<HirStmt>::empty());
            assert(targets@.map_values(|v: usize| v as int) =~= Seq::<int>::empty());
        }
        while k < sts.len()
            invariant
                k <= sts@.len(),
                n == mods@.len(),
                targets@.map_values(|v: usize| v as int) == import_targets(sts@.subrange(0, k as int), n as nat),
                forall|i: int| 0 <= i < targets@.len() ==> (#[trigger] targets@[i]) < n,
            decreases sts.len() - k,
        {
            proof {
                assert(sts@.subrange(0, k + 1).drop_last() =~= sts@.subrange(0, k as int));
                assert(sts@.subrange(0, k + 1).last() == sts@[k as int]);
            }
            let ghost t0 = targets@;
            if let HirStmtKind::Import(target) = &sts[k].kind {
                if (target.0 as usize) < n {
                    targets.push(target.0 as usize);
                    proof {
                        assert(targets@.map_values(|v: usize| v as int) =~= t0.map_values(|v: usize| v as int).push(target.0 as int));
                    }
                }
            }
            k += 1;
        }
        proof {
            assert(sts@.subrange(0, sts@.len() as int) =~= sts@);
        }
        deps.push(targets);
        m += 1;
    }
    proof {
        assert(deps_model(deps@) =~= module_imports(mods@));
    }
    deps
}

fn initializer_ids(mods: &Vec<HirModule>, by_module: &Vec<FunctionId>, Ghost(nf): Ghost<nat>) -> (r: Vec<FunctionId>)
    requires
        by_module@.len() == mods@.len(),
        forall|j: int| 0 <= j < by_module@.len() ==> (#[trigger] by_module@[j]).0 == nf + j,
    ensures
        r@ == init_order(module_imports(mods@), mods@.len()).map_values(|j: int| FunctionId((nf + j) as u32)),
{
    let deps = import_deps(mods);
    let order = initializer_order(&deps);
    let ghost om = order@.map_values(|v: usize| v as int);
    let mut r: Vec<FunctionId> = Vec::new();
    let mut i: usize = 0;
    while i < order.len()
        invariant
            i <= order@.len(),
            om == order@.map_values(|v: usize| v as int),
            by_module@.len() == mods@.len(),
            deps@.len() == mods@.len(),
            forall|j: int| 0 <= j < by_module@.len() ==> (#[trigger] by_module@[j]).0 == nf + j,
            forall|j: int| 0 <= j < order@.len() ==> (#[trigger] order@[j]) < deps@.len(),
            r@ == om.subrange(0, i as int).map_values(|j: int| FunctionId((nf + j) as u32)),
        decreases order.len() - i,
    {
        let id = by_module[order[i]];
        proof {
            assert(om[i as int] == order@[i as int] as int);
            assert(id == FunctionId((nf + om[i as int]) as u32));
        }
        let ghost r0 = r@;
        r.push(id);
        proof {
            assert(r@ =~= om.subrange(0, i + 1).map_values(|j: int| FunctionId((nf + j) as u32)));
        }
        i += 1;
    }
    proof {
        assert(om.subrange(0, om.len() as int) =~= om);
    }
    r
}

fn collect_hosts(mods: &Vec<HirModule>) -> (r: Vec<EirHostFunction>)
    ensures
        r@.map_values(|h: EirHostFunction| host_model(h)) == spec_hosts(mods@),
{
    let (entries, keys) = host_entries_of(mods);
    let order = stable_order_of(&keys);
    let ghost so = stable_order(host_keys(mods@), host_keys(mods@).len());
    proof {
        crate::eir::order::lemma_stable_order(host_keys(mods@), host_keys(mods@).len());
    }
    let mut r: Vec<EirHostFunction> = Vec::new();
    let mut i: usize = 0;
    while i < order.len()
        invariant
            i <= order@.len(),
            order@.len() == keys@.len(),
            keys@ == host_keys(mods@),
            so == stable_order(host_keys(mods@), host_keys(mods@).len()),
            so.len() == order@.len(),
            entries@.len() == keys@.len(),
            entries_model(entries@) == host_entries(mods@),
            forall|j: int| 0 <= j < order@.len() ==> order@[j] as int == #[trigger] so[j],
            forall|j: int| 0 <= j < order@.len() ==> (#[trigger] order@[j]) < keys@.len(),
            forall|j: int| 0 <= j < entries@.len() ==> (#[trigger] entries@[j]).0 < mods@.len() && entries@[j].1 < mods@[entries@[j].0 as int].host_functions@.len(),
            r@.map_values(|h: EirHostFunction| host_model(h)) == so.subrange(0, i as int).map_values(|k: int| host_of(mods@, host_entries(mods@)[k])),
        decreases order.len() - i,
    {
        let (mi, hi) = entries[order[i]];
        proof {
            assert(entries_model(entries@)[order@[i as int] as int] == (mi as int, hi as int));
        }
        let h = &mods[mi].host_functions[hi];
        let item = EirHostFunction {
            id: h.id,
            module: mods[mi].name.clone(),
            name: h.name.clone(),
            signature: copy_signature(&h.signature),
            anchor: h.anchor,
        };
        let ghost r0 = r@;
        r.push(item);
        proof {
            assert(host_model(item) == host_of(mods@, host_entries(mods@)[so[i as int]]));
            assert(r@.map_values(|h: EirHostFunction| host_model(h)) =~= r0.map_values(|h: EirHostFunction| host_model(h)).push(host_model(item)));
            assert(so.subrange(0, i + 1).map_values(|k: int| host_of(mods@, host_entries(mods@)[k])) =~= so.subrange(0, i as int).map_values(|k: int| host_of(mods@, host_entries(mods@)[k])).push(host_of(mods@, host_entries(mods@)[so[i as int]])));
        }
        i += 1;
    }
    proof {
        crate::eir::order::lemma_stable_order(host_keys(mods@), host_keys(mods@).len());
        assert(so.subrange(0, so.len() as int) =~= so);
    }
    r
}

fn symbol_text(names: &Vec<String>, index: u32) -> (r: String)
    ensures
        r@ == symbol_name(names@, index as int),
{
    let i = index as usize;
    if i < names.len() {
        names[i].clone()
    } else {
        String::new()
    }
}

fn struct_layout(hir: &HirProgram, st: &HirStruct) -> (r: EirStruct)
    ensures
        struct_model(r) == (StructModel {
            id: st.id,
            name: symbol_name(hir.symbols.structs@, st.id.0 as int),
            fields: st.fields@.map_values(|f: crate::hir::HirStructField| (f.id, symbol_name(hir.symbols.fields@, f.id.0 as int), f.ty)),
        }),
{
    let mut fields: Vec<EirStructField> = Vec::new();
    let mut k: usize = 0;
    while k < st.fields.len()
        invariant
            k <= st.fields@.len(),
            fields@.map_values(|f: EirStructField| (f.id, f.name@, f.ty))
                == st.fields@.subrange(0, k as int).map_values(|f: crate::hir::HirStructField| (f.id, symbol_name(hir.symbols.fields@, f.id.0 as int), f.ty)),
        decreases st.fields.len() - k,
    {
        let f = &st.fields[k];
        let ghost f0 = fields@;
        let item = EirStructField { id: f.id, name: symbol_text(&hir.symbols.fields, f.id.0), ty: f.ty };
        fields.push(item);
        proof {
            assert(fields@ == f0.push(item));
            assert(fields@.map_values(|f: EirStructField| (f.id, f.name@, f.ty)) =~= f0.map_values(|f: EirStructField| (f.id, f.name@, f.ty)).push((item.id, item.name@, item.ty)));
            assert(st.fields@.subrange(0, k + 1) =~= st.fields@.subrange(0, k as int).push(*f));
            assert(fields@.map_values(|f: EirStructField| (f.id, f.name@, f.ty)) =~= st.fields@.subrange(0, k + 1).map_values(|f: crate::hir::HirStructField| (f.id, symbol_name(hir.symbols.fields@, f.id.0 as int), f.ty)));
        }
        k += 1;
    }
    proof {
        assert(st.fields@.subrange(0, st.fields@.len() as int) =~= st.fields@);
    }
    EirStruct { id: st.id, name: symbol_text(&hir.symbols.structs, st.id.0), fields }
}

fn collect_structs(hir: &HirProgram) -> (r: Vec<EirStruct>)
    ensures
        r@.map_values(|s: EirStruct| struct_model(s)) == spec_structs(*hir),
{
    let ghost mods = hir.modules@;
    let (entries, keys) = struct_entries_of(&hir.modules);
    let order = stable_order_of(&keys);
    let ghost so = stable_order(struct_keys(mods), struct_keys(mods).len());
    proof {
        crate::eir::order::lemma_stable_order(struct_keys(mods), struct_keys(mods).len());
    }
    let mut r: Vec<EirStruct> = Vec::new();
    let mut i: usize = 0;
    while i < order.len()
        invariant
            mods == hir.modules@,
            i <= order@.len(),
            order@.len() == keys@.len(),
            keys@ == struct_keys(mods),
            so == stable_order(struct_keys(mods), struct_keys(mods).len()),
            so.len() == order@.len(),
            entries@.len() == keys@.len(),
            entries_model(entries@) == struct_entries(mods),
            forall|j: int| 0 <= j < order@.len() ==> order@[j] as int == #[trigger] so[j],
            forall|j: int| 0 <= j < order@.len() ==> (#[trigger] order@[j]) < keys@.len(),
            forall|j: int| 0 <= j < entries@.len() ==> (#[trigger] entries@[j]).0 < mods.len() && entries@[j].1 < mods[entries@[j].0 as int].structs@.len(),
            r@.map_values(|s: EirStruct| struct_model(s)) == so.subrange(0, i as int).map_values(|k: int| struct_of(*hir, struct_entries(mods)[k])),
        decreases order.len() - i,
    {
        let (mi, si) = entries[order[i]];
        proof {
            assert(entries_model(entries@)[order@[i as int] as int] == (mi as int, si as int));
        }
        let item = struct_layout(hir, &hir.modules[mi].structs[si]);
        let ghost r0 = r@;
        r.push(item);
        proof {
            assert(struct_model(item) == struct_of(*hir, struct_entries(mods)[so[i as int]]));
            assert(r@.map_values(|s: EirStruct| struct_model(s)) =~= r0.map_values(|s: EirStruct| struct_model(s)).push(struct_model(item)));
            assert(so.subrange(0, i + 1).map_values(|k: int| struct_of(*hir, struct_entries(mods)[k])) =~= so.subrange(0, i as int).map_values(|k: int| struct_of(*hir, struct_entries(mods)[k])).push(struct_of(*hir, struct_entries(mods)[so[i as int]])));
        }
        i += 1;
    }
    proof {
        crate::eir::order::lemma_stable_order(struct_keys(mods), struct_keys(mods).len());
        assert(so.subrange(0, so.len() as int) =~= so);
    }
    r
}

fn copy_strings(v: &Vec<String>) -> (r: Vec<String>)
    ensures
        r@.map_values(|e: String| e@) == v@.map_values(|e: String| e@),
{
    let mut r: Vec<String> = Vec::new();
    let mut i: usize = 0;
    while i < v.len()
        invariant
            i <= v@.len(),
            r@.len() == i,
            forall|j: int| 0 <= j < i ==> (#[trigger] r@[j])@ == v@[j]@,
        decreases v.len() - i,
    {
        r.push(v[i].clone());
        i += 1;
    }
    proof {
        assert(r@.map_values(|e: String| e@) =~= v@.map_values(|e: String| e@));
    }
    r
}


proof fn lemma_fields_before(structs: Seq<EirStruct>, i: int)
    requires
        0 <= i <= structs.len(),
    ensures
        model_fields_before(structs.map_values(|s: EirStruct| struct_model(s)), i) == fields_before(structs, i),
    decreases i,
{
    if i > 0 {
        lemma_fields_before(structs, i - 1);
        let m = structs.map_values(|s: EirStruct| struct_model(s));
        assert(m[i - 1].fields.len() == structs[i - 1].fields@.len());
    }
}

/// Whether every table of the program fits the `u32` identifier range.
fn program_fits_exec(p: &EirProgram) -> (r: bool)
    ensures
        r == model_fits(program_model(*p)),
        r ==> program_fits(*p),
{
    let ghost m = program_model(*p);
    let limit: u64 = 0x1_0000_0000u64;
    if p.types.len() as u64 > limit || p.structs.len() as u64 > limit || p.host_functions.len() as u64 > limit
        || p.functions.len() as u64 > limit {
        return false;
    }
    let mut total: u64 = 0;
    let mut i: usize = 0;
    while i < p.structs.len()
        invariant
            i <= p.structs@.len(),
            total == fields_before(p.structs@, i as int),
            total <= limit,
            limit == 0x1_0000_0000u64,
        decreases p.structs.len() - i,
    {
        let n = p.structs[i].fields.len() as u64;
        if n > limit - total {
            proof {
                lemma_fields_before(p.structs@, p.structs@.len() as int);
                lemma_fields_before_grows(p.structs@, i + 1, p.structs@.len() as int);
            }
            return false;
        }
        total = total + n;
        i += 1;
    }
    proof {
        lemma_fields_before(p.structs@, p.structs@.len() as int);
    }
    let mut k: usize = 0;
    while k < p.functions.len()
        invariant
            k <= p.functions@.len(),
            m == program_model(*p),
            limit == 0x1_0000_0000u64,
            forall|j: int| 0 <= j < k ==> (#[trigger] p.functions@[j]).blocks@.len() <= u32::MAX + 1 && p.functions@[j].slots@.len() <= u32::MAX + 1,
        decreases p.functions.len() - k,
    {
        if p.functions[k].blocks.len() as u64 > limit || p.functions[k].slots.len() as u64 > limit {
            proof {
                assert(m.functions[k as int] == fn_model(p.functions@[k as int]));
            }
            return false;
        }
        k += 1;
    }
    proof {
        assert forall|j: int| 0 <= j < m.functions.len() implies (#[trigger] m.functions[j]).blocks.len() <= u32::MAX + 1 && m.functions[j].slots.len() <= u32::MAX + 1 by {
            assert(m.functions[j] == fn_model(p.functions@[j]));
        }
    }
    true
}

proof fn lemma_fields_before_grows(structs: Seq<EirStruct>, i: int, j: int)
    requires
        0 <= i <= j <= structs.len(),
    ensures
        fields_before(structs, i) <= fields_before(structs, j),
    decreases j - i,
{
    if i < j {
        lemma_fields_before_grows(structs, i, j - 1);
    }
}

/// Lowers a semantic program to executable IR and verifies it. The result is the
/// lowering that `spec_lower_program` describes, and the verifier accepts it; where
/// lowering itself fails, its error is returned, and where the verifier rejects the
/// lowered program, its findings are, located at the first one.
pub fn lower_program(hir: &HirProgram) -> (r: Result<EirProgram, LowerError>)
    ensures
        match r {
            Ok(p) => spec_lower_program(*hir) == Ok::<ProgramModel, LowerErrorModel>(program_model(p)) && program_ok(p)
                && program_fits(p)
                && p.module_initializers@.len() == hir.modules@.len()
                && forall|i: int| 0 <= i < p.functions@.len() ==> (#[trigger] p.functions@[i]).id == FunctionId(i as u32),
            Err(e) => match spec_lower_program(*hir) {
                Err(x) => e@ == x,
                Ok(m) => e@.kind matches LowerErrorKindModel::Verification(es) && es.len() > 0 && e@.anchor == es[0].anchor
                    && exists|p: EirProgram| program_model(p) == m && program_fits(p) && !program_ok(p) && es == program_findings(p),
            },
        },
{
    let fallback = program_fallback_anchor(hir);
    let (gids, gtypes) = match collect_globals(&hir.modules) {
        Ok(x) => x,
        Err(e) => return Err(e),
    };
    let (lowered, constants) = match lower_functions(hir, &gids) {
        Ok(x) => x,
        Err(e) => return Err(e),
    };
    let ghost nf = lowered@.len();
    let ghost fs = fns_model(lowered@);
    let ghost start = consts_model(constants@);
    let (functions, constants, by_module) = match lower_initializers(hir, &gids, lowered, constants) {
        Ok(x) => x,
        Err(e) => return Err(e),
    };
    let module_initializers = initializer_ids(&hir.modules, &by_module, Ghost(nf as nat));
    let p = EirProgram {
        types: hir.types.copy(),
        errors: copy_strings(&hir.symbols.errors),
        globals: gtypes,
        structs: collect_structs(hir),
        host_functions: collect_hosts(&hir.modules),
        constants,
        functions,
        module_initializers,
    };
    proof {
        let inits = fns_model(p.functions@).subrange(nf as int, p.functions@.len() as int);
        assert(fns_model(p.functions@) =~= fs + inits);
        assert(program_model(p).functions == fns_model(p.functions@));
    }
    proof {
        crate::eir::order::lemma_init_order_len(module_imports(hir.modules@), hir.modules@.len());
    }
    if !program_fits_exec(&p) {
        return Err(invalid_error(fallback, "program exceeds the u32 EIR ID range"));
    }
    match verify_program(&p) {
        Ok(()) => Ok(p),
        Err(errors) => {
            let anchor = errors[0].anchor;
            proof {
                assert(program_model(p) == program_model(p) && program_fits(p) && !program_ok(p) && errors@ == program_findings(p));
            }
            Err(LowerError { anchor, kind: LowerErrorKind::Verification(errors) })
        },
    }
}

} // verus!
