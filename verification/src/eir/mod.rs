pub mod ids;
pub mod lower;
pub mod order;
pub mod print;
pub mod verify;

use vstd::prelude::*;

use crate::text::{last_segment, last_segment_exec, str_eq};
use crate::hir::{
    Effects, ErrorId, FieldId, FunctionId, HostFunctionId, Signature, SourceAnchor, StructId,
    TypeId, TypeTable,
};

pub use ids::{BlockId, ConstId, EirIdOverflow, GlobalId, SlotId};

verus! {

/// A whole program in executable IR: type table, error names, globals, host
/// declarations, constants, functions and the order of module initializers.
#[derive(Debug, Clone)]
pub struct EirProgram {
    pub types: TypeTable,
    pub errors: Vec<String>,
    pub globals: Vec<TypeId>,
    pub structs: Vec<EirStruct>,
    pub host_functions: Vec<EirHostFunction>,
    pub constants: Vec<Constant>,
    pub functions: Vec<EirFunction>,
    pub module_initializers: Vec<FunctionId>,
}

/// Layout of a struct type: its name and fields, in declaration order.
#[derive(Debug, Clone)]
pub struct EirStruct {
    pub id: StructId,
    pub name: String,
    pub fields: Vec<EirStructField>,
}

#[derive(Debug, Clone)]
pub struct EirStructField {
    pub id: FieldId,
    pub name: String,
    pub ty: TypeId,
}

#[derive(Debug, Clone)]
pub struct EirHostFunction {
    pub id: HostFunctionId,
    pub module: String,
    pub name: String,
    pub signature: Signature,
    pub anchor: SourceAnchor,
}

/// The function a function ID names: the one at that index, when its ID matches.
pub open spec fn spec_function(p: EirProgram, id: FunctionId) -> Option<EirFunction> {
    if (id.0 as int) < p.functions@.len() && p.functions@[id.0 as int].id == id {
        Some(p.functions@[id.0 as int])
    } else {
        None
    }
}

/// The struct layout a struct ID names: the one at that index, when its ID matches.
pub open spec fn spec_struct_def(p: EirProgram, id: StructId) -> Option<EirStruct> {
    if (id.0 as int) < p.structs@.len() && p.structs@[id.0 as int].id == id {
        Some(p.structs@[id.0 as int])
    } else {
        None
    }
}

impl EirProgram {
    pub fn function(&self, id: FunctionId) -> (r: Option<&EirFunction>)
        ensures
            r.is_some() == spec_function(*self, id).is_some(),
            r.is_some() ==> *r.unwrap() == spec_function(*self, id).unwrap(),
    {
        let index = id.index();
        if index < self.functions.len() && self.functions[index].id == id {
            Some(&self.functions[index])
        } else {
            None
        }
    }

    /// The ID of the first error whose name, after its last dot, is `name`.
    pub fn error_id_by_name(&self, name: &str) -> (r: Option<ErrorId>)
        ensures
            match r {
                Some(id) => (id.0 as int) < self.errors@.len() && last_segment(self.errors@[id.0 as int]@) == name@
                    && forall|j: int| 0 <= j < id.0 ==> last_segment(#[trigger] self.errors@[j]@) != name@,
                None => forall|j: int| 0 <= j < self.errors@.len() && j <= u32::MAX ==> last_segment(#[trigger] self.errors@[j]@) != name@,
            },
    {
        let mut i: usize = 0;
        while i < self.errors.len()
            invariant
                i <= self.errors@.len(),
                forall|j: int| 0 <= j < i && j <= u32::MAX ==> last_segment(#[trigger] self.errors@[j]@) != name@,
            decreases self.errors.len() - i,
        {
            let short = last_segment_exec(self.errors[i].as_str());
            if i <= 0xffff_ffffusize && str_eq(short.as_str(), name) {
                return Some(ErrorId(i as u32));
            }
            i += 1;
        }
        None
    }

    pub fn struct_def(&self, id: StructId) -> (r: Option<&EirStruct>)
        ensures
            r.is_some() == spec_struct_def(*self, id).is_some(),
            r.is_some() ==> *r.unwrap() == spec_struct_def(*self, id).unwrap(),
    {
        let index = id.index();
        if index < self.structs.len() && self.structs[index].id == id {
            Some(&self.structs[index])
        } else {
            None
        }
    }
}

/// A constant. A number keeps two renderings of its value: as Rust source (`1.0`),
/// which generated code uses, and as display text (`1`), which listings use.
#[derive(Debug, Clone)]
pub enum Constant {
    Bool(bool),
    Num(String, String),
    Str(String),
}

/// The primitive type of a constant.
pub open spec fn spec_constant_ty(c: Constant) -> TypeId {
    match c {
        Constant::Bool(_) => TypeId(2),
        Constant::Num(..) => TypeId(3),
        Constant::Str(_) => TypeId(4),
    }
}

impl Constant {
    pub fn ty(&self) -> (t: TypeId)
        ensures
            t == spec_constant_ty(*self),
    {
        match self {
            Constant::Bool(_) => TypeId(2),
            Constant::Num(..) => TypeId(3),
            Constant::Str(_) => TypeId(4),
        }
    }
}

/// A function body: typed slots (parameters first) and basic blocks, block 0 the entry.
#[derive(Debug, Clone)]
pub struct EirFunction {
    pub id: FunctionId,
    pub name: String,
    pub signature: Signature,
    pub slots: Vec<TypeId>,
    pub parameter_count: u32,
    pub blocks: Vec<BasicBlock>,
}

impl EirFunction {
    pub fn effects(&self) -> (e: Effects)
        ensures
            e == self.signature.effects,
    {
        self.signature.effects()
    }
}

#[derive(Debug, Clone)]
pub struct BasicBlock {
    pub instructions: Vec<Instruction>,
    pub terminator: Terminator,
}

#[derive(Debug, Clone)]
pub struct Instruction {
    pub kind: InstructionKind,
    pub anchor: SourceAnchor,
}

#[derive(Debug, Clone)]
pub enum InstructionKind {
    Const { dst: SlotId, constant: ConstId },
    Copy { dst: SlotId, src: SlotId },
    Move { dst: SlotId, src: SlotId },
    MoveGlobal { dst: SlotId, global: GlobalId },
    LoadGlobal { dst: SlotId, global: GlobalId },
    StoreGlobal { global: GlobalId, src: SlotId },
    MakeError { dst: SlotId, error: ErrorId },
    MakeFunction { dst: SlotId, function: FunctionId },
    MakeHostFunction { dst: SlotId, function: HostFunctionId },
    IsError { dst: SlotId, value: SlotId },
    ErrorMatches { dst: SlotId, value: SlotId, error: ErrorId },
    IsTruthy { dst: SlotId, value: SlotId },
    Check { condition: SlotId, message: Option<ConstId> },
    MakeAddress { dst: SlotId },
    MakeRef { dst: SlotId, value: SlotId },
    Deref { dst: SlotId, address: SlotId },
    StoreDeref { address: SlotId, src: SlotId },
    MakeList { dst: SlotId, items: Vec<SlotId> },
    MakeMap { dst: SlotId, entries: Vec<(SlotId, SlotId)> },
    ListJoin { dst: SlotId, left: SlotId, right: SlotId },
    ListSlice { dst: SlotId, list: SlotId, start: SlotId, end: SlotId },
    ListReverse { dst: SlotId, list: SlotId },
    MapHas { dst: SlotId, map: SlotId, key: SlotId },
    MapSet { dst: SlotId, map: SlotId, key: SlotId, value: SlotId },
    MapDelete { dst: SlotId, map: SlotId, key: SlotId },
    MakeStruct { dst: SlotId, structure: StructId, fields: Vec<(FieldId, SlotId)> },
    GetField { dst: SlotId, target: SlotId, field: FieldId },
    SetField { target: SlotId, fields: Vec<FieldId>, src: SlotId },
    GetIndex { dst: SlotId, collection: SlotId, key: SlotId },
    Push { collection: SlotId, value: SlotId },
    Len { dst: SlotId, collection: SlotId },
    MakeRange { dst: SlotId, start: SlotId, end: SlotId },
    IterInit { dst: SlotId, iterable: SlotId },
    IterHasNext { dst: SlotId, iterable: SlotId, index: SlotId },
    IterGet { dst: SlotId, iterable: SlotId, index: SlotId },
    AddNum { dst: SlotId, lhs: SlotId, rhs: SlotId },
    ConcatString { dst: SlotId, lhs: SlotId, rhs: SlotId },
    SubNum { dst: SlotId, lhs: SlotId, rhs: SlotId },
    MulNum { dst: SlotId, lhs: SlotId, rhs: SlotId },
    DivNum { dst: SlotId, lhs: SlotId, rhs: SlotId },
    EqNum { dst: SlotId, lhs: SlotId, rhs: SlotId },
    EqString { dst: SlotId, lhs: SlotId, rhs: SlotId },
    EqBool { dst: SlotId, lhs: SlotId, rhs: SlotId },
    NeNum { dst: SlotId, lhs: SlotId, rhs: SlotId },
    NeString { dst: SlotId, lhs: SlotId, rhs: SlotId },
    NeBool { dst: SlotId, lhs: SlotId, rhs: SlotId },
    GtNum { dst: SlotId, lhs: SlotId, rhs: SlotId },
    LtNum { dst: SlotId, lhs: SlotId, rhs: SlotId },
    GeNum { dst: SlotId, lhs: SlotId, rhs: SlotId },
    LeNum { dst: SlotId, lhs: SlotId, rhs: SlotId },
    CallDirect { dst: Option<SlotId>, function: FunctionId, args: Vec<SlotId> },
    CallHost { dst: Option<SlotId>, function: HostFunctionId, args: Vec<SlotId> },
    CallIndirect { dst: Option<SlotId>, callee: SlotId, args: Vec<SlotId> },
    MakePipe { dst: SlotId, capacity: Option<usize> },
    Give { channel: SlotId, value: SlotId },
    Take { dst: SlotId, channel: SlotId },
    Close { channel: SlotId },
    Rest,
    Spawn { function: FunctionId, args: Vec<SlotId> },
}

/// The pairs of a map literal, key then value, flattened.
pub open spec fn flatten_pairs(s: Seq<(SlotId, SlotId)>) -> Seq<SlotId>
    decreases s.len(),
{
    if s.len() == 0 {
        Seq::empty()
    } else {
        flatten_pairs(s.drop_last()) + seq![s.last().0, s.last().1]
    }
}

proof fn lemma_flatten_pairs_push(s: Seq<(SlotId, SlotId)>, p: (SlotId, SlotId))
    ensures
        flatten_pairs(s.push(p)) == flatten_pairs(s) + seq![p.0, p.1],
{
    assert(s.push(p).drop_last() =~= s);
}

impl InstructionKind {
    /// The slot an instruction writes, if any.
    pub open spec fn spec_destination(&self) -> Option<SlotId> {
        match self {
            InstructionKind::Const { dst, .. }
            | InstructionKind::Copy { dst, .. }
            | InstructionKind::Move { dst, .. }
            | InstructionKind::MoveGlobal { dst, .. }
            | InstructionKind::LoadGlobal { dst, .. }
            | InstructionKind::MakeError { dst, .. }
            | InstructionKind::MakeFunction { dst, .. }
            | InstructionKind::MakeHostFunction { dst, .. }
            | InstructionKind::IsError { dst, .. }
            | InstructionKind::ErrorMatches { dst, .. }
            | InstructionKind::IsTruthy { dst, .. }
            | InstructionKind::MakeAddress { dst, .. }
            | InstructionKind::MakeRef { dst, .. }
            | InstructionKind::Deref { dst, .. }
            | InstructionKind::MakeList { dst, .. }
            | InstructionKind::MakeMap { dst, .. }
            | InstructionKind::ListJoin { dst, .. }
            | InstructionKind::ListSlice { dst, .. }
            | InstructionKind::ListReverse { dst, .. }
            | InstructionKind::MapHas { dst, .. }
            | InstructionKind::MapSet { dst, .. }
            | InstructionKind::MapDelete { dst, .. }
            | InstructionKind::MakeStruct { dst, .. }
            | InstructionKind::GetField { dst, .. }
            | InstructionKind::GetIndex { dst, .. }
            | InstructionKind::Len { dst, .. }
            | InstructionKind::MakeRange { dst, .. }
            | InstructionKind::IterInit { dst, .. }
            | InstructionKind::IterHasNext { dst, .. }
            | InstructionKind::IterGet { dst, .. }
            | InstructionKind::AddNum { dst, .. }
            | InstructionKind::ConcatString { dst, .. }
            | InstructionKind::SubNum { dst, .. }
            | InstructionKind::MulNum { dst, .. }
            | InstructionKind::DivNum { dst, .. }
            | InstructionKind::EqNum { dst, .. }
            | InstructionKind::EqString { dst, .. }
            | InstructionKind::EqBool { dst, .. }
            | InstructionKind::NeNum { dst, .. }
            | InstructionKind::NeString { dst, .. }
            | InstructionKind::NeBool { dst, .. }
            | InstructionKind::GtNum { dst, .. }
            | InstructionKind::LtNum { dst, .. }
            | InstructionKind::GeNum { dst, .. }
            | InstructionKind::LeNum { dst, .. }
            | InstructionKind::MakePipe { dst, .. }
            | InstructionKind::Take { dst, .. } => Some(*dst),
            InstructionKind::CallDirect { dst, .. }
            | InstructionKind::CallHost { dst, .. }
            | InstructionKind::CallIndirect { dst, .. } => *dst,
            _ => None,
        }
    }

    pub fn destination(&self) -> (d: Option<SlotId>)
        ensures
            d == self.spec_destination(),
    {
        match self {
            InstructionKind::Const { dst, .. }
            | InstructionKind::Copy { dst, .. }
            | InstructionKind::Move { dst, .. }
            | InstructionKind::MoveGlobal { dst, .. }
            | InstructionKind::LoadGlobal { dst, .. }
            | InstructionKind::MakeError { dst, .. }
            | InstructionKind::MakeFunction { dst, .. }
            | InstructionKind::MakeHostFunction { dst, .. }
            | InstructionKind::IsError { dst, .. }
            | InstructionKind::ErrorMatches { dst, .. }
            | InstructionKind::IsTruthy { dst, .. }
            | InstructionKind::MakeAddress { dst, .. }
            | InstructionKind::MakeRef { dst, .. }
            | InstructionKind::Deref { dst, .. }
            | InstructionKind::MakeList { dst, .. }
            | InstructionKind::MakeMap { dst, .. }
            | InstructionKind::ListJoin { dst, .. }
            | InstructionKind::ListSlice { dst, .. }
            | InstructionKind::ListReverse { dst, .. }
            | InstructionKind::MapHas { dst, .. }
            | InstructionKind::MapSet { dst, .. }
            | InstructionKind::MapDelete { dst, .. }
            | InstructionKind::MakeStruct { dst, .. }
            | InstructionKind::GetField { dst, .. }
            | InstructionKind::GetIndex { dst, .. }
            | InstructionKind::Len { dst, .. }
            | InstructionKind::MakeRange { dst, .. }
            | InstructionKind::IterInit { dst, .. }
            | InstructionKind::IterHasNext { dst, .. }
            | InstructionKind::IterGet { dst, .. }
            | InstructionKind::AddNum { dst, .. }
            | InstructionKind::ConcatString { dst, .. }
            | InstructionKind::SubNum { dst, .. }
            | InstructionKind::MulNum { dst, .. }
            | InstructionKind::DivNum { dst, .. }
            | InstructionKind::EqNum { dst, .. }
            | InstructionKind::EqString { dst, .. }
            | InstructionKind::EqBool { dst, .. }
            | InstructionKind::NeNum { dst, .. }
            | InstructionKind::NeString { dst, .. }
            | InstructionKind::NeBool { dst, .. }
            | InstructionKind::GtNum { dst, .. }
            | InstructionKind::LtNum { dst, .. }
            | InstructionKind::GeNum { dst, .. }
            | InstructionKind::LeNum { dst, .. }
            | InstructionKind::MakePipe { dst, .. }
            | InstructionKind::Take { dst, .. } => Some(*dst),
            InstructionKind::CallDirect { dst, .. }
            | InstructionKind::CallHost { dst, .. }
            | InstructionKind::CallIndirect { dst, .. } => *dst,
            _ => None,
        }
    }

    /// The slots an instruction reads, in operand order.
    pub open spec fn spec_read_slots(&self) -> Seq<SlotId> {
        match self {
            InstructionKind::Const { .. } => Seq::empty(),
            InstructionKind::Copy { src, .. } => seq![*src],
            InstructionKind::Move { src, .. } => seq![*src],
            InstructionKind::MoveGlobal { .. } => Seq::empty(),
            InstructionKind::LoadGlobal { .. } => Seq::empty(),
            InstructionKind::StoreGlobal { src, .. } => seq![*src],
            InstructionKind::MakeError { .. } => Seq::empty(),
            InstructionKind::MakeFunction { .. } => Seq::empty(),
            InstructionKind::MakeHostFunction { .. } => Seq::empty(),
            InstructionKind::IsError { value, .. } => seq![*value],
            InstructionKind::ErrorMatches { value, .. } => seq![*value],
            InstructionKind::IsTruthy { value, .. } => seq![*value],
            InstructionKind::Check { condition, .. } => seq![*condition],
            InstructionKind::MakeAddress { .. } => Seq::empty(),
            InstructionKind::MakeRef { value, .. } => seq![*value],
            InstructionKind::Deref { address, .. } => seq![*address],
            InstructionKind::StoreDeref { address, src, .. } => seq![*address, *src],
            InstructionKind::ListJoin { left, right, .. } => seq![*left, *right],
            InstructionKind::ListSlice { list, start, end, .. } => seq![*list, *start, *end],
            InstructionKind::ListReverse { list, .. } => seq![*list],
            InstructionKind::MapHas { map, key, .. } => seq![*map, *key],
            InstructionKind::MapSet { map, key, value, .. } => seq![*map, *key, *value],
            InstructionKind::MapDelete { map, key, .. } => seq![*map, *key],
            InstructionKind::GetField { target, .. } => seq![*target],
            InstructionKind::SetField { target, src, .. } => seq![*target, *src],
            InstructionKind::GetIndex { collection, key, .. } => seq![*collection, *key],
            InstructionKind::Push { collection, value, .. } => seq![*collection, *value],
            InstructionKind::Len { collection, .. } => seq![*collection],
            InstructionKind::MakeRange { start, end, .. } => seq![*start, *end],
            InstructionKind::IterInit { iterable, .. } => seq![*iterable],
            InstructionKind::IterHasNext { iterable, index, .. } => seq![*iterable, *index],
            InstructionKind::IterGet { iterable, index, .. } => seq![*iterable, *index],
            InstructionKind::AddNum { lhs, rhs, .. } => seq![*lhs, *rhs],
            InstructionKind::ConcatString { lhs, rhs, .. } => seq![*lhs, *rhs],
            InstructionKind::SubNum { lhs, rhs, .. } => seq![*lhs, *rhs],
            InstructionKind::MulNum { lhs, rhs, .. } => seq![*lhs, *rhs],
            InstructionKind::DivNum { lhs, rhs, .. } => seq![*lhs, *rhs],
            InstructionKind::EqNum { lhs, rhs, .. } => seq![*lhs, *rhs],
            InstructionKind::EqString { lhs, rhs, .. } => seq![*lhs, *rhs],
            InstructionKind::EqBool { lhs, rhs, .. } => seq![*lhs, *rhs],
            InstructionKind::NeNum { lhs, rhs, .. } => seq![*lhs, *rhs],
            InstructionKind::NeString { lhs, rhs, .. } => seq![*lhs, *rhs],
            InstructionKind::NeBool { lhs, rhs, .. } => seq![*lhs, *rhs],
            InstructionKind::GtNum { lhs, rhs, .. } => seq![*lhs, *rhs],
            InstructionKind::LtNum { lhs, rhs, .. } => seq![*lhs, *rhs],
            InstructionKind::GeNum { lhs, rhs, .. } => seq![*lhs, *rhs],
            InstructionKind::LeNum { lhs, rhs, .. } => seq![*lhs, *rhs],
            InstructionKind::MakePipe { .. } => Seq::empty(),
            InstructionKind::Give { channel, value, .. } => seq![*channel, *value],
            InstructionKind::Take { channel, .. } => seq![*channel],
            InstructionKind::Close { channel, .. } => seq![*channel],
            InstructionKind::Rest => Seq::empty(),
            InstructionKind::MakeList { items, .. } => items@,
            InstructionKind::MakeMap { entries, .. } => flatten_pairs(entries@),
            InstructionKind::MakeStruct { fields, .. } => fields@.map_values(|f: (FieldId, SlotId)| f.1),
            InstructionKind::CallDirect { args, .. } => args@,
            InstructionKind::CallHost { args, .. } => args@,
            InstructionKind::Spawn { args, .. } => args@,
            InstructionKind::CallIndirect { callee, args, .. } => seq![*callee] + args@,
        }
    }

    pub fn read_slots(&self) -> (r: Vec<SlotId>)
        ensures
            r@ == self.spec_read_slots(),
    {
        match self {
            InstructionKind::Const { .. } => {
                let r: Vec<SlotId> = Vec::new();
                assert(r@ =~= Seq::<SlotId>::empty());
                r
            },
            InstructionKind::Copy { src, .. } => {
                let mut r: Vec<SlotId> = Vec::new();
                r.push(*src);
                proof {
                    assert(r@ =~= seq![*src]);
                }
                r
            },
            InstructionKind::Move { src, .. } => {
                let mut r: Vec<SlotId> = Vec::new();
                r.push(*src);
                proof {
                    assert(r@ =~= seq![*src]);
                }
                r
            },
            InstructionKind::MoveGlobal { .. } => {
                let r: Vec<SlotId> = Vec::new();
                assert(r@ =~= Seq::<SlotId>::empty());
                r
            },
            InstructionKind::LoadGlobal { .. } => {
                let r: Vec<SlotId> = Vec::new();
                assert(r@ =~= Seq::<SlotId>::empty());
                r
            },
            InstructionKind::StoreGlobal { src, .. } => {
                let mut r: Vec<SlotId> = Vec::new();
                r.push(*src);
                proof {
                    assert(r@ =~= seq![*src]);
                }
                r
            },
            InstructionKind::MakeError { .. } => {
                let r: Vec<SlotId> = Vec::new();
                assert(r@ =~= Seq::<SlotId>::empty());
                r
            },
            InstructionKind::MakeFunction { .. } => {
                let r: Vec<SlotId> = Vec::new();
                assert(r@ =~= Seq::<SlotId>::empty());
                r
            },
            InstructionKind::MakeHostFunction { .. } => {
                let r: Vec<SlotId> = Vec::new();
                assert(r@ =~= Seq::<SlotId>::empty());
                r
            },
            InstructionKind::IsError { value, .. } => {
                let mut r: Vec<SlotId> = Vec::new();
                r.push(*value);
                proof {
                    assert(r@ =~= seq![*value]);
                }
                r
            },
            InstructionKind::ErrorMatches { value, .. } => {
                let mut r: Vec<SlotId> = Vec::new();
                r.push(*value);
                proof {
                    assert(r@ =~= seq![*value]);
                }
                r
            },
            InstructionKind::IsTruthy { value, .. } => {
                let mut r: Vec<SlotId> = Vec::new();
                r.push(*value);
                proof {
                    assert(r@ =~= seq![*value]);
                }
                r
            },
            InstructionKind::Check { condition, .. } => {
                let mut r: Vec<SlotId> = Vec::new();
                r.push(*condition);
                proof {
                    assert(r@ =~= seq![*condition]);
                }
                r
            },
            InstructionKind::MakeAddress { .. } => {
                let r: Vec<SlotId> = Vec::new();
                assert(r@ =~= Seq::<SlotId>::empty());
                r
            },
            InstructionKind::MakeRef { value, .. } => {
                let mut r: Vec<SlotId> = Vec::new();
                r.push(*value);
                proof {
                    assert(r@ =~= seq![*value]);
                }
                r
            },
            InstructionKind::Deref { address, .. } => {
                let mut r: Vec<SlotId> = Vec::new();
                r.push(*address);
                proof {
                    assert(r@ =~= seq![*address]);
                }
                r
            },
            InstructionKind::StoreDeref { address, src, .. } => {
                let mut r: Vec<SlotId> = Vec::new();
                r.push(*address);
                r.push(*src);
                proof {
                    assert(r@ =~= seq![*address, *src]);
                }
                r
            },
            InstructionKind::ListJoin { left, right, .. } => {
                let mut r: Vec<SlotId> = Vec::new();
                r.push(*left);
                r.push(*right);
                proof {
                    assert(r@ =~= seq![*left, *right]);
                }
                r
            },
            InstructionKind::ListSlice { list, start, end, .. } => {
                let mut r: Vec<SlotId> = Vec::new();
                r.push(*list);
                r.push(*start);
                r.push(*end);
                proof {
                    assert(r@ =~= seq![*list, *start, *end]);
                }
                r
            },
            InstructionKind::ListReverse { list, .. } => {
                let mut r: Vec<SlotId> = Vec::new();
                r.push(*list);
                proof {
                    assert(r@ =~= seq![*list]);
                }
                r
            },
            InstructionKind::MapHas { map, key, .. } => {
                let mut r: Vec<SlotId> = Vec::new();
                r.push(*map);
                r.push(*key);
                proof {
                    assert(r@ =~= seq![*map, *key]);
                }
                r
            },
            InstructionKind::MapSet { map, key, value, .. } => {
                let mut r: Vec<SlotId> = Vec::new();
                r.push(*map);
                r.push(*key);
                r.push(*value);
                proof {
                    assert(r@ =~= seq![*map, *key, *value]);
                }
                r
            },
            InstructionKind::MapDelete { map, key, .. } => {
                let mut r: Vec<SlotId> = Vec::new();
                r.push(*map);
                r.push(*key);
                proof {
                    assert(r@ =~= seq![*map, *key]);
                }
                r
            },
            InstructionKind::GetField { target, .. } => {
                let mut r: Vec<SlotId> = Vec::new();
                r.push(*target);
                proof {
                    assert(r@ =~= seq![*target]);
                }
                r
            },
            InstructionKind::SetField { target, src, .. } => {
                let mut r: Vec<SlotId> = Vec::new();
                r.push(*target);
                r.push(*src);
                proof {
                    assert(r@ =~= seq![*target, *src]);
                }
                r
            },
            InstructionKind::GetIndex { collection, key, .. } => {
                let mut r: Vec<SlotId> = Vec::new();
                r.push(*collection);
                r.push(*key);
                proof {
                    assert(r@ =~= seq![*collection, *key]);
                }
                r
            },
            InstructionKind::Push { collection, value, .. } => {
                let mut r: Vec<SlotId> = Vec::new();
                r.push(*collection);
                r.push(*value);
                proof {
                    assert(r@ =~= seq![*collection, *value]);
                }
                r
            },
            InstructionKind::Len { collection, .. } => {
                let mut r: Vec<SlotId> = Vec::new();
                r.push(*collection);
                proof {
                    assert(r@ =~= seq![*collection]);
                }
                r
            },
            InstructionKind::MakeRange { start, end, .. } => {
                let mut r: Vec<SlotId> = Vec::new();
                r.push(*start);
                r.push(*end);
                proof {
                    assert(r@ =~= seq![*start, *end]);
                }
                r
            },
            InstructionKind::IterInit { iterable, .. } => {
                let mut r: Vec<SlotId> = Vec::new();
                r.push(*iterable);
                proof {
                    assert(r@ =~= seq![*iterable]);
                }
                r
            },
            InstructionKind::IterHasNext { iterable, index, .. } => {
                let mut r: Vec<SlotId> = Vec::new();
                r.push(*iterable);
                r.push(*index);
                proof {
                    assert(r@ =~= seq![*iterable, *index]);
                }
                r
            },
            InstructionKind::IterGet { iterable, index, .. } => {
                let mut r: Vec<SlotId> = Vec::new();
                r.push(*iterable);
                r.push(*index);
                proof {
                    assert(r@ =~= seq![*iterable, *index]);
                }
                r
            },
            InstructionKind::AddNum { lhs, rhs, .. } => {
                let mut r: Vec<SlotId> = Vec::new();
                r.push(*lhs);
                r.push(*rhs);
                proof {
                    assert(r@ =~= seq![*lhs, *rhs]);
                }
                r
            },
            InstructionKind::ConcatString { lhs, rhs, .. } => {
                let mut r: Vec<SlotId> = Vec::new();
                r.push(*lhs);
                r.push(*rhs);
                proof {
                    assert(r@ =~= seq![*lhs, *rhs]);
                }
                r
            },
            InstructionKind::SubNum { lhs, rhs, .. } => {
                let mut r: Vec<SlotId> = Vec::new();
                r.push(*lhs);
                r.push(*rhs);
                proof {
                    assert(r@ =~= seq![*lhs, *rhs]);
                }
                r
            },
            InstructionKind::MulNum { lhs, rhs, .. } => {
                let mut r: Vec<SlotId> = Vec::new();
                r.push(*lhs);
                r.push(*rhs);
                proof {
                    assert(r@ =~= seq![*lhs, *rhs]);
                }
                r
            },
            InstructionKind::DivNum { lhs, rhs, .. } => {
                let mut r: Vec<SlotId> = Vec::new();
                r.push(*lhs);
                r.push(*rhs);
                proof {
                    assert(r@ =~= seq![*lhs, *rhs]);
                }
                r
            },
            InstructionKind::EqNum { lhs, rhs, .. } => {
                let mut r: Vec<SlotId> = Vec::new();
                r.push(*lhs);
                r.push(*rhs);
                proof {
                    assert(r@ =~= seq![*lhs, *rhs]);
                }
                r
            },
            InstructionKind::EqString { lhs, rhs, .. } => {
                let mut r: Vec<SlotId> = Vec::new();
                r.push(*lhs);
                r.push(*rhs);
                proof {
                    assert(r@ =~= seq![*lhs, *rhs]);
                }
                r
            },
            InstructionKind::EqBool { lhs, rhs, .. } => {
                let mut r: Vec<SlotId> = Vec::new();
                r.push(*lhs);
                r.push(*rhs);
                proof {
                    assert(r@ =~= seq![*lhs, *rhs]);
                }
                r
            },
            InstructionKind::NeNum { lhs, rhs, .. } => {
                let mut r: Vec<SlotId> = Vec::new();
                r.push(*lhs);
                r.push(*rhs);
                proof {
                    assert(r@ =~= seq![*lhs, *rhs]);
                }
                r
            },
            InstructionKind::NeString { lhs, rhs, .. } => {
                let mut r: Vec<SlotId> = Vec::new();
                r.push(*lhs);
                r.push(*rhs);
                proof {
                    assert(r@ =~= seq![*lhs, *rhs]);
                }
                r
            },
            InstructionKind::NeBool { lhs, rhs, .. } => {
                let mut r: Vec<SlotId> = Vec::new();
                r.push(*lhs);
                r.push(*rhs);
                proof {
                    assert(r@ =~= seq![*lhs, *rhs]);
                }
                r
            },
            InstructionKind::GtNum { lhs, rhs, .. } => {
                let mut r: Vec<SlotId> = Vec::new();
                r.push(*lhs);
                r.push(*rhs);
                proof {
                    assert(r@ =~= seq![*lhs, *rhs]);
                }
                r
            },
            InstructionKind::LtNum { lhs, rhs, .. } => {
                let mut r: Vec<SlotId> = Vec::new();
                r.push(*lhs);
                r.push(*rhs);
                proof {
                    assert(r@ =~= seq![*lhs, *rhs]);
                }
                r
            },
            InstructionKind::GeNum { lhs, rhs, .. } => {
                let mut r: Vec<SlotId> = Vec::new();
                r.push(*lhs);
                r.push(*rhs);
                proof {
                    assert(r@ =~= seq![*lhs, *rhs]);
                }
                r
            },
            InstructionKind::LeNum { lhs, rhs, .. } => {
                let mut r: Vec<SlotId> = Vec::new();
                r.push(*lhs);
                r.push(*rhs);
                proof {
                    assert(r@ =~= seq![*lhs, *rhs]);
                }
                r
            },
            InstructionKind::MakePipe { .. } => {
                let r: Vec<SlotId> = Vec::new();
                assert(r@ =~= Seq::<SlotId>::empty());
                r
            },
            InstructionKind::Give { channel, value, .. } => {
                let mut r: Vec<SlotId> = Vec::new();
                r.push(*channel);
                r.push(*value);
                proof {
                    assert(r@ =~= seq![*channel, *value]);
                }
                r
            },
            InstructionKind::Take { channel, .. } => {
                let mut r: Vec<SlotId> = Vec::new();
                r.push(*channel);
                proof {
                    assert(r@ =~= seq![*channel]);
                }
                r
            },
            InstructionKind::Close { channel, .. } => {
                let mut r: Vec<SlotId> = Vec::new();
                r.push(*channel);
                proof {
                    assert(r@ =~= seq![*channel]);
                }
                r
            },
            InstructionKind::Rest => {
                let r: Vec<SlotId> = Vec::new();
                assert(r@ =~= Seq::<SlotId>::empty());
                r
            },
            InstructionKind::MakeList { items, .. } => items.clone(),
            InstructionKind::MakeMap { entries, .. } => {
                let mut r: Vec<SlotId> = Vec::new();
                let mut i: usize = 0;
                while i < entries.len()
                    invariant
                        i <= entries@.len(),
                        r@ == flatten_pairs(entries@.take(i as int)),
                    decreases entries.len() - i,
                {
                    proof {
                        lemma_flatten_pairs_push(entries@.take(i as int), entries@[i as int]);
                        assert(entries@.take(i as int).push(entries@[i as int]) =~= entries@.take(i + 1));
                    }
                    r.push(entries[i].0);
                    r.push(entries[i].1);
                    i += 1;
                }
                assert(entries@.take(entries@.len() as int) =~= entries@);
                r
            },
            InstructionKind::MakeStruct { fields, .. } => {
                let mut r: Vec<SlotId> = Vec::new();
                let mut i: usize = 0;
                while i < fields.len()
                    invariant
                        i <= fields@.len(),
                        r@ =~= fields@.take(i as int).map_values(|f: (FieldId, SlotId)| f.1),
                    decreases fields.len() - i,
                {
                    r.push(fields[i].1);
                    i += 1;
                }
                assert(fields@.take(fields@.len() as int) =~= fields@);
                r
            },
            InstructionKind::CallDirect { args, .. } => args.clone(),
            InstructionKind::CallHost { args, .. } => args.clone(),
            InstructionKind::Spawn { args, .. } => args.clone(),
            InstructionKind::CallIndirect { callee, args, .. } => {
                let mut r: Vec<SlotId> = Vec::new();
                r.push(*callee);
                let mut i: usize = 0;
                while i < args.len()
                    invariant
                        i <= args@.len(),
                        r@ =~= seq![*callee] + args@.take(i as int),
                    decreases args.len() - i,
                {
                    r.push(args[i]);
                    i += 1;
                }
                assert(args@.take(args@.len() as int) =~= args@);
                r
            },
        }
    }
}

#[derive(Debug, Clone, Copy)]
pub struct Terminator {
    pub kind: TerminatorKind,
    pub anchor: SourceAnchor,
}

#[derive(Debug, Clone, Copy)]
pub enum TerminatorKind {
    Jump(BlockId),
    Branch { condition: SlotId, then_block: BlockId, else_block: BlockId },
    Return(Option<SlotId>),
    Throw(SlotId),
    Unreachable,
}

} // verus!
