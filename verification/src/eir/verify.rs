use vstd::prelude::*;

use crate::hir::{
    Effects, FieldId, FunctionId, HostFunctionId, SemType, SemTypeModel, Signature, SourceAnchor,
    SourceId, StructId, TypeId,
};

use super::{
    spec_constant_ty, spec_function, BlockId, ConstId, Constant, EirFunction, EirProgram,
    GlobalId, Instruction, InstructionKind, SlotId, Terminator, TerminatorKind,
};

use crate::graph::{
    count_true, le_bools, lemma_count_true_bound, lemma_count_true_le, lemma_count_true_set,
    lemma_count_true_zero, marked_set,
};

verus! {

/// A verifier finding, with the function, block and instruction (none for a terminator) it is about.
#[derive(Debug, Clone, Copy, PartialEq, Eq, Structural)]
pub struct VerifyError {
    pub function: FunctionId,
    pub block: BlockId,
    pub instruction: Option<usize>,
    pub anchor: SourceAnchor,
    pub kind: VerifyErrorKind,
}

#[derive(Debug, Clone, Copy, PartialEq, Eq, Structural)]
pub enum VerifyErrorKind {
    InvalidFunction(FunctionId),
    InvalidHostFunction(HostFunctionId),
    InvalidStruct(StructId),
    StructOrder { expected: StructId, actual: StructId },
    FieldOrder { expected: FieldId, actual: FieldId },
    InvalidFieldType { field: FieldId, ty: TypeId },
    InvalidBlock(BlockId),
    InvalidSlot(SlotId),
    InvalidType(TypeId),
    InvalidConstant(ConstId),
    InvalidGlobal(GlobalId),
    InvalidAggregateOperand(SlotId),
    FunctionOrder { expected: FunctionId, actual: FunctionId },
    EmptyFunction,
    ParameterCount { signature: usize, declared: u32, slots: usize },
    SlotType { slot: SlotId, expected: TypeId, actual: TypeId },
    ConstantType { slot: SlotId, expected: TypeId, actual: TypeId },
    CallArgumentCount { function: FunctionId, expected: usize, actual: usize },
    MissingCallDestination { function: FunctionId, return_type: TypeId },
    UnexpectedCallDestination { function: FunctionId },
    MissingReturnValue(TypeId),
    UnexpectedReturnValue,
    UninitializedRead(SlotId),
    EffectViolation { callee: FunctionId },
    ThrowWithoutEffect,
    InvalidInitializer(FunctionId),
}

/// Where the findings of one check are reported.
#[derive(Clone, Copy)]
pub struct Loc {
    pub function: FunctionId,
    pub block: BlockId,
    pub instruction: Option<usize>,
    pub anchor: SourceAnchor,
}

fn at(loc: Loc, kind: VerifyErrorKind) -> (e: VerifyError)
    ensures
        located(e, loc),
        e.kind == kind,
        e == finding(loc, kind),
{
    VerifyError {
        function: loc.function,
        block: loc.block,
        instruction: loc.instruction,
        anchor: loc.anchor,
        kind,
    }
}

/// The finding of kind `kind` at `loc`.
pub open spec fn finding(loc: Loc, kind: VerifyErrorKind) -> VerifyError {
    VerifyError { function: loc.function, block: loc.block, instruction: loc.instruction, anchor: loc.anchor, kind }
}

/// The findings on a slot reference: none for a slot of the function, else an invalid slot.
pub open spec fn slot_findings(f: EirFunction, slot: SlotId, loc: Loc) -> Seq<VerifyError> {
    if valid_slot(f, slot) { Seq::empty() } else { seq![finding(loc, VerifyErrorKind::InvalidSlot(slot))] }
}

/// The findings on a slot that must have type `expected`: an invalid slot, or a type
/// mismatch (of a constant, or of an operand), or none.
pub open spec fn type_findings(f: EirFunction, slot: SlotId, expected: TypeId, loc: Loc, constant: bool) -> Seq<VerifyError> {
    if !valid_slot(f, slot) {
        seq![finding(loc, VerifyErrorKind::InvalidSlot(slot))]
    } else if f.slots@[slot.0 as int] != expected {
        let actual = f.slots@[slot.0 as int];
        seq![finding(loc, if constant {
            VerifyErrorKind::ConstantType { slot, expected, actual }
        } else {
            VerifyErrorKind::SlotType { slot, expected, actual }
        })]
    } else {
        Seq::empty()
    }
}

/// The findings on the first `n` arguments of a call against its parameter types, in order.
pub open spec fn args_findings(f: EirFunction, args: Seq<SlotId>, params: Seq<TypeId>, skip_unknown: bool, loc: Loc, n: int) -> Seq<VerifyError>
    decreases n,
{
    if n <= 0 {
        Seq::empty()
    } else {
        args_findings(f, args, params, skip_unknown, loc, n - 1) + if skip_unknown && params[n - 1] == TypeId(0) {
            Seq::empty()
        } else {
            type_findings(f, args[n - 1], params[n - 1], loc, false)
        }
    }
}

/// The findings on a direct call, in the order they are reported: an unknown callee;
/// otherwise a wrong argument count, the argument types, the destination, and the effects.
pub open spec fn direct_call_findings(p: EirProgram, f: EirFunction, dst: Option<SlotId>, callee: FunctionId, args: Seq<SlotId>, loc: Loc) -> Seq<VerifyError> {
    match spec_function(p, callee) {
        None => seq![finding(loc, VerifyErrorKind::InvalidFunction(callee))],
        Some(c) => {
            let params = c.signature.params@;
            let ret = c.signature.return_type;
            let n = if args.len() < params.len() { args.len() as int } else { params.len() as int };
            (if args.len() != params.len() {
                seq![finding(loc, VerifyErrorKind::CallArgumentCount { function: callee, expected: params.len() as usize, actual: args.len() as usize })]
            } else {
                Seq::empty()
            }) + args_findings(f, args, params, false, loc, n) + (match dst {
                Some(d) => type_findings(f, d, ret, loc, false),
                None => if ret != TypeId(1) {
                    seq![finding(loc, VerifyErrorKind::MissingCallDestination { function: callee, return_type: ret })]
                } else {
                    Seq::empty()
                },
            }) + (if effects_allow(f.signature.effects, c.signature.effects) {
                Seq::empty()
            } else {
                seq![finding(loc, VerifyErrorKind::EffectViolation { callee })]
            })
        },
    }
}

/// The findings on a call checked against a signature: the arguments (a parameter of
/// unknown type accepts any), then the destination.
pub open spec fn signature_findings(f: EirFunction, dst: Option<SlotId>, args: Seq<SlotId>, sig: Signature, loc: Loc) -> Seq<VerifyError> {
    let params = sig.params@;
    let n = if args.len() < params.len() { args.len() as int } else { params.len() as int };
    args_findings(f, args, params, true, loc, n) + match dst {
        Some(d) => type_findings(f, d, sig.return_type, loc, false),
        None => Seq::empty(),
    }
}

/// The findings on a host call: an unknown host function, or those of its signature.
pub open spec fn host_call_findings(p: EirProgram, f: EirFunction, dst: Option<SlotId>, callee: HostFunctionId, args: Seq<SlotId>, loc: Loc) -> Seq<VerifyError> {
    if (callee.0 as int) < p.host_functions@.len() {
        signature_findings(f, dst, args, p.host_functions@[callee.0 as int].signature, loc)
    } else {
        seq![finding(loc, VerifyErrorKind::InvalidHostFunction(callee))]
    }
}

/// The findings on a binary operation: both operands, then the destination.
pub open spec fn binary_findings(f: EirFunction, dst: SlotId, lhs: SlotId, rhs: SlotId, operand: TypeId, result: TypeId, loc: Loc) -> Seq<VerifyError> {
    type_findings(f, lhs, operand, loc, false) + type_findings(f, rhs, operand, loc, false) + type_findings(f, dst, result, loc, false)
}

/// The findings on a slot that must be walkable: an invalid slot, then, unless it is a
/// range, a list or a string, a wrong operand.
pub open spec fn iterable_findings(p: EirProgram, f: EirFunction, slot: SlotId, loc: Loc) -> Seq<VerifyError> {
    slot_findings(f, slot, loc) + if iterable_ok(p, f, slot) {
        Seq::empty()
    } else {
        seq![finding(loc, VerifyErrorKind::InvalidAggregateOperand(slot))]
    }
}

/// A finding of a wrong operand at `slot` unless `ok`.
pub open spec fn operand_finding(ok: bool, slot: SlotId, loc: Loc) -> Seq<VerifyError> {
    if ok { Seq::empty() } else { seq![finding(loc, VerifyErrorKind::InvalidAggregateOperand(slot))] }
}

/// The findings on the instructions whose rule is a fixed list of slot checks.
pub open spec fn simple_findings(p: EirProgram, f: EirFunction, k: InstructionKind, loc: Loc) -> Option<Seq<VerifyError>> {
    match k {
        InstructionKind::Const { dst, constant } => Some(match constant_at(p, constant) {
            Some(value) => type_findings(f, dst, spec_constant_ty(value), loc, true),
            None => seq![finding(loc, VerifyErrorKind::InvalidConstant(constant))],
        }),
        InstructionKind::Copy { dst, src } | InstructionKind::Move { dst, src } => Some(
            if valid_slot(f, src) { type_findings(f, dst, f.slots@[src.0 as int], loc, false) } else { slot_findings(f, src, loc) }),
        InstructionKind::LoadGlobal { dst, global } | InstructionKind::MoveGlobal { dst, global } => Some(match global_at(p, global) {
            Some(t) => type_findings(f, dst, t, loc, false),
            None => seq![finding(loc, VerifyErrorKind::InvalidGlobal(global))],
        }),
        InstructionKind::StoreGlobal { global, src } => Some(match global_at(p, global) {
            Some(t) => type_findings(f, src, t, loc, false),
            None => seq![finding(loc, VerifyErrorKind::InvalidGlobal(global))],
        }),
        InstructionKind::IsError { dst, value } | InstructionKind::ErrorMatches { dst, value, .. }
        | InstructionKind::IsTruthy { dst, value } => Some(slot_findings(f, value, loc) + type_findings(f, dst, TypeId(2), loc, false)),
        InstructionKind::Len { dst, collection } => Some(type_findings(f, dst, TypeId(3), loc, false) + slot_findings(f, collection, loc)
            + operand_finding(match slot_sem(p, f, collection) {
                Some(SemTypeModel::Str) | Some(SemTypeModel::Bytes) | Some(SemTypeModel::List(_)) | Some(SemTypeModel::MapOf(_, _)) => true,
                _ => false,
            }, collection, loc)),
        InstructionKind::MakeRange { dst, start, end } => Some(type_findings(f, start, TypeId(3), loc, false)
            + type_findings(f, end, TypeId(3), loc, false) + slot_findings(f, dst, loc)
            + operand_finding(slot_sem(p, f, dst) == Some(SemTypeModel::Range), dst, loc)),
        InstructionKind::IterInit { dst, iterable } => Some(type_findings(f, dst, TypeId(3), loc, false) + iterable_findings(p, f, iterable, loc)),
        InstructionKind::IterHasNext { dst, iterable, index } => Some(type_findings(f, dst, TypeId(2), loc, false)
            + type_findings(f, index, TypeId(3), loc, false) + iterable_findings(p, f, iterable, loc)),
        InstructionKind::MakeAddress { dst } => Some(slot_findings(f, dst, loc)
            + operand_finding(slot_sem(p, f, dst) matches Some(SemTypeModel::Address(_)), dst, loc)),
        InstructionKind::MakePipe { dst, .. } => Some(slot_findings(f, dst, loc)
            + operand_finding(slot_sem(p, f, dst) matches Some(SemTypeModel::Pipe(_)), dst, loc)),
        InstructionKind::Close { channel } => Some(slot_findings(f, channel, loc)
            + operand_finding(slot_sem(p, f, channel) matches Some(SemTypeModel::Pipe(_)), channel, loc)),
        InstructionKind::Rest => Some(Seq::empty()),
        InstructionKind::AddNum { dst, lhs, rhs } | InstructionKind::SubNum { dst, lhs, rhs }
        | InstructionKind::MulNum { dst, lhs, rhs } | InstructionKind::DivNum { dst, lhs, rhs } =>
            Some(binary_findings(f, dst, lhs, rhs, TypeId(3), TypeId(3), loc)),
        InstructionKind::ConcatString { dst, lhs, rhs } => Some(binary_findings(f, dst, lhs, rhs, TypeId(4), TypeId(4), loc)),
        InstructionKind::EqNum { dst, lhs, rhs } | InstructionKind::NeNum { dst, lhs, rhs }
        | InstructionKind::GtNum { dst, lhs, rhs } | InstructionKind::LtNum { dst, lhs, rhs }
        | InstructionKind::GeNum { dst, lhs, rhs } | InstructionKind::LeNum { dst, lhs, rhs } =>
            Some(binary_findings(f, dst, lhs, rhs, TypeId(3), TypeId(2), loc)),
        InstructionKind::EqString { dst, lhs, rhs } | InstructionKind::NeString { dst, lhs, rhs } =>
            Some(binary_findings(f, dst, lhs, rhs, TypeId(4), TypeId(2), loc)),
        InstructionKind::EqBool { dst, lhs, rhs } | InstructionKind::NeBool { dst, lhs, rhs } =>
            Some(binary_findings(f, dst, lhs, rhs, TypeId(2), TypeId(2), loc)),
        InstructionKind::CallDirect { dst, function, args } => Some(direct_call_findings(p, f, dst, function, args@, loc)),
        InstructionKind::CallHost { dst, function, args } => Some(host_call_findings(p, f, dst, function, args@, loc)),
        InstructionKind::Spawn { function, args } => Some(match spec_function(p, function) {
            Some(c) => signature_findings(f, None, args@, c.signature, loc),
            None => seq![finding(loc, VerifyErrorKind::InvalidFunction(function))],
        }),
        _ => None,
    }
}

/// The findings on the first `n` items of a list that must all have type `t`, in order.
pub open spec fn items_findings(f: EirFunction, items: Seq<SlotId>, t: TypeId, loc: Loc, n: int) -> Seq<VerifyError>
    decreases n,
{
    if n <= 0 { Seq::empty() } else { items_findings(f, items, t, loc, n - 1) + type_findings(f, items[n - 1], t, loc, false) }
}

/// The findings on the first `n` entries of a map: each key, then its value.
pub open spec fn entries_findings(f: EirFunction, entries: Seq<(SlotId, SlotId)>, kt: TypeId, vt: TypeId, loc: Loc, n: int) -> Seq<VerifyError>
    decreases n,
{
    if n <= 0 {
        Seq::empty()
    } else {
        entries_findings(f, entries, kt, vt, loc, n - 1) + type_findings(f, entries[n - 1].0, kt, loc, false)
            + type_findings(f, entries[n - 1].1, vt, loc, false)
    }
}

/// The findings on the first `n` field values of a struct: each slot must exist.
pub open spec fn fields_findings(f: EirFunction, fields: Seq<(FieldId, SlotId)>, loc: Loc, n: int) -> Seq<VerifyError>
    decreases n,
{
    if n <= 0 { Seq::empty() } else { fields_findings(f, fields, loc, n - 1) + slot_findings(f, fields[n - 1].1, loc) }
}

/// The findings on a slot that must hold a function value of this signature.
pub open spec fn function_value_findings(p: EirProgram, f: EirFunction, slot: SlotId, sig: Signature, loc: Loc) -> Seq<VerifyError> {
    if !valid_slot(f, slot) {
        slot_findings(f, slot, loc)
    } else {
        operand_finding(function_value_ok(p, f, slot, sig), slot, loc)
    }
}

/// The findings where a slot of a container type is checked: an invalid slot alone, or
/// the findings `inner` when its type has the expected shape, or a wrong operand.
pub open spec fn container_findings(f: EirFunction, slot: SlotId, loc: Loc, inner: Option<Seq<VerifyError>>) -> Seq<VerifyError> {
    if !valid_slot(f, slot) {
        slot_findings(f, slot, loc)
    } else {
        match inner {
            Some(fs) => fs,
            None => seq![finding(loc, VerifyErrorKind::InvalidAggregateOperand(slot))],
        }
    }
}

/// The findings on a list operation whose destination must be a list: an invalid
/// destination; a wrong operand; or the checks of the operands against its type.
pub open spec fn list_op_findings(p: EirProgram, f: EirFunction, dst: SlotId, loc: Loc, checks: spec_fn(TypeId) -> Seq<VerifyError>) -> Seq<VerifyError> {
    if !valid_slot(f, dst) {
        slot_findings(f, dst, loc)
    } else if slot_sem(p, f, dst) matches Some(SemTypeModel::List(_)) {
        checks(f.slots@[dst.0 as int])
    } else {
        seq![finding(loc, VerifyErrorKind::InvalidAggregateOperand(dst))]
    }
}

/// The findings on the instructions whose rule looks at the type of a container or a value.
pub open spec fn shaped_findings(p: EirProgram, f: EirFunction, k: InstructionKind, loc: Loc) -> Option<Seq<VerifyError>> {
    match k {
        InstructionKind::MakeError { dst, error } => Some(if !valid_slot(f, dst) {
            slot_findings(f, dst, loc)
        } else {
            operand_finding(slot_sem(p, f, dst) == Some(SemTypeModel::Error(error)), dst, loc)
        }),
        InstructionKind::MakeFunction { dst, function } => Some(match spec_function(p, function) {
            Some(c) => function_value_findings(p, f, dst, c.signature, loc),
            None => seq![finding(loc, VerifyErrorKind::InvalidFunction(function))],
        }),
        InstructionKind::MakeHostFunction { dst, function } => Some(if (function.0 as int) < p.host_functions@.len() {
            function_value_findings(p, f, dst, p.host_functions@[function.0 as int].signature, loc)
        } else {
            seq![finding(loc, VerifyErrorKind::InvalidHostFunction(function))]
        }),
        InstructionKind::Check { condition, message } => Some(type_findings(f, condition, TypeId(2), loc, false) + (match message {
            Some(m) => if constant_at(p, m) matches Some(Constant::Str(_)) {
                Seq::empty()
            } else {
                seq![finding(loc, VerifyErrorKind::InvalidConstant(m))]
            },
            None => Seq::empty(),
        }) + if f.signature.effects.spec_contains(Effects(2)) { Seq::empty() } else { seq![finding(loc, VerifyErrorKind::ThrowWithoutEffect)] }),
        InstructionKind::MakeRef { dst, value } => Some(container_findings(f, dst, loc, match slot_sem(p, f, dst) {
            Some(SemTypeModel::Address(inner)) => Some(type_findings(f, value, inner, loc, false)),
            _ => None,
        })),
        InstructionKind::Deref { dst, address } => Some(container_findings(f, address, loc, match slot_sem(p, f, address) {
            Some(SemTypeModel::Address(inner)) => Some(type_findings(f, dst, inner, loc, false)),
            _ => None,
        })),
        InstructionKind::StoreDeref { address, src } => Some(container_findings(f, address, loc, match slot_sem(p, f, address) {
            Some(SemTypeModel::Address(inner)) => Some(type_findings(f, src, inner, loc, false)),
            _ => None,
        })),
        InstructionKind::MakeList { dst, items } => Some(container_findings(f, dst, loc, match slot_sem(p, f, dst) {
            Some(SemTypeModel::List(t)) => Some(items_findings(f, items@, t, loc, items@.len() as int)),
            _ => None,
        })),
        InstructionKind::MakeMap { dst, entries } => Some(container_findings(f, dst, loc, match slot_sem(p, f, dst) {
            Some(SemTypeModel::MapOf(kt, vt)) => Some(entries_findings(f, entries@, kt, vt, loc, entries@.len() as int)),
            _ => None,
        })),
        InstructionKind::ListJoin { dst, left, right } => Some(list_op_findings(p, f, dst, loc,
            |t: TypeId| type_findings(f, left, t, loc, false) + type_findings(f, right, t, loc, false))),
        InstructionKind::ListSlice { dst, list, start, end } => Some(list_op_findings(p, f, dst, loc,
            |t: TypeId| type_findings(f, list, t, loc, false) + type_findings(f, start, TypeId(3), loc, false)
                + type_findings(f, end, TypeId(3), loc, false))),
        InstructionKind::ListReverse { dst, list } => Some(list_op_findings(p, f, dst, loc,
            |t: TypeId| type_findings(f, list, t, loc, false))),
        InstructionKind::MapHas { dst, map, key } => Some(type_findings(f, dst, TypeId(2), loc, false)
            + container_findings(f, map, loc, match slot_sem(p, f, map) {
                Some(SemTypeModel::MapOf(kt, _)) => Some(type_findings(f, key, kt, loc, false)),
                _ => None,
            })),
        InstructionKind::MapSet { dst, map, key, value } => Some(if !valid_slot(f, map) {
            slot_findings(f, map, loc)
        } else {
            type_findings(f, dst, f.slots@[map.0 as int], loc, false) + match slot_sem(p, f, map) {
                Some(SemTypeModel::MapOf(kt, vt)) => type_findings(f, key, kt, loc, false) + type_findings(f, value, vt, loc, false),
                _ => seq![finding(loc, VerifyErrorKind::InvalidAggregateOperand(map))],
            }
        }),
        InstructionKind::MapDelete { dst, map, key } => Some(if !valid_slot(f, map) {
            slot_findings(f, map, loc)
        } else {
            type_findings(f, dst, f.slots@[map.0 as int], loc, false) + match slot_sem(p, f, map) {
                Some(SemTypeModel::MapOf(kt, _)) => type_findings(f, key, kt, loc, false),
                _ => seq![finding(loc, VerifyErrorKind::InvalidAggregateOperand(map))],
            }
        }),
        InstructionKind::MakeStruct { dst, structure, fields } => Some(if !valid_slot(f, dst) {
            slot_findings(f, dst, loc)
        } else {
            operand_finding(slot_sem(p, f, dst) == Some(SemTypeModel::Struct(structure)), dst, loc)
                + fields_findings(f, fields@, loc, fields@.len() as int)
        }),
        InstructionKind::GetField { dst, target, .. } => Some(slot_findings(f, target, loc) + slot_findings(f, dst, loc)
            + operand_finding(slot_sem(p, f, target) matches Some(SemTypeModel::Struct(_)), target, loc)),
        InstructionKind::SetField { target, fields, src } => Some(slot_findings(f, target, loc) + slot_findings(f, src, loc)
            + operand_finding(fields@.len() > 0 && slot_sem(p, f, target) matches Some(SemTypeModel::Struct(_)), target, loc)),
        InstructionKind::GetIndex { dst, collection, key } => Some(container_findings(f, collection, loc, match slot_sem(p, f, collection) {
            Some(SemTypeModel::List(t)) => Some(type_findings(f, key, TypeId(3), loc, false) + type_findings(f, dst, t, loc, false)),
            Some(SemTypeModel::MapOf(kt, vt)) => Some(type_findings(f, key, kt, loc, false) + type_findings(f, dst, vt, loc, false)),
            Some(SemTypeModel::Bytes) => Some(type_findings(f, key, TypeId(3), loc, false) + type_findings(f, dst, TypeId(3), loc, false)),
            _ => None,
        })),
        InstructionKind::Push { collection, value } => Some(container_findings(f, collection, loc, match slot_sem(p, f, collection) {
            Some(SemTypeModel::List(t)) => Some(type_findings(f, value, t, loc, false)),
            _ => None,
        })),
        InstructionKind::IterGet { dst, iterable, index } => Some(type_findings(f, index, TypeId(3), loc, false)
            + container_findings(f, iterable, loc, match slot_sem(p, f, iterable) {
                Some(SemTypeModel::Range) => Some(type_findings(f, dst, TypeId(3), loc, false)),
                Some(SemTypeModel::List(t)) => Some(type_findings(f, dst, t, loc, false)),
                Some(SemTypeModel::Str) => Some(type_findings(f, dst, TypeId(4), loc, false)),
                _ => None,
            })),
        InstructionKind::CallIndirect { dst, callee, args } => Some(container_findings(f, callee, loc, match slot_sem(p, f, callee) {
            Some(SemTypeModel::Function { params, return_type }) => {
                let n = if args@.len() < params.len() { args@.len() as int } else { params.len() as int };
                Some(args_findings(f, args@, params, true, loc, n) + match dst {
                    Some(d) => type_findings(f, d, return_type, loc, false),
                    None => Seq::empty(),
                })
            },
            _ => None,
        })),
        InstructionKind::Give { channel, value } => Some(container_findings(f, channel, loc, match slot_sem(p, f, channel) {
            Some(SemTypeModel::Pipe(t)) => Some(type_findings(f, value, t, loc, false)),
            _ => None,
        })),
        InstructionKind::Take { dst, channel } => Some(container_findings(f, channel, loc, match slot_sem(p, f, channel) {
            Some(SemTypeModel::Pipe(t)) => Some(type_findings(f, dst, t, loc, false)),
            _ => None,
        })),
        _ => None,
    }
}

/// Every kind of instruction has its findings stated: by `simple_findings` or by
/// `shaped_findings`, which `verify_instruction` reports exactly.
pub proof fn lemma_every_instruction_kind_has_findings(p: EirProgram, f: EirFunction, k: InstructionKind, loc: Loc)
    ensures
        simple_findings(p, f, k, loc) is Some || shaped_findings(p, f, k, loc) is Some,
{
    match k {
        InstructionKind::MakeError { .. } | InstructionKind::MakeFunction { .. } | InstructionKind::MakeHostFunction { .. }
        | InstructionKind::Check { .. } | InstructionKind::MakeRef { .. } | InstructionKind::Deref { .. }
        | InstructionKind::StoreDeref { .. } | InstructionKind::MakeList { .. } | InstructionKind::MakeMap { .. }
        | InstructionKind::ListJoin { .. } | InstructionKind::ListSlice { .. } | InstructionKind::ListReverse { .. }
        | InstructionKind::MapHas { .. } | InstructionKind::MapSet { .. } | InstructionKind::MapDelete { .. }
        | InstructionKind::MakeStruct { .. } | InstructionKind::GetField { .. } | InstructionKind::SetField { .. }
        | InstructionKind::GetIndex { .. } | InstructionKind::Push { .. } | InstructionKind::IterGet { .. }
        | InstructionKind::CallIndirect { .. } | InstructionKind::Give { .. } | InstructionKind::Take { .. } => {
            assert(shaped_findings(p, f, k, loc) is Some);
        },
        _ => {
            assert(simple_findings(p, f, k, loc) is Some);
        },
    }
}

/// The finding on a block target: none for a block of the function, else an invalid block.
pub open spec fn block_findings(f: EirFunction, block: BlockId, loc: Loc) -> Seq<VerifyError> {
    if (block.0 as int) < f.blocks@.len() { Seq::empty() } else { seq![finding(loc, VerifyErrorKind::InvalidBlock(block))] }
}

/// The findings on a block terminator, in the order they are reported.
pub open spec fn terminator_findings(p: EirProgram, f: EirFunction, t: TerminatorKind, loc: Loc) -> Seq<VerifyError> {
    match t {
        TerminatorKind::Jump(target) => block_findings(f, target, loc),
        TerminatorKind::Branch { condition, then_block, else_block } => type_findings(f, condition, TypeId(2), loc, false)
            + block_findings(f, then_block, loc) + block_findings(f, else_block, loc),
        TerminatorKind::Return(value) => {
            let expected = f.signature.return_type;
            match value {
                None => if expected != TypeId(1) {
                    seq![finding(loc, VerifyErrorKind::MissingReturnValue(expected))]
                } else {
                    Seq::empty()
                },
                Some(slot) => if expected == TypeId(1) {
                    seq![finding(loc, VerifyErrorKind::UnexpectedReturnValue)]
                } else if !valid_slot(f, slot) {
                    slot_findings(f, slot, loc)
                } else {
                    let actual = f.slots@[slot.0 as int];
                    let declared_error = f.signature.effects.spec_contains(Effects(2)) && (type_of(p, actual) matches Some(SemTypeModel::Error(_)));
                    if actual != expected && !declared_error {
                        seq![finding(loc, VerifyErrorKind::SlotType { slot, expected, actual })]
                    } else {
                        Seq::empty()
                    }
                },
            }
        },
        TerminatorKind::Throw(slot) => slot_findings(f, slot, loc) + if f.signature.effects.spec_contains(Effects(2)) {
            Seq::empty()
        } else {
            seq![finding(loc, VerifyErrorKind::ThrowWithoutEffect)]
        },
        TerminatorKind::Unreachable => Seq::empty(),
    }
}

pub open spec fn located(e: VerifyError, loc: Loc) -> bool {
    &&& e.function == loc.function
    &&& e.block == loc.block
    &&& e.instruction == loc.instruction
    &&& e.anchor == loc.anchor
}

/// `new` is `old` followed by findings located at `loc`.
pub open spec fn grows_at(old: Seq<VerifyError>, new: Seq<VerifyError>, loc: Loc) -> bool {
    &&& old.len() <= new.len()
    &&& new.subrange(0, old.len() as int) == old
    &&& forall|i: int| old.len() <= i < new.len() ==> located(#[trigger] new[i], loc)
}

/// `new` is `old` followed by further findings.
pub open spec fn grows(old: Seq<VerifyError>, new: Seq<VerifyError>) -> bool {
    &&& old.len() <= new.len()
    &&& new.subrange(0, old.len() as int) == old
}

broadcast proof fn lemma_grows_at_trans(a: Seq<VerifyError>, b: Seq<VerifyError>, c: Seq<VerifyError>, loc: Loc)
    requires
        #[trigger] grows_at(a, b, loc),
        #[trigger] grows_at(b, c, loc),
    ensures
        grows_at(a, c, loc),
{
    assert(c.subrange(0, a.len() as int) =~= c.subrange(0, b.len() as int).subrange(0, a.len() as int));
    assert forall|i: int| a.len() <= i < c.len() implies located(#[trigger] c[i], loc) by {
        if i < b.len() {
            assert(c[i] == c.subrange(0, b.len() as int)[i]);
        }
    }
}

proof fn lemma_grows_refl(s: Seq<VerifyError>)
    ensures
        grows(s, s),
{
    assert(s.subrange(0, s.len() as int) =~= s);
}

proof fn lemma_grows_trans(a: Seq<VerifyError>, b: Seq<VerifyError>, c: Seq<VerifyError>)
    requires
        grows(a, b),
        grows(b, c),
    ensures
        grows(a, c),
{
    assert(c.subrange(0, a.len() as int) =~= c.subrange(0, b.len() as int).subrange(0, a.len() as int));
}

// ---------------------------------------------------------------------------
// Typing rules

pub open spec fn valid_slot(f: EirFunction, s: SlotId) -> bool {
    (s.0 as int) < f.slots@.len()
}

/// The slot exists and has type `t`.
pub open spec fn has_ty(f: EirFunction, s: SlotId, t: TypeId) -> bool {
    valid_slot(f, s) && f.slots@[s.0 as int] == t
}

/// The type a type ID names in the program's table.
pub open spec fn type_of(p: EirProgram, t: TypeId) -> Option<SemTypeModel> {
    if (t.0 as int) < p.types@.len() {
        Some(p.types@[t.0 as int])
    } else {
        None
    }
}

/// The semantic type of a slot, when the slot exists and its type is in the table.
pub open spec fn slot_sem(p: EirProgram, f: EirFunction, s: SlotId) -> Option<SemTypeModel> {
    if valid_slot(f, s) {
        type_of(p, f.slots@[s.0 as int])
    } else {
        None
    }
}

pub open spec fn constant_at(p: EirProgram, c: ConstId) -> Option<Constant> {
    if (c.0 as int) < p.constants@.len() {
        Some(p.constants@[c.0 as int])
    } else {
        None
    }
}

pub open spec fn global_at(p: EirProgram, g: GlobalId) -> Option<TypeId> {
    if (g.0 as int) < p.globals@.len() {
        Some(p.globals@[g.0 as int])
    } else {
        None
    }
}

/// The slot's type is a struct, in a table the program has.
pub open spec fn is_struct_slot(p: EirProgram, f: EirFunction, s: SlotId) -> bool {
    slot_sem(p, f, s) matches Some(SemTypeModel::Struct(_))
}

/// The slot holds something a `loop ... in` can walk: a range, a list or a string.
pub open spec fn iterable_ok(p: EirProgram, f: EirFunction, s: SlotId) -> bool {
    match slot_sem(p, f, s) {
        Some(SemTypeModel::Range) | Some(SemTypeModel::List(_)) | Some(SemTypeModel::Str) => true,
        _ => false,
    }
}

/// The slot holds a function value with exactly this signature's parameter and return types.
pub open spec fn function_value_ok(p: EirProgram, f: EirFunction, s: SlotId, sig: Signature) -> bool {
    slot_sem(p, f, s) == Some(SemTypeModel::Function { params: sig.params@, return_type: sig.return_type })
}

/// Every argument with a counterpart parameter has that parameter's type; with
/// `skip_unknown`, parameters of unknown type accept anything.
pub open spec fn args_ok(f: EirFunction, args: Seq<SlotId>, params: Seq<TypeId>, skip_unknown: bool) -> bool {
    forall|i: int|
        0 <= i < args.len() && i < params.len() ==> (skip_unknown && params[i] == TypeId(0)) || has_ty(
            f,
            #[trigger] args[i],
            params[i],
        )
}

/// Checks of a call's destination against a return type, for calls through a signature.
pub open spec fn signature_dst_ok(f: EirFunction, ret: TypeId, dst: Option<SlotId>) -> bool {
    match dst {
        None => true,
        Some(d) => has_ty(f, d, ret),
    }
}

/// A signature-checked call: arguments (unknown parameters accept any) and destination.
pub open spec fn call_signature_ok(f: EirFunction, dst: Option<SlotId>, args: Seq<SlotId>, sig: Signature) -> bool {
    args_ok(f, args, sig.params@, true) && signature_dst_ok(f, sig.return_type, dst)
}

/// A caller may call a callee: purity is kept, and every effect of the callee is one of the caller's.
pub open spec fn effects_allow(caller: Effects, callee: Effects) -> bool {
    &&& !(caller.spec_contains(Effects(1)) && !callee.spec_contains(Effects(1)))
    &&& callee.spec_contains(Effects(2)) ==> caller.spec_contains(Effects(2))
    &&& callee.spec_contains(Effects(4)) ==> caller.spec_contains(Effects(4))
    &&& callee.spec_contains(Effects(8)) ==> caller.spec_contains(Effects(8))
    &&& callee.spec_contains(Effects(16)) ==> caller.spec_contains(Effects(16))
    &&& callee.spec_contains(Effects(32)) ==> caller.spec_contains(Effects(32))
}

/// A direct call: callee exists, argument count and types match, a non-void result has a
/// destination of the return type, and effects are allowed.
pub open spec fn direct_call_ok(p: EirProgram, f: EirFunction, dst: Option<SlotId>, callee: FunctionId, args: Seq<SlotId>) -> bool {
    match spec_function(p, callee) {
        None => false,
        Some(c) => {
            &&& args.len() == c.signature.params@.len()
            &&& args_ok(f, args, c.signature.params@, false)
            &&& match dst {
                None => c.signature.return_type == TypeId(1),
                Some(d) => has_ty(f, d, c.signature.return_type),
            }
            &&& effects_allow(f.signature.effects, c.signature.effects)
        },
    }
}

pub open spec fn host_at(p: EirProgram, h: HostFunctionId) -> bool {
    (h.0 as int) < p.host_functions@.len()
}

/// The typing rule of each instruction.
pub open spec fn instruction_ok(p: EirProgram, f: EirFunction, k: InstructionKind) -> bool {
    match k {
        InstructionKind::Const { dst, constant } => match constant_at(p, constant) {
            None => false,
            Some(c) => has_ty(f, dst, spec_constant_ty(c)),
        },
        InstructionKind::Copy { dst, src } | InstructionKind::Move { dst, src } => valid_slot(f, src)
            && has_ty(f, dst, f.slots@[src.0 as int]),
        InstructionKind::LoadGlobal { dst, global } | InstructionKind::MoveGlobal { dst, global } => match global_at(p, global) {
            None => false,
            Some(t) => has_ty(f, dst, t),
        },
        InstructionKind::StoreGlobal { global, src } => match global_at(p, global) {
            None => false,
            Some(t) => has_ty(f, src, t),
        },
        InstructionKind::MakeError { dst, error } => slot_sem(p, f, dst) == Some(SemTypeModel::Error(error)),
        InstructionKind::MakeFunction { dst, function } => match spec_function(p, function) {
            None => false,
            Some(c) => function_value_ok(p, f, dst, c.signature),
        },
        InstructionKind::MakeHostFunction { dst, function } => host_at(p, function)
            && function_value_ok(p, f, dst, p.host_functions@[function.0 as int].signature),
        InstructionKind::IsError { dst, value }
        | InstructionKind::ErrorMatches { dst, value, .. }
        | InstructionKind::IsTruthy { dst, value } => valid_slot(f, value) && has_ty(f, dst, TypeId(2)),
        InstructionKind::Check { condition, message } => {
            &&& has_ty(f, condition, TypeId(2))
            &&& match message {
                None => true,
                Some(m) => constant_at(p, m) matches Some(Constant::Str(_)),
            }
            &&& f.signature.effects.spec_contains(Effects(2))
        },
        InstructionKind::MakeAddress { dst } => slot_sem(p, f, dst) matches Some(SemTypeModel::Address(_)),
        InstructionKind::MakeRef { dst, value } => match slot_sem(p, f, dst) {
            Some(SemTypeModel::Address(inner)) => has_ty(f, value, inner),
            _ => false,
        },
        InstructionKind::Deref { dst, address } => match slot_sem(p, f, address) {
            Some(SemTypeModel::Address(inner)) => has_ty(f, dst, inner),
            _ => false,
        },
        InstructionKind::StoreDeref { address, src } => match slot_sem(p, f, address) {
            Some(SemTypeModel::Address(inner)) => has_ty(f, src, inner),
            _ => false,
        },
        InstructionKind::MakeList { dst, items } => match slot_sem(p, f, dst) {
            Some(SemTypeModel::List(item)) => forall|i: int| 0 <= i < items@.len() ==> has_ty(f, #[trigger] items@[i], item),
            _ => false,
        },
        InstructionKind::MakeMap { dst, entries } => match slot_sem(p, f, dst) {
            Some(SemTypeModel::MapOf(kt, vt)) => forall|i: int|
                0 <= i < entries@.len() ==> has_ty(f, (#[trigger] entries@[i]).0, kt) && has_ty(f, entries@[i].1, vt),
            _ => false,
        },
        InstructionKind::ListJoin { dst, left, right } => (slot_sem(p, f, dst) matches Some(SemTypeModel::List(_)))
            && has_ty(f, left, f.slots@[dst.0 as int]) && has_ty(f, right, f.slots@[dst.0 as int]),
        InstructionKind::ListSlice { dst, list, start, end } => (slot_sem(p, f, dst) matches Some(SemTypeModel::List(_)))
            && has_ty(f, list, f.slots@[dst.0 as int]) && has_ty(f, start, TypeId(3)) && has_ty(f, end, TypeId(3)),
        InstructionKind::ListReverse { dst, list } => (slot_sem(p, f, dst) matches Some(SemTypeModel::List(_)))
            && has_ty(f, list, f.slots@[dst.0 as int]),
        InstructionKind::MapHas { dst, map, key } => has_ty(f, dst, TypeId(2)) && match slot_sem(p, f, map) {
            Some(SemTypeModel::MapOf(kt, _)) => has_ty(f, key, kt),
            _ => false,
        },
        InstructionKind::MapSet { dst, map, key, value } => valid_slot(f, map) && has_ty(f, dst, f.slots@[map.0 as int])
            && match slot_sem(p, f, map) {
            Some(SemTypeModel::MapOf(kt, vt)) => has_ty(f, key, kt) && has_ty(f, value, vt),
            _ => false,
        },
        InstructionKind::MapDelete { dst, map, key } => valid_slot(f, map) && has_ty(f, dst, f.slots@[map.0 as int])
            && match slot_sem(p, f, map) {
            Some(SemTypeModel::MapOf(kt, _)) => has_ty(f, key, kt),
            _ => false,
        },
        InstructionKind::MakeStruct { dst, structure, fields } => slot_sem(p, f, dst) == Some(SemTypeModel::Struct(structure))
            && forall|i: int| 0 <= i < fields@.len() ==> valid_slot(f, (#[trigger] fields@[i]).1),
        InstructionKind::GetField { dst, target, .. } => valid_slot(f, dst) && is_struct_slot(p, f, target),
        InstructionKind::SetField { target, fields, src } => valid_slot(f, src) && fields@.len() > 0 && is_struct_slot(p, f, target),
        InstructionKind::GetIndex { dst, collection, key } => match slot_sem(p, f, collection) {
            Some(SemTypeModel::List(item)) => has_ty(f, key, TypeId(3)) && has_ty(f, dst, item),
            Some(SemTypeModel::MapOf(kt, vt)) => has_ty(f, key, kt) && has_ty(f, dst, vt),
            Some(SemTypeModel::Bytes) => has_ty(f, key, TypeId(3)) && has_ty(f, dst, TypeId(3)),
            _ => false,
        },
        InstructionKind::Push { collection, value } => match slot_sem(p, f, collection) {
            Some(SemTypeModel::List(item)) => has_ty(f, value, item),
            _ => false,
        },
        InstructionKind::Len { dst, collection } => has_ty(f, dst, TypeId(3)) && match slot_sem(p, f, collection) {
            Some(SemTypeModel::Str) | Some(SemTypeModel::Bytes) | Some(SemTypeModel::List(_)) | Some(SemTypeModel::MapOf(_, _)) => true,
            _ => false,
        },
        InstructionKind::MakeRange { dst, start, end } => has_ty(f, start, TypeId(3)) && has_ty(f, end, TypeId(3))
            && slot_sem(p, f, dst) == Some(SemTypeModel::Range),
        InstructionKind::IterInit { dst, iterable } => has_ty(f, dst, TypeId(3)) && iterable_ok(p, f, iterable),
        InstructionKind::IterHasNext { dst, iterable, index } => has_ty(f, dst, TypeId(2)) && has_ty(f, index, TypeId(3))
            && iterable_ok(p, f, iterable),
        InstructionKind::IterGet { dst, iterable, index } => has_ty(f, index, TypeId(3)) && match slot_sem(p, f, iterable) {
            Some(SemTypeModel::Range) => has_ty(f, dst, TypeId(3)),
            Some(SemTypeModel::List(inner)) => has_ty(f, dst, inner),
            Some(SemTypeModel::Str) => has_ty(f, dst, TypeId(4)),
            _ => false,
        },
        InstructionKind::AddNum { dst, lhs, rhs }
        | InstructionKind::SubNum { dst, lhs, rhs }
        | InstructionKind::MulNum { dst, lhs, rhs }
        | InstructionKind::DivNum { dst, lhs, rhs } => has_ty(f, lhs, TypeId(3)) && has_ty(f, rhs, TypeId(3)) && has_ty(f, dst, TypeId(3)),
        InstructionKind::ConcatString { dst, lhs, rhs } => has_ty(f, lhs, TypeId(4)) && has_ty(f, rhs, TypeId(4)) && has_ty(f, dst, TypeId(4)),
        InstructionKind::EqNum { dst, lhs, rhs }
        | InstructionKind::NeNum { dst, lhs, rhs }
        | InstructionKind::GtNum { dst, lhs, rhs }
        | InstructionKind::LtNum { dst, lhs, rhs }
        | InstructionKind::GeNum { dst, lhs, rhs }
        | InstructionKind::LeNum { dst, lhs, rhs } => has_ty(f, lhs, TypeId(3)) && has_ty(f, rhs, TypeId(3)) && has_ty(f, dst, TypeId(2)),
        InstructionKind::EqString { dst, lhs, rhs }
        | InstructionKind::NeString { dst, lhs, rhs } => has_ty(f, lhs, TypeId(4)) && has_ty(f, rhs, TypeId(4)) && has_ty(f, dst, TypeId(2)),
        InstructionKind::EqBool { dst, lhs, rhs }
        | InstructionKind::NeBool { dst, lhs, rhs } => has_ty(f, lhs, TypeId(2)) && has_ty(f, rhs, TypeId(2)) && has_ty(f, dst, TypeId(2)),
        InstructionKind::CallDirect { dst, function, args } => direct_call_ok(p, f, dst, function, args@),
        InstructionKind::CallHost { dst, function, args } => host_at(p, function)
            && call_signature_ok(f, dst, args@, p.host_functions@[function.0 as int].signature),
        InstructionKind::CallIndirect { dst, callee, args } => match slot_sem(p, f, callee) {
            Some(SemTypeModel::Function { params, return_type }) => args_ok(f, args@, params, true)
                && signature_dst_ok(f, return_type, dst),
            _ => false,
        },
        InstructionKind::MakePipe { dst, .. } => slot_sem(p, f, dst) matches Some(SemTypeModel::Pipe(_)),
        InstructionKind::Give { channel, value } => match slot_sem(p, f, channel) {
            Some(SemTypeModel::Pipe(inner)) => has_ty(f, value, inner),
            _ => false,
        },
        InstructionKind::Take { dst, channel } => match slot_sem(p, f, channel) {
            Some(SemTypeModel::Pipe(inner)) => has_ty(f, dst, inner),
            _ => false,
        },
        InstructionKind::Close { channel } => slot_sem(p, f, channel) matches Some(SemTypeModel::Pipe(_)),
        InstructionKind::Rest => true,
        InstructionKind::Spawn { function, args } => match spec_function(p, function) {
            None => false,
            Some(c) => args_ok(f, args@, c.signature.params@, true),
        },
    }
}


proof fn lemma_push_grows(s: Seq<VerifyError>, e: VerifyError, loc: Loc)
    requires
        located(e, loc),
    ensures
        grows_at(s, s.push(e), loc),
{
    assert(s.push(e).subrange(0, s.len() as int) =~= s);
}

proof fn lemma_same_grows(s: Seq<VerifyError>, loc: Loc)
    ensures
        grows_at(s, s, loc),
{
    assert(s.subrange(0, s.len() as int) =~= s);
}

fn report(errors: &mut Vec<VerifyError>, loc: Loc, kind: VerifyErrorKind)
    ensures
        grows_at(old(errors)@, final(errors)@, loc),
        final(errors)@.len() == old(errors)@.len() + 1,
        final(errors)@ == old(errors)@.push(finding(loc, kind)),
{
    let e = at(loc, kind);
    proof {
        lemma_push_grows(errors@, e, loc);
    }
    errors.push(e);
}

fn slot_type(f: &EirFunction, slot: SlotId, loc: Loc, errors: &mut Vec<VerifyError>) -> (r: Option<TypeId>)
    ensures
        grows_at(old(errors)@, final(errors)@, loc),
        (final(errors)@.len() == old(errors)@.len()) == valid_slot(*f, slot),
        r == (if valid_slot(*f, slot) { Some(f.slots@[slot.0 as int]) } else { None::<TypeId> }),
        final(errors)@ == old(errors)@ + slot_findings(*f, slot, loc),
{
    let index = slot.index();
    if index < f.slots.len() {
        proof {
            lemma_same_grows(errors@, loc);
            assert(errors@ + slot_findings(*f, slot, loc) =~= errors@);
        }
        Some(f.slots[index])
    } else {
        report(errors, loc, VerifyErrorKind::InvalidSlot(slot));
        None
    }
}

fn check_slot_type(
    f: &EirFunction,
    slot: SlotId,
    expected: TypeId,
    loc: Loc,
    errors: &mut Vec<VerifyError>,
    constant: bool,
)
    ensures
        grows_at(old(errors)@, final(errors)@, loc),
        (final(errors)@.len() == old(errors)@.len()) == has_ty(*f, slot, expected),
        final(errors)@ == old(errors)@ + type_findings(*f, slot, expected, loc, constant),
{
    broadcast use lemma_grows_at_trans;
    let actual = match slot_type(f, slot, loc, errors) {
        Some(t) => t,
        None => return,
    };
    proof {
        assert(errors@ =~= old(errors)@);
    }
    if actual != expected {
        let kind = if constant {
            VerifyErrorKind::ConstantType { slot, expected, actual }
        } else {
            VerifyErrorKind::SlotType { slot, expected, actual }
        };
        report(errors, loc, kind);
    } else {
        proof {
            assert(errors@ + type_findings(*f, slot, expected, loc, constant) =~= errors@);
        }
    }
}

fn check_binary(
    f: &EirFunction,
    dst: SlotId,
    lhs: SlotId,
    rhs: SlotId,
    operand_type: TypeId,
    result_type: TypeId,
    loc: Loc,
    errors: &mut Vec<VerifyError>,
)
    ensures
        grows_at(old(errors)@, final(errors)@, loc),
        (final(errors)@.len() == old(errors)@.len()) == (has_ty(*f, lhs, operand_type) && has_ty(*f, rhs, operand_type)
            && has_ty(*f, dst, result_type)),
        final(errors)@ == old(errors)@ + binary_findings(*f, dst, lhs, rhs, operand_type, result_type, loc),
{
    broadcast use lemma_grows_at_trans;
    check_slot_type(f, lhs, operand_type, loc, errors, false);
    check_slot_type(f, rhs, operand_type, loc, errors, false);
    check_slot_type(f, dst, result_type, loc, errors, false);
    proof {
        assert(errors@ =~= old(errors)@ + binary_findings(*f, dst, lhs, rhs, operand_type, result_type, loc));
    }
}

/// The semantic type a type ID names, looked up in the program's table.
fn sem_type<'a>(p: &'a EirProgram, t: TypeId) -> (r: Option<&'a SemType>)
    ensures
        r.is_some() == type_of(*p, t).is_some(),
        r.is_some() ==> r.unwrap()@ == type_of(*p, t).unwrap(),
{
    p.types.get(t)
}

/// The semantic type of a slot, reporting an invalid slot.
fn slot_sem_type<'a>(p: &'a EirProgram, f: &EirFunction, slot: SlotId, loc: Loc, errors: &mut Vec<VerifyError>) -> (r: Option<&'a SemType>)
    ensures
        grows_at(old(errors)@, final(errors)@, loc),
        (final(errors)@.len() == old(errors)@.len()) == valid_slot(*f, slot),
        r.is_some() == slot_sem(*p, *f, slot).is_some(),
        r.is_some() ==> r.unwrap()@ == slot_sem(*p, *f, slot).unwrap(),
        final(errors)@ == old(errors)@ + slot_findings(*f, slot, loc),
{
    match slot_type(f, slot, loc, errors) {
        Some(t) => sem_type(p, t),
        None => None,
    }
}

fn check_iterable(p: &EirProgram, f: &EirFunction, slot: SlotId, loc: Loc, errors: &mut Vec<VerifyError>)
    ensures
        grows_at(old(errors)@, final(errors)@, loc),
        (final(errors)@.len() == old(errors)@.len()) == iterable_ok(*p, *f, slot),
        final(errors)@ == old(errors)@ + iterable_findings(*p, *f, slot, loc),
{
    broadcast use lemma_grows_at_trans;
    let ok = match slot_sem_type(p, f, slot, loc, errors) {
        Some(SemType::Range) | Some(SemType::List(_)) | Some(SemType::Str) => true,
        _ => false,
    };
    let ghost mid = errors@;
    if !ok {
        report(errors, loc, VerifyErrorKind::InvalidAggregateOperand(slot));
    }
    proof {
        assert(errors@ =~= old(errors)@ + iterable_findings(*p, *f, slot, loc));
    }
}

fn check_function_value_type(
    p: &EirProgram,
    f: &EirFunction,
    slot: SlotId,
    signature: &Signature,
    loc: Loc,
    errors: &mut Vec<VerifyError>,
)
    ensures
        grows_at(old(errors)@, final(errors)@, loc),
        (final(errors)@.len() == old(errors)@.len()) == function_value_ok(*p, *f, slot, *signature),
        final(errors)@ == old(errors)@ + function_value_findings(*p, *f, slot, *signature, loc),
{
    broadcast use lemma_grows_at_trans;
    let ty = match slot_type(f, slot, loc, errors) {
        Some(t) => t,
        None => return,
    };
    let expected = SemType::Function { params: copy_ids(&signature.params), return_type: signature.return_type };
    let ok = match sem_type(p, ty) {
        Some(actual) => crate::hir::types::same_sem_type(actual, &expected),
        None => false,
    };
    if !ok {
        report(errors, loc, VerifyErrorKind::InvalidAggregateOperand(slot));
    }
}

/// A copy of a list of type IDs.
fn copy_ids(ids: &Vec<TypeId>) -> (r: Vec<TypeId>)
    ensures
        r@ == ids@,
{
    let mut r: Vec<TypeId> = Vec::new();
    let mut i: usize = 0;
    while i < ids.len()
        invariant
            i <= ids@.len(),
            r@ == ids@.take(i as int),
        decreases ids.len() - i,
    {
        r.push(ids[i]);
        i += 1;
        assert(r@ =~= ids@.take(i as int));
    }
    assert(ids@.take(ids@.len() as int) =~= ids@);
    r
}

/// Checks arguments against parameter types, pairing them by position.
fn check_args(
    f: &EirFunction,
    args: &Vec<SlotId>,
    params: &Vec<TypeId>,
    skip_unknown: bool,
    loc: Loc,
    errors: &mut Vec<VerifyError>,
)
    ensures
        grows_at(old(errors)@, final(errors)@, loc),
        (final(errors)@.len() == old(errors)@.len()) == args_ok(*f, args@, params@, skip_unknown),
        final(errors)@ == old(errors)@ + args_findings(*f, args@, params@, skip_unknown, loc,
            if args@.len() < params@.len() { args@.len() as int } else { params@.len() as int }),
{
    broadcast use lemma_grows_at_trans;
    let ghost e0 = errors@;
    proof {
        lemma_same_grows(errors@, loc);
        assert(e0 + args_findings(*f, args@, params@, skip_unknown, loc, 0) =~= e0);
    }
    let mut i: usize = 0;
    while i < args.len() && i < params.len()
        invariant
            i <= args@.len(),
            i <= params@.len(),
            errors@ == e0 + args_findings(*f, args@, params@, skip_unknown, loc, i as int),
            grows_at(e0, errors@, loc),
            (errors@.len() == e0.len()) == (forall|j: int|
                0 <= j < i && j < params@.len() ==> (skip_unknown && params@[j] == TypeId(0)) || has_ty(
                    *f,
                    #[trigger] args@[j],
                    params@[j],
                )),
        decreases args.len() - i,
    {
        let ghost before = errors@;
        if !(skip_unknown && params[i] == TypeId(0)) {
            check_slot_type(f, args[i], params[i], loc, errors, false);
            proof {
                assert(errors@ =~= e0 + args_findings(*f, args@, params@, skip_unknown, loc, i + 1));
            }
        } else {
            proof {
                lemma_same_grows(errors@, loc);
                assert(errors@ =~= e0 + args_findings(*f, args@, params@, skip_unknown, loc, i + 1));
            }
        }
        proof {
            lemma_grows_at_trans(e0, before, errors@, loc);
        }
        i += 1;
    }
}

fn check_call_signature(
    f: &EirFunction,
    dst: Option<SlotId>,
    args: &Vec<SlotId>,
    signature: &Signature,
    loc: Loc,
    errors: &mut Vec<VerifyError>,
)
    ensures
        grows_at(old(errors)@, final(errors)@, loc),
        (final(errors)@.len() == old(errors)@.len()) == call_signature_ok(*f, dst, args@, *signature),
        final(errors)@ == old(errors)@ + signature_findings(*f, dst, args@, *signature, loc),
{
    broadcast use lemma_grows_at_trans;
    check_args(f, args, &signature.params, true, loc, errors);
    match dst {
        Some(slot) => check_slot_type(f, slot, signature.return_type, loc, errors, false),
        None => {
            proof {
                lemma_same_grows(errors@, loc);
            }
        },
    }
    proof {
        assert(errors@ =~= old(errors)@ + signature_findings(*f, dst, args@, *signature, loc));
    }
}


/// The location of an instruction's findings.
pub open spec fn instruction_loc(f: EirFunction, block: BlockId, index: usize, instruction: Instruction) -> Loc {
    Loc { function: f.id, block, instruction: Some(index), anchor: instruction.anchor }
}

fn constant_ref<'a>(p: &'a EirProgram, id: ConstId) -> (r: Option<&'a Constant>)
    ensures
        r.is_some() == constant_at(*p, id).is_some(),
        r.is_some() ==> *r.unwrap() == constant_at(*p, id).unwrap(),
{
    let index = id.index();
    if index < p.constants.len() {
        Some(&p.constants[index])
    } else {
        None
    }
}

fn global_type(p: &EirProgram, id: GlobalId) -> (r: Option<TypeId>)
    ensures
        r == global_at(*p, id),
{
    let index = id.index();
    if index < p.globals.len() {
        Some(p.globals[index])
    } else {
        None
    }
}

/// Checks one instruction against its typing rule, reporting each violation at the instruction.
#[verifier::rlimit(100)]
#[verifier::spinoff_prover]
fn verify_instruction(
    p: &EirProgram,
    f: &EirFunction,
    block: BlockId,
    index: usize,
    instruction: &Instruction,
    errors: &mut Vec<VerifyError>,
)
    ensures
        grows_at(old(errors)@, final(errors)@, instruction_loc(*f, block, index, *instruction)),
        (final(errors)@.len() == old(errors)@.len()) == instruction_ok(*p, *f, instruction.kind),
        instruction.kind matches InstructionKind::CallDirect { dst, function, args } ==> final(errors)@ == old(errors)@
            + direct_call_findings(*p, *f, dst, function, args@, instruction_loc(*f, block, index, *instruction)),
        instruction.kind matches InstructionKind::CallHost { dst, function, args } ==> final(errors)@ == old(errors)@
            + host_call_findings(*p, *f, dst, function, args@, instruction_loc(*f, block, index, *instruction)),
        simple_findings(*p, *f, instruction.kind, instruction_loc(*f, block, index, *instruction)) matches Some(fs)
            ==> final(errors)@ == old(errors)@ + fs,
        shaped_findings(*p, *f, instruction.kind, instruction_loc(*f, block, index, *instruction)) matches Some(fs)
            ==> final(errors)@ == old(errors)@ + fs,
{
    broadcast use lemma_grows_at_trans;
    let loc = Loc { function: f.id, block, instruction: Some(index), anchor: instruction.anchor };
    proof {
        lemma_same_grows(errors@, loc);
    }
    match &instruction.kind {
        InstructionKind::Const { dst, constant } => {
            match constant_ref(p, *constant) {
                Some(value) => check_slot_type(f, *dst, value.ty(), loc, errors, true),
                None => report(errors, loc, VerifyErrorKind::InvalidConstant(*constant)),
            }
        },
        InstructionKind::Copy { dst, src } | InstructionKind::Move { dst, src } => {
            match slot_type(f, *src, loc, errors) {
                Some(source_ty) => check_slot_type(f, *dst, source_ty, loc, errors, false),
                None => {},
            }
        },
        InstructionKind::LoadGlobal { dst, global } | InstructionKind::MoveGlobal { dst, global } => {
            match global_type(p, *global) {
                Some(t) => check_slot_type(f, *dst, t, loc, errors, false),
                None => report(errors, loc, VerifyErrorKind::InvalidGlobal(*global)),
            }
        },
        InstructionKind::StoreGlobal { global, src } => {
            match global_type(p, *global) {
                Some(t) => check_slot_type(f, *src, t, loc, errors, false),
                None => report(errors, loc, VerifyErrorKind::InvalidGlobal(*global)),
            }
        },
        InstructionKind::MakeError { dst, error } => {
            match slot_type(f, *dst, loc, errors) {
                Some(t) => {
                    let ok = match sem_type(p, t) {
                        Some(SemType::Error(e)) => *e == *error,
                        _ => false,
                    };
                    if !ok {
                        report(errors, loc, VerifyErrorKind::InvalidAggregateOperand(*dst));
                    }
                },
                None => {},
            }
        },
        InstructionKind::MakeFunction { dst, function: callee } => {
            match p.function(*callee) {
                Some(c) => check_function_value_type(p, f, *dst, &c.signature, loc, errors),
                None => report(errors, loc, VerifyErrorKind::InvalidFunction(*callee)),
            }
        },
        InstructionKind::MakeHostFunction { dst, function: callee } => {
            let hi = callee.index();
            if hi < p.host_functions.len() {
                check_function_value_type(p, f, *dst, &p.host_functions[hi].signature, loc, errors);
            } else {
                report(errors, loc, VerifyErrorKind::InvalidHostFunction(*callee));
            }
        },
        InstructionKind::IsError { dst, value }
        | InstructionKind::ErrorMatches { dst, value, .. }
        | InstructionKind::IsTruthy { dst, value } => {
            slot_type(f, *value, loc, errors);
            check_slot_type(f, *dst, TypeId(2), loc, errors, false);
        },
        InstructionKind::Check { condition, message } => {
            check_slot_type(f, *condition, TypeId(2), loc, errors, false);
            match message {
                Some(m) => {
                    let ok = match constant_ref(p, *m) {
                        Some(Constant::Str(_)) => true,
                        _ => false,
                    };
                    if !ok {
                        report(errors, loc, VerifyErrorKind::InvalidConstant(*m));
                    }
                },
                None => {},
            }
            if !f.signature.effects.contains(Effects(2)) {
                report(errors, loc, VerifyErrorKind::ThrowWithoutEffect);
            }
        },
        InstructionKind::MakeAddress { dst } => {
            let ok = match slot_sem_type(p, f, *dst, loc, errors) {
                Some(SemType::Address(_)) => true,
                _ => false,
            };
            if !ok {
                report(errors, loc, VerifyErrorKind::InvalidAggregateOperand(*dst));
            }
        },
        InstructionKind::MakeRef { dst, value } => {
            if valid_slot_exec(f, *dst) {
                match slot_sem_type(p, f, *dst, loc, errors) {
                    Some(SemType::Address(inner)) => check_slot_type(f, *value, *inner, loc, errors, false),
                    _ => report(errors, loc, VerifyErrorKind::InvalidAggregateOperand(*dst)),
                }
            } else {
                slot_type(f, *dst, loc, errors);
            }
        },
        InstructionKind::Deref { dst, address } => {
            if valid_slot_exec(f, *address) {
                match slot_sem_type(p, f, *address, loc, errors) {
                    Some(SemType::Address(inner)) => check_slot_type(f, *dst, *inner, loc, errors, false),
                    _ => report(errors, loc, VerifyErrorKind::InvalidAggregateOperand(*address)),
                }
            } else {
                slot_type(f, *address, loc, errors);
            }
        },
        InstructionKind::StoreDeref { address, src } => {
            if valid_slot_exec(f, *address) {
                match slot_sem_type(p, f, *address, loc, errors) {
                    Some(SemType::Address(inner)) => check_slot_type(f, *src, *inner, loc, errors, false),
                    _ => report(errors, loc, VerifyErrorKind::InvalidAggregateOperand(*address)),
                }
            } else {
                slot_type(f, *address, loc, errors);
            }
        },
        InstructionKind::MakeList { dst, items } => {
            if valid_slot_exec(f, *dst) {
                match slot_sem_type(p, f, *dst, loc, errors) {
                    Some(SemType::List(item_type)) => check_all_slots(f, items, *item_type, loc, errors),
                    _ => report(errors, loc, VerifyErrorKind::InvalidAggregateOperand(*dst)),
                }
            } else {
                slot_type(f, *dst, loc, errors);
            }
        },
        InstructionKind::MakeMap { dst, entries } => {
            if valid_slot_exec(f, *dst) {
                match slot_sem_type(p, f, *dst, loc, errors) {
                    Some(SemType::MapOf(kt, vt)) => check_entries(f, entries, *kt, *vt, loc, errors),
                    _ => report(errors, loc, VerifyErrorKind::InvalidAggregateOperand(*dst)),
                }
            } else {
                slot_type(f, *dst, loc, errors);
            }
        },
        InstructionKind::ListJoin { dst, left, right } => {
            match slot_type(f, *dst, loc, errors) {
                Some(dst_type) => {
                    let is_list = match sem_type(p, dst_type) {
                        Some(SemType::List(_)) => true,
                        _ => false,
                    };
                    if !is_list {
                        report(errors, loc, VerifyErrorKind::InvalidAggregateOperand(*dst));
                    } else {
                        check_slot_type(f, *left, dst_type, loc, errors, false);
                        check_slot_type(f, *right, dst_type, loc, errors, false);
                    }
                },
                None => {},
            }
        },
        InstructionKind::ListSlice { dst, list, start, end } => {
            match slot_type(f, *dst, loc, errors) {
                Some(dst_type) => {
                    let is_list = match sem_type(p, dst_type) {
                        Some(SemType::List(_)) => true,
                        _ => false,
                    };
                    if !is_list {
                        report(errors, loc, VerifyErrorKind::InvalidAggregateOperand(*dst));
                    } else {
                        check_slot_type(f, *list, dst_type, loc, errors, false);
                        check_slot_type(f, *start, TypeId(3), loc, errors, false);
                        check_slot_type(f, *end, TypeId(3), loc, errors, false);
                    }
                },
                None => {},
            }
        },
        InstructionKind::ListReverse { dst, list } => {
            match slot_type(f, *dst, loc, errors) {
                Some(dst_type) => {
                    let is_list = match sem_type(p, dst_type) {
                        Some(SemType::List(_)) => true,
                        _ => false,
                    };
                    if !is_list {
                        report(errors, loc, VerifyErrorKind::InvalidAggregateOperand(*dst));
                    } else {
                        check_slot_type(f, *list, dst_type, loc, errors, false);
                    }
                },
                None => {},
            }
        },
        InstructionKind::MapHas { dst, map, key } => {
            check_slot_type(f, *dst, TypeId(2), loc, errors, false);
            if valid_slot_exec(f, *map) {
                match slot_sem_type(p, f, *map, loc, errors) {
                    Some(SemType::MapOf(kt, _)) => check_slot_type(f, *key, *kt, loc, errors, false),
                    _ => report(errors, loc, VerifyErrorKind::InvalidAggregateOperand(*map)),
                }
            } else {
                slot_type(f, *map, loc, errors);
            }
        },
        InstructionKind::MapSet { dst, map, key, value } => {
            match slot_type(f, *map, loc, errors) {
                Some(map_type) => {
                    check_slot_type(f, *dst, map_type, loc, errors, false);
                    match sem_type(p, map_type) {
                        Some(SemType::MapOf(kt, vt)) => {
                            check_slot_type(f, *key, *kt, loc, errors, false);
                            check_slot_type(f, *value, *vt, loc, errors, false);
                        },
                        _ => report(errors, loc, VerifyErrorKind::InvalidAggregateOperand(*map)),
                    }
                },
                None => {},
            }
        },
        InstructionKind::MapDelete { dst, map, key } => {
            match slot_type(f, *map, loc, errors) {
                Some(map_type) => {
                    check_slot_type(f, *dst, map_type, loc, errors, false);
                    match sem_type(p, map_type) {
                        Some(SemType::MapOf(kt, _)) => check_slot_type(f, *key, *kt, loc, errors, false),
                        _ => report(errors, loc, VerifyErrorKind::InvalidAggregateOperand(*map)),
                    }
                },
                None => {},
            }
        },
        InstructionKind::MakeStruct { dst, structure, fields } => {
            match slot_type(f, *dst, loc, errors) {
                Some(t) => {
                    let ok = match sem_type(p, t) {
                        Some(SemType::Struct(id)) => *id == *structure,
                        _ => false,
                    };
                    if !ok {
                        report(errors, loc, VerifyErrorKind::InvalidAggregateOperand(*dst));
                    }
                    check_field_slots(f, fields, loc, errors);
                },
                None => {},
            }
        },
        InstructionKind::GetField { dst, target, .. } => {
            let target_sem = slot_sem_type(p, f, *target, loc, errors);
            slot_type(f, *dst, loc, errors);
            let ok = match target_sem {
                Some(SemType::Struct(_)) => true,
                _ => false,
            };
            if !ok {
                report(errors, loc, VerifyErrorKind::InvalidAggregateOperand(*target));
            }
        },
        InstructionKind::SetField { target, fields, src } => {
            let target_sem = slot_sem_type(p, f, *target, loc, errors);
            slot_type(f, *src, loc, errors);
            let is_struct = match target_sem {
                Some(SemType::Struct(_)) => true,
                _ => false,
            };
            if fields.len() == 0 || !is_struct {
                report(errors, loc, VerifyErrorKind::InvalidAggregateOperand(*target));
            }
        },
        InstructionKind::GetIndex { dst, collection, key } => {
            if valid_slot_exec(f, *collection) {
                match slot_sem_type(p, f, *collection, loc, errors) {
                    Some(SemType::List(item_type)) => {
                        check_slot_type(f, *key, TypeId(3), loc, errors, false);
                        check_slot_type(f, *dst, *item_type, loc, errors, false);
                    },
                    Some(SemType::MapOf(kt, vt)) => {
                        check_slot_type(f, *key, *kt, loc, errors, false);
                        check_slot_type(f, *dst, *vt, loc, errors, false);
                    },
                    Some(SemType::Bytes) => {
                        check_slot_type(f, *key, TypeId(3), loc, errors, false);
                        check_slot_type(f, *dst, TypeId(3), loc, errors, false);
                    },
                    _ => report(errors, loc, VerifyErrorKind::InvalidAggregateOperand(*collection)),
                }
            } else {
                slot_type(f, *collection, loc, errors);
            }
        },
        InstructionKind::Push { collection, value } => {
            if valid_slot_exec(f, *collection) {
                match slot_sem_type(p, f, *collection, loc, errors) {
                    Some(SemType::List(item_type)) => check_slot_type(f, *value, *item_type, loc, errors, false),
                    _ => report(errors, loc, VerifyErrorKind::InvalidAggregateOperand(*collection)),
                }
            } else {
                slot_type(f, *collection, loc, errors);
            }
        },
        InstructionKind::Len { dst, collection } => {
            check_slot_type(f, *dst, TypeId(3), loc, errors, false);
            let ok = match slot_sem_type(p, f, *collection, loc, errors) {
                Some(SemType::Str) | Some(SemType::Bytes) | Some(SemType::List(_)) | Some(SemType::MapOf(_, _)) => true,
                _ => false,
            };
            if !ok {
                report(errors, loc, VerifyErrorKind::InvalidAggregateOperand(*collection));
            }
        },
        InstructionKind::MakeRange { dst, start, end } => {
            check_slot_type(f, *start, TypeId(3), loc, errors, false);
            check_slot_type(f, *end, TypeId(3), loc, errors, false);
            let ok = match slot_sem_type(p, f, *dst, loc, errors) {
                Some(SemType::Range) => true,
                _ => false,
            };
            if !ok {
                report(errors, loc, VerifyErrorKind::InvalidAggregateOperand(*dst));
            }
        },
        InstructionKind::IterInit { dst, iterable } => {
            check_slot_type(f, *dst, TypeId(3), loc, errors, false);
            check_iterable(p, f, *iterable, loc, errors);
        },
        InstructionKind::IterHasNext { dst, iterable, index } => {
            check_slot_type(f, *dst, TypeId(2), loc, errors, false);
            check_slot_type(f, *index, TypeId(3), loc, errors, false);
            check_iterable(p, f, *iterable, loc, errors);
        },
        InstructionKind::IterGet { dst, iterable, index } => {
            check_slot_type(f, *index, TypeId(3), loc, errors, false);
            if valid_slot_exec(f, *iterable) {
                match slot_sem_type(p, f, *iterable, loc, errors) {
                    Some(SemType::Range) => check_slot_type(f, *dst, TypeId(3), loc, errors, false),
                    Some(SemType::List(inner)) => check_slot_type(f, *dst, *inner, loc, errors, false),
                    Some(SemType::Str) => check_slot_type(f, *dst, TypeId(4), loc, errors, false),
                    _ => report(errors, loc, VerifyErrorKind::InvalidAggregateOperand(*iterable)),
                }
            } else {
                slot_type(f, *iterable, loc, errors);
            }
        },
        InstructionKind::AddNum { dst, lhs, rhs }
        | InstructionKind::SubNum { dst, lhs, rhs }
        | InstructionKind::MulNum { dst, lhs, rhs }
        | InstructionKind::DivNum { dst, lhs, rhs } => {
            check_binary(f, *dst, *lhs, *rhs, TypeId(3), TypeId(3), loc, errors);
        },
        InstructionKind::ConcatString { dst, lhs, rhs } => {
            check_binary(f, *dst, *lhs, *rhs, TypeId(4), TypeId(4), loc, errors);
        },
        InstructionKind::EqNum { dst, lhs, rhs }
        | InstructionKind::NeNum { dst, lhs, rhs }
        | InstructionKind::GtNum { dst, lhs, rhs }
        | InstructionKind::LtNum { dst, lhs, rhs }
        | InstructionKind::GeNum { dst, lhs, rhs }
        | InstructionKind::LeNum { dst, lhs, rhs } => {
            check_binary(f, *dst, *lhs, *rhs, TypeId(3), TypeId(2), loc, errors);
        },
        InstructionKind::EqString { dst, lhs, rhs } | InstructionKind::NeString { dst, lhs, rhs } => {
            check_binary(f, *dst, *lhs, *rhs, TypeId(4), TypeId(2), loc, errors);
        },
        InstructionKind::EqBool { dst, lhs, rhs } | InstructionKind::NeBool { dst, lhs, rhs } => {
            check_binary(f, *dst, *lhs, *rhs, TypeId(2), TypeId(2), loc, errors);
        },
        InstructionKind::CallDirect { dst, function: callee_id, args } => {
            verify_direct_call(p, f, *dst, *callee_id, args, loc, errors);
        },
        InstructionKind::CallHost { dst, function: callee, args } => {
            let hi = callee.index();
            if hi < p.host_functions.len() {
                check_call_signature(f, *dst, args, &p.host_functions[hi].signature, loc, errors);
            } else {
                report(errors, loc, VerifyErrorKind::InvalidHostFunction(*callee));
            }
        },
        InstructionKind::CallIndirect { dst, callee, args } => {
            if valid_slot_exec(f, *callee) {
                match slot_sem_type(p, f, *callee, loc, errors) {
                    Some(SemType::Function { params, return_type }) => {
                        let signature = Signature { params: copy_ids(params), return_type: *return_type, effects: Effects(0) };
                        check_call_signature(f, *dst, args, &signature, loc, errors);
                    },
                    _ => report(errors, loc, VerifyErrorKind::InvalidAggregateOperand(*callee)),
                }
            } else {
                slot_type(f, *callee, loc, errors);
            }
        },
        InstructionKind::MakePipe { dst, .. } => {
            let ok = match slot_sem_type(p, f, *dst, loc, errors) {
                Some(SemType::Pipe(_)) => true,
                _ => false,
            };
            if !ok {
                report(errors, loc, VerifyErrorKind::InvalidAggregateOperand(*dst));
            }
        },
        InstructionKind::Give { channel, value } => {
            if valid_slot_exec(f, *channel) {
                match slot_sem_type(p, f, *channel, loc, errors) {
                    Some(SemType::Pipe(inner)) => check_slot_type(f, *value, *inner, loc, errors, false),
                    _ => report(errors, loc, VerifyErrorKind::InvalidAggregateOperand(*channel)),
                }
            } else {
                slot_type(f, *channel, loc, errors);
            }
        },
        InstructionKind::Take { dst, channel } => {
            if valid_slot_exec(f, *channel) {
                match slot_sem_type(p, f, *channel, loc, errors) {
                    Some(SemType::Pipe(inner)) => check_slot_type(f, *dst, *inner, loc, errors, false),
                    _ => report(errors, loc, VerifyErrorKind::InvalidAggregateOperand(*channel)),
                }
            } else {
                slot_type(f, *channel, loc, errors);
            }
        },
        InstructionKind::Close { channel } => {
            let ok = match slot_sem_type(p, f, *channel, loc, errors) {
                Some(SemType::Pipe(_)) => true,
                _ => false,
            };
            if !ok {
                report(errors, loc, VerifyErrorKind::InvalidAggregateOperand(*channel));
            }
        },
        InstructionKind::Rest => {},
        InstructionKind::Spawn { function: callee, args } => {
            match p.function(*callee) {
                Some(c) => check_call_signature(f, None, args, &c.signature, loc, errors),
                None => report(errors, loc, VerifyErrorKind::InvalidFunction(*callee)),
            }
        },
    }
}

fn valid_slot_exec(f: &EirFunction, slot: SlotId) -> (r: bool)
    ensures
        r == valid_slot(*f, slot),
{
    slot.index() < f.slots.len()
}

fn check_all_slots(f: &EirFunction, items: &Vec<SlotId>, t: TypeId, loc: Loc, errors: &mut Vec<VerifyError>)
    ensures
        grows_at(old(errors)@, final(errors)@, loc),
        (final(errors)@.len() == old(errors)@.len()) == (forall|i: int| 0 <= i < items@.len() ==> has_ty(*f, #[trigger] items@[i], t)),
        final(errors)@ == old(errors)@ + items_findings(*f, items@, t, loc, items@.len() as int),
{
    let ghost e0 = errors@;
    proof {
        lemma_same_grows(errors@, loc);
        assert(e0 + items_findings(*f, items@, t, loc, 0) =~= e0);
    }
    let mut i: usize = 0;
    while i < items.len()
        invariant
            i <= items@.len(),
            errors@ == e0 + items_findings(*f, items@, t, loc, i as int),
            grows_at(e0, errors@, loc),
            (errors@.len() == e0.len()) == (forall|j: int| 0 <= j < i ==> has_ty(*f, #[trigger] items@[j], t)),
        decreases items.len() - i,
    {
        let ghost before = errors@;
        check_slot_type(f, items[i], t, loc, errors, false);
        proof {
            lemma_grows_at_trans(e0, before, errors@, loc);
            assert(errors@ =~= e0 + items_findings(*f, items@, t, loc, i + 1));
        }
        i += 1;
    }
}

fn check_entries(f: &EirFunction, entries: &Vec<(SlotId, SlotId)>, kt: TypeId, vt: TypeId, loc: Loc, errors: &mut Vec<VerifyError>)
    ensures
        grows_at(old(errors)@, final(errors)@, loc),
        (final(errors)@.len() == old(errors)@.len()) == (forall|i: int|
            0 <= i < entries@.len() ==> has_ty(*f, (#[trigger] entries@[i]).0, kt) && has_ty(*f, entries@[i].1, vt)),
        final(errors)@ == old(errors)@ + entries_findings(*f, entries@, kt, vt, loc, entries@.len() as int),
{
    let ghost e0 = errors@;
    proof {
        lemma_same_grows(errors@, loc);
        assert(e0 + entries_findings(*f, entries@, kt, vt, loc, 0) =~= e0);
    }
    let mut i: usize = 0;
    while i < entries.len()
        invariant
            i <= entries@.len(),
            errors@ == e0 + entries_findings(*f, entries@, kt, vt, loc, i as int),
            grows_at(e0, errors@, loc),
            (errors@.len() == e0.len()) == (forall|j: int|
                0 <= j < i ==> has_ty(*f, (#[trigger] entries@[j]).0, kt) && has_ty(*f, entries@[j].1, vt)),
        decreases entries.len() - i,
    {
        let ghost before = errors@;
        check_slot_type(f, entries[i].0, kt, loc, errors, false);
        let ghost mid = errors@;
        check_slot_type(f, entries[i].1, vt, loc, errors, false);
        proof {
            lemma_grows_at_trans(before, mid, errors@, loc);
            lemma_grows_at_trans(e0, before, errors@, loc);
            assert(errors@ =~= e0 + entries_findings(*f, entries@, kt, vt, loc, i + 1));
        }
        i += 1;
    }
}

fn check_field_slots(f: &EirFunction, fields: &Vec<(FieldId, SlotId)>, loc: Loc, errors: &mut Vec<VerifyError>)
    ensures
        grows_at(old(errors)@, final(errors)@, loc),
        (final(errors)@.len() == old(errors)@.len()) == (forall|i: int| 0 <= i < fields@.len() ==> valid_slot(*f, (#[trigger] fields@[i]).1)),
        final(errors)@ == old(errors)@ + fields_findings(*f, fields@, loc, fields@.len() as int),
{
    let ghost e0 = errors@;
    proof {
        lemma_same_grows(errors@, loc);
        assert(e0 + fields_findings(*f, fields@, loc, 0) =~= e0);
    }
    let mut i: usize = 0;
    while i < fields.len()
        invariant
            i <= fields@.len(),
            errors@ == e0 + fields_findings(*f, fields@, loc, i as int),
            grows_at(e0, errors@, loc),
            (errors@.len() == e0.len()) == (forall|j: int| 0 <= j < i ==> valid_slot(*f, (#[trigger] fields@[j]).1)),
        decreases fields.len() - i,
    {
        let ghost before = errors@;
        slot_type(f, fields[i].1, loc, errors);
        proof {
            lemma_grows_at_trans(e0, before, errors@, loc);
            assert(errors@ =~= e0 + fields_findings(*f, fields@, loc, i + 1));
        }
        i += 1;
    }
}

fn verify_direct_call(
    p: &EirProgram,
    f: &EirFunction,
    dst: Option<SlotId>,
    callee_id: FunctionId,
    args: &Vec<SlotId>,
    loc: Loc,
    errors: &mut Vec<VerifyError>,
)
    ensures
        grows_at(old(errors)@, final(errors)@, loc),
        (final(errors)@.len() == old(errors)@.len()) == direct_call_ok(*p, *f, dst, callee_id, args@),
        final(errors)@ == old(errors)@ + direct_call_findings(*p, *f, dst, callee_id, args@, loc),
{
    broadcast use lemma_grows_at_trans;
    let callee = match p.function(callee_id) {
        Some(c) => c,
        None => {
            report(errors, loc, VerifyErrorKind::InvalidFunction(callee_id));
            return;
        },
    };
    let ghost e0 = errors@;
    if args.len() != callee.signature.params.len() {
        report(errors, loc, VerifyErrorKind::CallArgumentCount {
            function: callee_id,
            expected: callee.signature.params.len(),
            actual: args.len(),
        });
    } else {
        proof {
            lemma_same_grows(errors@, loc);
        }
    }
    check_args(f, args, &callee.signature.params, false, loc, errors);
    let return_type = callee.signature.return_type;
    match dst {
        Some(destination) => check_slot_type(f, destination, return_type, loc, errors, false),
        None => {
            if return_type != TypeId(1) {
                report(errors, loc, VerifyErrorKind::MissingCallDestination { function: callee_id, return_type });
            } else {
                proof {
                    lemma_same_grows(errors@, loc);
                }
            }
        },
    }
    let caller_effects = f.signature.effects;
    let callee_effects = callee.signature.effects;
    let violates_purity = caller_effects.contains(Effects(1)) && !callee_effects.contains(Effects(1));
    let misses_effect = (callee_effects.contains(Effects(2)) && !caller_effects.contains(Effects(2)))
        || (callee_effects.contains(Effects(4)) && !caller_effects.contains(Effects(4)))
        || (callee_effects.contains(Effects(8)) && !caller_effects.contains(Effects(8)))
        || (callee_effects.contains(Effects(16)) && !caller_effects.contains(Effects(16)))
        || (callee_effects.contains(Effects(32)) && !caller_effects.contains(Effects(32)));
    if violates_purity || misses_effect {
        report(errors, loc, VerifyErrorKind::EffectViolation { callee: callee_id });
    } else {
        proof {
            lemma_same_grows(errors@, loc);
        }
    }
    proof {
        assert(errors@ =~= e0 + direct_call_findings(*p, *f, dst, callee_id, args@, loc));
    }
}


/// The typing rule of a block terminator.
pub open spec fn terminator_ok(p: EirProgram, f: EirFunction, t: TerminatorKind) -> bool {
    match t {
        TerminatorKind::Jump(target) => (target.0 as int) < f.blocks@.len(),
        TerminatorKind::Branch { condition, then_block, else_block } => has_ty(f, condition, TypeId(2))
            && (then_block.0 as int) < f.blocks@.len() && (else_block.0 as int) < f.blocks@.len(),
        TerminatorKind::Return(value) => match value {
            None => f.signature.return_type == TypeId(1),
            Some(slot) => f.signature.return_type != TypeId(1) && valid_slot(f, slot) && (f.slots@[slot.0 as int]
                == f.signature.return_type || (f.signature.effects.spec_contains(Effects(2)) && (type_of(
                p,
                f.slots@[slot.0 as int],
            ) matches Some(SemTypeModel::Error(_))))),
        },
        TerminatorKind::Throw(slot) => valid_slot(f, slot) && f.signature.effects.spec_contains(Effects(2)),
        TerminatorKind::Unreachable => true,
    }
}

pub open spec fn terminator_loc(f: EirFunction, block: BlockId, t: Terminator) -> Loc {
    Loc { function: f.id, block, instruction: None, anchor: t.anchor }
}

fn check_block(f: &EirFunction, block: BlockId, loc: Loc, errors: &mut Vec<VerifyError>)
    ensures
        grows_at(old(errors)@, final(errors)@, loc),
        (final(errors)@.len() == old(errors)@.len()) == ((block.0 as int) < f.blocks@.len()),
        final(errors)@ == old(errors)@ + block_findings(*f, block, loc),
{
    if block.index() < f.blocks.len() {
        proof {
            lemma_same_grows(errors@, loc);
            assert(errors@ + block_findings(*f, block, loc) =~= errors@);
        }
    } else {
        report(errors, loc, VerifyErrorKind::InvalidBlock(block));
    }
}

/// Checks a terminator: jump targets exist, a branch condition is `bool`, a return matches the
/// return type (an error value being allowed for a function that may fail), a throw needs the
/// failure effect.
fn verify_terminator(
    p: &EirProgram,
    f: &EirFunction,
    block: BlockId,
    terminator: &Terminator,
    errors: &mut Vec<VerifyError>,
)
    ensures
        grows_at(old(errors)@, final(errors)@, terminator_loc(*f, block, *terminator)),
        (final(errors)@.len() == old(errors)@.len()) == terminator_ok(*p, *f, terminator.kind),
        final(errors)@ == old(errors)@ + terminator_findings(*p, *f, terminator.kind, terminator_loc(*f, block, *terminator)),
{
    broadcast use lemma_grows_at_trans;
    let loc = Loc { function: f.id, block, instruction: None, anchor: terminator.anchor };
    proof {
        lemma_same_grows(errors@, loc);
    }
    match &terminator.kind {
        TerminatorKind::Jump(target) => check_block(f, *target, loc, errors),
        TerminatorKind::Branch { condition, then_block, else_block } => {
            check_slot_type(f, *condition, TypeId(2), loc, errors, false);
            check_block(f, *then_block, loc, errors);
            check_block(f, *else_block, loc, errors);
        },
        TerminatorKind::Return(value) => {
            let expected = f.signature.return_type;
            match value {
                None => {
                    if expected != TypeId(1) {
                        report(errors, loc, VerifyErrorKind::MissingReturnValue(expected));
                    }
                },
                Some(slot) => {
                    if expected == TypeId(1) {
                        report(errors, loc, VerifyErrorKind::UnexpectedReturnValue);
                    } else {
                        match slot_type(f, *slot, loc, errors) {
                            Some(actual) => {
                                let is_error = match sem_type(p, actual) {
                                    Some(SemType::Error(_)) => true,
                                    _ => false,
                                };
                                let returns_declared_error = f.signature.effects.contains(Effects(2)) && is_error;
                                if actual != expected && !returns_declared_error {
                                    report(errors, loc, VerifyErrorKind::SlotType { slot: *slot, expected, actual });
                                }
                            },
                            None => {},
                        }
                    }
                },
            }
        },
        TerminatorKind::Throw(slot) => {
            slot_type(f, *slot, loc, errors);
            if !f.signature.effects.contains(Effects(2)) {
                report(errors, loc, VerifyErrorKind::ThrowWithoutEffect);
            }
        },
        TerminatorKind::Unreachable => {},
    }
}


/// Parameter count, signature, and slot types of a function agree, and all its types are in the table.
pub open spec fn function_header_ok(p: EirProgram, f: EirFunction) -> bool {
    &&& f.parameter_count as int == f.signature.params@.len()
    &&& f.parameter_count as int <= f.slots@.len()
    &&& forall|i: int| 0 <= i < f.signature.params@.len() ==> type_of(p, #[trigger] f.signature.params@[i]).is_some()
    &&& type_of(p, f.signature.return_type).is_some()
    &&& forall|i: int| 0 <= i < f.slots@.len() ==> type_of(p, #[trigger] f.slots@[i]).is_some()
    &&& forall|i: int| 0 <= i < f.slots@.len() && i < f.signature.params@.len() ==> #[trigger] f.slots@[i] == f.signature.params@[i]
}

/// Every instruction and terminator of every block satisfies its typing rule.
pub open spec fn blocks_ok(p: EirProgram, f: EirFunction) -> bool {
    &&& forall|b: int, i: int|
        0 <= b < f.blocks@.len() && 0 <= i < f.blocks@[b].instructions@.len() ==> instruction_ok(
            p,
            f,
            (#[trigger] f.blocks@[b].instructions@[i]).kind,
        )
    &&& forall|b: int| 0 <= b < f.blocks@.len() ==> terminator_ok(p, f, (#[trigger] f.blocks@[b]).terminator.kind)
}

/// A function the verifier accepts.
pub open spec fn function_ok(p: EirProgram, f: EirFunction) -> bool {
    &&& f.blocks@.len() > 0
    &&& function_header_ok(p, f)
    &&& blocks_ok(p, f)
    &&& reads_initialized(f)
}

pub open spec fn fallback_anchor() -> SourceAnchor {
    SourceAnchor { source: SourceId(0), start: 0, end: 0 }
}

fn make_fallback_anchor() -> (a: SourceAnchor)
    ensures
        a == fallback_anchor(),
{
    SourceAnchor { source: SourceId(0), start: 0, end: 0 }
}

fn function_anchor(f: &EirFunction) -> (a: SourceAnchor)
    ensures
        a == spec_function_anchor(*f),
{
    if f.blocks.len() > 0 {
        f.blocks[0].terminator.anchor
    } else {
        make_fallback_anchor()
    }
}

fn check_known_type(p: &EirProgram, f: &EirFunction, ty: TypeId, errors: &mut Vec<VerifyError>)
    ensures
        grows(old(errors)@, final(errors)@),
        (final(errors)@.len() == old(errors)@.len()) == type_of(*p, ty).is_some(),
        final(errors)@ == old(errors)@ + known_type_findings(*p, *f, ty),
{
    if sem_type(p, ty).is_none() {
        let anchor = function_anchor(f);
        errors.push(VerifyError { function: f.id, block: BlockId(0), instruction: None, anchor, kind: VerifyErrorKind::InvalidType(ty) });
    }
    proof {
        assert(final(errors)@.subrange(0, old(errors)@.len() as int) =~= old(errors)@);
        assert(final(errors)@ =~= old(errors)@ + known_type_findings(*p, *f, ty));
    }
}

/// Checks the function header: parameter count, the types it names, and parameter slot types.
fn verify_function_header(p: &EirProgram, f: &EirFunction, errors: &mut Vec<VerifyError>)
    requires
        f.slots@.len() <= u32::MAX + 1,
    ensures
        grows(old(errors)@, final(errors)@),
        (final(errors)@.len() == old(errors)@.len()) == function_header_ok(*p, *f),
        final(errors)@ == old(errors)@ + header_findings(*p, *f),
{
    let ghost e0 = errors@;
    let parameter_count = f.parameter_count as usize;
    if parameter_count != f.signature.params.len() || parameter_count > f.slots.len() {
        let anchor = function_anchor(f);
        errors.push(VerifyError {
            function: f.id,
            block: BlockId(0),
            instruction: None,
            anchor,
            kind: VerifyErrorKind::ParameterCount {
                signature: f.signature.params.len(),
                declared: f.parameter_count,
                slots: f.slots.len(),
            },
        });
    }
    assert(errors@.subrange(0, e0.len() as int) =~= e0);
    let ghost e1 = errors@;
    proof {
        lemma_grows_refl(e1);
        assert(errors@ =~= e0 + (if f.parameter_count as int != f.signature.params@.len() || f.parameter_count as int > f.slots@.len() {
            seq![function_finding(*f, VerifyErrorKind::ParameterCount {
                signature: f.signature.params@.len() as usize,
                declared: f.parameter_count,
                slots: f.slots@.len() as usize,
            })]
        } else {
            Seq::empty()
        }));
        assert(e1 + param_type_findings(*p, *f, 0) =~= e1);
    }
    let mut i: usize = 0;
    while i < f.signature.params.len()
        invariant
            i <= f.signature.params@.len(),
            grows(e1, errors@),
            errors@ == e1 + param_type_findings(*p, *f, i as int),
            (errors@.len() == e1.len()) == (forall|j: int| 0 <= j < i ==> type_of(*p, #[trigger] f.signature.params@[j]).is_some()),
        decreases f.signature.params.len() - i,
    {
        let ghost before = errors@;
        check_known_type(p, f, f.signature.params[i], errors);
        proof {
            lemma_grows_trans(e1, before, errors@);
            assert(errors@ =~= e1 + param_type_findings(*p, *f, i + 1));
        }
        i += 1;
    }
    let ghost e2 = errors@;
    check_known_type(p, f, f.signature.return_type, errors);
    proof {
        lemma_grows_trans(e1, e2, errors@);
    }
    let ghost e3 = errors@;
    proof {
        lemma_grows_refl(e3);
        assert(e3 + slot_type_findings(*p, *f, 0) =~= e3);
    }
    let mut i: usize = 0;
    while i < f.slots.len()
        invariant
            i <= f.slots@.len(),
            f.slots@.len() <= u32::MAX + 1,
            grows(e3, errors@),
            errors@ == e3 + slot_type_findings(*p, *f, i as int),
            (errors@.len() == e3.len()) == ((forall|j: int| 0 <= j < i ==> type_of(*p, #[trigger] f.slots@[j]).is_some())
                && (forall|j: int| 0 <= j < i && j < f.signature.params@.len() ==> #[trigger] f.slots@[j] == f.signature.params@[j])),
        decreases f.slots.len() - i,
    {
        let ghost before = errors@;
        let ty = f.slots[i];
        check_known_type(p, f, ty, errors);
        let ghost mid = errors@;
        if i < f.signature.params.len() && f.signature.params[i] != ty {
            let anchor = function_anchor(f);
            errors.push(VerifyError {
                function: f.id,
                block: BlockId(0),
                instruction: None,
                anchor,
                kind: VerifyErrorKind::SlotType { slot: SlotId(i as u32), expected: f.signature.params[i], actual: ty },
            });
        }
        proof {
            assert(errors@.subrange(0, mid.len() as int) =~= mid);
            lemma_grows_trans(before, mid, errors@);
            lemma_grows_trans(e3, before, errors@);
            let ii = i as int;
            assert(f.slots@[ii] == ty);
            assert(errors@ =~= e3 + slot_type_findings(*p, *f, ii + 1));
            assert(ty == f.slots@[ii]);
            assert((mid.len() == before.len()) == type_of(*p, ty).is_some());
            assert((errors@.len() == mid.len()) == !(ii < f.signature.params@.len() && f.signature.params@[ii] != ty));
            assert(before.len() >= e3.len() && mid.len() >= before.len() && errors@.len() >= mid.len());
            assert((forall|j: int| 0 <= j < ii + 1 ==> type_of(*p, #[trigger] f.slots@[j]).is_some()) == ((forall|j: int|
                0 <= j < ii ==> type_of(*p, #[trigger] f.slots@[j]).is_some()) && type_of(*p, f.slots@[ii]).is_some()));
            assert((forall|j: int| 0 <= j < ii + 1 && j < f.signature.params@.len() ==> #[trigger] f.slots@[j] == f.signature.params@[j]) == ((forall|j: int|
                0 <= j < ii && j < f.signature.params@.len() ==> #[trigger] f.slots@[j] == f.signature.params@[j]) && (ii < f.signature.params@.len() ==> f.slots@[ii] == f.signature.params@[ii])));
        }
        i += 1;
        assert((errors@.len() == e3.len()) == ((forall|j: int| 0 <= j < i ==> type_of(*p, #[trigger] f.slots@[j]).is_some())
                && (forall|j: int| 0 <= j < i && j < f.signature.params@.len() ==> #[trigger] f.slots@[j] == f.signature.params@[j])));
    }
    proof {
        lemma_grows_trans(e1, e3, errors@);
        lemma_grows_trans(e0, e1, errors@);
        assert(errors@ =~= e0 + header_findings(*p, *f));
    }
}

/// Checks every instruction and terminator.
fn verify_blocks(p: &EirProgram, f: &EirFunction, errors: &mut Vec<VerifyError>)
    requires
        f.blocks@.len() <= u32::MAX + 1,
    ensures
        grows(old(errors)@, final(errors)@),
        (final(errors)@.len() == old(errors)@.len()) == blocks_ok(*p, *f),
        final(errors)@ == old(errors)@ + blocks_findings(*p, *f, f.blocks@.len() as int),
{
    let ghost e0 = errors@;
    assert(errors@.subrange(0, e0.len() as int) =~= e0);
    assert(e0 + blocks_findings(*p, *f, 0) =~= e0);
    let mut b: usize = 0;
    while b < f.blocks.len()
        invariant
            b <= f.blocks@.len(),
            f.blocks@.len() <= u32::MAX + 1,
            grows(e0, errors@),
            errors@ == e0 + blocks_findings(*p, *f, b as int),
            (errors@.len() == e0.len()) == ((forall|bb: int, i: int|
                0 <= bb < b && 0 <= i < f.blocks@[bb].instructions@.len() ==> instruction_ok(
                    *p,
                    *f,
                    (#[trigger] f.blocks@[bb].instructions@[i]).kind,
                )) && (forall|bb: int| 0 <= bb < b ==> terminator_ok(*p, *f, (#[trigger] f.blocks@[bb]).terminator.kind))),
        decreases f.blocks.len() - b,
    {
        let block = &f.blocks[b];
        let block_id = BlockId(b as u32);
        let ghost eb = errors@;
        proof {
            lemma_grows_refl(eb);
            assert(eb + instructions_findings(*p, *f, b as int, 0) =~= eb);
        }
        let mut i: usize = 0;
        while i < block.instructions.len()
            invariant
                i <= block.instructions@.len(),
                *block == f.blocks@[b as int],
                block_id == BlockId(b as u32),
                grows(eb, errors@),
                errors@ == eb + instructions_findings(*p, *f, b as int, i as int),
                (errors@.len() == eb.len()) == (forall|j: int|
                    0 <= j < i ==> instruction_ok(*p, *f, (#[trigger] block.instructions@[j]).kind)),
            decreases block.instructions.len() - i,
        {
            let ghost before = errors@;
            verify_instruction(p, f, block_id, i, &block.instructions[i], errors);
            proof {
                lemma_grows_trans(eb, before, errors@);
                let ins = block.instructions@[i as int];
                let loc = instruction_loc(*f, block_id, i, ins);
                lemma_every_instruction_kind_has_findings(*p, *f, ins.kind, loc);
                assert(errors@ == before + instruction_findings(*p, *f, ins.kind, loc));
                assert(f.blocks@[b as int].instructions@[i as int] == ins);
                assert(errors@ =~= eb + instructions_findings(*p, *f, b as int, i + 1));
            }
            i += 1;
        }
        let ghost ei = errors@;
        verify_terminator(p, f, block_id, &block.terminator, errors);
        proof {
            lemma_grows_trans(eb, ei, errors@);
            lemma_grows_trans(e0, eb, errors@);
            assert(errors@ =~= e0 + blocks_findings(*p, *f, b + 1));
            if errors@.len() == e0.len() {
                assert forall|bb: int, i: int|
                    0 <= bb < b + 1 && 0 <= i < f.blocks@[bb].instructions@.len() implies instruction_ok(
                    *p,
                    *f,
                    (#[trigger] f.blocks@[bb].instructions@[i]).kind,
                ) by {
                    if bb == b as int {
                        assert(block.instructions@[i] == f.blocks@[bb].instructions@[i]);
                    }
                }
            }
        }
        b += 1;
    }
}

/// Checks a function: it has blocks, a consistent header, well-typed blocks, and no read of a
/// slot that may be uninitialized.
fn verify_function(p: &EirProgram, f: &EirFunction, errors: &mut Vec<VerifyError>)
    requires
        f.blocks@.len() <= u32::MAX + 1,
        f.slots@.len() <= u32::MAX + 1,
    ensures
        grows(old(errors)@, final(errors)@),
        (final(errors)@.len() == old(errors)@.len()) == function_ok(*p, *f),
        final(errors)@ == old(errors)@ + function_findings(*p, *f),
{
    if f.blocks.len() == 0 {
        let anchor = function_anchor(f);
        errors.push(VerifyError { function: f.id, block: BlockId(0), instruction: None, anchor, kind: VerifyErrorKind::EmptyFunction });
        assert(errors@.subrange(0, old(errors)@.len() as int) =~= old(errors)@);
        assert(errors@ =~= old(errors)@ + function_findings(*p, *f));
        return;
    }
    let ghost e0 = errors@;
    verify_function_header(p, f, errors);
    let ghost e1 = errors@;
    verify_blocks(p, f, errors);
    let ghost e2 = errors@;
    verify_initialized_reads(f, errors);
    proof {
        lemma_grows_trans(e0, e1, e2);
        lemma_grows_trans(e0, e2, errors@);
        assert(errors@ =~= e0 + function_findings(*p, *f));
    }
}


// ---------------------------------------------------------------------------
// Reachability and definite initialization

/// Control may pass from block `a` to block `b`: `b` is a jump or branch target of `a`, and both exist.
pub open spec fn edge(f: EirFunction, a: int, b: int) -> bool {
    &&& 0 <= a < f.blocks@.len()
    &&& 0 <= b < f.blocks@.len()
    &&& match f.blocks@[a].terminator.kind {
        TerminatorKind::Jump(t) => t.0 as int == b,
        TerminatorKind::Branch { then_block, else_block, .. } => then_block.0 as int == b || else_block.0 as int == b,
        _ => false,
    }
}

/// A set of blocks closed under control-flow edges.
pub open spec fn closed_under_edges(f: EirFunction, c: Set<int>) -> bool {
    forall|a: int, b: int| c.contains(a) && #[trigger] edge(f, a, b) ==> c.contains(b)
}

/// Block `b` is reachable from the entry block: it lies in every edge-closed set that holds the entry.
pub open spec fn reachable(f: EirFunction, b: int) -> bool {
    &&& 0 <= b < f.blocks@.len()
    &&& forall|c: Set<int>| #[trigger] closed_under_edges(f, c) && c.contains(0) ==> c.contains(b)
}

/// Definite-initialization effect of one instruction: a moved-from slot becomes uninitialized,
/// then the destination becomes initialized.
pub open spec fn transfer(k: InstructionKind, st: Seq<bool>) -> Seq<bool> {
    let moved = match k {
        InstructionKind::Move { src, .. } => if (src.0 as int) < st.len() { st.update(src.0 as int, false) } else { st },
        _ => st,
    };
    match k.spec_destination() {
        Some(d) => if (d.0 as int) < moved.len() { moved.update(d.0 as int, true) } else { moved },
        None => moved,
    }
}

/// The state after the first `k` instructions, from state `st`.
pub open spec fn run(instrs: Seq<Instruction>, k: int, st: Seq<bool>) -> Seq<bool>
    decreases k,
{
    if k <= 0 {
        st
    } else {
        transfer(instrs[k - 1].kind, run(instrs, k - 1, st))
    }
}

/// The state at the end of block `b` when it starts in state `st`.
pub open spec fn block_out(f: EirFunction, b: int, st: Seq<bool>) -> Seq<bool> {
    run(f.blocks@[b].instructions@, f.blocks@[b].instructions@.len() as int, st)
}

/// At function entry exactly the parameters are initialized.
pub open spec fn entry_state(f: EirFunction) -> Seq<bool> {
    Seq::new(f.slots@.len(), |s: int| s < f.parameter_count)
}

/// The state entering reachable block `b` given the end states `outs` of all blocks: a slot is
/// initialized when the block has a reachable predecessor and every reachable predecessor ends
/// with the slot initialized.
pub open spec fn meet(f: EirFunction, outs: Seq<Seq<bool>>, b: int) -> Seq<bool> {
    Seq::new(
        f.slots@.len(),
        |s: int|
            (exists|q: int| reachable(f, q) && #[trigger] edge(f, q, b)) && (forall|q: int|
                reachable(f, q) && #[trigger] edge(f, q, b) ==> outs[q][s]),
    )
}

/// Entry states of blocks that satisfy the dataflow equations on every reachable block.
pub open spec fn is_init_solution(f: EirFunction, ins: Seq<Seq<bool>>) -> bool {
    &&& ins.len() == f.blocks@.len()
    &&& forall|b: int| 0 <= b < ins.len() ==> (#[trigger] ins[b]).len() == f.slots@.len()
    &&& ins.len() > 0 ==> ins[0] == entry_state(f)
    &&& forall|b: int|
        0 < b < ins.len() && #[trigger] reachable(f, b) ==> ins[b] == meet(
            f,
            Seq::new(ins.len(), |q: int| block_out(f, q, ins[q])),
            b,
        )
}

/// A read of slot `r` in state `st` finds it initialized (a slot outside the state counts as initialized).
pub open spec fn read_ok(st: Seq<bool>, r: SlotId) -> bool {
    (r.0 as int) < st.len() ==> st[r.0 as int]
}

pub open spec fn terminator_reads(t: TerminatorKind) -> Seq<SlotId> {
    match t {
        TerminatorKind::Branch { condition, .. } => seq![condition],
        TerminatorKind::Return(Some(v)) => seq![v],
        TerminatorKind::Throw(v) => seq![v],
        _ => Seq::empty(),
    }
}

/// Under entry states `ins`, every read in a reachable block finds its slot initialized.
pub open spec fn reads_ok(f: EirFunction, ins: Seq<Seq<bool>>) -> bool {
    &&& forall|b: int, i: int, j: int|
        #![trigger reachable(f, b), f.blocks@[b].instructions@[i].kind.spec_read_slots()[j]]
        reachable(f, b) && 0 <= i < f.blocks@[b].instructions@.len() && 0 <= j
            < f.blocks@[b].instructions@[i].kind.spec_read_slots().len() ==> read_ok(
            run(f.blocks@[b].instructions@, i, ins[b]),
            f.blocks@[b].instructions@[i].kind.spec_read_slots()[j],
        )
    &&& forall|b: int, j: int|
        #![trigger reachable(f, b), terminator_reads(f.blocks@[b].terminator.kind)[j]]
        reachable(f, b) && 0 <= j < terminator_reads(f.blocks@[b].terminator.kind).len() ==> read_ok(
            block_out(f, b, ins[b]),
            terminator_reads(f.blocks@[b].terminator.kind)[j],
        )
}

/// No read of a slot that may be uninitialized: some solution of the dataflow equations makes
/// every read in a reachable block find its slot initialized.
pub open spec fn reads_initialized(f: EirFunction) -> bool {
    exists|ins: Seq<Seq<bool>>| is_init_solution(f, ins) && reads_ok(f, ins)
}


pub open spec fn spec_targets(t: TerminatorKind) -> Seq<BlockId> {
    match t {
        TerminatorKind::Jump(target) => seq![target],
        TerminatorKind::Branch { then_block, else_block, .. } => seq![then_block, else_block],
        _ => Seq::empty(),
    }
}

proof fn lemma_edge_targets(f: EirFunction, a: int, b: int)
    requires
        0 <= a < f.blocks@.len(),
        0 <= b < f.blocks@.len(),
    ensures
        edge(f, a, b) <==> exists|k: int|
            0 <= k < spec_targets(f.blocks@[a].terminator.kind).len() && (#[trigger] spec_targets(
                f.blocks@[a].terminator.kind,
            )[k]).0 as int == b,
{
    let t = spec_targets(f.blocks@[a].terminator.kind);
    match f.blocks@[a].terminator.kind {
        TerminatorKind::Jump(x) => {
            if edge(f, a, b) {
                assert(t[0].0 as int == b);
            }
        },
        TerminatorKind::Branch { then_block, else_block, .. } => {
            if then_block.0 as int == b {
                assert(t[0].0 as int == b);
            } else if else_block.0 as int == b {
                assert(t[1].0 as int == b);
            }
        },
        _ => {},
    }
}

fn terminator_targets(t: &TerminatorKind) -> (r: Vec<BlockId>)
    ensures
        r@ == spec_targets(*t),
{
    let mut r: Vec<BlockId> = Vec::new();
    match t {
        TerminatorKind::Jump(target) => {
            r.push(*target);
        },
        TerminatorKind::Branch { then_block, else_block, .. } => {
            r.push(*then_block);
            r.push(*else_block);
        },
        _ => {},
    }
    assert(r@ =~= spec_targets(*t));
    r
}

fn terminator_read_slots(t: &TerminatorKind) -> (r: Vec<SlotId>)
    ensures
        r@ == terminator_reads(*t),
{
    let mut r: Vec<SlotId> = Vec::new();
    match t {
        TerminatorKind::Branch { condition, .. } => {
            r.push(*condition);
        },
        TerminatorKind::Return(Some(v)) => {
            r.push(*v);
        },
        TerminatorKind::Throw(v) => {
            r.push(*v);
        },
        _ => {},
    }
    assert(r@ =~= terminator_reads(*t));
    r
}

/// Pushes the in-range successors of `index` onto the worklist.
fn push_successors(f: &EirFunction, index: usize, work: &mut Vec<usize>)
    requires
        index < f.blocks@.len(),
    ensures
        forall|k: int| 0 <= k < old(work)@.len() ==> final(work)@[k] == old(work)@[k],
        final(work)@.len() >= old(work)@.len(),
        forall|k: int| old(work)@.len() <= k < final(work)@.len() ==> edge(*f, index as int, #[trigger] final(work)@[k] as int),
        forall|b: int| #[trigger] edge(*f, index as int, b) ==> final(work)@.contains(b as usize),
{
    let n = f.blocks.len();
    match &f.blocks[index].terminator.kind {
        TerminatorKind::Jump(target) => {
            if target.index() < n {
                work.push(target.index());
                assert(final(work)@[final(work)@.len() - 1] == target.0 as usize);
            }
        },
        TerminatorKind::Branch { then_block, else_block, .. } => {
            if then_block.index() < n {
                work.push(then_block.index());
                assert(work@[work@.len() - 1] == then_block.0 as usize);
            }
            let ghost mid = work@;
            if else_block.index() < n {
                work.push(else_block.index());
                assert(work@[work@.len() - 1] == else_block.0 as usize);
            }
            assert forall|b: int| #[trigger] edge(*f, index as int, b) implies work@.contains(b as usize) by {
                if then_block.0 as int == b {
                    assert(mid.contains(b as usize));
                    let k = choose|k: int| 0 <= k < mid.len() && mid[k] == b as usize;
                    assert(work@[k] == b as usize);
                } else {
                    assert(work@[work@.len() - 1] == b as usize);
                }
            }
        },
        _ => {},
    }
}

/// Which blocks the entry block reaches, by a worklist search.
#[verifier::loop_isolation(false)]
fn reachable_blocks(f: &EirFunction) -> (r: Vec<bool>)
    ensures
        r@.len() == f.blocks@.len(),
        forall|b: int| 0 <= b < f.blocks@.len() ==> #[trigger] r@[b] == reachable(*f, b),
{
    let n = f.blocks.len();
    let mut marks: Vec<bool> = Vec::new();
    let mut i: usize = 0;
    while i < n
        invariant
            i <= n,
            marks@.len() == i,
            forall|b: int| 0 <= b < i ==> !marks@[b],
        decreases n - i,
    {
        marks.push(false);
        i += 1;
    }
    proof {
        lemma_count_true_zero(marks@);
    }
    let mut work: Vec<usize> = Vec::new();
    work.push(0);
    assert(work@[0] == 0usize);
    loop
        invariant
            n == f.blocks@.len(),
            marks@.len() == n,
            count_true(marks@) <= n,
            forall|c: Set<int>| #[trigger] closed_under_edges(*f, c) && c.contains(0) ==> (forall|b: int|
                0 <= b < n && marks@[b] ==> c.contains(b)) && (forall|k: int|
                0 <= k < work@.len() && (work@[k] as int) < n ==> c.contains(work@[k] as int)),
            forall|a: int, b: int|
                0 <= a < n && marks@[a] && #[trigger] edge(*f, a, b) ==> marks@[b] || work@.contains(b as usize),
            n > 0 ==> marks@[0] || work@.contains(0usize),
        decreases n - count_true(marks@), work@.len(),
    {
        let ghost old_work = work@;
        let ghost old_marks = marks@;
        match work.pop() {
            None => {
                proof {
                    let m = marked_set(marks@);
                    assert(closed_under_edges(*f, m)) by {
                        assert forall|a: int, b: int| m.contains(a) && #[trigger] edge(*f, a, b) implies m.contains(b) by {
                            if !marks@[b] {
                                assert(work@.contains(b as usize));
                            }
                        }
                    }
                    assert forall|b: int| 0 <= b < n implies #[trigger] marks@[b] == reachable(*f, b) by {
                        if !marks@[b] && reachable(*f, b) {
                            if n > 0 {
                                assert(m.contains(0));
                            }
                            assert(m.contains(b));
                        }
                    }
                }
                break;
            },
            Some(index) => {
                if index >= n || marks[index] {
                    proof {
                        assert forall|a: int, b: int|
                            0 <= a < n && marks@[a] && #[trigger] edge(*f, a, b) implies marks@[b] || work@.contains(b as usize) by {
                            if !marks@[b] {
                                assert(old_work.contains(b as usize));
                                let k = choose|k: int| 0 <= k < old_work.len() && old_work[k] == b as usize;
                                if k < work@.len() {
                                    assert(work@[k] == b as usize);
                                }
                            }
                        }
                        if n > 0 && !marks@[0] {
                            let k = choose|k: int| 0 <= k < old_work.len() && old_work[k] == 0usize;
                            assert(work@[k] == 0usize);
                        }
                    }
                    continue;
                }
                proof {
                    lemma_count_true_set(marks@, index as int);
                    lemma_count_true_bound(marks@.update(index as int, true));
                }
                marks.set(index, true);
                let ghost popped = work@;
                push_successors(f, index, &mut work);
                proof {
                    assert forall|c: Set<int>| #[trigger] closed_under_edges(*f, c) && c.contains(0) implies (forall|b: int|
                        0 <= b < n && marks@[b] ==> c.contains(b)) && (forall|k: int|
                        0 <= k < work@.len() && (work@[k] as int) < n ==> c.contains(work@[k] as int)) by {
                        assert(old_work[old_work.len() - 1] == index);
                        assert(c.contains(index as int));
                        assert forall|k: int| 0 <= k < work@.len() && (work@[k] as int) < n implies c.contains(work@[k] as int) by {
                            if k >= popped.len() {
                                assert(edge(*f, index as int, work@[k] as int));
                            } else {
                                assert(work@[k] == old_work[k]);
                            }
                        }
                    }
                    assert forall|a: int, b: int|
                        0 <= a < n && marks@[a] && #[trigger] edge(*f, a, b) implies marks@[b] || work@.contains(b as usize) by {
                        if a != index as int && !marks@[b] {
                            assert(old_marks[a]);
                            assert(old_work.contains(b as usize));
                            let k = choose|k: int| 0 <= k < old_work.len() && old_work[k] == b as usize;
                            if k < popped.len() {
                                assert(work@[k] == b as usize);
                            } else {
                                assert(b as usize == index);
                            }
                        }
                    }
                    if n > 0 && !marks@[0] {
                        let k = choose|k: int| 0 <= k < old_work.len() && old_work[k] == 0usize;
                        if k < popped.len() {
                            assert(work@[k] == 0usize);
                        }
                    }
                }
            },
        }
    }
    marks
}


/// The views of a list of states.
pub open spec fn views(v: Seq<Vec<bool>>) -> Seq<Seq<bool>> {
    v.map_values(|x: Vec<bool>| x@)
}

/// Every state has length `m`.
pub open spec fn all_len(v: Seq<Seq<bool>>, m: int) -> bool {
    forall|b: int| 0 <= b < v.len() ==> (#[trigger] v[b]).len() == m
}

/// Total number of initialized entries over all states.
pub open spec fn total_true(v: Seq<Seq<bool>>) -> nat
    decreases v.len(),
{
    if v.len() == 0 {
        0
    } else {
        total_true(v.drop_last()) + count_true(v.last())
    }
}

proof fn lemma_total_true_le(a: Seq<Seq<bool>>, b: Seq<Seq<bool>>)
    requires
        a.len() == b.len(),
        forall|i: int| 0 <= i < a.len() ==> le_bools(#[trigger] a[i], b[i]),
    ensures
        total_true(a) <= total_true(b),
        total_true(a) == total_true(b) ==> a == b,
    decreases a.len(),
{
    if a.len() > 0 {
        let n = a.len() - 1;
        assert forall|i: int| 0 <= i < n implies le_bools(#[trigger] a.drop_last()[i], b.drop_last()[i]) by {
            assert(a.drop_last()[i] == a[i]);
            assert(b.drop_last()[i] == b[i]);
        }
        lemma_total_true_le(a.drop_last(), b.drop_last());
        assert(le_bools(a[n], b[n]));
        lemma_count_true_le(a.last(), b.last());
        if total_true(a) == total_true(b) {
            assert(a.drop_last() == b.drop_last());
            assert(a.last() == b.last());
            assert forall|i: int| 0 <= i < a.len() implies a[i] == b[i] by {
                if i < n {
                    assert(a[i] == a.drop_last()[i]);
                    assert(b[i] == b.drop_last()[i]);
                }
            }
            assert(a =~= b);
        }
    } else {
        assert(a =~= b);
    }
}

proof fn lemma_transfer_mono(k: InstructionKind, a: Seq<bool>, b: Seq<bool>)
    requires
        le_bools(a, b),
    ensures
        le_bools(transfer(k, a), transfer(k, b)),
{
}

proof fn lemma_run_len(instrs: Seq<Instruction>, k: int, st: Seq<bool>)
    ensures
        run(instrs, k, st).len() == st.len(),
    decreases k,
{
    if k > 0 {
        lemma_run_len(instrs, k - 1, st);
    }
}

proof fn lemma_run_mono(instrs: Seq<Instruction>, k: int, a: Seq<bool>, b: Seq<bool>)
    requires
        le_bools(a, b),
    ensures
        le_bools(run(instrs, k, a), run(instrs, k, b)),
    decreases k,
{
    if k > 0 {
        lemma_run_mono(instrs, k - 1, a, b);
        lemma_transfer_mono(instrs[k - 1].kind, run(instrs, k - 1, a), run(instrs, k - 1, b));
    }
}

proof fn lemma_meet_mono(f: EirFunction, o1: Seq<Seq<bool>>, o2: Seq<Seq<bool>>, b: int)
    requires
        forall|q: int| #[trigger] reachable(f, q) ==> le_bools(o1[q], o2[q]) && o1[q].len() == f.slots@.len(),
    ensures
        le_bools(meet(f, o1, b), meet(f, o2, b)),
{
    assert forall|s: int| 0 <= s < f.slots@.len() && #[trigger] meet(f, o1, b)[s] implies meet(f, o2, b)[s] by {
        assert forall|q: int| reachable(f, q) && #[trigger] edge(f, q, b) implies o2[q][s] by {
            assert(le_bools(o1[q], o2[q]));
            assert(o1[q][s]);
        }
    }
}

fn copy_bools(v: &Vec<bool>) -> (r: Vec<bool>)
    ensures
        r@ == v@,
{
    let mut r: Vec<bool> = Vec::new();
    let mut i: usize = 0;
    while i < v.len()
        invariant
            i <= v@.len(),
            r@ == v@.take(i as int),
        decreases v.len() - i,
    {
        r.push(v[i]);
        i += 1;
        assert(r@ =~= v@.take(i as int));
    }
    assert(v@.take(v@.len() as int) =~= v@);
    r
}

fn copy_states(v: &Vec<Vec<bool>>) -> (r: Vec<Vec<bool>>)
    ensures
        views(r@) == views(v@),
{
    let mut r: Vec<Vec<bool>> = Vec::new();
    let mut i: usize = 0;
    while i < v.len()
        invariant
            i <= v@.len(),
            views(r@) == views(v@).take(i as int),
        decreases v.len() - i,
    {
        let c = copy_bools(&v[i]);
        let ghost pr = r@;
        r.push(c);
        assert(views(r@) =~= views(pr).push(v@[i as int]@));
        i += 1;
        assert(views(r@) =~= views(v@).take(i as int));
    }
    assert(views(v@).take(v@.len() as int) =~= views(v@));
    r
}

fn same_bools(a: &Vec<bool>, b: &Vec<bool>) -> (r: bool)
    ensures
        r == (a@ == b@),
{
    if a.len() != b.len() {
        return false;
    }
    let mut i: usize = 0;
    while i < a.len()
        invariant
            i <= a@.len(),
            a@.len() == b@.len(),
            forall|j: int| 0 <= j < i ==> a@[j] == b@[j],
        decreases a.len() - i,
    {
        if a[i] != b[i] {
            return false;
        }
        i += 1;
    }
    assert(a@ =~= b@);
    true
}

fn same_states(a: &Vec<Vec<bool>>, b: &Vec<Vec<bool>>) -> (r: bool)
    ensures
        r == (views(a@) == views(b@)),
{
    if a.len() != b.len() {
        assert(views(a@).len() != views(b@).len());
        return false;
    }
    let mut i: usize = 0;
    while i < a.len()
        invariant
            i <= a@.len(),
            a@.len() == b@.len(),
            forall|j: int| 0 <= j < i ==> a@[j]@ == b@[j]@,
        decreases a.len() - i,
    {
        if !same_bools(&a[i], &b[i]) {
            assert(views(a@)[i as int] != views(b@)[i as int]);
            return false;
        }
        i += 1;
    }
    assert(views(a@) =~= views(b@));
    true
}

fn filled(m: usize, value: bool) -> (r: Vec<bool>)
    ensures
        r@ == Seq::new(m as nat, |i: int| value),
{
    let mut r: Vec<bool> = Vec::new();
    let mut i: usize = 0;
    while i < m
        invariant
            i <= m,
            r@ == Seq::new(i as nat, |j: int| value),
        decreases m - i,
    {
        r.push(value);
        i += 1;
        assert(r@ =~= Seq::new(i as nat, |j: int| value));
    }
    r
}

fn apply_initialization_transfer(instruction: &InstructionKind, state: &mut Vec<bool>)
    ensures
        final(state)@ == transfer(*instruction, old(state)@),
{
    match instruction {
        InstructionKind::Move { src, .. } => {
            if src.index() < state.len() {
                state.set(src.index(), false);
            }
        },
        _ => {},
    }
    match instruction.destination() {
        Some(d) => {
            if d.index() < state.len() {
                state.set(d.index(), true);
            }
        },
        None => {},
    }
}

/// Runs the instructions of block `b` from state `state`.
fn run_block(f: &EirFunction, b: usize, state: Vec<bool>) -> (r: Vec<bool>)
    requires
        b < f.blocks@.len(),
    ensures
        r@ == block_out(*f, b as int, state@),
{
    let instrs = &f.blocks[b].instructions;
    let mut state = state;
    let ghost st0 = state@;
    let mut i: usize = 0;
    while i < instrs.len()
        invariant
            i <= instrs@.len(),
            *instrs == f.blocks@[b as int].instructions,
            state@ == run(instrs@, i as int, st0),
        decreases instrs.len() - i,
    {
        apply_initialization_transfer(&instrs[i].kind, &mut state);
        i += 1;
    }
    state
}

/// Predecessor lists: `r[b]` lists the blocks with an edge to `b`.
fn predecessors(f: &EirFunction) -> (r: Vec<Vec<usize>>)
    ensures
        r@.len() == f.blocks@.len(),
        forall|b: int, k: int| 0 <= b < r@.len() && 0 <= k < r@[b]@.len() ==> edge(*f, #[trigger] r@[b]@[k] as int, b),
        forall|a: int, b: int| #[trigger] edge(*f, a, b) ==> r@[b]@.contains(a as usize),
{
    let n = f.blocks.len();
    let mut preds: Vec<Vec<usize>> = Vec::new();
    let mut i: usize = 0;
    while i < n
        invariant
            i <= n,
            n == f.blocks@.len(),
            preds@.len() == i,
            forall|b: int| 0 <= b < i ==> preds@[b]@.len() == 0,
        decreases n - i,
    {
        preds.push(Vec::new());
        i += 1;
    }
    let mut a: usize = 0;
    while a < n
        invariant
            a <= n,
            n == f.blocks@.len(),
            preds@.len() == n,
            forall|b: int, k: int| 0 <= b < n && 0 <= k < preds@[b]@.len() ==> edge(*f, #[trigger] preds@[b]@[k] as int, b),
            forall|x: int, b: int| 0 <= x < a && #[trigger] edge(*f, x, b) ==> preds@[b]@.contains(x as usize),
        decreases n - a,
    {
        let targets = terminator_targets(&f.blocks[a].terminator.kind);
        let mut k: usize = 0;
        while k < targets.len()
            invariant
                k <= targets@.len(),
                a < n,
                n == f.blocks@.len(),
                preds@.len() == n,
                targets@ == spec_targets(f.blocks@[a as int].terminator.kind),
                forall|b: int, j: int| 0 <= b < n && 0 <= j < preds@[b]@.len() ==> edge(*f, #[trigger] preds@[b]@[j] as int, b),
                forall|x: int, b: int| 0 <= x < a && #[trigger] edge(*f, x, b) ==> preds@[b]@.contains(x as usize),
                forall|j: int| 0 <= j < k && (targets@[j].0 as int) < n ==> preds@[targets@[j].0 as int]@.contains(a),
            decreases targets.len() - k,
        {
            let t = targets[k].index();
            if t < n {
                proof {
                    lemma_edge_targets(*f, a as int, t as int);
                }
                let ghost old_preds = preds@;
                let mut list: Vec<usize> = Vec::new();
                std::mem::swap(&mut list, &mut preds[t]);
                let ghost old_list = list@;
                list.push(a);
                preds.set(t, list);
                proof {
                    assert(preds@[t as int]@ == old_list.push(a));
                    assert(preds@[t as int]@[old_list.len() as int] == a);
                    assert forall|b: int, j: int| 0 <= b < n && 0 <= j < preds@[b]@.len() implies edge(*f, #[trigger] preds@[b]@[j] as int, b) by {
                        if b == t as int && j < old_list.len() {
                            assert(preds@[b]@[j] == old_preds[b]@[j]);
                        } else if b != t as int {
                            assert(preds@[b] == old_preds[b]);
                        }
                    }
                    assert forall|x: int, b: int| 0 <= x < a && #[trigger] edge(*f, x, b) implies preds@[b]@.contains(x as usize) by {
                        assert(old_preds[b]@.contains(x as usize));
                        if b == t as int {
                            let q = choose|q: int| 0 <= q < old_list.len() && old_list[q] == x as usize;
                            assert(preds@[b]@[q] == x as usize);
                        } else {
                            assert(preds@[b] == old_preds[b]);
                        }
                    }
                    assert forall|j: int| 0 <= j < k + 1 && (targets@[j].0 as int) < n implies preds@[targets@[j].0 as int]@.contains(a) by {
                        let tb = targets@[j].0 as int;
                        if tb == t as int {
                            assert(preds@[tb]@[old_list.len() as int] == a);
                        } else {
                            assert(old_preds[tb]@.contains(a));
                            assert(preds@[tb] == old_preds[tb]);
                        }
                    }
                }
            }
            k += 1;
        }
        proof {
            assert forall|x: int, b: int| 0 <= x < a + 1 && #[trigger] edge(*f, x, b) implies preds@[b]@.contains(x as usize) by {
                if x == a as int {
                    lemma_edge_targets(*f, x, b);
                    let j = choose|j: int| 0 <= j < targets@.len() && (#[trigger] targets@[j]).0 as int == b;
                }
            }
        }
        a += 1;
    }
    preds
}


/// `state` and `row`, entry by entry.
fn and_into(state: &mut Vec<bool>, row: &Vec<bool>)
    requires
        old(state)@.len() == row@.len(),
    ensures
        final(state)@ == Seq::new(old(state)@.len(), |t: int| old(state)@[t] && row@[t]),
{
    let mut r: Vec<bool> = Vec::new();
    let mut s: usize = 0;
    while s < state.len()
        invariant
            s <= state@.len(),
            state@ == old(state)@,
            row@.len() == state@.len(),
            r@ == Seq::new(s as nat, |t: int| state@[t] && row@[t]),
        decreases state.len() - s,
    {
        r.push(state[s] && row[s]);
        s += 1;
        assert(r@ =~= Seq::new(s as nat, |t: int| state@[t] && row@[t]));
    }
    *state = r;
}

/// The entry state of reachable block `b`, from the end states `previous` of all blocks.
fn meet_state(f: &EirFunction, preds_b: &Vec<usize>, reach: &Vec<bool>, previous: &Vec<Vec<bool>>, b: usize) -> (r: Vec<bool>)
    requires
        b < f.blocks@.len(),
        reach@.len() == f.blocks@.len(),
        forall|q: int| 0 <= q < f.blocks@.len() ==> #[trigger] reach@[q] == reachable(*f, q),
        previous@.len() == f.blocks@.len(),
        all_len(views(previous@), f.slots@.len() as int),
        forall|k: int| 0 <= k < preds_b@.len() ==> edge(*f, #[trigger] preds_b@[k] as int, b as int),
        forall|a: int| #[trigger] edge(*f, a, b as int) ==> preds_b@.contains(a as usize),
    ensures
        r@ == meet(*f, views(previous@), b as int),
{
    let m = f.slots.len();
    let n = f.blocks.len();
    let ghost outs = views(previous@);
    let mut state = filled(m, true);
    let mut has_predecessor = false;
    let mut k: usize = 0;
    while k < preds_b.len()
        invariant
            k <= preds_b@.len(),
            m == f.slots@.len(),
            n == f.blocks@.len(),
            b < n,
            reach@.len() == n,
            previous@.len() == n,
            outs == views(previous@),
            all_len(outs, m as int),
            forall|q: int| 0 <= q < n ==> #[trigger] reach@[q] == reachable(*f, q),
            forall|k: int| 0 <= k < preds_b@.len() ==> edge(*f, #[trigger] preds_b@[k] as int, b as int),
            state@.len() == m,
            has_predecessor == (exists|j: int| 0 <= j < k && #[trigger] reachable(*f, preds_b@[j] as int)),
            forall|s: int| 0 <= s < m ==> state@[s] == (forall|j: int|
                0 <= j < k && #[trigger] reachable(*f, preds_b@[j] as int) ==> outs[preds_b@[j] as int][s]),
        decreases preds_b.len() - k,
    {
        let q = preds_b[k];
        let ghost before = state@;
        proof {
            assert(edge(*f, q as int, b as int));
            assert(reach@[q as int] == reachable(*f, q as int));
            assert(outs[q as int] == previous@[q as int]@);
        }
        if reach[q] {
            has_predecessor = true;
            and_into(&mut state, &previous[q]);
        }
        proof {
            let kk = k as int;
            assert(preds_b@[kk] == q);
            assert forall|s: int| 0 <= s < m implies state@[s] == (forall|j: int|
                0 <= j < kk + 1 && #[trigger] reachable(*f, preds_b@[j] as int) ==> outs[preds_b@[j] as int][s]) by {
                let all_k = forall|j: int| 0 <= j < kk && #[trigger] reachable(*f, preds_b@[j] as int) ==> outs[preds_b@[j] as int][s];
                assert(before[s] == all_k);
                if reachable(*f, q as int) {
                    assert(state@[s] == (before[s] && outs[q as int][s]));
                }
            }
            if reachable(*f, q as int) {
                assert(reachable(*f, preds_b@[kk] as int));
            } else if has_predecessor {
                let j = choose|j: int| 0 <= j < kk && #[trigger] reachable(*f, preds_b@[j] as int);
                assert(0 <= j < kk + 1);
            }
        }
        k += 1;
    }
    if !has_predecessor {
        state = filled(m, false);
    }
    proof {
        let target = meet(*f, outs, b as int);
        let has_reach_pred = exists|q: int| reachable(*f, q) && #[trigger] edge(*f, q, b as int);
        assert(has_reach_pred == has_predecessor) by {
            if has_predecessor {
                let j = choose|j: int| 0 <= j < preds_b@.len() && #[trigger] reachable(*f, preds_b@[j] as int);
                let q = preds_b@[j] as int;
                assert(edge(*f, q, b as int));
            }
            if has_reach_pred {
                let q = choose|q: int| reachable(*f, q) && #[trigger] edge(*f, q, b as int);
                assert(preds_b@.contains(q as usize));
                let j = choose|j: int| 0 <= j < preds_b@.len() && preds_b@[j] == q as usize;
                assert(preds_b@[j] as int == q);
                assert(reachable(*f, preds_b@[j] as int));
            }
        }
        assert forall|s: int| 0 <= s < m implies state@[s] == target[s] by {
            if has_predecessor {
                let all_pred = forall|j: int|
                    0 <= j < preds_b@.len() && #[trigger] reachable(*f, preds_b@[j] as int) ==> outs[preds_b@[j] as int][s];
                let all_q = forall|q: int| reachable(*f, q) && #[trigger] edge(*f, q, b as int) ==> outs[q][s];
                assert(all_pred == all_q) by {
                    if all_pred {
                        assert forall|q: int| reachable(*f, q) && #[trigger] edge(*f, q, b as int) implies outs[q][s] by {
                            assert(preds_b@.contains(q as usize));
                            let j = choose|j: int| 0 <= j < preds_b@.len() && preds_b@[j] == q as usize;
                            assert(preds_b@[j] as int == q);
                            assert(reachable(*f, preds_b@[j] as int));
                        }
                    }
                    if all_q {
                        assert forall|j: int| 0 <= j < preds_b@.len() && #[trigger] reachable(*f, preds_b@[j] as int) implies outs[preds_b@[j] as int][s] by {
                            let q = preds_b@[j] as int;
                            assert(edge(*f, q, b as int));
                        }
                    }
                }
            }
        }
        assert(state@ =~= target);
    }
    state
}

/// The reads of block `b`, started in state `st`, all find their slots initialized.
pub open spec fn block_reads_ok(f: EirFunction, b: int, st: Seq<bool>) -> bool {
    &&& forall|i: int, j: int|
        #![trigger f.blocks@[b].instructions@[i].kind.spec_read_slots()[j]]
        0 <= i < f.blocks@[b].instructions@.len() && 0 <= j < f.blocks@[b].instructions@[i].kind.spec_read_slots().len()
            ==> read_ok(run(f.blocks@[b].instructions@, i, st), f.blocks@[b].instructions@[i].kind.spec_read_slots()[j])
    &&& forall|j: int|
        #![trigger terminator_reads(f.blocks@[b].terminator.kind)[j]]
        0 <= j < terminator_reads(f.blocks@[b].terminator.kind).len() ==> read_ok(
            block_out(f, b, st),
            terminator_reads(f.blocks@[b].terminator.kind)[j],
        )
}

fn check_initialized(
    f: &EirFunction,
    block: BlockId,
    instruction: Option<usize>,
    anchor: SourceAnchor,
    slot: SlotId,
    state: &Vec<bool>,
    errors: &mut Vec<VerifyError>,
)
    ensures
        grows(old(errors)@, final(errors)@),
        (final(errors)@.len() == old(errors)@.len()) == read_ok(state@, slot),
        final(errors)@ == old(errors)@ + if read_ok(state@, slot) {
            Seq::empty()
        } else {
            seq![VerifyError { function: f.id, block, instruction, anchor, kind: VerifyErrorKind::UninitializedRead(slot) }]
        },
{
    let index = slot.index();
    let initialized = if index < state.len() { state[index] } else { true };
    if !initialized {
        errors.push(VerifyError { function: f.id, block, instruction, anchor, kind: VerifyErrorKind::UninitializedRead(slot) });
    }
    assert(errors@.subrange(0, old(errors)@.len() as int) =~= old(errors)@);
    if initialized {
        assert(errors@ =~= old(errors)@ + Seq::<VerifyError>::empty());
    }
}

fn check_reads(
    f: &EirFunction,
    block: BlockId,
    instruction: Option<usize>,
    anchor: SourceAnchor,
    reads: &Vec<SlotId>,
    state: &Vec<bool>,
    errors: &mut Vec<VerifyError>,
)
    ensures
        grows(old(errors)@, final(errors)@),
        (final(errors)@.len() == old(errors)@.len()) == (forall|j: int| 0 <= j < reads@.len() ==> read_ok(state@, #[trigger] reads@[j])),
        final(errors)@ == old(errors)@ + read_findings(*f, block, instruction, anchor, reads@, state@, reads@.len() as int),
{
    let ghost e0 = errors@;
    proof {
        lemma_grows_refl(e0);
        assert(e0 + read_findings(*f, block, instruction, anchor, reads@, state@, 0) =~= e0);
    }
    let mut j: usize = 0;
    while j < reads.len()
        invariant
            j <= reads@.len(),
            grows(e0, errors@),
            (errors@.len() == e0.len()) == (forall|k: int| 0 <= k < j ==> read_ok(state@, #[trigger] reads@[k])),
            errors@ == e0 + read_findings(*f, block, instruction, anchor, reads@, state@, j as int),
        decreases reads.len() - j,
    {
        let ghost before = errors@;
        check_initialized(f, block, instruction, anchor, reads[j], state, errors);
        proof {
            lemma_grows_trans(e0, before, errors@);
            assert(errors@ =~= e0 + read_findings(*f, block, instruction, anchor, reads@, state@, j + 1));
        }
        j += 1;
    }
}

/// Checks the reads of block `b` started in state `state`.
fn check_block_reads(f: &EirFunction, b: usize, state: Vec<bool>, errors: &mut Vec<VerifyError>)
    requires
        b < f.blocks@.len(),
        f.blocks@.len() <= u32::MAX + 1,
    ensures
        grows(old(errors)@, final(errors)@),
        (final(errors)@.len() == old(errors)@.len()) == block_reads_ok(*f, b as int, state@),
        final(errors)@ == old(errors)@ + block_read_findings(*f, b as int, state@),
{
    let block = &f.blocks[b];
    let block_id = BlockId(b as u32);
    let ghost st0 = state@;
    let ghost e0 = errors@;
    proof {
        lemma_grows_refl(e0);
        assert(e0 + instruction_read_findings(*f, b as int, st0, 0) =~= e0);
    }
    let mut state = state;
    let mut i: usize = 0;
    while i < block.instructions.len()
        invariant
            i <= block.instructions@.len(),
            *block == f.blocks@[b as int],
            state@ == run(block.instructions@, i as int, st0),
            block_id == BlockId(b as u32),
            grows(e0, errors@),
            errors@ == e0 + instruction_read_findings(*f, b as int, st0, i as int),
            (errors@.len() == e0.len()) == (forall|ii: int, j: int|
                #![trigger block.instructions@[ii].kind.spec_read_slots()[j]]
                0 <= ii < i && 0 <= j < block.instructions@[ii].kind.spec_read_slots().len() ==> read_ok(
                    run(block.instructions@, ii, st0),
                    block.instructions@[ii].kind.spec_read_slots()[j],
                )),
        decreases block.instructions.len() - i,
    {
        let ghost before = errors@;
        let reads = block.instructions[i].kind.read_slots();
        check_reads(f, block_id, Some(i), block.instructions[i].anchor, &reads, &state, errors);
        proof {
            lemma_grows_trans(e0, before, errors@);
            assert(errors@ =~= e0 + instruction_read_findings(*f, b as int, st0, i + 1));
            let ii0 = i as int;
            if errors@.len() == e0.len() {
                assert forall|ii: int, j: int|
                    0 <= ii < i + 1 && 0 <= j < block.instructions@[ii].kind.spec_read_slots().len() implies read_ok(
                    run(block.instructions@, ii, st0),
                    #[trigger] block.instructions@[ii].kind.spec_read_slots()[j],
                ) by {
                    if ii == ii0 {
                        assert(read_ok(state@, reads@[j]));
                    }
                }
            } else if before.len() == e0.len() {
                let j = choose|j: int| 0 <= j < reads@.len() && !read_ok(state@, #[trigger] reads@[j]);
                assert(!read_ok(run(block.instructions@, ii0, st0), block.instructions@[ii0].kind.spec_read_slots()[j]));
            }
        }
        apply_initialization_transfer(&block.instructions[i].kind, &mut state);
        i += 1;
    }
    let ghost e1 = errors@;
    let reads = terminator_read_slots(&block.terminator.kind);
    check_reads(f, block_id, None, block.terminator.anchor, &reads, &state, errors);
    proof {
        lemma_grows_trans(e0, e1, errors@);
        assert(errors@ =~= e0 + block_read_findings(*f, b as int, st0));
    }
}


/// Entry states before the fixpoint iteration: the parameters at the entry block, everything
/// at other reachable blocks, nothing at unreachable ones.
fn initial_incoming(f: &EirFunction, reach: &Vec<bool>) -> (r: Vec<Vec<bool>>)
    requires
        f.blocks@.len() > 0,
        reach@.len() == f.blocks@.len(),
    ensures
        r@.len() == f.blocks@.len(),
        all_len(views(r@), f.slots@.len() as int),
        views(r@)[0] == entry_state(*f),
        forall|b: int| 0 < b < f.blocks@.len() ==> views(r@)[b] == Seq::new(f.slots@.len(), |s: int| reach@[b]),
{
    let m = f.slots.len();
    let n = f.blocks.len();
    let mut r: Vec<Vec<bool>> = Vec::new();
    let mut entry = filled(m, false);
    let count = if (f.parameter_count as usize) < m { f.parameter_count as usize } else { m };
    let mut s: usize = 0;
    while s < count
        invariant
            s <= count <= m,
            count == (if (f.parameter_count as int) < m { f.parameter_count as int } else { m as int }),
            entry@.len() == m,
            forall|t: int| 0 <= t < m ==> entry@[t] == (t < s),
        decreases count - s,
    {
        entry.set(s, true);
        s += 1;
    }
    assert(entry@ =~= entry_state(*f));
    r.push(entry);
    let mut b: usize = 1;
    while b < n
        invariant
            1 <= b <= n,
            n == f.blocks@.len(),
            m == f.slots@.len(),
            reach@.len() == n,
            r@.len() == b,
            views(r@)[0] == entry_state(*f),
            forall|c: int| 0 < c < b ==> views(r@)[c] == Seq::new(m as nat, |t: int| reach@[c]),
            all_len(views(r@), m as int),
        decreases n - b,
    {
        let row = filled(m, reach[b]);
        let ghost pr = r@;
        r.push(row);
        assert(views(r@) =~= views(pr).push(row@));
        b += 1;
    }
    r
}

/// End states of all blocks from their entry states.
fn compute_outgoing(f: &EirFunction, incoming: &Vec<Vec<bool>>) -> (r: Vec<Vec<bool>>)
    requires
        incoming@.len() == f.blocks@.len(),
    ensures
        r@.len() == f.blocks@.len(),
        forall|b: int| 0 <= b < f.blocks@.len() ==> #[trigger] views(r@)[b] == block_out(*f, b, views(incoming@)[b]),
{
    let n = f.blocks.len();
    let mut r: Vec<Vec<bool>> = Vec::new();
    let mut b: usize = 0;
    while b < n
        invariant
            b <= n,
            n == f.blocks@.len(),
            incoming@.len() == n,
            r@.len() == b,
            forall|c: int| 0 <= c < b ==> #[trigger] views(r@)[c] == block_out(*f, c, views(incoming@)[c]),
        decreases n - b,
    {
        let out = run_block(f, b, copy_bools(&incoming[b]));
        let ghost pr = r@;
        r.push(out);
        assert(views(r@) =~= views(pr).push(out@));
        b += 1;
    }
    r
}

/// One round of the iteration: each reachable block other than the entry takes the meet of the
/// previous end states, and each reachable block's end state is recomputed.
#[verifier::loop_isolation(false)]
fn sweep(
    f: &EirFunction,
    preds: &Vec<Vec<usize>>,
    reach: &Vec<bool>,
    incoming: &mut Vec<Vec<bool>>,
    outgoing: &mut Vec<Vec<bool>>,
    previous: &Vec<Vec<bool>>,
)
    requires
        reach@.len() == f.blocks@.len(),
        forall|q: int| 0 <= q < f.blocks@.len() ==> #[trigger] reach@[q] == reachable(*f, q),
        preds@.len() == f.blocks@.len(),
        forall|b: int, k: int| 0 <= b < preds@.len() && 0 <= k < preds@[b]@.len() ==> edge(*f, #[trigger] preds@[b]@[k] as int, b),
        forall|a: int, b: int| #[trigger] edge(*f, a, b) ==> preds@[b]@.contains(a as usize),
        previous@.len() == f.blocks@.len(),
        all_len(views(previous@), f.slots@.len() as int),
        old(incoming)@.len() == f.blocks@.len(),
        old(outgoing)@.len() == f.blocks@.len(),
    ensures
        final(incoming)@.len() == f.blocks@.len(),
        final(outgoing)@.len() == f.blocks@.len(),
        forall|b: int| 0 <= b < f.blocks@.len() ==> #[trigger] views(final(incoming)@)[b] == (if b != 0 && reachable(*f, b) {
            meet(*f, views(previous@), b)
        } else {
            views(old(incoming)@)[b]
        }),
        forall|b: int| 0 <= b < f.blocks@.len() ==> #[trigger] views(final(outgoing)@)[b] == (if reachable(*f, b) {
            block_out(*f, b, views(final(incoming)@)[b])
        } else {
            views(old(outgoing)@)[b]
        }),
{
    let n = f.blocks.len();
    let ghost inc0 = views(incoming@);
    let ghost out0 = views(outgoing@);
    let mut b: usize = 0;
    while b < n
        invariant
            b <= n,
            n == f.blocks@.len(),
            incoming@.len() == n,
            outgoing@.len() == n,
            forall|c: int| 0 <= c < n ==> #[trigger] views(incoming@)[c] == (if c < b && c != 0 && reachable(*f, c) {
                meet(*f, views(previous@), c)
            } else {
                inc0[c]
            }),
            forall|c: int| 0 <= c < n ==> #[trigger] views(outgoing@)[c] == (if c < b && reachable(*f, c) {
                block_out(*f, c, views(incoming@)[c])
            } else {
                out0[c]
            }),
        decreases n - b,
    {
        if reach[b] {
            if b != 0 {
                let st = meet_state(f, &preds[b], reach, previous, b);
                let ghost pi = views(incoming@);
                incoming.set(b, st);
                assert(views(incoming@) =~= pi.update(b as int, st@));
            }
            let out = run_block(f, b, copy_bools(&incoming[b]));
            let ghost po = views(outgoing@);
            outgoing.set(b, out);
            assert(views(outgoing@) =~= po.update(b as int, out@));
        }
        proof {
            assert(reach@[b as int] == reachable(*f, b as int));
        }
        b += 1;
    }
}

proof fn lemma_block_out_len(f: EirFunction, b: int, st: Seq<bool>)
    ensures
        block_out(f, b, st).len() == st.len(),
{
    lemma_run_len(f.blocks@[b].instructions@, f.blocks@[b].instructions@.len() as int, st);
}

/// Every dataflow solution lies below the entry states `inc` on reachable blocks.
pub open spec fn below_all_solutions(f: EirFunction, inc: Seq<Seq<bool>>) -> bool {
    forall|sol: Seq<Seq<bool>>| #[trigger] is_init_solution(f, sol) ==> forall|b: int| #[trigger] reachable(f, b) ==> le_bools(sol[b], inc[b])
}

/// The fixpoint iteration state: end states match entry states, the entry block holds the
/// parameters, entry states only shrink towards the meets, and no solution exceeds them.
pub open spec fn iteration_inv(f: EirFunction, inc: Seq<Seq<bool>>, out: Seq<Seq<bool>>) -> bool {
    &&& inc.len() == f.blocks@.len()
    &&& out.len() == f.blocks@.len()
    &&& all_len(inc, f.slots@.len() as int)
    &&& all_len(out, f.slots@.len() as int)
    &&& forall|b: int| 0 <= b < f.blocks@.len() ==> #[trigger] out[b] == block_out(f, b, inc[b])
    &&& inc[0] == entry_state(f)
    &&& forall|b: int| 0 < b < f.blocks@.len() && #[trigger] reachable(f, b) ==> le_bools(meet(f, out, b), inc[b])
    &&& below_all_solutions(f, inc)
}

proof fn lemma_iteration_start(f: EirFunction, reach: Seq<bool>, inc: Seq<Seq<bool>>, out: Seq<Seq<bool>>)
    requires
        f.blocks@.len() > 0,
        reach.len() == f.blocks@.len(),
        forall|q: int| 0 <= q < f.blocks@.len() ==> #[trigger] reach[q] == reachable(f, q),
        inc.len() == f.blocks@.len(),
        out.len() == f.blocks@.len(),
        all_len(inc, f.slots@.len() as int),
        inc[0] == entry_state(f),
        forall|b: int| 0 < b < f.blocks@.len() ==> inc[b] == Seq::new(f.slots@.len(), |s: int| reach[b]),
        forall|b: int| 0 <= b < f.blocks@.len() ==> #[trigger] out[b] == block_out(f, b, inc[b]),
    ensures
        iteration_inv(f, inc, out),
{
    assert forall|b: int| 0 <= b < out.len() implies (#[trigger] out[b]).len() == f.slots@.len() by {
        lemma_block_out_len(f, b, inc[b]);
    }
    assert forall|b: int| 0 < b < f.blocks@.len() && #[trigger] reachable(f, b) implies le_bools(meet(f, out, b), inc[b]) by {
        assert(reach[b]);
    }
    assert forall|sol: Seq<Seq<bool>>| #[trigger] is_init_solution(f, sol) implies forall|b: int| #[trigger] reachable(f, b) ==> le_bools(sol[b], inc[b]) by {
        assert forall|b: int| #[trigger] reachable(f, b) implies le_bools(sol[b], inc[b]) by {
            if b == 0 {
            } else {
                assert(reach[b]);
                assert(sol[b].len() == f.slots@.len());
            }
        }
    }
}

proof fn lemma_iteration_step(
    f: EirFunction,
    inc: Seq<Seq<bool>>,
    out: Seq<Seq<bool>>,
    inc2: Seq<Seq<bool>>,
    out2: Seq<Seq<bool>>,
)
    requires
        f.blocks@.len() > 0,
        iteration_inv(f, inc, out),
        inc2.len() == f.blocks@.len(),
        out2.len() == f.blocks@.len(),
        forall|b: int| 0 <= b < f.blocks@.len() ==> #[trigger] inc2[b] == (if b != 0 && reachable(f, b) {
            meet(f, out, b)
        } else {
            inc[b]
        }),
        forall|b: int| 0 <= b < f.blocks@.len() ==> #[trigger] out2[b] == (if reachable(f, b) {
            block_out(f, b, inc2[b])
        } else {
            out[b]
        }),
    ensures
        iteration_inv(f, inc2, out2),
        forall|b: int| 0 <= b < f.blocks@.len() ==> le_bools(#[trigger] out2[b], out[b]),
{
    let m = f.slots@.len();
    // new entry states shrink
    assert forall|b: int| 0 <= b < f.blocks@.len() implies le_bools(#[trigger] inc2[b], inc[b]) && inc2[b].len() == m by {
        if b != 0 && reachable(f, b) {
            assert(le_bools(meet(f, out, b), inc[b]));
        }
    }
    assert forall|b: int| 0 <= b < f.blocks@.len() implies le_bools(#[trigger] out2[b], out[b]) && out2[b].len() == m by {
        if reachable(f, b) {
            lemma_run_mono(f.blocks@[b].instructions@, f.blocks@[b].instructions@.len() as int, inc2[b], inc[b]);
            lemma_block_out_len(f, b, inc2[b]);
            assert(le_bools(inc2[b], inc[b]));
        }
    }
    assert forall|b: int| 0 <= b < f.blocks@.len() implies #[trigger] out2[b] == block_out(f, b, inc2[b]) by {
        if !reachable(f, b) {
            assert(inc2[b] == inc[b]);
        }
    }
    assert forall|b: int| 0 < b < f.blocks@.len() && #[trigger] reachable(f, b) implies le_bools(meet(f, out2, b), inc2[b]) by {
        assert forall|q: int| #[trigger] reachable(f, q) implies le_bools(out2[q], out[q]) && out2[q].len() == m by {
            assert(le_bools(out2[q], out[q]));
        }
        lemma_meet_mono(f, out2, out, b);
    }
    assert forall|sol: Seq<Seq<bool>>| #[trigger] is_init_solution(f, sol) implies forall|b: int| #[trigger] reachable(f, b) ==> le_bools(sol[b], inc2[b]) by {
        let so = Seq::new(sol.len(), |q: int| block_out(f, q, sol[q]));
        assert forall|b: int| #[trigger] reachable(f, b) implies le_bools(sol[b], inc2[b]) by {
            if b != 0 {
                assert forall|q: int| #[trigger] reachable(f, q) implies le_bools(so[q], out[q]) && so[q].len() == m by {
                    assert(le_bools(sol[q], inc[q]));
                    lemma_run_mono(f.blocks@[q].instructions@, f.blocks@[q].instructions@.len() as int, sol[q], inc[q]);
                    lemma_block_out_len(f, q, sol[q]);
                }
                lemma_meet_mono(f, so, out, b);
            } else {
                assert(le_bools(sol[b], inc[b]));
            }
        }
    }
}


/// Checks the reads of every reachable block, each started in its entry state.
fn check_all_reads(f: &EirFunction, reach: &Vec<bool>, incoming: &Vec<Vec<bool>>, errors: &mut Vec<VerifyError>)
    requires
        f.blocks@.len() <= u32::MAX + 1,
        reach@.len() == f.blocks@.len(),
        forall|q: int| 0 <= q < f.blocks@.len() ==> #[trigger] reach@[q] == reachable(*f, q),
        incoming@.len() == f.blocks@.len(),
    ensures
        grows(old(errors)@, final(errors)@),
        (final(errors)@.len() == old(errors)@.len()) == (forall|b: int| #[trigger] reachable(*f, b) ==> block_reads_ok(*f, b, views(incoming@)[b])),
        final(errors)@ == old(errors)@ + reads_findings_upto(*f, views(incoming@), f.blocks@.len() as int),
{
    let n = f.blocks.len();
    let ghost e0 = errors@;
    proof {
        lemma_grows_refl(e0);
        assert(e0 + reads_findings_upto(*f, views(incoming@), 0) =~= e0);
    }
    let mut b: usize = 0;
    while b < n
        invariant
            b <= n,
            n == f.blocks@.len(),
            n <= u32::MAX + 1,
            reach@.len() == n,
            forall|q: int| 0 <= q < n ==> #[trigger] reach@[q] == reachable(*f, q),
            incoming@.len() == n,
            grows(e0, errors@),
            errors@ == e0 + reads_findings_upto(*f, views(incoming@), b as int),
            (errors@.len() == e0.len()) == (forall|c: int| 0 <= c < b && #[trigger] reachable(*f, c) ==> block_reads_ok(*f, c, views(incoming@)[c])),
        decreases n - b,
    {
        let ghost before = errors@;
        proof {
            assert(reach@[b as int] == reachable(*f, b as int));
        }
        if reach[b] {
            check_block_reads(f, b, copy_bools(&incoming[b]), errors);
        } else {
            proof {
                lemma_grows_refl(errors@);
            }
        }
        proof {
            lemma_grows_trans(e0, before, errors@);
            assert(views(incoming@)[b as int] == incoming@[b as int]@);
            assert(errors@ =~= e0 + reads_findings_upto(*f, views(incoming@), b + 1));
            let bb = b as int;
            assert((forall|c: int| 0 <= c < bb + 1 && #[trigger] reachable(*f, c) ==> block_reads_ok(*f, c, views(incoming@)[c])) == ((forall|c: int|
                0 <= c < bb && #[trigger] reachable(*f, c) ==> block_reads_ok(*f, c, views(incoming@)[c])) && (reachable(*f, bb) ==> block_reads_ok(*f, bb, views(incoming@)[bb]))));
        }
        b += 1;
    }
}

proof fn lemma_reads_ok_blocks(f: EirFunction, ins: Seq<Seq<bool>>)
    ensures
        reads_ok(f, ins) == (forall|b: int| #[trigger] reachable(f, b) ==> block_reads_ok(f, b, ins[b])),
{
    if reads_ok(f, ins) {
        assert forall|b: int| #[trigger] reachable(f, b) implies block_reads_ok(f, b, ins[b]) by {
            assert forall|i: int, j: int|
                0 <= i < f.blocks@[b].instructions@.len() && 0 <= j < f.blocks@[b].instructions@[i].kind.spec_read_slots().len()
                    implies read_ok(run(f.blocks@[b].instructions@, i, ins[b]), #[trigger] f.blocks@[b].instructions@[i].kind.spec_read_slots()[j]) by {
            }
            assert forall|j: int| 0 <= j < terminator_reads(f.blocks@[b].terminator.kind).len() implies read_ok(
                block_out(f, b, ins[b]),
                #[trigger] terminator_reads(f.blocks@[b].terminator.kind)[j],
            ) by {
            }
        }
    }
    if forall|b: int| #[trigger] reachable(f, b) ==> block_reads_ok(f, b, ins[b]) {
        assert forall|b: int, i: int, j: int|
            #![trigger reachable(f, b), f.blocks@[b].instructions@[i].kind.spec_read_slots()[j]]
            reachable(f, b) && 0 <= i < f.blocks@[b].instructions@.len() && 0 <= j
                < f.blocks@[b].instructions@[i].kind.spec_read_slots().len() implies read_ok(
                run(f.blocks@[b].instructions@, i, ins[b]),
                f.blocks@[b].instructions@[i].kind.spec_read_slots()[j],
            ) by {
            assert(block_reads_ok(f, b, ins[b]));
        }
        assert forall|b: int, j: int|
            #![trigger reachable(f, b), terminator_reads(f.blocks@[b].terminator.kind)[j]]
            reachable(f, b) && 0 <= j < terminator_reads(f.blocks@[b].terminator.kind).len() implies read_ok(
                block_out(f, b, ins[b]),
                terminator_reads(f.blocks@[b].terminator.kind)[j],
            ) by {
            assert(block_reads_ok(f, b, ins[b]));
        }
    }
}

/// Reads covered under a smaller state are covered under a larger one.
proof fn lemma_block_reads_mono(f: EirFunction, b: int, a: Seq<bool>, c: Seq<bool>)
    requires
        0 <= b < f.blocks@.len(),
        le_bools(a, c),
        block_reads_ok(f, b, a),
    ensures
        block_reads_ok(f, b, c),
{
    let instrs = f.blocks@[b].instructions@;
    assert forall|i: int, j: int|
        0 <= i < instrs.len() && 0 <= j < instrs[i].kind.spec_read_slots().len()
            implies read_ok(run(instrs, i, c), #[trigger] f.blocks@[b].instructions@[i].kind.spec_read_slots()[j]) by {
        lemma_run_mono(instrs, i, a, c);
        lemma_run_len(instrs, i, a);
    }
    assert forall|j: int| 0 <= j < terminator_reads(f.blocks@[b].terminator.kind).len() implies read_ok(
        block_out(f, b, c),
        #[trigger] terminator_reads(f.blocks@[b].terminator.kind)[j],
    ) by {
        lemma_run_mono(instrs, instrs.len() as int, a, c);
        lemma_run_len(instrs, instrs.len() as int, a);
    }
}

/// Definite-initialization check: computes, by iteration from the top, the greatest solution of
/// the dataflow equations, then reports each read in a reachable block of a slot that is not
/// initialized in it.
#[verifier::loop_isolation(false)]
fn verify_initialized_reads(f: &EirFunction, errors: &mut Vec<VerifyError>)
    requires
        f.blocks@.len() > 0,
        f.blocks@.len() <= u32::MAX + 1,
    ensures
        grows(old(errors)@, final(errors)@),
        (final(errors)@.len() == old(errors)@.len()) == reads_initialized(*f),
        final(errors)@ == old(errors)@ + reads_findings(*f),
{
    let preds = predecessors(f);
    let reach = reachable_blocks(f);
    let mut incoming = initial_incoming(f, &reach);
    let mut outgoing = compute_outgoing(f, &incoming);
    proof {
        lemma_iteration_start(*f, reach@, views(incoming@), views(outgoing@));
    }
    loop
        invariant
            iteration_inv(*f, views(incoming@), views(outgoing@)),
            incoming@.len() == f.blocks@.len(),
            outgoing@.len() == f.blocks@.len(),
        decreases total_true(views(outgoing@)),
    {
        let previous = copy_states(&outgoing);
        let ghost inc1 = views(incoming@);
        let ghost out1 = views(outgoing@);
        sweep(f, &preds, &reach, &mut incoming, &mut outgoing, &previous);
        proof {
            lemma_iteration_step(*f, inc1, out1, views(incoming@), views(outgoing@));
            lemma_total_true_le(views(outgoing@), out1);
        }
        if same_states(&outgoing, &previous) {
            proof {
                let g = views(incoming@);
                assert(is_init_solution(*f, g)) by {
                    assert forall|b: int| 0 < b < g.len() && #[trigger] reachable(*f, b) implies g[b] == meet(
                        *f,
                        Seq::new(g.len(), |q: int| block_out(*f, q, g[q])),
                        b,
                    ) by {
                        assert(Seq::new(g.len(), |q: int| block_out(*f, q, g[q])) =~= views(outgoing@));
                        assert(views(outgoing@) == out1);
                    }
                }
            }
            break;
        }
    }
    let ghost e0 = errors@;
    check_all_reads(f, &reach, &incoming, errors);
    proof {
        let g = views(incoming@);
        assert(greatest_solution(*f, g));
        lemma_init_states_agree(*f, g);
        lemma_reads_findings_congruent(*f, g, init_states(*f), f.blocks@.len() as int);
        lemma_reads_ok_blocks(*f, g);
        if errors@.len() == e0.len() {
            assert(is_init_solution(*f, g) && reads_ok(*f, g));
        }
        if reads_initialized(*f) {
            let sol = choose|sol: Seq<Seq<bool>>| is_init_solution(*f, sol) && reads_ok(*f, sol);
            lemma_reads_ok_blocks(*f, sol);
            assert forall|b: int| #[trigger] reachable(*f, b) implies block_reads_ok(*f, b, g[b]) by {
                assert(le_bools(sol[b], g[b]));
                lemma_block_reads_mono(*f, b, sol[b], g[b]);
            }
        }
    }
}


// ---------------------------------------------------------------------------
// Every finding of a program, in the order the verifier reports them

/// A finding about the program as a whole.
pub open spec fn program_finding(kind: VerifyErrorKind) -> VerifyError {
    VerifyError { function: FunctionId(0), block: BlockId(0), instruction: None, anchor: fallback_anchor(), kind }
}

/// The findings on the first `n` entries of the type table: a struct type must name a layout.
pub open spec fn type_table_findings(p: EirProgram, n: int) -> Seq<VerifyError>
    decreases n,
{
    if n <= 0 {
        Seq::empty()
    } else {
        type_table_findings(p, n - 1) + match p.types@[n - 1] {
            SemTypeModel::Struct(id) => if super::spec_struct_def(p, id).is_some() {
                Seq::empty()
            } else {
                seq![program_finding(VerifyErrorKind::InvalidStruct(id))]
            },
            _ => Seq::empty(),
        }
    }
}

/// The findings on the first `n` fields of layout `s`, whose fields are numbered from
/// `base`: each field's number, then its type.
pub open spec fn field_table_findings(p: EirProgram, s: super::EirStruct, base: int, n: int) -> Seq<VerifyError>
    decreases n,
{
    if n <= 0 {
        Seq::empty()
    } else {
        let fd = s.fields@[n - 1];
        let expected = FieldId((base + n - 1) as u32);
        field_table_findings(p, s, base, n - 1)
            + (if fd.id == expected { Seq::empty() } else { seq![program_finding(VerifyErrorKind::FieldOrder { expected, actual: fd.id })] })
            + (if type_of(p, fd.ty).is_some() { Seq::empty() } else { seq![program_finding(VerifyErrorKind::InvalidFieldType { field: fd.id, ty: fd.ty })] })
    }
}

/// The findings on the first `n` struct layouts: each layout's number, then its fields.
pub open spec fn struct_table_findings(p: EirProgram, n: int) -> Seq<VerifyError>
    decreases n,
{
    if n <= 0 {
        Seq::empty()
    } else {
        let st = p.structs@[n - 1];
        let expected = StructId((n - 1) as u32);
        struct_table_findings(p, n - 1)
            + (if st.id == expected { Seq::empty() } else { seq![program_finding(VerifyErrorKind::StructOrder { expected, actual: st.id })] })
            + field_table_findings(p, st, fields_before(p.structs@, n - 1), st.fields@.len() as int)
    }
}

/// The findings on the first `n` host functions: each one's number.
pub open spec fn host_table_findings(p: EirProgram, n: int) -> Seq<VerifyError>
    decreases n,
{
    if n <= 0 {
        Seq::empty()
    } else {
        let h = p.host_functions@[n - 1];
        host_table_findings(p, n - 1) + if h.id == HostFunctionId((n - 1) as u32) {
            Seq::empty()
        } else {
            seq![VerifyError { function: FunctionId(0), block: BlockId(0), instruction: None, anchor: h.anchor, kind: VerifyErrorKind::InvalidHostFunction(h.id) }]
        }
    }
}

/// The findings on the program's tables: types, then struct layouts, then host functions.
pub open spec fn tables_findings(p: EirProgram) -> Seq<VerifyError> {
    type_table_findings(p, p.types@.len() as int) + struct_table_findings(p, p.structs@.len() as int)
        + host_table_findings(p, p.host_functions@.len() as int)
}

/// Where findings on a function as a whole point: its entry block's terminator.
pub open spec fn spec_function_anchor(f: EirFunction) -> SourceAnchor {
    if f.blocks@.len() > 0 { f.blocks@[0].terminator.anchor } else { fallback_anchor() }
}

/// A finding on function `f` as a whole.
pub open spec fn function_finding(f: EirFunction, kind: VerifyErrorKind) -> VerifyError {
    VerifyError { function: f.id, block: BlockId(0), instruction: None, anchor: spec_function_anchor(f), kind }
}

/// The finding on a type that the function names: none where the table has it.
pub open spec fn known_type_findings(p: EirProgram, f: EirFunction, ty: TypeId) -> Seq<VerifyError> {
    if type_of(p, ty).is_some() { Seq::empty() } else { seq![function_finding(f, VerifyErrorKind::InvalidType(ty))] }
}

/// The findings on the first `n` parameter types.
pub open spec fn param_type_findings(p: EirProgram, f: EirFunction, n: int) -> Seq<VerifyError>
    decreases n,
{
    if n <= 0 {
        Seq::empty()
    } else {
        param_type_findings(p, f, n - 1) + known_type_findings(p, f, f.signature.params@[n - 1])
    }
}

/// The findings on the first `n` slots: the slot's type, then, for a parameter slot, that
/// it has the parameter's type.
pub open spec fn slot_type_findings(p: EirProgram, f: EirFunction, n: int) -> Seq<VerifyError>
    decreases n,
{
    if n <= 0 {
        Seq::empty()
    } else {
        let i = n - 1;
        let ty = f.slots@[i];
        slot_type_findings(p, f, n - 1) + known_type_findings(p, f, ty)
            + if i < f.signature.params@.len() && f.signature.params@[i] != ty {
                seq![function_finding(f, VerifyErrorKind::SlotType { slot: SlotId(i as u32), expected: f.signature.params@[i], actual: ty })]
            } else {
                Seq::empty()
            }
    }
}

/// The findings on a function's header: the parameter count, the parameter and return
/// types, and the slot types.
pub open spec fn header_findings(p: EirProgram, f: EirFunction) -> Seq<VerifyError> {
    (if f.parameter_count as int != f.signature.params@.len() || f.parameter_count as int > f.slots@.len() {
        seq![function_finding(f, VerifyErrorKind::ParameterCount {
            signature: f.signature.params@.len() as usize,
            declared: f.parameter_count,
            slots: f.slots@.len() as usize,
        })]
    } else {
        Seq::empty()
    }) + param_type_findings(p, f, f.signature.params@.len() as int) + known_type_findings(p, f, f.signature.return_type)
        + slot_type_findings(p, f, f.slots@.len() as int)
}

/// The findings on one instruction.
pub open spec fn instruction_findings(p: EirProgram, f: EirFunction, k: InstructionKind, loc: Loc) -> Seq<VerifyError> {
    match simple_findings(p, f, k, loc) {
        Some(fs) => fs,
        None => match shaped_findings(p, f, k, loc) {
            Some(fs) => fs,
            None => Seq::empty(),
        },
    }
}

/// The findings on the first `n` instructions of block `b`.
pub open spec fn instructions_findings(p: EirProgram, f: EirFunction, b: int, n: int) -> Seq<VerifyError>
    decreases n,
{
    if n <= 0 {
        Seq::empty()
    } else {
        let ins = f.blocks@[b].instructions@[n - 1];
        instructions_findings(p, f, b, n - 1) + instruction_findings(p, f, ins.kind, instruction_loc(f, BlockId(b as u32), (n - 1) as usize, ins))
    }
}

/// The findings on block `b`: its instructions, then its terminator.
pub open spec fn block_body_findings(p: EirProgram, f: EirFunction, b: int) -> Seq<VerifyError> {
    let blk = f.blocks@[b];
    instructions_findings(p, f, b, blk.instructions@.len() as int)
        + terminator_findings(p, f, blk.terminator.kind, terminator_loc(f, BlockId(b as u32), blk.terminator))
}

/// The findings on the first `n` blocks.
pub open spec fn blocks_findings(p: EirProgram, f: EirFunction, n: int) -> Seq<VerifyError>
    decreases n,
{
    if n <= 0 {
        Seq::empty()
    } else {
        blocks_findings(p, f, n - 1) + block_body_findings(p, f, n - 1)
    }
}

/// The entry states that the verifier computes: a solution of the dataflow equations that
/// no solution exceeds on a reachable block.
pub open spec fn greatest_solution(f: EirFunction, g: Seq<Seq<bool>>) -> bool {
    is_init_solution(f, g) && below_all_solutions(f, g)
}

/// The entry states of the greatest solution.
pub open spec fn init_states(f: EirFunction) -> Seq<Seq<bool>> {
    choose|g: Seq<Seq<bool>>| greatest_solution(f, g)
}

/// The findings on the first `n` reads of a list, in state `st`: each uninitialized slot.
pub open spec fn read_findings(f: EirFunction, block: BlockId, instruction: Option<usize>, anchor: SourceAnchor, reads: Seq<SlotId>, st: Seq<bool>, n: int) -> Seq<VerifyError>
    decreases n,
{
    if n <= 0 {
        Seq::empty()
    } else {
        read_findings(f, block, instruction, anchor, reads, st, n - 1) + if read_ok(st, reads[n - 1]) {
            Seq::empty()
        } else {
            seq![VerifyError { function: f.id, block, instruction, anchor, kind: VerifyErrorKind::UninitializedRead(reads[n - 1]) }]
        }
    }
}

/// The findings on the reads of the first `n` instructions of block `b` entered in state `st`.
pub open spec fn instruction_read_findings(f: EirFunction, b: int, st: Seq<bool>, n: int) -> Seq<VerifyError>
    decreases n,
{
    if n <= 0 {
        Seq::empty()
    } else {
        let instrs = f.blocks@[b].instructions@;
        let ins = instrs[n - 1];
        let reads = ins.kind.spec_read_slots();
        instruction_read_findings(f, b, st, n - 1)
            + read_findings(f, BlockId(b as u32), Some((n - 1) as usize), ins.anchor, reads, run(instrs, n - 1, st), reads.len() as int)
    }
}

/// The findings on the reads of block `b` entered in state `st`: its instructions', then its
/// terminator's.
pub open spec fn block_read_findings(f: EirFunction, b: int, st: Seq<bool>) -> Seq<VerifyError> {
    let blk = f.blocks@[b];
    let reads = terminator_reads(blk.terminator.kind);
    instruction_read_findings(f, b, st, blk.instructions@.len() as int)
        + read_findings(f, BlockId(b as u32), None, blk.terminator.anchor, reads, block_out(f, b, st), reads.len() as int)
}

/// The findings on the reads of the first `n` blocks under entry states `ins`; unreachable
/// blocks are not checked.
pub open spec fn reads_findings_upto(f: EirFunction, ins: Seq<Seq<bool>>, n: int) -> Seq<VerifyError>
    decreases n,
{
    if n <= 0 {
        Seq::empty()
    } else {
        reads_findings_upto(f, ins, n - 1) + if reachable(f, n - 1) { block_read_findings(f, n - 1, ins[n - 1]) } else { Seq::empty() }
    }
}

/// The findings on reads of possibly uninitialized slots.
pub open spec fn reads_findings(f: EirFunction) -> Seq<VerifyError> {
    reads_findings_upto(f, init_states(f), f.blocks@.len() as int)
}

/// The findings on a function: that it has blocks, then its header, its blocks and its reads.
pub open spec fn function_findings(p: EirProgram, f: EirFunction) -> Seq<VerifyError> {
    if f.blocks@.len() == 0 {
        seq![function_finding(f, VerifyErrorKind::EmptyFunction)]
    } else {
        header_findings(p, f) + blocks_findings(p, f, f.blocks@.len() as int) + reads_findings(f)
    }
}

/// The findings on the first `n` functions: each one's number, then the function.
pub open spec fn functions_findings(p: EirProgram, n: int) -> Seq<VerifyError>
    decreases n,
{
    if n <= 0 {
        Seq::empty()
    } else {
        let f = p.functions@[n - 1];
        let expected = FunctionId((n - 1) as u32);
        functions_findings(p, n - 1) + (if f.id == expected {
            Seq::empty()
        } else {
            seq![VerifyError { function: f.id, block: BlockId(0), instruction: None, anchor: spec_function_anchor(f), kind: VerifyErrorKind::FunctionOrder { expected, actual: f.id } }]
        }) + function_findings(p, f)
    }
}

/// The findings on the first `n` module initializers.
pub open spec fn initializers_findings(p: EirProgram, n: int) -> Seq<VerifyError>
    decreases n,
{
    if n <= 0 {
        Seq::empty()
    } else {
        let id = p.module_initializers@[n - 1];
        initializers_findings(p, n - 1) + if initializer_ok(p, id) {
            Seq::empty()
        } else {
            seq![VerifyError { function: id, block: BlockId(0), instruction: None, anchor: fallback_anchor(), kind: VerifyErrorKind::InvalidInitializer(id) }]
        }
    }
}

/// Every finding on a program: its tables, its functions, then its module initializers.
pub open spec fn program_findings(p: EirProgram) -> Seq<VerifyError> {
    tables_findings(p) + functions_findings(p, p.functions@.len() as int)
        + initializers_findings(p, p.module_initializers@.len() as int)
}

proof fn lemma_le_bools_antisym(a: Seq<bool>, b: Seq<bool>)
    requires
        le_bools(a, b),
        le_bools(b, a),
    ensures
        a == b,
{
    assert(a =~= b);
}

/// Any greatest solution agrees with `init_states` on every reachable block.
proof fn lemma_init_states_agree(f: EirFunction, g: Seq<Seq<bool>>)
    requires
        greatest_solution(f, g),
    ensures
        greatest_solution(f, init_states(f)),
        forall|b: int| #[trigger] reachable(f, b) ==> init_states(f)[b] == g[b],
{
    let h = init_states(f);
    assert(greatest_solution(f, h));
    assert forall|b: int| #[trigger] reachable(f, b) implies h[b] == g[b] by {
        assert(is_init_solution(f, h));
        assert(is_init_solution(f, g));
        assert(le_bools(h[b], g[b]));
        assert(le_bools(g[b], h[b]));
        lemma_le_bools_antisym(h[b], g[b]);
    }
}

proof fn lemma_reads_findings_congruent(f: EirFunction, a: Seq<Seq<bool>>, c: Seq<Seq<bool>>, n: int)
    requires
        forall|b: int| #[trigger] reachable(f, b) ==> a[b] == c[b],
    ensures
        reads_findings_upto(f, a, n) == reads_findings_upto(f, c, n),
    decreases n,
{
    if n > 0 {
        lemma_reads_findings_congruent(f, a, c, n - 1);
        if reachable(f, n - 1) {
            assert(a[n - 1] == c[n - 1]);
        }
    }
}

/// Number of struct fields declared before struct `i`.
pub open spec fn fields_before(structs: Seq<super::EirStruct>, i: int) -> int
    decreases i,
{
    if i <= 0 {
        0
    } else {
        fields_before(structs, i - 1) + structs[i - 1].fields@.len()
    }
}

/// Machine limits of the verifier: every table it numbers fits the `u32` identifier range.
pub open spec fn program_fits(p: EirProgram) -> bool {
    &&& p.types@.len() <= u32::MAX + 1
    &&& p.structs@.len() <= u32::MAX + 1
    &&& fields_before(p.structs@, p.structs@.len() as int) <= u32::MAX + 1
    &&& p.host_functions@.len() <= u32::MAX + 1
    &&& p.functions@.len() <= u32::MAX + 1
    &&& forall|i: int| 0 <= i < p.functions@.len() ==> (#[trigger] p.functions@[i]).blocks@.len() <= u32::MAX + 1
        && p.functions@[i].slots@.len() <= u32::MAX + 1
}

/// Every struct type names a struct layout; layouts, fields, host functions and functions are
/// numbered densely in order; field types exist.
pub open spec fn tables_ok(p: EirProgram) -> bool {
    &&& forall|i: int| 0 <= i < p.types@.len() ==> (#[trigger] p.types@[i] matches SemTypeModel::Struct(id) ==> super::spec_struct_def(p, id).is_some())
    &&& forall|i: int| 0 <= i < p.structs@.len() ==> (#[trigger] p.structs@[i]).id == StructId(i as u32)
    &&& forall|i: int, j: int| 0 <= i < p.structs@.len() && 0 <= j < p.structs@[i].fields@.len() ==> (#[trigger] p.structs@[i].fields@[j]).id == FieldId((fields_before(p.structs@, i) + j) as u32)
        && type_of(p, p.structs@[i].fields@[j].ty).is_some()
    &&& forall|i: int| 0 <= i < p.host_functions@.len() ==> (#[trigger] p.host_functions@[i]).id == HostFunctionId(i as u32)
}

/// A module initializer takes no parameters and returns `void`.
pub open spec fn initializer_ok(p: EirProgram, id: FunctionId) -> bool {
    match spec_function(p, id) {
        Some(g) => g.signature.params@.len() == 0 && g.signature.return_type == TypeId(1),
        None => false,
    }
}

/// A program the verifier accepts.
pub open spec fn program_ok(p: EirProgram) -> bool {
    &&& tables_ok(p)
    &&& forall|i: int| 0 <= i < p.functions@.len() ==> (#[trigger] p.functions@[i]).id == FunctionId(i as u32) && function_ok(p, p.functions@[i])
    &&& forall|k: int| 0 <= k < p.module_initializers@.len() ==> initializer_ok(p, #[trigger] p.module_initializers@[k])
}

fn program_error(kind: VerifyErrorKind) -> (e: VerifyError)
    ensures
        e == program_finding(kind),
{
    VerifyError { function: FunctionId(0), block: BlockId(0), instruction: None, anchor: make_fallback_anchor(), kind }
}

fn push_error(errors: &mut Vec<VerifyError>, e: VerifyError)
    ensures
        grows(old(errors)@, final(errors)@),
        final(errors)@.len() == old(errors)@.len() + 1,
        final(errors)@ == old(errors)@.push(e),
{
    errors.push(e);
    assert(errors@.subrange(0, old(errors)@.len() as int) =~= old(errors)@);
}

fn verify_tables(p: &EirProgram, errors: &mut Vec<VerifyError>)
    requires
        program_fits(*p),
    ensures
        grows(old(errors)@, final(errors)@),
        (final(errors)@.len() == old(errors)@.len()) == tables_ok(*p),
        final(errors)@ == old(errors)@ + tables_findings(*p),
{
    let ghost e0 = errors@;
    proof {
        lemma_grows_refl(e0);
        assert(e0 + type_table_findings(*p, 0) =~= e0);
    }
    let type_count = p.types.len();
    let mut index: usize = 0;
    while index < type_count
        invariant
            index <= type_count,
            type_count == p.types@.len(),
            program_fits(*p),
            grows(e0, errors@),
            errors@ == e0 + type_table_findings(*p, index as int),
            (errors@.len() == e0.len()) == (forall|i: int| 0 <= i < index ==> (#[trigger] p.types@[i] matches SemTypeModel::Struct(id) ==> super::spec_struct_def(*p, id).is_some())),
        decreases type_count - index,
    {
        let ghost before = errors@;
        let ty = TypeId(index as u32);
        match p.types.get(ty) {
            Some(SemType::Struct(id)) => {
                if p.struct_def(*id).is_none() {
                    push_error(errors, program_error(VerifyErrorKind::InvalidStruct(*id)));
                } else {
                    proof {
                        lemma_grows_refl(errors@);
                    }
                }
            },
            _ => {
                proof {
                    lemma_grows_refl(errors@);
                }
            },
        }
        proof {
            lemma_grows_trans(e0, before, errors@);
            let ii = index as int;
            assert(errors@ =~= e0 + type_table_findings(*p, ii + 1));
            assert((forall|i: int| 0 <= i < ii + 1 ==> (#[trigger] p.types@[i] matches SemTypeModel::Struct(id) ==> super::spec_struct_def(*p, id).is_some())) == ((forall|i: int|
                0 <= i < ii ==> (#[trigger] p.types@[i] matches SemTypeModel::Struct(id) ==> super::spec_struct_def(*p, id).is_some())) && (p.types@[ii] matches SemTypeModel::Struct(id) ==> super::spec_struct_def(*p, id).is_some())));
        }
        index += 1;
    }
    let ghost e1 = errors@;
    proof {
        lemma_grows_refl(e1);
        assert(e1 + struct_table_findings(*p, 0) =~= e1);
    }
    let mut field_index: u64 = 0;
    let mut i: usize = 0;
    while i < p.structs.len()
        invariant
            i <= p.structs@.len(),
            program_fits(*p),
            field_index == fields_before(p.structs@, i as int),
            grows(e1, errors@),
            errors@ == e1 + struct_table_findings(*p, i as int),
            (errors@.len() == e1.len()) == ((forall|k: int| 0 <= k < i ==> (#[trigger] p.structs@[k]).id == StructId(k as u32))
                && (forall|k: int, j: int| 0 <= k < i && 0 <= j < p.structs@[k].fields@.len() ==> (#[trigger] p.structs@[k].fields@[j]).id == FieldId((fields_before(p.structs@, k) + j) as u32)
                    && type_of(*p, p.structs@[k].fields@[j].ty).is_some())),
        decreases p.structs.len() - i,
    {
        proof {
            lemma_fields_before_mono(p.structs@, i as int + 1, p.structs@.len() as int);
        }
        let record = &p.structs[i];
        let ghost before = errors@;
        let expected = StructId(i as u32);
        if record.id != expected {
            push_error(errors, program_error(VerifyErrorKind::StructOrder { expected, actual: record.id }));
        } else {
            proof {
                lemma_grows_refl(errors@);
            }
        }
        let ghost mid = errors@;
        let ghost base = field_index as int;
        proof {
            lemma_grows_refl(mid);
            assert(mid + field_table_findings(*p, *record, base, 0) =~= mid);
        }
        let mut j: usize = 0;
        while j < record.fields.len()
            invariant
                j <= record.fields@.len(),
                *record == p.structs@[i as int],
                base == fields_before(p.structs@, i as int),
                base + record.fields@.len() == fields_before(p.structs@, i as int + 1),
                fields_before(p.structs@, i as int + 1) <= u32::MAX + 1,
                field_index == base + j,
                grows(mid, errors@),
                errors@ == mid + field_table_findings(*p, *record, base, j as int),
                (errors@.len() == mid.len()) == (forall|jj: int| 0 <= jj < j ==> (#[trigger] record.fields@[jj]).id == FieldId((base + jj) as u32)
                    && type_of(*p, record.fields@[jj].ty).is_some()),
            decreases record.fields.len() - j,
        {
            let field = &record.fields[j];
            let ghost fb = errors@;
            let expected_field = FieldId(field_index as u32);
            if field.id != expected_field {
                push_error(errors, program_error(VerifyErrorKind::FieldOrder { expected: expected_field, actual: field.id }));
            } else {
                proof {
                    lemma_grows_refl(errors@);
                }
            }
            let ghost fm = errors@;
            if sem_type(p, field.ty).is_none() {
                push_error(errors, program_error(VerifyErrorKind::InvalidFieldType { field: field.id, ty: field.ty }));
            } else {
                proof {
                    lemma_grows_refl(errors@);
                }
            }
            proof {
                lemma_grows_trans(fb, fm, errors@);
                lemma_grows_trans(mid, fb, errors@);
                let jj0 = j as int;
                assert(record.fields@[jj0] == *field);
                assert(errors@ =~= mid + field_table_findings(*p, *record, base, jj0 + 1));
                assert((forall|jj: int| 0 <= jj < jj0 + 1 ==> (#[trigger] record.fields@[jj]).id == FieldId((base + jj) as u32)
                    && type_of(*p, record.fields@[jj].ty).is_some()) == ((forall|jj: int| 0 <= jj < jj0 ==> (#[trigger] record.fields@[jj]).id == FieldId((base + jj) as u32)
                    && type_of(*p, record.fields@[jj].ty).is_some()) && (record.fields@[jj0].id == FieldId((base + jj0) as u32)
                    && type_of(*p, record.fields@[jj0].ty).is_some())));
            }
            field_index += 1;
            j += 1;
        }
        proof {
            lemma_grows_trans(before, mid, errors@);
            lemma_grows_trans(e1, before, errors@);
            let ii = i as int;
            assert(p.structs@[ii] == *record);
            assert(errors@ =~= e1 + struct_table_findings(*p, ii + 1));
            assert((forall|k: int| 0 <= k < ii + 1 ==> (#[trigger] p.structs@[k]).id == StructId(k as u32)) == ((forall|k: int|
                0 <= k < ii ==> (#[trigger] p.structs@[k]).id == StructId(k as u32)) && p.structs@[ii].id == StructId(ii as u32)));
            assert((forall|k: int, j: int| 0 <= k < ii + 1 && 0 <= j < p.structs@[k].fields@.len() ==> (#[trigger] p.structs@[k].fields@[j]).id == FieldId((fields_before(p.structs@, k) + j) as u32)
                    && type_of(*p, p.structs@[k].fields@[j].ty).is_some()) == ((forall|k: int, j: int| 0 <= k < ii && 0 <= j < p.structs@[k].fields@.len() ==> (#[trigger] p.structs@[k].fields@[j]).id == FieldId((fields_before(p.structs@, k) + j) as u32)
                    && type_of(*p, p.structs@[k].fields@[j].ty).is_some()) && (forall|jj: int| 0 <= jj < record.fields@.len() ==> (#[trigger] record.fields@[jj]).id == FieldId((fields_before(p.structs@, ii) + jj) as u32)
                    && type_of(*p, record.fields@[jj].ty).is_some())));
        }
        i += 1;
    }
    let ghost e2 = errors@;
    proof {
        lemma_grows_refl(e2);
        assert(e2 + host_table_findings(*p, 0) =~= e2);
    }
    let mut h: usize = 0;
    while h < p.host_functions.len()
        invariant
            h <= p.host_functions@.len(),
            program_fits(*p),
            grows(e2, errors@),
            errors@ == e2 + host_table_findings(*p, h as int),
            (errors@.len() == e2.len()) == (forall|k: int| 0 <= k < h ==> (#[trigger] p.host_functions@[k]).id == HostFunctionId(k as u32)),
        decreases p.host_functions.len() - h,
    {
        let ghost before = errors@;
        let expected = HostFunctionId(h as u32);
        let function = &p.host_functions[h];
        if function.id != expected {
            push_error(errors, VerifyError {
                function: FunctionId(0),
                block: BlockId(0),
                instruction: None,
                anchor: function.anchor,
                kind: VerifyErrorKind::InvalidHostFunction(function.id),
            });
        } else {
            proof {
                lemma_grows_refl(errors@);
            }
        }
        proof {
            lemma_grows_trans(e2, before, errors@);
            let hh = h as int;
            assert(p.host_functions@[hh] == *function);
            assert(errors@ =~= e2 + host_table_findings(*p, hh + 1));
            assert((forall|k: int| 0 <= k < hh + 1 ==> (#[trigger] p.host_functions@[k]).id == HostFunctionId(k as u32)) == ((forall|k: int|
                0 <= k < hh ==> (#[trigger] p.host_functions@[k]).id == HostFunctionId(k as u32)) && p.host_functions@[hh].id == HostFunctionId(hh as u32)));
        }
        h += 1;
    }
    proof {
        lemma_grows_trans(e1, e2, errors@);
        lemma_grows_trans(e0, e1, errors@);
        assert(errors@ =~= e0 + tables_findings(*p));
    }
}

proof fn lemma_fields_before_mono(structs: Seq<super::EirStruct>, i: int, j: int)
    requires
        0 <= i <= j,
    ensures
        fields_before(structs, i) <= fields_before(structs, j),
    decreases j - i,
{
    if i < j {
        lemma_fields_before_mono(structs, i, j - 1);
    }
}

/// Verifies a whole program: tables, every function, and the module initializers. Succeeds exactly
/// when the program satisfies every rule; otherwise returns the findings, at least one.
#[verifier::rlimit(100)]
#[verifier::spinoff_prover]
pub fn verify_program(p: &EirProgram) -> (r: Result<(), Vec<VerifyError>>)
    requires
        program_fits(*p),
    ensures
        r.is_ok() == program_ok(*p),
        r matches Err(es) ==> es@.len() > 0,
        match r {
            Ok(_) => program_findings(*p).len() == 0,
            Err(es) => es@ == program_findings(*p),
        },
{
    let mut errors: Vec<VerifyError> = Vec::new();
    verify_tables(p, &mut errors);
    let ghost e1 = errors@;
    proof {
        lemma_grows_refl(e1);
        assert(e1 + functions_findings(*p, 0) =~= e1);
    }
    let mut i: usize = 0;
    while i < p.functions.len()
        invariant
            i <= p.functions@.len(),
            program_fits(*p),
            grows(e1, errors@),
            errors@ == e1 + functions_findings(*p, i as int),
            (errors@.len() == e1.len()) == (forall|k: int| 0 <= k < i ==> (#[trigger] p.functions@[k]).id == FunctionId(k as u32) && function_ok(*p, p.functions@[k])),
        decreases p.functions.len() - i,
    {
        let ghost before = errors@;
        let function = &p.functions[i];
        let expected = FunctionId(i as u32);
        if function.id != expected {
            let anchor = function_anchor(function);
            push_error(&mut errors, VerifyError {
                function: function.id,
                block: BlockId(0),
                instruction: None,
                anchor,
                kind: VerifyErrorKind::FunctionOrder { expected, actual: function.id },
            });
        } else {
            proof {
                lemma_grows_refl(errors@);
            }
        }
        let ghost mid = errors@;
        assert(function.blocks@.len() <= u32::MAX + 1 && function.slots@.len() <= u32::MAX + 1) by {
            assert(p.functions@[i as int] == *function);
        }
        verify_function(p, function, &mut errors);
        proof {
            lemma_grows_trans(before, mid, errors@);
            lemma_grows_trans(e1, before, errors@);
            let ii = i as int;
            assert(p.functions@[ii] == *function);
            assert(errors@ =~= e1 + functions_findings(*p, ii + 1));
            assert((forall|k: int| 0 <= k < ii + 1 ==> (#[trigger] p.functions@[k]).id == FunctionId(k as u32) && function_ok(*p, p.functions@[k])) == ((forall|k: int|
                0 <= k < ii ==> (#[trigger] p.functions@[k]).id == FunctionId(k as u32) && function_ok(*p, p.functions@[k])) && (p.functions@[ii].id == FunctionId(ii as u32) && function_ok(*p, p.functions@[ii]))));
        }
        i += 1;
    }
    let ghost e2 = errors@;
    proof {
        lemma_grows_refl(e2);
        assert(e2 + initializers_findings(*p, 0) =~= e2);
    }
    let mut k: usize = 0;
    while k < p.module_initializers.len()
        invariant
            k <= p.module_initializers@.len(),
            grows(e2, errors@),
            errors@ == e2 + initializers_findings(*p, k as int),
            (errors@.len() == e2.len()) == (forall|kk: int| 0 <= kk < k ==> initializer_ok(*p, #[trigger] p.module_initializers@[kk])),
        decreases p.module_initializers.len() - k,
    {
        let ghost before = errors@;
        let initializer = p.module_initializers[k];
        let ok = match p.function(initializer) {
            Some(function) => function.signature.params.len() == 0 && function.signature.return_type == TypeId(1),
            None => false,
        };
        if !ok {
            push_error(&mut errors, VerifyError {
                function: initializer,
                block: BlockId(0),
                instruction: None,
                anchor: make_fallback_anchor(),
                kind: VerifyErrorKind::InvalidInitializer(initializer),
            });
        } else {
            proof {
                lemma_grows_refl(errors@);
            }
        }
        proof {
            lemma_grows_trans(e2, before, errors@);
            let kk0 = k as int;
            assert(errors@ =~= e2 + initializers_findings(*p, kk0 + 1));
            assert((forall|kk: int| 0 <= kk < kk0 + 1 ==> initializer_ok(*p, #[trigger] p.module_initializers@[kk])) == ((forall|kk: int|
                0 <= kk < kk0 ==> initializer_ok(*p, #[trigger] p.module_initializers@[kk])) && initializer_ok(*p, p.module_initializers@[kk0])));
        }
        k += 1;
    }
    proof {
        lemma_grows_trans(e1, e2, errors@);
        assert(errors@ =~= program_findings(*p));
    }
    if errors.len() == 0 {
        Ok(())
    } else {
        Err(errors)
    }
}

} // verus!
