//! A readable listing of an EIR program, for debugging and tests.
use vstd::prelude::*;

use crate::hir::effects::effects_text;
use crate::hir::{SemType, SemTypeModel, SourceAnchor, TypeId};
use crate::text::{debug_quoted, debug_text, decimal, join_with, lemma_join_push, push_decimal, push_str};

use super::{spec_constant_ty, Constant, EirProgram, InstructionKind, SlotId, TerminatorKind};

verus! {

/// The operation name of an instruction.
pub open spec fn op_name(k: InstructionKind) -> Seq<char> {
    match k {
        InstructionKind::Const { .. } => "const"@,
        InstructionKind::Copy { .. } => "copy"@,
        InstructionKind::Move { .. } => "move"@,
        InstructionKind::MoveGlobal { .. } => "move_global"@,
        InstructionKind::LoadGlobal { .. } => "load_global"@,
        InstructionKind::StoreGlobal { .. } => "store_global"@,
        InstructionKind::MakeError { .. } => "make_error"@,
        InstructionKind::MakeFunction { .. } => "make_function"@,
        InstructionKind::MakeHostFunction { .. } => "make_host_function"@,
        InstructionKind::IsError { .. } => "is_error"@,
        InstructionKind::ErrorMatches { .. } => "error_matches"@,
        InstructionKind::IsTruthy { .. } => "is_truthy"@,
        InstructionKind::Check { .. } => "check"@,
        InstructionKind::MakeAddress { .. } => "make_address"@,
        InstructionKind::MakeRef { .. } => "make_ref"@,
        InstructionKind::Deref { .. } => "deref"@,
        InstructionKind::StoreDeref { .. } => "store_deref"@,
        InstructionKind::MakeList { .. } => "make_list"@,
        InstructionKind::MakeMap { .. } => "make_map"@,
        InstructionKind::ListJoin { .. } => "list_join"@,
        InstructionKind::ListSlice { .. } => "list_slice"@,
        InstructionKind::ListReverse { .. } => "list_reverse"@,
        InstructionKind::MapHas { .. } => "map_has"@,
        InstructionKind::MapSet { .. } => "map_set"@,
        InstructionKind::MapDelete { .. } => "map_delete"@,
        InstructionKind::MakeStruct { .. } => "make_struct"@,
        InstructionKind::GetField { .. } => "get_field"@,
        InstructionKind::SetField { .. } => "set_field"@,
        InstructionKind::GetIndex { .. } => "get_index"@,
        InstructionKind::Push { .. } => "push"@,
        InstructionKind::Len { .. } => "len"@,
        InstructionKind::MakeRange { .. } => "make_range"@,
        InstructionKind::IterInit { .. } => "iter_init"@,
        InstructionKind::IterHasNext { .. } => "iter_has_next"@,
        InstructionKind::IterGet { .. } => "iter_get"@,
        InstructionKind::AddNum { .. } => "add_num"@,
        InstructionKind::ConcatString { .. } => "concat_string"@,
        InstructionKind::SubNum { .. } => "sub_num"@,
        InstructionKind::MulNum { .. } => "mul_num"@,
        InstructionKind::DivNum { .. } => "div_num"@,
        InstructionKind::EqNum { .. } => "eq_num"@,
        InstructionKind::EqString { .. } => "eq_string"@,
        InstructionKind::EqBool { .. } => "eq_bool"@,
        InstructionKind::NeNum { .. } => "ne_num"@,
        InstructionKind::NeString { .. } => "ne_string"@,
        InstructionKind::NeBool { .. } => "ne_bool"@,
        InstructionKind::GtNum { .. } => "gt_num"@,
        InstructionKind::LtNum { .. } => "lt_num"@,
        InstructionKind::GeNum { .. } => "ge_num"@,
        InstructionKind::LeNum { .. } => "le_num"@,
        InstructionKind::CallDirect { .. } => "call_direct"@,
        InstructionKind::CallHost { .. } => "call_host"@,
        InstructionKind::CallIndirect { .. } => "call_indirect"@,
        InstructionKind::MakePipe { .. } => "make_pipe"@,
        InstructionKind::Give { .. } => "give"@,
        InstructionKind::Take { .. } => "take"@,
        InstructionKind::Close { .. } => "close"@,
        InstructionKind::Rest => "rest"@,
        InstructionKind::Spawn { .. } => "spawn"@,
    }
}

fn op_name_exec(k: &InstructionKind) -> (r: &'static str)
    ensures
        r@ == op_name(*k),
{
    match k {
        InstructionKind::Const { .. } => "const",
        InstructionKind::Copy { .. } => "copy",
        InstructionKind::Move { .. } => "move",
        InstructionKind::MoveGlobal { .. } => "move_global",
        InstructionKind::LoadGlobal { .. } => "load_global",
        InstructionKind::StoreGlobal { .. } => "store_global",
        InstructionKind::MakeError { .. } => "make_error",
        InstructionKind::MakeFunction { .. } => "make_function",
        InstructionKind::MakeHostFunction { .. } => "make_host_function",
        InstructionKind::IsError { .. } => "is_error",
        InstructionKind::ErrorMatches { .. } => "error_matches",
        InstructionKind::IsTruthy { .. } => "is_truthy",
        InstructionKind::Check { .. } => "check",
        InstructionKind::MakeAddress { .. } => "make_address",
        InstructionKind::MakeRef { .. } => "make_ref",
        InstructionKind::Deref { .. } => "deref",
        InstructionKind::StoreDeref { .. } => "store_deref",
        InstructionKind::MakeList { .. } => "make_list",
        InstructionKind::MakeMap { .. } => "make_map",
        InstructionKind::ListJoin { .. } => "list_join",
        InstructionKind::ListSlice { .. } => "list_slice",
        InstructionKind::ListReverse { .. } => "list_reverse",
        InstructionKind::MapHas { .. } => "map_has",
        InstructionKind::MapSet { .. } => "map_set",
        InstructionKind::MapDelete { .. } => "map_delete",
        InstructionKind::MakeStruct { .. } => "make_struct",
        InstructionKind::GetField { .. } => "get_field",
        InstructionKind::SetField { .. } => "set_field",
        InstructionKind::GetIndex { .. } => "get_index",
        InstructionKind::Push { .. } => "push",
        InstructionKind::Len { .. } => "len",
        InstructionKind::MakeRange { .. } => "make_range",
        InstructionKind::IterInit { .. } => "iter_init",
        InstructionKind::IterHasNext { .. } => "iter_has_next",
        InstructionKind::IterGet { .. } => "iter_get",
        InstructionKind::AddNum { .. } => "add_num",
        InstructionKind::ConcatString { .. } => "concat_string",
        InstructionKind::SubNum { .. } => "sub_num",
        InstructionKind::MulNum { .. } => "mul_num",
        InstructionKind::DivNum { .. } => "div_num",
        InstructionKind::EqNum { .. } => "eq_num",
        InstructionKind::EqString { .. } => "eq_string",
        InstructionKind::EqBool { .. } => "eq_bool",
        InstructionKind::NeNum { .. } => "ne_num",
        InstructionKind::NeString { .. } => "ne_string",
        InstructionKind::NeBool { .. } => "ne_bool",
        InstructionKind::GtNum { .. } => "gt_num",
        InstructionKind::LtNum { .. } => "lt_num",
        InstructionKind::GeNum { .. } => "ge_num",
        InstructionKind::LeNum { .. } => "le_num",
        InstructionKind::CallDirect { .. } => "call_direct",
        InstructionKind::CallHost { .. } => "call_host",
        InstructionKind::CallIndirect { .. } => "call_indirect",
        InstructionKind::MakePipe { .. } => "make_pipe",
        InstructionKind::Give { .. } => "give",
        InstructionKind::Take { .. } => "take",
        InstructionKind::Close { .. } => "close",
        InstructionKind::Rest => "rest",
        InstructionKind::Spawn { .. } => "spawn",
    }
}

/// `t<n>`
pub open spec fn type_ref(t: TypeId) -> Seq<char> {
    "t"@ + decimal(t.0 as nat)
}

/// `s<n>`
pub open spec fn slot_ref(s: SlotId) -> Seq<char> {
    "s"@ + decimal(s.0 as nat)
}

pub open spec fn slot_refs(s: Seq<SlotId>) -> Seq<Seq<char>> {
    Seq::new(s.len(), |i: int| slot_ref(s[i]))
}

pub open spec fn type_refs(s: Seq<TypeId>) -> Seq<Seq<char>> {
    Seq::new(s.len(), |i: int| type_ref(s[i]))
}

fn push_slot_list(out: &mut String, s: &Vec<SlotId>)
    ensures
        final(out)@ == old(out)@ + join_with(slot_refs(s@), ", "@),
{
    let ghost start = out@;
    let mut i: usize = 0;
    while i < s.len()
        invariant
            i <= s@.len(),
            out@ == start + join_with(slot_refs(s@.subrange(0, i as int)), ", "@),
        decreases s.len() - i,
    {
        let ghost piece = slot_ref(s@[i as int]);
        proof {
            assert(slot_refs(s@.subrange(0, i + 1)) =~= slot_refs(s@.subrange(0, i as int)).push(piece));
            lemma_join_push(slot_refs(s@.subrange(0, i as int)), ", "@, piece);
        }
        if i > 0 {
            push_str(out, ", ");
        }
        let ghost mid = out@;
        push_str(out, "s");
        push_decimal(out, s[i].0 as u64);
        proof {
            assert(out@ =~= mid + piece);
        }
        i = i + 1;
    }
    proof {
        assert(s@.subrange(0, s@.len() as int) =~= s@);
    }
}

fn push_type_list(out: &mut String, s: &[TypeId])
    ensures
        final(out)@ == old(out)@ + join_with(type_refs(s@), ", "@),
{
    let ghost start = out@;
    let mut i: usize = 0;
    while i < s.len()
        invariant
            i <= s@.len(),
            out@ == start + join_with(type_refs(s@.subrange(0, i as int)), ", "@),
        decreases s.len() - i,
    {
        let ghost piece = type_ref(s@[i as int]);
        proof {
            assert(type_refs(s@.subrange(0, i + 1)) =~= type_refs(s@.subrange(0, i as int)).push(piece));
            lemma_join_push(type_refs(s@.subrange(0, i as int)), ", "@, piece);
        }
        if i > 0 {
            push_str(out, ", ");
        }
        let ghost mid = out@;
        push_str(out, "t");
        push_decimal(out, s[i].0 as u64);
        proof {
            assert(out@ =~= mid + piece);
        }
        i = i + 1;
    }
    proof {
        assert(s@.subrange(0, s@.len() as int) =~= s@);
    }
}

/// An instruction as listed: `s<d> = const c<n>`, `[s<d> = ]call f<n>(<args>)`, or the
/// destination, the operation name and the slots it reads.
pub open spec fn instruction_text(k: InstructionKind) -> Seq<char> {
    match k {
        InstructionKind::Const { dst, constant } => slot_ref(dst) + " = const c"@ + decimal(constant.0 as nat),
        InstructionKind::CallDirect { dst, function, args } => match dst {
            Some(d) => slot_ref(d) + " = call f"@ + decimal(function.0 as nat) + "("@ + join_with(slot_refs(args@), ", "@) + ")"@,
            None => "call f"@ + decimal(function.0 as nat) + "("@ + join_with(slot_refs(args@), ", "@) + ")"@,
        },
        _ => {
            let reads = k.spec_read_slots();
            (match k.spec_destination() {
                Some(d) => slot_ref(d) + " = "@,
                None => Seq::empty(),
            }) + op_name(k) + (if reads.len() > 0 { " "@ + join_with(slot_refs(reads), ", "@) } else { Seq::empty() })
        },
    }
}

fn instruction_name(k: &InstructionKind) -> (r: String)
    ensures
        r@ == instruction_text(*k),
{
    let mut out = String::new();
    match k {
        InstructionKind::Const { dst, constant } => {
            push_str(&mut out, "s");
            push_decimal(&mut out, dst.0 as u64);
            push_str(&mut out, " = const c");
            push_decimal(&mut out, constant.0 as u64);
        },
        InstructionKind::CallDirect { dst, function, args } => {
            match dst {
                Some(d) => {
                    push_str(&mut out, "s");
                    push_decimal(&mut out, d.0 as u64);
                    push_str(&mut out, " = call f");
                },
                None => {
                    push_str(&mut out, "call f");
                },
            }
            push_decimal(&mut out, function.0 as u64);
            push_str(&mut out, "(");
            push_slot_list(&mut out, args);
            push_str(&mut out, ")");
        },
        _ => {
            match k.destination() {
                Some(d) => {
                    push_str(&mut out, "s");
                    push_decimal(&mut out, d.0 as u64);
                    push_str(&mut out, " = ");
                },
                None => {},
            }
            push_str(&mut out, op_name_exec(k));
            let reads = k.read_slots();
            if reads.len() > 0 {
                push_str(&mut out, " ");
                push_slot_list(&mut out, &reads);
            }
        },
    }
    proof {
        assert(out@ =~= instruction_text(*k));
    }
    out
}

/// A block terminator as listed.
pub open spec fn terminator_text(t: TerminatorKind) -> Seq<char> {
    match t {
        TerminatorKind::Jump(b) => "jump b"@ + decimal(b.0 as nat),
        TerminatorKind::Branch { condition, then_block, else_block } => "branch "@ + slot_ref(condition)
            + ", b"@ + decimal(then_block.0 as nat) + ", b"@ + decimal(else_block.0 as nat),
        TerminatorKind::Return(Some(v)) => "return "@ + slot_ref(v),
        TerminatorKind::Return(None) => "return"@,
        TerminatorKind::Throw(v) => "throw "@ + slot_ref(v),
        TerminatorKind::Unreachable => "unreachable"@,
    }
}

fn terminator_name(t: &TerminatorKind) -> (r: String)
    ensures
        r@ == terminator_text(*t),
{
    let mut out = String::new();
    match t {
        TerminatorKind::Jump(b) => {
            push_str(&mut out, "jump b");
            push_decimal(&mut out, b.0 as u64);
        },
        TerminatorKind::Branch { condition, then_block, else_block } => {
            push_str(&mut out, "branch ");
            push_str(&mut out, "s");
            push_decimal(&mut out, condition.0 as u64);
            push_str(&mut out, ", b");
            push_decimal(&mut out, then_block.0 as u64);
            push_str(&mut out, ", b");
            push_decimal(&mut out, else_block.0 as u64);
        },
        TerminatorKind::Return(Some(v)) => {
            push_str(&mut out, "return ");
            push_str(&mut out, "s");
            push_decimal(&mut out, v.0 as u64);
        },
        TerminatorKind::Return(None) => {
            push_str(&mut out, "return");
        },
        TerminatorKind::Throw(v) => {
            push_str(&mut out, "throw ");
            push_str(&mut out, "s");
            push_decimal(&mut out, v.0 as u64);
        },
        TerminatorKind::Unreachable => {
            push_str(&mut out, "unreachable");
        },
    }
    proof {
        assert(out@ =~= terminator_text(*t));
    }
    out
}

/// A semantic type as listed.
pub open spec fn type_text(t: SemTypeModel) -> Seq<char> {
    match t {
        SemTypeModel::Unknown => "unknown"@,
        SemTypeModel::Void => "void"@,
        SemTypeModel::Bool => "bool"@,
        SemTypeModel::Num => "num"@,
        SemTypeModel::Str => "str"@,
        SemTypeModel::Bytes => "bytes"@,
        SemTypeModel::Range => "range"@,
        SemTypeModel::Address(inner) => "address "@ + type_ref(inner),
        SemTypeModel::Pipe(inner) => "pipe "@ + type_ref(inner),
        SemTypeModel::List(inner) => "list "@ + type_ref(inner),
        SemTypeModel::MapOf(k, v) => "map "@ + type_ref(k) + " "@ + type_ref(v),
        SemTypeModel::Function { params, return_type } => "fn("@ + join_with(type_refs(params), ", "@) + ") -> "@ + type_ref(return_type),
        SemTypeModel::Struct(id) => "struct "@ + decimal(id.0 as nat),
        SemTypeModel::Handle(id) => "handle "@ + decimal(id.0 as nat),
        SemTypeModel::Error(id) => "error "@ + decimal(id.0 as nat),
    }
}

fn sem_type_name(t: &SemType) -> (r: String)
    ensures
        r@ == type_text(t@),
{
    let mut out = String::new();
    match t {
        SemType::Unknown => push_str(&mut out, "unknown"),
        SemType::Void => push_str(&mut out, "void"),
        SemType::Bool => push_str(&mut out, "bool"),
        SemType::Num => push_str(&mut out, "num"),
        SemType::Str => push_str(&mut out, "str"),
        SemType::Bytes => push_str(&mut out, "bytes"),
        SemType::Range => push_str(&mut out, "range"),
        SemType::Address(inner) => {
            push_str(&mut out, "address ");
            push_str(&mut out, "t");
            push_decimal(&mut out, inner.0 as u64);
        },
        SemType::Pipe(inner) => {
            push_str(&mut out, "pipe ");
            push_str(&mut out, "t");
            push_decimal(&mut out, inner.0 as u64);
        },
        SemType::List(inner) => {
            push_str(&mut out, "list ");
            push_str(&mut out, "t");
            push_decimal(&mut out, inner.0 as u64);
        },
        SemType::MapOf(k, v) => {
            push_str(&mut out, "map ");
            push_str(&mut out, "t");
            push_decimal(&mut out, k.0 as u64);
            push_str(&mut out, " ");
            push_str(&mut out, "t");
            push_decimal(&mut out, v.0 as u64);
        },
        SemType::Function { params, return_type } => {
            push_str(&mut out, "fn(");
            push_type_list(&mut out, params.as_slice());
            push_str(&mut out, ") -> ");
            push_str(&mut out, "t");
            push_decimal(&mut out, return_type.0 as u64);
        },
        SemType::Struct(id) => {
            push_str(&mut out, "struct ");
            push_decimal(&mut out, id.0 as u64);
        },
        SemType::Handle(id) => {
            push_str(&mut out, "handle ");
            push_decimal(&mut out, id.0 as u64);
        },
        SemType::Error(id) => {
            push_str(&mut out, "error ");
            push_decimal(&mut out, id.0 as u64);
        },
    }
    proof {
        assert(out@ =~= type_text(t@));
    }
    out
}

/// A constant as listed: booleans as written, numbers as displayed, strings quoted.
pub open spec fn constant_text(c: Constant) -> Seq<char> {
    match c {
        Constant::Bool(b) => if b { "true"@ } else { "false"@ },
        Constant::Num(_, shown) => shown@,
        Constant::Str(s) => debug_text(s@),
    }
}

fn constant_name(c: &Constant) -> (r: String)
    ensures
        r@ == constant_text(*c),
{
    match c {
        Constant::Bool(b) => if *b { String::from_str("true") } else { String::from_str("false") },
        Constant::Num(_, shown) => shown.clone(),
        Constant::Str(s) => debug_quoted(s.as_str()),
    }
}

/// `@<source>:<start>..<end>`
pub open spec fn anchor_text(a: SourceAnchor) -> Seq<char> {
    "@"@ + decimal(a.source.0 as nat) + ":"@ + decimal(a.start as nat) + ".."@ + decimal(a.end as nat)
}

fn push_anchor(out: &mut String, a: SourceAnchor)
    ensures
        final(out)@ == old(out)@ + anchor_text(a),
{
    push_str(out, "@");
    push_decimal(out, a.source.0 as u64);
    push_str(out, ":");
    push_decimal(out, a.start as u64);
    push_str(out, "..");
    push_decimal(out, a.end as u64);
    proof {
        assert(out@ =~= old(out)@ + anchor_text(a));
    }
}

/// `  t<i> = <type>` for each type of the table.
pub open spec fn type_lines(p: EirProgram) -> Seq<Seq<char>> {
    Seq::new(p.types@.len(), |i: int| "  t"@ + decimal(i as nat) + " = "@ + type_text(p.types@[i]) + "\n"@)
}

/// `  c<i>:t<type> = <value>` for each constant.
pub open spec fn constant_lines(p: EirProgram) -> Seq<Seq<char>> {
    Seq::new(p.constants@.len(), |i: int| "  c"@ + decimal(i as nat) + ":t"@ + decimal(spec_constant_ty(p.constants@[i]).0 as nat)
        + " = "@ + constant_text(p.constants@[i]) + "\n"@)
}

/// Each instruction of a block with its source anchor, then the terminator with its anchor.
pub open spec fn block_listing(b: super::BasicBlock, index: int) -> Seq<char> {
    "  b"@ + decimal(index as nat) + ":\n"@
        + join_with(Seq::new(b.instructions@.len(), |j: int| "    "@ + instruction_text(b.instructions@[j].kind) + " "@
            + anchor_text(b.instructions@[j].anchor) + "\n"@), Seq::empty())
        + "    "@ + terminator_text(b.terminator.kind) + " "@ + anchor_text(b.terminator.anchor) + "\n"@
}

pub open spec fn slot_decls(slots: Seq<TypeId>) -> Seq<Seq<char>> {
    Seq::new(slots.len(), |i: int| "s"@ + decimal(i as nat) + ":t"@ + decimal(slots[i].0 as nat))
}

/// A function's first line: its number, name, signature and effects.
pub open spec fn function_header(f: super::EirFunction) -> Seq<char> {
    "fn f"@ + decimal(f.id.0 as nat) + " "@ + f.name@ + "("@ + join_with(type_refs(f.signature.params@), ", "@) + ") -> t"@
        + decimal(f.signature.return_type.0 as nat) + " effects="@ + effects_text(f.signature.effects) + " {\n"@
}

/// A function's header, slots and blocks.
pub open spec fn function_listing(f: super::EirFunction) -> Seq<char> {
    function_header(f)
        + "  slots: "@ + join_with(slot_decls(f.slots@), ", "@) + "\n"@
        + join_with(Seq::new(f.blocks@.len(), |b: int| block_listing(f.blocks@[b], b)), Seq::empty())
        + "}\n"@
}

pub open spec fn initializer_refs(ids: Seq<crate::hir::FunctionId>) -> Seq<Seq<char>> {
    Seq::new(ids.len(), |i: int| "f"@ + decimal(ids[i].0 as nat))
}

/// The listing of a program: its types, constants, functions and module initializers.
pub open spec fn program_listing(p: EirProgram) -> Seq<char> {
    "types:\n"@ + join_with(type_lines(p), Seq::empty())
        + "constants:\n"@ + join_with(constant_lines(p), Seq::empty())
        + "functions:\n"@ + join_with(Seq::new(p.functions@.len(), |i: int| function_listing(p.functions@[i])), Seq::empty())
        + "module_initializers:"@
        + (if p.module_initializers@.len() == 0 { "\n"@ } else { " "@ + join_with(initializer_refs(p.module_initializers@), ", "@) + "\n"@ })
}

fn push_block(out: &mut String, b: &super::BasicBlock, index: usize)
    ensures
        final(out)@ == old(out)@ + block_listing(*b, index as int),
{
    push_str(out, "  b");
    push_decimal(out, index as u64);
    push_str(out, ":\n");
    let ghost lines = Seq::new(b.instructions@.len(), |j: int| "    "@ + instruction_text(b.instructions@[j].kind) + " "@
        + anchor_text(b.instructions@[j].anchor) + "\n"@);
    let ghost start = out@;
    let mut j: usize = 0;
    while j < b.instructions.len()
        invariant
            j <= b.instructions@.len(),
            lines == Seq::new(b.instructions@.len(), |j: int| "    "@ + instruction_text(b.instructions@[j].kind) + " "@
                + anchor_text(b.instructions@[j].anchor) + "\n"@),
            out@ == start + join_with(lines.subrange(0, j as int), Seq::empty()),
        decreases b.instructions.len() - j,
    {
        proof {
            assert(lines.subrange(0, j + 1) =~= lines.subrange(0, j as int).push(lines[j as int]));
            lemma_join_push(lines.subrange(0, j as int), Seq::empty(), lines[j as int]);
        }
        let ghost mid = out@;
        push_str(out, "    ");
        let name = instruction_name(&b.instructions[j].kind);
        push_str(out, name.as_str());
        push_str(out, " ");
        push_anchor(out, b.instructions[j].anchor);
        push_str(out, "\n");
        proof {
            assert(out@ =~= mid + lines[j as int]);
            if j > 0 {
                assert(out@ =~= start + join_with(lines.subrange(0, j as int), Seq::empty()) + Seq::empty() + lines[j as int]);
            }
        }
        j = j + 1;
    }
    proof {
        assert(lines.subrange(0, lines.len() as int) =~= lines);
    }
    push_str(out, "    ");
    let term = terminator_name(&b.terminator.kind);
    push_str(out, term.as_str());
    push_str(out, " ");
    push_anchor(out, b.terminator.anchor);
    push_str(out, "\n");
    proof {
        assert(out@ =~= old(out)@ + block_listing(*b, index as int));
    }
}

fn push_slot_decls(out: &mut String, f: &super::EirFunction)
    ensures
        final(out)@ == old(out)@ + join_with(slot_decls(f.slots@), ", "@),
{
    let ghost decls = slot_decls(f.slots@);
    let ghost start = out@;
    let mut i: usize = 0;
    while i < f.slots.len()
        invariant
            i <= f.slots@.len(),
            decls == slot_decls(f.slots@),
            out@ == start + join_with(decls.subrange(0, i as int), ", "@),
        decreases f.slots.len() - i,
    {
        proof {
            assert(decls.subrange(0, i + 1) =~= decls.subrange(0, i as int).push(decls[i as int]));
            lemma_join_push(decls.subrange(0, i as int), ", "@, decls[i as int]);
        }
        if i > 0 {
            push_str(out, ", ");
        }
        let ghost mid = out@;
        push_str(out, "s");
        push_decimal(out, i as u64);
        push_str(out, ":t");
        push_decimal(out, f.slots[i].0 as u64);
        proof {
            assert(out@ =~= mid + decls[i as int]);
        }
        i = i + 1;
    }
    proof {
        assert(decls.subrange(0, decls.len() as int) =~= decls);
    }
}

fn push_blocks(out: &mut String, f: &super::EirFunction)
    ensures
        final(out)@ == old(out)@ + join_with(Seq::new(f.blocks@.len(), |b: int| block_listing(f.blocks@[b], b)), Seq::empty()),
{
    let ghost blocks = Seq::new(f.blocks@.len(), |b: int| block_listing(f.blocks@[b], b));
    let ghost bstart = out@;
    let mut b: usize = 0;
    while b < f.blocks.len()
        invariant
            b <= f.blocks@.len(),
            blocks == Seq::new(f.blocks@.len(), |b: int| block_listing(f.blocks@[b], b)),
            out@ == bstart + join_with(blocks.subrange(0, b as int), Seq::empty()),
        decreases f.blocks.len() - b,
    {
        proof {
            assert(blocks.subrange(0, b + 1) =~= blocks.subrange(0, b as int).push(blocks[b as int]));
            lemma_join_push(blocks.subrange(0, b as int), Seq::empty(), blocks[b as int]);
        }
        let ghost mid = out@;
        push_block(out, &f.blocks[b], b);
        proof {
            if b > 0 {
                assert(out@ =~= bstart + join_with(blocks.subrange(0, b as int), Seq::empty()) + Seq::empty() + blocks[b as int]);
            }
        }
        b = b + 1;
    }
    proof {
        assert(blocks.subrange(0, blocks.len() as int) =~= blocks);
    }
}

fn push_function_header(out: &mut String, f: &super::EirFunction)
    ensures
        final(out)@ == old(out)@ + function_header(*f),
{
    push_str(out, "fn f");
    push_decimal(out, f.id.0 as u64);
    push_str(out, " ");
    push_str(out, f.name.as_str());
    push_str(out, "(");
    push_type_list(out, f.signature.params());
    push_str(out, ") -> t");
    push_decimal(out, f.signature.return_type().0 as u64);
    push_str(out, " effects=");
    let effects = f.signature.effects().describe();
    push_str(out, effects.as_str());
    push_str(out, " {\n");
    proof {
        assert(out@ =~= old(out)@ + function_header(*f));
    }
}

fn push_function(out: &mut String, f: &super::EirFunction)
    ensures
        final(out)@ == old(out)@ + function_listing(*f),
{
    push_function_header(out, f);
    let ghost header = out@;
    push_str(out, "  slots: ");
    push_slot_decls(out, f);
    push_str(out, "\n");
    let ghost slots = out@;
    push_blocks(out, f);
    push_str(out, "}\n");
    proof {
        assert(out@ =~= old(out)@ + function_listing(*f));
    }
}

fn push_types(out: &mut String, program: &EirProgram)
    requires
        program.types@.len() <= u32::MAX,
    ensures
        final(out)@ == old(out)@ + join_with(type_lines(*program), Seq::empty()),
{
    let ghost lines = type_lines(*program);
    let ghost start = out@;
    let n = program.types.len();
    let mut i: usize = 0;
    while i < n
        invariant
            n == program.types@.len() <= u32::MAX,
            i <= n,
            lines == type_lines(*program),
            out@ == start + join_with(lines.subrange(0, i as int), Seq::empty()),
        decreases n - i,
    {
        proof {
            assert(lines.subrange(0, i + 1) =~= lines.subrange(0, i as int).push(lines[i as int]));
            lemma_join_push(lines.subrange(0, i as int), Seq::empty(), lines[i as int]);
        }
        let ghost mid = out@;
        match program.types.get(TypeId(i as u32)) {
            Some(ty) => {
                push_str(out, "  t");
                push_decimal(out, i as u64);
                push_str(out, " = ");
                let name = sem_type_name(ty);
                push_str(out, name.as_str());
                push_str(out, "\n");
            },
            None => {
                proof {
                    assert(false);
                }
            },
        }
        proof {
            assert(out@ =~= mid + lines[i as int]);
            if i > 0 {
                assert(out@ =~= start + join_with(lines.subrange(0, i as int), Seq::empty()) + Seq::empty() + lines[i as int]);
            }
        }
        i = i + 1;
    }
    proof {
        assert(lines.subrange(0, lines.len() as int) =~= lines);
    }
}

fn push_constants(out: &mut String, program: &EirProgram)
    ensures
        final(out)@ == old(out)@ + join_with(constant_lines(*program), Seq::empty()),
{
    let ghost lines = constant_lines(*program);
    let ghost start = out@;
    let mut i: usize = 0;
    while i < program.constants.len()
        invariant
            i <= program.constants@.len(),
            lines == constant_lines(*program),
            out@ == start + join_with(lines.subrange(0, i as int), Seq::empty()),
        decreases program.constants.len() - i,
    {
        proof {
            assert(lines.subrange(0, i + 1) =~= lines.subrange(0, i as int).push(lines[i as int]));
            lemma_join_push(lines.subrange(0, i as int), Seq::empty(), lines[i as int]);
        }
        let ghost mid = out@;
        let c = &program.constants[i];
        push_str(out, "  c");
        push_decimal(out, i as u64);
        push_str(out, ":t");
        push_decimal(out, c.ty().0 as u64);
        push_str(out, " = ");
        let name = constant_name(c);
        push_str(out, name.as_str());
        push_str(out, "\n");
        proof {
            assert(out@ =~= mid + lines[i as int]);
            if i > 0 {
                assert(out@ =~= start + join_with(lines.subrange(0, i as int), Seq::empty()) + Seq::empty() + lines[i as int]);
            }
        }
        i = i + 1;
    }
    proof {
        assert(lines.subrange(0, lines.len() as int) =~= lines);
    }
}

fn push_functions(output: &mut String, program: &EirProgram)
    ensures
        final(output)@ == old(output)@ + join_with(Seq::new(program.functions@.len(), |i: int| function_listing(program.functions@[i])), Seq::empty()),
{
    let ghost fns = Seq::new(program.functions@.len(), |i: int| function_listing(program.functions@[i]));
    let ghost start = output@;
    let mut f: usize = 0;
    while f < program.functions.len()
        invariant
            f <= program.functions@.len(),
            fns == Seq::new(program.functions@.len(), |i: int| function_listing(program.functions@[i])),
            output@ == start + join_with(fns.subrange(0, f as int), Seq::empty()),
        decreases program.functions.len() - f,
    {
        proof {
            assert(fns.subrange(0, f + 1) =~= fns.subrange(0, f as int).push(fns[f as int]));
            lemma_join_push(fns.subrange(0, f as int), Seq::empty(), fns[f as int]);
        }
        let ghost mid = output@;
        push_function(output, &program.functions[f]);
        proof {
            if f > 0 {
                assert(output@ =~= start + join_with(fns.subrange(0, f as int), Seq::empty()) + Seq::empty() + fns[f as int]);
            }
        }
        f = f + 1;
    }
    proof {
        assert(fns.subrange(0, fns.len() as int) =~= fns);
    }
}

fn push_initializers(output: &mut String, program: &EirProgram)
    ensures
        final(output)@ == old(output)@ + join_with(initializer_refs(program.module_initializers@), ", "@),
{
    let ghost refs = initializer_refs(program.module_initializers@);
    let ghost istart = output@;
    let mut i: usize = 0;
    while i < program.module_initializers.len()
        invariant
            i <= program.module_initializers@.len(),
            refs == initializer_refs(program.module_initializers@),
            output@ == istart + join_with(refs.subrange(0, i as int), ", "@),
        decreases program.module_initializers.len() - i,
    {
        proof {
            assert(refs.subrange(0, i + 1) =~= refs.subrange(0, i as int).push(refs[i as int]));
            lemma_join_push(refs.subrange(0, i as int), ", "@, refs[i as int]);
        }
        if i > 0 {
            push_str(output, ", ");
        }
        let ghost mid = output@;
        push_str(output, "f");
        push_decimal(output, program.module_initializers[i].0 as u64);
        proof {
            assert(output@ =~= mid + refs[i as int]);
        }
        i = i + 1;
    }
    proof {
        assert(refs.subrange(0, refs.len() as int) =~= refs);
    }
}

/// Lists a program: its types, its constants, each function with its slots and blocks
/// (every instruction and terminator with its source anchor), then the module initializers.
pub fn print_program(program: &EirProgram) -> (r: String)
    requires
        program.types@.len() <= u32::MAX,
    ensures
        r@ == program_listing(*program),
{
    let mut output = String::new();
    push_str(&mut output, "types:\n");
    push_types(&mut output, program);
    let ghost a = output@;
    push_str(&mut output, "constants:\n");
    push_constants(&mut output, program);
    let ghost b = output@;
    push_str(&mut output, "functions:\n");
    push_functions(&mut output, program);
    let ghost c = output@;
    push_str(&mut output, "module_initializers:");
    if program.module_initializers.len() == 0 {
        push_str(&mut output, "\n");
    } else {
        push_str(&mut output, " ");
        push_initializers(&mut output, program);
        push_str(&mut output, "\n");
    }
    proof {
        assert(output@ =~= program_listing(*program));
    }
    output
}

} // verus!
