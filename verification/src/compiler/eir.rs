//! The Rust backend: turns a verified EIR program into the text of a Rust program.
//!
//! Each instruction becomes one line of an async state machine over numbered slots;
//! each block becomes one arm of a `match` on the current block number.
use vstd::prelude::*;

use crate::eir::{
    BlockId, ConstId, Constant, EirFunction, EirHostFunction, EirProgram, GlobalId, InstructionKind,
    SlotId, TerminatorKind,
};
use crate::hir::{ErrorId, FieldId, FunctionId, HostFunctionId, SemTypeModel, StructId, TypeId};
use crate::text::{
    debug_quoted, debug_text, decimal, join_with, last_segment, last_segment_exec, lemma_join_push, push_decimal,
    push_str,
};

verus! {

/// The Rust backend cannot express an operation.
#[derive(Debug, Clone, Copy)]
pub struct EirCodegenError {
    pub operation: &'static str,
}

impl EirCodegenError {
    /// `EIR Rust backend does not support <operation>`
    pub fn message(&self) -> (s: String)
        ensures
            s@ == "EIR Rust backend does not support "@ + self.operation@,
    {
        let mut s = String::from_str("EIR Rust backend does not support ");
        push_str(&mut s, self.operation);
        s
    }
}

/// Reading a slot that the verifier proved initialized.
pub open spec fn slot_text(s: SlotId) -> Seq<char> {
    "__slots["@ + decimal(s.0 as nat) + "].as_ref().expect(\"verified initialized slot\")"@
}

/// A clone of a slot's value.
pub open spec fn clone_text(s: SlotId) -> Seq<char> {
    slot_text(s) + ".clone()"@
}

/// Moving a slot's value out.
pub open spec fn take_text(s: SlotId) -> Seq<char> {
    "__slots["@ + decimal(s.0 as nat) + "].take().expect(\"verified initialized slot\")"@
}

/// Storing a value into a slot.
pub open spec fn assign_text(dst: SlotId, value: Seq<char>) -> Seq<char> {
    "__slots["@ + decimal(dst.0 as nat) + "] = Some("@ + value + ");"@
}

/// The clones of each slot of a list.
pub open spec fn clone_texts(s: Seq<SlotId>) -> Seq<Seq<char>> {
    Seq::new(s.len(), |i: int| clone_text(s[i]))
}

/// The numbers of each field of a list.
pub open spec fn field_texts(s: Seq<FieldId>) -> Seq<Seq<char>> {
    Seq::new(s.len(), |i: int| decimal(s[i].0 as nat))
}

fn push_slot(v: &mut String, s: SlotId)
    ensures
        final(v)@ == old(v)@ + slot_text(s),
{
    push_str(v, "__slots[");
    push_decimal(v, s.0 as u64);
    push_str(v, "].as_ref().expect(\"verified initialized slot\")");
    proof {
        assert(v@ =~= old(v)@ + slot_text(s));
    }
}

fn push_clone(v: &mut String, s: SlotId)
    ensures
        final(v)@ == old(v)@ + clone_text(s),
{
    push_slot(v, s);
    push_str(v, ".clone()");
    proof {
        assert(v@ =~= old(v)@ + clone_text(s));
    }
}

fn push_take(v: &mut String, s: SlotId)
    ensures
        final(v)@ == old(v)@ + take_text(s),
{
    push_str(v, "__slots[");
    push_decimal(v, s.0 as u64);
    push_str(v, "].take().expect(\"verified initialized slot\")");
    proof {
        assert(v@ =~= old(v)@ + take_text(s));
    }
}

fn assign(dst: SlotId, value: &str) -> (r: String)
    ensures
        r@ == assign_text(dst, value@),
{
    let mut r = String::from_str("__slots[");
    push_decimal(&mut r, dst.0 as u64);
    push_str(&mut r, "] = Some(");
    push_str(&mut r, value);
    push_str(&mut r, ");");
    proof {
        assert(r@ =~= assign_text(dst, value@));
    }
    r
}

/// Appends the clones of a list of slots, separated by `, `.
fn push_clones(v: &mut String, items: &Vec<SlotId>)
    ensures
        final(v)@ == old(v)@ + join_with(clone_texts(items@), ", "@),
{
    let mut i: usize = 0;
    while i < items.len()
        invariant
            i <= items@.len(),
            v@ == old(v)@ + join_with(clone_texts(items@.subrange(0, i as int)), ", "@),
        decreases items.len() - i,
    {
        proof {
            assert(clone_texts(items@.subrange(0, i + 1)) =~= clone_texts(items@.subrange(0, i as int)).push(clone_text(items@[i as int])));
            lemma_join_push(clone_texts(items@.subrange(0, i as int)), ", "@, clone_text(items@[i as int]));
        }
        if i > 0 {
            push_str(v, ", ");
        }
        push_clone(v, items[i]);
        i = i + 1;
    }
    proof {
        assert(items@.subrange(0, items@.len() as int) =~= items@);
    }
}

/// Appends the numbers of a list of fields, separated by `, `.
fn push_field_list(v: &mut String, fields: &Vec<FieldId>)
    ensures
        final(v)@ == old(v)@ + join_with(field_texts(fields@), ", "@),
{
    let mut i: usize = 0;
    while i < fields.len()
        invariant
            i <= fields@.len(),
            v@ == old(v)@ + join_with(field_texts(fields@.subrange(0, i as int)), ", "@),
        decreases fields.len() - i,
    {
        proof {
            assert(field_texts(fields@.subrange(0, i + 1)) =~= field_texts(fields@.subrange(0, i as int)).push(decimal(fields@[i as int].0 as nat)));
            lemma_join_push(field_texts(fields@.subrange(0, i as int)), ", "@, decimal(fields@[i as int].0 as nat));
        }
        if i > 0 {
            push_str(v, ", ");
        }
        push_decimal(v, fields[i].0 as u64);
        i = i + 1;
    }
    proof {
        assert(fields@.subrange(0, fields@.len() as int) =~= fields@);
    }
}


/// Whether a module is the standard console module.
pub open spec fn is_std_io_module(name: Seq<char>) -> bool {
    name == "io"@
}

/// The console functions whose call prints its argument directly.
pub open spec fn is_std_io_display(name: Seq<char>) -> bool {
    name == "print"@ || name == "write"@ || name == "eprint"@ || name == "eprintline"@
}

/// The printing macro that a console function stands for.
pub open spec fn display_macro(name: Seq<char>) -> Seq<char> {
    if name == "print"@ {
        "println"@
    } else if name == "write"@ {
        "print"@
    } else if name == "eprint"@ {
        "eprint"@
    } else {
        "eprintln"@
    }
}

/// The conversion of each host parameter.
pub open spec fn host_arg_texts(params: Seq<TypeId>) -> Seq<Seq<char>> {
    Seq::new(params.len(), |i: int| "__kiro_to_host_t"@ + decimal(params[i].0 as nat) + "(&__host_args["@ + decimal(i as nat) + "])"@)
}

/// The expression that calls a host function on the argument vector `args`.
pub open spec fn host_call_text(f: EirHostFunction, args: Seq<char>) -> Seq<char> {
    if is_std_io_module(f.module@) && is_std_io_display(f.name@) {
        "{ let __display_args = "@ + args + "; "@ + display_macro(f.name@)
            + "!(\"{}\", __kiro_display(&__display_args[0])); __KiroValue::Void }"@
    } else {
        let await_suffix = if f.signature.effects.0 & 1u8 == 1u8 { Seq::<char>::empty() } else { ".await"@ };
        let error = if f.signature.effects.0 & 2u8 == 2u8 {
            "__kiro_from_host_error(error)"@
        } else {
            "kiro_runtime_error(\"KIRO3007\", &format!(\"Host function '"@ + f.name@ + "' failed: {error}.\"))"@
        };
        "{ let __host_args: Vec<__KiroValue> = "@ + args + "; match header::"@ + f.name@ + "(vec!["@
            + join_with(host_arg_texts(f.signature.params@), ", "@) + "])"@ + await_suffix
            + " { Ok(value) => __kiro_from_host_t"@ + decimal(f.signature.return_type.0 as nat)
            + "(value), Err(error) => "@ + error + " } }"@
    }
}

fn host_call_expression(function: &EirHostFunction, args: &str) -> (r: String)
    ensures
        r@ == host_call_text(*function, args@),
{
    let is_io = crate::text::str_eq(function.module.as_str(), "io");
    let name = function.name.as_str();
    if is_io && (crate::text::str_eq(name, "print") || crate::text::str_eq(name, "write")
        || crate::text::str_eq(name, "eprint") || crate::text::str_eq(name, "eprintline")) {
        let macro_name = if crate::text::str_eq(name, "print") {
            "println"
        } else if crate::text::str_eq(name, "write") {
            "print"
        } else if crate::text::str_eq(name, "eprint") {
            "eprint"
        } else {
            "eprintln"
        };
        let mut r = String::from_str("{ let __display_args = ");
        push_str(&mut r, args);
        push_str(&mut r, "; ");
        push_str(&mut r, macro_name);
        push_str(&mut r, "!(\"{}\", __kiro_display(&__display_args[0])); __KiroValue::Void }");
        proof {
            assert(r@ =~= host_call_text(*function, args@));
        }
        return r;
    }
    let effects = function.signature.effects;
    let pure = effects.contains(crate::hir::Effects::pure());
    let may_fail = effects.contains(crate::hir::Effects::may_fail());
    let mut r = String::from_str("{ let __host_args: Vec<__KiroValue> = ");
    push_str(&mut r, args);
    push_str(&mut r, "; match header::");
    push_str(&mut r, name);
    push_str(&mut r, "(vec![");
    let ghost before_args = r@;
    let params = &function.signature.params;
    let mut i: usize = 0;
    while i < params.len()
        invariant
            i <= params@.len(),
            r@ == before_args + join_with(host_arg_texts(params@.subrange(0, i as int)), ", "@),
        decreases params.len() - i,
    {
        let ghost piece = "__kiro_to_host_t"@ + decimal(params@[i as int].0 as nat) + "(&__host_args["@ + decimal(i as nat) + "])"@;
        proof {
            assert(host_arg_texts(params@.subrange(0, i + 1)) =~= host_arg_texts(params@.subrange(0, i as int)).push(piece));
            lemma_join_push(host_arg_texts(params@.subrange(0, i as int)), ", "@, piece);
        }
        if i > 0 {
            push_str(&mut r, ", ");
        }
        let ghost mid = r@;
        push_str(&mut r, "__kiro_to_host_t");
        push_decimal(&mut r, params[i].0 as u64);
        push_str(&mut r, "(&__host_args[");
        push_decimal(&mut r, i as u64);
        push_str(&mut r, "])");
        proof {
            assert(r@ =~= mid + piece);
        }
        i = i + 1;
    }
    proof {
        assert(params@.subrange(0, params@.len() as int) =~= params@);
    }
    push_str(&mut r, "])");
    if !pure {
        push_str(&mut r, ".await");
    }
    push_str(&mut r, " { Ok(value) => __kiro_from_host_t");
    push_decimal(&mut r, function.signature.return_type.0 as u64);
    push_str(&mut r, "(value), Err(error) => ");
    if may_fail {
        push_str(&mut r, "__kiro_from_host_error(error)");
    } else {
        push_str(&mut r, "kiro_runtime_error(\"KIRO3007\", &format!(\"Host function '");
        push_str(&mut r, name);
        push_str(&mut r, "' failed: {error}.\"))");
    }
    push_str(&mut r, " } }");
    proof {
        assert(r@ =~= host_call_text(*function, args@));
    }
    r
}

/// The value of a constant as a Rust expression.
pub open spec fn const_value_text(c: Constant) -> Seq<char> {
    match c {
        Constant::Bool(b) => "__KiroValue::Bool("@ + (if b { "true"@ } else { "false"@ }) + ")"@,
        Constant::Num(t, _) => "__KiroValue::Num("@ + t@ + ")"@,
        Constant::Str(s) => "__KiroValue::Str("@ + debug_text(s@) + ".to_string())"@,
    }
}

/// The message of a `check`: its string constant, or `check failed`.
pub open spec fn check_message(p: EirProgram, message: Option<ConstId>) -> Seq<char> {
    match message {
        Some(id) => if (id.0 as int) < p.constants@.len() && p.constants@[id.0 as int] is Str {
            p.constants@[id.0 as int]->Str_0@
        } else {
            "check failed"@
        },
        None => "check failed"@,
    }
}

pub open spec fn map_entry_texts(entries: Seq<(SlotId, SlotId)>) -> Seq<Seq<char>> {
    Seq::new(entries.len(), |i: int| "__values.insert(__kiro_map_key(&"@ + slot_text(entries[i].0) + "), "@ + clone_text(entries[i].1) + ");"@)
}

pub open spec fn struct_field_texts(fields: Seq<(FieldId, SlotId)>) -> Seq<Seq<char>> {
    Seq::new(fields.len(), |i: int| "__fields.insert("@ + decimal(fields[i].0.0 as nat) + ", "@ + clone_text(fields[i].1) + ");"@)
}

/// The arm of the indirect-call dispatch for each function of the program.
pub open spec fn kiro_arm_texts(fs: Seq<EirFunction>) -> Seq<Seq<char>> {
    Seq::new(fs.len(), |i: int| decimal(fs[i].id.0 as nat) + " => __kiro_eir_f"@ + decimal(fs[i].id.0 as nat) + "(__call_args, __globals.clone()).await,"@)
}

/// The arm of the indirect-call dispatch for each host function that the program takes as a value.
pub open spec fn host_arm_texts(hs: Seq<EirHostFunction>, indirect: Seq<u32>) -> Seq<Seq<char>>
    decreases hs.len(),
{
    if hs.len() == 0 {
        Seq::empty()
    } else {
        let rest = host_arm_texts(hs.drop_last(), indirect);
        if indirect.contains(hs.last().id.0) {
            rest.push(decimal(hs.last().id.0 as nat) + " => "@ + host_call_text(hs.last(), "__call_args"@) + ","@)
        } else {
            rest
        }
    }
}

/// A call's line: stored into its destination, or evaluated and dropped.
pub open spec fn call_result_text(dst: Option<SlotId>, call: Seq<char>) -> Seq<char> {
    match dst {
        Some(d) => assign_text(d, call),
        None => "let _ = "@ + call + ";"@,
    }
}

/// The channel a pipe of the given capacity is made of; capacity 0 is a rendezvous.
pub open spec fn pipe_channel_text(capacity: Option<usize>) -> Seq<char> {
    match capacity {
        Some(c) => if c == 0 {
            "{ let (sender, receiver) = async_channel::bounded(1); let (__rendezvous_ack_sender, __rendezvous_ack_receiver) = async_channel::bounded(1); __KiroPipe { sender, receiver, rendezvous_ack_sender: Some(__rendezvous_ack_sender), rendezvous_ack_receiver: Some(__rendezvous_ack_receiver) } }"@
        } else {
            "{ let (sender, receiver) = async_channel::bounded("@ + decimal(c as nat) + "); __KiroPipe { sender, receiver, rendezvous_ack_sender: None, rendezvous_ack_receiver: None } }"@
        },
        None => "{ let (sender, receiver) = async_channel::unbounded(); __KiroPipe { sender, receiver, rendezvous_ack_sender: None, rendezvous_ack_receiver: None } }"@,
    }
}

pub open spec fn const_line(p: EirProgram, dst: SlotId, constant: ConstId) -> Seq<char> {
    assign_text(dst, const_value_text(p.constants@[constant.0 as int]))
}

pub open spec fn check_line(p: EirProgram, condition: SlotId, message: Option<ConstId>) -> Seq<char> {
    "if !__kiro_bool(&"@ + slot_text(condition) + ") { kiro_check_failed("@ + debug_text(check_message(p, message)) + "); }"@
}

pub open spec fn make_map_line(dst: SlotId, entries: Seq<(SlotId, SlotId)>) -> Seq<char> {
    assign_text(dst, "{ let mut __values = HashMap::new(); "@ + join_with(map_entry_texts(entries), " "@) + " __KiroValue::Map(__values) }"@)
}

pub open spec fn make_struct_line(dst: SlotId, structure: StructId, fields: Seq<(FieldId, SlotId)>) -> Seq<char> {
    assign_text(dst, "{ let mut __fields = HashMap::new(); "@ + join_with(struct_field_texts(fields), " "@) + " __KiroValue::Struct("@ + decimal(structure.0 as nat) + ", __fields) }"@)
}

pub open spec fn call_direct_line(dst: Option<SlotId>, function: FunctionId, args: Seq<SlotId>) -> Seq<char> {
    call_result_text(dst, "__kiro_eir_f"@ + decimal(function.0 as nat) + "(vec!["@ + join_with(clone_texts(args), ", "@) + "], __globals.clone()).await"@)
}

pub open spec fn call_host_line(p: EirProgram, dst: Option<SlotId>, function: HostFunctionId, args: Seq<SlotId>) -> Seq<char> {
    call_result_text(dst, host_call_text(p.host_functions@[function.0 as int], "vec!["@ + join_with(clone_texts(args), ", "@) + "]"@))
}

pub open spec fn call_indirect_line(p: EirProgram, indirect: Seq<u32>, dst: Option<SlotId>, callee: SlotId, args: Seq<SlotId>) -> Seq<char> {
    call_result_text(dst, "{ let __call_args = "@ + ("vec!["@ + join_with(clone_texts(args), ", "@) + "]"@) + "; match "@ + clone_text(callee)
        + " { __KiroValue::Function { host: false, id } => match id { "@ + join_with(kiro_arm_texts(p.functions@), " "@)
        + " _ => panic!(\"invalid Kiro function id\") }, __KiroValue::Function { host: true, id } => match id { "@
        + join_with(host_arm_texts(p.host_functions@, indirect), " "@)
        + " _ => panic!(\"invalid host function id\") }, other => panic!(\"expected function, got {other:?}\") } }"@)
}

pub open spec fn make_pipe_line(dst: SlotId, capacity: Option<usize>) -> Seq<char> {
    assign_text(dst, "__KiroValue::Pipe("@ + pipe_channel_text(capacity) + ")"@)
}

fn const_line_exec(p: &EirProgram, dst: SlotId, constant: ConstId) -> (r: String)
    requires
        (constant.0 as int) < p.constants@.len(),
    ensures
        r@ == const_line(*p, dst, constant),
{
    let value = match &p.constants[constant.0 as usize] {
        Constant::Bool(b) => {
            let mut v = String::from_str("__KiroValue::Bool(");
            push_str(&mut v, if *b { "true" } else { "false" });
            push_str(&mut v, ")");
            v
        },
        Constant::Num(t, _) => {
            let mut v = String::from_str("__KiroValue::Num(");
            push_str(&mut v, t.as_str());
            push_str(&mut v, ")");
            v
        },
        Constant::Str(s) => {
            let mut v = String::from_str("__KiroValue::Str(");
            let q = debug_quoted(s.as_str());
            push_str(&mut v, q.as_str());
            push_str(&mut v, ".to_string())");
            v
        },
    };
    assign(dst, value.as_str())
}

fn check_line_exec(p: &EirProgram, condition: SlotId, message: Option<ConstId>) -> (r: String)
    ensures
        r@ == check_line(*p, condition, message),
{
    let text: &str = match message {
        Some(id) => {
            let index = id.0 as usize;
            if index < p.constants.len() {
                match &p.constants[index] {
                    Constant::Str(value) => value.as_str(),
                    _ => "check failed",
                }
            } else {
                "check failed"
            }
        },
        None => "check failed",
    };
    let mut r = String::from_str("if !__kiro_bool(&");
    push_slot(&mut r, condition);
    push_str(&mut r, ") { kiro_check_failed(");
    let q = debug_quoted(text);
    push_str(&mut r, q.as_str());
    push_str(&mut r, "); }");
    proof {
        assert(r@ =~= check_line(*p, condition, message));
    }
    r
}

fn make_map_line_exec(dst: SlotId, entries: &Vec<(SlotId, SlotId)>) -> (r: String)
    ensures
        r@ == make_map_line(dst, entries@),
{
    let mut v = String::from_str("{ let mut __values = HashMap::new(); ");
    let ghost start = v@;
    let mut i: usize = 0;
    while i < entries.len()
        invariant
            i <= entries@.len(),
            v@ == start + join_with(map_entry_texts(entries@.subrange(0, i as int)), " "@),
        decreases entries.len() - i,
    {
        let (k, val) = entries[i];
        let ghost piece = "__values.insert(__kiro_map_key(&"@ + slot_text(k) + "), "@ + clone_text(val) + ");"@;
        proof {
            assert(map_entry_texts(entries@.subrange(0, i + 1)) =~= map_entry_texts(entries@.subrange(0, i as int)).push(piece));
            lemma_join_push(map_entry_texts(entries@.subrange(0, i as int)), " "@, piece);
        }
        if i > 0 {
            push_str(&mut v, " ");
        }
        let ghost mid = v@;
        push_str(&mut v, "__values.insert(__kiro_map_key(&");
        push_slot(&mut v, k);
        push_str(&mut v, "), ");
        push_clone(&mut v, val);
        push_str(&mut v, ");");
        proof {
            assert(v@ =~= mid + piece);
        }
        i = i + 1;
    }
    proof {
        assert(entries@.subrange(0, entries@.len() as int) =~= entries@);
    }
    push_str(&mut v, " __KiroValue::Map(__values) }");
    assign(dst, v.as_str())
}

fn make_struct_line_exec(dst: SlotId, structure: StructId, fields: &Vec<(FieldId, SlotId)>) -> (r: String)
    ensures
        r@ == make_struct_line(dst, structure, fields@),
{
    let mut v = String::from_str("{ let mut __fields = HashMap::new(); ");
    let ghost start = v@;
    let mut i: usize = 0;
    while i < fields.len()
        invariant
            i <= fields@.len(),
            v@ == start + join_with(struct_field_texts(fields@.subrange(0, i as int)), " "@),
        decreases fields.len() - i,
    {
        let (f, val) = fields[i];
        let ghost piece = "__fields.insert("@ + decimal(f.0 as nat) + ", "@ + clone_text(val) + ");"@;
        proof {
            assert(struct_field_texts(fields@.subrange(0, i + 1)) =~= struct_field_texts(fields@.subrange(0, i as int)).push(piece));
            lemma_join_push(struct_field_texts(fields@.subrange(0, i as int)), " "@, piece);
        }
        if i > 0 {
            push_str(&mut v, " ");
        }
        let ghost mid = v@;
        push_str(&mut v, "__fields.insert(");
        push_decimal(&mut v, f.0 as u64);
        push_str(&mut v, ", ");
        push_clone(&mut v, val);
        push_str(&mut v, ");");
        proof {
            assert(v@ =~= mid + piece);
        }
        i = i + 1;
    }
    proof {
        assert(fields@.subrange(0, fields@.len() as int) =~= fields@);
    }
    push_str(&mut v, " __KiroValue::Struct(");
    push_decimal(&mut v, structure.0 as u64);
    push_str(&mut v, ", __fields) }");
    assign(dst, v.as_str())
}

fn call_result(dst: Option<SlotId>, call: &str) -> (r: String)
    ensures
        r@ == call_result_text(dst, call@),
{
    match dst {
        Some(d) => assign(d, call),
        None => {
            let mut r = String::from_str("let _ = ");
            push_str(&mut r, call);
            push_str(&mut r, ";");
            r
        },
    }
}

fn call_direct_line_exec(dst: Option<SlotId>, function: FunctionId, args: &Vec<SlotId>) -> (r: String)
    ensures
        r@ == call_direct_line(dst, function, args@),
{
    let mut call = String::from_str("__kiro_eir_f");
    push_decimal(&mut call, function.0 as u64);
    push_str(&mut call, "(vec![");
    push_clones(&mut call, args);
    push_str(&mut call, "], __globals.clone()).await");
    call_result(dst, call.as_str())
}

fn vec_args(args: &Vec<SlotId>) -> (r: String)
    ensures
        r@ == "vec!["@ + join_with(clone_texts(args@), ", "@) + "]"@,
{
    let mut r = String::from_str("vec![");
    push_clones(&mut r, args);
    push_str(&mut r, "]");
    r
}

fn call_host_line_exec(p: &EirProgram, dst: Option<SlotId>, function: HostFunctionId, args: &Vec<SlotId>) -> (r: String)
    requires
        (function.0 as int) < p.host_functions@.len(),
    ensures
        r@ == call_host_line(*p, dst, function, args@),
{
    let values = vec_args(args);
    let call = host_call_expression(&p.host_functions[function.0 as usize], values.as_str());
    call_result(dst, call.as_str())
}

fn contains_u32(v: &Vec<u32>, x: u32) -> (r: bool)
    ensures
        r == v@.contains(x),
{
    let mut i: usize = 0;
    while i < v.len()
        invariant
            i <= v@.len(),
            forall|j: int| 0 <= j < i ==> v@[j] != x,
        decreases v.len() - i,
    {
        if v[i] == x {
            return true;
        }
        i = i + 1;
    }
    false
}

fn call_indirect_line_exec(p: &EirProgram, indirect: &Vec<u32>, dst: Option<SlotId>, callee: SlotId, args: &Vec<SlotId>) -> (r: String)
    ensures
        r@ == call_indirect_line(*p, indirect@, dst, callee, args@),
{
    let values = vec_args(args);
    let mut call = String::from_str("{ let __call_args = ");
    push_str(&mut call, values.as_str());
    push_str(&mut call, "; match ");
    push_clone(&mut call, callee);
    push_str(&mut call, " { __KiroValue::Function { host: false, id } => match id { ");
    let ghost before_kiro = call@;
    let mut i: usize = 0;
    while i < p.functions.len()
        invariant
            i <= p.functions@.len(),
            call@ == before_kiro + join_with(kiro_arm_texts(p.functions@.subrange(0, i as int)), " "@),
        decreases p.functions.len() - i,
    {
        let id = p.functions[i].id;
        let ghost piece = decimal(id.0 as nat) + " => __kiro_eir_f"@ + decimal(id.0 as nat) + "(__call_args, __globals.clone()).await,"@;
        proof {
            assert(kiro_arm_texts(p.functions@.subrange(0, i + 1)) =~= kiro_arm_texts(p.functions@.subrange(0, i as int)).push(piece));
            lemma_join_push(kiro_arm_texts(p.functions@.subrange(0, i as int)), " "@, piece);
        }
        if i > 0 {
            push_str(&mut call, " ");
        }
        let ghost mid = call@;
        push_decimal(&mut call, id.0 as u64);
        push_str(&mut call, " => __kiro_eir_f");
        push_decimal(&mut call, id.0 as u64);
        push_str(&mut call, "(__call_args, __globals.clone()).await,");
        proof {
            assert(call@ =~= mid + piece);
        }
        i = i + 1;
    }
    proof {
        assert(p.functions@.subrange(0, p.functions@.len() as int) =~= p.functions@);
    }
    push_str(&mut call, " _ => panic!(\"invalid Kiro function id\") }, __KiroValue::Function { host: true, id } => match id { ");
    let ghost before_host = call@;
    let mut j: usize = 0;
    let mut emitted: usize = 0;
    while j < p.host_functions.len()
        invariant
            j <= p.host_functions@.len(),
            emitted == host_arm_texts(p.host_functions@.subrange(0, j as int), indirect@).len(),
            emitted <= j,
            call@ == before_host + join_with(host_arm_texts(p.host_functions@.subrange(0, j as int), indirect@), " "@),
        decreases p.host_functions.len() - j,
    {
        let f = &p.host_functions[j];
        proof {
            assert(p.host_functions@.subrange(0, j + 1).drop_last() =~= p.host_functions@.subrange(0, j as int));
        }
        if contains_u32(indirect, f.id.0) {
            let ghost piece = decimal(f.id.0 as nat) + " => "@ + host_call_text(*f, "__call_args"@) + ","@;
            proof {
                lemma_join_push(host_arm_texts(p.host_functions@.subrange(0, j as int), indirect@), " "@, piece);
            }
            if emitted > 0 {
                push_str(&mut call, " ");
            }
            let ghost mid = call@;
            push_decimal(&mut call, f.id.0 as u64);
            push_str(&mut call, " => ");
            let h = host_call_expression(f, "__call_args");
            push_str(&mut call, h.as_str());
            push_str(&mut call, ",");
            proof {
                assert(call@ =~= mid + piece);
            }
            emitted = emitted + 1;
        }
        j = j + 1;
    }
    proof {
        assert(p.host_functions@.subrange(0, p.host_functions@.len() as int) =~= p.host_functions@);
    }
    push_str(&mut call, " _ => panic!(\"invalid host function id\") }, other => panic!(\"expected function, got {other:?}\") } }");
    proof {
        assert(call@ =~= "{ let __call_args = "@ + ("vec!["@ + join_with(clone_texts(args@), ", "@) + "]"@) + "; match "@ + clone_text(callee)
            + " { __KiroValue::Function { host: false, id } => match id { "@ + join_with(kiro_arm_texts(p.functions@), " "@)
            + " _ => panic!(\"invalid Kiro function id\") }, __KiroValue::Function { host: true, id } => match id { "@
            + join_with(host_arm_texts(p.host_functions@, indirect@), " "@)
            + " _ => panic!(\"invalid host function id\") }, other => panic!(\"expected function, got {other:?}\") } }"@);
    }
    call_result(dst, call.as_str())
}

fn make_pipe_line_exec(dst: SlotId, capacity: Option<usize>) -> (r: String)
    ensures
        r@ == make_pipe_line(dst, capacity),
{
    let mut v = String::from_str("__KiroValue::Pipe(");
    match capacity {
        Some(c) => {
            if c == 0 {
                push_str(&mut v, "{ let (sender, receiver) = async_channel::bounded(1); let (__rendezvous_ack_sender, __rendezvous_ack_receiver) = async_channel::bounded(1); __KiroPipe { sender, receiver, rendezvous_ack_sender: Some(__rendezvous_ack_sender), rendezvous_ack_receiver: Some(__rendezvous_ack_receiver) } }");
            } else {
                push_str(&mut v, "{ let (sender, receiver) = async_channel::bounded(");
                push_decimal(&mut v, c as u64);
                push_str(&mut v, "); __KiroPipe { sender, receiver, rendezvous_ack_sender: None, rendezvous_ack_receiver: None } }");
            }
        },
        None => {
            push_str(&mut v, "{ let (sender, receiver) = async_channel::unbounded(); __KiroPipe { sender, receiver, rendezvous_ack_sender: None, rendezvous_ack_receiver: None } }");
        },
    }
    push_str(&mut v, ")");
    proof {
        assert(v@ =~= "__KiroValue::Pipe("@ + pipe_channel_text(capacity) + ")"@);
    }
    assign(dst, v.as_str())
}


pub open spec fn copy_line(dst: SlotId, src: SlotId) -> Seq<char> {
    assign_text(dst, clone_text(src))
}

pub open spec fn move_line(dst: SlotId, src: SlotId) -> Seq<char> {
    assign_text(dst, take_text(src))
}

pub open spec fn load_global_line(dst: SlotId, global: GlobalId) -> Seq<char> {
    assign_text(dst, "__globals.lock().unwrap()["@ + decimal(global.0 as nat) + "].clone().expect(\"initialized global\")"@)
}

pub open spec fn move_global_line(dst: SlotId, global: GlobalId) -> Seq<char> {
    assign_text(dst, "__globals.lock().unwrap()["@ + decimal(global.0 as nat) + "].take().expect(\"initialized global\")"@)
}

pub open spec fn store_global_line(global: GlobalId, src: SlotId) -> Seq<char> {
    "*__globals.lock().unwrap().get_mut("@ + decimal(global.0 as nat) + ").expect(\"verified global\") = Some("@ + clone_text(src) + ");"@
}

pub open spec fn make_error_line(dst: SlotId, error: ErrorId) -> Seq<char> {
    assign_text(dst, "__KiroValue::Error("@ + decimal(error.0 as nat) + ")"@)
}

pub open spec fn is_error_line(dst: SlotId, value: SlotId) -> Seq<char> {
    assign_text(dst, "__KiroValue::Bool(matches!("@ + slot_text(value) + ", __KiroValue::Error(_)))"@)
}

pub open spec fn error_matches_line(dst: SlotId, value: SlotId, error: ErrorId) -> Seq<char> {
    assign_text(dst, "__KiroValue::Bool(matches!("@ + slot_text(value) + ", __KiroValue::Error(id) if *id == "@ + decimal(error.0 as nat) + "))"@)
}

pub open spec fn is_truthy_line(dst: SlotId, value: SlotId) -> Seq<char> {
    assign_text(dst, "__KiroValue::Bool(__kiro_truthy(&"@ + slot_text(value) + "))"@)
}

pub open spec fn make_function_line(dst: SlotId, function: FunctionId) -> Seq<char> {
    assign_text(dst, "__KiroValue::Function { host: false, id: "@ + decimal(function.0 as nat) + " }"@)
}

pub open spec fn make_host_function_line(dst: SlotId, function: HostFunctionId) -> Seq<char> {
    assign_text(dst, "__KiroValue::Function { host: true, id: "@ + decimal(function.0 as nat) + " }"@)
}

pub open spec fn make_address_line(dst: SlotId) -> Seq<char> {
    assign_text(dst, "__KiroValue::Address(Arc::new(Mutex::new(None)))"@)
}

pub open spec fn make_ref_line(dst: SlotId, value: SlotId) -> Seq<char> {
    assign_text(dst, "__KiroValue::Address(Arc::new(Mutex::new(Some("@ + clone_text(value) + "))))"@)
}

pub open spec fn deref_line(dst: SlotId, address: SlotId) -> Seq<char> {
    assign_text(dst, "match "@ + slot_text(address) + " { __KiroValue::Address(value) => match value.lock().unwrap().clone() { Some(value) => value, None => kiro_runtime_error_help(\"KIRO3006\", \"Cannot deref an empty address.\", \"Assign it with `ref value` before using `deref`.\") }, other => panic!(\"expected address, got {other:?}\") }"@)
}

pub open spec fn store_deref_line(address: SlotId, src: SlotId) -> Seq<char> {
    "match "@ + slot_text(address) + " { __KiroValue::Address(value) => *value.lock().unwrap() = Some("@ + clone_text(src) + "), other => panic!(\"expected address, got {other:?}\") };"@
}

pub open spec fn make_list_line(dst: SlotId, items: Seq<SlotId>) -> Seq<char> {
    assign_text(dst, "__KiroValue::List(vec!["@ + join_with(clone_texts(items), ", "@) + "])"@)
}

pub open spec fn list_join_line(dst: SlotId, left: SlotId, right: SlotId) -> Seq<char> {
    assign_text(dst, "{ let mut __joined = match "@ + slot_text(left) + " { __KiroValue::List(values) => values.clone(), other => panic!(\"expected list, got {other:?}\") }; match "@ + slot_text(right) + " { __KiroValue::List(values) => __joined.extend_from_slice(values), other => panic!(\"expected list, got {other:?}\") }; __KiroValue::List(__joined) }"@)
}

pub open spec fn list_slice_line(dst: SlotId, list: SlotId, start: SlotId, end: SlotId) -> Seq<char> {
    assign_text(dst, "{ let __start = __kiro_num(&"@ + slot_text(start) + "); let __end = __kiro_num(&"@ + slot_text(end) + "); match "@ + slot_text(list) + " { __KiroValue::List(values) => { if !__start.is_finite() || !__end.is_finite() || __start.fract() != 0.0 || __end.fract() != 0.0 || __start < 0.0 || __start > __end || __end > values.len() as f64 { kiro_runtime_error(\"KIRO3004\", &format!(\"Invalid list range {__start}..{__end} for length {}.\", values.len())) } __KiroValue::List(values[__start as usize..__end as usize].to_vec()) }, other => panic!(\"expected list, got {other:?}\") } }"@)
}

pub open spec fn list_reverse_line(dst: SlotId, list: SlotId) -> Seq<char> {
    assign_text(dst, "match "@ + slot_text(list) + " { __KiroValue::List(values) => { let mut values = values.clone(); values.reverse(); __KiroValue::List(values) }, other => panic!(\"expected list, got {other:?}\") }"@)
}

pub open spec fn map_has_line(dst: SlotId, map: SlotId, key: SlotId) -> Seq<char> {
    assign_text(dst, "{ let __key = __kiro_map_key(&"@ + slot_text(key) + "); __KiroValue::Bool(match "@ + slot_text(map) + " { __KiroValue::Map(values) => values.contains_key(&__key), other => panic!(\"expected map, got {other:?}\") }) }"@)
}

pub open spec fn map_set_line(dst: SlotId, map: SlotId, key: SlotId, value: SlotId) -> Seq<char> {
    assign_text(dst, "{ let __key = __kiro_map_key(&"@ + slot_text(key) + "); let __value = "@ + clone_text(value) + "; match "@ + slot_text(map) + " { __KiroValue::Map(values) => { let mut values = values.clone(); values.insert(__key, __value); __KiroValue::Map(values) }, other => panic!(\"expected map, got {other:?}\") } }"@)
}

pub open spec fn map_delete_line(dst: SlotId, map: SlotId, key: SlotId) -> Seq<char> {
    assign_text(dst, "{ let __key = __kiro_map_key(&"@ + slot_text(key) + "); match "@ + slot_text(map) + " { __KiroValue::Map(values) => { let mut values = values.clone(); values.remove(&__key); __KiroValue::Map(values) }, other => panic!(\"expected map, got {other:?}\") } }"@)
}

pub open spec fn get_field_line(dst: SlotId, target: SlotId, field: FieldId) -> Seq<char> {
    assign_text(dst, "match "@ + slot_text(target) + " { __KiroValue::Struct(_, fields) => fields.get(&"@ + decimal(field.0 as nat) + ").cloned().expect(\"verified field\"), other => panic!(\"expected struct, got {other:?}\") }"@)
}

pub open spec fn set_field_line(target: SlotId, fields: Seq<FieldId>, src: SlotId) -> Seq<char> {
    "{ let __value = "@ + clone_text(src) + "; __kiro_set_field(__slots["@ + decimal(target.0 as nat) + "].as_mut().expect(\"initialized struct\"), &["@ + join_with(field_texts(fields), ", "@) + "], __value); }"@
}

pub open spec fn get_index_line(dst: SlotId, collection: SlotId, key: SlotId) -> Seq<char> {
    assign_text(dst, "match "@ + slot_text(collection) + " { __KiroValue::Bytes(values) => { let index = __kiro_num(&"@ + slot_text(key) + ") as usize; __KiroValue::Num(*values.get(index).unwrap_or_else(|| kiro_runtime_error(\"KIRO3004\", &format!(\"Bytes index out of bounds: index {index}, length {}.\", values.len()))) as f64) }, __KiroValue::List(values) => { let index = __kiro_num(&"@ + slot_text(key) + ") as usize; values.get(index).cloned().unwrap_or_else(|| kiro_runtime_error(\"KIRO3004\", &format!(\"List index out of bounds: index {index}, length {}.\", values.len()))) }, __KiroValue::Map(values) => { let key = __kiro_map_key(&"@ + slot_text(key) + "); values.get(&key).cloned().unwrap_or_else(|| kiro_runtime_error(\"KIRO3005\", &format!(\"Map key not found: {key:?}.\"))) }, other => panic!(\"expected bytes, list, or map, got {other:?}\") }"@)
}

pub open spec fn push_line(collection: SlotId, value: SlotId) -> Seq<char> {
    "{ let __value = "@ + clone_text(value) + "; match __slots["@ + decimal(collection.0 as nat) + "].as_mut().expect(\"initialized list\") { __KiroValue::List(values) => values.push(__value), other => panic!(\"expected list, got {other:?}\") } }"@
}

pub open spec fn len_line(dst: SlotId, collection: SlotId) -> Seq<char> {
    assign_text(dst, "__KiroValue::Num(match "@ + slot_text(collection) + " { __KiroValue::Str(value) => value.len(), __KiroValue::Bytes(value) => value.len(), __KiroValue::List(value) => value.len(), __KiroValue::Map(value) => value.len(), other => panic!(\"expected collection, got {other:?}\") } as f64)"@)
}

pub open spec fn make_range_line(dst: SlotId, start: SlotId, end: SlotId) -> Seq<char> {
    assign_text(dst, "__KiroValue::Range(__kiro_num(&"@ + slot_text(start) + ") as i64, __kiro_num(&"@ + slot_text(end) + ") as i64)"@)
}

pub open spec fn iter_init_line(dst: SlotId, iterable: SlotId) -> Seq<char> {
    assign_text(dst, "__KiroValue::Num(match "@ + slot_text(iterable) + " { __KiroValue::Range(start, _) => *start as f64, __KiroValue::List(_) | __KiroValue::Str(_) => 0.0, other => panic!(\"expected iterable, got {other:?}\") })"@)
}

pub open spec fn iter_has_next_line(dst: SlotId, iterable: SlotId, index: SlotId) -> Seq<char> {
    assign_text(dst, "__KiroValue::Bool({ let index = __kiro_num(&"@ + slot_text(index) + "); match "@ + slot_text(iterable) + " { __KiroValue::Range(_, end) => index < *end as f64, __KiroValue::List(values) => (index as usize) < values.len(), __KiroValue::Str(value) => (index as usize) < value.chars().count(), other => panic!(\"expected iterable, got {other:?}\") } })"@)
}

pub open spec fn iter_get_line(dst: SlotId, iterable: SlotId, index: SlotId) -> Seq<char> {
    assign_text(dst, "{ let index = __kiro_num(&"@ + slot_text(index) + "); match "@ + slot_text(iterable) + " { __KiroValue::Range(_, _) => __KiroValue::Num(index), __KiroValue::List(values) => values[index as usize].clone(), __KiroValue::Str(value) => __KiroValue::Str(value.chars().nth(index as usize).unwrap().to_string()), other => panic!(\"expected iterable, got {other:?}\") } }"@)
}

pub open spec fn concat_string_line(dst: SlotId, lhs: SlotId, rhs: SlotId) -> Seq<char> {
    assign_text(dst, "__KiroValue::Str(format!(\"{}{}\", __kiro_str(&"@ + slot_text(lhs) + "), __kiro_str(&"@ + slot_text(rhs) + ")))"@)
}

pub open spec fn give_line(channel: SlotId, value: SlotId) -> Seq<char> {
    "{ let __value = "@ + clone_text(value) + "; match "@ + slot_text(channel) + " { __KiroValue::Pipe(pipe) => { if pipe.sender.send(__value).await.is_err() { kiro_runtime_error(\"KIRO3003\", \"Pipe receiver is closed; cannot give a value.\") } if let Some(__rendezvous_ack) = &pipe.rendezvous_ack_receiver { if __rendezvous_ack.recv().await.is_err() { kiro_runtime_error(\"KIRO3003\", \"Pipe receiver is closed; cannot give a value.\") } } }, other => panic!(\"expected pipe, got {other:?}\") } }"@
}

pub open spec fn take_line(dst: SlotId, channel: SlotId) -> Seq<char> {
    assign_text(dst, "match "@ + slot_text(channel) + " { __KiroValue::Pipe(pipe) => { let __value = pipe.receiver.recv().await.unwrap_or_else(|_| kiro_runtime_error(\"KIRO3002\", \"Pipe is closed; cannot take a value.\")); if let Some(__rendezvous_ack) = &pipe.rendezvous_ack_sender { let _ = __rendezvous_ack.send(()).await; } __value }, other => panic!(\"expected pipe, got {other:?}\") }"@)
}

pub open spec fn close_line(channel: SlotId) -> Seq<char> {
    "match "@ + slot_text(channel) + " { __KiroValue::Pipe(pipe) => { pipe.sender.close(); if let Some(__rendezvous_ack) = &pipe.rendezvous_ack_sender { __rendezvous_ack.close(); } }, other => panic!(\"expected pipe, got {other:?}\") };"@
}

pub open spec fn rest_line() -> Seq<char> {
    "tokio::task::yield_now().await;"@
}

pub open spec fn spawn_line(function: FunctionId, args: Seq<SlotId>) -> Seq<char> {
    "{ let __task_args = vec!["@ + join_with(clone_texts(args), ", "@) + "]; let __task_globals = __globals.clone(); tokio::spawn(async move { let _ = __kiro_eir_f"@ + decimal(function.0 as nat) + "(__task_args, __task_globals).await; }); }"@
}

pub open spec fn add_num_line(dst: SlotId, lhs: SlotId, rhs: SlotId) -> Seq<char> {
    assign_text(dst, "__KiroValue::Num(__kiro_num(&"@ + slot_text(lhs) + ") + __kiro_num(&"@ + slot_text(rhs) + "))"@)
}

pub open spec fn sub_num_line(dst: SlotId, lhs: SlotId, rhs: SlotId) -> Seq<char> {
    assign_text(dst, "__KiroValue::Num(__kiro_num(&"@ + slot_text(lhs) + ") - __kiro_num(&"@ + slot_text(rhs) + "))"@)
}

pub open spec fn mul_num_line(dst: SlotId, lhs: SlotId, rhs: SlotId) -> Seq<char> {
    assign_text(dst, "__KiroValue::Num(__kiro_num(&"@ + slot_text(lhs) + ") * __kiro_num(&"@ + slot_text(rhs) + "))"@)
}

pub open spec fn div_num_line(dst: SlotId, lhs: SlotId, rhs: SlotId) -> Seq<char> {
    assign_text(dst, "__KiroValue::Num(__kiro_num(&"@ + slot_text(lhs) + ") / __kiro_num(&"@ + slot_text(rhs) + "))"@)
}

pub open spec fn eq_num_line(dst: SlotId, lhs: SlotId, rhs: SlotId) -> Seq<char> {
    assign_text(dst, "__KiroValue::Bool(__kiro_num(&"@ + slot_text(lhs) + ") == __kiro_num(&"@ + slot_text(rhs) + "))"@)
}

pub open spec fn ne_num_line(dst: SlotId, lhs: SlotId, rhs: SlotId) -> Seq<char> {
    assign_text(dst, "__KiroValue::Bool(__kiro_num(&"@ + slot_text(lhs) + ") != __kiro_num(&"@ + slot_text(rhs) + "))"@)
}

pub open spec fn gt_num_line(dst: SlotId, lhs: SlotId, rhs: SlotId) -> Seq<char> {
    assign_text(dst, "__KiroValue::Bool(__kiro_num(&"@ + slot_text(lhs) + ") > __kiro_num(&"@ + slot_text(rhs) + "))"@)
}

pub open spec fn lt_num_line(dst: SlotId, lhs: SlotId, rhs: SlotId) -> Seq<char> {
    assign_text(dst, "__KiroValue::Bool(__kiro_num(&"@ + slot_text(lhs) + ") < __kiro_num(&"@ + slot_text(rhs) + "))"@)
}

pub open spec fn ge_num_line(dst: SlotId, lhs: SlotId, rhs: SlotId) -> Seq<char> {
    assign_text(dst, "__KiroValue::Bool(__kiro_num(&"@ + slot_text(lhs) + ") >= __kiro_num(&"@ + slot_text(rhs) + "))"@)
}

pub open spec fn le_num_line(dst: SlotId, lhs: SlotId, rhs: SlotId) -> Seq<char> {
    assign_text(dst, "__KiroValue::Bool(__kiro_num(&"@ + slot_text(lhs) + ") <= __kiro_num(&"@ + slot_text(rhs) + "))"@)
}

pub open spec fn eq_string_line(dst: SlotId, lhs: SlotId, rhs: SlotId) -> Seq<char> {
    assign_text(dst, "__KiroValue::Bool(__kiro_str(&"@ + slot_text(lhs) + ") == __kiro_str(&"@ + slot_text(rhs) + "))"@)
}

pub open spec fn ne_string_line(dst: SlotId, lhs: SlotId, rhs: SlotId) -> Seq<char> {
    assign_text(dst, "__KiroValue::Bool(__kiro_str(&"@ + slot_text(lhs) + ") != __kiro_str(&"@ + slot_text(rhs) + "))"@)
}

pub open spec fn eq_bool_line(dst: SlotId, lhs: SlotId, rhs: SlotId) -> Seq<char> {
    assign_text(dst, "__KiroValue::Bool(__kiro_bool(&"@ + slot_text(lhs) + ") == __kiro_bool(&"@ + slot_text(rhs) + "))"@)
}

pub open spec fn ne_bool_line(dst: SlotId, lhs: SlotId, rhs: SlotId) -> Seq<char> {
    assign_text(dst, "__KiroValue::Bool(__kiro_bool(&"@ + slot_text(lhs) + ") != __kiro_bool(&"@ + slot_text(rhs) + "))"@)
}

fn copy_line_exec(dst: SlotId, src: SlotId) -> (r: String)
    ensures
        r@ == copy_line(dst, src),
{
    let mut v = String::new();
    push_clone(&mut v, src);
    proof {
        assert(v@ =~= clone_text(src));
    }
    assign(dst, v.as_str())
}

fn move_line_exec(dst: SlotId, src: SlotId) -> (r: String)
    ensures
        r@ == move_line(dst, src),
{
    let mut v = String::new();
    push_take(&mut v, src);
    proof {
        assert(v@ =~= take_text(src));
    }
    assign(dst, v.as_str())
}

fn load_global_line_exec(dst: SlotId, global: GlobalId) -> (r: String)
    ensures
        r@ == load_global_line(dst, global),
{
    let mut v = String::new();
    push_str(&mut v, "__globals.lock().unwrap()[");
    push_decimal(&mut v, global.0 as u64);
    push_str(&mut v, "].clone().expect(\"initialized global\")");
    proof {
        assert(v@ =~= "__globals.lock().unwrap()["@ + decimal(global.0 as nat) + "].clone().expect(\"initialized global\")"@);
    }
    assign(dst, v.as_str())
}

fn move_global_line_exec(dst: SlotId, global: GlobalId) -> (r: String)
    ensures
        r@ == move_global_line(dst, global),
{
    let mut v = String::new();
    push_str(&mut v, "__globals.lock().unwrap()[");
    push_decimal(&mut v, global.0 as u64);
    push_str(&mut v, "].take().expect(\"initialized global\")");
    proof {
        assert(v@ =~= "__globals.lock().unwrap()["@ + decimal(global.0 as nat) + "].take().expect(\"initialized global\")"@);
    }
    assign(dst, v.as_str())
}

fn store_global_line_exec(global: GlobalId, src: SlotId) -> (r: String)
    ensures
        r@ == store_global_line(global, src),
{
    let mut v = String::new();
    push_str(&mut v, "*__globals.lock().unwrap().get_mut(");
    push_decimal(&mut v, global.0 as u64);
    push_str(&mut v, ").expect(\"verified global\") = Some(");
    push_clone(&mut v, src);
    push_str(&mut v, ");");
    proof {
        assert(v@ =~= "*__globals.lock().unwrap().get_mut("@ + decimal(global.0 as nat) + ").expect(\"verified global\") = Some("@ + clone_text(src) + ");"@);
    }
    v
}

fn make_error_line_exec(dst: SlotId, error: ErrorId) -> (r: String)
    ensures
        r@ == make_error_line(dst, error),
{
    let mut v = String::new();
    push_str(&mut v, "__KiroValue::Error(");
    push_decimal(&mut v, error.0 as u64);
    push_str(&mut v, ")");
    proof {
        assert(v@ =~= "__KiroValue::Error("@ + decimal(error.0 as nat) + ")"@);
    }
    assign(dst, v.as_str())
}

fn is_error_line_exec(dst: SlotId, value: SlotId) -> (r: String)
    ensures
        r@ == is_error_line(dst, value),
{
    let mut v = String::new();
    push_str(&mut v, "__KiroValue::Bool(matches!(");
    push_slot(&mut v, value);
    push_str(&mut v, ", __KiroValue::Error(_)))");
    proof {
        assert(v@ =~= "__KiroValue::Bool(matches!("@ + slot_text(value) + ", __KiroValue::Error(_)))"@);
    }
    assign(dst, v.as_str())
}

fn error_matches_line_exec(dst: SlotId, value: SlotId, error: ErrorId) -> (r: String)
    ensures
        r@ == error_matches_line(dst, value, error),
{
    let mut v = String::new();
    push_str(&mut v, "__KiroValue::Bool(matches!(");
    push_slot(&mut v, value);
    push_str(&mut v, ", __KiroValue::Error(id) if *id == ");
    push_decimal(&mut v, error.0 as u64);
    push_str(&mut v, "))");
    proof {
        assert(v@ =~= "__KiroValue::Bool(matches!("@ + slot_text(value) + ", __KiroValue::Error(id) if *id == "@ + decimal(error.0 as nat) + "))"@);
    }
    assign(dst, v.as_str())
}

fn is_truthy_line_exec(dst: SlotId, value: SlotId) -> (r: String)
    ensures
        r@ == is_truthy_line(dst, value),
{
    let mut v = String::new();
    push_str(&mut v, "__KiroValue::Bool(__kiro_truthy(&");
    push_slot(&mut v, value);
    push_str(&mut v, "))");
    proof {
        assert(v@ =~= "__KiroValue::Bool(__kiro_truthy(&"@ + slot_text(value) + "))"@);
    }
    assign(dst, v.as_str())
}

fn make_function_line_exec(dst: SlotId, function: FunctionId) -> (r: String)
    ensures
        r@ == make_function_line(dst, function),
{
    let mut v = String::new();
    push_str(&mut v, "__KiroValue::Function { host: false, id: ");
    push_decimal(&mut v, function.0 as u64);
    push_str(&mut v, " }");
    proof {
        assert(v@ =~= "__KiroValue::Function { host: false, id: "@ + decimal(function.0 as nat) + " }"@);
    }
    assign(dst, v.as_str())
}

fn make_host_function_line_exec(dst: SlotId, function: HostFunctionId) -> (r: String)
    ensures
        r@ == make_host_function_line(dst, function),
{
    let mut v = String::new();
    push_str(&mut v, "__KiroValue::Function { host: true, id: ");
    push_decimal(&mut v, function.0 as u64);
    push_str(&mut v, " }");
    proof {
        assert(v@ =~= "__KiroValue::Function { host: true, id: "@ + decimal(function.0 as nat) + " }"@);
    }
    assign(dst, v.as_str())
}

fn make_address_line_exec(dst: SlotId) -> (r: String)
    ensures
        r@ == make_address_line(dst),
{
    let mut v = String::new();
    push_str(&mut v, "__KiroValue::Address(Arc::new(Mutex::new(None)))");
    proof {
        assert(v@ =~= "__KiroValue::Address(Arc::new(Mutex::new(None)))"@);
    }
    assign(dst, v.as_str())
}

fn make_ref_line_exec(dst: SlotId, value: SlotId) -> (r: String)
    ensures
        r@ == make_ref_line(dst, value),
{
    let mut v = String::new();
    push_str(&mut v, "__KiroValue::Address(Arc::new(Mutex::new(Some(");
    push_clone(&mut v, value);
    push_str(&mut v, "))))");
    proof {
        assert(v@ =~= "__KiroValue::Address(Arc::new(Mutex::new(Some("@ + clone_text(value) + "))))"@);
    }
    assign(dst, v.as_str())
}

fn deref_line_exec(dst: SlotId, address: SlotId) -> (r: String)
    ensures
        r@ == deref_line(dst, address),
{
    let mut v = String::new();
    push_str(&mut v, "match ");
    push_slot(&mut v, address);
    push_str(&mut v, " { __KiroValue::Address(value) => match value.lock().unwrap().clone() { Some(value) => value, None => kiro_runtime_error_help(\"KIRO3006\", \"Cannot deref an empty address.\", \"Assign it with `ref value` before using `deref`.\") }, other => panic!(\"expected address, got {other:?}\") }");
    proof {
        assert(v@ =~= "match "@ + slot_text(address) + " { __KiroValue::Address(value) => match value.lock().unwrap().clone() { Some(value) => value, None => kiro_runtime_error_help(\"KIRO3006\", \"Cannot deref an empty address.\", \"Assign it with `ref value` before using `deref`.\") }, other => panic!(\"expected address, got {other:?}\") }"@);
    }
    assign(dst, v.as_str())
}

fn store_deref_line_exec(address: SlotId, src: SlotId) -> (r: String)
    ensures
        r@ == store_deref_line(address, src),
{
    let mut v = String::new();
    push_str(&mut v, "match ");
    push_slot(&mut v, address);
    push_str(&mut v, " { __KiroValue::Address(value) => *value.lock().unwrap() = Some(");
    push_clone(&mut v, src);
    push_str(&mut v, "), other => panic!(\"expected address, got {other:?}\") };");
    proof {
        assert(v@ =~= "match "@ + slot_text(address) + " { __KiroValue::Address(value) => *value.lock().unwrap() = Some("@ + clone_text(src) + "), other => panic!(\"expected address, got {other:?}\") };"@);
    }
    v
}

fn make_list_line_exec(dst: SlotId, items: &Vec<SlotId>) -> (r: String)
    ensures
        r@ == make_list_line(dst, items@),
{
    let mut v = String::new();
    push_str(&mut v, "__KiroValue::List(vec![");
    push_clones(&mut v, items);
    push_str(&mut v, "])");
    proof {
        assert(v@ =~= "__KiroValue::List(vec!["@ + join_with(clone_texts(items@), ", "@) + "])"@);
    }
    assign(dst, v.as_str())
}

fn list_join_line_exec(dst: SlotId, left: SlotId, right: SlotId) -> (r: String)
    ensures
        r@ == list_join_line(dst, left, right),
{
    let mut v = String::new();
    push_str(&mut v, "{ let mut __joined = match ");
    push_slot(&mut v, left);
    push_str(&mut v, " { __KiroValue::List(values) => values.clone(), other => panic!(\"expected list, got {other:?}\") }; match ");
    push_slot(&mut v, right);
    push_str(&mut v, " { __KiroValue::List(values) => __joined.extend_from_slice(values), other => panic!(\"expected list, got {other:?}\") }; __KiroValue::List(__joined) }");
    proof {
        assert(v@ =~= "{ let mut __joined = match "@ + slot_text(left) + " { __KiroValue::List(values) => values.clone(), other => panic!(\"expected list, got {other:?}\") }; match "@ + slot_text(right) + " { __KiroValue::List(values) => __joined.extend_from_slice(values), other => panic!(\"expected list, got {other:?}\") }; __KiroValue::List(__joined) }"@);
    }
    assign(dst, v.as_str())
}

fn list_slice_line_exec(dst: SlotId, list: SlotId, start: SlotId, end: SlotId) -> (r: String)
    ensures
        r@ == list_slice_line(dst, list, start, end),
{
    let mut v = String::new();
    push_str(&mut v, "{ let __start = __kiro_num(&");
    push_slot(&mut v, start);
    push_str(&mut v, "); let __end = __kiro_num(&");
    push_slot(&mut v, end);
    push_str(&mut v, "); match ");
    push_slot(&mut v, list);
    push_str(&mut v, " { __KiroValue::List(values) => { if !__start.is_finite() || !__end.is_finite() || __start.fract() != 0.0 || __end.fract() != 0.0 || __start < 0.0 || __start > __end || __end > values.len() as f64 { kiro_runtime_error(\"KIRO3004\", &format!(\"Invalid list range {__start}..{__end} for length {}.\", values.len())) } __KiroValue::List(values[__start as usize..__end as usize].to_vec()) }, other => panic!(\"expected list, got {other:?}\") } }");
    proof {
        assert(v@ =~= "{ let __start = __kiro_num(&"@ + slot_text(start) + "); let __end = __kiro_num(&"@ + slot_text(end) + "); match "@ + slot_text(list) + " { __KiroValue::List(values) => { if !__start.is_finite() || !__end.is_finite() || __start.fract() != 0.0 || __end.fract() != 0.0 || __start < 0.0 || __start > __end || __end > values.len() as f64 { kiro_runtime_error(\"KIRO3004\", &format!(\"Invalid list range {__start}..{__end} for length {}.\", values.len())) } __KiroValue::List(values[__start as usize..__end as usize].to_vec()) }, other => panic!(\"expected list, got {other:?}\") } }"@);
    }
    assign(dst, v.as_str())
}

fn list_reverse_line_exec(dst: SlotId, list: SlotId) -> (r: String)
    ensures
        r@ == list_reverse_line(dst, list),
{
    let mut v = String::new();
    push_str(&mut v, "match ");
    push_slot(&mut v, list);
    push_str(&mut v, " { __KiroValue::List(values) => { let mut values = values.clone(); values.reverse(); __KiroValue::List(values) }, other => panic!(\"expected list, got {other:?}\") }");
    proof {
        assert(v@ =~= "match "@ + slot_text(list) + " { __KiroValue::List(values) => { let mut values = values.clone(); values.reverse(); __KiroValue::List(values) }, other => panic!(\"expected list, got {other:?}\") }"@);
    }
    assign(dst, v.as_str())
}

fn map_has_line_exec(dst: SlotId, map: SlotId, key: SlotId) -> (r: String)
    ensures
        r@ == map_has_line(dst, map, key),
{
    let mut v = String::new();
    push_str(&mut v, "{ let __key = __kiro_map_key(&");
    push_slot(&mut v, key);
    push_str(&mut v, "); __KiroValue::Bool(match ");
    push_slot(&mut v, map);
    push_str(&mut v, " { __KiroValue::Map(values) => values.contains_key(&__key), other => panic!(\"expected map, got {other:?}\") }) }");
    proof {
        assert(v@ =~= "{ let __key = __kiro_map_key(&"@ + slot_text(key) + "); __KiroValue::Bool(match "@ + slot_text(map) + " { __KiroValue::Map(values) => values.contains_key(&__key), other => panic!(\"expected map, got {other:?}\") }) }"@);
    }
    assign(dst, v.as_str())
}

fn map_set_line_exec(dst: SlotId, map: SlotId, key: SlotId, value: SlotId) -> (r: String)
    ensures
        r@ == map_set_line(dst, map, key, value),
{
    let mut v = String::new();
    push_str(&mut v, "{ let __key = __kiro_map_key(&");
    push_slot(&mut v, key);
    push_str(&mut v, "); let __value = ");
    push_clone(&mut v, value);
    push_str(&mut v, "; match ");
    push_slot(&mut v, map);
    push_str(&mut v, " { __KiroValue::Map(values) => { let mut values = values.clone(); values.insert(__key, __value); __KiroValue::Map(values) }, other => panic!(\"expected map, got {other:?}\") } }");
    proof {
        assert(v@ =~= "{ let __key = __kiro_map_key(&"@ + slot_text(key) + "); let __value = "@ + clone_text(value) + "; match "@ + slot_text(map) + " { __KiroValue::Map(values) => { let mut values = values.clone(); values.insert(__key, __value); __KiroValue::Map(values) }, other => panic!(\"expected map, got {other:?}\") } }"@);
    }
    assign(dst, v.as_str())
}

fn map_delete_line_exec(dst: SlotId, map: SlotId, key: SlotId) -> (r: String)
    ensures
        r@ == map_delete_line(dst, map, key),
{
    let mut v = String::new();
    push_str(&mut v, "{ let __key = __kiro_map_key(&");
    push_slot(&mut v, key);
    push_str(&mut v, "); match ");
    push_slot(&mut v, map);
    push_str(&mut v, " { __KiroValue::Map(values) => { let mut values = values.clone(); values.remove(&__key); __KiroValue::Map(values) }, other => panic!(\"expected map, got {other:?}\") } }");
    proof {
        assert(v@ =~= "{ let __key = __kiro_map_key(&"@ + slot_text(key) + "); match "@ + slot_text(map) + " { __KiroValue::Map(values) => { let mut values = values.clone(); values.remove(&__key); __KiroValue::Map(values) }, other => panic!(\"expected map, got {other:?}\") } }"@);
    }
    assign(dst, v.as_str())
}

fn get_field_line_exec(dst: SlotId, target: SlotId, field: FieldId) -> (r: String)
    ensures
        r@ == get_field_line(dst, target, field),
{
    let mut v = String::new();
    push_str(&mut v, "match ");
    push_slot(&mut v, target);
    push_str(&mut v, " { __KiroValue::Struct(_, fields) => fields.get(&");
    push_decimal(&mut v, field.0 as u64);
    push_str(&mut v, ").cloned().expect(\"verified field\"), other => panic!(\"expected struct, got {other:?}\") }");
    proof {
        assert(v@ =~= "match "@ + slot_text(target) + " { __KiroValue::Struct(_, fields) => fields.get(&"@ + decimal(field.0 as nat) + ").cloned().expect(\"verified field\"), other => panic!(\"expected struct, got {other:?}\") }"@);
    }
    assign(dst, v.as_str())
}

fn set_field_line_exec(target: SlotId, fields: &Vec<FieldId>, src: SlotId) -> (r: String)
    ensures
        r@ == set_field_line(target, fields@, src),
{
    let mut v = String::new();
    push_str(&mut v, "{ let __value = ");
    push_clone(&mut v, src);
    push_str(&mut v, "; __kiro_set_field(__slots[");
    push_decimal(&mut v, target.0 as u64);
    push_str(&mut v, "].as_mut().expect(\"initialized struct\"), &[");
    push_field_list(&mut v, fields);
    push_str(&mut v, "], __value); }");
    proof {
        assert(v@ =~= "{ let __value = "@ + clone_text(src) + "; __kiro_set_field(__slots["@ + decimal(target.0 as nat) + "].as_mut().expect(\"initialized struct\"), &["@ + join_with(field_texts(fields@), ", "@) + "], __value); }"@);
    }
    v
}

fn get_index_line_exec(dst: SlotId, collection: SlotId, key: SlotId) -> (r: String)
    ensures
        r@ == get_index_line(dst, collection, key),
{
    let mut v = String::new();
    push_str(&mut v, "match ");
    push_slot(&mut v, collection);
    push_str(&mut v, " { __KiroValue::Bytes(values) => { let index = __kiro_num(&");
    push_slot(&mut v, key);
    push_str(&mut v, ") as usize; __KiroValue::Num(*values.get(index).unwrap_or_else(|| kiro_runtime_error(\"KIRO3004\", &format!(\"Bytes index out of bounds: index {index}, length {}.\", values.len()))) as f64) }, __KiroValue::List(values) => { let index = __kiro_num(&");
    push_slot(&mut v, key);
    push_str(&mut v, ") as usize; values.get(index).cloned().unwrap_or_else(|| kiro_runtime_error(\"KIRO3004\", &format!(\"List index out of bounds: index {index}, length {}.\", values.len()))) }, __KiroValue::Map(values) => { let key = __kiro_map_key(&");
    push_slot(&mut v, key);
    push_str(&mut v, "); values.get(&key).cloned().unwrap_or_else(|| kiro_runtime_error(\"KIRO3005\", &format!(\"Map key not found: {key:?}.\"))) }, other => panic!(\"expected bytes, list, or map, got {other:?}\") }");
    proof {
        assert(v@ =~= "match "@ + slot_text(collection) + " { __KiroValue::Bytes(values) => { let index = __kiro_num(&"@ + slot_text(key) + ") as usize; __KiroValue::Num(*values.get(index).unwrap_or_else(|| kiro_runtime_error(\"KIRO3004\", &format!(\"Bytes index out of bounds: index {index}, length {}.\", values.len()))) as f64) }, __KiroValue::List(values) => { let index = __kiro_num(&"@ + slot_text(key) + ") as usize; values.get(index).cloned().unwrap_or_else(|| kiro_runtime_error(\"KIRO3004\", &format!(\"List index out of bounds: index {index}, length {}.\", values.len()))) }, __KiroValue::Map(values) => { let key = __kiro_map_key(&"@ + slot_text(key) + "); values.get(&key).cloned().unwrap_or_else(|| kiro_runtime_error(\"KIRO3005\", &format!(\"Map key not found: {key:?}.\"))) }, other => panic!(\"expected bytes, list, or map, got {other:?}\") }"@);
    }
    assign(dst, v.as_str())
}

fn push_line_exec(collection: SlotId, value: SlotId) -> (r: String)
    ensures
        r@ == push_line(collection, value),
{
    let mut v = String::new();
    push_str(&mut v, "{ let __value = ");
    push_clone(&mut v, value);
    push_str(&mut v, "; match __slots[");
    push_decimal(&mut v, collection.0 as u64);
    push_str(&mut v, "].as_mut().expect(\"initialized list\") { __KiroValue::List(values) => values.push(__value), other => panic!(\"expected list, got {other:?}\") } }");
    proof {
        assert(v@ =~= "{ let __value = "@ + clone_text(value) + "; match __slots["@ + decimal(collection.0 as nat) + "].as_mut().expect(\"initialized list\") { __KiroValue::List(values) => values.push(__value), other => panic!(\"expected list, got {other:?}\") } }"@);
    }
    v
}

fn len_line_exec(dst: SlotId, collection: SlotId) -> (r: String)
    ensures
        r@ == len_line(dst, collection),
{
    let mut v = String::new();
    push_str(&mut v, "__KiroValue::Num(match ");
    push_slot(&mut v, collection);
    push_str(&mut v, " { __KiroValue::Str(value) => value.len(), __KiroValue::Bytes(value) => value.len(), __KiroValue::List(value) => value.len(), __KiroValue::Map(value) => value.len(), other => panic!(\"expected collection, got {other:?}\") } as f64)");
    proof {
        assert(v@ =~= "__KiroValue::Num(match "@ + slot_text(collection) + " { __KiroValue::Str(value) => value.len(), __KiroValue::Bytes(value) => value.len(), __KiroValue::List(value) => value.len(), __KiroValue::Map(value) => value.len(), other => panic!(\"expected collection, got {other:?}\") } as f64)"@);
    }
    assign(dst, v.as_str())
}

fn make_range_line_exec(dst: SlotId, start: SlotId, end: SlotId) -> (r: String)
    ensures
        r@ == make_range_line(dst, start, end),
{
    let mut v = String::new();
    push_str(&mut v, "__KiroValue::Range(__kiro_num(&");
    push_slot(&mut v, start);
    push_str(&mut v, ") as i64, __kiro_num(&");
    push_slot(&mut v, end);
    push_str(&mut v, ") as i64)");
    proof {
        assert(v@ =~= "__KiroValue::Range(__kiro_num(&"@ + slot_text(start) + ") as i64, __kiro_num(&"@ + slot_text(end) + ") as i64)"@);
    }
    assign(dst, v.as_str())
}

fn iter_init_line_exec(dst: SlotId, iterable: SlotId) -> (r: String)
    ensures
        r@ == iter_init_line(dst, iterable),
{
    let mut v = String::new();
    push_str(&mut v, "__KiroValue::Num(match ");
    push_slot(&mut v, iterable);
    push_str(&mut v, " { __KiroValue::Range(start, _) => *start as f64, __KiroValue::List(_) | __KiroValue::Str(_) => 0.0, other => panic!(\"expected iterable, got {other:?}\") })");
    proof {
        assert(v@ =~= "__KiroValue::Num(match "@ + slot_text(iterable) + " { __KiroValue::Range(start, _) => *start as f64, __KiroValue::List(_) | __KiroValue::Str(_) => 0.0, other => panic!(\"expected iterable, got {other:?}\") })"@);
    }
    assign(dst, v.as_str())
}

fn iter_has_next_line_exec(dst: SlotId, iterable: SlotId, index: SlotId) -> (r: String)
    ensures
        r@ == iter_has_next_line(dst, iterable, index),
{
    let mut v = String::new();
    push_str(&mut v, "__KiroValue::Bool({ let index = __kiro_num(&");
    push_slot(&mut v, index);
    push_str(&mut v, "); match ");
    push_slot(&mut v, iterable);
    push_str(&mut v, " { __KiroValue::Range(_, end) => index < *end as f64, __KiroValue::List(values) => (index as usize) < values.len(), __KiroValue::Str(value) => (index as usize) < value.chars().count(), other => panic!(\"expected iterable, got {other:?}\") } })");
    proof {
        assert(v@ =~= "__KiroValue::Bool({ let index = __kiro_num(&"@ + slot_text(index) + "); match "@ + slot_text(iterable) + " { __KiroValue::Range(_, end) => index < *end as f64, __KiroValue::List(values) => (index as usize) < values.len(), __KiroValue::Str(value) => (index as usize) < value.chars().count(), other => panic!(\"expected iterable, got {other:?}\") } })"@);
    }
    assign(dst, v.as_str())
}

fn iter_get_line_exec(dst: SlotId, iterable: SlotId, index: SlotId) -> (r: String)
    ensures
        r@ == iter_get_line(dst, iterable, index),
{
    let mut v = String::new();
    push_str(&mut v, "{ let index = __kiro_num(&");
    push_slot(&mut v, index);
    push_str(&mut v, "); match ");
    push_slot(&mut v, iterable);
    push_str(&mut v, " { __KiroValue::Range(_, _) => __KiroValue::Num(index), __KiroValue::List(values) => values[index as usize].clone(), __KiroValue::Str(value) => __KiroValue::Str(value.chars().nth(index as usize).unwrap().to_string()), other => panic!(\"expected iterable, got {other:?}\") } }");
    proof {
        assert(v@ =~= "{ let index = __kiro_num(&"@ + slot_text(index) + "); match "@ + slot_text(iterable) + " { __KiroValue::Range(_, _) => __KiroValue::Num(index), __KiroValue::List(values) => values[index as usize].clone(), __KiroValue::Str(value) => __KiroValue::Str(value.chars().nth(index as usize).unwrap().to_string()), other => panic!(\"expected iterable, got {other:?}\") } }"@);
    }
    assign(dst, v.as_str())
}

fn concat_string_line_exec(dst: SlotId, lhs: SlotId, rhs: SlotId) -> (r: String)
    ensures
        r@ == concat_string_line(dst, lhs, rhs),
{
    let mut v = String::new();
    push_str(&mut v, "__KiroValue::Str(format!(\"{}{}\", __kiro_str(&");
    push_slot(&mut v, lhs);
    push_str(&mut v, "), __kiro_str(&");
    push_slot(&mut v, rhs);
    push_str(&mut v, ")))");
    proof {
        assert(v@ =~= "__KiroValue::Str(format!(\"{}{}\", __kiro_str(&"@ + slot_text(lhs) + "), __kiro_str(&"@ + slot_text(rhs) + ")))"@);
    }
    assign(dst, v.as_str())
}

fn give_line_exec(channel: SlotId, value: SlotId) -> (r: String)
    ensures
        r@ == give_line(channel, value),
{
    let mut v = String::new();
    push_str(&mut v, "{ let __value = ");
    push_clone(&mut v, value);
    push_str(&mut v, "; match ");
    push_slot(&mut v, channel);
    push_str(&mut v, " { __KiroValue::Pipe(pipe) => { if pipe.sender.send(__value).await.is_err() { kiro_runtime_error(\"KIRO3003\", \"Pipe receiver is closed; cannot give a value.\") } if let Some(__rendezvous_ack) = &pipe.rendezvous_ack_receiver { if __rendezvous_ack.recv().await.is_err() { kiro_runtime_error(\"KIRO3003\", \"Pipe receiver is closed; cannot give a value.\") } } }, other => panic!(\"expected pipe, got {other:?}\") } }");
    proof {
        assert(v@ =~= "{ let __value = "@ + clone_text(value) + "; match "@ + slot_text(channel) + " { __KiroValue::Pipe(pipe) => { if pipe.sender.send(__value).await.is_err() { kiro_runtime_error(\"KIRO3003\", \"Pipe receiver is closed; cannot give a value.\") } if let Some(__rendezvous_ack) = &pipe.rendezvous_ack_receiver { if __rendezvous_ack.recv().await.is_err() { kiro_runtime_error(\"KIRO3003\", \"Pipe receiver is closed; cannot give a value.\") } } }, other => panic!(\"expected pipe, got {other:?}\") } }"@);
    }
    v
}

fn take_line_exec(dst: SlotId, channel: SlotId) -> (r: String)
    ensures
        r@ == take_line(dst, channel),
{
    let mut v = String::new();
    push_str(&mut v, "match ");
    push_slot(&mut v, channel);
    push_str(&mut v, " { __KiroValue::Pipe(pipe) => { let __value = pipe.receiver.recv().await.unwrap_or_else(|_| kiro_runtime_error(\"KIRO3002\", \"Pipe is closed; cannot take a value.\")); if let Some(__rendezvous_ack) = &pipe.rendezvous_ack_sender { let _ = __rendezvous_ack.send(()).await; } __value }, other => panic!(\"expected pipe, got {other:?}\") }");
    proof {
        assert(v@ =~= "match "@ + slot_text(channel) + " { __KiroValue::Pipe(pipe) => { let __value = pipe.receiver.recv().await.unwrap_or_else(|_| kiro_runtime_error(\"KIRO3002\", \"Pipe is closed; cannot take a value.\")); if let Some(__rendezvous_ack) = &pipe.rendezvous_ack_sender { let _ = __rendezvous_ack.send(()).await; } __value }, other => panic!(\"expected pipe, got {other:?}\") }"@);
    }
    assign(dst, v.as_str())
}

fn close_line_exec(channel: SlotId) -> (r: String)
    ensures
        r@ == close_line(channel),
{
    let mut v = String::new();
    push_str(&mut v, "match ");
    push_slot(&mut v, channel);
    push_str(&mut v, " { __KiroValue::Pipe(pipe) => { pipe.sender.close(); if let Some(__rendezvous_ack) = &pipe.rendezvous_ack_sender { __rendezvous_ack.close(); } }, other => panic!(\"expected pipe, got {other:?}\") };");
    proof {
        assert(v@ =~= "match "@ + slot_text(channel) + " { __KiroValue::Pipe(pipe) => { pipe.sender.close(); if let Some(__rendezvous_ack) = &pipe.rendezvous_ack_sender { __rendezvous_ack.close(); } }, other => panic!(\"expected pipe, got {other:?}\") };"@);
    }
    v
}

fn rest_line_exec() -> (r: String)
    ensures
        r@ == rest_line(),
{
    let mut v = String::new();
    push_str(&mut v, "tokio::task::yield_now().await;");
    proof {
        assert(v@ =~= "tokio::task::yield_now().await;"@);
    }
    v
}

fn spawn_line_exec(function: FunctionId, args: &Vec<SlotId>) -> (r: String)
    ensures
        r@ == spawn_line(function, args@),
{
    let mut v = String::new();
    push_str(&mut v, "{ let __task_args = vec![");
    push_clones(&mut v, args);
    push_str(&mut v, "]; let __task_globals = __globals.clone(); tokio::spawn(async move { let _ = __kiro_eir_f");
    push_decimal(&mut v, function.0 as u64);
    push_str(&mut v, "(__task_args, __task_globals).await; }); }");
    proof {
        assert(v@ =~= "{ let __task_args = vec!["@ + join_with(clone_texts(args@), ", "@) + "]; let __task_globals = __globals.clone(); tokio::spawn(async move { let _ = __kiro_eir_f"@ + decimal(function.0 as nat) + "(__task_args, __task_globals).await; }); }"@);
    }
    v
}

fn add_num_line_exec(dst: SlotId, lhs: SlotId, rhs: SlotId) -> (r: String)
    ensures
        r@ == add_num_line(dst, lhs, rhs),
{
    let mut v = String::new();
    push_str(&mut v, "__KiroValue::Num(__kiro_num(&");
    push_slot(&mut v, lhs);
    push_str(&mut v, ") + __kiro_num(&");
    push_slot(&mut v, rhs);
    push_str(&mut v, "))");
    proof {
        assert(v@ =~= "__KiroValue::Num(__kiro_num(&"@ + slot_text(lhs) + ") + __kiro_num(&"@ + slot_text(rhs) + "))"@);
    }
    assign(dst, v.as_str())
}

fn sub_num_line_exec(dst: SlotId, lhs: SlotId, rhs: SlotId) -> (r: String)
    ensures
        r@ == sub_num_line(dst, lhs, rhs),
{
    let mut v = String::new();
    push_str(&mut v, "__KiroValue::Num(__kiro_num(&");
    push_slot(&mut v, lhs);
    push_str(&mut v, ") - __kiro_num(&");
    push_slot(&mut v, rhs);
    push_str(&mut v, "))");
    proof {
        assert(v@ =~= "__KiroValue::Num(__kiro_num(&"@ + slot_text(lhs) + ") - __kiro_num(&"@ + slot_text(rhs) + "))"@);
    }
    assign(dst, v.as_str())
}

fn mul_num_line_exec(dst: SlotId, lhs: SlotId, rhs: SlotId) -> (r: String)
    ensures
        r@ == mul_num_line(dst, lhs, rhs),
{
    let mut v = String::new();
    push_str(&mut v, "__KiroValue::Num(__kiro_num(&");
    push_slot(&mut v, lhs);
    push_str(&mut v, ") * __kiro_num(&");
    push_slot(&mut v, rhs);
    push_str(&mut v, "))");
    proof {
        assert(v@ =~= "__KiroValue::Num(__kiro_num(&"@ + slot_text(lhs) + ") * __kiro_num(&"@ + slot_text(rhs) + "))"@);
    }
    assign(dst, v.as_str())
}

fn div_num_line_exec(dst: SlotId, lhs: SlotId, rhs: SlotId) -> (r: String)
    ensures
        r@ == div_num_line(dst, lhs, rhs),
{
    let mut v = String::new();
    push_str(&mut v, "__KiroValue::Num(__kiro_num(&");
    push_slot(&mut v, lhs);
    push_str(&mut v, ") / __kiro_num(&");
    push_slot(&mut v, rhs);
    push_str(&mut v, "))");
    proof {
        assert(v@ =~= "__KiroValue::Num(__kiro_num(&"@ + slot_text(lhs) + ") / __kiro_num(&"@ + slot_text(rhs) + "))"@);
    }
    assign(dst, v.as_str())
}

fn eq_num_line_exec(dst: SlotId, lhs: SlotId, rhs: SlotId) -> (r: String)
    ensures
        r@ == eq_num_line(dst, lhs, rhs),
{
    let mut v = String::new();
    push_str(&mut v, "__KiroValue::Bool(__kiro_num(&");
    push_slot(&mut v, lhs);
    push_str(&mut v, ") == __kiro_num(&");
    push_slot(&mut v, rhs);
    push_str(&mut v, "))");
    proof {
        assert(v@ =~= "__KiroValue::Bool(__kiro_num(&"@ + slot_text(lhs) + ") == __kiro_num(&"@ + slot_text(rhs) + "))"@);
    }
    assign(dst, v.as_str())
}

fn ne_num_line_exec(dst: SlotId, lhs: SlotId, rhs: SlotId) -> (r: String)
    ensures
        r@ == ne_num_line(dst, lhs, rhs),
{
    let mut v = String::new();
    push_str(&mut v, "__KiroValue::Bool(__kiro_num(&");
    push_slot(&mut v, lhs);
    push_str(&mut v, ") != __kiro_num(&");
    push_slot(&mut v, rhs);
    push_str(&mut v, "))");
    proof {
        assert(v@ =~= "__KiroValue::Bool(__kiro_num(&"@ + slot_text(lhs) + ") != __kiro_num(&"@ + slot_text(rhs) + "))"@);
    }
    assign(dst, v.as_str())
}

fn gt_num_line_exec(dst: SlotId, lhs: SlotId, rhs: SlotId) -> (r: String)
    ensures
        r@ == gt_num_line(dst, lhs, rhs),
{
    let mut v = String::new();
    push_str(&mut v, "__KiroValue::Bool(__kiro_num(&");
    push_slot(&mut v, lhs);
    push_str(&mut v, ") > __kiro_num(&");
    push_slot(&mut v, rhs);
    push_str(&mut v, "))");
    proof {
        assert(v@ =~= "__KiroValue::Bool(__kiro_num(&"@ + slot_text(lhs) + ") > __kiro_num(&"@ + slot_text(rhs) + "))"@);
    }
    assign(dst, v.as_str())
}

fn lt_num_line_exec(dst: SlotId, lhs: SlotId, rhs: SlotId) -> (r: String)
    ensures
        r@ == lt_num_line(dst, lhs, rhs),
{
    let mut v = String::new();
    push_str(&mut v, "__KiroValue::Bool(__kiro_num(&");
    push_slot(&mut v, lhs);
    push_str(&mut v, ") < __kiro_num(&");
    push_slot(&mut v, rhs);
    push_str(&mut v, "))");
    proof {
        assert(v@ =~= "__KiroValue::Bool(__kiro_num(&"@ + slot_text(lhs) + ") < __kiro_num(&"@ + slot_text(rhs) + "))"@);
    }
    assign(dst, v.as_str())
}

fn ge_num_line_exec(dst: SlotId, lhs: SlotId, rhs: SlotId) -> (r: String)
    ensures
        r@ == ge_num_line(dst, lhs, rhs),
{
    let mut v = String::new();
    push_str(&mut v, "__KiroValue::Bool(__kiro_num(&");
    push_slot(&mut v, lhs);
    push_str(&mut v, ") >= __kiro_num(&");
    push_slot(&mut v, rhs);
    push_str(&mut v, "))");
    proof {
        assert(v@ =~= "__KiroValue::Bool(__kiro_num(&"@ + slot_text(lhs) + ") >= __kiro_num(&"@ + slot_text(rhs) + "))"@);
    }
    assign(dst, v.as_str())
}

fn le_num_line_exec(dst: SlotId, lhs: SlotId, rhs: SlotId) -> (r: String)
    ensures
        r@ == le_num_line(dst, lhs, rhs),
{
    let mut v = String::new();
    push_str(&mut v, "__KiroValue::Bool(__kiro_num(&");
    push_slot(&mut v, lhs);
    push_str(&mut v, ") <= __kiro_num(&");
    push_slot(&mut v, rhs);
    push_str(&mut v, "))");
    proof {
        assert(v@ =~= "__KiroValue::Bool(__kiro_num(&"@ + slot_text(lhs) + ") <= __kiro_num(&"@ + slot_text(rhs) + "))"@);
    }
    assign(dst, v.as_str())
}

fn eq_string_line_exec(dst: SlotId, lhs: SlotId, rhs: SlotId) -> (r: String)
    ensures
        r@ == eq_string_line(dst, lhs, rhs),
{
    let mut v = String::new();
    push_str(&mut v, "__KiroValue::Bool(__kiro_str(&");
    push_slot(&mut v, lhs);
    push_str(&mut v, ") == __kiro_str(&");
    push_slot(&mut v, rhs);
    push_str(&mut v, "))");
    proof {
        assert(v@ =~= "__KiroValue::Bool(__kiro_str(&"@ + slot_text(lhs) + ") == __kiro_str(&"@ + slot_text(rhs) + "))"@);
    }
    assign(dst, v.as_str())
}

fn ne_string_line_exec(dst: SlotId, lhs: SlotId, rhs: SlotId) -> (r: String)
    ensures
        r@ == ne_string_line(dst, lhs, rhs),
{
    let mut v = String::new();
    push_str(&mut v, "__KiroValue::Bool(__kiro_str(&");
    push_slot(&mut v, lhs);
    push_str(&mut v, ") != __kiro_str(&");
    push_slot(&mut v, rhs);
    push_str(&mut v, "))");
    proof {
        assert(v@ =~= "__KiroValue::Bool(__kiro_str(&"@ + slot_text(lhs) + ") != __kiro_str(&"@ + slot_text(rhs) + "))"@);
    }
    assign(dst, v.as_str())
}

fn eq_bool_line_exec(dst: SlotId, lhs: SlotId, rhs: SlotId) -> (r: String)
    ensures
        r@ == eq_bool_line(dst, lhs, rhs),
{
    let mut v = String::new();
    push_str(&mut v, "__KiroValue::Bool(__kiro_bool(&");
    push_slot(&mut v, lhs);
    push_str(&mut v, ") == __kiro_bool(&");
    push_slot(&mut v, rhs);
    push_str(&mut v, "))");
    proof {
        assert(v@ =~= "__KiroValue::Bool(__kiro_bool(&"@ + slot_text(lhs) + ") == __kiro_bool(&"@ + slot_text(rhs) + "))"@);
    }
    assign(dst, v.as_str())
}

fn ne_bool_line_exec(dst: SlotId, lhs: SlotId, rhs: SlotId) -> (r: String)
    ensures
        r@ == ne_bool_line(dst, lhs, rhs),
{
    let mut v = String::new();
    push_str(&mut v, "__KiroValue::Bool(__kiro_bool(&");
    push_slot(&mut v, lhs);
    push_str(&mut v, ") != __kiro_bool(&");
    push_slot(&mut v, rhs);
    push_str(&mut v, "))");
    proof {
        assert(v@ =~= "__KiroValue::Bool(__kiro_bool(&"@ + slot_text(lhs) + ") != __kiro_bool(&"@ + slot_text(rhs) + "))"@);
    }
    assign(dst, v.as_str())
}

/// The instructions that the backend can emit: constants and host functions exist.
pub open spec fn instruction_emittable(p: EirProgram, k: InstructionKind) -> bool {
    match k {
        InstructionKind::Const { constant, .. } => (constant.0 as int) < p.constants@.len(),
        InstructionKind::CallHost { function, .. } => (function.0 as int) < p.host_functions@.len(),
        _ => true,
    }
}

/// The Rust statement for one instruction; `indirect` holds the host functions that the
/// program takes as values.
pub open spec fn instruction_line(p: EirProgram, indirect: Seq<u32>, k: InstructionKind) -> Seq<char> {
    match k {
        InstructionKind::Const { dst, constant } => const_line(p, dst, constant),
        InstructionKind::Check { condition, message } => check_line(p, condition, message),
        InstructionKind::MakeMap { dst, entries } => make_map_line(dst, entries@),
        InstructionKind::MakeStruct { dst, structure, fields } => make_struct_line(dst, structure, fields@),
        InstructionKind::CallDirect { dst, function, args } => call_direct_line(dst, function, args@),
        InstructionKind::CallHost { dst, function, args } => call_host_line(p, dst, function, args@),
        InstructionKind::CallIndirect { dst, callee, args } => call_indirect_line(p, indirect, dst, callee, args@),
        InstructionKind::MakePipe { dst, capacity } => make_pipe_line(dst, capacity),
        InstructionKind::Copy { dst, src } => copy_line(dst, src),
        InstructionKind::Move { dst, src } => move_line(dst, src),
        InstructionKind::LoadGlobal { dst, global } => load_global_line(dst, global),
        InstructionKind::MoveGlobal { dst, global } => move_global_line(dst, global),
        InstructionKind::StoreGlobal { global, src } => store_global_line(global, src),
        InstructionKind::MakeError { dst, error } => make_error_line(dst, error),
        InstructionKind::IsError { dst, value } => is_error_line(dst, value),
        InstructionKind::ErrorMatches { dst, value, error } => error_matches_line(dst, value, error),
        InstructionKind::IsTruthy { dst, value } => is_truthy_line(dst, value),
        InstructionKind::MakeFunction { dst, function } => make_function_line(dst, function),
        InstructionKind::MakeHostFunction { dst, function } => make_host_function_line(dst, function),
        InstructionKind::MakeAddress { dst } => make_address_line(dst),
        InstructionKind::MakeRef { dst, value } => make_ref_line(dst, value),
        InstructionKind::Deref { dst, address } => deref_line(dst, address),
        InstructionKind::StoreDeref { address, src } => store_deref_line(address, src),
        InstructionKind::MakeList { dst, items } => make_list_line(dst, items@),
        InstructionKind::ListJoin { dst, left, right } => list_join_line(dst, left, right),
        InstructionKind::ListSlice { dst, list, start, end } => list_slice_line(dst, list, start, end),
        InstructionKind::ListReverse { dst, list } => list_reverse_line(dst, list),
        InstructionKind::MapHas { dst, map, key } => map_has_line(dst, map, key),
        InstructionKind::MapSet { dst, map, key, value } => map_set_line(dst, map, key, value),
        InstructionKind::MapDelete { dst, map, key } => map_delete_line(dst, map, key),
        InstructionKind::GetField { dst, target, field } => get_field_line(dst, target, field),
        InstructionKind::SetField { target, fields, src } => set_field_line(target, fields@, src),
        InstructionKind::GetIndex { dst, collection, key } => get_index_line(dst, collection, key),
        InstructionKind::Push { collection, value } => push_line(collection, value),
        InstructionKind::Len { dst, collection } => len_line(dst, collection),
        InstructionKind::MakeRange { dst, start, end } => make_range_line(dst, start, end),
        InstructionKind::IterInit { dst, iterable } => iter_init_line(dst, iterable),
        InstructionKind::IterHasNext { dst, iterable, index } => iter_has_next_line(dst, iterable, index),
        InstructionKind::IterGet { dst, iterable, index } => iter_get_line(dst, iterable, index),
        InstructionKind::ConcatString { dst, lhs, rhs } => concat_string_line(dst, lhs, rhs),
        InstructionKind::Give { channel, value } => give_line(channel, value),
        InstructionKind::Take { dst, channel } => take_line(dst, channel),
        InstructionKind::Close { channel } => close_line(channel),
        InstructionKind::Rest => rest_line(),
        InstructionKind::Spawn { function, args } => spawn_line(function, args@),
        InstructionKind::AddNum { dst, lhs, rhs } => add_num_line(dst, lhs, rhs),
        InstructionKind::SubNum { dst, lhs, rhs } => sub_num_line(dst, lhs, rhs),
        InstructionKind::MulNum { dst, lhs, rhs } => mul_num_line(dst, lhs, rhs),
        InstructionKind::DivNum { dst, lhs, rhs } => div_num_line(dst, lhs, rhs),
        InstructionKind::EqNum { dst, lhs, rhs } => eq_num_line(dst, lhs, rhs),
        InstructionKind::NeNum { dst, lhs, rhs } => ne_num_line(dst, lhs, rhs),
        InstructionKind::GtNum { dst, lhs, rhs } => gt_num_line(dst, lhs, rhs),
        InstructionKind::LtNum { dst, lhs, rhs } => lt_num_line(dst, lhs, rhs),
        InstructionKind::GeNum { dst, lhs, rhs } => ge_num_line(dst, lhs, rhs),
        InstructionKind::LeNum { dst, lhs, rhs } => le_num_line(dst, lhs, rhs),
        InstructionKind::EqString { dst, lhs, rhs } => eq_string_line(dst, lhs, rhs),
        InstructionKind::NeString { dst, lhs, rhs } => ne_string_line(dst, lhs, rhs),
        InstructionKind::EqBool { dst, lhs, rhs } => eq_bool_line(dst, lhs, rhs),
        InstructionKind::NeBool { dst, lhs, rhs } => ne_bool_line(dst, lhs, rhs),
    }
}

/// The Rust operator that an arithmetic or comparison instruction applies, with the value it
/// builds (`Num` or `Bool`), the reader of its operands (`num`, `str` or `bool`), its
/// destination and its left and right operands.
pub open spec fn operator_parts(k: InstructionKind) -> Option<(Seq<char>, Seq<char>, Seq<char>, SlotId, SlotId, SlotId)> {
    match k {
        InstructionKind::AddNum { dst, lhs, rhs } => Some(("Num"@, "num"@, "+"@, dst, lhs, rhs)),
        InstructionKind::SubNum { dst, lhs, rhs } => Some(("Num"@, "num"@, "-"@, dst, lhs, rhs)),
        InstructionKind::MulNum { dst, lhs, rhs } => Some(("Num"@, "num"@, "*"@, dst, lhs, rhs)),
        InstructionKind::DivNum { dst, lhs, rhs } => Some(("Num"@, "num"@, "/"@, dst, lhs, rhs)),
        InstructionKind::EqNum { dst, lhs, rhs } => Some(("Bool"@, "num"@, "=="@, dst, lhs, rhs)),
        InstructionKind::NeNum { dst, lhs, rhs } => Some(("Bool"@, "num"@, "!="@, dst, lhs, rhs)),
        InstructionKind::GtNum { dst, lhs, rhs } => Some(("Bool"@, "num"@, ">"@, dst, lhs, rhs)),
        InstructionKind::LtNum { dst, lhs, rhs } => Some(("Bool"@, "num"@, "<"@, dst, lhs, rhs)),
        InstructionKind::GeNum { dst, lhs, rhs } => Some(("Bool"@, "num"@, ">="@, dst, lhs, rhs)),
        InstructionKind::LeNum { dst, lhs, rhs } => Some(("Bool"@, "num"@, "<="@, dst, lhs, rhs)),
        InstructionKind::EqString { dst, lhs, rhs } => Some(("Bool"@, "str"@, "=="@, dst, lhs, rhs)),
        InstructionKind::NeString { dst, lhs, rhs } => Some(("Bool"@, "str"@, "!="@, dst, lhs, rhs)),
        InstructionKind::EqBool { dst, lhs, rhs } => Some(("Bool"@, "bool"@, "=="@, dst, lhs, rhs)),
        InstructionKind::NeBool { dst, lhs, rhs } => Some(("Bool"@, "bool"@, "!="@, dst, lhs, rhs)),
        _ => None,
    }
}

/// One operand of an operator, read as a value of the reader's kind.
pub open spec fn operand_text(reader: Seq<char>, s: SlotId) -> Seq<char> {
    "__kiro_"@ + reader + "(&"@ + slot_text(s) + ")"@
}

proof fn lemma_operator_regroup(value: Seq<char>, reader: Seq<char>, op: Seq<char>, lhs: SlotId, rhs: SlotId)
    ensures
        "__KiroValue::"@ + value + "("@ + operand_text(reader, lhs) + " "@ + op + " "@ + operand_text(reader, rhs) + ")"@
            == ("__KiroValue::"@ + value + "("@ + "__kiro_"@ + reader + "(&"@) + slot_text(lhs)
                + (")"@ + " "@ + op + " "@ + "__kiro_"@ + reader + "(&"@) + slot_text(rhs) + (")"@ + ")"@),
{
    assert("__KiroValue::"@ + value + "("@ + operand_text(reader, lhs) + " "@ + op + " "@ + operand_text(reader, rhs) + ")"@
        =~= ("__KiroValue::"@ + value + "("@ + "__kiro_"@ + reader + "(&"@) + slot_text(lhs)
            + (")"@ + " "@ + op + " "@ + "__kiro_"@ + reader + "(&"@) + slot_text(rhs) + (")"@ + ")"@));
}

proof fn lemma_operator_pieces(value: &str, reader: &str, op: &str, head: &str, mid: &str)
    requires
        head@ =~= "__KiroValue::"@ + value@ + "("@ + "__kiro_"@ + reader@ + "(&"@,
        mid@ =~= ")"@ + " "@ + op@ + " "@ + "__kiro_"@ + reader@ + "(&"@,
    ensures
        head@ == "__KiroValue::"@ + value@ + "("@ + "__kiro_"@ + reader@ + "(&"@,
        mid@ == ")"@ + " "@ + op@ + " "@ + "__kiro_"@ + reader@ + "(&"@,
{
}

/// An arithmetic or comparison instruction becomes one assignment that applies its Rust
/// operator to its two operands, the left one first: `a >= b` reads `a` and `b` as numbers
/// and compares them with `>=`.
#[verifier::spinoff_prover]
pub proof fn lemma_operator_line(p: EirProgram, indirect: Seq<u32>, k: InstructionKind)
    requires
        operator_parts(k) is Some,
    ensures
        ({
            let (value, reader, op, dst, lhs, rhs) = operator_parts(k).unwrap();
            instruction_line(p, indirect, k) == assign_text(dst, "__KiroValue::"@ + value + "("@ + operand_text(reader, lhs) + " "@ + op
                + " "@ + operand_text(reader, rhs) + ")"@)
        }),
{
    let (value, reader, op, dst, lhs, rhs) = operator_parts(k).unwrap();
    lemma_operator_regroup(value, reader, op, lhs, rhs);
    assert(")"@ + ")"@ == "))"@) by {
        reveal_strlit(")");
        reveal_strlit("))");
        assert(")"@ + ")"@ =~= "))"@);
    }
    match k {
        InstructionKind::AddNum { .. } => {
            assert("__KiroValue::Num(__kiro_num(&"@ == "__KiroValue::"@ + "Num"@ + "("@ + "__kiro_"@ + "num"@ + "(&"@
                && ") + __kiro_num(&"@ == ")"@ + " "@ + "+"@ + " "@ + "__kiro_"@ + "num"@ + "(&"@) by {
                reveal_strlit("__KiroValue::");
                reveal_strlit("(");
                reveal_strlit("__kiro_");
                reveal_strlit("(&");
                reveal_strlit(")");
                reveal_strlit(" ");
                reveal_strlit("Num");
                reveal_strlit("num");
                reveal_strlit("+");
                reveal_strlit("__KiroValue::Num(__kiro_num(&");
                reveal_strlit(") + __kiro_num(&");
                lemma_operator_pieces("Num", "num", "+", "__KiroValue::Num(__kiro_num(&", ") + __kiro_num(&");
            }
        },
        InstructionKind::SubNum { .. } => {
            assert("__KiroValue::Num(__kiro_num(&"@ == "__KiroValue::"@ + "Num"@ + "("@ + "__kiro_"@ + "num"@ + "(&"@
                && ") - __kiro_num(&"@ == ")"@ + " "@ + "-"@ + " "@ + "__kiro_"@ + "num"@ + "(&"@) by {
                reveal_strlit("__KiroValue::");
                reveal_strlit("(");
                reveal_strlit("__kiro_");
                reveal_strlit("(&");
                reveal_strlit(")");
                reveal_strlit(" ");
                reveal_strlit("Num");
                reveal_strlit("num");
                reveal_strlit("-");
                reveal_strlit("__KiroValue::Num(__kiro_num(&");
                reveal_strlit(") - __kiro_num(&");
                lemma_operator_pieces("Num", "num", "-", "__KiroValue::Num(__kiro_num(&", ") - __kiro_num(&");
            }
        },
        InstructionKind::MulNum { .. } => {
            assert("__KiroValue::Num(__kiro_num(&"@ == "__KiroValue::"@ + "Num"@ + "("@ + "__kiro_"@ + "num"@ + "(&"@
                && ") * __kiro_num(&"@ == ")"@ + " "@ + "*"@ + " "@ + "__kiro_"@ + "num"@ + "(&"@) by {
                reveal_strlit("__KiroValue::");
                reveal_strlit("(");
                reveal_strlit("__kiro_");
                reveal_strlit("(&");
                reveal_strlit(")");
                reveal_strlit(" ");
                reveal_strlit("Num");
                reveal_strlit("num");
                reveal_strlit("*");
                reveal_strlit("__KiroValue::Num(__kiro_num(&");
                reveal_strlit(") * __kiro_num(&");
                lemma_operator_pieces("Num", "num", "*", "__KiroValue::Num(__kiro_num(&", ") * __kiro_num(&");
            }
        },
        InstructionKind::DivNum { .. } => {
            assert("__KiroValue::Num(__kiro_num(&"@ == "__KiroValue::"@ + "Num"@ + "("@ + "__kiro_"@ + "num"@ + "(&"@
                && ") / __kiro_num(&"@ == ")"@ + " "@ + "/"@ + " "@ + "__kiro_"@ + "num"@ + "(&"@) by {
                reveal_strlit("__KiroValue::");
                reveal_strlit("(");
                reveal_strlit("__kiro_");
                reveal_strlit("(&");
                reveal_strlit(")");
                reveal_strlit(" ");
                reveal_strlit("Num");
                reveal_strlit("num");
                reveal_strlit("/");
                reveal_strlit("__KiroValue::Num(__kiro_num(&");
                reveal_strlit(") / __kiro_num(&");
                lemma_operator_pieces("Num", "num", "/", "__KiroValue::Num(__kiro_num(&", ") / __kiro_num(&");
            }
        },
        InstructionKind::EqNum { .. } => {
            assert("__KiroValue::Bool(__kiro_num(&"@ == "__KiroValue::"@ + "Bool"@ + "("@ + "__kiro_"@ + "num"@ + "(&"@
                && ") == __kiro_num(&"@ == ")"@ + " "@ + "=="@ + " "@ + "__kiro_"@ + "num"@ + "(&"@) by {
                reveal_strlit("__KiroValue::");
                reveal_strlit("(");
                reveal_strlit("__kiro_");
                reveal_strlit("(&");
                reveal_strlit(")");
                reveal_strlit(" ");
                reveal_strlit("Bool");
                reveal_strlit("num");
                reveal_strlit("==");
                reveal_strlit("__KiroValue::Bool(__kiro_num(&");
                reveal_strlit(") == __kiro_num(&");
                lemma_operator_pieces("Bool", "num", "==", "__KiroValue::Bool(__kiro_num(&", ") == __kiro_num(&");
            }
        },
        InstructionKind::NeNum { .. } => {
            assert("__KiroValue::Bool(__kiro_num(&"@ == "__KiroValue::"@ + "Bool"@ + "("@ + "__kiro_"@ + "num"@ + "(&"@
                && ") != __kiro_num(&"@ == ")"@ + " "@ + "!="@ + " "@ + "__kiro_"@ + "num"@ + "(&"@) by {
                reveal_strlit("__KiroValue::");
                reveal_strlit("(");
                reveal_strlit("__kiro_");
                reveal_strlit("(&");
                reveal_strlit(")");
                reveal_strlit(" ");
                reveal_strlit("Bool");
                reveal_strlit("num");
                reveal_strlit("!=");
                reveal_strlit("__KiroValue::Bool(__kiro_num(&");
                reveal_strlit(") != __kiro_num(&");
                lemma_operator_pieces("Bool", "num", "!=", "__KiroValue::Bool(__kiro_num(&", ") != __kiro_num(&");
            }
        },
        InstructionKind::GtNum { .. } => {
            assert("__KiroValue::Bool(__kiro_num(&"@ == "__KiroValue::"@ + "Bool"@ + "("@ + "__kiro_"@ + "num"@ + "(&"@
                && ") > __kiro_num(&"@ == ")"@ + " "@ + ">"@ + " "@ + "__kiro_"@ + "num"@ + "(&"@) by {
                reveal_strlit("__KiroValue::");
                reveal_strlit("(");
                reveal_strlit("__kiro_");
                reveal_strlit("(&");
                reveal_strlit(")");
                reveal_strlit(" ");
                reveal_strlit("Bool");
                reveal_strlit("num");
                reveal_strlit(">");
                reveal_strlit("__KiroValue::Bool(__kiro_num(&");
                reveal_strlit(") > __kiro_num(&");
                lemma_operator_pieces("Bool", "num", ">", "__KiroValue::Bool(__kiro_num(&", ") > __kiro_num(&");
            }
        },
        InstructionKind::LtNum { .. } => {
            assert("__KiroValue::Bool(__kiro_num(&"@ == "__KiroValue::"@ + "Bool"@ + "("@ + "__kiro_"@ + "num"@ + "(&"@
                && ") < __kiro_num(&"@ == ")"@ + " "@ + "<"@ + " "@ + "__kiro_"@ + "num"@ + "(&"@) by {
                reveal_strlit("__KiroValue::");
                reveal_strlit("(");
                reveal_strlit("__kiro_");
                reveal_strlit("(&");
                reveal_strlit(")");
                reveal_strlit(" ");
                reveal_strlit("Bool");
                reveal_strlit("num");
                reveal_strlit("<");
                reveal_strlit("__KiroValue::Bool(__kiro_num(&");
                reveal_strlit(") < __kiro_num(&");
                lemma_operator_pieces("Bool", "num", "<", "__KiroValue::Bool(__kiro_num(&", ") < __kiro_num(&");
            }
        },
        InstructionKind::GeNum { .. } => {
            assert("__KiroValue::Bool(__kiro_num(&"@ == "__KiroValue::"@ + "Bool"@ + "("@ + "__kiro_"@ + "num"@ + "(&"@
                && ") >= __kiro_num(&"@ == ")"@ + " "@ + ">="@ + " "@ + "__kiro_"@ + "num"@ + "(&"@) by {
                reveal_strlit("__KiroValue::");
                reveal_strlit("(");
                reveal_strlit("__kiro_");
                reveal_strlit("(&");
                reveal_strlit(")");
                reveal_strlit(" ");
                reveal_strlit("Bool");
                reveal_strlit("num");
                reveal_strlit(">=");
                reveal_strlit("__KiroValue::Bool(__kiro_num(&");
                reveal_strlit(") >= __kiro_num(&");
                lemma_operator_pieces("Bool", "num", ">=", "__KiroValue::Bool(__kiro_num(&", ") >= __kiro_num(&");
            }
        },
        InstructionKind::LeNum { .. } => {
            assert("__KiroValue::Bool(__kiro_num(&"@ == "__KiroValue::"@ + "Bool"@ + "("@ + "__kiro_"@ + "num"@ + "(&"@
                && ") <= __kiro_num(&"@ == ")"@ + " "@ + "<="@ + " "@ + "__kiro_"@ + "num"@ + "(&"@) by {
                reveal_strlit("__KiroValue::");
                reveal_strlit("(");
                reveal_strlit("__kiro_");
                reveal_strlit("(&");
                reveal_strlit(")");
                reveal_strlit(" ");
                reveal_strlit("Bool");
                reveal_strlit("num");
                reveal_strlit("<=");
                reveal_strlit("__KiroValue::Bool(__kiro_num(&");
                reveal_strlit(") <= __kiro_num(&");
                lemma_operator_pieces("Bool", "num", "<=", "__KiroValue::Bool(__kiro_num(&", ") <= __kiro_num(&");
            }
        },
        InstructionKind::EqString { .. } => {
            assert("__KiroValue::Bool(__kiro_str(&"@ == "__KiroValue::"@ + "Bool"@ + "("@ + "__kiro_"@ + "str"@ + "(&"@
                && ") == __kiro_str(&"@ == ")"@ + " "@ + "=="@ + " "@ + "__kiro_"@ + "str"@ + "(&"@) by {
                reveal_strlit("__KiroValue::");
                reveal_strlit("(");
                reveal_strlit("__kiro_");
                reveal_strlit("(&");
                reveal_strlit(")");
                reveal_strlit(" ");
                reveal_strlit("Bool");
                reveal_strlit("str");
                reveal_strlit("==");
                reveal_strlit("__KiroValue::Bool(__kiro_str(&");
                reveal_strlit(") == __kiro_str(&");
                lemma_operator_pieces("Bool", "str", "==", "__KiroValue::Bool(__kiro_str(&", ") == __kiro_str(&");
            }
        },
        InstructionKind::NeString { .. } => {
            assert("__KiroValue::Bool(__kiro_str(&"@ == "__KiroValue::"@ + "Bool"@ + "("@ + "__kiro_"@ + "str"@ + "(&"@
                && ") != __kiro_str(&"@ == ")"@ + " "@ + "!="@ + " "@ + "__kiro_"@ + "str"@ + "(&"@) by {
                reveal_strlit("__KiroValue::");
                reveal_strlit("(");
                reveal_strlit("__kiro_");
                reveal_strlit("(&");
                reveal_strlit(")");
                reveal_strlit(" ");
                reveal_strlit("Bool");
                reveal_strlit("str");
                reveal_strlit("!=");
                reveal_strlit("__KiroValue::Bool(__kiro_str(&");
                reveal_strlit(") != __kiro_str(&");
                lemma_operator_pieces("Bool", "str", "!=", "__KiroValue::Bool(__kiro_str(&", ") != __kiro_str(&");
            }
        },
        InstructionKind::EqBool { .. } => {
            assert("__KiroValue::Bool(__kiro_bool(&"@ == "__KiroValue::"@ + "Bool"@ + "("@ + "__kiro_"@ + "bool"@ + "(&"@
                && ") == __kiro_bool(&"@ == ")"@ + " "@ + "=="@ + " "@ + "__kiro_"@ + "bool"@ + "(&"@) by {
                reveal_strlit("__KiroValue::");
                reveal_strlit("(");
                reveal_strlit("__kiro_");
                reveal_strlit("(&");
                reveal_strlit(")");
                reveal_strlit(" ");
                reveal_strlit("Bool");
                reveal_strlit("bool");
                reveal_strlit("==");
                reveal_strlit("__KiroValue::Bool(__kiro_bool(&");
                reveal_strlit(") == __kiro_bool(&");
                lemma_operator_pieces("Bool", "bool", "==", "__KiroValue::Bool(__kiro_bool(&", ") == __kiro_bool(&");
            }
        },
        InstructionKind::NeBool { .. } => {
            assert("__KiroValue::Bool(__kiro_bool(&"@ == "__KiroValue::"@ + "Bool"@ + "("@ + "__kiro_"@ + "bool"@ + "(&"@
                && ") != __kiro_bool(&"@ == ")"@ + " "@ + "!="@ + " "@ + "__kiro_"@ + "bool"@ + "(&"@) by {
                reveal_strlit("__KiroValue::");
                reveal_strlit("(");
                reveal_strlit("__kiro_");
                reveal_strlit("(&");
                reveal_strlit(")");
                reveal_strlit(" ");
                reveal_strlit("Bool");
                reveal_strlit("bool");
                reveal_strlit("!=");
                reveal_strlit("__KiroValue::Bool(__kiro_bool(&");
                reveal_strlit(") != __kiro_bool(&");
                lemma_operator_pieces("Bool", "bool", "!=", "__KiroValue::Bool(__kiro_bool(&", ") != __kiro_bool(&");
            }
        },
        _ => {},
    }
}

/// Joining two strings formats the left operand's text first and the right operand's second.
pub proof fn lemma_concat_line(p: EirProgram, indirect: Seq<u32>, dst: SlotId, lhs: SlotId, rhs: SlotId)
    ensures
        instruction_line(p, indirect, InstructionKind::ConcatString { dst, lhs, rhs })
            == assign_text(dst, "__KiroValue::Str(format!(\"{}{}\", "@ + operand_text("str"@, lhs) + ", "@ + operand_text("str"@, rhs) + ")"@
                + ")"@),
{
    let head = "__KiroValue::Str(format!(\"{}{}\", "@;
    assert("__KiroValue::Str(format!(\"{}{}\", __kiro_str(&"@ == head + "__kiro_"@ + "str"@ + "(&"@
        && "), __kiro_str(&"@ == ")"@ + ", "@ + "__kiro_"@ + "str"@ + "(&"@
        && ")))"@ == ")"@ + ")"@ + ")"@) by {
        reveal_strlit("__KiroValue::Str(format!(\"{}{}\", ");
        reveal_strlit("__kiro_");
        reveal_strlit("str");
        reveal_strlit("(&");
        reveal_strlit(")");
        reveal_strlit(", ");
        reveal_strlit("__KiroValue::Str(format!(\"{}{}\", __kiro_str(&");
        reveal_strlit("), __kiro_str(&");
        reveal_strlit(")))");
        assert("__KiroValue::Str(format!(\"{}{}\", __kiro_str(&"@ =~= head + "__kiro_"@ + "str"@ + "(&"@);
        assert("), __kiro_str(&"@ =~= ")"@ + ", "@ + "__kiro_"@ + "str"@ + "(&"@);
        assert(")))"@ =~= ")"@ + ")"@ + ")"@);
    }
    assert(head + operand_text("str"@, lhs) + ", "@ + operand_text("str"@, rhs) + ")"@ + ")"@
        =~= (head + "__kiro_"@ + "str"@ + "(&"@) + slot_text(lhs) + (")"@ + ", "@ + "__kiro_"@ + "str"@ + "(&"@) + slot_text(rhs)
            + (")"@ + ")"@ + ")"@));
}

fn instruction_line_exec(p: &EirProgram, indirect: &Vec<u32>, k: &InstructionKind) -> (r: String)
    requires
        instruction_emittable(*p, *k),
    ensures
        r@ == instruction_line(*p, indirect@, *k),
{
    match k {
        InstructionKind::Const { dst, constant } => const_line_exec(p, *dst, *constant),
        InstructionKind::Check { condition, message } => check_line_exec(p, *condition, *message),
        InstructionKind::MakeMap { dst, entries } => make_map_line_exec(*dst, entries),
        InstructionKind::MakeStruct { dst, structure, fields } => make_struct_line_exec(*dst, *structure, fields),
        InstructionKind::CallDirect { dst, function, args } => call_direct_line_exec(*dst, *function, args),
        InstructionKind::CallHost { dst, function, args } => call_host_line_exec(p, *dst, *function, args),
        InstructionKind::CallIndirect { dst, callee, args } => call_indirect_line_exec(p, indirect, *dst, *callee, args),
        InstructionKind::MakePipe { dst, capacity } => make_pipe_line_exec(*dst, *capacity),
        InstructionKind::Copy { dst, src } => copy_line_exec(*dst, *src),
        InstructionKind::Move { dst, src } => move_line_exec(*dst, *src),
        InstructionKind::LoadGlobal { dst, global } => load_global_line_exec(*dst, *global),
        InstructionKind::MoveGlobal { dst, global } => move_global_line_exec(*dst, *global),
        InstructionKind::StoreGlobal { global, src } => store_global_line_exec(*global, *src),
        InstructionKind::MakeError { dst, error } => make_error_line_exec(*dst, *error),
        InstructionKind::IsError { dst, value } => is_error_line_exec(*dst, *value),
        InstructionKind::ErrorMatches { dst, value, error } => error_matches_line_exec(*dst, *value, *error),
        InstructionKind::IsTruthy { dst, value } => is_truthy_line_exec(*dst, *value),
        InstructionKind::MakeFunction { dst, function } => make_function_line_exec(*dst, *function),
        InstructionKind::MakeHostFunction { dst, function } => make_host_function_line_exec(*dst, *function),
        InstructionKind::MakeAddress { dst } => make_address_line_exec(*dst),
        InstructionKind::MakeRef { dst, value } => make_ref_line_exec(*dst, *value),
        InstructionKind::Deref { dst, address } => deref_line_exec(*dst, *address),
        InstructionKind::StoreDeref { address, src } => store_deref_line_exec(*address, *src),
        InstructionKind::MakeList { dst, items } => make_list_line_exec(*dst, items),
        InstructionKind::ListJoin { dst, left, right } => list_join_line_exec(*dst, *left, *right),
        InstructionKind::ListSlice { dst, list, start, end } => list_slice_line_exec(*dst, *list, *start, *end),
        InstructionKind::ListReverse { dst, list } => list_reverse_line_exec(*dst, *list),
        InstructionKind::MapHas { dst, map, key } => map_has_line_exec(*dst, *map, *key),
        InstructionKind::MapSet { dst, map, key, value } => map_set_line_exec(*dst, *map, *key, *value),
        InstructionKind::MapDelete { dst, map, key } => map_delete_line_exec(*dst, *map, *key),
        InstructionKind::GetField { dst, target, field } => get_field_line_exec(*dst, *target, *field),
        InstructionKind::SetField { target, fields, src } => set_field_line_exec(*target, fields, *src),
        InstructionKind::GetIndex { dst, collection, key } => get_index_line_exec(*dst, *collection, *key),
        InstructionKind::Push { collection, value } => push_line_exec(*collection, *value),
        InstructionKind::Len { dst, collection } => len_line_exec(*dst, *collection),
        InstructionKind::MakeRange { dst, start, end } => make_range_line_exec(*dst, *start, *end),
        InstructionKind::IterInit { dst, iterable } => iter_init_line_exec(*dst, *iterable),
        InstructionKind::IterHasNext { dst, iterable, index } => iter_has_next_line_exec(*dst, *iterable, *index),
        InstructionKind::IterGet { dst, iterable, index } => iter_get_line_exec(*dst, *iterable, *index),
        InstructionKind::ConcatString { dst, lhs, rhs } => concat_string_line_exec(*dst, *lhs, *rhs),
        InstructionKind::Give { channel, value } => give_line_exec(*channel, *value),
        InstructionKind::Take { dst, channel } => take_line_exec(*dst, *channel),
        InstructionKind::Close { channel } => close_line_exec(*channel),
        InstructionKind::Rest => rest_line_exec(),
        InstructionKind::Spawn { function, args } => spawn_line_exec(*function, args),
        InstructionKind::AddNum { dst, lhs, rhs } => add_num_line_exec(*dst, *lhs, *rhs),
        InstructionKind::SubNum { dst, lhs, rhs } => sub_num_line_exec(*dst, *lhs, *rhs),
        InstructionKind::MulNum { dst, lhs, rhs } => mul_num_line_exec(*dst, *lhs, *rhs),
        InstructionKind::DivNum { dst, lhs, rhs } => div_num_line_exec(*dst, *lhs, *rhs),
        InstructionKind::EqNum { dst, lhs, rhs } => eq_num_line_exec(*dst, *lhs, *rhs),
        InstructionKind::NeNum { dst, lhs, rhs } => ne_num_line_exec(*dst, *lhs, *rhs),
        InstructionKind::GtNum { dst, lhs, rhs } => gt_num_line_exec(*dst, *lhs, *rhs),
        InstructionKind::LtNum { dst, lhs, rhs } => lt_num_line_exec(*dst, *lhs, *rhs),
        InstructionKind::GeNum { dst, lhs, rhs } => ge_num_line_exec(*dst, *lhs, *rhs),
        InstructionKind::LeNum { dst, lhs, rhs } => le_num_line_exec(*dst, *lhs, *rhs),
        InstructionKind::EqString { dst, lhs, rhs } => eq_string_line_exec(*dst, *lhs, *rhs),
        InstructionKind::NeString { dst, lhs, rhs } => ne_string_line_exec(*dst, *lhs, *rhs),
        InstructionKind::EqBool { dst, lhs, rhs } => eq_bool_line_exec(*dst, *lhs, *rhs),
        InstructionKind::NeBool { dst, lhs, rhs } => ne_bool_line_exec(*dst, *lhs, *rhs),
    }
}

/// Appends the statement for one instruction, indented into its block's arm.
pub fn compile_instruction(
    program: &EirProgram,
    instruction: &InstructionKind,
    indirect_host_functions: &Vec<u32>,
    output: &mut String,
) -> (r: Result<(), EirCodegenError>)
    requires
        instruction_emittable(*program, *instruction),
    ensures
        r is Ok,
        final(output)@ == old(output)@ + "                    "@ + instruction_line(*program, indirect_host_functions@, *instruction) + "\n"@,
{
    let line = instruction_line_exec(program, indirect_host_functions, instruction);
    push_str(output, "                    ");
    push_str(output, line.as_str());
    push_str(output, "\n");
    Ok(())
}

/// The Rust statement that ends a block.
pub open spec fn terminator_line(t: TerminatorKind) -> Seq<char> {
    match t {
        TerminatorKind::Jump(b) => "__block = "@ + decimal(b.0 as nat) + "; continue;"@,
        TerminatorKind::Branch { condition, then_block, else_block } => "__block = if __kiro_bool(&"@ + slot_text(condition)
            + ") { "@ + decimal(then_block.0 as nat) + " } else { "@ + decimal(else_block.0 as nat) + " }; continue;"@,
        TerminatorKind::Return(Some(v)) => "return "@ + take_text(v) + ";"@,
        TerminatorKind::Return(None) => "return __KiroValue::Void;"@,
        TerminatorKind::Unreachable => "panic!(\"reached verified unreachable EIR\");"@,
        TerminatorKind::Throw(v) => "panic!(\"uncaught Kiro error: {:?}\", "@ + take_text(v) + ");"@,
    }
}

/// Appends the statement that ends a block.
pub fn compile_terminator(terminator: &TerminatorKind, output: &mut String) -> (r: Result<(), EirCodegenError>)
    ensures
        r is Ok,
        final(output)@ == old(output)@ + "                    "@ + terminator_line(*terminator) + "\n"@,
{
    let mut line = String::new();
    match terminator {
        TerminatorKind::Jump(b) => {
            push_str(&mut line, "__block = ");
            push_decimal(&mut line, b.0 as u64);
            push_str(&mut line, "; continue;");
        },
        TerminatorKind::Branch { condition, then_block, else_block } => {
            push_str(&mut line, "__block = if __kiro_bool(&");
            push_slot(&mut line, *condition);
            push_str(&mut line, ") { ");
            push_decimal(&mut line, then_block.0 as u64);
            push_str(&mut line, " } else { ");
            push_decimal(&mut line, else_block.0 as u64);
            push_str(&mut line, " }; continue;");
        },
        TerminatorKind::Return(Some(v)) => {
            push_str(&mut line, "return ");
            push_take(&mut line, *v);
            push_str(&mut line, ";");
        },
        TerminatorKind::Return(None) => {
            push_str(&mut line, "return __KiroValue::Void;");
        },
        TerminatorKind::Unreachable => {
            push_str(&mut line, "panic!(\"reached verified unreachable EIR\");");
        },
        TerminatorKind::Throw(v) => {
            push_str(&mut line, "panic!(\"uncaught Kiro error: {:?}\", ");
            push_take(&mut line, *v);
            push_str(&mut line, ");");
        },
    }
    proof {
        assert(line@ =~= terminator_line(*terminator));
    }
    push_str(output, "                    ");
    push_str(output, line.as_str());
    push_str(output, "\n");
    Ok(())
}

/// Each instruction's statement, indented, on a line of its own.
pub open spec fn instruction_lines(p: EirProgram, indirect: Seq<u32>, s: Seq<crate::eir::Instruction>) -> Seq<Seq<char>> {
    Seq::new(s.len(), |j: int| "                    "@ + instruction_line(p, indirect, s[j].kind) + "\n"@)
}

/// The match arm of the block with number `index`.
pub open spec fn block_text(p: EirProgram, indirect: Seq<u32>, b: crate::eir::BasicBlock, index: int) -> Seq<char> {
    "                "@ + decimal(index as nat) + " => {\n"@
        + join_with(instruction_lines(p, indirect, b.instructions@), Seq::empty())
        + "                    "@ + terminator_line(b.terminator.kind) + "\n"@
        + "                }\n"@
}

pub open spec fn block_texts(p: EirProgram, indirect: Seq<u32>, bs: Seq<crate::eir::BasicBlock>) -> Seq<Seq<char>> {
    Seq::new(bs.len(), |i: int| block_text(p, indirect, bs[i], i))
}

/// The async Rust function for an EIR function: its slots, its arguments copied into
/// the first slots, and a loop over a `match` on the current block.
pub open spec fn function_text(p: EirProgram, indirect: Seq<u32>, f: EirFunction) -> Seq<char> {
    "fn __kiro_eir_f"@ + decimal(f.id.0 as nat) + "(__args: Vec<__KiroValue>, __globals: __KiroGlobals) -> __KiroFuture {\n"@
        + "    Box::pin(async move {\n"@
        + "        let mut __slots: Vec<Option<__KiroValue>> = vec![None; "@ + decimal(f.slots@.len()) + "];\n"@
        + "        for (__slot, __arg) in __slots.iter_mut().take("@ + decimal(f.parameter_count as nat) + ").zip(__args) { *__slot = Some(__arg); }\n"@
        + "        let mut __block: u32 = 0;\n        loop {\n            match __block {\n"@
        + join_with(block_texts(p, indirect, f.blocks@), Seq::empty())
        + "                _ => panic!(\"invalid verified EIR block {__block}\"),\n"@
        + "            }\n        }\n    })\n}\n\n"@
}

/// Every instruction of a function can be emitted.
pub open spec fn function_emittable(p: EirProgram, f: EirFunction) -> bool {
    forall|b: int, i: int| 0 <= b < f.blocks@.len() && 0 <= i < f.blocks@[b].instructions@.len()
        ==> instruction_emittable(p, #[trigger] f.blocks@[b].instructions@[i].kind)
}

fn compile_block(
    program: &EirProgram,
    block: &crate::eir::BasicBlock,
    index: usize,
    indirect_host_functions: &Vec<u32>,
    output: &mut String,
)
    requires
        forall|i: int| 0 <= i < block.instructions@.len() ==> instruction_emittable(*program, #[trigger] block.instructions@[i].kind),
    ensures
        final(output)@ == old(output)@ + block_text(*program, indirect_host_functions@, *block, index as int),
{
    push_str(output, "                ");
    push_decimal(output, index as u64);
    push_str(output, " => {\n");
    let ghost start = output@;
    let mut i: usize = 0;
    while i < block.instructions.len()
        invariant
            i <= block.instructions@.len(),
            forall|j: int| 0 <= j < block.instructions@.len() ==> instruction_emittable(*program, #[trigger] block.instructions@[j].kind),
            output@ == start + join_with(instruction_lines(*program, indirect_host_functions@, block.instructions@.subrange(0, i as int)), Seq::empty()),
        decreases block.instructions.len() - i,
    {
        let ghost piece = "                    "@ + instruction_line(*program, indirect_host_functions@, block.instructions@[i as int].kind) + "\n"@;
        proof {
            assert(instruction_lines(*program, indirect_host_functions@, block.instructions@.subrange(0, i + 1))
                =~= instruction_lines(*program, indirect_host_functions@, block.instructions@.subrange(0, i as int)).push(piece));
            lemma_join_push(instruction_lines(*program, indirect_host_functions@, block.instructions@.subrange(0, i as int)), Seq::empty(), piece);
        }
        let ghost mid = output@;
        let _ = compile_instruction(program, &block.instructions[i].kind, indirect_host_functions, output);
        proof {
            assert(output@ =~= mid + piece);
            if i > 0 {
                assert(output@ =~= start + join_with(instruction_lines(*program, indirect_host_functions@, block.instructions@.subrange(0, i as int)), Seq::empty()) + Seq::empty() + piece);
            }
        }
        i = i + 1;
    }
    proof {
        assert(block.instructions@.subrange(0, block.instructions@.len() as int) =~= block.instructions@);
    }
    let ghost before_term = output@;
    let _ = compile_terminator(&block.terminator.kind, output);
    push_str(output, "                }\n");
    proof {
        assert(output@ =~= old(output)@ + block_text(*program, indirect_host_functions@, *block, index as int));
    }
}

/// Appends the async Rust function for one EIR function.
#[verifier::spinoff_prover]
#[verifier::rlimit(40)]
pub fn compile_function(
    program: &EirProgram,
    function: &EirFunction,
    indirect_host_functions: &Vec<u32>,
    output: &mut String,
) -> (r: Result<(), EirCodegenError>)
    requires
        function_emittable(*program, *function),
    ensures
        r is Ok,
        final(output)@ == old(output)@ + function_text(*program, indirect_host_functions@, *function),
{
    push_str(output, "fn __kiro_eir_f");
    push_decimal(output, function.id.0 as u64);
    push_str(output, "(__args: Vec<__KiroValue>, __globals: __KiroGlobals) -> __KiroFuture {\n");
    push_str(output, "    Box::pin(async move {\n");
    push_str(output, "        let mut __slots: Vec<Option<__KiroValue>> = vec![None; ");
    push_decimal(output, function.slots.len() as u64);
    push_str(output, "];\n");
    push_str(output, "        for (__slot, __arg) in __slots.iter_mut().take(");
    push_decimal(output, function.parameter_count as u64);
    push_str(output, ").zip(__args) { *__slot = Some(__arg); }\n");
    push_str(output, "        let mut __block: u32 = 0;\n        loop {\n            match __block {\n");
    let ghost start = output@;
    let mut b: usize = 0;
    while b < function.blocks.len()
        invariant
            b <= function.blocks@.len(),
            function_emittable(*program, *function),
            output@ == start + join_with(block_texts(*program, indirect_host_functions@, function.blocks@.subrange(0, b as int)), Seq::empty()),
        decreases function.blocks.len() - b,
    {
        let ghost piece = block_text(*program, indirect_host_functions@, function.blocks@[b as int], b as int);
        proof {
            assert(block_texts(*program, indirect_host_functions@, function.blocks@.subrange(0, b + 1))
                =~= block_texts(*program, indirect_host_functions@, function.blocks@.subrange(0, b as int)).push(piece));
            lemma_join_push(block_texts(*program, indirect_host_functions@, function.blocks@.subrange(0, b as int)), Seq::empty(), piece);
            assert forall|i: int| 0 <= i < function.blocks@[b as int].instructions@.len() implies
                instruction_emittable(*program, #[trigger] function.blocks@[b as int].instructions@[i].kind) by {
                assert(instruction_emittable(*program, function.blocks@[b as int].instructions@[i].kind));
            }
        }
        let ghost mid = output@;
        compile_block(program, &function.blocks[b], b, indirect_host_functions, output);
        proof {
            assert(output@ =~= mid + piece);
            if b > 0 {
                assert(output@ =~= start + join_with(block_texts(*program, indirect_host_functions@, function.blocks@.subrange(0, b as int)), Seq::empty()) + Seq::empty() + piece);
            }
        }
        b = b + 1;
    }
    proof {
        assert(function.blocks@.subrange(0, function.blocks@.len() as int) =~= function.blocks@);
    }
    push_str(output, "                _ => panic!(\"invalid verified EIR block {__block}\"),\n");
    push_str(output, "            }\n        }\n    })\n}\n\n");
    proof {
        assert(output@ =~= old(output)@ + function_text(*program, indirect_host_functions@, *function));
    }
    Ok(())
}

/// The start of the generated program: imports and the first variants of the value enum.
pub const PRELUDE_VALUE_ENUM: &'static str = r#"#![allow(unused)]
mod header;
pub use kiro_runtime::*;
use std::future::Future;
use std::collections::HashMap;
use std::pin::Pin;
use std::sync::{Arc, Mutex};

#[derive(Clone, Debug)]
enum __KiroValue {
    Num(f64),
    Str(String),
    Bytes(Arc<[u8]>),
    Bool(bool),
    Range(i64, i64),
    Void,
    List(Vec<__KiroValue>),
    Map(HashMap<String, __KiroValue>),
    Struct(u32, HashMap<u32, __KiroValue>),
    Error(u32),
    Address(Arc<Mutex<Option<__KiroValue>>>),
    Function { host: bool, id: u32 },
"#;

/// The last variant of the value enum.
pub const PRELUDE_VALUE_ENUM_END: &'static str = r#"    Host(RuntimeVal),
}

"#;

/// The channel pair that a pipe value holds.
pub const PRELUDE_PIPE_STRUCT: &'static str = r#"#[derive(Clone, Debug)]
struct __KiroPipe {
    sender: async_channel::Sender<__KiroValue>,
    receiver: async_channel::Receiver<__KiroValue>,
    rendezvous_ack_sender: Option<async_channel::Sender<()>>,
    rendezvous_ack_receiver: Option<async_channel::Receiver<()>>,
}

"#;

/// The global state, and the helpers that read values as numbers, booleans, strings and text.
pub const PRELUDE_HELPERS: &'static str = r#"
type __KiroGlobals = Arc<Mutex<Vec<Option<__KiroValue>>>>;
type __KiroFuture = Pin<Box<dyn Future<Output = __KiroValue> + Send>>;

fn __kiro_num(value: &__KiroValue) -> f64 {
    match value { __KiroValue::Num(value) => *value, other => panic!("expected num, got {other:?}") }
}
fn __kiro_bool(value: &__KiroValue) -> bool {
    match value { __KiroValue::Bool(value) => *value, other => panic!("expected bool, got {other:?}") }
}
fn __kiro_str(value: &__KiroValue) -> &str {
    match value { __KiroValue::Str(value) => value, other => panic!("expected str, got {other:?}") }
}
fn __kiro_truthy(value: &__KiroValue) -> bool {
    match value {
        __KiroValue::Num(value) => *value != 0.0,
        __KiroValue::Str(value) => !value.is_empty(),
        __KiroValue::Bytes(value) => !value.is_empty(),
        __KiroValue::Bool(value) => *value,
        __KiroValue::Void => false,
        _ => true,
    }
}
fn __kiro_display(value: &__KiroValue) -> String {
    match value {
        __KiroValue::Num(value) => value.to_string(),
        __KiroValue::Str(value) => value.clone(),
        __KiroValue::Bytes(value) => format!("<Bytes len={}>", value.len()),
        __KiroValue::Bool(value) => value.to_string(),
        __KiroValue::Range(start, end) => format!("{start}..{end}"),
        __KiroValue::Void => "void".to_string(),
        __KiroValue::List(values) => format!("<List len={}>", values.len()),
        __KiroValue::Map(values) => format!("<Map len={}>", values.len()),
        __KiroValue::Struct(structure, _) => format!("<Struct struct{structure}>") ,
        __KiroValue::Error(error) => format!("Error(error{error}): "),
        __KiroValue::Address(_) => "<Pointer>".to_string(),
        __KiroValue::Function { host, id } => {
            let prefix = if *host { "h" } else { "f" };
            format!("<FnRef {prefix}{id}>")
        }
"#;

/// The rest of the display helper, and the conversions of values to and from host values.
pub const PRELUDE_HOST_HELPERS: &'static str = r#"
        __KiroValue::Host(RuntimeVal::Handle(handle)) => handle.to_string(),
        __KiroValue::Host(other) => format!("{other:?}"),
    }
}
fn __kiro_map_key(value: &__KiroValue) -> String { __kiro_display(value) }
fn __kiro_to_host(value: &__KiroValue) -> RuntimeVal {
    match value {
        __KiroValue::Num(value) => RuntimeVal::Num(*value),
        __KiroValue::Str(value) => RuntimeVal::Str(value.clone()),
        __KiroValue::Bytes(value) => RuntimeVal::Bytes(value.clone()),
        __KiroValue::Bool(value) => RuntimeVal::Bool(*value),
        __KiroValue::Void => RuntimeVal::Void,
        __KiroValue::List(values) => RuntimeVal::List(values.iter().map(__kiro_to_host).collect()),
        __KiroValue::Map(values) => RuntimeVal::Map(values.iter().map(|(key, value)| (key.clone(), __kiro_to_host(value))).collect()),
        __KiroValue::Host(value) => value.clone(),
        other => panic!("cannot pass EIR value to host: {other:?}"),
    }
}
fn __kiro_from_host(value: RuntimeVal) -> __KiroValue {
    match value {
        RuntimeVal::Num(value) => __KiroValue::Num(value),
        RuntimeVal::Str(value) => __KiroValue::Str(value),
        RuntimeVal::Bytes(value) => __KiroValue::Bytes(value),
        RuntimeVal::Bool(value) => __KiroValue::Bool(value),
        RuntimeVal::Void => __KiroValue::Void,
        RuntimeVal::List(values) => __KiroValue::List(values.into_iter().map(__kiro_from_host).collect()),
        RuntimeVal::Map(values) => __KiroValue::Map(values.into_iter().map(|(key, value)| (key, __kiro_from_host(value))).collect()),
        value @ RuntimeVal::Struct { .. } => __KiroValue::Host(value),
        value @ RuntimeVal::Handle(_) => __KiroValue::Host(value),
    }
}
fn __kiro_set_field(target: &mut __KiroValue, path: &[u32], value: __KiroValue) {
    let (field, rest) = path.split_first().expect("verified field path");
    let __KiroValue::Struct(_, fields) = target else { panic!("expected struct") };
    let target = fields.get_mut(field).expect("verified struct field");
    if rest.is_empty() { *target = value; } else { __kiro_set_field(target, rest, value); }
}

"#;

/// A line of the enum or of the display helper that exists only for programs with pipes.
pub const PIPE_VARIANT: &'static str = "    Pipe(__KiroPipe),\n";
pub const PIPE_DISPLAY: &'static str = "        __KiroValue::Pipe(_) => \"<Pipe>\".to_string(),\n";
pub const HOST_ERROR_HEAD: &'static str = "fn __kiro_from_host_error(error: KiroError) -> __KiroValue {\n    match error.name.as_str() {\n";
pub const HOST_ERROR_TAIL: &'static str = "        _ => kiro_runtime_error(\"KIRO3007\", &format!(\"Host function failed: {error}\")),\n    }\n}\n\n";

/// Whether an instruction works on pipes.
pub open spec fn is_pipe_instruction(k: InstructionKind) -> bool {
    k is MakePipe || k is Give || k is Take || k is Close
}

/// Some instruction of some block of some function works on pipes.
pub open spec fn spec_uses_pipes(p: EirProgram) -> bool {
    exists|f: int, b: int, i: int|
        0 <= f < p.functions@.len() && 0 <= b < p.functions@[f].blocks@.len()
        && 0 <= i < p.functions@[f].blocks@[b].instructions@.len()
        && is_pipe_instruction(#[trigger] p.functions@[f].blocks@[b].instructions@[i].kind)
}

/// Whether the program makes, sends on, takes from or closes a pipe.
pub fn program_uses_pipes(program: &EirProgram) -> (r: bool)
    ensures
        r == spec_uses_pipes(*program),
{
    let mut f: usize = 0;
    while f < program.functions.len()
        invariant
            f <= program.functions@.len(),
            forall|f2: int, b: int, i: int|
                0 <= f2 < f && 0 <= b < program.functions@[f2].blocks@.len()
                && 0 <= i < program.functions@[f2].blocks@[b].instructions@.len()
                ==> !is_pipe_instruction(#[trigger] program.functions@[f2].blocks@[b].instructions@[i].kind),
        decreases program.functions.len() - f,
    {
        let function = &program.functions[f];
        let mut b: usize = 0;
        while b < function.blocks.len()
            invariant
                f < program.functions@.len(),
                *function == program.functions@[f as int],
                b <= function.blocks@.len(),
                forall|f2: int, b2: int, i: int|
                    0 <= f2 < f && 0 <= b2 < program.functions@[f2].blocks@.len()
                    && 0 <= i < program.functions@[f2].blocks@[b2].instructions@.len()
                    ==> !is_pipe_instruction(#[trigger] program.functions@[f2].blocks@[b2].instructions@[i].kind),
                forall|b2: int, i: int| 0 <= b2 < b && 0 <= i < function.blocks@[b2].instructions@.len()
                    ==> !is_pipe_instruction(#[trigger] function.blocks@[b2].instructions@[i].kind),
            decreases function.blocks.len() - b,
        {
            let block = &function.blocks[b];
            let mut i: usize = 0;
            while i < block.instructions.len()
                invariant
                    f < program.functions@.len(),
                    *function == program.functions@[f as int],
                    b < function.blocks@.len(),
                    *block == function.blocks@[b as int],
                    i <= block.instructions@.len(),
                    forall|j: int| 0 <= j < i ==> !is_pipe_instruction(#[trigger] block.instructions@[j].kind),
                decreases block.instructions.len() - i,
            {
                match &block.instructions[i].kind {
                    InstructionKind::MakePipe { .. } | InstructionKind::Give { .. }
                    | InstructionKind::Take { .. } | InstructionKind::Close { .. } => {
                        return true;
                    },
                    _ => {},
                }
                i = i + 1;
            }
            b = b + 1;
        }
        f = f + 1;
    }
    false
}

/// The host functions taken as values by the instructions of a list, in order.
pub open spec fn host_refs_in_instructions(s: Seq<crate::eir::Instruction>) -> Seq<u32>
    decreases s.len(),
{
    if s.len() == 0 {
        Seq::empty()
    } else {
        let rest = host_refs_in_instructions(s.drop_last());
        match s.last().kind {
            InstructionKind::MakeHostFunction { function, .. } => rest.push(function.0),
            _ => rest,
        }
    }
}

pub open spec fn host_refs_in_blocks(s: Seq<crate::eir::BasicBlock>) -> Seq<u32>
    decreases s.len(),
{
    if s.len() == 0 {
        Seq::empty()
    } else {
        host_refs_in_blocks(s.drop_last()) + host_refs_in_instructions(s.last().instructions@)
    }
}

pub open spec fn host_refs_in_functions(s: Seq<EirFunction>) -> Seq<u32>
    decreases s.len(),
{
    if s.len() == 0 {
        Seq::empty()
    } else {
        host_refs_in_functions(s.drop_last()) + host_refs_in_blocks(s.last().blocks@)
    }
}

fn collect_host_refs(program: &EirProgram) -> (r: Vec<u32>)
    ensures
        r@ == host_refs_in_functions(program.functions@),
{
    let mut out: Vec<u32> = Vec::new();
    let mut f: usize = 0;
    while f < program.functions.len()
        invariant
            f <= program.functions@.len(),
            out@ == host_refs_in_functions(program.functions@.subrange(0, f as int)),
        decreases program.functions.len() - f,
    {
        let function = &program.functions[f];
        let ghost before_f = out@;
        let mut b: usize = 0;
        while b < function.blocks.len()
            invariant
                f < program.functions@.len(),
                *function == program.functions@[f as int],
                b <= function.blocks@.len(),
                out@ == before_f + host_refs_in_blocks(function.blocks@.subrange(0, b as int)),
            decreases function.blocks.len() - b,
        {
            let block = &function.blocks[b];
            let ghost before_b = out@;
            let mut i: usize = 0;
            while i < block.instructions.len()
                invariant
                    b < function.blocks@.len(),
                    *block == function.blocks@[b as int],
                    i <= block.instructions@.len(),
                    out@ == before_b + host_refs_in_instructions(block.instructions@.subrange(0, i as int)),
                decreases block.instructions.len() - i,
            {
                proof {
                    assert(block.instructions@.subrange(0, i + 1).drop_last() =~= block.instructions@.subrange(0, i as int));
                }
                match &block.instructions[i].kind {
                    InstructionKind::MakeHostFunction { function: h, .. } => {
                        out.push(h.0);
                    },
                    _ => {},
                }
                proof {
                    assert(out@ =~= before_b + host_refs_in_instructions(block.instructions@.subrange(0, i + 1)));
                }
                i = i + 1;
            }
            proof {
                assert(block.instructions@.subrange(0, block.instructions@.len() as int) =~= block.instructions@);
                assert(function.blocks@.subrange(0, b + 1).drop_last() =~= function.blocks@.subrange(0, b as int));
                assert(out@ =~= before_f + host_refs_in_blocks(function.blocks@.subrange(0, b + 1)));
            }
            b = b + 1;
        }
        proof {
            assert(function.blocks@.subrange(0, function.blocks@.len() as int) =~= function.blocks@);
            assert(program.functions@.subrange(0, f + 1).drop_last() =~= program.functions@.subrange(0, f as int));
            assert(out@ =~= host_refs_in_functions(program.functions@.subrange(0, f + 1)));
        }
        f = f + 1;
    }
    proof {
        assert(program.functions@.subrange(0, program.functions@.len() as int) =~= program.functions@);
    }
    out
}


/// The arm of `__kiro_from_host_error` for each error, where an earlier error does not already
/// have the same last name segment.
pub open spec fn error_arm_texts(errors: Seq<String>) -> Seq<Seq<char>>
    decreases errors.len(),
{
    if errors.len() == 0 {
        Seq::empty()
    } else {
        let i = errors.len() - 1;
        let rest = error_arm_texts(errors.drop_last());
        let name = last_segment(errors[i]@);
        if exists|j: int| 0 <= j < i && #[trigger] last_segment(errors[j]@) == name {
            rest
        } else {
            rest.push("        "@ + debug_text(name) + " => __KiroValue::Error("@ + decimal(i as nat) + "),\n"@)
        }
    }
}

fn contains_text(names: &Vec<String>, x: &str) -> (r: bool)
    ensures
        r == exists|k: int| 0 <= k < names@.len() && #[trigger] names@[k]@ == x@,
{
    let mut i: usize = 0;
    while i < names.len()
        invariant
            i <= names@.len(),
            forall|k: int| 0 <= k < i ==> #[trigger] names@[k]@ != x@,
        decreases names.len() - i,
    {
        if crate::text::str_eq(names[i].as_str(), x) {
            return true;
        }
        i = i + 1;
    }
    false
}

/// Some name of the list is `x`.
pub open spec fn names_contain(names: Seq<String>, x: Seq<char>) -> bool {
    exists|k: int| 0 <= k < names.len() && #[trigger] names[k]@ == x
}

/// Some error before index `i` has `x` as its last name segment.
pub open spec fn segment_before(errors: Seq<String>, i: int, x: Seq<char>) -> bool {
    exists|j: int| 0 <= j < i && #[trigger] last_segment(errors[j]@) == x
}

fn push_error_arms(output: &mut String, errors: &Vec<String>)
    ensures
        final(output)@ == old(output)@ + join_with(error_arm_texts(errors@), Seq::empty()),
{
    let mut seen: Vec<String> = Vec::new();
    let mut i: usize = 0;
    let ghost start = output@;
    while i < errors.len()
        invariant
            i <= errors@.len(),
            output@ == start + join_with(error_arm_texts(errors@.subrange(0, i as int)), Seq::empty()),
            forall|x: Seq<char>| #[trigger] names_contain(seen@, x) == segment_before(errors@, i as int, x),
        decreases errors.len() - i,
    {
        let name = last_segment_exec(errors[i].as_str());
        let ghost sub = errors@.subrange(0, i + 1);
        proof {
            assert(sub.drop_last() =~= errors@.subrange(0, i as int));
            assert(sub[i as int] == errors@[i as int]);
            assert forall|j: int| 0 <= j < i implies #[trigger] sub[j] == errors@[j] by {}
            assert(segment_before(sub, i as int, name@) == segment_before(errors@, i as int, name@)) by {
                if segment_before(sub, i as int, name@) {
                    let j = choose|j: int| 0 <= j < i && #[trigger] last_segment(sub[j]@) == name@;
                    assert(last_segment(errors@[j]@) == name@);
                }
                if segment_before(errors@, i as int, name@) {
                    let j = choose|j: int| 0 <= j < i && #[trigger] last_segment(errors@[j]@) == name@;
                    assert(last_segment(sub[j]@) == name@);
                }
            }
        }
        let found = contains_text(&seen, name.as_str());
        proof {
            assert(found == names_contain(seen@, name@));
        }
        if !found {
            let ghost piece = "        "@ + debug_text(name@) + " => __KiroValue::Error("@ + decimal(i as nat) + "),\n"@;
            proof {
                assert(error_arm_texts(sub) == error_arm_texts(errors@.subrange(0, i as int)).push(piece));
                lemma_join_push(error_arm_texts(errors@.subrange(0, i as int)), Seq::empty(), piece);
            }
            let ghost mid = output@;
            push_str(output, "        ");
            let q = debug_quoted(name.as_str());
            push_str(output, q.as_str());
            push_str(output, " => __KiroValue::Error(");
            push_decimal(output, i as u64);
            push_str(output, "),\n");
            proof {
                assert(output@ =~= mid + piece);
                if error_arm_texts(errors@.subrange(0, i as int)).len() > 0 {
                    assert(output@ =~= start + join_with(error_arm_texts(errors@.subrange(0, i as int)), Seq::empty()) + Seq::empty() + piece);
                }
            }
            let ghost old_seen = seen@;
            seen.push(name);
            proof {
                assert forall|x: Seq<char>| #[trigger] names_contain(seen@, x) == segment_before(errors@, i + 1, x) by {
                    if names_contain(seen@, x) {
                        let k = choose|k: int| 0 <= k < seen@.len() && #[trigger] seen@[k]@ == x;
                        if k < old_seen.len() {
                            assert(old_seen[k]@ == x);
                            assert(names_contain(old_seen, x));
                            let j = choose|j: int| 0 <= j < i && #[trigger] last_segment(errors@[j]@) == x;
                            assert(last_segment(errors@[j]@) == x);
                        } else {
                            assert(last_segment(errors@[i as int]@) == x);
                        }
                    }
                    if segment_before(errors@, i + 1, x) {
                        let j = choose|j: int| 0 <= j < i + 1 && #[trigger] last_segment(errors@[j]@) == x;
                        if j < i {
                            assert(segment_before(errors@, i as int, x));
                            assert(names_contain(old_seen, x));
                            let k = choose|k: int| 0 <= k < old_seen.len() && #[trigger] old_seen[k]@ == x;
                            assert(seen@[k]@ == x);
                        } else {
                            assert(seen@[old_seen.len() as int]@ == x);
                        }
                    }
                }
            }
        } else {
            proof {
                assert(error_arm_texts(sub) == error_arm_texts(errors@.subrange(0, i as int)));
                assert forall|x: Seq<char>| #[trigger] names_contain(seen@, x) == segment_before(errors@, i + 1, x) by {
                    if segment_before(errors@, i + 1, x) {
                        let j = choose|j: int| 0 <= j < i + 1 && #[trigger] last_segment(errors@[j]@) == x;
                        if j < i {
                            assert(segment_before(errors@, i as int, x));
                        } else {
                            assert(x == name@);
                        }
                    }
                    if names_contain(seen@, x) {
                        assert(segment_before(errors@, i as int, x));
                        let j = choose|j: int| 0 <= j < i && #[trigger] last_segment(errors@[j]@) == x;
                        assert(last_segment(errors@[j]@) == x);
                    }
                }
            }
        }
        i = i + 1;
    }
    proof {
        assert(errors@.subrange(0, errors@.len() as int) =~= errors@);
    }
}

/// The host-conversion pieces of each field of a struct, for values going to the host.
pub open spec fn to_host_field_texts(fields: Seq<crate::eir::EirStructField>) -> Seq<Seq<char>> {
    Seq::new(fields.len(), |k: int| "("@ + debug_text(fields[k].name@) + ".to_string(), __kiro_to_host_t"@
        + decimal(fields[k].ty.0 as nat) + "(fields.get(&"@ + decimal(fields[k].id.0 as nat)
        + ").expect(\"verified struct field\")))"@)
}

/// The host-conversion pieces of each field of a struct, for values coming from the host.
pub open spec fn from_host_field_texts(fields: Seq<crate::eir::EirStructField>) -> Seq<Seq<char>> {
    Seq::new(fields.len(), |k: int| "("@ + decimal(fields[k].id.0 as nat) + ", __kiro_from_host_t"@
        + decimal(fields[k].ty.0 as nat) + "(fields.remove("@ + debug_text(fields[k].name@)
        + ").expect(\"missing host struct field\")))"@)
}

/// Every struct type of the table has a layout in the program.
pub open spec fn struct_types_described(p: EirProgram) -> bool {
    forall|i: int| 0 <= i < p.types@.len() && (#[trigger] p.types@[i]) is Struct
        ==> crate::eir::spec_struct_def(p, p.types@[i]->Struct_0) is Some
}

/// The conversion of `value` of type number `i` to a host value.
pub open spec fn to_host_text(p: EirProgram, i: int) -> Seq<char> {
    match p.types@[i] {
        SemTypeModel::List(inner) => "match value { __KiroValue::List(values) => RuntimeVal::List(values.iter().map(__kiro_to_host_t"@
            + decimal(inner.0 as nat) + ").collect()), other => panic!(\"expected list, got {other:?}\") }"@,
        SemTypeModel::MapOf(_, inner) => "match value { __KiroValue::Map(values) => RuntimeVal::Map(values.iter().map(|(key, value)| (key.clone(), __kiro_to_host_t"@
            + decimal(inner.0 as nat) + "(value))).collect()), other => panic!(\"expected map, got {other:?}\") }"@,
        SemTypeModel::Struct(id) => {
            let record = crate::eir::spec_struct_def(p, id)->Some_0;
            "match value { __KiroValue::Struct(structure, fields) if *structure == "@ + decimal(id.0 as nat)
                + " => RuntimeVal::structure("@ + debug_text(record.name@) + ", ["@
                + join_with(to_host_field_texts(record.fields@), ", "@)
                + "].into_iter().collect()), other => panic!(\"expected struct "@ + record.name@ + ", got {other:?}\") }"@
        },
        _ => "__kiro_to_host(value)"@,
    }
}

/// The conversion of host `value` to a value of type number `i`.
pub open spec fn from_host_text(p: EirProgram, i: int) -> Seq<char> {
    match p.types@[i] {
        SemTypeModel::List(inner) => "match value { RuntimeVal::List(values) => __KiroValue::List(values.into_iter().map(__kiro_from_host_t"@
            + decimal(inner.0 as nat) + ").collect()), other => panic!(\"expected host list, got {other:?}\") }"@,
        SemTypeModel::MapOf(_, inner) => "match value { RuntimeVal::Map(values) => __KiroValue::Map(values.into_iter().map(|(key, value)| (key, __kiro_from_host_t"@
            + decimal(inner.0 as nat) + "(value))).collect()), other => panic!(\"expected host map, got {other:?}\") }"@,
        SemTypeModel::Struct(id) => {
            let record = crate::eir::spec_struct_def(p, id)->Some_0;
            "match value { RuntimeVal::Struct { type_name, mut fields } if type_name == "@ + debug_text(record.name@)
                + " => __KiroValue::Struct("@ + decimal(id.0 as nat) + ", ["@
                + join_with(from_host_field_texts(record.fields@), ", "@)
                + "].into_iter().collect()), other => panic!(\"expected host struct "@ + record.name@ + ", got {other:?}\") }"@
        },
        _ => "__kiro_from_host(value)"@,
    }
}

/// The pair of host conversion functions for type number `i`.
pub open spec fn host_helper_text(p: EirProgram, i: int) -> Seq<char> {
    "fn __kiro_to_host_t"@ + decimal(i as nat) + "(value: &__KiroValue) -> RuntimeVal { "@ + to_host_text(p, i) + " }\n"@
        + "fn __kiro_from_host_t"@ + decimal(i as nat) + "(value: RuntimeVal) -> __KiroValue { "@ + from_host_text(p, i) + " }\n"@
}

pub open spec fn host_helper_texts(p: EirProgram, n: int) -> Seq<Seq<char>> {
    Seq::new(n as nat, |i: int| host_helper_text(p, i))
}

fn push_struct_fields(output: &mut String, fields: &Vec<crate::eir::EirStructField>, to_host: bool)
    ensures
        final(output)@ == old(output)@ + join_with(
            if to_host { to_host_field_texts(fields@) } else { from_host_field_texts(fields@) }, ", "@),
{
    let ghost texts = if to_host { to_host_field_texts(fields@) } else { from_host_field_texts(fields@) };
    let mut k: usize = 0;
    let ghost start = output@;
    while k < fields.len()
        invariant
            k <= fields@.len(),
            texts == (if to_host { to_host_field_texts(fields@) } else { from_host_field_texts(fields@) }),
            output@ == start + join_with(texts.subrange(0, k as int), ", "@),
        decreases fields.len() - k,
    {
        let field = &fields[k];
        proof {
            assert(texts.subrange(0, k + 1) =~= texts.subrange(0, k as int).push(texts[k as int]));
            lemma_join_push(texts.subrange(0, k as int), ", "@, texts[k as int]);
        }
        if k > 0 {
            push_str(output, ", ");
        }
        let ghost mid = output@;
        let q = debug_quoted(field.name.as_str());
        if to_host {
            push_str(output, "(");
            push_str(output, q.as_str());
            push_str(output, ".to_string(), __kiro_to_host_t");
            push_decimal(output, field.ty.0 as u64);
            push_str(output, "(fields.get(&");
            push_decimal(output, field.id.0 as u64);
            push_str(output, ").expect(\"verified struct field\")))");
        } else {
            push_str(output, "(");
            push_decimal(output, field.id.0 as u64);
            push_str(output, ", __kiro_from_host_t");
            push_decimal(output, field.ty.0 as u64);
            push_str(output, "(fields.remove(");
            push_str(output, q.as_str());
            push_str(output, ").expect(\"missing host struct field\")))");
        }
        proof {
            assert(output@ =~= mid + texts[k as int]);
        }
        k = k + 1;
    }
    proof {
        assert(texts.subrange(0, fields@.len() as int) =~= texts);
    }
}

fn push_host_conversion(output: &mut String, program: &EirProgram, index: usize, to_host: bool)
    requires
        index < program.types@.len() <= u32::MAX,
        struct_types_described(*program),
    ensures
        final(output)@ == old(output)@ + (if to_host { to_host_text(*program, index as int) } else { from_host_text(*program, index as int) }),
{
    let ty = program.types.get(TypeId(index as u32));
    proof {
        assert(index as u32 as int == index as int);
    }
    match ty {
        Some(crate::hir::SemType::List(inner)) => {
            if to_host {
                push_str(output, "match value { __KiroValue::List(values) => RuntimeVal::List(values.iter().map(__kiro_to_host_t");
                push_decimal(output, inner.0 as u64);
                push_str(output, ").collect()), other => panic!(\"expected list, got {other:?}\") }");
            } else {
                push_str(output, "match value { RuntimeVal::List(values) => __KiroValue::List(values.into_iter().map(__kiro_from_host_t");
                push_decimal(output, inner.0 as u64);
                push_str(output, ").collect()), other => panic!(\"expected host list, got {other:?}\") }");
            }
        },
        Some(crate::hir::SemType::MapOf(_, inner)) => {
            if to_host {
                push_str(output, "match value { __KiroValue::Map(values) => RuntimeVal::Map(values.iter().map(|(key, value)| (key.clone(), __kiro_to_host_t");
                push_decimal(output, inner.0 as u64);
                push_str(output, "(value))).collect()), other => panic!(\"expected map, got {other:?}\") }");
            } else {
                push_str(output, "match value { RuntimeVal::Map(values) => __KiroValue::Map(values.into_iter().map(|(key, value)| (key, __kiro_from_host_t");
                push_decimal(output, inner.0 as u64);
                push_str(output, "(value))).collect()), other => panic!(\"expected host map, got {other:?}\") }");
            }
        },
        Some(crate::hir::SemType::Struct(id)) => {
            proof {
                assert(program.types@[index as int] is Struct);
            }
            let record = match program.struct_def(*id) {
                Some(r) => r,
                None => {
                    proof {
                        assert(false);
                    }
                    return;
                },
            };
            let q = debug_quoted(record.name.as_str());
            if to_host {
                push_str(output, "match value { __KiroValue::Struct(structure, fields) if *structure == ");
                push_decimal(output, id.0 as u64);
                push_str(output, " => RuntimeVal::structure(");
                push_str(output, q.as_str());
                push_str(output, ", [");
                push_struct_fields(output, &record.fields, true);
                push_str(output, "].into_iter().collect()), other => panic!(\"expected struct ");
                push_str(output, record.name.as_str());
                push_str(output, ", got {other:?}\") }");
            } else {
                push_str(output, "match value { RuntimeVal::Struct { type_name, mut fields } if type_name == ");
                push_str(output, q.as_str());
                push_str(output, " => __KiroValue::Struct(");
                push_decimal(output, id.0 as u64);
                push_str(output, ", [");
                push_struct_fields(output, &record.fields, false);
                push_str(output, "].into_iter().collect()), other => panic!(\"expected host struct ");
                push_str(output, record.name.as_str());
                push_str(output, ", got {other:?}\") }");
            }
        },
        _ => {
            if to_host {
                push_str(output, "__kiro_to_host(value)");
            } else {
                push_str(output, "__kiro_from_host(value)");
            }
        },
    }
    proof {
        assert(output@ =~= old(output)@ + (if to_host { to_host_text(*program, index as int) } else { from_host_text(*program, index as int) }));
    }
}

/// Appends a conversion to and from host values for each type of the program.
fn emit_host_type_helpers(program: &EirProgram, output: &mut String)
    requires
        program.types@.len() <= u32::MAX,
        struct_types_described(*program),
    ensures
        final(output)@ == old(output)@ + join_with(host_helper_texts(*program, program.types@.len() as int), Seq::empty()) + "\n"@,
{
    let n = program.types.len();
    let ghost start = output@;
    let mut index: usize = 0;
    while index < n
        invariant
            n == program.types@.len() <= u32::MAX,
            struct_types_described(*program),
            index <= n,
            output@ == start + join_with(host_helper_texts(*program, index as int), Seq::empty()),
        decreases n - index,
    {
        let ghost piece = host_helper_text(*program, index as int);
        proof {
            assert(host_helper_texts(*program, index + 1) =~= host_helper_texts(*program, index as int).push(piece));
            lemma_join_push(host_helper_texts(*program, index as int), Seq::empty(), piece);
        }
        let ghost mid = output@;
        push_str(output, "fn __kiro_to_host_t");
        push_decimal(output, index as u64);
        push_str(output, "(value: &__KiroValue) -> RuntimeVal { ");
        push_host_conversion(output, program, index, true);
        push_str(output, " }\n");
        push_str(output, "fn __kiro_from_host_t");
        push_decimal(output, index as u64);
        push_str(output, "(value: RuntimeVal) -> __KiroValue { ");
        push_host_conversion(output, program, index, false);
        push_str(output, " }\n");
        proof {
            assert(output@ =~= mid + piece);
            if index > 0 {
                assert(output@ =~= start + join_with(host_helper_texts(*program, index as int), Seq::empty()) + Seq::empty() + piece);
            }
        }
        index = index + 1;
    }
    push_str(output, "\n");
}

/// Every function of the program can be emitted, and its types and struct layouts agree.
pub open spec fn codegen_ready(p: EirProgram) -> bool {
    &&& p.types@.len() <= u32::MAX
    &&& struct_types_described(p)
    &&& forall|f: int| 0 <= f < p.functions@.len() ==> function_emittable(p, #[trigger] p.functions@[f])
}

/// The functions of the program, one after another.
pub open spec fn function_texts(p: EirProgram, indirect: Seq<u32>) -> Seq<Seq<char>> {
    Seq::new(p.functions@.len(), |i: int| function_text(p, indirect, p.functions@[i]))
}

/// The call of each module initializer in `main`.
pub open spec fn initializer_texts(ids: Seq<FunctionId>) -> Seq<Seq<char>> {
    Seq::new(ids.len(), |i: int| "    let _ = __kiro_eir_f"@ + decimal(ids[i].0 as nat) + "(Vec::new(), __globals.clone()).await;\n"@)
}

/// The generated `main`: the global slots, then each module initializer in order.
pub open spec fn main_text(p: EirProgram) -> Seq<char> {
    "#[tokio::main]\n"@ + "async fn main() {\n"@
        + "    let __globals: __KiroGlobals = Arc::new(Mutex::new(vec![None; "@ + decimal(p.globals@.len()) + "]));\n"@
        + join_with(initializer_texts(p.module_initializers@), Seq::empty()) + "}\n"@
}

/// The whole generated Rust program for an EIR program.
pub open spec fn program_text(p: EirProgram) -> Seq<char> {
    let pipes = spec_uses_pipes(p);
    PRELUDE_VALUE_ENUM@
        + (if pipes { PIPE_VARIANT@ } else { Seq::empty() })
        + PRELUDE_VALUE_ENUM_END@
        + (if pipes { PRELUDE_PIPE_STRUCT@ } else { Seq::empty() })
        + PRELUDE_HELPERS@
        + (if pipes { PIPE_DISPLAY@ } else { Seq::empty() })
        + PRELUDE_HOST_HELPERS@
        + join_with(host_helper_texts(p, p.types@.len() as int), Seq::empty()) + "\n"@
        + HOST_ERROR_HEAD@ + join_with(error_arm_texts(p.errors@), Seq::empty()) + HOST_ERROR_TAIL@
        + join_with(function_texts(p, host_refs_in_functions(p.functions@)), Seq::empty())
        + main_text(p)
}

/// The fixed start of every generated program, with the pipe parts where the program uses pipes.
pub open spec fn prelude_text(pipes: bool) -> Seq<char> {
    PRELUDE_VALUE_ENUM@
        + (if pipes { PIPE_VARIANT@ } else { Seq::empty() })
        + PRELUDE_VALUE_ENUM_END@
        + (if pipes { PRELUDE_PIPE_STRUCT@ } else { Seq::empty() })
        + PRELUDE_HELPERS@
        + (if pipes { PIPE_DISPLAY@ } else { Seq::empty() })
        + PRELUDE_HOST_HELPERS@
}

fn push_prelude(output: &mut String, uses_pipes: bool)
    ensures
        final(output)@ == old(output)@ + prelude_text(uses_pipes),
{
    let ghost start = output@;
    push_str(output, PRELUDE_VALUE_ENUM);
    if uses_pipes {
        push_str(output, PIPE_VARIANT);
    }
    let ghost a = output@;
    push_str(output, PRELUDE_VALUE_ENUM_END);
    if uses_pipes {
        push_str(output, PRELUDE_PIPE_STRUCT);
    }
    let ghost b = output@;
    push_str(output, PRELUDE_HELPERS);
    if uses_pipes {
        push_str(output, PIPE_DISPLAY);
    }
    push_str(output, PRELUDE_HOST_HELPERS);
    proof {
        assert(a =~= start + PRELUDE_VALUE_ENUM@ + (if uses_pipes { PIPE_VARIANT@ } else { Seq::empty() }));
        assert(b =~= a + PRELUDE_VALUE_ENUM_END@ + (if uses_pipes { PRELUDE_PIPE_STRUCT@ } else { Seq::empty() }));
        assert(output@ =~= start + prelude_text(uses_pipes));
    }
}

#[verifier::spinoff_prover]
fn push_functions(output: &mut String, program: &EirProgram, indirect: &Vec<u32>)
    requires
        codegen_ready(*program),
    ensures
        final(output)@ == old(output)@ + join_with(function_texts(*program, indirect@), Seq::empty()),
{
    let ghost start = output@;
    let mut f: usize = 0;
    while f < program.functions.len()
        invariant
            f <= program.functions@.len(),
            codegen_ready(*program),
            output@ == start + join_with(function_texts(*program, indirect@).subrange(0, f as int), Seq::empty()),
        decreases program.functions.len() - f,
    {
        let ghost piece = function_text(*program, indirect@, program.functions@[f as int]);
        proof {
            assert(function_texts(*program, indirect@).subrange(0, f + 1) =~= function_texts(*program, indirect@).subrange(0, f as int).push(piece));
            lemma_join_push(function_texts(*program, indirect@).subrange(0, f as int), Seq::empty(), piece);
            assert(function_emittable(*program, program.functions@[f as int]));
        }
        let ghost mid = output@;
        let _ = compile_function(program, &program.functions[f], indirect, output);
        proof {
            if f > 0 {
                assert(output@ =~= start + join_with(function_texts(*program, indirect@).subrange(0, f as int), Seq::empty()) + Seq::empty() + piece);
            }
        }
        f = f + 1;
    }
    proof {
        assert(function_texts(*program, indirect@).subrange(0, program.functions@.len() as int) =~= function_texts(*program, indirect@));
    }
}

fn push_main(output: &mut String, program: &EirProgram)
    ensures
        final(output)@ == old(output)@ + main_text(*program),
{
    push_str(output, "#[tokio::main]\n");
    push_str(output, "async fn main() {\n");
    push_str(output, "    let __globals: __KiroGlobals = Arc::new(Mutex::new(vec![None; ");
    push_decimal(output, program.globals.len() as u64);
    push_str(output, "]));\n");
    let ghost before_inits = output@;
    let mut i: usize = 0;
    while i < program.module_initializers.len()
        invariant
            i <= program.module_initializers@.len(),
            output@ == before_inits + join_with(initializer_texts(program.module_initializers@.subrange(0, i as int)), Seq::empty()),
        decreases program.module_initializers.len() - i,
    {
        let id = program.module_initializers[i];
        let ghost piece = "    let _ = __kiro_eir_f"@ + decimal(id.0 as nat) + "(Vec::new(), __globals.clone()).await;\n"@;
        proof {
            assert(initializer_texts(program.module_initializers@.subrange(0, i + 1)) =~= initializer_texts(program.module_initializers@.subrange(0, i as int)).push(piece));
            lemma_join_push(initializer_texts(program.module_initializers@.subrange(0, i as int)), Seq::empty(), piece);
        }
        let ghost mid = output@;
        push_str(output, "    let _ = __kiro_eir_f");
        push_decimal(output, id.0 as u64);
        push_str(output, "(Vec::new(), __globals.clone()).await;\n");
        proof {
            assert(output@ =~= mid + piece);
            if i > 0 {
                assert(output@ =~= before_inits + join_with(initializer_texts(program.module_initializers@.subrange(0, i as int)), Seq::empty()) + Seq::empty() + piece);
            }
        }
        i = i + 1;
    }
    proof {
        assert(program.module_initializers@.subrange(0, program.module_initializers@.len() as int) =~= program.module_initializers@);
    }
    push_str(output, "}\n");
    proof {
        assert(output@ =~= old(output)@ + main_text(*program));
    }
}

/// Generates the Rust program for a verified EIR program.
pub fn compile_program(program: &EirProgram) -> (r: Result<String, EirCodegenError>)
    requires
        codegen_ready(*program),
    ensures
        r is Ok,
        r->Ok_0@ == program_text(*program),
{
    let mut output = String::new();
    let uses_pipes = program_uses_pipes(program);
    push_prelude(&mut output, uses_pipes);
    let ghost a = output@;
    emit_host_type_helpers(program, &mut output);
    let ghost b = output@;
    push_str(&mut output, HOST_ERROR_HEAD);
    push_error_arms(&mut output, &program.errors);
    push_str(&mut output, HOST_ERROR_TAIL);
    let ghost c = output@;
    let indirect = collect_host_refs(program);
    push_functions(&mut output, program, &indirect);
    let ghost d = output@;
    push_main(&mut output, program);
    proof {
        assert(output@ =~= program_text(*program));
    }
    Ok(output)
}

} // verus!
