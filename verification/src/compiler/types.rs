//! The Rust type that generated code uses for each Kiro type.
use vstd::prelude::*;

use crate::grammar::{KiroType, StructNameVal};
use crate::text::push_str;

verus! {

/// The Rust spelling of a Kiro type.
pub open spec fn rust_type_text(t: KiroType) -> Seq<char>
    decreases t,
{
    match t {
        KiroType::Num => "f64"@,
        KiroType::Str => "String"@,
        KiroType::Bool => "bool"@,
        KiroType::Void => "()"@,
        KiroType::Adr(inner) => if *inner is Void {
            "KiroAdrVoid"@
        } else {
            "Option<std::sync::Arc<std::sync::Mutex<"@ + rust_type_text(*inner) + ">>>"@
        },
        KiroType::Pipe(inner) => "KiroPipe<"@ + rust_type_text(*inner) + ">"@,
        KiroType::List(inner) => "Vec<"@ + rust_type_text(*inner) + ">"@,
        KiroType::MapOf(k, v) => "std::collections::HashMap<"@ + rust_type_text(*k) + ", "@ + rust_type_text(*v) + ">"@,
        KiroType::FnType(params, ret) => "fn("@ + joined_types(params@) + ") -> "@ + rust_type_text(*ret),
        KiroType::Custom(name) => name.value@,
    }
}

/// An address of `void` is an opaque managed handle; any other address is a lazily
/// filled shared cell.
pub open spec fn adr_text(inner: KiroType) -> Seq<char> {
    if inner is Void {
        "KiroAdrVoid"@
    } else {
        "Option<std::sync::Arc<std::sync::Mutex<"@ + rust_type_text(inner) + ">>>"@
    }
}

/// The Rust spellings of a list of types, separated by `, `.
pub open spec fn joined_types(ps: Seq<KiroType>) -> Seq<char>
    decreases ps,
{
    if ps.len() == 0 {
        Seq::empty()
    } else if ps.len() == 1 {
        rust_type_text(ps[0])
    } else {
        joined_types(ps.drop_last()) + ", "@ + rust_type_text(ps.last())
    }
}

/// The Rust type for a Kiro type.
#[verifier::loop_isolation(false)]
pub fn compile_type(t: &KiroType) -> (s: String)
    ensures
        s@ == rust_type_text(*t),
    decreases t,
{
    match t {
        KiroType::Num => compile_num(),
        KiroType::Str => compile_str(),
        KiroType::Bool => compile_bool(),
        KiroType::Void => compile_void(),
        KiroType::Adr(inner) => {
            if let KiroType::Void = **inner {
                String::from_str("KiroAdrVoid")
            } else {
                let mut s = String::from_str("Option<std::sync::Arc<std::sync::Mutex<");
                let inner_text = compile_type(inner);
                push_str(&mut s, inner_text.as_str());
                push_str(&mut s, ">>>");
                s
            }
        },
        KiroType::Pipe(inner) => {
            let mut s = String::from_str("KiroPipe<");
            let inner_text = compile_type(inner);
            push_str(&mut s, inner_text.as_str());
            push_str(&mut s, ">");
            s
        },
        KiroType::List(inner) => {
            let mut s = String::from_str("Vec<");
            let inner_text = compile_type(inner);
            push_str(&mut s, inner_text.as_str());
            push_str(&mut s, ">");
            s
        },
        KiroType::MapOf(k, v) => {
            let mut s = String::from_str("std::collections::HashMap<");
            let kt = compile_type(k);
            push_str(&mut s, kt.as_str());
            push_str(&mut s, ", ");
            let vt = compile_type(v);
            push_str(&mut s, vt.as_str());
            push_str(&mut s, ">");
            s
        },
        KiroType::FnType(params, ret) => {
            let mut s = String::from_str("fn(");
            let mut i: usize = 0;
            while i < params.len()
                invariant
                    i <= params@.len(),
                    s@ == "fn("@ + joined_types(params@.subrange(0, i as int)),
                decreases params.len() - i,
            {
                proof {
                    assert(decreases_to!(t => *params));
                    assert(decreases_to!(params => params@[i as int]));
                }
                if i > 0 {
                    push_str(&mut s, ", ");
                }
                let pt = compile_type(&params[i]);
                push_str(&mut s, pt.as_str());
                proof {
                    let next = params@.subrange(0, i + 1);
                    assert(next.drop_last() =~= params@.subrange(0, i as int));
                    if i == 0 {
                        assert(params@.subrange(0, 0) =~= Seq::<KiroType>::empty());
                    }
                }
                i = i + 1;
            }
            proof {
                assert(params@.subrange(0, params@.len() as int) =~= params@);
            }
            push_str(&mut s, ") -> ");
            let rt = compile_type(ret);
            push_str(&mut s, rt.as_str());
            s
        },
        KiroType::Custom(name) => compile_custom(name),
    }
}

pub fn compile_num() -> (s: String)
    ensures
        s@ == "f64"@,
{
    String::from_str("f64")
}

pub fn compile_str() -> (s: String)
    ensures
        s@ == "String"@,
{
    String::from_str("String")
}

pub fn compile_bool() -> (s: String)
    ensures
        s@ == "bool"@,
{
    String::from_str("bool")
}

pub fn compile_void() -> (s: String)
    ensures
        s@ == "()"@,
{
    String::from_str("()")
}

/// The Rust type for `adr <inner>`.
pub fn compile_adr(inner: &KiroType) -> (s: String)
    ensures
        s@ == adr_text(*inner),
{
    if let KiroType::Void = inner {
        String::from_str("KiroAdrVoid")
    } else {
        let mut s = String::from_str("Option<std::sync::Arc<std::sync::Mutex<");
        let inner_text = compile_type(inner);
        push_str(&mut s, inner_text.as_str());
        push_str(&mut s, ">>>");
        s
    }
}

/// The Rust type for `pipe <inner>`.
pub fn compile_pipe(inner: &KiroType) -> (s: String)
    ensures
        s@ == "KiroPipe<"@ + rust_type_text(*inner) + ">"@,
{
    let mut s = String::from_str("KiroPipe<");
    let inner_text = compile_type(inner);
    push_str(&mut s, inner_text.as_str());
    push_str(&mut s, ">");
    s
}

/// A named type keeps its name.
pub fn compile_custom(name: &StructNameVal) -> (s: String)
    ensures
        s@ == name.value@,
{
    name.value.clone()
}

/// The Rust type for `list <inner>`.
pub fn compile_list(inner: &KiroType) -> (s: String)
    ensures
        s@ == "Vec<"@ + rust_type_text(*inner) + ">"@,
{
    let mut s = String::from_str("Vec<");
    let inner_text = compile_type(inner);
    push_str(&mut s, inner_text.as_str());
    push_str(&mut s, ">");
    s
}

/// The Rust type for `map <key> <value>`.
pub fn compile_map(key: &KiroType, value: &KiroType) -> (s: String)
    ensures
        s@ == "std::collections::HashMap<"@ + rust_type_text(*key) + ", "@ + rust_type_text(*value) + ">"@,
{
    let mut s = String::from_str("std::collections::HashMap<");
    let kt = compile_type(key);
    push_str(&mut s, kt.as_str());
    push_str(&mut s, ", ");
    let vt = compile_type(value);
    push_str(&mut s, vt.as_str());
    push_str(&mut s, ">");
    s
}

/// The Rust type for `fn(<params>) -> <ret>`.
pub fn compile_fn_type(params: &[KiroType], ret: &KiroType) -> (s: String)
    ensures
        s@ == "fn("@ + joined_types(params@) + ") -> "@ + rust_type_text(*ret),
{
    let mut s = String::from_str("fn(");
    let mut i: usize = 0;
    while i < params.len()
        invariant
            i <= params@.len(),
            s@ == "fn("@ + joined_types(params@.subrange(0, i as int)),
        decreases params.len() - i,
    {
        if i > 0 {
            push_str(&mut s, ", ");
        }
        let pt = compile_type(&params[i]);
        push_str(&mut s, pt.as_str());
        proof {
            let next = params@.subrange(0, i + 1);
            assert(next.drop_last() =~= params@.subrange(0, i as int));
            if i == 0 {
                assert(params@.subrange(0, 0) =~= Seq::<KiroType>::empty());
            }
        }
        i = i + 1;
    }
    proof {
        assert(params@.subrange(0, params@.len() as int) =~= params@);
    }
    push_str(&mut s, ") -> ");
    let rt = compile_type(ret);
    push_str(&mut s, rt.as_str());
    s
}

} // verus!
