//! Which runtime features a program needs: pipes, error values (the `anyhow`
//! dependency) and the console module. The build adds each feature's support only
//! where some part of the program uses it.
use vstd::prelude::*;

use crate::grammar::{
    AnnotatableItem, ErrorClauseList, Expression, FieldDef, FieldInit, FuncParam, FunctionDef,
    KiroType, MapPair, Program, RustFnDecl, Statement, StructDef,
};
use crate::text::str_eq;
use super::eir::{is_std_io_display, is_std_io_module};

verus! {

// ---------------------------------------------------------------------------
// Pipes

/// A type mentions a pipe, at any depth.
pub open spec fn type_uses_pipes(t: KiroType) -> bool
    decreases t,
{
    match t {
        KiroType::Pipe(_) => true,
        KiroType::Adr(inner) => type_uses_pipes(*inner),
        KiroType::List(inner) => type_uses_pipes(*inner),
        KiroType::MapOf(k, v) => type_uses_pipes(*k) || type_uses_pipes(*v),
        KiroType::FnType(params, ret) => types_use_pipes(params@) || type_uses_pipes(*ret),
        _ => false,
    }
}

/// Some type of the list mentions a pipe.
pub open spec fn types_use_pipes(s: Seq<KiroType>) -> bool
    decreases s,
{
    if s.len() == 0 {
        false
    } else {
        types_use_pipes(s.drop_last()) || type_uses_pipes(s.last())
    }
}

proof fn lemma_types_use_pipes_prefix(s: Seq<KiroType>, k: int)
    requires
        0 <= k <= s.len(),
        types_use_pipes(s.subrange(0, k)),
    ensures
        types_use_pipes(s),
    decreases s.len() - k,
{
    if k < s.len() {
        assert(s.subrange(0, k + 1).drop_last() =~= s.subrange(0, k));
        lemma_types_use_pipes_prefix(s, k + 1);
    } else {
        assert(s.subrange(0, k) =~= s);
    }
}

fn types_use_pipes_exec(items: &Vec<KiroType>) -> (r: bool)
    ensures
        r == types_use_pipes(items@),
    decreases items,
{
    let mut i: usize = 0;
    while i < items.len()
        invariant
            i <= items@.len(),
            !types_use_pipes(items@.subrange(0, i as int)),
        decreases items.len() - i,
    {
        proof {
            assert(items@.subrange(0, i + 1).drop_last() =~= items@.subrange(0, i as int));
        }
        proof {
            assert(decreases_to!(items => items@[i as int]));
        }
        if type_uses_pipes_exec(&items[i]) {
            proof {
                lemma_types_use_pipes_prefix(items@, i + 1);
            }
            return true;
        }
        i = i + 1;
    }
    proof {
        assert(items@.subrange(0, items@.len() as int) =~= items@);
    }
    false
}

fn type_uses_pipes_exec(t: &KiroType) -> (r: bool)
    ensures
        r == type_uses_pipes(*t),
    decreases t,
{
    match t {
        KiroType::Pipe(_) => true,
        KiroType::Adr(inner) => type_uses_pipes_exec(inner),
        KiroType::List(inner) => type_uses_pipes_exec(inner),
        KiroType::MapOf(k, v) => type_uses_pipes_exec(k) || type_uses_pipes_exec(v),
        KiroType::FnType(params, ret) => types_use_pipes_exec(params) || type_uses_pipes_exec(ret),
        _ => false,
    }
}

/// An expression makes or takes from a pipe, or names a pipe type.
pub open spec fn expr_uses_pipes(e: Expression) -> bool
    decreases e,
{
    match e {
        Expression::PipeInit(..) => true,
        Expression::Take(..) => true,
        Expression::AdrInit(_, t) => type_uses_pipes(t),
        Expression::ListInit(_, t, items) => type_uses_pipes(t) || exprs_use_pipes(items@),
        Expression::MapInit(_, k, v, pairs) => type_uses_pipes(k) || type_uses_pipes(v) || pairs_use_pipes(pairs@),
        Expression::StructInit(_, fields) => inits_use_pipes(fields@),
        Expression::FieldAccess(target, _, _) => expr_uses_pipes(*target),
        Expression::Ref(_, target) => expr_uses_pipes(*target),
        Expression::Deref(_, target) => expr_uses_pipes(*target),
        Expression::Len(_, target) => expr_uses_pipes(*target),
        Expression::RunCall(_, target) => expr_uses_pipes(*target),
        Expression::At(target, _, index) => expr_uses_pipes(*target) || expr_uses_pipes(*index),
        Expression::Push(target, _, index) => expr_uses_pipes(*target) || expr_uses_pipes(*index),
        Expression::Call(func, args) => expr_uses_pipes(*func) || exprs_use_pipes(args@),
        Expression::Add(l, r) => expr_uses_pipes(*l) || expr_uses_pipes(*r),
        Expression::Sub(l, r) => expr_uses_pipes(*l) || expr_uses_pipes(*r),
        Expression::Mul(l, r) => expr_uses_pipes(*l) || expr_uses_pipes(*r),
        Expression::Div(l, r) => expr_uses_pipes(*l) || expr_uses_pipes(*r),
        Expression::Eq(l, r) => expr_uses_pipes(*l) || expr_uses_pipes(*r),
        Expression::Neq(l, r) => expr_uses_pipes(*l) || expr_uses_pipes(*r),
        Expression::Gt(l, r) => expr_uses_pipes(*l) || expr_uses_pipes(*r),
        Expression::Lt(l, r) => expr_uses_pipes(*l) || expr_uses_pipes(*r),
        Expression::Geq(l, r) => expr_uses_pipes(*l) || expr_uses_pipes(*r),
        Expression::Leq(l, r) => expr_uses_pipes(*l) || expr_uses_pipes(*r),
        Expression::Range(l, r) => expr_uses_pipes(*l) || expr_uses_pipes(*r),
        _ => false,
    }
}

fn expr_uses_pipes_exec(e: &Expression) -> (r: bool)
    ensures
        r == expr_uses_pipes(*e),
    decreases e,
{
    match e {
        Expression::PipeInit(..) => true,
        Expression::Take(..) => true,
        Expression::AdrInit(_, t) => type_uses_pipes_exec(t),
        Expression::ListInit(_, t, items) => type_uses_pipes_exec(t) || exprs_use_pipes_exec(items),
        Expression::MapInit(_, k, v, pairs) => type_uses_pipes_exec(k) || type_uses_pipes_exec(v) || pairs_use_pipes_exec(pairs),
        Expression::StructInit(_, fields) => inits_use_pipes_exec(fields),
        Expression::FieldAccess(target, _, _) => expr_uses_pipes_exec(target),
        Expression::Ref(_, target) => expr_uses_pipes_exec(target),
        Expression::Deref(_, target) => expr_uses_pipes_exec(target),
        Expression::Len(_, target) => expr_uses_pipes_exec(target),
        Expression::RunCall(_, target) => expr_uses_pipes_exec(target),
        Expression::At(target, _, index) => expr_uses_pipes_exec(target) || expr_uses_pipes_exec(index),
        Expression::Push(target, _, index) => expr_uses_pipes_exec(target) || expr_uses_pipes_exec(index),
        Expression::Call(func, args) => expr_uses_pipes_exec(func) || exprs_use_pipes_exec(args),
        Expression::Add(l, r) => expr_uses_pipes_exec(l) || expr_uses_pipes_exec(r),
        Expression::Sub(l, r) => expr_uses_pipes_exec(l) || expr_uses_pipes_exec(r),
        Expression::Mul(l, r) => expr_uses_pipes_exec(l) || expr_uses_pipes_exec(r),
        Expression::Div(l, r) => expr_uses_pipes_exec(l) || expr_uses_pipes_exec(r),
        Expression::Eq(l, r) => expr_uses_pipes_exec(l) || expr_uses_pipes_exec(r),
        Expression::Neq(l, r) => expr_uses_pipes_exec(l) || expr_uses_pipes_exec(r),
        Expression::Gt(l, r) => expr_uses_pipes_exec(l) || expr_uses_pipes_exec(r),
        Expression::Lt(l, r) => expr_uses_pipes_exec(l) || expr_uses_pipes_exec(r),
        Expression::Geq(l, r) => expr_uses_pipes_exec(l) || expr_uses_pipes_exec(r),
        Expression::Leq(l, r) => expr_uses_pipes_exec(l) || expr_uses_pipes_exec(r),
        Expression::Range(l, r) => expr_uses_pipes_exec(l) || expr_uses_pipes_exec(r),
        _ => false,
    }
}

/// Some expression of the list uses the feature.
pub open spec fn exprs_use_pipes(s: Seq<Expression>) -> bool
    decreases s,
{
    if s.len() == 0 {
        false
    } else {
        exprs_use_pipes(s.drop_last()) || expr_uses_pipes(s.last())
    }
}

proof fn lemma_exprs_use_pipes_prefix(s: Seq<Expression>, k: int)
    requires
        0 <= k <= s.len(),
        exprs_use_pipes(s.subrange(0, k)),
    ensures
        exprs_use_pipes(s),
    decreases s.len() - k,
{
    if k < s.len() {
        assert(s.subrange(0, k + 1).drop_last() =~= s.subrange(0, k));
        lemma_exprs_use_pipes_prefix(s, k + 1);
    } else {
        assert(s.subrange(0, k) =~= s);
    }
}

fn exprs_use_pipes_exec(items: &Vec<Expression>) -> (r: bool)
    ensures
        r == exprs_use_pipes(items@),
    decreases items,
{
    let mut i: usize = 0;
    while i < items.len()
        invariant
            i <= items@.len(),
            !exprs_use_pipes(items@.subrange(0, i as int)),
        decreases items.len() - i,
    {
        proof {
            assert(items@.subrange(0, i + 1).drop_last() =~= items@.subrange(0, i as int));
        }
        proof {
            assert(decreases_to!(items => items@[i as int]));
        }
        if expr_uses_pipes_exec(&items[i]) {
            proof {
                lemma_exprs_use_pipes_prefix(items@, i + 1);
            }
            return true;
        }
        i = i + 1;
    }
    proof {
        assert(items@.subrange(0, items@.len() as int) =~= items@);
    }
    false
}

/// Some key or value of the map entries uses the feature.
pub open spec fn pairs_use_pipes(s: Seq<MapPair>) -> bool
    decreases s,
{
    if s.len() == 0 {
        false
    } else {
        pairs_use_pipes(s.drop_last()) || (expr_uses_pipes(s.last().key) || expr_uses_pipes(s.last().value))
    }
}

proof fn lemma_pairs_use_pipes_prefix(s: Seq<MapPair>, k: int)
    requires
        0 <= k <= s.len(),
        pairs_use_pipes(s.subrange(0, k)),
    ensures
        pairs_use_pipes(s),
    decreases s.len() - k,
{
    if k < s.len() {
        assert(s.subrange(0, k + 1).drop_last() =~= s.subrange(0, k));
        lemma_pairs_use_pipes_prefix(s, k + 1);
    } else {
        assert(s.subrange(0, k) =~= s);
    }
}

fn pairs_use_pipes_exec(items: &Vec<MapPair>) -> (r: bool)
    ensures
        r == pairs_use_pipes(items@),
    decreases items,
{
    let mut i: usize = 0;
    while i < items.len()
        invariant
            i <= items@.len(),
            !pairs_use_pipes(items@.subrange(0, i as int)),
        decreases items.len() - i,
    {
        proof {
            assert(items@.subrange(0, i + 1).drop_last() =~= items@.subrange(0, i as int));
        }
        proof {
            assert(decreases_to!(items => items@[i as int]));
        }
        if (expr_uses_pipes_exec(&items[i].key) || expr_uses_pipes_exec(&items[i].value)) {
            proof {
                lemma_pairs_use_pipes_prefix(items@, i + 1);
            }
            return true;
        }
        i = i + 1;
    }
    proof {
        assert(items@.subrange(0, items@.len() as int) =~= items@);
    }
    false
}

/// Some field value uses the feature.
pub open spec fn inits_use_pipes(s: Seq<FieldInit>) -> bool
    decreases s,
{
    if s.len() == 0 {
        false
    } else {
        inits_use_pipes(s.drop_last()) || expr_uses_pipes(s.last().value)
    }
}

proof fn lemma_inits_use_pipes_prefix(s: Seq<FieldInit>, k: int)
    requires
        0 <= k <= s.len(),
        inits_use_pipes(s.subrange(0, k)),
    ensures
        inits_use_pipes(s),
    decreases s.len() - k,
{
    if k < s.len() {
        assert(s.subrange(0, k + 1).drop_last() =~= s.subrange(0, k));
        lemma_inits_use_pipes_prefix(s, k + 1);
    } else {
        assert(s.subrange(0, k) =~= s);
    }
}

fn inits_use_pipes_exec(items: &Vec<FieldInit>) -> (r: bool)
    ensures
        r == inits_use_pipes(items@),
    decreases items,
{
    let mut i: usize = 0;
    while i < items.len()
        invariant
            i <= items@.len(),
            !inits_use_pipes(items@.subrange(0, i as int)),
        decreases items.len() - i,
    {
        proof {
            assert(items@.subrange(0, i + 1).drop_last() =~= items@.subrange(0, i as int));
        }
        proof {
            assert(decreases_to!(items => items@[i as int]));
        }
        if expr_uses_pipes_exec(&items[i].value) {
            proof {
                lemma_inits_use_pipes_prefix(items@, i + 1);
            }
            return true;
        }
        i = i + 1;
    }
    proof {
        assert(items@.subrange(0, items@.len() as int) =~= items@);
    }
    false
}

/// Some statement of the list uses the feature.
pub open spec fn stmts_use_pipes(s: Seq<Statement>) -> bool
    decreases s,
{
    if s.len() == 0 {
        false
    } else {
        stmts_use_pipes(s.drop_last()) || stmt_uses_pipes(s.last())
    }
}

proof fn lemma_stmts_use_pipes_prefix(s: Seq<Statement>, k: int)
    requires
        0 <= k <= s.len(),
        stmts_use_pipes(s.subrange(0, k)),
    ensures
        stmts_use_pipes(s),
    decreases s.len() - k,
{
    if k < s.len() {
        assert(s.subrange(0, k + 1).drop_last() =~= s.subrange(0, k));
        lemma_stmts_use_pipes_prefix(s, k + 1);
    } else {
        assert(s.subrange(0, k) =~= s);
    }
}

fn stmts_use_pipes_exec(items: &Vec<Statement>) -> (r: bool)
    ensures
        r == stmts_use_pipes(items@),
    decreases items,
{
    let mut i: usize = 0;
    while i < items.len()
        invariant
            i <= items@.len(),
            !stmts_use_pipes(items@.subrange(0, i as int)),
        decreases items.len() - i,
    {
        proof {
            assert(items@.subrange(0, i + 1).drop_last() =~= items@.subrange(0, i as int));
        }
        proof {
            assert(decreases_to!(items => items@[i as int]));
        }
        if stmt_uses_pipes_exec(&items[i]) {
            proof {
                lemma_stmts_use_pipes_prefix(items@, i + 1);
            }
            return true;
        }
        i = i + 1;
    }
    proof {
        assert(items@.subrange(0, items@.len() as int) =~= items@);
    }
    false
}

/// Some parameter has a type that mentions a pipe.
pub open spec fn params_use_pipes(s: Seq<FuncParam>) -> bool
    decreases s,
{
    if s.len() == 0 {
        false
    } else {
        params_use_pipes(s.drop_last()) || type_uses_pipes(s.last().command_type)
    }
}

proof fn lemma_params_use_pipes_prefix(s: Seq<FuncParam>, k: int)
    requires
        0 <= k <= s.len(),
        params_use_pipes(s.subrange(0, k)),
    ensures
        params_use_pipes(s),
    decreases s.len() - k,
{
    if k < s.len() {
        assert(s.subrange(0, k + 1).drop_last() =~= s.subrange(0, k));
        lemma_params_use_pipes_prefix(s, k + 1);
    } else {
        assert(s.subrange(0, k) =~= s);
    }
}

fn params_use_pipes_exec(items: &Vec<FuncParam>) -> (r: bool)
    ensures
        r == params_use_pipes(items@),
{
    let mut i: usize = 0;
    while i < items.len()
        invariant
            i <= items@.len(),
            !params_use_pipes(items@.subrange(0, i as int)),
        decreases items.len() - i,
    {
        proof {
            assert(items@.subrange(0, i + 1).drop_last() =~= items@.subrange(0, i as int));
        }
        if type_uses_pipes_exec(&items[i].command_type) {
            proof {
                lemma_params_use_pipes_prefix(items@, i + 1);
            }
            return true;
        }
        i = i + 1;
    }
    proof {
        assert(items@.subrange(0, items@.len() as int) =~= items@);
    }
    false
}

/// Some field has a type that mentions a pipe.
pub open spec fn field_defs_use_pipes(s: Seq<FieldDef>) -> bool
    decreases s,
{
    if s.len() == 0 {
        false
    } else {
        field_defs_use_pipes(s.drop_last()) || type_uses_pipes(s.last().field_type)
    }
}

proof fn lemma_field_defs_use_pipes_prefix(s: Seq<FieldDef>, k: int)
    requires
        0 <= k <= s.len(),
        field_defs_use_pipes(s.subrange(0, k)),
    ensures
        field_defs_use_pipes(s),
    decreases s.len() - k,
{
    if k < s.len() {
        assert(s.subrange(0, k + 1).drop_last() =~= s.subrange(0, k));
        lemma_field_defs_use_pipes_prefix(s, k + 1);
    } else {
        assert(s.subrange(0, k) =~= s);
    }
}

fn field_defs_use_pipes_exec(items: &Vec<FieldDef>) -> (r: bool)
    ensures
        r == field_defs_use_pipes(items@),
{
    let mut i: usize = 0;
    while i < items.len()
        invariant
            i <= items@.len(),
            !field_defs_use_pipes(items@.subrange(0, i as int)),
        decreases items.len() - i,
    {
        proof {
            assert(items@.subrange(0, i + 1).drop_last() =~= items@.subrange(0, i as int));
        }
        if type_uses_pipes_exec(&items[i].field_type) {
            proof {
                lemma_field_defs_use_pipes_prefix(items@, i + 1);
            }
            return true;
        }
        i = i + 1;
    }
    proof {
        assert(items@.subrange(0, items@.len() as int) =~= items@);
    }
    false
}

pub open spec fn clauses_use_pipes(c: ErrorClauseList) -> bool
    decreases c,
{
    stmts_use_pipes(c.first.body.statements@) || match c.rest {
        Some(rest) => clauses_use_pipes(*rest),
        None => false,
    }
}

fn clauses_use_pipes_exec(c: &ErrorClauseList) -> (r: bool)
    ensures
        r == clauses_use_pipes(*c),
    decreases c,
{
    if stmts_use_pipes_exec(&c.first.body.statements) {
        return true;
    }
    match &c.rest {
        Some(rest) => clauses_use_pipes_exec(rest),
        None => false,
    }
}

pub open spec fn function_uses_pipes(def: FunctionDef) -> bool
    decreases def,
{
    params_use_pipes(def.params@) || (match def.return_type { Some(t) => type_uses_pipes(t), None => false }) || stmts_use_pipes(def.body.statements@)
}

fn function_uses_pipes_exec(def: &FunctionDef) -> (r: bool)
    ensures
        r == function_uses_pipes(*def),
    decreases def,
{
    if params_use_pipes_exec(&def.params) {
        return true;
    }
    let ret = match &def.return_type {
        Some(t) => type_uses_pipes_exec(t),
        None => false,
    };
    ret || stmts_use_pipes_exec(&def.body.statements)
}

pub open spec fn rust_fn_uses_pipes(def: RustFnDecl) -> bool {
    params_use_pipes(def.params@) || type_uses_pipes(def.return_type)
}

fn rust_fn_uses_pipes_exec(def: &RustFnDecl) -> (r: bool)
    ensures
        r == rust_fn_uses_pipes(*def),
{
    params_use_pipes_exec(&def.params) || type_uses_pipes_exec(&def.return_type)
}

pub open spec fn struct_uses_pipes(def: StructDef) -> bool {
    field_defs_use_pipes(def.fields@)
}

fn struct_uses_pipes_exec(def: &StructDef) -> (r: bool)
    ensures
        r == struct_uses_pipes(*def),
{
    field_defs_use_pipes_exec(&def.fields)
}

/// A statement gives, closes, makes or takes from a pipe, or declares something with a pipe type.
pub open spec fn stmt_uses_pipes(s: Statement) -> bool
    decreases s,
{
    match s {
        Statement::StructDef(def) => struct_uses_pipes(def),
        Statement::FunctionDef(def) => function_uses_pipes(def),
        Statement::RustFnDecl(def) => rust_fn_uses_pipes(def),
        Statement::VarDecl { value, .. } => expr_uses_pipes(value),
        Statement::AssignStmt { lhs, rhs } => expr_uses_pipes(lhs) || expr_uses_pipes(rhs),
        Statement::On { condition, body, else_clause, error_clauses } => expr_uses_pipes(condition) || stmts_use_pipes(body.statements@)
            || (match else_clause { Some(off) => stmts_use_pipes(off.body.statements@), None => false })
            || (match error_clauses { Some(c) => clauses_use_pipes(c), None => false }),
        Statement::LoopOn { condition, body, .. } => expr_uses_pipes(condition) || stmts_use_pipes(body.statements@),
        Statement::LoopIter { iterable, step, filter, body, else_clause, .. } => expr_uses_pipes(iterable)
            || (match step { Some(st) => expr_uses_pipes(st.value), None => false })
            || (match filter { Some(fl) => expr_uses_pipes(fl.condition), None => false })
            || stmts_use_pipes(body.statements@)
            || (match else_clause { Some(off) => stmts_use_pipes(off.body.statements@), None => false }),
        Statement::Give(..) => true,
        Statement::Close(..) => true,
        Statement::Return(_, value) => match value { Some(e) => expr_uses_pipes(e), None => false },
        Statement::Check(_, condition, _) => expr_uses_pipes(condition),
        Statement::ExprStmt(e) => expr_uses_pipes(e),
        Statement::Documented { item, .. } => match item {
            AnnotatableItem::StructDef(def) => struct_uses_pipes(def),
            AnnotatableItem::HandleDef(_) => false,
            AnnotatableItem::FunctionDef(def) => function_uses_pipes(def),
            AnnotatableItem::RustFnDecl(def) => rust_fn_uses_pipes(def),
        },
        _ => false,
    }
}

fn stmt_uses_pipes_exec(s: &Statement) -> (r: bool)
    ensures
        r == stmt_uses_pipes(*s),
    decreases s,
{
    match s {
        Statement::StructDef(def) => struct_uses_pipes_exec(def),
        Statement::FunctionDef(def) => function_uses_pipes_exec(def),
        Statement::RustFnDecl(def) => rust_fn_uses_pipes_exec(def),
        Statement::VarDecl { value, .. } => expr_uses_pipes_exec(value),
        Statement::AssignStmt { lhs, rhs } => expr_uses_pipes_exec(lhs) || expr_uses_pipes_exec(rhs),
        Statement::On { condition, body, else_clause, error_clauses } => {
            if expr_uses_pipes_exec(condition) || stmts_use_pipes_exec(&body.statements) {
                return true;
            }
            let off = match else_clause {
                Some(off) => stmts_use_pipes_exec(&off.body.statements),
                None => false,
            };
            if off {
                return true;
            }
            match error_clauses {
                Some(c) => clauses_use_pipes_exec(c),
                None => false,
            }
        },
        Statement::LoopOn { condition, body, .. } => expr_uses_pipes_exec(condition) || stmts_use_pipes_exec(&body.statements),
        Statement::LoopIter { iterable, step, filter, body, else_clause, .. } => {
            if expr_uses_pipes_exec(iterable) {
                return true;
            }
            let st = match step {
                Some(st) => expr_uses_pipes_exec(&st.value),
                None => false,
            };
            let fl = match filter {
                Some(fl) => expr_uses_pipes_exec(&fl.condition),
                None => false,
            };
            if st || fl || stmts_use_pipes_exec(&body.statements) {
                return true;
            }
            match else_clause {
                Some(off) => stmts_use_pipes_exec(&off.body.statements),
                None => false,
            }
        },
        Statement::Give(..) => true,
        Statement::Close(..) => true,
        Statement::Return(_, value) => match value { Some(e) => expr_uses_pipes_exec(e), None => false },
        Statement::Check(_, condition, _) => expr_uses_pipes_exec(condition),
        Statement::ExprStmt(e) => expr_uses_pipes_exec(e),
        Statement::Documented { item, .. } => match item {
            AnnotatableItem::StructDef(def) => struct_uses_pipes_exec(def),
            AnnotatableItem::HandleDef(_) => false,
            AnnotatableItem::FunctionDef(def) => function_uses_pipes_exec(def),
            AnnotatableItem::RustFnDecl(def) => rust_fn_uses_pipes_exec(def),
        },
        _ => false,
    }
}

/// Whether the program uses pipes: a `give`, `close`, `take` or pipe literal where it is evaluated, or a pipe type in a declaration.
pub fn program_uses_pipes(program: &Program) -> (r: bool)
    ensures
        r == stmts_use_pipes(program.statements@),
{
    stmts_use_pipes_exec(&program.statements)
}

// ---------------------------------------------------------------------------
// Error values

/// An expression refers to a declared error.
pub open spec fn expr_uses_anyhow(e: Expression) -> bool
    decreases e,
{
    match e {
        Expression::ListInit(_, _, items) => exprs_use_anyhow(items@),
        Expression::MapInit(_, _, _, pairs) => pairs_use_anyhow(pairs@),
        Expression::ErrorRef(_) => true,
        Expression::StructInit(_, fields) => inits_use_anyhow(fields@),
        Expression::FieldAccess(target, _, _) => expr_uses_anyhow(*target),
        Expression::Ref(_, target) => expr_uses_anyhow(*target),
        Expression::Deref(_, target) => expr_uses_anyhow(*target),
        Expression::Len(_, target) => expr_uses_anyhow(*target),
        Expression::RunCall(_, target) => expr_uses_anyhow(*target),
        Expression::Take(_, target) => expr_uses_anyhow(*target),
        Expression::At(target, _, index) => expr_uses_anyhow(*target) || expr_uses_anyhow(*index),
        Expression::Push(target, _, index) => expr_uses_anyhow(*target) || expr_uses_anyhow(*index),
        Expression::Call(func, args) => expr_uses_anyhow(*func) || exprs_use_anyhow(args@),
        Expression::Add(l, r) => expr_uses_anyhow(*l) || expr_uses_anyhow(*r),
        Expression::Sub(l, r) => expr_uses_anyhow(*l) || expr_uses_anyhow(*r),
        Expression::Mul(l, r) => expr_uses_anyhow(*l) || expr_uses_anyhow(*r),
        Expression::Div(l, r) => expr_uses_anyhow(*l) || expr_uses_anyhow(*r),
        Expression::Eq(l, r) => expr_uses_anyhow(*l) || expr_uses_anyhow(*r),
        Expression::Neq(l, r) => expr_uses_anyhow(*l) || expr_uses_anyhow(*r),
        Expression::Gt(l, r) => expr_uses_anyhow(*l) || expr_uses_anyhow(*r),
        Expression::Lt(l, r) => expr_uses_anyhow(*l) || expr_uses_anyhow(*r),
        Expression::Geq(l, r) => expr_uses_anyhow(*l) || expr_uses_anyhow(*r),
        Expression::Leq(l, r) => expr_uses_anyhow(*l) || expr_uses_anyhow(*r),
        Expression::Range(l, r) => expr_uses_anyhow(*l) || expr_uses_anyhow(*r),
        _ => false,
    }
}

fn expr_uses_anyhow_exec(e: &Expression) -> (r: bool)
    ensures
        r == expr_uses_anyhow(*e),
    decreases e,
{
    match e {
        Expression::ListInit(_, _, items) => exprs_use_anyhow_exec(items),
        Expression::MapInit(_, _, _, pairs) => pairs_use_anyhow_exec(pairs),
        Expression::ErrorRef(_) => true,
        Expression::StructInit(_, fields) => inits_use_anyhow_exec(fields),
        Expression::FieldAccess(target, _, _) => expr_uses_anyhow_exec(target),
        Expression::Ref(_, target) => expr_uses_anyhow_exec(target),
        Expression::Deref(_, target) => expr_uses_anyhow_exec(target),
        Expression::Len(_, target) => expr_uses_anyhow_exec(target),
        Expression::RunCall(_, target) => expr_uses_anyhow_exec(target),
        Expression::Take(_, target) => expr_uses_anyhow_exec(target),
        Expression::At(target, _, index) => expr_uses_anyhow_exec(target) || expr_uses_anyhow_exec(index),
        Expression::Push(target, _, index) => expr_uses_anyhow_exec(target) || expr_uses_anyhow_exec(index),
        Expression::Call(func, args) => expr_uses_anyhow_exec(func) || exprs_use_anyhow_exec(args),
        Expression::Add(l, r) => expr_uses_anyhow_exec(l) || expr_uses_anyhow_exec(r),
        Expression::Sub(l, r) => expr_uses_anyhow_exec(l) || expr_uses_anyhow_exec(r),
        Expression::Mul(l, r) => expr_uses_anyhow_exec(l) || expr_uses_anyhow_exec(r),
        Expression::Div(l, r) => expr_uses_anyhow_exec(l) || expr_uses_anyhow_exec(r),
        Expression::Eq(l, r) => expr_uses_anyhow_exec(l) || expr_uses_anyhow_exec(r),
        Expression::Neq(l, r) => expr_uses_anyhow_exec(l) || expr_uses_anyhow_exec(r),
        Expression::Gt(l, r) => expr_uses_anyhow_exec(l) || expr_uses_anyhow_exec(r),
        Expression::Lt(l, r) => expr_uses_anyhow_exec(l) || expr_uses_anyhow_exec(r),
        Expression::Geq(l, r) => expr_uses_anyhow_exec(l) || expr_uses_anyhow_exec(r),
        Expression::Leq(l, r) => expr_uses_anyhow_exec(l) || expr_uses_anyhow_exec(r),
        Expression::Range(l, r) => expr_uses_anyhow_exec(l) || expr_uses_anyhow_exec(r),
        _ => false,
    }
}

/// Some expression of the list uses the feature.
pub open spec fn exprs_use_anyhow(s: Seq<Expression>) -> bool
    decreases s,
{
    if s.len() == 0 {
        false
    } else {
        exprs_use_anyhow(s.drop_last()) || expr_uses_anyhow(s.last())
    }
}

proof fn lemma_exprs_use_anyhow_prefix(s: Seq<Expression>, k: int)
    requires
        0 <= k <= s.len(),
        exprs_use_anyhow(s.subrange(0, k)),
    ensures
        exprs_use_anyhow(s),
    decreases s.len() - k,
{
    if k < s.len() {
        assert(s.subrange(0, k + 1).drop_last() =~= s.subrange(0, k));
        lemma_exprs_use_anyhow_prefix(s, k + 1);
    } else {
        assert(s.subrange(0, k) =~= s);
    }
}

fn exprs_use_anyhow_exec(items: &Vec<Expression>) -> (r: bool)
    ensures
        r == exprs_use_anyhow(items@),
    decreases items,
{
    let mut i: usize = 0;
    while i < items.len()
        invariant
            i <= items@.len(),
            !exprs_use_anyhow(items@.subrange(0, i as int)),
        decreases items.len() - i,
    {
        proof {
            assert(items@.subrange(0, i + 1).drop_last() =~= items@.subrange(0, i as int));
        }
        proof {
            assert(decreases_to!(items => items@[i as int]));
        }
        if expr_uses_anyhow_exec(&items[i]) {
            proof {
                lemma_exprs_use_anyhow_prefix(items@, i + 1);
            }
            return true;
        }
        i = i + 1;
    }
    proof {
        assert(items@.subrange(0, items@.len() as int) =~= items@);
    }
    false
}

/// Some key or value of the map entries uses the feature.
pub open spec fn pairs_use_anyhow(s: Seq<MapPair>) -> bool
    decreases s,
{
    if s.len() == 0 {
        false
    } else {
        pairs_use_anyhow(s.drop_last()) || (expr_uses_anyhow(s.last().key) || expr_uses_anyhow(s.last().value))
    }
}

proof fn lemma_pairs_use_anyhow_prefix(s: Seq<MapPair>, k: int)
    requires
        0 <= k <= s.len(),
        pairs_use_anyhow(s.subrange(0, k)),
    ensures
        pairs_use_anyhow(s),
    decreases s.len() - k,
{
    if k < s.len() {
        assert(s.subrange(0, k + 1).drop_last() =~= s.subrange(0, k));
        lemma_pairs_use_anyhow_prefix(s, k + 1);
    } else {
        assert(s.subrange(0, k) =~= s);
    }
}

fn pairs_use_anyhow_exec(items: &Vec<MapPair>) -> (r: bool)
    ensures
        r == pairs_use_anyhow(items@),
    decreases items,
{
    let mut i: usize = 0;
    while i < items.len()
        invariant
            i <= items@.len(),
            !pairs_use_anyhow(items@.subrange(0, i as int)),
        decreases items.len() - i,
    {
        proof {
            assert(items@.subrange(0, i + 1).drop_last() =~= items@.subrange(0, i as int));
        }
        proof {
            assert(decreases_to!(items => items@[i as int]));
        }
        if (expr_uses_anyhow_exec(&items[i].key) || expr_uses_anyhow_exec(&items[i].value)) {
            proof {
                lemma_pairs_use_anyhow_prefix(items@, i + 1);
            }
            return true;
        }
        i = i + 1;
    }
    proof {
        assert(items@.subrange(0, items@.len() as int) =~= items@);
    }
    false
}

/// Some field value uses the feature.
pub open spec fn inits_use_anyhow(s: Seq<FieldInit>) -> bool
    decreases s,
{
    if s.len() == 0 {
        false
    } else {
        inits_use_anyhow(s.drop_last()) || expr_uses_anyhow(s.last().value)
    }
}

proof fn lemma_inits_use_anyhow_prefix(s: Seq<FieldInit>, k: int)
    requires
        0 <= k <= s.len(),
        inits_use_anyhow(s.subrange(0, k)),
    ensures
        inits_use_anyhow(s),
    decreases s.len() - k,
{
    if k < s.len() {
        assert(s.subrange(0, k + 1).drop_last() =~= s.subrange(0, k));
        lemma_inits_use_anyhow_prefix(s, k + 1);
    } else {
        assert(s.subrange(0, k) =~= s);
    }
}

fn inits_use_anyhow_exec(items: &Vec<FieldInit>) -> (r: bool)
    ensures
        r == inits_use_anyhow(items@),
    decreases items,
{
    let mut i: usize = 0;
    while i < items.len()
        invariant
            i <= items@.len(),
            !inits_use_anyhow(items@.subrange(0, i as int)),
        decreases items.len() - i,
    {
        proof {
            assert(items@.subrange(0, i + 1).drop_last() =~= items@.subrange(0, i as int));
        }
        proof {
            assert(decreases_to!(items => items@[i as int]));
        }
        if expr_uses_anyhow_exec(&items[i].value) {
            proof {
                lemma_inits_use_anyhow_prefix(items@, i + 1);
            }
            return true;
        }
        i = i + 1;
    }
    proof {
        assert(items@.subrange(0, items@.len() as int) =~= items@);
    }
    false
}

/// Some statement of the list uses the feature.
pub open spec fn stmts_use_anyhow(s: Seq<Statement>) -> bool
    decreases s,
{
    if s.len() == 0 {
        false
    } else {
        stmts_use_anyhow(s.drop_last()) || stmt_uses_anyhow(s.last())
    }
}

proof fn lemma_stmts_use_anyhow_prefix(s: Seq<Statement>, k: int)
    requires
        0 <= k <= s.len(),
        stmts_use_anyhow(s.subrange(0, k)),
    ensures
        stmts_use_anyhow(s),
    decreases s.len() - k,
{
    if k < s.len() {
        assert(s.subrange(0, k + 1).drop_last() =~= s.subrange(0, k));
        lemma_stmts_use_anyhow_prefix(s, k + 1);
    } else {
        assert(s.subrange(0, k) =~= s);
    }
}

fn stmts_use_anyhow_exec(items: &Vec<Statement>) -> (r: bool)
    ensures
        r == stmts_use_anyhow(items@),
    decreases items,
{
    let mut i: usize = 0;
    while i < items.len()
        invariant
            i <= items@.len(),
            !stmts_use_anyhow(items@.subrange(0, i as int)),
        decreases items.len() - i,
    {
        proof {
            assert(items@.subrange(0, i + 1).drop_last() =~= items@.subrange(0, i as int));
        }
        proof {
            assert(decreases_to!(items => items@[i as int]));
        }
        if stmt_uses_anyhow_exec(&items[i]) {
            proof {
                lemma_stmts_use_anyhow_prefix(items@, i + 1);
            }
            return true;
        }
        i = i + 1;
    }
    proof {
        assert(items@.subrange(0, items@.len() as int) =~= items@);
    }
    false
}

pub open spec fn clauses_use_anyhow(c: ErrorClauseList) -> bool
    decreases c,
{
    stmts_use_anyhow(c.first.body.statements@) || match c.rest {
        Some(rest) => clauses_use_anyhow(*rest),
        None => false,
    }
}

fn clauses_use_anyhow_exec(c: &ErrorClauseList) -> (r: bool)
    ensures
        r == clauses_use_anyhow(*c),
    decreases c,
{
    if stmts_use_anyhow_exec(&c.first.body.statements) {
        return true;
    }
    match &c.rest {
        Some(rest) => clauses_use_anyhow_exec(rest),
        None => false,
    }
}

pub open spec fn function_uses_anyhow(def: FunctionDef) -> bool
    decreases def,
{
    stmts_use_anyhow(def.body.statements@)
}

fn function_uses_anyhow_exec(def: &FunctionDef) -> (r: bool)
    ensures
        r == function_uses_anyhow(*def),
    decreases def,
{
    stmts_use_anyhow_exec(&def.body.statements)
}

pub open spec fn rust_fn_uses_anyhow(def: RustFnDecl) -> bool {
    def.can_error is Some
}

fn rust_fn_uses_anyhow_exec(def: &RustFnDecl) -> (r: bool)
    ensures
        r == rust_fn_uses_anyhow(*def),
{
    def.can_error.is_some()
}

pub open spec fn struct_uses_anyhow(def: StructDef) -> bool {
    false
}

fn struct_uses_anyhow_exec(def: &StructDef) -> (r: bool)
    ensures
        r == struct_uses_anyhow(*def),
{
    false
}

/// A statement declares or refers to an error, or declares a host function that can fail.
pub open spec fn stmt_uses_anyhow(s: Statement) -> bool
    decreases s,
{
    match s {
        Statement::ErrorDef { .. } => true,
        Statement::FunctionDef(def) => function_uses_anyhow(def),
        Statement::RustFnDecl(def) => rust_fn_uses_anyhow(def),
        Statement::VarDecl { value, .. } => expr_uses_anyhow(value),
        Statement::AssignStmt { lhs, rhs } => expr_uses_anyhow(lhs) || expr_uses_anyhow(rhs),
        Statement::On { condition, body, else_clause, error_clauses } => expr_uses_anyhow(condition) || stmts_use_anyhow(body.statements@)
            || (match else_clause { Some(off) => stmts_use_anyhow(off.body.statements@), None => false })
            || (match error_clauses { Some(c) => clauses_use_anyhow(c), None => false }),
        Statement::LoopOn { condition, body, .. } => expr_uses_anyhow(condition) || stmts_use_anyhow(body.statements@),
        Statement::LoopIter { iterable, step, filter, body, else_clause, .. } => expr_uses_anyhow(iterable)
            || (match step { Some(st) => expr_uses_anyhow(st.value), None => false })
            || (match filter { Some(fl) => expr_uses_anyhow(fl.condition), None => false })
            || stmts_use_anyhow(body.statements@)
            || (match else_clause { Some(off) => stmts_use_anyhow(off.body.statements@), None => false }),
        Statement::Give(_, ch, val) => expr_uses_anyhow(ch) || expr_uses_anyhow(val),
        Statement::Close(_, ch) => expr_uses_anyhow(ch),
        Statement::Return(_, value) => match value { Some(e) => expr_uses_anyhow(e), None => false },
        Statement::Check(_, condition, _) => expr_uses_anyhow(condition),
        Statement::ExprStmt(e) => expr_uses_anyhow(e),
        Statement::Documented { item, .. } => match item {
            AnnotatableItem::StructDef(def) => struct_uses_anyhow(def),
            AnnotatableItem::HandleDef(_) => false,
            AnnotatableItem::FunctionDef(def) => function_uses_anyhow(def),
            AnnotatableItem::RustFnDecl(def) => rust_fn_uses_anyhow(def),
        },
        _ => false,
    }
}

fn stmt_uses_anyhow_exec(s: &Statement) -> (r: bool)
    ensures
        r == stmt_uses_anyhow(*s),
    decreases s,
{
    match s {
        Statement::ErrorDef { .. } => true,
        Statement::FunctionDef(def) => function_uses_anyhow_exec(def),
        Statement::RustFnDecl(def) => rust_fn_uses_anyhow_exec(def),
        Statement::VarDecl { value, .. } => expr_uses_anyhow_exec(value),
        Statement::AssignStmt { lhs, rhs } => expr_uses_anyhow_exec(lhs) || expr_uses_anyhow_exec(rhs),
        Statement::On { condition, body, else_clause, error_clauses } => {
            if expr_uses_anyhow_exec(condition) || stmts_use_anyhow_exec(&body.statements) {
                return true;
            }
            let off = match else_clause {
                Some(off) => stmts_use_anyhow_exec(&off.body.statements),
                None => false,
            };
            if off {
                return true;
            }
            match error_clauses {
                Some(c) => clauses_use_anyhow_exec(c),
                None => false,
            }
        },
        Statement::LoopOn { condition, body, .. } => expr_uses_anyhow_exec(condition) || stmts_use_anyhow_exec(&body.statements),
        Statement::LoopIter { iterable, step, filter, body, else_clause, .. } => {
            if expr_uses_anyhow_exec(iterable) {
                return true;
            }
            let st = match step {
                Some(st) => expr_uses_anyhow_exec(&st.value),
                None => false,
            };
            let fl = match filter {
                Some(fl) => expr_uses_anyhow_exec(&fl.condition),
                None => false,
            };
            if st || fl || stmts_use_anyhow_exec(&body.statements) {
                return true;
            }
            match else_clause {
                Some(off) => stmts_use_anyhow_exec(&off.body.statements),
                None => false,
            }
        },
        Statement::Give(_, ch, val) => expr_uses_anyhow_exec(ch) || expr_uses_anyhow_exec(val),
        Statement::Close(_, ch) => expr_uses_anyhow_exec(ch),
        Statement::Return(_, value) => match value { Some(e) => expr_uses_anyhow_exec(e), None => false },
        Statement::Check(_, condition, _) => expr_uses_anyhow_exec(condition),
        Statement::ExprStmt(e) => expr_uses_anyhow_exec(e),
        Statement::Documented { item, .. } => match item {
            AnnotatableItem::StructDef(def) => struct_uses_anyhow_exec(def),
            AnnotatableItem::HandleDef(_) => false,
            AnnotatableItem::FunctionDef(def) => function_uses_anyhow_exec(def),
            AnnotatableItem::RustFnDecl(def) => rust_fn_uses_anyhow_exec(def),
        },
        _ => false,
    }
}

/// Whether the program declares or refers to errors, or declares a host function that can fail: such programs need the error support crate.
pub fn program_uses_anyhow(program: &Program) -> (r: bool)
    ensures
        r == stmts_use_anyhow(program.statements@),
{
    stmts_use_anyhow_exec(&program.statements)
}

// ---------------------------------------------------------------------------
// The console module

/// An expression uses a member of the console module other than its printing functions.
pub open spec fn expr_uses_std_io(e: Expression) -> bool
    decreases e,
{
    match e {
        Expression::ListInit(_, _, items) => exprs_use_std_io(items@),
        Expression::MapInit(_, _, _, pairs) => pairs_use_std_io(pairs@),
        Expression::StructInit(_, fields) => inits_use_std_io(fields@),
        Expression::FieldAccess(target, _, field) => match *target {
            Expression::Variable(module) => if is_std_io_module(module.value.value@) {
                !is_std_io_display(field.value.value@)
            } else {
                expr_uses_std_io(*target)
            },
            _ => expr_uses_std_io(*target),
        },
        Expression::Ref(_, target) => expr_uses_std_io(*target),
        Expression::Deref(_, target) => expr_uses_std_io(*target),
        Expression::Len(_, target) => expr_uses_std_io(*target),
        Expression::RunCall(_, target) => expr_uses_std_io(*target),
        Expression::Take(_, target) => expr_uses_std_io(*target),
        Expression::At(target, _, index) => expr_uses_std_io(*target) || expr_uses_std_io(*index),
        Expression::Push(target, _, index) => expr_uses_std_io(*target) || expr_uses_std_io(*index),
        Expression::Call(func, args) => expr_uses_std_io(*func) || exprs_use_std_io(args@),
        Expression::Add(l, r) => expr_uses_std_io(*l) || expr_uses_std_io(*r),
        Expression::Sub(l, r) => expr_uses_std_io(*l) || expr_uses_std_io(*r),
        Expression::Mul(l, r) => expr_uses_std_io(*l) || expr_uses_std_io(*r),
        Expression::Div(l, r) => expr_uses_std_io(*l) || expr_uses_std_io(*r),
        Expression::Eq(l, r) => expr_uses_std_io(*l) || expr_uses_std_io(*r),
        Expression::Neq(l, r) => expr_uses_std_io(*l) || expr_uses_std_io(*r),
        Expression::Gt(l, r) => expr_uses_std_io(*l) || expr_uses_std_io(*r),
        Expression::Lt(l, r) => expr_uses_std_io(*l) || expr_uses_std_io(*r),
        Expression::Geq(l, r) => expr_uses_std_io(*l) || expr_uses_std_io(*r),
        Expression::Leq(l, r) => expr_uses_std_io(*l) || expr_uses_std_io(*r),
        Expression::Range(l, r) => expr_uses_std_io(*l) || expr_uses_std_io(*r),
        _ => false,
    }
}

fn expr_uses_std_io_exec(e: &Expression) -> (r: bool)
    ensures
        r == expr_uses_std_io(*e),
    decreases e,
{
    match e {
        Expression::ListInit(_, _, items) => exprs_use_std_io_exec(items),
        Expression::MapInit(_, _, _, pairs) => pairs_use_std_io_exec(pairs),
        Expression::StructInit(_, fields) => inits_use_std_io_exec(fields),
        Expression::FieldAccess(target, _, field) => {
            if let Expression::Variable(module) = &**target {
                if str_eq(module.value.value.as_str(), "io") {
                    let name = field.value.value.as_str();
                    return !(str_eq(name, "print") || str_eq(name, "write") || str_eq(name, "eprint") || str_eq(name, "eprintline"));
                }
            }
            expr_uses_std_io_exec(target)
        },
        Expression::Ref(_, target) => expr_uses_std_io_exec(target),
        Expression::Deref(_, target) => expr_uses_std_io_exec(target),
        Expression::Len(_, target) => expr_uses_std_io_exec(target),
        Expression::RunCall(_, target) => expr_uses_std_io_exec(target),
        Expression::Take(_, target) => expr_uses_std_io_exec(target),
        Expression::At(target, _, index) => expr_uses_std_io_exec(target) || expr_uses_std_io_exec(index),
        Expression::Push(target, _, index) => expr_uses_std_io_exec(target) || expr_uses_std_io_exec(index),
        Expression::Call(func, args) => expr_uses_std_io_exec(func) || exprs_use_std_io_exec(args),
        Expression::Add(l, r) => expr_uses_std_io_exec(l) || expr_uses_std_io_exec(r),
        Expression::Sub(l, r) => expr_uses_std_io_exec(l) || expr_uses_std_io_exec(r),
        Expression::Mul(l, r) => expr_uses_std_io_exec(l) || expr_uses_std_io_exec(r),
        Expression::Div(l, r) => expr_uses_std_io_exec(l) || expr_uses_std_io_exec(r),
        Expression::Eq(l, r) => expr_uses_std_io_exec(l) || expr_uses_std_io_exec(r),
        Expression::Neq(l, r) => expr_uses_std_io_exec(l) || expr_uses_std_io_exec(r),
        Expression::Gt(l, r) => expr_uses_std_io_exec(l) || expr_uses_std_io_exec(r),
        Expression::Lt(l, r) => expr_uses_std_io_exec(l) || expr_uses_std_io_exec(r),
        Expression::Geq(l, r) => expr_uses_std_io_exec(l) || expr_uses_std_io_exec(r),
        Expression::Leq(l, r) => expr_uses_std_io_exec(l) || expr_uses_std_io_exec(r),
        Expression::Range(l, r) => expr_uses_std_io_exec(l) || expr_uses_std_io_exec(r),
        _ => false,
    }
}

/// Some expression of the list uses the feature.
pub open spec fn exprs_use_std_io(s: Seq<Expression>) -> bool
    decreases s,
{
    if s.len() == 0 {
        false
    } else {
        exprs_use_std_io(s.drop_last()) || expr_uses_std_io(s.last())
    }
}

proof fn lemma_exprs_use_std_io_prefix(s: Seq<Expression>, k: int)
    requires
        0 <= k <= s.len(),
        exprs_use_std_io(s.subrange(0, k)),
    ensures
        exprs_use_std_io(s),
    decreases s.len() - k,
{
    if k < s.len() {
        assert(s.subrange(0, k + 1).drop_last() =~= s.subrange(0, k));
        lemma_exprs_use_std_io_prefix(s, k + 1);
    } else {
        assert(s.subrange(0, k) =~= s);
    }
}

fn exprs_use_std_io_exec(items: &Vec<Expression>) -> (r: bool)
    ensures
        r == exprs_use_std_io(items@),
    decreases items,
{
    let mut i: usize = 0;
    while i < items.len()
        invariant
            i <= items@.len(),
            !exprs_use_std_io(items@.subrange(0, i as int)),
        decreases items.len() - i,
    {
        proof {
            assert(items@.subrange(0, i + 1).drop_last() =~= items@.subrange(0, i as int));
        }
        proof {
            assert(decreases_to!(items => items@[i as int]));
        }
        if expr_uses_std_io_exec(&items[i]) {
            proof {
                lemma_exprs_use_std_io_prefix(items@, i + 1);
            }
            return true;
        }
        i = i + 1;
    }
    proof {
        assert(items@.subrange(0, items@.len() as int) =~= items@);
    }
    false
}

/// Some key or value of the map entries uses the feature.
pub open spec fn pairs_use_std_io(s: Seq<MapPair>) -> bool
    decreases s,
{
    if s.len() == 0 {
        false
    } else {
        pairs_use_std_io(s.drop_last()) || (expr_uses_std_io(s.last().key) || expr_uses_std_io(s.last().value))
    }
}

proof fn lemma_pairs_use_std_io_prefix(s: Seq<MapPair>, k: int)
    requires
        0 <= k <= s.len(),
        pairs_use_std_io(s.subrange(0, k)),
    ensures
        pairs_use_std_io(s),
    decreases s.len() - k,
{
    if k < s.len() {
        assert(s.subrange(0, k + 1).drop_last() =~= s.subrange(0, k));
        lemma_pairs_use_std_io_prefix(s, k + 1);
    } else {
        assert(s.subrange(0, k) =~= s);
    }
}

fn pairs_use_std_io_exec(items: &Vec<MapPair>) -> (r: bool)
    ensures
        r == pairs_use_std_io(items@),
    decreases items,
{
    let mut i: usize = 0;
    while i < items.len()
        invariant
            i <= items@.len(),
            !pairs_use_std_io(items@.subrange(0, i as int)),
        decreases items.len() - i,
    {
        proof {
            assert(items@.subrange(0, i + 1).drop_last() =~= items@.subrange(0, i as int));
        }
        proof {
            assert(decreases_to!(items => items@[i as int]));
        }
        if (expr_uses_std_io_exec(&items[i].key) || expr_uses_std_io_exec(&items[i].value)) {
            proof {
                lemma_pairs_use_std_io_prefix(items@, i + 1);
            }
            return true;
        }
        i = i + 1;
    }
    proof {
        assert(items@.subrange(0, items@.len() as int) =~= items@);
    }
    false
}

/// Some field value uses the feature.
pub open spec fn inits_use_std_io(s: Seq<FieldInit>) -> bool
    decreases s,
{
    if s.len() == 0 {
        false
    } else {
        inits_use_std_io(s.drop_last()) || expr_uses_std_io(s.last().value)
    }
}

proof fn lemma_inits_use_std_io_prefix(s: Seq<FieldInit>, k: int)
    requires
        0 <= k <= s.len(),
        inits_use_std_io(s.subrange(0, k)),
    ensures
        inits_use_std_io(s),
    decreases s.len() - k,
{
    if k < s.len() {
        assert(s.subrange(0, k + 1).drop_last() =~= s.subrange(0, k));
        lemma_inits_use_std_io_prefix(s, k + 1);
    } else {
        assert(s.subrange(0, k) =~= s);
    }
}

fn inits_use_std_io_exec(items: &Vec<FieldInit>) -> (r: bool)
    ensures
        r == inits_use_std_io(items@),
    decreases items,
{
    let mut i: usize = 0;
    while i < items.len()
        invariant
            i <= items@.len(),
            !inits_use_std_io(items@.subrange(0, i as int)),
        decreases items.len() - i,
    {
        proof {
            assert(items@.subrange(0, i + 1).drop_last() =~= items@.subrange(0, i as int));
        }
        proof {
            assert(decreases_to!(items => items@[i as int]));
        }
        if expr_uses_std_io_exec(&items[i].value) {
            proof {
                lemma_inits_use_std_io_prefix(items@, i + 1);
            }
            return true;
        }
        i = i + 1;
    }
    proof {
        assert(items@.subrange(0, items@.len() as int) =~= items@);
    }
    false
}

/// Some statement of the list uses the feature.
pub open spec fn stmts_use_std_io(s: Seq<Statement>) -> bool
    decreases s,
{
    if s.len() == 0 {
        false
    } else {
        stmts_use_std_io(s.drop_last()) || stmt_uses_std_io(s.last())
    }
}

proof fn lemma_stmts_use_std_io_prefix(s: Seq<Statement>, k: int)
    requires
        0 <= k <= s.len(),
        stmts_use_std_io(s.subrange(0, k)),
    ensures
        stmts_use_std_io(s),
    decreases s.len() - k,
{
    if k < s.len() {
        assert(s.subrange(0, k + 1).drop_last() =~= s.subrange(0, k));
        lemma_stmts_use_std_io_prefix(s, k + 1);
    } else {
        assert(s.subrange(0, k) =~= s);
    }
}

fn stmts_use_std_io_exec(items: &Vec<Statement>) -> (r: bool)
    ensures
        r == stmts_use_std_io(items@),
    decreases items,
{
    let mut i: usize = 0;
    while i < items.len()
        invariant
            i <= items@.len(),
            !stmts_use_std_io(items@.subrange(0, i as int)),
        decreases items.len() - i,
    {
        proof {
            assert(items@.subrange(0, i + 1).drop_last() =~= items@.subrange(0, i as int));
        }
        proof {
            assert(decreases_to!(items => items@[i as int]));
        }
        if stmt_uses_std_io_exec(&items[i]) {
            proof {
                lemma_stmts_use_std_io_prefix(items@, i + 1);
            }
            return true;
        }
        i = i + 1;
    }
    proof {
        assert(items@.subrange(0, items@.len() as int) =~= items@);
    }
    false
}

pub open spec fn clauses_use_std_io(c: ErrorClauseList) -> bool
    decreases c,
{
    stmts_use_std_io(c.first.body.statements@) || match c.rest {
        Some(rest) => clauses_use_std_io(*rest),
        None => false,
    }
}

fn clauses_use_std_io_exec(c: &ErrorClauseList) -> (r: bool)
    ensures
        r == clauses_use_std_io(*c),
    decreases c,
{
    if stmts_use_std_io_exec(&c.first.body.statements) {
        return true;
    }
    match &c.rest {
        Some(rest) => clauses_use_std_io_exec(rest),
        None => false,
    }
}

pub open spec fn function_uses_std_io(def: FunctionDef) -> bool
    decreases def,
{
    stmts_use_std_io(def.body.statements@)
}

fn function_uses_std_io_exec(def: &FunctionDef) -> (r: bool)
    ensures
        r == function_uses_std_io(*def),
    decreases def,
{
    stmts_use_std_io_exec(&def.body.statements)
}

pub open spec fn rust_fn_uses_std_io(def: RustFnDecl) -> bool {
    false
}

fn rust_fn_uses_std_io_exec(def: &RustFnDecl) -> (r: bool)
    ensures
        r == rust_fn_uses_std_io(*def),
{
    false
}

pub open spec fn struct_uses_std_io(def: StructDef) -> bool {
    false
}

fn struct_uses_std_io_exec(def: &StructDef) -> (r: bool)
    ensures
        r == struct_uses_std_io(*def),
{
    false
}

/// A statement uses a member of the console module other than its printing functions.
pub open spec fn stmt_uses_std_io(s: Statement) -> bool
    decreases s,
{
    match s {
        Statement::FunctionDef(def) => function_uses_std_io(def),
        Statement::VarDecl { value, .. } => expr_uses_std_io(value),
        Statement::AssignStmt { lhs, rhs } => expr_uses_std_io(lhs) || expr_uses_std_io(rhs),
        Statement::On { condition, body, else_clause, error_clauses } => expr_uses_std_io(condition) || stmts_use_std_io(body.statements@)
            || (match else_clause { Some(off) => stmts_use_std_io(off.body.statements@), None => false })
            || (match error_clauses { Some(c) => clauses_use_std_io(c), None => false }),
        Statement::LoopOn { condition, body, .. } => expr_uses_std_io(condition) || stmts_use_std_io(body.statements@),
        Statement::LoopIter { iterable, step, filter, body, else_clause, .. } => expr_uses_std_io(iterable)
            || (match step { Some(st) => expr_uses_std_io(st.value), None => false })
            || (match filter { Some(fl) => expr_uses_std_io(fl.condition), None => false })
            || stmts_use_std_io(body.statements@)
            || (match else_clause { Some(off) => stmts_use_std_io(off.body.statements@), None => false }),
        Statement::Give(_, ch, val) => expr_uses_std_io(ch) || expr_uses_std_io(val),
        Statement::Close(_, ch) => expr_uses_std_io(ch),
        Statement::Return(_, value) => match value { Some(e) => expr_uses_std_io(e), None => false },
        Statement::Check(_, condition, _) => expr_uses_std_io(condition),
        Statement::ExprStmt(e) => expr_uses_std_io(e),
        Statement::Documented { item, .. } => match item {
            AnnotatableItem::StructDef(def) => struct_uses_std_io(def),
            AnnotatableItem::HandleDef(_) => false,
            AnnotatableItem::FunctionDef(def) => function_uses_std_io(def),
            AnnotatableItem::RustFnDecl(def) => rust_fn_uses_std_io(def),
        },
        _ => false,
    }
}

fn stmt_uses_std_io_exec(s: &Statement) -> (r: bool)
    ensures
        r == stmt_uses_std_io(*s),
    decreases s,
{
    match s {
        Statement::FunctionDef(def) => function_uses_std_io_exec(def),
        Statement::VarDecl { value, .. } => expr_uses_std_io_exec(value),
        Statement::AssignStmt { lhs, rhs } => expr_uses_std_io_exec(lhs) || expr_uses_std_io_exec(rhs),
        Statement::On { condition, body, else_clause, error_clauses } => {
            if expr_uses_std_io_exec(condition) || stmts_use_std_io_exec(&body.statements) {
                return true;
            }
            let off = match else_clause {
                Some(off) => stmts_use_std_io_exec(&off.body.statements),
                None => false,
            };
            if off {
                return true;
            }
            match error_clauses {
                Some(c) => clauses_use_std_io_exec(c),
                None => false,
            }
        },
        Statement::LoopOn { condition, body, .. } => expr_uses_std_io_exec(condition) || stmts_use_std_io_exec(&body.statements),
        Statement::LoopIter { iterable, step, filter, body, else_clause, .. } => {
            if expr_uses_std_io_exec(iterable) {
                return true;
            }
            let st = match step {
                Some(st) => expr_uses_std_io_exec(&st.value),
                None => false,
            };
            let fl = match filter {
                Some(fl) => expr_uses_std_io_exec(&fl.condition),
                None => false,
            };
            if st || fl || stmts_use_std_io_exec(&body.statements) {
                return true;
            }
            match else_clause {
                Some(off) => stmts_use_std_io_exec(&off.body.statements),
                None => false,
            }
        },
        Statement::Give(_, ch, val) => expr_uses_std_io_exec(ch) || expr_uses_std_io_exec(val),
        Statement::Close(_, ch) => expr_uses_std_io_exec(ch),
        Statement::Return(_, value) => match value { Some(e) => expr_uses_std_io_exec(e), None => false },
        Statement::Check(_, condition, _) => expr_uses_std_io_exec(condition),
        Statement::ExprStmt(e) => expr_uses_std_io_exec(e),
        Statement::Documented { item, .. } => match item {
            AnnotatableItem::StructDef(def) => struct_uses_std_io_exec(def),
            AnnotatableItem::HandleDef(_) => false,
            AnnotatableItem::FunctionDef(def) => function_uses_std_io_exec(def),
            AnnotatableItem::RustFnDecl(def) => rust_fn_uses_std_io_exec(def),
        },
        _ => false,
    }
}

/// Whether the program uses the console module beyond its printing functions, which compile to direct printing.
pub fn program_uses_std_io_module(program: &Program) -> (r: bool)
    ensures
        r == stmts_use_std_io(program.statements@),
{
    stmts_use_std_io_exec(&program.statements)
}

} // verus!
