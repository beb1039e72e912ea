//! The compiler's knowledge of the functions of a program, and the rule that only pure
//! functions may call themselves, directly or through other functions.
use vstd::prelude::*;
use vstd::string::StringSliceAdditionalSpecFns;

use crate::errors::diagnostic::{byte_span_located, text_of};
use crate::errors::{ErrorCode, ErrorPhase, KiroError, SourceSpan};
use crate::grammar::{
    copy_type, param_models, type_model, AnnotatableItem, DocComment, ErrorClauseList,
    Expression, FieldInit, FuncParam, FunctionDef, KiroType, MapPair, Program, Statement,
    TypeModel,
};
use crate::graph::{adj_closed, adj_edge, adj_view, lemma_reaches_step, reached_from, reaches};
use crate::text::{
    chars_of, is_white, is_white_exec, join_with, lemma_join_push, push_str, str_eq, string_of,
    trim_end_white, trim_start_white,
};

verus! {

/// What the compiler knows of a function from its declaration.
#[derive(Debug, Clone)]
pub struct FunctionInfo {
    pub is_pure: bool,
    pub can_error: bool,
    pub params: Vec<KiroType>,
    pub return_type: Option<KiroType>,
    pub doc: Option<String>,
}

/// The mathematical value of a function's information.
pub struct InfoModel {
    pub is_pure: bool,
    pub can_error: bool,
    pub params: Seq<TypeModel>,
    pub return_type: Option<TypeModel>,
    pub doc: Option<Seq<char>>,
}

/// The model of an optional type.
pub open spec fn opt_type_model(t: Option<KiroType>) -> Option<TypeModel> {
    match t {
        Some(t) => Some(type_model(t)),
        None => None,
    }
}

impl View for FunctionInfo {
    type V = InfoModel;

    open spec fn view(&self) -> InfoModel {
        InfoModel {
            is_pure: self.is_pure,
            can_error: self.can_error,
            params: param_models(self.params@),
            return_type: opt_type_model(self.return_type),
            doc: text_of(self.doc),
        }
    }
}

/// The function table that a list of entries stands for: a later entry for a name
/// replaces an earlier one.
pub open spec fn function_table(v: Seq<(String, FunctionInfo)>) -> Map<Seq<char>, InfoModel>
    decreases v.len(),
{
    if v.len() == 0 {
        Map::empty()
    } else {
        function_table(v.drop_last()).insert(v.last().0@, v.last().1@)
    }
}

/// The table of functions of a module, keyed by module and function name, a later
/// entry replacing an earlier one.
pub open spec fn module_function_table(v: Seq<((String, String), FunctionInfo)>) -> Map<(Seq<char>, Seq<char>), InfoModel>
    decreases v.len(),
{
    if v.len() == 0 {
        Map::empty()
    } else {
        module_function_table(v.drop_last()).insert((v.last().0.0@, v.last().0.1@), v.last().1@)
    }
}

/// The compiler's state: the functions of the current module, those of imported
/// modules, the modules it knows and the module being compiled.
pub struct Compiler {
    pub functions: Vec<(String, FunctionInfo)>,
    pub module_functions: Vec<((String, String), FunctionInfo)>,
    pub known_modules: Vec<String>,
    pub current_module: String,
}

/// The message of the effectful-recursion error.
pub const EFFECTFUL_RECURSION_MESSAGE: &'static str = "Recursive calls are only supported in pure fn. Effectful recursive functions are not supported yet; use a loop or split pure recursion from effects.";

// ---------------------------------------------------------------------------
// Documentation text

/// `s` without leading repetitions of `///`.
pub open spec fn strip_doc_slashes(s: Seq<char>) -> Seq<char>
    decreases s.len(),
{
    if s.len() >= 3 && s[0] == '/' && s[1] == '/' && s[2] == '/' {
        strip_doc_slashes(s.subrange(3, s.len() as int))
    } else {
        s
    }
}

/// One documentation line as shown: without its `///` and the white space around the text.
pub open spec fn doc_line_text(content: Seq<char>) -> Seq<char> {
    trim_end_white(trim_start_white(strip_doc_slashes(content)))
}

pub open spec fn doc_line_texts(docs: Seq<DocComment>) -> Seq<Seq<char>> {
    Seq::new(docs.len(), |i: int| doc_line_text(docs[i].content@))
}

/// The documentation of an item: its lines as shown, joined by newlines.
pub open spec fn doc_text(docs: Seq<DocComment>) -> Seq<char> {
    join_with(doc_line_texts(docs), "\n"@)
}

fn doc_line(content: &str) -> (r: String)
    ensures
        r@ == doc_line_text(content@),
{
    let v = chars_of(content);
    let n = v.len();
    let mut i: usize = 0;
    proof {
        assert(v@.subrange(0, n as int) =~= v@);
    }
    while n >= 3 && i <= n - 3 && v[i] == '/' && v[i + 1] == '/' && v[i + 2] == '/'
        invariant
            n == v@.len(),
            i <= n,
            strip_doc_slashes(v@) == strip_doc_slashes(v@.subrange(i as int, n as int)),
        decreases n - i,
    {
        proof {
            let t = v@.subrange(i as int, n as int);
            assert(t.subrange(3, t.len() as int) =~= v@.subrange(i + 3, n as int));
        }
        i = i + 3;
    }
    proof {
        let t = v@.subrange(i as int, n as int);
        if t.len() >= 3 {
            assert(t[0] == v@[i as int] && t[1] == v@[i + 1] && t[2] == v@[i + 2]);
        }
    }
    let ghost stripped = v@.subrange(i as int, n as int);
    let mut start = i;
    while start < n && is_white_exec(v[start])
        invariant
            n == v@.len(),
            i <= start <= n,
            trim_start_white(stripped) == trim_start_white(v@.subrange(start as int, n as int)),
        decreases n - start,
    {
        proof {
            assert(v@.subrange(start as int, n as int).drop_first() =~= v@.subrange(start + 1, n as int));
        }
        start = start + 1;
    }
    let mut end = n;
    while end > start && is_white_exec(v[end - 1])
        invariant
            n == v@.len(),
            start <= end <= n,
            trim_end_white(v@.subrange(start as int, n as int)) == trim_end_white(v@.subrange(start as int, end as int)),
        decreases end - start,
    {
        proof {
            assert(v@.subrange(start as int, end as int).drop_last() =~= v@.subrange(start as int, end - 1));
        }
        end = end - 1;
    }
    let r = string_of(vstd::slice::slice_subrange(v.as_slice(), start, end));
    proof {
        let t = v@.subrange(start as int, end as int);
        assert(trim_end_white(t) == t);
        assert(trim_start_white(v@.subrange(start as int, n as int)) == v@.subrange(start as int, n as int));
    }
    r
}

fn doc_string(docs: &Vec<DocComment>) -> (r: String)
    ensures
        r@ == doc_text(docs@),
{
    let mut r = String::new();
    let mut i: usize = 0;
    while i < docs.len()
        invariant
            i <= docs@.len(),
            r@ == join_with(doc_line_texts(docs@.subrange(0, i as int)), "\n"@),
        decreases docs.len() - i,
    {
        let ghost piece = doc_line_text(docs@[i as int].content@);
        proof {
            assert(doc_line_texts(docs@.subrange(0, i + 1)) =~= doc_line_texts(docs@.subrange(0, i as int)).push(piece));
            lemma_join_push(doc_line_texts(docs@.subrange(0, i as int)), "\n"@, piece);
            if i == 0 {
                assert(doc_line_texts(docs@.subrange(0, 0)) =~= Seq::<Seq<char>>::empty());
            }
        }
        if i > 0 {
            push_str(&mut r, "\n");
        }
        let line = doc_line(docs[i].content.as_str());
        let ghost before = r@;
        push_str(&mut r, line.as_str());
        proof {
            if i == 0 {
                assert(r@ =~= piece);
            }
        }
        i = i + 1;
    }
    proof {
        assert(docs@.subrange(0, docs@.len() as int) =~= docs@);
    }
    r
}

// ---------------------------------------------------------------------------
// The function table of a program

/// The models of the parameter types of a declaration.
pub open spec fn param_type_models(ps: Seq<FuncParam>) -> Seq<TypeModel> {
    Seq::new(ps.len(), |i: int| type_model(ps[i].command_type))
}

/// The table entry of a statement that declares a function.
pub open spec fn entry_of(s: Statement) -> Option<(Seq<char>, InfoModel)> {
    match s {
        Statement::FunctionDef(def) => Some((def.name.value.value@, InfoModel {
            is_pure: def.pure_kw is Some,
            can_error: def.can_error is Some,
            params: param_type_models(def.params@),
            return_type: opt_type_model(def.return_type),
            doc: None,
        })),
        Statement::RustFnDecl(def) => Some((def.name.value.value@, InfoModel {
            is_pure: def.pure_kw is Some,
            can_error: def.can_error is Some,
            params: param_type_models(def.params@),
            return_type: Some(type_model(def.return_type)),
            doc: None,
        })),
        Statement::Documented { doc, item } => match item {
            AnnotatableItem::FunctionDef(def) => Some((def.name.value.value@, InfoModel {
                is_pure: def.pure_kw is Some,
                can_error: def.can_error is Some,
                params: param_type_models(def.params@),
                return_type: opt_type_model(def.return_type),
                doc: Some(doc_text(doc@)),
            })),
            AnnotatableItem::RustFnDecl(def) => Some((def.name.value.value@, InfoModel {
                is_pure: def.pure_kw is Some,
                can_error: def.can_error is Some,
                params: param_type_models(def.params@),
                return_type: Some(type_model(def.return_type)),
                doc: Some(doc_text(doc@)),
            })),
            _ => None,
        },
        _ => None,
    }
}

/// The functions declared by a list of statements; a later declaration of a name replaces an earlier one.
pub open spec fn collected_functions(stmts: Seq<Statement>) -> Map<Seq<char>, InfoModel>
    decreases stmts.len(),
{
    if stmts.len() == 0 {
        Map::empty()
    } else {
        let rest = collected_functions(stmts.drop_last());
        match entry_of(stmts.last()) {
            Some(e) => rest.insert(e.0, e.1),
            None => rest,
        }
    }
}

fn param_types(params: &Vec<FuncParam>) -> (r: Vec<KiroType>)
    ensures
        param_models(r@) == param_type_models(params@),
{
    let mut out: Vec<KiroType> = Vec::new();
    let mut i: usize = 0;
    while i < params.len()
        invariant
            i <= params@.len(),
            out@.len() == i,
            forall|j: int| 0 <= j < i ==> type_model(#[trigger] out@[j]) == type_model(params@[j].command_type),
        decreases params.len() - i,
    {
        out.push(copy_type(&params[i].command_type));
        i = i + 1;
    }
    proof {
        assert(param_models(out@) =~= param_type_models(params@));
    }
    out
}

pub(crate) fn copy_opt_type(t: &Option<KiroType>) -> (r: Option<KiroType>)
    ensures
        opt_type_model(r) == opt_type_model(*t),
{
    match t {
        Some(t) => Some(copy_type(t)),
        None => None,
    }
}

fn entry_exec(s: &Statement) -> (r: Option<(String, FunctionInfo)>)
    ensures
        match r {
            Some(e) => entry_of(*s) == Some((e.0@, e.1@)),
            None => entry_of(*s) is None,
        },
{
    match s {
        Statement::FunctionDef(def) => Some((def.name.value.value.clone(), FunctionInfo {
            is_pure: def.pure_kw.is_some(),
            can_error: def.can_error.is_some(),
            params: param_types(&def.params),
            return_type: copy_opt_type(&def.return_type),
            doc: None,
        })),
        Statement::RustFnDecl(def) => Some((def.name.value.value.clone(), FunctionInfo {
            is_pure: def.pure_kw.is_some(),
            can_error: def.can_error.is_some(),
            params: param_types(&def.params),
            return_type: Some(copy_type(&def.return_type)),
            doc: None,
        })),
        Statement::Documented { doc, item } => match item {
            AnnotatableItem::FunctionDef(def) => Some((def.name.value.value.clone(), FunctionInfo {
                is_pure: def.pure_kw.is_some(),
                can_error: def.can_error.is_some(),
                params: param_types(&def.params),
                return_type: copy_opt_type(&def.return_type),
                doc: Some(doc_string(doc)),
            })),
            AnnotatableItem::RustFnDecl(def) => Some((def.name.value.value.clone(), FunctionInfo {
                is_pure: def.pure_kw.is_some(),
                can_error: def.can_error.is_some(),
                params: param_types(&def.params),
                return_type: Some(copy_type(&def.return_type)),
                doc: Some(doc_string(doc)),
            })),
            _ => None,
        },
        _ => None,
    }
}

// ---------------------------------------------------------------------------
// Calls

/// Some name of the list is `x`.
pub open spec fn has_name(names: Seq<String>, x: Seq<char>) -> bool {
    exists|k: int| 0 <= k < names.len() && #[trigger] names[k]@ == x
}

fn has_name_exec(names: &Vec<String>, x: &str) -> (r: bool)
    ensures
        r == has_name(names@, x@),
{
    let mut i: usize = 0;
    while i < names.len()
        invariant
            i <= names@.len(),
            forall|k: int| 0 <= k < i ==> #[trigger] names@[k]@ != x@,
        decreases names.len() - i,
    {
        if str_eq(names[i].as_str(), x) {
            return true;
        }
        i = i + 1;
    }
    false
}

/// An expression calls the local function `x` by name, where it is evaluated.
pub open spec fn expr_calls(e: Expression, locals: Seq<String>, x: Seq<char>) -> bool
    decreases e,
{
    match e {
        Expression::FieldAccess(target, _, _) => expr_calls(*target, locals, x),
        Expression::At(target, _, _) => expr_calls(*target, locals, x),
        Expression::Push(target, _, _) => expr_calls(*target, locals, x),
        Expression::Ref(_, target) => expr_calls(*target, locals, x),
        Expression::Deref(_, target) => expr_calls(*target, locals, x),
        Expression::Take(_, target) => expr_calls(*target, locals, x),
        Expression::Len(_, target) => expr_calls(*target, locals, x),
        Expression::RunCall(_, target) => expr_calls(*target, locals, x),
        Expression::StructInit(_, fields) => inits_call(fields@, locals, x),
        Expression::ListInit(_, _, items) => exprs_call(items@, locals, x),
        Expression::MapInit(_, _, _, pairs) => pairs_call(pairs@, locals, x),
        Expression::Call(func, args) => (match *func {
            Expression::Variable(v) => has_name(locals, v.value.value@) && v.value.value@ == x,
            _ => false,
        }) || expr_calls(*func, locals, x) || exprs_call(args@, locals, x),
        Expression::Add(l, r) => expr_calls(*l, locals, x) || expr_calls(*r, locals, x),
        Expression::Sub(l, r) => expr_calls(*l, locals, x) || expr_calls(*r, locals, x),
        Expression::Mul(l, r) => expr_calls(*l, locals, x) || expr_calls(*r, locals, x),
        Expression::Div(l, r) => expr_calls(*l, locals, x) || expr_calls(*r, locals, x),
        Expression::Eq(l, r) => expr_calls(*l, locals, x) || expr_calls(*r, locals, x),
        Expression::Neq(l, r) => expr_calls(*l, locals, x) || expr_calls(*r, locals, x),
        Expression::Gt(l, r) => expr_calls(*l, locals, x) || expr_calls(*r, locals, x),
        Expression::Lt(l, r) => expr_calls(*l, locals, x) || expr_calls(*r, locals, x),
        Expression::Geq(l, r) => expr_calls(*l, locals, x) || expr_calls(*r, locals, x),
        Expression::Leq(l, r) => expr_calls(*l, locals, x) || expr_calls(*r, locals, x),
        Expression::Range(l, r) => expr_calls(*l, locals, x) || expr_calls(*r, locals, x),
        _ => false,
    }
}

fn expr_calls_exec(e: &Expression, locals: &Vec<String>, x: &str) -> (r: bool)
    ensures
        r == expr_calls(*e, locals@, x@),
    decreases e,
{
    match e {
        Expression::FieldAccess(target, _, _) => expr_calls_exec(target, locals, x),
        Expression::At(target, _, _) => expr_calls_exec(target, locals, x),
        Expression::Push(target, _, _) => expr_calls_exec(target, locals, x),
        Expression::Ref(_, target) => expr_calls_exec(target, locals, x),
        Expression::Deref(_, target) => expr_calls_exec(target, locals, x),
        Expression::Take(_, target) => expr_calls_exec(target, locals, x),
        Expression::Len(_, target) => expr_calls_exec(target, locals, x),
        Expression::RunCall(_, target) => expr_calls_exec(target, locals, x),
        Expression::StructInit(_, fields) => inits_call_exec(fields, locals, x),
        Expression::ListInit(_, _, items) => exprs_call_exec(items, locals, x),
        Expression::MapInit(_, _, _, pairs) => pairs_call_exec(pairs, locals, x),
        Expression::Call(func, args) => {
            if let Expression::Variable(v) = &**func {
                if str_eq(v.value.value.as_str(), x) && has_name_exec(locals, x) {
                    return true;
                }
            }
            expr_calls_exec(func, locals, x) || exprs_call_exec(args, locals, x)
        },
        Expression::Add(l, r) => expr_calls_exec(l, locals, x) || expr_calls_exec(r, locals, x),
        Expression::Sub(l, r) => expr_calls_exec(l, locals, x) || expr_calls_exec(r, locals, x),
        Expression::Mul(l, r) => expr_calls_exec(l, locals, x) || expr_calls_exec(r, locals, x),
        Expression::Div(l, r) => expr_calls_exec(l, locals, x) || expr_calls_exec(r, locals, x),
        Expression::Eq(l, r) => expr_calls_exec(l, locals, x) || expr_calls_exec(r, locals, x),
        Expression::Neq(l, r) => expr_calls_exec(l, locals, x) || expr_calls_exec(r, locals, x),
        Expression::Gt(l, r) => expr_calls_exec(l, locals, x) || expr_calls_exec(r, locals, x),
        Expression::Lt(l, r) => expr_calls_exec(l, locals, x) || expr_calls_exec(r, locals, x),
        Expression::Geq(l, r) => expr_calls_exec(l, locals, x) || expr_calls_exec(r, locals, x),
        Expression::Leq(l, r) => expr_calls_exec(l, locals, x) || expr_calls_exec(r, locals, x),
        Expression::Range(l, r) => expr_calls_exec(l, locals, x) || expr_calls_exec(r, locals, x),
        _ => false,
    }
}
/// Some expression of the list calls `x`.
pub open spec fn exprs_call(s: Seq<Expression>, locals: Seq<String>, x: Seq<char>) -> bool
    decreases s,
{
    if s.len() == 0 {
        false
    } else {
        exprs_call(s.drop_last(), locals, x) || expr_calls(s.last(), locals, x)
    }
}

proof fn lemma_exprs_call_prefix(s: Seq<Expression>, locals: Seq<String>, x: Seq<char>, k: int)
    requires
        0 <= k <= s.len(),
        exprs_call(s.subrange(0, k), locals, x),
    ensures
        exprs_call(s, locals, x),
    decreases s.len() - k,
{
    if k < s.len() {
        assert(s.subrange(0, k + 1).drop_last() =~= s.subrange(0, k));
        lemma_exprs_call_prefix(s, locals, x, k + 1);
    } else {
        assert(s.subrange(0, k) =~= s);
    }
}

fn exprs_call_exec(items: &Vec<Expression>, locals: &Vec<String>, x: &str) -> (r: bool)
    ensures
        r == exprs_call(items@, locals@, x@),
    decreases items,
{
    let mut i: usize = 0;
    while i < items.len()
        invariant
            i <= items@.len(),
            !exprs_call(items@.subrange(0, i as int), locals@, x@),
        decreases items.len() - i,
    {
        proof {
            assert(items@.subrange(0, i + 1).drop_last() =~= items@.subrange(0, i as int));
        }
        proof {
            assert(decreases_to!(items => items@[i as int]));
        }
        if expr_calls_exec(&items[i], locals, x) {
            proof {
                lemma_exprs_call_prefix(items@, locals@, x@, i + 1);
            }
            return true;
        }
        i = i + 1;
    }
    proof {
        assert(items@.subrange(0, items@.len() as int) =~= items@);
    }
    false
}
/// Some key or value of the entries calls `x`.
pub open spec fn pairs_call(s: Seq<MapPair>, locals: Seq<String>, x: Seq<char>) -> bool
    decreases s,
{
    if s.len() == 0 {
        false
    } else {
        pairs_call(s.drop_last(), locals, x) || (expr_calls(s.last().key, locals, x) || expr_calls(s.last().value, locals, x))
    }
}

proof fn lemma_pairs_call_prefix(s: Seq<MapPair>, locals: Seq<String>, x: Seq<char>, k: int)
    requires
        0 <= k <= s.len(),
        pairs_call(s.subrange(0, k), locals, x),
    ensures
        pairs_call(s, locals, x),
    decreases s.len() - k,
{
    if k < s.len() {
        assert(s.subrange(0, k + 1).drop_last() =~= s.subrange(0, k));
        lemma_pairs_call_prefix(s, locals, x, k + 1);
    } else {
        assert(s.subrange(0, k) =~= s);
    }
}

fn pairs_call_exec(items: &Vec<MapPair>, locals: &Vec<String>, x: &str) -> (r: bool)
    ensures
        r == pairs_call(items@, locals@, x@),
    decreases items,
{
    let mut i: usize = 0;
    while i < items.len()
        invariant
            i <= items@.len(),
            !pairs_call(items@.subrange(0, i as int), locals@, x@),
        decreases items.len() - i,
    {
        proof {
            assert(items@.subrange(0, i + 1).drop_last() =~= items@.subrange(0, i as int));
        }
        proof {
            assert(decreases_to!(items => items@[i as int]));
        }
        if (expr_calls_exec(&items[i].key, locals, x) || expr_calls_exec(&items[i].value, locals, x)) {
            proof {
                lemma_pairs_call_prefix(items@, locals@, x@, i + 1);
            }
            return true;
        }
        i = i + 1;
    }
    proof {
        assert(items@.subrange(0, items@.len() as int) =~= items@);
    }
    false
}
/// Some field value calls `x`.
pub open spec fn inits_call(s: Seq<FieldInit>, locals: Seq<String>, x: Seq<char>) -> bool
    decreases s,
{
    if s.len() == 0 {
        false
    } else {
        inits_call(s.drop_last(), locals, x) || expr_calls(s.last().value, locals, x)
    }
}

proof fn lemma_inits_call_prefix(s: Seq<FieldInit>, locals: Seq<String>, x: Seq<char>, k: int)
    requires
        0 <= k <= s.len(),
        inits_call(s.subrange(0, k), locals, x),
    ensures
        inits_call(s, locals, x),
    decreases s.len() - k,
{
    if k < s.len() {
        assert(s.subrange(0, k + 1).drop_last() =~= s.subrange(0, k));
        lemma_inits_call_prefix(s, locals, x, k + 1);
    } else {
        assert(s.subrange(0, k) =~= s);
    }
}

fn inits_call_exec(items: &Vec<FieldInit>, locals: &Vec<String>, x: &str) -> (r: bool)
    ensures
        r == inits_call(items@, locals@, x@),
    decreases items,
{
    let mut i: usize = 0;
    while i < items.len()
        invariant
            i <= items@.len(),
            !inits_call(items@.subrange(0, i as int), locals@, x@),
        decreases items.len() - i,
    {
        proof {
            assert(items@.subrange(0, i + 1).drop_last() =~= items@.subrange(0, i as int));
        }
        proof {
            assert(decreases_to!(items => items@[i as int]));
        }
        if expr_calls_exec(&items[i].value, locals, x) {
            proof {
                lemma_inits_call_prefix(items@, locals@, x@, i + 1);
            }
            return true;
        }
        i = i + 1;
    }
    proof {
        assert(items@.subrange(0, items@.len() as int) =~= items@);
    }
    false
}
/// Some statement of the list calls `x`.
pub open spec fn stmts_call(s: Seq<Statement>, locals: Seq<String>, x: Seq<char>) -> bool
    decreases s,
{
    if s.len() == 0 {
        false
    } else {
        stmts_call(s.drop_last(), locals, x) || stmt_calls(s.last(), locals, x)
    }
}

proof fn lemma_stmts_call_prefix(s: Seq<Statement>, locals: Seq<String>, x: Seq<char>, k: int)
    requires
        0 <= k <= s.len(),
        stmts_call(s.subrange(0, k), locals, x),
    ensures
        stmts_call(s, locals, x),
    decreases s.len() - k,
{
    if k < s.len() {
        assert(s.subrange(0, k + 1).drop_last() =~= s.subrange(0, k));
        lemma_stmts_call_prefix(s, locals, x, k + 1);
    } else {
        assert(s.subrange(0, k) =~= s);
    }
}

fn stmts_call_exec(items: &Vec<Statement>, locals: &Vec<String>, x: &str) -> (r: bool)
    ensures
        r == stmts_call(items@, locals@, x@),
    decreases items,
{
    let mut i: usize = 0;
    while i < items.len()
        invariant
            i <= items@.len(),
            !stmts_call(items@.subrange(0, i as int), locals@, x@),
        decreases items.len() - i,
    {
        proof {
            assert(items@.subrange(0, i + 1).drop_last() =~= items@.subrange(0, i as int));
        }
        proof {
            assert(decreases_to!(items => items@[i as int]));
        }
        if stmt_calls_exec(&items[i], locals, x) {
            proof {
                lemma_stmts_call_prefix(items@, locals@, x@, i + 1);
            }
            return true;
        }
        i = i + 1;
    }
    proof {
        assert(items@.subrange(0, items@.len() as int) =~= items@);
    }
    false
}

pub open spec fn clauses_call(c: ErrorClauseList, locals: Seq<String>, x: Seq<char>) -> bool
    decreases c,
{
    stmts_call(c.first.body.statements@, locals, x) || match c.rest {
        Some(rest) => clauses_call(*rest, locals, x),
        None => false,
    }
}

fn clauses_call_exec(c: &ErrorClauseList, locals: &Vec<String>, x: &str) -> (r: bool)
    ensures
        r == clauses_call(*c, locals@, x@),
    decreases c,
{
    if stmts_call_exec(&c.first.body.statements, locals, x) {
        return true;
    }
    match &c.rest {
        Some(rest) => clauses_call_exec(rest, locals, x),
        None => false,
    }
}

/// A statement calls the local function `x` by name, where it is evaluated; nested
/// declarations are not looked into, except the body of a documented function.
pub open spec fn stmt_calls(s: Statement, locals: Seq<String>, x: Seq<char>) -> bool
    decreases s,
{
    match s {
        Statement::VarDecl { value, .. } => expr_calls(value, locals, x),
        Statement::AssignStmt { lhs, rhs } => expr_calls(lhs, locals, x) || expr_calls(rhs, locals, x),
        Statement::On { condition, body, else_clause, error_clauses } => expr_calls(condition, locals, x) || stmts_call(body.statements@, locals, x)
            || (match else_clause { Some(off) => stmts_call(off.body.statements@, locals, x), None => false })
            || (match error_clauses { Some(c) => clauses_call(c, locals, x), None => false }),
        Statement::LoopOn { condition, body, .. } => expr_calls(condition, locals, x) || stmts_call(body.statements@, locals, x),
        Statement::LoopIter { iterable, step, filter, body, else_clause, .. } => expr_calls(iterable, locals, x)
            || (match step { Some(st) => expr_calls(st.value, locals, x), None => false })
            || (match filter { Some(fl) => expr_calls(fl.condition, locals, x), None => false })
            || stmts_call(body.statements@, locals, x)
            || (match else_clause { Some(off) => stmts_call(off.body.statements@, locals, x), None => false }),
        Statement::Give(_, ch, val) => expr_calls(ch, locals, x) || expr_calls(val, locals, x),
        Statement::Close(_, ch) => expr_calls(ch, locals, x),
        Statement::Return(_, value) => match value { Some(e) => expr_calls(e, locals, x), None => false },
        Statement::Check(_, condition, _) => expr_calls(condition, locals, x),
        Statement::ExprStmt(e) => expr_calls(e, locals, x),
        Statement::Documented { item, .. } => match item { AnnotatableItem::FunctionDef(def) => stmts_call(def.body.statements@, locals, x), _ => false },
        _ => false,
    }
}

fn stmt_calls_exec(s: &Statement, locals: &Vec<String>, x: &str) -> (r: bool)
    ensures
        r == stmt_calls(*s, locals@, x@),
    decreases s,
{
    match s {
        Statement::VarDecl { value, .. } => expr_calls_exec(value, locals, x),
        Statement::AssignStmt { lhs, rhs } => expr_calls_exec(lhs, locals, x) || expr_calls_exec(rhs, locals, x),
        Statement::On { condition, body, else_clause, error_clauses } => {
            if expr_calls_exec(condition, locals, x) || stmts_call_exec(&body.statements, locals, x) {
                return true;
            }
            let off = match else_clause {
                Some(off) => stmts_call_exec(&off.body.statements, locals, x),
                None => false,
            };
            if off {
                return true;
            }
            match error_clauses {
                Some(c) => clauses_call_exec(c, locals, x),
                None => false,
            }
        },
        Statement::LoopOn { condition, body, .. } => expr_calls_exec(condition, locals, x) || stmts_call_exec(&body.statements, locals, x),
        Statement::LoopIter { iterable, step, filter, body, else_clause, .. } => {
            if expr_calls_exec(iterable, locals, x) {
                return true;
            }
            let st = match step {
                Some(st) => expr_calls_exec(&st.value, locals, x),
                None => false,
            };
            let fl = match filter {
                Some(fl) => expr_calls_exec(&fl.condition, locals, x),
                None => false,
            };
            if st || fl || stmts_call_exec(&body.statements, locals, x) {
                return true;
            }
            match else_clause {
                Some(off) => stmts_call_exec(&off.body.statements, locals, x),
                None => false,
            }
        },
        Statement::Give(_, ch, val) => expr_calls_exec(ch, locals, x) || expr_calls_exec(val, locals, x),
        Statement::Close(_, ch) => expr_calls_exec(ch, locals, x),
        Statement::Return(_, value) => match value { Some(e) => expr_calls_exec(e, locals, x), None => false },
        Statement::Check(_, condition, _) => expr_calls_exec(condition, locals, x),
        Statement::ExprStmt(e) => expr_calls_exec(e, locals, x),
        Statement::Documented { item, .. } => match item { AnnotatableItem::FunctionDef(def) => stmts_call_exec(&def.body.statements, locals, x), _ => false },
        _ => false,
    }
}

// ---------------------------------------------------------------------------
// Effectful recursion

/// The function a statement defines with a body, plain or documented.
pub open spec fn def_of(s: Statement) -> Option<FunctionDef> {
    match s {
        Statement::FunctionDef(d) => Some(d),
        Statement::Documented { item, .. } => match item {
            AnnotatableItem::FunctionDef(d) => Some(d),
            _ => None,
        },
        _ => None,
    }
}

/// The functions with bodies that a list of statements defines, in order.
pub open spec fn body_defs(stmts: Seq<Statement>) -> Seq<FunctionDef>
    decreases stmts.len(),
{
    if stmts.len() == 0 {
        Seq::empty()
    } else {
        body_defs(stmts.drop_last()) + match def_of(stmts.last()) {
            Some(d) => seq![d],
            None => Seq::empty(),
        }
    }
}

/// The definitions a list of references points at.
pub open spec fn deref_defs(v: Seq<&FunctionDef>) -> Seq<FunctionDef> {
    Seq::new(v.len(), |i: int| *v[i])
}

pub open spec fn def_name(d: FunctionDef) -> Seq<char> {
    d.name.value.value@
}

/// Definition `k` is the last one of its name, the one that counts.
pub open spec fn live(defs: Seq<FunctionDef>, k: int) -> bool {
    &&& 0 <= k < defs.len()
    &&& forall|m: int| k < m < defs.len() ==> def_name(#[trigger] defs[m]) != def_name(defs[k])
}

/// The names of the functions of a table.
pub open spec fn local_names(fs: Seq<(String, FunctionInfo)>) -> Seq<String> {
    Seq::new(fs.len(), |i: int| fs[i].0)
}

/// Definition `k` calls definition `m`: both count, and the body of `k` calls `m` by name,
/// where that name is one of the known functions.
pub open spec fn call_edge(defs: Seq<FunctionDef>, locals: Seq<String>, k: int, m: int) -> bool {
    &&& live(defs, k)
    &&& live(defs, m)
    &&& stmts_call(defs[k].body.statements@, locals, def_name(defs[m]))
}

/// The definitions among the first `m` that definition `k` calls, in order.
pub open spec fn succ_upto(defs: Seq<FunctionDef>, locals: Seq<String>, k: int, m: int) -> Seq<usize>
    decreases m,
{
    if m <= 0 {
        Seq::empty()
    } else {
        succ_upto(defs, locals, k, m - 1) + if call_edge(defs, locals, k, m - 1) { seq![(m - 1) as usize] } else { Seq::empty() }
    }
}

/// The call graph of the definitions, as adjacency lists.
pub open spec fn call_graph(defs: Seq<FunctionDef>, locals: Seq<String>) -> Seq<Seq<usize>> {
    Seq::new(defs.len(), |k: int| succ_upto(defs, locals, k, defs.len() as int))
}

/// The table knows `x` as a function that is not pure.
pub open spec fn impure(fs: Seq<(String, FunctionInfo)>, x: Seq<char>) -> bool {
    function_table(fs).contains_key(x) && !function_table(fs)[x].is_pure
}

/// Definition `k` is an effectful function that calls itself, directly or through others.
pub open spec fn effectful_recursive(fs: Seq<(String, FunctionInfo)>, stmts: Seq<Statement>, k: int) -> bool {
    let defs = body_defs(stmts);
    &&& live(defs, k)
    &&& impure(fs, def_name(defs[k]))
    &&& reaches(call_graph(defs, local_names(fs)), k, k)
}


proof fn lemma_pure_table(fs: Seq<(String, FunctionInfo)>, x: Seq<char>)
    requires
        forall|i: int| 0 <= i < fs.len() ==> (#[trigger] fs[i]).1.is_pure,
    ensures
        !impure(fs, x),
    decreases fs.len(),
{
    if fs.len() > 0 {
        let d = fs.drop_last();
        assert forall|i: int| 0 <= i < d.len() implies (#[trigger] d[i]).1.is_pure by {
            assert(d[i] == fs[i]);
        }
        lemma_pure_table(d, x);
        assert(fs.last().1@.is_pure == fs.last().1.is_pure);
    }
}

/// Recursion is rejected only in effectful functions: where every function of the table
/// is pure, no definition of the program is an effectful recursive one, so
/// `validate_effectful_recursion` accepts it.
pub proof fn lemma_pure_programs_pass_recursion_check(fs: Seq<(String, FunctionInfo)>, stmts: Seq<Statement>)
    requires
        forall|i: int| 0 <= i < fs.len() ==> (#[trigger] fs[i]).1.is_pure,
    ensures
        forall|k: int| !effectful_recursive(fs, stmts, k),
{
    assert forall|k: int| !effectful_recursive(fs, stmts, k) by {
        lemma_pure_table(fs, def_name(body_defs(stmts)[k]));
    }
}

/// The error reported for effectful recursion at definition `d`: located at its name where
/// the source is at hand.
pub open spec fn recursion_error(err: KiroError, module: Seq<char>, source: Option<&str>, d: FunctionDef) -> bool {
    &&& err.code == ErrorCode::PureViolation
    &&& err.phase == ErrorPhase::Compile
    &&& err.message@ == EFFECTFUL_RECURSION_MESSAGE@
    &&& err.help is None
    &&& err.suggestion is None
    &&& match source {
        Some(src) => byte_span_located(err, module, src@, SourceSpan { start: d.name.span.0, end: d.name.span.1 }, "effectful recursion"@),
        None => {
            &&& text_of(err.file) == Some(module)
            &&& err.line is None && err.column is None && err.label is None && err.source_line is None
            &&& err.source_text is None && err.span_offset is None && err.span_len is None
        },
    }
}

proof fn lemma_table_last(fs: Seq<(String, FunctionInfo)>, x: Seq<char>, i: int)
    requires
        0 <= i < fs.len(),
        fs[i].0@ == x,
        forall|j: int| i < j < fs.len() ==> (#[trigger] fs[j]).0@ != x,
    ensures
        function_table(fs).contains_key(x),
        function_table(fs)[x] == fs[i].1@,
    decreases fs.len(),
{
    if i < fs.len() - 1 {
        lemma_table_last(fs.drop_last(), x, i);
    }
}

proof fn lemma_table_absent(fs: Seq<(String, FunctionInfo)>, x: Seq<char>)
    requires
        forall|j: int| 0 <= j < fs.len() ==> (#[trigger] fs[j]).0@ != x,
    ensures
        !function_table(fs).contains_key(x),
    decreases fs.len(),
{
    if fs.len() > 0 {
        lemma_table_absent(fs.drop_last(), x);
    }
}

proof fn lemma_module_table_last(fs: Seq<((String, String), FunctionInfo)>, m: Seq<char>, x: Seq<char>, i: int)
    requires
        0 <= i < fs.len(),
        fs[i].0.0@ == m && fs[i].0.1@ == x,
        forall|j: int| i < j < fs.len() ==> !((#[trigger] fs[j]).0.0@ == m && fs[j].0.1@ == x),
    ensures
        module_function_table(fs).contains_key((m, x)),
        module_function_table(fs)[(m, x)] == fs[i].1@,
    decreases fs.len(),
{
    if i < fs.len() - 1 {
        lemma_module_table_last(fs.drop_last(), m, x, i);
    }
}

proof fn lemma_module_table_absent(fs: Seq<((String, String), FunctionInfo)>, m: Seq<char>, x: Seq<char>)
    requires
        forall|j: int| 0 <= j < fs.len() ==> !((#[trigger] fs[j]).0.0@ == m && fs[j].0.1@ == x),
    ensures
        !module_function_table(fs).contains_key((m, x)),
    decreases fs.len(),
{
    if fs.len() > 0 {
        lemma_module_table_absent(fs.drop_last(), m, x);
    }
}

impl Compiler {
    /// A compiler for the `main` module that knows no functions yet.
    pub fn new() -> (c: Compiler)
        ensures
            c.functions@.len() == 0,
            c.module_functions@.len() == 0,
            c.known_modules@.len() == 0,
            c.current_module@ == "main"@,
    {
        Compiler {
            functions: Vec::new(),
            module_functions: Vec::new(),
            known_modules: Vec::new(),
            current_module: String::from_str("main"),
        }
    }

    /// A new compiler that knows the functions of other modules.
    pub fn with_module_functions(module_functions: Vec<((String, String), FunctionInfo)>) -> (c: Compiler)
        ensures
            c.functions@.len() == 0,
            c.module_functions@ == module_functions@,
            c.known_modules@.len() == 0,
            c.current_module@ == "main"@,
    {
        let mut compiler = Compiler::new();
        compiler.module_functions = module_functions;
        compiler
    }

    /// The information of a function of the current module: its last entry.
    pub fn function_info(&self, name: &str) -> (r: Option<&FunctionInfo>)
        ensures
            match r {
                Some(info) => function_table(self.functions@).contains_key(name@)
                    && function_table(self.functions@)[name@] == info@,
                None => !function_table(self.functions@).contains_key(name@),
            },
    {
        let mut i: usize = self.functions.len();
        while i > 0
            invariant
                i <= self.functions@.len(),
                forall|j: int| i <= j < self.functions@.len() ==> (#[trigger] self.functions@[j]).0@ != name@,
            decreases i,
        {
            if str_eq(self.functions[i - 1].0.as_str(), name) {
                proof {
                    lemma_table_last(self.functions@, name@, i - 1);
                }
                return Some(&self.functions[i - 1].1);
            }
            i = i - 1;
        }
        proof {
            lemma_table_absent(self.functions@, name@);
        }
        None
    }

    /// The information of function `name` of module `module`, where the module declares it.
    pub fn module_function_info(&self, module: &str, name: &str) -> (r: Option<&FunctionInfo>)
        ensures
            match r {
                Some(info) => module_function_table(self.module_functions@).contains_key((module@, name@))
                    && module_function_table(self.module_functions@)[(module@, name@)] == info@,
                None => !module_function_table(self.module_functions@).contains_key((module@, name@)),
            },
    {
        let mut i: usize = self.module_functions.len();
        while i > 0
            invariant
                i <= self.module_functions@.len(),
                forall|j: int| i <= j < self.module_functions@.len()
                    ==> !((#[trigger] self.module_functions@[j]).0.0@ == module@ && self.module_functions@[j].0.1@ == name@),
            decreases i,
        {
            if str_eq(self.module_functions[i - 1].0.0.as_str(), module) && str_eq(self.module_functions[i - 1].0.1.as_str(), name) {
                proof {
                    lemma_module_table_last(self.module_functions@, module@, name@, i - 1);
                }
                return Some(&self.module_functions[i - 1].1);
            }
            i = i - 1;
        }
        proof {
            lemma_module_table_absent(self.module_functions@, module@, name@);
        }
        None
    }

    /// The functions that a program declares, with their purity, failure, types and
    /// documentation; a later declaration of a name replaces an earlier one.
    pub fn collect_program_functions(program: &Program) -> (r: Vec<(String, FunctionInfo)>)
        ensures
            function_table(r@) == collected_functions(program.statements@),
    {
        let mut out: Vec<(String, FunctionInfo)> = Vec::new();
        let mut i: usize = 0;
        while i < program.statements.len()
            invariant
                i <= program.statements@.len(),
                function_table(out@) == collected_functions(program.statements@.subrange(0, i as int)),
            decreases program.statements.len() - i,
        {
            proof {
                assert(program.statements@.subrange(0, i + 1).drop_last() =~= program.statements@.subrange(0, i as int));
            }
            let ghost before = out@;
            match entry_exec(&program.statements[i]) {
                Some(e) => {
                    out.push(e);
                    proof {
                        assert(out@.drop_last() =~= before);
                    }
                },
                None => {},
            }
            i = i + 1;
        }
        proof {
            assert(program.statements@.subrange(0, program.statements@.len() as int) =~= program.statements@);
        }
        out
    }

    /// The message of the effectful-recursion error.
    pub fn effectful_recursion_message() -> (r: &'static str)
        ensures
            r@ == EFFECTFUL_RECURSION_MESSAGE@,
    {
        EFFECTFUL_RECURSION_MESSAGE
    }

    /// Rejects a program where a function that is not pure calls itself, directly or through
    /// other functions of the program; the error points at such a function where the source is given.
    pub fn validate_effectful_recursion(&self, program: &Program, module: &str, source: Option<&str>) -> (r: Result<(), KiroError>)
        requires
            match source {
                Some(s) => s.spec_bytes().len() < usize::MAX,
                None => true,
            },
        ensures
            r is Err <==> exists|k: int| effectful_recursive(self.functions@, program.statements@, k),
            r is Err ==> exists|k: int| effectful_recursive(self.functions@, program.statements@, k)
                && recursion_error(r->Err_0, module@, source, body_defs(program.statements@)[k]),
            r is Err <==> exists|k: int| impure_on_cycle(self.functions@, program.statements@, k),
    {
        let ghost fs = self.functions@;
        let mut locals: Vec<String> = Vec::new();
        let mut i: usize = 0;
        while i < self.functions.len()
            invariant
                i <= self.functions@.len(),
                locals@ == local_names(self.functions@).subrange(0, i as int),
            decreases self.functions.len() - i,
        {
            locals.push(self.functions[i].0.clone());
            proof {
                assert(locals@ =~= local_names(self.functions@).subrange(0, i + 1));
            }
            i = i + 1;
        }
        proof {
            assert(local_names(self.functions@).subrange(0, self.functions@.len() as int) =~= local_names(self.functions@));
        }
        let defs = collect_body_defs(program);
        let n = defs.len();
        proof {
            assert(deref_defs(defs@).len() == defs@.len());
            assert forall|k: int| #[trigger] effectful_recursive(fs, program.statements@, k)
                == impure_on_cycle(fs, program.statements@, k) by {
                lemma_effectful_recursion_is_a_cycle(fs, program.statements@, k);
            }
        }
        let live_marks = live_defs(&defs);
        let adj = build_call_graph(&defs, &live_marks, &locals);
        
        let mut k: usize = 0;
        while k < n
            invariant
                n == defs@.len(),
                deref_defs(defs@) == body_defs(program.statements@),
                locals@ == local_names(self.functions@),
                adj_view(adj@) == call_graph(deref_defs(defs@), locals@),
                adj@.len() == n,
                live_marks@.len() == n,
                forall|j: int| 0 <= j < n ==> #[trigger] live_marks@[j] == live(deref_defs(defs@), j),
                k <= n,
                match source {
                    Some(s) => s.spec_bytes().len() < usize::MAX,
                    None => true,
                },
                forall|j: int| 0 <= j < k ==> !#[trigger] effectful_recursive(self.functions@, program.statements@, j),
                forall|j: int| #[trigger] effectful_recursive(self.functions@, program.statements@, j)
                    == impure_on_cycle(self.functions@, program.statements@, j),
            decreases n - k,
        {
            if live_marks[k] {
                let name = defs[k].name.value.value.as_str();
                let is_impure = match self.function_info(name) {
                    Some(info) => !info.is_pure,
                    None => false,
                };
                if is_impure {
                    let reached = reached_from(&adj, k);
                    if reached[k] {
                        let mut err = KiroError::module_compile_error(module, ErrorCode::PureViolation, EFFECTFUL_RECURSION_MESSAGE, None);
                        match source {
                            Some(src) => {
                                let span = defs[k].name.span;
                                err = err.with_byte_span(module, src, SourceSpan::new(span.0, span.1), "effectful recursion");
                            },
                            None => {},
                        }
                        proof {
                            assert(effectful_recursive(self.functions@, program.statements@, k as int));
                        }
                        return Err(err);
                    }
                }
            }
            k = k + 1;
        }
        proof {
            assert forall|j: int| !#[trigger] impure_on_cycle(fs, program.statements@, j) by {
                if impure_on_cycle(fs, program.statements@, j) {
                    assert(effectful_recursive(fs, program.statements@, j));
                }
            }
        }
        Ok(())
    }
}

fn collect_body_defs(program: &Program) -> (r: Vec<&FunctionDef>)
    ensures
        deref_defs(r@) == body_defs(program.statements@),
{
    let mut out: Vec<&FunctionDef> = Vec::new();
    let mut i: usize = 0;
    while i < program.statements.len()
        invariant
            i <= program.statements@.len(),
            deref_defs(out@) == body_defs(program.statements@.subrange(0, i as int)),
        decreases program.statements.len() - i,
    {
        proof {
            assert(program.statements@.subrange(0, i + 1).drop_last() =~= program.statements@.subrange(0, i as int));
        }
        let ghost before = out@;
        match &program.statements[i] {
            Statement::FunctionDef(d) => {
                out.push(d);
            },
            Statement::Documented { item, .. } => match item {
                AnnotatableItem::FunctionDef(d) => {
                    out.push(d);
                },
                _ => {},
            },
            _ => {},
        }
        proof {
            assert(deref_defs(out@) =~= body_defs(program.statements@.subrange(0, i + 1)));
        }
        i = i + 1;
    }
    proof {
        assert(program.statements@.subrange(0, program.statements@.len() as int) =~= program.statements@);
    }
    out
}

fn live_defs(defs: &Vec<&FunctionDef>) -> (r: Vec<bool>)
    ensures
        r@.len() == defs@.len(),
        forall|j: int| 0 <= j < defs@.len() ==> #[trigger] r@[j] == live(deref_defs(defs@), j),
{
    let n = defs.len();
    let mut out: Vec<bool> = Vec::new();
    let mut k: usize = 0;
    while k < n
        invariant
            n == defs@.len(),
            k <= n,
            out@.len() == k,
            forall|j: int| 0 <= j < k ==> #[trigger] out@[j] == live(deref_defs(defs@), j),
        decreases n - k,
    {
        let mut m = k + 1;
        let mut is_live = true;
        while m < n
            invariant
                n == defs@.len(),
                k < m <= n,
                is_live == forall|j: int| k < j < m ==> def_name(#[trigger] deref_defs(defs@)[j]) != def_name(deref_defs(defs@)[k as int]),
            decreases n - m,
        {
            proof {
                assert(deref_defs(defs@)[m as int] == *defs@[m as int]);
                assert(deref_defs(defs@)[k as int] == *defs@[k as int]);
            }
            if str_eq(defs[m].name.value.value.as_str(), defs[k].name.value.value.as_str()) {
                is_live = false;
            }
            m = m + 1;
        }
        out.push(is_live);
        k = k + 1;
    }
    out
}

fn build_call_graph(defs: &Vec<&FunctionDef>, live_marks: &Vec<bool>, locals: &Vec<String>) -> (r: Vec<Vec<usize>>)
    requires
        live_marks@.len() == defs@.len(),
        forall|j: int| 0 <= j < defs@.len() ==> #[trigger] live_marks@[j] == live(deref_defs(defs@), j),
    ensures
        adj_view(r@) == call_graph(deref_defs(defs@), locals@),
        r@.len() == defs@.len(),
{
    let n = defs.len();
    let mut adj: Vec<Vec<usize>> = Vec::new();
    let mut k: usize = 0;
    while k < n
        invariant
            n == defs@.len() == live_marks@.len(),
            forall|j: int| 0 <= j < n ==> #[trigger] live_marks@[j] == live(deref_defs(defs@), j),
            k <= n,
            adj@.len() == k,
            forall|j: int| 0 <= j < k ==> (#[trigger] adj@[j])@ == succ_upto(deref_defs(defs@), locals@, j, n as int),
        decreases n - k,
    {
        let mut succ: Vec<usize> = Vec::new();
        let mut m: usize = 0;
        while m < n
            invariant
                n == defs@.len() == live_marks@.len(),
                forall|j: int| 0 <= j < n ==> #[trigger] live_marks@[j] == live(deref_defs(defs@), j),
                k < n,
                m <= n,
                succ@ == succ_upto(deref_defs(defs@), locals@, k as int, m as int),
            decreases n - m,
        {
            if live_marks[k] && live_marks[m] && stmts_call_exec(&defs[k].body.statements, locals, defs[m].name.value.value.as_str()) {
                succ.push(m);
            }
            proof {
                assert(succ@ =~= succ_upto(deref_defs(defs@), locals@, k as int, m + 1));
            }
            m = m + 1;
        }
        adj.push(succ);
        k = k + 1;
    }
    proof {
        assert(adj_view(adj@) =~= call_graph(deref_defs(defs@), locals@));
    }
    adj
}


/// `path` walks calls: at least one step, each from a definition to one it calls.
pub open spec fn call_path(defs: Seq<FunctionDef>, locals: Seq<String>, path: Seq<int>) -> bool {
    &&& path.len() >= 2
    &&& forall|i: int| 0 <= i < path.len() - 1 ==> #[trigger] call_edge(defs, locals, path[i], path[i + 1])
}

/// Definition `k` counts, belongs to an effectful function, and lies on a cycle of calls
/// (a call of itself included).
pub open spec fn impure_on_cycle(fs: Seq<(String, FunctionInfo)>, stmts: Seq<Statement>, k: int) -> bool {
    let defs = body_defs(stmts);
    &&& live(defs, k)
    &&& impure(fs, def_name(defs[k]))
    &&& on_call_cycle(defs, local_names(fs), k)
}

/// Definition `k` lies on a cycle of calls.
pub open spec fn on_call_cycle(defs: Seq<FunctionDef>, locals: Seq<String>, k: int) -> bool {
    exists|path: Seq<int>| call_path(defs, locals, path) && path[0] == k && path.last() == k
}

proof fn lemma_succ_upto(defs: Seq<FunctionDef>, locals: Seq<String>, k: int, m: int, b: int)
    requires
        0 <= m <= defs.len() <= usize::MAX,
        0 <= b < defs.len(),
    ensures
        succ_upto(defs, locals, k, m).contains(b as usize) <==> (0 <= b < m && call_edge(defs, locals, k, b)),
    decreases m,
{
    if m > 0 {
        lemma_succ_upto(defs, locals, k, m - 1, b);
        let prev = succ_upto(defs, locals, k, m - 1);
        let tail = if call_edge(defs, locals, k, m - 1) { seq![(m - 1) as usize] } else { Seq::<usize>::empty() };
        let all = prev + tail;
        if all.contains(b as usize) {
            let i = choose|i: int| 0 <= i < all.len() && all[i] == b as usize;
            if i >= prev.len() {
                assert(tail[i - prev.len()] == b as usize);
            } else {
                assert(prev[i] == b as usize);
            }
        }
        if 0 <= b < m && call_edge(defs, locals, k, b) {
            if b < m - 1 {
                let i = choose|i: int| 0 <= i < prev.len() && prev[i] == b as usize;
                assert(all[i] == b as usize);
            } else {
                assert(all[prev.len() as int] == b as usize);
            }
        }
    }
}

proof fn lemma_graph_edge(defs: Seq<FunctionDef>, locals: Seq<String>, a: int, b: int)
    requires
        defs.len() <= usize::MAX,
    ensures
        adj_edge(call_graph(defs, locals), a, b) <==> call_edge(defs, locals, a, b),
{
    if 0 <= a < defs.len() && 0 <= b < defs.len() {
        lemma_succ_upto(defs, locals, a, defs.len() as int, b);
    }
}

proof fn lemma_path_reaches(defs: Seq<FunctionDef>, locals: Seq<String>, path: Seq<int>, i: int)
    requires
        defs.len() <= usize::MAX,
        call_path(defs, locals, path),
        1 <= i < path.len(),
    ensures
        reaches(call_graph(defs, locals), path[0], path[i]),
    decreases i,
{
    let g = call_graph(defs, locals);
    let j = i - 1;
    assert(call_edge(defs, locals, path[j], path[j + 1]));
    lemma_graph_edge(defs, locals, path[i - 1], path[i]);
    if i > 1 {
        lemma_path_reaches(defs, locals, path, i - 1);
    }
    lemma_reaches_step(g, path[0], path[i - 1], path[i]);
}

proof fn lemma_reaches_path(defs: Seq<FunctionDef>, locals: Seq<String>, src: int, b: int)
    requires
        defs.len() <= usize::MAX,
        reaches(call_graph(defs, locals), src, b),
    ensures
        exists|path: Seq<int>| call_path(defs, locals, path) && path[0] == src && path.last() == b,
{
    let g = call_graph(defs, locals);
    let c = Set::new(|x: int| exists|path: Seq<int>| call_path(defs, locals, path) && path[0] == src && path.last() == x);
    assert forall|x: int, y: int| c.contains(x) && #[trigger] adj_edge(g, x, y) implies c.contains(y) by {
        let path = choose|path: Seq<int>| call_path(defs, locals, path) && path[0] == src && path.last() == x;
        lemma_graph_edge(defs, locals, x, y);
        let q = path.push(y);
        assert forall|i: int| 0 <= i < q.len() - 1 implies #[trigger] call_edge(defs, locals, q[i], q[i + 1]) by {
            if i < path.len() - 1 {
                assert(q[i] == path[i] && q[i + 1] == path[i + 1]);
            } else {
                assert(q[i] == x && q[i + 1] == y);
            }
        }
        assert(call_path(defs, locals, q) && q[0] == src && q.last() == y);
    }
    assert forall|s: int| adj_edge(g, src, s) implies c.contains(s) by {
        lemma_graph_edge(defs, locals, src, s);
        let q = seq![src, s];
        assert forall|i: int| 0 <= i < q.len() - 1 implies #[trigger] call_edge(defs, locals, q[i], q[i + 1]) by {}
        assert(call_path(defs, locals, q) && q[0] == src && q.last() == s);
    }
    assert(adj_closed(g, c));
    assert(c.contains(b));
}

/// The recursion check's rule, in terms of calls: a definition is effectful recursion
/// exactly when it counts, is known as not pure, and lies on a cycle of calls between
/// the program's functions (a call of itself included).
pub proof fn lemma_effectful_recursion_is_a_cycle(fs: Seq<(String, FunctionInfo)>, stmts: Seq<Statement>, k: int)
    requires
        body_defs(stmts).len() <= usize::MAX,
    ensures
        effectful_recursive(fs, stmts, k) <==> {
            let defs = body_defs(stmts);
            &&& live(defs, k)
            &&& impure(fs, def_name(defs[k]))
            &&& on_call_cycle(defs, local_names(fs), k)
        },
{
    let defs = body_defs(stmts);
    let locals = local_names(fs);
    if reaches(call_graph(defs, locals), k, k) {
        lemma_reaches_path(defs, locals, k, k);
    }
    if on_call_cycle(defs, locals, k) {
        let path = choose|path: Seq<int>| call_path(defs, locals, path) && path[0] == k && path.last() == k;
        lemma_path_reaches(defs, locals, path, path.len() - 1);
    }
}


/// Statement `s` declares a function named `x`.
pub open spec fn declares(s: Statement, x: Seq<char>) -> bool {
    entry_of(s) matches Some(e) && e.0 == x
}

/// The entry that the last declaration of a function puts in the table: its purity, its
/// error marker, its parameter types in order and its return type (that of a `rust fn`
/// always given), with documentation only where the declaration is documented.
pub proof fn lemma_collected_function_fields(stmts: Seq<Statement>, i: int)
    requires
        0 <= i < stmts.len(),
        entry_of(stmts[i]) is Some,
        forall|j: int| i < j < stmts.len() ==> !declares(#[trigger] stmts[j], entry_of(stmts[i]).unwrap().0),
    ensures
        ({
            let x = entry_of(stmts[i]).unwrap().0;
            let info = collected_functions(stmts)[x];
            &&& collected_functions(stmts).contains_key(x)
            &&& match stmts[i] {
                Statement::FunctionDef(def) => x == def.name.value.value@ && info.is_pure == (def.pure_kw is Some)
                    && info.can_error == (def.can_error is Some) && info.params == param_type_models(def.params@)
                    && info.return_type == opt_type_model(def.return_type) && info.doc is None,
                Statement::RustFnDecl(def) => x == def.name.value.value@ && info.is_pure == (def.pure_kw is Some)
                    && info.can_error == (def.can_error is Some) && info.params == param_type_models(def.params@)
                    && info.return_type == Some(type_model(def.return_type)) && info.doc is None,
                Statement::Documented { doc, item } => match item {
                    AnnotatableItem::FunctionDef(def) => x == def.name.value.value@ && info.is_pure == (def.pure_kw is Some)
                        && info.can_error == (def.can_error is Some) && info.params == param_type_models(def.params@)
                        && info.return_type == opt_type_model(def.return_type) && info.doc == Some(doc_text(doc@)),
                    AnnotatableItem::RustFnDecl(def) => x == def.name.value.value@ && info.is_pure == (def.pure_kw is Some)
                        && info.can_error == (def.can_error is Some) && info.params == param_type_models(def.params@)
                        && info.return_type == Some(type_model(def.return_type)) && info.doc == Some(doc_text(doc@)),
                    _ => false,
                },
                _ => false,
            }
        }),
{
    let x = entry_of(stmts[i]).unwrap().0;
    assert(declares(stmts[i], x));
    lemma_collected_functions_last_wins(stmts, x);
}

/// The functions a program declares are exactly the names of its top-level `fn` and
/// `rust fn` statements, bare or documented, and each name's entry is that of the last
/// statement declaring it.
pub proof fn lemma_collected_functions_last_wins(stmts: Seq<Statement>, x: Seq<char>)
    ensures
        collected_functions(stmts).contains_key(x) <==> exists|i: int| 0 <= i < stmts.len() && #[trigger] declares(stmts[i], x),
        forall|i: int| 0 <= i < stmts.len() && #[trigger] declares(stmts[i], x)
            && (forall|j: int| i < j < stmts.len() ==> !declares(#[trigger] stmts[j], x))
            ==> collected_functions(stmts)[x] == entry_of(stmts[i]).unwrap().1,
    decreases stmts.len(),
{
    if stmts.len() > 0 {
        let pre = stmts.drop_last();
        lemma_collected_functions_last_wins(pre, x);
        let n = stmts.len() - 1;
        assert forall|i: int| 0 <= i < pre.len() implies declares(pre[i], x) == declares(stmts[i], x) by {
            assert(pre[i] == stmts[i]);
        }
        if collected_functions(stmts).contains_key(x) && !declares(stmts[n], x) {
            let i = choose|i: int| 0 <= i < pre.len() && #[trigger] declares(pre[i], x);
            assert(declares(stmts[i], x));
        }
        if exists|i: int| 0 <= i < stmts.len() && #[trigger] declares(stmts[i], x) {
            let i = choose|i: int| 0 <= i < stmts.len() && #[trigger] declares(stmts[i], x);
            if i < n {
                assert(declares(pre[i], x));
            }
        }
        assert forall|i: int| 0 <= i < stmts.len() && #[trigger] declares(stmts[i], x)
            && (forall|j: int| i < j < stmts.len() ==> !declares(#[trigger] stmts[j], x))
            implies collected_functions(stmts)[x] == entry_of(stmts[i]).unwrap().1 by {
            if i < n {
                assert(!declares(stmts[n], x));
                assert(declares(pre[i], x));
                assert forall|j: int| i < j < pre.len() implies !declares(#[trigger] pre[j], x) by {
                    assert(pre[j] == stmts[j]);
                    assert(!declares(stmts[j], x));
                }
            }
        }
    }
}

} // verus!
