//! The semantic checker's view of expressions: which names are in scope, what type an
//! expression has where it can be told, and the diagnostics for unknown names, purity and
//! mutability violations, wrong argument counts and types, unknown imports and bad uses of
//! lists, maps, pipes and addresses.
use vstd::prelude::*;
use vstd::utf8::encode_utf8;
use vstd::string::StringSliceAdditionalSpecFns;
use crate::grammar::{
    copy_type, spec_expr_span, expr_span, type_model, AstSpan, Expression, FieldInit, KiroType,
    AnnotatableItem, Block, ErrorClauseList, FuncParam, FunctionDef, MapPair, Program, Statement, StructDef,
    StructNameVal, TypeModel, param_models, CheckMessage, Spanned, VariableVal,
};
use crate::errors::{ErrorCode, ErrorPhase, KiroError, SourceSpan};
use crate::errors::diagnostic::{byte_span_located, text_of};
use crate::compiler::functions::{copy_opt_type, function_table, module_function_table, opt_type_model, Compiler, FunctionInfo, InfoModel};
use crate::compiler::eir::{is_std_io_display, is_std_io_module};
use crate::compiler::functions::{body_defs, collected_functions, effectful_recursive, recursion_error};
use crate::text::{chars_of, decimal, join_with, lemma_join_push, push_decimal, push_str, str_eq};

verus! {

// ---------------------------------------------------------------------------
// Type names and type equality

/// How a type is written in diagnostics.
pub open spec fn type_text(t: TypeModel) -> Seq<char>
    decreases t,
{
    match t {
        TypeModel::Num => "num"@,
        TypeModel::Str => "str"@,
        TypeModel::Bool => "bool"@,
        TypeModel::Void => "void"@,
        TypeModel::Adr(inner) => "adr "@ + type_text(*inner),
        TypeModel::Pipe(inner) => "pipe "@ + type_text(*inner),
        TypeModel::List(inner) => "list "@ + type_text(*inner),
        TypeModel::MapOf(k, v) => "map "@ + type_text(*k) + " "@ + type_text(*v),
        TypeModel::FnType(ps, ret) => "fn("@ + join_with(type_texts(ps), ", "@) + ") -> "@ + type_text(*ret),
        TypeModel::Custom(name) => name,
    }
}

/// The names of a list of types, in order.
pub open spec fn type_texts(ps: Seq<TypeModel>) -> Seq<Seq<char>>
    decreases ps,
{
    Seq::new(ps.len(), |i: int| if 0 <= i < ps.len() { type_text(ps[i]) } else { Seq::empty() })
}

/// Two types are the same: equal scalars, equal element types of addresses, pipes, lists
/// and maps, or the same custom name. Function types are never the same.
pub open spec fn same_type(a: TypeModel, b: TypeModel) -> bool
    decreases a,
{
    match (a, b) {
        (TypeModel::Num, TypeModel::Num) => true,
        (TypeModel::Str, TypeModel::Str) => true,
        (TypeModel::Bool, TypeModel::Bool) => true,
        (TypeModel::Void, TypeModel::Void) => true,
        (TypeModel::Adr(x), TypeModel::Adr(y)) => same_type(*x, *y),
        (TypeModel::Pipe(x), TypeModel::Pipe(y)) => same_type(*x, *y),
        (TypeModel::List(x), TypeModel::List(y)) => same_type(*x, *y),
        (TypeModel::MapOf(xk, xv), TypeModel::MapOf(yk, yv)) => same_type(*xk, *yk) && same_type(*xv, *yv),
        (TypeModel::Custom(x), TypeModel::Custom(y)) => x == y,
        _ => false,
    }
}

fn type_text_of(t: &KiroType) -> (r: String)
    ensures
        r@ == type_text(t@),
    decreases t,
{
    match t {
        KiroType::Num => String::from_str("num"),
        KiroType::Str => String::from_str("str"),
        KiroType::Bool => String::from_str("bool"),
        KiroType::Void => String::from_str("void"),
        KiroType::Adr(inner) => {
            let mut r = String::from_str("adr ");
            let n = type_text_of(inner);
            push_str(&mut r, n.as_str());
            r
        },
        KiroType::Pipe(inner) => {
            let mut r = String::from_str("pipe ");
            let n = type_text_of(inner);
            push_str(&mut r, n.as_str());
            r
        },
        KiroType::List(inner) => {
            let mut r = String::from_str("list ");
            let n = type_text_of(inner);
            push_str(&mut r, n.as_str());
            r
        },
        KiroType::MapOf(k, v) => {
            let mut r = String::from_str("map ");
            let kn = type_text_of(k);
            push_str(&mut r, kn.as_str());
            push_str(&mut r, " ");
            let vn = type_text_of(v);
            push_str(&mut r, vn.as_str());
            r
        },
        KiroType::FnType(params, ret) => {
            let mut r = String::from_str("fn(");
            let list = type_list(params);
            push_str(&mut r, list.as_str());
            push_str(&mut r, ") -> ");
            let rn = type_text_of(ret);
            push_str(&mut r, rn.as_str());
            r
        },
        KiroType::Custom(name) => name.value.clone(),
    }
}

/// The names of the types, joined with `, `.
fn type_list(ts: &Vec<KiroType>) -> (r: String)
    ensures
        r@ == join_with(type_texts(param_models(ts@)), ", "@),
    decreases ts,
{
    let ghost names = type_texts(param_models(ts@));
    let mut r = String::new();
    let mut i: usize = 0;
    while i < ts.len()
        invariant
            i <= ts@.len(),
            names == type_texts(param_models(ts@)),
            names.len() == ts@.len(),
            r@ == join_with(names.subrange(0, i as int), ", "@),
        decreases ts.len() - i,
    {
        proof {
            assert(decreases_to!(ts => ts@[i as int]));
            assert(names.subrange(0, i + 1) =~= names.subrange(0, i as int).push(names[i as int]));
            lemma_join_push(names.subrange(0, i as int), ", "@, names[i as int]);
        }
        if i > 0 {
            push_str(&mut r, ", ");
        }
        let n = type_text_of(&ts[i]);
        push_str(&mut r, n.as_str());
        proof {
            if i == 0 {
                assert(names.subrange(0, 0) =~= Seq::<Seq<char>>::empty());
            }
        }
        i = i + 1;
    }
    proof {
        assert(names.subrange(0, ts@.len() as int) =~= names);
    }
    r
}

fn same_type_exec(a: &KiroType, b: &KiroType) -> (r: bool)
    ensures
        r == same_type(a@, b@),
    decreases a,
{
    match (a, b) {
        (KiroType::Num, KiroType::Num) => true,
        (KiroType::Str, KiroType::Str) => true,
        (KiroType::Bool, KiroType::Bool) => true,
        (KiroType::Void, KiroType::Void) => true,
        (KiroType::Adr(x), KiroType::Adr(y)) => same_type_exec(x, y),
        (KiroType::Pipe(x), KiroType::Pipe(y)) => same_type_exec(x, y),
        (KiroType::List(x), KiroType::List(y)) => same_type_exec(x, y),
        (KiroType::MapOf(xk, xv), KiroType::MapOf(yk, yv)) => same_type_exec(xk, yk) && same_type_exec(xv, yv),
        (KiroType::Custom(x), KiroType::Custom(y)) => str_eq(x.value.as_str(), y.value.as_str()),
        _ => false,
    }
}

// ---------------------------------------------------------------------------
// Name suggestions

/// The smaller of two numbers.
pub open spec fn min_nat(x: nat, y: nat) -> nat {
    if x <= y { x } else { y }
}

/// The edit distance of two texts: the fewest insertions, deletions and replacements of
/// single characters that turn one into the other.
pub open spec fn edit_distance(a: Seq<char>, b: Seq<char>) -> nat
    decreases a.len() + b.len(),
{
    if a.len() == 0 {
        b.len()
    } else if b.len() == 0 {
        a.len()
    } else {
        let cost: nat = if a.last() == b.last() { 0 } else { 1 };
        min_nat(
            min_nat(edit_distance(a.drop_last(), b) + 1, edit_distance(a, b.drop_last()) + 1),
            edit_distance(a.drop_last(), b.drop_last()) + cost,
        )
    }
}

proof fn lemma_edit_distance_bound(a: Seq<char>, b: Seq<char>)
    ensures
        edit_distance(a, b) <= if a.len() >= b.len() { a.len() } else { b.len() },
    decreases a.len() + b.len(),
{
    if a.len() > 0 && b.len() > 0 {
        lemma_edit_distance_bound(a.drop_last(), b.drop_last());
    }
}

fn edit_distance_exec(a: &str, b: &str) -> (r: usize)
    ensures
        r == edit_distance(a@, b@),
{
    let av = chars_of(a);
    let bv = chars_of(b);
    let m = bv.len();
    let mut prev: Vec<usize> = Vec::new();
    let mut j: usize = 0;
    while j < m
        invariant
            j <= m,
            m == bv@.len(),
            prev@.len() == j,
            forall|k: int| 0 <= k < j ==> prev@[k] == k,
        decreases m - j,
    {
        prev.push(j);
        j = j + 1;
    }
    prev.push(m);
    proof {
        assert forall|k: int| 0 <= k <= m implies prev@[k] == edit_distance(av@.subrange(0, 0), bv@.subrange(0, k)) by {
            assert(av@.subrange(0, 0).len() == 0);
        }
    }
    let na = av.len();
    let mut i: usize = 0;
    while i < av.len()
        invariant
            i <= av@.len(),
            av@.len() <= usize::MAX,
            m == bv@.len(),
            av@ == a@,
            bv@ == b@,
            prev@.len() == m + 1,
            forall|k: int| 0 <= k <= m ==> #[trigger] prev@[k] == edit_distance(av@.subrange(0, i as int), bv@.subrange(0, k)),
        decreases av.len() - i,
    {
        let ghost ai = av@.subrange(0, i as int);
        let ghost ai1 = av@.subrange(0, i + 1);
        proof {
            assert(ai1.drop_last() =~= ai);
            assert(bv@.subrange(0, 0).len() == 0);
        }
        let mut curr: Vec<usize> = Vec::new();
        curr.push(i + 1);
        let mut jj: usize = 0;
        while jj < m
            invariant
                i < av@.len(),
                av@.len() <= usize::MAX,
                m == bv@.len(),
                jj <= m,
                prev@.len() == m + 1,
                curr@.len() == jj + 1,
                ai == av@.subrange(0, i as int),
                ai1 == av@.subrange(0, i + 1),
                ai1.drop_last() == ai,
                forall|k: int| 0 <= k <= m ==> #[trigger] prev@[k] == edit_distance(ai, bv@.subrange(0, k)),
                forall|k: int| 0 <= k <= jj ==> #[trigger] curr@[k] == edit_distance(ai1, bv@.subrange(0, k)),
            decreases m - jj,
        {
            let ghost bj1 = bv@.subrange(0, jj + 1);
            proof {
                assert(bj1.drop_last() =~= bv@.subrange(0, jj as int));
                lemma_edit_distance_bound(ai, bj1);
                lemma_edit_distance_bound(ai1, bv@.subrange(0, jj as int));
                lemma_edit_distance_bound(ai, bv@.subrange(0, jj as int));
            }
            let cost: u128 = if av[i] == bv[jj] { 0 } else { 1 };
            let del = prev[jj + 1] as u128 + 1;
            let ins = curr[jj] as u128 + 1;
            let rep = prev[jj] as u128 + cost;
            let mut best = if del <= ins { del } else { ins };
            if rep < best {
                best = rep;
            }
            proof {
                assert(ai1.last() == av@[i as int]);
                assert(bj1.last() == bv@[jj as int]);
                assert(best == edit_distance(ai1, bj1));
                lemma_edit_distance_bound(ai1, bj1);
                assert(ai1.len() == i + 1);
                assert(bj1.len() == jj + 1);
                assert(best <= usize::MAX);
            }
            curr.push(best as usize);
            proof {
                assert(curr@[jj + 1] == edit_distance(ai1, bv@.subrange(0, jj + 1)));
            }
            jj = jj + 1;
        }
        prev = curr;
        i = i + 1;
    }
    proof {
        assert(av@.subrange(0, av@.len() as int) =~= a@);
        assert(bv@.subrange(0, m as int) =~= b@);
    }
    prev[m]
}

/// `p` starts `s`.
pub open spec fn starts(s: Seq<char>, p: Seq<char>) -> bool {
    p.len() <= s.len() && s.subrange(0, p.len() as int) == p
}

/// The distance in length, in bytes, of two texts.
pub open spec fn byte_len_gap(a: Seq<char>, b: Seq<char>) -> nat {
    let x = encode_utf8(a).len();
    let y = encode_utf8(b).len();
    if x >= y { (x - y) as nat } else { (y - x) as nat }
}

/// A candidate is close enough to the input to be offered: within two edits, within three
/// with a length at most two bytes apart, or one of the two starts the other.
pub open spec fn close_enough(input: Seq<char>, candidate: Seq<char>) -> bool {
    let score = edit_distance(input, candidate);
    ||| score <= 2
    ||| (score <= 3 && byte_len_gap(candidate, input) <= 2)
    ||| starts(candidate, input)
    ||| starts(input, candidate)
}

/// The first candidate other than the input that is close enough and nearest among those,
/// with its distance.
pub open spec fn nearest(input: Seq<char>, candidates: Seq<Seq<char>>) -> Option<(Seq<char>, nat)>
    decreases candidates.len(),
{
    if candidates.len() == 0 {
        None
    } else {
        let before = nearest(input, candidates.drop_last());
        let c = candidates.last();
        if c == input || !close_enough(input, c) {
            before
        } else {
            let score = edit_distance(input, c);
            match before {
                Some(b) => if score < b.1 { Some((c, score)) } else { before },
                None => Some((c, score)),
            }
        }
    }
}

/// The suggested replacement for an unknown name, if any.
pub open spec fn suggestion(input: Seq<char>, candidates: Seq<Seq<char>>) -> Option<Seq<char>> {
    match nearest(input, candidates) {
        Some(b) => Some(b.0),
        None => None,
    }
}

fn starts_exec(s: &str, p: &str) -> (r: bool)
    ensures
        r == starts(s@, p@),
{
    let sv = chars_of(s);
    let pv = chars_of(p);
    if pv.len() > sv.len() {
        return false;
    }
    let mut i: usize = 0;
    while i < pv.len()
        invariant
            i <= pv@.len() <= sv@.len(),
            sv@ == s@,
            pv@ == p@,
            forall|k: int| 0 <= k < i ==> sv@[k] == pv@[k],
        decreases pv.len() - i,
    {
        if sv[i] != pv[i] {
            assert(sv@.subrange(0, pv@.len() as int)[i as int] != pv@[i as int]);
            return false;
        }
        i = i + 1;
    }
    assert(sv@.subrange(0, pv@.len() as int) =~= pv@);
    true
}

fn close_enough_exec(input: &str, candidate: &str, score: usize) -> (r: bool)
    requires
        score == edit_distance(input@, candidate@),
    ensures
        r == close_enough(input@, candidate@),
{
    let x = candidate.as_bytes().len();
    let y = input.as_bytes().len();
    let gap = if x >= y { x - y } else { y - x };
    assert(gap == byte_len_gap(candidate@, input@));
    score <= 2 || (score <= 3 && gap <= 2) || starts_exec(candidate, input) || starts_exec(input, candidate)
}

/// The names of a list of strings.
pub open spec fn texts(v: Seq<String>) -> Seq<Seq<char>> {
    Seq::new(v.len(), |i: int| v[i]@)
}

fn suggest_name(input: &str, candidates: &Vec<String>) -> (r: Option<String>)
    ensures
        text_of(r) == suggestion(input@, texts(candidates@)),
{
    let ghost cs = texts(candidates@);
    let mut best: Option<(usize, usize)> = None;
    let mut i: usize = 0;
    while i < candidates.len()
        invariant
            i <= candidates@.len(),
            cs == texts(candidates@),
            match best {
                Some((k, score)) => k < i && nearest(input@, cs.subrange(0, i as int)) == Some((cs[k as int], score as nat)),
                None => nearest(input@, cs.subrange(0, i as int)) is None,
            },
        decreases candidates.len() - i,
    {
        proof {
            assert(cs.subrange(0, i + 1).drop_last() =~= cs.subrange(0, i as int));
        }
        let c = candidates[i].as_str();
        if !str_eq(c, input) {
            let score = edit_distance_exec(input, c);
            if close_enough_exec(input, c, score) {
                match best {
                    Some((_, s)) => {
                        if score < s {
                            best = Some((i, score));
                        }
                    },
                    None => {
                        best = Some((i, score));
                    },
                }
            }
        }
        i = i + 1;
    }
    proof {
        assert(cs.subrange(0, candidates@.len() as int) =~= cs);
    }
    match best {
        Some((k, _)) => Some(candidates[k].clone()),
        None => None,
    }
}


// ---------------------------------------------------------------------------
// The checker's context

/// A name in scope: its type where it is known, and whether it was declared with `var`.
pub struct Binding {
    pub ty: Option<KiroType>,
    pub is_mutable: bool,
}

/// The mathematical value of a binding.
pub struct BindingModel {
    pub ty: Option<TypeModel>,
    pub is_mutable: bool,
}

impl View for Binding {
    type V = BindingModel;

    open spec fn view(&self) -> BindingModel {
        BindingModel { ty: opt_type_model(self.ty), is_mutable: self.is_mutable }
    }
}

/// What the checker knows while it reads a module: the compiler's function tables, the
/// module's structs and imports, the scopes from outermost to innermost, and the function
/// being read (whether it is pure, its name and its return type). Diagnostics name `module`
/// and point into `source`.
pub struct SemanticCtx<'a> {
    pub module: String,
    pub source: String,
    pub compiler: &'a Compiler,
    pub structs: Vec<(String, Vec<(String, KiroType)>)>,
    pub imports: Vec<String>,
    pub scopes: Vec<Vec<(String, Binding)>>,
    pub in_pure: bool,
    pub fn_name: Option<String>,
    pub return_type: Option<KiroType>,
}

/// The part of the context that decides what a statement or an expression means.
pub struct CtxModel {
    pub functions: Seq<(String, FunctionInfo)>,
    pub module_functions: Seq<((String, String), FunctionInfo)>,
    pub structs: Seq<(Seq<char>, Seq<(Seq<char>, TypeModel)>)>,
    pub imports: Seq<Seq<char>>,
    pub scopes: Seq<Seq<(Seq<char>, BindingModel)>>,
    pub in_pure: bool,
    pub fn_name: Option<Seq<char>>,
    pub return_type: Option<TypeModel>,
}

/// The model of a struct's field list.
pub open spec fn fields_model(v: Seq<(String, KiroType)>) -> Seq<(Seq<char>, TypeModel)> {
    Seq::new(v.len(), |j: int| (v[j].0@, v[j].1@))
}

/// The model of the known structs.
pub open spec fn structs_model(v: Seq<(String, Vec<(String, KiroType)>)>) -> Seq<(Seq<char>, Seq<(Seq<char>, TypeModel)>)> {
    Seq::new(v.len(), |i: int| (v[i].0@, fields_model(v[i].1@)))
}

/// The model of one scope.
pub open spec fn scope_model(v: Seq<(String, Binding)>) -> Seq<(Seq<char>, BindingModel)> {
    Seq::new(v.len(), |j: int| (v[j].0@, v[j].1@))
}

/// The model of the scopes.
pub open spec fn scopes_model(v: Seq<Vec<(String, Binding)>>) -> Seq<Seq<(Seq<char>, BindingModel)>> {
    Seq::new(v.len(), |i: int| scope_model(v[i]@))
}

impl<'a> View for SemanticCtx<'a> {
    type V = CtxModel;

    open spec fn view(&self) -> CtxModel {
        CtxModel {
            functions: self.compiler.functions@,
            module_functions: self.compiler.module_functions@,
            structs: structs_model(self.structs@),
            imports: texts(self.imports@),
            scopes: scopes_model(self.scopes@),
            in_pure: self.in_pure,
            fn_name: text_of(self.fn_name),
            return_type: opt_type_model(self.return_type),
        }
    }
}

/// A diagnostic of the checker as data: its code and message, the span it points at with
/// its label, and its help and suggestion lines.
pub struct SemError {
    pub code: ErrorCode,
    pub message: Seq<char>,
    pub span: AstSpan,
    pub label: Seq<char>,
    pub help: Option<Seq<char>>,
    pub suggestion: Option<Seq<char>>,
}

/// A diagnostic without help or suggestion.
pub open spec fn err_at(code: ErrorCode, message: Seq<char>, span: AstSpan, label: Seq<char>) -> SemError {
    SemError { code, message, span, label, help: None, suggestion: None }
}

/// A diagnostic with a help line.
pub open spec fn err_help(code: ErrorCode, message: Seq<char>, span: AstSpan, label: Seq<char>, help: Seq<char>) -> SemError {
    SemError { code, message, span, label, help: Some(help), suggestion: None }
}

/// `err` is the compile error `e` of module `module`, located in `source`.
pub open spec fn reports(err: KiroError, module: Seq<char>, source: Seq<char>, e: SemError) -> bool {
    &&& err.code == e.code
    &&& err.phase == ErrorPhase::Compile
    &&& err.message@ == e.message
    &&& byte_span_located(err, module, source, SourceSpan { start: e.span.0, end: e.span.1 }, e.label)
    &&& text_of(err.help) == e.help
    &&& text_of(err.suggestion) == e.suggestion
}

/// The binding of `name` in one scope: the last one made there.
pub open spec fn scope_binding(scope: Seq<(Seq<char>, BindingModel)>, name: Seq<char>) -> Option<BindingModel>
    decreases scope.len(),
{
    if scope.len() == 0 {
        None
    } else if scope.last().0 == name {
        Some(scope.last().1)
    } else {
        scope_binding(scope.drop_last(), name)
    }
}

/// The binding of `name` in the innermost scope that binds it.
pub open spec fn binding_of(scopes: Seq<Seq<(Seq<char>, BindingModel)>>, name: Seq<char>) -> Option<BindingModel>
    decreases scopes.len(),
{
    if scopes.len() == 0 {
        None
    } else {
        match scope_binding(scopes.last(), name) {
            Some(b) => Some(b),
            None => binding_of(scopes.drop_last(), name),
        }
    }
}

/// The fields of struct `name`: those of its last declaration.
pub open spec fn struct_fields(structs: Seq<(Seq<char>, Seq<(Seq<char>, TypeModel)>)>, name: Seq<char>) -> Option<Seq<(Seq<char>, TypeModel)>>
    decreases structs.len(),
{
    if structs.len() == 0 {
        None
    } else if structs.last().0 == name {
        Some(structs.last().1)
    } else {
        struct_fields(structs.drop_last(), name)
    }
}

/// The type of field `name`: that of its last declaration.
pub open spec fn field_type(fields: Seq<(Seq<char>, TypeModel)>, name: Seq<char>) -> Option<TypeModel>
    decreases fields.len(),
{
    if fields.len() == 0 {
        None
    } else if fields.last().0 == name {
        Some(fields.last().1)
    } else {
        field_type(fields.drop_last(), name)
    }
}

/// The names bound in the scopes, outermost first.
pub open spec fn scope_names(scopes: Seq<Seq<(Seq<char>, BindingModel)>>) -> Seq<Seq<char>>
    decreases scopes.len(),
{
    if scopes.len() == 0 {
        Seq::empty()
    } else {
        scope_names(scopes.drop_last()) + Seq::new(scopes.last().len(), |i: int| scopes.last()[i].0)
    }
}

/// `name` bound in the innermost scope, where there is one.
pub open spec fn bind(scopes: Seq<Seq<(Seq<char>, BindingModel)>>, name: Seq<char>, ty: Option<TypeModel>, is_mutable: bool) -> Seq<Seq<(Seq<char>, BindingModel)>> {
    if scopes.len() > 0 {
        scopes.update(scopes.len() - 1, scopes.last().push((name, BindingModel { ty, is_mutable })))
    } else {
        scopes
    }
}

/// The field list of a struct declaration.
pub open spec fn def_fields(fs: Seq<crate::grammar::FieldDef>) -> Seq<(Seq<char>, TypeModel)> {
    Seq::new(fs.len(), |i: int| (fs[i].name.value.value@, fs[i].field_type@))
}

/// The entry of a struct declaration: its name and its fields.
pub open spec fn struct_entry(def: StructDef) -> (Seq<char>, Seq<(Seq<char>, TypeModel)>) {
    (def.name.value.value@, def_fields(def.fields@))
}

/// The names of the module's functions.
pub open spec fn fn_names(fs: Seq<(String, FunctionInfo)>) -> Seq<Seq<char>> {
    Seq::new(fs.len(), |i: int| fs[i].0@)
}

/// The names a variable could be meant as: those in scope, the functions and the imports.
pub open spec fn visible_names(c: CtxModel) -> Seq<Seq<char>> {
    scope_names(c.scopes) + fn_names(c.functions) + c.imports
}

/// The qualified names `module.function` of the functions of module `m`.
pub open spec fn imported_names(mfs: Seq<((String, String), FunctionInfo)>, m: Seq<char>) -> Seq<Seq<char>>
    decreases mfs.len(),
{
    if mfs.len() == 0 {
        Seq::empty()
    } else {
        let rest = imported_names(mfs.drop_last(), m);
        if mfs.last().0.0@ == m {
            rest.push(m + "."@ + mfs.last().0.1@)
        } else {
            rest
        }
    }
}

/// The span of an expression, which every expression has.
pub open spec fn span_of(e: Expression) -> AstSpan {
    spec_expr_span(e).unwrap()
}

/// Every expression has a span.
pub proof fn lemma_expr_span_some(e: Expression)
    ensures
        spec_expr_span(e) is Some,
    decreases e,
{
    match e {
        Expression::Call(func, _) => lemma_expr_span_some(*func),
        Expression::Mul(l, r) => { lemma_expr_span_some(*l); lemma_expr_span_some(*r); },
        Expression::Div(l, r) => { lemma_expr_span_some(*l); lemma_expr_span_some(*r); },
        Expression::Add(l, r) => { lemma_expr_span_some(*l); lemma_expr_span_some(*r); },
        Expression::Sub(l, r) => { lemma_expr_span_some(*l); lemma_expr_span_some(*r); },
        Expression::Eq(l, r) => { lemma_expr_span_some(*l); lemma_expr_span_some(*r); },
        Expression::Neq(l, r) => { lemma_expr_span_some(*l); lemma_expr_span_some(*r); },
        Expression::Gt(l, r) => { lemma_expr_span_some(*l); lemma_expr_span_some(*r); },
        Expression::Lt(l, r) => { lemma_expr_span_some(*l); lemma_expr_span_some(*r); },
        Expression::Geq(l, r) => { lemma_expr_span_some(*l); lemma_expr_span_some(*r); },
        Expression::Leq(l, r) => { lemma_expr_span_some(*l); lemma_expr_span_some(*r); },
        Expression::Range(l, r) => { lemma_expr_span_some(*l); lemma_expr_span_some(*r); },
        _ => {},
    }
}

/// The console module and printing function that a call target names, if it names one.
pub open spec fn io_display_target(func: Expression) -> Option<(Seq<char>, Seq<char>)> {
    match func {
        Expression::FieldAccess(target, _, field) => match *target {
            Expression::Variable(m) => if is_std_io_module(m.value.value@) && is_std_io_display(field.value.value@) {
                Some((m.value.value@, field.value.value@))
            } else {
                None
            },
            _ => None,
        },
        _ => None,
    }
}

/// How a call target is named in diagnostics.
pub open spec fn call_text(func: Expression) -> Seq<char> {
    match func {
        Expression::Variable(v) => v.value.value@,
        Expression::FieldAccess(target, _, field) => match *target {
            Expression::Variable(m) => m.value.value@ + "."@ + field.value.value@,
            _ => "<computed function>"@,
        },
        _ => "<computed function>"@,
    }
}

/// `Unknown variable 'name'.`, with the nearest visible name as suggestion.
pub open spec fn unknown_variable(c: CtxModel, name: Seq<char>, span: AstSpan) -> SemError {
    SemError {
        code: ErrorCode::UnknownName,
        message: "Unknown variable '"@ + name + "'."@,
        span,
        label: "unknown variable"@,
        help: None,
        suggestion: suggestion(name, visible_names(c)),
    }
}

/// A call target that is neither a function name nor a function of an imported module.
pub open spec fn unknown_target(func: Expression) -> SemError {
    err_at(ErrorCode::UnknownName, "Unknown function target."@, span_of(func), "unknown function target"@)
}

/// The function a call target names, with the name used in diagnostics.
pub open spec fn spec_lookup_call(c: CtxModel, func: Expression) -> Result<(Seq<char>, InfoModel), SemError> {
    match func {
        Expression::Variable(v) => {
            let name = v.value.value@;
            let t = function_table(c.functions);
            if t.contains_key(name) {
                Ok((name, t[name]))
            } else {
                Err(SemError {
                    code: ErrorCode::UnknownName,
                    message: "Unknown function '"@ + name + "'."@,
                    span: v.span,
                    label: "unknown function"@,
                    help: None,
                    suggestion: suggestion(name, fn_names(c.functions)),
                })
            }
        },
        Expression::FieldAccess(target, _, field) => match *target {
            Expression::Variable(m) => if c.imports.contains(m.value.value@) {
                let key = (m.value.value@, field.value.value@);
                let call = m.value.value@ + "."@ + field.value.value@;
                let t = module_function_table(c.module_functions);
                if t.contains_key(key) {
                    Ok((call, t[key]))
                } else {
                    Err(SemError {
                        code: ErrorCode::ImportError,
                        message: "Unknown function '"@ + call + "'."@,
                        span: span_of(func),
                        label: "unknown imported function"@,
                        help: None,
                        suggestion: suggestion(call, imported_names(c.module_functions, m.value.value@)),
                    })
                }
            } else {
                Err(unknown_target(func))
            },
            _ => Err(unknown_target(func)),
        },
        _ => Err(unknown_target(func)),
    }
}

/// `Wrong argument count for 'call': expected n, got k.`
pub open spec fn count_message(call: Seq<char>, expected: nat, got: nat) -> Seq<char> {
    "Wrong argument count for '"@ + call + "': expected "@ + decimal(expected) + ", got "@ + decimal(got) + "."@
}

/// The help line of a wrong argument count: the parameter types the function expects.
pub open spec fn count_help(call: Seq<char>, params: Seq<TypeModel>) -> Seq<char> {
    if params.len() == 0 {
        call + " expects no arguments"@
    } else {
        call + " expects ("@ + join_with(type_texts(params), ", "@) + ")"@
    }
}

/// `Pure function cannot call impure/async function 'call' inside a pure function.`
pub open spec fn impure_call_message(call: Seq<char>) -> Seq<char> {
    "Pure function cannot call impure/async function '"@ + call + "' inside a pure function."@
}

/// Both results, the first error where there is one.
pub open spec fn both(a: Result<Option<TypeModel>, SemError>, b: Result<Option<TypeModel>, SemError>) -> Result<(Option<TypeModel>, Option<TypeModel>), SemError> {
    match a {
        Err(x) => Err(x),
        Ok(x) => match b {
            Err(y) => Err(y),
            Ok(y) => Ok((x, y)),
        },
    }
}

/// The first error of a check, or the value.
pub open spec fn then_value(a: Result<(), SemError>, v: Option<TypeModel>) -> Result<Option<TypeModel>, SemError> {
    match a {
        Err(x) => Err(x),
        Ok(_) => Ok(v),
    }
}

/// The type of an arithmetic result: text where either side is text, else a number.
pub open spec fn arith_type(p: Result<(Option<TypeModel>, Option<TypeModel>), SemError>) -> Result<Option<TypeModel>, SemError> {
    match p {
        Err(x) => Err(x),
        Ok((l, r)) => if l == Some(TypeModel::Str) || r == Some(TypeModel::Str) {
            Ok(Some(TypeModel::Str))
        } else {
            Ok(Some(TypeModel::Num))
        },
    }
}

/// Both sides are checked; the result has type `t`.
pub open spec fn sides_then(p: Result<(Option<TypeModel>, Option<TypeModel>), SemError>, t: Option<TypeModel>) -> Result<Option<TypeModel>, SemError> {
    match p {
        Err(x) => Err(x),
        Ok(_) => Ok(t),
    }
}

/// The two operands of a binary expression.
pub open spec fn sides(e: Expression) -> Option<(Expression, Expression)> {
    match e {
        Expression::Add(l, r) => Some((*l, *r)),
        Expression::Sub(l, r) => Some((*l, *r)),
        Expression::Mul(l, r) => Some((*l, *r)),
        Expression::Div(l, r) => Some((*l, *r)),
        Expression::Eq(l, r) => Some((*l, *r)),
        Expression::Neq(l, r) => Some((*l, *r)),
        Expression::Gt(l, r) => Some((*l, *r)),
        Expression::Lt(l, r) => Some((*l, *r)),
        Expression::Geq(l, r) => Some((*l, *r)),
        Expression::Leq(l, r) => Some((*l, *r)),
        Expression::Range(l, r) => Some((*l, *r)),
        _ => None,
    }
}

/// What the checker infers for an expression, or the first diagnostic it reports.
pub open spec fn spec_infer(c: CtxModel, e: Expression) -> Result<Option<TypeModel>, SemError>
    decreases e,
{
    match e {
        Expression::Number(_) => Ok(Some(TypeModel::Num)),
        Expression::StringLit(_) => Ok(Some(TypeModel::Str)),
        Expression::BoolLit(_) => Ok(Some(TypeModel::Bool)),
        Expression::ErrorRef(_) => Ok(None),
        Expression::AdrInit(_, inner) => Ok(Some(TypeModel::Adr(Box::new(inner@)))),
        Expression::PipeInit(_, inner, _) => Ok(Some(TypeModel::Pipe(Box::new(inner@)))),
        Expression::Variable(v) => {
            let name = v.value.value@;
            match binding_of(c.scopes, name) {
                Some(b) => Ok(b.ty),
                None => if c.imports.contains(name) || function_table(c.functions).contains_key(name) {
                    Ok(None)
                } else {
                    Err(unknown_variable(c, name, v.span))
                },
            }
        },
        Expression::MoveExpr(kw, v) => {
            let name = v.value.value@;
            if c.in_pure {
                Err(err_at(ErrorCode::PureViolation, "Compiler Error: 'move' is forbidden in pure functions."@, kw.span, "forbidden in pure fn"@))
            } else {
                match binding_of(c.scopes, name) {
                    None => Err(unknown_variable(c, name, v.span)),
                    Some(b) => if !b.is_mutable {
                        Err(err_at(ErrorCode::MutabilityError, "Cannot move immutable variable '"@ + name + "'."@, v.span, "immutable variable"@))
                    } else {
                        Ok(b.ty)
                    },
                }
            }
        },
        Expression::StructInit(name, fields) =>
            then_value(spec_infer_inits(c, name.value.value@, fields@), Some(TypeModel::Custom(name.value.value@))),
        Expression::FieldAccess(target, _, field) => {
            let f = field.value.value@;
            let imported = match *target {
                Expression::Variable(m) => if c.imports.contains(m.value.value@) { Some(m.value.value@) } else { None },
                _ => None,
            };
            match imported {
                Some(m) => if module_function_table(c.module_functions).contains_key((m, f)) {
                    Ok(None)
                } else {
                    let call = m + "."@ + f;
                    Err(SemError {
                        code: ErrorCode::ImportError,
                        message: "Unknown function '"@ + call + "'."@,
                        span: span_of(e),
                        label: "unknown imported function"@,
                        help: None,
                        suggestion: suggestion(call, imported_names(c.module_functions, m)),
                    })
                },
                None => match spec_infer(c, *target) {
                    Err(x) => Err(x),
                    Ok(t) => match t {
                        Some(TypeModel::Custom(sname)) => match struct_fields(c.structs, sname) {
                            Some(fs) => match field_type(fs, f) {
                                Some(ft) => Ok(Some(ft)),
                                None => Err(err_at(ErrorCode::TypeError, "Type "@ + sname + " has no field '"@ + f + "'."@, field.span, "unknown field"@)),
                            },
                            None => Ok(None),
                        },
                        _ => Ok(None),
                    },
                },
            }
        },
        Expression::ListInit(_, inner, items) => then_value(spec_infer_each(c, items@), Some(TypeModel::List(Box::new(inner@)))),
        Expression::MapInit(_, k, v, pairs) => then_value(spec_infer_pairs(c, pairs@), Some(TypeModel::MapOf(Box::new(k@), Box::new(v@)))),
        Expression::At(col, kw, key) => match both(spec_infer(c, *col), spec_infer(c, *key)) {
            Err(x) => Err(x),
            Ok((ct, kt)) => match ct {
                Some(TypeModel::List(inner)) => if kt is Some && !same_type(TypeModel::Num, kt.unwrap()) {
                    Err(err_help(ErrorCode::TypeError, "List index must be num, got "@ + type_text(kt.unwrap()) + "."@, kw.span,
                        "wrong index type"@, "Lists are indexed with numeric positions."@))
                } else {
                    Ok(Some(*inner))
                },
                Some(TypeModel::MapOf(k, v)) => if kt is Some && !same_type(*k, kt.unwrap()) {
                    Err(err_help(ErrorCode::TypeError, "Map key must be "@ + type_text(*k) + ", got "@ + type_text(kt.unwrap()) + "."@, kw.span,
                        "wrong key type"@, "Use a key whose type matches the map declaration."@))
                } else {
                    Ok(Some(*v))
                },
                Some(_) => Err(err_help(ErrorCode::BadUse, "'at' expects a list or map."@, kw.span, "bad access"@, "Use `list at index` or `map at key`."@)),
                None => Ok(None),
            },
        },
        Expression::Push(list, kw, value) => match both(spec_infer(c, *list), spec_infer(c, *value)) {
            Err(x) => Err(x),
            Ok((lt, vt)) => match lt {
                Some(TypeModel::List(inner)) => if vt is Some && !same_type(*inner, vt.unwrap()) {
                    Err(err_help(ErrorCode::TypeError, "'push' value must be "@ + type_text(*inner) + ", got "@ + type_text(vt.unwrap()) + "."@, kw.span,
                        "wrong push value"@, "Push a value whose type matches the list element type."@))
                } else {
                    Ok(Some(TypeModel::Void))
                },
                Some(_) => Err(err_help(ErrorCode::BadUse, "'push' expects a list."@, kw.span, "bad push"@,
                    "Use `list push value` where the left expression is a list."@)),
                None => Ok(Some(TypeModel::Void)),
            },
        },
        Expression::Take(kw, channel) => if c.in_pure {
            Err(err_at(ErrorCode::PureViolation, "Pure Function Error: 'take' is forbidden."@, kw.span, "forbidden in pure fn"@))
        } else {
            match spec_infer(c, *channel) {
                Err(x) => Err(x),
                Ok(t) => match t {
                    Some(TypeModel::Pipe(inner)) => Ok(Some(*inner)),
                    Some(_) => Err(err_help(ErrorCode::BadUse, "'take' expects a pipe."@, kw.span, "bad take"@, "Use `take pipe` where the expression is a pipe."@)),
                    None => Ok(None),
                },
            }
        },
        Expression::Ref(_, target) => match spec_infer(c, *target) {
            Err(x) => Err(x),
            Ok(_) => Ok(None),
        },
        Expression::Deref(kw, target) => match spec_infer(c, *target) {
            Err(x) => Err(x),
            Ok(t) => if t matches Some(TypeModel::Adr(inner)) && *inner is Void {
                Err(err_help(ErrorCode::BadUse, "Cannot deref adr void."@, kw.span, "bad deref"@,
                    "Use a typed address like `adr num`, or pass the opaque address to host code."@))
            } else {
                Ok(None)
            },
        },
        Expression::Len(_, target) => match spec_infer(c, *target) {
            Err(x) => Err(x),
            Ok(_) => Ok(Some(TypeModel::Num)),
        },
        Expression::Add(l, r) => arith_type(both(spec_infer(c, *l), spec_infer(c, *r))),
        Expression::Sub(l, r) => arith_type(both(spec_infer(c, *l), spec_infer(c, *r))),
        Expression::Mul(l, r) => arith_type(both(spec_infer(c, *l), spec_infer(c, *r))),
        Expression::Div(l, r) => arith_type(both(spec_infer(c, *l), spec_infer(c, *r))),
        Expression::Eq(l, r) => sides_then(both(spec_infer(c, *l), spec_infer(c, *r)), Some(TypeModel::Bool)),
        Expression::Neq(l, r) => sides_then(both(spec_infer(c, *l), spec_infer(c, *r)), Some(TypeModel::Bool)),
        Expression::Gt(l, r) => sides_then(both(spec_infer(c, *l), spec_infer(c, *r)), Some(TypeModel::Bool)),
        Expression::Lt(l, r) => sides_then(both(spec_infer(c, *l), spec_infer(c, *r)), Some(TypeModel::Bool)),
        Expression::Geq(l, r) => sides_then(both(spec_infer(c, *l), spec_infer(c, *r)), Some(TypeModel::Bool)),
        Expression::Leq(l, r) => sides_then(both(spec_infer(c, *l), spec_infer(c, *r)), Some(TypeModel::Bool)),
        Expression::Range(l, r) => sides_then(both(spec_infer(c, *l), spec_infer(c, *r)), None),
        Expression::Call(func, args) => {
            let span = span_of(*func);
            let io = io_display_target(*func);
            if io is Some && c.imports.contains(io.unwrap().0) {
                let call = io.unwrap().0 + "."@ + io.unwrap().1;
                if args@.len() != 1 {
                    Err(err_help(ErrorCode::WrongArgumentCount, count_message(call, 1, args@.len()), span, "wrong argument count"@,
                        call + " expects (value)"@))
                } else if c.in_pure {
                    Err(err_at(ErrorCode::PureViolation, impure_call_message(call), span, "impure call"@))
                } else {
                    then_value(spec_infer_each(c, args@), Some(TypeModel::Void))
                }
            } else {
                match spec_lookup_call(c, *func) {
                    Err(x) => Err(x),
                    Ok((call, info)) => if args@.len() != info.params.len() {
                        Err(err_help(ErrorCode::WrongArgumentCount, count_message(call, info.params.len(), args@.len()), span,
                            "wrong argument count"@, count_help(call, info.params)))
                    } else if c.in_pure && !info.is_pure {
                        Err(err_at(ErrorCode::PureViolation, impure_call_message(call), span, "impure call"@))
                    } else {
                        then_value(spec_check_args(c, call, info.params, args@, span), info.return_type)
                    },
                }
            }
        },
        Expression::RunCall(kw, call) => match *call {
            Expression::Call(func, args) => match spec_lookup_call(c, *func) {
                Err(x) => Err(x),
                Ok((_, info)) => if args@.len() != info.params.len() {
                    Err(err_at(ErrorCode::WrongArgumentCount, count_message(call_text(*func), info.params.len(), args@.len()), kw.span,
                        "wrong argument count"@))
                } else {
                    then_value(spec_infer_each(c, args@), None)
                },
            },
            _ => Err(err_help(ErrorCode::BadUse, "'run' expects a function call."@, kw.span, "bad run"@, "Use `run worker()` instead of `run worker`."@)),
        },
    }
}

/// Inside a pure function, a display call of an imported standard I/O module (such as
/// `io.print(x)`) with its one argument is refused as a purity violation that names the call,
/// whatever the argument is.
pub proof fn lemma_pure_functions_cannot_print(c: CtxModel, func: Expression, args: Vec<Expression>)
    requires
        c.in_pure,
        io_display_target(func) is Some,
        c.imports.contains(io_display_target(func).unwrap().0),
        args@.len() == 1,
    ensures
        spec_infer(c, Expression::Call(Box::new(func), args)) == Err::<Option<TypeModel>, SemError>(err_at(ErrorCode::PureViolation,
            impure_call_message(io_display_target(func).unwrap().0 + "."@ + io_display_target(func).unwrap().1), span_of(func),
            "impure call"@)),
{
}

/// Reading a map `at` a key whose type is known is refused as a type error at the `at`
/// keyword exactly when the key's type is not the map's key type; otherwise (a matching or an
/// unknown key type) the result has the map's value type.
pub proof fn lemma_map_at_checks_the_key_type(c: CtxModel, col: Expression, kw: Spanned<()>, key: Expression,
    k: TypeModel, v: TypeModel, t: Option<TypeModel>)
    requires
        spec_infer(c, col) == Ok::<Option<TypeModel>, SemError>(Some(TypeModel::MapOf(Box::new(k), Box::new(v)))),
        spec_infer(c, key) == Ok::<Option<TypeModel>, SemError>(t),
    ensures
        (t matches Some(kt) && !same_type(k, kt)) ==> spec_infer(c, Expression::At(Box::new(col), kw, Box::new(key)))
            == Err::<Option<TypeModel>, SemError>(err_help(ErrorCode::TypeError,
                "Map key must be "@ + type_text(k) + ", got "@ + type_text(t.unwrap()) + "."@, kw.span, "wrong key type"@,
                "Use a key whose type matches the map declaration."@)),
        (t is None || same_type(k, t.unwrap())) ==> spec_infer(c, Expression::At(Box::new(col), kw, Box::new(key)))
            == Ok::<Option<TypeModel>, SemError>(Some(v)),
{
}

/// Reading a list `at` an index whose type is known and is not `num` is refused as a type
/// error at the `at` keyword; with a `num` or an unknown index the result has the element type.
pub proof fn lemma_list_at_checks_the_index_type(c: CtxModel, col: Expression, kw: Spanned<()>, key: Expression,
    inner: TypeModel, t: Option<TypeModel>)
    requires
        spec_infer(c, col) == Ok::<Option<TypeModel>, SemError>(Some(TypeModel::List(Box::new(inner)))),
        spec_infer(c, key) == Ok::<Option<TypeModel>, SemError>(t),
    ensures
        (t matches Some(kt) && kt != TypeModel::Num) ==> spec_infer(c, Expression::At(Box::new(col), kw, Box::new(key)))
            == Err::<Option<TypeModel>, SemError>(err_help(ErrorCode::TypeError,
                "List index must be num, got "@ + type_text(t.unwrap()) + "."@, kw.span, "wrong index type"@,
                "Lists are indexed with numeric positions."@)),
        (t is None || t == Some(TypeModel::Num)) ==> spec_infer(c, Expression::At(Box::new(col), kw, Box::new(key)))
            == Ok::<Option<TypeModel>, SemError>(Some(inner)),
{
}

/// Pushing a value whose type is known onto a list is refused as a type error at the `push`
/// keyword exactly when that type is not the list's element type; otherwise the push has type
/// `void`.
pub proof fn lemma_push_checks_the_value_type(c: CtxModel, list: Expression, kw: Spanned<()>, value: Expression,
    inner: TypeModel, t: Option<TypeModel>)
    requires
        spec_infer(c, list) == Ok::<Option<TypeModel>, SemError>(Some(TypeModel::List(Box::new(inner)))),
        spec_infer(c, value) == Ok::<Option<TypeModel>, SemError>(t),
    ensures
        (t matches Some(vt) && !same_type(inner, vt)) ==> spec_infer(c, Expression::Push(Box::new(list), kw, Box::new(value)))
            == Err::<Option<TypeModel>, SemError>(err_help(ErrorCode::TypeError,
                "'push' value must be "@ + type_text(inner) + ", got "@ + type_text(t.unwrap()) + "."@, kw.span, "wrong push value"@,
                "Push a value whose type matches the list element type."@)),
        (t is None || same_type(inner, t.unwrap())) ==> spec_infer(c, Expression::Push(Box::new(list), kw, Box::new(value)))
            == Ok::<Option<TypeModel>, SemError>(Some(TypeModel::Void)),
{
}

/// Each expression of the list is checked, first to last.
pub open spec fn spec_infer_each(c: CtxModel, s: Seq<Expression>) -> Result<(), SemError>
    decreases s,
{
    if s.len() == 0 {
        Ok(())
    } else {
        match spec_infer_each(c, s.drop_last()) {
            Err(x) => Err(x),
            Ok(_) => match spec_infer(c, s.last()) {
                Err(x) => Err(x),
                Ok(_) => Ok(()),
            },
        }
    }
}

/// Each key and value of the map entries is checked, first to last.
pub open spec fn spec_infer_pairs(c: CtxModel, s: Seq<MapPair>) -> Result<(), SemError>
    decreases s,
{
    if s.len() == 0 {
        Ok(())
    } else {
        match spec_infer_pairs(c, s.drop_last()) {
            Err(x) => Err(x),
            Ok(_) => match both(spec_infer(c, s.last().key), spec_infer(c, s.last().value)) {
                Err(x) => Err(x),
                Ok(_) => Ok(()),
            },
        }
    }
}

/// Each field of a literal of struct `sname` is a known field of it, where the struct is
/// known, and its value is checked, first to last.
pub open spec fn spec_infer_inits(c: CtxModel, sname: Seq<char>, s: Seq<FieldInit>) -> Result<(), SemError>
    decreases s,
{
    if s.len() == 0 {
        Ok(())
    } else {
        match spec_infer_inits(c, sname, s.drop_last()) {
            Err(x) => Err(x),
            Ok(_) => {
                let f = s.last().name.value.value@;
                if struct_fields(c.structs, sname) is Some && field_type(struct_fields(c.structs, sname).unwrap(), f) is None {
                    Err(err_at(ErrorCode::TypeError, "Type "@ + sname + " has no field '"@ + f + "'."@, s.last().name.span, "unknown field"@))
                } else {
                    match spec_infer(c, s.last().value) {
                        Err(x) => Err(x),
                        Ok(_) => Ok(()),
                    }
                }
            },
        }
    }
}

/// Each argument of a call is checked, first to last, and where its type is known it is
/// the parameter's type.
pub open spec fn spec_check_args(c: CtxModel, call: Seq<char>, params: Seq<TypeModel>, s: Seq<Expression>, span: AstSpan) -> Result<(), SemError>
    decreases s,
{
    if s.len() == 0 {
        Ok(())
    } else {
        match spec_check_args(c, call, params, s.drop_last(), span) {
            Err(x) => Err(x),
            Ok(_) => match spec_infer(c, s.last()) {
                Err(x) => Err(x),
                Ok(t) => {
                    let k = s.len() - 1;
                    if t is Some && !same_type(params[k], t.unwrap()) {
                        Err(err_at(ErrorCode::TypeError, "Argument "@ + decimal(s.len()) + " for '"@ + call + "' must be "@
                            + type_text(params[k]) + ", got "@ + type_text(t.unwrap()) + "."@, span, "wrong argument type"@))
                    } else {
                        Ok(())
                    }
                },
            },
        }
    }
}


/// `a + b + c` as a new string.
fn concat3(a: &str, b: &str, c: &str) -> (r: String)
    ensures
        r@ == a@ + b@ + c@,
{
    let mut r = String::from_str(a);
    push_str(&mut r, b);
    push_str(&mut r, c);
    r
}

/// `module.function` as a new string.
fn qualified(m: &str, f: &str) -> (r: String)
    ensures
        r@ == m@ + "."@ + f@,
{
    concat3(m, ".", f)
}

fn contains_text(v: &Vec<String>, x: &str) -> (r: bool)
    ensures
        r == texts(v@).contains(x@),
{
    let mut i: usize = 0;
    while i < v.len()
        invariant
            i <= v@.len(),
            forall|k: int| 0 <= k < i ==> (#[trigger] v@[k])@ != x@,
        decreases v.len() - i,
    {
        if str_eq(v[i].as_str(), x) {
            assert(texts(v@)[i as int] == x@);
            return true;
        }
        i = i + 1;
    }
    proof {
        if texts(v@).contains(x@) {
            let k = choose|k: int| 0 <= k < texts(v@).len() && texts(v@)[k] == x@;
            assert(v@[k]@ == x@);
        }
    }
    false
}

fn field_type_of(fields: &Vec<(String, KiroType)>, name: &str) -> (r: Option<KiroType>)
    ensures
        opt_type_model(r) == field_type(fields_model(fields@), name@),
{
    let ghost fm = fields_model(fields@);
    let mut i: usize = fields.len();
    proof {
        assert(fm.subrange(0, fm.len() as int) =~= fm);
    }
    while i > 0
        invariant
            i <= fields@.len(),
            fm == fields_model(fields@),
            field_type(fm, name@) == field_type(fm.subrange(0, i as int), name@),
        decreases i,
    {
        proof {
            assert(fm.subrange(0, i as int).drop_last() =~= fm.subrange(0, i - 1));
            assert(fm.subrange(0, i as int).last() == fm[i - 1]);
        }
        if str_eq(fields[i - 1].0.as_str(), name) {
            return Some(copy_type(&fields[i - 1].1));
        }
        i = i - 1;
    }
    None
}

/// The first error of a check, or the value.
fn then_value_exec(a: Result<(), KiroError>, v: Option<KiroType>) -> (r: Result<Option<KiroType>, KiroError>)
    ensures
        match a {
            Err(x) => r == Err::<Option<KiroType>, KiroError>(x),
            Ok(_) => r == Ok::<Option<KiroType>, KiroError>(v),
        },
{
    match a {
        Err(x) => Err(x),
        Ok(_) => Ok(v),
    }
}

/// The model of an outcome of the checker.
pub open spec fn outcome<T>(r: Result<T, KiroError>, module: Seq<char>, source: Seq<char>, m: Result<T, SemError>) -> bool {
    match r {
        Ok(v) => m == Ok::<T, SemError>(v),
        Err(err) => m matches Err(x) && reports(err, module, source, x),
    }
}

/// The model of an inferred type, or of the first diagnostic.
pub open spec fn type_outcome(r: Result<Option<KiroType>, KiroError>, module: Seq<char>, source: Seq<char>, m: Result<Option<TypeModel>, SemError>) -> bool {
    match r {
        Ok(t) => m == Ok::<Option<TypeModel>, SemError>(opt_type_model(t)),
        Err(err) => m matches Err(x) && reports(err, module, source, x),
    }
}

impl<'a> SemanticCtx<'a> {
    /// A checker for `module`, whose text is `source`, with the compiler's function tables,
    /// no structs or imports, one empty scope, outside any function.
    pub fn new(module: &str, source: &str, compiler: &'a Compiler) -> (r: SemanticCtx<'a>)
        ensures
            r.module@ == module@,
            r.source@ == source@,
            r.compiler == compiler,
            r@ == (CtxModel {
                functions: compiler.functions@,
                module_functions: compiler.module_functions@,
                structs: Seq::empty(),
                imports: Seq::empty(),
                scopes: seq![Seq::empty()],
                in_pure: false,
                fn_name: None,
                return_type: None,
            }),
    {
        let mut scopes: Vec<Vec<(String, Binding)>> = Vec::new();
        scopes.push(Vec::new());
        let r = SemanticCtx {
            module: String::from_str(module),
            source: String::from_str(source),
            compiler,
            structs: Vec::new(),
            imports: Vec::new(),
            scopes,
            in_pure: false,
            fn_name: None,
            return_type: None,
        };
        proof {
            assert(r@.structs =~= Seq::empty());
            assert(r@.imports =~= Seq::empty());
            assert(r@.scopes[0] =~= Seq::empty());
            assert(r@.scopes =~= seq![Seq::<(Seq<char>, BindingModel)>::empty()]);
        }
        r
    }

    /// Opens a new innermost scope.
    pub fn push_scope(&mut self)
        ensures
            final(self)@ == (CtxModel { scopes: old(self)@.scopes.push(Seq::empty()), ..old(self)@ }),
            final(self).module == old(self).module && final(self).source == old(self).source,
            final(self).compiler == old(self).compiler,
    {
        let fresh: Vec<(String, Binding)> = Vec::new();
        proof {
            assert(scope_model(fresh@) =~= Seq::<(Seq<char>, BindingModel)>::empty());
        }
        self.scopes.push(fresh);
        proof {
            assert(scopes_model(self.scopes@) =~= scopes_model(old(self).scopes@).push(Seq::empty()));
        }
    }

    /// Closes the innermost scope, where there is one.
    pub fn pop_scope(&mut self)
        ensures
            final(self)@ == (CtxModel {
                scopes: if old(self)@.scopes.len() > 0 { old(self)@.scopes.drop_last() } else { old(self)@.scopes },
                ..old(self)@
            }),
            final(self).module == old(self).module && final(self).source == old(self).source,
            final(self).compiler == old(self).compiler,
    {
        let _ = self.scopes.pop();
        proof {
            if old(self).scopes@.len() > 0 {
                assert(scopes_model(self.scopes@) =~= scopes_model(old(self).scopes@).drop_last());
            }
        }
    }

    /// Binds `name` in the innermost scope, where there is one.
    pub fn insert_binding(&mut self, name: String, ty: Option<KiroType>, is_mutable: bool)
        ensures
            final(self)@ == (CtxModel { scopes: bind(old(self)@.scopes, name@, opt_type_model(ty), is_mutable), ..old(self)@ }),
            final(self).module == old(self).module && final(self).source == old(self).source,
            final(self).compiler == old(self).compiler,
    {
        let n = self.scopes.len();
        if n > 0 {
            let mut last = self.scopes.pop().unwrap();
            let ghost last0 = last@;
            last.push((name, Binding { ty, is_mutable }));
            self.scopes.push(last);
            proof {
                assert(scope_model(last@) =~= scope_model(last0).push((name@, BindingModel { ty: opt_type_model(ty), is_mutable })));
                assert(old(self).scopes@[n - 1]@ == last0);
                assert(scopes_model(self.scopes@) =~= bind(scopes_model(old(self).scopes@), name@, opt_type_model(ty), is_mutable));
            }
        }
    }

    /// Records an imported module.
    pub fn add_import(&mut self, name: String)
        ensures
            final(self)@ == (CtxModel { imports: old(self)@.imports.push(name@), ..old(self)@ }),
            final(self).module == old(self).module && final(self).source == old(self).source,
            final(self).compiler == old(self).compiler,
    {
        self.imports.push(name);
        proof {
            assert(texts(self.imports@) =~= texts(old(self).imports@).push(name@));
        }
    }

    /// Records a struct declaration: its name and its fields with their types.
    pub fn insert_struct(&mut self, def: &StructDef)
        ensures
            final(self)@ == (CtxModel { structs: old(self)@.structs.push(struct_entry(*def)), ..old(self)@ }),
            final(self).structs@.len() == old(self).structs@.len() + 1,
            final(self).structs@.drop_last() == old(self).structs@,
            final(self).structs@.last().0@ == def.name.value.value@,
            final(self).structs@.last().1@.len() == def.fields@.len(),
            forall|i: int| 0 <= i < def.fields@.len() ==> (#[trigger] final(self).structs@.last().1@[i]).0@ == def.fields@[i].name.value.value@
                && final(self).structs@.last().1@[i].1@ == def.fields@[i].field_type@,
            final(self).module == old(self).module && final(self).source == old(self).source,
            final(self).compiler == old(self).compiler,
    {
        let mut fields: Vec<(String, KiroType)> = Vec::new();
        let mut i: usize = 0;
        while i < def.fields.len()
            invariant
                i <= def.fields@.len(),
                fields@.len() == i,
                forall|k: int| 0 <= k < i ==> (#[trigger] fields@[k]).0@ == def.fields@[k].name.value.value@
                    && fields@[k].1@ == def.fields@[k].field_type@,
            decreases def.fields.len() - i,
        {
            fields.push((def.fields[i].name.value.value.clone(), copy_type(&def.fields[i].field_type)));
            i = i + 1;
        }
        let ghost fv = fields@;
        self.structs.push((def.name.value.value.clone(), fields));
        proof {
            assert(self.structs@.drop_last() =~= old(self).structs@);
            assert(fields_model(fv) =~= struct_entry(*def).1);
            assert(structs_model(self.structs@) =~= structs_model(old(self).structs@).push(struct_entry(*def)));
        }
    }

    /// Enters or leaves a pure function.
    pub fn set_pure(&mut self, in_pure: bool)
        ensures
            final(self)@ == (CtxModel { in_pure, ..old(self)@ }),
            final(self).module == old(self).module && final(self).source == old(self).source,
            final(self).compiler == old(self).compiler,
    {
        self.in_pure = in_pure;
    }

    fn error(&self, code: ErrorCode, message: &str, span: AstSpan, label: &str, help: Option<&str>, suggestion: Option<String>) -> (r: KiroError)
        requires
            self.source@.len() >= 0,
            encode_utf8(self.source@).len() < usize::MAX,
        ensures
            reports(r, self.module@, self.source@, SemError {
                code,
                message: message@,
                span,
                label: label@,
                help: match help { Some(h) => Some(h@), None => None },
                suggestion: text_of(suggestion),
            }),
    {
        let h = match help {
            Some(h) => Some(String::from_str(h)),
            None => None,
        };
        let mut err = KiroError::module_compile_error(self.module.as_str(), code, message, h);
        err = err.with_byte_span(self.module.as_str(), self.source.as_str(), SourceSpan::new(span.0, span.1), label);
        match suggestion {
            Some(sg) => {
                err = err.with_suggestion(sg.as_str());
            },
            None => {},
        }
        err
    }

    fn binding(&self, name: &str) -> (r: Option<&Binding>)
        ensures
            match r {
                Some(b) => binding_of(self@.scopes, name@) == Some(b@),
                None => binding_of(self@.scopes, name@) is None,
            },
    {
        let ghost m = self@.scopes;
        let mut k: usize = self.scopes.len();
        proof {
            assert(m.subrange(0, m.len() as int) =~= m);
        }
        while k > 0
            invariant
                k <= self.scopes@.len(),
                m == scopes_model(self.scopes@),
                m == self@.scopes,
                binding_of(m, name@) == binding_of(m.subrange(0, k as int), name@),
            decreases k,
        {
            let scope = &self.scopes[k - 1];
            let ghost pre = m.subrange(0, k as int);
            let ghost sm = scope_model(scope@);
            proof {
                assert(pre.drop_last() =~= m.subrange(0, k - 1));
                assert(pre.last() == sm);
                assert(sm.subrange(0, sm.len() as int) =~= sm);
            }
            let mut j: usize = scope.len();
            while j > 0
                invariant
                    j <= scope@.len(),
                    sm == scope_model(scope@),
                    scope_binding(sm, name@) == scope_binding(sm.subrange(0, j as int), name@),
                    binding_of(m, name@) == binding_of(pre, name@),
                    m == self@.scopes,
                    pre.len() > 0,
                    pre.last() == sm,
                    pre.drop_last() == m.subrange(0, k - 1),
                decreases j,
            {
                proof {
                    assert(sm.subrange(0, j as int).drop_last() =~= sm.subrange(0, j - 1));
                    assert(sm.subrange(0, j as int).last() == sm[j - 1]);
                }
                if str_eq(scope[j - 1].0.as_str(), name) {
                    proof {
                        assert(sm[j - 1] == (scope@[j - 1].0@, scope@[j - 1].1@));
                        assert(scope_binding(sm.subrange(0, j as int), name@) == Some(scope@[j - 1].1@));
                        assert(scope_binding(pre.last(), name@) == Some(scope@[j - 1].1@));
                        assert(binding_of(pre, name@) == Some(scope@[j - 1].1@));
                        assert(binding_of(self@.scopes, name@) == Some(scope@[j - 1].1@));
                    }
                    return Some(&scope[j - 1].1);
                }
                j = j - 1;
            }
            proof {
                assert(sm.subrange(0, 0) =~= Seq::<(Seq<char>, BindingModel)>::empty());
            }
            k = k - 1;
        }
        None
    }

    fn struct_fields_of(&self, name: &str) -> (r: Option<&Vec<(String, KiroType)>>)
        ensures
            match r {
                Some(v) => struct_fields(self@.structs, name@) == Some(fields_model(v@)),
                None => struct_fields(self@.structs, name@) is None,
            },
    {
        let ghost m = self@.structs;
        let mut i: usize = self.structs.len();
        proof {
            assert(m.subrange(0, m.len() as int) =~= m);
        }
        while i > 0
            invariant
                i <= self.structs@.len(),
                m == structs_model(self.structs@),
                struct_fields(m, name@) == struct_fields(m.subrange(0, i as int), name@),
            decreases i,
        {
            proof {
                assert(m.subrange(0, i as int).drop_last() =~= m.subrange(0, i - 1));
                assert(m.subrange(0, i as int).last() == m[i - 1]);
            }
            if str_eq(self.structs[i - 1].0.as_str(), name) {
                return Some(&self.structs[i - 1].1);
            }
            i = i - 1;
        }
        None
    }

    fn visible_names_exec(&self) -> (r: Vec<String>)
        ensures
            texts(r@) == visible_names(self@),
    {
        let ghost m = self@.scopes;
        let mut r: Vec<String> = Vec::new();
        let mut k: usize = 0;
        while k < self.scopes.len()
            invariant
                k <= self.scopes@.len(),
                m == scopes_model(self.scopes@),
                texts(r@) == scope_names(m.subrange(0, k as int)),
            decreases self.scopes.len() - k,
        {
            let scope = &self.scopes[k];
            let ghost before = r@;
            let mut j: usize = 0;
            while j < scope.len()
                invariant
                    j <= scope@.len(),
                    r@.len() == before.len() + j,
                    forall|m: int| 0 <= m < before.len() ==> r@[m] == before[m],
                    forall|m: int| before.len() <= m < r@.len() ==> (#[trigger] r@[m])@ == scope@[m - before.len()].0@,
                decreases scope.len() - j,
            {
                r.push(scope[j].0.clone());
                j = j + 1;
            }
            proof {
                let pre = m.subrange(0, k + 1);
                assert(pre.drop_last() =~= m.subrange(0, k as int));
                assert(pre.last() == scope_model(scope@));
                assert(texts(r@) =~= texts(before) + Seq::new(scope@.len(), |i: int| scope@[i].0@));
                assert(Seq::new(scope@.len(), |i: int| scope@[i].0@) =~= Seq::new(pre.last().len(), |i: int| pre.last()[i].0));
            }
            k = k + 1;
        }
        proof {
            assert(m.subrange(0, m.len() as int) =~= m);
        }
        let ghost s1 = r@;
        let fs = &self.compiler.functions;
        let mut i: usize = 0;
        while i < fs.len()
            invariant
                i <= fs@.len(),
                r@.len() == s1.len() + i,
                forall|m: int| 0 <= m < s1.len() ==> r@[m] == s1[m],
                forall|m: int| s1.len() <= m < r@.len() ==> (#[trigger] r@[m])@ == fs@[m - s1.len()].0@,
            decreases fs.len() - i,
        {
            r.push(fs[i].0.clone());
            i = i + 1;
        }
        let ghost s2 = r@;
        proof {
            assert(texts(s2) =~= texts(s1) + fn_names(fs@));
        }
        let mut i: usize = 0;
        while i < self.imports.len()
            invariant
                i <= self.imports@.len(),
                r@.len() == s2.len() + i,
                forall|m: int| 0 <= m < s2.len() ==> r@[m] == s2[m],
                forall|m: int| s2.len() <= m < r@.len() ==> (#[trigger] r@[m])@ == self.imports@[m - s2.len()]@,
            decreases self.imports.len() - i,
        {
            r.push(self.imports[i].clone());
            i = i + 1;
        }
        proof {
            assert(texts(r@) =~= texts(s1) + fn_names(fs@) + texts(self.imports@));
        }
        r
    }

    fn function_names_exec(&self) -> (r: Vec<String>)
        ensures
            texts(r@) == fn_names(self@.functions),
    {
        let fs = &self.compiler.functions;
        let mut r: Vec<String> = Vec::new();
        let mut i: usize = 0;
        while i < fs.len()
            invariant
                i <= fs@.len(),
                r@.len() == i,
                forall|m: int| 0 <= m < i ==> (#[trigger] r@[m])@ == fs@[m].0@,
            decreases fs.len() - i,
        {
            r.push(fs[i].0.clone());
            i = i + 1;
        }
        proof {
            assert(texts(r@) =~= fn_names(fs@));
        }
        r
    }

    fn imported_names_exec(&self, module: &str) -> (r: Vec<String>)
        ensures
            texts(r@) == imported_names(self@.module_functions, module@),
    {
        let mfs = &self.compiler.module_functions;
        let mut r: Vec<String> = Vec::new();
        let mut i: usize = 0;
        while i < mfs.len()
            invariant
                i <= mfs@.len(),
                texts(r@) == imported_names(mfs@.subrange(0, i as int), module@),
            decreases mfs.len() - i,
        {
            proof {
                assert(mfs@.subrange(0, i + 1).drop_last() =~= mfs@.subrange(0, i as int));
            }
            if str_eq(mfs[i].0.0.as_str(), module) {
                let q = qualified(module, mfs[i].0.1.as_str());
                r.push(q);
                proof {
                    assert(texts(r@) =~= texts(r@.drop_last()).push(r@.last()@));
                }
            }
            i = i + 1;
        }
        proof {
            assert(mfs@.subrange(0, mfs@.len() as int) =~= mfs@);
        }
        r
    }
}


proof fn lemma_each_prefix(c: CtxModel, s: Seq<Expression>, k: int)
    requires
        0 <= k <= s.len(),
        spec_infer_each(c, s.subrange(0, k)) is Err,
    ensures
        spec_infer_each(c, s) == spec_infer_each(c, s.subrange(0, k)),
    decreases s.len() - k,
{
    if k < s.len() {
        assert(s.subrange(0, k + 1).drop_last() =~= s.subrange(0, k));
        lemma_each_prefix(c, s, k + 1);
    } else {
        assert(s.subrange(0, k) =~= s);
    }
}

proof fn lemma_pairs_prefix(c: CtxModel, s: Seq<MapPair>, k: int)
    requires
        0 <= k <= s.len(),
        spec_infer_pairs(c, s.subrange(0, k)) is Err,
    ensures
        spec_infer_pairs(c, s) == spec_infer_pairs(c, s.subrange(0, k)),
    decreases s.len() - k,
{
    if k < s.len() {
        assert(s.subrange(0, k + 1).drop_last() =~= s.subrange(0, k));
        lemma_pairs_prefix(c, s, k + 1);
    } else {
        assert(s.subrange(0, k) =~= s);
    }
}

proof fn lemma_inits_prefix(c: CtxModel, sname: Seq<char>, s: Seq<FieldInit>, k: int)
    requires
        0 <= k <= s.len(),
        spec_infer_inits(c, sname, s.subrange(0, k)) is Err,
    ensures
        spec_infer_inits(c, sname, s) == spec_infer_inits(c, sname, s.subrange(0, k)),
    decreases s.len() - k,
{
    if k < s.len() {
        assert(s.subrange(0, k + 1).drop_last() =~= s.subrange(0, k));
        lemma_inits_prefix(c, sname, s, k + 1);
    } else {
        assert(s.subrange(0, k) =~= s);
    }
}

proof fn lemma_args_prefix(c: CtxModel, call: Seq<char>, params: Seq<TypeModel>, s: Seq<Expression>, span: AstSpan, k: int)
    requires
        0 <= k <= s.len(),
        spec_check_args(c, call, params, s.subrange(0, k), span) is Err,
    ensures
        spec_check_args(c, call, params, s, span) == spec_check_args(c, call, params, s.subrange(0, k), span),
    decreases s.len() - k,
{
    if k < s.len() {
        assert(s.subrange(0, k + 1).drop_last() =~= s.subrange(0, k));
        lemma_args_prefix(c, call, params, s, span, k + 1);
    } else {
        assert(s.subrange(0, k) =~= s);
    }
}

fn count_message_exec(call: &str, expected: usize, got: usize) -> (r: String)
    ensures
        r@ == count_message(call@, expected as nat, got as nat),
{
    let mut r = String::from_str("Wrong argument count for '");
    push_str(&mut r, call);
    push_str(&mut r, "': expected ");
    push_decimal(&mut r, expected as u64);
    push_str(&mut r, ", got ");
    push_decimal(&mut r, got as u64);
    push_str(&mut r, ".");
    r
}

fn count_help_exec(call: &str, params: &Vec<KiroType>) -> (r: String)
    ensures
        r@ == count_help(call@, param_models(params@)),
{
    if params.len() == 0 {
        let mut r = String::from_str(call);
        push_str(&mut r, " expects no arguments");
        r
    } else {
        let list = type_list(params);
        let mut r = concat3(call, " expects (", list.as_str());
        push_str(&mut r, ")");
        r
    }
}

fn impure_call_message_exec(call: &str) -> (r: String)
    ensures
        r@ == impure_call_message(call@),
{
    concat3("Pure function cannot call impure/async function '", call, "' inside a pure function.")
}

fn io_display_exec(func: &Expression) -> (r: Option<(&str, &str)>)
    ensures
        match r {
            Some(p) => io_display_target(*func) == Some((p.0@, p.1@)),
            None => io_display_target(*func) is None,
        },
{
    match func {
        Expression::FieldAccess(target, _, field) => match &**target {
            Expression::Variable(m) => {
                let mn = m.value.value.as_str();
                let f = field.value.value.as_str();
                if str_eq(mn, "io") && (str_eq(f, "print") || str_eq(f, "write") || str_eq(f, "eprint") || str_eq(f, "eprintline")) {
                    Some((mn, f))
                } else {
                    None
                }
            },
            _ => None,
        },
        _ => None,
    }
}

fn call_text_exec(func: &Expression) -> (r: String)
    ensures
        r@ == call_text(*func),
{
    match func {
        Expression::Variable(v) => v.value.value.clone(),
        Expression::FieldAccess(target, _, field) => match &**target {
            Expression::Variable(m) => qualified(m.value.value.as_str(), field.value.value.as_str()),
            _ => String::from_str("<computed function>"),
        },
        _ => String::from_str("<computed function>"),
    }
}

impl<'a> SemanticCtx<'a> {
    fn unknown_variable_error(&self, name: &str, span: AstSpan) -> (r: KiroError)
        requires
            encode_utf8(self.source@).len() < usize::MAX,
        ensures
            reports(r, self.module@, self.source@, unknown_variable(self@, name@, span)),
    {
        let candidates = self.visible_names_exec();
        let sg = suggest_name(name, &candidates);
        let msg = concat3("Unknown variable '", name, "'.");
        self.error(ErrorCode::UnknownName, msg.as_str(), span, "unknown variable", None, sg)
    }

    fn unknown_target_error(&self, func: &Expression) -> (r: KiroError)
        requires
            encode_utf8(self.source@).len() < usize::MAX,
        ensures
            reports(r, self.module@, self.source@, unknown_target(*func)),
    {
        proof {
            lemma_expr_span_some(*func);
        }
        let span = expr_span(func).unwrap();
        self.error(ErrorCode::UnknownName, "Unknown function target.", span, "unknown function target", None, None)
    }

    /// The function a call target names, with the name that diagnostics use for it: a
    /// function of the module, or a function of an imported module.
    pub fn lookup_call(&self, func: &Expression) -> (r: Result<(String, &FunctionInfo), KiroError>)
        requires
            encode_utf8(self.source@).len() < usize::MAX,
        ensures
            match r {
                Ok((call, info)) => spec_lookup_call(self@, *func) == Ok::<(Seq<char>, InfoModel), SemError>((call@, info@)),
                Err(err) => spec_lookup_call(self@, *func) matches Err(x) && reports(err, self.module@, self.source@, x),
            },
    {
        proof {
            lemma_expr_span_some(*func);
        }
        match func {
            Expression::Variable(v) => {
                let name = v.value.value.as_str();
                match self.compiler.function_info(name) {
                    Some(info) => Ok((String::from_str(name), info)),
                    None => {
                        let names = self.function_names_exec();
                        let sg = suggest_name(name, &names);
                        let msg = concat3("Unknown function '", name, "'.");
                        Err(self.error(ErrorCode::UnknownName, msg.as_str(), v.span, "unknown function", None, sg))
                    },
                }
            },
            Expression::FieldAccess(target, _, field) => match &**target {
                Expression::Variable(m) => {
                    let mn = m.value.value.as_str();
                    if contains_text(&self.imports, mn) {
                        let f = field.value.value.as_str();
                        let call = qualified(mn, f);
                        match self.compiler.module_function_info(mn, f) {
                            Some(info) => Ok((call, info)),
                            None => {
                                let names = self.imported_names_exec(mn);
                                let sg = suggest_name(call.as_str(), &names);
                                let msg = concat3("Unknown function '", call.as_str(), "'.");
                                let span = expr_span(func).unwrap();
                                Err(self.error(ErrorCode::ImportError, msg.as_str(), span, "unknown imported function", None, sg))
                            },
                        }
                    } else {
                        Err(self.unknown_target_error(func))
                    }
                },
                _ => Err(self.unknown_target_error(func)),
            },
            _ => Err(self.unknown_target_error(func)),
        }
    }

    fn infer_each(&self, items: &Vec<Expression>) -> (r: Result<(), KiroError>)
        requires
            encode_utf8(self.source@).len() < usize::MAX,
        ensures
            outcome(r, self.module@, self.source@, spec_infer_each(self@, items@)),
        decreases items, 0int,
    {
        let mut i: usize = 0;
        while i < items.len()
            invariant
                i <= items@.len(),
                encode_utf8(self.source@).len() < usize::MAX,
                spec_infer_each(self@, items@.subrange(0, i as int)) == Ok::<(), SemError>(()),
            decreases items.len() - i,
        {
            proof {
                assert(items@.subrange(0, i + 1).drop_last() =~= items@.subrange(0, i as int));
                assert(decreases_to!(items => items@[i as int]));
            }
            match self.infer_expr(&items[i]) {
                Err(x) => {
                    proof {
                        lemma_each_prefix(self@, items@, i + 1);
                    }
                    return Err(x);
                },
                Ok(_) => {},
            }
            i = i + 1;
        }
        proof {
            assert(items@.subrange(0, items@.len() as int) =~= items@);
        }
        Ok(())
    }

    fn infer_pairs(&self, pairs: &Vec<MapPair>) -> (r: Result<(), KiroError>)
        requires
            encode_utf8(self.source@).len() < usize::MAX,
        ensures
            outcome(r, self.module@, self.source@, spec_infer_pairs(self@, pairs@)),
        decreases pairs, 0int,
    {
        let mut i: usize = 0;
        while i < pairs.len()
            invariant
                i <= pairs@.len(),
                encode_utf8(self.source@).len() < usize::MAX,
                spec_infer_pairs(self@, pairs@.subrange(0, i as int)) == Ok::<(), SemError>(()),
            decreases pairs.len() - i,
        {
            proof {
                assert(pairs@.subrange(0, i + 1).drop_last() =~= pairs@.subrange(0, i as int));
                assert(decreases_to!(pairs => pairs@[i as int]));
                assert(decreases_to!(pairs@[i as int] => pairs@[i as int].key));
                assert(decreases_to!(pairs@[i as int] => pairs@[i as int].value));
            }
            match self.infer_expr(&pairs[i].key) {
                Err(x) => {
                    proof {
                        lemma_pairs_prefix(self@, pairs@, i + 1);
                    }
                    return Err(x);
                },
                Ok(_) => {},
            }
            match self.infer_expr(&pairs[i].value) {
                Err(x) => {
                    proof {
                        lemma_pairs_prefix(self@, pairs@, i + 1);
                    }
                    return Err(x);
                },
                Ok(_) => {},
            }
            i = i + 1;
        }
        proof {
            assert(pairs@.subrange(0, pairs@.len() as int) =~= pairs@);
        }
        Ok(())
    }

    fn infer_inits(&self, sname: &str, fields: &Vec<FieldInit>) -> (r: Result<(), KiroError>)
        requires
            encode_utf8(self.source@).len() < usize::MAX,
        ensures
            outcome(r, self.module@, self.source@, spec_infer_inits(self@, sname@, fields@)),
        decreases fields, 0int,
    {
        let known = self.struct_fields_of(sname);
        let mut i: usize = 0;
        while i < fields.len()
            invariant
                i <= fields@.len(),
                encode_utf8(self.source@).len() < usize::MAX,
                match known {
                    Some(v) => struct_fields(self@.structs, sname@) == Some(fields_model(v@)),
                    None => struct_fields(self@.structs, sname@) is None,
                },
                spec_infer_inits(self@, sname@, fields@.subrange(0, i as int)) == Ok::<(), SemError>(()),
            decreases fields.len() - i,
        {
            proof {
                assert(fields@.subrange(0, i + 1).drop_last() =~= fields@.subrange(0, i as int));
                assert(decreases_to!(fields => fields@[i as int]));
                assert(decreases_to!(fields@[i as int] => fields@[i as int].value));
            }
            let f = fields[i].name.value.value.as_str();
            match known {
                Some(v) => {
                    if field_type_of(v, f).is_none() {
                        let mut msg = concat3("Type ", sname, " has no field '");
                        push_str(&mut msg, f);
                        push_str(&mut msg, "'.");
                        let err = self.error(ErrorCode::TypeError, msg.as_str(), fields[i].name.span, "unknown field", None, None);
                        proof {
                            lemma_inits_prefix(self@, sname@, fields@, i + 1);
                        }
                        return Err(err);
                    }
                },
                None => {},
            }
            match self.infer_expr(&fields[i].value) {
                Err(x) => {
                    proof {
                        lemma_inits_prefix(self@, sname@, fields@, i + 1);
                    }
                    return Err(x);
                },
                Ok(_) => {},
            }
            i = i + 1;
        }
        proof {
            assert(fields@.subrange(0, fields@.len() as int) =~= fields@);
        }
        Ok(())
    }

    fn check_args(&self, call: &str, params: &Vec<KiroType>, args: &Vec<Expression>, span: AstSpan) -> (r: Result<(), KiroError>)
        requires
            encode_utf8(self.source@).len() < usize::MAX,
            params@.len() == args@.len(),
        ensures
            outcome(r, self.module@, self.source@, spec_check_args(self@, call@, param_models(params@), args@, span)),
        decreases args, 0int,
    {
        let ghost ps = param_models(params@);
        let mut i: usize = 0;
        while i < args.len()
            invariant
                i <= args@.len(),
                params@.len() == args@.len(),
                ps == param_models(params@),
                encode_utf8(self.source@).len() < usize::MAX,
                spec_check_args(self@, call@, ps, args@.subrange(0, i as int), span) == Ok::<(), SemError>(()),
            decreases args.len() - i,
        {
            proof {
                assert(args@.subrange(0, i + 1).drop_last() =~= args@.subrange(0, i as int));
                assert(decreases_to!(args => args@[i as int]));
                assert(ps[i as int] == params@[i as int]@);
            }
            match self.infer_expr(&args[i]) {
                Err(x) => {
                    proof {
                        lemma_args_prefix(self@, call@, ps, args@, span, i + 1);
                    }
                    return Err(x);
                },
                Ok(t) => match &t {
                    Some(actual) => {
                        if !same_type_exec(&params[i], actual) {
                            let mut msg = String::from_str("Argument ");
                            push_decimal(&mut msg, (i + 1) as u64);
                            push_str(&mut msg, " for '");
                            push_str(&mut msg, call);
                            push_str(&mut msg, "' must be ");
                            let expected = type_text_of(&params[i]);
                            push_str(&mut msg, expected.as_str());
                            push_str(&mut msg, ", got ");
                            let got = type_text_of(actual);
                            push_str(&mut msg, got.as_str());
                            push_str(&mut msg, ".");
                            let err = self.error(ErrorCode::TypeError, msg.as_str(), span, "wrong argument type", None, None);
                            proof {
                                lemma_args_prefix(self@, call@, ps, args@, span, i + 1);
                            }
                            return Err(err);
                        }
                    },
                    None => {},
                },
            }
            i = i + 1;
        }
        proof {
            assert(args@.subrange(0, args@.len() as int) =~= args@);
        }
        Ok(())
    }
}


impl<'a> SemanticCtx<'a> {
    /// The type of an expression where the checker can tell it (`None` where it cannot:
    /// error references, imported functions, references, ranges and so on), or the first
    /// diagnostic found in it, its parts read left to right.
    #[verifier::rlimit(60)]
    pub fn infer_expr(&self, e: &Expression) -> (r: Result<Option<KiroType>, KiroError>)
        requires
            encode_utf8(self.source@).len() < usize::MAX,
        ensures
            type_outcome(r, self.module@, self.source@, spec_infer(self@, *e)),
        decreases e, 1int,
    {
        match e {
            Expression::Number(_) => Ok(Some(KiroType::Num)),
            Expression::StringLit(_) => Ok(Some(KiroType::Str)),
            Expression::BoolLit(_) => Ok(Some(KiroType::Bool)),
            Expression::ErrorRef(_) => Ok(None),
            Expression::AdrInit(_, inner) => Ok(Some(KiroType::Adr(Box::new(copy_type(inner))))),
            Expression::PipeInit(_, inner, _) => Ok(Some(KiroType::Pipe(Box::new(copy_type(inner))))),
            Expression::Variable(..) => self.infer_variable(e),
            Expression::MoveExpr(..) => self.infer_move(e),
            Expression::StructInit(name, fields) => {
                let checked = self.infer_inits(name.value.value.as_str(), fields);
                then_value_exec(checked, Some(KiroType::Custom(StructNameVal { value: name.value.value.clone() })))
            },
            Expression::FieldAccess(..) => self.infer_field(e),
            Expression::ListInit(_, inner, items) => {
                let checked = self.infer_each(items);
                then_value_exec(checked, Some(KiroType::List(Box::new(copy_type(inner)))))
            },
            Expression::MapInit(_, k, v, pairs) => {
                let checked = self.infer_pairs(pairs);
                then_value_exec(checked, Some(KiroType::MapOf(Box::new(copy_type(k)), Box::new(copy_type(v)))))
            },
            Expression::At(..) => self.infer_at(e),
            Expression::Push(..) => self.infer_push(e),
            Expression::Take(..) => self.infer_take(e),
            Expression::Ref(_, target) => {
                match self.infer_expr(target) {
                    Ok(_) => Ok(None),
                    Err(x) => Err(x),
                }
            },
            Expression::Deref(..) => self.infer_deref(e),
            Expression::Len(_, target) => {
                match self.infer_expr(target) {
                    Ok(_) => Ok(Some(KiroType::Num)),
                    Err(x) => Err(x),
                }
            },
            Expression::Add(l, r) | Expression::Sub(l, r) | Expression::Mul(l, r) | Expression::Div(l, r) => {
                match self.infer_sides(e) {
                    Err(x) => Err(x),
                    Ok((lt, rt)) => {
                        let l_str = match &lt {
                            Some(KiroType::Str) => true,
                            _ => false,
                        };
                        let r_str = match &rt {
                            Some(KiroType::Str) => true,
                            _ => false,
                        };
                        if l_str || r_str {
                            Ok(Some(KiroType::Str))
                        } else {
                            Ok(Some(KiroType::Num))
                        }
                    },
                }
            },
            Expression::Eq(l, r) | Expression::Neq(l, r) | Expression::Gt(l, r) | Expression::Lt(l, r)
            | Expression::Geq(l, r) | Expression::Leq(l, r) => {
                match self.infer_sides(e) {
                    Err(x) => Err(x),
                    Ok(_) => Ok(Some(KiroType::Bool)),
                }
            },
            Expression::Range(l, r) => {
                match self.infer_sides(e) {
                    Err(x) => Err(x),
                    Ok(_) => Ok(None),
                }
            },
            Expression::Call(func, args) => self.infer_call(e, func, args),
            Expression::RunCall(..) => self.infer_run(e),
        }
    }

    fn infer_variable(&self, e: &Expression) -> (r: Result<Option<KiroType>, KiroError>)
        requires
            encode_utf8(self.source@).len() < usize::MAX,
            e is Variable,
        ensures
            type_outcome(r, self.module@, self.source@, spec_infer(self@, *e)),
        decreases e, 0int,
    {
        match e {
            Expression::Variable(v) => {
                let name = v.value.value.as_str();
                match self.binding(name) {
                    Some(b) => Ok(copy_opt_type(&b.ty)),
                    None => {
                        if contains_text(&self.imports, name) || self.compiler.function_info(name).is_some() {
                            Ok(None)
                        } else {
                            Err(self.unknown_variable_error(name, v.span))
                        }
                    },
                }
            },
            _ => {
                proof {
                    assert(false);
                }
                Ok(None)
            },
        }
    }

    fn infer_move(&self, e: &Expression) -> (r: Result<Option<KiroType>, KiroError>)
        requires
            encode_utf8(self.source@).len() < usize::MAX,
            e is MoveExpr,
        ensures
            type_outcome(r, self.module@, self.source@, spec_infer(self@, *e)),
        decreases e, 0int,
    {
        match e {
            Expression::MoveExpr(kw, v) => {
                let name = v.value.value.as_str();
                if self.in_pure {
                    return Err(self.error(ErrorCode::PureViolation, "Compiler Error: 'move' is forbidden in pure functions.", kw.span,
                        "forbidden in pure fn", None, None));
                }
                match self.binding(name) {
                    None => Err(self.unknown_variable_error(name, v.span)),
                    Some(b) => {
                        if !b.is_mutable {
                            let msg = concat3("Cannot move immutable variable '", name, "'.");
                            Err(self.error(ErrorCode::MutabilityError, msg.as_str(), v.span, "immutable variable", None, None))
                        } else {
                            Ok(copy_opt_type(&b.ty))
                        }
                    },
                }
            },
            _ => {
                proof {
                    assert(false);
                }
                Ok(None)
            },
        }
    }

    fn infer_field(&self, e: &Expression) -> (r: Result<Option<KiroType>, KiroError>)
        requires
            encode_utf8(self.source@).len() < usize::MAX,
            e is FieldAccess,
        ensures
            type_outcome(r, self.module@, self.source@, spec_infer(self@, *e)),
        decreases e, 0int,
    {
        match e {
            Expression::FieldAccess(target, _, field) => {
                let f = field.value.value.as_str();
                let imported: Option<&str> = match &**target {
                    Expression::Variable(m) => {
                        if contains_text(&self.imports, m.value.value.as_str()) {
                            Some(m.value.value.as_str())
                        } else {
                            None
                        }
                    },
                    _ => None,
                };
                match imported {
                    Some(m) => {
                        if self.compiler.module_function_info(m, f).is_some() {
                            Ok(None)
                        } else {
                            let call = qualified(m, f);
                            let names = self.imported_names_exec(m);
                            let sg = suggest_name(call.as_str(), &names);
                            let msg = concat3("Unknown function '", call.as_str(), "'.");
                            proof {
                                lemma_expr_span_some(*e);
                            }
                            let span = expr_span(e).unwrap();
                            Err(self.error(ErrorCode::ImportError, msg.as_str(), span, "unknown imported function", None, sg))
                        }
                    },
                    None => {
                        let t = match self.infer_expr(target) {
                            Ok(t) => t,
                            Err(x) => return Err(x),
                        };
                        match &t {
                            Some(KiroType::Custom(sname)) => match self.struct_fields_of(sname.value.as_str()) {
                                Some(fs) => match field_type_of(fs, f) {
                                    Some(ft) => Ok(Some(ft)),
                                    None => {
                                        let mut msg = concat3("Type ", sname.value.as_str(), " has no field '");
                                        push_str(&mut msg, f);
                                        push_str(&mut msg, "'.");
                                        Err(self.error(ErrorCode::TypeError, msg.as_str(), field.span, "unknown field", None, None))
                                    },
                                },
                                None => Ok(None),
                            },
                            _ => Ok(None),
                        }
                    },
                }
            },
            _ => {
                proof {
                    assert(false);
                }
                Ok(None)
            },
        }
    }

    fn infer_at(&self, e: &Expression) -> (r: Result<Option<KiroType>, KiroError>)
        requires
            encode_utf8(self.source@).len() < usize::MAX,
            e is At,
        ensures
            type_outcome(r, self.module@, self.source@, spec_infer(self@, *e)),
        decreases e, 0int,
    {
        match e {
            Expression::At(col, kw, key) => {
                let ct = match self.infer_expr(col) {
                    Ok(t) => t,
                    Err(x) => return Err(x),
                };
                let kt = match self.infer_expr(key) {
                    Ok(t) => t,
                    Err(x) => return Err(x),
                };
                match ct {
                    Some(KiroType::List(inner)) => {
                        match &kt {
                            Some(actual) => {
                                if !same_type_exec(&KiroType::Num, actual) {
                                    let got = type_text_of(actual);
                                    let msg = concat3("List index must be num, got ", got.as_str(), ".");
                                    return Err(self.error(ErrorCode::TypeError, msg.as_str(), kw.span, "wrong index type",
                                        Some("Lists are indexed with numeric positions."), None));
                                }
                            },
                            None => {},
                        }
                        Ok(Some(*inner))
                    },
                    Some(KiroType::MapOf(k, v)) => {
                        match &kt {
                            Some(actual) => {
                                if !same_type_exec(&k, actual) {
                                    let kn = type_text_of(&k);
                                    let got = type_text_of(actual);
                                    let mut msg = concat3("Map key must be ", kn.as_str(), ", got ");
                                    push_str(&mut msg, got.as_str());
                                    push_str(&mut msg, ".");
                                    return Err(self.error(ErrorCode::TypeError, msg.as_str(), kw.span, "wrong key type",
                                        Some("Use a key whose type matches the map declaration."), None));
                                }
                            },
                            None => {},
                        }
                        Ok(Some(*v))
                    },
                    Some(_) => Err(self.error(ErrorCode::BadUse, "'at' expects a list or map.", kw.span, "bad access",
                        Some("Use `list at index` or `map at key`."), None)),
                    None => Ok(None),
                }
            },
            _ => {
                proof {
                    assert(false);
                }
                Ok(None)
            },
        }
    }

    fn infer_push(&self, e: &Expression) -> (r: Result<Option<KiroType>, KiroError>)
        requires
            encode_utf8(self.source@).len() < usize::MAX,
            e is Push,
        ensures
            type_outcome(r, self.module@, self.source@, spec_infer(self@, *e)),
        decreases e, 0int,
    {
        match e {
            Expression::Push(list, kw, value) => {
                let lt = match self.infer_expr(list) {
                    Ok(t) => t,
                    Err(x) => return Err(x),
                };
                let vt = match self.infer_expr(value) {
                    Ok(t) => t,
                    Err(x) => return Err(x),
                };
                match lt {
                    Some(KiroType::List(inner)) => {
                        match &vt {
                            Some(actual) => {
                                if !same_type_exec(&inner, actual) {
                                    let want = type_text_of(&inner);
                                    let got = type_text_of(actual);
                                    let mut msg = concat3("'push' value must be ", want.as_str(), ", got ");
                                    push_str(&mut msg, got.as_str());
                                    push_str(&mut msg, ".");
                                    return Err(self.error(ErrorCode::TypeError, msg.as_str(), kw.span, "wrong push value",
                                        Some("Push a value whose type matches the list element type."), None));
                                }
                            },
                            None => {},
                        }
                        Ok(Some(KiroType::Void))
                    },
                    Some(_) => Err(self.error(ErrorCode::BadUse, "'push' expects a list.", kw.span, "bad push",
                        Some("Use `list push value` where the left expression is a list."), None)),
                    None => Ok(Some(KiroType::Void)),
                }
            },
            _ => {
                proof {
                    assert(false);
                }
                Ok(None)
            },
        }
    }

    fn infer_take(&self, e: &Expression) -> (r: Result<Option<KiroType>, KiroError>)
        requires
            encode_utf8(self.source@).len() < usize::MAX,
            e is Take,
        ensures
            type_outcome(r, self.module@, self.source@, spec_infer(self@, *e)),
        decreases e, 0int,
    {
        match e {
            Expression::Take(kw, channel) => {
                if self.in_pure {
                    return Err(self.error(ErrorCode::PureViolation, "Pure Function Error: 'take' is forbidden.", kw.span,
                        "forbidden in pure fn", None, None));
                }
                let t = match self.infer_expr(channel) {
                    Ok(t) => t,
                    Err(x) => return Err(x),
                };
                match t {
                    Some(KiroType::Pipe(inner)) => Ok(Some(*inner)),
                    Some(_) => Err(self.error(ErrorCode::BadUse, "'take' expects a pipe.", kw.span, "bad take",
                        Some("Use `take pipe` where the expression is a pipe."), None)),
                    None => Ok(None),
                }
            },
            _ => {
                proof {
                    assert(false);
                }
                Ok(None)
            },
        }
    }

    fn infer_deref(&self, e: &Expression) -> (r: Result<Option<KiroType>, KiroError>)
        requires
            encode_utf8(self.source@).len() < usize::MAX,
            e is Deref,
        ensures
            type_outcome(r, self.module@, self.source@, spec_infer(self@, *e)),
        decreases e, 0int,
    {
        match e {
            Expression::Deref(kw, target) => {
                let t = match self.infer_expr(target) {
                    Ok(t) => t,
                    Err(x) => return Err(x),
                };
                let void_adr = match &t {
                    Some(KiroType::Adr(inner)) => match &**inner {
                        KiroType::Void => true,
                        _ => {
                            proof {
                                assert(!(type_model(**inner) is Void));
                            }
                            false
                        },
                    },
                    _ => false,
                };
                proof {
                    assert(void_adr == (opt_type_model(t) matches Some(TypeModel::Adr(inner)) && *inner is Void));
                }
                if void_adr {
                    Err(self.error(ErrorCode::BadUse, "Cannot deref adr void.", kw.span, "bad deref",
                        Some("Use a typed address like `adr num`, or pass the opaque address to host code."), None))
                } else {
                    Ok(None)
                }
            },
            _ => {
                proof {
                    assert(false);
                }
                Ok(None)
            },
        }
    }

    fn infer_run(&self, e: &Expression) -> (r: Result<Option<KiroType>, KiroError>)
        requires
            encode_utf8(self.source@).len() < usize::MAX,
            e is RunCall,
        ensures
            type_outcome(r, self.module@, self.source@, spec_infer(self@, *e)),
        decreases e, 0int,
    {
        match e {
            Expression::RunCall(kw, call) => {
                match &**call {
                    Expression::Call(func, args) => {
                        let (_, info) = match self.lookup_call(func) {
                            Ok(x) => x,
                            Err(x) => return Err(x),
                        };
                        if args.len() != info.params.len() {
                            let name = call_text_exec(func);
                            let msg = count_message_exec(name.as_str(), info.params.len(), args.len());
                            return Err(self.error(ErrorCode::WrongArgumentCount, msg.as_str(), kw.span, "wrong argument count", None, None));
                        }
                        let checked = self.infer_each(args);
                        then_value_exec(checked, None)
                    },
                    _ => Err(self.error(ErrorCode::BadUse, "'run' expects a function call.", kw.span, "bad run",
                        Some("Use `run worker()` instead of `run worker`."), None)),
                }
            },
            _ => {
                proof {
                    assert(false);
                }
                Ok(None)
            },
        }
    }

    fn infer_sides(&self, e: &Expression) -> (res: Result<(Option<KiroType>, Option<KiroType>), KiroError>)
        requires
            encode_utf8(self.source@).len() < usize::MAX,
            sides(*e) is Some,
        ensures
            match res {
                Ok((a, b)) => both(spec_infer(self@, sides(*e).unwrap().0), spec_infer(self@, sides(*e).unwrap().1))
                    == Ok::<(Option<TypeModel>, Option<TypeModel>), SemError>((opt_type_model(a), opt_type_model(b))),
                Err(err) => both(spec_infer(self@, sides(*e).unwrap().0), spec_infer(self@, sides(*e).unwrap().1)) matches Err(x)
                    && reports(err, self.module@, self.source@, x),
            },
        decreases e, 0int,
    {
        match e {
            Expression::Add(l, r) | Expression::Sub(l, r) | Expression::Mul(l, r) | Expression::Div(l, r)
            | Expression::Eq(l, r) | Expression::Neq(l, r) | Expression::Gt(l, r) | Expression::Lt(l, r)
            | Expression::Geq(l, r) | Expression::Leq(l, r) | Expression::Range(l, r) => {
                let lt = match self.infer_expr(l) {
                    Ok(t) => t,
                    Err(x) => return Err(x),
                };
                let rt = match self.infer_expr(r) {
                    Ok(t) => t,
                    Err(x) => return Err(x),
                };
                Ok((lt, rt))
            },
            _ => {
                proof {
                    assert(false);
                }
                Err(self.unknown_target_error(e))
            },
        }
    }

    fn infer_call(&self, e: &Expression, func: &Box<Expression>, args: &Vec<Expression>) -> (r: Result<Option<KiroType>, KiroError>)
        requires
            encode_utf8(self.source@).len() < usize::MAX,
            *e == Expression::Call(*func, *args),
        ensures
            type_outcome(r, self.module@, self.source@, spec_infer(self@, *e)),
        decreases e, 0int,
    {
        proof {
            lemma_expr_span_some(**func);
        }
        let span = expr_span(func).unwrap();
        match io_display_exec(func) {
            Some((m, f)) => {
                if contains_text(&self.imports, m) {
                    let call = qualified(m, f);
                    if args.len() != 1 {
                        let msg = count_message_exec(call.as_str(), 1, args.len());
                        let mut help = call.clone();
                        push_str(&mut help, " expects (value)");
                        return Err(self.error(ErrorCode::WrongArgumentCount, msg.as_str(), span, "wrong argument count", Some(help.as_str()), None));
                    }
                    if self.in_pure {
                        let msg = impure_call_message_exec(call.as_str());
                        return Err(self.error(ErrorCode::PureViolation, msg.as_str(), span, "impure call", None, None));
                    }
                    let checked = self.infer_each(args);
                    return then_value_exec(checked, Some(KiroType::Void));
                }
            },
            None => {},
        }
        let (call, info) = match self.lookup_call(func) {
            Ok(x) => x,
            Err(x) => return Err(x),
        };
        if args.len() != info.params.len() {
            let msg = count_message_exec(call.as_str(), info.params.len(), args.len());
            let help = count_help_exec(call.as_str(), &info.params);
            return Err(self.error(ErrorCode::WrongArgumentCount, msg.as_str(), span, "wrong argument count", Some(help.as_str()), None));
        }
        if self.in_pure && !info.is_pure {
            let msg = impure_call_message_exec(call.as_str());
            return Err(self.error(ErrorCode::PureViolation, msg.as_str(), span, "impure call", None, None));
        }
        let checked = self.check_args(call.as_str(), &info.params, args, span);
        then_value_exec(checked, copy_opt_type(&info.return_type))
    }
}


// ---------------------------------------------------------------------------
// Returns on every path, and the structs of a program

/// A statement ends every path through it with a return of type `expected`: a `return`, a
/// final expression of a function that returns a value, or an `on` whose body and `off`
/// branch both do.
pub open spec fn stmt_returns(s: Statement, expected: TypeModel) -> bool
    decreases s,
{
    match s {
        Statement::Return(_, _) => true,
        Statement::ExprStmt(_) => !(expected is Void),
        Statement::On { body, else_clause, .. } => match else_clause {
            Some(off) => block_returns(body, expected) && block_returns(off.body, expected),
            None => false,
        },
        _ => false,
    }
}

/// A block's last statement returns on every path.
pub open spec fn block_returns(b: Block, expected: TypeModel) -> bool
    decreases b,
{
    b.statements@.len() > 0 && stmt_returns(b.statements@.last(), expected)
}

/// Whether the last statement of `block` returns a value of type `expected` on every path.
pub fn block_guarantees_return(block: &Block, expected: &KiroType) -> (r: bool)
    ensures
        r == block_returns(*block, expected@),
    decreases block,
{
    let n = block.statements.len();
    if n == 0 {
        return false;
    }
    proof {
        assert(decreases_to!(block.statements => block.statements@[n - 1]));
    }
    statement_guarantees_return(&block.statements[n - 1], expected)
}

/// Whether `stmt` returns a value of type `expected` on every path.
pub fn statement_guarantees_return(stmt: &Statement, expected: &KiroType) -> (r: bool)
    ensures
        r == stmt_returns(*stmt, expected@),
    decreases stmt,
{
    match stmt {
        Statement::Return(_, _) => true,
        Statement::ExprStmt(_) => match expected {
            KiroType::Void => false,
            _ => true,
        },
        Statement::On { body, else_clause, .. } => match else_clause {
            Some(off) => block_guarantees_return(body, expected) && block_guarantees_return(&off.body, expected),
            None => false,
        },
        _ => false,
    }
}

/// The struct declarations of a list of statements, bare or documented, in order.
pub open spec fn declared_structs(stmts: Seq<Statement>) -> Seq<StructDef>
    decreases stmts.len(),
{
    if stmts.len() == 0 {
        Seq::empty()
    } else {
        declared_structs(stmts.drop_last()) + match stmts.last() {
            Statement::StructDef(def) => seq![def],
            Statement::Documented { item, .. } => match item {
                AnnotatableItem::StructDef(def) => seq![def],
                _ => Seq::empty(),
            },
            _ => Seq::empty(),
        }
    }
}

/// The entries of a list of struct declarations.
pub open spec fn struct_entries(ds: Seq<StructDef>) -> Seq<(Seq<char>, Seq<(Seq<char>, TypeModel)>)> {
    Seq::new(ds.len(), |i: int| struct_entry(ds[i]))
}

impl<'a> SemanticCtx<'a> {
    /// Records the structs that a program declares, bare or documented, in order.
    pub fn collect_program_structs(&mut self, program: &Program)
        ensures
            final(self)@ == (CtxModel {
                structs: old(self)@.structs + struct_entries(declared_structs(program.statements@)),
                ..old(self)@
            }),
            final(self).module == old(self).module && final(self).source == old(self).source,
            final(self).compiler == old(self).compiler,
    {
        let mut k: usize = 0;
        proof {
            assert(old(self)@.structs + struct_entries(declared_structs(program.statements@.subrange(0, 0))) =~= old(self)@.structs);
        }
        while k < program.statements.len()
            invariant
                k <= program.statements@.len(),
                self@ == (CtxModel {
                    structs: old(self)@.structs + struct_entries(declared_structs(program.statements@.subrange(0, k as int))),
                    ..old(self)@
                }),
                self.module == old(self).module && self.source == old(self).source,
                self.compiler == old(self).compiler,
            decreases program.statements.len() - k,
        {
            let ghost pre = program.statements@.subrange(0, k as int);
            let ghost next = program.statements@.subrange(0, k + 1);
            proof {
                assert(next.drop_last() =~= pre);
            }
            match &program.statements[k] {
                Statement::StructDef(def) => {
                    self.insert_struct(def);
                    proof {
                        assert(declared_structs(next) =~= declared_structs(pre).push(*def));
                        assert(struct_entries(declared_structs(next)) =~= struct_entries(declared_structs(pre)).push(struct_entry(*def)));
                    }
                },
                Statement::Documented { item, .. } => match item {
                    AnnotatableItem::StructDef(def) => {
                        self.insert_struct(def);
                        proof {
                            assert(declared_structs(next) =~= declared_structs(pre).push(*def));
                            assert(struct_entries(declared_structs(next)) =~= struct_entries(declared_structs(pre)).push(struct_entry(*def)));
                        }
                    },
                    _ => {
                        proof {
                            assert(declared_structs(next) =~= declared_structs(pre));
                        }
                    },
                },
                _ => {
                    proof {
                        assert(declared_structs(next) =~= declared_structs(pre));
                    }
                },
            }
            k = k + 1;
        }
        proof {
            assert(program.statements@.subrange(0, program.statements@.len() as int) =~= program.statements@);
        }
    }

    /// How a call target is named in diagnostics: a function name, `module.function`, or
    /// `<computed function>`.
    pub fn call_name(&self, func: &Expression) -> (r: String)
        ensures
            r@ == call_text(*func),
    {
        call_text_exec(func)
    }
}


// ---------------------------------------------------------------------------
// Statements

/// The context with one more struct declaration.
pub open spec fn with_struct(c: CtxModel, def: StructDef) -> CtxModel {
    CtxModel { structs: c.structs.push(struct_entry(def)), ..c }
}

/// The context with `name` bound in the innermost scope.
pub open spec fn with_binding(c: CtxModel, name: Seq<char>, ty: Option<TypeModel>, is_mutable: bool) -> CtxModel {
    CtxModel { scopes: bind(c.scopes, name, ty, is_mutable), ..c }
}

/// The context with a new innermost scope.
pub open spec fn pushed(c: CtxModel) -> CtxModel {
    CtxModel { scopes: c.scopes.push(Seq::empty()), ..c }
}

/// The context without its innermost scope.
pub open spec fn popped(c: CtxModel) -> CtxModel {
    CtxModel { scopes: if c.scopes.len() > 0 { c.scopes.drop_last() } else { c.scopes }, ..c }
}

/// The parameters bound, each immutable with its declared type.
pub open spec fn bind_params(c: CtxModel, ps: Seq<FuncParam>) -> CtxModel
    decreases ps.len(),
{
    if ps.len() == 0 {
        c
    } else {
        let q = bind_params(c, ps.drop_last());
        with_binding(q, ps.last().name.value.value@, Some(ps.last().command_type@), false)
    }
}

/// `Wrong return type: expected <e>, got <a>.`
pub open spec fn wrong_return_message(expected: TypeModel, actual: TypeModel) -> Seq<char> {
    "Wrong return type: expected "@ + type_text(expected) + ", got "@ + type_text(actual) + "."@
}

/// Checking a statement: the first diagnostic, or none, and the context afterwards (which
/// keeps what was recorded before a diagnostic stopped the check).
#[verifier::rlimit(100)]
pub open spec fn spec_analyze(c: CtxModel, st: Statement) -> (Result<(), SemError>, CtxModel)
    decreases st, 1int,
{
    match st {
        Statement::ErrorDef { .. } => (Ok(()), c),
        Statement::RustFnDecl(_) => (Ok(()), c),
        Statement::HandleDef(_) => (Ok(()), c),
        Statement::Break(_) => (Ok(()), c),
        Statement::Continue(_) => (Ok(()), c),
        Statement::StructDef(def) => (Ok(()), with_struct(c, def)),
        Statement::Import { module_name, .. } => (Ok(()), CtxModel { imports: c.imports.push(module_name.value.value@), ..c }),
        Statement::VarDecl { ident, value, .. } => match spec_infer(c, value) {
            Err(x) => (Err(x), c),
            Ok(t) => (Ok(()), with_binding(c, ident.value.value@, t, true)),
        },
        Statement::AssignStmt { .. } => spec_assign(c, st),
        Statement::Check(kw, condition, _) => match spec_infer(c, condition) {
            Err(x) => (Err(x), c),
            Ok(t) => if t == Some(TypeModel::Bool) {
                (Ok(()), c)
            } else {
                (Err(err_at(ErrorCode::TypeError, "Check condition must be bool."@, kw.span, "check condition"@)), c)
            },
        },
        Statement::Rest(kw) => if c.in_pure {
            (Err(err_at(ErrorCode::PureViolation, "Pure Function Error: 'rest' is forbidden."@, kw.span, "forbidden in pure fn"@)), c)
        } else {
            (Ok(()), c)
        },
        Statement::Give(..) => spec_give(c, st),
        Statement::Close(kw, channel) => match spec_infer(c, channel) {
            Err(x) => (Err(x), c),
            Ok(t) => if t matches Some(TypeModel::Pipe(_)) {
                (Ok(()), c)
            } else {
                (Err(err_help(ErrorCode::BadUse, "'close' expects a pipe."@, kw.span, "bad close"@, "Use `close pipe` where the expression is a pipe."@)), c)
            },
        },
        Statement::Return(..) => spec_return(c, st),
        Statement::On { .. } => spec_on(c, st),
        Statement::LoopOn { condition, body, .. } => match spec_infer(c, condition) {
            Err(x) => (Err(x), c),
            Ok(_) => spec_analyze_block(c, body),
        },
        Statement::LoopIter { .. } => spec_loop(c, st),
        Statement::FunctionDef(def) => spec_analyze_function(c, def),
        Statement::ExprStmt(e) => match spec_infer(c, e) {
            Err(x) => (Err(x), c),
            Ok(_) => (Ok(()), c),
        },
        Statement::Documented { item, .. } => match item {
            AnnotatableItem::RustFnDecl(_) => (Ok(()), c),
            AnnotatableItem::HandleDef(_) => (Ok(()), c),
            AnnotatableItem::StructDef(def) => (Ok(()), with_struct(c, def)),
            AnnotatableItem::FunctionDef(def) => spec_analyze_function(c, def),
        },
    }
}

/// Checking an assignment: a variable declared without `var` cannot change, and a typed
/// variable keeps its type; a new name is bound immutably.
pub open spec fn spec_assign(c: CtxModel, st: Statement) -> (Result<(), SemError>, CtxModel)
{
    match st {
        Statement::AssignStmt { lhs, rhs } => match spec_infer(c, rhs) {
            Err(x) => (Err(x), c),
            Ok(rt) => match lhs {
                Expression::Variable(v) => {
                    let name = v.value.value@;
                    match binding_of(c.scopes, name) {
                        Some(b) => if !b.is_mutable {
                            (Err(err_at(ErrorCode::MutabilityError, "Cannot mutate immutable variable '"@ + name + "'."@, v.span, "immutable variable"@)), c)
                        } else if b.ty is Some && rt is Some && !same_type(b.ty.unwrap(), rt.unwrap()) {
                            (Err(err_at(ErrorCode::TypeError, "Cannot assign "@ + type_text(rt.unwrap()) + " to "@ + type_text(b.ty.unwrap())
                                + " variable '"@ + name + "'."@, v.span, "wrong assignment type"@)), c)
                        } else {
                            (Ok(()), c)
                        },
                        None => (Ok(()), with_binding(c, name, rt, false)),
                    }
                },
                _ => match spec_infer(c, lhs) {
                    Err(x) => (Err(x), c),
                    Ok(_) => (Ok(()), c),
                },
            },
        },
        _ => (Ok(()), c),
    }
}

/// Checking `give`: forbidden in pure functions, and the value must fit the pipe.
pub open spec fn spec_give(c: CtxModel, st: Statement) -> (Result<(), SemError>, CtxModel)
{
    match st {
        Statement::Give(kw, channel, value) => if c.in_pure {
            (Err(err_at(ErrorCode::PureViolation, "Pure Function Error: 'give' is forbidden."@, kw.span, "forbidden in pure fn"@)), c)
        } else {
            match both(spec_infer(c, channel), spec_infer(c, value)) {
                Err(x) => (Err(x), c),
                Ok((ct, vt)) => match ct {
                    Some(TypeModel::Pipe(inner)) => if vt is Some && !same_type(*inner, vt.unwrap()) {
                        (Err(err_help(ErrorCode::TypeError, "'give' value must be "@ + type_text(*inner) + ", got "@ + type_text(vt.unwrap()) + "."@,
                            kw.span, "wrong give value"@, "Send a value whose type matches the pipe element type."@)), c)
                    } else {
                        (Ok(()), c)
                    },
                    Some(_) => (Err(err_help(ErrorCode::BadUse, "'give' expects a pipe."@, kw.span, "bad give"@,
                        "Use `give pipe value` where the first expression is a pipe."@)), c),
                    None => (Ok(()), c),
                },
            }
        },
        _ => (Ok(()), c),
    }
}

/// Checking `return`: a void function returns no value, and a value has the declared type.
pub open spec fn spec_return(c: CtxModel, st: Statement) -> (Result<(), SemError>, CtxModel)
{
    match st {
        Statement::Return(kw, value) => {
            let returned = match value {
                Some(e) => spec_infer(c, e),
                None => Ok(Some(TypeModel::Void)),
            };
            match returned {
                Err(x) => (Err(x), c),
                Ok(t) => if c.return_type == Some(TypeModel::Void) && t != Some(TypeModel::Void) {
                    let f = match c.fn_name { Some(n) => n, None => "<function>"@ };
                    let shown = match t { Some(a) => type_text(a), None => "value"@ };
                    (Err(err_help(ErrorCode::TypeError, "Function '"@ + f + "' returns void but returned a value."@, kw.span,
                        "return value"@, "Add `-> "@ + shown + "` or remove the returned value."@)), c)
                } else if c.return_type is Some && t is Some && !same_type(c.return_type.unwrap(), t.unwrap()) {
                    (Err(err_at(ErrorCode::TypeError, wrong_return_message(c.return_type.unwrap(), t.unwrap()), kw.span, "wrong return type"@)), c)
                } else {
                    (Ok(()), c)
                },
            }
        },
        _ => (Ok(()), c),
    }
}

/// Checking `on`: the condition, the body, the `off` branch and the error clauses.
pub open spec fn spec_on(c: CtxModel, st: Statement) -> (Result<(), SemError>, CtxModel)
    decreases st, 0int,
{
    match st {
        Statement::On { condition, body, else_clause, error_clauses } => match spec_infer(c, condition) {
            Err(x) => (Err(x), c),
            Ok(_) => {
                let (r1, c1) = spec_analyze_block(c, body);
                match r1 {
                    Err(x) => (Err(x), c1),
                    Ok(_) => {
                        let (r2, c2) = match else_clause {
                            Some(off) => spec_analyze_block(c1, off.body),
                            None => (Ok(()), c1),
                        };
                        match r2 {
                            Err(x) => (Err(x), c2),
                            Ok(_) => match error_clauses {
                                Some(list) => spec_analyze_clauses(c2, list),
                                None => (Ok(()), c2),
                            },
                        }
                    },
                }
            },
        },
        _ => (Ok(()), c),
    }
}

/// Checking an iterator loop: the iterable and step, then, in a scope holding the item,
/// the filter, the body and the `off` branch.
pub open spec fn spec_loop(c: CtxModel, st: Statement) -> (Result<(), SemError>, CtxModel)
    decreases st, 0int,
{
    match st {
        Statement::LoopIter { iterator, iterable, step, filter, body, else_clause, .. } => match spec_infer(c, iterable) {
            Err(x) => (Err(x), c),
            Ok(_) => {
                let stepped = match step {
                    Some(st) => spec_infer(c, st.value),
                    None => Ok(None),
                };
                match stepped {
                    Err(x) => (Err(x), c),
                    Ok(_) => {
                        let c1 = with_binding(pushed(c), iterator.value.value@, None, false);
                        let filtered = match filter {
                            Some(fl) => spec_infer(c1, fl.condition),
                            None => Ok(None),
                        };
                        match filtered {
                            Err(x) => (Err(x), c1),
                            Ok(_) => {
                                let (r2, c2) = spec_analyze_stmts(c1, body.statements@);
                                match r2 {
                                    Err(x) => (Err(x), c2),
                                    Ok(_) => {
                                        let (r3, c3) = match else_clause {
                                            Some(off) => spec_analyze_block(c2, off.body),
                                            None => (Ok(()), c2),
                                        };
                                        match r3 {
                                            Err(x) => (Err(x), c3),
                                            Ok(_) => (Ok(()), popped(c3)),
                                        }
                                    },
                                }
                            },
                        }
                    },
                }
            },
        },
        _ => (Ok(()), c),
    }
}

/// Checking statements in order, stopping at the first diagnostic.
pub open spec fn spec_analyze_stmts(c: CtxModel, s: Seq<Statement>) -> (Result<(), SemError>, CtxModel)
    decreases s, 0int,
{
    if s.len() == 0 {
        (Ok(()), c)
    } else {
        let (r, c1) = spec_analyze_stmts(c, s.drop_last());
        match r {
            Err(x) => (Err(x), c1),
            Ok(_) => spec_analyze(c1, s.last()),
        }
    }
}

/// Checking a block in a scope of its own.
pub open spec fn spec_analyze_block(c: CtxModel, b: Block) -> (Result<(), SemError>, CtxModel)
    decreases b, 0int,
{
    let (r, c1) = spec_analyze_stmts(pushed(c), b.statements@);
    match r {
        Err(x) => (Err(x), c1),
        Ok(_) => (Ok(()), popped(c1)),
    }
}

/// Checking the blocks of error clauses, first to last.
pub open spec fn spec_analyze_clauses(c: CtxModel, l: ErrorClauseList) -> (Result<(), SemError>, CtxModel)
    decreases l, 0int,
{
    let (r, c1) = spec_analyze_block(c, l.first.body);
    match r {
        Err(x) => (Err(x), c1),
        Ok(_) => match l.rest {
            Some(rest) => spec_analyze_clauses(c1, *rest),
            None => (Ok(()), c1),
        },
    }
}

/// The context inside a function: its purity, return type and name.
pub open spec fn in_function(c: CtxModel, def: FunctionDef) -> CtxModel {
    CtxModel {
        in_pure: def.pure_kw is Some,
        return_type: Some(declared_return(def)),
        fn_name: Some(def.name.value.value@),
        ..c
    }
}

/// The return type a function declares: `void` where it names none.
pub open spec fn declared_return(def: FunctionDef) -> TypeModel {
    match def.return_type {
        Some(t) => t@,
        None => TypeModel::Void,
    }
}

/// Checking a function: its parameters bound in a scope of their own, its body, a final
/// expression of the declared type, and a return on every path; the enclosing function's
/// purity, return type and name come back afterwards.
pub open spec fn spec_analyze_function(c: CtxModel, def: FunctionDef) -> (Result<(), SemError>, CtxModel)
    decreases def, 0int,
{
    let c1 = bind_params(pushed(in_function(c, def)), def.params@);
    let (r, c2) = spec_analyze_stmts(c1, def.body.statements@);
    match r {
        Err(x) => (Err(x), c2),
        Ok(_) => spec_function_tail(c, def, c2),
    }
}

/// The end of checking function `def`, entered from context `c`, with its body checked into
/// context `c2`: a final expression of the declared type, the enclosing function's context
/// restored, and a return on every path.
pub open spec fn spec_function_tail(c: CtxModel, def: FunctionDef, c2: CtxModel) -> (Result<(), SemError>, CtxModel) {
    let ret = declared_return(def);
    let stmts = def.body.statements@;
    let last_check = if !(ret is Void) && stmts.len() > 0 && stmts.last() is ExprStmt {
        let e = stmts.last()->ExprStmt_0;
        match spec_infer(c2, e) {
            Err(x) => Err(x),
            Ok(t) => if t is Some && !same_type(ret, t.unwrap()) {
                Err(err_at(ErrorCode::TypeError, wrong_return_message(ret, t.unwrap()), span_of(e), "wrong return type"@))
            } else {
                Ok(())
            },
        }
    } else {
        Ok(())
    };
    match last_check {
        Err(x) => (Err(x), c2),
        Ok(_) => {
            let c3 = CtxModel { in_pure: c.in_pure, return_type: c.return_type, fn_name: c.fn_name, ..popped(c2) };
            if !(ret is Void) && !block_returns(def.body, ret) {
                (Err(err_at(ErrorCode::TypeError, "Function '"@ + def.name.value.value@ + "' must return "@ + type_text(ret)
                    + " on every path."@, def.name.span, "missing return"@)), c3)
            } else {
                (Ok(()), c3)
            }
        },
    }
}


proof fn lemma_stmts_prefix(c: CtxModel, s: Seq<Statement>, k: int)
    requires
        0 <= k <= s.len(),
        spec_analyze_stmts(c, s.subrange(0, k)).0 is Err,
    ensures
        spec_analyze_stmts(c, s) == spec_analyze_stmts(c, s.subrange(0, k)),
    decreases s.len() - k,
{
    if k < s.len() {
        assert(s.subrange(0, k + 1).drop_last() =~= s.subrange(0, k));
        lemma_stmts_prefix(c, s, k + 1);
    } else {
        assert(s.subrange(0, k) =~= s);
    }
}

fn wrong_return_exec(expected: &KiroType, actual: &KiroType) -> (r: String)
    ensures
        r@ == wrong_return_message(expected@, actual@),
{
    let e = type_text_of(expected);
    let a = type_text_of(actual);
    let mut r = concat3("Wrong return type: expected ", e.as_str(), ", got ");
    push_str(&mut r, a.as_str());
    push_str(&mut r, ".");
    r
}

fn is_void(t: &KiroType) -> (r: bool)
    ensures
        r == (t@ is Void),
{
    match t {
        KiroType::Void => true,
        _ => false,
    }
}

impl<'a> SemanticCtx<'a> {
    /// Checks one statement: the immutability of variables declared without `var`, the
    /// type of assignments, checks and returns, what pure functions may not do, and the
    /// uses of pipes; declarations are recorded for the statements that follow.
    #[verifier::rlimit(60)]
    pub fn analyze_statement(&mut self, stmt: &Statement) -> (r: Result<(), KiroError>)
        requires
            encode_utf8(old(self).source@).len() < usize::MAX,
        ensures
            outcome(r, old(self).module@, old(self).source@, spec_analyze(old(self)@, *stmt).0),
            final(self)@ == spec_analyze(old(self)@, *stmt).1,
            final(self).module == old(self).module && final(self).source == old(self).source,
            final(self).compiler == old(self).compiler,
        decreases stmt, 1int,
    {
        match stmt {
            Statement::ErrorDef { .. } => Ok(()),
            Statement::RustFnDecl(_) => Ok(()),
            Statement::HandleDef(_) => Ok(()),
            Statement::Break(_) => Ok(()),
            Statement::Continue(_) => Ok(()),
            Statement::StructDef(def) => {
                self.insert_struct(def);
                Ok(())
            },
            Statement::Import { module_name, .. } => {
                self.add_import(module_name.value.value.clone());
                Ok(())
            },
            Statement::VarDecl { ident, value, .. } => {
                let t = match self.infer_expr(value) {
                    Ok(t) => t,
                    Err(x) => return Err(x),
                };
                self.insert_binding(ident.value.value.clone(), t, true);
                Ok(())
            },
            Statement::AssignStmt { .. } => self.analyze_assign(stmt),
            Statement::Check(kw, condition, _) => {
                let t = match self.infer_expr(condition) {
                    Ok(t) => t,
                    Err(x) => return Err(x),
                };
                let is_bool = match &t {
                    Some(KiroType::Bool) => true,
                    _ => false,
                };
                if !is_bool {
                    return Err(self.error(ErrorCode::TypeError, "Check condition must be bool.", kw.span, "check condition", None, None));
                }
                Ok(())
            },
            Statement::Rest(kw) => {
                if self.in_pure {
                    return Err(self.error(ErrorCode::PureViolation, "Pure Function Error: 'rest' is forbidden.", kw.span,
                        "forbidden in pure fn", None, None));
                }
                Ok(())
            },
            Statement::Give(..) => self.analyze_give(stmt),
            Statement::Close(kw, channel) => {
                let t = match self.infer_expr(channel) {
                    Ok(t) => t,
                    Err(x) => return Err(x),
                };
                let is_pipe = match &t {
                    Some(KiroType::Pipe(_)) => true,
                    _ => false,
                };
                if !is_pipe {
                    return Err(self.error(ErrorCode::BadUse, "'close' expects a pipe.", kw.span, "bad close",
                        Some("Use `close pipe` where the expression is a pipe."), None));
                }
                Ok(())
            },
            Statement::Return(..) => self.analyze_return(stmt),
            Statement::On { .. } => self.analyze_on(stmt),
            Statement::LoopOn { condition, body, .. } => {
                match self.infer_expr(condition) {
                    Ok(_) => {},
                    Err(x) => return Err(x),
                }
                self.analyze_block(body)
            },
            Statement::LoopIter { .. } => self.analyze_loop(stmt),
            Statement::FunctionDef(def) => self.analyze_function(def),
            Statement::ExprStmt(e) => {
                match self.infer_expr(e) {
                    Ok(_) => Ok(()),
                    Err(x) => Err(x),
                }
            },
            Statement::Documented { item, .. } => match item {
                AnnotatableItem::RustFnDecl(_) => Ok(()),
                AnnotatableItem::HandleDef(_) => Ok(()),
                AnnotatableItem::StructDef(def) => {
                    self.insert_struct(def);
                    Ok(())
                },
                AnnotatableItem::FunctionDef(def) => self.analyze_function(def),
            },
        }
    }

    fn analyze_assign(&mut self, stmt: &Statement) -> (r: Result<(), KiroError>)
        requires
            encode_utf8(old(self).source@).len() < usize::MAX,
            stmt is AssignStmt,
        ensures
            outcome(r, old(self).module@, old(self).source@, spec_assign(old(self)@, *stmt).0),
            final(self)@ == spec_assign(old(self)@, *stmt).1,
            final(self).module == old(self).module && final(self).source == old(self).source,
            final(self).compiler == old(self).compiler,
    {
        match stmt {
            Statement::AssignStmt { lhs, rhs } => {
                let rt = match self.infer_expr(rhs) {
                    Ok(t) => t,
                    Err(x) => return Err(x),
                };
                match lhs {
                    Expression::Variable(v) => {
                        let name = v.value.value.as_str();
                        let found: Option<(bool, Option<KiroType>)> = match self.binding(name) {
                            Some(b) => Some((b.is_mutable, copy_opt_type(&b.ty))),
                            None => None,
                        };
                        match found {
                            Some((is_mutable, bty)) => {
                                if !is_mutable {
                                    let msg = concat3("Cannot mutate immutable variable '", name, "'.");
                                    return Err(self.error(ErrorCode::MutabilityError, msg.as_str(), v.span, "immutable variable", None, None));
                                }
                                match (&bty, &rt) {
                                    (Some(expected), Some(actual)) => {
                                        if !same_type_exec(expected, actual) {
                                            let a = type_text_of(actual);
                                            let e = type_text_of(expected);
                                            let mut msg = concat3("Cannot assign ", a.as_str(), " to ");
                                            push_str(&mut msg, e.as_str());
                                            push_str(&mut msg, " variable '");
                                            push_str(&mut msg, name);
                                            push_str(&mut msg, "'.");
                                            return Err(self.error(ErrorCode::TypeError, msg.as_str(), v.span, "wrong assignment type", None, None));
                                        }
                                    },
                                    _ => {},
                                }
                                Ok(())
                            },
                            None => {
                                self.insert_binding(String::from_str(name), rt, false);
                                Ok(())
                            },
                        }
                    },
                    _ => {
                        match self.infer_expr(lhs) {
                            Ok(_) => Ok(()),
                            Err(x) => Err(x),
                        }
                    },
                }
            },
            _ => {
                proof {
                    assert(false);
                }
                Ok(())
            },
        }
    }

    fn analyze_give(&mut self, stmt: &Statement) -> (r: Result<(), KiroError>)
        requires
            encode_utf8(old(self).source@).len() < usize::MAX,
            stmt is Give,
        ensures
            outcome(r, old(self).module@, old(self).source@, spec_give(old(self)@, *stmt).0),
            final(self)@ == spec_give(old(self)@, *stmt).1,
            final(self).module == old(self).module && final(self).source == old(self).source,
            final(self).compiler == old(self).compiler,
    {
        match stmt {
            Statement::Give(kw, channel, value) => {
                if self.in_pure {
                    return Err(self.error(ErrorCode::PureViolation, "Pure Function Error: 'give' is forbidden.", kw.span,
                        "forbidden in pure fn", None, None));
                }
                let ct = match self.infer_expr(channel) {
                    Ok(t) => t,
                    Err(x) => return Err(x),
                };
                let vt = match self.infer_expr(value) {
                    Ok(t) => t,
                    Err(x) => return Err(x),
                };
                match ct {
                    Some(KiroType::Pipe(inner)) => {
                        match &vt {
                            Some(actual) => {
                                if !same_type_exec(&inner, actual) {
                                    let want = type_text_of(&inner);
                                    let got = type_text_of(actual);
                                    let mut msg = concat3("'give' value must be ", want.as_str(), ", got ");
                                    push_str(&mut msg, got.as_str());
                                    push_str(&mut msg, ".");
                                    return Err(self.error(ErrorCode::TypeError, msg.as_str(), kw.span, "wrong give value",
                                        Some("Send a value whose type matches the pipe element type."), None));
                                }
                            },
                            None => {},
                        }
                        Ok(())
                    },
                    Some(_) => Err(self.error(ErrorCode::BadUse, "'give' expects a pipe.", kw.span, "bad give",
                        Some("Use `give pipe value` where the first expression is a pipe."), None)),
                    None => Ok(()),
                }
            },
            _ => {
                proof {
                    assert(false);
                }
                Ok(())
            },
        }
    }

    fn analyze_return(&mut self, stmt: &Statement) -> (r: Result<(), KiroError>)
        requires
            encode_utf8(old(self).source@).len() < usize::MAX,
            stmt is Return,
        ensures
            outcome(r, old(self).module@, old(self).source@, spec_return(old(self)@, *stmt).0),
            final(self)@ == spec_return(old(self)@, *stmt).1,
            final(self).module == old(self).module && final(self).source == old(self).source,
            final(self).compiler == old(self).compiler,
    {
        match stmt {
            Statement::Return(kw, value) => {
                let t: Option<KiroType> = match value {
                    Some(e) => match self.infer_expr(e) {
                        Ok(t) => t,
                        Err(x) => return Err(x),
                    },
                    None => Some(KiroType::Void),
                };
                let ret_void = match &self.return_type {
                    Some(rt) => is_void(rt),
                    None => false,
                };
                let t_void = match &t {
                    Some(a) => is_void(a),
                    None => false,
                };
                proof {
                    assert(ret_void == (self@.return_type == Some(TypeModel::Void)));
                    assert(t_void == (opt_type_model(t) == Some(TypeModel::Void)));
                }
                if ret_void && !t_void {
                    let f: &str = match &self.fn_name {
                        Some(n) => n.as_str(),
                        None => "<function>",
                    };
                    let shown = match &t {
                        Some(a) => type_text_of(a),
                        None => String::from_str("value"),
                    };
                    let msg = concat3("Function '", f, "' returns void but returned a value.");
                    let help = concat3("Add `-> ", shown.as_str(), "` or remove the returned value.");
                    return Err(self.error(ErrorCode::TypeError, msg.as_str(), kw.span, "return value", Some(help.as_str()), None));
                }
                match (&self.return_type, &t) {
                    (Some(expected), Some(actual)) => {
                        if !same_type_exec(expected, actual) {
                            let msg = wrong_return_exec(expected, actual);
                            return Err(self.error(ErrorCode::TypeError, msg.as_str(), kw.span, "wrong return type", None, None));
                        }
                    },
                    _ => {},
                }
                Ok(())
            },
            _ => {
                proof {
                    assert(false);
                }
                Ok(())
            },
        }
    }

    #[verifier::rlimit(100)]
    #[verifier::spinoff_prover]
    fn analyze_on(&mut self, stmt: &Statement) -> (r: Result<(), KiroError>)
        requires
            encode_utf8(old(self).source@).len() < usize::MAX,
            stmt is On,
        ensures
            outcome(r, old(self).module@, old(self).source@, spec_on(old(self)@, *stmt).0),
            final(self)@ == spec_on(old(self)@, *stmt).1,
            final(self).module == old(self).module && final(self).source == old(self).source,
            final(self).compiler == old(self).compiler,
        decreases stmt, 0int,
    {
        match stmt {
            Statement::On { condition, body, else_clause, error_clauses } => {
                match self.infer_expr(condition) {
                    Ok(_) => {},
                    Err(x) => return Err(x),
                }
                match self.analyze_block(body) {
                    Ok(_) => {},
                    Err(x) => return Err(x),
                }
                match else_clause {
                    Some(off) => match self.analyze_block(&off.body) {
                        Ok(_) => {},
                        Err(x) => return Err(x),
                    },
                    None => {},
                }
                match error_clauses {
                    Some(list) => self.analyze_clauses(list),
                    None => Ok(()),
                }
            },
            _ => {
                proof {
                    assert(false);
                }
                Ok(())
            },
        }
    }

    #[verifier::rlimit(100)]
    #[verifier::spinoff_prover]
    fn analyze_loop(&mut self, stmt: &Statement) -> (r: Result<(), KiroError>)
        requires
            encode_utf8(old(self).source@).len() < usize::MAX,
            stmt is LoopIter,
        ensures
            outcome(r, old(self).module@, old(self).source@, spec_loop(old(self)@, *stmt).0),
            final(self)@ == spec_loop(old(self)@, *stmt).1,
            final(self).module == old(self).module && final(self).source == old(self).source,
            final(self).compiler == old(self).compiler,
        decreases stmt, 0int,
    {
        match stmt {
            Statement::LoopIter { iterator, iterable, step, filter, body, else_clause, .. } => {
                match self.infer_expr(iterable) {
                    Ok(_) => {},
                    Err(x) => return Err(x),
                }
                match step {
                    Some(st) => match self.infer_expr(&st.value) {
                        Ok(_) => {},
                        Err(x) => return Err(x),
                    },
                    None => {},
                }
                self.push_scope();
                self.insert_binding(iterator.value.value.clone(), None, false);
                match filter {
                    Some(fl) => match self.infer_expr(&fl.condition) {
                        Ok(_) => {},
                        Err(x) => return Err(x),
                    },
                    None => {},
                }
                match self.analyze_statements(&body.statements) {
                    Ok(_) => {},
                    Err(x) => return Err(x),
                }
                match else_clause {
                    Some(off) => match self.analyze_block(&off.body) {
                        Ok(_) => {},
                        Err(x) => return Err(x),
                    },
                    None => {},
                }
                self.pop_scope();
                Ok(())
            },
            _ => {
                proof {
                    assert(false);
                }
                Ok(())
            },
        }
    }

    /// Checks statements in order, stopping at the first diagnostic.
    pub fn analyze_statements(&mut self, stmts: &Vec<Statement>) -> (r: Result<(), KiroError>)
        requires
            encode_utf8(old(self).source@).len() < usize::MAX,
        ensures
            outcome(r, old(self).module@, old(self).source@, spec_analyze_stmts(old(self)@, stmts@).0),
            final(self)@ == spec_analyze_stmts(old(self)@, stmts@).1,
            final(self).module == old(self).module && final(self).source == old(self).source,
            final(self).compiler == old(self).compiler,
        decreases stmts, 0int,
    {
        let ghost c0 = self@;
        let mut i: usize = 0;
        while i < stmts.len()
            invariant
                i <= stmts@.len(),
                encode_utf8(self.source@).len() < usize::MAX,
                self.module == old(self).module && self.source == old(self).source,
                self.compiler == old(self).compiler,
                c0 == old(self)@,
                spec_analyze_stmts(c0, stmts@.subrange(0, i as int)) == (Ok::<(), SemError>(()), self@),
            decreases stmts.len() - i,
        {
            proof {
                assert(stmts@.subrange(0, i + 1).drop_last() =~= stmts@.subrange(0, i as int));
                assert(decreases_to!(stmts => stmts@[i as int]));
            }
            match self.analyze_statement(&stmts[i]) {
                Ok(_) => {},
                Err(x) => {
                    proof {
                        lemma_stmts_prefix(c0, stmts@, i + 1);
                    }
                    return Err(x);
                },
            }
            i = i + 1;
        }
        proof {
            assert(stmts@.subrange(0, stmts@.len() as int) =~= stmts@);
        }
        Ok(())
    }

    /// Checks a block in a scope of its own.
    pub fn analyze_block(&mut self, block: &Block) -> (r: Result<(), KiroError>)
        requires
            encode_utf8(old(self).source@).len() < usize::MAX,
        ensures
            outcome(r, old(self).module@, old(self).source@, spec_analyze_block(old(self)@, *block).0),
            final(self)@ == spec_analyze_block(old(self)@, *block).1,
            final(self).module == old(self).module && final(self).source == old(self).source,
            final(self).compiler == old(self).compiler,
        decreases block, 0int,
    {
        self.push_scope();
        match self.analyze_statements(&block.statements) {
            Ok(_) => {},
            Err(x) => return Err(x),
        }
        self.pop_scope();
        Ok(())
    }

    fn analyze_clauses(&mut self, list: &ErrorClauseList) -> (r: Result<(), KiroError>)
        requires
            encode_utf8(old(self).source@).len() < usize::MAX,
        ensures
            outcome(r, old(self).module@, old(self).source@, spec_analyze_clauses(old(self)@, *list).0),
            final(self)@ == spec_analyze_clauses(old(self)@, *list).1,
            final(self).module == old(self).module && final(self).source == old(self).source,
            final(self).compiler == old(self).compiler,
        decreases list, 0int,
    {
        match self.analyze_block(&list.first.body) {
            Ok(_) => {},
            Err(x) => return Err(x),
        }
        match &list.rest {
            Some(rest) => self.analyze_clauses(rest),
            None => Ok(()),
        }
    }

    /// Checks a function definition: its parameters are bound immutably in a scope of their
    /// own, its body is checked as the body of a pure or effectful function, its final
    /// expression must have the declared type, and every path must return a value where it
    /// declares one.
    #[verifier::rlimit(60)]
    pub fn analyze_function(&mut self, def: &FunctionDef) -> (r: Result<(), KiroError>)
        requires
            encode_utf8(old(self).source@).len() < usize::MAX,
        ensures
            outcome(r, old(self).module@, old(self).source@, spec_analyze_function(old(self)@, *def).0),
            final(self)@ == spec_analyze_function(old(self)@, *def).1,
            final(self).module == old(self).module && final(self).source == old(self).source,
            final(self).compiler == old(self).compiler,
        decreases def, 0int,
    {
        let ghost c0 = self@;
        let old_pure = self.in_pure;
        let old_return = copy_opt_type(&self.return_type);
        let old_name: Option<String> = match &self.fn_name {
            Some(n) => Some(n.clone()),
            None => None,
        };
        let declared: KiroType = match &def.return_type {
            Some(t) => copy_type(t),
            None => KiroType::Void,
        };
        self.in_pure = def.pure_kw.is_some();
        self.return_type = Some(copy_type(&declared));
        self.fn_name = Some(def.name.value.value.clone());
        proof {
            assert(self@ == in_function(c0, *def));
        }
        self.push_scope();
        self.bind_parameters(&def.params);
        match self.analyze_statements(&def.body.statements) {
            Ok(_) => {},
            Err(x) => return Err(x),
        }
        self.finish_function(def, declared, old_pure, old_return, old_name, Ghost(c0))
    }

    fn bind_parameters(&mut self, params: &Vec<FuncParam>)
        ensures
            final(self)@ == bind_params(old(self)@, params@),
            final(self).module == old(self).module && final(self).source == old(self).source,
            final(self).compiler == old(self).compiler,
    {
        let ghost c1 = self@;
        let mut i: usize = 0;
        proof {
            assert(params@.subrange(0, 0) =~= Seq::<FuncParam>::empty());
        }
        while i < params.len()
            invariant
                i <= params@.len(),
                c1 == old(self)@,
                self@ == bind_params(c1, params@.subrange(0, i as int)),
                self.module == old(self).module && self.source == old(self).source,
                self.compiler == old(self).compiler,
            decreases params.len() - i,
        {
            proof {
                assert(params@.subrange(0, i + 1).drop_last() =~= params@.subrange(0, i as int));
            }
            self.insert_binding(params[i].name.value.value.clone(), Some(copy_type(&params[i].command_type)), false);
            i = i + 1;
        }
        proof {
            assert(params@.subrange(0, params@.len() as int) =~= params@);
        }
    }

    fn finish_function(
        &mut self,
        def: &FunctionDef,
        declared: KiroType,
        old_pure: bool,
        old_return: Option<KiroType>,
        old_name: Option<String>,
        Ghost(c0): Ghost<CtxModel>,
    ) -> (r: Result<(), KiroError>)
        requires
            encode_utf8(old(self).source@).len() < usize::MAX,
            declared@ == declared_return(*def),
            old_pure == c0.in_pure,
            opt_type_model(old_return) == c0.return_type,
            text_of(old_name) == c0.fn_name,
        ensures
            outcome(r, old(self).module@, old(self).source@, spec_function_tail(c0, *def, old(self)@).0),
            final(self)@ == spec_function_tail(c0, *def, old(self)@).1,
            final(self).module == old(self).module && final(self).source == old(self).source,
            final(self).compiler == old(self).compiler,
    {
        let void_return = is_void(&declared);
        let n = def.body.statements.len();
        if !void_return && n > 0 {
            match &def.body.statements[n - 1] {
                Statement::ExprStmt(e) => {
                    let t = match self.infer_expr(e) {
                        Ok(t) => t,
                        Err(x) => return Err(x),
                    };
                    match &t {
                        Some(actual) => {
                            if !same_type_exec(&declared, actual) {
                                proof {
                                    lemma_expr_span_some(*e);
                                }
                                let span = expr_span(e).unwrap();
                                let msg = wrong_return_exec(&declared, actual);
                                return Err(self.error(ErrorCode::TypeError, msg.as_str(), span, "wrong return type", None, None));
                            }
                        },
                        None => {},
                    }
                },
                _ => {},
            }
        }
        self.pop_scope();
        self.in_pure = old_pure;
        self.return_type = old_return;
        self.fn_name = old_name;
        if !void_return && !block_guarantees_return(&def.body, &declared) {
            let tn = type_text_of(&declared);
            let mut msg = concat3("Function '", def.name.value.value.as_str(), "' must return ");
            push_str(&mut msg, tn.as_str());
            push_str(&mut msg, " on every path.");
            return Err(self.error(ErrorCode::TypeError, msg.as_str(), def.name.span, "missing return", None, None));
        }
        Ok(())
    }
}

/// The checker's context at the start of a program: the compiler's tables, the program's
/// structs, no imports, one empty scope, outside any function.
pub open spec fn program_ctx(c: Compiler, stmts: Seq<Statement>) -> CtxModel {
    CtxModel {
        functions: c.functions@,
        module_functions: c.module_functions@,
        structs: struct_entries(declared_structs(stmts)),
        imports: Seq::empty(),
        scopes: seq![Seq::empty()],
        in_pure: false,
        fn_name: None,
        return_type: None,
    }
}

impl Compiler {
    /// Checks a module's program: its functions are recorded first (a later declaration of a
    /// name replacing an earlier one), effectful recursion is refused, and then each
    /// top-level statement is checked in order with the program's structs known.
    pub fn validate_semantics(&mut self, program: &Program, module: &str, source: &str) -> (r: Result<(), KiroError>)
        requires
            encode_utf8(source@).len() < usize::MAX,
        ensures
            function_table(final(self).functions@) == collected_functions(program.statements@),
            final(self).module_functions == old(self).module_functions,
            final(self).known_modules == old(self).known_modules,
            final(self).current_module == old(self).current_module,
            (exists|k: int| effectful_recursive(final(self).functions@, program.statements@, k)) ==> {
                &&& r is Err
                &&& exists|k: int| effectful_recursive(final(self).functions@, program.statements@, k)
                    && recursion_error(r->Err_0, module@, Some(source), body_defs(program.statements@)[k])
            },
            !(exists|k: int| effectful_recursive(final(self).functions@, program.statements@, k)) ==> outcome(
                r,
                module@,
                source@,
                spec_analyze_stmts(program_ctx(*final(self), program.statements@), program.statements@).0,
            ),
    {
        self.functions = Compiler::collect_program_functions(program);
        match self.validate_effectful_recursion(program, module, Some(source)) {
            Ok(()) => {},
            Err(e) => return Err(e),
        }
        let mut ctx = SemanticCtx::new(module, source, self);
        ctx.collect_program_structs(program);
        proof {
            assert(ctx@ == program_ctx(*self, program.statements@)) by {
                assert(Seq::<(Seq<char>, Seq<(Seq<char>, TypeModel)>)>::empty() + struct_entries(declared_structs(program.statements@))
                    =~= struct_entries(declared_structs(program.statements@)));
            }
        }
        ctx.analyze_statements(&program.statements)
    }
}


// ---------------------------------------------------------------------------
// Calls of the list and map modules

/// How many arguments a function of the list and map modules takes; none for any other.
pub open spec fn collection_arity(m: Seq<char>, f: Seq<char>) -> Option<nat> {
    if m == "std_lists"@ {
        if f == "join"@ { Some(2) } else if f == "slice"@ { Some(3) } else if f == "reverse"@ { Some(1) } else { None }
    } else if m == "std_maps"@ {
        if f == "has"@ || f == "delete"@ { Some(2) } else if f == "set"@ { Some(3) } else { None }
    } else {
        None
    }
}

/// The types inferred for a list of expressions, or the first diagnostic.
pub open spec fn spec_infer_types(c: CtxModel, s: Seq<Expression>) -> Result<Seq<Option<TypeModel>>, SemError>
    decreases s.len(),
{
    if s.len() == 0 {
        Ok(Seq::empty())
    } else {
        match spec_infer_types(c, s.drop_last()) {
            Err(x) => Err(x),
            Ok(ts) => match spec_infer(c, s.last()) {
                Err(x) => Err(x),
                Ok(t) => Ok(ts.push(t)),
            },
        }
    }
}

/// The type of argument `i`, which must be known.
pub open spec fn needed(ts: Seq<Option<TypeModel>>, i: int, call: Seq<char>, args: Seq<Expression>) -> Result<TypeModel, SemError> {
    match ts[i] {
        Some(t) => Ok(t),
        None => Err(err_at(ErrorCode::TypeError, "Cannot infer argument "@ + decimal((i + 1) as nat) + " for '"@ + call + "'."@,
            span_of(args[i]), "unknown argument type"@)),
    }
}

/// The checks of a list or map function on the argument types `ts`.
pub open spec fn collection_checks(m: Seq<char>, f: Seq<char>, func: Expression, args: Seq<Expression>, ts: Seq<Option<TypeModel>>) -> Result<Option<TypeModel>, SemError> {
    let call = m + "."@ + f;
    if m == "std_lists"@ && f == "join"@ {
        match needed(ts, 0, call, args) {
            Err(x) => Err(x),
            Ok(l) => match needed(ts, 1, call, args) {
                Err(x) => Err(x),
                Ok(r) => if !(l is List) {
                    Err(err_at(ErrorCode::TypeError, "lists.join expects lists, got "@ + type_text(l) + "."@, span_of(args[0]), "wrong collection type"@))
                } else if !same_type(l, r) {
                    Err(err_at(ErrorCode::TypeError, "lists.join arguments must have the same list type."@, span_of(func), "different list types"@))
                } else {
                    Ok(Some(l))
                },
            },
        }
    } else if m == "std_lists"@ && f == "slice"@ {
        match needed(ts, 0, call, args) {
            Err(x) => Err(x),
            Ok(l) => if !(l is List) {
                Err(err_at(ErrorCode::TypeError, "lists.slice expects a list, got "@ + type_text(l) + "."@, span_of(args[0]), "wrong collection type"@))
            } else {
                match needed(ts, 1, call, args) {
                    Err(x) => Err(x),
                    Ok(a) => if !same_type(TypeModel::Num, a) {
                        Err(err_at(ErrorCode::TypeError, "lists.slice index must be num, got "@ + type_text(a) + "."@, span_of(args[1]), "wrong index type"@))
                    } else {
                        match needed(ts, 2, call, args) {
                            Err(x) => Err(x),
                            Ok(b) => if !same_type(TypeModel::Num, b) {
                                Err(err_at(ErrorCode::TypeError, "lists.slice index must be num, got "@ + type_text(b) + "."@, span_of(args[2]), "wrong index type"@))
                            } else {
                                Ok(Some(l))
                            },
                        }
                    },
                }
            },
        }
    } else if m == "std_lists"@ {
        match needed(ts, 0, call, args) {
            Err(x) => Err(x),
            Ok(l) => if !(l is List) {
                Err(err_at(ErrorCode::TypeError, "lists.reverse expects a list, got "@ + type_text(l) + "."@, span_of(args[0]), "wrong collection type"@))
            } else {
                Ok(Some(l))
            },
        }
    } else {
        match needed(ts, 0, call, args) {
            Err(x) => Err(x),
            Ok(mt) => match mt {
                TypeModel::MapOf(k, v) => match needed(ts, 1, call, args) {
                    Err(x) => Err(x),
                    Ok(a) => if !same_type(*k, a) {
                        Err(err_at(ErrorCode::TypeError, "maps."@ + f + " key must be "@ + type_text(*k) + ", got "@ + type_text(a) + "."@,
                            span_of(args[1]), "wrong key type"@))
                    } else {
                        let value_check = if f == "set"@ {
                            match needed(ts, 2, call, args) {
                                Err(x) => Err(x),
                                Ok(b) => if !same_type(*v, b) {
                                    Err(err_at(ErrorCode::TypeError, "maps.set value must be "@ + type_text(*v) + ", got "@ + type_text(b) + "."@,
                                        span_of(args[2]), "wrong value type"@))
                                } else {
                                    Ok(())
                                },
                            }
                        } else {
                            Ok(())
                        };
                        match value_check {
                            Err(x) => Err(x),
                            Ok(_) => if f == "has"@ { Ok(Some(TypeModel::Bool)) } else { Ok(Some(mt)) },
                        }
                    },
                },
                _ => Err(err_at(ErrorCode::TypeError, "maps."@ + f + " expects a map, got "@ + type_text(mt) + "."@, span_of(args[0]),
                    "wrong collection type"@)),
            },
        }
    }
}

/// What the checker infers for a call of function `f` of module `m`: nothing for a function
/// other than the list and map functions; else the argument count, the argument types (each
/// must be known) and the collection types they need.
pub open spec fn spec_collection_call(c: CtxModel, m: Seq<char>, f: Seq<char>, func: Expression, args: Seq<Expression>) -> Result<Option<TypeModel>, SemError> {
    match collection_arity(m, f) {
        None => Ok(None),
        Some(n) => if args.len() != n {
            Err(err_at(ErrorCode::WrongArgumentCount, count_message(m + "."@ + f, n, args.len()), span_of(func), "wrong argument count"@))
        } else {
            match spec_infer_types(c, args) {
                Err(x) => Err(x),
                Ok(ts) => collection_checks(m, f, func, args, ts),
            }
        },
    }
}

/// The models of a list of optional types.
pub open spec fn opt_models(v: Seq<Option<KiroType>>) -> Seq<Option<TypeModel>> {
    Seq::new(v.len(), |i: int| opt_type_model(v[i]))
}

proof fn lemma_types_prefix(c: CtxModel, s: Seq<Expression>, k: int)
    requires
        0 <= k <= s.len(),
        spec_infer_types(c, s.subrange(0, k)) is Err,
    ensures
        spec_infer_types(c, s) == spec_infer_types(c, s.subrange(0, k)),
    decreases s.len() - k,
{
    if k < s.len() {
        assert(s.subrange(0, k + 1).drop_last() =~= s.subrange(0, k));
        lemma_types_prefix(c, s, k + 1);
    } else {
        assert(s.subrange(0, k) =~= s);
    }
}

impl<'a> SemanticCtx<'a> {
    fn infer_types(&self, args: &Vec<Expression>) -> (r: Result<Vec<Option<KiroType>>, KiroError>)
        requires
            encode_utf8(self.source@).len() < usize::MAX,
        ensures
            match r {
                Ok(v) => v@.len() == args@.len() && spec_infer_types(self@, args@) == Ok::<Seq<Option<TypeModel>>, SemError>(opt_models(v@)),
                Err(err) => spec_infer_types(self@, args@) matches Err(x) && reports(err, self.module@, self.source@, x),
            },
    {
        let mut v: Vec<Option<KiroType>> = Vec::new();
        let mut i: usize = 0;
        proof {
            assert(opt_models(v@) =~= Seq::<Option<TypeModel>>::empty());
        }
        while i < args.len()
            invariant
                i <= args@.len(),
                v@.len() == i,
                encode_utf8(self.source@).len() < usize::MAX,
                spec_infer_types(self@, args@.subrange(0, i as int)) == Ok::<Seq<Option<TypeModel>>, SemError>(opt_models(v@)),
            decreases args.len() - i,
        {
            proof {
                assert(args@.subrange(0, i + 1).drop_last() =~= args@.subrange(0, i as int));
            }
            match self.infer_expr(&args[i]) {
                Ok(t) => {
                    let ghost before = v@;
                    v.push(t);
                    proof {
                        assert(opt_models(v@) =~= opt_models(before).push(opt_type_model(v@.last())));
                    }
                },
                Err(x) => {
                    proof {
                        lemma_types_prefix(self@, args@, i + 1);
                    }
                    return Err(x);
                },
            }
            i = i + 1;
        }
        proof {
            assert(args@.subrange(0, args@.len() as int) =~= args@);
        }
        Ok(v)
    }

    fn need(&self, ts: &Vec<Option<KiroType>>, i: usize, call: &str, args: &Vec<Expression>) -> (r: Result<KiroType, KiroError>)
        requires
            encode_utf8(self.source@).len() < usize::MAX,
            i < ts@.len(),
            i < args@.len(),
            i < usize::MAX - 1,
        ensures
            match r {
                Ok(t) => needed(opt_models(ts@), i as int, call@, args@) == Ok::<TypeModel, SemError>(t@),
                Err(err) => needed(opt_models(ts@), i as int, call@, args@) matches Err(x) && reports(err, self.module@, self.source@, x),
            },
    {
        match &ts[i] {
            Some(t) => Ok(copy_type(t)),
            None => {
                let mut msg = String::from_str("Cannot infer argument ");
                push_decimal(&mut msg, (i + 1) as u64);
                push_str(&mut msg, " for '");
                push_str(&mut msg, call);
                push_str(&mut msg, "'.");
                proof {
                    lemma_expr_span_some(args@[i as int]);
                }
                let span = expr_span(&args[i]).unwrap();
                Err(self.error(ErrorCode::TypeError, msg.as_str(), span, "unknown argument type", None, None))
            },
        }
    }

    fn type_error_at(&self, prefix: &str, t: &KiroType, expr: &Expression, label: &str) -> (r: KiroError)
        requires
            encode_utf8(self.source@).len() < usize::MAX,
        ensures
            reports(r, self.module@, self.source@, err_at(ErrorCode::TypeError, prefix@ + type_text(t@) + "."@, span_of(*expr), label@)),
    {
        let tn = type_text_of(t);
        let msg = concat3(prefix, tn.as_str(), ".");
        proof {
            lemma_expr_span_some(*expr);
        }
        let span = expr_span(expr).unwrap();
        self.error(ErrorCode::TypeError, msg.as_str(), span, label, None, None)
    }

    fn pair_error_at(&self, prefix: &str, want: &KiroType, got: &KiroType, expr: &Expression, label: &str) -> (r: KiroError)
        requires
            encode_utf8(self.source@).len() < usize::MAX,
        ensures
            reports(r, self.module@, self.source@, err_at(ErrorCode::TypeError, prefix@ + type_text(want@) + ", got "@ + type_text(got@) + "."@,
                span_of(*expr), label@)),
    {
        let w = type_text_of(want);
        let g = type_text_of(got);
        let mut msg = concat3(prefix, w.as_str(), ", got ");
        push_str(&mut msg, g.as_str());
        push_str(&mut msg, ".");
        proof {
            lemma_expr_span_some(*expr);
        }
        let span = expr_span(expr).unwrap();
        self.error(ErrorCode::TypeError, msg.as_str(), span, label, None, None)
    }

    /// The type of a call of a function of the list or map module, where its argument types
    /// fit: `lists.join`, `lists.slice`, `lists.reverse`, `maps.has`, `maps.set`,
    /// `maps.delete`; nothing is inferred for any other function.
    pub fn infer_collection_call(&self, module: &str, function: &str, func: &Expression, args: &Vec<Expression>) -> (r: Result<Option<KiroType>, KiroError>)
        requires
            encode_utf8(self.source@).len() < usize::MAX,
        ensures
            type_outcome(r, self.module@, self.source@, spec_collection_call(self@, module@, function@, *func, args@)),
    {
        proof {
            reveal_strlit("std_lists");
            reveal_strlit("std_maps");
            reveal_strlit("join");
            reveal_strlit("slice");
            reveal_strlit("reverse");
            reveal_strlit("has");
            reveal_strlit("delete");
            reveal_strlit("set");
        }
        let lists = str_eq(module, "std_lists");
        let maps = str_eq(module, "std_maps");
        let expected: usize = if lists && str_eq(function, "join") {
            2
        } else if lists && str_eq(function, "slice") {
            3
        } else if lists && str_eq(function, "reverse") {
            1
        } else if maps && (str_eq(function, "has") || str_eq(function, "delete")) {
            2
        } else if maps && str_eq(function, "set") {
            3
        } else {
            return Ok(None);
        };
        proof {
            assert(collection_arity(module@, function@) == Some(expected as nat));
            assert(lists == (module@ == "std_lists"@));
        }
        let call = qualified(module, function);
        if args.len() != expected {
            let msg = count_message_exec(call.as_str(), expected, args.len());
            proof {
                lemma_expr_span_some(*func);
            }
            let span = expr_span(func).unwrap();
            return Err(self.error(ErrorCode::WrongArgumentCount, msg.as_str(), span, "wrong argument count", None, None));
        }
        let ts = match self.infer_types(args) {
            Ok(v) => v,
            Err(x) => return Err(x),
        };
        proof {
            assert(opt_models(ts@).len() == ts@.len());
            assert(opt_models(ts@).len() == args@.len());
        }
        self.collection_checks_exec(lists, module, function, call.as_str(), func, args, &ts)
    }

    #[verifier::rlimit(60)]
    fn collection_checks_exec(&self, lists: bool, module: &str, function: &str, call: &str, func: &Expression, args: &Vec<Expression>,
        ts: &Vec<Option<KiroType>>) -> (r: Result<Option<KiroType>, KiroError>)
        requires
            encode_utf8(self.source@).len() < usize::MAX,
            opt_models(ts@).len() == args@.len(),
            collection_arity(module@, function@) == Some(args@.len()),
            lists == (module@ == "std_lists"@),
            call@ == module@ + "."@ + function@,
        ensures
            type_outcome(r, self.module@, self.source@, collection_checks(module@, function@, *func, args@, opt_models(ts@))),
    {
        proof {
            reveal_strlit("std_lists");
            reveal_strlit("std_maps");
            reveal_strlit("join");
            reveal_strlit("slice");
            reveal_strlit("reverse");
            reveal_strlit("has");
            reveal_strlit("delete");
            reveal_strlit("set");
            assert(opt_models(ts@).len() == ts@.len());
        }
        if lists && str_eq(function, "join") {
            let l = match self.need(ts, 0, call, args) {
                Ok(t) => t,
                Err(x) => return Err(x),
            };
            let r = match self.need(ts, 1, call, args) {
                Ok(t) => t,
                Err(x) => return Err(x),
            };
            let is_list = match &l {
                KiroType::List(_) => true,
                _ => false,
            };
            if !is_list {
                return Err(self.type_error_at("lists.join expects lists, got ", &l, &args[0], "wrong collection type"));
            }
            if !same_type_exec(&l, &r) {
                proof {
                    lemma_expr_span_some(*func);
                }
                let span = expr_span(func).unwrap();
                return Err(self.error(ErrorCode::TypeError, "lists.join arguments must have the same list type.", span, "different list types", None, None));
            }
            Ok(Some(l))
        } else if lists && str_eq(function, "slice") {
            let l = match self.need(ts, 0, call, args) {
                Ok(t) => t,
                Err(x) => return Err(x),
            };
            let is_list = match &l {
                KiroType::List(_) => true,
                _ => false,
            };
            if !is_list {
                return Err(self.type_error_at("lists.slice expects a list, got ", &l, &args[0], "wrong collection type"));
            }
            let a = match self.need(ts, 1, call, args) {
                Ok(t) => t,
                Err(x) => return Err(x),
            };
            if !same_type_exec(&KiroType::Num, &a) {
                return Err(self.type_error_at("lists.slice index must be num, got ", &a, &args[1], "wrong index type"));
            }
            let b = match self.need(ts, 2, call, args) {
                Ok(t) => t,
                Err(x) => return Err(x),
            };
            if !same_type_exec(&KiroType::Num, &b) {
                return Err(self.type_error_at("lists.slice index must be num, got ", &b, &args[2], "wrong index type"));
            }
            Ok(Some(l))
        } else if lists {
            let l = match self.need(ts, 0, call, args) {
                Ok(t) => t,
                Err(x) => return Err(x),
            };
            let is_list = match &l {
                KiroType::List(_) => true,
                _ => false,
            };
            if !is_list {
                return Err(self.type_error_at("lists.reverse expects a list, got ", &l, &args[0], "wrong collection type"));
            }
            Ok(Some(l))
        } else {
            let mt = match self.need(ts, 0, call, args) {
                Ok(t) => t,
                Err(x) => return Err(x),
            };
            match &mt {
                KiroType::MapOf(k, v) => {
                    let a = match self.need(ts, 1, call, args) {
                        Ok(t) => t,
                        Err(x) => return Err(x),
                    };
                    if !same_type_exec(k, &a) {
                        let prefix = concat3("maps.", function, " key must be ");
                        return Err(self.pair_error_at(prefix.as_str(), k, &a, &args[1], "wrong key type"));
                    }
                    if str_eq(function, "set") {
                        proof {
                            assert(module@ == "std_maps"@);
                            assert(function@[0] != "has"@[0]);
                            assert(function@ != "has"@);
                            assert(function@[0] != "delete"@[0]);
                            assert(function@ != "delete"@);
                            assert(args@.len() == 3);
                        }
                        let b = match self.need(ts, 2, call, args) {
                            Ok(t) => t,
                            Err(x) => return Err(x),
                        };
                        if !same_type_exec(v, &b) {
                            return Err(self.pair_error_at("maps.set value must be ", v, &b, &args[2], "wrong value type"));
                        }
                    }
                    if str_eq(function, "has") {
                        Ok(Some(KiroType::Bool))
                    } else {
                        Ok(Some(mt))
                    }
                },
                _ => {
                    let prefix = concat3("maps.", function, " expects a map, got ");
                    Err(self.type_error_at(prefix.as_str(), &mt, &args[0], "wrong collection type"))
                },
            }
        }
    }
}

/// A `check` statement passes exactly when its condition is a `bool`; a condition of any other
/// type, known or not, is refused as a type error at the `check` keyword. Either way the
/// statement leaves the scopes, imports and structures as they were.
pub proof fn lemma_check_needs_a_bool(c: CtxModel, kw: Spanned<()>, condition: Expression, message: Option<CheckMessage>,
    t: Option<TypeModel>)
    requires
        spec_infer(c, condition) == Ok::<Option<TypeModel>, SemError>(t),
    ensures
        spec_analyze(c, Statement::Check(kw, condition, message)).1 == c,
        spec_analyze(c, Statement::Check(kw, condition, message)).0 is Ok <==> t == Some(TypeModel::Bool),
        t != Some(TypeModel::Bool) ==> spec_analyze(c, Statement::Check(kw, condition, message)).0
            == Err::<(), SemError>(err_at(ErrorCode::TypeError, "Check condition must be bool."@, kw.span, "check condition"@)),
{
}

proof fn lemma_bound_name_is_found(scopes: Seq<Seq<(Seq<char>, BindingModel)>>, name: Seq<char>, ty: Option<TypeModel>, is_mutable: bool)
    requires
        scopes.len() > 0,
    ensures
        binding_of(bind(scopes, name, ty, is_mutable), name) == Some(BindingModel { ty, is_mutable }),
{
    let after = bind(scopes, name, ty, is_mutable);
    assert(after.last() == scopes.last().push((name, BindingModel { ty, is_mutable })));
    assert(after.last().last() == (name, BindingModel { ty, is_mutable }));
}

/// A variable that a plain assignment introduces is immutable: `x = 1` binds a fresh `x`,
/// and a later `x = 2` in that scope is refused with a mutability error that names `x`.
pub proof fn lemma_plain_assignment_binds_immutably(c: CtxModel, v: Spanned<VariableVal>, first: Expression, second: Expression,
    t: Option<TypeModel>)
    requires
        c.scopes.len() > 0,
        binding_of(c.scopes, v.value.value@) is None,
        spec_infer(c, first) == Ok::<Option<TypeModel>, SemError>(t),
        spec_infer(with_binding(c, v.value.value@, t, false), second) is Ok,
    ensures
        spec_analyze(c, Statement::AssignStmt { lhs: Expression::Variable(v), rhs: first })
            == (Ok::<(), SemError>(()), with_binding(c, v.value.value@, t, false)),
        spec_analyze(with_binding(c, v.value.value@, t, false), Statement::AssignStmt { lhs: Expression::Variable(v), rhs: second }).0
            == Err::<(), SemError>(err_at(ErrorCode::MutabilityError, "Cannot mutate immutable variable '"@ + v.value.value@ + "'."@, v.span,
                "immutable variable"@)),
{
    lemma_bound_name_is_found(c.scopes, v.value.value@, t, false);
}

/// A variable declared with `var` can be assigned again with a value of its type (or of a
/// type the checker does not know), and the assignment leaves the context as it was.
pub proof fn lemma_var_declared_variables_can_be_assigned(c: CtxModel, kw: Spanned<()>, v: Spanned<VariableVal>, value: Expression,
    second: Expression, t: Option<TypeModel>, t2: Option<TypeModel>)
    requires
        c.scopes.len() > 0,
        spec_infer(c, value) == Ok::<Option<TypeModel>, SemError>(t),
        spec_infer(with_binding(c, v.value.value@, t, true), second) == Ok::<Option<TypeModel>, SemError>(t2),
        t is None || t2 is None || same_type(t.unwrap(), t2.unwrap()),
    ensures
        spec_analyze(c, Statement::VarDecl { _var: kw, ident: v, value })
            == (Ok::<(), SemError>(()), with_binding(c, v.value.value@, t, true)),
        spec_analyze(with_binding(c, v.value.value@, t, true), Statement::AssignStmt { lhs: Expression::Variable(v), rhs: second })
            == (Ok::<(), SemError>(()), with_binding(c, v.value.value@, t, true)),
{
    lemma_bound_name_is_found(c.scopes, v.value.value@, t, true);
}

/// Inside a pure function `rest` and `give` are refused as purity violations at their keyword,
/// whatever they act on.
pub proof fn lemma_pure_functions_cannot_rest_or_give(c: CtxModel, kw: Spanned<()>, channel: Expression, value: Expression)
    requires
        c.in_pure,
    ensures
        spec_analyze(c, Statement::Rest(kw)).0
            == Err::<(), SemError>(err_at(ErrorCode::PureViolation, "Pure Function Error: 'rest' is forbidden."@, kw.span, "forbidden in pure fn"@)),
        spec_analyze(c, Statement::Give(kw, channel, value)).0
            == Err::<(), SemError>(err_at(ErrorCode::PureViolation, "Pure Function Error: 'give' is forbidden."@, kw.span, "forbidden in pure fn"@)),
{
}

/// Outside pure functions, `give` on a pipe is refused as a type error at the `give` keyword
/// exactly when the value's type is known and is not the pipe's element type; `give` on a value
/// of another known type is refused as a misuse. `give` leaves the context as it was.
pub proof fn lemma_give_checks_pipe_and_value(c: CtxModel, kw: Spanned<()>, channel: Expression, value: Expression,
    ct: Option<TypeModel>, vt: Option<TypeModel>)
    requires
        !c.in_pure,
        spec_infer(c, channel) == Ok::<Option<TypeModel>, SemError>(ct),
        spec_infer(c, value) == Ok::<Option<TypeModel>, SemError>(vt),
    ensures
        spec_analyze(c, Statement::Give(kw, channel, value)).1 == c,
        (ct matches Some(TypeModel::Pipe(inner)) && vt matches Some(v) && !same_type(*inner, v))
            ==> spec_analyze(c, Statement::Give(kw, channel, value)).0 is Err
                && spec_analyze(c, Statement::Give(kw, channel, value)).0->Err_0.code == ErrorCode::TypeError,
        (ct matches Some(TypeModel::Pipe(inner)) && (vt is None || same_type(*inner, vt.unwrap())))
            ==> spec_analyze(c, Statement::Give(kw, channel, value)).0 is Ok,
        (ct is Some && !(ct.unwrap() is Pipe)) ==> spec_analyze(c, Statement::Give(kw, channel, value)).0
            == Err::<(), SemError>(err_help(ErrorCode::BadUse, "'give' expects a pipe."@, kw.span, "bad give"@,
                "Use `give pipe value` where the first expression is a pipe."@)),
{
}

/// `close` passes exactly when its operand is a pipe; anything else, of a known type or not,
/// is refused as a misuse at the `close` keyword.
pub proof fn lemma_close_needs_a_pipe(c: CtxModel, kw: Spanned<()>, channel: Expression, t: Option<TypeModel>)
    requires
        spec_infer(c, channel) == Ok::<Option<TypeModel>, SemError>(t),
    ensures
        spec_analyze(c, Statement::Close(kw, channel)).1 == c,
        spec_analyze(c, Statement::Close(kw, channel)).0 is Ok <==> (t is Some && t.unwrap() is Pipe),
        !(t is Some && t.unwrap() is Pipe) ==> spec_analyze(c, Statement::Close(kw, channel)).0
            == Err::<(), SemError>(err_help(ErrorCode::BadUse, "'close' expects a pipe."@, kw.span, "bad close"@,
                "Use `close pipe` where the expression is a pipe."@)),
{
}

} // verus!
