//! The syntax tree of a Kiro program, and the source spans of its nodes.
//!
//! Every node that a diagnostic can point at carries a `(start, end)` byte span
//! of the source text it was read from.
use vstd::prelude::*;

verus! {

/// A `(start, end)` byte range of the source.
pub type AstSpan = (usize, usize);

/// A syntax node together with the byte range it was read from.
#[derive(Debug)]
pub struct Spanned<T> {
    pub value: T,
    pub span: AstSpan,
}

impl<T: Clone> Clone for Spanned<T> {
    fn clone(&self) -> (r: Self)
        ensures
            r.span == self.span,
    {
        Spanned { value: self.value.clone(), span: self.span }
    }
}

/// A whole source file: its top-level statements in order.
#[derive(Debug)]
pub struct Program {
    pub statements: Vec<Statement>,
}

/// A numeric literal, kept as written (`12`, `3.5`).
#[derive(Debug, Clone)]
pub struct NumberVal {
    pub value: String,
}

/// A variable name (`[a-z_][a-zA-Z0-9_]*`).
#[derive(Debug, Clone)]
pub struct VariableVal {
    pub value: String,
}

/// A function name (`[a-z_]+`).
#[derive(Debug, Clone)]
pub struct FunctionNameVal {
    pub value: String,
}

/// A string literal, quotes and escapes included as written.
#[derive(Debug, Clone)]
pub struct StringVal {
    pub value: String,
}

/// The message of a `check`: `, "text"`.
#[derive(Debug, Clone)]
pub struct CheckMessage {
    pub value: StringVal,
}

/// A capitalized type or error name (`User`, `NotFound`).
#[derive(Debug, Clone)]
pub struct StructNameVal {
    pub value: String,
}

/// A field name (`[a-z_]+`).
#[derive(Debug, Clone)]
pub struct FieldNameVal {
    pub value: String,
}

#[derive(Debug, Clone, Copy)]
pub enum BoolVal {
    True,
    False,
}

/// A type as written in the source.
#[derive(Debug)]
pub enum KiroType {
    /// `num`
    Num,
    /// `str`
    Str,
    /// `bool`
    Bool,
    /// `void`
    Void,
    /// `adr <type>`
    Adr(Box<KiroType>),
    /// `pipe <type>`
    Pipe(Box<KiroType>),
    /// `list <type>`
    List(Box<KiroType>),
    /// `map <key> <value>`
    MapOf(Box<KiroType>, Box<KiroType>),
    /// `fn(<type>, ...) -> <type>`
    FnType(Vec<KiroType>, Box<KiroType>),
    /// A named struct, handle or error type.
    Custom(StructNameVal),
}

/// One `key value` entry of a map literal.
#[derive(Debug)]
pub struct MapPair {
    pub key: Expression,
    pub value: Expression,
}

/// A function parameter: `name: type`.
#[derive(Debug, Clone)]
pub struct FuncParam {
    pub name: Spanned<VariableVal>,
    pub command_type: KiroType,
}

/// A field of a struct definition: `name: type`.
#[derive(Debug, Clone)]
pub struct FieldDef {
    pub name: Spanned<FieldNameVal>,
    pub field_type: KiroType,
}

/// A field of a struct literal: `name: value`.
#[derive(Debug)]
pub struct FieldInit {
    pub name: Spanned<FieldNameVal>,
    pub value: Expression,
}

#[derive(Debug)]
pub enum Statement {
    /// `handle File`
    HandleDef(HandleDef),
    /// `struct User { name: str age: num }`
    StructDef(StructDef),
    /// `error NotFound = "description"`
    ErrorDef { _error: Spanned<()>, name: Spanned<StructNameVal>, description: Option<ErrorDesc> },
    /// `var x = expr`
    VarDecl { _var: Spanned<()>, ident: Spanned<VariableVal>, value: Expression },
    /// `x = expr` or `obj.field = expr`
    AssignStmt { lhs: Expression, rhs: Expression },
    /// `on (cond) { ... } off { ... } error E { ... }`
    On {
        condition: Expression,
        body: Block,
        else_clause: Option<OffClause>,
        error_clauses: Option<ErrorClauseList>,
    },
    /// `loop on (cond) { ... }`
    LoopOn { _loop: Spanned<()>, condition: Expression, body: Block },
    /// `loop item in iterable [per n] [on (filter)] { ... } [off { ... }]`
    LoopIter {
        _loop: Spanned<()>,
        iterator: Spanned<VariableVal>,
        iterable: Expression,
        step: Option<StepClause>,
        filter: Option<LoopFilter>,
        body: Block,
        else_clause: Option<OffClause>,
    },
    /// `fn` or `pure fn` with a body.
    FunctionDef(FunctionDef),
    /// `rust fn name(...) -> type[!]`
    RustFnDecl(RustFnDecl),
    /// `give channel value`
    Give(Spanned<()>, Expression, Expression),
    /// `close channel`
    Close(Spanned<()>, Expression),
    /// `return [value]`
    Return(Spanned<()>, Option<Expression>),
    /// `break`
    Break(Spanned<()>),
    /// `continue`
    Continue(Spanned<()>),
    /// `rest`
    Rest(Spanned<()>),
    /// `check condition [, "message"]`
    Check(Spanned<()>, Expression, Option<CheckMessage>),
    /// `import name`
    Import { _import: Spanned<()>, module_name: Spanned<VariableVal> },
    /// An expression evaluated for its effect.
    ExprStmt(Expression),
    /// An item preceded by `///` documentation lines.
    Documented { doc: Vec<DocComment>, item: AnnotatableItem },
}

#[derive(Debug)]
pub enum Expression {
    /// `User { name: "A", age: 1 }`
    StructInit(Spanned<StructNameVal>, Vec<FieldInit>),
    /// `list num { 1, 2 }`
    ListInit(Spanned<()>, KiroType, Vec<Expression>),
    /// `map str num { "a" 1, "b" 2 }`
    MapInit(Spanned<()>, KiroType, KiroType, Vec<MapPair>),
    /// `obj.field`
    FieldAccess(Box<Expression>, Spanned<()>, Spanned<FieldNameVal>),
    /// `collection at key`
    At(Box<Expression>, Spanned<()>, Box<Expression>),
    /// `list push value`
    Push(Box<Expression>, Spanned<()>, Box<Expression>),
    BoolLit(Spanned<BoolVal>),
    Number(Spanned<NumberVal>),
    StringLit(Spanned<StringVal>),
    Variable(Spanned<VariableVal>),
    /// `move x`
    MoveExpr(Spanned<()>, Spanned<VariableVal>),
    /// A reference to a declared error: `NotFound`.
    ErrorRef(Spanned<StructNameVal>),
    /// `adr <type>`
    AdrInit(Spanned<()>, KiroType),
    /// `pipe <type> [capacity]`
    PipeInit(Spanned<()>, KiroType, Option<NumberVal>),
    /// `take channel`
    Take(Spanned<()>, Box<Expression>),
    /// `len value`
    Len(Spanned<()>, Box<Expression>),
    /// `ref value`
    Ref(Spanned<()>, Box<Expression>),
    /// `deref pointer`
    Deref(Spanned<()>, Box<Expression>),
    /// `f(a, b)`
    Call(Box<Expression>, Vec<Expression>),
    /// `run f(a, b)`
    RunCall(Spanned<()>, Box<Expression>),
    Mul(Box<Expression>, Box<Expression>),
    Div(Box<Expression>, Box<Expression>),
    Add(Box<Expression>, Box<Expression>),
    Sub(Box<Expression>, Box<Expression>),
    Eq(Box<Expression>, Box<Expression>),
    Neq(Box<Expression>, Box<Expression>),
    Gt(Box<Expression>, Box<Expression>),
    Lt(Box<Expression>, Box<Expression>),
    Geq(Box<Expression>, Box<Expression>),
    Leq(Box<Expression>, Box<Expression>),
    /// `a..b`
    Range(Box<Expression>, Box<Expression>),
}

/// One `///` documentation line, as written.
#[derive(Debug, Clone)]
pub struct DocComment {
    pub content: String,
}

/// Whitespace and `//` comments between tokens; it carries nothing.
#[derive(Debug, Clone, Copy)]
pub struct Whitespace {}

/// `{ statements }`
#[derive(Debug)]
pub struct Block {
    pub statements: Vec<Statement>,
}

/// `off { ... }`
#[derive(Debug)]
pub struct OffClause {
    pub body: Block,
}

/// `= "description"` of an error declaration.
#[derive(Debug, Clone)]
pub struct ErrorDesc {
    pub value: StringVal,
}

/// `error [Type] { ... }`; without a type it handles every error.
#[derive(Debug)]
pub struct ErrorClause {
    pub error_type: Option<StructNameVal>,
    pub body: Block,
}

/// One or more error clauses, first to last.
#[derive(Debug)]
pub struct ErrorClauseList {
    pub first: ErrorClause,
    pub rest: Option<Box<ErrorClauseList>>,
}

/// `per n`
#[derive(Debug)]
pub struct StepClause {
    pub value: Expression,
}

/// `on (condition)` of an iterator loop.
#[derive(Debug)]
pub struct LoopFilter {
    pub condition: Expression,
}

/// An item that documentation lines can precede.
#[derive(Debug)]
pub enum AnnotatableItem {
    HandleDef(HandleDef),
    StructDef(StructDef),
    FunctionDef(FunctionDef),
    RustFnDecl(RustFnDecl),
}

/// `handle Name`
#[derive(Debug, Clone)]
pub struct HandleDef {
    pub _handle: Spanned<()>,
    pub name: Spanned<StructNameVal>,
}

/// `struct Name { field: type ... }`
#[derive(Debug, Clone)]
pub struct StructDef {
    pub _struct: Spanned<()>,
    pub name: Spanned<StructNameVal>,
    pub fields: Vec<FieldDef>,
}

/// `[pure] fn name(params) [-> type][!] { body }`
#[derive(Debug)]
pub struct FunctionDef {
    pub pure_kw: Option<()>,
    pub name: Spanned<FunctionNameVal>,
    pub params: Vec<FuncParam>,
    pub return_type: Option<KiroType>,
    pub can_error: Option<()>,
    pub body: Block,
}

/// `[pure] rust fn name(params) -> type[!]`, implemented by the host.
#[derive(Debug, Clone)]
pub struct RustFnDecl {
    pub pure_kw: Option<()>,
    pub _rust_kw: Spanned<()>,
    pub _fn: Spanned<()>,
    pub name: Spanned<FunctionNameVal>,
    pub params: Vec<FuncParam>,
    pub return_type: KiroType,
    pub can_error: Option<()>,
}

/// The mathematical value of a type as written: the same shape, with lists as sequences.
pub enum TypeModel {
    Num,
    Str,
    Bool,
    Void,
    Adr(Box<TypeModel>),
    Pipe(Box<TypeModel>),
    List(Box<TypeModel>),
    MapOf(Box<TypeModel>, Box<TypeModel>),
    FnType(Seq<TypeModel>, Box<TypeModel>),
    Custom(Seq<char>),
}

/// The model of a type.
pub open spec fn type_model(t: KiroType) -> TypeModel
    decreases t,
{
    match t {
        KiroType::Num => TypeModel::Num,
        KiroType::Str => TypeModel::Str,
        KiroType::Bool => TypeModel::Bool,
        KiroType::Void => TypeModel::Void,
        KiroType::Adr(inner) => TypeModel::Adr(Box::new(type_model(*inner))),
        KiroType::Pipe(inner) => TypeModel::Pipe(Box::new(type_model(*inner))),
        KiroType::List(inner) => TypeModel::List(Box::new(type_model(*inner))),
        KiroType::MapOf(k, v) => TypeModel::MapOf(Box::new(type_model(*k)), Box::new(type_model(*v))),
        KiroType::FnType(params, ret) => TypeModel::FnType(param_models(params@), Box::new(type_model(*ret))),
        KiroType::Custom(name) => TypeModel::Custom(name.value@),
    }
}

/// The models of a list of types, in order.
pub open spec fn param_models(ps: Seq<KiroType>) -> Seq<TypeModel>
    decreases ps,
{
    Seq::new(ps.len(), |i: int| if 0 <= i < ps.len() { type_model(ps[i]) } else { TypeModel::Void })
}

impl View for KiroType {
    type V = TypeModel;

    open spec fn view(&self) -> TypeModel {
        type_model(*self)
    }
}

impl Clone for KiroType {
    fn clone(&self) -> (r: Self)
        ensures
            r@ == self@,
    {
        copy_type(self)
    }
}

/// A copy of a type.
pub fn copy_type(t: &KiroType) -> (r: KiroType)
    ensures
        r@ == t@,
    decreases t,
{
    match t {
        KiroType::Num => KiroType::Num,
        KiroType::Str => KiroType::Str,
        KiroType::Bool => KiroType::Bool,
        KiroType::Void => KiroType::Void,
        KiroType::Adr(inner) => KiroType::Adr(Box::new(copy_type(inner))),
        KiroType::Pipe(inner) => KiroType::Pipe(Box::new(copy_type(inner))),
        KiroType::List(inner) => KiroType::List(Box::new(copy_type(inner))),
        KiroType::MapOf(k, v) => KiroType::MapOf(Box::new(copy_type(k)), Box::new(copy_type(v))),
        KiroType::FnType(params, ret) => {
            let copied = copy_types(params);
            let r = KiroType::FnType(copied, Box::new(copy_type(ret)));
            proof {
                let a = param_models(copied@);
                let b = param_models(params@);
                assert forall|i: int| 0 <= i < a.len() implies a[i] == b[i] by {
                    assert(copied@[i]@ == params@[i]@);
                }
                assert(a =~= b);
            }
            r
        },
        KiroType::Custom(name) => KiroType::Custom(StructNameVal { value: name.value.clone() }),
    }
}

/// Copies of the types of a list, in order.
pub fn copy_types(ts: &Vec<KiroType>) -> (r: Vec<KiroType>)
    ensures
        r@.len() == ts@.len(),
        forall|j: int| 0 <= j < ts@.len() ==> #[trigger] r@[j]@ == ts@[j]@,
    decreases ts,
{
    let mut out: Vec<KiroType> = Vec::new();
    let mut i: usize = 0;
    while i < ts.len()
        invariant
            i <= ts.len(),
            out@.len() == i,
            forall|j: int| 0 <= j < i ==> #[trigger] out@[j]@ == ts@[j]@,
        decreases ts.len() - i,
    {
        proof {
            assert(decreases_to!(ts => ts@[i as int]));
        }
        out.push(copy_type(&ts[i]));
        i = i + 1;
    }
    out
}

impl VariableVal {
    pub fn name(&self) -> (r: &str)
        ensures
            r@ == self.value@,
    {
        self.value.as_str()
    }
}

impl FunctionNameVal {
    pub fn name(&self) -> (r: &str)
        ensures
            r@ == self.value@,
    {
        self.value.as_str()
    }
}

impl StructNameVal {
    pub fn name(&self) -> (r: &str)
        ensures
            r@ == self.value@,
    {
        self.value.as_str()
    }
}

impl FieldNameVal {
    pub fn name(&self) -> (r: &str)
        ensures
            r@ == self.value@,
    {
        self.value.as_str()
    }
}

pub fn span_start<T>(value: &Spanned<T>) -> (r: usize)
    ensures
        r == value.span.0,
{
    value.span.0
}

pub fn span_end<T>(value: &Spanned<T>) -> (r: usize)
    ensures
        r == value.span.1,
{
    value.span.1
}

pub fn token_span<T>(value: &Spanned<T>) -> (r: AstSpan)
    ensures
        r == value.span,
{
    value.span
}

/// The width of a span for underlining: its length, and at least 1.
pub fn span_len(span: AstSpan) -> (r: usize)
    ensures
        r == (if span.1 > span.0 { (span.1 - span.0) as usize } else { 1 }),
{
    if span.1 > span.0 {
        span.1 - span.0
    } else {
        1
    }
}

pub fn variable_name(value: &Spanned<VariableVal>) -> (r: &str)
    ensures
        r@ == value.value.value@,
{
    value.value.name()
}

pub fn variable_span(value: &Spanned<VariableVal>) -> (r: AstSpan)
    ensures
        r == value.span,
{
    value.span
}

pub fn param_name(value: &FuncParam) -> (r: &str)
    ensures
        r@ == value.name.value.value@,
{
    variable_name(&value.name)
}

pub fn param_name_span(value: &FuncParam) -> (r: AstSpan)
    ensures
        r == value.name.span,
{
    variable_span(&value.name)
}

pub fn function_name(value: &Spanned<FunctionNameVal>) -> (r: &str)
    ensures
        r@ == value.value.value@,
{
    value.value.name()
}

pub fn function_span(value: &Spanned<FunctionNameVal>) -> (r: AstSpan)
    ensures
        r == value.span,
{
    value.span
}

/// From the `rust` keyword to the end of the declared name.
pub fn rust_fn_decl_span(value: &RustFnDecl) -> (r: AstSpan)
    ensures
        r == (value._rust_kw.span.0, value.name.span.1),
{
    (value._rust_kw.span.0, value.name.span.1)
}

pub fn field_name(value: &Spanned<FieldNameVal>) -> (r: &str)
    ensures
        r@ == value.value.value@,
{
    value.value.name()
}

pub fn field_span(value: &Spanned<FieldNameVal>) -> (r: AstSpan)
    ensures
        r == value.span,
{
    value.span
}

pub fn field_def_name(value: &FieldDef) -> (r: &str)
    ensures
        r@ == value.name.value.value@,
{
    field_name(&value.name)
}

pub fn field_def_span(value: &FieldDef) -> (r: AstSpan)
    ensures
        r == value.name.span,
{
    field_span(&value.name)
}

pub fn struct_name(value: &Spanned<StructNameVal>) -> (r: &str)
    ensures
        r@ == value.value.value@,
{
    value.value.name()
}

pub fn struct_span(value: &Spanned<StructNameVal>) -> (r: AstSpan)
    ensures
        r == value.span,
{
    value.span
}

pub fn struct_def_name(value: &StructDef) -> (r: &str)
    ensures
        r@ == value.name.value.value@,
{
    struct_name(&value.name)
}

pub fn struct_def_span(value: &StructDef) -> (r: AstSpan)
    ensures
        r == value.name.span,
{
    struct_span(&value.name)
}

pub fn handle_name(value: &HandleDef) -> (r: &str)
    ensures
        r@ == value.name.value.value@,
{
    struct_name(&value.name)
}

pub fn handle_span(value: &HandleDef) -> (r: AstSpan)
    ensures
        r == value.name.span,
{
    struct_span(&value.name)
}

/// The declared name of an `error` declaration; none for other statements.
pub fn error_name(value: &Statement) -> (r: Option<&str>)
    ensures
        match value {
            Statement::ErrorDef { name, .. } => r is Some && r->0@ == name.value.value@,
            _ => r is None,
        },
{
    match value {
        Statement::ErrorDef { name, .. } => Some(struct_name(name)),
        _ => None,
    }
}

pub fn error_name_span(value: &Statement) -> (r: Option<AstSpan>)
    ensures
        r == (match value {
            Statement::ErrorDef { name, .. } => Some(name.span),
            _ => None,
        }),
{
    match value {
        Statement::ErrorDef { name, .. } => Some(struct_span(name)),
        _ => None,
    }
}

/// The declared name of a `var` statement; none for other statements.
pub fn var_decl_name(value: &Statement) -> (r: Option<&str>)
    ensures
        match value {
            Statement::VarDecl { ident, .. } => r is Some && r->0@ == ident.value.value@,
            _ => r is None,
        },
{
    match value {
        Statement::VarDecl { ident, .. } => Some(variable_name(ident)),
        _ => None,
    }
}

pub fn var_decl_span(value: &Statement) -> (r: Option<AstSpan>)
    ensures
        r == (match value {
            Statement::VarDecl { ident, .. } => Some(ident.span),
            _ => None,
        }),
{
    match value {
        Statement::VarDecl { ident, .. } => Some(variable_span(ident)),
        _ => None,
    }
}

/// The loop variable of an iterator loop; none for other statements.
pub fn loop_iterator_name(value: &Statement) -> (r: Option<&str>)
    ensures
        match value {
            Statement::LoopIter { iterator, .. } => r is Some && r->0@ == iterator.value.value@,
            _ => r is None,
        },
{
    match value {
        Statement::LoopIter { iterator, .. } => Some(variable_name(iterator)),
        _ => None,
    }
}

pub fn loop_iterator_span(value: &Statement) -> (r: Option<AstSpan>)
    ensures
        r == (match value {
            Statement::LoopIter { iterator, .. } => Some(iterator.span),
            _ => None,
        }),
{
    match value {
        Statement::LoopIter { iterator, .. } => Some(variable_span(iterator)),
        _ => None,
    }
}

/// The module named by an `import`; none for other statements.
pub fn import_name(value: &Statement) -> (r: Option<&str>)
    ensures
        match value {
            Statement::Import { module_name, .. } => r is Some && r->0@ == module_name.value.value@,
            _ => r is None,
        },
{
    match value {
        Statement::Import { module_name, .. } => Some(variable_name(module_name)),
        _ => None,
    }
}

pub fn import_span(value: &Statement) -> (r: Option<AstSpan>)
    ensures
        r == (match value {
            Statement::Import { module_name, .. } => Some(module_name.span),
            _ => None,
        }),
{
    match value {
        Statement::Import { module_name, .. } => Some(variable_span(module_name)),
        _ => None,
    }
}

} // verus!

verus! {

/// The start of `o`, or `d` where there is none.
pub open spec fn start_or(o: Option<AstSpan>, d: usize) -> usize {
    match o {
        Some(s) => s.0,
        None => d,
    }
}

/// The end of `o`, or `d` where there is none.
pub open spec fn end_or(o: Option<AstSpan>, d: usize) -> usize {
    match o {
        Some(s) => s.1,
        None => d,
    }
}

/// From the start of the first span to the end of the second, where both exist.
pub open spec fn join_spans(a: Option<AstSpan>, b: Option<AstSpan>) -> Option<AstSpan> {
    match (a, b) {
        (Some(x), Some(y)) => Some((x.0, y.1)),
        _ => None,
    }
}

/// The source range of an expression.
pub open spec fn spec_expr_span(e: Expression) -> Option<AstSpan>
    decreases e,
{
    match e {
        Expression::Number(v) => Some(v.span),
        Expression::StringLit(v) => Some(v.span),
        Expression::BoolLit(v) => Some(v.span),
        Expression::Variable(v) => Some(v.span),
        Expression::ErrorRef(v) => Some(v.span),
        Expression::StructInit(name, _) => Some(name.span),
        Expression::MoveExpr(kw, v) => Some((kw.span.0, v.span.1)),
        Expression::FieldAccess(target, _, field) => Some((start_or(spec_expr_span(*target), field.span.0), field.span.1)),
        Expression::At(target, kw, key) => Some((start_or(spec_expr_span(*target), kw.span.0), end_or(spec_expr_span(*key), kw.span.1))),
        Expression::Push(target, kw, key) => Some((start_or(spec_expr_span(*target), kw.span.0), end_or(spec_expr_span(*key), kw.span.1))),
        Expression::Take(kw, target) => Some((kw.span.0, end_or(spec_expr_span(*target), kw.span.1))),
        Expression::Len(kw, target) => Some((kw.span.0, end_or(spec_expr_span(*target), kw.span.1))),
        Expression::Ref(kw, target) => Some((kw.span.0, end_or(spec_expr_span(*target), kw.span.1))),
        Expression::Deref(kw, target) => Some((kw.span.0, end_or(spec_expr_span(*target), kw.span.1))),
        Expression::RunCall(kw, target) => Some((kw.span.0, end_or(spec_expr_span(*target), kw.span.1))),
        Expression::ListInit(kw, _, items) => {
            if items@.len() > 0 {
                Some((kw.span.0, end_or(spec_expr_span(items@.last()), kw.span.1)))
            } else {
                Some(kw.span)
            }
        },
        Expression::MapInit(kw, _, _, pairs) => {
            if pairs@.len() > 0 {
                let pair = pairs@.last();
                let s = match spec_expr_span(pair.value) {
                    Some(v) => Some(v),
                    None => spec_expr_span(pair.key),
                };
                Some((kw.span.0, end_or(s, kw.span.1)))
            } else {
                Some(kw.span)
            }
        },
        Expression::AdrInit(kw, _) => Some(kw.span),
        Expression::PipeInit(kw, _, _) => Some(kw.span),
        Expression::Call(func, _) => spec_expr_span(*func),
        Expression::Mul(l, r) => join_spans(spec_expr_span(*l), spec_expr_span(*r)),
        Expression::Div(l, r) => join_spans(spec_expr_span(*l), spec_expr_span(*r)),
        Expression::Add(l, r) => join_spans(spec_expr_span(*l), spec_expr_span(*r)),
        Expression::Sub(l, r) => join_spans(spec_expr_span(*l), spec_expr_span(*r)),
        Expression::Eq(l, r) => join_spans(spec_expr_span(*l), spec_expr_span(*r)),
        Expression::Neq(l, r) => join_spans(spec_expr_span(*l), spec_expr_span(*r)),
        Expression::Gt(l, r) => join_spans(spec_expr_span(*l), spec_expr_span(*r)),
        Expression::Lt(l, r) => join_spans(spec_expr_span(*l), spec_expr_span(*r)),
        Expression::Geq(l, r) => join_spans(spec_expr_span(*l), spec_expr_span(*r)),
        Expression::Leq(l, r) => join_spans(spec_expr_span(*l), spec_expr_span(*r)),
        Expression::Range(l, r) => join_spans(spec_expr_span(*l), spec_expr_span(*r)),
    }
}

/// The source range of a statement.
pub open spec fn spec_stmt_span(s: Statement) -> Option<AstSpan>
    decreases s,
{
    match s {
        Statement::HandleDef(def) => Some(def.name.span),
        Statement::StructDef(def) => Some(def.name.span),
        Statement::ErrorDef { name, .. } => Some(name.span),
        Statement::VarDecl { ident, .. } => Some(ident.span),
        Statement::AssignStmt { lhs, rhs } => join_spans(spec_expr_span(lhs), spec_expr_span(rhs)),
        Statement::On { condition, .. } => spec_expr_span(condition),
        Statement::LoopOn { _loop, condition, .. } => Some((_loop.span.0, end_or(spec_expr_span(condition), _loop.span.1))),
        Statement::LoopIter { _loop, body, .. } => {
            if body.statements@.len() > 0 {
                Some((_loop.span.0, end_or(spec_stmt_span(body.statements@.last()), _loop.span.1)))
            } else {
                Some(_loop.span)
            }
        },
        Statement::FunctionDef(def) => Some(def.name.span),
        Statement::RustFnDecl(def) => Some((def._rust_kw.span.0, def.name.span.1)),
        Statement::Give(kw, _, _) => Some(kw.span),
        Statement::Close(kw, _) => Some(kw.span),
        Statement::Return(kw, _) => Some(kw.span),
        Statement::Rest(kw) => Some(kw.span),
        Statement::Check(kw, _, _) => Some(kw.span),
        Statement::Break(kw) => Some(kw.span),
        Statement::Continue(kw) => Some(kw.span),
        Statement::Import { module_name, .. } => Some(module_name.span),
        Statement::ExprStmt(e) => spec_expr_span(e),
        Statement::Documented { item, .. } => match item {
            AnnotatableItem::HandleDef(def) => Some(def.name.span),
            AnnotatableItem::StructDef(def) => Some(def.name.span),
            AnnotatableItem::FunctionDef(def) => Some(def.name.span),
            AnnotatableItem::RustFnDecl(def) => Some((def._rust_kw.span.0, def.name.span.1)),
        },
    }
}

fn start_or_exec(o: Option<AstSpan>, d: usize) -> (r: usize)
    ensures
        r == start_or(o, d),
{
    match o {
        Some(s) => s.0,
        None => d,
    }
}

fn end_or_exec(o: Option<AstSpan>, d: usize) -> (r: usize)
    ensures
        r == end_or(o, d),
{
    match o {
        Some(s) => s.1,
        None => d,
    }
}

fn join_spans_exec(a: Option<AstSpan>, b: Option<AstSpan>) -> (r: Option<AstSpan>)
    ensures
        r == join_spans(a, b),
{
    match (a, b) {
        (Some(x), Some(y)) => Some((x.0, y.1)),
        _ => None,
    }
}

/// The source range of an expression: from its first token to its last, where the
/// parts that decide it have spans.
pub fn expr_span(expr: &Expression) -> (r: Option<AstSpan>)
    ensures
        r == spec_expr_span(*expr),
    decreases expr,
{
    match expr {
        Expression::Number(v) => Some(v.span),
        Expression::StringLit(v) => Some(v.span),
        Expression::BoolLit(v) => Some(v.span),
        Expression::Variable(v) => Some(variable_span(v)),
        Expression::ErrorRef(v) => Some(struct_span(v)),
        Expression::StructInit(name, _) => Some(struct_span(name)),
        Expression::MoveExpr(kw, v) => Some((kw.span.0, v.span.1)),
        Expression::FieldAccess(target, _, field) => {
            let start = start_or_exec(expr_span(target), field.span.0);
            Some((start, field.span.1))
        },
        Expression::At(target, kw, key) => {
            let start = start_or_exec(expr_span(target), kw.span.0);
            let end = end_or_exec(expr_span(key), kw.span.1);
            Some((start, end))
        },
        Expression::Push(target, kw, key) => {
            let start = start_or_exec(expr_span(target), kw.span.0);
            let end = end_or_exec(expr_span(key), kw.span.1);
            Some((start, end))
        },
        Expression::Take(kw, target) => Some((kw.span.0, end_or_exec(expr_span(target), kw.span.1))),
        Expression::Len(kw, target) => Some((kw.span.0, end_or_exec(expr_span(target), kw.span.1))),
        Expression::Ref(kw, target) => Some((kw.span.0, end_or_exec(expr_span(target), kw.span.1))),
        Expression::Deref(kw, target) => Some((kw.span.0, end_or_exec(expr_span(target), kw.span.1))),
        Expression::RunCall(kw, target) => Some((kw.span.0, end_or_exec(expr_span(target), kw.span.1))),
        Expression::ListInit(kw, _, items) => {
            if items.len() > 0 {
                let last = &items[items.len() - 1];
                proof {
                    assert(decreases_to!(items => items@[items@.len() - 1]));
                }
                Some((kw.span.0, end_or_exec(expr_span(last), kw.span.1)))
            } else {
                Some(kw.span)
            }
        },
        Expression::MapInit(kw, _, _, pairs) => {
            if pairs.len() > 0 {
                let pair = &pairs[pairs.len() - 1];
                proof {
                    assert(decreases_to!(pairs => pairs@[pairs@.len() - 1]));
                }
                let s = match expr_span(&pair.value) {
                    Some(v) => Some(v),
                    None => expr_span(&pair.key),
                };
                Some((kw.span.0, end_or_exec(s, kw.span.1)))
            } else {
                Some(kw.span)
            }
        },
        Expression::AdrInit(kw, _) => Some(kw.span),
        Expression::PipeInit(kw, _, _) => Some(kw.span),
        Expression::Call(func, _) => expr_span(func),
        Expression::Mul(l, r) => join_spans_exec(expr_span(l), expr_span(r)),
        Expression::Div(l, r) => join_spans_exec(expr_span(l), expr_span(r)),
        Expression::Add(l, r) => join_spans_exec(expr_span(l), expr_span(r)),
        Expression::Sub(l, r) => join_spans_exec(expr_span(l), expr_span(r)),
        Expression::Eq(l, r) => join_spans_exec(expr_span(l), expr_span(r)),
        Expression::Neq(l, r) => join_spans_exec(expr_span(l), expr_span(r)),
        Expression::Gt(l, r) => join_spans_exec(expr_span(l), expr_span(r)),
        Expression::Lt(l, r) => join_spans_exec(expr_span(l), expr_span(r)),
        Expression::Geq(l, r) => join_spans_exec(expr_span(l), expr_span(r)),
        Expression::Leq(l, r) => join_spans_exec(expr_span(l), expr_span(r)),
        Expression::Range(l, r) => join_spans_exec(expr_span(l), expr_span(r)),
    }
}

/// The source range of a statement: its keyword or declared name, or the span of the
/// expressions it is made of.
pub fn stmt_span(stmt: &Statement) -> (r: Option<AstSpan>)
    ensures
        r == spec_stmt_span(*stmt),
    decreases stmt,
{
    match stmt {
        Statement::HandleDef(def) => Some(handle_span(def)),
        Statement::StructDef(def) => Some(struct_def_span(def)),
        Statement::ErrorDef { name, .. } => Some(struct_span(name)),
        Statement::VarDecl { ident, .. } => Some(variable_span(ident)),
        Statement::AssignStmt { lhs, rhs } => merge_expr_spans(lhs, rhs),
        Statement::On { condition, .. } => expr_span(condition),
        Statement::LoopOn { _loop, condition, .. } => {
            let end = end_or_exec(expr_span(condition), _loop.span.1);
            Some((_loop.span.0, end))
        },
        Statement::LoopIter { _loop, body, .. } => {
            if body.statements.len() > 0 {
                let last = &body.statements[body.statements.len() - 1];
                proof {
                    assert(decreases_to!(body.statements => body.statements@[body.statements@.len() - 1]));
                }
                let end = end_or_exec(stmt_span(last), _loop.span.1);
                Some((_loop.span.0, end))
            } else {
                Some(_loop.span)
            }
        },
        Statement::FunctionDef(def) => Some(function_span(&def.name)),
        Statement::RustFnDecl(def) => Some(rust_fn_decl_span(def)),
        Statement::Give(kw, _, _) => Some(kw.span),
        Statement::Close(kw, _) => Some(kw.span),
        Statement::Return(kw, _) => Some(kw.span),
        Statement::Rest(kw) => Some(kw.span),
        Statement::Check(kw, _, _) => Some(kw.span),
        Statement::Break(kw) => Some(kw.span),
        Statement::Continue(kw) => Some(kw.span),
        Statement::Import { module_name, .. } => Some(variable_span(module_name)),
        Statement::ExprStmt(e) => expr_span(e),
        Statement::Documented { item, .. } => match item {
            AnnotatableItem::HandleDef(def) => Some(handle_span(def)),
            AnnotatableItem::StructDef(def) => Some(struct_def_span(def)),
            AnnotatableItem::FunctionDef(def) => Some(function_span(&def.name)),
            AnnotatableItem::RustFnDecl(def) => Some(rust_fn_decl_span(def)),
        },
    }
}

fn merge_expr_spans(lhs: &Expression, rhs: &Expression) -> (r: Option<AstSpan>)
    ensures
        r == join_spans(spec_expr_span(*lhs), spec_expr_span(*rhs)),
{
    let l = expr_span(lhs);
    let r = expr_span(rhs);
    join_spans_exec(l, r)
}

/// The span that a call's diagnostics point at: that of the called expression.
pub fn call_target_span(func: &Expression) -> (r: Option<AstSpan>)
    ensures
        r == spec_expr_span(*func),
{
    expr_span(func)
}

} // verus!
