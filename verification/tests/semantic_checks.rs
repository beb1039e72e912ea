use kiro_lang::compiler::functions::{Compiler, FunctionInfo};
use kiro_lang::compiler::semantic::{block_guarantees_return, statement_guarantees_return, SemanticCtx};
use kiro_lang::errors::ErrorCode;
use kiro_lang::grammar::{
    AnnotatableItem, Block, DocComment, Expression, FieldDef, FieldInit, FieldNameVal,
    FunctionDef, FunctionNameVal, KiroType, NumberVal, OffClause, Program, Spanned, Statement,
    StringVal, StructDef, StructNameVal, VariableVal,
};

fn sp<T>(value: T, start: usize, end: usize) -> Spanned<T> {
    Spanned { value, span: (start, end) }
}

fn var(name: &str, start: usize) -> Expression {
    Expression::Variable(sp(VariableVal { value: name.to_string() }, start, start + name.len()))
}

fn num(text: &str, start: usize) -> Expression {
    Expression::Number(sp(NumberVal { value: text.to_string() }, start, start + text.len()))
}

fn string(text: &str, start: usize) -> Expression {
    Expression::StringLit(sp(StringVal { value: text.to_string() }, start, start + text.len()))
}

fn field(target: Expression, name: &str, start: usize) -> Expression {
    Expression::FieldAccess(
        Box::new(target),
        sp((), start - 1, start),
        sp(FieldNameVal { value: name.to_string() }, start, start + name.len()),
    )
}

fn info(is_pure: bool, params: Vec<KiroType>, ret: Option<KiroType>) -> FunctionInfo {
    FunctionInfo { is_pure, can_error: false, params, return_type: ret, doc: None }
}

fn compiler_with_add() -> Compiler {
    let mut c = Compiler::new();
    c.functions.push((
        "add".to_string(),
        info(true, vec![KiroType::Num, KiroType::Num], Some(KiroType::Num)),
    ));
    c.functions.push(("save".to_string(), info(false, vec![], None)));
    c
}

const SOURCE: &str = "var count = 1\ncoutn\nadd(1)\n";

#[test]
fn unknown_variable_suggests_the_nearest_name() {
    let c = compiler_with_add();
    let mut ctx = SemanticCtx::new("main", SOURCE, &c);
    ctx.insert_binding("count".to_string(), Some(KiroType::Num), true);
    let err = ctx.infer_expr(&var("coutn", 14)).unwrap_err();
    assert_eq!(err.code, ErrorCode::UnknownName);
    assert_eq!(err.message, "Unknown variable 'coutn'.");
    assert_eq!(err.suggestion.as_deref(), Some("count"));
    assert_eq!(err.label.as_deref(), Some("unknown variable"));
    assert_eq!(err.line, Some(2));
    assert_eq!(err.column, Some(1));
    assert_eq!(err.span_offset, Some(14));
    assert_eq!(err.span_len, Some(5));
}

#[test]
fn known_names_have_their_types() {
    let c = compiler_with_add();
    let mut ctx = SemanticCtx::new("main", SOURCE, &c);
    ctx.insert_binding("count".to_string(), Some(KiroType::Num), true);
    assert!(matches!(ctx.infer_expr(&var("count", 4)), Ok(Some(KiroType::Num))));
    assert!(matches!(ctx.infer_expr(&var("add", 0)), Ok(None)));
    ctx.push_scope();
    ctx.insert_binding("count".to_string(), Some(KiroType::Str), false);
    assert!(matches!(ctx.infer_expr(&var("count", 4)), Ok(Some(KiroType::Str))));
    ctx.pop_scope();
    assert!(matches!(ctx.infer_expr(&var("count", 4)), Ok(Some(KiroType::Num))));
}

#[test]
fn moving_an_immutable_variable_is_refused() {
    let c = compiler_with_add();
    let mut ctx = SemanticCtx::new("main", SOURCE, &c);
    ctx.insert_binding("x".to_string(), Some(KiroType::Num), false);
    let e = Expression::MoveExpr(sp((), 0, 4), sp(VariableVal { value: "x".to_string() }, 5, 6));
    let err = ctx.infer_expr(&e).unwrap_err();
    assert_eq!(err.code, ErrorCode::MutabilityError);
    assert_eq!(err.message, "Cannot move immutable variable 'x'.");
    assert_eq!(err.label.as_deref(), Some("immutable variable"));
}

#[test]
fn move_is_forbidden_in_pure_functions() {
    let c = compiler_with_add();
    let mut ctx = SemanticCtx::new("main", SOURCE, &c);
    ctx.insert_binding("x".to_string(), Some(KiroType::Num), true);
    let e = Expression::MoveExpr(sp((), 0, 4), sp(VariableVal { value: "x".to_string() }, 5, 6));
    assert!(matches!(ctx.infer_expr(&e), Ok(Some(KiroType::Num))));
    ctx.set_pure(true);
    let err = ctx.infer_expr(&e).unwrap_err();
    assert_eq!(err.code, ErrorCode::PureViolation);
    assert_eq!(err.message, "Compiler Error: 'move' is forbidden in pure functions.");
}

#[test]
fn wrong_argument_count_names_the_expected_types() {
    let c = compiler_with_add();
    let ctx = SemanticCtx::new("main", SOURCE, &c);
    let call = Expression::Call(Box::new(var("add", 20)), vec![num("1", 24)]);
    let err = ctx.infer_expr(&call).unwrap_err();
    assert_eq!(err.code, ErrorCode::WrongArgumentCount);
    assert_eq!(err.message, "Wrong argument count for 'add': expected 2, got 1.");
    assert_eq!(err.help.as_deref(), Some("add expects (num, num)"));
    assert_eq!(err.label.as_deref(), Some("wrong argument count"));
    assert_eq!(err.line, Some(3));
}

#[test]
fn argument_types_must_match_the_parameters() {
    let c = compiler_with_add();
    let ctx = SemanticCtx::new("main", SOURCE, &c);
    let call = Expression::Call(Box::new(var("add", 20)), vec![num("1", 24), string("\"a\"", 26)]);
    let err = ctx.infer_expr(&call).unwrap_err();
    assert_eq!(err.code, ErrorCode::TypeError);
    assert_eq!(err.message, "Argument 2 for 'add' must be num, got str.");
    let ok = Expression::Call(Box::new(var("add", 20)), vec![num("1", 24), num("2", 26)]);
    assert!(matches!(ctx.infer_expr(&ok), Ok(Some(KiroType::Num))));
}

#[test]
fn pure_functions_cannot_call_effectful_ones() {
    let c = compiler_with_add();
    let mut ctx = SemanticCtx::new("main", SOURCE, &c);
    ctx.set_pure(true);
    let call = Expression::Call(Box::new(var("save", 0)), vec![]);
    let err = ctx.infer_expr(&call).unwrap_err();
    assert_eq!(err.code, ErrorCode::PureViolation);
    assert_eq!(
        err.message,
        "Pure function cannot call impure/async function 'save' inside a pure function."
    );
    assert_eq!(err.label.as_deref(), Some("impure call"));
}

#[test]
fn unknown_function_suggests_a_known_one() {
    let c = compiler_with_add();
    let ctx = SemanticCtx::new("main", SOURCE, &c);
    let call = Expression::Call(Box::new(var("ad", 0)), vec![]);
    let err = ctx.infer_expr(&call).unwrap_err();
    assert_eq!(err.code, ErrorCode::UnknownName);
    assert_eq!(err.message, "Unknown function 'ad'.");
    assert_eq!(err.suggestion.as_deref(), Some("add"));
}

#[test]
fn unknown_imported_function_is_an_import_error() {
    let c = Compiler::with_module_functions(vec![(
        ("math".to_string(), "add".to_string()),
        info(true, vec![KiroType::Num, KiroType::Num], Some(KiroType::Num)),
    )]);
    let mut ctx = SemanticCtx::new("main", SOURCE, &c);
    ctx.add_import("math".to_string());
    let target = field(var("math", 0), "ad", 5);
    let err = ctx.infer_expr(&target).unwrap_err();
    assert_eq!(err.code, ErrorCode::ImportError);
    assert_eq!(err.message, "Unknown function 'math.ad'.");
    assert_eq!(err.suggestion.as_deref(), Some("math.add"));
    assert!(matches!(ctx.infer_expr(&field(var("math", 0), "add", 5)), Ok(None)));
    let call = Expression::Call(Box::new(field(var("math", 0), "add", 5)), vec![num("1", 9), num("2", 12)]);
    assert!(matches!(ctx.infer_expr(&call), Ok(Some(KiroType::Num))));
}

#[test]
fn printing_takes_exactly_one_value() {
    let c = Compiler::new();
    let mut ctx = SemanticCtx::new("main", SOURCE, &c);
    ctx.add_import("io".to_string());
    let call = Expression::Call(Box::new(field(var("io", 0), "print", 3)), vec![num("1", 9), num("2", 12)]);
    let err = ctx.infer_expr(&call).unwrap_err();
    assert_eq!(err.code, ErrorCode::WrongArgumentCount);
    assert_eq!(err.message, "Wrong argument count for 'io.print': expected 1, got 2.");
    assert_eq!(err.help.as_deref(), Some("io.print expects (value)"));
    let ok = Expression::Call(Box::new(field(var("io", 0), "print", 3)), vec![num("1", 9)]);
    assert!(matches!(ctx.infer_expr(&ok), Ok(Some(KiroType::Void))));
}

#[test]
fn list_index_must_be_a_number() {
    let c = Compiler::new();
    let mut ctx = SemanticCtx::new("main", SOURCE, &c);
    ctx.insert_binding("xs".to_string(), Some(KiroType::List(Box::new(KiroType::Str))), false);
    let bad = Expression::At(Box::new(var("xs", 0)), sp((), 3, 5), Box::new(string("\"a\"", 6)));
    let err = ctx.infer_expr(&bad).unwrap_err();
    assert_eq!(err.code, ErrorCode::TypeError);
    assert_eq!(err.message, "List index must be num, got str.");
    assert_eq!(err.help.as_deref(), Some("Lists are indexed with numeric positions."));
    let good = Expression::At(Box::new(var("xs", 0)), sp((), 3, 5), Box::new(num("0", 6)));
    assert!(matches!(ctx.infer_expr(&good), Ok(Some(KiroType::Str))));
}

#[test]
fn text_wins_in_arithmetic() {
    let c = Compiler::new();
    let ctx = SemanticCtx::new("main", SOURCE, &c);
    let sum = Expression::Add(Box::new(string("\"n=\"", 0)), Box::new(num("1", 7)));
    assert!(matches!(ctx.infer_expr(&sum), Ok(Some(KiroType::Str))));
    let product = Expression::Mul(Box::new(num("2", 0)), Box::new(num("3", 4)));
    assert!(matches!(ctx.infer_expr(&product), Ok(Some(KiroType::Num))));
    let cmp = Expression::Lt(Box::new(num("2", 0)), Box::new(num("3", 4)));
    assert!(matches!(ctx.infer_expr(&cmp), Ok(Some(KiroType::Bool))));
}

#[test]
fn run_expects_a_call_and_void_addresses_cannot_be_read() {
    let c = compiler_with_add();
    let mut ctx = SemanticCtx::new("main", SOURCE, &c);
    let run = Expression::RunCall(sp((), 0, 3), Box::new(var("save", 4)));
    let err = ctx.infer_expr(&run).unwrap_err();
    assert_eq!(err.code, ErrorCode::BadUse);
    assert_eq!(err.message, "'run' expects a function call.");
    assert_eq!(err.help.as_deref(), Some("Use `run worker()` instead of `run worker`."));
    ctx.insert_binding("p".to_string(), Some(KiroType::Adr(Box::new(KiroType::Void))), false);
    let deref = Expression::Deref(sp((), 0, 5), Box::new(var("p", 6)));
    let err = ctx.infer_expr(&deref).unwrap_err();
    assert_eq!(err.code, ErrorCode::BadUse);
    assert_eq!(err.message, "Cannot deref adr void.");
}

#[test]
fn struct_literals_name_only_declared_fields() {
    let c = Compiler::new();
    let mut ctx = SemanticCtx::new("main", SOURCE, &c);
    let def = StructDef {
        _struct: sp((), 0, 6),
        name: sp(StructNameVal { value: "User".to_string() }, 7, 11),
        fields: vec![FieldDef {
            name: sp(FieldNameVal { value: "age".to_string() }, 14, 17),
            field_type: KiroType::Num,
        }],
    };
    ctx.insert_struct(&def);
    let lit = Expression::StructInit(
        sp(StructNameVal { value: "User".to_string() }, 0, 4),
        vec![FieldInit {
            name: sp(FieldNameVal { value: "name".to_string() }, 7, 11),
            value: num("1", 13),
        }],
    );
    let err = ctx.infer_expr(&lit).unwrap_err();
    assert_eq!(err.code, ErrorCode::TypeError);
    assert_eq!(err.message, "Type User has no field 'name'.");
    ctx.insert_binding(
        "u".to_string(),
        Some(KiroType::Custom(StructNameVal { value: "User".to_string() })),
        false,
    );
    assert!(matches!(ctx.infer_expr(&field(var("u", 0), "age", 2)), Ok(Some(KiroType::Num))));
}

#[test]
fn returns_on_every_path() {
    let ret = Statement::Return(sp((), 0, 6), Some(num("1", 7)));
    assert!(statement_guarantees_return(&ret, &KiroType::Num));
    let expr = Statement::ExprStmt(num("1", 0));
    assert!(statement_guarantees_return(&expr, &KiroType::Num));
    assert!(!statement_guarantees_return(&expr, &KiroType::Void));
    let branch = Statement::On {
        condition: var("ok", 4),
        body: Block { statements: vec![Statement::Return(sp((), 0, 6), None)] },
        else_clause: Some(OffClause { body: Block { statements: vec![Statement::ExprStmt(num("2", 0))] } }),
        error_clauses: None,
    };
    assert!(statement_guarantees_return(&branch, &KiroType::Num));
    let half = Statement::On {
        condition: var("ok", 4),
        body: Block { statements: vec![Statement::Return(sp((), 0, 6), None)] },
        else_clause: None,
        error_clauses: None,
    };
    assert!(!statement_guarantees_return(&half, &KiroType::Num));
    assert!(!block_guarantees_return(&Block { statements: vec![] }, &KiroType::Num));
    assert!(block_guarantees_return(&Block { statements: vec![half, ret] }, &KiroType::Num));
}

#[test]
fn program_structs_are_known_to_field_checks() {
    let user = StructDef {
        _struct: sp((), 0, 6),
        name: sp(StructNameVal { value: "User".to_string() }, 7, 11),
        fields: vec![FieldDef {
            name: sp(FieldNameVal { value: "age".to_string() }, 14, 17),
            field_type: KiroType::Num,
        }],
    };
    let point = StructDef {
        _struct: sp((), 0, 6),
        name: sp(StructNameVal { value: "Point".to_string() }, 7, 12),
        fields: vec![FieldDef {
            name: sp(FieldNameVal { value: "x".to_string() }, 14, 15),
            field_type: KiroType::Str,
        }],
    };
    let program = Program {
        statements: vec![
            Statement::StructDef(user),
            Statement::ExprStmt(num("1", 0)),
            Statement::Documented {
                doc: vec![DocComment { content: "/// A point.".to_string() }],
                item: AnnotatableItem::StructDef(point),
            },
        ],
    };
    let c = Compiler::new();
    let mut ctx = SemanticCtx::new("main", SOURCE, &c);
    ctx.collect_program_structs(&program);
    assert_eq!(ctx.structs.len(), 2);
    assert_eq!(ctx.structs[0].0, "User");
    assert_eq!(ctx.structs[1].0, "Point");
    ctx.insert_binding(
        "p".to_string(),
        Some(KiroType::Custom(StructNameVal { value: "Point".to_string() })),
        false,
    );
    assert!(matches!(ctx.infer_expr(&field(var("p", 0), "x", 2)), Ok(Some(KiroType::Str))));
    let err = ctx.infer_expr(&field(var("p", 0), "y", 2)).unwrap_err();
    assert_eq!(err.message, "Type Point has no field 'y'.");
}

#[test]
fn call_names_in_diagnostics() {
    let c = Compiler::new();
    let ctx = SemanticCtx::new("main", SOURCE, &c);
    assert_eq!(ctx.call_name(&var("add", 0)), "add");
    assert_eq!(ctx.call_name(&field(var("math", 0), "add", 5)), "math.add");
    assert_eq!(ctx.call_name(&num("1", 0)), "<computed function>");
}

fn assign(name: &str, start: usize, value: Expression) -> Statement {
    Statement::AssignStmt { lhs: var(name, start), rhs: value }
}

fn var_decl(name: &str, start: usize, value: Expression) -> Statement {
    Statement::VarDecl {
        _var: sp((), start, start + 3),
        ident: sp(VariableVal { value: name.to_string() }, start + 4, start + 4 + name.len()),
        value,
    }
}

fn function(name: &str, pure: bool, ret: Option<KiroType>, body: Vec<Statement>) -> FunctionDef {
    FunctionDef {
        pure_kw: if pure { Some(()) } else { None },
        name: sp(FunctionNameVal { value: name.to_string() }, 3, 3 + name.len()),
        params: vec![],
        return_type: ret,
        can_error: None,
        body: Block { statements: body },
    }
}

#[test]
fn variables_without_var_are_immutable() {
    let c = Compiler::new();
    let mut ctx = SemanticCtx::new("main", SOURCE, &c);
    assert!(ctx.analyze_statement(&assign("x", 0, num("1", 4))).is_ok());
    let err = ctx.analyze_statement(&assign("x", 0, num("2", 4))).unwrap_err();
    assert_eq!(err.code, ErrorCode::MutabilityError);
    assert_eq!(err.message, "Cannot mutate immutable variable 'x'.");
    assert_eq!(err.label.as_deref(), Some("immutable variable"));
}

#[test]
fn var_declared_variables_keep_their_type() {
    let c = Compiler::new();
    let mut ctx = SemanticCtx::new("main", SOURCE, &c);
    assert!(ctx.analyze_statement(&var_decl("x", 0, num("1", 8))).is_ok());
    assert!(ctx.analyze_statement(&assign("x", 0, num("2", 4))).is_ok());
    let err = ctx.analyze_statement(&assign("x", 0, string("\"a\"", 4))).unwrap_err();
    assert_eq!(err.code, ErrorCode::TypeError);
    assert_eq!(err.message, "Cannot assign str to num variable 'x'.");
}

#[test]
fn pure_functions_cannot_rest_or_give() {
    let c = Compiler::new();
    let mut ctx = SemanticCtx::new("main", SOURCE, &c);
    let f = function("f", true, None, vec![Statement::Rest(sp((), 10, 14))]);
    let err = ctx.analyze_function(&f).unwrap_err();
    assert_eq!(err.code, ErrorCode::PureViolation);
    assert_eq!(err.message, "Pure Function Error: 'rest' is forbidden.");
    let mut ctx = SemanticCtx::new("main", SOURCE, &c);
    let g = function("g", false, None, vec![Statement::Rest(sp((), 10, 14))]);
    assert!(ctx.analyze_function(&g).is_ok());
    assert!(!ctx.in_pure);
    assert_eq!(ctx.scopes.len(), 1);
}

#[test]
fn functions_return_their_declared_type() {
    let c = Compiler::new();
    let mut ctx = SemanticCtx::new("main", SOURCE, &c);
    let wrong = function("f", true, Some(KiroType::Num), vec![Statement::ExprStmt(string("\"a\"", 10))]);
    let err = ctx.analyze_function(&wrong).unwrap_err();
    assert_eq!(err.code, ErrorCode::TypeError);
    assert_eq!(err.message, "Wrong return type: expected num, got str.");
    let mut ctx = SemanticCtx::new("main", SOURCE, &c);
    let missing = function("g", true, Some(KiroType::Num), vec![var_decl("x", 10, num("1", 18))]);
    let err = ctx.analyze_function(&missing).unwrap_err();
    assert_eq!(err.message, "Function 'g' must return num on every path.");
    assert_eq!(err.label.as_deref(), Some("missing return"));
    let mut ctx = SemanticCtx::new("main", SOURCE, &c);
    let void_value = function("h", false, None, vec![Statement::Return(sp((), 10, 16), Some(num("1", 17)))]);
    let err = ctx.analyze_function(&void_value).unwrap_err();
    assert_eq!(err.message, "Function 'h' returns void but returned a value.");
    assert_eq!(err.help.as_deref(), Some("Add `-> num` or remove the returned value."));
}

#[test]
fn give_and_close_need_a_pipe() {
    let c = Compiler::new();
    let mut ctx = SemanticCtx::new("main", SOURCE, &c);
    ctx.insert_binding("n".to_string(), Some(KiroType::Num), false);
    let err = ctx.analyze_statement(&Statement::Close(sp((), 0, 5), var("n", 6))).unwrap_err();
    assert_eq!(err.code, ErrorCode::BadUse);
    assert_eq!(err.message, "'close' expects a pipe.");
    ctx.insert_binding("p".to_string(), Some(KiroType::Pipe(Box::new(KiroType::Num))), false);
    let err = ctx.analyze_statement(&Statement::Give(sp((), 0, 4), var("p", 5), string("\"a\"", 7))).unwrap_err();
    assert_eq!(err.message, "'give' value must be num, got str.");
    assert!(ctx.analyze_statement(&Statement::Give(sp((), 0, 4), var("p", 5), num("1", 7))).is_ok());
}

#[test]
fn validate_semantics_checks_every_statement() {
    let program = Program {
        statements: vec![
            Statement::FunctionDef(function("f", true, Some(KiroType::Num), vec![Statement::ExprStmt(num("1", 10))])),
            assign("x", 0, Expression::Call(Box::new(var("f", 4)), vec![])),
            assign("x", 0, num("2", 4)),
        ],
    };
    let mut c = Compiler::new();
    let err = c.validate_semantics(&program, "main", SOURCE).unwrap_err();
    assert_eq!(err.message, "Cannot mutate immutable variable 'x'.");
    assert_eq!(c.functions.len(), 1);
    let ok = Program { statements: vec![program.statements.into_iter().next().unwrap()] };
    let mut c = Compiler::new();
    assert!(c.validate_semantics(&ok, "main", SOURCE).is_ok());
}

#[test]
fn validate_semantics_refuses_effectful_recursion() {
    let body = vec![Statement::ExprStmt(Expression::Call(Box::new(var("loop_forever", 20)), vec![]))];
    let program = Program { statements: vec![Statement::FunctionDef(function("loop_forever", false, None, body))] };
    let mut c = Compiler::new();
    let err = c.validate_semantics(&program, "main", SOURCE).unwrap_err();
    assert_eq!(err.code, ErrorCode::PureViolation);
    assert_eq!(err.message, Compiler::effectful_recursion_message());
}

#[test]
fn collection_calls_check_their_argument_types() {
    let c = Compiler::new();
    let mut ctx = SemanticCtx::new("main", SOURCE, &c);
    let strings = KiroType::List(Box::new(KiroType::Str));
    let lookup = KiroType::MapOf(Box::new(KiroType::Str), Box::new(KiroType::Num));
    ctx.insert_binding("xs".to_string(), Some(strings), false);
    ctx.insert_binding("m".to_string(), Some(lookup), false);
    let target = var("maps", 0);
    let has = vec![var("m", 4), string("\"k\"", 6)];
    assert!(matches!(ctx.infer_collection_call("std_maps", "has", &target, &has), Ok(Some(KiroType::Bool))));
    let not_a_map = vec![var("xs", 4), string("\"k\"", 6)];
    let err = ctx.infer_collection_call("std_maps", "has", &target, &not_a_map).unwrap_err();
    assert_eq!(err.code, ErrorCode::TypeError);
    assert_eq!(err.message, "maps.has expects a map, got list str.");
    assert_eq!(err.label.as_deref(), Some("wrong collection type"));
    let wrong_key = vec![var("m", 4), num("1", 6), num("2", 8)];
    let err = ctx.infer_collection_call("std_maps", "set", &target, &wrong_key).unwrap_err();
    assert_eq!(err.message, "maps.set key must be str, got num.");
    let slice = vec![var("xs", 4), num("0", 6), string("\"b\"", 8)];
    let err = ctx.infer_collection_call("std_lists", "slice", &target, &slice).unwrap_err();
    assert_eq!(err.message, "lists.slice index must be num, got str.");
    let short = vec![var("xs", 4)];
    let err = ctx.infer_collection_call("std_lists", "join", &target, &short).unwrap_err();
    assert_eq!(err.code, ErrorCode::WrongArgumentCount);
    assert_eq!(err.message, "Wrong argument count for 'std_lists.join': expected 2, got 1.");
    assert!(matches!(ctx.infer_collection_call("std_lists", "reverse", &target, &short), Ok(Some(KiroType::List(_)))));
    assert!(matches!(ctx.infer_collection_call("math", "add", &target, &short), Ok(None)));
}

#[test]
fn pure_functions_cannot_print() {
    let c = Compiler::new();
    let mut ctx = SemanticCtx::new("main", SOURCE, &c);
    ctx.add_import("io".to_string());
    ctx.set_pure(true);
    let call = Expression::Call(Box::new(field(var("io", 0), "print", 3)), vec![num("1", 9)]);
    let err = ctx.infer_expr(&call).unwrap_err();
    assert_eq!(err.code, ErrorCode::PureViolation);
    assert_eq!(
        err.message,
        "Pure function cannot call impure/async function 'io.print' inside a pure function."
    );
    assert_eq!(err.label.as_deref(), Some("impure call"));
    assert_eq!(err.file.as_deref(), Some("main"));
}
