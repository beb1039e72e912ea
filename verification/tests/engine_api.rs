use kiro_lang::eir::InstructionKind;
use kiro_lang::engine::{
    collect_host_decls, same_kiro_type, Engine, EngineError, ExecOptions, HostDecl, HostFnSpec, HostMode, Limits,
    LoadedModule, ModuleLoader,
};
use std::sync::Arc;
use kiro_lang::grammar::{
    AnnotatableItem, DocComment, FuncParam, FunctionNameVal, KiroType, Program, RustFnDecl, Spanned, StructNameVal,
    Statement, VariableVal,
};
use kiro_lang::hir::{
    Effects, FunctionId, HirCallKind, HirExpr, HirExprKind, HirFunction, HirModule, HirProgram, HirStmt, HirStmtKind,
    HirSymbols, ModuleId, Signature, SourceAnchor, SourceId, TypeId, TypeTable,
};

fn spec(module: &str, name: &str, params: Vec<KiroType>, ret: KiroType, can_error: bool) -> HostFnSpec {
    HostFnSpec { module: module.to_string(), name: name.to_string(), params, ret, can_error }
}

fn decl(module: &str, name: &str, params: Vec<KiroType>, ret: KiroType, can_error: bool) -> HostDecl {
    HostDecl { module: module.to_string(), name: name.to_string(), params, ret, can_error }
}

fn execute() -> ExecOptions {
    ExecOptions { host_mode: HostMode::Execute, limits: Limits::default() }
}

fn registration_error(r: Result<(), EngineError>) -> String {
    match r {
        Err(EngineError::HostRegistration(m)) => m,
        other => panic!("expected a registration error, got {:?}", other),
    }
}

fn host(name: &str, params: Vec<KiroType>, ret: KiroType, can_error: bool) -> RustFnDecl {
    RustFnDecl {
        pure_kw: None,
        _rust_kw: Spanned { value: (), span: (0, 4) },
        _fn: Spanned { value: (), span: (5, 7) },
        name: Spanned { value: FunctionNameVal { value: name.to_string() }, span: (8, 8 + name.len()) },
        params: params
            .into_iter()
            .map(|t| FuncParam { name: Spanned { value: VariableVal { value: "x".to_string() }, span: (0, 1) }, command_type: t })
            .collect(),
        return_type: ret,
        can_error: if can_error { Some(()) } else { None },
    }
}

#[test]
fn engine_errors_name_their_kind() {
    assert_eq!(EngineError::Parse("bad".to_string()).to_string(), "parse error: bad");
    assert_eq!(EngineError::Runtime("boom".to_string()).to_string(), "runtime error: boom");
    assert_eq!(EngineError::Type("odd".to_string()).to_string(), "type error: odd");
    assert_eq!(EngineError::Load("gone".to_string()).to_string(), "module load error: gone");
    assert_eq!(EngineError::HostRegistration("twice".to_string()).to_string(), "host registration error: twice");
}

#[test]
fn default_options_simulate_without_limits() {
    let limits = Limits::default();
    assert_eq!(limits, Limits { max_steps: None, max_call_depth: None, timeout_ms: None });
    let options = ExecOptions::default();
    assert_eq!(options.host_mode, HostMode::Simulate);
    assert_eq!(options.limits, limits);
}

#[test]
fn builder_sets_directory_and_options() {
    let custom = ExecOptions { host_mode: HostMode::Execute, limits: Limits { max_steps: Some(100), max_call_depth: None, timeout_ms: Some(5) } };
    let engine = Engine::builder("/work").base_dir("/scripts").default_options(custom).build();
    assert_eq!(engine.base_dir, "/scripts");
    assert_eq!(engine.default_options, custom);
    assert!(engine.host_specs.is_empty());
    assert_eq!(engine.resolve_options(ExecOptions::default()), custom);
    let other = ExecOptions { host_mode: HostMode::Simulate, limits: Limits { max_steps: Some(1), max_call_depth: None, timeout_ms: None } };
    assert_eq!(engine.resolve_options(other), other);
}

#[test]
fn a_host_function_registers_once() {
    let mut engine = Engine::builder(".").build();
    assert!(engine.register_host_fn(spec("net", "fetch", vec![KiroType::Str], KiroType::Str, true)).is_ok());
    assert!(engine.register_host_fn(spec("net", "send", vec![], KiroType::Void, false)).is_ok());
    let again = engine.register_host_fn(spec("net", "fetch", vec![], KiroType::Void, false));
    assert_eq!(registration_error(again), "Host function 'net.fetch' is already registered");
    assert_eq!(engine.host_specs.len(), 2);
    assert_eq!(engine.host_specs[0].params.len(), 1);
}

#[test]
fn contracts_are_checked_only_when_host_calls_execute() {
    let engine = Engine::builder(".").build();
    let decls = vec![decl("net", "fetch", vec![], KiroType::Void, false)];
    assert!(engine.validate_host_contracts(&decls, &ExecOptions::default()).is_ok());
    let missing = engine.validate_host_contracts(&decls, &execute());
    assert_eq!(registration_error(missing), "Missing host registration for 'net.fetch'");
}

#[test]
fn each_signature_difference_is_reported() {
    let mut engine = Engine::builder(".").build();
    engine
        .register_host_fn(spec("io", "read", vec![KiroType::Str, KiroType::Num], KiroType::Str, true))
        .unwrap();
    let check = |d: HostDecl| registration_error(engine.validate_host_contracts(&vec![d], &execute()));
    assert_eq!(
        check(decl("io", "read", vec![KiroType::Str], KiroType::Str, true)),
        "Host signature mismatch for 'io.read': parameter count differs"
    );
    assert_eq!(
        check(decl("io", "read", vec![KiroType::Str, KiroType::Bool], KiroType::Str, true)),
        "Host signature mismatch for 'io.read': parameter types differ"
    );
    assert_eq!(
        check(decl("io", "read", vec![KiroType::Str, KiroType::Num], KiroType::Num, true)),
        "Host signature mismatch for 'io.read': return type differs"
    );
    assert_eq!(
        check(decl("io", "read", vec![KiroType::Str, KiroType::Num], KiroType::Str, false)),
        "Host signature mismatch for 'io.read': failable marker differs"
    );
    let good = vec![decl("io", "read", vec![KiroType::Str, KiroType::Num], KiroType::Str, true)];
    assert!(engine.validate_host_contracts(&good, &execute()).is_ok());
}

#[test]
fn the_first_failing_declaration_is_reported() {
    let mut engine = Engine::builder(".").build();
    engine.register_host_fn(spec("a", "ok", vec![], KiroType::Void, false)).unwrap();
    let decls = vec![
        decl("a", "ok", vec![], KiroType::Void, false),
        decl("a", "gone", vec![], KiroType::Void, false),
        decl("a", "ok2", vec![], KiroType::Void, false),
    ];
    let err = engine.validate_host_contracts(&decls, &execute());
    assert_eq!(registration_error(err), "Missing host registration for 'a.gone'");
}

#[test]
fn types_compare_structurally() {
    let list_of = |t: KiroType| KiroType::List(Box::new(t));
    assert!(same_kiro_type(&list_of(KiroType::Num), &list_of(KiroType::Num)));
    assert!(!same_kiro_type(&list_of(KiroType::Num), &list_of(KiroType::Str)));
    let f1 = KiroType::FnType(vec![KiroType::Num, KiroType::Str], Box::new(KiroType::Bool));
    let f2 = KiroType::FnType(vec![KiroType::Num, KiroType::Str], Box::new(KiroType::Bool));
    let f3 = KiroType::FnType(vec![KiroType::Num], Box::new(KiroType::Bool));
    assert!(same_kiro_type(&f1, &f2));
    assert!(!same_kiro_type(&f1, &f3));
    let user = KiroType::Custom(StructNameVal { value: "User".to_string() });
    let other = KiroType::Custom(StructNameVal { value: "Other".to_string() });
    assert!(!same_kiro_type(&user, &other));
    assert!(!same_kiro_type(&KiroType::Void, &KiroType::Num));
}

#[test]
fn host_declarations_are_collected_per_module() {
    let program = Program {
        statements: vec![
            Statement::RustFnDecl(host("read", vec![KiroType::Str], KiroType::Str, true)),
            Statement::Documented {
                doc: vec![DocComment { content: "writes".to_string() }],
                item: AnnotatableItem::RustFnDecl(host("write", vec![KiroType::Str, KiroType::Str], KiroType::Void, false)),
            },
            Statement::RustFnDecl(host("read", vec![], KiroType::Num, false)),
        ],
    };
    let mut decls = vec![decl("other", "read", vec![], KiroType::Void, false)];
    collect_host_decls("io", &program, &mut decls);
    assert_eq!(decls.len(), 3);
    assert_eq!(decls[0].module, "other");
    assert_eq!(decls[1].module, "io");
    assert_eq!(decls[1].name, "read");
    assert!(decls[1].params.is_empty());
    assert!(same_kiro_type(&decls[1].ret, &KiroType::Num));
    assert!(!decls[1].can_error);
    assert_eq!(decls[2].name, "write");
    assert_eq!(decls[2].params.len(), 2);
}

fn at(start: u32) -> SourceAnchor {
    SourceAnchor { source: SourceId(0), start, end: start + 1 }
}

fn stmt(kind: HirStmtKind) -> HirStmt {
    HirStmt { kind, anchor: at(1) }
}

fn call(function: u32) -> HirStmt {
    stmt(HirStmtKind::Expr(HirExpr {
        kind: HirExprKind::Call { kind: HirCallKind::Direct(FunctionId(function)), args: Vec::new() },
        ty: TypeId(1),
        anchor: at(3),
    }))
}

fn script_program(function_name: &str) -> HirProgram {
    let f = HirFunction {
        id: FunctionId(0),
        name: function_name.to_string(),
        params: Vec::new(),
        signature: Signature::new(Vec::new(), TypeId(1), Effects::pure()),
        body: Vec::new(),
        anchor: at(2),
    };
    let statements = vec![stmt(HirStmtKind::FunctionDef(FunctionId(0))), call(0)];
    let module = HirModule::new(ModuleId(0), "app".to_string(), statements, vec![f], Vec::new(), Vec::new());
    HirProgram { types: TypeTable::new(), modules: vec![module], symbols: HirSymbols::default() }
}

fn initializer_calls(p: &kiro_lang::eir::EirProgram) -> usize {
    let init = p.functions.iter().find(|f| f.name == "app::$init").expect("initializer");
    init.blocks
        .iter()
        .flat_map(|b| b.instructions.iter())
        .filter(|i| matches!(i.kind, InstructionKind::CallDirect { .. }))
        .count()
}

#[test]
fn compiling_leaves_out_the_top_level_call_of_main() {
    let engine = Engine::builder("/scripts").build();
    let modules = vec![("app".to_string(), Program { statements: vec![Statement::RustFnDecl(host("ping", vec![], KiroType::Void, false))] })];
    let script = engine.compile_module("app", "src", "app", script_program("main"), &modules).expect("compiles");
    assert_eq!(script.main, Some(FunctionId(0)));
    assert_eq!(script.functions, vec![("main".to_string(), FunctionId(0))]);
    assert_eq!(script.module_name, "app");
    assert_eq!(script.base_dir, "/scripts");
    assert_eq!(initializer_calls(&script.eir_program), 0);
    assert_eq!(script.host_decls.len(), 1);
    assert_eq!(script.host_decls[0].name, "ping");
    assert!(matches!(script.function_to_call("main"), Ok(FunctionId(0))));
    match script.function_to_call("nope") {
        Err(EngineError::Runtime(m)) => assert_eq!(m, "Function 'app.nope' not found"),
        _ => panic!("expected a runtime error"),
    }

    let kept = engine.compile_module("app", "src", "app", script_program("helper"), &Vec::new()).expect("compiles");
    assert_eq!(kept.main, None);
    assert_eq!(initializer_calls(&kept.eir_program), 1);
}

#[test]
fn compiling_needs_the_root_module() {
    let engine = Engine::builder(".").build();
    match engine.compile_module("app", "src", "missing", script_program("main"), &Vec::new()) {
        Err(EngineError::Parse(m)) => assert_eq!(m, "root HIR module was not found"),
        _ => panic!("expected a parse error"),
    }
}

struct MemoryLoader;

impl ModuleLoader for MemoryLoader {
    fn load(&self, module_name: &str, from_dir: &str) -> Result<LoadedModule, EngineError> {
        Ok(LoadedModule { cache_key: format!("mem://{}", module_name), source: String::new(), base_dir: from_dir.to_string() })
    }
}

#[test]
fn the_builder_hands_the_module_loader_to_the_engine() {
    let loader: Arc<dyn ModuleLoader> = Arc::new(MemoryLoader);
    let engine = Engine::builder("/work").module_loader(Some(loader.clone())).base_dir("/scripts").build();
    let held = engine.module_loader.as_ref().expect("loader kept");
    assert!(Arc::ptr_eq(held, &loader));
    assert_eq!(held.load("util", "/d").unwrap().cache_key, "mem://util");
    assert!(Engine::builder("/work").build().module_loader.is_none());
}
