use kiro_lang::eir::verify::{verify_program, VerifyError, VerifyErrorKind};
use kiro_lang::eir::{BasicBlock, EirFunction, EirProgram, Instruction, Terminator};
use kiro_lang::eir::order::initializer_order;
use kiro_lang::compiler::eir::compile_program;
use kiro_lang::eir::lower::{lower_program, LowerErrorKind};
use kiro_lang::eir::print::print_program;
use kiro_lang::eir::{BlockId, ConstId, Constant, GlobalId, InstructionKind, SlotId, TerminatorKind};
use kiro_lang::hir::{
    Effects, FunctionId, HirBinaryOp, HirExpr, HirExprKind, HirFunction, HirModule, HirProgram,
    HirStmt, HirStmtKind, HirSymbols, LocalId, ModuleId, Signature, SourceAnchor, SourceId,
    TypeId, TypeTable,
};

fn at(start: u32) -> SourceAnchor {
    SourceAnchor { source: SourceId(0), start, end: start + 1 }
}

fn num(code: &str, shown: &str) -> HirExpr {
    HirExpr { kind: HirExprKind::Number(code.to_string(), shown.to_string()), ty: TypeId(3), anchor: at(0) }
}

fn stmt(kind: HirStmtKind) -> HirStmt {
    HirStmt { kind, anchor: at(1) }
}

fn function(id: u32, name: &str, ret: TypeId, body: Vec<HirStmt>) -> HirFunction {
    HirFunction {
        id: FunctionId(id),
        name: name.to_string(),
        params: Vec::new(),
        signature: Signature::new(Vec::new(), ret, Effects::pure()),
        body,
        anchor: at(2),
    }
}

fn program(statements: Vec<HirStmt>, functions: Vec<HirFunction>) -> HirProgram {
    let module = HirModule::new(ModuleId(0), "main".to_string(), statements, functions, Vec::new(), Vec::new());
    HirProgram { types: TypeTable::new(), modules: vec![module], symbols: HirSymbols::default() }
}

#[test]
fn arithmetic_function_lowers_to_constants_and_an_add() {
    let sum = HirExpr {
        kind: HirExprKind::Binary { op: HirBinaryOp::AddNum, lhs: Box::new(num("1.0", "1")), rhs: Box::new(num("2.0", "2")) },
        ty: TypeId(3),
        anchor: at(0),
    };
    let f = function(0, "answer", TypeId(3), vec![stmt(HirStmtKind::Return(Some(sum)))]);
    let hir = program(vec![stmt(HirStmtKind::FunctionDef(FunctionId(0)))], vec![f]);
    let p = lower_program(&hir).expect("lowering succeeds");

    assert_eq!(p.functions.len(), 2);
    let answer = &p.functions[0];
    assert_eq!(answer.name, "answer");
    assert_eq!(answer.slots, vec![TypeId(3), TypeId(3), TypeId(3)]);
    assert_eq!(answer.blocks.len(), 1);
    let code = &answer.blocks[0].instructions;
    assert_eq!(code.len(), 3);
    assert!(matches!(code[0].kind, InstructionKind::Const { dst: SlotId(0), constant: ConstId(0) }));
    assert!(matches!(code[1].kind, InstructionKind::Const { dst: SlotId(1), constant: ConstId(1) }));
    assert!(matches!(code[2].kind, InstructionKind::AddNum { dst: SlotId(2), lhs: SlotId(0), rhs: SlotId(1) }));
    assert!(matches!(answer.blocks[0].terminator.kind, TerminatorKind::Return(Some(SlotId(2)))));
    assert_eq!(p.constants.len(), 2);
    assert!(matches!(&p.constants[0], Constant::Num(t, s) if t == "1.0" && s == "1"));
    assert!(matches!(&p.constants[1], Constant::Num(t, s) if t == "2.0" && s == "2"));

    let init = &p.functions[1];
    assert_eq!(init.name, "main::$init");
    assert_eq!(init.signature.effects, Effects(62));
    assert!(matches!(init.blocks[0].terminator.kind, TerminatorKind::Return(None)));
    assert_eq!(p.module_initializers, vec![FunctionId(1)]);
}

#[test]
fn equal_constants_are_interned_once() {
    let f = function(
        0,
        "twice",
        TypeId(1),
        vec![stmt(HirStmtKind::Expr(num("4.0", "4"))), stmt(HirStmtKind::Expr(num("4.0", "4")))],
    );
    let p = lower_program(&program(Vec::new(), vec![f])).expect("lowering succeeds");
    assert_eq!(p.constants.len(), 1);
    let code = &p.functions[0].blocks[0].instructions;
    assert!(matches!(code[0].kind, InstructionKind::Const { dst: SlotId(0), constant: ConstId(0) }));
    assert!(matches!(code[1].kind, InstructionKind::Const { dst: SlotId(1), constant: ConstId(0) }));
    assert!(matches!(p.functions[0].blocks[0].terminator.kind, TerminatorKind::Return(None)));
}

#[test]
fn module_variables_become_globals_stored_by_the_initializer() {
    let decl = stmt(HirStmtKind::VarDecl { local: LocalId(0), value: num("5.0", "5") });
    let p = lower_program(&program(vec![decl], Vec::new())).expect("lowering succeeds");
    assert_eq!(p.globals, vec![TypeId(3)]);
    let init = &p.functions[0];
    let code = &init.blocks[0].instructions;
    assert!(matches!(code[0].kind, InstructionKind::Const { dst: SlotId(0), constant: ConstId(0) }));
    assert!(matches!(code[1].kind, InstructionKind::StoreGlobal { global: GlobalId(0), src: SlotId(0) }));
}

#[test]
fn on_statement_branches_and_rejoins() {
    let cond = HirExpr { kind: HirExprKind::Bool(true), ty: TypeId(2), anchor: at(0) };
    let on = stmt(HirStmtKind::On { condition: cond, body: Vec::new(), else_body: None, error_clauses: Vec::new() });
    let f = function(0, "branch", TypeId(1), vec![on]);
    let p = lower_program(&program(Vec::new(), vec![f])).expect("lowering succeeds");
    let blocks = &p.functions[0].blocks;
    assert_eq!(blocks.len(), 4);
    assert!(matches!(
        blocks[0].terminator.kind,
        TerminatorKind::Branch { condition: SlotId(0), then_block: BlockId(1), else_block: BlockId(2) }
    ));
    assert!(matches!(blocks[1].terminator.kind, TerminatorKind::Jump(BlockId(3))));
    assert!(matches!(blocks[2].terminator.kind, TerminatorKind::Jump(BlockId(3))));
    assert!(matches!(blocks[3].terminator.kind, TerminatorKind::Return(None)));
}

#[test]
fn break_outside_a_loop_is_rejected() {
    let f = function(0, "broken", TypeId(1), vec![stmt(HirStmtKind::Break)]);
    let err = lower_program(&program(Vec::new(), vec![f])).unwrap_err();
    assert!(matches!(&err.kind, LowerErrorKind::InvalidProgram(m) if m == "break outside loop"));
    assert_eq!(err.message(), "EIR lowering failed at 0:1..2: break outside loop");
}

#[test]
fn function_ids_must_be_dense() {
    let f = function(1, "late", TypeId(1), Vec::new());
    let err = lower_program(&program(Vec::new(), vec![f])).unwrap_err();
    assert!(matches!(&err.kind, LowerErrorKind::InvalidProgram(m) if m == "function IDs must be dense: expected f0, found f1"));
}

#[test]
fn non_void_function_must_return() {
    let f = function(0, "missing", TypeId(3), Vec::new());
    let err = lower_program(&program(Vec::new(), vec![f])).unwrap_err();
    assert!(matches!(&err.kind, LowerErrorKind::InvalidProgram(m) if m == "function missing can reach its end without returning"));
}

#[test]
fn module_values_are_unsupported() {
    let value = HirExpr { kind: HirExprKind::Module(ModuleId(0)), ty: TypeId(0), anchor: at(7) };
    let f = function(0, "m", TypeId(1), vec![stmt(HirStmtKind::Expr(value))]);
    let err = lower_program(&program(Vec::new(), vec![f])).unwrap_err();
    assert!(matches!(err.kind, LowerErrorKind::Unsupported { operation: "module value" }));
    assert_eq!(err.anchor, at(7));
}

#[test]
fn imported_modules_initialize_first() {
    let lib = HirModule::new(ModuleId(1), "lib".to_string(), Vec::new(), Vec::new(), Vec::new(), Vec::new());
    let main = HirModule::new(
        ModuleId(0),
        "main".to_string(),
        vec![stmt(HirStmtKind::Import(ModuleId(1)))],
        Vec::new(),
        Vec::new(),
        Vec::new(),
    );
    let hir = HirProgram { types: TypeTable::new(), modules: vec![main, lib], symbols: HirSymbols::default() };
    let p = lower_program(&hir).expect("lowering succeeds");
    assert_eq!(p.functions[0].name, "main::$init");
    assert_eq!(p.functions[1].name, "lib::$init");
    assert_eq!(p.module_initializers, vec![FunctionId(1), FunctionId(0)]);
}

fn arithmetic_program() -> HirProgram {
    let sum = HirExpr {
        kind: HirExprKind::Binary { op: HirBinaryOp::AddNum, lhs: Box::new(num("1.0", "1")), rhs: Box::new(num("2.0", "2")) },
        ty: TypeId(3),
        anchor: at(0),
    };
    let f = function(0, "answer", TypeId(3), vec![stmt(HirStmtKind::Return(Some(sum)))]);
    program(vec![stmt(HirStmtKind::FunctionDef(FunctionId(0)))], vec![f])
}

#[test]
fn lowered_program_listing() {
    let p = lower_program(&arithmetic_program()).expect("lowering succeeds");
    let expected = "types:\n  t0 = unknown\n  t1 = void\n  t2 = bool\n  t3 = num\n  t4 = str\n\
constants:\n  c0:t3 = 1\n  c1:t3 = 2\n\
functions:\n\
fn f0 answer() -> t3 effects=PURE {\n  slots: s0:t3, s1:t3, s2:t3\n  b0:\n    s0 = const c0 @0:0..1\n    s1 = const c1 @0:0..1\n    s2 = add_num s0, s1 @0:0..1\n    return s2 @0:1..2\n}\n\
fn f1 main::$init() -> t1 effects=MAY_FAIL | MAY_BLOCK | MAY_SPAWN | HOST_CALL | INDIRECT_CALL {\n  slots: \n  b0:\n    return @0:1..2\n}\n\
module_initializers: f1\n";
    assert_eq!(print_program(&p), expected);
}

#[test]
fn lowered_program_generates_rust() {
    let p = lower_program(&arithmetic_program()).expect("lowering succeeds");
    let code = compile_program(&p).expect("code generation succeeds");
    assert!(code.contains("__KiroValue::Num(1.0)"));
    assert!(code.contains("__KiroValue::Num(2.0)"));
    assert!(code.contains("async fn main()"));
    assert!(code.contains("let _ = __kiro_eir_f1(Vec::new(), __globals.clone()).await;"));
}

#[test]
fn initializer_order_visits_each_module_once_after_its_imports() {
    // 0 imports 2, 2 imports 1, 3 imports 0 and 1.
    let deps = vec![vec![2], vec![], vec![1], vec![0, 1]];
    assert_eq!(initializer_order(&deps), vec![1, 2, 0, 3]);
    // A cycle: 0 and 1 import each other.
    let cyclic = vec![vec![1], vec![0]];
    let order = initializer_order(&cyclic);
    let mut sorted = order.clone();
    sorted.sort();
    assert_eq!(sorted, vec![0, 1]);
    assert_eq!(order, vec![1, 0]);
}

#[test]
fn a_pure_function_calling_an_effectful_one_gets_one_effect_finding() {
    let a = at(0);
    let make = |id: u32, effects: Effects, instructions: Vec<Instruction>| EirFunction {
        id: FunctionId(id),
        name: format!("f{}", id),
        signature: Signature::new(Vec::new(), TypeId(1), effects),
        slots: Vec::new(),
        parameter_count: 0,
        blocks: vec![BasicBlock { instructions, terminator: Terminator { kind: TerminatorKind::Return(None), anchor: a } }],
    };
    let call = Instruction {
        kind: InstructionKind::CallDirect { dst: None, function: FunctionId(1), args: Vec::new() },
        anchor: a,
    };
    let p = EirProgram {
        types: TypeTable::new(),
        errors: Vec::new(),
        globals: Vec::new(),
        structs: Vec::new(),
        host_functions: Vec::new(),
        constants: Vec::new(),
        functions: vec![make(0, Effects::pure(), vec![call]), make(1, Effects::none(), Vec::new())],
        module_initializers: Vec::new(),
    };
    let errs = verify_program(&p).unwrap_err();
    assert_eq!(
        errs,
        vec![VerifyError {
            function: FunctionId(0),
            block: BlockId(0),
            instruction: Some(0),
            anchor: a,
            kind: VerifyErrorKind::EffectViolation { callee: FunctionId(1) },
        }]
    );
}
