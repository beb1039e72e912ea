use vstd::prelude::*;

use super::ids::{
    ErrorId, FieldId, FunctionId, HandleId, HostFunctionId, LocalId, ModuleId, StructId, TypeId,
};
use super::types::TypeTable;
use super::{Effects, Signature, SourceAnchor};
use crate::text::str_eq;

verus! {

/// A whole program in semantic form: the shared type table, the modules in
/// module-ID order and the names behind the identifiers.
#[derive(Debug)]
pub struct HirProgram {
    pub types: TypeTable,
    pub modules: Vec<HirModule>,
    pub symbols: HirSymbols,
}

impl HirProgram {
    /// The first module with the given name.
    pub fn module(&self, name: &str) -> (r: Option<&HirModule>)
        ensures
            match r {
                Some(m) => exists|i: int| 0 <= i < self.modules@.len() && self.modules@[i] == *m && m.name@ == name@
                    && forall|j: int| 0 <= j < i ==> (#[trigger] self.modules@[j]).name@ != name@,
                None => forall|j: int| 0 <= j < self.modules@.len() ==> (#[trigger] self.modules@[j]).name@ != name@,
            },
    {
        let mut i: usize = 0;
        while i < self.modules.len()
            invariant
                i <= self.modules@.len(),
                forall|j: int| 0 <= j < i ==> (#[trigger] self.modules@[j]).name@ != name@,
            decreases self.modules.len() - i,
        {
            if str_eq(self.modules[i].name.as_str(), name) {
                return Some(&self.modules[i]);
            }
            i += 1;
        }
        None
    }
}

/// One module: its top-level statements, and the functions, host declarations and
/// structs it declares.
#[derive(Debug)]
pub struct HirModule {
    pub id: ModuleId,
    pub name: String,
    pub statements: Vec<HirStmt>,
    pub functions: Vec<HirFunction>,
    pub host_functions: Vec<HirHostFunction>,
    pub structs: Vec<HirStruct>,
}

impl HirModule {
    pub fn new(
        id: ModuleId,
        name: String,
        statements: Vec<HirStmt>,
        functions: Vec<HirFunction>,
        host_functions: Vec<HirHostFunction>,
        structs: Vec<HirStruct>,
    ) -> (m: HirModule)
        ensures
            m == (HirModule { id, name, statements, functions, host_functions, structs }),
    {
        HirModule { id, name, statements, functions, host_functions, structs }
    }

    /// The function declared under `name`; where two share the name, the later one.
    pub fn function(&self, name: &str) -> (r: Option<&HirFunction>)
        ensures
            match r {
                Some(f) => exists|i: int| 0 <= i < self.functions@.len() && self.functions@[i] == *f && f.name@ == name@
                    && forall|j: int| i < j < self.functions@.len() ==> (#[trigger] self.functions@[j]).name@ != name@,
                None => forall|j: int| 0 <= j < self.functions@.len() ==> (#[trigger] self.functions@[j]).name@ != name@,
            },
    {
        let mut i: usize = self.functions.len();
        while i > 0
            invariant
                i <= self.functions@.len(),
                forall|j: int| i <= j < self.functions@.len() ==> (#[trigger] self.functions@[j]).name@ != name@,
            decreases i,
        {
            i -= 1;
            if str_eq(self.functions[i].name.as_str(), name) {
                return Some(&self.functions[i]);
            }
        }
        None
    }

    /// The host function declared under `name`; where two share the name, the later one.
    pub fn host_function(&self, name: &str) -> (r: Option<&HirHostFunction>)
        ensures
            match r {
                Some(f) => exists|i: int| 0 <= i < self.host_functions@.len() && self.host_functions@[i] == *f && f.name@ == name@
                    && forall|j: int| i < j < self.host_functions@.len() ==> (#[trigger] self.host_functions@[j]).name@ != name@,
                None => forall|j: int| 0 <= j < self.host_functions@.len() ==> (#[trigger] self.host_functions@[j]).name@ != name@,
            },
    {
        let mut i: usize = self.host_functions.len();
        while i > 0
            invariant
                i <= self.host_functions@.len(),
                forall|j: int| i <= j < self.host_functions@.len() ==> (#[trigger] self.host_functions@[j]).name@ != name@,
            decreases i,
        {
            i -= 1;
            if str_eq(self.host_functions[i].name.as_str(), name) {
                return Some(&self.host_functions[i]);
            }
        }
        None
    }
}

/// A function with its parameters, signature and body.
#[derive(Debug)]
pub struct HirFunction {
    pub id: FunctionId,
    pub name: String,
    pub params: Vec<HirParam>,
    pub signature: Signature,
    pub body: Vec<HirStmt>,
    pub anchor: SourceAnchor,
}

impl HirFunction {
    pub fn effects(&self) -> (e: Effects)
        ensures
            e == self.signature.effects,
    {
        self.signature.effects()
    }
}

#[derive(Debug)]
pub struct HirStmt {
    pub kind: HirStmtKind,
    pub anchor: SourceAnchor,
}

#[derive(Debug)]
pub enum HirStmtKind {
    ErrorDef { id: ErrorId, description: Option<String> },
    StructDef(StructId),
    HandleDef(HandleId),
    VarDecl { local: LocalId, value: HirExpr },
    Assign { target: HirExpr, value: HirExpr },
    On {
        condition: HirExpr,
        body: Vec<HirStmt>,
        else_body: Option<Vec<HirStmt>>,
        error_clauses: Vec<HirErrorClause>,
    },
    LoopOn { condition: HirExpr, body: Vec<HirStmt> },
    LoopIter {
        iterator: LocalId,
        iterable: HirExpr,
        step: Option<HirExpr>,
        filter: Option<HirExpr>,
        body: Vec<HirStmt>,
        else_body: Option<Vec<HirStmt>>,
    },
    FunctionDef(FunctionId),
    HostFunctionDecl(HostFunctionId),
    Give { channel: HirExpr, value: HirExpr },
    Close(HirExpr),
    Return(Option<HirExpr>),
    Break,
    Continue,
    Rest,
    Check { condition: HirExpr, message: Option<String> },
    Import(ModuleId),
    Expr(HirExpr),
}

/// One `error` clause of an `on`: the error it matches (none for a catch-all) and its body.
#[derive(Debug)]
pub struct HirErrorClause {
    pub error: Option<ErrorId>,
    pub body: Vec<HirStmt>,
}

/// An expression with its semantic type.
#[derive(Debug)]
pub struct HirExpr {
    pub kind: HirExprKind,
    pub ty: TypeId,
    pub anchor: SourceAnchor,
}

/// The forms of expression. A number keeps two renderings of its value, as Rust
/// source (`1.0`) and as display text (`1`); equal numbers render equally.
#[derive(Debug)]
pub enum HirExprKind {
    StructInit { structure: StructId, fields: Vec<HirFieldInit> },
    ListInit(Vec<HirExpr>),
    MapInit(Vec<HirMapPair>),
    CollectionCall { op: HirCollectionOp, args: Vec<HirExpr> },
    FieldAccess { target: Box<HirExpr>, field: FieldId },
    At { collection: Box<HirExpr>, key: Box<HirExpr> },
    Push { collection: Box<HirExpr>, value: Box<HirExpr> },
    Bool(bool),
    Number(String, String),
    String(String),
    Local(LocalId),
    Module(ModuleId),
    Function(FunctionId),
    HostFunction(HostFunctionId),
    Move(LocalId),
    Error(ErrorId),
    AddressInit,
    PipeInit { capacity: Option<usize> },
    Take(Box<HirExpr>),
    Len(Box<HirExpr>),
    Ref(Box<HirExpr>),
    Deref(Box<HirExpr>),
    Call { kind: HirCallKind, args: Vec<HirExpr> },
    RunCall(Box<HirExpr>),
    Binary { op: HirBinaryOp, lhs: Box<HirExpr>, rhs: Box<HirExpr> },
}

#[derive(Debug)]
pub struct HirFieldInit {
    pub field: FieldId,
    pub value: HirExpr,
}

#[derive(Debug)]
pub struct HirMapPair {
    pub key: HirExpr,
    pub value: HirExpr,
}

/// How a call reaches its callee.
#[derive(Debug)]
pub enum HirCallKind {
    Direct(FunctionId),
    Host(HostFunctionId),
    Indirect(Box<HirExpr>),
}

/// The names behind each kind of semantic identifier, indexed by the identifier.
#[derive(Debug, Clone, Default)]
pub struct HirSymbols {
    pub modules: Vec<String>,
    pub functions: Vec<String>,
    pub host_functions: Vec<String>,
    pub structs: Vec<String>,
    pub handles: Vec<String>,
    pub errors: Vec<String>,
    pub fields: Vec<String>,
    pub locals: Vec<LocalSymbol>,
}

/// A local variable, with the function that owns it (none for module scope).
#[derive(Debug, Clone)]
pub struct LocalSymbol {
    pub owner: Option<FunctionId>,
    pub id: LocalId,
    pub name: String,
}

/// A host (`rust fn`) declaration.
#[derive(Debug, Clone)]
pub struct HirHostFunction {
    pub id: HostFunctionId,
    pub name: String,
    pub params: Vec<HirParam>,
    pub signature: Signature,
    pub anchor: SourceAnchor,
}

#[derive(Debug, Clone)]
pub struct HirParam {
    pub local: LocalId,
    pub ty: TypeId,
    pub anchor: SourceAnchor,
}

#[derive(Debug, Clone)]
pub struct HirStruct {
    pub id: StructId,
    pub fields: Vec<HirStructField>,
    pub anchor: SourceAnchor,
}

#[derive(Debug, Clone)]
pub struct HirStructField {
    pub id: FieldId,
    pub ty: TypeId,
    pub anchor: SourceAnchor,
}

/// Built-in collection operations.
#[derive(Debug, Clone, Copy, PartialEq, Eq, Structural)]
pub enum HirCollectionOp {
    ListJoin,
    ListSlice,
    ListReverse,
    MapHas,
    MapSet,
    MapDelete,
}

/// Binary operations, resolved to their operand types.
#[derive(Debug, Clone, Copy, PartialEq, Eq, Structural)]
pub enum HirBinaryOp {
    AddNum,
    ConcatString,
    SubNum,
    MulNum,
    DivNum,
    EqNum,
    EqString,
    EqBool,
    NeNum,
    NeString,
    NeBool,
    GtNum,
    LtNum,
    GeNum,
    LeNum,
    RangeNum,
}

} // verus!
