//! The embedding interface: options for running a script, the host functions an
//! embedder registers, the check of those registrations against what the scripts
//! declare, and the compilation of an analysed program into a runnable script.
use vstd::prelude::*;

use crate::analysis::rust_decl_of;
use crate::grammar::{param_models, type_model, FuncParam, KiroType, Program, RustFnDecl, Statement, TypeModel};
use crate::eir::lower::{lower_error_text, lower_program, program_model, spec_lower_program, LowerErrorKindModel, ProgramModel};
use crate::eir::verify::{program_findings, program_fits, program_ok};
use crate::eir::EirProgram;
use crate::hir::{FunctionId, HirCallKind, HirExprKind, HirFunction, HirModule, HirProgram, HirStmt, HirStmtKind};
use crate::text::{push_str, str_eq};

verus! {

/// Whether host functions are really called or only simulated.
#[derive(Debug, Clone, Copy, PartialEq, Eq, Structural)]
pub enum HostMode {
    Simulate,
    Execute,
}

/// Bounds on a run; `None` is no bound.
#[derive(Debug, Clone, Copy, PartialEq, Eq, Structural)]
pub struct Limits {
    pub max_steps: Option<u64>,
    pub max_call_depth: Option<usize>,
    pub timeout_ms: Option<u64>,
}

impl Default for Limits {
    fn default() -> (r: Self)
        ensures
            r == no_limits(),
    {
        Limits { max_steps: None, max_call_depth: None, timeout_ms: None }
    }
}

pub open spec fn no_limits() -> Limits {
    Limits { max_steps: None, max_call_depth: None, timeout_ms: None }
}

/// How a script is run.
#[derive(Debug, Clone, Copy, PartialEq, Eq, Structural)]
pub struct ExecOptions {
    pub host_mode: HostMode,
    pub limits: Limits,
}

/// Host calls simulated, no limits.
pub open spec fn default_exec_options() -> ExecOptions {
    ExecOptions { host_mode: HostMode::Simulate, limits: no_limits() }
}

impl Default for ExecOptions {
    fn default() -> (r: Self)
        ensures
            r == default_exec_options(),
    {
        ExecOptions { host_mode: HostMode::Simulate, limits: Limits::default() }
    }
}

/// The errors of the embedding interface, each with its message.
#[derive(Debug)]
pub enum EngineError {
    Parse(String),
    Runtime(String),
    Type(String),
    Load(String),
    HostRegistration(String),
}

/// The text of an engine error: its kind, then its message.
pub open spec fn engine_error_text(e: EngineError) -> Seq<char> {
    match e {
        EngineError::Parse(m) => "parse error: "@ + m@,
        EngineError::Runtime(m) => "runtime error: "@ + m@,
        EngineError::Type(m) => "type error: "@ + m@,
        EngineError::Load(m) => "module load error: "@ + m@,
        EngineError::HostRegistration(m) => "host registration error: "@ + m@,
    }
}

impl EngineError {
    pub fn to_string(&self) -> (s: String)
        ensures
            s@ == engine_error_text(*self),
    {
        let (prefix, message) = match self {
            EngineError::Parse(m) => ("parse error: ", m),
            EngineError::Runtime(m) => ("runtime error: ", m),
            EngineError::Type(m) => ("type error: ", m),
            EngineError::Load(m) => ("module load error: ", m),
            EngineError::HostRegistration(m) => ("host registration error: ", m),
        };
        let mut s = String::from_str(prefix);
        push_str(&mut s, message.as_str());
        s
    }
}

/// The signature under which an embedder registers a host function.
#[derive(Debug)]
pub struct HostFnSpec {
    pub module: String,
    pub name: String,
    pub params: Vec<KiroType>,
    pub ret: KiroType,
    pub can_error: bool,
}

/// What a host function learns of the call it answers.
#[derive(Debug, Clone)]
pub struct HostCallCtx {
    pub module_name: String,
    pub function_name: String,
    pub step_count: u64,
}

/// A module's source as a loader found it.
#[derive(Debug, Clone)]
pub struct LoadedModule {
    pub cache_key: String,
    pub source: String,
    pub base_dir: String,
}

/// Finds the source of an imported module, for an embedder that keeps modules
/// somewhere other than the file system.
pub trait ModuleLoader: Send + Sync {
    fn load(&self, module_name: &str, from_dir: &str) -> Result<LoadedModule, EngineError>;
}

/// A host function as a script declares it with `rust fn`.
#[derive(Debug)]
pub struct HostDecl {
    pub module: String,
    pub name: String,
    pub params: Vec<KiroType>,
    pub ret: KiroType,
    pub can_error: bool,
}

/// The mathematical value of a declared or registered host signature.
pub struct HostSigModel {
    pub module: Seq<char>,
    pub name: Seq<char>,
    pub params: Seq<TypeModel>,
    pub ret: TypeModel,
    pub can_error: bool,
}

impl View for HostDecl {
    type V = HostSigModel;

    open spec fn view(&self) -> HostSigModel {
        HostSigModel {
            module: self.module@,
            name: self.name@,
            params: param_models(self.params@),
            ret: type_model(self.ret),
            can_error: self.can_error,
        }
    }
}

impl View for HostFnSpec {
    type V = HostSigModel;

    open spec fn view(&self) -> HostSigModel {
        HostSigModel {
            module: self.module@,
            name: self.name@,
            params: param_models(self.params@),
            ret: type_model(self.ret),
            can_error: self.can_error,
        }
    }
}

pub open spec fn decls_view(v: Seq<HostDecl>) -> Seq<HostSigModel> {
    v.map_values(|d: HostDecl| d@)
}

pub open spec fn specs_view(v: Seq<HostFnSpec>) -> Seq<HostSigModel> {
    v.map_values(|s: HostFnSpec| s@)
}

/// The types of a list of parameters, in order.
pub open spec fn param_type_models(ps: Seq<FuncParam>) -> Seq<TypeModel> {
    Seq::new(ps.len(), |i: int| type_model(ps[i].command_type))
}

/// The signature a `rust fn` declaration of a module gives.
pub open spec fn declared_signature(module: Seq<char>, d: RustFnDecl) -> HostSigModel {
    HostSigModel {
        module,
        name: d.name.value.value@,
        params: param_type_models(d.params@),
        ret: type_model(d.return_type),
        can_error: d.can_error is Some,
    }
}

/// The position of the first signature under the given module and name.
pub open spec fn sig_index(t: Seq<HostSigModel>, module: Seq<char>, name: Seq<char>) -> Option<int>
    decreases t.len(),
{
    if t.len() == 0 {
        None
    } else {
        match sig_index(t.drop_last(), module, name) {
            Some(i) => Some(i),
            None => if t.last().module == module && t.last().name == name {
                Some(t.len() - 1)
            } else {
                None
            },
        }
    }
}

/// A signature entered into a table keyed by module and name: it replaces the
/// entry under its key, or is added at the end.
pub open spec fn enter_sig(t: Seq<HostSigModel>, s: HostSigModel) -> Seq<HostSigModel> {
    match sig_index(t, s.module, s.name) {
        Some(i) => t.update(i, s),
        None => t.push(s),
    }
}

/// The table after the host declarations of the given statements are entered, in order.
pub open spec fn enter_decls(t: Seq<HostSigModel>, module: Seq<char>, stmts: Seq<Statement>) -> Seq<HostSigModel>
    decreases stmts.len(),
{
    if stmts.len() == 0 {
        t
    } else {
        let next = match rust_decl_of(stmts[0]) {
            Some(d) => enter_sig(t, declared_signature(module, d)),
            None => t,
        };
        enter_decls(next, module, stmts.drop_first())
    }
}

proof fn lemma_sig_index_prefix(t: Seq<HostSigModel>, module: Seq<char>, name: Seq<char>, i: int)
    requires
        0 <= i < t.len(),
        sig_index(t.subrange(0, i), module, name) is None,
    ensures
        sig_index(t.subrange(0, i + 1), module, name) == (if t[i].module == module && t[i].name == name {
            Some(i)
        } else {
            None::<int>
        }),
{
    assert(t.subrange(0, i + 1).drop_last() =~= t.subrange(0, i));
}

proof fn lemma_sig_index_bounds(t: Seq<HostSigModel>, module: Seq<char>, name: Seq<char>)
    ensures
        sig_index(t, module, name) matches Some(i) ==> 0 <= i < t.len() && t[i].module == module && t[i].name == name,
    decreases t.len(),
{
    if t.len() > 0 {
        lemma_sig_index_bounds(t.drop_last(), module, name);
    }
}

/// Whether two types are the same.
pub fn same_kiro_type(a: &KiroType, b: &KiroType) -> (r: bool)
    ensures
        r == (a@ == b@),
    decreases a,
{
    match (a, b) {
        (KiroType::Num, KiroType::Num) => true,
        (KiroType::Str, KiroType::Str) => true,
        (KiroType::Bool, KiroType::Bool) => true,
        (KiroType::Void, KiroType::Void) => true,
        (KiroType::Adr(x), KiroType::Adr(y)) => same_kiro_type(x, y),
        (KiroType::Pipe(x), KiroType::Pipe(y)) => same_kiro_type(x, y),
        (KiroType::List(x), KiroType::List(y)) => same_kiro_type(x, y),
        (KiroType::MapOf(k1, v1), KiroType::MapOf(k2, v2)) => same_kiro_type(k1, k2) && same_kiro_type(v1, v2),
        (KiroType::FnType(p1, r1), KiroType::FnType(p2, r2)) => same_kiro_types(p1, p2) && same_kiro_type(r1, r2),
        (KiroType::Custom(n1), KiroType::Custom(n2)) => str_eq(n1.value.as_str(), n2.value.as_str()),
        _ => false,
    }
}

/// Whether two lists of types are the same, element by element.
pub fn same_kiro_types(a: &Vec<KiroType>, b: &Vec<KiroType>) -> (r: bool)
    ensures
        r == (param_models(a@) == param_models(b@)),
    decreases a,
{
    if a.len() != b.len() {
        proof {
            assert(param_models(a@).len() != param_models(b@).len());
        }
        return false;
    }
    let mut i: usize = 0;
    while i < a.len()
        invariant
            a@.len() == b@.len(),
            i <= a@.len(),
            forall|j: int| 0 <= j < i ==> #[trigger] type_model(a@[j]) == type_model(b@[j]),
        decreases a.len() - i,
    {
        proof {
            assert(decreases_to!(a => a@[i as int]));
        }
        if !same_kiro_type(&a[i], &b[i]) {
            proof {
                assert(param_models(a@)[i as int] != param_models(b@)[i as int]);
            }
            return false;
        }
        i += 1;
    }
    proof {
        assert forall|j: int| 0 <= j < a@.len() implies param_models(a@)[j] == param_models(b@)[j] by {
            assert(type_model(a@[j]) == type_model(b@[j]));
        }
        assert(param_models(a@) =~= param_models(b@));
    }
    true
}

/// The types of a declaration's parameters, in order.
fn param_types(params: &Vec<FuncParam>) -> (r: Vec<KiroType>)
    ensures
        param_models(r@) == param_type_models(params@),
{
    let mut r: Vec<KiroType> = Vec::new();
    let mut i: usize = 0;
    while i < params.len()
        invariant
            i <= params@.len(),
            r@.len() == i,
            forall|j: int| 0 <= j < i ==> #[trigger] type_model(r@[j]) == type_model(params@[j].command_type),
        decreases params.len() - i,
    {
        r.push(params[i].command_type.clone());
        i += 1;
    }
    proof {
        assert forall|j: int| 0 <= j < r@.len() implies param_models(r@)[j] == param_type_models(params@)[j] by {
            assert(type_model(r@[j]) == type_model(params@[j].command_type));
        }
        assert(param_models(r@) =~= param_type_models(params@));
    }
    r
}

/// The position of the first declaration under the given module and name.
fn find_decl(decls: &Vec<HostDecl>, module: &str, name: &str) -> (r: Option<usize>)
    ensures
        r matches Some(i) ==> i < decls@.len() && sig_index(decls_view(decls@), module@, name@) == Some(i as int),
        r is None ==> sig_index(decls_view(decls@), module@, name@) is None,
{
    let ghost t = decls_view(decls@);
    let mut i: usize = 0;
    while i < decls.len()
        invariant
            t == decls_view(decls@),
            i <= decls@.len(),
            sig_index(t.subrange(0, i as int), module@, name@) is None,
        decreases decls.len() - i,
    {
        proof {
            lemma_sig_index_prefix(t, module@, name@, i as int);
        }
        if str_eq(decls[i].module.as_str(), module) && str_eq(decls[i].name.as_str(), name) {
            proof {
                lemma_sig_prefix_found(t, module@, name@, i as int);
            }
            return Some(i);
        }
        i += 1;
    }
    proof {
        assert(t.subrange(0, t.len() as int) =~= t);
    }
    None
}

proof fn lemma_sig_prefix_found(t: Seq<HostSigModel>, module: Seq<char>, name: Seq<char>, i: int)
    requires
        0 <= i < t.len(),
        sig_index(t.subrange(0, i + 1), module, name) == Some(i),
    ensures
        sig_index(t, module, name) == Some(i),
    decreases t.len(),
{
    if t.len() > i + 1 {
        assert(t.drop_last().subrange(0, i + 1) =~= t.subrange(0, i + 1));
        lemma_sig_prefix_found(t.drop_last(), module, name, i);
    } else {
        assert(t.subrange(0, i + 1) =~= t);
    }
}

/// Enters into `decls` the host functions that a module declares, documented or
/// not: a declaration replaces an earlier one of the same module and name.
pub fn collect_host_decls(module_name: &str, program: &Program, decls: &mut Vec<HostDecl>)
    ensures
        decls_view(final(decls)@) == enter_decls(decls_view(old(decls)@), module_name@, program.statements@),
{
    let ghost all = program.statements@;
    let ghost start = decls_view(decls@);
    proof {
        assert(all.subrange(0, all.len() as int) =~= all);
    }
    let mut i: usize = 0;
    while i < program.statements.len()
        invariant
            all == program.statements@,
            i <= all.len(),
            enter_decls(start, module_name@, all) == enter_decls(decls_view(decls@), module_name@, all.subrange(i as int, all.len() as int)),
        decreases program.statements.len() - i,
    {
        let ghost rest = all.subrange(i as int, all.len() as int);
        let ghost before = decls_view(decls@);
        let ghost next = match rust_decl_of(all[i as int]) {
            Some(d) => enter_sig(before, declared_signature(module_name@, d)),
            None => before,
        };
        proof {
            assert(rest.drop_first() =~= all.subrange(i + 1, all.len() as int));
            assert(rest[0] == all[i as int]);
            assert(enter_decls(before, module_name@, rest) == enter_decls(next, module_name@, rest.drop_first()));
        }
        let decl: Option<&RustFnDecl> = match &program.statements[i] {
            Statement::RustFnDecl(d) => Some(d),
            Statement::Documented { item, .. } => match item {
                crate::grammar::AnnotatableItem::RustFnDecl(d) => Some(d),
                _ => None,
            },
            _ => None,
        };
        if let Some(d) = decl {
            let entry = HostDecl {
                module: String::from_str(module_name),
                name: String::from_str(crate::grammar::function_name(&d.name)),
                params: param_types(&d.params),
                ret: d.return_type.clone(),
                can_error: d.can_error.is_some(),
            };
            proof {
                assert(entry@ == declared_signature(module_name@, *d));
                assert(rust_decl_of(all[i as int]) == Some(*d));
            }
            match find_decl(decls, module_name, entry.name.as_str()) {
                Some(k) => {
                    proof {
                        assert(sig_index(before, module_name@, entry.name@) == Some(k as int));
                        assert(next == before.update(k as int, declared_signature(module_name@, *d)));
                    }
                    decls.set(k, entry);
                    proof {
                        assert(decls_view(decls@) =~= before.update(k as int, entry@));
                        assert(decls_view(decls@) == next);
                    }
                },
                None => {
                    decls.push(entry);
                    proof {
                        assert(decls_view(decls@) =~= before.push(entry@));
                        assert(decls_view(decls@) == next);
                    }
                },
            }
        } else {
            proof {
                assert(rust_decl_of(all[i as int]) is None);
                assert(decls_view(decls@) == next);
            }
        }
        assert(decls_view(decls@) == next);
        i += 1;
    }
}

/// The message of a host signature that does not match its registration.
pub open spec fn mismatch_text(key: Seq<char>, what: Seq<char>) -> Seq<char> {
    "Host signature mismatch for '"@ + key + "': "@ + what
}

/// What is wrong with a declared host signature, given the registrations: nothing,
/// a missing registration, or the first part of the signature that differs.
pub open spec fn signature_failure(specs: Seq<HostSigModel>, d: HostSigModel) -> Option<Seq<char>> {
    let key = d.module + "."@ + d.name;
    match sig_index(specs, d.module, d.name) {
        None => Some("Missing host registration for '"@ + key + "'"@),
        Some(i) => {
            let s = specs[i];
            if s.params.len() != d.params.len() {
                Some(mismatch_text(key, "parameter count differs"@))
            } else if s.params != d.params {
                Some(mismatch_text(key, "parameter types differ"@))
            } else if s.ret != d.ret {
                Some(mismatch_text(key, "return type differs"@))
            } else if s.can_error != d.can_error {
                Some(mismatch_text(key, "failable marker differs"@))
            } else {
                None
            }
        },
    }
}

/// The failure of the first declaration, in table order, that has one.
pub open spec fn first_failure(specs: Seq<HostSigModel>, decls: Seq<HostSigModel>) -> Option<Seq<char>>
    decreases decls.len(),
{
    if decls.len() == 0 {
        None
    } else {
        match signature_failure(specs, decls[0]) {
            Some(m) => Some(m),
            None => first_failure(specs, decls.drop_first()),
        }
    }
}

/// The position of the first registration under the given module and name.
fn find_spec(specs: &Vec<HostFnSpec>, module: &str, name: &str) -> (r: Option<usize>)
    ensures
        r matches Some(i) ==> i < specs@.len() && sig_index(specs_view(specs@), module@, name@) == Some(i as int),
        r is None ==> sig_index(specs_view(specs@), module@, name@) is None,
{
    let ghost t = specs_view(specs@);
    let mut i: usize = 0;
    while i < specs.len()
        invariant
            t == specs_view(specs@),
            i <= specs@.len(),
            sig_index(t.subrange(0, i as int), module@, name@) is None,
        decreases specs.len() - i,
    {
        proof {
            lemma_sig_index_prefix(t, module@, name@, i as int);
        }
        if str_eq(specs[i].module.as_str(), module) && str_eq(specs[i].name.as_str(), name) {
            proof {
                lemma_sig_prefix_found(t, module@, name@, i as int);
            }
            return Some(i);
        }
        i += 1;
    }
    proof {
        assert(t.subrange(0, t.len() as int) =~= t);
    }
    None
}

/// `"Host signature mismatch for 'm.n': " + what`.
fn mismatch_message(module: &str, name: &str, what: &str) -> (s: String)
    ensures
        s@ == mismatch_text(module@ + "."@ + name@, what@),
{
    let mut s = String::from_str("Host signature mismatch for '");
    push_str(&mut s, module);
    push_str(&mut s, ".");
    push_str(&mut s, name);
    push_str(&mut s, "': ");
    push_str(&mut s, what);
    proof {
        assert(s@ =~= mismatch_text(module@ + "."@ + name@, what@));
    }
    s
}

/// The failure of one declaration against the registrations.
fn check_signature(specs: &Vec<HostFnSpec>, d: &HostDecl) -> (r: Option<String>)
    ensures
        match r {
            Some(m) => signature_failure(specs_view(specs@), d@) == Some(m@),
            None => signature_failure(specs_view(specs@), d@) is None,
        },
{
    match find_spec(specs, d.module.as_str(), d.name.as_str()) {
        None => {
            let mut s = String::from_str("Missing host registration for '");
            push_str(&mut s, d.module.as_str());
            push_str(&mut s, ".");
            push_str(&mut s, d.name.as_str());
            push_str(&mut s, "'");
            proof {
                assert(s@ =~= "Missing host registration for '"@ + (d.module@ + "."@ + d.name@) + "'"@);
            }
            Some(s)
        },
        Some(i) => {
            let spec = &specs[i];
            proof {
                assert(specs_view(specs@)[i as int] == spec@);
            }
            if spec.params.len() != d.params.len() {
                proof {
                    assert(param_models(spec.params@).len() != param_models(d.params@).len());
                }
                Some(mismatch_message(d.module.as_str(), d.name.as_str(), "parameter count differs"))
            } else if !same_kiro_types(&spec.params, &d.params) {
                Some(mismatch_message(d.module.as_str(), d.name.as_str(), "parameter types differ"))
            } else if !same_kiro_type(&spec.ret, &d.ret) {
                Some(mismatch_message(d.module.as_str(), d.name.as_str(), "return type differs"))
            } else if spec.can_error != d.can_error {
                Some(mismatch_message(d.module.as_str(), d.name.as_str(), "failable marker differs"))
            } else {
                None
            }
        },
    }
}

/// The engine: where scripts are found, how they run by default, and the host
/// functions registered with it.
pub struct Engine {
    pub base_dir: String,
    pub default_options: ExecOptions,
    /// The loader the embedder gave; none where modules are read from the file system.
    pub module_loader: Option<std::sync::Arc<dyn ModuleLoader + 'static>>,
    pub host_specs: Vec<HostFnSpec>,
}

/// The settings an engine is built from.
pub struct EngineBuilder {
    pub base_dir: String,
    pub default_options: ExecOptions,
    pub module_loader: Option<std::sync::Arc<dyn ModuleLoader + 'static>>,
}

impl EngineBuilder {
    /// A builder for an engine that finds scripts under `base_dir` and runs them
    /// with the default options.
    pub fn new(base_dir: &str) -> (b: EngineBuilder)
        ensures
            b.base_dir@ == base_dir@,
            b.default_options == default_exec_options(),
            b.module_loader is None,
    {
        EngineBuilder { base_dir: String::from_str(base_dir), default_options: ExecOptions::default(), module_loader: None }
    }

    pub fn base_dir(self, base_dir: &str) -> (b: EngineBuilder)
        ensures
            b.base_dir@ == base_dir@,
            b.default_options == self.default_options,
            b.module_loader == self.module_loader,
    {
        EngineBuilder { base_dir: String::from_str(base_dir), default_options: self.default_options, module_loader: self.module_loader }
    }

    pub fn default_options(self, options: ExecOptions) -> (b: EngineBuilder)
        ensures
            b.base_dir@ == self.base_dir@,
            b.default_options == options,
            b.module_loader == self.module_loader,
    {
        EngineBuilder { base_dir: self.base_dir, default_options: options, module_loader: self.module_loader }
    }

    /// Modules are found through `loader` rather than read from the file system
    /// (`None` goes back to the file system).
    pub fn module_loader(self, loader: Option<std::sync::Arc<dyn ModuleLoader + 'static>>) -> (b: EngineBuilder)
        ensures
            b.base_dir@ == self.base_dir@,
            b.default_options == self.default_options,
            b.module_loader == loader,
    {
        EngineBuilder { base_dir: self.base_dir, default_options: self.default_options, module_loader: loader }
    }

    /// The engine, with no host function registered.
    pub fn build(self) -> (e: Engine)
        ensures
            e.base_dir@ == self.base_dir@,
            e.default_options == self.default_options,
            e.module_loader == self.module_loader,
            e.host_specs@.len() == 0,
    {
        Engine {
            base_dir: self.base_dir,
            default_options: self.default_options,
            module_loader: self.module_loader,
            host_specs: Vec::new(),
        }
    }
}

impl Engine {
    pub fn builder(base_dir: &str) -> (b: EngineBuilder)
        ensures
            b.base_dir@ == base_dir@,
            b.default_options == default_exec_options(),
    {
        EngineBuilder::new(base_dir)
    }

    /// Registers a host function's signature; a second registration under the same
    /// module and name is refused and changes nothing.
    pub fn register_host_fn(&mut self, spec: HostFnSpec) -> (r: Result<(), EngineError>)
        ensures
            final(self).base_dir == old(self).base_dir,
            final(self).default_options == old(self).default_options,
            final(self).module_loader == old(self).module_loader,
            match r {
                Ok(_) => sig_index(specs_view(old(self).host_specs@), spec.module@, spec.name@) is None
                    && specs_view(final(self).host_specs@) == specs_view(old(self).host_specs@).push(spec@),
                Err(e) => {
                    &&& sig_index(specs_view(old(self).host_specs@), spec.module@, spec.name@) is Some
                    &&& final(self).host_specs@ == old(self).host_specs@
                    &&& e matches EngineError::HostRegistration(m)
                    &&& m@ == "Host function '"@ + spec.module@ + "."@ + spec.name@ + "' is already registered"@
                },
            },
    {
        if let Some(_) = find_spec(&self.host_specs, spec.module.as_str(), spec.name.as_str()) {
            let mut m = String::from_str("Host function '");
            push_str(&mut m, spec.module.as_str());
            push_str(&mut m, ".");
            push_str(&mut m, spec.name.as_str());
            push_str(&mut m, "' is already registered");
            return Err(EngineError::HostRegistration(m));
        }
        let ghost before = specs_view(self.host_specs@);
        let ghost added = spec@;
        self.host_specs.push(spec);
        proof {
            assert(specs_view(self.host_specs@) =~= before.push(added));
        }
        Ok(())
    }

    /// The options a run uses: the engine's own where the caller passes the defaults.
    pub fn resolve_options(&self, options: ExecOptions) -> (r: ExecOptions)
        ensures
            r == (if options == default_exec_options() { self.default_options } else { options }),
    {
        if options == ExecOptions::default() {
            self.default_options
        } else {
            options
        }
    }

    /// Checks the host functions a script declares against the registrations. Only
    /// a run that executes host calls needs them; it fails on the first declaration,
    /// in table order, that is unregistered or registered with another signature.
    pub fn validate_host_contracts(&self, decls: &Vec<HostDecl>, options: &ExecOptions) -> (r: Result<(), EngineError>)
        ensures
            options.host_mode != HostMode::Execute ==> r is Ok,
            options.host_mode == HostMode::Execute ==> match first_failure(specs_view(self.host_specs@), decls_view(decls@)) {
                None => r is Ok,
                Some(m) => r matches Err(EngineError::HostRegistration(s)) && s@ == m,
            },
    {
        if options.host_mode != HostMode::Execute {
            return Ok(());
        }
        let ghost specs = specs_view(self.host_specs@);
        let ghost all = decls_view(decls@);
        proof {
            assert(all.subrange(0, all.len() as int) =~= all);
        }
        let mut i: usize = 0;
        while i < decls.len()
            invariant
                options.host_mode == HostMode::Execute,
                specs == specs_view(self.host_specs@),
                all == decls_view(decls@),
                i <= all.len(),
                first_failure(specs, all) == first_failure(specs, all.subrange(i as int, all.len() as int)),
            decreases decls.len() - i,
        {
            let ghost rest = all.subrange(i as int, all.len() as int);
            proof {
                assert(rest.drop_first() =~= all.subrange(i + 1, all.len() as int));
                assert(rest[0] == decls@[i as int]@);
            }
            if let Some(m) = check_signature(&self.host_specs, &decls[i]) {
                return Err(EngineError::HostRegistration(m));
            }
            i += 1;
        }
        Ok(())
    }
}

/// A program compiled for running: the root module's functions by name, its
/// `main`, the lowered program and the host functions the program declares.
pub struct CompiledScript {
    pub module_name: String,
    pub source: String,
    pub base_dir: String,
    pub eir_program: EirProgram,
    pub functions: Vec<(String, FunctionId)>,
    pub main: Option<FunctionId>,
    pub host_decls: Vec<HostDecl>,
}

/// The first module of the given name.
pub open spec fn module_index(ms: Seq<HirModule>, name: Seq<char>) -> Option<int>
    decreases ms.len(),
{
    if ms.len() == 0 {
        None
    } else {
        match module_index(ms.drop_last(), name) {
            Some(i) => Some(i),
            None => if ms.last().name@ == name { Some(ms.len() - 1) } else { None },
        }
    }
}

/// The last function of the given name: a later definition hides an earlier one.
pub open spec fn last_function(fs: Seq<HirFunction>, name: Seq<char>) -> Option<FunctionId>
    decreases fs.len(),
{
    if fs.len() == 0 {
        None
    } else if fs.last().name@ == name {
        Some(fs.last().id)
    } else {
        last_function(fs.drop_last(), name)
    }
}

/// A statement that only calls `main`.
pub open spec fn is_main_call(s: HirStmt, main: FunctionId) -> bool {
    &&& s.kind matches HirStmtKind::Expr(e)
    &&& e.kind matches HirExprKind::Call { kind, .. }
    &&& kind matches HirCallKind::Direct(f)
    &&& f == main
}

/// The statements, in order, without those that only call `main`.
pub open spec fn without_main_calls(s: Seq<HirStmt>, main: FunctionId) -> Seq<HirStmt>
    decreases s.len(),
{
    if s.len() == 0 {
        s
    } else if is_main_call(s.last(), main) {
        without_main_calls(s.drop_last(), main)
    } else {
        without_main_calls(s.drop_last(), main).push(s.last())
    }
}

/// `h` is `hir` with the module at `k` stripped of its calls of `main`, if there is a `main`.
pub open spec fn stripped_program(h: HirProgram, hir: HirProgram, k: int, main: Option<FunctionId>) -> bool {
    match main {
        None => h == hir,
        Some(m) => {
            &&& h.types == hir.types
            &&& h.symbols == hir.symbols
            &&& h.modules@.len() == hir.modules@.len()
            &&& forall|j: int| 0 <= j < h.modules@.len() && j != k ==> h.modules@[j] == hir.modules@[j]
            &&& h.modules@[k].id == hir.modules@[k].id
            &&& h.modules@[k].name == hir.modules@[k].name
            &&& h.modules@[k].functions == hir.modules@[k].functions
            &&& h.modules@[k].host_functions == hir.modules@[k].host_functions
            &&& h.modules@[k].structs == hir.modules@[k].structs
            &&& h.modules@[k].statements@ == without_main_calls(hir.modules@[k].statements@, m)
        },
    }
}

/// `le` is an error that lowering `h` can give: the lowering's own error, or the
/// verifier's findings on the lowered program.
pub open spec fn lowering_failed(h: HirProgram, le: crate::eir::lower::LowerErrorModel) -> bool {
    match spec_lower_program(h) {
        Err(x) => le == x,
        Ok(m) => le.kind matches LowerErrorKindModel::Verification(es) && es.len() > 0 && le.anchor == es[0].anchor
            && exists|p: EirProgram| program_model(p) == m && program_fits(p) && !program_ok(p) && es == program_findings(p),
    }
}

/// The table after the host declarations of each module are entered, module by module.
pub open spec fn enter_module_decls(t: Seq<HostSigModel>, ms: Seq<(String, Program)>) -> Seq<HostSigModel>
    decreases ms.len(),
{
    if ms.len() == 0 {
        t
    } else {
        enter_module_decls(enter_decls(t, ms[0].0@, ms[0].1.statements@), ms.drop_first())
    }
}

/// The names and identifiers of functions, in order.
pub open spec fn function_entries(fs: Seq<HirFunction>) -> Seq<(Seq<char>, FunctionId)> {
    fs.map_values(|f: HirFunction| (f.name@, f.id))
}

pub open spec fn entries_view(v: Seq<(String, FunctionId)>) -> Seq<(Seq<char>, FunctionId)> {
    v.map_values(|e: (String, FunctionId)| (e.0@, e.1))
}

fn find_module(ms: &Vec<HirModule>, name: &str) -> (r: Option<usize>)
    ensures
        r matches Some(i) ==> i < ms@.len() && module_index(ms@, name@) == Some(i as int),
        r is None ==> module_index(ms@, name@) is None,
{
    let mut i: usize = 0;
    while i < ms.len()
        invariant
            i <= ms@.len(),
            module_index(ms@.subrange(0, i as int), name@) is None,
        decreases ms.len() - i,
    {
        proof {
            assert(ms@.subrange(0, i + 1).drop_last() =~= ms@.subrange(0, i as int));
        }
        if str_eq(ms[i].name.as_str(), name) {
            proof {
                lemma_module_prefix_found(ms@, name@, i as int);
            }
            return Some(i);
        }
        i += 1;
    }
    proof {
        assert(ms@.subrange(0, ms@.len() as int) =~= ms@);
    }
    None
}

proof fn lemma_module_prefix_found(ms: Seq<HirModule>, name: Seq<char>, i: int)
    requires
        0 <= i < ms.len(),
        module_index(ms.subrange(0, i + 1), name) == Some(i),
    ensures
        module_index(ms, name) == Some(i),
    decreases ms.len(),
{
    if ms.len() > i + 1 {
        assert(ms.drop_last().subrange(0, i + 1) =~= ms.subrange(0, i + 1));
        lemma_module_prefix_found(ms.drop_last(), name, i);
    } else {
        assert(ms.subrange(0, i + 1) =~= ms);
    }
}

fn function_table(fs: &Vec<HirFunction>) -> (r: Vec<(String, FunctionId)>)
    ensures
        entries_view(r@) == function_entries(fs@),
{
    let mut r: Vec<(String, FunctionId)> = Vec::new();
    let mut i: usize = 0;
    while i < fs.len()
        invariant
            i <= fs@.len(),
            entries_view(r@) == function_entries(fs@.subrange(0, i as int)),
        decreases fs.len() - i,
    {
        let ghost before = r@;
        r.push((String::from_str(fs[i].name.as_str()), fs[i].id));
        proof {
            let f = fs@[i as int];
            assert(entries_view(r@) =~= entries_view(before).push((f.name@, f.id)));
            assert(fs@.subrange(0, i + 1) =~= fs@.subrange(0, i as int).push(f));
            assert(function_entries(fs@.subrange(0, i + 1)) =~= function_entries(fs@.subrange(0, i as int)).push((f.name@, f.id)));
        }
        i += 1;
    }
    proof {
        assert(fs@.subrange(0, fs@.len() as int) =~= fs@);
    }
    r
}

fn main_function(fs: &Vec<HirFunction>) -> (r: Option<FunctionId>)
    ensures
        r == last_function(fs@, "main"@),
{
    let mut i: usize = fs.len();
    proof {
        assert(fs@.subrange(0, fs@.len() as int) =~= fs@);
    }
    while i > 0
        invariant
            i <= fs@.len(),
            last_function(fs@, "main"@) == last_function(fs@.subrange(0, i as int), "main"@),
        decreases i,
    {
        proof {
            assert(fs@.subrange(0, i as int).drop_last() =~= fs@.subrange(0, i - 1));
        }
        if str_eq(fs[i - 1].name.as_str(), "main") {
            return Some(fs[i - 1].id);
        }
        i -= 1;
    }
    None
}

fn call_of_main(s: &HirStmt, main: FunctionId) -> (r: bool)
    ensures
        r == is_main_call(*s, main),
{
    match &s.kind {
        HirStmtKind::Expr(e) => match &e.kind {
            HirExprKind::Call { kind, .. } => match kind {
                HirCallKind::Direct(f) => *f == main,
                _ => false,
            },
            _ => false,
        },
        _ => false,
    }
}

/// The statements without those that only call `main`.
fn remove_main_calls(stmts: Vec<HirStmt>, main: FunctionId) -> (r: Vec<HirStmt>)
    ensures
        r@ == without_main_calls(stmts@, main),
{
    let ghost all = stmts@;
    let mut rest = stmts;
    let mut kept: Vec<HirStmt> = Vec::new();
    let ghost mut taken: int = 0;
    while rest.len() > 0
        invariant
            0 <= taken <= all.len(),
            rest@ == all.subrange(taken, all.len() as int),
            kept@ == without_main_calls(all.subrange(0, taken), main),
        decreases rest.len(),
    {
        let s = rest.remove(0);
        proof {
            assert(all.subrange(0, taken + 1).drop_last() =~= all.subrange(0, taken));
            assert(all.subrange(0, taken + 1).last() == s);
            assert(rest@ =~= all.subrange(taken + 1, all.len() as int));
        }
        if !call_of_main(&s, main) {
            kept.push(s);
        }
        proof {
            taken = taken + 1;
        }
    }
    proof {
        assert(all.subrange(0, taken) =~= all);
    }
    kept
}

impl Engine {
    /// Compiles an analysed program for running. `root_module` names the module the
    /// script is; the calls of its `main` at the top level are left out, as a run
    /// calls `main` itself. `modules` are the analysed modules, whose host function
    /// declarations the script records.
    pub fn compile_module(
        &self,
        module_name: &str,
        source: &str,
        root_module: &str,
        hir: HirProgram,
        modules: &Vec<(String, Program)>,
    ) -> (r: Result<CompiledScript, EngineError>)
        ensures
            module_index(hir.modules@, root_module@) is None ==> (r matches Err(EngineError::Parse(m))
                && m@ == "root HIR module was not found"@),
            module_index(hir.modules@, root_module@) matches Some(k) ==> {
                let root = hir.modules@[k];
                let main = last_function(root.functions@, "main"@);
                exists|h: HirProgram| #[trigger] stripped_program(h, hir, k, main) && match r {
                    Ok(script) => {
                        &&& spec_lower_program(h) == Ok::<ProgramModel, crate::eir::lower::LowerErrorModel>(program_model(script.eir_program))
                        &&& program_ok(script.eir_program)
                        &&& script.module_name@ == module_name@
                        &&& script.source@ == source@
                        &&& script.base_dir@ == self.base_dir@
                        &&& entries_view(script.functions@) == function_entries(root.functions@)
                        &&& script.main == main
                        &&& decls_view(script.host_decls@) == enter_module_decls(Seq::empty(), modules@)
                    },
                    Err(e) => (e matches EngineError::Parse(m) && exists|le: crate::eir::lower::LowerErrorModel|
                        lowering_failed(h, le) && m@ == "EIR lowering failed: "@ + lower_error_text(le)),
                }
            },
    {
        let k = match find_module(&hir.modules, root_module) {
            Some(k) => k,
            None => return Err(EngineError::Parse(String::from_str("root HIR module was not found"))),
        };
        let ghost given = hir;
        let functions = function_table(&hir.modules[k].functions);
        let main = main_function(&hir.modules[k].functions);
        let mut hir = hir;
        if let Some(m) = main {
            let HirModule { id, name, statements, functions, host_functions, structs } = hir.modules.remove(k);
            let module = HirModule { id, name, statements: remove_main_calls(statements, m), functions, host_functions, structs };
            let ghost before = hir.modules@;
            hir.modules.insert(k, module);
            proof {
                assert(hir.modules@.len() == given.modules@.len());
                assert forall|j: int| 0 <= j < hir.modules@.len() && j != k implies hir.modules@[j] == given.modules@[j] by {
                    if j < k {
                        assert(hir.modules@[j] == before[j]);
                    } else {
                        assert(hir.modules@[j] == before[j - 1]);
                    }
                }
                assert(stripped_program(hir, given, k as int, main));
            }
        }
        proof {
            assert(stripped_program(hir, given, k as int, main));
        }
        let eir_program = match lower_program(&hir) {
            Ok(p) => p,
            Err(e) => {
                let mut m = String::from_str("EIR lowering failed: ");
                let text = e.message();
                push_str(&mut m, text.as_str());
                proof {
                    assert(lowering_failed(hir, e@));
                }
                return Err(EngineError::Parse(m));
            },
        };
        let mut host_decls: Vec<HostDecl> = Vec::new();
        let mut i: usize = 0;
        proof {
            assert(modules@.subrange(0, modules@.len() as int) =~= modules@);
            assert(decls_view(host_decls@) =~= Seq::<HostSigModel>::empty());
        }
        while i < modules.len()
            invariant
                i <= modules@.len(),
                enter_module_decls(Seq::empty(), modules@) == enter_module_decls(decls_view(host_decls@), modules@.subrange(i as int, modules@.len() as int)),
            decreases modules.len() - i,
        {
            let ghost rest = modules@.subrange(i as int, modules@.len() as int);
            proof {
                assert(rest.drop_first() =~= modules@.subrange(i + 1, modules@.len() as int));
                assert(rest[0] == modules@[i as int]);
            }
            collect_host_decls(modules[i].0.as_str(), &modules[i].1, &mut host_decls);
            i += 1;
        }
        Ok(CompiledScript {
            module_name: String::from_str(module_name),
            source: String::from_str(source),
            base_dir: self.base_dir.clone(),
            eir_program,
            functions,
            main,
            host_decls,
        })
    }
}

/// A script whose every host declaration is registered under the same signature
/// passes the check of host contracts.
pub proof fn lemma_registered_declarations_pass(specs: Seq<HostSigModel>, decls: Seq<HostSigModel>)
    requires
        forall|k: int| 0 <= k < decls.len() ==> (sig_index(specs, (#[trigger] decls[k]).module, decls[k].name) matches Some(i)
            && specs[i] == decls[k]),
    ensures
        first_failure(specs, decls) is None,
    decreases decls.len(),
{
    if decls.len() > 0 {
        let d = decls[0];
        assert(sig_index(specs, d.module, d.name) matches Some(i) && specs[i] == d);
        assert(signature_failure(specs, d) is None);
        let rest = decls.drop_first();
        assert forall|k: int| 0 <= k < rest.len() implies (sig_index(specs, (#[trigger] rest[k]).module, rest[k].name) matches Some(i)
            && specs[i] == rest[k]) by {
            assert(rest[k] == decls[k + 1]);
        }
        lemma_registered_declarations_pass(specs, rest);
    }
}

/// The function of the given name in a table of functions: the last entry under
/// that name, as a later definition hides an earlier one.
pub open spec fn last_entry(t: Seq<(Seq<char>, FunctionId)>, name: Seq<char>) -> Option<FunctionId>
    decreases t.len(),
{
    if t.len() == 0 {
        None
    } else if t.last().0 == name {
        Some(t.last().1)
    } else {
        last_entry(t.drop_last(), name)
    }
}

impl CompiledScript {
    /// The function that a call of the script's function `fn_name` runs, or the
    /// error of a call of a function the script does not define.
    pub fn function_to_call(&self, fn_name: &str) -> (r: Result<FunctionId, EngineError>)
        ensures
            match last_entry(entries_view(self.functions@), fn_name@) {
                Some(id) => r matches Ok(x) && x == id,
                None => r matches Err(EngineError::Runtime(m))
                    && m@ == "Function '"@ + self.module_name@ + "."@ + fn_name@ + "' not found"@,
            },
    {
        let ghost t = entries_view(self.functions@);
        let mut i: usize = self.functions.len();
        proof {
            assert(t.subrange(0, t.len() as int) =~= t);
        }
        while i > 0
            invariant
                t == entries_view(self.functions@),
                i <= t.len(),
                last_entry(t, fn_name@) == last_entry(t.subrange(0, i as int), fn_name@),
            decreases i,
        {
            proof {
                assert(t.subrange(0, i as int).drop_last() =~= t.subrange(0, i - 1));
            }
            if str_eq(self.functions[i - 1].0.as_str(), fn_name) {
                return Ok(self.functions[i - 1].1);
            }
            i -= 1;
        }
        let mut m = String::from_str("Function '");
        push_str(&mut m, self.module_name.as_str());
        push_str(&mut m, ".");
        push_str(&mut m, fn_name);
        push_str(&mut m, "' not found");
        Err(EngineError::Runtime(m))
    }
}

} // verus!
