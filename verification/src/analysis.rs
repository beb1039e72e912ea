//! What the analysis of a module reads from its statements before it loads other
//! modules: the modules it imports and the host functions it declares, and the
//! diagnostics for an imported module that is missing and for missing host glue.
use vstd::prelude::*;
use vstd::string::StringSliceAdditionalSpecFns;

use crate::errors::diagnostic::{byte_span_located, text_of};
use crate::errors::{ErrorCode, ErrorPhase, KiroError, SourceSpan};
use crate::grammar::{AnnotatableItem, AstSpan, Program, RustFnDecl, Statement};
use crate::text::{
    lemma_text_less_irreflexive, lemma_text_less_total, lemma_text_less_trans, lemma_text_less_trans_not, push_str,
    text_less, text_less_exec,
};

verus! {

/// An `import` statement: the module's name and where it is written.
#[derive(Debug)]
pub struct ImportInfo {
    pub name: String,
    pub span: AstSpan,
}

/// A `rust fn` declaration: the function's name and the span of the declaration.
#[derive(Debug)]
pub struct RustDeclInfo {
    pub name: String,
    pub span: AstSpan,
}

/// The import a statement makes, if it is an `import`.
pub open spec fn import_of(s: Statement) -> Option<(Seq<char>, AstSpan)> {
    match s {
        Statement::Import { module_name, .. } => Some((module_name.value.value@, module_name.span)),
        _ => None,
    }
}

/// The imports of a list of statements, in order.
pub open spec fn imports_of(stmts: Seq<Statement>) -> Seq<(Seq<char>, AstSpan)>
    decreases stmts.len(),
{
    if stmts.len() == 0 {
        Seq::empty()
    } else {
        match import_of(stmts.last()) {
            Some(i) => imports_of(stmts.drop_last()).push(i),
            None => imports_of(stmts.drop_last()),
        }
    }
}

/// The declaration of a host function a statement makes, documented or not.
pub open spec fn rust_decl_of(s: Statement) -> Option<RustFnDecl> {
    match s {
        Statement::RustFnDecl(d) => Some(d),
        Statement::Documented { item, .. } => match item {
            AnnotatableItem::RustFnDecl(d) => Some(d),
            _ => None,
        },
        _ => None,
    }
}

/// A host function's name and the span from its `rust` keyword to its return type.
pub open spec fn rust_decl_info(d: RustFnDecl) -> (Seq<char>, AstSpan) {
    (d.name.value.value@, (d._rust_kw.span.0, d.name.span.1))
}

/// The host function declarations of a list of statements, in order.
pub open spec fn rust_decls_of(stmts: Seq<Statement>) -> Seq<(Seq<char>, AstSpan)>
    decreases stmts.len(),
{
    if stmts.len() == 0 {
        Seq::empty()
    } else {
        match rust_decl_of(stmts.last()) {
            Some(d) => rust_decls_of(stmts.drop_last()).push(rust_decl_info(d)),
            None => rust_decls_of(stmts.drop_last()),
        }
    }
}

pub open spec fn import_infos(v: Seq<ImportInfo>) -> Seq<(Seq<char>, AstSpan)> {
    v.map_values(|i: ImportInfo| (i.name@, i.span))
}

pub open spec fn decl_infos(v: Seq<RustDeclInfo>) -> Seq<(Seq<char>, AstSpan)> {
    v.map_values(|i: RustDeclInfo| (i.name@, i.span))
}

/// The modules a program imports, in the order of its statements.
pub fn imports(program: &Program) -> (r: Vec<ImportInfo>)
    ensures
        import_infos(r@) == imports_of(program.statements@),
{
    let mut r: Vec<ImportInfo> = Vec::new();
    let mut i: usize = 0;
    while i < program.statements.len()
        invariant
            i <= program.statements@.len(),
            import_infos(r@) == imports_of(program.statements@.subrange(0, i as int)),
        decreases program.statements.len() - i,
    {
        proof {
            assert(program.statements@.subrange(0, i + 1).drop_last() =~= program.statements@.subrange(0, i as int));
        }
        let ghost before = r@;
        if let Statement::Import { module_name, .. } = &program.statements[i] {
            let info = ImportInfo { name: String::from_str(crate::grammar::variable_name(module_name)), span: crate::grammar::variable_span(module_name) };
            r.push(info);
            proof {
                assert(import_infos(r@) =~= import_infos(before).push((info.name@, info.span)));
            }
        }
        i += 1;
    }
    proof {
        assert(program.statements@.subrange(0, program.statements@.len() as int) =~= program.statements@);
    }
    r
}

/// The host functions a program declares, in the order of its statements.
pub fn rust_decl_infos(program: &Program) -> (r: Vec<RustDeclInfo>)
    ensures
        decl_infos(r@) == rust_decls_of(program.statements@),
{
    let mut r: Vec<RustDeclInfo> = Vec::new();
    let mut i: usize = 0;
    while i < program.statements.len()
        invariant
            i <= program.statements@.len(),
            decl_infos(r@) == rust_decls_of(program.statements@.subrange(0, i as int)),
        decreases program.statements.len() - i,
    {
        proof {
            assert(program.statements@.subrange(0, i + 1).drop_last() =~= program.statements@.subrange(0, i as int));
        }
        let ghost before = r@;
        let decl: Option<&RustFnDecl> = match &program.statements[i] {
            Statement::RustFnDecl(d) => Some(d),
            Statement::Documented { item, .. } => match item {
                AnnotatableItem::RustFnDecl(d) => Some(d),
                _ => None,
            },
            _ => None,
        };
        if let Some(d) = decl {
            let info = RustDeclInfo { name: String::from_str(crate::grammar::function_name(&d.name)), span: crate::grammar::rust_fn_decl_span(d) };
            r.push(info);
            proof {
                assert(decl_infos(r@) =~= decl_infos(before).push((info.name@, info.span)));
            }
        }
        i += 1;
    }
    proof {
        assert(program.statements@.subrange(0, program.statements@.len() as int) =~= program.statements@);
    }
    r
}

/// The declaration reported first when glue is missing: the first of those whose
/// names come first in character order.
pub fn first_by_name(decls: &Vec<RustDeclInfo>) -> (r: Option<usize>)
    ensures
        match r {
            Some(k) => k < decls@.len()
                && (forall|j: int| 0 <= j < decls@.len() ==> !text_less(#[trigger] decls@[j].name@, decls@[k as int].name@))
                && (forall|j: int| 0 <= j < k ==> text_less(decls@[k as int].name@, #[trigger] decls@[j].name@)),
            None => decls@.len() == 0,
        },
{
    if decls.len() == 0 {
        return None;
    }
    let mut best: usize = 0;
    let mut i: usize = 1;
    proof {
        lemma_text_less_irreflexive(decls@[0].name@);
    }
    while i < decls.len()
        invariant
            1 <= i <= decls@.len(),
            best < i,
            forall|j: int| 0 <= j < i ==> !text_less(#[trigger] decls@[j].name@, decls@[best as int].name@),
            forall|j: int| 0 <= j < best ==> text_less(decls@[best as int].name@, #[trigger] decls@[j].name@),
        decreases decls.len() - i,
    {
        if text_less_exec(decls[i].name.as_str(), decls[best].name.as_str()) {
            proof {
                assert forall|j: int| 0 <= j < i + 1 implies !text_less(#[trigger] decls@[j].name@, decls@[i as int].name@) by {
                    if j < i {
                        lemma_text_less_trans_not(decls@[j].name@, decls@[i as int].name@, decls@[best as int].name@);
                    } else {
                        lemma_text_less_irreflexive(decls@[i as int].name@);
                    }
                }
                assert forall|j: int| 0 <= j < i implies text_less(decls@[i as int].name@, #[trigger] decls@[j].name@) by {
                    lemma_text_less_total(decls@[j].name@, decls@[best as int].name@);
                    if decls@[j].name@ == decls@[best as int].name@ {
                    } else {
                        lemma_text_less_trans(decls@[i as int].name@, decls@[best as int].name@, decls@[j].name@);
                    }
                }
            }
            best = i;
        }
        i += 1;
    }
    Some(best)
}

/// The message of a missing host glue error.
pub open spec fn missing_glue_message(module: Seq<char>, function: Seq<char>) -> Seq<char> {
    "Missing Rust glue for host function '"@ + module + "."@ + function + "'."@
}

/// The help of a missing host glue error: the file to add and the signature it needs.
pub open spec fn missing_glue_help(glue_file: Seq<char>, function: Seq<char>) -> Seq<char> {
    "add '"@ + glue_file + "' with `pub async fn "@ + function + "(args: Vec<RuntimeVal>) -> HostResult`"@
}

/// A module declares a host function whose glue file is missing; the error points at
/// the declaration in the module's file.
pub fn missing_host_glue_error(
    module: &str,
    source: &str,
    function: &str,
    span: AstSpan,
    module_file: &str,
    glue_file: &str,
) -> (r: KiroError)
    requires
        source.spec_bytes().len() < usize::MAX,
    ensures
        r.code == ErrorCode::MissingHostGlue,
        r.phase == ErrorPhase::Compile,
        r.message@ == missing_glue_message(module@, function@),
        text_of(r.help) == Some(missing_glue_help(glue_file@, function@)),
        r.suggestion is None,
        byte_span_located(r, module_file@, source@, SourceSpan { start: span.0, end: span.1 }, "missing glue"@),
{
    let mut message = String::from_str("Missing Rust glue for host function '");
    push_str(&mut message, module);
    push_str(&mut message, ".");
    push_str(&mut message, function);
    push_str(&mut message, "'.");
    let mut help = String::from_str("add '");
    push_str(&mut help, glue_file);
    push_str(&mut help, "' with `pub async fn ");
    push_str(&mut help, function);
    push_str(&mut help, "(args: Vec<RuntimeVal>) -> HostResult`");
    KiroError::new(ErrorCode::MissingHostGlue, ErrorPhase::Compile, message.as_str())
        .with_file(module_file)
        .with_help(help.as_str())
        .with_byte_span(module_file, source, SourceSpan::new(span.0, span.1), "missing glue")
}

/// An imported module that cannot be found; the error points at the import.
pub fn missing_module_error(name: &str, file: &str, source: &str, span: AstSpan, importer: &str) -> (r: KiroError)
    requires
        source.spec_bytes().len() < usize::MAX,
    ensures
        r.code == ErrorCode::ImportError,
        r.phase == ErrorPhase::Compile,
        r.message@ == "Module '"@ + name@ + "' not found."@,
        text_of(r.help) == Some("add '"@ + name@ + ".kiro' beside '"@ + importer@ + "'"@),
        r.suggestion is None,
        byte_span_located(r, file@, source@, SourceSpan { start: span.0, end: span.1 }, "missing module"@),
{
    let mut message = String::from_str("Module '");
    push_str(&mut message, name);
    push_str(&mut message, "' not found.");
    let mut help = String::from_str("add '");
    push_str(&mut help, name);
    push_str(&mut help, ".kiro' beside '");
    push_str(&mut help, importer);
    push_str(&mut help, "'");
    KiroError::new(ErrorCode::ImportError, ErrorPhase::Compile, message.as_str())
        .with_byte_span(file, source, SourceSpan::new(span.0, span.1), "missing module")
        .with_help(help.as_str())
}

} // verus!
