use kiro_lang::analysis::{first_by_name, imports, missing_host_glue_error, missing_module_error, rust_decl_infos, RustDeclInfo};
use kiro_lang::errors::ErrorCode;
use kiro_lang::grammar::{
    AnnotatableItem, DocComment, FunctionNameVal, KiroType, Program, RustFnDecl, Spanned, Statement, VariableVal,
};

fn import(name: &str, start: usize) -> Statement {
    Statement::Import {
        _import: Spanned { value: (), span: (start - 7, start - 1) },
        module_name: Spanned { value: VariableVal { value: name.to_string() }, span: (start, start + name.len()) },
    }
}

fn host(name: &str, start: usize) -> RustFnDecl {
    RustFnDecl {
        pure_kw: None,
        _rust_kw: Spanned { value: (), span: (start, start + 4) },
        _fn: Spanned { value: (), span: (start + 5, start + 7) },
        name: Spanned { value: FunctionNameVal { value: name.to_string() }, span: (start + 8, start + 8 + name.len()) },
        params: vec![],
        return_type: KiroType::Void,
        can_error: None,
    }
}

fn info(name: &str) -> RustDeclInfo {
    RustDeclInfo { name: name.to_string(), span: (0, 1) }
}

#[test]
fn imports_are_listed_in_statement_order() {
    let program = Program {
        statements: vec![
            import("net", 7),
            Statement::RustFnDecl(host("fetch", 20)),
            import("fs", 47),
        ],
    };
    let found = imports(&program);
    assert_eq!(found.len(), 2);
    assert_eq!(found[0].name, "net");
    assert_eq!(found[0].span, (7, 10));
    assert_eq!(found[1].name, "fs");
    assert_eq!(found[1].span, (47, 49));
}

#[test]
fn host_declarations_include_documented_ones() {
    let program = Program {
        statements: vec![
            Statement::RustFnDecl(host("write", 0)),
            import("io", 40),
            Statement::Documented {
                doc: vec![DocComment { content: "reads".to_string() }],
                item: AnnotatableItem::RustFnDecl(host("read", 60)),
            },
        ],
    };
    let found = rust_decl_infos(&program);
    assert_eq!(found.len(), 2);
    assert_eq!(found[0].name, "write");
    assert_eq!(found[0].span, (0, 13));
    assert_eq!(found[1].name, "read");
    assert_eq!(found[1].span, (60, 72));
}

#[test]
fn first_by_name_picks_the_smallest_name_and_the_earliest_of_equals() {
    assert_eq!(first_by_name(&vec![]), None);
    assert_eq!(first_by_name(&vec![info("write"), info("read"), info("open")]), Some(2));
    assert_eq!(first_by_name(&vec![info("b"), info("a"), info("a")]), Some(1));
    assert_eq!(first_by_name(&vec![info("ab"), info("a")]), Some(1));
}

#[test]
fn missing_glue_points_at_the_declaration() {
    let source = "rust fn fetch() -> void\n";
    let err = missing_host_glue_error("net", source, "fetch", (0, 13), "net.kiro", "net.rs");
    assert_eq!(err.code, ErrorCode::MissingHostGlue);
    assert_eq!(err.message, "Missing Rust glue for host function 'net.fetch'.");
    assert_eq!(
        err.help.as_deref(),
        Some("add 'net.rs' with `pub async fn fetch(args: Vec<RuntimeVal>) -> HostResult`")
    );
    assert_eq!(err.file.as_deref(), Some("net.kiro"));
    assert_eq!(err.line, Some(1));
    assert_eq!(err.column, Some(1));
    assert_eq!(err.span_len, Some(13));
    assert_eq!(err.label.as_deref(), Some("missing glue"));
}

#[test]
fn missing_module_points_at_the_import() {
    let source = "print(1)\nimport helpers\n";
    let err = missing_module_error("helpers", "main.kiro", source, (16, 23), "main.kiro");
    assert_eq!(err.code, ErrorCode::ImportError);
    assert_eq!(err.message, "Module 'helpers' not found.");
    assert_eq!(err.help.as_deref(), Some("add 'helpers.kiro' beside 'main.kiro'"));
    assert_eq!(err.line, Some(2));
    assert_eq!(err.column, Some(8));
    assert_eq!(err.span_len, Some(7));
    assert_eq!(err.label.as_deref(), Some("missing module"));
}
