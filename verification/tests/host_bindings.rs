use kiro_lang::host_gen::{
    adapt_output_buffer, collect_handle_names, contains_borrowed_type, contains_opaque_type, crate_ident_of,
    handle_payload_type, host_module_name, is_allowed_name, is_kiro_identifier, manual_module_name,
    reject_input_view_return, to_snake_case, type_uses_vector_values, Binding, BindingSource, Collector,
    HostGenOptions, Param, RecordDef, RecordField, RecordMode, RustType,
};

fn handle(name: &str) -> RustType {
    RustType::Handle(name.to_string())
}

fn param(name: &str, rust_type: RustType) -> Param {
    Param { name: name.to_string(), rust_name: name.to_string(), rust_type }
}

fn function(name: &str, params: Vec<Param>, return_type: RustType) -> Binding {
    Binding {
        exported_name: name.to_string(),
        source: BindingSource::CrateFunction { path: format!("demo::{}", name) },
        params,
        return_type,
        can_error: false,
        error_name: None,
        output_buffer: None,
        pure: false,
    }
}

fn method(name: &str, params: Vec<Param>, consuming: bool) -> Binding {
    Binding {
        exported_name: name.to_string(),
        source: BindingSource::Method {
            crate_ident: "demo".to_string(),
            method_name: name.to_string(),
            receiver_mutable: false,
            receiver_consuming: consuming,
        },
        params,
        return_type: RustType::Void,
        can_error: false,
        error_name: None,
        output_buffer: None,
        pure: false,
    }
}

fn names(v: &[String]) -> Vec<&str> {
    v.iter().map(|s| s.as_str()).collect()
}

#[test]
fn identifiers_and_names() {
    assert!(is_kiro_identifier("read_all"));
    assert!(!is_kiro_identifier(""));
    assert!(!is_kiro_identifier("readAll"));
    assert!(!is_kiro_identifier("read2"));
    assert_eq!(to_snake_case("HttpClient"), "http_client");
    assert_eq!(to_snake_case("parseURL"), "parse_u_r_l");
    assert_eq!(to_snake_case("plain"), "plain");
    assert_eq!(manual_module_name("zova"), "__kiro_manual_zova");
    assert_eq!(crate_ident_of("serde-json"), "serde_json");
    let default = HostGenOptions { crate_name: "my-crate".to_string(), module_name: None };
    assert_eq!(host_module_name(&default), "my_crate");
    let named = HostGenOptions { crate_name: "my-crate".to_string(), module_name: Some("mc".to_string()) };
    assert_eq!(host_module_name(&named), "mc");
}

#[test]
fn handle_payload_types_name_the_crate_or_the_manual_module() {
    let b = method("open", vec![], false);
    assert_eq!(handle_payload_type(&b, "File"), "demo::File");
    let f = function("make", vec![], RustType::Void);
    assert_eq!(handle_payload_type(&f, "Thing"), "demo::Thing");
    let mut m = function("m", vec![], RustType::Void);
    m.source = BindingSource::ManualFunction { module: "__kiro_manual_x".to_string(), function: "m".to_string() };
    assert_eq!(handle_payload_type(&m, "Thing"), "__kiro_manual_x::Thing");
}

#[test]
fn type_predicates() {
    let nested = RustType::List(Box::new(RustType::MapOf(Box::new(RustType::VectorValues { owned: true }))));
    assert!(type_uses_vector_values(&nested));
    assert!(!type_uses_vector_values(&RustType::List(Box::new(RustType::Bool))));
    assert!(contains_opaque_type(&handle("H")));
    assert!(contains_opaque_type(&RustType::VectorValues { owned: false }));
    assert!(!contains_opaque_type(&RustType::VectorValues { owned: true }));
    assert!(!contains_opaque_type(&RustType::Str { borrowed: true }));
    assert!(contains_borrowed_type(&RustType::List(Box::new(RustType::Str { borrowed: true }))));
    assert!(!contains_borrowed_type(&RustType::Bytes { borrowed: false }));
    assert!(contains_borrowed_type(&RustType::VectorValues { owned: false }));
}

#[test]
fn borrowed_returns_are_refused() {
    let view = RustType::Record { name: "Point".to_string(), mode: RecordMode::InputView };
    assert_eq!(reject_input_view_return(&view), Err("borrowed record returns are unsupported".to_string()));
    let inner = RustType::MapOf(Box::new(RustType::VectorValues { owned: false }));
    assert_eq!(reject_input_view_return(&inner), Err("borrowed vector value returns are unsupported".to_string()));
    let owned = RustType::Record { name: "Point".to_string(), mode: RecordMode::Owned };
    assert_eq!(reject_input_view_return(&owned), Ok(()));
}

#[test]
fn output_buffers_become_byte_returns() {
    let mut ret = RustType::Num { rust: "usize".to_string() };
    let params = vec![param("path", RustType::Str { borrowed: true }), param("buf", RustType::OutputBuffer)];
    assert_eq!(adapt_output_buffer(&params, &mut ret), Ok(Some("buf".to_string())));
    assert!(matches!(ret, RustType::Bytes { borrowed: false }));

    let mut ret = RustType::Num { rust: "u32".to_string() };
    assert_eq!(
        adapt_output_buffer(&params, &mut ret),
        Err("mutable output buffer requires a usize return".to_string())
    );
    assert!(matches!(&ret, RustType::Num { rust } if rust == "u32"));

    let two = vec![param("a", RustType::OutputBuffer), param("b", RustType::OutputBuffer)];
    let mut ret = RustType::Num { rust: "usize".to_string() };
    assert_eq!(adapt_output_buffer(&two, &mut ret), Err("multiple mutable output buffers are unsupported".to_string()));

    let mut ret = RustType::Bool;
    assert_eq!(adapt_output_buffer(&vec![param("x", RustType::Bool)], &mut ret), Ok(None));
}

#[test]
fn handle_names_are_collected_once() {
    let mut handles = vec!["A".to_string()];
    collect_handle_names(&RustType::List(Box::new(handle("B"))), &mut handles);
    collect_handle_names(&handle("A"), &mut handles);
    collect_handle_names(&RustType::Bool, &mut handles);
    assert_eq!(names(&handles), vec!["A", "B"]);
}

#[test]
fn a_binding_is_pushed_once_per_exported_name() {
    let mut c = Collector::new("demo", "__kiro_manual_demo", false);
    c.push_binding(function("open", vec![param("p", handle("Path"))], handle("File")));
    c.push_binding(function("open", vec![], RustType::Void));
    c.push_binding(function("close", vec![param("f", handle("File"))], RustType::Void));
    assert_eq!(c.bindings.len(), 2);
    assert_eq!(c.bindings[0].params.len(), 1);
    assert_eq!(names(&c.handles), vec!["File", "Path"]);
}

#[test]
fn incompatible_handles_drop_their_bindings() {
    let mut c = Collector::new("demo", "m", false);
    c.push_binding(function("both", vec![param("z", handle("Zed")), param("a", handle("Alpha"))], RustType::Void));
    c.push_binding(function("safe", vec![param("s", handle("Safe"))], RustType::Void));
    c.copy_handles = vec!["Alpha".to_string(), "Safe".to_string()];
    c.remove_incompatible_handles(&vec!["Zed".to_string(), "Alpha".to_string()]);
    assert_eq!(c.bindings.len(), 1);
    assert_eq!(c.bindings[0].exported_name, "safe");
    assert_eq!(
        c.skipped,
        vec!["both: handle 'Alpha' does not satisfy the Kiro handle thread-safety contract".to_string()]
    );
    assert_eq!(names(&c.handles), vec!["Safe"]);
    assert_eq!(names(&c.copy_handles), vec!["Safe"]);

    let mut unchanged = Collector::new("demo", "m", false);
    unchanged.push_binding(function("x", vec![param("h", handle("H"))], RustType::Void));
    unchanged.remove_incompatible_handles(&vec![]);
    assert_eq!(unchanged.bindings.len(), 1);
    assert!(unchanged.skipped.is_empty());
}

#[test]
fn by_value_handles_must_be_copy() {
    let mut c = Collector::new("demo", "m", false);
    c.copy_handles = vec!["Id".to_string()];
    c.push_binding(method("consume", vec![param("self", handle("Conn"))], true));
    c.push_binding(function("send", vec![param("c", handle("Conn"))], RustType::Void));
    c.push_binding(function("lookup", vec![param("i", handle("Id"))], RustType::Void));
    c.remove_non_copy_owned_inputs();
    let kept: Vec<&str> = c.bindings.iter().map(|b| b.exported_name.as_str()).collect();
    assert_eq!(kept, vec!["consume", "lookup"]);
    assert_eq!(c.skipped, vec!["send: by-value handle 'Conn' is unsupported unless it is Copy".to_string()]);
    assert_eq!(names(&c.consuming_handles), vec!["Conn"]);
    assert!(c.is_one_shot_handle("Conn"));
    assert!(!c.is_one_shot_handle("Id"));
}

#[test]
fn vector_values_zova_errors_and_the_declaration_count() {
    let mut c = Collector::new("zova", "m", true);
    c.push_binding(function("a", vec![param("h", handle("H"))], RustType::Void));
    assert!(!c.uses_vector_values());
    assert!(!c.uses_zova_errors());
    assert_eq!(c.declarations(), 2);
    let mut failing = function("b", vec![], RustType::Void);
    failing.error_name = Some("Error".to_string());
    c.push_binding(failing);
    assert!(c.uses_zova_errors());
    c.records.push((
        "Row".to_string(),
        RecordDef {
            mode: RecordMode::Owned,
            fields: vec![RecordField { name: "v".to_string(), rust_type: RustType::VectorValues { owned: true } }],
        },
    ));
    assert!(c.uses_vector_values());
    assert_eq!(c.declarations(), 5);
}

#[test]
fn bindings_sort_by_exported_name() {
    let mut c = Collector::new("demo", "m", false);
    for n in ["write", "open", "close", "read"] {
        c.push_binding(function(n, vec![], RustType::Void));
    }
    c.sort_bindings();
    let order: Vec<&str> = c.bindings.iter().map(|b| b.exported_name.as_str()).collect();
    assert_eq!(order, vec!["close", "open", "read", "write"]);
}

#[test]
fn allowed_names_filter_only_when_given() {
    let allowed = vec!["read".to_string()];
    assert!(is_allowed_name(None, "anything"));
    assert!(is_allowed_name(Some(&allowed), "read"));
    assert!(!is_allowed_name(Some(&allowed), "write"));
}
