use kiro_lang::compiler::types::{
    compile_adr, compile_bool, compile_fn_type, compile_list, compile_map, compile_num,
    compile_pipe, compile_str, compile_type, compile_void,
};
use kiro_lang::grammar::{KiroType, StructNameVal};

fn custom(name: &str) -> KiroType {
    KiroType::Custom(StructNameVal { value: name.to_string() })
}

#[test]
fn primitive_types_map_to_rust_types() {
    assert_eq!(compile_num(), "f64");
    assert_eq!(compile_str(), "String");
    assert_eq!(compile_bool(), "bool");
    assert_eq!(compile_void(), "()");
    assert_eq!(compile_type(&KiroType::Num), "f64");
}

#[test]
fn void_address_is_an_opaque_handle() {
    assert_eq!(compile_adr(&KiroType::Void), "KiroAdrVoid");
    assert_eq!(
        compile_adr(&KiroType::Num),
        "Option<std::sync::Arc<std::sync::Mutex<f64>>>"
    );
}

#[test]
fn nested_collection_types() {
    let t = KiroType::MapOf(
        Box::new(KiroType::Str),
        Box::new(KiroType::List(Box::new(custom("User")))),
    );
    assert_eq!(
        compile_type(&t),
        "std::collections::HashMap<String, Vec<User>>"
    );
    assert_eq!(compile_list(&KiroType::Bool), "Vec<bool>");
    assert_eq!(compile_map(&KiroType::Str, &KiroType::Num), "std::collections::HashMap<String, f64>");
    assert_eq!(compile_pipe(&KiroType::Str), "KiroPipe<String>");
}

#[test]
fn function_types_join_parameters() {
    let params = vec![KiroType::Num, KiroType::Str];
    assert_eq!(compile_fn_type(&params, &KiroType::Bool), "fn(f64, String) -> bool");
    assert_eq!(compile_fn_type(&[], &KiroType::Void), "fn() -> ()");
    let t = KiroType::FnType(params, Box::new(KiroType::Void));
    assert_eq!(compile_type(&t), "fn(f64, String) -> ()");
}
