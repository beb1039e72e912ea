use kiro_lang::build_manager::{BuildManager, BuildRequirements};
use kiro_lang::formatter::{format_lines, render_tokens, tokenize, TokenKind};
use kiro_lang::hir::{Effects, SemType, SourceAnchor, SourceId, TypeId, TypeTable};
use kiro_lang::hir::SourceAnchorError;
use kiro_lang::text::decimal_string;

#[test]
fn default_manifest_lists_tokio_and_the_runtime() {
    let requirements = BuildRequirements::new();
    let expected = "\n[package]\nname = \"kiro_script\"\nversion = \"0.1.0\"\nedition = \"2021\"\n\n[dependencies]\n\
tokio = { version = \"1.49.0\", features = [\"macros\", \"rt-multi-thread\"] }\n\
kiro_runtime = { path = \"../kiro_runtime\" }\n";
    assert_eq!(BuildManager::cargo_toml(&requirements), expected);
}

#[test]
fn recorded_features_add_dependencies() {
    let mut requirements = BuildRequirements::new();
    requirements.record_module("std_fs");
    requirements.record_module("std_time");
    requirements.record_module("std_net");
    requirements.record_module("math");
    requirements.record_pipes(true);
    requirements.record_anyhow(true);
    let toml = BuildManager::cargo_toml(&requirements);
    assert!(toml.contains("features = [\"macros\", \"rt-multi-thread\", \"fs\", \"time\"]"));
    assert!(toml.contains("anyhow = \"1\"\nasync-channel = \"2.5.0\"\nreqwest = { version = \"0.13.1\", features = [\"gzip\", \"json\"] }\n"));
}

#[test]
fn recording_never_clears_a_feature() {
    let mut requirements = BuildRequirements::new();
    requirements.record_pipes(true);
    requirements.record_pipes(false);
    assert!(requirements.uses_pipes);
}

#[test]
fn skipped_imports_are_remembered() {
    let mut requirements = BuildRequirements::new();
    assert!(!requirements.skips_module_import("io"));
    requirements.skip_module_import("io");
    assert!(requirements.skips_module_import("io"));
    assert!(!requirements.skips_module_import("math"));
}

#[test]
fn build_paths() {
    let manager = BuildManager::new(".kiro/build");
    assert_eq!(manager.header_path(), ".kiro/build/src/header.rs");
    assert_eq!(manager.source_path("math"), ".kiro/build/src/math.rs");
    assert_eq!(manager.cargo_toml_path(), ".kiro/build/Cargo.toml");
    assert!(BuildManager::header_preamble().starts_with("//! Kiro Header"));
}

#[test]
fn formatter_respaces_and_indents() {
    let source = "fn main(){\nvar x=1+2\n}\nfn other(){\n}\n";
    assert_eq!(format_lines(source), "fn main() {\n    var x = 1 + 2\n}\n\nfn other() {\n}\n");
}

#[test]
fn formatter_keeps_comments_and_single_blank_lines() {
    let source = "var a=1   // first\n\n\n\nvar b = [1,2]\n\n";
    assert_eq!(format_lines(source), "var a = 1 // first\n\nvar b =[1, 2]\n");
}

#[test]
fn formatting_twice_changes_nothing() {
    let source = "fn main(){\n  on (x==1){\nio.print(\"a // b\")\n}\n}\n";
    let once = format_lines(source);
    assert_eq!(format_lines(&once), once);
}

#[test]
fn tokens_of_a_line() {
    let tokens = tokenize("x->-1..2");
    let texts: Vec<String> = tokens.iter().map(|t| t.text.iter().collect()).collect();
    assert_eq!(texts, vec!["x", "->", "-1", "..", "2"]);
    assert!(matches!(tokens[2].kind, TokenKind::Word));
    assert_eq!(render_tokens(&tokens), "x -> -1..2");
}

#[test]
fn effects_are_described_by_flag_names() {
    assert_eq!(Effects::none().describe(), "NONE");
    assert_eq!(Effects::pure().describe(), "PURE");
    assert_eq!(Effects::may_fail().union(Effects::host_call()).describe(), "MAY_FAIL | HOST_CALL");
    assert!(Effects(6).contains(Effects::may_block()));
    assert!(!Effects::pure().contains(Effects::may_fail()));
    assert!(Effects::none().is_empty());
}

#[test]
fn type_table_interns_each_type_once() {
    let mut table = TypeTable::new();
    assert_eq!(table.len(), 5);
    let list = table.intern(SemType::List(TypeId(3)));
    assert_eq!(list, TypeId(5));
    assert_eq!(table.intern(SemType::List(TypeId(3))), TypeId(5));
    assert_eq!(table.intern(SemType::Num), TypeId(3));
    assert_eq!(table.len(), 6);
    assert!(matches!(table.get(TypeId(5)), Some(SemType::List(TypeId(3)))));
    assert!(table.get(TypeId(6)).is_none());
}

#[test]
fn source_anchors_check_their_offsets() {
    let anchor = SourceAnchor::try_from_offsets(SourceId(2), 3, 9).unwrap();
    assert_eq!(anchor.range(), 3..9);
    assert_eq!(
        SourceAnchor::try_from_offsets(SourceId(0), 9, 3),
        Err(SourceAnchorError::ReversedRange { start: 9, end: 3 })
    );
    assert_eq!(
        SourceAnchor::try_from_offsets(SourceId(0), 0, 5_000_000_000),
        Err(SourceAnchorError::OffsetOutOfRange { offset: 5_000_000_000 })
    );
}

#[test]
fn decimal_rendering() {
    assert_eq!(decimal_string(0), "0");
    assert_eq!(decimal_string(4096), "4096");
    assert_eq!(decimal_string(u64::MAX), "18446744073709551615");
}
