use kiro_lang::errors::diagnostic::{KiroError, SourceSpan};
use kiro_lang::errors::position::{byte_offset_at, line_column_at, source_line};
use kiro_lang::errors::render::{help_text, label_caret_len, render_plain_error};
use kiro_lang::errors::{ErrorCode, ErrorPhase};

#[test]
fn codes_and_phases_render_as_documented() {
    assert_eq!(ErrorCode::FileNotFound.to_string(), "KIRO1001");
    assert_eq!(ErrorCode::UnsupportedKeyword.to_string(), "KIRO1002");
    assert_eq!(ErrorCode::ParseFailed.to_string(), "KIRO1003");
    assert_eq!(ErrorCode::CompilerPanic.to_string(), "KIRO2001");
    assert_eq!(ErrorCode::TypeError.to_string(), "KIRO2002");
    assert_eq!(ErrorCode::UnknownName.to_string(), "KIRO2004");
    assert_eq!(ErrorCode::MissingHostGlue.to_string(), "KIRO2009");
    assert_eq!(ErrorCode::CheckFailed.to_string(), "KIRO3001");
    assert_eq!(ErrorCode::BuildGraphFailed.to_string(), "KIRO4001");
    assert_eq!(ErrorPhase::Cli.to_string(), "cli");
    assert_eq!(ErrorPhase::Runtime.as_str(), "runtime");
}

#[test]
fn source_span_length_is_at_least_one() {
    assert_eq!(SourceSpan::new(3, 8).len(), 5);
    assert_eq!(SourceSpan::new(8, 8).len(), 1);
    assert_eq!(SourceSpan::new(9, 2).len(), 1);
}

#[test]
fn line_and_column_of_offsets() {
    let src = "ab\ncd\n";
    assert_eq!(line_column_at(src, 0), (1, 1));
    assert_eq!(line_column_at(src, 2), (1, 3));
    assert_eq!(line_column_at(src, 3), (2, 1));
    assert_eq!(line_column_at(src, 4), (2, 2));
    assert_eq!(line_column_at(src, 6), (2, 1));
    assert_eq!(line_column_at("", 0), (1, 1));
    assert_eq!(line_column_at("x", 5), (1, 1));
}

#[test]
fn byte_offsets_of_lines_and_columns() {
    let src = "ab\ncd";
    assert_eq!(byte_offset_at(src, 1, 1), Some(0));
    assert_eq!(byte_offset_at(src, 1, 3), Some(2));
    assert_eq!(byte_offset_at(src, 1, 4), Some(3));
    assert_eq!(byte_offset_at(src, 1, 5), None);
    assert_eq!(byte_offset_at(src, 2, 2), Some(4));
    assert_eq!(byte_offset_at(src, 2, 3), Some(5));
    assert_eq!(byte_offset_at(src, 3, 1), None);
    assert_eq!(byte_offset_at("", 1, 1), Some(0));
    assert_eq!(byte_offset_at("", 1, 2), None);
}

#[test]
fn source_lines_drop_line_endings() {
    let src = "first\r\nsecond\nthird";
    assert_eq!(source_line(src, 1).as_deref(), Some("first"));
    assert_eq!(source_line(src, 0).as_deref(), Some("first"));
    assert_eq!(source_line(src, 2).as_deref(), Some("second"));
    assert_eq!(source_line(src, 3).as_deref(), Some("third"));
    assert_eq!(source_line(src, 4), None);
}

#[test]
fn builders_fill_their_fields() {
    let err = KiroError::file_not_found("main.kiro");
    assert_eq!(err.message, "File 'main.kiro' not found.");
    assert_eq!(err.code, ErrorCode::FileNotFound);
    assert_eq!(err.phase, ErrorPhase::Cli);
    assert_eq!(err.file.as_deref(), Some("main.kiro"));

    let err = KiroError::unsupported_keyword("m", 4, "let");
    assert_eq!(err.message, "Unsupported keyword 'let'.");
    assert_eq!(err.line, Some(4));
    assert_eq!(
        err.help.as_deref(),
        Some("Use 'var x = ...' (mutable) or 'x = ...' (immutable).")
    );

    let err = KiroError::parse_failed("m", "bad token");
    assert_eq!(err.message, "Parse failed: bad token");
    assert_eq!(err.phase, ErrorPhase::Parse);

    let err = KiroError::runtime_check_failed("x > 0");
    assert_eq!(err.message, "Check failed: x > 0");
    assert_eq!(err.code, ErrorCode::CheckFailed);

    let err = KiroError::build_graph_failed();
    assert_eq!(err.message, "Build graph resolution failed.");
    assert_eq!(err.code, ErrorCode::BuildGraphFailed);

    let err = KiroError::compiler_panic("m", "boom");
    assert_eq!(err.message, "boom");
    assert_eq!(err.code, ErrorCode::CompilerPanic);

    let err = KiroError::module_compile_error("m", ErrorCode::BadUse, "bad", Some("try this".to_string()));
    assert_eq!(err.help.as_deref(), Some("try this"));
    assert_eq!(err.phase, ErrorPhase::Compile);
    let err = KiroError::module_compile_error("m", ErrorCode::BadUse, "bad", None);
    assert_eq!(err.help, None);
}

#[test]
fn source_spans_locate_the_error() {
    let source = "var count = 1\nio.print(coutn)\n";
    let err = KiroError::new(ErrorCode::UnknownName, ErrorPhase::Compile, "Unknown variable 'coutn'.")
        .with_source_span("main.kiro", source, 2, 10, 5, "unknown variable");
    assert_eq!(err.line, Some(2));
    assert_eq!(err.column, Some(10));
    assert_eq!(err.source_line.as_deref(), Some("io.print(coutn)"));
    assert_eq!(err.span_offset, Some(23));
    assert_eq!(err.span_len, Some(5));

    let err = KiroError::new(ErrorCode::ParseFailed, ErrorPhase::Parse, "x")
        .with_byte_span("f", source, SourceSpan::new(23, 28), "here");
    assert_eq!(err.line, Some(2));
    assert_eq!(err.column, Some(10));
    assert_eq!(err.span_offset, Some(23));
    assert_eq!(err.span_len, Some(5));

    let err = KiroError::removed_print_statement("f", "print x\n", 1, 1);
    assert_eq!(err.span_len, Some(5));
    assert_eq!(err.label.as_deref(), Some("removed print statement"));
    assert_eq!(err.help.as_deref(), Some("use `import io` and `io.print(value)`"));

    let err = KiroError::unsupported_keyword_with_source("f", "let x = 1\n", 1, 1, "let");
    assert_eq!(err.span_len, Some(3));
    assert_eq!(err.label.as_deref(), Some("unsupported keyword"));
}

#[test]
fn plain_rendering_uses_full_source_span_when_available() {
    let source = "var count = 1\nio.print(coutn)\n";
    let err = KiroError::new(ErrorCode::UnknownName, ErrorPhase::Compile, "Unknown variable 'coutn'.")
        .with_source_span("main.kiro", source, 2, 10, 5, "unknown variable")
        .with_suggestion("count");
    let rendered = render_plain_error(&err);
    assert_eq!(
        rendered,
        "[KIRO2004:compile] Unknown variable 'coutn'.\n  --> main.kiro:2:10\n2 | io.print(coutn)\n  |          ^^^^^ unknown variable\nhelp: did you mean 'count'?"
    );
}

#[test]
fn plain_rendering_without_location() {
    let err = KiroError::new(ErrorCode::TypeError, ErrorPhase::Compile, "oops");
    assert_eq!(render_plain_error(&err), "[KIRO2002:compile] oops (<unknown>)");
    let err = err.with_file("a.kiro");
    assert_eq!(render_plain_error(&err), "[KIRO2002:compile] oops (a.kiro)");
    let err = err.with_line(7).with_help("fix it");
    assert_eq!(render_plain_error(&err), "[KIRO2002:compile] oops (a.kiro:7)\nhelp: fix it");
}

#[test]
fn help_text_combines_help_and_suggestion() {
    let base = KiroError::new(ErrorCode::TypeError, ErrorPhase::Compile, "m");
    assert_eq!(help_text(&base), None);
    assert_eq!(help_text(&base.clone().with_help("h")).as_deref(), Some("h"));
    assert_eq!(help_text(&base.clone().with_suggestion("s")).as_deref(), Some("did you mean 's'?"));
    assert_eq!(
        help_text(&base.with_help("h").with_suggestion("s")).as_deref(),
        Some("h\ndid you mean 's'?")
    );
}

#[test]
fn caret_covers_the_word_at_the_column() {
    let err = KiroError::new(ErrorCode::TypeError, ErrorPhase::Compile, "m")
        .with_source_location("f", 1, 4, "io.print(x)", "here");
    assert_eq!(label_caret_len(&err, "io.print(x)"), 5);
    let err = err.with_source_location("f", 1, 9, "io.print(x)", "here");
    assert_eq!(label_caret_len(&err, "io.print(x)"), 1);
    let none = KiroError::new(ErrorCode::TypeError, ErrorPhase::Compile, "m");
    assert_eq!(label_caret_len(&none, "abc"), 1);
}

#[test]
fn every_offset_is_found_again_at_its_line_and_column() {
    let src = "ab\n\ncd\r\nlast";
    for offset in 0..src.len() {
        let (line, column) = line_column_at(src, offset);
        assert_eq!(byte_offset_at(src, line, column), Some(offset));
    }
}
