//! The diagnostic record that every phase reports, and its builders.
use vstd::prelude::*;
use vstd::string::StringSliceAdditionalSpecFns;
use vstd::utf8::encode_utf8;

use super::code::{ErrorCode, ErrorPhase};
use super::position::{
    byte_offset_at, byte_offset_spec, line_column_at, line_column_spec, source_line,
    source_line_spec,
};
use crate::text::push_str;

verus! {

/// A byte range of a source text.
#[derive(Debug, Clone, Copy, PartialEq, Eq, Structural)]
pub struct SourceSpan {
    pub start: usize,
    pub end: usize,
}

impl SourceSpan {
    pub fn new(start: usize, end: usize) -> (r: SourceSpan)
        ensures
            r.start == start,
            r.end == end,
    {
        SourceSpan { start, end }
    }

    /// The span's length, and at least 1.
    pub fn len(self) -> (r: usize)
        ensures
            r == (if self.end > self.start { (self.end - self.start) as usize } else { 1 }),
    {
        if self.end > self.start {
            self.end - self.start
        } else {
            1
        }
    }
}

/// A diagnostic: what went wrong, in which phase, and where in the source.
#[derive(Debug, Clone)]
pub struct KiroError {
    pub code: ErrorCode,
    pub phase: ErrorPhase,
    pub message: String,
    pub file: Option<String>,
    pub line: Option<usize>,
    pub column: Option<usize>,
    pub label: Option<String>,
    pub source_line: Option<String>,
    pub source_text: Option<String>,
    pub span_offset: Option<usize>,
    pub span_len: Option<usize>,
    pub help: Option<String>,
    pub suggestion: Option<String>,
}

/// The characters of an optional string.
pub open spec fn text_of(o: Option<String>) -> Option<Seq<char>> {
    match o {
        Some(s) => Some(s@),
        None => None,
    }
}

/// A usize option as an int option.
pub open spec fn int_of(o: Option<usize>) -> Option<int> {
    match o {
        Some(n) => Some(n as int),
        None => None,
    }
}

/// A diagnostic points at byte range `span` of `src` in `file` with `label`: the span's start
/// (clamped to the text) gives the offset, line, column and shown line, and its length (at
/// least 1) the underline.
pub open spec fn byte_span_located(r: KiroError, file: Seq<char>, src: Seq<char>, span: SourceSpan, label: Seq<char>) -> bool {
    let n = encode_utf8(src).len();
    let offset = if span.start <= n { span.start as int } else { n as int };
    let lc = line_column_spec(encode_utf8(src), offset);
    &&& text_of(r.file) == Some(file)
    &&& int_of(r.line) == Some(lc.0)
    &&& int_of(r.column) == Some(lc.1)
    &&& text_of(r.source_line) == source_line_spec(src, lc.0)
    &&& int_of(r.span_offset) == Some(offset)
    &&& r.span_len == Some(if span.end > span.start { (span.end - span.start) as usize } else { 1usize })
    &&& text_of(r.source_text) == Some(src)
    &&& text_of(r.label) == Some(label)
}

/// The help line of `unsupported_keyword`.
pub open spec fn var_help() -> Seq<char> {
    "Use 'var x = ...' (mutable) or 'x = ...' (immutable)."@
}

/// `prefix + middle + suffix` as a new string.
fn framed(prefix: &str, middle: &str, suffix: &str) -> (s: String)
    ensures
        s@ == prefix@ + middle@ + suffix@,
{
    let mut s = String::from_str(prefix);
    push_str(&mut s, middle);
    push_str(&mut s, suffix);
    s
}

/// `prefix + rest` as a new string.
fn prefixed(prefix: &str, rest: &str) -> (s: String)
    ensures
        s@ == prefix@ + rest@,
{
    let mut s = String::from_str(prefix);
    push_str(&mut s, rest);
    s
}

impl KiroError {
    /// A diagnostic with a code, a phase and a message, and no location.
    pub fn new(code: ErrorCode, phase: ErrorPhase, message: &str) -> (r: KiroError)
        ensures
            r.code == code,
            r.phase == phase,
            r.message@ == message@,
            r.file is None,
            r.line is None,
            r.column is None,
            r.label is None,
            r.source_line is None,
            r.source_text is None,
            r.span_offset is None,
            r.span_len is None,
            r.help is None,
            r.suggestion is None,
    {
        KiroError {
            code,
            phase,
            message: String::from_str(message),
            file: None,
            line: None,
            column: None,
            label: None,
            source_line: None,
            source_text: None,
            span_offset: None,
            span_len: None,
            help: None,
            suggestion: None,
        }
    }

    pub fn with_file(self, file: &str) -> (r: KiroError)
        ensures
            text_of(r.file) == Some(file@),
            r == (KiroError { file: r.file, ..self }),
    {
        let mut e = self;
        e.file = Some(String::from_str(file));
        e
    }

    pub fn with_line(self, line: usize) -> (r: KiroError)
        ensures
            r == (KiroError { line: Some(line), ..self }),
    {
        let mut e = self;
        e.line = Some(line);
        e
    }

    /// Points at `line`:`column` of `file`, showing `source_line` underlined with `label`.
    pub fn with_source_location(
        self,
        file: &str,
        line: usize,
        column: usize,
        source_line: &str,
        label: &str,
    ) -> (r: KiroError)
        ensures
            text_of(r.file) == Some(file@),
            r.line == Some(line),
            r.column == Some(column),
            text_of(r.source_line) == Some(source_line@),
            text_of(r.label) == Some(label@),
            r == (KiroError { file: r.file, line: r.line, column: r.column, source_line: r.source_line, label: r.label, ..self }),
    {
        let mut e = self;
        e.file = Some(String::from_str(file));
        e.line = Some(line);
        e.column = Some(column);
        e.source_line = Some(String::from_str(source_line));
        e.label = Some(String::from_str(label));
        e
    }

    /// Points at `line`:`column` of `source_text`, underlining `span_len` bytes (at least one)
    /// with `label`; the byte offset is that of the line and column, where they exist.
    pub fn with_source_span(
        self,
        file: &str,
        source_text: &str,
        line: usize,
        column: usize,
        span_len: usize,
        label: &str,
    ) -> (r: KiroError)
        requires
            source_text.spec_bytes().len() < usize::MAX,
        ensures
            text_of(r.file) == Some(file@),
            r.line == Some(line),
            r.column == Some(column),
            text_of(r.source_line) == source_line_spec(source_text@, line as int),
            int_of(r.span_offset) == byte_offset_spec(source_text.spec_bytes(), line as int, column as int),
            r.span_len == Some(if span_len >= 1 { span_len } else { 1 }),
            text_of(r.source_text) == Some(source_text@),
            text_of(r.label) == Some(label@),
            r == (KiroError {
                file: r.file, line: r.line, column: r.column, source_line: r.source_line,
                span_offset: r.span_offset, span_len: r.span_len, source_text: r.source_text,
                label: r.label, ..self
            }),
    {
        let mut e = self;
        e.file = Some(String::from_str(file));
        e.line = Some(line);
        e.column = Some(column);
        e.source_line = source_line(source_text, line);
        e.span_offset = byte_offset_at(source_text, line, column);
        e.span_len = Some(if span_len >= 1 { span_len } else { 1 });
        e.source_text = Some(String::from_str(source_text));
        e.label = Some(String::from_str(label));
        e
    }

    /// Points at the byte range `span` of `source_text` (its start clamped to the text),
    /// with the line and column of that start.
    pub fn with_byte_span(self, file: &str, source_text: &str, span: SourceSpan, label: &str) -> (r: KiroError)
        requires
            source_text.spec_bytes().len() < usize::MAX,
        ensures
            byte_span_located(r, file@, source_text@, span, label@),
            r == (KiroError {
                file: r.file, line: r.line, column: r.column, source_line: r.source_line,
                span_offset: r.span_offset, span_len: r.span_len, source_text: r.source_text,
                label: r.label, ..self
            }),
    {
        let n = source_text.len();
        let offset = if span.start <= n { span.start } else { n };
        let len = span.len();
        let (line, column) = line_column_at(source_text, offset);
        let mut e = self;
        e.file = Some(String::from_str(file));
        e.line = Some(line);
        e.column = Some(column);
        e.source_line = source_line(source_text, line);
        e.span_offset = Some(offset);
        e.span_len = Some(len);
        e.source_text = Some(String::from_str(source_text));
        e.label = Some(String::from_str(label));
        e
    }

    pub fn with_help(self, help: &str) -> (r: KiroError)
        ensures
            text_of(r.help) == Some(help@),
            r == (KiroError { help: r.help, ..self }),
    {
        let mut e = self;
        e.help = Some(String::from_str(help));
        e
    }

    pub fn with_suggestion(self, suggestion: &str) -> (r: KiroError)
        ensures
            text_of(r.suggestion) == Some(suggestion@),
            r == (KiroError { suggestion: r.suggestion, ..self }),
    {
        let mut e = self;
        e.suggestion = Some(String::from_str(suggestion));
        e
    }

    /// `File '<file>' not found.`, reported by the command line.
    pub fn file_not_found(file: &str) -> (r: KiroError)
        ensures
            r.code == ErrorCode::FileNotFound,
            r.phase == ErrorPhase::Cli,
            r.message@ == "File '"@ + file@ + "' not found."@,
            text_of(r.file) == Some(file@),
            r.line is None && r.column is None && r.label is None && r.source_line is None,
            r.source_text is None && r.span_offset is None && r.span_len is None,
            r.help is None && r.suggestion is None,
    {
        let msg = framed("File '", file, "' not found.");
        KiroError::new(ErrorCode::FileNotFound, ErrorPhase::Cli, msg.as_str()).with_file(file)
    }

    /// An unsupported keyword at a line of a file, with a hint on declaring variables.
    pub fn unsupported_keyword(file_or_module: &str, line: usize, keyword: &str) -> (r: KiroError)
        ensures
            r.code == ErrorCode::UnsupportedKeyword,
            r.phase == ErrorPhase::Parse,
            r.message@ == "Unsupported keyword '"@ + keyword@ + "'."@,
            text_of(r.file) == Some(file_or_module@),
            r.line == Some(line),
            text_of(r.help) == Some(var_help()),
            r.column is None && r.label is None && r.source_line is None,
            r.source_text is None && r.span_offset is None && r.span_len is None,
            r.suggestion is None,
    {
        let msg = framed("Unsupported keyword '", keyword, "'.");
        KiroError::new(ErrorCode::UnsupportedKeyword, ErrorPhase::Parse, msg.as_str())
            .with_file(file_or_module)
            .with_line(line)
            .with_help("Use 'var x = ...' (mutable) or 'x = ...' (immutable).")
    }

    /// An unsupported keyword, underlined in its source.
    pub fn unsupported_keyword_with_source(
        file_or_module: &str,
        source: &str,
        line: usize,
        column: usize,
        keyword: &str,
    ) -> (r: KiroError)
        requires
            source.spec_bytes().len() < usize::MAX,
        ensures
            r.code == ErrorCode::UnsupportedKeyword,
            r.phase == ErrorPhase::Parse,
            r.message@ == "Unsupported keyword '"@ + keyword@ + "'."@,
            text_of(r.file) == Some(file_or_module@),
            r.line == Some(line),
            r.column == Some(column),
            text_of(r.source_line) == source_line_spec(source@, line as int),
            int_of(r.span_offset) == byte_offset_spec(source.spec_bytes(), line as int, column as int),
            r.span_len == Some(if keyword.len() >= 1 { keyword.len() } else { 1usize }),
            text_of(r.source_text) == Some(source@),
            text_of(r.label) == Some("unsupported keyword"@),
            text_of(r.help) == Some(var_help()),
            r.suggestion is None,
    {
        let msg = framed("Unsupported keyword '", keyword, "'.");
        KiroError::new(ErrorCode::UnsupportedKeyword, ErrorPhase::Parse, msg.as_str())
            .with_source_span(file_or_module, source, line, column, keyword.len(), "unsupported keyword")
            .with_help("Use 'var x = ...' (mutable) or 'x = ...' (immutable).")
    }

    /// The removed `print` statement, underlined in its source, with the replacement.
    pub fn removed_print_statement(file_or_module: &str, source: &str, line: usize, column: usize) -> (r: KiroError)
        requires
            source.spec_bytes().len() < usize::MAX,
        ensures
            r.code == ErrorCode::UnsupportedKeyword,
            r.phase == ErrorPhase::Parse,
            r.message@ == "'print' statement was removed."@,
            text_of(r.file) == Some(file_or_module@),
            r.line == Some(line),
            r.column == Some(column),
            text_of(r.source_line) == source_line_spec(source@, line as int),
            int_of(r.span_offset) == byte_offset_spec(source.spec_bytes(), line as int, column as int),
            r.span_len == Some(5usize),
            text_of(r.source_text) == Some(source@),
            text_of(r.label) == Some("removed print statement"@),
            text_of(r.help) == Some("use `import io` and `io.print(value)`"@),
            r.suggestion is None,
    {
        KiroError::new(ErrorCode::UnsupportedKeyword, ErrorPhase::Parse, "'print' statement was removed.")
            .with_source_span(file_or_module, source, line, column, 5, "removed print statement")
            .with_help("use `import io` and `io.print(value)`")
    }

    /// `Parse failed: <details>` in a file.
    pub fn parse_failed(file_or_module: &str, details: &str) -> (r: KiroError)
        ensures
            r.code == ErrorCode::ParseFailed,
            r.phase == ErrorPhase::Parse,
            r.message@ == "Parse failed: "@ + details@,
            text_of(r.file) == Some(file_or_module@),
            r.line is None && r.column is None && r.label is None && r.source_line is None,
            r.source_text is None && r.span_offset is None && r.span_len is None,
            r.help is None && r.suggestion is None,
    {
        let msg = prefixed("Parse failed: ", details);
        KiroError::new(ErrorCode::ParseFailed, ErrorPhase::Parse, msg.as_str()).with_file(file_or_module)
    }

    pub fn build_graph_failed() -> (r: KiroError)
        ensures
            r.code == ErrorCode::BuildGraphFailed,
            r.phase == ErrorPhase::Compile,
            r.message@ == "Build graph resolution failed."@,
            r.file is None && r.line is None && r.column is None && r.label is None,
            r.source_line is None && r.source_text is None && r.span_offset is None,
            r.span_len is None && r.help is None && r.suggestion is None,
    {
        KiroError::new(ErrorCode::BuildGraphFailed, ErrorPhase::Compile, "Build graph resolution failed.")
    }

    /// A compile error in a module, with its help line where one is given.
    pub fn module_compile_error(module: &str, code: ErrorCode, message: &str, help: Option<String>) -> (r: KiroError)
        ensures
            r.code == code,
            r.phase == ErrorPhase::Compile,
            r.message@ == message@,
            text_of(r.file) == Some(module@),
            text_of(r.help) == text_of(help),
            r.line is None && r.column is None && r.label is None && r.source_line is None,
            r.source_text is None && r.span_offset is None && r.span_len is None,
            r.suggestion is None,
    {
        let mut err = KiroError::new(code, ErrorPhase::Compile, message).with_file(module);
        if let Some(h) = help {
            err = err.with_help(h.as_str());
        }
        err
    }

    /// `Check failed: <message>`, at run time.
    pub fn runtime_check_failed(message: &str) -> (r: KiroError)
        ensures
            r.code == ErrorCode::CheckFailed,
            r.phase == ErrorPhase::Runtime,
            r.message@ == "Check failed: "@ + message@,
            r.file is None && r.line is None && r.column is None && r.label is None,
            r.source_line is None && r.source_text is None && r.span_offset is None,
            r.span_len is None && r.help is None && r.suggestion is None,
    {
        let msg = prefixed("Check failed: ", message);
        KiroError::new(ErrorCode::CheckFailed, ErrorPhase::Runtime, msg.as_str())
    }

    /// An internal failure of the compiler while compiling a module.
    pub fn compiler_panic(module: &str, details: &str) -> (r: KiroError)
        ensures
            r.code == ErrorCode::CompilerPanic,
            r.phase == ErrorPhase::Compile,
            r.message@ == details@,
            text_of(r.file) == Some(module@),
            r.line is None && r.column is None && r.label is None && r.source_line is None,
            r.source_text is None && r.span_offset is None && r.span_len is None,
            r.help is None && r.suggestion is None,
    {
        KiroError::new(ErrorCode::CompilerPanic, ErrorPhase::Compile, details).with_file(module)
    }
}

} // verus!
