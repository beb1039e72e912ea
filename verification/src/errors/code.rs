//! Error codes and the phase of the pipeline that reports them.
use vstd::prelude::*;

verus! {

/// The stage of the toolchain where an error arose.
#[derive(Debug, Clone, Copy, PartialEq, Eq, Structural)]
pub enum ErrorPhase {
    Cli,
    Parse,
    Compile,
    Runtime,
}

/// A stable diagnostic code, shown as `KIRO` and four digits.
#[derive(Debug, Clone, Copy, PartialEq, Eq, Structural)]
pub enum ErrorCode {
    FileNotFound,
    UnsupportedKeyword,
    ParseFailed,
    TypeError,
    WrongArgumentCount,
    UnknownName,
    PureViolation,
    MutabilityError,
    ImportError,
    BadUse,
    MissingHostGlue,
    CheckFailed,
    BuildGraphFailed,
    CompilerPanic,
}

/// How a phase is shown in diagnostics.
pub open spec fn phase_text(p: ErrorPhase) -> Seq<char> {
    match p {
        ErrorPhase::Cli => "cli"@,
        ErrorPhase::Parse => "parse"@,
        ErrorPhase::Compile => "compile"@,
        ErrorPhase::Runtime => "runtime"@,
    }
}

/// How a code is shown in diagnostics.
pub open spec fn code_text(c: ErrorCode) -> Seq<char> {
    match c {
        ErrorCode::FileNotFound => "KIRO1001"@,
        ErrorCode::UnsupportedKeyword => "KIRO1002"@,
        ErrorCode::ParseFailed => "KIRO1003"@,
        ErrorCode::TypeError => "KIRO2002"@,
        ErrorCode::WrongArgumentCount => "KIRO2003"@,
        ErrorCode::UnknownName => "KIRO2004"@,
        ErrorCode::PureViolation => "KIRO2005"@,
        ErrorCode::MutabilityError => "KIRO2006"@,
        ErrorCode::ImportError => "KIRO2007"@,
        ErrorCode::BadUse => "KIRO2008"@,
        ErrorCode::MissingHostGlue => "KIRO2009"@,
        ErrorCode::CheckFailed => "KIRO3001"@,
        ErrorCode::BuildGraphFailed => "KIRO4001"@,
        ErrorCode::CompilerPanic => "KIRO2001"@,
    }
}

impl ErrorPhase {
    /// The phase as shown in diagnostics.
    pub fn as_str(&self) -> (s: &'static str)
        ensures
            s@ == phase_text(*self),
    {
        match self {
            ErrorPhase::Cli => "cli",
            ErrorPhase::Parse => "parse",
            ErrorPhase::Compile => "compile",
            ErrorPhase::Runtime => "runtime",
        }
    }

    /// The phase as shown in diagnostics, as an owned string.
    pub fn to_string(&self) -> (s: String)
        ensures
            s@ == phase_text(*self),
    {
        String::from_str(self.as_str())
    }
}

impl ErrorCode {
    /// The code as shown in diagnostics.
    pub fn as_str(&self) -> (s: &'static str)
        ensures
            s@ == code_text(*self),
    {
        match self {
            ErrorCode::FileNotFound => "KIRO1001",
            ErrorCode::UnsupportedKeyword => "KIRO1002",
            ErrorCode::ParseFailed => "KIRO1003",
            ErrorCode::TypeError => "KIRO2002",
            ErrorCode::WrongArgumentCount => "KIRO2003",
            ErrorCode::UnknownName => "KIRO2004",
            ErrorCode::PureViolation => "KIRO2005",
            ErrorCode::MutabilityError => "KIRO2006",
            ErrorCode::ImportError => "KIRO2007",
            ErrorCode::BadUse => "KIRO2008",
            ErrorCode::MissingHostGlue => "KIRO2009",
            ErrorCode::CheckFailed => "KIRO3001",
            ErrorCode::BuildGraphFailed => "KIRO4001",
            ErrorCode::CompilerPanic => "KIRO2001",
        }
    }

    /// The code as shown in diagnostics, as an owned string.
    pub fn to_string(&self) -> (s: String)
        ensures
            s@ == code_text(*self),
    {
        String::from_str(self.as_str())
    }
}

} // verus!
