pub mod code;
pub mod diagnostic;
pub mod position;
pub mod render;

pub use code::{ErrorCode, ErrorPhase};
pub use diagnostic::{KiroError, SourceSpan};
