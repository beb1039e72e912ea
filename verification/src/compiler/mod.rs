pub mod eir;
pub mod functions;
pub mod types;
pub mod usage;
pub mod semantic;
