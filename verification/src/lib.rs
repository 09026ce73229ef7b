pub mod text;
pub mod data_type;
pub mod errors;
pub mod idents;
pub mod expression;
pub mod function;
pub mod context;
pub mod backend;
pub mod engine;
pub mod instruction;
pub mod effects;
pub mod beanie_context;
pub mod operations;
pub mod beanie_interpreter;
pub mod laws;
