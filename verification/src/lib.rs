pub mod instruction;
pub mod laws;
pub mod lexer;
pub mod meaning;
pub mod report;
pub mod runner;
pub mod syntax;
pub mod text;
pub mod translate;
