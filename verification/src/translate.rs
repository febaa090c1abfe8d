//! Translation of monye programs to register-machine code.
pub mod env;
pub mod error;
pub mod host;
pub mod lir;
pub mod model;
pub mod typing;
pub use crate::translate::error::{ErrorKind, Stop, SyntaxError, TranslateError};
pub use crate::translate::host::host_functions;
pub use crate::translate::lir::{ConstId, FuncId, Function, Mochi, Reg, Signature};
pub mod compiler;
pub use crate::translate::compiler::logic::translate_logic_expr;
pub use crate::translate::compiler::translate_unit::{translate, translate_checked};
pub use crate::translate::env::{GlobalEnv, LocalEnv};
