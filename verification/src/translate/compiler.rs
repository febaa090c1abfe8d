//! The translator: each function follows its counterpart in
//! [`crate::translate::model`].
pub mod block;
pub mod expr;
pub mod logic;
pub mod translate_unit;
