//! Rewriting of method declarations into mock points.
//!
//! A declaration is handed in as a value of the model in [`syntax`]. The
//! functions named `transform` return the rewritten declarations as source text.

pub mod capture;
pub mod error;
pub mod item_impl;
pub mod item_struct;
pub mod item_trait;
pub mod qualify;
pub mod syntax;
pub mod text;
