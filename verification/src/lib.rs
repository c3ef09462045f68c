use vstd::prelude::*;

pub mod as_bool;
pub mod block;
pub mod display;
pub mod compiler;
pub mod error;
pub mod expression;
pub mod expression_tokenizer;
pub mod laws;
pub mod optimizer;
pub mod strutil;

verus! {

pub use crate::as_bool::AsBool;
pub use crate::block::add_builtins;
pub use crate::block::Block;
pub use crate::block::BlockFactory;
pub use crate::block::Local;
pub use crate::block::Scope;
pub use crate::compiler::append_with_depth;
pub use crate::compiler::BlockMap;
pub use crate::compiler::Compile;
pub use crate::compiler::Compiler;
pub use crate::compiler::Options;
pub use crate::compiler::Rust;
pub use crate::compiler::Uses;
pub use crate::display::AsDisplay;
pub use crate::display::AsDisplayHtml;
pub use crate::display::WithRustyHandlebars;
pub use crate::error::ErrorKind;
pub use crate::error::ParseError;
pub use crate::expression::Expression;
pub use crate::expression::ExpressionType;
pub use crate::expression_tokenizer::Token;
pub use crate::expression_tokenizer::TokenType;
pub use crate::optimizer::optimize;

} // verus!
