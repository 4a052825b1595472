//! A verified loader for the PBRT v4 scene-description language.
//!
//! The pipeline has three stages: a lexer that turns a text buffer into
//! tokens, a directive parser that turns tokens into structured directive
//! records, and a scene builder that drives a graphics-state machine
//! (attribute scopes, a transform stack, named registries, nested files)
//! and produces the final scene aggregate.
mod error;
mod mat;
mod num;
pub mod param;
mod parser;
mod scene;
mod text;
mod token;
mod tokenizer;
pub mod types;

pub use error::Error;
pub use mat::Matrix;
pub use param::{Param, ParamList, ParamType, Spectrum, Values};
pub use parser::{Element, Parser};
pub use scene::{CameraEntity, LoadStep, Loader, Scene, ShapeEntity, State};
pub use token::{Directive, Token};
pub use tokenizer::Tokenizer;
