//! Command lines for the map compilers of a level-compilation pipeline.
//!
//! A tool has a catalog of flags. Arguments are rows of that catalog with a
//! value; a [`Compiler`] holds the arguments that a tool has from the start
//! and those that were added, and builds from them, in a
//! [`CompilerContext`], the command to run. Nothing here runs a command.

pub mod arg;
pub mod compiler;
pub mod context;
pub mod decimal;
pub mod digits;
pub mod dispatch;
pub mod integer;
pub mod laws;
pub mod parse;
pub mod paths;
pub mod text;
pub mod tool;
pub mod value;

pub use crate::arg::{Arg, ArgDef, CompilerArg};
pub use crate::compiler::{CommandInfo, Compiler, CompilerMetadata};
pub use crate::context::{CompilerContext, Placeholder};
pub use crate::decimal::Decimal;
pub use crate::dispatch::CompilerEnum;
pub use crate::parse::ParseArgError;
pub use crate::tool::Tool;
pub use crate::value::{ArgValue, ValueError, ValueType};
