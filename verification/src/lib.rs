//! A declarative parser for nested command lines.
//!
//! A caller declares a tree of commands, each with positional arguments,
//! options and child commands, hands the root a buffer of tokens, and pulls
//! one classified input after another from it.
//!
//! Every function states what it returns over a model of its arguments:
//! [`cmd::CmdView`] is the model of a command, and the functions of the
//! builder and of the classifier are functions on it. The modules
//! [`wellformed`] and [`laws`] hold what is proved of that model.

pub mod classify;
pub mod cmd;
pub mod entry;
pub mod error;
pub mod input;
pub mod laws;
pub mod opt;
pub mod path;
pub mod text;
pub mod wellformed;

pub use cmd::Cmd;
pub use entry::Platform;
pub use error::{Error, ErrorKind};
pub use input::Input;
pub use opt::{Arg, Opt};
