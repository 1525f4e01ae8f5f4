//! Command-line core of a miniature interactive shell: a tokenizer with
//! quoting, comments and brace expansion; a redirection and pipe resolver
//! that turns a token sequence into a runnable stage plan; and a dispatcher
//! over a fixed registry of builtin commands.

pub mod command;
pub mod dispatch;
pub mod filter;
pub mod split;
