//! Argument descriptors for a command-line definition library, with the
//! one-line usage text of an option, and the discovery of a command tree's
//! subcommands and aliases for shell completion scripts.

pub mod aliases;
pub mod completions;
pub mod option;
pub mod settings;
pub mod text;
