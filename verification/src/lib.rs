//! The verified core of a git-hook tool that drafts commit messages: the
//! configuration store written and read as a flat `key = "value"` table
//! (with a proof that writing and reading back is the identity), the
//! argument lists handed to git and the reading of git's output, the
//! per-project configuration paths, the installed hook script, and the
//! chat-completion request that asks for the message.
//!
//! Everything that touches the outside world — the filesystem, the git
//! subprocess, the HTTP call — lives outside the library and exchanges
//! plain values with it.

pub mod config;
pub mod git_integration;
pub mod install;
pub mod llm;
pub mod numfmt;
pub mod strutil;
pub mod toml_text;
