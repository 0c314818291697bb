//! Turns staged changes into a commit message: the decisions around the
//! version-control tool and the completion service, free of any I/O.
pub mod config;
pub mod git;
pub mod openai;
pub mod shell;
pub mod text;
