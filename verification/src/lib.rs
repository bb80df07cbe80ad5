//! A personal task-list library: tasks ("todos") grouped into named spaces,
//! serialized to and from a line-oriented markdown-like text form.
//!
//! The library owns the in-memory model and the text codec; reading and
//! writing the backing file is left to the caller.

pub mod laws;
pub mod manager;
pub mod model;
pub mod parse;
pub mod render;
pub mod text;
