//! The core of a scaffolding tool: a model of a directory tree with what is
//! open and selected in it, and the rendering of a directory of templates.
//! Everything here is plain computation; reading the disk and drawing are
//! left to the application around it.

pub mod context;
pub mod demo;
pub mod discover;
pub mod engine;
pub mod explorer;
pub mod handoff;
pub mod laws;
pub mod links;
pub mod naming;
pub mod path;
pub mod pipeline;
pub mod scan;
pub mod settings;
pub mod template;
pub mod tree;
