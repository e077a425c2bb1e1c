//! Repository documentation dredging: fetches a repository's file tree from a
//! hosting API (driven from outside), accounts language-model token costs per
//! node, and runs a two-phase pipeline that derives a project context from the
//! README and generates per-file documentation through a language-model
//! backend.
pub mod builder;
pub mod codec;
pub mod context;
pub mod docgen;
pub mod envfile;
pub mod errors;
pub mod pipeline;
pub mod remote;
pub mod stream;
pub mod text;
pub mod tokens;
pub mod tree;
