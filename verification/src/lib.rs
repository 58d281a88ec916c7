//! A small static-site engine core: it turns plain-text documents written in a
//! fixed, lightweight markup into HTML bodies, wraps each body in a shared
//! template, and plans a mirrored output tree for a whole source directory.
//!
//! The modules follow the stages of the pipeline:
//! - [`text`]: character-sequence utilities (search, split, trim, remove).
//! - [`classify`]: splitting a document into literal and formatted segments,
//!   and classifying the lines of a formatted segment.
//! - [`rewrite`]: the ordered chain of inline rewrite rules.
//! - [`convert`]: the full document-to-HTML-body conversion.
//! - [`template`]: substitution of a converted body into the shared template.
//! - [`pipeline`]: planning the output tree for a whole source tree.
//! - [`watch`]: the reaction of the engine to change notifications.

pub mod classify;
pub mod convert;
pub mod pipeline;
pub mod rewrite;
pub mod template;
pub mod text;
pub mod watch;
