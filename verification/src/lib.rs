//! Markdown preview core: a verified document-model builder that turns a flat
//! token-event stream into a nested block/inline tree, an anchor and table-of-
//! contents generator, a differential ANSI style state machine, and layout
//! logic for terminal and HTML rendering.

pub mod ast;
pub mod anchor;
pub mod builder;
pub mod events;
pub mod files;
pub mod html;
pub mod style;
pub mod terminal;
pub mod textutil;
