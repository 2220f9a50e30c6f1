//! Finding application templates in a hub index and planning the creation of
//! an application from one of them.
//!
//! The crate holds the decisions of the `new` command: which index entries
//! answer a search, in what order they are shown, which entry a search
//! selects, and what is handed to the template engine. It performs no I/O;
//! the caller fetches the index, prints, prompts and runs the template.

pub mod command;
pub mod entry;
pub mod order;
pub mod text;
