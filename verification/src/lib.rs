//! Concurrent subsystem layer of a modal, terminal-resident text editor:
//! a modal input interpreter, an asynchronous protocol client for a
//! language server, a debounced compile pipeline keyed by document
//! versions, and an incremental, watermark-invalidated render cache.
pub mod buffer;
pub mod buffer_mode;
pub mod compile;
pub mod config;
pub mod core_text;
pub mod draw_cache;
pub mod lsp;
pub mod wire;
mod indent;
pub mod mode;

pub use indent::next_indent_level;
