//! A terminal client for HTTP requests, as a library: the modal engine that
//! edits its text fields, the cache that wraps styled text to the view, and
//! the rules of the collection, the sidebar and the configuration around
//! them. Terminal, files, network and clipboard are the host's.
pub mod app;
pub mod buffer;
pub mod clipboard;
pub mod config;
pub mod editor;
pub mod http;
pub mod keys;
pub mod laws;
pub mod perf;
pub mod sidebar;
pub mod storage;
pub mod text;
pub mod ui;
pub mod vim;
