//! Findybara's core: the rules that turn a Finder selection into the panel
//! state shown to the user, the text handling around the local language
//! model, and the small decision procedures the desktop shell drives.

pub mod commands;
pub mod config;
pub mod decimal;
pub mod mac_finder;
pub mod ollama;
pub mod paths;
pub mod stats;
pub mod text;
pub mod tracker;
