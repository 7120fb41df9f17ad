//! Core of a desktop assistant that downloads local language-model files,
//! keeps one of them loaded, and streams generated tokens with cooperative
//! cancellation.

pub mod catalog;
pub mod chat;
pub mod config;
pub mod download;
pub mod folder;
pub mod generation;
pub mod model_slot;
pub mod sampling;
pub mod settings;
pub mod text;
