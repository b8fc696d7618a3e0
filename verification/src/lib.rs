//! Streaming detection and conversion of LaTeX math in terminal text.
pub mod text;
pub mod scanner;
pub mod stream_scanner;
pub mod symbols;
pub mod converter;
pub mod terminal;
pub mod renderer;
pub mod config;
pub mod render;

