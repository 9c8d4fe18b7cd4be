//! Markdown articles with embedded math: the span scanner, the render
//! pipeline's decisions and the HTML event emitter.

pub mod text;
pub mod scanner;
pub mod render;
pub mod html;
