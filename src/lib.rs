//! Markdown slide-deck detection and presentation-page generation, with the small pieces
//! of viewer state and path handling around them.

pub mod assets;
pub mod escape;
pub mod page;
pub mod paths;
pub mod slides;
pub mod slidev;
pub mod state;
pub mod text;
