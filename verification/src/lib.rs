//! Fonts embedded in a style sheet.
//!
//! A [`FontManager`] collects font files, given as bytes, and renders one
//! `@font-face` rule per font. Each rule carries its font as a `data:` URI, so
//! a page that uses the style sheet fetches no font file.

pub mod detect;
pub mod encoding;
pub mod error;
pub mod family;
pub mod font;
pub mod manager;

pub use detect::Detection;
pub use error::FontError;
pub use manager::FontManager;
