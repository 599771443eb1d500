//! Content pipeline of a small markdown blog: front-matter parsing, slug
//! derivation, resolution of a slug to its post, and rendering of markdown
//! with highlighted code blocks.
pub mod error;
pub mod front_matter;
pub mod render;
pub mod repository;
pub mod slug;
