//! Configuration lifecycle and content-path rules of a small content-site
//! engine: the site model, topic slugs, the directory tree a site needs, and
//! the order in which content files are handed to rendering.
pub mod config;
pub mod content;
pub mod text;
