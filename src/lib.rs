//! A static-site content pipeline: documents with TOML frontmatter are split, rendered from
//! markdown with highlighted code and an optional excerpt, given output paths and URLs by
//! their file names, and laid out for a template engine that sees every post, newest first.
pub mod config;
pub mod deploy;
pub mod frontmatter;
pub mod markdown;
pub mod page;
pub mod parser;
pub mod paths;
pub mod post;
pub mod render;
pub mod serve;
pub mod text;
pub mod watch;
