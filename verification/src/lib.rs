//! A small templating engine. A source text in an HTML-like markup is parsed
//! into a tree, and the tree is rendered back to HTML with every
//! `{{ name }}` replaced by the value that a context binds to `name`.
//!
//! [`parser::parse`] builds the tree and [`node::render`] renders it. The
//! module [`nesting`] shows that the cursor of the parser follows the nesting
//! of the tags. The module [`http`] holds what the document server around the
//! engine needs to read a request and to frame a response.

pub mod context;
pub mod http;
pub mod nesting;
pub mod node;
pub mod parser;
pub mod placeholder;
pub mod settings;
pub mod text;

pub use settings::Settings;
