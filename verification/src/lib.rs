//! Runs one HTTP request out of a plain-text `.http` file: locates the block
//! that holds a given line, parses it into a request, and renders the response
//! that came back as readable, coloured text.

pub mod complete;
pub mod error;
pub mod format;
pub mod install;
pub mod json;
pub mod locate;
pub mod parse;
pub mod pipeline;
pub mod text;
