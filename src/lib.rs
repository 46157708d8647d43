//! Keeps fenced example blocks of a prose document in step with tagged
//! regions of example files: substitutes the regions into the document, or
//! reports which blocks have no matching region.
pub mod document;
pub mod error;
pub mod grammar;
pub mod laws;
pub mod locator;
pub mod output;
pub mod scanner;
pub mod text;
