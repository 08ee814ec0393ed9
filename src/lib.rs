//! Resolution of mock responses against an OpenAPI document: path templates,
//! operations, responses by status code, references into the component
//! registry, and the choice of one named example for a request.
pub mod args;
pub mod engine;
pub mod examples;
pub mod model;
pub mod path;
pub mod query;
pub mod refs;
pub mod text;
