//! An interactive builder of HTTP requests from an OpenAPI description.
//!
//! The document model and its reference resolver live in [`document`]; the
//! normalizer that turns a schema into a promptable type tree in [`schema`];
//! the widget protocol, its leaf widgets and its composites in [`prompts`]
//! and [`composite`], with their presentation in [`render`] and their value
//! checks in [`validate`]; the collected values in [`value`]; and the
//! request assembly and output formatting in [`api`], [`req`] and [`fmt`].

pub mod api;
pub mod composite;
pub mod document;
pub mod fmt;
pub mod prompts;
pub mod render;
pub mod req;
pub mod schema;
pub mod text;
pub mod validate;
pub mod value;
