//! Schema helpers of a derive macro that produces OpenAPI documents: the
//! casing rules of `#[serde(rename_all = ...)]`, the reading of `#[serde(...)]`
//! attributes, and the resolution of a field's Rust type into a chain of
//! component parts.

pub mod component;
pub mod component_type;
pub mod deprecated;
pub mod diagnostics;
pub mod rename_laws;
pub mod rename_rule;
pub mod serde;
pub mod syntax;
pub mod text;
