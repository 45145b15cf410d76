//! Turns change records and model snapshots of a product-information model
//! into documentation pages, and decides how those pages are published.

pub mod json;
pub mod diff;
pub mod text;
pub mod markup;
pub mod render;
pub mod snapshot;
pub mod family;
pub mod publish;
pub mod service;
