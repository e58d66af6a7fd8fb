//! Parser and query layer for ZDC vehicle-diagnostics session exports.
//!
//! A session export is an XML document whose element shapes are selected by
//! discriminant attributes rather than by element names.  This crate turns
//! such a document into a strongly typed tree (`ZdcSession`) and offers
//! title/label-keyed lookups over it.  Every parse either yields a fully
//! validated tree or a structured error; unknown discriminants, unknown
//! attributes and unknown child elements are always rejected.

pub mod binder;
pub mod dump;
pub mod loader;
pub mod model;
pub mod schema;
pub mod strutil;
pub mod xml;
