//! Binding generation for a native library's foreign-call surface: source
//! declarations are classified into a canonical type model, filtered for
//! foreign-call safety, ordered without forward references, and rendered as
//! host-language binding text.

pub mod error;
pub mod types;
pub mod parser;
pub mod order;
pub mod extract;
pub mod python;
pub mod render;
