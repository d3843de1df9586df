//! Lazy, configurable key-path traversal of an in-memory JSON tree.
//!
//! A [`Value`] tree is walked depth first, in document order; every visited
//! node comes out as an [`Element`] carrying its rendered path, the array
//! positions crossed to reach it, and a reference to the node. How paths are
//! rendered and which container nodes are emitted is decided by a [`Style`],
//! made by a [`StyleBuilder`] or taken from a [`PresetStyle`].

pub mod builder;
pub mod iter;
pub mod laws;
pub mod preset;
pub mod style;
pub mod value;

pub use builder::{BuilderModel, StyleBuilder};
pub use iter::{Element, ElementModel, Iter};
pub use preset::PresetStyle;
pub use style::{ConfigurationError, Style, StyleModel};
pub use value::Value;
