//! A component-tree renderer: a tree of text, markup elements, component
//! references and deferred expressions, a store of component instances keyed
//! by stable identities, a builder that fills the store, and a renderer that
//! serialises a tree to HTML.
pub mod identity;
pub mod node;
pub mod store;
pub mod render;
pub mod builder;
pub mod laws;
