//! A small document browser core: markup values are built into a typed
//! element tree, a stylesheet is resolved onto a fixed style catalog, and a
//! navigation controller keeps browser history across asynchronous loads.
pub mod node;
pub mod text;
pub mod element;
pub mod style;
pub mod size;
pub mod stylesheet;
pub mod document;
pub mod navigation;
