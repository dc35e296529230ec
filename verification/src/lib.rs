//! The middle stage of a template compiler: an intermediate representation for
//! render functions, a single-walk transformation engine that threads an
//! ordered list of passes through it, and the builder that turns an element's
//! attributes and directives into a property expression and a patch flag.
//!
//! - `ir`: the tree and its expressions, and their mathematical values.
//! - `pass`: what a pass is, and what it means to run the hooks of a list of
//!   passes on a node.
//! - `walk`: what one walk over a tree comes to.
//! - `transformer`: the engine, which performs that walk.
//! - `laws`: the order of hooks, and walks with passes that do nothing.
//! - `depth_laws`: why the depth that a walk is handed does not matter.
//! - `trace`, `trace_laws`: a pass that records its hooks, and what it records.
//! - `props`, `build_props`, `build_laws`: the builder, what it is handed and
//!   what holds of everything it hands back.
//! - `flags`: the patch flag.
//! - `setup_script`: the script blocks of a component.
//! - `text`, `error`: strings and errors.

pub mod build_laws;
pub mod build_props;
pub mod depth_laws;
pub mod error;
pub mod flags;
pub mod ir;
pub mod laws;
pub mod pass;
pub mod props;
pub mod setup_script;
pub mod text;
pub mod trace;
pub mod trace_laws;
pub mod transformer;
pub mod walk;
