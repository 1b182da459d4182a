//! A document transformation engine for static sites: a registry of the
//! resources of a project, a walker that applies an ordered list of
//! transformers to the node tree of a document, and the transformers for
//! variables, links between resources, math and highlighted code.

pub mod attributes;
pub mod bindings;
pub mod deindent;
pub mod error;
pub mod fragment;
pub mod highlight;
pub mod links;
pub mod markup;
pub mod math;
pub mod processor;
pub mod resource_manager;
pub mod text;
pub mod treewalker;
pub mod variables;
pub mod walk_laws;

pub use error::ConfigurafoxError;
pub use processor::HTMLProcessor;
pub use processor::IdentityProcessor;
