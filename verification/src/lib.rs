//! Model builder for hydrology/hydraulics DAG editors: the node catalog, the
//! directed acyclic graph of nodes and port-to-port edges, selection and
//! gesture state, undo/redo history and model templates.

pub mod chart;
pub mod dag;
pub mod graph;
pub mod history;
pub mod interaction;
pub mod nodes;
pub mod templates;
