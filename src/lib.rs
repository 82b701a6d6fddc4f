//! Visitor statistics: the value model of query cells, the renderers that turn a
//! query result into an HTML table, a map script or a JSON document, and the
//! statements (with their meaning over a model of the two tables) that record a visit.
pub mod cell;
pub mod page;
pub mod render;
pub mod store;
pub mod visit;

pub use cell::Cell;
