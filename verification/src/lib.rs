//! A donut chart as a figure for a web page: the drawing of a ring whose
//! arcs show the shares of a whole, and a legend that names them.
//!
//! The figure is built as a plain description of elements, which a caller
//! turns into live nodes of a page.

pub mod chart;
pub mod dom;
pub mod figure;
pub mod script;
pub mod shape;
pub mod text;

pub use crate::chart::{Chart, Segment};
pub use crate::dom::{Element, Namespace};
pub use crate::figure::{donut_figure, rust_webassembly_svg_donut_chart};
pub use crate::script::{script_of, write_script, Step};
