//! Interactive region selection over a captured display image.
//!
//! The library holds the logic of a screenshot tool: the geometry of points
//! and rectangles, the staged compositor context, the capture handshake, the
//! application phase sequence and the selection engine with its incremental
//! redraw. Talking to the compositor is left to the program around it.

pub mod context;
pub mod draw;
pub mod phase;
pub mod points;
pub mod rect_fmt;
pub mod region;
pub mod screenshot;
pub mod selection;
