//! Packaging of a compiled flash algorithm for a debug probe: selection of the
//! build artifact from the compiler's event stream, resolution of the entry
//! points from a symbol listing, encoding of the flat image, rendering of the
//! descriptor record, and the export's sequence of stages.
pub mod descriptor;
pub mod error;
pub mod events;
pub mod image;
pub mod pipeline;
pub mod symbols;
