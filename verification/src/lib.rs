//! A serial-line command bridge for GPU power-limit control.
//!
//! The crate verifies the command protocol engine of the bridge: decoding a
//! raw byte chunk into a logical line, classifying the line against the
//! ordered command grammar, and turning each classified command plus the
//! outcome of its hardware access into the response that goes back to the
//! serial peer or to local diagnostics.  The serial transport and the sysfs
//! attribute files themselves are handled by the surrounding binary, which
//! feeds plain values into this library and carries its answers out.

pub mod executor;
pub mod laws;
pub mod matcher;
pub mod text;
pub mod transport;
