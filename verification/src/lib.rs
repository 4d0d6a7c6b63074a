//! A chat bot core that reacts to an emoji annotation on a message with an
//! image attachment and republishes a rotated copy of that image.
//!
//! The pipeline is: classify the emoji against a fixed eight-entry rotation
//! table, resolve the first image attachment of the referenced message,
//! derive file name and container format from its url, decode the downloaded
//! bytes, rotate the pixels losslessly, re-encode in the source format, and
//! hand the bytes back for posting. Everything here is verified; the
//! platform connection, the network calls and the posting live outside the
//! library and hand plain values in and out.

pub mod codec;
pub mod lookup;
pub mod pipeline;
pub mod raster;
pub mod resolve;
pub mod text;
