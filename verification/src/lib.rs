//! Driver core for WS2812 addressable RGB LED strips over a synchronous
//! serial peripheral with DMA.
//!
//! The strip's one-wire protocol is timing based: each logical bit is a pulse
//! whose high time decides whether it is a 0 or a 1. This crate renders an
//! ordered pixel sequence into a byte buffer whose bit pattern, clocked out at
//! the configured serial rate, reproduces those pulse widths, and it manages
//! the pair of transfer buffers so that the CPU never encodes into memory that
//! the DMA engine is still reading.

pub mod driver;
pub mod encoder;
pub mod pixel;
pub mod scheduler;
