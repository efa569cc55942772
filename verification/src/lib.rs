//! Host-side core for talking to G-code printer firmwares over a byte
//! stream: a line serializer with sequence numbers and XOR checksums, a
//! response classifier, the line-splitting logic of the background I/O
//! loop, and the printer handle built around them.

pub mod buffer;
pub mod checksum;
pub mod decimal;
pub mod gcode;
pub mod line;
pub mod printer;
pub mod response;
pub mod serializer;
