//! A USB CDC-ACM serial port with built-in buffering that implements stream-like behavior.
//!
//! The port buffers the bytes of both directions and decides what goes into each packet. It does
//! not touch the hardware: the functions that move a packet take the transfer itself as a
//! function argument, `write_packet` towards the host and `read_packet` from it.

pub mod buffer;
pub mod cdc_acm;
pub mod error;
pub mod laws;
pub mod operations;
pub mod reader;
pub mod serial_port;
pub mod writer;

pub use crate::buffer::{BufferStore, DefaultBufferStore};
pub use crate::cdc_acm::{CdcAcmClass, Endpoints, LineCoding, LineState, ParityType, StopBits};
pub use crate::error::{NbError, UsbError};
pub use crate::reader::SerialReader;
pub use crate::serial_port::SerialPort;
pub use crate::writer::SerialWriter;
