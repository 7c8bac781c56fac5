//! What a serial port knows of the CDC-ACM class that carries its packets.

use vstd::prelude::*;

verus! {

/// The maximum packet size that a serial port asks its class for, in bytes.
pub const MAX_PACKET_SIZE: u16 = 64;

/// The data endpoints of a port. They are fixed when the class allocates them.
#[derive(Debug, Clone, Copy, PartialEq, Eq, Structural)]
pub struct Endpoints {
    /// The address of the endpoint that sends to the host, direction bit included.
    pub write_ep: u8,
    /// The maximum packet size of either data endpoint, in bytes.
    pub max_packet_size: u16,
}

/// Number of stop bits.
#[derive(Debug, Clone, Copy, PartialEq, Eq, Structural)]
pub enum StopBits {
    /// 1 stop bit.
    One,
    /// 1.5 stop bits.
    OnePointFive,
    /// 2 stop bits.
    Two,
}

/// Parity of a word.
#[derive(Debug, Clone, Copy, PartialEq, Eq, Structural)]
pub enum ParityType {
    /// No parity bit.
    NoParity,
    /// Odd parity.
    Odd,
    /// Even parity.
    Even,
    /// The parity bit is always 1.
    Mark,
    /// The parity bit is always 0.
    Space,
}

/// Line coding parameters, which the host sets.
///
/// They are informational: a port without a physical UART behind it carries bytes at whatever
/// rate the bus does.
#[derive(Debug, Clone, Copy, PartialEq, Eq, Structural)]
pub struct LineCoding {
    /// The number of stop bits.
    pub stop_bits: StopBits,
    /// The number of data bits.
    pub data_bits: u8,
    /// The parity of a word.
    pub parity_type: ParityType,
    /// The data rate in bits per second.
    pub data_rate: u32,
}

/// What the host has set by control requests.
#[derive(Debug, Clone, Copy, PartialEq, Eq, Structural)]
pub struct LineState {
    /// The line coding.
    pub line_coding: LineCoding,
    /// DTR (data terminal ready).
    pub dtr: bool,
    /// RTS (request to send).
    pub rts: bool,
}

/// A CDC-ACM class as it stands: its endpoints and what the host has set.
#[derive(Debug, Clone, Copy, PartialEq, Eq, Structural)]
pub struct CdcAcmClass {
    /// The data endpoints.
    pub endpoints: Endpoints,
    /// What the host has set.
    pub lines: LineState,
}

} // verus!
