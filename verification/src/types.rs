//! The argument model: a tagged, recursively structured union of the argument
//! kinds an inbound OSC message can carry, plus the message shape around it.
//!
//! Single- and double-precision arguments are carried as the JSON number text
//! the decode edge rendered for them, so the core itself stays free of
//! floating point; everything else is held as plain values.

use vstd::prelude::*;

verus! {

/// An RGBA color argument.
pub struct OscColorWrapper {
    pub r: u8,
    pub g: u8,
    pub b: u8,
    pub a: u8,
}

/// One OSC argument. `Array` nests arbitrarily deep; `Timestamp` holds whole
/// seconds since the NTP epoch (1900-01-01) and a 1/2^32 fractional part.
pub enum OscTypeWrapper {
    Int32(i32),
    /// JSON number text for a single-precision value, rendered at the decode
    /// edge (for example `1.5`).
    Float32(String),
    Utf8String(String),
    ByteBlob(Vec<u8>),
    Timestamp(u32, u32),
    Int64(i64),
    /// JSON number text for a double-precision value, rendered at the decode
    /// edge.
    Float64(String),
    Char(char),
    Color(OscColorWrapper),
    /// The four raw MIDI bytes: port, status, data1, data2.
    Midi(u8, u8, u8, u8),
    Bool(bool),
    Array(Vec<OscTypeWrapper>),
    Nil,
    Infinitum,
}

/// One decoded, non-Bundle OSC message: an address and its ordered arguments.
pub struct OscMessageWrapper {
    pub address: String,
    pub args: Vec<OscTypeWrapper>,
}

impl OscMessageWrapper {
    pub fn new(address: String, args: Vec<OscTypeWrapper>) -> (m: Self)
        ensures
            m.address@ == address@,
            m.args == args,
    {
        OscMessageWrapper { address, args }
    }
}

} // verus!
