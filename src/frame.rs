//! The frame carried by a message.
use vstd::prelude::*;

verus! {

/// The opcode of a frame.
#[derive(Clone, Copy, Debug, PartialEq, Eq, Structural)]
pub enum OpCode {
    Continue,
    Text,
    Binary,
    Close,
    Ping,
    Pong,
}

/// One WebSocket frame: the final-fragment flag, the opcode, the
/// application data (if any) and the announced payload length.
#[derive(Clone, Debug, PartialEq, Eq)]
pub struct Frame {
    pub fin: bool,
    pub opcode: OpCode,
    pub application_data: Option<Vec<u8>>,
    pub payload_length: u64,
}

/// The bytes a frame contributes to a message: its application data, or
/// nothing when it carries none.
pub open spec fn data_of(f: Frame) -> Seq<u8> {
    match f.application_data {
        Some(d) => d@,
        None => Seq::empty(),
    }
}

impl Frame {
    /// A frame with the given fields.
    pub fn new(fin: bool, opcode: OpCode, application_data: Option<Vec<u8>>, payload_length: u64)
        -> (r: Frame)
        ensures
            r.fin == fin,
            r.opcode == opcode,
            r.application_data == application_data,
            r.payload_length == payload_length,
    {
        Frame { fin, opcode, application_data, payload_length }
    }

    /// A data frame (`Text` or `Binary`) that ends its message.
    pub open spec fn is_final_data(&self) -> bool {
        self.fin && (self.opcode == OpCode::Text || self.opcode == OpCode::Binary)
    }

    /// Whether the per-message extension chain applies to this frame: only
    /// to a final `Text` or `Binary` frame.
    pub fn needs_ext_decode(&self) -> (r: bool)
        ensures
            r == self.is_final_data(),
    {
        self.fin && (self.opcode == OpCode::Text || self.opcode == OpCode::Binary)
    }
}

} // verus!
