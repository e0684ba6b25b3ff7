use vstd::prelude::*;

verus! {

/// Why building, reading or dispatching a packet failed.
#[derive(Debug, Clone, PartialEq, Eq)]
pub enum Packet {
    /// A write would take the frame past its largest size.
    Write { max_size: usize },
    /// A frame carried an opcode that no decoder knows.
    ClientPacketNotFound { opcode: usize },
    /// A frame was too short or malformed for its decoder.
    Decode,
    /// The checksum of a decrypted frame did not match.
    Checksum,
    /// A body had a length that the cipher cannot take.
    Encryption,
    /// A packet came that the link's current stage does not allow.
    UnexpectedState,
}

/// The failure of a packet handler: what to log, and the frame to send before the link
/// closes, if any.
#[non_exhaustive]
#[derive(Debug, Clone)]
pub struct PacketRun {
    pub msg: Option<String>,
    pub response: Option<Vec<u8>>,
}

impl PacketRun {
    pub fn new(msg: Option<String>, response: Option<Vec<u8>>) -> (r: Self)
        ensures
            r.msg == msg,
            r.response == response,
    {
        PacketRun { msg, response }
    }

    /// The message to log; empty when there is none.
    pub fn message(&self) -> (r: String)
        ensures
            r@ == match self.msg {
                Some(m) => m@,
                None => Seq::<char>::empty(),
            },
    {
        match &self.msg {
            Some(m) => m.clone(),
            None => String::new(),
        }
    }
}

} // verus!
