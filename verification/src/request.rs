//! Wire codec: fixed 5-byte protocol frames.
//!
//! Byte 0 carries the operation code (1 = Request, 2 = Grant, 3 = Release);
//! bytes 1 through 4 carry the process id as a big-endian `u32`. A frame is
//! fully determined by its 5 encoded bytes.

use vstd::prelude::*;

verus! {

/// The three protocol operations. Their fixed numeric codes on the wire are
/// 1, 2 and 3; no other code is valid.
#[derive(Debug, Clone, Copy, PartialEq, Eq, Structural)]
pub enum Operation {
    Request,
    Grant,
    Release,
}

/// A single wire frame: one operation together with the sending or addressed
/// process id.
#[derive(Debug, Clone, Copy, PartialEq, Eq, Structural)]
pub struct Request {
    pub operation: Operation,
    pub id: u32,
}

/// Decoding failure: byte 0 of the frame is not a valid operation code.
#[derive(Debug, Clone, Copy, PartialEq, Eq, Structural)]
pub struct ProtocolViolation;

/// The wire code of an operation.
pub open spec fn op_code(op: Operation) -> u8 {
    match op {
        Operation::Request => 1,
        Operation::Grant => 2,
        Operation::Release => 3,
    }
}

/// The operation encoded by a byte, if any.
pub open spec fn op_of_code(code: u8) -> Option<Operation> {
    if code == 1 {
        Some(Operation::Request)
    } else if code == 2 {
        Some(Operation::Grant)
    } else if code == 3 {
        Some(Operation::Release)
    } else {
        None
    }
}

/// The big-endian bytes of a process id, most significant first.
pub open spec fn id_byte(id: u32, k: int) -> u8 {
    if k == 0 {
        (((id >> 24) & 0xff) as u8)
    } else if k == 1 {
        (((id >> 16) & 0xff) as u8)
    } else if k == 2 {
        (((id >> 8) & 0xff) as u8)
    } else {
        ((id & 0xff) as u8)
    }
}

/// The 5 bytes that encode a frame.
pub open spec fn frame_bytes(f: Request) -> Seq<u8> {
    seq![op_code(f.operation), id_byte(f.id, 0), id_byte(f.id, 1), id_byte(f.id, 2), id_byte(f.id, 3)]
}

/// The process id read back from 4 big-endian bytes.
pub open spec fn be_word(b0: u8, b1: u8, b2: u8, b3: u8) -> u32 {
    (((b0 as u32) << 24) | ((b1 as u32) << 16) | ((b2 as u32) << 8) | (b3 as u32))
}

/// The frame encoded by 5 bytes, if byte 0 holds a valid operation code.
pub open spec fn parse_frame(bytes: Seq<u8>) -> Option<Request>
    recommends
        bytes.len() == 5,
{
    match op_of_code(bytes[0]) {
        Some(op) => Some(Request { operation: op, id: be_word(bytes[1], bytes[2], bytes[3], bytes[4]) }),
        None => None,
    }
}

impl Request {
    /// Encode this frame into its 5 wire bytes: the operation code followed
    /// by the process id in big-endian order.
    pub fn as_bytes(&self) -> (bytes: [u8; 5])
        ensures
            bytes@ == frame_bytes(*self),
    {
        let op: u8 = match self.operation {
            Operation::Request => 1,
            Operation::Grant => 2,
            Operation::Release => 3,
        };
        proof {
            let id = self.id;
            assert(((id >> 24) & 0xff) < 256 && ((id >> 16) & 0xff) < 256
                && ((id >> 8) & 0xff) < 256 && (id & 0xff) < 256) by (bit_vector);
        }
        let b0: u8 = ((self.id >> 24) & 0xff) as u8;
        let b1: u8 = ((self.id >> 16) & 0xff) as u8;
        let b2: u8 = ((self.id >> 8) & 0xff) as u8;
        let b3: u8 = (self.id & 0xff) as u8;
        let bytes: [u8; 5] = [op, b0, b1, b2, b3];
        proof {
            assert(bytes@ =~= frame_bytes(*self));
        }
        bytes
    }

    /// Decode 5 wire bytes into a frame. Fails with a [`ProtocolViolation`]
    /// exactly when byte 0 is not one of the three operation codes.
    pub fn decode(bytes: &[u8; 5]) -> (r: Result<Request, ProtocolViolation>)
        ensures
            match r {
                Ok(f) => parse_frame(bytes@) == Some(f),
                Err(_) => parse_frame(bytes@) is None,
            },
    {
        let op = match bytes[0] {
            1u8 => Operation::Request,
            2u8 => Operation::Grant,
            3u8 => Operation::Release,
            _ => {
                return Err(ProtocolViolation);
            },
        };
        let id: u32 = ((bytes[1] as u32) << 24) | ((bytes[2] as u32) << 16)
            | ((bytes[3] as u32) << 8) | (bytes[4] as u32);
        Ok(Request { operation: op, id })
    }
}

/// Decode 5 wire bytes and accept the frame only when it carries the expected
/// operation; any decoding failure or operation mismatch yields `None`.
pub fn parse_request(bytes: &[u8; 5], expected_operation: Operation) -> (r: Option<Request>)
    ensures
        match r {
            Some(f) => parse_frame(bytes@) == Some(f) && f.operation == expected_operation,
            None => match parse_frame(bytes@) {
                Some(f) => f.operation != expected_operation,
                None => true,
            },
        },
{
    match Request::decode(bytes) {
        Ok(f) => {
            if f.operation == expected_operation {
                Some(f)
            } else {
                None
            }
        },
        Err(_) => None,
    }
}

/// Round-trip law: decoding the encoding of any frame yields that frame back.
pub proof fn lemma_round_trip(f: Request)
    ensures
        parse_frame(frame_bytes(f)) == Some(f),
{
    let bytes = frame_bytes(f);
    assert(op_of_code(bytes[0]) == Some(f.operation));
    let id = f.id;
    let b0 = id_byte(id, 0);
    let b1 = id_byte(id, 1);
    let b2 = id_byte(id, 2);
    let b3 = id_byte(id, 3);
    assert((((b0 as u32) << 24) | ((b1 as u32) << 16) | ((b2 as u32) << 8) | (b3 as u32)) == id)
        by (bit_vector)
        requires
            b0 == ((id >> 24) & 0xff) as u8,
            b1 == ((id >> 16) & 0xff) as u8,
            b2 == ((id >> 8) & 0xff) as u8,
            b3 == (id & 0xff) as u8,
    ;
    assert(be_word(b0, b1, b2, b3) == id);
}

/// Decoding rejects exactly the byte strings whose operation code is 0 or 4
/// and above: no frame at all is parsed from them.
pub proof fn lemma_decode_rejects(bytes: Seq<u8>)
    requires
        bytes.len() == 5,
    ensures
        parse_frame(bytes) is None <==> (bytes[0] == 0 || bytes[0] >= 4),
{
}

} // verus!
