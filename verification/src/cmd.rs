//! The command record wire format: an opcode sent low byte first, an
//! explicit payload length byte, then exactly that many payload bytes. The
//! application serializes a command into the dedicated command buffer and
//! signals the transmit doorbell; the coprocessor parses the same layout.

use vstd::prelude::*;
use vstd::slice::{slice_index_get, slice_subrange};

verus! {

/// Packet kind discriminant of a system command.
pub const TL_PACKET_KIND_SYS_CMD: u8 = 0x10;

/// Largest payload a command record may carry.
pub const CMD_MAX_PAYLOAD: usize = 255;

/// Size of the serialized command header: opcode (two bytes) and length.
pub const CMD_HEADER_SIZE: usize = 3;

/// The serialized form of a command record with the given opcode and
/// payload: opcode low byte, opcode high byte, payload length, payload.
pub open spec fn cmd_bytes(opcode: u16, payload: Seq<u8>) -> Seq<u8>
    recommends
        payload.len() <= CMD_MAX_PAYLOAD,
{
    seq![(opcode % 256) as u8, (opcode / 256) as u8, payload.len() as u8] + payload
}

/// The opcode and payload a serialized command record declares, or nothing
/// when the bytes are too short for their own declared length: a malformed
/// record is a decode failure, never a crash or a silent truncation.
pub open spec fn parse_cmd_spec(s: Seq<u8>) -> Option<(u16, Seq<u8>)> {
    if s.len() < CMD_HEADER_SIZE {
        None
    } else {
        let opcode = (s[0] + s[1] * 256) as u16;
        let len = s[2];
        if s.len() >= CMD_HEADER_SIZE + len {
            Some((opcode, s.subrange(CMD_HEADER_SIZE as int, CMD_HEADER_SIZE + len)))
        } else {
            None
        }
    }
}

/// Serializes a command record: the opcode low byte first, the payload
/// length, then the payload bytes unchanged.
pub fn encode_cmd(opcode: u16, payload: &Vec<u8>) -> (r: Vec<u8>)
    requires
        payload@.len() <= CMD_MAX_PAYLOAD,
    ensures
        r@ == cmd_bytes(opcode, payload@),
{
    let mut out: Vec<u8> = Vec::new();
    out.push((opcode % 256) as u8);
    out.push((opcode / 256) as u8);
    out.push(payload.len() as u8);
    let mut i: usize = 0;
    while i < payload.len()
        invariant
            i <= payload@.len(),
            payload@.len() <= CMD_MAX_PAYLOAD,
            out@.len() == CMD_HEADER_SIZE + i,
            out@ == cmd_bytes(opcode, payload@).subrange(0, CMD_HEADER_SIZE + i),
        decreases payload@.len() - i,
    {
        out.push(payload[i]);
        proof {
            assert(out@ =~= cmd_bytes(opcode, payload@).subrange(0, CMD_HEADER_SIZE + i + 1));
        }
        i = i + 1;
    }
    proof {
        assert(out@ =~= cmd_bytes(opcode, payload@));
    }
    out
}

/// Parses a serialized command record, yielding its opcode and exactly the
/// declared payload bytes; rejects bytes too short for their declared
/// length.
pub fn parse_cmd(buf: &[u8]) -> (r: Option<(u16, Vec<u8>)>)
    ensures
        r is None <==> parse_cmd_spec(buf@) is None,
        r is Some ==> r->Some_0.0 == parse_cmd_spec(buf@)->Some_0.0 && r->Some_0.1@
            == parse_cmd_spec(buf@)->Some_0.1,
{
    if buf.len() < CMD_HEADER_SIZE {
        return None;
    }
    let low = *slice_index_get(buf, 0);
    let high = *slice_index_get(buf, 1);
    let len = *slice_index_get(buf, 2);
    if buf.len() < CMD_HEADER_SIZE + len as usize {
        return None;
    }
    let opcode = (low as u16) + (high as u16) * 256;
    let payload = slice_subrange(buf, CMD_HEADER_SIZE, CMD_HEADER_SIZE + len as usize);
    let mut out: Vec<u8> = Vec::new();
    let mut i: usize = 0;
    while i < payload.len()
        invariant
            i <= payload@.len(),
            out@ == payload@.subrange(0, i as int),
        decreases payload@.len() - i,
    {
        out.push(*slice_index_get(payload, i));
        proof {
            assert(out@ =~= payload@.subrange(0, i + 1));
        }
        i = i + 1;
    }
    proof {
        assert(out@ =~= payload@);
    }
    Some((opcode, out))
}

/// Round trip: serializing a command record with any opcode and any payload
/// of admissible length, then parsing the bytes, yields the opcode and the
/// payload unchanged.
pub proof fn lemma_cmd_round_trip(opcode: u16, payload: Seq<u8>)
    requires
        payload.len() <= CMD_MAX_PAYLOAD,
    ensures
        parse_cmd_spec(cmd_bytes(opcode, payload)) == Some((opcode, payload)),
{
    vstd::arithmetic::div_mod::lemma_fundamental_div_mod(opcode as int, 256);
    let s = cmd_bytes(opcode, payload);
    let r = parse_cmd_spec(s);
    assert(r is Some);
    assert(r->Some_0.0 == opcode);
    assert(s.subrange(CMD_HEADER_SIZE as int, CMD_HEADER_SIZE + payload.len()) =~= payload);
}

} // verus!
