//! Wire record formats for events reported by the coprocessor, and the owning
//! event handle. Every record is a packed, fixed-offset structure: a header
//! whose kind discriminant and declared payload length say how to read it;
//! the declared maximum payload array is a ceiling, never the actual extent.

use vstd::prelude::*;
use vstd::slice::{slice_index_get, slice_subrange};

use crate::queue::LinkedListNode;
use crate::{TL_EVT_BUF_MIN_SIZE, TL_EVT_HEADER_SIZE, TL_PACKET_HEADER_SIZE};

verus! {

/// The intrusive queue node at the head of every packet buffer.
pub type PacketHeader = LinkedListNode;

/// Serialized size of a command status event.
pub const TL_CS_EVT_SIZE: usize = 4;

/// Serialized size of a command complete event with its one payload byte.
pub const TL_CC_EVT_SIZE: usize = 4;

/// Event code of a command complete record.
pub const EVT_CODE_COMMAND_COMPLETE: u8 = 0x0e;

/// Event code of a command status record.
pub const EVT_CODE_COMMAND_STATUS: u8 = 0x0f;

/// The payload of `Evt` for a command status event.
#[derive(Clone, Copy)]
pub struct CsEvt {
    pub status: u8,
    pub num_cmd: u8,
    pub cmd_code: u16,
}

/// The payload of `Evt` for a command complete event.
#[derive(Clone, Copy)]
pub struct CcEvt {
    pub num_cmd: u8,
    pub cmd_code: u16,
    pub payload: [u8; 1],
}

/// The packed serialization of a command complete event: the pending-command
/// count, the originating command code low byte first, then the payload byte.
pub open spec fn cc_evt_bytes(c: CcEvt) -> Seq<u8> {
    seq![c.num_cmd, (c.cmd_code % 256) as u8, (c.cmd_code / 256) as u8, c.payload@[0]]
}

/// The command complete event whose serialization starts a byte sequence.
pub open spec fn cc_evt_of_bytes(s: Seq<u8>) -> CcEvt
    recommends
        s.len() >= TL_CC_EVT_SIZE,
{
    CcEvt { num_cmd: s[0], cmd_code: (s[1] + s[2] * 256) as u16, payload: [s[3]] }
}

impl CcEvt {
    /// Serializes this event at the start of `buf`, leaving the rest alone.
    pub fn write(&self, buf: &mut Vec<u8>)
        requires
            old(buf).len() >= TL_CC_EVT_SIZE,
        ensures
            final(buf)@ == cc_evt_bytes(*self) + old(buf)@.skip(TL_CC_EVT_SIZE as int),
    {
        buf.set(0, self.num_cmd);
        buf.set(1, (self.cmd_code % 256) as u8);
        buf.set(2, (self.cmd_code / 256) as u8);
        buf.set(3, self.payload[0]);
        proof {
            assert(buf@ =~= cc_evt_bytes(*self) + old(buf)@.skip(TL_CC_EVT_SIZE as int));
        }
    }

    /// Deserializes a command complete event from the start of `buf`.
    pub fn read(buf: &[u8]) -> (r: CcEvt)
        requires
            buf.len() >= TL_CC_EVT_SIZE,
        ensures
            r == cc_evt_of_bytes(buf@),
    {
        let num_cmd = *slice_index_get(buf, 0);
        let low = *slice_index_get(buf, 1);
        let high = *slice_index_get(buf, 2);
        let payload0 = *slice_index_get(buf, 3);
        CcEvt { num_cmd, cmd_code: (low as u16) + (high as u16) * 256, payload: [payload0] }
    }
}

/// Serializing a command complete event and reading it back yields the event
/// unchanged: the wire layout loses nothing.
pub proof fn lemma_cc_evt_round_trip(c: CcEvt)
    ensures
        cc_evt_of_bytes(cc_evt_bytes(c)) == c,
{
    vstd::arithmetic::div_mod::lemma_fundamental_div_mod(c.cmd_code as int, 256);
    let r = cc_evt_of_bytes(cc_evt_bytes(c));
    assert(r.cmd_code == c.cmd_code);
    assert(r.payload@ =~= c.payload@);
    assert(r.payload == c.payload);
}

/// The payload of `Evt` for an asynchronous (unsolicited) event.
#[derive(Clone, Copy)]
pub struct AsynchEvt {
    pub sub_evt_code: u16,
    pub payload: [u8; 1],
}

/// A generic event: its code, the declared length of its payload, and the
/// first payload byte; the real payload extent is `payload_len`, not the
/// static array size.
#[derive(Clone, Copy)]
pub struct Evt {
    pub evt_code: u8,
    pub payload_len: u8,
    pub payload: [u8; 1],
}

/// The serial event header: the packet kind discriminant, then the event.
#[derive(Clone, Copy)]
pub struct EvtSerial {
    pub kind: u8,
    pub evt: Evt,
}

/// The two header bytes that routing reads: packet kind and event code.
#[derive(Clone, Copy)]
pub struct EvtStub {
    pub kind: u8,
    pub evt_code: u8,
}

/// An event packet as it sits in a shared buffer: the intrusive queue node,
/// then the serial event header.
#[derive(Clone, Copy)]
pub struct EvtPacket {
    pub header: PacketHeader,
    pub evt_serial: EvtSerial,
}

impl EvtPacket {
    /// The packet kind discriminant.
    pub fn kind(&self) -> (r: u8)
        ensures
            r == self.evt_serial.kind,
    {
        self.evt_serial.kind
    }

    /// The event carried by this packet.
    pub fn evt(&self) -> (r: &Evt)
        ensures
            *r == self.evt_serial.evt,
    {
        &self.evt_serial.evt
    }
}

/// Byte offset of the packet kind discriminant inside a buffer.
pub const EVT_KIND_OFFSET: usize = TL_PACKET_HEADER_SIZE;

/// Byte offset of the event code inside a buffer.
pub const EVT_CODE_OFFSET: usize = TL_PACKET_HEADER_SIZE + 1;

/// Byte offset of the declared payload length inside a buffer.
pub const EVT_PAYLOAD_LEN_OFFSET: usize = TL_PACKET_HEADER_SIZE + 2;

/// Byte offset of the first payload byte inside a buffer.
pub const EVT_PAYLOAD_OFFSET: usize = TL_PACKET_HEADER_SIZE + TL_EVT_HEADER_SIZE;

/// The event code of the record serialized in a buffer.
pub open spec fn record_evt_code(s: Seq<u8>) -> u8
    recommends
        s.len() >= TL_EVT_BUF_MIN_SIZE,
{
    s[EVT_CODE_OFFSET as int]
}

/// The declared payload length of the record serialized in a buffer.
pub open spec fn record_payload_len(s: Seq<u8>) -> u8
    recommends
        s.len() >= TL_EVT_BUF_MIN_SIZE,
{
    s[EVT_PAYLOAD_LEN_OFFSET as int]
}

/// The declared payload of the record serialized in a buffer: exactly the
/// declared number of bytes from the fixed payload offset.
pub open spec fn record_payload(s: Seq<u8>) -> Seq<u8>
    recommends
        s.len() >= TL_EVT_BUF_MIN_SIZE,
{
    s.subrange(EVT_PAYLOAD_OFFSET as int, EVT_PAYLOAD_OFFSET + record_payload_len(s) as int)
}

/// An event code that reports the outcome of a command, as a status or as a
/// full completion; every other code is an unsolicited event.
pub open spec fn is_command_outcome_code(code: u8) -> bool {
    code == EVT_CODE_COMMAND_COMPLETE || code == EVT_CODE_COMMAND_STATUS
}

/// An owning reference to one pool buffer currently holding a received event:
/// constructed only by the ingestion pipeline, and reclaimed exactly once by
/// handing it back to the buffer pool. While the handle is live its buffer is
/// in no queue, so the payload view and free-queue membership exclude each
/// other by construction.
pub struct EvtBox {
    addr: usize,
    bytes: Vec<u8>,
}

impl EvtBox {
    /// The index that stands for the cross-core address of the owned buffer.
    pub closed spec fn buffer_addr(self) -> usize {
        self.addr
    }

    /// The bytes of the owned buffer.
    pub closed spec fn contents(self) -> Seq<u8> {
        self.bytes@
    }

    /// The buffer is large enough to hold a packet header, an event header
    /// and a maximal payload, so no declared length can point outside it.
    pub open spec fn wf(self) -> bool {
        self.contents().len() >= TL_EVT_BUF_MIN_SIZE
    }

    /// The event code of the held record.
    pub open spec fn evt_code(self) -> u8
        recommends
            self.wf(),
    {
        record_evt_code(self.contents())
    }

    /// The declared payload length of the held record.
    pub open spec fn payload_len(self) -> u8
        recommends
            self.wf(),
    {
        record_payload_len(self.contents())
    }

    /// The declared payload of the held record: exactly `payload_len` bytes
    /// from the fixed payload offset.
    pub open spec fn payload_view(self) -> Seq<u8>
        recommends
            self.wf(),
    {
        record_payload(self.contents())
    }

    pub(crate) fn new(addr: usize, bytes: Vec<u8>) -> (r: Self)
        ensures
            r.buffer_addr() == addr,
            r.contents() == bytes@,
    {
        EvtBox { addr, bytes }
    }

    /// Gives up the handle, yielding the buffer address and its bytes so the
    /// pool can take the buffer back; the handle itself is consumed.
    pub(crate) fn into_parts(self) -> (r: (usize, Vec<u8>))
        ensures
            r.0 == self.buffer_addr(),
            r.1@ == self.contents(),
    {
        (self.addr, self.bytes)
    }

    /// Returns the routing information of the event: the packet kind and the
    /// event code, read from their fixed header offsets.
    pub fn stub(&self) -> (r: EvtStub)
        requires
            self.wf(),
        ensures
            r.kind == self.contents()[EVT_KIND_OFFSET as int],
            r.evt_code == self.evt_code(),
    {
        EvtStub { kind: self.bytes[EVT_KIND_OFFSET], evt_code: self.bytes[EVT_CODE_OFFSET] }
    }

    /// Returns a view over exactly the declared payload bytes, never the full
    /// static capacity: the declared length is read from the buffer, and the
    /// buffer's size bound keeps every declared length inside it.
    pub fn payload(&self) -> (r: &[u8])
        requires
            self.wf(),
        ensures
            r@ == self.payload_view(),
    {
        let len = self.bytes[EVT_PAYLOAD_LEN_OFFSET];
        slice_subrange(
            self.bytes.as_slice(),
            EVT_PAYLOAD_OFFSET,
            EVT_PAYLOAD_OFFSET + len as usize,
        )
    }
}

} // verus!
