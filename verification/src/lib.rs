//! Transport layer for a dual-core microcontroller: the application core and a
//! closed-firmware coprocessor share a fixed memory region and a doorbell
//! interrupt, and exchange fixed-size buffers through intrusive queues.
//!
//! This crate verifies the protocol logic of that layer: the intrusive queue
//! primitive, the buffer pool with its ownership discipline, the packed wire
//! record formats, the event handle, the reference-table directory, and the
//! ingestion pipeline that routes received records to a single-slot mailbox or
//! a bounded event channel. A cross-core address is modelled as the index of
//! the buffer it designates; the hardware doorbell, the memory barrier and the
//! interrupt plumbing stay outside the library, with the platform layer that
//! drives it.

use vstd::prelude::*;
use vstd::pervasive::VecAdditionalExecFns;

pub mod cmd;
pub mod evt;
pub mod ipc;
pub mod mm;
pub mod queue;
pub mod tables;

use crate::evt::{
    cc_evt_of_bytes, is_command_outcome_code, record_evt_code, record_payload, record_payload_len,
    CcEvt, EvtBox, TL_CC_EVT_SIZE,
};
use crate::ipc::{
    cc_signal_post, cc_signal_try_take, evt_channel_contents, evt_channel_try_receive,
    evt_channel_try_send, mailbox_contents, new_cc_signal, new_evt_channel, CcSignal, EvtChannel,
};
use crate::mm::MemoryManager;
use crate::tables::RefTable;

verus! {

/// Size in bytes of the packet header at the head of every shared buffer:
/// one intrusive queue node, two 32-bit links.
pub const TL_PACKET_HEADER_SIZE: usize = 8;

/// Size in bytes of the serial event header: kind, event code, payload length.
pub const TL_EVT_HEADER_SIZE: usize = 3;

/// Largest event payload a pool buffer must be able to hold.
pub const TL_MOST_EVENT_PAYLOAD_SIZE: usize = 255;

/// Smallest admissible pool buffer: packet header, event header and a
/// maximal payload must fit.
pub const TL_EVT_BUF_MIN_SIZE: usize = TL_PACKET_HEADER_SIZE + TL_EVT_HEADER_SIZE
    + TL_MOST_EVENT_PAYLOAD_SIZE;

/// Smallest admissible command buffer: packet header, kind byte, command
/// header and a maximal command payload must fit.
pub const TL_CMD_BUF_MIN_SIZE: usize = TL_PACKET_HEADER_SIZE + 1 + cmd::CMD_HEADER_SIZE
    + cmd::CMD_MAX_PAYLOAD;

/// Number of asynchronous events the bounded event channel can hold before
/// the producing side is rejected.
pub const EVT_CHANNEL_CAPACITY: usize = 32;

/// Division rounding up; used to round buffer sizes to word multiples.
pub fn divc(x: usize, y: usize) -> (r: usize)
    requires
        y > 0,
        x + y <= usize::MAX,
    ensures
        r == (x + y - 1) / (y as int),
{
    (x + y - 1) / y
}

/// The outcome of ingesting one pending buffer.
pub enum DrainStep {
    /// The pending queue was empty; nothing changed.
    Empty,
    /// A command outcome was latched in the mailbox, overwriting any value
    /// not yet consumed, and its buffer went back to the free queue.
    CommandOutcome,
    /// A command-outcome record too short for its own layout: surfaced as a
    /// decode failure, and its buffer still went back to the free queue.
    Malformed,
    /// An unsolicited event was delivered to the bounded event channel.
    Delivered,
    /// The bounded event channel is full, a capacity-sizing contract
    /// violation: the undelivered event comes back to the caller, which
    /// still owns its buffer.
    ChannelFull(EvtBox),
}

/// The transport mailbox: the buffer pool shared with the coprocessor, the
/// published reference table, the dedicated command buffer, and the two
/// application-facing hand-off primitives fed by the ingestion pipeline.
pub struct TlMbox {
    /// The buffer pool and its cross-core queues. The producing side of the
    /// protocol (the coprocessor) claims free buffers and posts completed
    /// records through it.
    pub mm_subsystem: MemoryManager,
    /// The bounded channel of unsolicited events awaiting the application.
    pub evt_channel: EvtChannel,
    /// The single-slot mailbox holding the last command outcome.
    pub last_cc_evt: CcSignal,
    /// The dedicated command buffer the application serializes commands into.
    pub cmd_buf: Vec<u8>,
    /// The published directory of subsystem table addresses.
    pub ref_table: RefTable,
}

impl TlMbox {
    /// The events buffered in the bounded channel, oldest first, each as its
    /// buffer address and buffer bytes.
    pub open spec fn channel_model(self) -> Seq<(usize, Seq<u8>)> {
        evt_channel_contents(self.evt_channel).map_values(
            |e: EvtBox| (e.buffer_addr(), e.contents()),
        )
    }

    /// The event handles buffered in the bounded channel, oldest first.
    pub open spec fn channel_boxes(self) -> Seq<EvtBox> {
        evt_channel_contents(self.evt_channel)
    }

    /// The command outcome currently latched in the mailbox, if any.
    pub open spec fn mailbox(self) -> Option<CcEvt> {
        mailbox_contents(self.last_cc_evt)
    }

    /// The pending queue of delivered, not yet ingested buffers.
    pub open spec fn pending(self) -> Seq<usize> {
        self.mm_subsystem.pend_q()
    }

    /// Address of the oldest pending buffer.
    pub open spec fn head_addr(self) -> usize
        recommends
            self.pending().len() > 0,
    {
        self.pending()[0]
    }

    /// Bytes of the oldest pending buffer.
    pub open spec fn head_bytes(self) -> Seq<u8>
        recommends
            self.pending().len() > 0,
    {
        self.mm_subsystem.buf_at(self.head_addr())
    }

    /// The published reference table.
    pub open spec fn ref_table_view(self) -> RefTable {
        self.ref_table
    }

    /// The dedicated command buffer.
    pub open spec fn cmd_buffer(self) -> Seq<u8> {
        self.cmd_buf@
    }

    /// The transport invariant: the pool is well formed, the channel never
    /// holds more than its capacity, and every buffered event handle owns a
    /// claimed, full-size buffer.
    pub open spec fn wf(self) -> bool {
        &&& self.mm_subsystem.wf()
        &&& self.channel_boxes().len() <= EVT_CHANNEL_CAPACITY
        &&& forall|i: int|
            0 <= i < self.channel_boxes().len() ==> (#[trigger] self.channel_boxes()[i]).wf()
                && self.channel_boxes()[i].contents().len() == self.mm_subsystem.buf_size()
                && self.mm_subsystem.claimed(self.channel_boxes()[i].buffer_addr())
        &&& self.cmd_buf@.len() == self.mm_subsystem.buf_size()
        &&& self.cmd_buf@.len() >= TL_CMD_BUF_MIN_SIZE
    }

    /// One-shot initialization: publishes the reference-table directory,
    /// builds the pool of `n_bufs` zeroed buffers rounded up to a word
    /// multiple of the largest event frame, seeds the free queue with every
    /// buffer in address order, and leaves the pending queue, the event
    /// channel and the mailbox empty. It must run before the coprocessor is
    /// released; owning the returned value is the capability to operate the
    /// transport, so the sequence cannot be re-run against the same state.
    pub fn init(ref_table: RefTable, n_bufs: usize) -> (r: TlMbox)
        requires
            n_bufs + 2 <= usize::MAX,
        ensures
            r.wf(),
            r.ref_table_view() == ref_table,
            r.mm_subsystem.n_bufs() == n_bufs,
            r.mm_subsystem.free_q().len() == n_bufs,
            forall|i: int| 0 <= i < n_bufs ==> #[trigger] r.mm_subsystem.free_q()[i] == i,
            r.pending().len() == 0,
            r.channel_model().len() == 0,
            r.mailbox() is None,
    {
        let buf_size = 4 * divc(TL_EVT_BUF_MIN_SIZE, 4);
        let mm_subsystem = MemoryManager::new(n_bufs, buf_size);
        let cmd_buf = mm::zeroed_buf(buf_size);
        TlMbox {
            mm_subsystem,
            evt_channel: new_evt_channel(),
            last_cc_evt: new_cc_signal(),
            cmd_buf,
            ref_table,
        }
    }

    /// The published reference table, read-only after initialization.
    pub fn ref_table(&self) -> (r: &RefTable)
        ensures
            *r == self.ref_table_view(),
    {
        &self.ref_table
    }

    /// Ingests the oldest pending buffer, as the doorbell handler does for
    /// each entry it drains: a command-outcome record (status or completion)
    /// is decoded and latched in the single-slot mailbox, overwriting any
    /// unconsumed value, and its buffer is reclaimed; any other record is
    /// wrapped as an owning event handle and delivered to the bounded
    /// channel. A full channel rejects the delivery and the handle comes
    /// back to the caller; a command-outcome record too short for the
    /// outcome layout is a decode failure, and its buffer is still
    /// reclaimed.
    pub fn drain_one(&mut self) -> (r: DrainStep)
        requires
            old(self).wf(),
        ensures
            final(self).wf(),
            final(self).mm_subsystem.n_bufs() == old(self).mm_subsystem.n_bufs(),
            final(self).mm_subsystem.buf_size() == old(self).mm_subsystem.buf_size(),
            final(self).ref_table_view() == old(self).ref_table_view(),
            final(self).cmd_buffer() == old(self).cmd_buffer(),
            old(self).pending().len() == 0 ==> r is Empty && final(self).pending() == old(
                self,
            ).pending() && final(self).mm_subsystem.free_q() == old(self).mm_subsystem.free_q()
                && final(self).channel_model() == old(self).channel_model() && final(self).mailbox()
                == old(self).mailbox(),
            old(self).pending().len() > 0 ==> final(self).pending() == old(
                self,
            ).pending().drop_first(),
            old(self).pending().len() > 0 && is_command_outcome_code(
                record_evt_code(old(self).head_bytes()),
            ) && record_payload_len(old(self).head_bytes()) >= TL_CC_EVT_SIZE ==> r
                is CommandOutcome && final(self).mailbox() == Some(
                cc_evt_of_bytes(record_payload(old(self).head_bytes())),
            ) && final(self).channel_model() == old(self).channel_model() && final(self).mm_subsystem.free_q() == old(self).mm_subsystem.free_q().push(old(self).head_addr()),
            old(self).pending().len() > 0 && is_command_outcome_code(
                record_evt_code(old(self).head_bytes()),
            ) && record_payload_len(old(self).head_bytes()) < TL_CC_EVT_SIZE ==> r is Malformed
                && final(self).mailbox() == old(self).mailbox() && final(self).channel_model()
                == old(self).channel_model() && final(self).mm_subsystem.free_q() == old(
                self,
            ).mm_subsystem.free_q().push(old(self).head_addr()),
            old(self).pending().len() > 0 && !is_command_outcome_code(
                record_evt_code(old(self).head_bytes()),
            ) && old(self).channel_model().len() < EVT_CHANNEL_CAPACITY ==> r is Delivered && final(self).channel_model() == old(self).channel_model().push(
                (old(self).head_addr(), old(self).head_bytes()),
            ) && final(self).mailbox() == old(self).mailbox() && final(self).mm_subsystem.free_q()
                == old(self).mm_subsystem.free_q(),
            old(self).pending().len() > 0 && !is_command_outcome_code(
                record_evt_code(old(self).head_bytes()),
            ) && old(self).channel_model().len() >= EVT_CHANNEL_CAPACITY ==> r is ChannelFull
                && r->ChannelFull_0.buffer_addr() == old(self).head_addr()
                && r->ChannelFull_0.contents() == old(self).head_bytes() && r->ChannelFull_0.wf()
                && final(self).mm_subsystem.claimed(old(self).head_addr()) && final(self).channel_model() == old(self).channel_model() && final(self).mailbox() == old(
                self,
            ).mailbox() && final(self).mm_subsystem.free_q() == old(self).mm_subsystem.free_q(),
    {
        let popped = self.mm_subsystem.pop_event();
        let ghost mid = self.mm_subsystem;
        match popped {
            None => DrainStep::Empty,
            Some(evt) => {
                proof {
                    assert(old(self).pending().contains(old(self).head_addr()));
                }
                let stub = evt.stub();
                if stub.evt_code == evt::EVT_CODE_COMMAND_COMPLETE || stub.evt_code
                    == evt::EVT_CODE_COMMAND_STATUS {
                    let outcome = {
                        let payload = evt.payload();
                        if payload.len() >= TL_CC_EVT_SIZE {
                            let cc = CcEvt::read(payload);
                            cc_signal_post(&mut self.last_cc_evt, cc);
                            DrainStep::CommandOutcome
                        } else {
                            DrainStep::Malformed
                        }
                    };
                    self.mm_subsystem.evt_handled(evt);
                    proof {
                        self.lemma_boxes_claimed(*old(self), mid);
                    }
                    outcome
                } else {
                    let sent = evt_channel_try_send(&mut self.evt_channel, evt);
                    match sent {
                        Ok(()) => {
                            proof {
                                assert(self.channel_boxes() == old(self).channel_boxes().push(evt));
                                assert(self.channel_boxes().last() == evt);
                                assert(self.channel_model() =~= old(self).channel_model().push(
                                    (old(self).head_addr(), old(self).head_bytes()),
                                ));
                                self.lemma_boxes_claimed(*old(self), mid);
                            }
                            DrainStep::Delivered
                        },
                        Err(b) => {
                            proof {
                                self.lemma_boxes_claimed(*old(self), mid);
                            }
                            DrainStep::ChannelFull(b)
                        },
                    }
                }
            },
        }
    }

    /// Every event handle buffered in the channel after an ingestion step
    /// still owns a claimed, full-size buffer: the ingested buffer came out
    /// of the pending queue, where no claimed address can sit, so taking it
    /// out and possibly reclaiming it touches no buffered handle's buffer.
    proof fn lemma_boxes_claimed(self, pre: TlMbox, mid: MemoryManager)
        requires
            pre.wf(),
            pre.pending().len() > 0,
            self.mm_subsystem.buf_size() == pre.mm_subsystem.buf_size(),
            forall|b: usize| pre.mm_subsystem.claimed(b) ==> mid.claimed(b),
            forall|b: usize| b != pre.head_addr() && mid.claimed(b) ==> self.mm_subsystem.claimed(b),
            self.channel_boxes() == pre.channel_boxes() || (self.channel_boxes()
                == pre.channel_boxes().push(self.channel_boxes().last())
                && self.channel_boxes().last().wf() && self.channel_boxes().last().contents().len()
                == self.mm_subsystem.buf_size() && self.mm_subsystem.claimed(
                self.channel_boxes().last().buffer_addr(),
            )),
        ensures
            forall|i: int|
                0 <= i < self.channel_boxes().len() ==> (#[trigger] self.channel_boxes()[i]).wf()
                    && self.channel_boxes()[i].contents().len() == self.mm_subsystem.buf_size()
                    && self.mm_subsystem.claimed(self.channel_boxes()[i].buffer_addr()),
    {
        assert(pre.pending().contains(pre.head_addr()));
        pre.mm_subsystem.lemma_queued_not_claimed(pre.head_addr());
        assert forall|i: int| 0 <= i < self.channel_boxes().len() implies (#[trigger] self.channel_boxes()[i]).wf()
            && self.channel_boxes()[i].contents().len() == self.mm_subsystem.buf_size()
            && self.mm_subsystem.claimed(self.channel_boxes()[i].buffer_addr()) by {
            if i < pre.channel_boxes().len() {
                let b = pre.channel_boxes()[i];
                assert(self.channel_boxes()[i] == b);
                assert(pre.mm_subsystem.claimed(b.buffer_addr()));
                assert(b.buffer_addr() != pre.head_addr());
                assert(mid.claimed(b.buffer_addr()));
            }
        }
    }

    /// Drains the pending queue, as the doorbell handler does on each
    /// notification: ingests records oldest first until the queue is empty,
    /// or until the bounded channel rejects a delivery, in which case the
    /// rejected handle comes back to the caller, which still owns its
    /// buffer.
    pub fn drain(&mut self) -> (r: Option<EvtBox>)
        requires
            old(self).wf(),
        ensures
            final(self).wf(),
            final(self).mm_subsystem.n_bufs() == old(self).mm_subsystem.n_bufs(),
            final(self).mm_subsystem.buf_size() == old(self).mm_subsystem.buf_size(),
            final(self).ref_table_view() == old(self).ref_table_view(),
            final(self).cmd_buffer() == old(self).cmd_buffer(),
            r is None ==> final(self).pending().len() == 0,
            r is Some ==> r->Some_0.wf() && final(self).mm_subsystem.claimed(
                r->Some_0.buffer_addr(),
            ) && !is_command_outcome_code(record_evt_code(r->Some_0.contents())) && final(self).channel_model().len() >= EVT_CHANNEL_CAPACITY,
    {
        loop
            invariant
                self.wf(),
                self.mm_subsystem.n_bufs() == old(self).mm_subsystem.n_bufs(),
                self.mm_subsystem.buf_size() == old(self).mm_subsystem.buf_size(),
                self.ref_table_view() == old(self).ref_table_view(),
                self.cmd_buffer() == old(self).cmd_buffer(),
            decreases self.pending().len(),
        {
            let step = self.drain_one();
            match step {
                DrainStep::Empty => {
                    return None;
                },
                DrainStep::ChannelFull(b) => {
                    return Some(b);
                },
                _ => {},
            }
        }
    }

    /// Removes and returns the oldest unsolicited event from the bounded
    /// channel, or nothing when it is empty; events come out in the order
    /// the ingestion pipeline delivered them. The returned handle owns a
    /// claimed buffer and must eventually be reclaimed through the pool.
    pub fn receive_event(&mut self) -> (r: Option<EvtBox>)
        requires
            old(self).wf(),
        ensures
            final(self).wf(),
            final(self).mm_subsystem == old(self).mm_subsystem,
            final(self).mailbox() == old(self).mailbox(),
            final(self).ref_table_view() == old(self).ref_table_view(),
            old(self).channel_model().len() == 0 ==> r is None && final(self).channel_model()
                == old(self).channel_model(),
            old(self).channel_model().len() > 0 ==> r is Some && r->Some_0.buffer_addr() == old(
                self,
            ).channel_model()[0].0 && r->Some_0.contents() == old(self).channel_model()[0].1
                && r->Some_0.wf() && final(self).mm_subsystem.claimed(r->Some_0.buffer_addr())
                && final(self).channel_model() == old(self).channel_model().drop_first(),
    {
        let got = evt_channel_try_receive(&mut self.evt_channel);
        proof {
            if old(self).channel_model().len() > 0 {
                assert(self.channel_model() =~= old(self).channel_model().drop_first());
            }
        }
        got
    }

    /// Takes the last command outcome out of the single-slot mailbox,
    /// leaving it empty, or reports that no outcome is pending; an outcome
    /// posted before the previous one was consumed has overwritten it.
    pub fn last_command_outcome(&mut self) -> (r: Option<CcEvt>)
        requires
            old(self).wf(),
        ensures
            final(self).wf(),
            final(self).mm_subsystem == old(self).mm_subsystem,
            final(self).channel_model() == old(self).channel_model(),
            final(self).ref_table_view() == old(self).ref_table_view(),
            r == old(self).mailbox(),
            final(self).mailbox() is None,
    {
        cc_signal_try_take(&mut self.last_cc_evt)
    }

    /// Serializes a command into the dedicated command buffer: the packet
    /// kind discriminant, then the opcode low byte first, the payload
    /// length, and exactly the payload bytes. Signalling the transmit
    /// doorbell, and suspending on the mailbox for the outcome, belong to
    /// the platform layer around the library.
    pub fn submit_command(&mut self, opcode: u16, payload: &Vec<u8>)
        requires
            old(self).wf(),
            payload@.len() <= cmd::CMD_MAX_PAYLOAD,
        ensures
            final(self).wf(),
            final(self).mm_subsystem == old(self).mm_subsystem,
            final(self).channel_model() == old(self).channel_model(),
            final(self).mailbox() == old(self).mailbox(),
            final(self).ref_table_view() == old(self).ref_table_view(),
            final(self).cmd_buffer().len() == old(self).cmd_buffer().len(),
            final(self).cmd_buffer()[TL_PACKET_HEADER_SIZE as int] == cmd::TL_PACKET_KIND_SYS_CMD,
            final(self).cmd_buffer().subrange(
                TL_PACKET_HEADER_SIZE + 1 as int,
                TL_PACKET_HEADER_SIZE + 1 + cmd::CMD_HEADER_SIZE + payload@.len(),
            ) == cmd::cmd_bytes(opcode, payload@),
            forall|j: int|
                0 <= j < TL_PACKET_HEADER_SIZE ==> final(self).cmd_buffer()[j] == old(
                    self,
                ).cmd_buffer()[j],
    {
        self.cmd_buf.set(TL_PACKET_HEADER_SIZE, cmd::TL_PACKET_KIND_SYS_CMD);
        let ghost mid = self.cmd_buf@;
        let serial = cmd::encode_cmd(opcode, payload);
        let mut i: usize = 0;
        while i < serial.len()
            invariant
                i <= serial@.len(),
                serial@ == cmd::cmd_bytes(opcode, payload@),
                serial@.len() == cmd::CMD_HEADER_SIZE + payload@.len(),
                payload@.len() <= cmd::CMD_MAX_PAYLOAD,
                self.cmd_buf@.len() == mid.len(),
                mid.len() >= TL_CMD_BUF_MIN_SIZE,
                self.mm_subsystem == old(self).mm_subsystem,
                self.evt_channel == old(self).evt_channel,
                self.last_cc_evt == old(self).last_cc_evt,
                self.ref_table == old(self).ref_table,
                forall|j: int|
                    0 <= j < TL_PACKET_HEADER_SIZE + 1 + i ==> (j < TL_PACKET_HEADER_SIZE + 1
                        ==> #[trigger] self.cmd_buf@[j] == mid[j]) && (TL_PACKET_HEADER_SIZE + 1
                        <= j ==> self.cmd_buf@[j] == serial@[j - (TL_PACKET_HEADER_SIZE + 1)]),
                forall|j: int|
                    TL_PACKET_HEADER_SIZE + 1 + i <= j < mid.len() ==> #[trigger] self.cmd_buf@[j]
                        == mid[j],
            decreases serial@.len() - i,
        {
            self.cmd_buf.set(TL_PACKET_HEADER_SIZE + 1 + i, serial[i]);
            i = i + 1;
        }
        proof {
            assert(self.cmd_buffer().subrange(
                TL_PACKET_HEADER_SIZE + 1 as int,
                TL_PACKET_HEADER_SIZE + 1 + cmd::CMD_HEADER_SIZE + payload@.len(),
            ) =~= cmd::cmd_bytes(opcode, payload@));
        }
    }
}

} // verus!
