//! The two application-facing hand-off primitives the ingestion pipeline
//! posts into: a bounded FIFO channel of asynchronous events and a
//! single-slot "last command outcome" mailbox. Both are backed by the
//! `embassy_sync` crate and are external collaborators of the transport:
//! each is held opaquely, and the operations on it state, as trusted
//! contracts, exactly what the backing source shows about its buffering.

use embassy_sync::blocking_mutex::raw::CriticalSectionRawMutex;
use embassy_sync::channel::{Channel, TryReceiveError, TrySendError};
use embassy_sync::signal::Signal;
use vstd::prelude::*;

use crate::evt::{CcEvt, EvtBox};
use crate::EVT_CHANNEL_CAPACITY;

verus! {

/// The bounded queue of unsolicited events awaiting the application,
/// backed by `embassy_sync::channel::Channel`.
#[verifier::external_body]
pub struct EvtChannel {
    inner: Channel<CriticalSectionRawMutex, EvtBox, EVT_CHANNEL_CAPACITY>,
}

/// The single-slot mailbox holding the last command outcome, backed by
/// `embassy_sync::signal::Signal`.
#[verifier::external_body]
pub struct CcSignal {
    inner: Signal<CriticalSectionRawMutex, CcEvt>,
}

/// The events buffered in the channel, oldest first.
pub uninterp spec fn evt_channel_contents(ch: EvtChannel) -> Seq<EvtBox>;

/// The outcome currently latched in the mailbox, if any.
pub uninterp spec fn mailbox_contents(s: CcSignal) -> Option<CcEvt>;

/// Relies on embassy_sync::channel::Channel::new: a fresh channel buffers
/// nothing.
#[verifier::external_body]
pub(crate) fn new_evt_channel() -> (r: EvtChannel)
    ensures
        evt_channel_contents(r) == Seq::<EvtBox>::empty(),
{
    EvtChannel { inner: Channel::new() }
}

/// Relies on embassy_sync::channel::Channel::try_send: appends the message
/// to the buffer when fewer than the capacity are queued, else rejects it
/// and hands it back; messages become receivable in the order sent.
#[verifier::external_body]
pub(crate) fn evt_channel_try_send(ch: &mut EvtChannel, v: EvtBox) -> (r: Result<(), EvtBox>)
    ensures
        evt_channel_contents(*old(ch)).len() < EVT_CHANNEL_CAPACITY ==> r is Ok
            && evt_channel_contents(*final(ch)) == evt_channel_contents(*old(ch)).push(v),
        evt_channel_contents(*old(ch)).len() >= EVT_CHANNEL_CAPACITY ==> r is Err && r->Err_0 == v
            && evt_channel_contents(*final(ch)) == evt_channel_contents(*old(ch)),
{
    match ch.inner.try_send(v) {
        Ok(()) => Ok(()),
        Err(TrySendError::Full(v)) => Err(v),
    }
}

/// Relies on embassy_sync::channel::Channel::try_receive: removes and
/// returns the oldest buffered message, or reports an empty buffer.
#[verifier::external_body]
pub(crate) fn evt_channel_try_receive(ch: &mut EvtChannel) -> (r: Option<EvtBox>)
    ensures
        evt_channel_contents(*old(ch)).len() == 0 ==> r is None && evt_channel_contents(
            *final(ch),
        ) == evt_channel_contents(*old(ch)),
        evt_channel_contents(*old(ch)).len() > 0 ==> r == Some(
            evt_channel_contents(*old(ch))[0],
        ) && evt_channel_contents(*final(ch)) == evt_channel_contents(*old(ch)).drop_first(),
{
    match ch.inner.try_receive() {
        Ok(v) => Some(v),
        Err(TryReceiveError::Empty) => None,
    }
}

/// Relies on embassy_sync::signal::Signal::new: a fresh mailbox is empty.
#[verifier::external_body]
pub(crate) fn new_cc_signal() -> (r: CcSignal)
    ensures
        mailbox_contents(r) == Option::<CcEvt>::None,
{
    CcSignal { inner: Signal::new() }
}

/// Relies on embassy_sync::signal::Signal::signal: latches the value,
/// overwriting any value not yet consumed.
#[verifier::external_body]
pub(crate) fn cc_signal_post(s: &mut CcSignal, v: CcEvt)
    ensures
        mailbox_contents(*final(s)) == Some(v),
{
    s.inner.signal(v);
}

/// Relies on embassy_sync::signal::Signal::try_take: takes the latched
/// value out of the mailbox, leaving it empty, or reports it empty.
#[verifier::external_body]
pub(crate) fn cc_signal_try_take(s: &mut CcSignal) -> (r: Option<CcEvt>)
    ensures
        r == mailbox_contents(*old(s)),
        mailbox_contents(*final(s)) == Option::<CcEvt>::None,
{
    s.inner.try_take()
}

} // verus!
