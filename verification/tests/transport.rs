//! End-to-end tests of the transport: pool lifecycle, ingestion routing,
//! mailbox and channel behaviour, and the wire codecs.

use wpan_tl::cmd::{encode_cmd, parse_cmd};
use wpan_tl::evt::{AsynchEvt, CcEvt, CsEvt, Evt, EvtPacket, EvtSerial, EvtStub};
use wpan_tl::tables::RefTable;
use wpan_tl::{divc, DrainStep, TlMbox};

fn ref_table() -> RefTable {
    RefTable::new(0x1000, 0x1100, 0x1200, 0x1300, 0x1400, 0x1500, 0x1600)
}

/// Stamps an event record into a freshly claimed buffer: packet kind, event
/// code, declared payload length, then the payload bytes.
fn stamp_record(bytes: &mut [u8], kind: u8, evt_code: u8, payload: &[u8]) {
    bytes[8] = kind;
    bytes[9] = evt_code;
    bytes[10] = payload.len() as u8;
    bytes[11..11 + payload.len()].copy_from_slice(payload);
}

/// Claims a buffer, stamps a record into it and posts it to the pending
/// queue, as the coprocessor does when it delivers an event.
fn produce(mbox: &mut TlMbox, kind: u8, evt_code: u8, payload: &[u8]) {
    let (addr, mut bytes) = mbox
        .mm_subsystem
        .claim_free_buffer()
        .expect("pool exhausted");
    stamp_record(&mut bytes, kind, evt_code, payload);
    mbox.mm_subsystem.post_event(addr, bytes);
}

#[test]
fn divc_rounds_up() {
    assert_eq!(divc(266, 4), 67);
    assert_eq!(divc(268, 4), 67);
    assert_eq!(divc(0, 4), 0);
    assert_eq!(divc(1, 1), 1);
}

#[test]
fn init_publishes_ref_table() {
    let mbox = TlMbox::init(ref_table(), 2);
    let rt = mbox.ref_table();
    assert_eq!(rt.device_info_table, 0x1000);
    assert_eq!(rt.ble_table, 0x1100);
    assert_eq!(rt.thread_table, 0x1200);
    assert_eq!(rt.sys_table, 0x1300);
    assert_eq!(rt.mem_manager_table, 0x1400);
    assert_eq!(rt.traces_table, 0x1500);
    assert_eq!(rt.mac_802_15_4_table, 0x1600);
}

#[test]
fn pool_of_four_exhausts_on_fifth_claim() {
    let mut mbox = TlMbox::init(ref_table(), 4);
    let mut claims = Vec::new();
    for _ in 0..4 {
        let c = mbox.mm_subsystem.claim_free_buffer();
        assert!(c.is_some());
        claims.push(c.unwrap());
    }
    // the arena holds exactly four buffers: a fifth claim observes exhaustion
    assert!(mbox.mm_subsystem.claim_free_buffer().is_none());
    // returning one buffer makes exactly one claim possible again
    let (addr, bytes) = claims.pop().unwrap();
    mbox.mm_subsystem.provide_free_buffer(addr, bytes);
    assert!(mbox.mm_subsystem.claim_free_buffer().is_some());
    assert!(mbox.mm_subsystem.claim_free_buffer().is_none());
}

#[test]
fn free_queue_is_fifo_in_address_order() {
    let mut mbox = TlMbox::init(ref_table(), 3);
    let a = mbox.mm_subsystem.claim_free_buffer().unwrap();
    let b = mbox.mm_subsystem.claim_free_buffer().unwrap();
    let c = mbox.mm_subsystem.claim_free_buffer().unwrap();
    assert_eq!((a.0, b.0, c.0), (0, 1, 2));
    // reinsert out of address order: removal follows insertion order
    mbox.mm_subsystem.provide_free_buffer(c.0, c.1);
    mbox.mm_subsystem.provide_free_buffer(a.0, a.1);
    mbox.mm_subsystem.provide_free_buffer(b.0, b.1);
    assert_eq!(mbox.mm_subsystem.claim_free_buffer().unwrap().0, 2);
    assert_eq!(mbox.mm_subsystem.claim_free_buffer().unwrap().0, 0);
    assert_eq!(mbox.mm_subsystem.claim_free_buffer().unwrap().0, 1);
}

#[test]
fn command_complete_reaches_mailbox() {
    let mut mbox = TlMbox::init(ref_table(), 2);
    // correlation count 1, opcode 0x0C03, zero-length return payload
    produce(&mut mbox, 0x12, 0x0e, &[1, 0x03, 0x0c, 0]);
    assert!(mbox.drain().is_none());
    let cc = mbox.last_command_outcome().expect("no outcome latched");
    assert_eq!(cc.num_cmd, 1);
    assert_eq!(cc.cmd_code, 0x0C03);
    assert_eq!(cc.payload[0], 0);
    // the mailbox is a single slot: taking the value empties it
    assert!(mbox.last_command_outcome().is_none());
    // the buffer went back to the pool: both buffers are claimable again
    assert!(mbox.mm_subsystem.claim_free_buffer().is_some());
    assert!(mbox.mm_subsystem.claim_free_buffer().is_some());
    assert!(mbox.mm_subsystem.claim_free_buffer().is_none());
}

#[test]
fn second_outcome_overwrites_unconsumed_first() {
    let mut mbox = TlMbox::init(ref_table(), 2);
    produce(&mut mbox, 0x12, 0x0e, &[1, 0x03, 0x0c, 0]);
    produce(&mut mbox, 0x12, 0x0e, &[1, 0x34, 0x12, 7]);
    assert!(mbox.drain().is_none());
    // the waiter must never see the first value after the overwrite
    let cc = mbox.last_command_outcome().expect("no outcome latched");
    assert_eq!(cc.cmd_code, 0x1234);
    assert_eq!(cc.payload[0], 7);
    assert!(mbox.last_command_outcome().is_none());
}

#[test]
fn command_status_is_latched_too() {
    let mut mbox = TlMbox::init(ref_table(), 2);
    produce(&mut mbox, 0x12, 0x0f, &[0, 1, 0x03, 0x0c]);
    let step = mbox.drain_one();
    assert!(matches!(step, DrainStep::CommandOutcome));
    assert!(mbox.last_command_outcome().is_some());
}

#[test]
fn malformed_outcome_is_reclaimed_without_latching() {
    let mut mbox = TlMbox::init(ref_table(), 1);
    // a command-outcome record whose declared payload is too short
    produce(&mut mbox, 0x12, 0x0e, &[1, 2]);
    let step = mbox.drain_one();
    assert!(matches!(step, DrainStep::Malformed));
    assert!(mbox.last_command_outcome().is_none());
    // the offending buffer was still reclaimed
    assert!(mbox.mm_subsystem.claim_free_buffer().is_some());
}

#[test]
fn async_events_arrive_in_post_order() {
    let mut mbox = TlMbox::init(ref_table(), 3);
    produce(&mut mbox, 0x04, 0x3e, &[10]);
    produce(&mut mbox, 0x04, 0x3e, &[20]);
    produce(&mut mbox, 0x04, 0x3e, &[30]);
    assert!(mbox.drain().is_none());
    for expected in [10u8, 20, 30] {
        let evt = mbox.receive_event().expect("event lost");
        let stub = evt.stub();
        assert_eq!(stub.kind, 0x04);
        assert_eq!(stub.evt_code, 0x3e);
        assert_eq!(evt.payload(), &[expected][..]);
        mbox.mm_subsystem.evt_handled(evt);
    }
    assert!(mbox.receive_event().is_none());
}

#[test]
fn payload_view_has_exactly_declared_length() {
    let mut mbox = TlMbox::init(ref_table(), 1);
    produce(&mut mbox, 0x04, 0x3e, &[1, 2, 3, 4, 5]);
    assert!(mbox.drain().is_none());
    let evt = mbox.receive_event().unwrap();
    let payload = evt.payload();
    assert_eq!(payload.len(), 5);
    assert_eq!(payload, &[1, 2, 3, 4, 5][..]);
    mbox.mm_subsystem.evt_handled(evt);
}

#[test]
fn burst_fills_channel_and_overflow_is_rejected() {
    let capacity = 32;
    let mut mbox = TlMbox::init(ref_table(), capacity + 1);
    for i in 0..capacity + 1 {
        produce(&mut mbox, 0x04, 0x3e, &[i as u8, (i >> 8) as u8]);
    }
    // the channel holds exactly a capacity-sized burst; one more is rejected
    let rejected = mbox.drain().expect("overflow not reported");
    assert_eq!(rejected.payload(), &[capacity as u8, 0][..]);
    mbox.mm_subsystem.evt_handled(rejected);
    // the burst itself is retrievable completely, in post order
    for i in 0..capacity {
        let evt = mbox.receive_event().expect("event lost");
        assert_eq!(evt.payload(), &[i as u8, (i >> 8) as u8][..]);
        mbox.mm_subsystem.evt_handled(evt);
    }
    assert!(mbox.receive_event().is_none());
    // every buffer found its way back to the free queue
    for _ in 0..capacity + 1 {
        assert!(mbox.mm_subsystem.claim_free_buffer().is_some());
    }
    assert!(mbox.mm_subsystem.claim_free_buffer().is_none());
}

#[test]
fn submit_command_serializes_into_command_buffer() {
    let mut mbox = TlMbox::init(ref_table(), 1);
    mbox.submit_command(0x0C03, &vec![0xAA, 0xBB]);
    assert_eq!(mbox.cmd_buf[8], 0x10);
    assert_eq!(&mbox.cmd_buf[9..14], &[0x03, 0x0C, 2, 0xAA, 0xBB][..]);
}

#[test]
fn command_record_round_trips() {
    for len in [0usize, 1, 2, 128, 255] {
        let payload: Vec<u8> = (0..len).map(|i| (i * 7) as u8).collect();
        let encoded = encode_cmd(0x0C03, &payload);
        assert_eq!(encoded.len(), 3 + len);
        let (opcode, decoded) = parse_cmd(&encoded).expect("decode failed");
        assert_eq!(opcode, 0x0C03);
        assert_eq!(decoded, payload);
    }
}

#[test]
fn truncated_command_record_is_rejected() {
    assert!(parse_cmd(&[]).is_none());
    assert!(parse_cmd(&[0x03, 0x0C]).is_none());
    // declared length larger than what follows
    assert!(parse_cmd(&[0x03, 0x0C, 3, 1, 2]).is_none());
    // exactly consistent declared length parses
    assert!(parse_cmd(&[0x03, 0x0C, 2, 1, 2]).is_some());
}

#[test]
fn cc_evt_write_read_round_trips() {
    let cc = CcEvt { num_cmd: 1, cmd_code: 0x0C03, payload: [9] };
    let mut buf = vec![0u8; 8];
    buf[6] = 0xEE;
    buf[7] = 0xFF;
    cc.write(&mut buf);
    assert_eq!(&buf[..4], &[1, 0x03, 0x0C, 9][..]);
    // bytes past the record are left alone
    assert_eq!(&buf[6..], &[0xEE, 0xFF][..]);
    let back = CcEvt::read(&buf);
    assert_eq!(back.num_cmd, 1);
    assert_eq!(back.cmd_code, 0x0C03);
    assert_eq!(back.payload[0], 9);
}

#[test]
fn evt_packet_exposes_kind_and_event() {
    let packet = EvtPacket {
        header: wpan_tl::evt::PacketHeader { next: 0, prev: 0 },
        evt_serial: EvtSerial {
            kind: 0x12,
            evt: Evt { evt_code: 0x0e, payload_len: 4, payload: [1] },
        },
    };
    assert_eq!(packet.kind(), 0x12);
    let evt = packet.evt();
    assert_eq!(evt.evt_code, 0x0e);
    assert_eq!(evt.payload_len, 4);
    assert_eq!(evt.payload[0], 1);
}

#[test]
fn status_and_asynchronous_payload_shapes() {
    let cs = CsEvt { status: 0, num_cmd: 1, cmd_code: 0x0C03 };
    assert_eq!((cs.status, cs.num_cmd, cs.cmd_code), (0, 1, 0x0C03));
    let ae = AsynchEvt { sub_evt_code: 0x3e00, payload: [5] };
    assert_eq!((ae.sub_evt_code, ae.payload[0]), (0x3e00, 5));
}

#[test]
fn stub_is_plain_header_data() {
    let stub = EvtStub { kind: 0x12, evt_code: 0x0e };
    assert_eq!(stub.kind, 0x12);
    assert_eq!(stub.evt_code, 0x0e);
}
