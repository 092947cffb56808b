// End-to-end runs of the server state machine: calibration access,
// session termination, description upload and the DAQ pipeline.

use xcp_lite::CtrAccumulator;
use xcp_lite::DaqDecoder;
use xcp_lite::XcpServer;

const CONNECT: &[u8] = &[0xFF, 0x00];

fn short_download(addr: u32, data: &[u8]) -> Vec<u8> {
    let mut cmd = vec![0xED, data.len() as u8, 0, 0];
    cmd.extend_from_slice(&addr.to_le_bytes());
    cmd.extend_from_slice(data);
    cmd
}

fn short_upload(addr: u32, size: u8) -> Vec<u8> {
    let mut cmd = vec![0xF4, size, 0, 0];
    cmd.extend_from_slice(&addr.to_le_bytes());
    cmd
}

fn set_cal_page(segment: u8, page: u8) -> Vec<u8> {
    vec![0xEB, 0x03, segment, page]
}

#[test]
fn scenario_calibration_page_switch() {
    // segment "s" of 4 bytes, default page [0x55, 0, 0, 0]; index 0 is
    // reserved for the version segment, so "s" gets index 1
    let mut server = XcpServer::new(16, 8, 64);
    let idx = server
        .create_cal_seg("s", vec![0x55, 0x00, 0x00, 0x00])
        .unwrap();
    assert_eq!(idx, 1);
    let base: u32 = 0x8000_0000 + ((idx as u32) << 16);

    let r = server.process_command(CONNECT);
    assert_eq!(r[0], 0xFF);
    assert_eq!(r.len(), 8);
    assert_eq!(r[3], 8); // MAX_CTO
    assert_eq!(r[4], 64); // MAX_DTO low byte

    // select the working page, write 0xAA, read it back
    let r = server.process_command(&set_cal_page(idx as u8, 0));
    assert_eq!(r, vec![0xFF]);
    let r = server.process_command(&short_download(base, &[0xAA]));
    assert_eq!(r, vec![0xFF]);
    let r = server.process_command(&short_upload(base, 1));
    assert_eq!(r, vec![0xFF, 0xAA]);

    // select the default page: the default byte is visible again
    let r = server.process_command(&set_cal_page(idx as u8, 1));
    assert_eq!(r, vec![0xFF]);
    let r = server.process_command(&short_upload(base, 1));
    assert_eq!(r, vec![0xFF, 0x55]);

    // and back to the working page
    let r = server.process_command(&set_cal_page(idx as u8, 0));
    assert_eq!(r, vec![0xFF]);
    let r = server.process_command(&short_upload(base, 1));
    assert_eq!(r, vec![0xFF, 0xAA]);
}

#[test]
fn calibration_error_responses() {
    let mut server = XcpServer::new(16, 8, 64);
    let idx = server.create_cal_seg("s", vec![0; 4]).unwrap();
    let base: u32 = 0x8000_0000 + ((idx as u32) << 16);
    server.process_command(CONNECT);

    // write beyond the segment end
    let r = server.process_command(&short_download(base + 2, &[1, 2, 3]));
    assert_eq!(r, vec![0xFE, 0x24]); // access denied
    // write to an address outside any segment
    let r = server.process_command(&short_download(0x1000, &[1]));
    assert_eq!(r, vec![0xFE, 0x24]);
    // unknown segment
    let r = server.process_command(&set_cal_page(9, 0));
    assert_eq!(r, vec![0xFE, 0x28]); // segment not valid
    // unknown page
    let r = server.process_command(&[0xEB, 0x03, 0, 9]);
    assert_eq!(r, vec![0xFE, 0x26]); // page not valid
    // invalid page selection mode
    let r = server.process_command(&[0xEB, 0x00, 0, 0]);
    assert_eq!(r, vec![0xFE, 0x27]); // mode not valid
    // get page of the tool view
    let r = server.process_command(&[0xEA, 0x02, 0]);
    assert_eq!(r, vec![0xFF, 0, 0, 0]);
}

#[test]
fn scenario_consistent_two_field_write() {
    // u16 a at 0, u16 b at 2, invariant b == a + 1, under transactions
    let mut server = XcpServer::new(16, 8, 64);
    let idx = server.create_cal_seg("s", vec![0, 0, 1, 0]).unwrap();
    server.process_command(CONNECT);
    let base: u32 = 0x8000_0000 + ((idx as u32) << 16);

    let poll = |server: &mut XcpServer| {
        let r = server.process_command(&short_upload(base, 4));
        assert_eq!(r[0], 0xFF);
        let a = u16::from_le_bytes([r[1], r[2]]);
        let b = u16::from_le_bytes([r[3], r[4]]);
        (a, b)
    };

    for i in 0u16..1000 {
        // MODIFY_BEGIN
        let r = server.process_command(&[0xF1, 1]);
        assert_eq!(r, vec![0xFF]);
        let r = server.process_command(&short_download(base, &i.to_le_bytes()));
        assert_eq!(r, vec![0xFF]);
        // an ECU-side poll between the two writes sees a consistent pair
        let seg = &server.segments[idx as usize];
        let g = seg.read_lock();
        let a = u16::from_le_bytes([g.get(0), g.get(1)]);
        let b = u16::from_le_bytes([g.get(2), g.get(3)]);
        assert_eq!(b, a + 1);
        drop(g);
        let r = server.process_command(&short_download(base + 2, &(i + 1).to_le_bytes()));
        assert_eq!(r, vec![0xFF]);
        // MODIFY_END
        let r = server.process_command(&[0xF1, 2]);
        assert_eq!(r, vec![0xFF]);
        let (a, b) = poll(&mut server);
        assert_eq!(a, i);
        assert_eq!(b, i + 1);
    }
}

#[test]
fn scenario_session_termination() {
    let mut server = XcpServer::new(16, 8, 64);
    let r = server.process_command(CONNECT);
    assert_eq!(r[0], 0xFF);

    // the server evicts the session with the event packet 0xFD 0x07
    let ev = server.evict_session();
    assert_eq!(ev, vec![0xFD, 0x07]);

    // subsequent commands fail with CmdUnknown until CONNECT
    let r = server.process_command(&[0xEA, 0x01, 0]);
    assert_eq!(r, vec![0xFE, 0x20]);
    let r = server.process_command(&[0xF4, 1, 0, 0, 0, 0, 0, 0x80]);
    assert_eq!(r, vec![0xFE, 0x20]);
    let r = server.process_command(CONNECT);
    assert_eq!(r[0], 0xFF);
}

#[test]
fn unknown_and_malformed_commands() {
    let mut server = XcpServer::new(16, 8, 64);
    server.process_command(CONNECT);
    // an unknown command code
    let r = server.process_command(&[0x42]);
    assert_eq!(r, vec![0xFE, 0x20]);
    // an empty command
    let r = server.process_command(&[]);
    assert_eq!(r, vec![0xFE, 0x21]);
    // SYNC answers with the synch code
    let r = server.process_command(&[0xFC]);
    assert_eq!(r, vec![0xFE, 0x00]);
    // a truncated SHORT_DOWNLOAD
    let r = server.process_command(&[0xED, 4, 0, 0]);
    assert_eq!(r, vec![0xFE, 0x21]);
}

#[test]
fn identification_strings() {
    let mut server = XcpServer::new(16, 8, 64);
    server.registry.set_app_info("ecu1", "demo", 0);
    server.registry.set_epk("EPK_V1", 0);
    server.process_command(CONNECT);

    // kind 0 and 1: the application name, carried in the response
    let r = server.process_command(&[0xFA, 0x00]);
    assert_eq!(r[0], 0xFF);
    assert_eq!(r[1], 0x01); // mode 1: data in the response
    let size = u32::from_le_bytes([r[4], r[5], r[6], r[7]]) as usize;
    assert_eq!(&r[8..8 + size], b"ecu1");

    // kind 5: the software version string
    let r = server.process_command(&[0xFA, 0x05]);
    let size = u32::from_le_bytes([r[4], r[5], r[6], r[7]]) as usize;
    assert_eq!(&r[8..8 + size], b"EPK_V1");

    // an unsupported kind is out of range
    let r = server.process_command(&[0xFA, 0x02]);
    assert_eq!(r, vec![0xFE, 0x22]);
}

#[test]
fn scenario_description_upload() {
    // GET_ID(4) announces a body larger than MAX_CTO; UPLOAD in slices
    // of MAX_CTO - 1 reassembles it byte for byte
    let mut server = XcpServer::new(16, 8, 64);
    let body: Vec<u8> = (0u32..100).map(|i| (i * 7 % 251) as u8).collect();
    server.set_id_payload(body.clone());
    server.process_command(CONNECT);

    let r = server.process_command(&[0xFA, 0x04]);
    assert_eq!(r[0], 0xFF);
    assert_eq!(r[1], 0x00); // mode 0: fetch by upload
    let size = u32::from_le_bytes([r[4], r[5], r[6], r[7]]) as usize;
    assert_eq!(size, 100);
    assert!(size > 8 - 1);

    let mut fetched: Vec<u8> = Vec::new();
    let mut remaining = size;
    while remaining > 0 {
        let n = remaining.min(8 - 1);
        let r = server.process_command(&[0xF5, n as u8]);
        assert_eq!(r[0], 0xFF);
        assert_eq!(r.len(), 1 + n);
        fetched.extend_from_slice(&r[1..]);
        remaining -= n;
    }
    assert_eq!(fetched, body);

    // reading past the end is out of range
    let r = server.process_command(&[0xF5, 1]);
    assert_eq!(r, vec![0xFE, 0x22]);
}

fn configure_single_daq(server: &mut XcpServer, event: u16, size: u8) {
    assert_eq!(server.process_command(&[0xD6]), vec![0xFF]); // FREE_DAQ
    assert_eq!(server.process_command(&[0xD5, 0, 1, 0]), vec![0xFF]); // ALLOC_DAQ 1
    assert_eq!(server.process_command(&[0xD4, 0, 0, 0, 1]), vec![0xFF]); // ALLOC_ODT
    assert_eq!(server.process_command(&[0xD3, 0, 0, 0, 0, 1]), vec![0xFF]); // ALLOC_ODT_ENTRY
    assert_eq!(server.process_command(&[0xE2, 0, 0, 0, 0, 0]), vec![0xFF]); // SET_DAQ_PTR
    // WRITE_DAQ: dynamic address, offset 0 in the capture buffer
    let addr = (event as u32) << 16;
    let mut wd = vec![0xE1, 0, size, 2];
    wd.extend_from_slice(&addr.to_le_bytes());
    assert_eq!(server.process_command(&wd), vec![0xFF]);
    // SET_DAQ_LIST_MODE: bind the list to the event
    let mut sm = vec![0xE0, 0x10, 0, 0];
    sm.extend_from_slice(&event.to_le_bytes());
    assert_eq!(server.process_command(&sm), vec![0xFF]);
    // select, prepare, start
    assert_eq!(server.process_command(&[0xDE, 2, 0, 0]), vec![0xFF]);
    assert_eq!(server.process_command(&[0xDD, 3]), vec![0xFF]);
    assert_eq!(server.process_command(&[0xDD, 1]), vec![0xFF]);
}

#[test]
fn scenario_single_daq_measurement() {
    // one event, a u32 counter captured each cycle; every frame carries
    // the counter, values increase without duplicates, timestamps are
    // non-decreasing
    let mut server = XcpServer::new(256, 8, 64);
    let event = server.create_event("E1", 1_000_000).unwrap();
    server.process_command(CONNECT);
    configure_single_daq(&mut server, event, 4);

    let mut counter: u32 = 0;
    for _ in 0..100 {
        let buf = counter.to_le_bytes();
        server.advance_clock(1000);
        server.trigger_event(event, &buf);
        counter += 1;
    }

    // stop
    assert_eq!(server.process_command(&[0xDD, 0]), vec![0xFF]);

    // drain and decode
    let mut dec = DaqDecoder::new(1, 0);
    dec.set_daq_properties(1, 4);
    let mut values: Vec<u64> = Vec::new();
    let mut stamps: Vec<u64> = Vec::new();
    while let Some(frame) = server.ring.pop() {
        let f = dec.decode(0, &frame.payload).unwrap();
        assert_eq!(f.daq, 0);
        assert_eq!(f.data.len(), 4);
        values.push(u32::from_le_bytes([f.data[0], f.data[1], f.data[2], f.data[3]]) as u64);
        stamps.push(dec.daq_timestamp[0]);
    }
    assert_eq!(values.len(), 100);
    for (i, v) in values.iter().enumerate() {
        assert_eq!(*v, i as u64);
    }
    for w in stamps.windows(2) {
        assert!(w[0] <= w[1]);
    }
    assert_eq!(dec.event_count, 100);
}

#[test]
fn scenario_ring_overflow_loss_accounting() {
    // an 8 entry ring, 1000 triggers while the consumer is paused:
    // lost == 1000 - 8 and the first frame after the stall skips the
    // counter by lost + 1
    let mut server = XcpServer::new(8, 8, 64);
    let event = server.create_event("E1", 10_000).unwrap();
    server.process_command(CONNECT);
    configure_single_daq(&mut server, event, 4);

    for i in 0u32..1000 {
        server.trigger_event(event, &i.to_le_bytes());
    }
    assert_eq!(server.ring.get_lost(), 1000 - 8);

    // consumer resumes: 8 stalled frames, counters 0..7
    let mut last_ctr: u64 = 0;
    for expect in 0u64..8 {
        let f = server.ring.pop().unwrap();
        assert_eq!(f.ctr, expect);
        last_ctr = f.ctr;
    }
    // the next delivered frame skips by lost + 1
    server.trigger_event(event, &7u32.to_le_bytes());
    let f = server.ring.pop().unwrap();
    assert_eq!(f.ctr, last_ctr + (1000 - 8) + 1);

    // a decoder summing the counter gaps recovers the same loss total
    let mut acc = CtrAccumulator::new();
    for c in 0u16..8 {
        acc.note(c);
    }
    acc.note((f.ctr % 0x10000) as u16);
    assert_eq!(acc.lost_total, 1000 - 8);
}

#[test]
fn daq_configuration_errors() {
    let mut server = XcpServer::new(8, 8, 64);
    let event = server.create_event("E1", 0).unwrap();
    server.process_command(CONNECT);
    assert_eq!(server.process_command(&[0xD6]), vec![0xFF]);
    assert_eq!(server.process_command(&[0xD5, 0, 1, 0]), vec![0xFF]);

    // list number out of range
    assert_eq!(server.process_command(&[0xD4, 0, 5, 0, 1]), vec![0xFE, 0x2A]);
    // more than one ODT per list is not supported
    assert_eq!(server.process_command(&[0xD4, 0, 0, 0, 2]), vec![0xFE, 0x2A]);
    // binding to an unknown event
    assert_eq!(
        server.process_command(&[0xE0, 0x10, 0, 0, 9, 0]),
        vec![0xFE, 0x2A]
    );
    // writing an entry without a pointer
    assert_eq!(
        server.process_command(&[0xE1, 0, 4, 2, 0, 0, 0, 0]),
        vec![0xFE, 0x2A]
    );
    // an entry that overflows MAX_DTO minus the header is refused
    assert_eq!(server.process_command(&[0xE2, 0, 0, 0, 0, 0]), vec![0xFF]);
    let addr = (event as u32) << 16;
    let mut wd = vec![0xE1, 0, 63, 2];
    wd.extend_from_slice(&addr.to_le_bytes());
    assert_eq!(server.process_command(&wd), vec![0xFE, 0x2A]);
}

#[test]
fn disconnect_stops_measurement() {
    let mut server = XcpServer::new(8, 8, 64);
    let event = server.create_event("E1", 0).unwrap();
    server.process_command(CONNECT);
    configure_single_daq(&mut server, event, 4);
    assert!(server.daq_lists[0].running);

    let r = server.process_command(&[0xFE]);
    assert_eq!(r, vec![0xFF]);
    assert!(!server.connected);
    assert!(!server.daq_lists[0].running);
    // a trigger after disconnect produces no frame
    let before = server.ring.len();
    server.trigger_event(event, &[0, 0, 0, 0]);
    assert_eq!(server.ring.len(), before);
}

#[test]
fn epk_segment_reservation() {
    // with auto-EPK mode on (the default), index 0 holds the version
    // segment and user segments count from 1
    let mut server = XcpServer::new(8, 8, 64);
    let first = server.create_cal_seg("a", vec![0; 4]).unwrap();
    assert_eq!(first, 1);
    assert_eq!(server.segments[0].get_name(), "epk");
    assert_eq!(server.segments[0].get_index(), 0);
    assert_eq!(server.segments[0].size(), 31);
    assert_eq!(server.segments[1].get_name(), "a");
    let second = server.create_cal_seg("b", vec![0; 4]).unwrap();
    assert_eq!(second, 2);
    // the registry carries the version segment descriptor at index 0
    assert_eq!(server.registry.cal_seg_list.get_cal_seg_index("epk"), Some(0));

    // duplicates are refused, including the reserved name
    assert!(server.create_cal_seg("a", vec![0; 4]).is_err());
    let mut server2 = XcpServer::new(8, 8, 64);
    assert!(server2.create_cal_seg("epk", vec![0; 4]).is_err());

    // with the mode off no reservation happens and numbering starts at 0
    let mut server3 = XcpServer::new(8, 8, 64);
    server3.registry.set_auto_epk_segment_mode(false);
    let first = server3.create_cal_seg("a", vec![0; 4]).unwrap();
    assert_eq!(first, 0);
    assert_eq!(server3.segments.len(), 1);
}

#[test]
fn create_errors_are_owed() {
    // a frozen registry refuses every creation with the registry closed
    let mut server = XcpServer::new(8, 8, 64);
    server.registry.freeze();
    assert!(server.create_cal_seg("s", vec![0; 4]).is_err());
    assert!(server.create_event("e", 0).is_err());
    assert!(server
        .create_measurement_object(
            "m",
            xcp_lite::McDimType::new(xcp_lite::McValueType::Ulong, 1, 1),
            ""
        )
        .is_err());
    assert!(server.segments.is_empty());

    // duplicate event names collide
    let mut server = XcpServer::new(8, 8, 64);
    server.create_event("e", 0).unwrap();
    assert!(server.create_event("e", 0).is_err());
}

#[test]
fn info_commands() {
    let mut server = XcpServer::new(8, 8, 64);
    let idx = server.create_cal_seg("s", vec![9; 6]).unwrap();
    let ev = server.create_event("cycle", 1000).unwrap();
    server.process_command(CONNECT);

    // communication mode block
    let r = server.process_command(&[0xFB, 0]);
    assert_eq!(r[0], 0xFF);
    assert_eq!(r.len(), 8);

    // page processor block: version segment plus one user segment
    let r = server.process_command(&[0xE9, 0]);
    assert_eq!(r, vec![0xFF, 2, 0]);

    // segment info: base address and length of segment 1
    let r = server.process_command(&[0xE8, 0, idx as u8, 0, 0]);
    assert_eq!(r[0], 0xFF);
    let addr = u32::from_le_bytes([r[4], r[5], r[6], r[7]]);
    assert_eq!(addr, 0x8000_0000 + ((idx as u32) << 16));
    let r = server.process_command(&[0xE8, 0, idx as u8, 1, 0]);
    let len = u32::from_le_bytes([r[4], r[5], r[6], r[7]]);
    assert_eq!(len, 6);
    // segment name: length answered, bytes fetched by UPLOAD
    let r = server.process_command(&[0xE8, 0, idx as u8, 2, 0]);
    let name_len = u32::from_le_bytes([r[4], r[5], r[6], r[7]]) as usize;
    assert_eq!(name_len, 1);
    let r = server.process_command(&[0xF5, name_len as u8]);
    assert_eq!(&r[1..], b"s");
    // an unknown segment is refused
    let r = server.process_command(&[0xE8, 0, 9, 0, 0]);
    assert_eq!(r, vec![0xFE, 0x28]);

    // event info: name length answered, bytes fetched by UPLOAD
    let mut cmd = vec![0xD7, 0];
    cmd.extend_from_slice(&ev.to_le_bytes());
    let r = server.process_command(&cmd);
    assert_eq!(r[0], 0xFF);
    let name_len = r[3] as usize;
    assert_eq!(name_len, 5);
    let r = server.process_command(&[0xF5, name_len as u8]);
    assert_eq!(&r[1..], b"cycle");
    // an unknown event is refused
    let r = server.process_command(&[0xD7, 0, 9, 0]);
    assert_eq!(r, vec![0xFE, 0x22]);
}
