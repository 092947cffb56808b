// DAQ events and capture buffers.

use xcp_lite::DaqEvent;
use xcp_lite::McDimType;
use xcp_lite::McValueType;
use xcp_lite::XcpEvent;
use xcp_lite::XcpServer;

#[test]
fn event_handles() {
    let e = XcpEvent::new(3, 1);
    assert_eq!(e.get_channel(), 3);
    assert_eq!(e.get_index(), 1);
}

#[test]
fn capture_buffer_allocation() {
    let e = XcpEvent::new(0, 0);
    let mut daq = DaqEvent::new_from(&e, 15);
    assert_eq!(daq.get_capacity(), 15);

    let o1 = daq.allocate(4);
    assert_eq!(o1, 0);
    let o2 = daq.allocate(8);
    assert_eq!(o2, 4);
    let o3 = daq.allocate(1);
    assert_eq!(o3, 12);
    // the remaining two bytes are not enough for four
    assert_eq!(daq.try_allocate(4), None);
    assert_eq!(daq.try_allocate(2), Some(13));
    assert_eq!(daq.try_allocate(1), None);
}

#[test]
fn capture_copies_into_the_reserved_range() {
    let e = XcpEvent::new(0, 0);
    let mut daq = DaqEvent::new_from(&e, 8);
    let o_counter = daq.allocate(4);
    let o_flag = daq.allocate(1);

    let counter: u32 = 0xAABBCCDD;
    daq.capture(&counter.to_le_bytes(), o_counter);
    daq.capture(&[1], o_flag);
    assert_eq!(daq.buffer, vec![0xDD, 0xCC, 0xBB, 0xAA, 1, 0, 0, 0]);

    // a second capture overwrites only its own range
    daq.capture(&1u32.to_le_bytes(), o_counter);
    assert_eq!(daq.buffer, vec![1, 0, 0, 0, 1, 0, 0, 0]);
}

#[test]
fn measurement_object_registration() {
    let mut server = XcpServer::new(8, 8, 64);
    let id = server
        .create_measurement_object(
            "counter",
            McDimType::new(McValueType::Ulong, 1, 1),
            "loop counter",
        )
        .unwrap();
    assert_eq!(id, 0);
    let inst = server.registry.instance_list.get_instance("counter").unwrap();
    assert_eq!(inst.event_id(), Some(0));
    assert!(server.registry.event_list.find_event_id(0).is_some());
    // a second object of the same name is refused
    assert!(server
        .create_measurement_object("counter", McDimType::new(McValueType::Ulong, 1, 1), "")
        .is_err());
}

#[test]
fn event_trigger_samples_the_buffer() {
    let mut server = XcpServer::new(8, 8, 64);
    let id = server.create_event("E1", 0).unwrap();
    server.process_command(&[0xFF, 0x00]);
    // configure one list with a 2-byte entry at buffer offset 1
    assert_eq!(server.process_command(&[0xD6]), vec![0xFF]);
    assert_eq!(server.process_command(&[0xD5, 0, 1, 0]), vec![0xFF]);
    assert_eq!(server.process_command(&[0xE2, 0, 0, 0, 0, 0]), vec![0xFF]);
    let addr = ((id as u32) << 16) | 1;
    let mut wd = vec![0xE1, 0, 2, 2];
    wd.extend_from_slice(&addr.to_le_bytes());
    assert_eq!(server.process_command(&wd), vec![0xFF]);
    let mut sm = vec![0xE0, 0x10, 0, 0];
    sm.extend_from_slice(&id.to_le_bytes());
    assert_eq!(server.process_command(&sm), vec![0xFF]);
    assert_eq!(server.process_command(&[0xDE, 2, 0, 0]), vec![0xFF]);
    assert_eq!(server.process_command(&[0xDD, 1]), vec![0xFF]);

    let ev = XcpEvent::new(id, 0);
    let mut daq = DaqEvent::new_from(&ev, 4);
    let off = daq.allocate(4);
    daq.capture(&[0x10, 0x20, 0x30, 0x40], off);
    daq.trigger(&mut server);

    let frame = server.ring.pop().unwrap();
    // 4-byte header, 4-byte timestamp, then the sampled bytes at offset 1
    assert_eq!(frame.payload.len(), 10);
    assert_eq!(&frame.payload[8..], &[0x20, 0x30]);
}
