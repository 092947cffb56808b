// Tool-side objects, measurement planning and transport stream splitting.

use xcp_lite::parse_connect_response;
use xcp_lite::parse_segment_info;
use xcp_lite::plan_measurement;
use xcp_lite::timestamp_resolution_ns;
use xcp_lite::split_frames;
use xcp_lite::A2lAddr;
use xcp_lite::A2lType;
use xcp_lite::A2lTypeEncoding;
use xcp_lite::McValueType;
use xcp_lite::XcpClientCalibrationObject;
use xcp_lite::XcpClientMeasurementObject;
use xcp_lite::XcpError;
use xcp_lite::XcpTaskControl;

fn mea(name: &str, event: u16, size: usize) -> XcpClientMeasurementObject {
    XcpClientMeasurementObject::new(
        name,
        A2lAddr {
            ext: 2,
            addr: (event as u32) << 16,
            event: Some(event),
        },
        A2lType {
            size,
            encoding: A2lTypeEncoding::Unsigned,
        },
    )
}

#[test]
fn calibration_object_values() {
    let addr = A2lAddr {
        ext: 0,
        addr: 0x8000_0000,
        event: None,
    };
    let ty = A2lType {
        size: 2,
        encoding: A2lTypeEncoding::Signed,
    };
    let mut obj = XcpClientCalibrationObject::new("gain", addr, ty);
    assert_eq!(obj.get_name(), "gain");
    assert_eq!(obj.get_a2l_addr(), addr);
    assert_eq!(obj.get_a2l_type(), ty);

    obj.set_value(&[0xFE, 0xFF]);
    assert_eq!(obj.get_value().as_slice(), &[0xFE, 0xFF]);
    assert_eq!(obj.get_value_u64(), 0xFFFE);
    assert_eq!(obj.get_value_i64(), -2);
}

#[test]
fn type_encodings() {
    assert_eq!(
        A2lTypeEncoding::of_value_type(&McValueType::Ulong),
        A2lTypeEncoding::Unsigned
    );
    assert_eq!(
        A2lTypeEncoding::of_value_type(&McValueType::Sword),
        A2lTypeEncoding::Signed
    );
    assert_eq!(
        A2lTypeEncoding::of_value_type(&McValueType::Float32Ieee),
        A2lTypeEncoding::Float
    );
    assert_eq!(
        A2lTypeEncoding::of_value_type(&McValueType::new_blob("x")),
        A2lTypeEncoding::Blob
    );
}

#[test]
fn measurement_planning() {
    // three objects on two events: the plan makes one list per event,
    // ascending, and packs same-event objects back to back
    let objects = vec![mea("a", 7, 4), mea("b", 3, 2), mea("c", 7, 1)];
    let plan = plan_measurement(&objects, 64).unwrap();
    assert_eq!(plan.daq_events, vec![3, 7]);
    assert_eq!(plan.assignments.len(), 3);
    assert_eq!(plan.assignments[0], (1, 0)); // "a": event 7, first
    assert_eq!(plan.assignments[1], (0, 0)); // "b": event 3, first
    assert_eq!(plan.assignments[2], (1, 4)); // "c": event 7, after "a"

    // a single event whose objects exceed the frame payload fails
    let big = vec![mea("x", 1, 200), mea("y", 1, 200)];
    assert_eq!(plan_measurement(&big, 64), Err(0xF4));

    // an empty object list plans no lists
    let none: Vec<XcpClientMeasurementObject> = Vec::new();
    let plan = plan_measurement(&none, 64).unwrap();
    assert!(plan.daq_events.is_empty());
    assert!(plan.assignments.is_empty());
}

#[test]
fn transport_stream_splitting() {
    // two concatenated packets in one datagram
    let mut buf = vec![2, 0, 1, 0, 0xFF, 0x55];
    buf.extend_from_slice(&[1, 0, 2, 0, 0xFD]);
    let frames = split_frames(&buf).unwrap();
    assert_eq!(frames.len(), 2);
    assert_eq!(frames[0].ctr, 1);
    assert_eq!(frames[0].payload, vec![0xFF, 0x55]);
    assert_eq!(frames[1].ctr, 2);
    assert_eq!(frames[1].payload, vec![0xFD]);

    // an empty buffer holds no frames
    assert!(split_frames(&[]).unwrap().is_empty());

    // corrupt streams: truncated header, truncated payload, zero length
    assert!(split_frames(&[1, 0, 0]).is_err());
    assert!(split_frames(&[5, 0, 0, 0, 1]).is_err());
    assert!(split_frames(&[0, 0, 0, 0]).is_err());
}

#[test]
fn error_texts() {
    let e = XcpError::new(0x20, 0xF5);
    assert_eq!(e.get_error_code(), 0x20);
    assert_eq!(e.message(), "unknown command");
    assert_eq!(XcpError::new(0x24, 0).message(), "access denied");
    assert_eq!(XcpError::new(0xF0, 0).message(), "command response timeout");
    let d = XcpTaskControl::new();
    assert!(!d.running && !d.connected);
}

#[test]
fn connect_response_parsing() {
    let data = [0xFF, 0x05, 0x00, 8, 64, 1, 0x01, 0x01];
    let info = parse_connect_response(&data).unwrap();
    assert_eq!(info.resources, 0x05);
    assert_eq!(info.max_cto, 8);
    assert_eq!(info.max_dto, 64 + 0x100);
    assert_eq!(info.protocol_version, 1);
    assert!(parse_connect_response(&[0xFE, 0x20]).is_none());
    assert!(parse_connect_response(&[0xFF, 0, 0, 0]).is_none());
}

#[test]
fn timestamp_resolution() {
    // unit nibble 0 is nanoseconds, 3 is microseconds, 6 is milliseconds
    assert_eq!(timestamp_resolution_ns(0x0C, 1), 1);
    assert_eq!(timestamp_resolution_ns(0x3C, 1), 1_000);
    assert_eq!(timestamp_resolution_ns(0x6C, 1), 1_000_000);
    assert_eq!(timestamp_resolution_ns(0x1C, 10), 100);
}

#[test]
fn segment_info_parsing() {
    let addr_resp = [0xFF, 0, 0, 0, 0x00, 0x00, 0x01, 0x80];
    let len_resp = [0xFF, 0, 0, 0, 16, 0, 0, 0];
    let (addr, len) = parse_segment_info(&addr_resp, &len_resp).unwrap();
    assert_eq!(addr, 0x8001_0000);
    assert_eq!(len, 16);
    assert!(parse_segment_info(&[0xFE, 0x22], &len_resp).is_none());
    assert!(parse_segment_info(&addr_resp, &[0xFF, 0, 0, 0]).is_none());
}
