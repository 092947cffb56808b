// Tool-side decoding: little-endian values, timestamp lifting, DAQ frame
// parsing, transport framing and counter gap accounting.

use xcp_lite::frame_packet;
use xcp_lite::lift_timestamp;
use xcp_lite::parse_daq_frame;
use xcp_lite::parse_transport_header;
use xcp_lite::read_le_i64;
use xcp_lite::read_le_u64;
use xcp_lite::classify_packet;
use xcp_lite::CtrAccumulator;
use xcp_lite::PacketKind;
use xcp_lite::DaqDecoder;
use xcp_lite::DtoRing;
use xcp_lite::XcpCommandBuilder;

#[test]
fn little_endian_values() {
    let data = [0x78, 0x56, 0x34, 0x12, 0xFF, 0xFF, 0xFF, 0xFF];
    assert_eq!(read_le_u64(&data, 0, 4), 0x1234_5678);
    assert_eq!(read_le_u64(&data, 0, 0), 0);
    assert_eq!(read_le_u64(&data, 4, 4), 0xFFFF_FFFF);
    assert_eq!(read_le_u64(&data, 0, 8), 0xFFFF_FFFF_1234_5678);

    assert_eq!(read_le_i64(&[0xFF], 0, 1), -1);
    assert_eq!(read_le_i64(&[0x7F], 0, 1), 127);
    assert_eq!(read_le_i64(&[0x80], 0, 1), -128);
    assert_eq!(read_le_i64(&[0xFE, 0xFF], 0, 2), -2);
    assert_eq!(read_le_i64(&[0, 0, 0, 0, 0, 0, 0, 0x80], 0, 8), i64::MIN);
    assert_eq!(
        read_le_i64(&[0xFF, 0xFF, 0xFF, 0xFF, 0xFF, 0xFF, 0xFF, 0x7F], 0, 8),
        i64::MAX
    );
}

#[test]
fn timestamp_lifting_is_monotonic() {
    // without wrap the low word is replaced
    assert_eq!(lift_timestamp(0x0000_1000, 0x2000), 0x2000);
    // a smaller raw value advances the high word
    assert_eq!(lift_timestamp(0xFFFF_FFF0, 0x0000_0010), 0x1_0000_0010);
    // exact equality does not advance
    assert_eq!(lift_timestamp(0x1_0000_0010, 0x0000_0010), 0x1_0000_0010);

    // a run of raw timestamps with two wrap-arounds lifts to a
    // non-decreasing sequence
    let raws: [u32; 6] = [100, 50, 0xFFFF_FFFF, 3, 3, 2];
    let mut last: u64 = 0;
    let mut lifted: Vec<u64> = Vec::new();
    for r in raws.iter() {
        last = lift_timestamp(last, *r);
        lifted.push(last);
    }
    for w in lifted.windows(2) {
        assert!(w[0] <= w[1]);
    }
    assert_eq!(lifted[0], 100);
    assert_eq!(lifted[1], 0x1_0000_0000 + 50);
}

#[test]
fn daq_frame_parsing() {
    // header size 4, first odt: timestamp present
    let buf = [0u8, 0, 2, 1, 0x10, 0x20, 0x30, 0x40, 9, 8];
    let f = parse_daq_frame(&buf, 4).unwrap();
    assert_eq!(f.daq, 0x0102);
    assert_eq!(f.odt, 0);
    assert_eq!(f.timestamp_raw, Some(0x4030_2010));
    assert_eq!(f.data, vec![9, 8]);

    // later odt: no timestamp
    let buf = [1u8, 0, 3, 0, 7, 7];
    let f = parse_daq_frame(&buf, 4).unwrap();
    assert_eq!(f.daq, 3);
    assert_eq!(f.odt, 1);
    assert_eq!(f.timestamp_raw, None);
    assert_eq!(f.data, vec![7, 7]);

    // header size 2
    let buf = [0u8, 5, 1, 0, 0, 0, 0xAB];
    let f = parse_daq_frame(&buf, 2).unwrap();
    assert_eq!(f.daq, 5);
    assert_eq!(f.timestamp_raw, Some(1));
    assert_eq!(f.data, vec![0xAB]);

    // too short for the header
    assert!(parse_daq_frame(&[0u8, 0, 0], 4).is_none());
    // first odt too short for the timestamp
    assert!(parse_daq_frame(&[0u8, 0, 0, 0, 1, 2], 4).is_none());
}

#[test]
fn decoder_state_tracking() {
    let mut dec = DaqDecoder::new(2, 1000);
    dec.set_daq_properties(1, 4);
    let buf = [0u8, 0, 0, 0, 0xE8, 0x03, 0, 0, 0x2A]; // daq 0, ts 1000, one byte
    let f = dec.decode(0, &buf).unwrap();
    assert_eq!(f.daq, 0);
    assert_eq!(dec.daq_timestamp[0], 1000);
    assert_eq!(dec.event_count, 1);
    assert_eq!(dec.byte_count, 1);
    assert_eq!(dec.lost_count, 0);

    // a raw timestamp below the last one wraps the high word up
    let buf = [0u8, 0, 0, 0, 0x10, 0, 0, 0, 0x2B];
    dec.decode(3, &buf).unwrap();
    assert_eq!(dec.daq_timestamp[0], 0x1_0000_0010);
    assert_eq!(dec.daq_timestamp[1], 1000);
    assert_eq!(dec.lost_count, 3);

    // a daq number outside the configured lists is refused
    let buf = [0u8, 0, 9, 0, 1, 0, 0, 0];
    assert!(dec.decode(0, &buf).is_none());
}

#[test]
fn command_builder_frames() {
    let mut b = XcpCommandBuilder::new(0xF4);
    b.add_u8(2);
    b.add_u8(0);
    b.add_u8(0);
    b.add_u32(0x8000_0004);
    let bytes = b.build().to_vec();
    assert_eq!(bytes, vec![8, 0, 0, 0, 0xF4, 2, 0, 0, 0x04, 0x00, 0x00, 0x80]);

    let mut b = XcpCommandBuilder::new(0xFF);
    b.add_u8(0);
    b.add_u16(0x1234);
    let bytes = b.build().to_vec();
    assert_eq!(bytes, vec![4, 0, 0, 0, 0xFF, 0, 0x34, 0x12]);

    let mut b = XcpCommandBuilder::new(0xF0);
    b.add_u8(3);
    b.add_u8_slice(&[1, 2, 3]);
    let bytes = b.build().to_vec();
    assert_eq!(bytes, vec![5, 0, 0, 0, 0xF0, 3, 1, 2, 3]);
}

#[test]
fn transport_framing_round_trip() {
    let packet = frame_packet(0x0201, &[0xFF, 1, 2]);
    assert_eq!(packet, vec![3, 0, 0x01, 0x02, 0xFF, 1, 2]);
    let (len, ctr) = parse_transport_header(&packet, 0).unwrap();
    assert_eq!(len, 3);
    assert_eq!(ctr, 0x0201);
    assert!(parse_transport_header(&packet, 4).is_none());
}

#[test]
fn counter_gap_accounting() {
    let mut acc = CtrAccumulator::new();
    acc.note(5);
    assert_eq!(acc.lost_total, 0);
    acc.note(6);
    assert_eq!(acc.lost_total, 0);
    acc.note(10); // 7, 8, 9 lost
    assert_eq!(acc.lost_total, 3);
    acc.note(11);
    assert_eq!(acc.lost_total, 3);

    // wrap around of the 16-bit counter
    let mut acc = CtrAccumulator::new();
    acc.note(0xFFFF);
    acc.note(1); // counter 0 lost across the wrap
    assert_eq!(acc.lost_total, 1);
}

#[test]
fn ring_counts_every_drop() {
    let mut ring = DtoRing::new(2);
    assert!(ring.push(vec![1]));
    assert!(ring.push(vec![2]));
    assert!(!ring.push(vec![3]));
    assert!(!ring.push(vec![4]));
    assert_eq!(ring.get_lost(), 2);
    assert_eq!(ring.len(), 2);

    let f = ring.pop().unwrap();
    assert_eq!(f.ctr, 0);
    assert_eq!(f.payload, vec![1]);
    // the freed slot accepts the next frame, which carries the counter
    // value after the dropped ones
    assert!(ring.push(vec![5]));
    let f = ring.pop().unwrap();
    assert_eq!(f.ctr, 1);
    let f = ring.pop().unwrap();
    assert_eq!(f.ctr, 4);
    assert!(ring.pop().is_none());
}

#[test]
fn packet_classification() {
    assert_eq!(classify_packet(0xFF), PacketKind::Response);
    assert_eq!(classify_packet(0xFE), PacketKind::Error);
    assert_eq!(classify_packet(0xFD), PacketKind::Event);
    assert_eq!(classify_packet(0xFC), PacketKind::Service);
    assert_eq!(classify_packet(0x00), PacketKind::Daq);
    assert_eq!(classify_packet(0x7C), PacketKind::Daq);
}
