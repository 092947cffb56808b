// Address model: construction, accessors and wire conversion.

use xcp_lite::McAddrMode;
use xcp_lite::McAddress;
use xcp_lite::McIdentifier;
use xcp_lite::Registry;

#[test]
fn test_mc_address() {
    let mut reg = Registry::new();
    reg.cal_seg_list
        .add_a2l_cal_seg("calseg", 0, 0, 0x80000000, 0x1000)
        .unwrap();

    let addr = McAddress::new_calseg_rel("calseg", 11);
    assert_eq!(addr.get_calseg_name(), Some(McIdentifier::new("calseg")));
    assert_eq!(addr.get_event_id(), None);
    assert_eq!(addr.get_addr_offset(), 11);
    let a = addr.get_a2l_addr(&reg);
    assert!(a.0 == McAddress::XCP_ADDR_EXT_SEG);
    assert_eq!(a.1, 0x80000000 + 11);

    let addr = McAddress::new_event_rel(1, -1);
    assert_eq!(addr.get_calseg_name(), None);
    assert_eq!(addr.get_event_id(), Some(1));
    assert_eq!(addr.get_addr_offset(), -1);
    let a = addr.get_a2l_addr(&reg);
    assert!(a.0 == McAddress::XCP_ADDR_EXT_REL);
    assert_eq!(a.1, 0xFFFFFFFF);

    let addr = McAddress::new_event_rel(1, 0x7FFF_FFFF);
    assert_eq!(addr.get_calseg_name(), None);
    assert_eq!(addr.get_event_id(), Some(1));
    assert_eq!(addr.get_addr_offset(), 0x7FFF_FFFF);
    let a = addr.get_a2l_addr(&reg);
    assert!(a.0 == McAddress::XCP_ADDR_EXT_REL);
    assert_eq!(a.1, 0x7FFFFFFF);

    {
        let addr = McAddress::new_event_dyn(0, 2, -1);
        assert_eq!(addr.get_calseg_name(), None);
        assert_eq!(addr.get_event_id(), Some(2));
        assert_eq!(addr.get_addr_offset(), -1);
        let a = addr.get_a2l_addr(&reg);
        assert!(a.0 == McAddress::XCP_ADDR_EXT_DYN);
        assert_eq!(a.1, 0x0002FFFF);

        let addr = McAddress::new_event_dyn(0, 2, 0x7FFF);
        assert_eq!(addr.get_calseg_name(), None);
        assert_eq!(addr.get_event_id(), Some(2));
        assert_eq!(addr.get_addr_offset(), 0x7FFF);
        let a = addr.get_a2l_addr(&reg);
        assert!(a.0 == McAddress::XCP_ADDR_EXT_DYN);
        assert_eq!(a.1, 0x00027FFF);
    }
}

#[test]
fn address_mode_tags() {
    assert_eq!(McAddrMode::Cal.as_u8(), 0);
    assert_eq!(McAddrMode::Abs.as_u8(), 1);
    assert_eq!(McAddrMode::Dyn.as_u8(), 2);
    assert_eq!(McAddrMode::Rel.as_u8(), 3);
    assert_eq!(McAddrMode::A2l.as_u8(), 0xA0);
    assert_eq!(McAddrMode::A2lEvent.as_u8(), 0xA1);
    assert_eq!(McAddrMode::Undef.as_u8(), 0xFF);
    assert!(McAddrMode::Cal.is_segment_relative());
    assert!(McAddrMode::Rel.is_event_relative());
    assert!(McAddrMode::Dyn.is_event_relative());
    assert!(McAddrMode::A2l.is_a2l());
    assert!(McAddrMode::A2lEvent.is_a2l());
    assert!(!McAddrMode::Abs.is_a2l());
    assert_eq!(McAddrMode::default(), McAddrMode::Cal);
}

#[test]
fn address_offset_arithmetic() {
    let mut addr = McAddress::new_calseg_rel("s", 4);
    addr.add_addr_offset(6);
    assert_eq!(addr.get_addr_offset(), 10);

    // a raw wire address wraps around when pushed past the 32-bit space
    let mut addr = McAddress::new_a2l(0xFFFF_FFFF, 1);
    addr.add_addr_offset(1);
    assert_eq!(addr.get_raw_a2l_addr(), (1, 0));

    let mut addr = McAddress::new_a2l(0, 1);
    addr.add_addr_offset(-1);
    assert_eq!(addr.get_raw_a2l_addr(), (1, 0xFFFF_FFFF));

    let mut addr = McAddress::new_a2l_with_event(7, 0x10, 2);
    addr.set_raw_a2l_addr(3, 0x1234_5678);
    assert_eq!(addr.get_raw_a2l_addr(), (3, 0x1234_5678));
    assert_eq!(addr.get_event_id_unchecked(), 7);

    let none = McAddress::new_a2l(0, 1);
    assert_eq!(none.get_event_id_unchecked(), 0xFFFF);
}

#[test]
fn calseg_wire_addresses() {
    assert_eq!(
        McAddress::get_calseg_ext_addr_base(0),
        (McAddress::XCP_ADDR_EXT_SEG, 0x8000_0000)
    );
    assert_eq!(
        McAddress::get_calseg_ext_addr_base(3),
        (McAddress::XCP_ADDR_EXT_SEG, 0x8003_0000)
    );
    assert_eq!(
        McAddress::get_calseg_ext_addr(3, 0x10),
        (McAddress::XCP_ADDR_EXT_SEG, 0x8003_0010)
    );
}
