// Registry behavior: freeze, duplicate detection, event id uniqueness,
// lookups, renumbering and typedef flattening.

use std::collections::HashMap;

use xcp_lite::McAddress;
use xcp_lite::McDimType;
use xcp_lite::McEvent;
use xcp_lite::McInstance;
use xcp_lite::McObjectType;
use xcp_lite::McSupportData;
use xcp_lite::McValueType;
use xcp_lite::Registry;
use xcp_lite::RegistryError;

#[test]
fn freeze_closes_the_registry() {
    let mut reg = Registry::new();
    reg.add_cal_seg("s1", 0, 4).unwrap();
    assert!(!reg.is_frozen());
    reg.freeze();
    assert!(reg.is_frozen());

    // every add operation now fails ClosedRegistry and changes nothing
    assert_eq!(
        reg.add_event(McEvent::new("e", 0, 0, 0)),
        Err(RegistryError::ClosedRegistry)
    );
    assert_eq!(
        reg.add_cal_seg("s2", 1, 4),
        Err(RegistryError::ClosedRegistry)
    );
    assert_eq!(
        reg.add_cal_seg_by_addr("s3", 2, 0, 0x8002_0000, 4),
        Err(RegistryError::ClosedRegistry)
    );
    assert_eq!(
        reg.add_typedef("t", 4).unwrap_err(),
        RegistryError::ClosedRegistry
    );
    let inst = McInstance::new(
        "i",
        McDimType::new(McValueType::Ubyte, 1, 1),
        McSupportData::new(McObjectType::Measurement),
        McAddress::new_event_dyn(0, 0, 0),
    );
    assert_eq!(reg.add_instance(inst), Err(RegistryError::ClosedRegistry));
    assert_eq!(reg.cal_seg_list.len(), 1);
    assert_eq!(reg.event_list.len(), 0);

    // freezing again is a no-op
    reg.freeze();
    assert!(reg.is_frozen());
    assert_eq!(reg.cal_seg_list.len(), 1);
}

#[test]
fn event_ids_stay_unique() {
    let mut reg = Registry::new();
    reg.add_event(McEvent::new("cycle", 1, 1, 1000)).unwrap();
    reg.add_event(McEvent::new("cycle", 2, 2, 1000)).unwrap();
    reg.add_event(McEvent::new("background", 0, 3, 0)).unwrap();

    // same name and index collide
    let r = reg.add_event(McEvent::new("cycle", 1, 9, 0));
    assert!(matches!(r, Err(RegistryError::Duplicate(_))));
    // same id collides even under a fresh name
    let r = reg.add_event(McEvent::new("other", 0, 2, 0));
    assert!(matches!(r, Err(RegistryError::Duplicate(_))));

    // the multiset of ids has no duplicates
    let mut seen: Vec<u16> = Vec::new();
    for i in 0..reg.event_list.len() {
        let id = reg.event_list.get(i).get_id();
        assert!(!seen.contains(&id));
        seen.push(id);
    }
    assert_eq!(seen.len(), 3);
}

#[test]
fn event_lookup_and_sort() {
    let mut reg = Registry::new();
    reg.add_event(McEvent::new("b", 0, 7, 0)).unwrap();
    reg.add_event(McEvent::new("a", 0, 3, 0)).unwrap();
    reg.add_event(McEvent::new("c", 0, 5, 0)).unwrap();

    assert_eq!(reg.event_list.find_event("a", 0).unwrap().get_id(), 3);
    assert!(reg.event_list.find_event("a", 1).is_none());
    assert_eq!(reg.event_list.find_event_id(5).unwrap().get_name(), "c");
    assert!(reg.event_list.find_event_id(9).is_none());

    reg.event_list.sort_by_id();
    assert_eq!(reg.event_list.get(0).get_id(), 3);
    assert_eq!(reg.event_list.get(1).get_id(), 5);
    assert_eq!(reg.event_list.get(2).get_id(), 7);

    reg.event_list.sort_by_name();
    assert_eq!(reg.event_list.get(0).get_name(), "a");
    assert_eq!(reg.event_list.get(1).get_name(), "b");
    assert_eq!(reg.event_list.get(2).get_name(), "c");
}

#[test]
fn event_location_binding() {
    let mut reg = Registry::new();
    reg.add_event(McEvent::new("task", 0, 1, 0)).unwrap();
    assert!(reg.event_list.find_event_by_location(4, "run").is_none());
    reg.event_list.set_event_location("task", 4, "run", -16).unwrap();
    let e = reg.event_list.find_event_by_location(4, "run").unwrap();
    assert_eq!(e.get_id(), 1);
    assert_eq!(e.cfa, -16);
    let r = reg.event_list.set_event_location("absent", 4, "run", 0);
    assert!(matches!(r, Err(RegistryError::NotFound(_))));
}

#[test]
fn unique_event_names() {
    let mut reg = Registry::new();
    reg.set_app_info("demo", "test application", 1);
    reg.add_event(McEvent::new("cycle", 2, 2, 0)).unwrap();
    reg.add_event(McEvent::new("main", 0, 1, 0)).unwrap();

    let multi = reg.event_list.find_event("cycle", 2).unwrap().clone();
    let single = reg.event_list.find_event("main", 0).unwrap().clone();
    assert_eq!(multi.get_unique_name(&reg), "cycle_2");
    assert_eq!(single.get_unique_name(&reg), "main");

    reg.set_prefix_names_mode(true);
    assert!(reg.get_prefix_names_mode());
    assert_eq!(multi.get_unique_name(&reg), "demo.cycle_2");
    assert_eq!(single.get_unique_name(&reg), "main_0");
}

#[test]
fn segment_lookup_and_containment() {
    let mut reg = Registry::new();
    reg.add_cal_seg("s0", 0, 16).unwrap();
    reg.add_cal_seg("s1", 1, 8).unwrap();
    assert!(matches!(
        reg.add_cal_seg("s0", 5, 4),
        Err(RegistryError::Duplicate(_))
    ));
    assert!(matches!(
        reg.add_cal_seg("s9", 0, 4),
        Err(RegistryError::Duplicate(_))
    ));

    assert_eq!(reg.cal_seg_list.get_cal_seg_index("s1"), Some(1));
    assert_eq!(reg.cal_seg_list.get_cal_seg_index("nope"), None);
    let s = reg.cal_seg_list.find_cal_seg("s0").unwrap();
    assert_eq!(s.get_index(), 0);
    assert_eq!(s.addr, 0x8000_0000);
    assert_eq!(s.size, 16);

    // containment: addr of s1 is 0x8001_0000 with 8 bytes
    let hit = reg.cal_seg_list.find_cal_seg_by_address(0x8001_0007).unwrap();
    assert_eq!(hit.get_name(), "s1");
    assert!(reg.cal_seg_list.find_cal_seg_by_address(0x8001_0008).is_none());
}

#[test]
fn typedefs_and_fields() {
    let mut reg = Registry::new();
    let pos = reg.add_typedef("point", 8).unwrap();
    assert_eq!(pos, 0);
    assert!(matches!(
        reg.add_typedef("point", 8),
        Err(RegistryError::Duplicate(_))
    ));
    reg.add_typedef_field(
        "point",
        "x",
        McDimType::new(McValueType::Ulong, 1, 1),
        McSupportData::new(McObjectType::Measurement),
        0,
    )
    .unwrap();
    reg.add_typedef_field(
        "point",
        "y",
        McDimType::new(McValueType::Ulong, 1, 1),
        McSupportData::new(McObjectType::Measurement),
        4,
    )
    .unwrap();
    assert!(matches!(
        reg.add_typedef_field(
            "point",
            "x",
            McDimType::new(McValueType::Ulong, 1, 1),
            McSupportData::new(McObjectType::Measurement),
            0,
        ),
        Err(RegistryError::Duplicate(_))
    ));
    assert!(matches!(
        reg.add_typedef_field(
            "absent",
            "x",
            McDimType::new(McValueType::Ulong, 1, 1),
            McSupportData::new(McObjectType::Measurement),
            0,
        ),
        Err(RegistryError::NotFound(_))
    ));

    let td = reg.typedef_list.find_typedef("point").unwrap();
    assert_eq!(td.fields.len(), 2);
    assert_eq!(td.find_field("y").unwrap().offset, 4);
    assert!(td.find_field("z").is_none());
}

#[test]
fn flatten_expands_typedef_instances() {
    let mut reg = Registry::new();
    reg.add_typedef("pair", 4).unwrap();
    reg.add_typedef_field(
        "pair",
        "lo",
        McDimType::new(McValueType::Uword, 1, 1),
        McSupportData::new(McObjectType::Characteristic),
        0,
    )
    .unwrap();
    reg.add_typedef_field(
        "pair",
        "hi",
        McDimType::new(McValueType::Uword, 1, 1),
        McSupportData::new(McObjectType::Characteristic),
        2,
    )
    .unwrap();

    reg.add_instance(McInstance::new(
        "p1",
        McDimType::new(McValueType::new_typedef("pair"), 1, 1),
        McSupportData::new(McObjectType::Characteristic),
        McAddress::new_calseg_rel("s", 8),
    ))
    .unwrap();
    reg.add_instance(McInstance::new(
        "plain",
        McDimType::new(McValueType::Ubyte, 1, 1),
        McSupportData::new(McObjectType::Measurement),
        McAddress::new_event_dyn(0, 1, 0),
    ))
    .unwrap();

    reg.flatten_typedefs();
    assert_eq!(reg.instance_list.len(), 3);
    let lo = reg.instance_list.get_instance("p1.lo").unwrap();
    assert_eq!(lo.get_address().get_addr_offset(), 8);
    let hi = reg.instance_list.get_instance("p1.hi").unwrap();
    assert_eq!(hi.get_address().get_addr_offset(), 10);
    assert!(reg.instance_list.get_instance("plain").is_some());
    assert!(reg.instance_list.get_instance("p1").is_none());
}

#[test]
fn renumbering_maps() {
    let mut reg = Registry::new();
    reg.add_event(McEvent::new("e0", 0, 10, 0)).unwrap();
    reg.add_event(McEvent::new("e1", 0, 11, 0)).unwrap();
    reg.add_cal_seg("s0", 3, 4).unwrap();
    reg.add_instance(McInstance::new(
        "m",
        McDimType::new(McValueType::Ulong, 1, 1),
        McSupportData::new(McObjectType::Measurement),
        McAddress::new_a2l(0x000A_0004, 2), // event 10 in the high word
    ))
    .unwrap();

    let mut ev_map: HashMap<u16, u16> = HashMap::new();
    ev_map.insert(10, 20);
    reg.update_event_mapping(&ev_map);
    assert_eq!(reg.event_list.find_event("e0", 0).unwrap().get_id(), 20);
    assert_eq!(reg.event_list.find_event("e1", 0).unwrap().get_id(), 11);
    let m = reg.instance_list.get_instance("m").unwrap();
    assert_eq!(m.get_address().get_raw_a2l_addr(), (2, 0x0014_0004));

    let mut seg_map: HashMap<u16, u16> = HashMap::new();
    seg_map.insert(3, 7);
    reg.update_cal_seg_mapping(&seg_map);
    assert_eq!(reg.cal_seg_list.get_cal_seg_index("s0"), Some(7));
}

#[test]
fn registry_level_lookups() {
    let mut reg = Registry::new();
    reg.add_event(McEvent::new("e", 0, 4, 0)).unwrap();
    reg.add_cal_seg("s", 0, 8).unwrap();
    assert_eq!(reg.find_event("e", 0).unwrap().get_id(), 4);
    assert!(reg.find_event("e", 1).is_none());
    assert_eq!(reg.find_cal_seg("s").unwrap().get_index(), 0);
    assert!(reg.find_cal_seg("t").is_none());
    assert_eq!(
        reg.find_cal_seg_by_address(0x8000_0004).unwrap().get_name(),
        "s"
    );
    assert!(reg.find_cal_seg_by_address(0x8000_0008).is_none());
}

#[test]
fn application_info() {
    let mut reg = Registry::new();
    assert!(!reg.application.has_epk());
    assert_eq!(reg.application.get_name(), "application");
    reg.set_app_info("ecu1", "demo", 3);
    reg.set_epk("EPK_V1", 0x8000_0000);
    assert_eq!(reg.application.get_name(), "ecu1");
    assert_eq!(reg.application.get_version(), "EPK_V1");
    assert!(reg.application.has_epk());

    assert!(!reg.has_xcp_params());
    reg.set_xcp_params("UDP", [127, 0, 0, 1], 5555);
    assert!(reg.has_xcp_params());

    reg.set_flatten_typedefs_mode(true);
    assert!(reg.get_flatten_typedefs_mode());
    assert!(reg.get_auto_epk_segment_mode());
    reg.set_auto_epk_segment_mode(false);
    assert!(!reg.get_auto_epk_segment_mode());
}

#[test]
fn instance_duplicates() {
    let mut reg = Registry::new();
    let mk = || {
        McInstance::new(
            "sig",
            McDimType::new(McValueType::Ubyte, 1, 1),
            McSupportData::new(McObjectType::Measurement),
            McAddress::new_event_dyn(0, 1, 0),
        )
    };
    reg.add_instance(mk()).unwrap();
    assert!(matches!(
        reg.add_instance(mk()),
        Err(RegistryError::Duplicate(_))
    ));
    assert_eq!(reg.instance_list.len(), 1);
    let inst = reg.instance_list.get_instance("sig").unwrap();
    assert_eq!(inst.get_name(), "sig");
    assert_eq!(inst.event_id(), Some(1));
}

#[test]
fn stack_variable_registration() {
    let mut reg = Registry::new();
    reg.register_stack_var("v", 3, -8, McDimType::new(McValueType::Uword, 1, 1))
        .unwrap();
    let inst = reg.instance_list.get_instance("v").unwrap();
    assert_eq!(inst.event_id(), Some(3));
    assert_eq!(inst.get_address().get_addr_offset(), -8);
    // a duplicate name is refused
    assert!(matches!(
        reg.register_stack_var("v", 3, 0, McDimType::new(McValueType::Uword, 1, 1)),
        Err(RegistryError::Duplicate(_))
    ));
    // a frozen registry is closed
    reg.freeze();
    assert_eq!(
        reg.register_stack_var("w", 0, 0, McDimType::new(McValueType::Ubyte, 1, 1)),
        Err(RegistryError::ClosedRegistry)
    );
}
