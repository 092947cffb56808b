//! The measurement and calibration registry: the source of truth for
//! events, calibration segments, typedefs and instances.
//!
//! The registry is created at process start; segments and events are added
//! during application initialization; instances are added by registration
//! calls or by loading an external description. Once frozen, no add
//! operation succeeds any more; only page contents and DAQ lists mutate.

use std::collections::HashMap;

use vstd::prelude::*;

use crate::error::RegistryError;
use crate::ident::McIdentifier;
use crate::ident::McText;
use crate::mc_address::McAddrMode;
use crate::mc_event::McEvent;
use crate::mc_event::McEventList;
use crate::mc_event::event_matches;
use crate::mc_instance::McInstance;
use crate::mc_instance::McInstanceList;
use crate::mc_instance::McSupportData;
use crate::mc_seg::McCalibrationSegment;
use crate::mc_seg::McCalibrationSegmentList;
use crate::mc_type::McDimType;
use crate::mc_type::McValueType;
use crate::mc_typedef::McTypeDef;
use crate::mc_typedef::McTypeDefList;

verus! {

/// XCP transport layer parameters published in the description.
#[derive(Debug)]
pub struct McXcpTransportLayer {
    /// Transport protocol name, `"UDP"` or `"TCP"`.
    pub protocol_name: McIdentifier,
    /// IPv4 address of the server, as four octets.
    pub addr: [u8; 4],
    /// Port of the server.
    pub port: u16,
}

impl Clone for McXcpTransportLayer {
    fn clone(&self) -> (r: Self)
        ensures
            r.protocol_name == self.protocol_name,
            r.addr@ == self.addr@,
            r.port == self.port,
    {
        McXcpTransportLayer {
            protocol_name: self.protocol_name.clone(),
            addr: [self.addr[0], self.addr[1], self.addr[2], self.addr[3]],
            port: self.port,
        }
    }
}

/// Application name and software version of the process.
#[derive(Debug)]
pub struct McApplication {
    /// Unique identifier of the application.
    pub app_id: u8,
    /// Application name, used as description file and module name.
    pub name: McIdentifier,
    /// Optional description of the application.
    pub description: McText,
    /// Software version string (EPK).
    pub version: McText,
    /// Address of the version string in memory.
    pub version_addr: u32,
}

impl McApplication {
    /// An application record with empty name and version.
    pub fn new() -> (r: Self)
        ensures
            r.app_id == 0,
            r.name@.len() == 0,
            r.description@.len() == 0,
            r.version@.len() == 0,
            r.version_addr == 0,
    {
        proof {
            reveal_strlit("");
        }
        McApplication {
            app_id: 0,
            name: McIdentifier::new(""),
            description: McText::new(""),
            version: McText::new(""),
            version_addr: 0,
        }
    }

    /// True when a version string is set.
    pub fn has_epk(&self) -> (r: bool)
        ensures
            r == (self.version@.len() != 0),
    {
        !self.version.is_empty()
    }

    /// Set name, description and id of the application.
    pub fn set_info(&mut self, name: &str, description: &str, id: u8)
        ensures
            final(self).app_id == id,
            final(self).name@ == name@,
            final(self).description@ == description@,
            final(self).version == old(self).version,
            final(self).version_addr == old(self).version_addr,
    {
        self.app_id = id;
        self.name = McIdentifier::new(name);
        self.description = McText::new(description);
    }

    /// The application name used in the description; `"application"` when
    /// none is set.
    pub open spec fn spec_name(&self) -> Seq<char> {
        if self.name@.len() != 0 {
            self.name@
        } else {
            "application"@
        }
    }

    /// The application name, with a fixed fallback when none is set.
    pub fn get_name(&self) -> (r: &str)
        ensures
            r@ == self.spec_name(),
    {
        if !self.name.as_str().is_empty() {
            self.name.as_str()
        } else {
            "application"
        }
    }

    /// Set the software version string and its address.
    pub fn set_version(&mut self, epk: &str, version_addr: u32)
        ensures
            final(self).app_id == old(self).app_id,
            final(self).name == old(self).name,
            final(self).description == old(self).description,
            final(self).version@ == epk@,
            final(self).version_addr == version_addr,
    {
        self.version = McText::new(epk);
        self.version_addr = version_addr;
    }

    /// The software version string.
    pub fn get_version(&self) -> (r: &str)
        ensures
            r@ == self.version@,
    {
        self.version.as_str()
    }
}

/// The measurement and calibration object database.
#[derive(Debug)]
pub struct Registry {
    /// Collapse typedefs to flat objects when emitting the description.
    pub flatten_typedefs: bool,
    /// Prefix names with the application name when emitting the description.
    pub prefix_names: bool,
    /// Segment index 0 is reserved for the implicit version segment.
    pub auto_epk_segment_mode: bool,
    /// Application name and software version.
    pub application: McApplication,
    /// XCP transport layer parameters, when XCP is published.
    pub xcp_tl_params: Option<McXcpTransportLayer>,
    /// All events.
    pub event_list: McEventList,
    /// All calibration segments.
    pub cal_seg_list: McCalibrationSegmentList,
    /// All typedefs.
    pub typedef_list: McTypeDefList,
    /// All measurement and calibration instances.
    pub instance_list: McInstanceList,
    /// Once frozen, add operations fail `ClosedRegistry`.
    pub frozen: bool,
}

impl Registry {
    /// Create an empty registry.
    pub fn new() -> (r: Registry)
        ensures
            r.flatten_typedefs == false,
            r.prefix_names == false,
            r.auto_epk_segment_mode == true,
            r.xcp_tl_params is None,
            r.event_list@.len() == 0,
            r.cal_seg_list@.len() == 0,
            r.typedef_list@.len() == 0,
            r.instance_list@.len() == 0,
            r.frozen == false,
            r.application.name@.len() == 0,
            r.application.version@.len() == 0,
    {
        Registry {
            flatten_typedefs: false,
            prefix_names: false,
            auto_epk_segment_mode: true,
            application: McApplication::new(),
            xcp_tl_params: None,
            event_list: McEventList::new(),
            cal_seg_list: McCalibrationSegmentList::new(),
            typedef_list: McTypeDefList::new(),
            instance_list: McInstanceList::new(),
            frozen: false,
        }
    }

    /// Everything but the named lists and flags is unchanged.
    pub open spec fn same_but_events(&self, other: &Registry) -> bool {
        &&& self.flatten_typedefs == other.flatten_typedefs
        &&& self.prefix_names == other.prefix_names
        &&& self.auto_epk_segment_mode == other.auto_epk_segment_mode
        &&& self.application == other.application
        &&& self.xcp_tl_params == other.xcp_tl_params
        &&& self.cal_seg_list@ == other.cal_seg_list@
        &&& self.typedef_list@ == other.typedef_list@
        &&& self.instance_list@ == other.instance_list@
        &&& self.frozen == other.frozen
    }

    /// Everything but the segment list is unchanged.
    pub open spec fn same_but_segments(&self, other: &Registry) -> bool {
        &&& self.flatten_typedefs == other.flatten_typedefs
        &&& self.prefix_names == other.prefix_names
        &&& self.auto_epk_segment_mode == other.auto_epk_segment_mode
        &&& self.application == other.application
        &&& self.xcp_tl_params == other.xcp_tl_params
        &&& self.event_list@ == other.event_list@
        &&& self.typedef_list@ == other.typedef_list@
        &&& self.instance_list@ == other.instance_list@
        &&& self.frozen == other.frozen
    }

    /// Everything but the typedef list is unchanged.
    pub open spec fn same_but_typedefs(&self, other: &Registry) -> bool {
        &&& self.flatten_typedefs == other.flatten_typedefs
        &&& self.prefix_names == other.prefix_names
        &&& self.auto_epk_segment_mode == other.auto_epk_segment_mode
        &&& self.application == other.application
        &&& self.xcp_tl_params == other.xcp_tl_params
        &&& self.event_list@ == other.event_list@
        &&& self.cal_seg_list@ == other.cal_seg_list@
        &&& self.instance_list@ == other.instance_list@
        &&& self.frozen == other.frozen
    }

    /// Everything but the instance list is unchanged.
    pub open spec fn same_but_instances(&self, other: &Registry) -> bool {
        &&& self.flatten_typedefs == other.flatten_typedefs
        &&& self.prefix_names == other.prefix_names
        &&& self.auto_epk_segment_mode == other.auto_epk_segment_mode
        &&& self.application == other.application
        &&& self.xcp_tl_params == other.xcp_tl_params
        &&& self.event_list@ == other.event_list@
        &&& self.cal_seg_list@ == other.cal_seg_list@
        &&& self.typedef_list@ == other.typedef_list@
        &&& self.frozen == other.frozen
    }

    /// Set XCP transport layer parameters, enabling XCP publication in the
    /// description.
    pub fn set_xcp_params(&mut self, protocol_name: &str, addr: [u8; 4], port: u16)
        ensures
            final(self).xcp_tl_params is Some,
            final(self).xcp_tl_params->0.protocol_name@ == protocol_name@,
            final(self).xcp_tl_params->0.addr@ == addr@,
            final(self).xcp_tl_params->0.port == port,
            final(self).flatten_typedefs == old(self).flatten_typedefs,
            final(self).prefix_names == old(self).prefix_names,
            final(self).auto_epk_segment_mode == old(self).auto_epk_segment_mode,
            final(self).application == old(self).application,
            final(self).event_list@ == old(self).event_list@,
            final(self).cal_seg_list@ == old(self).cal_seg_list@,
            final(self).typedef_list@ == old(self).typedef_list@,
            final(self).instance_list@ == old(self).instance_list@,
            final(self).frozen == old(self).frozen,
    {
        self.xcp_tl_params = Some(
            McXcpTransportLayer { protocol_name: McIdentifier::new(protocol_name), addr, port },
        );
    }

    /// True when transport layer parameters are set.
    pub fn has_xcp_params(&self) -> (r: bool)
        ensures
            r == (self.xcp_tl_params is Some),
    {
        self.xcp_tl_params.is_some()
    }

    /// Set application name, description and id.
    pub fn set_app_info(&mut self, name: &str, description: &str, id: u8)
        ensures
            final(self).application.app_id == id,
            final(self).application.name@ == name@,
            final(self).application.description@ == description@,
            final(self).application.version == old(self).application.version,
            final(self).application.version_addr == old(self).application.version_addr,
            final(self).event_list@ == old(self).event_list@,
            final(self).cal_seg_list@ == old(self).cal_seg_list@,
            final(self).typedef_list@ == old(self).typedef_list@,
            final(self).instance_list@ == old(self).instance_list@,
            final(self).frozen == old(self).frozen,
    {
        self.application.set_info(name, description, id);
    }

    /// Set the software version string and its address.
    pub fn set_epk(&mut self, epk: &str, version_addr: u32)
        ensures
            final(self).application.version@ == epk@,
            final(self).application.version_addr == version_addr,
            final(self).application.name == old(self).application.name,
            final(self).event_list@ == old(self).event_list@,
            final(self).cal_seg_list@ == old(self).cal_seg_list@,
            final(self).typedef_list@ == old(self).typedef_list@,
            final(self).instance_list@ == old(self).instance_list@,
            final(self).frozen == old(self).frozen,
    {
        self.application.set_version(epk, version_addr);
    }

    /// Collapse typedefs when emitting the description.
    pub fn set_flatten_typedefs_mode(&mut self, flatten_typedefs: bool)
        ensures
            final(self).flatten_typedefs == flatten_typedefs,
            final(self).prefix_names == old(self).prefix_names,
            final(self).auto_epk_segment_mode == old(self).auto_epk_segment_mode,
            final(self).application == old(self).application,
            final(self).event_list@ == old(self).event_list@,
            final(self).cal_seg_list@ == old(self).cal_seg_list@,
            final(self).typedef_list@ == old(self).typedef_list@,
            final(self).instance_list@ == old(self).instance_list@,
            final(self).frozen == old(self).frozen,
    {
        self.flatten_typedefs = flatten_typedefs;
    }

    /// The flatten mode.
    pub fn get_flatten_typedefs_mode(&self) -> (r: bool)
        ensures
            r == self.flatten_typedefs,
    {
        self.flatten_typedefs
    }

    /// Prefix names with the application name when emitting the
    /// description.
    pub fn set_prefix_names_mode(&mut self, prefix_names: bool)
        ensures
            final(self).prefix_names == prefix_names,
            final(self).flatten_typedefs == old(self).flatten_typedefs,
            final(self).auto_epk_segment_mode == old(self).auto_epk_segment_mode,
            final(self).application == old(self).application,
            final(self).event_list@ == old(self).event_list@,
            final(self).cal_seg_list@ == old(self).cal_seg_list@,
            final(self).typedef_list@ == old(self).typedef_list@,
            final(self).instance_list@ == old(self).instance_list@,
            final(self).frozen == old(self).frozen,
    {
        self.prefix_names = prefix_names;
    }

    /// The prefix mode.
    pub fn get_prefix_names_mode(&self) -> (r: bool)
        ensures
            r == self.prefix_names,
    {
        self.prefix_names
    }

    /// Reserve segment index 0 for the implicit version segment.
    pub fn set_auto_epk_segment_mode(&mut self, auto_epk_segment_mode: bool)
        ensures
            final(self).auto_epk_segment_mode == auto_epk_segment_mode,
            final(self).flatten_typedefs == old(self).flatten_typedefs,
            final(self).prefix_names == old(self).prefix_names,
            final(self).application == old(self).application,
            final(self).event_list@ == old(self).event_list@,
            final(self).cal_seg_list@ == old(self).cal_seg_list@,
            final(self).typedef_list@ == old(self).typedef_list@,
            final(self).instance_list@ == old(self).instance_list@,
            final(self).frozen == old(self).frozen,
    {
        self.auto_epk_segment_mode = auto_epk_segment_mode;
    }

    /// The implicit version segment mode.
    pub fn get_auto_epk_segment_mode(&self) -> (r: bool)
        ensures
            r == self.auto_epk_segment_mode,
    {
        self.auto_epk_segment_mode
    }

    /// Find the first event with the given name and instance index.
    pub fn find_event(&self, name: &str, index: u16) -> (r: Option<&McEvent>)
        ensures
            match r {
                Option::Some(e) => exists|i: int|
                    0 <= i < self.event_list@.len() && *e == self.event_list@[i] && event_matches(
                        #[trigger] self.event_list@[i],
                        name@,
                        index,
                    ),
                Option::None => forall|i: int|
                    0 <= i < self.event_list@.len() ==> !event_matches(
                        #[trigger] self.event_list@[i],
                        name@,
                        index,
                    ),
            },
    {
        self.event_list.find_event(name, index)
    }

    /// Find the first calibration segment with the given name.
    pub fn find_cal_seg(&self, name: &str) -> (r: Option<&McCalibrationSegment>)
        ensures
            r is Some ==> self.cal_seg_list.spec_index_of(name@) == Option::Some(r->0.index),
            r is None ==> self.cal_seg_list.spec_index_of(name@) is None,
    {
        self.cal_seg_list.find_cal_seg(name)
    }

    /// Find the calibration segment whose wire address range contains the
    /// given address.
    pub fn find_cal_seg_by_address(&self, addr: u32) -> (r: Option<&McCalibrationSegment>)
        ensures
            match r {
                Option::Some(seg) => exists|i: int|
                    0 <= i < self.cal_seg_list@.len() && *seg == self.cal_seg_list@[i] && (
                    #[trigger] self.cal_seg_list@[i]).addr <= addr < self.cal_seg_list@[i].addr
                        + self.cal_seg_list@[i].size,
                Option::None => forall|i: int|
                    0 <= i < self.cal_seg_list@.len() ==> !((
                    #[trigger] self.cal_seg_list@[i]).addr <= addr < self.cal_seg_list@[i].addr
                        + self.cal_seg_list@[i].size),
            },
    {
        self.cal_seg_list.find_cal_seg_by_address(addr)
    }

    /// Freeze the registry: all later add operations fail `ClosedRegistry`.
    /// Freezing a frozen registry changes nothing.
    pub fn freeze(&mut self)
        ensures
            final(self).frozen == true,
            final(self).flatten_typedefs == old(self).flatten_typedefs,
            final(self).prefix_names == old(self).prefix_names,
            final(self).auto_epk_segment_mode == old(self).auto_epk_segment_mode,
            final(self).application == old(self).application,
            final(self).xcp_tl_params == old(self).xcp_tl_params,
            final(self).event_list@ == old(self).event_list@,
            final(self).cal_seg_list@ == old(self).cal_seg_list@,
            final(self).typedef_list@ == old(self).typedef_list@,
            final(self).instance_list@ == old(self).instance_list@,
    {
        self.frozen = true;
    }

    /// True once the registry is frozen.
    pub fn is_frozen(&self) -> (r: bool)
        ensures
            r == self.frozen,
    {
        self.frozen
    }

    /// Add an event; fails `ClosedRegistry` after freeze and `Duplicate`
    /// on a name-and-index or id collision.
    pub fn add_event(&mut self, event: McEvent) -> (r: Result<(), RegistryError>)
        ensures
            old(self).frozen ==> r == Result::<(), RegistryError>::Err(
                RegistryError::ClosedRegistry,
            ) && *final(self) == *old(self),
            final(self).same_but_events(old(self)),
            !old(self).frozen ==> {
                &&& (r is Ok ==> final(self).event_list@ == old(self).event_list@.push(event)
                    && forall|i: int|
                    0 <= i < old(self).event_list@.len() ==> !event_matches(
                        #[trigger] old(self).event_list@[i],
                        event.name@,
                        event.index,
                    ) && old(self).event_list@[i].id != event.id)
                &&& (r is Err ==> final(self).event_list@ == old(self).event_list@ && r->Err_0
                    is Duplicate && exists|i: int|
                    0 <= i < old(self).event_list@.len() && (event_matches(
                        #[trigger] old(self).event_list@[i],
                        event.name@,
                        event.index,
                    ) || old(self).event_list@[i].id == event.id))
            },
            old(self).event_list.unique_ids() ==> final(self).event_list.unique_ids(),
    {
        if self.frozen {
            return Err(RegistryError::ClosedRegistry);
        }
        self.event_list.add_event(event)
    }

    /// Add a calibration segment with the canonical segment-relative base
    /// address; fails `ClosedRegistry` after freeze and `Duplicate` on a
    /// name or index collision.
    pub fn add_cal_seg(&mut self, name: &str, index: u16, size: u32) -> (r: Result<
        (),
        RegistryError,
    >)
        requires
            index < 0x8000,
        ensures
            old(self).frozen ==> r == Result::<(), RegistryError>::Err(
                RegistryError::ClosedRegistry,
            ) && *final(self) == *old(self),
            final(self).same_but_segments(old(self)),
            !old(self).frozen ==> {
                &&& (r is Ok ==> {
                    &&& final(self).cal_seg_list@.len() == old(self).cal_seg_list@.len() + 1
                    &&& final(self).cal_seg_list@ == old(self).cal_seg_list@.push(
                        final(self).cal_seg_list@.last(),
                    )
                    &&& final(self).cal_seg_list@.last().name@ == name@
                    &&& final(self).cal_seg_list@.last().index == index
                    &&& final(self).cal_seg_list@.last().size == size
                })
                &&& (r is Err ==> final(self).cal_seg_list@ == old(self).cal_seg_list@ && r->Err_0
                    is Duplicate && exists|i: int|
                    0 <= i < old(self).cal_seg_list@.len() && ((
                    #[trigger] old(self).cal_seg_list@[i]).name@ == name@ || old(
                        self,
                    ).cal_seg_list@[i].index == index))
            },
            old(self).cal_seg_list.unique() ==> final(self).cal_seg_list.unique(),
    {
        if self.frozen {
            return Err(RegistryError::ClosedRegistry);
        }
        self.cal_seg_list.add_cal_seg(name, index, size)
    }

    /// Add an externally described calibration segment with its raw wire
    /// base address; fails `ClosedRegistry` after freeze and `Duplicate`
    /// on a name or index collision.
    pub fn add_cal_seg_by_addr(
        &mut self,
        name: &str,
        index: u16,
        addr_ext: u8,
        addr: u32,
        size: u32,
    ) -> (r: Result<(), RegistryError>)
        ensures
            old(self).frozen ==> r == Result::<(), RegistryError>::Err(
                RegistryError::ClosedRegistry,
            ) && *final(self) == *old(self),
            final(self).same_but_segments(old(self)),
            !old(self).frozen ==> {
                &&& (r is Ok ==> {
                    &&& final(self).cal_seg_list@.len() == old(self).cal_seg_list@.len() + 1
                    &&& final(self).cal_seg_list@ == old(self).cal_seg_list@.push(
                        final(self).cal_seg_list@.last(),
                    )
                    &&& final(self).cal_seg_list@.last().name@ == name@
                    &&& final(self).cal_seg_list@.last().index == index
                    &&& final(self).cal_seg_list@.last().size == size
                    &&& final(self).cal_seg_list@.last().addr_ext == addr_ext
                    &&& final(self).cal_seg_list@.last().addr == addr
                })
                &&& (r is Err ==> final(self).cal_seg_list@ == old(self).cal_seg_list@ && r->Err_0
                    is Duplicate && exists|i: int|
                    0 <= i < old(self).cal_seg_list@.len() && ((
                    #[trigger] old(self).cal_seg_list@[i]).name@ == name@ || old(
                        self,
                    ).cal_seg_list@[i].index == index))
            },
            old(self).cal_seg_list.unique() ==> final(self).cal_seg_list.unique(),
    {
        if self.frozen {
            return Err(RegistryError::ClosedRegistry);
        }
        self.cal_seg_list.add_cal_seg_by_addr(name, index, addr_ext, addr, size)
    }

    /// Add an instance; fails `ClosedRegistry` after freeze and
    /// `Duplicate` on a name collision.
    pub fn add_instance(&mut self, instance: McInstance) -> (r: Result<(), RegistryError>)
        ensures
            old(self).frozen ==> r == Result::<(), RegistryError>::Err(
                RegistryError::ClosedRegistry,
            ) && *final(self) == *old(self),
            final(self).same_but_instances(old(self)),
            !old(self).frozen ==> {
                &&& (r is Ok ==> final(self).instance_list@ == old(self).instance_list@.push(
                    instance,
                ) && forall|i: int|
                    0 <= i < old(self).instance_list@.len() ==> (
                    #[trigger] old(self).instance_list@[i]).name@ != instance.name@)
                &&& (r is Err ==> final(self).instance_list@ == old(self).instance_list@
                    && r->Err_0 is Duplicate && exists|i: int|
                    0 <= i < old(self).instance_list@.len() && (
                    #[trigger] old(self).instance_list@[i]).name@ == instance.name@)
            },
    {
        if self.frozen {
            return Err(RegistryError::ClosedRegistry);
        }
        self.instance_list.add_instance(instance)
    }

    /// Add a typedef; fails `ClosedRegistry` after freeze and `Duplicate`
    /// when the type name exists. Returns the position of the new typedef.
    pub fn add_typedef(&mut self, typedef_name: &str, size: usize) -> (r: Result<
        usize,
        RegistryError,
    >)
        ensures
            old(self).frozen ==> r == Result::<usize, RegistryError>::Err(
                RegistryError::ClosedRegistry,
            ) && *final(self) == *old(self),
            final(self).same_but_typedefs(old(self)),
            !old(self).frozen ==> {
                &&& (r is Ok ==> {
                    &&& final(self).typedef_list@.len() == old(self).typedef_list@.len() + 1
                    &&& r->Ok_0 == old(self).typedef_list@.len()
                    &&& final(self).typedef_list@ == old(self).typedef_list@.push(
                        final(self).typedef_list@.last(),
                    )
                    &&& final(self).typedef_list@.last().name@ == typedef_name@
                    &&& final(self).typedef_list@.last().size == size
                    &&& final(self).typedef_list@.last().fields@.len() == 0
                    &&& forall|i: int|
                        0 <= i < old(self).typedef_list@.len() ==> (
                        #[trigger] old(self).typedef_list@[i]).name@ != typedef_name@
                })
                &&& (r is Err ==> final(self).typedef_list@ == old(self).typedef_list@ && r->Err_0
                    is Duplicate && exists|i: int|
                    0 <= i < old(self).typedef_list@.len() && (
                    #[trigger] old(self).typedef_list@[i]).name@ == typedef_name@)
            },
    {
        if self.frozen {
            return Err(RegistryError::ClosedRegistry);
        }
        if self.typedef_list.find_position(typedef_name).is_some() {
            return Err(RegistryError::Duplicate(typedef_name.to_owned()));
        }
        let index = self.typedef_list.len();
        self.typedef_list.push(McTypeDef::new(typedef_name, size));
        Ok(index)
    }

    /// Add a field to a typedef; fails `ClosedRegistry` after freeze,
    /// `NotFound` when the type name is unknown and `Duplicate` when the
    /// field name exists on that typedef.
    pub fn add_typedef_field(
        &mut self,
        typedef_name: &str,
        field_name: &str,
        dim_type: McDimType,
        mc_support_data: McSupportData,
        offset: u16,
    ) -> (r: Result<(), RegistryError>)
        ensures
            old(self).frozen ==> r == Result::<(), RegistryError>::Err(
                RegistryError::ClosedRegistry,
            ) && *final(self) == *old(self),
            final(self).same_but_typedefs(old(self)),
            !old(self).frozen ==> {
                &&& (r is Ok ==> exists|i: int|
                    {
                        &&& 0 <= i < old(self).typedef_list@.len()
                        &&& (#[trigger] old(self).typedef_list@[i]).name@ == typedef_name@
                        &&& final(self).typedef_list@.len() == old(self).typedef_list@.len()
                        &&& (forall|j: int|
                            0 <= j < old(self).typedef_list@.len() && j != i
                                ==> final(self).typedef_list@[j] == old(self).typedef_list@[j])
                        &&& final(self).typedef_list@[i].name == old(self).typedef_list@[i].name
                        &&& final(self).typedef_list@[i].size == old(self).typedef_list@[i].size
                        &&& final(self).typedef_list@[i].fields@
                            == old(self).typedef_list@[i].fields@.push(final(self).typedef_list@[i].fields@.last())
                        &&& final(self).typedef_list@[i].fields@.last().name@ == field_name@
                        &&& final(self).typedef_list@[i].fields@.last().dim_type == dim_type
                        &&& final(self).typedef_list@[i].fields@.last().support_data
                            == mc_support_data
                        &&& final(self).typedef_list@[i].fields@.last().offset == offset
                    })
                &&& (r is Err ==> final(self).typedef_list@ == old(self).typedef_list@)
                &&& (r is Err && r->Err_0 is NotFound <==> forall|i: int|
                    0 <= i < old(self).typedef_list@.len() ==> (
                    #[trigger] old(self).typedef_list@[i]).name@ != typedef_name@)
                &&& (r is Err && r->Err_0 is Duplicate ==> exists|i: int|
                    {
                        &&& 0 <= i < old(self).typedef_list@.len()
                        &&& (#[trigger] old(self).typedef_list@[i]).name@ == typedef_name@
                        &&& (forall|j: int|
                            0 <= j < i ==> (#[trigger] old(self).typedef_list@[j]).name@
                                != typedef_name@)
                        &&& exists|k: int|
                            0 <= k < old(self).typedef_list@[i].fields@.len() && (#[trigger] old(
                                self,
                            ).typedef_list@[i].fields@[k]).name@ == field_name@
                    })
                &&& (r is Err ==> r->Err_0 is NotFound || r->Err_0 is Duplicate)
            },
    {
        if self.frozen {
            return Err(RegistryError::ClosedRegistry);
        }
        match self.typedef_list.find_position(typedef_name) {
            Some(i) => self.typedef_list.add_field_at(
                i,
                field_name,
                dim_type,
                mc_support_data,
                offset,
            ),
            None => Err(RegistryError::NotFound(typedef_name.to_owned())),
        }
    }

    /// Register a variable on a task's stack: the caller computes the
    /// signed distance between the variable and the event base pointer
    /// and hands it in, and the instance is added with event relative
    /// addressing at that offset.
    pub fn register_stack_var(
        &mut self,
        name: &str,
        event_id: u16,
        offset: i16,
        dim_type: McDimType,
    ) -> (r: Result<(), RegistryError>)
        ensures
            old(self).frozen ==> r == Result::<(), RegistryError>::Err(
                RegistryError::ClosedRegistry,
            ) && *final(self) == *old(self),
            final(self).same_but_instances(old(self)),
            !old(self).frozen ==> {
                &&& (r is Ok <==> forall|i: int|
                    0 <= i < old(self).instance_list@.len() ==> (
                    #[trigger] old(self).instance_list@[i]).name@ != name@)
                &&& (r is Ok ==> {
                    &&& final(self).instance_list@.len() == old(self).instance_list@.len() + 1
                    &&& final(self).instance_list@ == old(self).instance_list@.push(
                        final(self).instance_list@.last(),
                    )
                    &&& final(self).instance_list@.last().name@ == name@
                    &&& final(self).instance_list@.last().dim_type == dim_type
                    &&& final(self).instance_list@.last().address@.addr_mode is Rel
                    &&& final(self).instance_list@.last().address@.event_id == Option::Some(
                        event_id,
                    )
                    &&& final(self).instance_list@.last().address@.addr_offset == offset
                    &&& final(self).instance_list@.last().support_data.object_type
                        == crate::mc_instance::McObjectType::Measurement
                })
                &&& (r is Err ==> final(self).instance_list@ == old(self).instance_list@
                    && r->Err_0 is Duplicate && exists|i: int|
                    0 <= i < old(self).instance_list@.len() && (
                    #[trigger] old(self).instance_list@[i]).name@ == name@)
            },
    {
        if self.frozen {
            return Err(RegistryError::ClosedRegistry);
        }
        let address = crate::mc_address::McAddress::new_event_rel(event_id, offset as i32);
        let support = McSupportData::new(crate::mc_instance::McObjectType::Measurement);
        let instance = McInstance::new(name, dim_type, support, address);
        self.instance_list.add_instance(instance)
    }

    /// The instance is the expansion of one field of a typedef-typed
    /// instance: its name is `instance.field`, it carries the field's
    /// type and support data, and its address is the instance address
    /// shifted by the field offset (with wrap-around for raw wire
    /// addresses).
    pub open spec fn spec_is_field_expansion(
        out: McInstance,
        instances: Seq<McInstance>,
        typedefs: Seq<McTypeDef>,
    ) -> bool {
        exists|v: int, p: int, k: int|
            {
                &&& 0 <= v < instances.len()
                &&& 0 <= p < typedefs.len()
                &&& 0 <= k < typedefs[p].fields@.len()
                &&& (#[trigger] instances[v]).dim_type.value_type is TypeDef
                &&& out.dim_type == (#[trigger] typedefs[p].fields@[k]).dim_type
                &&& typedefs[p].name@ == instances[v].dim_type.value_type->TypeDef_0@
                &&& out.name@ == instances[v].name@ + "."@ + typedefs[p].fields@[k].name@
                &&& out.support_data == typedefs[p].fields@[k].support_data
                &&& out.address@.addr_mode == instances[v].address@.addr_mode
                &&& out.address@.calseg_name == instances[v].address@.calseg_name
                &&& out.address@.event_id == instances[v].address@.event_id
                &&& (!(instances[v].address@.addr_mode is A2l || instances[v].address@.addr_mode
                    is A2lEvent) ==> out.address@.addr_offset == instances[v].address@.addr_offset
                    + typedefs[p].fields@[k].offset)
                &&& ((instances[v].address@.addr_mode is A2l || instances[v].address@.addr_mode
                    is A2lEvent) ==> out.address@.a2l_addr == crate::mc_address::wrap_add_u32(
                    instances[v].address@.a2l_addr,
                    typedefs[p].fields@[k].offset as i32,
                ))
            }
    }

    /// One expansion sweep over the instance list: every instance whose
    /// type is a typedef found in the typedef list is replaced by one
    /// instance per field, named `instance.field`, at the field's offset
    /// from the instance address. Returns whether anything was expanded.
    ///
    /// Instances of unknown typedefs, and instances whose offset cannot
    /// take the field offsets without leaving the address range, are kept
    /// unchanged.
    pub fn flatten_one_sweep(&mut self) -> (changed: bool)
        ensures
            final(self).same_but_instances(old(self)),
            forall|v: McInstance|
                old(self).instance_list@.contains(v) && !(v.dim_type.value_type is TypeDef)
                    ==> final(self).instance_list@.contains(v),
            // every output instance comes from the input: kept as it was,
            // or produced by expanding one field of a typedef instance
            forall|w: int|
                0 <= w < final(self).instance_list@.len() ==> old(self).instance_list@.contains(
                    #[trigger] final(self).instance_list@[w],
                ) || Self::spec_is_field_expansion(
                    final(self).instance_list@[w],
                    old(self).instance_list@,
                    old(self).typedef_list@,
                ),
    {
        let mut out = McInstanceList::new();
        let mut changed = false;
        let n = self.instance_list.len();
        let mut i: usize = 0;
        while i < n
            invariant
                n == self.instance_list@.len(),
                self.instance_list@ == old(self).instance_list@,
                self.typedef_list@ == old(self).typedef_list@,
                i <= n,
                forall|j: int|
                    0 <= j < i && !((#[trigger] self.instance_list@[j]).dim_type.value_type
                        is TypeDef) ==> out@.contains(self.instance_list@[j]),
                forall|w: int|
                    0 <= w < out@.len() ==> self.instance_list@.contains(#[trigger] out@[w])
                        || Self::spec_is_field_expansion(
                        out@[w],
                        self.instance_list@,
                        self.typedef_list@,
                    ),
            decreases n - i,
        {
            let ghost out_before = out@;
            let inst = self.instance_list.get(i);
            let mut expanded = false;
            let is_ref = match &inst.dim_type.value_type {
                McValueType::TypeDef(_) => true,
                _ => false,
            };
            if is_ref {
                let pos = match &inst.dim_type.value_type {
                    McValueType::TypeDef(tn) => self.typedef_list.find_position(tn.as_str()),
                    _ => None,
                };
                match pos {
                    Some(p) => {
                        let mode = inst.get_address().get_addr_mode();
                        let offset_ok = if matches!(mode, McAddrMode::Undef) {
                            false
                        } else if mode.is_a2l() {
                            true
                        } else {
                            let off = inst.get_address().raw_addr_offset();
                            off <= i32::MAX - 0xFFFF
                        };
                        if offset_ok {
                            let td = self.typedef_list.get(p);
                            let k_max = td.fields.len();
                            let mut k: usize = 0;
                            while k < k_max
                                invariant
                                    k_max == td.fields@.len(),
                                    k <= k_max,
                                    *td == self.typedef_list@[p as int],
                                    p < self.typedef_list@.len(),
                                    *inst == self.instance_list@[i as int],
                                    i < self.instance_list@.len(),
                                    inst.dim_type.value_type is TypeDef,
                                    self.typedef_list@[p as int].name@
                                        == inst.dim_type.value_type->TypeDef_0@,
                                    !(inst.address@.addr_mode is Undef),
                                    !(inst.address@.addr_mode is A2l || inst.address@.addr_mode
                                        is A2lEvent) ==> inst.address@.addr_offset <= i32::MAX
                                        - 0xFFFF,
                                    forall|v: McInstance|
                                        out_before.contains(v) ==> out@.contains(v),
                                    forall|w: int|
                                        0 <= w < out@.len() ==> self.instance_list@.contains(
                                            #[trigger] out@[w],
                                        ) || Self::spec_is_field_expansion(
                                            out@[w],
                                            self.instance_list@,
                                            self.typedef_list@,
                                        ),
                                decreases k_max - k,
                            {
                                let field = &td.fields[k];
                                let mut mangled = String::new();
                                mangled.append(inst.name.as_str());
                                mangled.append(".");
                                mangled.append(field.name.as_str());
                                let mut addr = inst.address.clone();
                                addr.add_addr_offset(field.offset as i32);
                                let sub = McInstance::new(
                                    mangled.as_str(),
                                    field.dim_type.clone(),
                                    field.support_data.clone(),
                                    addr,
                                );
                                let ghost before_push = out@;
                                out.push(sub);
                                proof {
                                    assert forall|v: McInstance|
                                        before_push.contains(v) implies out@.contains(v) by {
                                        let w = choose|w: int|
                                            0 <= w < before_push.len() && before_push[w] == v;
                                        assert(out@[w] == v);
                                    }
                                    // the pushed instance is the expansion
                                    // of field k of instance i
                                    assert(out@.last() == sub);
                                    assert((#[trigger] self.typedef_list@[p as int]).fields@.len()
                                        > k);
                                    assert((#[trigger] self.instance_list@[i as int]).dim_type.value_type
                                        is TypeDef);
                                    assert(sub.name@ == self.instance_list@[i as int].name@ + "."@
                                        + self.typedef_list@[p as int].fields@[k as int].name@);
                                    assert(Self::spec_is_field_expansion(
                                        sub,
                                        self.instance_list@,
                                        self.typedef_list@,
                                    ));
                                    assert forall|w: int| 0 <= w < out@.len() implies self.instance_list@.contains(
                                        #[trigger] out@[w],
                                    ) || Self::spec_is_field_expansion(
                                        out@[w],
                                        self.instance_list@,
                                        self.typedef_list@,
                                    ) by {
                                        if w < out@.len() - 1 {
                                            assert(out@[w] == before_push[w]);
                                        }
                                    }
                                }
                                k += 1;
                            }
                            expanded = true;
                            changed = true;
                        }
                    },
                    None => {},
                }
            }
            if !expanded {
                let ghost before_push = out@;
                out.push(self.instance_list.get(i).clone());
                proof {
                    assert(out@.last() == self.instance_list@[i as int]);
                    assert forall|v: McInstance| before_push.contains(v) implies out@.contains(
                        v,
                    ) by {
                        let w = choose|w: int| 0 <= w < before_push.len() && before_push[w] == v;
                        assert(out@[w] == v);
                    }
                    assert(out@.contains(self.instance_list@[i as int]));
                    assert(self.instance_list@.contains(out@.last()));
                    assert forall|w: int| 0 <= w < out@.len() implies self.instance_list@.contains(
                        #[trigger] out@[w],
                    ) || Self::spec_is_field_expansion(
                        out@[w],
                        self.instance_list@,
                        self.typedef_list@,
                    ) by {
                        if w < out@.len() - 1 {
                            assert(out@[w] == before_push[w]);
                        }
                    }
                }
            }
            proof {
                assert forall|j: int|
                    0 <= j < i + 1 && !((#[trigger] self.instance_list@[j]).dim_type.value_type
                        is TypeDef) implies out@.contains(self.instance_list@[j]) by {
                    if j < i {
                        assert(out_before.contains(self.instance_list@[j]));
                    }
                }
            }
            i += 1;
        }
        self.instance_list = out;
        proof {
            assert forall|v: McInstance|
                old(self).instance_list@.contains(v) && !(v.dim_type.value_type
                    is TypeDef) implies self.instance_list@.contains(v) by {
                let w = choose|w: int|
                    0 <= w < old(self).instance_list@.len() && old(self).instance_list@[w] == v;
            }
        }
        changed
    }

    /// Collapse instances of typedefs into flat instances with mangled
    /// names, sweeping until nothing expands or the nesting bound (the
    /// number of typedefs) is reached.
    ///
    /// Instances that were not typedef references are all preserved;
    /// each sweep replaces every typedef instance by one instance per
    /// field, exactly as `flatten_one_sweep` states, so nested typedefs
    /// resolve across successive sweeps.
    pub fn flatten_typedefs(&mut self)
        ensures
            final(self).same_but_instances(old(self)),
            forall|v: McInstance|
                old(self).instance_list@.contains(v) && !(v.dim_type.value_type is TypeDef)
                    ==> final(self).instance_list@.contains(v),
    {
        let mut remaining = self.typedef_list.len();
        loop
            invariant
                self.same_but_instances(old(self)),
                forall|v: McInstance|
                    old(self).instance_list@.contains(v) && !(v.dim_type.value_type is TypeDef)
                        ==> self.instance_list@.contains(v),
            decreases remaining,
        {
            let changed = self.flatten_one_sweep();
            if !changed {
                return ;
            }
            if remaining == 0 {
                return ;
            }
            remaining -= 1;
        }
    }

    /// Renumber the calibration segments through a mapping of old index to
    /// new index; indices without an entry keep their value.
    ///
    /// Instances in segment relative addressing mode would need their
    /// addresses rebound, which this registry does not support; the
    /// contract excludes them.
    /// Renumber the events through a mapping of old id to new id; ids
    /// without an entry keep their value. Instances that carry a raw wire
    /// address with a dynamic address extension have the event id in the
    /// high word of that address remapped the same way.
    ///
    /// Instances in event relative addressing mode would need their
    /// addresses rebound, which this registry does not support; the
    /// contract excludes them.
    pub fn update_event_mapping(&mut self, mapping: &HashMap<u16, u16>)
        requires
            forall|i: int|
                0 <= i < old(self).instance_list@.len() ==> !((
                #[trigger] old(self).instance_list@[i]).address@.addr_mode is Rel) && !(old(
                    self,
                ).instance_list@[i].address@.addr_mode is Dyn),
        ensures
            final(self).flatten_typedefs == old(self).flatten_typedefs,
            final(self).prefix_names == old(self).prefix_names,
            final(self).auto_epk_segment_mode == old(self).auto_epk_segment_mode,
            final(self).application == old(self).application,
            final(self).xcp_tl_params == old(self).xcp_tl_params,
            final(self).cal_seg_list@ == old(self).cal_seg_list@,
            final(self).typedef_list@ == old(self).typedef_list@,
            final(self).frozen == old(self).frozen,
            final(self).event_list@.len() == old(self).event_list@.len(),
            forall|i: int|
                0 <= i < old(self).event_list@.len() ==> {
                    &&& (#[trigger] final(self).event_list@[i]).name == old(
                        self,
                    ).event_list@[i].name
                    &&& final(self).event_list@[i].index == old(self).event_list@[i].index
                    &&& final(self).event_list@[i].target_cycle_time_ns == old(
                        self,
                    ).event_list@[i].target_cycle_time_ns
                    &&& final(self).event_list@[i].function == old(self).event_list@[i].function
                    &&& final(self).event_list@[i].unit == old(self).event_list@[i].unit
                    &&& final(self).event_list@[i].cfa == old(self).event_list@[i].cfa
                    &&& final(self).event_list@[i].id == (if mapping@.contains_key(
                        old(self).event_list@[i].id,
                    ) {
                        mapping@[old(self).event_list@[i].id]
                    } else {
                        old(self).event_list@[i].id
                    })
                },
            final(self).instance_list@.len() == old(self).instance_list@.len(),
            forall|i: int|
                0 <= i < old(self).instance_list@.len() ==> {
                    let inst = #[trigger] old(self).instance_list@[i];
                    let high = inst.address@.a2l_addr / 0x10000;
                    if (inst.address@.addr_mode is A2l || inst.address@.addr_mode is A2lEvent)
                        && inst.address@.a2l_addr_ext >= 2 && mapping@.contains_key(high as u16) {
                        &&& final(self).instance_list@[i].name == inst.name
                        &&& final(self).instance_list@[i].dim_type == inst.dim_type
                        &&& final(self).instance_list@[i].support_data == inst.support_data
                        &&& final(self).instance_list@[i].address@.addr_mode
                            == inst.address@.addr_mode
                        &&& final(self).instance_list@[i].address@.calseg_name
                            == inst.address@.calseg_name
                        &&& final(self).instance_list@[i].address@.event_id
                            == inst.address@.event_id
                        &&& final(self).instance_list@[i].address@.addr_offset
                            == inst.address@.addr_offset
                        &&& final(self).instance_list@[i].address@.a2l_addr_ext
                            == inst.address@.a2l_addr_ext
                        &&& final(self).instance_list@[i].address@.a2l_addr == (mapping@[high
                            as u16] as int) * 0x10000 + inst.address@.a2l_addr % 0x10000
                    } else {
                        final(self).instance_list@[i] == inst
                    }
                },
    {
        broadcast use vstd::std_specs::hash::group_hash_axioms;

        let n = self.event_list.len();
        let mut i: usize = 0;
        while i < n
            invariant
                n == self.event_list@.len(),
                n == old(self).event_list@.len(),
                i <= n,
                self.flatten_typedefs == old(self).flatten_typedefs,
                self.prefix_names == old(self).prefix_names,
                self.auto_epk_segment_mode == old(self).auto_epk_segment_mode,
                self.application == old(self).application,
                self.xcp_tl_params == old(self).xcp_tl_params,
                self.cal_seg_list@ == old(self).cal_seg_list@,
                self.typedef_list@ == old(self).typedef_list@,
                self.instance_list@ == old(self).instance_list@,
                self.frozen == old(self).frozen,
                forall|j: int| i <= j < n ==> #[trigger] self.event_list@[j] == old(self).event_list@[j],
                forall|j: int|
                    0 <= j < i ==> {
                        &&& (#[trigger] self.event_list@[j]).name == old(self).event_list@[j].name
                        &&& self.event_list@[j].index == old(self).event_list@[j].index
                        &&& self.event_list@[j].target_cycle_time_ns == old(
                            self,
                        ).event_list@[j].target_cycle_time_ns
                        &&& self.event_list@[j].function == old(self).event_list@[j].function
                        &&& self.event_list@[j].unit == old(self).event_list@[j].unit
                        &&& self.event_list@[j].cfa == old(self).event_list@[j].cfa
                        &&& self.event_list@[j].id == (if mapping@.contains_key(
                            old(self).event_list@[j].id,
                        ) {
                            mapping@[old(self).event_list@[j].id]
                        } else {
                            old(self).event_list@[j].id
                        })
                    },
            decreases n - i,
        {
            let old_id = self.event_list.get(i).get_id();
            match mapping.get(&old_id) {
                Some(new_id) => {
                    let mut e = self.event_list.get(i).clone();
                    e.set_id(*new_id);
                    self.event_list.set(i, e);
                },
                None => {},
            }
            i += 1;
        }
        let m = self.instance_list.len();
        let mut i: usize = 0;
        while i < m
            invariant
                m == self.instance_list@.len(),
                m == old(self).instance_list@.len(),
                i <= m,
                self.flatten_typedefs == old(self).flatten_typedefs,
                self.prefix_names == old(self).prefix_names,
                self.auto_epk_segment_mode == old(self).auto_epk_segment_mode,
                self.application == old(self).application,
                self.xcp_tl_params == old(self).xcp_tl_params,
                self.cal_seg_list@ == old(self).cal_seg_list@,
                self.typedef_list@ == old(self).typedef_list@,
                self.frozen == old(self).frozen,
                self.event_list@.len() == old(self).event_list@.len(),
                forall|j: int|
                    0 <= j < old(self).event_list@.len() ==> {
                        &&& (#[trigger] self.event_list@[j]).name == old(self).event_list@[j].name
                        &&& self.event_list@[j].index == old(self).event_list@[j].index
                        &&& self.event_list@[j].target_cycle_time_ns == old(
                            self,
                        ).event_list@[j].target_cycle_time_ns
                        &&& self.event_list@[j].function == old(self).event_list@[j].function
                        &&& self.event_list@[j].unit == old(self).event_list@[j].unit
                        &&& self.event_list@[j].cfa == old(self).event_list@[j].cfa
                        &&& self.event_list@[j].id == (if mapping@.contains_key(
                            old(self).event_list@[j].id,
                        ) {
                            mapping@[old(self).event_list@[j].id]
                        } else {
                            old(self).event_list@[j].id
                        })
                    },
                forall|j: int| i <= j < m ==> #[trigger] self.instance_list@[j] == old(self).instance_list@[j],
                forall|j: int|
                    0 <= j < i ==> {
                        let inst = #[trigger] old(self).instance_list@[j];
                        let high = inst.address@.a2l_addr / 0x10000;
                        if (inst.address@.addr_mode is A2l || inst.address@.addr_mode
                            is A2lEvent) && inst.address@.a2l_addr_ext >= 2
                            && mapping@.contains_key(high as u16) {
                            &&& self.instance_list@[j].name == inst.name
                            &&& self.instance_list@[j].dim_type == inst.dim_type
                            &&& self.instance_list@[j].support_data == inst.support_data
                            &&& self.instance_list@[j].address@.addr_mode
                                == inst.address@.addr_mode
                            &&& self.instance_list@[j].address@.calseg_name
                                == inst.address@.calseg_name
                            &&& self.instance_list@[j].address@.event_id
                                == inst.address@.event_id
                            &&& self.instance_list@[j].address@.addr_offset
                                == inst.address@.addr_offset
                            &&& self.instance_list@[j].address@.a2l_addr_ext
                                == inst.address@.a2l_addr_ext
                            &&& self.instance_list@[j].address@.a2l_addr == (mapping@[high
                                as u16] as int) * 0x10000 + inst.address@.a2l_addr % 0x10000
                        } else {
                            self.instance_list@[j] == inst
                        }
                    },
            decreases m - i,
        {
            let is_wire = self.instance_list.get(i).get_address().get_addr_mode().is_a2l();
            if is_wire {
                let (ext, addr) = self.instance_list.get(i).get_address().get_raw_a2l_addr();
                if ext >= 2 {
                    let high: u16 = (addr / 0x10000) as u16;
                    match mapping.get(&high) {
                        Some(new_id) => {
                            let low: u32 = addr % 0x10000;
                            let new_addr: u32 = (*new_id as u32) * 0x10000 + low;
                            let mut inst = self.instance_list.get(i).clone();
                            inst.address.set_raw_a2l_addr(ext, new_addr);
                            self.instance_list.set(i, inst);
                        },
                        None => {},
                    }
                }
            }
            i += 1;
        }
    }

    pub fn update_cal_seg_mapping(&mut self, mapping: &HashMap<u16, u16>)
        requires
            forall|i: int|
                0 <= i < old(self).instance_list@.len() ==> !((
                #[trigger] old(self).instance_list@[i]).address@.addr_mode is Cal),
        ensures
            final(self).same_but_segments(old(self)),
            final(self).cal_seg_list@.len() == old(self).cal_seg_list@.len(),
            forall|i: int|
                0 <= i < old(self).cal_seg_list@.len() ==> {
                    &&& (#[trigger] final(self).cal_seg_list@[i]).name
                        == old(self).cal_seg_list@[i].name
                    &&& final(self).cal_seg_list@[i].size == old(self).cal_seg_list@[i].size
                    &&& final(self).cal_seg_list@[i].addr_ext
                        == old(self).cal_seg_list@[i].addr_ext
                    &&& final(self).cal_seg_list@[i].addr == old(self).cal_seg_list@[i].addr
                    &&& final(self).cal_seg_list@[i].index == (if mapping@.contains_key(
                        old(self).cal_seg_list@[i].index,
                    ) {
                        mapping@[old(self).cal_seg_list@[i].index]
                    } else {
                        old(self).cal_seg_list@[i].index
                    })
                },
    {
        self.cal_seg_list.update_mapping(mapping);
    }
}

} // verus!
