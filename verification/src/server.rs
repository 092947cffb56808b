//! The XCP server state machine, layered on a connected transport.
//!
//! Each received command is executed atomically; the response is either
//! `0xFF` followed by a payload or `0xFE` followed by an error code.
//! Unknown commands fail `CmdUnknown` without a state change, and while
//! the session is disconnected every command but CONNECT does the same.
//! The byte-level transport stays outside: the server consumes one command
//! payload and returns one response payload.

use vstd::prelude::*;

use crate::cal_seg::splice_bytes;
use crate::cal_seg::CalSeg;
use crate::dto_ring::DtoRing;
use crate::error::RegistryError;
use crate::ident::str_eq;
use crate::mc_address::McAddress;
use crate::mc_event::event_matches;
use crate::mc_event::McEvent;
use crate::mc_instance::McInstance;
use crate::mc_instance::McObjectType;
use crate::mc_instance::McSupportData;
use crate::mc_type::McDimType;
use crate::mc_registry::Registry;
use crate::protocol::CC_ALLOC_DAQ;
use crate::protocol::CC_ALLOC_ODT;
use crate::protocol::CC_ALLOC_ODT_ENTRY;
use crate::protocol::CC_CONNECT;
use crate::protocol::CC_DISCONNECT;
use crate::protocol::CC_FREE_DAQ;
use crate::protocol::CC_GET_CAL_PAGE;
use crate::protocol::CC_GET_DAQ_PROCESSOR_INFO;
use crate::protocol::CC_GET_DAQ_RESOLUTION_INFO;
use crate::protocol::CC_GET_DAQ_CLOCK;
use crate::protocol::CC_GET_COMM_MODE_INFO;
use crate::protocol::CC_GET_DAQ_EVENT_INFO;
use crate::protocol::CC_GET_ID;
use crate::protocol::CC_GET_PAGE_PROCESSOR_INFO;
use crate::protocol::CC_GET_SEGMENT_INFO;
use crate::protocol::CC_GET_VERSION;
use crate::protocol::CC_NOP;
use crate::protocol::CC_SET_CAL_PAGE;
use crate::protocol::CC_SET_DAQ_LIST_MODE;
use crate::protocol::CC_SET_DAQ_PTR;
use crate::protocol::CC_SET_MTA;
use crate::protocol::CC_SHORT_DOWNLOAD;
use crate::protocol::CC_SHORT_UPLOAD;
use crate::protocol::CC_START_STOP_DAQ_LIST;
use crate::protocol::CC_START_STOP_SYNCH;
use crate::protocol::CC_SYNC;
use crate::protocol::CC_TIME_CORRELATION_PROPERTIES;
use crate::protocol::CC_UPLOAD;
use crate::protocol::CC_USER;
use crate::protocol::CC_DOWNLOAD;
use crate::protocol::CAL_PAGE_MODE_ALL;
use crate::protocol::CAL_PAGE_MODE_ECU;
use crate::protocol::CAL_PAGE_MODE_XCP;
use crate::protocol::CRC_ACCESS_DENIED;
use crate::protocol::CRC_CMD_SYNCH;
use crate::protocol::CRC_CMD_SYNTAX;
use crate::protocol::CRC_CMD_UNKNOWN;
use crate::protocol::CRC_DAQ_CONFIG;
use crate::protocol::CRC_MODE_NOT_VALID;
use crate::protocol::CRC_OUT_OF_RANGE;
use crate::protocol::CRC_PAGE_NOT_VALID;
use crate::protocol::CRC_SEGMENT_NOT_VALID;
use crate::protocol::CC_WRITE_DAQ;
use crate::protocol::XcpCommand;
use crate::protocol::XCP_IDT_ASAM_EPK;
use crate::protocol::XCP_IDT_ASAM_NAME;
use crate::protocol::XCP_IDT_ASAM_UPLOAD;
use crate::protocol::XCP_IDT_ASCII;

verus! {

/// Byte size of the reserved version (EPK) segment at index 0.
pub const EPK_SEG_SIZE: u32 = 31;

/// Event code of the session-terminated event packet (`0xFD 0x07`).
pub const EV_SESSION_TERMINATED: u8 = 0x07;

/// The little-endian 16-bit value at position `i` of a command.
pub open spec fn spec_le16(b: Seq<u8>, i: int) -> int {
    b[i] + b[i + 1] * 0x100
}

/// The little-endian 32-bit value at position `i` of a command.
pub open spec fn spec_le32(b: Seq<u8>, i: int) -> int {
    b[i] + b[i + 1] * 0x100 + b[i + 2] * 0x10000 + b[i + 3] * 0x100_0000
}

/// One configured ODT entry: a memory range read on each trigger.
#[derive(Debug, Copy, Clone, PartialEq, Eq, Structural)]
pub struct OdtEntryCfg {
    /// Wire address extension of the range.
    pub ext: u8,
    /// Wire address of the range.
    pub addr: u32,
    /// Byte size of the range.
    pub size: u8,
}

/// One DAQ list: bound to one event, holding one ODT of entries.
#[derive(Debug)]
pub struct DaqList {
    /// Event the list samples on, once bound.
    pub event_id: u16,
    /// True once SET_DAQ_LIST_MODE bound the list to its event.
    pub event_bound: bool,
    /// The ODT entries of the list's single ODT.
    pub entries: Vec<OdtEntryCfg>,
    /// Sum of the entry sizes.
    pub payload_size: u16,
    /// True while the list is selected for the next synchronized start.
    pub selected: bool,
    /// True while the list is measuring.
    pub running: bool,
}

impl Clone for DaqList {
    fn clone(&self) -> (r: Self)
        ensures
            r.event_id == self.event_id,
            r.event_bound == self.event_bound,
            r.entries@ == self.entries@,
            r.payload_size == self.payload_size,
            r.selected == self.selected,
            r.running == self.running,
    {
        DaqList {
            event_id: self.event_id,
            event_bound: self.event_bound,
            entries: self.entries.clone(),
            payload_size: self.payload_size,
            selected: self.selected,
            running: self.running,
        }
    }
}

impl DaqList {
    /// A fresh, unbound, empty DAQ list.
    pub fn new() -> (r: DaqList)
        ensures
            r.event_id == 0,
            !r.event_bound,
            r.entries@.len() == 0,
            r.payload_size == 0,
            !r.selected,
            !r.running,
    {
        DaqList {
            event_id: 0,
            event_bound: false,
            entries: Vec::new(),
            payload_size: 0,
            selected: false,
            running: false,
        }
    }
}

/// The XCP server: session state, calibration segments, DAQ
/// configuration, the DTO ring and the DAQ clock.
#[derive(Debug)]
pub struct XcpServer {
    /// True between CONNECT and DISCONNECT.
    pub connected: bool,
    /// The calibration segments, indexed by their wire segment index.
    pub segments: Vec<CalSeg>,
    /// The registry describing events, segments and instances.
    pub registry: Registry,
    /// Memory transfer address cursor: extension.
    pub mta_ext: u8,
    /// Memory transfer address cursor: address.
    pub mta_addr: u32,
    /// True while UPLOAD serves the description body set up by GET_ID.
    pub upload_from_id: bool,
    /// Read position in the staged upload buffer.
    pub upload_pos: usize,
    /// Bytes staged for UPLOAD by GET_ID or an info command.
    pub upload_buf: Vec<u8>,
    /// The description body served by GET_ID and UPLOAD.
    pub id_payload: Vec<u8>,
    /// The DAQ lists.
    pub daq_lists: Vec<DaqList>,
    /// DAQ list addressed by the last SET_DAQ_PTR.
    pub daq_ptr_daq: u16,
    /// True while a SET_DAQ_PTR position is valid.
    pub daq_ptr_valid: bool,
    /// The DTO ring towards the transport.
    pub ring: DtoRing,
    /// The DAQ clock in raw ticks.
    pub clock: u64,
    /// Maximum command/response payload size.
    pub max_cto: u8,
    /// Maximum DAQ frame size.
    pub max_dto: u16,
}

impl XcpServer {
    /// Server invariant: segments are well formed and carry the index
    /// they sit at, and the ring is well formed.
    pub open spec fn wf(&self) -> bool {
        &&& forall|i: int| 0 <= i < self.segments@.len() ==> (#[trigger] self.segments@[i]).wf()
        &&& forall|i: int|
            0 <= i < self.segments@.len() ==> (#[trigger] self.segments@[i]).spec_index() == i
        &&& self.ring.wf()
        &&& self.max_cto >= 8
        &&& self.max_dto >= 8
        &&& self.ring.next_ctr + 0x10000 < u64::MAX
        &&& self.clock + 0x1_0000_0000 < u64::MAX
    }

    /// A disconnected server with no segments, events or DAQ lists, a
    /// ring of the given depth and the given transfer sizes.
    pub fn new(ring_depth: usize, max_cto: u8, max_dto: u16) -> (r: XcpServer)
        requires
            max_cto >= 8,
            max_dto >= 8,
        ensures
            r.wf(),
            !r.connected,
            r.segments@.len() == 0,
            r.registry.event_list@.len() == 0,
            r.daq_lists@.len() == 0,
            r.ring.depth == ring_depth,
            r.ring.lost == 0,
            r.clock == 0,
            r.max_cto == max_cto,
            r.max_dto == max_dto,
            r.id_payload@.len() == 0,
    {
        XcpServer {
            connected: false,
            segments: Vec::new(),
            registry: Registry::new(),
            mta_ext: 0,
            mta_addr: 0,
            upload_from_id: false,
            upload_pos: 0,
            upload_buf: Vec::new(),
            id_payload: Vec::new(),
            daq_lists: Vec::new(),
            daq_ptr_daq: 0,
            daq_ptr_valid: false,
            ring: DtoRing::new(ring_depth),
            clock: 0,
            max_cto,
            max_dto,
        }
    }

    /// True when the next segment creation must first materialize the
    /// version (EPK) segment at index 0: the registry's auto-EPK mode is
    /// on and no engine segment exists yet.
    pub open spec fn spec_reserves_epk(self) -> bool {
        self.registry.auto_epk_segment_mode && self.segments@.len() == 0
    }

    /// The wire index the next created segment receives: index 0 is
    /// reserved for the version segment while auto-EPK mode is on.
    pub open spec fn spec_next_seg_index(self) -> int {
        if self.spec_reserves_epk() {
            1
        } else {
            self.segments@.len() as int
        }
    }

    /// A name collides in the registry's segment list.
    pub open spec fn spec_seg_name_taken(self, name: Seq<char>) -> bool {
        exists|i: int|
            0 <= i < self.registry.cal_seg_list@.len() && (
            #[trigger] self.registry.cal_seg_list@[i]).name@ == name
    }

    /// An index collides in the registry's segment list.
    pub open spec fn spec_seg_index_taken(self, index: u16) -> bool {
        exists|i: int|
            0 <= i < self.registry.cal_seg_list@.len() && (
            #[trigger] self.registry.cal_seg_list@[i]).index == index
    }

    /// Creating this segment collides: its name or target index is taken,
    /// or the reservation of the version segment would collide.
    pub open spec fn spec_create_seg_collides(self, name: Seq<char>) -> bool {
        ||| self.spec_seg_name_taken(name)
        ||| self.spec_seg_index_taken(self.spec_next_seg_index() as u16)
        ||| (self.spec_reserves_epk() && (name == "epk"@ || self.spec_seg_name_taken("epk"@)
            || self.spec_seg_index_taken(0)))
    }

    /// Create a calibration segment with the given default page and
    /// publish it in the registry. Returns the segment's wire index.
    ///
    /// While the registry's auto-EPK mode is on, index 0 is reserved for
    /// the version segment: the first creation materializes an `"epk"`
    /// segment of `EPK_SEG_SIZE` zero bytes at index 0 and the created
    /// segment receives index 1. Fails `ClosedRegistry` after freeze and
    /// `Duplicate` when the name or target index is taken (the name
    /// `"epk"` counts as taken while the reservation is pending).
    pub fn create_cal_seg(&mut self, name: &str, default_page: Vec<u8>) -> (r: Result<
        u16,
        RegistryError,
    >)
        requires
            old(self).wf(),
            old(self).segments@.len() < 0x7FFE,
            default_page@.len() <= 0xFFFF,
        ensures
            final(self).wf(),
            old(self).registry.frozen ==> r == Result::<u16, RegistryError>::Err(
                RegistryError::ClosedRegistry,
            ) && *final(self) == *old(self),
            !old(self).registry.frozen && old(self).spec_create_seg_collides(name@) ==> r is Err
                && r->Err_0 is Duplicate && final(self).segments@ == old(self).segments@ && final(self).registry.cal_seg_list@ == old(self).registry.cal_seg_list@,
            !old(self).registry.frozen && !old(self).spec_create_seg_collides(name@) ==> {
                &&& r == Result::<u16, RegistryError>::Ok(
                    (old(self).spec_next_seg_index() as u16),
                )
                &&& final(self).segments@.len() == old(self).spec_next_seg_index() + 1
                &&& final(self).segments@.last().spec_name() == name@
                &&& final(self).segments@.last().spec_index() == old(self).spec_next_seg_index()
                &&& final(self).segments@.last().default_bytes() == default_page@
                &&& final(self).segments@.last().working_bytes() == default_page@
                &&& !final(self).segments@.last().in_transaction()
                &&& (old(self).spec_reserves_epk() ==> {
                    &&& final(self).segments@[0].spec_name() == "epk"@
                    &&& final(self).segments@[0].spec_index() == 0
                    &&& final(self).segments@[0].default_bytes().len() == EPK_SEG_SIZE
                    &&& final(self).segments@[0].working_bytes().len() == EPK_SEG_SIZE
                    &&& !final(self).segments@[0].in_transaction()
                })
                &&& (!old(self).spec_reserves_epk() ==> forall|j: int|
                    0 <= j < old(self).segments@.len() ==> #[trigger] final(self).segments@[j]
                        == old(self).segments@[j])
                &&& final(self).registry.cal_seg_list@.last().name@ == name@
                &&& final(self).registry.cal_seg_list@.last().index == old(self).spec_next_seg_index()
                &&& final(self).registry.cal_seg_list@.last().size == default_page@.len()
            },
            final(self).registry.same_but_segments(&old(self).registry),
            final(self).connected == old(self).connected,
            final(self).daq_lists@ == old(self).daq_lists@,
            final(self).ring == old(self).ring,
            final(self).clock == old(self).clock,
            final(self).max_cto == old(self).max_cto,
            final(self).max_dto == old(self).max_dto,
            final(self).mta_ext == old(self).mta_ext,
            final(self).mta_addr == old(self).mta_addr,
            final(self).upload_from_id == old(self).upload_from_id,
            final(self).upload_pos == old(self).upload_pos,
            final(self).upload_buf == old(self).upload_buf,
            final(self).id_payload == old(self).id_payload,
            final(self).daq_ptr_daq == old(self).daq_ptr_daq,
            final(self).daq_ptr_valid == old(self).daq_ptr_valid,
    {
        if self.registry.is_frozen() {
            return Err(RegistryError::ClosedRegistry);
        }
        let reserve = self.registry.get_auto_epk_segment_mode() && self.segments.len() == 0;
        let target: u16 = if reserve {
            1
        } else {
            self.segments.len() as u16
        };
        // refuse every collision up front, so both adds below succeed
        if self.registry.cal_seg_list.find_cal_seg(name).is_some() {
            return Err(RegistryError::Duplicate(name.to_owned()));
        }
        if self.registry.cal_seg_list.index_taken(target) {
            return Err(RegistryError::Duplicate(name.to_owned()));
        }
        if reserve {
            if str_eq(name, "epk") {
                return Err(RegistryError::Duplicate(name.to_owned()));
            }
            if self.registry.cal_seg_list.find_cal_seg("epk").is_some() {
                return Err(RegistryError::Duplicate(name.to_owned()));
            }
            if self.registry.cal_seg_list.index_taken(0) {
                return Err(RegistryError::Duplicate(name.to_owned()));
            }
        }
        if reserve {
            match self.registry.add_cal_seg("epk", 0, EPK_SEG_SIZE) {
                Ok(_) => {},
                Err(e) => {
                    proof {
                        assert(false);
                    }
                    return Err(e);
                },
            }
            let mut zeros: Vec<u8> = Vec::new();
            let mut k: u32 = 0;
            while k < EPK_SEG_SIZE
                invariant
                    k <= EPK_SEG_SIZE,
                    zeros@.len() == k,
                decreases EPK_SEG_SIZE - k,
            {
                zeros.push(0);
                k += 1;
            }
            let epk_seg = CalSeg::new("epk", 0, zeros);
            self.segments.push(epk_seg);
        }
        let size = default_page.len() as u32;
        match self.registry.add_cal_seg(name, target, size) {
            Ok(_) => {},
            Err(e) => {
                proof {
                    assert(false);
                }
                return Err(e);
            },
        }
        let seg = CalSeg::new(name, target, default_page);
        self.segments.push(seg);
        Ok(target)
    }

    /// Create an event with the given name and cycle time; its id is the
    /// next free event number. Returns the event id.
    ///
    /// Fails `ClosedRegistry` after freeze and `Duplicate` when an event
    /// of that name (instance 0) or of the next id already exists.
    pub fn create_event(&mut self, name: &str, cycle_time_ns: u32) -> (r: Result<
        u16,
        RegistryError,
    >)
        requires
            old(self).wf(),
            old(self).registry.event_list@.len() < 0xFFFF,
        ensures
            final(self).wf(),
            old(self).registry.frozen ==> r == Result::<u16, RegistryError>::Err(
                RegistryError::ClosedRegistry,
            ) && *final(self) == *old(self),
            !old(self).registry.frozen ==> {
                &&& (r is Ok <==> forall|i: int|
                    0 <= i < old(self).registry.event_list@.len() ==> !event_matches(
                        #[trigger] old(self).registry.event_list@[i],
                        name@,
                        0,
                    ) && old(self).registry.event_list@[i].id != old(self).registry.event_list@.len())
                &&& (r is Ok ==> r->Ok_0 == old(self).registry.event_list@.len() && final(self).registry.event_list@.len() == old(self).registry.event_list@.len() + 1 && final(self).registry.event_list@.last().name@ == name@ && final(self).registry.event_list@.last().id == old(self).registry.event_list@.len() && final(self).registry.event_list@.last().target_cycle_time_ns == cycle_time_ns)
                &&& (r is Err ==> r->Err_0 is Duplicate && final(self).registry.event_list@ == old(self).registry.event_list@)
            },
            final(self).registry.same_but_events(&old(self).registry),
            final(self).segments@ == old(self).segments@,
            final(self).connected == old(self).connected,
            final(self).daq_lists@ == old(self).daq_lists@,
            final(self).ring == old(self).ring,
            final(self).clock == old(self).clock,
            old(self).registry.event_list.unique_ids() ==> final(self).registry.event_list.unique_ids(),
    {
        if self.registry.is_frozen() {
            return Err(RegistryError::ClosedRegistry);
        }
        let id = self.registry.event_list.len() as u16;
        let event = McEvent::new(name, 0, id, cycle_time_ns);
        match self.registry.add_event(event) {
            Ok(_) => Ok(id),
            Err(e) => Err(e),
        }
    }

    /// Create an event and a measurement instance directly bound to it
    /// at capture offset 0. Returns the new event id.
    ///
    /// Fails `ClosedRegistry` after freeze; `Duplicate` when the event
    /// name or id collides (nothing added), or when the instance name
    /// collides (the event stays added, mirroring the two registration
    /// steps).
    pub fn create_measurement_object(
        &mut self,
        name: &str,
        dim_type: McDimType,
        comment: &str,
    ) -> (r: Result<u16, RegistryError>)
        requires
            old(self).wf(),
            old(self).registry.event_list@.len() < 0xFFFF,
        ensures
            final(self).wf(),
            old(self).registry.frozen ==> r == Result::<u16, RegistryError>::Err(
                RegistryError::ClosedRegistry,
            ) && *final(self) == *old(self),
            !old(self).registry.frozen ==> {
                &&& (r is Ok <==> (forall|i: int|
                    0 <= i < old(self).registry.event_list@.len() ==> !event_matches(
                        #[trigger] old(self).registry.event_list@[i],
                        name@,
                        0,
                    ) && old(self).registry.event_list@[i].id != old(self).registry.event_list@.len()) && (forall|i: int|
                    0 <= i < old(self).registry.instance_list@.len() ==> (
                    #[trigger] old(self).registry.instance_list@[i]).name@ != name@))
                &&& (r is Ok ==> {
                    &&& r->Ok_0 == old(self).registry.event_list@.len()
                    &&& final(self).registry.event_list@.len() == old(self).registry.event_list@.len() + 1
                    &&& final(self).registry.instance_list@.len() == old(self).registry.instance_list@.len() + 1
                    &&& final(self).registry.instance_list@.last().name@ == name@
                    &&& final(self).registry.instance_list@.last().dim_type == dim_type
                    &&& final(self).registry.instance_list@.last().address@.event_id
                        == Option::Some(r->Ok_0)
                    &&& final(self).registry.instance_list@.last().address@.addr_mode
                        == crate::mc_address::McAddrMode::Dyn
                    &&& final(self).registry.instance_list@.last().address@.addr_offset == 0
                })
                &&& (r is Err ==> r->Err_0 is Duplicate)
                // an event collision adds nothing; an instance collision
                // leaves the event added
                &&& (r is Err ==> (final(self).registry.event_list@ == old(self).registry.event_list@ && final(self).registry.instance_list@ == old(self).registry.instance_list@) || (final(self).registry.event_list@.len() == old(self).registry.event_list@.len() + 1 && final(self).registry.instance_list@ == old(self).registry.instance_list@ && exists|i: int|
                    0 <= i < old(self).registry.instance_list@.len() && (#[trigger] old(self).registry.instance_list@[i]).name@ == name@))
            },
            final(self).segments@ == old(self).segments@,
            final(self).connected == old(self).connected,
            final(self).daq_lists@ == old(self).daq_lists@,
            final(self).ring == old(self).ring,
            final(self).clock == old(self).clock,
            old(self).registry.event_list.unique_ids() ==> final(self).registry.event_list.unique_ids(),
    {
        let id = match self.create_event(name, 0) {
            Ok(id) => id,
            Err(e) => {
                return Err(e);
            },
        };
        let mut support = McSupportData::new(McObjectType::Measurement);
        support.set_comment(comment);
        let address = McAddress::new_event_dyn(0, id, 0);
        let instance = McInstance::new(name, dim_type, support, address);
        match self.registry.add_instance(instance) {
            Ok(_) => Ok(id),
            Err(e) => Err(e),
        }
    }

    /// Install the description body served by GET_ID and UPLOAD.
    pub fn set_id_payload(&mut self, body: Vec<u8>)
        requires
            old(self).wf(),
        ensures
            final(self).wf(),
            final(self).id_payload@ == body@,
            final(self).segments@ == old(self).segments@,
            final(self).connected == old(self).connected,
            final(self).daq_lists@ == old(self).daq_lists@,
            final(self).ring == old(self).ring,
    {
        self.id_payload = body;
    }

    /// Advance the DAQ clock by some raw ticks.
    pub fn advance_clock(&mut self, ticks: u32)
        requires
            old(self).wf(),
            old(self).clock + ticks + 0x1_0000_0000 < u64::MAX,
        ensures
            final(self).wf(),
            final(self).clock == old(self).clock + ticks,
            final(self).segments@ == old(self).segments@,
            final(self).connected == old(self).connected,
            final(self).daq_lists@ == old(self).daq_lists@,
            final(self).ring == old(self).ring,
    {
        self.clock = self.clock + (ticks as u64);
    }

    /// Position of the segment with the given wire index.
    fn seg_position(&self, index: u16) -> (r: Option<usize>)
        ensures
            match r {
                Option::Some(i) => i < self.segments@.len() && (
                #[trigger] self.segments@[i as int]).spec_index() == index && (forall|j: int|
                    0 <= j < i ==> (#[trigger] self.segments@[j]).spec_index() != index),
                Option::None => forall|j: int|
                    0 <= j < self.segments@.len() ==> (#[trigger] self.segments@[j]).spec_index()
                        != index,
            },
    {
        let n = self.segments.len();
        let mut i: usize = 0;
        while i < n
            invariant
                n == self.segments@.len(),
                i <= n,
                forall|j: int| 0 <= j < i ==> (#[trigger] self.segments@[j]).spec_index() != index,
            decreases n - i,
        {
            if self.segments[i].get_index() == index {
                return Some(i);
            }
            i += 1;
        }
        None
    }

    /// True when the wire address is segment relative: extension 0 with
    /// the high address bit set.
    pub open spec fn is_seg_rel(ext: u8, addr: u32) -> bool {
        ext == 0 && addr >= 0x8000_0000
    }

    /// Segment index of a segment relative wire address.
    pub open spec fn seg_index_of_addr(addr: u32) -> int {
        ((addr as int) / 0x10000) % 0x8000
    }

    /// Offset of a segment relative wire address.
    pub open spec fn seg_offset_of_addr(addr: u32) -> int {
        (addr as int) % 0x10000
    }

    /// A tool write of `len` bytes at the wire address lands in a known
    /// segment: the address is segment relative, the index names a
    /// segment and the range fits its pages.
    pub open spec fn spec_write_applicable(self, ext: u8, addr: u32, len: int) -> bool {
        &&& Self::is_seg_rel(ext, addr)
        &&& Self::seg_index_of_addr(addr) < self.segments@.len()
        &&& Self::seg_offset_of_addr(addr) + len <= self.segments@[Self::seg_index_of_addr(
            addr,
        )].working_bytes().len()
    }

    /// Post-state relation of an applied tool write: only the addressed
    /// segment changes, and only by splicing the data into its working
    /// page (or into its shadow while a modify transaction is open).
    pub open spec fn spec_write_applied(pre: XcpServer, post: XcpServer, addr: u32, data: Seq<u8>) -> bool {
        let idx = Self::seg_index_of_addr(addr);
        let off = Self::seg_offset_of_addr(addr);
        &&& post.segments@.len() == pre.segments@.len()
        &&& (forall|j: int|
            0 <= j < pre.segments@.len() && j != idx ==> #[trigger] post.segments@[j]
                == pre.segments@[j])
        &&& post.segments@[idx].spec_name() == pre.segments@[idx].spec_name()
        &&& post.segments@[idx].spec_index() == pre.segments@[idx].spec_index()
        &&& post.segments@[idx].default_bytes() == pre.segments@[idx].default_bytes()
        &&& post.segments@[idx].spec_ecu_page() == pre.segments@[idx].spec_ecu_page()
        &&& post.segments@[idx].spec_xcp_page() == pre.segments@[idx].spec_xcp_page()
        &&& post.segments@[idx].in_transaction() == pre.segments@[idx].in_transaction()
        &&& (!pre.segments@[idx].in_transaction() ==> post.segments@[idx].working_bytes()
            == splice_bytes(pre.segments@[idx].working_bytes(), off, data)
            && post.segments@[idx].shadow_bytes() == pre.segments@[idx].shadow_bytes())
        &&& (pre.segments@[idx].in_transaction() ==> post.segments@[idx].working_bytes()
            == pre.segments@[idx].working_bytes() && post.segments@[idx].shadow_bytes()
            == Option::Some(
            splice_bytes(pre.segments@[idx].shadow_bytes()->0, off, data),
        ))
    }

    /// A tool read of `size` bytes at the wire address is served: the
    /// address is segment relative, the index names a segment and the
    /// range fits the page the tool has selected.
    pub open spec fn spec_read_ok(self, ext: u8, addr: u32, size: int) -> bool {
        &&& Self::is_seg_rel(ext, addr)
        &&& Self::seg_index_of_addr(addr) < self.segments@.len()
        &&& Self::seg_offset_of_addr(addr) + size <= self.segments@[Self::seg_index_of_addr(
            addr,
        )].page_bytes(self.segments@[Self::seg_index_of_addr(addr)].spec_xcp_page()).len()
    }

    /// The bytes a served tool read returns: the addressed range of the
    /// page the tool has selected for the segment.
    pub open spec fn spec_read_bytes(self, addr: u32, size: int) -> Seq<u8> {
        let seg = self.segments@[Self::seg_index_of_addr(addr)];
        seg.page_bytes(seg.spec_xcp_page()).subrange(
            Self::seg_offset_of_addr(addr),
            Self::seg_offset_of_addr(addr) + size,
        )
    }

    /// Write a byte range through the calibration engine.
    ///
    /// The address must name a known segment and the range must fit it;
    /// writes during an open modify transaction stay invisible until the
    /// transaction ends. Errors: `CRC_ACCESS_DENIED` for an address
    /// outside any known segment or a range outside the segment.
    pub fn cmd_short_download(&mut self, ext: u8, addr: u32, data: &[u8]) -> (code: u8)
        requires
            old(self).wf(),
        ensures
            final(self).wf(),
            final(self).connected == old(self).connected,
            final(self).daq_lists@ == old(self).daq_lists@,
            final(self).ring == old(self).ring,
            final(self).registry == old(self).registry,
            final(self).clock == old(self).clock,
            final(self).mta_ext == old(self).mta_ext,
            final(self).mta_addr == old(self).mta_addr,
            final(self).upload_from_id == old(self).upload_from_id,
            final(self).upload_pos == old(self).upload_pos,
            final(self).upload_buf == old(self).upload_buf,
            final(self).id_payload == old(self).id_payload,
            final(self).daq_ptr_daq == old(self).daq_ptr_daq,
            final(self).daq_ptr_valid == old(self).daq_ptr_valid,
            final(self).max_cto == old(self).max_cto,
            final(self).max_dto == old(self).max_dto,
            code == 0xFF || code == CRC_ACCESS_DENIED,
            code == 0xFF <==> old(self).spec_write_applicable(ext, addr, data@.len() as int),
            code == 0xFF ==> Self::spec_write_applied(*old(self), *final(self), addr, data@),
            code == CRC_ACCESS_DENIED ==> final(self).segments@ == old(self).segments@,
    {
        if !(ext == 0 && addr >= 0x8000_0000) {
            return CRC_ACCESS_DENIED;
        }
        let idx: u16 = ((addr / 0x10000) % 0x8000) as u16;
        let off: usize = (addr % 0x10000) as usize;
        match self.seg_position(idx) {
            Some(i) => {
                proof {
                    // the invariant pins segment indices to positions
                    assert(old(self).segments@[i as int].spec_index() == i);
                }
                let mut seg = self.segments.remove(i);
                let res = seg.download(off, data);
                let ghost gseg = seg;
                self.segments.insert(i, seg);
                proof {
                    assert(self.segments@ =~= old(self).segments@.update(i as int, gseg));
                }
                match res {
                    Ok(_) => 0xFF,
                    Err(_) => {
                        proof {
                            assert(self.segments@ =~= old(self).segments@);
                        }
                        CRC_ACCESS_DENIED
                    },
                }
            },
            None => {
                proof {
                    // no position carries the index, so it is out of range
                    let idxs = Self::seg_index_of_addr(addr);
                    if idxs < self.segments@.len() {
                        assert(self.segments@[idxs].spec_index() == idxs);
                    }
                }
                CRC_ACCESS_DENIED
            },
        }
    }

    /// Read a byte range through the calibration engine, from the page
    /// the tool has selected for the segment.
    pub fn cmd_short_upload(&mut self, ext: u8, addr: u32, size: u8) -> (r: Result<Vec<u8>, u8>)
        requires
            old(self).wf(),
        ensures
            final(self).wf(),
            *final(self) == *old(self),
            r is Ok <==> old(self).spec_read_ok(ext, addr, size as int),
            r is Ok ==> r->Ok_0@ == old(self).spec_read_bytes(addr, size as int),
            r is Err ==> r->Err_0 == CRC_ACCESS_DENIED,
    {
        if !(ext == 0 && addr >= 0x8000_0000) {
            return Err(CRC_ACCESS_DENIED);
        }
        let idx: u16 = ((addr / 0x10000) % 0x8000) as u16;
        let off: usize = (addr % 0x10000) as usize;
        match self.seg_position(idx) {
            Some(i) => {
                proof {
                    assert(self.segments@[i as int].spec_index() == i);
                }
                let seg = &self.segments[i];
                let page = seg.get_xcp_page();
                match seg.read_range(off, size as usize, page) {
                    Ok(bytes) => Ok(bytes),
                    Err(_) => Err(CRC_ACCESS_DENIED),
                }
            },
            None => {
                proof {
                    let idxs = Self::seg_index_of_addr(addr);
                    if idxs < self.segments@.len() {
                        assert(self.segments@[idxs].spec_index() == idxs);
                    }
                }
                Err(CRC_ACCESS_DENIED)
            },
        }
    }

    /// Select the visible page of one segment or of all segments, for the
    /// application view, the tool view or both.
    ///
    /// Errors: `CRC_PAGE_NOT_VALID` for a page other than 0 or 1,
    /// `CRC_SEGMENT_NOT_VALID` for an unknown segment,
    /// `CRC_MODE_NOT_VALID` when neither view is named.
    pub fn cmd_set_cal_page(&mut self, mode: u8, segment: u16, page: u8) -> (code: u8)
        requires
            old(self).wf(),
        ensures
            final(self).wf(),
            final(self).connected == old(self).connected,
            final(self).daq_lists@ == old(self).daq_lists@,
            final(self).ring == old(self).ring,
            final(self).registry == old(self).registry,
            final(self).clock == old(self).clock,
            final(self).mta_ext == old(self).mta_ext,
            final(self).mta_addr == old(self).mta_addr,
            final(self).upload_from_id == old(self).upload_from_id,
            final(self).upload_pos == old(self).upload_pos,
            final(self).upload_buf == old(self).upload_buf,
            final(self).id_payload == old(self).id_payload,
            final(self).daq_ptr_daq == old(self).daq_ptr_daq,
            final(self).daq_ptr_valid == old(self).daq_ptr_valid,
            final(self).max_cto == old(self).max_cto,
            final(self).max_dto == old(self).max_dto,
            final(self).segments@.len() == old(self).segments@.len(),
            page > 1 ==> code == CRC_PAGE_NOT_VALID && final(self).segments@ == old(self).segments@,
            page <= 1 && (mode & (CAL_PAGE_MODE_ECU | CAL_PAGE_MODE_XCP)) == 0 ==> code
                == CRC_MODE_NOT_VALID && final(self).segments@ == old(self).segments@,
            code == 0xFF ==> forall|i: int|
                0 <= i < old(self).segments@.len() ==> {
                    let touched = (mode & CAL_PAGE_MODE_ALL) != 0 || old(self).segments@[i].spec_index() == segment;
                    &&& (#[trigger] final(self).segments@[i]).working_bytes() == old(self).segments@[i].working_bytes()
                    &&& final(self).segments@[i].default_bytes() == old(self).segments@[i].default_bytes()
                    &&& final(self).segments@[i].shadow_bytes() == old(self).segments@[i].shadow_bytes()
                    &&& final(self).segments@[i].spec_index() == old(self).segments@[i].spec_index()
                    &&& final(self).segments@[i].spec_name() == old(self).segments@[i].spec_name()
                    &&& final(self).segments@[i].spec_ecu_page() == (if touched && (mode
                        & CAL_PAGE_MODE_ECU) != 0 {
                        page
                    } else {
                        old(self).segments@[i].spec_ecu_page()
                    })
                    &&& final(self).segments@[i].spec_xcp_page() == (if touched && (mode
                        & CAL_PAGE_MODE_XCP) != 0 {
                        page
                    } else {
                        old(self).segments@[i].spec_xcp_page()
                    })
                },
            page <= 1 && (mode & (CAL_PAGE_MODE_ECU | CAL_PAGE_MODE_XCP)) != 0 && (mode
                & CAL_PAGE_MODE_ALL) == 0 && (forall|i: int|
                0 <= i < old(self).segments@.len() ==> (
                #[trigger] old(self).segments@[i]).spec_index() != segment) ==> code
                == CRC_SEGMENT_NOT_VALID && final(self).segments@ == old(self).segments@,
            page <= 1 && (mode & (CAL_PAGE_MODE_ECU | CAL_PAGE_MODE_XCP)) != 0 && ((mode
                & CAL_PAGE_MODE_ALL) != 0 || exists|i: int|
                0 <= i < old(self).segments@.len() && (
                #[trigger] old(self).segments@[i]).spec_index() == segment) ==> code == 0xFF,
    {
        if page > 1 {
            return CRC_PAGE_NOT_VALID;
        }
        if (mode & (CAL_PAGE_MODE_ECU | CAL_PAGE_MODE_XCP)) == 0 {
            return CRC_MODE_NOT_VALID;
        }
        let all = (mode & CAL_PAGE_MODE_ALL) != 0;
        if !all && self.seg_position(segment).is_none() {
            return CRC_SEGMENT_NOT_VALID;
        }
        let n = self.segments.len();
        let mut i: usize = 0;
        while i < n
            invariant
                n == self.segments@.len(),
                n == old(self).segments@.len(),
                i <= n,
                page <= 1,
                forall|j: int|
                    0 <= j < n ==> (#[trigger] self.segments@[j]).wf() && self.segments@[j].spec_index()
                        == old(self).segments@[j].spec_index(),
                forall|j: int| i <= j < n ==> #[trigger] self.segments@[j] == old(self).segments@[j],
                forall|j: int|
                    0 <= j < i ==> {
                        let touched = all || old(self).segments@[j].spec_index() == segment;
                        &&& (#[trigger] self.segments@[j]).working_bytes() == old(self).segments@[j].working_bytes()
                        &&& self.segments@[j].default_bytes() == old(self).segments@[j].default_bytes()
                        &&& self.segments@[j].shadow_bytes() == old(self).segments@[j].shadow_bytes()
                        &&& self.segments@[j].spec_name() == old(self).segments@[j].spec_name()
                        &&& self.segments@[j].spec_ecu_page() == (if touched && (mode
                            & CAL_PAGE_MODE_ECU) != 0 {
                            page
                        } else {
                            old(self).segments@[j].spec_ecu_page()
                        })
                        &&& self.segments@[j].spec_xcp_page() == (if touched && (mode
                            & CAL_PAGE_MODE_XCP) != 0 {
                            page
                        } else {
                            old(self).segments@[j].spec_xcp_page()
                        })
                    },
                self.connected == old(self).connected,
                self.daq_lists@ == old(self).daq_lists@,
                self.ring == old(self).ring,
                self.registry == old(self).registry,
                self.mta_ext == old(self).mta_ext,
                self.mta_addr == old(self).mta_addr,
                self.upload_from_id == old(self).upload_from_id,
                self.upload_pos == old(self).upload_pos,
                self.upload_buf == old(self).upload_buf,
                self.id_payload == old(self).id_payload,
                self.daq_ptr_daq == old(self).daq_ptr_daq,
                self.daq_ptr_valid == old(self).daq_ptr_valid,
                self.clock == old(self).clock,
                self.max_cto == old(self).max_cto,
                self.max_dto == old(self).max_dto,
            decreases n - i,
        {
            let touched = all || self.segments[i].get_index() == segment;
            if touched {
                let mut seg = self.segments.remove(i);
                if (mode & CAL_PAGE_MODE_ECU) != 0 {
                    let _ = seg.set_ecu_page(page);
                }
                if (mode & CAL_PAGE_MODE_XCP) != 0 {
                    let _ = seg.set_xcp_page(page);
                }
                self.segments.insert(i, seg);
            }
            i += 1;
        }
        0xFF
    }

    /// The page one segment shows to the named view.
    ///
    /// Errors: `CRC_SEGMENT_NOT_VALID` for an unknown segment,
    /// `CRC_MODE_NOT_VALID` when neither view is named.
    pub fn cmd_get_cal_page(&self, mode: u8, segment: u16) -> (r: Result<u8, u8>)
        requires
            self.wf(),
        ensures
            (mode & (CAL_PAGE_MODE_ECU | CAL_PAGE_MODE_XCP)) == 0 ==> r == Result::<u8, u8>::Err(
                CRC_MODE_NOT_VALID,
            ),
            (mode & (CAL_PAGE_MODE_ECU | CAL_PAGE_MODE_XCP)) != 0 && segment
                >= self.segments@.len() ==> r == Result::<u8, u8>::Err(CRC_SEGMENT_NOT_VALID),
            (mode & (CAL_PAGE_MODE_ECU | CAL_PAGE_MODE_XCP)) != 0 && segment
                < self.segments@.len() ==> r == Result::<u8, u8>::Ok(
                if (mode & CAL_PAGE_MODE_ECU) != 0 {
                    self.segments@[segment as int].spec_ecu_page()
                } else {
                    self.segments@[segment as int].spec_xcp_page()
                },
            ),
    {
        if (mode & (CAL_PAGE_MODE_ECU | CAL_PAGE_MODE_XCP)) == 0 {
            return Err(CRC_MODE_NOT_VALID);
        }
        match self.seg_position(segment) {
            Some(i) => {
                proof {
                    assert(self.segments@[i as int].spec_index() == i);
                }
                if (mode & CAL_PAGE_MODE_ECU) != 0 {
                    Ok(self.segments[i].get_ecu_page())
                } else {
                    Ok(self.segments[i].get_xcp_page())
                }
            },
            None => {
                proof {
                    if (segment as int) < self.segments@.len() {
                        assert(self.segments@[segment as int].spec_index() == segment);
                    }
                }
                Err(CRC_SEGMENT_NOT_VALID)
            },
        }
    }

    /// Open a modify transaction on every segment: writes between begin
    /// and end become observable together at end.
    pub fn cmd_modify_begin(&mut self)
        requires
            old(self).wf(),
        ensures
            final(self).wf(),
            final(self).connected == old(self).connected,
            final(self).daq_lists@ == old(self).daq_lists@,
            final(self).ring == old(self).ring,
            final(self).registry == old(self).registry,
            final(self).clock == old(self).clock,
            final(self).mta_ext == old(self).mta_ext,
            final(self).mta_addr == old(self).mta_addr,
            final(self).upload_from_id == old(self).upload_from_id,
            final(self).upload_pos == old(self).upload_pos,
            final(self).upload_buf == old(self).upload_buf,
            final(self).id_payload == old(self).id_payload,
            final(self).daq_ptr_daq == old(self).daq_ptr_daq,
            final(self).daq_ptr_valid == old(self).daq_ptr_valid,
            final(self).max_cto == old(self).max_cto,
            final(self).max_dto == old(self).max_dto,
            final(self).segments@.len() == old(self).segments@.len(),
            forall|i: int|
                0 <= i < old(self).segments@.len() ==> {
                    &&& (#[trigger] final(self).segments@[i]).working_bytes() == old(self).segments@[i].working_bytes()
                    &&& final(self).segments@[i].default_bytes() == old(self).segments@[i].default_bytes()
                    &&& final(self).segments@[i].ecu_bytes() == old(self).segments@[i].ecu_bytes()
                    &&& final(self).segments@[i].spec_ecu_page() == old(self).segments@[i].spec_ecu_page()
                    &&& final(self).segments@[i].spec_xcp_page() == old(self).segments@[i].spec_xcp_page()
                    &&& final(self).segments@[i].spec_index() == old(self).segments@[i].spec_index()
                    &&& final(self).segments@[i].spec_name() == old(self).segments@[i].spec_name()
                    &&& final(self).segments@[i].in_transaction()
                    &&& (!old(self).segments@[i].in_transaction() ==> final(self).segments@[i].shadow_bytes() == Option::Some(
                        old(self).segments@[i].working_bytes(),
                    ))
                    &&& (old(self).segments@[i].in_transaction() ==> final(self).segments@[i].shadow_bytes() == old(self).segments@[i].shadow_bytes())
                },
    {
        let n = self.segments.len();
        let mut i: usize = 0;
        while i < n
            invariant
                n == self.segments@.len(),
                n == old(self).segments@.len(),
                i <= n,
                forall|j: int| i <= j < n ==> #[trigger] self.segments@[j] == old(self).segments@[j],
                forall|j: int| 0 <= j < n ==> (#[trigger] self.segments@[j]).wf(),
                forall|j: int|
                    0 <= j < i ==> {
                        &&& (#[trigger] self.segments@[j]).working_bytes() == old(self).segments@[j].working_bytes()
                        &&& self.segments@[j].default_bytes() == old(self).segments@[j].default_bytes()
                        &&& self.segments@[j].ecu_bytes() == old(self).segments@[j].ecu_bytes()
                        &&& self.segments@[j].spec_ecu_page() == old(self).segments@[j].spec_ecu_page()
                        &&& self.segments@[j].spec_xcp_page() == old(self).segments@[j].spec_xcp_page()
                        &&& self.segments@[j].spec_index() == old(self).segments@[j].spec_index()
                        &&& self.segments@[j].spec_name() == old(self).segments@[j].spec_name()
                        &&& self.segments@[j].in_transaction()
                        &&& (!old(self).segments@[j].in_transaction() ==> self.segments@[j].shadow_bytes()
                            == Option::Some(old(self).segments@[j].working_bytes()))
                        &&& (old(self).segments@[j].in_transaction() ==> self.segments@[j].shadow_bytes()
                            == old(self).segments@[j].shadow_bytes())
                    },
                self.connected == old(self).connected,
                self.daq_lists@ == old(self).daq_lists@,
                self.ring == old(self).ring,
                self.registry == old(self).registry,
                self.mta_ext == old(self).mta_ext,
                self.mta_addr == old(self).mta_addr,
                self.upload_from_id == old(self).upload_from_id,
                self.upload_pos == old(self).upload_pos,
                self.upload_buf == old(self).upload_buf,
                self.id_payload == old(self).id_payload,
                self.daq_ptr_daq == old(self).daq_ptr_daq,
                self.daq_ptr_valid == old(self).daq_ptr_valid,
                self.clock == old(self).clock,
                self.max_cto == old(self).max_cto,
                self.max_dto == old(self).max_dto,
            decreases n - i,
        {
            let mut seg = self.segments.remove(i);
            seg.modify_begin();
            self.segments.insert(i, seg);
            i += 1;
        }
    }

    /// Close the modify transactions on every segment: the staged bytes
    /// of each segment replace its working page in one step.
    pub fn cmd_modify_end(&mut self)
        requires
            old(self).wf(),
        ensures
            final(self).wf(),
            final(self).connected == old(self).connected,
            final(self).daq_lists@ == old(self).daq_lists@,
            final(self).ring == old(self).ring,
            final(self).registry == old(self).registry,
            final(self).clock == old(self).clock,
            final(self).mta_ext == old(self).mta_ext,
            final(self).mta_addr == old(self).mta_addr,
            final(self).upload_from_id == old(self).upload_from_id,
            final(self).upload_pos == old(self).upload_pos,
            final(self).upload_buf == old(self).upload_buf,
            final(self).id_payload == old(self).id_payload,
            final(self).daq_ptr_daq == old(self).daq_ptr_daq,
            final(self).daq_ptr_valid == old(self).daq_ptr_valid,
            final(self).max_cto == old(self).max_cto,
            final(self).max_dto == old(self).max_dto,
            final(self).segments@.len() == old(self).segments@.len(),
            forall|i: int|
                0 <= i < old(self).segments@.len() ==> {
                    &&& (#[trigger] final(self).segments@[i]).default_bytes() == old(self).segments@[i].default_bytes()
                    &&& final(self).segments@[i].spec_ecu_page() == old(self).segments@[i].spec_ecu_page()
                    &&& final(self).segments@[i].spec_xcp_page() == old(self).segments@[i].spec_xcp_page()
                    &&& final(self).segments@[i].spec_index() == old(self).segments@[i].spec_index()
                    &&& final(self).segments@[i].spec_name() == old(self).segments@[i].spec_name()
                    &&& !final(self).segments@[i].in_transaction()
                    &&& (old(self).segments@[i].in_transaction() ==> final(self).segments@[i].working_bytes() == old(self).segments@[i].shadow_bytes()->0)
                    &&& (!old(self).segments@[i].in_transaction() ==> final(self).segments@[i].working_bytes() == old(self).segments@[i].working_bytes())
                },
    {
        let n = self.segments.len();
        let mut i: usize = 0;
        while i < n
            invariant
                n == self.segments@.len(),
                n == old(self).segments@.len(),
                i <= n,
                forall|j: int| i <= j < n ==> #[trigger] self.segments@[j] == old(self).segments@[j],
                forall|j: int| 0 <= j < n ==> (#[trigger] self.segments@[j]).wf(),
                forall|j: int|
                    0 <= j < i ==> {
                        &&& (#[trigger] self.segments@[j]).default_bytes() == old(self).segments@[j].default_bytes()
                        &&& self.segments@[j].spec_ecu_page() == old(self).segments@[j].spec_ecu_page()
                        &&& self.segments@[j].spec_xcp_page() == old(self).segments@[j].spec_xcp_page()
                        &&& self.segments@[j].spec_index() == old(self).segments@[j].spec_index()
                        &&& self.segments@[j].spec_name() == old(self).segments@[j].spec_name()
                        &&& !self.segments@[j].in_transaction()
                        &&& (old(self).segments@[j].in_transaction() ==> self.segments@[j].working_bytes()
                            == old(self).segments@[j].shadow_bytes()->0)
                        &&& (!old(self).segments@[j].in_transaction() ==> self.segments@[j].working_bytes()
                            == old(self).segments@[j].working_bytes())
                    },
                self.connected == old(self).connected,
                self.daq_lists@ == old(self).daq_lists@,
                self.ring == old(self).ring,
                self.registry == old(self).registry,
                self.mta_ext == old(self).mta_ext,
                self.mta_addr == old(self).mta_addr,
                self.upload_from_id == old(self).upload_from_id,
                self.upload_pos == old(self).upload_pos,
                self.upload_buf == old(self).upload_buf,
                self.id_payload == old(self).id_payload,
                self.daq_ptr_daq == old(self).daq_ptr_daq,
                self.daq_ptr_valid == old(self).daq_ptr_valid,
                self.clock == old(self).clock,
                self.max_cto == old(self).max_cto,
                self.max_dto == old(self).max_dto,
            decreases n - i,
        {
            let mut seg = self.segments.remove(i);
            seg.modify_end();
            self.segments.insert(i, seg);
            i += 1;
        }
    }
}

/// True when the list samples the given event and is measuring.
pub open spec fn list_triggers(l: DaqList, event_id: u16) -> bool {
    l.event_bound && l.event_id == event_id && l.running
}

/// The bytes one ODT entry samples from the capture buffer: the low word
/// of the entry address is the offset into the buffer.
pub open spec fn entry_bytes(e: OdtEntryCfg, base: Seq<u8>) -> Seq<u8> {
    base.subrange((e.addr as int) % 0x10000, (e.addr as int) % 0x10000 + e.size)
}

/// All entries fit the capture buffer.
pub open spec fn entries_fit(entries: Seq<OdtEntryCfg>, base: Seq<u8>) -> bool {
    forall|i: int|
        0 <= i < entries.len() ==> ((#[trigger] entries[i]).addr as int) % 0x10000
            + entries[i].size <= base.len()
}

/// Concatenated sample bytes of the entries, in order.
pub open spec fn entries_payload(entries: Seq<OdtEntryCfg>, base: Seq<u8>) -> Seq<u8>
    decreases entries.len(),
{
    if entries.len() == 0 {
        Seq::empty()
    } else {
        entry_bytes(entries[0], base) + entries_payload(entries.drop_first(), base)
    }
}

/// One DAQ frame as pushed into the ring: the 4-byte DAQ header for ODT 0
/// (odt, reserved, daq low, daq high), the raw 32-bit timestamp, then the
/// sampled bytes.
pub open spec fn daq_frame_bytes(
    daq: u16,
    ts_raw: u32,
    entries: Seq<OdtEntryCfg>,
    base: Seq<u8>,
) -> Seq<u8> {
    seq![
        0u8,
        0u8,
        (daq % 0x100) as u8,
        (daq / 0x100) as u8,
        (ts_raw % 0x100) as u8,
        ((ts_raw / 0x100) % 0x100) as u8,
        ((ts_raw / 0x10000) % 0x100) as u8,
        ((ts_raw / 0x100_0000) % 0x100) as u8,
    ] + entries_payload(entries, base)
}

impl XcpServer {
    /// Evict the session: the server drops the connection and hands back
    /// the session-terminated event packet to send. Until the next
    /// CONNECT every command fails `CRC_CMD_UNKNOWN`.
    pub fn evict_session(&mut self) -> (r: Vec<u8>)
        requires
            old(self).wf(),
        ensures
            final(self).wf(),
            !final(self).connected,
            r@ == seq![0xFDu8, EV_SESSION_TERMINATED],
            final(self).segments@ == old(self).segments@,
            final(self).daq_lists@ == old(self).daq_lists@,
            final(self).ring == old(self).ring,
            final(self).registry == old(self).registry,
    {
        self.connected = false;
        let mut r: Vec<u8> = Vec::new();
        r.push(0xFD);
        r.push(EV_SESSION_TERMINATED);
        proof {
            assert(r@ =~= seq![0xFDu8, EV_SESSION_TERMINATED]);
        }
        r
    }

    /// Trigger an event from an application thread: every measuring DAQ
    /// list bound to the event samples its ODT entries from the capture
    /// buffer and a frame goes to the DTO ring; a full ring drops the
    /// frame and counts it lost. A list whose entries do not fit the
    /// buffer produces no frame.
    pub fn trigger_event(&mut self, event_id: u16, base: &[u8])
        requires
            old(self).wf(),
            old(self).daq_lists@.len() <= 0xFFFF,
            old(self).ring.next_ctr + old(self).daq_lists@.len() + 0x10000 < u64::MAX,
        ensures
            final(self).wf(),
            final(self).connected == old(self).connected,
            final(self).segments@ == old(self).segments@,
            final(self).registry == old(self).registry,
            final(self).daq_lists@ == old(self).daq_lists@,
            final(self).clock == old(self).clock,
            final(self).ring.depth == old(self).ring.depth,
            final(self).ring.lost >= old(self).ring.lost,
            (forall|j: int|
                0 <= j < old(self).daq_lists@.len() ==> !list_triggers(
                    #[trigger] old(self).daq_lists@[j],
                    event_id,
                )) ==> final(self).ring == old(self).ring,
            // when exactly one list triggers and its entries fit the
            // capture buffer, exactly one frame is offered to the ring
            forall|w: int|
                0 <= w < old(self).daq_lists@.len() && list_triggers(
                    #[trigger] old(self).daq_lists@[w],
                    event_id,
                ) && (forall|k: int|
                    0 <= k < old(self).daq_lists@.len() && k != w ==> !list_triggers(
                        #[trigger] old(self).daq_lists@[k],
                        event_id,
                    )) && entries_fit(old(self).daq_lists@[w].entries@, base@) ==> {
                    let frame = daq_frame_bytes(
                        w as u16,
                        (old(self).clock % 0x1_0000_0000) as u32,
                        old(self).daq_lists@[w].entries@,
                        base@,
                    );
                    &&& final(self).ring.next_ctr == old(self).ring.next_ctr + 1
                    &&& (old(self).ring.entries@.len() < old(self).ring.depth ==> final(self).ring.entries@.len()
                        == old(self).ring.entries@.len() + 1
                        && final(self).ring.entries@.last().payload@ == frame
                        && final(self).ring.entries@.last().ctr == old(self).ring.next_ctr
                        && final(self).ring.lost == old(self).ring.lost)
                    &&& (old(self).ring.entries@.len() >= old(self).ring.depth ==> final(self).ring.entries@
                        == old(self).ring.entries@ && final(self).ring.lost == old(self).ring.lost
                        + 1)
                },
    {
        let ts_raw: u32 = (self.clock % 0x1_0000_0000) as u32;
        let n = self.daq_lists.len();
        let mut j: usize = 0;
        while j < n
            invariant
                old(self).wf(),
                n == self.daq_lists@.len(),
                n <= 0xFFFF,
                j <= n,
                self.daq_lists@ == old(self).daq_lists@,
                self.segments@ == old(self).segments@,
                self.registry == old(self).registry,
                self.connected == old(self).connected,
                self.clock == old(self).clock,
                self.mta_ext == old(self).mta_ext,
                self.mta_addr == old(self).mta_addr,
                self.upload_from_id == old(self).upload_from_id,
                self.upload_pos == old(self).upload_pos,
                self.upload_buf == old(self).upload_buf,
                self.id_payload == old(self).id_payload,
                self.daq_ptr_daq == old(self).daq_ptr_daq,
                self.daq_ptr_valid == old(self).daq_ptr_valid,
                self.max_cto == old(self).max_cto,
                self.max_dto == old(self).max_dto,
                ts_raw == (old(self).clock % 0x1_0000_0000) as u32,
                self.ring.wf(),
                self.ring.depth == old(self).ring.depth,
                self.ring.lost >= old(self).ring.lost,
                self.ring.next_ctr <= old(self).ring.next_ctr + j,
                old(self).ring.next_ctr + old(self).daq_lists@.len() + 0x10000 < u64::MAX,
                (forall|k: int|
                    0 <= k < j ==> !list_triggers(#[trigger] old(self).daq_lists@[k], event_id)
                        || !entries_fit(old(self).daq_lists@[k].entries@, base@)) ==> self.ring
                    == old(self).ring,
                forall|w: int|
                    0 <= w < old(self).daq_lists@.len() && list_triggers(
                        #[trigger] old(self).daq_lists@[w],
                        event_id,
                    ) && (forall|k: int|
                        0 <= k < old(self).daq_lists@.len() && k != w ==> !list_triggers(
                            #[trigger] old(self).daq_lists@[k],
                            event_id,
                        )) && entries_fit(old(self).daq_lists@[w].entries@, base@) ==> {
                        let frame = daq_frame_bytes(
                            w as u16,
                            ts_raw,
                            old(self).daq_lists@[w].entries@,
                            base@,
                        );
                        &&& (w >= j ==> self.ring == old(self).ring)
                        &&& (w < j ==> {
                            &&& self.ring.next_ctr == old(self).ring.next_ctr + 1
                            &&& (old(self).ring.entries@.len() < old(self).ring.depth
                                ==> self.ring.entries@.len() == old(self).ring.entries@.len() + 1
                                && self.ring.entries@.last().payload@ == frame
                                && self.ring.entries@.last().ctr == old(self).ring.next_ctr
                                && self.ring.lost == old(self).ring.lost)
                            &&& (old(self).ring.entries@.len() >= old(self).ring.depth
                                ==> self.ring.entries@ == old(self).ring.entries@
                                && self.ring.lost == old(self).ring.lost + 1)
                        })
                    },
            decreases n - j,
        {
            let l = &self.daq_lists[j];
            if l.event_bound && l.event_id == event_id && l.running {
                // check every entry fits the capture buffer
                let m = l.entries.len();
                let mut fits = true;
                let mut k: usize = 0;
                while k < m
                    invariant
                        m == l.entries@.len(),
                        k <= m,
                        l == &self.daq_lists[j as int],
                        j < self.daq_lists@.len(),
                        fits <==> (forall|q: int|
                            0 <= q < k ==> ((#[trigger] l.entries@[q]).addr as int) % 0x10000
                                + l.entries@[q].size <= base@.len()),
                    decreases m - k,
                {
                    let e = l.entries[k];
                    let off: usize = (e.addr % 0x10000) as usize;
                    if off + (e.size as usize) > base.len() {
                        fits = false;
                        proof {
                            assert(((l.entries@[k as int]).addr as int) % 0x10000
                                + l.entries@[k as int].size > base@.len());
                        }
                    }
                    k += 1;
                }
                if fits {
                    // build the frame: header, timestamp, samples
                    let daq = j as u16;
                    let mut frame: Vec<u8> = Vec::new();
                    frame.push(0);
                    frame.push(0);
                    frame.push((daq % 0x100) as u8);
                    frame.push((daq / 0x100) as u8);
                    frame.push((ts_raw % 0x100) as u8);
                    frame.push(((ts_raw / 0x100) % 0x100) as u8);
                    frame.push(((ts_raw / 0x10000) % 0x100) as u8);
                    frame.push(((ts_raw / 0x100_0000) % 0x100) as u8);
                    let ghost header = frame@;
                    proof {
                        assert(l.entries@.subrange(0, 0) =~= Seq::<OdtEntryCfg>::empty());
                        assert(frame@ =~= header + entries_payload(
                            l.entries@.subrange(0, 0),
                            base@,
                        ));
                    }
                    let mut k2: usize = 0;
                    while k2 < m
                        invariant
                            m == l.entries@.len(),
                            k2 <= m,
                            l == &self.daq_lists[j as int],
                            j < self.daq_lists@.len(),
                            entries_fit(l.entries@, base@),
                            frame@ == header + entries_payload(
                                l.entries@.subrange(0, k2 as int),
                                base@,
                            ),
                        decreases m - k2,
                    {
                        let e = l.entries[k2];
                        let off: usize = (e.addr % 0x10000) as usize;
                        let sz: usize = e.size as usize;
                        let mut b: usize = 0;
                        while b < sz
                            invariant
                                off + sz <= base@.len(),
                                b <= sz,
                                frame@ == header + entries_payload(
                                    l.entries@.subrange(0, k2 as int),
                                    base@,
                                ) + base@.subrange(off as int, off + b as int),
                                m == l.entries@.len(),
                                k2 < m,
                                l == &self.daq_lists[j as int],
                                j < self.daq_lists@.len(),
                                e == l.entries@[k2 as int],
                                off == (e.addr as int) % 0x10000,
                                sz == e.size,
                                entries_fit(l.entries@, base@),
                            decreases sz - b,
                        {
                            frame.push(base[off + b]);
                            proof {
                                assert(frame@ =~= header + entries_payload(
                                    l.entries@.subrange(0, k2 as int),
                                    base@,
                                ) + base@.subrange(off as int, off + b + 1 as int));
                            }
                            b += 1;
                        }
                        proof {
                            lemma_entries_payload_snoc(l.entries@, k2 as int, base@);
                            assert(base@.subrange(off as int, off + sz as int) == entry_bytes(
                                l.entries@[k2 as int],
                                base@,
                            ));
                            assert(frame@ =~= header + entries_payload(
                                l.entries@.subrange(0, k2 + 1 as int),
                                base@,
                            ));
                        }
                        k2 += 1;
                    }
                    proof {
                        assert(l.entries@.subrange(0, m as int) =~= l.entries@);
                        assert(frame@ =~= daq_frame_bytes(daq, ts_raw, l.entries@, base@));
                    }
                    let ghost ring_before = self.ring;
                    let _ = self.ring.push(frame);
                    proof {
                        assert(list_triggers(old(self).daq_lists@[j as int], event_id));
                        assert forall|w: int|
                            0 <= w < old(self).daq_lists@.len() && list_triggers(
                                #[trigger] old(self).daq_lists@[w],
                                event_id,
                            ) && (forall|k: int|
                                0 <= k < old(self).daq_lists@.len() && k != w ==> !list_triggers(
                                    #[trigger] old(self).daq_lists@[k],
                                    event_id,
                                )) && entries_fit(
                                old(self).daq_lists@[w].entries@,
                                base@,
                            ) implies w == j && ring_before == old(self).ring by {
                            if w != j {
                                assert(!list_triggers(old(self).daq_lists@[j as int], event_id));
                            }
                            assert(w >= j);
                            assert(ring_before == old(self).ring);
                        }
                    }
                }
            }
            j += 1;
        }
    }
}

/// The calibration-path command codes.
pub open spec fn spec_is_cal_code(c: u8) -> bool {
    ||| c == CC_GET_ID
    ||| c == CC_SET_MTA
    ||| c == CC_UPLOAD
    ||| c == CC_SHORT_UPLOAD
    ||| c == CC_SHORT_DOWNLOAD
    ||| c == CC_DOWNLOAD
    ||| c == CC_SET_CAL_PAGE
    ||| c == CC_GET_CAL_PAGE
    ||| c == CC_USER
    ||| c == CC_GET_PAGE_PROCESSOR_INFO
    ||| c == CC_GET_SEGMENT_INFO
}

/// The DAQ-path command codes.
pub open spec fn spec_is_daq_code(c: u8) -> bool {
    ||| c == CC_FREE_DAQ
    ||| c == CC_ALLOC_DAQ
    ||| c == CC_ALLOC_ODT
    ||| c == CC_ALLOC_ODT_ENTRY
    ||| c == CC_SET_DAQ_PTR
    ||| c == CC_WRITE_DAQ
    ||| c == CC_SET_DAQ_LIST_MODE
    ||| c == CC_START_STOP_DAQ_LIST
    ||| c == CC_START_STOP_SYNCH
    ||| c == CC_GET_DAQ_CLOCK
    ||| c == CC_GET_DAQ_PROCESSOR_INFO
    ||| c == CC_GET_DAQ_RESOLUTION_INFO
    ||| c == CC_GET_DAQ_EVENT_INFO
}

/// True for the calibration-path command codes.
fn is_cal_code(c: u8) -> (r: bool)
    ensures
        r == spec_is_cal_code(c),
{
    c == CC_GET_ID || c == CC_SET_MTA || c == CC_UPLOAD || c == CC_SHORT_UPLOAD || c
        == CC_SHORT_DOWNLOAD || c == CC_DOWNLOAD || c == CC_SET_CAL_PAGE || c == CC_GET_CAL_PAGE
        || c == CC_USER || c == CC_GET_PAGE_PROCESSOR_INFO || c == CC_GET_SEGMENT_INFO
}

/// True for the DAQ-path command codes.
fn is_daq_code(c: u8) -> (r: bool)
    ensures
        r == spec_is_daq_code(c),
{
    c == CC_FREE_DAQ || c == CC_ALLOC_DAQ || c == CC_ALLOC_ODT || c == CC_ALLOC_ODT_ENTRY || c
        == CC_SET_DAQ_PTR || c == CC_WRITE_DAQ || c == CC_SET_DAQ_LIST_MODE || c
        == CC_START_STOP_DAQ_LIST || c == CC_START_STOP_SYNCH || c == CC_GET_DAQ_CLOCK || c
        == CC_GET_DAQ_PROCESSOR_INFO || c == CC_GET_DAQ_RESOLUTION_INFO || c
        == CC_GET_DAQ_EVENT_INFO
}

/// A negative response: `0xFE` and the error code.
fn resp_err(code: u8) -> (r: Vec<u8>)
    ensures
        r@ == seq![0xFEu8, code],
{
    let mut r: Vec<u8> = Vec::new();
    r.push(0xFE);
    r.push(code);
    proof {
        assert(r@ =~= seq![0xFEu8, code]);
    }
    r
}

/// A bare positive response: `0xFF`.
fn resp_ok() -> (r: Vec<u8>)
    ensures
        r@ == seq![0xFFu8],
{
    let mut r: Vec<u8> = Vec::new();
    r.push(0xFF);
    proof {
        assert(r@ =~= seq![0xFFu8]);
    }
    r
}

/// The little-endian 32-bit value at position `i`.
fn le32_at(cmd: &[u8], i: usize) -> (r: u32)
    requires
        i + 4 <= cmd@.len(),
    ensures
        r == cmd@[i as int] + cmd@[i + 1] * 0x100 + cmd@[i + 2] * 0x10000 + cmd@[i + 3]
            * 0x100_0000,
{
    (cmd[i] as u32) + (cmd[i + 1] as u32) * 0x100 + (cmd[i + 2] as u32) * 0x10000 + (cmd[i
        + 3] as u32) * 0x100_0000
}

/// The little-endian 16-bit value at position `i`.
fn le16_at(cmd: &[u8], i: usize) -> (r: u16)
    requires
        i + 2 <= cmd@.len(),
    ensures
        r == cmd@[i as int] + cmd@[i + 1] * 0x100,
{
    (cmd[i] as u16) + (cmd[i + 1] as u16) * 0x100
}

impl XcpServer {
    /// Replace the DAQ list at a position.
    fn set_daq_list(&mut self, i: usize, l: DaqList)
        requires
            i < old(self).daq_lists@.len(),
        ensures
            final(self).daq_lists@ == old(self).daq_lists@.update(i as int, l),
            final(self).segments@ == old(self).segments@,
            final(self).registry == old(self).registry,
            final(self).connected == old(self).connected,
            final(self).ring == old(self).ring,
            final(self).clock == old(self).clock,
            final(self).mta_ext == old(self).mta_ext,
            final(self).mta_addr == old(self).mta_addr,
            final(self).upload_from_id == old(self).upload_from_id,
            final(self).upload_pos == old(self).upload_pos,
            final(self).upload_buf == old(self).upload_buf,
            final(self).id_payload == old(self).id_payload,
            final(self).daq_ptr_daq == old(self).daq_ptr_daq,
            final(self).daq_ptr_valid == old(self).daq_ptr_valid,
            final(self).max_cto == old(self).max_cto,
            final(self).max_dto == old(self).max_dto,
    {
        let ghost gl = l;
        self.daq_lists.remove(i);
        self.daq_lists.insert(i, l);
        proof {
            assert(self.daq_lists@ =~= old(self).daq_lists@.update(i as int, gl));
        }
    }

    /// Stop every DAQ list and clear every selection.
    fn stop_all_daq(&mut self)
        ensures
            final(self).daq_lists@.len() == old(self).daq_lists@.len(),
            forall|i: int|
                0 <= i < old(self).daq_lists@.len() ==> {
                    &&& !(#[trigger] final(self).daq_lists@[i]).running
                    &&& !final(self).daq_lists@[i].selected
                    &&& final(self).daq_lists@[i].event_id == old(self).daq_lists@[i].event_id
                    &&& final(self).daq_lists@[i].event_bound == old(self).daq_lists@[i].event_bound
                    &&& final(self).daq_lists@[i].entries@ == old(self).daq_lists@[i].entries@
                    &&& final(self).daq_lists@[i].payload_size == old(self).daq_lists@[i].payload_size
                },
            final(self).segments@ == old(self).segments@,
            final(self).registry == old(self).registry,
            final(self).connected == old(self).connected,
            final(self).ring == old(self).ring,
            final(self).clock == old(self).clock,
            final(self).mta_ext == old(self).mta_ext,
            final(self).mta_addr == old(self).mta_addr,
            final(self).upload_from_id == old(self).upload_from_id,
            final(self).upload_pos == old(self).upload_pos,
            final(self).upload_buf == old(self).upload_buf,
            final(self).id_payload == old(self).id_payload,
            final(self).daq_ptr_daq == old(self).daq_ptr_daq,
            final(self).daq_ptr_valid == old(self).daq_ptr_valid,
            final(self).max_cto == old(self).max_cto,
            final(self).max_dto == old(self).max_dto,
    {
        let n = self.daq_lists.len();
        let mut i: usize = 0;
        while i < n
            invariant
                n == self.daq_lists@.len(),
                n == old(self).daq_lists@.len(),
                i <= n,
                forall|j: int| i <= j < n ==> #[trigger] self.daq_lists@[j] == old(self).daq_lists@[j],
                forall|j: int|
                    0 <= j < i ==> {
                        &&& !(#[trigger] self.daq_lists@[j]).running
                        &&& !self.daq_lists@[j].selected
                        &&& self.daq_lists@[j].event_id == old(self).daq_lists@[j].event_id
                        &&& self.daq_lists@[j].event_bound == old(self).daq_lists@[j].event_bound
                        &&& self.daq_lists@[j].entries@ == old(self).daq_lists@[j].entries@
                        &&& self.daq_lists@[j].payload_size == old(self).daq_lists@[j].payload_size
                    },
                self.segments@ == old(self).segments@,
                self.registry == old(self).registry,
                self.connected == old(self).connected,
                self.ring == old(self).ring,
                self.clock == old(self).clock,
                self.mta_ext == old(self).mta_ext,
                self.mta_addr == old(self).mta_addr,
                self.upload_from_id == old(self).upload_from_id,
                self.upload_pos == old(self).upload_pos,
                self.upload_buf == old(self).upload_buf,
                self.id_payload == old(self).id_payload,
                self.daq_ptr_daq == old(self).daq_ptr_daq,
                self.daq_ptr_valid == old(self).daq_ptr_valid,
                self.max_cto == old(self).max_cto,
                self.max_dto == old(self).max_dto,
            decreases n - i,
        {
            let mut l = self.daq_lists.remove(i);
            l.running = false;
            l.selected = false;
            self.daq_lists.insert(i, l);
            i += 1;
        }
    }

    /// Execute one calibration-path command: identification, memory
    /// transfer, page selection, modify brackets and segment information.
    #[verifier::rlimit(100)]
    #[verifier::spinoff_prover]
    fn dispatch_cal(&mut self, cmd: &[u8]) -> (r: Vec<u8>)
        requires
            old(self).wf(),
            old(self).connected,
            cmd@.len() >= 1,
            spec_is_cal_code(cmd@[0]),
        ensures
            final(self).wf(),
            final(self).segments@.len() == old(self).segments@.len(),
            final(self).registry == old(self).registry,
            final(self).ring == old(self).ring,
            final(self).clock == old(self).clock,
            final(self).max_cto == old(self).max_cto,
            final(self).max_dto == old(self).max_dto,
            final(self).connected == old(self).connected,
            final(self).daq_lists@ == old(self).daq_lists@,
            r@.len() >= 1,
            r@[0] == 0xFF || r@[0] == 0xFE,
            // SET_MTA places the transfer cursor and leaves staged uploads
            cmd@.len() >= 8 && old(self).connected && cmd@[0] == CC_SET_MTA ==> r@ == seq![0xFFu8]
                && final(self).mta_ext == cmd@[3] && final(self).mta_addr == spec_le32(cmd@, 4)
                && !final(self).upload_from_id && final(self).segments@ == old(self).segments@
                && final(self).daq_lists@ == old(self).daq_lists@,
            // SHORT_DOWNLOAD writes through the engine: accepted exactly
            // when the range lands in a known segment, and then the
            // segment state changes by exactly that splice
            cmd@.len() >= 8 && cmd@.len() >= 8 + cmd@[1] && old(self).connected && cmd@[0]
                == CC_SHORT_DOWNLOAD ==> {
                let wdata = cmd@.subrange(8, 8 + cmd@[1]);
                &&& (r@ == seq![0xFFu8] <==> old(self).spec_write_applicable(
                    cmd@[3],
                    (spec_le32(cmd@, 4) as u32),
                    cmd@[1] as int,
                ))
                &&& (r@ == seq![0xFFu8] ==> Self::spec_write_applied(
                    *old(self),
                    *final(self),
                    (spec_le32(cmd@, 4) as u32),
                    wdata,
                ))
                &&& (r@ != seq![0xFFu8] ==> r@ == seq![0xFEu8, CRC_ACCESS_DENIED] && final(self).segments@
                    == old(self).segments@)
                &&& final(self).daq_lists@ == old(self).daq_lists@
                &&& final(self).mta_ext == old(self).mta_ext
                &&& final(self).mta_addr == old(self).mta_addr
            },
            // SHORT_UPLOAD reads through the engine from the tool's page
            cmd@.len() >= 8 && old(self).connected && cmd@[0] == CC_SHORT_UPLOAD ==> {
                &&& (old(self).spec_read_ok(cmd@[3], (spec_le32(cmd@, 4) as u32), cmd@[1] as int)
                    ==> r@.len() == cmd@[1] + 1 && r@[0] == 0xFF && r@.subrange(1, r@.len() as int)
                    == old(self).spec_read_bytes((spec_le32(cmd@, 4) as u32), cmd@[1] as int))
                &&& (!old(self).spec_read_ok(
                    cmd@[3],
                    (spec_le32(cmd@, 4) as u32),
                    cmd@[1] as int,
                ) ==> r@ == seq![0xFEu8, CRC_ACCESS_DENIED])
                &&& *final(self) == *old(self)
            },
            // UPLOAD in staged mode serves the staged buffer byte for
            // byte and advances the read position
            cmd@.len() >= 2 && old(self).connected && cmd@[0] == CC_UPLOAD && old(self).upload_from_id ==> {
                &&& (old(self).upload_pos + cmd@[1] <= old(self).upload_buf@.len() ==> r@.len()
                    == cmd@[1] + 1 && r@[0] == 0xFF && r@.subrange(1, r@.len() as int) == old(self).upload_buf@.subrange(
                    old(self).upload_pos as int,
                    old(self).upload_pos + cmd@[1],
                ) && final(self).upload_pos == old(self).upload_pos + cmd@[1] && final(self).upload_buf
                    == old(self).upload_buf && final(self).upload_from_id && final(self).segments@
                    == old(self).segments@ && final(self).daq_lists@ == old(self).daq_lists@)
                &&& (old(self).upload_pos + cmd@[1] > old(self).upload_buf@.len() ==> r@ == seq![
                    0xFEu8,
                    CRC_OUT_OF_RANGE,
                ] && *final(self) == *old(self))
            },
            // UPLOAD at the transfer cursor reads through the engine and
            // advances the cursor
            cmd@.len() >= 2 && old(self).connected && cmd@[0] == CC_UPLOAD && !old(self).upload_from_id ==> {
                &&& (old(self).mta_addr + cmd@[1] > u32::MAX ==> r@ == seq![
                    0xFEu8,
                    CRC_OUT_OF_RANGE,
                ] && *final(self) == *old(self))
                &&& (old(self).mta_addr + cmd@[1] <= u32::MAX && old(self).spec_read_ok(
                    old(self).mta_ext,
                    old(self).mta_addr,
                    cmd@[1] as int,
                ) ==> r@.len() == cmd@[1] + 1 && r@[0] == 0xFF && r@.subrange(1, r@.len() as int)
                    == old(self).spec_read_bytes(old(self).mta_addr, cmd@[1] as int) && final(self).mta_addr
                    == old(self).mta_addr + cmd@[1] && final(self).segments@ == old(self).segments@
                    && final(self).daq_lists@ == old(self).daq_lists@)
                &&& (old(self).mta_addr + cmd@[1] <= u32::MAX && !old(self).spec_read_ok(
                    old(self).mta_ext,
                    old(self).mta_addr,
                    cmd@[1] as int,
                ) ==> r@ == seq![0xFEu8, CRC_ACCESS_DENIED] && *final(self) == *old(self))
            },
            // DOWNLOAD writes at the transfer cursor and advances it
            cmd@.len() >= 2 && cmd@.len() >= 2 + cmd@[1] && old(self).connected && cmd@[0]
                == CC_DOWNLOAD ==> {
                let wdata = cmd@.subrange(2, 2 + cmd@[1]);
                &&& (old(self).mta_addr + cmd@[1] > u32::MAX ==> r@ == seq![
                    0xFEu8,
                    CRC_OUT_OF_RANGE,
                ] && *final(self) == *old(self))
                &&& (old(self).mta_addr + cmd@[1] <= u32::MAX ==> {
                    &&& (r@ == seq![0xFFu8] <==> old(self).spec_write_applicable(
                        old(self).mta_ext,
                        old(self).mta_addr,
                        cmd@[1] as int,
                    ))
                    &&& (r@ == seq![0xFFu8] ==> Self::spec_write_applied(
                        *old(self),
                        *final(self),
                        old(self).mta_addr,
                        wdata,
                    ) && final(self).mta_addr == old(self).mta_addr + cmd@[1])
                    &&& (r@ != seq![0xFFu8] ==> r@ == seq![0xFEu8, CRC_ACCESS_DENIED] && final(self).segments@
                        == old(self).segments@ && final(self).mta_addr == old(self).mta_addr)
                })
                &&& final(self).daq_lists@ == old(self).daq_lists@
            },
            // SET_CAL_PAGE selects the visible pages
            cmd@.len() >= 4 && old(self).connected && cmd@[0] == CC_SET_CAL_PAGE ==> {
                let pmode = cmd@[1];
                let pseg = cmd@[2] as u16;
                let ppage = cmd@[3];
                &&& (ppage > 1 ==> r@ == seq![0xFEu8, CRC_PAGE_NOT_VALID] && final(self).segments@
                    == old(self).segments@)
                &&& (ppage <= 1 && (pmode & (CAL_PAGE_MODE_ECU | CAL_PAGE_MODE_XCP)) == 0 ==> r@
                    == seq![0xFEu8, CRC_MODE_NOT_VALID] && final(self).segments@ == old(self).segments@)
                &&& (ppage <= 1 && (pmode & (CAL_PAGE_MODE_ECU | CAL_PAGE_MODE_XCP)) != 0 && (pmode
                    & CAL_PAGE_MODE_ALL) == 0 && pseg >= old(self).segments@.len() ==> r@ == seq![
                    0xFEu8,
                    CRC_SEGMENT_NOT_VALID,
                ] && final(self).segments@ == old(self).segments@)
                &&& (ppage <= 1 && (pmode & (CAL_PAGE_MODE_ECU | CAL_PAGE_MODE_XCP)) != 0 && ((pmode
                    & CAL_PAGE_MODE_ALL) != 0 || pseg < old(self).segments@.len()) ==> r@ == seq![0xFFu8]
                    && (forall|i: int|
                    0 <= i < old(self).segments@.len() ==> {
                        let touched = (pmode & CAL_PAGE_MODE_ALL) != 0 || old(self).segments@[i].spec_index()
                            == pseg;
                        &&& (#[trigger] final(self).segments@[i]).working_bytes() == old(self).segments@[i].working_bytes()
                        &&& final(self).segments@[i].default_bytes() == old(self).segments@[i].default_bytes()
                        &&& final(self).segments@[i].shadow_bytes() == old(self).segments@[i].shadow_bytes()
                        &&& final(self).segments@[i].spec_index() == old(self).segments@[i].spec_index()
                        &&& final(self).segments@[i].spec_name() == old(self).segments@[i].spec_name()
                        &&& final(self).segments@[i].spec_ecu_page() == (if touched && (pmode
                            & CAL_PAGE_MODE_ECU) != 0 {
                            ppage
                        } else {
                            old(self).segments@[i].spec_ecu_page()
                        })
                        &&& final(self).segments@[i].spec_xcp_page() == (if touched && (pmode
                            & CAL_PAGE_MODE_XCP) != 0 {
                            ppage
                        } else {
                            old(self).segments@[i].spec_xcp_page()
                        })
                    }))
                &&& final(self).daq_lists@ == old(self).daq_lists@
            },
            // GET_CAL_PAGE reads a page selector and changes nothing
            cmd@.len() >= 3 && old(self).connected && cmd@[0] == CC_GET_CAL_PAGE ==> {
                let pmode = cmd@[1];
                let pseg = cmd@[2] as u16;
                &&& *final(self) == *old(self)
                &&& ((pmode & (CAL_PAGE_MODE_ECU | CAL_PAGE_MODE_XCP)) == 0 ==> r@ == seq![
                    0xFEu8,
                    CRC_MODE_NOT_VALID,
                ])
                &&& ((pmode & (CAL_PAGE_MODE_ECU | CAL_PAGE_MODE_XCP)) != 0 && pseg >= old(self).segments@.len()
                    ==> r@ == seq![0xFEu8, CRC_SEGMENT_NOT_VALID])
                &&& ((pmode & (CAL_PAGE_MODE_ECU | CAL_PAGE_MODE_XCP)) != 0 && pseg < old(self).segments@.len()
                    ==> r@ == seq![
                    0xFFu8,
                    0u8,
                    0u8,
                    (if (pmode & CAL_PAGE_MODE_ECU) != 0 {
                        old(self).segments@[pseg as int].spec_ecu_page()
                    } else {
                        old(self).segments@[pseg as int].spec_xcp_page()
                    }),
                ])
            },
            // USER 1 and 2 bracket a consistent write transaction on
            // every segment
            cmd@.len() >= 2 && old(self).connected && cmd@[0] == CC_USER && cmd@[1] == 1 ==> r@
                == seq![0xFFu8] && final(self).segments@.len() == old(self).segments@.len() && (forall|i: int|
                0 <= i < old(self).segments@.len() ==> {
                    &&& (#[trigger] final(self).segments@[i]).working_bytes() == old(self).segments@[i].working_bytes()
                    &&& final(self).segments@[i].ecu_bytes() == old(self).segments@[i].ecu_bytes()
                    &&& final(self).segments@[i].in_transaction()
                    &&& (!old(self).segments@[i].in_transaction() ==> final(self).segments@[i].shadow_bytes()
                        == Option::Some(old(self).segments@[i].working_bytes()))
                }) && final(self).daq_lists@ == old(self).daq_lists@,
            cmd@.len() >= 2 && old(self).connected && cmd@[0] == CC_USER && cmd@[1] == 2 ==> r@
                == seq![0xFFu8] && final(self).segments@.len() == old(self).segments@.len() && (forall|i: int|
                0 <= i < old(self).segments@.len() ==> {
                    &&& !(#[trigger] final(self).segments@[i]).in_transaction()
                    &&& (old(self).segments@[i].in_transaction() ==> final(self).segments@[i].working_bytes()
                        == old(self).segments@[i].shadow_bytes()->0)
                    &&& (!old(self).segments@[i].in_transaction() ==> final(self).segments@[i].working_bytes()
                        == old(self).segments@[i].working_bytes())
                }) && final(self).daq_lists@ == old(self).daq_lists@,
            // GET_ID kind 4 stages the description body for UPLOAD and
            // announces its size
            cmd@.len() >= 2 && old(self).connected && cmd@[0] == CC_GET_ID && cmd@[1]
                == XCP_IDT_ASAM_UPLOAD && old(self).id_payload@.len() <= 0xFFFF_FFFF ==> {
                &&& r@.len() == 8
                &&& r@[0] == 0xFF
                &&& r@[1] == 0x00
                &&& spec_le32(r@, 4) == old(self).id_payload@.len()
                &&& final(self).upload_buf@ == old(self).id_payload@
                &&& final(self).upload_from_id
                &&& final(self).upload_pos == 0
                &&& final(self).segments@ == old(self).segments@
                &&& final(self).daq_lists@ == old(self).daq_lists@
                &&& final(self).id_payload == old(self).id_payload
            },
            // GET_PAGE_PROCESSOR_INFO reports the segment count
            cmd@.len() >= 1 && old(self).connected && cmd@[0] == CC_GET_PAGE_PROCESSOR_INFO ==> r@[0]
                == 0xFF && r@.len() == 3 && *final(self) == *old(self),
            // GET_SEGMENT_INFO answers the base address or length of a
            // segment, or stages its name for UPLOAD
            cmd@.len() >= 5 && old(self).connected && cmd@[0] == CC_GET_SEGMENT_INFO && cmd@[1]
                == 0 && cmd@[3] <= 2 ==> {
                let pseg = cmd@[2] as u16;
                &&& (pseg >= old(self).segments@.len() ==> r@ == seq![0xFEu8, CRC_SEGMENT_NOT_VALID]
                    && *final(self) == *old(self))
                &&& (pseg < old(self).segments@.len() && cmd@[3] == 0 ==> r@.len() == 8 && r@[0]
                    == 0xFF && spec_le32(r@, 4) == 0x8000_0000 + (pseg as int) * 0x10000 && *final(self)
                    == *old(self))
                &&& (pseg < old(self).segments@.len() && cmd@[3] == 1 && old(self).segments@[pseg as int].default_bytes().len()
                    <= 0xFFFF_FFFF ==> r@.len() == 8 && r@[0] == 0xFF && spec_le32(r@, 4) == old(self).segments@[pseg as int].default_bytes().len()
                    && *final(self) == *old(self))
                &&& (pseg < old(self).segments@.len() && cmd@[3] == 2 ==> (r@.len() == 8 && r@[0]
                    == 0xFF && spec_le32(r@, 4) == final(self).upload_buf@.len() && final(self).upload_from_id
                    && final(self).upload_pos == 0 && final(self).segments@ == old(self).segments@
                    && final(self).daq_lists@ == old(self).daq_lists@) || (r@ == seq![
                    0xFEu8,
                    CRC_OUT_OF_RANGE,
                ] && *final(self) == *old(self)))
            },
    {
        let code = cmd[0];
        if code == CC_GET_ID {
            if cmd.len() < 2 {
                return resp_err(CRC_CMD_SYNTAX);
            }
            let kind = cmd[1];
            if kind == XCP_IDT_ASAM_UPLOAD {
                let n = self.id_payload.len();
                if n > 0xFFFF_FFFFusize {
                    return resp_err(CRC_OUT_OF_RANGE);
                }
                let mut staged: Vec<u8> = Vec::new();
                let mut k: usize = 0;
                while k < n
                    invariant
                        n == self.id_payload@.len(),
                        k <= n,
                        staged@ == self.id_payload@.subrange(0, k as int),
                    decreases n - k,
                {
                    staged.push(self.id_payload[k]);
                    proof {
                        assert(staged@ =~= self.id_payload@.subrange(0, k + 1 as int));
                    }
                    k += 1;
                }
                proof {
                    assert(staged@ =~= self.id_payload@);
                }
                self.upload_buf = staged;
                self.upload_from_id = true;
                self.upload_pos = 0;
                let n32 = n as u32;
                let mut r: Vec<u8> = Vec::new();
                r.push(0xFF);
                r.push(0x00);  // mode 0: data by upload
                r.push(0x00);
                r.push(0x00);
                r.push((n32 % 0x100) as u8);
                r.push(((n32 / 0x100) % 0x100) as u8);
                r.push(((n32 / 0x10000) % 0x100) as u8);
                r.push((n32 / 0x100_0000) as u8);
                return r;
            }
            if kind == XCP_IDT_ASCII || kind == XCP_IDT_ASAM_NAME || kind == XCP_IDT_ASAM_EPK {
                // the string travels in the response itself
                let text: &str = if kind == XCP_IDT_ASAM_EPK {
                    self.registry.application.get_version()
                } else {
                    self.registry.application.get_name()
                };
                let bytes = text.as_bytes();
                let n = bytes.len();
                if n > 0xFFFF {
                    return resp_err(CRC_OUT_OF_RANGE);
                }
                let n32 = n as u32;
                let mut r: Vec<u8> = Vec::new();
                r.push(0xFF);
                r.push(0x01);  // mode 1: data in this response
                r.push(0x00);
                r.push(0x00);
                r.push((n32 % 0x100) as u8);
                r.push(((n32 / 0x100) % 0x100) as u8);
                r.push(((n32 / 0x10000) % 0x100) as u8);
                r.push((n32 / 0x100_0000) as u8);
                let mut k: usize = 0;
                while k < n
                    invariant
                        n == bytes@.len(),
                        k <= n,
                        r@.len() == k + 8,
                        r@[0] == 0xFF,
                    decreases n - k,
                {
                    r.push(bytes[k]);
                    k += 1;
                }
                return r;
            }
            return resp_err(CRC_OUT_OF_RANGE);
        }
        if code == CC_SET_MTA {
            if cmd.len() < 8 {
                return resp_err(CRC_CMD_SYNTAX);
            }
            self.mta_ext = cmd[3];
            self.mta_addr = le32_at(cmd, 4);
            self.upload_from_id = false;
            return resp_ok();
        }
        if code == CC_UPLOAD {
            if cmd.len() < 2 {
                return resp_err(CRC_CMD_SYNTAX);
            }
            let n = cmd[1] as usize;
            if self.upload_from_id {
                if n > self.upload_buf.len() || self.upload_pos > self.upload_buf.len() - n {
                    return resp_err(CRC_OUT_OF_RANGE);
                }
                let mut r: Vec<u8> = Vec::new();
                r.push(0xFF);
                let start = self.upload_pos;
                let total = self.upload_buf.len();
                let mut k: usize = 0;
                while k < n
                    invariant
                        start + n <= total,
                        total == self.upload_buf@.len(),
                        k <= n,
                        r@.len() == k + 1,
                        r@[0] == 0xFF,
                        r@.subrange(1, r@.len() as int) == self.upload_buf@.subrange(
                            start as int,
                            start + k as int,
                        ),
                    decreases n - k,
                {
                    r.push(self.upload_buf[start + k]);
                    proof {
                        assert(r@.subrange(1, r@.len() as int) =~= self.upload_buf@.subrange(
                            start as int,
                            start + k + 1 as int,
                        ));
                    }
                    k += 1;
                }
                self.upload_pos = start + n;
                return r;
            }
            let ext = self.mta_ext;
            let addr = self.mta_addr;
            if addr > u32::MAX - (n as u32) {
                return resp_err(CRC_OUT_OF_RANGE);
            }
            match self.cmd_short_upload(ext, addr, n as u8) {
                Ok(bytes) => {
                    self.mta_addr = addr + (n as u32);
                    let mut r: Vec<u8> = Vec::new();
                    r.push(0xFF);
                    let m = bytes.len();
                    let mut k: usize = 0;
                    while k < m
                        invariant
                            m == bytes@.len(),
                            k <= m,
                            r@.len() == k + 1,
                            r@[0] == 0xFF,
                            r@.subrange(1, r@.len() as int) == bytes@.subrange(0, k as int),
                        decreases m - k,
                    {
                        r.push(bytes[k]);
                        proof {
                            assert(r@.subrange(1, r@.len() as int) =~= bytes@.subrange(
                                0,
                                k + 1 as int,
                            ));
                        }
                        k += 1;
                    }
                    proof {
                        assert(bytes@.subrange(0, m as int) =~= bytes@);
                    }
                    return r;
                },
                Err(e) => {
                    return resp_err(e);
                },
            }
        }
        if code == CC_SHORT_UPLOAD {
            if cmd.len() < 8 {
                return resp_err(CRC_CMD_SYNTAX);
            }
            let size = cmd[1];
            let ext = cmd[3];
            let addr = le32_at(cmd, 4);
            match self.cmd_short_upload(ext, addr, size) {
                Ok(bytes) => {
                    let mut r: Vec<u8> = Vec::new();
                    r.push(0xFF);
                    let m = bytes.len();
                    let mut k: usize = 0;
                    while k < m
                        invariant
                            m == bytes@.len(),
                            k <= m,
                            r@.len() == k + 1,
                            r@[0] == 0xFF,
                            r@.subrange(1, r@.len() as int) == bytes@.subrange(0, k as int),
                        decreases m - k,
                    {
                        r.push(bytes[k]);
                        proof {
                            assert(r@.subrange(1, r@.len() as int) =~= bytes@.subrange(
                                0,
                                k + 1 as int,
                            ));
                        }
                        k += 1;
                    }
                    proof {
                        assert(bytes@.subrange(0, m as int) =~= bytes@);
                    }
                    return r;
                },
                Err(e) => {
                    return resp_err(e);
                },
            }
        }
        if code == CC_SHORT_DOWNLOAD {
            if cmd.len() < 8 {
                return resp_err(CRC_CMD_SYNTAX);
            }
            let n = cmd[1] as usize;
            if cmd.len() < 8 + n {
                return resp_err(CRC_CMD_SYNTAX);
            }
            let ext = cmd[3];
            let addr = le32_at(cmd, 4);
            let clen = cmd.len();
            let mut data: Vec<u8> = Vec::new();
            let mut k: usize = 0;
            while k < n
                invariant
                    8 + n <= clen,
                    clen == cmd@.len(),
                    k <= n,
                    data@ == cmd@.subrange(8, 8 + k as int),
                decreases n - k,
            {
                data.push(cmd[8 + k]);
                proof {
                    assert(data@ =~= cmd@.subrange(8, 8 + k + 1 as int));
                }
                k += 1;
            }
            let c = self.cmd_short_download(ext, addr, data.as_slice());
            if c == 0xFF {
                return resp_ok();
            }
            return resp_err(c);
        }
        if code == CC_DOWNLOAD {
            if cmd.len() < 2 {
                return resp_err(CRC_CMD_SYNTAX);
            }
            let n = cmd[1] as usize;
            if cmd.len() < 2 + n {
                return resp_err(CRC_CMD_SYNTAX);
            }
            let clen = cmd.len();
            let mut data: Vec<u8> = Vec::new();
            let mut k: usize = 0;
            while k < n
                invariant
                    2 + n <= clen,
                    clen == cmd@.len(),
                    k <= n,
                    data@ == cmd@.subrange(2, 2 + k as int),
                decreases n - k,
            {
                data.push(cmd[2 + k]);
                proof {
                    assert(data@ =~= cmd@.subrange(2, 2 + k + 1 as int));
                }
                k += 1;
            }
            let ext = self.mta_ext;
            let addr = self.mta_addr;
            if addr > u32::MAX - (n as u32) {
                return resp_err(CRC_OUT_OF_RANGE);
            }
            let c = self.cmd_short_download(ext, addr, data.as_slice());
            if c == 0xFF {
                self.mta_addr = addr + (n as u32);
                return resp_ok();
            }
            return resp_err(c);
        }
        if code == CC_SET_CAL_PAGE {
            if cmd.len() < 4 {
                return resp_err(CRC_CMD_SYNTAX);
            }
            let c = self.cmd_set_cal_page(cmd[1], cmd[2] as u16, cmd[3]);
            proof {
                let pseg = cmd@[2] as u16;
                if (pseg as int) < old(self).segments@.len() {
                    assert(old(self).segments@[pseg as int].spec_index() == pseg);
                } else {
                    assert forall|i: int|
                        0 <= i < old(self).segments@.len() implies (#[trigger] old(self).segments@[i]).spec_index()
                        != pseg by {}
                }
            }
            if c == 0xFF {
                return resp_ok();
            }
            return resp_err(c);
        }
        if code == CC_GET_CAL_PAGE {
            if cmd.len() < 3 {
                return resp_err(CRC_CMD_SYNTAX);
            }
            match self.cmd_get_cal_page(cmd[1], cmd[2] as u16) {
                Ok(page) => {
                    let mut r: Vec<u8> = Vec::new();
                    r.push(0xFF);
                    r.push(0x00);
                    r.push(0x00);
                    r.push(page);
                    return r;
                },
                Err(e) => {
                    return resp_err(e);
                },
            }
        }
        if code == CC_USER {
            if cmd.len() < 2 {
                return resp_err(CRC_CMD_SYNTAX);
            }
            if cmd[1] == 1 {
                self.cmd_modify_begin();
                return resp_ok();
            }
            if cmd[1] == 2 {
                self.cmd_modify_end();
                return resp_ok();
            }
            return resp_err(CRC_OUT_OF_RANGE);
        }
        if code == CC_GET_PAGE_PROCESSOR_INFO {
            let n = self.segments.len();
            let max_segments: u8 = if n > 0xFF {
                0xFF
            } else {
                n as u8
            };
            let mut r: Vec<u8> = Vec::new();
            r.push(0xFF);
            r.push(max_segments);
            r.push(0x00);  // properties: freeze not supported
            return r;
        }
        if code == CC_GET_SEGMENT_INFO {
            if cmd.len() < 5 {
                return resp_err(CRC_CMD_SYNTAX);
            }
            let mode = cmd[1];
            let segment = cmd[2] as u16;
            let info = cmd[3];
            if mode != 0 || info > 2 {
                return resp_err(CRC_OUT_OF_RANGE);
            }
            let i = match self.seg_position(segment) {
                Some(i) => {
                    proof {
                        assert(self.segments@[i as int].spec_index() == i);
                    }
                    i
                },
                None => {
                    proof {
                        if (segment as int) < self.segments@.len() {
                            assert(self.segments@[segment as int].spec_index() == segment);
                        }
                    }
                    return resp_err(CRC_SEGMENT_NOT_VALID);
                },
            };
            let value: u32;
            if info == 0 {
                // the canonical segment relative base address
                let (_, base) = McAddress::get_calseg_ext_addr_base(segment);
                value = base;
            } else if info == 1 {
                let size = self.segments[i].size();
                if size > 0xFFFF_FFFFusize {
                    return resp_err(CRC_OUT_OF_RANGE);
                }
                value = size as u32;
            } else {
                // stage the name for UPLOAD and answer its length
                let name: Vec<u8> = {
                    let text = self.segments[i].get_name();
                    let bytes = text.as_bytes();
                    let m = bytes.len();
                    let mut v: Vec<u8> = Vec::new();
                    let mut k: usize = 0;
                    while k < m
                        invariant
                            m == bytes@.len(),
                            k <= m,
                            v@ == bytes@.subrange(0, k as int),
                        decreases m - k,
                    {
                        v.push(bytes[k]);
                        proof {
                            assert(v@ =~= bytes@.subrange(0, k + 1 as int));
                        }
                        k += 1;
                    }
                    v
                };
                if name.len() > 0xFF {
                    return resp_err(CRC_OUT_OF_RANGE);
                }
                value = name.len() as u32;
                self.upload_buf = name;
                self.upload_from_id = true;
                self.upload_pos = 0;
            }
            let mut r: Vec<u8> = Vec::new();
            r.push(0xFF);
            r.push(0x00);
            r.push(0x00);
            r.push(0x00);
            r.push((value % 0x100) as u8);
            r.push(((value / 0x100) % 0x100) as u8);
            r.push(((value / 0x10000) % 0x100) as u8);
            r.push((value / 0x100_0000) as u8);
            return r;
        }
        proof {
            assert(false);
        }
        resp_err(CRC_CMD_UNKNOWN)
    }

    /// Execute one DAQ-path command: list allocation and configuration,
    /// synchronized start and stop, clock and capability queries.
    #[verifier::rlimit(100)]
    #[verifier::spinoff_prover]
    fn dispatch_daq(&mut self, cmd: &[u8]) -> (r: Vec<u8>)
        requires
            old(self).wf(),
            old(self).connected,
            cmd@.len() >= 1,
            spec_is_daq_code(cmd@[0]),
        ensures
            final(self).wf(),
            final(self).segments@.len() == old(self).segments@.len(),
            final(self).registry == old(self).registry,
            final(self).ring == old(self).ring,
            final(self).clock == old(self).clock,
            final(self).max_cto == old(self).max_cto,
            final(self).max_dto == old(self).max_dto,
            final(self).connected == old(self).connected,
            final(self).segments@ == old(self).segments@,
            r@.len() >= 1,
            r@[0] == 0xFF || r@[0] == 0xFE,
            // FREE_DAQ clears the configuration
            cmd@.len() >= 1 && old(self).connected && cmd@[0] == CC_FREE_DAQ ==> r@ == seq![0xFFu8]
                && final(self).daq_lists@.len() == 0 && !final(self).daq_ptr_valid && final(self).segments@
                == old(self).segments@,
            // ALLOC_DAQ creates that many fresh lists
            cmd@.len() >= 4 && old(self).connected && cmd@[0] == CC_ALLOC_DAQ ==> {
                &&& (spec_le16(cmd@, 2) <= 1024 ==> r@ == seq![0xFFu8] && final(self).daq_lists@.len()
                    == spec_le16(cmd@, 2) && !final(self).daq_ptr_valid && (forall|d: int|
                    0 <= d < final(self).daq_lists@.len() ==> !(#[trigger] final(self).daq_lists@[d]).event_bound
                        && !final(self).daq_lists@[d].running && !final(self).daq_lists@[d].selected
                        && final(self).daq_lists@[d].entries@.len() == 0 && final(self).daq_lists@[d].payload_size
                        == 0))
                &&& (spec_le16(cmd@, 2) > 1024 ==> r@ == seq![0xFEu8, CRC_OUT_OF_RANGE] && final(self).daq_lists@
                    == old(self).daq_lists@)
                &&& final(self).segments@ == old(self).segments@
            },
            // ALLOC_ODT and ALLOC_ODT_ENTRY accept the single supported
            // layout and change nothing
            cmd@.len() >= 5 && old(self).connected && cmd@[0] == CC_ALLOC_ODT ==> *final(self)
                == *old(self) && (spec_le16(cmd@, 2) < old(self).daq_lists@.len() && cmd@[4] == 1
                ==> r@ == seq![0xFFu8]) && (!(spec_le16(cmd@, 2) < old(self).daq_lists@.len()
                && cmd@[4] == 1) ==> r@ == seq![0xFEu8, CRC_DAQ_CONFIG]),
            cmd@.len() >= 6 && old(self).connected && cmd@[0] == CC_ALLOC_ODT_ENTRY ==> *final(self)
                == *old(self) && (spec_le16(cmd@, 2) < old(self).daq_lists@.len() && cmd@[4] == 0
                ==> r@ == seq![0xFFu8]) && (!(spec_le16(cmd@, 2) < old(self).daq_lists@.len()
                && cmd@[4] == 0) ==> r@ == seq![0xFEu8, CRC_DAQ_CONFIG]),
            // SET_DAQ_PTR aims the entry writes at one list
            cmd@.len() >= 6 && old(self).connected && cmd@[0] == CC_SET_DAQ_PTR ==> {
                &&& (spec_le16(cmd@, 2) < old(self).daq_lists@.len() && cmd@[4] == 0 ==> r@ == seq![0xFFu8]
                    && final(self).daq_ptr_daq == spec_le16(cmd@, 2) && final(self).daq_ptr_valid)
                &&& (!(spec_le16(cmd@, 2) < old(self).daq_lists@.len() && cmd@[4] == 0) ==> r@ == seq![
                    0xFEu8,
                    CRC_DAQ_CONFIG,
                ] && !final(self).daq_ptr_valid)
                &&& final(self).daq_lists@ == old(self).daq_lists@
                &&& final(self).segments@ == old(self).segments@
            },
            // WRITE_DAQ appends one ODT entry at the pointer when it fits
            cmd@.len() >= 8 && old(self).connected && cmd@[0] == CC_WRITE_DAQ ==> {
                let ptr = old(self).daq_ptr_daq as int;
                &&& (!(old(self).daq_ptr_valid && ptr < old(self).daq_lists@.len()) ==> r@ == seq![
                    0xFEu8,
                    CRC_DAQ_CONFIG,
                ] && *final(self) == *old(self))
                &&& (old(self).daq_ptr_valid && ptr < old(self).daq_lists@.len() && old(self).daq_lists@[ptr].payload_size
                    + cmd@[2] > old(self).max_dto - 6 ==> r@ == seq![0xFEu8, CRC_DAQ_CONFIG] && *final(self)
                    == *old(self))
                &&& (old(self).daq_ptr_valid && ptr < old(self).daq_lists@.len() && old(self).daq_lists@[ptr].payload_size
                    + cmd@[2] <= old(self).max_dto - 6 ==> r@ == seq![0xFFu8] && final(self).daq_lists@.len()
                    == old(self).daq_lists@.len() && (forall|j: int|
                    0 <= j < old(self).daq_lists@.len() && j != ptr ==> #[trigger] final(self).daq_lists@[j]
                        == old(self).daq_lists@[j]) && final(self).daq_lists@[ptr].entries@ == old(self).daq_lists@[ptr].entries@.push(
                    OdtEntryCfg {
                        ext: cmd@[3],
                        addr: (spec_le32(cmd@, 4) as u32),
                        size: cmd@[2],
                    },
                ) && final(self).daq_lists@[ptr].payload_size == old(self).daq_lists@[ptr].payload_size
                    + cmd@[2] && final(self).daq_lists@[ptr].event_id == old(self).daq_lists@[ptr].event_id
                    && final(self).daq_lists@[ptr].event_bound == old(self).daq_lists@[ptr].event_bound
                    && final(self).daq_lists@[ptr].running == old(self).daq_lists@[ptr].running
                    && final(self).daq_lists@[ptr].selected == old(self).daq_lists@[ptr].selected)
                &&& final(self).segments@ == old(self).segments@
            },
            // SET_DAQ_LIST_MODE binds a list to a known event
            cmd@.len() >= 6 && old(self).connected && cmd@[0] == CC_SET_DAQ_LIST_MODE ==> {
                let daq = spec_le16(cmd@, 2);
                let ev = spec_le16(cmd@, 4) as u16;
                &&& (daq >= old(self).daq_lists@.len() ==> r@ == seq![0xFEu8, CRC_DAQ_CONFIG]
                    && *final(self) == *old(self))
                &&& (daq < old(self).daq_lists@.len() && (forall|i: int|
                    0 <= i < old(self).registry.event_list@.len() ==> #[trigger] old(self).registry.event_list@[i].id
                        != ev) ==> r@ == seq![0xFEu8, CRC_DAQ_CONFIG] && *final(self) == *old(self))
                &&& (daq < old(self).daq_lists@.len() && (exists|i: int|
                    0 <= i < old(self).registry.event_list@.len() && #[trigger] old(self).registry.event_list@[i].id
                        == ev) ==> r@ == seq![0xFFu8] && final(self).daq_lists@.len() == old(self).daq_lists@.len()
                    && (forall|j: int|
                    0 <= j < old(self).daq_lists@.len() && j != daq ==> #[trigger] final(self).daq_lists@[j]
                        == old(self).daq_lists@[j]) && final(self).daq_lists@[daq].event_id == ev
                    && final(self).daq_lists@[daq].event_bound && final(self).daq_lists@[daq].entries@
                    == old(self).daq_lists@[daq].entries@ && final(self).daq_lists@[daq].payload_size
                    == old(self).daq_lists@[daq].payload_size && final(self).daq_lists@[daq].running
                    == old(self).daq_lists@[daq].running && final(self).daq_lists@[daq].selected
                    == old(self).daq_lists@[daq].selected)
                &&& final(self).segments@ == old(self).segments@
            },
            // START_STOP_DAQ_LIST stops, starts or selects one list
            cmd@.len() >= 4 && old(self).connected && cmd@[0] == CC_START_STOP_DAQ_LIST ==> {
                let daq = spec_le16(cmd@, 2);
                &&& (daq >= old(self).daq_lists@.len() ==> r@ == seq![0xFEu8, CRC_DAQ_CONFIG]
                    && *final(self) == *old(self))
                &&& (daq < old(self).daq_lists@.len() && cmd@[1] > 2 ==> r@ == seq![
                    0xFEu8,
                    CRC_MODE_NOT_VALID,
                ] && *final(self) == *old(self))
                &&& (daq < old(self).daq_lists@.len() && cmd@[1] <= 2 ==> r@ == seq![0xFFu8] && final(self).daq_lists@.len()
                    == old(self).daq_lists@.len() && (forall|j: int|
                    0 <= j < old(self).daq_lists@.len() && j != daq ==> #[trigger] final(self).daq_lists@[j]
                        == old(self).daq_lists@[j]) && final(self).daq_lists@[daq].entries@ == old(self).daq_lists@[daq].entries@
                    && final(self).daq_lists@[daq].payload_size == old(self).daq_lists@[daq].payload_size
                    && final(self).daq_lists@[daq].event_id == old(self).daq_lists@[daq].event_id
                    && final(self).daq_lists@[daq].event_bound == old(self).daq_lists@[daq].event_bound
                    && (cmd@[1] == 0 ==> !final(self).daq_lists@[daq].running && final(self).daq_lists@[daq].selected
                        == old(self).daq_lists@[daq].selected) && (cmd@[1] == 1 ==> final(self).daq_lists@[daq].running
                        && final(self).daq_lists@[daq].selected == old(self).daq_lists@[daq].selected)
                    && (cmd@[1] == 2 ==> final(self).daq_lists@[daq].selected && final(self).daq_lists@[daq].running
                        == old(self).daq_lists@[daq].running))
                &&& final(self).segments@ == old(self).segments@
            },
            // START_STOP_SYNCH acts on the selected lists together
            cmd@.len() >= 2 && old(self).connected && cmd@[0] == CC_START_STOP_SYNCH ==> {
                &&& (cmd@[1] > 3 ==> r@ == seq![0xFEu8, CRC_MODE_NOT_VALID] && *final(self)
                    == *old(self))
                &&& (cmd@[1] == 0 ==> r@ == seq![0xFFu8] && final(self).daq_lists@.len() == old(self).daq_lists@.len()
                    && (forall|j: int|
                    0 <= j < old(self).daq_lists@.len() ==> !(#[trigger] final(self).daq_lists@[j]).running
                        && !final(self).daq_lists@[j].selected && final(self).daq_lists@[j].entries@
                        == old(self).daq_lists@[j].entries@ && final(self).daq_lists@[j].event_id
                        == old(self).daq_lists@[j].event_id && final(self).daq_lists@[j].event_bound
                        == old(self).daq_lists@[j].event_bound))
                &&& (cmd@[1] == 3 ==> r@ == seq![0xFFu8] && final(self).daq_lists@ == old(self).daq_lists@)
                &&& ((cmd@[1] == 1 || cmd@[1] == 2) ==> r@ == seq![0xFFu8] && final(self).daq_lists@.len()
                    == old(self).daq_lists@.len() && (forall|j: int|
                    0 <= j < old(self).daq_lists@.len() ==> {
                        &&& (#[trigger] final(self).daq_lists@[j]).entries@ == old(self).daq_lists@[j].entries@
                        &&& final(self).daq_lists@[j].event_id == old(self).daq_lists@[j].event_id
                        &&& final(self).daq_lists@[j].event_bound == old(self).daq_lists@[j].event_bound
                        &&& (old(self).daq_lists@[j].selected ==> final(self).daq_lists@[j].running
                            == (cmd@[1] == 1) && !final(self).daq_lists@[j].selected)
                        &&& (!old(self).daq_lists@[j].selected ==> final(self).daq_lists@[j].running
                            == old(self).daq_lists@[j].running && !final(self).daq_lists@[j].selected)
                    }))
                &&& final(self).segments@ == old(self).segments@
            },
            // GET_DAQ_CLOCK answers the 64-bit clock, little endian
            cmd@.len() >= 1 && old(self).connected && cmd@[0] == CC_GET_DAQ_CLOCK ==> {
                &&& *final(self) == *old(self)
                &&& r@.len() == 12
                &&& r@[0] == 0xFF
                &&& r@[3] == 0x02
                &&& r@[4] == old(self).clock % 0x100
                &&& r@[5] == (old(self).clock / 0x100) % 0x100
                &&& r@[6] == (old(self).clock / 0x10000) % 0x100
                &&& r@[7] == (old(self).clock / 0x100_0000) % 0x100
                &&& r@[8] == (old(self).clock / 0x1_0000_0000) % 0x100
                &&& r@[9] == (old(self).clock / 0x100_0000_0000) % 0x100
                &&& r@[10] == (old(self).clock / 0x1_0000_0000_0000) % 0x100
                &&& r@[11] == (old(self).clock / 0x100_0000_0000_0000) % 0x100
            },
            // the DAQ capability block pins the negotiated header size and
            // timestamp format
            cmd@.len() >= 1 && old(self).connected && cmd@[0] == CC_GET_DAQ_PROCESSOR_INFO ==> r@.len()
                == 8 && r@[1] == 0x50 && r@[7] == 0xC0,
            cmd@.len() >= 1 && old(self).connected && cmd@[0] == CC_GET_DAQ_RESOLUTION_INFO ==> r@.len()
                == 8 && r@[1] == 0x01 && r@[5] == 0x0C && r@[6] == 0x01 && r@[7] == 0x00,
            // GET_DAQ_EVENT_INFO stages the event name for UPLOAD
            cmd@.len() >= 4 && old(self).connected && cmd@[0] == CC_GET_DAQ_EVENT_INFO ==> {
                let ev = spec_le16(cmd@, 2) as u16;
                &&& ((forall|i: int|
                    0 <= i < old(self).registry.event_list@.len() ==> #[trigger] old(self).registry.event_list@[i].id
                        != ev) ==> r@ == seq![0xFEu8, CRC_OUT_OF_RANGE] && *final(self) == *old(self))
                &&& ((exists|i: int|
                    0 <= i < old(self).registry.event_list@.len() && #[trigger] old(self).registry.event_list@[i].id
                        == ev) ==> (r@.len() == 4 && r@[0] == 0xFF && r@[3] == final(self).upload_buf@.len()
                    && final(self).upload_from_id && final(self).upload_pos == 0 && final(self).segments@
                    == old(self).segments@ && final(self).daq_lists@ == old(self).daq_lists@) || (
                r@ == seq![0xFEu8, CRC_OUT_OF_RANGE] && *final(self) == *old(self)))
            },
            // the DAQ info queries change nothing
            cmd@.len() >= 1 && old(self).connected && (cmd@[0] == CC_GET_DAQ_PROCESSOR_INFO
                || cmd@[0] == CC_GET_DAQ_RESOLUTION_INFO) ==> r@[0] == 0xFF && *final(self)
                == *old(self),
    {
        let code = cmd[0];
        if code == CC_FREE_DAQ {
            self.daq_lists = Vec::new();
            self.daq_ptr_valid = false;
            return resp_ok();
        }
        if code == CC_ALLOC_DAQ {
            if cmd.len() < 4 {
                return resp_err(CRC_CMD_SYNTAX);
            }
            let count = le16_at(cmd, 2);
            if count > 1024 {
                return resp_err(CRC_OUT_OF_RANGE);
            }
            let mut lists: Vec<DaqList> = Vec::new();
            let mut k: u16 = 0;
            while k < count
                invariant
                    k <= count,
                    lists@.len() == k,
                    forall|d: int|
                        0 <= d < k ==> !(#[trigger] lists@[d]).event_bound
                            && !lists@[d].running && !lists@[d].selected
                            && lists@[d].entries@.len() == 0 && lists@[d].payload_size == 0,
                decreases count - k,
            {
                lists.push(DaqList::new());
                k += 1;
            }
            self.daq_lists = lists;
            self.daq_ptr_valid = false;
            return resp_ok();
        }
        if code == CC_ALLOC_ODT {
            if cmd.len() < 5 {
                return resp_err(CRC_CMD_SYNTAX);
            }
            let daq = le16_at(cmd, 2);
            let odt_count = cmd[4];
            if (daq as usize) >= self.daq_lists.len() || odt_count != 1 {
                return resp_err(CRC_DAQ_CONFIG);
            }
            return resp_ok();
        }
        if code == CC_ALLOC_ODT_ENTRY {
            if cmd.len() < 6 {
                return resp_err(CRC_CMD_SYNTAX);
            }
            let daq = le16_at(cmd, 2);
            let odt = cmd[4];
            if (daq as usize) >= self.daq_lists.len() || odt != 0 {
                return resp_err(CRC_DAQ_CONFIG);
            }
            return resp_ok();
        }
        if code == CC_SET_DAQ_PTR {
            if cmd.len() < 6 {
                return resp_err(CRC_CMD_SYNTAX);
            }
            let daq = le16_at(cmd, 2);
            let odt = cmd[4];
            if (daq as usize) >= self.daq_lists.len() || odt != 0 {
                self.daq_ptr_valid = false;
                return resp_err(CRC_DAQ_CONFIG);
            }
            self.daq_ptr_daq = daq;
            self.daq_ptr_valid = true;
            return resp_ok();
        }
        if code == CC_WRITE_DAQ {
            if cmd.len() < 8 {
                return resp_err(CRC_CMD_SYNTAX);
            }
            let size = cmd[2];
            let ext = cmd[3];
            let addr = le32_at(cmd, 4);
            if !self.daq_ptr_valid || (self.daq_ptr_daq as usize) >= self.daq_lists.len() {
                return resp_err(CRC_DAQ_CONFIG);
            }
            let i = self.daq_ptr_daq as usize;
            let mut l = self.daq_lists[i].clone();
            if (l.payload_size as u32) + (size as u32) > (self.max_dto as u32) - 6 {
                return resp_err(CRC_DAQ_CONFIG);
            }
            l.entries.push(OdtEntryCfg { ext, addr, size });
            l.payload_size = l.payload_size + (size as u16);
            self.set_daq_list(i, l);
            return resp_ok();
        }
        if code == CC_SET_DAQ_LIST_MODE {
            if cmd.len() < 6 {
                return resp_err(CRC_CMD_SYNTAX);
            }
            let daq = le16_at(cmd, 2);
            let event = le16_at(cmd, 4);
            if (daq as usize) >= self.daq_lists.len() {
                return resp_err(CRC_DAQ_CONFIG);
            }
            if self.registry.event_list.find_event_id(event).is_none() {
                return resp_err(CRC_DAQ_CONFIG);
            }
            let i = daq as usize;
            let mut l = self.daq_lists[i].clone();
            l.event_id = event;
            l.event_bound = true;
            self.set_daq_list(i, l);
            return resp_ok();
        }
        if code == CC_START_STOP_DAQ_LIST {
            if cmd.len() < 4 {
                return resp_err(CRC_CMD_SYNTAX);
            }
            let mode = cmd[1];
            let daq = le16_at(cmd, 2);
            if (daq as usize) >= self.daq_lists.len() {
                return resp_err(CRC_DAQ_CONFIG);
            }
            if mode > 2 {
                return resp_err(CRC_MODE_NOT_VALID);
            }
            let i = daq as usize;
            let mut l = self.daq_lists[i].clone();
            if mode == 0 {
                l.running = false;
            } else if mode == 1 {
                l.running = true;
            } else {
                l.selected = true;
            }
            self.set_daq_list(i, l);
            return resp_ok();
        }
        if code == CC_START_STOP_SYNCH {
            if cmd.len() < 2 {
                return resp_err(CRC_CMD_SYNTAX);
            }
            let mode = cmd[1];
            if mode > 3 {
                return resp_err(CRC_MODE_NOT_VALID);
            }
            if mode == 0 {
                self.stop_all_daq();
                return resp_ok();
            }
            if mode == 3 {
                // prepare: nothing to do in this engine
                return resp_ok();
            }
            let start = mode == 1;
            let n = self.daq_lists.len();
            let mut i: usize = 0;
            while i < n
                invariant
                    n == self.daq_lists@.len(),
                    n == old(self).daq_lists@.len(),
                    i <= n,
                    self.segments@ == old(self).segments@,
                    self.registry == old(self).registry,
                    self.ring == old(self).ring,
                    self.clock == old(self).clock,
                    self.max_cto == old(self).max_cto,
                    self.max_dto == old(self).max_dto,
                    self.connected == old(self).connected,
                    self.mta_ext == old(self).mta_ext,
                    self.mta_addr == old(self).mta_addr,
                    self.upload_from_id == old(self).upload_from_id,
                    self.upload_pos == old(self).upload_pos,
                    self.upload_buf == old(self).upload_buf,
                    self.id_payload == old(self).id_payload,
                    self.daq_ptr_daq == old(self).daq_ptr_daq,
                    self.daq_ptr_valid == old(self).daq_ptr_valid,
                    old(self).wf(),
                    forall|j: int| i <= j < n ==> #[trigger] self.daq_lists@[j] == old(self).daq_lists@[j],
                    forall|j: int|
                        0 <= j < i ==> {
                            &&& (#[trigger] self.daq_lists@[j]).event_id == old(self).daq_lists@[j].event_id
                            &&& self.daq_lists@[j].event_bound == old(self).daq_lists@[j].event_bound
                            &&& self.daq_lists@[j].entries@ == old(self).daq_lists@[j].entries@
                            &&& self.daq_lists@[j].payload_size == old(self).daq_lists@[j].payload_size
                            &&& !self.daq_lists@[j].selected
                            &&& self.daq_lists@[j].running == (if old(self).daq_lists@[j].selected {
                                start
                            } else {
                                old(self).daq_lists@[j].running
                            })
                            &&& self.daq_lists@[j].selected == (if old(self).daq_lists@[j].selected {
                                false
                            } else {
                                old(self).daq_lists@[j].selected
                            })
                        },
                decreases n - i,
            {
                let mut l = self.daq_lists.remove(i);
                if l.selected {
                    l.running = start;
                    l.selected = false;
                }
                self.daq_lists.insert(i, l);
                i += 1;
            }
            return resp_ok();
        }
        if code == CC_GET_DAQ_CLOCK {
            let mut r: Vec<u8> = Vec::new();
            r.push(0xFF);
            r.push(0x00);
            r.push(0x00);  // trigger info
            r.push(0x02);  // payload format: 64-bit server clock
            let t = self.clock;
            r.push((t % 0x100) as u8);
            r.push(((t / 0x100) % 0x100) as u8);
            r.push(((t / 0x10000) % 0x100) as u8);
            r.push(((t / 0x100_0000) % 0x100) as u8);
            r.push(((t / 0x1_0000_0000) % 0x100) as u8);
            r.push(((t / 0x100_0000_0000) % 0x100) as u8);
            r.push(((t / 0x1_0000_0000_0000) % 0x100) as u8);
            r.push(((t / 0x100_0000_0000_0000) % 0x100) as u8);
            return r;
        }
        if code == CC_GET_DAQ_PROCESSOR_INFO {
            let events = self.registry.event_list.len();
            let ev16: u16 = if events > 0xFFFF {
                0xFFFF
            } else {
                events as u16
            };
            let mut r: Vec<u8> = Vec::new();
            r.push(0xFF);
            r.push(0x50);  // daq properties: timestamps, dynamic configuration
            r.push(0x00);  // max daq, low (dynamic: currently allocated)
            r.push(0x04);  // max daq, high: 1024
            r.push((ev16 % 0x100) as u8);
            r.push((ev16 / 0x100) as u8);
            r.push(0x00);  // min daq
            r.push(0xC0);  // daq key byte: 4-byte header
            return r;
        }
        if code == CC_GET_DAQ_RESOLUTION_INFO {
            let mut r: Vec<u8> = Vec::new();
            r.push(0xFF);
            r.push(0x01);  // daq granularity: 1 byte
            let max_odt: u8 = if self.max_dto - 6 > 0xFF {
                0xFF
            } else {
                (self.max_dto - 6) as u8
            };
            r.push(max_odt);
            r.push(0x01);  // stim granularity
            r.push(0x00);  // stim max size
            r.push(0x0C);  // timestamps: 4 bytes, fixed, unit 1 ns
            r.push(0x01);  // ticks per unit, low
            r.push(0x00);  // ticks per unit, high
            return r;
        }
        if code == CC_GET_DAQ_EVENT_INFO {
            if cmd.len() < 4 {
                return resp_err(CRC_CMD_SYNTAX);
            }
            let event = le16_at(cmd, 2);
            let name: Vec<u8> = {
                let found = self.registry.event_list.find_event_id(event);
                match found {
                    Some(e) => {
                        let bytes = e.get_name().as_bytes();
                        let m = bytes.len();
                        let mut v: Vec<u8> = Vec::new();
                        let mut k: usize = 0;
                        while k < m
                            invariant
                                m == bytes@.len(),
                                k <= m,
                                v@ == bytes@.subrange(0, k as int),
                            decreases m - k,
                        {
                            v.push(bytes[k]);
                            proof {
                                assert(v@ =~= bytes@.subrange(0, k + 1 as int));
                            }
                            k += 1;
                        }
                        v
                    },
                    None => {
                        return resp_err(CRC_OUT_OF_RANGE);
                    },
                }
            };
            if name.len() > 0xFF {
                return resp_err(CRC_OUT_OF_RANGE);
            }
            let name_len = name.len() as u8;
            self.upload_buf = name;
            self.upload_from_id = true;
            self.upload_pos = 0;
            let mut r: Vec<u8> = Vec::new();
            r.push(0xFF);
            r.push(0x00);  // event properties
            r.push(0x01);  // instance count
            r.push(name_len);
            return r;
        }
        proof {
            assert(false);
        }
        resp_err(CRC_CMD_UNKNOWN)
    }

    /// Execute one command payload and return the response payload.
    ///
    /// An empty command fails `CRC_CMD_SYNTAX`. While disconnected,
    /// every command but CONNECT fails `CRC_CMD_UNKNOWN` without a state
    /// change; so does an unknown command while connected. CONNECT
    /// answers with the capability block carrying the transfer sizes;
    /// DISCONNECT stops every DAQ list and drops the session. The
    /// calibration and DAQ commands route through the engine methods of
    /// this server.
    #[verifier::rlimit(100)]
    #[verifier::spinoff_prover]
    pub fn process_command(&mut self, cmd: &[u8]) -> (r: Vec<u8>)
        requires
            old(self).wf(),
        ensures
            final(self).wf(),
            final(self).segments@.len() == old(self).segments@.len(),
            final(self).registry == old(self).registry,
            final(self).ring == old(self).ring,
            final(self).clock == old(self).clock,
            final(self).max_cto == old(self).max_cto,
            final(self).max_dto == old(self).max_dto,
            r@.len() >= 1,
            r@[0] == 0xFF || r@[0] == 0xFE,
            cmd@.len() == 0 ==> r@ == seq![0xFEu8, CRC_CMD_SYNTAX] && *final(self) == *old(self),
            cmd@.len() > 0 && !old(self).connected && cmd@[0] != CC_CONNECT ==> r@ == seq![
                0xFEu8,
                CRC_CMD_UNKNOWN,
            ] && *final(self) == *old(self),
            cmd@.len() > 0 && cmd@[0] == CC_CONNECT ==> final(self).connected && final(self).segments@ == old(self).segments@ && final(self).daq_lists@ == old(self).daq_lists@
                && r@.len() == 8 && r@[0] == 0xFF && r@[3] == old(self).max_cto && r@[4] == old(self).max_dto % 0x100 && r@[5] == old(self).max_dto / 0x100,
            cmd@.len() > 0 && old(self).connected && cmd@[0] == CC_DISCONNECT ==> !final(self).connected && r@ == seq![0xFFu8] && final(self).segments@ == old(self).segments@
                && final(self).daq_lists@.len() == old(self).daq_lists@.len() && (forall|i: int|
                0 <= i < final(self).daq_lists@.len() ==> !(
                #[trigger] final(self).daq_lists@[i]).running),
            cmd@.len() > 0 && old(self).connected && XcpCommand::spec_of_code(cmd@[0]) is None
                ==> r@ == seq![0xFEu8, CRC_CMD_UNKNOWN] && *final(self) == *old(self),
            cmd@.len() > 0 && old(self).connected && cmd@[0] == CC_SYNC ==> r@ == seq![
                0xFEu8,
                CRC_CMD_SYNCH,
            ] && *final(self) == *old(self),
            // SET_MTA places the transfer cursor and leaves staged uploads
            cmd@.len() >= 8 && old(self).connected && cmd@[0] == CC_SET_MTA ==> r@ == seq![0xFFu8]
                && final(self).mta_ext == cmd@[3] && final(self).mta_addr == spec_le32(cmd@, 4)
                && !final(self).upload_from_id && final(self).segments@ == old(self).segments@
                && final(self).daq_lists@ == old(self).daq_lists@,
            // SHORT_DOWNLOAD writes through the engine: accepted exactly
            // when the range lands in a known segment, and then the
            // segment state changes by exactly that splice
            cmd@.len() >= 8 && cmd@.len() >= 8 + cmd@[1] && old(self).connected && cmd@[0]
                == CC_SHORT_DOWNLOAD ==> {
                let wdata = cmd@.subrange(8, 8 + cmd@[1]);
                &&& (r@ == seq![0xFFu8] <==> old(self).spec_write_applicable(
                    cmd@[3],
                    (spec_le32(cmd@, 4) as u32),
                    cmd@[1] as int,
                ))
                &&& (r@ == seq![0xFFu8] ==> Self::spec_write_applied(
                    *old(self),
                    *final(self),
                    (spec_le32(cmd@, 4) as u32),
                    wdata,
                ))
                &&& (r@ != seq![0xFFu8] ==> r@ == seq![0xFEu8, CRC_ACCESS_DENIED] && final(self).segments@
                    == old(self).segments@)
                &&& final(self).daq_lists@ == old(self).daq_lists@
                &&& final(self).mta_ext == old(self).mta_ext
                &&& final(self).mta_addr == old(self).mta_addr
            },
            // SHORT_UPLOAD reads through the engine from the tool's page
            cmd@.len() >= 8 && old(self).connected && cmd@[0] == CC_SHORT_UPLOAD ==> {
                &&& (old(self).spec_read_ok(cmd@[3], (spec_le32(cmd@, 4) as u32), cmd@[1] as int)
                    ==> r@.len() == cmd@[1] + 1 && r@[0] == 0xFF && r@.subrange(1, r@.len() as int)
                    == old(self).spec_read_bytes((spec_le32(cmd@, 4) as u32), cmd@[1] as int))
                &&& (!old(self).spec_read_ok(
                    cmd@[3],
                    (spec_le32(cmd@, 4) as u32),
                    cmd@[1] as int,
                ) ==> r@ == seq![0xFEu8, CRC_ACCESS_DENIED])
                &&& *final(self) == *old(self)
            },
            // UPLOAD in staged mode serves the staged buffer byte for
            // byte and advances the read position
            cmd@.len() >= 2 && old(self).connected && cmd@[0] == CC_UPLOAD && old(self).upload_from_id ==> {
                &&& (old(self).upload_pos + cmd@[1] <= old(self).upload_buf@.len() ==> r@.len()
                    == cmd@[1] + 1 && r@[0] == 0xFF && r@.subrange(1, r@.len() as int) == old(self).upload_buf@.subrange(
                    old(self).upload_pos as int,
                    old(self).upload_pos + cmd@[1],
                ) && final(self).upload_pos == old(self).upload_pos + cmd@[1] && final(self).upload_buf
                    == old(self).upload_buf && final(self).upload_from_id && final(self).segments@
                    == old(self).segments@ && final(self).daq_lists@ == old(self).daq_lists@)
                &&& (old(self).upload_pos + cmd@[1] > old(self).upload_buf@.len() ==> r@ == seq![
                    0xFEu8,
                    CRC_OUT_OF_RANGE,
                ] && *final(self) == *old(self))
            },
            // UPLOAD at the transfer cursor reads through the engine and
            // advances the cursor
            cmd@.len() >= 2 && old(self).connected && cmd@[0] == CC_UPLOAD && !old(self).upload_from_id ==> {
                &&& (old(self).mta_addr + cmd@[1] > u32::MAX ==> r@ == seq![
                    0xFEu8,
                    CRC_OUT_OF_RANGE,
                ] && *final(self) == *old(self))
                &&& (old(self).mta_addr + cmd@[1] <= u32::MAX && old(self).spec_read_ok(
                    old(self).mta_ext,
                    old(self).mta_addr,
                    cmd@[1] as int,
                ) ==> r@.len() == cmd@[1] + 1 && r@[0] == 0xFF && r@.subrange(1, r@.len() as int)
                    == old(self).spec_read_bytes(old(self).mta_addr, cmd@[1] as int) && final(self).mta_addr
                    == old(self).mta_addr + cmd@[1] && final(self).segments@ == old(self).segments@
                    && final(self).daq_lists@ == old(self).daq_lists@)
                &&& (old(self).mta_addr + cmd@[1] <= u32::MAX && !old(self).spec_read_ok(
                    old(self).mta_ext,
                    old(self).mta_addr,
                    cmd@[1] as int,
                ) ==> r@ == seq![0xFEu8, CRC_ACCESS_DENIED] && *final(self) == *old(self))
            },
            // DOWNLOAD writes at the transfer cursor and advances it
            cmd@.len() >= 2 && cmd@.len() >= 2 + cmd@[1] && old(self).connected && cmd@[0]
                == CC_DOWNLOAD ==> {
                let wdata = cmd@.subrange(2, 2 + cmd@[1]);
                &&& (old(self).mta_addr + cmd@[1] > u32::MAX ==> r@ == seq![
                    0xFEu8,
                    CRC_OUT_OF_RANGE,
                ] && *final(self) == *old(self))
                &&& (old(self).mta_addr + cmd@[1] <= u32::MAX ==> {
                    &&& (r@ == seq![0xFFu8] <==> old(self).spec_write_applicable(
                        old(self).mta_ext,
                        old(self).mta_addr,
                        cmd@[1] as int,
                    ))
                    &&& (r@ == seq![0xFFu8] ==> Self::spec_write_applied(
                        *old(self),
                        *final(self),
                        old(self).mta_addr,
                        wdata,
                    ) && final(self).mta_addr == old(self).mta_addr + cmd@[1])
                    &&& (r@ != seq![0xFFu8] ==> r@ == seq![0xFEu8, CRC_ACCESS_DENIED] && final(self).segments@
                        == old(self).segments@ && final(self).mta_addr == old(self).mta_addr)
                })
                &&& final(self).daq_lists@ == old(self).daq_lists@
            },
            // SET_CAL_PAGE selects the visible pages
            cmd@.len() >= 4 && old(self).connected && cmd@[0] == CC_SET_CAL_PAGE ==> {
                let pmode = cmd@[1];
                let pseg = cmd@[2] as u16;
                let ppage = cmd@[3];
                &&& (ppage > 1 ==> r@ == seq![0xFEu8, CRC_PAGE_NOT_VALID] && final(self).segments@
                    == old(self).segments@)
                &&& (ppage <= 1 && (pmode & (CAL_PAGE_MODE_ECU | CAL_PAGE_MODE_XCP)) == 0 ==> r@
                    == seq![0xFEu8, CRC_MODE_NOT_VALID] && final(self).segments@ == old(self).segments@)
                &&& (ppage <= 1 && (pmode & (CAL_PAGE_MODE_ECU | CAL_PAGE_MODE_XCP)) != 0 && (pmode
                    & CAL_PAGE_MODE_ALL) == 0 && pseg >= old(self).segments@.len() ==> r@ == seq![
                    0xFEu8,
                    CRC_SEGMENT_NOT_VALID,
                ] && final(self).segments@ == old(self).segments@)
                &&& (ppage <= 1 && (pmode & (CAL_PAGE_MODE_ECU | CAL_PAGE_MODE_XCP)) != 0 && ((pmode
                    & CAL_PAGE_MODE_ALL) != 0 || pseg < old(self).segments@.len()) ==> r@ == seq![0xFFu8]
                    && (forall|i: int|
                    0 <= i < old(self).segments@.len() ==> {
                        let touched = (pmode & CAL_PAGE_MODE_ALL) != 0 || old(self).segments@[i].spec_index()
                            == pseg;
                        &&& (#[trigger] final(self).segments@[i]).working_bytes() == old(self).segments@[i].working_bytes()
                        &&& final(self).segments@[i].default_bytes() == old(self).segments@[i].default_bytes()
                        &&& final(self).segments@[i].shadow_bytes() == old(self).segments@[i].shadow_bytes()
                        &&& final(self).segments@[i].spec_index() == old(self).segments@[i].spec_index()
                        &&& final(self).segments@[i].spec_name() == old(self).segments@[i].spec_name()
                        &&& final(self).segments@[i].spec_ecu_page() == (if touched && (pmode
                            & CAL_PAGE_MODE_ECU) != 0 {
                            ppage
                        } else {
                            old(self).segments@[i].spec_ecu_page()
                        })
                        &&& final(self).segments@[i].spec_xcp_page() == (if touched && (pmode
                            & CAL_PAGE_MODE_XCP) != 0 {
                            ppage
                        } else {
                            old(self).segments@[i].spec_xcp_page()
                        })
                    }))
                &&& final(self).daq_lists@ == old(self).daq_lists@
            },
            // GET_CAL_PAGE reads a page selector and changes nothing
            cmd@.len() >= 3 && old(self).connected && cmd@[0] == CC_GET_CAL_PAGE ==> {
                let pmode = cmd@[1];
                let pseg = cmd@[2] as u16;
                &&& *final(self) == *old(self)
                &&& ((pmode & (CAL_PAGE_MODE_ECU | CAL_PAGE_MODE_XCP)) == 0 ==> r@ == seq![
                    0xFEu8,
                    CRC_MODE_NOT_VALID,
                ])
                &&& ((pmode & (CAL_PAGE_MODE_ECU | CAL_PAGE_MODE_XCP)) != 0 && pseg >= old(self).segments@.len()
                    ==> r@ == seq![0xFEu8, CRC_SEGMENT_NOT_VALID])
                &&& ((pmode & (CAL_PAGE_MODE_ECU | CAL_PAGE_MODE_XCP)) != 0 && pseg < old(self).segments@.len()
                    ==> r@ == seq![
                    0xFFu8,
                    0u8,
                    0u8,
                    (if (pmode & CAL_PAGE_MODE_ECU) != 0 {
                        old(self).segments@[pseg as int].spec_ecu_page()
                    } else {
                        old(self).segments@[pseg as int].spec_xcp_page()
                    }),
                ])
            },
            // USER 1 and 2 bracket a consistent write transaction on
            // every segment
            cmd@.len() >= 2 && old(self).connected && cmd@[0] == CC_USER && cmd@[1] == 1 ==> r@
                == seq![0xFFu8] && final(self).segments@.len() == old(self).segments@.len() && (forall|i: int|
                0 <= i < old(self).segments@.len() ==> {
                    &&& (#[trigger] final(self).segments@[i]).working_bytes() == old(self).segments@[i].working_bytes()
                    &&& final(self).segments@[i].ecu_bytes() == old(self).segments@[i].ecu_bytes()
                    &&& final(self).segments@[i].in_transaction()
                    &&& (!old(self).segments@[i].in_transaction() ==> final(self).segments@[i].shadow_bytes()
                        == Option::Some(old(self).segments@[i].working_bytes()))
                }) && final(self).daq_lists@ == old(self).daq_lists@,
            cmd@.len() >= 2 && old(self).connected && cmd@[0] == CC_USER && cmd@[1] == 2 ==> r@
                == seq![0xFFu8] && final(self).segments@.len() == old(self).segments@.len() && (forall|i: int|
                0 <= i < old(self).segments@.len() ==> {
                    &&& !(#[trigger] final(self).segments@[i]).in_transaction()
                    &&& (old(self).segments@[i].in_transaction() ==> final(self).segments@[i].working_bytes()
                        == old(self).segments@[i].shadow_bytes()->0)
                    &&& (!old(self).segments@[i].in_transaction() ==> final(self).segments@[i].working_bytes()
                        == old(self).segments@[i].working_bytes())
                }) && final(self).daq_lists@ == old(self).daq_lists@,
            // GET_ID kind 4 stages the description body for UPLOAD and
            // announces its size
            cmd@.len() >= 2 && old(self).connected && cmd@[0] == CC_GET_ID && cmd@[1]
                == XCP_IDT_ASAM_UPLOAD && old(self).id_payload@.len() <= 0xFFFF_FFFF ==> {
                &&& r@.len() == 8
                &&& r@[0] == 0xFF
                &&& r@[1] == 0x00
                &&& spec_le32(r@, 4) == old(self).id_payload@.len()
                &&& final(self).upload_buf@ == old(self).id_payload@
                &&& final(self).upload_from_id
                &&& final(self).upload_pos == 0
                &&& final(self).segments@ == old(self).segments@
                &&& final(self).daq_lists@ == old(self).daq_lists@
                &&& final(self).id_payload == old(self).id_payload
            },
            // FREE_DAQ clears the configuration
            cmd@.len() >= 1 && old(self).connected && cmd@[0] == CC_FREE_DAQ ==> r@ == seq![0xFFu8]
                && final(self).daq_lists@.len() == 0 && !final(self).daq_ptr_valid && final(self).segments@
                == old(self).segments@,
            // ALLOC_DAQ creates that many fresh lists
            cmd@.len() >= 4 && old(self).connected && cmd@[0] == CC_ALLOC_DAQ ==> {
                &&& (spec_le16(cmd@, 2) <= 1024 ==> r@ == seq![0xFFu8] && final(self).daq_lists@.len()
                    == spec_le16(cmd@, 2) && !final(self).daq_ptr_valid && (forall|d: int|
                    0 <= d < final(self).daq_lists@.len() ==> !(#[trigger] final(self).daq_lists@[d]).event_bound
                        && !final(self).daq_lists@[d].running && !final(self).daq_lists@[d].selected
                        && final(self).daq_lists@[d].entries@.len() == 0 && final(self).daq_lists@[d].payload_size
                        == 0))
                &&& (spec_le16(cmd@, 2) > 1024 ==> r@ == seq![0xFEu8, CRC_OUT_OF_RANGE] && final(self).daq_lists@
                    == old(self).daq_lists@)
                &&& final(self).segments@ == old(self).segments@
            },
            // SET_DAQ_PTR aims the entry writes at one list
            cmd@.len() >= 6 && old(self).connected && cmd@[0] == CC_SET_DAQ_PTR ==> {
                &&& (spec_le16(cmd@, 2) < old(self).daq_lists@.len() && cmd@[4] == 0 ==> r@ == seq![0xFFu8]
                    && final(self).daq_ptr_daq == spec_le16(cmd@, 2) && final(self).daq_ptr_valid)
                &&& (!(spec_le16(cmd@, 2) < old(self).daq_lists@.len() && cmd@[4] == 0) ==> r@ == seq![
                    0xFEu8,
                    CRC_DAQ_CONFIG,
                ] && !final(self).daq_ptr_valid)
                &&& final(self).daq_lists@ == old(self).daq_lists@
                &&& final(self).segments@ == old(self).segments@
            },
            // WRITE_DAQ appends one ODT entry at the pointer when it fits
            cmd@.len() >= 8 && old(self).connected && cmd@[0] == CC_WRITE_DAQ ==> {
                let ptr = old(self).daq_ptr_daq as int;
                &&& (!(old(self).daq_ptr_valid && ptr < old(self).daq_lists@.len()) ==> r@ == seq![
                    0xFEu8,
                    CRC_DAQ_CONFIG,
                ] && *final(self) == *old(self))
                &&& (old(self).daq_ptr_valid && ptr < old(self).daq_lists@.len() && old(self).daq_lists@[ptr].payload_size
                    + cmd@[2] > old(self).max_dto - 6 ==> r@ == seq![0xFEu8, CRC_DAQ_CONFIG] && *final(self)
                    == *old(self))
                &&& (old(self).daq_ptr_valid && ptr < old(self).daq_lists@.len() && old(self).daq_lists@[ptr].payload_size
                    + cmd@[2] <= old(self).max_dto - 6 ==> r@ == seq![0xFFu8] && final(self).daq_lists@.len()
                    == old(self).daq_lists@.len() && (forall|j: int|
                    0 <= j < old(self).daq_lists@.len() && j != ptr ==> #[trigger] final(self).daq_lists@[j]
                        == old(self).daq_lists@[j]) && final(self).daq_lists@[ptr].entries@ == old(self).daq_lists@[ptr].entries@.push(
                    OdtEntryCfg {
                        ext: cmd@[3],
                        addr: (spec_le32(cmd@, 4) as u32),
                        size: cmd@[2],
                    },
                ) && final(self).daq_lists@[ptr].payload_size == old(self).daq_lists@[ptr].payload_size
                    + cmd@[2] && final(self).daq_lists@[ptr].event_id == old(self).daq_lists@[ptr].event_id
                    && final(self).daq_lists@[ptr].event_bound == old(self).daq_lists@[ptr].event_bound
                    && final(self).daq_lists@[ptr].running == old(self).daq_lists@[ptr].running
                    && final(self).daq_lists@[ptr].selected == old(self).daq_lists@[ptr].selected)
                &&& final(self).segments@ == old(self).segments@
            },
            // SET_DAQ_LIST_MODE binds a list to a known event
            cmd@.len() >= 6 && old(self).connected && cmd@[0] == CC_SET_DAQ_LIST_MODE ==> {
                let daq = spec_le16(cmd@, 2);
                let ev = spec_le16(cmd@, 4) as u16;
                &&& (daq >= old(self).daq_lists@.len() ==> r@ == seq![0xFEu8, CRC_DAQ_CONFIG]
                    && *final(self) == *old(self))
                &&& (daq < old(self).daq_lists@.len() && (forall|i: int|
                    0 <= i < old(self).registry.event_list@.len() ==> #[trigger] old(self).registry.event_list@[i].id
                        != ev) ==> r@ == seq![0xFEu8, CRC_DAQ_CONFIG] && *final(self) == *old(self))
                &&& (daq < old(self).daq_lists@.len() && (exists|i: int|
                    0 <= i < old(self).registry.event_list@.len() && #[trigger] old(self).registry.event_list@[i].id
                        == ev) ==> r@ == seq![0xFFu8] && final(self).daq_lists@.len() == old(self).daq_lists@.len()
                    && (forall|j: int|
                    0 <= j < old(self).daq_lists@.len() && j != daq ==> #[trigger] final(self).daq_lists@[j]
                        == old(self).daq_lists@[j]) && final(self).daq_lists@[daq].event_id == ev
                    && final(self).daq_lists@[daq].event_bound && final(self).daq_lists@[daq].entries@
                    == old(self).daq_lists@[daq].entries@ && final(self).daq_lists@[daq].payload_size
                    == old(self).daq_lists@[daq].payload_size && final(self).daq_lists@[daq].running
                    == old(self).daq_lists@[daq].running && final(self).daq_lists@[daq].selected
                    == old(self).daq_lists@[daq].selected)
                &&& final(self).segments@ == old(self).segments@
            },
            // START_STOP_DAQ_LIST stops, starts or selects one list
            cmd@.len() >= 4 && old(self).connected && cmd@[0] == CC_START_STOP_DAQ_LIST ==> {
                let daq = spec_le16(cmd@, 2);
                &&& (daq >= old(self).daq_lists@.len() ==> r@ == seq![0xFEu8, CRC_DAQ_CONFIG]
                    && *final(self) == *old(self))
                &&& (daq < old(self).daq_lists@.len() && cmd@[1] > 2 ==> r@ == seq![
                    0xFEu8,
                    CRC_MODE_NOT_VALID,
                ] && *final(self) == *old(self))
                &&& (daq < old(self).daq_lists@.len() && cmd@[1] <= 2 ==> r@ == seq![0xFFu8] && final(self).daq_lists@.len()
                    == old(self).daq_lists@.len() && (forall|j: int|
                    0 <= j < old(self).daq_lists@.len() && j != daq ==> #[trigger] final(self).daq_lists@[j]
                        == old(self).daq_lists@[j]) && final(self).daq_lists@[daq].entries@ == old(self).daq_lists@[daq].entries@
                    && final(self).daq_lists@[daq].payload_size == old(self).daq_lists@[daq].payload_size
                    && final(self).daq_lists@[daq].event_id == old(self).daq_lists@[daq].event_id
                    && final(self).daq_lists@[daq].event_bound == old(self).daq_lists@[daq].event_bound
                    && (cmd@[1] == 0 ==> !final(self).daq_lists@[daq].running && final(self).daq_lists@[daq].selected
                        == old(self).daq_lists@[daq].selected) && (cmd@[1] == 1 ==> final(self).daq_lists@[daq].running
                        && final(self).daq_lists@[daq].selected == old(self).daq_lists@[daq].selected)
                    && (cmd@[1] == 2 ==> final(self).daq_lists@[daq].selected && final(self).daq_lists@[daq].running
                        == old(self).daq_lists@[daq].running))
                &&& final(self).segments@ == old(self).segments@
            },
            // START_STOP_SYNCH acts on the selected lists together
            cmd@.len() >= 2 && old(self).connected && cmd@[0] == CC_START_STOP_SYNCH ==> {
                &&& (cmd@[1] > 3 ==> r@ == seq![0xFEu8, CRC_MODE_NOT_VALID] && *final(self)
                    == *old(self))
                &&& (cmd@[1] == 0 ==> r@ == seq![0xFFu8] && final(self).daq_lists@.len() == old(self).daq_lists@.len()
                    && (forall|j: int|
                    0 <= j < old(self).daq_lists@.len() ==> !(#[trigger] final(self).daq_lists@[j]).running
                        && !final(self).daq_lists@[j].selected && final(self).daq_lists@[j].entries@
                        == old(self).daq_lists@[j].entries@ && final(self).daq_lists@[j].event_id
                        == old(self).daq_lists@[j].event_id && final(self).daq_lists@[j].event_bound
                        == old(self).daq_lists@[j].event_bound))
                &&& (cmd@[1] == 3 ==> r@ == seq![0xFFu8] && final(self).daq_lists@ == old(self).daq_lists@)
                &&& ((cmd@[1] == 1 || cmd@[1] == 2) ==> r@ == seq![0xFFu8] && final(self).daq_lists@.len()
                    == old(self).daq_lists@.len() && (forall|j: int|
                    0 <= j < old(self).daq_lists@.len() ==> {
                        &&& (#[trigger] final(self).daq_lists@[j]).entries@ == old(self).daq_lists@[j].entries@
                        &&& final(self).daq_lists@[j].event_id == old(self).daq_lists@[j].event_id
                        &&& final(self).daq_lists@[j].event_bound == old(self).daq_lists@[j].event_bound
                        &&& (old(self).daq_lists@[j].selected ==> final(self).daq_lists@[j].running
                            == (cmd@[1] == 1) && !final(self).daq_lists@[j].selected)
                        &&& (!old(self).daq_lists@[j].selected ==> final(self).daq_lists@[j].running
                            == old(self).daq_lists@[j].running && !final(self).daq_lists@[j].selected)
                    }))
                &&& final(self).segments@ == old(self).segments@
            },
            // GET_DAQ_CLOCK answers the 64-bit clock, little endian
            cmd@.len() >= 1 && old(self).connected && cmd@[0] == CC_GET_DAQ_CLOCK ==> {
                &&& *final(self) == *old(self)
                &&& r@.len() == 12
                &&& r@[0] == 0xFF
                &&& r@[3] == 0x02
                &&& r@[4] == old(self).clock % 0x100
                &&& r@[5] == (old(self).clock / 0x100) % 0x100
                &&& r@[6] == (old(self).clock / 0x10000) % 0x100
                &&& r@[7] == (old(self).clock / 0x100_0000) % 0x100
                &&& r@[8] == (old(self).clock / 0x1_0000_0000) % 0x100
                &&& r@[9] == (old(self).clock / 0x100_0000_0000) % 0x100
                &&& r@[10] == (old(self).clock / 0x1_0000_0000_0000) % 0x100
                &&& r@[11] == (old(self).clock / 0x100_0000_0000_0000) % 0x100
            },
            // the info commands answer positively and change nothing
            cmd@.len() >= 1 && old(self).connected && (cmd@[0] == CC_NOP || cmd@[0]
                == CC_TIME_CORRELATION_PROPERTIES || cmd@[0] == CC_GET_VERSION || cmd@[0]
                == CC_GET_COMM_MODE_INFO || cmd@[0] == CC_GET_PAGE_PROCESSOR_INFO || cmd@[0]
                == CC_GET_DAQ_PROCESSOR_INFO || cmd@[0] == CC_GET_DAQ_RESOLUTION_INFO) ==> r@[0]
                == 0xFF && *final(self) == *old(self),
            // the DAQ capability block pins the negotiated header size and
            // timestamp format
            cmd@.len() >= 1 && old(self).connected && cmd@[0] == CC_GET_DAQ_PROCESSOR_INFO ==> r@.len()
                == 8 && r@[1] == 0x50 && r@[7] == 0xC0,
            cmd@.len() >= 1 && old(self).connected && cmd@[0] == CC_GET_DAQ_RESOLUTION_INFO ==> r@.len()
                == 8 && r@[1] == 0x01 && r@[5] == 0x0C && r@[6] == 0x01 && r@[7] == 0x00,
            // GET_PAGE_PROCESSOR_INFO reports the segment count
            cmd@.len() >= 1 && old(self).connected && cmd@[0] == CC_GET_PAGE_PROCESSOR_INFO ==> r@[0]
                == 0xFF && r@.len() == 3 && *final(self) == *old(self),
            // GET_SEGMENT_INFO answers the base address or length of a
            // segment, or stages its name for UPLOAD
            cmd@.len() >= 5 && old(self).connected && cmd@[0] == CC_GET_SEGMENT_INFO && cmd@[1]
                == 0 && cmd@[3] <= 2 ==> {
                let pseg = cmd@[2] as u16;
                &&& (pseg >= old(self).segments@.len() ==> r@ == seq![0xFEu8, CRC_SEGMENT_NOT_VALID]
                    && *final(self) == *old(self))
                &&& (pseg < old(self).segments@.len() && cmd@[3] == 0 ==> r@.len() == 8 && r@[0]
                    == 0xFF && spec_le32(r@, 4) == 0x8000_0000 + (pseg as int) * 0x10000 && *final(self)
                    == *old(self))
                &&& (pseg < old(self).segments@.len() && cmd@[3] == 1 && old(self).segments@[pseg as int].default_bytes().len()
                    <= 0xFFFF_FFFF ==> r@.len() == 8 && r@[0] == 0xFF && spec_le32(r@, 4) == old(self).segments@[pseg as int].default_bytes().len()
                    && *final(self) == *old(self))
                &&& (pseg < old(self).segments@.len() && cmd@[3] == 2 ==> (r@.len() == 8 && r@[0]
                    == 0xFF && spec_le32(r@, 4) == final(self).upload_buf@.len() && final(self).upload_from_id
                    && final(self).upload_pos == 0 && final(self).segments@ == old(self).segments@
                    && final(self).daq_lists@ == old(self).daq_lists@) || (r@ == seq![
                    0xFEu8,
                    CRC_OUT_OF_RANGE,
                ] && *final(self) == *old(self)))
            },
            // ALLOC_ODT and ALLOC_ODT_ENTRY accept the single supported
            // layout and change nothing
            cmd@.len() >= 5 && old(self).connected && cmd@[0] == CC_ALLOC_ODT ==> *final(self)
                == *old(self) && (spec_le16(cmd@, 2) < old(self).daq_lists@.len() && cmd@[4] == 1
                ==> r@ == seq![0xFFu8]) && (!(spec_le16(cmd@, 2) < old(self).daq_lists@.len()
                && cmd@[4] == 1) ==> r@ == seq![0xFEu8, CRC_DAQ_CONFIG]),
            cmd@.len() >= 6 && old(self).connected && cmd@[0] == CC_ALLOC_ODT_ENTRY ==> *final(self)
                == *old(self) && (spec_le16(cmd@, 2) < old(self).daq_lists@.len() && cmd@[4] == 0
                ==> r@ == seq![0xFFu8]) && (!(spec_le16(cmd@, 2) < old(self).daq_lists@.len()
                && cmd@[4] == 0) ==> r@ == seq![0xFEu8, CRC_DAQ_CONFIG]),
            // GET_DAQ_EVENT_INFO stages the event name for UPLOAD
            cmd@.len() >= 4 && old(self).connected && cmd@[0] == CC_GET_DAQ_EVENT_INFO ==> {
                let ev = spec_le16(cmd@, 2) as u16;
                &&& ((forall|i: int|
                    0 <= i < old(self).registry.event_list@.len() ==> #[trigger] old(self).registry.event_list@[i].id
                        != ev) ==> r@ == seq![0xFEu8, CRC_OUT_OF_RANGE] && *final(self) == *old(self))
                &&& ((exists|i: int|
                    0 <= i < old(self).registry.event_list@.len() && #[trigger] old(self).registry.event_list@[i].id
                        == ev) ==> (r@.len() == 4 && r@[0] == 0xFF && r@[3] == final(self).upload_buf@.len()
                    && final(self).upload_from_id && final(self).upload_pos == 0 && final(self).segments@
                    == old(self).segments@ && final(self).daq_lists@ == old(self).daq_lists@) || (
                r@ == seq![0xFEu8, CRC_OUT_OF_RANGE] && *final(self) == *old(self)))
            },
    {
        if cmd.len() == 0 {
            return resp_err(CRC_CMD_SYNTAX);
        }
        let code = cmd[0];
        if !self.connected && code != CC_CONNECT {
            return resp_err(CRC_CMD_UNKNOWN);
        }
        if code == CC_CONNECT {
            self.connected = true;
            let mut r: Vec<u8> = Vec::new();
            r.push(0xFF);
            r.push(0x05);  // resources: CAL and DAQ
            r.push(0x00);  // comm mode basic: little endian, granularity 1
            r.push(self.max_cto);
            r.push((self.max_dto % 0x100) as u8);
            r.push((self.max_dto / 0x100) as u8);
            r.push(0x01);  // protocol layer version
            r.push(0x01);  // transport layer version
            proof {
                assert(r@.len() == 8 && r@[0] == 0xFF && r@[3] == self.max_cto && r@[4]
                    == self.max_dto % 0x100 && r@[5] == self.max_dto / 0x100);
            }
            return r;
        }
        if code == CC_DISCONNECT {
            self.stop_all_daq();
            self.connected = false;
            return resp_ok();
        }
        if code == CC_SYNC {
            return resp_err(CRC_CMD_SYNCH);
        }
        if code == CC_NOP || code == CC_TIME_CORRELATION_PROPERTIES {
            return resp_ok();
        }
        if code == CC_GET_VERSION {
            let mut r: Vec<u8> = Vec::new();
            r.push(0xFF);
            r.push(0x00);
            r.push(0x01);  // protocol version, major
            r.push(0x04);  // protocol version, minor
            r.push(0x01);  // transport version, major
            r.push(0x04);  // transport version, minor
            return r;
        }
        if is_cal_code(code) {
            return self.dispatch_cal(cmd);
        }
        if is_daq_code(code) {
            return self.dispatch_daq(cmd);
        }
        if code == CC_GET_COMM_MODE_INFO {
            let mut r: Vec<u8> = Vec::new();
            r.push(0xFF);
            r.push(0x00);
            r.push(0x00);  // no optional communication modes
            r.push(0x00);
            r.push(0x00);
            r.push(0x00);
            r.push(0x00);
            r.push(0x01);  // driver version
            return r;
        }
        resp_err(CRC_CMD_UNKNOWN)
    }
}

/// Extending the sampled prefix by one entry appends that entry's bytes.
proof fn lemma_entries_payload_snoc(entries: Seq<OdtEntryCfg>, k: int, base: Seq<u8>)
    requires
        0 <= k < entries.len(),
    ensures
        entries_payload(entries.subrange(0, k + 1), base) == entries_payload(
            entries.subrange(0, k),
            base,
        ) + entry_bytes(entries[k], base),
    decreases k,
{
    if k == 0 {
        assert(entries.subrange(0, 1) =~= seq![entries[0]]);
        assert(entries.subrange(0, 0) =~= Seq::<OdtEntryCfg>::empty());
        assert(entries_payload(seq![entries[0]], base) == entry_bytes(entries[0], base)
            + entries_payload(seq![entries[0]].drop_first(), base));
        assert(seq![entries[0]].drop_first() =~= Seq::<OdtEntryCfg>::empty());
        assert(entries_payload(entries.subrange(0, 1), base) =~= entries_payload(
            entries.subrange(0, 0),
            base,
        ) + entry_bytes(entries[0], base));
    } else {
        lemma_entries_payload_snoc(entries.drop_first(), k - 1, base);
        assert(entries.drop_first().subrange(0, k) =~= entries.subrange(0, k + 1).drop_first());
        assert(entries.drop_first().subrange(0, k - 1) =~= entries.subrange(0, k).drop_first());
        assert(entries.drop_first()[k - 1] == entries[k]);
        assert(entries.subrange(0, k + 1)[0] == entries[0]);
        assert(entries.subrange(0, k)[0] == entries[0]);
        assert(entries_payload(entries.subrange(0, k + 1), base) == entry_bytes(entries[0], base)
            + entries_payload(entries.subrange(0, k + 1).drop_first(), base));
        assert(entries_payload(entries.subrange(0, k), base) == entry_bytes(entries[0], base)
            + entries_payload(entries.subrange(0, k).drop_first(), base));
        assert(entries_payload(entries.subrange(0, k + 1), base) =~= entries_payload(
            entries.subrange(0, k),
            base,
        ) + entry_bytes(entries[k], base));
    }
}

} // verus!
