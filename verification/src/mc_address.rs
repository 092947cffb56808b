//! Address model of measurement and calibration objects.
//!
//! Every object location is expressed in one of four concrete addressing
//! modes (segment relative, absolute, dynamic, event relative) or carried
//! opaquely as an imported wire address. `get_a2l_addr` centralizes the
//! conversion to the 40-bit `(ext, addr)` pair used on the wire:
//!
//! * ext 0, address high bit set: segment relative, `((index | 0x8000) << 16) | offset`
//! * ext 1: absolute
//! * ext 2..17: dynamic, event id in the high 16 bits, signed offset below
//! * ext 3: event relative (synchronous read only)

use vstd::prelude::*;

use crate::ident::McIdentifier;
use crate::mc_registry::Registry;

verus! {

/// Addressing mode of an `McAddress`.
#[derive(Debug, Copy, Clone, PartialEq, Eq, Structural)]
pub enum McAddrMode {
    /// Calibration segment relative addressing.
    Cal,
    /// Absolute addressing.
    Abs,
    /// Dynamic addressing (asynchronous access via a capture buffer).
    Dyn,
    /// Event relative addressing.
    Rel,
    /// Generic imported wire address.
    A2l,
    /// Imported wire address with an event association.
    A2lEvent,
    /// Undefined addressing mode.
    Undef,
}

impl Default for McAddrMode {
    fn default() -> (r: Self)
        ensures
            r == McAddrMode::Cal,
    {
        McAddrMode::Cal
    }
}

impl McAddrMode {
    /// True for the segment relative mode.
    pub fn is_segment_relative(&self) -> (r: bool)
        ensures
            r == (*self is Cal),
    {
        matches!(self, McAddrMode::Cal)
    }

    /// True for the two event relative modes.
    pub fn is_event_relative(&self) -> (r: bool)
        ensures
            r == (*self is Rel || *self is Dyn),
    {
        matches!(self, McAddrMode::Rel | McAddrMode::Dyn)
    }

    /// True for the two imported wire address modes.
    pub fn is_a2l(&self) -> (r: bool)
        ensures
            r == (*self is A2l || *self is A2lEvent),
    {
        matches!(self, McAddrMode::A2l | McAddrMode::A2lEvent)
    }

    /// Numeric tag of the mode.
    pub open spec fn spec_u8(&self) -> u8 {
        match self {
            McAddrMode::Cal => 0,
            McAddrMode::Abs => 1,
            McAddrMode::Dyn => 2,
            McAddrMode::Rel => 3,
            McAddrMode::A2l => 0xA0,
            McAddrMode::A2lEvent => 0xA1,
            McAddrMode::Undef => 0xFF,
        }
    }

    /// Numeric tag of the mode, as stored in serialized descriptions.
    pub fn as_u8(&self) -> (r: u8)
        ensures
            r == self.spec_u8(),
    {
        match self {
            McAddrMode::Cal => 0,
            McAddrMode::Abs => 1,
            McAddrMode::Dyn => 2,
            McAddrMode::Rel => 3,
            McAddrMode::A2l => 0xA0,
            McAddrMode::A2lEvent => 0xA1,
            McAddrMode::Undef => 0xFF,
        }
    }
}

/// Value of a 32-bit wire address after adding a signed offset with
/// wrap-around.
pub open spec fn wrap_add_u32(a: u32, d: i32) -> int {
    if a + d > u32::MAX {
        a + d - 0x1_0000_0000
    } else if a + d < 0 {
        a + d + 0x1_0000_0000
    } else {
        a + d
    }
}

/// The low 16 bits of a signed 16-bit offset, as carried on the wire
/// (two's complement).
pub open spec fn wire_u16_of_i16(x: i16) -> int {
    if x >= 0 {
        x as int
    } else {
        x + 0x10000
    }
}

/// The low 32 bits of a signed 32-bit offset, as carried on the wire
/// (two's complement).
pub open spec fn wire_u32_of_i32(x: i32) -> int {
    if x >= 0 {
        x as int
    } else {
        x + 0x1_0000_0000
    }
}

/// Abstract value of an `McAddress`: the fields with names lifted to
/// character sequences.
pub ghost struct McAddressV {
    pub calseg_name: Option<Seq<char>>,
    pub event_id: Option<u16>,
    pub addr_offset: i32,
    pub addr_mode: McAddrMode,
    pub a2l_addr: u32,
    pub a2l_addr_ext: u8,
}

/// Location of one measurement or calibration object.
#[derive(Debug, PartialEq)]
pub struct McAddress {
    calseg_name: Option<McIdentifier>,
    event_id: Option<u16>,
    addr_offset: i32,
    addr_mode: McAddrMode,
    a2l_addr: u32,
    a2l_addr_ext: u8,
}

impl View for McAddress {
    type V = McAddressV;

    closed spec fn view(&self) -> McAddressV {
        McAddressV {
            calseg_name: match self.calseg_name {
                Option::Some(n) => Option::Some(n@),
                Option::None => Option::None,
            },
            event_id: self.event_id,
            addr_offset: self.addr_offset,
            addr_mode: self.addr_mode,
            a2l_addr: self.a2l_addr,
            a2l_addr_ext: self.a2l_addr_ext,
        }
    }
}

impl Clone for McAddress {
    fn clone(&self) -> (r: Self)
        ensures
            r == *self,
    {
        McAddress {
            calseg_name: match &self.calseg_name {
                Some(n) => Some(n.clone()),
                None => None,
            },
            event_id: self.event_id,
            addr_offset: self.addr_offset,
            addr_mode: self.addr_mode,
            a2l_addr: self.a2l_addr,
            a2l_addr_ext: self.a2l_addr_ext,
        }
    }
}

impl Default for McAddress {
    fn default() -> (r: Self)
        ensures
            r@.calseg_name is None,
            r@.event_id is None,
            r@.addr_offset == McAddress::XCP_ADDR_OFFSET_UNDEF,
            r@.addr_mode == McAddrMode::Cal,
            r@.a2l_addr == 0,
            r@.a2l_addr_ext == 0,
    {
        McAddress {
            calseg_name: None,
            event_id: None,
            addr_offset: McAddress::XCP_ADDR_OFFSET_UNDEF,
            addr_mode: McAddrMode::Cal,
            a2l_addr: 0,
            a2l_addr_ext: 0,
        }
    }
}

impl McAddress {
    /// Wire address extension for calibration segment relative addresses.
    pub const XCP_ADDR_EXT_SEG: u8 = 0;

    /// Wire address extension for absolute addresses.
    pub const XCP_ADDR_EXT_ABS: u8 = 1;

    /// First wire address extension for dynamic addresses.
    pub const XCP_ADDR_EXT_DYN: u8 = 2;

    /// Wire address extension for event relative addresses.
    pub const XCP_ADDR_EXT_REL: u8 = 3;

    /// Marker for an undefined address extension.
    pub const XCP_ADDR_EXT_UNDEF: u8 = 0xFF;

    /// Marker for an undefined address offset.
    pub const XCP_ADDR_OFFSET_UNDEF: i32 = i32::MIN;

    /// Segment relative address: offset within the named calibration segment.
    pub fn new_calseg_rel(calseg_name: &str, addr_offset: i32) -> (r: Self)
        ensures
            r@.calseg_name == Option::Some(calseg_name@),
            r@.event_id is None,
            r@.addr_offset == addr_offset,
            r@.addr_mode == McAddrMode::Cal,
            r@.a2l_addr == 0,
            r@.a2l_addr_ext == McAddress::XCP_ADDR_EXT_SEG,
    {
        McAddress {
            calseg_name: Some(McIdentifier::new(calseg_name)),
            event_id: None,
            addr_offset,
            addr_mode: McAddrMode::Cal,
            a2l_addr: 0,
            a2l_addr_ext: McAddress::XCP_ADDR_EXT_SEG,
        }
    }

    /// Absolute address of a variable sampled by the given event.
    pub fn new_event_abs(event_id: u16, addr_offset: i32) -> (r: Self)
        ensures
            r@.calseg_name is None,
            r@.event_id == Option::Some(event_id),
            r@.addr_offset == addr_offset,
            r@.addr_mode == McAddrMode::Abs,
            r@.a2l_addr == 0,
            r@.a2l_addr_ext == McAddress::XCP_ADDR_EXT_ABS,
    {
        McAddress {
            calseg_name: None,
            event_id: Some(event_id),
            addr_offset,
            addr_mode: McAddrMode::Abs,
            a2l_addr: 0,
            a2l_addr_ext: McAddress::XCP_ADDR_EXT_ABS,
        }
    }

    /// Event relative address: signed offset from the event base pointer.
    pub fn new_event_rel(event_id: u16, addr_offset: i32) -> (r: Self)
        ensures
            r@.calseg_name is None,
            r@.event_id == Option::Some(event_id),
            r@.addr_offset == addr_offset,
            r@.addr_mode == McAddrMode::Rel,
            r@.a2l_addr == 0,
            r@.a2l_addr_ext == McAddress::XCP_ADDR_EXT_REL,
    {
        McAddress {
            calseg_name: None,
            event_id: Some(event_id),
            addr_offset,
            addr_mode: McAddrMode::Rel,
            a2l_addr: 0,
            a2l_addr_ext: McAddress::XCP_ADDR_EXT_REL,
        }
    }

    /// Dynamic address: like event relative but safe for asynchronous reads.
    ///
    /// `index` selects one of the 16 dynamic address extensions.
    pub fn new_event_dyn(index: u8, event_id: u16, addr_offset: i16) -> (r: Self)
        requires
            index < 16,
        ensures
            r@.calseg_name is None,
            r@.event_id == Option::Some(event_id),
            r@.addr_offset == addr_offset,
            r@.addr_mode == McAddrMode::Dyn,
            r@.a2l_addr == 0,
            r@.a2l_addr_ext == McAddress::XCP_ADDR_EXT_DYN + index,
    {
        McAddress {
            calseg_name: None,
            event_id: Some(event_id),
            addr_offset: addr_offset as i32,
            addr_mode: McAddrMode::Dyn,
            a2l_addr: 0,
            a2l_addr_ext: McAddress::XCP_ADDR_EXT_DYN + index,
        }
    }

    /// Opaque wire address imported from an external description.
    pub fn new_a2l(a2l_addr: u32, a2l_addr_ext: u8) -> (r: Self)
        ensures
            r@.calseg_name is None,
            r@.event_id is None,
            r@.addr_offset == McAddress::XCP_ADDR_OFFSET_UNDEF,
            r@.addr_mode == McAddrMode::A2l,
            r@.a2l_addr == a2l_addr,
            r@.a2l_addr_ext == a2l_addr_ext,
    {
        McAddress {
            calseg_name: None,
            event_id: None,
            addr_offset: McAddress::XCP_ADDR_OFFSET_UNDEF,
            addr_mode: McAddrMode::A2l,
            a2l_addr,
            a2l_addr_ext,
        }
    }

    /// Opaque wire address with an associated event.
    pub fn new_a2l_with_event(event_id: u16, a2l_addr: u32, a2l_addr_ext: u8) -> (r: Self)
        ensures
            r@.calseg_name is None,
            r@.event_id == Option::Some(event_id),
            r@.addr_offset == 0,
            r@.addr_mode == McAddrMode::A2lEvent,
            r@.a2l_addr == a2l_addr,
            r@.a2l_addr_ext == a2l_addr_ext,
    {
        McAddress {
            calseg_name: None,
            event_id: Some(event_id),
            addr_offset: 0,
            addr_mode: McAddrMode::A2lEvent,
            a2l_addr,
            a2l_addr_ext,
        }
    }

    /// The addressing mode.
    pub fn get_addr_mode(&self) -> (r: McAddrMode)
        ensures
            r == self@.addr_mode,
    {
        self.addr_mode
    }

    /// The stored wire address extension.
    pub fn get_a2l_addr_ext(&self) -> (r: u8)
        ensures
            r == self@.a2l_addr_ext,
    {
        self.a2l_addr_ext
    }

    /// A segment name is present whenever the mode is segment relative.
    pub open spec fn wf(&self) -> bool {
        &&& (self@.addr_mode is Cal ==> self@.calseg_name is Some)
        &&& (self@.addr_mode is Rel || self@.addr_mode is Dyn ==> self@.event_id is Some)
    }

    /// The address is segment relative (and then carries a segment name).
    pub fn is_segment_relative(&self) -> (r: bool)
        requires
            self@.addr_mode is Cal ==> self@.calseg_name is Some,
        ensures
            r == (self@.addr_mode is Cal),
    {
        self.addr_mode.is_segment_relative()
    }

    /// The address is event relative (and then carries an event id).
    pub fn is_event_relative(&self) -> (r: bool)
        requires
            self@.addr_mode is Rel || self@.addr_mode is Dyn ==> self@.event_id is Some,
        ensures
            r == (self@.addr_mode is Rel || self@.addr_mode is Dyn),
    {
        self.addr_mode.is_event_relative()
    }

    /// Name of the calibration segment of a calibration object.
    pub fn get_calseg_name(&self) -> (r: Option<McIdentifier>)
        ensures
            r is Some <==> self@.calseg_name is Some,
            r is Some ==> r->0@ == self@.calseg_name->0,
    {
        match &self.calseg_name {
            Some(n) => Some(n.clone()),
            None => None,
        }
    }

    /// Event id of the event associated with a measurement signal.
    pub fn get_event_id(&self) -> (r: Option<u16>)
        ensures
            r == self@.event_id,
    {
        self.event_id
    }

    /// Event id, or `0xFFFF` when none is associated.
    pub fn get_event_id_unchecked(&self) -> (r: u16)
        ensures
            r == (match self@.event_id {
                Option::Some(id) => id,
                Option::None => 0xFFFFu16,
            }),
    {
        match self.event_id {
            Some(id) => id,
            None => 0xFFFF,
        }
    }

    /// Relative offset to the event base or calibration segment.
    ///
    /// Only the segment relative and event relative modes carry an offset.
    pub fn get_addr_offset(&self) -> (r: i32)
        requires
            self@.addr_mode is Rel || self@.addr_mode is Cal || self@.addr_mode is Dyn,
        ensures
            r == self@.addr_offset,
    {
        self.addr_offset
    }

    /// The stored offset field, whatever the mode.
    pub(crate) fn raw_addr_offset(&self) -> (r: i32)
        ensures
            r == self@.addr_offset,
    {
        self.addr_offset
    }

    /// Add a relative offset to the address.
    ///
    /// Offset bearing modes adjust the stored offset; imported wire
    /// addresses adjust the raw address with wrap-around.
    pub fn add_addr_offset(&mut self, offset: i32)
        requires
            !(old(self)@.addr_mode is Undef),
            (old(self)@.addr_mode is Rel || old(self)@.addr_mode is Cal || old(self)@.addr_mode
                is Dyn || old(self)@.addr_mode is Abs) ==> i32::MIN <= old(self)@.addr_offset
                + offset <= i32::MAX,
        ensures
            final(self)@.addr_mode == old(self)@.addr_mode,
            final(self)@.calseg_name == old(self)@.calseg_name,
            final(self)@.event_id == old(self)@.event_id,
            final(self)@.a2l_addr_ext == old(self)@.a2l_addr_ext,
            (old(self)@.addr_mode is Rel || old(self)@.addr_mode is Cal || old(self)@.addr_mode
                is Dyn || old(self)@.addr_mode is Abs) ==> {
                &&& final(self)@.addr_offset == old(self)@.addr_offset + offset
                &&& final(self)@.a2l_addr == old(self)@.a2l_addr
            },
            (old(self)@.addr_mode is A2l || old(self)@.addr_mode is A2lEvent) ==> {
                &&& final(self)@.a2l_addr == wrap_add_u32(old(self)@.a2l_addr, offset)
                &&& final(self)@.addr_offset == old(self)@.addr_offset
            },
    {
        match self.addr_mode {
            McAddrMode::Rel | McAddrMode::Cal | McAddrMode::Dyn | McAddrMode::Abs => {
                self.addr_offset = self.addr_offset + offset;
            },
            McAddrMode::A2l | McAddrMode::A2lEvent => {
                self.a2l_addr = self.a2l_addr.wrapping_add_signed(offset);
            },
            McAddrMode::Undef => {
                // Excluded by contract; keep the value unchanged.
            },
        }
    }

    /// Wire form of an absolute address.
    fn get_abs_ext_addr(offset: u32) -> (r: (u8, u32))
        ensures
            r.0 == McAddress::XCP_ADDR_EXT_ABS,
            r.1 == offset,
    {
        (McAddress::XCP_ADDR_EXT_ABS, offset)
    }

    /// Wire form of a dynamic address: event id in the high word, the
    /// signed offset (two's complement) in the low word.
    fn get_dyn_ext_addr(addr_ext: u8, event_id: u16, offset: i16) -> (r: (u8, u32))
        requires
            McAddress::XCP_ADDR_EXT_DYN <= addr_ext < McAddress::XCP_ADDR_EXT_DYN + 16,
        ensures
            r.0 == addr_ext,
            r.1 == (event_id as int) * 0x10000 + wire_u16_of_i16(offset),
    {
        let low: u32 = if offset >= 0 {
            offset as u32
        } else {
            (offset as i32 + 0x10000) as u32
        };
        let high: u32 = (event_id as u32) * 0x10000;
        (addr_ext, high + low)
    }

    /// Wire form of an event relative address: the offset in two's
    /// complement.
    fn get_rel_ext_addr(offset: i32) -> (r: (u8, u32))
        ensures
            r.0 == McAddress::XCP_ADDR_EXT_REL,
            r.1 == wire_u32_of_i32(offset),
    {
        let a: u32 = if offset >= 0 {
            offset as u32
        } else {
            ((offset as i64) + 0x1_0000_0000i64) as u32
        };
        (McAddress::XCP_ADDR_EXT_REL, a)
    }

    /// Wire base address of a calibration segment: the index with the high
    /// bit set, shifted into the high word.
    pub fn get_calseg_ext_addr_base(calseg_index: u16) -> (r: (u8, u32))
        ensures
            r.0 == McAddress::XCP_ADDR_EXT_SEG,
            r.1 == (if calseg_index < 0x8000 {
                0x8000_0000 + (calseg_index as int) * 0x10000
            } else {
                (calseg_index as int) * 0x10000
            }),
    {
        let marked: u32 = if calseg_index < 0x8000 {
            calseg_index as u32 + 0x8000
        } else {
            calseg_index as u32
        };
        (McAddress::XCP_ADDR_EXT_SEG, marked * 0x10000)
    }

    /// Wire address of a calibration value at `offset` in the segment with
    /// the given index.
    pub fn get_calseg_ext_addr(calseg_index: u16, offset: u16) -> (r: (u8, u32))
        requires
            calseg_index < 0x8000,
        ensures
            r.0 == McAddress::XCP_ADDR_EXT_SEG,
            r.1 == 0x8000_0000 + (calseg_index as int) * 0x10000 + offset,
    {
        let (addr_ext, base) = McAddress::get_calseg_ext_addr_base(calseg_index);
        proof {
            assert((calseg_index as int) * 0x10000 <= 0x7FFF * 0x10000) by (nonlinear_arith)
                requires
                    calseg_index < 0x8000,
            ;
        }
        (addr_ext, base + offset as u32)
    }

    /// Address extension and address for the wire protocol.
    ///
    /// Resolves the segment name through the registry for segment relative
    /// addresses; the other modes are computed from the stored fields.
    pub fn get_a2l_addr(&self, registry: &Registry) -> (r: (u8, u32))
        requires
            !(self@.addr_mode is Undef),
            self@.addr_mode is Dyn ==> self@.event_id is Some && i16::MIN <= self@.addr_offset
                <= i16::MAX && McAddress::XCP_ADDR_EXT_DYN <= self@.a2l_addr_ext
                < McAddress::XCP_ADDR_EXT_DYN + 16,
            self@.addr_mode is Abs ==> 0 <= self@.addr_offset,
            self@.addr_mode is Cal ==> self@.calseg_name is Some
                && registry.cal_seg_list.spec_index_of(self@.calseg_name->0) is Some
                && registry.cal_seg_list.spec_index_of(self@.calseg_name->0)->0 < 0x8000 && 0
                <= self@.addr_offset <= u16::MAX,
        ensures
            self@.addr_mode is Rel ==> r.0 == McAddress::XCP_ADDR_EXT_REL && r.1
                == wire_u32_of_i32(self@.addr_offset),
            self@.addr_mode is Dyn ==> r.0 == self@.a2l_addr_ext && r.1 == (
            self@.event_id->0 as int) * 0x10000 + wire_u16_of_i16(self@.addr_offset as i16),
            self@.addr_mode is Abs ==> r.0 == McAddress::XCP_ADDR_EXT_ABS && r.1
                == self@.addr_offset,
            self@.addr_mode is Cal ==> r.0 == McAddress::XCP_ADDR_EXT_SEG && r.1 == 0x8000_0000 + (
            registry.cal_seg_list.spec_index_of(self@.calseg_name->0)->0 as int) * 0x10000
                + self@.addr_offset,
            self@.addr_mode is A2l || self@.addr_mode is A2lEvent ==> r.0 == self@.a2l_addr_ext
                && r.1 == self@.a2l_addr,
    {
        match self.addr_mode {
            McAddrMode::Rel => McAddress::get_rel_ext_addr(self.addr_offset),
            McAddrMode::Dyn => {
                let event_id = match self.event_id {
                    Some(id) => id,
                    None => 0,  // excluded by contract
                };
                McAddress::get_dyn_ext_addr(self.a2l_addr_ext, event_id, self.addr_offset as i16)
            },
            McAddrMode::Abs => McAddress::get_abs_ext_addr(self.addr_offset as u32),
            McAddrMode::Cal => {
                let index = match &self.calseg_name {
                    Some(name) => {
                        match registry.cal_seg_list.get_cal_seg_index(name.as_str()) {
                            Some(i) => i,
                            None => 0,  // excluded by contract
                        }
                    },
                    None => 0,  // excluded by contract
                };
                McAddress::get_calseg_ext_addr(index, self.addr_offset as u16)
            },
            McAddrMode::A2l | McAddrMode::A2lEvent => (self.a2l_addr_ext, self.a2l_addr),
            McAddrMode::Undef => (McAddress::XCP_ADDR_EXT_UNDEF, 0),  // excluded by contract
        }
    }

    /// Raw wire address as stored, without conversion.
    ///
    /// Only meaningful for addresses imported from an external description.
    pub fn get_raw_a2l_addr(&self) -> (r: (u8, u32))
        requires
            self@.addr_mode is A2l || self@.addr_mode is A2lEvent,
        ensures
            r.0 == self@.a2l_addr_ext,
            r.1 == self@.a2l_addr,
    {
        (self.a2l_addr_ext, self.a2l_addr)
    }

    /// Overwrite the raw wire address, used when reconciling an imported
    /// description.
    pub fn set_raw_a2l_addr(&mut self, a2l_addr_ext: u8, a2l_addr: u32)
        requires
            old(self)@.addr_mode is A2l || old(self)@.addr_mode is A2lEvent,
        ensures
            final(self)@ == (McAddressV { a2l_addr, a2l_addr_ext, ..old(self)@ }),
    {
        self.a2l_addr = a2l_addr;
        self.a2l_addr_ext = a2l_addr_ext;
    }
}

} // verus!
