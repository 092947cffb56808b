//! Calibration segment descriptors of the registry.
//!
//! A registry-level segment descriptor names a segment, gives it the unique
//! index used on the wire and records its byte size and wire base address.
//! The two-page engine behind a segment lives in the calibration segment
//! engine; the registry only describes it.

use vstd::prelude::*;

use crate::error::RegistryError;
use crate::ident::str_eq;
use crate::ident::McIdentifier;
use crate::mc_address::McAddress;

verus! {

/// Descriptor of one calibration segment.
#[derive(Debug)]
pub struct McCalibrationSegment {
    /// Unique segment name.
    pub name: McIdentifier,
    /// Unique segment index used on the wire.
    pub index: u16,
    /// Byte size of each of the two pages.
    pub size: u32,
    /// Wire address extension of the segment base.
    pub addr_ext: u8,
    /// Wire address of the segment base.
    pub addr: u32,
}

impl Clone for McCalibrationSegment {
    fn clone(&self) -> (r: Self)
        ensures
            r == *self,
    {
        McCalibrationSegment {
            name: self.name.clone(),
            index: self.index,
            size: self.size,
            addr_ext: self.addr_ext,
            addr: self.addr,
        }
    }
}

impl McCalibrationSegment {
    /// Create a segment descriptor.
    pub fn new(name: &str, index: u16, size: u32, addr_ext: u8, addr: u32) -> (r: Self)
        ensures
            r.name@ == name@,
            r.index == index,
            r.size == size,
            r.addr_ext == addr_ext,
            r.addr == addr,
    {
        McCalibrationSegment { name: McIdentifier::new(name), index, size, addr_ext, addr }
    }

    /// The segment name.
    pub fn get_name(&self) -> (r: &str)
        ensures
            r@ == self.name@,
    {
        self.name.as_str()
    }

    /// The unique segment index.
    pub fn get_index(&self) -> (r: u16)
        ensures
            r == self.index,
    {
        self.index
    }

    /// Overwrite the segment index. The caller is responsible for keeping
    /// indices unique across the list.
    pub fn set_index(&mut self, index: u16)
        ensures
            final(self).index == index,
            final(self).name == old(self).name,
            final(self).size == old(self).size,
            final(self).addr_ext == old(self).addr_ext,
            final(self).addr == old(self).addr,
    {
        self.index = index;
    }
}

/// Index of the first segment with the given name, scanning front to back.
pub open spec fn spec_index_of_rec(s: Seq<McCalibrationSegment>, name: Seq<char>) -> Option<u16>
    decreases s.len(),
{
    if s.len() == 0 {
        Option::None
    } else if s[0].name@ == name {
        Option::Some(s[0].index)
    } else {
        spec_index_of_rec(s.drop_first(), name)
    }
}

/// When position `i` holds the first segment of the given name, the scan
/// returns that segment's index.
pub proof fn lemma_index_of_first(s: Seq<McCalibrationSegment>, name: Seq<char>, i: int)
    requires
        0 <= i < s.len(),
        s[i].name@ == name,
        forall|j: int| 0 <= j < i ==> (#[trigger] s[j]).name@ != name,
    ensures
        spec_index_of_rec(s, name) == Option::Some(s[i].index),
    decreases i,
{
    if i > 0 {
        lemma_index_of_first(s.drop_first(), name, i - 1);
    }
}

/// When no segment has the given name, the scan returns nothing.
pub proof fn lemma_index_of_none(s: Seq<McCalibrationSegment>, name: Seq<char>)
    requires
        forall|j: int| 0 <= j < s.len() ==> (#[trigger] s[j]).name@ != name,
    ensures
        spec_index_of_rec(s, name) is None,
    decreases s.len(),
{
    if s.len() > 0 {
        lemma_index_of_none(s.drop_first(), name);
    }
}

/// The calibration segment list of a registry.
#[derive(Debug)]
pub struct McCalibrationSegmentList {
    segments: Vec<McCalibrationSegment>,
}

impl View for McCalibrationSegmentList {
    type V = Seq<McCalibrationSegment>;

    closed spec fn view(&self) -> Seq<McCalibrationSegment> {
        self.segments@
    }
}

impl McCalibrationSegmentList {
    /// Index of the first segment with the given name.
    pub open spec fn spec_index_of(&self, name: Seq<char>) -> Option<u16> {
        spec_index_of_rec(self@, name)
    }

    /// No two segments of the list share a name or an index.
    pub open spec fn unique(&self) -> bool {
        forall|i: int, j: int|
            0 <= i < j < self@.len() ==> (#[trigger] self@[i]).name@ != (#[trigger] self@[j]).name@
                && self@[i].index != self@[j].index
    }

    /// An empty segment list.
    pub fn new() -> (r: Self)
        ensures
            r@.len() == 0,
            r.unique(),
    {
        McCalibrationSegmentList { segments: Vec::new() }
    }

    /// Number of segments.
    pub fn len(&self) -> (r: usize)
        ensures
            r == self@.len(),
    {
        self.segments.len()
    }

    /// True when the list holds no segment.
    pub fn is_empty(&self) -> (r: bool)
        ensures
            r == (self@.len() == 0),
    {
        self.segments.is_empty()
    }

    /// The segment at a position.
    pub fn get(&self, i: usize) -> (r: &McCalibrationSegment)
        requires
            i < self@.len(),
        ensures
            *r == self@[i as int],
    {
        &self.segments[i]
    }

    /// Position of the first segment with the given name.
    fn find_position(&self, name: &str) -> (r: Option<usize>)
        ensures
            match r {
                Option::Some(i) => 0 <= i < self@.len() && (#[trigger] self@[i as int]).name@
                    == name@ && (forall|j: int|
                    0 <= j < i ==> (#[trigger] self@[j]).name@ != name@),
                Option::None => forall|j: int| 0 <= j < self@.len() ==> (#[trigger] self@[j]).name@ != name@,
            },
    {
        let n = self.segments.len();
        let mut i: usize = 0;
        while i < n
            invariant
                n == self@.len(),
                i <= n,
                forall|j: int| 0 <= j < i ==> (#[trigger] self@[j]).name@ != name@,
            decreases n - i,
        {
            if str_eq(self.segments[i].name.as_str(), name) {
                return Some(i);
            }
            i += 1;
        }
        None
    }

    /// True when some segment of the list carries the given index.
    pub fn index_taken(&self, index: u16) -> (r: bool)
        ensures
            r <==> exists|i: int|
                0 <= i < self@.len() && (#[trigger] self@[i]).index == index,
    {
        let n = self.segments.len();
        let mut i: usize = 0;
        while i < n
            invariant
                n == self@.len(),
                i <= n,
                forall|j: int| 0 <= j < i ==> (#[trigger] self@[j]).index != index,
            decreases n - i,
        {
            if self.segments[i].index == index {
                return true;
            }
            i += 1;
        }
        false
    }

    /// Find the first segment with the given name.
    pub fn find_cal_seg(&self, name: &str) -> (r: Option<&McCalibrationSegment>)
        ensures
            match r {
                Option::Some(seg) => exists|i: int|
                    0 <= i < self@.len() && *seg == self@[i] && (#[trigger] self@[i]).name@ == name@,
                Option::None => forall|i: int| 0 <= i < self@.len() ==> (#[trigger] self@[i]).name@ != name@,
            },
            r is Some ==> self.spec_index_of(name@) == Option::Some(r->0.index),
            r is None ==> self.spec_index_of(name@) is None,
    {
        match self.find_position(name) {
            Some(i) => {
                proof {
                    lemma_index_of_first(self@, name@, i as int);
                }
                Some(&self.segments[i])
            },
            None => {
                proof {
                    lemma_index_of_none(self@, name@);
                }
                None
            },
        }
    }

    /// Wire index of the segment with the given name.
    pub fn get_cal_seg_index(&self, name: &str) -> (r: Option<u16>)
        ensures
            r == self.spec_index_of(name@),
    {
        match self.find_cal_seg(name) {
            Some(seg) => Some(seg.index),
            None => None,
        }
    }

    /// Find the segment whose wire address range contains `addr`.
    ///
    /// Containment is `seg.addr <= addr < seg.addr + seg.size`.
    pub fn find_cal_seg_by_address(&self, addr: u32) -> (r: Option<&McCalibrationSegment>)
        ensures
            match r {
                Option::Some(seg) => exists|i: int|
                    0 <= i < self@.len() && *seg == self@[i] && (#[trigger] self@[i]).addr <= addr
                        < self@[i].addr + self@[i].size,
                Option::None => forall|i: int|
                    0 <= i < self@.len() ==> !((#[trigger] self@[i]).addr <= addr < self@[i].addr
                        + self@[i].size),
            },
    {
        let n = self.segments.len();
        let mut i: usize = 0;
        while i < n
            invariant
                n == self@.len(),
                i <= n,
                forall|j: int|
                    0 <= j < i ==> !((#[trigger] self@[j]).addr <= addr < self@[j].addr
                        + self@[j].size),
            decreases n - i,
        {
            let seg = &self.segments[i];
            if seg.addr <= addr && (addr as u64) < (seg.addr as u64) + (seg.size as u64) {
                return Some(seg);
            }
            i += 1;
        }
        None
    }

    /// Add a segment descriptor with an explicit wire base address.
    ///
    /// Fails `Duplicate` when the name or the index is already taken.
    pub fn add_cal_seg_by_addr(
        &mut self,
        name: &str,
        index: u16,
        addr_ext: u8,
        addr: u32,
        size: u32,
    ) -> (r: Result<(), RegistryError>)
        ensures
            r is Ok ==> {
                &&& final(self)@.len() == old(self)@.len() + 1
                &&& final(self)@ == old(self)@.push(final(self)@.last())
                &&& final(self)@.last().name@ == name@
                &&& final(self)@.last().index == index
                &&& final(self)@.last().size == size
                &&& final(self)@.last().addr_ext == addr_ext
                &&& final(self)@.last().addr == addr
                &&& forall|i: int|
                    0 <= i < old(self)@.len() ==> (#[trigger] old(self)@[i]).name@ != name@
                        && old(self)@[i].index != index
            },
            r is Err ==> {
                &&& final(self)@ == old(self)@
                &&& r->Err_0 is Duplicate
                &&& exists|i: int|
                    0 <= i < old(self)@.len() && ((#[trigger] old(self)@[i]).name@ == name@
                        || old(self)@[i].index == index)
            },
            old(self).unique() ==> final(self).unique(),
    {
        if self.find_position(name).is_some() {
            return Err(RegistryError::Duplicate(name.to_owned()));
        }
        let n = self.segments.len();
        let mut i: usize = 0;
        while i < n
            invariant
                n == self@.len(),
                i <= n,
                forall|j: int| 0 <= j < i ==> (#[trigger] self@[j]).index != index,
            decreases n - i,
        {
            if self.segments[i].index == index {
                return Err(RegistryError::Duplicate(name.to_owned()));
            }
            i += 1;
        }
        let seg = McCalibrationSegment::new(name, index, size, addr_ext, addr);
        self.segments.push(seg);
        proof {
            if old(self).unique() {
                assert forall|p: int, q: int| 0 <= p < q < self@.len() implies (
                #[trigger] self@[p]).name@ != (#[trigger] self@[q]).name@ && self@[p].index
                    != self@[q].index by {
                    if q < self@.len() - 1 {
                        assert(old(self)@[p].name@ != old(self)@[q].name@);
                    } else {
                        assert(self@[p] == old(self)@[p]);
                    }
                }
            }
        }
        Ok(())
    }

    /// Add a segment descriptor with the canonical segment-relative base
    /// address derived from the index.
    pub fn add_cal_seg(&mut self, name: &str, index: u16, size: u32) -> (r: Result<
        (),
        RegistryError,
    >)
        requires
            index < 0x8000,
        ensures
            r is Ok ==> {
                &&& final(self)@.len() == old(self)@.len() + 1
                &&& final(self)@ == old(self)@.push(final(self)@.last())
                &&& final(self)@.last().name@ == name@
                &&& final(self)@.last().index == index
                &&& final(self)@.last().size == size
                &&& final(self)@.last().addr_ext == McAddress::XCP_ADDR_EXT_SEG
                &&& final(self)@.last().addr == 0x8000_0000 + (index as int) * 0x10000
                &&& forall|i: int|
                    0 <= i < old(self)@.len() ==> (#[trigger] old(self)@[i]).name@ != name@
                        && old(self)@[i].index != index
            },
            r is Err ==> {
                &&& final(self)@ == old(self)@
                &&& r->Err_0 is Duplicate
                &&& exists|i: int|
                    0 <= i < old(self)@.len() && ((#[trigger] old(self)@[i]).name@ == name@
                        || old(self)@[i].index == index)
            },
            old(self).unique() ==> final(self).unique(),
    {
        let (addr_ext, addr) = McAddress::get_calseg_ext_addr_base(index);
        self.add_cal_seg_by_addr(name, index, addr_ext, addr, size)
    }

    /// Add a segment described by an external description, with its raw
    /// wire base address.
    pub fn add_a2l_cal_seg(
        &mut self,
        name: &str,
        index: u16,
        addr_ext: u8,
        addr: u32,
        size: u32,
    ) -> (r: Result<(), RegistryError>)
        ensures
            r is Ok ==> {
                &&& final(self)@.len() == old(self)@.len() + 1
                &&& final(self)@ == old(self)@.push(final(self)@.last())
                &&& final(self)@.last().name@ == name@
                &&& final(self)@.last().index == index
                &&& final(self)@.last().size == size
                &&& final(self)@.last().addr_ext == addr_ext
                &&& final(self)@.last().addr == addr
            },
            r is Err ==> {
                &&& final(self)@ == old(self)@
                &&& r->Err_0 is Duplicate
                &&& exists|i: int|
                    0 <= i < old(self)@.len() && ((#[trigger] old(self)@[i]).name@ == name@
                        || old(self)@[i].index == index)
            },
            old(self).unique() ==> final(self).unique(),
    {
        self.add_cal_seg_by_addr(name, index, addr_ext, addr, size)
    }

    /// Renumber the segments through a mapping of old index to new index;
    /// indices without an entry keep their value.
    pub fn update_mapping(&mut self, mapping: &std::collections::HashMap<u16, u16>)
        ensures
            final(self)@.len() == old(self)@.len(),
            forall|i: int|
                0 <= i < old(self)@.len() ==> {
                    &&& (#[trigger] final(self)@[i]).name == old(self)@[i].name
                    &&& final(self)@[i].size == old(self)@[i].size
                    &&& final(self)@[i].addr_ext == old(self)@[i].addr_ext
                    &&& final(self)@[i].addr == old(self)@[i].addr
                    &&& final(self)@[i].index == (if mapping@.contains_key(old(self)@[i].index) {
                        mapping@[old(self)@[i].index]
                    } else {
                        old(self)@[i].index
                    })
                },
    {
        broadcast use vstd::std_specs::hash::group_hash_axioms;

        let n = self.segments.len();
        let mut i: usize = 0;
        while i < n
            invariant
                n == self@.len(),
                n == old(self)@.len(),
                i <= n,
                forall|j: int| i <= j < n ==> #[trigger] self@[j] == old(self)@[j],
                forall|j: int|
                    0 <= j < i ==> {
                        &&& (#[trigger] self@[j]).name == old(self)@[j].name
                        &&& self@[j].size == old(self)@[j].size
                        &&& self@[j].addr_ext == old(self)@[j].addr_ext
                        &&& self@[j].addr == old(self)@[j].addr
                        &&& self@[j].index == (if mapping@.contains_key(old(self)@[j].index) {
                            mapping@[old(self)@[j].index]
                        } else {
                            old(self)@[j].index
                        })
                    },
            decreases n - i,
        {
            let old_index = self.segments[i].index;
            match mapping.get(&old_index) {
                Some(new_index) => {
                    let mut seg = self.segments.remove(i);
                    seg.set_index(*new_index);
                    self.segments.insert(i, seg);
                },
                None => {},
            }
            i += 1;
        }
    }
}

} // verus!
