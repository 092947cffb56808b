//! Calibration segment engine: a two-page memory domain with atomic page
//! selection and consistent batched writes.
//!
//! A segment holds two equally sized pages. The working page (RAM, page 0)
//! is what the application reads during normal execution; the default page
//! (FLASH, page 1) is an immutable reference used for reset-to-default.
//! Tool writes are applied to the working page; a bracketed
//! `modify_begin` .. `modify_end` transaction stages writes in a shadow
//! buffer and publishes them in one step, so a reader never observes a
//! partial batch.

use vstd::prelude::*;

use crate::ident::McIdentifier;

verus! {

/// Page number of the mutable working page (RAM).
pub const CAL_PAGE_RAM: u8 = 0;

/// Page number of the immutable default page (FLASH).
pub const CAL_PAGE_FLASH: u8 = 1;

/// Failure of a tool access to a calibration segment.
#[derive(Debug, Clone, Copy, PartialEq, Eq, Structural)]
pub enum CalSegError {
    /// The address or length falls outside the segment.
    AccessDenied,
    /// The requested page number does not exist.
    PageNotValid,
}

/// The byte sequence `dst` with `data` written at `offset`.
pub open spec fn splice_bytes(dst: Seq<u8>, offset: int, data: Seq<u8>) -> Seq<u8> {
    dst.subrange(0, offset) + data + dst.subrange(offset + data.len(), dst.len() as int)
}

/// A splice changes exactly the written range: inside it the new bytes are
/// read, outside it the old ones. This is the atomic download law: after a
/// single download every byte of the range is new, and no other byte moved,
/// so a consistent reader observes all pre-write bytes or all post-write
/// bytes, never a mixture.
pub proof fn lemma_splice_bytes(dst: Seq<u8>, offset: int, data: Seq<u8>)
    requires
        0 <= offset,
        offset + data.len() <= dst.len(),
    ensures
        splice_bytes(dst, offset, data).len() == dst.len(),
        forall|i: int|
            offset <= i < offset + data.len() ==> splice_bytes(dst, offset, data)[i] == data[i
                - offset],
        forall|i: int|
            0 <= i < dst.len() && !(offset <= i < offset + data.len()) ==> splice_bytes(
                dst,
                offset,
                data,
            )[i] == dst[i],
{
}

/// One calibration segment: two pages, page selectors and an optional
/// shadow buffer holding a pending write transaction.
#[derive(Debug)]
pub struct CalSeg {
    /// Segment name.
    pub name: McIdentifier,
    /// Segment index.
    pub index: u16,
    /// The immutable default page (FLASH).
    pub default_page: Vec<u8>,
    /// The mutable working page (RAM).
    pub working_page: Vec<u8>,
    /// Staged bytes of an open modify transaction.
    pub shadow: Option<Vec<u8>>,
    /// Page selector of the application view.
    pub ecu_page: u8,
    /// Page selector of the tool view.
    pub xcp_page: u8,
}

/// Guard giving read-only access to the page the application currently
/// sees. In this sequential model the borrow itself is the read lock: no
/// write can interleave while the guard is held.
pub struct ReadLockGuard<'a> {
    page: &'a Vec<u8>,
}

impl<'a> ReadLockGuard<'a> {
    /// The visible bytes, as a specification value.
    pub closed spec fn view_bytes(&self) -> Seq<u8> {
        self.page@
    }

    /// The visible bytes.
    pub fn bytes(&self) -> (r: &Vec<u8>)
        ensures
            r@ == self.view_bytes(),
    {
        self.page
    }

    /// One visible byte.
    pub fn get(&self, offset: usize) -> (r: u8)
        requires
            offset < self.view_bytes().len(),
        ensures
            r == self.view_bytes()[offset as int],
    {
        self.page[offset]
    }

    /// Number of visible bytes.
    pub fn len(&self) -> (r: usize)
        ensures
            r == self.view_bytes().len(),
    {
        self.page.len()
    }
}

impl CalSeg {
    /// Well-formed segment: both pages and any pending shadow are equally
    /// sized and the page selectors name existing pages.
    pub open spec fn wf(&self) -> bool {
        &&& self.working_page@.len() == self.default_page@.len()
        &&& (self.shadow is Some ==> self.shadow->0@.len() == self.default_page@.len())
        &&& self.ecu_page <= 1
        &&& self.xcp_page <= 1
    }

    /// The segment name.
    pub open spec fn spec_name(&self) -> Seq<char> {
        self.name@
    }

    /// The segment index.
    pub open spec fn spec_index(&self) -> u16 {
        self.index
    }

    /// Bytes of the default page.
    pub open spec fn default_bytes(&self) -> Seq<u8> {
        self.default_page@
    }

    /// Bytes of the working page.
    pub open spec fn working_bytes(&self) -> Seq<u8> {
        self.working_page@
    }

    /// The pending transaction's bytes, if a transaction is open.
    pub open spec fn shadow_bytes(&self) -> Option<Seq<u8>> {
        match self.shadow {
            Option::Some(s) => Option::Some(s@),
            Option::None => Option::None,
        }
    }

    /// True while a modify transaction is open.
    pub open spec fn in_transaction(&self) -> bool {
        self.shadow is Some
    }

    /// The page selector of the application view.
    pub open spec fn spec_ecu_page(&self) -> u8 {
        self.ecu_page
    }

    /// The page selector of the tool view.
    pub open spec fn spec_xcp_page(&self) -> u8 {
        self.xcp_page
    }

    /// Bytes of the given page: the working page for `CAL_PAGE_RAM`, the
    /// default page for `CAL_PAGE_FLASH`.
    pub open spec fn page_bytes(&self, page: u8) -> Seq<u8> {
        if page == CAL_PAGE_RAM {
            self.working_page@
        } else {
            self.default_page@
        }
    }

    /// The bytes the application currently sees.
    pub open spec fn ecu_bytes(&self) -> Seq<u8> {
        self.page_bytes(self.ecu_page)
    }

    /// The bytes the tool currently sees.
    pub open spec fn xcp_bytes(&self) -> Seq<u8> {
        self.page_bytes(self.xcp_page)
    }

    /// Create a segment: the working page is a copy of the default page,
    /// both views start on the working page, no transaction is open.
    pub fn new(instance_name: &str, index: u16, default_page: Vec<u8>) -> (r: CalSeg)
        ensures
            r.wf(),
            r.spec_name() == instance_name@,
            r.spec_index() == index,
            r.default_bytes() == default_page@,
            r.working_bytes() == default_page@,
            !r.in_transaction(),
            r.spec_ecu_page() == CAL_PAGE_RAM,
            r.spec_xcp_page() == CAL_PAGE_RAM,
    {
        let working_page = default_page.clone();
        CalSeg {
            name: McIdentifier::new(instance_name),
            index,
            default_page,
            working_page,
            shadow: None,
            ecu_page: CAL_PAGE_RAM,
            xcp_page: CAL_PAGE_RAM,
        }
    }

    /// The segment name.
    pub fn get_name(&self) -> (r: &str)
        ensures
            r@ == self.spec_name(),
    {
        self.name.as_str()
    }

    /// The segment index.
    pub fn get_index(&self) -> (r: u16)
        ensures
            r == self.spec_index(),
    {
        self.index
    }

    /// Byte size of each page.
    pub fn size(&self) -> (r: usize)
        ensures
            r == self.default_bytes().len(),
    {
        self.default_page.len()
    }

    /// Read lock on the page the application currently sees.
    ///
    /// The returned guard observes one consistent state: writes are
    /// excluded while it is held. A guard taken after a page selection
    /// observes the new page; a guard taken after a completed download
    /// observes every byte of the written range.
    pub fn read_lock(&self) -> (guard: ReadLockGuard<'_>)
        ensures
            guard.view_bytes() == self.ecu_bytes(),
    {
        if self.ecu_page == CAL_PAGE_RAM {
            ReadLockGuard { page: &self.working_page }
        } else {
            ReadLockGuard { page: &self.default_page }
        }
    }

    /// Application write of one byte to the working page.
    ///
    /// This is the write-lock path: `&mut self` grants the exclusive
    /// access that the engine's write lock stands for.
    pub fn set_byte(&mut self, offset: usize, value: u8)
        requires
            old(self).wf(),
            offset < old(self).working_bytes().len(),
        ensures
            final(self).wf(),
            final(self).working_bytes() == old(self).working_bytes().update(offset as int, value),
            final(self).default_bytes() == old(self).default_bytes(),
            final(self).shadow_bytes() == old(self).shadow_bytes(),
            final(self).spec_ecu_page() == old(self).spec_ecu_page(),
            final(self).spec_xcp_page() == old(self).spec_xcp_page(),
            final(self).spec_name() == old(self).spec_name(),
            final(self).spec_index() == old(self).spec_index(),
    {
        self.working_page.set(offset, value);
    }

    /// Tool write of a byte range.
    ///
    /// Outside a transaction the range is written to the working page in
    /// one step. Inside a transaction it is staged in the shadow buffer
    /// and becomes observable only at `modify_end`. A range that does not
    /// fit the segment fails `AccessDenied` and changes nothing.
    pub fn download(&mut self, offset: usize, data: &[u8]) -> (r: Result<(), CalSegError>)
        requires
            old(self).wf(),
        ensures
            final(self).wf(),
            final(self).spec_name() == old(self).spec_name(),
            final(self).spec_index() == old(self).spec_index(),
            final(self).default_bytes() == old(self).default_bytes(),
            final(self).spec_ecu_page() == old(self).spec_ecu_page(),
            final(self).spec_xcp_page() == old(self).spec_xcp_page(),
            r is Ok <==> offset + data@.len() <= old(self).working_bytes().len(),
            r is Err ==> *final(self) == *old(self) && r->Err_0 == CalSegError::AccessDenied,
            r is Ok && !old(self).in_transaction() ==> {
                &&& final(self).working_bytes() == splice_bytes(
                    old(self).working_bytes(),
                    offset as int,
                    data@,
                )
                &&& final(self).shadow_bytes() == old(self).shadow_bytes()
            },
            r is Ok && old(self).in_transaction() ==> {
                &&& final(self).working_bytes() == old(self).working_bytes()
                &&& final(self).shadow_bytes() == Option::Some(
                    splice_bytes(old(self).shadow_bytes()->0, offset as int, data@),
                )
            },
            final(self).in_transaction() == old(self).in_transaction(),
    {
        let len = data.len();
        let size = self.working_page.len();
        if len > size || offset > size - len {
            return Err(CalSegError::AccessDenied);
        }
        match self.shadow.take() {
            Some(mut sh) => {
                let mut k: usize = 0;
                while k < len
                    invariant
                        len == data@.len(),
                        offset + len <= sh@.len(),
                        offset + len <= usize::MAX,
                        k <= len,
                        sh@.len() == old(self).shadow_bytes()->0.len(),
                        forall|i: int|
                            0 <= i < sh@.len() ==> #[trigger] sh@[i] == (if offset <= i < offset
                                + k {
                                data@[i - offset]
                            } else {
                                old(self).shadow_bytes()->0[i]
                            }),
                        self.working_page@ == old(self).working_bytes(),
                        self.default_page@ == old(self).default_bytes(),
                        self.shadow is None,
                        self.name == old(self).name,
                        self.index == old(self).index,
                        self.ecu_page == old(self).ecu_page,
                        self.xcp_page == old(self).xcp_page,
                    decreases len - k,
                {
                    sh.set(offset + k, data[k]);
                    k += 1;
                }
                proof {
                    assert(sh@ =~= splice_bytes(
                        old(self).shadow_bytes()->0,
                        offset as int,
                        data@,
                    ));
                }
                self.shadow = Some(sh);
            },
            None => {
                let mut k: usize = 0;
                while k < len
                    invariant
                        len == data@.len(),
                        offset + len <= self.working_page@.len(),
                        offset + len <= usize::MAX,
                        k <= len,
                        self.working_page@.len() == old(self).working_bytes().len(),
                        forall|i: int|
                            0 <= i < self.working_page@.len() ==> #[trigger] self.working_page@[i]
                                == (if offset <= i < offset + k {
                                data@[i - offset]
                            } else {
                                old(self).working_bytes()[i]
                            }),
                        self.default_page@ == old(self).default_bytes(),
                        self.shadow is None,
                        old(self).shadow is None,
                        self.name == old(self).name,
                        self.index == old(self).index,
                        self.ecu_page == old(self).ecu_page,
                        self.xcp_page == old(self).xcp_page,
                    decreases len - k,
                {
                    self.working_page.set(offset + k, data[k]);
                    k += 1;
                }
                proof {
                    assert(self.working_page@ =~= splice_bytes(
                        old(self).working_bytes(),
                        offset as int,
                        data@,
                    ));
                }
            },
        }
        Ok(())
    }

    /// Read a byte range from the given page; a range that does not fit
    /// the segment fails `AccessDenied`, an unknown page `PageNotValid`.
    pub fn read_range(&self, offset: usize, len: usize, page: u8) -> (r: Result<
        Vec<u8>,
        CalSegError,
    >)
        requires
            self.wf(),
        ensures
            page > 1 ==> r == Result::<Vec<u8>, CalSegError>::Err(CalSegError::PageNotValid),
            page <= 1 ==> ((r is Ok) <==> offset + len <= self.page_bytes(page).len()),
            r is Ok ==> r->Ok_0@ == self.page_bytes(page).subrange(
                offset as int,
                offset + len as int,
            ),
            page <= 1 && offset + len > self.page_bytes(page).len() ==> r == Result::<
                Vec<u8>,
                CalSegError,
            >::Err(CalSegError::AccessDenied),
    {
        if page > 1 {
            return Err(CalSegError::PageNotValid);
        }
        let src: &Vec<u8> = if page == CAL_PAGE_RAM {
            &self.working_page
        } else {
            &self.default_page
        };
        let size = src.len();
        if len > size || offset > size - len {
            return Err(CalSegError::AccessDenied);
        }
        let mut out: Vec<u8> = Vec::new();
        let mut k: usize = 0;
        while k < len
            invariant
                offset + len <= src@.len(),
                offset + len <= usize::MAX,
                k <= len,
                out@ == src@.subrange(offset as int, offset + k as int),
            decreases len - k,
        {
            out.push(src[offset + k]);
            proof {
                assert(out@ =~= src@.subrange(offset as int, offset + k + 1 as int));
            }
            k += 1;
        }
        Ok(out)
    }

    /// Select the page the application sees.
    pub fn set_ecu_page(&mut self, page: u8) -> (r: Result<(), CalSegError>)
        requires
            old(self).wf(),
        ensures
            final(self).wf(),
            page <= 1 ==> r is Ok && *final(self) == (CalSeg { ecu_page: page, ..*old(self) }),
            page > 1 ==> r == Result::<(), CalSegError>::Err(CalSegError::PageNotValid)
                && *final(self) == *old(self),
    {
        if page > 1 {
            return Err(CalSegError::PageNotValid);
        }
        self.ecu_page = page;
        Ok(())
    }

    /// Select the page the tool sees.
    pub fn set_xcp_page(&mut self, page: u8) -> (r: Result<(), CalSegError>)
        requires
            old(self).wf(),
        ensures
            final(self).wf(),
            page <= 1 ==> r is Ok && *final(self) == (CalSeg { xcp_page: page, ..*old(self) }),
            page > 1 ==> r == Result::<(), CalSegError>::Err(CalSegError::PageNotValid)
                && *final(self) == *old(self),
    {
        if page > 1 {
            return Err(CalSegError::PageNotValid);
        }
        self.xcp_page = page;
        Ok(())
    }

    /// The page the application sees.
    pub fn get_ecu_page(&self) -> (r: u8)
        ensures
            r == self.spec_ecu_page(),
    {
        self.ecu_page
    }

    /// The page the tool sees.
    pub fn get_xcp_page(&self) -> (r: u8)
        ensures
            r == self.spec_xcp_page(),
    {
        self.xcp_page
    }

    /// Open a modify transaction: writes until `modify_end` are staged in
    /// a shadow copy of the working page and stay invisible. Opening a
    /// transaction twice changes nothing.
    pub fn modify_begin(&mut self)
        requires
            old(self).wf(),
        ensures
            final(self).wf(),
            final(self).working_bytes() == old(self).working_bytes(),
            final(self).default_bytes() == old(self).default_bytes(),
            final(self).ecu_bytes() == old(self).ecu_bytes(),
            final(self).spec_ecu_page() == old(self).spec_ecu_page(),
            final(self).spec_xcp_page() == old(self).spec_xcp_page(),
            final(self).spec_name() == old(self).spec_name(),
            final(self).spec_index() == old(self).spec_index(),
            final(self).in_transaction(),
            !old(self).in_transaction() ==> final(self).shadow_bytes() == Option::Some(
                old(self).working_bytes(),
            ),
            old(self).in_transaction() ==> final(self).shadow_bytes() == old(self).shadow_bytes(),
    {
        if self.shadow.is_none() {
            self.shadow = Some(self.working_page.clone());
        }
    }

    /// Close a modify transaction: the staged bytes replace the working
    /// page in one publication step. Closing without an open transaction
    /// changes nothing.
    pub fn modify_end(&mut self)
        requires
            old(self).wf(),
        ensures
            final(self).wf(),
            final(self).default_bytes() == old(self).default_bytes(),
            final(self).spec_ecu_page() == old(self).spec_ecu_page(),
            final(self).spec_xcp_page() == old(self).spec_xcp_page(),
            final(self).spec_name() == old(self).spec_name(),
            final(self).spec_index() == old(self).spec_index(),
            !final(self).in_transaction(),
            old(self).in_transaction() ==> final(self).working_bytes() == old(
                self,
            ).shadow_bytes()->0,
            !old(self).in_transaction() ==> final(self).working_bytes() == old(
                self,
            ).working_bytes(),
    {
        match self.shadow.take() {
            Some(sh) => {
                self.working_page = sh;
            },
            None => {},
        }
    }

    /// Bulk save of the working page bytes.
    pub fn freeze_to(&self) -> (r: Vec<u8>)
        ensures
            r@ == self.working_bytes(),
    {
        self.working_page.clone()
    }

    /// Bulk load of the working page bytes from a snapshot of the same
    /// size; a snapshot of another size fails `AccessDenied`.
    pub fn restore_from(&mut self, snapshot: &[u8]) -> (r: Result<(), CalSegError>)
        requires
            old(self).wf(),
        ensures
            final(self).wf(),
            r is Ok <==> snapshot@.len() == old(self).working_bytes().len(),
            r is Ok ==> final(self).working_bytes() == snapshot@,
            r is Err ==> *final(self) == *old(self) && r->Err_0 == CalSegError::AccessDenied,
            final(self).default_bytes() == old(self).default_bytes(),
            final(self).shadow_bytes() == old(self).shadow_bytes(),
            final(self).spec_ecu_page() == old(self).spec_ecu_page(),
            final(self).spec_xcp_page() == old(self).spec_xcp_page(),
            final(self).spec_name() == old(self).spec_name(),
            final(self).spec_index() == old(self).spec_index(),
    {
        if snapshot.len() != self.working_page.len() {
            return Err(CalSegError::AccessDenied);
        }
        let mut page: Vec<u8> = Vec::new();
        let len = snapshot.len();
        let mut k: usize = 0;
        while k < len
            invariant
                len == snapshot@.len(),
                k <= len,
                page@ == snapshot@.subrange(0, k as int),
            decreases len - k,
        {
            page.push(snapshot[k]);
            proof {
                assert(page@ =~= snapshot@.subrange(0, k + 1 as int));
            }
            k += 1;
        }
        proof {
            assert(page@ =~= snapshot@);
        }
        self.working_page = page;
        Ok(())
    }
}

/// Page swap round trip: selecting the default page and then the working
/// page again restores the exact pre-swap observable bytes for every cell,
/// because page selection never touches page contents.
pub proof fn lemma_page_swap_round_trip(s: CalSeg)
    requires
        s.wf(),
        s.spec_ecu_page() == CAL_PAGE_RAM,
    ensures
        (CalSeg { ecu_page: CAL_PAGE_RAM, ..(CalSeg { ecu_page: CAL_PAGE_FLASH, ..s }) }) == s,
        (CalSeg {
            ecu_page: CAL_PAGE_RAM,
            ..(CalSeg { ecu_page: CAL_PAGE_FLASH, ..s })
        }).ecu_bytes() == s.ecu_bytes(),
{
}

/// Bracketed consistency: for the command sequence `modify_begin`,
/// download of `d1` at `o1`, download of `d2` at `o2`, `modify_end`, a
/// reader of the working page between begin and end sees the pre-begin
/// bytes for both ranges, and after end it sees both new ranges together:
/// never `d1` without `d2`.
pub proof fn lemma_bracketed_consistency(
    s0: CalSeg,
    s1: CalSeg,
    s2: CalSeg,
    s3: CalSeg,
    s4: CalSeg,
    o1: int,
    d1: Seq<u8>,
    o2: int,
    d2: Seq<u8>,
)
    requires
        s0.wf(),
        !s0.in_transaction(),
        // s1 is s0 after modify_begin
        s1.working_bytes() == s0.working_bytes(),
        s1.shadow_bytes() == Option::Some(s0.working_bytes()),
        // s2 is s1 after a staged download of d1 at o1
        0 <= o1 && o1 + d1.len() <= s0.working_bytes().len(),
        s2.working_bytes() == s1.working_bytes(),
        s2.shadow_bytes() == Option::Some(splice_bytes(s1.shadow_bytes()->0, o1, d1)),
        // s3 is s2 after a staged download of d2 at o2
        0 <= o2 && o2 + d2.len() <= s0.working_bytes().len(),
        o1 + d1.len() <= o2 || o2 + d2.len() <= o1,
        s3.working_bytes() == s2.working_bytes(),
        s3.shadow_bytes() == Option::Some(splice_bytes(s2.shadow_bytes()->0, o2, d2)),
        // s4 is s3 after modify_end
        s4.working_bytes() == s3.shadow_bytes()->0,
    ensures
        // between begin and end, the working page holds the pre-begin bytes
        s1.working_bytes() == s0.working_bytes(),
        s2.working_bytes() == s0.working_bytes(),
        s3.working_bytes() == s0.working_bytes(),
        // at end, both ranges carry the new bytes together
        forall|i: int| o1 <= i < o1 + d1.len() ==> s4.working_bytes()[i] == d1[i - o1],
        forall|i: int| o2 <= i < o2 + d2.len() ==> s4.working_bytes()[i] == d2[i - o2],
        // and every byte outside the two ranges is unchanged
        forall|i: int|
            0 <= i < s0.working_bytes().len() && !(o1 <= i < o1 + d1.len()) && !(o2 <= i < o2
                + d2.len()) ==> s4.working_bytes()[i] == s0.working_bytes()[i],
{
    let w0 = s0.working_bytes();
    let sh1 = splice_bytes(w0, o1, d1);
    lemma_splice_bytes(w0, o1, d1);
    lemma_splice_bytes(sh1, o2, d2);
    assert(s4.working_bytes() == splice_bytes(sh1, o2, d2));
}

} // verus!
