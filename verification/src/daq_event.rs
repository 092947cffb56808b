//! DAQ events and their capture buffers.
//!
//! An event is a named synchronization point; a `DaqEvent` adds an
//! optional capture buffer of fixed capacity into which the application
//! snapshots variable values before triggering. Addresses of captured
//! variables are offsets into that buffer (dynamic addressing).

use vstd::prelude::*;

use crate::cal_seg::splice_bytes;
use crate::server::daq_frame_bytes;
use crate::server::entries_fit;
use crate::server::list_triggers;
use crate::server::XcpServer;

verus! {

/// Handle of one event: the channel number used on the wire and the
/// instance index for multi-instance events.
#[derive(Debug, Copy, Clone, PartialEq, Eq, Structural)]
pub struct XcpEvent {
    /// Event channel, the unique id used on the wire.
    pub channel: u16,
    /// Instance index, 0 for a single-instance event.
    pub index: u16,
}

impl XcpEvent {
    /// An event handle from channel number and instance index.
    pub fn new(channel: u16, index: u16) -> (r: XcpEvent)
        ensures
            r.channel == channel,
            r.index == index,
    {
        XcpEvent { channel, index }
    }

    /// The event channel number.
    pub fn get_channel(&self) -> (r: u16)
        ensures
            r == self.channel,
    {
        self.channel
    }

    /// The instance index.
    pub fn get_index(&self) -> (r: u16)
        ensures
            r == self.index,
    {
        self.index
    }
}

/// A DAQ event with its capture buffer. The buffer's capacity is fixed at
/// creation; `allocate` reserves a range in it and `capture` copies the
/// bytes of one variable into its reserved range.
#[derive(Debug)]
pub struct DaqEvent {
    /// The underlying event.
    pub event: XcpEvent,
    /// Bytes of the buffer already reserved by `allocate`.
    pub buffer_len: usize,
    /// The capture buffer; its length is the fixed capacity.
    pub buffer: Vec<u8>,
}

impl DaqEvent {
    /// A DAQ event over an existing event handle, with a zeroed capture
    /// buffer of the given capacity.
    pub fn new_from(xcp_event: &XcpEvent, capacity: usize) -> (r: DaqEvent)
        ensures
            r.event == *xcp_event,
            r.buffer_len == 0,
            r.buffer@.len() == capacity,
            forall|i: int| 0 <= i < capacity ==> #[trigger] r.buffer@[i] == 0,
    {
        let mut buffer: Vec<u8> = Vec::new();
        let mut i: usize = 0;
        while i < capacity
            invariant
                i <= capacity,
                buffer@.len() == i,
                forall|j: int| 0 <= j < i ==> #[trigger] buffer@[j] == 0,
            decreases capacity - i,
        {
            buffer.push(0);
            i += 1;
        }
        DaqEvent { event: *xcp_event, buffer_len: 0, buffer }
    }

    /// The fixed capacity of the capture buffer.
    pub fn get_capacity(&self) -> (r: usize)
        ensures
            r == self.buffer@.len(),
    {
        self.buffer.len()
    }

    /// Reserve `size` bytes in the capture buffer and return the offset
    /// of the reserved range. The caller must have checked that the
    /// buffer has room and that the offset fits the signed 16-bit
    /// dynamic address offset.
    pub fn allocate(&mut self, size: usize) -> (offset: i16)
        requires
            old(self).buffer_len + size <= old(self).buffer@.len(),
            old(self).buffer_len <= i16::MAX,
        ensures
            offset == old(self).buffer_len,
            final(self).buffer_len == old(self).buffer_len + size,
            final(self).buffer@ == old(self).buffer@,
            final(self).event == old(self).event,
    {
        let _cap = self.buffer.len();
        let offset = self.buffer_len;
        self.buffer_len = offset + size;
        offset as i16
    }

    /// Reserve `size` bytes if the buffer has room and the offset fits
    /// the signed 16-bit dynamic address offset; reservation fails with
    /// nothing changed when the capacity is exhausted.
    pub fn try_allocate(&mut self, size: usize) -> (r: Option<i16>)
        ensures
            r is Some <==> old(self).buffer_len + size <= old(self).buffer@.len() && old(
                self,
            ).buffer_len <= i16::MAX,
            r is Some ==> r->0 == old(self).buffer_len && final(self).buffer_len == old(
                self,
            ).buffer_len + size,
            r is None ==> *final(self) == *old(self),
            final(self).buffer@ == old(self).buffer@,
            final(self).event == old(self).event,
    {
        if self.buffer_len > i16::MAX as usize {
            return None;
        }
        if size > self.buffer.len() || self.buffer_len > self.buffer.len() - size {
            return None;
        }
        Some(self.allocate(size))
    }

    /// Trigger this event: every measuring DAQ list bound to it samples
    /// its entries from this event's capture buffer into the DTO ring.
    pub fn trigger(&self, server: &mut XcpServer)
        requires
            old(server).wf(),
            old(server).daq_lists@.len() <= 0xFFFF,
            old(server).ring.next_ctr + old(server).daq_lists@.len() + 0x10000 < u64::MAX,
        ensures
            final(server).wf(),
            final(server).segments@ == old(server).segments@,
            final(server).registry == old(server).registry,
            final(server).daq_lists@ == old(server).daq_lists@,
            final(server).connected == old(server).connected,
            final(server).clock == old(server).clock,
            final(server).ring.depth == old(server).ring.depth,
            final(server).ring.lost >= old(server).ring.lost,
            (forall|j: int|
                0 <= j < old(server).daq_lists@.len() ==> !list_triggers(
                    #[trigger] old(server).daq_lists@[j],
                    self.event.channel,
                )) ==> final(server).ring == old(server).ring,
            // with exactly one measuring list bound to this event whose
            // entries fit the capture buffer, exactly one frame carrying
            // this buffer's samples is offered to the ring
            forall|w: int|
                0 <= w < old(server).daq_lists@.len() && list_triggers(
                    #[trigger] old(server).daq_lists@[w],
                    self.event.channel,
                ) && (forall|k: int|
                    0 <= k < old(server).daq_lists@.len() && k != w ==> !list_triggers(
                        #[trigger] old(server).daq_lists@[k],
                        self.event.channel,
                    )) && entries_fit(old(server).daq_lists@[w].entries@, self.buffer@) ==> {
                    let frame = daq_frame_bytes(
                        w as u16,
                        (old(server).clock % 0x1_0000_0000) as u32,
                        old(server).daq_lists@[w].entries@,
                        self.buffer@,
                    );
                    &&& final(server).ring.next_ctr == old(server).ring.next_ctr + 1
                    &&& (old(server).ring.entries@.len() < old(server).ring.depth ==> final(server).ring.entries@.len()
                        == old(server).ring.entries@.len() + 1
                        && final(server).ring.entries@.last().payload@ == frame
                        && final(server).ring.entries@.last().ctr == old(server).ring.next_ctr
                        && final(server).ring.lost == old(server).ring.lost)
                    &&& (old(server).ring.entries@.len() >= old(server).ring.depth ==> final(server).ring.entries@
                        == old(server).ring.entries@ && final(server).ring.lost == old(server).ring.lost
                        + 1)
                },
    {
        server.trigger_event(self.event.channel, self.buffer.as_slice());
    }

    /// Copy the bytes of one variable into its reserved range of the
    /// capture buffer.
    pub fn capture(&mut self, data: &[u8], offset: i16)
        requires
            offset >= 0,
            offset + data@.len() <= old(self).buffer@.len(),
        ensures
            final(self).buffer@ == splice_bytes(old(self).buffer@, offset as int, data@),
            final(self).buffer_len == old(self).buffer_len,
            final(self).event == old(self).event,
    {
        let off = offset as usize;
        let len = data.len();
        let n = self.buffer.len();
        let mut k: usize = 0;
        while k < len
            invariant
                len == data@.len(),
                off + len <= n,
                n == self.buffer@.len(),
                n == old(self).buffer@.len(),
                k <= len,
                self.buffer_len == old(self).buffer_len,
                self.event == old(self).event,
                forall|i: int|
                    0 <= i < n ==> #[trigger] self.buffer@[i] == (if off <= i < off + k {
                        data@[i - off]
                    } else {
                        old(self).buffer@[i]
                    }),
            decreases len - k,
        {
            self.buffer.set(off + k, data[k]);
            k += 1;
        }
        proof {
            assert(self.buffer@ =~= splice_bytes(old(self).buffer@, offset as int, data@));
        }
    }
}

} // verus!
