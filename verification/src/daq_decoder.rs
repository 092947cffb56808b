//! Decoding of DAQ frames on the tool side: transport headers, the DAQ
//! header, little-endian values and the 32-bit raw timestamps lifted to 64
//! bits through high-water tracking.

use vstd::prelude::*;

verus! {

/// One unfolding step of the power function at base 256.
proof fn lemma_pow256_unfold(e: nat)
    requires
        e >= 1,
    ensures
        vstd::arithmetic::power::pow(256, e) == 256 * vstd::arithmetic::power::pow(
            256,
            (e - 1) as nat,
        ),
{
    reveal(vstd::arithmetic::power::pow);
}

/// The powers of 256 used by the byte-value proofs, by unfolding.
proof fn lemma_pow256_values()
    ensures
        vstd::arithmetic::power::pow(256, 0) == 1,
        vstd::arithmetic::power::pow(256, 1) == 0x100,
        vstd::arithmetic::power::pow(256, 2) == 0x10000,
        vstd::arithmetic::power::pow(256, 3) == 0x100_0000,
        vstd::arithmetic::power::pow(256, 4) == 0x1_0000_0000,
        vstd::arithmetic::power::pow(256, 5) == 0x100_0000_0000,
        vstd::arithmetic::power::pow(256, 6) == 0x1_0000_0000_0000,
        vstd::arithmetic::power::pow(256, 7) == 0x100_0000_0000_0000,
        vstd::arithmetic::power::pow(256, 8) == 0x1_0000_0000_0000_0000,
{
    assert(vstd::arithmetic::power::pow(256, 0) == 1) by {
        vstd::arithmetic::power::lemma_pow0(256);
    }
    assert(vstd::arithmetic::power::pow(256, 1) == 0x100) by {
        lemma_pow256_unfold(1);
    }
    assert(vstd::arithmetic::power::pow(256, 2) == 0x10000) by {
        lemma_pow256_unfold(2);
    }
    assert(vstd::arithmetic::power::pow(256, 3) == 0x100_0000) by {
        lemma_pow256_unfold(3);
    }
    assert(vstd::arithmetic::power::pow(256, 4) == 0x1_0000_0000) by {
        lemma_pow256_unfold(4);
    }
    assert(vstd::arithmetic::power::pow(256, 5) == 0x100_0000_0000) by {
        lemma_pow256_unfold(5);
    }
    assert(vstd::arithmetic::power::pow(256, 6) == 0x1_0000_0000_0000) by {
        lemma_pow256_unfold(6);
    }
    assert(vstd::arithmetic::power::pow(256, 7) == 0x100_0000_0000_0000) by {
        lemma_pow256_unfold(7);
    }
    assert(vstd::arithmetic::power::pow(256, 8) == 0x1_0000_0000_0000_0000) by {
        lemma_pow256_unfold(8);
    }
}

/// Four bytes hold values below two to the thirty-second power.
pub proof fn lemma_pow256_value_4()
    ensures
        vstd::arithmetic::power::pow(256, 4) == 0x1_0000_0000,
{
    lemma_pow256_values();
}

/// Little-endian value of a byte sequence (first byte least significant).
pub open spec fn le_value(bytes: Seq<u8>) -> int
    decreases bytes.len(),
{
    if bytes.len() == 0 {
        0
    } else {
        bytes[0] + 256 * le_value(bytes.drop_first())
    }
}

/// The little-endian value is bounded by 256 to the number of bytes.
pub proof fn lemma_le_value_bound(bytes: Seq<u8>)
    ensures
        0 <= le_value(bytes) < vstd::arithmetic::power::pow(256, bytes.len() as nat),
    decreases bytes.len(),
{
    vstd::arithmetic::power::lemma_pow_positive(256, bytes.len() as nat);
    if bytes.len() > 0 {
        lemma_le_value_bound(bytes.drop_first());
        assert(vstd::arithmetic::power::pow(256, bytes.len() as nat) == 256
            * vstd::arithmetic::power::pow(256, (bytes.len() - 1) as nat)) by {
            lemma_pow256_unfold(bytes.len() as nat);
        }
    }
}

/// Signed little-endian value: two's complement over the byte count.
pub open spec fn le_value_signed(bytes: Seq<u8>) -> int {
    let unsigned = le_value(bytes);
    let width = vstd::arithmetic::power::pow(256, bytes.len() as nat);
    if bytes.len() > 0 && bytes.last() >= 0x80 {
        unsigned - width
    } else {
        unsigned
    }
}

/// Read a little-endian unsigned value of up to 8 bytes.
pub fn read_le_u64(data: &[u8], offset: usize, size: usize) -> (r: u64)
    requires
        size <= 8,
        offset + size <= data@.len(),
    ensures
        r == le_value(data@.subrange(offset as int, offset + size as int)),
{
    let ghost full = data@.subrange(offset as int, offset + size as int);
    let n = data.len();
    let mut acc: u64 = 0;
    let mut k: usize = size;
    proof {
        assert(full.subrange(size as int, size as int) =~= Seq::<u8>::empty());
        vstd::arithmetic::power::lemma_pow0(256);
    }
    while k > 0
        invariant
            size <= 8,
            k <= size,
            offset + size <= n,
            n == data@.len(),
            full == data@.subrange(offset as int, offset + size as int),
            acc == le_value(full.subrange(k as int, size as int)),
            acc < vstd::arithmetic::power::pow(256, (size - k) as nat),
        decreases k,
    {
        proof {
            lemma_le_value_bound(full.subrange(k as int, size as int));
            lemma_pow256_unfold((size - k + 1) as nat);
            vstd::arithmetic::power::lemma_pow_positive(256, (size - k) as nat);
            assert(vstd::arithmetic::power::pow(256, (size - k) as nat)
                <= vstd::arithmetic::power::pow(256, 7)) by {
                vstd::arithmetic::power::lemma_pow_increases(256, (size - k) as nat, 7);
            }
            lemma_pow256_values();
        }
        k -= 1;
        let b = data[offset + k];
        acc = acc * 256 + (b as u64);
        proof {
            let tail = full.subrange(k as int, size as int);
            assert(tail[0] == b);
            assert(tail.drop_first() =~= full.subrange(k + 1 as int, size as int));
        }
    }
    proof {
        assert(full.subrange(0, size as int) =~= full);
    }
    acc
}

/// Read a little-endian signed value of 1 to 8 bytes, sign extending the
/// top bit.
pub fn read_le_i64(data: &[u8], offset: usize, size: usize) -> (r: i64)
    requires
        1 <= size <= 8,
        offset + size <= data@.len(),
    ensures
        r == le_value_signed(data@.subrange(offset as int, offset + size as int)),
{
    let ghost full = data@.subrange(offset as int, offset + size as int);
    let n = data.len();
    let unsigned = read_le_u64(data, offset, size);
    let top = data[offset + size - 1];
    proof {
        assert(full.last() == top);
        lemma_le_value_bound(full);
    }
    if size == 8 {
        proof {
            lemma_pow256_values();
        }
        if top >= 0x80 {
            let r = (unsigned as i128 - 0x1_0000_0000_0000_0000i128) as i64;
            proof {
                assert(unsigned >= 0x8000_0000_0000_0000u64) by {
                    assert(le_value(full) == le_value(full.subrange(0, 7)) + full[7]
                        * 0x100_0000_0000_0000) by {
                        lemma_le_split_last(full);
                    }
                    lemma_le_value_bound(full.subrange(0, 7));
                    lemma_pow256_values();
                }
            }
            r
        } else {
            proof {
                assert(unsigned < 0x8000_0000_0000_0000u64) by {
                    assert(le_value(full) == le_value(full.subrange(0, 7)) + full[7]
                        * 0x100_0000_0000_0000) by {
                        lemma_le_split_last(full);
                    }
                    lemma_le_value_bound(full.subrange(0, 7));
                    lemma_pow256_values();
                }
            }
            unsigned as i64
        }
    } else {
        proof {
            assert(vstd::arithmetic::power::pow(256, size as nat)
                <= vstd::arithmetic::power::pow(256, 7)) by {
                vstd::arithmetic::power::lemma_pow_increases(256, size as nat, 7);
            }
            lemma_pow256_values();
        }
        if top >= 0x80 {
            let width: u64 = 1u64 << (8 * size as u64);
            proof {
                lemma_shift_is_pow(size as u64);
            }
            (unsigned as i64) - (width as i64)
        } else {
            unsigned as i64
        }
    }
}

/// The little-endian value splits into the lower bytes plus the last byte
/// at its place value.
proof fn lemma_le_split_last(bytes: Seq<u8>)
    requires
        bytes.len() >= 1,
    ensures
        le_value(bytes) == le_value(bytes.subrange(0, bytes.len() - 1)) + bytes.last()
            * vstd::arithmetic::power::pow(256, (bytes.len() - 1) as nat),
    decreases bytes.len(),
{
    if bytes.len() == 1 {
        assert(bytes.subrange(0, 0) =~= Seq::<u8>::empty());
        vstd::arithmetic::power::lemma_pow0(256);
        assert(bytes.drop_first() =~= Seq::<u8>::empty());
    } else {
        let rest = bytes.drop_first();
        lemma_le_split_last(rest);
        assert(rest.subrange(0, rest.len() - 1) =~= bytes.subrange(0, bytes.len() - 1).drop_first());
        assert(rest.last() == bytes.last());
        lemma_pow256_unfold((bytes.len() - 1) as nat);
        assert(le_value(bytes) == bytes[0] + 256 * le_value(rest));
        assert(le_value(bytes.subrange(0, bytes.len() - 1)) == bytes[0] + 256 * le_value(
            rest.subrange(0, rest.len() - 1),
        ));
        assert(256 * (bytes.last() * vstd::arithmetic::power::pow(256, (rest.len() - 1) as nat))
            == bytes.last() * (256 * vstd::arithmetic::power::pow(256, (rest.len() - 1) as nat)))
            by (nonlinear_arith);
    }
}

/// A left shift by one byte step multiplies by the matching power of 256.
proof fn lemma_shift_is_pow(size: u64)
    requires
        1 <= size <= 7,
    ensures
        (1u64 << (8 * size)) == vstd::arithmetic::power::pow(256, size as nat),
{
    assert((size == 1 ==> (1u64 << (8 * size)) == 0x100) && (size == 2 ==> (1u64 << (8 * size))
        == 0x10000) && (size == 3 ==> (1u64 << (8 * size)) == 0x100_0000) && (size == 4 ==> (1u64
        << (8 * size)) == 0x1_0000_0000) && (size == 5 ==> (1u64 << (8 * size))
        == 0x100_0000_0000) && (size == 6 ==> (1u64 << (8 * size)) == 0x1_0000_0000_0000) && (size
        == 7 ==> (1u64 << (8 * size)) == 0x100_0000_0000_0000)) by (bit_vector)
        requires
            1 <= size <= 7,
    ;
    lemma_pow256_values();
}

/// The 64-bit timestamp reconstructed from the last full timestamp and a
/// new raw 32-bit timestamp: the high word advances by one when the raw
/// value wrapped below the last low word.
pub open spec fn spec_lift_timestamp(last: u64, raw: u32) -> int {
    let high = last / 0x1_0000_0000;
    if raw < last % 0x1_0000_0000 {
        (high + 1) * 0x1_0000_0000 + raw
    } else {
        high * 0x1_0000_0000 + raw
    }
}

/// Timestamp monotonicity, one step: a lifted timestamp never falls below
/// its predecessor, and it carries the raw value in its low 32 bits.
pub proof fn lemma_lift_timestamp_monotonic(last: u64, raw: u32)
    ensures
        spec_lift_timestamp(last, raw) >= last,
        spec_lift_timestamp(last, raw) % 0x1_0000_0000 == raw,
        spec_lift_timestamp(last, raw) < last + 0x1_0000_0000,
{
    let high = last / 0x1_0000_0000;
    let low = last % 0x1_0000_0000;
    assert(last == high * 0x1_0000_0000 + low);
    if raw < low {
        assert((high + 1) * 0x1_0000_0000 + raw == high * 0x1_0000_0000 + 0x1_0000_0000 + raw);
        assert(((high + 1) * 0x1_0000_0000 + raw) % 0x1_0000_0000 == raw) by (nonlinear_arith)
            requires
                0 <= raw < 0x1_0000_0000,
        ;
    } else {
        assert((high * 0x1_0000_0000 + raw) % 0x1_0000_0000 == raw) by (nonlinear_arith)
            requires
                0 <= raw < 0x1_0000_0000,
        ;
    }
}

/// The lifted timestamps of a raw timestamp run, starting from `t0`.
pub open spec fn spec_lift_run(t0: u64, raws: Seq<u32>) -> Seq<int>
    decreases raws.len(),
{
    if raws.len() == 0 {
        Seq::empty()
    } else {
        let t1 = spec_lift_timestamp(t0, raws[0]);
        seq![t1 as int] + spec_lift_run(t1 as u64, raws.drop_first())
    }
}

/// Timestamp monotonicity over a run: successive raw 32-bit timestamps
/// lifted to 64 bits through high-water tracking form a non-decreasing
/// sequence, as long as the 64-bit clock stays below its final epoch.
pub proof fn lemma_lift_run_monotonic(t0: u64, raws: Seq<u32>)
    requires
        t0 + 0x1_0000_0000 * raws.len() <= u64::MAX,
    ensures
        spec_lift_run(t0, raws).len() == raws.len(),
        forall|i: int| 0 <= i < raws.len() ==> #[trigger] spec_lift_run(t0, raws)[i] >= t0,
        forall|i: int, j: int|
            0 <= i < j < raws.len() ==> #[trigger] spec_lift_run(t0, raws)[i]
                <= #[trigger] spec_lift_run(t0, raws)[j],
    decreases raws.len(),
{
    if raws.len() > 0 {
        let t1 = spec_lift_timestamp(t0, raws[0]);
        lemma_lift_timestamp_monotonic(t0, raws[0]);
        lemma_lift_run_monotonic(t1 as u64, raws.drop_first());
        let run = spec_lift_run(t0, raws);
        let rest = spec_lift_run(t1 as u64, raws.drop_first());
        assert forall|i: int, j: int| 0 <= i < j < raws.len() implies #[trigger] run[i]
            <= #[trigger] run[j] by {
            if i == 0 {
                assert(run[j] == rest[j - 1]);
                assert(rest[j - 1] >= t1 as u64);
            } else {
                assert(run[i] == rest[i - 1] && run[j] == rest[j - 1]);
            }
        }
    }
}

/// Lift a raw 32-bit timestamp to 64 bits against the last full timestamp.
pub fn lift_timestamp(last: u64, raw: u32) -> (t: u64)
    requires
        last + 0x1_0000_0000 <= u64::MAX,
    ensures
        t == spec_lift_timestamp(last, raw),
        t >= last,
        t % 0x1_0000_0000 == raw,
{
    proof {
        lemma_lift_timestamp_monotonic(last, raw);
    }
    let low: u32 = (last % 0x1_0000_0000) as u32;
    let high: u64 = last / 0x1_0000_0000;
    if raw < low {
        (high + 1) * 0x1_0000_0000 + (raw as u64)
    } else {
        high * 0x1_0000_0000 + (raw as u64)
    }
}

/// One decoded DAQ frame header.
#[derive(Debug, PartialEq)]
pub struct DaqFrame {
    /// DAQ list number.
    pub daq: u16,
    /// ODT number within the frame.
    pub odt: u8,
    /// Raw 32-bit timestamp, present on the first ODT of a frame.
    pub timestamp_raw: Option<u32>,
    /// Payload bytes after header and timestamp.
    pub data: Vec<u8>,
}

/// Parse the DAQ header of a frame for the given negotiated header size
/// (2 or 4 bytes). The first ODT of a frame carries a 4-byte raw
/// timestamp before the payload.
pub fn parse_daq_frame(buf: &[u8], daq_header_size: u8) -> (r: Option<DaqFrame>)
    requires
        daq_header_size == 2 || daq_header_size == 4,
    ensures
        match r {
            Option::Some(f) => {
                let hdr = daq_header_size as int;
                &&& buf@.len() >= hdr
                &&& f.odt == buf@[0]
                &&& (daq_header_size == 4 ==> f.daq == buf@[2] + buf@[3] * 0x100)
                &&& (daq_header_size == 2 ==> f.daq == buf@[1])
                &&& (f.odt == 0 ==> buf@.len() >= hdr + 4 && f.timestamp_raw == Option::Some(
                    (le_value(buf@.subrange(hdr, hdr + 4)) as u32),
                ) && f.data@ == buf@.subrange(hdr + 4, buf@.len() as int))
                &&& (f.odt != 0 ==> f.timestamp_raw is None && f.data@ == buf@.subrange(
                    hdr,
                    buf@.len() as int,
                ))
            },
            Option::None => buf@.len() < daq_header_size || (buf@[0] == 0 && buf@.len()
                < daq_header_size + 4),
        },
{
    let hdr: usize = daq_header_size as usize;
    if buf.len() < hdr {
        return None;
    }
    let odt = buf[0];
    let daq: u16 = if hdr == 4 {
        (buf[2] as u16) + ((buf[3] as u16) * 0x100)
    } else {
        buf[1] as u16
    };
    if odt == 0 {
        if buf.len() < hdr + 4 {
            return None;
        }
        let ts = read_le_u64(buf, hdr, 4) as u32;
        proof {
            lemma_le_value_bound(buf@.subrange(hdr as int, hdr + 4 as int));
            lemma_pow256_values();
        }
        let mut data: Vec<u8> = Vec::new();
        let n = buf.len();
        let mut k: usize = hdr + 4;
        while k < n
            invariant
                hdr + 4 <= k <= n,
                n == buf@.len(),
                data@ == buf@.subrange(hdr + 4 as int, k as int),
            decreases n - k,
        {
            data.push(buf[k]);
            proof {
                assert(data@ =~= buf@.subrange(hdr + 4 as int, k + 1 as int));
            }
            k += 1;
        }
        Some(DaqFrame { daq, odt, timestamp_raw: Some(ts), data })
    } else {
        let mut data: Vec<u8> = Vec::new();
        let n = buf.len();
        let mut k: usize = hdr;
        while k < n
            invariant
                hdr <= k <= n,
                n == buf@.len(),
                data@ == buf@.subrange(hdr as int, k as int),
            decreases n - k,
        {
            data.push(buf[k]);
            proof {
                assert(data@ =~= buf@.subrange(hdr as int, k + 1 as int));
            }
            k += 1;
        }
        Some(DaqFrame { daq, odt, timestamp_raw: None, data })
    }
}

/// One ODT entry description on the decoder side: where a value sits in
/// the frame payload and how wide it is.
#[derive(Debug, PartialEq)]
pub struct OdtEntry {
    /// Instance name of the decoded signal.
    pub name: String,
    /// Byte size of the value.
    pub size: usize,
    /// Offset of the value from the start of the payload.
    pub offset: u16,
    /// True when the value is signed and must be sign extended.
    pub signed: bool,
}

impl Clone for OdtEntry {
    fn clone(&self) -> (r: Self)
        ensures
            r == *self,
    {
        OdtEntry {
            name: self.name.clone(),
            size: self.size,
            offset: self.offset,
            signed: self.signed,
        }
    }
}

/// Decoder state for the DAQ stream of one session: per-list high-water
/// timestamps and the running event and byte counts.
#[derive(Debug)]
pub struct DaqDecoder {
    /// Last full 64-bit timestamp per DAQ list.
    pub daq_timestamp: Vec<u64>,
    /// Nanoseconds per raw timestamp tick.
    pub timestamp_resolution: u64,
    /// Negotiated DAQ header size, 2 or 4.
    pub daq_header_size: u8,
    /// Frames decoded so far.
    pub event_count: u64,
    /// Payload bytes decoded so far.
    pub byte_count: u64,
    /// Counter gaps summed so far (lost frames reported by the transport).
    pub lost_count: u64,
}

impl DaqDecoder {
    /// Decoder state for `max_daq` DAQ lists, all high-water timestamps at
    /// the measurement start time.
    pub fn new(max_daq: usize, start_timestamp: u64) -> (r: DaqDecoder)
        ensures
            r.daq_timestamp@.len() == max_daq,
            forall|i: int| 0 <= i < max_daq ==> #[trigger] r.daq_timestamp@[i] == start_timestamp,
            r.timestamp_resolution == 1,
            r.daq_header_size == 4,
            r.event_count == 0,
            r.byte_count == 0,
            r.lost_count == 0,
    {
        let mut ts: Vec<u64> = Vec::new();
        let mut i: usize = 0;
        while i < max_daq
            invariant
                i <= max_daq,
                ts@.len() == i,
                forall|j: int| 0 <= j < i ==> #[trigger] ts@[j] == start_timestamp,
            decreases max_daq - i,
        {
            ts.push(start_timestamp);
            i += 1;
        }
        DaqDecoder {
            daq_timestamp: ts,
            timestamp_resolution: 1,
            daq_header_size: 4,
            event_count: 0,
            byte_count: 0,
            lost_count: 0,
        }
    }

    /// Set the negotiated timestamp resolution and DAQ header size.
    pub fn set_daq_properties(&mut self, timestamp_resolution: u64, daq_header_size: u8)
        requires
            daq_header_size == 2 || daq_header_size == 4,
        ensures
            final(self).timestamp_resolution == timestamp_resolution,
            final(self).daq_header_size == daq_header_size,
            final(self).daq_timestamp@ == old(self).daq_timestamp@,
            final(self).event_count == old(self).event_count,
            final(self).byte_count == old(self).byte_count,
            final(self).lost_count == old(self).lost_count,
    {
        self.timestamp_resolution = timestamp_resolution;
        self.daq_header_size = daq_header_size;
    }

    /// Decode one DAQ frame: parse the header, lift the raw timestamp of
    /// a first ODT through the list's high-water timestamp, account the
    /// transport loss, and return the frame.
    ///
    /// Each list's recorded timestamps never decrease across calls.
    pub fn decode(&mut self, lost: u32, buf: &[u8]) -> (r: Option<DaqFrame>)
        requires
            old(self).daq_header_size == 2 || old(self).daq_header_size == 4,
            forall|i: int|
                0 <= i < old(self).daq_timestamp@.len() ==> #[trigger] old(self).daq_timestamp@[i]
                    + 0x1_0000_0000 <= u64::MAX,
            old(self).event_count < u64::MAX,
            old(self).byte_count + buf@.len() <= u64::MAX,
            old(self).lost_count + lost <= u64::MAX,
        ensures
            final(self).daq_header_size == old(self).daq_header_size,
            final(self).timestamp_resolution == old(self).timestamp_resolution,
            final(self).daq_timestamp@.len() == old(self).daq_timestamp@.len(),
            forall|i: int|
                0 <= i < final(self).daq_timestamp@.len() ==> #[trigger] final(self).daq_timestamp@[i] >= old(self).daq_timestamp@[i],
            match r {
                Option::Some(f) => {
                    let hdr = old(self).daq_header_size as int;
                    &&& buf@.len() >= hdr
                    &&& f.odt == buf@[0]
                    &&& (old(self).daq_header_size == 4 ==> f.daq == buf@[2] + buf@[3] * 0x100)
                    &&& (old(self).daq_header_size == 2 ==> f.daq == buf@[1])
                    &&& (f.odt == 0 ==> buf@.len() >= hdr + 4 && f.timestamp_raw == Option::Some(
                        (le_value(buf@.subrange(hdr, hdr + 4)) as u32),
                    ) && f.data@ == buf@.subrange(hdr + 4, buf@.len() as int))
                    &&& (f.odt != 0 ==> f.timestamp_raw is None && f.data@ == buf@.subrange(
                        hdr,
                        buf@.len() as int,
                    ))
                    &&& f.daq < old(self).daq_timestamp@.len()
                    &&& final(self).event_count == old(self).event_count + 1
                    &&& final(self).byte_count == old(self).byte_count + f.data@.len()
                    &&& final(self).lost_count == old(self).lost_count + lost
                    &&& (f.timestamp_raw is Some ==> final(self).daq_timestamp@[f.daq as int]
                        == spec_lift_timestamp(
                        old(self).daq_timestamp@[f.daq as int],
                        f.timestamp_raw->0,
                    ) && (forall|i: int|
                        0 <= i < final(self).daq_timestamp@.len() && i != f.daq ==> #[trigger] final(self).daq_timestamp@[i] == old(self).daq_timestamp@[i]))
                    &&& (f.timestamp_raw is None ==> final(self).daq_timestamp@ == old(self).daq_timestamp@)
                },
                Option::None => *final(self) == *old(self),
            },
    {
        let hs = self.daq_header_size;
        let parsed = parse_daq_frame(buf, hs);
        match parsed {
            Some(f) => {
                if (f.daq as usize) >= self.daq_timestamp.len() {
                    return None;
                }
                match f.timestamp_raw {
                    Some(raw) => {
                        let last = self.daq_timestamp[f.daq as usize];
                        let t = lift_timestamp(last, raw);
                        let ghost before = self.daq_timestamp@;
                        self.daq_timestamp.set(f.daq as usize, t);
                        proof {
                            assert(self.daq_timestamp@ =~= before.update(f.daq as int, t));
                        }
                    },
                    None => {},
                }
                self.event_count = self.event_count + 1;
                self.byte_count = self.byte_count + (f.data.len() as u64);
                self.lost_count = self.lost_count + (lost as u64);
                Some(f)
            },
            None => None,
        }
    }
}

} // verus!
