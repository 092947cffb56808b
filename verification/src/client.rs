//! Tool-side object handles: resolved addresses and types of calibration
//! and measurement objects, and the cached value of a calibration object.

use vstd::prelude::*;

use crate::daq_decoder::le_value;
use crate::daq_decoder::le_value_signed;
use crate::daq_decoder::read_le_i64;
use crate::daq_decoder::read_le_u64;
use crate::mc_type::McValueType;

verus! {

/// A resolved wire address with the optional event that samples it.
#[derive(Debug, Clone, Copy, PartialEq, Eq, Structural)]
pub struct A2lAddr {
    /// Wire address extension.
    pub ext: u8,
    /// Wire address.
    pub addr: u32,
    /// Event id for measurement objects.
    pub event: Option<u16>,
}

/// Value encoding of an object, as the decoder needs it.
#[derive(Debug, Clone, Copy, PartialEq, Eq, Structural)]
pub enum A2lTypeEncoding {
    Signed,
    Unsigned,
    Float,
    Blob,
}

impl A2lTypeEncoding {
    /// The encoding of a value type.
    pub fn of_value_type(value_type: &McValueType) -> (r: A2lTypeEncoding)
        ensures
            (value_type is Bool || value_type is Ubyte || value_type is Uword || value_type
                is Ulong || value_type is Ulonglong) ==> r == A2lTypeEncoding::Unsigned,
            (value_type is Sbyte || value_type is Sword || value_type is Slong || value_type
                is Slonglong) ==> r == A2lTypeEncoding::Signed,
            (value_type is Float32Ieee || value_type is Float64Ieee) ==> r
                == A2lTypeEncoding::Float,
            (value_type is Unknown || value_type is Blob || value_type is TypeDef) ==> r
                == A2lTypeEncoding::Blob,
    {
        match value_type {
            McValueType::Bool
            | McValueType::Ubyte
            | McValueType::Uword
            | McValueType::Ulong
            | McValueType::Ulonglong => A2lTypeEncoding::Unsigned,
            McValueType::Sbyte
            | McValueType::Sword
            | McValueType::Slong
            | McValueType::Slonglong => A2lTypeEncoding::Signed,
            McValueType::Float32Ieee | McValueType::Float64Ieee => A2lTypeEncoding::Float,
            _ => A2lTypeEncoding::Blob,
        }
    }
}

/// Byte size and encoding of an object value.
#[derive(Debug, Clone, Copy, PartialEq, Eq, Structural)]
pub struct A2lType {
    /// Byte size of the value.
    pub size: usize,
    /// Encoding of the value.
    pub encoding: A2lTypeEncoding,
}

/// Index handle of a calibration object held by a client.
#[derive(Debug, Clone, Copy, PartialEq, Eq, Structural)]
pub struct XcpCalibrationObjectHandle(pub usize);

/// Index handle of a measurement object held by a client.
#[derive(Debug, Clone, Copy, PartialEq, Eq, Structural)]
pub struct XcpMeasurementObjectHandle(pub usize);

/// A calibration object as the tool sees it: name, resolved address and
/// type, and the cached raw value bytes.
#[derive(Debug)]
pub struct XcpClientCalibrationObject {
    /// Object name.
    pub name: String,
    /// Resolved wire address.
    pub a2l_addr: A2lAddr,
    /// Byte size and encoding.
    pub get_type: A2lType,
    /// Cached raw value, little endian.
    pub value: Vec<u8>,
}

impl XcpClientCalibrationObject {
    /// A calibration object with an empty value cache.
    pub fn new(name: &str, a2l_addr: A2lAddr, get_type: A2lType) -> (r: XcpClientCalibrationObject)
        ensures
            r.name@ == name@,
            r.a2l_addr == a2l_addr,
            r.get_type == get_type,
            r.value@.len() == 0,
    {
        XcpClientCalibrationObject { name: name.to_owned(), a2l_addr, get_type, value: Vec::new() }
    }

    /// The object name.
    pub fn get_name(&self) -> (r: &str)
        ensures
            r@ == self.name@,
    {
        self.name.as_str()
    }

    /// The resolved type.
    pub fn get_a2l_type(&self) -> (r: A2lType)
        ensures
            r == self.get_type,
    {
        self.get_type
    }

    /// The resolved address.
    pub fn get_a2l_addr(&self) -> (r: A2lAddr)
        ensures
            r == self.a2l_addr,
    {
        self.a2l_addr
    }

    /// Cache a raw value.
    pub fn set_value(&mut self, bytes: &[u8])
        ensures
            final(self).value@ == bytes@,
            final(self).name@ == old(self).name@,
            final(self).a2l_addr == old(self).a2l_addr,
            final(self).get_type == old(self).get_type,
    {
        let mut v: Vec<u8> = Vec::new();
        let n = bytes.len();
        let mut k: usize = 0;
        while k < n
            invariant
                n == bytes@.len(),
                k <= n,
                v@ == bytes@.subrange(0, k as int),
            decreases n - k,
        {
            v.push(bytes[k]);
            proof {
                assert(v@ =~= bytes@.subrange(0, k + 1 as int));
            }
            k += 1;
        }
        proof {
            assert(v@ =~= bytes@);
        }
        self.value = v;
    }

    /// The cached raw value.
    pub fn get_value(&self) -> (r: &Vec<u8>)
        ensures
            r@ == self.value@,
    {
        &self.value
    }

    /// The cached value read as a little-endian unsigned number of the
    /// object's size.
    pub fn get_value_u64(&self) -> (r: u64)
        requires
            self.get_type.size <= 8,
            self.get_type.size <= self.value@.len(),
        ensures
            r == le_value(self.value@.subrange(0, self.get_type.size as int)),
    {
        read_le_u64(self.value.as_slice(), 0, self.get_type.size)
    }

    /// The cached value read as a little-endian signed number of the
    /// object's size, sign extended.
    pub fn get_value_i64(&self) -> (r: i64)
        requires
            1 <= self.get_type.size <= 8,
            self.get_type.size <= self.value@.len(),
        ensures
            r == le_value_signed(self.value@.subrange(0, self.get_type.size as int)),
    {
        read_le_i64(self.value.as_slice(), 0, self.get_type.size)
    }
}

/// A measurement object as the tool sees it: name, resolved address and
/// type, and its place in the configured DAQ lists.
#[derive(Debug)]
pub struct XcpClientMeasurementObject {
    /// Object name.
    pub name: String,
    /// Resolved wire address with its event.
    pub a2l_addr: A2lAddr,
    /// Byte size and encoding.
    pub a2l_type: A2lType,
    /// DAQ list the object was configured into.
    pub daq: u16,
    /// ODT number within the list.
    pub odt: u8,
    /// Byte offset of the value within the frame.
    pub offset: u16,
}

impl XcpClientMeasurementObject {
    /// A measurement object not yet placed in a DAQ list.
    pub fn new(name: &str, a2l_addr: A2lAddr, a2l_type: A2lType) -> (r: XcpClientMeasurementObject)
        ensures
            r.name@ == name@,
            r.a2l_addr == a2l_addr,
            r.a2l_type == a2l_type,
            r.daq == 0,
            r.odt == 0,
            r.offset == 0,
    {
        XcpClientMeasurementObject {
            name: name.to_owned(),
            a2l_addr,
            a2l_type,
            daq: 0,
            odt: 0,
            offset: 0,
        }
    }

    /// The object name.
    pub fn get_name(&self) -> (r: &str)
        ensures
            r@ == self.name@,
    {
        self.name.as_str()
    }

    /// The resolved address.
    pub fn get_a2l_addr(&self) -> (r: A2lAddr)
        ensures
            r == self.a2l_addr,
    {
        self.a2l_addr
    }

    /// The resolved type.
    pub fn get_a2l_type(&self) -> (r: A2lType)
        ensures
            r == self.a2l_type,
    {
        self.a2l_type
    }
}

/// The capability block of a CONNECT response.
#[derive(Debug, Clone, Copy, PartialEq, Eq, Structural)]
pub struct ConnectInfo {
    /// Resource bits: calibration, DAQ and the others.
    pub resources: u8,
    /// Basic communication mode bits.
    pub comm_mode_basic: u8,
    /// Largest command/response payload.
    pub max_cto: u8,
    /// Largest DAQ frame.
    pub max_dto: u16,
    /// Protocol layer version.
    pub protocol_version: u8,
    /// Transport layer version.
    pub transport_layer_version: u8,
}

/// Parse the 8-byte positive CONNECT response into the capability block.
/// Nothing for a short buffer or a response that is not positive.
pub fn parse_connect_response(data: &[u8]) -> (r: Option<ConnectInfo>)
    ensures
        match r {
            Option::Some(info) => {
                &&& data@.len() >= 8
                &&& data@[0] == 0xFF
                &&& info.resources == data@[1]
                &&& info.comm_mode_basic == data@[2]
                &&& info.max_cto == data@[3]
                &&& info.max_dto == data@[4] + data@[5] * 0x100
                &&& info.protocol_version == data@[6]
                &&& info.transport_layer_version == data@[7]
            },
            Option::None => data@.len() < 8 || data@[0] != 0xFF,
        },
{
    if data.len() < 8 || data[0] != 0xFF {
        return None;
    }
    Some(
        ConnectInfo {
            resources: data[1],
            comm_mode_basic: data[2],
            max_cto: data[3],
            max_dto: (data[4] as u16) + (data[5] as u16) * 0x100,
            protocol_version: data[6],
            transport_layer_version: data[7],
        },
    )
}

/// Parse the positive GET_SEGMENT_INFO responses for one segment: the
/// mode-0 response carries the base address, the mode-1 response the
/// byte length, both in the little-endian word after the header.
pub fn parse_segment_info(addr_resp: &[u8], len_resp: &[u8]) -> (r: Option<(u32, u32)>)
    ensures
        r is Some <==> (addr_resp@.len() >= 8 && addr_resp@[0] == 0xFF && len_resp@.len() >= 8
            && len_resp@[0] == 0xFF),
        r is Some ==> (r->0).0 == le_value(addr_resp@.subrange(4, 8)) && (r->0).1 == le_value(
            len_resp@.subrange(4, 8),
        ),
{
    if addr_resp.len() < 8 || addr_resp[0] != 0xFF || len_resp.len() < 8 || len_resp[0] != 0xFF {
        return None;
    }
    let a = read_le_u64(addr_resp, 4, 4);
    let l = read_le_u64(len_resp, 4, 4);
    proof {
        crate::daq_decoder::lemma_le_value_bound(addr_resp@.subrange(4, 8));
        crate::daq_decoder::lemma_le_value_bound(len_resp@.subrange(4, 8));
        crate::daq_decoder::lemma_pow256_value_4();
    }
    Some((a as u32, l as u32))
}

/// Ten to the given power.
pub open spec fn spec_pow10(e: int) -> int
    decreases e,
{
    if e <= 0 {
        1
    } else {
        10 * spec_pow10(e - 1)
    }
}

/// Nanoseconds per raw timestamp tick, from the negotiated timestamp mode
/// and tick count: the mode's high nibble scales the ticks by a decimal
/// power (0 for 1 ns up to 9 for 1 s).
pub fn timestamp_resolution_ns(timestamp_mode: u8, timestamp_ticks: u16) -> (r: u64)
    requires
        timestamp_mode / 16 <= 9,
    ensures
        r == timestamp_ticks * spec_pow10((timestamp_mode / 16) as int),
{
    let u0: u8 = timestamp_mode / 16;
    let mut unit: u8 = u0;
    let mut r: u64 = timestamp_ticks as u64;
    proof {
        lemma_pow10_bounds();
        assert(spec_pow10(0) == 1);
        assert(timestamp_ticks * 1 <= timestamp_ticks * spec_pow10(9)) by (nonlinear_arith)
            requires
                1 <= spec_pow10(9) && timestamp_ticks >= 0,
        ;
    }
    while unit > 0
        invariant
            unit <= u0 <= 9,
            r == timestamp_ticks * spec_pow10(u0 - unit),
            r <= timestamp_ticks * spec_pow10(9),
            timestamp_ticks * spec_pow10(9) <= 0xFFFF * 1_000_000_000,
        decreases unit,
    {
        proof {
            lemma_pow10_bounds();
            assert(u0 - unit + 1 >= 1);
            assert(spec_pow10(u0 - unit + 1) == 10 * spec_pow10(u0 - unit));
            assert(timestamp_ticks * spec_pow10(u0 - unit + 1) <= timestamp_ticks * spec_pow10(9))
                by (nonlinear_arith)
                requires
                    1 <= spec_pow10(u0 - unit + 1) <= spec_pow10(9),
                    timestamp_ticks >= 0,
            ;
            assert(10 * (timestamp_ticks * spec_pow10(u0 - unit)) == timestamp_ticks * (10
                * spec_pow10(u0 - unit))) by (nonlinear_arith);
        }
        r = r * 10;
        unit = unit - 1;
    }
    r
}

/// The decimal powers up to nine are increasing and bounded.
proof fn lemma_pow10_bounds()
    ensures
        spec_pow10(9) == 1_000_000_000,
        forall|e: int| 0 <= e <= 9 ==> 1 <= #[trigger] spec_pow10(e) <= spec_pow10(9),
{
    assert(spec_pow10(0) == 1);
    assert(spec_pow10(1) == 10);
    assert(spec_pow10(2) == 100);
    assert(spec_pow10(3) == 1000);
    assert(spec_pow10(4) == 10000);
    assert(spec_pow10(5) == 100_000);
    assert(spec_pow10(6) == 1_000_000);
    assert(spec_pow10(7) == 10_000_000);
    assert(spec_pow10(8) == 100_000_000);
    assert(spec_pow10(9) == 1_000_000_000);
}

/// Sum of the value sizes of the objects before position `i` that belong
/// to the given event.
pub open spec fn size_sum_before(
    objs: Seq<XcpClientMeasurementObject>,
    i: int,
    ev: u16,
) -> int
    decreases i
        when 0 <= i <= objs.len()
{
    if i <= 0 {
        0
    } else if objs[i - 1].a2l_addr.event == Option::Some(ev) {
        size_sum_before(objs, i - 1, ev) + objs[i - 1].a2l_type.size
    } else {
        size_sum_before(objs, i - 1, ev)
    }
}

/// The measurement configuration derived from a list of measurement
/// objects: one DAQ list per distinct event, and for every object the
/// list it goes to and its byte offset within that list's single ODT.
#[derive(Debug, PartialEq)]
pub struct MeasurementPlan {
    /// The event of each DAQ list, ascending and distinct.
    pub daq_events: Vec<u16>,
    /// Per object, in order: the DAQ list index and the payload offset.
    pub assignments: Vec<(u16, u16)>,
}

/// True when the value occurs in the sequence.
pub open spec fn contains_val(s: Seq<u16>, v: u16) -> bool {
    exists|d: int| 0 <= d < s.len() && #[trigger] s[d] == v
}

/// Insert a value into an ascending list unless it is already there.
#[verifier::spinoff_prover]
fn insert_event_sorted(list: &mut Vec<u16>, ev: u16)
    requires
        forall|a: int, b: int|
            0 <= a < b < old(list)@.len() ==> #[trigger] old(list)@[a] < #[trigger] old(list)@[b],
    ensures
        forall|a: int, b: int|
            0 <= a < b < final(list)@.len() ==> #[trigger] final(list)@[a] < #[trigger] final(list)@[b],
        forall|v: u16| contains_val(final(list)@, v) <==> (contains_val(old(list)@, v) || v == ev),
{
    let m = list.len();
    let mut p: usize = 0;
    while p < m && list[p] < ev
        invariant
            p <= m,
            m == list@.len(),
            list@ == old(list)@,
            forall|q: int| 0 <= q < p ==> #[trigger] list@[q] < ev,
        decreases m - p,
    {
        p += 1;
    }
    if p < m && list[p] == ev {
        proof {
            assert(contains_val(list@, ev));
            assert forall|v: u16| contains_val(list@, v) implies (contains_val(old(list)@, v) || v
                == ev) by {}
        }
        return ;
    }
    let ghost before = list@;
    list.insert(p, ev);
    proof {
        assert(p < before.len() ==> before[p as int] > ev);
        assert forall|a: int, b: int|
            0 <= a < b < list@.len() implies #[trigger] list@[a] < #[trigger] list@[b] by {
            let pa = p as int;
            if b < pa {
                assert(list@[a] == before[a] && list@[b] == before[b]);
            } else if b == pa {
                assert(list@[a] == before[a] && list@[b] == ev);
            } else if a < pa {
                assert(list@[a] == before[a] && list@[b] == before[b - 1]);
                if b - 1 == pa {
                    assert(before[a] < ev && ev < before[pa]);
                } else {
                    assert(a < b - 1);
                }
            } else if a == pa {
                assert(list@[a] == ev && list@[b] == before[b - 1]);
                if b - 1 == pa {
                    assert(ev < before[pa]);
                } else {
                    assert(before[pa] <= before[b - 1]);
                }
            } else {
                assert(list@[a] == before[a - 1] && list@[b] == before[b - 1]);
            }
        }
        assert forall|v: u16| contains_val(list@, v) implies (contains_val(before, v) || v
            == ev) by {
            let d = choose|d: int| 0 <= d < list@.len() && #[trigger] list@[d] == v;
            if d < p {
                assert(before[d] == v);
            } else if d > p {
                assert(before[d - 1] == v);
            }
        }
        assert(list@[p as int] == ev);
        assert(contains_val(list@, ev));
        assert forall|v: u16| contains_val(before, v) implies contains_val(list@, v) by {
            let d = choose|d: int| 0 <= d < before.len() && #[trigger] before[d] == v;
            if d < p {
                assert(list@[d] == v);
            } else {
                assert(list@[d + 1] == v);
            }
        }
    }
}

/// Derive the DAQ configuration for a list of measurement objects: the
/// distinct events become DAQ lists in ascending order, and each object
/// is placed behind the objects of its event that precede it. Fails with
/// an ODT size error when one event's objects together exceed the frame
/// payload (`max_dto` minus the 6-byte header with timestamp).
pub fn plan_measurement(objects: &Vec<XcpClientMeasurementObject>, max_dto: u16) -> (r: Result<
    MeasurementPlan,
    u8,
>)
    requires
        max_dto >= 8,
        forall|i: int|
            0 <= i < objects@.len() ==> (#[trigger] objects@[i]).a2l_addr.event is Some
                && objects@[i].a2l_type.size <= 0xFF,
    ensures
        match r {
            Result::Ok(plan) => {
                &&& plan.assignments@.len() == objects@.len()
                // the DAQ events are ascending, so distinct
                &&& (forall|a: int, b: int|
                    0 <= a < b < plan.daq_events@.len() ==> #[trigger] plan.daq_events@[a]
                        < #[trigger] plan.daq_events@[b])
                // every object's event has a list
                &&& (forall|i: int|
                    0 <= i < objects@.len() ==> (#[trigger] plan.assignments@[i]).0
                        < plan.daq_events@.len() && Option::Some(
                        plan.daq_events@[plan.assignments@[i].0 as int],
                    ) == objects@[i].a2l_addr.event)
                // every list's event belongs to some object
                &&& (forall|v: u16|
                    contains_val(plan.daq_events@, v) ==> exists|i: int|
                        0 <= i < objects@.len() && (#[trigger] objects@[i]).a2l_addr.event
                            == Option::Some(v))
                // offsets pack each list front to back in object order
                &&& (forall|i: int|
                    0 <= i < objects@.len() ==> (#[trigger] plan.assignments@[i]).1
                        == size_sum_before(objects@, i, objects@[i].a2l_addr.event->0))
                // and every list fits the frame payload
                &&& (forall|d: int|
                    0 <= d < plan.daq_events@.len() ==> size_sum_before(
                        objects@,
                        objects@.len() as int,
                        #[trigger] plan.daq_events@[d],
                    ) <= max_dto - 6)
            },
            Result::Err(code) => {
                &&& code == crate::protocol::ERROR_ODT_SIZE
                &&& exists|i: int|
                    0 <= i < objects@.len() && size_sum_before(
                        objects@,
                        objects@.len() as int,
                        (#[trigger] objects@[i]).a2l_addr.event->0,
                    ) > max_dto - 6
            },
        },
{
    let n = objects.len();
    // collect the distinct events, ascending
    let mut daq_events: Vec<u16> = Vec::new();
    let mut i: usize = 0;
    while i < n
        invariant
            n == objects@.len(),
            i <= n,
            forall|i2: int|
                0 <= i2 < objects@.len() ==> (#[trigger] objects@[i2]).a2l_addr.event is Some,
            forall|a: int, b: int|
                0 <= a < b < daq_events@.len() ==> #[trigger] daq_events@[a]
                    < #[trigger] daq_events@[b],
            forall|j: int|
                0 <= j < i ==> contains_val(daq_events@, (#[trigger] objects@[j]).a2l_addr.event->0),
            forall|v: u16|
                contains_val(daq_events@, v) ==> exists|j: int|
                    0 <= j < i && (#[trigger] objects@[j]).a2l_addr.event == Option::Some(v),
        decreases n - i,
    {
        let ev = match objects[i].a2l_addr.event {
            Some(e) => e,
            None => 0,  // excluded by contract
        };
        let ghost before = daq_events@;
        insert_event_sorted(&mut daq_events, ev);
        proof {
            assert forall|v: u16| contains_val(daq_events@, v) implies exists|j: int|
                0 <= j < i + 1 && (#[trigger] objects@[j]).a2l_addr.event == Option::Some(v) by {
                if v == ev {
                    assert(objects@[i as int].a2l_addr.event == Option::Some(v));
                } else {
                    assert(contains_val(before, v));
                    let j0 = choose|j: int|
                        0 <= j < i && (#[trigger] objects@[j]).a2l_addr.event == Option::Some(v);
                    assert(objects@[j0].a2l_addr.event == Option::Some(v));
                }
            }
        }
        i += 1;
    }
    // assign each object its list and cumulative offset
    let d_count = daq_events.len();
    let mut totals: Vec<u16> = Vec::new();
    let mut t: usize = 0;
    while t < d_count
        invariant
            t <= d_count,
            totals@.len() == t,
            forall|d: int| 0 <= d < t ==> #[trigger] totals@[d] == 0,
        decreases d_count - t,
    {
        totals.push(0);
        t += 1;
    }
    let mut assignments: Vec<(u16, u16)> = Vec::new();
    let mut i: usize = 0;
    while i < n
        invariant
            n == objects@.len(),
            i <= n,
            d_count == daq_events@.len(),
            totals@.len() == d_count,
            assignments@.len() == i,
            max_dto >= 8,
            forall|i2: int|
                0 <= i2 < objects@.len() ==> (#[trigger] objects@[i2]).a2l_addr.event is Some
                    && objects@[i2].a2l_type.size <= 0xFF,
            forall|a: int, b: int|
                0 <= a < b < daq_events@.len() ==> #[trigger] daq_events@[a]
                    < #[trigger] daq_events@[b],
            forall|j: int|
                0 <= j < objects@.len() ==> contains_val(
                    daq_events@,
                    (#[trigger] objects@[j]).a2l_addr.event->0,
                ),
            forall|v: u16|
                contains_val(daq_events@, v) ==> exists|j: int|
                    0 <= j < objects@.len() && (#[trigger] objects@[j]).a2l_addr.event
                        == Option::Some(v),
            forall|d: int|
                0 <= d < d_count ==> #[trigger] totals@[d] == size_sum_before(
                    objects@,
                    i as int,
                    daq_events@[d],
                ),
            forall|d: int| 0 <= d < d_count ==> #[trigger] totals@[d] <= max_dto - 6,
            forall|j: int|
                0 <= j < i ==> (#[trigger] assignments@[j]).0 < daq_events@.len()
                    && Option::Some(daq_events@[assignments@[j].0 as int])
                    == objects@[j].a2l_addr.event && assignments@[j].1 == size_sum_before(
                    objects@,
                    j,
                    objects@[j].a2l_addr.event->0,
                ),
        decreases n - i,
    {
        let ev = match objects[i].a2l_addr.event {
            Some(e) => e,
            None => 0,  // excluded by contract
        };
        // find the event's list
        let mut d: usize = 0;
        while d < d_count && daq_events[d] != ev
            invariant
                d <= d_count,
                d_count == daq_events@.len(),
                forall|q: int| 0 <= q < d ==> #[trigger] daq_events@[q] != ev,
            decreases d_count - d,
        {
            d += 1;
        }
        proof {
            assert(contains_val(daq_events@, ev));
            let dd = choose|dd: int| 0 <= dd < daq_events@.len() && #[trigger] daq_events@[dd] == ev;
            assert(d < d_count);
            lemma_ascending_bound(daq_events@, d as int);
            assert(d <= 0xFFFF);
        }
        let offset = totals[d];
        let size = objects[i].a2l_type.size as u16;
        if (offset as u32) + (size as u32) > (max_dto as u32) - 6 {
            proof {
                assert(size_sum_before(objects@, i + 1, ev) > max_dto - 6);
                lemma_size_sum_monotonic(objects@, i + 1, n as int, ev);
                assert(objects@[i as int].a2l_addr.event->0 == ev);
            }
            return Err(crate::protocol::ERROR_ODT_SIZE);
        }
        assignments.push((d as u16, offset));
        let ghost totals_before = totals@;
        let new_total = offset + size;
        totals.set(d, new_total);
        proof {
            assert forall|d2: int|
                0 <= d2 < d_count implies #[trigger] totals@[d2] == size_sum_before(
                objects@,
                i + 1,
                daq_events@[d2],
            ) by {
                if d2 == d {
                    assert(totals@[d2] == new_total);
                } else {
                    assert(totals@[d2] == totals_before[d2]);
                    assert(daq_events@[d2] != ev);
                }
            }
        }
        i += 1;
    }
    let plan = MeasurementPlan { daq_events, assignments };
    proof {
        assert forall|d: int| 0 <= d < plan.daq_events@.len() implies size_sum_before(
            objects@,
            objects@.len() as int,
            #[trigger] plan.daq_events@[d],
        ) <= max_dto - 6 by {
            assert(totals@[d] == size_sum_before(objects@, n as int, plan.daq_events@[d]));
        }
    }
    Ok(plan)
}

/// In a strictly ascending sequence of 16-bit values, the value at a
/// position is at least the position, so no position exceeds the value
/// range.
proof fn lemma_ascending_bound(s: Seq<u16>, d: int)
    requires
        0 <= d < s.len(),
        forall|a: int, b: int| 0 <= a < b < s.len() ==> #[trigger] s[a] < #[trigger] s[b],
    ensures
        s[d] >= d,
    decreases d,
{
    if d > 0 {
        lemma_ascending_bound(s, d - 1);
        assert(s[d - 1] < s[d]);
    }
}

/// The per-event size sum only grows with the prefix length.
proof fn lemma_size_sum_monotonic(
    objs: Seq<XcpClientMeasurementObject>,
    i: int,
    j: int,
    ev: u16,
)
    requires
        0 <= i <= j <= objs.len(),
    ensures
        size_sum_before(objs, i, ev) <= size_sum_before(objs, j, ev),
    decreases j - i,
{
    if i < j {
        lemma_size_sum_monotonic(objs, i, j - 1, ev);
    }
}

/// State handed to the receive task of a client: whether the session is
/// connected and whether measurement is running.
#[derive(Debug, Clone, Copy, PartialEq, Eq, Structural)]
pub struct XcpTaskControl {
    /// Measurement is running.
    pub running: bool,
    /// Session is connected.
    pub connected: bool,
}

impl XcpTaskControl {
    /// Control state before connect: not connected, not running.
    pub fn new() -> (r: XcpTaskControl)
        ensures
            !r.running,
            !r.connected,
    {
        XcpTaskControl { running: false, connected: false }
    }
}

} // verus!
