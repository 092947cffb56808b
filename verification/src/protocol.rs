//! XCP protocol constants, the command and error types and the command
//! builder that frames commands with the 4-byte transport header.
//!
//! Every packet on the wire begins with `len_lo, len_hi, ctr_lo, ctr_hi`
//! followed by `len` bytes of payload; `len` covers the payload only and
//! `ctr` is a monotonic 16-bit counter whose gaps signal loss.

use vstd::prelude::*;

verus! {

// Response codes of negative responses.
pub const CRC_CMD_OK: u8 = 0x00;

pub const CRC_CMD_SYNCH: u8 = 0x00;

pub const CRC_CMD_PENDING: u8 = 0x01;

pub const CRC_CMD_IGNORED: u8 = 0x02;

pub const CRC_CMD_BUSY: u8 = 0x10;

pub const CRC_DAQ_ACTIVE: u8 = 0x11;

pub const CRC_PGM_ACTIVE: u8 = 0x12;

pub const CRC_CMD_UNKNOWN: u8 = 0x20;

pub const CRC_CMD_SYNTAX: u8 = 0x21;

pub const CRC_OUT_OF_RANGE: u8 = 0x22;

pub const CRC_WRITE_PROTECTED: u8 = 0x23;

pub const CRC_ACCESS_DENIED: u8 = 0x24;

pub const CRC_ACCESS_LOCKED: u8 = 0x25;

pub const CRC_PAGE_NOT_VALID: u8 = 0x26;

pub const CRC_MODE_NOT_VALID: u8 = 0x27;

pub const CRC_SEGMENT_NOT_VALID: u8 = 0x28;

pub const CRC_SEQUENCE: u8 = 0x29;

pub const CRC_DAQ_CONFIG: u8 = 0x2A;

pub const CRC_MEMORY_OVERFLOW: u8 = 0x30;

pub const CRC_GENERIC: u8 = 0x31;

pub const CRC_VERIFY: u8 = 0x32;

pub const CRC_RESOURCE_TEMPORARY_NOT_ACCESSIBLE: u8 = 0x33;

pub const CRC_SUBCMD_UNKNOWN: u8 = 0x34;

pub const CRC_TIMECORR_STATE_CHANGE: u8 = 0x35;

// Command codes.
pub const CC_CONNECT: u8 = 0xFF;

pub const CC_DISCONNECT: u8 = 0xFE;

pub const CC_SYNC: u8 = 0xFC;

pub const CC_GET_COMM_MODE_INFO: u8 = 0xFB;

pub const CC_GET_ID: u8 = 0xFA;

pub const CC_SET_MTA: u8 = 0xF6;

pub const CC_UPLOAD: u8 = 0xF5;

pub const CC_SHORT_UPLOAD: u8 = 0xF4;

pub const CC_USER: u8 = 0xF1;

pub const CC_DOWNLOAD: u8 = 0xF0;

pub const CC_SHORT_DOWNLOAD: u8 = 0xED;

pub const CC_SET_CAL_PAGE: u8 = 0xEB;

pub const CC_GET_CAL_PAGE: u8 = 0xEA;

pub const CC_GET_PAGE_PROCESSOR_INFO: u8 = 0xE9;

pub const CC_GET_SEGMENT_INFO: u8 = 0xE8;

pub const CC_GET_PAGE_INFO: u8 = 0xE7;

pub const CC_SET_SEGMENT_MODE: u8 = 0xE6;

pub const CC_GET_SEGMENT_MODE: u8 = 0xE5;

pub const CC_COPY_CAL_PAGE: u8 = 0xE4;

pub const CC_CLEAR_DAQ_LIST: u8 = 0xE3;

pub const CC_SET_DAQ_PTR: u8 = 0xE2;

pub const CC_WRITE_DAQ: u8 = 0xE1;

pub const CC_SET_DAQ_LIST_MODE: u8 = 0xE0;

pub const CC_GET_DAQ_LIST_MODE: u8 = 0xDF;

pub const CC_START_STOP_DAQ_LIST: u8 = 0xDE;

pub const CC_START_STOP_SYNCH: u8 = 0xDD;

pub const CC_GET_DAQ_CLOCK: u8 = 0xDC;

pub const CC_READ_DAQ: u8 = 0xDB;

pub const CC_GET_DAQ_PROCESSOR_INFO: u8 = 0xDA;

pub const CC_GET_DAQ_RESOLUTION_INFO: u8 = 0xD9;

pub const CC_GET_DAQ_LIST_INFO: u8 = 0xD8;

pub const CC_GET_DAQ_EVENT_INFO: u8 = 0xD7;

pub const CC_FREE_DAQ: u8 = 0xD6;

pub const CC_ALLOC_DAQ: u8 = 0xD5;

pub const CC_ALLOC_ODT: u8 = 0xD4;

pub const CC_ALLOC_ODT_ENTRY: u8 = 0xD3;

pub const CC_TIME_CORRELATION_PROPERTIES: u8 = 0xC6;

pub const CC_NOP: u8 = 0xC1;

pub const CC_GET_VERSION: u8 = 0xC0;

// Identification string kinds for GET_ID.
pub const XCP_IDT_ASCII: u8 = 0;

pub const XCP_IDT_ASAM_NAME: u8 = 1;

pub const XCP_IDT_ASAM_PATH: u8 = 2;

pub const XCP_IDT_ASAM_URL: u8 = 3;

pub const XCP_IDT_ASAM_UPLOAD: u8 = 4;

pub const XCP_IDT_ASAM_EPK: u8 = 5;

// Page selection modes for GET_CAL_PAGE / SET_CAL_PAGE.
pub const CAL_PAGE_MODE_ECU: u8 = 0x01;

pub const CAL_PAGE_MODE_XCP: u8 = 0x02;

pub const CAL_PAGE_MODE_ALL: u8 = 0x80;

// Client-side error codes outside the wire code space.
pub const ERROR_CMD_TIMEOUT: u8 = 0xF0;

pub const ERROR_TL_HEADER: u8 = 0xF1;

pub const ERROR_A2L: u8 = 0xF2;

pub const ERROR_LIMIT: u8 = 0xF3;

pub const ERROR_ODT_SIZE: u8 = 0xF4;

pub const ERROR_TASK_TERMINATED: u8 = 0xF5;

pub const ERROR_SESSION_TERMINATION: u8 = 0xF6;

/// An error reported for one command: the response or client error code
/// and the command it answered.
#[derive(Debug, Default, Clone, Copy, PartialEq, Eq, Structural)]
pub struct XcpError {
    /// The response or client error code.
    pub code: u8,
    /// The command the error answers.
    pub cmd: u8,
}

impl XcpError {
    /// Pair an error code with the command it answers.
    pub fn new(code: u8, cmd: u8) -> (r: XcpError)
        ensures
            r.spec_code() == code,
            r.spec_cmd() == cmd,
    {
        XcpError { code, cmd }
    }

    /// The error code.
    pub open spec fn spec_code(&self) -> u8 {
        self.code
    }

    /// The command code.
    pub open spec fn spec_cmd(&self) -> u8 {
        self.cmd
    }

    /// The error code.
    pub fn get_error_code(&self) -> (r: u8)
        ensures
            r == self.spec_code(),
    {
        self.code
    }

    /// Descriptive text for the error code.
    pub fn message(&self) -> (r: &'static str)
        ensures
            self.spec_code() == ERROR_CMD_TIMEOUT ==> r@ == "command response timeout"@,
            self.spec_code() == ERROR_SESSION_TERMINATION ==> r@ == "session terminated by server"@,
            self.spec_code() == CRC_CMD_UNKNOWN ==> r@ == "unknown command"@,
            self.spec_code() == CRC_ACCESS_DENIED ==> r@ == "access denied"@,
            self.spec_code() == CRC_PAGE_NOT_VALID ==> r@ == "invalid page"@,
            self.spec_code() == CRC_SEGMENT_NOT_VALID ==> r@ == "invalid segment"@,
            self.spec_code() == CRC_DAQ_CONFIG ==> r@ == "daq configuration error"@,
    {
        match self.code {
            ERROR_CMD_TIMEOUT => "command response timeout",
            ERROR_TL_HEADER => "transport layer header error",
            ERROR_A2L => "description file error",
            ERROR_LIMIT => "calibration value limit exceeded",
            ERROR_ODT_SIZE => "odt max size exceeded",
            ERROR_TASK_TERMINATED => "client task terminated",
            ERROR_SESSION_TERMINATION => "session terminated by server",
            CRC_CMD_SYNCH => "synch",
            CRC_CMD_PENDING => "command pending",
            CRC_CMD_IGNORED => "command ignored",
            CRC_CMD_BUSY => "command busy",
            CRC_DAQ_ACTIVE => "daq active",
            CRC_PGM_ACTIVE => "pgm active",
            CRC_CMD_UNKNOWN => "unknown command",
            CRC_CMD_SYNTAX => "command syntax",
            CRC_OUT_OF_RANGE => "parameter out of range",
            CRC_WRITE_PROTECTED => "write protected",
            CRC_ACCESS_DENIED => "access denied",
            CRC_ACCESS_LOCKED => "access locked",
            CRC_PAGE_NOT_VALID => "invalid page",
            CRC_MODE_NOT_VALID => "invalid mode",
            CRC_SEGMENT_NOT_VALID => "invalid segment",
            CRC_SEQUENCE => "wrong sequence",
            CRC_DAQ_CONFIG => "daq configuration error",
            CRC_MEMORY_OVERFLOW => "memory overflow",
            CRC_GENERIC => "generic error",
            CRC_VERIFY => "verify failed",
            CRC_RESOURCE_TEMPORARY_NOT_ACCESSIBLE => "resource temporarily not accessible",
            CRC_SUBCMD_UNKNOWN => "unknown sub command",
            CRC_TIMECORR_STATE_CHANGE => "time correlation state change",
            _ => "error",
        }
    }
}

/// The commands of the protocol subset used by the core.
#[derive(Debug, Copy, Clone, PartialEq, Eq, Structural)]
pub enum XcpCommand {
    Connect,
    Disconnect,
    SetMta,
    ShortUpload,
    Upload,
    ShortDownload,
    Download,
    User,
    Sync,
    Nop,
    GetVersion,
    GetCommModeInfo,
    GetId,
    SetCalPage,
    GetCalPage,
    GetPageProcessorInfo,
    GetSegmentInfo,
    GetPageInfo,
    SetSegmentMode,
    GetSegmentMode,
    CopyCalPage,
    ClearDaqList,
    SetDaqPtr,
    WriteDaq,
    SetDaqListMode,
    GetDaqListMode,
    StartStopDaqList,
    StartStopSynch,
    GetDaqClock,
    ReadDaq,
    GetDaqProcessorInfo,
    GetDaqResolutionInfo,
    GetDaqListInfo,
    GetDaqEventInfo,
    FreeDaq,
    AllocDaq,
    AllocOdt,
    AllocOdtEntry,
    TimeCorrelationProperties,
}

impl XcpCommand {
    /// The command of a code, if the code names one of the subset.
    pub open spec fn spec_of_code(code: u8) -> Option<XcpCommand> {
        match code {
            CC_CONNECT => Option::Some(XcpCommand::Connect),
            CC_DISCONNECT => Option::Some(XcpCommand::Disconnect),
            CC_SET_MTA => Option::Some(XcpCommand::SetMta),
            CC_SHORT_UPLOAD => Option::Some(XcpCommand::ShortUpload),
            CC_UPLOAD => Option::Some(XcpCommand::Upload),
            CC_SHORT_DOWNLOAD => Option::Some(XcpCommand::ShortDownload),
            CC_DOWNLOAD => Option::Some(XcpCommand::Download),
            CC_USER => Option::Some(XcpCommand::User),
            CC_SYNC => Option::Some(XcpCommand::Sync),
            CC_NOP => Option::Some(XcpCommand::Nop),
            CC_GET_VERSION => Option::Some(XcpCommand::GetVersion),
            CC_GET_COMM_MODE_INFO => Option::Some(XcpCommand::GetCommModeInfo),
            CC_GET_ID => Option::Some(XcpCommand::GetId),
            CC_SET_CAL_PAGE => Option::Some(XcpCommand::SetCalPage),
            CC_GET_CAL_PAGE => Option::Some(XcpCommand::GetCalPage),
            CC_GET_PAGE_PROCESSOR_INFO => Option::Some(XcpCommand::GetPageProcessorInfo),
            CC_GET_SEGMENT_INFO => Option::Some(XcpCommand::GetSegmentInfo),
            CC_GET_PAGE_INFO => Option::Some(XcpCommand::GetPageInfo),
            CC_SET_SEGMENT_MODE => Option::Some(XcpCommand::SetSegmentMode),
            CC_GET_SEGMENT_MODE => Option::Some(XcpCommand::GetSegmentMode),
            CC_COPY_CAL_PAGE => Option::Some(XcpCommand::CopyCalPage),
            CC_CLEAR_DAQ_LIST => Option::Some(XcpCommand::ClearDaqList),
            CC_SET_DAQ_PTR => Option::Some(XcpCommand::SetDaqPtr),
            CC_WRITE_DAQ => Option::Some(XcpCommand::WriteDaq),
            CC_SET_DAQ_LIST_MODE => Option::Some(XcpCommand::SetDaqListMode),
            CC_GET_DAQ_LIST_MODE => Option::Some(XcpCommand::GetDaqListMode),
            CC_START_STOP_DAQ_LIST => Option::Some(XcpCommand::StartStopDaqList),
            CC_START_STOP_SYNCH => Option::Some(XcpCommand::StartStopSynch),
            CC_GET_DAQ_CLOCK => Option::Some(XcpCommand::GetDaqClock),
            CC_READ_DAQ => Option::Some(XcpCommand::ReadDaq),
            CC_GET_DAQ_PROCESSOR_INFO => Option::Some(XcpCommand::GetDaqProcessorInfo),
            CC_GET_DAQ_RESOLUTION_INFO => Option::Some(XcpCommand::GetDaqResolutionInfo),
            CC_GET_DAQ_LIST_INFO => Option::Some(XcpCommand::GetDaqListInfo),
            CC_GET_DAQ_EVENT_INFO => Option::Some(XcpCommand::GetDaqEventInfo),
            CC_FREE_DAQ => Option::Some(XcpCommand::FreeDaq),
            CC_ALLOC_DAQ => Option::Some(XcpCommand::AllocDaq),
            CC_ALLOC_ODT => Option::Some(XcpCommand::AllocOdt),
            CC_ALLOC_ODT_ENTRY => Option::Some(XcpCommand::AllocOdtEntry),
            CC_TIME_CORRELATION_PROPERTIES => Option::Some(XcpCommand::TimeCorrelationProperties),
            _ => Option::None,
        }
    }

    /// Decode a command code; unknown codes give nothing.
    pub fn try_from_code(code: u8) -> (r: Option<XcpCommand>)
        ensures
            r == XcpCommand::spec_of_code(code),
    {
        match code {
            CC_CONNECT => Some(XcpCommand::Connect),
            CC_DISCONNECT => Some(XcpCommand::Disconnect),
            CC_SET_MTA => Some(XcpCommand::SetMta),
            CC_SHORT_UPLOAD => Some(XcpCommand::ShortUpload),
            CC_UPLOAD => Some(XcpCommand::Upload),
            CC_SHORT_DOWNLOAD => Some(XcpCommand::ShortDownload),
            CC_DOWNLOAD => Some(XcpCommand::Download),
            CC_USER => Some(XcpCommand::User),
            CC_SYNC => Some(XcpCommand::Sync),
            CC_NOP => Some(XcpCommand::Nop),
            CC_GET_VERSION => Some(XcpCommand::GetVersion),
            CC_GET_COMM_MODE_INFO => Some(XcpCommand::GetCommModeInfo),
            CC_GET_ID => Some(XcpCommand::GetId),
            CC_SET_CAL_PAGE => Some(XcpCommand::SetCalPage),
            CC_GET_CAL_PAGE => Some(XcpCommand::GetCalPage),
            CC_GET_PAGE_PROCESSOR_INFO => Some(XcpCommand::GetPageProcessorInfo),
            CC_GET_SEGMENT_INFO => Some(XcpCommand::GetSegmentInfo),
            CC_GET_PAGE_INFO => Some(XcpCommand::GetPageInfo),
            CC_SET_SEGMENT_MODE => Some(XcpCommand::SetSegmentMode),
            CC_GET_SEGMENT_MODE => Some(XcpCommand::GetSegmentMode),
            CC_COPY_CAL_PAGE => Some(XcpCommand::CopyCalPage),
            CC_CLEAR_DAQ_LIST => Some(XcpCommand::ClearDaqList),
            CC_SET_DAQ_PTR => Some(XcpCommand::SetDaqPtr),
            CC_WRITE_DAQ => Some(XcpCommand::WriteDaq),
            CC_SET_DAQ_LIST_MODE => Some(XcpCommand::SetDaqListMode),
            CC_GET_DAQ_LIST_MODE => Some(XcpCommand::GetDaqListMode),
            CC_START_STOP_DAQ_LIST => Some(XcpCommand::StartStopDaqList),
            CC_START_STOP_SYNCH => Some(XcpCommand::StartStopSynch),
            CC_GET_DAQ_CLOCK => Some(XcpCommand::GetDaqClock),
            CC_READ_DAQ => Some(XcpCommand::ReadDaq),
            CC_GET_DAQ_PROCESSOR_INFO => Some(XcpCommand::GetDaqProcessorInfo),
            CC_GET_DAQ_RESOLUTION_INFO => Some(XcpCommand::GetDaqResolutionInfo),
            CC_GET_DAQ_LIST_INFO => Some(XcpCommand::GetDaqListInfo),
            CC_GET_DAQ_EVENT_INFO => Some(XcpCommand::GetDaqEventInfo),
            CC_FREE_DAQ => Some(XcpCommand::FreeDaq),
            CC_ALLOC_DAQ => Some(XcpCommand::AllocDaq),
            CC_ALLOC_ODT => Some(XcpCommand::AllocOdt),
            CC_ALLOC_ODT_ENTRY => Some(XcpCommand::AllocOdtEntry),
            CC_TIME_CORRELATION_PROPERTIES => Some(XcpCommand::TimeCorrelationProperties),
            _ => None,
        }
    }

    /// Decode a command code of the known subset.
    pub fn from_code(code: u8) -> (r: XcpCommand)
        requires
            XcpCommand::spec_of_code(code) is Some,
        ensures
            Option::Some(r) == XcpCommand::spec_of_code(code),
    {
        match XcpCommand::try_from_code(code) {
            Some(c) => c,
            None => XcpCommand::Nop,  // excluded by contract
        }
    }
}

/// Builds one command packet: the 4-byte transport header (length and
/// counter filled in by `build`) followed by the command byte and its
/// parameters.
#[derive(Debug)]
pub struct XcpCommandBuilder {
    data: Vec<u8>,
}

impl XcpCommandBuilder {
    /// The bytes collected so far, header included.
    pub closed spec fn view_bytes(&self) -> Seq<u8> {
        self.data@
    }

    /// Start a command packet: a zeroed transport header and the command
    /// code.
    pub fn new(command_code: u8) -> (r: XcpCommandBuilder)
        ensures
            r.view_bytes() == seq![0u8, 0u8, 0u8, 0u8, command_code],
    {
        let mut data: Vec<u8> = Vec::new();
        data.push(0);
        data.push(0);
        data.push(0);
        data.push(0);
        data.push(command_code);
        proof {
            assert(data@ =~= seq![0u8, 0u8, 0u8, 0u8, command_code]);
        }
        XcpCommandBuilder { data }
    }

    /// Append one byte.
    pub fn add_u8(&mut self, value: u8)
        ensures
            final(self).view_bytes() == old(self).view_bytes().push(value),
    {
        self.data.push(value);
    }

    /// Append a byte slice.
    pub fn add_u8_slice(&mut self, value: &[u8])
        ensures
            final(self).view_bytes() == old(self).view_bytes() + value@,
    {
        let n = value.len();
        let mut k: usize = 0;
        while k < n
            invariant
                n == value@.len(),
                k <= n,
                self.data@ == old(self).view_bytes() + value@.subrange(0, k as int),
            decreases n - k,
        {
            self.data.push(value[k]);
            proof {
                assert(self.data@ =~= old(self).view_bytes() + value@.subrange(0, k + 1 as int));
            }
            k += 1;
        }
        proof {
            assert(self.data@ =~= old(self).view_bytes() + value@);
        }
    }

    /// Append a 16-bit value, little endian, on a 2-byte boundary.
    pub fn add_u16(&mut self, value: u16)
        requires
            old(self).view_bytes().len() % 2 == 0,
        ensures
            final(self).view_bytes() == old(self).view_bytes().push((value % 0x100) as u8).push(
                (value / 0x100) as u8,
            ),
    {
        self.data.push((value % 0x100) as u8);
        self.data.push((value / 0x100) as u8);
    }

    /// Append a 32-bit value, little endian, on a 4-byte boundary.
    pub fn add_u32(&mut self, value: u32)
        requires
            old(self).view_bytes().len() % 4 == 0,
        ensures
            final(self).view_bytes() == old(self).view_bytes().push((value % 0x100) as u8).push(
                ((value / 0x100) % 0x100) as u8,
            ).push(((value / 0x10000) % 0x100) as u8).push((value / 0x100_0000) as u8),
    {
        self.data.push((value % 0x100) as u8);
        self.data.push(((value / 0x100) % 0x100) as u8);
        self.data.push(((value / 0x10000) % 0x100) as u8);
        self.data.push((value / 0x100_0000) as u8);
    }

    /// Fill the payload length into the transport header and hand out the
    /// packet bytes.
    pub fn build(&mut self) -> (r: &[u8])
        requires
            5 <= old(self).view_bytes().len(),
            old(self).view_bytes().len() - 4 <= 0xFFFF,
        ensures
            r@.len() == old(self).view_bytes().len(),
            r@ == final(self).view_bytes(),
            r@[0] == ((old(self).view_bytes().len() - 4) % 0x100) as u8,
            r@[1] == ((old(self).view_bytes().len() - 4) / 0x100) as u8,
            forall|i: int| 2 <= i < r@.len() ==> r@[i] == old(self).view_bytes()[i],
    {
        let len: usize = self.data.len() - 4;
        let lo: u8 = (len % 0x100) as u8;
        let hi: u8 = ((len / 0x100) % 0x100) as u8;
        let ghost before = self.data@;
        self.data.set(0, lo);
        self.data.set(1, hi);
        proof {
            assert(self.data@ =~= before.update(0, lo).update(1, hi));
        }
        self.data.as_slice()
    }
}

/// One packet of the transport layer: 4-byte header, then `len` payload
/// bytes.
pub fn frame_packet(ctr: u16, payload: &[u8]) -> (r: Vec<u8>)
    requires
        payload@.len() <= 0xFFFF,
    ensures
        r@.len() == payload@.len() + 4,
        r@[0] == (payload@.len() % 0x100) as u8,
        r@[1] == (payload@.len() / 0x100) as u8,
        r@[2] == (ctr % 0x100) as u8,
        r@[3] == (ctr / 0x100) as u8,
        r@.subrange(4, r@.len() as int) == payload@,
{
    let n = payload.len();
    let mut out: Vec<u8> = Vec::new();
    out.push((n % 0x100) as u8);
    out.push(((n / 0x100) % 0x100) as u8);
    out.push((ctr % 0x100) as u8);
    out.push((ctr / 0x100) as u8);
    let mut k: usize = 0;
    while k < n
        invariant
            n == payload@.len(),
            n <= 0xFFFF,
            k <= n,
            out@.len() == k + 4,
            out@[0] == (payload@.len() % 0x100) as u8,
            out@[1] == (payload@.len() / 0x100) as u8,
            out@[2] == (ctr % 0x100) as u8,
            out@[3] == (ctr / 0x100) as u8,
            out@.subrange(4, out@.len() as int) == payload@.subrange(0, k as int),
        decreases n - k,
    {
        out.push(payload[k]);
        proof {
            assert(out@.subrange(4, out@.len() as int) =~= payload@.subrange(0, k + 1 as int));
        }
        k += 1;
    }
    proof {
        assert(out@.subrange(4, out@.len() as int) =~= payload@);
    }
    out
}

/// Parse the 4-byte transport header at position `i` of a receive buffer:
/// the payload length and the packet counter.
pub fn parse_transport_header(buf: &[u8], i: usize) -> (r: Option<(u16, u16)>)
    ensures
        match r {
            Option::Some(p) => {
                &&& i + 4 <= buf@.len()
                &&& p.0 == buf@[i as int] + buf@[i + 1] * 0x100
                &&& p.1 == buf@[i + 2] + buf@[i + 3] * 0x100
            },
            Option::None => i + 4 > buf@.len(),
        },
{
    if buf.len() < 4 || i > buf.len() - 4 {
        return None;
    }
    let len: u16 = (buf[i] as u16) + ((buf[i + 1] as u16) * 0x100);
    let ctr: u16 = (buf[i + 2] as u16) + ((buf[i + 3] as u16) * 0x100);
    Some((len, ctr))
}

/// One received transport packet: its counter and its payload.
#[derive(Debug, PartialEq)]
pub struct TransportFrame {
    /// The 16-bit packet counter from the header.
    pub ctr: u16,
    /// The payload after the header.
    pub payload: Vec<u8>,
}

/// The frames of a receive buffer from position `i` on: each one a 4-byte
/// header (payload length, counter) followed by that many payload bytes.
/// Nothing when the buffer is corrupt: a truncated header or payload, or
/// a zero payload length.
pub open spec fn spec_split_frames(buf: Seq<u8>, i: int) -> Option<Seq<(u16, Seq<u8>)>>
    decreases buf.len() - i
        when 0 <= i <= buf.len()
{
    if i == buf.len() {
        Option::Some(Seq::empty())
    } else if i + 4 > buf.len() {
        Option::None
    } else {
        let len = buf[i] + buf[i + 1] * 0x100;
        let ctr = buf[i + 2] + buf[i + 3] * 0x100;
        if len == 0 || i + 4 + len > buf.len() {
            Option::None
        } else {
            match spec_split_frames(buf, i + 4 + len) {
                Option::Some(rest) => Option::Some(
                    seq![((ctr as u16), buf.subrange(i + 4, i + 4 + len))] + rest,
                ),
                Option::None => Option::None,
            }
        }
    }
}

/// Split a receive buffer into its transport frames, as the receive path
/// does before dispatching on the packet kind. A corrupt buffer fails
/// with a transport layer header error.
pub fn split_frames(buf: &[u8]) -> (r: Result<Vec<TransportFrame>, XcpError>)
    ensures
        match r {
            Result::Ok(frames) => Option::Some(
                frames@.map(|k: int, f: TransportFrame| (f.ctr, f.payload@)),
            ) == spec_split_frames(buf@, 0),
            Result::Err(e) => spec_split_frames(buf@, 0) is None && e.spec_code()
                == ERROR_TL_HEADER,
        },
{
    let n = buf.len();
    let mut frames: Vec<TransportFrame> = Vec::new();
    let mut i: usize = 0;
    while i < n
        invariant
            n == buf@.len(),
            i <= n,
            (match spec_split_frames(buf@, i as int) {
                Option::Some(rest) => spec_split_frames(buf@, 0) == Option::Some(
                    frames@.map(|k: int, f: TransportFrame| (f.ctr, f.payload@)) + rest,
                ),
                Option::None => spec_split_frames(buf@, 0) is None,
            }),
        decreases n - i,
    {
        if n - i < 4 {
            return Err(XcpError::new(ERROR_TL_HEADER, 0));
        }
        let len: usize = (buf[i] as usize) + (buf[i + 1] as usize) * 0x100;
        let ctr: u16 = (buf[i + 2] as u16) + (buf[i + 3] as u16) * 0x100;
        if len == 0 || len > n - i - 4 {
            return Err(XcpError::new(ERROR_TL_HEADER, 0));
        }
        let mut payload: Vec<u8> = Vec::new();
        let start = i + 4;
        let mut k: usize = 0;
        while k < len
            invariant
                start + len <= n,
                n == buf@.len(),
                k <= len,
                payload@ == buf@.subrange(start as int, start + k as int),
            decreases len - k,
        {
            payload.push(buf[start + k]);
            proof {
                assert(payload@ =~= buf@.subrange(start as int, start + k + 1 as int));
            }
            k += 1;
        }
        let ghost before = frames@;
        frames.push(TransportFrame { ctr, payload });
        proof {
            let m = |k: int, f: TransportFrame| (f.ctr, f.payload@);
            assert(frames@.map(m) =~= before.map(m).push(
                (ctr, buf@.subrange(i + 4 as int, i + 4 + len as int)),
            ));
            let rest_next = spec_split_frames(buf@, i + 4 + len as int);
            match rest_next {
                Option::Some(rest) => {
                    assert(spec_split_frames(buf@, i as int) == Option::Some(
                        seq![((ctr as u16), buf@.subrange(i + 4 as int, i + 4 + len as int))]
                            + rest,
                    ));
                    assert(frames@.map(m) + rest =~= before.map(m) + (seq![
                        ((ctr as u16), buf@.subrange(i + 4 as int, i + 4 + len as int)),
                    ] + rest));
                },
                Option::None => {
                    assert(spec_split_frames(buf@, i as int) is None);
                },
            }
        }
        i = i + 4 + len;
    }
    proof {
        assert(spec_split_frames(buf@, n as int) == Option::Some(Seq::<(u16, Seq<u8>)>::empty()));
        assert(frames@.map(|k: int, f: TransportFrame| (f.ctr, f.payload@)) + Seq::<(
            u16,
            Seq<u8>,
        )>::empty() =~= frames@.map(|k: int, f: TransportFrame| (f.ctr, f.payload@)));
    }
    Ok(frames)
}

/// What one received packet is, by its first payload byte.
#[derive(Debug, Copy, Clone, PartialEq, Eq, Structural)]
pub enum PacketKind {
    /// `0xFF`: a positive command response.
    Response,
    /// `0xFE`: a negative command response with an error code.
    Error,
    /// `0xFD`: an event packet, such as session termination.
    Event,
    /// `0xFC`: a service packet carrying text.
    Service,
    /// Anything below: a DAQ frame whose first byte is the ODT number.
    Daq,
}

/// Classify one received packet by its first payload byte, as the
/// receive path does before dispatching it.
pub fn classify_packet(pid: u8) -> (r: PacketKind)
    ensures
        pid == 0xFF ==> r == PacketKind::Response,
        pid == 0xFE ==> r == PacketKind::Error,
        pid == 0xFD ==> r == PacketKind::Event,
        pid == 0xFC ==> r == PacketKind::Service,
        pid <= 0xFB ==> r == PacketKind::Daq,
{
    if pid == 0xFF {
        PacketKind::Response
    } else if pid == 0xFE {
        PacketKind::Error
    } else if pid == 0xFD {
        PacketKind::Event
    } else if pid == 0xFC {
        PacketKind::Service
    } else {
        PacketKind::Daq
    }
}

/// Decoder-side transport counter accounting: sums the counter gaps of the
/// received packets, which equal the frames dropped by the sender's ring.
#[derive(Debug)]
pub struct CtrAccumulator {
    /// Counter of the last packet seen, once one arrived.
    pub last: Option<u16>,
    /// Sum of all gaps seen so far.
    pub lost_total: u64,
}

impl CtrAccumulator {
    /// An accumulator that has seen no packet.
    pub fn new() -> (r: CtrAccumulator)
        ensures
            r.last is None,
            r.lost_total == 0,
    {
        CtrAccumulator { last: None, lost_total: 0 }
    }

    /// Account one received packet counter: the gap to the predecessor,
    /// modulo the 16-bit counter space, is added to the loss total.
    pub fn note(&mut self, ctr: u16)
        requires
            old(self).lost_total + 0x10000 <= u64::MAX,
        ensures
            final(self).last == Option::Some(ctr),
            old(self).last is None ==> final(self).lost_total == old(self).lost_total,
            old(self).last is Some ==> final(self).lost_total == old(self).lost_total + (ctr
                - old(self).last->0 - 1) % 0x10000,
    {
        match self.last {
            None => {},
            Some(last) => {
                let expected: u16 = last.wrapping_add(1);
                let gap: u16 = ctr.wrapping_sub(expected);
                proof {
                    let d = ctr - last - 1;
                    assert(-0x10000 <= d < 0x10000);
                    if d >= 0 {
                        vstd::arithmetic::div_mod::lemma_small_mod(d as nat, 0x10000);
                        assert(gap == d);
                    } else {
                        vstd::arithmetic::div_mod::lemma_mod_add_multiples_vanish(d, 0x10000);
                        vstd::arithmetic::div_mod::lemma_small_mod((d + 0x10000) as nat, 0x10000);
                        assert(gap == d + 0x10000);
                    }
                    assert(gap == (ctr - last - 1) % 0x10000);
                }
                self.lost_total = self.lost_total + (gap as u64);
            },
        }
        self.last = Some(ctr);
    }
}

} // verus!
