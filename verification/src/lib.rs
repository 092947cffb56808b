//! In-process measurement and calibration (MC) runtime core.
//!
//! The library models the four pillars of an XCP-on-Ethernet MC server and
//! the codec used by a measurement tool:
//!
//! * an address model that encodes every MC object location in one of four
//!   addressing modes and converts it to the wire format,
//! * a registry holding events, calibration segments, typedefs and instances,
//! * a calibration segment engine with two pages, atomic page selection and
//!   bracketed consistent writes,
//! * the DAQ pipeline: events with capture buffers, a bounded DTO ring with
//!   loss accounting, and the decoder that lifts raw 32-bit timestamps.

mod cal_seg;
mod client;
mod daq_event;
mod daq_decoder;
mod dto_ring;
mod error;
mod fmt_num;
mod ident;
mod mc_address;
mod mc_event;
mod mc_instance;
mod mc_registry;
mod mc_seg;
mod mc_type;
/// Protocol constants: command codes, response codes, identification
/// kinds and page selection modes.
pub mod protocol;
mod server;
mod mc_typedef;

pub use cal_seg::CalSeg;
pub use cal_seg::CalSegError;
pub use cal_seg::ReadLockGuard;
pub use cal_seg::lemma_bracketed_consistency;
pub use cal_seg::lemma_page_swap_round_trip;
pub use cal_seg::lemma_splice_bytes;
pub use cal_seg::splice_bytes;
pub use cal_seg::CAL_PAGE_FLASH;
pub use cal_seg::CAL_PAGE_RAM;
pub use daq_event::DaqEvent;
pub use daq_event::XcpEvent;
pub use server::daq_frame_bytes;
pub use server::entries_fit;
pub use server::entries_payload;
pub use server::entry_bytes;
pub use server::list_triggers;
pub use server::DaqList;
pub use server::OdtEntryCfg;
pub use server::XcpServer;
pub use server::EV_SESSION_TERMINATED;
pub use daq_decoder::le_value;
pub use daq_decoder::le_value_signed;
pub use daq_decoder::lemma_le_value_bound;
pub use daq_decoder::lemma_pow256_value_4;
pub use daq_decoder::lemma_lift_run_monotonic;
pub use daq_decoder::lemma_lift_timestamp_monotonic;
pub use daq_decoder::lift_timestamp;
pub use daq_decoder::parse_daq_frame;
pub use daq_decoder::read_le_i64;
pub use daq_decoder::read_le_u64;
pub use daq_decoder::spec_lift_run;
pub use daq_decoder::spec_lift_timestamp;
pub use daq_decoder::DaqDecoder;
pub use daq_decoder::DaqFrame;
pub use daq_decoder::OdtEntry;
pub use dto_ring::ctr_gap_sum;
pub use dto_ring::lemma_ctr_gap_counts_losses;
pub use dto_ring::DtoFrame;
pub use dto_ring::DtoRing;
pub use client::parse_connect_response;
pub use client::parse_segment_info;
pub use client::spec_pow10;
pub use client::timestamp_resolution_ns;
pub use client::contains_val;
pub use client::ConnectInfo;
pub use client::plan_measurement;
pub use client::size_sum_before;
pub use client::A2lAddr;
pub use client::MeasurementPlan;
pub use client::A2lType;
pub use client::A2lTypeEncoding;
pub use client::XcpCalibrationObjectHandle;
pub use client::XcpClientCalibrationObject;
pub use client::XcpClientMeasurementObject;
pub use client::XcpMeasurementObjectHandle;
pub use client::XcpTaskControl;
pub use error::RegistryError;
pub use ident::lemma_lex_total;
pub use ident::lemma_lex_trans;
pub use ident::lex_le;
pub use ident::str_eq;
pub use ident::str_le;
pub use ident::McIdentifier;
pub use ident::McText;
pub use mc_address::wire_u16_of_i16;
pub use mc_address::wire_u32_of_i32;
pub use mc_address::wrap_add_u32;
pub use mc_address::McAddrMode;
pub use mc_address::McAddress;
pub use mc_event::event_location_matches;
pub use mc_event::event_matches;
pub use mc_event::lemma_unique_ids_multiset;
pub use mc_event::McEvent;
pub use mc_event::McEventList;
pub use mc_instance::McInstance;
pub use mc_instance::McInstanceList;
pub use mc_instance::McObjectType;
pub use mc_instance::McSupportData;
pub use mc_registry::McApplication;
pub use mc_registry::McXcpTransportLayer;
pub use mc_registry::Registry;
pub use mc_seg::lemma_index_of_first;
pub use mc_seg::lemma_index_of_none;
pub use mc_seg::spec_index_of_rec;
pub use mc_seg::McCalibrationSegment;
pub use mc_seg::McCalibrationSegmentList;
pub use protocol::frame_packet;
pub use protocol::spec_split_frames;
pub use protocol::split_frames;
pub use protocol::TransportFrame;
pub use protocol::parse_transport_header;
pub use protocol::classify_packet;
pub use protocol::CtrAccumulator;
pub use protocol::PacketKind;
pub use protocol::XcpCommand;
pub use protocol::XcpCommandBuilder;
pub use protocol::XcpError;
pub use mc_type::spec_array_base;
pub use mc_type::spec_basic_of;
pub use mc_type::McDimType;
pub use mc_type::McValueType;
pub use mc_type::McValueTypeTrait;
pub use mc_typedef::McTypeDef;
pub use mc_typedef::McTypeDefField;
pub use mc_typedef::McTypeDefList;
