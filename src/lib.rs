//! Packet-loss statistics for MWAX subfiles, and the observation range
//! selection used by the visibility statistics tools.
//!
//! A subfile starts with a fixed-size ASCII header of `KEY value` lines.
//! One of its keys, `IDX_PACKET_MAP`, locates a bitmap holding one bit per
//! expected packet for every input. This crate parses the header, counts the
//! lost packets per input and encodes the counts as the on-disk record.

mod error;
mod header;
mod loss;
mod selection;
mod stats;
mod visibility;

pub use error::{HeaderKey, MissingHeaderKey, SubfileError};
pub use header::{
    parse_decimal, parse_header, parse_header_lines, read_subfile_header_key, split_header_lines,
    SubfileHeader, HEADER_LEN,
};
pub use loss::{count_lost_packets, lost_packets_in_byte};
pub use selection::{get_timesteps_coarse_chan_ranges, MwaxStatsError, ObservationIndices};
pub use stats::{encode_packet_stats, packet_stats_filename, packet_stats_record};
pub use visibility::{autocorrelation_samples, autos_filename, fringes_filename, AutoSample};
