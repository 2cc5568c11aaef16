//! Verified core of a real-time audio-analysis display loop: demultiplexing
//! raw stereo capture buffers, fixed-point normalization, dominant-frequency
//! selection over spectral magnitudes, bar-graph height mapping, and the
//! per-iteration control decisions of the capture loop.

pub mod bars;
pub mod demux;
pub mod normalize;
pub mod pipeline;
pub mod spectrum;
