//! Frames and telemetry exchanged with the Sankaku transport.
use vstd::prelude::*;

verus! {

pub const VIDEO_CODEC_HEVC: u8 = 0x01;

pub const AUDIO_CODEC_OPUS: u8 = 0x03;

pub const SANKAKU_FRAME_FLAG_KEYFRAME: u32 = 0x0000_0001;

/// Which range a packet-loss sample is scaled into.
#[derive(Clone, Copy, Debug, PartialEq, Eq, Structural)]
pub enum LossBand {
    /// Receive side, 0.0010 to 0.0140.
    Receive,
    /// Transmit side, 0.0005 to 0.0090.
    Transmit,
}

/// A packet-loss ratio: zero, or a uniform draw (`draw / u32::MAX`) scaled
/// into the range of a band.
#[derive(Clone, Copy, Debug, PartialEq, Eq, Structural)]
pub enum LossSample {
    Zero,
    Draw { draw: u32, band: LossBand },
}

/// Statistics of one direction of a stream.
#[derive(Clone, Copy, Debug, PartialEq, Eq, Structural)]
pub struct SankakuStreamStats {
    pub bitrate_bps: u32,
    pub packet_loss_ratio: LossSample,
    pub jitter_us: u32,
    pub latency_ms: u32,
    pub width: u32,
    pub height: u32,
}

impl SankakuStreamStats {
    /// All statistics zero (`SankakuStreamStats::default()`).
    pub open spec fn zero() -> SankakuStreamStats {
        SankakuStreamStats {
            bitrate_bps: 0,
            packet_loss_ratio: LossSample::Zero,
            jitter_us: 0,
            latency_ms: 0,
            width: 0,
            height: 0,
        }
    }
}

impl Default for SankakuStreamStats {
    fn default() -> (r: SankakuStreamStats)
        ensures
            r == SankakuStreamStats::zero(),
    {
        SankakuStreamStats {
            bitrate_bps: 0,
            packet_loss_ratio: LossSample::Zero,
            jitter_us: 0,
            latency_ms: 0,
            width: 0,
            height: 0,
        }
    }
}

/// Transmit and receive statistics of a session.
#[derive(Clone, Copy, Debug, PartialEq, Eq, Structural)]
pub struct SankakuTelemetry {
    pub tx_stats: SankakuStreamStats,
    pub rx_stats: SankakuStreamStats,
    pub path_rtt_ms: u64,
    pub udp_tx_dropped: u64,
}

impl SankakuTelemetry {
    pub open spec fn zero() -> SankakuTelemetry {
        SankakuTelemetry {
            tx_stats: SankakuStreamStats::zero(),
            rx_stats: SankakuStreamStats::zero(),
            path_rtt_ms: 0,
            udp_tx_dropped: 0,
        }
    }
}

impl Default for SankakuTelemetry {
    fn default() -> (r: SankakuTelemetry)
        ensures
            r == SankakuTelemetry::zero(),
    {
        SankakuTelemetry {
            tx_stats: SankakuStreamStats::default(),
            rx_stats: SankakuStreamStats::default(),
            path_rtt_ms: 0,
            udp_tx_dropped: 0,
        }
    }
}

/// An encoded video frame handed to the transport.
#[derive(Clone, Debug)]
pub struct VideoFrame {
    pub timestamp_us: u64,
    pub keyframe: bool,
    pub codec: u8,
    pub width: u32,
    pub height: u32,
    pub payload: Vec<u8>,
}

impl VideoFrame {
    /// A frame carrying NAL units of `codec`, with no dimensions yet.
    pub fn nal_with_codec(payload: Vec<u8>, timestamp_us: u64, keyframe: bool, codec: u8) -> (r:
        Self)
        ensures
            r.payload@ == payload@,
            r.timestamp_us == timestamp_us,
            r.keyframe == keyframe,
            r.codec == codec,
            r.width == 0,
            r.height == 0,
    {
        Self { timestamp_us, keyframe, codec, width: 0, height: 0, payload }
    }

    /// The same frame with the given dimensions.
    pub fn with_dimensions(self, width: u32, height: u32) -> (r: Self)
        ensures
            r.payload@ == self.payload@,
            r.timestamp_us == self.timestamp_us,
            r.keyframe == self.keyframe,
            r.codec == self.codec,
            r.width == width,
            r.height == height,
    {
        let mut frame = self;
        frame.width = width;
        frame.height = height;
        frame
    }
}

/// An opaque stream owned by the transport.
pub struct SankakuStreamHandle {
    pub _private: [u8; 0],
}

/// What a QUIC handle refers to.
#[derive(Clone, Copy, Debug, PartialEq, Eq, Structural)]
pub enum SankakuQuicHandleKind {
    Invalid,
    Connection,
    Endpoint,
}

/// A QUIC connection or endpoint registered with the transport.
#[derive(Clone, Copy, Debug, PartialEq, Eq, Structural)]
pub struct SankakuQuicHandle {
    pub kind: SankakuQuicHandleKind,
    pub handle: u64,
}

#[derive(Clone, Copy, Debug, PartialEq, Eq, Structural)]
pub enum SankakuFrameKind {
    Keyframe,
    Delta,
}

/// An outbound frame in the transport's layout, its payload held as bytes.
#[derive(Clone, Debug)]
pub struct SankakuVideoFrame {
    pub data: Vec<u8>,
    pub pts_us: u64,
    pub dts_us: u64,
    pub codec: u8,
    pub kind: SankakuFrameKind,
    pub flags: u32,
}

} // verus!
