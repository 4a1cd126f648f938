use kagami::discovery::Peer;
use kagami::manager::{adjusted_selection, ms_label, peer_labels, SessionManager};
use kagami::net::{IpAddress, SocketAddress};
use kagami::nezumi::{MediaPacket, MediaTrack, NezumiProducer, PreviewFrame};
use kagami::sankaku::{LossBand, LossSample, SankakuStreamStats, VideoFrame, VIDEO_CODEC_HEVC};
use kagami::session::{MediaProvider, MockDuplexSession, RealDuplexSession};

const SEED: u64 = 0x5A17_2D3C_4B91_08EF;

fn step(s: u64) -> u64 {
    s.wrapping_mul(6364136223846793005).wrapping_add(1)
}

fn draw(s: &mut u64) -> u32 {
    *s = step(*s);
    (*s >> 32) as u32
}

fn ranged(s: &mut u64, min: u32, max: u32) -> u32 {
    min + draw(s) % (max - min + 1)
}

fn pixel(b: &[u8], w: usize, x: usize, y: usize) -> [u8; 3] {
    let i = (y * w + x) * 3;
    [b[i], b[i + 1], b[i + 2]]
}

#[test]
fn mock_session_starts_drawn() {
    let m = MockDuplexSession::new(9292);
    assert_eq!(m.local_receiver_port(), 9292);
    assert_eq!(m.local_phase, 1);
    assert_eq!(m.remote_phase, 1);
    assert_eq!((m.local_square.x, m.local_square.y), (22, 17));
    assert_eq!((m.remote_square.x, m.remote_square.y), (103, 77));
    let local = &m.local_frame_buffer.data;
    assert_eq!(local.len(), 320 * 180 * 3);
    // Inside the square, phase 0, not muted: scan = x * 255 / 320.
    let scan = (30 * 255 / 320) as u8;
    assert_eq!(pixel(local, 320, 30, 20), [24, 104 + scan / 8, 232]);
    // Grid line at x = 40, below the status bar.
    let scan = (40 * 255 / 320) as u8;
    assert_eq!(pixel(local, 320, 40, 100), [8, 18 + 4, 44 + 8 + scan / 10]);
    // Status bar row.
    let scan = (5 * 255 / 320) as u8;
    assert_eq!(pixel(local, 320, 5, 3), [8 + 9, 18, 44 + scan / 10]);
    let remote = &m.remote_frame_buffer.data;
    assert_eq!(pixel(remote, 1280, 110, 80), [232, 62, 52]);
    let band = (500 / 6) % 255;
    let horizon = (302 * 255 / 720) as u8;
    assert_eq!(
        pixel(remote, 1280, 500, 302),
        [18 + (band / 8) as u8, 18 + horizon / 7, 42 + (band / 3) as u8]
    );
}

#[test]
fn mock_connect_refuses_blank_address() {
    let mut m = MockDuplexSession::new(1);
    assert_eq!(m.connect("   "), Err("address cannot be empty".to_owned()));
    assert!(m.connected_addr.is_none());
    assert_eq!(m.rng_state, SEED);
}

#[test]
fn mock_connect_mixes_address_into_generator() {
    let mut m = MockDuplexSession::new(1);
    assert_eq!(m.connect(" 10.0.0.2:9292 "), Ok(()));
    assert_eq!(m.connected_addr.as_deref(), Some("10.0.0.2:9292"));
    let h = "10.0.0.2:9292".bytes().fold(0u64, |h, b| h.wrapping_mul(16777619) ^ u64::from(b));
    assert_eq!(m.rng_state, SEED ^ h);
}

#[test]
fn mock_poll_frame_draws_receive_statistics() {
    let mut m = MockDuplexSession::new(1);
    let frame = m.poll_frame().unwrap();
    assert_eq!((frame.width, frame.height), (1280, 720));
    assert_eq!(m.get_telemetry().rx_stats, SankakuStreamStats::default());
    assert_eq!(m.get_telemetry().path_rtt_ms, 0);
    m.connect("peer").unwrap();
    let mut s = m.rng_state;
    m.poll_frame().unwrap();
    let t = m.get_telemetry();
    assert_eq!(t.rx_stats.bitrate_bps, ranged(&mut s, 1_350_000, 2_250_000));
    assert_eq!(
        t.rx_stats.packet_loss_ratio,
        LossSample::Draw { draw: draw(&mut s), band: LossBand::Receive }
    );
    assert_eq!(t.rx_stats.jitter_us, ranged(&mut s, 5_000, 22_000));
    assert_eq!(t.rx_stats.latency_ms, ranged(&mut s, 28, 96));
    assert_eq!(t.path_rtt_ms, ranged(&mut s, 24, 78) as u64);
    assert_eq!((t.rx_stats.width, t.rx_stats.height), (1280, 720));
    assert_eq!(m.rng_state, s);
    assert!((1_350_000..=2_250_000).contains(&t.rx_stats.bitrate_bps));
}

#[test]
fn mock_capture_and_broadcast() {
    let mut m = MockDuplexSession::new(1);
    let f = m.capture_local_frame(777).unwrap();
    assert_eq!(f.timestamp_us, 777);
    assert_eq!(f.codec, VIDEO_CODEC_HEVC);
    assert_eq!((f.width, f.height), (320, 180));
    assert_eq!(f.payload, m.local_frame_buffer.data);
    assert!(!f.keyframe);
    // Not connected: statistics are cleared.
    m.broadcast_frame(f);
    assert_eq!(m.get_telemetry().tx_stats, SankakuStreamStats::default());
    m.connect("peer").unwrap();
    let mut s = m.rng_state;
    let f = m.capture_local_frame(778).unwrap();
    m.broadcast_frame(f);
    let t = m.get_telemetry();
    assert_eq!(t.tx_stats.bitrate_bps, ranged(&mut s, 1_550_000, 2_550_000));
    assert_eq!(
        t.tx_stats.packet_loss_ratio,
        LossSample::Draw { draw: draw(&mut s), band: LossBand::Transmit }
    );
    assert_eq!(t.tx_stats.jitter_us, ranged(&mut s, 2_000, 8_000));
    assert_eq!(t.tx_stats.latency_ms, 0);
    assert_eq!(t.udp_tx_dropped, ranged(&mut s, 0, 2) as u64);
    // A frame of another codec clears the statistics.
    let mut other = VideoFrame::nal_with_codec(vec![], 0, false, 0x03);
    other = other.with_dimensions(1, 1);
    m.broadcast_frame(other);
    assert_eq!(m.get_telemetry().tx_stats, SankakuStreamStats::default());
    assert_eq!(m.get_telemetry().udp_tx_dropped, 0);
}

#[test]
fn mock_keyframe_every_45_frames() {
    let mut m = MockDuplexSession::new(1);
    let mut keys = vec![];
    for _ in 0..100 {
        let f = m.capture_local_frame(0).unwrap();
        if f.keyframe {
            keys.push(m.local_phase);
        }
    }
    assert_eq!(keys, vec![45, 90]);
}

#[test]
fn mock_stopped_video_gives_no_frames() {
    let mut m = MockDuplexSession::new(1);
    m.set_video_enabled(false);
    assert_eq!(m.local_frame_buffer.data, [18u8, 18, 24].repeat(320 * 180));
    assert!(m.capture_local_frame(5).is_none());
    assert_eq!(m.get_telemetry().tx_stats, SankakuStreamStats::default());
    assert_eq!(m.local_phase, 1);
    m.set_video_enabled(true);
    assert!(m.capture_local_frame(6).is_some());
    m.set_audio_muted(true);
    assert!(m.audio_muted);
    let preview = m.poll_local_preview().unwrap();
    assert_eq!(preview.data, m.local_frame_buffer.data);
}

struct ScriptedProducer {
    packets: Vec<MediaPacket>,
    previews: Vec<PreviewFrame>,
}

impl NezumiProducer for ScriptedProducer {
    fn tracks(&self) -> Vec<MediaTrack> {
        vec![]
    }
    fn start_reading(&mut self) -> Result<(), String> {
        Ok(())
    }
    fn next_packet(&mut self) -> Option<MediaPacket> {
        self.packets.pop()
    }
    fn next_preview_frame(&mut self) -> Option<PreviewFrame> {
        self.previews.pop()
    }
    fn stop(&mut self) {}
}

fn packet(len: usize) -> MediaPacket {
    MediaPacket {
        track_id: "video0".to_owned(),
        timestamp_us: 42,
        keyframe: true,
        codec: 0x7f,
        data: vec![1; len],
        width: 640,
        height: 360,
    }
}

#[test]
fn real_session_frames_from_packets() {
    let producer = ScriptedProducer { packets: vec![packet(1000)], previews: vec![] };
    let mut r = RealDuplexSession::new(producer, 4, 2, 9000);
    assert_eq!(r.local_receiver_port(), 9000);
    let f = r.capture_local_frame(1).unwrap();
    assert_eq!(f.timestamp_us, 42);
    assert!(f.keyframe);
    assert_eq!(f.codec, VIDEO_CODEC_HEVC);
    assert_eq!((f.width, f.height), (640, 360));
    assert_eq!(f.payload.len(), 1000);
    assert_eq!(r.frames_sent, 1);
    let t = r.get_telemetry().tx_stats;
    assert_eq!(t.bitrate_bps, 240_000);
    assert_eq!((t.width, t.height), (640, 360));
    assert!(r.capture_local_frame(2).is_none());
    assert_eq!(r.frames_sent, 1);
}

#[test]
fn real_session_bitrate_wraps_like_u32() {
    let mut r = RealDuplexSession::new(ScriptedProducer { packets: vec![], previews: vec![] }, 1, 1, 1);
    r.frame_from_packet(Some(packet(20_000_000))).unwrap();
    assert_eq!(r.telemetry.tx_stats.bitrate_bps, 20_000_000u32.wrapping_mul(240));
}

#[test]
fn real_session_previews() {
    let good = PreviewFrame { width: 2, height: 1, stride: 6, data: vec![1, 2, 3, 4, 5, 6, 7], timestamp_us: 0 };
    let short = PreviewFrame { width: 2, height: 2, stride: 6, data: vec![9; 11], timestamp_us: 0 };
    let producer = ScriptedProducer { packets: vec![], previews: vec![good, short] };
    let mut r = RealDuplexSession::new(producer, 4, 2, 1);
    // The short frame (popped first) is ignored.
    let p = r.poll_local_preview().unwrap();
    assert_eq!((p.width, p.height), (4, 2));
    assert_eq!(p.data, vec![0; 24]);
    let p = r.poll_local_preview().unwrap();
    assert_eq!((p.width, p.height), (2, 1));
    assert_eq!(p.data, vec![1, 2, 3, 4, 5, 6]);
    let huge = PreviewFrame { width: 65536, height: 65536, stride: 0, data: vec![], timestamp_us: 0 };
    r.show_preview_frame(Some(huge));
    assert_eq!(r.local_preview_buffer.width, 2);
    r.set_video_enabled(false);
    assert_eq!(r.local_preview_buffer.data, [18u8, 18, 24].repeat(2));
    assert!(r.capture_local_frame(0).is_none());
    assert_eq!(r.get_telemetry().tx_stats, SankakuStreamStats::default());
}

#[test]
fn real_session_connect() {
    let mut r = RealDuplexSession::new(ScriptedProducer { packets: vec![], previews: vec![] }, 1, 1, 1);
    assert_eq!(r.connect("\t"), Err("address cannot be empty".to_owned()));
    assert_eq!(r.connect(" [::1]:80 "), Ok(()));
    assert_eq!(r.connected_addr.as_deref(), Some("[::1]:80"));
}

fn a_peer() -> Peer {
    Peer {
        id: "p1".to_owned(),
        display_name: "Pat".to_owned(),
        host_name: "pat.local".to_owned(),
        addr: SocketAddress { ip: IpAddress::V4([10, 1, 2, 3]), port: 9292 },
        capabilities: vec!["Kagami-Video".to_owned()],
    }
}

#[test]
fn manager_connects_to_peer_address() {
    let mut mgr = SessionManager::new(MockDuplexSession::new(4242));
    assert_eq!(mgr.receiver_loop.bound_port, 4242);
    assert_eq!(mgr.connect_peer(a_peer()), Ok(()));
    assert_eq!(mgr.media_provider.connected_addr.as_deref(), Some("10.1.2.3:9292"));
    assert!(mgr.sender_loop.target_peer.unwrap().same_as(&a_peer().addr));
    assert!(mgr.receiver_loop.accepted_peer.unwrap().same_as(&a_peer().addr));
    assert_eq!(mgr.connected_peer.as_ref().map(|p| p.id.clone()), Some("p1".to_owned()));
    assert!(mgr.has_poll_budget());
    assert!(mgr.has_capture_budget());
    mgr.capture_and_broadcast(10);
    assert!(mgr.telemetry().tx_stats.bitrate_bps >= 1_550_000);
    mgr.set_video_enabled(false);
    mgr.capture_and_broadcast(11);
    assert_eq!(mgr.telemetry().tx_stats, SankakuStreamStats::default());
    assert_eq!(mgr.telemetry().udp_tx_dropped, 0);
    mgr.set_audio_muted(true);
    assert!(mgr.media_provider.audio_muted);
    assert!(mgr.poll_remote_frame().is_some());
    assert!(mgr.poll_local_preview().is_some());
}

#[test]
fn ui_values() {
    assert_eq!(adjusted_selection(3, 0), Some(-1));
    assert_eq!(adjusted_selection(-1, 2), Some(0));
    assert_eq!(adjusted_selection(2, 2), Some(0));
    assert_eq!(adjusted_selection(1, 2), None);
    assert_eq!(ms_label(0), "Waiting");
    assert_eq!(ms_label(42), "42ms");
    let labels = peer_labels(&vec![a_peer()]);
    assert_eq!(labels, vec!["Pat (pat.local) · 10.1.2.3:9292 · Kagami-Video".to_owned()]);
}

#[test]
fn budgets_follow_overflow_points() {
    let mut m = MockDuplexSession::new(1);
    m.remote_phase = u32::MAX - 213;
    assert!(m.has_poll_budget());
    assert!(m.poll_frame().is_some());
    assert!(!m.has_poll_budget());
    m.local_phase = u32::MAX - 319;
    assert!(m.has_capture_budget());
    assert!(m.capture_local_frame(5).is_some());
    assert!(!m.has_capture_budget());
    m.set_video_enabled(false);
    assert!(m.capture_local_frame(6).is_none());
    assert_eq!(m.local_phase, u32::MAX - 318);
}
