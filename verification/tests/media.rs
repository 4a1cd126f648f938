use kagami::nezumi::{
    bgra_to_rgb8, cm_time, encoded_video_packet, keyframe_from_not_sync, preview_from_bgra,
    video_tracks, MediaPacket, MediaTrack, NezumiProducer, PreviewFrame, StubProducer, TrackKind,
    K_CM_TIME_FLAGS_VALID,
};
use kagami::render::{advance_square, AnimatedSquare, PixelBuffer};
use kagami::sankaku::{
    SankakuQuicHandle, SankakuQuicHandleKind, SankakuStreamStats, SankakuTelemetry, VideoFrame,
    AUDIO_CODEC_OPUS, SANKAKU_FRAME_FLAG_KEYFRAME, VIDEO_CODEC_HEVC,
};

#[test]
fn video_frame_builders() {
    let f = VideoFrame::nal_with_codec(vec![0, 0, 0, 1, 0x40], 1234, true, VIDEO_CODEC_HEVC);
    assert_eq!((f.width, f.height), (0, 0));
    let f = f.with_dimensions(1280, 720);
    assert_eq!(f.payload, vec![0, 0, 0, 1, 0x40]);
    assert_eq!(f.timestamp_us, 1234);
    assert!(f.keyframe);
    assert_eq!(f.codec, 0x01);
    assert_eq!((f.width, f.height), (1280, 720));
    assert_eq!(AUDIO_CODEC_OPUS, 0x03);
    assert_eq!(SANKAKU_FRAME_FLAG_KEYFRAME, 1);
    let h = SankakuQuicHandle { kind: SankakuQuicHandleKind::Connection, handle: 7 };
    assert_eq!(h.kind, SankakuQuicHandleKind::Connection);
}

#[test]
fn default_statistics_are_zero() {
    let t = SankakuTelemetry::default();
    assert_eq!(t.tx_stats, SankakuStreamStats::default());
    assert_eq!(t.path_rtt_ms, 0);
    assert_eq!(t.udp_tx_dropped, 0);
    assert_eq!(t.rx_stats.bitrate_bps, 0);
}

#[test]
fn bgra_pixels_become_rgb() {
    // 2x2 image, stride 12 (one padding pixel per row).
    let bgra: Vec<u8> = vec![
        1, 2, 3, 255, 4, 5, 6, 255, 99, 99, 99, 99, //
        7, 8, 9, 255, 10, 11, 12, 255, 99, 99, 99, 99,
    ];
    let rgb = bgra_to_rgb8(&bgra, 2, 2, 12);
    assert_eq!(rgb, vec![3, 2, 1, 6, 5, 4, 9, 8, 7, 12, 11, 10]);
}

#[test]
fn alpha_and_padding_do_not_change_the_conversion() {
    let a: Vec<u8> = vec![
        1, 2, 3, 255, 4, 5, 6, 255, 99, 99, 99, 99, //
        7, 8, 9, 255, 10, 11, 12, 255, 99, 99, 99, 99,
    ];
    let b: Vec<u8> = vec![
        1, 2, 3, 0, 4, 5, 6, 17, 0, 1, 2, 3, //
        7, 8, 9, 128, 10, 11, 12, 64, 5, 6, 7, 8,
    ];
    assert_eq!(bgra_to_rgb8(&a, 2, 2, 12), bgra_to_rgb8(&b, 2, 2, 12));
}

#[test]
fn bgra_short_data_gives_black() {
    let bgra: Vec<u8> = vec![1, 2, 3, 255, 4, 5];
    let rgb = bgra_to_rgb8(&bgra, 2, 1, 8);
    assert_eq!(rgb, vec![3, 2, 1, 0, 0, 0]);
    assert_eq!(bgra_to_rgb8(&[], 0, 5, 0), Vec::<u8>::new());
}

#[test]
fn preview_frames() {
    let bgra: Vec<u8> = vec![10, 20, 30, 0];
    let p = preview_from_bgra(&bgra, 1, 1, 4, 99);
    assert_eq!((p.width, p.height, p.stride, p.timestamp_us), (1, 1, 3, 99));
    assert_eq!(p.data, vec![30, 20, 10]);
}

#[test]
fn encoder_outputs() {
    let p = encoded_video_packet(vec![9, 9], false, 640, 480, 5);
    assert_eq!(p.track_id, "video0");
    assert_eq!(p.codec, VIDEO_CODEC_HEVC);
    assert_eq!((p.width, p.height, p.timestamp_us, p.keyframe), (640, 480, 5, false));
    assert!(keyframe_from_not_sync(None));
    assert!(keyframe_from_not_sync(Some(0)));
    assert!(!keyframe_from_not_sync(Some(1)));
    let t = cm_time(42, 30);
    assert_eq!((t.value, t.timescale, t.flags, t.epoch), (42, 30, K_CM_TIME_FLAGS_VALID, 0));
    let tracks: Vec<MediaTrack> = video_tracks();
    assert_eq!(tracks.len(), 1);
    assert_eq!(tracks[0].id, "video0");
    assert_eq!(tracks[0].kind, TrackKind::Video);
}

#[test]
fn stub_producer_has_nothing() {
    let mut p = StubProducer;
    assert!(p.tracks().is_empty());
    assert_eq!(p.start_reading(), Err("no capture backend available on this platform".to_owned()));
    let packet: Option<MediaPacket> = p.next_packet();
    assert!(packet.is_none());
    let frame: Option<PreviewFrame> = p.next_preview_frame();
    assert!(frame.is_none());
    p.stop();
}

#[test]
fn squares_bounce_off_edges() {
    let mut sq = AnimatedSquare { x: 264, y: 10, vx: 4, vy: -3, size: 54 };
    advance_square(&mut sq, 320, 180);
    assert_eq!((sq.x, sq.vx), (266, -4));
    assert_eq!((sq.y, sq.vy), (7, -3));
    let mut sq = AnimatedSquare { x: 2, y: 2, vx: -4, vy: -3, size: 54 };
    advance_square(&mut sq, 320, 180);
    assert_eq!((sq.x, sq.vx, sq.y, sq.vy), (0, 4, 0, 3));
    // A square larger than the frame stays at the origin.
    let mut sq = AnimatedSquare { x: 0, y: 0, vx: 5, vy: 5, size: 500 };
    advance_square(&mut sq, 320, 180);
    assert_eq!((sq.x, sq.vx, sq.y, sq.vy), (0, -5, 0, -5));
}

#[test]
fn pixel_buffers() {
    let mut b = PixelBuffer::new(3, 2);
    assert_eq!(b.data, vec![0; 18]);
    b.fill(18, 18, 24);
    assert_eq!(b.data, [18u8, 18, 24].repeat(6));
}

#[test]
fn sizes_past_i32_wrap_like_casts() {
    // `u32::MAX as i32` is -1, so the square has no room and is clamped.
    let mut sq = AnimatedSquare { x: 10, y: 10, vx: 4, vy: 3, size: 54 };
    advance_square(&mut sq, u32::MAX, u32::MAX);
    assert_eq!((sq.x, sq.y, sq.vx, sq.vy), (0, 0, -4, -3));
}
