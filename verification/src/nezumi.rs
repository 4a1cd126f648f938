//! Capture producers: tracks, encoded packets, preview frames and the
//! conversion of captured BGRA pixels.
use vstd::prelude::*;
use crate::sankaku::VIDEO_CODEC_HEVC;

verus! {

#[derive(Clone, Copy, Debug, PartialEq, Eq, Structural)]
pub enum TrackKind {
    Video,
    Audio,
}

#[derive(Clone, Debug)]
pub struct MediaTrack {
    pub id: String,
    pub kind: TrackKind,
}

/// An encoded packet produced by a capture backend.
#[derive(Clone, Debug)]
pub struct MediaPacket {
    pub track_id: String,
    pub timestamp_us: u64,
    pub keyframe: bool,
    pub codec: u8,
    pub data: Vec<u8>,
    pub width: u32,
    pub height: u32,
}

/// An RGB8 preview image (`stride` bytes per row).
#[derive(Clone, Debug)]
pub struct PreviewFrame {
    pub width: u32,
    pub height: u32,
    pub stride: u32,
    pub data: Vec<u8>,
    pub timestamp_us: u64,
}

/// A source of captured media. Implementations decide what each call
/// returns; each says, by `gives_packet` and `gives_preview`, which results
/// its calls can have.
pub trait NezumiProducer: Sized {
    /// `next_packet` can take the producer from `self` to `after` and
    /// return `packet`. A producer that does not say allows any result.
    open spec fn gives_packet(&self, after: Self, packet: Option<MediaPacket>) -> bool {
        true
    }

    /// `next_preview_frame` can take the producer from `self` to `after`
    /// and return `frame`. A producer that does not say allows any result.
    open spec fn gives_preview(&self, after: Self, frame: Option<PreviewFrame>) -> bool {
        true
    }

    fn tracks(&self) -> Vec<MediaTrack>;

    fn start_reading(&mut self) -> Result<(), String>;

    fn next_packet(&mut self) -> (r: Option<MediaPacket>)
        ensures
            old(self).gives_packet(*final(self), r),
    ;

    fn next_preview_frame(&mut self) -> (r: Option<PreviewFrame>)
        ensures
            old(self).gives_preview(*final(self), r),
    ;

    fn stop(&mut self);
}

pub open spec fn no_backend_message() -> Seq<char> {
    "no capture backend available on this platform"@
}

/// The producer of platforms without a capture backend.
pub struct StubProducer;

impl NezumiProducer for StubProducer {
    /// There is never a packet.
    open spec fn gives_packet(&self, after: Self, packet: Option<MediaPacket>) -> bool {
        packet is None
    }

    /// There is never a preview frame.
    open spec fn gives_preview(&self, after: Self, frame: Option<PreviewFrame>) -> bool {
        frame is None
    }

    fn tracks(&self) -> (r: Vec<MediaTrack>)
        ensures
            r@.len() == 0,
    {
        Vec::new()
    }

    fn start_reading(&mut self) -> (r: Result<(), String>)
        ensures
            r matches Err(e) && e@ == no_backend_message(),
    {
        let m = "no capture backend available on this platform";
        proof {
            reveal_strlit("no capture backend available on this platform");
        }
        Err(m.to_owned())
    }

    fn next_packet(&mut self) -> (r: Option<MediaPacket>)
        ensures
            r is None,
    {
        None
    }

    fn next_preview_frame(&mut self) -> (r: Option<PreviewFrame>)
        ensures
            r is None,
    {
        None
    }

    fn stop(&mut self) {
    }
}

/// The single video track of a camera producer.
pub fn video_tracks() -> (r: Vec<MediaTrack>)
    ensures
        r@.len() == 1,
        r@[0].id@ == "video0"@,
        r@[0].kind == TrackKind::Video,
{
    let id = "video0";
    let mut r: Vec<MediaTrack> = Vec::new();
    r.push(MediaTrack { id: id.to_owned(), kind: TrackKind::Video });
    r
}

/// A packet of HEVC data from the encoder, on track `video0`.
pub fn encoded_video_packet(data: Vec<u8>, keyframe: bool, width: u32, height: u32, timestamp_us: u64) -> (r:
    MediaPacket)
    ensures
        r.track_id@ == "video0"@,
        r.timestamp_us == timestamp_us,
        r.keyframe == keyframe,
        r.codec == VIDEO_CODEC_HEVC,
        r.data@ == data@,
        r.width == width,
        r.height == height,
{
    let id = "video0";
    MediaPacket {
        track_id: id.to_owned(),
        timestamp_us,
        keyframe,
        codec: VIDEO_CODEC_HEVC,
        data,
        width,
        height,
    }
}

/// Whether an encoded sample is a keyframe, from its `NotSync` attachment:
/// a sample without the attachment is a sync sample.
pub fn keyframe_from_not_sync(not_sync: Option<u8>) -> (r: bool)
    ensures
        r == match not_sync {
            None => true,
            Some(v) => v == 0,
        },
{
    match not_sync {
        None => true,
        Some(v) => v == 0,
    }
}

/// A CoreMedia time value.
#[derive(Clone, Copy, Debug)]
pub struct CMTimeRepr {
    pub value: i64,
    pub timescale: i32,
    pub flags: u32,
    pub epoch: i64,
}

pub const K_CM_TIME_FLAGS_VALID: u32 = 1;

/// A valid time of `value / timescale` seconds in epoch 0.
pub fn cm_time(value: i64, timescale: i32) -> (r: CMTimeRepr)
    ensures
        r.value == value,
        r.timescale == timescale,
        r.flags == K_CM_TIME_FLAGS_VALID,
        r.epoch == 0,
{
    CMTimeRepr { value, timescale, flags: K_CM_TIME_FLAGS_VALID, epoch: 0 }
}

// ---------------------------------------------------------------------------
// BGRA to RGB8
// ---------------------------------------------------------------------------

/// Byte `c` (0 red, 1 green, 2 blue) of pixel `(x, y)` in a packed RGB8 image
/// of width `w`.
pub open spec fn rgb_byte(out: Seq<u8>, w: int, x: int, y: int, c: int) -> u8 {
    out[(y * w + x) * 3 + c]
}

/// Channel `c` of pixel `(x, y)` read from a BGRA image with `stride` bytes
/// per row; black where the pixel lies past the end of the data.
pub open spec fn bgra_channel(bgra: Seq<u8>, stride: int, x: int, y: int, c: int) -> u8 {
    let px = y * stride + x * 4;
    if px + 2 < bgra.len() {
        bgra[px + 2 - c]
    } else {
        0
    }
}

/// The indices of the conversion fit in `usize`, and the pixel count in `u32`.
pub open spec fn bgra_layout_fits(width: u32, height: u32, stride: usize) -> bool {
    &&& width * height * 3 <= u32::MAX
    &&& height > 0 ==> (height - 1) * stride <= usize::MAX
    &&& height > 0 && width > 0 ==> (height - 1) * stride + (width - 1) * 4 + 2 <= usize::MAX
}

proof fn lemma_index_order(w: int, x1: int, y1: int, x2: int, y2: int)
    requires
        0 <= x1 < w,
        0 <= x2 < w,
        0 <= y1,
        0 <= y2,
        y1 < y2 || (y1 == y2 && x1 < x2),
    ensures
        y1 * w + x1 < y2 * w + x2,
{
    if y1 < y2 {
        assert(y1 * w + w <= y2 * w) by (nonlinear_arith)
            requires
                y1 < y2,
                w > 0,
        ;
    }
}

/// Converts BGRA rows (`stride` bytes each) to packed RGB8.
pub fn bgra_to_rgb8(bgra: &[u8], width: u32, height: u32, stride: usize) -> (rgb: Vec<u8>)
    requires
        bgra_layout_fits(width, height, stride),
    ensures
        converted(bgra@, width, height, stride, rgb@),
{
    let mut rgb: Vec<u8> = Vec::with_capacity((width * height * 3) as usize);
    let w = width as usize;
    let h = height as usize;
    let mut y: usize = 0;
    while y < h
        invariant
            w == width,
            h == height,
            y <= h,
            bgra_layout_fits(width, height, stride),
            rgb@.len() == (y * w) * 3,
            forall|x2: int, y2: int, c: int|
                0 <= x2 < w && 0 <= y2 < y && 0 <= c < 3 ==> #[trigger] rgb_byte(
                    rgb@,
                    w as int,
                    x2,
                    y2,
                    c,
                ) == bgra_channel(bgra@, stride as int, x2, y2, c),
        decreases h - y,
    {
        assert(y * stride <= (height - 1) * stride) by (nonlinear_arith)
            requires
                y <= height - 1,
                stride >= 0,
        ;
        let row_start = y * stride;
        let mut x: usize = 0;
        while x < w
            invariant
                w == width,
                h == height,
                y < h,
                x <= w,
                row_start == y * stride,
                bgra_layout_fits(width, height, stride),
                rgb@.len() == (y * w + x) * 3,
                forall|x2: int, y2: int, c: int|
                    0 <= x2 < w && 0 <= y2 < h && 0 <= c < 3 && (y2 < y || (y2 == y && x2 < x))
                        ==> #[trigger] rgb_byte(rgb@, w as int, x2, y2, c) == bgra_channel(
                        bgra@,
                        stride as int,
                        x2,
                        y2,
                        c,
                    ),
            decreases w - x,
        {
            assert(row_start + x * 4 + 2 <= (height - 1) * stride + (width - 1) * 4 + 2)
                by (nonlinear_arith)
                requires
                    row_start == y * stride,
                    y <= height - 1,
                    x <= width - 1,
                    stride >= 0,
            ;
            let px = row_start + x * 4;
            let ghost before = rgb@;
            if px + 2 < bgra.len() {
                rgb.push(bgra[px + 2]);
                rgb.push(bgra[px + 1]);
                rgb.push(bgra[px]);
            } else {
                rgb.push(0);
                rgb.push(0);
                rgb.push(0);
            }
            proof {
                let p = (y * w + x) * 3;
                assert(before.len() == p);
                assert forall|x2: int, y2: int, c: int|
                    0 <= x2 < w && 0 <= y2 < h && 0 <= c < 3 && (y2 < y || (y2 == y && x2 < x
                        + 1)) implies #[trigger] rgb_byte(rgb@, w as int, x2, y2, c)
                    == bgra_channel(bgra@, stride as int, x2, y2, c) by {
                    if y2 == y && x2 == x {
                        assert(rgb_byte(rgb@, w as int, x2, y2, c) == rgb@[p + c]);
                    } else {
                        lemma_index_order(w as int, x2, y2, x as int, y as int);
                        assert((y2 * w + x2) * 3 + c < p);
                        assert(rgb@[(y2 * w + x2) * 3 + c] == before[(y2 * w + x2) * 3 + c]);
                        assert(rgb_byte(before, w as int, x2, y2, c) == bgra_channel(
                            bgra@,
                            stride as int,
                            x2,
                            y2,
                            c,
                        ));
                    }
                }
            }
            x = x + 1;
        }
        assert((y * w + w) * 3 == ((y + 1) * w) * 3) by (nonlinear_arith);
        y = y + 1;
    }
    assert((h * w) * 3 == width * height * 3) by (nonlinear_arith)
        requires
            h == height,
            w == width,
    ;
    rgb
}

/// An RGB8 preview of a BGRA capture.
pub fn preview_from_bgra(bgra: &[u8], width: u32, height: u32, stride: usize, timestamp_us: u64) -> (r:
    PreviewFrame)
    requires
        bgra_layout_fits(width, height, stride),
        width * 3 <= u32::MAX,
    ensures
        r.width == width,
        r.height == height,
        r.stride == width * 3,
        r.timestamp_us == timestamp_us,
        r.data@.len() == width * height * 3,
        forall|x: int, y: int, c: int|
            0 <= x < width && 0 <= y < height && 0 <= c < 3 ==> #[trigger] rgb_byte(
                r.data@,
                width as int,
                x,
                y,
                c,
            ) == bgra_channel(bgra@, stride as int, x, y, c),
{
    let data = bgra_to_rgb8(bgra, width, height, stride);
    PreviewFrame { width, height, stride: width * 3, data, timestamp_us }
}

/// The index of colour byte `k` (0 blue, 1 green, 2 red) of pixel `(x, y)`
/// in a BGRA image with `stride` bytes per row.
pub open spec fn colour_index(stride: int, x: int, y: int, k: int) -> int {
    y * stride + 4 * x + k
}

/// `rgb` is the packed RGB8 conversion of `bgra`, as `bgra_to_rgb8` makes it.
pub open spec fn converted(bgra: Seq<u8>, width: u32, height: u32, stride: usize, rgb: Seq<u8>) -> bool {
    &&& rgb.len() == width * height * 3
    &&& forall|x: int, y: int, c: int|
        0 <= x < width && 0 <= y < height && 0 <= c < 3 ==> #[trigger] rgb_byte(
            rgb,
            width as int,
            x,
            y,
            c,
        ) == bgra_channel(bgra, stride as int, x, y, c)
}

proof fn lemma_rgb_index(w: int, h: int, i: int) -> (xyc: (int, int, int))
    requires
        w > 0,
        h > 0,
        0 <= i < w * h * 3,
    ensures
        0 <= xyc.0 < w,
        0 <= xyc.1 < h,
        0 <= xyc.2 < 3,
        (xyc.1 * w + xyc.0) * 3 + xyc.2 == i,
{
    let c = i % 3;
    let p = i / 3;
    let x = p % w;
    let y = p / w;
    assert(p * 3 + c == i && 0 <= c < 3) by (nonlinear_arith)
        requires
            c == i % 3,
            p == i / 3,
            i >= 0,
    ;
    assert(y * w + x == p && 0 <= x < w && 0 <= y) by (nonlinear_arith)
        requires
            x == p % w,
            y == p / w,
            p >= 0,
            w > 0,
    ;
    assert(y < h) by (nonlinear_arith)
        requires
            y * w + x == p,
            0 <= x,
            p * 3 + c == i,
            0 <= c,
            i < w * h * 3,
            w > 0,
            y >= 0,
    ;
    (x, y, c)
}

/// Converting two BGRA images that differ only in alpha or row-padding
/// bytes gives the same RGB8 image.
pub proof fn lemma_conversion_ignores_alpha_and_padding(
    a: Seq<u8>,
    b: Seq<u8>,
    width: u32,
    height: u32,
    stride: usize,
    rgb_a: Seq<u8>,
    rgb_b: Seq<u8>,
)
    requires
        a.len() == b.len(),
        forall|x: int, y: int, k: int|
            0 <= x < width && 0 <= y < height && 0 <= k < 3 && 0 <= #[trigger] colour_index(
                stride as int,
                x,
                y,
                k,
            ) < a.len() ==> a[colour_index(stride as int, x, y, k)] == b[colour_index(
                stride as int,
                x,
                y,
                k,
            )],
        converted(a, width, height, stride, rgb_a),
        converted(b, width, height, stride, rgb_b),
    ensures
        rgb_a == rgb_b,
{
    assert forall|i: int| 0 <= i < rgb_a.len() implies rgb_a[i] == rgb_b[i] by {
        assert(width > 0 && height > 0) by (nonlinear_arith)
            requires
                0 <= i < width * height * 3,
        ;
        let (x, y, c) = lemma_rgb_index(width as int, height as int, i);
        assert(rgb_byte(rgb_a, width as int, x, y, c) == bgra_channel(a, stride as int, x, y, c));
        assert(rgb_byte(rgb_b, width as int, x, y, c) == bgra_channel(b, stride as int, x, y, c));
        let idx = colour_index(stride as int, x, y, 2 - c);
        assert(y * stride + x * 4 + 2 - c == idx);
    }
    assert(rgb_a =~= rgb_b);
}

} // verus!
