//! Media sessions: the simulated duplex session, the session backed by a
//! capture producer, and the session manager that drives either.
use vstd::prelude::*;
use crate::nezumi::{rgb_byte, MediaPacket, NezumiProducer, PreviewFrame};
use crate::render::{
    advance_square, bounce, lemma_bounce_stays_inside, max_offset, render_scene, AnimatedSquare,
    PixelBuffer, Scene,
};
use crate::sankaku::{
    LossBand, LossSample, SankakuStreamStats, SankakuTelemetry, VideoFrame, VIDEO_CODEC_HEVC,
};
use crate::text::{trim, trim_str};

verus! {

// ---------------------------------------------------------------------------
// Pseudo-random numbers
// ---------------------------------------------------------------------------

pub open spec fn u64_modulus() -> nat {
    0x1_0000_0000_0000_0000
}

/// One step of the generator: `state * 6364136223846793005 + 1` modulo 2^64.
#[verifier::opaque]
pub open spec fn lcg_step(s: u64) -> u64 {
    ((s as nat * 6364136223846793005 + 1) % u64_modulus()) as u64
}

/// The number drawn from a state: its upper 32 bits.
pub open spec fn lcg_out(s: u64) -> u32 {
    (s / 0x1_0000_0000) as u32
}

/// The state after `k` draws.
pub open spec fn lcg_nth(s: u64, k: nat) -> u64
    decreases k,
{
    if k == 0 {
        s
    } else {
        lcg_step(lcg_nth(s, (k - 1) as nat))
    }
}

/// `x` scaled into `[min, max]`.
pub open spec fn scale(x: u32, min: u32, max: u32) -> u32 {
    (min as nat + (x as nat) % ((max - min + 1) as nat)) as u32
}

/// The `k`-th number drawn (counting from 1) scaled into `[min, max]`.
pub open spec fn ranged(s: u64, k: nat, min: u32, max: u32) -> u32 {
    scale(lcg_out(lcg_nth(s, k)), min, max)
}

/// Advances the generator and returns the number drawn.
pub fn next_u32(state: &mut u64) -> (r: u32)
    ensures
        *final(state) == lcg_step(*old(state)),
        r == lcg_out(*final(state)),
{
    let ghost s = *state;
    let m = state.wrapping_mul(6364136223846793005);
    let n = m.wrapping_add(1);
    proof {
        reveal(lcg_step);
        let a = s as nat * 6364136223846793005;
        assert(m == a % u64_modulus());
        assert((a % u64_modulus() + 1) % u64_modulus() == (a + 1) % u64_modulus()) by {
            vstd::arithmetic::div_mod::lemma_add_mod_noop(a as int, 1, u64_modulus() as int);
        }
    }
    *state = n;
    (n / 0x1_0000_0000) as u32
}

/// A number drawn from the generator, in `[min, max]`.
pub fn range_u32(state: &mut u64, min: u32, max: u32) -> (r: u32)
    requires
        min <= max,
        max - min < u32::MAX,
    ensures
        *final(state) == lcg_step(*old(state)),
        r == scale(lcg_out(*final(state)), min, max),
        min <= r <= max,
{
    let x = next_u32(state);
    min + x % (max - min + 1)
}

// ---------------------------------------------------------------------------
// The media provider interface
// ---------------------------------------------------------------------------

pub open spec fn empty_address_message() -> Seq<char> {
    "address cannot be empty"@
}

pub open spec fn disabled_colour_is(b: PixelBuffer) -> bool {
    b.is_filled(18, 18, 24)
}

/// `r` holds a copy of the image `b`: its size and its pixel bytes.
pub open spec fn shows(r: Option<PixelBuffer>, b: PixelBuffer) -> bool {
    r matches Some(x) && x.width == b.width && x.height == b.height && x.data@ == b.data@
}

/// A duplex media session: connects to a peer, produces local frames and
/// previews, and reports telemetry.
pub trait MediaProvider: Sized {
    /// The session's own invariant.
    spec fn inv(&self) -> bool;

    /// A poll for the remote frame can draw it without overflow.
    spec fn poll_budget(&self) -> bool;

    /// A capture with video on can take its frame without overflow.
    spec fn capture_budget(&self) -> bool;

    spec fn connected_to(&self) -> Option<Seq<char>>;

    spec fn receiver_port(&self) -> u16;

    spec fn telemetry_now(&self) -> SankakuTelemetry;

    spec fn video_on(&self) -> bool;

    spec fn audio_off(&self) -> bool;

    /// The remote image that the session shows.
    spec fn remote_image(&self) -> PixelBuffer;

    /// The local preview image that the session shows.
    spec fn preview_image(&self) -> PixelBuffer;

    /// How a poll for the remote frame takes the session from `self` to
    /// `after`.
    spec fn poll_step(&self, after: Self) -> bool;

    /// How a poll for the local preview takes the session from `self` to
    /// `after`.
    spec fn preview_step(&self, after: Self) -> bool;

    /// How a capture at `timestamp_us` that returned `r` takes the session
    /// from `self` to `after`.
    spec fn capture_step(&self, after: Self, timestamp_us: u64, r: Option<VideoFrame>) -> bool;

    /// How sending `frame` takes the session from `self` to `after`.
    spec fn send_step(&self, after: Self, frame: VideoFrame) -> bool;

    /// Whether `poll_budget` holds.
    fn has_poll_budget(&self) -> (r: bool)
        requires
            self.inv(),
        ensures
            r == self.poll_budget(),
    ;

    /// Whether `capture_budget` holds.
    fn has_capture_budget(&self) -> (r: bool)
        requires
            self.inv(),
        ensures
            r == self.capture_budget(),
    ;

    /// Connects to the trimmed `addr`; an address that is empty once trimmed
    /// is refused and changes nothing.
    fn connect(&mut self, addr: &str) -> (r: Result<(), String>)
        requires
            old(self).inv(),
        ensures
            final(self).inv(),
            trim(addr@).len() == 0 ==> (r matches Err(e) && e@ == empty_address_message()
                && *final(self) == *old(self)),
            trim(addr@).len() > 0 ==> {
                &&& r is Ok
                &&& final(self).connected_to() == Some(trim(addr@))
                &&& final(self).receiver_port() == old(self).receiver_port()
                &&& final(self).video_on() == old(self).video_on()
                &&& final(self).audio_off() == old(self).audio_off()
                &&& final(self).poll_budget() == old(self).poll_budget()
                &&& final(self).capture_budget() == old(self).capture_budget()
            },
    ;

    fn local_receiver_port(&self) -> (r: u16)
        ensures
            r == self.receiver_port(),
    ;

    /// The latest remote frame: a copy of the remote image after the poll.
    fn poll_frame(&mut self) -> (r: Option<PixelBuffer>)
        requires
            old(self).inv(),
            old(self).poll_budget(),
        ensures
            final(self).inv(),
            old(self).poll_step(*final(self)),
            final(self).connected_to() == old(self).connected_to(),
            final(self).receiver_port() == old(self).receiver_port(),
            final(self).video_on() == old(self).video_on(),
            final(self).audio_off() == old(self).audio_off(),
            final(self).capture_budget() == old(self).capture_budget(),
            shows(r, final(self).remote_image()),
            r matches Some(b) ==> b.wf(),
    ;

    /// The latest local preview: a copy of the preview image after the poll.
    fn poll_local_preview(&mut self) -> (r: Option<PixelBuffer>)
        requires
            old(self).inv(),
        ensures
            final(self).inv(),
            old(self).preview_step(*final(self)),
            shows(r, final(self).preview_image()),
            final(self).connected_to() == old(self).connected_to(),
            final(self).receiver_port() == old(self).receiver_port(),
            final(self).video_on() == old(self).video_on(),
            final(self).audio_off() == old(self).audio_off(),
            final(self).telemetry_now() == old(self).telemetry_now(),
            final(self).poll_budget() == old(self).poll_budget(),
            final(self).capture_budget() == old(self).capture_budget(),
            r matches Some(b) ==> b.wf(),
    ;

    /// Captures a local frame taken at `timestamp_us`; with video stopped
    /// there is none, and the transmit statistics are zero.
    fn capture_local_frame(&mut self, timestamp_us: u64) -> (r: Option<VideoFrame>)
        requires
            old(self).inv(),
            old(self).video_on() ==> old(self).capture_budget(),
        ensures
            final(self).inv(),
            old(self).capture_step(*final(self), timestamp_us, r),
            final(self).connected_to() == old(self).connected_to(),
            final(self).receiver_port() == old(self).receiver_port(),
            final(self).video_on() == old(self).video_on(),
            final(self).audio_off() == old(self).audio_off(),
            final(self).poll_budget() == old(self).poll_budget(),
            !old(self).video_on() ==> {
                &&& r is None
                &&& final(self).telemetry_now().tx_stats == SankakuStreamStats::zero()
                &&& final(self).telemetry_now().udp_tx_dropped == 0
                &&& final(self).telemetry_now().rx_stats == old(self).telemetry_now().rx_stats
                &&& final(self).capture_budget() == old(self).capture_budget()
            },
    ;

    /// Sends a captured frame to the connected peer.
    fn broadcast_frame(&mut self, frame: VideoFrame)
        requires
            old(self).inv(),
        ensures
            final(self).inv(),
            old(self).send_step(*final(self), frame),
            final(self).connected_to() == old(self).connected_to(),
            final(self).receiver_port() == old(self).receiver_port(),
            final(self).video_on() == old(self).video_on(),
            final(self).audio_off() == old(self).audio_off(),
            final(self).poll_budget() == old(self).poll_budget(),
            final(self).capture_budget() == old(self).capture_budget(),
    ;

    fn get_telemetry(&self) -> (r: SankakuTelemetry)
        ensures
            r == self.telemetry_now(),
    ;

    fn set_audio_muted(&mut self, muted: bool)
        requires
            old(self).inv(),
        ensures
            final(self).inv(),
            final(self).audio_off() == muted,
            final(self).connected_to() == old(self).connected_to(),
            final(self).receiver_port() == old(self).receiver_port(),
            final(self).video_on() == old(self).video_on(),
            final(self).telemetry_now() == old(self).telemetry_now(),
            final(self).poll_budget() == old(self).poll_budget(),
            final(self).capture_budget() == old(self).capture_budget(),
    ;

    fn set_video_enabled(&mut self, enabled: bool)
        requires
            old(self).inv(),
        ensures
            final(self).inv(),
            final(self).video_on() == enabled,
            final(self).connected_to() == old(self).connected_to(),
            final(self).receiver_port() == old(self).receiver_port(),
            final(self).audio_off() == old(self).audio_off(),
            final(self).telemetry_now() == old(self).telemetry_now(),
            final(self).poll_budget() == old(self).poll_budget(),
            final(self).capture_budget() == old(self).capture_budget(),
    ;
}

fn copy_buffer(b: &PixelBuffer) -> (r: PixelBuffer)
    ensures
        r.width == b.width,
        r.height == b.height,
        r.data@ == b.data@,
{
    let data = b.data.clone();
    assert(data@ =~= b.data@);
    PixelBuffer { width: b.width, height: b.height, data }
}

fn opt_string_clone(s: &String) -> (r: String)
    ensures
        r@ == s@,
{
    s.clone()
}

// ---------------------------------------------------------------------------
// The simulated session
// ---------------------------------------------------------------------------

/// The mixing step over the UTF-8 bytes of the connected address.
pub open spec fn address_hash(bytes: Seq<u8>) -> u64
    decreases bytes.len(),
{
    if bytes.len() == 0 {
        0
    } else {
        (((address_hash(bytes.drop_last()) as nat * 16777619) % u64_modulus()) as u64) ^ (
        bytes.last() as u64)
    }
}

fn hash_bytes(bytes: &[u8]) -> (h: u64)
    ensures
        h == address_hash(bytes@),
{
    let mut h: u64 = 0;
    let mut i: usize = 0;
    while i < bytes.len()
        invariant
            i <= bytes@.len(),
            h == address_hash(bytes@.take(i as int)),
        decreases bytes@.len() - i,
    {
        assert(bytes@.take(i + 1).drop_last() =~= bytes@.take(i as int));
        h = h.wrapping_mul(16777619) ^ (bytes[i] as u64);
        i = i + 1;
    }
    assert(bytes@.take(i as int) =~= bytes@);
    h
}

pub const LOCAL_WIDTH: u32 = 320;

pub const LOCAL_HEIGHT: u32 = 180;

pub const REMOTE_WIDTH: u32 = 1280;

pub const REMOTE_HEIGHT: u32 = 720;

/// A session that draws animated test frames and simulates transport
/// statistics with a pseudo-random generator.
pub struct MockDuplexSession {
    pub connected_addr: Option<String>,
    pub audio_muted: bool,
    pub video_enabled: bool,
    pub receiver_port: u16,
    pub local_frame_buffer: PixelBuffer,
    pub remote_frame_buffer: PixelBuffer,
    pub local_square: AnimatedSquare,
    pub remote_square: AnimatedSquare,
    pub local_phase: u32,
    pub remote_phase: u32,
    pub telemetry: SankakuTelemetry,
    pub rng_state: u64,
}

/// A square of `size` inside a `w` x `h` frame, moving at most 100 pixels a
/// step.
pub open spec fn square_ok(sq: AnimatedSquare, w: u32, h: u32, size: u32) -> bool {
    &&& sq.size == size
    &&& 0 <= sq.x <= max_offset(w, size)
    &&& 0 <= sq.y <= max_offset(h, size)
    &&& -100 <= sq.vx <= 100
    &&& -100 <= sq.vy <= 100
}

impl MockDuplexSession {
    pub open spec fn wf(&self) -> bool {
        &&& self.local_frame_buffer.wf()
        &&& self.local_frame_buffer.width == LOCAL_WIDTH
        &&& self.local_frame_buffer.height == LOCAL_HEIGHT
        &&& self.remote_frame_buffer.wf()
        &&& self.remote_frame_buffer.width == REMOTE_WIDTH
        &&& self.remote_frame_buffer.height == REMOTE_HEIGHT
        &&& square_ok(self.local_square, LOCAL_WIDTH, LOCAL_HEIGHT, 54)
        &&& square_ok(self.remote_square, REMOTE_WIDTH, REMOTE_HEIGHT, 108)
    }

    /// The local frame can be drawn once more: its scan arithmetic,
    /// `x + phase` for every column `x`, stays within `u32`.
    pub open spec fn local_budget(&self) -> bool {
        self.local_phase + (LOCAL_WIDTH - 1) <= u32::MAX
    }

    /// The remote frame can be drawn once more: its band arithmetic,
    /// `x / 6 + phase` for every column `x`, stays within `u32`.
    pub open spec fn remote_budget(&self) -> bool {
        (REMOTE_WIDTH - 1) / 6 + self.remote_phase <= u32::MAX
    }

    /// `after` holds the next local frame drawn from `self`: the square
    /// advances one step, the frame shows it at the current counter, and the
    /// counter advances.
    pub open spec fn local_drawn(self, after: Self) -> bool {
        &&& after.local_phase == self.local_phase + 1
        &&& after.local_square.size == self.local_square.size
        &&& (after.local_square.x as int, after.local_square.vx as int) == bounce(
            self.local_square.x as int,
            self.local_square.vx as int,
            max_offset(LOCAL_WIDTH, 54),
        )
        &&& (after.local_square.y as int, after.local_square.vy as int) == bounce(
            self.local_square.y as int,
            self.local_square.vy as int,
            max_offset(LOCAL_HEIGHT, 54),
        )
        &&& forall|x: int, y: int, c: int|
            0 <= x < LOCAL_WIDTH && 0 <= y < LOCAL_HEIGHT && 0 <= c < 3 ==> #[trigger] rgb_byte(
                after.local_frame_buffer.data@,
                LOCAL_WIDTH as int,
                x,
                y,
                c,
            ) == MockDuplexSession::local_scene(
                after.local_square,
                self.local_phase,
                self.audio_muted,
            ).channel(LOCAL_WIDTH as int, LOCAL_HEIGHT as int, x, y, c)
    }

    /// `after` holds the next remote frame drawn from `self`, in the same
    /// way.
    pub open spec fn remote_drawn(self, after: Self) -> bool {
        &&& after.remote_phase == self.remote_phase + 1
        &&& after.remote_square.size == self.remote_square.size
        &&& (after.remote_square.x as int, after.remote_square.vx as int) == bounce(
            self.remote_square.x as int,
            self.remote_square.vx as int,
            max_offset(REMOTE_WIDTH, 108),
        )
        &&& (after.remote_square.y as int, after.remote_square.vy as int) == bounce(
            self.remote_square.y as int,
            self.remote_square.vy as int,
            max_offset(REMOTE_HEIGHT, 108),
        )
        &&& forall|x: int, y: int, c: int|
            0 <= x < REMOTE_WIDTH && 0 <= y < REMOTE_HEIGHT && 0 <= c < 3 ==> #[trigger] rgb_byte(
                after.remote_frame_buffer.data@,
                REMOTE_WIDTH as int,
                x,
                y,
                c,
            ) == MockDuplexSession::remote_scene(
                after.remote_square,
                self.remote_phase,
                self.connected_addr is Some,
            ).channel(REMOTE_WIDTH as int, REMOTE_HEIGHT as int, x, y, c)
    }

    pub open spec fn connected_view(&self) -> Option<Seq<char>> {
        match self.connected_addr {
            Some(s) => Some(s@),
            None => None,
        }
    }

    /// The local scene for a square and counter.
    pub open spec fn local_scene(sq: AnimatedSquare, phase: u32, muted: bool) -> Scene {
        Scene::Local { square: sq, phase, muted }
    }

    /// The remote scene for a square and counter.
    pub open spec fn remote_scene(sq: AnimatedSquare, phase: u32, connected: bool) -> Scene {
        Scene::Remote { square: sq, phase, connected }
    }

    /// Draws the next local frame: the square advances one step, the frame
    /// shows it at the current counter, and the counter advances.
    fn render_local_frame(&mut self)
        requires
            old(self).wf(),
            old(self).local_budget(),
        ensures
            final(self).wf(),
            old(self).local_drawn(*final(self)),
            final(self).remote_phase == old(self).remote_phase,
            final(self).remote_frame_buffer == old(self).remote_frame_buffer,
            final(self).remote_square == old(self).remote_square,
            final(self).connected_addr == old(self).connected_addr,
            final(self).audio_muted == old(self).audio_muted,
            final(self).video_enabled == old(self).video_enabled,
            final(self).receiver_port == old(self).receiver_port,
            final(self).telemetry == old(self).telemetry,
            final(self).rng_state == old(self).rng_state,
    {
        let width = self.local_frame_buffer.width;
        let height = self.local_frame_buffer.height;
        let ghost sq0 = self.local_square;
        advance_square(&mut self.local_square, width, height);
        proof {
            lemma_bounce_stays_inside(sq0.x as int, sq0.vx as int, max_offset(width, 54));
            lemma_bounce_stays_inside(sq0.y as int, sq0.vy as int, max_offset(height, 54));
        }
        let scene = Scene::Local {
            square: self.local_square,
            phase: self.local_phase,
            muted: self.audio_muted,
        };
        self.local_frame_buffer.data = render_scene(&scene, width, height);
        self.local_phase = self.local_phase.wrapping_add(1);
    }

    /// Draws the next remote frame, in the same way.
    fn render_remote_frame(&mut self)
        requires
            old(self).wf(),
            old(self).remote_budget(),
        ensures
            final(self).wf(),
            old(self).remote_drawn(*final(self)),
            final(self).local_phase == old(self).local_phase,
            final(self).local_frame_buffer == old(self).local_frame_buffer,
            final(self).local_square == old(self).local_square,
            final(self).connected_addr == old(self).connected_addr,
            final(self).audio_muted == old(self).audio_muted,
            final(self).video_enabled == old(self).video_enabled,
            final(self).receiver_port == old(self).receiver_port,
            final(self).telemetry == old(self).telemetry,
            final(self).rng_state == old(self).rng_state,
    {
        let width = self.remote_frame_buffer.width;
        let height = self.remote_frame_buffer.height;
        let ghost sq0 = self.remote_square;
        advance_square(&mut self.remote_square, width, height);
        proof {
            lemma_bounce_stays_inside(sq0.x as int, sq0.vx as int, max_offset(width, 108));
            lemma_bounce_stays_inside(sq0.y as int, sq0.vy as int, max_offset(height, 108));
        }
        let connected = self.connected_addr.is_some();
        let scene = Scene::Remote {
            square: self.remote_square,
            phase: self.remote_phase,
            connected,
        };
        self.remote_frame_buffer.data = render_scene(&scene, width, height);
        self.remote_phase = self.remote_phase.wrapping_add(1);
    }

    /// Fills the local frame with the stopped-video colour.
    fn render_local_disabled_frame(&mut self)
        requires
            old(self).wf(),
        ensures
            final(self).wf(),
            disabled_colour_is(final(self).local_frame_buffer),
            final(self).local_phase == old(self).local_phase,
            final(self).remote_phase == old(self).remote_phase,
            final(self).remote_frame_buffer == old(self).remote_frame_buffer,
            final(self).local_square == old(self).local_square,
            final(self).remote_square == old(self).remote_square,
            final(self).connected_addr == old(self).connected_addr,
            final(self).audio_muted == old(self).audio_muted,
            final(self).video_enabled == old(self).video_enabled,
            final(self).receiver_port == old(self).receiver_port,
            final(self).telemetry == old(self).telemetry,
            final(self).rng_state == old(self).rng_state,
    {
        self.local_frame_buffer.fill(18, 18, 24);
    }

    /// A new session listening on `receiver_port`, with both frames drawn
    /// once.
    pub fn new(receiver_port: u16) -> (r: MockDuplexSession)
        ensures
            r.wf(),
            r.connected_addr is None,
            !r.audio_muted,
            r.video_enabled,
            r.receiver_port == receiver_port,
            r.local_phase == 1,
            r.remote_phase == 1,
            r.telemetry == SankakuTelemetry::zero(),
            r.rng_state == 0x5A17_2D3C_4B91_08EF,
            r.local_square == (AnimatedSquare { x: 22, y: 17, vx: 4, vy: 3, size: 54 }),
            r.remote_square == (AnimatedSquare { x: 103, y: 77, vx: 7, vy: 5, size: 108 }),
            forall|x: int, y: int, c: int|
                0 <= x < LOCAL_WIDTH && 0 <= y < LOCAL_HEIGHT && 0 <= c < 3 ==> #[trigger] rgb_byte(
                    r.local_frame_buffer.data@,
                    LOCAL_WIDTH as int,
                    x,
                    y,
                    c,
                ) == MockDuplexSession::local_scene(r.local_square, 0, false).channel(
                    LOCAL_WIDTH as int,
                    LOCAL_HEIGHT as int,
                    x,
                    y,
                    c,
                ),
            forall|x: int, y: int, c: int|
                0 <= x < REMOTE_WIDTH && 0 <= y < REMOTE_HEIGHT && 0 <= c < 3 ==> #[trigger] rgb_byte(
                    r.remote_frame_buffer.data@,
                    REMOTE_WIDTH as int,
                    x,
                    y,
                    c,
                ) == MockDuplexSession::remote_scene(r.remote_square, 0, false).channel(
                    REMOTE_WIDTH as int,
                    REMOTE_HEIGHT as int,
                    x,
                    y,
                    c,
                ),
    {
        let mut session = MockDuplexSession {
            connected_addr: None,
            audio_muted: false,
            video_enabled: true,
            receiver_port,
            local_frame_buffer: PixelBuffer::new(LOCAL_WIDTH, LOCAL_HEIGHT),
            remote_frame_buffer: PixelBuffer::new(REMOTE_WIDTH, REMOTE_HEIGHT),
            local_square: AnimatedSquare { x: 18, y: 14, vx: 4, vy: 3, size: 54 },
            remote_square: AnimatedSquare { x: 96, y: 72, vx: 7, vy: 5, size: 108 },
            local_phase: 0,
            remote_phase: 0,
            telemetry: SankakuTelemetry::default(),
            rng_state: 0x5A17_2D3C_4B91_08EF,
        };
        session.render_local_frame();
        session.render_remote_frame();
        session
    }

    /// Receive statistics drawn from `s` for a frame of the given size: the
    /// bitrate, loss, jitter and latency are the next four draws.
    pub open spec fn simulated_rx(s: u64, width: u32, height: u32) -> SankakuStreamStats {
        SankakuStreamStats {
            bitrate_bps: ranged(s, 1, 1_350_000, 2_250_000),
            packet_loss_ratio: LossSample::Draw {
                draw: lcg_out(lcg_nth(s, 2)),
                band: LossBand::Receive,
            },
            jitter_us: ranged(s, 3, 5_000, 22_000),
            latency_ms: ranged(s, 4, 28, 96),
            width,
            height,
        }
    }

    /// Transmit statistics drawn from `s` for a frame of the given size.
    pub open spec fn simulated_tx(s: u64, width: u32, height: u32) -> SankakuStreamStats {
        SankakuStreamStats {
            bitrate_bps: ranged(s, 1, 1_550_000, 2_550_000),
            packet_loss_ratio: LossSample::Draw {
                draw: lcg_out(lcg_nth(s, 2)),
                band: LossBand::Transmit,
            },
            jitter_us: ranged(s, 3, 2_000, 8_000),
            latency_ms: 0,
            width,
            height,
        }
    }

    /// How a poll for the remote frame changes the session: the next remote
    /// frame is drawn; while connected the receive statistics and the path
    /// round-trip time are drawn from the generator, otherwise they are zero.
    pub open spec fn frame_polled(self, after: Self) -> bool {
        &&& self.remote_drawn(after)
        &&& after.local_frame_buffer == self.local_frame_buffer
        &&& after.local_square == self.local_square
        &&& after.local_phase == self.local_phase
        &&& after.connected_addr == self.connected_addr
        &&& after.audio_muted == self.audio_muted
        &&& after.video_enabled == self.video_enabled
        &&& after.receiver_port == self.receiver_port
        &&& after.telemetry.tx_stats == self.telemetry.tx_stats
        &&& after.telemetry.udp_tx_dropped == self.telemetry.udp_tx_dropped
        &&& self.connected_addr is Some ==> {
            &&& after.telemetry.rx_stats == MockDuplexSession::simulated_rx(
                self.rng_state,
                REMOTE_WIDTH,
                REMOTE_HEIGHT,
            )
            &&& after.telemetry.path_rtt_ms == ranged(self.rng_state, 5, 24, 78)
            &&& after.rng_state == lcg_nth(self.rng_state, 5)
        }
        &&& self.connected_addr is None ==> {
            &&& after.telemetry.rx_stats == SankakuStreamStats::zero()
            &&& after.telemetry.path_rtt_ms == 0
            &&& after.rng_state == self.rng_state
        }
    }

    /// How a capture at `timestamp_us` that returned `r` changes the session:
    /// with video on, the next local frame is drawn and returned as an HEVC
    /// frame of its pixels, a keyframe every 45th frame; with video off the
    /// local frame is filled with the stopped-video colour, nothing is
    /// returned and the transmit statistics are zero.
    pub open spec fn frame_captured(
        self,
        after: Self,
        timestamp_us: u64,
        r: Option<VideoFrame>,
    ) -> bool {
        &&& after.remote_frame_buffer == self.remote_frame_buffer
        &&& after.remote_square == self.remote_square
        &&& after.remote_phase == self.remote_phase
        &&& after.connected_addr == self.connected_addr
        &&& after.audio_muted == self.audio_muted
        &&& after.video_enabled == self.video_enabled
        &&& after.receiver_port == self.receiver_port
        &&& after.rng_state == self.rng_state
        &&& self.video_enabled ==> {
            &&& self.local_drawn(after)
            &&& after.telemetry == self.telemetry
            &&& r matches Some(f) && {
                &&& f.payload@ == after.local_frame_buffer.data@
                &&& f.timestamp_us == timestamp_us
                &&& f.keyframe == (after.local_phase % 45 == 0)
                &&& f.codec == VIDEO_CODEC_HEVC
                &&& f.width == LOCAL_WIDTH
                &&& f.height == LOCAL_HEIGHT
            }
        }
        &&& !self.video_enabled ==> {
            &&& r is None
            &&& disabled_colour_is(after.local_frame_buffer)
            &&& after.local_square == self.local_square
            &&& after.local_phase == self.local_phase
            &&& after.telemetry == (SankakuTelemetry {
                tx_stats: SankakuStreamStats::zero(),
                udp_tx_dropped: 0,
                ..self.telemetry
            })
        }
    }

    /// How sending `frame` changes the session: while connected, an HEVC
    /// frame sets the transmit statistics from the generator and may count
    /// up to two dropped packets; otherwise the transmit statistics are zero.
    /// Nothing else changes but the generator state.
    pub open spec fn frame_broadcast(self, after: Self, frame: VideoFrame) -> bool {
        &&& self.connected_addr is Some && frame.codec == VIDEO_CODEC_HEVC ==> {
            &&& after.telemetry.tx_stats == MockDuplexSession::simulated_tx(
                self.rng_state,
                frame.width,
                frame.height,
            )
            &&& after.telemetry.udp_tx_dropped == self.telemetry.udp_tx_dropped.saturating_add(
                ranged(self.rng_state, 4, 0, 2) as u64,
            )
            &&& after.rng_state == lcg_nth(self.rng_state, 4)
        }
        &&& !(self.connected_addr is Some && frame.codec == VIDEO_CODEC_HEVC) ==> {
            &&& after.telemetry.tx_stats == SankakuStreamStats::zero()
            &&& after.telemetry.udp_tx_dropped == 0
            &&& after.rng_state == self.rng_state
        }
        &&& after.telemetry.rx_stats == self.telemetry.rx_stats
        &&& after.telemetry.path_rtt_ms == self.telemetry.path_rtt_ms
        &&& after.local_frame_buffer == self.local_frame_buffer
        &&& after.remote_frame_buffer == self.remote_frame_buffer
        &&& after.local_phase == self.local_phase
        &&& after.remote_phase == self.remote_phase
        &&& after.connected_addr == self.connected_addr
        &&& after.video_enabled == self.video_enabled
        &&& after.audio_muted == self.audio_muted
        &&& after.receiver_port == self.receiver_port
        &&& after.local_square == self.local_square
        &&& after.remote_square == self.remote_square
    }
}

impl MediaProvider for MockDuplexSession {
    open spec fn inv(&self) -> bool {
        self.wf()
    }

    open spec fn poll_budget(&self) -> bool {
        self.remote_budget()
    }

    open spec fn capture_budget(&self) -> bool {
        self.local_budget()
    }

    open spec fn connected_to(&self) -> Option<Seq<char>> {
        self.connected_view()
    }

    open spec fn receiver_port(&self) -> u16 {
        self.receiver_port
    }

    open spec fn telemetry_now(&self) -> SankakuTelemetry {
        self.telemetry
    }

    open spec fn video_on(&self) -> bool {
        self.video_enabled
    }

    open spec fn audio_off(&self) -> bool {
        self.audio_muted
    }

    open spec fn remote_image(&self) -> PixelBuffer {
        self.remote_frame_buffer
    }

    open spec fn preview_image(&self) -> PixelBuffer {
        self.local_frame_buffer
    }

    open spec fn poll_step(&self, after: Self) -> bool {
        self.frame_polled(after)
    }

    /// The preview is the current local frame; nothing changes.
    open spec fn preview_step(&self, after: Self) -> bool {
        after == *self
    }

    open spec fn capture_step(&self, after: Self, timestamp_us: u64, r: Option<VideoFrame>) -> bool {
        self.frame_captured(after, timestamp_us, r)
    }

    open spec fn send_step(&self, after: Self, frame: VideoFrame) -> bool {
        self.frame_broadcast(after, frame)
    }

    fn has_poll_budget(&self) -> (r: bool) {
        self.remote_phase <= u32::MAX - (REMOTE_WIDTH - 1) / 6
    }

    fn has_capture_budget(&self) -> (r: bool) {
        self.local_phase <= u32::MAX - (LOCAL_WIDTH - 1)
    }

    /// Besides what every session does, the generator state is mixed with a
    /// hash of the trimmed address.
    fn connect(&mut self, addr: &str) -> (r: Result<(), String>)
        ensures
            trim(addr@).len() > 0 ==> {
                &&& final(self).rng_state == old(self).rng_state ^ address_hash(
                    crate::text::utf8_of(trim(addr@)),
                )
                &&& final(self).local_frame_buffer == old(self).local_frame_buffer
                &&& final(self).remote_frame_buffer == old(self).remote_frame_buffer
                &&& final(self).telemetry == old(self).telemetry
                &&& final(self).local_phase == old(self).local_phase
                &&& final(self).remote_phase == old(self).remote_phase
                &&& final(self).local_square == old(self).local_square
                &&& final(self).remote_square == old(self).remote_square
            },
    {
        let trimmed = trim_str(addr);
        if trimmed.as_str().is_empty() {
            let m = "address cannot be empty";
            return Err(m.to_owned());
        }
        let h = hash_bytes(trimmed.as_str().as_bytes());
        self.connected_addr = Some(trimmed);
        self.rng_state = self.rng_state ^ h;
        Ok(())
    }

    fn local_receiver_port(&self) -> (r: u16) {
        self.receiver_port
    }

    /// Draws the next remote frame. While connected the receive statistics
    /// and the path round-trip time are drawn from the generator; otherwise
    /// they are zero.
    fn poll_frame(&mut self) -> (r: Option<PixelBuffer>) {
        self.render_remote_frame();
        let ghost s = self.rng_state;
        if self.connected_addr.is_some() {
            let bitrate = range_u32(&mut self.rng_state, 1_350_000, 2_250_000);
            assert(lcg_nth(s, 0) == s);
            assert(self.rng_state == lcg_nth(s, 1));
            let loss = next_u32(&mut self.rng_state);
            assert(self.rng_state == lcg_nth(s, 2));
            let jitter = range_u32(&mut self.rng_state, 5_000, 22_000);
            assert(self.rng_state == lcg_nth(s, 3));
            let latency = range_u32(&mut self.rng_state, 28, 96);
            assert(self.rng_state == lcg_nth(s, 4));
            let rtt = range_u32(&mut self.rng_state, 24, 78);
            assert(self.rng_state == lcg_nth(s, 5));
            self.telemetry.rx_stats = SankakuStreamStats {
                bitrate_bps: bitrate,
                packet_loss_ratio: LossSample::Draw { draw: loss, band: LossBand::Receive },
                jitter_us: jitter,
                latency_ms: latency,
                width: self.remote_frame_buffer.width,
                height: self.remote_frame_buffer.height,
            };
            self.telemetry.path_rtt_ms = rtt as u64;
        } else {
            self.telemetry.rx_stats = SankakuStreamStats::default();
            self.telemetry.path_rtt_ms = 0;
        }
        Some(copy_buffer(&self.remote_frame_buffer))
    }

    /// The current local frame.
    fn poll_local_preview(&mut self) -> (r: Option<PixelBuffer>) {
        Some(copy_buffer(&self.local_frame_buffer))
    }

    /// Draws the next local frame and returns its pixels as an HEVC frame;
    /// every 45th frame is a keyframe.
    fn capture_local_frame(&mut self, timestamp_us: u64) -> (r: Option<VideoFrame>) {
        if !self.video_enabled {
            self.telemetry.tx_stats = SankakuStreamStats::default();
            self.telemetry.udp_tx_dropped = 0;
            self.render_local_disabled_frame();
            return None;
        }
        self.render_local_frame();
        let payload = self.local_frame_buffer.data.clone();
        assert(payload@ =~= self.local_frame_buffer.data@);
        let frame = VideoFrame::nal_with_codec(
            payload,
            timestamp_us,
            self.local_phase % 45 == 0,
            VIDEO_CODEC_HEVC,
        ).with_dimensions(self.local_frame_buffer.width, self.local_frame_buffer.height);
        Some(frame)
    }

    /// While connected, an HEVC frame updates the transmit statistics from
    /// the generator and may count up to two dropped packets; otherwise the
    /// transmit statistics are zero.
    /// The dropped-packet count only grows while frames are sent.
    fn broadcast_frame(&mut self, frame: VideoFrame)
        ensures
            old(self).connected_addr is Some && frame.codec == VIDEO_CODEC_HEVC
                ==> final(self).telemetry.udp_tx_dropped >= old(self).telemetry.udp_tx_dropped,
    {
        if self.connected_addr.is_some() && frame.codec == VIDEO_CODEC_HEVC {
            let ghost s = self.rng_state;
            let bitrate = range_u32(&mut self.rng_state, 1_550_000, 2_550_000);
            assert(lcg_nth(s, 0) == s);
            assert(self.rng_state == lcg_nth(s, 1));
            let loss = next_u32(&mut self.rng_state);
            assert(self.rng_state == lcg_nth(s, 2));
            let jitter = range_u32(&mut self.rng_state, 2_000, 8_000);
            assert(self.rng_state == lcg_nth(s, 3));
            self.telemetry.tx_stats = SankakuStreamStats {
                bitrate_bps: bitrate,
                packet_loss_ratio: LossSample::Draw { draw: loss, band: LossBand::Transmit },
                jitter_us: jitter,
                latency_ms: 0,
                width: frame.width,
                height: frame.height,
            };
            let dropped = range_u32(&mut self.rng_state, 0, 2);
            assert(self.rng_state == lcg_nth(s, 4));
            self.telemetry.udp_tx_dropped = self.telemetry.udp_tx_dropped.saturating_add(
                dropped as u64,
            );
        } else {
            self.telemetry.tx_stats = SankakuStreamStats::default();
            self.telemetry.udp_tx_dropped = 0;
        }
    }

    fn get_telemetry(&self) -> (r: SankakuTelemetry) {
        self.telemetry
    }

    fn set_audio_muted(&mut self, muted: bool)
        ensures
            *final(self) == (MockDuplexSession { audio_muted: muted, ..*old(self) }),
    {
        self.audio_muted = muted;
    }

    /// Stopping video fills the local frame with the stopped-video colour.
    fn set_video_enabled(&mut self, enabled: bool)
        ensures
            !enabled ==> disabled_colour_is(final(self).local_frame_buffer),
            enabled ==> final(self).local_frame_buffer == old(self).local_frame_buffer,
            final(self).rng_state == old(self).rng_state,
            final(self).local_phase == old(self).local_phase,
    {
        self.video_enabled = enabled;
        if !enabled {
            self.render_local_disabled_frame();
        }
    }
}


// ---------------------------------------------------------------------------
// The session backed by a capture producer
// ---------------------------------------------------------------------------

/// A session whose local frames come from a capture producer.
pub struct RealDuplexSession<P> {
    pub producer: P,
    pub connected_addr: Option<String>,
    pub audio_muted: bool,
    pub video_enabled: bool,
    pub receiver_port: u16,
    pub local_preview_buffer: PixelBuffer,
    pub remote_frame_buffer: PixelBuffer,
    pub telemetry: SankakuTelemetry,
    pub capture_width: u32,
    pub capture_height: u32,
    pub frames_sent: u64,
}

/// A preview frame is shown when its RGB8 size `width * height * 3` fits in
/// `u32` and its data holds that many bytes.
pub open spec fn preview_accepted(f: PreviewFrame) -> bool {
    &&& f.width * f.height * 3 <= u32::MAX
    &&& f.data@.len() >= f.width * f.height * 3
}

/// The bitrate reported for a packet of `len` bytes at 30 frames per second:
/// `len * 8 * 30` in wrapping `u32` arithmetic.
pub open spec fn packet_bitrate(len: nat) -> u32 {
    ((((len % 0x1_0000_0000) * 8) % 0x1_0000_0000) * 30 % 0x1_0000_0000) as u32
}

impl<P: NezumiProducer> RealDuplexSession<P> {
    pub open spec fn wf(&self) -> bool {
        &&& self.local_preview_buffer.wf()
        &&& self.remote_frame_buffer.wf()
        &&& self.remote_frame_buffer.width == REMOTE_WIDTH
        &&& self.remote_frame_buffer.height == REMOTE_HEIGHT
    }

    pub open spec fn connected_view(&self) -> Option<Seq<char>> {
        match self.connected_addr {
            Some(s) => Some(s@),
            None => None,
        }
    }

    /// A session capturing `width` x `height` frames from `producer`, with
    /// black preview and remote frames.
    pub fn new(producer: P, width: u32, height: u32, receiver_port: u16) -> (r: Self)
        requires
            width * height * 3 <= usize::MAX,
        ensures
            r.wf(),
            r.connected_addr is None,
            !r.audio_muted,
            r.video_enabled,
            r.receiver_port == receiver_port,
            r.local_preview_buffer.width == width,
            r.local_preview_buffer.height == height,
            r.local_preview_buffer.is_filled(0, 0, 0),
            r.remote_frame_buffer.is_filled(0, 0, 0),
            r.telemetry == SankakuTelemetry::zero(),
            r.capture_width == width,
            r.capture_height == height,
            r.frames_sent == 0,
    {
        RealDuplexSession {
            producer,
            connected_addr: None,
            audio_muted: false,
            video_enabled: true,
            receiver_port,
            local_preview_buffer: PixelBuffer::new(width, height),
            remote_frame_buffer: PixelBuffer::new(REMOTE_WIDTH, REMOTE_HEIGHT),
            telemetry: SankakuTelemetry::default(),
            capture_width: width,
            capture_height: height,
            frames_sent: 0,
        }
    }

    /// Fills the local preview with the stopped-video colour.
    fn render_disabled_preview(&mut self)
        requires
            old(self).wf(),
        ensures
            final(self).wf(),
            disabled_colour_is(final(self).local_preview_buffer),
            final(self).local_preview_buffer.width == old(self).local_preview_buffer.width,
            final(self).local_preview_buffer.height == old(self).local_preview_buffer.height,
            final(self).producer == old(self).producer,
            final(self).connected_addr == old(self).connected_addr,
            final(self).audio_muted == old(self).audio_muted,
            final(self).video_enabled == old(self).video_enabled,
            final(self).receiver_port == old(self).receiver_port,
            final(self).remote_frame_buffer == old(self).remote_frame_buffer,
            final(self).telemetry == old(self).telemetry,
            final(self).capture_width == old(self).capture_width,
            final(self).capture_height == old(self).capture_height,
            final(self).frames_sent == old(self).frames_sent,
    {
        self.local_preview_buffer.fill(18, 18, 24);
    }

    /// Shows a preview frame from the producer: an accepted frame replaces
    /// the local preview (its size and its first `width * height * 3`
    /// bytes); anything else leaves the preview as it was.
    pub fn show_preview_frame(&mut self, frame: Option<PreviewFrame>)
        requires
            old(self).wf(),
        ensures
            final(self).wf(),
            old(self).preview_shown(*final(self), frame),
            final(self).producer == old(self).producer,
    {
        match frame {
            Some(f) => {
                let expected = match f.width.checked_mul(f.height) {
                    Some(p) => p.checked_mul(3),
                    None => None,
                };
                match expected {
                    Some(n) => {
                        assert(f.width * f.height * 3 == n);
                        if f.data.len() >= n as usize {
                            let mut data = f.data;
                            data.truncate(n as usize);
                            self.local_preview_buffer = PixelBuffer {
                                width: f.width,
                                height: f.height,
                                data,
                            };
                        }
                    },
                    None => {
                        proof {
                            if f.width * f.height <= u32::MAX {
                                assert(f.width * f.height * 3 > u32::MAX);
                            } else {
                                assert(f.width * f.height * 3 > u32::MAX) by (nonlinear_arith)
                                    requires
                                        f.width * f.height > u32::MAX,
                                ;
                            }
                        }
                    },
                }
            },
            None => {},
        }
    }

    /// Turns a packet from the producer into a frame to send: counts it,
    /// reports its bitrate and size as the transmit statistics, and keeps
    /// its data, time and keyframe flag, marked as HEVC. Without a packet
    /// nothing changes.
    pub fn frame_from_packet(&mut self, packet: Option<MediaPacket>) -> (r: Option<VideoFrame>)
        requires
            old(self).wf(),
            old(self).frames_sent < u64::MAX,
        ensures
            final(self).wf(),
            old(self).packet_taken(*final(self), packet, r),
            final(self).producer == old(self).producer,
            packet matches Some(p) ==> r matches Some(f) && f.keyframe == p.keyframe
                && f.payload@ == p.data@,
    {
        let p = match packet {
            Some(p) => p,
            None => {
                return None;
            },
        };
        self.frames_sent = self.frames_sent + 1;
        let n: usize = p.data.len();
        let len32 = #[verifier::truncate] (n as u32);
        assert(len32 as u64 == (n as u64) % 0x1_0000_0000u64) by (bit_vector)
            requires
                len32 == #[verifier::truncate] (n as u32),
        ;
        let bitrate = len32.wrapping_mul(8).wrapping_mul(30);
        assert(bitrate == packet_bitrate(p.data@.len()));
        self.telemetry.tx_stats = SankakuStreamStats {
            bitrate_bps: bitrate,
            packet_loss_ratio: LossSample::Zero,
            jitter_us: 0,
            latency_ms: 0,
            width: p.width,
            height: p.height,
        };
        let frame = VideoFrame::nal_with_codec(
            p.data,
            p.timestamp_us,
            p.keyframe,
            VIDEO_CODEC_HEVC,
        ).with_dimensions(p.width, p.height);
        Some(frame)
    }
}

impl<P: NezumiProducer> RealDuplexSession<P> {
    /// How showing the producer's preview `frame` changes the session (the
    /// producer aside): an accepted frame replaces the local preview (its
    /// size and its first `width * height * 3` bytes); anything else leaves
    /// the preview as it was. Nothing else changes.
    pub open spec fn preview_shown(self, after: Self, frame: Option<PreviewFrame>) -> bool {
        &&& match frame {
            Some(f) => if preview_accepted(f) {
                &&& after.local_preview_buffer.width == f.width
                &&& after.local_preview_buffer.height == f.height
                &&& after.local_preview_buffer.data@ == f.data@.take(f.width * f.height * 3)
            } else {
                after.local_preview_buffer == self.local_preview_buffer
            },
            None => after.local_preview_buffer == self.local_preview_buffer,
        }
        &&& after.connected_addr == self.connected_addr
        &&& after.audio_muted == self.audio_muted
        &&& after.video_enabled == self.video_enabled
        &&& after.receiver_port == self.receiver_port
        &&& after.remote_frame_buffer == self.remote_frame_buffer
        &&& after.telemetry == self.telemetry
        &&& after.capture_width == self.capture_width
        &&& after.capture_height == self.capture_height
        &&& after.frames_sent == self.frames_sent
    }

    /// How turning the producer's `packet` into the frame `r` changes the
    /// session (the producer aside): a packet is counted, its bitrate and
    /// size become the transmit statistics, and `r` keeps its data, time and
    /// keyframe flag, marked as HEVC. Without a packet nothing changes.
    pub open spec fn packet_taken(self, after: Self, packet: Option<MediaPacket>, r: Option<
        VideoFrame,
    >) -> bool {
        match packet {
            None => r is None && after == (RealDuplexSession { producer: after.producer, ..self }),
            Some(p) => {
                &&& after.frames_sent == self.frames_sent + 1
                &&& after.telemetry == (SankakuTelemetry {
                    tx_stats: SankakuStreamStats {
                        bitrate_bps: packet_bitrate(p.data@.len()),
                        packet_loss_ratio: LossSample::Zero,
                        jitter_us: 0,
                        latency_ms: 0,
                        width: p.width,
                        height: p.height,
                    },
                    ..self.telemetry
                })
                &&& r matches Some(f) && {
                    &&& f.payload@ == p.data@
                    &&& f.timestamp_us == p.timestamp_us
                    &&& f.keyframe == p.keyframe
                    &&& f.codec == VIDEO_CODEC_HEVC
                    &&& f.width == p.width
                    &&& f.height == p.height
                }
                &&& after.connected_addr == self.connected_addr
                &&& after.audio_muted == self.audio_muted
                &&& after.video_enabled == self.video_enabled
                &&& after.receiver_port == self.receiver_port
                &&& after.local_preview_buffer == self.local_preview_buffer
                &&& after.remote_frame_buffer == self.remote_frame_buffer
                &&& after.capture_width == self.capture_width
                &&& after.capture_height == self.capture_height
            },
        }
    }
}

impl<P: NezumiProducer> MediaProvider for RealDuplexSession<P> {
    open spec fn inv(&self) -> bool {
        self.wf()
    }

    /// Polling the remote frame counts nothing.
    open spec fn poll_budget(&self) -> bool {
        true
    }

    /// A captured packet is counted in `frames_sent`.
    open spec fn capture_budget(&self) -> bool {
        self.frames_sent < u64::MAX
    }

    open spec fn connected_to(&self) -> Option<Seq<char>> {
        self.connected_view()
    }

    open spec fn receiver_port(&self) -> u16 {
        self.receiver_port
    }

    open spec fn telemetry_now(&self) -> SankakuTelemetry {
        self.telemetry
    }

    open spec fn video_on(&self) -> bool {
        self.video_enabled
    }

    open spec fn audio_off(&self) -> bool {
        self.audio_muted
    }

    open spec fn remote_image(&self) -> PixelBuffer {
        self.remote_frame_buffer
    }

    open spec fn preview_image(&self) -> PixelBuffer {
        self.local_preview_buffer
    }

    /// The remote frame stays as it was made until the transport delivers
    /// frames; nothing changes.
    open spec fn poll_step(&self, after: Self) -> bool {
        after == *self
    }

    /// With video on, the preview frame that the producer gives, whatever it
    /// is, is shown (see `preview_shown`); with video off nothing changes.
    open spec fn preview_step(&self, after: Self) -> bool {
        &&& !self.video_enabled ==> after == *self
        &&& self.video_enabled ==> exists|f: Option<PreviewFrame>|
            self.producer.gives_preview(after.producer, f) && #[trigger] self.preview_shown(
                after,
                f,
            )
    }

    /// With video on, the packet that the producer gives, whatever it is,
    /// becomes the frame (see `packet_taken`); with video off the producer is left
    /// alone, nothing is returned, the preview shows the stopped-video colour
    /// and the transmit statistics are zero.
    open spec fn capture_step(&self, after: Self, timestamp_us: u64, r: Option<VideoFrame>) -> bool {
        &&& self.video_enabled ==> exists|p: Option<MediaPacket>|
            self.producer.gives_packet(after.producer, p) && #[trigger] self.packet_taken(
                after,
                p,
                r,
            )
        &&& !self.video_enabled ==> {
            &&& r is None
            &&& disabled_colour_is(after.local_preview_buffer)
            &&& after.local_preview_buffer.width == self.local_preview_buffer.width
            &&& after.local_preview_buffer.height == self.local_preview_buffer.height
            &&& after == (RealDuplexSession {
                local_preview_buffer: after.local_preview_buffer,
                telemetry: SankakuTelemetry {
                    tx_stats: SankakuStreamStats::zero(),
                    udp_tx_dropped: 0,
                    ..self.telemetry
                },
                ..*self
            })
        }
    }

    /// Frames are not sent yet; nothing changes.
    open spec fn send_step(&self, after: Self, frame: VideoFrame) -> bool {
        after == *self
    }

    fn has_poll_budget(&self) -> (r: bool) {
        true
    }

    fn has_capture_budget(&self) -> (r: bool) {
        self.frames_sent < u64::MAX
    }

    fn connect(&mut self, addr: &str) -> (r: Result<(), String>)
        ensures
            trim(addr@).len() > 0 ==> (*final(self) == RealDuplexSession {
                connected_addr: final(self).connected_addr,
                ..*old(self)
            }),
    {
        let trimmed = trim_str(addr);
        if trimmed.as_str().is_empty() {
            let m = "address cannot be empty";
            return Err(m.to_owned());
        }
        self.connected_addr = Some(trimmed);
        Ok(())
    }

    fn local_receiver_port(&self) -> (r: u16) {
        self.receiver_port
    }

    /// The remote frame; until the transport delivers frames it stays as it
    /// was made.
    fn poll_frame(&mut self) -> (r: Option<PixelBuffer>) {
        Some(copy_buffer(&self.remote_frame_buffer))
    }

    /// With video on, the producer's latest preview frame is shown first
    /// (see `show_preview_frame`); the result is the local preview.
    /// With video off the producer is not asked and nothing changes.
    fn poll_local_preview(&mut self) -> (r: Option<PixelBuffer>)
        ensures
            !old(self).video_enabled ==> *final(self) == *old(self),
    {
        if self.video_enabled {
            let frame = self.producer.next_preview_frame();
            let ghost shown = frame;
            self.show_preview_frame(frame);
            assert(old(self).preview_shown(*self, shown));
        }
        Some(copy_buffer(&self.local_preview_buffer))
    }

    /// With video on, the producer's next packet becomes the frame (see
    /// `frame_from_packet`); with video stopped the preview is filled with
    /// the stopped-video colour.
    fn capture_local_frame(&mut self, timestamp_us: u64) -> (r: Option<VideoFrame>) {
        if !self.video_enabled {
            self.telemetry.tx_stats = SankakuStreamStats::default();
            self.telemetry.udp_tx_dropped = 0;
            self.render_disabled_preview();
            return None;
        }
        let packet = self.producer.next_packet();
        let ghost taken = packet;
        let r = self.frame_from_packet(packet);
        assert(old(self).packet_taken(*self, taken, r));
        r
    }

    fn broadcast_frame(&mut self, frame: VideoFrame) {
    }

    fn get_telemetry(&self) -> (r: SankakuTelemetry) {
        self.telemetry
    }

    fn set_audio_muted(&mut self, muted: bool)
        ensures
            *final(self) == (RealDuplexSession { audio_muted: muted, ..*old(self) }),
    {
        self.audio_muted = muted;
    }

    /// Stopping video fills the local preview with the stopped-video colour.
    fn set_video_enabled(&mut self, enabled: bool)
        ensures
            !enabled ==> disabled_colour_is(final(self).local_preview_buffer),
            enabled ==> final(self).local_preview_buffer == old(self).local_preview_buffer,
            final(self).frames_sent == old(self).frames_sent,
    {
        self.video_enabled = enabled;
        if !enabled {
            self.render_disabled_preview();
        }
    }
}

// ---------------------------------------------------------------------------
// Either session
// ---------------------------------------------------------------------------

/// The session in use: capture-backed when a capture backend started, the
/// simulated one otherwise.
pub enum AnySession<P> {
    Real(RealDuplexSession<P>),
    Mock(MockDuplexSession),
}

impl<P: NezumiProducer> MediaProvider for AnySession<P> {
    open spec fn inv(&self) -> bool {
        match self {
            AnySession::Real(s) => s.inv(),
            AnySession::Mock(s) => s.inv(),
        }
    }

    open spec fn poll_budget(&self) -> bool {
        match self {
            AnySession::Real(s) => s.poll_budget(),
            AnySession::Mock(s) => s.poll_budget(),
        }
    }

    open spec fn capture_budget(&self) -> bool {
        match self {
            AnySession::Real(s) => s.capture_budget(),
            AnySession::Mock(s) => s.capture_budget(),
        }
    }

    open spec fn connected_to(&self) -> Option<Seq<char>> {
        match self {
            AnySession::Real(s) => s.connected_to(),
            AnySession::Mock(s) => s.connected_to(),
        }
    }

    open spec fn receiver_port(&self) -> u16 {
        match self {
            AnySession::Real(s) => s.receiver_port(),
            AnySession::Mock(s) => s.receiver_port(),
        }
    }

    open spec fn telemetry_now(&self) -> SankakuTelemetry {
        match self {
            AnySession::Real(s) => s.telemetry_now(),
            AnySession::Mock(s) => s.telemetry_now(),
        }
    }

    open spec fn video_on(&self) -> bool {
        match self {
            AnySession::Real(s) => s.video_on(),
            AnySession::Mock(s) => s.video_on(),
        }
    }

    open spec fn audio_off(&self) -> bool {
        match self {
            AnySession::Real(s) => s.audio_off(),
            AnySession::Mock(s) => s.audio_off(),
        }
    }

    open spec fn remote_image(&self) -> PixelBuffer {
        match self {
            AnySession::Real(s) => s.remote_image(),
            AnySession::Mock(s) => s.remote_image(),
        }
    }

    open spec fn preview_image(&self) -> PixelBuffer {
        match self {
            AnySession::Real(s) => s.preview_image(),
            AnySession::Mock(s) => s.preview_image(),
        }
    }

    /// Each step is the step of the session in use, which stays in use.
    open spec fn poll_step(&self, after: Self) -> bool {
        match (*self, after) {
            (AnySession::Real(a), AnySession::Real(b)) => a.poll_step(b),
            (AnySession::Mock(a), AnySession::Mock(b)) => a.poll_step(b),
            _ => false,
        }
    }

    open spec fn preview_step(&self, after: Self) -> bool {
        match (*self, after) {
            (AnySession::Real(a), AnySession::Real(b)) => a.preview_step(b),
            (AnySession::Mock(a), AnySession::Mock(b)) => a.preview_step(b),
            _ => false,
        }
    }

    open spec fn capture_step(&self, after: Self, timestamp_us: u64, r: Option<VideoFrame>) -> bool {
        match (*self, after) {
            (AnySession::Real(a), AnySession::Real(b)) => a.capture_step(b, timestamp_us, r),
            (AnySession::Mock(a), AnySession::Mock(b)) => a.capture_step(b, timestamp_us, r),
            _ => false,
        }
    }

    open spec fn send_step(&self, after: Self, frame: VideoFrame) -> bool {
        match (*self, after) {
            (AnySession::Real(a), AnySession::Real(b)) => a.send_step(b, frame),
            (AnySession::Mock(a), AnySession::Mock(b)) => a.send_step(b, frame),
            _ => false,
        }
    }

    fn has_poll_budget(&self) -> (r: bool) {
        match self {
            AnySession::Real(s) => s.has_poll_budget(),
            AnySession::Mock(s) => s.has_poll_budget(),
        }
    }

    fn has_capture_budget(&self) -> (r: bool) {
        match self {
            AnySession::Real(s) => s.has_capture_budget(),
            AnySession::Mock(s) => s.has_capture_budget(),
        }
    }

    fn connect(&mut self, addr: &str) -> (r: Result<(), String>) {
        match self {
            AnySession::Real(s) => s.connect(addr),
            AnySession::Mock(s) => s.connect(addr),
        }
    }

    fn local_receiver_port(&self) -> (r: u16) {
        match self {
            AnySession::Real(s) => s.local_receiver_port(),
            AnySession::Mock(s) => s.local_receiver_port(),
        }
    }

    fn poll_frame(&mut self) -> (r: Option<PixelBuffer>) {
        match self {
            AnySession::Real(s) => s.poll_frame(),
            AnySession::Mock(s) => s.poll_frame(),
        }
    }

    fn poll_local_preview(&mut self) -> (r: Option<PixelBuffer>) {
        match self {
            AnySession::Real(s) => s.poll_local_preview(),
            AnySession::Mock(s) => s.poll_local_preview(),
        }
    }

    fn capture_local_frame(&mut self, timestamp_us: u64) -> (r: Option<VideoFrame>) {
        match self {
            AnySession::Real(s) => s.capture_local_frame(timestamp_us),
            AnySession::Mock(s) => s.capture_local_frame(timestamp_us),
        }
    }

    fn broadcast_frame(&mut self, frame: VideoFrame) {
        match self {
            AnySession::Real(s) => s.broadcast_frame(frame),
            AnySession::Mock(s) => s.broadcast_frame(frame),
        }
    }

    fn get_telemetry(&self) -> (r: SankakuTelemetry) {
        match self {
            AnySession::Real(s) => s.get_telemetry(),
            AnySession::Mock(s) => s.get_telemetry(),
        }
    }

    fn set_audio_muted(&mut self, muted: bool) {
        match self {
            AnySession::Real(s) => s.set_audio_muted(muted),
            AnySession::Mock(s) => s.set_audio_muted(muted),
        }
    }

    fn set_video_enabled(&mut self, enabled: bool) {
        match self {
            AnySession::Real(s) => s.set_video_enabled(enabled),
            AnySession::Mock(s) => s.set_video_enabled(enabled),
        }
    }
}

// ---------------------------------------------------------------------------
// Laws of the sessions
// ---------------------------------------------------------------------------

/// A frame made from the producer's packet keeps the packet's data, time,
/// keyframe flag and size, is marked HEVC, and counts one frame sent.
pub proof fn lemma_frame_keeps_packet<P: NezumiProducer>(
    s: RealDuplexSession<P>,
    after: RealDuplexSession<P>,
    p: MediaPacket,
    r: Option<VideoFrame>,
)
    requires
        s.packet_taken(after, Some(p), r),
    ensures
        r is Some,
        r.unwrap().keyframe == p.keyframe,
        r.unwrap().payload@ == p.data@,
        r.unwrap().timestamp_us == p.timestamp_us,
        r.unwrap().width == p.width,
        r.unwrap().height == p.height,
        r.unwrap().codec == VIDEO_CODEC_HEVC,
        after.frames_sent == s.frames_sent + 1,
{
}

/// With video on, a frame that a capture returns is a packet that the
/// producer gave, with the packet's keyframe flag, data and time.
pub proof fn lemma_captured_frame_is_given_packet<P: NezumiProducer>(
    s: RealDuplexSession<P>,
    after: RealDuplexSession<P>,
    timestamp_us: u64,
    r: Option<VideoFrame>,
)
    requires
        s.video_enabled,
        s.capture_step(after, timestamp_us, r),
        r is Some,
    ensures
        exists|q: MediaPacket|
            #[trigger] s.producer.gives_packet(after.producer, Some(q)) && r.unwrap().keyframe
                == q.keyframe && r.unwrap().payload@ == q.data@ && r.unwrap().timestamp_us
                == q.timestamp_us,
{
    let p = choose|p: Option<MediaPacket>|
        s.producer.gives_packet(after.producer, p) && #[trigger] s.packet_taken(after, p, r);
    let q = p.unwrap();
    lemma_frame_keeps_packet(s, after, q, r);
    assert(s.producer.gives_packet(after.producer, Some(q)));
}

/// With video off, polling the capture-backed session's preview changes
/// nothing (the producer is not asked), so the preview keeps showing what
/// it showed, the stopped-video colour after video was stopped.
pub proof fn lemma_stopped_preview_unchanged<P: NezumiProducer>(
    s: RealDuplexSession<P>,
    after: RealDuplexSession<P>,
)
    requires
        !s.video_enabled,
        s.preview_step(after),
    ensures
        after == s,
        after.local_preview_buffer == s.local_preview_buffer,
        disabled_colour_is(s.local_preview_buffer) ==> disabled_colour_is(
            after.local_preview_buffer,
        ),
{
}

/// While connected, sending an HEVC frame adds the dropped-packet draw, at
/// most two, to the running count, saturating at `u64::MAX`: the count
/// never goes down.
pub proof fn lemma_dropped_count_accumulates(
    s: MockDuplexSession,
    after: MockDuplexSession,
    frame: VideoFrame,
)
    requires
        s.frame_broadcast(after, frame),
        s.connected_addr is Some,
        frame.codec == VIDEO_CODEC_HEVC,
    ensures
        after.telemetry.udp_tx_dropped >= s.telemetry.udp_tx_dropped,
        ranged(s.rng_state, 4, 0, 2) <= 2,
        after.telemetry.udp_tx_dropped == (if s.telemetry.udp_tx_dropped + ranged(
            s.rng_state,
            4,
            0,
            2,
        ) <= u64::MAX {
            s.telemetry.udp_tx_dropped + ranged(s.rng_state, 4, 0, 2)
        } else {
            u64::MAX as int
        }),
{
    let x = lcg_out(lcg_nth(s.rng_state, 4));
    assert((x as nat) % 3 < 3);
}

} // verus!
