//! RGB8 pixel buffers and the animated test scenes of the simulated session.
use vstd::prelude::*;
use crate::nezumi::rgb_byte;

verus! {

/// A packed RGB8 image (three bytes per pixel, row-major).
#[derive(Clone, Debug)]
pub struct PixelBuffer {
    pub width: u32,
    pub height: u32,
    pub data: Vec<u8>,
}

impl PixelBuffer {
    pub open spec fn wf(&self) -> bool {
        self.data@.len() == self.width * self.height * 3
    }

    /// Every pixel has colour `(r, g, b)`.
    pub open spec fn is_filled(&self, r: u8, g: u8, b: u8) -> bool {
        forall|x: int, y: int, c: int|
            0 <= x < self.width && 0 <= y < self.height && 0 <= c < 3 ==> #[trigger] rgb_byte(
                self.data@,
                self.width as int,
                x,
                y,
                c,
            ) == solid_channel(r, g, b, c)
    }

    /// A black image of the given size.
    pub fn new(width: u32, height: u32) -> (r: PixelBuffer)
        requires
            width * height * 3 <= usize::MAX,
        ensures
            r.wf(),
            r.width == width,
            r.height == height,
            r.is_filled(0, 0, 0),
    {
        let data = render_scene(&Scene::Solid { r: 0, g: 0, b: 0 }, width, height);
        PixelBuffer { width, height, data }
    }

    /// Sets every pixel to `(r, g, b)`.
    pub fn fill(&mut self, r: u8, g: u8, b: u8)
        requires
            old(self).wf(),
        ensures
            final(self).wf(),
            final(self).width == old(self).width,
            final(self).height == old(self).height,
            final(self).is_filled(r, g, b),
    {
        let _ = self.data.len();
        self.data = render_scene(&Scene::Solid { r, g, b }, self.width, self.height);
    }
}

/// Channel `c` of the colour `(r, g, b)`.
pub open spec fn solid_channel(r: u8, g: u8, b: u8, c: int) -> u8 {
    if c == 0 {
        r
    } else if c == 1 {
        g
    } else {
        b
    }
}

// ---------------------------------------------------------------------------
// Bouncing squares
// ---------------------------------------------------------------------------

#[derive(Clone, Copy, Debug)]
pub struct AnimatedSquare {
    pub x: i32,
    pub y: i32,
    pub vx: i32,
    pub vy: i32,
    pub size: u32,
}

/// The value of `v as i32`: the same bits read as a signed number.
pub open spec fn as_i32(v: u32) -> int {
    if v <= 0x7fff_ffff {
        v as int
    } else {
        v - 0x1_0000_0000
    }
}

/// Largest coordinate at which a square of `size` fits in `dim`, both taken
/// `as i32`.
pub open spec fn max_offset(dim: u32, size: u32) -> int {
    if as_i32(dim) - as_i32(size) > 0 {
        as_i32(dim) - as_i32(size)
    } else {
        0
    }
}

/// Moves `p` by `v`; on reaching either edge the position is clamped into
/// `[0, max]` and the velocity reversed.
pub open spec fn bounce(p: int, v: int, max: int) -> (int, int) {
    let q = p + v;
    if q <= 0 || q >= max {
        (if q < 0 {
            0
        } else if q > max {
            max
        } else {
            q
        }, -v)
    } else {
        (q, v)
    }
}

/// The moves of `advance_square` stay within `i32`.
pub open spec fn can_advance(sq: AnimatedSquare, width: u32, height: u32) -> bool {
    &&& i32::MIN <= as_i32(width) - as_i32(sq.size) <= i32::MAX
    &&& i32::MIN <= as_i32(height) - as_i32(sq.size) <= i32::MAX
    &&& i32::MIN <= sq.x + sq.vx <= i32::MAX
    &&& i32::MIN <= sq.y + sq.vy <= i32::MAX
    &&& sq.vx != i32::MIN
    &&& sq.vy != i32::MIN
}

/// One animation step of a square bouncing inside a `width` x `height` frame.
pub fn advance_square(square: &mut AnimatedSquare, width: u32, height: u32)
    requires
        can_advance(*old(square), width, height),
    ensures
        final(square).size == old(square).size,
        (final(square).x as int, final(square).vx as int) == bounce(
            old(square).x as int,
            old(square).vx as int,
            max_offset(width, old(square).size),
        ),
        (final(square).y as int, final(square).vy as int) == bounce(
            old(square).y as int,
            old(square).vy as int,
            max_offset(height, old(square).size),
        ),
{
    let wi = #[verifier::truncate] (width as i32);
    let hi = #[verifier::truncate] (height as i32);
    let si = #[verifier::truncate] (square.size as i32);
    let size = square.size;
    assert(wi as int == as_i32(width)) by (bit_vector)
        requires
            wi == #[verifier::truncate] (width as i32),
    ;
    assert(hi as int == as_i32(height)) by (bit_vector)
        requires
            hi == #[verifier::truncate] (height as i32),
    ;
    assert(si as int == as_i32(size)) by (bit_vector)
        requires
            si == #[verifier::truncate] (size as i32),
    ;
    let dx = wi - si;
    let max_x = if dx > 0 {
        dx
    } else {
        0
    };
    let dy = hi - si;
    let max_y = if dy > 0 {
        dy
    } else {
        0
    };
    square.x = square.x + square.vx;
    square.y = square.y + square.vy;
    if square.x <= 0 || square.x >= max_x {
        square.x = if square.x < 0 {
            0
        } else if square.x > max_x {
            max_x
        } else {
            square.x
        };
        square.vx = -square.vx;
    }
    if square.y <= 0 || square.y >= max_y {
        square.y = if square.y < 0 {
            0
        } else if square.y > max_y {
            max_y
        } else {
            square.y
        };
        square.vy = -square.vy;
    }
}

/// Wherever a square starts and however fast it moves, one step leaves it
/// inside the frame, `0 <= position <= max`, moving at the same speed.
pub proof fn lemma_bounce_stays_inside(p: int, v: int, max: int)
    requires
        max >= 0,
    ensures
        0 <= bounce(p, v, max).0 <= max,
        bounce(p, v, max).1 == v || bounce(p, v, max).1 == -v,
{
}

// ---------------------------------------------------------------------------
// Scenes
// ---------------------------------------------------------------------------

/// What to draw into a frame.
#[derive(Clone, Copy, Debug)]
pub enum Scene {
    /// The local camera stand-in: a blue square over a grid with a scan bar.
    Local { square: AnimatedSquare, phase: u32, muted: bool },
    /// The remote stand-in: a red square over bands and a horizon gradient.
    Remote { square: AnimatedSquare, phase: u32, connected: bool },
    /// A single colour.
    Solid { r: u8, g: u8, b: u8 },
}

pub open spec fn in_square(sq: AnimatedSquare, x: int, y: int) -> bool {
    sq.x <= x < sq.x + sq.size && sq.y <= y < sq.y + sq.size
}

pub open spec fn sat(a: u8, b: int) -> u8 {
    if a + b > 255 {
        255
    } else {
        (a + b) as u8
    }
}

/// Channel `c` of pixel `(x, y)` of the local scene in a frame of width `w`.
pub open spec fn local_channel(sq: AnimatedSquare, phase: u32, muted: bool, w: int, x: int, y: int, c: int) -> u8 {
    let accent: int = if muted {
        30
    } else {
        0
    };
    let grid: int = if x % 20 == 0 || y % 20 == 0 {
        8
    } else {
        0
    };
    let scan: int = ((x + phase) % w) * 255 / w;
    let status_bar: int = if y < 16 {
        18
    } else {
        0
    };
    if in_square(sq, x, y) {
        if c == 0 {
            sat(24, accent)
        } else if c == 1 {
            sat(104, scan / 8)
        } else {
            232
        }
    } else {
        if c == 0 {
            sat(8, status_bar / 2)
        } else if c == 1 {
            sat(18, grid / 2)
        } else {
            sat(sat(44, grid), scan / 10)
        }
    }
}

/// Channel `c` of pixel `(x, y)` of the remote scene in a frame of height `h`.
pub open spec fn remote_channel(sq: AnimatedSquare, phase: u32, connected: bool, h: int, x: int, y: int, c: int) -> u8 {
    let bias: int = if connected {
        24
    } else {
        0
    };
    let band: int = (x / 6 + phase) % 255;
    let horizon: int = (y * 255) / h;
    let grid: int = if x % 80 < 2 || y % 60 < 2 {
        10
    } else {
        0
    };
    if in_square(sq, x, y) {
        if c == 0 {
            232
        } else if c == 1 {
            sat(62, bias / 2)
        } else {
            52
        }
    } else {
        if c == 0 {
            sat(sat(18, band / 8), grid / 2)
        } else if c == 1 {
            sat(sat(18, horizon / 7), bias / 3)
        } else {
            sat(sat(42, band / 3), grid)
        }
    }
}

impl Scene {
    /// Channel `c` of pixel `(x, y)` in a `w` x `h` frame.
    pub open spec fn channel(self, w: int, h: int, x: int, y: int, c: int) -> u8 {
        match self {
            Scene::Local { square, phase, muted } => local_channel(square, phase, muted, w, x, y, c),
            Scene::Remote { square, phase, connected } => remote_channel(
                square,
                phase,
                connected,
                h,
                x,
                y,
                c,
            ),
            Scene::Solid { r, g, b } => solid_channel(r, g, b, c),
        }
    }

    /// The arithmetic of drawing the scene stays within `u32`.
    pub open spec fn fits(self, w: u32, h: u32) -> bool {
        match self {
            Scene::Local { square, phase, .. } => {
                &&& square.x >= 0
                &&& square.y >= 0
                &&& square.x + square.size <= u32::MAX
                &&& square.y + square.size <= u32::MAX
                &&& w > 0 ==> phase + (w - 1) <= u32::MAX
                &&& w > 0 ==> (w - 1) * 255 <= u32::MAX
            },
            Scene::Remote { square, phase, .. } => {
                &&& square.x >= 0
                &&& square.y >= 0
                &&& square.x + square.size <= u32::MAX
                &&& square.y + square.size <= u32::MAX
                &&& w > 0 ==> (w - 1) / 6 + phase <= u32::MAX
                &&& h > 0 ==> (h - 1) * 255 <= u32::MAX
            },
            Scene::Solid { .. } => true,
        }
    }
}

fn in_square_exec(sq: &AnimatedSquare, x: u32, y: u32) -> (r: bool)
    requires
        sq.x >= 0,
        sq.y >= 0,
        sq.x + sq.size <= u32::MAX,
        sq.y + sq.size <= u32::MAX,
    ensures
        r == in_square(*sq, x as int, y as int),
{
    let sx = sq.x as u32;
    let sy = sq.y as u32;
    x >= sx && x < sx + sq.size && y >= sy && y < sy + sq.size
}

fn pick(c0: u8, c1: u8, c2: u8, c: usize) -> (r: u8)
    ensures
        r == (if c == 0 {
            c0
        } else if c == 1 {
            c1
        } else {
            c2
        }),
{
    if c == 0 {
        c0
    } else if c == 1 {
        c1
    } else {
        c2
    }
}

/// The colour of pixel `(x, y)`.
fn scene_pixel(scene: &Scene, w: u32, h: u32, x: u32, y: u32) -> (rgb: (u8, u8, u8))
    requires
        x < w,
        y < h,
        scene.fits(w, h),
    ensures
        rgb.0 == scene.channel(w as int, h as int, x as int, y as int, 0),
        rgb.1 == scene.channel(w as int, h as int, x as int, y as int, 1),
        rgb.2 == scene.channel(w as int, h as int, x as int, y as int, 2),
{
    match scene {
        Scene::Local { square, phase, muted } => {
            let accent: u8 = if *muted {
                30
            } else {
                0
            };
            let grid: u8 = if x % 20 == 0 || y % 20 == 0 {
                8
            } else {
                0
            };
            let t = (x + *phase) % w;
            assert(t * 255 <= (w - 1) * 255) by (nonlinear_arith)
                requires
                    t < w,
            ;
            assert(t * 255 / (w as int) < 255) by (nonlinear_arith)
                requires
                    t < w,
                    w > 0,
            ;
            let scan: u8 = (t * 255 / w) as u8;
            let status_bar: u8 = if y < 16 {
                18
            } else {
                0
            };
            if in_square_exec(square, x, y) {
                (24u8.saturating_add(accent), 104u8.saturating_add(scan / 8), 232)
            } else {
                (
                    8u8.saturating_add(status_bar / 2),
                    18u8.saturating_add(grid / 2),
                    44u8.saturating_add(grid).saturating_add(scan / 10),
                )
            }
        },
        Scene::Remote { square, phase, connected } => {
            let bias: u8 = if *connected {
                24
            } else {
                0
            };
            assert(x / 6 <= (w - 1) / 6) by (nonlinear_arith)
                requires
                    x <= w - 1,
            ;
            let band: u8 = ((x / 6 + *phase) % 255) as u8;
            assert(y * 255 <= (h - 1) * 255) by (nonlinear_arith)
                requires
                    y <= h - 1,
            ;
            assert(y * 255 / (h as int) < 255) by (nonlinear_arith)
                requires
                    y < h,
            ;
            let horizon: u8 = ((y * 255) / h) as u8;
            let grid: u8 = if x % 80 < 2 || y % 60 < 2 {
                10
            } else {
                0
            };
            if in_square_exec(square, x, y) {
                (232, 62u8.saturating_add(bias / 2), 52)
            } else {
                (
                    18u8.saturating_add(band / 8).saturating_add(grid / 2),
                    18u8.saturating_add(horizon / 7).saturating_add(bias / 3),
                    42u8.saturating_add(band / 3).saturating_add(grid),
                )
            }
        },
        Scene::Solid { r, g, b } => (*r, *g, *b),
    }
}

proof fn lemma_index_order(w: int, x1: int, y1: int, x2: int, y2: int)
    requires
        0 <= x1 < w,
        0 <= x2 < w,
        0 <= y1,
        0 <= y2,
        y1 < y2 || (y1 == y2 && x1 < x2),
    ensures
        y1 * w + x1 < y2 * w + x2,
{
    if y1 < y2 {
        assert(y1 * w + w <= y2 * w) by (nonlinear_arith)
            requires
                y1 < y2,
                w > 0,
        ;
    }
}

/// Draws `scene` into a new `w` x `h` RGB8 image, row by row.
pub fn render_scene(scene: &Scene, w: u32, h: u32) -> (data: Vec<u8>)
    requires
        scene.fits(w, h),
        w * h * 3 <= usize::MAX,
    ensures
        data@.len() == w * h * 3,
        forall|x: int, y: int, c: int|
            0 <= x < w && 0 <= y < h && 0 <= c < 3 ==> #[trigger] rgb_byte(data@, w as int, x, y, c)
                == scene.channel(w as int, h as int, x, y, c),
{
    let mut data: Vec<u8> = Vec::new();
    let mut y: u32 = 0;
    while y < h
        invariant
            y <= h,
            scene.fits(w, h),
            data@.len() == (y * w) * 3,
            forall|x2: int, y2: int, c: int|
                0 <= x2 < w && 0 <= y2 < y && 0 <= c < 3 ==> #[trigger] rgb_byte(
                    data@,
                    w as int,
                    x2,
                    y2,
                    c,
                ) == scene.channel(w as int, h as int, x2, y2, c),
        decreases h - y,
    {
        let mut x: u32 = 0;
        while x < w
            invariant
                y < h,
                x <= w,
                scene.fits(w, h),
                data@.len() == (y * w + x) * 3,
                forall|x2: int, y2: int, c: int|
                    0 <= x2 < w && 0 <= y2 < h && 0 <= c < 3 && (y2 < y || (y2 == y && x2 < x))
                        ==> #[trigger] rgb_byte(data@, w as int, x2, y2, c) == scene.channel(
                        w as int,
                        h as int,
                        x2,
                        y2,
                        c,
                    ),
            decreases w - x,
        {
            let (r, g, b) = scene_pixel(scene, w, h, x, y);
            let ghost before = data@;
            data.push(r);
            data.push(g);
            data.push(b);
            proof {
                let p = (y * w + x) * 3;
                assert forall|x2: int, y2: int, c: int|
                    0 <= x2 < w && 0 <= y2 < h && 0 <= c < 3 && (y2 < y || (y2 == y && x2 < x
                        + 1)) implies #[trigger] rgb_byte(data@, w as int, x2, y2, c)
                    == scene.channel(w as int, h as int, x2, y2, c) by {
                    if y2 == y && x2 == x {
                        assert(rgb_byte(data@, w as int, x2, y2, c) == data@[p + c]);
                    } else {
                        lemma_index_order(w as int, x2, y2, x as int, y as int);
                        assert(data@[(y2 * w + x2) * 3 + c] == before[(y2 * w + x2) * 3 + c]);
                        assert(rgb_byte(before, w as int, x2, y2, c) == scene.channel(
                            w as int,
                            h as int,
                            x2,
                            y2,
                            c,
                        ));
                    }
                }
            }
            x = x + 1;
        }
        assert((y * w + w) * 3 == ((y + 1) * w) * 3) by (nonlinear_arith);
        y = y + 1;
    }
    assert((h * w) * 3 == w * h * 3) by (nonlinear_arith);
    data
}

} // verus!
