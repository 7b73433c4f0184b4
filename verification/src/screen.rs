//! What the viewer knows of the remote screen: the last frame, the cursor, the displays.
use vstd::prelude::*;

verus! {

/// A nudge from the session to the window.
#[derive(Debug, Clone, Copy, PartialEq, Eq, Structural)]
pub enum Wake {
    /// There is something new to draw.
    Frame,
}

/// The order of the channels in a decoded frame's pixels.
#[derive(Debug, Clone, Copy, PartialEq, Eq, Structural)]
pub enum ImageFormat {
    ARGB,
    ABGR,
}

/// A visible colour as the compositor packs it: opacity on top, then the darkness of red, green and
/// blue.
pub open spec fn packed(r: u8, g: u8, b: u8, a: u8) -> int {
    a * 0x100_0000 + (255 - r) * 0x1_0000 + (255 - g) * 0x100 + (255 - b)
}

/// Pack a visible colour.
pub fn argb(r: u8, g: u8, b: u8, a: u8) -> (c: u32)
    ensures
        c == packed(r, g, b, a),
{
    let (dr, dg, db): (u8, u8, u8) = (255 - r, 255 - g, 255 - b);
    let c: u32 = ((a as u32) << 24) | ((dr as u32) << 16) | ((dg as u32) << 8) | (db as u32);
    assert(c == a * 0x100_0000 + dr * 0x1_0000 + dg * 0x100 + db) by (bit_vector)
        requires
            c == ((a as u32) << 24) | ((dr as u32) << 16) | ((dg as u32) << 8) | (db as u32),
    ;
    c
}

/// The letterbox around a frame: opaque dark grey.
pub const BACKDROP: u32 = 0xFFC0_C0C0;

/// The colour of the diagnostic lines.
pub const HUD_GREEN: u32 = 0xFFCF_00AF;

/// The colour of the line about keys.
pub const HUD_AMBER: u32 = 0xFF00_3FDF;

/// The colour of the shadow behind the lines.
pub const HUD_SHADOW: u32 = 0xFFFF_FFFF;

/// The diagnostic colours are bright green, amber and black, all opaque; the letterbox is a dark
/// grey.
pub proof fn law_colours()
    ensures
        HUD_GREEN == packed(0x30, 0xFF, 0x50, 0xFF),
        HUD_AMBER == packed(0xFF, 0xC0, 0x20, 0xFF),
        HUD_SHADOW == packed(0, 0, 0, 0xFF),
        BACKDROP == packed(0x3F, 0x3F, 0x3F, 0xFF),
{
}

/// The colour of a diagnostic line: the third one is about keys.
pub fn hud_colour(line: usize) -> (r: u32)
    ensures
        r == (if line == 2 { HUD_AMBER } else { HUD_GREEN }),
{
    if line == 2 {
        HUD_AMBER
    } else {
        HUD_GREEN
    }
}

/// The packed colour of the `i`th pixel of a frame.
pub open spec fn pixel(raw: Seq<u8>, i: int, fmt: ImageFormat) -> int {
    let (first, second, third, a) = (raw[4 * i], raw[4 * i + 1], raw[4 * i + 2], raw[4 * i + 3]);
    match fmt {
        ImageFormat::ABGR => packed(first, second, third, a),
        ImageFormat::ARGB => packed(third, second, first, a),
    }
}

/// The bytes hold a frame of this size.
pub open spec fn holds_frame(raw: Seq<u8>, w: usize, h: usize) -> bool {
    w > 0 && h > 0 && raw.len() >= w * h * 4
}

/// The last frame, packed for the compositor.
pub struct FrameBuf {
    pub pixels: Vec<u32>,
    pub w: usize,
    pub h: usize,
    /// Goes up by one with every frame, and around at the end.
    pub gen: u64,
}

/// What the session tells the viewer about the remote screen.
pub struct FluorHandler {
    pub frame: FrameBuf,
    /// Where the remote cursor is.
    pub cursor: (i32, i32),
    /// Where the current display begins in the remote desktop.
    pub display_origin: (i32, i32),
    /// Which display is being viewed.
    pub display_idx: i32,
    /// The peer's operating system.
    pub peer_platform: String,
    /// How many displays the peer has; zero until it has said so.
    pub display_count: usize,
}

fn convert(raw: &[u8], n: usize, fmt: ImageFormat) -> (r: Vec<u32>)
    requires
        n * 4 <= raw@.len(),
    ensures
        r@.len() == n,
        forall|i: int| 0 <= i < n ==> #[trigger] r@[i] == pixel(raw@, i, fmt),
{
    let mut out: Vec<u32> = Vec::new();
    let mut i: usize = 0;
    let len: usize = raw.len();
    while i < n
        invariant
            i <= n,
            len == raw@.len(),
            n * 4 <= len,
            out@.len() == i,
            forall|j: int| 0 <= j < i ==> #[trigger] out@[j] == pixel(raw@, j, fmt),
        decreases n - i,
    {
        let first: u8 = raw[i * 4];
        let second: u8 = raw[i * 4 + 1];
        let third: u8 = raw[i * 4 + 2];
        let a: u8 = raw[i * 4 + 3];
        let c: u32 = match fmt {
            ImageFormat::ABGR => argb(first, second, third, a),
            ImageFormat::ARGB => argb(third, second, first, a),
        };
        out.push(c);
        i = i + 1;
    }
    out
}

impl FluorHandler {
    /// Nothing known yet.
    pub fn new() -> (r: Self)
        ensures
            r.frame.pixels@.len() == 0,
            r.frame.w == 0,
            r.frame.h == 0,
            r.frame.gen == 0,
            r.cursor == (0i32, 0i32),
            r.display_origin == (0i32, 0i32),
            r.display_idx == 0,
            r.peer_platform@ == Seq::<char>::empty(),
            r.display_count == 0,
    {
        FluorHandler {
            frame: FrameBuf { pixels: Vec::new(), w: 0, h: 0, gen: 0 },
            cursor: (0, 0),
            display_origin: (0, 0),
            display_idx: 0,
            peer_platform: String::new(),
            display_count: 0,
        }
    }

    /// A decoded frame arrived. One whose bytes do not hold its size is ignored.
    pub fn on_rgba(&mut self, raw: &[u8], w: usize, h: usize, fmt: ImageFormat) -> (r: Option<Wake>)
        ensures
            final(self).cursor == old(self).cursor,
            final(self).display_origin == old(self).display_origin,
            final(self).display_idx == old(self).display_idx,
            final(self).peer_platform == old(self).peer_platform,
            final(self).display_count == old(self).display_count,
            if holds_frame(raw@, w, h) {
                let f = final(self).frame;
                &&& r == Some(Wake::Frame)
                &&& f.w == w
                &&& f.h == h
                &&& f.gen == (if old(self).frame.gen == u64::MAX { 0 } else { (old(self).frame.gen + 1) as u64 })
                &&& f.pixels@.len() == w * h
                &&& forall|i: int| 0 <= i < w * h ==> #[trigger] f.pixels@[i] == pixel(raw@, i, fmt)
            } else {
                r is None && final(self).frame == old(self).frame
            },
    {
        if w == 0 || h == 0 {
            return None;
        }
        let len: usize = raw.len();
        let quarter: usize = len / 4;
        if w > quarter / h {
            assert(raw@.len() < w * h * 4) by (nonlinear_arith)
                requires
                    raw@.len() == len,
                    quarter == len / 4,
                    h > 0,
                    w > quarter / h,
            ;
            return None;
        }
        assert(w * h <= quarter) by (nonlinear_arith)
            requires
                h > 0,
                w <= quarter / h,
        ;
        let n: usize = w * h;
        self.frame.pixels = convert(raw, n, fmt);
        self.frame.w = w;
        self.frame.h = h;
        self.frame.gen = if self.frame.gen == u64::MAX { 0 } else { self.frame.gen + 1 };
        assert(w * h * 4 == (w * h) * 4);
        Some(Wake::Frame)
    }

    /// The remote cursor moved.
    pub fn set_cursor_position(&mut self, x: i32, y: i32) -> (r: Wake)
        ensures
            r == Wake::Frame,
            *final(self) == (FluorHandler { cursor: (x, y), ..*old(self) }),
    {
        self.cursor = (x, y);
        Wake::Frame
    }

    /// The first frame is there: the connection is up, and nothing is torn down.
    pub fn close_success(&self) -> (r: Wake)
        ensures
            r == Wake::Frame,
    {
        Wake::Frame
    }

    /// The current display begins here.
    pub fn set_display(&mut self, x: i32, y: i32)
        ensures
            *final(self) == (FluorHandler { display_origin: (x, y), ..*old(self) }),
    {
        self.display_origin = (x, y);
    }

    /// Another display is being viewed.
    pub fn switch_display(&mut self, display: i32, x: i32, y: i32)
        ensures
            *final(self) == (FluorHandler { display_idx: display, display_origin: (x, y), ..*old(self) }),
    {
        self.display_idx = display;
        self.display_origin = (x, y);
    }

    /// The peer introduced itself.
    pub fn set_peer_info(&mut self, current_display: i32, platform: String, displays: usize)
        ensures
            *final(self) == (FluorHandler {
                display_idx: current_display,
                peer_platform: platform,
                display_count: displays,
                ..*old(self)
            }),
    {
        self.display_idx = current_display;
        self.peer_platform = platform;
        self.display_count = displays;
    }

    /// The peer's displays changed.
    pub fn set_displays(&mut self, displays: usize)
        ensures
            *final(self) == (FluorHandler { display_count: displays, ..*old(self) }),
    {
        self.display_count = displays;
    }

    /// The display to switch to when going `delta` displays on, around the end; `None` while there
    /// is nothing to switch between.
    pub fn switch_host_display(&self, delta: i32) -> (r: Option<i32>)
        requires
            self.display_count as i32 > 1 ==> i32::MIN <= self.display_idx + delta <= i32::MAX,
        ensures
            ({
                let count = self.display_count as i32;
                if count > 1 {
                    r == Some(((self.display_idx + delta) % count as int) as i32)
                } else {
                    r is None
                }
            }),
            r matches Some(next) ==> 0 <= next < self.display_count as i32,
    {
        let count: i32 = #[verifier::truncate] (self.display_count as i32);
        if count <= 1 {
            return None;
        }
        let sum: i64 = self.display_idx as i64 + delta as i64;
        let size: i64 = count as i64;
        let next: i64 = if sum >= 0 {
            sum % size
        } else {
            let back: i64 = (-sum) % size;
            if back == 0 {
                0
            } else {
                size - back
            }
        };
        proof {
            if sum < 0 {
                let back = (-sum) % (size as int);
                assert((sum as int) % (size as int) == (if back == 0 { 0 } else { size - back })) by {
                    vstd::arithmetic::div_mod::lemma_fundamental_div_mod(-sum as int, size as int);
                    let q = (-sum) / (size as int);
                    if back == 0 {
                        assert(sum == -q * size) by (nonlinear_arith)
                            requires
                                -sum == size * q,
                        ;
                        vstd::arithmetic::div_mod::lemma_fundamental_div_mod_converse(sum as int, size as int, -q, 0);
                    } else {
                        assert(sum == size * (-q - 1) + (size - back)) by (nonlinear_arith)
                            requires
                                -sum == size * q + back,
                        ;
                        vstd::arithmetic::div_mod::lemma_fundamental_div_mod_converse(
                            sum as int,
                            size as int,
                            -q - 1,
                            size - back,
                        );
                    }
                }
            }
        }
        Some(next as i32)
    }
}

/// A pixel of the remote frame: the point, held within the frame. `None` without a frame.
pub open spec fn within_frame(x: i32, y: i32, w: usize, h: usize) -> (i32, i32) {
    (held(x, w), held(y, h))
}

/// `v`, held within `0..size`.
pub open spec fn held(v: i32, size: usize) -> i32 {
    if v < 0 {
        0
    } else if v >= size {
        (size - 1) as i32
    } else {
        v
    }
}

fn hold(v: i32, size: usize) -> (r: i32)
    requires
        0 < size <= i32::MAX,
    ensures
        r == held(v, size),
        0 <= r < size,
{
    if v < 0 {
        0
    } else if v as usize >= size {
        (size - 1) as i32
    } else {
        v
    }
}

/// Hold a point of the window that was moved into the frame's coordinates within the frame. `None`
/// while there is no frame.
pub fn clamp_remote(x: i32, y: i32, w: usize, h: usize) -> (r: Option<(i32, i32)>)
    requires
        w > 0 ==> 0 < h <= i32::MAX && w <= i32::MAX,
    ensures
        r == (if w == 0 { None } else { Some(within_frame(x, y, w, h)) }),
        r matches Some((rx, ry)) ==> 0 <= rx < w && 0 <= ry < h,
{
    if w == 0 {
        return None;
    }
    Some((hold(x, w), hold(y, h)))
}

/// Fill the drawing area with the backdrop: all that is drawn while there is no frame.
pub fn fill_backdrop(target: &mut Vec<u32>)
    ensures
        final(target)@.len() == old(target)@.len(),
        forall|i: int| 0 <= i < final(target)@.len() ==> final(target)@[i] == BACKDROP,
{
    let mut i: usize = 0;
    while i < target.len()
        invariant
            i <= target@.len(),
            target@.len() == old(target)@.len(),
            forall|j: int| 0 <= j < i ==> target@[j] == BACKDROP,
        decreases target@.len() - i,
    {
        target.set(i, BACKDROP);
        i = i + 1;
    }
}

// ── colours and points, in numbers ──

/// A packed colour has the opacity in its topmost byte, and below it what red, green and blue lack of
/// full brightness, blue in the lowest byte.
pub proof fn law_packed_bytes(r: u8, g: u8, b: u8, a: u8)
    ensures
        packed(r, g, b, a) == 16777216 * a + 65536 * (255 - r) + 256 * (255 - g) + (255 - b),
{
}

/// The `i`th point of a frame is made of its own four bytes: the opacity is the last of them, green the
/// second, and the first and the third are red and blue or blue and red, as the format says.
pub proof fn law_pixel_bytes(raw: Seq<u8>, i: int)
    requires
        0 <= i,
        4 * i + 4 <= raw.len(),
    ensures
        pixel(raw, i, ImageFormat::ABGR) == 16777216 * raw[4 * i + 3] + 65536 * (255 - raw[4 * i]) + 256 * (255 - raw[4 * i
            + 1]) + (255 - raw[4 * i + 2]),
        pixel(raw, i, ImageFormat::ARGB) == 16777216 * raw[4 * i + 3] + 65536 * (255 - raw[4 * i + 2]) + 256 * (255 - raw[4
            * i + 1]) + (255 - raw[4 * i]),
{
}

/// A frame is taken when it has a width and a height and its bytes are four for each point, or more.
pub proof fn law_frames_that_are_taken(raw: Seq<u8>, w: usize, h: usize)
    ensures
        w == 0 || h == 0 ==> !holds_frame(raw, w, h),
        w > 0 && h > 0 ==> (holds_frame(raw, w, h) <==> 4 * (w * h) <= raw.len()),
{
}

/// A point on the frame stays where it is; one off it goes to the nearest point on it, along each
/// direction by itself.
pub proof fn law_points_are_held(x: i32, y: i32, w: usize, h: usize)
    requires
        0 < w <= 0x7FFF_FFFF,
        0 < h <= 0x7FFF_FFFF,
    ensures
        ({
            let (hx, hy) = within_frame(x, y, w, h);
            &&& 0 <= x < w ==> hx == x
            &&& x < 0 ==> hx == 0
            &&& x >= w ==> hx == w - 1
            &&& 0 <= y < h ==> hy == y
            &&& y < 0 ==> hy == 0
            &&& y >= h ==> hy == h - 1
        }),
{
}

} // verus!
