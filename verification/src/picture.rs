//! Pixels on their way to the screen: how bright a frame is, and what is
//! uploaded to which texture.
use crate::bytes::copy_range;
use crate::frame::{FrameData, SourceFrame};
use vstd::prelude::*;

verus! {

/// How many places of a frame are looked at.
pub const SAMPLES: usize = 64;

/// Average brightness, out of 255, that a frame has to exceed to count as bright.
pub const BRIGHT_THRESHOLD: u32 = 12;

/// Sum of the first `n` of the bytes that stand `step` apart.
pub open spec fn plane_sum(bytes: Seq<u8>, step: int, n: nat) -> int
    decreases n,
{
    if n == 0 {
        0
    } else {
        plane_sum(bytes, step, (n - 1) as nat) + bytes[(n - 1) * step] as int
    }
}

/// BT.601 luma of the pixel that starts at `at`, in whole numbers.
pub open spec fn luma(bytes: Seq<u8>, at: int) -> int {
    (bytes[at] as int * 299 + bytes[at + 1] as int * 587 + bytes[at + 2] as int * 114) / 1000
}

/// Sum of the luma of the first `n` of the four byte pixels that stand `step`
/// pixels apart.
pub open spec fn luma_sum(bytes: Seq<u8>, step: int, n: nat) -> int
    decreases n,
{
    if n == 0 {
        0
    } else {
        luma_sum(bytes, step, (n - 1) as nat) + luma(bytes, (n - 1) * step * 4)
    }
}

/// The smaller of the two.
pub open spec fn smaller(a: int, b: int) -> int {
    if a <= b {
        a
    } else {
        b
    }
}

/// The average over evenly spaced places exceeds the threshold. A frame with
/// fewer places than are looked at is not bright.
pub open spec fn bright(f: SourceFrame) -> bool {
    match f.data {
        FrameData::Nv12(bytes) => {
            let len = smaller(f.width as int * f.height as int, bytes@.len() as int);
            len >= SAMPLES && plane_sum(bytes@, len / (SAMPLES as int), SAMPLES as nat) / (
            SAMPLES as int) > BRIGHT_THRESHOLD
        },
        FrameData::Rgb(bytes) => {
            let pixels = bytes@.len() as int / 4;
            pixels >= SAMPLES && luma_sum(bytes@, pixels / (SAMPLES as int), SAMPLES as nat) / (
            SAMPLES as int) > BRIGHT_THRESHOLD
        },
    }
}

proof fn lemma_place(i: int, len: int)
    by (nonlinear_arith)
    requires
        0 <= i < 64,
        64 <= len,
    ensures
        0 <= i * (len / 64),
        i * (len / 64) + len / 64 <= len,
        len / 64 >= 1,
{
}

/// Cheap luminance estimate: looks at 64 evenly spaced bytes of the Y plane, or
/// the luma of as many four byte pixels, and tells whether their average
/// crosses a small threshold.
pub fn frame_appears_bright(f: &SourceFrame) -> (r: bool)
    ensures
        r == bright(*f),
{
    match &f.data {
        FrameData::Nv12(bytes) => {
            assert(0 <= f.width * f.height <= 0xffff_ffff * 0xffff_ffff) by (nonlinear_arith)
                requires
                    0 <= f.width <= 0xffff_ffff,
                    0 <= f.height <= 0xffff_ffff,
            ;
            let area: u64 = f.width as u64 * f.height as u64;
            let len: usize = if area <= bytes.len() as u64 {
                area as usize
            } else {
                bytes.len()
            };
            if len < SAMPLES {
                return false;
            }
            let step: usize = len / SAMPLES;
            let mut sum: u32 = 0;
            let mut i: usize = 0;
            while i < SAMPLES
                invariant
                    i <= SAMPLES,
                    64 <= len <= bytes@.len(),
                    step == len / 64,
                    sum == plane_sum(bytes@, step as int, i as nat),
                    sum <= 255 * i,
                decreases SAMPLES - i,
            {
                proof {
                    lemma_place(i as int, len as int);
                }
                sum = sum + bytes[i * step] as u32;
                i = i + 1;
            }
            sum / 64 > BRIGHT_THRESHOLD
        },
        FrameData::Rgb(bytes) => {
            let total: usize = bytes.len();
            let pixels: usize = total / 4;
            if pixels < SAMPLES {
                return false;
            }
            let step: usize = pixels / SAMPLES;
            let mut sum: u32 = 0;
            let mut i: usize = 0;
            while i < SAMPLES
                invariant
                    i <= SAMPLES,
                    64 <= pixels,
                    total == bytes@.len(),
                    pixels == total / 4,
                    step == pixels / 64,
                    sum == luma_sum(bytes@, step as int, i as nat),
                    sum <= 255 * i,
                decreases SAMPLES - i,
            {
                proof {
                    lemma_place(i as int, pixels as int);
                }
                let base: usize = i * step * 4;
                let r: u32 = bytes[base] as u32;
                let g: u32 = bytes[base + 1] as u32;
                let b: u32 = bytes[base + 2] as u32;
                sum = sum + (r * 299 + g * 587 + b * 114) / 1000;
                i = i + 1;
            }
            sum / 64 > BRIGHT_THRESHOLD
        },
    }
}

/// Byte `i` of the RGBA form of `rgb`: the colours of a pixel, then full alpha.
pub open spec fn rgba_byte(rgb: Seq<u8>, i: int) -> u8 {
    if i % 4 == 3 {
        255
    } else {
        rgb[i / 4 * 3 + i % 4]
    }
}

/// The RGBA form of `rgb`. Bytes behind the last whole pixel are left out.
pub open spec fn rgba_of(rgb: Seq<u8>) -> Seq<u8> {
    Seq::new((rgb.len() / 3 * 4) as nat, |i: int| rgba_byte(rgb, i))
}

pub fn rgb_to_rgba(rgb: &[u8]) -> (out: Vec<u8>)
    ensures
        out@ == rgba_of(rgb@),
{
    let len: usize = rgb.len();
    let pixels: usize = len / 3;
    let mut out: Vec<u8> = Vec::new();
    let mut p: usize = 0;
    while p < pixels
        invariant
            p <= pixels,
            len == rgb@.len(),
            pixels == len / 3,
            out@.len() == 4 * p,
            forall|i: int| 0 <= i < out@.len() ==> #[trigger] out@[i] == rgba_byte(rgb@, i),
        decreases pixels - p,
    {
        let ghost before = out@;
        out.push(rgb[p * 3]);
        out.push(rgb[p * 3 + 1]);
        out.push(rgb[p * 3 + 2]);
        out.push(255);
        proof {
            assert forall|i: int| 0 <= i < out@.len() implies #[trigger] out@[i] == rgba_byte(
                rgb@,
                i,
            ) by {
                if i < before.len() {
                    assert(out@[i] == before[i]);
                }
            }
        }
        p = p + 1;
    }
    assert(out@ =~= rgba_of(rgb@));
    out
}

/// Each pixel keeps its colours and is opaque.
pub proof fn law_rgba_keeps_pixels(rgb: Seq<u8>, p: int)
    requires
        0 <= p < rgb.len() / 3,
    ensures
        rgba_of(rgb)[4 * p] == rgb[3 * p],
        rgba_of(rgb)[4 * p + 1] == rgb[3 * p + 1],
        rgba_of(rgb)[4 * p + 2] == rgb[3 * p + 2],
        rgba_of(rgb)[4 * p + 3] == 255,
{
}

/// Which pipeline draws.
#[derive(Debug, Clone, Copy, PartialEq, Eq, Structural)]
pub enum ActivePipeline {
    /// None: nothing has been uploaded yet.
    Idle,
    Rgb,
    Nv12,
}

/// What to write to the textures for one frame.
pub enum Upload {
    /// One RGBA texture.
    Rgb {
        /// The texture has to be made first.
        realloc: bool,
        width: u32,
        height: u32,
        pixels: Vec<u8>,
        bytes_per_row: u32,
    },
    /// A luma texture, and one of half the size for both chroma channels.
    Nv12 {
        /// The textures have to be made first.
        realloc: bool,
        width: u32,
        height: u32,
        luma: Vec<u8>,
        chroma: Vec<u8>,
        chroma_width: u32,
        chroma_height: u32,
        bytes_per_row: u32,
    },
}

/// The textures that have been made, and which of them is drawn.
#[derive(Debug, Clone, Copy)]
pub struct Textures {
    pub has_rgb: bool,
    pub rgb_size: (u32, u32),
    pub has_nv12: bool,
    pub nv12_size: (u32, u32),
    pub active: ActivePipeline,
    /// Size of the last frame that was uploaded.
    pub current: (u32, u32),
}

/// The frame can be uploaded: an RGBA row fits in 32 bits, an NV12 frame has a
/// whole luma plane.
pub open spec fn uploadable(f: SourceFrame) -> bool {
    match f.data {
        FrameData::Rgb(_) => f.width as int * 4 <= u32::MAX,
        FrameData::Nv12(bytes) => f.width as int * f.height as int <= bytes@.len(),
    }
}

/// Whether the frame can be uploaded.
pub fn can_upload(f: &SourceFrame) -> (r: bool)
    ensures
        r == uploadable(*f),
{
    match &f.data {
        FrameData::Rgb(_) => f.width as u64 * 4 <= u32::MAX as u64,
        FrameData::Nv12(bytes) => {
            assert(0 <= f.width * f.height <= 0xffff_ffff * 0xffff_ffff) by (nonlinear_arith)
                requires
                    0 <= f.width <= 0xffff_ffff,
                    0 <= f.height <= 0xffff_ffff,
            ;
            let area: u64 = f.width as u64 * f.height as u64;
            area <= bytes.len() as u64
        },
    }
}

impl Textures {
    /// No texture has been made and nothing is drawn.
    pub fn new() -> (t: Self)
        ensures
            t == (Textures {
                has_rgb: false,
                rgb_size: (0, 0),
                has_nv12: false,
                nv12_size: (0, 0),
                active: ActivePipeline::Idle,
                current: (0, 0),
            }),
    {
        Textures {
            has_rgb: false,
            rgb_size: (0, 0),
            has_nv12: false,
            nv12_size: (0, 0),
            active: ActivePipeline::Idle,
            current: (0, 0),
        }
    }

    /// What to write for `frame`. Textures are made anew only where there are
    /// none of that size, and the pipeline that fits the frame draws from now
    /// on.
    pub fn upload_frame(&mut self, frame: &SourceFrame) -> (up: Upload)
        requires
            uploadable(*frame),
        ensures
            match frame.data {
                FrameData::Rgb(rgb) => {
                    &&& up matches Upload::Rgb { realloc, width, height, pixels, bytes_per_row }
                    &&& realloc == (!old(self).has_rgb || old(self).rgb_size != (
                        frame.width,
                        frame.height,
                    ))
                    &&& width == frame.width
                    &&& height == frame.height
                    &&& pixels@ == rgba_of(rgb@)
                    &&& bytes_per_row == 4 * frame.width
                    &&& *final(self) == (Textures {
                        has_rgb: true,
                        rgb_size: (frame.width, frame.height),
                        active: ActivePipeline::Rgb,
                        current: (frame.width, frame.height),
                        ..*old(self)
                    })
                },
                FrameData::Nv12(nv12) => {
                    let area = frame.width as int * frame.height as int;
                    &&& up matches Upload::Nv12 {
                        realloc,
                        width,
                        height,
                        luma,
                        chroma,
                        chroma_width,
                        chroma_height,
                        bytes_per_row,
                    }
                    &&& realloc == (!old(self).has_nv12 || old(self).nv12_size != (
                        frame.width,
                        frame.height,
                    ))
                    &&& width == frame.width
                    &&& height == frame.height
                    &&& luma@ == nv12@.take(area)
                    &&& chroma@ == nv12@.skip(area)
                    &&& chroma_width == frame.width / 2
                    &&& chroma_height == frame.height / 2
                    &&& bytes_per_row == frame.width
                    &&& *final(self) == (Textures {
                        has_nv12: true,
                        nv12_size: (frame.width, frame.height),
                        active: ActivePipeline::Nv12,
                        current: (frame.width, frame.height),
                        ..*old(self)
                    })
                },
            },
    {
        let width: u32 = frame.width;
        let height: u32 = frame.height;
        self.current = (width, height);
        match &frame.data {
            FrameData::Rgb(rgb) => {
                let realloc: bool = !self.has_rgb || self.rgb_size.0 != width || self.rgb_size.1
                    != height;
                self.has_rgb = true;
                self.rgb_size = (width, height);
                self.active = ActivePipeline::Rgb;
                Upload::Rgb {
                    realloc,
                    width,
                    height,
                    pixels: rgb_to_rgba(rgb.as_slice()),
                    bytes_per_row: 4 * width,
                }
            },
            FrameData::Nv12(nv12) => {
                let realloc: bool = !self.has_nv12 || self.nv12_size.0 != width || self.nv12_size.1
                    != height;
                self.has_nv12 = true;
                self.nv12_size = (width, height);
                self.active = ActivePipeline::Nv12;
                let len: usize = nv12.len();
                assert(0 <= width * height) by (nonlinear_arith)
                    requires
                        0 <= width,
                        0 <= height,
                ;
                let area: usize = width as usize * height as usize;
                let luma: Vec<u8> = copy_range(nv12.as_slice(), 0, area);
                let chroma: Vec<u8> = copy_range(nv12.as_slice(), area, len);
                assert(luma@ =~= nv12@.take(area as int));
                assert(chroma@ =~= nv12@.skip(area as int));
                Upload::Nv12 {
                    realloc,
                    width,
                    height,
                    luma,
                    chroma,
                    chroma_width: width / 2,
                    chroma_height: height / 2,
                    bytes_per_row: width,
                }
            },
        }
    }

    /// Height of the picture that is drawn, one where there is none.
    pub fn image_height(&self) -> (h: u32)
        ensures
            h == match self.active {
                ActivePipeline::Rgb => if self.has_rgb {
                    self.rgb_size.1
                } else {
                    1
                },
                ActivePipeline::Nv12 => if self.has_nv12 {
                    self.nv12_size.1
                } else {
                    1
                },
                ActivePipeline::Idle => 1,
            },
    {
        match self.active {
            ActivePipeline::Rgb => if self.has_rgb {
                self.rgb_size.1
            } else {
                1
            },
            ActivePipeline::Nv12 => if self.has_nv12 {
                self.nv12_size.1
            } else {
                1
            },
            ActivePipeline::Idle => 1,
        }
    }
}

/// Luma and chroma together are the whole frame.
pub proof fn law_planes_make_up_the_frame(nv12: Seq<u8>, area: int)
    requires
        0 <= area <= nv12.len(),
    ensures
        nv12.take(area) + nv12.skip(area) == nv12,
{
    assert(nv12.take(area) + nv12.skip(area) =~= nv12);
}

/// The sum over places is that of the list of what stands there.
proof fn lemma_plane_fold(
    bytes: Seq<u8>,
    step: int,
    places: Seq<int>,
    plus: spec_fn(int, int) -> int,
    n: nat,
)
    requires
        n <= places.len(),
        forall|i: int| 0 <= i < places.len() ==> #[trigger] places[i] == bytes[i * step] as int,
        forall|a: int, b: int| #[trigger] plus(a, b) == a + b,
    ensures
        places.take(n as int).fold_left(0, plus) == plane_sum(bytes, step, n),
    decreases n,
{
    reveal_with_fuel(Seq::fold_left, 2);
    if n > 0 {
        lemma_plane_fold(bytes, step, places, plus, (n - 1) as nat);
        assert(places.take(n as int).drop_last() =~= places.take(n - 1));
        assert(places.take(n as int).last() == places[n - 1]);
    }
}

/// As `lemma_plane_fold`, for pixels of four bytes.
proof fn lemma_luma_fold(
    bytes: Seq<u8>,
    step: int,
    places: Seq<int>,
    plus: spec_fn(int, int) -> int,
    n: nat,
)
    requires
        n <= places.len(),
        forall|i: int| 0 <= i < places.len() ==> #[trigger] places[i] == luma(bytes, i * step * 4),
        forall|a: int, b: int| #[trigger] plus(a, b) == a + b,
    ensures
        places.take(n as int).fold_left(0, plus) == luma_sum(bytes, step, n),
    decreases n,
{
    reveal_with_fuel(Seq::fold_left, 2);
    if n > 0 {
        lemma_luma_fold(bytes, step, places, plus, (n - 1) as nat);
        assert(places.take(n as int).drop_last() =~= places.take(n - 1));
        assert(places.take(n as int).last() == places[n - 1]);
    }
}

/// An NV12 frame is bright just where the 64 bytes that are spread evenly over
/// its luma plane add up to thirteen each.
pub proof fn law_luma_plane_decides(f: SourceFrame, bytes: std::sync::Arc<Vec<u8>>)
    requires
        f.data == FrameData::Nv12(bytes),
    ensures
        ({
            let area = f.width as int * f.height as int;
            let len = if area <= bytes@.len() {
                area
            } else {
                bytes@.len() as int
            };
            let places = Seq::new(64, |i: int| bytes@[i * (len / 64)] as int);
            bright(f) <==> len >= 64 && places.fold_left(0, |a: int, b: int| a + b) >= 64 * 13
        }),
{
    let area = f.width as int * f.height as int;
    let len = if area <= bytes@.len() {
        area
    } else {
        bytes@.len() as int
    };
    let places = Seq::new(64, |i: int| bytes@[i * (len / 64)] as int);
    let plus = |a: int, b: int| a + b;
    lemma_plane_fold(bytes@, len / 64, places, plus, 64);
    assert(places.take(64) =~= places);
}

/// A frame of four byte pixels is bright just where the luma of 64 pixels that
/// are spread evenly over it adds up to thirteen each.
pub proof fn law_pixel_luma_decides(f: SourceFrame, bytes: std::sync::Arc<Vec<u8>>)
    requires
        f.data == FrameData::Rgb(bytes),
    ensures
        ({
            let pixels = bytes@.len() as int / 4;
            let places = Seq::new(
                64,
                |i: int|
                    (bytes@[i * (pixels / 64) * 4] * 299 + bytes@[i * (pixels / 64) * 4 + 1] * 587
                        + bytes@[i * (pixels / 64) * 4 + 2] * 114) / 1000,
            );
            bright(f) <==> pixels >= 64 && places.fold_left(0, |a: int, b: int| a + b) >= 64 * 13
        }),
{
    let pixels = bytes@.len() as int / 4;
    let places = Seq::new(
        64,
        |i: int|
            (bytes@[i * (pixels / 64) * 4] * 299 + bytes@[i * (pixels / 64) * 4 + 1] * 587
                + bytes@[i * (pixels / 64) * 4 + 2] * 114) / 1000,
    );
    let plus = |a: int, b: int| a + b;
    lemma_luma_fold(bytes@, pixels / 64, places, plus, 64);
    assert(places.take(64) =~= places);
}

/// Bounds on what stands at the places are bounds on their sum.
proof fn lemma_plane_bounds(bytes: Seq<u8>, len: int, lo: int, hi: int, n: nat)
    requires
        64 <= len <= bytes.len(),
        n <= 64,
        forall|j: int| 0 <= j < len ==> lo <= #[trigger] bytes[j] <= hi,
    ensures
        lo * n <= plane_sum(bytes, len / 64, n) <= hi * n,
    decreases n,
{
    if n > 0 {
        lemma_plane_bounds(bytes, len, lo, hi, (n - 1) as nat);
        lemma_place(n - 1, len);
        let b = bytes[(n - 1) * (len / 64)];
        assert(lo <= b <= hi);
        assert(lo * n == lo * (n - 1) + lo && hi * n == hi * (n - 1) + hi) by (nonlinear_arith);
    } else {
        assert(lo * 0 == 0 && hi * 0 == 0) by (nonlinear_arith);
    }
}

/// A frame with a luma of twelve or less everywhere is not bright, and one with
/// more everywhere is, once it has 64 pixels; one with fewer never is.
pub proof fn law_dark_and_light_frames(f: SourceFrame, bytes: std::sync::Arc<Vec<u8>>)
    requires
        f.data == FrameData::Nv12(bytes),
        f.width as int * f.height as int <= bytes@.len(),
    ensures
        ({
            let area = f.width as int * f.height as int;
            &&& area < 64 ==> !bright(f)
            &&& (forall|j: int| 0 <= j < area ==> #[trigger] bytes@[j] <= 12) ==> !bright(f)
            &&& area >= 64 && (forall|j: int| 0 <= j < area ==> #[trigger] bytes@[j] > 12)
                ==> bright(f)
        }),
{
    let area = f.width as int * f.height as int;
    if area >= 64 {
        if forall|j: int| 0 <= j < area ==> #[trigger] bytes@[j] <= 12 {
            lemma_plane_bounds(bytes@, area, 0, 12, 64);
        }
        if forall|j: int| 0 <= j < area ==> #[trigger] bytes@[j] > 12 {
            lemma_plane_bounds(bytes@, area, 13, 255, 64);
        }
    }
}

/// Where two planes agree, so do the sums over their places.
proof fn lemma_plane_same(a: Seq<u8>, b: Seq<u8>, len: int, n: nat)
    requires
        64 <= len <= a.len(),
        len <= b.len(),
        n <= 64,
        forall|j: int| 0 <= j < len ==> #[trigger] a[j] == b[j],
    ensures
        plane_sum(a, len / 64, n) == plane_sum(b, len / 64, n),
    decreases n,
{
    if n > 0 {
        lemma_plane_same(a, b, len, (n - 1) as nat);
        lemma_place(n - 1, len);
        assert(a[(n - 1) * (len / 64)] == b[(n - 1) * (len / 64)]);
    }
}

/// Colour plays no part: frames of one size with the same luma plane are both
/// bright or both not, whatever their chroma.
pub proof fn law_chroma_does_not_brighten(
    f: SourceFrame,
    g: SourceFrame,
    a: std::sync::Arc<Vec<u8>>,
    b: std::sync::Arc<Vec<u8>>,
)
    requires
        f.data == FrameData::Nv12(a),
        g.data == FrameData::Nv12(b),
        f.width == g.width,
        f.height == g.height,
        f.width as int * f.height as int <= a@.len(),
        f.width as int * f.height as int <= b@.len(),
        forall|j: int| 0 <= j < f.width as int * f.height as int ==> #[trigger] a@[j] == b@[j],
    ensures
        bright(f) == bright(g),
{
    let area = f.width as int * f.height as int;
    if area >= 64 {
        lemma_plane_same(a@, b@, area, 64);
    }
}

/// Luma is a mix of the colours that is rounded down: a grey pixel has its own
/// value, and no pixel has more than its largest or less than its smallest.
pub proof fn law_luma_of_a_pixel(bytes: Seq<u8>, at: int)
    ensures
        luma(bytes, at) * 1000 <= 299 * bytes[at] + 587 * bytes[at + 1] + 114 * bytes[at + 2],
        299 * bytes[at] + 587 * bytes[at + 1] + 114 * bytes[at + 2] < (luma(bytes, at) + 1) * 1000,
        bytes[at] == bytes[at + 1] == bytes[at + 2] ==> luma(bytes, at) == bytes[at],
        0 <= luma(bytes, at) <= 255,
{
}

/// Three bytes become four: the RGBA form has as many whole pixels, and nothing
/// of a pixel that is cut off.
pub proof fn law_rgba_has_as_many_pixels(rgb: Seq<u8>)
    ensures
        rgba_of(rgb).len() % 4 == 0,
        rgba_of(rgb).len() / 4 == rgb.len() / 3,
{
}

/// A frame can be uploaded where a row of four byte pixels fits in 32 bits, or
/// where its luma plane is there.
pub proof fn law_what_can_be_uploaded(f: SourceFrame)
    ensures
        f.data is Rgb ==> (uploadable(f) <==> f.width <= 0x3fff_ffff),
        f.data matches FrameData::Nv12(bytes) ==> (uploadable(f) <==> bytes@.len() >= f.width
            * f.height),
{
}

} // verus!
