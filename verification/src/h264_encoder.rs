//! What the H.264 encoder is set up with, when it is asked for a keyframe, and
//! what is collected of its output.
use crate::text::{decimal, line, push_decimal};
use vstd::prelude::*;
use vstd::string::*;

verus! {

/// Smallest buffer that is handed to the encoder for its output.
pub const MIN_OUTPUT_BYTES: u32 = 0x10_0000;

/// Ticks of 100 ns in a second.
pub const TICKS_PER_SECOND: i64 = 10_000_000;

/// Two numbers as one, the first in the upper half.
pub open spec fn packed(hi: u32, lo: u32) -> int {
    hi as int * 0x1_0000_0000 + lo as int
}

/// Packs a size or a ratio the way media types hold them.
pub fn pack(hi: u32, lo: u32) -> (p: u64)
    ensures
        p == packed(hi, lo),
{
    let h: u64 = hi as u64;
    let l: u64 = lo as u64;
    assert(((h << 32) | l) == h * 0x1_0000_0000 + l) by (bit_vector)
        requires
            h <= 0xffff_ffff,
            l <= 0xffff_ffff,
    ;
    (h << 32) | l
}

/// A packed pair can be taken apart again.
pub proof fn law_packed_pair_comes_apart(hi: u32, lo: u32)
    ensures
        packed(hi, lo) / 0x1_0000_0000 == hi,
        packed(hi, lo) % 0x1_0000_0000 == lo,
{
}

/// What the encoder is set up with.
#[derive(Debug, Clone, Copy, PartialEq, Eq, Structural)]
pub struct EncoderSetup {
    pub bitrate_bps: u32,
    pub frame_size: u64,
    pub frame_rate: u64,
    pub pixel_aspect: u64,
    /// Frames from one keyframe to the next.
    pub gop_size: u32,
    pub b_frames: u32,
}

/// At least one.
pub open spec fn at_least_one(n: u32) -> u32 {
    if n >= 1 {
        n
    } else {
        1
    }
}

fn or_one(n: u32) -> (r: u32)
    ensures
        r == at_least_one(n),
{
    if n >= 1 {
        n
    } else {
        1
    }
}

/// The set-up for `width` x `height` frames at the given frame rate and average
/// bitrate: square pixels, a keyframe each second, no B frames.
pub fn encoder_setup(width: u32, height: u32, fps: u32, bitrate_bps: u32) -> (s: EncoderSetup)
    ensures
        s.bitrate_bps == bitrate_bps,
        s.frame_size == packed(width, height),
        s.frame_rate == packed(fps, 1),
        s.pixel_aspect == packed(1, 1),
        s.gop_size == at_least_one(fps),
        s.b_frames == 0,
{
    EncoderSetup {
        bitrate_bps,
        frame_size: pack(width, height),
        frame_rate: pack(fps, 1),
        pixel_aspect: pack(1, 1),
        gop_size: or_one(fps),
        b_frames: 0,
    }
}

/// Why there is no encoder to use.
#[derive(Debug, Clone, Copy, PartialEq, Eq, Structural)]
pub enum NoEncoder {
    /// The platform lists none.
    NoneListed,
    /// The platform lists some, but none of them is there.
    NoneThere,
}

impl NoEncoder {
    /// The error in words.
    pub fn message(&self) -> (s: &'static str)
        ensures
            s@ == match *self {
                NoEncoder::NoneListed => "no H264 encoder MFT available"@,
                NoEncoder::NoneThere => "MFTEnumEx returned null entries"@,
            },
    {
        match self {
            NoEncoder::NoneListed => "no H264 encoder MFT available",
            NoEncoder::NoneThere => "MFTEnumEx returned null entries",
        }
    }
}

/// Some hardware encoder is there.
pub open spec fn some_hardware(there: Seq<bool>, hardware: Seq<bool>) -> bool {
    exists|k: int| 0 <= k < there.len() && #[trigger] there[k] && hardware[k]
}

/// Encoder `k` may be used: it is there, and it is a hardware encoder wherever
/// one of those is there.
pub open spec fn usable(there: Seq<bool>, hardware: Seq<bool>, k: int) -> bool {
    &&& 0 <= k < there.len()
    &&& there[k]
    &&& some_hardware(there, hardware) ==> hardware[k]
}

/// The encoder to use, by its place in the platform's list: the first hardware
/// encoder that is there, or else the first encoder that is there.
pub fn pick_encoder(there: &[bool], hardware: &[bool]) -> (r: Result<usize, NoEncoder>)
    requires
        there@.len() == hardware@.len(),
    ensures
        r matches Ok(i) ==> i < there@.len() && there@[i as int],
        r matches Ok(i) ==> forall|j: int|
            0 <= j < there@.len() && #[trigger] there@[j] && hardware@[j] ==> hardware@[i as int] && i
                <= j,
        match r {
            Ok(i) => usable(there@, hardware@, i as int) && forall|j: int|
                0 <= j < i ==> !#[trigger] usable(there@, hardware@, j),
            Err(NoEncoder::NoneListed) => there@.len() == 0,
            Err(NoEncoder::NoneThere) => there@.len() > 0 && forall|j: int|
                0 <= j < there@.len() ==> !#[trigger] there@[j],
        },
{
    if there.len() == 0 {
        return Err(NoEncoder::NoneListed);
    }
    let mut software: Option<usize> = None;
    let mut i: usize = 0;
    while i < there.len()
        invariant
            i <= there@.len(),
            there@.len() == hardware@.len(),
            forall|j: int| 0 <= j < i && #[trigger] there@[j] ==> !hardware@[j],
            match software {
                Some(k) => k < i && there@[k as int] && forall|j: int|
                    0 <= j < k ==> !#[trigger] there@[j],
                None => forall|j: int| 0 <= j < i ==> !#[trigger] there@[j],
            },
        decreases there@.len() - i,
    {
        if there[i] {
            if hardware[i] {
                assert(some_hardware(there@, hardware@));
                return Ok(i);
            }
            if software.is_none() {
                software = Some(i);
            }
        }
        i = i + 1;
    }
    match software {
        Some(k) => Ok(k),
        None => Err(NoEncoder::NoneThere),
    }
}

/// Software is only the fallback: with both kinds there, a hardware encoder is
/// used.
pub proof fn law_hardware_is_preferred(there: Seq<bool>, hardware: Seq<bool>, i: int, k: int)
    requires
        usable(there, hardware, i),
        0 <= k < there.len(),
        there[k],
        hardware[k],
    ensures
        hardware[i],
{
    assert(some_hardware(there, hardware));
}

/// An NV12 frame that is too short for its dimensions.
#[derive(Debug, Clone, Copy, PartialEq, Eq, Structural)]
pub struct ShortFrame {
    pub len: usize,
}

impl ShortFrame {
    /// The error in words.
    pub fn message(&self) -> (s: String)
        ensures
            s@ == "NV12 frame shorter than expected: "@ + decimal(self.len as nat) + " bytes"@,
    {
        let mut out: String = line("NV12 frame shorter than expected: ");
        push_decimal(&mut out, self.len as u64);
        out.append(" bytes");
        out
    }
}

/// How a frame is handed to the encoder.
#[derive(Debug, Clone, Copy, PartialEq, Eq, Structural)]
pub struct Submission {
    /// When the frame is shown, in 100 ns ticks.
    pub time: i64,
    /// How long it is shown, in 100 ns ticks.
    pub duration: i64,
    /// Ask for a keyframe first.
    pub force_keyframe: bool,
}

/// Bytes of an NV12 frame: a full luma plane and two quarter chroma planes.
pub open spec fn nv12_len(width: u32, height: u32) -> int {
    width as int * height as int * 3 / 2
}

/// Frames since the last keyframe after one more, in 32 bits that stop at the
/// largest number.
pub open spec fn one_more(since: u32) -> int {
    if since == u32::MAX {
        u32::MAX as int
    } else {
        since + 1
    }
}

/// A keyframe is due with the next frame.
pub open spec fn keyframe_due(since: u32, interval: u32) -> bool {
    one_more(since) >= interval
}

/// Frames since the last keyframe once the next frame was handed over.
pub open spec fn since_after(since: u32, interval: u32) -> u32 {
    if keyframe_due(since, interval) {
        0
    } else {
        one_more(since) as u32
    }
}

/// Frames since the last keyframe once `n` frames were handed over.
pub open spec fn since_after_frames(since: u32, interval: u32, n: nat) -> u32
    decreases n,
{
    if n == 0 {
        since
    } else {
        since_after(since_after_frames(since, interval, (n - 1) as nat), interval)
    }
}

/// The first frame of an encoder asks for a keyframe, and so does every
/// `interval`th after it and no other: after a keyframe, `n` more frames leave
/// the count at `n` modulo the interval.
pub proof fn law_keyframe_cadence(interval: u32, n: nat)
    requires
        interval >= 1,
    ensures
        keyframe_due(u32::MAX, interval),
        since_after(u32::MAX, interval) == 0,
        since_after_frames(0, interval, n) as int == n as int % interval as int,
        keyframe_due(since_after_frames(0, interval, n), interval) <==> (n as int + 1) % (
        interval as int) == 0,
    decreases n,
{
    if n == 0 {
        assert(0int % (interval as int) == 0) by (nonlinear_arith)
            requires
                interval >= 1,
        ;
        lemma_next_rest(0, interval as int);
    } else {
        law_keyframe_cadence(interval, (n - 1) as nat);
        lemma_next_rest(n - 1, interval as int);
        lemma_next_rest(n as int, interval as int);
    }
}

/// The remainder of the next number.
proof fn lemma_next_rest(n: int, m: int)
    by (nonlinear_arith)
    requires
        n >= 0,
        m >= 1,
    ensures
        0 <= n % m < m,
        (n + 1) % m == if n % m + 1 == m {
            0
        } else {
            n % m + 1
        },
{
    let q = n / m;
    let r = n % m;
    assert(n == q * m + r);
    assert(0 <= r < m);
    if r + 1 == m {
        assert(n + 1 == (q + 1) * m);
        assert((n + 1) % m == 0);
    } else {
        assert(n + 1 == q * m + (r + 1));
        assert((n + 1) % m == r + 1);
    }
}

/// State of one configured encoder.
#[derive(Debug)]
pub struct H264Encoder {
    pub width: u32,
    pub height: u32,
    pub fps_num: u32,
    pub fps_den: u32,
    /// Annex-B SPS/PPS prefix to prepend to the first IDR. Some encoders put
    /// them inline already, in which case this is empty.
    pub extra_data: Vec<u8>,
    /// How many frames between forced keyframes.
    pub keyframe_interval: u32,
    pub frames_since_idr: u32,
}

impl H264Encoder {
    /// An encoder for `width` x `height` frames at the given frame rate. Its
    /// first frame asks for a keyframe.
    pub fn new(width: u32, height: u32, fps: u32) -> (e: Self)
        ensures
            e.width == width,
            e.height == height,
            e.fps_num == fps,
            e.fps_den == 1,
            e.extra_data@ == Seq::<u8>::empty(),
            e.keyframe_interval == at_least_one(fps),
            keyframe_due(e.frames_since_idr, e.keyframe_interval),
            e.frames_since_idr == u32::MAX,
    {
        let e = H264Encoder {
            width,
            height,
            fps_num: fps,
            fps_den: 1,
            extra_data: Vec::new(),
            keyframe_interval: or_one(fps),
            frames_since_idr: u32::MAX,
        };
        assert(e.extra_data@ =~= Seq::<u8>::empty());
        e
    }

    /// How to hand over one NV12 frame with the given monotonic timestamp in
    /// 100 ns units. A frame that is too short is refused and not counted.
    pub fn encode(&mut self, nv12: &[u8], timestamp_100ns: i64) -> (r: Result<
        Submission,
        ShortFrame,
    >)
        ensures
            if nv12@.len() < nv12_len(old(self).width, old(self).height) {
                &&& r matches Err(e)
                &&& e.len == nv12@.len()
                &&& *final(self) == *old(self)
            } else {
                &&& r matches Ok(s)
                &&& s.time == timestamp_100ns
                &&& s.duration == TICKS_PER_SECOND as int * old(self).fps_den as int
                    / at_least_one(old(self).fps_num) as int
                &&& s.force_keyframe == keyframe_due(
                    old(self).frames_since_idr,
                    old(self).keyframe_interval,
                )
                &&& *final(self) == (H264Encoder {
                    frames_since_idr: since_after(
                        old(self).frames_since_idr,
                        old(self).keyframe_interval,
                    ),
                    ..*old(self)
                })
            },
            r is Ok <==> 2 * nv12@.len() + 1 >= 3 * (old(self).width * old(self).height),
            r matches Ok(s) ==> old(self).fps_num >= 1 ==> {
                &&& s.duration * old(self).fps_num <= 10_000_000 * old(self).fps_den
                &&& 10_000_000 * old(self).fps_den < (s.duration + 1) * old(self).fps_num
            },
    {
        let len: usize = nv12.len();
        assert(0 <= self.width * self.height <= 0xffff_ffff * 0xffff_ffff) by (nonlinear_arith)
            requires
                0 <= self.width <= 0xffff_ffff,
                0 <= self.height <= 0xffff_ffff,
        ;
        let pixels: u64 = self.width as u64 * self.height as u64;
        let expected: u128 = pixels as u128 * 3 / 2;
        if (len as u128) < expected {
            return Err(ShortFrame { len });
        }
        let num: u32 = or_one(self.fps_num);
        let duration: i64 = TICKS_PER_SECOND * (self.fps_den as i64) / (num as i64);
        proof {
            let ticks = TICKS_PER_SECOND as int * self.fps_den as int;
            let n = num as int;
            assert((ticks / n) * n <= ticks < (ticks / n + 1) * n) by (nonlinear_arith)
                requires
                    0 <= ticks,
                    1 <= n,
            ;
        }
        let since: u32 = self.frames_since_idr.saturating_add(1);
        let force_keyframe: bool = since >= self.keyframe_interval;
        self.frames_since_idr = if force_keyframe {
            0
        } else {
            since
        };
        Ok(Submission { time: timestamp_100ns, duration, force_keyframe })
    }
}

/// Bytes to provide for the encoder's output where it asks for `wanted`; `None`
/// where it provides its own buffer.
pub fn output_buffer(provides_samples: bool, wanted: u32) -> (r: Option<u32>)
    ensures
        r == if provides_samples {
            None
        } else if wanted >= MIN_OUTPUT_BYTES {
            Some(wanted)
        } else {
            Some(MIN_OUTPUT_BYTES)
        },
        !provides_samples && wanted >= 0x10_0000 ==> r == Some(wanted),
        !provides_samples && wanted < 0x10_0000 ==> r == Some(0x10_0000u32),
{
    if provides_samples {
        None
    } else if wanted >= MIN_OUTPUT_BYTES {
        Some(wanted)
    } else {
        Some(MIN_OUTPUT_BYTES)
    }
}

/// Bytes of a sample that can be read: what its buffer holds, up to the
/// sample's length.
pub fn readable_len(buffer_len: u32, sample_len: u32) -> (n: u32)
    ensures
        n == if buffer_len <= sample_len {
            buffer_len
        } else {
            sample_len
        },
{
    if buffer_len <= sample_len {
        buffer_len
    } else {
        sample_len
    }
}

/// What the encoder answered when it was asked for output.
pub enum OutputEvent {
    /// A sample with these bytes.
    Sample(Vec<u8>),
    /// Success, but no sample.
    NoSample,
    /// It needs more input first.
    NeedMoreInput,
    /// It is changing its output format.
    StreamChange,
    /// It failed.
    Failed,
}

/// Why the output could not be collected.
#[derive(Debug, Clone, Copy, PartialEq, Eq, Structural)]
pub enum DrainError {
    NoSample,
    Failed,
}

/// Takes one answer of the encoder: keeps the bytes of a sample that has any,
/// and says whether to ask again.
pub fn drain_step(out: &mut Vec<Vec<u8>>, event: OutputEvent) -> (r: Result<bool, DrainError>)
    ensures
        match event {
            OutputEvent::Sample(bytes) => {
                &&& r == Ok::<bool, DrainError>(true)
                &&& final(out)@ == if bytes@.len() > 0 {
                    old(out)@.push(bytes)
                } else {
                    old(out)@
                }
            },
            OutputEvent::NoSample => {
                &&& r == Err::<bool, DrainError>(DrainError::NoSample)
                &&& final(out)@ == old(out)@
            },
            OutputEvent::Failed => {
                &&& r == Err::<bool, DrainError>(DrainError::Failed)
                &&& final(out)@ == old(out)@
            },
            _ => {
                &&& r == Ok::<bool, DrainError>(false)
                &&& final(out)@ == old(out)@
            },
        },
{
    match event {
        OutputEvent::Sample(bytes) => {
            if !bytes.is_empty() {
                out.push(bytes);
            }
            Ok(true)
        },
        OutputEvent::NoSample => Err(DrainError::NoSample),
        OutputEvent::NeedMoreInput => Ok(false),
        OutputEvent::StreamChange => Ok(false),
        OutputEvent::Failed => Err(DrainError::Failed),
    }
}

/// A frame of even sides is as long as its parts: a byte of luma for each pixel,
/// and for each block of two by two pixels one byte of either chroma.
pub proof fn law_nv12_is_luma_and_quarter_chroma(width: u32, height: u32)
    requires
        width % 2 == 0,
        height % 2 == 0,
    ensures
        nv12_len(width, height) == width as int * height as int + 2 * ((width / 2) as int * (height
            / 2) as int),
{
    let w = (width / 2) as int;
    let h = (height / 2) as int;
    assert((2 * w) * (2 * h) * 3 / 2 == (2 * w) * (2 * h) + 2 * (w * h)) by (nonlinear_arith);
}

/// The length depends on both sides alike: turned by a quarter a frame is as
/// long, two more rows add three bytes for each column, and a frame without rows
/// or columns is empty.
pub proof fn law_nv12_grows_with_both_sides(width: u32, height: u32)
    ensures
        nv12_len(width, height) == nv12_len(height, width),
        height <= 0xffff_fffd ==> nv12_len(width, (height + 2) as u32) == nv12_len(width, height) + 3
            * width,
        width <= 0xffff_fffd ==> nv12_len((width + 2) as u32, height) == nv12_len(width, height) + 3
            * height,
        nv12_len(0, height) == 0,
        nv12_len(width, 0) == 0,
{
    let w = width as int;
    let h = height as int;
    assert(w * h == h * w) by (nonlinear_arith);
    assert(w * (h + 2) * 3 == w * h * 3 + 2 * (3 * w)) by (nonlinear_arith);
    assert((w + 2) * h * 3 == w * h * 3 + 2 * (3 * h)) by (nonlinear_arith);
    assert(0 * h * 3 == 0 && w * 0 * 3 == 0) by (nonlinear_arith);
}

/// A packed pair is the first number in the upper 32 bits and the second in the
/// lower: one more of the second adds one, one more of the first adds 2^32, and
/// different pairs are packed differently.
pub proof fn law_packed_pairs_differ(a: u32, b: u32, c: u32, d: u32)
    ensures
        packed(a, b) == packed(c, d) <==> a == c && b == d,
        packed(0, b) == b,
        packed(a, b) - packed(0, b) == a * 0x1_0000_0000,
{
}

/// A number of frames that is there stays, and in the place of none stands one.
pub proof fn law_at_least_one(n: u32)
    ensures
        at_least_one(n) >= 1,
        n >= 1 ==> at_least_one(n) == n,
        n == 0 ==> at_least_one(n) == 1,
{
}

/// The encoder to use is the first there of its kind: none before it is hardware
/// and there, and where it is no hardware encoder, none before it is there and
/// no hardware encoder at all.
pub proof fn law_first_encoder_of_its_kind(there: Seq<bool>, hardware: Seq<bool>, i: int, j: int)
    requires
        usable(there, hardware, i),
        forall|k: int| 0 <= k < i ==> !#[trigger] usable(there, hardware, k),
        0 <= j < there.len(),
        there[j],
    ensures
        0 <= i < there.len(),
        there[i],
        hardware[j] ==> hardware[i] && i <= j,
        !hardware[i] ==> i <= j && !hardware[j],
{
    if hardware[j] {
        assert(some_hardware(there, hardware));
    }
    if j < i {
        assert(!usable(there, hardware, j));
    }
}

/// A keyframe is asked for as soon as `interval` frames went by since the last
/// one, and not before; then the count starts over, else it goes up by one.
pub proof fn law_keyframe_after_the_interval(since: u32, interval: u32)
    ensures
        keyframe_due(since, interval) <==> since + 1 >= interval,
        since + 1 >= interval ==> since_after(since, interval) == 0,
        since + 1 < interval ==> since_after(since, interval) == since + 1,
{
}

} // verus!
