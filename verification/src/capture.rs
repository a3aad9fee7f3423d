//! The capture loop: decoding what the device hands over, publishing frames,
//! and keeping count for the log.
use crate::camera_format::{
    law_sorting_keeps_modes, sort_formats, stably_sorted, CameraFormat, FrameFormat,
};
use crate::devices::{mode_text, push_mode, texts};
use crate::frame::{fits, Frame, SharedFrame, UiEvent};
use crate::text::{decimal, line, push_decimal};
use std::sync::Arc;
use vstd::prelude::*;
use vstd::string::*;

verus! {

/// The lines that list the modes of a device.
pub open spec fn mode_list(device_index: u32, modes: Seq<CameraFormat>) -> Seq<Seq<char>> {
    seq![
        "Device "@ + decimal(device_index as nat) + " supports "@ + decimal(modes.len())
            + " modes:"@,
    ] + Seq::new(modes.len(), |i: int| "  "@ + mode_text(modes[i]))
}

/// The lines that list every mode a device reports, best first. Useful for
/// diagnosing capture cards that lie about their modes.
pub fn probe(device_index: u32, formats: Vec<CameraFormat>) -> (lines: Vec<String>)
    ensures
        exists|sorted: Seq<CameraFormat>| #[trigger]
            stably_sorted(formats@, sorted) && texts(lines@) == mode_list(device_index, sorted),
        lines@.len() == formats@.len() + 1,
        lines@[0]@ == "Device "@ + decimal(device_index as nat) + " supports "@ + decimal(
            formats@.len(),
        ) + " modes:"@,
{
    let mut sorted = formats;
    sort_formats(&mut sorted);
    let mut lines: Vec<String> = Vec::new();
    let mut head = line("Device ");
    push_decimal(&mut head, device_index as u64);
    head.append(" supports ");
    push_decimal(&mut head, sorted.len() as u64);
    head.append(" modes:");
    lines.push(head);
    let mut i: usize = 0;
    while i < sorted.len()
        invariant
            i <= sorted@.len(),
            lines@.len() == i + 1,
            lines@[0]@ == mode_list(device_index, sorted@)[0],
            forall|j: int|
                0 <= j < i ==> (#[trigger] lines@[j + 1])@ == "  "@ + mode_text(sorted@[j]),
        decreases sorted@.len() - i,
    {
        let mut out = line("  ");
        push_mode(&mut out, &sorted[i]);
        lines.push(out);
        i = i + 1;
    }
    proof {
        let expected = mode_list(device_index, sorted@);
        assert forall|k: int| 0 <= k < expected.len() implies texts(lines@)[k] == expected[k] by {
            if k > 0 {
                assert(lines@[(k - 1) + 1] == lines@[k]);
            }
        }
        assert(texts(lines@) =~= expected);
        assert(stably_sorted(formats@, sorted@));
        law_sorting_keeps_modes(formats@, sorted@);
    }
    lines
}

/// Declares `nokhwa::NokhwaError`.
#[verifier::external_type_specification]
#[verifier::external_body]
pub struct ExNokhwaError(nokhwa::NokhwaError);

/// How many RGB bytes a raw frame of `len` bytes decodes to; `None` where it
/// cannot be decoded. Nothing is said of MJPEG, whose frames are no raw ones.
pub open spec fn decoded_len(format: FrameFormat, width: int, height: int, len: int) -> Option<
    int,
>
    recommends
        format != FrameFormat::MJPEG,
{
    let bytes = match format {
        FrameFormat::RAWRGB => Some(len),
        FrameFormat::RAWBGR => Some(len),
        FrameFormat::GRAY => Some(3 * len),
        FrameFormat::YUYV => if len % 4 == 0 {
            Some(6 * (len / 4))
        } else {
            None
        },
        FrameFormat::NV12 => if width % 2 == 0 && height % 2 == 0 && len == width * height * 3 / 2 {
            Some(width * height * 3)
        } else {
            None
        },
        FrameFormat::MJPEG => None,
    };
    match bytes {
        Some(n) => if n >= width * height * 3 {
            Some(n)
        } else {
            None
        },
        None => None,
    }
}

/// Raw frames that can be handed to the decoder: not MJPEG, whose decoder
/// unwinds on damaged data, and within the decoder's own arithmetic.
pub open spec fn decodable(format: FrameFormat, width: int, height: int, len: int) -> bool {
    &&& format != FrameFormat::MJPEG
    &&& 3 * len <= isize::MAX
    &&& format == FrameFormat::NV12 ==> width * 3 <= u32::MAX && width * height * 3 <= u32::MAX
        && width * height * 3 <= isize::MAX && (width > 0 || len > 0)
}

/// Whether a raw frame can be handed to the decoder.
pub fn can_decode(format: FrameFormat, width: u32, height: u32, len: usize) -> (r: bool)
    ensures
        r == decodable(format, width as int, height as int, len as int),
{
    assert(0 <= width * height <= 0xffff_ffff * 0xffff_ffff) by (nonlinear_arith)
        requires
            0 <= width <= 0xffff_ffff,
            0 <= height <= 0xffff_ffff,
    ;
    let pixels: u64 = width as u64 * height as u64;
    if format == FrameFormat::MJPEG || 3 * (len as u128) > isize::MAX as u128 {
        return false;
    }
    let bytes: u128 = pixels as u128 * 3;
    format != FrameFormat::NV12 || (width as u64 * 3 <= u32::MAX as u64 && bytes <= u32::MAX as u128
        && bytes <= isize::MAX as u128 && (width > 0 || len > 0))
}

/// The byte nearest to `x`.
pub open spec fn to_byte(x: int) -> u8 {
    if x < 0 {
        0
    } else if x > 255 {
        255
    } else {
        x as u8
    }
}

/// Red, green or blue, for channel 0, 1 or 2, of a pixel given by luma and both
/// chroma values: BT.601 in whole numbers.
pub open spec fn channel_of(y: u8, u: u8, v: u8, channel: int) -> u8 {
    let luma = (y - 16) * 298 + 128;
    if channel == 0 {
        to_byte((luma + 409 * (v - 128)) / 256)
    } else if channel == 1 {
        to_byte((luma - 100 * (u - 128) - 208 * (v - 128)) / 256)
    } else {
        to_byte((luma + 516 * (u - 128)) / 256)
    }
}

/// Byte `i` of the RGB form of a raw frame. RGB bytes stay as they are, BGR
/// bytes change places and an unfinished pixel is black, grey bytes come three
/// times. In YUYV two pixels share their chroma, in NV12 two by two. Nothing is
/// said of MJPEG.
pub open spec fn decoded_byte(
    format: FrameFormat,
    width: int,
    height: int,
    data: Seq<u8>,
    i: int,
) -> u8
    recommends
        format != FrameFormat::MJPEG,
{
    let pixel = i / 3;
    match format {
        FrameFormat::RAWRGB => data[i],
        FrameFormat::RAWBGR => if i < data.len() / 3 * 3 {
            data[pixel * 3 + (2 - i % 3)]
        } else {
            0
        },
        FrameFormat::GRAY => data[pixel],
        FrameFormat::YUYV => {
            let pair = pixel / 2 * 4;
            channel_of(data[pair + pixel % 2 * 2], data[pair + 1], data[pair + 3], i % 3)
        },
        FrameFormat::NV12 => {
            let chroma = width * height + pixel / width / 2 * width + pixel % width / 2 * 2;
            channel_of(data[pixel], data[chroma], data[chroma + 1], i % 3)
        },
        FrameFormat::MJPEG => 0,
    }
}

/// The RGB form of a raw frame that can be decoded.
pub open spec fn decoded_pixels(format: FrameFormat, width: u32, height: u32, data: Seq<u8>) -> Seq<
    u8,
>
    recommends
        format != FrameFormat::MJPEG,
{
    Seq::new(
        decoded_len(format, width as int, height as int, data.len() as int)->0 as nat,
        |i: int| decoded_byte(format, width as int, height as int, data, i),
    )
}

/// Calls `nokhwa::Buffer::decode_image` for `nokhwa::pixel_format::RgbFormat`
/// on a `nokhwa::Buffer::new` of the given frame. Claims when it succeeds, how
/// many bytes it then gives, and which they are.
#[verifier::external_body]
fn decode_raw(format: FrameFormat, width: u32, height: u32, data: &[u8]) -> (r: Result<
    Vec<u8>,
    nokhwa::NokhwaError,
>)
    requires
        decodable(format, width as int, height as int, data@.len() as int),
    ensures
        r is Ok <==> decoded_len(format, width as int, height as int, data@.len() as int) is Some,
        r matches Ok(v) ==> v@ == decoded_pixels(format, width, height, data@),
        r matches Ok(v) ==> Some(v@.len() as int) == decoded_len(
            format,
            width as int,
            height as int,
            data@.len() as int,
        ),
{
    let source = match format {
        FrameFormat::MJPEG => nokhwa::utils::FrameFormat::MJPEG,
        FrameFormat::YUYV => nokhwa::utils::FrameFormat::YUYV,
        FrameFormat::NV12 => nokhwa::utils::FrameFormat::NV12,
        FrameFormat::GRAY => nokhwa::utils::FrameFormat::GRAY,
        FrameFormat::RAWRGB => nokhwa::utils::FrameFormat::RAWRGB,
        FrameFormat::RAWBGR => nokhwa::utils::FrameFormat::RAWBGR,
    };
    nokhwa::Buffer::new(nokhwa::utils::Resolution::new(width, height), data, source)
        .decode_image::<nokhwa::pixel_format::RgbFormat>()
        .map(|image| image.into_raw())
}

/// Calls `to_string` on a `nokhwa::NokhwaError`. Nothing is claimed of the text.
#[verifier::external_body]
fn error_text(e: &nokhwa::NokhwaError) -> String {
    e.to_string()
}

/// Why a frame could not be decoded.
#[derive(Debug)]
pub struct DecodeError {
    pub reason: String,
}

/// Decodes a raw frame to RGB bytes.
pub fn decode(format: FrameFormat, width: u32, height: u32, data: &[u8]) -> (r: Result<
    Vec<u8>,
    DecodeError,
>)
    requires
        decodable(format, width as int, height as int, data@.len() as int),
    ensures
        r is Ok <==> decoded_len(format, width as int, height as int, data@.len() as int) is Some,
        r matches Ok(v) ==> v@ == decoded_pixels(format, width, height, data@),
        r matches Ok(v) ==> Some(v@.len() as int) == decoded_len(
            format,
            width as int,
            height as int,
            data@.len() as int,
        ),
{
    match decode_raw(format, width, height, data) {
        Ok(rgb) => Ok(rgb),
        Err(e) => Err(DecodeError { reason: error_text(&e) }),
    }
}

/// The decoder gave a frame whose size does not fit its dimensions.
#[derive(Debug, Clone, Copy, PartialEq, Eq, Structural)]
pub struct UnexpectedFrameSize {
    pub len: usize,
    pub width: u32,
    pub height: u32,
}

impl UnexpectedFrameSize {
    /// What is said of it.
    pub open spec fn said(self) -> Seq<char> {
        "unexpected frame size: "@ + decimal(self.len as nat) + " bytes for "@ + decimal(
            self.width as nat,
        ) + "x"@ + decimal(self.height as nat)
    }

    /// The error in words.
    pub fn message(&self) -> (s: String)
        ensures
            s@ == self.said(),
            s@ == "unexpected frame size: "@ + decimal(self.len as nat) + " bytes for "@ + decimal(
                self.width as nat,
            ) + "x"@ + decimal(self.height as nat),
    {
        let mut out = line("unexpected frame size: ");
        push_decimal(&mut out, self.len as u64);
        out.append(" bytes for ");
        push_decimal(&mut out, self.width as u64);
        out.append("x");
        push_decimal(&mut out, self.height as u64);
        out
    }
}

/// How long failures and frames are counted before they are reported.
pub const REPORT_MS: u64 = 5000;

/// What came of one frame.
pub enum CaptureStep {
    /// It could not be decoded. `report` holds the failures since the last
    /// report where one is due.
    Skipped { report: Option<u64> },
    /// It was published: wake the event loop. `report` holds the frames since
    /// the last report where one is due.
    Published { notify: UiEvent, report: Option<u64> },
}

/// Counters of a running capture.
pub struct CaptureSession {
    seq: u64,
    decode_fails: u64,
    frames: u64,
}

/// What a counter shows after one more, and what of it is reported.
pub open spec fn counted(before: u64, since_ms: u64) -> (int, Option<int>) {
    if since_ms >= REPORT_MS {
        (0, Some(before + 1))
    } else {
        (before + 1, None)
    }
}

/// A report as an integer.
pub open spec fn reported(r: Option<u64>) -> Option<int> {
    match r {
        Some(n) => Some(n as int),
        None => None,
    }
}

/// The sequence number after `seq`; it starts over after the largest.
pub open spec fn next_seq(seq: u64) -> u64 {
    if seq == u64::MAX {
        0
    } else {
        (seq + 1) as u64
    }
}

/// A frame as it comes out of the decoder, and how long ago the last report of
/// failures and of frames was.
pub ghost struct Delivered {
    pub decoded: Result<Vec<u8>, DecodeError>,
    pub width: u32,
    pub height: u32,
    pub since_warn_ms: u64,
    pub since_log_ms: u64,
}

/// What comes of one frame. One that could not be decoded is counted and
/// publishes nothing; one whose size does not fit its dimensions changes
/// nothing and ends the capture; any other is published under the next sequence
/// number, and the event loop is to be woken.
pub open spec fn handled(
    before: CaptureSession,
    slot: SharedFrame,
    d: Delivered,
    after: CaptureSession,
    new_slot: SharedFrame,
    r: Result<CaptureStep, UnexpectedFrameSize>,
) -> bool {
    match d.decoded {
        Err(_) => {
            &&& r matches Ok(CaptureStep::Skipped { report })
            &&& (after.failed() as int, reported(report)) == counted(
                before.failed(),
                d.since_warn_ms,
            )
            &&& after.last_seq() == before.last_seq()
            &&& after.published() == before.published()
            &&& new_slot == slot
        },
        Ok(rgb) => if rgb@.len() == d.width * d.height * 3 {
            &&& r matches Ok(CaptureStep::Published { notify, report })
            &&& notify == UiEvent::FrameReady
            &&& (after.published() as int, reported(report)) == counted(
                before.published(),
                d.since_log_ms,
            )
            &&& after.last_seq() == next_seq(before.last_seq())
            &&& after.failed() == before.failed()
            &&& new_slot.newest() == Some(
                (Frame {
                    width: d.width,
                    height: d.height,
                    rgb: Arc::new(rgb),
                    seq: after.last_seq(),
                }),
            )
        } else {
            &&& r == Err::<CaptureStep, UnexpectedFrameSize>(
                (UnexpectedFrameSize { len: rgb.len(), width: d.width, height: d.height }),
            )
            &&& after == before
            &&& new_slot == slot
        },
    }
}

impl CaptureSession {
    /// Sequence number of the last published frame.
    pub closed spec fn last_seq(self) -> u64 {
        self.seq
    }

    /// Frames that could not be decoded since the last report.
    pub closed spec fn failed(self) -> u64 {
        self.decode_fails
    }

    /// Frames published since the last report.
    pub closed spec fn published(self) -> u64 {
        self.frames
    }

    /// A capture that has not delivered anything yet.
    pub fn new() -> (s: Self)
        ensures
            s.last_seq() == 0,
            s.failed() == 0,
            s.published() == 0,
    {
        CaptureSession { seq: 0, decode_fails: 0, frames: 0 }
    }

    pub fn seq(&self) -> (n: u64)
        ensures
            n == self.last_seq(),
    {
        self.seq
    }

    pub fn decode_fails(&self) -> (n: u64)
        ensures
            n == self.failed(),
    {
        self.decode_fails
    }

    pub fn frames_since_log(&self) -> (n: u64)
        ensures
            n == self.published(),
    {
        self.frames
    }

    /// Takes one decoded frame, or the failure to decode it. A frame is
    /// published under the next sequence number; one whose size does not fit
    /// its dimensions ends the capture. `since_warn_ms` and `since_log_ms` say
    /// how long ago the last report of failures and of frames was.
    pub fn handle(
        &mut self,
        decoded: Result<Vec<u8>, DecodeError>,
        width: u32,
        height: u32,
        sink: &mut SharedFrame,
        since_warn_ms: u64,
        since_log_ms: u64,
    ) -> (r: Result<CaptureStep, UnexpectedFrameSize>)
        requires
            old(self).failed() < u64::MAX,
            old(self).published() < u64::MAX,
        ensures
            handled(
                *old(self),
                *old(sink),
                (Delivered { decoded, width, height, since_warn_ms, since_log_ms }),
                *final(self),
                *final(sink),
                r,
            ),
    {
        match decoded {
            Err(_) => {
                let fails: u64 = self.decode_fails + 1;
                if since_warn_ms >= REPORT_MS {
                    self.decode_fails = 0;
                    Ok(CaptureStep::Skipped { report: Some(fails) })
                } else {
                    self.decode_fails = fails;
                    Ok(CaptureStep::Skipped { report: None })
                }
            },
            Ok(rgb) => {
                let len: usize = rgb.len();
                if !fits(len, width, height) {
                    return Err(UnexpectedFrameSize { len, width, height });
                }
                self.seq = self.seq.wrapping_add(1);
                sink.publish(Frame { width, height, rgb: Arc::new(rgb), seq: self.seq });
                let frames: u64 = self.frames + 1;
                if since_log_ms >= REPORT_MS {
                    self.frames = 0;
                    Ok(CaptureStep::Published { notify: UiEvent::FrameReady, report: Some(frames) })
                } else {
                    self.frames = frames;
                    Ok(CaptureStep::Published { notify: UiEvent::FrameReady, report: None })
                }
            },
        }
    }

    /// Takes one frame as the device handed it over: decodes it and does with
    /// the outcome what `handle` does.
    pub fn raw_frame(
        &mut self,
        format: FrameFormat,
        width: u32,
        height: u32,
        data: &[u8],
        sink: &mut SharedFrame,
        since_warn_ms: u64,
        since_log_ms: u64,
    ) -> (r: Result<CaptureStep, UnexpectedFrameSize>)
        requires
            decodable(format, width as int, height as int, data@.len() as int),
            old(self).failed() < u64::MAX,
            old(self).published() < u64::MAX,
        ensures
            match decoded_len(format, width as int, height as int, data@.len() as int) {
                None => {
                    &&& r matches Ok(CaptureStep::Skipped { report })
                    &&& (final(self).failed() as int, reported(report)) == counted(
                        old(self).failed(),
                        since_warn_ms,
                    )
                    &&& final(self).last_seq() == old(self).last_seq()
                    &&& final(self).published() == old(self).published()
                    &&& *final(sink) == *old(sink)
                },
                Some(n) => if n == width * height * 3 {
                    &&& r matches Ok(CaptureStep::Published { notify, report })
                    &&& notify == UiEvent::FrameReady
                    &&& (final(self).published() as int, reported(report)) == counted(
                        old(self).published(),
                        since_log_ms,
                    )
                    &&& final(self).last_seq() == next_seq(old(self).last_seq())
                    &&& final(self).failed() == old(self).failed()
                    &&& final(sink).newest() matches Some(frame)
                    &&& frame.width == width
                    &&& frame.height == height
                    &&& frame.rgb@ == decoded_pixels(format, width, height, data@)
                    &&& frame.seq == final(self).last_seq()
                    &&& frame.tightly_packed()
                } else {
                    &&& r matches Err(e)
                    &&& e.len == n
                    &&& e.width == width
                    &&& e.height == height
                    &&& *final(self) == *old(self)
                    &&& *final(sink) == *old(sink)
                },
            },
    {
        let decoded = decode(format, width, height, data);
        self.handle(decoded, width, height, sink, since_warn_ms, since_log_ms)
    }
}

/// A capture from its start on: what the decoder gave, the counters and the slot
/// before and after each frame, and what came of each. Only the last frame may
/// end it.
pub open spec fn is_run(
    given: Seq<Delivered>,
    sessions: Seq<CaptureSession>,
    slots: Seq<SharedFrame>,
    results: Seq<Result<CaptureStep, UnexpectedFrameSize>>,
) -> bool {
    &&& sessions.len() == given.len() + 1
    &&& slots.len() == given.len() + 1
    &&& results.len() == given.len()
    &&& sessions[0].last_seq() == 0
    &&& forall|i: int|
        0 <= i < given.len() ==> handled(
            sessions[i],
            slots[i],
            #[trigger] given[i],
            sessions[i + 1],
            slots[i + 1],
            results[i],
        )
    &&& forall|i: int| 0 <= i < results.len() - 1 ==> (#[trigger] results[i]) is Ok
}

/// A frame was published.
pub open spec fn is_published(r: Result<CaptureStep, UnexpectedFrameSize>) -> bool {
    r matches Ok(CaptureStep::Published { .. })
}

/// How many frames were published.
pub open spec fn published_count(results: Seq<Result<CaptureStep, UnexpectedFrameSize>>) -> nat
    decreases results.len(),
{
    if results.len() == 0 {
        0
    } else {
        published_count(results.drop_last()) + if is_published(results.last()) {
            1nat
        } else {
            0nat
        }
    }
}

/// The sequence number of the `n`th frame: `n`, in 64 bits that start over.
pub open spec fn seq_of(n: nat) -> int {
    n as int % 0x1_0000_0000_0000_0000
}

/// The counter shows how many frames were published.
proof fn lemma_counter(
    given: Seq<Delivered>,
    sessions: Seq<CaptureSession>,
    slots: Seq<SharedFrame>,
    results: Seq<Result<CaptureStep, UnexpectedFrameSize>>,
    n: int,
)
    requires
        is_run(given, sessions, slots, results),
        0 <= n <= given.len(),
    ensures
        sessions[n].last_seq() == seq_of(published_count(results.take(n))),
    decreases n,
{
    if n > 0 {
        lemma_counter(given, sessions, slots, results, n - 1);
        assert(results.take(n).drop_last() =~= results.take(n - 1));
        assert(results.take(n).last() == results[n - 1]);
        assert(handled(
            sessions[n - 1],
            slots[n - 1],
            given[n - 1],
            sessions[(n - 1) + 1],
            slots[(n - 1) + 1],
            results[n - 1],
        ));
    }
}

/// Published frames are numbered from one on: of any capture, frame `k` either
/// is published, tightly packed and under the number of frames published by
/// then, and the event loop is woken; or it leaves the slot as it was. It is
/// published just where it was decoded to the size that it should have.
pub proof fn law_published_frames_are_numbered(
    given: Seq<Delivered>,
    sessions: Seq<CaptureSession>,
    slots: Seq<SharedFrame>,
    results: Seq<Result<CaptureStep, UnexpectedFrameSize>>,
    k: int,
)
    requires
        is_run(given, sessions, slots, results),
        0 <= k < given.len(),
    ensures
        is_published(results[k]) <==> (given[k].decoded matches Ok(rgb) && rgb@.len()
            == given[k].width * given[k].height * 3),
        if is_published(results[k]) {
            &&& results[k] matches Ok(CaptureStep::Published { notify, .. })
            &&& notify == UiEvent::FrameReady
            &&& slots[k + 1].newest() matches Some(f)
            &&& f.width == given[k].width
            &&& f.height == given[k].height
            &&& f.tightly_packed()
            &&& f.seq == seq_of(published_count(results.take(k + 1)))
            &&& published_count(results.take(k + 1)) == published_count(results.take(k)) + 1
        } else {
            &&& slots[k + 1] == slots[k]
            &&& sessions[k + 1].last_seq() == sessions[k].last_seq()
            &&& published_count(results.take(k + 1)) == published_count(results.take(k))
        },
{
    lemma_counter(given, sessions, slots, results, k + 1);
    assert(results.take(k + 1).drop_last() =~= results.take(k));
    assert(results.take(k + 1).last() == results[k]);
    assert(handled(sessions[k], slots[k], given[k], sessions[k + 1], slots[k + 1], results[k]));
}

/// A reader that saw the last frame sees the next one as new.
pub proof fn law_next_frame_is_new(slot: SharedFrame, frame: Frame, seen: u64)
    requires
        slot.newest() == Some(frame),
        frame.seq == next_seq(seen),
    ensures
        slot.unseen(seen) == Some(frame),
{
}

/// A frame that is complete decodes to three bytes for each pixel, and one that
/// falls short does not decode: complete is three bytes a pixel in RGB and BGR,
/// one in grey, two in YUYV, and in NV12 one and a quarter of each chroma.
pub proof fn law_complete_frames_decode(width: u32, height: u32, len: int)
    requires
        width % 2 == 0,
        height % 2 == 0,
        len >= 0,
    ensures
        ({
            let w = width as int;
            let h = height as int;
            let pixels = w * h;
            let nv12 = pixels + 2 * ((w / 2) * (h / 2));
            let full = Some(3 * pixels);
            &&& len == 3 * pixels ==> decoded_len(FrameFormat::RAWRGB, w, h, len) == full
            &&& len < 3 * pixels ==> decoded_len(FrameFormat::RAWRGB, w, h, len) is None
            &&& len == 3 * pixels ==> decoded_len(FrameFormat::RAWBGR, w, h, len) == full
            &&& len < 3 * pixels ==> decoded_len(FrameFormat::RAWBGR, w, h, len) is None
            &&& len == pixels ==> decoded_len(FrameFormat::GRAY, w, h, len) == full
            &&& len < pixels ==> decoded_len(FrameFormat::GRAY, w, h, len) is None
            &&& len == 2 * pixels ==> decoded_len(FrameFormat::YUYV, w, h, len) == full
            &&& len < 2 * pixels ==> decoded_len(FrameFormat::YUYV, w, h, len) is None
            &&& len == nv12 ==> decoded_len(FrameFormat::NV12, w, h, len) == full
            &&& len != nv12 ==> decoded_len(FrameFormat::NV12, w, h, len) is None
        }),
{
    let a = width as int / 2;
    let b = height as int / 2;
    assert((2 * a) * (2 * b) == 4 * (a * b)) by (nonlinear_arith);
}

/// What decodes has three bytes for each pixel at the least.
pub proof fn law_decoded_frames_are_large_enough(
    format: FrameFormat,
    width: u32,
    height: u32,
    len: int,
)
    ensures
        decoded_len(format, width as int, height as int, len) matches Some(n) ==> n >= 3 * (width
            * height),
{
}

/// Frames of an ordinary size can be handed to the decoder, and those in MJPEG
/// cannot.
pub proof fn law_ordinary_frames_can_be_decoded(
    format: FrameFormat,
    width: u32,
    height: u32,
    len: int,
)
    requires
        1 <= width <= 16384,
        1 <= height <= 16384,
        0 <= len <= 3 * (width * height),
        3 * len <= 0x7fff_ffff,
    ensures
        decodable(format, width as int, height as int, len) <==> !(format is MJPEG),
{
    let w = width as int;
    let h = height as int;
    assert(w * h * 3 <= 16384 * 16384 * 3) by (nonlinear_arith)
        requires
            0 <= w <= 16384,
            0 <= h <= 16384,
    ;
}

/// Nothing goes uncounted: with one more, what is reported and what stays in the
/// counter make up what was in it and the one. A report is made just where the
/// last was five seconds ago or more, and holds everything.
pub proof fn law_nothing_goes_uncounted(before: u64, since_ms: u64)
    ensures
        ({
            let (after, report) = counted(before, since_ms);
            &&& report is Some <==> since_ms >= 5000
            &&& report matches Some(n) ==> n == before + 1 && after == 0
            &&& report is None ==> after == before + 1
        }),
{
}

/// A frame of the right size is published with its pixels as they were decoded
/// and the next number, and counted with the frames; a failure is counted with
/// the failures and leaves the slot alone; a frame of a wrong size ends the
/// capture and changes nothing.
pub proof fn law_each_frame_has_one_outcome(
    before: CaptureSession,
    slot: SharedFrame,
    d: Delivered,
    after: CaptureSession,
    new_slot: SharedFrame,
    r: Result<CaptureStep, UnexpectedFrameSize>,
)
    requires
        handled(before, slot, d, after, new_slot, r),
    ensures
        d.decoded is Err ==> {
            &&& r matches Ok(CaptureStep::Skipped { report })
            &&& new_slot == slot
            &&& after.last_seq() == before.last_seq()
            &&& after.published() == before.published()
            &&& report is Some <==> d.since_warn_ms >= 5000
            &&& report matches Some(n) ==> n == before.failed() + 1 && after.failed() == 0
            &&& report is None ==> after.failed() == before.failed() + 1
        },
        d.decoded matches Ok(rgb) ==> rgb@.len() == d.width * d.height * 3 ==> {
            &&& r matches Ok(CaptureStep::Published { notify, report })
            &&& notify == UiEvent::FrameReady
            &&& new_slot.newest() matches Some(f)
            &&& f.width == d.width
            &&& f.height == d.height
            &&& f.rgb@ == rgb@
            &&& f.seq == after.last_seq()
            &&& before.last_seq() < u64::MAX ==> f.seq == before.last_seq() + 1
            &&& before.last_seq() == u64::MAX ==> f.seq == 0
            &&& after.failed() == before.failed()
            &&& report is Some <==> d.since_log_ms >= 5000
            &&& report matches Some(n) ==> n == before.published() + 1 && after.published() == 0
            &&& report is None ==> after.published() == before.published() + 1
        },
        d.decoded matches Ok(rgb) ==> rgb@.len() != d.width * d.height * 3 ==> {
            &&& r matches Err(e)
            &&& e.len == rgb@.len()
            &&& e.width == d.width
            &&& e.height == d.height
            &&& after == before
            &&& new_slot == slot
        },
{
}

/// A frame of another number than the reader saw is new to it, however many
/// frames were published in between.
pub proof fn law_later_frames_are_new(
    given: Seq<Delivered>,
    sessions: Seq<CaptureSession>,
    slots: Seq<SharedFrame>,
    results: Seq<Result<CaptureStep, UnexpectedFrameSize>>,
    k: int,
    seen: u64,
)
    requires
        is_run(given, sessions, slots, results),
        0 <= k < given.len(),
        given[k].decoded matches Ok(rgb) && rgb@.len() == given[k].width * given[k].height * 3,
        published_count(results.take(k + 1)) <= u64::MAX,
        seen < published_count(results.take(k + 1)),
    ensures
        slots[k + 1].unseen(seen) matches Some(f) && f.seq == published_count(results.take(k + 1)),
{
    law_published_frames_are_numbered(given, sessions, slots, results, k);
}

/// A probe tells the modes one by one behind a headline.
pub proof fn law_each_mode_has_a_line(device_index: u32, modes: Seq<CameraFormat>, i: int)
    requires
        0 <= i < modes.len(),
    ensures
        mode_list(device_index, modes).len() == modes.len() + 1,
        mode_list(device_index, modes)[i + 1] == "  "@ + mode_text(modes[i]),
{
}

} // verus!
