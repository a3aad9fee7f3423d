//! Frames as they come from the capture device, and the slot that hands the
//! newest one to every reader.
use std::sync::Arc;
use vstd::prelude::*;

verus! {

/// One decoded RGB frame from the capture device.
pub struct Frame {
    pub width: u32,
    pub height: u32,
    /// Tightly packed RGB8, length = width * height * 3.
    pub rgb: Arc<Vec<u8>>,
    /// Monotonic counter, increments each time the capture thread publishes.
    pub seq: u64,
}

impl Frame {
    /// The pixel buffer has exactly three bytes for each pixel.
    pub open spec fn tightly_packed(self) -> bool {
        self.rgb@.len() == self.width * self.height * 3
    }

    /// Whether the pixel buffer has exactly three bytes for each pixel.
    pub fn is_tightly_packed(&self) -> (r: bool)
        ensures
            r == self.tightly_packed(),
            r <==> self.rgb@.len() == self.width * self.height * 3,
    {
        fits(self.rgb.len(), self.width, self.height)
    }
}

/// Whether `len` bytes are three for each of `width * height` pixels.
pub fn fits(len: usize, width: u32, height: u32) -> (r: bool)
    ensures
        r == (len == width * height * 3),
{
    assert(width * height <= 0xffff_ffff * 0xffff_ffff) by (nonlinear_arith)
        requires
            width <= 0xffff_ffff,
            height <= 0xffff_ffff,
    ;
    let pixels: u64 = width as u64 * height as u64;
    len as u128 == pixels as u128 * 3
}

impl Clone for Frame {
    fn clone(&self) -> (r: Self)
        ensures
            r == *self,
    {
        Frame { width: self.width, height: self.height, rgb: self.rgb.clone(), seq: self.seq }
    }
}

/// Event sent from background threads to wake the event loop. Currently just
/// a "new frame ready" signal; an enum so that more can join it.
#[derive(Debug, Clone, Copy, PartialEq, Eq, Structural)]
pub enum UiEvent {
    FrameReady,
}

/// Pixels in the layout the device delivered them in.
pub enum FrameData {
    Rgb(Arc<Vec<u8>>),
    /// Y plane followed by the interleaved UV plane at half resolution.
    Nv12(Arc<Vec<u8>>),
}

/// A frame whose pixels have not been converted yet.
pub struct SourceFrame {
    pub width: u32,
    pub height: u32,
    pub data: FrameData,
    /// Monotonic counter, increments with each frame.
    pub seq: u64,
}

impl Frame {
    /// The frame as one whose pixels are RGB.
    pub fn to_source(&self) -> (f: SourceFrame)
        ensures
            f.width == self.width,
            f.height == self.height,
            f.data == FrameData::Rgb(self.rgb),
            f.seq == self.seq,
    {
        SourceFrame {
            width: self.width,
            height: self.height,
            data: FrameData::Rgb(self.rgb.clone()),
            seq: self.seq,
        }
    }
}

/// Latest-frame slot. The capture side overwrites; readers always see the
/// newest frame and never queue up.
pub struct SharedFrame {
    latest: Option<Frame>,
}

impl SharedFrame {
    /// The frame that readers see.
    pub closed spec fn newest(self) -> Option<Frame> {
        self.latest
    }

    /// An empty slot.
    pub fn new() -> (slot: Self)
        ensures
            slot.newest() is None,
    {
        SharedFrame { latest: None }
    }

    /// Puts `frame` in the place of whatever was there.
    pub fn publish(&mut self, frame: Frame)
        ensures
            final(self).newest() == Some(frame),
    {
        self.latest = Some(frame);
    }

    /// The newest frame, if there has been one.
    pub fn get(&self) -> (r: Option<Frame>)
        ensures
            r == self.newest(),
    {
        match &self.latest {
            Some(frame) => Some(frame.clone()),
            None => None,
        }
    }

    /// The newest frame, unless the reader has already seen the one with
    /// sequence number `last_seq`.
    pub fn get_newer(&self, last_seq: u64) -> (r: Option<Frame>)
        ensures
            r == self.unseen(last_seq),
            self.newest() matches Some(frame) ==> {
                &&& frame.seq != last_seq ==> r == Some(frame)
                &&& frame.seq == last_seq ==> r is None
            },
            self.newest() is None ==> r is None,
    {
        match &self.latest {
            Some(frame) => {
                if frame.seq != last_seq {
                    Some(frame.clone())
                } else {
                    None
                }
            },
            None => None,
        }
    }

    /// The newest frame where its sequence number is not `last_seq`.
    pub open spec fn unseen(self, last_seq: u64) -> Option<Frame> {
        match self.newest() {
            Some(frame) => if frame.seq != last_seq {
                Some(frame)
            } else {
                None
            },
            None => None,
        }
    }
}

/// The slots as `frames` were published one after the other, from an empty one
/// on: each publish puts its frame in the place of whatever was there.
pub open spec fn published_in_turn(slots: Seq<SharedFrame>, frames: Seq<Frame>) -> bool {
    &&& slots.len() == frames.len() + 1
    &&& slots[0].newest() is None
    &&& forall|i: int| 0 <= i < frames.len() ==> slots[i + 1].newest() == Some(#[trigger] frames[i])
}

/// Readers always see the newest frame: after any number of publishes the slot
/// holds the last frame, and none only where there was no publish.
pub proof fn law_readers_see_the_newest_frame(slots: Seq<SharedFrame>, frames: Seq<Frame>)
    requires
        published_in_turn(slots, frames),
    ensures
        slots.last().newest() == if frames.len() == 0 {
            None
        } else {
            Some(frames.last())
        },
        forall|i: int|
            0 <= i < slots.len() ==> (#[trigger] slots[i]).newest() == if i == 0 {
                None
            } else {
                Some(frames[i - 1])
            },
{
    assert forall|i: int| 0 <= i < slots.len() implies (#[trigger] slots[i]).newest() == if i == 0 {
        None
    } else {
        Some(frames[i - 1])
    } by {
        if i > 0 {
            assert(slots[(i - 1) + 1].newest() == Some(frames[i - 1]));
        }
    }
}

/// A reader gets the newest frame whenever its number is another than the one
/// that the reader saw last, be it larger, smaller or any number of frames ahead;
/// the frame that it saw last it does not get again, and from an empty slot
/// nothing.
pub proof fn law_any_other_number_is_new(slot: SharedFrame, frame: Frame, seen: u64)
    ensures
        slot.newest() == Some(frame) && frame.seq > seen ==> slot.unseen(seen) == Some(frame),
        slot.newest() == Some(frame) && frame.seq < seen ==> slot.unseen(seen) == Some(frame),
        slot.newest() == Some(frame) ==> slot.unseen(frame.seq) is None,
        slot.newest() is None ==> slot.unseen(seen) is None,
{
}

/// Frames that a reader missed do not keep the newest one from it: of frames
/// that were published in turn under different numbers, a reader that saw any
/// one but the last gets the last.
pub proof fn law_missed_frames_do_not_matter(
    slots: Seq<SharedFrame>,
    frames: Seq<Frame>,
    i: int,
)
    requires
        published_in_turn(slots, frames),
        0 <= i < frames.len(),
        forall|j: int, k: int|
            0 <= j < k < frames.len() ==> (#[trigger] frames[j]).seq != (#[trigger] frames[k]).seq,
    ensures
        slots.last().unseen(frames[i].seq) == if i == frames.len() - 1 {
            None
        } else {
            Some(frames.last())
        },
{
    law_readers_see_the_newest_frame(slots, frames);
}

/// A frame is tightly packed where each of its rows has three bytes for each
/// pixel: with one more row there are as many bytes more, and without rows none.
pub proof fn law_three_bytes_a_pixel(f: Frame, g: Frame)
    requires
        f.tightly_packed(),
        g.tightly_packed(),
        g.width == f.width,
    ensures
        g.height == f.height + 1 ==> g.rgb@.len() - f.rgb@.len() == 3 * f.width,
        f.height == 0 ==> f.rgb@.len() == 0,
        f.height == 1 ==> f.rgb@.len() == 3 * f.width,
{
    let w = f.width as int;
    let h = f.height as int;
    assert(w * (h + 1) * 3 - w * h * 3 == 3 * w) by (nonlinear_arith);
    assert(w * 0 * 3 == 0 && w * 1 * 3 == 3 * w) by (nonlinear_arith);
}

} // verus!
