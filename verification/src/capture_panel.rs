//! The capture section of the settings panel: which modes are offered, and how
//! a change is staged before it is applied.
use crate::camera_format::{
    is_pick, some_wanted, wanted, CameraFormat, CaptureRequest, MIN_FPS,
};
use crate::devices::{mode_text, push_mode};
use crate::text::line;
use vstd::prelude::*;
use vstd::string::*;

verus! {

/// Resolution and frame rate that the user is staging before they apply.
#[derive(Debug, Clone, Copy, PartialEq, Eq, Structural)]
pub struct PendingCapture {
    pub width: u32,
    pub height: u32,
    pub fps: u32,
}

/// `a` is listed before `b`: wider first, then higher.
pub open spec fn larger(a: (u32, u32), b: (u32, u32)) -> bool {
    a.0 > b.0 || (a.0 == b.0 && a.1 > b.1)
}

/// Some mode has the resolution `r`.
pub open spec fn has_resolution(available: Seq<CameraFormat>, r: (u32, u32)) -> bool {
    exists|k: int|
        0 <= k < available.len() && #[trigger] available[k].width == r.0 && available[k].height
            == r.1
}

/// Some mode with the resolution `w` x `h` has the frame rate `fps`.
pub open spec fn has_fps(available: Seq<CameraFormat>, w: u32, h: u32, fps: u32) -> bool {
    exists|k: int|
        0 <= k < available.len() && #[trigger] available[k].width == w && available[k].height == h
            && available[k].frame_rate == fps
}

fn insert_resolution(options: &mut Vec<(u32, u32)>, r: (u32, u32))
    requires
        forall|i: int, j: int|
            0 <= i < j < old(options)@.len() ==> larger(
                #[trigger] old(options)@[i],
                #[trigger] old(options)@[j],
            ),
    ensures
        forall|i: int, j: int|
            0 <= i < j < final(options)@.len() ==> larger(
                #[trigger] final(options)@[i],
                #[trigger] final(options)@[j],
            ),
        forall|x: (u32, u32)| #[trigger]
            final(options)@.contains(x) <==> old(options)@.contains(x) || x == r,
{
    let ghost before = options@;
    let mut p: usize = 0;
    while p < options.len() && (options[p].0 > r.0 || (options[p].0 == r.0 && options[p].1 > r.1))
        invariant
            options@ == before,
            p <= options@.len(),
            forall|i: int| 0 <= i < p ==> larger(#[trigger] options@[i], r),
        decreases options@.len() - p,
    {
        p = p + 1;
    }
    if p < options.len() && options[p].0 == r.0 && options[p].1 == r.1 {
        assert(options@[p as int] == r);
        return ;
    }
    options.insert(p, r);
    proof {
        let after = options@;
        assert forall|x: (u32, u32)| #[trigger]
            after.contains(x) <==> before.contains(x) || x == r by {
            if before.contains(x) {
                let i = before.index_of(x);
                assert(after[if i < p {
                    i
                } else {
                    i + 1
                }] == x);
            }
            if x == r {
                assert(after[p as int] == x);
            }
            if after.contains(x) {
                let i = after.index_of(x);
                if i < p {
                    assert(before[i] == x);
                } else if i > p {
                    assert(before[i - 1] == x);
                }
            }
        }
    }
}

fn insert_fps(options: &mut Vec<u32>, fps: u32)
    requires
        forall|i: int, j: int|
            0 <= i < j < old(options)@.len() ==> #[trigger] old(options)@[i]
                > #[trigger] old(options)@[j],
    ensures
        forall|i: int, j: int|
            0 <= i < j < final(options)@.len() ==> #[trigger] final(options)@[i]
                > #[trigger] final(options)@[j],
        forall|x: u32| #[trigger]
            final(options)@.contains(x) <==> old(options)@.contains(x) || x == fps,
{
    let ghost before = options@;
    let mut p: usize = 0;
    while p < options.len() && options[p] > fps
        invariant
            options@ == before,
            p <= options@.len(),
            forall|i: int| 0 <= i < p ==> #[trigger] options@[i] > fps,
        decreases options@.len() - p,
    {
        p = p + 1;
    }
    if p < options.len() && options[p] == fps {
        assert(options@[p as int] == fps);
        return ;
    }
    options.insert(p, fps);
    proof {
        let after = options@;
        assert forall|x: u32| #[trigger]
            after.contains(x) <==> before.contains(x) || x == fps by {
            if before.contains(x) {
                let i = before.index_of(x);
                assert(after[if i < p {
                    i
                } else {
                    i + 1
                }] == x);
            }
            if x == fps {
                assert(after[p as int] == x);
            }
            if after.contains(x) {
                let i = after.index_of(x);
                if i < p {
                    assert(before[i] == x);
                } else if i > p {
                    assert(before[i - 1] == x);
                }
            }
        }
    }
}

/// The resolutions that the device offers, largest first, each once.
pub fn resolution_options(available: &[CameraFormat]) -> (options: Vec<(u32, u32)>)
    ensures
        forall|i: int, j: int|
            0 <= i < j < options@.len() ==> larger(#[trigger] options@[i], #[trigger] options@[j]),
        forall|r: (u32, u32)| #[trigger]
            options@.contains(r) <==> has_resolution(available@, r),
{
    let mut options: Vec<(u32, u32)> = Vec::new();
    let mut k: usize = 0;
    while k < available.len()
        invariant
            k <= available@.len(),
            forall|i: int, j: int|
                0 <= i < j < options@.len() ==> larger(
                    #[trigger] options@[i],
                    #[trigger] options@[j],
                ),
            forall|r: (u32, u32)| #[trigger]
                options@.contains(r) <==> has_resolution(available@.take(k as int), r),
        decreases available@.len() - k,
    {
        let ghost before = options@;
        insert_resolution(&mut options, (available[k].width, available[k].height));
        proof {
            let prev = available@.take(k as int);
            let next = available@.take(k + 1);
            assert forall|r: (u32, u32)| #[trigger]
                options@.contains(r) <==> has_resolution(next, r) by {
                assert(options@.contains(r) <==> before.contains(r) || r == (
                    available@[k as int].width,
                    available@[k as int].height,
                ));
                if has_resolution(prev, r) {
                    let m = choose|m: int|
                        0 <= m < prev.len() && #[trigger] prev[m].width == r.0 && prev[m].height
                            == r.1;
                    assert(next[m] == prev[m]);
                }
                if has_resolution(next, r) {
                    let m = choose|m: int|
                        0 <= m < next.len() && #[trigger] next[m].width == r.0 && next[m].height
                            == r.1;
                    if m < k {
                        assert(prev[m] == next[m]);
                    }
                }
                assert(next[k as int] == available@[k as int]);
            }
        }
        k = k + 1;
    }
    assert(available@.take(k as int) =~= available@);
    options
}

/// The frame rates that the device offers at `w` x `h`, fastest first, each
/// once.
pub fn fps_options(available: &[CameraFormat], w: u32, h: u32) -> (options: Vec<u32>)
    ensures
        forall|i: int, j: int|
            0 <= i < j < options@.len() ==> #[trigger] options@[i] > #[trigger] options@[j],
        forall|fps: u32| #[trigger] options@.contains(fps) <==> has_fps(available@, w, h, fps),
{
    let mut options: Vec<u32> = Vec::new();
    let mut k: usize = 0;
    while k < available.len()
        invariant
            k <= available@.len(),
            forall|i: int, j: int|
                0 <= i < j < options@.len() ==> #[trigger] options@[i] > #[trigger] options@[j],
            forall|fps: u32| #[trigger]
                options@.contains(fps) <==> has_fps(available@.take(k as int), w, h, fps),
        decreases available@.len() - k,
    {
        let ghost before = options@;
        let here: bool = available[k].width == w && available[k].height == h;
        if here {
            insert_fps(&mut options, available[k].frame_rate);
        }
        proof {
            let prev = available@.take(k as int);
            let next = available@.take(k + 1);
            assert forall|fps: u32| #[trigger]
                options@.contains(fps) <==> has_fps(next, w, h, fps) by {
                assert(options@.contains(fps) <==> before.contains(fps) || (here && fps
                    == available@[k as int].frame_rate));
                if has_fps(prev, w, h, fps) {
                    let m = choose|m: int|
                        0 <= m < prev.len() && #[trigger] prev[m].width == w && prev[m].height == h
                            && prev[m].frame_rate == fps;
                    assert(next[m] == prev[m]);
                }
                if has_fps(next, w, h, fps) {
                    let m = choose|m: int|
                        0 <= m < next.len() && #[trigger] next[m].width == w && next[m].height == h
                            && next[m].frame_rate == fps;
                    if m < k {
                        assert(prev[m] == next[m]);
                    }
                }
                assert(next[k as int] == available@[k as int]);
            }
        }
        k = k + 1;
    }
    assert(available@.take(k as int) =~= available@);
    options
}

/// What is staged before anything was chosen: the mode that is running.
pub open spec fn running(current: Option<CameraFormat>) -> PendingCapture {
    match current {
        Some(c) => PendingCapture { width: c.width, height: c.height, fps: c.frame_rate },
        None => PendingCapture { width: 0, height: 0, fps: 0 },
    }
}

/// What is staged: what was staged before, or else the running mode.
pub fn stage(pending: Option<PendingCapture>, current: &Option<CameraFormat>) -> (p: PendingCapture)
    ensures
        p == match pending {
            Some(staged) => staged,
            None => running(*current),
        },
{
    match pending {
        Some(staged) => staged,
        None => match current {
            Some(c) => PendingCapture { width: c.width, height: c.height, fps: c.frame_rate },
            None => PendingCapture { width: 0, height: 0, fps: 0 },
        },
    }
}

/// What is staged where the device offers modes: nothing while it offers none.
pub fn stage_offered(
    pending: Option<PendingCapture>,
    current: &Option<CameraFormat>,
    available: &[CameraFormat],
) -> (r: Option<PendingCapture>)
    ensures
        r == if available@.len() == 0 {
            None
        } else {
            match pending {
                Some(staged) => Some(staged),
                None => Some(running(*current)),
            }
        },
{
    if available.is_empty() {
        None
    } else {
        Some(stage(pending, current))
    }
}

/// `fps` is the fastest that is offered at `w` x `h`.
pub open spec fn fastest(available: Seq<CameraFormat>, w: u32, h: u32, fps: u32) -> bool {
    &&& has_fps(available, w, h, fps)
    &&& forall|other: u32| #[trigger] has_fps(available, w, h, other) ==> other <= fps
}

/// Stages the resolution that the user chose. A frame rate that is not offered
/// there gives way to the fastest one that is.
pub fn choose_resolution(p: PendingCapture, chosen: (u32, u32), available: &[CameraFormat]) -> (r:
    PendingCapture)
    ensures
        r.width == chosen.0,
        r.height == chosen.1,
        has_fps(available@, chosen.0, chosen.1, p.fps) ==> r.fps == p.fps,
        !has_fps(available@, chosen.0, chosen.1, p.fps) && has_resolution(available@, chosen)
            ==> fastest(available@, chosen.0, chosen.1, r.fps),
        !has_resolution(available@, chosen) ==> r.fps == p.fps,
        has_resolution(available@, chosen) ==> has_fps(available@, chosen.0, chosen.1, r.fps),
{
    let options: Vec<u32> = fps_options(available, chosen.0, chosen.1);
    let mut offered: bool = false;
    let mut i: usize = 0;
    while i < options.len()
        invariant
            i <= options@.len(),
            offered <==> options@.take(i as int).contains(p.fps),
        decreases options@.len() - i,
    {
        proof {
            let prev = options@.take(i as int);
            let next = options@.take(i + 1);
            assert(next =~= prev.push(options@[i as int]));
            if prev.contains(p.fps) {
                let m = prev.index_of(p.fps);
                assert(next[m] == p.fps);
            }
            if options@[i as int] == p.fps {
                assert(next[i as int] == p.fps);
            }
            if next.contains(p.fps) {
                let m = next.index_of(p.fps);
                if m < i {
                    assert(prev[m] == p.fps);
                }
            }
        }
        if options[i] == p.fps {
            offered = true;
        }
        i = i + 1;
    }
    assert(options@.take(i as int) =~= options@);
    let mut fps: u32 = p.fps;
    if !offered && options.len() > 0 {
        fps = options[0];
        proof {
            assert(options@.contains(fps));
            assert forall|other: u32| #[trigger]
                has_fps(available@, chosen.0, chosen.1, other) implies other <= fps by {
                assert(options@.contains(other));
                let m = options@.index_of(other);
                assert(options@[m] == other);
                if m > 0 {
                    assert(options@[0] > options@[m]);
                }
            }
        }
    }
    proof {
        if has_resolution(available@, chosen) {
            let k = choose|k: int|
                0 <= k < available@.len() && #[trigger] available@[k].width == chosen.0
                    && available@[k].height == chosen.1;
            assert(has_fps(available@, chosen.0, chosen.1, available@[k].frame_rate));
            assert(options@.contains(available@[k].frame_rate));
        } else if options@.len() > 0 {
            assert(options@.contains(options@[0]));
            let k = choose|k: int|
                0 <= k < available@.len() && #[trigger] available@[k].width == chosen.0
                    && available@[k].height == chosen.1 && available@[k].frame_rate == options@[0];
            assert(available@[k].width == chosen.0);
        }
    }
    PendingCapture { width: chosen.0, height: chosen.1, fps }
}

/// Whether what is staged differs from what is running.
pub fn is_dirty(p: &PendingCapture, current: &Option<CameraFormat>) -> (r: bool)
    ensures
        r == (*p != running(*current)),
{
    let now = stage(None, current);
    p.width != now.width || p.height != now.height || p.fps != now.fps
}

/// The request that applies `p`.
pub open spec fn request_of(p: PendingCapture, device_index: u32) -> CaptureRequest {
    CaptureRequest {
        device_index,
        width: Some(p.width),
        height: Some(p.height),
        fps: Some(p.fps),
        force_mjpeg: false,
    }
}

pub fn capture_request(p: &PendingCapture, device_index: u32) -> (r: CaptureRequest)
    ensures
        r == request_of(*p, device_index),
{
    CaptureRequest {
        device_index,
        width: Some(p.width),
        height: Some(p.height),
        fps: Some(p.fps),
        force_mjpeg: false,
    }
}

/// The line that tells which mode is running.
pub fn active_line(label: &str, current: &CameraFormat) -> (s: String)
    ensures
        s@ == label@ + ": "@ + mode_text(*current),
{
    let mut out = line(label);
    out.append(": ");
    push_mode(&mut out, current);
    out
}

/// Applying a staged mode that is offered, and is not degenerate, picks a mode
/// with just that resolution and frame rate.
pub proof fn law_applied_mode_is_the_staged_one(
    available: Seq<CameraFormat>,
    p: PendingCapture,
    device_index: u32,
    k: int,
)
    requires
        has_fps(available, p.width, p.height, p.fps),
        p.fps >= MIN_FPS,
        is_pick(available, request_of(p, device_index), k),
    ensures
        running(Some(available[k])) == p,
{
    let req = request_of(p, device_index);
    let m = choose|m: int|
        0 <= m < available.len() && #[trigger] available[m].width == p.width && available[m].height
            == p.height && available[m].frame_rate == p.fps;
    assert(wanted(available[m], req));
    assert(some_wanted(available, req));
}

/// Wider resolutions are listed before narrower ones, and of two that are as
/// wide the higher one; of two different resolutions one comes first.
pub proof fn law_larger_resolutions_first(a: (u32, u32), b: (u32, u32))
    ensures
        a.0 > b.0 ==> larger(a, b),
        a.0 == b.0 && a.1 > b.1 ==> larger(a, b),
        a != b <==> larger(a, b) || larger(b, a),
        !(larger(a, b) && larger(b, a)),
{
}

/// Of the modes that are offered, each has its resolution in the list and its
/// frame rate in the list for that resolution.
pub proof fn law_every_mode_is_offered(available: Seq<CameraFormat>, k: int)
    requires
        0 <= k < available.len(),
    ensures
        has_resolution(available, (available[k].width, available[k].height)),
        has_fps(available, available[k].width, available[k].height, available[k].frame_rate),
{
    assert(available[k].width == available[k].width);
}

/// What no mode has is not offered.
pub proof fn law_nothing_else_is_offered(
    available: Seq<CameraFormat>,
    w: u32,
    h: u32,
    fps: u32,
)
    ensures
        (forall|k: int|
            0 <= k < available.len() ==> (#[trigger] available[k]).width != w || available[k].height
                != h) ==> !has_resolution(available, (w, h)) && !has_fps(available, w, h, fps),
        (forall|k: int|
            0 <= k < available.len() ==> (#[trigger] available[k]).width != w || available[k].height
                != h || available[k].frame_rate != fps) ==> !has_fps(available, w, h, fps),
{
}

/// The frame rate that takes the place of one that is not offered is that of
/// some mode of the resolution, and no mode of the resolution is faster.
pub proof fn law_fastest_mode_steps_in(
    available: Seq<CameraFormat>,
    w: u32,
    h: u32,
    fps: u32,
    k: int,
)
    requires
        fastest(available, w, h, fps),
        0 <= k < available.len(),
        available[k].width == w,
        available[k].height == h,
    ensures
        available[k].frame_rate <= fps,
        exists|m: int|
            0 <= m < available.len() && (#[trigger] available[m]).width == w && available[m].height
                == h && available[m].frame_rate == fps,
{
    law_every_mode_is_offered(available, k);
    let m = choose|m: int|
        0 <= m < available.len() && #[trigger] available[m].width == w && available[m].height == h
            && available[m].frame_rate == fps;
    assert(available[m].width == w);
}

/// What is running is staged as it is, and what is staged is asked for as it is.
pub proof fn law_staged_mode_is_asked_for(c: CameraFormat, p: PendingCapture, device_index: u32)
    ensures
        running(Some(c)).width == c.width,
        running(Some(c)).height == c.height,
        running(Some(c)).fps == c.frame_rate,
        running(None).width == 0 && running(None).height == 0 && running(None).fps == 0,
        request_of(p, device_index).device_index == device_index,
        request_of(p, device_index).width == Some(p.width),
        request_of(p, device_index).height == Some(p.height),
        request_of(p, device_index).fps == Some(p.fps),
        !request_of(p, device_index).force_mjpeg,
{
}

} // verus!
