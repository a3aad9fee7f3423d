//! Capture modes: how they rank, which one is picked, how they are listed.
use vstd::prelude::*;

verus! {

/// How the bytes of a frame are encoded.
#[derive(Debug, Clone, Copy, PartialEq, Eq, Structural)]
pub enum FrameFormat {
    MJPEG,
    YUYV,
    NV12,
    GRAY,
    RAWRGB,
    RAWBGR,
}

/// One mode that a device offers.
#[derive(Debug, Clone, Copy, PartialEq, Eq, Structural)]
pub struct CameraFormat {
    pub width: u32,
    pub height: u32,
    pub format: FrameFormat,
    pub frame_rate: u32,
}

/// What the user asked for. Missing parts are left to the ranking.
#[derive(Debug, Clone, Copy)]
pub struct CaptureRequest {
    pub device_index: u32,
    pub width: Option<u32>,
    pub height: Option<u32>,
    pub fps: Option<u32>,
    pub force_mjpeg: bool,
}

/// Why no mode could be picked.
#[derive(Debug, Clone, Copy, PartialEq, Eq, Structural)]
pub enum PickError {
    /// The device reported zero capture formats.
    NoFormats,
}

impl PickError {
    /// The error in words.
    pub fn message(&self) -> (s: &'static str)
        ensures
            s@ == "device reported zero capture formats"@,
    {
        "device reported zero capture formats"
    }
}

/// Resolution that the ranking steers to.
pub const PREFERRED_WIDTH: u32 = 1920;

/// Resolution that the ranking steers to.
pub const PREFERRED_HEIGHT: u32 = 1080;

/// Slowest frame rate that counts as smooth.
pub const SMOOTH_FPS: u32 = 30;

/// Frame rates below this one are degenerate modes that some cards advertise.
pub const MIN_FPS: u32 = 5;

/// 0 for smooth frame rates, 1 for the others.
pub open spec fn smoothness(fps: int) -> int {
    if fps >= SMOOTH_FPS {
        0
    } else {
        1
    }
}

pub fn smooth_class(fps: u32) -> (c: u8)
    ensures
        c == smoothness(fps as int),
{
    if fps >= SMOOTH_FPS {
        0
    } else {
        1
    }
}

/// Rank of a pixel format: raw formats before MJPEG. Cheap capture cards often
/// emit broken MJPEG, and even good MJPEG costs CPU to decode.
pub open spec fn pixel_rank(fmt: FrameFormat) -> int {
    match fmt {
        FrameFormat::YUYV => 0,
        FrameFormat::NV12 => 1,
        FrameFormat::RAWRGB => 2,
        FrameFormat::RAWBGR => 2,
        FrameFormat::GRAY => 3,
        FrameFormat::MJPEG => 4,
    }
}

pub fn pixel_priority(fmt: FrameFormat) -> (p: u8)
    ensures
        p == pixel_rank(fmt),
{
    match fmt {
        FrameFormat::YUYV => 0,
        FrameFormat::NV12 => 1,
        FrameFormat::RAWRGB => 2,
        FrameFormat::RAWBGR => 2,
        FrameFormat::GRAY => 3,
        FrameFormat::MJPEG => 4,
    }
}

/// Distance of one side from what is preferred; too long counts double.
pub open spec fn side_distance(len: int, preferred: int) -> int {
    if len >= preferred {
        2 * (len - preferred)
    } else {
        preferred - len
    }
}

/// Distance of a mode's resolution from `w` x `h`.
pub open spec fn distance(f: CameraFormat, w: int, h: int) -> int {
    side_distance(f.width as int, w) + side_distance(f.height as int, h)
}

pub fn res_distance(f: &CameraFormat, pref_w: u32, pref_h: u32) -> (d: u64)
    ensures
        d == distance(*f, pref_w as int, pref_h as int),
{
    let over_w: u64 = f.width.saturating_sub(pref_w) as u64 * 2;
    let over_h: u64 = f.height.saturating_sub(pref_h) as u64 * 2;
    let under_w: u64 = pref_w.saturating_sub(f.width) as u64;
    let under_h: u64 = pref_h.saturating_sub(f.height) as u64;
    over_w + over_h + under_w + under_h
}

/// `a` comes before `b`: by pixel format, then smoothness class, then frame
/// rate descending, then closeness to 1080p.
pub open spec fn ranks_before(a: CameraFormat, b: CameraFormat) -> bool {
    let da = distance(a, PREFERRED_WIDTH as int, PREFERRED_HEIGHT as int);
    let db = distance(b, PREFERRED_WIDTH as int, PREFERRED_HEIGHT as int);
    if pixel_rank(a.format) != pixel_rank(b.format) {
        pixel_rank(a.format) < pixel_rank(b.format)
    } else if smoothness(a.frame_rate as int) != smoothness(b.frame_rate as int) {
        smoothness(a.frame_rate as int) < smoothness(b.frame_rate as int)
    } else if a.frame_rate != b.frame_rate {
        a.frame_rate > b.frame_rate
    } else {
        da < db
    }
}

/// Neither of the two comes before the other.
pub open spec fn ranks_alike(a: CameraFormat, b: CameraFormat) -> bool {
    !ranks_before(a, b) && !ranks_before(b, a)
}

/// Whether `a` comes before `b`.
pub fn ranks_ahead(a: &CameraFormat, b: &CameraFormat) -> (r: bool)
    ensures
        r == ranks_before(*a, *b),
{
    let pa: u8 = pixel_priority(a.format);
    let pb: u8 = pixel_priority(b.format);
    let sa: u8 = smooth_class(a.frame_rate);
    let sb: u8 = smooth_class(b.frame_rate);
    if pa != pb {
        pa < pb
    } else if sa != sb {
        sa < sb
    } else if a.frame_rate != b.frame_rate {
        a.frame_rate > b.frame_rate
    } else {
        res_distance(a, PREFERRED_WIDTH, PREFERRED_HEIGHT) < res_distance(
            b,
            PREFERRED_WIDTH,
            PREFERRED_HEIGHT,
        )
    }
}

/// Lower wins: pixel format, then smoothness class, then fps descending, then
/// closeness to 1080p.
pub fn format_priority(a: &CameraFormat, b: &CameraFormat) -> (o: std::cmp::Ordering)
    ensures
        o == if ranks_before(*a, *b) {
            std::cmp::Ordering::Less
        } else if ranks_before(*b, *a) {
            std::cmp::Ordering::Greater
        } else {
            std::cmp::Ordering::Equal
        },
{
    if ranks_ahead(a, b) {
        std::cmp::Ordering::Less
    } else if ranks_ahead(b, a) {
        std::cmp::Ordering::Greater
    } else {
        std::cmp::Ordering::Equal
    }
}

/// The ranking is a strict weak order: no mode comes before itself, of two
/// modes at most one comes before the other, and both "comes before" and
/// "ranks alike" carry over from one pair to the next.
pub proof fn law_ranking_is_an_order(a: CameraFormat, b: CameraFormat, c: CameraFormat)
    ensures
        !ranks_before(a, a),
        ranks_before(a, b) ==> !ranks_before(b, a),
        ranks_before(a, b) && ranks_before(b, c) ==> ranks_before(a, c),
        ranks_alike(a, b) && ranks_alike(b, c) ==> ranks_alike(a, c),
        ranks_before(a, b) && ranks_alike(b, c) ==> ranks_before(a, c),
        ranks_alike(a, b) && ranks_before(b, c) ==> ranks_before(a, c),
{
}

/// A raw format comes before MJPEG, whatever the two frame rates and
/// resolutions are.
pub proof fn law_raw_before_mjpeg(raw: CameraFormat, mjpeg: CameraFormat)
    requires
        raw.format != FrameFormat::MJPEG,
        mjpeg.format == FrameFormat::MJPEG,
    ensures
        ranks_before(raw, mjpeg),
{
}

/// Within one pixel format a smooth mode comes before one that is not.
pub proof fn law_smooth_before_choppy(a: CameraFormat, b: CameraFormat)
    requires
        pixel_rank(a.format) == pixel_rank(b.format),
        a.frame_rate >= SMOOTH_FPS,
        b.frame_rate < SMOOTH_FPS,
    ensures
        ranks_before(a, b),
{
}

/// Of two modes with the same pixel format and frame rate that fit into
/// 1920x1080, one that is larger in both directions comes first.
pub proof fn law_larger_first_up_to_1080p(a: CameraFormat, b: CameraFormat)
    requires
        a.format == b.format,
        a.frame_rate == b.frame_rate,
        b.width <= a.width <= PREFERRED_WIDTH,
        b.height <= a.height <= PREFERRED_HEIGHT,
        a.width != b.width || a.height != b.height,
    ensures
        ranks_before(a, b),
{
}

/// `f` is what was asked for: the sides and frame rate that were named, and no
/// degenerate frame rate unless MJPEG is forced.
pub open spec fn wanted(f: CameraFormat, req: CaptureRequest) -> bool {
    &&& req.width matches Some(w) ==> f.width == w
    &&& req.height matches Some(h) ==> f.height == h
    &&& req.fps matches Some(fps) ==> f.frame_rate == fps
    &&& req.force_mjpeg || f.frame_rate >= MIN_FPS
}

pub fn matches_request(f: &CameraFormat, req: &CaptureRequest) -> (r: bool)
    ensures
        r == wanted(*f, *req),
{
    if let Some(w) = req.width {
        if f.width != w {
            return false;
        }
    }
    if let Some(h) = req.height {
        if f.height != h {
            return false;
        }
    }
    if let Some(fps) = req.fps {
        if f.frame_rate != fps {
            return false;
        }
    }
    if !req.force_mjpeg && f.frame_rate < MIN_FPS {
        return false;
    }
    true
}

/// Some mode is what was asked for.
pub open spec fn some_wanted(formats: Seq<CameraFormat>, req: CaptureRequest) -> bool {
    exists|j: int| 0 <= j < formats.len() && wanted(#[trigger] formats[j], req)
}

/// `k` may be picked: it is what was asked for, or nothing is.
pub open spec fn eligible(formats: Seq<CameraFormat>, req: CaptureRequest, k: int) -> bool {
    &&& 0 <= k < formats.len()
    &&& some_wanted(formats, req) ==> wanted(formats[k], req)
}

/// `k` is the pick: eligible, no eligible mode comes before it, and it comes
/// before every eligible mode that is listed earlier.
pub open spec fn is_pick(formats: Seq<CameraFormat>, req: CaptureRequest, k: int) -> bool {
    &&& eligible(formats, req, k)
    &&& forall|j: int| #[trigger]
        eligible(formats, req, j) ==> !ranks_before(formats[j], formats[k])
    &&& forall|j: int|
        j < k && #[trigger] eligible(formats, req, j) ==> ranks_before(formats[k], formats[j])
}

/// There is at most one pick.
pub proof fn law_pick_is_unique(formats: Seq<CameraFormat>, req: CaptureRequest, j: int, k: int)
    requires
        is_pick(formats, req, j),
        is_pick(formats, req, k),
    ensures
        j == k,
{
    if j < k {
        assert(ranks_before(formats[k], formats[j]));
    } else if k < j {
        assert(ranks_before(formats[j], formats[k]));
    }
}

/// A request that some mode fits is honoured: what it names, the picked mode
/// has, and a degenerate frame rate is picked only where MJPEG is forced.
pub proof fn law_request_is_honoured(formats: Seq<CameraFormat>, req: CaptureRequest, k: int)
    requires
        is_pick(formats, req, k),
        some_wanted(formats, req),
    ensures
        req.width matches Some(w) ==> formats[k].width == w,
        req.height matches Some(h) ==> formats[k].height == h,
        req.fps matches Some(fps) ==> formats[k].frame_rate == fps,
        req.force_mjpeg || formats[k].frame_rate >= MIN_FPS,
{
}

/// Index of the first of the best modes, among all or among those that are
/// what was asked for.
fn first_best(formats: &[CameraFormat], req: &CaptureRequest, only_wanted: bool) -> (r: Option<
    usize,
>)
    ensures
        r is None && !only_wanted ==> formats@.len() == 0,
        r is None ==> forall|j: int|
            0 <= j < formats@.len() ==> !wanted(#[trigger] formats@[j], *req),
        r matches Some(k) ==> {
            &&& k < formats@.len()
            &&& only_wanted ==> wanted(formats@[k as int], *req)
            &&& forall|j: int|
                0 <= j < formats@.len() && (only_wanted ==> wanted(formats@[j], *req))
                    ==> !ranks_before(#[trigger] formats@[j], formats@[k as int])
            &&& forall|j: int|
                0 <= j < k && (only_wanted ==> wanted(formats@[j], *req)) ==> ranks_before(
                    formats@[k as int],
                    #[trigger] formats@[j],
                )
        },
{
    let mut best: Option<usize> = None;
    let mut i: usize = 0;
    while i < formats.len()
        invariant
            i <= formats@.len(),
            best is None && !only_wanted ==> i == 0,
            best is None ==> forall|j: int|
                0 <= j < i ==> !wanted(#[trigger] formats@[j], *req),
            best matches Some(k) ==> {
                &&& k < i
                &&& only_wanted ==> wanted(formats@[k as int], *req)
                &&& forall|j: int|
                    0 <= j < i && (only_wanted ==> wanted(formats@[j], *req)) ==> !ranks_before(
                        #[trigger] formats@[j],
                        formats@[k as int],
                    )
                &&& forall|j: int|
                    0 <= j < k && (only_wanted ==> wanted(formats@[j], *req)) ==> ranks_before(
                        formats@[k as int],
                        #[trigger] formats@[j],
                    )
            },
        decreases formats@.len() - i,
    {
        if !only_wanted || matches_request(&formats[i], req) {
            let better: bool = match best {
                Some(k) => ranks_ahead(&formats[i], &formats[k]),
                None => true,
            };
            if better {
                best = Some(i);
            }
        }
        i = i + 1;
    }
    best
}

/// Picks the best (resolution, format, fps) among the modes that the device
/// reports.
///
/// Heuristic, in order of priority: honor explicit width, height and fps, and
/// reject degenerate frame rates; where no mode is left, consider them all
/// again. Then the ranking decides, and the device's own order between modes
/// that rank alike.
pub fn pick_best_format_from(formats: &[CameraFormat], req: &CaptureRequest) -> (r: Result<
    CameraFormat,
    PickError,
>)
    ensures
        r is Err <==> formats@.len() == 0,
        r is Err ==> r == Err::<CameraFormat, PickError>(PickError::NoFormats),
        r matches Ok(f) ==> exists|k: int|
            #[trigger] is_pick(formats@, *req, k) && f == formats@[k],
{
    if formats.is_empty() {
        return Err(PickError::NoFormats);
    }
    let pick: Option<usize> = match first_best(formats, req, true) {
        Some(k) => {
            assert(some_wanted(formats@, *req)) by {
                assert(wanted(formats@[k as int], *req));
            }
            assert(is_pick(formats@, *req, k as int));
            Some(k)
        },
        None => {
            assert(!some_wanted(formats@, *req));
            let all: Option<usize> = first_best(formats, req, false);
            proof {
                if all is Some {
                    assert(is_pick(formats@, *req, all->0 as int));
                }
            }
            all
        },
    };
    match pick {
        Some(k) => Ok(formats[k]),
        None => Err(PickError::NoFormats),
    }
}

/// `b` is `a` sorted by the ranking, modes that rank alike in the order they
/// had: no mode comes before an earlier one, and the modes that rank like any
/// given one are the same in the same order.
pub open spec fn stably_sorted(a: Seq<CameraFormat>, b: Seq<CameraFormat>) -> bool {
    &&& forall|i: int, j: int|
        0 <= i < j < b.len() ==> !ranks_before(#[trigger] b[j], #[trigger] b[i])
    &&& forall|c: CameraFormat| #[trigger] alike_to(b, c) == alike_to(a, c)
}

/// The modes of `s` that rank like `c`, in their order.
pub open spec fn alike_to(s: Seq<CameraFormat>, c: CameraFormat) -> Seq<CameraFormat> {
    s.filter(|x: CameraFormat| ranks_alike(x, c))
}

/// Where no element of `s` passes, the filter leaves nothing.
proof fn lemma_filter_none(s: Seq<CameraFormat>, pred: spec_fn(CameraFormat) -> bool)
    requires
        forall|i: int| 0 <= i < s.len() ==> !pred(#[trigger] s[i]),
    ensures
        s.filter(pred) == Seq::<CameraFormat>::empty(),
    decreases s.len(),
{
    reveal(Seq::filter);
    if s.len() > 0 {
        lemma_filter_none(s.drop_last(), pred);
    }
}

/// Putting `x` behind everything that does not rank after it adds it at the
/// end of the modes that rank like it.
proof fn lemma_insert_alike(s: Seq<CameraFormat>, p: int, x: CameraFormat, c: CameraFormat)
    requires
        0 <= p <= s.len(),
        forall|j: int| p <= j < s.len() ==> ranks_before(x, #[trigger] s[j]),
    ensures
        alike_to(s.insert(p, x), c) == alike_to(s, c) + alike_to(seq![x], c),
{
    let pred = |y: CameraFormat| ranks_alike(y, c);
    let head = s.take(p);
    let tail = s.skip(p);
    assert(s.insert(p, x) =~= head + seq![x] + tail);
    assert(s =~= head + tail);
    Seq::filter_distributes_over_add(head + seq![x], tail, pred);
    Seq::filter_distributes_over_add(head, seq![x], pred);
    Seq::filter_distributes_over_add(head, tail, pred);
    if ranks_alike(x, c) {
        assert forall|j: int| 0 <= j < tail.len() implies !pred(#[trigger] tail[j]) by {
            assert(ranks_before(x, s[p + j]));
            law_ranking_is_an_order(c, x, tail[j]);
        }
        lemma_filter_none(tail, pred);
    } else {
        assert(seq![x][0] == x);
        lemma_filter_none(seq![x], pred);
    }
}

/// Sorting drops no mode and adds none.
pub proof fn law_sorting_keeps_modes(a: Seq<CameraFormat>, b: Seq<CameraFormat>)
    requires
        stably_sorted(a, b),
    ensures
        a.to_multiset() == b.to_multiset(),
        a.len() == b.len(),
{
    broadcast use vstd::seq_lib::group_to_multiset_ensures;

    assert forall|m: CameraFormat| #[trigger]
        a.to_multiset().count(m) == b.to_multiset().count(m) by {
        lemma_count_alike(a, m);
        lemma_count_alike(b, m);
        assert(alike_to(b, m) == alike_to(a, m));
    }
    assert(a.to_multiset() =~= b.to_multiset());
    assert(a.to_multiset().len() == a.len());
}

/// A mode occurs as often as it occurs among the modes that rank like it.
proof fn lemma_count_alike(s: Seq<CameraFormat>, m: CameraFormat)
    ensures
        s.to_multiset().count(m) == alike_to(s, m).to_multiset().count(m),
    decreases s.len(),
{
    broadcast use vstd::seq_lib::group_to_multiset_ensures;

    reveal(Seq::filter);
    if s.len() > 0 {
        lemma_count_alike(s.drop_last(), m);
        assert(s =~= s.drop_last().push(s.last()));
        assert(ranks_alike(m, m));
    }
}

/// The first element that passes is the first of those that the filter leaves.
proof fn lemma_filter_first(s: Seq<CameraFormat>, pred: spec_fn(CameraFormat) -> bool, k: int)
    requires
        0 <= k < s.len(),
        pred(s[k]),
        forall|j: int| 0 <= j < k ==> !pred(#[trigger] s[j]),
    ensures
        s.filter(pred).len() > 0,
        s.filter(pred)[0] == s[k],
{
    let head = s.take(k);
    let tail = s.skip(k + 1);
    assert(s =~= head + (seq![s[k]] + tail));
    lemma_filter_none(head, pred);
    Seq::filter_distributes_over_add(head, seq![s[k]] + tail, pred);
    Seq::filter_distributes_over_add(seq![s[k]], tail, pred);
    assert(seq![s[k]].filter(pred) == seq![s[k]]) by {
        reveal(Seq::filter);
        assert(seq![s[k]].drop_last() =~= Seq::empty());
        assert(seq![s[k]].last() == s[k]);
        assert(seq![s[k]].filter(pred) =~= seq![s[k]]);
    }
}

/// The mode that is listed first is the one that is picked where the request
/// leaves everything open.
pub proof fn law_first_listed_mode_is_picked(
    reported: Seq<CameraFormat>,
    listed: Seq<CameraFormat>,
    req: CaptureRequest,
    k: int,
)
    requires
        stably_sorted(reported, listed),
        is_pick(reported, req, k),
        forall|j: int| 0 <= j < reported.len() ==> wanted(#[trigger] reported[j], req),
    ensures
        listed.len() > 0,
        listed[0] == reported[k],
{
    let best = reported[k];
    let pred = |x: CameraFormat| ranks_alike(x, best);
    law_sorting_keeps_modes(reported, listed);
    assert(reported.contains(best));
    vstd::seq_lib::to_multiset_contains(reported, best);
    vstd::seq_lib::to_multiset_contains(listed, best);
    assert(listed.contains(best));
    let i = listed.index_of(best);
    assert(listed.contains(listed[0]));
    vstd::seq_lib::to_multiset_contains(reported, listed[0]);
    vstd::seq_lib::to_multiset_contains(listed, listed[0]);
    assert(reported.contains(listed[0]));
    let j = reported.index_of(listed[0]);
    assert(wanted(best, req));
    assert(eligible(reported, req, j));
    if i > 0 {
        assert(!ranks_before(listed[i], listed[0]));
    }
    assert(ranks_alike(listed[0], best));
    assert forall|m: int| 0 <= m < k implies !pred(#[trigger] reported[m]) by {
        assert(eligible(reported, req, m));
    }
    lemma_filter_first(reported, pred, k);
    lemma_filter_first(listed, pred, 0);
    assert(alike_to(listed, best) == alike_to(reported, best));
}

/// Sorts the modes by the ranking, keeping the device's order between modes
/// that rank alike.
pub fn sort_formats(formats: &mut Vec<CameraFormat>)
    ensures
        stably_sorted(old(formats)@, final(formats)@),
{
    let ghost given = formats@;
    let mut sorted: Vec<CameraFormat> = Vec::new();
    let mut i: usize = 0;
    proof {
        assert forall|c: CameraFormat| #[trigger] alike_to(sorted@, c) == alike_to(
            given.take(0),
            c,
        ) by {
            assert(sorted@ =~= given.take(0));
        }
    }
    while i < formats.len()
        invariant
            formats@ == given,
            i <= formats@.len(),
            sorted@.len() == i,
            stably_sorted(given.take(i as int), sorted@),
        decreases formats@.len() - i,
    {
        let x = formats[i];
        let mut p: usize = sorted.len();
        while p > 0 && ranks_ahead(&x, &sorted[p - 1])
            invariant
                p <= sorted@.len(),
                forall|j: int| p <= j < sorted@.len() ==> ranks_before(x, #[trigger] sorted@[j]),
            decreases p,
        {
            p = p - 1;
        }
        let ghost before = sorted@;
        sorted.insert(p, x);
        proof {
            assert(given.take(i + 1) =~= given.take(i as int) + seq![x]);
            assert forall|c: CameraFormat| #[trigger] alike_to(sorted@, c) == alike_to(
                given.take(i + 1),
                c,
            ) by {
                lemma_insert_alike(before, p as int, x, c);
                Seq::filter_distributes_over_add(
                    given.take(i as int),
                    seq![x],
                    |y: CameraFormat| ranks_alike(y, c),
                );
                assert(alike_to(before, c) == alike_to(given.take(i as int), c));
            }
            assert forall|a: int, b: int| 0 <= a < b < sorted@.len() implies !ranks_before(
                #[trigger] sorted@[b],
                #[trigger] sorted@[a],
            ) by {
                if a < p && b == p && p > 0 {
                    // x does not come before the mode at p - 1, which no
                    // earlier one comes after.
                    law_ranking_is_an_order(x, before[a], before[p - 1]);
                    law_ranking_is_an_order(x, before[p - 1], before[a]);
                } else if a < p && b > p {
                    assert(sorted@[b] == before[b - 1]);
                }
            }
        }
        i = i + 1;
    }
    assert(given.take(i as int) =~= given);
    *formats = sorted;
}

/// Of two modes with the same pixel format the one with the higher frame rate
/// comes first, whatever the two resolutions are.
pub proof fn law_faster_first(a: CameraFormat, b: CameraFormat)
    requires
        a.format == b.format,
        a.frame_rate > b.frame_rate,
    ensures
        ranks_before(a, b),
        !ranks_before(b, a),
{
}

/// The pixel format decides before anything else: YUYV, then NV12, then RGB in
/// either order, then grey, then MJPEG.
pub proof fn law_pixel_format_decides_first(a: CameraFormat, b: CameraFormat)
    ensures
        a.format is YUYV && !(b.format is YUYV) ==> ranks_before(a, b),
        a.format is NV12 && !(b.format is YUYV || b.format is NV12) ==> ranks_before(a, b),
        (a.format is RAWRGB || a.format is RAWBGR) && (b.format is GRAY || b.format is MJPEG)
            ==> ranks_before(a, b),
        a.format is GRAY && b.format is MJPEG ==> ranks_before(a, b),
        a.format is RAWRGB && b == (CameraFormat { format: FrameFormat::RAWBGR, ..a })
            ==> ranks_alike(a, b),
{
}

/// Between modes of one pixel format and frame rate that both fit into
/// 1920x1080, the one with more pixels along its sides comes first; between two
/// that are at least as large, the one with fewer.
pub proof fn law_closest_to_1080p_first(a: CameraFormat, b: CameraFormat)
    requires
        a.format == b.format,
        a.frame_rate == b.frame_rate,
    ensures
        a.width <= 1920 && b.width <= 1920 && a.height <= 1080 && b.height <= 1080 ==> (
        ranks_before(a, b) <==> a.width + a.height > b.width + b.height),
        a.width >= 1920 && b.width >= 1920 && a.height >= 1080 && b.height >= 1080 ==> (
        ranks_before(a, b) <==> a.width + a.height < b.width + b.height),
{
}

/// Pixels too many along the width count twice as much as pixels too few.
pub proof fn law_too_large_counts_double(a: CameraFormat, b: CameraFormat)
    requires
        a.format == b.format,
        a.frame_rate == b.frame_rate,
        a.height == b.height,
        a.width >= 1920 >= b.width,
    ensures
        ranks_before(a, b) <==> 2 * (a.width - 1920) < 1920 - b.width,
        ranks_before(b, a) <==> 1920 - b.width < 2 * (a.width - 1920),
{
}

/// As `law_too_large_counts_double`, for the height.
pub proof fn law_too_high_counts_double(a: CameraFormat, b: CameraFormat)
    requires
        a.format == b.format,
        a.frame_rate == b.frame_rate,
        a.width == b.width,
        a.height >= 1080 >= b.height,
    ensures
        ranks_before(a, b) <==> 2 * (a.height - 1080) < 1080 - b.height,
        ranks_before(b, a) <==> 1080 - b.height < 2 * (a.height - 1080),
{
}

/// The sides count on their own: pixels too many along one and too few along the
/// other add up.
pub proof fn law_sides_add_up(a: CameraFormat, b: CameraFormat)
    requires
        a.format == b.format,
        a.frame_rate == b.frame_rate,
        a.width >= 1920,
        a.height <= 1080,
        b.width <= 1920,
        b.height >= 1080,
    ensures
        ranks_before(a, b) <==> 2 * (a.width - 1920) + (1080 - a.height) < (1920 - b.width) + 2 * (
        b.height - 1080),
        ranks_before(b, a) <==> (1920 - b.width) + 2 * (b.height - 1080) < 2 * (a.width - 1920) + (
        1080 - a.height),
{
}

/// What was asked for is a hard target: where some mode `j` has every side and
/// frame rate that was named, and five frames a second at the least unless MJPEG
/// is forced, the pick has them too, and mode `j` does not beat it: it is no
/// better, and where it is listed earlier it is worse.
pub proof fn law_what_was_asked_for_is_picked(
    formats: Seq<CameraFormat>,
    req: CaptureRequest,
    j: int,
    k: int,
)
    requires
        is_pick(formats, req, k),
        0 <= j < formats.len(),
        req.width matches Some(w) ==> formats[j].width == w,
        req.height matches Some(h) ==> formats[j].height == h,
        req.fps matches Some(fps) ==> formats[j].frame_rate == fps,
        req.force_mjpeg || formats[j].frame_rate >= 5,
    ensures
        0 <= k < formats.len(),
        req.width matches Some(w) ==> formats[k].width == w,
        req.height matches Some(h) ==> formats[k].height == h,
        req.fps matches Some(fps) ==> formats[k].frame_rate == fps,
        req.force_mjpeg || formats[k].frame_rate >= 5,
        !ranks_before(formats[j], formats[k]),
        j < k ==> ranks_before(formats[k], formats[j]),
        formats[j].format == formats[k].format ==> formats[j].frame_rate <= formats[k].frame_rate,
        formats[k].format is MJPEG ==> formats[j].format is MJPEG,
{
    assert(wanted(formats[j], req));
    assert(some_wanted(formats, req));
    assert(eligible(formats, req, j));
    if formats[j].format == formats[k].format && formats[j].frame_rate > formats[k].frame_rate {
        law_faster_first(formats[j], formats[k]);
    }
    if formats[k].format is MJPEG && !(formats[j].format is MJPEG) {
        law_raw_before_mjpeg(formats[j], formats[k]);
    }
}

/// Where no mode has what was asked for, the best of all modes is picked, the
/// first of those that rank alike.
pub proof fn law_best_of_all_where_nothing_fits(
    formats: Seq<CameraFormat>,
    req: CaptureRequest,
    j: int,
    k: int,
)
    requires
        is_pick(formats, req, k),
        0 <= j < formats.len(),
        forall|m: int|
            0 <= m < formats.len() ==> {
                ||| (req.width matches Some(w) && (#[trigger] formats[m]).width != w)
                ||| (req.height matches Some(h) && formats[m].height != h)
                ||| (req.fps matches Some(fps) && formats[m].frame_rate != fps)
                ||| (!req.force_mjpeg && formats[m].frame_rate < 5)
            },
    ensures
        0 <= k < formats.len(),
        !ranks_before(formats[j], formats[k]),
        j < k ==> ranks_before(formats[k], formats[j]),
{
    assert(!some_wanted(formats, req));
    assert(eligible(formats, req, j));
}

/// Sorting lists better modes first: fast before slow within one pixel format,
/// and MJPEG behind everything else.
pub proof fn law_sorted_modes_are_best_first(
    a: Seq<CameraFormat>,
    b: Seq<CameraFormat>,
    i: int,
    j: int,
)
    requires
        stably_sorted(a, b),
        0 <= i < j < b.len(),
    ensures
        b[i].format == b[j].format ==> b[i].frame_rate >= b[j].frame_rate,
        b[i].format is MJPEG ==> b[j].format is MJPEG,
        !ranks_before(b[j], b[i]),
{
    if b[i].format == b[j].format && b[i].frame_rate < b[j].frame_rate {
        law_faster_first(b[j], b[i]);
    }
    if b[i].format is MJPEG && !(b[j].format is MJPEG) {
        law_raw_before_mjpeg(b[j], b[i]);
    }
}

/// Modes that rank alike stay in the order in which the device reported them.
pub proof fn law_alike_modes_keep_their_order(a: Seq<CameraFormat>, b: Seq<CameraFormat>)
    requires
        stably_sorted(a, b),
        forall|i: int, j: int|
            0 <= i < a.len() && 0 <= j < a.len() ==> ranks_alike(#[trigger] a[i], #[trigger] a[j]),
    ensures
        b == a,
{
    law_sorting_keeps_modes(a, b);
    if a.len() == 0 {
        assert(b =~= a);
    } else {
        let c = a[0];
        let pred = |x: CameraFormat| ranks_alike(x, c);
        lemma_filter_all(a, pred);
        assert forall|i: int| 0 <= i < b.len() implies pred(#[trigger] b[i]) by {
            assert(b.contains(b[i]));
            vstd::seq_lib::to_multiset_contains(b, b[i]);
            vstd::seq_lib::to_multiset_contains(a, b[i]);
            let j = a.index_of(b[i]);
            assert(a[j] == b[i]);
        }
        lemma_filter_all(b, pred);
        assert(alike_to(b, c) == alike_to(a, c));
    }
}

/// Where every element passes, the filter leaves all.
proof fn lemma_filter_all(s: Seq<CameraFormat>, pred: spec_fn(CameraFormat) -> bool)
    requires
        forall|i: int| 0 <= i < s.len() ==> pred(#[trigger] s[i]),
    ensures
        s.filter(pred) == s,
    decreases s.len(),
{
    reveal(Seq::filter);
    if s.len() > 0 {
        lemma_filter_all(s.drop_last(), pred);
        assert(s.drop_last().push(s.last()) =~= s);
    } else {
        assert(s.filter(pred) =~= s);
    }
}

/// RGB and BGR rank the same: against any other mode it makes no difference in
/// which of the two orders a mode has its bytes.
pub proof fn law_byte_order_does_not_matter(rgb: CameraFormat, bgr: CameraFormat, other: CameraFormat)
    requires
        rgb.format is RAWRGB,
        bgr == (CameraFormat { format: FrameFormat::RAWBGR, ..rgb }),
    ensures
        ranks_before(rgb, other) <==> ranks_before(bgr, other),
        ranks_before(other, rgb) <==> ranks_before(other, bgr),
        ranks_alike(rgb, bgr),
{
}

/// A mode that is too large by some pixels ranks like one that falls short by
/// twice as many, along the width as along the height.
pub proof fn law_excess_ranks_like_double_shortage(a: CameraFormat, b: CameraFormat)
    requires
        a.format == b.format,
        a.frame_rate == b.frame_rate,
        a.width >= 1920 && a.height == b.height && 1920 - b.width == 2 * (a.width - 1920)
            || a.height >= 1080 && a.width == b.width && 1080 - b.height == 2 * (a.height - 1080),
    ensures
        ranks_alike(a, b),
{
}

/// How far a mode is from a resolution: not at all where it has it; each pixel
/// too many along a side adds two, each pixel too few adds one.
pub proof fn law_distance_grows_pixel_by_pixel(f: CameraFormat, w: int, h: int)
    requires
        w >= 0,
        h >= 0,
    ensures
        f.width == w && f.height == h ==> distance(f, w, h) == 0,
        w <= f.width < u32::MAX ==> distance(
            CameraFormat { width: (f.width + 1) as u32, ..f },
            w,
            h,
        ) == distance(f, w, h) + 2,
        h <= f.height < u32::MAX ==> distance(
            CameraFormat { height: (f.height + 1) as u32, ..f },
            w,
            h,
        ) == distance(f, w, h) + 2,
        0 < f.width <= w ==> distance(CameraFormat { width: (f.width - 1) as u32, ..f }, w, h)
            == distance(f, w, h) + 1,
        0 < f.height <= h ==> distance(CameraFormat { height: (f.height - 1) as u32, ..f }, w, h)
            == distance(f, w, h) + 1,
{
}

/// Thirty frames a second are smooth, fewer are not; and the pixel formats are
/// numbered from the best on.
pub proof fn law_classes_of_modes(fps: int)
    ensures
        smoothness(fps) == 0 <==> fps >= 30,
        smoothness(fps) == 1 <==> fps < 30,
        pixel_rank(FrameFormat::YUYV) == 0,
        pixel_rank(FrameFormat::NV12) == 1,
        pixel_rank(FrameFormat::RAWRGB) == 2,
        pixel_rank(FrameFormat::RAWBGR) == 2,
        pixel_rank(FrameFormat::GRAY) == 3,
        pixel_rank(FrameFormat::MJPEG) == 4,
{
}

/// Between modes of one pixel format and frame rate nothing but their distance
/// from 1920x1080 decides, however it comes about.
pub proof fn law_closeness_decides_last(a: CameraFormat, b: CameraFormat)
    requires
        a.format == b.format,
        a.frame_rate == b.frame_rate,
    ensures
        ranks_before(a, b) <==> distance(a, 1920, 1080) < distance(b, 1920, 1080),
        ranks_alike(a, b) <==> distance(a, 1920, 1080) == distance(b, 1920, 1080),
{
}

/// Of the modes that rank like any given one, sorting keeps all, in the order in
/// which the device reported them.
pub proof fn law_order_within_a_rank_is_kept(
    a: Seq<CameraFormat>,
    b: Seq<CameraFormat>,
    c: CameraFormat,
)
    requires
        stably_sorted(a, b),
    ensures
        b.filter(|x: CameraFormat| ranks_alike(x, c)) == a.filter(
            |x: CameraFormat| ranks_alike(x, c),
        ),
{
    assert(alike_to(b, c) == alike_to(a, c));
}

} // verus!
