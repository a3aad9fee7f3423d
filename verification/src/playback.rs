//! Playing buffered samples: which are dropped, which are played, and how the
//! channels of the input map to those of the output.
use crate::ring::{ring_capacity, ring_items, SampleRing};
use vstd::prelude::*;

verus! {

/// Most input channels that are played.
pub const MAX_CHANNELS: usize = 16;

/// The bit pattern of a silent sample.
pub const SILENCE: u32 = 0;

/// What channel `c` of the output plays of an input frame: a single channel
/// goes to the first two, several go one to one, and the rest is silent.
pub open spec fn mapped(frame: Seq<u32>, c: int) -> u32 {
    if frame.len() == 1 {
        if c < 2 {
            frame[0]
        } else {
            SILENCE
        }
    } else if c < frame.len() {
        frame[c]
    } else {
        SILENCE
    }
}

/// Spreads one input frame over the `channels` output channels that start at
/// `at`.
pub fn map_frame(in_frame: &[u32], out: &mut [u32], at: usize, channels: usize)
    requires
        at + channels <= old(out)@.len(),
    ensures
        final(out)@.len() == old(out)@.len(),
        forall|c: int|
            0 <= c < channels ==> #[trigger] final(out)@[at + c] == mapped(in_frame@, c),
        forall|i: int|
            0 <= i < old(out)@.len() && !(at <= i < at + channels) ==> #[trigger] final(out)@[i]
                == old(out)@[i],
{
    let len: usize = out.len();
    let mut c: usize = 0;
    while c < channels
        invariant
            c <= channels,
            at + channels <= len,
            out@.len() == old(out)@.len() == len,
            forall|d: int| 0 <= d < c ==> #[trigger] out@[at + d] == mapped(in_frame@, d),
            forall|i: int|
                0 <= i < out@.len() && !(at <= i < at + c) ==> #[trigger] out@[i] == old(out)@[i],
        decreases channels - c,
    {
        let s: u32 = if in_frame.len() == 1 {
            if c < 2 {
                in_frame[0]
            } else {
                SILENCE
            }
        } else if c < in_frame.len() {
            in_frame[c]
        } else {
            SILENCE
        };
        out[at + c] = s;
        c = c + 1;
    }
}

/// What one call for output finds: `buffered` samples, a delay of `target`
/// samples to keep, and `frames` output frames to fill from frames of
/// `channels` samples.
pub struct Demand {
    pub buffered: int,
    pub target: int,
    pub channels: int,
    pub frames: int,
}

impl Demand {
    /// Samples beyond the delay, the demand and half a delay of slack.
    pub open spec fn overshoot(self) -> int {
        let drainable = if self.buffered > self.target {
            self.buffered - self.target
        } else {
            0
        };
        let keep = self.frames * self.channels + self.target / 2;
        if drainable > keep {
            drainable - keep
        } else {
            0
        }
    }

    /// Samples that are dropped to get back to the delay: whole frames only.
    pub open spec fn dropped(self) -> int {
        if self.channels > 0 {
            self.overshoot() - self.overshoot() % self.channels
        } else {
            0
        }
    }

    /// Samples that are left after the drop.
    pub open spec fn left(self) -> int {
        self.buffered - self.dropped()
    }

    /// Samples of each frame that are played.
    pub open spec fn played_channels(self) -> int {
        if self.channels <= MAX_CHANNELS {
            self.channels
        } else {
            MAX_CHANNELS as int
        }
    }

    /// A frame can be played while `len` samples are buffered: there is a whole
    /// one, and the delay is kept up to one frame.
    pub open spec fn playable(self, len: int) -> bool {
        &&& len >= self.channels
        &&& len > if self.target > self.channels {
            self.target - self.channels
        } else {
            0
        }
    }

    /// `n` frames are played: the delay allows each of them, and after them it
    /// allows no more or there is no more to fill.
    pub open spec fn plays(self, n: int) -> bool {
        &&& 0 <= n <= self.frames
        &&& forall|k: int|
            0 <= k < n ==> self.playable(#[trigger] self.after(k))
        &&& n < self.frames ==> !self.playable(self.after(n))
    }

    /// Samples that are buffered after `k` frames.
    pub open spec fn after(self, k: int) -> int {
        self.left() - k * self.played_channels()
    }
}

/// At most one number of frames is played.
pub proof fn law_played_frames_are_determined(d: Demand, m: int, n: int)
    requires
        d.plays(m),
        d.plays(n),
    ensures
        m == n,
{
    if m < n {
        assert(d.playable(d.after(m)));
    } else if n < m {
        assert(d.playable(d.after(n)));
    }
}

/// Catching up drops whole frames only, keeps the delay, the demand and half a
/// delay of slack, and leaves less than one frame beyond that.
pub proof fn law_catching_up(d: Demand)
    requires
        d.buffered >= 0,
        d.target >= 0,
        d.frames >= 0,
        d.channels > 0,
    ensures
        d.dropped() % d.channels == 0,
        0 <= d.dropped() <= d.buffered,
        d.dropped() > 0 ==> d.left() >= d.target + d.frames * d.channels + d.target / 2,
        d.left() < d.target + d.frames * d.channels + d.target / 2 + d.channels,
{
    let o = d.overshoot();
    let c = d.channels;
    assert(0 <= d.frames * c) by (nonlinear_arith)
        requires
            0 <= d.frames,
            0 < c,
    ;
    assert((o - o % c) % c == 0) by (nonlinear_arith)
        requires
            0 <= o,
            0 < c,
    ;
    assert(0 <= o % c < c && o % c <= o) by (nonlinear_arith)
        requires
            0 <= o,
            0 < c,
    ;
}

/// Playing keeps the delay up to two frames: where a frame was played, what is
/// left is more than the delay less two frames.
pub proof fn law_delay_is_kept(d: Demand, n: int)
    requires
        d.plays(n),
        d.channels >= 0,
        n > 0,
    ensures
        d.after(n) > d.target - 2 * d.channels,
        d.after(n) >= 0,
{
    assert(d.playable(d.after(n - 1)));
    assert(d.after(n) == d.after(n - 1) - d.played_channels()) by (nonlinear_arith)
        requires
            d.after(n) == d.left() - n * d.played_channels(),
            d.after(n - 1) == d.left() - (n - 1) * d.played_channels(),
    ;
}

/// Input frame `f` of `n` played ones: the next samples, or silence once the
/// buffer has run down to the delay.
pub open spec fn frame_at(items: Seq<u32>, d: Demand, n: int, f: int) -> Seq<u32> {
    let w = d.played_channels();
    if f < n {
        items.subrange(d.dropped() + f * w, d.dropped() + f * w + w)
    } else {
        Seq::new(w as nat, |i: int| SILENCE)
    }
}

/// Output frames in a buffer of `len` samples.
pub open spec fn frames_in(len: int, out_channels: int) -> int {
    if out_channels > 0 {
        len / out_channels
    } else {
        len
    }
}

/// `out` is what is heard of `items` where `n` frames are played: frame by
/// frame, and the samples behind the last whole frame as they were.
pub open spec fn heard(
    items: Seq<u32>,
    d: Demand,
    n: int,
    out_channels: int,
    before: Seq<u32>,
    out: Seq<u32>,
) -> bool {
    &&& out.len() == before.len()
    &&& forall|f: int, c: int|
        0 <= f < d.frames && 0 <= c < out_channels ==> #[trigger] out[slot(f, c, out_channels)]
            == mapped(frame_at(items, d, n, f), c)
    &&& forall|i: int|
        d.frames * out_channels <= i < out.len() ==> #[trigger] out[i] == before[i]
}

/// Where channel `c` of output frame `f` stands.
pub open spec fn slot(f: int, c: int, out_channels: int) -> int {
    f * out_channels + c
}

proof fn lemma_slot(f: int, c: int, frames: int, out_channels: int)
    by (nonlinear_arith)
    requires
        0 <= f < frames,
        0 <= c < out_channels,
    ensures
        0 <= slot(f, c, out_channels),
        f * out_channels <= slot(f, c, out_channels) < (f + 1) * out_channels,
        (f + 1) * out_channels <= frames * out_channels,
        (f + 1) * out_channels == f * out_channels + out_channels,
{
}

proof fn lemma_frames_fit(len: int, out_channels: int)
    by (nonlinear_arith)
    requires
        0 <= len,
        0 < out_channels,
    ensures
        (len / out_channels) * out_channels <= len,
        0 <= len / out_channels <= len,
{
}

/// Played frames hold the oldest samples that were not dropped, in their order.
pub proof fn law_oldest_samples_are_played(
    items: Seq<u32>,
    d: Demand,
    n: int,
    out_channels: int,
    before: Seq<u32>,
    out: Seq<u32>,
    f: int,
    c: int,
)
    requires
        heard(items, d, n, out_channels, before, out),
        d.plays(n),
        d.buffered == items.len(),
        d.target >= 0,
        0 <= f < n,
        0 < d.channels,
        0 <= c < d.played_channels(),
        c < out_channels,
    ensures
        out[slot(f, c, out_channels)] == items[d.dropped() + f * d.played_channels() + c],
{
    let w = d.played_channels();
    law_catching_up(d);
    assert(d.playable(d.after(f)));
    assert(0 <= f * w) by (nonlinear_arith)
        requires
            0 <= f,
            0 <= w,
    ;
    assert(out[slot(f, c, out_channels)] == mapped(frame_at(items, d, n, f), c));
}

/// A single input channel is heard alike on the first two output channels, and
/// on no other.
pub proof fn law_mono_is_heard_on_both_sides(
    items: Seq<u32>,
    d: Demand,
    n: int,
    out_channels: int,
    before: Seq<u32>,
    out: Seq<u32>,
    f: int,
    c: int,
)
    requires
        heard(items, d, n, out_channels, before, out),
        d.plays(n),
        d.buffered == items.len(),
        d.target >= 0,
        d.channels == 1,
        0 <= f < d.frames,
        0 <= c < out_channels,
    ensures
        c < 2 ==> out[slot(f, c, out_channels)] == out[slot(f, 0, out_channels)],
        c >= 2 ==> out[slot(f, c, out_channels)] == SILENCE,
{
    assert(out[slot(f, c, out_channels)] == mapped(frame_at(items, d, n, f), c));
    assert(out[slot(f, 0, out_channels)] == mapped(frame_at(items, d, n, f), 0));
    law_catching_up(d);
    if f < n {
        assert(d.playable(d.after(f)));
    }
    assert(frame_at(items, d, n, f).len() == 1);
}

/// Frames that the delay does not allow are silent.
pub proof fn law_unplayed_frames_are_silent(
    items: Seq<u32>,
    d: Demand,
    n: int,
    out_channels: int,
    before: Seq<u32>,
    out: Seq<u32>,
    f: int,
    c: int,
)
    requires
        heard(items, d, n, out_channels, before, out),
        0 <= n <= f < d.frames,
        0 <= d.channels,
        0 <= c < out_channels,
    ensures
        out[slot(f, c, out_channels)] == SILENCE,
{
    assert(out[slot(f, c, out_channels)] == mapped(frame_at(items, d, n, f), c));
}

/// Samples to drop, in numbers that cannot overflow.
fn drop_count(buffered: usize, target: usize, channels: u16, frames: usize) -> (n: usize)
    ensures
        n == (Demand {
            buffered: buffered as int,
            target: target as int,
            channels: channels as int,
            frames: frames as int,
        }).dropped(),
        n <= buffered,
{
    let drainable: usize = if buffered > target {
        buffered - target
    } else {
        0
    };
    assert(0 <= frames * channels <= 0xffff_ffff_ffff_ffff * 0xffff) by (nonlinear_arith)
        requires
            0 <= frames <= 0xffff_ffff_ffff_ffff,
            0 <= channels <= 0xffff,
    ;
    let keep: u128 = frames as u128 * channels as u128 + (target / 2) as u128;
    if channels > 0 && drainable as u128 > keep {
        let overshoot: usize = (drainable as u128 - keep) as usize;
        assert(overshoot % (channels as usize) <= overshoot) by (nonlinear_arith)
            requires
                channels > 0,
        ;
        overshoot - overshoot % (channels as usize)
    } else {
        assert(channels > 0 ==> 0int % (channels as int) == 0) by (nonlinear_arith);
        0
    }
}

/// Fills `out` from the ring: drops what has piled up beyond the delay, plays
/// frames while the delay allows, and is silent from there on. The samples of a
/// frame beyond the sixteenth channel stay in the ring.
pub fn fill(
    ring: &mut SampleRing,
    target: usize,
    in_channels: u16,
    out_channels: usize,
    out: &mut [u32],
)
    ensures
        ring_capacity(*final(ring)) == ring_capacity(*old(ring)),
        ring_items(*final(ring)).len() <= ring_items(*old(ring)).len(),
        ({
            let items = ring_items(*old(ring));
            let d = Demand {
                buffered: items.len() as int,
                target: target as int,
                channels: in_channels as int,
                frames: frames_in(old(out)@.len() as int, out_channels as int),
            };
            exists|n: int| #[trigger]
                d.plays(n) && ring_items(*final(ring)) == items.skip(
                    d.dropped() + n * d.played_channels(),
                ) && heard(items, d, n, out_channels as int, old(out)@, final(out)@)
        }),
{
    let len: usize = out.len();
    let buffered: usize = ring.occupied_len();
    let frames: usize = if out_channels > 0 {
        len / out_channels
    } else {
        len
    };
    let drop_now: usize = drop_count(buffered, target, in_channels, frames);
    let ghost items = ring_items(*ring);
    let ghost before = out@;
    let ghost d = Demand {
        buffered: buffered as int,
        target: target as int,
        channels: in_channels as int,
        frames: frames as int,
    };
    assert(items =~= items.skip(0));
    let mut dropped: usize = 0;
    while dropped < drop_now
        invariant
            dropped <= drop_now <= items.len(),
            ring_items(*ring) == items.skip(dropped as int),
            ring_capacity(*ring) == ring_capacity(*old(ring)),
        decreases drop_now - dropped,
    {
        let _ = ring.try_pop();
        proof {
            assert(items.skip(dropped as int).skip(1) =~= items.skip(dropped + 1));
        }
        dropped = dropped + 1;
    }
    let channels: usize = in_channels as usize;
    let played: usize = if channels <= MAX_CHANNELS {
        channels
    } else {
        MAX_CHANNELS
    };
    let floor: usize = if target > channels {
        target - channels
    } else {
        0
    };
    proof {
        if out_channels > 0 {
            lemma_frames_fit(len as int, out_channels as int);
        } else {
            assert(frames * out_channels == 0) by (nonlinear_arith)
                requires
                    out_channels == 0,
            ;
        }
        assert(0 * d.played_channels() == 0) by (nonlinear_arith);
        assert(0 * out_channels == 0) by (nonlinear_arith);
    }
    let ghost mut n: int = 0;
    let mut frame: Vec<u32> = Vec::new();
    let mut f: usize = 0;
    while f < frames
        invariant
            f <= frames,
            played as int == d.played_channels(),
            channels == in_channels,
            channels as int == d.channels,
            frames as int == d.frames,
            target as int == d.target,
            floor as int == if d.target > d.channels {
                d.target - d.channels
            } else {
                0
            },
            items.len() == d.buffered,
            0 <= d.dropped() <= d.buffered,
            len == out@.len() == before.len(),
            frames * out_channels <= len,
            0 <= n <= f,
            forall|k: int| 0 <= k < n ==> d.playable(#[trigger] d.after(k)),
            n < f ==> !d.playable(d.after(n)),
            0 <= n * d.played_channels(),
            d.dropped() + n * d.played_channels() <= items.len(),
            ring_items(*ring) == items.skip(d.dropped() + n * d.played_channels()),
            ring_capacity(*ring) == ring_capacity(*old(ring)),
            forall|g: int, c: int|
                0 <= g < f && 0 <= c < out_channels ==> #[trigger] out@[slot(
                    g,
                    c,
                    out_channels as int,
                )] == mapped(frame_at(items, d, n, g), c),
            forall|i: int|
                f * out_channels <= i < out@.len() ==> #[trigger] out@[i] == before[i],
        decreases frames - f,
    {
        let recheck: usize = ring.occupied_len();
        assert(recheck as int == d.after(n));
        let can_pop: bool = recheck >= channels && recheck > floor;
        assert(can_pop == d.playable(d.after(n)));
        let ghost start = d.dropped() + n * d.played_channels();
        frame.clear();
        while frame.len() < played
            invariant
                frame@.len() <= played,
                played <= channels,
                can_pop ==> start + played <= items.len(),
                0 <= start <= items.len(),
                can_pop ==> frame@ == items.subrange(start, start + frame@.len()),
                can_pop ==> ring_items(*ring) == items.skip(start + frame@.len()),
                !can_pop ==> frame@ == Seq::new(frame@.len(), |i: int| SILENCE),
                !can_pop ==> ring_items(*ring) == items.skip(start),
                ring_capacity(*ring) == ring_capacity(*old(ring)),
            decreases played - frame@.len(),
        {
            let ghost taken = frame@;
            let mut s: u32 = SILENCE;
            if can_pop {
                if let Some(sample) = ring.try_pop() {
                    s = sample;
                }
                proof {
                    let k = start + taken.len();
                    assert(items.skip(k).skip(1) =~= items.skip(k + 1));
                    assert(items.skip(k)[0] == items[k]);
                }
            }
            frame.push(s);
            proof {
                if can_pop {
                    assert(frame@ =~= items.subrange(start, start + frame@.len()));
                } else {
                    assert(frame@ =~= Seq::new(frame@.len(), |i: int| SILENCE));
                }
            }
        }
        let ghost m = n;
        proof {
            if can_pop {
                assert(n == f);
                assert((n + 1) * d.played_channels() == n * d.played_channels()
                    + d.played_channels()) by (nonlinear_arith);
                n = n + 1;
            }
            assert(frame@ =~= frame_at(items, d, n, f as int));
            assert forall|g: int| 0 <= g < f implies #[trigger] frame_at(items, d, m, g)
                == frame_at(items, d, n, g) by {}
        }
        let ghost written = out@;
        proof {
            assert((f + 1) * out_channels == f * out_channels + out_channels) by (nonlinear_arith);
            assert((f + 1) * out_channels <= frames * out_channels) by (nonlinear_arith)
                requires
                    f + 1 <= frames,
                    0 <= out_channels,
            ;
            assert(0 <= f * out_channels) by (nonlinear_arith)
                requires
                    0 <= f,
                    0 <= out_channels,
            ;
        }
        let at: usize = f * out_channels;
        map_frame(frame.as_slice(), out, at, out_channels);
        proof {
            assert forall|g: int, c: int| 0 <= g < f + 1 && 0 <= c < out_channels implies
                #[trigger] out@[slot(g, c, out_channels as int)] == mapped(
                frame_at(items, d, n, g),
                c,
            ) by {
                lemma_slot(g, c, frames as int, out_channels as int);
                if g < f {
                    lemma_slot(g, c, f as int, out_channels as int);
                    assert(written[slot(g, c, out_channels as int)] == mapped(
                        frame_at(items, d, m, g),
                        c,
                    ));
                } else {
                    assert(out@[at + c] == mapped(frame@, c));
                }
            }
        }
        f = f + 1;
    }
    proof {
        assert(d.plays(n));
    }
}

/// Only one number of samples can be dropped: whole frames, so that the delay,
/// the demand and half a delay stay where anything is dropped, and less than a
/// frame beyond that stays in any case.
proof fn lemma_dropped(d: Demand, drop: int)
    requires
        d.buffered >= 0,
        d.target >= 0,
        d.frames >= 0,
        d.channels > 0,
        0 <= drop <= d.buffered,
        drop % d.channels == 0,
        drop > 0 ==> d.buffered - drop >= d.target + d.frames * d.channels + d.target / 2,
        d.buffered - drop < d.target + d.frames * d.channels + d.target / 2 + d.channels,
    ensures
        d.dropped() == drop,
{
    law_catching_up(d);
    let c = d.channels;
    let x = d.dropped();
    let keep = d.target + d.frames * c + d.target / 2;
    assert(d.left() == d.buffered - x);
    assert(0 <= d.frames * c) by (nonlinear_arith)
        requires
            0 <= d.frames,
            0 < c,
    ;
    assert(-c < x - drop < c);
    assert(x == drop) by (nonlinear_arith)
        requires
            c > 0,
            x % c == 0,
            drop % c == 0,
            -c < x - drop < c,
    {
        let p = x / c;
        let q = drop / c;
        assert(x == p * c);
        assert(drop == q * c);
        assert((p - q) * c == x - drop);
        if p - q >= 1 {
            assert((p - q) * c >= c);
        }
        if p - q <= -1 {
            assert((p - q) * c <= -c);
        }
    }
}

/// Playing goes on: while a whole frame is buffered, and more than the delay
/// less one frame, the next output frame carries the oldest samples. `drop` is
/// what catching up takes away: whole frames, leaving the delay, the demand, half
/// a delay and less than one frame more.
pub proof fn law_the_oldest_frame_is_played_next(
    items: Seq<u32>,
    d: Demand,
    n: int,
    out_channels: int,
    before: Seq<u32>,
    out: Seq<u32>,
    drop: int,
    f: int,
    c: int,
)
    requires
        heard(items, d, n, out_channels, before, out),
        d.plays(n),
        d.buffered == items.len(),
        d.target >= 0,
        d.channels > 0,
        0 <= drop <= items.len(),
        drop % d.channels == 0,
        drop > 0 ==> items.len() - drop >= d.target + d.frames * d.channels + d.target / 2,
        items.len() - drop < d.target + d.frames * d.channels + d.target / 2 + d.channels,
        0 <= f < d.frames,
        ({
            let w = if d.channels <= 16 {
                d.channels
            } else {
                16
            };
            &&& items.len() - drop - f * w >= d.channels
            &&& items.len() - drop - f * w > d.target - d.channels
            &&& 0 <= c < w
        }),
        c < out_channels,
    ensures
        f < n,
        out[f * out_channels + c] == items[drop + f * if d.channels <= 16 {
            d.channels
        } else {
            16
        } + c],
{
    let w = d.played_channels();
    lemma_dropped(d, drop);
    if n <= f {
        assert(n * w <= f * w) by (nonlinear_arith)
            requires
                n <= f,
                0 <= w,
        ;
        assert(d.playable(d.after(n)));
    }
    law_oldest_samples_are_played(items, d, n, out_channels, before, out, f, c);
    assert(slot(f, c, out_channels) == f * out_channels + c);
}

/// Where the delay and all that is asked for are buffered, nothing is silent for
/// lack of samples: every frame is played, in order, and just those samples leave
/// the ring, behind those that catching up takes away.
pub proof fn law_enough_samples_are_all_played(
    items: Seq<u32>,
    d: Demand,
    n: int,
    out_channels: int,
    before: Seq<u32>,
    out: Seq<u32>,
    drop: int,
)
    requires
        heard(items, d, n, out_channels, before, out),
        d.plays(n),
        d.buffered == items.len(),
        d.target >= 0,
        1 <= d.channels <= 16,
        0 <= drop <= items.len(),
        drop % d.channels == 0,
        drop > 0 ==> items.len() - drop >= d.target + d.frames * d.channels + d.target / 2,
        items.len() - drop < d.target + d.frames * d.channels + d.target / 2 + d.channels,
        items.len() - drop >= d.target + d.frames * d.channels,
    ensures
        n == d.frames,
        d.dropped() + n * d.played_channels() == drop + d.frames * d.channels,
        forall|f: int, c: int|
            0 <= f < d.frames && 0 <= c < d.channels && c < out_channels ==> out[#[trigger] slot(
                f,
                c,
                out_channels,
            )] == items[drop + f * d.channels + c],
{
    let w = d.channels;
    lemma_dropped(d, drop);
    if n < d.frames {
        assert(n * w + w <= d.frames * w) by (nonlinear_arith)
            requires
                n + 1 <= d.frames,
                0 <= w,
        ;
        assert(d.playable(d.after(n)));
    }
    assert forall|f: int, c: int|
        0 <= f < d.frames && 0 <= c < d.channels && c < out_channels implies out[#[trigger] slot(
        f,
        c,
        out_channels,
    )] == items[drop + f * d.channels + c] by {
        law_oldest_samples_are_played(items, d, n, out_channels, before, out, f, c);
    }
}

/// The delay is kept: with less than a whole frame buffered, or no more than the
/// delay less one frame, the next output frame is silent.
pub proof fn law_too_few_samples_are_not_played(
    items: Seq<u32>,
    d: Demand,
    n: int,
    out_channels: int,
    before: Seq<u32>,
    out: Seq<u32>,
    drop: int,
    f: int,
    c: int,
)
    requires
        heard(items, d, n, out_channels, before, out),
        d.plays(n),
        d.buffered == items.len(),
        d.target >= 0,
        d.channels > 0,
        0 <= drop <= items.len(),
        drop % d.channels == 0,
        drop > 0 ==> items.len() - drop >= d.target + d.frames * d.channels + d.target / 2,
        items.len() - drop < d.target + d.frames * d.channels + d.target / 2 + d.channels,
        0 <= f < d.frames,
        ({
            let left = items.len() - drop - f * if d.channels <= 16 {
                d.channels
            } else {
                16
            };
            left < d.channels || left <= d.target - d.channels
        }),
        0 <= c < out_channels,
    ensures
        n <= f,
        out[f * out_channels + c] == 0,
{
    lemma_dropped(d, drop);
    if f < n {
        assert(d.playable(d.after(f)));
    }
    law_unplayed_frames_are_silent(items, d, n, out_channels, before, out, f, c);
    assert(slot(f, c, out_channels) == f * out_channels + c);
}

/// With no input channels nothing is dropped and everything is silent.
pub proof fn law_no_channels_no_sound(
    items: Seq<u32>,
    d: Demand,
    n: int,
    out_channels: int,
    before: Seq<u32>,
    out: Seq<u32>,
    f: int,
    c: int,
)
    requires
        heard(items, d, n, out_channels, before, out),
        d.plays(n),
        d.channels == 0,
        0 <= f < d.frames,
        0 <= c < out_channels,
    ensures
        d.dropped() + n * d.played_channels() == 0,
        out[f * out_channels + c] == 0,
{
    assert(n * 0 == 0) by (nonlinear_arith);
    assert(f * 0 == 0) by (nonlinear_arith);
    assert(out[slot(f, c, out_channels)] == mapped(frame_at(items, d, n, f), c));
    assert(frame_at(items, d, n, f).len() == 0);
}

/// Output channels beyond those of the input are silent, unless the input is
/// mono.
pub proof fn law_missing_channels_are_silent(
    items: Seq<u32>,
    d: Demand,
    n: int,
    out_channels: int,
    before: Seq<u32>,
    out: Seq<u32>,
    f: int,
    c: int,
)
    requires
        heard(items, d, n, out_channels, before, out),
        d.plays(n),
        d.buffered == items.len(),
        d.target >= 0,
        d.channels >= 2,
        0 <= f < d.frames,
        0 <= c < out_channels,
        c >= d.channels || c >= 16,
    ensures
        out[f * out_channels + c] == 0,
{
    law_catching_up(d);
    let w = d.played_channels();
    if f < n {
        assert(d.playable(d.after(f)));
    }
    assert(0 <= f * w) by (nonlinear_arith)
        requires
            0 <= f,
            0 <= w,
    ;
    assert(out[slot(f, c, out_channels)] == mapped(frame_at(items, d, n, f), c));
    assert(frame_at(items, d, n, f).len() == w);
}

/// As many whole frames are filled as the output buffer holds; without output
/// channels each sample counts as one.
pub proof fn law_whole_frames_are_filled(len: int, out_channels: int)
    requires
        len >= 0,
        out_channels >= 0,
    ensures
        out_channels > 0 ==> frames_in(len, out_channels) * out_channels <= len < frames_in(
            len,
            out_channels,
        ) * out_channels + out_channels,
        out_channels == 0 ==> frames_in(len, out_channels) == len,
{
    if out_channels > 0 {
        assert((len / out_channels) * out_channels <= len < (len / out_channels) * out_channels
            + out_channels) by (nonlinear_arith)
            requires
                0 <= len,
                0 < out_channels,
        ;
    }
}

/// What is behind the last whole frame of the output stays as it was.
pub proof fn law_the_rest_of_the_output_stays(
    items: Seq<u32>,
    d: Demand,
    n: int,
    out_channels: int,
    before: Seq<u32>,
    out: Seq<u32>,
    i: int,
)
    requires
        heard(items, d, n, out_channels, before, out),
        d.frames * out_channels <= i < before.len(),
    ensures
        out.len() == before.len(),
        out[i] == before[i],
{
}

/// What was played has left the ring and nothing else has but what catching up
/// takes away: sixteen samples of a frame at the most.
pub proof fn law_played_samples_leave(d: Demand, n: int, drop: int)
    requires
        d.plays(n),
        d.buffered >= 0,
        d.target >= 0,
        d.channels > 0,
        0 <= drop <= d.buffered,
        drop % d.channels == 0,
        drop > 0 ==> d.buffered - drop >= d.target + d.frames * d.channels + d.target / 2,
        d.buffered - drop < d.target + d.frames * d.channels + d.target / 2 + d.channels,
    ensures
        d.channels <= 16 ==> d.dropped() + n * d.played_channels() == drop + n * d.channels,
        d.channels > 16 ==> d.dropped() + n * d.played_channels() == drop + n * 16,
{
    lemma_dropped(d, drop);
}

/// Nothing is dropped up to the delay, the demand and half a delay.
pub proof fn law_nothing_is_dropped_in_time(d: Demand)
    requires
        d.buffered >= 0,
        d.target >= 0,
        d.frames >= 0,
        d.channels > 0,
        d.buffered < d.target + d.frames * d.channels + d.target / 2 + d.channels,
    ensures
        d.dropped() == 0,
{
    assert(0int % d.channels == 0) by (nonlinear_arith)
        requires
            d.channels > 0,
    ;
    lemma_dropped(d, 0);
}

/// Channels keep their place: what the input has for a channel the output plays
/// on it. A single channel is played on the second as well, and whatever the
/// input does not have is silent.
pub proof fn law_channels_keep_their_place(frame: Seq<u32>, c: int)
    requires
        c >= 0,
    ensures
        c < frame.len() ==> mapped(frame, c) == frame[c],
        frame.len() == 1 && c == 1 ==> mapped(frame, c) == frame[0],
        c >= frame.len() && !(frame.len() == 1 && c == 1) ==> mapped(frame, c) == 0,
{
}

} // verus!
