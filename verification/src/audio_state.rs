//! What the audio passthrough is set to and what it runs with.
use vstd::prelude::*;

verus! {

/// Settings and status of the passthrough.
#[derive(Debug)]
pub struct AudioState {
    pub input_name: String,
    pub output_name: String,
    pub sample_rate: u32,
    /// Channels of the input stream.
    pub channels: u32,
    /// Channels the output device runs at.
    pub output_channels: u32,
    pub target_delay_ms: u32,
    pub buffered_samples: usize,
    pub volume_percent: u32,
    pub muted: bool,
}

/// Loudest volume that can be set.
pub const MAX_VOLUME: u32 = 200;

/// The user's volume, mute and delay are the same in both.
pub open spec fn same_knobs(a: AudioState, b: AudioState) -> bool {
    &&& a.target_delay_ms == b.target_delay_ms
    &&& a.volume_percent == b.volume_percent
    &&& a.muted == b.muted
}

impl AudioState {
    /// Channels of the input stream, as many as sixteen bits hold.
    pub open spec fn in_channels(self) -> int {
        self.channels as int % 0x1_0000
    }

    /// Samples that make up the delay.
    pub open spec fn delay_len(self) -> int {
        if self.sample_rate == 0 || self.in_channels() == 0 {
            0
        } else {
            self.sample_rate as int * self.in_channels() * self.target_delay_ms as int / 1000
        }
    }

    /// The delay can be computed on this machine.
    pub open spec fn delay_computable(self) -> bool {
        self.sample_rate as int * self.in_channels() * self.target_delay_ms as int <= usize::MAX
    }

    /// How long the buffered samples play.
    pub open spec fn buffered_time(self) -> int {
        if self.sample_rate == 0 || self.in_channels() == 0 {
            0
        } else {
            self.buffered_samples as int * 1000 / (self.sample_rate as int * self.in_channels())
        }
    }

    /// The passthrough before any device is open.
    pub fn new(delay_ms: u32) -> (s: Self)
        ensures
            s.input_name@ == ""@,
            s.output_name@ == ""@,
            s.sample_rate == 0,
            s.channels == 0,
            s.output_channels == 0,
            s.target_delay_ms == delay_ms,
            s.buffered_samples == 0,
            s.volume_percent == 100,
            !s.muted,
    {
        AudioState {
            input_name: crate::text::line(""),
            output_name: crate::text::line(""),
            sample_rate: 0,
            channels: 0,
            output_channels: 0,
            target_delay_ms: delay_ms,
            buffered_samples: 0,
            volume_percent: 100,
            muted: false,
        }
    }

    pub fn input_name(&self) -> (s: String)
        ensures
            s@ == self.input_name@,
    {
        self.input_name.clone()
    }

    pub fn output_name(&self) -> (s: String)
        ensures
            s@ == self.output_name@,
    {
        self.output_name.clone()
    }

    pub fn sample_rate(&self) -> (n: u32)
        ensures
            n == self.sample_rate,
    {
        self.sample_rate
    }

    pub fn channels(&self) -> (n: u16)
        ensures
            n == self.in_channels(),
    {
        (self.channels % 0x1_0000) as u16
    }

    /// How long the buffered samples play, in milliseconds; it starts over at
    /// the end of the 32 bit range.
    pub fn buffered_ms(&self) -> (ms: u32)
        ensures
            ms == self.buffered_time() % 0x1_0000_0000,
    {
        let sr: u32 = self.sample_rate();
        let ch: u16 = self.channels();
        if sr == 0 || ch == 0 {
            return 0;
        }
        assert(0 < sr * ch <= 0xffff_ffff * 0xffff) by (nonlinear_arith)
            requires
                0 < sr <= 0xffff_ffff,
                0 < ch <= 0xffff,
        ;
        let per_second: u64 = sr as u64 * ch as u64;
        let ms: u128 = (self.buffered_samples as u128 * 1000) / per_second as u128;
        (ms % 0x1_0000_0000) as u32
    }

    pub fn delay_ms(&self) -> (ms: u32)
        ensures
            ms == self.target_delay_ms,
    {
        self.target_delay_ms
    }

    pub fn set_delay_ms(&mut self, ms: u32)
        ensures
            *final(self) == (AudioState { target_delay_ms: ms, ..*old(self) }),
    {
        self.target_delay_ms = ms;
    }

    pub fn volume(&self) -> (percent: u32)
        ensures
            percent == self.volume_percent,
    {
        self.volume_percent
    }

    /// Sets the volume; anything louder than the maximum counts as that.
    pub fn set_volume(&mut self, percent: u32)
        ensures
            *final(self) == (AudioState {
                volume_percent: if percent <= MAX_VOLUME {
                    percent
                } else {
                    MAX_VOLUME
                },
                ..*old(self)
            }),
            final(self).volume_percent <= MAX_VOLUME,
            percent <= 200 ==> final(self).volume_percent == percent,
            percent > 200 ==> final(self).volume_percent == 200,
    {
        self.volume_percent = if percent <= MAX_VOLUME {
            percent
        } else {
            MAX_VOLUME
        };
    }

    pub fn is_muted(&self) -> (m: bool)
        ensures
            m == self.muted,
    {
        self.muted
    }

    pub fn set_muted(&mut self, m: bool)
        ensures
            *final(self) == (AudioState { muted: m, ..*old(self) }),
    {
        self.muted = m;
    }

    /// Whether the delay can be computed on this machine.
    pub fn delay_fits(&self) -> (r: bool)
        ensures
            r == self.delay_computable(),
    {
        let product: u128 = self.delay_product();
        product <= usize::MAX as u128
    }

    fn delay_product(&self) -> (p: u128)
        ensures
            p == self.sample_rate as int * self.in_channels() * self.target_delay_ms as int,
    {
        let sr: u32 = self.sample_rate;
        let ch: u16 = self.channels();
        let ms: u32 = self.target_delay_ms;
        assert(0 <= sr * ch <= 0xffff_ffff * 0xffff) by (nonlinear_arith)
            requires
                0 <= sr <= 0xffff_ffff,
                0 <= ch <= 0xffff,
        ;
        let per_second: u64 = sr as u64 * ch as u64;
        assert(0 <= per_second * ms <= 0xffff_ffff_ffff_ffff * 0xffff_ffff) by (nonlinear_arith)
            requires
                0 <= per_second <= 0xffff_ffff_ffff_ffff,
                0 <= ms <= 0xffff_ffff,
        ;
        per_second as u128 * ms as u128
    }

    /// Samples that make up the delay.
    pub fn delay_samples(&self) -> (n: usize)
        requires
            self.delay_computable(),
        ensures
            n == self.delay_len(),
    {
        let sr: u32 = self.sample_rate();
        let ch: u16 = self.channels();
        if sr == 0 || ch == 0 {
            return 0;
        }
        let product: u128 = self.delay_product();
        product as usize / 1000
    }
}

/// The delay in samples is the delay in time at the stream's pace, rounded down:
/// no less than a sample short of it and no more than it. Channels count as far
/// as sixteen bits hold them.
pub proof fn law_delay_lasts_as_long_as_set(s: AudioState)
    ensures
        ({
            let product = s.sample_rate as int * (s.channels as int % 0x1_0000)
                * s.target_delay_ms as int;
            &&& s.delay_len() >= 0
            &&& s.delay_len() * 1000 <= product
            &&& product - s.delay_len() * 1000 < 1000
        }),
        s.channels <= 0xffff ==> s.in_channels() == s.channels,
{
    let sr = s.sample_rate as int;
    let ch = s.channels as int % 0x1_0000;
    let ms = s.target_delay_ms as int;
    assert(sr == 0 || ch == 0 ==> sr * ch * ms == 0) by (nonlinear_arith);
    assert(0 <= sr * ch * ms) by (nonlinear_arith)
        requires
            0 <= sr,
            0 <= ch,
            0 <= ms,
    ;
}

/// The time that is shown for the buffered samples is how long they play,
/// rounded down to milliseconds, and none where no stream runs.
pub proof fn law_buffered_time_is_playing_time(s: AudioState)
    ensures
        ({
            let pace = s.sample_rate as int * (s.channels as int % 0x1_0000);
            &&& pace == 0 ==> s.buffered_time() == 0
            &&& pace > 0 ==> s.buffered_time() * pace <= s.buffered_samples * 1000
            &&& pace > 0 ==> s.buffered_samples * 1000 < (s.buffered_time() + 1) * pace
        }),
{
    let a = s.buffered_samples as int * 1000;
    let b = s.sample_rate as int * (s.channels as int % 0x1_0000);
    assert(s.sample_rate > 0 && s.channels as int % 0x1_0000 > 0 ==> b > 0) by (nonlinear_arith)
        requires
            b == s.sample_rate as int * (s.channels as int % 0x1_0000),
    ;
    assert(s.sample_rate == 0 || s.channels as int % 0x1_0000 == 0 ==> b == 0) by (nonlinear_arith)
        requires
            b == s.sample_rate as int * (s.channels as int % 0x1_0000),
    ;
    assert(b > 0 ==> (a / b) * b <= a && a < (a / b + 1) * b) by (nonlinear_arith)
        requires
            0 <= a,
    ;
}

/// A delay that is no more than 32 bits of samples and milliseconds can be
/// computed on every machine.
pub proof fn law_ordinary_delays_can_be_computed(s: AudioState)
    requires
        s.sample_rate as int * (s.channels as int % 0x1_0000) * s.target_delay_ms as int
            <= 0xffff_ffff,
    ensures
        s.delay_computable(),
{
}

/// Two states have the same knobs just where delay, volume and mute agree.
pub proof fn law_knobs_are_delay_volume_and_mute(a: AudioState, b: AudioState)
    ensures
        same_knobs(a, b) <==> (a.target_delay_ms, a.volume_percent, a.muted) == (
            b.target_delay_ms,
            b.volume_percent,
            b.muted,
        ),
{
}

} // verus!
