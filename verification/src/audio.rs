//! Audio passthrough: which devices it runs between, and the samples in between.
use crate::audio_state::{same_knobs, AudioState};
use crate::playback::{fill, frames_in, heard, Demand};
use crate::ring::{ring_capacity, ring_items, SampleRing};
use crate::text::line;
use vstd::prelude::*;
use vstd::string::*;

verus! {

/// How the samples of a stream are encoded.
#[derive(Debug, PartialEq, Eq)]
pub enum SampleFormat {
    F32,
    I16,
    U16,
    /// Any other encoding, by its name.
    Other(String),
}

/// The stream that a device runs by default.
#[derive(Debug, PartialEq, Eq)]
pub struct DeviceConfig {
    pub sample_rate: u32,
    pub channels: u16,
    pub format: SampleFormat,
}

/// An audio device as the host reports it. The name and the default stream are
/// missing where the device would not tell.
#[derive(Debug)]
pub struct AudioDevice {
    pub name: Option<String>,
    pub config: Option<DeviceConfig>,
}

/// Why the passthrough could not be started or switched.
#[derive(Debug, PartialEq, Eq)]
pub enum AudioError {
    /// There is no default audio input device.
    NoDefaultInput,
    /// There is no default audio output device.
    NoDefaultOutput,
    /// No input device has that name.
    InputNotFound,
    /// No output device has that name.
    OutputNotFound,
    /// There is no output device to go with the input.
    NoOutput,
    /// The input device that was in use is gone.
    InputGone,
    /// The default input stream could not be queried.
    InputConfig,
    /// The default output stream could not be queried.
    OutputConfig,
    /// The input delivers samples in this encoding, which cannot be converted.
    UnsupportedFormat(String),
}

impl AudioError {
    /// What is said of it, where `name` is the device that was asked for.
    pub open spec fn said(self, name: Seq<char>) -> Seq<char> {
        match self {
            AudioError::NoDefaultInput => "no default audio input device"@,
            AudioError::NoDefaultOutput => "no default audio output device"@,
            AudioError::InputNotFound => "input device '"@ + name + "' not found"@,
            AudioError::OutputNotFound => "output device '"@ + name + "' not found"@,
            AudioError::NoOutput => "no output device available"@,
            AudioError::InputGone => "input device gone"@,
            AudioError::InputConfig => "failed to query default input config"@,
            AudioError::OutputConfig => "failed to query default output config"@,
            AudioError::UnsupportedFormat(format) => "unsupported audio input sample format: "@
                + format@,
        }
    }

    /// The error in words.
    pub fn message(&self, name: &str) -> (s: String)
        ensures
            s@ == self.said(name@),
    {
        match self {
            AudioError::NoDefaultInput => line("no default audio input device"),
            AudioError::NoDefaultOutput => line("no default audio output device"),
            AudioError::InputNotFound => quoted("input device '", name),
            AudioError::OutputNotFound => quoted("output device '", name),
            AudioError::NoOutput => line("no output device available"),
            AudioError::InputGone => line("input device gone"),
            AudioError::InputConfig => line("failed to query default input config"),
            AudioError::OutputConfig => line("failed to query default output config"),
            AudioError::UnsupportedFormat(format) => {
                let mut out: String = line("unsupported audio input sample format: ");
                out.append(format.as_str());
                out
            },
        }
    }
}

fn quoted(lead: &str, name: &str) -> (s: String)
    ensures
        s@ == lead@ + name@ + "' not found"@,
{
    let mut out: String = line(lead);
    out.append(name);
    out.append("' not found");
    out
}

/// `s` in lower case.
pub uninterp spec fn lowered(s: Seq<char>) -> Seq<char>;

/// Calls `str::to_lowercase`. Its result is only named.
#[verifier::external_body]
fn to_lowercase(s: &str) -> (r: String)
    ensures
        r@ == lowered(s@),
{
    s.to_lowercase()
}

/// `needle` stands somewhere in `hay`.
pub open spec fn occurs(hay: Seq<char>, needle: Seq<char>) -> bool {
    exists|i: int|
        0 <= i <= hay.len() - needle.len() && #[trigger] hay.subrange(i, i + needle.len())
            == needle
}

/// Calls `str::contains` with a string as its pattern: whether it matches a
/// part of `hay`.
#[verifier::external_body]
fn contains(hay: &str, needle: &str) -> (r: bool)
    ensures
        r == occurs(hay@, needle@),
{
    hay.contains(needle)
}

/// Device `i` has the name `name`.
pub open spec fn is_named(devices: Seq<AudioDevice>, i: int, name: Seq<char>) -> bool {
    &&& 0 <= i < devices.len()
    &&& devices[i].name matches Some(s)
    &&& s@ == name
}

/// `i` is the first device with the name `name`.
pub open spec fn is_first_named(devices: Seq<AudioDevice>, i: int, name: Seq<char>) -> bool {
    &&& is_named(devices, i, name)
    &&& forall|j: int| 0 <= j < i ==> !#[trigger] is_named(devices, j, name)
}

/// The first device with the name `name`.
pub fn find_device(devices: &[AudioDevice], name: &str) -> (r: Option<usize>)
    ensures
        match r {
            Some(i) => is_first_named(devices@, i as int, name@),
            None => forall|j: int| !#[trigger] is_named(devices@, j, name@),
        },
{
    let wanted: String = line(name);
    let mut i: usize = 0;
    while i < devices.len()
        invariant
            i <= devices@.len(),
            wanted@ == name@,
            forall|j: int| 0 <= j < i ==> !#[trigger] is_named(devices@, j, name@),
        decreases devices@.len() - i,
    {
        if let Some(s) = &devices[i].name {
            if *s == wanted {
                return Some(i);
            }
        }
        i = i + 1;
    }
    None
}

/// The lower case name of device `i` holds `needle`.
pub open spec fn is_hinted(names: Seq<Option<Seq<char>>>, i: int, needle: Seq<char>) -> bool {
    &&& 0 <= i < names.len()
    &&& names[i] matches Some(s)
    &&& occurs(s, needle)
}

/// `i` is the first whose lower case name holds `needle`.
pub open spec fn is_first_hinted(names: Seq<Option<Seq<char>>>, i: int, needle: Seq<char>) -> bool {
    &&& is_hinted(names, i, needle)
    &&& forall|j: int| 0 <= j < i ==> !#[trigger] is_hinted(names, j, needle)
}

/// The names of devices, where they are known.
pub open spec fn names_of(names: Seq<Option<String>>) -> Seq<Option<Seq<char>>> {
    Seq::new(
        names.len(),
        |i: int|
            match names[i] {
                Some(s) => Some(s@),
                None => None,
            },
    )
}

/// The lower case names of devices, where they are known.
pub open spec fn lowered_names(devices: Seq<AudioDevice>) -> Seq<Option<Seq<char>>> {
    Seq::new(
        devices.len(),
        |i: int|
            match devices[i].name {
                Some(s) => Some(lowered(s@)),
                None => None,
            },
    )
}

/// The first of the lower case `names` that holds `needle`.
pub fn first_hinted(names: &[Option<String>], needle: &str) -> (r: Option<usize>)
    ensures
        match r {
            Some(i) => is_first_hinted(names_of(names@), i as int, needle@),
            None => forall|j: int| !#[trigger] is_hinted(names_of(names@), j, needle@),
        },
{
    let mut i: usize = 0;
    while i < names.len()
        invariant
            i <= names@.len(),
            forall|j: int| 0 <= j < i ==> !#[trigger] is_hinted(names_of(names@), j, needle@),
        decreases names@.len() - i,
    {
        if let Some(s) = &names[i] {
            if contains(s.as_str(), needle) {
                return Some(i);
            }
        }
        i = i + 1;
    }
    None
}

/// Where the input comes from.
#[derive(Debug, Clone, Copy, PartialEq, Eq, Structural)]
pub enum InputChoice {
    /// This one of the listed devices.
    Listed(usize),
    /// The system default.
    Default,
}

/// `choice` is where the input comes from: the first device that the hint
/// fits, or the default where it fits none.
pub open spec fn is_input_choice(
    devices: Seq<AudioDevice>,
    hint: Option<Seq<char>>,
    choice: InputChoice,
) -> bool {
    match choice {
        InputChoice::Listed(i) => hint matches Some(h) && is_first_hinted(
            lowered_names(devices),
            i as int,
            lowered(h),
        ),
        InputChoice::Default => hint matches Some(h) ==> forall|j: int|
            !#[trigger] is_hinted(lowered_names(devices), j, lowered(h)),
    }
}

/// The characters of an optional text.
pub open spec fn text_of(s: Option<&str>) -> Option<Seq<char>> {
    match s {
        Some(s) => Some(s@),
        None => None,
    }
}

/// Picks the input: the first device whose name holds the hint, whatever the
/// case of the letters, or else the system default.
pub fn pick_input(devices: &[AudioDevice], has_default: bool, hint: Option<&str>) -> (r: Result<
    InputChoice,
    AudioError,
>)
    ensures
        match r {
            Ok(choice) => is_input_choice(devices@, text_of(hint), choice) && (choice
                == InputChoice::Default ==> has_default),
            Err(e) => e == AudioError::NoDefaultInput && !has_default && is_input_choice(
                devices@,
                text_of(hint),
                InputChoice::Default,
            ),
        },
{
    if let Some(h) = hint {
        let needle: String = to_lowercase(h);
        let mut names: Vec<Option<String>> = Vec::new();
        let mut i: usize = 0;
        while i < devices.len()
            invariant
                i <= devices@.len(),
                names@.len() == i,
                forall|j: int|
                    0 <= j < i ==> names_of(names@)[j] == #[trigger] lowered_names(devices@)[j],
            decreases devices@.len() - i,
        {
            let ghost before = names@;
            names.push(
                match &devices[i].name {
                    Some(s) => Some(to_lowercase(s.as_str())),
                    None => None,
                },
            );
            assert forall|j: int| 0 <= j < i + 1 implies names_of(names@)[j]
                == #[trigger] lowered_names(devices@)[j] by {
                if j < i {
                    assert(names_of(before)[j] == lowered_names(devices@)[j]);
                }
            }
            i = i + 1;
        }
        assert(names_of(names@) =~= lowered_names(devices@));
        if let Some(k) = first_hinted(names.as_slice(), needle.as_str()) {
            return Ok(InputChoice::Listed(k));
        }
    }
    if has_default {
        Ok(InputChoice::Default)
    } else {
        Err(AudioError::NoDefaultInput)
    }
}

/// Room for samples before the ring counts as full, at the least.
pub const MIN_ROOM: usize = 4096;

/// Room in the ring: two seconds, or twice the delay and some more.
pub open spec fn room(config: DeviceConfig, delay: int) -> int {
    let two_seconds = config.sample_rate as int * config.channels as int * 2;
    let two_delays = delay * 2 + MIN_ROOM;
    if two_seconds >= two_delays {
        two_seconds
    } else {
        two_delays
    }
}

/// The ring holds the whole delay, and as much again.
pub proof fn law_ring_outlasts_the_delay(config: DeviceConfig, delay_ms: u32)
    ensures
        room(config, delay_of(config, delay_ms)) > 2 * delay_of(config, delay_ms),
{
}

/// The state once streams were set up between two devices.
pub open spec fn set_up(
    before: AudioState,
    input: AudioDevice,
    output: AudioDevice,
    in_config: DeviceConfig,
    out_config: DeviceConfig,
    after: AudioState,
) -> bool {
    &&& after.input_name@ == shown_name(input)
    &&& after.output_name@ == shown_name(output)
    &&& after.sample_rate == in_config.sample_rate
    &&& after.channels == in_config.channels
    &&& after.output_channels == out_config.channels
    &&& after.buffered_samples == before.buffered_samples
    &&& same_knobs(before, after)
}

/// The name of a device as it is shown.
pub open spec fn shown_name(d: AudioDevice) -> Seq<char> {
    match d.name {
        Some(s) => s@,
        None => "<unknown>"@,
    }
}

fn name_or_unknown(d: &AudioDevice) -> (s: String)
    ensures
        s@ == shown_name(*d),
{
    match &d.name {
        Some(s) => s.clone(),
        None => line("<unknown>"),
    }
}

/// Samples that make up `delay_ms` of a stream.
pub open spec fn delay_of(config: DeviceConfig, delay_ms: u32) -> int {
    config.sample_rate as int * config.channels as int * delay_ms as int / 1000
}

/// The ring for a stream with that delay can be had on this machine.
pub open spec fn ring_fits(config: DeviceConfig, delay_ms: u32) -> bool {
    &&& config.sample_rate as int * config.channels as int * delay_ms as int <= usize::MAX
    &&& 4 * room(config, delay_of(config, delay_ms)) <= isize::MAX
}

/// What runs between an input and an output device: the ring, and the channels
/// that the two were opened with.
pub struct Streams {
    ring: SampleRing,
    in_channels: u16,
    out_channels: usize,
}

impl Streams {
    /// The samples in the ring, oldest first.
    pub closed spec fn samples(self) -> Seq<u32> {
        ring_items(self.ring)
    }

    /// How many samples the ring can hold.
    pub closed spec fn capacity(self) -> nat {
        ring_capacity(self.ring)
    }

    /// Channels of the input when it was opened.
    pub closed spec fn input_channels(self) -> int {
        self.in_channels as int
    }

    /// Channels of the output when it was opened.
    pub closed spec fn output_channels(self) -> int {
        self.out_channels as int
    }

    /// The ring holds no more than there is room for.
    pub open spec fn within_room(self) -> bool {
        self.samples().len() <= self.capacity()
    }

    /// Freshly opened for an input and an output stream.
    pub open spec fn fresh(
        self,
        in_config: DeviceConfig,
        out_config: DeviceConfig,
        delay_ms: u32,
    ) -> bool {
        &&& self.samples() == Seq::<u32>::empty()
        &&& self.capacity() == room(in_config, delay_of(in_config, delay_ms))
        &&& self.within_room()
        &&& self.input_channels() == in_config.channels
        &&& self.output_channels() == out_config.channels
    }
}

/// The ring between two devices fits, where they tell their streams.
pub open spec fn devices_fit(input: AudioDevice, delay_ms: u32) -> bool {
    input.config matches Some(c) ==> ring_fits(c, delay_ms)
}

/// Whether the ring for a stream with that delay can be had on this machine.
pub fn config_fits(config: &DeviceConfig, delay_ms: u32) -> (r: bool)
    ensures
        r == ring_fits(*config, delay_ms),
{
    let sr: u32 = config.sample_rate;
    let ch: u16 = config.channels;
    assert(0 <= sr * ch <= 0xffff_ffff * 0xffff) by (nonlinear_arith)
        requires
            0 <= sr <= 0xffff_ffff,
            0 <= ch <= 0xffff,
    ;
    let per_second: u64 = sr as u64 * ch as u64;
    assert(0 <= per_second * delay_ms <= 0xffff_ffff_ffff_ffff * 0xffff_ffff) by (nonlinear_arith)
        requires
            0 <= per_second <= 0xffff_ffff_ffff_ffff,
            0 <= delay_ms <= 0xffff_ffff,
    ;
    let product: u128 = per_second as u128 * delay_ms as u128;
    if product > usize::MAX as u128 {
        return false;
    }
    let two_seconds: u128 = per_second as u128 * 2;
    let two_delays: u128 = product / 1000 * 2 + MIN_ROOM as u128;
    let limit: u128 = isize::MAX as u128;
    4 * two_seconds <= limit && 4 * two_delays <= limit
}

/// Whether the ring for a device can be had on this machine, where it tells its
/// stream.
pub fn device_fits(input: &AudioDevice, delay_ms: u32) -> (r: bool)
    ensures
        r == devices_fit(*input, delay_ms),
{
    match &input.config {
        Some(c) => config_fits(c, delay_ms),
        None => true,
    }
}

/// What comes of setting up streams between two devices: both have to tell
/// their default stream; the state names the new devices even where the input's
/// samples turn out not to be convertible.
pub open spec fn streams_built(
    before: AudioState,
    input: AudioDevice,
    output: AudioDevice,
    after: AudioState,
    r: Result<Streams, AudioError>,
) -> bool {
    match (input.config, output.config) {
        (None, _) => r == Err::<Streams, AudioError>(AudioError::InputConfig) && after == before,
        (Some(_), None) => r == Err::<Streams, AudioError>(AudioError::OutputConfig) && after
            == before,
        (Some(ic), Some(oc)) => {
            &&& set_up(before, input, output, ic, oc, after)
            &&& match ic.format {
                SampleFormat::Other(format) => r == Err::<Streams, AudioError>(
                    AudioError::UnsupportedFormat(format),
                ),
                _ => r matches Ok(s) && s.fresh(ic, oc, before.target_delay_ms),
            }
        },
    }
}

/// Sets up streams between two devices, and what the state says of them.
fn build_streams(state: &mut AudioState, input: &AudioDevice, output: &AudioDevice) -> (r: Result<
    Streams,
    AudioError,
>)
    requires
        devices_fit(*input, old(state).target_delay_ms),
    ensures
        streams_built(*old(state), *input, *output, *final(state), r),
{
    let in_config = match &input.config {
        Some(c) => c,
        None => return Err(AudioError::InputConfig),
    };
    let out_config = match &output.config {
        Some(c) => c,
        None => return Err(AudioError::OutputConfig),
    };
    state.input_name = name_or_unknown(input);
    state.output_name = name_or_unknown(output);
    state.sample_rate = in_config.sample_rate;
    state.channels = in_config.channels as u32;
    state.output_channels = out_config.channels as u32;
    proof {
        let sr = in_config.sample_rate as int;
        let ch = in_config.channels as int;
        let ms = old(state).target_delay_ms as int;
        assert(state.in_channels() == ch);
        assert(sr == 0 || ch == 0 ==> sr * ch * ms == 0) by (nonlinear_arith);
        assert(0 <= sr * ch) by (nonlinear_arith)
            requires
                0 <= sr,
                0 <= ch,
        ;
    }
    let delay: usize = state.delay_samples();
    assert(delay == delay_of(*in_config, old(state).target_delay_ms));
    let two_seconds: usize = in_config.sample_rate as usize * in_config.channels as usize * 2;
    let two_delays: usize = delay * 2 + MIN_ROOM;
    let capacity: usize = if two_seconds >= two_delays {
        two_seconds
    } else {
        two_delays
    };
    let ring = SampleRing::new(capacity);
    match &in_config.format {
        SampleFormat::Other(format) => Err(AudioError::UnsupportedFormat(format.clone())),
        _ => Ok(
            Streams {
                ring,
                in_channels: in_config.channels,
                out_channels: out_config.channels as usize,
            },
        ),
    }
}

/// Which devices the streams run between.
#[derive(Debug, Clone, Copy)]
pub struct StreamEnds {
    pub input: InputChoice,
    /// This one of the listed outputs; the system default where it is none.
    pub output: Option<usize>,
}

/// `choice` is the output with the name `name`, or the default where there is
/// no such output.
pub open spec fn is_output_choice(
    outputs: Seq<AudioDevice>,
    has_default: bool,
    name: Seq<char>,
    choice: Option<usize>,
) -> bool {
    match choice {
        Some(i) => is_first_named(outputs, i as int, name),
        None => has_default && forall|j: int| !#[trigger] is_named(outputs, j, name),
    }
}

/// The device behind an output choice.
pub open spec fn output_device(
    outputs: Seq<AudioDevice>,
    default_output: Option<&AudioDevice>,
    choice: Option<usize>,
) -> AudioDevice {
    match choice {
        Some(i) => outputs[i as int],
        None => *default_output->0,
    }
}

/// The device behind an input choice.
pub open spec fn input_device(
    inputs: Seq<AudioDevice>,
    default_input: Option<&AudioDevice>,
    choice: InputChoice,
) -> AudioDevice {
    match choice {
        InputChoice::Listed(i) => inputs[i as int],
        InputChoice::Default => *default_input->0,
    }
}

/// The ring fits for the device with the name `name`, where there is one.
pub open spec fn named_fits(devices: Seq<AudioDevice>, name: Seq<char>, delay_ms: u32) -> bool {
    forall|i: int| #[trigger]
        is_first_named(devices, i, name) ==> devices_fit(devices[i], delay_ms)
}

/// The ring fits for the device behind an input choice, where there is one.
pub open spec fn choice_fits(
    inputs: Seq<AudioDevice>,
    default_input: Option<&AudioDevice>,
    choice: InputChoice,
    delay_ms: u32,
) -> bool {
    choice == InputChoice::Default && default_input is None || devices_fit(
        input_device(inputs, default_input, choice),
        delay_ms,
    )
}

/// There is just one input choice.
proof fn lemma_one_choice(
    devices: Seq<AudioDevice>,
    hint: Option<Seq<char>>,
    a: InputChoice,
    b: InputChoice,
)
    requires
        is_input_choice(devices, hint, a),
        is_input_choice(devices, hint, b),
    ensures
        a == b,
{
    if let Some(h) = hint {
        let names = lowered_names(devices);
        let needle = lowered(h);
        if let InputChoice::Listed(i) = a {
            assert(is_hinted(names, i as int, needle));
        }
        if let InputChoice::Listed(j) = b {
            assert(is_hinted(names, j as int, needle));
        }
    }
}

/// Audio passthrough runtime. Holds what runs between the input and the output
/// device, and can swap them when the user picks a different one. `R` is the
/// hold that it has on the streams, which their callbacks share.
pub struct AudioRuntime<R> {
    pub streams: R,
    pub state: AudioState,
}

/// What comes of a start with the devices that were chosen.
pub open spec fn started(
    input: AudioDevice,
    output: AudioDevice,
    delay_ms: u32,
    r: Result<(AudioState, Streams, StreamEnds), AudioError>,
    ends: StreamEnds,
) -> bool {
    exists|fresh: AudioState, after: AudioState, built: Result<Streams, AudioError>|
        {
            &&& fresh.target_delay_ms == delay_ms
            &&& fresh.volume_percent == 100
            &&& !fresh.muted
            &&& fresh.buffered_samples == 0
            &&& #[trigger] streams_built(fresh, input, output, after, built)
            &&& match built {
                Ok(s) => r == Ok::<(AudioState, Streams, StreamEnds), AudioError>((after, s, ends)),
                Err(e) => r == Err::<(AudioState, Streams, StreamEnds), AudioError>(e),
            }
        }
}

/// What comes of a start with the input choice `choice`.
pub open spec fn start_outcome(
    inputs: Seq<AudioDevice>,
    default_input: Option<&AudioDevice>,
    default_output: Option<&AudioDevice>,
    choice: InputChoice,
    delay_ms: u32,
    r: Result<(AudioState, Streams, StreamEnds), AudioError>,
) -> bool {
    if choice == InputChoice::Default && default_input is None {
        r == Err::<(AudioState, Streams, StreamEnds), AudioError>(AudioError::NoDefaultInput)
    } else if default_output is None {
        r == Err::<(AudioState, Streams, StreamEnds), AudioError>(AudioError::NoDefaultOutput)
    } else {
        started(
            input_device(inputs, default_input, choice),
            *default_output->0,
            delay_ms,
            r,
            (StreamEnds { input: choice, output: None }),
        )
    }
}

/// Sets up the passthrough: gives the devices to open, what is to run between
/// them and the state to run with. `hint` is a part of an input device name, in
/// upper or lower case; without one it is the system default input. The ring for
/// the input that is chosen has to fit on this machine.
pub fn start(
    inputs: &[AudioDevice],
    default_input: Option<&AudioDevice>,
    default_output: Option<&AudioDevice>,
    hint: Option<&str>,
    delay_ms: u32,
) -> (r: Result<(AudioState, Streams, StreamEnds), AudioError>)
    requires
        forall|choice: InputChoice| #[trigger]
            is_input_choice(inputs@, text_of(hint), choice) ==> choice_fits(
                inputs@,
                default_input,
                choice,
                delay_ms,
            ),
    ensures
        exists|choice: InputChoice| #[trigger]
            is_input_choice(inputs@, text_of(hint), choice) && start_outcome(
                inputs@,
                default_input,
                default_output,
                choice,
                delay_ms,
                r,
            ),
{
    let choice: InputChoice = match pick_input(inputs, default_input.is_some(), hint) {
        Ok(c) => c,
        Err(e) => {
            assert(is_input_choice(inputs@, text_of(hint), InputChoice::Default));
            return Err(e);
        },
    };
    assert(is_input_choice(inputs@, text_of(hint), choice));
    let input: &AudioDevice = match choice {
        InputChoice::Listed(i) => {
            assert(is_hinted(lowered_names(inputs@), i as int, lowered(hint->0@)));
            &inputs[i]
        },
        InputChoice::Default => match default_input {
            Some(d) => d,
            None => return Err(AudioError::NoDefaultInput),
        },
    };
    let output: &AudioDevice = match default_output {
        Some(d) => d,
        None => return Err(AudioError::NoDefaultOutput),
    };
    let mut state = AudioState::new(delay_ms);
    let ghost fresh = state;
    let ends = StreamEnds { input: choice, output: None };
    let built = build_streams(&mut state, input, output);
    assert(streams_built(fresh, *input, *output, state, built));
    match built {
        Ok(streams) => Ok((state, streams, ends)),
        Err(e) => Err(e),
    }
}

/// Sets up the passthrough as `start` does; `None` where the ring for the input
/// that is chosen cannot be had on this machine.
pub fn try_start(
    inputs: &[AudioDevice],
    default_input: Option<&AudioDevice>,
    default_output: Option<&AudioDevice>,
    hint: Option<&str>,
    delay_ms: u32,
) -> (r: Option<Result<(AudioState, Streams, StreamEnds), AudioError>>)
    ensures
        exists|choice: InputChoice| #[trigger]
            is_input_choice(inputs@, text_of(hint), choice) && (match r {
                Some(outcome) => choice_fits(inputs@, default_input, choice, delay_ms)
                    && start_outcome(
                    inputs@,
                    default_input,
                    default_output,
                    choice,
                    delay_ms,
                    outcome,
                ),
                None => !choice_fits(inputs@, default_input, choice, delay_ms),
            }),
{
    let picked = pick_input(inputs, default_input.is_some(), hint);
    let ghost choice = match picked {
        Ok(c) => c,
        Err(_) => InputChoice::Default,
    };
    assert(is_input_choice(inputs@, text_of(hint), choice));
    let input: Option<&AudioDevice> = match picked {
        Ok(InputChoice::Listed(i)) => {
            assert(is_hinted(lowered_names(inputs@), i as int, lowered(hint->0@)));
            Some(&inputs[i])
        },
        Ok(InputChoice::Default) => default_input,
        Err(_) => None,
    };
    if let Some(d) = input {
        if !device_fits(d, delay_ms) {
            return None;
        }
    }
    assert forall|other: InputChoice| #[trigger]
        is_input_choice(inputs@, text_of(hint), other) implies choice_fits(
        inputs@,
        default_input,
        other,
        delay_ms,
    ) by {
        lemma_one_choice(inputs@, text_of(hint), choice, other);
    }
    let outcome = start(inputs, default_input, default_output, hint, delay_ms);
    proof {
        let other = choose|other: InputChoice| #[trigger]
            is_input_choice(inputs@, text_of(hint), other) && start_outcome(
                inputs@,
                default_input,
                default_output,
                other,
                delay_ms,
                outcome,
            );
        lemma_one_choice(inputs@, text_of(hint), choice, other);
    }
    Some(outcome)
}

/// What comes of setting up a switch to two devices.
pub open spec fn switched(
    before: AudioState,
    input: AudioDevice,
    output: AudioDevice,
    after: AudioState,
    r: Result<(Streams, StreamEnds), AudioError>,
    ends: StreamEnds,
) -> bool {
    exists|built: Result<Streams, AudioError>|
        {
            &&& #[trigger] streams_built(before, input, output, after, built)
            &&& match built {
                Ok(s) => r == Ok::<(Streams, StreamEnds), AudioError>((s, ends)),
                Err(e) => r == Err::<(Streams, StreamEnds), AudioError>(e),
            }
        }
}

/// Nothing changed, and `e` is the reason.
pub open spec fn refused(
    before: AudioState,
    after: AudioState,
    r: Result<(Streams, StreamEnds), AudioError>,
    e: AudioError,
) -> bool {
    after == before && r == Err::<(Streams, StreamEnds), AudioError>(e)
}

impl<R> AudioRuntime<R> {
    /// Sets up a swap to the input device with the name `name`: gives the
    /// devices to open and what is to run between them. The streams in use stay
    /// until `install`; volume, mute and delay are preserved. The output stays
    /// the one in use, or becomes the system default where that is gone.
    pub fn set_input(
        &mut self,
        inputs: &[AudioDevice],
        outputs: &[AudioDevice],
        default_output: Option<&AudioDevice>,
        name: &str,
    ) -> (r: Result<(Streams, StreamEnds), AudioError>)
        requires
            named_fits(inputs@, name@, old(self).state.target_delay_ms),
        ensures
            final(self).streams == old(self).streams,
            same_knobs(old(self).state, final(self).state),
            final(self).state.target_delay_ms == old(self).state.target_delay_ms,
            final(self).state.volume_percent == old(self).state.volume_percent,
            final(self).state.muted == old(self).state.muted,
            if forall|i: int| !#[trigger] is_named(inputs@, i, name@) {
                refused(old(self).state, final(self).state, r, AudioError::InputNotFound)
            } else {
                exists|i: usize| #[trigger]
                    is_first_named(inputs@, i as int, name@) && (if default_output is None
                        && forall|j: int|
                        !#[trigger] is_named(outputs@, j, old(self).state.output_name@) {
                        refused(old(self).state, final(self).state, r, AudioError::NoOutput)
                    } else {
                        exists|choice: Option<usize>| #[trigger]
                            is_output_choice(
                                outputs@,
                                default_output is Some,
                                old(self).state.output_name@,
                                choice,
                            ) && switched(
                                old(self).state,
                                inputs@[i as int],
                                output_device(outputs@, default_output, choice),
                                final(self).state,
                                r,
                                (StreamEnds { input: InputChoice::Listed(i), output: choice }),
                            )
                    })
            },
    {
        let k: usize = match find_device(inputs, name) {
            Some(k) => k,
            None => return Err(AudioError::InputNotFound),
        };
        let found = find_device(outputs, self.state.output_name.as_str());
        let output: &AudioDevice = match found {
            Some(j) => &outputs[j],
            None => match default_output {
                Some(d) => d,
                None => return Err(AudioError::NoOutput),
            },
        };
        let ghost before = self.state;
        assert(is_first_named(inputs@, k as int, name@));
        let built = build_streams(&mut self.state, &inputs[k], output);
        let ends = StreamEnds { input: InputChoice::Listed(k), output: found };
        assert(is_output_choice(outputs@, default_output is Some, before.output_name@, found));
        assert(found matches Some(j) ==> is_named(outputs@, j as int, before.output_name@));
        assert(*output == output_device(outputs@, default_output, found));
        assert(streams_built(before, inputs@[k as int], *output, self.state, built));
        match built {
            Ok(streams) => Ok((streams, ends)),
            Err(e) => Err(e),
        }
    }

    /// Sets up a swap to the output device with the name `name`, as `set_input`
    /// does for an input. The input in use has to be there still.
    pub fn set_output(&mut self, inputs: &[AudioDevice], outputs: &[AudioDevice], name: &str) -> (r:
        Result<(Streams, StreamEnds), AudioError>)
        requires
            named_fits(
                inputs@,
                old(self).state.input_name@,
                old(self).state.target_delay_ms,
            ),
        ensures
            final(self).streams == old(self).streams,
            same_knobs(old(self).state, final(self).state),
            final(self).state.target_delay_ms == old(self).state.target_delay_ms,
            final(self).state.volume_percent == old(self).state.volume_percent,
            final(self).state.muted == old(self).state.muted,
            if forall|j: int| !#[trigger] is_named(outputs@, j, name@) {
                refused(old(self).state, final(self).state, r, AudioError::OutputNotFound)
            } else if forall|i: int|
                !#[trigger] is_named(inputs@, i, old(self).state.input_name@) {
                refused(old(self).state, final(self).state, r, AudioError::InputGone)
            } else {
                exists|i: usize, j: usize|
                    #![trigger is_first_named(inputs@, i as int, old(self).state.input_name@), is_first_named(outputs@, j as int, name@)]
                    is_first_named(inputs@, i as int, old(self).state.input_name@)
                        && is_first_named(outputs@, j as int, name@) && switched(
                        old(self).state,
                        inputs@[i as int],
                        outputs@[j as int],
                        final(self).state,
                        r,
                        (StreamEnds { input: InputChoice::Listed(i), output: Some(j) }),
                    )
            },
    {
        let j: usize = match find_device(outputs, name) {
            Some(j) => j,
            None => return Err(AudioError::OutputNotFound),
        };
        let i: usize = match find_device(inputs, self.state.input_name.as_str()) {
            Some(i) => i,
            None => return Err(AudioError::InputGone),
        };
        let ghost before = self.state;
        assert(is_named(outputs@, j as int, name@));
        assert(is_first_named(inputs@, i as int, before.input_name@));
        let built = build_streams(&mut self.state, &inputs[i], &outputs[j]);
        assert(streams_built(before, inputs@[i as int], outputs@[j as int], self.state, built));
        match built {
            Ok(streams) => Ok(
                (streams, StreamEnds { input: InputChoice::Listed(i), output: Some(j) }),
            ),
            Err(e) => Err(e),
        }
    }

    /// Ends a swap: streams that could be opened and started take the place of
    /// those in use; where they could not, those in use stay.
    pub fn install(&mut self, opened: Option<R>)
        ensures
            final(self).streams == match opened {
                Some(streams) => streams,
                None => old(self).streams,
            },
            final(self).state == old(self).state,
    {
        if let Some(streams) = opened {
            self.streams = streams;
        }
    }
}

impl Streams {
    /// Takes the samples that the input delivered: as many as there is room
    /// for, in their order; the rest is lost.
    pub fn push_input(&mut self, samples: &[u32], state: &mut AudioState)
        ensures
            ({
                let taken = accepted(*old(self), samples@.len() as int);
                &&& final(self).samples() == old(self).samples() + samples@.take(taken)
                &&& final(self).capacity() == old(self).capacity()
                &&& final(self).input_channels() == old(self).input_channels()
                &&& final(self).output_channels() == old(self).output_channels()
                &&& *final(state) == (AudioState {
                    buffered_samples: final(state).buffered_samples,
                    ..*old(state)
                })
                &&& final(state).buffered_samples == final(self).samples().len()
                &&& old(self).within_room() ==> final(self).within_room()
            }),
    {
        let ghost before = *self;
        let mut i: usize = 0;
        assert(self.samples() =~= before.samples() + samples@.take(
            min_of(0, accepted(before, samples@.len() as int)),
        ));
        while i < samples.len()
            invariant
                i <= samples@.len(),
                before == *old(self),
                self.capacity() == before.capacity(),
                self.input_channels() == before.input_channels(),
                self.output_channels() == before.output_channels(),
                self.samples() == before.samples() + samples@.take(
                    min_of(i as int, accepted(before, samples@.len() as int)),
                ),
            decreases samples@.len() - i,
        {
            let ghost taken = min_of(i as int, accepted(before, samples@.len() as int));
            let _ = self.ring.try_push(samples[i]);
            proof {
                let next = min_of(i + 1, accepted(before, samples@.len() as int));
                if next > taken {
                    assert(samples@.take(next) =~= samples@.take(taken).push(samples@[i as int]));
                    assert(before.samples() + samples@.take(next) =~= (before.samples()
                        + samples@.take(taken)).push(samples@[i as int]));
                }
            }
            i = i + 1;
        }
        state.buffered_samples = self.ring.occupied_len();
    }

    /// Fills `out` with what is due, and says with which volume in percent it
    /// has to be played.
    pub fn fill_output(&mut self, out: &mut [u32], state: &mut AudioState) -> (gain_percent: u32)
        requires
            old(state).delay_computable(),
        ensures
            gain_percent == if old(state).muted {
                0
            } else {
                old(state).volume_percent
            },
            ({
                let before = *old(self);
                let d = Demand {
                    buffered: before.samples().len() as int,
                    target: old(state).delay_len(),
                    channels: before.input_channels(),
                    frames: frames_in(old(out)@.len() as int, before.output_channels()),
                };
                &&& exists|n: int| #[trigger]
                    d.plays(n) && final(self).samples() == before.samples().skip(
                        d.dropped() + n * d.played_channels(),
                    ) && heard(
                        before.samples(),
                        d,
                        n,
                        before.output_channels(),
                        old(out)@,
                        final(out)@,
                    )
                &&& final(self).capacity() == before.capacity()
                &&& final(self).input_channels() == before.input_channels()
                &&& final(self).output_channels() == before.output_channels()
                &&& *final(state) == (AudioState {
                    buffered_samples: final(state).buffered_samples,
                    ..*old(state)
                })
                &&& final(state).buffered_samples == final(self).samples().len()
                &&& before.within_room() ==> final(self).within_room()
            }),
    {
        let target: usize = state.delay_samples();
        fill(&mut self.ring, target, self.in_channels, self.out_channels, out);
        state.buffered_samples = self.ring.occupied_len();
        if state.muted {
            0
        } else {
            state.volume_percent
        }
    }
}

/// How many of `n` samples there is room for.
pub open spec fn accepted(s: Streams, n: int) -> int {
    let free = s.capacity() - s.samples().len();
    if free <= 0 {
        0
    } else {
        min_of(n, free)
    }
}

/// The smaller of the two.
pub open spec fn min_of(a: int, b: int) -> int {
    if a <= b {
        a
    } else {
        b
    }
}

/// The ring takes what fits: never more than is offered, never more than there
/// is room for, and it is full where it took less than was offered.
pub proof fn law_ring_takes_what_fits(s: Streams, n: int)
    requires
        s.within_room(),
        n >= 0,
    ensures
        0 <= accepted(s, n) <= n,
        s.samples().len() + accepted(s, n) <= s.capacity(),
        accepted(s, n) < n ==> s.samples().len() + accepted(s, n) == s.capacity(),
{
}

/// There is room for two seconds, and for twice the delay and 4096 samples more,
/// and for no more than the larger of the two.
pub proof fn law_room_in_the_ring(config: DeviceConfig, delay: int)
    ensures
        room(config, delay) >= config.sample_rate * config.channels * 2,
        room(config, delay) >= delay * 2 + 4096,
        room(config, delay) == config.sample_rate * config.channels * 2 || room(config, delay)
            == delay * 2 + 4096,
{
}

/// The delay of a stream in samples is the delay in time at its pace, rounded
/// down.
pub proof fn law_delay_of_a_stream(config: DeviceConfig, delay_ms: u32)
    ensures
        delay_of(config, delay_ms) * 1000 <= config.sample_rate as int * config.channels as int
            * delay_ms as int,
        config.sample_rate as int * config.channels as int * delay_ms as int - delay_of(
            config,
            delay_ms,
        ) * 1000 < 1000,
{
}

/// A text stands in every text that has it in the middle, and in no other.
pub proof fn law_occurs_in_the_middle(hay: Seq<char>, needle: Seq<char>)
    ensures
        forall|a: Seq<char>, b: Seq<char>| hay == #[trigger] (a + needle + b) ==> occurs(hay, needle),
        occurs(hay, needle) ==> exists|a: Seq<char>, b: Seq<char>|
            hay == #[trigger] (a + needle + b),
{
    assert forall|a: Seq<char>, b: Seq<char>| hay == #[trigger] (a + needle + b) implies occurs(
        hay,
        needle,
    ) by {
        assert(hay.subrange(a.len() as int, a.len() as int + needle.len()) =~= needle);
    }
    if occurs(hay, needle) {
        let i = choose|i: int|
            0 <= i <= hay.len() - needle.len() && #[trigger] hay.subrange(i, i + needle.len())
                == needle;
        let a = hay.take(i);
        let b = hay.skip(i + needle.len());
        assert(hay =~= a + needle + b);
    }
}

/// The device that is found by name has that name, and none before it has.
pub proof fn law_found_device_has_the_name(devices: Seq<AudioDevice>, i: int, name: Seq<char>)
    ensures
        is_first_named(devices, i, name) <==> {
            &&& 0 <= i < devices.len()
            &&& devices[i].name matches Some(s)
            &&& s@ == name
            &&& forall|j: int|
                0 <= j < i ==> !((#[trigger] devices[j]).name matches Some(t) && t@ == name)
        },
{
    if is_first_named(devices, i, name) {
        assert forall|j: int| 0 <= j < i implies !((#[trigger] devices[j]).name matches Some(t)
            && t@ == name) by {
            assert(!is_named(devices, j, name));
        }
    }
}

/// A hint is followed: where the lower case name of some device holds it, the
/// input is a listed device whose name does, and no device before it does.
pub proof fn law_hint_is_followed(
    devices: Seq<AudioDevice>,
    hint: Option<Seq<char>>,
    choice: InputChoice,
    j: int,
    a: Seq<char>,
    b: Seq<char>,
)
    requires
        is_input_choice(devices, hint, choice),
        hint is Some,
        0 <= j < devices.len(),
        devices[j].name matches Some(s) && lowered(s@) == a + lowered(hint->0) + b,
    ensures
        choice matches InputChoice::Listed(i) && {
            &&& i <= j
            &&& devices[i as int].name matches Some(t)
            &&& exists|x: Seq<char>, y: Seq<char>|
                lowered(t@) == #[trigger] (x + lowered(hint->0) + y)
        },
{
    let names = lowered_names(devices);
    let needle = lowered(hint->0);
    law_occurs_in_the_middle(lowered(devices[j].name->0@), needle);
    assert(is_hinted(names, j, needle));
    if let InputChoice::Listed(i) = choice {
        assert(is_hinted(names, i as int, needle));
        law_occurs_in_the_middle(lowered(devices[i as int].name->0@), needle);
    }
}

/// Without a hint, or where no name holds it, the input is the system default.
pub proof fn law_default_input_without_a_match(
    devices: Seq<AudioDevice>,
    hint: Option<Seq<char>>,
    choice: InputChoice,
)
    requires
        is_input_choice(devices, hint, choice),
        hint matches Some(h) ==> forall|j: int, a: Seq<char>, b: Seq<char>|
            #![trigger devices[j], (a + lowered(h) + b)]
            0 <= j < devices.len() ==> !(devices[j].name matches Some(s) && lowered(s@) == a
                + lowered(h) + b),
    ensures
        choice == InputChoice::Default,
{
    if let InputChoice::Listed(i) = choice {
        let h = hint->0;
        let names = lowered_names(devices);
        assert(is_hinted(names, i as int, lowered(h)));
        let name = lowered(devices[i as int].name->0@);
        law_occurs_in_the_middle(name, lowered(h));
        let (a, b) = choose|a: Seq<char>, b: Seq<char>| name == #[trigger] (a + lowered(h) + b);
        assert(devices[i as int].name is Some);
    }
}

/// Streams between two devices that tell theirs: the state names both devices
/// and the input's pace, keeps delay, volume and mute, and the ring is empty and
/// outlasts twice the delay and two seconds.
pub proof fn law_new_streams_fit_the_devices(
    before: AudioState,
    input: AudioDevice,
    output: AudioDevice,
    after: AudioState,
    r: Result<Streams, AudioError>,
)
    requires
        streams_built(before, input, output, after, r),
        input.config is Some,
        output.config is Some,
    ensures
        input.name matches Some(s) ==> after.input_name@ == s@,
        output.name matches Some(s) ==> after.output_name@ == s@,
        input.name is None ==> after.input_name@ == "<unknown>"@,
        output.name is None ==> after.output_name@ == "<unknown>"@,
        after.buffered_samples == before.buffered_samples,
        after.sample_rate == input.config->0.sample_rate,
        after.channels == input.config->0.channels,
        after.output_channels == output.config->0.channels,
        after.target_delay_ms == before.target_delay_ms,
        after.volume_percent == before.volume_percent,
        after.muted == before.muted,
        r is Ok <==> !(input.config->0.format is Other),
        input.config->0.format matches SampleFormat::Other(format) ==> r == Err::<
            Streams,
            AudioError,
        >(AudioError::UnsupportedFormat(format)),
        r matches Ok(s) ==> {
            &&& s.samples().len() == 0
            &&& s.input_channels() == input.config->0.channels
            &&& s.output_channels() == output.config->0.channels
            &&& s.capacity() >= after.sample_rate * after.channels * 2
            &&& s.capacity() * 1000 > 2 * (after.sample_rate as int * after.channels as int
                * after.target_delay_ms as int)
            &&& s.capacity() == after.sample_rate * after.channels * 2 || (s.capacity() - 4096)
                * 1000 <= 2 * (after.sample_rate as int * after.channels as int
                * after.target_delay_ms as int)
        },
{
    law_room_in_the_ring(
        input.config->0,
        delay_of(input.config->0, before.target_delay_ms),
    );
    law_delay_of_a_stream(input.config->0, before.target_delay_ms);
}

/// What is said of a missing device tells its name: other names give other
/// words.
pub proof fn law_messages_tell_the_name(a: Seq<char>, b: Seq<char>)
    ensures
        AudioError::InputNotFound.said(a) == AudioError::InputNotFound.said(b) ==> a == b,
        AudioError::OutputNotFound.said(a) == AudioError::OutputNotFound.said(b) ==> a == b,
{
    lemma_middle("input device '"@, a, b, "' not found"@);
    lemma_middle("output device '"@, a, b, "' not found"@);
}

proof fn lemma_middle(x: Seq<char>, a: Seq<char>, b: Seq<char>, y: Seq<char>)
    ensures
        x + a + y == x + b + y ==> a == b,
{
    let l = x + a + y;
    let r = x + b + y;
    if l == r {
        assert(l.len() == x.len() + a.len() + y.len());
        assert(r.len() == x.len() + b.len() + y.len());
        assert(l.subrange(x.len() as int, x.len() as int + a.len()) =~= a);
        assert(r.subrange(x.len() as int, x.len() as int + b.len()) =~= b);
    }
}

/// The output in use stays where it is still there: where some output has that
/// name, the choice is an output of that name and none before it has the name;
/// the default is taken just where none has it.
pub proof fn law_output_in_use_stays(
    outputs: Seq<AudioDevice>,
    has_default: bool,
    name: Seq<char>,
    choice: Option<usize>,
    j: int,
)
    requires
        is_output_choice(outputs, has_default, name, choice),
        0 <= j < outputs.len(),
        outputs[j].name matches Some(s) && s@ == name,
    ensures
        choice is Some,
        choice->0 <= j,
        outputs[choice->0 as int].name matches Some(s) && s@ == name,
{
    assert(is_named(outputs, j, name));
    if let Some(i) = choice {
        law_found_device_has_the_name(outputs, i as int, name);
    }
}

/// Where no output has the name, the choice is the default, which is there.
pub proof fn law_default_output_where_none_is_left(
    outputs: Seq<AudioDevice>,
    has_default: bool,
    name: Seq<char>,
    choice: Option<usize>,
)
    requires
        is_output_choice(outputs, has_default, name, choice),
        forall|j: int|
            0 <= j < outputs.len() ==> !((#[trigger] outputs[j]).name matches Some(s) && s@ == name),
    ensures
        choice is None,
        has_default,
{
    if let Some(i) = choice {
        law_found_device_has_the_name(outputs, i as int, name);
    }
}

/// A switch that goes through hands over an empty ring for the two devices, and
/// the state tells their names; delay, volume and mute are as before. One that
/// fails because a device tells no stream leaves the state as it was.
pub proof fn law_switch_hands_over_new_streams(
    before: AudioState,
    input: AudioDevice,
    output: AudioDevice,
    after: AudioState,
    r: Result<(Streams, StreamEnds), AudioError>,
    ends: StreamEnds,
)
    requires
        switched(before, input, output, after, r, ends),
    ensures
        r is Ok <==> input.config is Some && output.config is Some && !(input.config->0.format is
            Other),
        r matches Ok(x) ==> {
            &&& x.1 == ends
            &&& x.0.samples().len() == 0
            &&& x.0.input_channels() == input.config->0.channels
            &&& x.0.output_channels() == output.config->0.channels
        },
        input.config is Some && output.config is Some ==> {
            &&& after.sample_rate == input.config->0.sample_rate
            &&& after.channels == input.config->0.channels
            &&& after.output_channels == output.config->0.channels
            &&& input.name matches Some(s) ==> after.input_name@ == s@
            &&& output.name matches Some(s) ==> after.output_name@ == s@
        },
        input.config is None || output.config is None ==> after == before,
        input.config is None ==> r == Err::<(Streams, StreamEnds), AudioError>(
            AudioError::InputConfig,
        ),
        input.config is Some && output.config is None ==> r == Err::<(Streams, StreamEnds), AudioError>(
            AudioError::OutputConfig,
        ),
        after.target_delay_ms == before.target_delay_ms,
        after.volume_percent == before.volume_percent,
        after.muted == before.muted,
{
    let built = choose|built: Result<Streams, AudioError>|
        {
            &&& #[trigger] streams_built(before, input, output, after, built)
            &&& match built {
                Ok(s) => r == Ok::<(Streams, StreamEnds), AudioError>((s, ends)),
                Err(e) => r == Err::<(Streams, StreamEnds), AudioError>(e),
            }
        };
    if input.config is Some && output.config is Some {
        law_new_streams_fit_the_devices(before, input, output, after, built);
    }
}

/// A start that goes through plays at full volume with the delay that was asked
/// for, from the input that was chosen to the default output.
pub proof fn law_start_plays_at_full_volume(
    inputs: Seq<AudioDevice>,
    default_input: Option<&AudioDevice>,
    default_output: Option<&AudioDevice>,
    choice: InputChoice,
    delay_ms: u32,
    r: Result<(AudioState, Streams, StreamEnds), AudioError>,
)
    requires
        start_outcome(inputs, default_input, default_output, choice, delay_ms, r),
    ensures
        r matches Ok(x) ==> {
            &&& x.0.volume_percent == 100
            &&& !x.0.muted
            &&& x.0.target_delay_ms == delay_ms
            &&& x.0.buffered_samples == 0
            &&& x.1.samples().len() == 0
            &&& x.2.input == choice
            &&& x.2.output is None
            &&& default_output is Some
            &&& choice is Default ==> default_input is Some
            &&& default_output->0.config matches Some(c) && x.0.output_channels == c.channels
        },
        r is Ok ==> (choice matches InputChoice::Listed(i) ==> {
            &&& inputs[i as int].config is Some
            &&& r->Ok_0.0.sample_rate == inputs[i as int].config->0.sample_rate
            &&& r->Ok_0.0.channels == inputs[i as int].config->0.channels
        }),
        r is Ok && choice is Default ==> {
            &&& default_input->0.config is Some
            &&& r->Ok_0.0.sample_rate == default_input->0.config->0.sample_rate
            &&& r->Ok_0.0.channels == default_input->0.config->0.channels
        },
        choice is Default && default_input is None ==> r == Err::<
            (AudioState, Streams, StreamEnds),
            AudioError,
        >(AudioError::NoDefaultInput),
        default_output is None && (choice is Listed || default_input is Some) ==> r == Err::<
            (AudioState, Streams, StreamEnds),
            AudioError,
        >(AudioError::NoDefaultOutput),
{
    if !(choice is Default && default_input is None) && default_output is Some {
        let input = input_device(inputs, default_input, choice);
        let output = *default_output->0;
        let ends = StreamEnds { input: choice, output: None };
        let (fresh, after, built) = choose|
            fresh: AudioState,
            after: AudioState,
            built: Result<Streams, AudioError>,
        |
            {
                &&& fresh.target_delay_ms == delay_ms
                &&& fresh.volume_percent == 100
                &&& !fresh.muted
                &&& fresh.buffered_samples == 0
                &&& #[trigger] streams_built(fresh, input, output, after, built)
                &&& match built {
                    Ok(s) => r == Ok::<(AudioState, Streams, StreamEnds), AudioError>(
                        (after, s, ends),
                    ),
                    Err(e) => r == Err::<(AudioState, Streams, StreamEnds), AudioError>(e),
                }
            };
        assert(streams_built(fresh, input, output, after, built));
    }
}

/// The ring for an ordinary stream can be had on every machine: up to eight
/// channels at 192 kHz, delayed by up to two seconds.
pub proof fn law_ordinary_streams_fit(config: DeviceConfig, delay_ms: u32)
    requires
        config.sample_rate <= 192_000,
        config.channels <= 8,
        delay_ms <= 2000,
    ensures
        ring_fits(config, delay_ms),
        devices_fit(AudioDevice { name: None, config: Some(config) }, delay_ms),
{
    let sr = config.sample_rate as int;
    let ch = config.channels as int;
    let ms = delay_ms as int;
    assert(0 <= sr * ch <= 192_000 * 8) by (nonlinear_arith)
        requires
            0 <= sr <= 192_000,
            0 <= ch <= 8,
    ;
    assert(0 <= (sr * ch) * ms <= 192_000 * 8 * 2000) by (nonlinear_arith)
        requires
            0 <= sr * ch <= 192_000 * 8,
            0 <= ms <= 2000,
    ;
}

/// The first of some names that holds a text holds it, and any name that holds
/// it stands there or behind.
pub proof fn law_first_name_with_the_text(
    names: Seq<Option<String>>,
    i: int,
    needle: Seq<char>,
    j: int,
)
    requires
        is_first_hinted(names_of(names), i, needle),
        0 <= j < names.len(),
        names[j] matches Some(s) && exists|a: Seq<char>, b: Seq<char>|
            s@ == #[trigger] (a + needle + b),
    ensures
        0 <= i <= j,
        names[i] matches Some(s) && exists|a: Seq<char>, b: Seq<char>|
            s@ == #[trigger] (a + needle + b),
{
    law_occurs_in_the_middle(names[j]->0@, needle);
    assert(is_hinted(names_of(names), j, needle));
    assert(is_hinted(names_of(names), i, needle));
    law_occurs_in_the_middle(names[i]->0@, needle);
}

/// What is refused changes nothing.
pub proof fn law_refusal_changes_nothing(
    before: AudioState,
    after: AudioState,
    r: Result<(Streams, StreamEnds), AudioError>,
    e: AudioError,
)
    requires
        refused(before, after, r, e),
    ensures
        after == before,
        r is Err,
        r->Err_0 == e,
{
}

/// A choice stands for the device that it names, and the system default for the
/// default device.
pub proof fn law_choices_stand_for_devices(
    devices: Seq<AudioDevice>,
    default_device: Option<&AudioDevice>,
    i: usize,
)
    ensures
        input_device(devices, default_device, InputChoice::Listed(i)) == devices[i as int],
        output_device(devices, default_device, Some(i)) == devices[i as int],
        default_device matches Some(d) ==> input_device(
            devices,
            default_device,
            InputChoice::Default,
        ) == *d,
        default_device matches Some(d) ==> output_device(devices, default_device, None) == *d,
{
}

/// A start is tried where there is no input to fit, where the input does not
/// tell its stream, and wherever the stream is an ordinary one.
pub proof fn law_ordinary_starts_are_tried(
    inputs: Seq<AudioDevice>,
    default_input: Option<&AudioDevice>,
    choice: InputChoice,
    delay_ms: u32,
    config: DeviceConfig,
)
    requires
        ({
            ||| choice is Default && default_input is None
            ||| input_device(inputs, default_input, choice).config is None
            ||| {
                &&& input_device(inputs, default_input, choice).config == Some(config)
                &&& config.sample_rate <= 192_000
                &&& config.channels <= 8
                &&& delay_ms <= 2000
            }
        }),
    ensures
        choice_fits(inputs, default_input, choice, delay_ms),
{
    if input_device(inputs, default_input, choice).config == Some(config) && config.sample_rate
        <= 192_000 && config.channels <= 8 && delay_ms <= 2000 {
        law_ordinary_streams_fit(config, delay_ms);
    }
}

/// A hint counts as it was given, and only where one was given.
pub proof fn law_hint_is_taken_as_given(hint: Option<&str>)
    ensures
        text_of(hint) is Some <==> hint is Some,
        hint matches Some(s) ==> text_of(hint) == Some(s@),
{
}

/// A device has a name just where it tells that name.
pub proof fn law_name_of_a_device(devices: Seq<AudioDevice>, j: int, name: Seq<char>)
    ensures
        is_named(devices, j, name) <==> 0 <= j < devices.len() && devices[j].name is Some
            && devices[j].name->0@ == name,
{
}

/// A hint fits a name just where the name is known and holds it.
pub proof fn law_hint_fits_a_name(names: Seq<Option<String>>, j: int, needle: Seq<char>)
    ensures
        is_hinted(names_of(names), j, needle) <==> 0 <= j < names.len() && names[j] is Some
            && exists|a: Seq<char>, b: Seq<char>| names[j]->0@ == #[trigger] (a + needle + b),
{
    if 0 <= j < names.len() && names[j] is Some {
        law_occurs_in_the_middle(names[j]->0@, needle);
    }
}

} // verus!
