use video_capture_share::audio::{
    config_fits, device_fits, find_device, first_hinted, pick_input, start, try_start, AudioDevice,
    AudioError, AudioRuntime, DeviceConfig, InputChoice, SampleFormat, Streams,
};
use video_capture_share::audio_state::AudioState;
use video_capture_share::playback::map_frame;

fn config(sample_rate: u32, channels: u16, format: SampleFormat) -> DeviceConfig {
    DeviceConfig { sample_rate, channels, format }
}

fn device(name: &str, config: DeviceConfig) -> AudioDevice {
    AudioDevice { name: Some(name.to_string()), config: Some(config) }
}

fn stereo(name: &str) -> AudioDevice {
    device(name, config(1000, 2, SampleFormat::F32))
}

fn runtime(input: AudioDevice, output: AudioDevice, delay_ms: u32) -> AudioRuntime<Streams> {
    let (state, streams, _) = start(&[], Some(&input), Some(&output), None, delay_ms).unwrap();
    AudioRuntime { streams, state }
}

fn odd(name: &str) -> AudioDevice {
    device(name, config(1000, 2, SampleFormat::Other("I32".to_string())))
}

#[test]
fn state_knobs() {
    let mut s = AudioState::new(100);
    assert_eq!(s.input_name(), "");
    assert_eq!((s.delay_ms(), s.volume(), s.is_muted()), (100, 100, false));
    s.set_volume(150);
    assert_eq!(s.volume(), 150);
    s.set_volume(201);
    assert_eq!(s.volume(), 200);
    s.set_muted(true);
    assert!(s.is_muted());
    s.set_delay_ms(250);
    assert_eq!(s.delay_ms(), 250);
}

#[test]
fn state_figures() {
    let mut s = AudioState::new(100);
    assert_eq!((s.buffered_ms(), s.delay_samples()), (0, 0));
    s.sample_rate = 48000;
    s.channels = 2;
    s.buffered_samples = 9600;
    assert_eq!(s.sample_rate(), 48000);
    assert_eq!(s.channels(), 2);
    assert_eq!(s.buffered_ms(), 100);
    assert_eq!(s.delay_samples(), 9600);
    s.channels = 0x1_0001;
    assert_eq!(s.channels(), 1);
    assert_eq!(s.buffered_ms(), 200);
    assert!(s.delay_fits());
    s.sample_rate = u32::MAX;
    s.channels = 0xffff;
    s.target_delay_ms = u32::MAX;
    assert!(!s.delay_fits());
}

#[test]
fn devices_by_name() {
    let devices = [
        AudioDevice { name: None, config: None },
        stereo("Line In"),
        stereo("HDMI (Capture Card)"),
        stereo("Line In"),
    ];
    assert_eq!(find_device(&devices, "Line In"), Some(1));
    assert_eq!(find_device(&devices, "line in"), None);
    assert_eq!(pick_input(&devices, true, Some("CAPTURE")), Ok(InputChoice::Listed(2)));
    assert_eq!(pick_input(&devices, true, Some("l")), Ok(InputChoice::Listed(1)));
    assert_eq!(pick_input(&devices, true, Some("nothing")), Ok(InputChoice::Default));
    assert_eq!(pick_input(&devices, false, Some("nothing")), Err(AudioError::NoDefaultInput));
    assert_eq!(pick_input(&devices, true, None), Ok(InputChoice::Default));
    assert_eq!(pick_input(&devices, false, None), Err(AudioError::NoDefaultInput));
    let names = [None, Some("ab".to_string()), Some("abc".to_string())];
    assert_eq!(first_hinted(&names, "bc"), Some(2));
    assert_eq!(first_hinted(&names, ""), Some(1));
    assert_eq!(first_hinted(&names, "x"), None);
}

#[test]
fn starting() {
    let input = stereo("in");
    let output = device("out", config(1000, 6, SampleFormat::F32));
    let (state, _, ends) = start(&[], Some(&input), Some(&output), None, 10).unwrap();
    assert_eq!(ends.input, InputChoice::Default);
    assert_eq!(ends.output, None);
    assert_eq!(state.input_name(), "in");
    assert_eq!(state.output_name(), "out");
    assert_eq!(state.sample_rate(), 1000);
    assert_eq!(state.channels(), 2);
    assert_eq!(state.output_channels, 6);
    assert_eq!(state.delay_samples(), 20);
    let listed = [stereo("other"), stereo("Wanted")];
    let (state, _, ends) = start(&listed, None, Some(&output), Some("wan"), 10).unwrap();
    assert_eq!(ends.input, InputChoice::Listed(1));
    assert_eq!(state.input_name(), "Wanted");
    let nameless = AudioDevice { name: None, config: Some(config(8, 1, SampleFormat::I16)) };
    assert_eq!(runtime(nameless, stereo("o"), 0).state.input_name(), "<unknown>");
}

#[test]
fn starting_fails() {
    let good = stereo("in");
    let silent = AudioDevice { name: None, config: None };
    let odd = odd("odd");
    let err = |i, o| start(&[], i, o, None, 0).err();
    assert_eq!(err(None, Some(&good)), Some(AudioError::NoDefaultInput));
    assert_eq!(err(Some(&good), None), Some(AudioError::NoDefaultOutput));
    assert_eq!(err(Some(&silent), Some(&silent)), Some(AudioError::InputConfig));
    assert_eq!(err(Some(&good), Some(&silent)), Some(AudioError::OutputConfig));
    let refused = Some(AudioError::UnsupportedFormat("I32".to_string()));
    assert_eq!(err(Some(&odd), Some(&good)), refused);
}

#[test]
fn switching_devices() {
    let mut rt = runtime(stereo("in"), stereo("out"), 10);
    rt.state.set_volume(50);
    rt.state.set_muted(true);
    let inputs = [stereo("in"), device("mono", config(500, 1, SampleFormat::U16))];
    let outputs = [stereo("out"), stereo("second")];
    let fallback = stereo("default");
    let (streams, ends) = rt.set_input(&inputs, &outputs, Some(&fallback), "mono").unwrap();
    rt.install(Some(streams));
    assert_eq!((ends.input, ends.output), (InputChoice::Listed(1), Some(0)));
    assert_eq!(rt.state.input_name(), "mono");
    assert_eq!(rt.state.channels(), 1);
    assert_eq!((rt.state.volume(), rt.state.is_muted(), rt.state.delay_ms()), (50, true, 10));
    let (_, ends) = rt.set_input(&inputs, &[], Some(&fallback), "in").unwrap();
    assert_eq!(ends.output, None);
    assert_eq!(rt.state.output_name(), "default");
    let (_, ends) = rt.set_output(&inputs, &outputs, "second").unwrap();
    assert_eq!((ends.input, ends.output), (InputChoice::Listed(0), Some(1)));
    assert_eq!(rt.state.output_name(), "second");
    assert_eq!((rt.state.volume(), rt.state.is_muted(), rt.state.delay_ms()), (50, true, 10));
}

#[test]
fn streams_stay_until_others_are_open() {
    let mut rt = runtime(stereo("in"), stereo("out"), 0);
    rt.streams.push_input(&[1, 2], &mut rt.state);
    let inputs = [device("mono", config(1000, 1, SampleFormat::F32))];
    let outputs = [stereo("out")];
    let (_, _) = rt.set_input(&inputs, &outputs, None, "mono").unwrap();
    rt.install(None);
    assert_eq!(rt.state.input_name(), "mono");
    let mut out = [0u32; 2];
    rt.streams.fill_output(&mut out, &mut rt.state);
    assert_eq!(out, [1, 2]);
    let (mut fresh, _) = rt.set_input(&inputs, &outputs, None, "mono").unwrap();
    // Until they are swapped, each pair of streams has its own samples.
    rt.streams.push_input(&[5], &mut rt.state);
    fresh.push_input(&[9], &mut rt.state);
    rt.install(Some(fresh));
    assert_eq!(rt.state.buffered_samples, 1);
    rt.streams.fill_output(&mut out, &mut rt.state);
    assert_eq!(out, [9, 9]);
}

#[test]
fn switching_fails() {
    let mut rt = runtime(stereo("in"), stereo("out"), 0);
    let inputs = [stereo("in"), odd("odd")];
    let outputs = [stereo("out")];
    assert_eq!(
        rt.set_input(&inputs, &outputs, None, "gone").err(),
        Some(AudioError::InputNotFound)
    );
    assert_eq!(rt.set_input(&inputs, &[], None, "in").err(), Some(AudioError::NoOutput));
    assert_eq!(
        rt.set_output(&inputs, &outputs, "gone").err(),
        Some(AudioError::OutputNotFound)
    );
    assert_eq!(rt.set_output(&[], &outputs, "out").err(), Some(AudioError::InputGone));
    assert_eq!(rt.state.input_name(), "in");
    assert_eq!(
        rt.set_input(&inputs, &outputs, None, "odd").err(),
        Some(AudioError::UnsupportedFormat("I32".to_string()))
    );
    assert_eq!(rt.state.input_name(), "odd");
}

#[test]
fn error_messages() {
    let said = |e: AudioError| e.message("x");
    assert_eq!(said(AudioError::NoDefaultInput), "no default audio input device");
    assert_eq!(said(AudioError::NoDefaultOutput), "no default audio output device");
    assert_eq!(said(AudioError::InputNotFound), "input device 'x' not found");
    assert_eq!(said(AudioError::OutputNotFound), "output device 'x' not found");
    assert_eq!(said(AudioError::NoOutput), "no output device available");
    assert_eq!(said(AudioError::InputGone), "input device gone");
    assert_eq!(said(AudioError::InputConfig), "failed to query default input config");
    assert_eq!(said(AudioError::OutputConfig), "failed to query default output config");
    assert_eq!(
        said(AudioError::UnsupportedFormat("I32".to_string())),
        "unsupported audio input sample format: I32"
    );
}

#[test]
fn ring_sizes_that_fit() {
    assert!(config_fits(&config(48000, 2, SampleFormat::F32), 500));
    assert!(!config_fits(&config(u32::MAX, 0xffff, SampleFormat::F32), u32::MAX));
}

#[test]
fn samples_come_out_in_order() {
    let mut rt = runtime(stereo("in"), stereo("out"), 0);
    rt.streams.push_input(&[1, 2, 3, 4, 5], &mut rt.state);
    assert_eq!(rt.state.buffered_samples, 5);
    let mut out = [9u32; 7];
    assert_eq!(rt.streams.fill_output(&mut out, &mut rt.state), 100);
    assert_eq!(out, [1, 2, 3, 4, 0, 0, 9]);
    assert_eq!(rt.state.buffered_samples, 1);
    rt.streams.push_input(&[6], &mut rt.state);
    let mut out = [9u32; 2];
    rt.streams.fill_output(&mut out, &mut rt.state);
    assert_eq!(out, [5, 6]);
}

#[test]
fn the_delay_is_kept() {
    // 2 channels at 1000 Hz and 2 ms: 4 samples.
    let mut rt = runtime(stereo("in"), stereo("out"), 2);
    rt.streams.push_input(&[1, 2], &mut rt.state);
    let mut out = [9u32; 2];
    rt.streams.fill_output(&mut out, &mut rt.state);
    assert_eq!(out, [0, 0]);
    rt.streams.push_input(&[3, 4, 5, 6], &mut rt.state);
    let mut out = [9u32; 6];
    rt.streams.fill_output(&mut out, &mut rt.state);
    assert_eq!(out, [1, 2, 3, 4, 0, 0]);
    assert_eq!(rt.state.buffered_samples, 2);
}

#[test]
fn what_piles_up_is_dropped() {
    let mut rt = runtime(stereo("in"), stereo("out"), 2);
    let samples: Vec<u32> = (1..=21).collect();
    rt.streams.push_input(&samples, &mut rt.state);
    let mut out = [0u32; 2];
    rt.streams.fill_output(&mut out, &mut rt.state);
    // 21 - 4 beyond the delay, of which 2 are played and 2 are slack: 13 too
    // many, so 6 frames go.
    assert_eq!(out, [13, 14]);
    assert_eq!(rt.state.buffered_samples, 7);
}

#[test]
fn a_full_ring_loses_the_newest_samples() {
    let mut rt = runtime(stereo("in"), stereo("out"), 0);
    let samples: Vec<u32> = (0..5000).collect();
    rt.streams.push_input(&samples, &mut rt.state);
    assert_eq!(rt.state.buffered_samples, 4096);
    rt.streams.push_input(&[1], &mut rt.state);
    assert_eq!(rt.state.buffered_samples, 4096);
    let mut out = vec![0u32; 4096];
    rt.streams.fill_output(&mut out, &mut rt.state);
    assert_eq!(out[4095], 4095);
}

#[test]
fn volume_and_mute() {
    let mut rt = runtime(stereo("in"), stereo("out"), 0);
    rt.state.set_volume(80);
    assert_eq!(rt.streams.fill_output(&mut [0u32; 2], &mut rt.state), 80);
    rt.state.set_muted(true);
    assert_eq!(rt.streams.fill_output(&mut [0u32; 2], &mut rt.state), 0);
}

#[test]
fn no_output_channels() {
    let mut rt = runtime(stereo("in"), device("out", config(1000, 0, SampleFormat::F32)), 0);
    rt.streams.push_input(&[1, 2, 3, 4], &mut rt.state);
    let mut out = [7u32; 3];
    rt.streams.fill_output(&mut out, &mut rt.state);
    assert_eq!(out, [7; 3]);
    assert_eq!(rt.state.buffered_samples, 0);
}

#[test]
fn no_input_channels() {
    let mut rt = runtime(device("in", config(1000, 0, SampleFormat::F32)), stereo("out"), 5);
    rt.streams.push_input(&[1, 2], &mut rt.state);
    let mut out = [7u32; 4];
    rt.streams.fill_output(&mut out, &mut rt.state);
    assert_eq!(out, [0; 4]);
    assert_eq!(rt.state.buffered_samples, 2);
}

#[test]
fn more_channels_than_are_played() {
    let mut rt = runtime(device("in", config(1000, 17, SampleFormat::F32)), stereo("out"), 0);
    let samples: Vec<u32> = (1..=17).collect();
    rt.streams.push_input(&samples, &mut rt.state);
    let mut out = [0u32; 2];
    rt.streams.fill_output(&mut out, &mut rt.state);
    assert_eq!(out, [1, 2]);
    assert_eq!(rt.state.buffered_samples, 1);
}

#[test]
fn only_the_chosen_input_needs_room() {
    let huge = device("huge", config(u32::MAX, 0xffff, SampleFormat::F32));
    assert!(!device_fits(&huge, u32::MAX));
    assert!(device_fits(&AudioDevice { name: None, config: None }, u32::MAX));
    let inputs = [huge, stereo("small")];
    let out = stereo("out");
    let started = try_start(&inputs, None, Some(&out), Some("HUGE"), u32::MAX);
    assert!(started.is_none());
    let started = try_start(&inputs, Some(&inputs[0]), Some(&out), Some("small"), 100);
    let (state, streams, ends) = started.unwrap().unwrap();
    let mut rt = AudioRuntime { streams, state };
    assert_eq!(ends.input, InputChoice::Listed(1));
    assert_eq!(rt.state.input_name(), "small");
    let started = try_start(&inputs, None, Some(&out), Some("none such"), 100);
    assert_eq!(started.unwrap().err(), Some(AudioError::NoDefaultInput));
    let outputs = [stereo("other")];
    assert!(rt.set_output(&inputs, &outputs, "other").is_ok());
    assert!(rt.set_input(&inputs, &outputs, None, "small").is_ok());
}

#[test]
fn mono_is_heard_on_both_sides() {
    let out3 = device("out", config(1000, 3, SampleFormat::F32));
    let mut rt = runtime(device("in", config(1000, 1, SampleFormat::F32)), out3, 0);
    rt.streams.push_input(&[5, 6], &mut rt.state);
    let mut out = [9u32; 7];
    rt.streams.fill_output(&mut out, &mut rt.state);
    assert_eq!(out, [5, 5, 0, 6, 6, 0, 9]);
}

#[test]
fn channel_mapping() {
    let mut out = [9u32; 5];
    map_frame(&[7], &mut out, 1, 3);
    assert_eq!(out, [9, 7, 7, 0, 9]);
    let mut out = [9u32; 3];
    map_frame(&[1, 2], &mut out, 0, 3);
    assert_eq!(out, [1, 2, 0]);
    let mut out = [9u32; 2];
    map_frame(&[1, 2, 3], &mut out, 0, 2);
    assert_eq!(out, [1, 2]);
    let mut out = [9u32; 2];
    map_frame(&[], &mut out, 0, 2);
    assert_eq!(out, [0, 0]);
    let mut out = [9u32; 1];
    map_frame(&[5], &mut out, 0, 1);
    assert_eq!(out, [5]);
}
