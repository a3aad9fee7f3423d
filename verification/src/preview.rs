//! The preview window: what its events do, when it is redrawn, and what is said
//! about the signal.
use crate::camera_format::CameraFormat;
use crate::frame::{FrameData, SourceFrame};
use crate::layout::{clamp_side, clamped_side};
use crate::settings::{Settings, ViewSettings, ONE_BITS, ZERO_BITS};
use vstd::prelude::*;

verus! {

/// Keys that mean something to the window.
#[derive(Debug, Clone, Copy, PartialEq, Eq, Structural)]
pub enum Key {
    F1,
    F9,
    F10,
    F11,
    Escape,
    Other,
}

/// An event of the window.
#[derive(Debug, Clone, Copy, PartialEq, Eq, Structural)]
pub enum WindowInput {
    CloseRequested,
    Resized { width: u32, height: u32 },
    Key { key: Key, pressed: bool, repeat: bool },
    Wheel,
    ModifiersChanged { control: bool },
    MouseButton { pressed: bool, right: bool },
    RedrawRequested,
    Other,
}

/// What an event asks for.
#[derive(Debug, Clone, Copy, PartialEq, Eq, Structural)]
pub enum Action {
    Nothing,
    Exit,
    /// Configure the surface for this size.
    Resize { width: u32, height: u32 },
    /// Request a redraw.
    Redraw,
    /// Save the newest frame, then request a redraw.
    Screenshot,
    /// Start or stop a recording, then request a redraw.
    ToggleRecording,
    /// Zoom by the wheel's movement, then request a redraw.
    Zoom,
    /// Draw now.
    Render,
}

/// A key that was just pressed, not one that repeats because it is held down.
pub open spec fn fresh_press(input: WindowInput, key: Key) -> bool {
    input == (WindowInput::Key { key, pressed: true, repeat: false })
}

/// What `input` asks for.
pub open spec fn action_for(input: WindowInput, fullscreen: bool, ctrl_held: bool, max_dim: u32)
    -> Action {
    if fresh_press(input, Key::F1) || fresh_press(input, Key::F11) {
        Action::Redraw
    } else if fresh_press(input, Key::Escape) {
        if fullscreen {
            Action::Redraw
        } else {
            Action::Nothing
        }
    } else if fresh_press(input, Key::F9) {
        Action::Screenshot
    } else if fresh_press(input, Key::F10) {
        Action::ToggleRecording
    } else {
        match input {
            WindowInput::CloseRequested => Action::Exit,
            WindowInput::Resized { width, height } => if width > 0 && height > 0 {
                Action::Resize {
                    width: clamped_side(width, max_dim),
                    height: clamped_side(height, max_dim),
                }
            } else {
                Action::Nothing
            },
            WindowInput::Wheel => if ctrl_held {
                Action::Zoom
            } else {
                Action::Nothing
            },
            WindowInput::MouseButton { pressed, right } => if pressed && right {
                Action::Redraw
            } else {
                Action::Nothing
            },
            WindowInput::RedrawRequested => Action::Render,
            _ => Action::Nothing,
        }
    }
}

/// The settings after `input`: F1 opens and closes the panel, F11 switches
/// fullscreen, Escape leaves it.
pub open spec fn settings_after(s: Settings, input: WindowInput) -> Settings {
    if fresh_press(input, Key::F1) {
        Settings { show_panel: !s.show_panel, ..s }
    } else if fresh_press(input, Key::F11) {
        Settings { fullscreen: !s.fullscreen, ..s }
    } else if fresh_press(input, Key::Escape) {
        Settings { fullscreen: false, ..s }
    } else {
        s
    }
}

/// The view after `input`: a right click resets zoom and pan.
pub open spec fn view_after(v: ViewSettings, input: WindowInput) -> ViewSettings {
    if input == (WindowInput::MouseButton { pressed: true, right: true }) {
        ViewSettings { zoom: ONE_BITS, pan_x: ZERO_BITS, pan_y: ZERO_BITS, ..v }
    } else {
        v
    }
}

/// Whether a control key is held once `input` is in.
pub open spec fn ctrl_after(ctrl_held: bool, input: WindowInput) -> bool {
    match input {
        WindowInput::ModifiersChanged { control } => control,
        _ => ctrl_held,
    }
}

/// What a redraw has to do about the newest frame.
#[derive(Debug, Clone, Copy, PartialEq, Eq, Structural)]
pub struct RedrawPlan {
    /// The frame is a new one: upload it.
    pub new_frame: bool,
    /// Hand its bytes to the recorder.
    pub record: bool,
}

/// The frame rate figures that are due.
#[derive(Debug, Clone, Copy, PartialEq, Eq, Structural)]
pub struct FpsTick {
    /// Show the rate of this many frames over the time that passed.
    pub show: Option<u64>,
    /// Log it as well and start counting again.
    pub restart: bool,
}

/// State of the window.
#[derive(Debug, Clone, Copy)]
pub struct Preview {
    /// A control key is held, so that the wheel zooms.
    pub ctrl_held: bool,
    /// Sequence number of the last frame that was uploaded.
    pub last_seq: u64,
    /// Frames uploaded since the last log line.
    pub frames_since_log: u64,
}

impl Preview {
    pub fn new() -> (p: Self)
        ensures
            p == (Preview { ctrl_held: false, last_seq: 0, frames_since_log: 0 }),
    {
        Preview { ctrl_held: false, last_seq: 0, frames_since_log: 0 }
    }

    /// Takes one event of the window.
    pub fn window_event(
        &mut self,
        input: WindowInput,
        max_dim: u32,
        settings: &mut Settings,
        view: &mut ViewSettings,
    ) -> (action: Action)
        requires
            max_dim >= 1,
        ensures
            action == action_for(input, old(settings).fullscreen, old(self).ctrl_held, max_dim),
            *final(settings) == settings_after(*old(settings), input),
            *final(view) == view_after(*old(view), input),
            *final(self) == (Preview {
                ctrl_held: ctrl_after(old(self).ctrl_held, input),
                ..*old(self)
            }),
    {
        match input {
            WindowInput::CloseRequested => Action::Exit,
            WindowInput::Resized { width, height } => {
                if width > 0 && height > 0 {
                    Action::Resize {
                        width: clamp_side(width, max_dim),
                        height: clamp_side(height, max_dim),
                    }
                } else {
                    Action::Nothing
                }
            },
            WindowInput::Key { key, pressed, repeat } => {
                if !pressed || repeat {
                    return Action::Nothing;
                }
                match key {
                    Key::F1 => {
                        settings.show_panel = !settings.show_panel;
                        Action::Redraw
                    },
                    Key::F11 => {
                        settings.fullscreen = !settings.fullscreen;
                        Action::Redraw
                    },
                    Key::Escape => {
                        if settings.fullscreen {
                            settings.fullscreen = false;
                            Action::Redraw
                        } else {
                            Action::Nothing
                        }
                    },
                    Key::F9 => Action::Screenshot,
                    Key::F10 => Action::ToggleRecording,
                    Key::Other => Action::Nothing,
                }
            },
            WindowInput::Wheel => {
                if self.ctrl_held {
                    Action::Zoom
                } else {
                    Action::Nothing
                }
            },
            WindowInput::ModifiersChanged { control } => {
                self.ctrl_held = control;
                Action::Nothing
            },
            WindowInput::MouseButton { pressed, right } => {
                if pressed && right {
                    view.reset_zoom();
                    Action::Redraw
                } else {
                    Action::Nothing
                }
            },
            WindowInput::RedrawRequested => Action::Render,
            WindowInput::Other => Action::Nothing,
        }
    }

    /// What a redraw does about the newest frame. Each frame is uploaded and
    /// recorded once; only NV12 frames can be recorded.
    pub fn redraw(&mut self, newest: Option<&SourceFrame>, recording: bool) -> (plan: RedrawPlan)
        requires
            old(self).frames_since_log < u64::MAX,
        ensures
            match newest {
                Some(f) => if f.seq != old(self).last_seq {
                    &&& plan == (RedrawPlan { new_frame: true, record: recording && f.data is Nv12 })
                    &&& *final(self) == (Preview {
                        last_seq: f.seq,
                        frames_since_log: (old(self).frames_since_log + 1) as u64,
                        ..*old(self)
                    })
                } else {
                    &&& plan == (RedrawPlan { new_frame: false, record: false })
                    &&& *final(self) == *old(self)
                },
                None => {
                    &&& plan == (RedrawPlan { new_frame: false, record: false })
                    &&& *final(self) == *old(self)
                },
            },
    {
        if let Some(f) = newest {
            if f.seq != self.last_seq {
                self.last_seq = f.seq;
                self.frames_since_log = self.frames_since_log + 1;
                let nv12: bool = match &f.data {
                    FrameData::Nv12(_) => true,
                    FrameData::Rgb(_) => false,
                };
                return RedrawPlan { new_frame: true, record: recording && nv12 };
            }
        }
        RedrawPlan { new_frame: false, record: false }
    }

    /// The frame rate figures that are due `since_log_ms` after the last log
    /// line: shown from the first second on, logged after five.
    pub fn tick_fps_log(&mut self, since_log_ms: u64) -> (t: FpsTick)
        ensures
            t.show == if since_log_ms >= 1000 {
                Some(old(self).frames_since_log)
            } else {
                None
            },
            t.restart == (since_log_ms >= 5000),
            *final(self) == (Preview {
                frames_since_log: if since_log_ms >= 5000 {
                    0
                } else {
                    old(self).frames_since_log
                },
                ..*old(self)
            }),
    {
        if since_log_ms >= 1000 {
            let frames: u64 = self.frames_since_log;
            if since_log_ms >= 5000 {
                self.frames_since_log = 0;
                FpsTick { show: Some(frames), restart: true }
            } else {
                FpsTick { show: Some(frames), restart: false }
            }
        } else {
            FpsTick { show: None, restart: false }
        }
    }
}

/// Milliseconds after which the event loop wakes up by itself.
pub const HEARTBEAT_MS: u64 = 1000;

/// What woke the event loop.
#[derive(Debug, Clone, Copy, PartialEq, Eq, Structural)]
pub enum WakeUp {
    /// The capture has published a frame.
    FrameReady,
    /// The heartbeat is due.
    Heartbeat,
    /// Anything else.
    Other,
}

/// Whether to draw: for a new frame, and once for each heartbeat, so that a
/// missing signal shows although no frames come.
pub fn redraw_on(wake: WakeUp, has_window: bool) -> (r: bool)
    ensures
        r == (has_window && wake != WakeUp::Other),
{
    has_window && wake != WakeUp::Other
}

/// Pressing F1 twice, or F11 twice, leaves the settings as they were.
pub proof fn law_toggling_twice_changes_nothing(s: Settings, key: Key)
    requires
        key == Key::F1 || key == Key::F11,
    ensures
        ({
            let press = WindowInput::Key { key, pressed: true, repeat: false };
            settings_after(settings_after(s, press), press) == s
        }),
{
}

/// Whatever happens, Escape leads out of fullscreen.
pub proof fn law_escape_leaves_fullscreen(s: Settings)
    ensures
        !settings_after(
            s,
            WindowInput::Key { key: Key::Escape, pressed: true, repeat: false },
        ).fullscreen,
{
}

/// A key that repeats because it is held down does nothing.
pub proof fn law_held_keys_do_nothing(
    s: Settings,
    v: ViewSettings,
    key: Key,
    pressed: bool,
    ctrl_held: bool,
    max_dim: u32,
)
    ensures
        ({
            let held = WindowInput::Key { key, pressed, repeat: true };
            &&& settings_after(s, held) == s
            &&& view_after(v, held) == v
            &&& action_for(held, s.fullscreen, ctrl_held, max_dim) == Action::Nothing
        }),
{
}

/// Nanoseconds without a frame after which the signal counts as gone.
pub const SIGNAL_TIMEOUT_NS: u64 = 1_500_000_000;

/// Whether to show that there is no signal: no frame has come yet, or the last
/// one came too long ago.
pub fn no_signal(since_frame_ns: Option<u64>) -> (r: bool)
    ensures
        r == match since_frame_ns {
            None => true,
            Some(ns) => ns > SIGNAL_TIMEOUT_NS,
        },
        since_frame_ns matches Some(ns) ==> (r <==> ns > 1_500_000_000),
{
    match since_frame_ns {
        None => true,
        Some(ns) => ns > SIGNAL_TIMEOUT_NS,
    }
}

/// Window modes that were applied last.
#[derive(Debug, Clone, Copy, PartialEq, Eq, Structural)]
pub struct AppliedWindow {
    pub fullscreen: bool,
    pub borderless: bool,
    pub always_on_top: bool,
    pub hide_cursor: bool,
}

/// What has to be changed on the window; nothing where it is `None`.
#[derive(Debug, Clone, Copy)]
pub struct WindowChanges {
    pub fullscreen: Option<bool>,
    pub decorations: Option<bool>,
    pub always_on_top: Option<bool>,
    pub cursor_visible: Option<bool>,
}

/// The window modes that the settings ask for. The cursor is hidden in
/// fullscreen only.
pub open spec fn wanted_window(s: Settings) -> AppliedWindow {
    AppliedWindow {
        fullscreen: s.fullscreen,
        borderless: s.borderless,
        always_on_top: s.always_on_top,
        hide_cursor: s.hide_cursor && s.fullscreen,
    }
}

/// `to`, where it differs from `from`.
pub open spec fn change(from: bool, to: bool) -> Option<bool> {
    if from != to {
        Some(to)
    } else {
        None
    }
}

fn changed(from: bool, to: bool) -> (r: Option<bool>)
    ensures
        r == change(from, to),
{
    if from != to {
        Some(to)
    } else {
        None
    }
}

impl AppliedWindow {
    /// A plain window.
    pub fn new() -> (a: Self)
        ensures
            a == (AppliedWindow {
                fullscreen: false,
                borderless: false,
                always_on_top: false,
                hide_cursor: false,
            }),
    {
        AppliedWindow {
            fullscreen: false,
            borderless: false,
            always_on_top: false,
            hide_cursor: false,
        }
    }

    /// What has to be changed for the settings, which then count as applied.
    pub fn apply_window_mode(&mut self, settings: &Settings) -> (c: WindowChanges)
        ensures
            *final(self) == wanted_window(*settings),
            c.fullscreen == change(old(self).fullscreen, wanted_window(*settings).fullscreen),
            c.decorations == change(!old(self).borderless, !wanted_window(*settings).borderless),
            c.always_on_top == change(
                old(self).always_on_top,
                wanted_window(*settings).always_on_top,
            ),
            c.cursor_visible == change(
                !old(self).hide_cursor,
                !wanted_window(*settings).hide_cursor,
            ),
            *old(self) == wanted_window(*settings) ==> c.fullscreen is None && c.decorations is None
                && c.always_on_top is None && c.cursor_visible is None,
    {
        let want = AppliedWindow {
            fullscreen: settings.fullscreen,
            borderless: settings.borderless,
            always_on_top: settings.always_on_top,
            hide_cursor: settings.hide_cursor && settings.fullscreen,
        };
        let c = WindowChanges {
            fullscreen: changed(self.fullscreen, want.fullscreen),
            decorations: changed(!self.borderless, !want.borderless),
            always_on_top: changed(self.always_on_top, want.always_on_top),
            cursor_visible: changed(!self.hide_cursor, !want.hide_cursor),
        };
        *self = want;
        c
    }
}

/// What the record key does.
#[derive(Debug, Clone, Copy, PartialEq, Eq)]
pub enum RecordToggle<R> {
    /// Stop the recording that was running.
    Stop(R),
    /// Start one of this size and frame rate.
    Start { width: u32, height: u32, fps: u32 },
    /// There is no capture mode to record yet.
    Unavailable,
}

/// The running recording, if there is one, and the files that were saved last.
#[derive(Debug)]
pub struct RecordingHandle<R, P> {
    pub inner: Option<R>,
    pub last_recording: Option<P>,
    pub last_screenshot: Option<P>,
}

impl<R, P> RecordingHandle<R, P> {
    /// Nothing is recorded and nothing has been saved.
    pub fn new() -> (h: Self)
        ensures
            h == (RecordingHandle::<R, P> {
                inner: None,
                last_recording: None,
                last_screenshot: None,
            }),
    {
        RecordingHandle { inner: None, last_recording: None, last_screenshot: None }
    }

    pub fn is_recording(&self) -> (r: bool)
        ensures
            r == self.inner is Some,
    {
        self.inner.is_some()
    }

    /// What the record key does, given the running capture mode. A recording
    /// that is to be stopped is handed out and does not run any more.
    pub fn toggle_recording(&mut self, current: &Option<CameraFormat>) -> (t: RecordToggle<R>)
        ensures
            match old(self).inner {
                Some(rec) => {
                    &&& t == RecordToggle::Stop(rec)
                    &&& *final(self) == (RecordingHandle { inner: None, ..*old(self) })
                },
                None => {
                    &&& *final(self) == *old(self)
                    &&& t == match *current {
                        Some(c) => RecordToggle::<R>::Start {
                            width: c.width,
                            height: c.height,
                            fps: if c.frame_rate >= 1 {
                                c.frame_rate
                            } else {
                                1
                            },
                        },
                        None => RecordToggle::<R>::Unavailable,
                    }
                },
            },
    {
        if let Some(rec) = self.inner.take() {
            return RecordToggle::Stop(rec);
        }
        match current {
            Some(c) => RecordToggle::Start {
                width: c.width,
                height: c.height,
                fps: if c.frame_rate >= 1 {
                    c.frame_rate
                } else {
                    1
                },
            },
            None => RecordToggle::Unavailable,
        }
    }

    /// Takes note of a recording that was started.
    pub fn started(&mut self, rec: R)
        ensures
            *final(self) == (RecordingHandle { inner: Some(rec), ..*old(self) }),
    {
        self.inner = Some(rec);
    }

    /// Takes note of the file that stopping a recording left.
    pub fn stopped(&mut self, path: P)
        ensures
            *final(self) == (RecordingHandle { last_recording: Some(path), ..*old(self) }),
    {
        self.last_recording = Some(path);
    }

    /// Takes note of a screenshot that was saved.
    pub fn screenshot_saved(&mut self, path: P)
        ensures
            *final(self) == (RecordingHandle { last_screenshot: Some(path), ..*old(self) }),
    {
        self.last_screenshot = Some(path);
    }
}

/// F1 is the panel and nothing but the panel, F11 fullscreen and nothing but
/// fullscreen, and Escape only ever leaves fullscreen.
pub proof fn law_keys_change_one_setting(s: Settings, key: Key)
    ensures
        ({
            let after = settings_after(s, WindowInput::Key { key, pressed: true, repeat: false });
            &&& after.show_panel == (s.show_panel != (key is F1))
            &&& key is F11 ==> after.fullscreen == !s.fullscreen
            &&& key is Escape ==> !after.fullscreen
            &&& !(key is F11 || key is Escape) ==> after.fullscreen == s.fullscreen
            &&& after.show_stats == s.show_stats
            &&& after.fit_mode == s.fit_mode
            &&& after.background_color == s.background_color
            &&& after.jpeg_quality == s.jpeg_quality
            &&& after.borderless == s.borderless
            &&& after.always_on_top == s.always_on_top
            &&& after.hide_cursor == s.hide_cursor
            &&& after.language == s.language
        }),
{
}

/// What is no key press leaves the settings alone, and so does letting a key go.
pub proof fn law_only_keys_change_settings(s: Settings, input: WindowInput)
    requires
        !(input is Key) || !input->Key_pressed,
    ensures
        settings_after(s, input) == s,
{
}

/// The window is drawn again whenever what it shows has changed, and by keys
/// that change nothing only for a screenshot or a recording.
pub proof fn law_changes_are_drawn(
    s: Settings,
    v: ViewSettings,
    input: WindowInput,
    ctrl_held: bool,
    max_dim: u32,
)
    ensures
        settings_after(s, input) != s ==> action_for(input, s.fullscreen, ctrl_held, max_dim) is
            Redraw,
        view_after(v, input) != v ==> action_for(input, s.fullscreen, ctrl_held, max_dim) is Redraw,
        input is Key && settings_after(s, input) == s ==> {
            let action = action_for(input, s.fullscreen, ctrl_held, max_dim);
            action is Nothing || action is Screenshot || action is ToggleRecording
        },
{
}

/// What each event asks for by itself: F9 a screenshot, F10 a recording, closing
/// the window the end, a redraw the drawing, and the wheel a zoom only with a
/// control key held.
pub proof fn law_events_ask_for_their_action(fullscreen: bool, ctrl_held: bool, max_dim: u32)
    ensures
        action_for(
            WindowInput::Key { key: Key::F9, pressed: true, repeat: false },
            fullscreen,
            ctrl_held,
            max_dim,
        ) is Screenshot,
        action_for(
            WindowInput::Key { key: Key::F10, pressed: true, repeat: false },
            fullscreen,
            ctrl_held,
            max_dim,
        ) is ToggleRecording,
        action_for(WindowInput::CloseRequested, fullscreen, ctrl_held, max_dim) is Exit,
        action_for(WindowInput::RedrawRequested, fullscreen, ctrl_held, max_dim) is Render,
        action_for(WindowInput::Other, fullscreen, ctrl_held, max_dim) is Nothing,
        action_for(WindowInput::Wheel, fullscreen, ctrl_held, max_dim) is Zoom <==> ctrl_held,
        action_for(WindowInput::Wheel, fullscreen, ctrl_held, max_dim) is Nothing <==> !ctrl_held,
{
}

/// Nothing else asks for it: the program ends only when the window is closed, a
/// frame is saved only by F9, a recording toggled only by F10, and the surface
/// resized only with the window.
pub proof fn law_actions_have_one_cause(
    input: WindowInput,
    fullscreen: bool,
    ctrl_held: bool,
    max_dim: u32,
)
    ensures
        ({
            let action = action_for(input, fullscreen, ctrl_held, max_dim);
            &&& action is Exit <==> input is CloseRequested
            &&& action is Render <==> input is RedrawRequested
            &&& action is Zoom ==> input is Wheel
            &&& action is Resize ==> input is Resized
            &&& action is Redraw <==> {
                ||| input == (WindowInput::Key { key: Key::F1, pressed: true, repeat: false })
                ||| input == (WindowInput::Key { key: Key::F11, pressed: true, repeat: false })
                ||| fullscreen && input == (WindowInput::Key {
                    key: Key::Escape,
                    pressed: true,
                    repeat: false,
                })
                ||| input == (WindowInput::MouseButton { pressed: true, right: true })
            }
            &&& action is Screenshot ==> input == (WindowInput::Key {
                key: Key::F9,
                pressed: true,
                repeat: false,
            })
            &&& action is ToggleRecording ==> input == (WindowInput::Key {
                key: Key::F10,
                pressed: true,
                repeat: false,
            })
        }),
{
}

/// The surface takes on the size of the window as far as the device can, and an
/// empty window changes nothing.
pub proof fn law_surface_follows_the_window(
    width: u32,
    height: u32,
    fullscreen: bool,
    ctrl_held: bool,
    max_dim: u32,
)
    ensures
        ({
            let action = action_for(
                WindowInput::Resized { width, height },
                fullscreen,
                ctrl_held,
                max_dim,
            );
            &&& width == 0 || height == 0 ==> action is Nothing
            &&& 1 <= width <= max_dim && 1 <= height <= max_dim ==> action == (Action::Resize {
                width,
                height,
            })
            &&& width > max_dim >= 1 && height >= 1 ==> action is Resize && action->width == max_dim
            &&& height > max_dim >= 1 && width >= 1 ==> action is Resize && action->height
                == max_dim
        }),
{
}

/// A right click shows the whole picture in the middle again and leaves all else
/// of the view; nothing else touches the view.
pub proof fn law_right_click_resets_the_view(v: ViewSettings, input: WindowInput)
    ensures
        ({
            let after = view_after(v, input);
            let clicked = input is MouseButton && input->MouseButton_pressed && input->right;
            &&& clicked ==> after.zoom == 0x3f80_0000 && after.pan_x == 0 && after.pan_y == 0
            &&& !clicked ==> after == v
            &&& after.present_mode == v.present_mode
            &&& after.custom_aspect == v.custom_aspect
            &&& after.color_brightness == v.color_brightness
            &&& after.color_contrast == v.color_contrast
            &&& after.color_saturation == v.color_saturation
            &&& after.color_hue_deg == v.color_hue_deg
            &&& after.crt_strength == v.crt_strength
        }),
{
}

/// Whether a control key is held is what was last said of the modifiers.
pub proof fn law_control_key_is_followed(ctrl_held: bool, input: WindowInput)
    ensures
        input is ModifiersChanged ==> ctrl_after(ctrl_held, input) == input->control,
        !(input is ModifiersChanged) ==> ctrl_after(ctrl_held, input) == ctrl_held,
{
}

/// A change leads from what was to what is wanted, and there is none where
/// nothing has to change.
pub proof fn law_changes_lead_to_what_is_wanted(from: bool, to: bool)
    ensures
        change(from, to) is None <==> from == to,
        change(from, to) matches Some(b) ==> b == to,
{
}

/// The window is as the settings say; the cursor is hidden only in fullscreen.
pub proof fn law_window_follows_the_settings(s: Settings)
    ensures
        wanted_window(s).fullscreen == s.fullscreen,
        wanted_window(s).borderless == s.borderless,
        wanted_window(s).always_on_top == s.always_on_top,
        !s.fullscreen ==> !wanted_window(s).hide_cursor,
        s.fullscreen ==> wanted_window(s).hide_cursor == s.hide_cursor,
{
}

} // verus!
