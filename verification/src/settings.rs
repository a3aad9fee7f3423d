//! Runtime knobs of the preview window.
use crate::i18n::Language;
use vstd::prelude::*;

verus! {

/// Runtime knobs shown in the F1 settings overlay.
///
/// Colour channels are held as the bit patterns of single precision numbers.
#[derive(Debug)]
pub struct Settings {
    pub show_panel: bool,
    pub show_stats: bool,
    pub fit_mode: FitMode,
    pub background_color: [u32; 3],
    pub jpeg_quality: u8,
    pub fullscreen: bool,
    pub borderless: bool,
    pub always_on_top: bool,
    pub hide_cursor: bool,
    pub language: Language,
}

#[derive(Debug, Clone, Copy, PartialEq, Eq, Structural)]
pub enum FitMode {
    /// Stretch to fill the window, ignoring aspect ratio.
    Stretch,
    /// Preserve aspect ratio, letterbox the rest with the background color.
    Fit,
    /// Preserve aspect ratio, fill the window, crop the overflow.
    Fill,
}

/// How finished frames are handed to the display.
#[derive(Debug, Clone, Copy, PartialEq, Eq, Structural)]
pub enum PresentMode {
    Immediate,
    Mailbox,
    Fifo,
}

impl Settings {
    /// The settings of a first start.
    pub open spec fn initial(self) -> bool {
        &&& !self.show_panel
        &&& self.show_stats
        &&& self.fit_mode == FitMode::Fit
        &&& self.background_color@ == seq![0u32, 0u32, 0u32]
        &&& self.jpeg_quality == 75
        &&& !self.fullscreen
        &&& !self.borderless
        &&& !self.always_on_top
        &&& !self.hide_cursor
        &&& self.language == Language::German
    }
}

impl Clone for Settings {
    fn clone(&self) -> (r: Self)
        ensures
            r == *self,
    {
        Settings {
            show_panel: self.show_panel,
            show_stats: self.show_stats,
            fit_mode: self.fit_mode,
            background_color: self.background_color,
            jpeg_quality: self.jpeg_quality,
            fullscreen: self.fullscreen,
            borderless: self.borderless,
            always_on_top: self.always_on_top,
            hide_cursor: self.hide_cursor,
            language: self.language,
        }
    }
}

impl Default for Settings {
    fn default() -> (s: Self)
        ensures
            s.initial(),
    {
        let s = Settings {
            show_panel: false,
            show_stats: true,
            fit_mode: FitMode::Fit,
            background_color: [0, 0, 0],
            jpeg_quality: 75,
            fullscreen: false,
            borderless: false,
            always_on_top: false,
            hide_cursor: false,
            language: Language::German,
        };
        assert(s.background_color@ =~= seq![0u32, 0u32, 0u32]);
        s
    }
}

/// What the stats overlay says about the capture.
#[derive(Debug)]
pub struct CaptureInfo {
    pub fps_target: u32,
    pub format_label: String,
}

impl Clone for CaptureInfo {
    fn clone(&self) -> (r: Self)
        ensures
            r == *self,
    {
        CaptureInfo { fps_target: self.fps_target, format_label: self.format_label.clone() }
    }
}

/// The bit pattern of the single precision number one.
pub const ONE_BITS: u32 = 0x3f80_0000;

/// The bit pattern of the single precision number zero.
pub const ZERO_BITS: u32 = 0;

/// How the picture is shown. All but the first two are held as the bit patterns
/// of single precision numbers.
#[derive(Debug, Clone, Copy)]
pub struct ViewSettings {
    pub present_mode: PresentMode,
    /// Aspect ratio that the user forced, such as 4:3 for old consoles.
    pub custom_aspect: Option<(u32, u32)>,
    pub color_brightness: u32,
    pub color_contrast: u32,
    pub color_saturation: u32,
    pub color_hue_deg: u32,
    pub zoom: u32,
    pub pan_x: u32,
    pub pan_y: u32,
    pub crt_strength: u32,
}

impl ViewSettings {
    /// The picture as it comes.
    pub fn new() -> (v: Self)
        ensures
            v == (ViewSettings {
                present_mode: PresentMode::Mailbox,
                custom_aspect: None,
                color_brightness: ZERO_BITS,
                color_contrast: ONE_BITS,
                color_saturation: ONE_BITS,
                color_hue_deg: ZERO_BITS,
                zoom: ONE_BITS,
                pan_x: ZERO_BITS,
                pan_y: ZERO_BITS,
                crt_strength: ZERO_BITS,
            }),
    {
        ViewSettings {
            present_mode: PresentMode::Mailbox,
            custom_aspect: None,
            color_brightness: ZERO_BITS,
            color_contrast: ONE_BITS,
            color_saturation: ONE_BITS,
            color_hue_deg: ZERO_BITS,
            zoom: ONE_BITS,
            pan_x: ZERO_BITS,
            pan_y: ZERO_BITS,
            crt_strength: ZERO_BITS,
        }
    }

    /// Colours as they come.
    pub fn reset_color(&mut self)
        ensures
            *final(self) == (ViewSettings {
                color_brightness: ZERO_BITS,
                color_contrast: ONE_BITS,
                color_saturation: ONE_BITS,
                color_hue_deg: ZERO_BITS,
                ..*old(self)
            }),
            final(self).color_brightness == 0,
            final(self).color_contrast == 0x3f80_0000,
            final(self).color_saturation == 0x3f80_0000,
            final(self).color_hue_deg == 0,
    {
        self.color_brightness = ZERO_BITS;
        self.color_contrast = ONE_BITS;
        self.color_saturation = ONE_BITS;
        self.color_hue_deg = ZERO_BITS;
    }

    /// The whole picture, in the middle.
    pub fn reset_zoom(&mut self)
        ensures
            *final(self) == (ViewSettings {
                zoom: ONE_BITS,
                pan_x: ZERO_BITS,
                pan_y: ZERO_BITS,
                ..*old(self)
            }),
            final(self).zoom == 0x3f80_0000,
            final(self).pan_x == 0,
            final(self).pan_y == 0,
    {
        self.zoom = ONE_BITS;
        self.pan_x = ZERO_BITS;
        self.pan_y = ZERO_BITS;
    }

    /// The aspect ratio to start editing from: 4:3 where none is forced.
    pub fn edited_aspect(&self) -> (r: (u32, u32))
        ensures
            r == match self.custom_aspect {
                Some(a) => a,
                None => (4u32, 3u32),
            },
    {
        match self.custom_aspect {
            Some(a) => a,
            None => (4, 3),
        }
    }

    /// Forces the aspect ratio `edited`, or stops forcing one.
    pub fn set_custom_aspect(&mut self, use_custom: bool, edited: (u32, u32))
        ensures
            *final(self) == (ViewSettings {
                custom_aspect: if use_custom {
                    Some(edited)
                } else {
                    None
                },
                ..*old(self)
            }),
    {
        self.custom_aspect = if use_custom {
            Some(edited)
        } else {
            None
        };
    }
}

/// A first start shows a plain window: no panel, nothing forced, the picture
/// fitted on black with its figures.
pub proof fn law_first_settings_are_plain(s: Settings)
    requires
        s.initial(),
    ensures
        !s.show_panel && !s.fullscreen && !s.borderless && !s.always_on_top && !s.hide_cursor,
        s.show_stats,
        s.fit_mode is Fit,
        s.jpeg_quality == 75,
        s.language is German,
        s.background_color@.len() == 3,
        forall|i: int| 0 <= i < 3 ==> #[trigger] s.background_color@[i] == 0,
{
}

} // verus!
