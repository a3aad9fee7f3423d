//! Where the picture goes in the window, and how it gets to the display.
use crate::settings::{FitMode, PresentMode};
use vstd::prelude::*;

verus! {

/// How far the quad reaches from the middle of the window to its edge, each way
/// as a fraction.
#[derive(Debug, Clone, Copy, PartialEq, Eq, Structural)]
pub struct QuadScale {
    pub x_num: u64,
    pub x_den: u64,
    pub y_num: u64,
    pub y_den: u64,
}

/// The aspect ratio of the picture: the one the user forced where both its
/// sides are there, else that of the texture.
pub open spec fn source_ratio(custom: Option<(u32, u32)>, texture: (u32, u32)) -> (u32, u32) {
    match custom {
        Some(c) => if c.0 > 0 && c.1 > 0 {
            c
        } else {
            texture_ratio(texture)
        },
        None => texture_ratio(texture),
    }
}

/// The aspect ratio of a texture, no side less than one.
pub open spec fn texture_ratio(texture: (u32, u32)) -> (u32, u32) {
    (
        if texture.0 >= 1 {
            texture.0
        } else {
            1
        },
        if texture.1 >= 1 {
            texture.1
        } else {
            1
        },
    )
}

pub fn source_aspect(custom: Option<(u32, u32)>, texture: (u32, u32)) -> (r: (u32, u32))
    ensures
        r == source_ratio(custom, texture),
        r.0 >= 1,
        r.1 >= 1,
        custom matches Some(c) && c.0 > 0 && c.1 > 0 ==> r == custom->0,
{
    if let Some(c) = custom {
        if c.0 > 0 && c.1 > 0 {
            return c;
        }
    }
    let w: u32 = if texture.0 >= 1 {
        texture.0
    } else {
        1
    };
    let h: u32 = if texture.1 >= 1 {
        texture.1
    } else {
        1
    };
    (w, h)
}

/// The source is wider than the window, in proportion.
pub open spec fn wider(src: (u32, u32), dst: (u32, u32)) -> bool {
    src.0 as int * dst.1 as int > dst.0 as int * src.1 as int
}

/// Source aspect over window aspect, as a fraction; it is more than one where
/// the source is wider.
pub open spec fn ratio(src: (u32, u32), dst: (u32, u32)) -> (int, int) {
    (src.0 as int * dst.1 as int, dst.0 as int * src.1 as int)
}

/// The quad for a fit mode, given the aspect ratios of source and window.
pub open spec fn scale_for(mode: FitMode, src: (u32, u32), dst: (u32, u32), s: QuadScale) -> bool {
    let full_x = s.x_num == 1 && s.x_den == 1;
    let full_y = s.y_num == 1 && s.y_den == 1;
    let ratio_x = s.x_num == ratio(src, dst).0 && s.x_den == ratio(src, dst).1;
    let inverse_y = s.y_num == ratio(src, dst).1 && s.y_den == ratio(src, dst).0;
    match mode {
        FitMode::Stretch => full_x && full_y,
        FitMode::Fit => if wider(src, dst) {
            full_x && inverse_y
        } else {
            ratio_x && full_y
        },
        FitMode::Fill => if wider(src, dst) {
            ratio_x && full_y
        } else {
            full_x && inverse_y
        },
    }
}

/// The quad scale for the chosen fit mode given the source and destination
/// aspect ratios.
pub fn quad_scale(mode: FitMode, src: (u32, u32), dst: (u32, u32)) -> (s: QuadScale)
    requires
        src.0 >= 1,
        src.1 >= 1,
        dst.0 >= 1,
        dst.1 >= 1,
    ensures
        scale_for(mode, src, dst, s),
        s.x_den >= 1,
        s.y_den >= 1,
        mode is Stretch ==> s.x_num == s.x_den && s.y_num == s.y_den,
        mode is Fit ==> s.x_num <= s.x_den && s.y_num <= s.y_den,
        mode is Fill ==> s.x_num >= s.x_den && s.y_num >= s.y_den,
        s.x_num == s.x_den || s.y_num == s.y_den,
{
    proof {
        lemma_product(src.0, dst.1);
        lemma_product(dst.0, src.1);
    }
    let a: u64 = src.0 as u64 * dst.1 as u64;
    let b: u64 = dst.0 as u64 * src.1 as u64;
    let shrink_y = QuadScale { x_num: 1, x_den: 1, y_num: b, y_den: a };
    let shrink_x = QuadScale { x_num: a, x_den: b, y_num: 1, y_den: 1 };
    match mode {
        FitMode::Stretch => QuadScale { x_num: 1, x_den: 1, y_num: 1, y_den: 1 },
        FitMode::Fit => if a > b {
            shrink_y
        } else {
            shrink_x
        },
        FitMode::Fill => if a > b {
            shrink_x
        } else {
            shrink_y
        },
    }
}

proof fn lemma_product(a: u32, b: u32)
    by (nonlinear_arith)
    requires
        a >= 1,
        b >= 1,
    ensures
        1 <= a * b <= 0xffff_ffff * 0xffff_ffff,
{
}

/// Fitting shows the whole picture: the quad reaches no further than the window
/// either way, touches it one way, and keeps the aspect ratio.
pub proof fn law_fit_shows_everything(src: (u32, u32), dst: (u32, u32), s: QuadScale)
    requires
        src.0 >= 1,
        src.1 >= 1,
        dst.0 >= 1,
        dst.1 >= 1,
        scale_for(FitMode::Fit, src, dst, s),
    ensures
        s.x_num <= s.x_den,
        s.y_num <= s.y_den,
        s.x_num == s.x_den || s.y_num == s.y_den,
        keeps_aspect(src, dst, s),
{
    lemma_keeps_aspect(src, dst, s);
}

/// Filling leaves no part of the window empty: the quad reaches at least as far
/// as the window both ways, no further one way, and keeps the aspect ratio.
pub proof fn law_fill_covers_the_window(src: (u32, u32), dst: (u32, u32), s: QuadScale)
    requires
        src.0 >= 1,
        src.1 >= 1,
        dst.0 >= 1,
        dst.1 >= 1,
        scale_for(FitMode::Fill, src, dst, s),
    ensures
        s.x_num >= s.x_den,
        s.y_num >= s.y_den,
        s.x_num == s.x_den || s.y_num == s.y_den,
        keeps_aspect(src, dst, s),
{
    lemma_keeps_aspect(src, dst, s);
}

/// The quad has the aspect ratio of the source: width over height of the scaled
/// window equals that of the source.
pub open spec fn keeps_aspect(src: (u32, u32), dst: (u32, u32), s: QuadScale) -> bool {
    (s.x_num as int * s.y_den as int) * (dst.0 as int * src.1 as int) == (s.y_num as int
        * s.x_den as int) * (src.0 as int * dst.1 as int)
}

proof fn lemma_keeps_aspect(src: (u32, u32), dst: (u32, u32), s: QuadScale)
    requires
        scale_for(FitMode::Fit, src, dst, s) || scale_for(FitMode::Fill, src, dst, s),
    ensures
        keeps_aspect(src, dst, s),
{
    let a = src.0 as int * dst.1 as int;
    let b = dst.0 as int * src.1 as int;
    if s.x_num == 1 && s.x_den == 1 && s.y_num == b && s.y_den == a {
        assert((1 * a) * b == (b * 1) * a) by (nonlinear_arith);
    } else {
        assert((a * 1) * b == (1 * b) * a) by (nonlinear_arith);
    }
}

/// How a surface can be presented.
#[derive(Debug, Clone, Copy, PartialEq, Eq, Structural)]
pub enum SurfacePresentMode {
    AutoVsync,
    AutoNoVsync,
    Fifo,
    FifoRelaxed,
    Immediate,
    Mailbox,
}

/// The surface's name for what the user wants.
pub open spec fn surface_mode(want: PresentMode) -> SurfacePresentMode {
    match want {
        PresentMode::Immediate => SurfacePresentMode::Immediate,
        PresentMode::Mailbox => SurfacePresentMode::Mailbox,
        PresentMode::Fifo => SurfacePresentMode::Fifo,
    }
}

/// The mode that is used: the wanted one where it is supported, else
/// first-in first-out.
pub open spec fn present_mode_for(want: PresentMode, supported: Seq<SurfacePresentMode>)
    -> SurfacePresentMode {
    if supported.contains(surface_mode(want)) {
        surface_mode(want)
    } else {
        SurfacePresentMode::Fifo
    }
}

fn to_surface_mode(want: PresentMode) -> (m: SurfacePresentMode)
    ensures
        m == surface_mode(want),
{
    match want {
        PresentMode::Immediate => SurfacePresentMode::Immediate,
        PresentMode::Mailbox => SurfacePresentMode::Mailbox,
        PresentMode::Fifo => SurfacePresentMode::Fifo,
    }
}

fn supports(supported: &[SurfacePresentMode], mode: SurfacePresentMode) -> (r: bool)
    ensures
        r == supported@.contains(mode),
{
    let mut i: usize = 0;
    while i < supported.len()
        invariant
            i <= supported@.len(),
            forall|j: int| 0 <= j < i ==> #[trigger] supported@[j] != mode,
        decreases supported@.len() - i,
    {
        if supported[i] == mode {
            assert(supported@[i as int] == mode);
            return true;
        }
        i = i + 1;
    }
    false
}

pub fn pick_present_mode(want: PresentMode, supported: &[SurfacePresentMode]) -> (m:
    SurfacePresentMode)
    ensures
        m == present_mode_for(want, supported@),
{
    let candidate: SurfacePresentMode = to_surface_mode(want);
    if supports(supported, candidate) {
        candidate
    } else {
        SurfacePresentMode::Fifo
    }
}

/// Where a mode stands in the list that the user picks from.
pub open spec fn menu_place(m: PresentMode) -> int {
    match m {
        PresentMode::Immediate => 0,
        PresentMode::Mailbox => 1,
        PresentMode::Fifo => 2,
    }
}

/// The modes to offer to the user: those that the surface supports, each once,
/// in the order of the menu.
pub fn present_options(supported: &[SurfacePresentMode]) -> (options: Vec<PresentMode>)
    ensures
        forall|m: PresentMode| #[trigger]
            options@.contains(m) <==> supported@.contains(surface_mode(m)),
        options@.contains(PresentMode::Immediate) <==> supported@.contains(
            SurfacePresentMode::Immediate,
        ),
        options@.contains(PresentMode::Mailbox) <==> supported@.contains(
            SurfacePresentMode::Mailbox,
        ),
        options@.contains(PresentMode::Fifo) <==> supported@.contains(SurfacePresentMode::Fifo),
        forall|i: int, j: int|
            0 <= i < j < options@.len() ==> menu_place(#[trigger] options@[i]) < menu_place(
                #[trigger] options@[j],
            ),
{
    let mut options: Vec<PresentMode> = Vec::new();
    let immediate: bool = supports(supported, SurfacePresentMode::Immediate);
    let mailbox: bool = supports(supported, SurfacePresentMode::Mailbox);
    let fifo: bool = supports(supported, SurfacePresentMode::Fifo);
    if immediate {
        options.push(PresentMode::Immediate);
    }
    if mailbox {
        options.push(PresentMode::Mailbox);
    }
    if fifo {
        options.push(PresentMode::Fifo);
    }
    proof {
        let n = options@.len();
        assert(immediate ==> options@[0] == PresentMode::Immediate);
        assert(mailbox ==> options@[if immediate {
            1
        } else {
            0
        }] == PresentMode::Mailbox);
        assert(fifo ==> options@[n - 1] == PresentMode::Fifo);
    }
    options
}

/// Whatever is offered to the user is used as it is.
pub proof fn law_offered_modes_are_used(supported: Seq<SurfacePresentMode>, m: PresentMode)
    requires
        supported.contains(surface_mode(m)),
    ensures
        present_mode_for(m, supported) == surface_mode(m),
{
}

/// On a surface that supports the first-in first-out mode, as all do, the mode
/// that is used is a supported one.
pub proof fn law_present_mode_is_supported(want: PresentMode, supported: Seq<SurfacePresentMode>)
    requires
        supported.contains(SurfacePresentMode::Fifo),
    ensures
        supported.contains(present_mode_for(want, supported)),
{
}

/// The surface format to use, by its place in the list: the first that is sRGB,
/// else the first.
pub fn pick_surface_format(is_srgb: &[bool]) -> (i: usize)
    requires
        is_srgb@.len() > 0,
    ensures
        i < is_srgb@.len(),
        if is_srgb@.contains(true) {
            is_srgb@[i as int] && forall|j: int| 0 <= j < i ==> !#[trigger] is_srgb@[j]
        } else {
            i == 0
        },
{
    let mut i: usize = 0;
    while i < is_srgb.len()
        invariant
            i <= is_srgb@.len(),
            forall|j: int| 0 <= j < i ==> !#[trigger] is_srgb@[j],
        decreases is_srgb@.len() - i,
    {
        if is_srgb[i] {
            return i;
        }
        i = i + 1;
    }
    0
}

/// What came of asking the surface for a texture to draw on.
#[derive(Debug, Clone, Copy, PartialEq, Eq, Structural)]
pub enum Acquired {
    Texture,
    Outdated,
    Lost,
    /// Any other failure.
    Failed,
}

/// What to do about it.
#[derive(Debug, Clone, Copy, PartialEq, Eq, Structural)]
pub enum AcquireStep {
    Draw,
    /// Configure the surface again and leave out this frame.
    Reconfigure,
    Fail,
}

pub fn acquire_step(a: Acquired) -> (s: AcquireStep)
    ensures
        s == match a {
            Acquired::Texture => AcquireStep::Draw,
            Acquired::Outdated => AcquireStep::Reconfigure,
            Acquired::Lost => AcquireStep::Reconfigure,
            Acquired::Failed => AcquireStep::Fail,
        },
{
    match a {
        Acquired::Texture => AcquireStep::Draw,
        Acquired::Outdated => AcquireStep::Reconfigure,
        Acquired::Lost => AcquireStep::Reconfigure,
        Acquired::Failed => AcquireStep::Fail,
    }
}

/// A side of the surface: at least one pixel, at most what the device can.
pub open spec fn clamped_side(side: u32, max_dim: u32) -> u32 {
    if side < 1 {
        1
    } else if side > max_dim {
        max_dim
    } else {
        side
    }
}

pub fn clamp_side(side: u32, max_dim: u32) -> (r: u32)
    requires
        max_dim >= 1,
    ensures
        r == clamped_side(side, max_dim),
        1 <= r <= max_dim,
{
    if side < 1 {
        1
    } else if side > max_dim {
        max_dim
    } else {
        side
    }
}

/// Stretching fills the window exactly, whatever the two aspect ratios are: the
/// quad reaches the edge of the window both ways and no further.
pub proof fn law_stretch_fills_the_window(src: (u32, u32), dst: (u32, u32), s: QuadScale)
    requires
        src.0 >= 1,
        src.1 >= 1,
        dst.0 >= 1,
        dst.1 >= 1,
        scale_for(FitMode::Stretch, src, dst, s),
    ensures
        s.x_num == s.x_den,
        s.y_num == s.y_den,
        s.x_den >= 1,
        s.y_den >= 1,
{
}

/// Where the picture is stretched, its aspect ratio plays no part: any two
/// pictures cover the same of the window.
pub proof fn law_stretch_ignores_the_aspect(
    a: (u32, u32),
    b: (u32, u32),
    dst: (u32, u32),
    s: QuadScale,
)
    ensures
        scale_for(FitMode::Stretch, a, dst, s) <==> scale_for(FitMode::Stretch, b, dst, s),
{
}

/// Fitting and filling lay the picture out over the whole window just where its
/// aspect ratio is that of the window.
pub proof fn law_same_aspect_is_shown_whole(src: (u32, u32), dst: (u32, u32), s: QuadScale)
    requires
        src.0 >= 1,
        src.1 >= 1,
        dst.0 >= 1,
        dst.1 >= 1,
        scale_for(FitMode::Fit, src, dst, s) || scale_for(FitMode::Fill, src, dst, s),
    ensures
        s.x_num == s.x_den && s.y_num == s.y_den <==> src.0 as int * dst.1 as int
            == dst.0 as int * src.1 as int,
{
}

/// A forced aspect ratio holds whatever the texture is; one with a side missing
/// counts for nothing, and the picture then has the aspect ratio of its texture.
pub proof fn law_forced_aspect_wins(custom: Option<(u32, u32)>, texture: (u32, u32))
    requires
        texture.0 >= 1,
        texture.1 >= 1,
    ensures
        custom matches Some(c) && c.0 >= 1 && c.1 >= 1 ==> source_ratio(custom, texture) == custom->0,
        custom matches Some(c) && c.0 == 0 ==> source_ratio(custom, texture) == texture,
        custom matches Some(c) && c.1 == 0 ==> source_ratio(custom, texture) == texture,
        custom is None ==> source_ratio(custom, texture) == texture,
{
}

/// A mode that the surface has is used under its own name, and any other gives
/// way to first-in first-out.
pub proof fn law_wanted_mode_or_fifo(supported: Seq<SurfacePresentMode>)
    ensures
        supported.contains(SurfacePresentMode::Immediate) <==> present_mode_for(
            PresentMode::Immediate,
            supported,
        ) == SurfacePresentMode::Immediate,
        supported.contains(SurfacePresentMode::Mailbox) <==> present_mode_for(
            PresentMode::Mailbox,
            supported,
        ) == SurfacePresentMode::Mailbox,
        !supported.contains(SurfacePresentMode::Immediate) ==> present_mode_for(
            PresentMode::Immediate,
            supported,
        ) == SurfacePresentMode::Fifo,
        !supported.contains(SurfacePresentMode::Mailbox) ==> present_mode_for(
            PresentMode::Mailbox,
            supported,
        ) == SurfacePresentMode::Fifo,
        present_mode_for(PresentMode::Fifo, supported) == SurfacePresentMode::Fifo,
{
}

/// Options that are listed in the order of the menu: immediate before mailbox
/// before first-in first-out, and none twice.
pub proof fn law_order_of_the_menu(options: Seq<PresentMode>, i: int, j: int)
    requires
        forall|a: int, b: int|
            0 <= a < b < options.len() ==> menu_place(#[trigger] options[a]) < menu_place(
                #[trigger] options[b],
            ),
        0 <= i < j < options.len(),
    ensures
        options.len() <= 3,
        options[i] != options[j],
        options[j] is Mailbox ==> options[i] is Immediate,
        options[j] is Fifo ==> options[i] is Immediate || options[i] is Mailbox,
        !(options[j] is Immediate),
{
    if options.len() > 3 {
        assert(menu_place(options[0]) < menu_place(options[1]));
        assert(menu_place(options[1]) < menu_place(options[2]));
        assert(menu_place(options[2]) < menu_place(options[3]));
    }
}

/// A side that the device can show stays as it is, a larger one is cut to what
/// the device can, and no side is empty.
pub proof fn law_possible_sides_stay(side: u32, max_dim: u32)
    requires
        max_dim >= 1,
    ensures
        1 <= side <= max_dim ==> clamped_side(side, max_dim) == side,
        side > max_dim ==> clamped_side(side, max_dim) == max_dim,
        side == 0 ==> clamped_side(side, max_dim) == 1,
{
}

/// Fitting and filling keep the picture's proportions: the width that the quad
/// takes of the window is to its height as the width of the picture to its
/// height.
pub proof fn law_proportions_are_kept(
    mode: FitMode,
    src: (u32, u32),
    dst: (u32, u32),
    s: QuadScale,
)
    requires
        scale_for(mode, src, dst, s),
        !(mode is Stretch),
    ensures
        (s.x_num as int * s.y_den as int) * (dst.0 as int * src.1 as int) == (s.y_num as int
            * s.x_den as int) * (src.0 as int * dst.1 as int),
{
    lemma_keeps_aspect(src, dst, s);
}

/// The surface knows each mode under the name that the user picks it by.
pub proof fn law_modes_keep_their_names()
    ensures
        surface_mode(PresentMode::Immediate) is Immediate,
        surface_mode(PresentMode::Mailbox) is Mailbox,
        surface_mode(PresentMode::Fifo) is Fifo,
{
}

} // verus!
