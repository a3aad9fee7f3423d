use std::sync::Arc;
use video_capture_share::camera_format::{CameraFormat, FrameFormat};
use video_capture_share::frame::{Frame, FrameData, SourceFrame};
use video_capture_share::layout::{
    acquire_step, clamp_side, pick_present_mode, pick_surface_format, present_options, quad_scale,
    source_aspect,
    AcquireStep, Acquired, QuadScale, SurfacePresentMode,
};
use video_capture_share::picture::{
    can_upload, frame_appears_bright, rgb_to_rgba, ActivePipeline, Textures, Upload,
};
use video_capture_share::preview::{
    no_signal, redraw_on, Action, AppliedWindow, Key, Preview, RecordToggle, RecordingHandle,
    RedrawPlan, WakeUp, WindowInput,
};
use video_capture_share::settings::{FitMode, PresentMode, Settings, ViewSettings};

fn nv12(width: u32, height: u32, bytes: Vec<u8>, seq: u64) -> SourceFrame {
    SourceFrame { width, height, data: FrameData::Nv12(Arc::new(bytes)), seq }
}

fn rgb(width: u32, height: u32, bytes: Vec<u8>, seq: u64) -> SourceFrame {
    SourceFrame { width, height, data: FrameData::Rgb(Arc::new(bytes)), seq }
}

#[test]
fn brightness_of_luma_planes() {
    assert!(!frame_appears_bright(&nv12(8, 8, vec![12; 96], 1)));
    assert!(frame_appears_bright(&nv12(8, 8, vec![13; 96], 1)));
    assert!(!frame_appears_bright(&nv12(7, 9, vec![255; 96], 1)));
    assert!(!frame_appears_bright(&nv12(100, 100, vec![255; 63], 1)));
    let mut dark_luma = vec![0; 64];
    dark_luma.extend_from_slice(&[255; 32]);
    assert!(!frame_appears_bright(&nv12(8, 8, dark_luma, 1)));
    let mut sparse = vec![0; 192];
    for i in 0..64 {
        sparse[i * 3] = 13;
    }
    assert!(frame_appears_bright(&nv12(192, 1, sparse, 1)));
}

#[test]
fn brightness_of_pixels() {
    assert!(frame_appears_bright(&rgb(8, 8, vec![13; 256], 1)));
    assert!(!frame_appears_bright(&rgb(8, 8, vec![12; 256], 1)));
    assert!(!frame_appears_bright(&rgb(8, 8, vec![255; 255], 1)));
    let green: Vec<u8> = (0..256).map(|i| if i % 4 == 1 { 24 } else { 0 }).collect();
    assert!(frame_appears_bright(&rgb(8, 8, green, 1)));
    let blue: Vec<u8> = (0..256).map(|i| if i % 4 == 2 { 24 } else { 0 }).collect();
    assert!(!frame_appears_bright(&rgb(8, 8, blue, 1)));
}

#[test]
fn rgba_conversion() {
    assert_eq!(rgb_to_rgba(&[1, 2, 3, 4, 5, 6]), vec![1, 2, 3, 255, 4, 5, 6, 255]);
    assert_eq!(rgb_to_rgba(&[1, 2, 3, 4]), vec![1, 2, 3, 255]);
    assert_eq!(rgb_to_rgba(&[]), Vec::<u8>::new());
}

#[test]
fn uploads() {
    let mut t = Textures::new();
    assert_eq!(t.image_height(), 1);
    match t.upload_frame(&rgb(2, 1, vec![1, 2, 3, 4, 5, 6], 1)) {
        Upload::Rgb { realloc, width, height, pixels, bytes_per_row } => {
            assert!(realloc);
            assert_eq!((width, height, bytes_per_row), (2, 1, 8));
            assert_eq!(pixels, vec![1, 2, 3, 255, 4, 5, 6, 255]);
        }
        Upload::Nv12 { .. } => panic!("the frame is RGB"),
    }
    assert_eq!(t.active, ActivePipeline::Rgb);
    assert_eq!(t.current, (2, 1));
    match t.upload_frame(&rgb(2, 1, vec![0; 6], 2)) {
        Upload::Rgb { realloc, .. } => assert!(!realloc),
        Upload::Nv12 { .. } => panic!("the frame is RGB"),
    }
    let planes = nv12(2, 2, vec![1, 2, 3, 4, 5, 6], 3);
    match t.upload_frame(&planes) {
        Upload::Nv12 {
            realloc, luma, chroma, chroma_width, chroma_height, bytes_per_row, ..
        } => {
            assert!(realloc);
            assert_eq!(luma, vec![1, 2, 3, 4]);
            assert_eq!(chroma, vec![5, 6]);
            assert_eq!((chroma_width, chroma_height, bytes_per_row), (1, 1, 2));
        }
        Upload::Rgb { .. } => panic!("the frame is NV12"),
    }
    assert_eq!(t.image_height(), 2);
    match t.upload_frame(&rgb(1, 3, vec![0; 9], 4)) {
        Upload::Rgb { realloc, .. } => assert!(realloc),
        Upload::Nv12 { .. } => panic!("the frame is RGB"),
    }
    assert_eq!(t.image_height(), 3);
    match t.upload_frame(&planes) {
        Upload::Nv12 { realloc, .. } => assert!(!realloc),
        Upload::Rgb { .. } => panic!("the frame is NV12"),
    }
}

#[test]
fn frames_that_can_be_uploaded() {
    assert!(can_upload(&nv12(2, 2, vec![0; 4], 1)));
    assert!(!can_upload(&nv12(2, 2, vec![0; 3], 1)));
    assert!(can_upload(&rgb(1, 1, vec![], 1)));
    assert!(!can_upload(&rgb(0x4000_0000, 1, vec![], 1)));
    let f = Frame { width: 1, height: 1, rgb: Arc::new(vec![1, 2, 3]), seq: 9 };
    let s = f.to_source();
    assert_eq!((s.width, s.height, s.seq), (1, 1, 9));
    assert!(matches!(s.data, FrameData::Rgb(b) if *b == vec![1, 2, 3]));
}

#[test]
fn aspect_ratios() {
    assert_eq!(source_aspect(None, (1920, 1080)), (1920, 1080));
    assert_eq!(source_aspect(None, (0, 0)), (1, 1));
    assert_eq!(source_aspect(Some((4, 3)), (1920, 1080)), (4, 3));
    assert_eq!(source_aspect(Some((0, 3)), (1920, 1080)), (1920, 1080));
}

#[test]
fn quad_scales() {
    let scale = |x_num, x_den, y_num, y_den| QuadScale { x_num, x_den, y_num, y_den };
    assert_eq!(quad_scale(FitMode::Stretch, (16, 9), (4, 3)), scale(1, 1, 1, 1));
    assert_eq!(quad_scale(FitMode::Fit, (16, 9), (4, 3)), scale(1, 1, 36, 48));
    assert_eq!(quad_scale(FitMode::Fit, (4, 3), (16, 9)), scale(36, 48, 1, 1));
    assert_eq!(quad_scale(FitMode::Fill, (16, 9), (4, 3)), scale(48, 36, 1, 1));
    assert_eq!(quad_scale(FitMode::Fill, (4, 3), (16, 9)), scale(1, 1, 48, 36));
    assert_eq!(quad_scale(FitMode::Fit, (8, 6), (4, 3)), scale(24, 24, 1, 1));
}

#[test]
fn present_modes() {
    let all = [
        SurfacePresentMode::Fifo,
        SurfacePresentMode::Immediate,
        SurfacePresentMode::Mailbox,
    ];
    assert_eq!(pick_present_mode(PresentMode::Immediate, &all), SurfacePresentMode::Immediate);
    assert_eq!(pick_present_mode(PresentMode::Fifo, &all), SurfacePresentMode::Fifo);
    assert_eq!(pick_present_mode(PresentMode::Mailbox, &all), SurfacePresentMode::Mailbox);
    assert_eq!(pick_present_mode(PresentMode::Mailbox, &all[..2]), SurfacePresentMode::Fifo);
    assert_eq!(pick_present_mode(PresentMode::Immediate, &all[2..]), SurfacePresentMode::Fifo);
    assert_eq!(pick_present_mode(PresentMode::Mailbox, &[]), SurfacePresentMode::Fifo);
    assert_eq!(pick_present_mode(PresentMode::Immediate, &all[..1]), SurfacePresentMode::Fifo);
    let odd = [SurfacePresentMode::FifoRelaxed];
    assert_eq!(pick_present_mode(PresentMode::Mailbox, &odd), SurfacePresentMode::Fifo);
}

#[test]
fn offered_present_modes() {
    let all = [
        SurfacePresentMode::Fifo,
        SurfacePresentMode::AutoVsync,
        SurfacePresentMode::Mailbox,
        SurfacePresentMode::Immediate,
    ];
    assert_eq!(
        present_options(&all),
        vec![PresentMode::Immediate, PresentMode::Mailbox, PresentMode::Fifo]
    );
    assert_eq!(present_options(&all[..3]), vec![PresentMode::Mailbox, PresentMode::Fifo]);
    assert_eq!(present_options(&all[1..2]), vec![]);
    for mode in present_options(&all[..3]) {
        assert_eq!(pick_present_mode(mode, &all[..3]), pick_present_mode(mode, &all));
    }
}

#[test]
fn surfaces() {
    assert_eq!(pick_surface_format(&[false, true, true]), 1);
    assert_eq!(pick_surface_format(&[false, false]), 0);
    assert_eq!(clamp_side(0, 100), 1);
    assert_eq!(clamp_side(50, 100), 50);
    assert_eq!(clamp_side(101, 100), 100);
    assert_eq!(acquire_step(Acquired::Texture), AcquireStep::Draw);
    assert_eq!(acquire_step(Acquired::Outdated), AcquireStep::Reconfigure);
    assert_eq!(acquire_step(Acquired::Lost), AcquireStep::Reconfigure);
    assert_eq!(acquire_step(Acquired::Failed), AcquireStep::Fail);
}

fn press(key: Key) -> WindowInput {
    WindowInput::Key { key, pressed: true, repeat: false }
}

#[test]
fn keys() {
    let mut p = Preview::new();
    let mut s = Settings::default();
    let mut v = ViewSettings::new();
    assert_eq!(p.window_event(press(Key::F1), 9, &mut s, &mut v), Action::Redraw);
    assert!(s.show_panel);
    assert_eq!(p.window_event(press(Key::F1), 9, &mut s, &mut v), Action::Redraw);
    assert!(!s.show_panel);
    assert_eq!(p.window_event(press(Key::Escape), 9, &mut s, &mut v), Action::Nothing);
    assert_eq!(p.window_event(press(Key::F11), 9, &mut s, &mut v), Action::Redraw);
    assert!(s.fullscreen);
    let held = WindowInput::Key { key: Key::F11, pressed: true, repeat: true };
    assert_eq!(p.window_event(held, 9, &mut s, &mut v), Action::Nothing);
    let released = WindowInput::Key { key: Key::F11, pressed: false, repeat: false };
    assert_eq!(p.window_event(released, 9, &mut s, &mut v), Action::Nothing);
    assert!(s.fullscreen);
    assert_eq!(p.window_event(press(Key::Escape), 9, &mut s, &mut v), Action::Redraw);
    assert!(!s.fullscreen);
    assert_eq!(p.window_event(press(Key::F9), 9, &mut s, &mut v), Action::Screenshot);
    assert_eq!(p.window_event(press(Key::F10), 9, &mut s, &mut v), Action::ToggleRecording);
    assert_eq!(p.window_event(press(Key::Other), 9, &mut s, &mut v), Action::Nothing);
}

#[test]
fn other_window_events() {
    let mut p = Preview::new();
    let mut s = Settings::default();
    let mut v = ViewSettings::new();
    let mut send = |input| p.window_event(input, 100, &mut s, &mut v);
    assert_eq!(send(WindowInput::CloseRequested), Action::Exit);
    assert_eq!(
        send(WindowInput::Resized { width: 50, height: 200 }),
        Action::Resize { width: 50, height: 100 }
    );
    assert_eq!(send(WindowInput::Resized { width: 0, height: 200 }), Action::Nothing);
    assert_eq!(send(WindowInput::Wheel), Action::Nothing);
    assert_eq!(send(WindowInput::ModifiersChanged { control: true }), Action::Nothing);
    assert_eq!(send(WindowInput::Wheel), Action::Zoom);
    assert_eq!(send(WindowInput::ModifiersChanged { control: false }), Action::Nothing);
    assert_eq!(send(WindowInput::Wheel), Action::Nothing);
    assert_eq!(send(WindowInput::RedrawRequested), Action::Render);
    assert_eq!(send(WindowInput::Other), Action::Nothing);
    assert_eq!(send(WindowInput::MouseButton { pressed: true, right: false }), Action::Nothing);
    assert_eq!(send(WindowInput::MouseButton { pressed: false, right: true }), Action::Nothing);
}

#[test]
fn a_right_click_resets_the_view() {
    let mut p = Preview::new();
    let mut s = Settings::default();
    let mut v = ViewSettings::new();
    v.zoom = 2.5f32.to_bits();
    v.pan_x = 0.25f32.to_bits();
    v.color_hue_deg = 30.0f32.to_bits();
    let click = WindowInput::MouseButton { pressed: true, right: true };
    assert_eq!(p.window_event(click, 1, &mut s, &mut v), Action::Redraw);
    assert_eq!(f32::from_bits(v.zoom), 1.0);
    assert_eq!(f32::from_bits(v.pan_x), 0.0);
    assert_eq!(f32::from_bits(v.color_hue_deg), 30.0);
}

#[test]
fn view_settings() {
    let mut v = ViewSettings::new();
    assert_eq!(f32::from_bits(v.color_contrast), 1.0);
    v.color_contrast = 1.5f32.to_bits();
    v.color_brightness = 0.5f32.to_bits();
    v.reset_color();
    assert_eq!(f32::from_bits(v.color_contrast), 1.0);
    assert_eq!(f32::from_bits(v.color_brightness), 0.0);
    assert_eq!(v.edited_aspect(), (4, 3));
    v.set_custom_aspect(true, (16, 10));
    assert_eq!(v.edited_aspect(), (16, 10));
    v.set_custom_aspect(false, (16, 10));
    assert_eq!(v.custom_aspect, None);
}

#[test]
fn redraws() {
    let mut p = Preview::new();
    let idle = RedrawPlan { new_frame: false, record: false };
    assert_eq!(p.redraw(None, true), idle);
    let f = nv12(2, 2, vec![0; 6], 1);
    assert_eq!(p.redraw(Some(&f), true), RedrawPlan { new_frame: true, record: true });
    assert_eq!(p.redraw(Some(&f), true), idle);
    let g = rgb(1, 1, vec![0; 3], 2);
    assert_eq!(p.redraw(Some(&g), true), RedrawPlan { new_frame: true, record: false });
    let h = nv12(2, 2, vec![0; 6], 3);
    assert_eq!(p.redraw(Some(&h), false), RedrawPlan { new_frame: true, record: false });
    assert_eq!((p.last_seq, p.frames_since_log), (3, 3));
}

#[test]
fn frame_rate_figures() {
    let mut p = Preview::new();
    p.frames_since_log = 90;
    let t = p.tick_fps_log(999);
    assert_eq!((t.show, t.restart), (None, false));
    let t = p.tick_fps_log(1000);
    assert_eq!((t.show, t.restart), (Some(90), false));
    let t = p.tick_fps_log(4999);
    assert_eq!((t.show, t.restart), (Some(90), false));
    let t = p.tick_fps_log(5000);
    assert_eq!((t.show, t.restart), (Some(90), true));
    assert_eq!(p.frames_since_log, 0);
}

#[test]
fn signal() {
    assert!(no_signal(None));
    assert!(!no_signal(Some(1_500_000_000)));
    assert!(no_signal(Some(1_500_000_001)));
    assert!(redraw_on(WakeUp::FrameReady, true));
    assert!(redraw_on(WakeUp::Heartbeat, true));
    assert!(!redraw_on(WakeUp::FrameReady, false));
    assert!(!redraw_on(WakeUp::Other, true));
}

#[test]
fn window_modes() {
    let mut a = AppliedWindow::new();
    let mut s = Settings::default();
    s.hide_cursor = true;
    let c = a.apply_window_mode(&s);
    assert_eq!((c.fullscreen, c.decorations, c.always_on_top, c.cursor_visible), (None, None, None, None));
    s.fullscreen = true;
    s.borderless = true;
    s.always_on_top = true;
    let c = a.apply_window_mode(&s);
    assert_eq!(
        (c.fullscreen, c.decorations, c.always_on_top, c.cursor_visible),
        (Some(true), Some(false), Some(true), Some(false))
    );
    let c = a.apply_window_mode(&s);
    assert_eq!((c.fullscreen, c.decorations, c.always_on_top, c.cursor_visible), (None, None, None, None));
    s.fullscreen = false;
    let c = a.apply_window_mode(&s);
    assert_eq!((c.fullscreen, c.cursor_visible), (Some(false), Some(true)));
}

#[test]
fn recording() {
    let current = Some(CameraFormat { width: 2, height: 4, format: FrameFormat::NV12, frame_rate: 0 });
    let mut h: RecordingHandle<u8, &str> = RecordingHandle::new();
    assert!(!h.is_recording());
    assert_eq!(h.toggle_recording(&None), RecordToggle::Unavailable);
    assert_eq!(h.toggle_recording(&current), RecordToggle::Start { width: 2, height: 4, fps: 1 });
    assert!(!h.is_recording());
    h.started(7);
    assert!(h.is_recording());
    assert_eq!(h.toggle_recording(&None), RecordToggle::Stop(7));
    assert!(!h.is_recording());
    assert_eq!((h.last_recording, h.last_screenshot), (None, None));
    h.stopped("a.nv12");
    h.screenshot_saved("b.jpg");
    assert_eq!((h.last_recording, h.last_screenshot), (Some("a.nv12"), Some("b.jpg")));
    assert_eq!(h.toggle_recording(&current), RecordToggle::Start { width: 2, height: 4, fps: 1 });
}
