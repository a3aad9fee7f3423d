use std::sync::Arc;
use video_capture_share::camera_format::{
    format_priority, matches_request, pick_best_format_from, pixel_priority, ranks_ahead,
    res_distance, smooth_class, sort_formats, CameraFormat, CaptureRequest, FrameFormat, PickError,
};
use video_capture_share::capture::{
    can_decode, decode, probe, CaptureSession, CaptureStep, UnexpectedFrameSize,
};
use video_capture_share::capture_panel::{
    active_line, capture_request, choose_resolution, fps_options, is_dirty, resolution_options,
    stage, stage_offered, PendingCapture,
};
use video_capture_share::devices::{
    extract_index, format_label, mode_label, pick_device, picked_device, print_devices,
    CameraIndex, CameraInfo, DeviceChoice,
};
use video_capture_share::frame::{fits, Frame, SharedFrame, UiEvent};

fn mode(width: u32, height: u32, frame_rate: u32, format: FrameFormat) -> CameraFormat {
    CameraFormat { width, height, format, frame_rate }
}

fn any() -> CaptureRequest {
    CaptureRequest { device_index: 0, width: None, height: None, fps: None, force_mjpeg: false }
}

#[test]
fn scores() {
    assert_eq!(smooth_class(30), 0);
    assert_eq!(smooth_class(29), 1);
    let order = [
        FrameFormat::YUYV,
        FrameFormat::NV12,
        FrameFormat::RAWRGB,
        FrameFormat::RAWBGR,
        FrameFormat::GRAY,
        FrameFormat::MJPEG,
    ];
    let ranks: Vec<u8> = order.iter().map(|f| pixel_priority(*f)).collect();
    assert_eq!(ranks, vec![0, 1, 2, 2, 3, 4]);
    assert_eq!(res_distance(&mode(1920, 1080, 30, FrameFormat::YUYV), 1920, 1080), 0);
    assert_eq!(res_distance(&mode(1280, 720, 30, FrameFormat::YUYV), 1920, 1080), 1000);
    assert_eq!(res_distance(&mode(2560, 1440, 30, FrameFormat::YUYV), 1920, 1080), 2000);
    assert_eq!(
        res_distance(&mode(u32::MAX, u32::MAX, 1, FrameFormat::YUYV), 0, 0),
        4 * (u32::MAX as u64)
    );
}

#[test]
fn ranking() {
    let raw = mode(640, 480, 10, FrameFormat::GRAY);
    let mjpeg = mode(1920, 1080, 60, FrameFormat::MJPEG);
    assert_eq!(format_priority(&raw, &mjpeg), std::cmp::Ordering::Less);
    assert_eq!(format_priority(&mjpeg, &raw), std::cmp::Ordering::Greater);
    assert!(ranks_ahead(&raw, &mjpeg));
    let smooth = mode(640, 480, 30, FrameFormat::YUYV);
    let choppy = mode(1920, 1080, 29, FrameFormat::YUYV);
    assert!(ranks_ahead(&smooth, &choppy));
    let fast = mode(640, 480, 60, FrameFormat::YUYV);
    assert!(ranks_ahead(&fast, &smooth));
    let large = mode(1280, 720, 30, FrameFormat::YUYV);
    assert!(ranks_ahead(&large, &smooth));
    let rgb = mode(640, 480, 30, FrameFormat::RAWRGB);
    let bgr = mode(640, 480, 30, FrameFormat::RAWBGR);
    assert_eq!(format_priority(&rgb, &bgr), std::cmp::Ordering::Equal);
}

#[test]
fn requests() {
    let f = mode(1280, 720, 30, FrameFormat::YUYV);
    assert!(matches_request(&f, &any()));
    assert!(matches_request(&f, &CaptureRequest { width: Some(1280), ..any() }));
    assert!(!matches_request(&f, &CaptureRequest { width: Some(1281), ..any() }));
    assert!(!matches_request(&f, &CaptureRequest { height: Some(1), ..any() }));
    assert!(!matches_request(&f, &CaptureRequest { fps: Some(60), ..any() }));
    let slow = mode(1280, 720, 4, FrameFormat::YUYV);
    assert!(!matches_request(&slow, &any()));
    assert!(matches_request(&slow, &CaptureRequest { force_mjpeg: true, ..any() }));
}

#[test]
fn picks_the_best_mode() {
    let formats = [
        mode(1920, 1080, 60, FrameFormat::MJPEG),
        mode(1920, 1080, 1, FrameFormat::YUYV),
        mode(1280, 720, 30, FrameFormat::YUYV),
        mode(1920, 1080, 30, FrameFormat::YUYV),
        mode(1920, 1080, 60, FrameFormat::NV12),
    ];
    assert_eq!(pick_best_format_from(&formats, &any()), Ok(formats[3]));
    let req = CaptureRequest { fps: Some(60), ..any() };
    assert_eq!(pick_best_format_from(&formats, &req), Ok(formats[4]));
    let none_fits = CaptureRequest { width: Some(1), ..any() };
    assert_eq!(pick_best_format_from(&formats, &none_fits), Ok(formats[3]));
    assert_eq!(pick_best_format_from(&[], &any()), Err(PickError::NoFormats));
    assert_eq!(PickError::NoFormats.message(), "device reported zero capture formats");
}

#[test]
fn equally_good_modes_keep_the_device_order() {
    let formats =
        [mode(640, 480, 30, FrameFormat::RAWBGR), mode(640, 480, 30, FrameFormat::RAWRGB)];
    assert_eq!(pick_best_format_from(&formats, &any()), Ok(formats[0]));
    let mut sorted = formats.to_vec();
    sorted.push(mode(640, 480, 60, FrameFormat::RAWRGB));
    sort_formats(&mut sorted);
    assert_eq!(
        sorted,
        vec![mode(640, 480, 60, FrameFormat::RAWRGB), formats[0], formats[1]]
    );
}

#[test]
fn the_first_listed_mode_is_picked() {
    let formats = offered();
    let open_request = CaptureRequest { force_mjpeg: true, ..any() };
    let mut listed = formats.clone();
    sort_formats(&mut listed);
    assert_eq!(pick_best_format_from(&formats, &open_request), Ok(listed[0]));
    assert_eq!(listed.len(), formats.len());
}

#[test]
fn probe_lists_modes_best_first() {
    let lines = probe(
        2,
        vec![mode(1920, 1080, 60, FrameFormat::MJPEG), mode(1280, 720, 30, FrameFormat::YUYV)],
    );
    assert_eq!(
        lines,
        vec![
            "Device 2 supports 2 modes:",
            "  1280x720 @ 30 fps  YUYV",
            "  1920x1080 @ 60 fps  MJPEG",
        ]
    );
    assert_eq!(probe(0, vec![]), vec!["Device 0 supports 0 modes:"]);
}

fn camera(index: CameraIndex, name: &str) -> CameraInfo {
    CameraInfo { human_name: name.to_string(), description: "usb".to_string(), index }
}

#[test]
fn device_list() {
    assert_eq!(
        print_devices(&[]),
        vec![
            "No capture devices found.",
            "",
            "On Windows: check Device Manager for the capture card under Cameras or Imaging devices.",
        ]
    );
    let devices =
        [camera(CameraIndex::Index(10), "card"), camera(CameraIndex::Name("ip".to_string()), "cam")];
    assert_eq!(
        print_devices(&devices),
        vec!["Capture devices:", "  [10] card   usb", "  [ip] cam   usb"]
    );
    assert_eq!(extract_index(&devices[0]), 10);
    assert_eq!(extract_index(&devices[1]), 0);
}

#[test]
fn device_choice() {
    match pick_device(&[]) {
        DeviceChoice::NoDevice { lines } => assert_eq!(lines.len(), 3),
        _ => panic!("there is no device"),
    }
    let one = [camera(CameraIndex::Index(4), "card")];
    match pick_device(&one) {
        DeviceChoice::OnlyOne { index, notice } => {
            assert_eq!(index, 4);
            assert_eq!(notice, "Only one capture device, opening: [4] card");
        }
        _ => panic!("there is one device"),
    }
    let two = [camera(CameraIndex::Index(4), "card"), camera(CameraIndex::Name("x".into()), "cam")];
    match pick_device(&two) {
        DeviceChoice::Ask { labels } => {
            assert_eq!(labels, vec!["[4] card   usb", "[0] cam   usb"])
        }
        _ => panic!("there are two devices"),
    }
    assert_eq!(picked_device(&two, Some(0)), Some(4));
    assert_eq!(picked_device(&two, Some(1)), Some(0));
    assert_eq!(picked_device(&two, None), None);
}

#[test]
fn labels() {
    assert_eq!(format_label(FrameFormat::RAWBGR), "RAWBGR");
    let m = mode(640, 480, 5, FrameFormat::GRAY);
    assert_eq!(mode_label(&m), "640x480 @ 5 fps  GRAY");
    assert_eq!(active_line("aktiv", &m), "aktiv: 640x480 @ 5 fps  GRAY");
}

#[test]
fn decodes_raw_frames() {
    assert_eq!(decode(FrameFormat::RAWRGB, 1, 1, &[1, 2, 3]).unwrap(), vec![1, 2, 3]);
    assert_eq!(decode(FrameFormat::RAWBGR, 1, 1, &[1, 2, 3]).unwrap(), vec![3, 2, 1]);
    assert_eq!(decode(FrameFormat::RAWBGR, 1, 1, &[1, 2, 3, 4]).unwrap(), vec![3, 2, 1, 0]);
    assert_eq!(decode(FrameFormat::GRAY, 2, 1, &[7, 8]).unwrap(), vec![7, 7, 7, 8, 8, 8]);
    assert_eq!(
        decode(FrameFormat::YUYV, 2, 1, &[235, 128, 16, 128]).unwrap(),
        vec![255, 255, 255, 0, 0, 0]
    );
    assert_eq!(
        decode(FrameFormat::NV12, 2, 2, &[16, 235, 235, 16, 128, 128]).unwrap(),
        vec![0, 0, 0, 255, 255, 255, 255, 255, 255, 0, 0, 0]
    );
    assert_eq!(
        decode(FrameFormat::YUYV, 4, 1, &[81, 90, 145, 240, 100, 54, 100, 34]).unwrap(),
        vec![255, 0, 0, 255, 74, 74, 0, 203, 0, 0, 203, 0]
    );
    let nv12 = [50, 60, 70, 80, 90, 100, 110, 120, 100, 150, 200, 120];
    assert_eq!(
        decode(FrameFormat::NV12, 4, 2, &nv12).unwrap(),
        vec![
            75, 33, 0, 86, 44, 0, 50, 41, 208, 62, 53, 220, 121, 79, 30, 133, 91, 41, 97, 88, 255,
            108, 99, 255
        ]
    );
}

#[test]
fn frames_that_can_be_decoded() {
    assert!(can_decode(FrameFormat::YUYV, 1920, 1080, 1920 * 1080 * 2));
    assert!(!can_decode(FrameFormat::MJPEG, 1, 1, 10));
    assert!(can_decode(FrameFormat::NV12, 2, 2, 6));
    assert!(!can_decode(FrameFormat::NV12, 0, 2, 0));
    assert!(!can_decode(FrameFormat::NV12, 65536, 65536, 6));
    assert!(!can_decode(FrameFormat::NV12, 0x8000_0000, 0, 0));
    assert!(!can_decode(FrameFormat::GRAY, 1, 1, usize::MAX));
}

#[test]
fn refuses_frames_that_are_too_short() {
    assert!(decode(FrameFormat::RAWRGB, 2, 1, &[1, 2, 3]).is_err());
    assert!(decode(FrameFormat::RAWBGR, 2, 1, &[1, 2, 3]).is_err());
    assert!(decode(FrameFormat::GRAY, 2, 1, &[1]).is_err());
    assert!(decode(FrameFormat::YUYV, 2, 1, &[1, 2, 3]).is_err());
    assert!(decode(FrameFormat::YUYV, 4, 1, &[1, 2, 3, 4]).is_err());
    assert!(decode(FrameFormat::NV12, 2, 2, &[1, 2, 3, 4, 5]).is_err());
    assert!(decode(FrameFormat::NV12, 3, 2, &[0; 9]).is_err());
    let e = decode(FrameFormat::RAWRGB, 2, 1, &[]).unwrap_err();
    assert!(!e.reason.is_empty());
}

#[test]
fn frames_are_published_with_growing_numbers() {
    let mut slot = SharedFrame::new();
    let mut session = CaptureSession::new();
    assert!(slot.get().is_none());
    for expected in 1..4u64 {
        let step = session
            .raw_frame(FrameFormat::RAWRGB, 1, 1, &[9, 8, 7], &mut slot, 0, 0)
            .unwrap();
        match step {
            CaptureStep::Published { notify, report } => {
                assert_eq!(notify, UiEvent::FrameReady);
                assert_eq!(report, None);
            }
            CaptureStep::Skipped { .. } => panic!("the frame is good"),
        }
        let frame = slot.get().unwrap();
        assert_eq!(frame.seq, expected);
        assert_eq!(*frame.rgb, vec![9, 8, 7]);
        assert!(slot.get_newer(expected - 1).is_some());
        assert!(slot.get_newer(expected).is_none());
    }
    assert_eq!(session.seq(), 3);
    assert_eq!(session.frames_since_log(), 3);
    match session.raw_frame(FrameFormat::GRAY, 1, 1, &[5], &mut slot, 0, 5000).unwrap() {
        CaptureStep::Published { report, .. } => assert_eq!(report, Some(4)),
        CaptureStep::Skipped { .. } => panic!("the frame is good"),
    }
    assert_eq!(session.frames_since_log(), 0);
    assert_eq!(*slot.get().unwrap().rgb, vec![5, 5, 5]);
}

#[test]
fn only_published_frames_are_numbered() {
    let mut slot = SharedFrame::new();
    let mut session = CaptureSession::new();
    let mut published = 0;
    let frames: [&[u8]; 5] = [&[1, 2, 3], &[1, 2], &[4, 5, 6], &[7, 8, 9], &[]];
    for data in frames {
        let step = session.raw_frame(FrameFormat::RAWRGB, 1, 1, data, &mut slot, 0, 0).unwrap();
        if let CaptureStep::Published { .. } = step {
            published += 1;
            assert_eq!(*slot.get().unwrap().rgb, data);
        }
        assert_eq!(slot.get().unwrap().seq, published);
    }
    assert_eq!(published, 3);
    assert!(session.raw_frame(FrameFormat::RAWRGB, 1, 1, &[1, 2, 3, 4], &mut slot, 0, 0).is_err());
    assert_eq!(slot.get().unwrap().seq, 3);
}

#[test]
fn readers_see_the_newest_frame() {
    let mut slot = SharedFrame::new();
    assert!(slot.get().is_none());
    for seq in [4, 9, 2] {
        slot.publish(Frame { width: 1, height: 1, rgb: Arc::new(vec![0, 0, 0]), seq });
        assert_eq!(slot.get().unwrap().seq, seq);
        assert_eq!(slot.get().unwrap().seq, seq);
    }
}

#[test]
fn decode_failures_are_counted_and_reported() {
    let mut slot = SharedFrame::new();
    let mut session = CaptureSession::new();
    for _ in 0..2 {
        match session.raw_frame(FrameFormat::RAWRGB, 2, 2, &[1], &mut slot, 4999, 9000).unwrap() {
            CaptureStep::Skipped { report } => assert_eq!(report, None),
            CaptureStep::Published { .. } => panic!("the frame is too short"),
        }
    }
    assert_eq!(session.decode_fails(), 2);
    match session.raw_frame(FrameFormat::RAWRGB, 2, 2, &[1], &mut slot, 5000, 0).unwrap() {
        CaptureStep::Skipped { report } => assert_eq!(report, Some(3)),
        CaptureStep::Published { .. } => panic!("the frame is too short"),
    }
    assert_eq!(session.decode_fails(), 0);
    assert!(slot.get().is_none());
}

#[test]
fn frames_of_the_wrong_size_end_the_capture() {
    let mut slot = SharedFrame::new();
    let mut session = CaptureSession::new();
    let r = session.raw_frame(FrameFormat::RAWRGB, 1, 1, &[1, 2, 3, 4], &mut slot, 0, 0);
    match r {
        Err(e) => {
            assert_eq!(e, UnexpectedFrameSize { len: 4, width: 1, height: 1 });
            assert_eq!(e.message(), "unexpected frame size: 4 bytes for 1x1");
        }
        Ok(_) => panic!("there is a byte too many"),
    }
    assert!(slot.get().is_none());
    let r = session.handle(Ok(vec![0; 2]), 1, 1, &mut slot, 0, 0);
    assert!(r.is_err());
}

#[test]
fn tightly_packed_frames() {
    assert!(fits(6, 2, 1));
    assert!(!fits(7, 2, 1));
    assert!(fits(0, 0, 9));
    assert!(!fits(0, u32::MAX, u32::MAX));
    let f = Frame { width: 1, height: 1, rgb: Arc::new(vec![1, 2, 3]), seq: 1 };
    assert!(f.is_tightly_packed());
    assert!(!Frame { width: 2, ..f.clone() }.is_tightly_packed());
}

fn offered() -> Vec<CameraFormat> {
    vec![
        mode(1280, 720, 60, FrameFormat::YUYV),
        mode(1920, 1080, 30, FrameFormat::YUYV),
        mode(1920, 1080, 60, FrameFormat::MJPEG),
        mode(1280, 800, 10, FrameFormat::YUYV),
        mode(1920, 1080, 30, FrameFormat::MJPEG),
        mode(1280, 720, 120, FrameFormat::MJPEG),
    ]
}

#[test]
fn offered_modes_largest_first() {
    assert_eq!(resolution_options(&offered()), vec![(1920, 1080), (1280, 800), (1280, 720)]);
    assert_eq!(fps_options(&offered(), 1920, 1080), vec![60, 30]);
    assert_eq!(fps_options(&offered(), 1, 1), Vec::<u32>::new());
    assert_eq!(resolution_options(&[]), vec![]);
}

#[test]
fn staging_a_mode() {
    let current = Some(mode(1920, 1080, 30, FrameFormat::YUYV));
    let p = stage(None, &current);
    assert_eq!(p, PendingCapture { width: 1920, height: 1080, fps: 30 });
    assert!(!is_dirty(&p, &current));
    let p = choose_resolution(p, (1280, 720), &offered());
    assert_eq!(p, PendingCapture { width: 1280, height: 720, fps: 120 });
    assert!(is_dirty(&p, &current));
    assert_eq!(stage(Some(p), &current), p);
    let kept = choose_resolution(PendingCapture { fps: 60, ..p }, (1920, 1080), &offered());
    assert_eq!(kept, PendingCapture { width: 1920, height: 1080, fps: 60 });
    let unknown = choose_resolution(kept, (7, 7), &offered());
    assert_eq!(unknown, PendingCapture { width: 7, height: 7, fps: 60 });
    assert_eq!(stage(None, &None), PendingCapture { width: 0, height: 0, fps: 0 });
    assert_eq!(stage_offered(Some(p), &current, &[]), None);
    assert_eq!(stage_offered(Some(p), &None, &[current.unwrap()]), Some(p));
    assert_eq!(stage_offered(None, &current, &[current.unwrap()]), Some(stage(None, &current)));
}

#[test]
fn applying_a_staged_mode_picks_it() {
    let p = PendingCapture { width: 1280, height: 720, fps: 120 };
    let req = capture_request(&p, 3);
    assert_eq!(req.device_index, 3);
    assert!(!req.force_mjpeg);
    let picked = pick_best_format_from(&offered(), &req).unwrap();
    assert_eq!(stage(None, &Some(picked)), p);
}
