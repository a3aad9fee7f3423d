use std::sync::Arc;
use video_capture_share::frame::{Frame, SharedFrame};
use video_capture_share::icon::load_icon;
use video_capture_share::relay::{
    encode_jpeg, handle, jpeg_quality, route, serve_snapshot, snapshot_reply, static_reply, stream_part,
    Answer, JpegError, Route, StreamClient, StreamStep, INDEX_HTML, STREAM_HEAD,
};

fn frame(width: u32, height: u32, seq: u64) -> Frame {
    let len = (width * height * 3) as usize;
    let rgb: Vec<u8> = (0..len).map(|i| (i * 5 % 256) as u8).collect();
    Frame { width, height, rgb: Arc::new(rgb), seq }
}

#[test]
fn routes() {
    assert_eq!(route(true, "/"), Route::Index);
    assert_eq!(route(true, "/index.html"), Route::Index);
    assert_eq!(route(true, "/stream"), Route::Stream);
    assert_eq!(route(true, "/stream.mjpg"), Route::Stream);
    assert_eq!(route(true, "/snapshot.jpg"), Route::Snapshot);
    assert_eq!(route(true, "/Stream"), Route::NotFound);
    assert_eq!(route(true, ""), Route::NotFound);
    assert_eq!(route(false, "/"), Route::MethodNotAllowed);
}

#[test]
fn fixed_answers() {
    let r = static_reply(Route::MethodNotAllowed).unwrap();
    assert_eq!((r.status, r.content_type), (405, None));
    assert_eq!(r.body, b"method not allowed".to_vec());
    let r = static_reply(Route::NotFound).unwrap();
    assert_eq!((r.status, r.body), (404, b"not found".to_vec()));
    let r = static_reply(Route::Index).unwrap();
    assert_eq!((r.status, r.content_type), (200, Some("text/html; charset=utf-8")));
    assert_eq!(r.body, INDEX_HTML.as_bytes().to_vec());
    assert!(INDEX_HTML.starts_with("<!doctype html>\n<html><head>"));
    assert!(INDEX_HTML.ends_with("<body><img src=\"/stream\" alt=\"capture\"></body></html>"));
    assert!(static_reply(Route::Stream).is_none());
    assert!(static_reply(Route::Snapshot).is_none());
}

#[test]
fn head_of_the_stream() {
    let lines: Vec<&str> = STREAM_HEAD.split("\r\n").collect();
    assert_eq!(
        lines,
        vec![
            "HTTP/1.1 200 OK",
            "Content-Type: multipart/x-mixed-replace; boundary=vcshareframe",
            "Cache-Control: no-store, no-cache, must-revalidate, max-age=0",
            "Pragma: no-cache",
            "Connection: close",
            "",
            "",
        ]
    );
}

#[test]
fn quality_is_kept_in_range() {
    assert_eq!(jpeg_quality(0), 1);
    assert_eq!(jpeg_quality(1), 1);
    assert_eq!(jpeg_quality(75), 75);
    assert_eq!(jpeg_quality(100), 100);
    assert_eq!(jpeg_quality(255), 100);
}

#[test]
fn jpeg_files() {
    let f = frame(16, 8, 1);
    let jpeg = encode_jpeg(&f.rgb, 16, 8, 75).unwrap();
    assert_eq!(&jpeg[..2], &[0xff, 0xd8]);
    assert_eq!(&jpeg[jpeg.len() - 2..], &[0xff, 0xd9]);
    assert_ne!(jpeg, *f.rgb);
    assert_eq!(encode_jpeg(&f.rgb, 16, 8, 75).unwrap(), jpeg);
    assert_ne!(encode_jpeg(&f.rgb, 16, 8, 10).unwrap(), jpeg);
    let back = image::load_from_memory(&jpeg).unwrap();
    assert_eq!((back.width(), back.height()), (16, 8));
    assert_eq!(encode_jpeg(&[], 0, 5, 75), Err(JpegError { width: 0, height: 5 }));
    assert_eq!(
        encode_jpeg(&vec![0; 65536 * 3], 65536, 1, 75),
        Err(JpegError { width: 65536, height: 1 })
    );
}

#[test]
fn snapshots() {
    let mut slot = SharedFrame::new();
    let r = serve_snapshot(&slot, 75).ok().unwrap();
    assert_eq!((r.status, r.body), (503, b"no frame yet".to_vec()));
    slot.publish(frame(8, 8, 1));
    let r = serve_snapshot(&slot, 200).ok().unwrap();
    assert_eq!((r.status, r.content_type), (200, Some("image/jpeg")));
    assert_eq!(r.body, encode_jpeg(&frame(8, 8, 1).rgb, 8, 8, 100).unwrap());
    slot.publish(frame(0, 0, 2));
    assert_eq!(serve_snapshot(&slot, 75).err(), Some(JpegError { width: 0, height: 0 }));
    assert_eq!(snapshot_reply(Some(vec![1, 2])).body, vec![1, 2]);
}

#[test]
fn answers() {
    let mut slot = SharedFrame::new();
    let status = |is_get, url, slot: &SharedFrame| match handle(is_get, url, slot, 75) {
        Ok(Answer::Whole(reply)) => Some(reply.status),
        Ok(Answer::Stream) => None,
        Err(e) => panic!("{e:?}"),
    };
    assert_eq!(status(false, "/", &slot), Some(405));
    assert_eq!(status(true, "/", &slot), Some(200));
    assert_eq!(status(true, "/nothing", &slot), Some(404));
    assert_eq!(status(true, "/stream", &slot), None);
    assert_eq!(status(true, "/snapshot.jpg", &slot), Some(503));
    slot.publish(frame(8, 8, 1));
    assert_eq!(status(true, "/snapshot.jpg", &slot), Some(200));
    slot.publish(frame(0, 8, 2));
    assert_eq!(
        handle(true, "/snapshot.jpg", &slot, 75).err(),
        Some(JpegError { width: 0, height: 8 })
    );
}

#[test]
fn parts_of_the_stream() {
    let jpeg: Vec<u8> = (0..12).collect();
    let part = stream_part(&jpeg);
    let mut expected =
        b"--vcshareframe\r\nContent-Type: image/jpeg\r\nContent-Length: 12\r\n\r\n".to_vec();
    let head = expected.len();
    expected.extend_from_slice(&jpeg);
    expected.extend_from_slice(b"\r\n");
    assert_eq!(part, expected);
    assert_eq!(&part[head..head + 12], &jpeg[..]);
    assert!(stream_part(&[]).ends_with(b"Content-Length: 0\r\n\r\n\r\n"));
}

#[test]
fn a_reader_gets_every_image_back() {
    let images = [vec![1u8; 3], vec![], (0..200).collect::<Vec<u8>>()];
    let mut stream = Vec::new();
    for image in &images {
        stream.extend_from_slice(&stream_part(image));
    }
    let lead = b"--vcshareframe\r\nContent-Type: image/jpeg\r\nContent-Length: ";
    let mut rest = &stream[..];
    for image in &images {
        assert!(rest.starts_with(lead));
        rest = &rest[lead.len()..];
        let digits = rest.iter().take_while(|b| b.is_ascii_digit()).count();
        let len: usize = std::str::from_utf8(&rest[..digits]).unwrap().parse().unwrap();
        assert_eq!(len, image.len());
        rest = &rest[digits..];
        assert!(rest.starts_with(b"\r\n\r\n"));
        assert_eq!(&rest[4..4 + len], &image[..]);
        assert!(rest[4 + len..].starts_with(b"\r\n"));
        rest = &rest[4 + len + 2..];
    }
    assert!(rest.is_empty());
}

#[test]
fn clients_get_each_frame_once() {
    let mut slot = SharedFrame::new();
    let mut client = StreamClient::new();
    assert!(matches!(client.next(&slot, 75), Ok(StreamStep::Wait(5))));
    slot.publish(frame(8, 8, 1));
    slot.publish(frame(8, 8, 2));
    match client.next(&slot, 75) {
        Ok(StreamStep::Send(bytes)) => {
            let jpeg = encode_jpeg(&frame(8, 8, 2).rgb, 8, 8, 75).unwrap();
            assert_eq!(bytes, stream_part(&jpeg));
        }
        _ => panic!("there is a new frame"),
    }
    assert!(matches!(client.next(&slot, 75), Ok(StreamStep::Wait(5))));
    slot.publish(frame(0, 1, 3));
    assert_eq!(client.next(&slot, 75).err(), Some(JpegError { width: 0, height: 1 }));
}

#[test]
fn icons() {
    let mut png = std::io::Cursor::new(Vec::new());
    let pixels = vec![1u8, 2, 3, 4, 5, 6, 7, 8];
    let image = image::RgbaImage::from_raw(2, 1, pixels.clone()).unwrap();
    image.write_to(&mut png, image::ImageFormat::Png).unwrap();
    let icon = load_icon(png.get_ref()).unwrap();
    assert_eq!((icon.width, icon.height), (2, 1));
    assert_eq!(icon.rgba, pixels);
    assert!(load_icon(&[1, 2, 3]).is_none());
    assert!(load_icon(&[]).is_none());
}
