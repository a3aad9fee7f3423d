//! The HTTP relay: what is answered to which request, and how frames are put on
//! the MJPEG stream.
use crate::bytes::append_bytes;
use crate::frame::{Frame, SharedFrame};
use crate::text::{decimal, line, push_decimal};
use vstd::prelude::*;
use vstd::string::*;
use vstd::utf8::encode_utf8;

verus! {

/// The page that shows the stream.
pub const INDEX_HTML: &'static str =
    "<!doctype html>\n<html><head><meta charset=\"utf-8\"><title>video capture share</title>\n<style>\n  html,body{margin:0;background:#000;height:100%}\n  img{display:block;width:100%;height:100%;object-fit:contain}\n</style></head>\n<body><img src=\"/stream\" alt=\"capture\"></body></html>";

/// The head of the MJPEG stream.
pub const STREAM_HEAD: &'static str =
    "HTTP/1.1 200 OK\r\nContent-Type: multipart/x-mixed-replace; boundary=vcshareframe\r\nCache-Control: no-store, no-cache, must-revalidate, max-age=0\r\nPragma: no-cache\r\nConnection: close\r\n\r\n";

/// How long to wait before looking for a new frame again.
pub const POLL_MS: u64 = 5;

/// What a request asks for.
#[derive(Debug, Clone, Copy, PartialEq, Eq, Structural)]
pub enum Route {
    MethodNotAllowed,
    Index,
    Stream,
    Snapshot,
    NotFound,
}

/// What a request for `url` asks for.
pub open spec fn route_of(is_get: bool, url: Seq<char>) -> Route {
    if !is_get {
        Route::MethodNotAllowed
    } else if url == "/"@ || url == "/index.html"@ {
        Route::Index
    } else if url == "/stream"@ || url == "/stream.mjpg"@ {
        Route::Stream
    } else if url == "/snapshot.jpg"@ {
        Route::Snapshot
    } else {
        Route::NotFound
    }
}

pub fn route(is_get: bool, url: &str) -> (r: Route)
    ensures
        r == route_of(is_get, url@),
        r is MethodNotAllowed <==> !is_get,
{
    let url: String = line(url);
    if !is_get {
        Route::MethodNotAllowed
    } else if url == line("/") || url == line("/index.html") {
        Route::Index
    } else if url == line("/stream") || url == line("/stream.mjpg") {
        Route::Stream
    } else if url == line("/snapshot.jpg") {
        Route::Snapshot
    } else {
        Route::NotFound
    }
}

/// A whole answer.
pub struct Reply {
    pub status: u16,
    /// The content type, where one is set.
    pub content_type: Option<&'static str>,
    pub body: Vec<u8>,
}

impl Reply {
    /// The answer is this text, with no content type set.
    pub open spec fn says(self, status: u16, text: Seq<char>) -> bool {
        &&& self.status == status
        &&& self.content_type is None
        &&& self.body@ == encode_utf8(text)
    }

    /// The answer has this content.
    pub open spec fn shows(self, content_type: Seq<char>, body: Seq<u8>) -> bool {
        &&& self.status == 200
        &&& self.content_type matches Some(t)
        &&& t@ == content_type
        &&& self.body@ == body
    }
}

/// The bytes of a text.
fn text_bytes(s: &str) -> (b: Vec<u8>)
    ensures
        b@ == encode_utf8(s@),
{
    let mut out: Vec<u8> = Vec::new();
    append_bytes(&mut out, s.as_bytes());
    assert(out@ =~= encode_utf8(s@));
    out
}

fn plain(status: u16, text: &str) -> (r: Reply)
    ensures
        r.says(status, text@),
{
    Reply { status, content_type: None, body: text_bytes(text) }
}

/// The answer to a request that neither wants the stream nor a snapshot.
pub fn static_reply(route: Route) -> (r: Option<Reply>)
    ensures
        match route {
            Route::MethodNotAllowed => r matches Some(x) && x.says(405, "method not allowed"@),
            Route::NotFound => r matches Some(x) && x.says(404, "not found"@),
            Route::Index => r matches Some(x) && x.shows(
                "text/html; charset=utf-8"@,
                encode_utf8(INDEX_HTML@),
            ),
            Route::Stream => r is None,
            Route::Snapshot => r is None,
        },
{
    match route {
        Route::MethodNotAllowed => Some(plain(405, "method not allowed")),
        Route::NotFound => Some(plain(404, "not found")),
        Route::Index => Some(
            Reply {
                status: 200,
                content_type: Some("text/html; charset=utf-8"),
                body: text_bytes(INDEX_HTML),
            },
        ),
        Route::Stream => None,
        Route::Snapshot => None,
    }
}

/// Declares `image::ImageError`.
#[verifier::external_type_specification]
#[verifier::external_body]
pub struct ExImageError(image::ImageError);

/// The JPEG file that `image` encodes an RGB image to.
pub uninterp spec fn jpeg_of(rgb: Seq<u8>, width: u32, height: u32, quality: u8) -> Seq<u8>;

/// JPEG files have between one and 65535 pixels each way.
pub open spec fn jpeg_size(width: u32, height: u32) -> bool {
    1 <= width <= 0xffff && 1 <= height <= 0xffff
}

/// Calls `image::codecs::jpeg::JpegEncoder::write_image` on an encoder made by
/// `new_with_quality`, which writes to a vector. It panics unless there are
/// three bytes for each pixel, and fails on sizes that a JPEG file cannot
/// have. The bytes that it writes are only named.
#[verifier::external_body]
fn write_jpeg(rgb: &[u8], width: u32, height: u32, quality: u8) -> (r: Result<
    Vec<u8>,
    image::ImageError,
>)
    requires
        rgb@.len() == width * height * 3,
    ensures
        r is Ok <==> jpeg_size(width, height),
        r matches Ok(v) ==> v@ == jpeg_of(rgb@, width, height, quality),
{
    let mut out = Vec::new();
    let encoder = image::codecs::jpeg::JpegEncoder::new_with_quality(&mut out, quality);
    image::ImageEncoder::write_image(
        encoder,
        rgb,
        width,
        height,
        image::ExtendedColorType::Rgb8,
    )?;
    Ok(out)
}

/// A frame that cannot be a JPEG file.
#[derive(Debug, Clone, Copy, PartialEq, Eq, Structural)]
pub struct JpegError {
    pub width: u32,
    pub height: u32,
}

/// A frame as a JPEG file.
pub fn encode_jpeg(rgb: &[u8], width: u32, height: u32, quality: u8) -> (r: Result<
    Vec<u8>,
    JpegError,
>)
    requires
        rgb@.len() == width * height * 3,
    ensures
        match r {
            Ok(v) => jpeg_size(width, height) && v@ == jpeg_of(rgb@, width, height, quality),
            Err(e) => !jpeg_size(width, height) && e == (JpegError { width, height }),
        },
{
    match write_jpeg(rgb, width, height, quality) {
        Ok(v) => Ok(v),
        Err(_) => Err(JpegError { width, height }),
    }
}

/// The quality that is used where `q` is set.
pub open spec fn quality_of(q: u8) -> u8 {
    if q < 1 {
        1
    } else if q > 100 {
        100
    } else {
        q
    }
}

pub fn jpeg_quality(q: u8) -> (r: u8)
    ensures
        r == quality_of(q),
        1 <= r <= 100,
        1 <= q <= 100 ==> r == q,
{
    if q < 1 {
        1
    } else if q > 100 {
        100
    } else {
        q
    }
}

/// The JPEG file of a frame at the quality that is set.
pub open spec fn jpeg_of_frame(f: Frame, q: u8) -> Seq<u8> {
    jpeg_of(f.rgb@, f.width, f.height, quality_of(q))
}

/// The answer to a snapshot request once the frame is encoded: the image, or
/// that there is none.
pub fn snapshot_reply(jpeg: Option<Vec<u8>>) -> (r: Reply)
    ensures
        match jpeg {
            Some(bytes) => r.shows("image/jpeg"@, bytes@),
            None => r.says(503, "no frame yet"@),
        },
{
    match jpeg {
        Some(bytes) => Reply { status: 200, content_type: Some("image/jpeg"), body: bytes },
        None => plain(503, "no frame yet"),
    }
}

/// The answer to a snapshot request. A frame that cannot be a JPEG file is not
/// answered at all.
pub fn serve_snapshot(shared: &SharedFrame, quality: u8) -> (r: Result<Reply, JpegError>)
    requires
        shared.newest() matches Some(f) ==> f.tightly_packed(),
    ensures
        match shared.newest() {
            None => r matches Ok(x) && x.says(503, "no frame yet"@),
            Some(f) => if jpeg_size(f.width, f.height) {
                r matches Ok(x) && x.shows("image/jpeg"@, jpeg_of_frame(f, quality))
            } else {
                r == Err::<Reply, JpegError>(JpegError { width: f.width, height: f.height })
            },
        },
{
    let frame = match shared.get() {
        Some(f) => f,
        None => return Ok(snapshot_reply(None)),
    };
    match encode_jpeg(frame.rgb.as_slice(), frame.width, frame.height, jpeg_quality(quality)) {
        Ok(jpeg) => Ok(snapshot_reply(Some(jpeg))),
        Err(e) => Err(e),
    }
}

/// The answer to a request.
pub enum Answer {
    /// All of it.
    Whole(Reply),
    /// The stream: its head, and then image after image.
    Stream,
}

/// What is answered to a request. Only what is asked for decides, and for a
/// snapshot the newest frame and the quality that is set.
pub fn handle(is_get: bool, url: &str, shared: &SharedFrame, quality: u8) -> (r: Result<
    Answer,
    JpegError,
>)
    requires
        shared.newest() matches Some(f) ==> f.tightly_packed(),
    ensures
        match route_of(is_get, url@) {
            Route::MethodNotAllowed => r matches Ok(Answer::Whole(x)) && x.says(
                405,
                "method not allowed"@,
            ),
            Route::NotFound => r matches Ok(Answer::Whole(x)) && x.says(404, "not found"@),
            Route::Index => r matches Ok(Answer::Whole(x)) && x.shows(
                "text/html; charset=utf-8"@,
                encode_utf8(INDEX_HTML@),
            ),
            Route::Stream => r == Ok::<Answer, JpegError>(Answer::Stream),
            Route::Snapshot => match shared.newest() {
                None => r matches Ok(Answer::Whole(x)) && x.says(503, "no frame yet"@),
                Some(f) => if jpeg_size(f.width, f.height) {
                    r matches Ok(Answer::Whole(x)) && x.shows(
                        "image/jpeg"@,
                        jpeg_of_frame(f, quality),
                    )
                } else {
                    r == Err::<Answer, JpegError>(JpegError { width: f.width, height: f.height })
                },
            },
        },
{
    let route: Route = route(is_get, url);
    match static_reply(route) {
        Some(reply) => Ok(Answer::Whole(reply)),
        None => match route {
            Route::Snapshot => match serve_snapshot(shared, quality) {
                Ok(reply) => Ok(Answer::Whole(reply)),
                Err(e) => Err(e),
            },
            _ => Ok(Answer::Stream),
        },
    }
}

/// The head of one image on the stream.
pub open spec fn part_head(len: nat) -> Seq<char> {
    "--vcshareframe\r\nContent-Type: image/jpeg\r\nContent-Length: "@ + decimal(len)
        + "\r\n\r\n"@
}

/// One image on the stream.
pub open spec fn part_bytes(jpeg: Seq<u8>) -> Seq<u8> {
    encode_utf8(part_head(jpeg.len())) + jpeg + seq![13u8, 10u8]
}

/// One image on the stream.
pub fn stream_part(jpeg: &[u8]) -> (out: Vec<u8>)
    ensures
        out@ == part_bytes(jpeg@),
{
    let mut head: String = line(
        "--vcshareframe\r\nContent-Type: image/jpeg\r\nContent-Length: ",
    );
    push_decimal(&mut head, jpeg.len() as u64);
    head.append("\r\n\r\n");
    let mut out: Vec<u8> = text_bytes(head.as_str());
    append_bytes(&mut out, jpeg);
    out.push(13);
    out.push(10);
    assert(out@ =~= part_bytes(jpeg@));
    out
}

/// What to do next for a client of the stream.
pub enum StreamStep {
    /// There is nothing new: wait so many milliseconds and look again.
    Wait(u64),
    /// Send these bytes.
    Send(Vec<u8>),
}

/// A client of the stream.
pub struct StreamClient {
    last_seq: u64,
}

impl StreamClient {
    /// Sequence number of the frame that the client got last.
    pub closed spec fn seen(self) -> u64 {
        self.last_seq
    }

    pub fn new() -> (c: Self)
        ensures
            c.seen() == 0,
    {
        StreamClient { last_seq: 0 }
    }

    /// The next bytes for the client, if there is a frame that it has not got
    /// yet. It gets each frame once, and only the newest. A frame that cannot
    /// be a JPEG file ends the stream.
    pub fn next(&mut self, shared: &SharedFrame, quality: u8) -> (r: Result<StreamStep, JpegError>)
        requires
            shared.newest() matches Some(f) ==> f.tightly_packed(),
        ensures
            match shared.unseen(old(self).seen()) {
                None => {
                    &&& r == Ok::<StreamStep, JpegError>(StreamStep::Wait(POLL_MS))
                    &&& final(self).seen() == old(self).seen()
                },
                Some(f) => {
                    &&& final(self).seen() == f.seq
                    &&& jpeg_size(f.width, f.height) ==> (r matches Ok(StreamStep::Send(bytes))
                        && bytes@ == part_bytes(jpeg_of_frame(f, quality)))
                    &&& !jpeg_size(f.width, f.height) ==> r == Err::<StreamStep, JpegError>(
                        (JpegError { width: f.width, height: f.height }),
                    )
                },
            },
            shared.newest() is None ==> r == Ok::<StreamStep, JpegError>(StreamStep::Wait(5)),
            shared.newest() matches Some(f) ==> {
                &&& final(self).seen() == f.seq
                &&& f.seq == old(self).seen() ==> r == Ok::<StreamStep, JpegError>(
                    StreamStep::Wait(5),
                )
                &&& f.seq != old(self).seen() ==> !(r matches Ok(StreamStep::Wait(_)))
                &&& f.seq != old(self).seen() && jpeg_size(f.width, f.height) ==> r is Ok
            },
    {
        let frame = match shared.get_newer(self.last_seq) {
            Some(f) => f,
            None => return Ok(StreamStep::Wait(POLL_MS)),
        };
        self.last_seq = frame.seq;
        match encode_jpeg(frame.rgb.as_slice(), frame.width, frame.height, jpeg_quality(quality)) {
            Ok(jpeg) => Ok(StreamStep::Send(stream_part(jpeg.as_slice()))),
            Err(e) => Err(e),
        }
    }
}

/// Having got the newest frame, a client gets nothing more until there is
/// another one.
pub proof fn law_no_frame_is_sent_twice(shared: SharedFrame, frame: Frame, seen: u64)
    requires
        shared.unseen(seen) == Some(frame),
    ensures
        shared.unseen(frame.seq) is None,
{
}

/// Nothing but GET is served, whatever is asked for.
pub proof fn law_only_get_is_served(url: Seq<char>)
    ensures
        route_of(false, url) is MethodNotAllowed,
        !(route_of(true, url) is MethodNotAllowed),
{
}

/// Every page has its two paths, a snapshot its one, and any other path leads
/// nowhere.
pub proof fn law_paths_of_the_pages(url: Seq<char>)
    ensures
        route_of(true, url) is Index <==> url == "/"@ || url == "/index.html"@,
        route_of(true, url) is Stream <==> url == "/stream"@ || url == "/stream.mjpg"@,
        route_of(true, url) is Snapshot <==> url == "/snapshot.jpg"@,
        route_of(true, url) is NotFound <==> !(url == "/"@ || url == "/index.html"@ || url
            == "/stream"@ || url == "/stream.mjpg"@ || url == "/snapshot.jpg"@),
{
    reveal_strlit("/");
    reveal_strlit("/index.html");
    reveal_strlit("/stream");
    reveal_strlit("/stream.mjpg");
    reveal_strlit("/snapshot.jpg");
    assert("/"@.len() == 1 && "/index.html"@.len() == 11 && "/stream"@.len() == 7);
    assert("/stream.mjpg"@.len() == 12 && "/snapshot.jpg"@.len() == 13);
}

/// A quality between 1 and 100 is used as it is set, and any other as the
/// nearest of them.
pub proof fn law_set_quality_is_used(q: u8, f: Frame)
    ensures
        1 <= q <= 100 ==> quality_of(q) == q,
        q == 0 ==> quality_of(q) == 1,
        q > 100 ==> quality_of(q) == 100,
        1 <= q <= 100 ==> jpeg_of_frame(f, q) == jpeg_of(f.rgb@, f.width, f.height, q),
        q > 100 ==> jpeg_of_frame(f, q) == jpeg_of(f.rgb@, f.width, f.height, 100),
        q == 0 ==> jpeg_of_frame(f, q) == jpeg_of(f.rgb@, f.width, f.height, 1),
{
}

/// A frame can be a JPEG file just where neither of its sides is empty or longer
/// than 65535 pixels.
pub proof fn law_sides_of_a_jpeg(width: u32, height: u32)
    ensures
        width == 0 || height == 0 ==> !jpeg_size(width, height),
        width >= 0x1_0000 || height >= 0x1_0000 ==> !jpeg_size(width, height),
        0 < width < 0x1_0000 && 0 < height < 0x1_0000 ==> jpeg_size(width, height),
{
}

/// A text goes out under its status without a content type, and an image or a
/// page under 200 with one.
pub proof fn law_content_of_a_reply(r: Reply, status: u16, text: Seq<char>, body: Seq<u8>)
    ensures
        r.says(status, text) <==> (r.status == status && r.content_type is None && r.body@
            == encode_utf8(text)),
        r.shows(text, body) ==> r.status == 200 && r.content_type is Some && r.content_type->0@
            == text && r.body@ == body,
{
}

/// On the stream an image stands whole in front of a line break, behind a head
/// that depends on its length alone.
pub proof fn law_image_stands_whole_on_the_stream(jpeg: Seq<u8>, other: Seq<u8>)
    ensures
        ({
            let part = part_bytes(jpeg);
            let head = part.len() - jpeg.len() - 2;
            &&& head >= 0
            &&& part.skip(head) == jpeg + seq![13u8, 10u8]
            &&& other.len() == jpeg.len() ==> part_bytes(other).take(head) == part.take(head)
        }),
{
    let part = part_bytes(jpeg);
    let head = part.len() - jpeg.len() - 2;
    assert(part.skip(head) =~= jpeg + seq![13u8, 10u8]);
    if other.len() == jpeg.len() {
        assert(part_bytes(other).take(head) =~= part.take(head));
    }
}

} // verus!
