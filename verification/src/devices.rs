//! Capture devices: how they are listed and how one is picked.
use crate::camera_format::{CameraFormat, FrameFormat};
use crate::text::{decimal, line, push_decimal};
use vstd::prelude::*;
use vstd::string::*;

verus! {

/// How a device is addressed.
#[derive(Debug)]
pub enum CameraIndex {
    Index(u32),
    /// A name, such as the address of a network camera.
    Name(String),
}

/// What is known of a device.
#[derive(Debug)]
pub struct CameraInfo {
    pub human_name: String,
    pub description: String,
    pub index: CameraIndex,
}

impl CameraInfo {
    /// The number that the device is opened by: named devices have none and
    /// fall back to the first.
    pub open spec fn number(self) -> u32 {
        match self.index {
            CameraIndex::Index(i) => i,
            CameraIndex::Name(_) => 0,
        }
    }
}

impl CameraIndex {
    /// The index as it is shown.
    pub open spec fn shown(self) -> Seq<char> {
        match self {
            CameraIndex::Index(i) => decimal(i as nat),
            CameraIndex::Name(s) => s@,
        }
    }
}

/// The number that the device is opened by.
pub fn extract_index(info: &CameraInfo) -> (i: u32)
    ensures
        i == info.number(),
        info.index matches CameraIndex::Index(n) ==> i == n,
{
    match &info.index {
        CameraIndex::Index(i) => *i,
        CameraIndex::Name(_) => 0,
    }
}

/// `[index] name   description`.
pub open spec fn entry(index: Seq<char>, d: CameraInfo) -> Seq<char> {
    "["@ + index + "] "@ + d.human_name@ + "   "@ + d.description@
}

fn push_entry(out: &mut String, d: &CameraInfo)
    ensures
        final(out)@ == old(out)@ + ("] "@ + d.human_name@ + "   "@ + d.description@),
{
    let ghost before = out@;
    out.append("] ");
    out.append(d.human_name.as_str());
    out.append("   ");
    out.append(d.description.as_str());
    assert(out@ =~= before + ("] "@ + d.human_name@ + "   "@ + d.description@));
}

/// The lines of the device list.
pub open spec fn device_list(devices: Seq<CameraInfo>) -> Seq<Seq<char>> {
    if devices.len() == 0 {
        seq![
            "No capture devices found."@,
            ""@,
            "On Windows: check Device Manager for the capture card under Cameras or Imaging devices."@,
        ]
    } else {
        seq!["Capture devices:"@] + Seq::new(
            devices.len(),
            |i: int| "  "@ + entry(devices[i].index.shown(), devices[i]),
        )
    }
}

/// What each line says.
pub open spec fn texts(lines: Seq<String>) -> Seq<Seq<char>> {
    Seq::new(lines.len(), |i: int| lines[i]@)
}

/// The lines that list the devices, or say where to look for a missing one.
pub fn print_devices(devices: &[CameraInfo]) -> (lines: Vec<String>)
    ensures
        texts(lines@) == device_list(devices@),
{
    let mut lines: Vec<String> = Vec::new();
    if devices.is_empty() {
        lines.push(line("No capture devices found."));
        lines.push(line(""));
        lines.push(
            line(
                "On Windows: check Device Manager for the capture card under Cameras or Imaging devices.",
            ),
        );
        assert(texts(lines@) =~= device_list(devices@));
        return lines;
    }
    lines.push(line("Capture devices:"));
    let mut i: usize = 0;
    while i < devices.len()
        invariant
            i <= devices@.len(),
            lines@.len() == i + 1,
            lines@[0]@ == "Capture devices:"@,
            forall|j: int|
                0 <= j < i ==> (#[trigger] lines@[j + 1])@ == "  "@ + entry(
                    devices@[j].index.shown(),
                    devices@[j],
                ),
        decreases devices@.len() - i,
    {
        let d = &devices[i];
        let mut out = line("  ");
        out.append("[");
        match &d.index {
            CameraIndex::Index(n) => push_decimal(&mut out, *n as u64),
            CameraIndex::Name(s) => out.append(s.as_str()),
        }
        push_entry(&mut out, d);
        assert(out@ =~= "  "@ + entry(d.index.shown(), *d));
        lines.push(out);
        i = i + 1;
    }
    proof {
        let expected = device_list(devices@);
        assert forall|k: int| 0 <= k < expected.len() implies texts(lines@)[k] == expected[k] by {
            if k > 0 {
                assert(lines@[(k - 1) + 1] == lines@[k]);
            }
        }
        assert(texts(lines@) =~= expected);
    }
    lines
}

/// What to do about the devices that were found.
pub enum DeviceChoice {
    /// There is none: show these lines and give up.
    NoDevice { lines: Vec<String> },
    /// There is one: say so and open it.
    OnlyOne { index: u32, notice: String },
    /// There are several: let the user pick one of these labels.
    Ask { labels: Vec<String> },
}

/// What is said when there is only one device.
pub open spec fn only_device(d: CameraInfo) -> Seq<char> {
    "Only one capture device, opening: ["@ + decimal(d.number() as nat) + "] "@ + d.human_name@
}

/// The labels to pick from.
pub open spec fn pick_labels(devices: Seq<CameraInfo>) -> Seq<Seq<char>> {
    Seq::new(devices.len(), |i: int| entry(decimal(devices[i].number() as nat), devices[i]))
}

/// Decides whether a device has to be asked for.
pub fn pick_device(devices: &[CameraInfo]) -> (c: DeviceChoice)
    ensures
        match c {
            DeviceChoice::NoDevice { lines } => devices@.len() == 0 && texts(lines@) == device_list(
                devices@,
            ),
            DeviceChoice::OnlyOne { index, notice } => devices@.len() == 1 && index
                == devices@[0].number() && notice@ == only_device(devices@[0]) && notice@
                == "Only one capture device, opening: ["@ + decimal(index as nat) + "] "@
                + devices@[0].human_name@,
            DeviceChoice::Ask { labels } => devices@.len() > 1 && texts(labels@) == pick_labels(
                devices@,
            ),
        },
{
    if devices.is_empty() {
        return DeviceChoice::NoDevice { lines: print_devices(devices) };
    }
    if devices.len() == 1 {
        let only = &devices[0];
        let index: u32 = extract_index(only);
        let mut notice = line("Only one capture device, opening: [");
        push_decimal(&mut notice, index as u64);
        notice.append("] ");
        notice.append(only.human_name.as_str());
        return DeviceChoice::OnlyOne { index, notice };
    }
    let mut labels: Vec<String> = Vec::new();
    let mut i: usize = 0;
    while i < devices.len()
        invariant
            i <= devices@.len(),
            labels@.len() == i,
            forall|j: int|
                0 <= j < i ==> (#[trigger] labels@[j])@ == entry(
                    decimal(devices@[j].number() as nat),
                    devices@[j],
                ),
        decreases devices@.len() - i,
    {
        let d = &devices[i];
        let mut out = line("[");
        push_decimal(&mut out, extract_index(d) as u64);
        push_entry(&mut out, d);
        assert(out@ =~= entry(decimal(d.number() as nat), *d));
        labels.push(out);
        i = i + 1;
    }
    assert(texts(labels@) =~= pick_labels(devices@));
    DeviceChoice::Ask { labels }
}

/// The device that the user picked by its place in the list; `None` where
/// nothing was picked.
pub fn picked_device(devices: &[CameraInfo], selection: Option<usize>) -> (r: Option<u32>)
    requires
        selection matches Some(i) ==> i < devices@.len(),
    ensures
        r == match selection {
            Some(i) => Some(devices@[i as int].number()),
            None => None,
        },
{
    match selection {
        Some(i) => Some(extract_index(&devices[i])),
        None => None,
    }
}

/// The name of a pixel format.
pub open spec fn format_name(f: FrameFormat) -> Seq<char> {
    match f {
        FrameFormat::MJPEG => "MJPEG"@,
        FrameFormat::YUYV => "YUYV"@,
        FrameFormat::NV12 => "NV12"@,
        FrameFormat::GRAY => "GRAY"@,
        FrameFormat::RAWRGB => "RAWRGB"@,
        FrameFormat::RAWBGR => "RAWBGR"@,
    }
}

pub fn format_label(f: FrameFormat) -> (s: &'static str)
    ensures
        s@ == format_name(f),
        s@ == match f {
            FrameFormat::MJPEG => "MJPEG"@,
            FrameFormat::YUYV => "YUYV"@,
            FrameFormat::NV12 => "NV12"@,
            FrameFormat::GRAY => "GRAY"@,
            FrameFormat::RAWRGB => "RAWRGB"@,
            FrameFormat::RAWBGR => "RAWBGR"@,
        },
{
    match f {
        FrameFormat::MJPEG => "MJPEG",
        FrameFormat::YUYV => "YUYV",
        FrameFormat::NV12 => "NV12",
        FrameFormat::GRAY => "GRAY",
        FrameFormat::RAWRGB => "RAWRGB",
        FrameFormat::RAWBGR => "RAWBGR",
    }
}

/// `WxH @ N fps  FORMAT`.
pub open spec fn mode_text(f: CameraFormat) -> Seq<char> {
    decimal(f.width as nat) + "x"@ + decimal(f.height as nat) + " @ "@ + decimal(
        f.frame_rate as nat,
    ) + " fps  "@ + format_name(f.format)
}

/// A mode in words.
pub fn mode_label(f: &CameraFormat) -> (s: String)
    ensures
        s@ == mode_text(*f),
        s@ == decimal(f.width as nat) + "x"@ + decimal(f.height as nat) + " @ "@ + decimal(
            f.frame_rate as nat,
        ) + " fps  "@ + format_name(f.format),
{
    let mut out = line("");
    push_mode(&mut out, f);
    proof {
        reveal_strlit("");
    }
    assert(out@ =~= mode_text(*f));
    out
}

/// Appends a mode in words.
pub fn push_mode(out: &mut String, f: &CameraFormat)
    ensures
        final(out)@ == old(out)@ + mode_text(*f),
{
    let ghost before = out@;
    push_decimal(out, f.width as u64);
    out.append("x");
    push_decimal(out, f.height as u64);
    out.append(" @ ");
    push_decimal(out, f.frame_rate as u64);
    out.append(" fps  ");
    out.append(format_label(f.format));
    assert(out@ =~= before + mode_text(*f));
}

/// A device with a number is opened by that number, and shown with it; one with
/// a name is shown with its name and opened as the first.
pub proof fn law_number_of_a_device(d: CameraInfo)
    ensures
        d.index matches CameraIndex::Index(i) ==> d.number() == i && d.index.shown() == decimal(
            i as nat,
        ),
        d.index matches CameraIndex::Name(s) ==> d.number() == 0 && d.index.shown() == s@,
{
}

/// Every device has its line in the list and its label in the choice, in the
/// order in which the devices were found.
pub proof fn law_every_device_is_listed(devices: Seq<CameraInfo>, i: int)
    requires
        0 <= i < devices.len(),
    ensures
        device_list(devices).len() == devices.len() + 1,
        device_list(devices)[i + 1] == "  "@ + entry(devices[i].index.shown(), devices[i]),
        pick_labels(devices).len() == devices.len(),
        pick_labels(devices)[i] == entry(decimal(devices[i].number() as nat), devices[i]),
{
}

/// A label starts with the bracketed index and ends with the description; the
/// name stands in between.
pub proof fn law_entry_tells_everything(index: Seq<char>, d: CameraInfo)
    ensures
        entry(index, d) == "["@ + (index + ("] "@ + (d.human_name@ + ("   "@ + d.description@)))),
{
    assert(entry(index, d) =~= "["@ + (index + ("] "@ + (d.human_name@ + ("   "@
        + d.description@)))));
}

/// Pixel formats have different names.
pub proof fn law_format_names_differ(a: FrameFormat, b: FrameFormat)
    ensures
        format_name(a) == format_name(b) ==> a == b,
{
    reveal_strlit("MJPEG");
    reveal_strlit("YUYV");
    reveal_strlit("NV12");
    reveal_strlit("GRAY");
    reveal_strlit("RAWRGB");
    reveal_strlit("RAWBGR");
    assert("MJPEG"@.len() == 5 && "YUYV"@[0] == 'Y' && "NV12"@[0] == 'N' && "GRAY"@[0] == 'G');
    assert("YUYV"@.len() == 4 && "NV12"@.len() == 4 && "GRAY"@.len() == 4);
    assert("RAWRGB"@[3] == 'R' && "RAWBGR"@[3] == 'B' && "RAWRGB"@.len() == 6);
}

/// Lines are told one by one, each as it is.
pub proof fn law_lines_are_told_as_they_are(lines: Seq<String>, i: int)
    requires
        0 <= i < lines.len(),
    ensures
        texts(lines).len() == lines.len(),
        texts(lines)[i] == lines[i]@,
{
}

} // verus!
