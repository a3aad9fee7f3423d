use std::sync::Arc;
use video_capture_share::frame::{FrameData, SourceFrame};
use video_capture_share::h264_encoder::{
    drain_step, encoder_setup, output_buffer, pack, pick_encoder, readable_len, DrainError,
    H264Encoder, NoEncoder, OutputEvent, ShortFrame,
};
use video_capture_share::nal::{
    annexb_contains_nal_type, annexb_has_idr, collect_nals, extract_sps_pps,
    find_start_code_before, iter_nals,
};
use video_capture_share::video_stream::{
    pts_100ns, retain_reachable, Pipeline, PipelineStep, SendOutcome, TsBroadcaster,
};

const SPS: [u8; 7] = [0, 0, 0, 1, 0x67, 10, 11];
const PPS: [u8; 5] = [0, 0, 1, 0x68, 12];
const IDR: [u8; 6] = [0, 0, 1, 0x65, 13, 14];
const SLICE: [u8; 5] = [0, 0, 1, 0x41, 15];

fn join(parts: &[&[u8]]) -> Vec<u8> {
    let mut out = Vec::new();
    for p in parts {
        out.extend_from_slice(p);
    }
    out
}

#[test]
fn walks_long_and_short_start_codes() {
    let buf = join(&[&SPS, &PPS, &IDR]);
    let mut it = iter_nals(&buf);
    assert_eq!(it.next(), Some((4, 7)));
    assert_eq!(it.next(), Some((10, 8)));
    assert_eq!(it.next(), Some((15, 5)));
    assert_eq!(it.next(), None);
    assert_eq!(it.next(), None);
    assert_eq!(collect_nals(&buf), vec![(4, 7), (10, 8), (15, 5)]);
}

#[test]
fn walk_of_short_and_damaged_buffers() {
    assert_eq!(collect_nals(&[]), vec![]);
    assert_eq!(collect_nals(&[0, 0, 1]), vec![]);
    assert_eq!(collect_nals(&[0, 0, 0, 1]), vec![]);
    assert_eq!(collect_nals(&[0, 0, 1, 0x65]), vec![(3, 5)]);
    assert_eq!(collect_nals(&[9, 9, 0, 0, 2, 0, 0, 1, 0xe7]), vec![(8, 7)]);
    assert_eq!(collect_nals(&[0, 0, 0, 0, 1, 0x41]), vec![(5, 1)]);
}

#[test]
fn finds_nal_types() {
    let buf = join(&[&SPS, &PPS, &SLICE]);
    assert!(!annexb_has_idr(&buf));
    assert!(annexb_has_idr(&join(&[&SLICE, &IDR])));
    assert!(annexb_contains_nal_type(&buf, 7));
    assert!(annexb_contains_nal_type(&buf, 1));
    assert!(!annexb_contains_nal_type(&buf, 5));
}

#[test]
fn start_code_in_front_of_a_nal_byte() {
    assert_eq!(find_start_code_before(&[0, 0, 0, 1, 0x67], 4), 0);
    assert_eq!(find_start_code_before(&[9, 0, 0, 1, 0x67], 4), 1);
    assert_eq!(find_start_code_before(&[0, 0, 1, 0x67], 3), 0);
    assert_eq!(find_start_code_before(&[1, 2, 3, 4], 3), 3);
    assert_eq!(find_start_code_before(&[1, 2], 0), 0);
}

#[test]
fn extracts_parameter_sets() {
    assert_eq!(extract_sps_pps(&join(&[&SPS, &PPS, &IDR])), Some(join(&[&SPS, &PPS])));
    assert_eq!(extract_sps_pps(&join(&[&PPS, &SPS])), Some(join(&[&SPS, &PPS])));
    assert_eq!(extract_sps_pps(&join(&[&SPS, &IDR])), None);
    assert_eq!(extract_sps_pps(&join(&[&PPS, &IDR])), None);
    assert_eq!(extract_sps_pps(&[]), None);
    let other = [0, 0, 1, 0x67, 99];
    assert_eq!(
        extract_sps_pps(&join(&[&SPS, &PPS, &other])),
        Some(join(&[&other, &PPS]))
    );
}

#[test]
fn walks_of_joined_buffers() {
    let a = join(&[&SPS, &PPS]);
    let b = join(&[&IDR, &SLICE]);
    let joined = join(&[&a, &b]);
    let mut expected = collect_nals(&a);
    for (o, t) in collect_nals(&b) {
        expected.push((o + a.len(), t));
    }
    assert_eq!(collect_nals(&joined), expected);
}

#[test]
fn units_stay_in_front_of_whatever_follows() {
    // The bare start code at the end takes the first byte behind it for a unit.
    let a = join(&[&SPS, &PPS, &[0, 0, 1]]);
    let joined = join(&[&a, &IDR]);
    assert_eq!(collect_nals(&a), vec![(4, 7), (10, 8)]);
    assert_eq!(collect_nals(&joined), vec![(4, 7), (10, 8), (15, 0)]);
}

#[test]
fn a_unit_that_was_cut_out_stands_alone() {
    let buf = join(&[&SPS, &PPS, &IDR]);
    assert_eq!(collect_nals(&buf[7..12]), vec![(3, 8)]);
}

fn nv12_frame(seq: u64, width: u32, height: u32) -> SourceFrame {
    SourceFrame { width, height, data: FrameData::Nv12(Arc::new(vec![0; 6])), seq }
}

#[test]
fn pipeline_steps() {
    let mut p = Pipeline::new();
    assert_eq!(p.poll(None), PipelineStep::Sleep(2));
    let f = nv12_frame(1, 2, 2);
    assert_eq!(p.poll(Some(&f)), PipelineStep::BuildEncoder { width: 2, height: 2 });
    assert_eq!(p.encoder_built(2, 2, false), PipelineStep::Sleep(2000));
    assert_eq!(p.poll(Some(&f)), PipelineStep::Sleep(2));
    let f = nv12_frame(2, 2, 2);
    assert_eq!(p.poll(Some(&f)), PipelineStep::BuildEncoder { width: 2, height: 2 });
    assert_eq!(p.encoder_built(2, 2, true), PipelineStep::Encode);
    assert_eq!(p.poll(Some(&nv12_frame(3, 2, 2))), PipelineStep::Encode);
    assert_eq!(
        p.poll(Some(&nv12_frame(4, 4, 2))),
        PipelineStep::BuildEncoder { width: 4, height: 2 }
    );
    let rgb = SourceFrame { width: 1, height: 1, data: FrameData::Rgb(Arc::new(vec![1, 2, 3])), seq: 5 };
    assert_eq!(p.poll(Some(&rgb)), PipelineStep::Sleep(50));
    assert_eq!(p.poll(Some(&rgb)), PipelineStep::Sleep(2));
}

#[test]
fn keyframes_carry_the_first_parameter_sets() {
    let mut p = Pipeline::new();
    let before = p.access_unit(IDR.to_vec());
    assert!(before.keyframe);
    assert_eq!(before.payload, IDR.to_vec());
    let first = join(&[&SPS, &PPS, &IDR]);
    let au = p.access_unit(first.clone());
    assert!(au.keyframe);
    assert_eq!(au.payload, first);
    let au = p.access_unit(SLICE.to_vec());
    assert!(!au.keyframe);
    assert_eq!(au.payload, SLICE.to_vec());
    let other = join(&[&[0, 0, 1, 0x67, 99], &PPS, &IDR]);
    assert_eq!(p.access_unit(other.clone()).payload, other);
    let au = p.access_unit(IDR.to_vec());
    assert_eq!(au.payload, join(&[&SPS, &PPS, &IDR]));
    let types: Vec<u8> = collect_nals(&au.payload).iter().map(|u| u.1).collect();
    assert_eq!(types, vec![7, 8, 5]);
}

#[test]
fn late_joiners_can_decode_every_keyframe() {
    let mut p = Pipeline::new();
    let blobs = [
        SLICE.to_vec(),
        join(&[&SPS, &PPS, &IDR]),
        SLICE.to_vec(),
        IDR.to_vec(),
        join(&[&SPS, &PPS]),
        IDR.to_vec(),
    ];
    for blob in blobs {
        let au = p.access_unit(blob);
        if au.keyframe {
            assert!(annexb_contains_nal_type(&au.payload, 7));
            assert!(annexb_contains_nal_type(&au.payload, 8));
        }
    }
}

#[test]
fn pipeline_reports_its_frame_count() {
    let mut p = Pipeline::new();
    assert_eq!(p.frame_done(1), None);
    assert_eq!(p.frame_done(4_999_999_999), None);
    assert_eq!(p.frame_count(), 2);
    assert_eq!(p.frame_done(5_000_000_000), Some(3));
    assert_eq!(p.frame_count(), 0);
}

#[test]
fn presentation_time_in_ticks() {
    assert_eq!(pts_100ns(0), 0);
    assert_eq!(pts_100ns(1_000_000_099), 10_000_000);
}

#[test]
fn clients_get_what_is_broadcast() {
    let mut b = TsBroadcaster::new();
    assert_eq!(b.subscriber_count(), 0);
    let first = b.subscribe();
    let second = b.subscribe();
    assert_eq!(b.subscriber_count(), 2);
    let outcomes = b.broadcast(Arc::new(vec![1, 2, 3]));
    assert_eq!(outcomes, vec![SendOutcome::Sent, SendOutcome::Sent]);
    assert_eq!(*first.recv().unwrap(), vec![1, 2, 3]);
    assert_eq!(*second.recv().unwrap(), vec![1, 2, 3]);
    assert!(first.try_recv().is_err());
    drop(first);
    let outcomes = b.broadcast(Arc::new(vec![4]));
    assert_eq!(outcomes, vec![SendOutcome::Disconnected, SendOutcome::Sent]);
    assert_eq!(b.subscriber_count(), 1);
    assert_eq!(*second.recv().unwrap(), vec![4]);
}

#[test]
fn slow_clients_lose_chunks_and_stay() {
    let mut b = TsBroadcaster::new();
    let rx = b.subscribe();
    for i in 0..64u8 {
        assert_eq!(b.broadcast(Arc::new(vec![i])), vec![SendOutcome::Sent]);
    }
    assert_eq!(b.broadcast(Arc::new(vec![64])), vec![SendOutcome::Full]);
    assert_eq!(b.subscriber_count(), 1);
    assert_eq!(*rx.recv().unwrap(), vec![0]);
    assert_eq!(b.broadcast(Arc::new(vec![65])), vec![SendOutcome::Sent]);
    for i in 1..64u8 {
        assert_eq!(*rx.recv().unwrap(), vec![i]);
    }
    assert_eq!(*rx.recv().unwrap(), vec![65]);
}

#[test]
fn only_clients_that_are_gone_leave() {
    let mut clients = vec!['a', 'b', 'c', 'd'];
    let outcomes = vec![
        SendOutcome::Full,
        SendOutcome::Disconnected,
        SendOutcome::Sent,
        SendOutcome::Disconnected,
    ];
    retain_reachable(&mut clients, &outcomes);
    assert_eq!(clients, vec!['a', 'c']);
}

#[test]
fn packs_sizes_and_ratios() {
    assert_eq!(pack(1920, 1080), (1920u64 << 32) | 1080);
    assert_eq!(pack(u32::MAX, u32::MAX), u64::MAX);
    let p = pack(7, 9);
    assert_eq!((p >> 32, p & 0xffff_ffff), (7, 9));
    let s = encoder_setup(1280, 720, 0, 8_000_000);
    assert_eq!(s.bitrate_bps, 8_000_000);
    assert_eq!(s.frame_size, pack(1280, 720));
    assert_eq!(s.frame_rate, pack(0, 1));
    assert_eq!(s.pixel_aspect, pack(1, 1));
    assert_eq!(s.gop_size, 1);
    assert_eq!(s.b_frames, 0);
}

#[test]
fn encoders() {
    assert_eq!(pick_encoder(&[false, true, true], &[true, false, false]), Ok(1));
    assert_eq!(pick_encoder(&[true, true, true], &[false, true, true]), Ok(1));
    assert_eq!(pick_encoder(&[true, false], &[false, true]), Ok(0));
    assert_eq!(pick_encoder(&[], &[]), Err(NoEncoder::NoneListed));
    assert_eq!(pick_encoder(&[false, false], &[true, false]), Err(NoEncoder::NoneThere));
    assert_eq!(NoEncoder::NoneListed.message(), "no H264 encoder MFT available");
    assert_eq!(NoEncoder::NoneThere.message(), "MFTEnumEx returned null entries");
}

#[test]
fn keyframe_cadence() {
    let mut e = H264Encoder::new(2, 2, 3);
    let nv12 = [0u8; 6];
    let forced: Vec<bool> = (0..8).map(|i| e.encode(&nv12, i).unwrap().force_keyframe).collect();
    assert_eq!(forced, vec![true, false, false, true, false, false, true, false]);
}

#[test]
fn submissions_and_short_frames() {
    let mut e = H264Encoder::new(2, 2, 60);
    let s = e.encode(&[0; 7], -5).unwrap();
    assert_eq!((s.time, s.duration), (-5, 166_666));
    let r = e.encode(&[0; 5], 0);
    assert_eq!(r, Err(ShortFrame { len: 5 }));
    assert_eq!(r.unwrap_err().message(), "NV12 frame shorter than expected: 5 bytes");
    let mut still = H264Encoder::new(2, 2, 0);
    assert_eq!(still.encode(&[0; 6], 0).unwrap().duration, 10_000_000);
}

#[test]
fn encoder_output_is_collected() {
    assert_eq!(output_buffer(true, 5), None);
    assert_eq!(output_buffer(false, 5), Some(1024 * 1024));
    assert_eq!(output_buffer(false, 2_000_000), Some(2_000_000));
    assert_eq!(readable_len(3, 5), 3);
    assert_eq!(readable_len(5, 3), 3);
    let mut out = Vec::new();
    assert_eq!(drain_step(&mut out, OutputEvent::Sample(vec![1])), Ok(true));
    assert_eq!(drain_step(&mut out, OutputEvent::Sample(vec![])), Ok(true));
    assert_eq!(drain_step(&mut out, OutputEvent::NeedMoreInput), Ok(false));
    assert_eq!(drain_step(&mut out, OutputEvent::StreamChange), Ok(false));
    assert_eq!(drain_step(&mut out, OutputEvent::NoSample), Err(DrainError::NoSample));
    assert_eq!(drain_step(&mut out, OutputEvent::Failed), Err(DrainError::Failed));
    assert_eq!(out, vec![vec![1]]);
}
