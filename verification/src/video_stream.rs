//! The H.264 streaming pipeline: which frames go to the encoder, what is done
//! to the access units that come back, and who gets the stream.
use crate::bytes::append_bytes;
use crate::frame::{FrameData, SourceFrame};
use crate::nal::{
    annexb_contains_nal_type, annexb_has_idr, extract_sps_pps, has_nal_type, nals, sps_pps_of,
    NAL_IDR, NAL_PPS, NAL_SPS,
};
use crate::nal_laws::{
    ends_in_bare_start_code, law_concat, law_extracted_parameter_sets, law_units_stay_in_front,
    lemma_no_straddle, lemma_parameter_sets_len, lemma_sps_first, opens_with_start_code, shifted,
    straddles,
};
use std::sync::Arc;
use vstd::prelude::*;

verus! {

/// Chunks that wait for one client before it counts as slow.
pub const CLIENT_QUEUE: usize = 64;

/// Frame rate that the encoder is set up for.
pub const STREAM_FPS: u32 = 60;

/// What became of a chunk that was offered to a client.
#[derive(Debug, Clone, Copy, PartialEq, Eq, Structural)]
pub enum SendOutcome {
    /// The client's queue took it.
    Sent,
    /// The client is slow and its queue is full: the chunk is dropped.
    Full,
    /// The client is gone.
    Disconnected,
}

/// Declares `std::sync::mpsc::SyncSender`.
#[verifier::external_type_specification]
#[verifier::external_body]
#[verifier::reject_recursive_types(T)]
pub struct ExSyncSender<T>(std::sync::mpsc::SyncSender<T>);

/// Declares `std::sync::mpsc::Receiver`.
#[verifier::external_type_specification]
#[verifier::external_body]
#[verifier::reject_recursive_types(T)]
pub struct ExReceiver<T>(std::sync::mpsc::Receiver<T>);

/// The chunks that a sending end has put into its channel, oldest first.
pub uninterp spec fn sent_chunks(tx: std::sync::mpsc::SyncSender<Arc<Vec<u8>>>) -> Seq<Seq<u8>>;

/// How many chunks wait in the channel of a sending end at most.
pub uninterp spec fn queue_bound(tx: std::sync::mpsc::SyncSender<Arc<Vec<u8>>>) -> nat;

/// What the channel of a sending end answered to the chunk it was offered last.
pub uninterp spec fn last_answer(
    tx: std::sync::mpsc::SyncSender<Arc<Vec<u8>>>,
) -> SendOutcome;

/// What is sent by `tx` arrives at `rx`.
pub uninterp spec fn linked(
    tx: std::sync::mpsc::SyncSender<Arc<Vec<u8>>>,
    rx: std::sync::mpsc::Receiver<Arc<Vec<u8>>>,
) -> bool;

/// Calls `std::sync::mpsc::sync_channel`: the two ends of a new channel that
/// holds up to `bound` chunks. The ends belong together and nothing has been
/// sent.
#[verifier::external_body]
fn chunk_channel(bound: usize) -> (ends: (
    std::sync::mpsc::SyncSender<Arc<Vec<u8>>>,
    std::sync::mpsc::Receiver<Arc<Vec<u8>>>,
))
    requires
        bound <= 0xffff,
    ensures
        sent_chunks(ends.0) == Seq::<Seq<u8>>::empty(),
        queue_bound(ends.0) == bound,
        linked(ends.0, ends.1),
{
    std::sync::mpsc::sync_channel(bound)
}

/// Calls `std::sync::mpsc::SyncSender::try_send`, which never blocks: the chunk
/// is put into the channel behind those sent before, or not at all, and the
/// channel's answer is handed on. Which answer that is depends on what the other
/// end has read and on whether it is still there, so nothing is claimed of it.
#[verifier::external_body]
fn offer_chunk(tx: &mut std::sync::mpsc::SyncSender<Arc<Vec<u8>>>, chunk: Arc<Vec<u8>>) -> (outcome:
    SendOutcome)
    ensures
        last_answer(*final(tx)) == outcome,
        sent_chunks(*final(tx)) == if outcome == SendOutcome::Sent {
            sent_chunks(*old(tx)).push(chunk@)
        } else {
            sent_chunks(*old(tx))
        },
        queue_bound(*final(tx)) == queue_bound(*old(tx)),
        forall|rx: std::sync::mpsc::Receiver<Arc<Vec<u8>>>| #[trigger]
            linked(*final(tx), rx) == linked(*old(tx), rx),
{
    match tx.try_send(chunk) {
        Ok(()) => SendOutcome::Sent,
        Err(std::sync::mpsc::TrySendError::Full(_)) => SendOutcome::Full,
        Err(std::sync::mpsc::TrySendError::Disconnected(_)) => SendOutcome::Disconnected,
    }
}

/// `after` is `before` once `chunk` was offered and the channel answered with
/// `outcome`.
pub open spec fn offered(
    before: std::sync::mpsc::SyncSender<Arc<Vec<u8>>>,
    after: std::sync::mpsc::SyncSender<Arc<Vec<u8>>>,
    chunk: Seq<u8>,
    outcome: SendOutcome,
) -> bool {
    &&& outcome == last_answer(after)
    &&& sent_chunks(after) == if outcome == SendOutcome::Sent {
        sent_chunks(before).push(chunk)
    } else {
        sent_chunks(before)
    }
    &&& queue_bound(after) == queue_bound(before)
    &&& forall|rx: std::sync::mpsc::Receiver<Arc<Vec<u8>>>| #[trigger]
        linked(after, rx) == linked(before, rx)
}

/// The clients that stay, in order: all but those that are gone.
pub open spec fn reachable<S>(clients: Seq<S>, outcomes: Seq<SendOutcome>) -> Seq<S>
    decreases clients.len(),
{
    if clients.len() == 0 {
        Seq::empty()
    } else {
        let before = reachable(clients.drop_last(), outcomes.drop_last());
        if outcomes.last() == SendOutcome::Disconnected {
            before
        } else {
            before.push(clients.last())
        }
    }
}

/// Drops the clients that are gone and keeps the others in order.
pub fn retain_reachable<S>(clients: &mut Vec<S>, outcomes: &Vec<SendOutcome>)
    requires
        old(clients)@.len() == outcomes@.len(),
    ensures
        final(clients)@ == reachable(old(clients)@, outcomes@),
{
    let ghost all = clients@;
    let mut seen: usize = 0;
    let mut kept: usize = 0;
    assert(all.take(0) =~= Seq::empty());
    while seen < outcomes.len()
        invariant
            all.len() == outcomes@.len(),
            seen <= outcomes@.len(),
            kept <= seen,
            kept == reachable(all.take(seen as int), outcomes@.take(seen as int)).len(),
            clients@ == reachable(all.take(seen as int), outcomes@.take(seen as int)) + all.skip(
                seen as int,
            ),
        decreases outcomes@.len() - seen,
    {
        let ghost done = reachable(all.take(seen as int), outcomes@.take(seen as int));
        proof {
            assert(all.take(seen + 1).drop_last() =~= all.take(seen as int));
            assert(outcomes@.take(seen + 1).drop_last() =~= outcomes@.take(seen as int));
            assert(all.take(seen + 1).last() == all[seen as int]);
            assert(outcomes@.take(seen + 1).last() == outcomes@[seen as int]);
            assert(clients@[kept as int] == all[seen as int]);
        }
        if outcomes[seen] == SendOutcome::Disconnected {
            let _gone = clients.remove(kept);
            assert(clients@ =~= done + all.skip(seen + 1));
        } else {
            assert(clients@ =~= done.push(all[seen as int]) + all.skip(seen + 1));
            kept = kept + 1;
        }
        seen = seen + 1;
    }
    proof {
        assert(all.take(seen as int) =~= all);
        assert(outcomes@.take(seen as int) =~= outcomes@);
        assert(clients@ =~= reachable(all, outcomes@));
    }
}

/// Fan-out for MPEG-TS byte chunks. Encoder broadcasts; clients subscribe
/// and read from their own bounded channel. A slow client just gets its
/// chunks dropped, the encoder never blocks.
pub struct TsBroadcaster {
    subscribers: Vec<std::sync::mpsc::SyncSender<Arc<Vec<u8>>>>,
}

impl TsBroadcaster {
    /// The sending ends, in the order in which the clients subscribed.
    pub closed spec fn clients(self) -> Seq<std::sync::mpsc::SyncSender<Arc<Vec<u8>>>> {
        self.subscribers@
    }

    pub fn new() -> (b: Self)
        ensures
            b.clients().len() == 0,
    {
        TsBroadcaster { subscribers: Vec::new() }
    }

    /// A new client behind all others; what it is sent comes out of the
    /// returned end.
    pub fn subscribe(&mut self) -> (rx: std::sync::mpsc::Receiver<Arc<Vec<u8>>>)
        ensures
            final(self).clients().len() == old(self).clients().len() + 1,
            final(self).clients().drop_last() == old(self).clients(),
            linked(final(self).clients().last(), rx),
            sent_chunks(final(self).clients().last()) == Seq::<Seq<u8>>::empty(),
            queue_bound(final(self).clients().last()) == CLIENT_QUEUE,
            queue_bound(final(self).clients().last()) == 64,
    {
        let (tx, rx) = chunk_channel(CLIENT_QUEUE);
        self.subscribers.push(tx);
        assert(self.clients().drop_last() =~= old(self).clients());
        rx
    }

    pub fn subscriber_count(&self) -> (n: usize)
        ensures
            n == self.clients().len(),
    {
        self.subscribers.len()
    }

    /// Offers `chunk` to every client once, drops the clients whose channel
    /// answered that they are gone, and hands on what each channel answered. A
    /// slow client just loses the chunk.
    pub fn broadcast(&mut self, chunk: Arc<Vec<u8>>) -> (outcomes: Vec<SendOutcome>)
        ensures
            outcomes@.len() == old(self).clients().len(),
            exists|after: Seq<std::sync::mpsc::SyncSender<Arc<Vec<u8>>>>|
                {
                    &&& after.len() == outcomes@.len()
                    &&& forall|i: int|
                        0 <= i < after.len() ==> offered(
                            old(self).clients()[i],
                            #[trigger] after[i],
                            chunk@,
                            outcomes@[i],
                        )
                    &&& final(self).clients() == #[trigger] reachable(after, outcomes@)
                },
    {
        let ghost before = self.subscribers@;
        let mut outcomes: Vec<SendOutcome> = Vec::new();
        let mut i: usize = 0;
        while i < self.subscribers.len()
            invariant
                before == old(self).subscribers@,
                i <= self.subscribers@.len(),
                self.subscribers@.len() == before.len(),
                outcomes@.len() == i,
                forall|j: int|
                    0 <= j < i ==> offered(
                        before[j],
                        #[trigger] self.subscribers@[j],
                        chunk@,
                        outcomes@[j],
                    ),
                forall|j: int| i <= j < before.len() ==> #[trigger] self.subscribers@[j] == before[j],
            decreases self.subscribers@.len() - i,
        {
            let outcome = offer_chunk(&mut self.subscribers[i], chunk.clone());
            outcomes.push(outcome);
            i = i + 1;
        }
        let ghost after = self.subscribers@;
        retain_reachable(&mut self.subscribers, &outcomes);
        assert(self.clients() == reachable(after, outcomes@));
        outcomes
    }
}

/// What the pipeline does next.
#[derive(Debug, Clone, Copy, PartialEq, Eq, Structural)]
pub enum PipelineStep {
    /// Nothing to encode: wait so many milliseconds and look again.
    Sleep(u64),
    /// The encoder is missing or made for other dimensions: build one.
    BuildEncoder { width: u32, height: u32 },
    /// Hand the frame to the encoder.
    Encode,
}

/// An access unit that is ready to be muxed.
pub struct AccessUnit {
    pub payload: Vec<u8>,
    pub keyframe: bool,
}

/// The parameter sets that are kept once `blob` has been seen: those that
/// were there before, else those of `blob`.
pub open spec fn cached_after(cached: Seq<u8>, blob: Seq<u8>) -> Seq<u8> {
    if cached.len() > 0 {
        cached
    } else {
        match sps_pps_of(blob) {
            Some(found) => found,
            None => Seq::empty(),
        }
    }
}

/// `blob` is a keyframe that comes without its own SPS.
pub open spec fn needs_parameter_sets(blob: Seq<u8>) -> bool {
    has_nal_type(blob, NAL_IDR) && !has_nal_type(blob, NAL_SPS)
}

/// What is muxed for `blob`: the kept parameter sets in front of a keyframe
/// that comes without its own, anything else as it is.
pub open spec fn payload_of(cached: Seq<u8>, blob: Seq<u8>) -> Seq<u8> {
    if needs_parameter_sets(blob) {
        cached + blob
    } else {
        blob
    }
}

/// State of the encoder loop.
pub struct Pipeline {
    encoder_ready: bool,
    current_dims: (u32, u32),
    last_seq: u64,
    encoded_frames: u64,
    sps_pps: Vec<u8>,
}

impl Pipeline {
    /// An encoder has been built.
    pub closed spec fn has_encoder(self) -> bool {
        self.encoder_ready
    }

    /// The dimensions that the encoder was built for.
    pub closed spec fn dims(self) -> (u32, u32) {
        self.current_dims
    }

    /// Sequence number of the frame that was looked at last.
    pub closed spec fn seen_seq(self) -> u64 {
        self.last_seq
    }

    /// Frames encoded since the last report.
    pub closed spec fn frames(self) -> u64 {
        self.encoded_frames
    }

    /// Cached SPS and PPS in Annex-B form, empty until some have been seen.
    pub closed spec fn parameter_sets(self) -> Seq<u8> {
        self.sps_pps@
    }

    pub fn new() -> (p: Self)
        ensures
            !p.has_encoder(),
            p.dims() == (0u32, 0u32),
            p.seen_seq() == 0,
            p.frames() == 0,
            p.parameter_sets() == Seq::<u8>::empty(),
    {
        let p = Pipeline {
            encoder_ready: false,
            current_dims: (0, 0),
            last_seq: 0,
            encoded_frames: 0,
            sps_pps: Vec::new(),
        };
        assert(p.sps_pps@ =~= Seq::<u8>::empty());
        p
    }

    /// What to do with the frame that is in the slot, if there is one. A frame
    /// is looked at once. The encoder takes NV12 only, so an RGB frame is
    /// passed over.
    pub fn poll(&mut self, frame: Option<&SourceFrame>) -> (step: PipelineStep)
        ensures
            step == (match frame {
                Some(f) => if f.seq == old(self).seen_seq() {
                    PipelineStep::Sleep(2)
                } else if f.data is Rgb {
                    PipelineStep::Sleep(50)
                } else if !old(self).has_encoder() || old(self).dims() != (f.width, f.height) {
                    PipelineStep::BuildEncoder { width: f.width, height: f.height }
                } else {
                    PipelineStep::Encode
                },
                None => PipelineStep::Sleep(2),
            }),
            final(self).seen_seq() == (match frame {
                Some(f) => f.seq,
                None => old(self).seen_seq(),
            }),
            final(self).has_encoder() == old(self).has_encoder(),
            final(self).dims() == old(self).dims(),
            final(self).frames() == old(self).frames(),
            final(self).parameter_sets() == old(self).parameter_sets(),
    {
        match frame {
            Some(f) => {
                if f.seq == self.last_seq {
                    return PipelineStep::Sleep(2);
                }
                self.last_seq = f.seq;
                match &f.data {
                    FrameData::Rgb(_) => PipelineStep::Sleep(50),
                    FrameData::Nv12(_) => {
                        if !self.encoder_ready || self.current_dims.0 != f.width
                            || self.current_dims.1 != f.height {
                            PipelineStep::BuildEncoder { width: f.width, height: f.height }
                        } else {
                            PipelineStep::Encode
                        }
                    },
                }
            },
            None => PipelineStep::Sleep(2),
        }
    }

    /// Takes note of what came of building an encoder for `width` x `height`.
    /// One that could not be built leaves everything as it was, and the frame
    /// is given up.
    pub fn encoder_built(&mut self, width: u32, height: u32, built: bool) -> (step: PipelineStep)
        ensures
            step == if built {
                PipelineStep::Encode
            } else {
                PipelineStep::Sleep(2000)
            },
            final(self).has_encoder() == (built || old(self).has_encoder()),
            final(self).dims() == if built {
                (width, height)
            } else {
                old(self).dims()
            },
            final(self).seen_seq() == old(self).seen_seq(),
            final(self).frames() == old(self).frames(),
            final(self).parameter_sets() == old(self).parameter_sets(),
    {
        if built {
            self.encoder_ready = true;
            self.current_dims = (width, height);
            PipelineStep::Encode
        } else {
            PipelineStep::Sleep(2000)
        }
    }

    /// Turns one blob from the encoder into an access unit. The first SPS and
    /// PPS are kept and put in front of each keyframe that comes without, so
    /// that clients that join mid-stream can decode the next IDR.
    pub fn access_unit(&mut self, blob: Vec<u8>) -> (au: AccessUnit)
        ensures
            au.keyframe == has_nal_type(blob@, NAL_IDR),
            au.payload@.len() >= blob@.len(),
            au.payload@.skip(au.payload@.len() - blob@.len()) == blob@,
            !has_nal_type(blob@, 5) || has_nal_type(blob@, 7) ==> au.payload@ == blob@,
            au.payload@ == payload_of(final(self).parameter_sets(), blob@),
            final(self).parameter_sets() == cached_after(old(self).parameter_sets(), blob@),
            final(self).has_encoder() == old(self).has_encoder(),
            final(self).dims() == old(self).dims(),
            final(self).seen_seq() == old(self).seen_seq(),
            final(self).frames() == old(self).frames(),
    {
        if self.sps_pps.is_empty() {
            if let Some(extracted) = extract_sps_pps(&blob) {
                self.sps_pps = extracted;
            }
        }
        assert(self.sps_pps@ =~= cached_after(old(self).sps_pps@, blob@));
        let keyframe: bool = annexb_has_idr(&blob);
        let has_inline_sps: bool = annexb_contains_nal_type(&blob, NAL_SPS);
        let payload: Vec<u8> = if keyframe && !self.sps_pps.is_empty() && !has_inline_sps {
            let mut combined: Vec<u8> = Vec::new();
            append_bytes(&mut combined, &self.sps_pps);
            append_bytes(&mut combined, &blob);
            assert(combined@ =~= self.sps_pps@ + blob@);
            combined
        } else {
            assert(keyframe && !has_inline_sps ==> self.sps_pps@ + blob@ =~= blob@);
            blob
        };
        proof {
            law_blob_is_muxed_whole(self.sps_pps@, blob@);
        }
        AccessUnit { payload, keyframe }
    }

    /// Frames encoded since the last report.
    pub fn frame_count(&self) -> (n: u64)
        ensures
            n == self.frames(),
    {
        self.encoded_frames
    }

    /// Counts a frame that was encoded. Five seconds after the last report the
    /// count is handed out and starts again.
    pub fn frame_done(&mut self, since_report_ns: u64) -> (report: Option<u64>)
        requires
            old(self).frames() < u64::MAX,
        ensures
            report == if since_report_ns >= 5_000_000_000 {
                Some((old(self).frames() + 1) as u64)
            } else {
                None
            },
            final(self).frames() == if since_report_ns >= 5_000_000_000 {
                0int
            } else {
                old(self).frames() + 1
            },
            final(self).has_encoder() == old(self).has_encoder(),
            final(self).dims() == old(self).dims(),
            final(self).seen_seq() == old(self).seen_seq(),
            final(self).parameter_sets() == old(self).parameter_sets(),
    {
        self.encoded_frames = self.encoded_frames + 1;
        if since_report_ns >= 5_000_000_000 {
            let count: u64 = self.encoded_frames;
            self.encoded_frames = 0;
            Some(count)
        } else {
            None
        }
    }
}

/// A frame's presentation time in the encoder's 100 ns ticks.
pub fn pts_100ns(since_start_ns: u64) -> (ticks: i64)
    ensures
        ticks == since_start_ns / 100,
{
    (since_start_ns / 100) as i64
}

/// Once parameter sets have been kept, no later blob replaces them.
pub proof fn law_first_parameter_sets_stay(cached: Seq<u8>, first: Seq<u8>, later: Seq<u8>)
    requires
        cached_after(cached, first).len() > 0,
    ensures
        cached_after(cached_after(cached, first), later) == cached_after(cached, first),
{
}

/// With the parameter sets of some earlier blob `source` at hand, every
/// keyframe that is muxed carries an SPS. Where it had to be put in front, the
/// keyframe also carries a PPS, unless `source` ends in a bare start code; and
/// where no start code forms in between, the keyframe's own units follow
/// unchanged, its IDR among them.
pub proof fn law_keyframes_carry_parameter_sets(source: Seq<u8>, blob: Seq<u8>)
    requires
        2 * source.len() + blob.len() <= usize::MAX,
        sps_pps_of(source) is Some,
        has_nal_type(blob, NAL_IDR),
    ensures
        ({
            let cached = sps_pps_of(source)->0;
            let payload = payload_of(cached, blob);
            &&& has_nal_type(payload, NAL_SPS)
            &&& needs_parameter_sets(blob) && !ends_in_bare_start_code(source) ==> has_nal_type(
                payload,
                NAL_PPS,
            )
            &&& needs_parameter_sets(blob) && !straddles(cached, blob) ==> nals(payload) == nals(
                cached,
            ) + shifted(nals(blob), cached.len() as int) && has_nal_type(payload, NAL_IDR)
        }),
{
    let cached = sps_pps_of(source)->0;
    let payload = payload_of(cached, blob);
    law_extracted_parameter_sets(source);
    lemma_parameter_sets_len(source);
    if needs_parameter_sets(blob) {
        law_units_stay_in_front(cached, blob);
        lemma_sps_first(source);
        assert(nals(payload)[0].1 == NAL_SPS);
        if !ends_in_bare_start_code(source) {
            assert(nals(payload)[1] == nals(cached)[1]);
        }
        if !straddles(cached, blob) {
            law_concat(cached, blob);
            let k = choose|k: int|
                0 <= k < nals(blob).len() && (#[trigger] nals(blob)[k]).1 == NAL_IDR;
            assert(nals(payload)[nals(cached).len() + k].1 == NAL_IDR);
        }
    }
}

/// The parameter sets that are kept once all of `blobs` have been seen.
pub open spec fn cached_after_all(blobs: Seq<Seq<u8>>) -> Seq<u8>
    decreases blobs.len(),
{
    if blobs.len() == 0 {
        Seq::empty()
    } else {
        cached_after(cached_after_all(blobs.drop_last()), blobs.last())
    }
}

/// The kept parameter sets are those of some blob, and there are some once a
/// blob had them.
proof fn lemma_cached_come_from_a_blob(blobs: Seq<Seq<u8>>, i: int)
    requires
        forall|k: int|
            0 <= k < blobs.len() ==> (#[trigger] blobs[k]).len() <= usize::MAX / 2,
        0 <= i < blobs.len(),
        sps_pps_of(blobs[i]) is Some,
    ensures
        cached_after_all(blobs).len() > 0,
        exists|k: int|
            0 <= k < blobs.len() && sps_pps_of(#[trigger] blobs[k]) == Some(
                cached_after_all(blobs),
            ),
    decreases blobs.len(),
{
    let init = blobs.drop_last();
    let before = cached_after_all(init);
    if i < blobs.len() - 1 {
        assert(init[i] == blobs[i]);
        lemma_cached_come_from_a_blob(init, i);
        let k = choose|k: int|
            0 <= k < init.len() && sps_pps_of(#[trigger] init[k]) == Some(before);
        assert(blobs[k] == init[k]);
    } else {
        lemma_cached_or_none(init);
        law_extracted_parameter_sets(blobs[i]);
        if before.len() > 0 {
            let k = choose|k: int|
                0 <= k < init.len() && sps_pps_of(#[trigger] init[k]) == Some(before);
            assert(blobs[k] == init[k]);
        } else {
            assert(blobs[i] == blobs.last());
        }
    }
}

/// Kept parameter sets are those of some blob.
proof fn lemma_cached_or_none(blobs: Seq<Seq<u8>>)
    ensures
        cached_after_all(blobs).len() > 0 ==> exists|k: int|
            0 <= k < blobs.len() && sps_pps_of(#[trigger] blobs[k]) == Some(
                cached_after_all(blobs),
            ),
    decreases blobs.len(),
{
    if blobs.len() > 0 {
        let init = blobs.drop_last();
        lemma_cached_or_none(init);
        if cached_after_all(init).len() > 0 {
            let k = choose|k: int|
                0 <= k < init.len() && sps_pps_of(#[trigger] init[k]) == Some(
                    cached_after_all(init),
                );
            assert(blobs[k] == init[k]);
        } else if cached_after_all(blobs).len() > 0 {
            assert(sps_pps_of(blobs[blobs.len() - 1]) == Some(cached_after_all(blobs)));
        }
    }
}

/// Clients that join mid-stream can decode the next keyframe: from the first
/// blob with parameter sets on, every keyframe that is muxed carries an SPS. One
/// that came without it also carries a PPS, where no blob ends in a bare start
/// code, and still its IDR, where it opens with a start code.
pub proof fn law_late_joiners_can_decode(blobs: Seq<Seq<u8>>, i: int, j: int)
    requires
        forall|k: int|
            0 <= k < blobs.len() ==> (#[trigger] blobs[k]).len() <= usize::MAX / 3,
        0 <= i <= j < blobs.len(),
        sps_pps_of(blobs[i]) is Some,
        has_nal_type(blobs[j], NAL_IDR),
    ensures
        ({
            let payload = payload_of(cached_after_all(blobs.take(j + 1)), blobs[j]);
            &&& has_nal_type(payload, NAL_SPS)
            &&& needs_parameter_sets(blobs[j]) && (forall|k: int|
                0 <= k <= j ==> !ends_in_bare_start_code(#[trigger] blobs[k])) ==> has_nal_type(
                payload,
                NAL_PPS,
            ) && (opens_with_start_code(blobs[j]) ==> has_nal_type(payload, NAL_IDR))
        }),
{
    let seen = blobs.take(j + 1);
    assert(seen[i] == blobs[i]);
    assert(seen[j] == blobs[j]);
    assert forall|k: int| 0 <= k < seen.len() implies (#[trigger] seen[k]).len() <= usize::MAX
        / 2 by {
        assert(seen[k] == blobs[k]);
    }
    lemma_cached_come_from_a_blob(seen, i);
    let k = choose|k: int|
        0 <= k < seen.len() && sps_pps_of(#[trigger] seen[k]) == Some(cached_after_all(seen));
    assert(seen[k] == blobs[k]);
    law_keyframes_carry_parameter_sets(seen[k], blobs[j]);
    if !ends_in_bare_start_code(seen[k]) && opens_with_start_code(blobs[j]) {
        law_extracted_parameter_sets(seen[k]);
        lemma_no_straddle(cached_after_all(seen), blobs[j]);
    }
}

/// Clients that are merely slow stay, and so does the order of all who stay.
pub proof fn law_slow_clients_stay<S>(clients: Seq<S>, outcomes: Seq<SendOutcome>)
    requires
        clients.len() == outcomes.len(),
        forall|i: int| 0 <= i < outcomes.len() ==> outcomes[i] != SendOutcome::Disconnected,
    ensures
        reachable(clients, outcomes) == clients,
    decreases clients.len(),
{
    if clients.len() > 0 {
        law_slow_clients_stay(clients.drop_last(), outcomes.drop_last());
        assert(clients.drop_last().push(clients.last()) =~= clients);
    } else {
        assert(reachable(clients, outcomes) =~= clients);
    }
}

/// What is left after a broadcast over two groups of clients is what is left
/// of the one, followed by what is left of the other.
pub proof fn law_broadcast_splits<S>(
    a: Seq<S>,
    b: Seq<S>,
    oa: Seq<SendOutcome>,
    ob: Seq<SendOutcome>,
)
    requires
        a.len() == oa.len(),
        b.len() == ob.len(),
    ensures
        reachable(a + b, oa + ob) == reachable(a, oa) + reachable(b, ob),
    decreases b.len(),
{
    if b.len() == 0 {
        assert(a + b =~= a);
        assert(oa + ob =~= oa);
        assert(reachable(a, oa) + reachable(b, ob) =~= reachable(a, oa));
    } else {
        law_broadcast_splits(a, b.drop_last(), oa, ob.drop_last());
        assert((a + b).drop_last() =~= a + b.drop_last());
        assert((oa + ob).drop_last() =~= oa + ob.drop_last());
        assert(reachable(a + b, oa + ob) =~= reachable(a, oa) + reachable(b, ob));
    }
}

/// A client leaves just where it is gone: one that took the chunk and one whose
/// queue is full stay.
pub proof fn law_only_gone_clients_leave<S>(client: S)
    ensures
        reachable(seq![client], seq![SendOutcome::Sent]) == seq![client],
        reachable(seq![client], seq![SendOutcome::Full]) == seq![client],
        reachable(seq![client], seq![SendOutcome::Disconnected]).len() == 0,
{
    reveal_with_fuel(reachable, 2);
    assert(seq![client].drop_last() =~= Seq::<S>::empty());
    assert(reachable(seq![client], seq![SendOutcome::Sent]) =~= seq![client]);
    assert(reachable(seq![client], seq![SendOutcome::Full]) =~= seq![client]);
}

/// Every client that is not gone is still there after a broadcast, and no one
/// else is.
pub proof fn law_everyone_else_stays<S>(clients: Seq<S>, outcomes: Seq<SendOutcome>)
    requires
        clients.len() == outcomes.len(),
    ensures
        forall|i: int|
            0 <= i < clients.len() && !(outcomes[i] is Disconnected) ==> reachable(
                clients,
                outcomes,
            ).contains(#[trigger] clients[i]),
        forall|j: int|
            0 <= j < reachable(clients, outcomes).len() ==> exists|i: int|
                0 <= i < clients.len() && !(outcomes[i] is Disconnected) && #[trigger] clients[i]
                    == #[trigger] reachable(clients, outcomes)[j],
        reachable(clients, outcomes).len() <= clients.len(),
    decreases clients.len(),
{
    if clients.len() > 0 {
        let a = clients.drop_last();
        let o = outcomes.drop_last();
        let before = reachable(a, o);
        let now = reachable(clients, outcomes);
        law_everyone_else_stays(a, o);
        assert forall|i: int| 0 <= i < clients.len() && !(outcomes[i] is Disconnected) implies
            now.contains(#[trigger] clients[i]) by {
            if i < clients.len() - 1 {
                assert(a[i] == clients[i]);
                assert(o[i] == outcomes[i]);
                let k = before.index_of(a[i]);
                assert(now[k] == before[k]);
            } else {
                assert(now[now.len() - 1] == clients[i]);
            }
        }
        assert forall|j: int| 0 <= j < now.len() implies exists|i: int|
            0 <= i < clients.len() && !(outcomes[i] is Disconnected) && #[trigger] clients[i]
                == #[trigger] now[j] by {
            if j < before.len() {
                assert(now[j] == before[j]);
                let i = choose|i: int|
                    0 <= i < a.len() && !(o[i] is Disconnected) && #[trigger] a[i] == before[j];
                assert(clients[i] == a[i]);
                assert(outcomes[i] == o[i]);
            } else {
                assert(now[j] == clients[clients.len() - 1]);
            }
        }
    }
}

/// A chunk that a client took stands behind all that it got before; from one
/// that did not take it nothing else was taken away or added either.
pub proof fn law_chunks_arrive_in_order(
    before: std::sync::mpsc::SyncSender<Arc<Vec<u8>>>,
    after: std::sync::mpsc::SyncSender<Arc<Vec<u8>>>,
    chunk: Seq<u8>,
    outcome: SendOutcome,
)
    requires
        offered(before, after, chunk, outcome),
    ensures
        sent_chunks(before).is_prefix_of(sent_chunks(after)),
        outcome is Sent ==> sent_chunks(after).len() == sent_chunks(before).len() + 1
            && sent_chunks(after).last() == chunk,
        outcome is Full || outcome is Disconnected ==> sent_chunks(after) == sent_chunks(before),
        queue_bound(after) == queue_bound(before),
{
}

/// What is muxed always ends in the blob as it came, and nothing but the kept
/// parameter sets can stand in front of it: they do just where the blob has an
/// IDR (type 5) and no SPS (type 7).
pub proof fn law_blob_is_muxed_whole(cached: Seq<u8>, blob: Seq<u8>)
    ensures
        payload_of(cached, blob).skip(payload_of(cached, blob).len() - blob.len()) == blob,
        !has_nal_type(blob, 5) ==> payload_of(cached, blob) == blob,
        has_nal_type(blob, 7) ==> payload_of(cached, blob) == blob,
        has_nal_type(blob, 5) && !has_nal_type(blob, 7) ==> payload_of(cached, blob).take(
            cached.len() as int,
        ) == cached && payload_of(cached, blob).len() == cached.len() + blob.len(),
{
    assert(payload_of(cached, blob).skip(payload_of(cached, blob).len() - blob.len()) =~= blob);
    assert((cached + blob).take(cached.len() as int) =~= cached);
}

/// The first parameter sets are kept: those at hand stay, and where there are
/// none yet, those of the blob are taken where it has both.
pub proof fn law_parameter_sets_at_hand(cached: Seq<u8>, blob: Seq<u8>)
    ensures
        cached.len() > 0 ==> cached_after(cached, blob) == cached,
        cached.len() == 0 && sps_pps_of(blob) is Some ==> sps_pps_of(blob) == Some(
            cached_after(cached, blob),
        ),
        cached.len() == 0 && sps_pps_of(blob) is None ==> cached_after(cached, blob).len() == 0,
{
}

} // verus!
