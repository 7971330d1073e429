//! Scan replies: decoding a data block into samples, and the series of
//! replies that one scan request produces.
use crate::codec::{decode6, decode6_spec};
use crate::command::{
    continuation_status, multi_scan, multi_scan_command, ok_status, record_width, single_scan,
    ScanKind,
};
use crate::error::{ErrorView, UrgError};
use crate::exchange::{initial, Body, Exchange};
use vstd::prelude::*;
use vstd::slice::slice_subrange;

verus! {

/// One scan: its timestamp, its distances, and its intensities (empty when
/// the scan carries none).
#[derive(Debug, PartialEq, Eq)]
pub struct UrgPayload {
    pub time_stamp: u32,
    pub distance: Vec<u32>,
    pub intensity: Vec<u32>,
}

/// The `i`-th three-byte value of a block whose samples are `width` bytes
/// wide, taken `offset` bytes into the sample.
pub open spec fn sample_at(block: Seq<u8>, width: nat, offset: nat, i: int) -> u32 {
    decode6_spec(block.subrange(i * width + offset, i * width + offset + 3)) as u32
}

/// The three-byte values at `offset` of every sample of the block.
pub open spec fn samples(block: Seq<u8>, width: nat, offset: nat) -> Seq<u32> {
    Seq::new(block.len() / width, |i: int| sample_at(block, width, offset, i))
}

/// The distances of a block of samples of this kind.
pub open spec fn block_distances(kind: ScanKind, block: Seq<u8>) -> Seq<u32> {
    samples(block, record_width(kind), 0)
}

/// The intensities of a block of samples of this kind.
pub open spec fn block_intensities(kind: ScanKind, block: Seq<u8>) -> Seq<u32> {
    match kind {
        ScanKind::Distance => Seq::empty(),
        ScanKind::DistanceIntensity => samples(block, 6, 3),
    }
}

/// The block is a whole number of samples.
pub open spec fn is_whole_block(kind: ScanKind, block: Seq<u8>) -> bool {
    block.len() % record_width(kind) == 0
}

/// Decodes a data block into distances and, for a distance and intensity
/// scan, intensities.
pub fn decode_samples(kind: ScanKind, block: &[u8]) -> (r: Result<(Vec<u32>, Vec<u32>), UrgError>)
    ensures
        match r {
            Ok((d, i)) => {
                &&& is_whole_block(kind, block@)
                &&& d@ == block_distances(kind, block@)
                &&& i@ == block_intensities(kind, block@)
                &&& d@.len() == block@.len() / record_width(kind)
                &&& kind == ScanKind::DistanceIntensity ==> i@.len() == d@.len()
                &&& kind == ScanKind::Distance ==> i@.len() == 0
            },
            Err(e) => !is_whole_block(kind, block@) && e@ == (ErrorView::MalformedBlock {
                len: block@.len(),
                width: record_width(kind),
            }),
        },
{
    let width: usize = match kind {
        ScanKind::Distance => 3,
        ScanKind::DistanceIntensity => 6,
    };
    if block.len() % width != 0 {
        return Err(UrgError::MalformedBlock { len: block.len(), width });
    }
    let len: usize = block.len();
    let n: usize = len / width;
    proof {
        vstd::arithmetic::div_mod::lemma_fundamental_div_mod(block@.len() as int, width as int);
    }
    let mut distance: Vec<u32> = Vec::new();
    let mut intensity: Vec<u32> = Vec::new();
    let mut i: usize = 0;
    let mut pos: usize = 0;
    while i < n
        invariant
            width == record_width(kind),
            len == block@.len(),
            n == block@.len() / (width as nat),
            block@.len() == n * width,
            i <= n,
            pos == i * width,
            distance@ == block_distances(kind, block@).subrange(0, i as int),
            intensity@ == block_intensities(kind, block@).subrange(
                0,
                match kind {
                    ScanKind::Distance => 0,
                    ScanKind::DistanceIntensity => i as int,
                },
            ),
        decreases n - i,
    {
        assert(pos + width <= len) by (nonlinear_arith)
            requires
                pos == i * width,
                i < n,
                len == n * width,
        ;
        let d = decode6(slice_subrange(block, pos, pos + 3));
        distance.push(d);
        assert(distance@ =~= block_distances(kind, block@).subrange(0, i as int + 1));
        match kind {
            ScanKind::Distance => {},
            ScanKind::DistanceIntensity => {
                let v = decode6(slice_subrange(block, pos + 3, pos + 6));
                intensity.push(v);
                assert(intensity@ =~= block_intensities(kind, block@).subrange(0, i as int + 1));
            },
        }
        proof {
            assert((i + 1) * width == i * width + width) by (nonlinear_arith);
        }
        i = i + 1;
        pos = pos + width;
    }
    assert(distance@ =~= block_distances(kind, block@));
    assert(intensity@ =~= block_intensities(kind, block@));
    Ok((distance, intensity))
}

/// Decodes the scan that a completed reply carries.
pub fn payload_of(kind: ScanKind, reply: &Exchange) -> (r: Result<UrgPayload, UrgError>)
    ensures
        match r {
            Ok(p) => {
                &&& is_whole_block(kind, reply@.block)
                &&& p.time_stamp == reply@.time_stamp
                &&& p.distance@ == block_distances(kind, reply@.block)
                &&& p.intensity@ == block_intensities(kind, reply@.block)
                &&& p.distance@.len() == reply@.block.len() / record_width(kind)
                &&& kind == ScanKind::DistanceIntensity ==> p.intensity@.len() == p.distance@.len()
                &&& kind == ScanKind::Distance ==> p.intensity@.len() == 0
            },
            Err(e) => !is_whole_block(kind, reply@.block) && e@ == (ErrorView::MalformedBlock {
                len: reply@.block.len(),
                width: record_width(kind),
            }),
        },
{
    match decode_samples(kind, reply.block().as_slice()) {
        Ok((distance, intensity)) => Ok(UrgPayload { time_stamp: reply.time_stamp(), distance, intensity }),
        Err(e) => Err(e),
    }
}

/// The exchange of a single scan.
pub fn single_scan_exchange(kind: ScanKind, start_step: u32, end_step: u32, cluster_count: u32) -> (r:
    Exchange)
    ensures
        r@ == initial(
            crate::command::single_scan_command(kind, start_step, end_step, cluster_count),
            ok_status(),
            true,
            Body::Scan,
        ),
{
    Exchange::send(
        single_scan(kind, start_step, end_step, cluster_count),
        crate::command::two_bytes(0x30, 0x30),
        Body::Scan,
    )
}

/// The series of scan replies that one scan request produces.
///
/// A scan count of zero asks for scans until the caller stops; a count `n`
/// above zero asks for exactly `n` scans. Each reply of the series answers
/// the request again: its echo carries the number of scans still to come,
/// and its status is `99`.
#[derive(Debug)]
pub struct ScanStream {
    kind: ScanKind,
    start_step: u32,
    end_step: u32,
    cluster_count: u32,
    scan_skip_count: u32,
    scan_count: u32,
    remaining: Option<u32>,
    stopped: bool,
}

/// The mathematical value of a [`ScanStream`].
pub ghost struct ScanStreamView {
    pub kind: ScanKind,
    pub start_step: u32,
    pub end_step: u32,
    pub cluster_count: u32,
    pub scan_skip_count: u32,
    pub scan_count: u32,
    /// Scans still to come in a bounded series; `None` in an unbounded one.
    pub remaining: Option<u32>,
    /// The caller has asked for no further scan.
    pub stopped: bool,
}

impl View for ScanStream {
    type V = ScanStreamView;

    closed spec fn view(&self) -> ScanStreamView {
        ScanStreamView {
            kind: self.kind,
            start_step: self.start_step,
            end_step: self.end_step,
            cluster_count: self.cluster_count,
            scan_skip_count: self.scan_skip_count,
            scan_count: self.scan_count,
            remaining: self.remaining,
            stopped: self.stopped,
        }
    }
}

/// A series that has delivered nothing yet.
pub open spec fn fresh(
    kind: ScanKind,
    start_step: u32,
    end_step: u32,
    cluster_count: u32,
    scan_skip_count: u32,
    scan_count: u32,
) -> ScanStreamView {
    ScanStreamView {
        kind,
        start_step,
        end_step,
        cluster_count,
        scan_skip_count,
        scan_count,
        remaining: if scan_count == 0 {
            None
        } else {
            Some(scan_count)
        },
        stopped: false,
    }
}

/// Another reply of the series can be read.
pub open spec fn can_pull(v: ScanStreamView) -> bool {
    !v.stopped && v.remaining != Some(0u32)
}

/// The scan count that the echo of the next reply carries.
pub open spec fn continuation_count(v: ScanStreamView) -> u32 {
    match v.remaining {
        Some(n) => (n - 1) as u32,
        None => 0,
    }
}

/// The command whose echo opens the next reply.
pub open spec fn continuation_command(v: ScanStreamView) -> Seq<u8> {
    multi_scan_command(
        v.kind,
        v.start_step,
        v.end_step,
        v.cluster_count,
        v.scan_skip_count,
        continuation_count(v),
    )
}

/// The series after one more reply was asked for.
pub open spec fn pulled(v: ScanStreamView) -> ScanStreamView {
    match v.remaining {
        Some(n) => ScanStreamView { remaining: Some((n - 1) as u32), ..v },
        None => v,
    }
}

/// The series after the caller stopped it.
pub open spec fn stopped(v: ScanStreamView) -> ScanStreamView {
    ScanStreamView { stopped: true, ..v }
}

impl ScanStream {
    /// A series of `scan_count` scans, or an unbounded one when it is zero.
    pub fn new(
        kind: ScanKind,
        start_step: u32,
        end_step: u32,
        cluster_count: u32,
        scan_skip_count: u32,
        scan_count: u32,
    ) -> (r: ScanStream)
        ensures
            r@ == fresh(kind, start_step, end_step, cluster_count, scan_skip_count, scan_count),
    {
        ScanStream {
            kind,
            start_step,
            end_step,
            cluster_count,
            scan_skip_count,
            scan_count,
            remaining: if scan_count == 0 {
                None
            } else {
                Some(scan_count)
            },
            stopped: false,
        }
    }

    pub fn kind(&self) -> (r: ScanKind)
        ensures
            r == self@.kind,
    {
        self.kind
    }

    /// The exchange that asks for the series: the command with the full scan
    /// count, status `00`, and an empty block.
    pub fn request(&self) -> (r: Exchange)
        ensures
            r@ == initial(
                multi_scan_command(
                    self@.kind,
                    self@.start_step,
                    self@.end_step,
                    self@.cluster_count,
                    self@.scan_skip_count,
                    self@.scan_count,
                ),
                ok_status(),
                true,
                Body::Block,
            ),
    {
        Exchange::send(
            multi_scan(
                self.kind,
                self.start_step,
                self.end_step,
                self.cluster_count,
                self.scan_skip_count,
                self.scan_count,
            ),
            crate::command::two_bytes(0x30, 0x30),
            Body::Block,
        )
    }

    /// The exchange of the next reply of the series, or `None` when the series
    /// is over. The device sends the reply unasked: nothing is written.
    pub fn next_exchange(&mut self) -> (r: Option<Exchange>)
        ensures
            match r {
                Some(x) => can_pull(old(self)@) && final(self)@ == pulled(old(self)@) && x@
                    == initial(
                    continuation_command(old(self)@),
                    continuation_status(),
                    false,
                    Body::Scan,
                ),
                None => !can_pull(old(self)@) && final(self)@ == old(self)@,
            },
    {
        if self.stopped {
            return None;
        }
        let count: u32 = match self.remaining {
            Some(n) => {
                if n == 0 {
                    return None;
                }
                self.remaining = Some(n - 1);
                n - 1
            },
            None => 0,
        };
        let command = multi_scan(
            self.kind,
            self.start_step,
            self.end_step,
            self.cluster_count,
            self.scan_skip_count,
            count,
        );
        Some(Exchange::verify_only(command, crate::command::two_bytes(0x39, 0x39), Body::Scan))
    }

    /// Asks for no further reply.
    pub fn stop(&mut self)
        ensures
            final(self)@ == stopped(old(self)@),
    {
        self.stopped = true;
    }

    /// No further reply will be read.
    pub fn is_finished(&self) -> (r: bool)
        ensures
            r == !can_pull(self@),
    {
        self.stopped || self.remaining == Some(0u32)
    }
}

/// The series after `k` replies were asked for.
pub open spec fn pulls(v: ScanStreamView, k: nat) -> ScanStreamView
    decreases k,
{
    if k == 0 {
        v
    } else {
        pulled(pulls(v, (k - 1) as nat))
    }
}

proof fn lemma_pulls_remaining(v: ScanStreamView, n: u32, k: nat)
    requires
        v.remaining == Some(n),
        !v.stopped,
        k <= n,
    ensures
        pulls(v, k) == (ScanStreamView { remaining: Some((n - k) as u32), ..v }),
    decreases k,
{
    if k > 0 {
        lemma_pulls_remaining(v, n, (k - 1) as nat);
    }
}

/// A series of `n > 0` scans yields exactly `n` replies: the `j`-th reply
/// (from zero) echoes the request with `n - 1 - j` scans still to come, and
/// after the `n`-th the series is over.
pub proof fn lemma_bounded_series(
    kind: ScanKind,
    start_step: u32,
    end_step: u32,
    cluster_count: u32,
    scan_skip_count: u32,
    n: u32,
)
    requires
        n > 0,
    ensures
        forall|j: nat|
            j < n ==> can_pull(
                #[trigger] pulls(fresh(kind, start_step, end_step, cluster_count, scan_skip_count, n), j),
            ) && continuation_command(
                pulls(fresh(kind, start_step, end_step, cluster_count, scan_skip_count, n), j),
            ) == multi_scan_command(
                kind,
                start_step,
                end_step,
                cluster_count,
                scan_skip_count,
                (n - 1 - j) as u32,
            ),
        !can_pull(
            pulls(fresh(kind, start_step, end_step, cluster_count, scan_skip_count, n), n as nat),
        ),
{
    let v = fresh(kind, start_step, end_step, cluster_count, scan_skip_count, n);
    assert forall|j: nat| j < n implies can_pull(#[trigger] pulls(v, j)) && continuation_command(
        pulls(v, j),
    ) == multi_scan_command(
        kind,
        start_step,
        end_step,
        cluster_count,
        scan_skip_count,
        (n - 1 - j) as u32,
    ) by {
        lemma_pulls_remaining(v, n, j);
    }
    lemma_pulls_remaining(v, n, n as nat);
}

/// The series after `i` rounds in which a reply is read and the caller then
/// stops the series when `answers` says so for that reply.
pub open spec fn rounds(v: ScanStreamView, answers: Seq<bool>, i: nat) -> ScanStreamView
    decreases i,
{
    if i == 0 {
        v
    } else {
        let p = pulled(rounds(v, answers, (i - 1) as nat));
        if answers[i - 1] {
            stopped(p)
        } else {
            p
        }
    }
}

proof fn lemma_rounds_unbounded(v: ScanStreamView, answers: Seq<bool>, i: nat)
    requires
        v.remaining is None,
        !v.stopped,
        i <= answers.len(),
        forall|j: int| 0 <= j < i ==> !answers[j],
    ensures
        rounds(v, answers, i) == v,
    decreases i,
{
    if i > 0 {
        lemma_rounds_unbounded(v, answers, (i - 1) as nat);
    }
}

/// An unbounded series whose caller stops it after the `k`-th reply, and not
/// before, yields exactly `k` replies: a reply can be read in each of the
/// first `k` rounds, and none after them.
pub proof fn lemma_unbounded_series_stops(
    kind: ScanKind,
    start_step: u32,
    end_step: u32,
    cluster_count: u32,
    scan_skip_count: u32,
    answers: Seq<bool>,
    k: nat,
)
    requires
        1 <= k <= answers.len(),
        answers[k - 1],
        forall|j: int| 0 <= j < k - 1 ==> !answers[j],
    ensures
        forall|i: nat|
            i < k ==> can_pull(
                #[trigger] rounds(
                    fresh(kind, start_step, end_step, cluster_count, scan_skip_count, 0),
                    answers,
                    i,
                ),
            ),
        !can_pull(
            rounds(fresh(kind, start_step, end_step, cluster_count, scan_skip_count, 0), answers, k),
        ),
{
    let v = fresh(kind, start_step, end_step, cluster_count, scan_skip_count, 0);
    assert forall|i: nat| i < k implies can_pull(#[trigger] rounds(v, answers, i)) by {
        lemma_rounds_unbounded(v, answers, i);
    }
    lemma_rounds_unbounded(v, answers, (k - 1) as nat);
}

} // verus!
