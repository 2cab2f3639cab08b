//! Splitting long audio into chunks the speech-to-text service accepts:
//! when a file is too large, where to cut (at silences when possible,
//! otherwise at fixed lengths) and how far neighbouring chunks overlap.

use vstd::prelude::*;
use crate::ffmpeg::SilencePoint;
use crate::types::AppErrorView;

verus! {

// ---------------------------------------------------------------------------
// Types
// ---------------------------------------------------------------------------

/// A piece of audio cut for separate transcription.
#[derive(Debug)]
pub struct AudioChunk {
    /// Start, in milliseconds from the start of the audio.
    pub start_ms: u64,
    /// End, in milliseconds from the start of the audio.
    pub end_ms: u64,
    /// Start of the region shared with the previous chunk.
    pub overlap_start_ms: Option<u64>,
    /// End of the region shared with the next chunk.
    pub overlap_end_ms: Option<u64>,
    /// Path of the chunk's audio file.
    pub path: String,
    /// Index in the chunk list.
    pub idx: u32,
    /// Number of chunks.
    pub total: u32,
}

impl AudioChunk {
    pub fn duration_ms(&self) -> (d: u64)
        requires
            self.start_ms <= self.end_ms,
        ensures
            d == self.end_ms - self.start_ms,
    {
        self.end_ms - self.start_ms
    }

    /// The same chunk with the given overlap bounds.
    pub fn with_overlap(self, overlap_start: Option<u64>, overlap_end: Option<u64>) -> (c: AudioChunk)
        ensures
            c == (AudioChunk { overlap_start_ms: overlap_start, overlap_end_ms: overlap_end, ..self }),
    {
        let mut c = self;
        c.overlap_start_ms = overlap_start;
        c.overlap_end_ms = overlap_end;
        c
    }
}

// ---------------------------------------------------------------------------
// When to chunk
// ---------------------------------------------------------------------------

/// The largest chunk aimed for: 80 MiB.
pub const MAX_CHUNK_SIZE_BYTES: u64 = 83886080;

/// The service's upload limit: 100 MiB.
pub const GROQ_FILE_LIMIT_BYTES: u64 = 104857600;

/// Whether extracted audio of this size must be split (it exceeds 100 MiB).
pub fn should_chunk(audio_size_bytes: u64) -> (r: bool)
    ensures
        r == (audio_size_bytes > GROQ_FILE_LIMIT_BYTES),
{
    audio_size_bytes > GROQ_FILE_LIMIT_BYTES
}

// ---------------------------------------------------------------------------
// Fixed-size boundaries
// ---------------------------------------------------------------------------

/// The number of pieces of length `max` needed to cover `total`.
pub open spec fn fixed_count(total: nat, max: nat) -> nat {
    if total == 0 || max == 0 { 0 } else { ((total - 1) as nat / max + 1) as nat }
}

/// The smaller of two numbers.
pub open spec fn min_nat(a: nat, b: nat) -> nat {
    if a <= b { a } else { b }
}

/// Consecutive pieces of length `max` from 0, the last one cut at `total`.
pub open spec fn fixed_boundaries(total: u64, max: u64) -> Seq<(u64, u64)> {
    Seq::new(
        fixed_count(total as nat, max as nat),
        |k: int| ((k * max) as u64, min_nat((k * max + max) as nat, total as nat) as u64),
    )
}

/// Whether fixed-size splitting terminates and stays within `u64`: nothing
/// to split, or a positive length whose multiples up to the last piece's
/// end fit in `u64`.
pub open spec fn fixed_in_range(total: u64, max: u64) -> bool {
    total == 0 || (max > 0 && fixed_count(total as nat, max as nat) * max <= u64::MAX)
}

proof fn lemma_below_count(k: nat, total: nat, max: nat)
    requires
        max > 0,
        k * max < total,
    ensures
        k + 1 <= fixed_count(total, max),
{
    let q = (total - 1) as nat / max;
    assert(k <= q) by (nonlinear_arith)
        requires
            max > 0,
            k * max <= total - 1,
            q == (total - 1) as nat / max,
    ;
}

proof fn lemma_exact_count(k: nat, total: nat, max: nat)
    requires
        max > 0,
        total > 0,
        k > 0,
        (k - 1) * max < total,
        total <= k * max,
    ensures
        k == fixed_count(total, max),
{
    let q = (total - 1) as nat / max;
    assert(q == k - 1) by (nonlinear_arith)
        requires
            max > 0,
            k > 0,
            (k - 1) * max <= total - 1,
            total - 1 < k * max,
            q == (total - 1) as nat / max,
    ;
}

proof fn lemma_mul_le(a: nat, b: nat, m: nat)
    requires
        a <= b,
    ensures
        a * m <= b * m,
{
    assert(a * m <= b * m) by (nonlinear_arith)
        requires
            a <= b,
    ;
}

/// Splits `[0, total_duration_ms)` into consecutive pieces of
/// `max_chunk_duration_ms`, the last piece ending at the total.
pub fn calculate_fixed_size_boundaries(total_duration_ms: u64, max_chunk_duration_ms: u64) -> (r: Result<Vec<(u64, u64)>, AppErrorView>)
    requires
        fixed_in_range(total_duration_ms, max_chunk_duration_ms),
    ensures
        r matches Ok(b) && b@ == fixed_boundaries(total_duration_ms, max_chunk_duration_ms),
{
    let total = total_duration_ms;
    let max = max_chunk_duration_ms;
    let mut boundaries: Vec<(u64, u64)> = Vec::new();
    let mut current_start_ms: u64 = 0;
    let ghost mut k: nat = 0;
    while current_start_ms < total
        invariant
            fixed_in_range(total, max),
            total > 0 ==> max > 0,
            current_start_ms <= total,
            current_start_ms < total ==> current_start_ms == k * max,
            current_start_ms == total && total > 0 ==> k > 0 && (k - 1) * max < total && total <= k * max,
            total == 0 ==> k == 0,
            boundaries@ == Seq::new(
                k,
                |j: int| ((j * max) as u64, min_nat((j * max + max) as nat, total as nat) as u64),
            ),
        decreases total - current_start_ms,
    {
        proof {
            lemma_below_count(k, total as nat, max as nat);
            lemma_mul_le(k + 1, fixed_count(total as nat, max as nat), max as nat);
            assert((k + 1) * max == k * max + max) by (nonlinear_arith);
        }
        let next = current_start_ms + max;
        let chunk_end = if next < total { next } else { total };
        boundaries.push((current_start_ms, chunk_end));
        proof {
            let f = |j: int| ((j * max) as u64, min_nat((j * max + max) as nat, total as nat) as u64);
            assert(boundaries@ =~= Seq::new(k + 1, f));
        }
        current_start_ms = chunk_end;
        proof {
            assert((k + 1) * max == k * max + max) by (nonlinear_arith);
            k = k + 1;
        }
    }
    proof {
        if total > 0 {
            lemma_exact_count(k, total as nat, max as nat);
        }
    }
    Ok(boundaries)
}

// ---------------------------------------------------------------------------
// Boundaries at silences
// ---------------------------------------------------------------------------

/// The silence starts and ends, in order: start of the first silence, end of
/// the first, start of the second, and so on.
pub open spec fn silence_edges(points: Seq<SilencePoint>) -> Seq<u64> {
    Seq::new(2 * points.len(), |i: int| if i % 2 == 0 { points[i / 2].start_ms } else { points[i / 2].end_ms })
}

/// Closes pieces until `target` lies at most `max` past the open piece's
/// start `cur`. Each closed piece ends at the candidate cut `cand`, the
/// latest silence edge seen within reach of the piece's start, when there is
/// one (`cand > cur`), and otherwise `max` past its start. Gives the pieces,
/// the open piece's start and its candidate cut (none left: equal to the
/// start). A zero `max` closes nothing here.
pub open spec fn close_until(b: Seq<(u64, u64)>, cur: u64, cand: u64, target: u64, max: u64) -> (Seq<(u64, u64)>, u64, u64)
    decreases if target > cur { target - cur } else { 0 },
{
    if max == 0 || target <= cur || target - cur <= max {
        (b, cur, cand)
    } else {
        let c: u64 = if cand > cur { cand } else { (cur + max) as u64 };
        close_until(b.push((cur, c)), c, c, target, max)
    }
}

/// One silence edge `e` taken into the state (pieces, open start, candidate
/// cut). An edge at or before the open start changes nothing. Otherwise the
/// pieces that cannot reach `e` are closed first; then `e` closes the open
/// piece when it lies `max` or more past its start, and else becomes the
/// candidate cut when it is the latest edge seen.
pub open spec fn silence_step(s: (Seq<(u64, u64)>, u64, u64), e: u64, max: u64) -> (Seq<(u64, u64)>, u64, u64) {
    if e <= s.1 {
        s
    } else {
        let (b, cur, cand) = close_until(s.0, s.1, s.2, e, max);
        if e - cur >= max {
            (b.push((cur, e)), e, e)
        } else {
            (b, cur, if cand > e { cand } else { e })
        }
    }
}

/// The state after the first `n` silence edges, from no pieces and an open
/// piece at 0 with no candidate cut.
pub open spec fn silence_cuts_upto(edges: Seq<u64>, max: u64, n: nat) -> (Seq<(u64, u64)>, u64, u64)
    decreases n,
{
    if n == 0 {
        (Seq::empty(), 0, 0)
    } else {
        silence_step(silence_cuts_upto(edges, max, (n - 1) as nat), edges[n - 1], max)
    }
}

/// The chunk boundaries: pieces cut at silence edges where one lies within
/// reach, at `max` past a piece's start where none does, and the rest up to
/// the total; fixed-size pieces when there are no silences (or nothing came
/// of them).
pub open spec fn chunk_boundaries(total: u64, points: Seq<SilencePoint>, max: u64) -> Seq<(u64, u64)> {
    if points.len() == 0 {
        fixed_boundaries(total, max)
    } else {
        let edges = silence_edges(points);
        let s = silence_cuts_upto(edges, max, edges.len());
        let (b, cur, _cand) = close_until(s.0, s.1, s.2, total, max);
        let b2 = if cur < total { b.push((cur, total)) } else { b };
        if b2.len() == 0 { fixed_boundaries(total, max) } else { b2 }
    }
}

/// Whether every piece is at most `max` long.
pub open spec fn pieces_within(b: Seq<(u64, u64)>, max: u64) -> bool {
    forall|i: int| 0 <= i < b.len() ==> #[trigger] b[i].1 - b[i].0 <= max
}

/// Whether pieces form a chain from 0 to `cur` (no pieces when `cur` is 0).
pub open spec fn is_chain_to(b: Seq<(u64, u64)>, cur: u64) -> bool {
    &&& b.len() == 0 ==> cur == 0
    &&& b.len() > 0 ==> b[0].0 == 0 && b.last().1 == cur && cur > 0
    &&& forall|i: int| 0 <= i < b.len() ==> #[trigger] b[i].0 < b[i].1
    &&& forall|i: int| 0 <= i < b.len() - 1 ==> #[trigger] b[i].1 == b[i + 1].0
}

proof fn lemma_chain_push(b: Seq<(u64, u64)>, cur: u64, c: u64, max: u64)
    requires
        is_chain_to(b, cur),
        cur < c,
    ensures
        is_chain_to(b.push((cur, c)), c),
        pieces_within(b, max) && c - cur <= max ==> pieces_within(b.push((cur, c)), max),
{
    let b2 = b.push((cur, c));
    assert forall|i: int| 0 <= i < b2.len() - 1 implies #[trigger] b2[i].1 == b2[i + 1].0 by {
        if i < b.len() - 1 {
            assert(b2[i] == b[i] && b2[i + 1] == b[i + 1]);
        }
    }
    assert forall|i: int| 0 <= i < b2.len() implies #[trigger] b2[i].0 < b2[i].1 by {
        if i < b.len() {
            assert(b2[i] == b[i]);
        }
    }
    if pieces_within(b, max) && c - cur <= max {
        assert forall|i: int| 0 <= i < b2.len() implies #[trigger] b2[i].1 - b2[i].0 <= max by {
            if i < b.len() {
                assert(b2[i] == b[i]);
            }
        }
    }
}

proof fn lemma_close_until(b: Seq<(u64, u64)>, cur: u64, cand: u64, target: u64, max: u64)
    requires
        cur <= cand <= cur + max,
    ensures
        ({
            let r = close_until(b, cur, cand, target, max);
            &&& cur <= r.1 <= r.2 <= r.1 + max
            &&& r.1 == cur || r.1 < target
            &&& r.1 == cur ==> r == (b, cur, cand)
            &&& max > 0 ==> target <= r.1 + max
            &&& is_chain_to(b, cur) ==> is_chain_to(r.0, r.1)
            &&& pieces_within(b, max) ==> pieces_within(r.0, max)
        }),
    decreases if target > cur { target - cur } else { 0 },
{
    if max == 0 || target <= cur || target - cur <= max {
    } else {
        let c: u64 = if cand > cur { cand } else { (cur + max) as u64 };
        if is_chain_to(b, cur) {
            lemma_chain_push(b, cur, c, max);
        } else if pieces_within(b, max) {
            let b2 = b.push((cur, c));
            assert forall|i: int| 0 <= i < b2.len() implies #[trigger] b2[i].1 - b2[i].0 <= max by {
                if i < b.len() {
                    assert(b2[i] == b[i]);
                }
            }
        }
        lemma_close_until(b.push((cur, c)), c, c, target, max);
    }
}

proof fn lemma_silence_cuts(edges: Seq<u64>, max: u64, total: u64, n: nat)
    requires
        n <= edges.len(),
    ensures
        ({
            let s = silence_cuts_upto(edges, max, n);
            &&& is_chain_to(s.0, s.1)
            &&& s.1 <= s.2 <= s.1 + max
            &&& max > 0 ==> pieces_within(s.0, max)
            &&& (forall|i: int| 0 <= i < edges.len() ==> #[trigger] edges[i] <= total) ==> s.1 <= total
        }),
    decreases n,
{
    if n > 0 {
        lemma_silence_cuts(edges, max, total, (n - 1) as nat);
        let s = silence_cuts_upto(edges, max, (n - 1) as nat);
        let e = edges[n - 1];
        if e > s.1 {
            lemma_close_until(s.0, s.1, s.2, e, max);
            let (b, cur, cand) = close_until(s.0, s.1, s.2, e, max);
            if e - cur >= max {
                lemma_chain_push(b, cur, e, max);
            }
        }
    }
}

/// Chooses chunk boundaries (start and end in milliseconds) so that no piece
/// is longer than `max_chunk_duration_ms`: each piece ends at the latest
/// silence edge within reach of its start, or at the maximum length where no
/// silence lies within reach; the last piece ends at the total duration.
/// Fixed-size pieces when no silence was found.
pub fn calculate_chunk_boundaries(
    total_duration_ms: u64,
    silence_points: &[SilencePoint],
    max_chunk_duration_ms: u64,
) -> (r: Result<Vec<(u64, u64)>, AppErrorView>)
    requires
        silence_points@.len() > 0 || fixed_in_range(total_duration_ms, max_chunk_duration_ms),
    ensures
        r matches Ok(b) && b@ == chunk_boundaries(total_duration_ms, silence_points@, max_chunk_duration_ms),
{
    if silence_points.len() == 0 {
        return calculate_fixed_size_boundaries(total_duration_ms, max_chunk_duration_ms);
    }
    let ghost points = silence_points@;
    let mut silence_boundaries: Vec<u64> = Vec::new();
    let mut p: usize = 0;
    while p < silence_points.len()
        invariant
            p <= silence_points.len(),
            points == silence_points@,
            silence_boundaries@ == silence_edges(points.take(p as int)),
        decreases silence_points.len() - p,
    {
        silence_boundaries.push(silence_points[p].start_ms);
        silence_boundaries.push(silence_points[p].end_ms);
        assert(silence_boundaries@ =~= silence_edges(points.take(p + 1)));
        p += 1;
    }
    assert(points.take(p as int) =~= points);
    let ghost edges = silence_edges(points);
    let max = max_chunk_duration_ms;
    let mut boundaries: Vec<(u64, u64)> = Vec::new();
    let mut current_start_ms: u64 = 0;
    let mut candidate_ms: u64 = 0;
    let mut i: usize = 0;
    while i < silence_boundaries.len()
        invariant
            i <= silence_boundaries.len(),
            silence_boundaries@ == edges,
            (boundaries@, current_start_ms, candidate_ms) == silence_cuts_upto(edges, max, i as nat),
            current_start_ms <= candidate_ms <= current_start_ms + max,
        decreases silence_boundaries.len() - i,
    {
        let silence_boundary = silence_boundaries[i];
        if silence_boundary > current_start_ms {
            proof {
                lemma_close_until(boundaries@, current_start_ms, candidate_ms, silence_boundary, max);
            }
            let (start, cand) = close_pieces(&mut boundaries, current_start_ms, candidate_ms, silence_boundary, max);
            if silence_boundary - start >= max {
                boundaries.push((start, silence_boundary));
                current_start_ms = silence_boundary;
                candidate_ms = silence_boundary;
            } else {
                current_start_ms = start;
                candidate_ms = if cand > silence_boundary { cand } else { silence_boundary };
            }
        }
        i += 1;
    }
    proof {
        lemma_silence_cuts(edges, max, total_duration_ms, i as nat);
        lemma_close_until(boundaries@, current_start_ms, candidate_ms, total_duration_ms, max);
    }
    let (start, _cand) = close_pieces(&mut boundaries, current_start_ms, candidate_ms, total_duration_ms, max);
    if start < total_duration_ms {
        boundaries.push((start, total_duration_ms));
    }
    if boundaries.len() == 0 {
        assert(total_duration_ms == 0);
        return calculate_fixed_size_boundaries(total_duration_ms, max_chunk_duration_ms);
    }
    Ok(boundaries)
}

/// Closes pieces onto `boundaries` until `target` lies at most `max` past
/// the open piece's start (see `close_until`); gives the open piece's start
/// and candidate cut.
fn close_pieces(boundaries: &mut Vec<(u64, u64)>, cur: u64, cand: u64, target: u64, max: u64) -> (r: (u64, u64))
    requires
        cur <= cand <= cur + max,
    ensures
        (final(boundaries)@, r.0, r.1) == close_until(old(boundaries)@, cur, cand, target, max),
{
    let ghost res = close_until(old(boundaries)@, cur, cand, target, max);
    let mut cur = cur;
    let mut cand = cand;
    while max > 0 && target > cur && target - cur > max
        invariant
            cur <= cand <= cur + max,
            close_until(boundaries@, cur, cand, target, max) == res,
        decreases target - cur,
    {
        let c = if cand > cur { cand } else { cur + max };
        boundaries.push((cur, c));
        cur = c;
        cand = c;
    }
    (cur, cand)
}

// ---------------------------------------------------------------------------
// Overlaps
// ---------------------------------------------------------------------------

/// A boundary with its overlap bounds: every chunk but the first reaches
/// back `overlap` before its start (when its start exceeds `overlap`), and
/// every chunk but the last reaches `overlap` past its end.
pub open spec fn with_overlaps(b: Seq<(u64, u64)>, overlap: u64) -> Seq<(u64, u64, Option<u64>, Option<u64>)> {
    Seq::new(
        b.len(),
        |i: int|
            (
                b[i].0,
                b[i].1,
                if i > 0 && b[i].0 > overlap { Some((b[i].0 - overlap) as u64) } else { None },
                if i < b.len() - 1 { Some((b[i].1 + overlap) as u64) } else { None },
            ),
    )
}

/// Whether every chunk end but the last, plus the overlap, fits in `u64`.
pub open spec fn overlaps_in_range(b: Seq<(u64, u64)>, overlap: u64) -> bool {
    forall|i: int| 0 <= i < b.len() - 1 ==> #[trigger] b[i].1 + overlap <= u64::MAX
}

/// Adds overlap regions to chunk boundaries.
pub fn add_overlaps(boundaries: Vec<(u64, u64)>, overlap_ms: u64) -> (r: Vec<(u64, u64, Option<u64>, Option<u64>)>)
    requires
        overlaps_in_range(boundaries@, overlap_ms),
    ensures
        r@ == with_overlaps(boundaries@, overlap_ms),
{
    let mut result: Vec<(u64, u64, Option<u64>, Option<u64>)> = Vec::new();
    let mut idx: usize = 0;
    while idx < boundaries.len()
        invariant
            idx <= boundaries.len(),
            overlaps_in_range(boundaries@, overlap_ms),
            result@ == with_overlaps(boundaries@, overlap_ms).take(idx as int),
        decreases boundaries.len() - idx,
    {
        let (start, end) = boundaries[idx];
        let mut overlap_start: Option<u64> = None;
        let mut overlap_end: Option<u64> = None;
        if idx > 0 && start > overlap_ms {
            overlap_start = Some(start - overlap_ms);
        }
        if idx < boundaries.len() - 1 {
            assert(boundaries@[idx as int].1 + overlap_ms <= u64::MAX);
            overlap_end = Some(end + overlap_ms);
        }
        result.push((start, end, overlap_start, overlap_end));
        assert(result@ =~= with_overlaps(boundaries@, overlap_ms).take(idx + 1));
        idx += 1;
    }
    assert(with_overlaps(boundaries@, overlap_ms).take(idx as int) =~= with_overlaps(boundaries@, overlap_ms));
    result
}

// ---------------------------------------------------------------------------
// Planning
// ---------------------------------------------------------------------------

/// The overlap between neighbouring chunks: five seconds.
pub const CHUNK_OVERLAP_MS: u64 = 5000;

/// Whether fixed-size splitting of `total` into pieces of `max` stays in
/// range (see `fixed_in_range`).
pub fn fixed_split_in_range(total: u64, max: u64) -> (r: bool)
    ensures
        r == fixed_in_range(total, max),
{
    if total == 0 {
        return true;
    }
    if max == 0 {
        return false;
    }
    let count: u64 = (total - 1) / max + 1;
    assert(count as nat == fixed_count(total as nat, max as nat));
    match count.checked_mul(max) {
        Some(_) => true,
        None => false,
    }
}

/// Whether every chunk end but the last, plus the overlap, fits in `u64`
/// (see `overlaps_in_range`).
pub fn overlaps_fit(boundaries: &[(u64, u64)], overlap_ms: u64) -> (r: bool)
    ensures
        r == overlaps_in_range(boundaries@, overlap_ms),
{
    let n = boundaries.len();
    if n == 0 {
        return true;
    }
    let mut i: usize = 0;
    while i < n - 1
        invariant
            n == boundaries@.len() > 0,
            i <= n - 1,
            forall|k: int| 0 <= k < i ==> #[trigger] boundaries@[k].1 + overlap_ms <= u64::MAX,
        decreases n - 1 - i,
    {
        if boundaries[i].1 > u64::MAX - overlap_ms {
            return false;
        }
        i += 1;
    }
    true
}

/// The chunks planned for audio of `total_duration_ms`: cut at silences
/// (or at fixed lengths of `max_chunk_duration_ms`), each reaching five
/// seconds into its neighbours. `None` where the plan does not stay within
/// `u64` (or fixed-size splitting would not terminate).
pub fn plan_chunks(
    total_duration_ms: u64,
    silence_points: &[SilencePoint],
    max_chunk_duration_ms: u64,
) -> (r: Option<Vec<(u64, u64, Option<u64>, Option<u64>)>>)
    ensures
        match r {
            Some(p) => (silence_points@.len() > 0 || fixed_in_range(total_duration_ms, max_chunk_duration_ms))
                && overlaps_in_range(chunk_boundaries(total_duration_ms, silence_points@, max_chunk_duration_ms), CHUNK_OVERLAP_MS)
                && p@ == with_overlaps(chunk_boundaries(total_duration_ms, silence_points@, max_chunk_duration_ms), CHUNK_OVERLAP_MS),
            None => !(silence_points@.len() > 0 || fixed_in_range(total_duration_ms, max_chunk_duration_ms))
                || !overlaps_in_range(chunk_boundaries(total_duration_ms, silence_points@, max_chunk_duration_ms), CHUNK_OVERLAP_MS),
        },
{
    if silence_points.len() == 0 && !fixed_split_in_range(total_duration_ms, max_chunk_duration_ms) {
        return None;
    }
    let boundaries = match calculate_chunk_boundaries(total_duration_ms, silence_points, max_chunk_duration_ms) {
        Ok(b) => b,
        Err(_) => return None,
    };
    if !overlaps_fit(boundaries.as_slice(), CHUNK_OVERLAP_MS) {
        return None;
    }
    Some(add_overlaps(boundaries, CHUNK_OVERLAP_MS))
}

/// The chunks of a plan, with the paths of their audio files.
pub open spec fn chunks_of_plan(plan: Seq<(u64, u64, Option<u64>, Option<u64>)>, paths: Seq<String>) -> Seq<AudioChunk> {
    Seq::new(plan.len(), |i: int| AudioChunk {
        start_ms: plan[i].0,
        end_ms: plan[i].1,
        overlap_start_ms: plan[i].2,
        overlap_end_ms: plan[i].3,
        path: paths[i],
        idx: i as u32,
        total: plan.len() as u32,
    })
}

/// Builds the chunks of a plan once their audio files are cut.
pub fn chunks_from_plan(plan: &[(u64, u64, Option<u64>, Option<u64>)], paths: Vec<String>) -> (r: Vec<AudioChunk>)
    requires
        paths@.len() == plan@.len(),
    ensures
        r@ == chunks_of_plan(plan@, paths@),
{
    let total = plan.len() as u32;
    let mut paths = paths;
    let mut r: Vec<AudioChunk> = Vec::new();
    let ghost all_paths = paths@;
    let mut i: usize = 0;
    while i < plan.len()
        invariant
            i <= plan.len(),
            all_paths.len() == plan@.len(),
            paths@ == all_paths.skip(i as int),
            total == plan@.len() as u32,
            r@ == chunks_of_plan(plan@, all_paths).take(i as int),
        decreases plan.len() - i,
    {
        let path = paths.remove(0);
        let (start, end, ostart, oend) = plan[i];
        r.push(AudioChunk {
            start_ms: start,
            end_ms: end,
            overlap_start_ms: ostart,
            overlap_end_ms: oend,
            path,
            idx: i as u32,
            total,
        });
        assert(paths@ =~= all_paths.skip(i + 1));
        assert(r@ =~= chunks_of_plan(plan@, all_paths).take(i + 1));
        i += 1;
    }
    assert(chunks_of_plan(plan@, all_paths).take(i as int) =~= chunks_of_plan(plan@, all_paths));
    r
}

// ---------------------------------------------------------------------------
// Laws
// ---------------------------------------------------------------------------

/// Whether the pieces cover `[0, total)` exactly: none for an empty total,
/// otherwise non-empty pieces, each starting where the previous one ends,
/// from 0 to `total`.
pub open spec fn is_partition(b: Seq<(u64, u64)>, total: u64) -> bool {
    &&& (b.len() == 0 <==> total == 0)
    &&& b.len() > 0 ==> b[0].0 == 0 && b.last().1 == total
    &&& forall|i: int| 0 <= i < b.len() ==> #[trigger] b[i].0 < b[i].1
    &&& forall|i: int| 0 <= i < b.len() - 1 ==> #[trigger] b[i].1 == b[i + 1].0
}

/// Fixed-size boundaries cover the duration exactly, in non-empty,
/// contiguous pieces from 0 to the total.
pub proof fn lemma_fixed_boundaries_partition(total: u64, max: u64)
    requires
        fixed_in_range(total, max),
    ensures
        is_partition(fixed_boundaries(total, max), total),
{
    let b = fixed_boundaries(total, max);
    if total > 0 {
        let c = fixed_count(total as nat, max as nat);
        let q = (total - 1) as nat / max as nat;
        assert(c == q + 1);
        let r = (total - 1) as nat % max as nat;
        vstd::arithmetic::div_mod::lemma_fundamental_div_mod((total - 1) as int, max as int);
        vstd::arithmetic::div_mod::lemma_mod_pos_bound((total - 1) as int, max as int);
        assert(q * max <= total - 1) by (nonlinear_arith)
            requires (total - 1) == max * q + r, 0 <= r < max;
        assert(c * max >= total) by (nonlinear_arith)
            requires (total - 1) == max * q + r, 0 <= r < max, c == q + 1;
        assert forall|i: int| 0 <= i < b.len() implies #[trigger] b[i].0 < b[i].1 by {
            lemma_mul_le(i as nat, q, max as nat);
        }
        assert forall|i: int| 0 <= i < b.len() - 1 implies #[trigger] b[i].1 == b[i + 1].0 by {
            lemma_mul_le((i + 1) as nat, q, max as nat);
            assert(i * max + max == (i + 1) * max) by (nonlinear_arith);
        }
        assert(b[0].0 == 0);
        assert(b.last().1 == total) by {
            assert((c - 1) * max + max == c * max) by (nonlinear_arith);
        }
    }
}

/// No fixed-size piece is longer than the length asked for.
pub proof fn lemma_fixed_boundaries_bounded(total: u64, max: u64)
    requires
        fixed_in_range(total, max),
    ensures
        pieces_within(fixed_boundaries(total, max), max),
{
    let b = fixed_boundaries(total, max);
    if total > 0 {
        let c = fixed_count(total as nat, max as nat);
        assert forall|i: int| 0 <= i < b.len() implies #[trigger] b[i].1 - b[i].0 <= max by {
            lemma_mul_le((i + 1) as nat, c, max as nat);
            assert(i * max + max == (i + 1) * max) by (nonlinear_arith);
            assert(0 <= i * max) by (nonlinear_arith) requires 0 <= i, 0 <= max;
        }
    }
}

/// When every silence lies within the duration, the chosen boundaries
/// cover the duration exactly, in non-empty, contiguous pieces from 0 to
/// the total.
pub proof fn lemma_chunk_boundaries_partition(total: u64, points: Seq<SilencePoint>, max: u64)
    requires
        points.len() > 0 || fixed_in_range(total, max),
        forall|i: int| 0 <= i < points.len() ==> (#[trigger] points[i]).start_ms <= total && points[i].end_ms <= total,
    ensures
        is_partition(chunk_boundaries(total, points, max), total),
{
    if points.len() == 0 {
        lemma_fixed_boundaries_partition(total, max);
    } else {
        let edges = silence_edges(points);
        assert forall|i: int| 0 <= i < edges.len() implies #[trigger] edges[i] <= total by {
            assert(points[i / 2].start_ms <= total);
        }
        lemma_silence_cuts(edges, max, total, edges.len());
        let s = silence_cuts_upto(edges, max, edges.len());
        lemma_close_until(s.0, s.1, s.2, total, max);
        let (b, cur, _cand) = close_until(s.0, s.1, s.2, total, max);
        if cur < total {
            lemma_chain_push(b, cur, total, max);
        } else if b.len() == 0 {
            lemma_fixed_boundaries_partition(total, max);
        }
    }
}

/// With a positive maximum, no chosen piece is longer than the maximum,
/// wherever the silences lie.
pub proof fn lemma_chunk_boundaries_bounded(total: u64, points: Seq<SilencePoint>, max: u64)
    requires
        points.len() > 0 || fixed_in_range(total, max),
        max > 0,
    ensures
        pieces_within(chunk_boundaries(total, points, max), max),
{
    if points.len() == 0 {
        lemma_fixed_boundaries_bounded(total, max);
    } else {
        let edges = silence_edges(points);
        lemma_silence_cuts(edges, max, total, edges.len());
        let s = silence_cuts_upto(edges, max, edges.len());
        lemma_close_until(s.0, s.1, s.2, total, max);
        let (b, cur, _cand) = close_until(s.0, s.1, s.2, total, max);
        if cur < total {
            lemma_chain_push(b, cur, total, max);
        } else if b.len() == 0 {
            lemma_fixed_boundaries_bounded(total, max);
        }
    }
}

/// Whether every piece ends at the total, at one of the silence edges, or
/// exactly `max` past its start.
pub open spec fn cuts_at_silence_or_max(b: Seq<(u64, u64)>, edges: Seq<u64>, total: u64, max: u64) -> bool {
    forall|i: int| 0 <= i < b.len() ==> {
        ||| (#[trigger] b[i]).1 == total
        ||| edges.contains(b[i].1)
        ||| b[i].1 - b[i].0 == max
    }
}

proof fn lemma_push_cut(b: Seq<(u64, u64)>, p: (u64, u64), edges: Seq<u64>, total: u64, max: u64)
    requires
        cuts_at_silence_or_max(b, edges, total, max),
        p.1 == total || edges.contains(p.1) || p.1 - p.0 == max,
    ensures
        cuts_at_silence_or_max(b.push(p), edges, total, max),
{
    let b2 = b.push(p);
    assert forall|i: int| 0 <= i < b2.len() implies {
        ||| (#[trigger] b2[i]).1 == total
        ||| edges.contains(b2[i].1)
        ||| b2[i].1 - b2[i].0 == max
    } by {
        if i < b.len() {
            assert(b2[i] == b[i]);
        }
    }
}

proof fn lemma_close_until_cuts(b: Seq<(u64, u64)>, cur: u64, cand: u64, target: u64, max: u64, edges: Seq<u64>, total: u64)
    requires
        cur <= cand <= cur + max,
        cand == cur || edges.contains(cand),
        cuts_at_silence_or_max(b, edges, total, max),
    ensures
        ({
            let r = close_until(b, cur, cand, target, max);
            &&& r.2 == r.1 || edges.contains(r.2)
            &&& cuts_at_silence_or_max(r.0, edges, total, max)
        }),
    decreases if target > cur { target - cur } else { 0 },
{
    if max == 0 || target <= cur || target - cur <= max {
    } else {
        let c: u64 = if cand > cur { cand } else { (cur + max) as u64 };
        lemma_push_cut(b, (cur, c), edges, total, max);
        lemma_close_until_cuts(b.push((cur, c)), c, c, target, max, edges, total);
    }
}

proof fn lemma_silence_cuts_at_edges(edges: Seq<u64>, max: u64, total: u64, n: nat)
    requires
        n <= edges.len(),
    ensures
        ({
            let s = silence_cuts_upto(edges, max, n);
            &&& s.2 == s.1 || edges.contains(s.2)
            &&& cuts_at_silence_or_max(s.0, edges, total, max)
        }),
    decreases n,
{
    if n > 0 {
        lemma_silence_cuts_at_edges(edges, max, total, (n - 1) as nat);
        lemma_silence_cuts(edges, max, total, (n - 1) as nat);
        let s = silence_cuts_upto(edges, max, (n - 1) as nat);
        let e = edges[n - 1];
        assert(edges.contains(e));
        if e > s.1 {
            lemma_close_until(s.0, s.1, s.2, e, max);
            lemma_close_until_cuts(s.0, s.1, s.2, e, max, edges, total);
            let (b, cur, cand) = close_until(s.0, s.1, s.2, e, max);
            if e - cur >= max {
                lemma_push_cut(b, (cur, e), edges, total, max);
            }
        }
    }
}

/// Where there are silences, every piece ends at the total duration, at a
/// silence start or end, or exactly the maximum length past its start.
pub proof fn lemma_chunk_cuts_at_silence_or_max(total: u64, points: Seq<SilencePoint>, max: u64)
    requires
        points.len() > 0,
    ensures
        cuts_at_silence_or_max(chunk_boundaries(total, points, max), silence_edges(points), total, max),
{
    let edges = silence_edges(points);
    lemma_silence_cuts(edges, max, total, edges.len());
    lemma_silence_cuts_at_edges(edges, max, total, edges.len());
    let s = silence_cuts_upto(edges, max, edges.len());
    lemma_close_until(s.0, s.1, s.2, total, max);
    lemma_close_until_cuts(s.0, s.1, s.2, total, max, edges, total);
    let (b, cur, _cand) = close_until(s.0, s.1, s.2, total, max);
    if cur < total {
        lemma_push_cut(b, (cur, total), edges, total, max);
    } else if b.len() == 0 {
        assert(fixed_boundaries(total, max).len() == 0);
    }
}

} // verus!
