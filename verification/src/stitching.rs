//! Merging the transcripts of audio chunks into one transcript: local
//! segment times become global, segments that the next chunk repeats in an
//! overlap window are dropped, texts are joined and segments are ordered by
//! start time.
//!
//! Segment times are held in milliseconds.

use vstd::prelude::*;
use crate::text::{
    chars_of, char_is_alphanumeric, is_alphanumeric, is_spaced_words, is_white_space, is_whitespace,
    join_words, join_words_exec, lemma_join_spaced, lemma_spaced_words_trimmed,
    lemma_words_of_word_chars, lowercase, push_char, push_str, split_words, to_lowercase, trim, words,
};
use crate::types::{AppErrorView, TranscriptSegment};

verus! {

broadcast use vstd::string::group_string_axioms;

// ---------------------------------------------------------------------------
// Types
// ---------------------------------------------------------------------------

/// A segment timed relative to the start of its chunk, in milliseconds.
#[derive(Debug)]
pub struct SegmentLocal {
    pub start_ms: u64,
    pub end_ms: u64,
    pub text: String,
}

impl Clone for SegmentLocal {
    fn clone(&self) -> (r: Self)
        ensures
            r == *self,
    {
        SegmentLocal { start_ms: self.start_ms, end_ms: self.end_ms, text: self.text.clone() }
    }
}

/// The transcript of one audio chunk.
#[derive(Debug)]
pub struct ChunkTranscript {
    /// Chunk index (0-based).
    pub chunk_idx: u32,
    /// Chunk start (global, milliseconds).
    pub chunk_start_ms: u64,
    /// Chunk end (global, milliseconds).
    pub chunk_end_ms: u64,
    /// Start of the region shared with the previous chunk.
    pub overlap_start_ms: Option<u64>,
    /// End of the region shared with the next chunk.
    pub overlap_end_ms: Option<u64>,
    /// Full text of the chunk.
    pub text: String,
    /// Segments, timed relative to the chunk start.
    pub segments: Vec<SegmentLocal>,
}

impl Clone for ChunkTranscript {
    fn clone(&self) -> (r: Self)
        ensures
            r.chunk_idx == self.chunk_idx,
            r.chunk_start_ms == self.chunk_start_ms,
            r.chunk_end_ms == self.chunk_end_ms,
            r.overlap_start_ms == self.overlap_start_ms,
            r.overlap_end_ms == self.overlap_end_ms,
            r.text == self.text,
            r.segments@ == self.segments@,
    {
        let mut segments: Vec<SegmentLocal> = Vec::new();
        let mut i: usize = 0;
        while i < self.segments.len()
            invariant
                i <= self.segments.len(),
                segments@ == self.segments@.take(i as int),
            decreases self.segments.len() - i,
        {
            segments.push(self.segments[i].clone());
            assert(self.segments@.take(i as int).push(self.segments@[i as int]) =~= self.segments@.take(i + 1));
            i += 1;
        }
        assert(self.segments@.take(i as int) =~= self.segments@);
        ChunkTranscript {
            chunk_idx: self.chunk_idx,
            chunk_start_ms: self.chunk_start_ms,
            chunk_end_ms: self.chunk_end_ms,
            overlap_start_ms: self.overlap_start_ms,
            overlap_end_ms: self.overlap_end_ms,
            text: self.text.clone(),
            segments,
        }
    }
}

// ---------------------------------------------------------------------------
// Local to global time
// ---------------------------------------------------------------------------

/// A local segment moved to global time.
pub open spec fn to_global(seg: SegmentLocal, chunk_start_ms: u64) -> TranscriptSegment {
    TranscriptSegment {
        start_ms: (seg.start_ms + chunk_start_ms) as u64,
        end_ms: (seg.end_ms + chunk_start_ms) as u64,
        text: seg.text,
    }
}

/// The local segments moved to global time.
pub open spec fn globals(segs: Seq<SegmentLocal>, chunk_start_ms: u64) -> Seq<TranscriptSegment> {
    Seq::new(segs.len(), |i: int| to_global(segs[i], chunk_start_ms))
}

/// Whether the global times of the segments fit in `u64`.
pub open spec fn fits_globally(segs: Seq<SegmentLocal>, chunk_start_ms: u64) -> bool {
    forall|i: int| 0 <= i < segs.len() ==> {
        &&& #[trigger] segs[i].start_ms + chunk_start_ms <= u64::MAX
        &&& segs[i].end_ms + chunk_start_ms <= u64::MAX
    }
}

/// Converts segment times from local (relative to the chunk) to global.
pub fn convert_local_to_global(segments: &[SegmentLocal], chunk_start_ms: u64) -> (r: Vec<TranscriptSegment>)
    requires
        fits_globally(segments@, chunk_start_ms),
    ensures
        r@ == globals(segments@, chunk_start_ms),
{
    let mut r: Vec<TranscriptSegment> = Vec::new();
    let mut i: usize = 0;
    while i < segments.len()
        invariant
            i <= segments.len(),
            fits_globally(segments@, chunk_start_ms),
            r@ == globals(segments@, chunk_start_ms).take(i as int),
        decreases segments.len() - i,
    {
        let seg = &segments[i];
        assert(seg.start_ms + chunk_start_ms <= u64::MAX);
        r.push(TranscriptSegment {
            start_ms: seg.start_ms + chunk_start_ms,
            end_ms: seg.end_ms + chunk_start_ms,
            text: seg.text.clone(),
        });
        assert(r@ =~= globals(segments@, chunk_start_ms).take(i + 1));
        i += 1;
    }
    assert(globals(segments@, chunk_start_ms).take(i as int) =~= globals(segments@, chunk_start_ms));
    r
}

/// The segments (with their indices) of the first `n` local segments whose
/// global span meets the range `[range_start, range_end)`.
pub open spec fn segments_in_range_upto(
    segs: Seq<SegmentLocal>,
    chunk_start_ms: u64,
    range_start_ms: u64,
    range_end_ms: u64,
    n: nat,
) -> Seq<(usize, TranscriptSegment)>
    decreases n,
{
    if n == 0 {
        Seq::empty()
    } else {
        let prev = segments_in_range_upto(segs, chunk_start_ms, range_start_ms, range_end_ms, (n - 1) as nat);
        let g = to_global(segs[n - 1], chunk_start_ms);
        if g.start_ms < range_end_ms && g.end_ms > range_start_ms {
            prev.push(((n - 1) as usize, g))
        } else {
            prev
        }
    }
}

/// Finds the segments whose global span meets `[range_start_ms, range_end_ms)`,
/// with their indices.
pub fn find_segments_in_range(
    segments: &[SegmentLocal],
    chunk_start_ms: u64,
    range_start_ms: u64,
    range_end_ms: u64,
) -> (r: Vec<(usize, TranscriptSegment)>)
    requires
        fits_globally(segments@, chunk_start_ms),
    ensures
        r@ == segments_in_range_upto(segments@, chunk_start_ms, range_start_ms, range_end_ms, segments@.len()),
{
    let mut r: Vec<(usize, TranscriptSegment)> = Vec::new();
    let mut i: usize = 0;
    while i < segments.len()
        invariant
            i <= segments.len(),
            fits_globally(segments@, chunk_start_ms),
            r@ == segments_in_range_upto(segments@, chunk_start_ms, range_start_ms, range_end_ms, i as nat),
        decreases segments.len() - i,
    {
        let seg = &segments[i];
        assert(seg.start_ms + chunk_start_ms <= u64::MAX);
        let start_ms = seg.start_ms + chunk_start_ms;
        let end_ms = seg.end_ms + chunk_start_ms;
        if start_ms < range_end_ms && end_ms > range_start_ms {
            r.push((i, TranscriptSegment { start_ms, end_ms, text: seg.text.clone() }));
        }
        i += 1;
    }
    r
}

// ---------------------------------------------------------------------------
// Text similarity
// ---------------------------------------------------------------------------

/// The characters that survive normalisation: alphanumerics and white space.
pub open spec fn keep_for_comparison(s: Seq<char>) -> Seq<char>
    decreases s.len(),
{
    if s.len() == 0 {
        Seq::empty()
    } else {
        let rest = keep_for_comparison(s.drop_last());
        let c = s.last();
        if is_alphanumeric(c) || is_white_space(c) { rest.push(c) } else { rest }
    }
}

/// Text normalised for comparison: lower-cased, with everything but
/// alphanumerics and white space removed, and the words joined by single
/// spaces.
pub open spec fn normalized(text: Seq<char>) -> Seq<char> {
    join_words(words(keep_for_comparison(lowercase(text))))
}

/// Normalises text for comparison: lower case, no punctuation, single spaces.
pub fn normalize_text(text: &str) -> (r: String)
    ensures
        r@ == normalized(text@),
{
    let lower = to_lowercase(text);
    let lv = chars_of(lower.as_str());
    let mut kept: Vec<char> = Vec::new();
    let mut i: usize = 0;
    while i < lv.len()
        invariant
            i <= lv.len(),
            kept@ == keep_for_comparison(lv@.take(i as int)),
        decreases lv.len() - i,
    {
        let c = lv[i];
        assert(lv@.take(i + 1).drop_last() =~= lv@.take(i as int));
        if char_is_alphanumeric(c) || is_whitespace(c) {
            kept.push(c);
        }
        i += 1;
    }
    assert(lv@.take(i as int) =~= lv@);
    let ws = split_words(&kept);
    join_words_exec(&ws, Ghost(words(kept@)))
}

proof fn lemma_kept_chars(s: Seq<char>)
    ensures
        forall|i: int| 0 <= i < keep_for_comparison(s).len() ==>
            is_alphanumeric(#[trigger] keep_for_comparison(s)[i]) || is_white_space(keep_for_comparison(s)[i]),
    decreases s.len(),
{
    if s.len() > 0 {
        lemma_kept_chars(s.drop_last());
        let rest = keep_for_comparison(s.drop_last());
        let k = keep_for_comparison(s);
        assert forall|i: int| 0 <= i < k.len() implies is_alphanumeric(#[trigger] k[i]) || is_white_space(k[i]) by {
            if i < rest.len() {
                assert(k[i] == rest[i]);
            }
        }
    }
}

/// Normalised text is words of alphanumeric characters joined by single
/// spaces: every character is a space or alphanumeric, no space stands
/// first, last or next to another, and trimming changes nothing.
pub proof fn lemma_normalized_shape(text: Seq<char>)
    ensures
        is_spaced_words(normalized(text)),
        trim(normalized(text)) == normalized(text),
{
    let k = keep_for_comparison(lowercase(text));
    lemma_kept_chars(lowercase(text));
    assert forall|i: int| 0 <= i < k.len() && !is_white_space(#[trigger] k[i]) implies is_alphanumeric(k[i]) by {}
    lemma_words_of_word_chars(k);
    lemma_join_spaced(words(k));
    lemma_spaced_words_trimmed(normalized(text));
}

/// How many words of `w1[..n]` occur somewhere in `w2`.
pub open spec fn count_shared(w1: Seq<Seq<char>>, w2: Seq<Seq<char>>, n: nat) -> nat
    decreases n,
{
    if n == 0 {
        0
    } else {
        count_shared(w1, w2, (n - 1) as nat) + if w2.contains(w1[n - 1]) { 1nat } else { 0nat }
    }
}

/// The similarity of two texts as a fraction `(matches, total)`: `(1, 1)`
/// when both normalise to nothing, `(0, 1)` when one does, and otherwise the
/// number of words of the first that occur in the second over the larger
/// word count.
pub open spec fn similarity(text1: Seq<char>, text2: Seq<char>) -> (nat, nat) {
    let n1 = normalized(text1);
    let n2 = normalized(text2);
    if n1.len() == 0 && n2.len() == 0 {
        (1, 1)
    } else if n1.len() == 0 || n2.len() == 0 {
        (0, 1)
    } else {
        let w1 = words(n1);
        let w2 = words(n2);
        if w1.len() == 0 && w2.len() == 0 {
            (1, 1)
        } else {
            (count_shared(w1, w2, w1.len()), if w1.len() >= w2.len() { w1.len() } else { w2.len() })
        }
    }
}

/// Every word of a list occurs in the list, so the first `n` all count.
proof fn lemma_count_shared_self(w: Seq<Seq<char>>, n: nat)
    requires
        n <= w.len(),
    ensures
        count_shared(w, w, n) == n,
    decreases n,
{
    if n > 0 {
        lemma_count_shared_self(w, (n - 1) as nat);
        assert(w.contains(w[n - 1]));
    }
}

/// A text is fully similar to itself: the matches equal the total.
pub proof fn lemma_similarity_reflexive(text: Seq<char>)
    ensures
        similarity(text, text).0 == similarity(text, text).1,
        similarity(text, text).1 > 0,
{
    let w = words(normalized(text));
    lemma_count_shared_self(w, w.len());
}

/// Whether the similarity exceeds 80%.
pub open spec fn very_similar(text1: Seq<char>, text2: Seq<char>) -> bool {
    let (m, t) = similarity(text1, text2);
    5 * m > 4 * t
}

fn contains_word(ws: &Vec<Vec<char>>, w: &Vec<char>, Ghost(spec_ws): Ghost<Seq<Seq<char>>>) -> (r: bool)
    requires
        ws@.len() == spec_ws.len(),
        forall|i: int| 0 <= i < ws@.len() ==> #[trigger] ws@[i]@ == spec_ws[i],
    ensures
        r == spec_ws.contains(w@),
{
    let mut i: usize = 0;
    while i < ws.len()
        invariant
            i <= ws.len(),
            ws@.len() == spec_ws.len(),
            forall|k: int| 0 <= k < ws@.len() ==> #[trigger] ws@[k]@ == spec_ws[k],
            forall|k: int| 0 <= k < i ==> spec_ws[k] != w@,
        decreases ws.len() - i,
    {
        if vec_eq(&ws[i], w) {
            assert(spec_ws[i as int] == w@);
            return true;
        }
        i += 1;
    }
    false
}

fn vec_eq(a: &Vec<char>, b: &Vec<char>) -> (r: bool)
    ensures
        r == (a@ == b@),
{
    if a.len() != b.len() {
        return false;
    }
    let mut i: usize = 0;
    while i < a.len()
        invariant
            i <= a.len() == b.len(),
            forall|k: int| 0 <= k < i ==> a@[k] == b@[k],
        decreases a.len() - i,
    {
        if a[i] != b[i] {
            return false;
        }
        i += 1;
    }
    assert(a@ =~= b@);
    true
}

/// The similarity of two texts as the fraction `(matches, total)` of
/// shared normalised words (1 is identical, 0 entirely different).
pub fn calculate_text_similarity(text1: &str, text2: &str) -> (r: (usize, usize))
    ensures
        r.0 as nat == similarity(text1@, text2@).0,
        r.1 as nat == similarity(text1@, text2@).1,
{
    let norm1 = normalize_text(text1);
    let norm2 = normalize_text(text2);
    let v1 = chars_of(norm1.as_str());
    let v2 = chars_of(norm2.as_str());
    if v1.len() == 0 && v2.len() == 0 {
        return (1, 1);
    }
    if v1.len() == 0 || v2.len() == 0 {
        return (0, 1);
    }
    let tokens1 = split_words(&v1);
    let tokens2 = split_words(&v2);
    let ghost w1 = words(v1@);
    let ghost w2 = words(v2@);
    if tokens1.len() == 0 && tokens2.len() == 0 {
        return (1, 1);
    }
    let mut matches: usize = 0;
    let mut i: usize = 0;
    while i < tokens1.len()
        invariant
            i <= tokens1.len(),
            tokens1@.len() == w1.len(),
            forall|k: int| 0 <= k < tokens1@.len() ==> #[trigger] tokens1@[k]@ == w1[k],
            tokens2@.len() == w2.len(),
            forall|k: int| 0 <= k < tokens2@.len() ==> #[trigger] tokens2@[k]@ == w2[k],
            matches as nat == count_shared(w1, w2, i as nat),
            matches <= i,
        decreases tokens1.len() - i,
    {
        if contains_word(&tokens2, &tokens1[i], Ghost(w2)) {
            matches += 1;
        }
        i += 1;
    }
    let total = if tokens1.len() >= tokens2.len() { tokens1.len() } else { tokens2.len() };
    (matches, total)
}

/// The index in `next` of the first segment very similar to `prev`, looking
/// from index `j` on.
pub open spec fn first_similar_from(prev: TranscriptSegment, next: Seq<(usize, TranscriptSegment)>, j: nat) -> Option<usize>
    decreases next.len() - j,
{
    if j >= next.len() {
        None
    } else if very_similar(prev.text@, next[j as int].1.text@) {
        Some(next[j as int].0)
    } else {
        first_similar_from(prev, next, j + 1)
    }
}

/// For the first `n` previous segments, the index of the first very
/// similar next segment, where there is one.
pub open spec fn duplicates_upto(
    prev: Seq<(usize, TranscriptSegment)>,
    next: Seq<(usize, TranscriptSegment)>,
    n: nat,
) -> Seq<usize>
    decreases n,
{
    if n == 0 {
        Seq::empty()
    } else {
        let rest = duplicates_upto(prev, next, (n - 1) as nat);
        match first_similar_from(prev[n - 1].1, next, 0) {
            Some(j) => rest.push(j),
            None => rest,
        }
    }
}

fn first_similar(prev_seg: &TranscriptSegment, next_segments: &[(usize, TranscriptSegment)]) -> (r: Option<usize>)
    ensures
        r == first_similar_from(*prev_seg, next_segments@, 0),
{
    let mut j: usize = 0;
    while j < next_segments.len()
        invariant
            j <= next_segments.len(),
            first_similar_from(*prev_seg, next_segments@, 0) == first_similar_from(*prev_seg, next_segments@, j as nat),
        decreases next_segments.len() - j,
    {
        let next_seg = &next_segments[j];
        let (m, t) = calculate_text_similarity(prev_seg.text.as_str(), next_seg.1.text.as_str());
        if 5 * (m as u128) > 4 * (t as u128) {
            return Some(next_seg.0);
        }
        j += 1;
    }
    None
}

/// Finds duplicated segments in an overlap: for each segment of the previous
/// chunk, the index of the first segment of the next chunk more than 80%
/// similar to it. Returns (indices to skip in the previous chunk, which is
/// always empty, indices to skip in the next chunk).
pub fn deduplicate_overlap(
    prev_segments: &[(usize, TranscriptSegment)],
    next_segments: &[(usize, TranscriptSegment)],
) -> (r: (Vec<usize>, Vec<usize>))
    ensures
        r.0@.len() == 0,
        r.1@ == duplicates_upto(prev_segments@, next_segments@, prev_segments@.len()),
{
    let skip_prev: Vec<usize> = Vec::new();
    let mut skip_next: Vec<usize> = Vec::new();
    let mut i: usize = 0;
    while i < prev_segments.len()
        invariant
            i <= prev_segments.len(),
            skip_next@ == duplicates_upto(prev_segments@, next_segments@, i as nat),
        decreases prev_segments.len() - i,
    {
        let prev_seg = &prev_segments[i].1;
        let found = first_similar(prev_seg, next_segments);
        if let Some(j) = found {
            skip_next.push(j);
        }
        i += 1;
    }
    (skip_prev, skip_next)
}

// ---------------------------------------------------------------------------
// Ordering by start time
// ---------------------------------------------------------------------------

/// Inserts `x` after every element whose start is at most its own, from the
/// back (the step of a stable insertion sort).
pub open spec fn insert_by_start(s: Seq<TranscriptSegment>, x: TranscriptSegment) -> Seq<TranscriptSegment>
    decreases s.len(),
{
    if s.len() == 0 {
        seq![x]
    } else if s.last().start_ms <= x.start_ms {
        s.push(x)
    } else {
        insert_by_start(s.drop_last(), x).push(s.last())
    }
}

/// `s` stably sorted by start time (`sort_by_key(|s| s.start_ms)`).
pub open spec fn sort_by_start(s: Seq<TranscriptSegment>) -> Seq<TranscriptSegment>
    decreases s.len(),
{
    if s.len() == 0 {
        Seq::empty()
    } else {
        insert_by_start(sort_by_start(s.drop_last()), s.last())
    }
}

/// Whether segments are ordered by start time.
pub open spec fn sorted_by_start(s: Seq<TranscriptSegment>) -> bool {
    forall|i: int, j: int| 0 <= i < j < s.len() ==> s[i].start_ms <= s[j].start_ms
}

proof fn lemma_insert_at(s: Seq<TranscriptSegment>, x: TranscriptSegment, p: int)
    requires
        0 <= p <= s.len(),
        forall|k: int| p <= k < s.len() ==> s[k].start_ms > x.start_ms,
        p > 0 ==> s[p - 1].start_ms <= x.start_ms,
    ensures
        insert_by_start(s, x) == s.insert(p, x),
    decreases s.len(),
{
    if s.len() == 0 {
        assert(s.insert(p, x) =~= seq![x]);
    } else if p == s.len() {
        assert(s.insert(p, x) =~= s.push(x));
    } else {
        lemma_insert_at(s.drop_last(), x, p);
        assert(s.drop_last().insert(p, x).push(s.last()) =~= s.insert(p, x));
    }
}

/// Inserting into a sorted sequence keeps it sorted and adds one element.
pub proof fn lemma_insert_by_start_sorted(s: Seq<TranscriptSegment>, x: TranscriptSegment)
    requires
        sorted_by_start(s),
    ensures
        sorted_by_start(insert_by_start(s, x)),
        insert_by_start(s, x).to_multiset() == s.to_multiset().insert(x),
    decreases s.len(),
{
    broadcast use vstd::seq_lib::group_to_multiset_ensures;
    if s.len() == 0 {
        assert(seq![x] =~= Seq::<TranscriptSegment>::empty().push(x));
    } else if s.last().start_ms <= x.start_ms {
    } else {
        let d = s.drop_last();
        assert(sorted_by_start(d));
        lemma_insert_by_start_sorted(d, x);
        let t = insert_by_start(d, x);
        assert(s =~= d.push(s.last()));
        assert forall|k: int| 0 <= k < t.len() implies t[k].start_ms <= s.last().start_ms by {
            assert(t.to_multiset().count(t[k]) > 0);
            assert(d.to_multiset().insert(x).count(t[k]) > 0);
            if t[k] != x {
                assert(d.to_multiset().count(t[k]) > 0);
                assert(d.contains(t[k]));
            }
        }
        assert(t.push(s.last()).to_multiset() =~= s.to_multiset().insert(x));
    }
}

proof fn lemma_insert_by_start_len(s: Seq<TranscriptSegment>, x: TranscriptSegment)
    ensures
        insert_by_start(s, x).len() == s.len() + 1,
    decreases s.len(),
{
    if s.len() > 0 {
        lemma_insert_by_start_len(s.drop_last(), x);
    }
}

/// Sorting by start time yields a sorted permutation of the input.
pub proof fn lemma_sort_by_start_sorted(s: Seq<TranscriptSegment>)
    ensures
        sorted_by_start(sort_by_start(s)),
        sort_by_start(s).to_multiset() == s.to_multiset(),
        sort_by_start(s).len() == s.len(),
    decreases s.len(),
{
    broadcast use vstd::seq_lib::group_to_multiset_ensures;
    if s.len() > 0 {
        lemma_sort_by_start_sorted(s.drop_last());
        lemma_insert_by_start_sorted(sort_by_start(s.drop_last()), s.last());
        lemma_insert_by_start_len(sort_by_start(s.drop_last()), s.last());
        assert(s =~= s.drop_last().push(s.last()));
    }
}

/// Stably sorts segments by start time.
pub fn sort_segments_by_start(segments: Vec<TranscriptSegment>) -> (r: Vec<TranscriptSegment>)
    ensures
        r@ == sort_by_start(segments@),
{
    let mut r: Vec<TranscriptSegment> = Vec::new();
    let mut rest = segments;
    let ghost input = rest@;
    let mut taken: Vec<TranscriptSegment> = Vec::new();
    let mut i: usize = 0;
    let n = rest.len();
    while i < n
        invariant
            n == input.len(),
            i <= n,
            rest@.len() == n,
            rest@ == input,
            r@ == sort_by_start(input.take(i as int)),
        decreases n - i,
    {
        let x = rest[i].clone();
        let mut p = r.len();
        while p > 0 && r[p - 1].start_ms > x.start_ms
            invariant
                p <= r.len(),
                forall|k: int| p <= k < r@.len() ==> r@[k].start_ms > x.start_ms,
            decreases p,
        {
            p -= 1;
        }
        proof {
            lemma_insert_at(r@, x, p as int);
            assert(input.take(i + 1).drop_last() =~= input.take(i as int));
        }
        r.insert(p, x);
        i += 1;
    }
    assert(input.take(n as int) =~= input);
    r
}

// ---------------------------------------------------------------------------
// Stitching
// ---------------------------------------------------------------------------

/// The overlap window between chunk `i` and chunk `i + 1`: both overlap
/// bounds present and the next chunk's start below the current chunk's end.
pub open spec fn overlap_window(chunks: Seq<ChunkTranscript>, i: int) -> Option<(u64, u64)> {
    match (chunks[i].overlap_end_ms, chunks[i + 1].overlap_start_ms) {
        (Some(overlap_end), Some(overlap_start)) => if overlap_start < overlap_end {
            Some((overlap_start, overlap_end))
        } else {
            None
        },
        _ => None,
    }
}

/// The segments that do not start inside `[lo, hi)`.
pub open spec fn outside_window(s: Seq<TranscriptSegment>, lo: u64, hi: u64) -> Seq<TranscriptSegment>
    decreases s.len(),
{
    if s.len() == 0 {
        Seq::empty()
    } else {
        let rest = outside_window(s.drop_last(), lo, hi);
        if lo <= s.last().start_ms && s.last().start_ms < hi { rest } else { rest.push(s.last()) }
    }
}

/// The global segments that chunk `idx` contributes: all of them, except
/// that those starting inside the overlap window with the previous chunk
/// are dropped (the previous chunk already has them).
pub open spec fn kept_segments(chunks: Seq<ChunkTranscript>, idx: int) -> Seq<TranscriptSegment> {
    let g = globals(chunks[idx].segments@, chunks[idx].chunk_start_ms);
    if idx > 0 {
        match overlap_window(chunks, idx - 1) {
            Some((lo, hi)) => outside_window(g, lo, hi),
            None => g,
        }
    } else {
        g
    }
}

/// The kept segments of the first `k` chunks, in chunk order.
pub open spec fn kept_upto(chunks: Seq<ChunkTranscript>, k: nat) -> Seq<TranscriptSegment>
    decreases k,
{
    if k == 0 { Seq::empty() } else { kept_upto(chunks, (k - 1) as nat) + kept_segments(chunks, k - 1) }
}

/// The texts of the first `k` chunks joined, with a space between two
/// non-empty parts.
pub open spec fn joined_text_upto(chunks: Seq<ChunkTranscript>, k: nat) -> Seq<char>
    decreases k,
{
    if k == 0 {
        Seq::empty()
    } else {
        let t = joined_text_upto(chunks, (k - 1) as nat);
        let c = chunks[k - 1].text@;
        if t.len() > 0 && c.len() > 0 { t + seq![' '] + c } else { t + c }
    }
}

/// Whether every chunk's segments fit in `u64` once moved to global time.
pub open spec fn chunks_fit_globally(chunks: Seq<ChunkTranscript>) -> bool {
    forall|i: int| 0 <= i < chunks.len() ==> fits_globally(#[trigger] chunks[i].segments@, chunks[i].chunk_start_ms)
}

/// The text and segments of the stitched transcript. No chunks give an
/// empty transcript; one chunk gives its text and its segments in global
/// time; several give the joined texts and the kept segments sorted by
/// start time.
pub open spec fn stitched(chunks: Seq<ChunkTranscript>) -> (Seq<char>, Seq<TranscriptSegment>) {
    if chunks.len() == 0 {
        (Seq::empty(), Seq::empty())
    } else if chunks.len() == 1 {
        (chunks[0].text@, globals(chunks[0].segments@, chunks[0].chunk_start_ms))
    } else {
        (joined_text_upto(chunks, chunks.len()), sort_by_start(kept_upto(chunks, chunks.len())))
    }
}

/// A stitched transcript of several chunks lists its segments by start
/// time, and they are exactly the segments the chunks keep (each chunk's
/// segments in global time, minus those a chunk repeats from the overlap
/// with the previous one).
pub proof fn lemma_stitched_sorted(chunks: Seq<ChunkTranscript>)
    requires
        chunks.len() > 1,
    ensures
        sorted_by_start(stitched(chunks).1),
        stitched(chunks).1.to_multiset() == kept_upto(chunks, chunks.len()).to_multiset(),
{
    lemma_sort_by_start_sorted(kept_upto(chunks, chunks.len()));
}

/// What is left after dropping a window starts outside it, and is a part
/// of what there was.
proof fn lemma_outside_window(s: Seq<TranscriptSegment>, lo: u64, hi: u64)
    ensures
        forall|k: int| 0 <= k < outside_window(s, lo, hi).len() ==>
            !(lo <= #[trigger] outside_window(s, lo, hi)[k].start_ms && outside_window(s, lo, hi)[k].start_ms < hi),
        forall|k: int| 0 <= k < outside_window(s, lo, hi).len() ==> s.contains(#[trigger] outside_window(s, lo, hi)[k]),
    decreases s.len(),
{
    if s.len() > 0 {
        lemma_outside_window(s.drop_last(), lo, hi);
        let rest = outside_window(s.drop_last(), lo, hi);
        assert forall|k: int| 0 <= k < rest.len() implies s.contains(#[trigger] rest[k]) by {
            let j = choose|j: int| 0 <= j < s.drop_last().len() && s.drop_last()[j] == rest[k];
            assert(s[j] == rest[k]);
        }
        assert(s[s.len() - 1] == s.last());
    }
}

/// No chunk after the first keeps a segment starting in its overlap window
/// with the previous chunk: those were already heard at the end of the
/// previous chunk. Every kept segment is one of the chunk's own.
pub proof fn lemma_kept_outside_overlap(chunks: Seq<ChunkTranscript>, idx: int, lo: u64, hi: u64)
    requires
        0 < idx < chunks.len(),
        overlap_window(chunks, idx - 1) == Some((lo, hi)),
    ensures
        forall|k: int| 0 <= k < kept_segments(chunks, idx).len() ==>
            !(lo <= #[trigger] kept_segments(chunks, idx)[k].start_ms && kept_segments(chunks, idx)[k].start_ms < hi),
        forall|k: int| 0 <= k < kept_segments(chunks, idx).len() ==>
            globals(chunks[idx].segments@, chunks[idx].chunk_start_ms).contains(#[trigger] kept_segments(chunks, idx)[k]),
{
    lemma_outside_window(globals(chunks[idx].segments@, chunks[idx].chunk_start_ms), lo, hi);
}

fn drop_in_window(segments: Vec<TranscriptSegment>, lo: u64, hi: u64) -> (r: Vec<TranscriptSegment>)
    ensures
        r@ == outside_window(segments@, lo, hi),
{
    let mut r: Vec<TranscriptSegment> = Vec::new();
    let mut i: usize = 0;
    while i < segments.len()
        invariant
            i <= segments.len(),
            r@ == outside_window(segments@.take(i as int), lo, hi),
        decreases segments.len() - i,
    {
        let s = &segments[i];
        assert(segments@.take(i + 1).drop_last() =~= segments@.take(i as int));
        if !(lo <= s.start_ms && s.start_ms < hi) {
            r.push(s.clone());
        }
        i += 1;
    }
    assert(segments@.take(i as int) =~= segments@);
    r
}

/// Merges chunk transcripts into one transcript: times become global,
/// segments of a chunk that start inside its overlap window with the
/// previous chunk are dropped, texts are joined with spaces and segments
/// are sorted by start time.
pub fn stitch_chunks(chunks: Vec<ChunkTranscript>) -> (r: Result<(String, Vec<TranscriptSegment>), AppErrorView>)
    requires
        chunks_fit_globally(chunks@),
    ensures
        r matches Ok((text, segments)) && text@ == stitched(chunks@).0 && segments@ == stitched(chunks@).1,
{
    Ok(stitch_slice(chunks.as_slice()))
}

/// Stitches borrowed chunk transcripts (see `stitch_chunks`).
pub fn stitch_slice(chunks: &[ChunkTranscript]) -> (r: (String, Vec<TranscriptSegment>))
    requires
        chunks_fit_globally(chunks@),
    ensures
        r.0@ == stitched(chunks@).0,
        r.1@ == stitched(chunks@).1,
{
    if chunks.len() == 0 {
        return (String::new(), Vec::new());
    }
    assert(fits_globally(chunks@[0].segments@, chunks@[0].chunk_start_ms));
    if chunks.len() == 1 {
        let chunk = &chunks[0];
        let segments = convert_local_to_global(chunk.segments.as_slice(), chunk.chunk_start_ms);
        let text = chunk.text.clone();
        return (text, segments);
    }
    let n = chunks.len();
    let mut windows: Vec<Option<(u64, u64)>> = Vec::new();
    let mut i: usize = 0;
    while i < n - 1
        invariant
            n == chunks@.len() >= 2,
            i <= n - 1,
            chunks_fit_globally(chunks@),
            windows@.len() == i,
            forall|k: int| 0 <= k < i ==> #[trigger] windows@[k] == overlap_window(chunks@, k),
        decreases n - 1 - i,
    {
        let curr_chunk = &chunks[i];
        let next_chunk = &chunks[i + 1];
        let mut window: Option<(u64, u64)> = None;
        match (curr_chunk.overlap_end_ms, next_chunk.overlap_start_ms) {
            (Some(overlap_end), Some(overlap_start)) => {
                if overlap_start < overlap_end {
                    assert(fits_globally(chunks@[i as int].segments@, chunks@[i as int].chunk_start_ms));
                    assert(fits_globally(chunks@[i + 1].segments@, chunks@[i + 1].chunk_start_ms));
                    let curr_overlapping = find_segments_in_range(
                        curr_chunk.segments.as_slice(),
                        curr_chunk.chunk_start_ms,
                        overlap_start,
                        overlap_end,
                    );
                    let next_overlapping = find_segments_in_range(
                        next_chunk.segments.as_slice(),
                        next_chunk.chunk_start_ms,
                        overlap_start,
                        overlap_end,
                    );
                    let _ = deduplicate_overlap(curr_overlapping.as_slice(), next_overlapping.as_slice());
                    window = Some((overlap_start, overlap_end));
                }
            },
            _ => {},
        }
        windows.push(window);
        i += 1;
    }
    let mut all_segments: Vec<TranscriptSegment> = Vec::new();
    let mut all_text = String::new();
    let mut idx: usize = 0;
    while idx < n
        invariant
            n == chunks@.len() >= 2,
            idx <= n,
            chunks_fit_globally(chunks@),
            windows@.len() == n - 1,
            forall|k: int| 0 <= k < n - 1 ==> #[trigger] windows@[k] == overlap_window(chunks@, k),
            all_segments@ == kept_upto(chunks@, idx as nat),
            all_text@ == joined_text_upto(chunks@, idx as nat),
        decreases n - idx,
    {
        let chunk = &chunks[idx];
        assert(fits_globally(chunks@[idx as int].segments@, chunks@[idx as int].chunk_start_ms));
        let mut segments = convert_local_to_global(chunk.segments.as_slice(), chunk.chunk_start_ms);
        if idx > 0 {
            if let Some((lo, hi)) = windows[idx - 1] {
                segments = drop_in_window(segments, lo, hi);
            }
        }
        assert(segments@ == kept_segments(chunks@, idx as int));
        let ghost text_before = all_text@;
        if str_nonempty(all_text.as_str()) && str_nonempty(chunk.text.as_str()) {
            push_char(&mut all_text, ' ');
        }
        push_str(&mut all_text, chunk.text.as_str());
        assert(all_text@ =~= joined_text_upto(chunks@, (idx + 1) as nat));
        let ghost seg_before = all_segments@;
        let mut k: usize = 0;
        while k < segments.len()
            invariant
                k <= segments.len(),
                all_segments@ == seg_before + segments@.take(k as int),
            decreases segments.len() - k,
        {
            all_segments.push(segments[k].clone());
            assert(segments@.take(k as int).push(segments@[k as int]) =~= segments@.take(k + 1));
            assert(all_segments@ =~= seg_before + segments@.take(k + 1));
            k += 1;
        }
        assert(segments@.take(k as int) =~= segments@);
        idx += 1;
    }
    let sorted = sort_segments_by_start(all_segments);
    (all_text, sorted)
}

/// Whether every chunk's segments fit in `u64` once moved to global time
/// (what `stitch_chunks` needs of its input).
pub fn transcripts_fit(chunks: &[ChunkTranscript]) -> (r: bool)
    ensures
        r == chunks_fit_globally(chunks@),
{
    let mut i: usize = 0;
    while i < chunks.len()
        invariant
            i <= chunks.len(),
            forall|k: int| 0 <= k < i ==> fits_globally(#[trigger] chunks@[k].segments@, chunks@[k].chunk_start_ms),
        decreases chunks.len() - i,
    {
        let c = &chunks[i];
        let base = c.chunk_start_ms;
        let mut j: usize = 0;
        while j < c.segments.len()
            invariant
                i < chunks.len(),
                *c == chunks@[i as int],
                base == c.chunk_start_ms,
                j <= c.segments.len(),
                forall|m: int| 0 <= m < j ==> {
                    &&& #[trigger] c.segments@[m].start_ms + base <= u64::MAX
                    &&& c.segments@[m].end_ms + base <= u64::MAX
                },
            decreases c.segments.len() - j,
        {
            let s = &c.segments[j];
            if s.start_ms > u64::MAX - base || s.end_ms > u64::MAX - base {
                assert(!fits_globally(chunks@[i as int].segments@, chunks@[i as int].chunk_start_ms)) by {
                    assert(c.segments@[j as int] == *s);
                }
                return false;
            }
            j += 1;
        }
        assert(fits_globally(chunks@[i as int].segments@, chunks@[i as int].chunk_start_ms));
        i += 1;
    }
    true
}

fn str_nonempty(s: &str) -> (r: bool)
    ensures
        r == (s@.len() > 0),
{
    !s.is_empty()
}

} // verus!
