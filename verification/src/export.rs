//! Transcript export formats: SubRip subtitles, plain text and JSON, and
//! the choices made when writing them next to existing files.

use vstd::prelude::*;
use crate::text::{
    byte_len, chars_of, decimal, digits_value, is_digit, lemma_byte_len_concat, lemma_byte_len_space,
    lemma_decimal_len, lemma_zero_padded_digits, push_char, push_decimal, push_str,
    push_zero_padded, str_byte_len, string_of, trim, trim_str, zero_padded,
};
use crate::types::{AppErrorView, TranscriptSegment, is_error};

verus! {

broadcast use vstd::string::group_string_axioms;

// ---------------------------------------------------------------------------
// Conflict policy
// ---------------------------------------------------------------------------

/// What to do when the target of a write already exists.
#[derive(Clone, Copy, Debug, Default, PartialEq, Eq, Structural)]
pub enum ConflictPolicy {
    /// Replace the existing file.
    #[default]
    Overwrite,
    /// Write next to it under a numbered name (`video.srt` becomes `video.1.srt`).
    Suffix,
    /// Leave it and report an error.
    Skip,
}

// ---------------------------------------------------------------------------
// Timecodes
// ---------------------------------------------------------------------------

/// `HH:MM:SS,mmm`, the SubRip timecode of a time in milliseconds. Hours
/// are not wrapped: they take more than two digits from 100 hours on.
pub open spec fn timecode(ms: nat) -> Seq<char> {
    let total_seconds = ms / 1000;
    zero_padded(total_seconds / 3600, 2) + seq![':'] + zero_padded((total_seconds % 3600) / 60, 2)
        + seq![':'] + zero_padded(total_seconds % 60, 2) + seq![','] + zero_padded(ms % 1000, 3)
}

/// Appends the SubRip timecode of `ms`.
pub fn push_timecode(s: &mut String, ms: u64)
    ensures
        final(s)@ == old(s)@ + timecode(ms as nat),
{
    let total_seconds = ms / 1000;
    push_zero_padded(s, total_seconds / 3600, 2);
    push_char(s, ':');
    push_zero_padded(s, (total_seconds % 3600) / 60, 2);
    push_char(s, ':');
    push_zero_padded(s, total_seconds % 60, 2);
    push_char(s, ',');
    push_zero_padded(s, ms % 1000, 3);
    assert(final(s)@ =~= old(s)@ + timecode(ms as nat)) by {
        let t = ms as nat / 1000;
        assert(t == total_seconds as nat);
    }
}

/// Formats a time in milliseconds as a SubRip timecode `HH:MM:SS,mmm`.
pub fn format_timecode(ms: u64) -> (s: String)
    ensures
        s@ == timecode(ms as nat),
{
    let mut s = String::new();
    push_timecode(&mut s, ms);
    assert(Seq::<char>::empty() + timecode(ms as nat) =~= timecode(ms as nat));
    s
}

/// The fields of a timecode lose nothing: hours, minutes (below 60),
/// seconds (below 60) and milliseconds (below 1000) add up to the time.
pub proof fn lemma_timecode_fields(ms: nat)
    ensures
        ({
            let ts = ms / 1000;
            let h = ts / 3600;
            let m = (ts % 3600) / 60;
            let s = ts % 60;
            let r = ms % 1000;
            &&& m < 60 && s < 60 && r < 1000
            &&& h * 3_600_000 + m * 60_000 + s * 1000 + r == ms
        }),
{
    let ts = ms / 1000;
    let h = ts / 3600;
    let rest = ts % 3600;
    let m = rest / 60;
    let s = ts % 60;
    let r = ms % 1000;
    vstd::arithmetic::div_mod::lemma_fundamental_div_mod(ms as int, 1000);
    vstd::arithmetic::div_mod::lemma_fundamental_div_mod(ts as int, 3600);
    vstd::arithmetic::div_mod::lemma_fundamental_div_mod(rest as int, 60);
    vstd::arithmetic::div_mod::lemma_mod_mod(ts as int, 60, 60);
    assert(rest % 60 == s);
    assert(h * 3_600_000 + m * 60_000 + s * 1000 + r == ms) by (nonlinear_arith)
        requires
            ms == 1000 * ts + r,
            ts == 3600 * h + rest,
            rest == 60 * m + s,
    ;
}

/// Below 100 hours a timecode has the fixed shape `DD:DD:DD,DDD`, twelve
/// characters long, and its four fields, read as numbers, give back the
/// time: hours, minutes and seconds (both below 60) and milliseconds.
pub proof fn lemma_timecode_shape(ms: nat)
    requires
        ms < 360_000_000,
    ensures
        ({
            let t = timecode(ms);
            &&& t.len() == 12
            &&& t[2] == ':' && t[5] == ':' && t[8] == ','
            &&& forall|i: int| 0 <= i < 12 && i != 2 && i != 5 && i != 8 ==> is_digit(#[trigger] t[i])
            &&& digits_value(t.subrange(3, 5)) < 60
            &&& digits_value(t.subrange(6, 8)) < 60
            &&& digits_value(t.subrange(0, 2)) * 3_600_000 + digits_value(t.subrange(3, 5)) * 60_000
                + digits_value(t.subrange(6, 8)) * 1000 + digits_value(t.subrange(9, 12)) == ms
        }),
{
    let ts = ms / 1000;
    let h = ts / 3600;
    let m = (ts % 3600) / 60;
    let s = ts % 60;
    let r = ms % 1000;
    lemma_timecode_fields(ms);
    assert(h < 100);
    lemma_decimal_len(h);
    lemma_decimal_len(m);
    lemma_decimal_len(s);
    lemma_decimal_len(r);
    lemma_zero_padded_digits(h, 2);
    lemma_zero_padded_digits(m, 2);
    lemma_zero_padded_digits(s, 2);
    lemma_zero_padded_digits(r, 3);
    let a = zero_padded(h, 2);
    let b = zero_padded(m, 2);
    let c = zero_padded(s, 2);
    let d = zero_padded(r, 3);
    let t = timecode(ms);
    assert(t =~= a + seq![':'] + b + seq![':'] + c + seq![','] + d);
    assert(t.subrange(0, 2) =~= a);
    assert(t.subrange(3, 5) =~= b);
    assert(t.subrange(6, 8) =~= c);
    assert(t.subrange(9, 12) =~= d);
    assert forall|i: int| 0 <= i < 12 && i != 2 && i != 5 && i != 8 implies is_digit(#[trigger] t[i]) by {
        if i < 2 {
            assert(t[i] == a[i]);
        } else if i < 5 {
            assert(t[i] == b[i - 3]);
        } else if i < 8 {
            assert(t[i] == c[i - 6]);
        } else {
            assert(t[i] == d[i - 9]);
        }
    }
}

/// Below 100 hours, different times have different timecodes.
pub proof fn lemma_timecode_injective(a: nat, b: nat)
    requires
        a < 360_000_000,
        b < 360_000_000,
        timecode(a) == timecode(b),
    ensures
        a == b,
{
    lemma_timecode_shape(a);
    lemma_timecode_shape(b);
}

// ---------------------------------------------------------------------------
// SubRip, grouped
// ---------------------------------------------------------------------------

/// A subtitle cue: start, end and text.
pub type Cue = (u64, u64, Seq<char>);

/// Saturating subtraction on `u64` values.
pub open spec fn sat_sub(a: u64, b: u64) -> nat {
    if a >= b { (a - b) as nat } else { 0 }
}

/// The finished cues and the open cue after grouping the first `n >= 1`
/// segments: a segment joins the open cue (with a space between the texts)
/// when it starts less than one second after the cue ends and the joined
/// text is shorter than 100 characters; otherwise the open cue is finished and
/// the segment opens a new one.
pub open spec fn grouped_cues_upto(segs: Seq<TranscriptSegment>, n: nat) -> (Seq<Cue>, Cue)
    decreases n,
{
    if n <= 1 {
        (Seq::empty(), (segs[0].start_ms, segs[0].end_ms, segs[0].text@))
    } else {
        let (done, cur) = grouped_cues_upto(segs, (n - 1) as nat);
        let seg = segs[n - 1];
        let merged = cur.2 + seq![' '] + seg.text@;
        if sat_sub(seg.start_ms, cur.1) < 1000 && merged.len() < 100 {
            (done, (cur.0, seg.end_ms, merged))
        } else {
            (done.push(cur), (seg.start_ms, seg.end_ms, seg.text@))
        }
    }
}

/// The cues of the grouped SubRip export.
pub open spec fn grouped_cues(segs: Seq<TranscriptSegment>) -> Seq<Cue> {
    if segs.len() == 0 {
        Seq::empty()
    } else {
        let (done, cur) = grouped_cues_upto(segs, segs.len());
        done.push(cur)
    }
}

/// One SubRip block: its 1-based number, the timecodes and the trimmed text,
/// followed by a blank line.
pub open spec fn cue_block(number: nat, cue: Cue) -> Seq<char> {
    decimal(number) + seq!['\n'] + timecode(cue.0 as nat) + " --> "@ + timecode(cue.1 as nat)
        + seq!['\n'] + trim(cue.2) + seq!['\n', '\n']
}

/// The blocks of the first `k` cues, numbered from 1.
pub open spec fn render_cues(cues: Seq<Cue>, k: nat) -> Seq<char>
    decreases k,
{
    if k == 0 {
        Seq::empty()
    } else {
        render_cues(cues, (k - 1) as nat) + cue_block(k, cues[k - 1])
    }
}

/// The text of the grouped SubRip export of `segs`.
pub open spec fn srt_advanced_text(segs: Seq<TranscriptSegment>) -> Seq<char> {
    let cues = grouped_cues(segs);
    render_cues(cues, cues.len())
}

/// The view of finished cues held as strings.
pub open spec fn cues_view(v: Seq<(u64, u64, String)>) -> Seq<Cue> {
    Seq::new(v.len(), |i: int| (v[i].0, v[i].1, v[i].2@))
}

/// Appends one SubRip block.
fn push_cue_block(s: &mut String, number: u64, start: u64, end: u64, text: &str)
    ensures
        final(s)@ == old(s)@ + cue_block(number as nat, (start, end, text@)),
{
    push_decimal(s, number);
    push_char(s, '\n');
    push_timecode(s, start);
    push_str(s, " --> ");
    push_timecode(s, end);
    push_char(s, '\n');
    let t = trim_str(text);
    push_str(s, t.as_str());
    push_char(s, '\n');
    push_char(s, '\n');
    assert(final(s)@ =~= old(s)@ + cue_block(number as nat, (start, end, text@)));
}

/// SubRip export that joins neighbouring segments into cues: a segment
/// joins the current cue when it starts less than a second after the cue
/// ends and the joined text stays under 100 characters.
pub fn format_srt_advanced(segments: &[TranscriptSegment]) -> (s: String)
    ensures
        s@ == srt_advanced_text(segments@),
{
    if segments.len() == 0 {
        return String::new();
    }
    let ghost segs = segments@;
    let mut subs: Vec<(u64, u64, String)> = Vec::new();
    let mut cur_start = segments[0].start_ms;
    let mut cur_end = segments[0].end_ms;
    let mut cur_text = segments[0].text.clone();
    let mut i: usize = 1;
    while i < segments.len()
        invariant
            1 <= i <= segments.len(),
            segs == segments@,
            (cues_view(subs@), (cur_start, cur_end, cur_text@)) == grouped_cues_upto(segs, i as nat),
        decreases segments.len() - i,
    {
        let seg = &segments[i];
        let gap: u64 = if seg.start_ms >= cur_end { seg.start_ms - cur_end } else { 0 };
        let cur_len = chars_of(cur_text.as_str()).len();
        let seg_len = chars_of(seg.text.as_str()).len();
        let merged_len: u128 = cur_len as u128 + 1 + seg_len as u128;
        if gap < 1000 && merged_len < 100 {
            push_char(&mut cur_text, ' ');
            push_str(&mut cur_text, seg.text.as_str());
            cur_end = seg.end_ms;
        } else {
            let ghost before = cues_view(subs@);
            subs.push((cur_start, cur_end, cur_text));
            assert(cues_view(subs@) =~= before.push((cur_start, cur_end, cur_text@)));
            cur_start = seg.start_ms;
            cur_end = seg.end_ms;
            cur_text = seg.text.clone();
        }
        i += 1;
    }
    let ghost before = cues_view(subs@);
    subs.push((cur_start, cur_end, cur_text));
    assert(cues_view(subs@) =~= before.push((cur_start, cur_end, cur_text@)));
    let ghost cues = cues_view(subs@);
    assert(cues == grouped_cues(segs));
    let mut result = String::new();
    let mut k: usize = 0;
    while k < subs.len()
        invariant
            k <= subs.len(),
            cues == cues_view(subs@),
            result@ == render_cues(cues, k as nat),
        decreases subs.len() - k,
    {
        let (start, end, ref text) = subs[k];
        assert(cues[k as int] == (start, end, text@));
        push_cue_block(&mut result, (k + 1) as u64, start, end, text.as_str());
        k += 1;
    }
    result
}

// ---------------------------------------------------------------------------
// SubRip, running
// ---------------------------------------------------------------------------

/// The end of the last of the leading segments that start before `t`, or
/// `default` when the first segment does not.
pub open spec fn end_before(segs: Seq<TranscriptSegment>, t: u64, default: u64) -> u64 {
    let k = leading_before(segs, t, 0);
    if k > 0 { segs[k - 1].end_ms } else { default }
}

/// The number of leading segments, from index `i` on, that start before `t`,
/// plus `i`.
pub open spec fn leading_before(segs: Seq<TranscriptSegment>, t: u64, i: nat) -> nat
    decreases segs.len() - i,
{
    if i < segs.len() && segs[i as int].start_ms < t {
        leading_before(segs, t, i + 1)
    } else {
        i
    }
}

/// The state of the running SubRip export after the first `n` segments:
/// the text written so far, the next cue number, the start of the open cue
/// and its text.
pub struct RunningSrt {
    pub out: Seq<char>,
    pub number: nat,
    pub start: u64,
    pub text: Seq<char>,
}

/// Whether the running SubRip export writes the open cue before taking
/// `seg`: the cue has text and either the segment starts more than five
/// seconds after the cue's start or the two texts together exceed 100 bytes.
pub open spec fn running_writes_cue(st: RunningSrt, seg: TranscriptSegment) -> bool {
    &&& st.text.len() > 0
    &&& sat_sub(seg.start_ms, (st.start + 5000) as u64) > 0 || byte_len(st.text) + byte_len(seg.text@) > 100
}

/// The cue that the running SubRip export writes before taking segment `i`:
/// the open cue, ending where the last leading segment before this one ends.
pub open spec fn running_cue(segs: Seq<TranscriptSegment>, st: RunningSrt, i: int) -> Cue {
    (st.start, end_before(segs, segs[i].start_ms, st.start), st.text)
}

/// One step of the running SubRip export. When `running_writes_cue` holds,
/// the open cue is written as the next numbered block (see `running_cue`).
/// The segment's text is then added to the open cue; a cue that had no text
/// yet starts where this segment starts.
pub open spec fn running_srt_step(segs: Seq<TranscriptSegment>, st: RunningSrt, i: int) -> RunningSrt {
    let seg = segs[i];
    let (out, number, text) = if running_writes_cue(st, seg) {
        (st.out + cue_block(st.number, running_cue(segs, st, i)), st.number + 1, Seq::<char>::empty())
    } else {
        (st.out, st.number, st.text)
    };
    let text2 = (if text.len() > 0 { text + seq![' '] } else { text }) + seg.text@;
    RunningSrt {
        out,
        number,
        start: if text.len() == 0 { seg.start_ms } else { st.start },
        text: text2,
    }
}

/// The state of the running SubRip export after the first `n` segments.
pub open spec fn running_srt_upto(segs: Seq<TranscriptSegment>, n: nat) -> RunningSrt
    decreases n,
{
    if n == 0 {
        RunningSrt { out: Seq::empty(), number: 1, start: 0, text: Seq::empty() }
    } else {
        running_srt_step(segs, running_srt_upto(segs, (n - 1) as nat), n - 1)
    }
}

/// Whether the running export stays within its integer types: it adds five
/// seconds to cue starts (`u64`) and counts cues in an `i32`.
pub open spec fn running_srt_in_range(segs: Seq<TranscriptSegment>) -> bool {
    forall|n: nat| n < segs.len() ==> {
        &&& #[trigger] running_srt_upto(segs, n).start + 5000 <= u64::MAX
        &&& running_srt_upto(segs, n).number < i32::MAX
    }
}

/// The text of the running SubRip export of `segs`: the written cues, then
/// the open cue (ending where the last segment ends) followed by a single
/// line break.
pub open spec fn srt_text(segs: Seq<TranscriptSegment>) -> Seq<char> {
    let st = running_srt_upto(segs, segs.len());
    if st.text.len() > 0 {
        st.out + decimal(st.number) + seq!['\n'] + timecode(st.start as nat) + " --> "@
            + timecode(segs.last().end_ms as nat) + seq!['\n'] + trim(st.text) + seq!['\n']
    } else {
        st.out
    }
}

/// The cues written by the running SubRip export after the first `n`
/// segments, in order.
pub open spec fn running_cues_upto(segs: Seq<TranscriptSegment>, n: nat) -> Seq<Cue>
    decreases n,
{
    if n == 0 {
        Seq::empty()
    } else {
        let st = running_srt_upto(segs, (n - 1) as nat);
        let prev = running_cues_upto(segs, (n - 1) as nat);
        if running_writes_cue(st, segs[n - 1]) { prev.push(running_cue(segs, st, n - 1)) } else { prev }
    }
}

/// Whether the running SubRip export ends with a cue still open, which is
/// written last without its closing blank line.
pub open spec fn running_ends_open(segs: Seq<TranscriptSegment>) -> bool {
    running_srt_upto(segs, segs.len()).text.len() > 0
}

/// All cues of the running SubRip export: those written on the way, then
/// the open cue, when it has text, ending where the last segment ends.
pub open spec fn running_cues(segs: Seq<TranscriptSegment>) -> Seq<Cue> {
    let st = running_srt_upto(segs, segs.len());
    let done = running_cues_upto(segs, segs.len());
    if running_ends_open(segs) { done.push((st.start, segs.last().end_ms, st.text)) } else { done }
}

proof fn lemma_open_block(out: Seq<char>, d: Seq<char>, t1: Seq<char>, t2: Seq<char>, x: Seq<char>)
    ensures
        (out + d + seq!['\n'] + t1 + " --> "@ + t2 + seq!['\n'] + x + seq!['\n']).push('\n')
            == out + (d + seq!['\n'] + t1 + " --> "@ + t2 + seq!['\n'] + x + seq!['\n', '\n']),
{
    assert((out + d + seq!['\n'] + t1 + " --> "@ + t2 + seq!['\n'] + x + seq!['\n']).push('\n')
        =~= out + (d + seq!['\n'] + t1 + " --> "@ + t2 + seq!['\n'] + x + seq!['\n', '\n']));
}

proof fn lemma_render_cues_prefix(cues: Seq<Cue>, c: Cue, k: nat)
    requires
        k <= cues.len(),
    ensures
        render_cues(cues.push(c), k) == render_cues(cues, k),
    decreases k,
{
    if k > 0 {
        lemma_render_cues_prefix(cues, c, (k - 1) as nat);
        assert(cues.push(c)[k - 1] == cues[k - 1]);
    }
}

proof fn lemma_running_srt_upto_blocks(segs: Seq<TranscriptSegment>, n: nat)
    requires
        n <= segs.len(),
    ensures
        ({
            let cues = running_cues_upto(segs, n);
            &&& running_srt_upto(segs, n).out == render_cues(cues, cues.len())
            &&& running_srt_upto(segs, n).number == cues.len() + 1
        }),
    decreases n,
{
    if n > 0 {
        lemma_running_srt_upto_blocks(segs, (n - 1) as nat);
        let st = running_srt_upto(segs, (n - 1) as nat);
        let prev = running_cues_upto(segs, (n - 1) as nat);
        if running_writes_cue(st, segs[n - 1]) {
            let c = running_cue(segs, st, n - 1);
            lemma_render_cues_prefix(prev, c, prev.len());
            assert(prev.push(c)[prev.len() as int] == c);
        }
    }
}

/// The running SubRip export is a sequence of numbered blocks: the blocks of
/// its cues (`running_cues`), numbered from 1, the last one without its
/// closing blank line when the export ends with a cue still open.
pub proof fn lemma_running_srt_blocks(segs: Seq<TranscriptSegment>)
    ensures
        running_ends_open(segs) ==> srt_text(segs).push('\n') == render_cues(running_cues(segs), running_cues(segs).len()),
        !running_ends_open(segs) ==> srt_text(segs) == render_cues(running_cues(segs), running_cues(segs).len()),
{
    lemma_running_srt_upto_blocks(segs, segs.len());
    let st = running_srt_upto(segs, segs.len());
    let done = running_cues_upto(segs, segs.len());
    if running_ends_open(segs) {
        let c = (st.start, segs.last().end_ms, st.text);
        lemma_render_cues_prefix(done, c, done.len());
        assert(done.push(c)[done.len() as int] == c);
        lemma_open_block(st.out, decimal(st.number), timecode(st.start as nat), timecode(segs.last().end_ms as nat), trim(st.text));
    }
}

/// How the running SubRip export takes each segment. When the open cue has
/// text and the segment either starts more than five seconds after the
/// cue's start or would take the text past 100 bytes, the open cue is
/// written as the next numbered block and the segment opens a new cue at
/// its own start. Otherwise a cue with text takes the segment's text after
/// a space and keeps its start, and an empty cue starts with the segment.
pub proof fn lemma_running_srt_takes_segment(segs: Seq<TranscriptSegment>, n: nat)
    requires
        n < segs.len(),
        running_srt_in_range(segs),
    ensures
        ({
            let st = running_srt_upto(segs, n);
            let seg = segs[n as int];
            let nx = running_srt_upto(segs, n + 1);
            &&& st.text.len() > 0 && (seg.start_ms > st.start + 5000 || byte_len(st.text) + byte_len(seg.text@) > 100) ==> {
                &&& nx.out == st.out + cue_block(st.number, (st.start, end_before(segs, seg.start_ms, st.start), st.text))
                &&& nx.number == st.number + 1
                &&& nx.text == seg.text@
                &&& nx.start == seg.start_ms
            }
            &&& st.text.len() > 0 && seg.start_ms <= st.start + 5000 && byte_len(st.text) + byte_len(seg.text@) <= 100 ==> {
                &&& nx.out == st.out
                &&& nx.number == st.number
                &&& nx.text == st.text + seq![' '] + seg.text@
                &&& nx.start == st.start
            }
            &&& st.text.len() == 0 ==> nx.out == st.out && nx.number == st.number && nx.text == seg.text@
                && nx.start == seg.start_ms
        }),
{
    let st = running_srt_upto(segs, n);
    let seg = segs[n as int];
    assert(st.start + 5000 <= u64::MAX);
    assert(running_srt_upto(segs, n + 1) == running_srt_step(segs, st, n as int));
    assert(Seq::<char>::empty() + seg.text@ =~= seg.text@);
}

/// Whether a cue's text keeps to the running export's length rule: it is
/// the text of a single segment (of any length), or it holds at most 101
/// bytes (texts are joined while they add up to at most 100 bytes, and the
/// joining space makes one more).
pub open spec fn cue_text_within(segs: Seq<TranscriptSegment>, text: Seq<char>) -> bool {
    (exists|k: int| 0 <= k < segs.len() && text == #[trigger] segs[k].text@) || byte_len(text) <= 101
}

proof fn lemma_running_texts_within(segs: Seq<TranscriptSegment>, n: nat)
    requires
        n <= segs.len(),
        running_srt_in_range(segs),
    ensures
        running_srt_upto(segs, n).text.len() == 0 || cue_text_within(segs, running_srt_upto(segs, n).text),
        forall|i: int| 0 <= i < running_cues_upto(segs, n).len() ==>
            cue_text_within(segs, (#[trigger] running_cues_upto(segs, n)[i]).2),
    decreases n,
{
    if n > 0 {
        let m = (n - 1) as nat;
        lemma_running_texts_within(segs, m);
        lemma_running_srt_takes_segment(segs, m);
        let st = running_srt_upto(segs, m);
        let seg = segs[m as int];
        let nx = running_srt_upto(segs, n);
        let prev = running_cues_upto(segs, m);
        let cues = running_cues_upto(segs, n);
        if st.text.len() > 0 && !(seg.start_ms > st.start + 5000 || byte_len(st.text) + byte_len(seg.text@) > 100) {
            lemma_byte_len_concat(st.text, seq![' ']);
            lemma_byte_len_concat(st.text + seq![' '], seg.text@);
            lemma_byte_len_space();
            assert(byte_len(nx.text) <= 101);
        } else {
            assert(nx.text == seg.text@);
            assert(segs[m as int].text@ == nx.text);
        }
        if running_writes_cue(st, seg) {
            assert(cues == prev.push(running_cue(segs, st, m as int)));
            assert forall|i: int| 0 <= i < cues.len() implies cue_text_within(segs, (#[trigger] cues[i]).2) by {
                if i < prev.len() {
                    assert(cues[i] == prev[i]);
                }
            }
        } else {
            assert(cues == prev);
        }
    }
}

/// The running SubRip export never joins segments past its length rule:
/// each of its cues holds the text of a single segment, or at most 101
/// bytes of text.
pub proof fn lemma_running_cues_within_length(segs: Seq<TranscriptSegment>)
    requires
        running_srt_in_range(segs),
    ensures
        forall|i: int| 0 <= i < running_cues(segs).len() ==>
            cue_text_within(segs, (#[trigger] running_cues(segs)[i]).2),
{
    lemma_running_texts_within(segs, segs.len());
    let done = running_cues_upto(segs, segs.len());
    let cues = running_cues(segs);
    if running_ends_open(segs) {
        assert forall|i: int| 0 <= i < cues.len() implies cue_text_within(segs, (#[trigger] cues[i]).2) by {
            if i < done.len() {
                assert(cues[i] == done[i]);
            }
        }
    }
}

fn end_before_exec(segments: &[TranscriptSegment], t: u64, default: u64) -> (r: u64)
    ensures
        r == end_before(segments@, t, default),
{
    let mut k: usize = 0;
    while k < segments.len() && segments[k].start_ms < t
        invariant
            k <= segments.len(),
            leading_before(segments@, t, 0) == leading_before(segments@, t, k as nat),
        decreases segments.len() - k,
    {
        k += 1;
    }
    if k > 0 {
        segments[k - 1].end_ms
    } else {
        default
    }
}

/// SubRip export that collects segments into a cue until one starts more
/// than five seconds after the cue's start or the text would pass 100
/// bytes.
pub fn format_srt(segments: &[TranscriptSegment]) -> (s: String)
    requires
        running_srt_in_range(segments@),
    ensures
        s@ == srt_text(segments@),
{
    let ghost segs = segments@;
    let mut result = String::new();
    let mut current_index: u64 = 1;
    let mut current_start: u64 = 0;
    let mut current_text = String::new();
    let mut i: usize = 0;
    while i < segments.len()
        invariant
            i <= segments.len(),
            segs == segments@,
            running_srt_in_range(segs),
            ({
                let st = running_srt_upto(segs, i as nat);
                st.out == result@ && st.number == current_index as nat && st.start == current_start
                    && st.text == current_text@
            }),
        decreases segments.len() - i,
    {
        let seg = &segments[i];
        assert(running_srt_upto(segs, i as nat).start + 5000 <= u64::MAX);
        let threshold = current_start + 5000;
        let gap_ms: u64 = if seg.start_ms >= threshold { seg.start_ms - threshold } else { 0 };
        let cur_len = str_byte_len(current_text.as_str());
        let seg_len = str_byte_len(seg.text.as_str());
        let should_split = gap_ms > 0 || cur_len as u128 + seg_len as u128 > 100;
        let empty_now = str_byte_len(current_text.as_str()) == 0;
        proof {
            if current_text@.len() > 0 {
                assert(byte_len(current_text@) > 0) by {
                    vstd::utf8::encode_utf8_first_scalar(current_text@);
                }
            } else {
                assert(byte_len(current_text@) == 0) by {
                    assert(current_text@ =~= Seq::<char>::empty());
                }
            }
        }
        if should_split && !empty_now {
            let e = end_before_exec(segments, seg.start_ms, current_start);
            push_cue_block(&mut result, current_index, current_start, e, current_text.as_str());
            current_index += 1;
            current_text = String::new();
        }
        if current_text.as_str().is_empty() {
            current_start = seg.start_ms;
        } else {
            push_char(&mut current_text, ' ');
        }
        push_str(&mut current_text, seg.text.as_str());
        proof {
            let st = running_srt_upto(segs, i as nat);
            let nx = running_srt_step(segs, st, i as int);
            assert(running_srt_upto(segs, (i + 1) as nat) == nx);
            assert(nx.out =~= result@);
            assert(nx.text =~= current_text@);
        }
        i += 1;
    }
    if str_byte_len(current_text.as_str()) != 0 {
        push_decimal(&mut result, current_index);
        push_char(&mut result, '\n');
        push_timecode(&mut result, current_start);
        push_str(&mut result, " --> ");
        let last_end = segments[segments.len() - 1].end_ms;
        push_timecode(&mut result, last_end);
        push_char(&mut result, '\n');
        let t = trim_str(current_text.as_str());
        push_str(&mut result, t.as_str());
        push_char(&mut result, '\n');
    }
    result
}

// ---------------------------------------------------------------------------
// Plain text
// ---------------------------------------------------------------------------

/// Plain-text export: the transcript text itself.
pub fn format_txt(text: &str) -> (s: String)
    ensures
        s@ == text@,
{
    string_of(text)
}

// ---------------------------------------------------------------------------
// JSON
// ---------------------------------------------------------------------------

/// The plain values of segments: start, end and text.
pub open spec fn segment_values(segs: Seq<TranscriptSegment>) -> Seq<(u64, u64, Seq<char>)> {
    Seq::new(segs.len(), |i: int| (segs[i].start_ms, segs[i].end_ms, segs[i].text@))
}

/// What `serde_json::to_string_pretty` gives for the object
/// `{"text": text, "segments": [{"start_ms", "end_ms", "text"}, ...],
/// "duration_ms": duration}` (`None` when serialisation fails).
pub uninterp spec fn transcript_json(text: Seq<char>, segments: Seq<(u64, u64, Seq<char>)>, duration_ms: u64) -> Option<Seq<char>>;

/// The view of an optional string.
pub open spec fn opt_string_view(o: Option<String>) -> Option<Seq<char>> {
    match o {
        Some(s) => Some(s@),
        None => None,
    }
}

/// Builds the JSON object of a transcript with `serde_json` and renders it
/// with `serde_json::to_string_pretty`. The text is named `transcript_json`;
/// serde_json's output format is not restated.
#[verifier::external_body]
fn pretty_transcript_json(text: &str, segments: &[TranscriptSegment], duration_ms: u64) -> (r: Option<String>)
    ensures
        opt_string_view(r) == transcript_json(text@, segment_values(segments@), duration_ms),
{
    let mut items = Vec::new();
    for s in segments {
        let mut o = serde_json::Map::new();
        o.insert("start_ms".to_string(), s.start_ms.into());
        o.insert("end_ms".to_string(), s.end_ms.into());
        o.insert("text".to_string(), s.text.as_str().into());
        items.push(serde_json::Value::Object(o));
    }
    let mut root = serde_json::Map::new();
    root.insert("text".to_string(), text.into());
    root.insert("segments".to_string(), items.into());
    root.insert("duration_ms".to_string(), duration_ms.into());
    serde_json::to_string_pretty(&serde_json::Value::Object(root)).ok()
}

/// The duration of a transcript: where its last segment ends, or 0.
pub open spec fn transcript_duration(segs: Seq<TranscriptSegment>) -> u64 {
    if segs.len() > 0 { segs.last().end_ms } else { 0 }
}

/// The JSON export of a transcript, or the plain text when serialisation fails.
pub open spec fn json_text(text: Seq<char>, segs: Seq<TranscriptSegment>) -> Seq<char> {
    match transcript_json(text, segment_values(segs), transcript_duration(segs)) {
        Some(j) => j,
        None => text,
    }
}

/// JSON export: the text, the segments and the duration (the end of the
/// last segment, or 0), pretty-printed.
pub fn format_json(text: &str, segments: &[TranscriptSegment]) -> (s: String)
    ensures
        s@ == json_text(text@, segments@),
{
    let duration_ms = if segments.len() > 0 { segments[segments.len() - 1].end_ms } else { 0 };
    match pretty_transcript_json(text, segments, duration_ms) {
        Some(j) => j,
        None => string_of(text),
    }
}

// ---------------------------------------------------------------------------
// Choosing the content and the target of an export
// ---------------------------------------------------------------------------

/// The content of an export in the named format (`"txt"`, `"srt"` or
/// `"json"`), or the error for any other name.
pub open spec fn export_content(text: Seq<char>, segs: Seq<TranscriptSegment>, format: Seq<char>) -> Result<Seq<char>, (Seq<char>, Seq<char>)> {
    if format == "txt"@ {
        Ok(text)
    } else if format == "srt"@ {
        Ok(srt_advanced_text(segs))
    } else if format == "json"@ {
        Ok(json_text(text, segs))
    } else {
        Err(("INVALID_FORMAT"@, "Unknown format: "@ + format))
    }
}

/// Renders a transcript in the named format: plain text, grouped SubRip or
/// JSON; an unknown name is an `INVALID_FORMAT` error.
pub fn render_export(text: &str, segments: &[TranscriptSegment], format: &str) -> (r: Result<String, AppErrorView>)
    ensures
        match export_content(text@, segments@, format@) {
            Ok(c) => r matches Ok(s) && s@ == c,
            Err((code, message)) => r matches Err(e) && is_error(e, code, message),
        },
{
    if crate::text::str_eq(format, "txt") {
        Ok(format_txt(text))
    } else if crate::text::str_eq(format, "srt") {
        Ok(format_srt_advanced(segments))
    } else if crate::text::str_eq(format, "json") {
        Ok(format_json(text, segments))
    } else {
        let mut m = string_of("Unknown format: ");
        push_str(&mut m, format);
        Err(AppErrorView::new("INVALID_FORMAT", m.as_str()))
    }
}

/// Where a write goes, given the conflict policy and whether the target
/// exists.
#[derive(Debug)]
pub enum WriteTarget {
    /// Write to the target path.
    Target,
    /// Write next to it under the first free numbered name.
    NumberedSibling,
    /// Do not write.
    Refuse(AppErrorView),
}

/// Chooses where a write goes: overwriting always writes the target; the
/// suffix policy writes the target unless it exists, in which case a
/// numbered sibling; skipping refuses with `FILE_EXISTS` when the target
/// exists (`target_display` is the path as shown in the message).
pub fn choose_write_target(conflict: ConflictPolicy, target_exists: bool, target_display: &str) -> (r: WriteTarget)
    ensures
        conflict == ConflictPolicy::Overwrite ==> r == WriteTarget::Target,
        conflict == ConflictPolicy::Suffix ==> r == (if target_exists { WriteTarget::NumberedSibling } else { WriteTarget::Target }),
        conflict == ConflictPolicy::Skip ==> if target_exists {
            r matches WriteTarget::Refuse(e) && is_error(e, "FILE_EXISTS"@, "File already exists: "@ + target_display@)
        } else {
            r == WriteTarget::Target
        },
{
    match conflict {
        ConflictPolicy::Overwrite => WriteTarget::Target,
        ConflictPolicy::Suffix => if target_exists { WriteTarget::NumberedSibling } else { WriteTarget::Target },
        ConflictPolicy::Skip => {
            if target_exists {
                let mut m = string_of("File already exists: ");
                push_str(&mut m, target_display);
                WriteTarget::Refuse(AppErrorView::new("FILE_EXISTS", m.as_str()))
            } else {
                WriteTarget::Target
            }
        },
    }
}

/// The numbered file name tried for the `counter`-th free-name attempt:
/// `"{stem}.{counter}.{ext}"`, or `"{stem}.{counter}"` without extension.
pub open spec fn numbered_name(stem: Seq<char>, ext: Seq<char>, counter: u32) -> Seq<char> {
    if ext.len() == 0 {
        stem + seq!['.'] + decimal(counter as nat)
    } else {
        stem + seq!['.'] + decimal(counter as nat) + seq!['.'] + ext
    }
}

/// The numbered name to try for attempt `counter` (1 to 1000), or the
/// `FS_ERROR` given up with after that.
pub fn numbered_candidate(stem: &str, ext: &str, counter: u32) -> (r: Result<String, AppErrorView>)
    ensures
        counter <= 1000 ==> (r matches Ok(name) && name@ == numbered_name(stem@, ext@, counter)),
        counter > 1000 ==> (r matches Err(e) && is_error(e, "FS_ERROR"@, "Too many existing files, cannot generate unique name"@)),
{
    if counter > 1000 {
        return Err(AppErrorView::fs_error("Too many existing files, cannot generate unique name"));
    }
    let mut name = string_of(stem);
    push_char(&mut name, '.');
    push_decimal(&mut name, counter as u64);
    if !ext.is_empty() {
        push_char(&mut name, '.');
        push_str(&mut name, ext);
    }
    Ok(name)
}

} // verus!
