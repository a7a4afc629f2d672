//! The byte-exact bench dumps, appended to a buffer: the Ascii85 frame
//! dump, the aligned sample dump and the edge-buffer dump.

use vstd::arithmetic::power2::is_pow2;
use vstd::prelude::*;

use crate::a85::encode_group;
use crate::a85::{chars_value, group_chars, group_value, law_group_reads_back};
use crate::bits::{byte0, byte1};
use crate::bits::{hi_byte, lo_byte};
use crate::text::{bytes_of, decimal, lemma_dump_end_length, lemma_line_end_length};
use crate::text::{push_decimal, push_text};

verus! {

/// Frames per line of the frame dump.
pub const FRAMES_PER_LINE: usize = 8;

/// ASCII `.`: a low sample, or an empty bin.
pub const GLYPH_LOW: u8 = 0x2E;

/// ASCII `#`: a high sample, or a crowded bin.
pub const GLYPH_HIGH: u8 = 0x23;

/// ASCII `*`: a high sample at a crossing, or three edges.
pub const GLYPH_MARK_HIGH: u8 = 0x2A;

/// ASCII `o`: a low sample at a crossing, or one edge.
pub const GLYPH_MARK_LOW: u8 = 0x6F;

/// ASCII `O`: two edges.
pub const GLYPH_TWO: u8 = 0x4F;

/// The ten characters of a frame: its words in little-endian order, as two
/// Ascii85 groups.
#[verifier::opaque]
pub open spec fn frame_chars(w: Seq<u16>) -> Seq<u8> {
    group_chars(
        seq![byte0(w[0] as int), byte1(w[0] as int), byte0(w[1] as int), byte1(w[1] as int)],
    ) + group_chars(
        seq![byte0(w[2] as int), byte1(w[2] as int), byte0(w[3] as int), byte1(w[3] as int)],
    )
}

/// The frames of a dump, with a line end after every eighth.
pub open spec fn frame_lines(frames: Seq<[u16; 4]>) -> Seq<u8>
    decreases frames.len(),
{
    if frames.len() == 0 {
        Seq::empty()
    } else {
        let line = frame_lines(frames.drop_last()) + frame_chars(frames.last()@);
        if frames.len() % (FRAMES_PER_LINE as nat) == 0 {
            line + bytes_of("\r\n")
        } else {
            line
        }
    }
}

/// The frame dump: the lines, the last one ended, and the terminator.
pub open spec fn frame_dump(frames: Seq<[u16; 4]>) -> Seq<u8> {
    let lines = frame_lines(frames);
    let ended = if frames.len() % (FRAMES_PER_LINE as nat) != 0 {
        lines + bytes_of("\r\n")
    } else {
        lines
    };
    ended + bytes_of("end\r\n")
}

fn push_frame(out: &mut Vec<u8>, w: [u16; 4])
    ensures
        final(out)@ == old(out)@ + frame_chars(w@),
{
    let first: [u8; 4] = [lo_byte(w[0]), hi_byte(w[0]), lo_byte(w[1]), hi_byte(w[1])];
    let second: [u8; 4] = [lo_byte(w[2]), hi_byte(w[2]), lo_byte(w[3]), hi_byte(w[3])];
    out.extend_from_slice(encode_group(first).as_slice());
    out.extend_from_slice(encode_group(second).as_slice());
    proof {
        reveal(frame_chars);
        assert(first@ =~= seq![
            byte0(w@[0] as int),
            byte1(w@[0] as int),
            byte0(w@[1] as int),
            byte1(w@[1] as int),
        ]);
        assert(second@ =~= seq![
            byte0(w@[2] as int),
            byte1(w@[2] as int),
            byte0(w@[3] as int),
            byte1(w@[3] as int),
        ]);
        assert(out@ =~= old(out)@ + frame_chars(w@));
    }
}

/// Appends the dump of `n_frames` frames; `frame` is called once for each,
/// in order.
pub fn wax_cdump<F: Fn(usize) -> [u16; 4]>(n_frames: usize, frame: F, out: &mut Vec<u8>)
    requires
        forall|k: usize| k < n_frames ==> #[trigger] frame.requires((k,)),
    ensures
        exists|frames: Seq<[u16; 4]>|
            {
                &&& frames.len() == n_frames
                &&& forall|k: usize| k < n_frames ==> #[trigger] frame.ensures((k,), frames[k as int])
                &&& final(out)@ == old(out)@ + #[trigger] frame_dump(frames)
            },
{
    let ghost mut frames: Seq<[u16; 4]> = Seq::empty();
    let mut on_line: usize = 0;
    assert(out@ =~= old(out)@ + frame_lines(frames));
    for k in 0..n_frames
        invariant
            forall|j: usize| j < n_frames ==> #[trigger] frame.requires((j,)),
            frames.len() == k,
            forall|j: usize| j < k ==> #[trigger] frame.ensures((j,), frames[j as int]),
            out@ == old(out)@ + frame_lines(frames),
            on_line < FRAMES_PER_LINE,
            on_line == k as int % (FRAMES_PER_LINE as int),
    {
        let ghost so_far = frames;
        let w: [u16; 4] = frame(k);
        push_frame(out, w);
        proof {
            frames = so_far.push(w);
            assert(frames.drop_last() =~= so_far);
            assert forall|j: usize| j < k + 1 implies #[trigger] frame.ensures(
                (j,),
                frames[j as int],
            ) by {
                if j < k {
                    assert(frames[j as int] == so_far[j as int]);
                }
            }
        }
        on_line = on_line + 1;
        if on_line >= FRAMES_PER_LINE {
            push_text(out, "\r\n");
            on_line = 0;
        }
        assert(out@ =~= old(out)@ + frame_lines(frames));
    }
    if on_line > 0 {
        push_text(out, "\r\n");
    }
    push_text(out, "end\r\n");
    assert(out@ =~= old(out)@ + frame_dump(frames));
}

/// The sector of a sample.
pub open spec fn sector_of(sample: u8) -> u8 {
    sample / 2 % 8
}

/// The ring in time order from `head` on, oldest first: place `i`.
pub open spec fn aged(snap: Seq<u8>, head: int, i: int) -> u8 {
    snap[(head + i) % (snap.len() as int)]
}

/// A revolution starts at place `i`: sector 5 before it, sector 0 there.
pub open spec fn rev_starts_at(snap: Seq<u8>, head: int, i: int) -> bool {
    sector_of(aged(snap, head, i - 1)) == 5 && sector_of(aged(snap, head, i)) == 0
}

/// The places from `from` on at which a revolution starts, newest first.
pub open spec fn rev_starts(snap: Seq<u8>, head: int, from: int) -> Seq<int>
    decreases snap.len() - from,
{
    if from >= snap.len() {
        Seq::empty()
    } else if rev_starts_at(snap, head, from) {
        rev_starts(snap, head, from + 1).push(from)
    } else {
        rev_starts(snap, head, from + 1)
    }
}

/// The last two complete revolutions in a sample ring: where they start and
/// how long they are, or how many starts there were when they do not fit.
pub open spec fn rev_span(snap: Seq<u8>, head: int) -> Result<(int, int), int> {
    let starts = rev_starts(snap, head, 1);
    if starts.len() >= 3 {
        Ok(((head + starts[2]) % (snap.len() as int), starts[0] - starts[2]))
    } else {
        Err(starts.len() as int)
    }
}

/// Places between `from` and the end of the ring, newest first.
pub open spec fn newest_first(starts: Seq<int>, from: int, end: int) -> bool {
    &&& forall|k: int| 0 <= k < starts.len() ==> from <= #[trigger] starts[k] < end
    &&& forall|j: int, k: int|
        0 <= j < k < starts.len() ==> (#[trigger] starts[j]) > (#[trigger] starts[k])
}

/// Starts are listed newest first and inside the ring.
proof fn lemma_rev_starts_order(snap: Seq<u8>, head: int, from: int)
    ensures
        newest_first(rev_starts(snap, head, from), from, snap.len() as int),
    decreases snap.len() - from,
{
    if from < snap.len() {
        lemma_rev_starts_order(snap, head, from + 1);
        let later = rev_starts(snap, head, from + 1);
        let all = rev_starts(snap, head, from);
        assert forall|k: int| 0 <= k < all.len() implies from <= #[trigger] all[k]
            < snap.len() by {
            if k < later.len() {
                assert(all[k] == later[k]);
            }
        }
        assert forall|j: int, k: int| 0 <= j < k < all.len() implies (#[trigger] all[j]) > (
        #[trigger] all[k]) by {
            assert(all[j] == later[j]);
            if k < later.len() {
                assert(all[k] == later[k]);
            }
        }
    }
}

/// Older starts only add to the end of the list.
proof fn lemma_rev_starts_prefix(snap: Seq<u8>, head: int, from: int, later: int)
    requires
        from <= later,
    ensures
        rev_starts(snap, head, later).len() <= rev_starts(snap, head, from).len(),
        forall|k: int|
            0 <= k < rev_starts(snap, head, later).len() ==> rev_starts(snap, head, from)[k]
                == #[trigger] rev_starts(snap, head, later)[k],
    decreases later - from,
{
    if from < later {
        lemma_rev_starts_prefix(snap, head, from + 1, later);
    }
}

/// Finds the last two complete revolutions in a sample ring, whose next
/// slot is `head`: the slot they start at and their length, or the number
/// of starts found when there are too few.
pub fn pwm_rev_span(snap: &[u8], head: usize) -> (r: Result<(usize, usize), usize>)
    requires
        is_pow2(snap.len() as int),
        head + snap.len() <= usize::MAX,
    ensures
        match r {
            Ok((start, length)) => rev_span(snap@, head as int) == Ok::<(int, int), int>(
                (start as int, length as int),
            ),
            Err(found) => rev_span(snap@, head as int) == Err::<(int, int), int>(found as int),
        },
{
    proof {
        reveal(is_pow2);
        lemma_rev_starts_order(snap@, head as int, 1);
    }
    let n: usize = snap.len();
    let mut newest: usize = 0;
    let mut found: usize = 0;
    let mut p: usize = n - 1;
    let mut newer_sec: u8 = snap[(head + p) % n] / 2 % 8;
    while p >= 1
        invariant
            n == snap.len(),
            n >= 1,
            p < n,
            head + n <= usize::MAX,
            found <= 2,
            found == rev_starts(snap@, head as int, p + 1).len(),
            found >= 1 ==> newest == rev_starts(snap@, head as int, p + 1)[0],
            newer_sec == sector_of(aged(snap@, head as int, p as int)),
            newest_first(rev_starts(snap@, head as int, 1), 1, n as int),
        decreases p,
    {
        let cur_sec: u8 = snap[(head + p - 1) % n] / 2 % 8;
        if cur_sec == 5 && newer_sec == 0 {
            assert(rev_starts(snap@, head as int, p as int) == rev_starts(
                snap@,
                head as int,
                p + 1,
            ).push(p as int));
            if found == 0 {
                newest = p;
            }
            found = found + 1;
            if found == 3 {
                proof {
                    lemma_rev_starts_prefix(snap@, head as int, 1, p as int);
                    let near = rev_starts(snap@, head as int, p as int);
                    let all = rev_starts(snap@, head as int, 1);
                    assert(all[0] == near[0]);
                    assert(all[2] == near[2]);
                    assert(near[2] == p);
                    assert(near[0] == newest);
                }
                return Ok(((head + p) % n, newest - p));
            }
        }
        newer_sec = cur_sec;
        p = p - 1;
    }
    Err(found)
}

/// The samples of a span, in time order.
pub open spec fn span_samples(snap: Seq<u8>, r_start: int, length: int) -> Seq<u8> {
    Seq::new(length as nat, |i: int| aged(snap, r_start, i))
}

/// The end of the run of one sector that holds place `i`.
pub open spec fn run_end(t: Seq<u8>, i: int) -> int
    decreases t.len() - i,
{
    if i + 1 >= t.len() {
        t.len() as int
    } else if sector_of(t[i + 1]) != sector_of(t[i]) {
        i + 1
    } else {
        run_end(t, i + 1)
    }
}

/// A run holds its place and ends inside the samples.
pub proof fn lemma_run_end(t: Seq<u8>, i: int)
    requires
        0 <= i < t.len(),
    ensures
        i < run_end(t, i) <= t.len(),
    decreases t.len() - i,
{
    if i + 1 < t.len() && sector_of(t[i + 1]) == sector_of(t[i]) {
        lemma_run_end(t, i + 1);
    }
}

/// The glyph of a sample, marked or not.
pub open spec fn sample_glyph(sample: u8, marked: bool) -> u8 {
    if sample % 2 == 1 {
        if marked {
            GLYPH_MARK_HIGH
        } else {
            GLYPH_HIGH
        }
    } else {
        if marked {
            GLYPH_MARK_LOW
        } else {
            GLYPH_LOW
        }
    }
}

/// The glyphs of a run; its middle is marked in the float sectors, unless
/// the run is a single sample.
pub open spec fn run_glyphs(run: Seq<u8>, floats: bool) -> Seq<u8> {
    let m = run.len() as int;
    Seq::new(run.len(), |k: int| sample_glyph(run[k], floats && m >= 2 && k == m / 2))
}

/// The label of a chunk.
pub open spec fn chunk_label(rev: nat, sector: nat) -> Seq<u8> {
    bytes_of("[rev ") + decimal(rev) + bytes_of(" sec ") + decimal(sector) + bytes_of("]: ")
}

/// The revolution label of the chunk at place `i`: the second sector 0
/// starts revolution 1.
pub open spec fn rev_label(t: Seq<u8>, i: int, label: nat) -> nat {
    if i > 0 && sector_of(t[i]) == 0 {
        1
    } else {
        label
    }
}

/// The dump of the samples from place `i` on, a chunk per run of a sector.
pub open spec fn sector_dump(t: Seq<u8>, i: int, label: nat, s0: u8, s1: u8) -> Seq<u8>
    decreases t.len() - i,
{
    if 0 <= i < t.len() {
        proof {
            lemma_run_end(t, i);
        }
        let sec = sector_of(t[i]);
        let rev = rev_label(t, i, label);
        let end = run_end(t, i);
        chunk_label(rev, sec as nat) + run_glyphs(t.subrange(i, end), sec == s0 || sec == s1)
            + bytes_of("\r\n") + sector_dump(t, end, rev, s0, s1)
    } else {
        Seq::empty()
    }
}

fn push_label(out: &mut Vec<u8>, rev: u32, sector: u32)
    ensures
        final(out)@ == old(out)@ + chunk_label(rev as nat, sector as nat),
{
    push_text(out, "[rev ");
    push_decimal(out, rev);
    push_text(out, " sec ");
    push_decimal(out, sector);
    push_text(out, "]: ");
    assert(out@ =~= old(out)@ + chunk_label(rev as nat, sector as nat));
}

/// Appends the aligned dump of a span of samples: a labelled chunk per
/// sector entry, low and high glyphs, and the expected crossing marked in
/// the two float sectors.
#[verifier::spinoff_prover]
#[verifier::rlimit(60)]
pub fn pwm_sector_dump(
    snap: &[u8],
    r_start: usize,
    length: usize,
    float_s0: u8,
    float_s1: u8,
    out: &mut Vec<u8>,
)
    requires
        is_pow2(snap.len() as int),
        r_start + length <= usize::MAX,
    ensures
        final(out)@ == old(out)@ + sector_dump(
            span_samples(snap@, r_start as int, length as int),
            0,
            0,
            float_s0,
            float_s1,
        ),
{
    proof {
        reveal(is_pow2);
    }
    let n: usize = snap.len();
    let ghost t = span_samples(snap@, r_start as int, length as int);
    let ghost whole = sector_dump(t, 0, 0, float_s0, float_s1);
    let mut label: u32 = 0;
    let mut i: usize = 0;
    while i < length
        invariant
            n == snap.len(),
            n >= 1,
            r_start + length <= usize::MAX,
            t == span_samples(snap@, r_start as int, length as int),
            i <= length,
            old(out)@ + whole == out@ + sector_dump(t, i as int, label as nat, float_s0, float_s1),
        decreases length - i,
    {
        proof {
            lemma_run_end(t, i as int);
        }
        let sec: u8 = snap[(r_start + i) % n] / 2 % 8;
        if sec == 0 && i > 0 {
            label = 1;
        }
        let mut end: usize = i + 1;
        while end < length && snap[(r_start + end) % n] / 2 % 8 == sec
            invariant
                n == snap.len(),
                n >= 1,
                r_start + length <= usize::MAX,
                t == span_samples(snap@, r_start as int, length as int),
                i < end <= length,
                sec == sector_of(t[i as int]),
                sector_of(t[end - 1]) == sec,
                run_end(t, end - 1) == run_end(t, i as int),
            decreases length - end,
        {
            end = end + 1;
        }
        assert(end == run_end(t, i as int));
        let ghost before = out@;
        push_label(out, label, sec as u32);
        let ghost labelled = out@;
        let m: usize = end - i;
        let marks: bool = (sec == float_s0 || sec == float_s1) && m >= 2;
        let mark: usize = m / 2;
        let ghost run = t.subrange(i as int, end as int);
        let ghost glyphs = run_glyphs(run, sec == float_s0 || sec == float_s1);
        let mut k: usize = 0;
        assert(out@ =~= labelled + glyphs.take(0));
        while k < m
            invariant
                n == snap.len(),
                n >= 1,
                r_start + length <= usize::MAX,
                t == span_samples(snap@, r_start as int, length as int),
                i + m == end,
                end <= length,
                k <= m,
                mark == m / 2,
                marks == ((sec == float_s0 || sec == float_s1) && m >= 2),
                run == t.subrange(i as int, end as int),
                glyphs == run_glyphs(run, sec == float_s0 || sec == float_s1),
                out@ == labelled + glyphs.take(k as int),
            decreases m - k,
        {
            let high: bool = snap[(r_start + i + k) % n] % 2 == 1;
            let marked: bool = marks && k == mark;
            let glyph: u8 = if high {
                if marked {
                    GLYPH_MARK_HIGH
                } else {
                    GLYPH_HIGH
                }
            } else {
                if marked {
                    GLYPH_MARK_LOW
                } else {
                    GLYPH_LOW
                }
            };
            out.push(glyph);
            assert(run[k as int] == t[i + k]);
            assert(glyph == glyphs[k as int]);
            assert(out@ =~= labelled + glyphs.take(k + 1));
            k = k + 1;
        }
        assert(glyphs.take(m as int) =~= glyphs);
        push_text(out, "\r\n");
        proof {
            let rest = sector_dump(t, end as int, label as nat, float_s0, float_s1);
            assert(out@ =~= before + (chunk_label(label as nat, sec as nat) + glyphs + bytes_of(
                "\r\n",
            )));
            assert(out@ + rest =~= before + (chunk_label(label as nat, sec as nat) + glyphs
                + bytes_of("\r\n") + rest));
        }
        i = end;
    }
    assert(out@ + Seq::<u8>::empty() =~= out@);
}

/// Whether the edge buffer can be dumped.
#[derive(Debug, Clone, Copy, PartialEq, Eq, Structural)]
pub enum EdgeDumpStatus {
    /// No complete pair of revolutions yet.
    Invalid,
    /// The motor is off: the half is stale.
    MotorOff,
    /// Dumpable.
    Ready {
        /// Span of the two revolutions, µs.
        window_us: u32,
    },
}

/// The verdict on an edge buffer: invalid until every sector start and the
/// end are populated, then stale while the motor is off.
pub open spec fn edge_status(
    sec_starts: Seq<u32>,
    window_end_tick: u32,
    electrical_hz: u32,
) -> EdgeDumpStatus {
    if window_end_tick == 0 || sec_starts.contains(0) {
        EdgeDumpStatus::Invalid
    } else if electrical_hz == 0 {
        EdgeDumpStatus::MotorOff
    } else {
        EdgeDumpStatus::Ready {
            window_us: window_end_tick.wrapping_sub(sec_starts[0]).wrapping_mul(10),
        }
    }
}

/// Whether the edge buffer can be dumped, and its span for the header.
pub fn edge_dump_status(
    sec_starts: &[u32; 12],
    window_end_tick: u32,
    electrical_hz: u32,
) -> (r: EdgeDumpStatus)
    ensures
        r == edge_status(sec_starts@, window_end_tick, electrical_hz),
{
    let mut k: usize = 0;
    let mut unset: bool = window_end_tick == 0;
    while k < 12
        invariant
            k <= 12,
            unset == (window_end_tick == 0 || exists|j: int| 0 <= j < k && sec_starts@[j] == 0),
        decreases 12 - k,
    {
        if sec_starts[k] == 0 {
            unset = true;
        }
        k = k + 1;
    }
    if unset {
        EdgeDumpStatus::Invalid
    } else if electrical_hz == 0 {
        EdgeDumpStatus::MotorOff
    } else {
        EdgeDumpStatus::Ready {
            window_us: window_end_tick.wrapping_sub(sec_starts[0]).wrapping_mul(10),
        }
    }
}

/// The glyph of a bin's edge count.
pub open spec fn glyph_of(count: u8) -> u8 {
    if count == 0 {
        GLYPH_LOW
    } else if count == 1 {
        GLYPH_MARK_LOW
    } else if count == 2 {
        GLYPH_TWO
    } else if count == 3 {
        GLYPH_MARK_HIGH
    } else {
        GLYPH_HIGH
    }
}

/// The glyph of a bin's edge count: `.`, `o`, `O`, `*`, and `#` from four.
pub fn edge_glyph(count: u8) -> (r: u8)
    ensures
        r == glyph_of(count),
{
    match count {
        0 => GLYPH_LOW,
        1 => GLYPH_MARK_LOW,
        2 => GLYPH_TWO,
        3 => GLYPH_MARK_HIGH,
        _ => GLYPH_HIGH,
    }
}

/// The bin of a tick, from the window start.
pub open spec fn bin_of(tick: u32, start: u32, bins: int) -> int {
    tick.wrapping_sub(start) as int % bins
}

/// The end tick of a chunk: the start of the next, or the window's end.
pub open spec fn chunk_end(sec_starts: Seq<u32>, window_end_tick: u32, s: int) -> u32 {
    if s + 1 < 12 {
        sec_starts[s + 1]
    } else {
        window_end_tick
    }
}

/// Chunk `s` of an edge dump: its label, then its bins and edge count, or a
/// note when its bins wrap.
pub open spec fn edge_chunk(
    snap: Seq<u8>,
    sec_starts: Seq<u32>,
    sec_counts: Seq<u32>,
    window_end_tick: u32,
    s: int,
) -> Seq<u8> {
    let bins = snap.len() as int;
    let from = bin_of(sec_starts[s], sec_starts[0], bins);
    let to = bin_of(chunk_end(sec_starts, window_end_tick, s), sec_starts[0], bins);
    let label = chunk_label((s / 6) as nat, (s % 6) as nat);
    if to < from {
        label + bytes_of("(range invalid)\r\n")
    } else {
        label + snap.subrange(from, to).map_values(|b: u8| glyph_of(b)) + bytes_of(" [") + decimal(
            sec_counts[s] as nat,
        ) + bytes_of("]\r\n")
    }
}

/// The first `n` chunks of an edge dump.
pub open spec fn edge_dump(
    snap: Seq<u8>,
    sec_starts: Seq<u32>,
    sec_counts: Seq<u32>,
    window_end_tick: u32,
    n: nat,
) -> Seq<u8>
    decreases n,
{
    if n == 0 {
        Seq::empty()
    } else {
        edge_dump(snap, sec_starts, sec_counts, window_end_tick, (n - 1) as nat) + edge_chunk(
            snap,
            sec_starts,
            sec_counts,
            window_end_tick,
            n - 1,
        )
    }
}

/// Appends the edge-buffer dump: twelve sector chunks, a glyph per bin, and
/// the edge count of each.
#[verifier::spinoff_prover]
#[verifier::rlimit(60)]
pub fn edge_dump_body(
    snap: &[u8],
    sec_starts: &[u32; 12],
    sec_counts: &[u32; 12],
    window_end_tick: u32,
    out: &mut Vec<u8>,
)
    requires
        is_pow2(snap.len() as int),
    ensures
        final(out)@ == old(out)@ + edge_dump(
            snap@,
            sec_starts@,
            sec_counts@,
            window_end_tick,
            12,
        ),
{
    proof {
        reveal(is_pow2);
    }
    let n: usize = snap.len();
    let start: u32 = sec_starts[0];
    let mut s: usize = 0;
    assert(out@ =~= old(out)@ + edge_dump(snap@, sec_starts@, sec_counts@, window_end_tick, 0));
    while s < 12
        invariant
            n == snap.len(),
            n >= 1,
            start == sec_starts@[0],
            s <= 12,
            out@ == old(out)@ + edge_dump(
                snap@,
                sec_starts@,
                sec_counts@,
                window_end_tick,
                s as nat,
            ),
        decreases 12 - s,
    {
        let ghost before = out@;
        let end_tick: u32 = if s + 1 < 12 {
            sec_starts[s + 1]
        } else {
            window_end_tick
        };
        let from: usize = sec_starts[s].wrapping_sub(start) as usize % n;
        let to: usize = end_tick.wrapping_sub(start) as usize % n;
        push_label(out, (s / 6) as u32, (s % 6) as u32);
        if to < from {
            push_text(out, "(range invalid)\r\n");
            assert(out@ =~= before + edge_chunk(
                snap@,
                sec_starts@,
                sec_counts@,
                window_end_tick,
                s as int,
            ));
        } else {
            let ghost labelled = out@;
            let ghost glyphs = snap@.subrange(from as int, to as int).map_values(
                |b: u8| glyph_of(b),
            );
            let mut k: usize = from;
            assert(out@ =~= labelled + glyphs.take(0));
            while k < to
                invariant
                    n == snap.len(),
                    from <= k <= to,
                    to <= n,
                    glyphs == snap@.subrange(from as int, to as int).map_values(
                        |b: u8| glyph_of(b),
                    ),
                    out@ == labelled + glyphs.take(k - from),
                decreases to - k,
            {
                out.push(edge_glyph(snap[k]));
                assert(out@ =~= labelled + glyphs.take(k + 1 - from));
                k = k + 1;
            }
            assert(glyphs.take(to - from) =~= glyphs);
            push_text(out, " [");
            push_decimal(out, sec_counts[s]);
            push_text(out, "]\r\n");
            assert(out@ =~= before + edge_chunk(
                snap@,
                sec_starts@,
                sec_counts@,
                window_end_tick,
                s as int,
            ));
        }
        s = s + 1;
        assert(out@ =~= old(out)@ + edge_dump(
            snap@,
            sec_starts@,
            sec_counts@,
            window_end_tick,
            s as nat,
        ));
    }
}

/// A span found in a sample ring is exactly two revolutions: it starts at
/// one start, ends at another, and has exactly one more between them.
pub proof fn law_span_is_two_revolutions(snap: Seq<u8>, head: int)
    requires
        rev_span(snap, head) is Ok,
    ensures
        ({
            let starts = rev_starts(snap, head, 1);
            let length = (rev_span(snap, head)->Ok_0).1;
            &&& rev_starts_at(snap, head, starts[2])
            &&& rev_starts_at(snap, head, starts[2] + length)
            &&& 0 < length < snap.len()
            &&& starts[2] < starts[1] < starts[2] + length
            &&& rev_starts_at(snap, head, starts[1])
            &&& forall|p: int|
                starts[2] < p < starts[2] + length && p != starts[1] ==> !#[trigger] rev_starts_at(
                    snap,
                    head,
                    p,
                )
        }),
{
    lemma_rev_starts_order(snap, head, 1);
    lemma_rev_starts_complete(snap, head, 1);
    let starts = rev_starts(snap, head, 1);
    assert forall|p: int|
        starts[2] < p < starts[0] && p != starts[1] implies !#[trigger] rev_starts_at(
        snap,
        head,
        p,
    ) by {
        if rev_starts_at(snap, head, p) {
            let k = choose|k: int| 0 <= k < starts.len() && starts[k] == p;
            assert(k == 0 || k == 1 || k == 2 || k > 2);
        }
    }
}

/// The list holds exactly the places at which a revolution starts.
proof fn lemma_rev_starts_complete(snap: Seq<u8>, head: int, from: int)
    requires
        1 <= from,
    ensures
        forall|k: int|
            0 <= k < rev_starts(snap, head, from).len() ==> rev_starts_at(
                snap,
                head,
                #[trigger] rev_starts(snap, head, from)[k],
            ),
        forall|p: int|
            from <= p < snap.len() && #[trigger] rev_starts_at(snap, head, p) ==> exists|k: int|
                0 <= k < rev_starts(snap, head, from).len() && #[trigger] rev_starts(
                    snap,
                    head,
                    from,
                )[k] == p,
    decreases snap.len() - from,
{
    if from < snap.len() {
        lemma_rev_starts_complete(snap, head, from + 1);
        let later = rev_starts(snap, head, from + 1);
        let all = rev_starts(snap, head, from);
        assert forall|p: int|
            from <= p < snap.len() && #[trigger] rev_starts_at(snap, head, p) implies exists|k: int|
            0 <= k < all.len() && #[trigger] all[k] == p by {
            if p == from {
                assert(all[all.len() - 1] == p);
            } else {
                let k = choose|k: int| 0 <= k < later.len() && #[trigger] later[k] == p;
                assert(all[k] == p);
            }
        }
    }
}

/// Every frame takes ten characters, and every eighth ends a line.
pub proof fn law_frame_lines_length(frames: Seq<[u16; 4]>)
    ensures
        frame_lines(frames).len() == 10 * frames.len() + 2 * (frames.len() / 8),
    decreases frames.len(),
{
    if frames.len() > 0 {
        law_frame_lines_length(frames.drop_last());
        lemma_line_end_length();
        law_frame_reads_back(frames.last()@);
    }
}

/// The bytes of two words, each with its low byte first.
pub open spec fn pair_bytes(x: u16, y: u16) -> Seq<u8> {
    seq![(x % 256) as u8, (x / 256) as u8, (y % 256) as u8, (y / 256) as u8]
}

/// A frame is ten characters: five that write the number of the first two
/// words, and five that write that of the last two, each word with its low
/// byte first.
pub proof fn law_frame_reads_back(w: Seq<u16>)
    requires
        w.len() == 4,
    ensures
        frame_chars(w).len() == 10,
        chars_value(frame_chars(w).take(5)) == group_value(pair_bytes(w[0], w[1])),
        chars_value(frame_chars(w).skip(5)) == group_value(pair_bytes(w[2], w[3])),
{
    reveal(frame_chars);
    let a = pair_bytes(w[0], w[1]);
    let b = pair_bytes(w[2], w[3]);
    law_group_reads_back(a);
    law_group_reads_back(b);
    assert(a =~= seq![
        byte0(w[0] as int),
        byte1(w[0] as int),
        byte0(w[1] as int),
        byte1(w[1] as int),
    ]);
    assert(b =~= seq![
        byte0(w[2] as int),
        byte1(w[2] as int),
        byte0(w[3] as int),
        byte1(w[3] as int),
    ]);
    assert(frame_chars(w).take(5) =~= group_chars(a));
    assert(frame_chars(w).skip(5) =~= group_chars(b));
}

/// The glyphs: `.` and `#` for a low and a high sample, `o` and `*` for them
/// at a mark; and `.`, `o`, `O`, `*`, `#` for no edge to four and more.
pub proof fn law_glyphs(sample: u8, count: u8)
    ensures
        sample_glyph(sample, false) == if sample % 2 == 0 {
            0x2Eu8
        } else {
            0x23u8
        },
        sample_glyph(sample, true) == if sample % 2 == 0 {
            0x6Fu8
        } else {
            0x2Au8
        },
        glyph_of(0) == 0x2E && glyph_of(1) == 0x6F && glyph_of(2) == 0x4F && glyph_of(3) == 0x2A,
        count >= 4 ==> glyph_of(count) == 0x23,
{
}

/// A run shows each of its samples in order; its middle one is marked in a
/// float sector, unless it is the only one, and no other is.
pub proof fn law_run_marks_its_middle(run: Seq<u8>, floats: bool, k: int)
    requires
        0 <= k < run.len(),
    ensures
        run_glyphs(run, floats).len() == run.len(),
        ({
            let g = run_glyphs(run, floats)[k];
            &&& floats && run.len() >= 2 && 2 * k <= run.len() < 2 * k + 2 ==> g == sample_glyph(
                run[k],
                true,
            )
            &&& !floats || run.len() == 1 || 2 * k > run.len() || run.len() >= 2 * k + 2 ==> g
                == sample_glyph(run[k], false)
        }),
{
}

/// A chunk is a whole run: every sample in it is of one sector, and the next
/// one, if there is one, of another. The sector of a sample is what its bits
/// 1 to 3 say.
pub proof fn law_chunks_are_whole_runs(t: Seq<u8>, i: int)
    requires
        0 <= i < t.len(),
    ensures
        i < run_end(t, i) <= t.len(),
        forall|k: int| i <= k < run_end(t, i) ==> sector_of(#[trigger] t[k]) == sector_of(t[i]),
        run_end(t, i) < t.len() ==> sector_of(t[run_end(t, i)]) != sector_of(t[i]),
        ({
            let top = t[i] as int / 16;
            let low = t[i] as int % 2;
            t[i] == 16 * top + 2 * sector_of(t[i]) + low && sector_of(t[i]) <= 7
        }),
    decreases t.len() - i,
{
    if i + 1 < t.len() && sector_of(t[i + 1]) == sector_of(t[i]) {
        law_chunks_are_whole_runs(t, i + 1);
    }
}

/// The label of a chunk turns to the second revolution at the second entry
/// into sector 0, and stays.
pub proof fn law_label_turns_once(t: Seq<u8>, i: int, label: nat)
    requires
        label <= 1,
    ensures
        rev_label(t, 0, 0) == 0,
        i > 0 && sector_of(t[i]) == 0 ==> rev_label(t, i, label) == 1,
        i > 0 && sector_of(t[i]) != 0 ==> rev_label(t, i, label) == label,
        rev_label(t, i, 1) == 1,
{
}

/// An edge buffer is dumpable once all twelve starts and the end are set and
/// the motor turns; its span is ten times the ticks from the first start to
/// the end.
pub proof fn law_edge_buffer_readiness(starts: Seq<u32>, ticks: u32, hz: u32)
    requires
        starts.len() == 12,
        10 * ticks <= u32::MAX,
    ensures
        ({
            let end = starts[0].wrapping_add(ticks);
            let set = end != 0 && forall|k: int| 0 <= k < 12 ==> #[trigger] starts[k] != 0;
            let status = edge_status(starts, end, hz);
            &&& !set ==> status == EdgeDumpStatus::Invalid
            &&& set && hz == 0 ==> status == EdgeDumpStatus::MotorOff
            &&& set && hz != 0 ==> status == (EdgeDumpStatus::Ready {
                window_us: (10 * ticks) as u32,
            })
        }),
{
    let end = starts[0].wrapping_add(ticks);
    assert(end.wrapping_sub(starts[0]) == ticks);
    assert(starts.contains(0) <==> !(forall|k: int| 0 <= k < 12 ==> #[trigger] starts[k] != 0));
}

/// The chunks of an edge dump meet: each ends where the next one starts, and
/// the last one at the end of the window. A bin is the ticks since the first
/// start, around the buffer.
pub proof fn law_edge_chunks_meet(starts: Seq<u32>, end: u32, s: int, ticks: u32, bins: int)
    requires
        starts.len() == 12,
        0 <= s < 11,
        bins > 0,
    ensures
        chunk_end(starts, end, s) == starts[s + 1],
        chunk_end(starts, end, 11) == end,
        bin_of(starts[0], starts[0], bins) == 0,
        ticks < bins ==> bin_of(starts[0].wrapping_add(ticks), starts[0], bins) == ticks,
{
    assert(starts[0].wrapping_add(ticks).wrapping_sub(starts[0]) == ticks);
    assert(starts[0].wrapping_sub(starts[0]) == 0);
    if ticks < bins {
        vstd::arithmetic::div_mod::lemma_small_mod(ticks as nat, bins as nat);
    }
    vstd::arithmetic::div_mod::lemma_small_mod(0, bins as nat);
}

/// A span starts at the slot of a revolution's first sample and is as long as
/// two revolutions: sector 0 there and just past its end, and sector 5 just
/// before each.
pub proof fn law_span_starts_and_ends_at_sector_0(snap: Seq<u8>, head: int)
    requires
        rev_span(snap, head) is Ok,
        0 <= head,
    ensures
        ({
            let start = (rev_span(snap, head)->Ok_0).0;
            let length = (rev_span(snap, head)->Ok_0).1;
            let n = snap.len() as int;
            &&& 0 <= start < n
            &&& sector_of(snap[start]) == 0
            &&& sector_of(aged(snap, start, n - 1)) == 5
            &&& sector_of(aged(snap, start, length)) == 0
            &&& sector_of(aged(snap, start, length - 1)) == 5
        }),
{
    law_span_is_two_revolutions(snap, head);
    lemma_rev_starts_order(snap, head, 1);
    let starts = rev_starts(snap, head, 1);
    let n = snap.len() as int;
    let a = head + starts[2];
    let length = starts[0] - starts[2];
    assert((a % n + length) % n == (a + length) % n) by {
        vstd::arithmetic::div_mod::lemma_add_mod_noop_right(length, a, n);
    }
    assert((a % n + (length - 1)) % n == (a + length - 1) % n) by {
        vstd::arithmetic::div_mod::lemma_add_mod_noop_right(length - 1, a, n);
    }
    assert((a % n + (n - 1)) % n == (a - 1) % n) by {
        vstd::arithmetic::div_mod::lemma_add_mod_noop_right(n - 1, a, n);
        vstd::arithmetic::div_mod::lemma_mod_add_multiples_vanish(a - 1, n);
    }
    assert(0 <= a % n < n) by {
        vstd::arithmetic::div_mod::lemma_mod_bound(a, n);
    }
    assert((a % n) % n == a % n) by {
        vstd::arithmetic::div_mod::lemma_mod_twice(a, n);
    }
}

/// A dump ends every line it began, and says where it ends: ten characters a
/// frame, two for every eight frames and for the rest of them, and five more.
pub proof fn law_frame_dump_length(frames: Seq<[u16; 4]>)
    ensures
        frame_dump(frames).len() == 10 * frames.len() + 2 * ((frames.len() + 7) / 8) + 5,
{
    law_frame_lines_length(frames);
    lemma_line_end_length();
    lemma_dump_end_length();
}

/// The chunk at place `i` shows its run sample by sample after its label, the
/// middle one marked in the float sectors, and the rest of the samples follow
/// on the next line.
pub proof fn law_sector_dump_shows_the_run(t: Seq<u8>, i: int, label: nat, s0: u8, s1: u8, k: int)
    requires
        0 <= i < t.len(),
        i <= k < run_end(t, i),
    ensures
        ({
            let d = sector_dump(t, i, label, s0, s1);
            let sec = sector_of(t[i]);
            let head = chunk_label(rev_label(t, i, label), sec as nat);
            let m = run_end(t, i) - i;
            let at = k - i;
            let marked = (sec == s0 || sec == s1) && m >= 2 && 2 * at <= m < 2 * at + 2;
            let next = head.len() + m + 2;
            &&& d.take(head.len() as int) == head
            &&& d[head.len() + at] == if t[k] % 2 == 0 {
                if marked {
                    0x6Fu8
                } else {
                    0x2Eu8
                }
            } else {
                if marked {
                    0x2Au8
                } else {
                    0x23u8
                }
            }
            &&& d.skip(next) == sector_dump(t, run_end(t, i), rev_label(t, i, label), s0, s1)
        }),
{
    lemma_run_end(t, i);
    lemma_line_end_length();
    let d = sector_dump(t, i, label, s0, s1);
    let sec = sector_of(t[i]);
    let rev = rev_label(t, i, label);
    let end = run_end(t, i);
    let head = chunk_label(rev, sec as nat);
    let glyphs = run_glyphs(t.subrange(i, end), sec == s0 || sec == s1);
    let rest = sector_dump(t, end, rev, s0, s1);
    assert(d == head + glyphs + bytes_of("\r\n") + rest);
    assert(glyphs.len() == end - i);
    assert(d.take(head.len() as int) =~= head);
    assert(d[head.len() + (k - i)] == glyphs[k - i]);
    assert(d.skip(head.len() + (end - i) + 2) =~= rest);
}

/// A chunk of an edge dump whose bins do not wrap shows them one by one after
/// its label, from the bin of its start to that of its end, under its sector
/// and revolution.
pub proof fn law_edge_chunk_shows_its_bins(
    snap: Seq<u8>,
    starts: Seq<u32>,
    counts: Seq<u32>,
    end: u32,
    s: int,
    k: int,
)
    requires
        starts.len() == 12,
        0 <= s < 12,
        snap.len() > 0,
        ({
            let n = snap.len() as int;
            let from = starts[s].wrapping_sub(starts[0]) as int % n;
            let to = chunk_end(starts, end, s).wrapping_sub(starts[0]) as int % n;
            0 <= k < to - from
        }),
    ensures
        ({
            let n = snap.len() as int;
            let from = starts[s].wrapping_sub(starts[0]) as int % n;
            let head = chunk_label(
                if s < 6 {
                    0
                } else {
                    1
                },
                (s % 6) as nat,
            );
            let c = edge_chunk(snap, starts, counts, end, s);
            &&& c.take(head.len() as int) == head
            &&& c[head.len() + k] == glyph_of(snap[from + k])
        }),
{
    let n = snap.len() as int;
    let from = bin_of(starts[s], starts[0], n);
    let to = bin_of(chunk_end(starts, end, s), starts[0], n);
    let head = chunk_label((s / 6) as nat, (s % 6) as nat);
    let c = edge_chunk(snap, starts, counts, end, s);
    vstd::arithmetic::div_mod::lemma_mod_bound(starts[s].wrapping_sub(starts[0]) as int, n);
    vstd::arithmetic::div_mod::lemma_mod_bound(
        chunk_end(starts, end, s).wrapping_sub(starts[0]) as int,
        n,
    );
    let glyphs = snap.subrange(from, to).map_values(|b: u8| glyph_of(b));
    assert(glyphs.len() == to - from);
    assert(c.take(head.len() as int) =~= head);
    assert(c[head.len() + k] == glyphs[k]);
}

} // verus!
