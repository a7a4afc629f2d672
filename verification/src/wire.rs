//! The window-record wire format: a 28-byte frame with a sync pair and no
//! checksum, so decoding carries the field-sanity rules that keep a
//! mislocked stream from passing as data.

use vstd::prelude::*;

use crate::bits::{from_le16, hi16, hi_byte, lo_byte, low16, to_signed16, to_unsigned16};
use crate::bits::{byte0, byte1, join16, signed16};

verus! {

/// First sync byte.
pub const SYNC0: u8 = 0x5A;

/// Second sync byte; it names the frame layout with the window length in
/// microseconds.
pub const SYNC1_V5: u8 = 0xA7;

/// Frame length in bytes.
pub const FRAME_LEN_V5: usize = 28;

/// The frame length under its older name.
pub const FRAME_LEN_V4: usize = FRAME_LEN_V5;

/// The prediction error that means "no prediction".
pub const PRED_NONE: i16 = i16::MIN;

/// One float window as it goes over the wire.
#[derive(Debug, Clone, Copy, PartialEq, Eq, Structural)]
pub struct WindowRec {
    /// Window start in 10 µs ticks.
    pub start_10us: u32,
    /// Window length in µs.
    pub len_us: u16,
    /// First zero-cross, µs from the window start; `0xFFFF` is none.
    pub zc_off_us: u16,
    /// Raw comparator edges.
    pub raw: u16,
    /// Edges late enough to count.
    pub valid: u16,
    /// Smallest current sample.
    pub i_min: u16,
    /// Largest current sample.
    pub i_max: u16,
    /// Mean current sample.
    pub i_avg: u16,
    /// Qualified zero-cross, µs from the window start; `0xFFFF` is none.
    pub qzc_off_us: u16,
    /// Boundary prediction error in µs; [`PRED_NONE`] is none.
    pub pred_err_us: i16,
    /// Lowest battery sample since the last streamed window.
    pub vbat_raw: u16,
    /// Commutation sector, 0 to 5.
    pub sector: u8,
    /// Sequence number.
    pub seq: u8,
}

/// An offset that fits a window of `len_us` (one µs of slack for the
/// truncated length), or the "none" value.
pub open spec fn offset_fits(off: u16, len_us: u16) -> bool {
    off == 0xFFFF || off <= len_us + 1
}

/// The record whose fields the first 28 bytes of `f` hold.
pub open spec fn fields_of(f: Seq<u8>) -> WindowRec {
    WindowRec {
        start_10us: (join16(f[4], f[5]) + 0x1_0000 * join16(f[6], f[7])) as u32,
        len_us: join16(f[8], f[9]) as u16,
        zc_off_us: join16(f[10], f[11]) as u16,
        raw: join16(f[12], f[13]) as u16,
        valid: join16(f[14], f[15]) as u16,
        i_min: join16(f[16], f[17]) as u16,
        i_max: join16(f[18], f[19]) as u16,
        i_avg: join16(f[20], f[21]) as u16,
        qzc_off_us: join16(f[22], f[23]) as u16,
        pred_err_us: signed16(join16(f[24], f[25])) as i16,
        vbat_raw: join16(f[26], f[27]) as u16,
        sector: (f[3] % 16) as u8,
        seq: f[2],
    }
}

/// The record that a byte string decodes to: `None` when it is short, out
/// of sync, or holds fields that no window can have.
pub open spec fn decoded(f: Seq<u8>) -> Option<WindowRec> {
    if f.len() >= FRAME_LEN_V5 && f[0] == SYNC0 && f[1] == SYNC1_V5 && fields_of(f).is_sane() {
        Some(fields_of(f))
    } else {
        None
    }
}

impl WindowRec {
    /// The fields that a real window can have: sector 0 to 5, a length
    /// above 0 and under 30 ms, no more valid than raw edges, ordered
    /// 12-bit currents, and zero-cross offsets inside the window.
    pub open spec fn is_sane(self) -> bool {
        &&& self.sector <= 5
        &&& 0 < self.len_us < 30_000
        &&& self.valid <= self.raw
        &&& self.i_min <= 0x0FFF
        &&& self.i_max <= 0x0FFF
        &&& self.i_min <= self.i_avg <= self.i_max
        &&& offset_fits(self.zc_off_us, self.len_us)
        &&& offset_fits(self.qzc_off_us, self.len_us)
    }

    /// The byte that carries the sector in its low nibble and, in bit 7,
    /// whether the window saw a zero-cross.
    pub open spec fn head_byte(self) -> u8 {
        (self.sector % 16 + (if self.zc_off_us != 0xFFFF {
            0x80int
        } else {
            0int
        })) as u8
    }

    /// The 16-bit words of the frame after its head, in wire order: the two
    /// halves of the start time, then the fields.
    pub open spec fn word(self, k: int) -> int {
        if k == 0 {
            self.start_10us as int % 0x1_0000
        } else if k == 1 {
            self.start_10us as int / 0x1_0000
        } else if k == 2 {
            self.len_us as int
        } else if k == 3 {
            self.zc_off_us as int
        } else if k == 4 {
            self.raw as int
        } else if k == 5 {
            self.valid as int
        } else if k == 6 {
            self.i_min as int
        } else if k == 7 {
            self.i_max as int
        } else if k == 8 {
            self.i_avg as int
        } else if k == 9 {
            self.qzc_off_us as int
        } else if k == 10 {
            self.pred_err_us as int
        } else {
            self.vbat_raw as int
        }
    }

    /// Byte `i` of the frame: sync pair, sequence, head byte, then the words
    /// in little-endian order.
    pub open spec fn frame_byte(self, i: int) -> u8 {
        if i == 0 {
            SYNC0
        } else if i == 1 {
            SYNC1_V5
        } else if i == 2 {
            self.seq
        } else if i == 3 {
            self.head_byte()
        } else if i % 2 == 0 {
            byte0(self.word((i - 4) / 2))
        } else {
            byte1(self.word((i - 5) / 2))
        }
    }

    /// The frame of this record.
    pub open spec fn frame(self) -> Seq<u8> {
        Seq::new(FRAME_LEN_V5 as nat, |i: int| self.frame_byte(i))
    }

    /// Encodes the record into one frame.
    pub fn encode(&self) -> (r: [u8; FRAME_LEN_V5])
        ensures
            r@ == self.frame(),
    {
        let flag: u8 = if self.zc_off_us != 0xFFFF {
            0x80
        } else {
            0
        };
        let pred: u16 = to_unsigned16(self.pred_err_us);
        let start_lo: u16 = low16(self.start_10us);
        let start_hi: u16 = hi16(self.start_10us);
        let f: [u8; FRAME_LEN_V5] = [
            SYNC0,
            SYNC1_V5,
            self.seq,
            self.sector % 16 + flag,
            lo_byte(start_lo),
            hi_byte(start_lo),
            lo_byte(start_hi),
            hi_byte(start_hi),
            lo_byte(self.len_us),
            hi_byte(self.len_us),
            lo_byte(self.zc_off_us),
            hi_byte(self.zc_off_us),
            lo_byte(self.raw),
            hi_byte(self.raw),
            lo_byte(self.valid),
            hi_byte(self.valid),
            lo_byte(self.i_min),
            hi_byte(self.i_min),
            lo_byte(self.i_max),
            hi_byte(self.i_max),
            lo_byte(self.i_avg),
            hi_byte(self.i_avg),
            lo_byte(self.qzc_off_us),
            hi_byte(self.qzc_off_us),
            lo_byte(pred),
            hi_byte(pred),
            lo_byte(self.vbat_raw),
            hi_byte(self.vbat_raw),
        ];
        assert(f@ =~= self.frame());
        f
    }

    /// Decodes one frame, or `None` (the caller then advances one byte and
    /// scans again).
    pub fn decode(f: &[u8]) -> (r: Option<Self>)
        ensures
            r == decoded(f@),
    {
        if f.len() < FRAME_LEN_V5 || f[0] != SYNC0 || f[1] != SYNC1_V5 {
            return None;
        }
        let sector: u8 = f[3] % 16;
        if sector > 5 {
            return None;
        }
        let len_us: u16 = from_le16(f[8], f[9]);
        let zc_off_us: u16 = from_le16(f[10], f[11]);
        let raw: u16 = from_le16(f[12], f[13]);
        let valid: u16 = from_le16(f[14], f[15]);
        let i_min: u16 = from_le16(f[16], f[17]);
        let i_max: u16 = from_le16(f[18], f[19]);
        let i_avg: u16 = from_le16(f[20], f[21]);
        let qzc_off_us: u16 = from_le16(f[22], f[23]);
        let zc_fits: bool = zc_off_us == 0xFFFF || zc_off_us as u32 <= len_us as u32 + 1;
        let qzc_fits: bool = qzc_off_us == 0xFFFF || qzc_off_us as u32 <= len_us as u32 + 1;
        let sane: bool = len_us > 0 && len_us < 30_000 && valid <= raw && i_min <= 0x0FFF && i_max
            <= 0x0FFF && i_min <= i_avg && i_avg <= i_max && zc_fits && qzc_fits;
        if !sane {
            return None;
        }
        let start_lo: u16 = from_le16(f[4], f[5]);
        let start_hi: u16 = from_le16(f[6], f[7]);
        Some(
            Self {
                start_10us: start_lo as u32 + 0x1_0000 * (start_hi as u32),
                len_us,
                zc_off_us,
                raw,
                valid,
                i_min,
                i_max,
                i_avg,
                qzc_off_us,
                pred_err_us: to_signed16(from_le16(f[24], f[25])),
                vbat_raw: from_le16(f[26], f[27]),
                sector,
                seq: f[2],
            },
        )
    }
}

/// Joining the two low bytes of a number gives it modulo 65536, and
/// splitting a joined number gives its bytes back.
proof fn lemma_join_split(x: int, lo: u8, hi: u8)
    ensures
        join16(byte0(x), byte1(x)) == x % 0x1_0000,
        byte0(join16(lo, hi)) == lo,
        byte1(join16(lo, hi)) == hi,
        byte0(signed16(join16(lo, hi))) == lo,
        byte1(signed16(join16(lo, hi))) == hi,
        0 <= join16(lo, hi) < 0x1_0000,
{
}

/// Word `k` of a frame reads back, modulo 65536.
proof fn lemma_frame_word(r: WindowRec, k: int)
    requires
        0 <= k < 12,
    ensures
        join16(r.frame()[2 * k + 4], r.frame()[2 * k + 5]) == r.word(k) % 0x1_0000,
{
    assert((2 * k + 4 - 4) / 2 == k);
    assert((2 * k + 5 - 5) / 2 == k);
    assert(r.frame()[2 * k + 4] == byte0(r.word(k)));
    assert(r.frame()[2 * k + 5] == byte1(r.word(k)));
    lemma_join_split(r.word(k), 0, 0);
}

/// A byte string that carries the words of `r` has the fields of `r`.
proof fn lemma_fields_of_words(f: Seq<u8>, r: WindowRec)
    requires
        f[2] == r.seq,
        f[3] % 16 == r.sector % 16,
        join16(f[4], f[5]) + 0x1_0000 * join16(f[6], f[7]) == r.start_10us,
        join16(f[8], f[9]) == r.len_us,
        join16(f[10], f[11]) == r.zc_off_us,
        join16(f[12], f[13]) == r.raw,
        join16(f[14], f[15]) == r.valid,
        join16(f[16], f[17]) == r.i_min,
        join16(f[18], f[19]) == r.i_max,
        join16(f[20], f[21]) == r.i_avg,
        join16(f[22], f[23]) == r.qzc_off_us,
        signed16(join16(f[24], f[25])) == r.pred_err_us,
        join16(f[26], f[27]) == r.vbat_raw,
    ensures
        fields_of(f) == (WindowRec { sector: (r.sector % 16) as u8, ..r }),
{
}

/// The fields of a frame are the record it was made from, with the sector
/// cut to its nibble.
proof fn lemma_fields_of_frame(r: WindowRec)
    ensures
        fields_of(r.frame()) == (WindowRec { sector: (r.sector % 16) as u8, ..r }),
{
    let f = r.frame();
    assert(f[2] == r.seq && f[3] == r.head_byte());
    assert(join16(f[4], f[5]) + 0x1_0000 * join16(f[6], f[7]) == r.start_10us) by {
        lemma_frame_word(r, 0);
        lemma_frame_word(r, 1);
    }
    assert(join16(f[8], f[9]) == r.len_us) by {
        lemma_frame_word(r, 2);
    }
    assert(join16(f[10], f[11]) == r.zc_off_us) by {
        lemma_frame_word(r, 3);
    }
    assert(join16(f[12], f[13]) == r.raw) by {
        lemma_frame_word(r, 4);
    }
    assert(join16(f[14], f[15]) == r.valid) by {
        lemma_frame_word(r, 5);
    }
    assert(join16(f[16], f[17]) == r.i_min) by {
        lemma_frame_word(r, 6);
    }
    assert(join16(f[18], f[19]) == r.i_max) by {
        lemma_frame_word(r, 7);
    }
    assert(join16(f[20], f[21]) == r.i_avg) by {
        lemma_frame_word(r, 8);
    }
    assert(join16(f[22], f[23]) == r.qzc_off_us) by {
        lemma_frame_word(r, 9);
    }
    assert(signed16(join16(f[24], f[25])) == r.pred_err_us) by {
        lemma_frame_word(r, 10);
    }
    assert(join16(f[26], f[27]) == r.vbat_raw) by {
        lemma_frame_word(r, 11);
    }
    lemma_fields_of_words(f, r);
}

/// Decoding an encoded record gives it back, for every record whose fields
/// a window can have.
pub proof fn law_roundtrip(r: WindowRec)
    requires
        r.is_sane(),
    ensures
        decoded(r.frame()) == Some(r),
{
    lemma_fields_of_frame(r);
}

/// The frame of a record whose fields no window can have decodes to
/// nothing. (A sector above 15 does not fit its nibble.)
pub proof fn law_insane_record_is_refused(r: WindowRec)
    requires
        !r.is_sane(),
        r.sector <= 15,
    ensures
        decoded(r.frame()) is None,
{
    lemma_fields_of_frame(r);
}

/// Encoding a decoded record gives the frame's bytes back. The head byte
/// keeps the sector in its low nibble, and its high nibble is set anew: its
/// top bit is set exactly when the frame has a first-edge offset.
pub proof fn law_reencode(f: Seq<u8>)
    requires
        decoded(f) is Some,
    ensures
        forall|i: int| 0 <= i < FRAME_LEN_V5 && i != 3 ==> (decoded(f)->0).frame()[i] == f[i],
        (decoded(f)->0).frame()[3] == f[3] % 16 + if f[10] == 0xFF && f[11] == 0xFF {
            0int
        } else {
            0x80int
        },
{
    assert forall|i: int| 0 <= i < FRAME_LEN_V5 && i != 3 implies (decoded(f)->0).frame()[i]
        == f[i] by {
        lemma_reencode_byte(f, i);
    }
}

/// A byte of the frame of the record that `f` holds is the byte of `f`.
proof fn lemma_reencode_byte(f: Seq<u8>, i: int)
    requires
        decoded(f) is Some,
        0 <= i < FRAME_LEN_V5,
        i != 3,
    ensures
        fields_of(f).frame_byte(i) == f[i],
{
    if i >= 4 {
        if i % 2 == 0 {
            lemma_reword(f, (i - 4) / 2);
        } else {
            lemma_reword(f, (i - 5) / 2);
        }
    }
}

/// A word of the record that `f` holds has the bytes it was read from.
proof fn lemma_reword(f: Seq<u8>, k: int)
    requires
        f.len() >= FRAME_LEN_V5,
        0 <= k < 12,
    ensures
        byte0(fields_of(f).word(k)) == f[2 * k + 4],
        byte1(fields_of(f).word(k)) == f[2 * k + 5],
{
    lemma_join_split(0, f[2 * k + 4], f[2 * k + 5]);
    if k < 2 {
        lemma_join_split(0, f[4], f[5]);
        lemma_join_split(0, f[6], f[7]);
        let lo = join16(f[4], f[5]);
        let hi = join16(f[6], f[7]);
        let start = fields_of(f).start_10us as int;
        assert(start == lo + 0x1_0000 * hi);
        assert(start % 0x1_0000 == lo && start / 0x1_0000 == hi);
    } else if k == 10 {
        assert(fields_of(f).word(k) == signed16(join16(f[24], f[25])));
    } else {
        assert(fields_of(f).word(k) == join16(f[2 * k + 4], f[2 * k + 5]));
    }
}

/// Where each field stands in a frame: sync pair, sequence number, the sector
/// with the edge flag on top, then twelve little-endian words, the start time
/// as two of them.
#[verifier::spinoff_prover]
#[verifier::rlimit(40)]
pub proof fn law_frame_layout(r: WindowRec)
    requires
        r.sector <= 15,
    ensures
        ({
            let f = r.frame();
            &&& f.len() == 28
            &&& f[0] == 0x5A && f[1] == 0xA7 && f[2] == r.seq
            &&& f[3] == r.sector + if r.zc_off_us == 0xFFFF {
                0int
            } else {
                128int
            }
            &&& f[4] + 256 * f[5] + 65_536 * f[6] + 16_777_216 * f[7] == r.start_10us
            &&& f[8] + 256 * f[9] == r.len_us
            &&& f[10] + 256 * f[11] == r.zc_off_us
            &&& f[12] + 256 * f[13] == r.raw
            &&& f[14] + 256 * f[15] == r.valid
            &&& f[16] + 256 * f[17] == r.i_min
            &&& f[18] + 256 * f[19] == r.i_max
            &&& f[20] + 256 * f[21] == r.i_avg
            &&& f[22] + 256 * f[23] == r.qzc_off_us
            &&& f[24] + 256 * f[25] == r.pred_err_us || f[24] + 256 * f[25] == r.pred_err_us
                + 65_536
            &&& f[26] + 256 * f[27] == r.vbat_raw
        }),
{
    let f = r.frame();
    assert(f[0] == 0x5A && f[1] == 0xA7 && f[2] == r.seq && f[3] == r.head_byte());
    assert(f[4] + 256 * f[5] + 65_536 * f[6] + 16_777_216 * f[7] == r.start_10us) by {
        lemma_frame_word(r, 0);
        lemma_frame_word(r, 1);
    }
    assert(f[8] + 256 * f[9] == r.len_us) by {
        lemma_frame_word(r, 2);
    }
    assert(f[10] + 256 * f[11] == r.zc_off_us) by {
        lemma_frame_word(r, 3);
    }
    assert(f[12] + 256 * f[13] == r.raw) by {
        lemma_frame_word(r, 4);
    }
    assert(f[14] + 256 * f[15] == r.valid) by {
        lemma_frame_word(r, 5);
    }
    assert(f[16] + 256 * f[17] == r.i_min) by {
        lemma_frame_word(r, 6);
    }
    assert(f[18] + 256 * f[19] == r.i_max) by {
        lemma_frame_word(r, 7);
    }
    assert(f[20] + 256 * f[21] == r.i_avg) by {
        lemma_frame_word(r, 8);
    }
    assert(f[22] + 256 * f[23] == r.qzc_off_us) by {
        lemma_frame_word(r, 9);
    }
    assert(f[24] + 256 * f[25] == r.pred_err_us || f[24] + 256 * f[25] == r.pred_err_us + 65_536)
        by {
        lemma_frame_word(r, 10);
    }
    assert(f[26] + 256 * f[27] == r.vbat_raw) by {
        lemma_frame_word(r, 11);
    }
}

/// What a decoder refuses: fewer than 28 bytes, another sync pair, a sector
/// over 5, a length of 0 or from 30 ms up, more valid than raw edges,
/// currents over 12 bits or out of order, and an offset beyond the window's
/// end and its µs of slack.
pub proof fn law_decode_refuses_what_no_window_has(f: Seq<u8>)
    ensures
        decoded(f) is Some <==> {
            &&& f.len() >= 28
            &&& f[0] == 0x5A && f[1] == 0xA7
            &&& f[3] % 16 <= 5
            &&& 1 <= f[8] + 256 * f[9] <= 29_999
            &&& f[14] + 256 * f[15] <= f[12] + 256 * f[13]
            &&& f[16] + 256 * f[17] <= 4095 && f[18] + 256 * f[19] <= 4095
            &&& f[16] + 256 * f[17] <= f[20] + 256 * f[21] <= f[18] + 256 * f[19]
            &&& f[10] + 256 * f[11] == 65_535 || f[10] + 256 * f[11] <= f[8] + 256 * f[9] + 1
            &&& f[22] + 256 * f[23] == 65_535 || f[22] + 256 * f[23] <= f[8] + 256 * f[9] + 1
        },
{
}

} // verus!
