//! Text out of numbers and literals, appended to a byte buffer.

use vstd::prelude::*;
use vstd::string::*;

use crate::am32::{decimal_value, is_digit};

verus! {

/// ASCII `0`.
pub const DIGIT_0: u8 = 0x30;

/// ASCII space.
pub const SPACE: u8 = 0x20;

/// The decimal digits of a number, without leading zeros.
pub open spec fn decimal(n: nat) -> Seq<u8>
    decreases n,
{
    if n < 10 {
        seq![(DIGIT_0 + n) as u8]
    } else {
        decimal(n / 10).push((DIGIT_0 + n % 10) as u8)
    }
}

/// `s` with spaces before it up to a width.
pub open spec fn right_aligned(s: Seq<u8>, width: nat) -> Seq<u8> {
    if s.len() < width {
        Seq::new((width - s.len()) as nat, |i: int| SPACE) + s
    } else {
        s
    }
}

/// The bytes of a text.
pub open spec fn bytes_of(s: &str) -> Seq<u8> {
    s.spec_bytes()
}

/// Appends a literal.
pub(crate) fn push_text(out: &mut Vec<u8>, s: &str)
    ensures
        final(out)@ == old(out)@ + bytes_of(s),
{
    out.extend_from_slice(s.as_bytes());
}

/// Appends the decimal digits of a number.
pub(crate) fn push_decimal(out: &mut Vec<u8>, n: u32)
    ensures
        final(out)@ == old(out)@ + decimal(n as nat),
    decreases n,
{
    if n >= 10 {
        push_decimal(out, n / 10);
    }
    out.push(DIGIT_0 + (n % 10) as u8);
    assert(out@ =~= old(out)@ + decimal(n as nat));
}

/// Appends the decimal digits of a number, right-aligned.
pub(crate) fn push_decimal_aligned(out: &mut Vec<u8>, n: u32, width: usize)
    ensures
        final(out)@ == old(out)@ + right_aligned(decimal(n as nat), width as nat),
{
    let mut digits: Vec<u8> = Vec::new();
    push_decimal(&mut digits, n);
    assert(digits@ =~= decimal(n as nat));
    let mut k: usize = digits.len();
    let ghost first = digits@.len();
    while k < width
        invariant
            first == digits@.len(),
            first <= k,
            k <= width || k == first,
            out@ == old(out)@ + Seq::new((k - first) as nat, |i: int| SPACE),
        decreases width - k,
    {
        out.push(SPACE);
        k = k + 1;
        assert(out@ =~= old(out)@ + Seq::new((k - first) as nat, |i: int| SPACE));
    }
    out.extend_from_slice(digits.as_slice());
    assert(out@ =~= old(out)@ + right_aligned(decimal(n as nat), width as nat));
}

/// A line end is two bytes.
pub(crate) proof fn lemma_line_end_length()
    ensures
        bytes_of("\r\n").len() == 2,
{
    reveal_strlit("\r\n");
    is_ascii_spec_bytes("\r\n");
}

/// The end of a dump is five bytes.
pub(crate) proof fn lemma_dump_end_length()
    ensures
        bytes_of("end\r\n").len() == 5,
{
    reveal_strlit("end\r\n");
    is_ascii_spec_bytes("end\r\n");
}

/// The digits of a number write that number, and nothing but digits.
pub proof fn law_decimal_reads_back(n: nat)
    ensures
        decimal_value(decimal(n)) == n,
        decimal(n).len() >= 1,
        forall|k: int| 0 <= k < decimal(n).len() ==> is_digit(#[trigger] decimal(n)[k]),
    decreases n,
{
    if n >= 10 {
        law_decimal_reads_back(n / 10);
        assert(decimal(n).drop_last() =~= decimal(n / 10));
    } else {
        assert(decimal(n).drop_last() =~= Seq::<u8>::empty());
        assert(decimal_value(decimal(n).drop_last()) == 0);
    }
}

/// Aligning puts spaces in front, as many as are missing to the width, and
/// keeps the text.
pub proof fn law_alignment_keeps_the_text(s: Seq<u8>, width: nat)
    ensures
        ({
            let t = right_aligned(s, width);
            let pad = t.len() - s.len();
            &&& t.len() == if s.len() >= width {
                s.len()
            } else {
                width
            }
            &&& forall|i: int| 0 <= i < pad ==> #[trigger] t[i] == 0x20
            &&& forall|i: int| 0 <= i < s.len() ==> t[pad + i] == #[trigger] s[i]
        }),
{
}

/// A number has no leading zero, and one digit more at every power of ten.
pub proof fn law_decimal_has_no_leading_zero(n: nat)
    ensures
        n > 0 ==> decimal(n)[0] != 0x30,
        n <= 9 ==> decimal(n).len() == 1 && decimal(n)[0] == 0x30 + n,
        n >= 10 ==> decimal(n).len() == decimal(n / 10).len() + 1,
    decreases n,
{
    if n >= 10 {
        law_decimal_has_no_leading_zero(n / 10);
        law_decimal_reads_back(n / 10);
        assert(decimal(n)[0] == decimal(n / 10)[0]);
    }
}

} // verus!
