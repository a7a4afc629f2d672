//! Ascii85 groups: four bytes as five printable characters.

use vstd::arithmetic::div_mod::lemma_div_denominator;
use vstd::prelude::*;

verus! {

/// The character of digit 0, ASCII `!`.
pub const A85_BASE: u8 = 33;

/// The big-endian number of four bytes.
#[verifier::opaque]
pub open spec fn group_value(b: Seq<u8>) -> int {
    b[0] * 0x100_0000 + b[1] * 0x1_0000 + b[2] * 0x100 + b[3]
}

/// The five characters of four bytes: the base-85 digits of their number,
/// highest first.
#[verifier::opaque]
pub open spec fn group_chars(b: Seq<u8>) -> Seq<u8> {
    let v = group_value(b);
    seq![
        (A85_BASE + v / 52_200_625) as u8,
        (A85_BASE + v / 614_125 % 85) as u8,
        (A85_BASE + v / 7_225 % 85) as u8,
        (A85_BASE + v / 85 % 85) as u8,
        (A85_BASE + v % 85) as u8,
    ]
}

/// Encodes one group. Zero has no short form.
pub fn encode_group(bytes: [u8; 4]) -> (r: [u8; 5])
    ensures
        r@ == group_chars(bytes@),
{
    let v: u32 = bytes[0] as u32 * 0x100_0000 + bytes[1] as u32 * 0x1_0000 + bytes[2] as u32 * 0x100
        + bytes[3] as u32;
    let d0: u8 = (v / 52_200_625) as u8;
    let d1: u8 = (v / 614_125 % 85) as u8;
    let d2: u8 = (v / 7_225 % 85) as u8;
    let d3: u8 = (v / 85 % 85) as u8;
    let d4: u8 = (v % 85) as u8;
    proof {
        reveal(group_chars);
        reveal(group_value);
    }
    let r: [u8; 5] = [A85_BASE + d0, A85_BASE + d1, A85_BASE + d2, A85_BASE + d3, A85_BASE + d4];
    assert(r@ =~= group_chars(bytes@));
    r
}

/// The number that five characters write.
#[verifier::opaque]
pub open spec fn chars_value(c: Seq<u8>) -> int {
    (c[0] - A85_BASE) * 52_200_625 + (c[1] - A85_BASE) * 614_125 + (c[2] - A85_BASE) * 7_225 + (c[3]
        - A85_BASE) * 85 + (c[4] - A85_BASE)
}

/// A group can be read back: its characters are printable and write the
/// number of its bytes.
pub proof fn law_group_reads_back(b: Seq<u8>)
    requires
        b.len() == 4,
    ensures
        group_chars(b).len() == 5,
        forall|k: int| 0 <= k < 5 ==> A85_BASE <= #[trigger] group_chars(b)[k] < A85_BASE + 85,
        chars_value(group_chars(b)) == group_value(b),
{
    reveal(group_chars);
    reveal(group_value);
    reveal(chars_value);
    let v = group_value(b);
    assert(0 <= v <= 0xFFFF_FFFF);
    lemma_base_85_digits(v);
    let c = group_chars(b);
    assert(c[0] == A85_BASE + v / 52_200_625);
    assert(c[1] == A85_BASE + v / 614_125 % 85);
    assert(c[2] == A85_BASE + v / 7_225 % 85);
    assert(c[3] == A85_BASE + v / 85 % 85);
    assert(c[4] == A85_BASE + v % 85);
}

/// Five base-85 digits hold every 32-bit number.
proof fn lemma_base_85_digits(v: int)
    requires
        0 <= v <= 0xFFFF_FFFF,
    ensures
        0 <= v / 52_200_625 < 85,
        v / 52_200_625 * 52_200_625 + v / 614_125 % 85 * 614_125 + v / 7_225 % 85 * 7_225 + v / 85
            % 85 * 85 + v % 85 == v,
{
    let q1 = v / 85;
    let q2 = q1 / 85;
    let q3 = q2 / 85;
    lemma_div_denominator(v, 85, 85);
    lemma_div_denominator(v, 7_225, 85);
    lemma_div_denominator(v, 614_125, 85);
    assert(q2 == v / 7_225);
    assert(q3 == v / 614_125);
    assert(q3 / 85 == v / 52_200_625);
    assert(v == q1 * 85 + v % 85);
    assert(q1 == q2 * 85 + q1 % 85);
    assert(q2 == q3 * 85 + q2 % 85);
    assert(q3 == q3 / 85 * 85 + q3 % 85);
}

/// The five characters, from `!` for 0 to `u` for 84, are the base-85 digits
/// of the four bytes taken in base 256, the first of each weighing most.
pub proof fn law_group_changes_the_base(b: Seq<u8>)
    requires
        b.len() == 4,
    ensures
        ({
            let c = group_chars(b);
            &&& c.len() == 5
            &&& forall|k: int| 0 <= k < 5 ==> 33 <= #[trigger] c[k] <= 117
            &&& (c[4] - 33) + 85 * (c[3] - 33) + 7_225 * (c[2] - 33) + 614_125 * (c[1] - 33)
                + 52_200_625 * (c[0] - 33) == b[3] + 256 * b[2] + 65_536 * b[1] + 16_777_216 * b[0]
        }),
{
    law_group_reads_back(b);
    reveal(group_value);
    reveal(chars_value);
}

} // verus!
