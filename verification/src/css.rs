//! Glk colour values written as CSS colours.
use vstd::prelude::*;
use vstd::string::{StrSliceExecFns, StringExecFns};

verus! {

/// The upper-case hexadecimal digit for `d`.
pub open spec fn hex_char(d: u32) -> char {
    if d < 10 {
        (d + 48) as char
    } else {
        (d + 55) as char
    }
}

/// The `k`-th hexadecimal digit of `c`, counting from the least significant.
pub open spec fn nibble(c: u32, k: u32) -> u32 {
    (c >> (4 * k)) & 0xF
}

/// How many digits `#{:06X}` writes for `c`: six, or more when needed.
pub open spec fn css_digit_count(c: u32) -> u32 {
    if c >= 0x1000_0000 {
        8
    } else if c >= 0x0100_0000 {
        7
    } else {
        6
    }
}

/// A colour written as `#` and upper-case hexadecimal digits, zero-padded to
/// at least six digits.
pub open spec fn css_colour(c: u32) -> Seq<char> {
    let n = css_digit_count(c);
    seq!['#'] + Seq::new(n as nat, |i: int| hex_char(nibble(c, (n - 1 - i) as u32)))
}

/// Writes a colour value as a CSS colour, `#` followed by the value in
/// upper-case hexadecimal with at least six digits.
pub fn colour_code_to_css(colour: u32) -> (r: String)
    ensures
        r@ == css_colour(colour),
{
    let digits = "0123456789ABCDEF";
    proof {
        reveal_strlit("0123456789ABCDEF");
        reveal_strlit("#");
    }
    let n: u32 = if colour >= 0x1000_0000 {
        8
    } else if colour >= 0x0100_0000 {
        7
    } else {
        6
    };
    let mut out = String::from_str("#");
    let mut i: u32 = 0;
    while i < n
        invariant
            n == css_digit_count(colour),
            i <= n,
            digits@ == seq!['0', '1', '2', '3', '4', '5', '6', '7', '8', '9', 'A', 'B', 'C', 'D', 'E', 'F'],
            digits.is_ascii(),
            out@ == seq!['#'] + Seq::new(i as nat, |j: int| hex_char(nibble(colour, (n - 1 - j) as u32))),
        decreases n - i,
    {
        let k: u32 = n - 1 - i;
        let d: u32 = (colour >> (4 * k)) & 0xF;
        assert(d < 16) by (bit_vector)
            requires
                d == (colour >> (4 * k)) & 0xF,
        ;
        let digit = digits.substring_ascii(d as usize, d as usize + 1);
        assert(digit@ =~= seq![hex_char(d)]);
        let ghost before = out@;
        out.append(digit);
        i = i + 1;
        assert(out@ =~= seq!['#'] + Seq::new(i as nat, |j: int| hex_char(nibble(colour, (n - 1 - j) as u32))));
    }
    out
}

/// The value of an upper-case hexadecimal digit, or -1 for any other
/// character.
pub open spec fn hex_digit_value(ch: char) -> int {
    if '0' <= ch && ch <= '9' {
        ch as int - '0' as int
    } else if 'A' <= ch && ch <= 'F' {
        ch as int - 'A' as int + 10
    } else {
        -1
    }
}

/// The number that a string of hexadecimal digits denotes.
pub open spec fn hex_value(digits: Seq<char>) -> int
    decreases digits.len(),
{
    if digits.len() == 0 {
        0
    } else {
        hex_value(digits.drop_last()) * 16 + hex_digit_value(digits.last())
    }
}

proof fn lemma_hex_char_value(d: u32)
    requires
        d < 16,
    ensures
        0 <= hex_digit_value(hex_char(d)) == d,
{
}

/// A CSS colour is `#` and upper-case hexadecimal digits that read back as
/// the colour: six digits for colours below 0x1000000, and no more digits
/// than the colour needs otherwise.
pub proof fn lemma_css_colour_reads_back(c: u32)
    ensures
        css_colour(c).len() >= 7,
        css_colour(c)[0] == '#',
        forall|i: int| 1 <= i < css_colour(c).len() ==> 0 <= #[trigger] hex_digit_value(css_colour(c)[i]) < 16,
        hex_value(css_colour(c).skip(1)) == c,
        c < 0x100_0000 ==> css_colour(c).len() == 7,
        css_colour(c).len() > 7 ==> hex_digit_value(css_colour(c)[1]) != 0,
{
    let s = css_colour(c);
    let n = css_digit_count(c);
    let digits = s.skip(1);
    assert forall|i: int| 1 <= i < s.len() implies 0 <= #[trigger] hex_digit_value(s[i]) < 16 by {
        let k = (n - 1 - (i - 1)) as u32;
        assert(nibble(c, k) < 16) by (bit_vector)
            requires
                k < 8,
        ;
        lemma_hex_char_value(nibble(c, k));
    }
    let n0 = c & 0xF;
    let n1 = (c >> 4) & 0xF;
    let n2 = (c >> 8) & 0xF;
    let n3 = (c >> 12) & 0xF;
    let n4 = (c >> 16) & 0xF;
    let n5 = (c >> 20) & 0xF;
    let n6 = (c >> 24) & 0xF;
    let n7 = (c >> 28) & 0xF;
    assert(c as int == n7 * 0x1000_0000 + n6 * 0x100_0000 + n5 * 0x10_0000 + n4 * 0x1_0000 + n3
        * 0x1000 + n2 * 0x100 + n1 * 0x10 + n0) by (bit_vector)
        requires
            n0 == c & 0xF,
            n1 == (c >> 4) & 0xF,
            n2 == (c >> 8) & 0xF,
            n3 == (c >> 12) & 0xF,
            n4 == (c >> 16) & 0xF,
            n5 == (c >> 20) & 0xF,
            n6 == (c >> 24) & 0xF,
            n7 == (c >> 28) & 0xF,
    ;
    assert(c < 0x1000_0000 ==> n7 == 0) by (bit_vector)
        requires
            n7 == (c >> 28) & 0xF,
    ;
    assert(c < 0x100_0000 ==> n6 == 0) by (bit_vector)
        requires
            n6 == (c >> 24) & 0xF,
    ;
    assert(c >= 0x1000_0000 ==> n7 != 0) by (bit_vector)
        requires
            n7 == (c >> 28) & 0xF,
    ;
    assert(c >= 0x100_0000 && c < 0x1000_0000 ==> n6 != 0) by (bit_vector)
        requires
            n6 == (c >> 24) & 0xF,
    ;
    assert(nibble(c, 0) == n0 && n0 < 16) by (bit_vector)
        requires
            n0 == c & 0xF,
    ;
    assert(nibble(c, 1) == n1 && n1 < 16) by (bit_vector)
        requires
            n1 == (c >> 4) & 0xF,
    ;
    assert(nibble(c, 2) == n2 && n2 < 16) by (bit_vector)
        requires
            n2 == (c >> 8) & 0xF,
    ;
    assert(nibble(c, 3) == n3 && n3 < 16) by (bit_vector)
        requires
            n3 == (c >> 12) & 0xF,
    ;
    assert(nibble(c, 4) == n4 && n4 < 16) by (bit_vector)
        requires
            n4 == (c >> 16) & 0xF,
    ;
    assert(nibble(c, 5) == n5 && n5 < 16) by (bit_vector)
        requires
            n5 == (c >> 20) & 0xF,
    ;
    assert(nibble(c, 6) == n6 && n6 < 16) by (bit_vector)
        requires
            n6 == (c >> 24) & 0xF,
    ;
    assert(nibble(c, 7) == n7 && n7 < 16) by (bit_vector)
        requires
            n7 == (c >> 28) & 0xF,
    ;
    lemma_hex_char_value(n0);
    lemma_hex_char_value(n1);
    lemma_hex_char_value(n2);
    lemma_hex_char_value(n3);
    lemma_hex_char_value(n4);
    lemma_hex_char_value(n5);
    lemma_hex_char_value(n6);
    lemma_hex_char_value(n7);
    assert(digits.len() == n);
    reveal_with_fuel(hex_value, 9);
    if n == 6 {
        assert(digits =~= seq![hex_char(n5), hex_char(n4), hex_char(n3), hex_char(n2), hex_char(n1), hex_char(n0)]);
    } else if n == 7 {
        assert(digits =~= seq![hex_char(n6), hex_char(n5), hex_char(n4), hex_char(n3), hex_char(n2), hex_char(n1), hex_char(n0)]);
    } else {
        assert(digits =~= seq![hex_char(n7), hex_char(n6), hex_char(n5), hex_char(n4), hex_char(n3), hex_char(n2), hex_char(n1), hex_char(n0)]);
    }
}

} // verus!
