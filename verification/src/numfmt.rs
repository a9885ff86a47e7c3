//! Decimal and hexadecimal text forms of integers, used when drawing
//! primitives are written out as markup.

use vstd::prelude::*;

verus! {

/// The decimal digit character for `d`, which must lie in 0 through 9.
pub open spec fn dec_digit(d: int) -> char {
    if d == 0 {
        '0'
    } else if d == 1 {
        '1'
    } else if d == 2 {
        '2'
    } else if d == 3 {
        '3'
    } else if d == 4 {
        '4'
    } else if d == 5 {
        '5'
    } else if d == 6 {
        '6'
    } else if d == 7 {
        '7'
    } else if d == 8 {
        '8'
    } else {
        '9'
    }
}

/// Decimal digits of `n`, most significant first, without a sign.
pub open spec fn dec_seq(n: int) -> Seq<char>
    recommends
        0 <= n,
    decreases n,
{
    if n < 10 {
        seq![dec_digit(n)]
    } else {
        dec_seq(n / 10).push(dec_digit(n % 10))
    }
}

/// Decimal form of `x`, with a leading minus sign when `x` is negative.
pub open spec fn int_seq(x: int) -> Seq<char> {
    if x < 0 {
        seq!['-'] + dec_seq(-x)
    } else {
        dec_seq(x)
    }
}

/// The lowercase hexadecimal digit character for `d`, which must lie in 0
/// through 15.
pub open spec fn hex_digit(d: int) -> char {
    if d == 10 {
        'a'
    } else if d == 11 {
        'b'
    } else if d == 12 {
        'c'
    } else if d == 13 {
        'd'
    } else if d == 14 {
        'e'
    } else if d == 15 {
        'f'
    } else {
        dec_digit(d)
    }
}

/// Lowercase hexadecimal digits of `n`, most significant first, without a
/// leading `0x` and without padding.
pub open spec fn hex_seq(n: int) -> Seq<char>
    recommends
        0 <= n,
    decreases n,
{
    if n < 16 {
        seq![hex_digit(n)]
    } else {
        hex_seq(n / 16).push(hex_digit(n % 16))
    }
}

/// Append the single decimal digit `d` to `out`.
fn append_dec_digit(out: &mut String, d: u32)
    requires
        d < 10,
    ensures
        final(out)@ == old(out)@ + seq![dec_digit(d as int)],
{
    if d == 0 {
        out.append("0");
        proof {
            reveal_strlit("0");
            assert(out@ =~= old(out)@ + seq![dec_digit(d as int)]);
        }
    } else if d == 1 {
        out.append("1");
        proof {
            reveal_strlit("1");
            assert(out@ =~= old(out)@ + seq![dec_digit(d as int)]);
        }
    } else if d == 2 {
        out.append("2");
        proof {
            reveal_strlit("2");
            assert(out@ =~= old(out)@ + seq![dec_digit(d as int)]);
        }
    } else if d == 3 {
        out.append("3");
        proof {
            reveal_strlit("3");
            assert(out@ =~= old(out)@ + seq![dec_digit(d as int)]);
        }
    } else if d == 4 {
        out.append("4");
        proof {
            reveal_strlit("4");
            assert(out@ =~= old(out)@ + seq![dec_digit(d as int)]);
        }
    } else if d == 5 {
        out.append("5");
        proof {
            reveal_strlit("5");
            assert(out@ =~= old(out)@ + seq![dec_digit(d as int)]);
        }
    } else if d == 6 {
        out.append("6");
        proof {
            reveal_strlit("6");
            assert(out@ =~= old(out)@ + seq![dec_digit(d as int)]);
        }
    } else if d == 7 {
        out.append("7");
        proof {
            reveal_strlit("7");
            assert(out@ =~= old(out)@ + seq![dec_digit(d as int)]);
        }
    } else if d == 8 {
        out.append("8");
        proof {
            reveal_strlit("8");
            assert(out@ =~= old(out)@ + seq![dec_digit(d as int)]);
        }
    } else {
        out.append("9");
        proof {
            reveal_strlit("9");
            assert(out@ =~= old(out)@ + seq![dec_digit(d as int)]);
        }
    }
}

/// Append the single lowercase hexadecimal digit `d` to `out`.
fn append_hex_digit(out: &mut String, d: u32)
    requires
        d < 16,
    ensures
        final(out)@ == old(out)@ + seq![hex_digit(d as int)],
{
    if d < 10 {
        append_dec_digit(out, d);
    } else if d == 10 {
        out.append("a");
        proof {
            reveal_strlit("a");
            assert(out@ =~= old(out)@ + seq![hex_digit(d as int)]);
        }
    } else if d == 11 {
        out.append("b");
        proof {
            reveal_strlit("b");
            assert(out@ =~= old(out)@ + seq![hex_digit(d as int)]);
        }
    } else if d == 12 {
        out.append("c");
        proof {
            reveal_strlit("c");
            assert(out@ =~= old(out)@ + seq![hex_digit(d as int)]);
        }
    } else if d == 13 {
        out.append("d");
        proof {
            reveal_strlit("d");
            assert(out@ =~= old(out)@ + seq![hex_digit(d as int)]);
        }
    } else if d == 14 {
        out.append("e");
        proof {
            reveal_strlit("e");
            assert(out@ =~= old(out)@ + seq![hex_digit(d as int)]);
        }
    } else {
        out.append("f");
        proof {
            reveal_strlit("f");
            assert(out@ =~= old(out)@ + seq![hex_digit(d as int)]);
        }
    }
}

/// Append the decimal digits of `n` to `out`.
pub fn append_dec_u32(out: &mut String, n: u32)
    ensures
        final(out)@ == old(out)@ + dec_seq(n as int),
    decreases n,
{
    if n >= 10 {
        append_dec_u32(out, n / 10);
        append_dec_digit(out, n % 10);
        proof {
            assert(out@ =~= old(out)@ + dec_seq(n as int));
        }
    } else {
        append_dec_digit(out, n);
    }
}

/// Append the decimal form of `x`, sign included, to `out`.
pub fn append_dec_i32(out: &mut String, x: i32)
    ensures
        final(out)@ == old(out)@ + int_seq(x as int),
{
    if x < 0 {
        out.append("-");
        let magnitude: u32 = (-(x as i64)) as u32;
        append_dec_u32(out, magnitude);
        proof {
            reveal_strlit("-");
            assert("-"@ =~= seq!['-']);
            assert(out@ =~= old(out)@ + int_seq(x as int));
        }
    } else {
        append_dec_u32(out, x as u32);
    }
}

/// Append the lowercase hexadecimal digits of `n` to `out`.
pub fn append_hex_u32(out: &mut String, n: u32)
    ensures
        final(out)@ == old(out)@ + hex_seq(n as int),
    decreases n,
{
    if n >= 16 {
        append_hex_u32(out, n / 16);
        append_hex_digit(out, n % 16);
        proof {
            assert(out@ =~= old(out)@ + hex_seq(n as int));
        }
    } else {
        append_hex_digit(out, n);
    }
}

} // verus!
