//! Lower-case hexadecimal text.
use vstd::prelude::*;

verus! {

/// The character of one hexadecimal digit.
pub open spec fn hex_digit(d: int) -> char
    recommends
        0 <= d < 16,
{
    if d < 10 {
        ('0' as int + d) as char
    } else {
        ('a' as int + d - 10) as char
    }
}

/// `bytes` in hexadecimal, two digits each, the high one first.
pub open spec fn hex_text(bytes: Seq<u8>) -> Seq<char> {
    Seq::new(
        2 * bytes.len(),
        |i: int|
            if i % 2 == 0 {
                hex_digit(bytes[i / 2] as int / 16)
            } else {
                hex_digit(bytes[i / 2] as int % 16)
            },
    )
}

/// Different bytes have different hexadecimal texts.
pub proof fn lemma_hex_text_injective(x: Seq<u8>, y: Seq<u8>)
    requires
        hex_text(x) == hex_text(y),
    ensures
        x == y,
{
    assert(hex_text(x).len() == 2 * x.len() && hex_text(y).len() == 2 * y.len());
    assert forall|i: int| 0 <= i < x.len() implies x[i] == y[i] by {
        let (a, b) = (x[i] as int, y[i] as int);
        assert(hex_text(x)[2 * i] == hex_digit(a / 16));
        assert(hex_text(y)[2 * i] == hex_digit(b / 16));
        assert(hex_text(x)[2 * i + 1] == hex_digit(a % 16));
        assert(hex_text(y)[2 * i + 1] == hex_digit(b % 16));
        assert(a / 16 == b / 16 && a % 16 == b % 16);
    }
    assert(x =~= y);
}

} // verus!
