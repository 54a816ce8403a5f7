//! The standard Base64 form of some bytes, with padding.
use vstd::prelude::*;

verus! {

/// The symbol of a six-bit value.
pub open spec fn base64_symbol(v: int) -> char
    recommends
        0 <= v < 64,
{
    if v < 26 {
        ('A' as int + v) as char
    } else if v < 52 {
        ('a' as int + v - 26) as char
    } else if v < 62 {
        ('0' as int + v - 52) as char
    } else if v == 62 {
        '+'
    } else {
        '/'
    }
}

/// `bytes` in Base64: four symbols for every three bytes, six bits each. A last group of one or
/// two bytes is filled up with zero bits, and its text with `'='`.
pub open spec fn base64_text(bytes: Seq<u8>) -> Seq<char>
    decreases bytes.len(),
{
    if bytes.len() == 0 {
        seq![]
    } else {
        let a = bytes[0] as int;
        let b = if bytes.len() > 1 { bytes[1] as int } else { 0 };
        let c = if bytes.len() > 2 { bytes[2] as int } else { 0 };
        let group = seq![
            base64_symbol(a / 4),
            base64_symbol((a % 4) * 16 + b / 16),
            if bytes.len() > 1 { base64_symbol((b % 16) * 4 + c / 64) } else { '=' },
            if bytes.len() > 2 { base64_symbol(c % 64) } else { '=' },
        ];
        if bytes.len() <= 3 {
            group
        } else {
            group + base64_text(bytes.skip(3))
        }
    }
}

/// The bytes that a text stands for in Base64, or `None` where it is the form of no bytes.
pub open spec fn base64_bytes(text: Seq<char>) -> Option<Seq<u8>> {
    if exists|bytes: Seq<u8>| text == #[trigger] base64_text(bytes) {
        Some(choose|bytes: Seq<u8>| text == #[trigger] base64_text(bytes))
    } else {
        None
    }
}

proof fn lemma_symbol_injective(v: int, w: int)
    requires
        0 <= v < 64,
        0 <= w < 64,
        base64_symbol(v) == base64_symbol(w),
    ensures
        v == w,
{
}

proof fn lemma_symbol_not_padding(v: int)
    requires
        0 <= v < 64,
    ensures
        base64_symbol(v) != '=',
{
}

proof fn lemma_base64_text_nonempty(bytes: Seq<u8>)
    requires
        bytes.len() > 0,
    ensures
        base64_text(bytes).len() >= 4,
{
}

/// Two sequences of bytes have the same Base64 text only where they are the same.
pub proof fn lemma_base64_text_injective(x: Seq<u8>, y: Seq<u8>)
    requires
        base64_text(x) == base64_text(y),
    ensures
        x == y,
    decreases x.len(),
{
    if x.len() == 0 || y.len() == 0 {
        if x.len() > 0 {
            lemma_base64_text_nonempty(x);
        }
        if y.len() > 0 {
            lemma_base64_text_nonempty(y);
        }
        assert(x =~= y);
    } else {
        let t = base64_text(x);
        let u = base64_text(y);
        let (a, b, c) = (
            x[0] as int,
            if x.len() > 1 { x[1] as int } else { 0 },
            if x.len() > 2 { x[2] as int } else { 0 },
        );
        let (d, e, f) = (
            y[0] as int,
            if y.len() > 1 { y[1] as int } else { 0 },
            if y.len() > 2 { y[2] as int } else { 0 },
        );
        assert(t[0] == u[0] && t[1] == u[1] && t[2] == u[2] && t[3] == u[3]);
        lemma_symbol_injective(a / 4, d / 4);
        lemma_symbol_injective((a % 4) * 16 + b / 16, (d % 4) * 16 + e / 16);
        assert(a == d && b / 16 == e / 16);
        lemma_symbol_not_padding((b % 16) * 4 + c / 64);
        lemma_symbol_not_padding((e % 16) * 4 + f / 64);
        lemma_symbol_not_padding(c % 64);
        lemma_symbol_not_padding(f % 64);
        assert((x.len() > 1) == (y.len() > 1));
        assert((x.len() > 2) == (y.len() > 2));
        if x.len() > 1 {
            lemma_symbol_injective((b % 16) * 4 + c / 64, (e % 16) * 4 + f / 64);
            assert(b == e && c / 64 == f / 64);
        }
        if x.len() > 2 {
            lemma_symbol_injective(c % 64, f % 64);
            assert(c == f);
        }
        assert(t.len() == 4 || x.len() > 3);
        assert(t.skip(4) =~= if x.len() > 3 { base64_text(x.skip(3)) } else { seq![] });
        assert(u.skip(4) =~= if y.len() > 3 { base64_text(y.skip(3)) } else { seq![] });
        if x.len() > 3 || y.len() > 3 {
            if x.len() > 3 {
                lemma_base64_text_nonempty(x.skip(3));
            }
            if y.len() > 3 {
                lemma_base64_text_nonempty(y.skip(3));
            }
            assert(x.len() > 3 && y.len() > 3);
            lemma_base64_text_injective(x.skip(3), y.skip(3));
            assert forall|i: int| 0 <= i < x.len() implies x[i] == y[i] by {
                if i >= 3 {
                    assert(x[i] == x.skip(3)[i - 3]);
                    assert(y[i] == y.skip(3)[i - 3]);
                }
            }
            assert(x.len() == x.skip(3).len() + 3);
        }
        assert(x =~= y);
    }
}

/// Decoding gives back the bytes that a text was made from.
pub proof fn lemma_base64_bytes(bytes: Seq<u8>)
    ensures
        base64_bytes(base64_text(bytes)) == Some(bytes),
{
    let text = base64_text(bytes);
    let chosen = choose|b: Seq<u8>| text == #[trigger] base64_text(b);
    lemma_base64_text_injective(chosen, bytes);
}

} // verus!
