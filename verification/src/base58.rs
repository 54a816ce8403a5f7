//! What it means that a text is the Base58 form of some bytes.
//!
//! Base58 reads both the text and the bytes as numbers, most significant digit first. Zeros in
//! front do not change a number, so they are kept by count: one `'1'` for each zero byte.
use vstd::prelude::*;

verus! {

/// The value of a Base58 digit, or `None` for a character outside the alphabet, which leaves
/// out `0`, `I`, `O` and `l`.
pub open spec fn base58_digit(c: char) -> Option<nat> {
    let u = c as int;
    if '1' <= c <= '9' {
        Some((u - '1' as int) as nat)
    } else if 'A' <= c <= 'H' {
        Some((u - 'A' as int + 9) as nat)
    } else if 'J' <= c <= 'N' {
        Some((u - 'J' as int + 17) as nat)
    } else if 'P' <= c <= 'Z' {
        Some((u - 'P' as int + 22) as nat)
    } else if 'a' <= c <= 'k' {
        Some((u - 'a' as int + 33) as nat)
    } else if 'm' <= c <= 'z' {
        Some((u - 'm' as int + 44) as nat)
    } else {
        None
    }
}

/// Whether every character belongs to the Base58 alphabet.
pub open spec fn is_base58_text(text: Seq<char>) -> bool {
    forall|i: int| 0 <= i < text.len() ==> base58_digit(#[trigger] text[i]) is Some
}

/// The digits that a Base58 text spells.
pub open spec fn text_digits(text: Seq<char>) -> Seq<nat> {
    Seq::new(text.len(), |i: int| base58_digit(text[i]).unwrap_or(0))
}

/// The bytes as digits in base 256.
pub open spec fn byte_digits(bytes: Seq<u8>) -> Seq<nat> {
    Seq::new(bytes.len(), |i: int| bytes[i] as nat)
}

/// The number that `digits` spell in `base`, most significant digit first.
pub open spec fn number(digits: Seq<nat>, base: nat) -> nat
    decreases digits.len(),
{
    if digits.len() == 0 {
        0
    } else {
        number(digits.drop_last(), base) * base + digits.last()
    }
}

/// How many zeros `digits` start with.
pub open spec fn leading_zeros(digits: Seq<nat>) -> nat
    decreases digits.len(),
{
    if digits.len() == 0 || digits[0] != 0 {
        0
    } else {
        1 + leading_zeros(digits.skip(1))
    }
}

/// Whether `text` is the Base58 form of `bytes`.
pub open spec fn is_base58_of(text: Seq<char>, bytes: Seq<u8>) -> bool {
    &&& is_base58_text(text)
    &&& leading_zeros(text_digits(text)) == leading_zeros(byte_digits(bytes))
    &&& number(text_digits(text), 58) == number(byte_digits(bytes), 256)
}

/// The bytes that a text stands for in Base58, or `None` where it leaves the alphabet.
pub open spec fn base58_bytes(text: Seq<char>) -> Option<Seq<u8>> {
    if is_base58_text(text) {
        Some(choose|bytes: Seq<u8>| is_base58_of(text, bytes))
    } else {
        None
    }
}

spec fn are_digits(digits: Seq<nat>, base: nat) -> bool {
    forall|i: int| 0 <= i < digits.len() ==> #[trigger] digits[i] < base
}

proof fn lemma_leading_zeros(digits: Seq<nat>)
    ensures
        leading_zeros(digits) <= digits.len(),
        forall|i: int| 0 <= i < leading_zeros(digits) ==> digits[i] == 0,
        leading_zeros(digits) < digits.len() ==> digits[leading_zeros(digits) as int] != 0,
    decreases digits.len(),
{
    if digits.len() != 0 && digits[0] == 0 {
        let rest = digits.skip(1);
        lemma_leading_zeros(rest);
        assert forall|i: int| 0 <= i < leading_zeros(digits) implies digits[i] == 0 by {
            if i > 0 {
                assert(digits[i] == rest[i - 1]);
            }
        }
        if leading_zeros(digits) < digits.len() {
            assert(digits[leading_zeros(digits) as int] == rest[leading_zeros(rest) as int]);
        }
    }
}

/// Zeros in front do not change the number.
proof fn lemma_number_skip_zeros(digits: Seq<nat>, k: nat, base: nat)
    requires
        k <= digits.len(),
        forall|i: int| 0 <= i < k ==> digits[i] == 0,
    ensures
        number(digits, base) == number(digits.skip(k as int), base),
    decreases digits.len(),
{
    if digits.len() == k {
        if k > 0 {
            assert(digits.drop_last().skip(k - 1) =~= Seq::<nat>::empty());
            assert(digits.skip(k as int) =~= Seq::<nat>::empty());
            lemma_number_skip_zeros(digits.drop_last(), (k - 1) as nat, base);
            assert(digits.last() == 0);
            assert(number(digits.drop_last(), base) == 0);
            assert(0 * base == 0) by (nonlinear_arith);
        } else {
            assert(digits.skip(0) =~= digits);
        }
    } else {
        lemma_number_skip_zeros(digits.drop_last(), k, base);
        assert(digits.skip(k as int).drop_last() =~= digits.drop_last().skip(k as int));
        assert(digits.skip(k as int).last() == digits.last());
    }
}

/// A number with a first digit other than zero is positive.
proof fn lemma_number_positive(digits: Seq<nat>, base: nat)
    requires
        base >= 2,
        digits.len() > 0,
        digits[0] != 0,
    ensures
        number(digits, base) > 0,
    decreases digits.len(),
{
    if digits.len() > 1 {
        lemma_number_positive(digits.drop_last(), base);
        let n = number(digits.drop_last(), base);
        assert(n * base > 0) by (nonlinear_arith)
            requires
                n > 0,
                base >= 2,
        ;
    } else {
        assert(0 * base == 0) by (nonlinear_arith);
        assert(digits.drop_last().len() == 0);
        assert(digits.last() == digits[0]);
    }
}

/// Without zeros in front, a number is spelled in one way.
proof fn lemma_number_unique(a: Seq<nat>, b: Seq<nat>, base: nat)
    requires
        base >= 2,
        are_digits(a, base),
        are_digits(b, base),
        a.len() > 0 ==> a[0] != 0,
        b.len() > 0 ==> b[0] != 0,
        number(a, base) == number(b, base),
    ensures
        a == b,
    decreases a.len(),
{
    if a.len() == 0 || b.len() == 0 {
        if a.len() > 0 {
            lemma_number_positive(a, base);
        }
        if b.len() > 0 {
            lemma_number_positive(b, base);
        }
        assert(a =~= b);
    } else {
        let x = number(a.drop_last(), base);
        let y = number(b.drop_last(), base);
        assert(a.last() < base && b.last() < base);
        let p = a.last();
        let q = b.last();
        assert(x == y && p == q) by (nonlinear_arith)
            requires
                x * base + p == y * base + q,
                p < base,
                q < base,
        ;
        assert(are_digits(a.drop_last(), base)) by {
            assert forall|i: int| 0 <= i < a.drop_last().len() implies #[trigger] a.drop_last()[i]
                < base by {
                assert(a.drop_last()[i] == a[i]);
            }
        }
        assert(are_digits(b.drop_last(), base)) by {
            assert forall|i: int| 0 <= i < b.drop_last().len() implies #[trigger] b.drop_last()[i]
                < base by {
                assert(b.drop_last()[i] == b[i]);
            }
        }
        lemma_number_unique(a.drop_last(), b.drop_last(), base);
        assert(a =~= a.drop_last().push(a.last()));
        assert(b =~= b.drop_last().push(b.last()));
    }
}

/// The count of zeros in front and the number together fix the digits.
proof fn lemma_digits_unique(a: Seq<nat>, b: Seq<nat>, base: nat)
    requires
        base >= 2,
        are_digits(a, base),
        are_digits(b, base),
        leading_zeros(a) == leading_zeros(b),
        number(a, base) == number(b, base),
    ensures
        a == b,
{
    let k = leading_zeros(a);
    lemma_leading_zeros(a);
    lemma_leading_zeros(b);
    lemma_number_skip_zeros(a, k, base);
    lemma_number_skip_zeros(b, k, base);
    let a1 = a.skip(k as int);
    let b1 = b.skip(k as int);
    assert forall|i: int| 0 <= i < a1.len() implies #[trigger] a1[i] < base by {
        assert(a1[i] == a[i + k]);
    }
    assert forall|i: int| 0 <= i < b1.len() implies #[trigger] b1[i] < base by {
        assert(b1[i] == b[i + k]);
    }
    lemma_number_unique(a1, b1, base);
    assert(a.len() == b.len());
    assert forall|i: int| 0 <= i < a.len() implies a[i] == b[i] by {
        if i >= k {
            assert(a[i] == a1[i - k]);
            assert(b[i] == b1[i - k]);
        }
    }
    assert(a =~= b);
}

/// A Base58 text stands for one sequence of bytes only.
pub proof fn lemma_base58_bytes_unique(text: Seq<char>, a: Seq<u8>, b: Seq<u8>)
    requires
        is_base58_of(text, a),
        is_base58_of(text, b),
    ensures
        a == b,
{
    lemma_digits_unique(byte_digits(a), byte_digits(b), 256);
    assert(byte_digits(a).len() == a.len());
    assert(byte_digits(b).len() == b.len());
    assert forall|i: int| 0 <= i < a.len() implies a[i] == b[i] by {
        assert(byte_digits(a)[i] == byte_digits(b)[i]);
    }
    assert(a =~= b);
}

/// Bytes have one Base58 text only.
pub proof fn lemma_base58_text_unique(a: Seq<char>, b: Seq<char>, bytes: Seq<u8>)
    requires
        is_base58_of(a, bytes),
        is_base58_of(b, bytes),
    ensures
        a == b,
{
    assert forall|i: int| 0 <= i < a.len() implies #[trigger] text_digits(a)[i] < 58 by {
        assert(base58_digit(a[i]) is Some);
    }
    assert forall|i: int| 0 <= i < b.len() implies #[trigger] text_digits(b)[i] < 58 by {
        assert(base58_digit(b[i]) is Some);
    }
    lemma_digits_unique(text_digits(a), text_digits(b), 58);
    assert(text_digits(a).len() == a.len());
    assert(text_digits(b).len() == b.len());
    assert forall|i: int| 0 <= i < a.len() implies a[i] == b[i] by {
        assert(text_digits(a)[i] == text_digits(b)[i]);
        assert(base58_digit(a[i]) is Some);
        assert(base58_digit(b[i]) is Some);
    }
    assert(a =~= b);
}

/// Decoding gives back the bytes that a text was made from.
pub proof fn lemma_base58_bytes(text: Seq<char>, bytes: Seq<u8>)
    requires
        is_base58_of(text, bytes),
    ensures
        base58_bytes(text) == Some(bytes),
{
    let chosen = choose|b: Seq<u8>| is_base58_of(text, b);
    lemma_base58_bytes_unique(text, chosen, bytes);
}

/// The digits of `n` in `base`, without zeros in front.
spec fn digits_of(n: nat, base: nat) -> Seq<nat>
    decreases n,
{
    if n == 0 || base < 2 {
        seq![]
    } else {
        proof {
            assert(n / base < n) by (nonlinear_arith)
                requires
                    n > 0,
                    base >= 2,
            ;
        }
        digits_of(n / base, base).push(n % base)
    }
}

proof fn lemma_digits_of(n: nat, base: nat)
    requires
        base >= 2,
    ensures
        number(digits_of(n, base), base) == n,
        are_digits(digits_of(n, base), base),
        digits_of(n, base).len() > 0 ==> digits_of(n, base)[0] != 0,
        n > 0 ==> digits_of(n, base).len() > 0,
    decreases n,
{
    if n > 0 {
        assert(n / base < n && n % base < base && n == (n / base) * base + n % base)
            by (nonlinear_arith)
            requires
                n > 0,
                base >= 2,
        ;
        lemma_digits_of(n / base, base);
        let front = digits_of(n / base, base);
        let all = digits_of(n, base);
        assert(all == front.push(n % base));
        assert(all.drop_last() =~= front);
        if front.len() == 0 {
            assert(n / base == 0);
            assert(0 * base == 0) by (nonlinear_arith);
            assert(all[0] == n % base);
        } else {
            assert(all[0] == front[0]);
        }
    }
}

/// The character of a Base58 digit.
spec fn base58_char(d: nat) -> char {
    if d < 9 {
        ('1' as int + d) as char
    } else if d < 17 {
        ('A' as int + d - 9) as char
    } else if d < 22 {
        ('J' as int + d - 17) as char
    } else if d < 33 {
        ('P' as int + d - 22) as char
    } else if d < 44 {
        ('a' as int + d - 33) as char
    } else {
        ('m' as int + d - 44) as char
    }
}

/// `k` zeros before digits that start with none are `k` zeros in front.
proof fn lemma_leading_zeros_exact(digits: Seq<nat>, k: nat)
    requires
        k <= digits.len(),
        forall|i: int| 0 <= i < k ==> digits[i] == 0,
        k < digits.len() ==> digits[k as int] != 0,
    ensures
        leading_zeros(digits) == k,
{
    lemma_leading_zeros(digits);
    let z = leading_zeros(digits);
    if z < k {
        assert(digits[z as int] == 0);
    }
    if k < z {
        assert(digits[k as int] == 0);
    }
}

/// All bytes have a Base58 text.
pub proof fn lemma_base58_text_exists(bytes: Seq<u8>)
    ensures
        exists|text: Seq<char>| is_base58_of(text, bytes),
{
    let k = leading_zeros(byte_digits(bytes));
    let n = number(byte_digits(bytes), 256);
    let digits = digits_of(n, 58);
    lemma_digits_of(n, 58);
    let text = Seq::new(
        k + digits.len(),
        |i: int|
            if i < k {
                '1'
            } else {
                base58_char(digits[i - k])
            },
    );
    let all = text_digits(text);
    assert forall|i: int| 0 <= i < text.len() implies base58_digit(#[trigger] text[i]) == Some(
        if i < k {
            0
        } else {
            digits[i - k]
        },
    ) by {
        if i >= k {
            assert(digits[i - k] < 58);
        }
    }
    assert(forall|i: int| 0 <= i < k ==> all[i] == 0);
    assert(all.skip(k as int) =~= digits);
    if k < all.len() {
        assert(all[k as int] == digits[0]);
    }
    lemma_leading_zeros_exact(all, k);
    lemma_number_skip_zeros(all, k, 58);
    assert(is_base58_of(text, bytes));
}

/// All texts of the alphabet have bytes that they are the Base58 text of.
pub proof fn lemma_base58_bytes_exist(text: Seq<char>)
    requires
        is_base58_text(text),
    ensures
        exists|bytes: Seq<u8>| is_base58_of(text, bytes),
{
    let k = leading_zeros(text_digits(text));
    let n = number(text_digits(text), 58);
    let digits = digits_of(n, 256);
    lemma_digits_of(n, 256);
    let bytes = Seq::new(
        k + digits.len(),
        |i: int|
            if i < k {
                0u8
            } else {
                digits[i - k] as u8
            },
    );
    let all = byte_digits(bytes);
    assert forall|i: int| 0 <= i < digits.len() implies all[i + k] == digits[i] by {
        assert(digits[i] < 256);
    }
    assert(forall|i: int| 0 <= i < k ==> all[i] == 0);
    assert(all.skip(k as int) =~= digits);
    if k < all.len() {
        assert(all[k as int] == digits[0]);
    }
    lemma_leading_zeros_exact(all, k);
    lemma_number_skip_zeros(all, k, 256);
    assert(is_base58_of(text, bytes));
}

} // verus!
