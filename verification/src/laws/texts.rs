//! What the texts that replies are made of say.
use vstd::prelude::*;
use vstd::utf8::encode_utf8;

use crate::base58::{is_base58_of, lemma_base58_text_exists};
use crate::bundle::{
    bundle_id, comma_separated, first_signatures_view, signature_line, signature_text,
    signature_texts,
};
use crate::decimal::decimal;
use crate::hex_text::hex_text;
use crate::laws::law_signature_line_tells_the_signatures;
use crate::outside::sha256_digest;
use crate::transaction::DecodedTransactionView;

verus! {

/// The number that a text of decimal digits spells.
pub open spec fn numeral_value(text: Seq<char>) -> int
    decreases text.len(),
{
    if text.len() == 0 {
        0
    } else {
        numeral_value(text.drop_last()) * 10 + (text.last() as int - '0' as int)
    }
}

/// The decimal text of a number consists of decimal digits, spells the number and starts with a
/// zero for zero only.
pub proof fn law_decimal_spells_the_number(n: nat)
    ensures
        decimal(n).len() > 0,
        forall|i: int| 0 <= i < decimal(n).len() ==> '0' <= #[trigger] decimal(n)[i] <= '9',
        numeral_value(decimal(n)) == n,
        decimal(n)[0] == '0' ==> n == 0 && decimal(n).len() == 1,
    decreases n,
{
    let text = decimal(n);
    if n < 10 {
        assert(text.drop_last() =~= seq![]);
        assert(numeral_value(text.drop_last()) == 0);
    } else {
        law_decimal_spells_the_number(n / 10);
        let front = decimal(n / 10);
        assert(text.drop_last() =~= front);
        assert forall|i: int| 0 <= i < text.len() implies '0' <= #[trigger] text[i] <= '9' by {
            if i < front.len() {
                assert(text[i] == front[i]);
            }
        }
        assert(text[0] == front[0]);
    }
}

/// Different numbers have different decimal texts.
pub proof fn law_decimal_tells_numbers_apart(m: nat, n: nat)
    requires
        decimal(m) == decimal(n),
    ensures
        m == n,
{
    law_decimal_spells_the_number(m);
    law_decimal_spells_the_number(n);
}

/// No text makes an empty line and one text makes itself the line. Two lists one after the other
/// make the line of the first, a comma and the line of the second.
pub proof fn law_commas_stand_between_texts(text: Seq<char>, a: Seq<Seq<char>>, b: Seq<Seq<char>>)
    requires
        a.len() > 0,
        b.len() > 0,
    ensures
        comma_separated(seq![]) == Seq::<char>::empty(),
        comma_separated(seq![text]) == text,
        comma_separated(a + b) == comma_separated(a).push(',') + comma_separated(b),
    decreases b.len(),
{
    reveal_strlit(",");
    let all = a + b;
    if b.len() == 1 {
        assert(all.drop_last() =~= a);
        assert(all.last() == b[0]);
    } else {
        let front = b.drop_last();
        law_commas_stand_between_texts(text, a, front);
        assert(all.drop_last() =~= a + front);
        assert(all.last() == b.last());
    }
    assert(comma_separated(all) =~= comma_separated(a).push(',') + comma_separated(b));
}

/// The value of a lower-case hexadecimal digit.
pub open spec fn hex_value(c: char) -> int {
    if '0' <= c <= '9' {
        c as int - '0' as int
    } else {
        c as int - 'a' as int + 10
    }
}

/// A hexadecimal text has two lower-case digits for each byte, the high one first.
pub proof fn law_hex_text_spells_the_bytes(bytes: Seq<u8>)
    ensures
        hex_text(bytes).len() == 2 * bytes.len(),
        forall|i: int|
            0 <= i < hex_text(bytes).len() ==> {
                ||| '0' <= #[trigger] hex_text(bytes)[i] <= '9'
                ||| 'a' <= hex_text(bytes)[i] <= 'f'
            },
        forall|i: int|
            0 <= i < bytes.len() ==> #[trigger] bytes[i] == 16 * hex_value(hex_text(bytes)[2 * i])
                + hex_value(hex_text(bytes)[2 * i + 1]),
{
    assert forall|i: int| 0 <= i < bytes.len() implies #[trigger] bytes[i] == 16 * hex_value(
        hex_text(bytes)[2 * i],
    ) + hex_value(hex_text(bytes)[2 * i + 1]) by {
        assert((2 * i) / 2 == i && (2 * i + 1) / 2 == i);
    }
}

/// Each signature is written as the Base58 text of its bytes.
pub proof fn law_signatures_are_written_in_base58(signatures: Seq<Seq<u8>>)
    ensures
        signature_texts(signatures).len() == signatures.len(),
        forall|i: int|
            0 <= i < signatures.len() ==> is_base58_of(
                signature_texts(signatures)[i],
                #[trigger] signatures[i],
            ),
{
    assert forall|i: int| 0 <= i < signatures.len() implies is_base58_of(
        signature_texts(signatures)[i],
        #[trigger] signatures[i],
    ) by {
        lemma_base58_text_exists(signatures[i]);
        assert(signature_texts(signatures)[i] == signature_text(signatures[i]));
    }
}

/// Whether `id` is the hexadecimal SHA-256 digest of the signatures, each in Base58, with commas
/// between them.
pub open spec fn is_id_of(id: Seq<char>, signatures: Seq<Seq<u8>>) -> bool {
    exists|texts: Seq<Seq<char>>|
        {
            &&& texts.len() == signatures.len()
            &&& forall|i: int|
                0 <= i < signatures.len() ==> is_base58_of(texts[i], #[trigger] signatures[i])
            &&& id == hex_text(sha256_digest(encode_utf8(#[trigger] comma_separated(texts))))
        }
}

/// A bundle ID is the hexadecimal SHA-256 digest of the signatures, all of them and in order.
pub proof fn law_bundle_id_is_over_all_signatures(signatures: Seq<Seq<u8>>)
    ensures
        is_id_of(bundle_id(signatures), signatures),
{
    law_signatures_are_written_in_base58(signatures);
    assert(signature_line(signatures) == comma_separated(signature_texts(signatures)));
}

/// The signatures that a bundle ID is calculated from are the first one of each transaction, in
/// order.
pub proof fn law_first_signature_of_each_transaction(transactions: Seq<DecodedTransactionView>)
    ensures
        first_signatures_view(transactions).len() == transactions.len(),
        forall|i: int|
            0 <= i < transactions.len() ==> first_signatures_view(transactions)[i]
                == #[trigger] transactions[i].signatures[0],
{
}

/// Bundles with different first signatures at any position, or of different size, have different
/// signature lines.
pub proof fn law_signature_lines_of_different_bundles_differ(
    a: Seq<DecodedTransactionView>,
    b: Seq<DecodedTransactionView>,
)
    requires
        forall|i: int| 0 <= i < a.len() ==> #[trigger] a[i].signatures[0].len() == 64,
        forall|i: int| 0 <= i < b.len() ==> #[trigger] b[i].signatures[0].len() == 64,
        a.len() != b.len() || exists|i: int|
            0 <= i < a.len() && #[trigger] a[i].signatures[0] != b[i].signatures[0],
    ensures
        signature_line(first_signatures_view(a)) != signature_line(first_signatures_view(b)),
{
    let s = first_signatures_view(a);
    let t = first_signatures_view(b);
    law_first_signature_of_each_transaction(a);
    law_first_signature_of_each_transaction(b);
    assert forall|i: int| 0 <= i < s.len() implies (#[trigger] s[i]).len() == 64 by {
        assert(s[i] == a[i].signatures[0]);
    }
    assert forall|i: int| 0 <= i < t.len() implies (#[trigger] t[i]).len() == 64 by {
        assert(t[i] == b[i].signatures[0]);
    }
    if signature_line(s) == signature_line(t) {
        law_signature_line_tells_the_signatures(s, t);
        if a.len() == b.len() {
            let i = choose|i: int|
                0 <= i < a.len() && #[trigger] a[i].signatures[0] != b[i].signatures[0];
            assert(s[i] == a[i].signatures[0] && t[i] == b[i].signatures[0]);
        }
    }
}

} // verus!
