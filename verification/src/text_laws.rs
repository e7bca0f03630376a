use vstd::prelude::*;

use crate::digest::{content_digest, digest_of, sha256};
use crate::text::{
    copy_optional_texts, copy_text, copy_texts, decimal, decimal_text, ends_with, has_suffix, hex,
    hex_digit, hex_text, same_optional_text, text_of, texts, texts_of,
};

verus! {

/// The value of a digit, decimal or lowercase hexadecimal; -1 for what is none.
pub open spec fn digit_value(digit: char) -> int {
    if '0' <= digit <= '9' {
        digit as int - '0' as int
    } else if 'a' <= digit <= 'f' {
        digit as int - 'a' as int + 10
    } else {
        -1
    }
}

/// The number that decimal digits stand for.
pub open spec fn decimal_value(digits: Seq<char>) -> int
    decreases digits.len(),
{
    if digits.len() == 0 {
        0
    } else {
        10 * decimal_value(digits.drop_last()) + digit_value(digits.last())
    }
}

proof fn lemma_digit(n: int)
    requires
        0 <= n < 16,
    ensures
        digit_value(hex_digit(n)) == n,
        n < 10 ==> '0' <= hex_digit(n) <= '9',
{
}

proof fn lemma_decimal(n: nat)
    ensures
        decimal_value(decimal_text(n)) == n,
        decimal_text(n).len() > 0,
        forall|i: int|
            0 <= i < decimal_text(n).len() ==> '0' <= #[trigger] decimal_text(n)[i] <= '9',
        n > 0 ==> decimal_text(n)[0] != '0',
        n == 0 ==> decimal_text(n).len() == 1,
    decreases n,
{
    if n < 10 {
        lemma_digit(n as int);
        assert(decimal_text(n).drop_last().len() == 0);
        assert(decimal_value(decimal_text(n).drop_last()) == 0);
    } else {
        lemma_decimal(n / 10);
        lemma_digit((n % 10) as int);
        assert(decimal_text(n).drop_last() == decimal_text(n / 10));
    }
}

/// A number is written down in decimal: read back, its digits give the number, and the first one
/// is no zero but for the number zero.
pub proof fn law_decimal_is_read_back(n: u64, text: String)
    requires
        call_ensures(decimal, (n,), text),
    ensures
        decimal_value(text@) == n,
        text@.len() > 0,
        forall|i: int| 0 <= i < text@.len() ==> '0' <= #[trigger] text@[i] <= '9',
        n > 0 ==> text@[0] != '0',
        n == 0 ==> text@.len() == 1,
{
    lemma_decimal(n as nat);
}

/// Different numbers have different decimal texts.
pub proof fn law_decimal_tells_numbers_apart(a: nat, b: nat)
    requires
        decimal_text(a) == decimal_text(b),
    ensures
        a == b,
{
    lemma_decimal(a);
    lemma_decimal(b);
}

proof fn lemma_hex(bytes: Seq<u8>)
    ensures
        hex_text(bytes).len() == 2 * bytes.len(),
        forall|i: int|
            0 <= i < bytes.len() ==> #[trigger] bytes[i] as int == 16 * digit_value(
                hex_text(bytes)[2 * i],
            ) + digit_value(hex_text(bytes)[2 * i + 1]),
        forall|i: int|
            0 <= i < hex_text(bytes).len() ==> digit_value(#[trigger] hex_text(bytes)[i]) >= 0,
{
    assert forall|i: int| 0 <= i < bytes.len() implies #[trigger] bytes[i] as int == 16
        * digit_value(hex_text(bytes)[2 * i]) + digit_value(hex_text(bytes)[2 * i + 1]) by {
        lemma_digit(bytes[i] as int / 16);
        lemma_digit(bytes[i] as int % 16);
        assert((2 * i) / 2 == i && (2 * i + 1) / 2 == i);
    }
    assert forall|i: int| 0 <= i < hex_text(bytes).len() implies digit_value(
        #[trigger] hex_text(bytes)[i],
    ) >= 0 by {
        lemma_digit(bytes[i / 2] as int / 16);
        lemma_digit(bytes[i / 2] as int % 16);
    }
}

/// Bytes are written down with two hexadecimal digits each, the high half first: read back, they
/// give the bytes.
pub proof fn law_hex_is_read_back(bytes: &[u8], text: String)
    requires
        call_ensures(hex, (bytes,), text),
    ensures
        text@.len() == 2 * bytes@.len(),
        forall|i: int|
            0 <= i < bytes@.len() ==> #[trigger] bytes@[i] as int == 16 * digit_value(
                text@[2 * i],
            ) + digit_value(text@[2 * i + 1]),
        forall|i: int| 0 <= i < text@.len() ==> digit_value(#[trigger] text@[i]) >= 0,
{
    lemma_hex(bytes@);
}

/// Different bytes have different hexadecimal texts.
pub proof fn law_hex_tells_bytes_apart(a: Seq<u8>, b: Seq<u8>)
    requires
        hex_text(a) == hex_text(b),
    ensures
        a == b,
{
    lemma_hex(a);
    lemma_hex(b);
    assert forall|i: int| 0 <= i < a.len() implies a[i] == b[i] by {
        assert(a[i] as int == b[i] as int);
    }
    assert(a =~= b);
}

/// A digest is the hash behind the name of its function, in hexadecimal; two blobs have the same
/// digest only if they have the same hash.
pub proof fn law_digest_is_the_hash(
    data: &[u8],
    digest: String,
    other: &[u8],
    other_digest: String,
)
    requires
        call_ensures(content_digest, (data,), digest),
        call_ensures(content_digest, (other,), other_digest),
    ensures
        digest@ == digest_of(data@),
        digest@.take(7) == "sha256:"@,
        digest@.len() == 7 + 2 * sha256(data@).len(),
        forall|i: int|
            0 <= i < sha256(data@).len() ==> #[trigger] sha256(data@)[i] as int == 16
                * digit_value(digest@[7 + 2 * i]) + digit_value(digest@[8 + 2 * i]),
        digest@ == other_digest@ <==> sha256(data@) == sha256(other@),
{
    reveal_strlit("sha256:");
    lemma_hex(sha256(data@));
    assert(digest@.take(7) =~= "sha256:"@);
    assert(digest@.skip(7) =~= hex_text(sha256(data@)));
    assert(other_digest@.skip(7) =~= hex_text(sha256(other@)));
    if digest@ == other_digest@ {
        law_hex_tells_bytes_apart(sha256(data@), sha256(other@));
    }
    assert forall|i: int| 0 <= i < sha256(data@).len() implies #[trigger] sha256(data@)[i] as int
        == 16 * digit_value(digest@[7 + 2 * i]) + digit_value(digest@[8 + 2 * i]) by {
        assert(digest@[7 + 2 * i] == digest@.skip(7)[2 * i]);
        assert(digest@[8 + 2 * i] == digest@.skip(7)[2 * i + 1]);
    }
}

/// A text ends in another if and only if it is something with the other behind it.
pub proof fn law_suffix(text: &str, suffix: &str, found: bool)
    requires
        call_ensures(has_suffix, (text, suffix), found),
    ensures
        found <==> exists|front: Seq<char>| text@ == #[trigger] (front + suffix@),
        found == ends_with(text@, suffix@),
{
    if found {
        let front = text@.take(text@.len() - suffix@.len());
        assert(text@ =~= front + suffix@);
    }
    if exists|front: Seq<char>| text@ == #[trigger] (front + suffix@) {
        let front = choose|front: Seq<char>| text@ == #[trigger] (front + suffix@);
        assert(text@.skip(text@.len() - suffix@.len()) =~= suffix@);
    }
}

/// Copies hold the same texts, in the same order, and are there if and only if the originals are;
/// and two optional texts are the same if both are absent, or both are there and alike.
pub proof fn law_copies_are_alike(
    list: Vec<String>,
    list_copy: Vec<String>,
    text: Option<String>,
    text_copy: Option<String>,
    optional: Option<Vec<String>>,
    optional_copy: Option<Vec<String>>,
    other: Option<String>,
    same: bool,
)
    requires
        call_ensures(copy_texts, (&list,), list_copy),
        call_ensures(copy_text, (&text,), text_copy),
        call_ensures(copy_optional_texts, (&optional,), optional_copy),
        call_ensures(same_optional_text, (&text, &other), same),
    ensures
        list_copy@.len() == list@.len(),
        forall|i: int| 0 <= i < list@.len() ==> (#[trigger] list_copy@[i])@ == list@[i]@,
        text_copy is Some == text is Some,
        text is Some ==> text_copy->0@ == text->0@,
        optional_copy is Some == optional is Some,
        optional is Some ==> texts(optional_copy->0@) == texts(optional->0@),
        same <==> (text is None && other is None) || (text is Some && other is Some && text->0@
            == other->0@),
{
    assert(texts(list_copy@).len() == texts(list@).len());
    assert forall|i: int| 0 <= i < list@.len() implies (#[trigger] list_copy@[i])@
        == list@[i]@ by {
        assert(texts(list_copy@)[i] == texts(list@)[i]);
    }
}

/// What a list of strings, an optional string and an optional list hold: the texts in their order,
/// and nothing where there is nothing.
pub proof fn law_contents_of_strings(
    list: Vec<String>,
    text: Option<String>,
    optional: Option<Vec<String>>,
)
    ensures
        texts(list@).len() == list@.len(),
        forall|i: int| 0 <= i < list@.len() ==> #[trigger] texts(list@)[i] == list@[i]@,
        text_of(text) == (if text is Some {
            Some(text->0@)
        } else {
            None
        }),
        texts_of(optional) == (if optional is Some {
            Some(texts(optional->0@))
        } else {
            None
        }),
{
}

} // verus!
