//! Checking of content against SHA-1 digests.
use crate::text::same_text;
use vstd::prelude::*;

verus! {

/// The SHA-1 digest of `content`.
pub uninterp spec fn sha1_of(content: Seq<u8>) -> Seq<u8>;

/// Computes the SHA-1 digest of a content.
///
/// Calls `sha1::Sha1::digest`. The digest is taken to depend on the content alone; it has twenty
/// bytes.
#[verifier::external_body]
pub(crate) fn sha1_digest(content: &[u8]) -> (digest: Vec<u8>)
    ensures
        digest@ == sha1_of(content@),
        digest@.len() == 20,
{
    <sha1::Sha1 as sha1::Digest>::digest(content).to_vec()
}

/// The lower case hexadecimal digit for a number below sixteen.
pub open spec fn hex_digit(number: int) -> char {
    "0123456789abcdef"@[number]
}

/// Bytes as lower case hexadecimal digits, two for each.
pub open spec fn hex_text(bytes: Seq<u8>) -> Seq<char>
    decreases bytes.len(),
{
    if bytes.len() == 0 {
        Seq::empty()
    } else {
        hex_text(bytes.drop_last()).push(hex_digit(bytes.last() as int / 16)).push(
            hex_digit(bytes.last() as int % 16),
        )
    }
}

/// `expected` is the SHA-1 digest of `content`, in lower case hexadecimal digits.
pub open spec fn has_sha1(content: Seq<u8>, expected: Seq<char>) -> bool {
    hex_text(sha1_of(content)) == expected
}

/// Bytes as lower case hexadecimal digits.
pub fn hex(bytes: &[u8]) -> (text: String)
    ensures
        text@ == hex_text(bytes@),
{
    proof {
        reveal_strlit("0123456789abcdef");
    }
    let digits = "0123456789abcdef";
    let mut text = String::new();
    let mut i: usize = 0;
    while i < bytes.len()
        invariant
            i <= bytes@.len(),
            digits@ == "0123456789abcdef"@,
            digits@.len() == 16,
            text@ == hex_text(bytes@.take(i as int)),
        decreases bytes@.len() - i,
    {
        let high = (bytes[i] / 16) as usize;
        let low = (bytes[i] % 16) as usize;
        let high_digit = digits.substring_char(high, high + 1);
        let low_digit = digits.substring_char(low, low + 1);
        let ghost before = text@;
        text.append(high_digit);
        text.append(low_digit);
        proof {
            assert(bytes@.take(i + 1).drop_last() =~= bytes@.take(i as int));
            assert(text@ =~= before.push(hex_digit(high as int)).push(hex_digit(low as int)));
        }
        i = i + 1;
    }
    assert(bytes@.take(i as int) =~= bytes@);
    text
}

/// Whether `expected` is the SHA-1 digest of `content`, in lower case hexadecimal digits.
pub fn check_sha1(content: &[u8], expected: &str) -> (intact: bool)
    ensures
        intact == has_sha1(content@, expected@),
{
    check_digest(sha1_digest(content).as_slice(), expected)
}

/// Whether `expected` is `digest` in lower case hexadecimal digits.
pub fn check_digest(digest: &[u8], expected: &str) -> (intact: bool)
    ensures
        intact == (hex_text(digest@) == expected@),
{
    same_text(hex(digest).as_str(), expected)
}

/// Two hexadecimal digits are alike only for like numbers.
proof fn lemma_hex_digit(a: int, b: int)
    requires
        0 <= a < 16,
        0 <= b < 16,
        hex_digit(a) == hex_digit(b),
    ensures
        a == b,
{
    reveal_strlit("0123456789abcdef");
}

/// Different bytes have different hexadecimal digits, so a digest in that form stands for one
/// digest only.
pub proof fn law_hexadecimal_digits_tell_bytes_apart(left: Seq<u8>, right: Seq<u8>)
    ensures
        hex_text(left) == hex_text(right) <==> left == right,
    decreases left.len() + right.len(),
{
    lemma_hex_length(left);
    lemma_hex_length(right);
    if hex_text(left) == hex_text(right) && left.len() > 0 {
        let text = hex_text(left);
        let a = left.last() as int;
        let b = right.last() as int;
        let left_front = hex_text(left.drop_last());
        let right_front = hex_text(right.drop_last());
        lemma_hex_length(left.drop_last());
        assert(text =~= left_front.push(hex_digit(a / 16)).push(hex_digit(a % 16)));
        assert(text =~= right_front.push(hex_digit(b / 16)).push(hex_digit(b % 16)));
        assert(text.last() == hex_digit(a % 16) && text.last() == hex_digit(b % 16));
        assert(text[text.len() - 2] == hex_digit(a / 16) && text[text.len() - 2] == hex_digit(
            b / 16,
        ));
        lemma_hex_digit(a / 16, b / 16);
        lemma_hex_digit(a % 16, b % 16);
        assert(left_front =~= text.take(text.len() - 2));
        assert(right_front =~= text.take(text.len() - 2));
        law_hexadecimal_digits_tell_bytes_apart(left.drop_last(), right.drop_last());
        assert(left =~= left.drop_last().push(left.last()));
        assert(right =~= right.drop_last().push(right.last()));
    } else if left.len() == 0 && right.len() == 0 {
        assert(left =~= right);
    }
}

/// Each byte takes two digits.
pub proof fn lemma_hex_length(bytes: Seq<u8>)
    ensures
        hex_text(bytes).len() == 2 * bytes.len(),
    decreases bytes.len(),
{
    if bytes.len() > 0 {
        lemma_hex_length(bytes.drop_last());
    }
}

} // verus!
