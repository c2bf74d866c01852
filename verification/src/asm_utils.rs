//! Byte- and character-level utilities used when naming and checking patches:
//! file-name sanitising, a byte checksum and a newline count.

use vstd::prelude::*;
use crate::text::count_of;

verus! {

/// Name for what `char::is_alphanumeric` returns for `c` (Unicode
/// `Alphabetic` or `Numeric`); the tables behind it are std's.
pub uninterp spec fn char_alphanumeric(c: char) -> bool;

/// An ASCII letter or digit.
pub open spec fn ascii_alphanumeric(c: char) -> bool {
    ('a' <= c && c <= 'z') || ('A' <= c && c <= 'Z') || ('0' <= c && c <= '9')
}

/// std's `char::is_alphanumeric`.
/// Trusted: the contract claims that the answer is the one named by
/// `char_alphanumeric` for this character, and that among ASCII characters
/// exactly the letters and digits qualify (std documents the test as the
/// Unicode `Alphabetic` and `Numeric` properties, which hold in ASCII of
/// exactly these). Which other characters qualify is left to std's tables.
#[verifier::external_body]
fn is_alphanumeric(c: char) -> (b: bool)
    ensures
        b == char_alphanumeric(c),
        (c as u32) < 128 ==> (b <==> ascii_alphanumeric(c)),
{
    c.is_alphanumeric()
}

/// A character kept by sanitising: alphanumerics, `.`, `_`, `-` and `/`.
pub open spec fn is_kept_char(c: char) -> bool {
    char_alphanumeric(c) || c == '.' || c == '_' || c == '-' || c == '/'
}

/// The sanitised form of one character.
pub open spec fn sanitized_char(c: char) -> char {
    if is_kept_char(c) {
        c
    } else {
        '-'
    }
}

/// The sanitised form of a text: every character not kept becomes `-`.
pub open spec fn sanitized(s: Seq<char>) -> Seq<char> {
    s.map_values(|c: char| sanitized_char(c))
}

/// An ASCII character kept by sanitising: letters, digits, `.`, `_`, `-` and `/`.
pub open spec fn ascii_kept_char(c: char) -> bool {
    ascii_alphanumeric(c) || c == '.' || c == '_' || c == '-' || c == '/'
}

/// Sanitises a subject line for use in a file name: alphanumerics, `.`, `_`,
/// `-` and `/` stay, every other character becomes `-`. Of ASCII characters,
/// exactly the letters, digits, `.`, `_`, `-` and `/` stay.
pub fn fast_sanitize_string(input: &str) -> (out: String)
    ensures
        out@ == sanitized(input@),
        forall|k: int|
            0 <= k < input@.len() && (input@[k] as u32) < 128 ==> #[trigger] out@[k] == if ascii_kept_char(
                input@[k],
            ) {
                input@[k]
            } else {
                '-'
            },
{
    let mut out = String::new();
    for c in it: input.chars()
        invariant
            out@ == sanitized(it.seq().take(it.index())),
            forall|k: int|
                0 <= k < it.index() && (it.seq()[k] as u32) < 128 ==> (#[trigger] char_alphanumeric(
                    it.seq()[k],
                ) <==> ascii_alphanumeric(it.seq()[k])),
    {
        let kept = is_alphanumeric(c) || c == '.' || c == '_' || c == '-' || c == '/';
        let d = if kept {
            c
        } else {
            '-'
        };
        crate::text::push_char(&mut out, d);
        assert(out@ =~= sanitized(it.seq().take(it.index() + 1)));
    }
    out
}

/// Law: sanitising keeps the number of characters and is idempotent.
pub proof fn lemma_sanitize_idempotent(s: Seq<char>)
    ensures
        sanitized(s).len() == s.len(),
        sanitized(sanitized(s)) == sanitized(s),
        forall|i: int| 0 <= i < s.len() ==> is_kept_char(#[trigger] sanitized(s)[i]),
{
    assert(sanitized(sanitized(s)) =~= sanitized(s));
}

/// Sum of the byte values, as an unbounded number.
pub open spec fn byte_sum(s: Seq<u8>) -> nat
    decreases s.len(),
{
    if s.len() == 0 {
        0
    } else {
        byte_sum(s.drop_last()) + s.last() as nat
    }
}

/// The checksum of a patch: the sum of its bytes modulo 2^32.
pub open spec fn checksum(s: Seq<u8>) -> nat {
    byte_sum(s) % 0x1_0000_0000
}

/// Checksum of `data`: the sum of its bytes, wrapping at 2^32.
pub fn calculate_patch_checksum(data: &[u8]) -> (sum: u32)
    ensures
        sum == checksum(data@),
{
    let mut sum: u32 = 0;
    let mut i: usize = 0;
    while i < data.len()
        invariant
            i <= data.len(),
            sum == byte_sum(data@.take(i as int)) % 0x1_0000_0000,
        decreases data.len() - i,
    {
        let b = data[i];
        assert(data@.take(i + 1).drop_last() =~= data@.take(i as int));
        proof {
            vstd::arithmetic::div_mod::lemma_add_mod_noop(
                byte_sum(data@.take(i as int)) as int,
                b as int,
                0x1_0000_0000,
            );
            vstd::arithmetic::div_mod::lemma_small_mod(b as nat, 0x1_0000_0000);
        }
        sum = sum.wrapping_add(b as u32);
        i = i + 1;
    }
    assert(data@.take(data.len() as int) =~= data@);
    sum
}

/// The sum of a concatenation is the sum of the parts.
pub proof fn lemma_byte_sum_concat(a: Seq<u8>, b: Seq<u8>)
    ensures
        byte_sum(a + b) == byte_sum(a) + byte_sum(b),
    decreases b.len(),
{
    if b.len() == 0 {
        assert(a + b =~= a);
    } else {
        lemma_byte_sum_concat(a, b.drop_last());
        assert((a + b).drop_last() =~= a + b.drop_last());
    }
}

/// Law: the checksum of two pieces of text joined is the wrapping sum of their checksums.
pub proof fn lemma_checksum_concat(a: Seq<u8>, b: Seq<u8>)
    ensures
        checksum(a + b) == (checksum(a) + checksum(b)) % 0x1_0000_0000,
{
    lemma_byte_sum_concat(a, b);
    vstd::arithmetic::div_mod::lemma_add_mod_noop(
        byte_sum(a) as int,
        byte_sum(b) as int,
        0x1_0000_0000,
    );
}

/// Number of newline bytes (`\n`) in `data`.
pub fn fast_count_lines(data: &[u8]) -> (count: usize)
    ensures
        count == count_of(data@, 10u8),
{
    let mut count: usize = 0;
    let mut i: usize = 0;
    while i < data.len()
        invariant
            i <= data.len(),
            count == count_of(data@.take(i as int), 10u8),
            count <= i,
        decreases data.len() - i,
    {
        assert(data@.take(i + 1).drop_last() =~= data@.take(i as int));
        if data[i] == 10u8 {
            count = count + 1;
        }
        i = i + 1;
    }
    assert(data@.take(data.len() as int) =~= data@);
    count
}

/// Law: the newline count of two pieces joined is the sum of their counts.
pub proof fn lemma_count_lines_concat(a: Seq<u8>, b: Seq<u8>)
    ensures
        count_of(a + b, 10u8) == count_of(a, 10u8) + count_of(b, 10u8),
{
    crate::text::lemma_count_of_concat(a, b, 10u8);
}

} // verus!
