//! Text fields: UTF-8 validation, lossy decoding and NUL padding.

use vstd::prelude::*;
use vstd::utf8::{
    decode_utf8, encode_utf8, encode_utf8_decode_utf8, encode_utf8_valid_utf8,
    is_ascii_chars_encode_utf8, valid_utf8,
};

verus! {

/// `core::str::Utf8Error`: why bytes are not valid UTF-8.  Nothing is read
/// from it here.
#[verifier::external_type_specification]
#[verifier::external_body]
pub struct ExUtf8Error(core::str::Utf8Error);

/// `core::str::from_utf8` succeeds exactly on valid UTF-8, and the string
/// slice that it then returns holds the characters that the bytes encode.
pub assume_specification[ core::str::from_utf8 ](v: &[u8]) -> (r: Result<
    &str,
    core::str::Utf8Error,
>)
    ensures
        r is Ok <==> valid_utf8(v@),
        r is Ok ==> r->Ok_0@ == decode_utf8(v@),
;

/// What `String::from_utf8_lossy` makes of `bytes`.
pub uninterp spec fn utf8_lossy(bytes: Seq<u8>) -> Seq<char>;

/// The text that lossy decoding makes of `bytes`: the characters that they
/// encode where they are valid UTF-8, and otherwise what
/// `String::from_utf8_lossy` makes of them, which puts U+FFFD in place of
/// each invalid sequence.
pub open spec fn lossy_text(bytes: Seq<u8>) -> Seq<char> {
    if valid_utf8(bytes) {
        decode_utf8(bytes)
    } else {
        utf8_lossy(bytes)
    }
}

/// `String::from_utf8_lossy`, as an owned string.  The result depends on the
/// bytes alone; on valid UTF-8 it is the text that the bytes encode.
#[verifier::external_body]
pub(crate) fn from_utf8_lossy(bytes: &[u8]) -> (s: String)
    ensures
        s@ == utf8_lossy(bytes@),
        s@ == lossy_text(bytes@),
{
    String::from_utf8_lossy(bytes).into_owned()
}

/// `s` without the NUL characters at its end.
pub open spec fn trim_nul_end(s: Seq<char>) -> Seq<char>
    decreases s.len(),
{
    if s.len() > 0 && s.last() == '\0' {
        trim_nul_end(s.drop_last())
    } else {
        s
    }
}

/// `str::trim_end_matches` with the NUL character as its pattern: the slice
/// without the run of NUL characters at its end.
#[verifier::external_body]
fn trim_end_nul(s: &str) -> (r: &str)
    ensures
        r@ == trim_nul_end(s@),
{
    s.trim_end_matches('\0')
}

/// The text of a NUL-padded field of fixed width: the characters that the
/// field encodes, without the padding at its end.  A field that is not valid
/// UTF-8 has none.
pub open spec fn padded_text(field: Seq<u8>) -> Option<Seq<char>> {
    if valid_utf8(field) {
        Some(trim_nul_end(decode_utf8(field)))
    } else {
        None
    }
}

/// The characters of an optional string.
pub open spec fn opt_text(s: Option<String>) -> Option<Seq<char>> {
    match s {
        Some(s) => Some(s@),
        None => None,
    }
}

/// Decodes a NUL-padded text field.
pub fn decode_padded(field: &[u8]) -> (r: Option<String>)
    ensures
        opt_text(r) == padded_text(field@),
{
    match core::str::from_utf8(field) {
        Ok(s) => Some(trim_end_nul(s).to_owned()),
        Err(_) => None,
    }
}

/// Padding is all that trimming removes: the trimmed text is a prefix of the
/// text, it does not end in NUL, and only NUL characters follow it.
pub proof fn lemma_trim_nul_end(s: Seq<char>)
    ensures
        trim_nul_end(s).len() <= s.len(),
        trim_nul_end(s) == s.subrange(0, trim_nul_end(s).len() as int),
        trim_nul_end(s).len() > 0 ==> trim_nul_end(s).last() != '\0',
        forall|i: int| trim_nul_end(s).len() <= i < s.len() ==> s[i] == '\0',
    decreases s.len(),
{
    if s.len() > 0 && s.last() == '\0' {
        lemma_trim_nul_end(s.drop_last());
        let t = trim_nul_end(s.drop_last());
        assert(t == s.subrange(0, t.len() as int));
        assert forall|i: int| t.len() <= i < s.len() implies s[i] == '\0' by {
            if i < s.len() - 1 {
                assert(s.drop_last()[i] == s[i]);
            }
        }
    } else {
        assert(s == s.subrange(0, s.len() as int));
    }
}

/// `count` zero bytes: the padding of a text field.
pub open spec fn padding(count: nat) -> Seq<u8> {
    Seq::new(count, |i: int| 0u8)
}

/// `count` NUL characters.
pub open spec fn nul_chars(count: nat) -> Seq<char> {
    Seq::new(count, |i: int| '\0')
}

/// The encoding of a text that is followed by another is the encoding of the
/// first followed by the encoding of the second.
pub proof fn lemma_encode_utf8_concat(a: Seq<char>, b: Seq<char>)
    ensures
        encode_utf8(a + b) == encode_utf8(a) + encode_utf8(b),
    decreases a.len(),
{
    if a.len() == 0 {
        assert(a + b =~= b);
        assert(encode_utf8(a) + encode_utf8(b) =~= encode_utf8(b));
    } else {
        assert((a + b)[0] == a[0]);
        assert((a + b).drop_first() =~= a.drop_first() + b);
        lemma_encode_utf8_concat(a.drop_first(), b);
        let first = vstd::utf8::encode_scalar(a[0] as u32);
        assert(first + (encode_utf8(a.drop_first()) + encode_utf8(b)) =~= (first + encode_utf8(
            a.drop_first(),
        )) + encode_utf8(b));
    }
}

/// Trimming takes the NUL characters that follow a text away, and leaves a
/// text that does not end in NUL as it is.
pub proof fn lemma_trim_nul_end_of_padded(text: Seq<char>, count: nat)
    requires
        text.len() == 0 || text.last() != '\0',
    ensures
        trim_nul_end(text + nul_chars(count)) == text,
    decreases count,
{
    let padded = text + nul_chars(count);
    if count == 0 {
        assert(padded =~= text);
    } else {
        assert(padded.last() == '\0');
        assert(padded.drop_last() =~= text + nul_chars((count - 1) as nat));
        lemma_trim_nul_end_of_padded(text, (count - 1) as nat);
    }
}

/// Decoding gives back what was written: a text that does not end in NUL,
/// encoded and padded to the width of a field, is the text of that field.
pub proof fn lemma_padded_text_round_trip(text: Seq<char>, count: nat)
    requires
        text.len() == 0 || text.last() != '\0',
    ensures
        padded_text(encode_utf8(text) + padding(count)) == Some(text),
{
    let field = encode_utf8(text) + padding(count);
    let nuls = nul_chars(count);
    is_ascii_chars_encode_utf8(nuls);
    assert(encode_utf8(nuls) =~= padding(count));
    lemma_encode_utf8_concat(text, nuls);
    encode_utf8_valid_utf8(text + nuls);
    encode_utf8_decode_utf8(text + nuls);
    lemma_trim_nul_end_of_padded(text, count);
}

/// Decoding gives back what was written: the lossy decoding of the encoding
/// of a text is that text.
pub proof fn lemma_lossy_text_round_trip(text: Seq<char>)
    ensures
        lossy_text(encode_utf8(text)) == text,
{
    encode_utf8_valid_utf8(text);
    encode_utf8_decode_utf8(text);
}

} // verus!
