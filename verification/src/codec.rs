//! Decoding of fetched file content: the hosting API returns base64 text
//! line-wrapped with embedded newlines; the embedded newlines are stripped,
//! the base64 is decoded, and the bytes are converted lossily to UTF-8.
use crate::tree::RepoContent;
use vstd::prelude::*;
use vstd::utf8::{decode_utf8, encode_utf8, valid_utf8};

verus! {

/// The text with every newline character removed.
pub open spec fn strip_nl(s: Seq<char>) -> Seq<char>
    decreases s.len(),
{
    if s.len() == 0 {
        Seq::empty()
    } else if s.last() == '\n' {
        strip_nl(s.drop_last())
    } else {
        strip_nl(s.drop_last()).push(s.last())
    }
}

proof fn lemma_strip_nl_take_step(s: Seq<char>, i: int)
    requires
        0 <= i < s.len(),
    ensures
        s[i] == '\n' ==> strip_nl(s.take(i + 1)) == strip_nl(s.take(i)),
        s[i] != '\n' ==> strip_nl(s.take(i + 1)) == strip_nl(s.take(i)).push(s[i]),
{
    assert(s.take(i + 1).drop_last() =~= s.take(i));
    assert(s.take(i + 1).last() == s[i]);
}

/// A segment without newlines passes through `strip_nl` unchanged.
proof fn lemma_strip_nl_segment(s: Seq<char>, start: int, i: int)
    requires
        0 <= start <= i <= s.len(),
        forall|j: int| start <= j < i ==> s[j] != '\n',
    ensures
        strip_nl(s.take(i)) == strip_nl(s.take(start)) + s.subrange(start, i),
    decreases i - start,
{
    if i == start {
        assert(strip_nl(s.take(start)) + s.subrange(start, start) =~= strip_nl(s.take(start)));
    } else {
        lemma_strip_nl_segment(s, start, i - 1);
        lemma_strip_nl_take_step(s, i - 1);
        assert(strip_nl(s.take(start)) + s.subrange(start, i) =~= (strip_nl(s.take(start))
            + s.subrange(start, i - 1)).push(s[i - 1]));
    }
}

/// The text with embedded newlines removed, as the base64 payloads of the
/// hosting API require before decoding.
pub fn strip_newlines(s: &str) -> (r: String)
    ensures
        r@ == strip_nl(s@),
{
    let len = s.unicode_len();
    let mut out = String::new();
    let mut start: usize = 0;
    let mut i: usize = 0;
    proof {
        assert(s@.take(0) =~= Seq::<char>::empty());
    }
    while i < len
        invariant
            start <= i <= len,
            len == s@.len(),
            forall|j: int| start <= j < i ==> s@[j] != '\n',
            out@ == strip_nl(s@.take(start as int)),
        decreases len - i,
    {
        if s.get_char(i) == '\n' {
            let piece = s.substring_char(start, i);
            out.append(piece);
            proof {
                lemma_strip_nl_segment(s@, start as int, i as int);
                lemma_strip_nl_take_step(s@, i as int);
            }
            start = i + 1;
        }
        i = i + 1;
    }
    let piece = s.substring_char(start, len);
    out.append(piece);
    proof {
        lemma_strip_nl_segment(s@, start as int, len as int);
        assert(s@.take(len as int) =~= s@);
    }
    out
}

/// What base64's standard-alphabet engine encodes a byte sequence to.
pub uninterp spec fn base64_encoding(bytes: Seq<u8>) -> Seq<char>;

/// What base64's standard-alphabet engine decodes a text to, when the text
/// is valid base64.
pub uninterp spec fn base64_decoded(s: Seq<char>) -> Option<Seq<u8>>;

/// Relies on base64's `Engine::decode` with the standard alphabet: the
/// result is a function of the input text alone, and decoding the encoding
/// of any byte sequence yields exactly those bytes.
#[verifier::external_body]
fn base64_decode(s: &str) -> (r: Option<Vec<u8>>)
    ensures
        r matches Some(v) ==> base64_decoded(s@) matches Some(b) && v@ == b,
        r is None ==> base64_decoded(s@) is None,
        r is None ==> forall|b: Seq<u8>| s@ != base64_encoding(b),
        r matches Some(v) ==> forall|b: Seq<u8>| s@ == base64_encoding(b) ==> v@ == b,
{
    base64::Engine::decode(&base64::engine::general_purpose::STANDARD, s).ok()
}

/// What `String::from_utf8_lossy` turns a byte sequence into.
pub uninterp spec fn utf8_lossy(bytes: Seq<u8>) -> Seq<char>;

/// Relies on `String::from_utf8_lossy`: the result is a function of the
/// bytes alone, and valid UTF-8 bytes decode exactly (vstd's `decode_utf8`
/// names that decoding).
#[verifier::external_body]
fn utf8_lossy_string(bytes: &Vec<u8>) -> (r: String)
    ensures
        r@ == utf8_lossy(bytes@),
        valid_utf8(bytes@) ==> r@ == decode_utf8(bytes@),
{
    String::from_utf8_lossy(bytes.as_slice()).to_string()
}

/// Decode the inline content of a single-file response: strip the embedded
/// newlines, decode the base64, and convert the bytes lossily to UTF-8.
/// Yields nothing when the response has no content field or the base64 is
/// invalid. Decoding reverses encoding: whenever the stripped text is the
/// base64 encoding of the UTF-8 bytes of a text, that very text comes
/// back.
pub fn decode_file_content(info: &RepoContent) -> (r: Option<String>)
    ensures
        info@.content is None ==> r is None,
        info@.content matches Some(enc) ==> {
            &&& (r is Some <==> base64_decoded(strip_nl(enc)) is Some)
            &&& (r matches Some(s) ==> base64_decoded(strip_nl(enc)) matches Some(b) && s@
                == utf8_lossy(b))
            &&& forall|t: Seq<char>|
                strip_nl(enc) == base64_encoding(encode_utf8(t)) ==> (r matches Some(s) && s@
                    == t)
        },
{
    broadcast use vstd::utf8::encode_utf8_valid_utf8, vstd::utf8::encode_utf8_decode_utf8;

    match &info.content {
        None => None,
        Some(enc) => {
            let stripped = strip_newlines(enc.as_str());
            match base64_decode(stripped.as_str()) {
                None => {
                    proof {
                        assert forall|t: Seq<char>|
                            strip_nl(enc@) == base64_encoding(encode_utf8(t)) implies false by {}
                    }
                    None
                },
                Some(bytes) => {
                    let text = utf8_lossy_string(&bytes);
                    Some(text)
                },
            }
        },
    }
}

} // verus!
