//! Decoding bytes as text, through `encoding_rs`. Encodings are named by their
//! WHATWG labels, such as `UTF-8`, `EUC-KR` or `GBK`.
use vstd::prelude::*;

verus! {

/// Whether `encoding_rs` knows `label` as the name of an encoding.
pub uninterp spec fn is_encoding_label(label: Seq<char>) -> bool;

/// The text that `encoding_rs` decodes `bytes` to in the encoding named
/// `label` (`Encoding::decode`, which honours a byte-order mark), malformed
/// sequences replaced by U+FFFD, and whether there were any.
pub uninterp spec fn decoded(label: Seq<char>, bytes: Seq<u8>) -> (Seq<char>, bool);

/// The text of `decoded`.
pub open spec fn decoded_text(label: Seq<char>, bytes: Seq<u8>) -> Seq<char> {
    decoded(label, bytes).0
}

/// The text `encoding_rs` decodes `bytes` to in the encoding named `label`
/// without looking for a byte-order mark, and whether it met malformed input
/// on the way.
pub uninterp spec fn decoded_without_bom(label: Seq<char>, bytes: Seq<u8>) -> (Seq<char>, bool);

/// Decodes `bytes` in the encoding labelled `label` without looking for a
/// byte-order mark (`encoding_rs::Encoding::for_label`, then
/// `Encoding::decode_without_bom_handling`): `None` for an unknown label,
/// otherwise the text and whether malformed input was met. `encoding_rs`
/// knows the labels `UTF-8`, `EUC-KR` and `GBK`.
#[verifier::external_body]
pub(crate) fn decode_no_bom(label: &str, bytes: &[u8]) -> (r: Option<(String, bool)>)
    ensures
        r is Some == is_encoding_label(label@),
        (label@ == "UTF-8"@ || label@ == "UTF-16LE"@ || label@ == "EUC-KR"@ || label@ == "GBK"@) ==> r is Some,
        r matches Some(p) ==> (p.0@, p.1) == decoded_without_bom(label@, bytes@),
{
    match encoding_rs::Encoding::for_label(label.as_bytes()) {
        Some(enc) => {
            let (text, had_errors) = enc.decode_without_bom_handling(bytes);
            Some((text.into_owned(), had_errors))
        },
        None => None,
    }
}

/// Decodes `bytes` in the encoding named `label`
/// (`encoding_rs::Encoding::for_label`, then `Encoding::decode`): `None` when
/// the label names no encoding, otherwise the decoded text and whether
/// malformed input was met. Which text that is is left to `encoding_rs`; only
/// that it depends on the label and the bytes alone is stated.
#[verifier::external_body]
pub(crate) fn decode_lossy(label: &str, bytes: &[u8]) -> (r: Option<(String, bool)>)
    ensures
        r is Some == is_encoding_label(label@),
        r matches Some(p) ==> (p.0@, p.1) == decoded(label@, bytes@),
{
    match encoding_rs::Encoding::for_label(label.as_bytes()) {
        Some(enc) => {
            let (text, _, had_errors) = enc.decode(bytes);
            Some((text.into_owned(), had_errors))
        },
        None => None,
    }
}

/// The canonical name of the encoding `encoding_rs` knows by `label`
/// (`Encoding::name`), such as `UTF-16LE` for the label `utf-16`.
pub uninterp spec fn encoding_name(label: Seq<char>) -> Seq<char>;

/// The bytes `encoding_rs` encodes `text` to in the encoding named `label`
/// (`Encoding::encode`; characters the encoding lacks become numeric
/// character references).
pub uninterp spec fn encoded_text(label: Seq<char>, text: Seq<char>) -> Seq<u8>;

/// The canonical name of the encoding labelled `label`
/// (`encoding_rs::Encoding::for_label`, then `Encoding::name`), or `None`
/// for a label `encoding_rs` does not know.
#[verifier::external_body]
pub(crate) fn canonical_name(label: &str) -> (r: Option<String>)
    ensures
        r is Some == is_encoding_label(label@),
        r matches Some(n) ==> n@ == encoding_name(label@),
{
    match encoding_rs::Encoding::for_label(label.as_bytes()) {
        Some(enc) => Some(enc.name().to_string()),
        None => None,
    }
}

/// Encodes `text` in the encoding labelled `label`
/// (`encoding_rs::Encoding::for_label`, then `Encoding::encode`); `None` for
/// an unknown label.
#[verifier::external_body]
fn encode_lossy(label: &str, text: &str) -> (r: Option<Vec<u8>>)
    ensures
        r is Some == is_encoding_label(label@),
        r matches Some(b) ==> b@ == encoded_text(label@, text@),
{
    match encoding_rs::Encoding::for_label(label.as_bytes()) {
        Some(enc) => Some(enc.encode(text).0.into_owned()),
        None => None,
    }
}

/// The UTF-16 code units of `c`: one below U+10000, a surrogate pair above.
pub open spec fn utf16_units(c: char) -> Seq<int> {
    let v = (c as u32) as int;
    if v < 0x10000 {
        seq![v]
    } else {
        let w = v - 0x10000;
        seq![0xD800 + w / 1024, 0xDC00 + w % 1024]
    }
}

/// A code unit as two bytes, low byte first when `le`.
pub open spec fn unit_bytes(u: int, le: bool) -> Seq<u8> {
    if le {
        seq![(u % 256) as u8, (u / 256) as u8]
    } else {
        seq![(u / 256) as u8, (u % 256) as u8]
    }
}

pub open spec fn char_utf16(c: char, le: bool) -> Seq<u8> {
    let us = utf16_units(c);
    if us.len() == 1 {
        unit_bytes(us[0], le)
    } else {
        unit_bytes(us[0], le) + unit_bytes(us[1], le)
    }
}

/// `text` in UTF-16, little-endian when `le`.
pub open spec fn utf16_bytes(text: Seq<char>, le: bool) -> Seq<u8>
    decreases text.len(),
{
    if text.len() == 0 {
        seq![]
    } else {
        utf16_bytes(text.drop_last(), le) + char_utf16(text.last(), le)
    }
}

fn push_unit(out: &mut Vec<u8>, u: u32, le: bool)
    requires
        u < 0x10000,
    ensures
        final(out)@ == old(out)@ + unit_bytes(u as int, le),
{
    let lo = (u % 256) as u8;
    let hi = (u / 256) as u8;
    if le {
        out.push(lo);
        out.push(hi);
    } else {
        out.push(hi);
        out.push(lo);
    }
    assert(out@ =~= old(out)@ + unit_bytes(u as int, le));
}

/// `text` in UTF-16, little-endian when `le`.
pub fn utf16_encode(text: &str, le: bool) -> (r: Vec<u8>)
    ensures
        r@ == utf16_bytes(text@, le),
{
    let cs = crate::text::chars_of(text);
    let mut out: Vec<u8> = Vec::new();
    let mut i: usize = 0;
    while i < cs.len()
        invariant
            i <= cs@.len(),
            cs@ == text@,
            out@ == utf16_bytes(cs@.take(i as int), le),
        decreases cs.len() - i,
    {
        let c = cs[i];
        let v = c as u32;
        proof {
            vstd::utf8::char_is_scalar(c);
        }
        let ghost before = out@;
        if v < 0x10000 {
            push_unit(&mut out, v, le);
        } else {
            let w = v - 0x10000;
            push_unit(&mut out, 0xD800 + w / 1024, le);
            push_unit(&mut out, 0xDC00 + w % 1024, le);
        }
        proof {
            assert(cs@.take(i + 1).drop_last() =~= cs@.take(i as int));
            assert(out@ =~= before + char_utf16(c, le));
        }
        i = i + 1;
    }
    assert(cs@.take(cs@.len() as int) =~= cs@);
    out
}

/// The bytes `text` is written as in the encoding labelled `label`: UTF-16 in
/// either byte order is written directly (`encoding_rs` only encodes to
/// UTF-8 there), every other encoding through `encoding_rs`.
pub open spec fn text_bytes(label: Seq<char>, text: Seq<char>) -> Seq<u8> {
    if encoding_name(label) == "UTF-16LE"@ {
        utf16_bytes(text, true)
    } else if encoding_name(label) == "UTF-16BE"@ {
        utf16_bytes(text, false)
    } else {
        encoded_text(label, text)
    }
}

/// Whether `name` spells `lit`.
pub(crate) fn is_named(name: &str, lit: &str) -> (b: bool)
    ensures
        b == (name@ == lit@),
{
    let a = crate::text::chars_of(name);
    let b = crate::text::chars_of(lit);
    crate::text::chars_eq(a.as_slice(), b.as_slice())
}

/// `text` encoded in the encoding labelled `label` (see `text_bytes`), or
/// `None` for a label `encoding_rs` does not know.
pub fn encode_text(text: &str, label: &str) -> (r: Option<Vec<u8>>)
    ensures
        r is Some == is_encoding_label(label@),
        r matches Some(b) ==> b@ == text_bytes(label@, text@),
{
    match canonical_name(label) {
        None => None,
        Some(name) => {
            if is_named(name.as_str(), "UTF-16LE") {
                Some(utf16_encode(text, true))
            } else if is_named(name.as_str(), "UTF-16BE") {
                Some(utf16_encode(text, false))
            } else {
                encode_lossy(label, text)
            }
        },
    }
}

} // verus!
