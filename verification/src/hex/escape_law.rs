//! Escaping bytes as UTF-8 text and reading the text back gives the bytes.
use vstd::prelude::*;
use vstd::utf8::{
    encode_scalar, encode_utf8, has_width_1_encoding, has_width_2_encoding, has_width_3_encoding,
    has_width_4_encoding, last_continuation_byte, leading_byte_width_1, leading_byte_width_2,
    leading_byte_width_3, leading_byte_width_4, second_last_continuation_byte, third_last_continuation_byte,
};

use crate::codec::{encoded_text, encoding_name, is_encoding_label, text_bytes};
use crate::hex::edit_dialog::{
    byte_escape, bytes_escaped, escape_char, escape_target, escaped_utf8, hex_escape_at, hex_escape_value,
    raw_byte, run_bytes, second_ok, unescaped, utf8_at, utf8_char_of,
};
use crate::hex::string_scan::{cont, lead_len, scalar_at};
use crate::text::{digit_value, hex2, hex_char, is_hex_digit};

verus! {

proof fn bv_width1(x: u8)
    requires
        x < 0x80,
    ensures
        ((x as u32) & 0x7F) as u8 == x,
{
    assert(((x as u32) & 0x7F) as u8 == x) by (bit_vector)
        requires
            x < 0x80,
    ;
}

proof fn bv_width2(x: u8, y: u8, v: u32)
    requires
        0xC2 <= x <= 0xDF,
        0x80 <= y <= 0xBF,
        v == (((x as u32) - 0xC0) * 64 + ((y as u32) - 0x80)) as u32,
    ensures
        0x80 <= v <= 0x7FF,
        (0xC0 | ((v >> 6) & 0x1F) as u8) == x,
        (0x80 | (v & 0x3F) as u8) == y,
{
    assert(0x80 <= v <= 0x7FF && (0xC0 | ((v >> 6) & 0x1F) as u8) == x && (0x80 | (v & 0x3F) as u8) == y) by (bit_vector)
        requires
            0xC2 <= x <= 0xDF,
            0x80 <= y <= 0xBF,
            v == (((x as u32) - 0xC0) * 64 + ((y as u32) - 0x80)) as u32,
    ;
}

proof fn bv_width3(x: u8, y: u8, z: u8, v: u32)
    requires
        0xE0 <= x <= 0xEF,
        0x80 <= y <= 0xBF,
        x == 0xE0 ==> 0xA0 <= y,
        x == 0xED ==> y <= 0x9F,
        0x80 <= z <= 0xBF,
        v == (((x as u32) - 0xE0) * 4096 + ((y as u32) - 0x80) * 64 + ((z as u32) - 0x80)) as u32,
    ensures
        0x800 <= v <= 0xFFFF,
        !(0xD800 <= v <= 0xDFFF),
        (0xE0 | ((v >> 12) & 0x0F) as u8) == x,
        (0x80 | ((v >> 6) & 0x3F) as u8) == y,
        (0x80 | (v & 0x3F) as u8) == z,
{
    assert(0x800 <= v <= 0xFFFF && !(0xD800 <= v <= 0xDFFF) && (0xE0 | ((v >> 12) & 0x0F) as u8) == x && (0x80 | ((v
        >> 6) & 0x3F) as u8) == y && (0x80 | (v & 0x3F) as u8) == z) by (bit_vector)
        requires
            0xE0 <= x <= 0xEF,
            0x80 <= y <= 0xBF,
            x == 0xE0 ==> 0xA0 <= y,
            x == 0xED ==> y <= 0x9F,
            0x80 <= z <= 0xBF,
            v == (((x as u32) - 0xE0) * 4096 + ((y as u32) - 0x80) * 64 + ((z as u32) - 0x80)) as u32,
    ;
}

proof fn bv_width4(x: u8, y: u8, z: u8, w: u8, v: u32)
    requires
        0xF0 <= x <= 0xF4,
        0x80 <= y <= 0xBF,
        x == 0xF0 ==> 0x90 <= y,
        x == 0xF4 ==> y <= 0x8F,
        0x80 <= z <= 0xBF,
        0x80 <= w <= 0xBF,
        v == (((x as u32) - 0xF0) * 262144 + ((y as u32) - 0x80) * 4096 + ((z as u32) - 0x80) * 64 + ((w as u32)
            - 0x80)) as u32,
    ensures
        0x10000 <= v <= 0x10FFFF,
        (0xF0 | ((v >> 18) & 0x7) as u8) == x,
        (0x80 | ((v >> 12) & 0x3F) as u8) == y,
        (0x80 | ((v >> 6) & 0x3F) as u8) == z,
        (0x80 | (v & 0x3F) as u8) == w,
{
    assert(0x10000 <= v <= 0x10FFFF && (0xF0 | ((v >> 18) & 0x7) as u8) == x && (0x80 | ((v >> 12) & 0x3F) as u8)
        == y && (0x80 | ((v >> 6) & 0x3F) as u8) == z && (0x80 | (v & 0x3F) as u8) == w) by (bit_vector)
        requires
            0xF0 <= x <= 0xF4,
            0x80 <= y <= 0xBF,
            x == 0xF0 ==> 0x90 <= y,
            x == 0xF4 ==> y <= 0x8F,
            0x80 <= z <= 0xBF,
            0x80 <= w <= 0xBF,
            v == (((x as u32) - 0xF0) * 262144 + ((y as u32) - 0x80) * 4096 + ((z as u32) - 0x80) * 64 + ((w
                as u32) - 0x80)) as u32,
    ;
}

proof fn lemma_encode_one(c: char)
    ensures
        encode_utf8(seq![c]) == encode_scalar(c as u32),
{
    let s = seq![c];
    assert(s.drop_first() =~= Seq::<char>::empty());
    assert(encode_utf8(Seq::<char>::empty()) =~= Seq::<u8>::empty());
    assert(encode_utf8(s) == encode_scalar(s[0] as u32) + encode_utf8(s.drop_first()));
    assert(encode_scalar(c as u32) + Seq::<u8>::empty() =~= encode_scalar(c as u32));
}

proof fn lemma_skip_split(t: Seq<char>, i: int, e: Seq<char>, rest: Seq<char>)
    requires
        0 <= i <= t.len(),
        t.skip(i) == e + rest,
    ensures
        i + e.len() <= t.len(),
        forall|k: int| 0 <= k < e.len() ==> t[i + k] == #[trigger] e[k],
        t.skip(i + e.len()) == rest,
{
    assert(t.skip(i).len() == t.len() - i);
    assert((e + rest).len() == e.len() + rest.len());
    assert forall|k: int| 0 <= k < e.len() implies t[i + k] == #[trigger] e[k] by {
        assert(t.skip(i)[k] == t[i + k]);
        assert((e + rest)[k] == e[k]);
    }
    assert forall|k: int| 0 <= k < rest.len() implies #[trigger] t.skip(i + e.len())[k] == rest[k] by {
        assert(t.skip(i)[e.len() + k] == t[i + e.len() + k]);
        assert((e + rest)[e.len() + k] == rest[k]);
        assert(t.skip(i + e.len())[k] == t[i + e.len() + k]);
    }
    assert(t.skip(i + e.len()) =~= rest);
}

proof fn lemma_label_names()
    ensures
        "UTF-8"@ != "UTF-16LE"@,
        "UTF-8"@ != "UTF-16BE"@,
{
    reveal_strlit("UTF-8");
    reveal_strlit("UTF-16LE");
    reveal_strlit("UTF-16BE");
    assert("UTF-8"@.len() != "UTF-16LE"@.len());
    assert("UTF-8"@.len() != "UTF-16BE"@.len());
}

/// A valid sequence at `p` encodes back to its own bytes.
proof fn lemma_valid_seq_encodes(b: Seq<u8>, p: int)
    requires
        0 <= p < b.len(),
        utf8_at(b, p).0,
    ensures
        p + utf8_at(b, p).1 <= b.len(),
        1 <= utf8_at(b, p).1 <= 4,
        encode_utf8(seq![utf8_char_of(b, p, utf8_at(b, p).1)]) == b.subrange(p, p + utf8_at(b, p).1),
        utf8_at(b, p).1 == 1 <==> b[p] < 0x80,
{
    let n = utf8_at(b, p).1;
    let x = b[p];
    let c = utf8_char_of(b, p, n);
    lemma_encode_one(c);
    if x < 0x80 {
        assert(n == 1);
        assert((c as u32) == x as u32);
        bv_width1(x);
        assert(encode_utf8(seq![c]) =~= b.subrange(p, p + 1));
    } else {
        let y = b[p + 1];
        if n == 2 {
            let v: u32 = (((x as u32) - 0xC0) * 64 + ((y as u32) - 0x80)) as u32;
            bv_width2(x, y, v);
            assert(scalar_at(b, p, 2) == v as int);
            assert((c as u32) == v);
            assert(encode_utf8(seq![c]) =~= b.subrange(p, p + 2));
        } else if n == 3 {
            let z = b[p + 2];
            let v: u32 = (((x as u32) - 0xE0) * 4096 + ((y as u32) - 0x80) * 64 + ((z as u32) - 0x80)) as u32;
            bv_width3(x, y, z, v);
            assert(scalar_at(b, p, 3) == v as int);
            assert((c as u32) == v);
            assert(encode_utf8(seq![c]) =~= b.subrange(p, p + 3));
        } else {
            let z = b[p + 2];
            let w = b[p + 3];
            let v: u32 = (((x as u32) - 0xF0) * 262144 + ((y as u32) - 0x80) * 4096 + ((z as u32) - 0x80) * 64 + ((
            w as u32) - 0x80)) as u32;
            bv_width4(x, y, z, w, v);
            assert(scalar_at(b, p, 4) == v as int);
            assert((c as u32) == v);
            assert(encode_utf8(seq![c]) =~= b.subrange(p, p + 4));
        }
    }
}

proof fn lemma_encode_concat(r: Seq<char>, s: Seq<char>)
    ensures
        encode_utf8(r + s) == encode_utf8(r) + encode_utf8(s),
    decreases r.len(),
{
    if r.len() == 0 {
        assert(r + s =~= s);
        assert(encode_utf8(r) =~= Seq::<u8>::empty());
        assert(encode_utf8(r) + encode_utf8(s) =~= encode_utf8(s));
    } else {
        lemma_encode_concat(r.drop_first(), s);
        assert((r + s).drop_first() =~= r.drop_first() + s);
        assert((r + s)[0] == r[0]);
    }
}

proof fn lemma_hex2_parts(x: u8)
    ensures
        is_hex_digit(hex2(x)[0]),
        is_hex_digit(hex2(x)[1]),
        (digit_value(hex2(x)[0], 16)->0 * 16 + digit_value(hex2(x)[1], 16)->0) as u8 == x,
        hex2(x)[0] != 'x' && hex2(x)[0] != 'X',
{
    assert(digit_value(hex_char((x / 16) as nat), 16) == Some((x / 16) as u32));
    assert(digit_value(hex_char((x % 16) as nat), 16) == Some((x % 16) as u32));
}

proof fn lemma_bytes_escaped_front(bs: Seq<u8>)
    requires
        bs.len() > 0,
    ensures
        bytes_escaped(bs) == byte_escape(bs[0]) + bytes_escaped(bs.drop_first()),
        bytes_escaped(bs).len() == 4 * bs.len(),
    decreases bs.len(),
{
    if bs.len() == 1 {
        assert(bs.drop_last() =~= Seq::<u8>::empty());
        assert(bs.drop_first() =~= Seq::<u8>::empty());
        assert(bytes_escaped(bs) =~= byte_escape(bs[0]) + bytes_escaped(bs.drop_first()));
    } else {
        lemma_bytes_escaped_front(bs.drop_last());
        assert(bs.drop_last().drop_first() =~= bs.drop_first().drop_last());
        assert(bs.drop_first().last() == bs.last());
        assert(bs.drop_last()[0] == bs[0]);
        assert(bytes_escaped(bs) =~= byte_escape(bs[0]) + bytes_escaped(bs.drop_first()));
    }
}

/// Text encoded in the encoding labelled `label` is its UTF-8 bytes.
pub open spec fn writes_utf8(label: Seq<char>) -> bool {
    &&& is_encoding_label(label)
    &&& encoding_name(label) == "UTF-8"@
    &&& forall|t: Seq<char>| #[trigger] encoded_text(label, t) == encode_utf8(t)
}

proof fn lemma_text_bytes_utf8(label: Seq<char>, t: Seq<char>)
    requires
        writes_utf8(label),
    ensures
        text_bytes(label, t) == encode_utf8(t),
        run_bytes(label, t) == encode_utf8(t),
{
    lemma_label_names();
    assert(encoded_text(label, t) == encode_utf8(t));
    if t.len() == 0 {
        assert(encode_utf8(t) =~= Seq::<u8>::empty());
    }
}

/// Reading a run of `\xHH` escapes: the bytes they name, after the pending
/// plain text.
proof fn lemma_unescape_bytes(t: Seq<char>, i: int, r: Seq<char>, label: Seq<char>, bs: Seq<u8>)
    requires
        writes_utf8(label),
        0 <= i,
        bs.len() > 0,
        i + 4 * bs.len() <= t.len(),
        t.subrange(i, i + 4 * bs.len()) == bytes_escaped(bs),
    ensures
        unescaped(t, i, r, label) == encode_utf8(r) + bs + unescaped(t, i + 4 * bs.len(), seq![], label),
    decreases bs.len(),
{
    lemma_bytes_escaped_front(bs);
    let x = bs[0];
    lemma_hex2_parts(x);
    assert(t.subrange(i, i + 4 * bs.len())[0] == t[i]);
    assert(t.subrange(i, i + 4 * bs.len())[1] == t[i + 1]);
    assert(t.subrange(i, i + 4 * bs.len())[2] == t[i + 2]);
    assert(t.subrange(i, i + 4 * bs.len())[3] == t[i + 3]);
    assert(byte_escape(x) == seq!['\\', 'x'] + hex2(x));
    assert(bytes_escaped(bs)[0] == '\\' && bytes_escaped(bs)[1] == 'x');
    assert(bytes_escaped(bs)[2] == hex2(x)[0] && bytes_escaped(bs)[3] == hex2(x)[1]);
    assert(escape_target(t[i + 1]) is None);
    assert(hex_escape_at(t, i));
    assert(hex_escape_value(t, i) == x);
    lemma_label_names();
    assert(raw_byte(encoding_name(label), x) == seq![x]);
    lemma_text_bytes_utf8(label, r);
    assert(unescaped(t, i, r, label) == run_bytes(label, r) + seq![x] + unescaped(t, i + 4, seq![], label));
    if bs.len() > 1 {
        let rest = bs.drop_first();
        assert(t.subrange(i + 4, i + 4 + 4 * rest.len()) =~= bytes_escaped(rest)) by {
            assert forall|k: int| 0 <= k < 4 * rest.len() implies t.subrange(i + 4, i + 4 + 4 * rest.len())[k]
                == bytes_escaped(rest)[k] by {
                assert(t.subrange(i, i + 4 * bs.len())[k + 4] == bytes_escaped(bs)[k + 4]);
            }
        }
        lemma_unescape_bytes(t, i + 4, seq![], label, rest);
        lemma_text_bytes_utf8(label, seq![]);
        assert(encode_utf8(Seq::<char>::empty()) =~= Seq::<u8>::empty());
        assert(seq![x] + rest =~= bs);
    } else {
        assert(seq![x] =~= bs);
    }
}

proof fn lemma_unescape_from(b: Seq<u8>, p: int, t: Seq<char>, i: int, r: Seq<char>, label: Seq<char>)
    requires
        writes_utf8(label),
        0 <= p <= b.len(),
        0 <= i <= t.len(),
        t.skip(i) == escaped_utf8(b, p),
    ensures
        unescaped(t, i, r, label) == encode_utf8(r) + b.skip(p),
    decreases b.len() - p,
{
    lemma_text_bytes_utf8(label, r);
    if p >= b.len() {
        assert(t.skip(i).len() == 0);
        assert(b.skip(p) =~= Seq::<u8>::empty());
        assert(encode_utf8(r) + b.skip(p) =~= encode_utf8(r));
    } else {
        let (ok, n) = utf8_at(b, p);
        let rest = escaped_utf8(b, p + n);
        if ok {
            lemma_valid_seq_encodes(b, p);
            let c = utf8_char_of(b, p, n);
            let e = escape_char(c);
            assert(escaped_utf8(b, p) == e + rest);
            lemma_skip_split(t, i, e, rest);
            assert(b.skip(p) =~= b.subrange(p, p + n) + b.skip(p + n));
            if c == '\n' || c == '\r' || c == '\t' || c == '\0' || c == '\\' {
                assert(n == 1);
                assert(e.len() == 2 && t[i] == e[0] && t[i + 1] == e[1]);
                assert(escape_target(t[i + 1]) == Some(c));
                lemma_unescape_from(b, p + 1, t, i + 2, seq![], label);
                lemma_text_bytes_utf8(label, seq![c]);
                lemma_text_bytes_utf8(label, seq![]);
                assert(encode_utf8(Seq::<char>::empty()) =~= Seq::<u8>::empty());
            } else if (c as u32) < 0x20 || c == '\x7F' {
                assert(n == 1);
                let v = b[p];
                assert((c as u32) as u8 == v);
                lemma_hex2_parts(v);
                assert(e =~= seq!['\\', 'x'] + hex2(v));
                assert(t[i] == e[0] && t[i + 1] == e[1]);
                assert(t[i + 2] == e[2] && t[i + 3] == e[3]);
                assert(escape_target(t[i + 1]) is None);
                assert(hex_escape_at(t, i));
                lemma_label_names();
                assert(raw_byte(encoding_name(label), hex_escape_value(t, i)) == seq![v]);
                lemma_unescape_from(b, p + 1, t, i + 4, seq![], label);
                lemma_text_bytes_utf8(label, seq![]);
                assert(encode_utf8(Seq::<char>::empty()) =~= Seq::<u8>::empty());
                assert(b.subrange(p, p + 1) =~= seq![v]);
            } else {
                assert(e == seq![c]);
                assert(t[i] == e[0]);
                assert(!hex_escape_at(t, i));
                lemma_unescape_from(b, p + n, t, i + 1, r.push(c), label);
                lemma_encode_concat(r, seq![c]);
                assert(r + seq![c] =~= r.push(c));
            }
        } else {
            assert(1 <= n <= 3 && p + n <= b.len());
            let bs = b.subrange(p, p + n);
            lemma_bytes_escaped_front(bs);
            assert(escaped_utf8(b, p) == bytes_escaped(bs) + rest);
            lemma_skip_split(t, i, bytes_escaped(bs), rest);
            assert(t.subrange(i, i + 4 * n) =~= bytes_escaped(bs));
            lemma_unescape_bytes(t, i, r, label, bs);
            lemma_unescape_from(b, p + n, t, i + 4 * n, seq![], label);
            lemma_text_bytes_utf8(label, seq![]);
            assert(encode_utf8(Seq::<char>::empty()) =~= Seq::<u8>::empty());
            assert(b.skip(p) =~= bs + b.skip(p + n));
        }
    }
}

/// Escaping bytes as UTF-8 text (`bytes_to_escaped_string` with a UTF-8
/// label gives `escaped_utf8`) and unescaping that text again
/// (`unescape_to_bytes` gives `unescaped`) gives back the bytes, when text in
/// that encoding is written as its UTF-8 bytes.
pub proof fn law_escape_round_trip(b: Seq<u8>, label: Seq<char>)
    requires
        writes_utf8(label),
    ensures
        unescaped(escaped_utf8(b, 0), 0, seq![], label) == b,
{
    let t = escaped_utf8(b, 0);
    assert(t.skip(0) =~= t);
    lemma_unescape_from(b, 0, t, 0, seq![], label);
    assert(encode_utf8(Seq::<char>::empty()) =~= Seq::<u8>::empty());
    assert(b.skip(0) =~= b);
}

} // verus!
