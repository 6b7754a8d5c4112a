//! SSID encoding and decoding.
//!
//! wpa_supplicant prints SSIDs with escape sequences (`\xNN`, `\\`, `\"`,
//! `\n`, `\r`, `\t` and octal `\NNN`). `unescape_ssid` turns such text back
//! into the SSID, and `escape_ssid` produces text that wpa_supplicant reads
//! back as the same SSID.
use vstd::prelude::*;
use unicode_width::{UnicodeWidthChar, UnicodeWidthStr};
use vstd::utf8::{decode_utf8, encode_scalar, encode_utf8, valid_utf8};

use crate::mac::{hex2, hex_digit, lemma_hex2_parse};
use crate::text::{
    append_chars, chars_of, is_ascii_control, parse_u8_radix, parse_u8_radix_exec, push_char,
};

verus! {

// ---------------------------------------------------------------------------
// Decoding
// ---------------------------------------------------------------------------

pub open spec fn is_octal(c: char) -> bool {
    '0' <= c && c <= '7'
}

/// Number of leading octal digits of `s`, at most `max`.
pub open spec fn octal_len(s: Seq<char>, max: nat) -> nat
    decreases max,
{
    if max == 0 || s.len() == 0 || !is_octal(s[0]) {
        0
    } else {
        1 + octal_len(s.drop_first(), (max - 1) as nat)
    }
}

/// The bytes that an escaped SSID stands for, before UTF-8 decoding.
///
/// An escape that does not decode (a short or non-hexadecimal `\x`, an
/// out-of-range octal value) is kept as text; a backslash before any other
/// character, or at the end, is kept as a backslash.
pub open spec fn unescape_bytes(s: Seq<char>) -> Seq<u8>
    decreases s.len(),
{
    if s.len() == 0 {
        seq![]
    } else if s[0] != '\\' {
        encode_utf8(seq![s[0]]) + unescape_bytes(s.drop_first())
    } else if s.len() == 1 {
        seq![0x5cu8]
    } else {
        let p = s[1];
        if p == 'x' || p == 'X' {
            let r = s.skip(2);
            let h = if r.len() >= 2 {
                r.take(2)
            } else {
                r
            };
            let head = if h.len() == 2 && parse_u8_radix(h, 16) is Some {
                seq![parse_u8_radix(h, 16).unwrap()]
            } else {
                seq![0x5cu8, 0x78u8] + encode_utf8(h)
            };
            head + unescape_bytes(r.skip(h.len() as int))
        } else if p == '\\' {
            seq![0x5cu8] + unescape_bytes(s.skip(2))
        } else if p == '"' {
            seq![0x22u8] + unescape_bytes(s.skip(2))
        } else if p == 'n' {
            seq![0x0au8] + unescape_bytes(s.skip(2))
        } else if p == 'r' {
            seq![0x0du8] + unescape_bytes(s.skip(2))
        } else if p == 't' {
            seq![0x09u8] + unescape_bytes(s.skip(2))
        } else if is_octal(p) {
            let k: int = octal_len(s.skip(1), 3) as int;
            let o = s.subrange(1, 1 + k);
            let head = match parse_u8_radix(o, 8) {
                Some(v) => seq![v],
                None => seq![0x5cu8] + encode_utf8(o),
            };
            proof {
                lemma_octal_len(s.skip(1), 3);
            }
            head + unescape_bytes(s.skip(1 + k))
        } else {
            seq![0x5cu8] + unescape_bytes(s.drop_first())
        }
    }
}

/// `String::from_utf8_lossy`: the text of a byte sequence, with each
/// invalid part replaced by U+FFFD.
pub uninterp spec fn utf8_lossy(bytes: Seq<u8>) -> Seq<char>;

/// The text that `unescape_ssid` returns for the given bytes: their UTF-8
/// decoding where they are valid UTF-8, else the lossy decoding.
pub open spec fn ssid_text(bytes: Seq<u8>) -> Seq<char> {
    if valid_utf8(bytes) {
        decode_utf8(bytes)
    } else {
        utf8_lossy(bytes)
    }
}

/// `String::from_utf8_lossy(bytes).into_owned()`. Valid UTF-8 decodes to
/// the characters it encodes (std documents that no replacement happens
/// then); how invalid sequences are replaced is left to the name
/// `utf8_lossy`.
#[verifier::external_body]
fn utf8_lossy_exec(bytes: &Vec<u8>) -> (r: String)
    ensures
        r@ == utf8_lossy(bytes@),
        valid_utf8(bytes@) ==> r@ == decode_utf8(bytes@),
{
    String::from_utf8_lossy(bytes).into_owned()
}

pub proof fn lemma_octal_len(s: Seq<char>, max: nat)
    ensures
        octal_len(s, max) <= max,
        octal_len(s, max) <= s.len(),
        s.len() > 0 && max > 0 && is_octal(s[0]) ==> octal_len(s, max) >= 1,
        forall|j: int| 0 <= j < octal_len(s, max) ==> is_octal(#[trigger] s[j]),
        octal_len(s, max) < max && octal_len(s, max) < s.len() ==> !is_octal(
            s[octal_len(s, max) as int],
        ),
    decreases max,
{
    if max == 0 || s.len() == 0 || !is_octal(s[0]) {
    } else {
        lemma_octal_len(s.drop_first(), (max - 1) as nat);
        assert forall|j: int| 0 <= j < octal_len(s, max) implies is_octal(#[trigger] s[j]) by {
            if j > 0 {
                assert(s[j] == s.drop_first()[j - 1]);
            }
        }
    }
}

/// The UTF-8 encoding of one character.
pub fn encode_char(c: char) -> (r: Vec<u8>)
    ensures
        r@ == encode_utf8(seq![c]),
{
    proof {
        vstd::utf8::char_is_scalar(c);
        assert(encode_utf8(seq![c]) =~= encode_scalar(c as u32) + encode_utf8(
            seq![c].drop_first(),
        ));
        assert(seq![c].drop_first() =~= Seq::<char>::empty());
        assert(encode_utf8(seq![c]) =~= encode_scalar(c as u32));
    }
    let v: u32 = c as u32;
    let mut r: Vec<u8> = Vec::new();
    if v <= 0x7f {
        r.push((v & 0x7f) as u8);
    } else if v <= 0x7ff {
        r.push(0xc0 | ((v >> 6) & 0x1f) as u8);
        r.push(0x80 | (v & 0x3f) as u8);
    } else if v <= 0xffff {
        r.push(0xe0 | ((v >> 12) & 0x0f) as u8);
        r.push(0x80 | ((v >> 6) & 0x3f) as u8);
        r.push(0x80 | (v & 0x3f) as u8);
    } else {
        r.push(0xf0 | ((v >> 18) & 0x7) as u8);
        r.push(0x80 | ((v >> 12) & 0x3f) as u8);
        r.push(0x80 | ((v >> 6) & 0x3f) as u8);
        r.push(0x80 | (v & 0x3f) as u8);
    }
    assert(r@ =~= encode_scalar(v));
    r
}

/// Appends `b` to `out`.
fn extend_bytes(out: &mut Vec<u8>, b: &Vec<u8>)
    ensures
        final(out)@ == old(out)@ + b@,
{
    let mut i: usize = 0;
    while i < b.len()
        invariant
            0 <= i <= b@.len(),
            out@ == old(out)@ + b@.take(i as int),
        decreases b@.len() - i,
    {
        out.push(b[i]);
        i = i + 1;
        assert(out@ =~= old(out)@ + b@.take(i as int));
    }
    assert(b@.take(b@.len() as int) =~= b@);
}

pub proof fn lemma_encode_utf8_append(a: Seq<char>, c: char)
    ensures
        encode_utf8(a.push(c)) == encode_utf8(a) + encode_utf8(seq![c]),
    decreases a.len(),
{
    if a.len() == 0 {
        assert(a.push(c) =~= seq![c]);
    } else {
        assert(a.push(c).drop_first() =~= a.drop_first().push(c));
        lemma_encode_utf8_append(a.drop_first(), c);
    }
}

/// Appends the UTF-8 encoding of `cs[lo..hi]` to `out`.
fn extend_encoded(out: &mut Vec<u8>, cs: &Vec<char>, lo: usize, hi: usize)
    requires
        lo <= hi <= cs@.len(),
    ensures
        final(out)@ == old(out)@ + encode_utf8(cs@.subrange(lo as int, hi as int)),
{
    let mut i: usize = lo;
    while i < hi
        invariant
            lo <= i <= hi <= cs@.len(),
            out@ == old(out)@ + encode_utf8(cs@.subrange(lo as int, i as int)),
        decreases hi - i,
    {
        let e = encode_char(cs[i]);
        extend_bytes(out, &e);
        proof {
            lemma_encode_utf8_append(cs@.subrange(lo as int, i as int), cs@[i as int]);
            assert(cs@.subrange(lo as int, i as int).push(cs@[i as int]) =~= cs@.subrange(
                lo as int,
                i + 1,
            ));
        }
        i = i + 1;
    }
}

/// One step of decoding at a backslash followed by `x` or `X`.
fn unescape_hex_step(cs: &Vec<char>, i: usize) -> (r: (Vec<u8>, usize))
    requires
        i + 1 < cs@.len(),
        cs@[i as int] == '\\',
        cs@[i + 1] == 'x' || cs@[i + 1] == 'X',
    ensures
        i < r.1 <= cs@.len(),
        unescape_bytes(cs@.skip(i as int)) == r.0@ + unescape_bytes(cs@.skip(r.1 as int)),
{
    let ghost t = cs@.skip(i as int);
    let n = cs.len();
    let j = i + 2;
    let hend = if n - j >= 2 {
        j + 2
    } else {
        n
    };
    proof {
        assert(t[0] == cs@[i as int]);
        assert(t[1] == cs@[i + 1]);
        let r = t.skip(2);
        assert(r =~= cs@.skip(j as int));
        let h = if r.len() >= 2 {
            r.take(2)
        } else {
            r
        };
        assert(h =~= cs@.subrange(j as int, hend as int));
        assert(r.skip(h.len() as int) =~= cs@.skip(hend as int));
    }
    let mut out: Vec<u8> = Vec::new();
    let mut decoded = false;
    if hend - j == 2 {
        match parse_u8_radix_exec(cs, j, hend, 16) {
            Some(b) => {
                out.push(b);
                decoded = true;
            },
            None => {},
        }
    }
    if !decoded {
        out.push(0x5c);
        out.push(0x78);
        extend_encoded(&mut out, cs, j, hend);
    }
    proof {
        let h = cs@.subrange(j as int, hend as int);
        if decoded {
            assert(out@ =~= seq![parse_u8_radix(h, 16).unwrap()]);
        } else {
            assert(out@ =~= seq![0x5cu8, 0x78u8] + encode_utf8(h));
        }
    }
    (out, hend)
}

/// One step of decoding at a backslash followed by an octal digit.
fn unescape_octal_step(cs: &Vec<char>, i: usize) -> (r: (Vec<u8>, usize))
    requires
        i + 1 < cs@.len(),
        cs@[i as int] == '\\',
        is_octal(cs@[i + 1]),
    ensures
        i < r.1 <= cs@.len(),
        unescape_bytes(cs@.skip(i as int)) == r.0@ + unescape_bytes(cs@.skip(r.1 as int)),
{
    let ghost t = cs@.skip(i as int);
    let n = cs.len();
    let start = i + 1;
    let mut k = start;
    proof {
        assert(cs@.skip(start as int) =~= cs@.skip(k as int));
    }
    while k < n && k - start < 3 && '0' <= cs[k] && cs[k] <= '7'
        invariant
            n == cs@.len(),
            start < n,
            start <= k <= n,
            k - start <= 3,
            octal_len(cs@.skip(start as int), 3) == (k - start) + octal_len(
                cs@.skip(k as int),
                (3 - (k - start)) as nat,
            ),
        decreases n - k,
    {
        proof {
            let u = cs@.skip(k as int);
            assert(u[0] == cs@[k as int]);
            assert(u.drop_first() =~= cs@.skip(k + 1));
        }
        k = k + 1;
    }
    proof {
        let u = cs@.skip(k as int);
        if k < n {
            assert(u[0] == cs@[k as int]);
        }
        assert(octal_len(u, (3 - (k - start)) as nat) == 0);
        assert(t[0] == cs@[i as int]);
        assert(t[1] == cs@[i + 1]);
        assert(t.skip(1) =~= cs@.skip(start as int));
        assert(t.subrange(1, 1 + (k - start)) =~= cs@.subrange(start as int, k as int));
        assert(t.skip(1 + (k - start)) =~= cs@.skip(k as int));
        lemma_octal_len(cs@.skip(start as int), 3);
    }
    let mut out: Vec<u8> = Vec::new();
    match parse_u8_radix_exec(cs, start, k, 8) {
        Some(v) => {
            out.push(v);
        },
        None => {
            out.push(0x5c);
            extend_encoded(&mut out, cs, start, k);
        },
    }
    proof {
        let o = cs@.subrange(start as int, k as int);
        if let Some(v) = parse_u8_radix(o, 8) {
            assert(out@ =~= seq![v]);
        } else {
            assert(out@ =~= seq![0x5cu8] + encode_utf8(o));
        }
    }
    (out, k)
}

/// One step of decoding at a backslash: the bytes of the escape and where
/// the rest of the text starts.
fn unescape_backslash_step(cs: &Vec<char>, i: usize) -> (r: (Vec<u8>, usize))
    requires
        i < cs@.len(),
        cs@[i as int] == '\\',
    ensures
        i < r.1 <= cs@.len(),
        unescape_bytes(cs@.skip(i as int)) == r.0@ + unescape_bytes(cs@.skip(r.1 as int)),
{
    let ghost t = cs@.skip(i as int);
    assert(t[0] == cs@[i as int]);
    let n = cs.len();
    let mut out: Vec<u8> = Vec::new();
    if i + 1 >= n {
        out.push(0x5c);
        assert(t.len() == 1);
        assert(cs@.skip(i + 1) =~= Seq::<char>::empty());
        assert(out@ =~= seq![0x5cu8]);
        return (out, i + 1);
    }
    let p = cs[i + 1];
    assert(t[1] == p);
    if p == 'x' || p == 'X' {
        unescape_hex_step(cs, i)
    } else if p == '\\' || p == '"' || p == 'n' || p == 'r' || p == 't' {
        let b: u8 = if p == '\\' {
            0x5c
        } else if p == '"' {
            0x22
        } else if p == 'n' {
            0x0a
        } else if p == 'r' {
            0x0d
        } else {
            0x09
        };
        out.push(b);
        assert(t.skip(2) =~= cs@.skip(i + 2));
        assert(out@ =~= seq![b]);
        (out, i + 2)
    } else if '0' <= p && p <= '7' {
        unescape_octal_step(cs, i)
    } else {
        out.push(0x5c);
        assert(t.drop_first() =~= cs@.skip(i + 1));
        assert(out@ =~= seq![0x5cu8]);
        (out, i + 1)
    }
}

/// The bytes that the escaped SSID `cs` stands for.
pub fn unescape_to_bytes(cs: &Vec<char>) -> (r: Vec<u8>)
    ensures
        r@ == unescape_bytes(cs@),
{
    let n = cs.len();
    let mut out: Vec<u8> = Vec::new();
    let mut i: usize = 0;
    assert(cs@.skip(0) =~= cs@);
    while i < n
        invariant
            n == cs@.len(),
            0 <= i <= n,
            unescape_bytes(cs@) == out@ + unescape_bytes(cs@.skip(i as int)),
        decreases n - i,
    {
        let ghost t = cs@.skip(i as int);
        let c = cs[i];
        assert(t[0] == c);
        if c != '\\' {
            let e = encode_char(c);
            extend_bytes(&mut out, &e);
            assert(t.drop_first() =~= cs@.skip(i + 1));
            i = i + 1;
        } else {
            let (head, next) = unescape_backslash_step(cs, i);
            extend_bytes(&mut out, &head);
            i = next;
        }
    }
    assert(cs@.skip(n as int) =~= Seq::<char>::empty());
    out
}

/// Unescapes an SSID printed by wpa_supplicant and decodes it as UTF-8,
/// replacing invalid sequences.
pub fn unescape_ssid(s: &str) -> (r: String)
    ensures
        r@ == ssid_text(unescape_bytes(s@)),
{
    let cs = chars_of(s);
    unescape_chars(&cs)
}

/// `unescape_ssid` on a character buffer.
pub fn unescape_chars(cs: &Vec<char>) -> (r: String)
    ensures
        r@ == ssid_text(unescape_bytes(cs@)),
{
    let bytes = unescape_to_bytes(cs);
    utf8_lossy_exec(&bytes)
}

// ---------------------------------------------------------------------------
// Encoding
// ---------------------------------------------------------------------------

/// How `escape_ssid` writes one character.
pub open spec fn escape_char(c: char) -> Seq<char> {
    if c == '\\' {
        seq!['\\', '\\']
    } else if c == '"' {
        seq!['\\', '"']
    } else if c == '\n' {
        seq!['\\', 'n']
    } else if c == '\r' {
        seq!['\\', 'r']
    } else if c == '\t' {
        seq!['\\', 't']
    } else if is_ascii_control(c) || c == ' ' {
        seq!['\\', 'x'] + hex2(c as u8)
    } else {
        seq![c]
    }
}

/// The escaped form of an SSID.
pub open spec fn escape_seq(s: Seq<char>) -> Seq<char>
    decreases s.len(),
{
    if s.len() == 0 {
        seq![]
    } else {
        escape_char(s[0]) + escape_seq(s.drop_first())
    }
}

pub proof fn lemma_escape_seq_push(s: Seq<char>, c: char)
    ensures
        escape_seq(s.push(c)) == escape_seq(s) + escape_char(c),
    decreases s.len(),
{
    if s.len() == 0 {
        assert(s.push(c).drop_first() =~= Seq::<char>::empty());
        assert(s.push(c)[0] == c);
        assert(escape_seq(Seq::<char>::empty()) == Seq::<char>::empty());
        assert(escape_seq(s) == Seq::<char>::empty());
        assert(escape_seq(s.push(c)) =~= escape_char(c));
    } else {
        assert(s.push(c).drop_first() =~= s.drop_first().push(c));
        lemma_escape_seq_push(s.drop_first(), c);
        assert(escape_seq(s.push(c)) =~= escape_seq(s) + escape_char(c));
    }
}

/// Escapes an SSID for wpa_supplicant commands: backslash, quote, newline,
/// carriage return and tab get their backslash escapes, other ASCII control
/// characters and the space become `\xNN`.
pub fn escape_ssid(s: &str) -> (r: String)
    ensures
        r@ == escape_seq(s@),
{
    let cs = chars_of(s);
    let mut out = String::new();
    let mut i: usize = 0;
    while i < cs.len()
        invariant
            0 <= i <= cs@.len(),
            out@ == escape_seq(cs@.take(i as int)),
        decreases cs@.len() - i,
    {
        let c = cs[i];
        let ghost before = out@;
        if c == '\\' {
            push_char(&mut out, '\\');
            push_char(&mut out, '\\');
        } else if c == '"' {
            push_char(&mut out, '\\');
            push_char(&mut out, '"');
        } else if c == '\n' {
            push_char(&mut out, '\\');
            push_char(&mut out, 'n');
        } else if c == '\r' {
            push_char(&mut out, '\\');
            push_char(&mut out, 'r');
        } else if c == '\t' {
            push_char(&mut out, '\\');
            push_char(&mut out, 't');
        } else if c <= '\u{1f}' || c == '\u{7f}' || c == ' ' {
            let b: u8 = c as u8;
            push_char(&mut out, '\\');
            push_char(&mut out, 'x');
            push_char(&mut out, hex_char(b / 16));
            push_char(&mut out, hex_char(b % 16));
        } else {
            push_char(&mut out, c);
        }
        proof {
            assert(out@ =~= before + escape_char(c));
            lemma_escape_seq_push(cs@.take(i as int), c);
            assert(cs@.take(i as int).push(c) =~= cs@.take(i + 1));
        }
        i = i + 1;
    }
    assert(cs@.take(cs@.len() as int) =~= cs@);
    out
}

fn hex_char(v: u8) -> (r: char)
    requires
        v < 16,
    ensures
        r == hex_digit(v),
{
    if v < 10 {
        (('0' as u8) + v) as char
    } else {
        (('a' as u8) + (v - 10)) as char
    }
}

// ---------------------------------------------------------------------------
// Round trip
// ---------------------------------------------------------------------------

/// An ASCII character is encoded as its own code.
pub proof fn lemma_encode_ascii(c: char)
    requires
        (c as u32) < 0x80,
    ensures
        encode_utf8(seq![c]) == seq![c as u8],
{
    let v = c as u32;
    assert(v & 0x7f == v) by (bit_vector)
        requires
            v < 0x80,
    ;
    lemma_encode_one(c);
    assert(encode_scalar(v) =~= seq![(v & 0x7f) as u8]);
    assert(encode_utf8(seq![c]) =~= seq![c as u8]);
}

/// One character is encoded as its scalar.
pub proof fn lemma_encode_one(c: char)
    ensures
        encode_utf8(seq![c]) == encode_scalar(c as u32),
{
    assert(seq![c][0] == c);
    assert(seq![c].drop_first() =~= Seq::<char>::empty());
    assert(encode_utf8(Seq::<char>::empty()) == Seq::<u8>::empty());
    assert(encode_utf8(seq![c]) =~= encode_scalar(c as u32));
}

/// Decoding the escape of one character, followed by any text.
pub proof fn lemma_unescape_escape_char(c: char, t: Seq<char>)
    ensures
        unescape_bytes(escape_char(c) + t) == encode_utf8(seq![c]) + unescape_bytes(t),
{
    let u = escape_char(c) + t;
    if c == '\\' || c == '"' || c == '\n' || c == '\r' || c == '\t' {
        lemma_encode_ascii(c);
        assert(u[0] == '\\');
        assert(u.skip(2) =~= t);
    } else if is_ascii_control(c) || c == ' ' {
        lemma_encode_ascii(c);
        lemma_hex2_parse(c as u8);
        assert(u[0] == '\\');
        assert(u[1] == 'x');
        let r = u.skip(2);
        assert(r.take(2) =~= hex2(c as u8));
        assert(r.skip(2) =~= t);
    } else {
        assert(u[0] == c);
        assert(u.drop_first() =~= t);
    }
}

/// Decoding an escaped SSID gives back the UTF-8 encoding of the SSID.
pub proof fn lemma_unescape_escape_bytes(s: Seq<char>)
    ensures
        unescape_bytes(escape_seq(s)) == encode_utf8(s),
    decreases s.len(),
{
    if s.len() > 0 {
        lemma_unescape_escape_bytes(s.drop_first());
        lemma_unescape_escape_char(s[0], escape_seq(s.drop_first()));
        lemma_encode_one(s[0]);
    }
}

/// `unescape_ssid` undoes `escape_ssid`: every SSID comes back unchanged.
pub proof fn lemma_unescape_escape(s: Seq<char>)
    ensures
        ssid_text(unescape_bytes(escape_seq(s))) == s,
{
    lemma_unescape_escape_bytes(s);
    vstd::utf8::encode_utf8_valid_utf8(s);
    vstd::utf8::encode_utf8_decode_utf8(s);
}

// ---------------------------------------------------------------------------
// Display width
// ---------------------------------------------------------------------------

/// The terminal width of a string as `unicode_width::UnicodeWidthStr::width`
/// computes it.
pub uninterp spec fn str_display_width(s: Seq<char>) -> usize;

/// The terminal width of a character as `unicode_width::UnicodeWidthChar::width`
/// computes it (`None` for control characters).
pub uninterp spec fn char_display_width(c: char) -> Option<usize>;

/// `UnicodeWidthStr::width`. The result is named; the crate's source folds
/// over the characters from a sum of 0, so the empty string has width 0.
#[verifier::external_body]
fn str_width(s: &str) -> (r: usize)
    ensures
        r == str_display_width(s@),
        s@.len() == 0 ==> r == 0,
{
    UnicodeWidthStr::width(s)
}

/// `UnicodeWidthChar::width`. The result is named; the crate's source
/// answers `None` below U+0020 and in U+007F..U+009F, and 1 for the other
/// ASCII characters.
#[verifier::external_body]
fn char_width(c: char) -> (r: Option<usize>)
    ensures
        r == char_display_width(c),
        c < ' ' ==> r is None,
        ' ' <= c && c < '\u{7f}' ==> r == Some(1usize),
        '\u{7f}' <= c && c < '\u{a0}' ==> r is None,
{
    UnicodeWidthChar::width(c)
}

/// Display width of an SSID in terminal columns.
pub fn ssid_display_width(s: &str) -> (r: usize)
    ensures
        r == str_display_width(s@),
        s@.len() == 0 ==> r == 0,
{
    str_width(s)
}

/// The width that `truncate_to_width` counts for a character: its display
/// width, or 1 where it has none.
pub open spec fn counted_width(w: Option<usize>) -> int {
    match w {
        Some(v) => v as int,
        None => 1,
    }
}

/// How many leading characters fit in `budget` columns, taking characters
/// while the running total stays within the budget.
pub open spec fn fit_len(widths: Seq<Option<usize>>, budget: int) -> nat
    decreases widths.len(),
{
    if widths.len() == 0 || counted_width(widths[0]) > budget {
        0
    } else {
        1 + fit_len(widths.drop_first(), budget - counted_width(widths[0]))
    }
}

/// The result of truncating `s` to `max_width` columns, given the display
/// width of the whole string and of each character.
pub open spec fn truncate_text(
    s: Seq<char>,
    max_width: usize,
    width: usize,
    widths: Seq<Option<usize>>,
) -> Seq<char> {
    if width <= max_width {
        s
    } else if max_width < 3 {
        seq![]
    } else {
        s.take(fit_len(widths, max_width - 3) as int) + seq!['.', '.', '.']
    }
}

proof fn lemma_fit_len_step(widths: Seq<Option<usize>>, budget: int, k: int, used: int)
    requires
        0 <= k < widths.len(),
        fit_len(widths, budget) == k + fit_len(widths.skip(k), budget - used),
        counted_width(widths[k]) <= budget - used,
    ensures
        fit_len(widths, budget) == k + 1 + fit_len(
            widths.skip(k + 1),
            budget - used - counted_width(widths[k]),
        ),
{
    let t = widths.skip(k);
    assert(t[0] == widths[k]);
    assert(t.drop_first() =~= widths.skip(k + 1));
}

/// Truncates `s` to `max_width` columns given the display widths: strings
/// that fit are kept, others keep the longest prefix that fits in
/// `max_width - 3` columns and get `...`; a string that does not fit in
/// fewer than 3 columns gives the empty string.
pub fn truncate_with_widths(
    s: &str,
    max_width: usize,
    width: usize,
    widths: &Vec<Option<usize>>,
) -> (r: String)
    requires
        widths@.len() == s@.len(),
    ensures
        r@ == truncate_text(s@, max_width, width, widths@),
{
    if width <= max_width {
        return s.to_owned();
    }
    if max_width < 3 {
        return String::new();
    }
    let cs = chars_of(s);
    let target = max_width - 3;
    let mut current: usize = 0;
    let mut k: usize = 0;
    assert(widths@.skip(0) =~= widths@);
    while k < cs.len()
        invariant
            cs@ == s@,
            widths@.len() == s@.len(),
            0 <= k <= cs@.len(),
            current <= target,
            fit_len(widths@, target as int) == k + fit_len(
                widths@.skip(k as int),
                target - current,
            ),
        ensures
            0 <= k <= cs@.len(),
            fit_len(widths@, target as int) == k,
        decreases cs@.len() - k,
    {
        let cw: usize = match widths[k] {
            Some(v) => v,
            None => 1,
        };
        if cw > target - current {
            proof {
                let t = widths@.skip(k as int);
                assert(t[0] == widths@[k as int]);
                assert(fit_len(t, target - current) == 0);
            }
            break;
        }
        proof {
            lemma_fit_len_step(widths@, target as int, k as int, current as int);
        }
        current = current + cw;
        k = k + 1;
    }
    let prefix = crate::text::slice_vec(&cs, 0, k);
    let mut out = String::new();
    append_chars(&mut out, &prefix);
    push_char(&mut out, '.');
    push_char(&mut out, '.');
    push_char(&mut out, '.');
    assert(out@ =~= s@.take(k as int) + seq!['.', '.', '.']);
    out
}

/// Truncates a string to fit within `max_width` terminal columns, ending
/// it with `...` when it does not fit; a string that fits is returned as it
/// is.
pub fn truncate_to_width(s: &str, max_width: usize) -> (r: String)
    ensures
        r@ == truncate_text(
            s@,
            max_width,
            str_display_width(s@),
            s@.map_values(|c: char| char_display_width(c)),
        ),
{
    let width = str_width(s);
    let cs = chars_of(s);
    let mut widths: Vec<Option<usize>> = Vec::new();
    let mut i: usize = 0;
    while i < cs.len()
        invariant
            cs@ == s@,
            0 <= i <= cs@.len(),
            widths@ == cs@.take(i as int).map_values(|c: char| char_display_width(c)),
        decreases cs@.len() - i,
    {
        let w = char_width(cs[i]);
        widths.push(w);
        i = i + 1;
        assert(widths@ =~= cs@.take(i as int).map_values(|c: char| char_display_width(c)));
    }
    assert(cs@.take(cs@.len() as int) =~= cs@);
    truncate_with_widths(s, max_width, width, &widths)
}

/// The UTF-8 encoding of a concatenation is the concatenation of the
/// encodings.
proof fn lemma_encode_utf8_concat(a: Seq<char>, b: Seq<char>)
    ensures
        encode_utf8(a + b) == encode_utf8(a) + encode_utf8(b),
    decreases a.len(),
{
    if a.len() > 0 {
        assert((a + b).drop_first() =~= a.drop_first() + b);
        lemma_encode_utf8_concat(a.drop_first(), b);
    } else {
        assert(a + b =~= b);
    }
}

/// Whether the UTF-8 encoding of `s` is `lo` to `hi` bytes long.
pub fn utf8_len_within(s: &str, lo: usize, hi: usize) -> (r: bool)
    ensures
        r == (lo <= encode_utf8(s@).len() <= hi),
{
    let cs = chars_of(s);
    let mut n: usize = 0;
    let mut i: usize = 0;
    while i < cs.len()
        invariant
            0 <= i <= cs@.len(),
            cs@ == s@,
            n == encode_utf8(cs@.take(i as int)).len(),
            n <= hi,
        decreases cs@.len() - i,
    {
        let e = encode_char(cs[i]);
        proof {
            lemma_encode_utf8_append(cs@.take(i as int), cs@[i as int]);
            assert(cs@.take(i as int).push(cs@[i as int]) =~= cs@.take(i as int + 1));
        }
        if e.len() > hi - n {
            proof {
                lemma_encode_utf8_concat(cs@.take(i as int + 1), cs@.skip(i as int + 1));
                assert(cs@.take(i as int + 1) + cs@.skip(i as int + 1) =~= cs@);
            }
            return false;
        }
        n = n + e.len();
        i = i + 1;
    }
    proof {
        assert(cs@.take(cs@.len() as int) =~= cs@);
    }
    lo <= n
}

} // verus!
