//! Ethernet MAC addresses.
use vstd::prelude::*;

use crate::text::{
    all_digits, digit_value, digits_value, is_ws, lemma_ascii_lower_noop, lemma_split_char_cons,
    lemma_split_char_none, lemma_trim_noop, parse_unsigned, ascii_lower_exec, ascii_lower_seq, parse_u8_radix, parse_u8_radix_exec, push_char, split_char,
    split_char_exec, trim, trim_str, trim_start, trim_end, ascii_lower,
};

verus! {

/// A 48-bit MAC address.
#[derive(Clone, Copy, Debug, PartialEq, Eq, Hash, Structural)]
pub struct MacAddr {
    b0: u8,
    b1: u8,
    b2: u8,
    b3: u8,
    b4: u8,
    b5: u8,
}

impl View for MacAddr {
    type V = Seq<u8>;

    closed spec fn view(&self) -> Seq<u8> {
        seq![self.b0, self.b1, self.b2, self.b3, self.b4, self.b5]
    }
}

/// Lower-case hexadecimal digit for a value below 16.
pub open spec fn hex_digit(v: u8) -> char {
    if v < 10 {
        (('0' as u8) + v) as char
    } else {
        (('a' as u8) + (v - 10)) as char
    }
}

/// The two lower-case hexadecimal digits of a byte (`{:02x}`).
pub open spec fn hex2(b: u8) -> Seq<char> {
    seq![hex_digit(b / 16), hex_digit(b % 16)]
}

/// `aa:bb:cc:dd:ee:ff`, the text form of the six bytes.
pub open spec fn mac_text(b: Seq<u8>) -> Seq<char> {
    hex2(b[0]) + seq![':'] + hex2(b[1]) + seq![':'] + hex2(b[2]) + seq![':'] + hex2(b[3]) + seq![
        ':',
    ] + hex2(b[4]) + seq![':'] + hex2(b[5])
}

/// What `MacAddr::parse` accepts: after trimming and lower-casing, six
/// colon-separated fields, each a hexadecimal `u8`.
pub open spec fn mac_parse(s: Seq<char>) -> Option<Seq<u8>> {
    let parts = split_char(ascii_lower_seq(trim(s)), ':');
    if parts.len() == 6 && forall|i: int|
        0 <= i < 6 ==> parse_u8_radix(#[trigger] parts[i], 16) is Some {
        Some(Seq::new(6, |i: int| parse_u8_radix(parts[i], 16).unwrap()))
    } else {
        None
    }
}

/// Whitespace is unchanged by lower-casing.
proof fn lemma_lower_ws(c: char)
    ensures
        is_ws(ascii_lower(c)) == is_ws(c),
{
}

proof fn lemma_trim_start_lower(s: Seq<char>)
    ensures
        trim_start(ascii_lower_seq(s)) == ascii_lower_seq(trim_start(s)),
    decreases s.len(),
{
    if s.len() > 0 {
        lemma_lower_ws(s[0]);
        assert(ascii_lower_seq(s).drop_first() =~= ascii_lower_seq(s.drop_first()));
        lemma_trim_start_lower(s.drop_first());
    }
}

proof fn lemma_trim_end_lower(s: Seq<char>)
    ensures
        trim_end(ascii_lower_seq(s)) == ascii_lower_seq(trim_end(s)),
    decreases s.len(),
{
    if s.len() > 0 {
        lemma_lower_ws(s.last());
        assert(ascii_lower_seq(s).drop_last() =~= ascii_lower_seq(s.drop_last()));
        lemma_trim_end_lower(s.drop_last());
    }
}

proof fn lemma_lower_twice(s: Seq<char>)
    ensures
        ascii_lower_seq(ascii_lower_seq(s)) == ascii_lower_seq(s),
{
    assert(ascii_lower_seq(ascii_lower_seq(s)) =~= ascii_lower_seq(s));
}

/// With some text in front, trimming the start keeps what follows.
proof fn lemma_trim_start_append(s: Seq<char>, x: Seq<char>)
    requires
        trim_start(s).len() > 0,
    ensures
        trim_start(s + x) == trim_start(s) + x,
    decreases s.len(),
{
    if s.len() > 0 && is_ws(s[0]) {
        assert((s + x).drop_first() =~= s.drop_first() + x);
        lemma_trim_start_append(s.drop_first(), x);
    }
}

/// A text of whitespace only trims to nothing, whatever whitespace follows.
proof fn lemma_trim_start_blank(s: Seq<char>, x: Seq<char>)
    requires
        trim_start(s).len() == 0,
    ensures
        trim_start(s + x) == trim_start(x),
    decreases s.len(),
{
    if s.len() > 0 {
        assert((s + x).drop_first() =~= s.drop_first() + x);
        lemma_trim_start_blank(s.drop_first(), x);
    } else {
        assert(s + x =~= x);
    }
}

/// `MacAddr::parse` ignores the case of the letters and whitespace around
/// the text: texts equal after lower-casing parse alike, and so do `s` and
/// `s` with a space on each side.
pub proof fn lemma_parse_ignores_case_and_padding(s: Seq<char>, t: Seq<char>)
    ensures
        ascii_lower_seq(s) == ascii_lower_seq(t) ==> mac_parse(s) == mac_parse(t),
        mac_parse(seq![' '] + s + seq![' ']) == mac_parse(s),
{
    lemma_trim_start_lower(s);
    lemma_trim_end_lower(trim_start(s));
    lemma_trim_start_lower(t);
    lemma_trim_end_lower(trim_start(t));
    if ascii_lower_seq(s) == ascii_lower_seq(t) {
        lemma_trim_start_lower(ascii_lower_seq(s));
        assert(ascii_lower_seq(trim(s)) == trim(ascii_lower_seq(s)));
        assert(ascii_lower_seq(trim(t)) == trim(ascii_lower_seq(t)));
    }
    let p = seq![' '] + s + seq![' '];
    assert(p.drop_first() =~= s + seq![' ']);
    assert(trim_start(p) == trim_start(s + seq![' ']));
    if trim_start(s).len() > 0 {
        lemma_trim_start_append(s, seq![' ']);
        let u = trim_start(s);
        assert((u + seq![' ']).drop_last() =~= u);
        assert(trim_end(u + seq![' ']) == trim_end(u));
    } else {
        lemma_trim_start_blank(s, seq![' ']);
        assert(seq![' '].drop_first() =~= Seq::<char>::empty());
        assert(trim_start(seq![' ']) == trim_start(Seq::<char>::empty()));
    }
    assert(trim(p) == trim(s));
}

fn hex_digit_exec(v: u8) -> (r: char)
    requires
        v < 16,
    ensures
        r == hex_digit(v),
{
    if v < 10 {
        (('0' as u8) + v) as char
    } else {
        (('a' as u8) + (v - 10)) as char
    }
}

/// Lower-cases the ASCII letters of a buffer.
pub fn ascii_lower_vec(s: &Vec<char>) -> (r: Vec<char>)
    ensures
        r@ == ascii_lower_seq(s@),
{
    let mut out: Vec<char> = Vec::new();
    let mut i: usize = 0;
    while i < s.len()
        invariant
            0 <= i <= s@.len(),
            out@ == ascii_lower_seq(s@.take(i as int)),
        decreases s@.len() - i,
    {
        let c = ascii_lower_exec(s[i]);
        out.push(c);
        i = i + 1;
        assert(out@ =~= ascii_lower_seq(s@.take(i as int)));
    }
    assert(s@.take(s@.len() as int) =~= s@);
    out
}

impl MacAddr {
    /// The view has six bytes, and equal views mean equal addresses.
    pub proof fn lemma_view(self, other: MacAddr)
        ensures
            self@.len() == 6,
            self@ == other@ ==> self == other,
    {
        if self@ == other@ {
            assert(self@[0] == other@[0] && self@[1] == other@[1] && self@[2] == other@[2]);
            assert(self@[3] == other@[3] && self@[4] == other@[4] && self@[5] == other@[5]);
        }
    }

    /// The address with the given bytes.
    pub fn new(bytes: [u8; 6]) -> (r: MacAddr)
        ensures
            r@ == bytes@,
    {
        let r = MacAddr {
            b0: bytes[0],
            b1: bytes[1],
            b2: bytes[2],
            b3: bytes[3],
            b4: bytes[4],
            b5: bytes[5],
        };
        assert(r@ =~= bytes@);
        r
    }

    /// The six bytes of the address.
    pub fn as_bytes(&self) -> (r: [u8; 6])
        ensures
            r@ == self@,
    {
        let r = [self.b0, self.b1, self.b2, self.b3, self.b4, self.b5];
        assert(r@ =~= self@);
        r
    }

    /// Parses `aa:bb:cc:dd:ee:ff`, ignoring surrounding whitespace and the
    /// case of the hexadecimal digits.
    pub fn parse(s: &str) -> (r: Option<MacAddr>)
        ensures
            r matches Some(m) ==> mac_parse(s@) == Some(m@),
            r is None ==> mac_parse(s@) is None,
    {
        let t = trim_str(s);
        let low = ascii_lower_vec(&t);
        let ranges = split_char_exec(&low, ':');
        let ghost parts = split_char(low@, ':');
        if ranges.len() != 6 {
            return None;
        }
        let mut arr: [u8; 6] = [0u8; 6];
        let mut i: usize = 0;

        while i < 6
            invariant
                0 <= i <= 6,
                ranges@.len() == 6,
                parts == split_char(low@, ':'),
                low@ == ascii_lower_seq(trim(s@)),
                parts.len() == 6,
                forall|k: int|
                    0 <= k < ranges@.len() ==> (#[trigger] ranges@[k]).0 <= ranges@[k].1
                        && ranges@[k].1 <= low@.len(),
                forall|k: int|
                    0 <= k < ranges@.len() ==> #[trigger] split_char(low@, ':')[k]
                        == low@.subrange(ranges@[k].0 as int, ranges@[k].1 as int),
                forall|k: int|
                    0 <= k < i ==> parse_u8_radix(#[trigger] parts[k], 16) == Some(arr@[k]),
            decreases 6 - i,
        {
            let (a, b) = ranges[i];
            assert(split_char(low@, ':')[i as int] == low@.subrange(a as int, b as int));
            match parse_u8_radix_exec(&low, a, b, 16) {
                None => {
                    assert(parse_u8_radix(split_char(low@, ':')[i as int], 16) is None);
                    return None;
                },
                Some(v) => {
                    arr[i] = v;
                },
            }
            i = i + 1;
        }
        let m = MacAddr::new(arr);
        assert(m@ =~= Seq::new(6, |k: int| parse_u8_radix(parts[k], 16).unwrap()));
        Some(m)
    }

    /// `aa:bb:cc:dd:ee:ff` with lower-case digits.
    pub fn to_string(&self) -> (r: String)
        ensures
            r@ == mac_text(self@),
    {
        let mut out = String::new();
        let mut i: usize = 0;
        while i < 6
            invariant
                0 <= i <= 6,
                self@.len() == 6,
                i == 0 ==> out@ == Seq::<char>::empty(),
                i > 0 ==> out@ == mac_prefix(self@, i as int),
            decreases 6 - i,
        {
            if i > 0 {
                push_char(&mut out, ':');
            }
            let bytes = self.as_bytes();
            let b = bytes[i];
            push_char(&mut out, hex_digit_exec(b / 16));
            push_char(&mut out, hex_digit_exec(b % 16));
            proof {
                if i == 0 {
                    assert(out@ =~= mac_prefix(self@, 1));
                } else {
                    assert(out@ =~= mac_prefix(self@, i + 1));
                }
            }
            i = i + 1;
        }
        assert(mac_prefix(self@, 6) =~= mac_text(self@)) by {
            reveal_with_fuel(mac_prefix, 6);
        }
        out
    }
}

/// The text of the first `n` bytes, colon separated.
pub open spec fn mac_prefix(b: Seq<u8>, n: int) -> Seq<char>
    decreases n,
{
    if n <= 1 {
        hex2(b[0])
    } else {
        mac_prefix(b, n - 1) + seq![':'] + hex2(b[n - 1])
    }
}

proof fn lemma_hex_digit(v: u8)
    requires
        v < 16,
    ensures
        digit_value(hex_digit(v), 16) == Some(v as nat),
        !is_ws(hex_digit(v)),
        hex_digit(v) != ':',
        hex_digit(v) != '+',
        !('A' <= hex_digit(v) && hex_digit(v) <= 'Z'),
{
}

pub proof fn lemma_hex2_parse(b: u8)
    ensures
        parse_u8_radix(hex2(b), 16) == Some(b),
        forall|j: int| 0 <= j < 2 ==> #[trigger] hex2(b)[j] != ':',
        forall|j: int| 0 <= j < 2 ==> !('A' <= #[trigger] hex2(b)[j] && hex2(b)[j] <= 'Z'),
        !is_ws(hex2(b)[0]),
        !is_ws(hex2(b)[1]),
{
    lemma_hex_digit(b / 16);
    lemma_hex_digit(b % 16);
    let h = hex2(b);
    assert(h.drop_last() =~= seq![hex_digit(b / 16)]);
    assert(seq![hex_digit(b / 16)].drop_last() =~= Seq::<char>::empty());
    let h1 = seq![hex_digit(b / 16)];
    assert(h1.last() == hex_digit(b / 16));
    assert(digits_value(Seq::<char>::empty(), 16) == 0);
    assert(digits_value(h1, 16) == (b / 16) as nat);
    assert(h.last() == hex_digit(b % 16));
    assert(digits_value(h, 16) == digits_value(h1, 16) * 16 + (b % 16) as nat);
    assert(digits_value(h, 16) == (b / 16) as nat * 16 + (b % 16) as nat);
    assert(all_digits(h, 16));
    assert(parse_unsigned(h, 16) == Some(b as nat));
}

impl MacAddr {
    /// Reading back the text form of an address gives the same address.
    pub proof fn lemma_text_round_trip(self)
        ensures
            mac_parse(mac_text(self@)) == Some(self@),
    {
        self.lemma_view(self);
        lemma_mac_text_reads(self@);
    }
}

/// Distinct six-byte addresses have distinct text forms.
pub proof fn lemma_mac_text_injective(a: Seq<u8>, b: Seq<u8>)
    requires
        a.len() == 6,
        b.len() == 6,
        mac_text(a) == mac_text(b),
    ensures
        a == b,
{
    lemma_mac_text_reads(a);
    lemma_mac_text_reads(b);
}

/// Reading back the text form of six bytes gives the bytes.
#[verifier::rlimit(40)]
pub proof fn lemma_mac_text_reads(b: Seq<u8>)
    requires
        b.len() == 6,
    ensures
        mac_parse(mac_text(b)) == Some(b),
{
    lemma_hex2_parse(b[0]);
    lemma_hex2_parse(b[1]);
    lemma_hex2_parse(b[2]);
    lemma_hex2_parse(b[3]);
    lemma_hex2_parse(b[4]);
    lemma_hex2_parse(b[5]);
    let t = mac_text(b);
    assert(t.len() == 17);
    assert forall|j: int| 0 <= j < t.len() implies !('A' <= #[trigger] t[j] && t[j] <= 'Z') by {
        if j % 3 == 2 {
        } else {
            assert(t[j] == hex2(b[j / 3])[j % 3]);
        }
    }
    lemma_ascii_lower_noop(t);
    assert(t[0] == hex2(b[0])[0]);
    assert(t.last() == hex2(b[5])[1]);
    lemma_trim_noop(t);
    let s5 = hex2(b[5]);
    let s4 = hex2(b[4]) + seq![':'] + s5;
    let s3 = hex2(b[3]) + seq![':'] + s4;
    let s2 = hex2(b[2]) + seq![':'] + s3;
    let s1 = hex2(b[1]) + seq![':'] + s2;
    let s0 = hex2(b[0]) + seq![':'] + s1;
    assert(t =~= s0);
    lemma_split_char_none(s5, ':');
    lemma_split_char_cons(hex2(b[4]), s5, ':');
    lemma_split_char_cons(hex2(b[3]), s4, ':');
    lemma_split_char_cons(hex2(b[2]), s3, ':');
    lemma_split_char_cons(hex2(b[1]), s2, ':');
    lemma_split_char_cons(hex2(b[0]), s1, ':');
    let parts = split_char(t, ':');
    assert(parts =~= seq![hex2(b[0]), hex2(b[1]), hex2(b[2]), hex2(b[3]), hex2(b[4]), hex2(b[5])]);
    assert(Seq::new(6, |i: int| parse_u8_radix(parts[i], 16).unwrap()) =~= b);
}

} // verus!
