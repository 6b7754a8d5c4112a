//! The text forms of IP addresses: dotted-decimal IPv4, colon-separated
//! IPv6, and the `address/prefix` form the daemon exchanges.
use vstd::prelude::*;

use crate::ip::{
    Ipv4Addr, Ipv6Addr, PrefixedIpv4Addr, PrefixedIpv6Addr, push_v4, v4_addr_text, v6_bits,
};
use crate::text::{
    all_digits, chars_of, digits_value, digits_value_exec, find, find_exec, lemma_find,
    lemma_nat_text_decimal, lemma_split_char_cons, lemma_split_char_none, nat_text,
    parse_u8_radix, parse_u8_radix_exec, push_char, push_decimal, slice_vec, split_char,
    split_char_exec,
};

verus! {

/// A decimal octet of dotted-decimal notation: one to three digits, no
/// leading zero unless the octet is `0`, at most 255.
pub open spec fn octet_of(t: Seq<char>) -> Option<u8> {
    if 1 <= t.len() <= 3 && all_digits(t, 10) && !(t.len() > 1 && t[0] == '0') && digits_value(
        t,
        10,
    ) <= 255 {
        Some(digits_value(t, 10) as u8)
    } else {
        None
    }
}

/// The 32 bits of four octets, the first one most significant.
pub open spec fn octets_value(a: u8, b: u8, c: u8, d: u8) -> u32 {
    (a * 0x100_0000 + b * 0x1_0000 + c * 0x100 + d) as u32
}

/// Dotted-decimal notation: exactly four octets separated by `.`.
pub open spec fn ipv4_of(s: Seq<char>) -> Option<u32> {
    let p = split_char(s, '.');
    if p.len() == 4 && octet_of(p[0]) is Some && octet_of(p[1]) is Some && octet_of(p[2]) is Some
        && octet_of(p[3]) is Some {
        Some(
            octets_value(
                octet_of(p[0]).unwrap(),
                octet_of(p[1]).unwrap(),
                octet_of(p[2]).unwrap(),
                octet_of(p[3]).unwrap(),
            ),
        )
    } else {
        None
    }
}

/// The octet written in `s[lo..hi]`.
fn octet_exec(s: &Vec<char>, lo: usize, hi: usize) -> (r: Option<u8>)
    requires
        lo <= hi <= s@.len(),
    ensures
        r == octet_of(s@.subrange(lo as int, hi as int)),
{
    let ghost t = s@.subrange(lo as int, hi as int);
    if hi == lo || hi - lo > 3 {
        return None;
    }
    if hi - lo > 1 && s[lo] == '0' {
        assert(t[0] == s@[lo as int]);
        return None;
    }
    assert(hi - lo > 1 ==> t[0] == s@[lo as int]);
    match digits_value_exec(s, lo, hi, 10, 255) {
        Some(v) => Some(v as u8),
        None => None,
    }
}

/// Reads dotted-decimal notation.
pub fn ipv4_exec(s: &Vec<char>) -> (r: Option<u32>)
    ensures
        r == ipv4_of(s@),
{
    let parts = split_char_exec(s, '.');
    if parts.len() != 4 {
        return None;
    }
    let ghost p = split_char(s@, '.');
    let (a0, b0) = parts[0];
    let (a1, b1) = parts[1];
    let (a2, b2) = parts[2];
    let (a3, b3) = parts[3];
    assert(p[0] == s@.subrange(a0 as int, b0 as int));
    assert(p[1] == s@.subrange(a1 as int, b1 as int));
    assert(p[2] == s@.subrange(a2 as int, b2 as int));
    assert(p[3] == s@.subrange(a3 as int, b3 as int));
    let o0 = octet_exec(s, a0, b0);
    let o1 = octet_exec(s, a1, b1);
    let o2 = octet_exec(s, a2, b2);
    let o3 = octet_exec(s, a3, b3);
    match (o0, o1, o2, o3) {
        (Some(x0), Some(x1), Some(x2), Some(x3)) => {
            let v: u32 = (x0 as u32) * 0x100_0000 + (x1 as u32) * 0x1_0000 + (x2 as u32) * 0x100
                + (x3 as u32);
            Some(v)
        },
        _ => None,
    }
}

/// The decimal text of an octet reads back as that octet, and holds
/// neither `.` nor `/`.
pub proof fn lemma_octet_text(n: u8)
    ensures
        octet_of(nat_text(n as nat)) == Some(n),
        parse_u8_radix(nat_text(n as nat), 10) == Some(n),
        forall|j: int|
            0 <= j < nat_text(n as nat).len() ==> #[trigger] nat_text(n as nat)[j] != '.'
                && nat_text(n as nat)[j] != '/' && nat_text(n as nat)[j] != ':',
{
    lemma_nat_text_decimal(n as nat);
    let t = nat_text(n as nat);
    assert forall|j: int| 0 <= j < t.len() implies #[trigger] t[j] != '.' && t[j] != '/' && t[j]
        != ':' by {
        assert(crate::text::digit_value(t[j], 10) is Some);
    }
    assert(crate::text::digit_value(t[0], 10) is Some);
    assert(t[0] != '+');
}

/// The four octets of an address make it up again.
proof fn lemma_octets_recompose(bits: u32)
    ensures
        octets_value(
            (bits / 0x100_0000) as u8,
            ((bits / 0x1_0000) % 0x100) as u8,
            ((bits / 0x100) % 0x100) as u8,
            (bits % 0x100) as u8,
        ) == bits,
{
    let b = bits as int;
    assert(b == (b / 0x100_0000) * 0x100_0000 + ((b / 0x1_0000) % 0x100) * 0x1_0000 + ((b / 0x100)
        % 0x100) * 0x100 + b % 0x100) by (nonlinear_arith)
        requires
            0 <= b,
    ;
}

/// A concatenation holds a character only where a part does.
pub proof fn lemma_concat_lacks(a: Seq<char>, b: Seq<char>, c: char)
    requires
        forall|j: int| 0 <= j < a.len() ==> a[j] != c,
        forall|j: int| 0 <= j < b.len() ==> b[j] != c,
    ensures
        forall|j: int| 0 <= j < (a + b).len() ==> #[trigger] (a + b)[j] != c,
{
    assert forall|j: int| 0 <= j < (a + b).len() implies #[trigger] (a + b)[j] != c by {
        if j < a.len() {
            assert((a + b)[j] == a[j]);
        } else {
            assert((a + b)[j] == b[j - a.len()]);
        }
    }
}

/// The dotted-decimal text of an address holds neither `/` nor `:`, and
/// is longer than a group.
pub proof fn lemma_v4_addr_text_lacks(bits: u32, c: char)
    requires
        c == '/' || c == ':',
    ensures
        forall|j: int| 0 <= j < v4_addr_text(bits).len() ==> #[trigger] v4_addr_text(bits)[j] != c,
        v4_addr_text(bits).len() >= 7,
{
    let t0 = nat_text(((bits / 0x100_0000) as u8) as nat);
    let t1 = nat_text((((bits / 0x1_0000) % 0x100) as u8) as nat);
    let t2 = nat_text((((bits / 0x100) % 0x100) as u8) as nat);
    let t3 = nat_text(((bits % 0x100) as u8) as nat);
    lemma_octet_text((bits / 0x100_0000) as u8);
    lemma_octet_text(((bits / 0x1_0000) % 0x100) as u8);
    lemma_octet_text(((bits / 0x100) % 0x100) as u8);
    lemma_octet_text((bits % 0x100) as u8);
    lemma_nat_text_decimal(((bits / 0x100_0000) as u8) as nat);
    lemma_nat_text_decimal((((bits / 0x1_0000) % 0x100) as u8) as nat);
    lemma_nat_text_decimal((((bits / 0x100) % 0x100) as u8) as nat);
    lemma_nat_text_decimal(((bits % 0x100) as u8) as nat);
    let d = seq!['.'];
    lemma_concat_lacks(t0, d, c);
    lemma_concat_lacks(t0 + d, t1, c);
    lemma_concat_lacks(t0 + d + t1, d, c);
    lemma_concat_lacks(t0 + d + t1 + d, t2, c);
    lemma_concat_lacks(t0 + d + t1 + d + t2, d, c);
    lemma_concat_lacks(t0 + d + t1 + d + t2 + d, t3, c);
    assert(v4_addr_text(bits) =~= t0 + d + t1 + d + t2 + d + t3);
}

/// Four texts without `c`, joined by `c`, split on `c` into themselves.
proof fn lemma_split_four(t0: Seq<char>, t1: Seq<char>, t2: Seq<char>, t3: Seq<char>, c: char)
    requires
        forall|j: int| 0 <= j < t0.len() ==> t0[j] != c,
        forall|j: int| 0 <= j < t1.len() ==> t1[j] != c,
        forall|j: int| 0 <= j < t2.len() ==> t2[j] != c,
        forall|j: int| 0 <= j < t3.len() ==> t3[j] != c,
    ensures
        split_char(t0 + seq![c] + t1 + seq![c] + t2 + seq![c] + t3, c) == seq![t0, t1, t2, t3],
{
    let d = seq![c];
    lemma_split_char_none(t3, c);
    lemma_split_char_cons(t2, t3, c);
    lemma_split_char_cons(t1, t2 + d + t3, c);
    lemma_split_char_cons(t0, t1 + d + (t2 + d + t3), c);
    assert(t0 + d + t1 + d + t2 + d + t3 =~= t0 + d + (t1 + d + (t2 + d + t3)));
    assert(seq![t0] + (seq![t1] + (seq![t2] + seq![t3])) =~= seq![t0, t1, t2, t3]);
}

/// The dotted-decimal text of an address reads back as the address.
pub proof fn lemma_v4_addr_text_reads(bits: u32)
    ensures
        ipv4_of(v4_addr_text(bits)) == Some(bits),
{
    let o0 = (bits / 0x100_0000) as u8;
    let o1 = ((bits / 0x1_0000) % 0x100) as u8;
    let o2 = ((bits / 0x100) % 0x100) as u8;
    let o3 = (bits % 0x100) as u8;
    lemma_octet_text(o0);
    lemma_octet_text(o1);
    lemma_octet_text(o2);
    lemma_octet_text(o3);
    lemma_split_four(
        nat_text(o0 as nat),
        nat_text(o1 as nat),
        nat_text(o2 as nat),
        nat_text(o3 as nat),
        '.',
    );
    lemma_octets_recompose(bits);
}

/// Reading the text of a prefixed IPv4 address gives the address back.
pub proof fn lemma_v4_text_round_trip(a: PrefixedIpv4Addr)
    ensures
        prefixed_v4_of(crate::ip::v4_text(a.addr.bits, a.prefix_len)) == Ok::<
            (u32, u8),
            PrefixedAddrError,
        >((a.addr.bits, a.prefix_len)),
{
    let head = v4_addr_text(a.addr.bits);
    let tail = nat_text(a.prefix_len as nat);
    lemma_v4_addr_text_reads(a.addr.bits);
    lemma_v4_addr_text_lacks(a.addr.bits, '/');
    lemma_octet_text(a.prefix_len);
    lemma_split_char_none(tail, '/');
    lemma_split_char_cons(head, tail, '/');
    assert(crate::ip::v4_text(a.addr.bits, a.prefix_len) =~= head + seq!['/'] + tail);
    assert(split_char(crate::ip::v4_text(a.addr.bits, a.prefix_len), '/') =~= seq![head, tail]);
}

/// A group of IPv6 notation: one to four hexadecimal digits.
pub open spec fn group_of(t: Seq<char>) -> Option<u16> {
    if 1 <= t.len() <= 4 && all_digits(t, 16) {
        Some(digits_value(t, 16) as u16)
    } else {
        None
    }
}

/// The value of a piece known to be a group.
pub open spec fn group_value(t: Seq<char>) -> u16 {
    group_of(t).unwrap()
}

/// The groups written by `:`-separated pieces: all of them groups, or, where
/// `allow_v4` holds, all but the last groups and the last one dotted-decimal
/// notation, which stands for two groups.
pub open spec fn pieces_groups(p: Seq<Seq<char>>, allow_v4: bool) -> Option<Seq<u16>> {
    let n = p.len();
    if n >= 1 && forall|k: int| 0 <= k < n - 1 ==> (#[trigger] group_of(p[k])) is Some {
        if group_of(p[n - 1]) is Some {
            Some(p.map_values(|t: Seq<char>| group_value(t)))
        } else if allow_v4 && ipv4_of(p[n - 1]) is Some {
            let v = ipv4_of(p[n - 1]).unwrap();
            Some(
                p.take(n - 1).map_values(|t: Seq<char>| group_value(t)) + seq![
                    (v / 0x1_0000) as u16,
                    (v % 0x1_0000) as u16,
                ],
            )
        } else {
            None
        }
    } else {
        None
    }
}

/// The groups of one side of `::`: none for an empty side.
pub open spec fn part_groups(s: Seq<char>, allow_v4: bool) -> Option<Seq<u16>> {
    if s.len() == 0 {
        Some(Seq::empty())
    } else {
        pieces_groups(split_char(s, ':'), allow_v4)
    }
}

/// IPv6 notation: eight groups, or the groups before and after the first
/// `::` with the zero groups it stands for (at least one) between them;
/// dotted-decimal notation may stand for the last two groups, but not
/// before `::`.
pub open spec fn ipv6_of(s: Seq<char>) -> Option<Seq<u16>> {
    match find(s, seq![':', ':']) {
        None => match part_groups(s, true) {
            Some(g) => if g.len() == 8 {
                Some(g)
            } else {
                None
            },
            None => None,
        },
        Some(i) => match (part_groups(s.take(i), false), part_groups(s.skip(i + 2), true)) {
            (Some(h), Some(t)) => if h.len() + t.len() <= 7 {
                Some(h + Seq::new((8 - h.len() - t.len()) as nat, |k: int| 0u16) + t)
            } else {
                None
            },
            _ => None,
        },
    }
}

/// The 128 bits of eight groups.
pub open spec fn groups_bits(g: Seq<u16>) -> int {
    v6_bits(g[0], g[1], g[2], g[3], g[4], g[5], g[6], g[7])
}

/// The group written in `s[lo..hi]`.
fn group_exec(s: &Vec<char>, lo: usize, hi: usize) -> (r: Option<u16>)
    requires
        lo <= hi <= s@.len(),
    ensures
        r == group_of(s@.subrange(lo as int, hi as int)),
{
    if hi == lo || hi - lo > 4 {
        return None;
    }
    match digits_value_exec(s, lo, hi, 16, 0xffff) {
        Some(v) => Some(v as u16),
        None => {
            proof {
                let t = s@.subrange(lo as int, hi as int);
                if all_digits(t, 16) {
                    lemma_four_hex_digits(t);
                }
            }
            None
        },
    }
}

/// The largest value of `n` hexadecimal digits.
spec fn hex_max(n: nat) -> nat
    decreases n,
{
    if n == 0 {
        0
    } else {
        hex_max((n - 1) as nat) * 16 + 15
    }
}

/// Four hexadecimal digits are at most `0xffff`.
proof fn lemma_four_hex_digits(t: Seq<char>)
    requires
        t.len() <= 4,
        all_digits(t, 16),
    ensures
        digits_value(t, 16) <= hex_max(t.len()),
        hex_max(t.len()) <= 0xffff,
    decreases t.len(),
{
    reveal_with_fuel(hex_max, 5);
    assert(hex_max(1) == 15);
    assert(hex_max(2) == 255);
    assert(hex_max(3) == 4095);
    assert(hex_max(4) == 0xffff);
    if t.len() > 0 {
        let u = t.drop_last();
        assert forall|i: int| 0 <= i < u.len() implies crate::text::digit_value(#[trigger] u[i], 16)
            is Some by {
            assert(u[i] == t[i]);
        }
        lemma_four_hex_digits(u);
        assert(crate::text::digit_value(t[t.len() - 1], 16) is Some);
        let d = crate::text::digit_value(t.last(), 16).unwrap();
        assert(d < 16);
        assert(digits_value(t, 16) == digits_value(u, 16) * 16 + d);
    }
}

/// The groups written in the first `count` ranges of `s`, when all of them
/// are groups.
fn leading_groups(s: &Vec<char>, parts: &Vec<(usize, usize)>, count: usize) -> (r: Option<Vec<u16>>)
    requires
        count <= parts@.len(),
        forall|j: int|
            0 <= j < parts@.len() ==> (#[trigger] parts@[j]).0 <= parts@[j].1 && parts@[j].1 <= s@.len(),
    ensures
        match r {
            Some(g) => g@.len() == count && forall|j: int|
                0 <= j < count ==> (#[trigger] group_of(
                    s@.subrange(parts@[j].0 as int, parts@[j].1 as int),
                )) is Some && g@[j] == group_value(
                    s@.subrange(parts@[j].0 as int, parts@[j].1 as int),
                ),
            None => exists|j: int|
                0 <= j < count && (#[trigger] group_of(
                    s@.subrange(parts@[j].0 as int, parts@[j].1 as int),
                )) is None,
        },
{
    let mut out: Vec<u16> = Vec::new();
    let mut k: usize = 0;
    while k < count
        invariant
            count <= parts@.len(),
            forall|j: int|
                0 <= j < parts@.len() ==> (#[trigger] parts@[j]).0 <= parts@[j].1 && parts@[j].1
                    <= s@.len(),
            0 <= k <= count,
            out@.len() == k,
            forall|j: int|
                0 <= j < k ==> (#[trigger] group_of(
                    s@.subrange(parts@[j].0 as int, parts@[j].1 as int),
                )) is Some && out@[j] == group_value(
                    s@.subrange(parts@[j].0 as int, parts@[j].1 as int),
                ),
        decreases count - k,
    {
        let (a, b) = parts[k];
        match group_exec(s, a, b) {
            Some(g) => {
                out.push(g);
            },
            None => {
                return None;
            },
        }
        k = k + 1;
    }
    Some(out)
}

/// The groups of `:`-separated pieces of `s`.
fn pieces_exec(s: &Vec<char>, allow_v4: bool) -> (r: Option<Vec<u16>>)
    ensures
        match r {
            Some(g) => pieces_groups(split_char(s@, ':'), allow_v4) == Some(g@),
            None => pieces_groups(split_char(s@, ':'), allow_v4) is None,
        },
{
    let parts = split_char_exec(s, ':');
    let ghost p = split_char(s@, ':');
    let n = parts.len();
    if n == 0 {
        return None;
    }
    let front = match leading_groups(s, &parts, n - 1) {
        Some(f) => f,
        None => {
            proof {
                let j = choose|j: int|
                    0 <= j < n - 1 && (#[trigger] group_of(
                        s@.subrange(parts@[j].0 as int, parts@[j].1 as int),
                    )) is None;
                assert(p[j] == s@.subrange(parts@[j].0 as int, parts@[j].1 as int));
            }
            return None;
        },
    };
    proof {
        assert forall|j: int| 0 <= j < n - 1 implies (#[trigger] group_of(p[j])) is Some by {
            assert(p[j] == s@.subrange(parts@[j].0 as int, parts@[j].1 as int));
        }
    }
    let (a, b) = parts[n - 1];
    assert(p[n - 1] == s@.subrange(a as int, b as int));
    match group_exec(s, a, b) {
        Some(g) => {
            let mut out = front;
            let ghost f = out@;
            out.push(g);
            proof {
                assert forall|j: int| 0 <= j < n implies #[trigger] out@[j] == group_value(p[j]) by {
                    assert(p[j] == s@.subrange(parts@[j].0 as int, parts@[j].1 as int));
                }
                assert(out@ =~= p.map_values(|t: Seq<char>| group_value(t)));
            }
            Some(out)
        },
        None => {
            if !allow_v4 {
                return None;
            }
            let t = slice_vec(s, a, b);
            match ipv4_exec(&t) {
                Some(v) => {
                    let mut out = front;
                    proof {
                        assert forall|j: int| 0 <= j < n - 1 implies #[trigger] out@[j]
                            == group_value(p[j]) by {
                            assert(p[j] == s@.subrange(parts@[j].0 as int, parts@[j].1 as int));
                        }
                        assert(out@ =~= p.take(n - 1).map_values(|t: Seq<char>| group_value(t)));
                    }
                    let ghost f = out@;
                    out.push((v / 0x1_0000) as u16);
                    out.push((v % 0x1_0000) as u16);
                    proof {
                        assert(out@ =~= f + seq![(v / 0x1_0000) as u16, (v % 0x1_0000) as u16]);
                    }
                    Some(out)
                },
                None => None,
            }
        },
    }
}

/// The groups of one side of `::`.
fn part_exec(s: &Vec<char>, allow_v4: bool) -> (r: Option<Vec<u16>>)
    ensures
        match r {
            Some(g) => part_groups(s@, allow_v4) == Some(g@),
            None => part_groups(s@, allow_v4) is None,
        },
{
    if s.len() == 0 {
        let e: Vec<u16> = Vec::new();
        assert(e@ =~= Seq::<u16>::empty());
        return Some(e);
    }
    pieces_exec(s, allow_v4)
}

/// Reads IPv6 notation.
pub fn ipv6_exec(s: &Vec<char>) -> (r: Option<Ipv6Addr>)
    ensures
        match r {
            Some(a) => ipv6_of(s@) is Some && a.bits == groups_bits(ipv6_of(s@).unwrap()),
            None => ipv6_of(s@) is None,
        },
{
    let pat: Vec<char> = vec![':', ':'];
    assert(pat@ =~= seq![':', ':']);
    let groups: Vec<u16> = match find_exec(s, &pat) {
        None => match part_exec(s, true) {
            Some(g) => {
                if g.len() != 8 {
                    return None;
                }
                g
            },
            None => {
                return None;
            },
        },
        Some(i) => {
            let len = s.len();
            proof {
                lemma_find(s@, pat@);
                assert(pat@.len() == 2);
                assert(crate::text::occurs_at(s@, pat@, i as int));
                assert(i + 2 <= s@.len());
            }
            let head = slice_vec(s, 0, i);
            let tail = slice_vec(s, i + 2, len);
            assert(head@ =~= s@.take(i as int));
            assert(tail@ =~= s@.skip(i + 2));
            let h = match part_exec(&head, false) {
                Some(h) => h,
                None => {
                    return None;
                },
            };
            let t = match part_exec(&tail, true) {
                Some(t) => t,
                None => {
                    return None;
                },
            };
            if h.len() > 7 || t.len() > 7 - h.len() {
                return None;
            }
            let mut g: Vec<u16> = Vec::new();
            let mut k: usize = 0;
            while k < h.len()
                invariant
                    k <= h@.len(),
                    g@ == h@.take(k as int),
                decreases h@.len() - k,
            {
                g.push(h[k]);
                k = k + 1;
                assert(g@ =~= h@.take(k as int));
            }
            let zeros: usize = 8 - h.len() - t.len();
            let mut z: usize = 0;
            while z < zeros
                invariant
                    z <= zeros,
                    g@ == h@ + Seq::new(z as nat, |j: int| 0u16),
                decreases zeros - z,
            {
                g.push(0);
                z = z + 1;
                assert(g@ =~= h@ + Seq::new(z as nat, |j: int| 0u16));
            }
            let ghost mid = g@;
            let mut k: usize = 0;
            while k < t.len()
                invariant
                    k <= t@.len(),
                    g@ == mid + t@.take(k as int),
                decreases t@.len() - k,
            {
                g.push(t[k]);
                k = k + 1;
                assert(g@ =~= mid + t@.take(k as int));
            }
            assert(t@.take(t@.len() as int) =~= t@);
            g
        },
    };
    Some(Ipv6Addr::new(groups[0], groups[1], groups[2], groups[3], groups[4], groups[5], groups[6], groups[7]))
}

/// `address/prefix` for IPv6.
pub open spec fn prefixed_v6_of(s: Seq<char>) -> Result<(int, u8), PrefixedAddrError> {
    let p = split_char(s, '/');
    if p.len() != 2 {
        Err(PrefixedAddrError::Format)
    } else {
        match ipv6_of(p[0]) {
            None => Err(PrefixedAddrError::Address),
            Some(g) => match parse_u8_radix(p[1], 10) {
                None => Err(PrefixedAddrError::PrefixLength),
                Some(l) => Ok((groups_bits(g), l)),
            },
        }
    }
}

/// Why a prefixed address did not read.
#[derive(Debug, Clone, Copy, PartialEq, Eq, Structural)]
pub enum PrefixedAddrError {
    /// The text is not one address and one prefix length separated by `/`.
    Format,
    /// The address part is not an address.
    Address,
    /// The prefix part is not a number from 0 to 255.
    PrefixLength,
}

/// `address/prefix`: exactly one `/`, an address before it, and the prefix
/// length after it as `u8::from_str` reads it.
pub open spec fn prefixed_v4_of(s: Seq<char>) -> Result<(u32, u8), PrefixedAddrError> {
    let p = split_char(s, '/');
    if p.len() != 2 {
        Err(PrefixedAddrError::Format)
    } else {
        match ipv4_of(p[0]) {
            None => Err(PrefixedAddrError::Address),
            Some(a) => match parse_u8_radix(p[1], 10) {
                None => Err(PrefixedAddrError::PrefixLength),
                Some(l) => Ok((a, l)),
            },
        }
    }
}

impl PrefixedAddrError {
    /// The message the daemon gives for an IPv4 text.
    pub fn v4_message(&self) -> (r: &'static str)
        ensures
            r@ == (match *self {
                PrefixedAddrError::Format => "Invalid IPv4 address format"@,
                PrefixedAddrError::Address => "Invalid IPv4 address"@,
                PrefixedAddrError::PrefixLength => "Invalid prefix length"@,
            }),
    {
        match self {
            PrefixedAddrError::Format => "Invalid IPv4 address format",
            PrefixedAddrError::Address => "Invalid IPv4 address",
            PrefixedAddrError::PrefixLength => "Invalid prefix length",
        }
    }

    /// The message the daemon gives for an IPv6 text.
    pub fn v6_message(&self) -> (r: &'static str)
        ensures
            r@ == (match *self {
                PrefixedAddrError::Format => "Invalid IPv6 address format"@,
                PrefixedAddrError::Address => "Invalid IPv6 address"@,
                PrefixedAddrError::PrefixLength => "Invalid prefix length"@,
            }),
    {
        match self {
            PrefixedAddrError::Format => "Invalid IPv6 address format",
            PrefixedAddrError::Address => "Invalid IPv6 address",
            PrefixedAddrError::PrefixLength => "Invalid prefix length",
        }
    }
}

impl PrefixedIpv4Addr {
    /// Reads `a.b.c.d/p`. The prefix length is not checked against 32.
    pub fn parse(text: &str) -> (r: Result<PrefixedIpv4Addr, PrefixedAddrError>)
        ensures
            match r {
                Ok(p) => prefixed_v4_of(text@) == Ok::<(u32, u8), PrefixedAddrError>(
                    (p.addr.bits, p.prefix_len),
                ),
                Err(e) => prefixed_v4_of(text@) == Err::<(u32, u8), PrefixedAddrError>(e),
            },
    {
        let s = chars_of(text);
        Self::parse_chars(&s)
    }

    /// Reads the characters of `s`, as `parse` reads a text.
    pub fn parse_chars(s: &Vec<char>) -> (r: Result<PrefixedIpv4Addr, PrefixedAddrError>)
        ensures
            match r {
                Ok(p) => prefixed_v4_of(s@) == Ok::<(u32, u8), PrefixedAddrError>(
                    (p.addr.bits, p.prefix_len),
                ),
                Err(e) => prefixed_v4_of(s@) == Err::<(u32, u8), PrefixedAddrError>(e),
            },
    {
        let parts = split_char_exec(s, '/');
        if parts.len() != 2 {
            return Err(PrefixedAddrError::Format);
        }
        let ghost p = split_char(s@, '/');
        let (a0, b0) = parts[0];
        let (a1, b1) = parts[1];
        assert(p[0] == s@.subrange(a0 as int, b0 as int));
        assert(p[1] == s@.subrange(a1 as int, b1 as int));
        let addr_text = slice_vec(s, a0, b0);
        match ipv4_exec(&addr_text) {
            None => Err(PrefixedAddrError::Address),
            Some(bits) => match parse_u8_radix_exec(s, a1, b1, 10) {
                None => Err(PrefixedAddrError::PrefixLength),
                Some(l) => Ok(PrefixedIpv4Addr { addr: Ipv4Addr { bits }, prefix_len: l }),
            },
        }
    }
}

/// The 16-bit segments of the low `n` segments of `b`, most significant
/// first.
pub open spec fn seg_list(b: int, n: nat) -> Seq<u16>
    decreases n,
{
    if n == 0 {
        Seq::empty()
    } else {
        seg_list(b / 0x1_0000, (n - 1) as nat).push((b % 0x1_0000) as u16)
    }
}

pub proof fn lemma_seg_list_len(b: int, n: nat)
    ensures
        seg_list(b, n).len() == n,
    decreases n,
{
    if n > 0 {
        lemma_seg_list_len(b / 0x1_0000, (n - 1) as nat);
    }
}

/// The eight segments of an IPv6 address.
pub open spec fn segments_of(bits: u128) -> Seq<u16> {
    seg_list(bits as int, 8)
}

/// A lowercase hexadecimal digit.
pub open spec fn hex_digit(d: nat) -> char {
    if d < 10 {
        ((d + '0' as nat) as u32) as char
    } else {
        ((d - 10 + 'a' as nat) as u32) as char
    }
}

/// The lowercase hexadecimal text of a number, without leading zeros.
pub open spec fn hex_text(n: nat) -> Seq<char>
    decreases n,
{
    if n < 16 {
        seq![hex_digit(n)]
    } else {
        hex_text(n / 16).push(hex_digit(n % 16))
    }
}

/// Segments in hexadecimal, separated by `:`.
pub open spec fn hex_join(g: Seq<u16>) -> Seq<char>
    decreases g.len(),
{
    if g.len() == 0 {
        Seq::empty()
    } else if g.len() == 1 {
        hex_text(g[0] as nat)
    } else {
        hex_join(g.drop_last()) + seq![':'] + hex_text(g.last() as nat)
    }
}

/// The number of zero segments from `i` on, up to the first non-zero one.
pub open spec fn zero_run(g: Seq<u16>, i: int) -> nat
    decreases g.len() - i,
{
    if 0 <= i < g.len() && g[i] == 0 {
        1 + zero_run(g, i + 1)
    } else {
        0
    }
}

/// The start and the length of the longest run of zero segments at or
/// after `i`; the first of the longest.
pub open spec fn longest_zero_run(g: Seq<u16>, i: int) -> (int, nat)
    decreases g.len() - i,
{
    if i < 0 || i >= g.len() {
        (g.len() as int, 0)
    } else {
        let rest = longest_zero_run(g, i + 1);
        if zero_run(g, i) >= rest.1 {
            (i, zero_run(g, i))
        } else {
            rest
        }
    }
}

/// The text of an IPv6 address, as RFC 5952 recommends: an IPv4-mapped
/// address as `::ffff:` and dotted decimal; otherwise lowercase
/// hexadecimal segments, the first longest run of two or more zero
/// segments written `::`.
pub open spec fn v6_addr_text(bits: u128) -> Seq<char> {
    let g = segments_of(bits);
    if g[0] == 0 && g[1] == 0 && g[2] == 0 && g[3] == 0 && g[4] == 0 && g[5] == 0xffff {
        "::ffff:"@ + v4_addr_text((g[6] * 0x1_0000 + g[7]) as u32)
    } else {
        let run = longest_zero_run(g, 0);
        if run.1 > 1 {
            hex_join(g.take(run.0)) + "::"@ + hex_join(g.skip(run.0 + run.1))
        } else {
            hex_join(g)
        }
    }
}

fn hex_digit_exec(d: u32) -> (r: char)
    requires
        d < 16,
    ensures
        r == hex_digit(d as nat),
{
    let c: u8 = if d < 10 {
        (d as u8) + 48
    } else {
        (d as u8) - 10 + 97
    };
    c as char
}

/// Appends the hexadecimal text of `n`.
fn push_hex(s: &mut String, n: u32)
    ensures
        final(s)@ == old(s)@ + hex_text(n as nat),
    decreases n,
{
    if n >= 16 {
        push_hex(s, n / 16);
    }
    let c = hex_digit_exec(n % 16);
    push_char(s, c);
    assert(s@ =~= old(s)@ + hex_text(n as nat));
}

/// Appends the segments `g[lo..hi]` in hexadecimal, separated by `:`.
fn push_hex_join(s: &mut String, g: &Vec<u16>, lo: usize, hi: usize)
    requires
        lo <= hi <= g@.len(),
    ensures
        final(s)@ == old(s)@ + hex_join(g@.subrange(lo as int, hi as int)),
{
    if lo == hi {
        assert(g@.subrange(lo as int, hi as int) =~= Seq::<u16>::empty());
        return;
    }
    push_hex(s, g[lo] as u32);
    assert(hex_join(g@.subrange(lo as int, lo + 1)) == hex_text(g@[lo as int] as nat));
    let mut k: usize = lo + 1;
    while k < hi
        invariant
            lo < k <= hi <= g@.len(),
            s@ == old(s)@ + hex_join(g@.subrange(lo as int, k as int)),
        decreases hi - k,
    {
        push_char(s, ':');
        push_hex(s, g[k] as u32);
        proof {
            let t = g@.subrange(lo as int, k + 1);
            assert(t.drop_last() =~= g@.subrange(lo as int, k as int));
            assert(t.last() == g@[k as int]);
        }
        k = k + 1;
        assert(s@ =~= old(s)@ + hex_join(g@.subrange(lo as int, k as int)));
    }
}

/// The eight segments of `bits`.
fn segments_exec(bits: u128) -> (r: Vec<u16>)
    ensures
        r@ == segments_of(bits),
        r@.len() == 8,
{
    let mut out: Vec<u16> = Vec::new();
    let mut b: u128 = bits;
    let mut k: usize = 0;
    let ghost mut rev: Seq<u16> = Seq::empty();
    while k < 8
        invariant
            k <= 8,
            out@.len() == k,
            seg_list(bits as int, 8) == seg_list(b as int, (8 - k) as nat) + out@.reverse(),
        decreases 8 - k,
    {
        let ghost before = out@;
        proof {
            assert(seg_list(b as int, (8 - k) as nat) == seg_list(b as int / 0x1_0000, (7 - k) as nat).push(
                (b as int % 0x1_0000) as u16,
            ));
        }
        out.push((b % 0x1_0000) as u16);
        b = b / 0x1_0000;
        k = k + 1;
        assert(out@.reverse() =~= seq![out@[k - 1]] + before.reverse());
    }
    assert(seg_list(b as int, 0) =~= Seq::<u16>::empty());
    let mut r: Vec<u16> = Vec::new();
    let mut j: usize = 8;
    while j > 0
        invariant
            j <= 8,
            out@.len() == 8,
            r@ == out@.reverse().take(8 - j),
        decreases j,
    {
        j = j - 1;
        r.push(out[j]);
        assert(r@ =~= out@.reverse().take(8 - j));
    }
    assert(out@.reverse().take(8) =~= out@.reverse());
    assert(segments_of(bits) =~= out@.reverse());
    r
}

/// The first longest run of zero segments.
fn longest_zero_run_exec(g: &Vec<u16>) -> (r: (usize, usize))
    requires
        g@.len() == 8,
    ensures
        r.0 as int == longest_zero_run(g@, 0).0,
        r.1 as nat == longest_zero_run(g@, 0).1,
        r.1 <= 8,
        r.0 + r.1 <= 8,
{
    let mut run: usize = 0;
    let mut best_start: usize = 8;
    let mut best_len: usize = 0;
    let mut i: usize = 8;
    proof {
        lemma_zero_run_bound(g@, 8);
    }
    while i > 0
        invariant
            g@.len() == 8,
            i <= 8,
            run as nat == zero_run(g@, i as int),
            best_start as int == longest_zero_run(g@, i as int).0,
            best_len as nat == longest_zero_run(g@, i as int).1,
            run + i <= 8,
            best_len + best_start <= 8,
        decreases i,
    {
        i = i - 1;
        proof {
            lemma_zero_run_bound(g@, i as int);
        }
        if g[i] == 0 {
            run = run + 1;
        } else {
            run = 0;
        }
        if run >= best_len {
            best_start = i;
            best_len = run;
        }
    }
    (best_start, best_len)
}

proof fn lemma_zero_run_bound(g: Seq<u16>, i: int)
    requires
        0 <= i <= g.len(),
    ensures
        zero_run(g, i) + i <= g.len(),
    decreases g.len() - i,
{
    if i < g.len() {
        lemma_zero_run_bound(g, i + 1);
    }
}

impl Ipv6Addr {
    /// The text of the address, as RFC 5952 recommends.
    pub fn to_string(&self) -> (r: String)
        ensures
            r@ == v6_addr_text(self.bits),
    {
        let g = segments_exec(self.bits);
        let mut s = String::new();
        if g[0] == 0 && g[1] == 0 && g[2] == 0 && g[3] == 0 && g[4] == 0 && g[5] == 0xffff {
            push_char(&mut s, ':');
            push_char(&mut s, ':');
            push_char(&mut s, 'f');
            push_char(&mut s, 'f');
            push_char(&mut s, 'f');
            push_char(&mut s, 'f');
            push_char(&mut s, ':');
            let v: u32 = (g[6] as u32) * 0x1_0000 + (g[7] as u32);
            push_v4(&mut s, v);
            proof {
                reveal_strlit("::ffff:");
            }
            assert(s@ =~= v6_addr_text(self.bits));
            return s;
        }
        let (start, len) = longest_zero_run_exec(&g);
        if len > 1 {
            push_hex_join(&mut s, &g, 0, start);
            push_char(&mut s, ':');
            push_char(&mut s, ':');
            push_hex_join(&mut s, &g, start + len, 8);
            proof {
                reveal_strlit("::");
                assert(g@.subrange(0, start as int) =~= g@.take(start as int));
                assert(g@.subrange(start + len, 8) =~= g@.skip(start + len));
            }
            assert(s@ =~= v6_addr_text(self.bits));
        } else {
            push_hex_join(&mut s, &g, 0, 8);
            assert(g@.subrange(0, 8) =~= g@);
            assert(s@ =~= v6_addr_text(self.bits));
        }
        s
    }
}

/// The text `address/p` of a prefixed IPv6 address.
pub open spec fn v6_text(bits: u128, prefix_len: u8) -> Seq<char> {
    v6_addr_text(bits) + seq!['/'] + nat_text(prefix_len as nat)
}

impl PrefixedIpv6Addr {
    /// The text `address/p`.
    pub fn to_string(&self) -> (r: String)
        ensures
            r@ == v6_text(self.addr.bits, self.prefix_len),
    {
        let mut s = self.addr.to_string();
        push_char(&mut s, '/');
        push_decimal(&mut s, self.prefix_len as u64);
        assert(s@ =~= v6_text(self.addr.bits, self.prefix_len));
        s
    }

    /// Reads `address/p` in IPv6 notation. The prefix length is not checked
    /// against 128.
    pub fn parse(text: &str) -> (r: Result<PrefixedIpv6Addr, PrefixedAddrError>)
        ensures
            match r {
                Ok(p) => prefixed_v6_of(text@) == Ok::<(int, u8), PrefixedAddrError>(
                    (p.addr.bits as int, p.prefix_len),
                ),
                Err(e) => prefixed_v6_of(text@) == Err::<(int, u8), PrefixedAddrError>(e),
            },
    {
        let s = chars_of(text);
        Self::parse_chars(&s)
    }

    /// Reads the characters of `s`, as `parse` reads a text.
    pub fn parse_chars(s: &Vec<char>) -> (r: Result<PrefixedIpv6Addr, PrefixedAddrError>)
        ensures
            match r {
                Ok(p) => prefixed_v6_of(s@) == Ok::<(int, u8), PrefixedAddrError>(
                    (p.addr.bits as int, p.prefix_len),
                ),
                Err(e) => prefixed_v6_of(s@) == Err::<(int, u8), PrefixedAddrError>(e),
            },
    {
        let parts = split_char_exec(s, '/');
        if parts.len() != 2 {
            return Err(PrefixedAddrError::Format);
        }
        let ghost p = split_char(s@, '/');
        let (a0, b0) = parts[0];
        let (a1, b1) = parts[1];
        assert(p[0] == s@.subrange(a0 as int, b0 as int));
        assert(p[1] == s@.subrange(a1 as int, b1 as int));
        let addr_text = slice_vec(s, a0, b0);
        match ipv6_exec(&addr_text) {
            None => Err(PrefixedAddrError::Address),
            Some(addr) => match parse_u8_radix_exec(s, a1, b1, 10) {
                None => Err(PrefixedAddrError::PrefixLength),
                Some(l) => Ok(PrefixedIpv6Addr { addr, prefix_len: l }),
            },
        }
    }
}

} // verus!
