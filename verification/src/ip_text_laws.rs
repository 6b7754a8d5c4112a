//! What reading gives back of writing, for the IPv6 text.
use vstd::prelude::*;

use crate::ip::{PrefixedIpv6Addr, v4_addr_text};
use crate::ip_text::{
    PrefixedAddrError, group_of, group_value, groups_bits, hex_digit, hex_join, hex_text, ipv6_of,
    lemma_concat_lacks, lemma_octet_text, lemma_seg_list_len, lemma_v4_addr_text_lacks,
    lemma_v4_addr_text_reads, longest_zero_run, part_groups, prefixed_v6_of, seg_list, segments_of,
    v6_addr_text, v6_text, zero_run,
};
use crate::text::{
    all_digits, digit_value, digits_value, find, find_char, find_from, lemma_find,
    lemma_find_char, lemma_split_char_cons, lemma_split_char_none, nat_text,
    occurs_at, split_char,
};

verus! {

proof fn lemma_hex_digit(d: nat)
    requires
        d < 16,
    ensures
        digit_value(hex_digit(d), 16) == Some(d),
        hex_digit(d) != ':',
        hex_digit(d) != '.',
        hex_digit(d) != '/',
{
    assert(d == 0 || d == 1 || d == 2 || d == 3 || d == 4 || d == 5 || d == 6 || d == 7 || d == 8
        || d == 9 || d == 10 || d == 11 || d == 12 || d == 13 || d == 14 || d == 15);
}

/// The hexadecimal text of a number reads back as the number; it holds no
/// `:`, `.` or `/`, and four digits at most hold a segment.
proof fn lemma_hex_text(n: nat)
    ensures
        hex_text(n).len() >= 1,
        all_digits(hex_text(n), 16),
        digits_value(hex_text(n), 16) == n,
        n < 0x1_0000 ==> hex_text(n).len() <= 4,
        forall|j: int|
            0 <= j < hex_text(n).len() ==> #[trigger] hex_text(n)[j] != ':' && hex_text(n)[j] != '.'
                && hex_text(n)[j] != '/',
    decreases n,
{
    let t = hex_text(n);
    if n < 16 {
        lemma_hex_digit(n);
        assert(t == seq![hex_digit(n)]);
        assert(t.drop_last() =~= Seq::<char>::empty());
        assert(digits_value(t, 16) == digits_value(t.drop_last(), 16) * 16 + n);
    } else {
        lemma_hex_text(n / 16);
        lemma_hex_digit(n % 16);
        let u = hex_text(n / 16);
        assert(t == u.push(hex_digit(n % 16)));
        assert(t.drop_last() =~= u);
        assert forall|i: int| 0 <= i < t.len() implies digit_value(#[trigger] t[i], 16) is Some by {
            if i < u.len() {
                assert(t[i] == u[i]);
            }
        }
        assert forall|j: int| 0 <= j < t.len() implies #[trigger] t[j] != ':' && t[j] != '.' && t[j]
            != '/' by {
            if j < u.len() {
                assert(t[j] == u[j]);
            }
        }
        assert(digits_value(t, 16) == digits_value(u, 16) * 16 + n % 16);
        assert((n / 16) * 16 + n % 16 == n);
        if n < 0x1_0000 {
            assert(n / 16 < 0x1000);
            if n / 16 >= 16 {
                assert(u.len() <= 3) by {
                    lemma_hex_text_short(n / 16);
                }
            }
        }
    }
}

/// Below `0x1000` the text has at most three digits.
proof fn lemma_hex_text_short(n: nat)
    requires
        n < 0x1000,
    ensures
        hex_text(n).len() <= 3,
    decreases n,
{
    if n >= 16 {
        lemma_hex_text_short(n / 16);
        if n / 16 >= 16 {
            lemma_hex_text_shorter(n / 16);
        }
    }
}

/// Below `0x100` the text has at most two digits.
proof fn lemma_hex_text_shorter(n: nat)
    requires
        n < 0x100,
    ensures
        hex_text(n).len() <= 2,
{
    if n >= 16 {
        assert(n / 16 < 16);
        assert(hex_text(n / 16).len() == 1);
    }
}

/// A segment's text reads back as the segment.
proof fn lemma_group_of_hex(x: u16)
    ensures
        group_of(hex_text(x as nat)) == Some(x),
{
    lemma_hex_text(x as nat);
}

/// Splitting `a`, the separator, then `b`, when `b` holds no separator.
proof fn lemma_split_char_snoc(a: Seq<char>, b: Seq<char>, sep: char)
    requires
        forall|j: int| 0 <= j < b.len() ==> b[j] != sep,
    ensures
        split_char(a + seq![sep] + b, sep) == split_char(a, sep).push(b),
    decreases a.len(),
{
    lemma_find_char(a, sep);
    match find_char(a, sep) {
        None => {
            lemma_split_char_none(a, sep);
            lemma_split_char_none(b, sep);
            lemma_split_char_cons(a, b, sep);
            assert(seq![a] + seq![b] =~= seq![a].push(b));
        },
        Some(i) => {
            let a1 = a.take(i);
            let a2 = a.skip(i + 1);
            assert(a =~= a1 + seq![sep] + a2);
            assert forall|j: int| 0 <= j < a1.len() implies a1[j] != sep by {}
            lemma_split_char_cons(a1, a2, sep);
            lemma_split_char_snoc(a2, b, sep);
            assert(a + seq![sep] + b =~= a1 + seq![sep] + (a2 + seq![sep] + b));
            lemma_split_char_cons(a1, a2 + seq![sep] + b, sep);
            assert(seq![a1] + split_char(a2, sep).push(b) =~= (seq![a1] + split_char(a2, sep)).push(b));
        },
    }
}

/// No two `:` in a row.
pub open spec fn no_double_colon(s: Seq<char>) -> bool {
    forall|j: int| 0 <= j < s.len() - 1 ==> !(#[trigger] s[j] == ':' && s[j + 1] == ':')
}

/// Segments joined by `:` split back into their texts; the text starts and
/// ends with a digit, has no two `:` in a row, and holds no `.` or `/`.
proof fn lemma_hex_join(g: Seq<u16>)
    requires
        g.len() >= 1,
    ensures
        split_char(hex_join(g), ':') == g.map_values(|x: u16| hex_text(x as nat)),
        hex_join(g).len() >= 1,
        hex_join(g)[0] != ':',
        hex_join(g).last() != ':',
        no_double_colon(hex_join(g)),
        forall|j: int|
            0 <= j < hex_join(g).len() ==> #[trigger] hex_join(g)[j] != '.' && hex_join(g)[j] != '/',
    decreases g.len(),
{
    let s = hex_join(g);
    if g.len() == 1 {
        lemma_hex_text(g[0] as nat);
        lemma_split_char_none(s, ':');
        assert(g.map_values(|x: u16| hex_text(x as nat)) =~= seq![s]);
    } else {
        let u = g.drop_last();
        let a = hex_join(u);
        let h = hex_text(g.last() as nat);
        lemma_hex_join(u);
        lemma_hex_text(g.last() as nat);
        assert(s == a + seq![':'] + h);
        lemma_split_char_snoc(a, h, ':');
        assert(g.map_values(|x: u16| hex_text(x as nat)) =~= u.map_values(|x: u16| hex_text(x as nat)).push(h));
        assert(s[0] == a[0]);
        assert(s.last() == h.last());
        assert forall|j: int| 0 <= j < s.len() - 1 implies !(#[trigger] s[j] == ':' && s[j + 1] == ':') by {
            if j < a.len() - 1 {
                assert(s[j] == a[j] && s[j + 1] == a[j + 1]);
            } else if j == a.len() - 1 {
                assert(s[j] == a.last());
            } else if j == a.len() {
                assert(s[j + 1] == h[0]);
            } else {
                assert(s[j] == h[j - a.len() - 1]);
            }
        }
        assert forall|j: int| 0 <= j < s.len() implies #[trigger] s[j] != '.' && s[j] != '/' by {
            if j < a.len() {
                assert(s[j] == a[j]);
            } else if j > a.len() {
                assert(s[j] == h[j - a.len() - 1]);
            }
        }
    }
}

/// The groups of joined segments are the segments.
proof fn lemma_hex_join_groups(g: Seq<u16>, allow_v4: bool)
    requires
        g.len() >= 1,
    ensures
        part_groups(hex_join(g), allow_v4) == Some(g),
{
    lemma_hex_join(g);
    let p = split_char(hex_join(g), ':');
    assert forall|k: int| 0 <= k < p.len() implies #[trigger] group_of(p[k]) == Some(g[k]) by {
        lemma_group_of_hex(g[k]);
    }
    assert(p.map_values(|t: Seq<char>| group_value(t)) =~= g);
}

/// A run of zero segments is made of zeros and ends within the segments.
proof fn lemma_zero_run(g: Seq<u16>, i: int)
    requires
        0 <= i <= g.len(),
    ensures
        i + zero_run(g, i) <= g.len(),
        forall|k: int| i <= k < i + zero_run(g, i) ==> g[k] == 0,
    decreases g.len() - i,
{
    if i < g.len() && g[i] == 0 {
        lemma_zero_run(g, i + 1);
    }
}

/// The longest run found is a run of zeros within the segments.
proof fn lemma_longest_zero_run(g: Seq<u16>, i: int)
    requires
        0 <= i <= g.len(),
    ensures
        ({
            let r = longest_zero_run(g, i);
            r.1 > 0 ==> i <= r.0 && r.0 + r.1 <= g.len() && forall|k: int|
                r.0 <= k < r.0 + r.1 ==> g[k] == 0
        }),
    decreases g.len() - i,
{
    if i < g.len() {
        lemma_longest_zero_run(g, i + 1);
        lemma_zero_run(g, i);
    }
}

/// `find_from` gives the first occurrence at or after `from`.
proof fn lemma_find_from_first(s: Seq<char>, p: Seq<char>, from: int, k: int)
    requires
        0 <= from <= k,
        occurs_at(s, p, k),
        forall|j: int| from <= j < k ==> !occurs_at(s, p, j),
    ensures
        find_from(s, p, from) == Some(k),
    decreases k - from,
{
    if from < k {
        lemma_find_from_first(s, p, from + 1, k);
    }
}

/// A text with no two `:` in a row holds no `::`.
proof fn lemma_no_double_colon_find(s: Seq<char>)
    requires
        no_double_colon(s),
    ensures
        find(s, seq![':', ':']) is None,
{
    lemma_find(s, seq![':', ':']);
    if find(s, seq![':', ':']) is Some {
        let i = find(s, seq![':', ':']).unwrap();
        assert(s.subrange(i, i + 2) == seq![':', ':']);
        assert(s[i] == s.subrange(i, i + 2)[0]);
        assert(s[i + 1] == s.subrange(i, i + 2)[1]);
    }
}

/// `h`, `::` and `t` with the first `::` right after `h`.
proof fn lemma_find_after(h: Seq<char>, t: Seq<char>)
    requires
        h.len() == 0 || (h.last() != ':' && no_double_colon(h)),
    ensures
        find(h + seq![':', ':'] + t, seq![':', ':']) == Some(h.len() as int),
{
    let s = h + seq![':', ':'] + t;
    let p = seq![':', ':'];
    assert(s.subrange(h.len() as int, h.len() as int + 2) =~= p);
    assert forall|j: int| 0 <= j < h.len() implies !occurs_at(s, p, j) by {
        if occurs_at(s, p, j) {
            assert(s[j] == s.subrange(j, j + 2)[0]);
            assert(s[j + 1] == s.subrange(j, j + 2)[1]);
            assert(s[j] == h[j]);
            if j == h.len() - 1 {
                assert(h.last() == h[j]);
            } else {
                assert(s[j + 1] == h[j + 1]);
            }
        }
    }
    lemma_find_from_first(s, p, 0, h.len() as int);
}

/// The groups of one side of `::`: the segments written there.
proof fn lemma_side_groups(g: Seq<u16>, allow_v4: bool)
    ensures
        part_groups(hex_join(g), allow_v4) == Some(g),
{
    if g.len() == 0 {
        assert(hex_join(g) =~= Seq::<char>::empty());
        assert(g =~= Seq::<u16>::empty());
    } else {
        lemma_hex_join_groups(g, allow_v4);
    }
}

/// A text written without `::` reads back.
proof fn lemma_plain_reads(g: Seq<u16>)
    requires
        g.len() == 8,
    ensures
        ipv6_of(hex_join(g)) == Some(g),
{
    lemma_hex_join(g);
    lemma_no_double_colon_find(hex_join(g));
    lemma_hex_join_groups(g, true);
}

/// A text written with `::` for the zeros from `st` reads back.
proof fn lemma_compressed_reads(g: Seq<u16>, st: int, ln: int)
    requires
        g.len() == 8,
        0 <= st,
        ln > 1,
        st + ln <= 8,
        forall|k: int| st <= k < st + ln ==> g[k] == 0,
    ensures
        ipv6_of(hex_join(g.take(st)) + "::"@ + hex_join(g.skip(st + ln))) == Some(g),
{
    reveal_strlit("::");
    let h = hex_join(g.take(st));
    let t = hex_join(g.skip(st + ln));
    assert("::"@ =~= seq![':', ':']);
    if st > 0 {
        lemma_hex_join(g.take(st));
    } else {
        assert(h =~= Seq::<char>::empty());
    }
    lemma_find_after(h, t);
    let s = h + seq![':', ':'] + t;
    assert(s.take(h.len() as int) =~= h);
    assert(s.skip(h.len() as int + 2) =~= t);
    lemma_side_groups(g.take(st), false);
    lemma_side_groups(g.skip(st + ln), true);
    let z = Seq::new((8 - st - (8 - st - ln)) as nat, |k: int| 0u16);
    assert(g.take(st) + z + g.skip(st + ln) =~= g);
}

/// An IPv4-mapped address written `::ffff:` and dotted decimal reads back.
proof fn lemma_mapped_reads(g: Seq<u16>)
    requires
        g.len() == 8,
        g[0] == 0 && g[1] == 0 && g[2] == 0 && g[3] == 0 && g[4] == 0,
        g[5] == 0xffff,
    ensures
        ipv6_of("::ffff:"@ + v4_addr_text((g[6] * 0x1_0000 + g[7]) as u32)) == Some(g),
{
    reveal_strlit("::ffff:");
    let v = (g[6] * 0x1_0000 + g[7]) as u32;
    let vt = v4_addr_text(v);
    let ffff = seq!['f', 'f', 'f', 'f'];
    let s = "::ffff:"@ + vt;
    assert(s =~= Seq::<char>::empty() + seq![':', ':'] + (ffff + seq![':'] + vt));
    lemma_find_after(Seq::<char>::empty(), ffff + seq![':'] + vt);
    let tail = ffff + seq![':'] + vt;
    assert(s.take(0) =~= Seq::<char>::empty());
    assert(s.skip(2) =~= tail);
    lemma_v4_addr_text_lacks(v, ':');
    lemma_split_char_none(vt, ':');
    assert forall|j: int| 0 <= j < ffff.len() implies ffff[j] != ':' by {}
    lemma_split_char_cons(ffff, vt, ':');
    reveal_with_fuel(hex_text, 5);
    assert(hex_text(0xffff) =~= ffff);
    lemma_group_of_hex(0xffff);
    lemma_v4_addr_text_reads(v);
    let p = split_char(tail, ':');
    assert(p =~= seq![ffff, vt]);
    assert(p.take(1).map_values(|t: Seq<char>| group_value(t)) =~= seq![0xffffu16]);
    assert(v / 0x1_0000 == g[6] && v % 0x1_0000 == g[7]);
    let z = Seq::new(5, |k: int| 0u16);
    assert(Seq::<u16>::empty() + z + seq![0xffffu16, g[6], g[7]] =~= g);
}

/// The value of segments, the first one most significant.
spec fn seg_value(s: Seq<u16>) -> int
    decreases s.len(),
{
    if s.len() == 0 {
        0
    } else {
        seg_value(s.drop_last()) * 0x1_0000 + s.last()
    }
}

/// The number of values `n` segments hold.
spec fn seg_limit(n: nat) -> int
    decreases n,
{
    if n == 0 {
        1
    } else {
        seg_limit((n - 1) as nat) * 0x1_0000
    }
}

proof fn lemma_seg_list_value(b: int, n: nat)
    requires
        0 <= b < seg_limit(n),
    ensures
        seg_value(seg_list(b, n)) == b,
    decreases n,
{
    if n > 0 {
        let q = b / 0x1_0000;
        assert(q < seg_limit((n - 1) as nat)) by (nonlinear_arith)
            requires
                0 <= b < seg_limit((n - 1) as nat) * 0x1_0000,
                q == b / 0x1_0000,
        ;
        lemma_seg_list_value(q, (n - 1) as nat);
        let s = seg_list(b, n);
        assert(s.drop_last() =~= seg_list(q, (n - 1) as nat));
        assert(q * 0x1_0000 + b % 0x1_0000 == b);
    }
}

/// The segments of an address make it up again.
proof fn lemma_segments_bits(bits: u128)
    ensures
        segments_of(bits).len() == 8,
        groups_bits(segments_of(bits)) == bits,
{
    let g = segments_of(bits);
    lemma_seg_list_len(bits as int, 8);
    reveal_with_fuel(seg_limit, 9);
    assert(seg_limit(8) == 0x1_0000_0000_0000_0000_0000_0000_0000_0000);
    lemma_seg_list_value(bits as int, 8);
    reveal_with_fuel(seg_value, 9);
    assert(g.drop_last().drop_last().drop_last().drop_last().drop_last().drop_last().drop_last().drop_last() =~= Seq::<u16>::empty());
    assert(seg_value(g) == groups_bits(g));
}

/// The text of an IPv6 address reads back as its segments, which make up
/// the address.
pub proof fn lemma_v6_addr_text_reads(bits: u128)
    ensures
        ipv6_of(v6_addr_text(bits)) == Some(segments_of(bits)),
        groups_bits(segments_of(bits)) == bits,
        forall|j: int| 0 <= j < v6_addr_text(bits).len() ==> #[trigger] v6_addr_text(bits)[j] != '/',
{
    lemma_segments_bits(bits);
    let g = segments_of(bits);
    let s = v6_addr_text(bits);
    if g[0] == 0 && g[1] == 0 && g[2] == 0 && g[3] == 0 && g[4] == 0 && g[5] == 0xffff {
        lemma_mapped_reads(g);
        let vt = v4_addr_text((g[6] * 0x1_0000 + g[7]) as u32);
        lemma_v4_addr_text_lacks((g[6] * 0x1_0000 + g[7]) as u32, '/');
        reveal_strlit("::ffff:");
        assert forall|j: int| 0 <= j < "::ffff:"@.len() implies "::ffff:"@[j] != '/' by {}
        lemma_concat_lacks("::ffff:"@, vt, '/');
    } else {
        let run = longest_zero_run(g, 0);
        lemma_longest_zero_run(g, 0);
        if run.1 > 1 {
            lemma_compressed_reads(g, run.0, run.1 as int);
            let h = hex_join(g.take(run.0));
            let t = hex_join(g.skip(run.0 + run.1));
            if run.0 > 0 {
                lemma_hex_join(g.take(run.0));
            } else {
                assert(h =~= Seq::<char>::empty());
            }
            if run.0 + run.1 < 8 {
                lemma_hex_join(g.skip(run.0 + run.1));
            } else {
                assert(g.skip(run.0 + run.1) =~= Seq::<u16>::empty());
                assert(t =~= Seq::<char>::empty());
            }
            reveal_strlit("::");
            assert forall|j: int| 0 <= j < "::"@.len() implies "::"@[j] != '/' by {}
            lemma_concat_lacks(h, "::"@, '/');
            lemma_concat_lacks(h + "::"@, t, '/');
        } else {
            lemma_plain_reads(g);
            lemma_hex_join(g);
        }
    }
}

/// Reading the text of a prefixed IPv6 address gives the address back.
pub proof fn lemma_v6_text_round_trip(a: PrefixedIpv6Addr)
    ensures
        prefixed_v6_of(v6_text(a.addr.bits, a.prefix_len)) == Ok::<(int, u8), PrefixedAddrError>(
            (a.addr.bits as int, a.prefix_len),
        ),
{
    let head = v6_addr_text(a.addr.bits);
    let tail = nat_text(a.prefix_len as nat);
    lemma_v6_addr_text_reads(a.addr.bits);
    lemma_octet_text(a.prefix_len);
    lemma_split_char_none(tail, '/');
    lemma_split_char_cons(head, tail, '/');
    assert(v6_text(a.addr.bits, a.prefix_len) =~= head + seq!['/'] + tail);
    assert(split_char(v6_text(a.addr.bits, a.prefix_len), '/') =~= seq![head, tail]);
}

} // verus!
