//! Character-level text model shared by the parsers of this crate.
//!
//! Strings are modelled by their views, `Seq<char>`. The spec functions here
//! describe the std string operations that the wpa_supplicant parsers rely
//! on (trimming, splitting, searching, number parsing) and the executable
//! functions compute them on `Vec<char>` buffers.
use vstd::prelude::*;

verus! {

// ---------------------------------------------------------------------------
// Character classes
// ---------------------------------------------------------------------------

/// Unicode `White_Space`, the set that `char::is_whitespace` tests.
pub open spec fn is_ws(c: char) -> bool {
    ||| ('\u{9}' <= c && c <= '\u{d}')
    ||| c == ' '
    ||| c == '\u{85}'
    ||| c == '\u{a0}'
    ||| c == '\u{1680}'
    ||| ('\u{2000}' <= c && c <= '\u{200a}')
    ||| c == '\u{2028}'
    ||| c == '\u{2029}'
    ||| c == '\u{202f}'
    ||| c == '\u{205f}'
    ||| c == '\u{3000}'
}

/// General category `Cc`, the set that `char::is_control` tests.
pub open spec fn is_control(c: char) -> bool {
    c <= '\u{1f}' || ('\u{7f}' <= c && c <= '\u{9f}')
}

/// ASCII control characters (`char::is_ascii_control`).
pub open spec fn is_ascii_control(c: char) -> bool {
    c <= '\u{1f}' || c == '\u{7f}'
}

/// The value of `c` as a digit in `radix` (at most 16), as `char::to_digit`.
pub open spec fn digit_value(c: char, radix: nat) -> Option<nat> {
    let v: int = if '0' <= c && c <= '9' {
        c as int - '0' as int
    } else if 'a' <= c && c <= 'f' {
        c as int - 'a' as int + 10
    } else if 'A' <= c && c <= 'F' {
        c as int - 'A' as int + 10
    } else {
        100
    };
    if v < radix {
        Some(v as nat)
    } else {
        None
    }
}

/// `char::to_ascii_lowercase`.
pub open spec fn ascii_lower(c: char) -> char {
    if 'A' <= c && c <= 'Z' {
        ((c as u32) + 32) as char
    } else {
        c
    }
}

/// `str::to_ascii_lowercase` on a character sequence.
pub open spec fn ascii_lower_seq(s: Seq<char>) -> Seq<char> {
    s.map_values(|c: char| ascii_lower(c))
}

pub fn is_ws_exec(c: char) -> (r: bool)
    ensures
        r == is_ws(c),
{
    ('\u{9}' <= c && c <= '\u{d}') || c == ' ' || c == '\u{85}' || c == '\u{a0}' || c
        == '\u{1680}' || ('\u{2000}' <= c && c <= '\u{200a}') || c == '\u{2028}' || c
        == '\u{2029}' || c == '\u{202f}' || c == '\u{205f}' || c == '\u{3000}'
}

pub fn is_control_exec(c: char) -> (r: bool)
    ensures
        r == is_control(c),
{
    c <= '\u{1f}' || ('\u{7f}' <= c && c <= '\u{9f}')
}

pub fn ascii_lower_exec(c: char) -> (r: char)
    ensures
        r == ascii_lower(c),
{
    if 'A' <= c && c <= 'Z' {
        let v: u32 = (c as u32) + 32;
        assert('a' as u32 <= v <= 'z' as u32);
        char_from_ascii(v)
    } else {
        c
    }
}

/// The character with the given code, for codes in the ASCII letter range.
fn char_from_ascii(v: u32) -> (r: char)
    requires
        v < 128,
    ensures
        r == v as char,
{
    let b: u8 = v as u8;
    b as char
}

pub fn digit_value_exec(c: char, radix: u32) -> (r: Option<u32>)
    requires
        radix <= 16,
    ensures
        r matches Some(v) ==> digit_value(c, radix as nat) == Some(v as nat),
        r is None ==> digit_value(c, radix as nat) is None,
{
    let v: u32 = if '0' <= c && c <= '9' {
        (c as u32) - ('0' as u32)
    } else if 'a' <= c && c <= 'f' {
        (c as u32) - ('a' as u32) + 10
    } else if 'A' <= c && c <= 'F' {
        (c as u32) - ('A' as u32) + 10
    } else {
        100
    };
    if v < radix {
        Some(v)
    } else {
        None
    }
}

// ---------------------------------------------------------------------------
// Conversions between `&str`, `String` and character buffers
// ---------------------------------------------------------------------------

/// The characters of `s`, in order.
pub fn chars_of(s: &str) -> (r: Vec<char>)
    ensures
        r@ == s@,
{
    let mut out: Vec<char> = Vec::new();
    for c in it: s.chars()
        invariant
            out@ == it.seq().take(it.index() as int),
    {
        out.push(c);
    }
    out
}

/// Appends one character to a `String` (`String::push`).
#[verifier::external_body]
pub(crate) fn push_char(s: &mut String, c: char)
    ensures
        final(s)@ == old(s)@.push(c),
{
    s.push(c);
}

/// The string made of the given characters.
pub fn string_of(cs: &[char]) -> (r: String)
    ensures
        r@ == cs@,
{
    let mut out = String::new();
    let mut i: usize = 0;
    while i < cs.len()
        invariant
            0 <= i <= cs@.len(),
            out@ == cs@.take(i as int),
        decreases cs@.len() - i,
    {
        push_char(&mut out, cs[i]);
        i = i + 1;
        assert(out@ =~= cs@.take(i as int));
    }
    assert(cs@.take(cs@.len() as int) =~= cs@);
    out
}

/// The characters `cs[lo..hi]` as a string.
pub fn string_of_range(cs: &Vec<char>, lo: usize, hi: usize) -> (r: String)
    requires
        lo <= hi <= cs@.len(),
    ensures
        r@ == cs@.subrange(lo as int, hi as int),
{
    let mut out = String::new();
    let mut i: usize = lo;
    while i < hi
        invariant
            lo <= i <= hi <= cs@.len(),
            out@ == cs@.subrange(lo as int, i as int),
        decreases hi - i,
    {
        push_char(&mut out, cs[i]);
        i = i + 1;
        assert(out@ =~= cs@.subrange(lo as int, i as int));
    }
    out
}

/// The sub-buffer `cs[lo..hi]`.
pub fn slice_vec(cs: &Vec<char>, lo: usize, hi: usize) -> (r: Vec<char>)
    requires
        lo <= hi <= cs@.len(),
    ensures
        r@ == cs@.subrange(lo as int, hi as int),
{
    let mut out: Vec<char> = Vec::new();
    let mut i: usize = lo;
    while i < hi
        invariant
            lo <= i <= hi <= cs@.len(),
            out@ == cs@.subrange(lo as int, i as int),
        decreases hi - i,
    {
        out.push(cs[i]);
        i = i + 1;
        assert(out@ =~= cs@.subrange(lo as int, i as int));
    }
    out
}

/// Appends the characters of `t` to `s`.
pub fn append_chars(s: &mut String, t: &Vec<char>)
    ensures
        final(s)@ == old(s)@ + t@,
{
    let mut i: usize = 0;
    while i < t.len()
        invariant
            0 <= i <= t@.len(),
            s@ == old(s)@ + t@.take(i as int),
        decreases t@.len() - i,
    {
        push_char(s, t[i]);
        i = i + 1;
        assert(s@ =~= old(s)@ + t@.take(i as int));
    }
    assert(t@.take(t@.len() as int) =~= t@);
}

/// Appends the characters of `t` to `s`.
pub fn append_str(s: &mut String, t: &str)
    ensures
        final(s)@ == old(s)@ + t@,
{
    let cs = chars_of(t);
    append_chars(s, &cs);
}

// ---------------------------------------------------------------------------
// Decimal formatting
// ---------------------------------------------------------------------------

/// The decimal digit character for `d < 10`.
pub open spec fn digit_char(d: nat) -> char {
    if d == 0 { '0' } else if d == 1 { '1' } else if d == 2 { '2' } else if d == 3 { '3' }
    else if d == 4 { '4' } else if d == 5 { '5' } else if d == 6 { '6' } else if d == 7 { '7' }
    else if d == 8 { '8' } else { '9' }
}

/// The decimal text of a natural number, without leading zeros.
pub open spec fn nat_text(n: nat) -> Seq<char>
    decreases n,
{
    if n < 10 {
        seq![digit_char(n)]
    } else {
        nat_text(n / 10).push(digit_char(n % 10))
    }
}

/// The decimal text of an integer, with a leading `-` when negative.
pub open spec fn int_text(i: int) -> Seq<char> {
    if i < 0 {
        seq!['-'] + nat_text((-i) as nat)
    } else {
        nat_text(i as nat)
    }
}

fn digit_char_exec(d: u64) -> (r: char)
    requires
        d < 10,
    ensures
        r == digit_char(d as nat),
{
    if d == 0 { '0' } else if d == 1 { '1' } else if d == 2 { '2' } else if d == 3 { '3' }
    else if d == 4 { '4' } else if d == 5 { '5' } else if d == 6 { '6' } else if d == 7 { '7' }
    else if d == 8 { '8' } else { '9' }
}

/// Appends the decimal text of `n` to `s`.
pub fn push_decimal(s: &mut String, n: u64)
    ensures
        final(s)@ == old(s)@ + nat_text(n as nat),
    decreases n,
{
    if n >= 10 {
        push_decimal(s, n / 10);
    }
    let c = digit_char_exec(n % 10);
    push_char(s, c);
    assert(s@ =~= old(s)@ + nat_text(n as nat));
}

/// Appends the decimal text of the signed `i` to `s`.
pub fn push_signed_decimal(s: &mut String, i: i64)
    requires
        i > i64::MIN,
    ensures
        final(s)@ == old(s)@ + int_text(i as int),
{
    if i < 0 {
        push_char(s, '-');
        let m: i64 = -i;
        push_decimal(s, m as u64);
        assert(s@ =~= old(s)@ + int_text(i as int));
    } else {
        push_decimal(s, i as u64);
    }
}

/// Equality of two character buffers.
pub fn chars_eq(a: &Vec<char>, b: &Vec<char>) -> (r: bool)
    ensures
        r == (a@ == b@),
{
    if a.len() != b.len() {
        return false;
    }
    let mut i: usize = 0;
    while i < a.len()
        invariant
            a@.len() == b@.len(),
            0 <= i <= a@.len(),
            forall|j: int| 0 <= j < i ==> a@[j] == b@[j],
        decreases a@.len() - i,
    {
        if a[i] != b[i] {
            return false;
        }
        i = i + 1;
    }
    assert(a@ =~= b@);
    true
}

/// Equality of two strings by their characters.
pub fn str_eq(a: &str, b: &str) -> (r: bool)
    ensures
        r == (a@ == b@),
{
    let x = chars_of(a);
    let y = chars_of(b);
    chars_eq(&x, &y)
}

/// Equality of a character buffer and a string.
pub fn chars_eq_str(a: &Vec<char>, b: &str) -> (r: bool)
    ensures
        r == (a@ == b@),
{
    let y = chars_of(b);
    chars_eq(a, &y)
}

/// A copy of a string.
pub fn copy_string(s: &String) -> (r: String)
    ensures
        r@ == s@,
{
    s.clone()
}

// ---------------------------------------------------------------------------
// Searching
// ---------------------------------------------------------------------------

/// `p` occurs in `s` at position `i`.
pub open spec fn occurs_at(s: Seq<char>, p: Seq<char>, i: int) -> bool {
    0 <= i && i + p.len() <= s.len() && s.subrange(i, i + p.len()) == p
}

/// `str::contains` with a string pattern.
pub open spec fn contains(s: Seq<char>, p: Seq<char>) -> bool {
    exists|i: int| occurs_at(s, p, i)
}

/// `str::starts_with` with a string pattern.
pub open spec fn starts_with(s: Seq<char>, p: Seq<char>) -> bool {
    occurs_at(s, p, 0)
}

/// The least position at or after `from` where `p` occurs in `s`.
pub open spec fn find_from(s: Seq<char>, p: Seq<char>, from: int) -> Option<int>
    decreases s.len() - from,
{
    if from < 0 || from + p.len() > s.len() {
        None
    } else if occurs_at(s, p, from) {
        Some(from)
    } else if from >= s.len() {
        None
    } else {
        find_from(s, p, from + 1)
    }
}

/// `str::find` with a string pattern.
pub open spec fn find(s: Seq<char>, p: Seq<char>) -> Option<int> {
    find_from(s, p, 0)
}

/// What `find_from` returns: the least occurrence at or after `from`.
pub proof fn lemma_find_from(s: Seq<char>, p: Seq<char>, from: int)
    requires
        0 <= from,
    ensures
        find_from(s, p, from) matches Some(i) ==> from <= i && occurs_at(s, p, i) && forall|
            j: int,
        |
            from <= j < i ==> !occurs_at(s, p, j),
        find_from(s, p, from) is None ==> forall|j: int| from <= j ==> !occurs_at(s, p, j),
    decreases s.len() - from,
{
    if from + p.len() > s.len() {
    } else if occurs_at(s, p, from) {
    } else if from >= s.len() {
        assert forall|j: int| from <= j implies !occurs_at(s, p, j) by {
            if j > from {
            }
        }
    } else {
        lemma_find_from(s, p, from + 1);
        if find_from(s, p, from + 1) is None {
            assert forall|j: int| from <= j implies !occurs_at(s, p, j) by {
                if j == from {
                } else {
                }
            }
        }
    }
}

/// `find` gives the least occurrence, and `contains` holds exactly when it
/// finds one.
pub proof fn lemma_find(s: Seq<char>, p: Seq<char>)
    ensures
        find(s, p) matches Some(i) ==> occurs_at(s, p, i) && forall|j: int|
            0 <= j < i ==> !occurs_at(s, p, j),
        find(s, p) is Some <==> contains(s, p),
{
    lemma_find_from(s, p, 0);
    if find(s, p) is None {
        assert(!contains(s, p)) by {
            if contains(s, p) {
                let i = choose|i: int| occurs_at(s, p, i);
                assert(0 <= i);
            }
        }
    }
}

/// Whether `p` occurs in `s` at position `i`.
pub fn occurs_at_exec(s: &Vec<char>, p: &Vec<char>, i: usize) -> (r: bool)
    ensures
        r == occurs_at(s@, p@, i as int),
{
    if i > s.len() || p.len() > s.len() - i {
        return false;
    }
    let n = p.len();
    let mut k: usize = 0;
    while k < n
        invariant
            i + n <= s.len(),
            i + p@.len() <= s@.len(),
            n == p@.len(),
            0 <= k <= p@.len(),
            forall|j: int| 0 <= j < k ==> s@[i + j] == p@[j],
        decreases p@.len() - k,
    {
        if s[i + k] != p[k] {
            assert(s@.subrange(i as int, i + p@.len())[k as int] != p@[k as int]);
            return false;
        }
        k = k + 1;
    }
    assert(s@.subrange(i as int, i + p@.len()) =~= p@);
    true
}

/// The least position at or after `from` where `p` occurs in `s`.
pub fn find_from_exec(s: &Vec<char>, p: &Vec<char>, from: usize) -> (r: Option<usize>)
    ensures
        r matches Some(i) ==> find_from(s@, p@, from as int) == Some(i as int),
        r is None ==> find_from(s@, p@, from as int) is None,
{
    let mut i: usize = from;
    loop
        invariant
            from <= i,
            find_from(s@, p@, from as int) == find_from(s@, p@, i as int),
        decreases s@.len() + 1 - i,
    {
        if i > s.len() || p.len() > s.len() - i {
            return None;
        }
        if occurs_at_exec(s, p, i) {
            return Some(i);
        }
        if i >= s.len() {
            return None;
        }
        i = i + 1;
    }
}

/// `str::find` with a string pattern.
pub fn find_exec(s: &Vec<char>, p: &Vec<char>) -> (r: Option<usize>)
    ensures
        r matches Some(i) ==> find(s@, p@) == Some(i as int),
        r is None ==> find(s@, p@) is None,
{
    find_from_exec(s, p, 0)
}

/// `str::contains` with a string pattern.
pub fn contains_exec(s: &Vec<char>, p: &Vec<char>) -> (r: bool)
    ensures
        r == contains(s@, p@),
{
    proof {
        lemma_find(s@, p@);
    }
    find_exec(s, p).is_some()
}

/// `str::contains` with a string literal pattern.
pub fn contains_str(s: &Vec<char>, p: &str) -> (r: bool)
    ensures
        r == contains(s@, p@),
{
    let pc = chars_of(p);
    contains_exec(s, &pc)
}

/// `str::starts_with` with a string literal pattern.
pub fn starts_with_str(s: &Vec<char>, p: &str) -> (r: bool)
    ensures
        r == starts_with(s@, p@),
{
    let pc = chars_of(p);
    occurs_at_exec(s, &pc, 0)
}

/// The index of the first `c` in `s`.
pub open spec fn find_char(s: Seq<char>, c: char) -> Option<int>
    decreases s.len(),
{
    if s.len() == 0 {
        None
    } else if s[0] == c {
        Some(0)
    } else {
        match find_char(s.drop_first(), c) {
            Some(i) => Some(i + 1),
            None => None,
        }
    }
}

pub proof fn lemma_find_char(s: Seq<char>, c: char)
    ensures
        find_char(s, c) matches Some(i) ==> 0 <= i < s.len() && s[i] == c && forall|j: int|
            0 <= j < i ==> s[j] != c,
        find_char(s, c) is None ==> forall|j: int| 0 <= j < s.len() ==> s[j] != c,
    decreases s.len(),
{
    if s.len() > 0 && s[0] != c {
        lemma_find_char(s.drop_first(), c);
        assert forall|j: int| 1 <= j < s.len() implies s[j] == s.drop_first()[j - 1] by {}
    }
}

pub proof fn lemma_digits_value_step(s: Seq<char>, radix: nat)
    requires
        s.len() > 0,
        radix >= 1,
        digit_value(s.last(), radix) is Some,
    ensures
        digits_value(s.drop_last(), radix) <= digits_value(s, radix),
{
    let v = digits_value(s.drop_last(), radix);
    assert(digits_value(s, radix) == v * radix + digit_value(s.last(), radix).unwrap());
    assert(v * radix >= v) by (nonlinear_arith)
        requires
            radix >= 1,
    ;
}

/// The index of the first `c` in `s[from..]`, as an index of `s`.
pub fn find_char_exec(s: &Vec<char>, c: char, from: usize) -> (r: Option<usize>)
    requires
        from <= s@.len(),
    ensures
        r matches Some(i) ==> find_char(s@.skip(from as int), c) == Some(i - from) && from <= i
            && i < s@.len(),
        r is None ==> find_char(s@.skip(from as int), c) is None,
{
    let mut i: usize = from;
    while i < s.len()
        invariant
            from <= i <= s@.len(),
            forall|j: int| from <= j < i ==> s@[j] != c,
        decreases s@.len() - i,
    {
        if s[i] == c {
            proof {
                lemma_find_char(s@.skip(from as int), c);
                let t = s@.skip(from as int);
                assert(t[i - from] == c);
                if let Some(k) = find_char(t, c) {
                    if k < i - from {
                        assert(t[k] == s@[from + k]);
                    }
                }
            }
            return Some(i);
        }
        i = i + 1;
    }
    proof {
        lemma_find_char(s@.skip(from as int), c);
        let t = s@.skip(from as int);
        if let Some(k) = find_char(t, c) {
            assert(t[k] == s@[from + k]);
        }
    }
    None
}

// ---------------------------------------------------------------------------
// Trimming and tokens
// ---------------------------------------------------------------------------

/// `str::trim_start`.
pub open spec fn trim_start(s: Seq<char>) -> Seq<char>
    decreases s.len(),
{
    if s.len() > 0 && is_ws(s[0]) {
        trim_start(s.drop_first())
    } else {
        s
    }
}

/// `str::trim_end`.
pub open spec fn trim_end(s: Seq<char>) -> Seq<char>
    decreases s.len(),
{
    if s.len() > 0 && is_ws(s.last()) {
        trim_end(s.drop_last())
    } else {
        s
    }
}

/// `str::trim`.
pub open spec fn trim(s: Seq<char>) -> Seq<char> {
    trim_end(trim_start(s))
}

/// Number of characters before the first whitespace.
pub open spec fn word_len(s: Seq<char>) -> nat
    decreases s.len(),
{
    if s.len() == 0 || is_ws(s[0]) {
        0
    } else {
        1 + word_len(s.drop_first())
    }
}

/// Number of characters after the last whitespace.
pub open spec fn tail_word_len(s: Seq<char>) -> nat
    decreases s.len(),
{
    if s.len() == 0 || is_ws(s.last()) {
        0
    } else {
        1 + tail_word_len(s.drop_last())
    }
}

/// `s.split_whitespace().next()`.
pub open spec fn first_word(s: Seq<char>) -> Option<Seq<char>> {
    let t = trim_start(s);
    if t.len() == 0 {
        None
    } else {
        Some(t.take(word_len(t) as int))
    }
}

/// What follows the first whitespace-separated word of `s`.
pub open spec fn after_word(s: Seq<char>) -> Seq<char> {
    let t = trim_start(s);
    t.skip(word_len(t) as int)
}

/// `s.split_whitespace().nth(n)`.
pub open spec fn nth_word(s: Seq<char>, n: nat) -> Option<Seq<char>>
    decreases n,
{
    if n == 0 {
        first_word(s)
    } else {
        nth_word(after_word(s), (n - 1) as nat)
    }
}

/// `s.split_whitespace().last()`.
pub open spec fn last_word(s: Seq<char>) -> Option<Seq<char>> {
    let t = trim_end(s);
    if t.len() == 0 {
        None
    } else {
        Some(t.skip(t.len() - tail_word_len(t)))
    }
}

pub proof fn lemma_trim_start_is_suffix(s: Seq<char>, i: int)
    requires
        0 <= i <= s.len(),
        forall|j: int| 0 <= j < i ==> is_ws(s[j]),
    ensures
        trim_start(s) == trim_start(s.skip(i)),
    decreases i,
{
    if i > 0 {
        assert(s.drop_first().skip(i - 1) =~= s.skip(i));
        assert forall|j: int| 0 <= j < i - 1 implies is_ws(s.drop_first()[j]) by {
            assert(s.drop_first()[j] == s[j + 1]);
        }
        lemma_trim_start_is_suffix(s.drop_first(), i - 1);
    } else {
        assert(s.skip(0) =~= s);
    }
}

pub proof fn lemma_trim_end_is_prefix(s: Seq<char>, i: int)
    requires
        0 <= i <= s.len(),
        forall|j: int| i <= j < s.len() ==> is_ws(s[j]),
    ensures
        trim_end(s) == trim_end(s.take(i)),
    decreases s.len() - i,
{
    if i < s.len() {
        assert(s.drop_last().take(i) =~= s.take(i));
        lemma_trim_end_is_prefix(s.drop_last(), i);
    } else {
        assert(s.take(i) =~= s);
    }
}

pub proof fn lemma_word_len(s: Seq<char>, i: int)
    requires
        0 <= i <= s.len(),
        forall|j: int| 0 <= j < i ==> !is_ws(s[j]),
        i == s.len() || is_ws(s[i]),
    ensures
        word_len(s) == i,
    decreases i,
{
    if i > 0 {
        assert forall|j: int| 0 <= j < i - 1 implies !is_ws(s.drop_first()[j]) by {
            assert(s.drop_first()[j] == s[j + 1]);
        }
        if i < s.len() {
            assert(s.drop_first()[i - 1] == s[i]);
        }
        lemma_word_len(s.drop_first(), i - 1);
    }
}

pub proof fn lemma_tail_word_len(s: Seq<char>, i: int)
    requires
        0 <= i <= s.len(),
        forall|j: int| i <= j < s.len() ==> !is_ws(s[j]),
        i == 0 || is_ws(s[i - 1]),
    ensures
        tail_word_len(s) == s.len() - i,
    decreases s.len() - i,
{
    if i < s.len() {
        lemma_tail_word_len(s.drop_last(), i);
    }
}

/// Index of the first non-whitespace character of `s[from..]`.
pub fn skip_ws(s: &Vec<char>, from: usize) -> (r: usize)
    requires
        from <= s@.len(),
    ensures
        from <= r <= s@.len(),
        trim_start(s@.skip(from as int)) == s@.skip(r as int),
        forall|j: int| from <= j < r ==> is_ws(s@[j]),
{
    let mut i: usize = from;
    while i < s.len() && is_ws_exec(s[i])
        invariant
            from <= i <= s@.len(),
            forall|j: int| from <= j < i ==> is_ws(s@[j]),
        decreases s@.len() - i,
    {
        i = i + 1;
    }
    proof {
        let t = s@.skip(from as int);
        assert forall|j: int| 0 <= j < i - from implies is_ws(t[j]) by {}
        lemma_trim_start_is_suffix(t, i - from);
        assert(t.skip(i - from) =~= s@.skip(i as int));
        let u = s@.skip(i as int);
        if u.len() > 0 {
            assert(u[0] == s@[i as int]);
        }
        assert(trim_start(u) == u);
    }
    i
}

/// Index one past the last non-whitespace character of `s[..to]`.
pub fn skip_ws_back(s: &Vec<char>, to: usize) -> (r: usize)
    requires
        to <= s@.len(),
    ensures
        r <= to,
        trim_end(s@.take(to as int)) == s@.take(r as int),
        forall|j: int| r <= j < to ==> is_ws(s@[j]),
{
    let mut i: usize = to;
    while i > 0 && is_ws_exec(s[i - 1])
        invariant
            i <= to <= s@.len(),
            forall|j: int| i <= j < to ==> is_ws(s@[j]),
        decreases i,
    {
        i = i - 1;
    }
    proof {
        let t = s@.take(to as int);
        lemma_trim_end_is_prefix(t, i as int);
        assert(t.take(i as int) =~= s@.take(i as int));
        let u = s@.take(i as int);
        if u.len() > 0 {
            assert(u.last() == s@[i - 1]);
        }
        assert(trim_end(u) == u);
    }
    i
}

/// `str::trim` on a buffer.
pub fn trim_exec(s: &Vec<char>) -> (r: Vec<char>)
    ensures
        r@ == trim(s@),
{
    let a = skip_ws(s, 0);
    assert(s@.skip(0) =~= s@);
    let b = skip_ws_back(s, s.len());
    assert(s@.take(s@.len() as int) =~= s@);
    // trim_start(s) == s[a..]; trim_end of that.
    let t = slice_vec(s, a, s.len());
    assert(t@ =~= s@.skip(a as int));
    let c = skip_ws_back(&t, t.len());
    assert(t@.take(t@.len() as int) =~= t@);
    slice_vec(&t, 0, c)
}

/// `str::trim` on a string.
pub fn trim_str(s: &str) -> (r: Vec<char>)
    ensures
        r@ == trim(s@),
{
    let cs = chars_of(s);
    trim_exec(&cs)
}

/// The first whitespace-separated word of `s[from..]`, as an index range.
pub fn first_word_exec(s: &Vec<char>, from: usize) -> (r: Option<(usize, usize)>)
    requires
        from <= s@.len(),
    ensures
        r matches Some((a, b)) ==> from <= a <= b <= s@.len() && first_word(s@.skip(from as int))
            == Some(s@.subrange(a as int, b as int)) && after_word(s@.skip(from as int)) == s@.skip(
            b as int,
        ),
        r is None ==> first_word(s@.skip(from as int)) is None,
{
    let a = skip_ws(s, from);
    if a == s.len() {
        return None;
    }
    let mut b: usize = a;
    while b < s.len() && !is_ws_exec(s[b])
        invariant
            a <= b <= s@.len(),
            forall|j: int| a <= j < b ==> !is_ws(s@[j]),
        decreases s@.len() - b,
    {
        b = b + 1;
    }
    proof {
        let t = s@.skip(a as int);
        assert forall|j: int| 0 <= j < b - a implies !is_ws(t[j]) by {}
        if b < s@.len() {
            assert(t[b - a] == s@[b as int]);
        }
        lemma_word_len(t, b - a);
        assert(t.take(b - a) =~= s@.subrange(a as int, b as int));
        assert(t.skip(b - a) =~= s@.skip(b as int));
    }
    Some((a, b))
}

/// The last whitespace-separated word of `s`, as an index range.
pub fn last_word_exec(s: &Vec<char>) -> (r: Option<(usize, usize)>)
    ensures
        r matches Some((a, b)) ==> a <= b <= s@.len() && last_word(s@) == Some(
            s@.subrange(a as int, b as int),
        ),
        r is None ==> last_word(s@) is None,
{
    let b = skip_ws_back(s, s.len());
    assert(s@.take(s@.len() as int) =~= s@);
    if b == 0 {
        return None;
    }
    let mut a: usize = b;
    while a > 0 && !is_ws_exec(s[a - 1])
        invariant
            a <= b <= s@.len(),
            forall|j: int| a <= j < b ==> !is_ws(s@[j]),
        decreases a,
    {
        a = a - 1;
    }
    proof {
        let t = s@.take(b as int);
        assert forall|j: int| a <= j < t.len() implies !is_ws(t[j]) by {}
        lemma_tail_word_len(t, a as int);
        assert(t.skip(t.len() - tail_word_len(t)) =~= s@.subrange(a as int, b as int));
    }
    Some((a, b))
}

// ---------------------------------------------------------------------------
// Splitting
// ---------------------------------------------------------------------------

/// `str::split` on a single character separator, as a sequence of parts.
pub open spec fn split_char(s: Seq<char>, sep: char) -> Seq<Seq<char>>
    decreases s.len(),
{
    match find_char(s, sep) {
        None => seq![s],
        Some(i) => {
            proof {
                lemma_find_char(s, sep);
            }
            seq![s.take(i)] + split_char(s.skip(i + 1), sep)
        },
    }
}

/// `s.split(p).nth(1)`: the text between the first and the second
/// occurrence of `p` (or the end), when `p` occurs at all.
pub open spec fn after_first(s: Seq<char>, p: Seq<char>) -> Option<Seq<char>> {
    match find(s, p) {
        None => None,
        Some(i) => {
            let rest = s.skip(i + p.len());
            match find(rest, p) {
                None => Some(rest),
                Some(j) => Some(rest.take(j)),
            }
        },
    }
}

/// `s.split(p).nth(1)` for a non-empty pattern, as an index range of `s`.
pub fn after_first_exec(s: &Vec<char>, p: &Vec<char>) -> (r: Option<(usize, usize)>)
    requires
        p@.len() > 0,
    ensures
        r matches Some((a, b)) ==> a <= b <= s@.len() && after_first(s@, p@) == Some(
            s@.subrange(a as int, b as int),
        ),
        r is None ==> after_first(s@, p@) is None,
{
    match find_exec(s, p) {
        None => None,
        Some(i) => {
            proof {
                lemma_find(s@, p@);
                assert(occurs_at(s@, p@, i as int));
                assert(s@.len() == s.len());
            }
            let a = i + p.len();
            let rest = slice_vec(s, a, s.len());
            assert(rest@ =~= s@.skip(a as int));
            match find_exec(&rest, p) {
                None => Some((a, s.len())),
                Some(j) => {
                    proof {
                        lemma_find(rest@, p@);
                        assert(rest@.take(j as int) =~= s@.subrange(a as int, a + j));
                    }
                    Some((a, a + j))
                },
            }
        },
    }
}

/// `s.split(sep)` on a single character, as index ranges of `s`.
pub fn split_char_exec(s: &Vec<char>, sep: char) -> (r: Vec<(usize, usize)>)
    ensures
        r@.len() == split_char(s@, sep).len(),
        forall|k: int| 0 <= k < r@.len() ==> (#[trigger] r@[k]).0 <= r@[k].1 && r@[k].1 <= s@.len(),
        forall|k: int|
            0 <= k < r@.len() ==> #[trigger] split_char(s@, sep)[k] == s@.subrange(
                r@[k].0 as int,
                r@[k].1 as int,
            ),
{
    let mut out: Vec<(usize, usize)> = Vec::new();
    let mut start: usize = 0;
    assert(s@.skip(0) =~= s@);
    assert(out@.map_values(|p: (usize, usize)| s@.subrange(p.0 as int, p.1 as int)) =~= Seq::<
        Seq<char>,
    >::empty());
    loop
        invariant
            start <= s@.len(),
            s@.len() == s.len(),
            split_char(s@, sep) == out@.map_values(
                |p: (usize, usize)| s@.subrange(p.0 as int, p.1 as int),
            ) + split_char(s@.skip(start as int), sep),
            forall|k: int| 0 <= k < out@.len() ==> (#[trigger] out@[k]).0 <= out@[k].1 <= s@.len(),
        decreases s@.len() - start,
    {
        let ghost t = s@.skip(start as int);
        match find_char_exec(s, sep, start) {
            None => {
                let ghost old_out = out@;
                out.push((start, s.len()));
                proof {
                    assert(split_char(t, sep) == seq![t]);
                    assert(s@.subrange(start as int, s@.len() as int) =~= t);
                    assert(out@.map_values(
                        |p: (usize, usize)| s@.subrange(p.0 as int, p.1 as int),
                    ) =~= old_out.map_values(
                        |p: (usize, usize)| s@.subrange(p.0 as int, p.1 as int),
                    ) + seq![t]);
                    let m = out@.map_values(
                        |p: (usize, usize)| s@.subrange(p.0 as int, p.1 as int),
                    );
                    assert forall|k: int| 0 <= k < out@.len() implies #[trigger] split_char(
                        s@,
                        sep,
                    )[k] == s@.subrange(out@[k].0 as int, out@[k].1 as int) by {
                        assert(m[k] == s@.subrange(out@[k].0 as int, out@[k].1 as int));
                    }
                }
                return out;
            },
            Some(i) => {
                let ghost old_out = out@;
                out.push((start, i));
                proof {
                    lemma_find_char(t, sep);
                    assert(split_char(t, sep) == seq![t.take(i - start)] + split_char(
                        t.skip(i - start + 1),
                        sep,
                    ));
                    assert(t.take(i - start) =~= s@.subrange(start as int, i as int));
                    assert(t.skip(i - start + 1) =~= s@.skip(i + 1));
                    assert(out@.map_values(
                        |p: (usize, usize)| s@.subrange(p.0 as int, p.1 as int),
                    ) =~= old_out.map_values(
                        |p: (usize, usize)| s@.subrange(p.0 as int, p.1 as int),
                    ) + seq![s@.subrange(start as int, i as int)]);
                    lemma_find_char(t, sep);
                }
                start = i + 1;
            },
        }
    }
}

// ---------------------------------------------------------------------------
// Numbers
// ---------------------------------------------------------------------------

/// All characters are digits of `radix`.
pub open spec fn all_digits(s: Seq<char>, radix: nat) -> bool {
    forall|i: int| 0 <= i < s.len() ==> digit_value(#[trigger] s[i], radix) is Some
}

/// The value of a digit string in `radix`, most significant digit first.
pub open spec fn digits_value(s: Seq<char>, radix: nat) -> nat
    decreases s.len(),
{
    if s.len() == 0 {
        0
    } else {
        digits_value(s.drop_last(), radix) * radix + digit_value(s.last(), radix).unwrap()
    }
}

/// What `u8::from_str_radix` accepts: an optional `+` and at least one digit.
pub open spec fn parse_unsigned(s: Seq<char>, radix: nat) -> Option<nat> {
    let body = if s.len() > 0 && s[0] == '+' {
        s.drop_first()
    } else {
        s
    };
    if body.len() == 0 || !all_digits(body, radix) {
        None
    } else {
        Some(digits_value(body, radix))
    }
}

/// What the signed integer parsers accept: an optional `+` or `-` and at
/// least one decimal digit.
pub open spec fn parse_signed(s: Seq<char>) -> Option<int> {
    let neg = s.len() > 0 && s[0] == '-';
    let body = if s.len() > 0 && (s[0] == '+' || s[0] == '-') {
        s.drop_first()
    } else {
        s
    };
    if body.len() == 0 || !all_digits(body, 10) {
        None
    } else if neg {
        Some(-digits_value(body, 10))
    } else {
        Some(digits_value(body, 10) as int)
    }
}

/// `u8::from_str_radix(s, radix)`.
pub open spec fn parse_u8_radix(s: Seq<char>, radix: nat) -> Option<u8> {
    match parse_unsigned(s, radix) {
        Some(v) => if v <= 255 {
            Some(v as u8)
        } else {
            None
        },
        None => None,
    }
}

/// `s.parse::<i32>()`.
pub open spec fn parse_i32(s: Seq<char>) -> Option<i32> {
    match parse_signed(s) {
        Some(v) => if i32::MIN <= v <= i32::MAX {
            Some(v as i32)
        } else {
            None
        },
        None => None,
    }
}

pub proof fn lemma_digits_value_mono(s: Seq<char>, radix: nat, k: int)
    requires
        0 <= k <= s.len(),
        radix >= 1,
        all_digits(s, radix),
    ensures
        digits_value(s.take(k), radix) <= digits_value(s, radix),
    decreases s.len() - k,
{
    if k < s.len() {
        assert(s.drop_last().take(k) =~= s.take(k));
        assert forall|i: int| 0 <= i < s.drop_last().len() implies digit_value(
            #[trigger] s.drop_last()[i],
            radix,
        ) is Some by {
            assert(s.drop_last()[i] == s[i]);
        }
        lemma_digits_value_mono(s.drop_last(), radix, k);
        assert(digit_value(s[s.len() - 1], radix) is Some);
        lemma_digits_value_step(s, radix);
    } else {
        assert(s.take(k) =~= s);
    }
}

/// The value of the digits `s[lo..hi]` in `radix`, when it is at most
/// `bound`; `None` when some character is not a digit or the value exceeds
/// `bound`.
pub fn digits_value_exec(s: &Vec<char>, lo: usize, hi: usize, radix: u32, bound: u64) -> (r: Option<
    u64,
>)
    requires
        lo <= hi <= s@.len(),
        2 <= radix <= 16,
        bound <= u32::MAX,
    ensures
        ({
            let d = s@.subrange(lo as int, hi as int);
            match r {
                Some(v) => all_digits(d, radix as nat) && digits_value(d, radix as nat) == v && v
                    <= bound,
                None => !all_digits(d, radix as nat) || digits_value(d, radix as nat) > bound,
            }
        }),
{
    let ghost d = s@.subrange(lo as int, hi as int);
    let mut v: u64 = 0;
    let mut i: usize = lo;
    let mut over = false;
    while i < hi
        invariant
            lo <= i <= hi <= s@.len(),
            2 <= radix <= 16,
            bound <= u32::MAX,
            d == s@.subrange(lo as int, hi as int),
            all_digits(d.take(i - lo), radix as nat),
            !over ==> v == digits_value(d.take(i - lo), radix as nat) && v <= bound,
            over ==> digits_value(d.take(i - lo), radix as nat) > bound,
        decreases hi - i,
    {
        let dv = digit_value_exec(s[i], radix);
        match dv {
            None => {
                assert(d[i - lo] == s@[i as int]);
                assert(digit_value(d[i - lo], radix as nat) is None);
                return None;
            },
            Some(x) => {
                proof {
                    let p = d.take(i - lo + 1);
                    assert(p.drop_last() =~= d.take(i - lo));
                    assert(p.last() == s@[i as int]);
                    assert forall|j: int| 0 <= j < p.len() implies digit_value(
                        #[trigger] p[j],
                        radix as nat,
                    ) is Some by {
                        if j < p.len() - 1 {
                            assert(p[j] == d.take(i - lo)[j]);
                        }
                    }
                    let pv = digits_value(d.take(i - lo), radix as nat);
                    assert(digits_value(p, radix as nat) == pv * radix + x);
                    assert(pv * radix >= pv) by (nonlinear_arith)
                        requires
                            radix >= 2,
                    ;
                }
                if !over {
                    assert(v * (radix as u64) <= 16 * 0xffff_ffffu64) by (nonlinear_arith)
                        requires
                            v <= 0xffff_ffffu64,
                            radix <= 16,
                    ;
                    let nv: u64 = v * (radix as u64) + (x as u64);
                    if nv > bound {
                        over = true;
                    } else {
                        v = nv;
                    }
                }
                i = i + 1;
            },
        }
    }
    assert(d.take(hi - lo) =~= d);
    if over {
        None
    } else {
        Some(v)
    }
}

/// `u8::from_str_radix(&s[lo..hi], radix)`.
pub fn parse_u8_radix_exec(s: &Vec<char>, lo: usize, hi: usize, radix: u32) -> (r: Option<u8>)
    requires
        lo <= hi <= s@.len(),
        2 <= radix <= 16,
    ensures
        r == parse_u8_radix(s@.subrange(lo as int, hi as int), radix as nat),
{
    let ghost d = s@.subrange(lo as int, hi as int);
    let mut a = lo;
    if lo < hi && s[lo] == '+' {
        a = lo + 1;
        assert(d.drop_first() =~= s@.subrange(a as int, hi as int));
    }
    if a == hi {
        return None;
    }
    match digits_value_exec(s, a, hi, radix, 255) {
        Some(v) => Some(v as u8),
        None => None,
    }
}

/// `s[lo..hi].parse::<i32>()`.
pub fn parse_i32_exec(s: &Vec<char>, lo: usize, hi: usize) -> (r: Option<i32>)
    requires
        lo <= hi <= s@.len(),
    ensures
        r == parse_i32(s@.subrange(lo as int, hi as int)),
{
    let ghost d = s@.subrange(lo as int, hi as int);
    let mut a = lo;
    let mut neg = false;
    if lo < hi && (s[lo] == '+' || s[lo] == '-') {
        neg = s[lo] == '-';
        a = lo + 1;
        assert(d.drop_first() =~= s@.subrange(a as int, hi as int));
    }
    if a == hi {
        return None;
    }
    let bound: u64 = if neg {
        2147483648
    } else {
        2147483647
    };
    match digits_value_exec(s, a, hi, 10, bound) {
        Some(v) => {
            if neg {
                let w: i64 = -(v as i64);
                Some(w as i32)
            } else {
                Some(v as i32)
            }
        },
        None => None,
    }
}

/// `s.parse::<i32>()` on a string.
pub fn parse_i32_str(s: &Vec<char>) -> (r: Option<i32>)
    ensures
        r == parse_i32(s@),
{
    assert(s@.subrange(0, s@.len() as int) =~= s@);
    parse_i32_exec(s, 0, s.len())
}

} // verus!

verus! {

/// `find_char` finds the first occurrence.
pub proof fn lemma_find_char_first(s: Seq<char>, c: char, i: int)
    requires
        0 <= i < s.len(),
        s[i] == c,
        forall|j: int| 0 <= j < i ==> s[j] != c,
    ensures
        find_char(s, c) == Some(i),
    decreases i,
{
    if i > 0 {
        assert forall|j: int| 0 <= j < i - 1 implies s.drop_first()[j] != c by {
            assert(s.drop_first()[j] == s[j + 1]);
        }
        lemma_find_char_first(s.drop_first(), c, i - 1);
    }
}

/// Splitting a text with no separator gives the text itself.
pub proof fn lemma_split_char_none(s: Seq<char>, sep: char)
    requires
        forall|j: int| 0 <= j < s.len() ==> s[j] != sep,
    ensures
        split_char(s, sep) == seq![s],
{
    lemma_find_char(s, sep);
}

/// Splitting `a`, the separator, then `b`, when `a` holds no separator.
pub proof fn lemma_split_char_cons(a: Seq<char>, b: Seq<char>, sep: char)
    requires
        forall|j: int| 0 <= j < a.len() ==> a[j] != sep,
    ensures
        split_char(a + seq![sep] + b, sep) == seq![a] + split_char(b, sep),
{
    let s = a + seq![sep] + b;
    assert forall|j: int| 0 <= j < a.len() implies s[j] != sep by {
        assert(s[j] == a[j]);
    }
    lemma_find_char_first(s, sep, a.len() as int);
    assert(s.take(a.len() as int) =~= a);
    assert(s.skip(a.len() + 1 as int) =~= b);
}

/// The decimal text of a number is made of digits, reads back as the
/// number, has no leading zero, and is as long as the number needs.
pub proof fn lemma_nat_text_decimal(n: nat)
    ensures
        nat_text(n).len() >= 1,
        all_digits(nat_text(n), 10),
        digits_value(nat_text(n), 10) == n,
        n >= 1 ==> nat_text(n)[0] != '0',
        n < 10 ==> nat_text(n).len() == 1,
        n < 100 ==> nat_text(n).len() <= 2,
        n < 1000 ==> nat_text(n).len() <= 3,
    decreases n,
{
    let t = nat_text(n);
    if n < 10 {
        assert(t == seq![digit_char(n)]);
        assert(t.drop_last() =~= Seq::<char>::empty());
        assert(digit_value(digit_char(n), 10) == Some(n));
        assert(digits_value(Seq::<char>::empty(), 10) == 0);
        assert(digits_value(t, 10) == digits_value(t.drop_last(), 10) * 10 + n);
    } else {
        lemma_nat_text_decimal(n / 10);
        let u = nat_text(n / 10);
        assert(t == u.push(digit_char(n % 10)));
        assert(t.drop_last() =~= u);
        assert(digit_value(digit_char(n % 10), 10) == Some(n % 10));
        assert forall|i: int| 0 <= i < t.len() implies digit_value(#[trigger] t[i], 10) is Some by {
            if i < u.len() {
                assert(t[i] == u[i]);
            }
        }
        assert(t[0] == u[0]);
        assert(digits_value(t, 10) == digits_value(u, 10) * 10 + n % 10);
        assert((n / 10) * 10 + n % 10 == n);
    }
}

/// A text that neither starts nor ends with whitespace is its own trim.
pub proof fn lemma_trim_noop(s: Seq<char>)
    requires
        s.len() > 0,
        !is_ws(s[0]),
        !is_ws(s.last()),
    ensures
        trim(s) == s,
{
}

/// A text without upper-case ASCII letters is its own ASCII lower-case.
pub proof fn lemma_ascii_lower_noop(s: Seq<char>)
    requires
        forall|j: int| 0 <= j < s.len() ==> !('A' <= #[trigger] s[j] && s[j] <= 'Z'),
    ensures
        ascii_lower_seq(s) == s,
{
    assert(ascii_lower_seq(s) =~= s);
}

} // verus!

verus! {

/// `str::lines`: pieces ending at each `\n` (the `\n`, and a `\r` before
/// it, removed); no piece after a final `\n`.
pub open spec fn lines(s: Seq<char>) -> Seq<Seq<char>>
    decreases s.len(),
{
    if s.len() == 0 {
        seq![]
    } else {
        match find_char(s, '\n') {
            None => seq![s],
            Some(i) => {
                proof {
                    lemma_find_char(s, '\n');
                }
                let l = s.take(i);
                let l2 = if l.len() > 0 && l.last() == '\r' {
                    l.drop_last()
                } else {
                    l
                };
                seq![l2] + lines(s.skip(i + 1))
            },
        }
    }
}

/// `str::lines`, as index ranges of `s`.
pub fn lines_exec(s: &Vec<char>) -> (r: Vec<(usize, usize)>)
    ensures
        r@.len() == lines(s@).len(),
        forall|k: int| 0 <= k < r@.len() ==> (#[trigger] r@[k]).0 <= r@[k].1 && r@[k].1 <= s@.len(),
        forall|k: int|
            0 <= k < r@.len() ==> #[trigger] lines(s@)[k] == s@.subrange(
                r@[k].0 as int,
                r@[k].1 as int,
            ),
{
    let mut out: Vec<(usize, usize)> = Vec::new();
    let mut start: usize = 0;
    assert(s@.skip(0) =~= s@);
    while start < s.len()
        invariant
            start <= s@.len(),
            s@.len() == s.len(),
            lines(s@) == out@.map_values(
                |p: (usize, usize)| s@.subrange(p.0 as int, p.1 as int),
            ) + lines(s@.skip(start as int)),
            forall|k: int| 0 <= k < out@.len() ==> (#[trigger] out@[k]).0 <= out@[k].1 <= s@.len(),
        decreases s@.len() - start,
    {
        let ghost t = s@.skip(start as int);
        let ghost old_out = out@;
        match find_char_exec(s, '\n', start) {
            None => {
                out.push((start, s.len()));
                proof {
                    assert(lines(t) == seq![t]);
                    assert(s@.subrange(start as int, s@.len() as int) =~= t);
                    assert(out@.map_values(
                        |p: (usize, usize)| s@.subrange(p.0 as int, p.1 as int),
                    ) =~= old_out.map_values(
                        |p: (usize, usize)| s@.subrange(p.0 as int, p.1 as int),
                    ) + seq![t]);
                    assert(s@.skip(s@.len() as int) =~= Seq::<char>::empty());
                }
                start = s.len();
            },
            Some(i) => {
                let e = if i > start && s[i - 1] == '\r' {
                    i - 1
                } else {
                    i
                };
                out.push((start, e));
                proof {
                    lemma_find_char(t, '\n');
                    let l = t.take(i - start);
                    assert(l =~= s@.subrange(start as int, i as int));
                    if l.len() > 0 {
                        assert(l.last() == s@[i - 1]);
                    }
                    let l2 = if l.len() > 0 && l.last() == '\r' {
                        l.drop_last()
                    } else {
                        l
                    };
                    assert(l2 =~= s@.subrange(start as int, e as int));
                    assert(t.skip(i - start + 1) =~= s@.skip(i + 1));
                    assert(out@.map_values(
                        |p: (usize, usize)| s@.subrange(p.0 as int, p.1 as int),
                    ) =~= old_out.map_values(
                        |p: (usize, usize)| s@.subrange(p.0 as int, p.1 as int),
                    ) + seq![l2]);
                }
                start = i + 1;
            },
        }
    }
    proof {
        assert(s@.skip(start as int) =~= Seq::<char>::empty());
        let m = out@.map_values(|p: (usize, usize)| s@.subrange(p.0 as int, p.1 as int));
        assert(lines(s@) =~= m);
        assert forall|k: int| 0 <= k < out@.len() implies #[trigger] lines(s@)[k]
            == s@.subrange(out@[k].0 as int, out@[k].1 as int) by {
            assert(m[k] == s@.subrange(out@[k].0 as int, out@[k].1 as int));
        }
    }
    out
}

} // verus!
