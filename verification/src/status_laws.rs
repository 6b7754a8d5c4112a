//! Laws of the `STATUS` reply parser.
use vstd::prelude::*;

use crate::status::{status_apply, status_fold, status_parse, StatusView};
use crate::text::{find_char, lemma_find_char, lines};

verus! {

/// Whether a `STATUS` line changes nothing: it has no `=`, or its key is
/// none that the status reads.
pub open spec fn ignored_line(line: Seq<char>) -> bool {
    match find_char(line, '=') {
        None => true,
        Some(i) => {
            let key = line.take(i);
            key != "bssid"@ && key != "freq"@ && key != "ssid"@ && key != "id"@ && key != "mode"@
                && key != "pairwise_cipher"@ && key != "group_cipher"@ && key != "key_mgmt"@ && key
                != "wpa_state"@ && key != "ip_address"@ && key != "eap_session_id"@ && key
                != "eap_method"@ && key != "identity"@
        },
    }
}

/// An ignored line leaves a status as it is.
pub proof fn lemma_ignored_line_apply(st: StatusView, line: Seq<char>)
    requires
        ignored_line(line),
    ensures
        status_apply(st, line) == st,
{
    reveal(status_apply);
    match find_char(line, '=') {
        None => {},
        Some(i) => {
            let key = line.take(i);
            assert(key != "bssid"@);
        },
    }
}

/// Folding one more line applies it to the folded status.
pub proof fn lemma_status_fold_push(st: StatusView, ls: Seq<Seq<char>>, l: Seq<char>)
    ensures
        status_fold(st, ls.push(l)) == status_apply(status_fold(st, ls), l),
    decreases ls.len(),
{
    if ls.len() > 0 {
        let st1 = status_apply(st, ls[0]);
        assert(ls.push(l)[0] == ls[0]);
        assert(ls.push(l).drop_first() =~= ls.drop_first().push(l));
        lemma_status_fold_push(st1, ls.drop_first(), l);
        assert(status_fold(st, ls) == status_fold(st1, ls.drop_first()));
        assert(status_fold(st, ls.push(l)) == status_fold(st1, ls.push(l).drop_first()));
    } else {
        let one = ls.push(l);
        assert(one.drop_first() =~= Seq::<Seq<char>>::empty());
        assert(one[0] == l);
        assert(status_fold(st, one) == status_fold(status_apply(st, l), one.drop_first()));
        assert(status_fold(status_apply(st, l), Seq::<Seq<char>>::empty()) == status_apply(st, l));
    }
}

/// A line that the status does not read, added after the others, leaves
/// the parsed status as it was.
pub proof fn lemma_ignored_line_kept(st: StatusView, ls: Seq<Seq<char>>, line: Seq<char>)
    requires
        ignored_line(line),
    ensures
        status_fold(st, ls.push(line)) == status_fold(st, ls),
{
    lemma_status_fold_push(st, ls, line);
    lemma_ignored_line_apply(status_fold(st, ls), line);
}


/// Folding lines that are all ignored after others changes nothing.
pub proof fn lemma_ignored_lines_kept(st: StatusView, a: Seq<Seq<char>>, b: Seq<Seq<char>>)
    requires
        forall|j: int| 0 <= j < b.len() ==> ignored_line(#[trigger] b[j]),
    ensures
        status_fold(st, a + b) == status_fold(st, a),
    decreases b.len(),
{
    if b.len() == 0 {
        assert(a + b =~= a);
    } else {
        let c = b.drop_last();
        assert(a + b =~= (a + c).push(b.last()));
        lemma_ignored_lines_kept(st, a, c);
        lemma_ignored_line_kept(st, a + c, b.last());
    }
}

/// The first `c` in a concatenation.
proof fn lemma_find_char_concat(s: Seq<char>, x: Seq<char>, c: char)
    ensures
        find_char(s + x, c) == match find_char(s, c) {
            Some(i) => Some(i),
            None => match find_char(x, c) {
                Some(j) => Some(s.len() + j),
                None => None,
            },
        },
    decreases s.len(),
{
    if s.len() == 0 {
        assert(s + x =~= x);
    } else {
        assert((s + x)[0] == s[0]);
        assert((s + x).drop_first() =~= s.drop_first() + x);
        lemma_find_char_concat(s.drop_first(), x, c);
    }
}

/// A text without a line break.
pub open spec fn one_line(l: Seq<char>) -> bool {
    forall|j: int| 0 <= j < l.len() ==> l[j] != '\n'
}

/// The lines that a line break and `l` add after the text `s`: an empty
/// line when `s` is empty or ends with a line break, then `l` unless it is
/// empty.
pub open spec fn added_lines(s: Seq<char>, l: Seq<char>) -> Seq<Seq<char>> {
    (if s.len() == 0 || s.last() == '\n' {
        seq![Seq::<char>::empty()]
    } else {
        Seq::empty()
    }) + (if l.len() == 0 {
        Seq::empty()
    } else {
        seq![l]
    })
}

proof fn lemma_lines_one(l: Seq<char>)
    requires
        one_line(l),
    ensures
        lines(l) == (if l.len() == 0 {
            Seq::<Seq<char>>::empty()
        } else {
            seq![l]
        }),
{
    lemma_find_char(l, '\n');
}

/// The lines of `s`, a line break and a line `l` are those of `s`, then
/// `added_lines`; unless the last line of `s` ends with a carriage return,
/// which only a following line break strips.
pub proof fn lemma_lines_append(s: Seq<char>, l: Seq<char>)
    requires
        one_line(l),
        s.len() == 0 || s.last() != '\r',
    ensures
        lines(s + seq!['\n'] + l) == lines(s) + added_lines(s, l),
    decreases s.len(),
{
    let nl = seq!['\n'] + l;
    let t = s + seq!['\n'] + l;
    assert(t =~= s + nl);
    lemma_find_char_concat(s, nl, '\n');
    assert(nl[0] == '\n');
    assert(find_char(nl, '\n') == Some(0int));
    lemma_find_char(s, '\n');
    lemma_lines_one(l);
    match find_char(s, '\n') {
        Some(i) => {
            let r = s.skip(i + 1);
            assert(t.take(i) =~= s.take(i));
            assert(t.skip(i + 1) =~= r + seq!['\n'] + l);
            if r.len() > 0 {
                assert(r.last() == s.last());
            } else {
                assert(s.last() == s[i]);
            }
            lemma_lines_append(r, l);
            assert(added_lines(r, l) == added_lines(s, l));
            assert(lines(t) =~= lines(s) + added_lines(s, l));
        },
        None => {
            if s.len() == 0 {
                assert(t =~= nl);
                assert(nl.take(0) =~= Seq::<char>::empty());
                assert(nl.skip(1) =~= l);
                assert(lines(t) =~= lines(s) + added_lines(s, l));
            } else {
                assert(t.take(s.len() as int) =~= s);
                assert(t.skip(s.len() as int + 1) =~= l);
                assert(s.last() != '\n');
                assert(lines(s) == seq![s]);
                assert(lines(t) =~= lines(s) + added_lines(s, l));
            }
        },
    }
}

/// A line that the status does not read, after a line break at the end of
/// a reply whose last line does not end in a carriage return, leaves what
/// `SupplicantStatus::parse` gives unchanged.
pub proof fn lemma_ignored_trailing_line(s: Seq<char>, l: Seq<char>)
    requires
        one_line(l),
        ignored_line(l),
        s.len() == 0 || s.last() != '\r',
    ensures
        status_parse(s + seq!['\n'] + l) == status_parse(s),
{
    lemma_lines_append(s, l);
    let b = added_lines(s, l);
    assert(find_char(Seq::<char>::empty(), '=') is None);
    assert(ignored_line(Seq::<char>::empty()));
    assert forall|j: int| 0 <= j < b.len() implies ignored_line(#[trigger] b[j]) by {}
    lemma_ignored_lines_kept(crate::status::empty_status(), lines(s), b);
}

} // verus!
