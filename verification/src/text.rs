//! Character-level utilities on `&str`: locating a separator, splitting,
//! and equality, each specified over the string's view (`Seq<char>`).

use vstd::prelude::*;
use vstd::string::*;

verus! {

/// Index of the first occurrence of `c` in `s`, if any.
pub open spec fn find_ch(s: Seq<char>, c: char) -> Option<int>
    decreases s.len(),
{
    if s.len() == 0 {
        None
    } else if s[0] == c {
        Some(0int)
    } else {
        match find_ch(s.drop_first(), c) {
            Some(i) => Some(i + 1),
            None => None,
        }
    }
}

/// `find_ch` returns the least index holding `c`, or `None` when `c`
/// does not occur.
pub proof fn lemma_find_ch(s: Seq<char>, c: char)
    ensures
        match find_ch(s, c) {
            Some(i) => 0 <= i < s.len() && s[i] == c && (forall|j: int| 0 <= j < i ==> s[j] != c),
            None => forall|j: int| 0 <= j < s.len() ==> s[j] != c,
        },
    decreases s.len(),
{
    if s.len() > 0 && s[0] != c {
        lemma_find_ch(s.drop_first(), c);
        match find_ch(s.drop_first(), c) {
            Some(i) => {
                assert(s[i + 1] == s.drop_first()[i]);
                assert forall|j: int| 0 <= j < i + 1 implies s[j] != c by {
                    if j > 0 {
                        assert(s[j] == s.drop_first()[j - 1]);
                    }
                }
            },
            None => {
                assert forall|j: int| 0 <= j < s.len() implies s[j] != c by {
                    if j > 0 {
                        assert(s[j] == s.drop_first()[j - 1]);
                    }
                }
            },
        }
    }
}

/// First index of `c` in `s`, scanning left to right.
pub fn find_char(s: &str, c: char) -> (r: Option<usize>)
    ensures
        match r {
            Some(i) => find_ch(s@, c) == Some(i as int),
            None => find_ch(s@, c) is None,
        },
{
    let n = s.unicode_len();
    let mut i: usize = 0;
    while i < n
        invariant
            n == s@.len(),
            i <= n,
            forall|j: int| 0 <= j < i ==> s@[j] != c,
        decreases n - i,
    {
        if s.get_char(i) == c {
            proof {
                lemma_find_ch(s@, c);
            }
            return Some(i);
        }
        i = i + 1;
    }
    proof {
        lemma_find_ch(s@, c);
    }
    None
}

/// String equality, specified over the views.
pub fn str_eq(a: &str, b: &str) -> (r: bool)
    ensures
        r == (a@ == b@),
{
    let n = a.unicode_len();
    if n != b.unicode_len() {
        return false;
    }
    let mut i: usize = 0;
    while i < n
        invariant
            n == a@.len(),
            n == b@.len(),
            i <= n,
            forall|j: int| 0 <= j < i ==> a@[j] == b@[j],
        decreases n - i,
    {
        if a.get_char(i) != b.get_char(i) {
            return false;
        }
        i = i + 1;
    }
    proof {
        assert(a@ =~= b@);
    }
    true
}

/// Index of the first occurrence of the two-character line terminator
/// `"\r\n"` in `s`, if any.
pub open spec fn find_crlf(s: Seq<char>) -> Option<int>
    decreases s.len(),
{
    if s.len() < 2 {
        None
    } else if s[0] == '\r' && s[1] == '\n' {
        Some(0int)
    } else {
        match find_crlf(s.drop_first()) {
            Some(i) => Some(i + 1),
            None => None,
        }
    }
}

/// `find_crlf` returns the least index starting a `"\r\n"` pair, or
/// `None` when no such pair occurs.
pub proof fn lemma_find_crlf(s: Seq<char>)
    ensures
        match find_crlf(s) {
            Some(i) => 0 <= i && i + 2 <= s.len() && s[i] == '\r' && s[i + 1] == '\n' && (forall|
                j: int,
            |
                0 <= j < i ==> !((#[trigger] s[j]) == '\r' && s[j + 1] == '\n')),
            None => forall|j: int|
                0 <= j && j + 2 <= s.len() ==> !((#[trigger] s[j]) == '\r' && s[j + 1] == '\n'),
        },
    decreases s.len(),
{
    if s.len() >= 2 && !(s[0] == '\r' && s[1] == '\n') {
        lemma_find_crlf(s.drop_first());
        match find_crlf(s.drop_first()) {
            Some(i) => {
                assert(s[i + 1] == s.drop_first()[i]);
                assert(s[i + 2] == s.drop_first()[i + 1]);
                assert forall|j: int| 0 <= j < i + 1 implies !((#[trigger] s[j]) == '\r' && s[j
                    + 1] == '\n') by {
                    if j > 0 {
                        assert(s[j] == s.drop_first()[j - 1]);
                        assert(s[j + 1] == s.drop_first()[j]);
                    }
                }
            },
            None => {
                assert forall|j: int| 0 <= j && j + 2 <= s.len() implies !((#[trigger] s[j]) == '\r'
                    && s[j + 1] == '\n') by {
                    if j > 0 {
                        assert(s[j] == s.drop_first()[j - 1]);
                        assert(s[j + 1] == s.drop_first()[j]);
                    }
                }
            },
        }
    }
}

/// First index starting a `"\r\n"` pair, scanning left to right.
pub fn find_crlf_str(s: &str) -> (r: Option<usize>)
    ensures
        match r {
            Some(i) => find_crlf(s@) == Some(i as int),
            None => find_crlf(s@) is None,
        },
{
    let n = s.unicode_len();
    if n < 2 {
        proof {
            lemma_find_crlf(s@);
        }
        return None;
    }
    let mut i: usize = 0;
    while i < n - 1
        invariant
            n == s@.len(),
            2 <= n,
            i <= n - 1,
            forall|j: int| 0 <= j < i ==> !((#[trigger] s@[j]) == '\r' && s@[j + 1] == '\n'),
        decreases n - i,
    {
        if s.get_char(i) == '\r' && s.get_char(i + 1) == '\n' {
            proof {
                lemma_find_crlf(s@);
            }
            return Some(i);
        }
        i = i + 1;
    }
    proof {
        lemma_find_crlf(s@);
    }
    None
}

/// The segments of `s` delimited by `sep`; always at least one segment,
/// and an empty `s` yields one empty segment.
pub open spec fn split_on(s: Seq<char>, sep: char) -> Seq<Seq<char>>
    decreases s.len(),
{
    match find_ch(s, sep) {
        Some(i) => if 0 <= i < s.len() {
            seq![s.take(i)] + split_on(s.skip(i + 1), sep)
        } else {
            seq![s]
        },
        None => seq![s],
    }
}

/// Unfolds `split_on` one step: the guard on the found index always holds.
pub proof fn lemma_split_on_step(s: Seq<char>, sep: char)
    ensures
        match find_ch(s, sep) {
            Some(i) => 0 <= i < s.len() && split_on(s, sep) == seq![s.take(i)] + split_on(
                s.skip(i + 1),
                sep,
            ),
            None => split_on(s, sep) == seq![s],
        },
{
    lemma_find_ch(s, sep);
}

/// Splitting never yields an empty list of segments.
pub proof fn lemma_split_on_len(s: Seq<char>, sep: char)
    ensures
        split_on(s, sep).len() >= 1,
    decreases s.len(),
{
    lemma_split_on_step(s, sep);
}

/// Splits `s` at every occurrence of `sep`.
pub fn split_str(s: &str, sep: char) -> (r: Vec<String>)
    ensures
        r.deep_view() == split_on(s@, sep),
{
    let mut parts: Vec<String> = Vec::new();
    let mut rest: &str = s;
    loop
        invariant
            split_on(s@, sep) =~= parts.deep_view() + split_on(rest@, sep),
        decreases rest@.len(),
    {
        let ghost parts_before = parts.deep_view();
        match find_char(rest, sep) {
            Some(i) => {
                proof {
                    lemma_split_on_step(rest@, sep);
                }
                let piece = rest.substring_char(0, i);
                parts.push(String::from_str(piece));
                let m = rest.unicode_len();
                let tail = rest.substring_char(i + 1, m);
                proof {
                    assert(piece@ =~= rest@.take(i as int));
                    assert(tail@ =~= rest@.skip(i + 1));
                    assert(parts.deep_view() =~= parts_before.push(piece@));
                    assert(parts_before.push(piece@) + split_on(tail@, sep) =~= parts_before + (
                    seq![rest@.take(i as int)] + split_on(rest@.skip(i + 1), sep)));
                }
                rest = tail;
            },
            None => {
                proof {
                    lemma_split_on_step(rest@, sep);
                }
                parts.push(String::from_str(rest));
                proof {
                    assert(parts.deep_view() =~= parts_before.push(rest@));
                    assert(parts_before.push(rest@) =~= parts_before + seq![rest@]);
                }
                return parts;
            },
        }
    }
}

} // verus!
