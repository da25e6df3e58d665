//! Validation of process configuration values: a pool size must be a
//! positive integer, a port must lie in 1..=65535. Both are read from
//! decimal text the way the standard unsigned parsers read it: an
//! optional leading `+`, then one or more digits, rejecting overflow.

use vstd::prelude::*;
use vstd::string::*;

verus! {

/// The value of a decimal digit, or -1 for any other character.
pub open spec fn digit_of(c: char) -> int {
    if c == '0' {
        0
    } else if c == '1' {
        1
    } else if c == '2' {
        2
    } else if c == '3' {
        3
    } else if c == '4' {
        4
    } else if c == '5' {
        5
    } else if c == '6' {
        6
    } else if c == '7' {
        7
    } else if c == '8' {
        8
    } else if c == '9' {
        9
    } else {
        -1
    }
}

/// Whether `c` is a decimal digit.
pub open spec fn is_digit(c: char) -> bool {
    digit_of(c) >= 0
}

/// Whether every character of `s` is a decimal digit.
pub open spec fn all_digits(s: Seq<char>) -> bool {
    forall|i: int| 0 <= i < s.len() ==> is_digit(#[trigger] s[i])
}

/// The value of the digit string `s`, most significant digit first.
pub open spec fn digits_val(s: Seq<char>) -> int
    decreases s.len(),
{
    if s.len() == 0 {
        0
    } else {
        digits_val(s.drop_last()) * 10 + digit_of(s.last())
    }
}

/// `s` without its single optional leading `+`.
pub open spec fn num_body(s: Seq<char>) -> Seq<char> {
    if s.len() > 0 && s[0] == '+' {
        s.drop_first()
    } else {
        s
    }
}

/// Whether `s` reads as an unsigned decimal integer no greater than
/// `bound`.
pub open spec fn uint_ok(s: Seq<char>, bound: int) -> bool {
    num_body(s).len() > 0 && all_digits(num_body(s)) && digits_val(num_body(s)) <= bound
}

/// The integer `s` reads as.
pub open spec fn uint_val(s: Seq<char>) -> int {
    digits_val(num_body(s))
}

/// A digit string's value is never negative.
pub proof fn lemma_digits_val_nonneg(s: Seq<char>)
    requires
        all_digits(s),
    ensures
        digits_val(s) >= 0,
    decreases s.len(),
{
    if s.len() > 0 {
        assert(forall|i: int| 0 <= i < s.drop_last().len() ==> s.drop_last()[i] == s[i]);
        lemma_digits_val_nonneg(s.drop_last());
    }
}

/// Extending a digit prefix by the digit at `i` multiplies its value by
/// ten and adds that digit.
pub proof fn lemma_digits_val_snoc(s: Seq<char>, i: int)
    requires
        0 <= i < s.len(),
    ensures
        digits_val(s.take(i + 1)) == digits_val(s.take(i)) * 10 + digit_of(s[i]),
{
    assert(s.take(i + 1).drop_last() =~= s.take(i));
    assert(s.take(i + 1).last() == s[i]);
}

/// A digit string's value is at least the value of any of its prefixes.
pub proof fn lemma_digits_val_prefix(s: Seq<char>, i: int)
    requires
        all_digits(s),
        0 <= i <= s.len(),
    ensures
        digits_val(s.take(i)) <= digits_val(s),
    decreases s.len() - i,
{
    if i < s.len() {
        lemma_digits_val_snoc(s, i);
        assert(forall|j: int| 0 <= j < i ==> s.take(i)[j] == s[j]);
        assert(all_digits(s.take(i)));
        lemma_digits_val_nonneg(s.take(i));
        assert(is_digit(s[i]));
        lemma_digits_val_prefix(s, i + 1);
    } else {
        assert(s.take(i) =~= s);
    }
}

/// The value of the digit `c`, or `None` for any other character.
fn digit_value(c: char) -> (r: Option<usize>)
    ensures
        match r {
            Some(d) => digit_of(c) == d as int && d < 10,
            None => digit_of(c) == -1,
        },
{
    match c {
        '0' => Some(0),
        '1' => Some(1),
        '2' => Some(2),
        '3' => Some(3),
        '4' => Some(4),
        '5' => Some(5),
        '6' => Some(6),
        '7' => Some(7),
        '8' => Some(8),
        '9' => Some(9),
        _ => None,
    }
}

/// Reads `s` as an unsigned decimal integer, accepting one optional
/// leading `+` and rejecting empty digit strings, other characters,
/// and values over `usize::MAX`.
pub fn parse_usize(s: &str) -> (r: Option<usize>)
    ensures
        r is Some <==> uint_ok(s@, usize::MAX as int),
        match r {
            Some(v) => v as int == uint_val(s@),
            None => true,
        },
{
    let n = s.unicode_len();
    let mut start: usize = 0;
    if n > 0 && s.get_char(0) == '+' {
        start = 1;
    }
    let ghost body = num_body(s@);
    proof {
        assert(body =~= s@.skip(start as int));
    }
    if start == n {
        return None;
    }
    let mut acc: usize = 0;
    let mut i: usize = start;
    while i < n
        invariant
            n == s@.len(),
            start <= i <= n,
            start < n,
            body == num_body(s@),
            body =~= s@.skip(start as int),
            forall|j: int| start <= j < i ==> is_digit(#[trigger] s@[j]),
            acc as int == digits_val(body.take(i as int - start as int)),
        decreases n - i,
    {
        let ghost k = i as int - start as int;
        let c = s.get_char(i);
        proof {
            assert(body[k] == s@[i as int]);
        }
        match digit_value(c) {
            None => {
                proof {
                    assert(!is_digit(body[k]));
                }
                return None;
            },
            Some(d) => {
                proof {
                    lemma_digits_val_snoc(body, k);
                }
                if acc > usize::MAX / 10 || (acc == usize::MAX / 10 && d > usize::MAX % 10) {
                    proof {
                        let mx = usize::MAX as int;
                        assert(mx == 10 * (mx / 10) + mx % 10);
                        assert(acc as int * 10 + d as int > mx);
                        if all_digits(body) {
                            lemma_digits_val_prefix(body, k + 1);
                            assert(digits_val(body) > mx);
                        }
                    }
                    return None;
                }
                proof {
                    let mx = usize::MAX as int;
                    assert(mx == 10 * (mx / 10) + mx % 10);
                    assert(acc as int * 10 + d as int <= mx);
                }
                acc = acc * 10 + d;
                i = i + 1;
            },
        }
    }
    proof {
        assert(body.take(n as int - start as int) =~= body);
        assert(all_digits(body)) by {
            assert(forall|j: int|
                0 <= j < body.len() ==> body[j] == #[trigger] s@[j + start as int]);
        }
    }
    Some(acc)
}

/// Validates a pool size: a positive integer. Zero is rejected with its
/// own message, anything unreadable as an integer with another.
pub fn valid_pool_size(s: &str) -> (r: Result<usize, String>)
    ensures
        r is Ok <==> uint_ok(s@, usize::MAX as int) && uint_val(s@) >= 1,
        match r {
            Ok(v) => v as int == uint_val(s@),
            Err(m) => if uint_ok(s@, usize::MAX as int) {
                m@ == "Pool size can not be less than 1"@
            } else {
                m@ == s@ + " is not a valid pool size"@
            },
        },
{
    match parse_usize(s) {
        None => Err(String::from_str(s).concat(" is not a valid pool size")),
        Some(pool_size) => {
            if pool_size > 0 {
                Ok(pool_size)
            } else {
                Err(String::from_str("Pool size can not be less than 1"))
            }
        },
    }
}

/// Validates a port: an integer in 1..=65535. Zero falls outside the
/// range and is rejected with the range message; anything unreadable as
/// a 16-bit integer is rejected with the parse message.
pub fn port_in_range(s: &str) -> (r: Result<u16, String>)
    ensures
        r is Ok <==> uint_ok(s@, 65535) && uint_val(s@) >= 1,
        match r {
            Ok(v) => v as int == uint_val(s@),
            Err(m) => if uint_ok(s@, 65535) {
                m@ == "port is not range [1 - 65535]"@
            } else {
                m@ == s@ + " is not a valid port number"@
            },
        },
{
    proof {
        assert(usize::MAX as int >= 65535);
    }
    match parse_usize(s) {
        None => Err(String::from_str(s).concat(" is not a valid port number")),
        Some(port) => {
            if port > 65535 {
                Err(String::from_str(s).concat(" is not a valid port number"))
            } else if port >= 1 {
                Ok(port as u16)
            } else {
                Err(String::from_str("port is not range [1 - 65535]"))
            }
        },
    }
}

} // verus!
