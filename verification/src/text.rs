//! Small verified text utilities: separator splitting, trimming, decimal
//! rendering and parsing. The configuration format and the SMS gateway's
//! response format are read with these.

use vstd::prelude::*;

verus! {

/// The first position of `sep` in `s`, or `s.len()` when it never occurs.
pub open spec fn spec_find<T>(s: Seq<T>, sep: T) -> int
    decreases s.len(),
{
    if s.len() == 0 {
        0
    } else if s[0] == sep {
        0
    } else {
        1 + spec_find(s.drop_first(), sep)
    }
}

/// What `spec_find` returns: the position of the first separator, or the
/// length when there is none.
pub proof fn lemma_find_bounds<T>(s: Seq<T>, sep: T)
    ensures
        0 <= spec_find(s, sep) <= s.len(),
        spec_find(s, sep) < s.len() ==> s[spec_find(s, sep)] == sep,
        forall|j: int| 0 <= j < spec_find(s, sep) ==> s[j] != sep,
    decreases s.len(),
{
    if s.len() > 0 && s[0] != sep {
        lemma_find_bounds(s.drop_first(), sep);
        assert forall|j: int| 0 <= j < spec_find(s, sep) implies s[j] != sep by {
            if j > 0 {
                assert(s.drop_first()[j - 1] == s[j]);
            }
        }
    }
}

/// A position before which the separator never occurs, and at which it
/// stands (or the string ends), is the first occurrence.
pub proof fn lemma_find_is<T>(s: Seq<T>, sep: T, m: int)
    requires
        0 <= m <= s.len(),
        forall|j: int| 0 <= j < m ==> s[j] != sep,
        m < s.len() ==> s[m] == sep,
    ensures
        spec_find(s, sep) == m,
{
    lemma_find_bounds(s, sep);
    let f = spec_find(s, sep);
    if f < m {
        assert(s[f] != sep);
    }
    if m < f {
        assert(s[m] != sep);
    }
}

/// `s` cut at every separator: the separated pieces in order, none of them
/// holding the separator. An empty string is one empty piece; a trailing
/// separator yields a trailing empty piece.
pub open spec fn spec_split<T>(s: Seq<T>, sep: T) -> Seq<Seq<T>>
    decreases s.len(),
{
    let i = spec_find(s, sep);
    if 0 <= i < s.len() {
        seq![s.take(i)] + spec_split(s.skip(i + 1), sep)
    } else {
        seq![s]
    }
}

/// A string without the separator is one piece.
pub proof fn lemma_split_whole<T>(s: Seq<T>, sep: T)
    requires
        !s.contains(sep),
    ensures
        spec_split(s, sep) == seq![s],
{
    lemma_find_is(s, sep, s.len() as int);
}

/// Splitting takes off the first piece at the first separator.
pub proof fn lemma_split_at_sep<T>(a: Seq<T>, sep: T, rest: Seq<T>)
    requires
        !a.contains(sep),
    ensures
        spec_split(a + seq![sep] + rest, sep) == seq![a] + spec_split(rest, sep),
{
    let s = a + seq![sep] + rest;
    assert forall|j: int| 0 <= j < a.len() implies s[j] != sep by {
        assert(s[j] == a[j]);
        if s[j] == sep {
            assert(a.contains(a[j]));
        }
    }
    assert(s[a.len() as int] == sep);
    lemma_find_is(s, sep, a.len() as int);
    assert(s.take(a.len() as int) =~= a);
    assert(s.skip(a.len() as int + 1) =~= rest);
}

/// The pieces of `v` between occurrences of `sep`, in order.
pub fn split_bytes(v: &Vec<u8>, sep: u8) -> (parts: Vec<Vec<u8>>)
    ensures
        parts@.map_values(|p: Vec<u8>| p@) == spec_split(v@, sep),
{
    let mut parts: Vec<Vec<u8>> = Vec::new();
    let mut cur: Vec<u8> = Vec::new();
    let ghost mut seg_start: int = 0;
    let mut i: usize = 0;
    proof {
        assert(v@.skip(0) =~= v@);
        assert(parts@.map_values(|p: Vec<u8>| p@) + spec_split(v@, sep) =~= spec_split(v@, sep));
    }
    while i < v.len()
        invariant
            i <= v@.len(),
            0 <= seg_start <= i,
            cur@ == v@.subrange(seg_start, i as int),
            forall|j: int| seg_start <= j < i ==> v@[j] != sep,
            spec_split(v@, sep) == parts@.map_values(|p: Vec<u8>| p@) + spec_split(
                v@.skip(seg_start),
                sep,
            ),
        decreases v@.len() - i,
    {
        if v[i] == sep {
            proof {
                assert(!cur@.contains(sep)) by {
                    if cur@.contains(sep) {
                        let w = choose|w: int| 0 <= w < cur@.len() && cur@[w] == sep;
                        assert(v@[seg_start + w] == sep);
                    }
                }
                assert(v@.skip(seg_start) =~= cur@ + seq![sep] + v@.skip(i + 1));
                lemma_split_at_sep(cur@, sep, v@.skip(i + 1));
                assert(parts@.map_values(|p: Vec<u8>| p@) + (seq![cur@] + spec_split(
                    v@.skip(i + 1),
                    sep,
                )) =~= parts@.push(cur).map_values(|p: Vec<u8>| p@) + spec_split(
                    v@.skip(i + 1),
                    sep,
                ));
            }
            parts.push(cur);
            cur = Vec::new();
            proof {
                seg_start = i + 1;
            }
        } else {
            cur.push(v[i]);
            proof {
                assert(cur@ =~= v@.subrange(seg_start, i + 1));
            }
        }
        i = i + 1;
    }
    proof {
        assert(v@.skip(seg_start) =~= cur@);
        assert(!cur@.contains(sep)) by {
            if cur@.contains(sep) {
                let w = choose|w: int| 0 <= w < cur@.len() && cur@[w] == sep;
                assert(v@[seg_start + w] == sep);
            }
        }
        lemma_split_whole(cur@, sep);
        assert(parts@.map_values(|p: Vec<u8>| p@) + seq![cur@] =~= parts@.push(cur).map_values(
            |p: Vec<u8>| p@,
        ));
    }
    parts.push(cur);
    parts
}

/// `s` without its leading spaces.
pub open spec fn spec_trim_front(s: Seq<char>) -> Seq<char>
    decreases s.len(),
{
    if s.len() > 0 && s[0] == ' ' {
        spec_trim_front(s.drop_first())
    } else {
        s
    }
}

/// `s` without its trailing spaces.
pub open spec fn spec_trim_back(s: Seq<char>) -> Seq<char>
    decreases s.len(),
{
    if s.len() > 0 && s.last() == ' ' {
        spec_trim_back(s.drop_last())
    } else {
        s
    }
}

/// `s` without leading and trailing spaces.
pub open spec fn spec_trim(s: Seq<char>) -> Seq<char> {
    spec_trim_back(spec_trim_front(s))
}

/// Trimming the front keeps everything from the first non-space on.
proof fn lemma_trim_front_skip(s: Seq<char>, a: int)
    requires
        0 <= a <= s.len(),
        forall|j: int| 0 <= j < a ==> s[j] == ' ',
        a < s.len() ==> s[a] != ' ',
    ensures
        spec_trim_front(s) == s.skip(a),
    decreases a,
{
    if a == 0 {
        assert(s.skip(0) =~= s);
    } else {
        assert(s[0] == ' ');
        let t = s.drop_first();
        assert forall|j: int| 0 <= j < a - 1 implies t[j] == ' ' by {
            assert(t[j] == s[j + 1]);
        }
        lemma_trim_front_skip(t, a - 1);
        assert(t.skip(a - 1) =~= s.skip(a));
    }
}

/// Trimming the back keeps everything up to the last non-space.
proof fn lemma_trim_back_take(s: Seq<char>, b: int)
    requires
        0 <= b <= s.len(),
        forall|j: int| b <= j < s.len() ==> s[j] == ' ',
        b > 0 ==> s[b - 1] != ' ',
    ensures
        spec_trim_back(s) == s.take(b),
    decreases s.len() - b,
{
    if b == s.len() {
        assert(s.take(b) =~= s);
    } else {
        assert(s.last() == ' ');
        let t = s.drop_last();
        lemma_trim_back_take(t, b);
        assert(t.take(b) =~= s.take(b));
    }
}

/// `s` without its leading and trailing spaces.
pub fn trim_spaces(s: &str) -> (r: String)
    ensures
        r@ == spec_trim(s@),
{
    let n = s.unicode_len();
    let mut a: usize = 0;
    while a < n && s.get_char(a) == ' '
        invariant
            a <= n,
            n == s@.len(),
            forall|j: int| 0 <= j < a ==> s@[j] == ' ',
        decreases n - a,
    {
        a = a + 1;
    }
    let mut b: usize = n;
    while b > a && s.get_char(b - 1) == ' '
        invariant
            a <= b <= n,
            n == s@.len(),
            forall|j: int| b <= j < n ==> s@[j] == ' ',
        decreases b,
    {
        b = b - 1;
    }
    proof {
        lemma_trim_front_skip(s@, a as int);
        let t = s@.skip(a as int);
        assert forall|j: int| b - a <= j < t.len() implies t[j] == ' ' by {
            assert(t[j] == s@[j + a]);
        }
        if b > a {
            assert(t[b - a - 1] == s@[b - 1]);
        }
        lemma_trim_back_take(t, b - a as int);
        assert(t.take(b - a as int) =~= s@.subrange(a as int, b as int));
    }
    s.substring_char(a, b).to_owned()
}

/// The pieces of `s` between occurrences of `sep`, in order.
pub fn split_string(s: &str, sep: char) -> (parts: Vec<String>)
    ensures
        parts@.map_values(|p: String| p@) == spec_split(s@, sep),
{
    let n = s.unicode_len();
    let mut parts: Vec<String> = Vec::new();
    let mut seg_start: usize = 0;
    let mut i: usize = 0;
    proof {
        assert(s@.skip(0) =~= s@);
        assert(parts@.map_values(|p: String| p@) + spec_split(s@, sep) =~= spec_split(s@, sep));
    }
    while i < n
        invariant
            seg_start <= i <= n,
            n == s@.len(),
            forall|j: int| seg_start <= j < i ==> s@[j] != sep,
            spec_split(s@, sep) == parts@.map_values(|p: String| p@) + spec_split(
                s@.skip(seg_start as int),
                sep,
            ),
        decreases n - i,
    {
        if s.get_char(i) == sep {
            let piece = s.substring_char(seg_start, i).to_owned();
            proof {
                let cur = s@.subrange(seg_start as int, i as int);
                assert(!cur.contains(sep)) by {
                    if cur.contains(sep) {
                        let w = choose|w: int| 0 <= w < cur.len() && cur[w] == sep;
                        assert(s@[seg_start + w] == sep);
                    }
                }
                assert(s@.skip(seg_start as int) =~= cur + seq![sep] + s@.skip(i + 1));
                lemma_split_at_sep(cur, sep, s@.skip(i + 1));
                assert(parts@.map_values(|p: String| p@) + (seq![cur] + spec_split(
                    s@.skip(i + 1),
                    sep,
                )) =~= parts@.push(piece).map_values(|p: String| p@) + spec_split(
                    s@.skip(i + 1),
                    sep,
                ));
            }
            parts.push(piece);
            seg_start = i + 1;
        }
        i = i + 1;
    }
    let piece = s.substring_char(seg_start, n).to_owned();
    proof {
        let cur = s@.subrange(seg_start as int, n as int);
        assert(s@.skip(seg_start as int) =~= cur);
        assert(!cur.contains(sep)) by {
            if cur.contains(sep) {
                let w = choose|w: int| 0 <= w < cur.len() && cur[w] == sep;
                assert(s@[seg_start + w] == sep);
            }
        }
        lemma_split_whole(cur, sep);
        assert(parts@.map_values(|p: String| p@) + seq![cur] =~= parts@.push(piece).map_values(
            |p: String| p@,
        ));
    }
    parts.push(piece);
    parts
}

/// Whether `c` is a decimal digit.
pub open spec fn spec_is_digit(c: char) -> bool {
    48 <= c as u32 <= 57
}

/// The value of a decimal digit.
pub open spec fn spec_digit_val(c: char) -> u64 {
    (c as u32 - 48) as u64
}

/// Reading decimal digits left to right onto an accumulator: the number
/// they denote, or nothing on a non-digit or a value past `u64::MAX`.
pub open spec fn spec_parse_digits(s: Seq<char>, acc: u64) -> Option<u64>
    decreases s.len(),
{
    if s.len() == 0 {
        Some(acc)
    } else if !spec_is_digit(s[0]) {
        None
    } else if acc > (u64::MAX - spec_digit_val(s[0])) / 10 {
        None
    } else {
        spec_parse_digits(s.drop_first(), (acc * 10 + spec_digit_val(s[0])) as u64)
    }
}

/// The number a string denotes: one or more decimal digits, no sign, no
/// other characters, value within `u64`.
pub open spec fn spec_parse_u64(s: Seq<char>) -> Option<u64> {
    if s.len() == 0 {
        None
    } else {
        spec_parse_digits(s, 0)
    }
}

/// Reads a decimal number, refusing anything `spec_parse_u64` refuses.
pub fn parse_u64(s: &str) -> (r: Option<u64>)
    ensures
        r == spec_parse_u64(s@),
{
    let n = s.unicode_len();
    if n == 0 {
        return None;
    }
    let mut acc: u64 = 0;
    let mut i: usize = 0;
    proof {
        assert(s@.skip(0) =~= s@);
    }
    while i < n
        invariant
            i <= n,
            n == s@.len(),
            n > 0,
            spec_parse_u64(s@) == spec_parse_digits(s@.skip(i as int), acc),
        decreases n - i,
    {
        let c = s.get_char(i);
        let u = c as u32;
        proof {
            assert(s@.skip(i as int)[0] == s@[i as int]);
            assert(s@.skip(i as int).drop_first() =~= s@.skip(i + 1));
        }
        if u < 48 || u > 57 {
            return None;
        }
        let d = (u - 48) as u64;
        if acc > (u64::MAX - d) / 10 {
            return None;
        }
        acc = acc * 10 + d;
        i = i + 1;
    }
    proof {
        assert(s@.skip(n as int) =~= Seq::<char>::empty());
    }
    Some(acc)
}

/// The digit character of a value below ten.
pub open spec fn spec_digit_char(d: int) -> char {
    if d == 0 {
        '0'
    } else if d == 1 {
        '1'
    } else if d == 2 {
        '2'
    } else if d == 3 {
        '3'
    } else if d == 4 {
        '4'
    } else if d == 5 {
        '5'
    } else if d == 6 {
        '6'
    } else if d == 7 {
        '7'
    } else if d == 8 {
        '8'
    } else {
        '9'
    }
}

/// The decimal rendering of a number, most significant digit first, no
/// sign and no leading zero except on zero itself.
pub open spec fn spec_decimal(n: int) -> Seq<char>
    decreases n,
{
    if n < 10 {
        seq![spec_digit_char(n)]
    } else {
        spec_decimal(n / 10).push(spec_digit_char(n % 10))
    }
}

/// One digit as a string.
fn digit_str(d: u64) -> (r: &'static str)
    requires
        d < 10,
    ensures
        r@ == seq![spec_digit_char(d as int)],
{
    match d {
        0 => {
            proof {
                reveal_strlit("0");
            }
            "0"
        },
        1 => {
            proof {
                reveal_strlit("1");
            }
            "1"
        },
        2 => {
            proof {
                reveal_strlit("2");
            }
            "2"
        },
        3 => {
            proof {
                reveal_strlit("3");
            }
            "3"
        },
        4 => {
            proof {
                reveal_strlit("4");
            }
            "4"
        },
        5 => {
            proof {
                reveal_strlit("5");
            }
            "5"
        },
        6 => {
            proof {
                reveal_strlit("6");
            }
            "6"
        },
        7 => {
            proof {
                reveal_strlit("7");
            }
            "7"
        },
        8 => {
            proof {
                reveal_strlit("8");
            }
            "8"
        },
        _ => {
            proof {
                reveal_strlit("9");
            }
            "9"
        },
    }
}

/// Renders a number in decimal.
pub fn to_decimal_string(n: u64) -> (r: String)
    ensures
        r@ == spec_decimal(n as int),
    decreases n,
{
    if n < 10 {
        digit_str(n).to_owned()
    } else {
        let mut s = to_decimal_string(n / 10);
        s.append(digit_str(n % 10));
        proof {
            assert(spec_decimal((n / 10) as int) + seq![spec_digit_char((n % 10) as int)]
                =~= spec_decimal((n / 10) as int).push(spec_digit_char((n % 10) as int)));
        }
        s
    }
}

} // verus!
