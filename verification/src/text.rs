//! Character-sequence primitives: searching, splitting and line handling
//! over `Seq<char>`, and the executable helpers that implement them on
//! `Vec<char>` and `String`.
use vstd::prelude::*;

verus! {

// ---------------------------------------------------------------------------
// Specifications
// ---------------------------------------------------------------------------

/// Position of the first occurrence of `c` in `s`, if any.
pub open spec fn first_index(s: Seq<char>, c: char) -> Option<int>
    decreases s.len(),
{
    if s.len() == 0 {
        None
    } else if s[0] == c {
        Some(0)
    } else {
        match first_index(s.drop_first(), c) {
            Some(i) => Some(i + 1),
            None => None,
        }
    }
}

/// The characters of `s` before its first `c` (all of `s` when it holds no `c`).
pub open spec fn take_until(s: Seq<char>, c: char) -> Seq<char> {
    match first_index(s, c) {
        Some(i) => s.take(i),
        None => s,
    }
}

/// What follows the `n`-th occurrence of `c` in `s`; `None` when `s` holds
/// fewer than `n` of them.
pub open spec fn after_nth(s: Seq<char>, c: char, n: nat) -> Option<Seq<char>>
    decreases n,
{
    if n == 0 {
        Some(s)
    } else {
        match first_index(s, c) {
            Some(i) => after_nth(s.skip(i + 1), c, (n - 1) as nat),
            None => None,
        }
    }
}

/// `needle` occurs in `hay` as a contiguous run.
pub open spec fn contains_seq(hay: Seq<char>, needle: Seq<char>) -> bool {
    exists|i: int|
        0 <= i && i + needle.len() <= hay.len() && #[trigger] hay.subrange(i, i + needle.len())
            == needle
}

/// A line without the carriage return of a `\r\n` line ending.
pub open spec fn strip_cr(l: Seq<char>) -> Seq<char> {
    if l.len() > 0 && l.last() == '\r' {
        l.drop_last()
    } else {
        l
    }
}

/// The first line of `s` that contains `m`. Lines end at `\n`; a `\r`
/// just before the `\n` belongs to the line ending; the last line needs no
/// ending, and a text that ends with `\n` has no empty line after it.
pub open spec fn first_line_containing(s: Seq<char>, m: Seq<char>) -> Option<Seq<char>>
    decreases s.len(),
{
    if s.len() == 0 {
        None
    } else {
        match first_index(s, '\n') {
            Some(i) => {
                proof {
                    lemma_first_index_bounds(s, '\n');
                }
                let line = strip_cr(s.take(i));
                if contains_seq(line, m) {
                    Some(line)
                } else {
                    first_line_containing(s.skip(i + 1), m)
                }
            },
            None => if contains_seq(s, m) {
                Some(s)
            } else {
                None
            },
        }
    }
}

/// The character that writes the decimal digit `d`.
pub open spec fn digit_char(d: nat) -> char {
    (d + 48) as char
}

/// The decimal digits of `n`, most significant first, without leading zeros.
pub open spec fn decimal(n: nat) -> Seq<char>
    decreases n,
{
    if n < 10 {
        seq![digit_char(n)]
    } else {
        decimal(n / 10) + seq![digit_char(n % 10)]
    }
}

/// `c` is one of `0`..`9`.
pub open spec fn is_digit(c: char) -> bool {
    '0' <= c && c <= '9'
}

/// The value of the decimal numeral `ds` (every character a digit).
pub open spec fn digits_value(ds: Seq<char>) -> int
    decreases ds.len(),
{
    if ds.len() == 0 {
        0
    } else {
        digits_value(ds.drop_last()) * 10 + (ds.last() as int - 48)
    }
}

/// Every character of `ds` is a digit.
pub open spec fn all_digits(ds: Seq<char>) -> bool {
    forall|k: int| 0 <= k < ds.len() ==> is_digit(#[trigger] ds[k])
}

/// The numeral part of `s`: without its leading `+` or `-`, if it has one.
pub open spec fn unsigned_part(s: Seq<char>) -> Seq<char> {
    if s.len() > 0 && (s[0] == '-' || s[0] == '+') {
        s.skip(1)
    } else {
        s
    }
}

/// What parsing `s` as an `i64` gives: an optional `+` or `-`, then one
/// or more ASCII digits, and a value in the range of `i64`.
pub open spec fn spec_parse_i64(s: Seq<char>) -> Option<int> {
    let ds = unsigned_part(s);
    if s.len() == 0 || ds.len() == 0 || !all_digits(ds) {
        None
    } else {
        let v = if s[0] == '-' {
            -digits_value(ds)
        } else {
            digits_value(ds)
        };
        if i64::MIN <= v && v <= i64::MAX {
            Some(v)
        } else {
            None
        }
    }
}

// ---------------------------------------------------------------------------
// Lemmas
// ---------------------------------------------------------------------------

/// `first_index` finds the first `c`, and only that.
pub proof fn lemma_first_index_bounds(s: Seq<char>, c: char)
    ensures
        first_index(s, c) matches Some(i) ==> 0 <= i < s.len() && s[i] == c && forall|j: int|
            0 <= j < i ==> s[j] != c,
        first_index(s, c) is None ==> forall|j: int| 0 <= j < s.len() ==> s[j] != c,
    decreases s.len(),
{
    if s.len() > 0 && s[0] != c {
        lemma_first_index_bounds(s.drop_first(), c);
        assert forall|j: int| 1 <= j < s.len() implies s[j] == s.drop_first()[j - 1] by {}
    }
}

/// Characterises `first_index` by the position it finds.
pub proof fn lemma_first_index_is(s: Seq<char>, c: char, i: int)
    requires
        0 <= i <= s.len(),
        forall|j: int| 0 <= j < i ==> s[j] != c,
        i < s.len() ==> s[i] == c,
    ensures
        first_index(s, c) == (if i < s.len() {
            Some(i)
        } else {
            None::<int>
        }),
    decreases s.len(),
{
    if s.len() > 0 && s[0] != c {
        assert forall|j: int| 0 <= j < i - 1 implies s.drop_first()[j] != c by {
            assert(s.drop_first()[j] == s[j + 1]);
        }
        lemma_first_index_is(s.drop_first(), c, i - 1);
    }
}

/// The line that `first_line_containing` finds contains the text searched.
pub proof fn lemma_first_line_contains(s: Seq<char>, m: Seq<char>)
    ensures
        first_line_containing(s, m) matches Some(l) ==> contains_seq(l, m),
    decreases s.len(),
{
    if s.len() > 0 {
        lemma_first_index_bounds(s, '\n');
        if let Some(i) = first_index(s, '\n') {
            lemma_first_line_contains(s.skip(i + 1), m);
        }
    }
}

/// The digits of a numeral never lower its value when one more is added.
pub proof fn lemma_digits_value_grows(ds: Seq<char>)
    requires
        ds.len() > 0,
        forall|k: int| 0 <= k < ds.len() ==> is_digit(#[trigger] ds[k]),
    ensures
        digits_value(ds) >= digits_value(ds.drop_last()),
        digits_value(ds) >= 0,
    decreases ds.len(),
{
    if ds.len() > 1 {
        let p = ds.drop_last();
        assert forall|k: int| 0 <= k < p.len() implies is_digit(#[trigger] p[k]) by {
            assert(p[k] == ds[k]);
        }
        lemma_digits_value_grows(p);
    }
    assert(is_digit(ds[ds.len() - 1]));
    assert(ds.last() == ds[ds.len() - 1]);
    assert(ds.last() as int >= 48);
    if ds.len() == 1 {
        assert(ds.drop_last().len() == 0);
        assert(digits_value(ds.drop_last()) == 0);
    }
}

/// `decimal(n)` is a numeral of at least one digit whose value is `n`.
pub proof fn lemma_decimal_numeral(n: nat)
    ensures
        decimal(n).len() >= 1,
        all_digits(decimal(n)),
        digits_value(decimal(n)) == n,
    decreases n,
{
    let s = decimal(n);
    let d = n % 10;
    assert(d < 10);
    assert((d + 48) as char as int == d + 48);
    if n < 10 {
        assert(s.drop_last().len() == 0);
        assert(is_digit(s[0]));
        assert(s.last() == digit_char(n));
        assert(digits_value(s) == digits_value(s.drop_last()) * 10 + (s.last() as int - 48));
    } else {
        lemma_decimal_numeral(n / 10);
        let p = decimal(n / 10);
        assert(s.drop_last() == p);
        assert(s.last() == digit_char(d));
        assert(n == (n / 10) * 10 + d);
        assert(digits_value(s) == digits_value(p) * 10 + (s.last() as int - 48));
        assert forall|k: int| 0 <= k < s.len() implies is_digit(#[trigger] s[k]) by {
            if k < p.len() {
                assert(s[k] == p[k]);
            }
        }
    }
}

/// The text of an integer: a `-` before the digits of a negative one.
pub open spec fn signed_decimal(n: int) -> Seq<char> {
    if n < 0 {
        seq!['-'] + decimal((-n) as nat)
    } else {
        decimal(n as nat)
    }
}

/// Parsing the text of an `i64` gives that `i64` back.
pub proof fn lemma_parse_signed_decimal(n: i64)
    ensures
        spec_parse_i64(signed_decimal(n as int)) == Some(n as int),
{
    let s = signed_decimal(n as int);
    if n < 0 {
        let m = (-n) as nat;
        lemma_decimal_numeral(m);
        assert(s.skip(1) == decimal(m));
        assert(unsigned_part(s) == decimal(m));
    } else {
        lemma_decimal_numeral(n as nat);
        assert(is_digit(s[0]));
        assert(unsigned_part(s) == s);
    }
}

// ---------------------------------------------------------------------------
// Executable helpers
// ---------------------------------------------------------------------------

/// Appends one character to a string with std's `String::push`; the
/// contract claims what its documentation says: the string afterwards is
/// the old one followed by `c`.
#[verifier::external_body]
pub(crate) fn push_char(s: &mut String, c: char)
    ensures
        final(s)@ == old(s)@.push(c),
{
    s.push(c);
}

/// The characters of `s`, in order.
pub fn chars_of(s: &str) -> (v: Vec<char>)
    ensures
        v@ == s@,
{
    let mut v: Vec<char> = Vec::new();
    for c in it: s.chars()
        invariant
            v@ == it.seq().take(it.index() as int),
    {
        v.push(c);
    }
    v
}

/// A string of the characters `v[lo..hi]`.
pub fn string_of_range(v: &Vec<char>, lo: usize, hi: usize) -> (s: String)
    requires
        lo <= hi <= v.len(),
    ensures
        s@ == v@.subrange(lo as int, hi as int),
{
    let mut s = String::new();
    let mut i = lo;
    while i < hi
        invariant
            lo <= i <= hi <= v.len(),
            s@ == v@.subrange(lo as int, i as int),
        decreases hi - i,
    {
        push_char(&mut s, v[i]);
        assert(v@.subrange(lo as int, i + 1) == v@.subrange(lo as int, i as int).push(v@[i as int]));
        i = i + 1;
    }
    s
}

/// Position of the first `c` in `v` at or after `start`.
pub fn find_from(v: &Vec<char>, start: usize, c: char) -> (r: Option<usize>)
    requires
        start <= v.len(),
    ensures
        match r {
            Some(p) => start <= p < v.len() && first_index(v@.skip(start as int), c) == Some(
                p - start,
            ),
            None => first_index(v@.skip(start as int), c) is None,
        },
{
    let mut i = start;
    while i < v.len()
        invariant
            start <= i <= v.len(),
            forall|j: int| start <= j < i ==> v@[j] != c,
        decreases v.len() - i,
    {
        if v[i] == c {
            proof {
                lemma_first_index_is(v@.skip(start as int), c, i - start);
            }
            return Some(i);
        }
        i = i + 1;
    }
    proof {
        lemma_first_index_is(v@.skip(start as int), c, v.len() - start);
    }
    None
}

/// Where, in `v`, the text after the `n`-th `c` starts.
pub fn after_nth_pos(v: &Vec<char>, c: char, n: usize) -> (r: Option<usize>)
    ensures
        match r {
            Some(p) => p <= v.len() && after_nth(v@, c, n as nat) == Some(v@.skip(p as int)),
            None => after_nth(v@, c, n as nat) is None,
        },
{
    let mut pos: usize = 0;
    let mut k: usize = 0;
    assert(v@.skip(0) == v@);
    while k < n
        invariant
            k <= n,
            pos <= v.len(),
            after_nth(v@, c, n as nat) == after_nth(v@.skip(pos as int), c, (n - k) as nat),
        decreases n - k,
    {
        match find_from(v, pos, c) {
            Some(q) => {
                assert(v@.skip(pos as int).skip(q - pos + 1) == v@.skip(q + 1));
                pos = q + 1;
                k = k + 1;
            },
            None => {
                return None;
            },
        }
    }
    Some(pos)
}

/// `needle` occurs in `v[lo..hi]`.
pub fn contains_in_range(v: &Vec<char>, lo: usize, hi: usize, needle: &Vec<char>) -> (r: bool)
    requires
        lo <= hi <= v.len(),
    ensures
        r == contains_seq(v@.subrange(lo as int, hi as int), needle@),
{
    let ghost hay = v@.subrange(lo as int, hi as int);
    let n = needle.len();
    if n > hi - lo {
        assert forall|i: int|
            0 <= i && i + n <= hay.len() implies #[trigger] hay.subrange(i, i + n)
            != needle@ by {}
        return false;
    }
    let mut i = lo;
    while i <= hi - n
        invariant
            lo <= i <= hi - n + 1,
            n == needle@.len(),
            n <= hi - lo,
            hi <= v.len(),
            hay == v@.subrange(lo as int, hi as int),
            forall|j: int|
                0 <= j < i - lo ==> #[trigger] hay.subrange(j, j + n) != needle@,
        decreases hi - i,
    {
        let mut k: usize = 0;
        let mut same = true;
        while k < n
            invariant
                k <= n,
                n == needle@.len(),
                i + n <= hi <= v.len(),
                same == (forall|t: int| 0 <= t < k ==> v@[i + t] == needle@[t]),
            decreases n - k,
        {
            if v[i + k] != needle[k] {
                same = false;
            }
            k = k + 1;
        }
        assert(hay.subrange(i - lo, i - lo + n) == v@.subrange(i as int, i + n));
        if same {
            assert(v@.subrange(i as int, i + n) == needle@);
            return true;
        }
        proof {
            let t = choose|t: int| 0 <= t < n && v@[i + t] != needle@[t];
            assert(v@.subrange(i as int, i + n)[t] != needle@[t]);
        }
        i = i + 1;
    }
    assert forall|j: int|
        0 <= j && j + n <= hay.len() implies #[trigger] hay.subrange(j, j + n) != needle@ by {
        assert(j < i - lo);
    }
    false
}

/// The decimal digit `d` as a character.
fn digit_to_char(d: u8) -> (c: char)
    requires
        d < 10,
    ensures
        c == digit_char(d as nat),
{
    (d + 48) as char
}

/// Appends the decimal digits of `n` to `s`.
pub fn push_decimal(s: &mut String, n: usize)
    ensures
        final(s)@ == old(s)@ + decimal(n as nat),
    decreases n,
{
    if n >= 10 {
        push_decimal(s, n / 10);
    }
    push_char(s, digit_to_char((n % 10) as u8));
    assert(n < 10 ==> n % 10 == n);
}

/// Parses `s` as an `i64`, as `str::parse::<i64>` does.
pub fn parse_i64(s: &str) -> (r: Option<i64>)
    ensures
        match r {
            Some(x) => spec_parse_i64(s@) == Some(x as int),
            None => spec_parse_i64(s@) is None,
        },
{
    let v = chars_of(s);
    if v.len() == 0 {
        return None;
    }
    let negative = v[0] == '-';
    let start: usize = if v[0] == '-' || v[0] == '+' {
        1
    } else {
        0
    };
    let ghost ds = v@.skip(start as int);
    assert(start == 0 ==> ds == v@);
    if v.len() == start {
        assert(ds.len() == 0);
        return None;
    }
    // The magnitude, exact while it stays at most 2^63; past that only the
    // fact that it is too large is kept.
    let limit: u128 = 0x8000_0000_0000_0000;
    let mut acc: u128 = 0;
    let mut big = false;
    let mut i = start;
    assert(ds.take(0) == Seq::<char>::empty());
    while i < v.len()
        invariant
            start <= i <= v.len(),
            v@ == s@,
            v@.len() > 0,
            negative == (v@[0] == '-'),
            start == (if v@[0] == '-' || v@[0] == '+' {
                1usize
            } else {
                0usize
            }),
            ds == v@.skip(start as int),
            limit == 0x8000_0000_0000_0000,
            forall|k: int| 0 <= k < i - start ==> is_digit(#[trigger] ds[k]),
            !big ==> acc as int == digits_value(ds.take(i - start)),
            !big ==> acc <= limit,
            big ==> digits_value(ds.take(i - start)) > limit,
        decreases v.len() - i,
    {
        let c = v[i];
        assert(c == ds[i - start]);
        if !('0' <= c && c <= '9') {
            assert(!is_digit(ds[i - start]));
            assert(ds == unsigned_part(s@));
            assert(!all_digits(ds));
            return None;
        }
        let d = ((c as u32) - 48) as u128;
        let ghost pre = ds.take(i - start);
        let ghost next = ds.take(i - start + 1);
        assert(next.drop_last() == pre);
        assert(next.last() == c);
        assert forall|k: int| 0 <= k < next.len() implies is_digit(#[trigger] next[k]) by {
            assert(next[k] == ds[k]);
        }
        proof {
            lemma_digits_value_grows(next);
        }
        if !big {
            let n = acc * 10 + d;
            if n > limit {
                big = true;
            } else {
                acc = n;
            }
        }
        i = i + 1;
    }
    assert(ds.take(i - start) == ds);
    if big {
        return None;
    }
    if negative {
        if acc == limit {
            Some(i64::MIN)
        } else {
            Some(-(acc as i64))
        }
    } else {
        if acc >= limit {
            None
        } else {
            Some(acc as i64)
        }
    }
}

} // verus!
