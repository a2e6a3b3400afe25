//! Character-level text primitives with specifications.
use vstd::prelude::*;

verus! {

/// The Unicode `White_Space` property, as `char::is_whitespace` reports it.
pub open spec fn is_ws(c: char) -> bool {
    ||| c == '\t'
    ||| c == '\n'
    ||| c == '\u{0B}'
    ||| c == '\u{0C}'
    ||| c == '\r'
    ||| c == ' '
    ||| c == '\u{85}'
    ||| c == '\u{A0}'
    ||| c == '\u{1680}'
    ||| ('\u{2000}' <= c && c <= '\u{200A}')
    ||| c == '\u{2028}'
    ||| c == '\u{2029}'
    ||| c == '\u{202F}'
    ||| c == '\u{205F}'
    ||| c == '\u{3000}'
}

/// Tests a character for white space.
pub fn is_whitespace(c: char) -> (b: bool)
    ensures
        b == is_ws(c),
{
    c == '\t' || c == '\n' || c == '\u{0B}' || c == '\u{0C}' || c == '\r' || c == ' ' || c
        == '\u{85}' || c == '\u{A0}' || c == '\u{1680}' || ('\u{2000}' <= c && c <= '\u{200A}')
        || c == '\u{2028}' || c == '\u{2029}' || c == '\u{202F}' || c == '\u{205F}' || c
        == '\u{3000}'
}

/// The ASCII lower-case form of a character; other characters are unchanged.
pub open spec fn lower_char(c: char) -> char {
    if 'A' <= c && c <= 'Z' {
        ((c as int) + 32) as char
    } else {
        c
    }
}

pub fn to_lower_char(c: char) -> (r: char)
    ensures
        r == lower_char(c),
{
    if 'A' <= c && c <= 'Z' {
        let v: u8 = (c as u8) + 32;
        v as char
    } else {
        c
    }
}

/// Collects the characters of a string slice.
pub fn chars_of(s: &str) -> (out: Vec<char>)
    ensures
        out@ == s@,
{
    let mut out: Vec<char> = Vec::new();
    for c in it: s.chars()
        invariant
            out@ == it.seq().take(it.index()),
    {
        out.push(c);
    }
    out
}


/// Removes leading white space.
pub open spec fn trim_start(s: Seq<char>) -> Seq<char>
    decreases s.len(),
{
    if s.len() > 0 && is_ws(s[0]) {
        trim_start(s.drop_first())
    } else {
        s
    }
}

/// Removes trailing white space.
pub open spec fn trim_end(s: Seq<char>) -> Seq<char>
    decreases s.len(),
{
    if s.len() > 0 && is_ws(s.last()) {
        trim_end(s.drop_last())
    } else {
        s
    }
}

/// Removes leading and trailing white space, as `str::trim` does.
pub open spec fn trim(s: Seq<char>) -> Seq<char> {
    trim_end(trim_start(s))
}

/// The ASCII lower-case form of every character, as `str::to_ascii_lowercase` gives it.
pub open spec fn lower(s: Seq<char>) -> Seq<char> {
    Seq::new(s.len(), |i: int| lower_char(s[i]))
}

/// Finds the bounds of the trimmed part of `cs[lo..hi]`.
pub fn trim_bounds(cs: &Vec<char>, lo: usize, hi: usize) -> (r: (usize, usize))
    requires
        lo <= hi <= cs.len(),
    ensures
        lo <= r.0 <= r.1 <= hi,
        cs@.subrange(r.0 as int, r.1 as int) == trim(cs@.subrange(lo as int, hi as int)),
{
    let mut a = lo;
    while a < hi && is_whitespace(cs[a])
        invariant
            lo <= a <= hi <= cs.len(),
            trim_start(cs@.subrange(lo as int, hi as int)) == trim_start(
                cs@.subrange(a as int, hi as int),
            ),
        decreases hi - a,
    {
        assert(cs@.subrange(a as int, hi as int).drop_first() =~= cs@.subrange(
            a + 1,
            hi as int,
        ));
        a = a + 1;
    }
    let mut b = hi;
    while b > a && is_whitespace(cs[b - 1])
        invariant
            lo <= a <= b <= hi <= cs.len(),
            trim_start(cs@.subrange(lo as int, hi as int)) == cs@.subrange(a as int, hi as int),
            trim_end(cs@.subrange(a as int, hi as int)) == trim_end(
                cs@.subrange(a as int, b as int),
            ),
        decreases b - a,
    {
        assert(cs@.subrange(a as int, b as int).drop_last() =~= cs@.subrange(
            a as int,
            b - 1,
        ));
        b = b - 1;
    }
    (a, b)
}

/// Tests whether the ASCII lower-case form of `cs[lo..hi]` is `word`.
pub fn lower_range_is(cs: &Vec<char>, lo: usize, hi: usize, word: &str) -> (b: bool)
    requires
        lo <= hi <= cs.len(),
    ensures
        b == (lower(cs@.subrange(lo as int, hi as int)) == word@),
{
    let w = chars_of(word);
    if hi - lo != w.len() {
        proof {
            assert(lower(cs@.subrange(lo as int, hi as int)).len() != word@.len());
        }
        return false;
    }
    let mut i: usize = 0;
    while i < w.len()
        invariant
            lo <= hi <= cs.len(),
            hi - lo == w.len(),
            w@ == word@,
            i <= w.len(),
            forall|j: int| 0 <= j < i ==> lower_char(cs@[lo + j]) == w@[j],
        decreases w.len() - i,
    {
        if to_lower_char(cs[lo + i]) != w[i] {
            proof {
                assert(lower(cs@.subrange(lo as int, hi as int))[i as int] != word@[i as int]);
            }
            return false;
        }
        i = i + 1;
    }
    assert(lower(cs@.subrange(lo as int, hi as int)) =~= word@);
    true
}

/// The text without white space at either end.
pub fn trim_text(s: &str) -> (r: String)
    ensures
        r@ == trim(s@),
{
    let cs = chars_of(s);
    let (a, b) = trim_bounds(&cs, 0, cs.len());
    assert(cs@.subrange(0, cs.len() as int) =~= s@);
    range_string(&cs, a, b)
}

/// Tests two texts for equality.
pub fn str_eq(a: &str, b: &str) -> (r: bool)
    ensures
        r == (a@ == b@),
{
    let cs = chars_of(a);
    assert(cs@.subrange(0, cs.len() as int) =~= a@);
    range_is(&cs, 0, cs.len(), b)
}

/// Tests whether `cs[lo..hi]` equals `word`.
pub fn range_is(cs: &Vec<char>, lo: usize, hi: usize, word: &str) -> (b: bool)
    requires
        lo <= hi <= cs.len(),
    ensures
        b == (cs@.subrange(lo as int, hi as int) == word@),
{
    let w = chars_of(word);
    if hi - lo != w.len() {
        return false;
    }
    let mut i: usize = 0;
    while i < w.len()
        invariant
            lo <= hi <= cs.len(),
            hi - lo == w.len(),
            w@ == word@,
            i <= w.len(),
            forall|j: int| 0 <= j < i ==> cs@[lo + j] == w@[j],
        decreases w.len() - i,
    {
        if cs[lo + i] != w[i] {
            proof {
                assert(cs@.subrange(lo as int, hi as int)[i as int] != word@[i as int]);
            }
            return false;
        }
        i = i + 1;
    }
    assert(cs@.subrange(lo as int, hi as int) =~= word@);
    true
}


/// Position of the first element of `s` that satisfies `p`, or -1.
pub open spec fn first_where<A>(s: Seq<A>, p: spec_fn(A) -> bool) -> int
    decreases s.len(),
{
    if s.len() == 0 {
        -1
    } else if p(s[0]) {
        0
    } else {
        let r = first_where(s.drop_first(), p);
        if r < 0 {
            -1
        } else {
            r + 1
        }
    }
}

pub proof fn lemma_first_where<A>(s: Seq<A>, p: spec_fn(A) -> bool)
    ensures
        -1 <= first_where(s, p) < s.len(),
        first_where(s, p) >= 0 ==> p(s[first_where(s, p)]),
        forall|j: int| 0 <= j < first_where(s, p) ==> !p(#[trigger] s[j]),
        first_where(s, p) < 0 ==> forall|j: int| 0 <= j < s.len() ==> !p(#[trigger] s[j]),
    decreases s.len(),
{
    if s.len() > 0 && !p(s[0]) {
        lemma_first_where(s.drop_first(), p);
        assert forall|j: int| 0 <= j < first_where(s, p) implies !p(#[trigger] s[j]) by {
            if j > 0 {
                assert(s[j] == s.drop_first()[j - 1]);
            }
        }
        if first_where(s, p) < 0 {
            assert forall|j: int| 0 <= j < s.len() implies !p(#[trigger] s[j]) by {
                if j > 0 {
                    assert(s[j] == s.drop_first()[j - 1]);
                }
            }
        }
    }
}

/// The test for the character `c`.
pub open spec fn is_char(c: char) -> spec_fn(char) -> bool {
    |x: char| x == c
}

/// Position of the first occurrence of `c` in `s`, or -1.
pub open spec fn find(s: Seq<char>, c: char) -> int {
    first_where(s, is_char(c))
}

pub proof fn lemma_find(s: Seq<char>, c: char)
    ensures
        -1 <= find(s, c) < s.len(),
        find(s, c) >= 0 ==> s[find(s, c)] == c,
        forall|j: int| 0 <= j < find(s, c) ==> s[j] != c,
        find(s, c) < 0 ==> forall|j: int| 0 <= j < s.len() ==> s[j] != c,
{
    let p = is_char(c);
    lemma_first_where(s, p);
    assert forall|j: int| 0 <= j < find(s, c) implies s[j] != c by {
        assert(!p(s[j]));
    }
    if find(s, c) < 0 {
        assert forall|j: int| 0 <= j < s.len() implies s[j] != c by {
            assert(!p(s[j]));
        }
    }
}

pub proof fn lemma_find_at(s: Seq<char>, c: char, k: int)
    requires
        0 <= k < s.len(),
        s[k] == c,
        forall|j: int| 0 <= j < k ==> s[j] != c,
    ensures
        find(s, c) == k,
{
    lemma_find(s, c);
}

pub proof fn lemma_find_none(s: Seq<char>, c: char)
    requires
        forall|j: int| 0 <= j < s.len() ==> s[j] != c,
    ensures
        find(s, c) == -1,
{
    lemma_find(s, c);
}

/// Splits at the first occurrence of `c`, as `str::split_once` does.
pub open spec fn split_once(s: Seq<char>, c: char) -> Option<(Seq<char>, Seq<char>)> {
    let i = find(s, c);
    if i < 0 {
        None
    } else {
        Some((s.take(i), s.skip(i + 1)))
    }
}

/// All pieces between occurrences of `c`, as `str::split` yields them.
pub open spec fn split_all(s: Seq<char>, c: char) -> Seq<Seq<char>>
    decreases s.len(),
{
    let i = find(s, c);
    if i < 0 || i >= s.len() {
        seq![s]
    } else {
        seq![s.take(i)] + split_all(s.skip(i + 1), c)
    }
}

/// Removes one trailing carriage return.
pub open spec fn strip_cr(l: Seq<char>) -> Seq<char> {
    if l.len() > 0 && l.last() == '\r' {
        l.drop_last()
    } else {
        l
    }
}

/// The lines of a text, as `str::lines` yields them.
pub open spec fn lines_of(s: Seq<char>) -> Seq<Seq<char>>
    decreases s.len(),
{
    if s.len() == 0 {
        seq![]
    } else {
        let i = find(s, '\n');
        if i < 0 || i >= s.len() {
            seq![s]
        } else {
            seq![strip_cr(s.take(i))] + lines_of(s.skip(i + 1))
        }
    }
}

/// Finds the first `c` in `cs[lo..hi]`.
pub fn find_in(cs: &Vec<char>, lo: usize, hi: usize, c: char) -> (r: Option<usize>)
    requires
        lo <= hi <= cs.len(),
    ensures
        match r {
            Some(k) => lo <= k < hi && find(cs@.subrange(lo as int, hi as int), c) == k - lo,
            None => find(cs@.subrange(lo as int, hi as int), c) == -1,
        },
{
    let mut i = lo;
    while i < hi
        invariant
            lo <= i <= hi <= cs.len(),
            forall|j: int| lo <= j < i ==> cs@[j] != c,
        decreases hi - i,
    {
        if cs[i] == c {
            proof {
                lemma_find_at(cs@.subrange(lo as int, hi as int), c, i - lo);
            }
            return Some(i);
        }
        i = i + 1;
    }
    proof {
        lemma_find_none(cs@.subrange(lo as int, hi as int), c);
    }
    None
}

/// Whether `r` holds the bounds of `pieces` inside `cs[lo..hi]`.
pub open spec fn ranges_hold(
    cs: Seq<char>,
    r: Seq<(usize, usize)>,
    pieces: Seq<Seq<char>>,
    lo: int,
    hi: int,
) -> bool {
    &&& r.len() == pieces.len()
    &&& forall|k: int|
        #![trigger r[k]]
        0 <= k < r.len() ==> lo <= r[k].0 <= r[k].1 <= hi && cs.subrange(
            r[k].0 as int,
            r[k].1 as int,
        ) == pieces[k]
}

pub proof fn lemma_ranges_push(
    cs: Seq<char>,
    r: Seq<(usize, usize)>,
    pieces: Seq<Seq<char>>,
    lo: int,
    hi: int,
    a: usize,
    b: usize,
)
    requires
        ranges_hold(cs, r, pieces, lo, hi),
        lo <= a <= b <= hi,
        b <= cs.len(),
    ensures
        ranges_hold(cs, r.push((a, b)), pieces.push(cs.subrange(a as int, b as int)), lo, hi),
{
    let r2 = r.push((a, b));
    assert forall|k: int| #![trigger r2[k]] 0 <= k < r2.len() implies lo <= r2[k].0 <= r2[k].1
        <= hi && cs.subrange(r2[k].0 as int, r2[k].1 as int) == pieces.push(
        cs.subrange(a as int, b as int),
    )[k] by {
        if k < r.len() {
            assert(r2[k] == r[k]);
        }
    }
}

/// The bounds of the pieces of `cs[lo..hi]` between occurrences of `c`.
pub fn split_ranges(cs: &Vec<char>, lo: usize, hi: usize, c: char) -> (r: Vec<(usize, usize)>)
    requires
        lo <= hi <= cs.len(),
    ensures
        ranges_hold(
            cs@,
            r@,
            split_all(cs@.subrange(lo as int, hi as int), c),
            lo as int,
            hi as int,
        ),
{
    let mut r: Vec<(usize, usize)> = Vec::new();
    let ghost mut pieces: Seq<Seq<char>> = seq![];
    let mut start = lo;
    loop
        invariant
            lo <= start <= hi <= cs.len(),
            ranges_hold(cs@, r@, pieces, lo as int, hi as int),
            split_all(cs@.subrange(lo as int, hi as int), c) == pieces + split_all(
                cs@.subrange(start as int, hi as int),
                c,
            ),
        decreases hi - start,
    {
        let ghost rest = cs@.subrange(start as int, hi as int);
        match find_in(cs, start, hi, c) {
            Some(k) => {
                proof {
                    assert(rest.take(k - start) =~= cs@.subrange(start as int, k as int));
                    assert(rest.skip(k - start + 1) =~= cs@.subrange(k + 1, hi as int));
                    assert(split_all(rest, c) == seq![cs@.subrange(start as int, k as int)]
                        + split_all(cs@.subrange(k + 1, hi as int), c));
                    lemma_ranges_push(cs@, r@, pieces, lo as int, hi as int, start, k);
                    pieces = pieces.push(cs@.subrange(start as int, k as int));
                    assert(pieces.drop_last() + seq![cs@.subrange(start as int, k as int)]
                        =~= pieces);
                }
                r.push((start, k));
                start = k + 1;
            },
            None => {
                proof {
                    assert(rest =~= cs@.subrange(start as int, hi as int));
                    lemma_ranges_push(cs@, r@, pieces, lo as int, hi as int, start, hi);
                    pieces = pieces.push(rest);
                }
                r.push((start, hi));
                assert(split_all(cs@.subrange(lo as int, hi as int), c) =~= pieces);
                return r;
            },
        }
    }
}

/// The bounds of the lines of `cs`, as `str::lines` yields them.
pub fn line_ranges(cs: &Vec<char>) -> (r: Vec<(usize, usize)>)
    ensures
        ranges_hold(cs@, r@, lines_of(cs@), 0, cs.len() as int),
{
    let mut r: Vec<(usize, usize)> = Vec::new();
    let ghost mut pieces: Seq<Seq<char>> = seq![];
    let mut start: usize = 0;
    let n = cs.len();
    assert(cs@.subrange(0, n as int) =~= cs@);
    loop
        invariant
            start <= n == cs.len(),
            ranges_hold(cs@, r@, pieces, 0, n as int),
            lines_of(cs@) == pieces + lines_of(cs@.subrange(start as int, n as int)),
        decreases n - start,
    {
        let ghost rest = cs@.subrange(start as int, n as int);
        if start == n {
            assert(rest.len() == 0);
            assert(lines_of(cs@) =~= pieces);
            return r;
        }
        match find_in(cs, start, n, '\n') {
            Some(k) => {
                let mut e = k;
                if e > start && cs[e - 1] == '\r' {
                    e = e - 1;
                }
                proof {
                    assert(rest.take(k - start) =~= cs@.subrange(start as int, k as int));
                    assert(rest.skip(k - start + 1) =~= cs@.subrange(k + 1, n as int));
                    if e < k {
                        assert(cs@.subrange(start as int, k as int).drop_last() =~= cs@.subrange(
                            start as int,
                            e as int,
                        ));
                    }
                    assert(strip_cr(cs@.subrange(start as int, k as int)) == cs@.subrange(
                        start as int,
                        e as int,
                    ));
                    lemma_ranges_push(cs@, r@, pieces, 0, n as int, start, e);
                    pieces = pieces.push(cs@.subrange(start as int, e as int));
                    assert(pieces.drop_last() + seq![cs@.subrange(start as int, e as int)]
                        =~= pieces);
                }
                r.push((start, e));
                start = k + 1;
            },
            None => {
                proof {
                    lemma_ranges_push(cs@, r@, pieces, 0, n as int, start, n);
                    pieces = pieces.push(rest);
                }
                r.push((start, n));
                assert(lines_of(cs@) =~= pieces);
                return r;
            },
        }
    }
}


/// Appends one character to a string.
///
/// Trusted: calls `String::push`, which appends the character.
#[verifier::external_body]
pub(crate) fn push_char(s: &mut String, c: char)
    ensures
        final(s)@ == old(s)@.push(c),
{
    s.push(c);
}

/// Appends `cs[lo..hi]` to `out`.
pub fn append_range(out: &mut String, cs: &Vec<char>, lo: usize, hi: usize)
    requires
        lo <= hi <= cs.len(),
    ensures
        final(out)@ == old(out)@ + cs@.subrange(lo as int, hi as int),
{
    let ghost start = out@;
    let mut i = lo;
    while i < hi
        invariant
            lo <= i <= hi <= cs.len(),
            out@ == start + cs@.subrange(lo as int, i as int),
        decreases hi - i,
    {
        push_char(out, cs[i]);
        assert(cs@.subrange(lo as int, i + 1) =~= cs@.subrange(lo as int, i as int).push(cs@[i as int]));
        i = i + 1;
    }
}

/// Appends the ASCII lower-case form of `cs[lo..hi]` to `out`.
pub fn append_lower_range(out: &mut String, cs: &Vec<char>, lo: usize, hi: usize)
    requires
        lo <= hi <= cs.len(),
    ensures
        final(out)@ == old(out)@ + lower(cs@.subrange(lo as int, hi as int)),
{
    let ghost start = out@;
    let mut i = lo;
    while i < hi
        invariant
            lo <= i <= hi <= cs.len(),
            out@ == start + lower(cs@.subrange(lo as int, i as int)),
        decreases hi - i,
    {
        push_char(out, to_lower_char(cs[i]));
        assert(lower(cs@.subrange(lo as int, i + 1)) =~= lower(cs@.subrange(lo as int, i as int)).push(lower_char(cs@[i as int])));
        i = i + 1;
    }
}

/// The text `cs[lo..hi]` as a string.
pub fn range_string(cs: &Vec<char>, lo: usize, hi: usize) -> (s: String)
    requires
        lo <= hi <= cs.len(),
    ensures
        s@ == cs@.subrange(lo as int, hi as int),
{
    let mut s = String::new();
    append_range(&mut s, cs, lo, hi);
    s
}

/// The character of a decimal digit.
pub open spec fn digit_char(d: nat) -> char {
    ((d + 48) as int) as char
}

/// The decimal form of a number, as `{}` formats it.
pub open spec fn dec(n: nat) -> Seq<char>
    decreases n,
{
    if n < 10 {
        seq![digit_char(n)]
    } else {
        dec(n / 10).push(digit_char(n % 10))
    }
}

/// Appends the decimal form of `n` to `out`.
pub fn append_decimal(out: &mut String, n: usize)
    ensures
        final(out)@ == old(out)@ + dec(n as nat),
    decreases n,
{
    if n >= 10 {
        append_decimal(out, n / 10);
    }
    let d: u8 = (n % 10) as u8;
    let c: char = (48u8 + d) as char;
    proof {
        assert(c == digit_char((n % 10) as nat));
    }
    push_char(out, c);
    assert(out@ =~= old(out)@ + dec(n as nat));
}

/// Whether a character is an ASCII decimal digit.
pub open spec fn is_digit(c: char) -> bool {
    '0' <= c && c <= '9'
}

/// The value of a string of decimal digits.
pub open spec fn digits_value(d: Seq<char>) -> nat
    decreases d.len(),
{
    if d.len() == 0 {
        0
    } else {
        digits_value(d.drop_last()) * 10 + ((d.last() as int) - 48) as nat
    }
}

/// The digits of an unsigned number, after an optional `+` sign.
pub open spec fn unsigned_digits(s: Seq<char>) -> Seq<char> {
    if s.len() > 0 && s[0] == '+' {
        s.drop_first()
    } else {
        s
    }
}

/// The value that `str::parse` gives for an unsigned type whose largest value is `max`.
pub open spec fn parse_unsigned(s: Seq<char>, max: nat) -> Option<nat> {
    let d = unsigned_digits(s);
    if d.len() == 0 || !(forall|i: int| 0 <= i < d.len() ==> is_digit(#[trigger] d[i]))
        || digits_value(d) > max {
        None
    } else {
        Some(digits_value(d))
    }
}

proof fn lemma_digits_value_grows(d: Seq<char>, k: int)
    requires
        0 <= k <= d.len(),
        forall|i: int| 0 <= i < d.len() ==> is_digit(#[trigger] d[i]),
    ensures
        digits_value(d.take(k)) <= digits_value(d),
    decreases d.len(),
{
    if k < d.len() {
        assert(d.drop_last().take(k) =~= d.take(k));
        lemma_digits_value_grows(d.drop_last(), k);
    } else {
        assert(d.take(k) =~= d);
    }
}

/// Parses `cs[lo..hi]` as an unsigned number no larger than `max`.
pub fn parse_bounded(cs: &Vec<char>, lo: usize, hi: usize, max: usize) -> (r: Option<usize>)
    requires
        lo <= hi <= cs.len(),
    ensures
        r == match parse_unsigned(cs@.subrange(lo as int, hi as int), max as nat) {
            Some(v) => Some(v as usize),
            None => None::<usize>,
        },
{
    let ghost s = cs@.subrange(lo as int, hi as int);
    let mut a = lo;
    if a < hi && cs[a] == '+' {
        a = a + 1;
    }
    let ghost d = cs@.subrange(a as int, hi as int);
    assert(unsigned_digits(s) =~= d);
    if a == hi {
        return None;
    }
    let mut value: usize = 0;
    let mut i = a;
    while i < hi
        invariant
            lo <= a <= i <= hi <= cs.len(),
            d == cs@.subrange(a as int, hi as int),
            unsigned_digits(cs@.subrange(lo as int, hi as int)) == d,
            d.len() > 0,
            value <= max,
            forall|j: int| a <= j < i ==> is_digit(#[trigger] cs@[j]),
            value == digits_value(cs@.subrange(a as int, i as int)),
        decreases hi - i,
    {
        let c = cs[i];
        if !('0' <= c && c <= '9') {
            assert(!is_digit(d[i - a]));
            return None;
        }
        let digit: usize = ((c as u32) - 48) as usize;
        assert(cs@.subrange(a as int, i + 1).drop_last() =~= cs@.subrange(a as int, i as int));
        if digit > max || value > (max - digit) / 10 {
            proof {
                if forall|j: int| 0 <= j < d.len() ==> is_digit(#[trigger] d[j]) {
                    assert(d.take(i + 1 - a) =~= cs@.subrange(a as int, i + 1));
                    lemma_digits_value_grows(d, i + 1 - a);
                }
            }
            return None;
        }
        value = value * 10 + digit;
        i = i + 1;
    }
    assert(cs@.subrange(a as int, hi as int) =~= d);
    Some(value)
}

/// Lines joined, each ended by a newline.
pub open spec fn join_lines(ls: Seq<Seq<char>>) -> Seq<char>
    decreases ls.len(),
{
    if ls.len() == 0 {
        seq![]
    } else {
        ls[0] + seq!['\n'] + join_lines(ls.drop_first())
    }
}

pub proof fn lemma_join_push(ls: Seq<Seq<char>>, l: Seq<char>)
    ensures
        join_lines(ls.push(l)) == join_lines(ls) + l + seq!['\n'],
    decreases ls.len(),
{
    if ls.len() == 0 {
        assert(ls.push(l).drop_first() =~= Seq::<Seq<char>>::empty());
        assert(ls.push(l)[0] == l);
        assert(join_lines(Seq::<Seq<char>>::empty()) == Seq::<char>::empty());
        assert(join_lines(ls.push(l)) == l + seq!['\n'] + Seq::<char>::empty());
        assert(join_lines(ls.push(l)) =~= join_lines(ls) + l + seq!['\n']);
    } else {
        assert(ls.push(l).drop_first() =~= ls.drop_first().push(l));
        lemma_join_push(ls.drop_first(), l);
        assert(ls.push(l)[0] == ls[0]);
        assert(join_lines(ls.push(l)) == ls[0] + seq!['\n'] + join_lines(ls.drop_first().push(l)));
        assert(join_lines(ls) == ls[0] + seq!['\n'] + join_lines(ls.drop_first()));
        assert(join_lines(ls.push(l)) =~= join_lines(ls) + l + seq!['\n']);
    }
}

/// Text without white space at either end is its own trimmed form.
pub proof fn lemma_trim_plain(s: Seq<char>)
    requires
        s.len() == 0 || (!is_ws(s[0]) && !is_ws(s.last())),
    ensures
        trim(s) == s,
{
}

proof fn lemma_trim_start_len(s: Seq<char>)
    ensures
        trim_start(s).len() <= s.len(),
        s.len() > 0 && is_ws(s[0]) ==> trim_start(s).len() < s.len(),
    decreases s.len(),
{
    if s.len() > 0 && is_ws(s[0]) {
        lemma_trim_start_len(s.drop_first());
    }
}

proof fn lemma_trim_end_len(s: Seq<char>)
    ensures
        trim_end(s).len() <= s.len(),
        s.len() > 0 && is_ws(s.last()) ==> trim_end(s).len() < s.len(),
    decreases s.len(),
{
    if s.len() > 0 && is_ws(s.last()) {
        lemma_trim_end_len(s.drop_last());
    }
}

/// Non-empty text that is its own trimmed form has no white space at either end.
pub proof fn lemma_trimmed_ends(s: Seq<char>)
    requires
        trim(s) == s,
        s.len() > 0,
    ensures
        !is_ws(s[0]),
        !is_ws(s.last()),
{
    lemma_trim_start_len(s);
    lemma_trim_end_len(trim_start(s));
    if !is_ws(s[0]) {
        assert(trim_start(s) == s);
    }
}

/// Splitting text that starts with a piece free of `c`, then `c`, peels that piece off.
pub proof fn lemma_split_cons(a: Seq<char>, b: Seq<char>, c: char)
    requires
        forall|i: int| 0 <= i < a.len() ==> a[i] != c,
    ensures
        split_all(a + seq![c] + b, c) == seq![a] + split_all(b, c),
{
    let s = a + seq![c] + b;
    lemma_find_at(s, c, a.len() as int);
    assert(s.take(a.len() as int) =~= a);
    assert(s.skip(a.len() as int + 1) =~= b);
}

/// Text free of `c` splits into itself alone.
pub proof fn lemma_split_single(a: Seq<char>, c: char)
    requires
        forall|i: int| 0 <= i < a.len() ==> a[i] != c,
    ensures
        split_all(a, c) == seq![a],
{
    lemma_find_none(a, c);
}

/// Whether a text can stand as one line: no newline, and no carriage return at its end.
pub open spec fn line_safe(l: Seq<char>) -> bool {
    &&& forall|i: int| 0 <= i < l.len() ==> l[i] != '\n'
    &&& (l.len() == 0 || l.last() != '\r')
}

/// The lines of joined lines are the lines themselves.
pub proof fn lemma_lines_of_join(ls: Seq<Seq<char>>)
    requires
        forall|i: int| 0 <= i < ls.len() ==> line_safe(#[trigger] ls[i]),
    ensures
        lines_of(join_lines(ls)) == ls,
    decreases ls.len(),
{
    if ls.len() == 0 {
        assert(lines_of(join_lines(ls)) =~= ls);
    } else {
        let rest = join_lines(ls.drop_first());
        let s = join_lines(ls);
        assert(s == ls[0] + seq!['\n'] + rest);
        assert(line_safe(ls[0]));
        lemma_find_at(s, '\n', ls[0].len() as int);
        assert(s.take(ls[0].len() as int) =~= ls[0]);
        assert(s.skip(ls[0].len() as int + 1) =~= rest);
        assert forall|i: int| 0 <= i < ls.drop_first().len() implies line_safe(
            #[trigger] ls.drop_first()[i],
        ) by {
            assert(ls.drop_first()[i] == ls[i + 1]);
        }
        lemma_lines_of_join(ls.drop_first());
        assert(lines_of(s) =~= ls);
    }
}

/// A line `key=value` with a plain key reads as that key and value.
pub proof fn lemma_key_line(key: Seq<char>, value: Seq<char>)
    requires
        key.len() > 0,
        !is_ws(key[0]),
        !is_ws(key.last()),
        key[0] != '#',
        forall|i: int| 0 <= i < key.len() ==> key[i] != '=',
        value.len() == 0 || (!is_ws(value.last())),
    ensures
        trim(key + seq!['='] + value) == key + seq!['='] + value,
        split_once(key + seq!['='] + value, '=') == Some((key, value)),
        trim(key) == key,
{
    let t = key + seq!['='] + value;
    assert(t[0] == key[0]);
    if value.len() > 0 {
        assert(t.last() == value.last());
    } else {
        assert(t.last() == '=');
    }
    lemma_trim_plain(t);
    lemma_trim_plain(key);
    lemma_find_at(t, '=', key.len() as int);
    assert(t.take(key.len() as int) =~= key);
    assert(t.skip(key.len() as int + 1) =~= value);
}

/// The decimal form of a number reads back as that number.
pub proof fn lemma_dec_parses(n: nat, max: nat)
    requires
        n <= max,
    ensures
        parse_unsigned(dec(n), max) == Some(n),
{
    lemma_dec_digits(n);
    assert(unsigned_digits(dec(n)) == dec(n));
}

pub proof fn lemma_dec_digits(n: nat)
    ensures
        dec(n).len() > 0,
        dec(n)[0] != '+',
        forall|i: int| 0 <= i < dec(n).len() ==> is_digit(#[trigger] dec(n)[i]),
        digits_value(dec(n)) == n,
        !is_ws(dec(n).last()),
    decreases n,
{
    assert((digit_char((n % 10) as nat) as int) == (n % 10) + 48);
    if n < 10 {
        assert(dec(n).drop_last() =~= Seq::<char>::empty());
        assert(digits_value(dec(n)) == digits_value(Seq::<char>::empty()) * 10 + n);
    }
    if n >= 10 {
        lemma_dec_digits(n / 10);
        let d = dec(n / 10);
        assert(dec(n) == d.push(digit_char(n % 10)));
        assert(dec(n).drop_last() =~= d);
        assert(dec(n).last() == digit_char((n % 10) as nat));
        assert(digits_value(dec(n)) == digits_value(d) * 10 + (n % 10));
        assert forall|i: int| 0 <= i < dec(n).len() implies is_digit(#[trigger] dec(n)[i]) by {
            if i < d.len() {
                assert(dec(n)[i] == d[i]);
            }
        }
    }
}

} // verus!
