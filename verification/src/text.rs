//! Character-level text handling shared by the parsers of the library:
//! Unicode whitespace, trimming, line splitting, field splitting, decimal
//! numbers. Every operation is stated over `Seq<char>`, the view of `str`.
use vstd::prelude::*;

verus! {

broadcast use vstd::string::group_string_axioms;

// ---------------------------------------------------------------------------
// Specifications
// ---------------------------------------------------------------------------

/// The Unicode `White_Space` property, which `char::is_whitespace` tests.
pub open spec fn is_whitespace(c: char) -> bool {
    let u = c as u32;
    ||| 0x9 <= u <= 0xd
    ||| u == 0x20
    ||| u == 0x85
    ||| u == 0xa0
    ||| u == 0x1680
    ||| 0x2000 <= u <= 0x200a
    ||| u == 0x2028
    ||| u == 0x2029
    ||| u == 0x202f
    ||| u == 0x205f
    ||| u == 0x3000
}

/// `s` with its leading whitespace removed (`str::trim_start`).
pub open spec fn trim_start(s: Seq<char>) -> Seq<char>
    decreases s.len(),
{
    if s.len() > 0 && is_whitespace(s[0]) {
        trim_start(s.drop_first())
    } else {
        s
    }
}

/// `s` with its trailing whitespace removed (`str::trim_end`).
pub open spec fn trim_end(s: Seq<char>) -> Seq<char>
    decreases s.len(),
{
    if s.len() > 0 && is_whitespace(s.last()) {
        trim_end(s.drop_last())
    } else {
        s
    }
}

/// `s` with whitespace removed at both ends (`str::trim`).
pub open spec fn trim(s: Seq<char>) -> Seq<char> {
    trim_end(trim_start(s))
}

/// `p` is a prefix of `s` (`str::starts_with`).
pub open spec fn starts_with(s: Seq<char>, p: Seq<char>) -> bool {
    p.len() <= s.len() && s.take(p.len() as int) == p
}

/// A line as `str::lines` yields it: the text before a `'\n'`, without one
/// `'\r'` that ends it.
pub open spec fn strip_cr(line: Seq<char>) -> Seq<char> {
    if line.len() > 0 && line.last() == '\r' {
        line.drop_last()
    } else {
        line
    }
}

/// The lines of `rest`, where `current` holds the characters already read of
/// the line in progress. A `'\n'` ends a line (and drops a `'\r'` just before
/// it); text after the last `'\n'` is a last line, kept as it is; nothing after
/// a final `'\n'` makes no line.
pub open spec fn lines_from(rest: Seq<char>, current: Seq<char>) -> Seq<Seq<char>>
    decreases rest.len(),
{
    if rest.len() == 0 {
        if current.len() == 0 {
            Seq::empty()
        } else {
            seq![current]
        }
    } else if rest[0] == '\n' {
        seq![strip_cr(current)] + lines_from(rest.drop_first(), Seq::empty())
    } else {
        lines_from(rest.drop_first(), current.push(rest[0]))
    }
}

/// The lines of `s`, as `str::lines` yields them.
pub open spec fn lines(s: Seq<char>) -> Seq<Seq<char>> {
    lines_from(s, Seq::empty())
}

/// The pieces of `rest` between occurrences of `sep`, where `current` holds
/// the piece in progress (`str::split` with a `char` pattern): `n`
/// separators give `n + 1` pieces, some of them possibly empty.
pub open spec fn split_from(rest: Seq<char>, sep: char, current: Seq<char>) -> Seq<Seq<char>>
    decreases rest.len(),
{
    if rest.len() == 0 {
        seq![current]
    } else if rest[0] == sep {
        seq![current] + split_from(rest.drop_first(), sep, Seq::empty())
    } else {
        split_from(rest.drop_first(), sep, current.push(rest[0]))
    }
}

/// The pieces of `s` between occurrences of `sep` (`str::split`).
pub open spec fn split(s: Seq<char>, sep: char) -> Seq<Seq<char>> {
    split_from(s, sep, Seq::empty())
}

/// The pieces of `ls` with `sep` between each two (`[String]::join`).
pub open spec fn join(ls: Seq<Seq<char>>, sep: Seq<char>) -> Seq<char>
    decreases ls.len(),
{
    if ls.len() == 0 {
        Seq::empty()
    } else if ls.len() == 1 {
        ls[0]
    } else {
        ls[0] + sep + join(ls.drop_first(), sep)
    }
}

/// The character sequences held by a vector of lines.
pub open spec fn line_views(ls: Seq<Vec<char>>) -> Seq<Seq<char>> {
    ls.map_values(|l: Vec<char>| l@)
}

/// The ASCII digit for `d`, for `d < 10`.
pub open spec fn digit_char(d: int) -> char {
    ('0' as u32 + d) as char
}

/// `c` is an ASCII decimal digit.
pub open spec fn is_digit(c: char) -> bool {
    '0' as u32 <= c as u32 <= '9' as u32
}

/// The value of the ASCII decimal digit `c`.
pub open spec fn digit_value(c: char) -> int {
    c as u32 - '0' as u32
}

/// The decimal representation of `n` without leading zeros (`u64::to_string`).
pub open spec fn decimal(n: nat) -> Seq<char>
    decreases n,
{
    if n < 10 {
        seq![digit_char(n as int)]
    } else {
        decimal(n / 10).push(digit_char((n % 10) as int))
    }
}

/// Every character of `s` is an ASCII decimal digit.
pub open spec fn all_digits(s: Seq<char>) -> bool {
    forall|i: int| 0 <= i < s.len() ==> #[trigger] is_digit(s[i])
}

/// The number that the digits `s` write in base ten.
pub open spec fn digits_value(s: Seq<char>) -> nat
    decreases s.len(),
{
    if s.len() == 0 {
        0
    } else {
        (digits_value(s.drop_last()) * 10 + digit_value(s.last())) as nat
    }
}

/// The integer that `str::parse` reads from `s`, before its range is checked:
/// an optional `+` (or `-`, where `signed`), then at least one ASCII digit,
/// nothing else.
pub open spec fn integer_value(s: Seq<char>, signed: bool) -> Option<int> {
    if s.len() == 0 {
        None
    } else if s.len() == 1 && (s[0] == '+' || s[0] == '-') {
        None
    } else if s[0] == '+' {
        if all_digits(s.drop_first()) {
            Some(digits_value(s.drop_first()) as int)
        } else {
            None
        }
    } else if s[0] == '-' && signed {
        if all_digits(s.drop_first()) {
            Some(-(digits_value(s.drop_first()) as int))
        } else {
            None
        }
    } else if all_digits(s) {
        Some(digits_value(s) as int)
    } else {
        None
    }
}

/// What `str::parse` gives for an integer type whose values are `lo..=hi`
/// (signed where `lo < 0`): the value, where it is in range.
pub open spec fn parse_integer(s: Seq<char>, lo: int, hi: int) -> Option<int> {
    match integer_value(s, lo < 0) {
        Some(v) => if lo <= v <= hi {
            Some(v)
        } else {
            None
        },
        None => None,
    }
}

// ---------------------------------------------------------------------------
// Lemmas
// ---------------------------------------------------------------------------

/// A longer run of digits is worth at least as much as its prefix.
pub proof fn lemma_digits_value_monotone(s: Seq<char>, i: int, j: int)
    requires
        0 <= i <= j <= s.len(),
        all_digits(s),
    ensures
        digits_value(s.take(i)) <= digits_value(s.take(j)),
    decreases j - i,
{
    if i < j {
        lemma_digits_value_monotone(s, i, j - 1);
        assert(s.take(j).drop_last() =~= s.take(j - 1));
        assert(is_digit(s[j - 1]));
    }
}

/// Joining one more piece adds the separator and the piece at the end.
pub proof fn lemma_join_push(ls: Seq<Seq<char>>, x: Seq<char>, sep: Seq<char>)
    requires
        ls.len() >= 1,
    ensures
        join(ls.push(x), sep) == join(ls, sep) + sep + x,
    decreases ls.len(),
{
    if ls.len() == 1 {
        assert(ls.push(x).drop_first() =~= seq![x]);
        assert(join(ls.push(x), sep) == ls[0] + sep + join(seq![x], sep));
    } else {
        lemma_join_push(ls.drop_first(), x, sep);
        assert(ls.push(x).drop_first() =~= ls.drop_first().push(x));
        assert(join(ls.push(x), sep) == ls[0] + sep + join(ls.drop_first().push(x), sep));
        assert((ls[0] + sep + join(ls.drop_first(), sep)) + sep + x =~= ls[0] + sep + (join(
            ls.drop_first(),
            sep,
        ) + sep + x));
    }
}

/// Splitting always gives at least one piece.
proof fn lemma_split_from_nonempty(rest: Seq<char>, sep: char, current: Seq<char>)
    ensures
        split_from(rest, sep, current).len() >= 1,
    decreases rest.len(),
{
    if rest.len() > 0 {
        if rest[0] == sep {
            lemma_split_from_nonempty(rest.drop_first(), sep, Seq::empty());
        } else {
            lemma_split_from_nonempty(rest.drop_first(), sep, current.push(rest[0]));
        }
    }
}

/// The pieces of `rest`, after the piece in progress `current`, joined again
/// by the separator give back `current` followed by `rest`; where `current`
/// holds no separator, no piece does.
proof fn lemma_split_from_join(rest: Seq<char>, sep: char, current: Seq<char>)
    ensures
        join(split_from(rest, sep, current), seq![sep]) == current + rest,
        (forall|k: int| 0 <= k < current.len() ==> current[k] != sep) ==> (forall|i: int, k: int|
            0 <= i < split_from(rest, sep, current).len() && 0 <= k < split_from(
                rest,
                sep,
                current,
            )[i].len() ==> #[trigger] split_from(rest, sep, current)[i][k] != sep),
    decreases rest.len(),
{
    let ps = split_from(rest, sep, current);
    if rest.len() == 0 {
        assert(ps =~= seq![current]);
        assert(current + rest =~= current);
    } else if rest[0] == sep {
        let tail = split_from(rest.drop_first(), sep, Seq::empty());
        lemma_split_from_join(rest.drop_first(), sep, Seq::empty());
        lemma_split_from_nonempty(rest.drop_first(), sep, Seq::empty());
        assert(ps == seq![current] + tail);
        assert(ps.drop_first() =~= tail);
        assert(ps[0] == current);
        assert(Seq::<char>::empty() + rest.drop_first() =~= rest.drop_first());
        assert(current + seq![sep] + rest.drop_first() =~= current + rest);
        if forall|k: int| 0 <= k < current.len() ==> current[k] != sep {
            assert forall|i: int, k: int| 0 <= i < ps.len() && 0 <= k < ps[i].len() implies #[trigger] ps[i][k]
                != sep by {
                if i > 0 {
                    assert(ps[i] == tail[i - 1]);
                }
            }
        }
    } else {
        let c2 = current.push(rest[0]);
        lemma_split_from_join(rest.drop_first(), sep, c2);
        assert(ps == split_from(rest.drop_first(), sep, c2));
        assert(c2 + rest.drop_first() =~= current + rest);
        if forall|k: int| 0 <= k < current.len() ==> current[k] != sep {
            assert forall|k: int| 0 <= k < c2.len() implies c2[k] != sep by {
                if k < current.len() {
                    assert(c2[k] == current[k]);
                }
            }
        }
    }
}

/// Splitting at a separator cuts at that separator and nowhere else: the
/// pieces joined again by the separator give back the text, no piece holds
/// the separator, and there is always at least one piece.
pub proof fn law_split_cuts_only_at_separator(s: Seq<char>, sep: char)
    ensures
        join(split(s, sep), seq![sep]) == s,
        forall|i: int, k: int|
            0 <= i < split(s, sep).len() && 0 <= k < split(s, sep)[i].len() ==> #[trigger] split(
                s,
                sep,
            )[i][k] != sep,
        split(s, sep).len() >= 1,
{
    lemma_split_from_join(s, sep, Seq::empty());
    lemma_split_from_nonempty(s, sep, Seq::empty());
    assert(Seq::<char>::empty() + s =~= s);
}

/// The digit written for `d` is a digit worth `d`.
pub proof fn lemma_digit_char(d: int)
    requires
        0 <= d < 10,
    ensures
        is_digit(digit_char(d)),
        digit_value(digit_char(d)) == d,
        digit_char(d) != '+' && digit_char(d) != '-',
{
    assert(('0' as u32 + d) as char as u32 == '0' as u32 + d);
}

/// The digits of `decimal(n)` are digits, and are worth `n`.
pub proof fn lemma_decimal_value(n: nat)
    ensures
        all_digits(decimal(n)),
        digits_value(decimal(n)) == n,
        decimal(n).len() >= 1,
        decimal(n)[0] != '+' && decimal(n)[0] != '-',
    decreases n,
{
    lemma_digit_char((n % 10) as int);
    if n >= 10 {
        lemma_decimal_value(n / 10);
        let d = decimal(n);
        assert(d.drop_last() =~= decimal(n / 10));
        assert forall|i: int| 0 <= i < d.len() implies #[trigger] is_digit(d[i]) by {
            if i < d.len() - 1 {
                assert(d[i] == decimal(n / 10)[i]);
            }
        }
        assert(d[0] == decimal(n / 10)[0]);
        assert(d.last() == digit_char((n % 10) as int));
        assert(n == (n / 10) * 10 + n % 10) by (nonlinear_arith);
        assert(digits_value(d) == digits_value(decimal(n / 10)) * 10 + digit_value(d.last()));
    } else {
        let d = decimal(n);
        assert(d.drop_last() =~= Seq::<char>::empty());
        assert(digits_value(d.drop_last()) == 0);
        assert(d.last() == digit_char(n as int));
        assert(n % 10 == n);
        assert(digits_value(d) == digits_value(d.drop_last()) * 10 + digit_value(d.last()));
    }
}

/// `str::parse` reads back every number that `to_string` writes.
pub proof fn lemma_parse_decimal(n: nat, lo: int, hi: int)
    requires
        lo <= n <= hi,
    ensures
        parse_integer(decimal(n), lo, hi) == Some(n as int),
{
    lemma_decimal_value(n);
    let d = decimal(n);
    if d.len() == 1 {
        assert(is_digit(d[0]));
    }
}

// ---------------------------------------------------------------------------
// Executable operations
// ---------------------------------------------------------------------------

/// Copies the characters of `s` into a vector, in order.
pub fn chars_of(s: &str) -> (v: Vec<char>)
    ensures
        v@ == s@,
{
    let mut v: Vec<char> = Vec::new();
    for c in it: s.chars()
        invariant
            v@ == it.seq().take(it.index() as int),
            it.seq() == s@,
    {
        v.push(c);
    }
    v
}

/// Collects characters into a `String` (`FromIterator<char> for String`).
#[verifier::external_body]
pub(crate) fn string_from_chars(v: &[char]) -> (s: String)
    ensures
        s@ == v@,
{
    v.iter().collect()
}

/// Whether `c` is whitespace (`char::is_whitespace`).
pub fn char_is_whitespace(c: char) -> (b: bool)
    ensures
        b == is_whitespace(c),
{
    let u = c as u32;
    (0x9 <= u && u <= 0xd) || u == 0x20 || u == 0x85 || u == 0xa0 || u == 0x1680 || (0x2000 <= u
        && u <= 0x200a) || u == 0x2028 || u == 0x2029 || u == 0x202f || u == 0x205f || u == 0x3000
}

/// The start of `v[lo..hi]` once its leading whitespace is skipped.
pub fn skip_whitespace(v: &Vec<char>, lo: usize, hi: usize) -> (r: usize)
    requires
        lo <= hi <= v.len(),
    ensures
        lo <= r <= hi,
        v@.subrange(r as int, hi as int) == trim_start(v@.subrange(lo as int, hi as int)),
{
    let mut i = lo;
    while i < hi && char_is_whitespace(v[i])
        invariant
            lo <= i <= hi <= v.len(),
            trim_start(v@.subrange(i as int, hi as int)) == trim_start(
                v@.subrange(lo as int, hi as int),
            ),
        decreases hi - i,
    {
        assert(v@.subrange(i as int, hi as int).drop_first() =~= v@.subrange(
            i + 1,
            hi as int,
        ));
        i = i + 1;
    }
    if i < hi {
        assert(v@.subrange(i as int, hi as int)[0] == v@[i as int]);
    }
    i
}

/// The end of `v[lo..hi]` once its trailing whitespace is dropped.
pub fn drop_trailing_whitespace(v: &Vec<char>, lo: usize, hi: usize) -> (r: usize)
    requires
        lo <= hi <= v.len(),
    ensures
        lo <= r <= hi,
        v@.subrange(lo as int, r as int) == trim_end(v@.subrange(lo as int, hi as int)),
{
    let mut j = hi;
    while j > lo && char_is_whitespace(v[j - 1])
        invariant
            lo <= j <= hi <= v.len(),
            trim_end(v@.subrange(lo as int, j as int)) == trim_end(
                v@.subrange(lo as int, hi as int),
            ),
        decreases j - lo,
    {
        assert(v@.subrange(lo as int, j as int).drop_last() =~= v@.subrange(
            lo as int,
            j - 1,
        ));
        j = j - 1;
    }
    if j > lo {
        assert(v@.subrange(lo as int, j as int).last() == v@[j - 1]);
    }
    j
}

/// Whether `v[lo..hi]` equals `w`.
pub fn range_equals(v: &Vec<char>, lo: usize, hi: usize, w: &Vec<char>) -> (b: bool)
    requires
        lo <= hi <= v.len(),
    ensures
        b == (v@.subrange(lo as int, hi as int) == w@),
{
    if hi - lo != w.len() {
        return false;
    }
    let mut k: usize = 0;
    while k < w.len()
        invariant
            lo <= hi <= v.len(),
            hi - lo == w.len(),
            k <= w.len(),
            forall|m: int| 0 <= m < k ==> v@[lo + m] == w@[m],
        decreases w.len() - k,
    {
        if v[lo + k] != w[k] {
            assert(v@.subrange(lo as int, hi as int)[k as int] != w@[k as int]);
            return false;
        }
        k = k + 1;
    }
    assert(v@.subrange(lo as int, hi as int) =~= w@);
    true
}

/// Copies `v[lo..hi]` into a new vector.
pub fn copy_range(v: &Vec<char>, lo: usize, hi: usize) -> (r: Vec<char>)
    requires
        lo <= hi <= v.len(),
    ensures
        r@ == v@.subrange(lo as int, hi as int),
{
    let mut r: Vec<char> = Vec::new();
    let mut k = lo;
    while k < hi
        invariant
            lo <= k <= hi <= v.len(),
            r@ == v@.subrange(lo as int, k as int),
        decreases hi - k,
    {
        r.push(v[k]);
        k = k + 1;
    }
    r
}

/// Appends the characters of `w` to `out`.
pub fn append_chars(out: &mut Vec<char>, w: &Vec<char>)
    ensures
        final(out)@ == old(out)@ + w@,
{
    let ghost start = out@;
    let mut k: usize = 0;
    while k < w.len()
        invariant
            k <= w.len(),
            out@ == start + w@.take(k as int),
        decreases w.len() - k,
    {
        out.push(w[k]);
        k = k + 1;
        assert(out@ =~= start + w@.take(k as int));
    }
    assert(w@.take(w.len() as int) =~= w@);
}

/// The ASCII digit for `d`.
pub fn digit_to_char(d: u64) -> (c: char)
    requires
        d < 10,
    ensures
        c == digit_char(d as int),
{
    if d == 0 {
        '0'
    } else if d == 1 {
        '1'
    } else if d == 2 {
        '2'
    } else if d == 3 {
        '3'
    } else if d == 4 {
        '4'
    } else if d == 5 {
        '5'
    } else if d == 6 {
        '6'
    } else if d == 7 {
        '7'
    } else if d == 8 {
        '8'
    } else {
        '9'
    }
}

/// Appends the decimal representation of `n` to `out`.
pub fn push_decimal(out: &mut Vec<char>, n: u64)
    ensures
        final(out)@ == old(out)@ + decimal(n as nat),
    decreases n,
{
    if n >= 10 {
        push_decimal(out, n / 10);
    }
    out.push(digit_to_char(n % 10));
    proof {
        if n >= 10 {
            assert(decimal(n as nat) == decimal((n / 10) as nat).push(digit_char((n % 10) as int)));
        }
    }
}

/// Reads an integer of a type whose values are `lo..=hi` from `v`, as
/// `str::parse` does for that type.
pub fn parse_int_in_range(v: &Vec<char>, lo: i64, hi: i64) -> (r: Option<i64>)
    requires
        -0x1_0000_0000 <= lo <= 0 <= hi <= 0x1_0000_0000,
    ensures
        match r {
            Some(x) => parse_integer(v@, lo as int, hi as int) == Some(x as int),
            None => parse_integer(v@, lo as int, hi as int) is None,
        },
{
    let n = v.len();
    if n == 0 {
        return None;
    }
    if n == 1 && (v[0] == '+' || v[0] == '-') {
        return None;
    }
    let mut start: usize = 0;
    let mut negative = false;
    if v[0] == '+' {
        start = 1;
    } else if v[0] == '-' && lo < 0 {
        start = 1;
        negative = true;
    }
    let bound: u64 = if negative {
        (-lo) as u64
    } else {
        hi as u64
    };
    let ghost body = v@.subrange(start as int, n as int);
    assert(start == 1 ==> body =~= v@.drop_first());
    assert(start == 0 ==> body =~= v@);
    assert(start == 0 ==> body[0] != '+' && (lo < 0 ==> body[0] != '-'));
    assert(integer_value(v@, lo < 0) == if all_digits(body) {
        Some(
            if negative {
                -(digits_value(body) as int)
            } else {
                digits_value(body) as int
            },
        )
    } else {
        None::<int>
    });
    let mut acc: u64 = 0;
    let mut i = start;
    assert(v@.subrange(start as int, i as int) =~= Seq::<char>::empty());
    while i < n
        invariant
            start <= i <= n == v.len(),
            body == v@.subrange(start as int, n as int),
            bound <= 0x1_0000_0000,
            bound == if negative { -lo } else { hi as int },
            -0x1_0000_0000 <= lo <= 0 <= hi <= 0x1_0000_0000,
            negative ==> lo < 0,
            integer_value(v@, lo < 0) == if all_digits(body) {
                Some(
                    if negative {
                        -(digits_value(body) as int)
                    } else {
                        digits_value(body) as int
                    },
                )
            } else {
                None::<int>
            },
            acc <= bound,
            all_digits(v@.subrange(start as int, i as int)),
            acc == digits_value(v@.subrange(start as int, i as int)),
        decreases n - i,
    {
        let c = v[i];
        let u = c as u32;
        if u < 0x30 || u > 0x39 {
            assert(body[i - start] == c);
            assert(!is_digit(body[i - start]));
            return None;
        }
        let ghost prefix = v@.subrange(start as int, i + 1);
        assert(prefix.drop_last() =~= v@.subrange(start as int, i as int));
        assert(prefix.last() == c);
        acc = acc * 10 + (u - 0x30) as u64;
        assert(all_digits(prefix)) by {
            assert forall|m: int| 0 <= m < prefix.len() implies #[trigger] is_digit(prefix[m]) by {
                if m < prefix.len() - 1 {
                    assert(prefix[m] == v@.subrange(start as int, i as int)[m]);
                }
            }
        }
        i = i + 1;
        if acc > bound {
            proof {
                if all_digits(body) {
                    assert(v@.subrange(start as int, i as int) =~= body.take(i - start));
                    assert(body.take(n - start) =~= body);
                    lemma_digits_value_monotone(body, i - start, n - start);
                }
            }
            return None;
        }
    }
    assert(v@.subrange(start as int, n as int) =~= body);
    if negative {
        Some(-(acc as i64))
    } else {
        Some(acc as i64)
    }
}

/// Whether `s` and `t` hold the same characters (`str == str`).
pub fn str_equals(s: &str, t: &str) -> (b: bool)
    ensures
        b == (s@ == t@),
{
    let v = chars_of(s);
    let w = chars_of(t);
    assert(v@.subrange(0, v.len() as int) =~= v@);
    range_equals(&v, 0, v.len(), &w)
}

/// Splits `v` into the pieces between occurrences of `sep` (`str::split`).
pub fn split_chars(v: &Vec<char>, sep: char) -> (ps: Vec<Vec<char>>)
    ensures
        line_views(ps@) == split(v@, sep),
        ps.len() >= 1,
        join(line_views(ps@), seq![sep]) == v@,
        forall|i: int, k: int|
            0 <= i < ps.len() && 0 <= k < ps@[i]@.len() ==> #[trigger] ps@[i]@[k] != sep,
{
    proof {
        law_split_cuts_only_at_separator(v@, sep);
    }
    let mut ps: Vec<Vec<char>> = Vec::new();
    let mut current: Vec<char> = Vec::new();
    let mut i: usize = 0;
    assert(v@.skip(0) =~= v@);
    assert(line_views(ps@) =~= Seq::<Seq<char>>::empty());
    assert(Seq::<Seq<char>>::empty() + split(v@, sep) =~= split(v@, sep));
    while i < v.len()
        invariant
            i <= v.len(),
            line_views(ps@) + split_from(v@.skip(i as int), sep, current@) == split(v@, sep),
        decreases v.len() - i,
    {
        let ghost rest = v@.skip(i as int);
        let ghost before = line_views(ps@);
        let ghost cur = current@;
        assert(rest.drop_first() =~= v@.skip(i + 1));
        assert(rest[0] == v@[i as int]);
        if v[i] == sep {
            ps.push(current);
            assert(line_views(ps@) =~= before.push(cur));
            assert(line_views(ps@) + split_from(v@.skip(i + 1), sep, Seq::empty()) =~= before + (
            seq![cur] + split_from(v@.skip(i + 1), sep, Seq::empty())));
            current = Vec::new();
        } else {
            current.push(v[i]);
        }
        i = i + 1;
    }
    let ghost before = line_views(ps@);
    let ghost cur = current@;
    ps.push(current);
    assert(line_views(ps@) =~= before.push(cur));
    assert(before + seq![cur] =~= before.push(cur));
    assert forall|i: int, k: int|
        0 <= i < ps.len() && 0 <= k < ps@[i]@.len() implies #[trigger] ps@[i]@[k] != sep by {
        assert(ps@[i]@ == split(v@, sep)[i]);
    }
    ps
}

/// Splits `v` into its lines (`str::lines`).
pub fn split_lines(v: &Vec<char>) -> (ls: Vec<Vec<char>>)
    ensures
        line_views(ls@) == lines(v@),
{
    let mut ls: Vec<Vec<char>> = Vec::new();
    let mut current: Vec<char> = Vec::new();
    let mut i: usize = 0;
    assert(v@.skip(0) =~= v@);
    assert(line_views(ls@) =~= Seq::<Seq<char>>::empty());
    assert(Seq::<Seq<char>>::empty() + lines(v@) =~= lines(v@));
    while i < v.len()
        invariant
            i <= v.len(),
            line_views(ls@) + lines_from(v@.skip(i as int), current@) == lines(v@),
        decreases v.len() - i,
    {
        let ghost rest = v@.skip(i as int);
        let ghost before = line_views(ls@);
        let ghost cur = current@;
        assert(rest.drop_first() =~= v@.skip(i + 1));
        assert(rest[0] == v@[i as int]);
        if v[i] == '\n' {
            if current.len() > 0 && current[current.len() - 1] == '\r' {
                current.pop();
            }
            assert(current@ =~= strip_cr(cur));
            ls.push(current);
            assert(line_views(ls@) =~= before.push(strip_cr(cur)));
            assert(line_views(ls@) + lines_from(v@.skip(i + 1), Seq::empty()) =~= before + (seq![
                strip_cr(cur),
            ] + lines_from(v@.skip(i + 1), Seq::empty())));
            current = Vec::new();
        } else {
            current.push(v[i]);
        }
        i = i + 1;
    }
    if current.len() > 0 {
        let ghost before = line_views(ls@);
        let ghost cur = current@;
        ls.push(current);
        assert(line_views(ls@) =~= before.push(cur));
        assert(before + seq![cur] =~= before.push(cur));
    } else {
        assert(line_views(ls@) + Seq::<Seq<char>>::empty() =~= line_views(ls@));
    }
    ls
}

} // verus!
