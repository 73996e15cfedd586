//! The `server.properties` file of a Bedrock Dedicated Server: setting the
//! port that the server listens on.
//!
//! A line is `key=value` or `key:value`, after optional leading whitespace;
//! empty lines and lines starting with `#` or `!` are comments. The port is set
//! by rewriting the first line whose key is `server-port` (whitespace round the
//! key ignored) to `server-port=<port>`, or by appending that line where there
//! is none. Every other line is kept as it was.
use vstd::prelude::*;
use crate::text::{
    append_chars, chars_of, decimal, drop_trailing_whitespace, is_whitespace, join,
    lemma_join_push, line_views, lines, lines_from, push_decimal, range_equals, skip_whitespace,
    split_lines, string_from_chars, strip_cr, trim, trim_end, trim_start,
};

verus! {

// ---------------------------------------------------------------------------
// Specifications
// ---------------------------------------------------------------------------

/// The key of the port setting.
pub open spec fn port_key() -> Seq<char> {
    seq!['s', 'e', 'r', 'v', 'e', 'r', '-', 'p', 'o', 'r', 't']
}

/// A key and its value are separated by `=` or `:`.
pub open spec fn is_separator(c: char) -> bool {
    c == '=' || c == ':'
}

/// `i` is the position of the first separator in `s`.
pub open spec fn is_first_separator(s: Seq<char>, i: int) -> bool {
    &&& 0 <= i < s.len()
    &&& is_separator(s[i])
    &&& forall|k: int| 0 <= k < i ==> !is_separator(#[trigger] s[k])
}

/// The key that `line` sets, if it is a setting: the text before its first
/// separator, trimmed, unless the line is empty or a comment once its
/// leading whitespace is skipped.
pub open spec fn line_key(line: Seq<char>) -> Option<Seq<char>> {
    let t = trim_start(line);
    if t.len() == 0 || t[0] == '#' || t[0] == '!' {
        None
    } else if exists|i: int| is_first_separator(t, i) {
        Some(trim(t.take(choose|i: int| is_first_separator(t, i))))
    } else {
        None
    }
}

/// `line` sets the port.
pub open spec fn sets_port(line: Seq<char>) -> bool {
    line_key(line) == Some(port_key())
}

/// The line that sets the port to `port`.
pub open spec fn port_line(port: u16) -> Seq<char> {
    port_key().push('=') + decimal(port as nat)
}

/// `j` is the position of the first line of `ls` that sets the port.
pub open spec fn is_first_port_line(ls: Seq<Seq<char>>, j: int) -> bool {
    &&& 0 <= j < ls.len()
    &&& sets_port(ls[j])
    &&& forall|k: int| 0 <= k < j ==> !sets_port(#[trigger] ls[k])
}

/// `ls` has a line that sets the port.
pub open spec fn has_port_line(ls: Seq<Seq<char>>) -> bool {
    exists|j: int| is_first_port_line(ls, j)
}

/// The position of the first line of `ls` that sets the port.
pub open spec fn first_port_line(ls: Seq<Seq<char>>) -> int {
    choose|j: int| is_first_port_line(ls, j)
}

/// The lines `ls` with the port set to `port`: the first line that sets the
/// port is replaced, or, where there is none, the port line is appended.
pub open spec fn lines_with_port(ls: Seq<Seq<char>>, port: u16) -> Seq<Seq<char>> {
    if has_port_line(ls) {
        ls.update(first_port_line(ls), port_line(port))
    } else {
        ls.push(port_line(port))
    }
}

/// The text of a properties file `contents` once the port is set to `port`:
/// its lines, updated, joined by `'\n'`, with a final `'\n'`.
pub open spec fn properties_with_port(contents: Seq<char>, port: u16) -> Seq<char> {
    join(lines_with_port(lines(contents), port), seq!['\n']) + seq!['\n']
}

/// `line` ends with a carriage return (one that `str::lines` keeps, as no
/// line feed follows it).
pub open spec fn ends_with_cr(line: Seq<char>) -> bool {
    line.len() > 0 && line.last() == '\r'
}

/// The lines of `s` that setting the port keeps (all but its first port line)
/// do not end with a carriage return.
pub open spec fn kept_lines_without_cr(s: Seq<char>) -> bool {
    let ls = lines(s);
    forall|i: int|
        0 <= i < ls.len() && !(has_port_line(ls) && i == first_port_line(ls)) ==> !ends_with_cr(
            #[trigger] ls[i],
        )
}

/// Each line of `ls` without the carriage return that ends it, if any.
pub open spec fn without_crs(ls: Seq<Seq<char>>) -> Seq<Seq<char>> {
    ls.map_values(|l: Seq<char>| strip_cr(l))
}

/// The value that the first port line of the file `contents` gives, if any:
/// the text after its first separator, trimmed.
pub open spec fn port_value(contents: Seq<char>) -> Option<Seq<char>> {
    let ls = lines(contents);
    if has_port_line(ls) {
        let t = trim_start(ls[first_port_line(ls)]);
        let i = choose|i: int| is_first_separator(t, i);
        Some(trim(t.skip(i + 1)))
    } else {
        None
    }
}

// ---------------------------------------------------------------------------
// Lemmas
// ---------------------------------------------------------------------------

proof fn lemma_first_port_line_unique(ls: Seq<Seq<char>>, j: int)
    requires
        is_first_port_line(ls, j),
    ensures
        has_port_line(ls),
        first_port_line(ls) == j,
{
    let f = first_port_line(ls);
    assert(is_first_port_line(ls, f));
    if f < j {
        assert(!sets_port(ls[f]));
    }
    if j < f {
        assert(!sets_port(ls[j]));
    }
}

proof fn lemma_first_separator_unique(s: Seq<char>, i: int, j: int)
    requires
        is_first_separator(s, i),
        is_first_separator(s, j),
    ensures
        i == j,
{
    if i < j {
        assert(!is_separator(s[i]));
    }
    if j < i {
        assert(!is_separator(s[j]));
    }
}

/// The port line sets the port, and has its separator right after the key.
proof fn lemma_port_line_sets_port(port: u16)
    ensures
        sets_port(port_line(port)),
        trim_start(port_line(port)) == port_line(port),
        is_first_separator(port_line(port), 11),
        port_line(port).skip(12) == decimal(port as nat),
        port_line(port).len() > 0,
        port_line(port).last() != '\r',
        forall|i: int| 0 <= i < port_line(port).len() ==> #[trigger] port_line(port)[i] != '\n',
{
    let l = port_line(port);
    let d = decimal(port as nat);
    crate::text::lemma_decimal_value(port as nat);
    assert(!is_whitespace(l[0]));
    assert(trim_start(l) == l);
    assert forall|k: int| 0 <= k < 11 implies !is_separator(#[trigger] l[k]) by {
        assert(l[k] == port_key()[k]);
    }
    assert(is_first_separator(l, 11));
    lemma_first_separator_unique_forall(l, 11);
    let key_part = l.take(11);
    assert(key_part =~= port_key());
    assert(!is_whitespace(key_part[0]));
    assert(trim_start(key_part) == key_part);
    assert(!is_whitespace(key_part.last()));
    assert(trim_end(key_part) == key_part);
    assert(line_key(l) == Some(port_key()));
    assert(l.skip(12) =~= d);
    assert(l.last() == d.last());
    assert(crate::text::is_digit(d[d.len() - 1]));
    assert forall|i: int| 0 <= i < l.len() implies #[trigger] l[i] != '\n' by {
        if i >= 12 {
            assert(l[i] == d[i - 12]);
            assert(crate::text::is_digit(d[i - 12]));
        }
    }
}

proof fn lemma_first_separator_unique_forall(s: Seq<char>, i: int)
    requires
        is_first_separator(s, i),
    ensures
        (choose|j: int| is_first_separator(s, j)) == i,
{
    let j = choose|j: int| is_first_separator(s, j);
    lemma_first_separator_unique(s, i, j);
}

/// Text without a line feed is carried into the line in progress.
proof fn lemma_lines_from_plain(t: Seq<char>, rest: Seq<char>, current: Seq<char>)
    requires
        forall|i: int| 0 <= i < t.len() ==> #[trigger] t[i] != '\n',
    ensures
        lines_from(t + rest, current) == lines_from(rest, current + t),
    decreases t.len(),
{
    if t.len() > 0 {
        assert((t + rest)[0] == t[0]);
        assert((t + rest).drop_first() =~= t.drop_first() + rest);
        lemma_lines_from_plain(t.drop_first(), rest, current.push(t[0]));
        assert(current.push(t[0]) + t.drop_first() =~= current + t);
    } else {
        assert(t + rest =~= rest);
        assert(current + t =~= current);
    }
}

/// Lines joined by line feeds, with a final line feed, read back as the same
/// lines, each without a carriage return that ends it, where no line holds a
/// line feed.
proof fn lemma_lines_of_joined(ls: Seq<Seq<char>>)
    requires
        ls.len() >= 1,
        forall|i: int, k: int|
            0 <= i < ls.len() && 0 <= k < ls[i].len() ==> #[trigger] ls[i][k] != '\n',
    ensures
        lines(join(ls, seq!['\n']) + seq!['\n']) == without_crs(ls),
    decreases ls.len(),
{
    let ghost nl = seq!['\n'];
    let first = ls[0];
    assert(forall|k: int| 0 <= k < first.len() ==> #[trigger] first[k] != '\n') by {
        assert forall|k: int| 0 <= k < first.len() implies #[trigger] first[k] != '\n' by {
            assert(ls[0][k] != '\n');
        }
    }
    if ls.len() == 1 {
        assert(join(ls, nl) == first);
        lemma_lines_from_plain(first, nl, Seq::empty());
        assert(Seq::<char>::empty() + first =~= first);
        assert(nl.drop_first() =~= Seq::<char>::empty());
        assert(lines_from(nl, first) == seq![strip_cr(first)] + lines_from(
            Seq::<char>::empty(),
            Seq::empty(),
        ));
        assert(seq![strip_cr(first)] + Seq::<Seq<char>>::empty() =~= without_crs(ls));
    } else {
        let tail = ls.drop_first();
        lemma_lines_of_joined(tail);
        let rest = join(tail, nl) + nl;
        assert(join(ls, nl) + nl =~= first + (nl + rest));
        lemma_lines_from_plain(first, nl + rest, Seq::empty());
        assert(Seq::<char>::empty() + first =~= first);
        assert((nl + rest)[0] == '\n');
        assert((nl + rest).drop_first() =~= rest);
        assert(seq![strip_cr(first)] + without_crs(tail) =~= without_crs(ls));
    }
}

/// The lines of any text hold no line feed.
proof fn lemma_lines_have_no_line_feed(rest: Seq<char>, current: Seq<char>)
    requires
        forall|k: int| 0 <= k < current.len() ==> #[trigger] current[k] != '\n',
    ensures
        forall|i: int, k: int|
            0 <= i < lines_from(rest, current).len() && 0 <= k < lines_from(rest, current)[i].len()
                ==> #[trigger] lines_from(rest, current)[i][k] != '\n',
    decreases rest.len(),
{
    let r = lines_from(rest, current);
    if rest.len() == 0 {
        if current.len() > 0 {
            assert(r =~= seq![current]);
        }
    } else if rest[0] == '\n' {
        lemma_lines_have_no_line_feed(rest.drop_first(), Seq::empty());
        let tail = lines_from(rest.drop_first(), Seq::empty());
        assert forall|i: int, k: int| 0 <= i < r.len() && 0 <= k < r[i].len() implies #[trigger] r[i][k]
            != '\n' by {
            if i == 0 {
                assert(r[0] == strip_cr(current));
                assert(strip_cr(current)[k] == current[k]);
            } else {
                assert(r[i] == tail[i - 1]);
            }
        }
    } else {
        let c2 = current.push(rest[0]);
        assert forall|k: int| 0 <= k < c2.len() implies #[trigger] c2[k] != '\n' by {
            if k < current.len() {
                assert(c2[k] == current[k]);
            }
        }
        lemma_lines_have_no_line_feed(rest.drop_first(), c2);
        assert(r == lines_from(rest.drop_first(), c2));
    }
}

/// Setting the port keeps the first port line where it is.
proof fn lemma_lines_with_port_first(ls: Seq<Seq<char>>, port: u16)
    ensures
        has_port_line(lines_with_port(ls, port)),
        first_port_line(lines_with_port(ls, port)) == if has_port_line(ls) {
            first_port_line(ls)
        } else {
            ls.len() as int
        },
        lines_with_port(ls, port)[first_port_line(lines_with_port(ls, port))] == port_line(port),
{
    lemma_port_line_sets_port(port);
    let r = lines_with_port(ls, port);
    if has_port_line(ls) {
        let j = first_port_line(ls);
        assert(is_first_port_line(ls, j));
        assert forall|k: int| 0 <= k < j implies !sets_port(#[trigger] r[k]) by {
            assert(r[k] == ls[k]);
            assert(!sets_port(ls[k]));
        }
        assert(is_first_port_line(r, j));
        lemma_first_port_line_unique(r, j);
    } else {
        let j = ls.len() as int;
        assert forall|k: int| 0 <= k < j implies !sets_port(#[trigger] r[k]) by {
            assert(r[k] == ls[k]);
            if sets_port(ls[k]) {
                // the first port line of `ls` would exist
                lemma_some_port_line_has_first(ls, k);
            }
        }
        assert(is_first_port_line(r, j));
        lemma_first_port_line_unique(r, j);
    }
}

/// Where some line sets the port, there is a first such line.
proof fn lemma_some_port_line_has_first(ls: Seq<Seq<char>>, k: int)
    requires
        0 <= k < ls.len(),
        sets_port(ls[k]),
    ensures
        has_port_line(ls),
    decreases k,
{
    if forall|m: int| 0 <= m < k ==> !sets_port(#[trigger] ls[m]) {
        assert(is_first_port_line(ls, k));
    } else {
        let m = choose|m: int| 0 <= m < k && sets_port(#[trigger] ls[m]);
        lemma_some_port_line_has_first(ls, m);
    }
}

/// Setting the port twice to the same value changes nothing the second time.
proof fn lemma_lines_with_port_twice(ls: Seq<Seq<char>>, port: u16)
    ensures
        lines_with_port(lines_with_port(ls, port), port) == lines_with_port(ls, port),
{
    lemma_lines_with_port_first(ls, port);
    let r = lines_with_port(ls, port);
    let j = first_port_line(r);
    assert(r.update(j, port_line(port)) =~= r);
}

/// The lines of a rewritten file are the updated lines of the file, each
/// without a carriage return that ends it.
proof fn lemma_lines_of_rewritten(contents: Seq<char>, port: u16)
    ensures
        lines(properties_with_port(contents, port)) == without_crs(
            lines_with_port(lines(contents), port),
        ),
{
    let ls = lines(contents);
    let r = lines_with_port(ls, port);
    lemma_port_line_sets_port(port);
    lemma_lines_have_no_line_feed(contents, Seq::empty());
    assert forall|i: int, k: int| 0 <= i < r.len() && 0 <= k < r[i].len() implies #[trigger] r[i][k]
        != '\n' by {
        if i < ls.len() && r[i] == ls[i] {
            assert(ls[i][k] != '\n');
        } else {
            assert(r[i] == port_line(port));
        }
    }
    lemma_lines_of_joined(r);
}

/// Where the kept lines end with no carriage return, the rewritten file reads
/// back as exactly the updated lines.
proof fn lemma_lines_of_rewritten_exact(contents: Seq<char>, port: u16)
    requires
        kept_lines_without_cr(contents),
    ensures
        lines(properties_with_port(contents, port)) == lines_with_port(lines(contents), port),
{
    lemma_lines_of_rewritten(contents, port);
    let ls = lines(contents);
    let r = lines_with_port(ls, port);
    lemma_port_line_sets_port(port);
    lemma_lines_with_port_first(ls, port);
    assert forall|i: int| 0 <= i < r.len() implies strip_cr(#[trigger] r[i]) == r[i] by {
        if i == first_port_line(r) {
            assert(r[i] == port_line(port));
        } else {
            assert(r[i] == ls[i]);
            assert(!ends_with_cr(ls[i]));
        }
    }
    assert(without_crs(r) =~= r);
}

/// Appending a whitespace character to `m` appends it to the trimmed text, or
/// leaves nothing where the whole text is whitespace.
proof fn lemma_trim_start_push_whitespace(m: Seq<char>, c: char)
    requires
        is_whitespace(c),
    ensures
        trim_start(m.push(c)) == if trim_start(m).len() > 0 {
            trim_start(m).push(c)
        } else {
            Seq::<char>::empty()
        },
    decreases m.len(),
{
    if m.len() == 0 {
        assert(m.push(c).drop_first() =~= Seq::<char>::empty());
        assert(trim_start(m.push(c)) == trim_start(Seq::<char>::empty()));
    } else if is_whitespace(m[0]) {
        assert(m.push(c)[0] == m[0]);
        assert(m.push(c).drop_first() =~= m.drop_first().push(c));
        lemma_trim_start_push_whitespace(m.drop_first(), c);
    } else {
        assert(m.push(c)[0] == m[0]);
    }
}

/// A carriage return at the end of a line does not change which key the line
/// sets.
proof fn lemma_line_key_strip_cr(line: Seq<char>)
    ensures
        line_key(strip_cr(line)) == line_key(line),
{
    if ends_with_cr(line) {
        let m = line.drop_last();
        assert(line =~= m.push('\r'));
        lemma_trim_start_push_whitespace(m, '\r');
        let t0 = trim_start(m);
        let t = trim_start(line);
        if t0.len() > 0 {
            assert(t == t0.push('\r'));
            assert(t[0] == t0[0]);
            if exists|i: int| is_first_separator(t0, i) {
                let i = choose|i: int| is_first_separator(t0, i);
                assert(is_first_separator(t, i)) by {
                    assert forall|k: int| 0 <= k < i implies !is_separator(#[trigger] t[k]) by {
                        assert(t[k] == t0[k]);
                    }
                    assert(t[i] == t0[i]);
                }
                lemma_first_separator_unique_forall(t, i);
                assert(t.take(i) =~= t0.take(i));
            } else {
                assert forall|i: int| !is_first_separator(t, i) by {
                    if is_first_separator(t, i) {
                        if i == t0.len() {
                            assert(t[i] == '\r');
                        } else {
                            assert forall|k: int| 0 <= k < i implies !is_separator(
                                #[trigger] t0[k],
                            ) by {
                                assert(t[k] == t0[k]);
                            }
                            assert(t[i] == t0[i]);
                            assert(is_first_separator(t0, i));
                        }
                    }
                }
            }
        }
    }
}

/// Dropping the carriage returns that end lines keeps the first port line in
/// its place.
proof fn lemma_first_port_line_without_crs(ls: Seq<Seq<char>>, j: int)
    requires
        is_first_port_line(ls, j),
    ensures
        is_first_port_line(without_crs(ls), j),
{
    let w = without_crs(ls);
    lemma_line_key_strip_cr(ls[j]);
    assert forall|k: int| 0 <= k < j implies !sets_port(#[trigger] w[k]) by {
        lemma_line_key_strip_cr(ls[k]);
        assert(!sets_port(ls[k]));
    }
}

// ---------------------------------------------------------------------------
// Laws
// ---------------------------------------------------------------------------

/// Setting the port is idempotent: setting it again to the same value leaves
/// the file as it is, for every file in which no kept line ends with a stray
/// carriage return (such a `'\r'` is read as part of its line but is dropped
/// when the rewritten file is read again; on the first port line, which is
/// replaced, it does no harm).
pub proof fn law_set_port_idempotent(contents: Seq<char>, port: u16)
    requires
        kept_lines_without_cr(contents),
    ensures
        properties_with_port(properties_with_port(contents, port), port) == properties_with_port(
            contents,
            port,
        ),
{
    lemma_lines_of_rewritten_exact(contents, port);
    lemma_lines_with_port_twice(lines(contents), port);
}

/// After the port is set, the file sets the port to exactly that number, and
/// the value reads back as the number: its first port line has the value
/// `decimal(port)`, which `str::parse::<u16>` reads as `port`. This holds of
/// every file.
pub proof fn law_set_port_reads_back(contents: Seq<char>, port: u16)
    ensures
        port_value(properties_with_port(contents, port)) == Some(decimal(port as nat)),
        crate::text::parse_integer(decimal(port as nat), 0, 0xffff) == Some(port as int),
{
    lemma_lines_of_rewritten(contents, port);
    let ls = lines(contents);
    let r = lines_with_port(ls, port);
    lemma_lines_with_port_first(ls, port);
    lemma_port_line_sets_port(port);
    let j = first_port_line(r);
    assert(is_first_port_line(r, j));
    lemma_first_port_line_without_crs(r, j);
    lemma_first_port_line_unique(without_crs(r), j);
    let l = port_line(port);
    assert(without_crs(r)[j] == strip_cr(l));
    assert(strip_cr(l) == l);
    lemma_first_separator_unique_forall(l, 11);
    crate::text::lemma_decimal_value(port as nat);
    let d = decimal(port as nat);
    assert(!is_whitespace(d[0])) by {
        assert(crate::text::is_digit(d[0]));
    }
    assert(trim_start(d) == d);
    assert(!is_whitespace(d.last())) by {
        assert(crate::text::is_digit(d[d.len() - 1]));
    }
    assert(trim_end(d) == d);
    crate::text::lemma_parse_decimal(port as nat, 0, 0xffff);
}

/// Setting the port touches only the port line: reading the rewritten file
/// gives back every other line of the file unchanged and in its place, where
/// that line does not end with a stray carriage return.
pub proof fn law_set_port_keeps_other_lines(contents: Seq<char>, port: u16, i: int)
    requires
        0 <= i < lines(contents).len(),
        !(has_port_line(lines(contents)) && i == first_port_line(lines(contents))),
        !ends_with_cr(lines(contents)[i]),
    ensures
        lines(properties_with_port(contents, port))[i] == lines(contents)[i],
{
    lemma_lines_of_rewritten(contents, port);
    let ls = lines(contents);
    let r = lines_with_port(ls, port);
    assert(r[i] == ls[i]);
}

// ---------------------------------------------------------------------------
// Executable code
// ---------------------------------------------------------------------------

/// The key of the port setting, as characters.
fn port_key_chars() -> (k: Vec<char>)
    ensures
        k@ == port_key(),
{
    let k = vec!['s', 'e', 'r', 'v', 'e', 'r', '-', 'p', 'o', 'r', 't'];
    assert(k@ =~= port_key());
    k
}

/// Whether `line` sets the port.
fn line_sets_port(line: &Vec<char>, key: &Vec<char>) -> (b: bool)
    requires
        key@ == port_key(),
    ensures
        b == sets_port(line@),
{
    let n = line.len();
    let ts = skip_whitespace(line, 0, n);
    let ghost t = line@.subrange(ts as int, n as int);
    assert(line@.subrange(0, n as int) =~= line@);
    if ts == n {
        return false;
    }
    assert(t[0] == line@[ts as int]);
    if line[ts] == '#' || line[ts] == '!' {
        return false;
    }
    let mut sep = ts;
    while sep < n && line[sep] != '=' && line[sep] != ':'
        invariant
            ts <= sep <= n == line.len(),
            t == line@.subrange(ts as int, n as int),
            forall|k: int| 0 <= k < sep - ts ==> !is_separator(#[trigger] t[k]),
        decreases n - sep,
    {
        assert(t[sep - ts] == line@[sep as int]);
        sep = sep + 1;
    }
    if sep == n {
        assert forall|i: int| !is_first_separator(t, i) by {
            if is_first_separator(t, i) {
                assert(!is_separator(t[i]));
            }
        }
        return false;
    }
    assert(t[sep - ts] == line@[sep as int]);
    assert(is_first_separator(t, sep - ts));
    proof {
        lemma_first_separator_unique_forall(t, (sep - ts) as int);
    }
    assert(t.take(sep - ts) =~= line@.subrange(ts as int, sep as int));
    let ks = skip_whitespace(line, ts, sep);
    let ke = drop_trailing_whitespace(line, ks, sep);
    range_equals(line, ks, ke, key)
}

/// The text of the properties file `contents` with the server port set to
/// `port`: the first line whose key is `server-port` becomes
/// `server-port=<port>` (or that line is appended), the other lines are kept,
/// and the lines are joined by `'\n'` with a final `'\n'`.
pub fn set_server_port(contents: &str, port: u16) -> (out: String)
    ensures
        out@ == properties_with_port(contents@, port),
{
    let v = chars_of(contents);
    let mut ls = split_lines(&v);
    let key = port_key_chars();
    let mut new_line = port_key_chars();
    new_line.push('=');
    push_decimal(&mut new_line, port as u64);
    assert(new_line@ =~= port_line(port));
    let ghost orig = line_views(ls@);
    let mut j: usize = 0;
    let mut found = false;
    while j < ls.len()
        invariant_except_break
            !found,
        invariant
            j <= ls.len(),
            orig == line_views(ls@),
            key@ == port_key(),
            forall|k: int| 0 <= k < j ==> !sets_port(#[trigger] orig[k]),
        ensures
            j <= ls.len(),
            orig == line_views(ls@),
            key@ == port_key(),
            forall|k: int| 0 <= k < j ==> !sets_port(#[trigger] orig[k]),
            found ==> j < ls.len() && sets_port(orig[j as int]),
            !found ==> j == ls.len(),
        decreases ls.len() - j,
    {
        assert(orig[j as int] == ls@[j as int]@);
        if line_sets_port(&ls[j], &key) {
            found = true;
            break;
        }
        j = j + 1;
    }
    if found {
        assert(is_first_port_line(orig, j as int));
        proof {
            lemma_first_port_line_unique(orig, j as int);
        }
        ls.set(j, new_line);
        assert(line_views(ls@) =~= orig.update(j as int, port_line(port)));
    } else {
        assert(!has_port_line(orig)) by {
            if has_port_line(orig) {
                let f = first_port_line(orig);
                assert(is_first_port_line(orig, f));
            }
        }
        ls.push(new_line);
        assert(line_views(ls@) =~= orig.push(port_line(port)));
    }
    let ghost updated = line_views(ls@);
    assert(updated == lines_with_port(lines(contents@), port));
    let mut out: Vec<char> = Vec::new();
    let mut i: usize = 0;
    let ghost nl = seq!['\n'];
    while i < ls.len()
        invariant
            i <= ls.len(),
            updated == line_views(ls@),
            updated.len() >= 1,
            nl == seq!['\n'],
            i == 0 ==> out@ == Seq::<char>::empty(),
            i > 0 ==> out@ == join(updated.take(i as int), nl),
        decreases ls.len() - i,
    {
        let ghost before = out@;
        assert(updated[i as int] == ls@[i as int]@);
        if i > 0 {
            out.push('\n');
            let ghost mid = out@;
            assert(mid =~= before + nl);
            append_chars(&mut out, &ls[i]);
            assert(out@ == mid + updated[i as int]);
            proof {
                lemma_join_push(updated.take(i as int), updated[i as int], nl);
                assert(updated.take(i as int).push(updated[i as int]) =~= updated.take(i + 1));
                assert(out@ =~= before + nl + updated[i as int]);
            }
        } else {
            append_chars(&mut out, &ls[i]);
            assert(updated.take(1) =~= seq![updated[0]]);
            assert(out@ =~= updated[0]);
        }
        i = i + 1;
    }
    assert(updated.take(updated.len() as int) =~= updated);
    out.push('\n');
    string_from_chars(out.as_slice())
}

} // verus!
