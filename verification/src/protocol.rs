//! Inbound protocol text: splitting a message into header block and body,
//! and parsing header lines into key/value pairs.
//!
//! A message is text whose header block ends at the first blank line
//! (`\r\n\r\n`); each header line has the form `Key: Value`, split at the
//! first colon, with surrounding ASCII whitespace trimmed from both parts.

use vstd::prelude::*;
use vstd::string::*;

verus! {

/// Whether a four-character blank-line separator starts at `i`.
pub open spec fn is_blank_line_at(s: Seq<char>, i: int) -> bool {
    &&& 0 <= i
    &&& i + 4 <= s.len()
    &&& s[i] == '\r'
    &&& s[i + 1] == '\n'
    &&& s[i + 2] == '\r'
    &&& s[i + 3] == '\n'
}

/// The least position at or after `from` where a blank-line separator
/// starts, if any.
pub open spec fn find_blank_line(s: Seq<char>, from: int) -> Option<int>
    decreases s.len() - from when 0 <= from
{
    if from + 4 > s.len() {
        None
    } else if is_blank_line_at(s, from) {
        Some(from)
    } else {
        find_blank_line(s, from + 1)
    }
}

/// What [`split_header_body`] returns: the text before the first blank
/// line and the text after it, or the whole text and an empty body when
/// no blank line occurs.
pub open spec fn spec_split_header_body(s: Seq<char>) -> (Seq<char>, Seq<char>) {
    match find_blank_line(s, 0) {
        Some(i) => (s.take(i), s.skip(i + 4)),
        None => (s, Seq::empty()),
    }
}

/// The ASCII whitespace characters trimmed from header keys and values.
pub open spec fn is_ascii_space(c: char) -> bool {
    c == ' ' || c == '\t' || c == '\r' || c == '\n'
}

/// The sequence without its leading ASCII whitespace.
pub open spec fn spec_trim_start(s: Seq<char>) -> Seq<char>
    decreases s.len(),
{
    if s.len() > 0 && is_ascii_space(s[0]) {
        spec_trim_start(s.drop_first())
    } else {
        s
    }
}

/// The sequence without its trailing ASCII whitespace.
pub open spec fn spec_trim_end(s: Seq<char>) -> Seq<char>
    decreases s.len(),
{
    if s.len() > 0 && is_ascii_space(s.last()) {
        spec_trim_end(s.drop_last())
    } else {
        s
    }
}

/// The sequence without leading and trailing ASCII whitespace.
pub open spec fn spec_trim(s: Seq<char>) -> Seq<char> {
    spec_trim_end(spec_trim_start(s))
}

/// The least position at or after `from` holding character `c`, if any.
pub open spec fn find_char(s: Seq<char>, c: char, from: int) -> Option<int>
    decreases s.len() - from when 0 <= from
{
    if from >= s.len() {
        None
    } else if s[from] == c {
        Some(from)
    } else {
        find_char(s, c, from + 1)
    }
}

/// What one header line parses to: the trimmed text before the first
/// colon as the key, the trimmed text after it as the value; a line
/// without a colon is all key, with an empty value.
pub open spec fn spec_parse_header_line(line: Seq<char>) -> (Seq<char>, Seq<char>) {
    match find_char(line, ':', 0) {
        Some(i) => (spec_trim(line.take(i)), spec_trim(line.skip(i + 1))),
        None => (spec_trim(line), Seq::empty()),
    }
}

/// The lines of a header block, split at each `\r\n`; `cur` is the part
/// of the current line already scanned.
pub open spec fn spec_split_lines_acc(s: Seq<char>, cur: Seq<char>) -> Seq<Seq<char>>
    decreases s.len(),
{
    if s.len() >= 2 && s[0] == '\r' && s[1] == '\n' {
        seq![cur] + spec_split_lines_acc(s.skip(2), Seq::empty())
    } else if s.len() >= 1 {
        spec_split_lines_acc(s.skip(1), cur.push(s[0]))
    } else {
        seq![cur]
    }
}

/// The lines of a header block, split at each `\r\n` separator.
pub open spec fn spec_split_lines(s: Seq<char>) -> Seq<Seq<char>> {
    spec_split_lines_acc(s, Seq::empty())
}

/// The key/value pairs of a sequence of lines: every non-empty line,
/// parsed by [`spec_parse_header_line`], in order.
pub open spec fn spec_header_pairs(lines: Seq<Seq<char>>) -> Seq<(Seq<char>, Seq<char>)>
    decreases lines.len(),
{
    if lines.len() == 0 {
        Seq::empty()
    } else {
        let rest = spec_header_pairs(lines.drop_first());
        if lines[0].len() > 0 {
            seq![spec_parse_header_line(lines[0])] + rest
        } else {
            rest
        }
    }
}

/// What [`parse_headers`] returns for a header block.
pub open spec fn spec_parse_headers(s: Seq<char>) -> Seq<(Seq<char>, Seq<char>)> {
    spec_header_pairs(spec_split_lines(s))
}

/// Whether a character is trimmed as ASCII whitespace.
fn is_ascii_space_char(c: char) -> (r: bool)
    ensures
        r == is_ascii_space(c),
{
    c == ' ' || c == '\t' || c == '\r' || c == '\n'
}

/// The least blank-line position, found by a forward scan.
fn find_blank_line_exec(s: &str) -> (r: Option<usize>)
    ensures
        r matches Some(i) ==> find_blank_line(s@, 0) == Some(i as int) && is_blank_line_at(
            s@,
            i as int,
        ),
        r is None ==> find_blank_line(s@, 0) is None,
{
    let n = s.unicode_len();
    if n < 4 {
        return None;
    }
    let mut i: usize = 0;
    while i <= n - 4
        invariant
            0 <= i <= n - 3,
            4 <= n == s@.len(),
            find_blank_line(s@, 0) == find_blank_line(s@, i as int),
        decreases n - i,
    {
        if s.get_char(i) == '\r' && s.get_char(i + 1) == '\n' && s.get_char(i + 2) == '\r'
            && s.get_char(i + 3) == '\n' {
            return Some(i);
        }
        i = i + 1;
    }
    None
}

/// Split a message at the first blank line into its header block and its
/// body. A message without a blank line is all header, with an empty
/// body.
pub fn split_header_body(s: &str) -> (r: (String, String))
    ensures
        r.0@ == spec_split_header_body(s@).0,
        r.1@ == spec_split_header_body(s@).1,
{
    let n = s.unicode_len();
    match find_blank_line_exec(s) {
        Some(i) => {
            let header = s.substring_char(0, i);
            let body = s.substring_char(i + 4, n);
            proof {
                assert(header@ =~= s@.take(i as int));
                assert(body@ =~= s@.skip(i + 4));
            }
            (String::from_str(header), String::from_str(body))
        },
        None => (String::from_str(s), String::new()),
    }
}

/// Trim leading and trailing ASCII whitespace from a string.
fn trim_str(s: &str) -> (r: String)
    ensures
        r@ == spec_trim(s@),
{
    let n = s.unicode_len();
    let mut a: usize = 0;
    proof {
        assert(s@.skip(0) =~= s@);
    }
    while a < n && is_ascii_space_char(s.get_char(a))
        invariant
            0 <= a <= n,
            n == s@.len(),
            spec_trim_start(s@) == spec_trim_start(s@.skip(a as int)),
        decreases n - a,
    {
        proof {
            assert(s@.skip(a as int).drop_first() =~= s@.skip(a + 1));
        }
        a = a + 1;
    }
    proof {
        assert(spec_trim_start(s@.skip(a as int)) == s@.skip(a as int));
    }
    let mut b: usize = n;
    proof {
        let t = s@.skip(a as int);
        assert(t.take(n - a as int) =~= t);
    }
    while b > a && is_ascii_space_char(s.get_char(b - 1))
        invariant
            a <= b <= n,
            n == s@.len(),
            spec_trim_start(s@) == s@.skip(a as int),
            spec_trim_end(s@.skip(a as int)) == spec_trim_end(
                s@.skip(a as int).take(b - a as int),
            ),
        decreases b,
    {
        proof {
            let t = s@.skip(a as int);
            assert(t.take(b - a as int).drop_last() =~= t.take(b - 1 - a as int));
            assert(t.take(b - a as int).last() == s@[b - 1]);
        }
        b = b - 1;
    }
    proof {
        let t = s@.skip(a as int);
        let u = t.take(b - a as int);
        if b > a {
            assert(u.last() == s@[b - 1]);
        }
        assert(spec_trim_end(u) == u);
        assert(u =~= s@.subrange(a as int, b as int));
    }
    let out = s.substring_char(a, b);
    String::from_str(out)
}

/// Parse one header line: split at the first colon, trim both parts.
fn parse_header_line(line: &str) -> (r: (String, String))
    ensures
        r.0@ == spec_parse_header_line(line@).0,
        r.1@ == spec_parse_header_line(line@).1,
{
    let n = line.unicode_len();
    let mut i: usize = 0;
    while i < n && line.get_char(i) != ':'
        invariant
            0 <= i <= n,
            n == line@.len(),
            find_char(line@, ':', 0) == find_char(line@, ':', i as int),
        decreases n - i,
    {
        i = i + 1;
    }
    if i < n {
        let k = line.substring_char(0, i);
        let v = line.substring_char(i + 1, n);
        proof {
            assert(k@ =~= line@.take(i as int));
            assert(v@ =~= line@.skip(i + 1));
        }
        (trim_str(k), trim_str(v))
    } else {
        (trim_str(line), String::new())
    }
}

/// Peeling one separator-terminated line off the scan: when no `\r\n`
/// occurs before position `k` and one starts at `k`, the line split
/// yields the current line extended by the scanned prefix, then the
/// lines of the rest.
proof fn lemma_split_lines_acc_peel(s: Seq<char>, cur: Seq<char>, k: int)
    requires
        0 <= k,
        k + 2 <= s.len(),
        s[k] == '\r',
        s[k + 1] == '\n',
        forall|j: int| 0 <= j < k ==> !(#[trigger] s[j] == '\r' && s[j + 1] == '\n'),
    ensures
        spec_split_lines_acc(s, cur) == seq![cur + s.take(k)] + spec_split_lines_acc(
            s.skip(k + 2),
            Seq::empty(),
        ),
    decreases k,
{
    if k == 0 {
        assert(cur + s.take(0) =~= cur);
        assert(s.skip(2) =~= s.skip(k + 2));
    } else {
        assert(!(s[0] == '\r' && s[1] == '\n'));
        let s1 = s.skip(1);
        assert(forall|j: int| 0 <= j < k - 1 ==> !(#[trigger] s1[j] == '\r' && s1[j + 1] == '\n'));
        lemma_split_lines_acc_peel(s1, cur.push(s[0]), k - 1);
        assert(cur.push(s[0]) + s1.take(k - 1) =~= cur + s.take(k));
        assert(s1.skip(k + 1) =~= s.skip(k + 2));
        assert(spec_split_lines_acc(s, cur) == spec_split_lines_acc(s1, cur.push(s[0])));
    }
}

/// When no `\r\n` occurs anywhere in the text, the whole text is the one
/// remaining line.
proof fn lemma_split_lines_acc_last(s: Seq<char>, cur: Seq<char>)
    requires
        forall|j: int| 0 <= j < s.len() - 1 ==> !(#[trigger] s[j] == '\r' && s[j + 1] == '\n'),
    ensures
        spec_split_lines_acc(s, cur) == seq![cur + s],
    decreases s.len(),
{
    if s.len() == 0 {
        assert(cur + s =~= cur);
    } else if s.len() == 1 {
        assert(cur.push(s[0]) + s.skip(1) =~= cur + s);
        lemma_split_lines_acc_last(s.skip(1), cur.push(s[0]));
    } else {
        let s1 = s.skip(1);
        assert(forall|j: int|
            0 <= j < s1.len() - 1 ==> !(#[trigger] s1[j] == '\r' && s1[j + 1] == '\n'));
        lemma_split_lines_acc_last(s1, cur.push(s[0]));
        assert(cur.push(s[0]) + s1 =~= cur + s);
    }
}

/// Parse a header block into its key/value pairs: one pair per non-empty
/// line, in order.
pub fn parse_headers(s: &str) -> (r: Vec<(String, String)>)
    ensures
        r.deep_view() == spec_parse_headers(s@),
{
    let n = s.unicode_len();
    let mut out: Vec<(String, String)> = Vec::new();
    let mut pos: usize = 0;
    let mut line_start: usize = 0;
    proof {
        assert(out.deep_view() =~= Seq::<(Seq<char>, Seq<char>)>::empty());
        assert(s@.skip(0) =~= s@);
        assert(out.deep_view() + spec_parse_headers(s@) =~~= spec_parse_headers(s@));
    }
    while pos < n
        invariant
            0 <= line_start <= pos <= n,
            n == s@.len(),
            forall|j: int|
                line_start <= j < pos ==> !(#[trigger] s@[j] == '\r' && j + 1 < n && s@[j + 1]
                    == '\n'),
            spec_parse_headers(s@) == out.deep_view() + spec_header_pairs(
                spec_split_lines_acc(s@.skip(line_start as int), Seq::empty()),
            ),
        decreases n - pos,
    {
        let mut is_sep = false;
        if s.get_char(pos) == '\r' && pos + 1 < n {
            if s.get_char(pos + 1) == '\n' {
                is_sep = true;
            }
        }
        if is_sep {
            let line = s.substring_char(line_start, pos);
            proof {
                let t = s@.skip(line_start as int);
                let k = pos - line_start as int;
                assert(forall|j: int|
                    0 <= j < k ==> !(#[trigger] t[j] == '\r' && t[j + 1] == '\n'));
                lemma_split_lines_acc_peel(t, Seq::empty(), k);
                assert(Seq::<char>::empty() + t.take(k) =~= line@);
                assert(t.skip(k + 2) =~= s@.skip(pos + 2));
            }
            let ghost rest = spec_split_lines_acc(s@.skip(pos + 2), Seq::<char>::empty());
            proof {
                assert((seq![line@] + rest).drop_first() =~= rest);
                assert((seq![line@] + rest)[0] == line@);
            }
            if line.unicode_len() > 0 {
                let pair = parse_header_line(line);
                let ghost old_out = out.deep_view();
                out.push(pair);
                proof {
                    assert(out.deep_view() =~~= old_out + seq![(pair.0@, pair.1@)]);
                    assert(spec_header_pairs(seq![line@] + rest) == seq![
                        spec_parse_header_line(line@),
                    ] + spec_header_pairs(rest));
                    assert(out.deep_view() + spec_header_pairs(rest) =~~= spec_parse_headers(s@));
                }
            } else {
                proof {
                    assert(line@.len() == 0);
                    assert(spec_header_pairs(seq![line@] + rest) == spec_header_pairs(rest));
                }
            }
            pos = pos + 2;
            line_start = pos;
        } else {
            pos = pos + 1;
        }
    }
    let line = s.substring_char(line_start, n);
    proof {
        let t = s@.skip(line_start as int);
        assert(forall|j: int| 0 <= j < t.len() - 1 ==> !(#[trigger] t[j] == '\r' && t[j + 1]
            == '\n'));
        lemma_split_lines_acc_last(t, Seq::empty());
        assert(Seq::<char>::empty() + t =~= line@);
        assert((seq![line@]).drop_first() =~= Seq::<Seq<char>>::empty());
        assert((seq![line@])[0] == line@);
    }
    if line.unicode_len() > 0 {
        let pair = parse_header_line(line);
        let ghost old_out = out.deep_view();
        out.push(pair);
        proof {
            assert(out.deep_view() =~~= old_out + seq![(pair.0@, pair.1@)]);
            assert(seq![spec_parse_header_line(line@)] + spec_header_pairs(
                Seq::<Seq<char>>::empty(),
            ) =~~= seq![spec_parse_header_line(line@)]);
            assert(spec_header_pairs(seq![line@]) =~~= seq![spec_parse_header_line(line@)]);
            assert(out.deep_view() =~~= spec_parse_headers(s@));
        }
    } else {
        proof {
            assert(line@.len() == 0);
            assert((seq![line@]).drop_first() =~= Seq::<Seq<char>>::empty());
            assert(spec_header_pairs(Seq::<Seq<char>>::empty())
                =~~= Seq::<(Seq<char>, Seq<char>)>::empty());
            assert(spec_header_pairs(seq![line@]) =~~= Seq::<(Seq<char>, Seq<char>)>::empty());
            assert(out.deep_view() + Seq::<(Seq<char>, Seq<char>)>::empty() =~~= out.deep_view());
        }
    }
    out
}

} // verus!
