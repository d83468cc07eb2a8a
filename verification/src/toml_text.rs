//! The textual format of the tool's configuration files: a flat table of
//! `key = "value"` lines.
//!
//! This module defines the grammar as specification functions — rendering a
//! sequence of key/value pairs to text, and parsing text back to pairs — and
//! provides verified executable rendering and parsing, together with a proof
//! that rendering followed by parsing gives the same pairs back.
//!
//! The grammar is the flat subset of TOML that these files use: blank lines,
//! `#` comments, and bare keys bound to basic (`"..."`, with escapes) or
//! literal (`'...'`) strings.

use vstd::prelude::*;

verus! {

/// Space characters inside a line.
pub open spec fn is_space_char(c: char) -> bool {
    c == ' ' || c == '\t'
}

/// Characters a bare key may consist of.
pub open spec fn is_key_char(c: char) -> bool {
    ('a' <= c && c <= 'z') || ('A' <= c && c <= 'Z') || ('0' <= c && c <= '9') || c == '_' || c
        == '-'
}

/// A well-formed bare key: nonempty, made of key characters only.
pub open spec fn wf_key(k: Seq<char>) -> bool {
    k.len() > 0 && (forall|i: int| 0 <= i < k.len() ==> is_key_char(#[trigger] k[i]))
}

/// The hexadecimal digit for `n` (uppercase), for `0 <= n < 16`.
pub open spec fn hex_digit_char(n: int) -> char {
    if n == 0 {
        '0'
    } else if n == 1 {
        '1'
    } else if n == 2 {
        '2'
    } else if n == 3 {
        '3'
    } else if n == 4 {
        '4'
    } else if n == 5 {
        '5'
    } else if n == 6 {
        '6'
    } else if n == 7 {
        '7'
    } else if n == 8 {
        '8'
    } else if n == 9 {
        '9'
    } else if n == 10 {
        'A'
    } else if n == 11 {
        'B'
    } else if n == 12 {
        'C'
    } else if n == 13 {
        'D'
    } else if n == 14 {
        'E'
    } else {
        'F'
    }
}

/// The value of a hexadecimal digit character, or -1 if it is none.
pub open spec fn hex_char_val(c: char) -> int {
    if '0' <= c && c <= '9' {
        c as int - '0' as int
    } else if 'a' <= c && c <= 'f' {
        c as int - 'a' as int + 10
    } else if 'A' <= c && c <= 'F' {
        c as int - 'A' as int + 10
    } else {
        -1
    }
}

pub open spec fn is_hex_char(c: char) -> bool {
    hex_char_val(c) >= 0
}

/// How one character of a value is written inside a basic string.
pub open spec fn escape_char(c: char) -> Seq<char> {
    if c == '"' {
        seq!['\\', '"']
    } else if c == '\\' {
        seq!['\\', '\\']
    } else if c == '\u{8}' {
        seq!['\\', 'b']
    } else if c == '\t' {
        seq!['\\', 't']
    } else if c == '\n' {
        seq!['\\', 'n']
    } else if c == '\u{c}' {
        seq!['\\', 'f']
    } else if c == '\r' {
        seq!['\\', 'r']
    } else if (c as u32) < 0x20 || (c as u32) == 0x7f {
        seq![
            '\\',
            'u',
            '0',
            '0',
            hex_digit_char((c as u32 / 16) as int),
            hex_digit_char((c as u32 % 16) as int),
        ]
    } else {
        seq![c]
    }
}

/// How a whole value is written inside a basic string.
pub open spec fn escape_str(s: Seq<char>) -> Seq<char>
    decreases s.len(),
{
    if s.len() == 0 {
        Seq::empty()
    } else {
        escape_char(s[0]) + escape_str(s.drop_first())
    }
}

/// One rendered binding, without its terminating newline.
pub open spec fn render_kv_body(k: Seq<char>, v: Seq<char>) -> Seq<char> {
    k + seq![' ', '=', ' ', '"'] + escape_str(v) + seq!['"']
}

/// One rendered binding line.
pub open spec fn render_kv_line(k: Seq<char>, v: Seq<char>) -> Seq<char> {
    render_kv_body(k, v) + seq!['\n']
}

/// The rendered document: one line per pair, in order.
pub open spec fn render_pairs(ps: Seq<(Seq<char>, Seq<char>)>) -> Seq<char>
    decreases ps.len(),
{
    if ps.len() == 0 {
        Seq::empty()
    } else {
        render_kv_line(ps[0].0, ps[0].1) + render_pairs(ps.drop_first())
    }
}

/// Splits off the first line: the text before the first `'\n'`, and the
/// text after it (all of `s` and the empty sequence when `s` has none).
pub open spec fn line_split(s: Seq<char>) -> (Seq<char>, Seq<char>)
    decreases s.len(),
{
    if s.len() == 0 {
        (Seq::empty(), Seq::empty())
    } else if s[0] == '\n' {
        (Seq::empty(), s.drop_first())
    } else {
        let (l, r) = line_split(s.drop_first());
        (seq![s[0]] + l, r)
    }
}

/// The first position at or after `i` that does not hold a space character.
pub open spec fn skip_spaces(s: Seq<char>, i: int) -> int
    decreases s.len() - i,
{
    if 0 <= i < s.len() && is_space_char(s[i]) {
        skip_spaces(s, i + 1)
    } else {
        i
    }
}

/// The first position at or after `i` that does not hold a key character.
pub open spec fn scan_key(s: Seq<char>, i: int) -> int
    decreases s.len() - i,
{
    if 0 <= i < s.len() && is_key_char(s[i]) {
        scan_key(s, i + 1)
    } else {
        i
    }
}

/// The character a short escape `\e` stands for, if `e` is one.
pub open spec fn unescape_short(e: char) -> Option<char> {
    if e == '"' {
        Some('"')
    } else if e == '\\' {
        Some('\\')
    } else if e == 'b' {
        Some('\u{8}')
    } else if e == 't' {
        Some('\t')
    } else if e == 'n' {
        Some('\n')
    } else if e == 'f' {
        Some('\u{c}')
    } else if e == 'r' {
        Some('\r')
    } else {
        None
    }
}

/// Characters that may stand unescaped inside a basic string.
pub open spec fn is_plain_basic_char(c: char) -> bool {
    c != '"' && c != '\\' && (c == '\t' || ((c as u32) >= 0x20 && (c as u32) != 0x7f))
}

/// Characters that may stand inside a literal string.
pub open spec fn is_plain_literal_char(c: char) -> bool {
    c != '\'' && (c == '\t' || ((c as u32) >= 0x20 && (c as u32) != 0x7f))
}

/// Parses the rest of a basic string starting just after the opening quote
/// at position `i`; yields the value and the position after the closing
/// quote. Accepts the short escapes and `\u` escapes of code points below
/// 0x80 (the escapes that rendering emits).
pub open spec fn parse_basic_str(s: Seq<char>, i: int) -> Option<(Seq<char>, int)>
    decreases s.len() - i,
{
    if i < 0 || i >= s.len() {
        None
    } else if s[i] == '"' {
        Some((Seq::empty(), i + 1))
    } else if s[i] == '\\' {
        if i + 1 >= s.len() {
            None
        } else if s[i + 1] == 'u' {
            if i + 5 >= s.len() {
                None
            } else if is_hex_char(s[i + 2]) && is_hex_char(s[i + 3]) && is_hex_char(s[i + 4])
                && is_hex_char(s[i + 5]) {
                let v = hex_char_val(s[i + 2]) * 4096 + hex_char_val(s[i + 3]) * 256 + hex_char_val(
                    s[i + 4],
                ) * 16 + hex_char_val(s[i + 5]);
                if v < 0x80 {
                    match parse_basic_str(s, i + 6) {
                        Some((rest, j)) => Some((seq![v as char] + rest, j)),
                        None => None,
                    }
                } else {
                    None
                }
            } else {
                None
            }
        } else {
            match unescape_short(s[i + 1]) {
                Some(c) => match parse_basic_str(s, i + 2) {
                    Some((rest, j)) => Some((seq![c] + rest, j)),
                    None => None,
                },
                None => None,
            }
        }
    } else if is_plain_basic_char(s[i]) {
        match parse_basic_str(s, i + 1) {
            Some((rest, j)) => Some((seq![s[i]] + rest, j)),
            None => None,
        }
    } else {
        None
    }
}

/// Parses the rest of a literal string starting just after the opening
/// single quote at position `i`.
pub open spec fn parse_literal_str(s: Seq<char>, i: int) -> Option<(Seq<char>, int)>
    decreases s.len() - i,
{
    if i < 0 || i >= s.len() {
        None
    } else if s[i] == '\'' {
        Some((Seq::empty(), i + 1))
    } else if is_plain_literal_char(s[i]) {
        match parse_literal_str(s, i + 1) {
            Some((rest, j)) => Some((seq![s[i]] + rest, j)),
            None => None,
        }
    } else {
        None
    }
}

/// A line with one trailing carriage return removed.
pub open spec fn strip_trailing_cr(line: Seq<char>) -> Seq<char> {
    if line.len() > 0 && line[line.len() - 1] == '\r' {
        line.take(line.len() - 1)
    } else {
        line
    }
}

/// Whether only spaces, or spaces and then a comment, follow position `q`.
pub open spec fn line_end_ok(s: Seq<char>, q: int) -> bool {
    let r = skip_spaces(s, q);
    r >= s.len() || s[r] == '#'
}

/// Parses one line (without its newline): `None` on a malformed line,
/// `Some(None)` on a blank or comment line, `Some(Some((k, v)))` on a
/// binding.
pub open spec fn parse_line(raw: Seq<char>) -> Option<Option<(Seq<char>, Seq<char>)>> {
    let s = strip_trailing_cr(raw);
    let i = skip_spaces(s, 0);
    if i >= s.len() {
        Some(None)
    } else if s[i] == '#' {
        Some(None)
    } else {
        let j = scan_key(s, i);
        if j == i {
            None
        } else {
            let k = s.subrange(i, j);
            let m = skip_spaces(s, j);
            if m >= s.len() || s[m] != '=' {
                None
            } else {
                let p = skip_spaces(s, m + 1);
                if p >= s.len() {
                    None
                } else if s[p] == '"' {
                    match parse_basic_str(s, p + 1) {
                        Some((v, q)) => if line_end_ok(s, q) {
                            Some(Some((k, v)))
                        } else {
                            None
                        },
                        None => None,
                    }
                } else if s[p] == '\'' {
                    match parse_literal_str(s, p + 1) {
                        Some((v, q)) => if line_end_ok(s, q) {
                            Some(Some((k, v)))
                        } else {
                            None
                        },
                        None => None,
                    }
                } else {
                    None
                }
            }
        }
    }
}

/// Parses a whole document into its key/value pairs, in order of
/// appearance; `None` when some line is malformed.
pub open spec fn parse_doc(s: Seq<char>) -> Option<Seq<(Seq<char>, Seq<char>)>>
    decreases s.len(),
    via parse_doc_decreases
{
    if s.len() == 0 {
        Some(Seq::empty())
    } else {
        let (line, rest) = line_split(s);
        match parse_line(line) {
            None => None,
            Some(kv_opt) => match parse_doc(rest) {
                None => None,
                Some(ps) => match kv_opt {
                    Some(kv) => Some(seq![kv] + ps),
                    None => Some(ps),
                },
            },
        }
    }
}

#[via_fn]
proof fn parse_doc_decreases(s: Seq<char>) {
    lemma_line_split_len(s);
}

/// The rest of a document is strictly shorter than the document.
pub proof fn lemma_line_split_len(s: Seq<char>)
    ensures
        s.len() > 0 ==> line_split(s).1.len() < s.len(),
        line_split(s).1.len() <= s.len(),
        line_split(s).0.len() <= s.len(),
    decreases s.len(),
{
    if s.len() > 0 && s[0] != '\n' {
        lemma_line_split_len(s.drop_first());
    }
}

/// The value bound to the first occurrence of `k`, if any.
pub open spec fn pairs_lookup(ps: Seq<(Seq<char>, Seq<char>)>, k: Seq<char>) -> Option<Seq<char>>
    decreases ps.len(),
{
    if ps.len() == 0 {
        None
    } else if ps[0].0 == k {
        Some(ps[0].1)
    } else {
        pairs_lookup(ps.drop_first(), k)
    }
}

/// No key occurs twice.
pub open spec fn pairs_distinct(ps: Seq<(Seq<char>, Seq<char>)>) -> bool {
    forall|i: int, j: int| 0 <= i < j < ps.len() ==> (#[trigger] ps[i]).0 != (#[trigger] ps[j]).0
}

/// An escaped value never holds a raw newline or double quote at an
/// unescaped position; in particular it holds no newline at all.
proof fn lemma_escape_str_no_nl(v: Seq<char>)
    ensures
        forall|i: int| 0 <= i < escape_str(v).len() ==> #[trigger] escape_str(v)[i] != '\n',
    decreases v.len(),
{
    if v.len() > 0 {
        lemma_escape_str_no_nl(v.drop_first());
        assert forall|i: int| 0 <= i < escape_str(v).len() implies #[trigger] escape_str(v)[i]
            != '\n' by {
            if i < escape_char(v[0]).len() {
                assert(escape_str(v)[i] == escape_char(v[0])[i]);
            } else {
                assert(escape_str(v)[i] == escape_str(v.drop_first())[i - escape_char(
                    v[0],
                ).len()]);
            }
        }
    }
}

/// Splitting `l + '\n' + r` at the first newline gives back `l` and `r`,
/// provided `l` holds no newline.
proof fn lemma_line_split_concat(l: Seq<char>, r: Seq<char>)
    requires
        forall|i: int| 0 <= i < l.len() ==> #[trigger] l[i] != '\n',
    ensures
        line_split(l + seq!['\n'] + r) == (l, r),
    decreases l.len(),
{
    let s = l + seq!['\n'] + r;
    if l.len() == 0 {
        assert(s[0] == '\n');
        assert(s.drop_first() =~= r);
        assert(line_split(s).0 =~= l);
    } else {
        assert(s[0] == l[0]);
        assert(s.drop_first() =~= l.drop_first() + seq!['\n'] + r);
        lemma_line_split_concat(l.drop_first(), r);
        assert(line_split(s).0 =~= seq![s[0]] + l.drop_first());
        assert(seq![s[0]] + l.drop_first() =~= l);
    }
}

/// Where the scanned characters run out is determined by the text: if the
/// characters from `i` up to `n` are spaces and the one at `n` is not (or
/// the text ends there), skipping spaces from `i` stops at `n`.
proof fn lemma_skip_spaces_exact(s: Seq<char>, i: int, n: int)
    requires
        0 <= i <= n <= s.len(),
        forall|m: int| i <= m < n ==> is_space_char(#[trigger] s[m]),
        n == s.len() || !is_space_char(s[n]),
    ensures
        skip_spaces(s, i) == n,
    decreases n - i,
{
    if i < n {
        lemma_skip_spaces_exact(s, i + 1, n);
    }
}

/// The same, for the characters a key consists of.
proof fn lemma_scan_key_exact(s: Seq<char>, i: int, n: int)
    requires
        0 <= i <= n <= s.len(),
        forall|m: int| i <= m < n ==> is_key_char(#[trigger] s[m]),
        n == s.len() || !is_key_char(s[n]),
    ensures
        scan_key(s, i) == n,
    decreases n - i,
{
    if i < n {
        lemma_scan_key_exact(s, i + 1, n);
    }
}

/// Hexadecimal digits read back as the value they were written for.
proof fn lemma_hex_digit_round(n: int)
    requires
        0 <= n < 16,
    ensures
        hex_char_val(hex_digit_char(n)) == n,
{
}

/// Dropping a known prefix of a suffix of `s` leaves the rest of that
/// suffix.
proof fn lemma_concat_subrange(s: Seq<char>, i: int, a: Seq<char>, b: Seq<char>)
    requires
        0 <= i <= s.len(),
        s.subrange(i, s.len() as int) == a + b,
    ensures
        s.subrange(i + a.len(), s.len() as int) == b,
{
    let t = s.subrange(i, s.len() as int);
    assert(t.len() == a.len() + b.len());
    assert forall|m: int|
        0 <= m < b.len() implies s.subrange(i + a.len(), s.len() as int)[m] == b[m] by {
        assert(s.subrange(i + a.len(), s.len() as int)[m] == s[i + a.len() + m]);
        assert(t[a.len() + m] == s[i + a.len() + m]);
        assert(t[a.len() + m] == (a + b)[a.len() + m]);
    }
    assert(s.subrange(i + a.len(), s.len() as int) =~= b);
}

/// Parsing a basic string that was produced by escaping a value, with the
/// closing quote at the very end of the text, gives the value back.
proof fn lemma_parse_basic_escape(s: Seq<char>, i: int, v: Seq<char>)
    requires
        0 <= i <= s.len(),
        s.subrange(i, s.len() as int) == escape_str(v) + seq!['"'],
    ensures
        parse_basic_str(s, i) == Some((v, s.len() as int)),
    decreases v.len(),
{
    let tail = s.subrange(i, s.len() as int);
    if v.len() == 0 {
        assert(s[i] == tail[0]);
        assert(s[i] == '"');
        assert(i + 1 == s.len());
    } else {
        let c = v[0];
        let e = escape_char(c);
        let rest = v.drop_first();
        assert(escape_str(v) == e + escape_str(rest));
        assert(escape_str(v).len() == e.len() + escape_str(rest).len());
        assert(tail.len() == escape_str(v).len() + 1);
        assert forall|m: int| 0 <= m < e.len() implies s[i + m] == e[m] by {
            assert(tail[m] == s[i + m]);
            assert(tail[m] == (escape_str(v) + seq!['"'])[m]);
            assert((escape_str(v) + seq!['"'])[m] == escape_str(v)[m]);
            assert(escape_str(v)[m] == (e + escape_str(rest))[m]);
            assert((e + escape_str(rest))[m] == e[m]);
        }
        assert(seq![c] + rest =~= v);
        assert(escape_str(v) + seq!['"'] =~= e + (escape_str(rest) + seq!['"']));
        lemma_concat_subrange(s, i, e, escape_str(rest) + seq!['"']);
        if c == '"' || c == '\\' || c == '\u{8}' || c == '\t' || c == '\n' || c == '\u{c}' || c
            == '\r' {
            assert(e.len() == 2);
            assert(s[i] == '\\');
            assert(s[i + 1] == e[1]);
            assert(unescape_short(e[1]) == Some(c));
            lemma_parse_basic_escape(s, i + 2, rest);
        } else if (c as u32) < 0x20 || (c as u32) == 0x7f {
            assert(s[i] == '\\');
            assert(s[i + 1] == 'u');
            assert(s[i + 2] == '0');
            assert(s[i + 3] == '0');
            let hi = (c as u32 / 16) as int;
            let lo = (c as u32 % 16) as int;
            assert(s[i + 4] == hex_digit_char(hi));
            assert(s[i + 5] == hex_digit_char(lo));
            lemma_hex_digit_round(hi);
            lemma_hex_digit_round(lo);
            lemma_hex_digit_round(0);
            let val = hex_char_val(s[i + 2]) * 4096 + hex_char_val(s[i + 3]) * 256 + hex_char_val(
                s[i + 4],
            ) * 16 + hex_char_val(s[i + 5]);
            assert(val == hi * 16 + lo);
            assert(val == c as u32) by {
                assert(c as u32 == 16 * (c as u32 / 16) + c as u32 % 16);
            }
            assert((val as char) == c) by {
                vstd::utf8::char_u32_cast(c, c as u32);
                assert(val as u32 == c as u32);
            }
            assert(e.len() == 6);
            lemma_parse_basic_escape(s, i + 6, rest);
        } else {
            assert(e =~= seq![c]);
            assert(e.len() == 1);
            assert(s[i] == c);
            assert(is_plain_basic_char(c));
            lemma_parse_basic_escape(s, i + 1, rest);
        }
    }
}

/// Parsing one rendered binding line (without its newline) gives the pair
/// back, for any well-formed key and any value.
proof fn lemma_parse_line_render(k: Seq<char>, v: Seq<char>)
    requires
        wf_key(k),
    ensures
        parse_line(render_kv_body(k, v)) == Some(Some((k, v))),
{
    let s = render_kv_body(k, v);
    let kl = k.len() as int;
    let el = escape_str(v).len() as int;
    let len = s.len() as int;
    assert(len == kl + 4 + el + 1);
    assert(forall|m: int| 0 <= m < kl ==> s[m] == #[trigger] k[m]);
    assert(s[kl] == ' ' && s[kl + 1] == '=' && s[kl + 2] == ' ' && s[kl + 3] == '"');
    assert(s[len - 1] == '"');
    assert(strip_trailing_cr(s) == s);
    lemma_skip_spaces_exact(s, 0, 0);
    assert(is_key_char(s[0]));
    lemma_scan_key_exact(s, 0, kl);
    assert(s.subrange(0, kl) =~= k);
    lemma_skip_spaces_exact(s, kl, kl + 1);
    lemma_skip_spaces_exact(s, kl + 2, kl + 3);
    assert(s.subrange(kl + 4, len) =~= escape_str(v) + seq!['"']);
    lemma_parse_basic_escape(s, kl + 4, v);
    assert(skip_spaces(s, len) == len);
    assert(line_end_ok(s, len));
}

/// Rendering pairs with well-formed keys and parsing the text back yields
/// exactly those pairs, in order.
pub proof fn lemma_render_pairs_parse(ps: Seq<(Seq<char>, Seq<char>)>)
    requires
        forall|i: int| 0 <= i < ps.len() ==> wf_key((#[trigger] ps[i]).0),
    ensures
        parse_doc(render_pairs(ps)) == Some(ps),
    decreases ps.len(),
{
    if ps.len() == 0 {
    } else {
        let k = ps[0].0;
        let v = ps[0].1;
        let body = render_kv_body(k, v);
        let rest = render_pairs(ps.drop_first());
        let s = render_pairs(ps);
        assert(s =~= body + seq!['\n'] + rest);
        assert forall|i: int| 0 <= i < body.len() implies #[trigger] body[i] != '\n' by {
            lemma_escape_str_no_nl(v);
            if i < k.len() {
                assert(body[i] == k[i]);
                assert(is_key_char(k[i]));
            } else if i < k.len() + 4 {
                assert(body[i] == seq![' ', '=', ' ', '"'][i - k.len()]);
            } else if i < k.len() + 4 + escape_str(v).len() {
                assert(body[i] == escape_str(v)[i - k.len() - 4]);
            } else {
                assert(body[i] == '"');
            }
        }
        lemma_line_split_concat(body, rest);
        lemma_parse_line_render(k, v);
        lemma_render_pairs_parse(ps.drop_first());
        assert(seq![(k, v)] + ps.drop_first() =~= ps);
    }
}

/// Escaping one more character extends the escaped text on the right.
proof fn lemma_escape_str_push(s: Seq<char>, c: char)
    ensures
        escape_str(s.push(c)) == escape_str(s) + escape_char(c),
    decreases s.len(),
{
    if s.len() == 0 {
        assert(s.push(c).drop_first() =~= Seq::<char>::empty());
        assert(s.push(c)[0] == c);
        assert(escape_str(Seq::<char>::empty()) == Seq::<char>::empty());
        assert(escape_str(s.push(c)) == escape_char(c) + escape_str(s.push(c).drop_first()));
        assert(escape_char(c) + Seq::<char>::empty() =~= escape_char(c));
        assert(escape_str(s) + escape_char(c) =~= escape_char(c));
    } else {
        assert(s.push(c).drop_first() =~= s.drop_first().push(c));
        lemma_escape_str_push(s.drop_first(), c);
        assert(escape_str(s.push(c)) == escape_char(s[0]) + (escape_str(s.drop_first())
            + escape_char(c)));
        assert(escape_char(s[0]) + (escape_str(s.drop_first()) + escape_char(c)) =~= (escape_char(
            s[0],
        ) + escape_str(s.drop_first())) + escape_char(c));
    }
}

/// The hexadecimal digit for `n`, executable.
fn hex_digit_char_exec(n: u32) -> (r: char)
    requires
        n < 16,
    ensures
        r == hex_digit_char(n as int),
{
    if n == 0 {
        '0'
    } else if n == 1 {
        '1'
    } else if n == 2 {
        '2'
    } else if n == 3 {
        '3'
    } else if n == 4 {
        '4'
    } else if n == 5 {
        '5'
    } else if n == 6 {
        '6'
    } else if n == 7 {
        '7'
    } else if n == 8 {
        '8'
    } else if n == 9 {
        '9'
    } else if n == 10 {
        'A'
    } else if n == 11 {
        'B'
    } else if n == 12 {
        'C'
    } else if n == 13 {
        'D'
    } else if n == 14 {
        'E'
    } else {
        'F'
    }
}

/// Appends the rendering of one value character.
fn push_escaped_char(out: &mut Vec<char>, c: char)
    ensures
        final (out)@ == old(out)@ + escape_char(c),
{
    if c == '"' {
        out.push('\\');
        out.push('"');
    } else if c == '\\' {
        out.push('\\');
        out.push('\\');
    } else if c == '\u{8}' {
        out.push('\\');
        out.push('b');
    } else if c == '\t' {
        out.push('\\');
        out.push('t');
    } else if c == '\n' {
        out.push('\\');
        out.push('n');
    } else if c == '\u{c}' {
        out.push('\\');
        out.push('f');
    } else if c == '\r' {
        out.push('\\');
        out.push('r');
    } else if (c as u32) < 0x20 || (c as u32) == 0x7f {
        let u = c as u32;
        out.push('\\');
        out.push('u');
        out.push('0');
        out.push('0');
        out.push(hex_digit_char_exec(u / 16));
        out.push(hex_digit_char_exec(u % 16));
    } else {
        out.push(c);
    }
    proof {
        assert(final (out)@ =~= old(out)@ + escape_char(c));
    }
}

/// Appends the rendering of a whole value.
pub fn push_escaped(out: &mut Vec<char>, v: &Vec<char>)
    ensures
        final (out)@ == old(out)@ + escape_str(v@),
{
    let ghost base = out@;
    let mut i: usize = 0;
    proof {
        assert(v@.take(0) =~= Seq::<char>::empty());
        assert(out@ =~= base + escape_str(v@.take(0)));
    }
    while i < v.len()
        invariant
            i <= v@.len(),
            out@ == base + escape_str(v@.take(i as int)),
        decreases v@.len() - i,
    {
        push_escaped_char(out, v[i]);
        proof {
            assert(v@.take(i + 1) =~= v@.take(i as int).push(v@[i as int]));
            lemma_escape_str_push(v@.take(i as int), v@[i as int]);
            assert(out@ =~= base + escape_str(v@.take(i + 1)));
        }
        i = i + 1;
    }
    proof {
        assert(v@.take(v@.len() as int) =~= v@);
    }
}

/// Appends one rendered binding line, `k = "v"` with a newline.
pub fn push_kv_line(out: &mut Vec<char>, k: &Vec<char>, v: &Vec<char>)
    ensures
        final (out)@ == old(out)@ + render_kv_line(k@, v@),
{
    let mut i: usize = 0;
    while i < k.len()
        invariant
            i <= k@.len(),
            out@ == old(out)@ + k@.take(i as int),
        decreases k@.len() - i,
    {
        out.push(k[i]);
        proof {
            assert(out@ =~= old(out)@ + k@.take(i + 1));
        }
        i = i + 1;
    }
    proof {
        assert(k@.take(k@.len() as int) =~= k@);
    }
    out.push(' ');
    out.push('=');
    out.push(' ');
    out.push('"');
    push_escaped(out, v);
    out.push('"');
    out.push('\n');
    proof {
        assert(final (out)@ =~= old(out)@ + render_kv_line(k@, v@));
    }
}

/// The characters of `s` between `lo` and `hi`, as a fresh vector.
pub fn copy_range(s: &Vec<char>, lo: usize, hi: usize) -> (r: Vec<char>)
    requires
        lo <= hi <= s@.len(),
    ensures
        r@ == s@.subrange(lo as int, hi as int),
{
    let mut out: Vec<char> = Vec::new();
    let mut i = lo;
    while i < hi
        invariant
            lo <= i <= hi <= s@.len(),
            out@ == s@.subrange(lo as int, i as int),
        decreases hi - i,
    {
        out.push(s[i]);
        proof {
            assert(out@ =~= s@.subrange(lo as int, i + 1));
        }
        i = i + 1;
    }
    out
}

/// The value of a hexadecimal digit character, executable.
fn hex_char_val_exec(c: char) -> (r: Option<u32>)
    ensures
        match r {
            Some(d) => hex_char_val(c) == d && d < 16,
            None => hex_char_val(c) < 0,
        },
{
    let u = c as u32;
    if '0' as u32 <= u && u <= '9' as u32 {
        Some(u - '0' as u32)
    } else if 'a' as u32 <= u && u <= 'f' as u32 {
        Some(u - 'a' as u32 + 10)
    } else if 'A' as u32 <= u && u <= 'F' as u32 {
        Some(u - 'A' as u32 + 10)
    } else {
        None
    }
}

/// The character a short escape stands for, executable.
fn unescape_short_exec(e: char) -> (r: Option<char>)
    ensures
        r == unescape_short(e),
{
    if e == '"' {
        Some('"')
    } else if e == '\\' {
        Some('\\')
    } else if e == 'b' {
        Some('\u{8}')
    } else if e == 't' {
        Some('\t')
    } else if e == 'n' {
        Some('\n')
    } else if e == 'f' {
        Some('\u{c}')
    } else if e == 'r' {
        Some('\r')
    } else {
        None
    }
}

fn is_plain_basic_char_exec(c: char) -> (r: bool)
    ensures
        r == is_plain_basic_char(c),
{
    let u = c as u32;
    c != '"' && c != '\\' && (c == '\t' || (u >= 0x20 && u != 0x7f))
}

fn is_plain_literal_char_exec(c: char) -> (r: bool)
    ensures
        r == is_plain_literal_char(c),
{
    let u = c as u32;
    c != '\'' && (c == '\t' || (u >= 0x20 && u != 0x7f))
}

/// Parses a basic string from just after its opening quote, executable.
fn parse_basic_exec(s: &Vec<char>, i: usize) -> (r: Option<(Vec<char>, usize)>)
    ensures
        match r {
            Some(vj) => parse_basic_str(s@, i as int) == Some((vj.0@, vj.1 as int)) && i <= vj.1
                <= s@.len(),
            None => parse_basic_str(s@, i as int) is None,
        },
    decreases s@.len() - i,
{
    if i >= s.len() {
        return None;
    }
    let c = s[i];
    if c == '"' {
        let v: Vec<char> = Vec::new();
        proof {
            assert(v@ =~= Seq::<char>::empty());
        }
        return Some((v, i + 1));
    }
    if c == '\\' {
        if i + 1 >= s.len() {
            return None;
        }
        let e = s[i + 1];
        if e == 'u' {
            if s.len() - i <= 5 {
                return None;
            }
            let d2 = hex_char_val_exec(s[i + 2]);
            let d3 = hex_char_val_exec(s[i + 3]);
            let d4 = hex_char_val_exec(s[i + 4]);
            let d5 = hex_char_val_exec(s[i + 5]);
            match (d2, d3, d4, d5) {
                (Some(a), Some(b), Some(x), Some(y)) => {
                    let val: u32 = a * 4096 + b * 256 + x * 16 + y;
                    if val < 0x80 {
                        match parse_basic_exec(s, i + 6) {
                            Some((mut v, j)) => {
                                let ch = (val as u8) as char;
                                proof {
                                    assert(val as u8 == val) by (bit_vector)
                                        requires
                                            val < 0x80,
                                    ;
                                }
                                let ghost old_v = v@;
                                v.insert(0, ch);
                                proof {
                                    assert(v@ =~= seq![ch] + old_v);
                                }
                                Some((v, j))
                            },
                            None => None,
                        }
                    } else {
                        None
                    }
                },
                _ => None,
            }
        } else {
            match unescape_short_exec(e) {
                Some(c2) => match parse_basic_exec(s, i + 2) {
                    Some((mut v, j)) => {
                        let ghost old_v = v@;
                        v.insert(0, c2);
                        proof {
                            assert(v@ =~= seq![c2] + old_v);
                        }
                        Some((v, j))
                    },
                    None => None,
                },
                None => None,
            }
        }
    } else if is_plain_basic_char_exec(c) {
        match parse_basic_exec(s, i + 1) {
            Some((mut v, j)) => {
                let ghost old_v = v@;
                v.insert(0, c);
                proof {
                    assert(v@ =~= seq![c] + old_v);
                }
                Some((v, j))
            },
            None => None,
        }
    } else {
        None
    }
}

/// Parses a literal string from just after its opening quote, executable.
fn parse_literal_exec(s: &Vec<char>, i: usize) -> (r: Option<(Vec<char>, usize)>)
    ensures
        match r {
            Some(vj) => parse_literal_str(s@, i as int) == Some((vj.0@, vj.1 as int)) && i <= vj.1
                <= s@.len(),
            None => parse_literal_str(s@, i as int) is None,
        },
    decreases s@.len() - i,
{
    if i >= s.len() {
        return None;
    }
    let c = s[i];
    if c == '\'' {
        let v: Vec<char> = Vec::new();
        proof {
            assert(v@ =~= Seq::<char>::empty());
        }
        return Some((v, i + 1));
    }
    if is_plain_literal_char_exec(c) {
        match parse_literal_exec(s, i + 1) {
            Some((mut v, j)) => {
                let ghost old_v = v@;
                v.insert(0, c);
                proof {
                    assert(v@ =~= seq![c] + old_v);
                }
                Some((v, j))
            },
            None => None,
        }
    } else {
        None
    }
}

fn is_key_char_exec(c: char) -> (r: bool)
    ensures
        r == is_key_char(c),
{
    let u = c as u32;
    ('a' as u32 <= u && u <= 'z' as u32) || ('A' as u32 <= u && u <= 'Z' as u32) || ('0' as u32 <= u
        && u <= '9' as u32) || c == '_' || c == '-'
}

fn skip_spaces_exec(s: &Vec<char>, i: usize) -> (r: usize)
    requires
        i <= s@.len(),
    ensures
        r as int == skip_spaces(s@, i as int),
        i <= r <= s@.len(),
{
    let mut r = i;
    while r < s.len() && (s[r] == ' ' || s[r] == '\t')
        invariant
            i <= r <= s@.len(),
            skip_spaces(s@, i as int) == skip_spaces(s@, r as int),
        decreases s@.len() - r,
    {
        r = r + 1;
    }
    r
}

fn scan_key_exec(s: &Vec<char>, i: usize) -> (r: usize)
    requires
        i <= s@.len(),
    ensures
        r as int == scan_key(s@, i as int),
        i <= r <= s@.len(),
{
    let mut r = i;
    while r < s.len() && is_key_char_exec(s[r])
        invariant
            i <= r <= s@.len(),
            scan_key(s@, i as int) == scan_key(s@, r as int),
        decreases s@.len() - r,
    {
        r = r + 1;
    }
    r
}

/// Parses one line (without its newline), executable.
fn parse_line_exec(line: &Vec<char>) -> (r: Option<Option<(String, String)>>)
    ensures
        match r {
            None => parse_line(line@) is None,
            Some(kvo) => match kvo {
                None => parse_line(line@) == Some(None::<(Seq<char>, Seq<char>)>),
                Some(kv) => parse_line(line@) == Some(Some((kv.0@, kv.1@))),
            },
        },
{
    let mut n = line.len();
    if n > 0 && line[n - 1] == '\r' {
        n = n - 1;
    }
    let s = copy_range(line, 0, n);
    proof {
        assert(s@ =~= strip_trailing_cr(line@));
    }
    let i = skip_spaces_exec(&s, 0);
    if i >= s.len() {
        return Some(None);
    }
    if s[i] == '#' {
        return Some(None);
    }
    let j = scan_key_exec(&s, i);
    if j == i {
        return None;
    }
    let k = copy_range(&s, i, j);
    let m = skip_spaces_exec(&s, j);
    if m >= s.len() {
        return None;
    }
    if s[m] != '=' {
        return None;
    }
    let p = skip_spaces_exec(&s, m + 1);
    if p >= s.len() {
        return None;
    }
    let parsed = if s[p] == '"' {
        parse_basic_exec(&s, p + 1)
    } else if s[p] == '\'' {
        parse_literal_exec(&s, p + 1)
    } else {
        return None;
    };
    match parsed {
        None => None,
        Some((v, q)) => {
            let r2 = skip_spaces_exec(&s, q);
            if r2 >= s.len() || s[r2] == '#' {
                let ks = crate::strutil::chars_to_string(&k);
                let vs = crate::strutil::chars_to_string(&v);
                Some(Some((ks, vs)))
            } else {
                None
            }
        },
    }
}

/// Where the first newline stands determines the line split.
pub proof fn lemma_line_split_at(s: Seq<char>, n: int)
    requires
        0 <= n <= s.len(),
        forall|m: int| 0 <= m < n ==> #[trigger] s[m] != '\n',
        n == s.len() || s[n] == '\n',
    ensures
        line_split(s).0 == s.take(n),
        line_split(s).1 == if n == s.len() {
            Seq::<char>::empty()
        } else {
            s.subrange(n + 1, s.len() as int)
        },
    decreases n,
{
    if s.len() == 0 {
        assert(s.take(0) =~= Seq::<char>::empty());
    } else if n == 0 {
        assert(s[0] == '\n');
        assert(s.take(0) =~= Seq::<char>::empty());
        assert(s.drop_first() =~= s.subrange(1, s.len() as int));
    } else {
        assert(s[0] != '\n');
        let t = s.drop_first();
        assert(forall|m: int| 0 <= m < n - 1 ==> #[trigger] t[m] == s[m + 1]);
        lemma_line_split_at(t, n - 1);
        assert(line_split(s).0 =~= seq![s[0]] + t.take(n - 1));
        assert(seq![s[0]] + t.take(n - 1) =~= s.take(n));
        if n == s.len() {
        } else {
            assert(t.subrange(n, t.len() as int) =~= s.subrange(n + 1, s.len() as int));
        }
    }
}

/// Parses the document from position `pos` on, executable.
fn parse_doc_exec(s: &Vec<char>, pos: usize) -> (r: Option<Vec<(String, String)>>)
    requires
        pos <= s@.len(),
    ensures
        match r {
            Some(ps) => parse_doc(s@.subrange(pos as int, s@.len() as int)) == Some(ps.deep_view()),
            None => parse_doc(s@.subrange(pos as int, s@.len() as int)) is None,
        },
    decreases s@.len() - pos,
{
    let ghost sub = s@.subrange(pos as int, s@.len() as int);
    if pos == s.len() {
        let ps: Vec<(String, String)> = Vec::new();
        proof {
            assert(sub =~= Seq::<char>::empty());
            assert(ps.deep_view() =~= Seq::<(Seq<char>, Seq<char>)>::empty());
        }
        return Some(ps);
    }
    let mut e = pos;
    while e < s.len() && s[e] != '\n'
        invariant
            pos <= e <= s@.len(),
            forall|m: int| pos <= m < e ==> #[trigger] s@[m] != '\n',
        decreases s@.len() - e,
    {
        e = e + 1;
    }
    proof {
        assert(forall|m: int| 0 <= m < e - pos ==> #[trigger] sub[m] != '\n');
        lemma_line_split_at(sub, e - pos);
    }
    let line = copy_range(s, pos, e);
    proof {
        assert(line@ =~= sub.take(e - pos));
    }
    let next = if e < s.len() {
        e + 1
    } else {
        e
    };
    let ghost rest = s@.subrange(next as int, s@.len() as int);
    proof {
        if e < s.len() {
            assert(sub.subrange(e - pos + 1, sub.len() as int) =~= rest);
        } else {
            assert(rest =~= Seq::<char>::empty());
        }
        assert(line_split(sub).1 == rest);
    }
    match parse_line_exec(&line) {
        None => None,
        Some(kvo) => {
            match parse_doc_exec(s, next) {
                None => None,
                Some(mut ps) => {
                    match kvo {
                        Some(kv) => {
                            let ghost old_ps = ps.deep_view();
                            let ghost kvv = (kv.0@, kv.1@);
                            ps.insert(0, kv);
                            proof {
                                assert(ps.deep_view() =~= seq![kvv] + old_ps);
                            }
                            Some(ps)
                        },
                        None => Some(ps),
                    }
                },
            }
        },
    }
}

/// Parses a whole document into its key/value pairs, executable: `Some`
/// with the pairs in order of appearance exactly when the text is in the
/// grammar.
pub fn parse_pairs(text: &str) -> (r: Option<Vec<(String, String)>>)
    ensures
        match r {
            Some(ps) => parse_doc(text@) == Some(ps.deep_view()),
            None => parse_doc(text@) is None,
        },
{
    let s = crate::strutil::str_to_chars(text);
    proof {
        assert(s@.subrange(0, s@.len() as int) =~= text@);
    }
    parse_doc_exec(&s, 0)
}

/// Looks pairs up from index `i` on, executable.
fn pairs_lookup_from(ps: &Vec<(String, String)>, k: &str, i: usize) -> (r: Option<String>)
    requires
        i <= ps@.len(),
    ensures
        match r {
            Some(v) => pairs_lookup(ps.deep_view().subrange(i as int, ps@.len() as int), k@)
                == Some(v@),
            None => pairs_lookup(ps.deep_view().subrange(i as int, ps@.len() as int), k@) is None,
        },
    decreases ps@.len() - i,
{
    let ghost sub = ps.deep_view().subrange(i as int, ps@.len() as int);
    if i == ps.len() {
        proof {
            assert(sub =~= Seq::<(Seq<char>, Seq<char>)>::empty());
        }
        return None;
    }
    proof {
        assert(sub[0] == ps.deep_view()[i as int]);
        assert(sub.drop_first() =~= ps.deep_view().subrange(i + 1, ps@.len() as int));
    }
    if crate::strutil::str_eq(ps[i].0.as_str(), k) {
        Some(ps[i].1.clone())
    } else {
        pairs_lookup_from(ps, k, i + 1)
    }
}

/// The value bound to the first occurrence of `k` among the pairs,
/// executable.
pub fn pairs_lookup_exec(ps: &Vec<(String, String)>, k: &str) -> (r: Option<String>)
    ensures
        match r {
            Some(v) => pairs_lookup(ps.deep_view(), k@) == Some(v@),
            None => pairs_lookup(ps.deep_view(), k@) is None,
        },
{
    proof {
        assert(ps.deep_view().subrange(0, ps@.len() as int) =~= ps.deep_view());
    }
    pairs_lookup_from(ps, k, 0)
}

/// Whether no key occurs twice among the pairs, executable.
pub fn pairs_distinct_exec(ps: &Vec<(String, String)>) -> (r: bool)
    ensures
        r == pairs_distinct(ps.deep_view()),
{
    let ghost d = ps.deep_view();
    let mut i: usize = 0;
    while i < ps.len()
        invariant
            i <= ps@.len(),
            d == ps.deep_view(),
            forall|a: int, b: int| 0 <= a < b < d.len() && a < i ==> (#[trigger] d[a]).0 != (
            #[trigger] d[b]).0,
        decreases ps@.len() - i,
    {
        let mut j: usize = i + 1;
        while j < ps.len()
            invariant
                i < j <= ps@.len() || (i + 1 == j && j <= ps@.len()) || j <= ps@.len(),
                i < ps@.len(),
                d == ps.deep_view(),
                i + 1 <= j,
                forall|b: int| i < b < j ==> (#[trigger] d[b]).0 != d[i as int].0,
            decreases ps@.len() - j,
        {
            if crate::strutil::str_eq(ps[i].0.as_str(), ps[j].0.as_str()) {
                proof {
                    assert(d[i as int] == ps@[i as int].deep_view());
                    assert(d[j as int] == ps@[j as int].deep_view());
                    assert((d[i as int]).0 == (d[j as int]).0);
                }
                return false;
            }
            j = j + 1;
        }
        i = i + 1;
    }
    true
}

} // verus!
