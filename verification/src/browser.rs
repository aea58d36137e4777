//! Web page handling behind the browser endpoints: the title and the
//! readable text of an HTML page, percent-encoding of search queries, and
//! the choice of a user agent.

use vstd::prelude::*;
use vstd::string::StringSliceAdditionalSpecFns;
use crate::random::random_below;
use crate::text::{
    lower_fold, chars_of, find_chars, find_from, is_white_space, push_str, starts_ci,
    starts_ci_at, white_space,
};

verus! {

/// Where the text scanner stands: in plain text, inside a tag, or inside
/// the body of a `<script>` or `<style>` element.
#[derive(Clone, Copy, Debug, PartialEq, Eq, Structural)]
pub enum Scan {
    Text,
    Tag,
    Script,
    Style,
}

/// The name that opens a script element.
pub open spec fn script_open() -> Seq<char> {
    seq!['s', 'c', 'r', 'i', 'p', 't']
}

/// The name that opens a style element.
pub open spec fn style_open() -> Seq<char> {
    seq!['s', 't', 'y', 'l', 'e']
}

/// The name that closes a script element.
pub open spec fn script_close() -> Seq<char> {
    seq!['/', 's', 'c', 'r', 'i', 'p', 't']
}

/// The name that closes a style element.
pub open spec fn style_close() -> Seq<char> {
    seq!['/', 's', 't', 'y', 'l', 'e']
}

/// The scanner's state after reading the character at `i` in state `m`.
/// A `<` opens a tag, and a script or style body when the name that follows
/// it says so (in any case); a `>` ends a tag; inside a script or
/// style body only the matching closing name counts.
pub open spec fn next_scan(s: Seq<char>, i: int, m: Scan) -> Scan {
    let c = s[i];
    match m {
        Scan::Script => if c == '<' && starts_ci_at(s, i + 1, script_close()) {
            Scan::Tag
        } else {
            Scan::Script
        },
        Scan::Style => if c == '<' && starts_ci_at(s, i + 1, style_close()) {
            Scan::Tag
        } else {
            Scan::Style
        },
        _ => if c == '<' {
            if starts_ci_at(s, i + 1, script_open()) {
                Scan::Script
            } else if starts_ci_at(s, i + 1, style_open()) {
                Scan::Style
            } else {
                Scan::Tag
            }
        } else if c == '>' {
            Scan::Text
        } else {
            m
        },
    }
}

/// The scanner's state after the first `n` characters of `s`.
pub open spec fn scan_state(s: Seq<char>, n: int) -> Scan
    decreases n,
{
    if n <= 0 {
        Scan::Text
    } else {
        next_scan(s, n - 1, scan_state(s, n - 1))
    }
}

/// The characters among the first `n` of `s` that stand in plain text,
/// outside every tag, script and style.
pub open spec fn visible_text(s: Seq<char>, n: int) -> Seq<char>
    decreases n,
{
    if n <= 0 {
        Seq::empty()
    } else {
        let p = visible_text(s, n - 1);
        let c = s[n - 1];
        if scan_state(s, n - 1) is Text && c != '<' && c != '>' {
            p.push(c)
        } else {
            p
        }
    }
}

/// The first `n` characters of `s` with every run of white space replaced
/// by one space.
pub open spec fn collapse_ws(s: Seq<char>, n: int) -> Seq<char>
    decreases n,
{
    if n <= 0 {
        Seq::empty()
    } else {
        let p = collapse_ws(s, n - 1);
        let c = s[n - 1];
        if is_white_space(c) {
            if p.len() > 0 && p.last() == ' ' {
                p
            } else {
                p.push(' ')
            }
        } else {
            p.push(c)
        }
    }
}

/// `t` without one leading and one trailing space.
pub open spec fn trim_spaces(t: Seq<char>) -> Seq<char> {
    let a: int = if t.len() > 0 && t[0] == ' ' { 1 } else { 0 };
    let b: int = if t.len() > a && t.last() == ' ' { t.len() - 1 } else { t.len() as int };
    t.subrange(a, b)
}

/// The readable text of an HTML page: the plain-text characters, with white
/// space collapsed to single spaces and trimmed at both ends.
pub open spec fn page_text(html: Seq<char>) -> Seq<char> {
    let v = visible_text(html, html.len() as int);
    trim_spaces(collapse_ws(v, v.len() as int))
}

/// The opening title tag.
pub open spec fn title_open() -> Seq<char> {
    seq!['<', 't', 'i', 't', 'l', 'e', '>']
}

/// The closing title tag.
pub open spec fn title_close() -> Seq<char> {
    seq!['<', '/', 't', 'i', 't', 'l', 'e', '>']
}

/// The page title: what stands between the first `<title>` and the first
/// `</title>` after it, or nothing when either is missing.
pub open spec fn page_title(html: Seq<char>) -> Seq<char> {
    match find_from(html, title_open(), 0) {
        Some(i) => match find_from(html, title_close(), i + 7) {
            Some(k) => html.subrange(i + 7, k),
            None => Seq::empty(),
        },
        None => Seq::empty(),
    }
}

/// The characters of `v` from `a` up to `b`, as a string.
fn string_of_range(v: &Vec<char>, a: usize, b: usize) -> (r: String)
    requires
        a <= b <= v.len(),
    ensures
        r@ == v@.subrange(a as int, b as int),
{
    let mut r = String::new();
    let mut i = a;
    while i < b
        invariant
            a <= i <= b <= v.len(),
            r@ == v@.subrange(a as int, i as int),
        decreases b - i,
    {
        r.push(v[i]);
        assert(v@.subrange(a as int, i + 1) =~= v@.subrange(a as int, i as int).push(v@[i as int]));
        i = i + 1;
    }
    r
}

/// The title of an HTML page, or the empty string when it has none.
pub fn extract_title(html: &str) -> (r: String)
    ensures
        r@ == page_title(html@),
{
    let v = chars_of(html);
    let open = vec!['<', 't', 'i', 't', 'l', 'e', '>'];
    let close = vec!['<', '/', 't', 'i', 't', 'l', 'e', '>'];
    assert(open@ =~= title_open());
    assert(close@ =~= title_close());
    match find_chars(&v, &open, 0) {
        Some(start) => {
            assert(start + 7 <= v.len()) by {
                assert(crate::text::occurs_at(v@, open@, start as int)) by {
                    lemma_find_from_occurs(v@, open@, 0, start as int);
                }
            }
            match find_chars(&v, &close, start + 7) {
                Some(end) => {
                    proof {
                        lemma_find_from_occurs(v@, close@, start + 7, end as int);
                    }
                    string_of_range(&v, start + 7, end)
                },
                None => String::new(),
            }
        },
        None => String::new(),
    }
}

/// A position that `find_from` reports holds an occurrence at or after the
/// starting point.
pub proof fn lemma_find_from_occurs(hay: Seq<char>, needle: Seq<char>, from: int, i: int)
    requires
        find_from(hay, needle, from) == Some(i),
    ensures
        from <= i,
        crate::text::occurs_at(hay, needle, i),
    decreases hay.len() + 1 - from,
{
    if from < 0 || from + needle.len() > hay.len() {
    } else if crate::text::occurs_at(hay, needle, from) {
    } else {
        lemma_find_from_occurs(hay, needle, from + 1, i);
    }
}

/// The scanner's state after reading `v[i]` in state `m`.
fn scan_step(v: &Vec<char>, i: usize, m: Scan) -> (r: Scan)
    requires
        i < v.len(),
    ensures
        r == next_scan(v@, i as int, m),
{
    let c = v[i];
    let script_open = vec!['s', 'c', 'r', 'i', 'p', 't'];
    let style_open = vec!['s', 't', 'y', 'l', 'e'];
    let script_close = vec!['/', 's', 'c', 'r', 'i', 'p', 't'];
    let style_close = vec!['/', 's', 't', 'y', 'l', 'e'];
    assert(script_open@ =~= crate::browser::script_open());
    assert(style_open@ =~= crate::browser::style_open());
    assert(script_close@ =~= crate::browser::script_close());
    assert(style_close@ =~= crate::browser::style_close());
    match m {
        Scan::Script => {
            if c == '<' && starts_ci(v, i + 1, &script_close) {
                Scan::Tag
            } else {
                Scan::Script
            }
        },
        Scan::Style => {
            if c == '<' && starts_ci(v, i + 1, &style_close) {
                Scan::Tag
            } else {
                Scan::Style
            }
        },
        _ => {
            if c == '<' {
                if starts_ci(v, i + 1, &script_open) {
                    Scan::Script
                } else if starts_ci(v, i + 1, &style_open) {
                    Scan::Style
                } else {
                    Scan::Tag
                }
            } else if c == '>' {
                Scan::Text
            } else {
                m
            }
        },
    }
}

/// The plain-text characters of `v`, outside tags, scripts and styles.
fn visible_chars(v: &Vec<char>) -> (r: Vec<char>)
    ensures
        r@ == visible_text(v@, v@.len() as int),
{
    let mut r: Vec<char> = Vec::new();
    let mut m = Scan::Text;
    let mut i: usize = 0;
    while i < v.len()
        invariant
            i <= v.len(),
            m == scan_state(v@, i as int),
            r@ == visible_text(v@, i as int),
        decreases v.len() - i,
    {
        let c = v[i];
        if m == Scan::Text && c != '<' && c != '>' {
            r.push(c);
        }
        m = scan_step(v, i, m);
        i = i + 1;
    }
    r
}

/// `t` with its white-space runs collapsed to single spaces.
fn collapse_spaces(t: &Vec<char>) -> (r: Vec<char>)
    ensures
        r@ == collapse_ws(t@, t@.len() as int),
{
    let mut r: Vec<char> = Vec::new();
    let mut prev_space = false;
    let mut i: usize = 0;
    while i < t.len()
        invariant
            i <= t.len(),
            r@ == collapse_ws(t@, i as int),
            prev_space == (r@.len() > 0 && r@.last() == ' '),
        decreases t.len() - i,
    {
        let c = t[i];
        if white_space(c) {
            if !prev_space {
                r.push(' ');
                prev_space = true;
            }
        } else {
            r.push(c);
            prev_space = false;
        }
        i = i + 1;
    }
    r
}

/// The readable text of an HTML page: the characters outside tags, scripts
/// and styles, with white space collapsed and the ends trimmed. The content
/// type is not consulted.
pub fn extract_text(html: &str, content_type: &str) -> (r: String)
    ensures
        r@ == page_text(html@),
{
    let v = chars_of(html);
    let vis = visible_chars(&v);
    let cleaned = collapse_spaces(&vis);
    let n = cleaned.len();
    let a: usize = if n > 0 && cleaned[0] == ' ' { 1 } else { 0 };
    let b: usize = if n > a && cleaned[n - 1] == ' ' { n - 1 } else { n };
    string_of_range(&cleaned, a, b)
}

/// A byte that a URL carries as it is: ASCII letters, digits and `-_.~`.
pub open spec fn is_unreserved(b: u8) -> bool {
    ||| 65 <= b <= 90
    ||| 97 <= b <= 122
    ||| 48 <= b <= 57
    ||| b == 45
    ||| b == 95
    ||| b == 46
    ||| b == 126
}

/// The upper-case hexadecimal digit for a value below sixteen.
pub open spec fn hex_digit(d: int) -> char {
    if d < 10 { (48 + d) as char } else { (55 + d) as char }
}

/// How one byte is written in a URL: as itself when unreserved, else as `%`
/// and two upper-case hexadecimal digits (a space becomes `%20`).
pub open spec fn encode_byte(b: u8) -> Seq<char> {
    if is_unreserved(b) {
        seq![b as char]
    } else {
        seq!['%', hex_digit((b / 16) as int), hex_digit((b % 16) as int)]
    }
}

/// The percent-encoding of the first `n` bytes of `bytes`.
pub open spec fn percent_encoded(bytes: Seq<u8>, n: int) -> Seq<char>
    decreases n,
{
    if n <= 0 {
        Seq::empty()
    } else {
        percent_encoded(bytes, n - 1) + encode_byte(bytes[n - 1])
    }
}

/// The value of an upper-case hexadecimal digit character.
pub open spec fn hex_digit_value(c: char) -> int {
    if (c as u32) < 58 { (c as u32) - 48 } else { (c as u32) - 55 }
}

/// The bytes a percent-encoded string stands for: `%` and two hexadecimal
/// digits give one byte, any other character its code.
pub open spec fn percent_decoded(s: Seq<char>) -> Seq<u8>
    decreases s.len(),
{
    if s.len() == 0 {
        Seq::empty()
    } else if s[0] == '%' && s.len() >= 3 {
        seq![(hex_digit_value(s[1]) * 16 + hex_digit_value(s[2])) as u8] + percent_decoded(s.skip(3))
    } else {
        seq![s[0] as u8] + percent_decoded(s.skip(1))
    }
}

proof fn lemma_decode_one(x: u8, rest: Seq<char>)
    ensures
        percent_decoded(encode_byte(x) + rest) == seq![x] + percent_decoded(rest),
{
    let e = encode_byte(x);
    let s = e + rest;
    if is_unreserved(x) {
        assert(s[0] == x as char);
        assert((x as char) != '%');
        assert(s.skip(1) =~= rest);
        assert((x as char) as u8 == x);
    } else {
        let hi = x / 16;
        let lo = x % 16;
        assert(s[0] == '%');
        assert(s[1] == hex_digit(hi as int));
        assert(s[2] == hex_digit(lo as int));
        assert(s.skip(3) =~= rest);
        assert(hex_digit_value(hex_digit(hi as int)) == hi);
        assert(hex_digit_value(hex_digit(lo as int)) == lo);
        assert((hi * 16 + lo) as u8 == x);
    }
}

proof fn lemma_decode_prefix(b: Seq<u8>, m: int, rest: Seq<char>)
    requires
        0 <= m <= b.len(),
    ensures
        percent_decoded(percent_encoded(b, m) + rest) == b.take(m) + percent_decoded(rest),
    decreases m,
{
    if m > 0 {
        let e = encode_byte(b[m - 1]);
        assert(percent_encoded(b, m) + rest =~= percent_encoded(b, m - 1) + (e + rest));
        lemma_decode_prefix(b, m - 1, e + rest);
        lemma_decode_one(b[m - 1], rest);
        assert(b.take(m - 1) + (seq![b[m - 1]] + percent_decoded(rest)) =~= b.take(m) + percent_decoded(rest));
    } else {
        assert(percent_encoded(b, 0) + rest =~= rest);
        assert(b.take(0) + percent_decoded(rest) =~= percent_decoded(rest));
    }
}

/// Percent-encoding loses nothing: decoding what `urlencoding` writes gives
/// back the bytes it was given.
pub proof fn lemma_percent_encoding_round_trip(bytes: Seq<u8>)
    ensures
        percent_decoded(percent_encoded(bytes, bytes.len() as int)) == bytes,
{
    lemma_decode_prefix(bytes, bytes.len() as int, Seq::empty());
    assert(percent_encoded(bytes, bytes.len() as int) + Seq::<char>::empty() =~= percent_encoded(bytes, bytes.len() as int));
    assert(bytes.take(bytes.len() as int) + Seq::<u8>::empty() =~= bytes);
}

/// An upper-case hexadecimal digit.
pub open spec fn is_upper_hex(c: char) -> bool {
    ('0' <= c && c <= '9') || ('A' <= c && c <= 'F')
}

proof fn lemma_hex_digit_upper(d: int)
    requires
        0 <= d < 16,
    ensures
        is_upper_hex(hex_digit(d)),
        hex_digit(d) != '%',
{
}

/// Every `%` in a percent-encoding starts an escape: two upper-case
/// hexadecimal digits follow it.
pub proof fn lemma_percent_escapes_complete(bytes: Seq<u8>, n: int)
    requires
        0 <= n <= bytes.len(),
    ensures
        forall|k: int| 0 <= k < percent_encoded(bytes, n).len() && #[trigger] percent_encoded(bytes, n)[k] == '%' ==> {
            &&& k + 2 < percent_encoded(bytes, n).len()
            &&& is_upper_hex(percent_encoded(bytes, n)[k + 1])
            &&& is_upper_hex(percent_encoded(bytes, n)[k + 2])
        },
    decreases n,
{
    if n > 0 {
        lemma_percent_escapes_complete(bytes, n - 1);
        let p = percent_encoded(bytes, n - 1);
        let b = bytes[n - 1];
        let e = encode_byte(b);
        let t = percent_encoded(bytes, n);
        assert(t == p + e);
        lemma_hex_digit_upper((b / 16) as int);
        lemma_hex_digit_upper((b % 16) as int);
        if is_unreserved(b) {
            assert((b as char) != '%');
        }
        assert forall|k: int| 0 <= k < t.len() && #[trigger] t[k] == '%' implies {
            &&& k + 2 < t.len()
            &&& is_upper_hex(t[k + 1])
            &&& is_upper_hex(t[k + 2])
        } by {
            if k < p.len() {
                assert(t[k] == p[k]);
                assert(t[k + 1] == p[k + 1]);
                assert(t[k + 2] == p[k + 2]);
            } else {
                assert(t[k] == e[k - p.len()]);
                assert(!is_unreserved(b));
                assert(k == p.len());
                assert(t[k + 1] == e[1]);
                assert(t[k + 2] == e[2]);
            }
        }
    }
}

/// A character that can appear in a percent-encoded string: an unreserved
/// byte, `%`, or an upper-case hexadecimal digit.
pub open spec fn url_safe(c: char) -> bool {
    ||| is_unreserved(c as u8) && (c as u32) < 128
    ||| c == '%'
}

fn hex_char(d: u8) -> (c: char)
    requires
        d < 16,
    ensures
        c == hex_digit(d as int),
{
    if d < 10 {
        (48 + d) as char
    } else {
        (55 + d) as char
    }
}

/// Percent-encodes `s` byte by byte over its UTF-8 encoding.
pub fn urlencoding(s: &str) -> (r: String)
    ensures
        r@ == percent_encoded(s.spec_bytes(), s.spec_bytes().len() as int),
        forall|k: int| 0 <= k < r@.len() ==> #[trigger] url_safe(r@[k]),
{
    let bytes = s.as_bytes();
    let mut r = String::new();
    let mut i: usize = 0;
    while i < bytes.len()
        invariant
            i <= bytes@.len(),
            bytes@ == s.spec_bytes(),
            r@ == percent_encoded(bytes@, i as int),
            forall|k: int| 0 <= k < r@.len() ==> #[trigger] url_safe(r@[k]),
        decreases bytes.len() - i,
    {
        let b = bytes[i];
        let ghost before = r@;
        if (65 <= b && b <= 90) || (97 <= b && b <= 122) || (48 <= b && b <= 57) || b == 45 || b
            == 95 || b == 46 || b == 126 {
            r.push(b as char);
        } else {
            r.push('%');
            r.push(hex_char(b / 16));
            r.push(hex_char(b % 16));
        }
        assert(r@ =~= before + encode_byte(b));
        assert forall|k: int| 0 <= k < r@.len() implies #[trigger] url_safe(r@[k]) by {
            if k >= before.len() {
                let d = r@[k];
                assert(d == b as char || d == '%' || d == hex_digit((b / 16) as int) || d
                    == hex_digit((b % 16) as int));
            } else {
                assert(r@[k] == before[k]);
            }
        }
        i = i + 1;
    }
    r
}

proof fn lemma_visible_has_no_brackets(s: Seq<char>, n: int)
    ensures
        forall|k: int| 0 <= k < visible_text(s, n).len() ==> #[trigger] visible_text(s, n)[k] != '<' && visible_text(s, n)[k] != '>',
    decreases n,
{
    if n > 0 {
        lemma_visible_has_no_brackets(s, n - 1);
        let p = visible_text(s, n - 1);
        let r = visible_text(s, n);
        assert forall|k: int| 0 <= k < r.len() implies #[trigger] r[k] != '<' && r[k] != '>' by {
            if k < p.len() {
                assert(r[k] == p[k]);
            }
        }
    }
}

proof fn lemma_collapsed_shape(t: Seq<char>, n: int)
    requires
        forall|k: int| 0 <= k < t.len() ==> #[trigger] t[k] != '<' && t[k] != '>',
        n <= t.len(),
    ensures
        forall|k: int| 0 <= k < collapse_ws(t, n).len() ==> {
            &&& #[trigger] collapse_ws(t, n)[k] != '<'
            &&& collapse_ws(t, n)[k] != '>'
            &&& is_white_space(collapse_ws(t, n)[k]) ==> collapse_ws(t, n)[k] == ' '
        },
        forall|k: int| 0 <= k < collapse_ws(t, n).len() - 1 ==> !(#[trigger] collapse_ws(t, n)[k] == ' ' && collapse_ws(t, n)[k + 1] == ' '),
    decreases n,
{
    if n > 0 {
        lemma_collapsed_shape(t, n - 1);
        let p = collapse_ws(t, n - 1);
        let r = collapse_ws(t, n);
        assert(!is_white_space(t[n - 1]) ==> t[n - 1] != ' ');
        assert forall|k: int| 0 <= k < r.len() - 1 implies !(#[trigger] r[k] == ' ' && r[k + 1] == ' ') by {
            if k + 1 < p.len() {
                assert(r[k] == p[k] && r[k + 1] == p[k + 1]);
            }
        }
    }
}

/// The readable text of a page holds no angle brackets, no white space but
/// single spaces between words, and no space at either end.
pub proof fn lemma_page_text_is_clean(html: Seq<char>)
    ensures
        forall|k: int| 0 <= k < page_text(html).len() ==> {
            &&& #[trigger] page_text(html)[k] != '<'
            &&& page_text(html)[k] != '>'
            &&& is_white_space(page_text(html)[k]) ==> page_text(html)[k] == ' '
        },
        forall|k: int| 0 <= k < page_text(html).len() - 1 ==> !(#[trigger] page_text(html)[k] == ' ' && page_text(html)[k + 1] == ' '),
        page_text(html).len() > 0 ==> page_text(html)[0] != ' ' && page_text(html).last() != ' ',
{
    let v = visible_text(html, html.len() as int);
    lemma_visible_has_no_brackets(html, html.len() as int);
    lemma_collapsed_shape(v, v.len() as int);
    let c = collapse_ws(v, v.len() as int);
    let r = page_text(html);
    let a: int = if c.len() > 0 && c[0] == ' ' { 1 } else { 0 };
    let b: int = if c.len() > a && c.last() == ' ' { c.len() - 1 } else { c.len() as int };
    assert(r == c.subrange(a, b));
    assert forall|k: int| 0 <= k < r.len() implies {
        &&& #[trigger] r[k] != '<'
        &&& r[k] != '>'
        &&& is_white_space(r[k]) ==> r[k] == ' '
    } by {
        assert(r[k] == c[a + k]);
    }
    assert forall|k: int| 0 <= k < r.len() - 1 implies !(#[trigger] r[k] == ' ' && r[k + 1] == ' ') by {
        assert(r[k] == c[a + k] && r[k + 1] == c[a + k + 1]);
    }
    if r.len() > 0 {
        assert(r[0] == c[a]);
        if a == 1 {
            assert(!(c[0] == ' ' && c[1] == ' '));
        }
        assert(r.last() == c[b - 1]);
        if b == c.len() - 1 {
            assert(!(c[b - 1] == ' ' && c[b] == ' '));
        }
    }
}

/// The user agents a page request may present, one picked at random.
pub open spec fn user_agents() -> Seq<Seq<char>> {
    seq![
        "Mozilla/5.0 (Macintosh; Intel Mac OS X 10_15_7) AppleWebKit/537.36 (KHTML, like Gecko) Chrome/124.0.0.0 Safari/537.36"@,
        "Mozilla/5.0 (Windows NT 10.0; Win64; x64) AppleWebKit/537.36 (KHTML, like Gecko) Chrome/124.0.0.0 Safari/537.36"@,
        "Mozilla/5.0 (X11; Linux x86_64) AppleWebKit/537.36 (KHTML, like Gecko) Chrome/124.0.0.0 Safari/537.36"@,
    ]
}

/// The user agent at position `i` of the list.
pub fn user_agent(i: usize) -> (r: &'static str)
    requires
        i < 3,
    ensures
        r@ == user_agents()[i as int],
{
    if i == 0 {
        "Mozilla/5.0 (Macintosh; Intel Mac OS X 10_15_7) AppleWebKit/537.36 (KHTML, like Gecko) Chrome/124.0.0.0 Safari/537.36"
    } else if i == 1 {
        "Mozilla/5.0 (Windows NT 10.0; Win64; x64) AppleWebKit/537.36 (KHTML, like Gecko) Chrome/124.0.0.0 Safari/537.36"
    } else {
        "Mozilla/5.0 (X11; Linux x86_64) AppleWebKit/537.36 (KHTML, like Gecko) Chrome/124.0.0.0 Safari/537.36"
    }
}

/// One of the user agents, picked at random.
pub fn random_user_agent() -> (r: &'static str)
    ensures
        exists|i: int| 0 <= i < 3 && r@ == #[trigger] user_agents()[i],
{
    let i = random_below(3);
    user_agent(i)
}

/// The number of words among the first `n` characters of `s`: maximal runs
/// of characters that are not white space, as `split_whitespace` yields them.
pub open spec fn word_count(s: Seq<char>, n: int) -> nat
    decreases n,
{
    if n <= 0 {
        0
    } else {
        let starts = !is_white_space(s[n - 1]) && (n == 1 || is_white_space(s[n - 2]));
        word_count(s, n - 1) + if starts { 1nat } else { 0nat }
    }
}

/// The number of white-space separated words in `s`.
pub fn count_words(s: &str) -> (n: usize)
    ensures
        n == word_count(s@, s@.len() as int),
{
    let v = chars_of(s);
    let mut n: usize = 0;
    let mut i: usize = 0;
    while i < v.len()
        invariant
            i <= v.len(),
            v@ == s@,
            n == word_count(v@, i as int),
            n <= i,
        decreases v.len() - i,
    {
        if !white_space(v[i]) && (i == 0 || white_space(v[i - 1])) {
            n = n + 1;
        }
        i = i + 1;
    }
    n
}

/// The first `n` characters of `s` (all of it when it is shorter).
pub fn take_chars(s: &str, n: usize) -> (r: String)
    ensures
        r@ == s@.take(if n < s@.len() { n as int } else { s@.len() as int }),
{
    let v = chars_of(s);
    let end = if n < v.len() { n } else { v.len() };
    let r = string_of_range(&v, 0, end);
    assert(v@.subrange(0, end as int) =~= s@.take(end as int));
    r
}

/// What a fetched page reports: its title, its readable text (when asked
/// for), the number of words in that text and the first characters of the
/// raw body.
pub struct PageSummary {
    pub title: String,
    pub text_content: String,
    pub word_count: usize,
    pub body_preview: String,
}

/// The number of characters of the raw body shown as a preview.
pub const BODY_PREVIEW_CHARS: usize = 500;

/// The number of characters of a search result kept as a snippet.
pub const SNIPPET_CHARS: usize = 2000;

/// Summarises a fetched page: its title, its readable text when `extract`
/// is set (else the empty string), the word count of that text and the
/// first 500 characters of the body.
pub fn summarize_page(body: &str, content_type: &str, extract: bool) -> (r: PageSummary)
    ensures
        r.title@ == page_title(body@),
        r.text_content@ == (if extract { page_text(body@) } else { Seq::<char>::empty() }),
        r.word_count == word_count(r.text_content@, r.text_content@.len() as int),
        r.body_preview@ == body@.take(
            if BODY_PREVIEW_CHARS < body@.len() { BODY_PREVIEW_CHARS as int } else { body@.len() as int },
        ),
{
    let title = extract_title(body);
    let text_content = if extract {
        extract_text(body, content_type)
    } else {
        String::new()
    };
    let word_count = count_words(text_content.as_str());
    let body_preview = take_chars(body, BODY_PREVIEW_CHARS);
    PageSummary { title, text_content, word_count, body_preview }
}

/// The search engine address that a query is sent to.
pub open spec fn search_address(query: &str) -> Seq<char> {
    "https://html.duckduckgo.com/html/?q="@ + percent_encoded(query.spec_bytes(), query.spec_bytes().len() as int)
}

/// The address of the search results page for `query`.
pub fn search_url(query: &str) -> (r: String)
    ensures
        r@ == search_address(query),
{
    let mut r = String::new();
    push_str(&mut r, "https://html.duckduckgo.com/html/?q=");
    let q = urlencoding(query);
    push_str(&mut r, q.as_str());
    r
}

/// A request to search the web for a query and learn from the results.
pub struct SearchAndTrainBody {
    pub query: String,
    pub max_pages: Option<usize>,
}

/// A request to fetch one page.
pub struct VisitBody {
    pub url: String,
    pub mode: Option<String>,
    pub extract: Option<bool>,
}

/// A request to collect pages.
pub struct CollectBody {
    pub targets: Option<Vec<String>>,
    pub extract_tables_and_lists: Option<bool>,
}

/// A request to change how the browser behaves.
pub struct SettingsBody {
    pub human_mode: Option<bool>,
}

/// Whether a visit extracts the page's text: only when asked to.
pub fn visit_extracts(body: &VisitBody) -> (r: bool)
    ensures
        r == (body.extract == Some(true)),
{
    match body.extract {
        Some(b) => b,
        None => false,
    }
}

/// The human mode a settings request leaves in effect: off unless asked
/// for.
pub fn human_mode(body: &SettingsBody) -> (r: bool)
    ensures
        r == (body.human_mode == Some(true)),
{
    match body.human_mode {
        Some(b) => b,
        None => false,
    }
}

/// The snippet of a search result: the first 2000 characters of its text.
pub fn search_snippet(text: &str) -> (r: String)
    ensures
        r@ == text@.take(if SNIPPET_CHARS < text@.len() { SNIPPET_CHARS as int } else { text@.len() as int }),
{
    take_chars(text, SNIPPET_CHARS)
}

} // verus!
