//! Access control of the HTTP API: the server's token, the session cookie
//! the frontend receives, and the check that a request carries either.

use vstd::prelude::*;
use crate::random::random_below;
use crate::text::{chars_of, is_white_space, owned, push_str, same_chars, str_eq, white_space};

verus! {

/// `s` without its leading white space.
pub open spec fn trim_start_ws(s: Seq<char>) -> Seq<char>
    decreases s.len(),
{
    if s.len() > 0 && is_white_space(s[0]) {
        trim_start_ws(s.drop_first())
    } else {
        s
    }
}

/// `s` without its trailing white space.
pub open spec fn trim_end_ws(s: Seq<char>) -> Seq<char>
    decreases s.len(),
{
    if s.len() > 0 && is_white_space(s.last()) {
        trim_end_ws(s.drop_last())
    } else {
        s
    }
}

/// `s` without white space at either end, as `str::trim` leaves it.
pub open spec fn trim_ws(s: Seq<char>) -> Seq<char> {
    trim_end_ws(trim_start_ws(s))
}

/// The characters of `v` from `a` up to `b`.
fn range_vec(v: &Vec<char>, a: usize, b: usize) -> (r: Vec<char>)
    requires
        a <= b <= v.len(),
    ensures
        r@ == v@.subrange(a as int, b as int),
{
    let mut r: Vec<char> = Vec::new();
    let mut i = a;
    while i < b
        invariant
            a <= i <= b <= v.len(),
            r@ == v@.subrange(a as int, i as int),
        decreases b - i,
    {
        r.push(v[i]);
        assert(v@.subrange(a as int, i + 1) =~= v@.subrange(a as int, i as int).push(v@[i as int]));
        i = i + 1;
    }
    r
}

/// The characters of `v` without white space at either end.
pub fn trim_chars(v: &Vec<char>) -> (r: Vec<char>)
    ensures
        r@ == trim_ws(v@),
{
    let mut a: usize = 0;
    assert(v@.subrange(0, v@.len() as int) =~= v@);
    while a < v.len() && white_space(v[a])
        invariant
            a <= v.len(),
            trim_start_ws(v@) == trim_start_ws(v@.subrange(a as int, v@.len() as int)),
        decreases v.len() - a,
    {
        assert(v@.subrange(a as int, v@.len() as int).drop_first() =~= v@.subrange(a + 1, v@.len() as int));
        a = a + 1;
    }
    let mut b: usize = v.len();
    assert(trim_start_ws(v@) == v@.subrange(a as int, b as int));
    while b > a && white_space(v[b - 1])
        invariant
            a <= b <= v.len(),
            trim_ws(v@) == trim_end_ws(v@.subrange(a as int, b as int)),
        decreases b,
    {
        assert(v@.subrange(a as int, b as int).drop_last() =~= v@.subrange(a as int, b - 1));
        b = b - 1;
    }
    range_vec(v, a, b)
}

/// The string `s` without white space at either end.
pub fn trim_str(s: &str) -> (r: String)
    ensures
        r@ == trim_ws(s@),
{
    let v = chars_of(s);
    let t = trim_chars(&v);
    let mut r = String::new();
    let mut i: usize = 0;
    while i < t.len()
        invariant
            i <= t.len(),
            r@ == t@.take(i as int),
        decreases t.len() - i,
    {
        r.push(t[i]);
        assert(t@.take(i + 1) =~= t@.take(i as int).push(t@[i as int]));
        i = i + 1;
    }
    assert(t@.take(t@.len() as int) =~= t@);
    r
}

/// The first position of `c` in `s`.
pub open spec fn index_of(s: Seq<char>, c: char) -> Option<int>
    decreases s.len(),
{
    if s.len() == 0 {
        None
    } else if s[0] == c {
        Some(0)
    } else {
        match index_of(s.drop_first(), c) {
            Some(i) => Some(i + 1),
            None => None,
        }
    }
}

/// The pieces of `s` between occurrences of `sep`, as `str::split` with a
/// character yields them (an `s` without `sep` is one piece).
pub open spec fn split_on(s: Seq<char>, sep: char) -> Seq<Seq<char>>
    decreases s.len(),
{
    match index_of(s, sep) {
        Some(i) => if 0 <= i < s.len() {
            seq![s.take(i)] + split_on(s.skip(i + 1), sep)
        } else {
            seq![s]
        },
        None => seq![s],
    }
}

/// The name of the cookie that carries the session.
pub open spec fn session_cookie_name() -> Seq<char> {
    "umbra_session"@
}

/// The value of one cookie piece when it is the session cookie: after
/// trimming, the part before the first `=` must be the cookie's name, and
/// the value is everything after that `=`.
pub open spec fn session_value_of(piece: Seq<char>) -> Option<Seq<char>> {
    let t = trim_ws(piece);
    match index_of(t, '=') {
        Some(i) => if 0 <= i < t.len() && t.take(i) == session_cookie_name() {
            Some(t.skip(i + 1))
        } else {
            None
        },
        None => None,
    }
}

/// The value of the first session cookie among `pieces`.
pub open spec fn first_session_value(pieces: Seq<Seq<char>>) -> Option<Seq<char>>
    decreases pieces.len(),
{
    if pieces.len() == 0 {
        None
    } else {
        match session_value_of(pieces[0]) {
            Some(v) => Some(v),
            None => first_session_value(pieces.drop_first()),
        }
    }
}

/// The session token in a `Cookie` header.
pub open spec fn session_token_of(header: Seq<char>) -> Option<Seq<char>> {
    first_session_value(split_on(header, ';'))
}

pub proof fn lemma_index_of_bounds(s: Seq<char>, c: char)
    ensures
        index_of(s, c) matches Some(i) ==> 0 <= i < s.len() && s[i] == c && forall|k: int| 0 <= k < i ==> s[k] != c,
        index_of(s, c) is None ==> forall|k: int| 0 <= k < s.len() ==> s[k] != c,
    decreases s.len(),
{
    if s.len() > 0 {
        lemma_index_of_bounds(s.drop_first(), c);
        if s[0] != c {
            assert forall|k: int| 0 < k < s.len() implies s[k] == s.drop_first()[k - 1] by {}
        }
    }
}

pub proof fn lemma_index_of_is(s: Seq<char>, c: char, i: int)
    requires
        0 <= i < s.len(),
        s[i] == c,
        forall|k: int| 0 <= k < i ==> s[k] != c,
    ensures
        index_of(s, c) == Some(i),
    decreases s.len(),
{
    if i > 0 {
        lemma_index_of_is(s.drop_first(), c, i - 1);
    }
}

pub proof fn lemma_index_of_none(s: Seq<char>, c: char)
    requires
        forall|k: int| 0 <= k < s.len() ==> s[k] != c,
    ensures
        index_of(s, c) is None,
    decreases s.len(),
{
    if s.len() > 0 {
        lemma_index_of_none(s.drop_first(), c);
    }
}

/// The first position of `c` in `v`.
fn find_char(v: &Vec<char>, c: char) -> (r: Option<usize>)
    ensures
        match index_of(v@, c) {
            Some(i) => r == Some(i as usize),
            None => r is None,
        },
{
    let mut i: usize = 0;
    while i < v.len()
        invariant
            i <= v.len(),
            forall|k: int| 0 <= k < i ==> v@[k] != c,
        decreases v.len() - i,
    {
        if v[i] == c {
            proof {
                lemma_index_of_is(v@, c, i as int);
            }
            return Some(i);
        }
        i = i + 1;
    }
    proof {
        lemma_index_of_none(v@, c);
    }
    None
}

/// The session value of one cookie piece.
fn session_value(piece: &Vec<char>) -> (r: Option<Vec<char>>)
    ensures
        match session_value_of(piece@) {
            Some(x) => r matches Some(y) && y@ == x,
            None => r is None,
        },
{
    let t = trim_chars(piece);
    let name = vec!['u', 'm', 'b', 'r', 'a', '_', 's', 'e', 's', 's', 'i', 'o', 'n'];
    assert(name@ =~= session_cookie_name()) by {
        reveal_strlit("umbra_session");
    }
    match find_char(&t, '=') {
        Some(i) => {
            proof {
                lemma_index_of_bounds(t@, '=');
            }
            let head = range_vec(&t, 0, i);
            assert(head@ =~= t@.take(i as int));
            if same_chars(&head, &name) {
                let tail = range_vec(&t, i + 1, t.len());
                assert(tail@ =~= t@.skip(i + 1));
                Some(tail)
            } else {
                None
            }
        },
        None => None,
    }
}

/// The session token in a `Cookie` header: the value of the first
/// `umbra_session` cookie among its `;`-separated pieces.
pub fn session_token(header: &str) -> (r: Option<String>)
    ensures
        match session_token_of(header@) {
            Some(x) => r matches Some(y) && y@ == x,
            None => r is None,
        },
{
    let v = chars_of(header);
    let mut start: usize = 0;
    assert(v@.skip(0) =~= v@);
    loop
        invariant
            start <= v.len(),
            v@ == header@,
            session_token_of(header@) == first_session_value(split_on(v@.skip(start as int), ';')),
        decreases v.len() - start,
    {
        let rest = range_vec(&v, start, v.len());
        assert(rest@ =~= v@.skip(start as int));
        let found = find_char(&rest, ';');
        proof {
            lemma_index_of_bounds(rest@, ';');
        }
        let end = match found {
            Some(i) => i,
            None => rest.len(),
        };
        let piece = range_vec(&rest, 0, end);
        assert(piece@ =~= rest@.take(end as int));
        let ghost pieces = split_on(rest@, ';');
        assert(pieces[0] == piece@);
        assert(pieces.drop_first() == match found {
            Some(i) => split_on(rest@.skip(i + 1), ';'),
            None => Seq::<Seq<char>>::empty(),
        }) by {
            match found {
                Some(i) => {
                    assert(pieces =~= seq![rest@.take(i as int)] + split_on(rest@.skip(i + 1), ';'));
                    assert(pieces.drop_first() =~= split_on(rest@.skip(i + 1), ';'));
                },
                None => {
                    assert(pieces.drop_first() =~= Seq::<Seq<char>>::empty());
                },
            }
        }
        match session_value(&piece) {
            Some(value) => {
                let mut s = String::new();
                let mut k: usize = 0;
                while k < value.len()
                    invariant
                        k <= value.len(),
                        s@ == value@.take(k as int),
                    decreases value.len() - k,
                {
                    s.push(value[k]);
                    assert(value@.take(k + 1) =~= value@.take(k as int).push(value@[k as int]));
                    k = k + 1;
                }
                assert(value@.take(value@.len() as int) =~= value@);
                return Some(s);
            },
            None => {},
        }
        match found {
            Some(i) => {
                assert(v@.skip(start as int).skip(i + 1) =~= v@.skip(start + i + 1));
                start = start + i + 1;
            },
            None => {
                assert(first_session_value(Seq::<Seq<char>>::empty()) is None);
                return None;
            },
        }
    }
}

/// A request is let in when its key header equals the token, or when its
/// session cookie does.
pub open spec fn authorized(key: Seq<char>, cookie_header: Option<Seq<char>>, token: Seq<char>) -> bool {
    key == token || match cookie_header {
        Some(h) => session_token_of(h) == Some(token),
        None => false,
    }
}

/// Whether a frontend request is let in: its `x-umbra-key` header (the
/// empty string when missing) equals the token, or its `Cookie` header
/// carries the token as the session.
pub fn is_authorized(key: &str, cookie_header: Option<&str>, token: &str) -> (r: bool)
    ensures
        r == authorized(
            key@,
            match cookie_header {
                Some(h) => Some(h@),
                None => None,
            },
            token@,
        ),
{
    if str_eq(key, token) {
        return true;
    }
    match cookie_header {
        Some(h) => match session_token(h) {
            Some(t) => str_eq(t.as_str(), token),
            None => false,
        },
        None => false,
    }
}

/// The `Set-Cookie` value that hands the frontend its session.
pub open spec fn session_cookie_for(token: Seq<char>) -> Seq<char> {
    "umbra_session="@ + token + "; HttpOnly; SameSite=Strict; Secure; Max-Age=86400; Path=/"@
}

/// The `Set-Cookie` value for `token`.
pub fn session_cookie(token: &str) -> (r: String)
    ensures
        r@ == session_cookie_for(token@),
{
    let mut r = owned("umbra_session=");
    push_str(&mut r, token);
    push_str(&mut r, "; HttpOnly; SameSite=Strict; Secure; Max-Age=86400; Path=/");
    r
}

/// A lower-case hexadecimal digit.
pub open spec fn is_lower_hex(c: char) -> bool {
    ('0' <= c && c <= '9') || ('a' <= c && c <= 'f')
}

/// The number of hexadecimal digits in a generated token.
pub const TOKEN_LEN: usize = 32;

/// The lower-case hexadecimal digits, by value.
pub open spec fn hex_digits() -> Seq<char> {
    seq!['0', '1', '2', '3', '4', '5', '6', '7', '8', '9', 'a', 'b', 'c', 'd', 'e', 'f']
}

fn lower_hex_digit(d: usize) -> (c: char)
    requires
        d < 16,
    ensures
        c == hex_digits()[d as int],
        is_lower_hex(c),
{
    let digits = vec!['0', '1', '2', '3', '4', '5', '6', '7', '8', '9', 'a', 'b', 'c', 'd', 'e', 'f'];
    assert(digits@ == hex_digits());
    digits[d]
}

/// The token spelled by `draws`, each a digit value below sixteen, as
/// lower-case hexadecimal digits in order.
pub fn token_of_draws(draws: &Vec<usize>) -> (r: String)
    requires
        forall|i: int| 0 <= i < draws@.len() ==> #[trigger] draws@[i] < 16,
    ensures
        r@.len() == draws@.len(),
        forall|i: int| 0 <= i < draws@.len() ==> #[trigger] r@[i] == hex_digits()[draws@[i] as int],
        forall|i: int| 0 <= i < r@.len() ==> is_lower_hex(#[trigger] r@[i]),
{
    let mut r = String::new();
    let mut i: usize = 0;
    while i < draws.len()
        invariant
            i <= draws@.len(),
            forall|k: int| 0 <= k < draws@.len() ==> #[trigger] draws@[k] < 16,
            r@.len() == i,
            forall|k: int| 0 <= k < i ==> #[trigger] r@[k] == hex_digits()[draws@[k] as int],
            forall|k: int| 0 <= k < r@.len() ==> is_lower_hex(#[trigger] r@[k]),
        decreases draws.len() - i,
    {
        r.push(lower_hex_digit(draws[i]));
        i = i + 1;
    }
    r
}

/// A fresh token of 32 random lower-case hexadecimal digits.
pub fn generate_token() -> (r: String)
    ensures
        r@.len() == TOKEN_LEN,
        forall|i: int| 0 <= i < r@.len() ==> is_lower_hex(#[trigger] r@[i]),
{
    let mut draws: Vec<usize> = Vec::new();
    let mut i: usize = 0;
    while i < TOKEN_LEN
        invariant
            i <= TOKEN_LEN,
            draws@.len() == i,
            forall|k: int| 0 <= k < draws@.len() ==> #[trigger] draws@[k] < 16,
        decreases TOKEN_LEN - i,
    {
        draws.push(random_below(16));
        i = i + 1;
    }
    token_of_draws(&draws)
}

/// The server's token, and whether it was generated (and so must be saved).
pub struct AuthToken {
    pub token: String,
    pub generated: bool,
}

/// The token to serve with: the stored one, trimmed, when it is not empty;
/// else a freshly generated one.
pub fn choose_auth_token(stored: Option<&str>) -> (r: AuthToken)
    ensures
        match stored {
            Some(s) if trim_ws(s@).len() > 0 => !r.generated && r.token@ == trim_ws(s@),
            _ => r.generated && r.token@.len() == TOKEN_LEN && forall|i: int| 0 <= i < r.token@.len() ==> is_lower_hex(#[trigger] r.token@[i]),
        },
{
    match stored {
        Some(s) => {
            let t = trim_str(s);
            if !t.as_str().is_empty() {
                return AuthToken { token: t, generated: false };
            }
        },
        None => {},
    }
    AuthToken { token: generate_token(), generated: true }
}

/// A cookie header that carries the session as `umbra_session=<token>`
/// yields that token, when the token holds no `;` and does not end in white
/// space; so a frontend that sends back the cookie it was handed is let in.
pub proof fn lemma_session_cookie_round_trip(key: Seq<char>, token: Seq<char>)
    requires
        forall|i: int| 0 <= i < token.len() ==> token[i] != ';',
        token.len() > 0 ==> !is_white_space(token.last()),
    ensures
        session_token_of("umbra_session="@ + token) == Some(token),
        authorized(key, Some("umbra_session="@ + token), token),
{
    reveal_strlit("umbra_session=");
    reveal_strlit("umbra_session");
    let s = "umbra_session="@ + token;
    assert(s.len() == 14 + token.len());
    assert forall|k: int| 0 <= k < s.len() implies s[k] != ';' by {
        if k >= 14 {
            assert(s[k] == token[k - 14]);
        }
    }
    lemma_index_of_none(s, ';');
    assert(split_on(s, ';') == seq![s]);
    assert(seq![s].drop_first() =~= Seq::<Seq<char>>::empty());
    assert(trim_start_ws(s) == s);
    assert(!is_white_space(s.last())) by {
        if token.len() > 0 {
            assert(s.last() == token.last());
        } else {
            assert(s.last() == '=');
        }
    }
    assert(trim_end_ws(s) == s);
    assert(s[13] == '=');
    lemma_index_of_is(s, '=', 13);
    assert(s.take(13) =~= "umbra_session"@);
    assert(s.skip(14) =~= token);
}

/// The token itself in the key header always lets a request in.
pub proof fn lemma_key_authorizes(cookie_header: Option<Seq<char>>, token: Seq<char>)
    ensures
        authorized(token, cookie_header, token),
{
}

} // verus!
