//! The host security check: which listening sockets are exposed to every
//! interface, read from the output of `ss -tlnp`, and how each finding is
//! reported.

use vstd::prelude::*;
use crate::auth::{index_of, trim_str, trim_ws};
use crate::text::{chars_of, contains_chars, is_white_space, occurs_in, owned, push_str, white_space};

verus! {

/// `t` without one carriage return at its end.
pub open spec fn strip_cr(t: Seq<char>) -> Seq<char> {
    if t.len() > 0 && t.last() == '\r' { t.drop_last() } else { t }
}

/// The lines of `s`, as `str::lines` yields them: split after each newline,
/// a carriage return before the newline dropped, and no empty line after a
/// final newline.
pub open spec fn lines_of(s: Seq<char>) -> Seq<Seq<char>>
    decreases s.len(),
{
    if s.len() == 0 {
        Seq::empty()
    } else {
        match index_of(s, '\n') {
            Some(i) => if 0 <= i < s.len() {
                seq![strip_cr(s.take(i))] + lines_of(s.skip(i + 1))
            } else {
                seq![s]
            },
            None => seq![s],
        }
    }
}

/// A word begins at position `i` of `s`.
pub open spec fn starts_word(s: Seq<char>, i: int) -> bool {
    0 <= i < s.len() && !is_white_space(s[i]) && (i == 0 || is_white_space(s[i - 1]))
}

/// The positions among the first `n` of `s` where words begin.
pub open spec fn word_starts(s: Seq<char>, n: int) -> Seq<int>
    decreases n,
{
    if n <= 0 {
        Seq::empty()
    } else if starts_word(s, n - 1) {
        word_starts(s, n - 1).push(n - 1)
    } else {
        word_starts(s, n - 1)
    }
}

/// The first white space at or after position `i`, or the end of `s`.
pub open spec fn word_end(s: Seq<char>, i: int) -> int
    decreases s.len() - i,
{
    if i >= s.len() || i < 0 {
        s.len() as int
    } else if is_white_space(s[i]) {
        i
    } else {
        word_end(s, i + 1)
    }
}

/// The fourth white-space separated word of `s`, if it has one.
pub open spec fn fourth_word(s: Seq<char>) -> Option<Seq<char>> {
    let starts = word_starts(s, s.len() as int);
    if starts.len() > 3 {
        Some(s.subrange(starts[3], word_end(s, starts[3])))
    } else {
        None
    }
}

/// The last position of `c` in `s`.
pub open spec fn last_index_of(s: Seq<char>, c: char) -> Option<int>
    decreases s.len(),
{
    if s.len() == 0 {
        None
    } else if s.last() == c {
        Some(s.len() - 1)
    } else {
        last_index_of(s.drop_last(), c)
    }
}

/// What follows the last `:` of `s` (all of `s` when it has none), as the
/// first piece `rsplit(':')` yields.
pub open spec fn after_last_colon(s: Seq<char>) -> Seq<char> {
    match last_index_of(s, ':') {
        Some(k) => s.skip(k + 1),
        None => s,
    }
}

/// A listening socket bound to every interface.
pub open spec fn is_exposed_line(l: Seq<char>) -> bool {
    occurs_in(l, "LISTEN"@) && (occurs_in(l, "0.0.0.0"@) || occurs_in(l, ":::"@))
}

/// The exposed ports listed in `lines`: for each line of a socket that
/// listens on every interface, the port of its local address (the fourth
/// column), in order.
pub open spec fn exposed_of(lines: Seq<Seq<char>>) -> Seq<Seq<char>>
    decreases lines.len(),
{
    if lines.len() == 0 {
        Seq::empty()
    } else {
        let p = exposed_of(lines.drop_last());
        let l = lines.last();
        if is_exposed_line(l) && fourth_word(l) is Some {
            p.push(after_last_colon(fourth_word(l)->0))
        } else {
            p
        }
    }
}

proof fn lemma_word_starts_prefix(s: Seq<char>, m: int, n: int)
    requires
        0 <= m <= n,
    ensures
        word_starts(s, m).len() <= word_starts(s, n).len(),
        forall|k: int| 0 <= k < word_starts(s, m).len() ==> word_starts(s, n)[k] == #[trigger] word_starts(s, m)[k],
    decreases n - m,
{
    if m < n {
        lemma_word_starts_prefix(s, m, n - 1);
    }
}

/// The characters of `v` from `a` up to `b`.
fn slice_chars(v: &Vec<char>, a: usize, b: usize) -> (r: Vec<char>)
    requires
        a <= b <= v.len(),
    ensures
        r@ == v@.subrange(a as int, b as int),
{
    let mut r: Vec<char> = Vec::new();
    let mut i = a;
    while i < b
        invariant
            a <= i <= b <= v.len(),
            r@ == v@.subrange(a as int, i as int),
        decreases b - i,
    {
        r.push(v[i]);
        assert(v@.subrange(a as int, i + 1) =~= v@.subrange(a as int, i as int).push(v@[i as int]));
        i = i + 1;
    }
    r
}

/// The fourth word of a line.
fn fourth_word_of(v: &Vec<char>) -> (r: Option<Vec<char>>)
    ensures
        match fourth_word(v@) {
            Some(w) => r matches Some(x) && x@ == w,
            None => r is None,
        },
{
    let mut count: usize = 0;
    let mut i: usize = 0;
    while i < v.len()
        invariant
            i <= v.len(),
            count == word_starts(v@, i as int).len(),
            count <= 3,
        decreases v.len() - i,
    {
        if !white_space(v[i]) && (i == 0 || white_space(v[i - 1])) {
            if count == 3 {
                proof {
                    assert(word_starts(v@, i + 1)[3] == i);
                    lemma_word_starts_prefix(v@, i + 1, v@.len() as int);
                    assert(word_starts(v@, v@.len() as int)[3] == word_starts(v@, i + 1)[3]);
                }
                let mut j = i;
                while j < v.len() && !white_space(v[j])
                    invariant
                        i <= j <= v.len(),
                        word_end(v@, i as int) == word_end(v@, j as int),
                    decreases v.len() - j,
                {
                    j = j + 1;
                }
                return Some(slice_chars(v, i, j));
            }
            count = count + 1;
        }
        i = i + 1;
    }
    proof {
        assert(word_starts(v@, v@.len() as int).len() <= 3);
    }
    None
}

/// What follows the last `:` of `v`.
fn after_last_colon_of(v: &Vec<char>) -> (r: Vec<char>)
    ensures
        r@ == after_last_colon(v@),
{
    let mut k = v.len();
    assert(v@.take(k as int) =~= v@);
    while k > 0 && v[k - 1] != ':'
        invariant
            k <= v.len(),
            last_index_of(v@, ':') == last_index_of(v@.take(k as int), ':'),
        decreases k,
    {
        assert(v@.take(k as int).drop_last() =~= v@.take(k - 1));
        k = k - 1;
    }
    if k == 0 {
        slice_chars(v, 0, v.len())
    } else {
        assert(v@.take(k as int).last() == ':');
        slice_chars(v, k, v.len())
    }
}

/// The exposed ports in the output of `ss -tlnp`, in order of the lines.
pub fn exposed_ports(listing: &str) -> (r: Vec<String>)
    ensures
        r@.map_values(|p: String| p@) == exposed_of(lines_of(listing@)),
{
    let v = chars_of(listing);
    let listen = vec!['L', 'I', 'S', 'T', 'E', 'N'];
    let any4 = vec!['0', '.', '0', '.', '0', '.', '0'];
    let any6 = vec![':', ':', ':'];
    proof {
        reveal_strlit("LISTEN");
        reveal_strlit("0.0.0.0");
        reveal_strlit(":::");
        assert(listen@ =~= "LISTEN"@);
        assert(any4@ =~= "0.0.0.0"@);
        assert(any6@ =~= ":::"@);
    }
    let mut r: Vec<String> = Vec::new();
    let ghost mut done: Seq<Seq<char>> = Seq::empty();
    let mut start: usize = 0;
    assert(v@.skip(0) =~= v@);
    while start < v.len()
        invariant
            start <= v.len(),
            v@ == listing@,
            listen@ == "LISTEN"@,
            any4@ == "0.0.0.0"@,
            any6@ == ":::"@,
            lines_of(listing@) == done + lines_of(v@.skip(start as int)),
            r@.map_values(|p: String| p@) == exposed_of(done),
        decreases v.len() - start,
    {
        let mut end = start;
        while end < v.len() && v[end] != '\n'
            invariant
                start <= end <= v.len(),
                forall|k: int| start <= k < end ==> v@[k] != '\n',
            decreases v.len() - end,
        {
            end = end + 1;
        }
        let ghost rest = v@.skip(start as int);
        let mut line_end = end;
        if line_end > start && end < v.len() && v[line_end - 1] == '\r' {
            line_end = line_end - 1;
        }
        let line = slice_chars(&v, start, line_end);
        proof {
            if end < v.len() {
                crate::auth::lemma_index_of_is(rest, '\n', (end - start) as int);
                assert(rest.take((end - start) as int) =~= v@.subrange(start as int, end as int));
                assert(line@ =~= strip_cr(rest.take((end - start) as int)));
                assert(rest.skip((end - start) as int + 1) =~= v@.skip(end + 1));
                assert(lines_of(rest) =~= seq![line@] + lines_of(v@.skip(end + 1)));
            } else {
                crate::auth::lemma_index_of_none(rest, '\n');
                assert(line@ =~= rest);
                assert(lines_of(rest) == seq![line@]);
                assert(v@.skip(v@.len() as int) =~= Seq::<char>::empty());
            }
        }
        let exposed = contains_chars(&line, &listen) && (contains_chars(&line, &any4) || contains_chars(
            &line,
            &any6,
        ));
        let ghost before = done;
        proof {
            done = done.push(line@);
            assert(done.drop_last() =~= before);
        }
        if exposed {
            match fourth_word_of(&line) {
                Some(w) => {
                    let port = after_last_colon_of(&w);
                    let mut s = String::new();
                    let mut k: usize = 0;
                    while k < port.len()
                        invariant
                            k <= port.len(),
                            s@ == port@.take(k as int),
                        decreases port.len() - k,
                    {
                        s.push(port[k]);
                        assert(port@.take(k + 1) =~= port@.take(k as int).push(port@[k as int]));
                        k = k + 1;
                    }
                    assert(port@.take(port@.len() as int) =~= port@);
                    let ghost old_r = r@;
                    r.push(s);
                    assert(r@.map_values(|p: String| p@) =~= old_r.map_values(|p: String| p@).push(s@));
                },
                None => {},
            }
        }
        if end < v.len() {
            proof {
                assert(lines_of(listing@) =~= done + lines_of(v@.skip(end + 1)));
            }
            start = end + 1;
        } else {
            proof {
                assert(lines_of(listing@) =~= done);
                assert(v@.skip(v@.len() as int) =~= Seq::<char>::empty());
            }
            start = v.len();
        }
    }
    proof {
        assert(v@.skip(start as int) =~= Seq::<char>::empty());
        assert(lines_of(listing@) =~= done);
    }
    r
}

/// The finding that lists exposed ports: `Exposed ports: ` and the ports
/// separated by commas.
pub open spec fn ports_detail(ports: Seq<Seq<char>>) -> Seq<char>
    decreases ports.len(),
{
    if ports.len() == 0 {
        "Exposed ports: "@
    } else if ports.len() == 1 {
        "Exposed ports: "@ + ports[0]
    } else {
        ports_detail(ports.drop_last()) + ", "@ + ports.last()
    }
}

/// The text of the exposed-ports finding.
pub fn exposed_detail(ports: &Vec<String>) -> (r: String)
    ensures
        r@ == ports_detail(ports@.map_values(|p: String| p@)),
{
    let ghost ps = ports@.map_values(|p: String| p@);
    let mut r = owned("Exposed ports: ");
    let mut i: usize = 0;
    while i < ports.len()
        invariant
            i <= ports.len(),
            ps == ports@.map_values(|p: String| p@),
            r@ == ports_detail(ps.take(i as int)),
        decreases ports.len() - i,
    {
        if i > 0 {
            push_str(&mut r, ", ");
        }
        push_str(&mut r, ports[i].as_str());
        assert(ps.take(i + 1).drop_last() =~= ps.take(i as int));
        i = i + 1;
    }
    assert(ps.take(ports.len() as int) =~= ps);
    r
}

/// What a version probe reports: the trimmed output when the program ran
/// and succeeded, else `not found`.
pub fn component_detail(output: Option<&str>) -> (r: String)
    ensures
        r@ == match output {
            Some(o) => trim_ws(o@),
            None => "not found"@,
        },
{
    match output {
        Some(o) => trim_str(o),
        None => owned("not found"),
    }
}

} // verus!
