//! The trading bridge's bookkeeping: the history the strategy sandbox keeps,
//! the requests sent to the MT5 terminal, and the ids given to signals.

use vstd::prelude::*;
use crate::bounded::{BoundedLog, bounded_push, lemma_push_respects_capacity};
use crate::clock::utc_timestamp;
use crate::text::{decimal, digit_char, owned, push_decimal, push_str, str_eq};

verus! {

/// The handle through which the terminal calls into the bridge.
pub struct FfiBridge;

impl FfiBridge {
    pub fn new() -> (r: FfiBridge) {
        FfiBridge
    }
}

/// The client of the MT5 terminal. Its calls cross the native bridge; the
/// library frames their requests (`mt5_request`) and reads the order
/// tickets they answer with (`strip_quotes`).
pub struct Mt5Client;

/// The most signals the sandbox remembers.
pub const SANDBOX_HISTORY: usize = 1000;

/// Replays strategies against the signals it has recorded; it keeps the
/// last thousand.
pub struct StrategySandbox<S> {
    history: BoundedLog<S>,
}

impl<S> StrategySandbox<S> {
    /// The sandbox keeps at most a thousand signals.
    #[verifier::type_invariant]
    closed spec fn keeps_a_thousand(&self) -> bool {
        &&& self.history.cap() == SANDBOX_HISTORY
        &&& self.history@.len() <= SANDBOX_HISTORY
    }

    /// A sandbox with no signals.
    pub fn new() -> (r: StrategySandbox<S>)
        ensures
            r.recorded() == Seq::<S>::empty(),
    {
        StrategySandbox { history: BoundedLog::new(SANDBOX_HISTORY) }
    }

    /// The signals recorded, oldest first.
    pub closed spec fn recorded(&self) -> Seq<S> {
        self.history@
    }

    /// Records a signal, forgetting the oldest once a thousand are kept: the
    /// history becomes the newest thousand of what it held and the signal.
    pub fn record_signal(&mut self, signal: S)
        ensures
            final(self).recorded() == bounded_push(old(self).recorded(), SANDBOX_HISTORY as nat, signal),
            final(self).recorded().len() <= SANDBOX_HISTORY,
    {
        proof {
            use_type_invariant(&*self);
            lemma_push_respects_capacity(self.history@, SANDBOX_HISTORY as nat, signal);
        }
        let mut h = BoundedLog::new(SANDBOX_HISTORY);
        std::mem::swap(&mut h, &mut self.history);
        h.push(signal);
        self.history = h;
    }

    /// The number of signals kept, at most a thousand.
    pub fn len(&self) -> (r: usize)
        ensures
            r == self.recorded().len(),
            r <= SANDBOX_HISTORY,
    {
        proof {
            use_type_invariant(self);
        }
        self.history.len()
    }

    /// The signal at position `i`, oldest first.
    pub fn get(&self, i: usize) -> (r: &S)
        requires
            i < self.recorded().len(),
        ensures
            *r == self.recorded()[i as int],
    {
        self.history.get(i)
    }
}

/// The JSON request for an MT5 call: the method name quoted, the
/// parameters as given.
pub open spec fn mt5_request_of(method: Seq<char>, params: Seq<char>) -> Seq<char> {
    "{\"method\":\""@ + method + "\",\"params\":"@ + params + "}"@
}

/// The request for an MT5 call.
pub fn mt5_request(method: &str, params: &str) -> (r: String)
    ensures
        r@ == mt5_request_of(method@, params@),
{
    let mut r = owned("{\"method\":\"");
    push_str(&mut r, method);
    push_str(&mut r, "\",\"params\":");
    push_str(&mut r, params);
    push_str(&mut r, "}");
    r
}

/// `s` without the quote characters at either end.
pub open spec fn strip_quotes_of(s: Seq<char>) -> Seq<char>
    decreases s.len(),
{
    if s.len() > 0 && s[0] == '"' {
        strip_quotes_of(s.drop_first())
    } else if s.len() > 0 && s.last() == '"' {
        strip_quotes_of(s.drop_last())
    } else {
        s
    }
}

/// The ticket in the terminal's answer to an order: the answer without the
/// quotes around it.
pub fn strip_quotes(s: &str) -> (r: String)
    ensures
        r@ == strip_quotes_of(s@),
{
    let v = crate::text::chars_of(s);
    let mut a: usize = 0;
    let mut b: usize = v.len();
    assert(v@.subrange(0, v@.len() as int) =~= v@);
    while a < b && (v[a] == '"' || v[b - 1] == '"')
        invariant
            a <= b <= v.len(),
            strip_quotes_of(v@) == strip_quotes_of(v@.subrange(a as int, b as int)),
        decreases b - a,
    {
        if v[a] == '"' {
            assert(v@.subrange(a as int, b as int).drop_first() =~= v@.subrange(a + 1, b as int));
            a = a + 1;
        } else {
            assert(v@.subrange(a as int, b as int).drop_last() =~= v@.subrange(a as int, b - 1));
            b = b - 1;
        }
    }
    let mut r = String::new();
    let mut i = a;
    while i < b
        invariant
            a <= i <= b <= v.len(),
            r@ == v@.subrange(a as int, i as int),
        decreases b - i,
    {
        r.push(v[i]);
        assert(v@.subrange(a as int, i + 1) =~= v@.subrange(a as int, i as int).push(v@[i as int]));
        i = i + 1;
    }
    r
}

/// The lower-case hexadecimal digit for a value below sixteen.
pub open spec fn hex_digit_lower(d: nat) -> char {
    if d < 10 { (48 + d) as char } else { (87 + d) as char }
}

/// The lower-case hexadecimal rendering of `n`, as `{:x}` prints it.
pub open spec fn hex_lower(n: nat) -> Seq<char>
    decreases n,
{
    if n < 16 {
        seq![hex_digit_lower(n)]
    } else {
        hex_lower(n / 16).push(hex_digit_lower(n % 16))
    }
}

fn hex_char_lower(d: u64) -> (c: char)
    requires
        d < 16,
    ensures
        c == hex_digit_lower(d as nat),
{
    if d < 10 {
        ((48 + d) as u8) as char
    } else {
        ((87 + d) as u8) as char
    }
}

fn push_hex(out: &mut String, n: u64)
    ensures
        final(out)@ == old(out)@ + hex_lower(n as nat),
    decreases n,
{
    if n < 16 {
        out.push(hex_char_lower(n));
    } else {
        push_hex(out, n / 16);
        out.push(hex_char_lower(n % 16));
    }
}

/// The id of a signal made at Unix second `timestamp` as the `n`-th of the
/// process: `umbra_sig_`, the timestamp in lower-case hexadecimal (a
/// negative one as its 64-bit two's complement), `_`, and `n`.
pub open spec fn signal_id_of(timestamp: i64, n: u64) -> Seq<char> {
    "umbra_sig_"@ + hex_lower((timestamp as u64) as nat) + "_"@ + decimal(n as nat)
}

/// The id of the `n`-th signal of the process, made at Unix second
/// `timestamp`.
pub fn signal_id(timestamp: i64, n: u64) -> (r: String)
    ensures
        r@ == signal_id_of(timestamp, n),
{
    let mut r = owned("umbra_sig_");
    push_hex(&mut r, timestamp as u64);
    push_str(&mut r, "_");
    push_decimal(&mut r, n as u128);
    r
}

/// The refusal of a signal's symbol: empty, or outside a list of allowed
/// symbols that is not empty.
pub open spec fn symbol_refusal(symbol: Seq<char>, allowed: Seq<Seq<char>>) -> Option<Seq<char>> {
    if symbol.len() == 0 {
        Some("Símbolo vacío"@)
    } else if allowed.len() > 0 && !allowed.contains(symbol) {
        Some("Símbolo no permitido: "@ + symbol)
    } else {
        None
    }
}

/// The texts of a list of strings.
pub open spec fn texts_of(v: Seq<String>) -> Seq<Seq<char>> {
    v.map_values(|a: String| a@)
}

/// Checks a signal's symbol: it must not be empty and, when the pipeline
/// lists allowed symbols, must be one of them.
pub fn check_symbol(symbol: &str, allowed: &Vec<String>) -> (r: Result<(), String>)
    ensures
        match symbol_refusal(symbol@, texts_of(allowed@)) {
            None => r is Ok,
            Some(m) => r matches Err(e) && e@ == m,
        },
{
    let ghost names = texts_of(allowed@);
    if symbol.is_empty() {
        return Err(owned("Símbolo vacío"));
    }
    if allowed.len() > 0 {
        let mut i: usize = 0;
        while i < allowed.len()
            invariant
                i <= allowed@.len(),
                names == texts_of(allowed@),
                symbol@.len() > 0,
                forall|k: int| 0 <= k < i ==> names[k] != symbol@,
            decreases allowed.len() - i,
        {
            if str_eq(allowed[i].as_str(), symbol) {
                assert(names[i as int] == symbol@);
                assert(names.contains(symbol@));
                return Ok(());
            }
            i = i + 1;
        }
        let mut e = owned("Símbolo no permitido: ");
        push_str(&mut e, symbol);
        return Err(e);
    }
    Ok(())
}

/// No character of `s` is an underscore.
pub open spec fn no_underscore(s: Seq<char>) -> bool {
    forall|i: int| 0 <= i < s.len() ==> #[trigger] s[i] != '_'
}

proof fn lemma_decimal_digits(n: nat)
    ensures
        decimal(n).len() >= 1,
        no_underscore(decimal(n)),
    decreases n,
{
    if n >= 10 {
        lemma_decimal_digits(n / 10);
    }
}

proof fn lemma_digit_char_injective(x: nat, y: nat)
    requires
        x < 10,
        y < 10,
        digit_char(x) == digit_char(y),
    ensures
        x == y,
{
}

proof fn lemma_decimal_injective(a: nat, b: nat)
    requires
        decimal(a) == decimal(b),
    ensures
        a == b,
    decreases a,
{
    lemma_decimal_digits(a);
    lemma_decimal_digits(b);
    if a < 10 && b < 10 {
        assert(decimal(a)[0] == digit_char(a));
        assert(decimal(b)[0] == digit_char(b));
        lemma_digit_char_injective(a, b);
    } else if a >= 10 && b >= 10 {
        lemma_decimal_digits(a / 10);
        lemma_decimal_digits(b / 10);
        let da = decimal(a / 10);
        let db = decimal(b / 10);
        assert(decimal(a).drop_last() == da);
        assert(decimal(b).drop_last() == db);
        lemma_decimal_injective(a / 10, b / 10);
        assert(decimal(a).last() == digit_char(a % 10));
        assert(decimal(b).last() == digit_char(b % 10));
        lemma_digit_char_injective(a % 10, b % 10);
        assert(a == (a / 10) * 10 + a % 10);
        assert(b == (b / 10) * 10 + b % 10);
    } else if a >= 10 {
        lemma_decimal_digits(a / 10);
        assert(decimal(a).len() >= 2);
    } else if b >= 10 {
        lemma_decimal_digits(b / 10);
        assert(decimal(b).len() >= 2);
    }
}

/// Two strings that each end in `_` and a tail without underscores are
/// equal only with equal tails.
proof fn lemma_split_at_last_underscore(p1: Seq<char>, d1: Seq<char>, p2: Seq<char>, d2: Seq<char>)
    requires
        p1 + "_"@ + d1 == p2 + "_"@ + d2,
        no_underscore(d1),
        no_underscore(d2),
    ensures
        d1 == d2,
{
    let s = p1 + "_"@ + d1;
    let t = p2 + "_"@ + d2;
    assert("_"@.len() == 1 && "_"@[0] == '_') by {
        reveal_strlit("_");
    }
    if d1.len() < d2.len() {
        let k = s.len() - d1.len() - 1;
        assert(s[k] == '_');
        assert(t[k] == d2[k - (p2.len() + 1)]);
    } else if d2.len() < d1.len() {
        let k = t.len() - d2.len() - 1;
        assert(t[k] == '_');
        assert(s[k] == d1[k - (p1.len() + 1)]);
    } else {
        assert forall|i: int| 0 <= i < d1.len() implies d1[i] == d2[i] by {
            assert(s[p1.len() + 1 + i] == d1[i]);
            assert(t[p2.len() + 1 + i] == d2[i]);
        }
        assert(d1 =~= d2);
    }
}

/// Signal ids with different sequence numbers differ, whatever their
/// timestamps: the ids one counter hands out are distinct until it wraps.
pub proof fn lemma_signal_ids_distinct(t1: i64, n1: u64, t2: i64, n2: u64)
    requires
        n1 != n2,
    ensures
        signal_id_of(t1, n1) != signal_id_of(t2, n2),
{
    lemma_decimal_digits(n1 as nat);
    lemma_decimal_digits(n2 as nat);
    if signal_id_of(t1, n1) == signal_id_of(t2, n2) {
        let p1 = "umbra_sig_"@ + hex_lower((t1 as u64) as nat);
        let p2 = "umbra_sig_"@ + hex_lower((t2 as u64) as nat);
        lemma_split_at_last_underscore(p1, decimal(n1 as nat), p2, decimal(n2 as nat));
        lemma_decimal_injective(n1 as nat, n2 as nat);
    }
}

/// Hands out signal ids, numbering the signals of the process from zero.
pub struct SignalIds {
    next: u64,
}

impl SignalIds {
    /// A counter that has handed out nothing.
    pub fn new() -> (r: SignalIds)
        ensures
            r.count() == 0,
    {
        SignalIds { next: 0 }
    }

    /// The number of ids handed out.
    pub closed spec fn count(&self) -> u64 {
        self.next
    }

    /// The id of the next signal, stamped with the current Unix second; the
    /// counter wraps around after the last `u64`.
    pub fn generate_signal_id(&mut self) -> (r: String)
        ensures
            final(self).count() == if old(self).count() == u64::MAX { 0 } else { old(self).count() + 1 },
            exists|t: i64| r@ == #[trigger] signal_id_of(t, old(self).count()),
    {
        let n = self.next;
        self.next = self.next.wrapping_add(1);
        let t = utc_timestamp();
        signal_id(t, n)
    }
}

} // verus!
