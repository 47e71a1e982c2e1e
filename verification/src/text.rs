//! Character-level text helpers shared by the tokenizer, the prompt and the
//! configuration answers: Unicode whitespace, trimming, literal comparison and
//! decimal rendering of integers.
use vstd::prelude::*;

verus! {

/// The Unicode `White_Space` property, which `char::is_whitespace` (and so
/// `str::split_whitespace` and `str::trim`) go by.
pub open spec fn is_space(c: char) -> bool {
    let u = c as u32;
    ||| 0x09 <= u <= 0x0D
    ||| u == 0x20
    ||| u == 0x85
    ||| u == 0xA0
    ||| u == 0x1680
    ||| 0x2000 <= u <= 0x200A
    ||| u == 0x2028
    ||| u == 0x2029
    ||| u == 0x202F
    ||| u == 0x205F
    ||| u == 0x3000
}

/// Among ASCII characters, whitespace is exactly space, tab, line feed,
/// vertical tab, form feed and carriage return.
pub proof fn law_ascii_whitespace(c: char)
    requires
        (c as u32) < 0x80,
    ensures
        is_space(c) <==> (c == ' ' || c == '\t' || c == '\n' || c == '\x0B' || c == '\x0C' || c
            == '\r'),
{
    assert(' ' as u32 == 0x20);
    assert('\t' as u32 == 0x09);
    assert('\n' as u32 == 0x0A);
    assert('\x0B' as u32 == 0x0B);
    assert('\x0C' as u32 == 0x0C);
    assert('\r' as u32 == 0x0D);
}

/// Whether `c` is Unicode whitespace.
pub fn char_is_space(c: char) -> (r: bool)
    ensures
        r == is_space(c),
{
    let u = c as u32;
    (0x09 <= u && u <= 0x0D) || u == 0x20 || u == 0x85 || u == 0xA0 || u == 0x1680 || (0x2000
        <= u && u <= 0x200A) || u == 0x2028 || u == 0x2029 || u == 0x202F || u == 0x205F || u
        == 0x3000
}

/// Appends one character to a `String` (`String::push`).
#[verifier::external_body]
pub(crate) fn push_char(s: &mut String, c: char)
    ensures
        final(s)@ == old(s)@.push(c),
{
    s.push(c);
}

/// The characters of `s`, in order.
pub fn chars_of(s: &str) -> (r: Vec<char>)
    ensures
        r@ == s@,
{
    let mut out: Vec<char> = Vec::new();
    let n = s.unicode_len();
    let mut i: usize = 0;
    while i < n
        invariant
            n == s@.len(),
            i <= n,
            out@ == s@.subrange(0, i as int),
        decreases n - i,
    {
        out.push(s.get_char(i));
        i = i + 1;
    }
    out
}

/// A `String` holding the characters `v[from..to]`.
pub fn string_of(v: &Vec<char>, from: usize, to: usize) -> (r: String)
    requires
        from <= to <= v.len(),
    ensures
        r@ == v@.subrange(from as int, to as int),
{
    let mut out = String::new();
    let mut i = from;
    while i < to
        invariant
            from <= i <= to <= v.len(),
            out@ == v@.subrange(from as int, i as int),
        decreases to - i,
    {
        push_char(&mut out, v[i]);
        i = i + 1;
    }
    out
}

/// Whether `s` reads exactly `expected`.
pub fn text_is(s: &str, expected: &str) -> (r: bool)
    ensures
        r == (s@ == expected@),
{
    let n = s.unicode_len();
    let m = expected.unicode_len();
    if n != m {
        return false;
    }
    let mut i: usize = 0;
    while i < n
        invariant
            n == s@.len(),
            m == expected@.len(),
            n == m,
            i <= n,
            forall|k: int| 0 <= k < i ==> s@[k] == expected@[k],
        decreases n - i,
    {
        if s.get_char(i) != expected.get_char(i) {
            return false;
        }
        i = i + 1;
    }
    assert(s@ =~= expected@);
    true
}

/// Index of the first non-whitespace character of `s` (its length if none).
pub open spec fn lead_end(s: Seq<char>) -> int
    decreases s.len(),
{
    if s.len() == 0 {
        0
    } else if is_space(s[0]) {
        1 + lead_end(s.drop_first())
    } else {
        0
    }
}

/// Index just past the last non-whitespace character of `s` (0 if none).
pub open spec fn tail_start(s: Seq<char>) -> int
    decreases s.len(),
{
    if s.len() == 0 {
        0
    } else if is_space(s.last()) {
        tail_start(s.drop_last())
    } else {
        s.len() as int
    }
}

/// `s` without its leading and trailing whitespace, as `str::trim` gives it.
pub open spec fn trimmed(s: Seq<char>) -> Seq<char> {
    if lead_end(s) >= tail_start(s) {
        Seq::empty()
    } else {
        s.subrange(lead_end(s), tail_start(s))
    }
}

pub proof fn lemma_lead_end(s: Seq<char>)
    ensures
        0 <= lead_end(s) <= s.len(),
        forall|k: int| 0 <= k < lead_end(s) ==> is_space(#[trigger] s[k]),
        lead_end(s) < s.len() ==> !is_space(s[lead_end(s)]),
    decreases s.len(),
{
    if s.len() > 0 && is_space(s[0]) {
        lemma_lead_end(s.drop_first());
        assert forall|k: int| 0 <= k < lead_end(s) implies is_space(#[trigger] s[k]) by {
            if k > 0 {
                assert(s[k] == s.drop_first()[k - 1]);
            }
        }
    }
}

pub proof fn lemma_tail_start(s: Seq<char>)
    ensures
        0 <= tail_start(s) <= s.len(),
        forall|k: int| tail_start(s) <= k < s.len() ==> is_space(#[trigger] s[k]),
        tail_start(s) > 0 ==> !is_space(s[tail_start(s) - 1]),
    decreases s.len(),
{
    if s.len() > 0 && is_space(s.last()) {
        lemma_tail_start(s.drop_last());
        assert forall|k: int| tail_start(s) <= k < s.len() implies is_space(#[trigger] s[k]) by {
            if k < s.len() - 1 {
                assert(s[k] == s.drop_last()[k]);
            }
        }
    }
}

/// Whether `s` holds a character that is not whitespace.
pub open spec fn has_content(s: Seq<char>) -> bool {
    exists|k: int| 0 <= k < s.len() && !is_space(#[trigger] s[k])
}

/// The text trimmed of whitespace is empty exactly when every character is whitespace.
pub proof fn lemma_trimmed_empty(s: Seq<char>)
    ensures
        (trimmed(s).len() == 0) <==> !has_content(s),
{
    lemma_lead_end(s);
    lemma_tail_start(s);
    if has_content(s) {
        let k = choose|k: int| 0 <= k < s.len() && !is_space(#[trigger] s[k]);
        assert(lead_end(s) <= k);
        assert(k < tail_start(s));
    } else {
        if lead_end(s) < s.len() {
            assert(!is_space(s[lead_end(s)]));
        }
    }
}

/// `s` with leading and trailing whitespace removed (`str::trim`).
pub fn trim_text(s: &str) -> (r: String)
    ensures
        r@ == trimmed(s@),
{
    let v = chars_of(s);
    let n = v.len();
    let mut lo: usize = 0;
    while lo < n && char_is_space(v[lo])
        invariant
            n == v@.len(),
            v@ == s@,
            lo <= n,
            forall|k: int| 0 <= k < lo ==> is_space(#[trigger] v@[k]),
        decreases n - lo,
    {
        lo = lo + 1;
    }
    let mut hi: usize = n;
    while hi > lo && char_is_space(v[hi - 1])
        invariant
            n == v@.len(),
            v@ == s@,
            lo <= hi <= n,
            forall|k: int| hi <= k < n ==> is_space(#[trigger] v@[k]),
        decreases hi,
    {
        hi = hi - 1;
    }
    proof {
        lemma_lead_end(s@);
        lemma_tail_start(s@);
        let le = lead_end(s@);
        let ts = tail_start(s@);
        if lo < n {
            assert(lo as int == le) by {
                if le < lo {
                    assert(is_space(v@[le]));
                }
            }
            if hi > lo {
                assert(hi as int == ts) by {
                    if ts > hi {
                        assert(is_space(v@[ts - 1]));
                    }
                    if ts < hi {
                        assert(is_space(v@[hi - 1]));
                    }
                }
            } else {
                assert(ts <= le) by {
                    if ts > le {
                        assert(!is_space(v@[le]));
                        assert(le == hi);
                    }
                }
            }
        } else {
            assert(le == n) by {
                if le < n {
                    assert(is_space(v@[le]));
                }
            }
        }
    }
    if lo >= hi {
        String::new()
    } else {
        string_of(&v, lo, hi)
    }
}

/// The decimal digit character for `d` (`0 <= d < 10`).
pub open spec fn digit_char(d: int) -> char {
    if d == 0 {
        '0'
    } else if d == 1 {
        '1'
    } else if d == 2 {
        '2'
    } else if d == 3 {
        '3'
    } else if d == 4 {
        '4'
    } else if d == 5 {
        '5'
    } else if d == 6 {
        '6'
    } else if d == 7 {
        '7'
    } else if d == 8 {
        '8'
    } else {
        '9'
    }
}

/// The decimal notation of the natural number `n`, without leading zeros.
pub open spec fn decimal(n: nat) -> Seq<char>
    decreases n,
{
    if n < 10 {
        seq![digit_char(n as int)]
    } else {
        decimal(n / 10).push(digit_char((n % 10) as int))
    }
}

/// The decimal notation of the integer `n`, with a leading `-` when it is negative,
/// as `Display` writes integers.
pub open spec fn signed_decimal(n: int) -> Seq<char> {
    if n < 0 {
        seq!['-'] + decimal((-n) as nat)
    } else {
        decimal(n as nat)
    }
}

/// Whether `c` is one of the decimal digits `0` to `9`.
pub open spec fn is_digit(c: char) -> bool {
    0x30 <= (c as u32) <= 0x39
}

/// The number that a string of decimal digits denotes.
pub open spec fn digits_value(s: Seq<char>) -> int
    decreases s.len(),
{
    if s.len() == 0 {
        0
    } else {
        digits_value(s.drop_last()) * 10 + ((s.last() as u32) - 0x30)
    }
}

proof fn lemma_digit_char(d: int)
    requires
        0 <= d < 10,
    ensures
        digit_char(d) as u32 == 0x30 + d,
        d != 0 ==> digit_char(d) != '0',
{
    assert('0' as u32 == 0x30);
    assert('1' as u32 == 0x31);
    assert('2' as u32 == 0x32);
    assert('3' as u32 == 0x33);
    assert('4' as u32 == 0x34);
    assert('5' as u32 == 0x35);
    assert('6' as u32 == 0x36);
    assert('7' as u32 == 0x37);
    assert('8' as u32 == 0x38);
    assert('9' as u32 == 0x39);
}

/// The decimal notation of `n` is a non-empty string of digits, without a
/// leading zero unless it is `0` itself, that denotes `n`.
pub proof fn law_decimal(n: nat)
    ensures
        decimal(n).len() > 0,
        forall|k: int| 0 <= k < decimal(n).len() ==> is_digit(#[trigger] decimal(n)[k]),
        digits_value(decimal(n)) == n,
        decimal(n).len() > 1 ==> decimal(n)[0] != '0',
        n == 0 ==> decimal(n) == seq!['0'],
    decreases n,
{
    if n < 10 {
        lemma_digit_char(n as int);
        assert(decimal(n) == seq![digit_char(n as int)]);
        assert(seq![digit_char(n as int)].drop_last() =~= Seq::<char>::empty());
        assert(digits_value(Seq::<char>::empty()) == 0);
        assert(decimal(n).last() == digit_char(n as int));
        assert(digits_value(decimal(n)) == digits_value(decimal(n).drop_last()) * 10 + ((
        decimal(n).last() as u32) - 0x30));
    } else {
        let q = n / 10;
        let r = n % 10;
        law_decimal(q);
        lemma_digit_char(r as int);
        let d = decimal(n);
        assert(d == decimal(q).push(digit_char(r as int)));
        assert(d.drop_last() =~= decimal(q));
        assert(d.last() == digit_char(r as int));
        assert(digits_value(d) == digits_value(decimal(q)) * 10 + r);
        assert(n == q * 10 + r) by (nonlinear_arith)
            requires
                q == n / 10,
                r == n % 10,
        ;
        assert forall|k: int| 0 <= k < d.len() implies is_digit(#[trigger] d[k]) by {
            if k < d.len() - 1 {
                assert(d[k] == decimal(q)[k]);
            }
        }
        assert(d[0] == decimal(q)[0]);
        if decimal(q).len() == 1 {
            assert(1 <= q < 10) by {
                if q >= 10 {
                    law_decimal(q / 10);
                    assert(decimal(q).len() == decimal(q / 10).len() + 1);
                }
            }
            lemma_digit_char(q as int);
            assert(decimal(q) == seq![digit_char(q as int)]);
        }
    }
}

/// A negative number is written as `-` followed by the decimal notation of its
/// magnitude; any other number as its decimal notation.
pub proof fn law_signed_decimal(n: int)
    ensures
        n < 0 ==> signed_decimal(n)[0] == '-' && signed_decimal(n).drop_first() == decimal(
            (-n) as nat,
        ),
        n >= 0 ==> signed_decimal(n) == decimal(n as nat),
{
    if n < 0 {
        assert((seq!['-'] + decimal((-n) as nat)).drop_first() =~= decimal((-n) as nat));
    }
}

/// Trimming removes whitespace only, from both ends, and leaves none at either
/// end: the result is a stretch `s[i..j]` with only whitespace before `i` and
/// after `j`.
pub proof fn law_trimmed(s: Seq<char>)
    ensures
        exists|i: int, j: int|
            0 <= i <= j <= s.len() && trimmed(s) == s.subrange(i, j) && (forall|k: int|
                0 <= k < i ==> is_space(#[trigger] s[k])) && (forall|k: int|
                j <= k < s.len() ==> is_space(#[trigger] s[k])),
        trimmed(s).len() > 0 ==> !is_space(trimmed(s)[0]) && !is_space(trimmed(s).last()),
{
    lemma_lead_end(s);
    lemma_tail_start(s);
    let le = lead_end(s);
    let ts = tail_start(s);
    if le >= ts {
        assert(trimmed(s) =~= s.subrange(le, le));
        assert forall|k: int| le <= k < s.len() implies is_space(#[trigger] s[k]) by {
            assert(k >= ts);
        }
    } else {
        assert(trimmed(s) == s.subrange(le, ts));
    }
}

fn digit(d: u64) -> (c: char)
    requires
        d < 10,
    ensures
        c == digit_char(d as int),
{
    if d == 0 {
        '0'
    } else if d == 1 {
        '1'
    } else if d == 2 {
        '2'
    } else if d == 3 {
        '3'
    } else if d == 4 {
        '4'
    } else if d == 5 {
        '5'
    } else if d == 6 {
        '6'
    } else if d == 7 {
        '7'
    } else if d == 8 {
        '8'
    } else {
        '9'
    }
}

/// Appends the decimal notation of `n` to `out`.
pub fn push_decimal(out: &mut String, n: u64)
    ensures
        final(out)@ == old(out)@ + decimal(n as nat),
    decreases n,
{
    if n < 10 {
        push_char(out, digit(n));
        assert(decimal(n as nat) =~= seq![digit_char(n as int)]);
    } else {
        push_decimal(out, n / 10);
        push_char(out, digit(n % 10));
    }
}

/// Appends the decimal notation of the signed integer `n` to `out`.
pub fn push_signed_decimal(out: &mut String, n: i32)
    ensures
        final(out)@ == old(out)@ + signed_decimal(n as int),
{
    if n < 0 {
        push_char(out, '-');
        let m: i64 = n as i64;
        let abs: u64 = (0i64 - m) as u64;
        push_decimal(out, abs);
        assert(old(out)@ + signed_decimal(n as int) =~= old(out)@.push('-') + decimal(abs as nat));
    } else {
        push_decimal(out, n as u64);
    }
}

} // verus!
