use vstd::prelude::*;

verus! {

// ---------------------------------------------------------------------------
// Decimal rendering of integers (the behaviour of `i32::to_string`)
// ---------------------------------------------------------------------------

/// The character of the decimal digit `d` (for `0 <= d < 10`).
pub open spec fn digit_char(d: int) -> char {
    ((d + 48) as u32) as char
}

/// The decimal digits of `m`, most significant first, without leading zeros.
pub open spec fn spec_digits(m: nat) -> Seq<char>
    decreases m,
{
    if m < 10 {
        seq![digit_char(m as int)]
    } else {
        spec_digits(m / 10).push(digit_char((m % 10) as int))
    }
}

/// The decimal rendering of `n`: a `-` before the digits of a negative number.
pub open spec fn spec_decimal(n: int) -> Seq<char> {
    if n < 0 {
        seq!['-'] + spec_digits((-n) as nat)
    } else {
        spec_digits(n as nat)
    }
}

fn digit(d: u32) -> (c: char)
    requires
        d < 10,
    ensures
        c == digit_char(d as int),
{
    let b: u8 = d as u8 + 48u8;
    b as char
}

fn push_digits(m: u32, out: &mut Vec<char>)
    ensures
        final(out)@ == old(out)@ + spec_digits(m as nat),
    decreases m,
{
    if m >= 10 {
        push_digits(m / 10, out);
    }
    out.push(digit(m % 10));
    proof {
        if m >= 10 {
            assert(old(out)@ + spec_digits(m as nat) =~= old(out)@ + spec_digits((m / 10) as nat)
                + seq![digit_char((m % 10) as int)]);
        } else {
            assert(old(out)@ + spec_digits(m as nat) =~= old(out)@ + seq![digit_char(m as int)]);
        }
    }
}

/// The decimal rendering of `n`, as `n.to_string()` gives it.
pub fn decimal_of(n: i32) -> (s: String)
    ensures
        s@ == spec_decimal(n as int),
{
    let mut v: Vec<char> = Vec::new();
    let m: u32;
    if n < 0 {
        v.push('-');
        let w: i64 = -(n as i64);
        m = w as u32;
    } else {
        m = n as u32;
    }
    push_digits(m, &mut v);
    proof {
        if n < 0 {
            assert(v@ =~= seq!['-'] + spec_digits(m as nat));
        } else {
            assert(v@ =~= spec_digits(m as nat));
        }
    }
    crate::text::string_of(&v)
}

// ---------------------------------------------------------------------------
// Parsing integers (the behaviour of `str::parse::<i32>`)
// ---------------------------------------------------------------------------

/// `c` is an ASCII decimal digit.
pub open spec fn is_digit(c: char) -> bool {
    '0' <= c && c <= '9'
}

/// Every character of `s` is an ASCII decimal digit.
pub open spec fn all_digits(s: Seq<char>) -> bool {
    forall|i: int| 0 <= i < s.len() ==> is_digit(#[trigger] s[i])
}

/// The number that the decimal digits `s` denote.
pub open spec fn digits_value(s: Seq<char>) -> int
    decreases s.len(),
{
    if s.len() == 0 {
        0
    } else {
        digits_value(s.drop_last()) * 10 + (s.last() as int - 48)
    }
}

/// The integer that `s` denotes: an optional `+` or `-` sign followed by at least one
/// ASCII decimal digit, and nothing else.
pub open spec fn spec_parse_int(s: Seq<char>) -> Option<int> {
    if s.len() > 0 && (s[0] == '+' || s[0] == '-') {
        let body = s.skip(1);
        if body.len() > 0 && all_digits(body) {
            Some(if s[0] == '-' { -digits_value(body) } else { digits_value(body) })
        } else {
            None
        }
    } else if s.len() > 0 && all_digits(s) {
        Some(digits_value(s))
    } else {
        None
    }
}

/// What `s.parse::<i32>()` gives, with `None` for its error: the integer that `s` denotes,
/// where it fits in an `i32`.
pub open spec fn spec_parse_i32(s: Seq<char>) -> Option<i32> {
    match spec_parse_int(s) {
        Some(v) => if i32::MIN <= v <= i32::MAX { Some(v as i32) } else { None },
        None => None,
    }
}

pub proof fn lemma_digits_value_nonneg(s: Seq<char>)
    requires
        all_digits(s),
    ensures
        digits_value(s) >= 0,
    decreases s.len(),
{
    if s.len() > 0 {
        lemma_digits_value_nonneg(s.drop_last());
    }
}

/// A longer run of digits never denotes a smaller number.
proof fn lemma_digits_value_prefix(s: Seq<char>, k: int)
    requires
        all_digits(s),
        0 <= k <= s.len(),
    ensures
        digits_value(s.take(k)) <= digits_value(s),
    decreases s.len(),
{
    if k < s.len() {
        assert(s.drop_last().take(k) =~= s.take(k));
        lemma_digits_value_prefix(s.drop_last(), k);
        lemma_digits_value_nonneg(s.drop_last());
    } else {
        assert(s.take(k) =~= s);
    }
}

/// Parses an `i32` as `str::parse::<i32>` does; `None` where that fails.
pub fn parse_i32(s: &str) -> (r: Option<i32>)
    ensures
        r == spec_parse_i32(s@),
{
    let v = crate::text::chars_of(s);
    if v.len() == 0 {
        return None;
    }
    let negative = v[0] == '-';
    let start: usize = if v[0] == '+' || v[0] == '-' { 1 } else { 0 };
    if start == v.len() {
        return None;
    }
    let ghost body = s@.skip(start as int);
    assert(start == 0 ==> body =~= s@);
    let mut acc: i64 = 0;
    let mut i: usize = start;
    while i < v.len()
        invariant
            v@ == s@,
            start <= i <= v.len(),
            start < v.len(),
            start <= 1,
            body == s@.skip(start as int),
            start == 0 ==> body == s@,
            (start == 1) == (s@[0] == '+' || s@[0] == '-'),
            negative == (s@[0] == '-'),
            all_digits(body.take(i - start)),
            acc == digits_value(body.take(i - start)),
            0 <= acc <= 2147483648,
        decreases v.len() - i,
    {
        let c = v[i];
        if !('0' <= c && c <= '9') {
            assert(body[i - start] == c);
            assert(!all_digits(body));
            return None;
        }
        let d: i64 = (c as u32 - 48u32) as i64;
        let next = acc * 10 + d;
        let ghost pre = body.take(i - start);
        assert(body.take(i - start + 1).drop_last() =~= pre);
        assert(body.take(i - start + 1).last() == c);
        assert(all_digits(body.take(i - start + 1))) by {
            assert forall|j: int| 0 <= j < i - start + 1 implies is_digit(#[trigger] body.take(i - start + 1)[j]) by {
                if j < i - start {
                    assert(body.take(i - start + 1)[j] == pre[j]);
                }
            }
        }
        if next > 2147483648 {
            proof {
                assert(digits_value(body.take(i - start + 1)) == next);
                if all_digits(body) {
                    lemma_digits_value_prefix(body, i - start + 1);
                    assert(digits_value(body) > 2147483648);
                    if start == 1 {
                        assert(spec_parse_int(s@) == Some(if s@[0] == '-' { -digits_value(body) } else { digits_value(body) }));
                    } else {
                        assert(spec_parse_int(s@) == Some(digits_value(body)));
                    }
                }
            }
            return None;
        }
        acc = next;
        i = i + 1;
    }
    assert(body.take(i - start) =~= body);
    if negative {
        Some((-acc) as i32)
    } else if acc > 2147483647 {
        None
    } else {
        Some(acc as i32)
    }
}

// ---------------------------------------------------------------------------
// The two agree
// ---------------------------------------------------------------------------

proof fn lemma_digit_char(d: int)
    requires
        0 <= d < 10,
    ensures
        digit_char(d) as int == d + 48,
        is_digit(digit_char(d)),
{
}

proof fn lemma_digits_parse(m: nat)
    ensures
        spec_digits(m).len() > 0,
        all_digits(spec_digits(m)),
        digits_value(spec_digits(m)) == m,
    decreases m,
{
    if m >= 10 {
        lemma_digits_parse(m / 10);
        lemma_digit_char((m % 10) as int);
        let s = spec_digits(m);
        assert(m == (m / 10) * 10 + m % 10);
        assert(s.drop_last() =~= spec_digits(m / 10));
        assert(s.last() == digit_char((m % 10) as int));
        assert(digits_value(s) == digits_value(s.drop_last()) * 10 + (s.last() as int - 48));
        assert(digits_value(s) == (m / 10) * 10 + (m % 10) as int);
        assert forall|i: int| 0 <= i < s.len() implies is_digit(#[trigger] s[i]) by {
            if i < s.len() - 1 {
                assert(s[i] == spec_digits(m / 10)[i]);
            }
        }
    } else {
        lemma_digit_char(m as int);
        let s = spec_digits(m);
        assert(s.drop_last() =~= Seq::<char>::empty());
        assert(s.last() == digit_char(m as int));
        assert(digits_value(s) == digits_value(s.drop_last()) * 10 + (s.last() as int - 48));
    }
}

/// Reading back the decimal rendering of an `i32` gives that `i32`: the number that a menu
/// shows is the number that choosing it yields.
pub proof fn law_parse_decimal_roundtrip(n: i32)
    ensures
        spec_parse_i32(spec_decimal(n as int)) == Some(n),
{
    if n < 0 {
        let m = (-n) as nat;
        lemma_digits_parse(m);
        let s = spec_decimal(n as int);
        assert(s.skip(1) =~= spec_digits(m));
    } else {
        lemma_digits_parse(n as nat);
        let s = spec_digits(n as nat);
        assert(is_digit(s[0]));
    }
}

} // verus!
