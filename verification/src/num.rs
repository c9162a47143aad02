//! Decimal rendering and parsing of the integers that the harness persists
//! as scalar files (call count, reset epoch, runner pid).

use vstd::prelude::*;

verus! {

/// The digit character for one decimal digit.
pub open spec fn digit_char(d: nat) -> char
    recommends
        d < 10,
{
    ((48 + d) as u8) as char
}

/// The decimal digits of `n`, most significant first, no sign and no
/// leading zero (a single `'0'` for zero).
pub open spec fn spec_u64_digits(n: nat) -> Seq<char>
    decreases n,
{
    if n < 10 {
        seq![digit_char(n)]
    } else {
        spec_u64_digits(n / 10) + seq![digit_char(n % 10)]
    }
}

/// `c` is a decimal digit.
pub open spec fn is_digit(c: char) -> bool {
    '0' <= c && c <= '9'
}

/// The value of a digit character.
pub open spec fn digit_val(c: char) -> nat
    recommends
        is_digit(c),
{
    (c as nat - 48) as nat
}

/// Every character of `s` is a decimal digit.
pub open spec fn all_digits(s: Seq<char>) -> bool {
    forall|i: int| 0 <= i < s.len() ==> is_digit(#[trigger] s[i])
}

/// The numeric value of a digit string, most significant digit first.
pub open spec fn digits_val(s: Seq<char>) -> nat
    decreases s.len(),
{
    if s.len() == 0 {
        0
    } else {
        digits_val(s.drop_last()) * 10 + digit_val(s.last())
    }
}

/// What `str::parse::<u64>` accepts: an optional leading `'+'`, then one or
/// more digits whose value fits in the type.
pub open spec fn spec_parse_u64(s: Seq<char>) -> Option<u64> {
    let body = if s.len() > 0 && s[0] == '+' {
        s.drop_first()
    } else {
        s
    };
    if body.len() > 0 && all_digits(body) && digits_val(body) <= u64::MAX {
        Some(digits_val(body) as u64)
    } else {
        None
    }
}

/// What `str::parse::<u32>` accepts.
pub open spec fn spec_parse_u32(s: Seq<char>) -> Option<u32> {
    let body = if s.len() > 0 && s[0] == '+' {
        s.drop_first()
    } else {
        s
    };
    if body.len() > 0 && all_digits(body) && digits_val(body) <= u32::MAX {
        Some(digits_val(body) as u32)
    } else {
        None
    }
}

/// What `str::parse::<i32>` accepts: an optional sign, then one or more
/// digits whose signed value fits in the type.
pub open spec fn spec_parse_i32(s: Seq<char>) -> Option<i32> {
    let negative = s.len() > 0 && s[0] == '-';
    let body = if s.len() > 0 && (s[0] == '+' || s[0] == '-') {
        s.drop_first()
    } else {
        s
    };
    if body.len() > 0 && all_digits(body) {
        if negative && digits_val(body) <= 0x8000_0000 {
            Some((0 - digits_val(body)) as i32)
        } else if !negative && digits_val(body) <= i32::MAX {
            Some(digits_val(body) as i32)
        } else {
            None
        }
    } else {
        None
    }
}

/// The character for one digit value.
fn digit_to_char(d: u8) -> (c: char)
    requires
        d < 10,
    ensures
        c == digit_char(d as nat),
{
    (48 + d) as char
}

/// Render `n` in decimal.
pub fn u64_to_chars(n: u64) -> (v: Vec<char>)
    ensures
        v@ == spec_u64_digits(n as nat),
    decreases n,
{
    if n < 10 {
        let mut v: Vec<char> = Vec::new();
        v.push(digit_to_char(n as u8));
        proof {
            assert(v@ =~= spec_u64_digits(n as nat));
        }
        v
    } else {
        let mut v = u64_to_chars(n / 10);
        v.push(digit_to_char((n % 10) as u8));
        proof {
            assert(v@ =~= spec_u64_digits((n / 10) as nat) + seq![digit_char((n % 10) as nat)]);
        }
        v
    }
}

/// Render `n` in decimal as a `String`, as `u64::to_string` does.
pub fn u64_to_string(n: u64) -> (s: String)
    ensures
        s@ == spec_u64_digits(n as nat),
{
    let v = u64_to_chars(n);
    crate::text::string_of(&v)
}

/// Render `n` in decimal as a `String`, as `u32::to_string` does.
pub fn u32_to_string(n: u32) -> (s: String)
    ensures
        s@ == spec_u64_digits(n as nat),
{
    u64_to_string(n as u64)
}

/// The magnitude of a digit string, `None` when it exceeds `u64`.
fn digits_to_u64(body: &Vec<char>, start: usize) -> (r: Option<u64>)
    requires
        start <= body@.len(),
        all_digits(body@.subrange(start as int, body@.len() as int)),
    ensures
        (match r {
            Some(a) => a == digits_val(body@.subrange(start as int, body@.len() as int)),
            None => digits_val(body@.subrange(start as int, body@.len() as int)) > u64::MAX,
        }),
{
    let ghost full = body@.subrange(start as int, body@.len() as int);
    let mut acc: u64 = 0;
    let mut overflow = false;
    let mut i: usize = start;
    proof {
        assert(body@.subrange(start as int, start as int) =~= Seq::<char>::empty());
    }
    while i < body.len()
        invariant
            start <= i <= body@.len(),
            full == body@.subrange(start as int, body@.len() as int),
            all_digits(full),
            !overflow ==> acc == digits_val(body@.subrange(start as int, i as int)),
            overflow ==> digits_val(body@.subrange(start as int, i as int)) > u64::MAX,
        decreases body.len() - i,
    {
        let ghost pre = body@.subrange(start as int, i as int);
        let ghost post = body@.subrange(start as int, i + 1 as int);
        proof {
            assert(post.drop_last() =~= pre);
            assert(full[i - start] == body@[i as int]);
        }
        let c = body[i];
        let d: u64 = (c as u32 as u64) - 48;
        if overflow {
            proof {
                assert(digits_val(post) == digits_val(pre) * 10 + digit_val(body@[i as int]));
            }
        } else if acc > (u64::MAX - d) / 10 {
            overflow = true;
            proof {
                assert(digits_val(post) == digits_val(pre) * 10 + digit_val(body@[i as int]));
                assert(digits_val(pre) * 10 + digit_val(body@[i as int]) > u64::MAX) by (
                nonlinear_arith)
                    requires
                        digits_val(pre) == acc,
                        digit_val(body@[i as int]) == d,
                        acc > (u64::MAX - d) / 10,
                        d <= 9,
                ;
            }
        } else {
            proof {
                assert(acc * 10 + d <= u64::MAX) by (nonlinear_arith)
                    requires
                        acc <= (u64::MAX - d) / 10,
                        d <= 9,
                ;
                assert(digits_val(post) == digits_val(pre) * 10 + digit_val(body@[i as int]));
            }
            acc = acc * 10 + d;
        }
        i = i + 1;
    }
    proof {
        assert(body@.subrange(start as int, body@.len() as int) =~= full);
    }
    if overflow {
        None
    } else {
        Some(acc)
    }
}

/// Parse a decimal `u64`, exactly as `str::parse::<u64>` does.
#[verifier::loop_isolation(false)]
pub fn parse_u64_chars(v: &Vec<char>) -> (r: Option<u64>)
    ensures
        r == spec_parse_u64(v@),
{
    let start: usize = if v.len() > 0 && v[0] == '+' {
        1
    } else {
        0
    };
    let ghost body = if v@.len() > 0 && v@[0] == '+' {
        v@.drop_first()
    } else {
        v@
    };
    proof {
        assert(body =~= v@.subrange(start as int, v@.len() as int));
    }
    if v.len() == start {
        return None;
    }
    let mut i: usize = start;
    while i < v.len()
        invariant
            start <= i <= v@.len(),
            body == v@.subrange(start as int, v@.len() as int),
            forall|k: int| start <= k < i ==> is_digit(#[trigger] v@[k]),
        decreases v.len() - i,
    {
        let c = v[i];
        if !('0' <= c && c <= '9') {
            proof {
                assert(body[i - start] == v@[i as int]);
                assert(!is_digit(body[i - start]));
                assert(!all_digits(body));
            }
            return None;
        }
        i = i + 1;
    }
    proof {
        assert(forall|k: int|
            0 <= k < body.len() ==> #[trigger] body[k] == v@[k + start as int]);
        assert(all_digits(body));
    }
    match digits_to_u64(v, start) {
        Some(a) => Some(a),
        None => None,
    }
}

/// Parse a decimal `u32`, exactly as `str::parse::<u32>` does.
pub fn parse_u32_chars(v: &Vec<char>) -> (r: Option<u32>)
    ensures
        r == spec_parse_u32(v@),
{
    match parse_u64_chars(v) {
        Some(a) => {
            if a <= u32::MAX as u64 {
                Some(a as u32)
            } else {
                None
            }
        },
        None => None,
    }
}

/// Parse a decimal `i32`, exactly as `str::parse::<i32>` does.
#[verifier::loop_isolation(false)]
pub fn parse_i32_chars(v: &Vec<char>) -> (r: Option<i32>)
    ensures
        r == spec_parse_i32(v@),
{
    let negative: bool = v.len() > 0 && v[0] == '-';
    let start: usize = if v.len() > 0 && (v[0] == '+' || v[0] == '-') {
        1
    } else {
        0
    };
    let ghost body = if v@.len() > 0 && (v@[0] == '+' || v@[0] == '-') {
        v@.drop_first()
    } else {
        v@
    };
    proof {
        assert(body =~= v@.subrange(start as int, v@.len() as int));
    }
    if v.len() == start {
        return None;
    }
    let mut i: usize = start;
    while i < v.len()
        invariant
            start <= i <= v@.len(),
            body == v@.subrange(start as int, v@.len() as int),
            forall|k: int| start <= k < i ==> is_digit(#[trigger] v@[k]),
        decreases v.len() - i,
    {
        let c = v[i];
        if !('0' <= c && c <= '9') {
            proof {
                assert(body[i - start] == v@[i as int]);
                assert(!is_digit(body[i - start]));
                assert(!all_digits(body));
            }
            return None;
        }
        i = i + 1;
    }
    proof {
        assert(forall|k: int|
            0 <= k < body.len() ==> #[trigger] body[k] == v@[k + start as int]);
        assert(all_digits(body));
    }
    match digits_to_u64(v, start) {
        Some(a) => {
            if negative {
                if a <= 0x8000_0000u64 {
                    proof {
                        assert((0 - a as int) >= i32::MIN);
                    }
                    Some((-(a as i64)) as i32)
                } else {
                    None
                }
            } else {
                if a <= i32::MAX as u64 {
                    Some(a as i32)
                } else {
                    None
                }
            }
        },
        None => None,
    }
}

/// The value of one digit character round-trips through the casts.
proof fn lemma_digit_char_val(d: nat)
    requires
        d < 10,
    ensures
        digit_char(d) as nat == 48 + d,
        is_digit(digit_char(d)),
        digit_val(digit_char(d)) == d,
{
    assert((48 + d) as u8 == 48 + d);
}

/// Every digit of a decimal rendering is a digit character, and the first
/// is never a sign.
proof fn lemma_u64_digits_are_digits(n: nat)
    ensures
        spec_u64_digits(n).len() >= 1,
        all_digits(spec_u64_digits(n)),
    decreases n,
{
    if n < 10 {
        lemma_digit_char_val(n);
    } else {
        lemma_u64_digits_are_digits(n / 10);
        lemma_digit_char_val(n % 10);
        let s = spec_u64_digits(n);
        let p = spec_u64_digits(n / 10);
        assert forall|i: int| 0 <= i < s.len() implies is_digit(#[trigger] s[i]) by {
            if i < p.len() {
                assert(s[i] == p[i]);
            } else {
                assert(s[i] == digit_char(n % 10));
            }
        }
    }
}

/// The decimal rendering of `n` evaluates back to `n`.
proof fn lemma_u64_digits_val(n: nat)
    ensures
        digits_val(spec_u64_digits(n)) == n,
    decreases n,
{
    if n < 10 {
        lemma_digit_char_val(n);
        let s = spec_u64_digits(n);
        assert(s.len() == 1);
        assert(s.drop_last() =~= Seq::<char>::empty());
        assert(s.last() == digit_char(n));
        assert(digits_val(s) == digits_val(s.drop_last()) * 10 + digit_val(s.last()));
        assert(digits_val(Seq::<char>::empty()) == 0);
    } else {
        lemma_u64_digits_val(n / 10);
        lemma_u64_digits_are_digits(n / 10);
        lemma_digit_char_val(n % 10);
        let s = spec_u64_digits(n);
        let p = spec_u64_digits(n / 10);
        assert(s.drop_last() =~= p);
        assert(s.last() == digit_char(n % 10));
        assert(digits_val(s) == digits_val(p) * 10 + digit_val(s.last()));
        assert(digits_val(s) == (n / 10) * 10 + n % 10);
        assert((n / 10) * 10 + n % 10 == n);
    }
}

/// A decimal rendering is never empty and holds digit characters only.
pub proof fn lemma_u64_digits_shape(n: nat)
    ensures
        spec_u64_digits(n).len() >= 1,
        all_digits(spec_u64_digits(n)),
{
    lemma_u64_digits_are_digits(n);
}

/// Rendering an integer in decimal and parsing the text back returns the
/// same integer: the persisted scalar state survives a write/read cycle.
pub proof fn lemma_u64_decimal_round_trip(n: u64)
    ensures
        spec_parse_u64(spec_u64_digits(n as nat)) == Some(n),
{
    lemma_u64_digits_are_digits(n as nat);
    lemma_u64_digits_val(n as nat);
    assert(spec_u64_digits(n as nat)[0] != '+');
}

/// The `u32` form of the decimal round trip.
pub proof fn lemma_u32_decimal_round_trip(n: u32)
    ensures
        spec_parse_u32(spec_u64_digits(n as nat)) == Some(n),
{
    lemma_u64_digits_are_digits(n as nat);
    lemma_u64_digits_val(n as nat);
    assert(spec_u64_digits(n as nat)[0] != '+');
}

} // verus!
