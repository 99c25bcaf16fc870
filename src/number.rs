use vstd::prelude::*;

verus! {

pub open spec fn is_digit(c: char) -> bool {
    '0' <= c <= '9'
}

pub open spec fn digit_value(c: char) -> nat {
    (c as u32 - '0' as u32) as nat
}

/// The number that a string of decimal digits denotes.
pub open spec fn digits_value(d: Seq<char>) -> nat
    decreases d.len(),
{
    if d.len() == 0 {
        0
    } else {
        digits_value(d.drop_last()) * 10 + digit_value(d.last())
    }
}

pub open spec fn all_digits(d: Seq<char>) -> bool {
    forall|i: int| 0 <= i < d.len() ==> is_digit(d[i])
}

/// The digits of an unsigned number as text: an optional leading `+` is dropped.
pub open spec fn unsigned_digits(s: Seq<char>) -> Seq<char> {
    if s.len() > 0 && s[0] == '+' {
        s.drop_first()
    } else {
        s
    }
}

/// An unsigned number no larger than `max`, written as an optional `+` and one or more
/// decimal digits with nothing around them.
pub open spec fn parse_unsigned(s: Seq<char>, max: nat) -> Option<nat> {
    let d = unsigned_digits(s);
    if d.len() > 0 && all_digits(d) && digits_value(d) <= max {
        Some(digits_value(d))
    } else {
        None
    }
}

pub open spec fn digit_char(n: nat) -> char {
    ('0' as u32 + n) as char
}

/// The decimal form of `n`, without leading zeros.
pub open spec fn decimal(n: nat) -> Seq<char>
    decreases n,
{
    if n < 10 {
        seq![digit_char(n)]
    } else {
        decimal(n / 10).push(digit_char(n % 10))
    }
}

proof fn lemma_prefix_value_le(d: Seq<char>, j: int)
    requires
        0 <= j <= d.len(),
    ensures
        digits_value(d.take(j)) <= digits_value(d),
    decreases d.len(),
{
    if j < d.len() {
        lemma_prefix_value_le(d.drop_last(), j);
        assert(d.drop_last().take(j) =~= d.take(j));
    } else {
        assert(d.take(j) =~= d);
    }
}

/// Reads an unsigned number no larger than `max`, as `str::parse` does for unsigned
/// integer types.
fn parse_bounded(s: &str, max: u64) -> (r: Option<u64>)
    ensures
        match parse_unsigned(s@, max as nat) {
            Some(v) => r == Some(v as u64),
            None => r is None,
        },
{
    let n = s.unicode_len();
    let start: usize = if n > 0 && s.get_char(0) == '+' {
        1
    } else {
        0
    };
    let ghost d = unsigned_digits(s@);
    assert(d =~= s@.skip(start as int));
    if start == n {
        return None;
    }
    let mut acc: u64 = 0;
    let mut i: usize = start;
    while i < n
        invariant
            start <= i <= n,
            n == s@.len(),
            d == s@.skip(start as int),
            d == unsigned_digits(s@),
            all_digits(d.take(i - start)),
            acc as nat == digits_value(d.take(i - start)),
            acc <= max,
        decreases n - i,
    {
        let c = s.get_char(i);
        let ghost pre = d.take(i - start);
        let ghost next = d.take(i - start + 1);
        assert(next.drop_last() =~= pre);
        assert(next.last() == c);
        if !('0' <= c && c <= '9') {
            assert(!all_digits(d)) by {
                assert(d[i - start] == c);
            }
            return None;
        }
        let v: u128 = (acc as u128) * 10 + ((c as u32 - '0' as u32) as u128);
        if v > max as u128 {
            proof {
                if all_digits(d) {
                    lemma_prefix_value_le(d, i - start + 1);
                }
            }
            return None;
        }
        acc = v as u64;
        i = i + 1;
        assert(all_digits(next)) by {
            assert forall|k: int| 0 <= k < next.len() implies is_digit(#[trigger] next[k]) by {
                if k < next.len() - 1 {
                    assert(next[k] == pre[k]);
                }
            }
        }
    }
    assert(d.take(n - start) =~= d);
    Some(acc)
}

/// Reads a `u32` as `str::parse::<u32>` does.
pub fn parse_u32(s: &str) -> (r: Option<u32>)
    ensures
        match parse_unsigned(s@, u32::MAX as nat) {
            Some(v) => r == Some(v as u32),
            None => r is None,
        },
{
    match parse_bounded(s, u32::MAX as u64) {
        Some(v) => Some(v as u32),
        None => None,
    }
}

/// Reads a `u64` as `str::parse::<u64>` does.
pub fn parse_u64(s: &str) -> (r: Option<u64>)
    ensures
        match parse_unsigned(s@, u64::MAX as nat) {
            Some(v) => r == Some(v as u64),
            None => r is None,
        },
{
    parse_bounded(s, u64::MAX)
}

fn digit_str(n: u64) -> (r: &'static str)
    requires
        n < 10,
    ensures
        r@ == seq![digit_char(n as nat)],
{
    proof {
        reveal_strlit("0");
        reveal_strlit("1");
        reveal_strlit("2");
        reveal_strlit("3");
        reveal_strlit("4");
        reveal_strlit("5");
        reveal_strlit("6");
        reveal_strlit("7");
        reveal_strlit("8");
        reveal_strlit("9");
    }
    let r = match n {
        0 => "0",
        1 => "1",
        2 => "2",
        3 => "3",
        4 => "4",
        5 => "5",
        6 => "6",
        7 => "7",
        8 => "8",
        _ => "9",
    };
    assert(r@ =~= seq![digit_char(n as nat)]);
    r
}

/// Appends the decimal form of `n` to `out`.
pub fn push_decimal(out: &mut String, n: u64)
    ensures
        final(out)@ == old(out)@ + decimal(n as nat),
    decreases n,
{
    if n >= 10 {
        push_decimal(out, n / 10);
    }
    out.append(digit_str(n % 10));
    assert(decimal(n as nat) == if n < 10 {
        seq![digit_char(n as nat)]
    } else {
        decimal((n / 10) as nat).push(digit_char((n % 10) as nat))
    });
    assert(n < 10 ==> n % 10 == n);
}

} // verus!
