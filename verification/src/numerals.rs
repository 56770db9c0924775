//! Numbers as digits, and bytes as hexadecimal text.

use crate::text::text_of;
use vstd::prelude::*;

verus! {

/// The digit of value `d`, for `d` below sixteen.
pub open spec fn digit(d: int) -> char {
    if d < 10 {
        ('0' as u8 + d) as char
    } else {
        ('a' as u8 + d - 10) as char
    }
}

/// The digits of `n` in base `base`, without leading zeros.
pub open spec fn digits(n: nat, base: nat) -> Seq<char>
    decreases n,
{
    if base < 2 || n < base {
        seq![digit(n as int)]
    } else {
        proof {
            vstd::arithmetic::div_mod::lemma_div_decreases(n as int, base as int);
        }
        digits(n / base, base).push(digit((n % base) as int))
    }
}

/// The decimal digits of `n`.
pub open spec fn decimal(n: nat) -> Seq<char> {
    digits(n, 10)
}

/// The digit for a number below 16.
pub fn digit_char(d: u8) -> (c: char)
    requires
        d < 16,
    ensures
        c == digit(d as int),
{
    if d < 10 {
        (48 + d) as char
    } else {
        (87 + d) as char
    }
}

/// `n` written in base `base`.
pub fn in_base(n: u64, base: u64) -> (s: String)
    requires
        2 <= base <= 16,
    ensures
        s@ == digits(n as nat, base as nat),
{
    let mut rest: u64 = n;
    let mut tail: Vec<char> = Vec::new();
    while rest >= base
        invariant
            2 <= base <= 16,
            digits(n as nat, base as nat) == digits(rest as nat, base as nat) + tail@.reverse(),
        decreases rest,
    {
        let ghost before = tail@;
        tail.push(digit_char((rest % base) as u8));
        proof {
            assert(digits(rest as nat, base as nat) == digits(
                rest as nat / base as nat,
                base as nat,
            ).push(digit((rest as nat % base as nat) as int)));
            assert(tail@.reverse() == seq![tail@.last()] + before.reverse());
            assert(digits(rest as nat / base as nat, base as nat).push(tail@.last())
                + before.reverse() == digits(rest as nat / base as nat, base as nat) + (seq![
                tail@.last(),
            ] + before.reverse()));
            vstd::arithmetic::div_mod::lemma_div_decreases(rest as int, base as int);
        }
        rest = rest / base;
    }
    let mut all: Vec<char> = Vec::new();
    all.push(digit_char(rest as u8));
    let mut i: usize = tail.len();
    proof {
        assert(tail@.skip(i as int).reverse() == Seq::<char>::empty());
    }
    while i > 0
        invariant
            i <= tail.len(),
            all@ == digits(rest as nat, base as nat) + tail@.skip(i as int).reverse(),
        decreases i,
    {
        let ghost before = tail@.skip(i as int);
        i = i - 1;
        proof {
            assert(tail@.skip(i as int) == seq![tail@[i as int]] + before);
            assert(tail@.skip(i as int).reverse() == before.reverse().push(tail@[i as int]));
        }
        all.push(tail[i]);
    }
    proof {
        assert(tail@.skip(0) == tail@);
    }
    text_of(&all)
}

/// `n` in decimal.
pub fn to_decimal(n: u64) -> (s: String)
    ensures
        s@ == decimal(n as nat),
{
    in_base(n, 10)
}

/// Two hexadecimal digits for each byte.
pub open spec fn hex(bytes: Seq<u8>) -> Seq<char>
    decreases bytes.len(),
{
    if bytes.len() == 0 {
        seq![]
    } else {
        hex(bytes.drop_last()).push(digit(bytes.last() as int / 16)).push(
            digit(bytes.last() as int % 16),
        )
    }
}

/// `bytes` as lower-case hexadecimal text.
pub fn to_hex(bytes: &Vec<u8>) -> (s: String)
    ensures
        s@ == hex(bytes@),
{
    let mut out = String::new();
    let mut i: usize = 0;
    while i < bytes.len()
        invariant
            i <= bytes.len(),
            out@ == hex(bytes@.take(i as int)),
        decreases bytes.len() - i,
    {
        proof {
            assert(bytes@.take(i + 1).drop_last() == bytes@.take(i as int));
        }
        out.push(digit_char(bytes[i] / 16));
        out.push(digit_char(bytes[i] % 16));
        i = i + 1;
    }
    proof {
        assert(bytes@.take(bytes@.len() as int) == bytes@);
    }
    out
}

/// Hexadecimal text has two characters for each byte.
pub proof fn lemma_hex_len(bytes: Seq<u8>)
    ensures
        hex(bytes).len() == 2 * bytes.len(),
    decreases bytes.len(),
{
    if bytes.len() > 0 {
        lemma_hex_len(bytes.drop_last());
    }
}

/// What decimal numerals look like: never empty, digits only.
pub proof fn lemma_decimal_shape(n: nat)
    ensures
        decimal(n).len() > 0,
        forall|i: int| 0 <= i < decimal(n).len() ==> '0' <= #[trigger] decimal(n)[i] <= '9',
    decreases n,
{
    if n >= 10 {
        lemma_decimal_shape(n / 10);
    }
}

/// Different numbers have different decimal numerals.
pub proof fn lemma_decimal_injective(m: nat, n: nat)
    requires
        decimal(m) == decimal(n),
    ensures
        m == n,
    decreases m,
{
    lemma_decimal_shape(m / 10);
    lemma_decimal_shape(n / 10);
    if m >= 10 && n >= 10 {
        let a = decimal(m / 10).push(digit((m % 10) as int));
        let b = decimal(n / 10).push(digit((n % 10) as int));
        assert(a == b);
        assert(a.drop_last() == decimal(m / 10));
        assert(b.drop_last() == decimal(n / 10));
        assert(a.last() == b.last());
        assert(a.last() == digit((m % 10) as int));
        assert(b.last() == digit((n % 10) as int));
        lemma_decimal_injective(m / 10, n / 10);
    } else if m < 10 && n < 10 {
        assert(decimal(m)[0] == digit(m as int));
        assert(decimal(n)[0] == digit(n as int));
    } else {
        assert(m < 10 ==> decimal(m).len() == 1);
        assert(n < 10 ==> decimal(n).len() == 1);
        assert(m >= 10 ==> decimal(m) == decimal(m / 10).push(digit((m % 10) as int)));
        assert(n >= 10 ==> decimal(n) == decimal(n / 10).push(digit((n % 10) as int)));
    }
}

/// What a digit stands for.
pub open spec fn digit_value(c: char) -> int {
    if '0' <= c <= '9' {
        c as int - '0' as int
    } else {
        c as int - 'a' as int + 10
    }
}

/// What a row of digits stands for: each is worth `base` times what it is worth one place
/// further on.
pub open spec fn numeral_value(s: Seq<char>, base: int) -> int
    decreases s.len(),
{
    if s.len() == 0 {
        0
    } else {
        numeral_value(s.drop_last(), base) * base + digit_value(s.last())
    }
}

/// The digits of a number stand for the number, are digits of the base and do not begin
/// with a zero, but for the number zero.
pub proof fn law_digits_denote(n: nat, base: nat, i: int)
    requires
        2 <= base <= 16,
    ensures
        numeral_value(digits(n, base), base as int) == n,
        digits(n, base).len() > 0,
        digits(n, base)[0] == '0' ==> n == 0 && digits(n, base).len() == 1,
        0 <= i < digits(n, base).len() ==> {
            let c = digits(n, base)[i];
            &&& 0 <= digit_value(c) < base
            &&& '0' <= c <= '9' || 'a' <= c <= 'f'
        },
    decreases n,
{
    let all = digits(n, base);
    if n < base {
        assert(all.drop_last() == Seq::<char>::empty());
        assert(numeral_value(all.drop_last(), base as int) == 0);
        assert(0 * (base as int) == 0) by (nonlinear_arith);
    } else {
        vstd::arithmetic::div_mod::lemma_div_decreases(n as int, base as int);
        vstd::arithmetic::div_mod::lemma_fundamental_div_mod(n as int, base as int);
        vstd::arithmetic::div_mod::lemma_mod_bound(n as int, base as int);
        assert(n / base >= 1) by (nonlinear_arith)
            requires
                n >= base,
                base >= 2,
        ;
        law_digits_denote(n / base, base, i);
        let front = digits(n / base, base);
        assert(all.drop_last() == front);
        assert(all.last() == digit((n % base) as int));
        assert((n / base) * base == base * (n / base)) by (nonlinear_arith);
        assert(all[0] == front[0]);
        if 0 <= i < front.len() {
            assert(all[i] == front[i]);
        }
    }
}

/// A byte is sixteen times what its first digit stands for, and what its second stands
/// for.
pub proof fn law_hex_denotes(bytes: Seq<u8>, i: int)
    requires
        0 <= i < bytes.len(),
    ensures
        hex(bytes).len() == 2 * bytes.len(),
        16 * digit_value(hex(bytes)[2 * i]) + digit_value(hex(bytes)[2 * i + 1]) == bytes[i],
        ({
            let c = hex(bytes)[2 * i];
            '0' <= c <= '9' || 'a' <= c <= 'f'
        }),
        ({
            let c = hex(bytes)[2 * i + 1];
            '0' <= c <= '9' || 'a' <= c <= 'f'
        }),
    decreases bytes.len(),
{
    lemma_hex_len(bytes);
    lemma_hex_len(bytes.drop_last());
    let front = hex(bytes.drop_last());
    if i < bytes.len() - 1 {
        law_hex_denotes(bytes.drop_last(), i);
        assert(hex(bytes)[2 * i] == front[2 * i]);
        assert(hex(bytes)[2 * i + 1] == front[2 * i + 1]);
    } else {
        let b = bytes.last() as int;
        assert(hex(bytes)[2 * i] == digit(b / 16));
        assert(hex(bytes)[2 * i + 1] == digit(b % 16));
    }
}

} // verus!
