//! Numbers and sizes, written and read.

use vstd::prelude::*;

use crate::clean;
use crate::decimal;

verus! {

/// The character of a digit.
pub open spec fn digit_of(d: int) -> char {
    ('0' as int + d) as char
}

/// A number below ten is written as its digit, and any other as the number without its last digit, and
/// then that digit.
pub proof fn law_last_digit_comes_last(n: u64, m: u64, r: String, front: String)
    requires
        call_ensures(decimal::to_decimal, (n,), r),
        call_ensures(decimal::to_decimal, (m,), front),
        m == n / 10,
    ensures
        n < 10 ==> r@ == seq![digit_of(n as int)],
        n >= 10 ==> r@ == front@.push(digit_of(n as int % 10)),
{
    if n < 10 {
        assert(decimal::decimal(n as nat) =~= seq![decimal::digit(n as nat)]);
    }
}

proof fn lemma_decimal(n: nat)
    ensures
        decimal::decimal(n).len() > 0,
        decimal::all_digits(decimal::decimal(n)),
        decimal::digits_value(decimal::decimal(n)) == n,
    decreases n,
{
    let s = decimal::decimal(n);
    if n < 10 {
        assert(s.drop_last() =~= Seq::<char>::empty());
        assert(decimal::digits_value(s.drop_last()) == 0);
        assert(s.last() as u32 - '0' as u32 == n);
    } else {
        lemma_decimal(n / 10);
        let front = decimal::decimal(n / 10);
        assert(s.drop_last() =~= front);
        assert(s.last() == decimal::digit(n % 10));
        assert(s.last() as u32 - '0' as u32 == n % 10);
        assert forall|i: int| 0 <= i < s.len() implies '0' <= #[trigger] s[i] && s[i] <= '9' by {
            if i < front.len() {
                assert(s[i] == front[i]);
            }
        }
    }
}

/// A number that was written is read back, with a plus sign before it and without one.
pub proof fn law_written_number_is_read(
    n: u32,
    written: String,
    input: &str,
    r: Option<u32>,
)
    requires
        call_ensures(decimal::to_decimal, (n as u64,), written),
        call_ensures(decimal::parse_u32, (input,), r),
        input@ == written@ || input@ == seq!['+'] + written@,
    ensures
        r == Some(n),
{
    lemma_decimal(n as nat);
    let s = written@;
    assert('0' <= s[0] && s[0] <= '9');
    if input@ != s {
        assert(input@.skip(1) =~= s);
    }
}

/// Reading goes digit by digit: one digit more makes ten times the number and the digit, unless that is
/// too large; what is no number stays none, and anything else than a digit makes it none.
pub proof fn law_reading_goes_digit_by_digit(
    shorter: &str,
    longer: &str,
    c: char,
    a: Option<u32>,
    b: Option<u32>,
)
    requires
        call_ensures(decimal::parse_u32, (shorter,), a),
        call_ensures(decimal::parse_u32, (longer,), b),
        longer@ == shorter@.push(c),
        shorter@.len() > 0,
    ensures
        !('0' <= c && c <= '9') ==> b is None,
        '0' <= c && c <= '9' && shorter@ == seq!['+'] ==> b == Some((c as u32 - '0' as u32) as u32),
        '0' <= c && c <= '9' && shorter@ != seq!['+'] ==> match a {
            None => b is None,
            Some(n) => if n * 10 + (c as u32 - '0' as u32) <= u32::MAX {
                b == Some((n * 10 + (c as u32 - '0' as u32)) as u32)
            } else {
                b is None
            },
        },
{
    let s = shorter@;
    let l = longer@;
    let plus = s[0] == '+';
    assert(l[0] == s[0]);
    let x = if plus {
        s.skip(1)
    } else {
        s
    };
    let y = if plus {
        l.skip(1)
    } else {
        l
    };
    assert(y =~= x.push(c));
    assert(y.drop_last() =~= x);
    assert(y[x.len() as int] == c);
    if decimal::all_digits(y) {
        assert('0' <= y[x.len() as int] && y[x.len() as int] <= '9');
        assert forall|i: int| 0 <= i < x.len() implies '0' <= #[trigger] x[i] && x[i] <= '9' by {
            assert('0' <= y[i] && y[i] <= '9');
        }
    }
    if decimal::all_digits(x) && '0' <= c && c <= '9' {
        assert forall|i: int| 0 <= i < y.len() implies '0' <= #[trigger] y[i] && y[i] <= '9' by {
            if i < x.len() {
                assert(x[i] == y[i]);
                assert('0' <= x[i] && x[i] <= '9');
            }
        }
    }
    if s == seq!['+'] {
        assert(x =~= Seq::<char>::empty());
    } else if plus && x.len() == 0 {
        assert(s =~= seq!['+']);
    }
}

/// A text without characters is no number, a sign alone is none, and a digit alone is its number.
pub proof fn law_short_texts_are_read(s: &str, r: Option<u32>)
    requires
        call_ensures(decimal::parse_u32, (s,), r),
        s@.len() <= 1,
    ensures
        r is Some <==> s@.len() == 1 && '0' <= s@[0] && s@[0] <= '9',
        r matches Some(n) ==> n == s@[0] as u32 - '0' as u32,
{
    if s@.len() == 1 {
        assert(s@.drop_last() =~= Seq::<char>::empty());
        assert(decimal::digits_value(s@.drop_last()) == 0);
        if '0' <= s@[0] && s@[0] <= '9' {
            assert(decimal::all_digits(s@));
        } else if decimal::all_digits(s@) {
            assert('0' <= s@[0] && s@[0] <= '9');
        }
    }
}

// ---- Sizes ----------------------------------------------------------------------------------------

/// The unit of this name has this many bytes.
pub open spec fn is_unit(u: nat, name: Seq<char>) -> bool {
    ||| u == 1024 && name == "KiB"@
    ||| u == 1024 * 1024 && name == "MiB"@
    ||| u == 1024 * 1024 * 1024 && name == "GiB"@
    ||| u == 1024 * 1024 * 1024 * 1024 && name == "TiB"@
}

/// So many tenths of a unit are as near to the bytes as any other number of tenths, and the number is
/// even if two are as near.
pub open spec fn nearest(tenths: nat, bytes: nat, u: nat) -> bool {
    let off = 10 * bytes - tenths * u;
    &&& -u <= 2 * off <= u
    &&& (2 * off == u || 2 * off == -u) ==> tenths % 2 == 0
}

/// A size is written with this number of tenths of a unit.
pub open spec fn in_tenths(text: Seq<char>, tenths: nat, name: Seq<char>) -> bool {
    text == decimal::decimal(tenths / 10) + seq!['.', digit_of(tenths as int % 10), ' '] + name
}

proof fn lemma_nearest(n: nat, d: nat)
    requires
        d > 0,
    ensures
        ({
            let q = clean::div_round(n, d);
            let off = n - q * d;
            &&& -d <= 2 * off <= d
            &&& (2 * off == d || 2 * off == -d) ==> q % 2 == 0
        }),
{
    let q = n / d;
    vstd::arithmetic::div_mod::lemma_fundamental_div_mod(n as int, d as int);
    assert(d * q == q * d) by (nonlinear_arith);
    assert((q + 1) * d == q * d + d) by (nonlinear_arith);
}

/// Fewer bytes than make a kibibyte are written as they are. More bytes, as long as they have no more
/// than 53 bits, are written in the largest unit that they fill, up to tebibytes, with the nearest
/// tenth.
pub proof fn law_size_is_the_nearest_tenth(bytes: u64, r: String)
    requires
        call_ensures(clean::human_size, (bytes,), r),
        bytes < 0x20_0000_0000_0000,
    ensures
        bytes < 1024 ==> r@ == decimal::decimal(bytes as nat) + " B"@,
        bytes >= 1024 ==> exists|u: nat, name: Seq<char>, tenths: nat| #[trigger]
            is_unit(u, name) && u <= bytes && (bytes < 1024 * u || name == "TiB"@) && nearest(
                tenths,
                bytes as nat,
                u,
            ) && #[trigger] in_tenths(r@, tenths, name),
{
    let b = bytes as nat;
    assert(clean::extra_bits(b) == 0);
    let one = clean::two_to(0);
    assert(one == 1);
    assert(b / one == b && b % one == 0) by (nonlinear_arith)
        requires
            one == 1,
    ;
    assert(clean::div_round(b, one) == b);
    assert(clean::to_53_bits(b) == b) by (nonlinear_arith)
        requires
            clean::to_53_bits(b) == b * one,
            one == 1,
    ;
    let unit = clean::unit_for(b);
    if b >= 1024 {
        let u = clean::unit_bytes(unit);
        let name = clean::unit_name(unit);
        let tenths = clean::div_round(10 * b, u);
        lemma_nearest(10 * b, u);
        assert(is_unit(u, name));
        let last = tenths % 10;
        assert(decimal::decimal(last) =~= seq![digit_of(last as int)]);
        assert(seq!['.', digit_of(last as int), ' '] =~= seq!['.'] + seq![digit_of(last as int)]
            + seq![' ']);
        assert(r@ =~= decimal::decimal(tenths / 10) + seq!['.', digit_of(last as int), ' '] + name);
        assert(in_tenths(r@, tenths, name));
    }
}

/// A power of two that makes a number of this many bytes one of 53 bits.
pub open spec fn is_step(d: nat, bytes: nat) -> bool {
    &&& d == 2 || d == 4 || d == 8 || d == 16 || d == 32 || d == 64 || d == 128 || d == 256 || d == 512
        || d == 1024 || d == 2048
    &&& 0x10_0000_0000_0000 * d <= bytes < 0x20_0000_0000_0000 * d
}

/// So many steps are as near to the bytes as any other number of them, and the number is even if two are
/// as near.
pub open spec fn nearest_steps(q: nat, bytes: nat, d: nat) -> bool {
    let off = bytes - q * d;
    &&& -d <= 2 * off <= d
    &&& (2 * off == d || 2 * off == -d) ==> q % 2 == 0
}

/// A size of more than 53 bits is first rounded to 53 bits, and then written in tebibytes, with the
/// nearest tenth.
pub proof fn law_large_size_has_53_bits(bytes: u64, r: String)
    requires
        call_ensures(clean::human_size, (bytes,), r),
        bytes >= 0x20_0000_0000_0000,
    ensures
        exists|d: nat, q: nat, tenths: nat|
            #![trigger is_step(d, bytes as nat), nearest_steps(q, bytes as nat, d), in_tenths(r@, tenths, "TiB"@)]
            is_step(d, bytes as nat) && nearest_steps(q, bytes as nat, d) && nearest(
                tenths,
                q * d,
                0x100_0000_0000,
            ) && in_tenths(r@, tenths, "TiB"@),
{
    let b = bytes as nat;
    let k = clean::extra_bits(b);
    let d = clean::two_to(k);
    lemma_extra(b);
    let q = clean::div_round(b, d);
    lemma_nearest(b, d);
    let size = clean::to_53_bits(b);
    assert(size == q * d);
    let u = clean::unit_bytes(4);
    assert(clean::unit_for(size) == 4);
    let tenths = clean::div_round(10 * size, u);
    lemma_nearest(10 * size, u);
    let last = tenths % 10;
    assert(decimal::decimal(last) =~= seq![digit_of(last as int)]);
    assert(r@ =~= decimal::decimal(tenths / 10) + seq!['.', digit_of(last as int), ' '] + "TiB"@);
    assert(is_step(d, b) && nearest_steps(q, b, d) && in_tenths(r@, tenths, "TiB"@));
}

/// The step of a number of more than 53 and no more than 64 bits.
proof fn lemma_extra(b: nat)
    requires
        0x20_0000_0000_0000 <= b <= u64::MAX,
    ensures
        is_step(clean::two_to(clean::extra_bits(b)), b),
{
    reveal_with_fuel(clean::extra_bits, 13);
    reveal_with_fuel(clean::two_to, 13);
}

} // verus!
