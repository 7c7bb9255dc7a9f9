//! The size of what was cleaned, for people to read.

use vstd::prelude::*;

use crate::decimal;

verus! {

/// Two to the power of `k`.
pub open spec fn two_to(k: nat) -> nat
    decreases k,
{
    if k == 0 {
        1
    } else {
        2 * two_to((k - 1) as nat)
    }
}

/// The quotient, rounded to the nearest number and to the even one if two are as near.
pub open spec fn div_round(n: nat, d: nat) -> nat {
    let q = n / d;
    let rest = n % d;
    if 2 * rest > d || (2 * rest == d && q % 2 == 1) {
        q + 1
    } else {
        q
    }
}

/// How many bits a number has beyond the first 53.
pub open spec fn extra_bits(n: nat) -> nat
    decreases n,
{
    if n < 9_007_199_254_740_992 {
        0
    } else {
        1 + extra_bits(n / 2)
    }
}

/// A number with its first 53 bits, rounded to the nearest one of that kind and to the even one if
/// two are as near: the precision that sizes are computed with.
pub open spec fn to_53_bits(n: nat) -> nat {
    div_round(n, two_to(extra_bits(n))) * two_to(extra_bits(n))
}

/// The bytes of a unit: 1, and 1024 of the unit before.
pub open spec fn unit_bytes(unit: nat) -> nat {
    if unit == 0 {
        1
    } else if unit == 1 {
        1024
    } else if unit == 2 {
        1_048_576
    } else if unit == 3 {
        1_073_741_824
    } else {
        1_099_511_627_776
    }
}

/// The unit for a size: the largest, up to tebibytes, that it holds at least one of.
pub open spec fn unit_for(size: nat) -> nat {
    if size < unit_bytes(1) {
        0
    } else if size < unit_bytes(2) {
        1
    } else if size < unit_bytes(3) {
        2
    } else if size < unit_bytes(4) {
        3
    } else {
        4
    }
}

/// The name of a unit.
pub open spec fn unit_name(unit: nat) -> Seq<char> {
    if unit == 0 {
        "B"@
    } else if unit == 1 {
        "KiB"@
    } else if unit == 2 {
        "MiB"@
    } else if unit == 3 {
        "GiB"@
    } else {
        "TiB"@
    }
}

/// A size for people to read: bytes as they are, and larger units with one decimal, which is
/// rounded to the nearest and to the even one if two are as near.
pub open spec fn size_text(bytes: nat) -> Seq<char> {
    let size = to_53_bits(bytes);
    let unit = unit_for(size);
    let tenths = div_round(10 * size, unit_bytes(unit));
    if unit == 0 {
        decimal::decimal(bytes) + " B"@
    } else {
        decimal::decimal(tenths / 10) + seq!['.'] + decimal::decimal(tenths % 10) + seq![' ']
            + unit_name(unit)
    }
}

/// The quotient, rounded to the nearest number and to the even one if two are as near.
fn round_div(n: u128, d: u128) -> (r: u128)
    requires
        0 < d <= 0x1_0000_0000_0000_0000,
        n <= 0x1_0000_0000_0000_0000_0000,
    ensures
        r == div_round(n as nat, d as nat),
{
    let q = n / d;
    let rest = n % d;
    proof {
        assert(q <= n) by (nonlinear_arith)
            requires
                q == n / d,
                d > 0,
        ;
    }
    if 2 * rest > d || (2 * rest == d && q % 2 == 1) {
        q + 1
    } else {
        q
    }
}

/// How far rounding is from the number.
proof fn lemma_div_round(n: nat, d: nat)
    requires
        d > 0,
    ensures
        div_round(n, d) * d <= n + d,
        div_round(n, d) <= n + 1,
{
    let q = n / d;
    vstd::arithmetic::div_mod::lemma_fundamental_div_mod(n as int, d as int);
    assert(d * q == q * d) by (nonlinear_arith);
    assert((q + 1) * d == q * d + d) by (nonlinear_arith);
    assert(q <= n) by (nonlinear_arith)
        requires
            q * d <= n,
            d > 0,
    ;
}

/// Format a number of bytes as a short text, such as `12.3 MiB`.
pub fn human_size(bytes: u64) -> (r: String)
    ensures
        r@ == size_text(bytes as nat),
{
    let mut scale: u128 = 1;
    let mut rest: u64 = bytes;
    let mut bits: u32 = 0;
    while rest >= 9_007_199_254_740_992
        invariant
            bits <= 11,
            scale == two_to(bits as nat),
            scale <= 2048,
            rest as int * scale <= bytes as int,
            bytes as int <= u64::MAX,
            extra_bits(bytes as nat) == bits + extra_bits(rest as nat),
        decreases rest,
    {
        proof {
            let half: int = rest as int / 2;
            assert(half * 2 <= rest);
            assert(half * (2 * scale) <= rest * scale) by (nonlinear_arith)
                requires
                    half * 2 <= rest,
                    scale >= 0,
            ;
            assert(scale * 9_007_199_254_740_992 <= rest * scale) by (nonlinear_arith)
                requires
                    rest >= 9_007_199_254_740_992,
                    scale >= 0,
            ;
            lemma_two_to_bound(bits as nat, scale as nat);
        }
        rest = rest / 2;
        scale = scale * 2;
        bits = bits + 1;
    }
    proof {
        lemma_two_to_positive(bits as nat);
        lemma_div_round(bytes as nat, scale as nat);
        assert(two_to(extra_bits(bytes as nat)) == scale);
    }
    let q = round_div(bytes as u128, scale);
    proof {
        assert(q * scale <= bytes + scale);
        assert(q * scale == div_round(bytes as nat, scale as nat) * scale);
        assert(0 <= q * scale) by (nonlinear_arith)
            requires
                q >= 0,
                scale >= 0,
        ;
    }
    let size = q * scale;
    assert(size == to_53_bits(bytes as nat));
    if size < 1024 {
        let mut s = decimal::to_decimal(bytes);
        s.append(" B");
        return s;
    }
    let (unit, name): (u128, &str) = if size < 1_048_576 {
        (1024, "KiB")
    } else if size < 1_073_741_824 {
        (1_048_576, "MiB")
    } else if size < 1_099_511_627_776 {
        (1_073_741_824, "GiB")
    } else {
        (1_099_511_627_776, "TiB")
    };
    let tenths = round_div(10 * size, unit);
    proof {
        lemma_div_round((10 * size) as nat, unit as nat);
        assert(tenths * unit >= tenths) by (nonlinear_arith)
            requires
                unit >= 1,
                tenths >= 0,
        ;
        assert(tenths * 1024 <= tenths * unit) by (nonlinear_arith)
            requires
                unit >= 1024,
                tenths >= 0,
        ;
    }
    let mut s = decimal::to_decimal((tenths / 10) as u64);
    s.push('.');
    s.append(decimal::to_decimal((tenths % 10) as u64).as_str());
    s.push(' ');
    s.append(name);
    assert(s@ =~= size_text(bytes as nat));
    s
}

proof fn lemma_two_to_positive(k: nat)
    ensures
        two_to(k) > 0,
    decreases k,
{
    if k > 0 {
        lemma_two_to_positive((k - 1) as nat);
    }
}

/// A scale that still fits is not the last one.
proof fn lemma_two_to_bound(k: nat, scale: nat)
    requires
        scale == two_to(k),
        scale * 9_007_199_254_740_992 <= u64::MAX,
    ensures
        scale <= 1024,
        k <= 10,
{
    if k >= 11 {
        lemma_two_to_grows(11, k);
        assert(two_to(11) == 2048) by {
            reveal_with_fuel(two_to, 12);
        }
    }
    lemma_two_to_grows(k, 10);
    assert(two_to(10) == 1024) by {
        reveal_with_fuel(two_to, 11);
    }
}

proof fn lemma_two_to_grows(j: nat, k: nat)
    ensures
        j <= k ==> two_to(j) <= two_to(k),
    decreases k,
{
    if j < k {
        lemma_two_to_grows(j, (k - 1) as nat);
        lemma_two_to_positive((k - 1) as nat);
    }
}

/// A whole number of units, fewer than make the next one, is shown as that number.
pub proof fn law_whole_units(count: nat, unit: nat)
    requires
        1 <= count < 1024,
        1 <= unit <= 4,
    ensures
        size_text(count * unit_bytes(unit)) == decimal::decimal(count) + seq!['.', '0', ' ']
            + unit_name(unit),
{
    let bytes = count * unit_bytes(unit);
    let u = unit_bytes(unit);
    assert(u <= bytes < 1024 * u) by (nonlinear_arith)
        requires
            1 <= count < 1024,
            bytes == count * u,
            u > 0,
    ;
    assert(extra_bits(bytes) == 0);
    assert(two_to(0) == 1);
    assert(to_53_bits(bytes) == bytes);
    assert(unit_for(bytes) == unit);
    assert(10 * bytes == (10 * count) * u) by (nonlinear_arith)
        requires
            bytes == count * u,
    ;
    vstd::arithmetic::div_mod::lemma_fundamental_div_mod_converse(
        (10 * bytes) as int,
        u as int,
        (10 * count) as int,
        0,
    );
    assert(div_round(10 * bytes, u) == 10 * count);
    assert(decimal::decimal(0) =~= seq!['0']);
    assert(size_text(bytes) =~= decimal::decimal(count) + seq!['.', '0', ' '] + unit_name(unit));
}

} // verus!
