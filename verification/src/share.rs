//! Exact proportional shares in machine integers.
//!
//! The refill of a limiter asks for `part * count / whole` and for the
//! remainder of that division, where the product may need more bits than
//! any machine integer has. The functions here reach both without ever
//! forming the product.

use vstd::prelude::*;
use vstd::arithmetic::div_mod::lemma_fundamental_div_mod_converse;

verus! {

/// A quotient and a remainder that together stand for `part * count` over
/// the divisor `whole`.
spec fn splits(quot: int, rem: int, part: int, count: int, whole: int) -> bool {
    0 <= rem < whole && quot * whole + rem == part * count
}

/// A quotient and a remainder that split a product are the quotient and the
/// remainder of its division.
proof fn lemma_splits_is_division(quot: int, rem: int, part: int, count: int, whole: int)
    requires
        splits(quot, rem, part, count, whole),
    ensures
        quot == (part * count) / whole,
        rem == (part * count) % whole,
{
    lemma_fundamental_div_mod_converse(part * count, whole, quot, rem);
}

/// Where the part is no more than the whole, the quotient of a split is no
/// more than the count.
proof fn lemma_splits_quotient_bound(quot: int, rem: int, part: int, count: int, whole: int)
    requires
        splits(quot, rem, part, count, whole),
        0 <= part <= whole,
        0 <= count,
    ensures
        0 <= quot <= count,
{
    assert(quot <= count) by (nonlinear_arith)
        requires
            quot * whole + rem == part * count,
            0 <= rem,
            0 <= part <= whole,
            0 <= count,
            0 < whole,
    {
        if quot > count {
            assert(quot * whole >= (count + 1) * whole);
            assert(part * count <= whole * count);
        }
    }
    assert(0 <= quot) by (nonlinear_arith)
        requires
            quot * whole + rem == part * count,
            rem < whole,
            0 <= part,
            0 <= count,
            0 < whole,
    {
        if quot < 0 {
            assert(quot * whole <= -whole);
            assert(part * count >= 0);
        }
    }
}

/// Splits `part * count` over `whole`: the quotient and the remainder of
/// the division, by doubling and adding along the binary digits of `count`.
fn split_product(part: u128, count: u64, whole: u128) -> (res: (u128, u128))
    requires
        part <= whole,
        0 < whole,
    ensures
        splits(res.0 as int, res.1 as int, part as int, count as int, whole as int),
        res.0 <= count,
    decreases count,
{
    if count == 0 {
        return (0, 0);
    }
    let half: u64 = count / 2;
    let (hq, hr) = split_product(part, half, whole);
    let ghost twice: int = 2 * half as int;
    let (dq, dr): (u128, u128) = if hr >= whole - hr {
        (2 * hq + 1, hr - (whole - hr))
    } else {
        (2 * hq, hr + hr)
    };
    proof {
        let carry: int = if hr >= whole - hr { 1 } else { 0 };
        assert(dq as int * whole as int + dr as int == part as int * twice) by (nonlinear_arith)
            requires
                hq as int * whole as int + hr as int == part as int * half as int,
                twice == 2 * half as int,
                dq as int == 2 * hq as int + carry,
                dr as int == 2 * hr as int - carry * whole as int,
        {
        }
    }
    if count % 2 == 0 {
        assert(twice == count as int);
        proof {
            lemma_splits_quotient_bound(dq as int, dr as int, part as int, count as int, whole as int);
        }
        (dq, dr)
    } else {
        assert(twice + 1 == count as int);
        let (q, r): (u128, u128) = if part == whole {
            (dq + 1, dr)
        } else if dr >= whole - part {
            (dq + 1, dr - (whole - part))
        } else {
            (dq, dr + part)
        };
        proof {
            let carry: int = if part == whole || dr >= whole - part { 1 } else { 0 };
            assert(q as int * whole as int + r as int == part as int * count as int)
                by (nonlinear_arith)
                requires
                    dq as int * whole as int + dr as int == part as int * twice,
                    twice + 1 == count as int,
                    q as int == dq as int + carry,
                    r as int == dr as int + part as int - carry * whole as int,
            {
            }
            lemma_splits_quotient_bound(q as int, r as int, part as int, count as int, whole as int);
        }
        (q, r)
    }
}

/// The share of `count` that falls to `part` out of `whole`: the quotient
/// `part * count / whole`, and the remainder of that division.
pub fn proportional_share(part: u128, count: u64, whole: u128) -> (res: (u128, u128))
    requires
        part <= whole,
        0 < whole,
    ensures
        res.0 == (part * count) / (whole as int),
        res.1 == (part * count) % (whole as int),
        res.0 <= count,
        res.1 < whole,
{
    let res = split_product(part, count, whole);
    proof {
        lemma_splits_is_division(res.0 as int, res.1 as int, part as int, count as int, whole as int);
    }
    res
}

} // verus!
