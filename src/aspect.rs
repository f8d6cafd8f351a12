//! Human-readable aspect ratio of an image size, such as `1.7778` for
//! 1200x675 or `2` for 800x400.
use vstd::prelude::*;

verus! {

/// The ASCII character of a decimal digit.
pub open spec fn digit_char(d: nat) -> char {
    if d == 0 {
        '0'
    } else if d == 1 {
        '1'
    } else if d == 2 {
        '2'
    } else if d == 3 {
        '3'
    } else if d == 4 {
        '4'
    } else if d == 5 {
        '5'
    } else if d == 6 {
        '6'
    } else if d == 7 {
        '7'
    } else if d == 8 {
        '8'
    } else {
        '9'
    }
}

/// Decimal notation of `n`, without leading zeros.
pub open spec fn decimal(n: nat) -> Seq<char>
    decreases n,
{
    if n < 10 {
        seq![digit_char(n)]
    } else {
        decimal(n / 10).push(digit_char(n % 10))
    }
}

/// The four digits of `f` (below 10000), zero-padded on the left.
pub open spec fn four_digits(f: nat) -> Seq<char> {
    seq![
        digit_char(f / 1000),
        digit_char((f / 100) % 10),
        digit_char((f / 10) % 10),
        digit_char(f % 10),
    ]
}

/// `s` without its trailing `'0'` characters.
pub open spec fn trim_zeros(s: Seq<char>) -> Seq<char>
    decreases s.len(),
{
    if s.len() > 0 && s.last() == '0' {
        trim_zeros(s.drop_last())
    } else {
        s
    }
}

/// `w` times the power of two that brings `w / h` into `[2^52, 2^53)`, for
/// a positive quotient below `2^53`: the integer part of `w' / h` is then
/// the 53-bit significand of `w / h`, and its remainder the part a double
/// cannot hold.
pub open spec fn normalized(w: nat, h: nat) -> nat
    decreases (if w > 0 && w < h * 0x10_0000_0000_0000 {
        (h * 0x10_0000_0000_0000 - w) as nat
    } else {
        0
    }),
{
    if w > 0 && w < h * 0x10_0000_0000_0000 {
        normalized(2 * w, h)
    } else {
        w
    }
}

/// The double nearest to `w / h` (ties to an even significand) lies above
/// `w / h`.
pub open spec fn nearest_double_above(w: nat, h: nat) -> bool {
    let a = normalized(w, h);
    let r = a % h;
    2 * r > h || (2 * r == h && (a / h) % 2 == 1)
}

/// `w / h` is a double: its significand needs no more than 53 bits.
pub open spec fn is_double(w: nat, h: nat) -> bool {
    normalized(w, h) % h == 0
}

/// `width / height` in units of 1/10000, rounded to nearest as the double
/// nearest to `width / height` is: a quotient off a four-decimal tie rounds
/// to the nearest unit, and one on a tie rounds to the side where its
/// nearest double lies, or to the even unit when it is a double itself.
pub open spec fn scaled_ratio(width: nat, height: nat) -> nat
    recommends
        height > 0,
{
    let n = width * 10000;
    let q = n / height;
    let r = n % height;
    if 2 * r > height {
        q + 1
    } else if 2 * r < height {
        q
    } else if is_double(width, height) {
        q + q % 2
    } else if nearest_double_above(width, height) {
        q + 1
    } else {
        q
    }
}

/// The text of `width / height` as a double with four decimals, with
/// trailing zeros and then a bare decimal point removed; `inf` when only the
/// height is zero and `NaN` when both are.
pub open spec fn aspect_text(width: nat, height: nat) -> Seq<char> {
    if height == 0 {
        if width == 0 {
            seq!['N', 'a', 'N']
        } else {
            seq!['i', 'n', 'f']
        }
    } else {
        let q = scaled_ratio(width, height);
        let frac = trim_zeros(four_digits(q % 10000));
        if frac.len() == 0 {
            decimal(q / 10000)
        } else {
            decimal(q / 10000) + seq!['.'] + frac
        }
    }
}

fn digit_str(d: u64) -> (r: &'static str)
    requires
        d < 10,
    ensures
        r@ == seq![digit_char(d as nat)],
{
    if d == 0 {
        proof { reveal_strlit("0"); }
        "0"
    } else if d == 1 {
        proof { reveal_strlit("1"); }
        "1"
    } else if d == 2 {
        proof { reveal_strlit("2"); }
        "2"
    } else if d == 3 {
        proof { reveal_strlit("3"); }
        "3"
    } else if d == 4 {
        proof { reveal_strlit("4"); }
        "4"
    } else if d == 5 {
        proof { reveal_strlit("5"); }
        "5"
    } else if d == 6 {
        proof { reveal_strlit("6"); }
        "6"
    } else if d == 7 {
        proof { reveal_strlit("7"); }
        "7"
    } else if d == 8 {
        proof { reveal_strlit("8"); }
        "8"
    } else {
        proof { reveal_strlit("9"); }
        "9"
    }
}

proof fn lemma_digits_of_four(f: nat)
    requires
        f < 10000,
    ensures
        f / 1000 < 10,
        f == 0 <==> (f / 1000 == 0 && f % 1000 == 0),
        f % 1000 == 0 <==> ((f / 100) % 10 == 0 && f % 100 == 0),
        f % 100 == 0 <==> ((f / 10) % 10 == 0 && f % 10 == 0),
{
    let a = f / 1000;
    let b = (f / 100) % 10;
    let c = (f / 10) % 10;
    let e = f % 10;
    assert(f == a * 1000 + b * 100 + c * 10 + e && a < 10) by (nonlinear_arith)
        requires
            a == f / 1000,
            b == (f / 100) % 10,
            c == (f / 10) % 10,
            e == f % 10,
            f < 10000,
    ;
    assert(f % 1000 == b * 100 + c * 10 + e) by (nonlinear_arith)
        requires
            f == a * 1000 + b * 100 + c * 10 + e,
            b < 10,
            c < 10,
            e < 10,
    ;
    assert(f % 100 == c * 10 + e) by (nonlinear_arith)
        requires
            f == a * 1000 + b * 100 + c * 10 + e,
            c < 10,
            e < 10,
    ;
}

/// `normalized(w, h)`, computed by doubling.
fn normalize(w: u32, h: u32) -> (a: u128)
    requires
        w > 0,
        h > 0,
    ensures
        a == normalized(w as nat, h as nat),
        a < h as nat * 0x20_0000_0000_0000,
{
    let hh = h as u128;
    let mut a = w as u128;
    while a < hh * 0x10_0000_0000_0000
        invariant
            hh == h as u128,
            h > 0,
            0 < a < hh * 0x20_0000_0000_0000,
            normalized(a as nat, h as nat) == normalized(w as nat, h as nat),
        decreases hh * 0x20_0000_0000_0000 - a,
    {
        a = a * 2;
    }
    a
}

/// Appends the decimal notation of `n` to `s`.
fn push_decimal(s: &mut String, n: u64)
    ensures
        final(s)@ == old(s)@ + decimal(n as nat),
    decreases n,
{
    if n >= 10 {
        push_decimal(s, n / 10);
    }
    s.append(digit_str(n % 10));
    assert(s@ =~= old(s)@ + decimal(n as nat));
}

/// Formats `width / height`, as the double nearest to it, with four
/// decimals and removes the trailing zeros, then a trailing decimal point:
/// 1200x675 gives `1.7778`, 800x400 gives `2`, 1x20000 gives `0.0001`.
pub fn readable_aspect_ratio(width: u32, height: u32) -> (r: String)
    ensures
        r@ == aspect_text(width as nat, height as nat),
{
    if height == 0 {
        if width == 0 {
            proof { reveal_strlit("NaN"); }
            return String::from_str("NaN");
        } else {
            proof { reveal_strlit("inf"); }
            return String::from_str("inf");
        }
    }
    let n: u64 = width as u64 * 10000;
    let d: u64 = height as u64;
    let q0: u64 = n / d;
    let rem: u64 = n % d;
    let q: u64 = if 2 * rem > d {
        q0 + 1
    } else if 2 * rem < d {
        q0
    } else {
        assert(width > 0) by {
            if width == 0 {
                assert(rem == 0) by (nonlinear_arith)
                    requires
                        n == 0,
                        rem == n % d,
                        d > 0,
                ;
            }
        }
        let a = normalize(width, height);
        let hh = height as u128;
        if a % hh == 0 {
            q0 + q0 % 2
        } else if 2 * (a % hh) > hh || (2 * (a % hh) == hh && (a / hh) % 2 == 1) {
            q0 + 1
        } else {
            q0
        }
    };
    assert(q == scaled_ratio(width as nat, height as nat));
    let ip: u64 = q / 10000;
    let f: u64 = q % 10000;
    let mut s = String::new();
    push_decimal(&mut s, ip);
    proof {
        lemma_digits_of_four(f as nat);
        reveal_with_fuel(trim_zeros, 5);
    }
    if f != 0 {
        proof { reveal_strlit("."); }
        s.append(".");
        s.append(digit_str(f / 1000));
        if f % 1000 != 0 {
            s.append(digit_str((f / 100) % 10));
            if f % 100 != 0 {
                s.append(digit_str((f / 10) % 10));
                if f % 10 != 0 {
                    s.append(digit_str(f % 10));
                }
            }
        }
    }
    assert(s@ =~= aspect_text(width as nat, height as nat));
    s
}

} // verus!
