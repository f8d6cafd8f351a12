//! Seeds of the per-pixel random generators. Every pixel draws its jitter,
//! lens and scatter samples from a generator of its own, seeded from the
//! render's seed and the pixel's position: a seed fixes the whole image, and
//! no generator is shared between pixels rendered in parallel.
use vstd::arithmetic::div_mod::{lemma_mod_multiples_vanish, lemma_mul_mod_noop_left, lemma_small_mod};
use vstd::arithmetic::mul::lemma_mul_inequality;
use vstd::prelude::*;

verus! {

/// Odd multiplier that spreads consecutive pixel indices over the seed space.
pub const SEED_MIX: u64 = 0x9e37_79b9_7f4a_7c15;

/// The inverse of `SEED_MIX` modulo 2^64.
const SEED_MIX_INVERSE: u64 = 0xf1de_83e1_9937_733d;

/// Position of pixel `(x, y)` in row-major order in an image `width` wide.
pub open spec fn spec_pixel_index(width: u32, x: u32, y: u32) -> nat {
    y as nat * width as nat + x as nat
}

/// `i * SEED_MIX`, wrapped to 64 bits.
pub open spec fn mix(i: u64) -> u64 {
    ((i as nat * SEED_MIX as nat) % 0x1_0000_0000_0000_0000) as u64
}

/// The seed of pixel `(x, y)`'s generator.
pub open spec fn spec_pixel_seed(seed: u64, width: u32, x: u32, y: u32) -> u64 {
    seed ^ mix(spec_pixel_index(width, x, y) as u64)
}

/// The seed of the generator of pixel `(x, y)` in an image `width` wide:
/// the render's `seed` xor the wrapped product of the pixel's row-major
/// index and `SEED_MIX`.
pub fn pixel_seed(seed: u64, width: u32, x: u32, y: u32) -> (r: u64)
    requires
        x < width,
    ensures
        r == spec_pixel_seed(seed, width, x, y),
{
    assert(y as nat * width as nat + x as nat <= 0xffff_ffff * 0xffff_ffff + 0xffff_ffff)
        by (nonlinear_arith)
        requires
            x < width,
            width <= 0xffff_ffff,
            y <= 0xffff_ffff,
    ;
    let index: u64 = y as u64 * width as u64 + x as u64;
    seed ^ index.wrapping_mul(SEED_MIX)
}

proof fn lemma_mix_injective(a: u64, b: u64)
    requires
        mix(a) == mix(b),
    ensures
        a == b,
{
    let m: int = 0x1_0000_0000_0000_0000;
    let k = SEED_MIX as int;
    let k_inv = SEED_MIX_INVERSE as int;
    assert(k * k_inv == m * 10771413168148108919 + 1);
    assert forall|i: u64| (mix(i) as int * k_inv) % m == i as int by {
        let p = i as int * k;
        lemma_mul_mod_noop_left(p, k_inv, m);
        assert(p * k_inv == i as int * (k * k_inv)) by (nonlinear_arith)
            requires
                p == i as int * k,
        ;
        assert(i as int * (k * k_inv) == m * (i as int * 10771413168148108919) + i as int)
            by (nonlinear_arith)
            requires
                k * k_inv == m * 10771413168148108919 + 1,
        ;
        lemma_mod_multiples_vanish(i as int * 10771413168148108919, i as int, m);
        lemma_small_mod(i as nat, m as nat);
    }
    assert((mix(a) as int * k_inv) % m == a as int);
    assert((mix(b) as int * k_inv) % m == b as int);
}

proof fn lemma_pixel_index_injective(width: u32, x1: u32, y1: u32, x2: u32, y2: u32)
    requires
        x1 < width,
        x2 < width,
        x1 != x2 || y1 != y2,
    ensures
        spec_pixel_index(width, x1, y1) != spec_pixel_index(width, x2, y2),
{
    if y1 < y2 {
        lemma_mul_inequality(y1 as int + 1, y2 as int, width as int);
        assert((y1 as int + 1) * width as int == y1 as int * width as int + width as int)
            by (nonlinear_arith);
    } else if y2 < y1 {
        lemma_mul_inequality(y2 as int + 1, y1 as int, width as int);
        assert((y2 as int + 1) * width as int == y2 as int * width as int + width as int)
            by (nonlinear_arith);
    }
}

/// Two different pixels of an image get generators with different seeds.
pub proof fn lemma_distinct_pixels_distinct_seeds(
    seed: u64,
    width: u32,
    x1: u32,
    y1: u32,
    x2: u32,
    y2: u32,
)
    requires
        x1 < width,
        x2 < width,
        x1 != x2 || y1 != y2,
    ensures
        spec_pixel_seed(seed, width, x1, y1) != spec_pixel_seed(seed, width, x2, y2),
{
    let i1 = spec_pixel_index(width, x1, y1);
    let i2 = spec_pixel_index(width, x2, y2);
    lemma_pixel_index_injective(width, x1, y1, x2, y2);
    assert(i1 <= 0xffff_ffff * 0xffff_ffff + 0xffff_ffff && i2 <= 0xffff_ffff * 0xffff_ffff
        + 0xffff_ffff) by (nonlinear_arith)
        requires
            i1 == y1 as nat * width as nat + x1 as nat,
            i2 == y2 as nat * width as nat + x2 as nat,
            x1 < width,
            x2 < width,
            width <= 0xffff_ffff,
            y1 <= 0xffff_ffff,
            y2 <= 0xffff_ffff,
    ;
    let m1 = mix(i1 as u64);
    let m2 = mix(i2 as u64);
    if m1 == m2 {
        lemma_mix_injective(i1 as u64, i2 as u64);
    }
    assert(m1 != m2 ==> seed ^ m1 != seed ^ m2) by (bit_vector);
}

} // verus!
