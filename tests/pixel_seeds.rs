use raytracer::sampling::{pixel_seed, SEED_MIX};

#[test]
fn first_pixel_keeps_the_render_seed() {
    assert_eq!(pixel_seed(0, 20, 0, 0), 0);
    assert_eq!(pixel_seed(42, 20, 0, 0), 42);
}

#[test]
fn seed_mixes_the_row_major_index() {
    assert_eq!(pixel_seed(5, 20, 1, 0), 0x9e37_79b9_7f4a_7c10);
    assert_eq!(pixel_seed(0, 20, 0, 1), 0x5c55_827d_f1d1_b1a4);
    assert_eq!(pixel_seed(0xdead_beef, 640, 7, 3), 0xf395_434d_f701_bcfc);
    assert_eq!(SEED_MIX, 0x9e37_79b9_7f4a_7c15);
}

#[test]
fn same_pixel_same_seed() {
    assert_eq!(pixel_seed(9, 20, 3, 4), pixel_seed(9, 20, 3, 4));
}

#[test]
fn pixels_of_small_image_have_distinct_seeds() {
    let mut seeds = Vec::new();
    for y in 0..10u32 {
        for x in 0..20u32 {
            seeds.push(pixel_seed(7, 20, x, y));
        }
    }
    seeds.sort_unstable();
    seeds.dedup();
    assert_eq!(seeds.len(), 200);
}

#[test]
fn largest_image_corner_does_not_overflow() {
    let w = u32::MAX;
    let index = u64::from(u32::MAX) * u64::from(w) + u64::from(w - 1);
    assert_eq!(pixel_seed(0, w, w - 1, u32::MAX), index.wrapping_mul(SEED_MIX));
}
