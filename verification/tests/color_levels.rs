use raytracer::color::{channel, write_color, BRIGHTEST_BITS};
use raytracer::scalar::Scalar;
use raytracer::vec::Vec3;

fn sc(x: f64) -> Scalar {
    Scalar::from_bits(x.to_bits())
}

fn by_hardware(x: f64) -> u64 {
    (256.0 * x.clamp(0.0, 0.999)) as u64
}

#[test]
fn brightest_is_the_pattern_it_names() {
    assert_eq!(BRIGHTEST_BITS, 0.999f64.to_bits());
}

#[test]
fn levels_of_plain_shades() {
    assert_eq!(channel(sc(0.0)), 0);
    assert_eq!(channel(sc(0.25)), 64);
    assert_eq!(channel(sc(0.5)), 128);
    assert_eq!(channel(sc(0.75)), 192);
    assert_eq!(channel(sc(0.999)), 255);
    assert_eq!(channel(sc(0.7)), 179);
}

#[test]
fn levels_at_the_steps() {
    assert_eq!(channel(sc(1.0 / 256.0)), 1);
    assert_eq!(channel(sc(0.00390624999999999)), 0);
    assert_eq!(channel(sc(255.0 / 256.0)), 255);
    assert_eq!(channel(sc(254.99999999999 / 256.0)), 254);
    assert_eq!(channel(sc(2.0 / 256.0)), 2);
}

#[test]
fn shades_out_of_range_are_clamped() {
    assert_eq!(channel(sc(1.0)), 255);
    assert_eq!(channel(sc(2.0)), 255);
    assert_eq!(channel(sc(1e300)), 255);
    assert_eq!(channel(sc(f64::INFINITY)), 255);
    assert_eq!(channel(sc(-0.5)), 0);
    assert_eq!(channel(sc(-1e300)), 0);
    assert_eq!(channel(sc(f64::NEG_INFINITY)), 0);
}

#[test]
fn odd_shades_have_level_zero() {
    assert_eq!(channel(sc(f64::NAN)), 0);
    assert_eq!(channel(sc(-f64::NAN)), 0);
    assert_eq!(channel(sc(-0.0)), 0);
    assert_eq!(channel(sc(5e-324)), 0);
    assert_eq!(channel(sc(f64::MIN_POSITIVE)), 0);
    assert_eq!(channel(sc(1e-20)), 0);
    assert_eq!(channel(sc(1e-19)), 0);
}

#[test]
fn channel_agrees_with_the_hardware() {
    let mut i: i64 = -200;
    while i <= 1300 {
        let x = (i as f64) / 1000.0;
        assert_eq!(channel(sc(x)), by_hardware(x), "shade {:?}", x);
        i += 1;
    }
    let mut k: u64 = 0;
    while k < 4096 {
        let x = (k as f64) / 4096.0;
        assert_eq!(channel(sc(x)), by_hardware(x), "shade {:?}", x);
        let below = f64::from_bits(x.to_bits().wrapping_sub(1));
        if k > 0 {
            assert_eq!(channel(sc(below)), by_hardware(below), "shade {:?}", below);
        }
        k += 1;
    }
    for x in [f64::NAN, f64::INFINITY, f64::NEG_INFINITY, -0.0, 5e-324, 1e-310, f64::MAX] {
        assert_eq!(channel(sc(x)), by_hardware(x), "shade {:?}", x);
    }
}

#[test]
fn every_level_fits_a_byte() {
    let mut bits: u64 = 0;
    loop {
        assert!(channel(Scalar::from_bits(bits)) < 256);
        let (next, over) = bits.overflowing_add(0x0003_ffff_ffff_fff1);
        if over {
            break;
        }
        bits = next;
    }
}

#[test]
fn pixel_of_a_sample_sum() {
    let samples = 50.0f64;
    let sum = (12.5f64, 50.0f64, 0.0f64);
    let shade = Vec3::new(
        sc((sum.0 / samples).sqrt()),
        sc((sum.1 / samples).sqrt()),
        sc((sum.2 / samples).sqrt()),
    );
    assert_eq!(write_color(shade), (128, 255, 0));
}

#[test]
fn pixel_channels_are_independent() {
    let shade = Vec3::new(sc(0.999), sc(f64::NAN), sc(0.1));
    assert_eq!(write_color(shade), (255, 0, 25));
}
