use rbx_studio_mcp::binary64::{scaled_side, Real};
use std::time::Duration;

fn number(x: f64) -> Real {
    Real::from_bits(x.to_bits()).unwrap()
}

#[test]
fn nan_is_no_number() {
    assert!(Real::from_bits(f64::NAN.to_bits()).is_none());
    assert!(Real::from_bits(0x7ff0_0000_0000_0001).is_none());
    assert_eq!(number(f64::INFINITY).bits(), f64::INFINITY.to_bits());
    assert_eq!(number(-0.0).bits(), (-0.0f64).to_bits());
}

#[test]
fn seconds_become_the_nanoseconds_of_a_duration() {
    let mut x: f64 = 1e-12;
    let mut tried = 0;
    while x < 700.0 {
        let expected = Duration::from_secs_f64(x.clamp(0.0, 600.0)).as_nanos() as u64;
        assert_eq!(number(x).clamped_nanos(0, 600_000_000_000), expected, "{x:e}");
        x *= 1.0137;
        tried += 1;
    }
    assert!(tried > 2000);
    for x in [
        0.0,
        -0.0,
        -1.0,
        0.1,
        0.05,
        0.5e-9,
        1.5e-9,
        2.5e-9,
        1.0,
        29.999999999999996,
        600.0,
        600.0000000001,
        1e300,
        5e-324,
        f64::INFINITY,
        f64::NEG_INFINITY,
    ] {
        let expected = Duration::from_secs_f64(x.clamp(0.1, 600.0)).as_nanos() as u64;
        assert_eq!(number(x).clamped_nanos(100_000_000, 600_000_000_000), expected, "{x:e}");
    }
}

fn by_floats(side: u32, longest: u32, max: u32) -> u32 {
    let scale = f64::from(max) / f64::from(longest);
    ((f64::from(side) * scale).round() as u32).max(1)
}

#[test]
fn sides_scale_as_in_floating_point() {
    for longest in 65u32..700 {
        for max in [64u32, 100, 333, 640] {
            if max < longest {
                for side in 0..=longest {
                    assert_eq!(scaled_side(side, longest, max), by_floats(side, longest, max));
                }
            }
        }
    }
}

#[test]
fn sides_scale_as_in_floating_point_when_large() {
    let mut seed: u64 = 0x9e37_79b9_7f4a_7c15;
    for _ in 0..20_000 {
        seed = seed.wrapping_mul(6364136223846793005).wrapping_add(1442695040888963407);
        let longest = ((seed >> 32) as u32).max(2);
        let side = ((seed >> 7) as u32) % (longest / 2 + 1) * 2;
        let max = 1 + ((seed >> 20) as u32) % (longest - 1).min(1 << ((seed >> 60) + 1));
        assert_eq!(scaled_side(side, longest, max), by_floats(side, longest, max));
    }
    for (side, longest, max) in [
        (u32::MAX, u32::MAX, 1),
        (u32::MAX, u32::MAX, u32::MAX - 1),
        (1, u32::MAX, u32::MAX - 1),
        (0, u32::MAX, 4096),
        (7, 8, 0),
    ] {
        assert_eq!(scaled_side(side, longest, max), by_floats(side, longest, max));
    }
}

#[test]
fn halves_follow_the_rounded_factor() {
    assert_eq!(scaled_side(145, 232, 100), 62);
    assert_eq!(scaled_side(1920, 1920, 1280), 1280);
    assert_eq!(scaled_side(1080, 1920, 1280), 720);
    assert_eq!(scaled_side(3, 10_000, 64), 1);
}
