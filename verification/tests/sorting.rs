use okpalette::color::CylindricalColor;
use okpalette::sort::{sorted_colors, SortKey};

fn cyl(h: f32, s: f32, l: f32) -> CylindricalColor {
    CylindricalColor { hue: h.to_bits(), sat: s.to_bits(), light: l.to_bits() }
}

#[test]
fn sort_by_hue_ascending() {
    let palette = vec![cyl(240.0, 1.0, 0.5), cyl(0.0, 1.0, 0.5), cyl(120.0, 1.0, 0.5)];
    let out = sorted_colors(palette, SortKey::Hue, false);
    let hues: Vec<f32> = out.iter().map(|c| f32::from_bits(c.hue)).collect();
    assert_eq!(hues, vec![0.0, 120.0, 240.0]);
}

#[test]
fn sort_by_hue_reversed() {
    let palette = vec![cyl(240.0, 1.0, 0.5), cyl(0.0, 1.0, 0.5), cyl(120.0, 1.0, 0.5)];
    let out = sorted_colors(palette, SortKey::Hue, true);
    let hues: Vec<f32> = out.iter().map(|c| f32::from_bits(c.hue)).collect();
    assert_eq!(hues, vec![240.0, 120.0, 0.0]);
}

#[test]
fn sort_by_saturation() {
    let palette = vec![cyl(10.0, 0.9, 0.5), cyl(20.0, 0.1, 0.5), cyl(30.0, 0.5, 0.5)];
    let out = sorted_colors(palette, SortKey::Saturation, false);
    let sats: Vec<f32> = out.iter().map(|c| f32::from_bits(c.sat)).collect();
    assert_eq!(sats, vec![0.1, 0.5, 0.9]);
}

#[test]
fn sort_by_lightness() {
    let palette = vec![cyl(10.0, 0.5, 0.7), cyl(20.0, 0.5, 0.2), cyl(30.0, 0.5, 0.4)];
    let out = sorted_colors(palette, SortKey::Lightness, false);
    let lights: Vec<f32> = out.iter().map(|c| f32::from_bits(c.light)).collect();
    assert_eq!(lights, vec![0.2, 0.4, 0.7]);
}

// With no sort key the effective reversal is the negation of the flag:
// an unset flag reverses the sequence as it arrived (ascending frequency)
// into most-frequent-first order, while a set flag keeps it as it arrived.
#[test]
fn unsorted_flag_unset_reverses_arrival_order() {
    let a = cyl(1.0, 0.1, 0.1);
    let b = cyl(2.0, 0.2, 0.2);
    let c = cyl(3.0, 0.3, 0.3);
    let out = sorted_colors(vec![a, b, c], SortKey::Unsorted, false);
    assert_eq!(out, vec![c, b, a]);
}

#[test]
fn unsorted_flag_set_keeps_arrival_order() {
    let a = cyl(1.0, 0.1, 0.1);
    let b = cyl(2.0, 0.2, 0.2);
    let c = cyl(3.0, 0.3, 0.3);
    let out = sorted_colors(vec![a, b, c], SortKey::Unsorted, true);
    assert_eq!(out, vec![a, b, c]);
}

// Colors with equal sort channels keep their relative order: the sort is
// stable.
#[test]
fn equal_keys_keep_relative_order() {
    let first = cyl(120.0, 0.9, 0.1);
    let second = cyl(120.0, 0.1, 0.9);
    let small = cyl(0.0, 0.5, 0.5);
    let out = sorted_colors(vec![first, second, small], SortKey::Hue, false);
    assert_eq!(out, vec![small, first, second]);
}

#[test]
fn single_and_empty_palettes() {
    let out = sorted_colors(Vec::new(), SortKey::Hue, false);
    assert!(out.is_empty());
    let one = cyl(5.0, 0.5, 0.5);
    let out = sorted_colors(vec![one], SortKey::Lightness, true);
    assert_eq!(out, vec![one]);
}

// The channel order used by the sort agrees with the standard total order
// on binary32 values, a NaN pattern included, so sorting is deterministic
// for every bit pattern.
#[test]
fn channel_order_matches_total_order_of_floats() {
    let samples: Vec<f32> = vec![
        0.0,
        -0.0,
        1.5,
        -1.5,
        f32::INFINITY,
        f32::NEG_INFINITY,
        f32::MIN_POSITIVE,
        f32::NAN,
        123.25,
        -0.125,
    ];
    for &x in &samples {
        for &y in &samples {
            let by_key = okpalette::color::exec_total_order_key(x.to_bits())
                .cmp(&okpalette::color::exec_total_order_key(y.to_bits()));
            assert_eq!(by_key, x.total_cmp(&y), "{x} vs {y}");
        }
    }
}

#[test]
fn nan_sorts_after_every_finite_lightness() {
    let nan = cyl(0.0, 0.0, f32::NAN);
    let low = cyl(0.0, 0.0, 0.25);
    let high = cyl(0.0, 0.0, 0.75);
    let out = sorted_colors(vec![nan, high, low], SortKey::Lightness, false);
    assert_eq!(out, vec![low, high, nan]);
}
