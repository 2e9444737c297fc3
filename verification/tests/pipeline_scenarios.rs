use okpalette::color::{CylindricalColor, DisplayColor};
use okpalette::level::relevel;
use okpalette::pipeline::{leveled_palettes, plan_output, RenderConfig};
use okpalette::render::{render_line, Format};
use okpalette::sort::{sorted_colors, SortKey};

use palette::{FromColor, Okhsl, Srgb};

fn cyl(h: f32, s: f32, l: f32) -> CylindricalColor {
    CylindricalColor { hue: h.to_bits(), sat: s.to_bits(), light: l.to_bits() }
}

fn to_display(c: &CylindricalColor) -> DisplayColor {
    let okhsl = Okhsl::new(
        f32::from_bits(c.hue),
        f32::from_bits(c.sat),
        f32::from_bits(c.light),
    );
    let srgb: Srgb<u8> = Srgb::from_color(okhsl).into_format();
    DisplayColor { r: srgb.red, g: srgb.green, b: srgb.blue }
}

// Releveling overwrites only the lightness channel: hue and saturation are
// preserved bit for bit at every index.
#[test]
fn relevel_preserves_hue_and_saturation_bits() {
    let palette = vec![cyl(12.5, 0.25, 0.1), cyl(300.0, 0.75, 0.9)];
    let target = (35.0f32 / 100.0).to_bits();
    let out = relevel(&palette, target);
    assert_eq!(out.len(), palette.len());
    for (orig, releveled) in palette.iter().zip(out.iter()) {
        assert_eq!(releveled.hue, orig.hue);
        assert_eq!(releveled.sat, orig.sat);
        assert_eq!(releveled.light, target);
    }
}

// Rendering one palette at two lightness levels starts each time from the
// same base: the two lines differ only in the lightness channel handed to
// display conversion.
#[test]
fn two_levels_differ_only_in_lightness() {
    let base = vec![cyl(40.0, 0.6, 0.5), cyl(200.0, 0.3, 0.5)];
    let low = relevel(&base, 0.2f32.to_bits());
    let high = relevel(&base, 0.8f32.to_bits());
    for (a, b) in low.iter().zip(high.iter()) {
        assert_eq!(a.hue, b.hue);
        assert_eq!(a.sat, b.sat);
        assert_ne!(a.light, b.light);
    }
}

// Three fully saturated mid-lightness colors, sorted by hue and rendered
// as uncolorized decimal triplets: one line, ordered 0, 120, 240 degrees,
// each triplet the display conversion of its cylindrical color.
#[test]
fn end_to_end_decimal_line_sorted_by_hue() {
    let palette = vec![cyl(120.0, 1.0, 0.5), cyl(240.0, 1.0, 0.5), cyl(0.0, 1.0, 0.5)];
    let sorted = sorted_colors(palette, SortKey::Hue, false);
    let hues: Vec<f32> = sorted.iter().map(|c| f32::from_bits(c.hue)).collect();
    assert_eq!(hues, vec![0.0, 120.0, 240.0]);

    let display: Vec<DisplayColor> = sorted.iter().map(to_display).collect();
    let line = render_line(&display, Format::Rgb, None);

    let expect = display
        .iter()
        .map(|d| format!("({},{},{})", d.r, d.g, d.b))
        .collect::<Vec<_>>()
        .join(" ");
    assert_eq!(line, expect);
    assert_eq!(line.matches('(').count(), 3);
}

// Two configured lightness levels, 20 and 80 on the human 0-100 scale,
// with the default line suppressed: exactly two planned lines, each the
// hue-sorted base at lightness 0.20 and 0.80 respectively.
#[test]
fn two_levels_suppressed_default_gives_two_lines() {
    let palette = vec![cyl(300.0, 0.9, 0.33), cyl(60.0, 0.4, 0.66)];
    let sorted = sorted_colors(palette, SortKey::Hue, false);
    let levels = vec![(20.0f32 / 100.0).to_bits(), (80.0f32 / 100.0).to_bits()];
    let lines = leveled_palettes(&sorted, true, &levels);
    assert_eq!(lines.len(), 2);
    for (line, &level) in lines.iter().zip(levels.iter()) {
        assert_eq!(line.len(), sorted.len());
        for (c, base) in line.iter().zip(sorted.iter()) {
            assert_eq!(c.hue, base.hue);
            assert_eq!(c.sat, base.sat);
            assert_eq!(c.light, level);
        }
    }
    assert_eq!(f32::from_bits(lines[0][0].light), 0.2);
    assert_eq!(f32::from_bits(lines[1][0].light), 0.8);
}

// Without suppression the first line is the sorted palette itself, at its
// extracted lightness.
#[test]
fn default_line_precedes_leveled_lines() {
    let sorted = vec![cyl(10.0, 0.5, 0.42)];
    let levels = vec![0.5f32.to_bits()];
    let lines = leveled_palettes(&sorted, false, &levels);
    assert_eq!(lines.len(), 2);
    assert_eq!(lines[0], sorted);
    assert_eq!(lines[1][0].light, 0.5f32.to_bits());
}

// An empty palette flows through the whole pipeline and yields one empty
// line per configured level, without error.
#[test]
fn empty_palette_through_whole_pipeline() {
    let sorted = sorted_colors(Vec::new(), SortKey::Hue, false);
    let levels = vec![0.2f32.to_bits(), 0.8f32.to_bits()];
    let lines = leveled_palettes(&sorted, false, &levels);
    assert_eq!(lines.len(), 3);
    for line in &lines {
        let display: Vec<DisplayColor> = line.iter().map(to_display).collect();
        assert_eq!(render_line(&display, Format::Hex, None), "");
    }
}

// The planning half of the pipeline in one call: sort as configured, then
// one planned palette per output line.
#[test]
fn plan_output_sorts_and_levels() {
    let palette = vec![cyl(240.0, 1.0, 0.5), cyl(0.0, 1.0, 0.5)];
    let config = RenderConfig {
        sort: SortKey::Hue,
        reverse: false,
        format: Format::Rgb,
        colorize: None,
        no_avg_lightness: false,
        lightness_levels: vec![0.2f32.to_bits()],
    };
    let (sorted, lines) = plan_output(palette, &config);
    assert_eq!(f32::from_bits(sorted[0].hue), 0.0);
    assert_eq!(f32::from_bits(sorted[1].hue), 240.0);
    assert_eq!(lines.len(), 2);
    assert_eq!(lines[0], sorted);
    assert_eq!(lines[1][0].light, 0.2f32.to_bits());
    assert_eq!(lines[1][0].hue, sorted[0].hue);
    assert_eq!(lines[1][1].hue, sorted[1].hue);
}
