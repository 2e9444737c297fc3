use vstd::prelude::*;

use crate::color::CylindricalColor;
use crate::level::{relevel, relevel_spec};
use crate::render::{Colorize, Format};
use crate::sort::{sorted_colors, sorted_output, SortKey};

verus! {

/// The immutable rendering configuration, read once per run: how the
/// palette is ordered, how each color is encoded and colorized, whether
/// the line at the extracted (average) lightness is printed, and which
/// further lightness levels are rendered, in order.
pub struct RenderConfig {
    pub sort: SortKey,
    pub reverse: bool,
    pub format: Format,
    pub colorize: Option<Colorize>,
    /// Suppress the line that shows the colors at their extracted
    /// lightness.
    pub no_avg_lightness: bool,
    /// Target lightness channel values, in output order, already in the
    /// working range: the host divides its human-facing levels by their
    /// scale before building the configuration.
    pub lightness_levels: Vec<u32>,
}

/// The index of the first releveled line: 0 when the default line is
/// suppressed, 1 otherwise.
pub open spec fn line_base(no_avg_lightness: bool) -> int {
    if no_avg_lightness {
        0int
    } else {
        1int
    }
}

fn copied(v: &Vec<CylindricalColor>) -> (out: Vec<CylindricalColor>)
    ensures
        out@ == v@,
{
    let n = v.len();
    let mut out: Vec<CylindricalColor> = Vec::new();
    let mut i: usize = 0;
    while i < n
        invariant
            i <= n,
            n == v@.len(),
            out@ == v@.take(i as int),
        decreases n - i,
    {
        out.push(v[i]);
        proof {
            assert(out@ =~= v@.take(i as int + 1));
        }
        i = i + 1;
    }
    proof {
        assert(v@.take(n as int) =~= v@);
    }
    out
}

/// The palettes of the output lines, in order: the sorted palette itself,
/// unless the default line is suppressed, then one releveling of that same
/// sorted palette per configured lightness level. Every releveling starts
/// from the sorted base, never from the previous line.
pub fn leveled_palettes(
    sorted: &Vec<CylindricalColor>,
    no_avg_lightness: bool,
    levels: &Vec<u32>,
) -> (lines: Vec<Vec<CylindricalColor>>)
    ensures
        lines@.len() == line_base(no_avg_lightness) + levels@.len(),
        !no_avg_lightness ==> lines@[0]@ == sorted@,
        forall|j: int|
            0 <= j < levels@.len() ==> (#[trigger] lines@[line_base(no_avg_lightness) + j])@
                == relevel_spec(sorted@, levels@[j]),
{
    let mut lines: Vec<Vec<CylindricalColor>> = Vec::new();
    if !no_avg_lightness {
        lines.push(copied(sorted));
    }
    let n = levels.len();
    let mut j: usize = 0;
    while j < n
        invariant
            j <= n,
            n == levels@.len(),
            lines@.len() == line_base(no_avg_lightness) + j,
            !no_avg_lightness ==> lines@[0]@ == sorted@,
            forall|a: int|
                0 <= a < j as int ==> (#[trigger] lines@[line_base(no_avg_lightness) + a])@
                    == relevel_spec(sorted@, levels@[a]),
        decreases n - j,
    {
        lines.push(relevel(sorted, levels[j]));
        j = j + 1;
    }
    lines
}

/// The whole planning half of the pipeline: order the palette as
/// configured, then lay out the palettes of the output lines. The host
/// converts each planned color to a display color and renders and writes
/// the lines in order; the first write failure aborts the run and no
/// further line is written.
pub fn plan_output(palette: Vec<CylindricalColor>, config: &RenderConfig) -> (r: (
    Vec<CylindricalColor>,
    Vec<Vec<CylindricalColor>>,
))
    ensures
        sorted_output(config.sort, config.reverse, palette@, r.0@),
        r.1@.len() == line_base(config.no_avg_lightness) + config.lightness_levels@.len(),
        !config.no_avg_lightness ==> r.1@[0]@ == r.0@,
        forall|j: int|
            0 <= j < config.lightness_levels@.len() ==> (#[trigger] r.1@[line_base(
                config.no_avg_lightness,
            ) + j])@ == relevel_spec(r.0@, config.lightness_levels@[j]),
{
    let sorted = sorted_colors(palette, config.sort, config.reverse);
    let lines = leveled_palettes(&sorted, config.no_avg_lightness, &config.lightness_levels);
    (sorted, lines)
}

} // verus!
