use vstd::prelude::*;

use crate::color::CylindricalColor;

verus! {

/// The palette with every lightness channel overwritten by `light`, hue
/// and saturation kept unchanged at every index.
pub open spec fn relevel_spec(s: Seq<CylindricalColor>, light: u32) -> Seq<CylindricalColor> {
    s.map_values(
        |c: CylindricalColor| CylindricalColor { hue: c.hue, sat: c.sat, light },
    )
}

/// Re-render the palette at one target lightness: a copy of the palette
/// whose every element keeps its hue and saturation, bit for bit, and has
/// its lightness channel set to `light`. The target is expected already in
/// the working range; the host divides a human-facing level by its scale
/// before the call, and a value outside the working range is not rejected
/// here but clamps later, at display conversion.
pub fn relevel(palette: &Vec<CylindricalColor>, light: u32) -> (out: Vec<CylindricalColor>)
    ensures
        out@ == relevel_spec(palette@, light),
        out@.len() == palette@.len(),
        forall|i: int|
            0 <= i < palette@.len() ==> (#[trigger] out@[i]).hue == palette@[i].hue
                && out@[i].sat == palette@[i].sat && out@[i].light == light,
{
    let n = palette.len();
    let mut out: Vec<CylindricalColor> = Vec::new();
    let mut i: usize = 0;
    while i < n
        invariant
            i <= n,
            n == palette@.len(),
            out@.len() == i,
            forall|a: int|
                0 <= a < i as int ==> out@[a] == (CylindricalColor {
                    hue: palette@[a].hue,
                    sat: palette@[a].sat,
                    light,
                }),
        decreases n - i,
    {
        let c = palette[i];
        out.push(CylindricalColor { hue: c.hue, sat: c.sat, light });
        i = i + 1;
    }
    proof {
        assert(out@ =~= relevel_spec(palette@, light));
    }
    out
}

/// Two relevelings of one palette agree on hue and saturation at every
/// index: between rendered lines only the lightness channel differs.
pub proof fn lemma_relevel_lightness_only(s: Seq<CylindricalColor>, l1: u32, l2: u32)
    ensures
        relevel_spec(s, l1).len() == relevel_spec(s, l2).len(),
        forall|i: int|
            0 <= i < s.len() ==> (#[trigger] relevel_spec(s, l1)[i]).hue == relevel_spec(
                s,
                l2,
            )[i].hue && relevel_spec(s, l1)[i].sat == relevel_spec(s, l2)[i].sat,
{
}

} // verus!
