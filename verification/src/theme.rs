//! The color set of the bushing section drawings, in dark and light
//! themes; the full drawing and the geometry-only panes share it.

use vstd::prelude::*;

verus! {

/// Stroke and fill colors of a section drawing, as CSS hex strings.
pub struct ThemeColors {
    pub bg: &'static str,
    pub fg: &'static str,
    pub housing_hatch: &'static str,
    pub housing_edge: &'static str,
    pub bushing_hatch: &'static str,
    pub bushing_edge: &'static str,
    pub centerline: &'static str,
}

/// The drawing colors for the dark or the light theme.
pub fn theme_colors(dark: bool) -> (r: ThemeColors)
    ensures
        dark ==> r.bg@ == "#1b1e25"@ && r.fg@ == "#c7ccd6"@ && r.housing_hatch@ == "#7d8798"@
            && r.housing_edge@ == "#4a5060"@ && r.bushing_hatch@ == "#3fbfe8"@ && r.bushing_edge@
            == "#8fd8f2"@ && r.centerline@ == "#4a505f"@,
        !dark ==> r.bg@ == "#ffffff"@ && r.fg@ == "#2a2e35"@ && r.housing_hatch@ == "#8a94a3"@
            && r.housing_edge@ == "#c3ccd6"@ && r.bushing_hatch@ == "#1c7fae"@ && r.bushing_edge@
            == "#0f5a80"@ && r.centerline@ == "#aab3bf"@,
{
    if dark {
        ThemeColors {
            bg: "#1b1e25",
            fg: "#c7ccd6",
            housing_hatch: "#7d8798",
            housing_edge: "#4a5060",
            bushing_hatch: "#3fbfe8",
            bushing_edge: "#8fd8f2",
            centerline: "#4a505f",
        }
    } else {
        ThemeColors {
            bg: "#ffffff",
            fg: "#2a2e35",
            housing_hatch: "#8a94a3",
            housing_edge: "#c3ccd6",
            bushing_hatch: "#1c7fae",
            bushing_edge: "#0f5a80",
            centerline: "#aab3bf",
        }
    }
}

} // verus!
