use vstd::prelude::*;
use crate::types::Rgba;

verus! {

/// The colors of the editor's panels and buttons in one theme.
#[derive(Clone, Copy, Debug, PartialEq, Eq, Structural)]
pub struct ThemePalette {
    pub top_bar: Rgba,
    pub side_panel: Rgba,
    pub central_panel: Rgba,
    pub title: Rgba,
    pub button_fill: Rgba,
    pub button_hover_fill: Rgba,
    pub button_active_fill: Rgba,
    pub button_hover_text: Rgba,
    pub button_text: Rgba,
}

/// An opaque color.
pub open spec fn opaque(r: u8, g: u8, b: u8) -> Rgba {
    Rgba { r, g, b, a: 255 }
}

/// The palette of the dark theme (`dark`) or of the light one.
pub open spec fn palette_of(dark: bool) -> ThemePalette {
    ThemePalette {
        top_bar: if dark { opaque(20, 20, 35) } else { opaque(220, 230, 255) },
        side_panel: if dark { opaque(25, 25, 40) } else { opaque(230, 235, 255) },
        central_panel: if dark { opaque(30, 30, 46) } else { opaque(245, 245, 255) },
        title: if dark { opaque(255, 255, 255) } else { opaque(0, 0, 0) },
        button_fill: opaque(50, 50, 80),
        button_hover_fill: opaque(137, 180, 250),
        button_active_fill: opaque(100, 140, 210),
        button_hover_text: opaque(0, 0, 0),
        button_text: if dark { opaque(255, 255, 0) } else { opaque(0, 0, 139) },
    }
}

fn rgb(r: u8, g: u8, b: u8) -> (res: Rgba)
    ensures
        res == opaque(r, g, b),
{
    Rgba { r, g, b, a: 255 }
}

/// The palette of the dark theme when `dark` holds, else of the light theme.
pub fn theme_palette(dark: bool) -> (res: ThemePalette)
    ensures
        res == palette_of(dark),
{
    ThemePalette {
        top_bar: if dark { rgb(20, 20, 35) } else { rgb(220, 230, 255) },
        side_panel: if dark { rgb(25, 25, 40) } else { rgb(230, 235, 255) },
        central_panel: if dark { rgb(30, 30, 46) } else { rgb(245, 245, 255) },
        title: if dark { rgb(255, 255, 255) } else { rgb(0, 0, 0) },
        button_fill: rgb(50, 50, 80),
        button_hover_fill: rgb(137, 180, 250),
        button_active_fill: rgb(100, 140, 210),
        button_hover_text: rgb(0, 0, 0),
        button_text: if dark { rgb(255, 255, 0) } else { rgb(0, 0, 139) },
    }
}

/// The caption of the theme button: it names the theme a click switches to.
pub fn theme_toggle_label(dark: bool) -> (res: &'static str)
    ensures
        res@ == (if dark { "☀ Light"@ } else { "🌙 Dark"@ }),
{
    if dark {
        "☀ Light"
    } else {
        "🌙 Dark"
    }
}

/// The colors of the two themes: dark panels with a white title and yellow button
/// text in the dark theme, light panels with a black title and dark-blue button text
/// in the light one; the button fills are the same in both.
pub proof fn lemma_theme_palette_colors(dark: bool)
    ensures
        ({
            let p = palette_of(dark);
            &&& p.top_bar == if dark {
                Rgba { r: 20, g: 20, b: 35, a: 255 }
            } else {
                Rgba { r: 220, g: 230, b: 255, a: 255 }
            }
            &&& p.side_panel == if dark {
                Rgba { r: 25, g: 25, b: 40, a: 255 }
            } else {
                Rgba { r: 230, g: 235, b: 255, a: 255 }
            }
            &&& p.central_panel == if dark {
                Rgba { r: 30, g: 30, b: 46, a: 255 }
            } else {
                Rgba { r: 245, g: 245, b: 255, a: 255 }
            }
            &&& p.title == if dark {
                Rgba { r: 255, g: 255, b: 255, a: 255 }
            } else {
                Rgba { r: 0, g: 0, b: 0, a: 255 }
            }
            &&& p.button_fill == Rgba { r: 50, g: 50, b: 80, a: 255 }
            &&& p.button_hover_fill == Rgba { r: 137, g: 180, b: 250, a: 255 }
            &&& p.button_active_fill == Rgba { r: 100, g: 140, b: 210, a: 255 }
            &&& p.button_hover_text == Rgba { r: 0, g: 0, b: 0, a: 255 }
            &&& p.button_text == if dark {
                Rgba { r: 255, g: 255, b: 0, a: 255 }
            } else {
                Rgba { r: 0, g: 0, b: 139, a: 255 }
            }
        }),
{
}

} // verus!
