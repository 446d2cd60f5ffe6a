//! Color themes: the nine built-in palettes and their cyclic order.
use vstd::prelude::*;

verus! {

/// A 24-bit color.
#[derive(Debug, Clone, Copy, PartialEq, Eq, Structural)]
pub struct Rgb {
    pub r: u8,
    pub g: u8,
    pub b: u8,
}

/// Identifier of a built-in theme.
#[derive(Debug, Clone, Copy, PartialEq, Eq, Structural)]
pub enum ThemeId {
    Candy,
    Synthwave,
    Aurora,
    Cyberpunk,
    Ocean,
    AmberCrt,
    GreenCrt,
    Monochrome,
    Rainbow,
}

/// The theme that follows `id` in the picker, wrapping from the last to the first.
pub open spec fn theme_after(id: ThemeId) -> ThemeId {
    match id {
        ThemeId::Candy => ThemeId::Synthwave,
        ThemeId::Synthwave => ThemeId::Aurora,
        ThemeId::Aurora => ThemeId::Cyberpunk,
        ThemeId::Cyberpunk => ThemeId::Ocean,
        ThemeId::Ocean => ThemeId::AmberCrt,
        ThemeId::AmberCrt => ThemeId::GreenCrt,
        ThemeId::GreenCrt => ThemeId::Monochrome,
        ThemeId::Monochrome => ThemeId::Rainbow,
        ThemeId::Rainbow => ThemeId::Candy,
    }
}

/// Position of a theme in the picker, from 0.
pub open spec fn theme_position(id: ThemeId) -> nat {
    match id {
        ThemeId::Candy => 0,
        ThemeId::Synthwave => 1,
        ThemeId::Aurora => 2,
        ThemeId::Cyberpunk => 3,
        ThemeId::Ocean => 4,
        ThemeId::AmberCrt => 5,
        ThemeId::GreenCrt => 6,
        ThemeId::Monochrome => 7,
        ThemeId::Rainbow => 8,
    }
}

impl ThemeId {
    /// All themes, in picker order.
    pub const ALL: [ThemeId; 9] = [
        ThemeId::Candy,
        ThemeId::Synthwave,
        ThemeId::Aurora,
        ThemeId::Cyberpunk,
        ThemeId::Ocean,
        ThemeId::AmberCrt,
        ThemeId::GreenCrt,
        ThemeId::Monochrome,
        ThemeId::Rainbow,
    ];

    /// The next theme in picker order, wrapping from the last to the first.
    pub fn next(self) -> (n: ThemeId)
        ensures
            n == theme_after(self),
    {
        match self {
            ThemeId::Candy => ThemeId::Synthwave,
            ThemeId::Synthwave => ThemeId::Aurora,
            ThemeId::Aurora => ThemeId::Cyberpunk,
            ThemeId::Cyberpunk => ThemeId::Ocean,
            ThemeId::Ocean => ThemeId::AmberCrt,
            ThemeId::AmberCrt => ThemeId::GreenCrt,
            ThemeId::GreenCrt => ThemeId::Monochrome,
            ThemeId::Monochrome => ThemeId::Rainbow,
            ThemeId::Rainbow => ThemeId::Candy,
        }
    }
}

/// A color theme.
#[derive(Debug, Clone)]
pub struct Theme {
    pub id: ThemeId,
    pub name: &'static str,
    pub background: Rgb,
    pub panel_bg: Rgb,
    pub border: Rgb,
    pub border_focused: Rgb,
    pub primary: Rgb,
    pub secondary: Rgb,
    pub accent: Rgb,
    pub success: Rgb,
    pub warning: Rgb,
    pub danger: Rgb,
    pub text: Rgb,
    pub text_muted: Rgb,
    pub chart_colors: Vec<Rgb>,
}

/// Display name of a built-in theme.
pub open spec fn theme_name(id: ThemeId) -> Seq<char> {
    match id {
        ThemeId::Candy => "Candy"@,
        ThemeId::Synthwave => "Synthwave"@,
        ThemeId::Aurora => "Aurora"@,
        ThemeId::Cyberpunk => "Cyberpunk"@,
        ThemeId::Ocean => "Ocean"@,
        ThemeId::AmberCrt => "Amber CRT"@,
        ThemeId::GreenCrt => "Green CRT"@,
        ThemeId::Monochrome => "Monochrome"@,
        ThemeId::Rainbow => "Rainbow"@,
    }
}

/// The twelve interface colors of a built-in theme, in the order: background,
/// panel background, border, focused border, primary, secondary, accent,
/// success, warning, danger, text, muted text.
pub open spec fn theme_palette(id: ThemeId) -> Seq<Rgb> {
    match id {
        ThemeId::Candy => seq![
            Rgb { r: 20, g: 20, b: 26 },
            Rgb { r: 28, g: 28, b: 38 },
            Rgb { r: 60, g: 60, b: 80 },
            Rgb { r: 244, g: 114, b: 182 },
            Rgb { r: 244, g: 114, b: 182 },
            Rgb { r: 168, g: 85, b: 247 },
            Rgb { r: 56, g: 189, b: 248 },
            Rgb { r: 52, g: 211, b: 153 },
            Rgb { r: 251, g: 191, b: 36 },
            Rgb { r: 248, g: 113, b: 113 },
            Rgb { r: 248, g: 250, b: 252 },
            Rgb { r: 148, g: 163, b: 184 },
        ],
        ThemeId::Synthwave => seq![
            Rgb { r: 18, g: 16, b: 28 },
            Rgb { r: 26, g: 22, b: 40 },
            Rgb { r: 70, g: 50, b: 95 },
            Rgb { r: 236, g: 72, b: 153 },
            Rgb { r: 236, g: 72, b: 153 },
            Rgb { r: 147, g: 51, b: 234 },
            Rgb { r: 34, g: 211, b: 238 },
            Rgb { r: 45, g: 212, b: 191 },
            Rgb { r: 250, g: 204, b: 21 },
            Rgb { r: 239, g: 68, b: 68 },
            Rgb { r: 253, g: 244, b: 255 },
            Rgb { r: 168, g: 162, b: 184 },
        ],
        ThemeId::Aurora => seq![
            Rgb { r: 16, g: 24, b: 28 },
            Rgb { r: 22, g: 34, b: 40 },
            Rgb { r: 45, g: 75, b: 80 },
            Rgb { r: 52, g: 211, b: 153 },
            Rgb { r: 52, g: 211, b: 153 },
            Rgb { r: 45, g: 212, b: 191 },
            Rgb { r: 56, g: 189, b: 248 },
            Rgb { r: 134, g: 239, b: 172 },
            Rgb { r: 253, g: 224, b: 71 },
            Rgb { r: 248, g: 113, b: 113 },
            Rgb { r: 240, g: 253, b: 250 },
            Rgb { r: 148, g: 180, b: 180 },
        ],
        ThemeId::Cyberpunk => seq![
            Rgb { r: 16, g: 18, b: 24 },
            Rgb { r: 24, g: 26, b: 36 },
            Rgb { r: 65, g: 70, b: 90 },
            Rgb { r: 250, g: 204, b: 21 },
            Rgb { r: 250, g: 204, b: 21 },
            Rgb { r: 6, g: 182, b: 212 },
            Rgb { r: 244, g: 63, b: 94 },
            Rgb { r: 74, g: 222, b: 128 },
            Rgb { r: 251, g: 146, b: 60 },
            Rgb { r: 239, g: 68, b: 68 },
            Rgb { r: 254, g: 252, b: 232 },
            Rgb { r: 161, g: 161, b: 170 },
        ],
        ThemeId::Ocean => seq![
            Rgb { r: 15, g: 23, b: 42 },
            Rgb { r: 23, g: 37, b: 66 },
            Rgb { r: 47, g: 68, b: 108 },
            Rgb { r: 56, g: 189, b: 248 },
            Rgb { r: 56, g: 189, b: 248 },
            Rgb { r: 96, g: 165, b: 250 },
            Rgb { r: 45, g: 212, b: 191 },
            Rgb { r: 52, g: 211, b: 153 },
            Rgb { r: 251, g: 191, b: 36 },
            Rgb { r: 248, g: 113, b: 113 },
            Rgb { r: 241, g: 245, b: 249 },
            Rgb { r: 148, g: 163, b: 184 },
        ],
        ThemeId::AmberCrt => seq![
            Rgb { r: 18, g: 14, b: 8 },
            Rgb { r: 28, g: 22, b: 12 },
            Rgb { r: 90, g: 65, b: 25 },
            Rgb { r: 245, g: 158, b: 11 },
            Rgb { r: 245, g: 158, b: 11 },
            Rgb { r: 217, g: 119, b: 6 },
            Rgb { r: 251, g: 191, b: 36 },
            Rgb { r: 234, g: 179, b: 8 },
            Rgb { r: 249, g: 115, b: 22 },
            Rgb { r: 239, g: 68, b: 68 },
            Rgb { r: 254, g: 243, b: 199 },
            Rgb { r: 180, g: 140, b: 90 },
        ],
        ThemeId::GreenCrt => seq![
            Rgb { r: 10, g: 20, b: 12 },
            Rgb { r: 16, g: 32, b: 18 },
            Rgb { r: 35, g: 75, b: 42 },
            Rgb { r: 34, g: 197, b: 94 },
            Rgb { r: 34, g: 197, b: 94 },
            Rgb { r: 22, g: 163, b: 74 },
            Rgb { r: 74, g: 222, b: 128 },
            Rgb { r: 134, g: 239, b: 172 },
            Rgb { r: 250, g: 204, b: 21 },
            Rgb { r: 248, g: 113, b: 113 },
            Rgb { r: 240, g: 253, b: 244 },
            Rgb { r: 110, g: 160, b: 120 },
        ],
        ThemeId::Monochrome => seq![
            Rgb { r: 18, g: 18, b: 18 },
            Rgb { r: 28, g: 28, b: 28 },
            Rgb { r: 65, g: 65, b: 65 },
            Rgb { r: 240, g: 240, b: 240 },
            Rgb { r: 240, g: 240, b: 240 },
            Rgb { r: 180, g: 180, b: 180 },
            Rgb { r: 215, g: 215, b: 215 },
            Rgb { r: 220, g: 220, b: 220 },
            Rgb { r: 190, g: 190, b: 190 },
            Rgb { r: 250, g: 100, b: 100 },
            Rgb { r: 255, g: 255, b: 255 },
            Rgb { r: 130, g: 130, b: 130 },
        ],
        ThemeId::Rainbow => seq![
            Rgb { r: 18, g: 18, b: 26 },
            Rgb { r: 26, g: 26, b: 36 },
            Rgb { r: 60, g: 60, b: 80 },
            Rgb { r: 244, g: 63, b: 94 },
            Rgb { r: 244, g: 63, b: 94 },
            Rgb { r: 249, g: 115, b: 22 },
            Rgb { r: 59, g: 130, b: 246 },
            Rgb { r: 34, g: 197, b: 94 },
            Rgb { r: 234, g: 179, b: 8 },
            Rgb { r: 168, g: 85, b: 247 },
            Rgb { r: 255, g: 255, b: 255 },
            Rgb { r: 156, g: 163, b: 175 },
        ],
    }
}

/// The chart series colors of a built-in theme.
pub open spec fn theme_chart_colors(id: ThemeId) -> Seq<Rgb> {
    match id {
        ThemeId::Candy => seq![
            Rgb { r: 244, g: 114, b: 182 },
            Rgb { r: 56, g: 189, b: 248 },
            Rgb { r: 168, g: 85, b: 247 },
            Rgb { r: 251, g: 191, b: 36 },
        ],
        ThemeId::Synthwave => seq![
            Rgb { r: 236, g: 72, b: 153 },
            Rgb { r: 34, g: 211, b: 238 },
            Rgb { r: 147, g: 51, b: 234 },
            Rgb { r: 250, g: 204, b: 21 },
        ],
        ThemeId::Aurora => seq![
            Rgb { r: 52, g: 211, b: 153 },
            Rgb { r: 45, g: 212, b: 191 },
            Rgb { r: 56, g: 189, b: 248 },
            Rgb { r: 134, g: 239, b: 172 },
        ],
        ThemeId::Cyberpunk => seq![
            Rgb { r: 250, g: 204, b: 21 },
            Rgb { r: 6, g: 182, b: 212 },
            Rgb { r: 244, g: 63, b: 94 },
            Rgb { r: 74, g: 222, b: 128 },
        ],
        ThemeId::Ocean => seq![
            Rgb { r: 56, g: 189, b: 248 },
            Rgb { r: 96, g: 165, b: 250 },
            Rgb { r: 45, g: 212, b: 191 },
            Rgb { r: 129, g: 140, b: 248 },
        ],
        ThemeId::AmberCrt => seq![
            Rgb { r: 245, g: 158, b: 11 },
            Rgb { r: 251, g: 191, b: 36 },
            Rgb { r: 217, g: 119, b: 6 },
            Rgb { r: 249, g: 115, b: 22 },
        ],
        ThemeId::GreenCrt => seq![
            Rgb { r: 34, g: 197, b: 94 },
            Rgb { r: 74, g: 222, b: 128 },
            Rgb { r: 22, g: 163, b: 74 },
            Rgb { r: 134, g: 239, b: 172 },
        ],
        ThemeId::Monochrome => seq![
            Rgb { r: 245, g: 245, b: 245 },
            Rgb { r: 190, g: 190, b: 190 },
            Rgb { r: 140, g: 140, b: 140 },
            Rgb { r: 220, g: 220, b: 220 },
        ],
        ThemeId::Rainbow => seq![
            Rgb { r: 244, g: 63, b: 94 },
            Rgb { r: 249, g: 115, b: 22 },
            Rgb { r: 234, g: 179, b: 8 },
            Rgb { r: 34, g: 197, b: 94 },
            Rgb { r: 59, g: 130, b: 246 },
            Rgb { r: 168, g: 85, b: 247 },
        ],
    }
}

impl Theme {
    /// The twelve interface colors of the theme, in palette order.
    pub open spec fn colors(&self) -> Seq<Rgb> {
        seq![
            self.background,
            self.panel_bg,
            self.border,
            self.border_focused,
            self.primary,
            self.secondary,
            self.accent,
            self.success,
            self.warning,
            self.danger,
            self.text,
            self.text_muted,
        ]
    }

    /// The theme is the built-in theme `id`.
    pub open spec fn is_builtin(&self, id: ThemeId) -> bool {
        &&& self.id == id
        &&& self.name@ == theme_name(id)
        &&& self.colors() == theme_palette(id)
        &&& self.chart_colors@ == theme_chart_colors(id)
    }

    /// The built-in theme `id`.
    pub fn get(id: ThemeId) -> (t: Theme)
        ensures
            t.is_builtin(id),
    {
        get_theme(id)
    }
}

impl Default for Theme {
    fn default() -> (t: Theme)
        ensures
            t.is_builtin(ThemeId::Candy),
    {
        candy()
    }
}

/// The built-in theme `id`.
pub fn get_theme(id: ThemeId) -> (t: Theme)
    ensures
        t.is_builtin(id),
{
    match id {
        ThemeId::Candy => candy(),
        ThemeId::Synthwave => synthwave(),
        ThemeId::Aurora => aurora(),
        ThemeId::Cyberpunk => cyberpunk(),
        ThemeId::Ocean => ocean(),
        ThemeId::AmberCrt => amber_crt(),
        ThemeId::GreenCrt => green_crt(),
        ThemeId::Monochrome => monochrome(),
        ThemeId::Rainbow => rainbow(),
    }
}

pub fn candy() -> (t: Theme)
    ensures
        t.is_builtin(ThemeId::Candy),
{
    let t = Theme {
        id: ThemeId::Candy,
        name: "Candy",
        background: Rgb { r: 20, g: 20, b: 26 },
        panel_bg: Rgb { r: 28, g: 28, b: 38 },
        border: Rgb { r: 60, g: 60, b: 80 },
        border_focused: Rgb { r: 244, g: 114, b: 182 },
        primary: Rgb { r: 244, g: 114, b: 182 },
        secondary: Rgb { r: 168, g: 85, b: 247 },
        accent: Rgb { r: 56, g: 189, b: 248 },
        success: Rgb { r: 52, g: 211, b: 153 },
        warning: Rgb { r: 251, g: 191, b: 36 },
        danger: Rgb { r: 248, g: 113, b: 113 },
        text: Rgb { r: 248, g: 250, b: 252 },
        text_muted: Rgb { r: 148, g: 163, b: 184 },
        chart_colors: vec![
            Rgb { r: 244, g: 114, b: 182 },
            Rgb { r: 56, g: 189, b: 248 },
            Rgb { r: 168, g: 85, b: 247 },
            Rgb { r: 251, g: 191, b: 36 },
        ],
    };
    assert(t.colors() =~= theme_palette(ThemeId::Candy));
    assert(t.chart_colors@ =~= theme_chart_colors(ThemeId::Candy));
    t
}

pub fn synthwave() -> (t: Theme)
    ensures
        t.is_builtin(ThemeId::Synthwave),
{
    let t = Theme {
        id: ThemeId::Synthwave,
        name: "Synthwave",
        background: Rgb { r: 18, g: 16, b: 28 },
        panel_bg: Rgb { r: 26, g: 22, b: 40 },
        border: Rgb { r: 70, g: 50, b: 95 },
        border_focused: Rgb { r: 236, g: 72, b: 153 },
        primary: Rgb { r: 236, g: 72, b: 153 },
        secondary: Rgb { r: 147, g: 51, b: 234 },
        accent: Rgb { r: 34, g: 211, b: 238 },
        success: Rgb { r: 45, g: 212, b: 191 },
        warning: Rgb { r: 250, g: 204, b: 21 },
        danger: Rgb { r: 239, g: 68, b: 68 },
        text: Rgb { r: 253, g: 244, b: 255 },
        text_muted: Rgb { r: 168, g: 162, b: 184 },
        chart_colors: vec![
            Rgb { r: 236, g: 72, b: 153 },
            Rgb { r: 34, g: 211, b: 238 },
            Rgb { r: 147, g: 51, b: 234 },
            Rgb { r: 250, g: 204, b: 21 },
        ],
    };
    assert(t.colors() =~= theme_palette(ThemeId::Synthwave));
    assert(t.chart_colors@ =~= theme_chart_colors(ThemeId::Synthwave));
    t
}

pub fn aurora() -> (t: Theme)
    ensures
        t.is_builtin(ThemeId::Aurora),
{
    let t = Theme {
        id: ThemeId::Aurora,
        name: "Aurora",
        background: Rgb { r: 16, g: 24, b: 28 },
        panel_bg: Rgb { r: 22, g: 34, b: 40 },
        border: Rgb { r: 45, g: 75, b: 80 },
        border_focused: Rgb { r: 52, g: 211, b: 153 },
        primary: Rgb { r: 52, g: 211, b: 153 },
        secondary: Rgb { r: 45, g: 212, b: 191 },
        accent: Rgb { r: 56, g: 189, b: 248 },
        success: Rgb { r: 134, g: 239, b: 172 },
        warning: Rgb { r: 253, g: 224, b: 71 },
        danger: Rgb { r: 248, g: 113, b: 113 },
        text: Rgb { r: 240, g: 253, b: 250 },
        text_muted: Rgb { r: 148, g: 180, b: 180 },
        chart_colors: vec![
            Rgb { r: 52, g: 211, b: 153 },
            Rgb { r: 45, g: 212, b: 191 },
            Rgb { r: 56, g: 189, b: 248 },
            Rgb { r: 134, g: 239, b: 172 },
        ],
    };
    assert(t.colors() =~= theme_palette(ThemeId::Aurora));
    assert(t.chart_colors@ =~= theme_chart_colors(ThemeId::Aurora));
    t
}

pub fn cyberpunk() -> (t: Theme)
    ensures
        t.is_builtin(ThemeId::Cyberpunk),
{
    let t = Theme {
        id: ThemeId::Cyberpunk,
        name: "Cyberpunk",
        background: Rgb { r: 16, g: 18, b: 24 },
        panel_bg: Rgb { r: 24, g: 26, b: 36 },
        border: Rgb { r: 65, g: 70, b: 90 },
        border_focused: Rgb { r: 250, g: 204, b: 21 },
        primary: Rgb { r: 250, g: 204, b: 21 },
        secondary: Rgb { r: 6, g: 182, b: 212 },
        accent: Rgb { r: 244, g: 63, b: 94 },
        success: Rgb { r: 74, g: 222, b: 128 },
        warning: Rgb { r: 251, g: 146, b: 60 },
        danger: Rgb { r: 239, g: 68, b: 68 },
        text: Rgb { r: 254, g: 252, b: 232 },
        text_muted: Rgb { r: 161, g: 161, b: 170 },
        chart_colors: vec![
            Rgb { r: 250, g: 204, b: 21 },
            Rgb { r: 6, g: 182, b: 212 },
            Rgb { r: 244, g: 63, b: 94 },
            Rgb { r: 74, g: 222, b: 128 },
        ],
    };
    assert(t.colors() =~= theme_palette(ThemeId::Cyberpunk));
    assert(t.chart_colors@ =~= theme_chart_colors(ThemeId::Cyberpunk));
    t
}

pub fn ocean() -> (t: Theme)
    ensures
        t.is_builtin(ThemeId::Ocean),
{
    let t = Theme {
        id: ThemeId::Ocean,
        name: "Ocean",
        background: Rgb { r: 15, g: 23, b: 42 },
        panel_bg: Rgb { r: 23, g: 37, b: 66 },
        border: Rgb { r: 47, g: 68, b: 108 },
        border_focused: Rgb { r: 56, g: 189, b: 248 },
        primary: Rgb { r: 56, g: 189, b: 248 },
        secondary: Rgb { r: 96, g: 165, b: 250 },
        accent: Rgb { r: 45, g: 212, b: 191 },
        success: Rgb { r: 52, g: 211, b: 153 },
        warning: Rgb { r: 251, g: 191, b: 36 },
        danger: Rgb { r: 248, g: 113, b: 113 },
        text: Rgb { r: 241, g: 245, b: 249 },
        text_muted: Rgb { r: 148, g: 163, b: 184 },
        chart_colors: vec![
            Rgb { r: 56, g: 189, b: 248 },
            Rgb { r: 96, g: 165, b: 250 },
            Rgb { r: 45, g: 212, b: 191 },
            Rgb { r: 129, g: 140, b: 248 },
        ],
    };
    assert(t.colors() =~= theme_palette(ThemeId::Ocean));
    assert(t.chart_colors@ =~= theme_chart_colors(ThemeId::Ocean));
    t
}

pub fn amber_crt() -> (t: Theme)
    ensures
        t.is_builtin(ThemeId::AmberCrt),
{
    let t = Theme {
        id: ThemeId::AmberCrt,
        name: "Amber CRT",
        background: Rgb { r: 18, g: 14, b: 8 },
        panel_bg: Rgb { r: 28, g: 22, b: 12 },
        border: Rgb { r: 90, g: 65, b: 25 },
        border_focused: Rgb { r: 245, g: 158, b: 11 },
        primary: Rgb { r: 245, g: 158, b: 11 },
        secondary: Rgb { r: 217, g: 119, b: 6 },
        accent: Rgb { r: 251, g: 191, b: 36 },
        success: Rgb { r: 234, g: 179, b: 8 },
        warning: Rgb { r: 249, g: 115, b: 22 },
        danger: Rgb { r: 239, g: 68, b: 68 },
        text: Rgb { r: 254, g: 243, b: 199 },
        text_muted: Rgb { r: 180, g: 140, b: 90 },
        chart_colors: vec![
            Rgb { r: 245, g: 158, b: 11 },
            Rgb { r: 251, g: 191, b: 36 },
            Rgb { r: 217, g: 119, b: 6 },
            Rgb { r: 249, g: 115, b: 22 },
        ],
    };
    assert(t.colors() =~= theme_palette(ThemeId::AmberCrt));
    assert(t.chart_colors@ =~= theme_chart_colors(ThemeId::AmberCrt));
    t
}

pub fn green_crt() -> (t: Theme)
    ensures
        t.is_builtin(ThemeId::GreenCrt),
{
    let t = Theme {
        id: ThemeId::GreenCrt,
        name: "Green CRT",
        background: Rgb { r: 10, g: 20, b: 12 },
        panel_bg: Rgb { r: 16, g: 32, b: 18 },
        border: Rgb { r: 35, g: 75, b: 42 },
        border_focused: Rgb { r: 34, g: 197, b: 94 },
        primary: Rgb { r: 34, g: 197, b: 94 },
        secondary: Rgb { r: 22, g: 163, b: 74 },
        accent: Rgb { r: 74, g: 222, b: 128 },
        success: Rgb { r: 134, g: 239, b: 172 },
        warning: Rgb { r: 250, g: 204, b: 21 },
        danger: Rgb { r: 248, g: 113, b: 113 },
        text: Rgb { r: 240, g: 253, b: 244 },
        text_muted: Rgb { r: 110, g: 160, b: 120 },
        chart_colors: vec![
            Rgb { r: 34, g: 197, b: 94 },
            Rgb { r: 74, g: 222, b: 128 },
            Rgb { r: 22, g: 163, b: 74 },
            Rgb { r: 134, g: 239, b: 172 },
        ],
    };
    assert(t.colors() =~= theme_palette(ThemeId::GreenCrt));
    assert(t.chart_colors@ =~= theme_chart_colors(ThemeId::GreenCrt));
    t
}

pub fn monochrome() -> (t: Theme)
    ensures
        t.is_builtin(ThemeId::Monochrome),
{
    let t = Theme {
        id: ThemeId::Monochrome,
        name: "Monochrome",
        background: Rgb { r: 18, g: 18, b: 18 },
        panel_bg: Rgb { r: 28, g: 28, b: 28 },
        border: Rgb { r: 65, g: 65, b: 65 },
        border_focused: Rgb { r: 240, g: 240, b: 240 },
        primary: Rgb { r: 240, g: 240, b: 240 },
        secondary: Rgb { r: 180, g: 180, b: 180 },
        accent: Rgb { r: 215, g: 215, b: 215 },
        success: Rgb { r: 220, g: 220, b: 220 },
        warning: Rgb { r: 190, g: 190, b: 190 },
        danger: Rgb { r: 250, g: 100, b: 100 },
        text: Rgb { r: 255, g: 255, b: 255 },
        text_muted: Rgb { r: 130, g: 130, b: 130 },
        chart_colors: vec![
            Rgb { r: 245, g: 245, b: 245 },
            Rgb { r: 190, g: 190, b: 190 },
            Rgb { r: 140, g: 140, b: 140 },
            Rgb { r: 220, g: 220, b: 220 },
        ],
    };
    assert(t.colors() =~= theme_palette(ThemeId::Monochrome));
    assert(t.chart_colors@ =~= theme_chart_colors(ThemeId::Monochrome));
    t
}

pub fn rainbow() -> (t: Theme)
    ensures
        t.is_builtin(ThemeId::Rainbow),
{
    let t = Theme {
        id: ThemeId::Rainbow,
        name: "Rainbow",
        background: Rgb { r: 18, g: 18, b: 26 },
        panel_bg: Rgb { r: 26, g: 26, b: 36 },
        border: Rgb { r: 60, g: 60, b: 80 },
        border_focused: Rgb { r: 244, g: 63, b: 94 },
        primary: Rgb { r: 244, g: 63, b: 94 },
        secondary: Rgb { r: 249, g: 115, b: 22 },
        accent: Rgb { r: 59, g: 130, b: 246 },
        success: Rgb { r: 34, g: 197, b: 94 },
        warning: Rgb { r: 234, g: 179, b: 8 },
        danger: Rgb { r: 168, g: 85, b: 247 },
        text: Rgb { r: 255, g: 255, b: 255 },
        text_muted: Rgb { r: 156, g: 163, b: 175 },
        chart_colors: vec![
            Rgb { r: 244, g: 63, b: 94 },
            Rgb { r: 249, g: 115, b: 22 },
            Rgb { r: 234, g: 179, b: 8 },
            Rgb { r: 34, g: 197, b: 94 },
            Rgb { r: 59, g: 130, b: 246 },
            Rgb { r: 168, g: 85, b: 247 },
        ],
    };
    assert(t.colors() =~= theme_palette(ThemeId::Rainbow));
    assert(t.chart_colors@ =~= theme_chart_colors(ThemeId::Rainbow));
    t
}

/// Cycling with `next` runs through all nine themes and returns to the start
/// after nine steps; the picker position of the next theme is one more,
/// modulo nine.
pub proof fn lemma_theme_cycle(id: ThemeId)
    ensures
        theme_position(theme_after(id)) == (theme_position(id) + 1) % 9,
        theme_after(theme_after(theme_after(theme_after(theme_after(theme_after(theme_after(
            theme_after(theme_after(id)),
        ))))))) == id,
{
}

/// Different themes sit at different positions of the picker.
pub proof fn lemma_theme_position_injective(a: ThemeId, b: ThemeId)
    ensures
        theme_position(a) == theme_position(b) ==> a == b,
        theme_position(a) < 9,
{
}

} // verus!
