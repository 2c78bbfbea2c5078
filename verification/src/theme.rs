//! Design tokens: the semantic icons, and the role colours of the light and
//! the dark theme.

use vstd::prelude::*;

verus! {

/// The icons by what they stand for.
#[derive(Clone, Copy, Debug, PartialEq, Eq, Structural)]
pub enum Icon {
    Scene,
    Viewport,
    Inspector,
    Dmx,
    Patch,
    Perf,
    Fixture,
    Environment,
    World,
    Geometry,
    Screen,
    Color,
    Info,
    Settings,
    Frame,
    Camera,
    Add,
    ToolSelect,
    ToolMove,
    ToolRotate,
    ToolScale,
    ToolAim,
    ToolMeasure,
}

/// A colour with premultiplied alpha.
#[derive(Clone, Copy, Debug, PartialEq, Eq, Structural)]
pub struct Rgba {
    pub r: u8,
    pub g: u8,
    pub b: u8,
    pub a: u8,
}

impl Rgba {
    /// An opaque colour.
    #[verifier::allow_in_spec]
    pub fn rgb(r: u8, g: u8, b: u8) -> Rgba
        returns
            (Rgba { r, g, b, a: 255 }),
    {
        Rgba { r, g, b, a: 255 }
    }

    /// An opaque gray.
    #[verifier::allow_in_spec]
    pub fn gray(level: u8) -> Rgba
        returns
            (Rgba { r: level, g: level, b: level, a: 255 }),
    {
        Rgba { r: level, g: level, b: level, a: 255 }
    }

    /// Transparent white.
    #[verifier::allow_in_spec]
    pub fn white_alpha(a: u8) -> Rgba
        returns
            (Rgba { r: a, g: a, b: a, a }),
    {
        Rgba { r: a, g: a, b: a, a }
    }

    /// Transparent black.
    #[verifier::allow_in_spec]
    pub fn black_alpha(a: u8) -> Rgba
        returns
            (Rgba { r: 0, g: 0, b: 0, a }),
    {
        Rgba { r: 0, g: 0, b: 0, a }
    }
}

/// "Good / ready / receiving".
#[verifier::allow_in_spec]
pub fn ok_color() -> Rgba
    returns
        Rgba::rgb(120, 210, 120),
{
    Rgba::rgb(120, 210, 120)
}

/// "Idle".
#[verifier::allow_in_spec]
pub fn idle_color() -> Rgba
    returns
        Rgba::rgb(120, 120, 128),
{
    Rgba::rgb(120, 120, 128)
}

/// "Conflict / error".
#[verifier::allow_in_spec]
pub fn conflict_color() -> Rgba
    returns
        Rgba::rgb(232, 92, 92),
{
    Rgba::rgb(232, 92, 92)
}

/// "Warning".
#[verifier::allow_in_spec]
pub fn warn_color() -> Rgba
    returns
        Rgba::rgb(232, 184, 96),
{
    Rgba::rgb(232, 184, 96)
}

/// The four-tier text ramp.
#[derive(Clone, Copy, Debug, PartialEq, Eq, Structural)]
pub struct Ink {
    pub primary: Rgba,
    pub secondary: Rgba,
    pub tertiary: Rgba,
    pub muted: Rgba,
}

/// The text ramp of the light or the dark theme.
#[verifier::allow_in_spec]
pub fn ink(light: bool) -> Ink
    returns
        (if light {
            Ink {
                primary: Rgba::gray(28),
                secondary: Rgba::gray(70),
                tertiary: Rgba::gray(110),
                muted: Rgba::gray(150),
            }
        } else {
            Ink {
                primary: Rgba::gray(226),
                secondary: Rgba::gray(176),
                tertiary: Rgba::gray(132),
                muted: Rgba::gray(96),
            }
        }),
{
    if light {
        Ink {
            primary: Rgba::gray(28),
            secondary: Rgba::gray(70),
            tertiary: Rgba::gray(110),
            muted: Rgba::gray(150),
        }
    } else {
        Ink {
            primary: Rgba::gray(226),
            secondary: Rgba::gray(176),
            tertiary: Rgba::gray(132),
            muted: Rgba::gray(96),
        }
    }
}

/// The role colours.
#[derive(Clone, Copy, Debug, PartialEq, Eq, Structural)]
pub struct Palette {
    pub canvas: Rgba,
    pub surface: Rgba,
    pub surface_hi: Rgba,
    pub input: Rgba,
    pub window: Rgba,
    pub faint: Rgba,
    pub border: Rgba,
    pub border_hi: Rgba,
    pub accent: Rgba,
    pub ink: Rgba,
    pub ink_secondary: Rgba,
    pub ink_tertiary: Rgba,
    pub ink_muted: Rgba,
    pub ok: Rgba,
    pub warn: Rgba,
    pub conflict: Rgba,
    pub idle: Rgba,
}

/// A colour's lightness, as the sum of its channels.
pub open spec fn lightness(c: Rgba) -> int {
    c.r + c.g + c.b
}

impl Palette {
    /// The role colours of a theme with an accent. The fields behind the
    /// controls are opaque grays and the hairlines are transparent.
    pub fn build(theme_light: bool, accent: Rgba) -> (r: Palette)
        ensures
            r.accent == accent,
            r.ok == ok_color() && r.warn == warn_color(),
            r.conflict == conflict_color() && r.idle == idle_color(),
            r.ink == ink(theme_light).primary,
            r.ink_secondary == ink(theme_light).secondary,
            r.ink_tertiary == ink(theme_light).tertiary,
            r.ink_muted == ink(theme_light).muted,
            r.canvas == Rgba::gray(if theme_light { 243 } else { 20 }),
            r.surface == Rgba::gray(if theme_light { 252 } else { 28 }),
            r.surface_hi == Rgba::gray(if theme_light { 255 } else { 36 }),
            r.input == Rgba::gray(if theme_light { 248 } else { 14 }),
            r.window == Rgba::gray(if theme_light { 250 } else { 33 }),
            r.faint == (if theme_light { Rgba::black_alpha(6) } else { Rgba::white_alpha(6) }),
            r.border == (if theme_light { Rgba::black_alpha(24) } else { Rgba::white_alpha(20) }),
            r.border_hi == (if theme_light { Rgba::black_alpha(40) } else { Rgba::white_alpha(34) }),
            lightness(r.canvas) < lightness(r.surface) < lightness(r.surface_hi),
    {
        let ink = ink(theme_light);
        Palette {
            canvas: Rgba::gray(if theme_light { 243 } else { 20 }),
            surface: Rgba::gray(if theme_light { 252 } else { 28 }),
            surface_hi: Rgba::gray(if theme_light { 255 } else { 36 }),
            input: Rgba::gray(if theme_light { 248 } else { 14 }),
            window: Rgba::gray(if theme_light { 250 } else { 33 }),
            faint: if theme_light { Rgba::black_alpha(6) } else { Rgba::white_alpha(6) },
            border: if theme_light { Rgba::black_alpha(24) } else { Rgba::white_alpha(20) },
            border_hi: if theme_light { Rgba::black_alpha(40) } else { Rgba::white_alpha(34) },
            accent,
            ink: ink.primary,
            ink_secondary: ink.secondary,
            ink_tertiary: ink.tertiary,
            ink_muted: ink.muted,
            ok: ok_color(),
            warn: warn_color(),
            conflict: conflict_color(),
            idle: idle_color(),
        }
    }
}

/// The text ramp fades: in the light theme from dark to light, in the dark theme from light
/// to dark, and the strongest text of either is on the far side of the other's.
pub proof fn text_ramp_fades(light: bool)
    ensures
        lightness(ink(true).primary) < lightness(ink(true).secondary) < lightness(
            ink(true).tertiary,
        ) < lightness(ink(true).muted),
        lightness(ink(false).primary) > lightness(ink(false).secondary) > lightness(
            ink(false).tertiary,
        ) > lightness(ink(false).muted),
        lightness(ink(true).primary) < lightness(ink(false).muted),
        ink(light).primary.a == 255 && ink(light).muted.a == 255,
{
}

} // verus!
