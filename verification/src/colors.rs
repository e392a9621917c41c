use crate::enums::RenderVariant;
use vstd::prelude::*;

verus! {

/// An RGB colour triple.
#[derive(Debug, Clone, Copy, PartialEq, Eq, Structural)]
pub struct Rgb(pub u8, pub u8, pub u8);

impl Rgb {
    pub fn to_tuple(&self) -> (t: (u8, u8, u8))
        ensures
            t == (self.0, self.1, self.2),
    {
        (self.0, self.1, self.2)
    }

    pub fn r(&self) -> (v: u8)
        ensures
            v == self.0,
    {
        self.0
    }

    pub fn g(&self) -> (v: u8)
        ensures
            v == self.1,
    {
        self.1
    }

    pub fn b(&self) -> (v: u8)
        ensures
            v == self.2,
    {
        self.2
    }
}

/// A foreground/background pair; a `None` channel leaves whatever an earlier
/// paint put there.
#[derive(Debug, Clone, Copy, PartialEq, Eq, Structural)]
pub struct DisplayColor {
    pub bg: Option<Rgb>,
    pub color: Option<Rgb>,
}

impl Default for DisplayColor {
    /// Both channels unset.
    fn default() -> (r: Self)
        ensures
            r == (DisplayColor { bg: None, color: None }),
    {
        DisplayColor { bg: None, color: None }
    }
}

/// The colour pair for each render variant; an unset entry falls back to the
/// built-in colour for that variant.
#[derive(Debug, Clone, Copy, PartialEq, Eq, Structural)]
pub struct ColorsConfig {
    pub fixed: Option<DisplayColor>,
    pub error: Option<DisplayColor>,
    pub directional_relative: Option<DisplayColor>,
    pub same_value: Option<DisplayColor>,
    pub default: Option<DisplayColor>,
}

/// The built-in colour pair of a render variant, used when the configuration
/// leaves that entry unset.
pub open spec fn builtin_color(variant: RenderVariant) -> DisplayColor {
    match variant {
        RenderVariant::Fixed => DisplayColor { bg: None, color: Some(Rgb(0, 255, 0)) },
        RenderVariant::Error => DisplayColor {
            bg: Some(Rgb(255, 0, 0)),
            color: Some(Rgb(255, 255, 255)),
        },
        RenderVariant::DirectionalRelative => DisplayColor {
            bg: Some(Rgb(78, 78, 78)),
            color: None,
        },
        RenderVariant::SameValue => DisplayColor { bg: None, color: Some(Rgb(0, 215, 255)) },
        RenderVariant::Default => DisplayColor { bg: None, color: None },
    }
}

impl ColorsConfig {
    /// What `get` looks up: the configured entry for the variant, or the
    /// built-in colour where the entry is unset.
    pub open spec fn spec_get(self, variant: RenderVariant) -> DisplayColor {
        let entry = match variant {
            RenderVariant::Fixed => self.fixed,
            RenderVariant::Error => self.error,
            RenderVariant::DirectionalRelative => self.directional_relative,
            RenderVariant::SameValue => self.same_value,
            RenderVariant::Default => self.default,
        };
        match entry {
            Some(c) => c,
            None => builtin_color(variant),
        }
    }

    /// A configuration with every entry unset: every lookup falls back to the
    /// built-in colours.
    pub fn blank() -> (r: Self)
        ensures
            r == (ColorsConfig {
                fixed: None,
                error: None,
                directional_relative: None,
                same_value: None,
                default: None,
            }),
    {
        ColorsConfig {
            fixed: None,
            error: None,
            directional_relative: None,
            same_value: None,
            default: None,
        }
    }

    /// The colour pair to paint a render variant with.
    pub fn get(&self, variant: RenderVariant) -> (r: DisplayColor)
        ensures
            r == self.spec_get(variant),
    {
        match variant {
            RenderVariant::Fixed => match self.fixed {
                Some(c) => c,
                None => Self::default_fixed(),
            },
            RenderVariant::Error => match self.error {
                Some(c) => c,
                None => Self::default_error(),
            },
            RenderVariant::DirectionalRelative => match self.directional_relative {
                Some(c) => c,
                None => Self::default_directional_relative(),
            },
            RenderVariant::SameValue => match self.same_value {
                Some(c) => c,
                None => Self::default_same_value(),
            },
            RenderVariant::Default => match self.default {
                Some(c) => c,
                None => Self::default_default(),
            },
        }
    }

    fn default_fixed() -> (r: DisplayColor)
        ensures
            r == builtin_color(RenderVariant::Fixed),
    {
        DisplayColor { bg: None, color: Some(Rgb(0, 255, 0)) }
    }

    fn default_error() -> (r: DisplayColor)
        ensures
            r == builtin_color(RenderVariant::Error),
    {
        DisplayColor { bg: Some(Rgb(255, 0, 0)), color: Some(Rgb(255, 255, 255)) }
    }

    fn default_directional_relative() -> (r: DisplayColor)
        ensures
            r == builtin_color(RenderVariant::DirectionalRelative),
    {
        DisplayColor { bg: Some(Rgb(78, 78, 78)), color: None }
    }

    fn default_same_value() -> (r: DisplayColor)
        ensures
            r == builtin_color(RenderVariant::SameValue),
    {
        DisplayColor { bg: None, color: Some(Rgb(0, 215, 255)) }
    }

    fn default_default() -> (r: DisplayColor)
        ensures
            r == builtin_color(RenderVariant::Default),
    {
        DisplayColor::default()
    }
}

impl Default for ColorsConfig {
    /// Every entry set to its built-in colour.
    fn default() -> (r: Self)
        ensures
            forall|variant: RenderVariant| r.spec_get(variant) == builtin_color(variant),
    {
        let r = ColorsConfig {
            fixed: Some(Self::default_fixed()),
            error: Some(Self::default_error()),
            directional_relative: Some(Self::default_directional_relative()),
            same_value: Some(Self::default_same_value()),
            default: Some(Self::default_default()),
        };
        proof {
            assert forall|variant: RenderVariant| r.spec_get(variant) == builtin_color(
                variant,
            ) by {
                match variant {
                    RenderVariant::Fixed => {},
                    RenderVariant::Error => {},
                    RenderVariant::DirectionalRelative => {},
                    RenderVariant::SameValue => {},
                    RenderVariant::Default => {},
                }
            }
        }
        r
    }
}

} // verus!
