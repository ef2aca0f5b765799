//! Colours as callers name them, and how they become what devices hold.

use crate::protocol::message::Hsbk;
use vstd::prelude::*;

verus! {

/// The colour temperature that a colour without one is sent with: the middle of the
/// range from 2500 K to 9000 K.
pub const DEFAULT_KELVIN: u16 = 5750;

/// The fraction `numerator / denominator` on the scale on which 0xffff is one: what is
/// at or below zero gives 0, what is at or above one gives 0xffff, and between them the
/// scaled fraction is rounded down.
pub open spec fn spec_denormalize(numerator: int, denominator: int) -> int
    recommends
        denominator > 0,
{
    if numerator <= 0 {
        0
    } else if numerator >= denominator {
        0xffff
    } else {
        numerator * 0xffff / denominator
    }
}

/// The angle of `numerator / denominator` degrees on the scale on which the full circle
/// is the range of a `u16`: the angle is brought into the circle first.
pub open spec fn spec_degrees_to_u16(numerator: int, denominator: int) -> int
    recommends
        denominator > 0,
{
    spec_denormalize(numerator % (360 * denominator), 360 * denominator)
}

/// Between zero and one the scaled fraction stays below 0xffff.
pub proof fn lemma_denormalize_bounds(numerator: int, denominator: int)
    requires
        denominator > 0,
    ensures
        0 <= spec_denormalize(numerator, denominator) <= 0xffff,
        0 < numerator < denominator ==> spec_denormalize(numerator, denominator) < 0xffff,
{
    if 0 < numerator < denominator {
        let q = numerator * 0xffff / denominator;
        vstd::arithmetic::div_mod::lemma_fundamental_div_mod(numerator * 0xffff, denominator);
        vstd::arithmetic::div_mod::lemma_mod_bound(numerator * 0xffff, denominator);
        assert(0 <= q < 0xffff) by (nonlinear_arith)
            requires
                0 < numerator < denominator,
                numerator * 0xffff == denominator * q + (numerator * 0xffff) % denominator,
                0 <= (numerator * 0xffff) % denominator < denominator,
        ;
    }
}

/// A larger fraction never gets a smaller level: the scale is monotone, flat at both
/// ends.
pub proof fn lemma_denormalize_monotone(a: int, b: int, denominator: int)
    requires
        denominator > 0,
        a <= b,
    ensures
        spec_denormalize(a, denominator) <= spec_denormalize(b, denominator),
        a <= 0 ==> spec_denormalize(a, denominator) == 0,
        b >= denominator ==> spec_denormalize(b, denominator) == 0xffff,
{
    lemma_denormalize_bounds(a, denominator);
    lemma_denormalize_bounds(b, denominator);
    if 0 < a && b < denominator {
        assert(a * 0xffff <= b * 0xffff);
        vstd::arithmetic::div_mod::lemma_div_is_ordered(a * 0xffff, b * 0xffff, denominator);
    }
}

/// A full turn more is the same hue, and no angle at all is hue zero.
pub proof fn lemma_degrees_full_turn(numerator: int, denominator: int)
    requires
        denominator > 0,
    ensures
        spec_degrees_to_u16(numerator + 360 * denominator, denominator) == spec_degrees_to_u16(
            numerator,
            denominator,
        ),
        spec_degrees_to_u16(0, denominator) == 0,
        0 <= spec_degrees_to_u16(numerator, denominator) < 0xffff,
{
    let turn = 360 * denominator;
    vstd::arithmetic::div_mod::lemma_mod_add_multiples_vanish(numerator, turn);
    vstd::arithmetic::div_mod::lemma_mod_bound(numerator, turn);
    vstd::arithmetic::div_mod::lemma_small_mod(0, turn as nat);
    lemma_denormalize_bounds(numerator % turn, turn);
}

/// The level of the fraction `numerator / denominator`, clamped to the range from zero
/// to one.
pub fn denormalize(numerator: i64, denominator: i64) -> (level: u16)
    requires
        denominator > 0,
    ensures
        level == spec_denormalize(numerator as int, denominator as int),
{
    if numerator <= 0 {
        0
    } else if numerator >= denominator {
        0xffff
    } else {
        proof {
            lemma_denormalize_bounds(numerator as int, denominator as int);
        }
        let scaled: i128 = (numerator as i128) * 0xffff;
        (scaled / (denominator as i128)) as u16
    }
}

/// The hue of the angle of `numerator / denominator` degrees.
pub fn degrees_to_u16(numerator: i32, denominator: i32) -> (hue: u16)
    requires
        denominator > 0,
    ensures
        hue == spec_degrees_to_u16(numerator as int, denominator as int),
{
    let turn: i64 = 360 * (denominator as i64);
    let scaled: i64 = if numerator >= 0 {
        (numerator as i64) % turn
    } else {
        let back: i64 = (-(numerator as i64)) % turn;
        if back == 0 {
            0
        } else {
            turn - back
        }
    };
    proof {
        let n = numerator as int;
        let t = turn as int;
        if n < 0 {
            let k = (-n) / t;
            let back = (-n) % t;
            vstd::arithmetic::div_mod::lemma_fundamental_div_mod(-n, t);
            if back == 0 {
                assert(n == (-k) * t + 0) by (nonlinear_arith)
                    requires
                        -n == t * k + back,
                        back == 0,
                ;
                vstd::arithmetic::div_mod::lemma_fundamental_div_mod_converse(n, t, -k, 0);
            } else {
                assert(n == (-k - 1) * t + (t - back)) by (nonlinear_arith)
                    requires
                        -n == t * k + back,
                ;
                vstd::arithmetic::div_mod::lemma_fundamental_div_mod_converse(
                    n,
                    t,
                    -k - 1,
                    t - back,
                );
            }
        }
        assert(scaled == n % t);
    }
    denormalize(scaled, turn)
}

/// How bright a light is asked to be.
#[derive(Debug, Copy, Clone, PartialEq, Eq, Structural, Hash)]
pub enum Brightness {
    /// At or below zero: the light is to go off.
    Dark,
    /// Above zero: the level to show, on the scale on which 0xffff is full brightness.
    Level(u16),
}

impl Brightness {
    /// The brightness of the fraction `numerator / denominator`: dark at or below
    /// zero, full at or above one.
    pub open spec fn spec_from_ratio(numerator: int, denominator: int) -> Brightness {
        if numerator <= 0 {
            Brightness::Dark
        } else {
            Brightness::Level(spec_denormalize(numerator, denominator) as u16)
        }
    }

    /// The level to show: zero where the light is to be dark.
    pub open spec fn spec_level(self) -> u16 {
        match self {
            Brightness::Dark => 0,
            Brightness::Level(level) => level,
        }
    }

    /// The brightness of the fraction `numerator / denominator`.
    pub fn from_ratio(numerator: i64, denominator: i64) -> (brightness: Brightness)
        requires
            denominator > 0,
        ensures
            brightness == Brightness::spec_from_ratio(numerator as int, denominator as int),
            numerator >= denominator ==> brightness == Brightness::Level(0xffff),
    {
        if numerator <= 0 {
            Brightness::Dark
        } else {
            Brightness::Level(denormalize(numerator, denominator))
        }
    }

    pub fn level(&self) -> (level: u16)
        ensures
            level == self.spec_level(),
    {
        match self {
            Brightness::Dark => 0,
            Brightness::Level(level) => *level,
        }
    }
}

/// A colour as callers name it. Without a colour temperature of its own it is sent
/// with `DEFAULT_KELVIN`.
#[derive(Debug, Copy, Clone, PartialEq, Eq, Structural, Hash)]
pub struct Color {
    pub hue: u16,
    pub saturation: u16,
    pub brightness: u16,
    pub kelvin: Option<u16>,
}

/// The largest of three.
pub open spec fn max3(r: int, g: int, b: int) -> int {
    if r >= g && r >= b {
        r
    } else if g >= b {
        g
    } else {
        b
    }
}

/// The smallest of three.
pub open spec fn min3(r: int, g: int, b: int) -> int {
    if r <= g && r <= b {
        r
    } else if g <= b {
        g
    } else {
        b
    }
}

/// The hue of a colour that is not grey, in degrees times its chroma: sixty degrees
/// for each chroma's worth of distance round the colour wheel, counted from red, green
/// or blue, whichever is the strongest (red before green before blue where two tie).
pub open spec fn spec_hue_degrees_times_chroma(r: int, g: int, b: int) -> int {
    let max = max3(r, g, b);
    let chroma = max - min3(r, g, b);
    if max == r {
        60 * (g - b)
    } else if max == g {
        60 * (2 * chroma + (b - r))
    } else {
        60 * (4 * chroma + (r - g))
    }
}

impl Color {
    /// The colour of the given amounts of red, green and blue: its brightness is the
    /// largest of the three as a fraction of 255, its saturation the chroma (largest
    /// less smallest) as a fraction of the largest, its hue the place on the colour
    /// wheel. Grey has hue zero and saturation zero.
    pub open spec fn spec_rgb(r: u8, g: u8, b: u8) -> Color {
        let max = max3(r as int, g as int, b as int);
        let chroma = max - min3(r as int, g as int, b as int);
        Color {
            hue: if chroma == 0 {
                0u16
            } else {
                spec_degrees_to_u16(
                    spec_hue_degrees_times_chroma(r as int, g as int, b as int),
                    chroma,
                ) as u16
            },
            saturation: if max == 0 {
                0u16
            } else {
                spec_denormalize(chroma, max) as u16
            },
            brightness: spec_denormalize(max, 255) as u16,
            kelvin: None,
        }
    }

    /// The fully saturated, fully bright colour of a hue.
    pub open spec fn spec_from_hue_u16(hue: u16) -> Color {
        Color { hue, saturation: 0xffff, brightness: 0xffff, kelvin: None }
    }

    /// The colour as devices hold it.
    pub open spec fn spec_hsbk(self) -> Hsbk {
        Hsbk {
            hue: self.hue,
            saturation: self.saturation,
            brightness: self.brightness,
            kelvin: match self.kelvin {
                Some(kelvin) => kelvin,
                None => DEFAULT_KELVIN,
            },
        }
    }

    /// What a device holds, as a colour with that colour temperature.
    pub open spec fn spec_of_hsbk(hsbk: Hsbk) -> Color {
        Color {
            hue: hsbk.hue,
            saturation: hsbk.saturation,
            brightness: hsbk.brightness,
            kelvin: Some(hsbk.kelvin),
        }
    }

    pub fn from_hue_u16(hue: u16) -> (color: Color)
        ensures
            color == Color::spec_from_hue_u16(hue),
    {
        Color { hue, saturation: 0xffff, brightness: 0xffff, kelvin: None }
    }

    pub fn white() -> (color: Color)
        ensures
            color == (Color { hue: 0, saturation: 0, brightness: 0xffff, kelvin: None }),
    {
        Color { hue: 0, saturation: 0, brightness: 0xffff, kelvin: None }
    }

    pub fn red() -> (color: Color)
        ensures
            color == Color::spec_from_hue_u16(0x0000),
    {
        Color::from_hue_u16(0x0000)
    }

    pub fn yellow() -> (color: Color)
        ensures
            color == Color::spec_from_hue_u16(0x2aaa),
    {
        Color::from_hue_u16(0x2aaa)
    }

    pub fn green() -> (color: Color)
        ensures
            color == Color::spec_from_hue_u16(0x5555),
    {
        Color::from_hue_u16(0x5555)
    }

    pub fn cyan() -> (color: Color)
        ensures
            color == Color::spec_from_hue_u16(0x7fff),
    {
        Color::from_hue_u16(0x7fff)
    }

    pub fn blue() -> (color: Color)
        ensures
            color == Color::spec_from_hue_u16(0xaaaa),
    {
        Color::from_hue_u16(0xaaaa)
    }

    pub fn magenta() -> (color: Color)
        ensures
            color == Color::spec_from_hue_u16(0xd555),
    {
        Color::from_hue_u16(0xd555)
    }

    /// The colour turned round the colour wheel by `numerator / denominator` degrees:
    /// the hue moves on and starts over after a full turn.
    pub fn plus_degrees(&self, numerator: i32, denominator: i32) -> (color: Color)
        requires
            denominator > 0,
        ensures
            color == (Color {
                hue: ((self.hue + spec_degrees_to_u16(numerator as int, denominator as int))
                    % 0x1_0000) as u16,
                ..*self
            }),
    {
        proof {
            lemma_degrees_full_turn(numerator as int, denominator as int);
        }
        let delta: u32 = degrees_to_u16(numerator, denominator) as u32;
        let hue: u32 = (self.hue as u32 + delta) % 0x1_0000;
        Color {
            hue: hue as u16,
            saturation: self.saturation,
            brightness: self.brightness,
            kelvin: self.kelvin,
        }
    }

    /// The colour with the hue of `numerator / denominator` degrees.
    pub fn with_hue(&self, numerator: i32, denominator: i32) -> (color: Color)
        requires
            denominator > 0,
        ensures
            color == (Color {
                hue: spec_degrees_to_u16(numerator as int, denominator as int) as u16,
                ..*self
            }),
    {
        Color {
            hue: degrees_to_u16(numerator, denominator),
            saturation: self.saturation,
            brightness: self.brightness,
            kelvin: self.kelvin,
        }
    }

    /// The colour with the saturation `numerator / denominator`, clamped to the range
    /// from zero to one.
    pub fn with_saturation(&self, numerator: i64, denominator: i64) -> (color: Color)
        requires
            denominator > 0,
        ensures
            color == (Color {
                saturation: spec_denormalize(numerator as int, denominator as int) as u16,
                ..*self
            }),
    {
        Color {
            hue: self.hue,
            saturation: denormalize(numerator, denominator),
            brightness: self.brightness,
            kelvin: self.kelvin,
        }
    }

    /// The colour with the brightness `numerator / denominator`, clamped to the range
    /// from zero to one.
    pub fn with_brightness(&self, numerator: i64, denominator: i64) -> (color: Color)
        requires
            denominator > 0,
        ensures
            color == (Color {
                brightness: spec_denormalize(numerator as int, denominator as int) as u16,
                ..*self
            }),
    {
        Color {
            hue: self.hue,
            saturation: self.saturation,
            brightness: denormalize(numerator, denominator),
            kelvin: self.kelvin,
        }
    }

    /// The colour of the given amounts of red, green and blue.
    pub fn rgb(r: u8, g: u8, b: u8) -> (color: Color)
        ensures
            color == Color::spec_rgb(r, g, b),
            r == g && g == b ==> color.hue == 0 && color.saturation == 0,
            color.brightness == 257 * max3(r as int, g as int, b as int),
            color.kelvin is None,
    {
        let max: u8 = if r >= g && r >= b {
            r
        } else if g >= b {
            g
        } else {
            b
        };
        let min: u8 = if r <= g && r <= b {
            r
        } else if g <= b {
            g
        } else {
            b
        };
        let chroma: i32 = (max - min) as i32;
        let saturation: u16 = if max == 0 {
            0
        } else {
            denormalize(chroma as i64, max as i64)
        };
        let hue: u16 = if chroma == 0 {
            0
        } else if max == r {
            degrees_to_u16(60 * (g as i32 - b as i32), chroma)
        } else if max == g {
            degrees_to_u16(60 * (2 * chroma + (b as i32 - r as i32)), chroma)
        } else {
            degrees_to_u16(60 * (4 * chroma + (r as i32 - g as i32)), chroma)
        };
        let brightness: u16 = denormalize(max as i64, 255);
        proof {
            lemma_degrees_full_turn(
                spec_hue_degrees_times_chroma(r as int, g as int, b as int),
                if chroma == 0 { 1 } else { chroma as int },
            );
            lemma_denormalize_bounds(chroma as int, if max == 0 { 1 } else { max as int });
            lemma_denormalize_bounds(max as int, 255);
        }
        Color { hue, saturation, brightness, kelvin: None }
    }
}

impl From<Color> for Hsbk {
    /// The colour as devices hold it, with the default colour temperature where it has
    /// none of its own.
    fn from(color: Color) -> (hsbk: Hsbk) {
        Hsbk::new(
            color.hue,
            color.saturation,
            color.brightness,
            match color.kelvin {
                Some(kelvin) => kelvin,
                None => DEFAULT_KELVIN,
            },
        )
    }
}

impl vstd::std_specs::convert::FromSpecImpl<Color> for Hsbk {
    open spec fn obeys_from_spec() -> bool {
        true
    }

    open spec fn from_spec(color: Color) -> Hsbk {
        color.spec_hsbk()
    }
}

impl From<Hsbk> for Color {
    /// What a device holds, as a colour that keeps its colour temperature.
    fn from(hsbk: Hsbk) -> (color: Color) {
        Color {
            hue: hsbk.hue(),
            saturation: hsbk.saturation(),
            brightness: hsbk.brightness(),
            kelvin: Some(hsbk.kelvin()),
        }
    }
}

impl vstd::std_specs::convert::FromSpecImpl<Hsbk> for Color {
    open spec fn obeys_from_spec() -> bool {
        true
    }

    open spec fn from_spec(hsbk: Hsbk) -> Color {
        Color::spec_of_hsbk(hsbk)
    }
}

/// A colour read from a device and sent back is the colour that the device held.
pub proof fn lemma_color_keeps_device_kelvin(hsbk: Hsbk)
    ensures
        Color::spec_of_hsbk(hsbk).spec_hsbk() == hsbk,
{
}

} // verus!
