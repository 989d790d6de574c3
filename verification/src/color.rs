//! From temperature to colour: the glow of a black body at that temperature.

use vstd::prelude::*;
use crate::rounding::truncate;
use crate::temperature::ThermodynamicTemperature;

verus! {

/// A colour of three channels, each from 0 to 255.
#[derive(Clone, Copy, Debug, PartialEq, Eq, Structural)]
pub struct Rgb {
    pub red: u8,
    pub green: u8,
    pub blue: u8,
}

/// The red, green and blue that `colortemp::temp_to_rgb` gives for a
/// temperature in whole kelvin.
pub uninterp spec fn black_body_channels(kelvin: i64) -> (u8, u8, u8);

/// Calls `colortemp::temp_to_rgb`, an approximation of a black body's colour
/// that works on the temperature in whole hundreds of kelvin. Its channels
/// are whole numbers from 0 to 255 held as floating-point values, and are
/// handed on as integers. The contract names the result and states the three
/// cases in which the function sets a channel to a constant: red below 6700
/// kelvin, blue from 6600 kelvin on, and blue below 2000 kelvin.
#[verifier::external_body]
fn temp_to_rgb(kelvin: i64) -> (channels: (u8, u8, u8))
    ensures
        channels == black_body_channels(kelvin),
        kelvin < 6700 ==> channels.0 == 255,
        kelvin >= 6600 ==> channels.2 == 255,
        kelvin < 2000 ==> channels.2 == 0,
{
    let rgb = colortemp::temp_to_rgb(kelvin);
    (rgb.r as u8, rgb.g as u8, rgb.b as u8)
}

/// The colour with the given channels.
pub open spec fn rgb_of(channels: (u8, u8, u8)) -> Rgb {
    Rgb { red: channels.0, green: channels.1, blue: channels.2 }
}

/// The black-body colour at the given temperature, which is first rounded
/// towards zero to whole kelvin.
pub fn black_body_color(temperature: &ThermodynamicTemperature) -> (color: Rgb)
    requires
        temperature.wf(),
    ensures
        color == rgb_of(black_body_channels(truncate(temperature@) as i64)),
        truncate(temperature@) < 6700 ==> color.red == 255,
        truncate(temperature@) >= 6600 ==> color.blue == 255,
        truncate(temperature@) < 2000 ==> color.blue == 0,
{
    let kelvin: i64 = temperature.whole_kelvin();
    let channels = temp_to_rgb(kelvin);
    Rgb { red: channels.0, green: channels.1, blue: channels.2 }
}

} // verus!
