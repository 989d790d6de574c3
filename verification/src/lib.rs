//! Heat exchange between colliding particles.
//!
//! Every particle carries a heat state: the energy it stores, its volume and
//! its material. When two particles touch, heat flows from the hotter to the
//! colder one through a small conductive disk, bounded so that a single step
//! can never drive a body below absolute zero.
//!
//! All quantities are whole numbers of one fixed system of units, so that
//! energy is moved exactly and never created or lost to rounding:
//!
//! | quantity               | unit                               |
//! |------------------------|------------------------------------|
//! | thermal conductivity   | watt per metre kelvin              |
//! | specific heat capacity | millijoule per kilogram kelvin     |
//! | density                | gram per cubic metre               |
//! | volume                 | nanolitre                          |
//! | mass                   | picogram                           |
//! | heat capacity          | attojoule per kelvin               |
//! | energy                 | attojoule                          |
//! | time                   | nanosecond                         |
//!
//! Temperatures are exact ratios of an energy to a heat capacity, in kelvin;
//! their mathematical model is a real number.

pub mod arena;
pub mod color;
pub mod conduction;
pub mod guarantees;
pub mod heat_body;
pub mod material;
pub mod rounding;
pub mod temperature;
pub mod wide;
