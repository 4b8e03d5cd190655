//! Parts for printed circuit boards: what a part is called, who makes it,
//! where its pins sit and how it is drawn.

pub mod adc;
pub mod analog_devices;
pub mod bom;
pub mod circuit;
pub mod designator;
pub mod epin;
pub mod glyph;
pub mod isolators;
pub mod smd;
pub mod utils;
