//! Components built from signals: a register, a strobe, a pulse width
//! modulator, a table, a light that breathes, and eight such lights on a
//! board.

pub mod dff;
pub mod fader;
pub mod pwm;
pub mod pwm_vec;
pub mod strobe;
pub mod sync_rom;
