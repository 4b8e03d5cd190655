//! Package sizes.

use vstd::prelude::*;

verus! {

/// The package of a part; for the packages with leads, the number of leads.
#[derive(Clone, Copy, Debug, PartialEq, Eq, Structural)]
pub enum SizeCode {
    I0201,
    I0402,
    I0603,
    I0805,
    I1206,
    I1210,
    I2010,
    I2512,
    SOT23,
    SOT223,
    SOIC(u32),
    TSSOP(u32),
    QFN(u32),
    Custom,
}

} // verus!
