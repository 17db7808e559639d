//! The serial line settings that take a number on the command line.
use vstd::prelude::*;

verus! {

/// Bits in each character.
#[derive(Clone, Copy, Debug, PartialEq, Eq, Structural)]
pub enum DataBitsOpt {
    Five,
    Six,
    Seven,
    Eight,
}

impl DataBitsOpt {
    pub open spec fn count(self) -> nat {
        match self {
            DataBitsOpt::Five => 5,
            DataBitsOpt::Six => 6,
            DataBitsOpt::Seven => 7,
            DataBitsOpt::Eight => 8,
        }
    }
}

/// A number of data bits that the serial line supports.
#[derive(Clone, Copy, Debug, PartialEq, Eq, Structural)]
pub struct DataBitsExt(pub DataBitsOpt);

impl DataBitsExt {
    /// The setting for `value` data bits: 5, 6, 7 or 8.
    pub fn try_from(value: usize) -> (r: Result<Self, ()>)
        ensures
            r is Ok <==> 5 <= value <= 8,
            r matches Ok(d) ==> d.0.count() == value,
    {
        match value {
            5 => Ok(DataBitsExt(DataBitsOpt::Five)),
            6 => Ok(DataBitsExt(DataBitsOpt::Six)),
            7 => Ok(DataBitsExt(DataBitsOpt::Seven)),
            8 => Ok(DataBitsExt(DataBitsOpt::Eight)),
            _ => Err(()),
        }
    }
}

/// Stop bits after each character.
#[derive(Clone, Copy, Debug, PartialEq, Eq, Structural)]
pub enum StopBitsOpt {
    One,
    Two,
}

impl StopBitsOpt {
    pub open spec fn count(self) -> nat {
        match self {
            StopBitsOpt::One => 1,
            StopBitsOpt::Two => 2,
        }
    }
}

/// A number of stop bits that the serial line supports.
#[derive(Clone, Copy, Debug, PartialEq, Eq, Structural)]
pub struct StopBitsExt(pub StopBitsOpt);

impl StopBitsExt {
    /// The setting for `value` stop bits: 1 or 2.
    pub fn try_from(value: usize) -> (r: Result<Self, ()>)
        ensures
            r is Ok <==> 1 <= value <= 2,
            r matches Ok(s) ==> s.0.count() == value,
    {
        match value {
            1 => Ok(StopBitsExt(StopBitsOpt::One)),
            2 => Ok(StopBitsExt(StopBitsOpt::Two)),
            _ => Err(()),
        }
    }
}

} // verus!
