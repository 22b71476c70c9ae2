//! Error codes of the equation-to-macrocell stage.

use vstd::prelude::*;

verus! {

/// Why an equation was rejected.
#[derive(Clone, Copy, Debug, PartialEq, Eq, Structural)]
pub enum ErrorCode {
    /// The left-hand pin has no macrocell.
    NotAnOutput,
    /// VCC or GND appears negated.
    InvertedPower,
    /// An output enable comes before the output's own equation.
    PrematureENABLE,
    /// A clock comes before the output's own equation.
    PrematureCLK,
    /// An asynchronous reset comes before the output's own equation.
    PrematureARST,
    /// An asynchronous preset comes before the output's own equation.
    PrematureAPRST,
    /// An output enable on a combinatorial output.
    UnmatchedTristate,
    /// An output enable on a registered output of a GAL16V8 or GAL20V8.
    TristateReg,
    /// A clock, reset or preset on an output that is not registered.
    InvalidControl,
    /// A control equation with a negated left-hand side.
    InvertedControl,
    /// A second base equation for one output.
    RepeatedOutput,
    /// A second output enable for one output.
    RepeatedTristate,
    /// A second clock for one output.
    RepeatedCLK,
    /// A second asynchronous reset for one output.
    RepeatedARST,
    /// A second asynchronous preset for one output.
    RepeatedAPRST,
    /// AR or SP given twice, or on a device that has neither.
    RepeatedARSP,
}

/// An error code tagged with the source line of the offending equation.
#[derive(Clone, Copy, Debug, PartialEq, Eq, Structural)]
pub struct Error {
    pub code: ErrorCode,
    pub line: usize,
}

/// Tags the error of `res`, if any, with `line`.
pub fn at_line<T>(line: usize, res: Result<T, ErrorCode>) -> (r: Result<T, Error>)
    ensures
        res matches Ok(v) ==> r == Ok::<T, Error>(v),
        res matches Err(code) ==> r == Err::<T, Error>(Error { code, line }),
{
    match res {
        Ok(v) => Ok(v),
        Err(code) => Err(Error { code, line }),
    }
}

} // verus!
