//! The parsed form of a source file: the input of blueprint assembly.

use vstd::prelude::*;
use crate::chips::Chip;
use crate::gal::Pin;

verus! {

/// The modifier after an output pin's name.
#[derive(Clone, Copy, Debug, PartialEq, Eq, Structural)]
pub enum Suffix {
    /// No modifier: a combinatorial output.
    Plain,
    /// A tristate output.
    T,
    /// A registered output.
    R,
    /// The output-enable term of an output.
    E,
    /// The clock term of a registered output.
    CLK,
    /// The asynchronous-reset term of a registered output.
    ARST,
    /// The asynchronous-preset term of a registered output.
    APRST,
}

/// The left-hand side of an equation.
#[derive(Clone, Copy, Debug, PartialEq, Eq)]
pub enum LHS {
    Pin((Pin, Suffix)),
    Ar,
    Sp,
}

/// One equation: `lhs = rhs`, where `is_or[i]` says that an OR stands
/// before literal `i` (the flag of the first literal is ignored).
#[derive(Clone, Debug)]
pub struct Equation {
    pub line_num: usize,
    pub lhs: LHS,
    pub rhs: Vec<Pin>,
    pub is_or: Vec<bool>,
}

impl Equation {
    /// The OR flags run parallel to the literals.
    pub open spec fn wf(&self) -> bool {
        self.rhs@.len() == self.is_or@.len()
    }
}

/// A whole parsed source file.
#[derive(Clone, Debug)]
pub struct Content {
    pub chip: Chip,
    pub sig: Vec<u8>,
    pub pins: Vec<String>,
    pub eqns: Vec<Equation>,
}

impl Content {
    pub open spec fn wf(&self) -> bool {
        forall|i: int| 0 <= i < self.eqns@.len() ==> (#[trigger] self.eqns@[i]).wf()
    }
}

} // verus!
