//! Literals and sum-of-products terms.

use vstd::prelude::*;

verus! {

/// A pin literal: a pin number and whether it is negated.
#[derive(Clone, Copy, Debug, PartialEq, Eq, Structural)]
pub struct Pin {
    pub pin: usize,
    pub neg: bool,
}

/// A sum of products: `pins` is an OR of AND-groups of literals.
/// `[[]]` is constant true and `[]` constant false.
#[derive(Clone, Debug, PartialEq, Eq)]
pub struct Term {
    pub line_num: usize,
    pub pins: Vec<Vec<Pin>>,
}

/// What a term denotes: its source line and its AND-groups.
pub struct TermModel {
    pub line_num: usize,
    pub pins: Seq<Seq<Pin>>,
}

impl View for Term {
    type V = TermModel;

    open spec fn view(&self) -> TermModel {
        TermModel { line_num: self.line_num, pins: self.pins@.map_values(|g: Vec<Pin>| g@) }
    }
}

/// The groups of the constant-true term: one empty AND-group.
pub open spec fn true_groups() -> Seq<Seq<Pin>> {
    seq![Seq::empty()]
}

/// The groups of the constant-false term: no AND-group at all.
pub open spec fn false_groups() -> Seq<Seq<Pin>> {
    Seq::empty()
}

pub fn true_term(line_num: usize) -> (r: Term)
    ensures
        r@ == (TermModel { line_num, pins: true_groups() }),
{
    let r = Term { line_num, pins: vec![Vec::new()] };
    assert(r@.pins =~= true_groups());
    r
}

pub fn false_term(line_num: usize) -> (r: Term)
    ensures
        r@ == (TermModel { line_num, pins: false_groups() }),
{
    let r = Term { line_num, pins: Vec::new() };
    assert(r@.pins =~= false_groups());
    r
}

} // verus!
