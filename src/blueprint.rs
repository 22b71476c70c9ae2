//! Assembly of parsed equations into per-macrocell configurations.

use vstd::prelude::*;
use crate::chips::Chip;
use crate::errors::{at_line, Error, ErrorCode};
use crate::gal::{false_groups, false_term, true_groups, true_term, Pin, Term, TermModel};
use crate::parser::{Content, Equation, Suffix, LHS};

verus! {

/// Polarity of an output.
#[derive(Clone, Copy, Debug, PartialEq, Eq, Structural)]
pub enum Active {
    Low,
    High,
}

/// How an output macrocell drives its pin.
#[derive(Clone, Copy, Debug, PartialEq, Eq, Structural)]
pub enum PinMode {
    Combinatorial,
    Tristate,
    Registered,
}

/// The configuration of one output logic macrocell.
#[derive(Clone, Debug)]
pub struct OLMC {
    pub active: Active,
    pub output: Option<(PinMode, Term)>,
    pub tri_con: Option<Term>,
    pub clock: Option<Term>,
    pub arst: Option<Term>,
    pub aprst: Option<Term>,
    pub feedback: bool,
}

/// What a macrocell holds, with each term seen through its model.
pub struct OlmcModel {
    pub active: Active,
    pub output: Option<(PinMode, TermModel)>,
    pub tri_con: Option<TermModel>,
    pub clock: Option<TermModel>,
    pub arst: Option<TermModel>,
    pub aprst: Option<TermModel>,
    pub feedback: bool,
}

pub open spec fn term_opt(t: Option<Term>) -> Option<TermModel> {
    match t {
        Some(t) => Some(t@),
        None => None,
    }
}

impl View for OLMC {
    type V = OlmcModel;

    open spec fn view(&self) -> OlmcModel {
        OlmcModel {
            active: self.active,
            output: match self.output {
                Some((m, t)) => Some((m, t@)),
                None => None,
            },
            tri_con: term_opt(self.tri_con),
            clock: term_opt(self.clock),
            arst: term_opt(self.arst),
            aprst: term_opt(self.aprst),
            feedback: self.feedback,
        }
    }
}

/// A macrocell with nothing assigned.
pub open spec fn empty_olmc() -> OlmcModel {
    OlmcModel {
        active: Active::Low,
        output: None,
        tri_con: None,
        clock: None,
        arst: None,
        aprst: None,
        feedback: false,
    }
}

/// The output mode that a base suffix selects.
pub open spec fn base_mode(suffix: Suffix) -> PinMode {
    match suffix {
        Suffix::T => PinMode::Tristate,
        Suffix::R => PinMode::Registered,
        _ => PinMode::Combinatorial,
    }
}

pub open spec fn is_base_suffix(suffix: Suffix) -> bool {
    suffix == Suffix::Plain || suffix == Suffix::T || suffix == Suffix::R
}

impl OlmcModel {
    pub open spec fn is_registered(self) -> bool {
        self.output matches Some((PinMode::Registered, _))
    }

    /// Assigning the output's own term.
    pub open spec fn with_base(self, act_pin: Pin, term: TermModel, suffix: Suffix) -> Result<
        OlmcModel,
        ErrorCode,
    > {
        if self.output is Some {
            Err(ErrorCode::RepeatedOutput)
        } else {
            Ok(
                OlmcModel {
                    output: Some((base_mode(suffix), term)),
                    active: if act_pin.neg {
                        Active::Low
                    } else {
                        Active::High
                    },
                    ..self
                },
            )
        }
    }

    /// Assigning the output-enable term.
    pub open spec fn with_enable(self, chip: Chip, act_pin: Pin, term: TermModel) -> Result<
        OlmcModel,
        ErrorCode,
    > {
        if act_pin.neg {
            Err(ErrorCode::InvertedControl)
        } else if self.tri_con is Some {
            Err(ErrorCode::RepeatedTristate)
        } else {
            match self.output {
                None => Err(ErrorCode::PrematureENABLE),
                Some((PinMode::Combinatorial, _)) => Err(ErrorCode::UnmatchedTristate),
                Some((PinMode::Registered, _)) => {
                    if chip == Chip::GAL16V8 || chip == Chip::GAL20V8 {
                        Err(ErrorCode::TristateReg)
                    } else {
                        Ok(OlmcModel { tri_con: Some(term), ..self })
                    }
                },
                Some((PinMode::Tristate, _)) => Ok(OlmcModel { tri_con: Some(term), ..self }),
            }
        }
    }

    /// The error, if any, of a clock, reset or preset equation on this
    /// macrocell, given the code for "before the output's own equation"
    /// and the facet's current value.
    pub open spec fn control_error(
        self,
        act_pin: Pin,
        premature: ErrorCode,
        repeated: ErrorCode,
        current: Option<TermModel>,
    ) -> Option<ErrorCode> {
        if act_pin.neg {
            Some(ErrorCode::InvertedControl)
        } else if self.output is None {
            Some(premature)
        } else if !self.is_registered() {
            Some(ErrorCode::InvalidControl)
        } else if current is Some {
            Some(repeated)
        } else {
            None
        }
    }

    pub open spec fn with_clock(self, act_pin: Pin, term: TermModel) -> Result<OlmcModel, ErrorCode> {
        match self.control_error(act_pin, ErrorCode::PrematureCLK, ErrorCode::RepeatedCLK, self.clock) {
            Some(e) => Err(e),
            None => Ok(OlmcModel { clock: Some(term), ..self }),
        }
    }

    pub open spec fn with_arst(self, act_pin: Pin, term: TermModel) -> Result<OlmcModel, ErrorCode> {
        match self.control_error(act_pin, ErrorCode::PrematureARST, ErrorCode::RepeatedARST, self.arst) {
            Some(e) => Err(e),
            None => Ok(OlmcModel { arst: Some(term), ..self }),
        }
    }

    pub open spec fn with_aprst(self, act_pin: Pin, term: TermModel) -> Result<OlmcModel, ErrorCode> {
        match self.control_error(
            act_pin,
            ErrorCode::PrematureAPRST,
            ErrorCode::RepeatedAPRST,
            self.aprst,
        ) {
            Some(e) => Err(e),
            None => Ok(OlmcModel { aprst: Some(term), ..self }),
        }
    }

    /// Assigning `term` to the facet that `suffix` names.
    pub open spec fn with_suffix(self, chip: Chip, act_pin: Pin, suffix: Suffix, term: TermModel) -> Result<
        OlmcModel,
        ErrorCode,
    > {
        match suffix {
            Suffix::E => self.with_enable(chip, act_pin, term),
            Suffix::CLK => self.with_clock(act_pin, term),
            Suffix::ARST => self.with_arst(act_pin, term),
            Suffix::APRST => self.with_aprst(act_pin, term),
            _ => self.with_base(act_pin, term, suffix),
        }
    }
}

/// A setter left `after` with result `r`, as `outcome` prescribes: the new
/// state on success, the old one unchanged on error.
pub open spec fn applied(
    before: OlmcModel,
    after: OlmcModel,
    r: Result<(), ErrorCode>,
    outcome: Result<OlmcModel, ErrorCode>,
) -> bool {
    match outcome {
        Ok(o) => r is Ok && after == o,
        Err(e) => r == Err::<(), ErrorCode>(e) && after == before,
    }
}

impl OLMC {
    pub fn set_base(&mut self, act_pin: &Pin, term: Term, suffix: Suffix) -> (r: Result<(), ErrorCode>)
        requires
            is_base_suffix(suffix),
        ensures
            applied(old(self)@, final(self)@, r, old(self)@.with_base(*act_pin, term@, suffix)),
            old(self).output is Some ==> r == Err::<(), ErrorCode>(ErrorCode::RepeatedOutput),
    {
        if self.output.is_some() {
            return Err(ErrorCode::RepeatedOutput);
        }
        let mode = match suffix {
            Suffix::T => PinMode::Tristate,
            Suffix::R => PinMode::Registered,
            _ => PinMode::Combinatorial,
        };
        self.output = Some((mode, term));
        self.active = if act_pin.neg {
            Active::Low
        } else {
            Active::High
        };
        Ok(())
    }

    pub fn set_enable(&mut self, chip: Chip, act_pin: &Pin, term: Term) -> (r: Result<(), ErrorCode>)
        ensures
            applied(old(self)@, final(self)@, r, old(self)@.with_enable(chip, *act_pin, term@)),
    {
        if act_pin.neg {
            return Err(ErrorCode::InvertedControl);
        }
        if self.tri_con.is_some() {
            return Err(ErrorCode::RepeatedTristate);
        }
        match &self.output {
            None => {
                return Err(ErrorCode::PrematureENABLE);
            },
            Some((PinMode::Registered, _)) => {
                if chip == Chip::GAL16V8 || chip == Chip::GAL20V8 {
                    return Err(ErrorCode::TristateReg);
                }
            },
            Some((PinMode::Combinatorial, _)) => {
                return Err(ErrorCode::UnmatchedTristate);
            },
            Some((PinMode::Tristate, _)) => {},
        }
        self.tri_con = Some(term);
        Ok(())
    }

    /// Checks shared by the clock, reset and preset setters, before the
    /// facet itself is looked at.
    fn control_precheck(&self, act_pin: &Pin, premature: ErrorCode) -> (r: Option<ErrorCode>)
        ensures
            r == self@.control_error(*act_pin, premature, premature, None),
    {
        if act_pin.neg {
            return Some(ErrorCode::InvertedControl);
        }
        match &self.output {
            None => Some(premature),
            Some((PinMode::Registered, _)) => None,
            _ => Some(ErrorCode::InvalidControl),
        }
    }

    pub fn set_clock(&mut self, act_pin: &Pin, term: Term) -> (r: Result<(), ErrorCode>)
        ensures
            applied(old(self)@, final(self)@, r, old(self)@.with_clock(*act_pin, term@)),
    {
        if let Some(e) = self.control_precheck(act_pin, ErrorCode::PrematureCLK) {
            return Err(e);
        }
        if self.clock.is_some() {
            return Err(ErrorCode::RepeatedCLK);
        }
        self.clock = Some(term);
        Ok(())
    }

    pub fn set_arst(&mut self, act_pin: &Pin, term: Term) -> (r: Result<(), ErrorCode>)
        ensures
            applied(old(self)@, final(self)@, r, old(self)@.with_arst(*act_pin, term@)),
    {
        if let Some(e) = self.control_precheck(act_pin, ErrorCode::PrematureARST) {
            return Err(e);
        }
        if self.arst.is_some() {
            return Err(ErrorCode::RepeatedARST);
        }
        self.arst = Some(term);
        Ok(())
    }

    pub fn set_aprst(&mut self, act_pin: &Pin, term: Term) -> (r: Result<(), ErrorCode>)
        ensures
            applied(old(self)@, final(self)@, r, old(self)@.with_aprst(*act_pin, term@)),
    {
        if let Some(e) = self.control_precheck(act_pin, ErrorCode::PrematureAPRST) {
            return Err(e);
        }
        if self.aprst.is_some() {
            return Err(ErrorCode::RepeatedAPRST);
        }
        self.aprst = Some(term);
        Ok(())
    }
}


/// The AND-groups of the first `n` literals of `rhs`: a literal whose OR
/// flag is set (but for the first) opens a new group.
pub open spec fn and_groups(rhs: Seq<Pin>, is_or: Seq<bool>, n: nat) -> Seq<Seq<Pin>>
    decreases n,
{
    if n == 0 {
        seq![Seq::empty()]
    } else {
        let k = (n - 1) as nat;
        let g = and_groups(rhs, is_or, k);
        if k > 0 && is_or[k as int] {
            g.push(seq![rhs[k as int]])
        } else {
            g.update(g.len() - 1, g.last().push(rhs[k as int]))
        }
    }
}

/// The term that an equation's right-hand side denotes on `chip`: a lone
/// VCC (pin `num_pins`) is constant true, a lone GND (pin `num_pins / 2`)
/// constant false, and either one negated is an error.
pub open spec fn lowered(chip: Chip, eqn: Equation) -> Result<TermModel, ErrorCode> {
    let rhs = eqn.rhs@;
    let vcc = chip.pin_count();
    let gnd = chip.pin_count() / 2;
    if rhs.len() == 1 && (rhs[0].pin == vcc || rhs[0].pin == gnd) {
        if rhs[0].neg {
            Err(ErrorCode::InvertedPower)
        } else if rhs[0].pin == vcc {
            Ok(TermModel { line_num: eqn.line_num, pins: true_groups() })
        } else {
            Ok(TermModel { line_num: eqn.line_num, pins: false_groups() })
        }
    } else {
        Ok(TermModel { line_num: eqn.line_num, pins: and_groups(rhs, eqn.is_or@, rhs.len()) })
    }
}

/// Lowers an equation's right-hand side into a sum-of-products term.
pub fn eqn_to_term(chip: Chip, eqn: &Equation) -> (r: Result<Term, ErrorCode>)
    requires
        eqn.wf(),
    ensures
        match lowered(chip, *eqn) {
            Ok(t) => r matches Ok(term) && term@ == t,
            Err(e) => r == Err::<Term, ErrorCode>(e),
        },
        eqn.rhs@.len() == 1 && eqn.rhs@[0] == (Pin { pin: chip.pin_count() as usize, neg: false })
            ==> (r matches Ok(term) && term@.pins == true_groups()),
        eqn.rhs@.len() == 1 && eqn.rhs@[0] == (Pin { pin: (chip.pin_count() / 2) as usize, neg: false })
            ==> (r matches Ok(term) && term@.pins == false_groups()),
        eqn.rhs@.len() == 1 && eqn.rhs@[0].neg && (eqn.rhs@[0].pin == chip.pin_count()
            || eqn.rhs@[0].pin == chip.pin_count() / 2) ==> r == Err::<Term, ErrorCode>(
            ErrorCode::InvertedPower,
        ),
{
    let n = eqn.rhs.len();
    if n == 1 {
        let pin = eqn.rhs[0];
        if pin.pin == chip.num_pins() {
            if pin.neg {
                return Err(ErrorCode::InvertedPower);
            }
            return Ok(true_term(eqn.line_num));
        } else if pin.pin == chip.num_pins() / 2 {
            if pin.neg {
                return Err(ErrorCode::InvertedPower);
            }
            return Ok(false_term(eqn.line_num));
        }
    }
    let mut ors: Vec<Vec<Pin>> = Vec::new();
    let mut ands: Vec<Pin> = Vec::new();
    let mut i: usize = 0;
    while i < n
        invariant
            n == eqn.rhs@.len(),
            eqn.wf(),
            i <= n,
            ors@.map_values(|g: Vec<Pin>| g@).push(ands@) == and_groups(eqn.rhs@, eqn.is_or@, i as nat),
        decreases n - i,
    {
        let ghost before = ors@.map_values(|g: Vec<Pin>| g@);
        if i > 0 && eqn.is_or[i] {
            ors.push(ands);
            ands = Vec::new();
            assert(ors@.map_values(|g: Vec<Pin>| g@) =~= before.push(
                and_groups(eqn.rhs@, eqn.is_or@, i as nat).last(),
            ));
        }
        ands.push(eqn.rhs[i]);
        i = i + 1;
        assert(ors@.map_values(|g: Vec<Pin>| g@).push(ands@) =~= and_groups(
            eqn.rhs@,
            eqn.is_or@,
            i as nat,
        ));
    }
    ors.push(ands);
    let r = Term { line_num: eqn.line_num, pins: ors };
    assert(r@.pins =~= and_groups(eqn.rhs@, eqn.is_or@, n as nat));
    Ok(r)
}


/// Everything that a blueprint holds.
pub struct Blueprint {
    pub chip: Chip,
    pub sig: Vec<u8>,
    pub pins: Vec<String>,
    pub olmcs: Vec<OLMC>,
    /// Global asynchronous reset (GAL22V10 only).
    pub ar: Option<Term>,
    /// Global synchronous preset (GAL22V10 only).
    pub sp: Option<Term>,
}

/// The part of a blueprint that equations fill in.
pub struct BlueprintModel {
    pub olmcs: Seq<OlmcModel>,
    pub ar: Option<TermModel>,
    pub sp: Option<TermModel>,
}

impl View for Blueprint {
    type V = BlueprintModel;

    open spec fn view(&self) -> BlueprintModel {
        BlueprintModel {
            olmcs: self.olmcs@.map_values(|o: OLMC| o@),
            ar: term_opt(self.ar),
            sp: term_opt(self.sp),
        }
    }
}

/// No equation applied yet: every macrocell empty, no AR or SP.
pub open spec fn initial_model(chip: Chip) -> BlueprintModel {
    BlueprintModel { olmcs: Seq::new(chip.olmc_count(), |i: int| empty_olmc()), ar: None, sp: None }
}

/// Some literal of `rhs` is on the pin of macrocell `olmc`.
pub open spec fn feeds(chip: Chip, rhs: Seq<Pin>, olmc: int) -> bool {
    exists|k: int| 0 <= k < rhs.len() && chip.olmc_of(#[trigger] rhs[k].pin as int) == Some(olmc as nat)
}

/// Marks as feedback every macrocell whose pin `rhs` reads.
pub open spec fn mark_feedback(chip: Chip, olmcs: Seq<OlmcModel>, rhs: Seq<Pin>) -> Seq<OlmcModel> {
    Seq::new(
        olmcs.len(),
        |i: int|
            if feeds(chip, rhs, i) {
                OlmcModel { feedback: true, ..olmcs[i] }
            } else {
                olmcs[i]
            },
    )
}

/// The result of applying one equation to `st`.
pub open spec fn equation_outcome(chip: Chip, st: BlueprintModel, eqn: Equation) -> Result<
    BlueprintModel,
    ErrorCode,
> {
    let marked = BlueprintModel { olmcs: mark_feedback(chip, st.olmcs, eqn.rhs@), ..st };
    match lowered(chip, eqn) {
        Err(e) => Err(e),
        Ok(t) => match eqn.lhs {
            LHS::Ar => {
                if chip != Chip::GAL22V10 || st.ar is Some {
                    Err(ErrorCode::RepeatedARSP)
                } else {
                    Ok(BlueprintModel { ar: Some(t), ..marked })
                }
            },
            LHS::Sp => {
                if chip != Chip::GAL22V10 || st.sp is Some {
                    Err(ErrorCode::RepeatedARSP)
                } else {
                    Ok(BlueprintModel { sp: Some(t), ..marked })
                }
            },
            LHS::Pin((p, suffix)) => match chip.olmc_of(p.pin as int) {
                None => Err(ErrorCode::NotAnOutput),
                Some(i) => match marked.olmcs[i as int].with_suffix(chip, p, suffix, t) {
                    Ok(o) => Ok(BlueprintModel { olmcs: marked.olmcs.update(i as int, o), ..marked }),
                    Err(e) => Err(e),
                },
            },
        },
    }
}

/// The result of applying the first `n` equations in order, stopping at
/// the first error, which is tagged with its equation's line.
pub open spec fn assembled(chip: Chip, eqns: Seq<Equation>, n: nat) -> Result<BlueprintModel, Error>
    decreases n,
{
    if n == 0 {
        Ok(initial_model(chip))
    } else {
        match assembled(chip, eqns, (n - 1) as nat) {
            Err(e) => Err(e),
            Ok(st) => match equation_outcome(chip, st, eqns[n - 1]) {
                Ok(next) => Ok(next),
                Err(code) => Err(Error { code, line: eqns[n - 1].line_num }),
            },
        }
    }
}

/// Once an equation fails, applying more equations keeps that error.
proof fn lemma_assembled_error_stays(chip: Chip, eqns: Seq<Equation>, i: nat, n: nat)
    requires
        i <= n,
        assembled(chip, eqns, i) is Err,
    ensures
        assembled(chip, eqns, n) == assembled(chip, eqns, i),
    decreases n - i,
{
    if i < n {
        lemma_assembled_error_stays(chip, eqns, i, (n - 1) as nat);
    }
}

impl Blueprint {
    /// One macrocell record for each output of the device.
    pub open spec fn wf(&self) -> bool {
        self.olmcs@.len() == self.chip.olmc_count()
    }

    pub fn new(chip: Chip) -> (r: Self)
        ensures
            r.wf(),
            r.chip == chip,
            r.sig@.len() == 0,
            r.pins@.len() == 0,
            r@ == initial_model(chip),
    {
        let n = chip.num_olmcs();
        let mut olmcs: Vec<OLMC> = Vec::new();
        let mut i: usize = 0;
        while i < n
            invariant
                i <= n,
                olmcs@.len() == i,
                forall|j: int| 0 <= j < i ==> (#[trigger] olmcs@[j])@ == empty_olmc(),
            decreases n - i,
        {
            olmcs.push(
                OLMC {
                    active: Active::Low,
                    output: None,
                    tri_con: None,
                    clock: None,
                    arst: None,
                    aprst: None,
                    feedback: false,
                },
            );
            i = i + 1;
        }
        let r = Blueprint { chip, sig: Vec::new(), pins: Vec::new(), olmcs, ar: None, sp: None };
        assert(r@.olmcs =~= initial_model(chip).olmcs);
        r
    }

    /// Applies one equation: marks the macrocells that its right-hand side
    /// reads as feedback, lowers it, and steers the term to AR, SP or the
    /// facet of the macrocell that its left-hand side names.
    pub fn add_equation(&mut self, eqn: &Equation) -> (r: Result<(), ErrorCode>)
        requires
            old(self).wf(),
            eqn.wf(),
        ensures
            final(self).wf(),
            final(self).chip == old(self).chip,
            final(self).sig == old(self).sig,
            final(self).pins == old(self).pins,
            match equation_outcome(old(self).chip, old(self)@, *eqn) {
                Ok(st) => r is Ok && final(self)@ == st,
                Err(e) => r == Err::<(), ErrorCode>(e) && final(self)@ == (BlueprintModel {
                    olmcs: mark_feedback(old(self).chip, old(self)@.olmcs, eqn.rhs@),
                    ..old(self)@
                }),
            },
            eqn.lhs matches LHS::Pin((p, _)) && lowered(old(self).chip, *eqn) is Ok
                && old(self).chip.olmc_of(p.pin as int) is None ==> r == Err::<(), ErrorCode>(
                ErrorCode::NotAnOutput,
            ),
    {
        let chip = self.chip;
        let ghost start = self@.olmcs;
        let n = eqn.rhs.len();
        let mut k: usize = 0;
        while k < n
            invariant
                n == eqn.rhs@.len(),
                k <= n,
                self.chip == chip,
                self.wf(),
                self.sig == old(self).sig,
                self.pins == old(self).pins,
                self.ar == old(self).ar,
                self.sp == old(self).sp,
                start == old(self)@.olmcs,
                self@.olmcs == mark_feedback(chip, start, eqn.rhs@.take(k as int)),
            decreases n - k,
        {
            let ghost prev = self@.olmcs;
            if let Some(i) = chip.pin_to_olmc(eqn.rhs[k].pin) {
                self.olmcs[i].feedback = true;
                assert(self@.olmcs =~= prev.update(
                    i as int,
                    OlmcModel { feedback: true, ..prev[i as int] },
                ));
            } else {
                assert(self@.olmcs =~= prev);
            }
            k = k + 1;
            proof {
                let pre = eqn.rhs@.take(k - 1);
                let cur = eqn.rhs@.take(k as int);
                assert forall|i: int| 0 <= i < start.len() implies feeds(chip, cur, i) == (feeds(
                    chip,
                    pre,
                    i,
                ) || chip.olmc_of(eqn.rhs@[k - 1].pin as int) == Some(i as nat)) by {
                    if feeds(chip, pre, i) {
                        let w = choose|w: int|
                            0 <= w < pre.len() && chip.olmc_of(#[trigger] pre[w].pin as int) == Some(
                                i as nat,
                            );
                        assert(cur[w] == pre[w]);
                    }
                    if feeds(chip, cur, i) {
                        let w = choose|w: int|
                            0 <= w < cur.len() && chip.olmc_of(#[trigger] cur[w].pin as int) == Some(
                                i as nat,
                            );
                        if w < k - 1 {
                            assert(pre[w] == cur[w]);
                        }
                    }
                    if chip.olmc_of(eqn.rhs@[k - 1].pin as int) == Some(i as nat) {
                        assert(cur[k - 1] == eqn.rhs@[k - 1]);
                    }
                }
                assert forall|i: int| 0 <= i < start.len() implies #[trigger] self@.olmcs[i]
                    == mark_feedback(chip, start, cur)[i] by {
                    if chip.olmc_of(eqn.rhs@[k - 1].pin as int) == Some(i as nat) {
                        assert(self@.olmcs[i] == OlmcModel { feedback: true, ..prev[i] });
                    }
                }
                assert(self@.olmcs =~= mark_feedback(chip, start, cur));
            }
        }
        assert(eqn.rhs@.take(n as int) =~= eqn.rhs@);
        let term = match eqn_to_term(chip, eqn) {
            Ok(t) => t,
            Err(e) => {
                return Err(e);
            },
        };
        match &eqn.lhs {
            LHS::Ar => {
                if chip != Chip::GAL22V10 || self.ar.is_some() {
                    return Err(ErrorCode::RepeatedARSP);
                }
                self.ar = Some(term);
                Ok(())
            },
            LHS::Sp => {
                if chip != Chip::GAL22V10 || self.sp.is_some() {
                    return Err(ErrorCode::RepeatedARSP);
                }
                self.sp = Some(term);
                Ok(())
            },
            LHS::Pin((act_pin, suffix)) => {
                let i = match chip.pin_to_olmc(act_pin.pin) {
                    None => {
                        return Err(ErrorCode::NotAnOutput);
                    },
                    Some(i) => i,
                };
                let ghost marked = self@.olmcs;
                let res = match *suffix {
                    Suffix::E => self.olmcs[i].set_enable(chip, act_pin, term),
                    Suffix::CLK => self.olmcs[i].set_clock(act_pin, term),
                    Suffix::ARST => self.olmcs[i].set_arst(act_pin, term),
                    Suffix::APRST => self.olmcs[i].set_aprst(act_pin, term),
                    _ => self.olmcs[i].set_base(act_pin, term, *suffix),
                };
                assert(self@.olmcs =~= marked.update(i as int, self.olmcs@[i as int]@));
                proof {
                    if res is Err {
                        assert(self@.olmcs =~= marked);
                    }
                }
                res
            },
        }
    }

    /// Builds the blueprint of a parsed file: applies its equations in
    /// source order, stops at the first error (tagged with its line), and
    /// copies the signature and the pin names.
    pub fn from(content: &Content) -> (r: Result<Self, Error>)
        requires
            content.wf(),
        ensures
            match assembled(content.chip, content.eqns@, content.eqns@.len()) {
                Ok(st) => r matches Ok(bp) && bp.wf() && bp@ == st && bp.chip == content.chip
                    && bp.sig@ == content.sig@ && bp.pins@ == content.pins@,
                Err(e) => r == Err::<Self, Error>(e),
            },
    {
        let mut blueprint = Blueprint::new(content.chip);
        let n = content.eqns.len();
        let mut i: usize = 0;
        while i < n
            invariant
                n == content.eqns@.len(),
                i <= n,
                content.wf(),
                blueprint.wf(),
                blueprint.chip == content.chip,
                assembled(content.chip, content.eqns@, i as nat) == Ok::<BlueprintModel, Error>(
                    blueprint@,
                ),
            decreases n - i,
        {
            let eqn = &content.eqns[i];
            assert(eqn.wf());
            let res = blueprint.add_equation(eqn);
            match at_line(eqn.line_num, res) {
                Ok(()) => {},
                Err(e) => {
                    proof {
                        assert(assembled(content.chip, content.eqns@, (i + 1) as nat) == Err::<
                            BlueprintModel,
                            Error,
                        >(e));
                        lemma_assembled_error_stays(
                            content.chip,
                            content.eqns@,
                            (i + 1) as nat,
                            n as nat,
                        );
                    }
                    return Err(e);
                },
            }
            i = i + 1;
        }
        blueprint.sig = content.sig.clone();
        blueprint.pins = content.pins.clone();
        assert(blueprint.sig@ =~= content.sig@);
        assert(blueprint.pins@ =~= content.pins@);
        Ok(blueprint)
    }
}

} // verus!
