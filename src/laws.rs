//! Facts that hold of every blueprint that assembly produces.

use vstd::prelude::*;
use crate::blueprint::{
    assembled, equation_outcome, feeds, is_base_suffix, lowered, mark_feedback, BlueprintModel,
    OlmcModel, PinMode,
};
use crate::errors::ErrorCode;
use crate::gal::Pin;
use crate::parser::{Suffix, LHS};
use crate::chips::Chip;
use crate::parser::{Content, Equation};

verus! {

/// The facet rules of one macrocell: every control term needs an output,
/// clock, reset and preset need a registered one, an output enable never
/// sits on a combinatorial output, and on a GAL16V8 or GAL20V8 never on a
/// registered one.
pub open spec fn olmc_consistent(chip: Chip, o: OlmcModel) -> bool {
    &&& (o.tri_con is Some || o.clock is Some || o.arst is Some || o.aprst is Some) ==> o.output is Some
    &&& (o.clock is Some || o.arst is Some || o.aprst is Some) ==> o.is_registered()
    &&& o.tri_con is Some ==> !(o.output matches Some((PinMode::Combinatorial, _)))
    &&& (chip == Chip::GAL16V8 || chip == Chip::GAL20V8) ==> !(o.is_registered() && o.tri_con is Some)
}

/// Every macrocell obeys the facet rules, and AR and SP are set only on a
/// GAL22V10.
pub open spec fn model_consistent(chip: Chip, st: BlueprintModel) -> bool {
    &&& st.olmcs.len() == chip.olmc_count()
    &&& forall|i: int| 0 <= i < st.olmcs.len() ==> olmc_consistent(chip, #[trigger] st.olmcs[i])
    &&& st.ar is Some ==> chip == Chip::GAL22V10
    &&& st.sp is Some ==> chip == Chip::GAL22V10
}

/// Some equation among the first `n` reads the pin of macrocell `olmc`.
pub open spec fn read_by(chip: Chip, eqns: Seq<Equation>, n: nat, olmc: int) -> bool {
    exists|j: int| 0 <= j < n && feeds(chip, (#[trigger] eqns[j]).rhs@, olmc)
}

/// The feedback flags record exactly the macrocells read so far.
pub open spec fn feedback_exact(chip: Chip, eqns: Seq<Equation>, n: nat, st: BlueprintModel) -> bool {
    forall|i: int| 0 <= i < st.olmcs.len() ==> (#[trigger] st.olmcs[i]).feedback == read_by(chip, eqns, n, i)
}

proof fn lemma_step(chip: Chip, st: BlueprintModel, eqn: Equation)
    requires
        model_consistent(chip, st),
    ensures
        equation_outcome(chip, st, eqn) matches Ok(next) ==> model_consistent(chip, next)
            && forall|i: int| 0 <= i < next.olmcs.len() ==> (#[trigger] next.olmcs[i]).feedback == (
            st.olmcs[i].feedback || feeds(chip, eqn.rhs@, i)),
{
    let marked = mark_feedback(chip, st.olmcs, eqn.rhs@);
    assert forall|i: int| 0 <= i < marked.len() implies olmc_consistent(chip, #[trigger] marked[i])
        by {
        assert(olmc_consistent(chip, st.olmcs[i]));
    }
}

proof fn lemma_assembled(chip: Chip, eqns: Seq<Equation>, n: nat)
    ensures
        assembled(chip, eqns, n) matches Ok(st) ==> model_consistent(chip, st) && feedback_exact(
            chip,
            eqns,
            n,
            st,
        ),
    decreases n,
{
    if n > 0 {
        let k = (n - 1) as nat;
        lemma_assembled(chip, eqns, k);
        if let Ok(st) = assembled(chip, eqns, k) {
            lemma_step(chip, st, eqns[k as int]);
            if let Ok(next) = equation_outcome(chip, st, eqns[k as int]) {
                assert forall|i: int| 0 <= i < next.olmcs.len() implies (#[trigger] next.olmcs[i]).feedback
                    == read_by(chip, eqns, n, i) by {
                    if read_by(chip, eqns, n, i) {
                        let j = choose|j: int| 0 <= j < n && feeds(chip, (#[trigger] eqns[j]).rhs@, i);
                        if j < k {
                            assert(read_by(chip, eqns, k, i));
                        }
                    }
                    if read_by(chip, eqns, k, i) {
                        let j = choose|j: int| 0 <= j < k && feeds(chip, (#[trigger] eqns[j]).rhs@, i);
                        assert(read_by(chip, eqns, n, i));
                    }
                    if feeds(chip, eqns[k as int].rhs@, i) {
                        assert(read_by(chip, eqns, n, i));
                    }
                }
            }
        }
    } else {
        assert(crate::blueprint::initial_model(chip).olmcs.len() == chip.olmc_count());
    }
}

/// In an assembled blueprint, a macrocell with an output-enable, clock,
/// reset or preset term also has an output term.
pub proof fn lemma_controls_need_output(content: Content, i: int)
    ensures
        assembled(content.chip, content.eqns@, content.eqns@.len()) matches Ok(st) ==> (0 <= i
            < st.olmcs.len() ==> {
            let o = st.olmcs[i];
            (o.tri_con is Some || o.clock is Some || o.arst is Some || o.aprst is Some)
                ==> o.output is Some
        }),
{
    lemma_assembled(content.chip, content.eqns@, content.eqns@.len());
}

/// In an assembled blueprint, a macrocell with a clock, reset or preset
/// term is registered.
pub proof fn lemma_controls_need_register(content: Content, i: int)
    ensures
        assembled(content.chip, content.eqns@, content.eqns@.len()) matches Ok(st) ==> (0 <= i
            < st.olmcs.len() ==> {
            let o = st.olmcs[i];
            (o.clock is Some || o.arst is Some || o.aprst is Some) ==> o.is_registered()
        }),
{
    lemma_assembled(content.chip, content.eqns@, content.eqns@.len());
}

/// On a GAL16V8 or GAL20V8, no macrocell of an assembled blueprint is both
/// registered and given an output-enable term.
pub proof fn lemma_no_registered_tristate(content: Content, i: int)
    requires
        content.chip == Chip::GAL16V8 || content.chip == Chip::GAL20V8,
    ensures
        assembled(content.chip, content.eqns@, content.eqns@.len()) matches Ok(st) ==> (0 <= i
            < st.olmcs.len() ==> !(st.olmcs[i].is_registered() && st.olmcs[i].tri_con is Some)),
{
    lemma_assembled(content.chip, content.eqns@, content.eqns@.len());
}

/// An assembled blueprint has a global reset or preset term only on a
/// GAL22V10.
pub proof fn lemma_global_terms_only_22v10(content: Content)
    ensures
        assembled(content.chip, content.eqns@, content.eqns@.len()) matches Ok(st) ==> (st.ar
            is Some ==> content.chip == Chip::GAL22V10) && (st.sp is Some ==> content.chip
            == Chip::GAL22V10),
{
    lemma_assembled(content.chip, content.eqns@, content.eqns@.len());
}

/// In an assembled blueprint, macrocell `i` is marked as feedback exactly
/// when the right-hand side of some equation reads its pin.
pub proof fn lemma_feedback_exact(content: Content, i: int)
    ensures
        assembled(content.chip, content.eqns@, content.eqns@.len()) matches Ok(st) ==> (0 <= i
            < st.olmcs.len() ==> (st.olmcs[i].feedback <==> exists|j: int, k: int|
            0 <= j < content.eqns@.len() && 0 <= k < content.eqns@[j].rhs@.len()
                && content.chip.olmc_of(#[trigger] content.eqns@[j].rhs@[k].pin as int) == Some(
                i as nat,
            ))),
{
    let eqns = content.eqns@;
    let n = eqns.len();
    lemma_assembled(content.chip, eqns, n);
    if let Ok(st) = assembled(content.chip, eqns, n) {
        if 0 <= i < st.olmcs.len() {
            if st.olmcs[i].feedback {
                let j = choose|j: int| 0 <= j < n && feeds(content.chip, (#[trigger] eqns[j]).rhs@, i);
                let k = choose|k: int|
                    0 <= k < eqns[j].rhs@.len() && content.chip.olmc_of(
                        #[trigger] eqns[j].rhs@[k].pin as int,
                    ) == Some(i as nat);
                assert(content.chip.olmc_of(content.eqns@[j].rhs@[k].pin as int) == Some(i as nat));
            }
            if exists|j: int, k: int|
                0 <= j < n && 0 <= k < eqns[j].rhs@.len() && content.chip.olmc_of(
                    #[trigger] eqns[j].rhs@[k].pin as int,
                ) == Some(i as nat) {
                let (j, k) = choose|j: int, k: int|
                    0 <= j < n && 0 <= k < eqns[j].rhs@.len() && content.chip.olmc_of(
                        #[trigger] eqns[j].rhs@[k].pin as int,
                    ) == Some(i as nat);
                assert(feeds(content.chip, eqns[j].rhs@, i));
                assert(read_by(content.chip, eqns, n, i));
            }
        }
    }
}

/// A second base equation (plain, `.T` or `.R`) for a macrocell whose
/// output is already set fails with `RepeatedOutput`, whatever either
/// suffix was.
pub proof fn lemma_second_base_repeated(
    chip: Chip,
    st: BlueprintModel,
    eqn: Equation,
    p: Pin,
    suffix: Suffix,
    i: nat,
)
    requires
        st.olmcs.len() == chip.olmc_count(),
        lowered(chip, eqn) is Ok,
        eqn.lhs == LHS::Pin((p, suffix)),
        is_base_suffix(suffix),
        chip.olmc_of(p.pin as int) == Some(i),
        st.olmcs[i as int].output is Some,
    ensures
        equation_outcome(chip, st, eqn) == Err::<BlueprintModel, ErrorCode>(ErrorCode::RepeatedOutput),
{
}

} // verus!
