use galette::blueprint::{eqn_to_term, Active, Blueprint, PinMode, OLMC};
use galette::chips::{i32_to_chip, Chip};
use galette::errors::{Error, ErrorCode};
use galette::gal::{Pin, Term};
use galette::parser::{Content, Equation, Suffix, LHS};

fn lit(pin: usize) -> Pin {
    Pin { pin, neg: false }
}

fn neg(pin: usize) -> Pin {
    Pin { pin, neg: true }
}

fn out(pin: usize, suffix: Suffix) -> LHS {
    LHS::Pin((lit(pin), suffix))
}

fn eqn(line_num: usize, lhs: LHS, rhs: Vec<Pin>, is_or: Vec<bool>) -> Equation {
    Equation { line_num, lhs, rhs, is_or }
}

fn single(line_num: usize, lhs: LHS, p: Pin) -> Equation {
    eqn(line_num, lhs, vec![p], vec![false])
}

fn content(chip: Chip, eqns: Vec<Equation>) -> Content {
    let n = chip.num_pins();
    let pins = (1..=n).map(|i| format!("P{}", i)).collect();
    Content { chip, sig: b"SIG".to_vec(), pins, eqns }
}

fn build(chip: Chip, eqns: Vec<Equation>) -> Result<Blueprint, Error> {
    Blueprint::from(&content(chip, eqns))
}

fn term_pins(t: &Term) -> Vec<Vec<usize>> {
    t.pins.iter().map(|g| g.iter().map(|p| p.pin).collect()).collect()
}

fn err_code(r: Result<Blueprint, Error>) -> ErrorCode {
    match r {
        Ok(_) => panic!("expected an error"),
        Err(e) => e.code,
    }
}

#[test]
fn minimal_combinatorial() {
    // O19 = I2 & I3 + I4 on a GAL16V8.
    let bp = build(
        Chip::GAL16V8,
        vec![eqn(1, out(19, Suffix::Plain), vec![lit(2), lit(3), lit(4)], vec![false, false, true])],
    )
    .unwrap();
    let o = &bp.olmcs[7];
    let (mode, term) = o.output.as_ref().unwrap();
    assert_eq!(*mode, PinMode::Combinatorial);
    assert_eq!(term_pins(term), vec![vec![2, 3], vec![4]]);
    assert_eq!(term.line_num, 1);
    assert_eq!(o.active, Active::High);
    assert!(o.tri_con.is_none() && o.clock.is_none() && o.arst.is_none() && o.aprst.is_none());
    assert_eq!(bp.sig, b"SIG".to_vec());
    assert_eq!(bp.pins.len(), 20);
    assert_eq!(bp.olmcs.len(), 8);
}

#[test]
fn negated_output_is_active_low() {
    let bp = build(
        Chip::GAL16V8,
        vec![eqn(1, LHS::Pin((neg(18), Suffix::Plain)), vec![lit(2)], vec![false])],
    )
    .unwrap();
    assert_eq!(bp.olmcs[6].active, Active::Low);
}

#[test]
fn registered_with_clock_and_reset_on_22v10() {
    let bp = build(
        Chip::GAL22V10,
        vec![
            eqn(1, out(14, Suffix::R), vec![lit(2), lit(3)], vec![false, false]),
            single(2, out(14, Suffix::CLK), lit(1)),
            single(3, out(14, Suffix::ARST), lit(4)),
        ],
    )
    .unwrap();
    let o = &bp.olmcs[0];
    assert_eq!(o.output.as_ref().unwrap().0, PinMode::Registered);
    assert_eq!(term_pins(o.clock.as_ref().unwrap()), vec![vec![1]]);
    assert_eq!(term_pins(o.arst.as_ref().unwrap()), vec![vec![4]]);
    assert!(o.aprst.is_none());
}

#[test]
fn clock_before_output_is_premature() {
    let r = build(
        Chip::GAL22V10,
        vec![
            single(1, out(14, Suffix::CLK), lit(1)),
            eqn(2, out(14, Suffix::R), vec![lit(2), lit(3)], vec![false, false]),
        ],
    );
    assert_eq!(r.err(), Some(Error { code: ErrorCode::PrematureCLK, line: 1 }));
}

#[test]
fn tristate_forbidden_on_registered_20v8() {
    let r = build(
        Chip::GAL20V8,
        vec![single(4, out(22, Suffix::R), lit(2)), single(5, out(22, Suffix::E), lit(3))],
    );
    assert_eq!(r.err(), Some(Error { code: ErrorCode::TristateReg, line: 5 }));
}

#[test]
fn tristate_allowed_on_registered_22v10() {
    let bp = build(
        Chip::GAL22V10,
        vec![single(1, out(20, Suffix::R), lit(2)), single(2, out(20, Suffix::E), lit(3))],
    )
    .unwrap();
    assert_eq!(term_pins(bp.olmcs[6].tri_con.as_ref().unwrap()), vec![vec![3]]);
}

#[test]
fn power_literal() {
    let bp = build(Chip::GAL16V8, vec![single(1, out(19, Suffix::Plain), lit(20))]).unwrap();
    let term = &bp.olmcs[7].output.as_ref().unwrap().1;
    assert_eq!(term.pins, vec![Vec::<Pin>::new()]);
    let r = build(Chip::GAL16V8, vec![single(1, out(19, Suffix::Plain), neg(20))]);
    assert_eq!(err_code(r), ErrorCode::InvertedPower);
}

#[test]
fn ground_literal() {
    let bp = build(Chip::GAL16V8, vec![single(1, out(19, Suffix::Plain), lit(10))]).unwrap();
    let term = &bp.olmcs[7].output.as_ref().unwrap().1;
    assert!(term.pins.is_empty());
    let r = build(Chip::GAL16V8, vec![single(1, out(19, Suffix::Plain), neg(10))]);
    assert_eq!(err_code(r), ErrorCode::InvertedPower);
}

#[test]
fn power_in_a_product_is_an_ordinary_literal() {
    let e = eqn(7, out(19, Suffix::Plain), vec![lit(20), neg(10)], vec![false, false]);
    let t = eqn_to_term(Chip::GAL16V8, &e).unwrap();
    assert_eq!(t.pins, vec![vec![lit(20), neg(10)]]);
    assert_eq!(t.line_num, 7);
}

#[test]
fn first_or_flag_is_ignored() {
    let e = eqn(1, out(19, Suffix::Plain), vec![lit(2), lit(3), neg(4)], vec![true, true, false]);
    let t = eqn_to_term(Chip::GAL16V8, &e).unwrap();
    assert_eq!(t.pins, vec![vec![lit(2)], vec![lit(3), neg(4)]]);
}

#[test]
fn lowering_twice_gives_the_same_term() {
    let e = eqn(3, out(19, Suffix::Plain), vec![lit(2), lit(3), lit(5)], vec![false, true, false]);
    let a = eqn_to_term(Chip::GAL20V8, &e).unwrap();
    let b = eqn_to_term(Chip::GAL20V8, &e).unwrap();
    assert_eq!(a, b);
}

#[test]
fn global_reset_on_22v10() {
    let bp = build(Chip::GAL22V10, vec![single(1, LHS::Ar, lit(2))]).unwrap();
    assert_eq!(term_pins(bp.ar.as_ref().unwrap()), vec![vec![2]]);
    assert!(bp.sp.is_none());
    let r = build(Chip::GAL22V10, vec![single(1, LHS::Ar, lit(2)), single(2, LHS::Ar, lit(3))]);
    assert_eq!(r.err(), Some(Error { code: ErrorCode::RepeatedARSP, line: 2 }));
}

#[test]
fn global_preset_on_22v10() {
    let bp = build(Chip::GAL22V10, vec![single(1, LHS::Sp, lit(5))]).unwrap();
    assert_eq!(term_pins(bp.sp.as_ref().unwrap()), vec![vec![5]]);
    let r = build(Chip::GAL22V10, vec![single(1, LHS::Sp, lit(5)), single(2, LHS::Sp, lit(5))]);
    assert_eq!(err_code(r), ErrorCode::RepeatedARSP);
}

#[test]
fn global_terms_refused_off_22v10() {
    assert_eq!(err_code(build(Chip::GAL16V8, vec![single(1, LHS::Ar, lit(2))])), ErrorCode::RepeatedARSP);
    assert_eq!(err_code(build(Chip::GAL20RA10, vec![single(1, LHS::Sp, lit(2))])), ErrorCode::RepeatedARSP);
}

#[test]
fn input_pin_is_not_an_output() {
    let r = build(Chip::GAL16V8, vec![single(9, out(2, Suffix::Plain), lit(3))]);
    assert_eq!(r.err(), Some(Error { code: ErrorCode::NotAnOutput, line: 9 }));
    let r = build(Chip::GAL22V10, vec![single(1, out(24, Suffix::Plain), lit(3))]);
    assert_eq!(err_code(r), ErrorCode::NotAnOutput);
}

#[test]
fn second_base_equation_is_repeated() {
    for second in [Suffix::Plain, Suffix::T, Suffix::R] {
        let r = build(
            Chip::GAL22V10,
            vec![single(1, out(15, Suffix::T), lit(2)), single(2, out(15, second), lit(3))],
        );
        assert_eq!(r.err(), Some(Error { code: ErrorCode::RepeatedOutput, line: 2 }));
    }
}

#[test]
fn enable_errors() {
    let c = Chip::GAL22V10;
    assert_eq!(err_code(build(c, vec![single(1, out(15, Suffix::E), lit(2))])), ErrorCode::PrematureENABLE);
    assert_eq!(
        err_code(build(c, vec![single(1, out(15, Suffix::Plain), lit(2)), single(2, out(15, Suffix::E), lit(3))])),
        ErrorCode::UnmatchedTristate
    );
    assert_eq!(
        err_code(build(c, vec![single(1, out(15, Suffix::T), lit(2)), single(2, LHS::Pin((neg(15), Suffix::E)), lit(3))])),
        ErrorCode::InvertedControl
    );
    assert_eq!(
        err_code(build(
            c,
            vec![
                single(1, out(15, Suffix::T), lit(2)),
                single(2, out(15, Suffix::E), lit(3)),
                single(3, out(15, Suffix::E), lit(4)),
            ]
        )),
        ErrorCode::RepeatedTristate
    );
}

#[test]
fn control_errors() {
    let c = Chip::GAL22V10;
    let reg = || single(1, out(16, Suffix::R), lit(2));
    assert_eq!(err_code(build(c, vec![single(1, out(16, Suffix::ARST), lit(2))])), ErrorCode::PrematureARST);
    assert_eq!(err_code(build(c, vec![single(1, out(16, Suffix::APRST), lit(2))])), ErrorCode::PrematureAPRST);
    assert_eq!(
        err_code(build(c, vec![single(1, out(16, Suffix::T), lit(2)), single(2, out(16, Suffix::CLK), lit(3))])),
        ErrorCode::InvalidControl
    );
    assert_eq!(
        err_code(build(c, vec![reg(), single(2, LHS::Pin((neg(16), Suffix::APRST)), lit(3))])),
        ErrorCode::InvertedControl
    );
    assert_eq!(
        err_code(build(c, vec![reg(), single(2, out(16, Suffix::CLK), lit(3)), single(3, out(16, Suffix::CLK), lit(3))])),
        ErrorCode::RepeatedCLK
    );
    assert_eq!(
        err_code(build(c, vec![reg(), single(2, out(16, Suffix::ARST), lit(3)), single(3, out(16, Suffix::ARST), lit(3))])),
        ErrorCode::RepeatedARST
    );
    assert_eq!(
        err_code(build(c, vec![reg(), single(2, out(16, Suffix::APRST), lit(3)), single(3, out(16, Suffix::APRST), lit(3))])),
        ErrorCode::RepeatedAPRST
    );
}

#[test]
fn feedback_marks_read_outputs() {
    let bp = build(
        Chip::GAL16V8,
        vec![
            eqn(1, out(19, Suffix::Plain), vec![lit(18), lit(2)], vec![false, false]),
            single(2, out(17, Suffix::Plain), lit(12)),
        ],
    )
    .unwrap();
    let marked: Vec<bool> = bp.olmcs.iter().map(|o| o.feedback).collect();
    assert_eq!(marked, vec![true, false, false, false, false, false, true, false]);
}

#[test]
fn feedback_marked_even_when_equation_fails() {
    let mut bp = Blueprint::new(Chip::GAL16V8);
    let r = bp.add_equation(&single(1, out(2, Suffix::Plain), lit(13)));
    assert_eq!(r, Err(ErrorCode::NotAnOutput));
    assert!(bp.olmcs[1].feedback);
}

#[test]
fn assembled_blueprints_keep_facet_rules() {
    let bp = build(
        Chip::GAL22V10,
        vec![
            single(1, out(14, Suffix::R), lit(2)),
            single(2, out(14, Suffix::E), lit(3)),
            single(3, out(14, Suffix::CLK), lit(1)),
            single(4, out(15, Suffix::T), lit(4)),
            single(5, out(15, Suffix::E), lit(5)),
            single(6, LHS::Ar, lit(6)),
        ],
    )
    .unwrap();
    for o in bp.olmcs.iter() {
        let has_control = o.tri_con.is_some() || o.clock.is_some() || o.arst.is_some() || o.aprst.is_some();
        assert!(!has_control || o.output.is_some());
        if o.clock.is_some() || o.arst.is_some() || o.aprst.is_some() {
            assert_eq!(o.output.as_ref().unwrap().0, PinMode::Registered);
        }
    }
}

#[test]
fn setters_leave_macrocell_unchanged_on_error() {
    let mut o = OLMC {
        active: Active::Low,
        output: None,
        tri_con: None,
        clock: None,
        arst: None,
        aprst: None,
        feedback: false,
    };
    let t = Term { line_num: 1, pins: vec![vec![lit(2)]] };
    assert_eq!(o.set_clock(&lit(19), t.clone()), Err(ErrorCode::PrematureCLK));
    assert!(o.clock.is_none());
    assert_eq!(o.set_base(&lit(19), t.clone(), Suffix::T), Ok(()));
    assert_eq!(o.output.as_ref().unwrap().0, PinMode::Tristate);
    assert_eq!(o.set_enable(Chip::GAL16V8, &lit(19), t.clone()), Ok(()));
    assert_eq!(o.set_arst(&lit(19), t.clone()), Err(ErrorCode::InvalidControl));
    assert_eq!(o.set_aprst(&lit(19), t), Err(ErrorCode::InvalidControl));
}

#[test]
fn chip_tables() {
    assert_eq!(Chip::GAL16V8.num_pins(), 20);
    assert_eq!(Chip::GAL20V8.num_pins(), 24);
    assert_eq!(Chip::GAL22V10.num_olmcs(), 10);
    assert_eq!(Chip::GAL16V8.pin_to_olmc(19), Some(7));
    assert_eq!(Chip::GAL16V8.pin_to_olmc(11), None);
    assert_eq!(Chip::GAL20V8.pin_to_olmc(15), Some(0));
    assert_eq!(Chip::GAL22V10.pin_to_olmc(23), Some(9));
    assert_eq!(Chip::GAL22V10.pin_to_olmc(24), None);
    assert_eq!(Chip::GAL20RA10.olmc_to_pin(3), 17);
    assert_eq!(Chip::GAL22V10.row_width(), 44);
    assert_eq!(Chip::GAL20RA10.row_count(), 80);
    let caps: Vec<usize> = (0..12).map(|i| Chip::GAL22V10.olmc_capacity(i)).collect();
    assert_eq!(caps, vec![9, 11, 13, 15, 17, 17, 15, 13, 11, 9, 1, 1]);
    assert_eq!(Chip::GAL20V8.olmc_capacity(5), 8);
    assert_eq!(i32_to_chip(3), Chip::GAL22V10);
    assert_eq!(i32_to_chip(4), Chip::GAL20RA10);
}
