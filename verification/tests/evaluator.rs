use nock::{
    apply, apply_bounded, edit, eq, eval, macro_eight, macro_nine, macro_seven, macro_six, nock,
    nock_bounded, op, EvalError, Noun, DEFAULT_FUEL,
};
use std::rc::Rc;

fn a(n: u128) -> Rc<Noun> {
    Rc::new(Noun::Atom(n))
}

fn c(left: Rc<Noun>, right: Rc<Noun>) -> Rc<Noun> {
    Rc::new(Noun::Cell(left, right))
}

/// The formula `[1 x]`, which gives `x` against every subject.
fn constant(x: Rc<Noun>) -> Rc<Noun> {
    c(a(1), x)
}

/// The formula `[0 address]`.
fn at(address: u128) -> Rc<Noun> {
    c(a(0), a(address))
}

/// `[2 [0 1] [0 1]]`, which as subject and formula at once evaluates itself
/// for ever.
fn endless() -> Rc<Noun> {
    c(a(2), c(at(1), at(1)))
}

#[test]
fn scenario_slot_seven() {
    let subject = c(a(3), c(a(4), a(5)));
    assert_eq!(nock(&c(subject, at(7))), Ok(a(5)));
}

#[test]
fn constant_ignores_the_subject() {
    let x = c(a(7), c(a(8), a(9)));
    let subjects = vec![a(0), a(u128::MAX), c(a(1), a(2)), c(c(a(1), a(2)), a(3))];
    for subject in subjects.iter() {
        assert_eq!(apply(subject, &constant(x.clone())), Ok(x.clone()));
        assert_eq!(apply(subject, &constant(a(8))), Ok(a(8)));
    }
}

#[test]
fn address_one_is_the_subject() {
    let subjects = vec![a(0), a(u128::MAX), c(a(1), a(2)), c(c(a(1), a(2)), a(3))];
    for subject in subjects.iter() {
        assert_eq!(apply(subject, &at(1)), Ok(subject.clone()));
    }
}

#[test]
fn increment_of_constant() {
    let subject = c(a(1), a(2));
    assert_eq!(apply(&subject, &c(a(4), constant(a(0)))), Ok(a(1)));
    assert_eq!(apply(&subject, &c(a(4), constant(a(41)))), Ok(a(42)));
    assert_eq!(
        apply(&subject, &c(a(4), constant(a(u128::MAX - 1)))),
        Ok(a(u128::MAX))
    );
}

#[test]
fn increment_of_cell_is_not_an_atom() {
    assert_eq!(
        apply(&a(0), &c(a(4), constant(c(a(1), a(2))))),
        Err(EvalError::NotAnAtom)
    );
    assert_eq!(
        nock(&c(c(a(0), a(0)), c(a(4), at(1)))),
        Err(EvalError::NotAnAtom)
    );
}

#[test]
fn increment_of_largest_atom_overflows() {
    assert_eq!(
        apply(&a(0), &c(a(4), constant(a(u128::MAX)))),
        Err(EvalError::AtomOverflow)
    );
}

#[test]
fn nock_of_atom_is_not_a_cell() {
    assert_eq!(nock(&a(5)), Err(EvalError::NotACell));
    assert_eq!(nock_bounded(&a(5), 0), Err(EvalError::NotACell));
}

#[test]
fn atom_is_no_formula() {
    assert_eq!(apply(&a(5), &a(1)), Err(EvalError::NotACell));
    assert_eq!(nock(&c(a(5), a(1))), Err(EvalError::NotACell));
}

#[test]
fn opcodes_above_ten_are_unimplemented() {
    assert_eq!(
        apply(&a(5), &c(a(11), a(0))),
        Err(EvalError::UnimplementedOpcode)
    );
    assert_eq!(
        apply(&a(5), &c(a(u128::MAX), at(1))),
        Err(EvalError::UnimplementedOpcode)
    );
    assert_eq!(
        op(12, &a(5), &a(0), 10),
        Err(EvalError::UnimplementedOpcode)
    );
}

#[test]
fn op_dispatches_on_the_instruction() {
    let subject = c(a(6), a(7));
    assert_eq!(op(0, &subject, &a(3), 0), Ok(a(7)));
    assert_eq!(op(1, &subject, &a(3), 0), Ok(a(3)));
    assert_eq!(op(3, &subject, &at(1), 1), Ok(a(0)));
    assert_eq!(op(3, &subject, &at(2), 1), Ok(a(1)));
    assert_eq!(op(4, &subject, &at(2), 1), Ok(a(7)));
    assert_eq!(op(5, &subject, &c(at(2), at(3)), 1), Ok(a(1)));
    assert_eq!(op(7, &subject, &c(at(3), at(1)), 1), Ok(a(7)));
    assert_eq!(
        op(3, &subject, &at(1), 0),
        Err(EvalError::RecursionLimitExceeded)
    );
}

#[test]
fn slot_errors_reach_the_caller() {
    let subject = c(a(3), a(4));
    assert_eq!(apply(&subject, &at(0)), Err(EvalError::AddressZero));
    assert_eq!(apply(&subject, &at(4)), Err(EvalError::AddressThroughAtom));
    assert_eq!(
        apply(&subject, &c(a(0), c(a(1), a(1)))),
        Err(EvalError::NotAnAtom)
    );
}

#[test]
fn autocons_stops_at_the_first_error() {
    let subject = a(0);
    let left_fails = c(c(a(4), constant(c(a(1), a(1)))), at(0));
    assert_eq!(apply(&subject, &left_fails), Err(EvalError::NotAnAtom));
    let right_fails = c(constant(a(1)), at(0));
    assert_eq!(apply(&subject, &right_fails), Err(EvalError::AddressZero));
}

#[test]
fn eval_computes_subject_and_formula() {
    let subject = c(a(4), at(1));
    assert_eq!(eval(&subject, &c(at(2), at(1)), 3), Ok(a(5)));
    assert_eq!(eval(&subject, &a(0), 3), Err(EvalError::NotACell));
    assert_eq!(
        eval(&subject, &c(at(0), at(9)), 3),
        Err(EvalError::AddressZero)
    );
    assert_eq!(
        eval(&subject, &c(at(1), at(9)), 3),
        Err(EvalError::AddressThroughAtom)
    );
    assert_eq!(
        eval(&subject, &c(at(2), at(2)), 3),
        Err(EvalError::NotACell)
    );
}

#[test]
fn eq_compares_two_results() {
    let subject = c(c(a(1), a(2)), c(a(1), a(2)));
    assert_eq!(eq(&subject, &c(at(2), at(3)), 1), Ok(a(0)));
    assert_eq!(eq(&subject, &c(at(2), at(4)), 1), Ok(a(1)));
    assert_eq!(eq(&subject, &c(at(4), at(5)), 1), Ok(a(1)));
    assert_eq!(eq(&subject, &c(at(4), at(6)), 1), Ok(a(0)));
    assert_eq!(eq(&subject, &a(0), 1), Err(EvalError::NotACell));
    assert_eq!(
        eq(&subject, &c(at(0), a(0)), 1),
        Err(EvalError::AddressZero)
    );
    assert_eq!(eq(&subject, &c(at(1), a(0)), 1), Err(EvalError::NotACell));
}

#[test]
fn macro_six_selects_a_branch() {
    let subject = c(a(0), c(a(1), c(a(2), c(a(1), a(1)))));
    let branches = c(constant(a(40)), constant(a(50)));
    assert_eq!(macro_six(&subject, &c(at(2), branches.clone()), 1), Ok(a(40)));
    assert_eq!(macro_six(&subject, &c(at(6), branches.clone()), 1), Ok(a(50)));
}

#[test]
fn macro_six_rejects_other_tests() {
    let subject = c(a(0), c(a(1), c(a(2), c(a(1), a(1)))));
    let branches = c(constant(a(40)), constant(a(50)));
    assert_eq!(
        macro_six(&subject, &c(at(14), branches.clone()), 1),
        Err(EvalError::AddressThroughAtom)
    );
    assert_eq!(
        macro_six(&subject, &c(constant(a(u128::MAX)), branches.clone()), 1),
        Err(EvalError::AddressThroughAtom)
    );
    assert_eq!(
        macro_six(&subject, &c(at(15), branches.clone()), 1),
        Err(EvalError::NotAnAtom)
    );
    assert_eq!(
        macro_six(&subject, &c(at(0), branches), 1),
        Err(EvalError::AddressZero)
    );
    assert_eq!(macro_six(&subject, &a(0), 1), Err(EvalError::NotACell));
    assert_eq!(
        macro_six(&subject, &c(at(2), a(0)), 1),
        Err(EvalError::NotACell)
    );
}

#[test]
fn macro_six_evaluates_only_the_selected_branch() {
    let subject = a(0);
    let only_then = c(at(1), c(constant(a(4)), at(0)));
    assert_eq!(macro_six(&subject, &only_then, 1), Ok(a(4)));
    let only_else = c(constant(a(1)), c(at(0), constant(a(5))));
    assert_eq!(macro_six(&subject, &only_else, 1), Ok(a(5)));
}

#[test]
fn macro_seven_composes() {
    let subject = c(a(6), c(a(7), a(8)));
    assert_eq!(macro_seven(&subject, &c(at(3), at(2)), 1), Ok(a(7)));
    assert_eq!(macro_seven(&subject, &a(0), 1), Err(EvalError::NotACell));
    assert_eq!(
        macro_seven(&subject, &c(at(2), at(2)), 1),
        Err(EvalError::AddressThroughAtom)
    );
    assert_eq!(
        macro_seven(&subject, &c(at(0), at(2)), 1),
        Err(EvalError::AddressZero)
    );
}

#[test]
fn macro_eight_extends_the_subject() {
    let subject = a(9);
    assert_eq!(
        macro_eight(&subject, &c(constant(a(5)), at(1)), 1),
        Ok(c(a(5), a(9)))
    );
    assert_eq!(
        macro_eight(&subject, &c(c(a(4), at(1)), at(2)), 2),
        Ok(a(10))
    );
    assert_eq!(macro_eight(&subject, &a(0), 1), Err(EvalError::NotACell));
    assert_eq!(
        macro_eight(&subject, &c(at(2), at(1)), 1),
        Err(EvalError::AddressThroughAtom)
    );
}

#[test]
fn macro_nine_runs_an_arm_of_the_core() {
    // The core holds the formula `[4 0 3]` at address 2 and the atom 41 at 3.
    let core = c(c(a(4), at(3)), a(41));
    assert_eq!(
        macro_nine(&a(0), &c(a(2), constant(core.clone())), 2),
        Ok(a(42))
    );
    assert_eq!(
        macro_nine(&core, &c(a(2), at(1)), 2),
        Ok(a(42))
    );
}

#[test]
fn macro_nine_errors() {
    let core = c(c(a(4), at(3)), a(41));
    assert_eq!(macro_nine(&core, &a(0), 2), Err(EvalError::NotACell));
    assert_eq!(
        macro_nine(&core, &c(a(0), at(1)), 2),
        Err(EvalError::AddressZero)
    );
    assert_eq!(
        macro_nine(&core, &c(a(8), at(1)), 2),
        Err(EvalError::AddressThroughAtom)
    );
    assert_eq!(
        macro_nine(&core, &c(c(a(1), a(1)), at(1)), 2),
        Err(EvalError::NotAnAtom)
    );
    assert_eq!(
        macro_nine(&core, &c(a(3), at(1)), 2),
        Err(EvalError::NotACell)
    );
    assert_eq!(
        macro_nine(&core, &c(a(2), at(0)), 2),
        Err(EvalError::AddressZero)
    );
}

#[test]
fn edit_replaces_a_part_of_a_computed_noun() {
    let subject = c(a(11), c(a(22), a(33)));
    assert_eq!(
        edit(&subject, &c(c(a(2), at(2)), at(3)), 1),
        Ok(c(a(11), a(33)))
    );
    assert_eq!(
        edit(&subject, &c(c(a(3), at(2)), at(3)), 1),
        Ok(c(a(22), a(11)))
    );
    assert_eq!(edit(&subject, &c(c(a(1), at(2)), at(3)), 1), Ok(a(11)));
}

#[test]
fn edit_errors() {
    let subject = c(a(11), c(a(22), a(33)));
    assert_eq!(edit(&subject, &a(0), 1), Err(EvalError::NotACell));
    assert_eq!(edit(&subject, &c(a(2), at(3)), 1), Err(EvalError::NotACell));
    assert_eq!(
        edit(&subject, &c(c(c(a(1), a(1)), at(2)), at(3)), 1),
        Err(EvalError::NotAnAtom)
    );
    assert_eq!(
        edit(&subject, &c(c(a(0), at(2)), at(3)), 1),
        Err(EvalError::AddressZero)
    );
    assert_eq!(
        edit(&subject, &c(c(a(4), at(2)), at(3)), 1),
        Err(EvalError::AddressThroughAtom)
    );
    assert_eq!(
        edit(&subject, &c(c(a(2), at(8)), at(3)), 1),
        Err(EvalError::AddressThroughAtom)
    );
    assert_eq!(
        edit(&subject, &c(c(a(2), at(2)), at(0)), 1),
        Err(EvalError::AddressZero)
    );
}

#[test]
fn fuel_counts_nested_evaluations() {
    let subject = a(0);
    assert_eq!(
        apply_bounded(&subject, &constant(a(8)), 0),
        Err(EvalError::RecursionLimitExceeded)
    );
    assert_eq!(apply_bounded(&subject, &constant(a(8)), 1), Ok(a(8)));
    let increment = c(a(4), constant(a(8)));
    assert_eq!(
        apply_bounded(&subject, &increment, 1),
        Err(EvalError::RecursionLimitExceeded)
    );
    assert_eq!(apply_bounded(&subject, &increment, 2), Ok(a(9)));
    let pairing = c(increment.clone(), increment);
    assert_eq!(
        apply_bounded(&subject, &pairing, 2),
        Err(EvalError::RecursionLimitExceeded)
    );
    assert_eq!(apply_bounded(&subject, &pairing, 3), Ok(c(a(9), a(9))));
    assert_eq!(
        nock_bounded(&c(subject, pairing), 3),
        Ok(c(a(9), a(9)))
    );
}

#[test]
fn shape_errors_come_before_the_fuel_runs_out() {
    assert_eq!(
        apply_bounded(&a(0), &a(0), 0),
        Err(EvalError::RecursionLimitExceeded)
    );
    assert_eq!(apply_bounded(&a(0), &a(0), 1), Err(EvalError::NotACell));
    assert_eq!(
        apply_bounded(&a(0), &c(a(3), a(0)), 1),
        Err(EvalError::RecursionLimitExceeded)
    );
    assert_eq!(
        apply_bounded(&a(0), &c(a(3), a(0)), 2),
        Err(EvalError::NotACell)
    );
}

#[test]
fn more_fuel_keeps_a_finished_result() {
    let subject = c(a(1), c(a(4), a(5)));
    let formula = c(a(6), c(at(2), c(at(6), at(7))));
    let short = apply_bounded(&subject, &formula, 2);
    assert_eq!(short, Ok(a(5)));
    for fuel in 2..40 {
        assert_eq!(apply_bounded(&subject, &formula, fuel), short);
    }
    assert_eq!(apply(&subject, &formula), short);
}

#[test]
fn endless_evaluation_runs_out_of_fuel() {
    let looping = endless();
    assert_eq!(
        apply_bounded(&looping, &looping, 50),
        Err(EvalError::RecursionLimitExceeded)
    );
    assert_eq!(
        apply(&looping, &looping),
        Err(EvalError::RecursionLimitExceeded)
    );
    assert_eq!(
        nock(&c(looping.clone(), looping)),
        Err(EvalError::RecursionLimitExceeded)
    );
}

#[test]
fn default_fuel_is_what_nock_and_apply_use() {
    let subject = c(a(4), at(1));
    let formula = c(a(2), c(at(2), at(1)));
    assert_eq!(
        apply(&subject, &formula),
        apply_bounded(&subject, &formula, DEFAULT_FUEL)
    );
    let noun = c(subject, formula);
    assert_eq!(nock(&noun), nock_bounded(&noun, DEFAULT_FUEL));
    assert_eq!(nock(&noun), Ok(a(5)));
}
