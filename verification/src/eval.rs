//! The evaluator: a subject and a formula are reduced to a noun, or to the
//! first error met on the way.
//!
//! A formula is a cell. Where its head is an atom, the atom is an opcode and
//! the tail holds the opcode's arguments. Where its head is a cell, head and
//! tail are two formulas, and the result pairs what each of them gives.
//!
//! Nock programs need not terminate, so every evaluation carries fuel: the
//! number of evaluations that may still be nested inside it. An evaluation
//! with no fuel left fails with [`EvalError::RecursionLimitExceeded`].

use crate::edit::edit_n;
use crate::noun::{depth, inc, leaf, noun_eq, outcome, pair, EvalError, EvalResult, Noun, Tree};
use crate::slot::slot;
use std::rc::Rc;
use vstd::prelude::*;

verus! {

/// The fuel that [`nock`] and [`apply`] evaluate with.
pub const DEFAULT_FUEL: u64 = 1024;

/// Two results taken in order: both values, or the first error.
pub open spec fn both(first: Result<Tree, EvalError>, second: Result<Tree, EvalError>) -> Result<
    (Tree, Tree),
    EvalError,
> {
    match first {
        Err(e) => Err(e),
        Ok(a) => match second {
            Err(e) => Err(e),
            Ok(b) => Ok((a, b)),
        },
    }
}

/// The value of `formula` against `subject`, with at most `fuel` evaluations
/// nested in one another.
pub open spec fn reduce(fuel: nat, subject: Tree, formula: Tree) -> Result<Tree, EvalError>
    decreases fuel, 0nat,
{
    if fuel == 0 {
        Err(EvalError::RecursionLimitExceeded)
    } else {
        let rest = (fuel - 1) as nat;
        match formula {
            Tree::Leaf(_) => Err(EvalError::NotACell),
            Tree::Pair(head, tail) => match *head {
                Tree::Leaf(opcode) => reduce_op(rest, opcode, subject, *tail),
                Tree::Pair(_, _) => match both(
                    reduce(rest, subject, *head),
                    reduce(rest, subject, *tail),
                ) {
                    Ok((left, right)) => Ok(pair(left, right)),
                    Err(e) => Err(e),
                },
            },
        }
    }
}

/// The value of the noun `(subject . formula)`.
pub open spec fn reduce_noun(fuel: nat, noun: Tree) -> Result<Tree, EvalError> {
    match noun {
        Tree::Leaf(_) => Err(EvalError::NotACell),
        Tree::Pair(subject, formula) => reduce(fuel, *subject, *formula),
    }
}

/// The value of opcode `opcode` with arguments `args` against `subject`.
pub open spec fn reduce_op(fuel: nat, opcode: nat, subject: Tree, args: Tree) -> Result<
    Tree,
    EvalError,
>
    decreases fuel, 2nat,
{
    if opcode == 0 {
        subject.slot_at(args)
    } else if opcode == 1 {
        Ok(args)
    } else if opcode == 2 {
        reduce_eval(fuel, subject, args)
    } else if opcode == 3 {
        match reduce(fuel, subject, args) {
            Ok(value) => Ok(value.depth_test()),
            Err(e) => Err(e),
        }
    } else if opcode == 4 {
        match reduce(fuel, subject, args) {
            Ok(value) => value.increment(),
            Err(e) => Err(e),
        }
    } else if opcode == 5 {
        reduce_eq(fuel, subject, args)
    } else if opcode == 6 {
        reduce_if(fuel, subject, args)
    } else if opcode == 7 {
        reduce_compose(fuel, subject, args)
    } else if opcode == 8 {
        reduce_push(fuel, subject, args)
    } else if opcode == 9 {
        reduce_invoke(fuel, subject, args)
    } else if opcode == 10 {
        reduce_edit(fuel, subject, args)
    } else {
        Err(EvalError::UnimplementedOpcode)
    }
}

/// Opcode 2 with arguments `(b . c)`: the value of `b` is the new subject,
/// the value of `c` the formula to reduce against it.
pub open spec fn reduce_eval(fuel: nat, subject: Tree, args: Tree) -> Result<Tree, EvalError>
    decreases fuel, 1nat,
{
    match args {
        Tree::Leaf(_) => Err(EvalError::NotACell),
        Tree::Pair(b, c) => match both(reduce(fuel, subject, *b), reduce(fuel, subject, *c)) {
            Ok((new_subject, new_formula)) => reduce(fuel, new_subject, new_formula),
            Err(e) => Err(e),
        },
    }
}

/// Opcode 5 with arguments `(b . c)`: 0 where the values of `b` and `c` are
/// equal, 1 where they differ.
pub open spec fn reduce_eq(fuel: nat, subject: Tree, args: Tree) -> Result<Tree, EvalError>
    decreases fuel, 1nat,
{
    match args {
        Tree::Leaf(_) => Err(EvalError::NotACell),
        Tree::Pair(b, c) => match both(reduce(fuel, subject, *b), reduce(fuel, subject, *c)) {
            Ok((left, right)) => Ok(
                if left == right {
                    leaf(0)
                } else {
                    leaf(1)
                },
            ),
            Err(e) => Err(e),
        },
    }
}

/// Opcode 6 with arguments `(b . (c . d))`: the value of `c` where `b` gives
/// 0, the value of `d` where `b` gives 1. Any other value of `b` is an error.
pub open spec fn reduce_if(fuel: nat, subject: Tree, args: Tree) -> Result<Tree, EvalError>
    decreases fuel, 1nat,
{
    match args {
        Tree::Leaf(_) => Err(EvalError::NotACell),
        Tree::Pair(b, branches) => match *branches {
            Tree::Leaf(_) => Err(EvalError::NotACell),
            Tree::Pair(c, d) => match reduce(fuel, subject, *b) {
                Ok(Tree::Leaf(test)) => if test == 0 {
                    reduce(fuel, subject, *c)
                } else if test == 1 {
                    reduce(fuel, subject, *d)
                } else {
                    Err(EvalError::AddressThroughAtom)
                },
                Ok(Tree::Pair(_, _)) => Err(EvalError::NotAnAtom),
                Err(e) => Err(e),
            },
        },
    }
}

/// Opcode 7 with arguments `(b . c)`: the value of `c` against the value of
/// `b`.
pub open spec fn reduce_compose(fuel: nat, subject: Tree, args: Tree) -> Result<Tree, EvalError>
    decreases fuel, 1nat,
{
    match args {
        Tree::Leaf(_) => Err(EvalError::NotACell),
        Tree::Pair(b, c) => match reduce(fuel, subject, *b) {
            Ok(new_subject) => reduce(fuel, new_subject, *c),
            Err(e) => Err(e),
        },
    }
}

/// Opcode 8 with arguments `(b . c)`: the value of `c` against the subject
/// with the value of `b` put in front of it.
pub open spec fn reduce_push(fuel: nat, subject: Tree, args: Tree) -> Result<Tree, EvalError>
    decreases fuel, 1nat,
{
    match args {
        Tree::Leaf(_) => Err(EvalError::NotACell),
        Tree::Pair(b, c) => match reduce(fuel, subject, *b) {
            Ok(var) => reduce(fuel, pair(var, subject), *c),
            Err(e) => Err(e),
        },
    }
}

/// Opcode 9 with arguments `(b . c)`: the value of `c` is a core, and the
/// formula found in the core at address `b` is reduced against the core.
pub open spec fn reduce_invoke(fuel: nat, subject: Tree, args: Tree) -> Result<Tree, EvalError>
    decreases fuel, 1nat,
{
    match args {
        Tree::Leaf(_) => Err(EvalError::NotACell),
        Tree::Pair(b, c) => match reduce(fuel, subject, *c) {
            Ok(core) => match core.slot_at(*b) {
                Ok(arm) => reduce(fuel, core, arm),
                Err(e) => Err(e),
            },
            Err(e) => Err(e),
        },
    }
}

/// Opcode 10 with arguments `((b . c) . d)`: the value of `d` with its part
/// at address `b` replaced by the value of `c`.
pub open spec fn reduce_edit(fuel: nat, subject: Tree, args: Tree) -> Result<Tree, EvalError>
    decreases fuel, 1nat,
{
    match args {
        Tree::Leaf(_) => Err(EvalError::NotACell),
        Tree::Pair(target, d) => match *target {
            Tree::Leaf(_) => Err(EvalError::NotACell),
            Tree::Pair(b, c) => match *b {
                Tree::Pair(_, _) => Err(EvalError::NotAnAtom),
                Tree::Leaf(address) => match both(
                    reduce(fuel, subject, *c),
                    reduce(fuel, subject, *d),
                ) {
                    Ok((replacement, base)) => base.edit(address, replacement),
                    Err(e) => Err(e),
                },
            },
        },
    }
}

/// Opcode 1 returns its argument, whatever the subject.
pub proof fn lemma_constant(fuel: nat, subject: Tree, x: Tree)
    requires
        fuel >= 1,
    ensures
        reduce(fuel, subject, pair(leaf(1), x)) == Ok::<Tree, EvalError>(x),
{
    assert(reduce_op((fuel - 1) as nat, 1, subject, x) == Ok::<Tree, EvalError>(x));
}

/// Opcode 0 at address 1 returns the subject.
pub proof fn lemma_identity(fuel: nat, subject: Tree)
    requires
        fuel >= 1,
    ensures
        reduce(fuel, subject, pair(leaf(0), leaf(1))) == Ok::<Tree, EvalError>(subject),
{
    assert(reduce_op((fuel - 1) as nat, 0, subject, leaf(1)) == subject.slot_at(leaf(1)));
}

/// Opcode 4 on the constant `target`: the successor of a leaf that has one in
/// 128 bits, `AtomOverflow` on the one leaf that has none, and `NotAnAtom` on
/// a pair.
pub proof fn lemma_increment(fuel: nat, subject: Tree, target: Tree)
    requires
        fuel >= 2,
    ensures
        reduce(fuel, subject, pair(leaf(4), pair(leaf(1), target))) == match target {
            Tree::Leaf(n) => if n < u128::MAX {
                Ok::<Tree, EvalError>(leaf(n + 1))
            } else {
                Err::<Tree, EvalError>(EvalError::AtomOverflow)
            },
            Tree::Pair(_, _) => Err::<Tree, EvalError>(EvalError::NotAnAtom),
        },
{
    let constant = pair(leaf(1), target);
    lemma_constant((fuel - 1) as nat, subject, target);
    assert(reduce_op((fuel - 1) as nat, 4, subject, constant) == target.increment());
}

/// The formula `(2 . ((0 . 1) . (0 . b)))`: against a core, it runs the
/// formula found in the core at address `b`, with the core as the subject.
pub open spec fn self_application(b: Tree) -> Tree {
    pair(leaf(2), pair(pair(leaf(0), leaf(1)), pair(leaf(0), b)))
}

/// Opcode 9 computes a core and reduces the self-application formula against
/// it. That formula nests one evaluation more than running the arm at once.
pub proof fn lemma_invoke_is_self_application(fuel: nat, subject: Tree, b: Tree, c: Tree)
    ensures
        reduce_invoke(fuel, subject, pair(b, c)) == match reduce(fuel, subject, c) {
            Ok(core) => reduce(fuel + 1, core, self_application(b)),
            Err(e) => Err(e),
        },
{
    if let Ok(core) = reduce(fuel, subject, c) {
        let args = pair(pair(leaf(0), leaf(1)), pair(leaf(0), b));
        assert(reduce_op(fuel, 2, core, args) == reduce_eval(fuel, core, args));
    }
}

/// An evaluation that did not run out of fuel gives the same result with any
/// larger amount of fuel.
pub proof fn lemma_reduce_more_fuel(fuel: nat, more: nat, subject: Tree, formula: Tree)
    requires
        fuel <= more,
        reduce(fuel, subject, formula) != Err::<Tree, EvalError>(
            EvalError::RecursionLimitExceeded,
        ),
    ensures
        reduce(more, subject, formula) == reduce(fuel, subject, formula),
    decreases fuel, 0nat,
{
    let f = (fuel - 1) as nat;
    let m = (more - 1) as nat;
    match formula {
        Tree::Leaf(_) => {},
        Tree::Pair(head, tail) => match *head {
            Tree::Leaf(opcode) => {
                lemma_reduce_op_more_fuel(f, m, opcode, subject, *tail);
            },
            Tree::Pair(_, _) => {
                lemma_reduce_more_fuel(f, m, subject, *head);
                if reduce(f, subject, *head) is Ok {
                    lemma_reduce_more_fuel(f, m, subject, *tail);
                }
            },
        },
    }
}

/// An instruction that did not run out of fuel gives the same result with any
/// larger amount of fuel.
pub proof fn lemma_reduce_op_more_fuel(
    fuel: nat,
    more: nat,
    opcode: nat,
    subject: Tree,
    args: Tree,
)
    requires
        fuel <= more,
        reduce_op(fuel, opcode, subject, args) != Err::<Tree, EvalError>(
            EvalError::RecursionLimitExceeded,
        ),
    ensures
        reduce_op(more, opcode, subject, args) == reduce_op(fuel, opcode, subject, args),
    decreases fuel, 1nat,
{
    if opcode == 3 || opcode == 4 {
        lemma_reduce_more_fuel(fuel, more, subject, args);
    } else if let Tree::Pair(first, second) = args {
        if opcode == 2 || opcode == 5 {
            lemma_reduce_more_fuel(fuel, more, subject, *first);
            if let Ok(left) = reduce(fuel, subject, *first) {
                lemma_reduce_more_fuel(fuel, more, subject, *second);
                if let Ok(right) = reduce(fuel, subject, *second) {
                    if opcode == 2 {
                        lemma_reduce_more_fuel(fuel, more, left, right);
                    }
                }
            }
        } else if opcode == 6 {
            if let Tree::Pair(c, d) = *second {
                lemma_reduce_more_fuel(fuel, more, subject, *first);
                if let Ok(Tree::Leaf(test)) = reduce(fuel, subject, *first) {
                    if test == 0 {
                        lemma_reduce_more_fuel(fuel, more, subject, *c);
                    } else if test == 1 {
                        lemma_reduce_more_fuel(fuel, more, subject, *d);
                    }
                }
            }
        } else if opcode == 7 || opcode == 8 {
            lemma_reduce_more_fuel(fuel, more, subject, *first);
            if let Ok(value) = reduce(fuel, subject, *first) {
                if opcode == 7 {
                    lemma_reduce_more_fuel(fuel, more, value, *second);
                } else {
                    lemma_reduce_more_fuel(fuel, more, pair(value, subject), *second);
                }
            }
        } else if opcode == 9 {
            lemma_reduce_more_fuel(fuel, more, subject, *second);
            if let Ok(core) = reduce(fuel, subject, *second) {
                if let Ok(arm) = core.slot_at(*first) {
                    lemma_reduce_more_fuel(fuel, more, core, arm);
                }
            }
        } else if opcode == 10 {
            if let Tree::Pair(b, c) = *first {
                if *b is Leaf {
                    lemma_reduce_more_fuel(fuel, more, subject, *c);
                    if reduce(fuel, subject, *c) is Ok {
                        lemma_reduce_more_fuel(fuel, more, subject, *second);
                    }
                }
            }
        }
    }
}

/// Evaluates the noun `(subject . formula)` with [`DEFAULT_FUEL`].
pub fn nock(n: &Rc<Noun>) -> (r: EvalResult)
    ensures
        outcome(r) == reduce_noun(DEFAULT_FUEL as nat, n@),
{
    nock_bounded(n, DEFAULT_FUEL)
}

/// Evaluates the noun `(subject . formula)` with the given fuel.
pub fn nock_bounded(n: &Rc<Noun>, fuel: u64) -> (r: EvalResult)
    ensures
        outcome(r) == reduce_noun(fuel as nat, n@),
{
    let (subject, formula) = n.open_or(EvalError::NotACell)?;
    apply_bounded(subject, formula, fuel)
}

/// Evaluates `formula` against `subject` with [`DEFAULT_FUEL`].
pub fn apply(subject: &Rc<Noun>, formula: &Rc<Noun>) -> (r: EvalResult)
    ensures
        outcome(r) == reduce(DEFAULT_FUEL as nat, subject@, formula@),
{
    apply_bounded(subject, formula, DEFAULT_FUEL)
}

/// Evaluates `formula` against `subject` with the given fuel.
pub fn apply_bounded(subject: &Rc<Noun>, formula: &Rc<Noun>, fuel: u64) -> (r: EvalResult)
    ensures
        outcome(r) == reduce(fuel as nat, subject@, formula@),
    decreases fuel, 0nat,
{
    if fuel == 0 {
        return Err(EvalError::RecursionLimitExceeded);
    }
    let (head, tail) = formula.open_or(EvalError::NotACell)?;
    match **head {
        Noun::Atom(n) => op(n, subject, tail, fuel - 1),
        Noun::Cell(_, _) => {
            let left = apply_bounded(subject, head, fuel - 1)?;
            let right = apply_bounded(subject, tail, fuel - 1)?;
            Ok(Noun::cell(left, right))
        },
    }
}

/// Runs one instruction: opcode `instruction` with arguments `args` against
/// `subject`.
pub fn op(instruction: u128, subject: &Rc<Noun>, args: &Rc<Noun>, fuel: u64) -> (r: EvalResult)
    ensures
        outcome(r) == reduce_op(fuel as nat, instruction as nat, subject@, args@),
    decreases fuel, 2nat,
{
    match instruction {
        0 => slot(args, subject),
        1 => Ok(args.clone()),
        2 => eval(subject, args, fuel),
        3 => {
            let value = apply_bounded(subject, args, fuel)?;
            Ok(depth(&value))
        },
        4 => {
            let value = apply_bounded(subject, args, fuel)?;
            inc(value)
        },
        5 => eq(subject, args, fuel),
        6 => macro_six(subject, args, fuel),
        7 => macro_seven(subject, args, fuel),
        8 => macro_eight(subject, args, fuel),
        9 => macro_nine(subject, args, fuel),
        10 => edit(subject, args, fuel),
        _ => Err(EvalError::UnimplementedOpcode),
    }
}

/// Opcode 10: replaces one part of a computed noun by another computed noun.
pub fn edit(subject: &Rc<Noun>, args: &Rc<Noun>, fuel: u64) -> (r: EvalResult)
    ensures
        outcome(r) == reduce_edit(fuel as nat, subject@, args@),
    decreases fuel, 1nat,
{
    let (head, d) = args.open()?;
    let (b, c) = head.open()?;
    let address = b.value()?;
    let replacement = apply_bounded(subject, c, fuel)?;
    let base = apply_bounded(subject, d, fuel)?;
    edit_n(address, &replacement, &base)
}

/// Opcode 9: computes a core and runs the formula found in it at the given
/// address, with the core as the subject.
pub fn macro_nine(subject: &Rc<Noun>, args: &Rc<Noun>, fuel: u64) -> (r: EvalResult)
    ensures
        outcome(r) == reduce_invoke(fuel as nat, subject@, args@),
    decreases fuel, 1nat,
{
    let (b, c) = args.open()?;
    let core = apply_bounded(subject, c, fuel)?;
    let arm = slot(b, &core)?;
    apply_bounded(&core, &arm, fuel)
}

/// Opcode 8: computes a noun, puts it in front of the subject and evaluates
/// the second formula against the extended subject.
pub fn macro_eight(subject: &Rc<Noun>, args: &Rc<Noun>, fuel: u64) -> (r: EvalResult)
    ensures
        outcome(r) == reduce_push(fuel as nat, subject@, args@),
    decreases fuel, 1nat,
{
    let (b, c) = args.open()?;
    let var = apply_bounded(subject, b, fuel)?;
    apply_bounded(&Noun::cell(var, subject.clone()), c, fuel)
}

/// Opcode 7: evaluates the second formula against the result of the first.
pub fn macro_seven(subject: &Rc<Noun>, args: &Rc<Noun>, fuel: u64) -> (r: EvalResult)
    ensures
        outcome(r) == reduce_compose(fuel as nat, subject@, args@),
    decreases fuel, 1nat,
{
    let (b, c) = args.open()?;
    let new_subject = apply_bounded(subject, b, fuel)?;
    apply_bounded(&new_subject, c, fuel)
}

/// Opcode 6: evaluates a test, then the one of two formulas that the test
/// selects.
pub fn macro_six(subject: &Rc<Noun>, args: &Rc<Noun>, fuel: u64) -> (r: EvalResult)
    ensures
        outcome(r) == reduce_if(fuel as nat, subject@, args@),
    decreases fuel, 1nat,
{
    let (b, rest) = args.open()?;
    let (c, d) = rest.open()?;
    let test = apply_bounded(subject, b, fuel)?;
    match *test {
        Noun::Atom(0) => apply_bounded(subject, c, fuel),
        Noun::Atom(1) => apply_bounded(subject, d, fuel),
        Noun::Atom(_) => Err(EvalError::AddressThroughAtom),
        Noun::Cell(_, _) => Err(EvalError::NotAnAtom),
    }
}

/// Opcode 5: compares the results of two formulas.
pub fn eq(subject: &Rc<Noun>, args: &Rc<Noun>, fuel: u64) -> (r: EvalResult)
    ensures
        outcome(r) == reduce_eq(fuel as nat, subject@, args@),
    decreases fuel, 1nat,
{
    let (get_left, get_right) = args.open()?;
    let left = apply_bounded(subject, get_left, fuel)?;
    let right = apply_bounded(subject, get_right, fuel)?;
    if noun_eq(&left, &right) {
        Ok(Noun::atom(0))
    } else {
        Ok(Noun::atom(1))
    }
}

/// Opcode 2: computes a subject and a formula, then evaluates the one
/// against the other.
pub fn eval(subject: &Rc<Noun>, args: &Rc<Noun>, fuel: u64) -> (r: EvalResult)
    ensures
        outcome(r) == reduce_eval(fuel as nat, subject@, args@),
    decreases fuel, 1nat,
{
    let (get_subject, get_formula) = args.open_or(EvalError::NotACell)?;
    let new_subject = apply_bounded(subject, get_subject, fuel)?;
    let new_formula = apply_bounded(subject, get_formula, fuel)?;
    apply_bounded(&new_subject, &new_formula, fuel)
}

} // verus!
