//! A verified evaluator for Nock, a combinator machine whose only datum is the
//! noun: an atom (a natural number) or a cell (an ordered pair of nouns).
//!
//! Every executable function states its result over [`Tree`], the
//! mathematical value of a noun, and Verus proves that the code returns
//! exactly that result.

pub mod edit;
pub mod eval;
pub mod noun;
pub mod slot;

pub use edit::edit_n;
pub use eval::{
    apply, apply_bounded, edit, eq, eval, macro_eight, macro_nine, macro_seven, macro_six, nock,
    nock_bounded, op, DEFAULT_FUEL,
};
pub use noun::{depth, inc, noun_eq, EvalError, EvalResult, Noun, Tree};
pub use slot::{slot, slot_n};
