//! Nouns, their mathematical value, and the primitive operations on them.

use std::rc::Rc;
use vstd::prelude::*;

verus! {

/// The mathematical value of a noun: a binary tree whose leaves are natural
/// numbers. Contracts speak of nouns through this type.
pub enum Tree {
    Leaf(nat),
    Pair(Box<Tree>, Box<Tree>),
}

/// The leaf tree that holds `n`.
pub open spec fn leaf(n: nat) -> Tree {
    Tree::Leaf(n)
}

/// The tree whose two children are `left` and `right`.
pub open spec fn pair(left: Tree, right: Tree) -> Tree {
    Tree::Pair(Box::new(left), Box::new(right))
}

/// A noun in memory. Atoms are held in 128 bits; cells share their children,
/// which are never changed once built.
#[derive(Debug, PartialEq, Eq)]
pub enum Noun {
    Atom(u128),
    Cell(Rc<Noun>, Rc<Noun>),
}

impl View for Noun {
    type V = Tree;

    open spec fn view(&self) -> Tree
        decreases self,
    {
        match self {
            Noun::Atom(n) => leaf(*n as nat),
            Noun::Cell(l, r) => pair((**l).view(), (**r).view()),
        }
    }
}

/// Why an evaluation produced no noun.
#[derive(Debug, Clone, Copy, PartialEq, Eq, Structural)]
pub enum EvalError {
    /// An atom was needed and a cell was found.
    NotAnAtom,
    /// A cell was needed and an atom was found.
    NotACell,
    /// Address 0 names no part of any noun.
    AddressZero,
    /// The path of an address runs on below an atom.
    AddressThroughAtom,
    /// The opcode is none of 0 to 10.
    UnimplementedOpcode,
    /// The successor of an atom does not fit in 128 bits.
    AtomOverflow,
    /// Evaluations were nested more deeply than the caller allowed.
    RecursionLimitExceeded,
}

/// What an evaluation returns: the resulting noun, or the first error met.
pub type EvalResult = Result<Rc<Noun>, EvalError>;

/// What an evaluation returned, with the noun replaced by its value.
pub open spec fn outcome(r: EvalResult) -> Result<Tree, EvalError> {
    match r {
        Ok(n) => Ok(n@),
        Err(e) => Err(e),
    }
}

impl Tree {
    /// The answer of the cell test: 0 for a pair, 1 for a leaf.
    pub open spec fn depth_test(self) -> Tree {
        match self {
            Tree::Leaf(_) => leaf(1),
            Tree::Pair(_, _) => leaf(0),
        }
    }

    /// The successor of a leaf, as far as it fits in 128 bits.
    pub open spec fn increment(self) -> Result<Tree, EvalError> {
        match self {
            Tree::Leaf(n) => if n < u128::MAX {
                Ok(leaf(n + 1))
            } else {
                Err(EvalError::AtomOverflow)
            },
            Tree::Pair(_, _) => Err(EvalError::NotAnAtom),
        }
    }
}

impl Noun {
    /// A new atom that holds `value`.
    pub fn atom(value: u128) -> (r: Rc<Noun>)
        ensures
            *r == Noun::Atom(value),
            r@ == leaf(value as nat),
    {
        Rc::new(Noun::Atom(value))
    }

    /// A new cell with the given children, which it shares with their other
    /// holders.
    pub fn cell(left: Rc<Noun>, right: Rc<Noun>) -> (r: Rc<Noun>)
        ensures
            *r == Noun::Cell(left, right),
            r@ == pair(left@, right@),
    {
        Rc::new(Noun::Cell(left, right))
    }

    /// The number held by an atom; a cell holds none.
    pub fn value(&self) -> (r: Result<u128, EvalError>)
        ensures
            match r {
                Ok(n) => self@ == leaf(n as nat),
                Err(e) => self@ is Pair && e == EvalError::NotAnAtom,
            },
    {
        match self {
            Noun::Atom(n) => Ok(*n),
            Noun::Cell(_, _) => Err(EvalError::NotAnAtom),
        }
    }

    /// The two children of a cell; an atom has none.
    pub fn open(&self) -> (r: Result<(&Rc<Noun>, &Rc<Noun>), EvalError>)
        ensures
            match r {
                Ok((left, right)) => *self == Noun::Cell(*left, *right) && self@ == pair(
                    left@,
                    right@,
                ),
                Err(e) => self@ is Leaf && e == EvalError::NotACell,
            },
    {
        self.open_or(EvalError::NotACell)
    }

    /// The two children of a cell, or `otherwise` for an atom.
    pub fn open_or(&self, otherwise: EvalError) -> (r: Result<(&Rc<Noun>, &Rc<Noun>), EvalError>)
        ensures
            match r {
                Ok((left, right)) => *self == Noun::Cell(*left, *right) && self@ == pair(
                    left@,
                    right@,
                ),
                Err(e) => self@ is Leaf && e == otherwise,
            },
    {
        match self {
            Noun::Atom(_) => Err(otherwise),
            Noun::Cell(l, r) => Ok((l, r)),
        }
    }
}

/// The recursive definition of equality between nouns: two leaves are equal
/// when they hold the same number, two pairs when their children are equal in
/// turn, and a leaf never equals a pair.
pub open spec fn structural_equal(a: Tree, b: Tree) -> bool
    decreases a,
{
    match (a, b) {
        (Tree::Leaf(m), Tree::Leaf(n)) => m == n,
        (Tree::Pair(al, ar), Tree::Pair(bl, br)) => structural_equal(*al, *bl)
            && structural_equal(*ar, *br),
        _ => false,
    }
}

/// Structural equality holds of exactly the pairs of equal trees.
pub proof fn lemma_structural_equal_is_equality(a: Tree, b: Tree)
    ensures
        structural_equal(a, b) <==> a == b,
    decreases a,
{
    match (a, b) {
        (Tree::Pair(al, ar), Tree::Pair(bl, br)) => {
            lemma_structural_equal_is_equality(*al, *bl);
            lemma_structural_equal_is_equality(*ar, *br);
        },
        _ => {},
    }
}

/// Every tree is structurally equal to itself.
pub proof fn lemma_structural_equal_reflexive(a: Tree)
    ensures
        structural_equal(a, a),
{
    lemma_structural_equal_is_equality(a, a);
}

/// Structural equality does not depend on the order of its arguments.
pub proof fn lemma_structural_equal_symmetric(a: Tree, b: Tree)
    ensures
        structural_equal(a, b) == structural_equal(b, a),
{
    lemma_structural_equal_is_equality(a, b);
    lemma_structural_equal_is_equality(b, a);
}

/// A leaf is never structurally equal to a pair, on either side.
pub proof fn lemma_leaf_never_equals_pair(n: nat, left: Tree, right: Tree)
    ensures
        !structural_equal(leaf(n), pair(left, right)),
        !structural_equal(pair(left, right), leaf(n)),
{
}

/// Two leaves are structurally equal exactly when they hold the same number.
pub proof fn lemma_leaves_equal_iff_same_number(m: nat, n: nat)
    ensures
        structural_equal(leaf(m), leaf(n)) <==> m == n,
{
}

/// Two pairs are structurally equal exactly when their left children are and
/// their right children are.
pub proof fn lemma_pairs_equal_iff_children_equal(al: Tree, ar: Tree, bl: Tree, br: Tree)
    ensures
        structural_equal(pair(al, ar), pair(bl, br)) <==> structural_equal(al, bl)
            && structural_equal(ar, br),
{
}

/// Nouns with the same value are the same noun: an atom has the value of no
/// other atom, and a cell the value of no other cell.
pub proof fn lemma_view_injective(a: &Noun, b: &Noun)
    ensures
        a@ == b@ <==> a == b,
    decreases a,
{
    match (a, b) {
        (Noun::Cell(al, ar), Noun::Cell(bl, br)) => {
            lemma_view_injective(&**al, &**bl);
            lemma_view_injective(&**ar, &**br);
        },
        _ => {},
    }
}

/// Whether two nouns are equal: the same atom, or cells whose children are
/// equal in turn.
pub fn noun_eq(a: &Rc<Noun>, b: &Rc<Noun>) -> (r: bool)
    ensures
        r == (a@ == b@),
        r == structural_equal(a@, b@),
        r == (a == b),
    decreases a,
{
    proof {
        lemma_structural_equal_is_equality(a@, b@);
        lemma_view_injective(&**a, &**b);
    }
    match (&**a, &**b) {
        (Noun::Atom(m), Noun::Atom(n)) => *m == *n,
        (Noun::Cell(al, ar), Noun::Cell(bl, br)) => noun_eq(al, bl) && noun_eq(ar, br),
        _ => false,
    }
}

/// The cell test: atom 0 for a cell, atom 1 for an atom.
pub fn depth(n: &Rc<Noun>) -> (r: Rc<Noun>)
    ensures
        r@ == n@.depth_test(),
{
    match **n {
        Noun::Atom(_) => Noun::atom(1),
        Noun::Cell(_, _) => Noun::atom(0),
    }
}

/// The successor of an atom. A cell has none, and neither has the largest
/// atom that fits in 128 bits.
pub fn inc(n: Rc<Noun>) -> (r: EvalResult)
    ensures
        outcome(r) == n@.increment(),
{
    match *n {
        Noun::Atom(m) => if m < u128::MAX {
            Ok(Noun::atom(m + 1))
        } else {
            Err(EvalError::AtomOverflow)
        },
        Noun::Cell(_, _) => Err(EvalError::NotAnAtom),
    }
}

} // verus!
