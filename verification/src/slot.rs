//! Addressing: an address is a positive integer whose binary digits, read
//! after the leading 1, give a path from the root of a noun to one of its
//! parts (0 for the left child, 1 for the right child).

use crate::noun::{outcome, EvalError, EvalResult, Noun, Tree};
use std::rc::Rc;
use vstd::prelude::*;

verus! {

impl Tree {
    /// The part of `self` at `address`. Address 1 is the tree itself, and the
    /// children of the part at `n` are found at `2n` and `2n + 1`.
    pub open spec fn slot(self, address: nat) -> Result<Tree, EvalError>
        decreases address,
    {
        if address == 0 {
            Err(EvalError::AddressZero)
        } else if address == 1 {
            Ok(self)
        } else {
            match self.slot(address / 2) {
                Ok(Tree::Pair(left, right)) => if address % 2 == 0 {
                    Ok(*left)
                } else {
                    Ok(*right)
                },
                Ok(Tree::Leaf(_)) => Err(EvalError::AddressThroughAtom),
                Err(e) => Err(e),
            }
        }
    }

    /// The part of `self` at the address that the tree `address` holds.
    pub open spec fn slot_at(self, address: Tree) -> Result<Tree, EvalError> {
        match address {
            Tree::Leaf(n) => self.slot(n),
            Tree::Pair(_, _) => Err(EvalError::NotAnAtom),
        }
    }
}

/// The path that `address` stands for: its binary digits after the leading
/// 1, the most significant first, with `true` for a digit 1. Address 1 has
/// the empty path.
pub open spec fn path_of(address: nat) -> Seq<bool>
    decreases address,
{
    if address <= 1 {
        Seq::empty()
    } else {
        path_of(address / 2).push(address % 2 == 1)
    }
}

impl Tree {
    /// The child of `self` on the given side, `true` for the right one.
    pub open spec fn child(self, right: bool) -> Result<Tree, EvalError> {
        match self {
            Tree::Leaf(_) => Err(EvalError::AddressThroughAtom),
            Tree::Pair(l, r) => Ok(
                if right {
                    *r
                } else {
                    *l
                },
            ),
        }
    }

    /// The part of `self` reached from the root by `path`, which goes to the
    /// right child at each `true` and to the left child at each `false`.
    pub open spec fn descend(self, path: Seq<bool>) -> Result<Tree, EvalError>
        decreases path.len(),
    {
        if path.len() == 0 {
            Ok(self)
        } else {
            match self.child(path[0]) {
                Ok(below) => below.descend(path.drop_first()),
                Err(e) => Err(e),
            }
        }
    }
}

/// Following a path and then one more step is following the longer path.
pub proof fn lemma_descend_push(tree: Tree, path: Seq<bool>, right: bool)
    ensures
        tree.descend(path.push(right)) == match tree.descend(path) {
            Ok(part) => part.child(right),
            Err(e) => Err(e),
        },
    decreases path.len(),
{
    let longer = path.push(right);
    if path.len() == 0 {
        assert(longer.drop_first() =~= path);
        if let Ok(below) = tree.child(right) {
            assert(below.descend(path) == Ok::<Tree, EvalError>(below));
        }
    } else {
        assert(longer.drop_first() =~= path.drop_first().push(right));
        if let Ok(below) = tree.child(path[0]) {
            lemma_descend_push(below, path.drop_first(), right);
        }
    }
}

/// Looking an address up is following its binary digits from the root.
pub proof fn lemma_slot_is_descend(tree: Tree, address: nat)
    requires
        address >= 1,
    ensures
        tree.slot(address) == tree.descend(path_of(address)),
    decreases address,
{
    if address >= 2 {
        lemma_slot_is_descend(tree, address / 2);
        lemma_descend_push(tree, path_of(address / 2), address % 2 == 1);
    }
}

/// The part of `subject` at the address held by the noun `address`, which
/// must be an atom other than 0.
pub fn slot(address: &Rc<Noun>, subject: &Rc<Noun>) -> (r: EvalResult)
    ensures
        outcome(r) == subject@.slot_at(address@),
{
    match **address {
        Noun::Cell(_, _) => Err(EvalError::NotAnAtom),
        Noun::Atom(n) => slot_n(n, subject),
    }
}

/// The part of `subject` at `address`. The result shares its nodes with
/// `subject`, which is left as it was.
pub fn slot_n(address: u128, subject: &Rc<Noun>) -> (r: EvalResult)
    ensures
        outcome(r) == subject@.slot(address as nat),
    decreases address,
{
    if address == 0 {
        return Err(EvalError::AddressZero);
    }
    if address == 1 {
        return Ok(subject.clone());
    }
    let new_base = slot_n(address / 2, subject)?;
    let (l, r) = new_base.open_or(EvalError::AddressThroughAtom)?;
    if address % 2 == 0 {
        Ok(l.clone())
    } else {
        Ok(r.clone())
    }
}

} // verus!
