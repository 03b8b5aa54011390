//! Editing: a new noun that differs from an old one in the part at one
//! address. The old noun is left as it was, and the new one shares with it
//! every part that does not lie on the path to that address.

use crate::noun::{outcome, pair, EvalError, EvalResult, Noun, Tree};
use crate::slot::{lemma_slot_is_descend, path_of, slot_n};
use std::rc::Rc;
use vstd::prelude::*;

verus! {

impl Tree {
    /// `self` with the part at `address` replaced by `replacement`.
    ///
    /// The replacement is paired with the sibling of the addressed part, as
    /// found in `self`, and that pair replaces the part at the parent address,
    /// until the root is reached.
    pub open spec fn edit(self, address: nat, replacement: Tree) -> Result<Tree, EvalError>
        decreases address,
    {
        if address == 0 {
            Err(EvalError::AddressZero)
        } else if address == 1 {
            Ok(replacement)
        } else if address % 2 == 0 {
            match self.slot(address + 1) {
                Ok(sibling) => self.edit(address / 2, pair(replacement, sibling)),
                Err(e) => Err(e),
            }
        } else {
            match self.slot((address - 1) as nat) {
                Ok(sibling) => self.edit(address / 2, pair(sibling, replacement)),
                Err(e) => Err(e),
            }
        }
    }

    /// `self` with the part at the end of `path` replaced by `replacement`,
    /// and everything beside the path as it was.
    pub open spec fn graft(self, path: Seq<bool>, replacement: Tree) -> Result<Tree, EvalError>
        decreases path.len(),
    {
        if path.len() == 0 {
            Ok(replacement)
        } else {
            match self {
                Tree::Leaf(_) => Err(EvalError::AddressThroughAtom),
                Tree::Pair(l, r) => if path[0] {
                    match r.graft(path.drop_first(), replacement) {
                        Ok(new_right) => Ok(pair(*l, new_right)),
                        Err(e) => Err(e),
                    }
                } else {
                    match l.graft(path.drop_first(), replacement) {
                        Ok(new_left) => Ok(pair(new_left, *r)),
                        Err(e) => Err(e),
                    }
                },
            }
        }
    }
}

/// Replacing the part one step below the end of a path is replacing the part
/// at the end of the path by a pair that keeps the other child.
pub proof fn lemma_graft_push(tree: Tree, path: Seq<bool>, right: bool, replacement: Tree)
    ensures
        tree.graft(path.push(right), replacement) == match tree.descend(path) {
            Ok(Tree::Pair(l, r)) => tree.graft(
                path,
                if right {
                    pair(*l, replacement)
                } else {
                    pair(replacement, *r)
                },
            ),
            Ok(Tree::Leaf(_)) => Err(EvalError::AddressThroughAtom),
            Err(e) => Err(e),
        },
    decreases path.len(),
{
    let longer = path.push(right);
    if path.len() == 0 {
        assert(longer.drop_first() =~= path);
        if let Tree::Pair(l, r) = tree {
            assert(l.graft(path, replacement) == Ok::<Tree, EvalError>(replacement));
            assert(r.graft(path, replacement) == Ok::<Tree, EvalError>(replacement));
        }
    } else {
        assert(longer.drop_first() =~= path.drop_first().push(right));
        if let Ok(below) = tree.child(path[0]) {
            lemma_graft_push(below, path.drop_first(), right, replacement);
        }
    }
}

/// Editing at an address replaces the part at the end of the address's path
/// and keeps everything beside the path.
pub proof fn lemma_edit_is_graft(base: Tree, address: nat, replacement: Tree)
    requires
        address >= 1,
    ensures
        base.edit(address, replacement) == base.graft(path_of(address), replacement),
    decreases address,
{
    if address >= 2 {
        let parent = address / 2;
        let right = address % 2 == 1;
        lemma_slot_is_descend(base, parent);
        lemma_graft_push(base, path_of(parent), right, replacement);
        if let Ok(Tree::Pair(l, r)) = base.slot(parent) {
            if right {
                lemma_edit_is_graft(base, parent, pair(*l, replacement));
            } else {
                lemma_edit_is_graft(base, parent, pair(replacement, *r));
            }
        }
    }
}

/// Whether two paths part ways: at some step, which both have, one goes left
/// and the other right.
pub open spec fn diverge(p: Seq<bool>, q: Seq<bool>) -> bool
    decreases p.len(),
{
    p.len() > 0 && q.len() > 0 && (p[0] != q[0] || diverge(p.drop_first(), q.drop_first()))
}

/// Replacing the part at the end of one path changes nothing that is found
/// along a path that parts ways with it.
pub proof fn lemma_graft_keeps_other_parts(
    tree: Tree,
    path: Seq<bool>,
    other: Seq<bool>,
    replacement: Tree,
)
    requires
        diverge(path, other),
        tree.graft(path, replacement) is Ok,
    ensures
        tree.graft(path, replacement).unwrap().descend(other) == tree.descend(other),
    decreases path.len(),
{
    if let Tree::Pair(l, r) = tree {
        if path[0] == other[0] {
            let below = if path[0] {
                *r
            } else {
                *l
            };
            lemma_graft_keeps_other_parts(
                below,
                path.drop_first(),
                other.drop_first(),
                replacement,
            );
        }
    }
}

/// Editing at one address changes no part at an address whose path parts
/// ways with the path of the edited address.
pub proof fn lemma_edit_keeps_other_parts(
    base: Tree,
    address: nat,
    other: nat,
    replacement: Tree,
)
    requires
        address >= 1,
        other >= 1,
        diverge(path_of(address), path_of(other)),
        base.edit(address, replacement) is Ok,
    ensures
        base.edit(address, replacement).unwrap().slot(other) == base.slot(other),
{
    lemma_edit_is_graft(base, address, replacement);
    lemma_graft_keeps_other_parts(base, path_of(address), path_of(other), replacement);
    lemma_slot_is_descend(base, other);
    lemma_slot_is_descend(base.edit(address, replacement).unwrap(), other);
}

/// Editing at the root returns the replacement, whatever the base.
pub proof fn lemma_edit_root(base: Tree, replacement: Tree)
    ensures
        base.edit(1, replacement) == Ok::<Tree, EvalError>(replacement),
{
}

/// Editing succeeds at exactly the addresses that the base has, and fails
/// with the error of looking the address up.
pub proof fn lemma_edit_reaches(base: Tree, address: nat, replacement: Tree)
    ensures
        base.edit(address, replacement) is Ok <==> base.slot(address) is Ok,
        base.slot(address) matches Err(e) ==> base.edit(address, replacement) == Err::<
            Tree,
            EvalError,
        >(e),
    decreases address,
{
    if address >= 2 {
        if address % 2 == 0 {
            if let Ok(sibling) = base.slot(address + 1) {
                lemma_edit_reaches(base, address / 2, pair(replacement, sibling));
            }
        } else {
            if let Ok(sibling) = base.slot((address - 1) as nat) {
                lemma_edit_reaches(base, address / 2, pair(sibling, replacement));
            }
        }
    }
}

/// Looking up, in an edited tree, the address that was edited gives the
/// replacement back.
pub proof fn lemma_slot_of_edit(base: Tree, address: nat, replacement: Tree)
    requires
        base.slot(address) is Ok,
    ensures
        base.edit(address, replacement) matches Ok(edited) && edited.slot(address) == Ok::<
            Tree,
            EvalError,
        >(replacement),
    decreases address,
{
    if address >= 2 {
        if address % 2 == 0 {
            let sibling = base.slot(address + 1).unwrap();
            lemma_slot_of_edit(base, address / 2, pair(replacement, sibling));
        } else {
            let sibling = base.slot((address - 1) as nat).unwrap();
            lemma_slot_of_edit(base, address / 2, pair(sibling, replacement));
        }
    }
}

/// `base` with the part at `address` replaced by `replacement`. Fails where
/// `base` has no part at `address`.
pub fn edit_n(address: u128, replacement: &Rc<Noun>, base: &Rc<Noun>) -> (r: EvalResult)
    ensures
        outcome(r) == base@.edit(address as nat, replacement@),
    decreases address,
{
    if address == 0 {
        return Err(EvalError::AddressZero);
    }
    if address == 1 {
        return Ok(replacement.clone());
    }
    if address % 2 == 0 {
        let sibling = slot_n(address + 1, base)?;
        edit_n(address / 2, &Noun::cell(replacement.clone(), sibling), base)
    } else {
        let sibling = slot_n(address - 1, base)?;
        edit_n(address / 2, &Noun::cell(sibling, replacement.clone()), base)
    }
}

} // verus!
