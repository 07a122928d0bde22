//! Undo / redo log of deliberate memory patches.
use std::collections::VecDeque;
use vstd::prelude::*;

verus! {

/// A copy of `v`.
pub fn copy_bytes(v: &[u8]) -> (r: Vec<u8>)
    ensures
        r@ == v@,
{
    let mut r: Vec<u8> = Vec::with_capacity(v.len());
    let mut i: usize = 0;
    while i < v.len()
        invariant
            i <= v@.len(),
            r@ == v@.subrange(0, i as int),
        decreases v@.len() - i,
    {
        r.push(v[i]);
        i += 1;
        assert(r@ =~= v@.subrange(0, i as int));
    }
    assert(v@.subrange(0, v@.len() as int) =~= v@);
    r
}

/// Mathematical value of a patch.
pub struct PatchView {
    pub address: u32,
    pub old_bytes: Seq<u8>,
    pub new_bytes: Seq<u8>,
}

/// One memory modification: the bytes at `address` before and after.
#[derive(Debug, Clone)]
pub struct MemoryPatch {
    pub address: u32,
    pub old_bytes: Vec<u8>,
    pub new_bytes: Vec<u8>,
}

impl View for MemoryPatch {
    type V = PatchView;

    open spec fn view(&self) -> PatchView {
        PatchView { address: self.address, old_bytes: self.old_bytes@, new_bytes: self.new_bytes@ }
    }
}

/// The patch that undoes `p`.
pub open spec fn inverse_of(p: PatchView) -> PatchView {
    PatchView { address: p.address, old_bytes: p.new_bytes, new_bytes: p.old_bytes }
}

impl MemoryPatch {
    pub fn new(address: u32, old_bytes: Vec<u8>, new_bytes: Vec<u8>) -> (r: Self)
        ensures
            r@ == (PatchView { address, old_bytes: old_bytes@, new_bytes: new_bytes@ }),
    {
        MemoryPatch { address, old_bytes, new_bytes }
    }

    /// The patch with old and new bytes swapped.
    pub fn inverse(&self) -> (r: Self)
        ensures
            r@ == inverse_of(self@),
    {
        MemoryPatch {
            address: self.address,
            old_bytes: copy_bytes(&self.new_bytes),
            new_bytes: copy_bytes(&self.old_bytes),
        }
    }

    /// A copy of this patch.
    pub fn duplicate(&self) -> (r: Self)
        ensures
            r@ == self@,
    {
        MemoryPatch { address: self.address, old_bytes: copy_bytes(&self.old_bytes), new_bytes: copy_bytes(&self.new_bytes) }
    }
}

/// The views of a sequence of patches.
pub open spec fn patch_views(s: Seq<MemoryPatch>) -> Seq<PatchView> {
    s.map_values(|p: MemoryPatch| p@)
}

/// `s` with its oldest entry dropped while it holds more than `max`.
pub open spec fn bounded(s: Seq<PatchView>, max: nat) -> Seq<PatchView> {
    if s.len() > max { s.drop_first() } else { s }
}

/// Two bounded stacks: patches that can be undone and patches that can be redone.
#[derive(Debug)]
pub struct History {
    undo_stack: VecDeque<MemoryPatch>,
    redo_stack: VecDeque<MemoryPatch>,
    max_history: usize,
}

impl History {
    /// Patches that can be undone, oldest first.
    pub closed spec fn undo_seq(&self) -> Seq<PatchView> {
        patch_views(self.undo_stack@)
    }

    /// Patches that can be redone, the next one last.
    pub closed spec fn redo_seq(&self) -> Seq<PatchView> {
        patch_views(self.redo_stack@)
    }

    pub closed spec fn max(&self) -> nat {
        self.max_history as nat
    }

    pub fn new(max_history: usize) -> (r: Self)
        ensures
            r.undo_seq() == Seq::<PatchView>::empty(),
            r.redo_seq() == Seq::<PatchView>::empty(),
            r.max() == max_history,
    {
        let r = History { undo_stack: VecDeque::new(), redo_stack: VecDeque::new(), max_history };
        proof {
            assert(r.undo_seq() =~= Seq::<PatchView>::empty());
            assert(r.redo_seq() =~= Seq::<PatchView>::empty());
        }
        r
    }

    /// Records a new patch; the redo stack is cleared and the oldest entry is
    /// dropped past the bound.
    pub fn record(&mut self, patch: MemoryPatch)
        ensures
            final(self).undo_seq() == bounded(old(self).undo_seq().push(patch@), old(self).max()),
            final(self).redo_seq() == Seq::<PatchView>::empty(),
            final(self).max() == old(self).max(),
    {
        self.undo_stack.push_back(patch);
        self.redo_stack.clear();
        let ghost pushed = patch_views(self.undo_stack@);
        proof {
            assert(pushed =~= old(self).undo_seq().push(patch@));
        }
        if self.undo_stack.len() > self.max_history {
            self.undo_stack.pop_front();
            proof {
                assert(patch_views(self.undo_stack@) =~= pushed.drop_first());
            }
        }
        proof {
            assert(self.redo_seq() =~= Seq::<PatchView>::empty());
        }
    }

    /// Takes the latest patch off the undo stack onto the redo stack and returns
    /// its inverse; `None` when there is nothing to undo.
    pub fn undo(&mut self) -> (r: Option<MemoryPatch>)
        ensures
            old(self).undo_seq().len() == 0 ==> r is None && *final(self) == *old(self),
            old(self).undo_seq().len() > 0 ==> {
                &&& r matches Some(p) && p@ == inverse_of(old(self).undo_seq().last())
                &&& final(self).undo_seq() == old(self).undo_seq().drop_last()
                &&& final(self).redo_seq() == old(self).redo_seq().push(old(self).undo_seq().last())
            },
            final(self).max() == old(self).max(),
    {
        if self.undo_stack.len() == 0 {
            return None;
        }
        match self.undo_stack.pop_back() {
            Some(patch) => {
                let inverse = patch.inverse();
                self.redo_stack.push_back(patch);
                proof {
                    assert(self.undo_seq() =~= old(self).undo_seq().drop_last());
                    assert(self.redo_seq() =~= old(self).redo_seq().push(old(self).undo_seq().last()));
                }
                Some(inverse)
            },
            None => None,
        }
    }

    /// Takes the latest undone patch back onto the undo stack and returns it;
    /// `None` when there is nothing to redo.
    pub fn redo(&mut self) -> (r: Option<MemoryPatch>)
        ensures
            old(self).redo_seq().len() == 0 ==> r is None && *final(self) == *old(self),
            old(self).redo_seq().len() > 0 ==> {
                &&& r matches Some(p) && p@ == old(self).redo_seq().last()
                &&& final(self).redo_seq() == old(self).redo_seq().drop_last()
                &&& final(self).undo_seq() == old(self).undo_seq().push(old(self).redo_seq().last())
            },
            final(self).max() == old(self).max(),
    {
        if self.redo_stack.len() == 0 {
            return None;
        }
        match self.redo_stack.pop_back() {
            Some(patch) => {
                let forward = patch.duplicate();
                self.undo_stack.push_back(patch);
                proof {
                    assert(self.redo_seq() =~= old(self).redo_seq().drop_last());
                    assert(self.undo_seq() =~= old(self).undo_seq().push(old(self).redo_seq().last()));
                }
                Some(forward)
            },
            None => None,
        }
    }

    pub fn can_undo(&self) -> (r: bool)
        ensures
            r == (self.undo_seq().len() > 0),
    {
        self.undo_stack.len() > 0
    }

    pub fn can_redo(&self) -> (r: bool)
        ensures
            r == (self.redo_seq().len() > 0),
    {
        self.redo_stack.len() > 0
    }

    pub fn undo_count(&self) -> (r: usize)
        ensures
            r == self.undo_seq().len(),
    {
        self.undo_stack.len()
    }

    pub fn redo_count(&self) -> (r: usize)
        ensures
            r == self.redo_seq().len(),
    {
        self.redo_stack.len()
    }

    /// Empties both stacks.
    pub fn clear(&mut self)
        ensures
            final(self).undo_seq() == Seq::<PatchView>::empty(),
            final(self).redo_seq() == Seq::<PatchView>::empty(),
            final(self).max() == old(self).max(),
    {
        self.undo_stack.clear();
        self.redo_stack.clear();
        proof {
            assert(self.undo_seq() =~= Seq::<PatchView>::empty());
            assert(self.redo_seq() =~= Seq::<PatchView>::empty());
        }
    }
}

} // verus!
