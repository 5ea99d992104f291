//! Settings of the mesh modifiers.
use vstd::prelude::*;

verus! {

/// How a subdivision modifier subdivides.
#[derive(Clone, Debug)]
pub enum SubdivAlgorithm {
    CatmullClark,
    Simple,
    Linear,
}

/// Which edges a bevel modifier bevels.
#[derive(Clone, Debug)]
pub enum BevelLimitMethod {
    NoLimit,
    Angle,
    Weight,
    VertexGroup,
}

/// A boolean operation between two meshes.
#[derive(Clone, Debug)]
pub enum BooleanOp {
    Union,
    Difference,
    Intersect,
}

/// How a decimate modifier reduces geometry.
#[derive(Clone, Debug)]
pub enum DecimateMode {
    Collapse,
    UnSubdivide,
    Planar,
}

/// How a triangulate modifier splits quads.
#[derive(Clone, Debug)]
pub enum TriangulateQuadMethod {
    Beauty,
    Fixed,
    Alternate,
    FixedAlt,
}

/// An ordered stack of modifiers, applied first to last when enabled. The
/// modifiers themselves (which carry floating-point settings) are of any
/// type `M`.
pub struct ModifierStack<M> {
    pub modifiers: Vec<M>,
    pub enabled: bool,
}

impl<M> Default for ModifierStack<M> {
    fn default() -> (s: Self)
        ensures
            s.modifiers@.len() == 0,
            s.enabled,
    {
        ModifierStack { modifiers: Vec::new(), enabled: true }
    }
}

/// The modifiers with the ones at `i` and `j` exchanged.
pub open spec fn swapped<M>(s: Seq<M>, i: int, j: int) -> Seq<M> {
    s.update(i, s[j]).update(j, s[i])
}

impl<M> ModifierStack<M> {
    /// An empty, enabled stack.
    pub fn new() -> (s: Self)
        ensures
            s.modifiers@.len() == 0,
            s.enabled,
    {
        Self::default()
    }

    /// Puts a modifier on top of the stack.
    pub fn add(&mut self, modifier: M)
        ensures
            final(self).modifiers@ == old(self).modifiers@.push(modifier),
            final(self).enabled == old(self).enabled,
    {
        self.modifiers.push(modifier);
    }

    /// Removes the modifier at `index`, if there is one.
    pub fn remove(&mut self, index: usize)
        ensures
            final(self).modifiers@ == if index < old(self).modifiers@.len() {
                old(self).modifiers@.remove(index as int)
            } else {
                old(self).modifiers@
            },
            final(self).enabled == old(self).enabled,
    {
        if index < self.modifiers.len() {
            self.modifiers.remove(index);
        }
    }

    /// Moves the modifier at `index` one place towards the bottom (it
    /// changes places with the one before it); nothing happens at the
    /// bottom or past the end.
    pub fn move_up(&mut self, index: usize)
        ensures
            final(self).modifiers@ == if 0 < index < old(self).modifiers@.len() {
                swapped(old(self).modifiers@, index as int, index - 1)
            } else {
                old(self).modifiers@
            },
            final(self).enabled == old(self).enabled,
    {
        if index > 0 && index < self.modifiers.len() {
            let m = self.modifiers.remove(index);
            self.modifiers.insert(index - 1, m);
            proof {
                assert(self.modifiers@ =~= swapped(old(self).modifiers@, index as int, index - 1));
            }
        }
    }

    /// Moves the modifier at `index` one place towards the top (it changes
    /// places with the one after it); nothing happens at the top or past
    /// the end.
    pub fn move_down(&mut self, index: usize)
        ensures
            final(self).modifiers@ == if index + 1 < old(self).modifiers@.len() {
                swapped(old(self).modifiers@, index as int, index + 1)
            } else {
                old(self).modifiers@
            },
            final(self).enabled == old(self).enabled,
    {
        if index < self.modifiers.len().saturating_sub(1) {
            let m = self.modifiers.remove(index);
            self.modifiers.insert(index + 1, m);
            proof {
                assert(self.modifiers@ =~= swapped(old(self).modifiers@, index as int, index + 1));
            }
        }
    }
}

/// Moving a modifier up and then moving it (now one place lower) down
/// again restores the stack; so does moving down and then up.
pub proof fn law_move_up_down<M>(s: Seq<M>, i: int)
    requires
        0 < i < s.len(),
    ensures
        swapped(swapped(s, i, i - 1), i - 1, i) == s,
        swapped(swapped(s, i - 1, i), i, i - 1) == s,
{
    assert(swapped(swapped(s, i, i - 1), i - 1, i) =~= s);
    assert(swapped(swapped(s, i - 1, i), i, i - 1) =~= s);
}

} // verus!
