//! How the interpreter's frames are linked: each block frame knows the frame
//! its block was made in (its lexical parent), and the call chain orders the
//! active frames. A non-local return unwinds the chain down to the method
//! frame that lexically encloses the current block, or finds that this frame
//! is no longer active (the block has escaped).

use vstd::prelude::*;

verus! {

/// The links between the interpreter's frames, each known by its number.
pub struct FrameLinks {
    /// For each frame: the frame its block was made in, or `None` for the
    /// frame of a method.
    pub outer: Vec<Option<usize>>,
    /// The active frames, from the oldest to the current one.
    pub chain: Vec<usize>,
}

/// The frame `n` lexical levels out from the frame `f`; `None` when a
/// method frame (or an unknown frame) is met before.
pub open spec fn nth_back(outer: Seq<Option<usize>>, f: nat, n: nat) -> Option<nat>
    decreases n,
{
    if n == 0 {
        Some(f)
    } else if f < outer.len() && outer[f as int] is Some {
        nth_back(outer, outer[f as int]->Some_0 as nat, (n - 1) as nat)
    } else {
        None
    }
}

/// How many frames lie above the topmost occurrence of `target` in a call
/// chain; `None` when it is not in the chain.
pub open spec fn depth_from_top(chain: Seq<usize>, target: nat) -> Option<nat>
    decreases chain.len(),
{
    if chain.len() == 0 {
        None
    } else if chain.last() == target {
        Some(0)
    } else {
        match depth_from_top(chain.drop_last(), target) {
            Some(d) => Some(d + 1),
            None => None,
        }
    }
}

/// What a non-local return does.
#[derive(Clone, Copy, Debug, PartialEq, Eq, Structural)]
pub enum NonLocalReturn {
    /// Pop this many frames (those above the method frame, and the method
    /// frame itself), then push the value.
    Unwind(usize),
    /// The method frame is no longer active: the block has escaped, and its
    /// receiver is sent `escapedBlock:`.
    Escaped,
}

impl FrameLinks {
    /// The frame `n` lexical levels out from the frame `current`.
    pub fn nth_frame_back(&self, current: usize, n: u8) -> (r: usize)
        requires
            nth_back(self.outer@, current as nat, n as nat) is Some,
        ensures
            r as nat == nth_back(self.outer@, current as nat, n as nat)->Some_0,
    {
        let mut target = current;
        let mut i: u8 = 0;
        while i < n
            invariant
                i <= n,
                nth_back(self.outer@, current as nat, n as nat) == nth_back(
                    self.outer@,
                    target as nat,
                    (n - i) as nat,
                ),
                nth_back(self.outer@, target as nat, (n - i) as nat) is Some,
            decreases n - i,
        {
            target = self.outer[target].unwrap();
            i += 1;
        }
        target
    }

    /// How many frames lie above the topmost occurrence of `target` in the
    /// call chain, if it is active.
    pub fn frames_above(&self, target: usize) -> (r: Option<usize>)
        ensures
            match depth_from_top(self.chain@, target as nat) {
                Some(d) => r == Some(d as usize),
                None => r is None,
            },
    {
        let n = self.chain.len();
        let mut k: usize = n;
        assert(self.chain@.subrange(0, n as int) =~= self.chain@);
        while k > 0
            invariant
                k <= n,
                n == self.chain@.len(),
                depth_from_top(self.chain@, target as nat) == (match depth_from_top(
                    self.chain@.subrange(0, k as int),
                    target as nat,
                ) {
                    Some(d) => Some((d + (n - k)) as nat),
                    None => None::<nat>,
                }),
            decreases k,
        {
            let ghost sub = self.chain@.subrange(0, k as int);
            assert(sub.drop_last() =~= self.chain@.subrange(0, k - 1));
            if self.chain[k - 1] == target {
                return Some(n - k);
            }
            k -= 1;
        }
        None
    }

    /// Where a non-local return from the current frame to the method `up`
    /// lexical levels out goes.
    pub fn non_local_return(&self, up: u8) -> (r: NonLocalReturn)
        requires
            self.chain@.len() > 0,
            nth_back(self.outer@, self.chain@.last() as nat, up as nat) is Some,
        ensures
            match depth_from_top(
                self.chain@,
                nth_back(self.outer@, self.chain@.last() as nat, up as nat)->Some_0,
            ) {
                Some(d) => r == NonLocalReturn::Unwind((d + 1) as usize),
                None => r == NonLocalReturn::Escaped,
            },
    {
        let current = self.chain[self.chain.len() - 1];
        let method_frame = self.nth_frame_back(current, up);
        match self.frames_above(method_frame) {
            Some(count) => {
                proof {
                    lemma_depth_below_len(self.chain@, method_frame as nat);
                }
                NonLocalReturn::Unwind(count + 1)
            },
            None => NonLocalReturn::Escaped,
        }
    }

    /// Pops the current frame.
    pub fn pop_frame(&mut self)
        requires
            old(self).chain@.len() > 0,
        ensures
            final(self).chain@ == old(self).chain@.drop_last(),
            final(self).outer == old(self).outer,
    {
        self.chain.pop();
    }

    /// Pops `n` frames; one frame at least stays active.
    pub fn pop_n_frames(&mut self, n: usize)
        requires
            n < old(self).chain@.len(),
        ensures
            final(self).chain@ == old(self).chain@.subrange(0, old(self).chain@.len() - n),
            final(self).outer == old(self).outer,
    {
        let mut i: usize = 0;
        while i < n
            invariant
                i <= n,
                n < old(self).chain@.len(),
                self.outer == old(self).outer,
                self.chain@ == old(self).chain@.subrange(0, old(self).chain@.len() - i),
            decreases n - i,
        {
            self.chain.pop();
            assert(self.chain@ =~= old(self).chain@.subrange(0, old(self).chain@.len() - (i + 1)));
            i += 1;
        }
    }
}

/// The frames that a non-local return unwinds are exactly the method frame's
/// topmost occurrence in the call chain and those above it: that occurrence
/// is the method frame, and no frame above it is.
pub proof fn lemma_unwind_stops_at_method_frame(chain: Seq<usize>, target: nat)
    requires
        depth_from_top(chain, target) is Some,
    ensures
        ({
            let d = depth_from_top(chain, target)->Some_0;
            &&& d < chain.len()
            &&& chain[chain.len() - 1 - d] == target
            &&& forall|i: int| chain.len() - d <= i < chain.len() ==> chain[i] != target
        }),
    decreases chain.len(),
{
    if chain.last() != target {
        let rest = chain.drop_last();
        lemma_unwind_stops_at_method_frame(rest, target);
        let d = depth_from_top(chain, target)->Some_0;
        assert forall|i: int| chain.len() - d <= i < chain.len() implies chain[i] != target by {
            if i < chain.len() - 1 {
                assert(chain[i] == rest[i]);
            }
        }
    }
}

/// A frame's depth from the top is below the chain's length.
proof fn lemma_depth_below_len(chain: Seq<usize>, target: nat)
    ensures
        depth_from_top(chain, target) matches Some(d) ==> d < chain.len(),
    decreases chain.len(),
{
    if chain.len() > 0 && chain.last() != target {
        lemma_depth_below_len(chain.drop_last(), target);
    }
}

} // verus!
