//! The peephole pass that removes redundant `DUP; POP_x; POP` sequences from a
//! compiled body: `DUP` followed by a store followed by `POP` is the same as the
//! store alone, so the `DUP` and the `POP` go, and jumps over them are shortened.

use crate::bytecode::{
    Bytecode, adjusted_jump_offset, forward_jump_offset, get_adjusted_jump_offset,
    get_forward_jump_offset, set_jump_offset, with_jump_offset, jump_offset,
};
use vstd::prelude::*;

verus! {

/// A store into a field, a local or an argument.
pub open spec fn is_pop_x(bc: Bytecode) -> bool {
    bc is PopField || bc is PopLocal || bc is PopArg
}

/// `b[i..i+3]` is `DUP; POP_x; POP`.
pub open spec fn is_dup_popx_pop_at(b: Seq<Bytecode>, i: int) -> bool {
    &&& 0 <= i
    &&& i + 2 < b.len()
    &&& b[i] == Bytecode::Dup
    &&& is_pop_x(b[i + 1])
    &&& b[i + 2] == Bytecode::Pop
}

/// The forward jump at `j` lands on `t`.
pub open spec fn jumps_to(b: Seq<Bytecode>, j: int, t: int) -> bool {
    &&& 0 <= j < b.len()
    &&& match forward_jump_offset(b[j]) {
        Some(o) => j + o == t,
        None => false,
    }
}

/// Some forward jump lands on `t`.
pub open spec fn is_jump_target(b: Seq<Bytecode>, t: int) -> bool {
    exists|j: int| #[trigger] jumps_to(b, j, t)
}

/// A `DUP; POP_x; POP` at `i` whose `DUP` and `POP` no jump lands on.
pub open spec fn removable(b: Seq<Bytecode>, i: int) -> bool {
    &&& is_dup_popx_pop_at(b, i)
    &&& !is_jump_target(b, i)
    &&& !is_jump_target(b, i + 2)
}

/// The instruction at `k` is removed: it is the `DUP` or the `POP` of a
/// removable sequence.
pub open spec fn is_removed(b: Seq<Bytecode>, k: int) -> bool {
    removable(b, k) || removable(b, k - 2)
}

/// Whether anything is removed at all.
pub open spec fn has_removal(b: Seq<Bytecode>) -> bool {
    exists|i: int| #[trigger] removable(b, i)
}

/// The number of removed instructions with an index in `[lo, hi)`.
pub open spec fn count_removed(b: Seq<Bytecode>, lo: int, hi: int) -> int
    decreases hi - lo,
{
    if hi <= lo {
        0
    } else {
        count_removed(b, lo, hi - 1) + if is_removed(b, hi - 1) {
            1int
        } else {
            0int
        }
    }
}

/// The instruction at `j` with its jump offset shortened by the number of
/// removed instructions it jumps over.
pub open spec fn patched(b: Seq<Bytecode>, j: int) -> Bytecode {
    match adjusted_jump_offset(b[j]) {
        Some(o) => with_jump_offset(b[j], (o - count_removed(b, j + 1, j + o + 1)) as u16),
        None => match b[j] {
            Bytecode::JumpBackward(o) => Bytecode::JumpBackward(
                (o - count_removed(b, j - o + 1, j)) as u16,
            ),
            _ => b[j],
        },
    }
}

/// The kept instructions among the first `n`, patched, in order.
pub open spec fn compacted(b: Seq<Bytecode>, n: int) -> Seq<Bytecode>
    decreases n,
{
    if n <= 0 {
        Seq::empty()
    } else {
        compacted(b, n - 1) + if is_removed(b, n - 1) {
            Seq::<Bytecode>::empty()
        } else {
            seq![patched(b, n - 1)]
        }
    }
}

/// The body after the pass.
pub open spec fn without_dup_popx_pop(b: Seq<Bytecode>) -> Seq<Bytecode> {
    if b.len() < 3 || !has_removal(b) {
        b
    } else {
        compacted(b, b.len() as int)
    }
}

/// The inputs on which the pass runs without an arithmetic fault: positions
/// plus offsets fit in a `usize`, and a backward jump that reaches before the
/// start of the body has no removed instruction before it.
pub open spec fn dup_popx_pop_precondition(b: Seq<Bytecode>) -> bool {
    &&& b.len() + 0x10000 <= usize::MAX
    &&& forall|j: int|
        0 <= j < b.len() ==> match #[trigger] b[j] {
            Bytecode::JumpBackward(o) => o > j ==> count_removed(b, 0, j) == 0,
            _ => true,
        }
}

proof fn lemma_count_bounds(b: Seq<Bytecode>, lo: int, hi: int)
    ensures
        0 <= count_removed(b, lo, hi),
        lo <= hi ==> count_removed(b, lo, hi) <= hi - lo,
    decreases hi - lo,
{
    if hi > lo {
        lemma_count_bounds(b, lo, hi - 1);
    }
}

proof fn lemma_count_split(b: Seq<Bytecode>, lo: int, mid: int, hi: int)
    requires
        lo <= mid <= hi,
    ensures
        count_removed(b, lo, hi) == count_removed(b, lo, mid) + count_removed(b, mid, hi),
    decreases hi - mid,
{
    if hi > mid {
        lemma_count_split(b, lo, mid, hi - 1);
    }
}

proof fn lemma_count_none(b: Seq<Bytecode>, lo: int, hi: int)
    requires
        forall|k: int| lo <= k < hi ==> !is_removed(b, k),
    ensures
        count_removed(b, lo, hi) == 0,
    decreases hi - lo,
{
    if hi > lo {
        lemma_count_none(b, lo, hi - 1);
    }
}

proof fn lemma_not_removed_outside(b: Seq<Bytecode>, k: int)
    requires
        k < 0 || k >= b.len(),
    ensures
        !is_removed(b, k),
{
}

/// Whether a forward jump lands on `t`.
fn is_target(body: &Vec<Bytecode>, t: usize) -> (r: bool)
    requires
        body@.len() + 0x10000 <= usize::MAX,
    ensures
        r == is_jump_target(body@, t as int),
{
    let n = body.len();
    let mut j: usize = 0;
    while j < n
        invariant
            n == body@.len(),
            n + 0x10000 <= usize::MAX,
            j <= n,
            forall|k: int| 0 <= k < j ==> !jumps_to(body@, k, t as int),
        decreases n - j,
    {
        match get_forward_jump_offset(&body[j]) {
            Some(o) => {
                if j + (o as usize) == t {
                    assert(jumps_to(body@, j as int, t as int));
                    return true;
                }
            },
            None => {},
        }
        j += 1;
    }
    proof {
        assert forall|k: int| !jumps_to(body@, k, t as int) by {
            if 0 <= k < n {
            }
        }
    }
    false
}

/// Whether a `DUP; POP_x; POP` starts at `i`.
fn is_dup_popx_pop(body: &Vec<Bytecode>, i: usize) -> (r: bool)
    requires
        i + 2 < body@.len(),
    ensures
        r == is_dup_popx_pop_at(body@, i as int),
{
    let n = body.len();
    let a = matches!(body[i], Bytecode::Dup);
    let b = matches!(body[i + 1], Bytecode::PopField(..) | Bytecode::PopLocal(..) | Bytecode::PopArg(..));
    let c = matches!(body[i + 2], Bytecode::Pop);
    a && b && c
}

/// Counts the marked positions in `[lo, hi)`, where positions past the end of
/// the mask count as unmarked.
fn count_marked(removed: &Vec<bool>, lo: usize, hi: usize, Ghost(b): Ghost<Seq<Bytecode>>) -> (r: usize)
    requires
        removed@.len() == b.len(),
        forall|k: int| 0 <= k < b.len() ==> removed@[k] == is_removed(b, k),
        lo <= hi,
    ensures
        r == count_removed(b, lo as int, hi as int),
{
    let n = removed.len();
    let end = if hi < n { hi } else { n };
    let mut c: usize = 0;
    let mut k: usize = lo;
    if lo >= end {
        proof {
            assert forall|x: int| lo <= x < hi implies !is_removed(b, x) by {
                lemma_not_removed_outside(b, x);
            }
            lemma_count_none(b, lo as int, hi as int);
        }
        return 0;
    }
    while k < end
        invariant
            lo <= k <= end,
            end <= n,
            n == b.len(),
            removed@.len() == b.len(),
            forall|x: int| 0 <= x < b.len() ==> removed@[x] == is_removed(b, x),
            c == count_removed(b, lo as int, k as int),
            c <= k - lo,
        decreases end - k,
    {
        if removed[k] {
            c += 1;
        }
        k += 1;
    }
    proof {
        assert forall|x: int| end <= x < hi implies !is_removed(b, x) by {
            lemma_not_removed_outside(b, x);
        }
        lemma_count_none(b, end as int, hi as int);
        lemma_count_split(b, lo as int, end as int, hi as int);
    }
    c
}

/// The instruction at `j`, with its jump offset adjusted.
fn patch_at(body: &Vec<Bytecode>, removed: &Vec<bool>, j: usize) -> (r: Bytecode)
    requires
        j < body@.len(),
        dup_popx_pop_precondition(body@),
        removed@.len() == body@.len(),
        forall|k: int| 0 <= k < body@.len() ==> removed@[k] == is_removed(body@, k),
    ensures
        r == patched(body@, j as int),
{
    let ghost b = body@;
    let bc = body[j];
    match get_adjusted_jump_offset(&bc) {
        Some(o) => {
            let c = count_marked(removed, j + 1, j + (o as usize) + 1, Ghost(b));
            proof {
                lemma_count_bounds(b, j + 1, j + o + 1);
            }
            set_jump_offset(bc, o - (c as u16))
        },
        None => match bc {
            Bytecode::JumpBackward(o) => {
                let ou = o as usize;
                if ou == 0 {
                    Bytecode::JumpBackward(o)
                } else if ou <= j {
                    let c = count_marked(removed, j + 1 - ou, j, Ghost(b));
                    proof {
                        lemma_count_bounds(b, j - o + 1, j as int);
                    }
                    Bytecode::JumpBackward(o - (c as u16))
                } else {
                    proof {
                        assert(b[j as int] == Bytecode::JumpBackward(o));
                        assert(count_removed(b, 0, j as int) == 0);
                        assert forall|x: int| j - o + 1 <= x < 0 implies !is_removed(b, x) by {
                            lemma_not_removed_outside(b, x);
                        }
                        lemma_count_none(b, j - o + 1, 0);
                        lemma_count_split(b, j - o + 1, 0, j as int);
                    }
                    Bytecode::JumpBackward(o)
                }
            },
            _ => bc,
        },
    }
}

/// Removes every `DUP; POP_x; POP` sequence whose `DUP` and `POP` no forward
/// jump lands on, keeping the `POP_x`, and shortens the jumps over them.
pub fn remove_dup_popx_pop(body: &Vec<Bytecode>) -> (r: Vec<Bytecode>)
    requires
        dup_popx_pop_precondition(body@),
    ensures
        r@ == without_dup_popx_pop(body@),
{
    let ghost b = body@;
    let n = body.len();
    if n < 3 {
        return body.clone();
    }
    // Which positions start a removable sequence.
    let mut starts: Vec<bool> = Vec::new();
    let mut any = false;
    let mut i: usize = 0;
    while i < n
        invariant
            n == b.len(),
            b == body@,
            n + 0x10000 <= usize::MAX,
            i <= n,
            starts@.len() == i,
            forall|k: int| 0 <= k < i ==> starts@[k] == removable(b, k),
            any == (exists|k: int| 0 <= k < i && #[trigger] removable(b, k)),
        decreases n - i,
    {
        let s = if i + 2 < n {
            is_dup_popx_pop(body, i) && !is_target(body, i) && !is_target(body, i + 2)
        } else {
            false
        };
        assert(s == removable(b, i as int));
        starts.push(s);
        if s {
            any = true;
        }
        proof {
            assert(any == (exists|k: int| 0 <= k < i + 1 && #[trigger] removable(b, k))) by {
                if any && !s {
                    let w = choose|k: int| 0 <= k < i && #[trigger] removable(b, k);
                    assert(0 <= w < i + 1 && removable(b, w));
                }
                if s {
                    assert(0 <= i < i + 1 && removable(b, i as int));
                }
            }
        }
        i += 1;
    }
    if !any {
        proof {
            assert forall|k: int| !removable(b, k) by {
                if 0 <= k < n {
                    assert(starts@[k] == removable(b, k));
                }
            }
        }
        return body.clone();
    }
    proof {
        assert(has_removal(b));
    }
    // Which positions are removed.
    let mut removed: Vec<bool> = Vec::new();
    let mut k: usize = 0;
    while k < n
        invariant
            n == b.len(),
            starts@.len() == n,
            forall|x: int| 0 <= x < n ==> starts@[x] == removable(b, x),
            k <= n,
            removed@.len() == k,
            forall|x: int| 0 <= x < k ==> removed@[x] == is_removed(b, x),
        decreases n - k,
    {
        let r = starts[k] || (k >= 2 && starts[k - 2]);
        removed.push(r);
        k += 1;
    }
    // The kept instructions, patched.
    let mut out: Vec<Bytecode> = Vec::new();
    let mut j: usize = 0;
    while j < n
        invariant
            n == b.len(),
            b == body@,
            dup_popx_pop_precondition(b),
            removed@.len() == n,
            forall|x: int| 0 <= x < n ==> removed@[x] == is_removed(b, x),
            j <= n,
            out@ == compacted(b, j as int),
        decreases n - j,
    {
        if !removed[j] {
            let p = patch_at(body, &removed, j);
            out.push(p);
        }
        proof {
            assert(compacted(b, j + 1) == compacted(b, j as int) + if is_removed(b, j as int) {
                Seq::<Bytecode>::empty()
            } else {
                seq![patched(b, j as int)]
            });
        }
        j += 1;
    }
    proof {
        assert(out@ =~= compacted(b, n as int));
    }
    out
}

/// The kept instructions among the first `n` are compacted in order: the
/// kept instruction at `k` lands at `k` minus the number of removed ones
/// before it.
proof fn lemma_compacted_index(b: Seq<Bytecode>, n: int, k: int)
    requires
        0 <= k < n,
        !is_removed(b, k),
    ensures
        compacted(b, n).len() == n - count_removed(b, 0, n),
        0 <= k - count_removed(b, 0, k) < compacted(b, n).len(),
        compacted(b, n)[k - count_removed(b, 0, k)] == patched(b, k),
    decreases n,
{
    lemma_compacted_len(b, n - 1);
    lemma_count_bounds(b, 0, k);
    if k < n - 1 {
        lemma_compacted_index(b, n - 1, k);
    } else {
        assert(count_removed(b, 0, n) == count_removed(b, 0, n - 1));
    }
}

/// The length of the compacted prefix.
proof fn lemma_compacted_len(b: Seq<Bytecode>, n: int)
    ensures
        n >= 0 ==> compacted(b, n).len() == n - count_removed(b, 0, n),
    decreases n,
{
    if n > 0 {
        lemma_compacted_len(b, n - 1);
    }
}

/// The position an instruction of the original body has in the compacted
/// one.
pub open spec fn new_index(b: Seq<Bytecode>, k: int) -> int {
    k - count_removed(b, 0, k)
}

/// Where a kept forward jump of the kinds the pass adjusts lands, it still
/// lands after the pass: the jump sits at its new position, keeps its kind,
/// and its new offset leads to the new position of its old target, where the
/// same instruction (patched) sits. (A target of a forward jump is never
/// removed.)
pub proof fn lemma_forward_jump_targets_kept(b: Seq<Bytecode>, j: int)
    requires
        0 <= j < b.len(),
        !is_removed(b, j),
        adjusted_jump_offset(b[j]) is Some,
        j + adjusted_jump_offset(b[j])->0 < b.len(),
    ensures
        ({
            let out = without_dup_popx_pop(b);
            let t = j + adjusted_jump_offset(b[j])->0;
            &&& !is_removed(b, t)
            &&& 0 <= new_index(b, j) < out.len()
            &&& adjusted_jump_offset(out[new_index(b, j)]) is Some
            &&& new_index(b, j) + adjusted_jump_offset(out[new_index(b, j)])->0 == new_index(b, t)
            &&& 0 <= new_index(b, t) < out.len()
            &&& out[new_index(b, t)] == patched(b, t)
        }),
{
    let o = adjusted_jump_offset(b[j])->0;
    let t = j + o;
    assert(jumps_to(b, j, t));
    assert(is_jump_target(b, t));
    assert(!is_removed(b, t));
    lemma_count_bounds(b, j + 1, t + 1);
    if o > 0 {
        lemma_count_split(b, 0, j, j + 1);
        lemma_count_split(b, 0, j + 1, t);
        lemma_count_split(b, j + 1, t, t + 1);
    }
    if b.len() < 3 || !has_removal(b) {
        assert forall|k: int| 0 <= k < b.len() implies !is_removed(b, k) by {
            if removable(b, k) {
                assert(has_removal(b));
            }
            if removable(b, k - 2) {
                assert(has_removal(b));
            }
        }
        assert forall|k: int| 0 <= k < t + 1 implies !is_removed(b, k) by {
            if k >= b.len() {
                lemma_not_removed_outside(b, k);
            }
        }
        lemma_count_none(b, 0, t + 1);
        lemma_count_none(b, j + 1, t + 1);
        lemma_count_none(b, 0, t);
        lemma_count_none(b, 0, j);
        assert(patched(b, t) == b[t]) by {
            lemma_count_none(b, t + 1, t + adjusted_jump_offset(b[t])->0 + 1);
            if let Bytecode::JumpBackward(ob) = b[t] {
                lemma_count_none(b, t - ob + 1, t);
            }
        }
    } else {
        lemma_compacted_index(b, b.len() as int, j);
        lemma_compacted_index(b, b.len() as int, t);
    }
}

/// Where a kept backward jump lands on an instruction that is kept, it still
/// lands there after the pass.
pub proof fn lemma_backward_jump_targets_kept(b: Seq<Bytecode>, j: int)
    requires
        0 <= j < b.len(),
        !is_removed(b, j),
        b[j] is JumpBackward,
        0 <= j - b[j]->JumpBackward_0,
        !is_removed(b, j - b[j]->JumpBackward_0),
    ensures
        ({
            let out = without_dup_popx_pop(b);
            let t = j - b[j]->JumpBackward_0;
            &&& 0 <= new_index(b, j) < out.len()
            &&& out[new_index(b, j)] is JumpBackward
            &&& new_index(b, j) - out[new_index(b, j)]->JumpBackward_0 == new_index(b, t)
            &&& 0 <= new_index(b, t) < out.len()
            &&& out[new_index(b, t)] == patched(b, t)
        }),
{
    let o = b[j]->JumpBackward_0;
    let t = j - o;
    if o == 0 {
        lemma_count_split(b, 0, j, j);
    } else {
        lemma_count_bounds(b, t + 1, j);
        lemma_count_split(b, 0, t, t + 1);
        lemma_count_split(b, 0, t + 1, j);
    }
    if b.len() < 3 || !has_removal(b) {
        assert forall|k: int| 0 <= k < b.len() implies !is_removed(b, k) by {
            if removable(b, k) {
                assert(has_removal(b));
            }
            if removable(b, k - 2) {
                assert(has_removal(b));
            }
        }
        lemma_count_none(b, 0, j);
        lemma_count_none(b, 0, t);
        lemma_count_none(b, t + 1, j);
        assert(patched(b, t) == b[t]) by {
            assert forall|k: int| t + 1 <= k < t + adjusted_jump_offset(b[t])->0 + 1 implies !is_removed(b, k) by {
                if k >= b.len() {
                    lemma_not_removed_outside(b, k);
                }
            }
            lemma_count_none(b, t + 1, t + adjusted_jump_offset(b[t])->0 + 1);
            if let Bytecode::JumpBackward(ob) = b[t] {
                assert forall|k: int| t - ob + 1 <= k < t implies !is_removed(b, k) by {
                    if k < 0 {
                        lemma_not_removed_outside(b, k);
                    }
                }
                lemma_count_none(b, t - ob + 1, t);
            }
        }
    } else {
        lemma_compacted_index(b, b.len() as int, j);
        lemma_compacted_index(b, b.len() as int, t);
    }
}

} // verus!
