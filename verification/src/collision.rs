//! Overlap testing between the ball and the blocks, and the outcome of one
//! collision pass over the field.

use vstd::prelude::*;
use crate::blocks::Block;
use crate::units::{BALL_SIZE, BLOCK_HEIGHT, BLOCK_WIDTH};

verus! {

/// Axis-aligned overlap between the ball square at (`bx`, `by`) and a block.
pub open spec fn hits(bx: int, by: int, b: Block) -> bool {
    &&& bx + BALL_SIZE >= b.x
    &&& bx <= b.x + BLOCK_WIDTH
    &&& by + BALL_SIZE >= b.y
    &&& by <= b.y + BLOCK_HEIGHT
}

/// The blocks that survive one pass of the ball, in their original order.
pub open spec fn surviving(bx: int, by: int, s: Seq<Block>) -> Seq<Block>
    decreases s.len(),
{
    if s.len() == 0 {
        Seq::empty()
    } else {
        let rest = surviving(bx, by, s.drop_last());
        if hits(bx, by, s.last()) {
            rest
        } else {
            rest.push(s.last())
        }
    }
}

/// The reward collected in one pass: the points of every overlapped block.
pub open spec fn points_gained(bx: int, by: int, s: Seq<Block>) -> int
    decreases s.len(),
{
    if s.len() == 0 {
        0
    } else {
        points_gained(bx, by, s.drop_last()) + if hits(bx, by, s.last()) {
            s.last().points as int
        } else {
            0
        }
    }
}

/// How many blocks the ball overlaps in one pass; each one independently
/// flips the vertical velocity, so only the parity is visible afterwards.
pub open spec fn hit_count(bx: int, by: int, s: Seq<Block>) -> int
    decreases s.len(),
{
    if s.len() == 0 {
        0
    } else {
        hit_count(bx, by, s.drop_last()) + if hits(bx, by, s.last()) {
            1int
        } else {
            0int
        }
    }
}

/// The reward still standing on the field.
pub open spec fn total_points(s: Seq<Block>) -> int
    decreases s.len(),
{
    if s.len() == 0 {
        0
    } else {
        total_points(s.drop_last()) + s.last().points as int
    }
}

/// One pass partitions the standing reward: what the ball collects plus
/// what survives is exactly what stood before, every quantity in range.
pub proof fn lemma_pass_partition(bx: int, by: int, s: Seq<Block>)
    ensures
        0 <= points_gained(bx, by, s),
        0 <= total_points(s),
        points_gained(bx, by, s) <= total_points(s),
        points_gained(bx, by, s) + total_points(surviving(bx, by, s)) == total_points(s),
        0 <= hit_count(bx, by, s) <= s.len(),
        surviving(bx, by, s).len() <= s.len(),
    decreases s.len(),
{
    if s.len() > 0 {
        lemma_pass_partition(bx, by, s.drop_last());
        if !hits(bx, by, s.last()) {
            let sv = surviving(bx, by, s.drop_last());
            assert(sv.push(s.last()).drop_last() =~= sv);
        }
    }
}

/// The reward standing in a prefix never exceeds the whole field's.
pub proof fn lemma_total_points_prefix(s: Seq<Block>, i: int)
    requires
        0 <= i <= s.len(),
    ensures
        total_points(s.take(i)) <= total_points(s),
    decreases s.len() - i,
{
    if i == s.len() {
        assert(s.take(i) =~= s);
    } else {
        assert(s.take(i + 1).drop_last() =~= s.take(i));
        lemma_total_points_prefix(s, i + 1);
    }
}

/// A pass never creates blocks: every survivor already stood on the field.
pub proof fn lemma_surviving_subset(bx: int, by: int, s: Seq<Block>)
    ensures
        forall|b: Block| #[trigger] surviving(bx, by, s).contains(b) ==> s.contains(b),
    decreases s.len(),
{
    if s.len() > 0 {
        lemma_surviving_subset(bx, by, s.drop_last());
        assert forall|b: Block| surviving(bx, by, s).contains(b) implies s.contains(b) by {
            let sv = surviving(bx, by, s);
            let rest = surviving(bx, by, s.drop_last());
            if !hits(bx, by, s.last()) && b == s.last() {
                assert(s[s.len() - 1] == b);
            } else {
                assert(rest.contains(b)) by {
                    let j: int = choose|j: int| 0 <= j < sv.len() && sv[j] == b;
                    if !hits(bx, by, s.last()) {
                        assert(sv == rest.push(s.last()));
                        assert(rest[j] == b);
                    }
                }
                assert(s.drop_last().contains(b));
                let k: int = choose|k: int| 0 <= k < s.drop_last().len() && s.drop_last()[k] == b;
                assert(s[k] == b);
            }
        }
    }
}

/// Overlap test between the ball square and one block, carried out in a
/// wider integer type so that saturated coordinates cannot wrap.
pub fn hits_block(bx: i64, by: i64, b: &Block) -> (r: bool)
    ensures
        r == hits(bx as int, by as int, *b),
{
    (bx as i128) + (BALL_SIZE as i128) >= (b.x as i128) && (bx as i128) <= (b.x as i128)
        + (BLOCK_WIDTH as i128) && (by as i128) + (BALL_SIZE as i128) >= (b.y as i128) && (
    by as i128) <= (b.y as i128) + (BLOCK_HEIGHT as i128)
}

} // verus!
