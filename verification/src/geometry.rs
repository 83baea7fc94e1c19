//! Positions on the game field and the neighborhood of lawful move targets.

use vstd::prelude::*;
use vstd::arithmetic::div_mod::lemma_fundamental_div_mod_converse_div;
use vstd::arithmetic::div_mod::lemma_fundamental_div_mod_converse_mod;

verus! {

/// A point on the field, identified by its two integer coordinates.
#[derive(Clone, Copy, PartialEq, Eq, Structural, Debug)]
pub struct Position {
    pub x: i32,
    pub y: i32,
}

/// Both coordinates of `p` lie in the inclusive band `[-radius, radius]`.
pub open spec fn in_field(p: Position, radius: int) -> bool {
    &&& -radius <= p.x <= radius
    &&& -radius <= p.y <= radius
}

/// `p` is reachable from `origin` within `r` steps: each coordinate moves
/// by at most `r`.
pub open spec fn within_move(origin: Position, r: int, p: Position) -> bool {
    &&& origin.x - r <= p.x <= origin.x + r
    &&& origin.y - r <= p.y <= origin.y + r
}

impl Position {
    /// Every position reachable within `r` steps of `self`, row by row:
    /// entry `k` offsets `self` by `(k / (2r+1) - r, k % (2r+1) - r)`. The
    /// set is never empty and always holds `self` itself.
    pub fn positions_within(&self, r: i32) -> (res: Vec<Position>)
        requires
            0 <= r,
            i32::MIN <= self.x - r,
            self.x + r <= i32::MAX,
            i32::MIN <= self.y - r,
            self.y + r <= i32::MAX,
        ensures
            res@.len() == (2 * r + 1) * (2 * r + 1),
            res@.len() >= 1,
            forall|k: int| 0 <= k < res@.len() ==> #[trigger] res@[k].x == self.x - r + k / (2 * r + 1)
                && res@[k].y == self.y - r + k % (2 * r + 1),
            forall|k: int| 0 <= k < res@.len() ==> within_move(*self, r as int, #[trigger] res@[k]),
            res@.contains(*self),
    {
        let side: i64 = 2 * (r as i64) + 1;
        let x0: i64 = self.x as i64 - r as i64;
        let y0: i64 = self.y as i64 - r as i64;
        let mut res: Vec<Position> = Vec::new();
        let mut i: i64 = 0;
        while i < side
            invariant
                side == 2 * (r as int) + 1,
                x0 == self.x - r,
                y0 == self.y - r,
                i32::MIN <= self.x - r,
                self.x + r <= i32::MAX,
                i32::MIN <= self.y - r,
                self.y + r <= i32::MAX,
                0 <= i <= side,
                res@.len() == i * side,
                forall|k: int| 0 <= k < res@.len() ==> #[trigger] res@[k].x == self.x - r + k / (side as int)
                    && res@[k].y == self.y - r + k % (side as int),
                forall|k: int| 0 <= k < res@.len() ==> within_move(*self, r as int, #[trigger] res@[k]),
            decreases side - i,
        {
            let mut j: i64 = 0;
            while j < side
                invariant
                    side == 2 * (r as int) + 1,
                    x0 == self.x - r,
                    y0 == self.y - r,
                    i32::MIN <= self.x - r,
                    self.x + r <= i32::MAX,
                    i32::MIN <= self.y - r,
                    self.y + r <= i32::MAX,
                    0 <= i < side,
                    0 <= j <= side,
                    res@.len() == i * side + j,
                    forall|k: int| 0 <= k < res@.len() ==> #[trigger] res@[k].x == self.x - r + k / (side as int)
                        && res@[k].y == self.y - r + k % (side as int),
                    forall|k: int| 0 <= k < res@.len() ==> within_move(*self, r as int, #[trigger] res@[k]),
                decreases side - j,
            {
                proof {
                    assert(0 <= (i as int) * (side as int) + j < (side as int) * (side as int)) by (nonlinear_arith)
                        requires
                            0 <= i < side,
                            0 <= j < side,
                    ;
                    lemma_fundamental_div_mod_converse_div((i as int) * (side as int) + j, side as int, i as int, j as int);
                    lemma_fundamental_div_mod_converse_mod((i as int) * (side as int) + j, side as int, i as int, j as int);
                }
                assert(i32::MIN <= x0 + i <= i32::MAX);
                assert(i32::MIN <= y0 + j <= i32::MAX);
                res.push(Position { x: (x0 + i) as i32, y: (y0 + j) as i32 });
                j = j + 1;
            }
            proof {
                assert((i as int) * (side as int) + side == (i + 1) * (side as int)) by (nonlinear_arith);
            }
            i = i + 1;
        }
        proof {
            assert(res@.len() == (side as int) * (side as int));
            assert((side as int) * (side as int) == (2 * (r as int) + 1) * (2 * (r as int) + 1));
            assert((side as int) * (side as int) >= 1) by (nonlinear_arith)
                requires
                    side >= 1,
            ;
            let k0 = (r as int) * (side as int) + (r as int);
            assert(0 <= k0 < (side as int) * (side as int)) by (nonlinear_arith)
                requires
                    0 <= (r as int),
                    side == 2 * (r as int) + 1,
                    k0 == (r as int) * (side as int) + (r as int),
            ;
            lemma_fundamental_div_mod_converse_div(k0, side as int, r as int, r as int);
            lemma_fundamental_div_mod_converse_mod(k0, side as int, r as int, r as int);
            assert(res@[k0] == *self);
            assert(res@.contains(*self));
        }
        res
    }
}

} // verus!
