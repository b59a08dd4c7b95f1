//! What the interactive events decide: which places to lay out, which region
//! to redraw, and how a solution of a grown system is placed.
use vstd::prelude::*;
use crate::demos::{cal_demo3, demo3_system};
use crate::layout::{LayoutError, Rect, lemma_lookup_non_negative, place, placed, resolved};
use crate::solution::{Solution, feasible};
use crate::expr::{SystemOfConstraints, VarId};

verus! {

/// A rectangle of the drawing surface to redraw: x, y, width, height.
#[derive(Clone, Copy, Debug, PartialEq, Eq, Structural)]
pub struct Region {
    pub x: i32,
    pub y: i32,
    pub width: i32,
    pub height: i32,
}

/// The places of the two shapes after a key moved one of them, and the
/// region to redraw.
#[derive(Clone, Copy, Debug, PartialEq, Eq, Structural)]
pub struct Demo2Move {
    pub x_loc1: i32,
    pub y_loc1: i32,
    pub x_loc2: i32,
    pub y_loc2: i32,
    pub region: Region,
}

/// Moves shape `ri` five units left or right. Shape 0 moves in the first
/// place and keeps shape 1 in the second; any other shape moves in the
/// second place and keeps shape 0 in the first. The region to redraw starts
/// one unit above and left of the first place, or for a moved shape 0 five
/// more units left.
pub fn demo2_key_release(left: bool, ri: usize, rects: &Vec<Rect>, da_width: i32, da_height: i32) -> (r: Demo2Move)
    requires
        2 <= rects@.len(),
        ri < rects@.len(),
        forall|k: int| 0 <= k < rects@.len() ==> i32::MIN + 11 <= #[trigger] rects@[k].x <= i32::MAX - 5
            && i32::MIN < rects@[k].y,
        i32::MIN + 58 <= da_width,
        i32::MIN + 38 <= da_height,
    ensures
        ({
            let x = if left { rects@[ri as int].x - 5 } else { rects@[ri as int].x + 5 };
            let y = rects@[ri as int].y;
            if ri == 0 {
                &&& r.x_loc1 == x && r.y_loc1 == y
                &&& r.x_loc2 == rects@[1].x && r.y_loc2 == rects@[1].y
                &&& r.region == (Region { x: (x - 6) as i32, y: (y - 1) as i32, width: (da_width - 58) as i32, height: (da_height - 38) as i32 })
            } else {
                &&& r.x_loc1 == rects@[0].x && r.y_loc1 == rects@[0].y
                &&& r.x_loc2 == x && r.y_loc2 == y
                &&& r.region == (Region {
                    x: (rects@[0].x - 1) as i32,
                    y: (rects@[0].y - 1) as i32,
                    width: (da_width - 58) as i32,
                    height: (da_height - 38) as i32,
                })
            }
        }),
{
    let step: i32 = 5;
    let moved = rects[ri];
    let x = if left { moved.x - step } else { moved.x + step };
    let y = moved.y;
    if ri == 0 {
        let other = rects[1];
        Demo2Move {
            x_loc1: x,
            y_loc1: y,
            x_loc2: other.x,
            y_loc2: other.y,
            region: Region { x: x - step - 1, y: y - 1, width: da_width - 58, height: da_height - 38 },
        }
    } else {
        let first = rects[0];
        Demo2Move {
            x_loc1: first.x,
            y_loc1: first.y,
            x_loc2: x,
            y_loc2: y,
            region: Region { x: first.x - 1, y: first.y - 1, width: da_width - 58, height: da_height - 38 },
        }
    }
}

/// The region to redraw after the three-shape layout changed: everything
/// right of the first shape, within the margins.
pub fn redraw_region(da_width: i32, da_height: i32) -> (r: Region)
    requires
        i32::MIN + 148 <= da_width,
        i32::MIN + 38 <= da_height,
    ensures
        r == (Region { x: 149, y: 19, width: (da_width - 148) as i32, height: (da_height - 38) as i32 }),
{
    Region { x: 149, y: 19, width: da_width - 148, height: da_height - 38 }
}

/// The three-shape layout after the surface changed size: the shapes at
/// (30, 20), (150, 20) and (300, 20), side margins 30, gaps 20, top and
/// bottom margins 20.
pub fn demo3_size_change(da_width: i32, da_height: i32, sol: &Solution) -> (r: Result<Vec<Rect>, LayoutError>)
    ensures
        (r matches Err(LayoutError::Infeasible)) <==> !feasible(sol@, demo3_system(150, 300, 30, 20, 20, da_width, da_height)),
        (r is Ok) <==> feasible(sol@, demo3_system(150, 300, 30, 20, 20, da_width, da_height)) && resolved(sol@, 3),
        r matches Ok(rects) ==> rects@ == placed(sol@, seq![(30i32, 20i32), (150i32, 20i32), (300i32, 20i32)]),
        r matches Ok(rects) ==> rects[0].width == 100 && rects[0].height == 100,
{
    cal_demo3(30, 20, 150, 20, 300, 20, 30, 20, 20, da_width, da_height, sol)
}

/// Where shape `i + 1` of a grown layout stands: the first three at their
/// fixed places, the later ones where they were put.
pub open spec fn grown_positions(added: Seq<(i32, i32)>, n: nat) -> Seq<(i32, i32)> {
    Seq::new(
        n,
        |i: int|
            if i == 0 {
                (30i32, 20i32)
            } else if i == 1 {
                (150i32, 20i32)
            } else if i == 2 {
                (300i32, 20i32)
            } else {
                added[i - 3]
            },
    )
}

/// The layout of `shape_number` shapes from a solution of the grown system
/// `sys`; shape `i` from four on stands at `added[i - 4]`.
pub fn demo4_place(sys: &SystemOfConstraints, added: &Vec<(i32, i32)>, shape_number: usize, sol: &Solution) -> (r: Result<Vec<Rect>, LayoutError>)
    requires
        3 <= shape_number < usize::MAX,
        shape_number - 3 <= added@.len(),
    ensures
        (r matches Err(LayoutError::Infeasible)) <==> !feasible(sol@, sys@),
        (r is Ok) <==> feasible(sol@, sys@) && resolved(sol@, shape_number as nat),
        r matches Ok(rects) ==> rects@ == placed(sol@, grown_positions(added@, shape_number as nat)),
        r matches Ok(rects) ==> forall|k: int|
            0 <= k < rects@.len() ==> 0 <= (#[trigger] rects@[k]).width && 0 <= rects@[k].height,
{
    if !sol.is_feasible(sys) {
        return Err(LayoutError::Infeasible);
    }
    let mut pos: Vec<(i32, i32)> = vec![(30, 20), (150, 20), (300, 20)];
    let mut i: usize = 3;
    while i < shape_number
        invariant
            3 <= i <= shape_number,
            shape_number - 3 <= added@.len(),
            pos@ == grown_positions(added@, i as nat),
        decreases shape_number - i,
    {
        pos.push(added[i - 3]);
        assert(pos@ =~= grown_positions(added@, (i + 1) as nat));
        i = i + 1;
    }
    assert(pos@ =~= grown_positions(added@, shape_number as nat));
    let r = place(sol, &pos);
    proof {
        if r is Ok {
            let rects = r->Ok_0;
            assert forall|k: int| 0 <= k < rects@.len() implies 0 <= (#[trigger] rects@[k]).width && 0
                <= rects@[k].height by {
                lemma_lookup_non_negative(sol@, VarId::Width((k + 1) as usize));
                lemma_lookup_non_negative(sol@, VarId::Height((k + 1) as usize));
                assert(1 <= (k + 1) as usize <= shape_number);
            };
        }
    }
    r
}

} // verus!
