//! A plain path of equally spaced platforms over a wide ground: the
//! terrain of a world without a generator.

use vstd::prelude::*;
use rand::rngs::StdRng;
use crate::fixed::{clamp, clamped, lemma_sqrt_exists};
use crate::random::draw_range;
use crate::vector::Vec3;

verus! {

/// Edge of a platform of the path, in thousandths.
pub const PLATFORM_SIZE: i64 = 2000;

/// Edge of the ground that the path starts over.
pub const LARGE_PLATFORM_SIZE: i64 = 10_000;

/// Platforms of the path.
pub const TERRAIN_LENGTH: usize = 100;

/// Distance from one platform of the path to the next.
pub const TERRAIN_SPACING: i64 = 5000;

/// A terrain: where its platforms lie, and what was drawn for the way from
/// each to the next.
#[derive(Debug)]
pub struct Terrain {
    pub positions: Vec<Vec3>,
    pub offsets: Vec<Vec3>,
}

/// Whether the offset lies in the ranges it is drawn from: forward by five
/// to ten units, down by up to five or up by up to two, and sideways by up
/// to five.
pub open spec fn offset_in_range(offset: Vec3) -> bool {
    &&& 5000 <= offset.x < 10_000
    &&& -5000 <= offset.y < 2000
    &&& -5000 <= offset.z < 5000
}

/// The place after `position` on a path: on by the offset, brought to the
/// length of the spacing, and held inside the world.
pub open spec fn next_place(position: Vec3, offset: Vec3) -> Vec3 {
    let step = offset.with_length(TERRAIN_SPACING as int);
    Vec3 {
        x: clamped(position.x + step.x) as i64,
        y: clamped(position.y + step.y) as i64,
        z: clamped(position.z + step.z) as i64,
    }
}

/// Where the path begins: one unit along `x`.
pub open spec fn path_start() -> Vec3 {
    Vec3 { x: 1000, y: 0, z: 0 }
}

/// The place on the path that the offsets lead to from its start.
pub open spec fn place_after(offsets: Seq<Vec3>) -> Vec3
    decreases offsets.len(),
{
    if offsets.len() == 0 {
        path_start()
    } else {
        next_place(place_after(offsets.drop_last()), offsets.last())
    }
}

/// The place after `position` on a path.
pub fn step_along(position: &Vec3, offset: &Vec3) -> (next: Vec3)
    requires
        position.in_world(),
        offset_in_range(*offset),
    ensures
        next == next_place(*position, *offset),
        next.in_world(),
{
    proof {
        let (x, y, z) = (offset.x as int, offset.y as int, offset.z as int);
        assert(x * x >= 25_000_000 && y * y >= 0 && z * z >= 0) by (nonlinear_arith)
            requires
                5000 <= x,
        ;
        lemma_sqrt_exists(offset.length_squared());
        if offset.length() <= 0 {
            assert((offset.length() + 1) * (offset.length() + 1) == 1);
        }
    }
    let step = offset.scaled_to(TERRAIN_SPACING);
    Vec3 {
        x: clamp(position.x as i128 + step.x as i128),
        y: clamp(position.y as i128 + step.y as i128),
        z: clamp(position.z as i128 + step.z as i128),
    }
}

/// Lays the path: a hundred platforms, the first at the start of the path,
/// each of the others where the offset drawn for it leads from the one
/// before.
pub fn spawn_terrain(rng: &mut StdRng) -> (terrain: Terrain)
    ensures
        terrain.positions@.len() == TERRAIN_LENGTH,
        terrain.offsets@.len() == TERRAIN_LENGTH,
        forall|i: int| 0 <= i < TERRAIN_LENGTH ==> offset_in_range(#[trigger] terrain.offsets@[i]),
        forall|i: int|
            0 <= i < TERRAIN_LENGTH ==> #[trigger] terrain.positions@[i] == place_after(
                terrain.offsets@.take(i),
            ),
{
    let mut positions: Vec<Vec3> = Vec::new();
    let mut offsets: Vec<Vec3> = Vec::new();
    let mut position = Vec3 { x: 1000, y: 0, z: 0 };
    let mut index: usize = 0;
    while index < TERRAIN_LENGTH
        invariant
            index <= TERRAIN_LENGTH,
            positions@.len() == index,
            offsets@.len() == index,
            position.in_world(),
            position == place_after(offsets@),
            forall|i: int| 0 <= i < index ==> offset_in_range(#[trigger] offsets@[i]),
            forall|i: int|
                0 <= i < index ==> #[trigger] positions@[i] == place_after(offsets@.take(i)),
        decreases TERRAIN_LENGTH - index,
    {
        let ghost drawn = offsets@;
        positions.push(position);
        let offset = Vec3 {
            x: draw_range(rng, 5000, 10_000),
            y: draw_range(rng, -5000, 2000),
            z: draw_range(rng, -5000, 5000),
        };
        position = step_along(&position, &offset);
        offsets.push(offset);
        proof {
            assert(offsets@.drop_last() =~= drawn);
            assert(drawn.take(index as int) =~= drawn);
            assert forall|i: int| 0 <= i <= index implies #[trigger] positions@[i] == place_after(
                offsets@.take(i),
            ) by {
                assert(offsets@.take(i) =~= drawn.take(i));
            }
        }
        index += 1;
    }
    Terrain { positions, offsets }
}

} // verus!
