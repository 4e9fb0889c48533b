//! What the physics engine reports each tick, as plain values: the bodies a
//! ray has hit, the pairs of bodies in contact, and which body is part of
//! which. The questions the simulation asks of such a report are answered
//! here.

use vstd::prelude::*;
use crate::platforms::Platform;

verus! {

/// A ray hit below the player closer than this, in thousandths, is ground
/// under its feet.
pub const GROUND_REACH: i64 = 1000;

/// A body that the ray cast down from the player has hit.
#[derive(Clone, Copy, Debug, PartialEq, Eq, Structural)]
pub struct RayHit {
    pub entity: u64,
    /// How far along the ray, in thousandths.
    pub time_of_impact: i64,
}

/// Two bodies that are in contact.
#[derive(Clone, Copy, Debug, PartialEq, Eq, Structural)]
pub struct Contact {
    pub first: u64,
    pub second: u64,
}

/// A body and one of the bodies below it in the hierarchy: a part of its
/// model, at any depth.
#[derive(Clone, Copy, Debug, PartialEq, Eq, Structural)]
pub struct Descendant {
    pub ancestor: u64,
    pub entity: u64,
}

/// Whether `entity` is the body `root` or a part of it.
pub open spec fn belongs_to(descendants: Seq<Descendant>, root: u64, entity: u64) -> bool {
    root == entity || descendants.contains(Descendant { ancestor: root, entity })
}

/// Whether `entity` is a platform or a part of one.
pub open spec fn on_platform(
    platforms: Seq<Platform>,
    descendants: Seq<Descendant>,
    entity: u64,
) -> bool {
    exists|i: int|
        0 <= i < platforms.len() && belongs_to(descendants, (#[trigger] platforms[i]).entity, entity)
}

/// Whether the player stands on a platform: some hit of the ray is within
/// reach and on a platform.
pub open spec fn grounded(
    hits: Seq<RayHit>,
    platforms: Seq<Platform>,
    descendants: Seq<Descendant>,
) -> bool {
    exists|h: int|
        0 <= h < hits.len() && (#[trigger] hits[h]).time_of_impact < GROUND_REACH && on_platform(
            platforms,
            descendants,
            hits[h].entity,
        )
}

/// Whether the two bodies are in contact, in whichever order the pair was
/// reported.
pub open spec fn in_contact(contacts: Seq<Contact>, a: u64, b: u64) -> bool {
    contacts.contains(Contact { first: a, second: b }) || contacts.contains(
        Contact { first: b, second: a },
    )
}

/// Whether the body `other` touches the body `root` or a part of it.
pub open spec fn touches(
    contacts: Seq<Contact>,
    descendants: Seq<Descendant>,
    other: u64,
    root: u64,
) -> bool {
    in_contact(contacts, other, root) || exists|k: int|
        0 <= k < descendants.len() && (#[trigger] descendants[k]).ancestor == root && in_contact(
            contacts,
            descendants[k].entity,
            other,
        )
}

/// Whether the ray has hit the body `root` or a part of it, at any
/// distance.
pub open spec fn hovers(hits: Seq<RayHit>, descendants: Seq<Descendant>, root: u64) -> bool {
    exists|h: int| 0 <= h < hits.len() && belongs_to(descendants, root, (#[trigger] hits[h]).entity)
}

/// Whether `entity` is the body `root` or a part of it.
pub fn is_part_of(descendants: &Vec<Descendant>, root: u64, entity: u64) -> (b: bool)
    ensures
        b == belongs_to(descendants@, root, entity),
{
    if root == entity {
        return true;
    }
    let wanted = Descendant { ancestor: root, entity };
    let mut k: usize = 0;
    while k < descendants.len()
        invariant
            k <= descendants.len(),
            wanted == (Descendant { ancestor: root, entity }),
            forall|j: int| 0 <= j < k ==> descendants@[j] != wanted,
        decreases descendants.len() - k,
    {
        if descendants[k].ancestor == root && descendants[k].entity == entity {
            assert(descendants@[k as int] == wanted);
            return true;
        }
        k += 1;
    }
    false
}

/// Whether `entity` is a platform or a part of one.
pub fn is_on_platform(
    platforms: &Vec<Platform>,
    descendants: &Vec<Descendant>,
    entity: u64,
) -> (b: bool)
    ensures
        b == on_platform(platforms@, descendants@, entity),
{
    let mut i: usize = 0;
    while i < platforms.len()
        invariant
            i <= platforms.len(),
            forall|j: int| 0 <= j < i ==> !belongs_to(descendants@, platforms@[j].entity, entity),
        decreases platforms.len() - i,
    {
        if is_part_of(descendants, platforms[i].entity, entity) {
            return true;
        }
        i += 1;
    }
    false
}

/// Whether the player stands on a platform.
pub fn is_grounded(
    hits: &Vec<RayHit>,
    platforms: &Vec<Platform>,
    descendants: &Vec<Descendant>,
) -> (b: bool)
    ensures
        b == grounded(hits@, platforms@, descendants@),
{
    let mut h: usize = 0;
    while h < hits.len()
        invariant
            h <= hits.len(),
            forall|j: int|
                0 <= j < h ==> !((#[trigger] hits@[j]).time_of_impact < GROUND_REACH && on_platform(
                    platforms@,
                    descendants@,
                    hits@[j].entity,
                )),
        decreases hits.len() - h,
    {
        if hits[h].time_of_impact < GROUND_REACH && is_on_platform(
            platforms,
            descendants,
            hits[h].entity,
        ) {
            return true;
        }
        h += 1;
    }
    false
}

/// Whether the two bodies are in contact.
pub fn contains(contacts: &Vec<Contact>, a: u64, b: u64) -> (found: bool)
    ensures
        found == in_contact(contacts@, a, b),
{
    let mut k: usize = 0;
    while k < contacts.len()
        invariant
            k <= contacts.len(),
            forall|j: int|
                0 <= j < k ==> contacts@[j] != (Contact { first: a, second: b }) && contacts@[j] != (
                Contact { first: b, second: a }),
        decreases contacts.len() - k,
    {
        let c = contacts[k];
        if (c.first == a && c.second == b) || (c.first == b && c.second == a) {
            assert(contacts@[k as int] == (Contact { first: a, second: b }) || contacts@[k as int]
                == (Contact { first: b, second: a }));
            return true;
        }
        k += 1;
    }
    false
}

/// Whether the body `other` touches the body `root` or a part of it.
pub fn is_touching(
    contacts: &Vec<Contact>,
    descendants: &Vec<Descendant>,
    other: u64,
    root: u64,
) -> (b: bool)
    ensures
        b == touches(contacts@, descendants@, other, root),
{
    if contains(contacts, other, root) {
        return true;
    }
    let mut k: usize = 0;
    while k < descendants.len()
        invariant
            k <= descendants.len(),
            forall|j: int|
                0 <= j < k ==> !((#[trigger] descendants@[j]).ancestor == root && in_contact(
                    contacts@,
                    descendants@[j].entity,
                    other,
                )),
        decreases descendants.len() - k,
    {
        if descendants[k].ancestor == root && contains(contacts, descendants[k].entity, other) {
            return true;
        }
        k += 1;
    }
    false
}

/// Whether the ray has hit the body `root` or a part of it.
pub fn is_hovering(hits: &Vec<RayHit>, descendants: &Vec<Descendant>, root: u64) -> (b: bool)
    ensures
        b == hovers(hits@, descendants@, root),
{
    let mut h: usize = 0;
    while h < hits.len()
        invariant
            h <= hits.len(),
            forall|j: int| 0 <= j < h ==> !belongs_to(descendants@, root, (#[trigger] hits@[j]).entity),
        decreases hits.len() - h,
    {
        if is_part_of(descendants, root, hits[h].entity) {
            return true;
        }
        h += 1;
    }
    false
}

} // verus!
