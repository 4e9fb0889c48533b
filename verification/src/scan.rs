//! Searches over the platforms: the nearest one that lacks a mark, the
//! first one that meets a condition, and the ones that pass a filter.

use vstd::prelude::*;
use crate::platforms::Platform;
use crate::vector::Vec3;

verus! {

/// The marks that a platform can carry.
#[derive(Clone, Copy, Debug, PartialEq, Eq, Structural)]
pub enum Mark {
    Touched,
    Hovered,
}

/// Whether the platform is without the mark.
pub open spec fn lacks(platform: Platform, mark: Mark) -> bool {
    match mark {
        Mark::Touched => platform.touched is None,
        Mark::Hovered => platform.hovered is None,
    }
}

/// Index of the platform without the mark that lies nearest to `from`; of
/// several equally near, the one that comes first. `None` where every
/// platform carries the mark.
pub open spec fn nearest(platforms: Seq<Platform>, from: Vec3, mark: Mark) -> Option<int>
    decreases platforms.len(),
{
    if platforms.len() == 0 {
        None
    } else {
        let before = nearest(platforms.drop_last(), from, mark);
        let last = platforms.len() - 1;
        if !lacks(platforms[last], mark) {
            before
        } else {
            match before {
                None => Some(last),
                Some(best) => if from.distance_squared(platforms[last].position)
                    < from.distance_squared(platforms[best].position) {
                    Some(last)
                } else {
                    before
                },
            }
        }
    }
}

/// Where the nearest platform without the mark lies, or `fallback` where
/// there is none.
pub open spec fn nearest_position(
    platforms: Seq<Platform>,
    from: Vec3,
    mark: Mark,
    fallback: Vec3,
) -> Vec3 {
    match nearest(platforms, from, mark) {
        Some(i) => platforms[i].position,
        None => fallback,
    }
}

/// `nearest` finds a platform exactly when one is without the mark. The
/// one it finds is without the mark, no platform without the mark lies
/// nearer, and none that comes before it lies as near.
pub proof fn lemma_nearest(platforms: Seq<Platform>, from: Vec3, mark: Mark)
    ensures
        match nearest(platforms, from, mark) {
            None => forall|j: int| 0 <= j < platforms.len() ==> !lacks(#[trigger] platforms[j], mark),
            Some(best) => {
                &&& 0 <= best < platforms.len()
                &&& lacks(platforms[best], mark)
                &&& forall|j: int|
                    0 <= j < platforms.len() && lacks(#[trigger] platforms[j], mark)
                        ==> from.distance_squared(platforms[best].position)
                        <= from.distance_squared(platforms[j].position)
                &&& forall|j: int|
                    0 <= j < best && lacks(#[trigger] platforms[j], mark) ==> from.distance_squared(
                        platforms[best].position,
                    ) < from.distance_squared(platforms[j].position)
            },
        },
    decreases platforms.len(),
{
    if platforms.len() > 0 {
        let shorter = platforms.drop_last();
        lemma_nearest(shorter, from, mark);
        assert forall|j: int| 0 <= j < shorter.len() implies shorter[j] == platforms[j] by {}
    }
}

/// Index of the first element that meets `wanted`, or `None` where none
/// does.
pub open spec fn first_index<T>(items: Seq<T>, wanted: spec_fn(T) -> bool) -> Option<int>
    decreases items.len(),
{
    if items.len() == 0 {
        None
    } else {
        match first_index(items.drop_last(), wanted) {
            Some(i) => Some(i),
            None => if wanted(items.last()) {
                Some(items.len() - 1)
            } else {
                None
            },
        }
    }
}

/// `first_index` finds an element exactly when one meets the condition, and
/// none before the one it finds does.
pub proof fn lemma_first_index<T>(items: Seq<T>, wanted: spec_fn(T) -> bool)
    ensures
        match first_index(items, wanted) {
            None => forall|j: int| 0 <= j < items.len() ==> !wanted(#[trigger] items[j]),
            Some(i) => {
                &&& 0 <= i < items.len()
                &&& wanted(items[i])
                &&& forall|j: int| 0 <= j < i ==> !wanted(#[trigger] items[j])
            },
        },
    decreases items.len(),
{
    if items.len() > 0 {
        let shorter = items.drop_last();
        lemma_first_index(shorter, wanted);
        assert forall|j: int| 0 <= j < shorter.len() implies shorter[j] == items[j] by {}
    }
}

/// An index that meets the condition with none before it that does is the
/// one `first_index` finds.
pub proof fn lemma_first_index_is<T>(items: Seq<T>, wanted: spec_fn(T) -> bool, i: int)
    requires
        0 <= i < items.len(),
        wanted(items[i]),
        forall|j: int| 0 <= j < i ==> !wanted(#[trigger] items[j]),
    ensures
        first_index(items, wanted) == Some(i),
{
    lemma_first_index(items, wanted);
}

/// Where no element meets the condition, `first_index` finds none.
pub proof fn lemma_first_index_none<T>(items: Seq<T>, wanted: spec_fn(T) -> bool)
    requires
        forall|j: int| 0 <= j < items.len() ==> !wanted(#[trigger] items[j]),
    ensures
        first_index(items, wanted) is None,
{
    lemma_first_index(items, wanted);
}

/// Whether the platform is without the mark.
pub fn is_without(platform: &Platform, mark: Mark) -> (b: bool)
    ensures
        b == lacks(*platform, mark),
{
    match mark {
        Mark::Touched => platform.touched.is_none(),
        Mark::Hovered => platform.hovered.is_none(),
    }
}

/// Index of the platform without the mark that lies nearest to `from`; of
/// several equally near, the one that comes first.
pub fn nearest_platform(platforms: &Vec<Platform>, from: &Vec3, mark: Mark) -> (found: Option<
    usize,
>)
    requires
        from.in_world(),
        forall|i: int| 0 <= i < platforms@.len() ==> (#[trigger] platforms@[i]).position.in_world(),
    ensures
        match found {
            Some(i) => nearest(platforms@, *from, mark) == Some(i as int) && i < platforms@.len(),
            None => nearest(platforms@, *from, mark) is None,
        },
{
    let mut found: Option<usize> = None;
    let mut least: u128 = 0;
    let mut i: usize = 0;
    while i < platforms.len()
        invariant
            i <= platforms.len(),
            from.in_world(),
            forall|k: int|
                0 <= k < platforms@.len() ==> (#[trigger] platforms@[k]).position.in_world(),
            match found {
                Some(b) => nearest(platforms@.take(i as int), *from, mark) == Some(b as int) && b
                    < i && least == from.distance_squared(platforms@[b as int].position),
                None => nearest(platforms@.take(i as int), *from, mark) is None,
            },
        decreases platforms.len() - i,
    {
        proof {
            let longer = platforms@.take(i + 1);
            assert(longer.drop_last() =~= platforms@.take(i as int));
            assert(longer[i as int] == platforms@[i as int]);
            if found is Some {
                assert(longer[found.unwrap() as int] == platforms@[found.unwrap() as int]);
            }
        }
        if is_without(&platforms[i], mark) {
            let distance: u128 = from.distance_squared_to(&platforms[i].position);
            if found.is_none() || distance < least {
                found = Some(i);
                least = distance;
            }
        }
        i += 1;
    }
    proof {
        assert(platforms@.take(i as int) =~= platforms@);
    }
    found
}

/// Where the nearest platform without the mark lies, or `fallback` where
/// there is none.
pub fn nearest_position_of(
    platforms: &Vec<Platform>,
    from: &Vec3,
    mark: Mark,
    fallback: Vec3,
) -> (target: Vec3)
    requires
        from.in_world(),
        fallback.in_world(),
        forall|i: int| 0 <= i < platforms@.len() ==> (#[trigger] platforms@[i]).position.in_world(),
    ensures
        target == nearest_position(platforms@, *from, mark, fallback),
        target.in_world(),
{
    match nearest_platform(platforms, from, mark) {
        Some(i) => platforms[i].position,
        None => fallback,
    }
}

/// Filtering one element more of a sequence adds that element where it
/// passes, and nothing where it does not.
pub proof fn lemma_filter_next<T>(items: Seq<T>, keep: spec_fn(T) -> bool, i: int)
    requires
        0 <= i < items.len(),
    ensures
        items.take(i + 1).filter(keep) == if keep(items[i]) {
            items.take(i).filter(keep).push(items[i])
        } else {
            items.take(i).filter(keep)
        },
{
    reveal(Seq::filter);
    assert(items.take(i + 1).drop_last() =~= items.take(i));
    assert(items.take(i + 1).last() == items[i]);
}

} // verus!
