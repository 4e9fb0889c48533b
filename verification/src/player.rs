//! The player: jumping and falling, the steering toward the next platform,
//! the camera's aim, and the contacts with platforms that score.

use vstd::prelude::*;
use rand::rngs::StdRng;
use crate::fixed::{
    clamp, clamped, is_sqrt, lemma_div_trunc_bounds, lemma_lerped_between, lemma_over_time_bounds,
    lemma_sqrt_exists, lerp, lerped, over_time, rate_over, scale, scaled, UNIT,
};
use crate::game::Game;
use crate::physics::{
    grounded, hovers, is_grounded, is_hovering, is_touching, touches, Contact, Descendant, RayHit,
};
use crate::platforms::{
    can_spawn, rolls_fit, spawn_platform, spawned, Hovered, Platform, SpawnPlatform, SpawnRolls,
    Touched, TOUCHED_PLATFORM_TTL,
};
use crate::scan::{
    first_index, lemma_first_index_is, lemma_first_index_none, nearest_position,
    nearest_position_of, Mark,
};
use crate::timer::Timer;
use crate::vector::{
    lemma_component_within_norm, lemma_square_bound, lemma_stretched_bounds, Vec2, Vec3,
};
use crate::world::{World, WorldModel};

verus! {

/// Acceleration of a fall, in thousandths per second per second.
pub const GRAVITY: i64 = -9810;

/// Microseconds after leaving the ground in which the player still counts
/// as standing on it.
pub const COYOTE_TIME: u64 = 200_000;

/// Upward speed that a jump starts with.
pub const JUMP: i64 = 5500;

/// Microseconds for which holding the jump keeps lifting the player.
pub const JUMP_BOOST_DURATION: u64 = 600_000;

/// Microseconds a jump has to be held before the lift sets in.
pub const JUMP_BOOST_MIN_TIME: u64 = 150_000;

/// Upward acceleration of the lift.
pub const JUMP_BOOST_SPEED: i64 = 10_000;

/// Forward speed at no difficulty.
pub const SPEED: i64 = 5000;

/// Weight, in thousandths, that the heading of the tick before keeps in
/// the heading of this tick.
pub const DIRECTION_LERP: i64 = 900;

/// Share of the way to its target, in thousandths, that the camera turns
/// in one second.
pub const CAMERA_ROTATION_SPEED: i64 = 2000;

/// How far above a platform the camera aims.
pub const CAMERA_AIM_HEIGHT: i64 = 2000;

/// Vertical speed below which the player has fallen off the path.
pub const FALL_SPEED: i64 = -20_000;

/// Height and vertical speed that a forced respawn gives the player.
pub const FORCED_FALL: i64 = -100_000;

/// The player.
#[derive(Clone, Copy, Debug, PartialEq, Eq, Structural)]
pub struct Player {
    /// Where the player is. The physics engine moves it.
    pub position: Vec3,
    /// The motion asked of the physics engine, in thousandths per second.
    pub velocity: Vec3,
    /// Runs while the player is off the ground.
    pub coyote_time: Timer,
    /// Whether the jump is held.
    pub jump_pressed: bool,
    /// Runs from the start of a jump.
    pub jump_boost_duration: Timer,
    /// Heading of the tick before, on the ground plane.
    pub last_direction_2d: Vec2,
}

/// Where the player starts a run.
pub open spec fn spawn_point() -> Vec3 {
    Vec3 { x: -5000i64, y: 5000, z: 0 }
}

impl Player {
    /// The player lies in the world, moves no faster than the limit, and
    /// its heading is no longer than one unit.
    pub open spec fn wf(self) -> bool {
        &&& self.position.in_world()
        &&& self.velocity.in_world()
        &&& self.last_direction_2d.is_heading()
    }

    /// The player as a run finds it: at the spawn point, at rest, on the
    /// ground, no jump held.
    pub open spec fn initial() -> Player {
        Player {
            position: spawn_point(),
            velocity: Vec3 { x: 0, y: 0, z: 0 },
            coyote_time: Timer::fresh(COYOTE_TIME),
            jump_pressed: false,
            jump_boost_duration: Timer::fresh((JUMP_BOOST_DURATION + JUMP_BOOST_MIN_TIME) as u64),
            last_direction_2d: Vec2 { x: 0, y: 0 },
        }
    }
}

/// The point that the camera looks at from the player when a run begins:
/// one unit along the path.
pub fn camera_default_target() -> (target: Vec3)
    ensures
        target == (Vec3 { x: 1000, y: 0, z: 0 }),
{
    Vec3 { x: 1000, y: 0, z: 0 }
}

/// The player at the start of a run.
pub fn spawn_player() -> (player: Player)
    ensures
        player == Player::initial(),
        player.wf(),
{
    Player {
        position: Vec3 { x: -5000, y: 5000, z: 0 },
        velocity: Vec3 { x: 0, y: 0, z: 0 },
        coyote_time: Timer::new(COYOTE_TIME),
        jump_pressed: false,
        jump_boost_duration: Timer::new(JUMP_BOOST_DURATION + JUMP_BOOST_MIN_TIME),
        last_direction_2d: Vec2 { x: 0, y: 0 },
    }
}


/// Whether the jump is held after the tick's input: a press takes hold of
/// it, a release lets go.
pub open spec fn latched(held: bool, pressed: bool, released: bool) -> bool {
    if !held && pressed {
        true
    } else if held && released {
        false
    } else {
        held
    }
}

/// Whether the player counts as standing on the ground in this tick: it
/// stands on a platform, or left the ground less than the coyote time ago.
pub open spec fn on_ground(player: Player, grounded: bool, dt: u64) -> bool {
    grounded || !player.coyote_time.ticked(dt).finished
}

/// The player after the vertical part of a tick of `dt` microseconds.
///
/// Standing on a platform starts the coyote timer over; off it, the timer
/// runs. On the ground the vertical speed is zero, or the jump's first
/// speed where the jump is held, which also starts the lift's timer over.
/// In the air gravity adds to it. The lift's timer then runs, and while the
/// jump is held, the timer has not run out and has counted more than the
/// least holding time, the lift adds to the speed.
pub open spec fn lifted(player: Player, grounded: bool, dt: u64) -> Player {
    let coyote = if grounded {
        Timer::fresh(player.coyote_time.duration)
    } else {
        player.coyote_time.ticked(dt)
    };
    let standing = on_ground(player, grounded, dt);
    let base: int = if standing {
        if player.jump_pressed {
            JUMP as int
        } else {
            0
        }
    } else {
        player.velocity.y + over_time(GRAVITY as int, dt as int)
    };
    let boost = (if standing && player.jump_pressed {
        Timer::fresh(player.jump_boost_duration.duration)
    } else {
        player.jump_boost_duration
    }).ticked(dt);
    let lift: int = if player.jump_pressed && !boost.finished && boost.elapsed
        > JUMP_BOOST_MIN_TIME {
        over_time(JUMP_BOOST_SPEED as int, dt as int)
    } else {
        0
    };
    Player {
        velocity: Vec3 { y: clamped(base + lift) as i64, ..player.velocity },
        coyote_time: coyote,
        jump_boost_duration: boost,
        ..player
    }
}

/// Heading of a player at `position` that makes for `target`: the direction
/// to the target on the ground plane, one unit long, blended with the
/// heading of the tick before, which keeps `DIRECTION_LERP` thousandths of
/// the weight. The blend is made once per tick, whatever the tick's length.
pub open spec fn heading(position: Vec3, target: Vec3, last: Vec2) -> Vec2 {
    let toward = position.to(target).ground().with_length_or_zero(UNIT as int);
    Vec2 {
        x: lerped(toward.x as int, last.x as int, DIRECTION_LERP as int) as i64,
        y: lerped(toward.y as int, last.y as int, DIRECTION_LERP as int) as i64,
    }
}

/// Forward speed at a score of `points`: the speed at no difficulty, and as
/// much again for each unit of difficulty.
pub open spec fn forward_speed(points: u32) -> int {
    scaled(SPEED as int, UNIT + points)
}

/// The player after the steering part of a tick: it heads for `target` at
/// the forward speed.
pub open spec fn steered(player: Player, target: Vec3, points: u32) -> Player {
    let direction = heading(player.position, target, player.last_direction_2d);
    Player {
        velocity: Vec3 {
            x: scaled(direction.x as int, forward_speed(points)) as i64,
            y: player.velocity.y,
            z: scaled(direction.y as int, forward_speed(points)) as i64,
        },
        last_direction_2d: direction,
        ..player
    }
}

/// The world after the player's part of a tick of `dt` microseconds.
///
/// The tick's input is latched first. Before the run has started nothing
/// else happens unless the jump is held, which starts the run. In a run the
/// player is lifted, then steered toward the nearest platform it has not
/// touched, or toward the place of the next platform where it has touched
/// them all.
pub open spec fn moved(
    world: WorldModel,
    dt: u64,
    pressed: bool,
    released: bool,
    hits: Seq<RayHit>,
    descendants: Seq<Descendant>,
) -> WorldModel {
    let held = latched(world.player.jump_pressed, pressed, released);
    let player = Player { jump_pressed: held, ..world.player };
    if !world.game.started && !held {
        WorldModel { player, ..world }
    } else {
        let target = nearest_position(
            world.platforms,
            player.position,
            Mark::Touched,
            world.platform_gen.next_platform_position,
        );
        WorldModel {
            game: Game { started: true, ..world.game },
            player: steered(
                lifted(player, grounded(hits, world.platforms, descendants), dt),
                target,
                world.game.points,
            ),
            ..world
        }
    }
}

/// No jump in the air: off the platforms with the coyote time run out, the
/// vertical speed after a tick is the speed before it with gravity and, at
/// most, the lift added, however the jump is pressed. It is not set to the
/// speed that a jump starts with.
pub proof fn lemma_no_jump_in_the_air(player: Player, dt: u64)
    requires
        player.coyote_time.finished,
    ensures
        lifted(player, false, dt).velocity.y == clamped(
            player.velocity.y + over_time(GRAVITY as int, dt as int),
        ) || (player.jump_pressed && lifted(player, false, dt).velocity.y == clamped(
            player.velocity.y + over_time(GRAVITY as int, dt as int) + over_time(
                JUMP_BOOST_SPEED as int,
                dt as int,
            ),
        )),
        lifted(player, false, dt).jump_boost_duration == player.jump_boost_duration.ticked(dt),
{
}

/// The heading stays a heading.
pub proof fn lemma_heading_is_heading(position: Vec3, target: Vec3, last: Vec2)
    requires
        position.in_world(),
        target.in_world(),
        last.is_heading(),
    ensures
        heading(position, target, last).is_heading(),
{
    let across = position.to(target).ground();
    let toward = across.with_length_or_zero(UNIT as int);
    if across.length() != 0 {
        let (x, y) = (across.x as int, across.y as int);
        let n = across.length();
        lemma_square_bound(x);
        lemma_square_bound(y);
        assert(is_sqrt(x * x + y * y, n)) by {
            lemma_sqrt_exists(x * x + y * y);
        }
        lemma_component_within_norm(x, y * y, n);
        lemma_component_within_norm(y, x * x, n);
        lemma_stretched_bounds(x, UNIT as int, n);
        lemma_stretched_bounds(y, UNIT as int, n);
    }
    lemma_lerped_between(toward.x as int, last.x as int, DIRECTION_LERP as int);
    lemma_lerped_between(toward.y as int, last.y as int, DIRECTION_LERP as int);
}

/// The player's part of a tick of `dt` microseconds: it latches the jump,
/// starts the run on the first jump, and in a run sets the motion asked of
/// the physics engine.
pub fn player_movement(
    world: &mut World,
    dt: u64,
    jump_just_pressed: bool,
    jump_just_released: bool,
    ray_hits: &Vec<RayHit>,
    descendants: &Vec<Descendant>,
)
    requires
        old(world)@.wf(),
    ensures
        final(world)@ == moved(
            old(world)@,
            dt,
            jump_just_pressed,
            jump_just_released,
            ray_hits@,
            descendants@,
        ),
        final(world)@.wf(),
{
    if !world.player.jump_pressed && jump_just_pressed {
        world.player.jump_pressed = true;
    } else if world.player.jump_pressed && jump_just_released {
        world.player.jump_pressed = false;
    }
    if !world.game.started {
        if world.player.jump_pressed {
            world.game.started = true;
        } else {
            return ;
        }
    }
    let ghost latched_player = world.player;
    let held = world.player.jump_pressed;

    // Jump and gravity.
    let is_on_platform = is_grounded(ray_hits, &world.platforms, descendants);
    let mut coyote = world.player.coyote_time;
    if is_on_platform {
        coyote.reset();
    } else {
        coyote.tick(dt);
    }
    let standing = is_on_platform || !coyote.finished();
    let mut boost = world.player.jump_boost_duration;
    let mut velocity_y: i128;
    proof {
        lemma_over_time_bounds(GRAVITY as int, dt as int);
        lemma_over_time_bounds(JUMP_BOOST_SPEED as int, dt as int);
        assert(-9810 * 0x1_0000_0000_0000_0000 <= GRAVITY * dt && JUMP_BOOST_SPEED * dt <= 10_000
            * 0x1_0000_0000_0000_0000) by (nonlinear_arith)
            requires
                0 <= dt <= 0x1_0000_0000_0000_0000,
                GRAVITY == -9810,
                JUMP_BOOST_SPEED == 10_000,
        ;
    }
    if standing {
        velocity_y = 0;
        if held {
            velocity_y = JUMP as i128;
            boost.reset();
        }
    } else {
        velocity_y = world.player.velocity.y as i128 + rate_over(GRAVITY, dt);
    }
    boost.tick(dt);
    if held && !boost.finished() && boost.elapsed() > JUMP_BOOST_MIN_TIME {
        velocity_y = velocity_y + rate_over(JUMP_BOOST_SPEED, dt);
    }
    world.player.coyote_time = coyote;
    world.player.jump_boost_duration = boost;
    world.player.velocity.y = clamp(velocity_y);
    assert(world.player == lifted(latched_player, is_on_platform, dt));

    // Steering: toward the nearest platform not touched yet.
    let target = nearest_position_of(
        &world.platforms,
        &world.player.position,
        Mark::Touched,
        world.platform_gen.next_platform_position,
    );
    let across = world.player.position.toward(&target).xz();
    let toward = across.scaled_to_or_zero(UNIT);
    let last = world.player.last_direction_2d;
    proof {
        lemma_heading_is_heading(world.player.position, target, last);
        lemma_div_trunc_bounds(SPEED * (UNIT + world.game.points), UNIT as int);
    }
    let direction = Vec2 {
        x: lerp(toward.x, last.x, DIRECTION_LERP) as i64,
        y: lerp(toward.y, last.y, DIRECTION_LERP) as i64,
    };
    assert(direction == heading(world.player.position, target, last));
    let speed: i64 = scale(SPEED, UNIT + world.game.difficulty()) as i64;
    proof {
        lemma_div_trunc_bounds(direction.x * speed, UNIT as int);
        lemma_div_trunc_bounds(direction.y * speed, UNIT as int);
        assert(-1000 * 21_474_841_480_000 <= direction.x * speed <= 1000 * 21_474_841_480_000
            && -1000 * 21_474_841_480_000 <= direction.y * speed <= 1000 * 21_474_841_480_000)
            by (nonlinear_arith)
            requires
                -1000 <= direction.x <= 1000,
                -1000 <= direction.y <= 1000,
                0 <= speed <= 21_474_841_480_000,
        ;
    }
    world.player.last_direction_2d = direction;
    world.player.velocity.x = scale(direction.x, speed) as i64;
    world.player.velocity.z = scale(direction.y, speed) as i64;
}

/// Where the camera is to turn, and how far it gets in this tick.
#[derive(Clone, Copy, Debug, PartialEq, Eq, Structural)]
pub struct CameraAim {
    /// The direction to look in, from the camera. Not brought to any
    /// length.
    pub direction: Vec3,
    /// Share of the way from the camera's orientation to that direction,
    /// in thousandths, that the camera turns in this tick.
    pub weight: i64,
}

/// The camera's aim in a tick of `dt` microseconds, for a camera at
/// `camera`: a point above the nearest platform that the player has not
/// been above, or above the place of the next platform where it has been
/// above them all.
pub open spec fn camera_aim(world: WorldModel, dt: u64, camera: Vec3) -> CameraAim {
    let target = nearest_position(
        world.platforms,
        camera,
        Mark::Hovered,
        world.platform_gen.next_platform_position,
    );
    CameraAim {
        direction: Vec3 {
            x: (target.x - camera.x) as i64,
            y: (target.y - camera.y + CAMERA_AIM_HEIGHT) as i64,
            z: (target.z - camera.z) as i64,
        },
        weight: over_time(CAMERA_ROTATION_SPEED as int, dt as int) as i64,
    }
}

/// The conditions under which the player touches a platform for the first
/// time: the platform is not marked as touched, and the player's body is in
/// contact with the platform's or with a part of it.
pub open spec fn touchable(
    contacts: Seq<Contact>,
    descendants: Seq<Descendant>,
    player: u64,
) -> spec_fn(Platform) -> bool {
    |platform: Platform|
        platform.touched is None && touches(contacts, descendants, player, platform.entity)
}

/// The conditions under which the player comes above a platform for the
/// first time: the platform is not marked as hovered, and the ray has hit
/// it or a part of it.
pub open spec fn hoverable(hits: Seq<RayHit>, descendants: Seq<Descendant>) -> spec_fn(
    Platform,
) -> bool {
    |platform: Platform| platform.hovered is None && hovers(hits, descendants, platform.entity)
}

/// The world after the player has touched the platform at `index`: the
/// platform is marked and has its whole time to live before it, and the
/// score is one point higher.
pub open spec fn scored(world: WorldModel, index: int) -> WorldModel {
    WorldModel {
        game: Game { points: (world.game.points + 1) as u32, ..world.game },
        platforms: world.platforms.update(
            index,
            Platform {
                touched: Some(Touched(Timer::fresh(TOUCHED_PLATFORM_TTL))),
                ..world.platforms[index]
            },
        ),
        ..world
    }
}

/// The world after the player has come above the platform at `index`: the
/// platform is marked.
pub open spec fn hovered_over(world: WorldModel, index: int) -> WorldModel {
    WorldModel {
        platforms: world.platforms.update(
            index,
            Platform { hovered: Some(Hovered), ..world.platforms[index] },
        ),
        ..world
    }
}

/// The world after a forced respawn: the player is far below the path and
/// falls faster than any fall that ends a run.
pub open spec fn dropped(world: WorldModel) -> WorldModel {
    WorldModel {
        player: Player {
            position: Vec3 { y: FORCED_FALL, ..world.player.position },
            velocity: Vec3 { y: FORCED_FALL, ..world.player.velocity },
            ..world.player
        },
        ..world
    }
}

/// Marking a platform leaves the world well formed.
pub proof fn lemma_marking_keeps_wf(world: WorldModel, index: int, marked: Platform)
    requires
        world.wf(),
        0 <= index < world.platforms.len(),
        marked.entity == world.platforms[index].entity,
        marked.position == world.platforms[index].position,
        marked.moving == world.platforms[index].moving,
    ensures
        (WorldModel { platforms: world.platforms.update(index, marked), ..world }).wf(),
{
    let after = world.platforms.update(index, marked);
    assert forall|i: int| 0 <= i < after.len() implies (#[trigger] after[i]).wf() && after[i].entity
        == world.platforms[i].entity by {
        assert(world.platforms[i].wf());
    }
}

/// The camera's part of a tick of `dt` microseconds: where it is to turn.
/// Turning it is left to the renderer.
pub fn camera_rotation(world: &World, dt: u64, camera: Vec3) -> (aim: CameraAim)
    requires
        world@.wf(),
        camera.in_world(),
    ensures
        aim == camera_aim(world@, dt, camera),
{
    let target = nearest_position_of(
        &world.platforms,
        &camera,
        Mark::Hovered,
        world.platform_gen.next_platform_position,
    );
    proof {
        lemma_over_time_bounds(CAMERA_ROTATION_SPEED as int, dt as int);
        assert(CAMERA_ROTATION_SPEED * dt <= 2000 * 0x1_0000_0000_0000_0000) by (nonlinear_arith)
            requires
                CAMERA_ROTATION_SPEED == 2000,
                0 <= dt <= 0x1_0000_0000_0000_0000,
        ;
    }
    CameraAim {
        direction: Vec3 {
            x: target.x - camera.x,
            y: target.y - camera.y + CAMERA_AIM_HEIGHT,
            z: target.z - camera.z,
        },
        weight: rate_over(CAMERA_ROTATION_SPEED, dt) as i64,
    }
}

/// Index of the first platform, oldest first, that the player touches for
/// the first time.
pub fn find_touched(
    platforms: &Vec<Platform>,
    contacts: &Vec<Contact>,
    descendants: &Vec<Descendant>,
    player: u64,
) -> (found: Option<usize>)
    ensures
        match found {
            Some(i) => i < platforms@.len() && first_index(
                platforms@,
                touchable(contacts@, descendants@, player),
            ) == Some(i as int),
            None => first_index(platforms@, touchable(contacts@, descendants@, player)) is None,
        },
{
    let ghost wanted = touchable(contacts@, descendants@, player);
    let mut i: usize = 0;
    while i < platforms.len()
        invariant
            i <= platforms@.len(),
            wanted == touchable(contacts@, descendants@, player),
            forall|j: int| 0 <= j < i ==> !wanted(#[trigger] platforms@[j]),
        decreases platforms@.len() - i,
    {
        if platforms[i].touched.is_none() && is_touching(
            contacts,
            descendants,
            player,
            platforms[i].entity,
        ) {
            proof {
                lemma_first_index_is(platforms@, wanted, i as int);
            }
            return Some(i);
        }
        i += 1;
    }
    proof {
        lemma_first_index_none(platforms@, wanted);
    }
    None
}

/// Index of the first platform, oldest first, that the player comes above
/// for the first time.
pub fn find_hovered(
    platforms: &Vec<Platform>,
    hits: &Vec<RayHit>,
    descendants: &Vec<Descendant>,
) -> (found: Option<usize>)
    ensures
        match found {
            Some(i) => i < platforms@.len() && first_index(
                platforms@,
                hoverable(hits@, descendants@),
            ) == Some(i as int),
            None => first_index(platforms@, hoverable(hits@, descendants@)) is None,
        },
{
    let ghost wanted = hoverable(hits@, descendants@);
    let mut i: usize = 0;
    while i < platforms.len()
        invariant
            i <= platforms@.len(),
            wanted == hoverable(hits@, descendants@),
            forall|j: int| 0 <= j < i ==> !wanted(#[trigger] platforms@[j]),
        decreases platforms@.len() - i,
    {
        if platforms[i].hovered.is_none() && is_hovering(hits, descendants, platforms[i].entity) {
            proof {
                lemma_first_index_is(platforms@, wanted, i as int);
            }
            return Some(i);
        }
        i += 1;
    }
    proof {
        lemma_first_index_none(platforms@, wanted);
    }
    None
}

/// The scoring part of a tick. The first platform, oldest first, that the
/// player touches for the first time is marked as touched and given its
/// time to live, the score goes up by one point, and one more platform is
/// laid at once. The rolls of that platform come back. Where the player
/// touches no such platform, nothing changes and nothing is drawn.
pub fn player_touch_platform(
    world: &mut World,
    collisions: &Vec<Contact>,
    player: u64,
    descendants: &Vec<Descendant>,
    rng: &mut StdRng,
) -> (rolls: Option<SpawnRolls>)
    requires
        old(world)@.wf(),
        can_spawn(old(world)@),
        old(world).game.points < u32::MAX,
    ensures
        match first_index(old(world)@.platforms, touchable(collisions@, descendants@, player)) {
            Some(index) => rolls matches Some(r) && rolls_fit(scored(old(world)@, index), r)
                && final(world)@ == spawned(scored(old(world)@, index), r),
            None => rolls is None && final(world)@ == old(world)@,
        },
        final(world)@.wf(),
{
    match find_touched(&world.platforms, collisions, descendants, player) {
        Some(index) => {
            let mut platform = world.platforms[index];
            platform.touched = Some(Touched(Timer::new(TOUCHED_PLATFORM_TTL)));
            proof {
                lemma_marking_keeps_wf(world@, index as int, platform);
            }
            world.platforms.set(index, platform);
            world.game.points += 1;
            assert(world@ == scored(old(world)@, index as int));
            Some(spawn_platform(SpawnPlatform, world, rng))
        },
        None => None,
    }
}

/// The hovering part of a tick. The first platform, oldest first, that the
/// player comes above for the first time is marked as hovered, which takes
/// it out of the camera's sight. Its index comes back.
pub fn player_hover_platform(
    world: &mut World,
    ray_hits: &Vec<RayHit>,
    descendants: &Vec<Descendant>,
) -> (found: Option<usize>)
    requires
        old(world)@.wf(),
    ensures
        match first_index(old(world)@.platforms, hoverable(ray_hits@, descendants@)) {
            Some(index) => found == Some(index as usize) && index < old(world)@.platforms.len()
                && final(world)@ == hovered_over(old(world)@, index),
            None => found is None && final(world)@ == old(world)@,
        },
        final(world)@.wf(),
{
    match find_hovered(&world.platforms, ray_hits, descendants) {
        Some(index) => {
            let mut platform = world.platforms[index];
            platform.hovered = Some(Hovered);
            proof {
                lemma_marking_keeps_wf(world@, index as int, platform);
            }
            world.platforms.set(index, platform);
            Some(index)
        },
        None => None,
    }
}

/// Forced respawn: where the key was pressed in this tick, the player is
/// put far below the path with the speed of a long fall, which ends the
/// run.
pub fn force_respawn(world: &mut World, pressed: bool)
    requires
        old(world)@.wf(),
    ensures
        final(world)@ == if pressed {
            dropped(old(world)@)
        } else {
            old(world)@
        },
        final(world)@.wf(),
{
    if pressed {
        world.player.position.y = FORCED_FALL;
        world.player.velocity.y = FORCED_FALL;
    }
}

} // verus!
