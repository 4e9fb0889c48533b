//! Platforms: the generator that lays the path ahead of the player, the
//! platforms that slide from side to side, and the removal of those the
//! player has left behind.

use vstd::prelude::*;
use rand::rngs::StdRng;
use crate::fixed::{
    clamp, clamped, in_limit, lemma_div_trunc_bounds, lemma_div_trunc_monotone,
    lemma_over_time_bounds, lemma_sqrt_bound, lemma_sqrt_exists, over_time, rate_over, scale,
    scaled, UNIT,
};
use crate::game::Game;
use crate::random::{draw_range, draw_ratio, pick_one};
use crate::scan::lemma_filter_next;
use crate::theme::{
    may_change_to, platforms_of, request_theme, theme_requested, themes_off_show, ThemeId,
    THEME_CHANGE_CHANCE,
};
use crate::timer::{lemma_timer_counts, total, Timer};
use crate::vector::{lemma_component_within_norm, lemma_stretched_bounds, Vec3};
use crate::world::{World, WorldModel};

verus! {

/// Least distance between two platforms, in thousandths.
pub const PLATFORM_SPACING_MIN: i64 = 5000;

/// Bound on the distance between two platforms on level ground.
pub const PLATFORM_SPACING_MAX: i64 = 9000;

/// Chance, in thousandths, that laying a platform draws the sideways bias
/// anew.
pub const DIRECTION_BIAS_HORIZONTAL_CHANCE: u32 = 100;

/// Chance, in thousandths, that laying a platform draws the vertical bias
/// anew.
pub const DIRECTION_BIAS_VERTICAL_CHANCE: u32 = 100;

/// Bound on how far the path climbs from one platform to the next.
pub const VERTICAL_VARIATION_UP: i64 = 3000;

/// Bound on how far the path drops from one platform to the next.
pub const VERTICAL_VARIATION_DOWN: i64 = 8000;

/// Bound on how far the path swerves from one platform to the next.
pub const HORIZONTAL_VARIATION: i64 = 8000;

/// Least chance, in thousandths, that a platform moves.
pub const MOVING_PLATFORM_CHANCE_MIN: i64 = 100;

/// Greatest chance, in thousandths, that a platform moves.
pub const MOVING_PLATFORM_CHANCE_MAX: i64 = 500;

/// Microseconds a platform stays once the player has touched it.
pub const TOUCHED_PLATFORM_TTL: u64 = 10_000_000;

/// How far to either side a moving platform slides, in thousandths.
pub const MOVING_PLATFORM_AMPLITUDE: i64 = 2000;

/// Greatest speed of a moving platform, in thousandths of its way per
/// second.
pub const MOVING_PLATFORM_SPEED_MAX: i64 = 5000;

/// A drop of the path by more than this gets extra room to land.
pub const DESCENT_MARGIN: i64 = 4000;

/// A full turn, in thousandths of a radian.
pub const FULL_TURN: i64 = 6283;

/// Sliding of a platform from side to side.
#[derive(Clone, Copy, Debug, PartialEq, Eq, Structural)]
pub struct MovingPlatform {
    /// Where the platform is on its way, from -1000 at one end to 1000 at
    /// the other.
    pub progress: i64,
    /// Whether `progress` is falling.
    pub going_negative: bool,
    /// The middle of the way: the `z` the platform was laid at.
    pub z: i64,
}

/// Mark of a platform that the player has touched, with the time it has
/// left.
#[derive(Clone, Copy, Debug, PartialEq, Eq, Structural)]
pub struct Touched(pub Timer);

/// Mark of a platform that the player has been above.
#[derive(Clone, Copy, Debug, PartialEq, Eq, Structural)]
pub struct Hovered;

/// A platform of the path.
#[derive(Clone, Copy, Debug, PartialEq, Eq)]
pub struct Platform {
    /// Name of the platform's body among the bodies that the physics engine
    /// reports on.
    pub entity: u64,
    /// Where the platform is.
    pub position: Vec3,
    /// The point the platform was turned to face when it was laid: where
    /// the next one was to go.
    pub facing: Vec3,
    /// Spin about the vertical added to that, in thousandths of a radian.
    pub yaw: i64,
    /// Scale of the model, in thousandths.
    pub size: i64,
    /// Asset of the model.
    pub model: &'static str,
    pub moving: Option<MovingPlatform>,
    pub touched: Option<Touched>,
    pub hovered: Option<Hovered>,
}

/// Where the generator stands.
#[derive(Clone, Copy, Debug, PartialEq, Eq, Structural)]
pub struct PlatformGeneration {
    /// Where the next platform goes.
    pub next_platform_position: Vec3,
    /// Chance, in thousandths, that the next platform swerves toward
    /// negative `z`.
    pub direction_bias_horizontal: u32,
    /// Chance, in thousandths, that the next platform lies lower.
    pub direction_bias_vertical: u32,
    /// Name of the next platform's body. Restarting a run does not take it
    /// back, so no name is given twice.
    pub next_entity: u64,
}

/// Request for one more platform.
#[derive(Clone, Copy, Debug)]
pub struct SpawnPlatform;

impl MovingPlatform {
    /// The platform is somewhere on its way, and the way lies in the world.
    pub open spec fn wf(self) -> bool {
        -1000 <= self.progress <= 1000 && in_limit(self.z as int)
    }
}

impl Platform {
    /// The platform lies in the world.
    pub open spec fn wf(self) -> bool {
        &&& self.position.in_world()
        &&& self.moving matches Some(m) ==> m.wf()
    }
}

impl PlatformGeneration {
    /// Both biases are chances, and the cursor lies in the world.
    pub open spec fn wf(self) -> bool {
        &&& self.next_platform_position.in_world()
        &&& self.direction_bias_horizontal <= 1000
        &&& self.direction_bias_vertical <= 1000
    }

    /// The generator at the start of a run whose first body is `next_entity`:
    /// cursor at the origin, no bias.
    pub open spec fn initial(next_entity: u64) -> PlatformGeneration {
        PlatformGeneration {
            next_platform_position: Vec3 { x: 0, y: 0, z: 0 },
            direction_bias_horizontal: 0,
            direction_bias_vertical: 0,
            next_entity,
        }
    }
}

impl Default for PlatformGeneration {
    fn default() -> (g: PlatformGeneration)
        ensures
            g == PlatformGeneration::initial(0),
            g.wf(),
    {
        PlatformGeneration {
            next_platform_position: Vec3 { x: 0, y: 0, z: 0 },
            direction_bias_horizontal: 0,
            direction_bias_vertical: 0,
            next_entity: 0,
        }
    }
}

/// What was drawn for a platform that slides.
#[derive(Clone, Copy, Debug, PartialEq, Eq, Structural)]
pub struct MovingRoll {
    /// Where on its way the platform starts, from -1000 up to 1000.
    pub progress: i64,
    pub going_negative: bool,
}

/// What the random stream gave for one platform. With the world as it was,
/// the rolls say all there is to say of the platform that was laid: laying
/// another with the same rolls in the same world gives the same platform.
#[derive(Clone, Copy, Debug, PartialEq, Eq)]
pub struct SpawnRolls {
    /// The theme that a change was asked for, where the platform asked for
    /// one.
    pub theme: Option<ThemeId>,
    /// Factor on the platform's size, from 800 up to 1200.
    pub size: i64,
    /// Asset of the model.
    pub model: &'static str,
    /// The sideways bias, where it was drawn anew.
    pub bias_horizontal: Option<u32>,
    /// The vertical bias, where it was drawn anew.
    pub bias_vertical: Option<u32>,
    /// Sideways part of the way to the next platform, before it is brought
    /// to length.
    pub z: i64,
    /// Vertical part of it.
    pub y: i64,
    /// Length of the way to the next platform.
    pub spacing: i64,
    /// Thousandths by which a descent is made longer. Read only where the
    /// path descends.
    pub stretch: i64,
    /// Forward part of the way to the next platform, before it is brought
    /// to length.
    pub x: i64,
    /// Spin about the vertical, in thousandths of a radian.
    pub yaw: i64,
    /// Where and which way the platform slides, where it does.
    pub moving: Option<MovingRoll>,
}

impl SpawnRolls {
    /// Every roll lies in the range it is drawn from.
    pub open spec fn in_range(self) -> bool {
        &&& 800 <= self.size < 1200
        &&& self.bias_horizontal matches Some(b) ==> b < 1000
        &&& self.bias_vertical matches Some(b) ==> b < 1000
        &&& -HORIZONTAL_VARIATION <= self.z < HORIZONTAL_VARIATION
        &&& -VERTICAL_VARIATION_DOWN <= self.y < VERTICAL_VARIATION_UP
        &&& PLATFORM_SPACING_MIN <= self.spacing < PLATFORM_SPACING_MAX
        &&& 0 <= self.stretch < 200
        &&& 4000 <= self.x < 8000
        &&& 0 <= self.yaw < FULL_TURN
        &&& self.moving matches Some(m) ==> -1000 <= m.progress < 1000
    }

    /// The way to the next platform as it was drawn, before it is brought
    /// to length.
    pub open spec fn offset(self) -> Vec3 {
        Vec3 { x: self.x, y: self.y, z: self.z }
    }
}

/// Size of a platform laid at a score of `points` with the size roll
/// `roll`: the roll, less a thousandth of it for every point.
pub open spec fn platform_size(points: u32, roll: int) -> int {
    scaled(UNIT - points, roll)
}

/// Chance, in thousandths, that a platform laid at a score of `points`
/// moves.
pub open spec fn moving_chance(points: u32) -> int {
    if points + MOVING_PLATFORM_CHANCE_MIN < MOVING_PLATFORM_CHANCE_MAX {
        points + MOVING_PLATFORM_CHANCE_MIN
    } else {
        MOVING_PLATFORM_CHANCE_MAX as int
    }
}

/// Whether a platform at height `y` above the cursor's own height `cursor_y`
/// counts as a descent. The height drawn is held against the cursor's
/// height itself.
pub open spec fn descends(cursor_y: int, y: int) -> bool {
    cursor_y > y + DESCENT_MARGIN
}

/// Length of the way from the cursor to the next platform: the spacing
/// drawn, made longer by the stretch where the path descends.
pub open spec fn spacing_of(cursor_y: int, rolls: SpawnRolls) -> int {
    if descends(cursor_y, rolls.y as int) {
        scaled(rolls.spacing as int, UNIT + rolls.stretch)
    } else {
        rolls.spacing as int
    }
}

/// The generator after a platform has been laid with the rolls: the cursor
/// has moved on by the offset drawn, brought to the length of the spacing,
/// and is held inside the world; a bias drawn anew has taken the place of
/// the old one; the next body has the next name.
pub open spec fn advanced(generation: PlatformGeneration, rolls: SpawnRolls) -> PlatformGeneration {
    let cursor = generation.next_platform_position;
    let step = rolls.offset().with_length(spacing_of(cursor.y as int, rolls));
    PlatformGeneration {
        next_platform_position: Vec3 {
            x: clamped(cursor.x + step.x) as i64,
            y: clamped(cursor.y + step.y) as i64,
            z: clamped(cursor.z + step.z) as i64,
        },
        direction_bias_horizontal: match rolls.bias_horizontal {
            Some(bias) => bias,
            None => generation.direction_bias_horizontal,
        },
        direction_bias_vertical: match rolls.bias_vertical {
            Some(bias) => bias,
            None => generation.direction_bias_vertical,
        },
        next_entity: (generation.next_entity + 1) as u64,
    }
}

/// The platform laid with the rolls at a score of `points`: at the cursor,
/// facing the place of the next one, without a mark.
pub open spec fn laid(generation: PlatformGeneration, points: u32, rolls: SpawnRolls) -> Platform {
    Platform {
        entity: generation.next_entity,
        position: generation.next_platform_position,
        facing: advanced(generation, rolls).next_platform_position,
        yaw: rolls.yaw,
        size: platform_size(points, rolls.size as int) as i64,
        model: rolls.model,
        moving: match rolls.moving {
            Some(m) => Some(
                MovingPlatform {
                    progress: m.progress,
                    going_negative: m.going_negative,
                    z: generation.next_platform_position.z,
                },
            ),
            None => None,
        },
        touched: None,
        hovered: None,
    }
}

/// The world after a platform has been laid with the rolls: the platform
/// comes last, the generator has advanced, and the theme the rolls ask for
/// has been requested.
pub open spec fn spawned(world: WorldModel, rolls: SpawnRolls) -> WorldModel {
    let with_platform = WorldModel {
        platform_gen: advanced(world.platform_gen, rolls),
        platforms: world.platforms.push(laid(world.platform_gen, world.game.points, rolls)),
        ..world
    };
    match rolls.theme {
        Some(id) => theme_requested(with_platform, id),
        None => with_platform,
    }
}

/// Whether the rolls can have been drawn in the world: each lies in its
/// range, the model is one of the theme on show, a change of theme is asked
/// for only where one can begin, a bias of nothing or of everything has
/// decided the side, and nothing was drawn for the stretch of a path that
/// does not descend.
pub open spec fn rolls_fit(world: WorldModel, rolls: SpawnRolls) -> bool {
    &&& rolls.in_range()
    &&& world.theme_current matches Some(current) && platforms_of(current.theme.id).contains(
        rolls.model,
    )
    &&& rolls.theme matches Some(id) ==> may_change_to(world, id)
    &&& advanced(world.platform_gen, rolls).direction_bias_horizontal == 0 ==> rolls.z >= 0
    &&& advanced(world.platform_gen, rolls).direction_bias_horizontal == 1000 ==> rolls.z < 0
    &&& advanced(world.platform_gen, rolls).direction_bias_vertical == 0 ==> rolls.y >= 0
    &&& advanced(world.platform_gen, rolls).direction_bias_vertical == 1000 ==> rolls.y < 0
    &&& !descends(world.platform_gen.next_platform_position.y as int, rolls.y as int)
        ==> rolls.stretch == 0
}

/// Whether a platform can be laid in the world: a theme is on show, and a
/// name is left for the platform's body.
pub open spec fn can_spawn(world: WorldModel) -> bool {
    world.theme_current is Some && world.platform_gen.next_entity < u64::MAX
}

/// Platforms shrink as the score grows: with the same roll, a platform
/// laid at the higher score is no larger.
pub proof fn lemma_size_shrinks(lower: u32, higher: u32, roll: int)
    requires
        lower <= higher,
        roll >= 0,
    ensures
        platform_size(higher, roll) <= platform_size(lower, roll),
{
    assert((UNIT - higher) * roll <= (UNIT - lower) * roll) by (nonlinear_arith)
        requires
            lower <= higher,
            roll >= 0,
    ;
    lemma_div_trunc_monotone((UNIT - higher) * roll, (UNIT - lower) * roll, UNIT as int);
}

/// The chance that a platform moves never leaves the range from the least
/// chance to the greatest, and never falls as the score grows.
pub proof fn lemma_moving_chance_bounds(lower: u32, higher: u32)
    requires
        lower <= higher,
    ensures
        MOVING_PLATFORM_CHANCE_MIN <= moving_chance(lower) <= MOVING_PLATFORM_CHANCE_MAX,
        moving_chance(lower) <= moving_chance(higher),
{
}

/// The offset drawn has a length, and brought to the spacing it leads
/// forward by at least one thousandth, and in no direction by more than
/// the spacing.
pub proof fn lemma_step_leads_forward(cursor_y: int, rolls: SpawnRolls)
    requires
        rolls.in_range(),
    ensures
        rolls.offset().length() > 0,
        PLATFORM_SPACING_MIN <= spacing_of(cursor_y, rolls) <= 10_800,
        1 <= rolls.offset().with_length(spacing_of(cursor_y, rolls)).x <= 10_800,
        -10_800 <= rolls.offset().with_length(spacing_of(cursor_y, rolls)).y <= 10_800,
        -10_800 <= rolls.offset().with_length(spacing_of(cursor_y, rolls)).z <= 10_800,
{
    let offset = rolls.offset();
    let (x, y, z) = (offset.x as int, offset.y as int, offset.z as int);
    let n = offset.length();
    let spacing = spacing_of(cursor_y, rolls);
    assert(16_000_000 <= x * x <= 64_000_000 && 0 <= y * y <= 64_000_000 && 0 <= z * z
        <= 64_000_000) by (nonlinear_arith)
        requires
            4000 <= x < 8000,
            -8000 <= y < 8000,
            -8000 <= z < 8000,
    ;
    lemma_sqrt_exists(offset.length_squared());
    assert(n >= 1) by {
        if n <= 0 {
            assert((n + 1) * (n + 1) == 1);
        }
    }
    lemma_sqrt_bound(offset.length_squared(), n, 13_999);
    lemma_component_within_norm(x, y * y + z * z, n);
    lemma_component_within_norm(y, x * x + z * z, n);
    lemma_component_within_norm(z, x * x + y * y, n);
    if descends(cursor_y, rolls.y as int) {
        let stretched_by = rolls.spacing * (UNIT + rolls.stretch);
        assert(rolls.spacing * 1000 <= stretched_by <= rolls.spacing * 1200) by (nonlinear_arith)
            requires
                stretched_by == rolls.spacing * (UNIT + rolls.stretch),
                UNIT == 1000,
                0 <= rolls.stretch < 200,
                5000 <= rolls.spacing < 9000,
        ;
        lemma_div_trunc_monotone(rolls.spacing * 1000, stretched_by, UNIT as int);
        lemma_div_trunc_monotone(stretched_by, rolls.spacing * 1200, UNIT as int);
        assert(crate::fixed::div_trunc(rolls.spacing * 1000, 1000) == rolls.spacing);
        assert(crate::fixed::div_trunc(rolls.spacing * 1200, 1000) <= 10_800);
    }
    lemma_stretched_bounds(x, spacing, n);
    lemma_stretched_bounds(y, spacing, n);
    lemma_stretched_bounds(z, spacing, n);
    assert(x * spacing >= n) by (nonlinear_arith)
        requires
            x >= 4000,
            spacing >= 5000,
            n <= 13_999,
    ;
    lemma_div_trunc_monotone(n, x * spacing, n);
    assert(crate::fixed::div_trunc(n, n) == 1) by (nonlinear_arith)
        requires
            n >= 1,
            crate::fixed::div_trunc(n, n) == n / n,
    ;
}

/// The cursor never goes back: laying a platform moves it forward, unless
/// it stands at the edge of the world, where it stays.
pub proof fn lemma_cursor_advances(generation: PlatformGeneration, rolls: SpawnRolls)
    requires
        generation.wf(),
        rolls.in_range(),
    ensures
        advanced(generation, rolls).wf(),
        advanced(generation, rolls).next_platform_position.x
            > generation.next_platform_position.x || advanced(
            generation,
            rolls,
        ).next_platform_position.x == crate::fixed::LIMIT,
        advanced(generation, rolls).next_platform_position.x
            >= generation.next_platform_position.x,
{
    lemma_step_leads_forward(generation.next_platform_position.y as int, rolls);
}

/// Chance, in thousandths, that a platform laid now moves.
pub fn moving_platform_chance(game: &Game) -> (chance: u32)
    ensures
        chance == moving_chance(game.points),
        MOVING_PLATFORM_CHANCE_MIN <= chance <= MOVING_PLATFORM_CHANCE_MAX,
{
    if game.points < 400 {
        game.points + 100
    } else {
        500
    }
}

/// Lays the platform that the rolls describe: the platform is added at the
/// cursor, the cursor moves on, and the theme the rolls ask for is
/// requested.
pub fn place_platform(world: &mut World, rolls: &SpawnRolls)
    requires
        old(world)@.wf(),
        old(world).platform_gen.next_entity < u64::MAX,
        rolls.in_range(),
    ensures
        final(world)@ == spawned(old(world)@, *rolls),
        final(world)@.wf(),
{
    let position = world.platform_gen.next_platform_position;
    proof {
        lemma_step_leads_forward(position.y as int, *rolls);
        lemma_div_trunc_bounds(rolls.spacing * (UNIT + rolls.stretch), UNIT as int);
        lemma_div_trunc_bounds((UNIT - world.game.points) * rolls.size, UNIT as int);
        assert(-0x1_0000_0000 * 1200 <= (UNIT - world.game.points) * rolls.size <= 1000 * 1200)
            by (nonlinear_arith)
            requires
                800 <= rolls.size < 1200,
                UNIT == 1000,
                0 <= world.game.points < 0x1_0000_0000,
        ;
    }
    let size: i64 = scale(UNIT - world.game.difficulty(), rolls.size) as i64;

    // A bigger gap where the path goes down.
    let spacing: i64 = if position.y > rolls.y + DESCENT_MARGIN {
        scale(rolls.spacing, UNIT + rolls.stretch) as i64
    } else {
        rolls.spacing
    };
    let step = Vec3 { x: rolls.x, y: rolls.y, z: rolls.z }.scaled_to(spacing);
    let next = Vec3 {
        x: clamp(position.x as i128 + step.x as i128),
        y: clamp(position.y as i128 + step.y as i128),
        z: clamp(position.z as i128 + step.z as i128),
    };
    if let Some(bias) = rolls.bias_horizontal {
        world.platform_gen.direction_bias_horizontal = bias;
    }
    if let Some(bias) = rolls.bias_vertical {
        world.platform_gen.direction_bias_vertical = bias;
    }
    let entity = world.platform_gen.next_entity;
    world.platform_gen.next_platform_position = next;
    world.platform_gen.next_entity = entity + 1;
    let platform = Platform {
        entity,
        position,
        facing: next,
        yaw: rolls.yaw,
        size,
        model: rolls.model,
        moving: match rolls.moving {
            Some(m) => Some(
                MovingPlatform { progress: m.progress, going_negative: m.going_negative, z: position.z },
            ),
            None => None,
        },
        touched: None,
        hovered: None,
    };
    assert(platform == laid(old(world)@.platform_gen, old(world)@.game.points, *rolls));
    world.platforms.push(platform);
    if let Some(id) = rolls.theme {
        request_theme(world, id);
    }
    proof {
        let before = old(world)@;
        let after = world@;
        assert(after.platforms =~= before.platforms.push(platform));
        assert forall|i: int| 0 <= i < after.platforms.len() implies (
        #[trigger] after.platforms[i]).wf() by {
            if i < before.platforms.len() {
                assert(after.platforms[i] == before.platforms[i]);
            }
        }
        assert(after.entities_rise()) by {
            assert forall|i: int, j: int| 0 <= i < j < after.platforms.len() implies (
            #[trigger] after.platforms[i]).entity < (#[trigger] after.platforms[j]).entity by {
                assert(after.platforms[i] == before.platforms[i]);
                if j < before.platforms.len() {
                    assert(after.platforms[j] == before.platforms[j]);
                }
            }
            assert forall|i: int| 0 <= i < after.platforms.len() implies (
            #[trigger] after.platforms[i]).entity < after.platform_gen.next_entity by {
                if i < before.platforms.len() {
                    assert(after.platforms[i] == before.platforms[i]);
                }
            }
        }
    }
}

/// Lays one more platform at the cursor, as the random stream has it.
///
/// In this order the stream decides: whether to ask for a change of theme,
/// unless one is loading; the size; the model, one of the theme on show;
/// for each bias whether to draw it anew, and the new bias; to which side
/// and how far the path swerves, and whether and how far it climbs or
/// drops, each side as likely as its bias says; the spacing, and for a
/// descent the stretch; the forward part of the way; the spin; whether the
/// platform moves, as likely as the score makes it, and if so from where
/// and which way; and last, the theme to change to. What was drawn comes
/// back.
pub fn spawn_platform(_trigger: SpawnPlatform, world: &mut World, rng: &mut StdRng) -> (rolls:
    SpawnRolls)
    requires
        old(world)@.wf(),
        can_spawn(old(world)@),
    ensures
        rolls_fit(old(world)@, rolls),
        final(world)@ == spawned(old(world)@, rolls),
        final(world)@.wf(),
{
    // Small chance to change the theme, unless one is loading already.
    let change_theme = world.theme_change.is_none() && draw_ratio(rng, THEME_CHANGE_CHANCE, 1000);

    let size = draw_range(rng, 800, 1200);
    let current = world.theme_current.unwrap();
    let models = current.theme.platforms();
    let model = pick_one(rng, &models).unwrap();

    // Small chance to draw each bias anew.
    let bias_horizontal = if draw_ratio(rng, DIRECTION_BIAS_HORIZONTAL_CHANCE, 1000) {
        Some(draw_range(rng, 0, 1000) as u32)
    } else {
        None
    };
    let bias_vertical = if draw_ratio(rng, DIRECTION_BIAS_VERTICAL_CHANCE, 1000) {
        Some(draw_range(rng, 0, 1000) as u32)
    } else {
        None
    };
    let toward_negative = match bias_horizontal {
        Some(bias) => bias,
        None => world.platform_gen.direction_bias_horizontal,
    };
    let toward_down = match bias_vertical {
        Some(bias) => bias,
        None => world.platform_gen.direction_bias_vertical,
    };

    // The way to the next platform.
    let z = if draw_ratio(rng, toward_negative, 1000) {
        draw_range(rng, -HORIZONTAL_VARIATION, 0)
    } else {
        draw_range(rng, 0, HORIZONTAL_VARIATION)
    };
    let y = if draw_ratio(rng, toward_down, 1000) {
        draw_range(rng, -VERTICAL_VARIATION_DOWN, 0)
    } else {
        draw_range(rng, 0, VERTICAL_VARIATION_UP)
    };
    let spacing = draw_range(rng, PLATFORM_SPACING_MIN, PLATFORM_SPACING_MAX);
    let stretch = if world.platform_gen.next_platform_position.y > y + DESCENT_MARGIN {
        draw_range(rng, 0, 200)
    } else {
        0
    };
    let x = draw_range(rng, 4000, 8000);
    let yaw = draw_range(rng, 0, FULL_TURN);

    // Chance to be a moving platform.
    let moving = if draw_ratio(rng, moving_platform_chance(&world.game), 1000) {
        let progress = draw_range(rng, -1000, 1000);
        let going_negative = draw_ratio(rng, 1, 2);
        Some(MovingRoll { progress, going_negative })
    } else {
        None
    };

    let theme = if change_theme {
        pick_one(rng, &themes_off_show(&world.theme_current))
    } else {
        None
    };
    let rolls = SpawnRolls {
        theme,
        size,
        model,
        bias_horizontal,
        bias_vertical,
        z,
        y,
        spacing,
        stretch,
        x,
        yaw,
        moving,
    };
    place_platform(world, &rolls);
    rolls
}

/// Speed of the moving platforms at a score of `points`, in thousandths
/// of their way per second: one unit, two more for each unit of
/// difficulty, and never above the greatest speed.
pub open spec fn moving_speed(points: u32) -> int {
    if UNIT + 2 * points < MOVING_PLATFORM_SPEED_MAX {
        UNIT + 2 * points
    } else {
        MOVING_PLATFORM_SPEED_MAX as int
    }
}

/// The slide after `dt` microseconds at the given speed: it has gone on the
/// way it was going, and where that took it past an end of its way it
/// stands at that end and has turned round.
pub open spec fn slid(moving: MovingPlatform, speed: int, dt: u64) -> MovingPlatform {
    let travelled = over_time(speed, dt as int);
    let progress = if moving.going_negative {
        moving.progress - travelled
    } else {
        moving.progress + travelled
    };
    if progress > 1000 {
        MovingPlatform { progress: 1000, going_negative: true, z: moving.z }
    } else if progress < -1000 {
        MovingPlatform { progress: -1000i64, going_negative: false, z: moving.z }
    } else {
        MovingPlatform { progress: progress as i64, going_negative: moving.going_negative, z: moving.z }
    }
}

/// The platform after `dt` microseconds at the given speed. One that moves
/// has slid, and lies to the side of the middle of its way by its progress
/// times the amplitude; another is as it was.
pub open spec fn slid_platform(platform: Platform, speed: int, dt: u64) -> Platform {
    match platform.moving {
        None => platform,
        Some(moving) => {
            let now = slid(moving, speed, dt);
            Platform {
                moving: Some(now),
                position: Vec3 {
                    z: clamped(scaled(now.progress as int, MOVING_PLATFORM_AMPLITUDE as int) + now.z) as i64,
                    ..platform.position
                },
                ..platform
            }
        },
    }
}

/// What `update_moving_platforms` does to each platform.
pub open spec fn sliding(points: u32, dt: u64) -> spec_fn(Platform) -> Platform {
    |platform: Platform| slid_platform(platform, moving_speed(points), dt)
}

/// The platform after `dt` microseconds of its time to live: the timer of
/// one that was touched has run on.
pub open spec fn aged(platform: Platform, dt: u64) -> Platform {
    match platform.touched {
        Some(touched) => Platform { touched: Some(Touched(touched.0.ticked(dt))), ..platform },
        None => platform,
    }
}

/// Whether the platform's time to live is over.
pub open spec fn expired(platform: Platform) -> bool {
    platform.touched matches Some(touched) && touched.0.finished
}

/// What `delete_touched_platforms` does to each platform before it looks
/// which ones to remove.
pub open spec fn aging(dt: u64) -> spec_fn(Platform) -> Platform {
    |platform: Platform| aged(platform, dt)
}

/// The platforms that `delete_touched_platforms` keeps.
pub open spec fn lasting() -> spec_fn(Platform) -> bool {
    |platform: Platform| !expired(platform)
}

/// The platforms that `delete_touched_platforms` removes.
pub open spec fn spent() -> spec_fn(Platform) -> bool {
    |platform: Platform| expired(platform)
}

/// The body of a platform.
pub open spec fn body() -> spec_fn(Platform) -> u64 {
    |platform: Platform| platform.entity
}

/// A touched platform is removed no earlier than its time to live and no
/// later than that plus one tick. Let a platform be touched, and let
/// `deltas` be the ticks that follow, in each of which
/// `delete_touched_platforms` ages it. If the platform is removed in the
/// last of them and in none before, then the time that has passed since the
/// touch, that tick included, is at least the time to live, and less than
/// the time to live plus that tick.
pub proof fn lemma_touched_platform_lifetime(platform: Platform, deltas: Seq<u64>)
    requires
        platform.touched == Some(Touched(Timer::fresh(TOUCHED_PLATFORM_TTL))),
        deltas.len() > 0,
        expired(aged_through(platform, deltas)),
        !expired(aged_through(platform, deltas.drop_last())),
    ensures
        TOUCHED_PLATFORM_TTL <= total(deltas) < TOUCHED_PLATFORM_TTL + deltas.last(),
{
    lemma_aged_through(platform, deltas);
    lemma_aged_through(platform, deltas.drop_last());
    lemma_timer_counts(TOUCHED_PLATFORM_TTL, deltas);
    lemma_timer_counts(TOUCHED_PLATFORM_TTL, deltas.drop_last());
}

/// The platform after the ticks `deltas` of its time to live.
pub open spec fn aged_through(platform: Platform, deltas: Seq<u64>) -> Platform
    decreases deltas.len(),
{
    if deltas.len() == 0 {
        platform
    } else {
        aged(aged_through(platform, deltas.drop_last()), deltas.last())
    }
}

/// Ageing a touched platform tick by tick runs its timer through the ticks
/// and changes nothing else.
pub proof fn lemma_aged_through(platform: Platform, deltas: Seq<u64>)
    requires
        platform.touched is Some,
    ensures
        aged_through(platform, deltas) == (Platform {
            touched: Some(Touched(platform.touched.unwrap().0.ticked_through(deltas))),
            ..platform
        }),
    decreases deltas.len(),
{
    if deltas.len() > 0 {
        lemma_aged_through(platform, deltas.drop_last());
    }
}

/// Speed of the moving platforms, in thousandths of their way per second.
pub fn moving_platform_speed(game: &Game) -> (speed: i64)
    ensures
        speed == moving_speed(game.points),
        UNIT <= speed <= MOVING_PLATFORM_SPEED_MAX,
{
    if game.points < 2000 {
        UNIT + 2 * (game.points as i64)
    } else {
        MOVING_PLATFORM_SPEED_MAX
    }
}

/// One platform's part of `update_moving_platforms`.
pub fn slide_platform(platform: &Platform, speed: i64, dt: u64) -> (after: Platform)
    requires
        platform.wf(),
        0 <= speed <= MOVING_PLATFORM_SPEED_MAX,
    ensures
        after == slid_platform(*platform, speed as int, dt),
        after.wf(),
        after.entity == platform.entity,
{
    match platform.moving {
        None => *platform,
        Some(moving) => {
            proof {
                lemma_over_time_bounds(speed as int, dt as int);
                assert(speed * dt <= 5000 * 0x1_0000_0000_0000_0000) by (nonlinear_arith)
                    requires
                        0 <= speed <= 5000,
                        0 <= dt <= 0x1_0000_0000_0000_0000,
                ;
                lemma_div_trunc_bounds(1000 * MOVING_PLATFORM_AMPLITUDE, UNIT as int);
                lemma_div_trunc_bounds(-1000 * MOVING_PLATFORM_AMPLITUDE, UNIT as int);
            }
            let travelled: i128 = rate_over(speed, dt);
            let progress: i128 = if moving.going_negative {
                moving.progress as i128 - travelled
            } else {
                moving.progress as i128 + travelled
            };
            let now = if progress > 1000 {
                MovingPlatform { progress: 1000, going_negative: true, z: moving.z }
            } else if progress < -1000 {
                MovingPlatform { progress: -1000, going_negative: false, z: moving.z }
            } else {
                MovingPlatform {
                    progress: progress as i64,
                    going_negative: moving.going_negative,
                    z: moving.z,
                }
            };
            proof {
                lemma_div_trunc_bounds(now.progress * MOVING_PLATFORM_AMPLITUDE, UNIT as int);
            }
            let aside: i128 = scale(now.progress, MOVING_PLATFORM_AMPLITUDE);
            Platform {
                entity: platform.entity,
                position: Vec3 {
                    x: platform.position.x,
                    y: platform.position.y,
                    z: clamp(aside + now.z as i128),
                },
                facing: platform.facing,
                yaw: platform.yaw,
                size: platform.size,
                model: platform.model,
                moving: Some(now),
                touched: platform.touched,
                hovered: platform.hovered,
            }
        },
    }
}

/// The moving platforms' part of a tick of `dt` microseconds: each slides on
/// at the speed that the score sets.
pub fn update_moving_platforms(world: &mut World, dt: u64)
    requires
        old(world)@.wf(),
    ensures
        final(world)@ == (WorldModel {
            platforms: old(world)@.platforms.map_values(sliding(old(world)@.game.points, dt)),
            ..old(world)@
        }),
        final(world)@.wf(),
{
    let speed = moving_platform_speed(&world.game);
    let ghost before = world@;
    let mut i: usize = 0;
    while i < world.platforms.len()
        invariant
            i <= world.platforms@.len(),
            before.wf(),
            speed == moving_speed(before.game.points),
            0 <= speed <= MOVING_PLATFORM_SPEED_MAX,
            world@ == (WorldModel { platforms: world@.platforms, ..before }),
            world@.platforms.len() == before.platforms.len(),
            forall|j: int|
                0 <= j < i ==> world@.platforms[j] == slid_platform(
                    #[trigger] before.platforms[j],
                    speed as int,
                    dt,
                ),
            forall|j: int| i <= j < before.platforms.len() ==> world@.platforms[j] == before.platforms[j],
        decreases world.platforms@.len() - i,
    {
        proof {
            assert(before.platforms[i as int].wf());
        }
        let after = slide_platform(&world.platforms[i], speed, dt);
        world.platforms.set(i, after);
        i += 1;
    }
    proof {
        let moved = before.platforms.map_values(sliding(before.game.points, dt));
        assert(world@.platforms =~= moved);
        assert forall|j: int| 0 <= j < moved.len() implies (#[trigger] moved[j]).wf() && moved[j].entity
            == before.platforms[j].entity by {
            assert(before.platforms[j].wf());
        }
    }
}

/// Removes the touched platforms whose time to live is over: the timer of
/// each touched platform runs on by `dt` microseconds, and a platform whose
/// timer has then run out leaves. The others stay in their order. The
/// bodies of those that left come back.
pub fn delete_touched_platforms(world: &mut World, dt: u64) -> (removed: Vec<u64>)
    requires
        old(world)@.wf(),
    ensures
        final(world)@ == (WorldModel {
            platforms: old(world)@.platforms.map_values(aging(dt)).filter(lasting()),
            ..old(world)@
        }),
        removed@ == old(world)@.platforms.map_values(aging(dt)).filter(spent()).map_values(body()),
        final(world)@.wf(),
{
    let ghost before = world@;
    let ghost ticked = before.platforms.map_values(aging(dt));
    let mut kept: Vec<Platform> = Vec::new();
    let mut removed: Vec<u64> = Vec::new();
    let mut i: usize = 0;
    while i < world.platforms.len()
        invariant
            i <= world.platforms@.len(),
            world@ == before,
            before.wf(),
            ticked == before.platforms.map_values(aging(dt)),
            kept@ == ticked.take(i as int).filter(lasting()),
            removed@ == ticked.take(i as int).filter(spent()).map_values(body()),
            forall|k: int| 0 <= k < kept@.len() ==> (#[trigger] kept@[k]).wf(),
            forall|k: int, l: int|
                0 <= k < l < kept@.len() ==> (#[trigger] kept@[k]).entity < (#[trigger] kept@[l]).entity,
            forall|k: int|
                0 <= k < kept@.len() ==> (#[trigger] kept@[k]).entity < before.platform_gen.next_entity,
            forall|k: int|
                0 <= k < kept@.len() && i < before.platforms.len() ==> (#[trigger] kept@[k]).entity
                    < before.platforms[i as int].entity,
        decreases world.platforms@.len() - i,
    {
        let mut platform = world.platforms[i];
        proof {
            lemma_filter_next(ticked, lasting(), i as int);
            lemma_filter_next(ticked, spent(), i as int);
            assert(ticked[i as int] == aged(before.platforms[i as int], dt));
            assert(before.platforms[i as int].wf());
        }
        let over = match platform.touched {
            Some(Touched(mut timer)) => {
                timer.tick(dt);
                platform.touched = Some(Touched(timer));
                timer.finished()
            },
            None => false,
        };
        assert(platform == aged(before.platforms[i as int], dt));
        assert(over == expired(platform));
        if over {
            let ghost gone = ticked.take(i as int).filter(spent());
            removed.push(platform.entity);
            assert(removed@ =~= gone.push(platform).map_values(body()));
        } else {
            kept.push(platform);
        }
        assert forall|k: int|
            0 <= k < kept@.len() && i + 1 < before.platforms.len() implies (
        #[trigger] kept@[k]).entity < before.platforms[i + 1].entity by {
            assert(before.platforms[i as int].entity < before.platforms[i + 1].entity);
        }
        i += 1;
    }
    proof {
        assert(ticked.take(i as int) =~= ticked);
    }
    world.platforms = kept;
    removed
}

} // verus!
