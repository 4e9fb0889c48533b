use rand::rngs::StdRng;
use rand::SeedableRng;
use runner_core::fixed::LIMIT;
use runner_core::game::Game;
use runner_core::platforms::{
    delete_touched_platforms, moving_platform_chance, moving_platform_speed, place_platform,
    slide_platform, spawn_platform, update_moving_platforms, Hovered, MovingPlatform, MovingRoll,
    Platform, PlatformGeneration, SpawnPlatform, SpawnRolls, Touched, TOUCHED_PLATFORM_TTL,
};
use runner_core::theme::{ThemeChange, ThemeCurrent, ThemeId, ThemeLoad};
use runner_core::timer::Timer;
use runner_core::vector::Vec3;
use runner_core::world::World;

fn world_on(id: ThemeId) -> World {
    let mut world = World::new();
    world.theme_current = Some(ThemeCurrent { theme: ThemeLoad { id } });
    world
}

fn level_rolls() -> SpawnRolls {
    SpawnRolls {
        theme: None,
        size: 1000,
        model: "asteroid1.glb",
        bias_horizontal: None,
        bias_vertical: None,
        z: 3000,
        y: 0,
        spacing: 5000,
        stretch: 100,
        x: 4000,
        yaw: 1234,
        moving: None,
    }
}

fn in_range(rolls: &SpawnRolls) -> bool {
    (800..1200).contains(&rolls.size)
        && rolls.bias_horizontal.map_or(true, |b| b < 1000)
        && rolls.bias_vertical.map_or(true, |b| b < 1000)
        && (-8000..8000).contains(&rolls.z)
        && (-8000..3000).contains(&rolls.y)
        && (5000..9000).contains(&rolls.spacing)
        && (0..200).contains(&rolls.stretch)
        && (4000..8000).contains(&rolls.x)
        && (0..6283).contains(&rolls.yaw)
        && rolls.moving.map_or(true, |m| (-1000..1000).contains(&m.progress))
}

#[test]
fn default_generation_starts_at_the_origin() {
    let generation = PlatformGeneration::default();
    assert_eq!(generation.next_platform_position, Vec3::new(0, 0, 0));
    assert_eq!(generation.direction_bias_horizontal, 0);
    assert_eq!(generation.direction_bias_vertical, 0);
    assert_eq!(generation.next_entity, 0);
}

#[test]
fn place_platform_on_level_ground() {
    let mut world = world_on(ThemeId::Space);
    place_platform(&mut world, &level_rolls());
    assert_eq!(
        world.platforms,
        vec![Platform {
            entity: 0,
            position: Vec3::new(0, 0, 0),
            facing: Vec3::new(4000, 0, 3000),
            yaw: 1234,
            size: 1000,
            model: "asteroid1.glb",
            moving: None,
            touched: None,
            hovered: None,
        }]
    );
    assert_eq!(
        world.platform_gen,
        PlatformGeneration {
            next_platform_position: Vec3::new(4000, 0, 3000),
            direction_bias_horizontal: 0,
            direction_bias_vertical: 0,
            next_entity: 1,
        }
    );
    assert_eq!(world.theme_change, None);
    assert_eq!(world.game, Game { started: false, points: 0 });
}

#[test]
fn second_platform_stands_where_the_first_one_faces() {
    let mut world = world_on(ThemeId::Space);
    place_platform(&mut world, &level_rolls());
    let mut rolls = level_rolls();
    rolls.z = 0;
    place_platform(&mut world, &rolls);
    assert_eq!(world.platforms.len(), 2);
    assert_eq!(world.platforms[1].entity, 1);
    assert_eq!(world.platforms[1].position, world.platforms[0].facing);
    assert_eq!(world.platforms[1].facing, Vec3::new(9000, 0, 3000));
    assert_eq!(world.platform_gen.next_platform_position, Vec3::new(9000, 0, 3000));
    assert_eq!(world.platform_gen.next_entity, 2);
}

#[test]
fn descent_gets_a_longer_gap() {
    let mut world = world_on(ThemeId::Space);
    let mut rolls = level_rolls();
    rolls.z = 0;
    rolls.y = -4001;
    place_platform(&mut world, &rolls);
    // Spacing 5000 stretched by 100 thousandths is 5500; the offset is 5657 long.
    assert_eq!(world.platform_gen.next_platform_position, Vec3::new(3888, -3889, 0));
}

#[test]
fn drop_of_exactly_the_margin_is_no_descent() {
    let mut world = world_on(ThemeId::Space);
    let mut rolls = level_rolls();
    rolls.z = 0;
    rolls.y = -4000;
    place_platform(&mut world, &rolls);
    assert_eq!(world.platform_gen.next_platform_position, Vec3::new(3536, -3536, 0));
}

#[test]
fn descent_is_judged_against_the_height_of_the_cursor() {
    let mut world = world_on(ThemeId::Space);
    world.platform_gen.next_platform_position = Vec3::new(0, 10_000, 0);
    let mut rolls = level_rolls();
    rolls.z = 0;
    rolls.y = 2999;
    place_platform(&mut world, &rolls);
    assert_eq!(world.platform_gen.next_platform_position, Vec3::new(4400, 13_299, 0));
}

#[test]
fn longest_and_steepest_step() {
    let mut world = world_on(ThemeId::Space);
    world.platform_gen.next_platform_position = Vec3::new(0, 0, 0);
    let mut rolls = level_rolls();
    rolls.x = 7999;
    rolls.y = -8000;
    rolls.z = -8000;
    rolls.spacing = 8999;
    rolls.stretch = 199;
    place_platform(&mut world, &rolls);
    assert_eq!(world.platform_gen.next_platform_position, Vec3::new(6228, -6229, -6229));
}

#[test]
fn cursor_stops_at_the_edge_of_the_world() {
    let mut world = world_on(ThemeId::Space);
    world.platform_gen.next_platform_position = Vec3::new(LIMIT - 10, 0, 0);
    let mut rolls = level_rolls();
    rolls.z = 0;
    place_platform(&mut world, &rolls);
    assert_eq!(world.platform_gen.next_platform_position, Vec3::new(LIMIT, 0, 0));
    assert_eq!(world.platforms[0].position, Vec3::new(LIMIT - 10, 0, 0));
    place_platform(&mut world, &rolls);
    assert_eq!(world.platform_gen.next_platform_position, Vec3::new(LIMIT, 0, 0));
}

#[test]
fn rolls_replace_the_biases() {
    let mut world = world_on(ThemeId::Space);
    world.platform_gen.direction_bias_horizontal = 300;
    world.platform_gen.direction_bias_vertical = 400;
    let mut rolls = level_rolls();
    rolls.bias_horizontal = Some(700);
    place_platform(&mut world, &rolls);
    assert_eq!(world.platform_gen.direction_bias_horizontal, 700);
    assert_eq!(world.platform_gen.direction_bias_vertical, 400);
    rolls.bias_horizontal = None;
    rolls.bias_vertical = Some(0);
    place_platform(&mut world, &rolls);
    assert_eq!(world.platform_gen.direction_bias_horizontal, 700);
    assert_eq!(world.platform_gen.direction_bias_vertical, 0);
}

#[test]
fn moving_roll_makes_a_moving_platform() {
    let mut world = world_on(ThemeId::Space);
    world.platform_gen.next_platform_position = Vec3::new(100, 200, 300);
    let mut rolls = level_rolls();
    rolls.moving = Some(MovingRoll { progress: -250, going_negative: true });
    place_platform(&mut world, &rolls);
    assert_eq!(
        world.platforms[0].moving,
        Some(MovingPlatform { progress: -250, going_negative: true, z: 300 })
    );
    assert_eq!(world.platforms[0].position, Vec3::new(100, 200, 300));
}

#[test]
fn platform_size_follows_the_score() {
    let sizes = [(0u32, 1000i64, 1000i64), (0, 1199, 1199), (0, 800, 800), (250, 800, 600), (500, 1000, 500), (1000, 1199, 0), (1500, 1199, -599), (2000, 800, -800)];
    for (points, roll, size) in sizes {
        let mut world = world_on(ThemeId::Space);
        world.game.points = points;
        let mut rolls = level_rolls();
        rolls.size = roll;
        place_platform(&mut world, &rolls);
        assert_eq!(world.platforms[0].size, size);
    }
}

#[test]
fn platform_size_never_grows_with_the_score() {
    for roll in [800i64, 1000, 1199] {
        let mut last = i64::MAX;
        let mut points = 0u32;
        while points <= 3000 {
            let mut world = world_on(ThemeId::Heaven);
            world.game.points = points;
            let mut rolls = level_rolls();
            rolls.size = roll;
            place_platform(&mut world, &rolls);
            assert!(world.platforms[0].size <= last);
            last = world.platforms[0].size;
            points += 7;
        }
    }
    let mut world = world_on(ThemeId::Heaven);
    world.game.points = u32::MAX;
    place_platform(&mut world, &level_rolls());
    assert_eq!(world.platforms[0].size, -4_294_966_295);
}

#[test]
fn moving_chance_is_clamped() {
    assert_eq!(moving_platform_chance(&Game { started: true, points: 0 }), 100);
    assert_eq!(moving_platform_chance(&Game { started: true, points: 1 }), 101);
    assert_eq!(moving_platform_chance(&Game { started: true, points: 399 }), 499);
    assert_eq!(moving_platform_chance(&Game { started: true, points: 400 }), 500);
    assert_eq!(moving_platform_chance(&Game { started: true, points: 401 }), 500);
    assert_eq!(moving_platform_chance(&Game { started: false, points: u32::MAX }), 500);
}

#[test]
fn moving_speed_is_capped() {
    assert_eq!(moving_platform_speed(&Game { started: true, points: 0 }), 1000);
    assert_eq!(moving_platform_speed(&Game { started: true, points: 500 }), 2000);
    assert_eq!(moving_platform_speed(&Game { started: true, points: 1999 }), 4998);
    assert_eq!(moving_platform_speed(&Game { started: true, points: 2000 }), 5000);
    assert_eq!(moving_platform_speed(&Game { started: true, points: u32::MAX }), 5000);
}

#[test]
fn rolls_ask_for_a_theme_only_when_one_can_begin() {
    let mut world = world_on(ThemeId::Space);
    let mut rolls = level_rolls();
    rolls.theme = Some(ThemeId::Space);
    place_platform(&mut world, &rolls);
    assert_eq!(world.theme_change, None);
    rolls.theme = Some(ThemeId::Heaven);
    place_platform(&mut world, &rolls);
    assert_eq!(world.theme_change, Some(ThemeChange { theme: ThemeLoad { id: ThemeId::Heaven } }));
    assert_eq!(world.theme_current.unwrap().theme.id, ThemeId::Space);
    assert_eq!(world.platforms.len(), 2);
}

#[test]
fn spawned_rolls_lie_in_their_ranges() {
    let mut seed = 0;
    while seed < 40 {
        let mut rng = StdRng::seed_from_u64(seed);
        let mut world = world_on(if seed % 2 == 0 { ThemeId::Heaven } else { ThemeId::Space });
        world.game.points = (seed as u32) * 37;
        let models = world.theme_current.unwrap().theme.platforms();
        let mut count = 0;
        while count < 50 {
            let pending = world.theme_change;
            let rolls = spawn_platform(SpawnPlatform, &mut world, &mut rng);
            assert!(in_range(&rolls));
            assert!(models.contains(&rolls.model));
            if let Some(id) = rolls.theme {
                assert_eq!(pending, None);
                assert_ne!(id, world.theme_current.unwrap().theme.id);
                assert_eq!(world.theme_change.unwrap().theme.id, id);
            } else {
                assert_eq!(world.theme_change, pending);
            }
            count += 1;
        }
        assert_eq!(world.platforms.len(), 50);
        seed += 1;
    }
}

#[test]
fn spawned_rolls_vary() {
    let mut rng = StdRng::seed_from_u64(2024);
    let mut world = world_on(ThemeId::Heaven);
    world.game.points = 300;
    let first = spawn_platform(SpawnPlatform, &mut world, &mut rng);
    let mut size = false;
    let mut model = false;
    let mut x = false;
    let mut y = false;
    let mut z = false;
    let mut spacing = false;
    let mut yaw = false;
    let mut moving = 0;
    let mut still = 0;
    let mut down = 0;
    let mut up = 0;
    let mut count = 0;
    while count < 400 {
        let rolls = spawn_platform(SpawnPlatform, &mut world, &mut rng);
        size |= rolls.size != first.size;
        model |= rolls.model != first.model;
        x |= rolls.x != first.x;
        y |= rolls.y != first.y;
        z |= rolls.z != first.z;
        spacing |= rolls.spacing != first.spacing;
        yaw |= rolls.yaw != first.yaw;
        if rolls.moving.is_some() {
            moving += 1;
        } else {
            still += 1;
        }
        if rolls.y < 0 {
            down += 1;
        } else {
            up += 1;
        }
        count += 1;
    }
    assert!(size && model && x && y && z && spacing && yaw);
    assert!(moving > 0 && still > 0);
    assert!(down > 0 && up > 0);
}

#[test]
fn bias_of_nothing_never_turns_negative() {
    // With both biases at zero the path swerves toward positive z and climbs,
    // until a bias is drawn anew.
    let mut seed = 100;
    while seed < 130 {
        let mut rng = StdRng::seed_from_u64(seed);
        let mut world = world_on(ThemeId::Space);
        let mut count = 0;
        while count < 30 {
            let horizontal = world.platform_gen.direction_bias_horizontal;
            let vertical = world.platform_gen.direction_bias_vertical;
            let rolls = spawn_platform(SpawnPlatform, &mut world, &mut rng);
            if horizontal == 0 && rolls.bias_horizontal.is_none() {
                assert!(rolls.z >= 0);
            }
            if vertical == 0 && rolls.bias_vertical.is_none() {
                assert!(rolls.y >= 0);
            }
            count += 1;
        }
        seed += 1;
    }
}

#[test]
fn spawn_is_place_with_the_rolls_drawn() {
    let mut seed = 0;
    while seed < 10 {
        let mut rng = StdRng::seed_from_u64(seed);
        let mut drawn = world_on(ThemeId::Heaven);
        let mut replayed = world_on(ThemeId::Heaven);
        let mut count = 0;
        while count < 60 {
            drawn.game.points = count * 20;
            replayed.game.points = count * 20;
            let rolls = spawn_platform(SpawnPlatform, &mut drawn, &mut rng);
            place_platform(&mut replayed, &rolls);
            count += 1;
        }
        assert_eq!(drawn.platforms, replayed.platforms);
        assert_eq!(drawn.platform_gen, replayed.platform_gen);
        assert_eq!(drawn.theme_change, replayed.theme_change);
        seed += 1;
    }
}

#[test]
fn same_seed_lays_the_same_path() {
    let mut one = world_on(ThemeId::Space);
    let mut other = world_on(ThemeId::Space);
    let mut rng_one = StdRng::seed_from_u64(42);
    let mut rng_other = StdRng::seed_from_u64(42);
    let mut count = 0;
    while count < 200 {
        one.game.points = count;
        other.game.points = count;
        spawn_platform(SpawnPlatform, &mut one, &mut rng_one);
        spawn_platform(SpawnPlatform, &mut other, &mut rng_other);
        assert_eq!(one.platform_gen.next_platform_position, other.platform_gen.next_platform_position);
        count += 1;
    }
    let places_one: Vec<Vec3> = one.platforms.iter().map(|p| p.position).collect();
    let places_other: Vec<Vec3> = other.platforms.iter().map(|p| p.position).collect();
    assert_eq!(places_one, places_other);
    assert_eq!(one.platforms, other.platforms);

    let mut third = world_on(ThemeId::Space);
    let mut rng_third = StdRng::seed_from_u64(43);
    count = 0;
    while count < 200 {
        third.game.points = count;
        spawn_platform(SpawnPlatform, &mut third, &mut rng_third);
        count += 1;
    }
    assert_ne!(one.platform_gen.next_platform_position, third.platform_gen.next_platform_position);
}

#[test]
fn cursor_never_goes_back() {
    let mut rng = StdRng::seed_from_u64(9);
    let mut world = world_on(ThemeId::Heaven);
    let mut count = 0;
    while count < 300 {
        let before = world.platform_gen.next_platform_position;
        spawn_platform(SpawnPlatform, &mut world, &mut rng);
        let after = world.platform_gen.next_platform_position;
        assert!(after.x > before.x);
        assert_eq!(world.platforms[count].position, before);
        assert_eq!(world.platforms[count].facing, after);
        assert_eq!(world.platforms[count].entity, count as u64);
        count += 1;
    }
}

fn slider(progress: i64, going_negative: bool, z: i64) -> Platform {
    Platform {
        entity: 3,
        position: Vec3::new(10_000, 500, z),
        facing: Vec3::new(15_000, 500, z),
        yaw: 0,
        size: 1000,
        model: "rock.glb",
        moving: Some(MovingPlatform { progress, going_negative, z }),
        touched: None,
        hovered: Some(Hovered),
    }
}

#[test]
fn moving_platform_slides_and_turns_at_the_ends() {
    // Past the far end: held there, and turned round.
    let after = slide_platform(&slider(900, false, 3000), 1000, 200_000);
    assert_eq!(after.moving, Some(MovingPlatform { progress: 1000, going_negative: true, z: 3000 }));
    assert_eq!(after.position, Vec3::new(10_000, 500, 5000));
    // Back again.
    let after = slide_platform(&after, 1000, 200_000);
    assert_eq!(after.moving, Some(MovingPlatform { progress: 800, going_negative: true, z: 3000 }));
    assert_eq!(after.position, Vec3::new(10_000, 500, 4600));
    // Past the near end.
    let after = slide_platform(&slider(-950, true, 3000), 1000, 200_000);
    assert_eq!(after.moving, Some(MovingPlatform { progress: -1000, going_negative: false, z: 3000 }));
    assert_eq!(after.position, Vec3::new(10_000, 500, 1000));
    // Exactly at the end: not past it, so not turned.
    let after = slide_platform(&slider(800, false, 3000), 1000, 200_000);
    assert_eq!(after.moving, Some(MovingPlatform { progress: 1000, going_negative: false, z: 3000 }));
    // The rest of the platform is as it was.
    assert_eq!(after.entity, 3);
    assert_eq!(after.hovered, Some(Hovered));
    assert_eq!(after.facing, Vec3::new(15_000, 500, 3000));
}

#[test]
fn moving_platform_survives_an_endless_tick() {
    let after = slide_platform(&slider(0, true, -LIMIT), 5000, u64::MAX);
    assert_eq!(after.moving, Some(MovingPlatform { progress: -1000, going_negative: false, z: -LIMIT }));
    assert_eq!(after.position.z, -LIMIT);
    let after = slide_platform(&slider(0, false, LIMIT), 5000, u64::MAX);
    assert_eq!(after.position.z, LIMIT);
}

#[test]
fn still_platform_does_not_slide() {
    let mut platform = slider(0, false, 0);
    platform.moving = None;
    assert_eq!(slide_platform(&platform, 5000, 1_000_000), platform);
}

#[test]
fn update_moving_platforms_uses_the_speed_of_the_score() {
    let mut world = world_on(ThemeId::Space);
    world.game.points = 500;
    let mut rolls = level_rolls();
    rolls.z = 0;
    place_platform(&mut world, &rolls);
    rolls.moving = Some(MovingRoll { progress: 100, going_negative: false });
    place_platform(&mut world, &rolls);
    rolls.moving = Some(MovingRoll { progress: 100, going_negative: true });
    place_platform(&mut world, &rolls);
    let still = world.platforms[0];
    // Speed 2000 for a tenth of a second: 200 thousandths of the way.
    update_moving_platforms(&mut world, 100_000);
    assert_eq!(world.platforms.len(), 3);
    assert_eq!(world.platforms[0], still);
    assert_eq!(world.platforms[1].moving.unwrap().progress, 300);
    assert_eq!(world.platforms[1].position.z, 600);
    assert_eq!(world.platforms[2].moving.unwrap().progress, -100);
    assert_eq!(world.platforms[2].position.z, -200);
    assert_eq!(world.platforms[1].position.x, 5000);
    assert_eq!(world.platforms[2].position.x, 10_000);
}

fn touch(world: &mut World, index: usize) {
    world.platforms[index].touched = Some(Touched(Timer::new(TOUCHED_PLATFORM_TTL)));
}

#[test]
fn touched_platform_leaves_within_one_tick_of_its_time_to_live() {
    let mut world = world_on(ThemeId::Space);
    let mut count = 0;
    while count < 4 {
        place_platform(&mut world, &level_rolls());
        count += 1;
    }
    touch(&mut world, 1);
    assert_eq!(TOUCHED_PLATFORM_TTL, 10_000_000);
    let mut passed = 0;
    let mut tick = 0;
    while tick < 3 {
        assert_eq!(delete_touched_platforms(&mut world, 3_000_000), Vec::<u64>::new());
        passed += 3_000_000;
        assert_eq!(world.platforms.len(), 4);
        assert_eq!(world.platforms[1].touched.unwrap().0.elapsed(), passed);
        tick += 1;
    }
    assert!(passed < TOUCHED_PLATFORM_TTL);
    assert_eq!(delete_touched_platforms(&mut world, 3_000_000), vec![1]);
    passed += 3_000_000;
    assert!(passed >= TOUCHED_PLATFORM_TTL);
    assert!(passed < TOUCHED_PLATFORM_TTL + 3_000_000);
    let left: Vec<u64> = world.platforms.iter().map(|p| p.entity).collect();
    assert_eq!(left, vec![0, 2, 3]);
}

#[test]
fn touched_platform_leaves_on_the_tick_that_reaches_its_time_to_live() {
    let mut world = world_on(ThemeId::Space);
    place_platform(&mut world, &level_rolls());
    touch(&mut world, 0);
    assert!(delete_touched_platforms(&mut world, 9_999_999).is_empty());
    assert_eq!(world.platforms.len(), 1);
    assert_eq!(delete_touched_platforms(&mut world, 1), vec![0]);
    assert!(world.platforms.is_empty());
}

#[test]
fn untouched_platforms_stay_for_ever() {
    let mut world = world_on(ThemeId::Space);
    place_platform(&mut world, &level_rolls());
    place_platform(&mut world, &level_rolls());
    let before = world.platforms.clone();
    assert!(delete_touched_platforms(&mut world, u64::MAX).is_empty());
    assert_eq!(world.platforms, before);
}

#[test]
fn platforms_touched_at_different_times_leave_in_turn() {
    let mut world = world_on(ThemeId::Space);
    let mut count = 0;
    while count < 5 {
        place_platform(&mut world, &level_rolls());
        count += 1;
    }
    touch(&mut world, 0);
    assert!(delete_touched_platforms(&mut world, 4_000_000).is_empty());
    touch(&mut world, 2);
    touch(&mut world, 4);
    assert!(delete_touched_platforms(&mut world, 4_000_000).is_empty());
    assert_eq!(delete_touched_platforms(&mut world, 4_000_000), vec![0]);
    assert_eq!(delete_touched_platforms(&mut world, 4_000_000), vec![2, 4]);
    let left: Vec<u64> = world.platforms.iter().map(|p| p.entity).collect();
    assert_eq!(left, vec![1, 3]);
    assert_eq!(world.platform_gen.next_entity, 5);
}
