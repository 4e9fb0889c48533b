use rand::rngs::StdRng;
use rand::Rng;
use rand::SeedableRng;
use runner_core::theme::{
    apply_loaded_theme, change_theme, force_theme_change, has_load_failed, is_fully_loaded,
    request_theme, themes, themes_off_show, ChangeThemeRandom, LoadState, ThemeChange,
    ThemeCurrent, ThemeId, ThemeLoad, FADE_LEAD,
};
use runner_core::world::{AppState, World};

fn loaded(count: usize) -> Vec<LoadState> {
    vec![LoadState::Loaded; count]
}

fn models_of(id: ThemeId) -> usize {
    ThemeLoad { id }.platforms().len()
}

#[test]
fn catalog_holds_heaven_and_space() {
    let catalog = themes();
    assert_eq!(catalog.len(), 2);
    assert_eq!(catalog[0].id, ThemeId::Heaven);
    assert_eq!(catalog[0].id.name(), "heaven");
    assert_eq!(catalog[0].skybox, "green_explosion.ktx2");
    assert_eq!(
        catalog[0].platforms,
        vec![
            "ground1.glb",
            "ground2.glb",
            "ground1_top1.glb",
            "ground2_top2.glb",
            "sand.glb",
            "sand_top2.glb",
            "rock.glb",
            "rock_top1.glb",
            "rock_top2.glb",
        ]
    );
    assert_eq!(catalog[1].id, ThemeId::Space);
    assert_eq!(catalog[1].id.name(), "space");
    assert_eq!(catalog[1].skybox, "nebula_dark.ktx2");
    assert_eq!(
        catalog[1].platforms,
        vec!["asteroid1.glb", "asteroid2.glb", "asteroid3.glb", "asteroid4.glb", "asteroid5.glb"]
    );
}

#[test]
fn theme_load_reads_the_catalog() {
    let space = ThemeLoad { id: ThemeId::Space };
    assert_eq!(space.skybox(), "nebula_dark.ktx2");
    assert_eq!(space.platforms().len(), 5);
    let heaven = ThemeLoad { id: ThemeId::Heaven };
    assert_eq!(heaven.skybox(), "green_explosion.ktx2");
    assert_eq!(heaven.platforms().len(), 9);
}

#[test]
fn themes_off_show_leaves_out_the_current_one() {
    assert_eq!(themes_off_show(&None), vec![ThemeId::Heaven, ThemeId::Space]);
    let heaven = Some(ThemeCurrent { theme: ThemeLoad { id: ThemeId::Heaven } });
    assert_eq!(themes_off_show(&heaven), vec![ThemeId::Space]);
    let space = Some(ThemeCurrent { theme: ThemeLoad { id: ThemeId::Space } });
    assert_eq!(themes_off_show(&space), vec![ThemeId::Heaven]);
}

#[test]
fn change_theme_starts_a_load_when_idle() {
    let mut seed = 0;
    while seed < 20 {
        let mut rng = StdRng::seed_from_u64(seed);
        let mut world = World::new();
        let picked = change_theme(ChangeThemeRandom, &mut world, &mut rng);
        assert!(picked.is_some());
        assert_eq!(world.theme_change, Some(ThemeChange { theme: ThemeLoad { id: picked.unwrap() } }));
        assert_eq!(world.theme_current, None);
        assert_eq!(world.state, AppState::Loading);
        seed += 1;
    }
}

#[test]
fn change_theme_picks_both_themes_over_many_seeds() {
    let mut heaven = 0;
    let mut space = 0;
    let mut seed = 0;
    while seed < 64 {
        let mut rng = StdRng::seed_from_u64(seed);
        let mut world = World::new();
        match change_theme(ChangeThemeRandom, &mut world, &mut rng).unwrap() {
            ThemeId::Heaven => heaven += 1,
            ThemeId::Space => space += 1,
        }
        seed += 1;
    }
    assert!(heaven > 0);
    assert!(space > 0);
}

#[test]
fn change_theme_never_picks_the_theme_on_show() {
    let mut seed = 0;
    while seed < 40 {
        let mut rng = StdRng::seed_from_u64(seed);
        let mut world = World::new();
        let on_show = if seed % 2 == 0 { ThemeId::Heaven } else { ThemeId::Space };
        world.theme_current = Some(ThemeCurrent { theme: ThemeLoad { id: on_show } });
        let picked = change_theme(ChangeThemeRandom, &mut world, &mut rng).unwrap();
        assert_ne!(picked, on_show);
        assert_eq!(world.theme_change.unwrap().theme.id, picked);
        seed += 1;
    }
}

#[test]
fn change_theme_while_pending_is_rejected() {
    let mut rng = StdRng::seed_from_u64(7);
    let mut world = World::new();
    let first = change_theme(ChangeThemeRandom, &mut world, &mut rng).unwrap();
    let pending = world.theme_change;
    let mut again = 0;
    while again < 10 {
        assert_eq!(change_theme(ChangeThemeRandom, &mut world, &mut rng), None);
        assert_eq!(force_theme_change(&mut world, true, &mut rng), None);
        assert_eq!(world.theme_change, pending);
        again += 1;
    }
    assert_eq!(world.theme_change.unwrap().theme.id, first);
    assert_eq!(world.theme_current, None);
}

#[test]
fn rejected_change_draws_nothing() {
    let mut rng = StdRng::seed_from_u64(11);
    let mut untouched = StdRng::seed_from_u64(11);
    let mut world = World::new();
    world.theme_change = Some(ThemeChange { theme: ThemeLoad { id: ThemeId::Space } });
    assert_eq!(change_theme(ChangeThemeRandom, &mut world, &mut rng), None);
    assert_eq!(rng.gen_range(0..1_000_000_i64), untouched.gen_range(0..1_000_000_i64));
}

#[test]
fn request_theme_accepts_only_when_idle_and_off_show() {
    let mut world = World::new();
    world.theme_current = Some(ThemeCurrent { theme: ThemeLoad { id: ThemeId::Heaven } });
    assert!(!request_theme(&mut world, ThemeId::Heaven));
    assert_eq!(world.theme_change, None);
    assert!(request_theme(&mut world, ThemeId::Space));
    assert_eq!(world.theme_change, Some(ThemeChange { theme: ThemeLoad { id: ThemeId::Space } }));
    assert!(!request_theme(&mut world, ThemeId::Space));
    assert_eq!(world.theme_change, Some(ThemeChange { theme: ThemeLoad { id: ThemeId::Space } }));
}

#[test]
fn force_theme_change_needs_the_key() {
    let mut rng = StdRng::seed_from_u64(3);
    let mut world = World::new();
    assert_eq!(force_theme_change(&mut world, false, &mut rng), None);
    assert_eq!(world.theme_change, None);
    let picked = force_theme_change(&mut world, true, &mut rng);
    assert!(picked.is_some());
    assert_eq!(world.theme_change.unwrap().theme.id, picked.unwrap());
}

#[test]
fn fully_loaded_wants_every_asset_loaded() {
    assert!(is_fully_loaded(ThemeId::Space, LoadState::Loaded, &loaded(5)));
    assert!(is_fully_loaded(ThemeId::Heaven, LoadState::Loaded, &loaded(9)));
    assert!(!is_fully_loaded(ThemeId::Space, LoadState::Pending, &loaded(5)));
    assert!(!is_fully_loaded(ThemeId::Space, LoadState::Failed, &loaded(5)));
    assert!(!is_fully_loaded(ThemeId::Space, LoadState::Loaded, &loaded(4)));
    assert!(!is_fully_loaded(ThemeId::Space, LoadState::Loaded, &loaded(6)));
    assert!(!is_fully_loaded(ThemeId::Heaven, LoadState::Loaded, &loaded(5)));
    let mut last_pending = loaded(5);
    last_pending[4] = LoadState::Pending;
    assert!(!is_fully_loaded(ThemeId::Space, LoadState::Loaded, &last_pending));
    let mut first_failed = loaded(5);
    first_failed[0] = LoadState::Failed;
    assert!(!is_fully_loaded(ThemeId::Space, LoadState::Loaded, &first_failed));
}

#[test]
fn load_failed_sees_any_failure() {
    assert!(!has_load_failed(LoadState::Loaded, &loaded(5)));
    assert!(!has_load_failed(LoadState::Pending, &vec![LoadState::Pending; 5]));
    assert!(has_load_failed(LoadState::Failed, &loaded(5)));
    let mut one = loaded(5);
    one[3] = LoadState::Failed;
    assert!(has_load_failed(LoadState::Loaded, &one));
    assert!(!has_load_failed(LoadState::Loaded, &Vec::new()));
}

#[test]
fn nothing_is_applied_while_no_theme_loads() {
    let mut world = World::new();
    assert!(apply_loaded_theme(&mut world, 0, LoadState::Loaded, &loaded(5)).is_none());
    assert_eq!(world.theme_current, None);
    assert_eq!(world.theme_change, None);
    assert_eq!(world.state, AppState::Loading);
}

#[test]
fn theme_is_not_published_before_every_asset_has_loaded() {
    let mut world = World::new();
    assert!(request_theme(&mut world, ThemeId::Space));
    let pending = world.theme_change;
    // Every way of having one asset still pending.
    let mut slot = 0;
    while slot < 5 {
        let mut states = loaded(5);
        states[slot] = LoadState::Pending;
        assert!(apply_loaded_theme(&mut world, 1_000, LoadState::Loaded, &states).is_none());
        assert_eq!(world.theme_current, None);
        assert_eq!(world.theme_change, pending);
        assert_eq!(world.state, AppState::Loading);
        slot += 1;
    }
    assert!(apply_loaded_theme(&mut world, 1_000, LoadState::Pending, &loaded(5)).is_none());
    assert_eq!(world.theme_current, None);
    assert_eq!(world.theme_change, pending);
    assert!(apply_loaded_theme(&mut world, 1_000, LoadState::Loaded, &loaded(4)).is_none());
    assert_eq!(world.theme_current, None);
    assert_eq!(world.theme_change, pending);
}

#[test]
fn first_publish_starts_play() {
    let mut world = World::new();
    assert!(request_theme(&mut world, ThemeId::Space));
    let material = apply_loaded_theme(&mut world, 2_500_000, LoadState::Loaded, &loaded(5)).unwrap();
    assert_eq!(world.theme_current, Some(ThemeCurrent { theme: ThemeLoad { id: ThemeId::Space } }));
    assert_eq!(world.theme_change, None);
    assert_eq!(world.state, AppState::Game);
    assert_eq!(FADE_LEAD, 30_000_000);
    assert_eq!(material.time_t0, 32_500_000);
    assert_eq!(material.sky_texture1, "nebula_dark.ktx2");
    assert_eq!(material.sky_texture2, "nebula_dark.ktx2");
}

#[test]
fn first_publish_at_the_end_of_time() {
    let mut world = World::new();
    assert!(request_theme(&mut world, ThemeId::Heaven));
    let material = apply_loaded_theme(&mut world, u64::MAX - 5, LoadState::Loaded, &loaded(9)).unwrap();
    assert_eq!(material.time_t0, u64::MAX);
}

#[test]
fn later_publish_fades_from_the_theme_on_show() {
    let mut world = World::new();
    assert!(request_theme(&mut world, ThemeId::Space));
    assert!(apply_loaded_theme(&mut world, 0, LoadState::Loaded, &loaded(5)).is_some());
    assert!(request_theme(&mut world, ThemeId::Heaven));
    let material = apply_loaded_theme(&mut world, 77_000_000, LoadState::Loaded, &loaded(9)).unwrap();
    assert_eq!(world.theme_current, Some(ThemeCurrent { theme: ThemeLoad { id: ThemeId::Heaven } }));
    assert_eq!(world.theme_change, None);
    assert_eq!(world.state, AppState::Game);
    assert_eq!(material.time_t0, 77_000_000);
    assert_eq!(material.sky_texture1, "green_explosion.ktx2");
    assert_eq!(material.sky_texture2, "nebula_dark.ktx2");
}

#[test]
fn failed_load_drops_the_attempt_and_keeps_the_theme_on_show() {
    let mut rng = StdRng::seed_from_u64(5);
    let mut world = World::new();
    assert!(request_theme(&mut world, ThemeId::Space));
    assert!(apply_loaded_theme(&mut world, 0, LoadState::Loaded, &loaded(5)).is_some());
    let on_show = world.theme_current;
    assert!(request_theme(&mut world, ThemeId::Heaven));
    let mut states = loaded(9);
    states[2] = LoadState::Failed;
    assert!(apply_loaded_theme(&mut world, 0, LoadState::Loaded, &states).is_none());
    assert_eq!(world.theme_current, on_show);
    assert_eq!(world.theme_change, None);
    // A new attempt can be made later.
    let picked = change_theme(ChangeThemeRandom, &mut world, &mut rng);
    assert_eq!(picked, Some(ThemeId::Heaven));
    assert!(apply_loaded_theme(&mut world, 0, LoadState::Loaded, &loaded(models_of(ThemeId::Heaven))).is_some());
    assert_eq!(world.theme_current.unwrap().theme.id, ThemeId::Heaven);
}

#[test]
fn failed_skybox_drops_the_first_attempt() {
    let mut world = World::new();
    assert!(request_theme(&mut world, ThemeId::Heaven));
    assert!(apply_loaded_theme(&mut world, 0, LoadState::Failed, &vec![LoadState::Pending; 9]).is_none());
    assert_eq!(world.theme_current, None);
    assert_eq!(world.theme_change, None);
    assert_eq!(world.state, AppState::Loading);
}

#[test]
fn current_theme_was_fully_loaded_on_every_tick() {
    // The loader's reports come in one asset at a time; the theme on show
    // changes only on the tick that sees them all loaded.
    let mut world = World::new();
    assert!(request_theme(&mut world, ThemeId::Heaven));
    let mut states = vec![LoadState::Pending; 9];
    let mut tick = 0;
    while tick < 9 {
        assert!(apply_loaded_theme(&mut world, tick, LoadState::Loaded, &states).is_none());
        assert!(world.theme_current.is_none());
        states[tick as usize] = LoadState::Loaded;
        tick += 1;
    }
    assert!(apply_loaded_theme(&mut world, tick, LoadState::Pending, &states).is_none());
    assert!(world.theme_current.is_none());
    assert!(apply_loaded_theme(&mut world, tick, LoadState::Loaded, &states).is_some());
    assert_eq!(world.theme_current.unwrap().theme.id, ThemeId::Heaven);
}
