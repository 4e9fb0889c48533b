//! The world: everything the simulation keeps from one tick to the next.

use vstd::prelude::*;
use crate::fixed::LIMIT;
use crate::game::Game;
use crate::platforms::{Platform, PlatformGeneration};
use crate::player::{spawn_player, Player};
use crate::theme::{ThemeChange, ThemeCurrent};

verus! {

/// Whether the first theme is still loading or play has begun.
#[derive(Clone, Copy, Debug, PartialEq, Eq, Structural)]
pub enum AppState {
    Loading,
    Game,
}

/// The world.
pub struct World {
    pub state: AppState,
    pub game: Game,
    pub platform_gen: PlatformGeneration,
    /// The platforms, oldest first.
    pub platforms: Vec<Platform>,
    pub player: Player,
    pub theme_current: Option<ThemeCurrent>,
    pub theme_change: Option<ThemeChange>,
}

/// The world as the contracts see it.
pub struct WorldModel {
    pub state: AppState,
    pub game: Game,
    pub platform_gen: PlatformGeneration,
    pub platforms: Seq<Platform>,
    pub player: Player,
    pub theme_current: Option<ThemeCurrent>,
    pub theme_change: Option<ThemeChange>,
}

impl View for World {
    type V = WorldModel;

    open spec fn view(&self) -> WorldModel {
        WorldModel {
            state: self.state,
            game: self.game,
            platform_gen: self.platform_gen,
            platforms: self.platforms@,
            player: self.player,
            theme_current: self.theme_current,
            theme_change: self.theme_change,
        }
    }
}

impl WorldModel {
    /// The bodies of the platforms are named in rising order, below the
    /// name that the generator gives next. So no two platforms share a
    /// body.
    pub open spec fn entities_rise(self) -> bool {
        &&& forall|i: int, j: int|
            0 <= i < j < self.platforms.len() ==> (#[trigger] self.platforms[i]).entity < (
            #[trigger] self.platforms[j]).entity
        &&& forall|i: int|
            0 <= i < self.platforms.len() ==> (#[trigger] self.platforms[i]).entity
                < self.platform_gen.next_entity
    }

    /// Everything lies in the world, every chance is a chance, and no two
    /// platforms share a body.
    pub open spec fn wf(self) -> bool {
        &&& self.platform_gen.wf()
        &&& self.player.wf()
        &&& forall|i: int| 0 <= i < self.platforms.len() ==> (#[trigger] self.platforms[i]).wf()
        &&& self.entities_rise()
    }

    /// The world before anything has happened: the first theme still to
    /// load, no platform, the player at the spawn point.
    pub open spec fn initial() -> WorldModel {
        WorldModel {
            state: AppState::Loading,
            game: Game::initial(),
            platform_gen: PlatformGeneration::initial(0),
            platforms: Seq::empty(),
            player: Player::initial(),
            theme_current: None,
            theme_change: None,
        }
    }
}

impl World {
    /// Whether the world is well formed.
    pub fn is_well_formed(&self) -> (b: bool)
        ensures
            b == self@.wf(),
    {
        if !(self.platform_gen.next_platform_position.is_in_world()
            && self.platform_gen.direction_bias_horizontal <= 1000
            && self.platform_gen.direction_bias_vertical <= 1000
            && self.player.position.is_in_world() && self.player.velocity.is_in_world() && -1000
            <= self.player.last_direction_2d.x && self.player.last_direction_2d.x <= 1000 && -1000
            <= self.player.last_direction_2d.y && self.player.last_direction_2d.y <= 1000) {
            return false;
        }
        let mut i: usize = 0;
        while i < self.platforms.len()
            invariant
                i <= self.platforms@.len(),
                forall|k: int| 0 <= k < i ==> (#[trigger] self.platforms@[k]).wf(),
                forall|k: int|
                    0 <= k < i ==> (#[trigger] self.platforms@[k]).entity
                        < self.platform_gen.next_entity,
                forall|k: int, l: int|
                    0 <= k < l < i ==> (#[trigger] self.platforms@[k]).entity < (
                    #[trigger] self.platforms@[l]).entity,
            decreases self.platforms@.len() - i,
        {
            let platform = &self.platforms[i];
            let sound = platform.position.is_in_world() && match platform.moving {
                Some(moving) => -1000 <= moving.progress && moving.progress <= 1000 && -LIMIT
                    <= moving.z && moving.z <= LIMIT,
                None => true,
            };
            let rising = platform.entity < self.platform_gen.next_entity && (i == 0
                || self.platforms[i - 1].entity < platform.entity);
            if !(sound && rising) {
                proof {
                    if sound && i > 0 && platform.entity < self.platform_gen.next_entity {
                        assert(!(self.platforms@[i - 1].entity < self.platforms@[i as int].entity));
                    }
                }
                return false;
            }
            i += 1;
        }
        true
    }

    /// The world before anything has happened.
    pub fn new() -> (world: World)
        ensures
            world@ == WorldModel::initial(),
            world@.wf(),
    {
        World {
            state: AppState::Loading,
            game: Game::default(),
            platform_gen: PlatformGeneration::default(),
            platforms: Vec::new(),
            player: spawn_player(),
            theme_current: None,
            theme_change: None,
        }
    }
}

} // verus!
