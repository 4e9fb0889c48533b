//! The run: its score, its start, its restart after a fall, and the line
//! of text that tells the player where the run stands.

use vstd::prelude::*;
use rand::rngs::StdRng;
use crate::platforms::{
    advanced, rolls_fit, spawn_platform, spawned, PlatformGeneration, SpawnPlatform, SpawnRolls,
};
use crate::player::{scored, spawn_player, Player, FALL_SPEED};
use crate::theme::{change_theme, may_change_to, theme_requested, ChangeThemeRandom, ThemeId};
use crate::vector::Vec3;
use crate::world::{World, WorldModel};

verus! {

/// Platforms laid out ahead of the player when a run begins.
pub const NB_PLATFORMS_INIT: u32 = 10;

/// State of the run: whether it has started, and the score.
#[derive(Clone, Copy, Debug, PartialEq, Eq, Structural)]
pub struct Game {
    pub started: bool,
    pub points: u32,
}

impl Game {
    /// The state in which every run begins: not started, no points.
    pub open spec fn initial() -> Game {
        Game { started: false, points: 0 }
    }

    /// Difficulty in thousandths: one whole unit of difficulty for every
    /// thousand points, so the number of points itself.
    pub open spec fn spec_difficulty(self) -> int {
        self.points as int
    }

    /// Difficulty in thousandths.
    pub fn difficulty(&self) -> (d: i64)
        ensures
            d == self.spec_difficulty(),
            d >= 0,
    {
        self.points as i64
    }
}

impl Default for Game {
    fn default() -> (g: Game)
        ensures
            g == Game::initial(),
    {
        Game { started: false, points: 0 }
    }
}

/// The world with the run started over: no points, the cursor back at the
/// origin, no bias. The platforms are as they were.
pub open spec fn restarted(world: WorldModel) -> WorldModel {
    WorldModel {
        game: Game::initial(),
        platform_gen: PlatformGeneration::initial(world.platform_gen.next_entity),
        ..world
    }
}

/// The world after platforms have been laid with the rolls, one after the
/// other.
pub open spec fn spawned_all(world: WorldModel, rolls: Seq<SpawnRolls>) -> WorldModel
    decreases rolls.len(),
{
    if rolls.len() == 0 {
        world
    } else {
        spawned(spawned_all(world, rolls.drop_last()), rolls.last())
    }
}

/// Whether each of the rolls can have been drawn in the world that the
/// rolls before it had made.
pub open spec fn all_fit(world: WorldModel, rolls: Seq<SpawnRolls>) -> bool {
    forall|k: int|
        0 <= k < rolls.len() ==> rolls_fit(spawned_all(world, rolls.take(k)), #[trigger] rolls[k])
}

/// Whether the player has fallen off the path.
pub open spec fn fallen(world: WorldModel) -> bool {
    world.player.velocity.y < FALL_SPEED
}

/// The world with every platform gone and the player as a run finds it.
pub open spec fn cleared(world: WorldModel) -> WorldModel {
    WorldModel { platforms: Seq::empty(), player: Player::initial(), ..world }
}

/// Whether the world has names left for the bodies of `count` more
/// platforms.
pub open spec fn has_room(world: WorldModel, count: int) -> bool {
    world.platform_gen.next_entity + count <= u64::MAX
}

/// The world after the player has touched platforms one after the other:
/// each event names the platform touched and the rolls of the platform
/// laid for it.
pub open spec fn after_touches(world: WorldModel, events: Seq<(int, SpawnRolls)>) -> WorldModel
    decreases events.len(),
{
    if events.len() == 0 {
        world
    } else {
        spawned(scored(after_touches(world, events.drop_last()), events.last().0), events.last().1)
    }
}

/// The generator after platforms have been laid with the rolls, one after
/// the other.
pub open spec fn advanced_all(generation: PlatformGeneration, rolls: Seq<SpawnRolls>) -> PlatformGeneration
    decreases rolls.len(),
{
    if rolls.len() == 0 {
        generation
    } else {
        advanced(advanced_all(generation, rolls.drop_last()), rolls.last())
    }
}

/// Laying platforms adds them after those that were there, one for each of
/// the rolls, and leaves the score, the player and the theme on show as
/// they were.
pub proof fn lemma_spawned_all(world: WorldModel, rolls: Seq<SpawnRolls>)
    ensures
        spawned_all(world, rolls).platforms.len() == world.platforms.len() + rolls.len(),
        spawned_all(world, rolls).platforms.take(world.platforms.len() as int) == world.platforms,
        spawned_all(world, rolls).game == world.game,
        spawned_all(world, rolls).player == world.player,
        spawned_all(world, rolls).state == world.state,
        spawned_all(world, rolls).theme_current == world.theme_current,
        spawned_all(world, rolls).platform_gen == advanced_all(world.platform_gen, rolls),
        has_room(world, rolls.len() as int) ==> spawned_all(world, rolls).platform_gen.next_entity
            == world.platform_gen.next_entity + rolls.len(),
        rolls.len() > 0 ==> spawned_all(world, rolls).platforms[world.platforms.len() as int].position
            == world.platform_gen.next_platform_position,
    decreases rolls.len(),
{
    let n = world.platforms.len() as int;
    if rolls.len() > 0 {
        lemma_spawned_all(world, rolls.drop_last());
        let before = spawned_all(world, rolls.drop_last());
        let after = spawned_all(world, rolls);
        assert(after.platforms =~= before.platforms.push(after.platforms.last()));
        assert(after.platforms.take(n) =~= before.platforms.take(n));
        if rolls.len() > 1 {
            assert(after.platforms[n] == before.platforms[n]);
        }
    } else {
        assert(world.platforms.take(n) =~= world.platforms);
    }
}

/// The path is a matter of the rolls alone. Two runs whose generators stand
/// alike and that lay platforms with the same rolls leave their generators
/// alike, cursor and biases, and lay their platforms in the same places,
/// whatever else sets the two worlds apart.
pub proof fn lemma_path_follows_rolls(one: WorldModel, other: WorldModel, rolls: Seq<SpawnRolls>)
    requires
        one.platform_gen == other.platform_gen,
    ensures
        spawned_all(one, rolls).platform_gen == spawned_all(other, rolls).platform_gen,
        forall|k: int|
            0 <= k < rolls.len() ==> (#[trigger] spawned_all(one, rolls).platforms[one.platforms.len()
                + k]).position == spawned_all(other, rolls).platforms[other.platforms.len()
                + k].position,
    decreases rolls.len(),
{
    lemma_spawned_all(one, rolls);
    lemma_spawned_all(other, rolls);
    if rolls.len() > 0 {
        let shorter = rolls.drop_last();
        lemma_path_follows_rolls(one, other, shorter);
        lemma_spawned_all(one, shorter);
        lemma_spawned_all(other, shorter);
        let (a0, b0) = (spawned_all(one, shorter), spawned_all(other, shorter));
        let (a1, b1) = (spawned_all(one, rolls), spawned_all(other, rolls));
        assert(a1.platforms =~= a0.platforms.push(a1.platforms.last()));
        assert(b1.platforms =~= b0.platforms.push(b1.platforms.last()));
        assert forall|k: int| 0 <= k < rolls.len() implies (#[trigger] a1.platforms[one.platforms.len()
            + k]).position == b1.platforms[other.platforms.len() + k].position by {
            if k < shorter.len() {
                assert(a1.platforms[one.platforms.len() + k] == a0.platforms[one.platforms.len() + k]);
                assert(b1.platforms[other.platforms.len() + k] == b0.platforms[other.platforms.len()
                    + k]);
            }
        }
    }
}

/// After a run has begun with its first platforms and the player has
/// touched platforms `events.len()` times, the score is the number of
/// touches, and one platform has been laid for each touch beyond the first
/// platforms of the run: as many bodies have been named, and as many
/// platforms are there.
pub proof fn lemma_touches_score_and_spawn(
    world: WorldModel,
    batch: Seq<SpawnRolls>,
    events: Seq<(int, SpawnRolls)>,
)
    requires
        batch.len() == NB_PLATFORMS_INIT,
        events.len() <= u32::MAX,
        has_room(world, NB_PLATFORMS_INIT + events.len()),
        forall|k: int|
            0 <= k < events.len() ==> 0 <= (#[trigger] events[k]).0 < world.platforms.len()
                + NB_PLATFORMS_INIT + k,
    ensures
        after_touches(spawned_all(restarted(world), batch), events).game.points == events.len(),
        after_touches(spawned_all(restarted(world), batch), events).platform_gen.next_entity
            == world.platform_gen.next_entity + NB_PLATFORMS_INIT + events.len(),
        after_touches(spawned_all(restarted(world), batch), events).platforms.len()
            == world.platforms.len() + NB_PLATFORMS_INIT + events.len(),
    decreases events.len(),
{
    lemma_spawned_all(restarted(world), batch);
    if events.len() > 0 {
        let shorter = events.drop_last();
        assert forall|k: int| 0 <= k < shorter.len() implies 0 <= (#[trigger] shorter[k]).0
            < world.platforms.len() + NB_PLATFORMS_INIT + k by {
            assert(shorter[k] == events[k]);
        }
        lemma_touches_score_and_spawn(world, batch, shorter);
    }
}

/// Begins a run: the score and the generator start over, and the first
/// platforms are laid ahead of the player. What was drawn for them comes
/// back. Platforms that are there stay.
pub fn init_game(world: &mut World, rng: &mut StdRng) -> (rolls: Vec<SpawnRolls>)
    requires
        old(world)@.wf(),
        old(world)@.theme_current is Some,
        has_room(old(world)@, NB_PLATFORMS_INIT as int),
    ensures
        rolls@.len() == NB_PLATFORMS_INIT,
        all_fit(restarted(old(world)@), rolls@),
        final(world)@ == spawned_all(restarted(old(world)@), rolls@),
        final(world)@.wf(),
{
    world.game = Game::default();
    world.platform_gen = PlatformGeneration {
        next_platform_position: Vec3 { x: 0, y: 0, z: 0 },
        direction_bias_horizontal: 0,
        direction_bias_vertical: 0,
        next_entity: world.platform_gen.next_entity,
    };
    let ghost start = world@;
    assert(start == restarted(old(world)@));
    let mut rolls: Vec<SpawnRolls> = Vec::new();
    let mut i: u32 = 0;
    while i < NB_PLATFORMS_INIT
        invariant
            i <= NB_PLATFORMS_INIT,
            rolls@.len() == i,
            start.theme_current is Some,
            has_room(start, NB_PLATFORMS_INIT as int),
            all_fit(start, rolls@),
            world@ == spawned_all(start, rolls@),
            world@.wf(),
        decreases NB_PLATFORMS_INIT - i,
    {
        proof {
            lemma_spawned_all(start, rolls@);
        }
        let ghost drawn = rolls@;
        let roll = spawn_platform(SpawnPlatform, world, rng);
        rolls.push(roll);
        proof {
            assert(rolls@.drop_last() =~= drawn);
            assert forall|k: int| 0 <= k < rolls@.len() implies rolls_fit(
                spawned_all(start, rolls@.take(k)),
                #[trigger] rolls@[k],
            ) by {
                if k < drawn.len() {
                    assert(rolls@.take(k) =~= drawn.take(k));
                    assert(rolls@[k] == drawn[k]);
                } else {
                    assert(rolls@.take(k) =~= drawn);
                }
            }
        }
        i += 1;
    }
    rolls
}

/// Restarts the run where the player has fallen off the path: in one step
/// every platform goes, the player is back at the spawn point as a run
/// finds it, and a run begins with its first platforms, whose rolls come
/// back. The camera is then to look at `camera_default_target` again:
/// turning it is left to the renderer. Where the player has not fallen,
/// nothing changes.
pub fn reset(world: &mut World, rng: &mut StdRng) -> (rolls: Option<Vec<SpawnRolls>>)
    requires
        old(world)@.wf(),
        old(world)@.theme_current is Some,
        has_room(old(world)@, NB_PLATFORMS_INIT as int),
    ensures
        match rolls {
            Some(rolls) => {
                &&& fallen(old(world)@)
                &&& rolls@.len() == NB_PLATFORMS_INIT
                &&& all_fit(restarted(cleared(old(world)@)), rolls@)
                &&& final(world)@ == spawned_all(restarted(cleared(old(world)@)), rolls@)
            },
            None => !fallen(old(world)@) && final(world)@ == old(world)@,
        },
        final(world)@.wf(),
{
    if world.player.velocity.y < FALL_SPEED {
        world.platforms.clear();
        world.player = spawn_player();
        assert(world@ == cleared(old(world)@));
        Some(init_game(world, rng))
    } else {
        None
    }
}

/// The digit `d` as text.
pub open spec fn digit_of(d: int) -> &'static str {
    if d == 0 {
        "0"
    } else if d == 1 {
        "1"
    } else if d == 2 {
        "2"
    } else if d == 3 {
        "3"
    } else if d == 4 {
        "4"
    } else if d == 5 {
        "5"
    } else if d == 6 {
        "6"
    } else if d == 7 {
        "7"
    } else if d == 8 {
        "8"
    } else {
        "9"
    }
}

/// The number `n` written in decimal.
pub open spec fn decimal(n: int) -> Seq<char>
    decreases n,
{
    if n < 10 {
        digit_of(n)@
    } else {
        decimal(n / 10) + digit_of(n % 10)@
    }
}

/// The line that tells the player where the run stands: the score in a
/// run, an invitation to jump before it.
pub open spec fn hud_text(game: Game) -> Seq<char> {
    if game.started {
        "Score: "@ + decimal(game.points as int)
    } else {
        "JUMP TO START"@
    }
}

/// The digit `d` as text.
pub fn digit(d: u32) -> (text: &'static str)
    requires
        d < 10,
    ensures
        text == digit_of(d as int),
{
    if d == 0 {
        "0"
    } else if d == 1 {
        "1"
    } else if d == 2 {
        "2"
    } else if d == 3 {
        "3"
    } else if d == 4 {
        "4"
    } else if d == 5 {
        "5"
    } else if d == 6 {
        "6"
    } else if d == 7 {
        "7"
    } else if d == 8 {
        "8"
    } else {
        "9"
    }
}

/// Writes the number `n` in decimal at the end of the text.
pub fn append_decimal(text: &mut String, n: u32)
    ensures
        final(text)@ == old(text)@ + decimal(n as int),
    decreases n,
{
    if n >= 10 {
        append_decimal(text, n / 10);
    }
    text.append(digit(n % 10));
    assert(text@ =~= old(text)@ + decimal(n as int));
}

/// The line of text on the screen while the first theme loads. Putting it
/// up asks for that theme.
pub fn init_hud(world: &mut World, rng: &mut StdRng) -> (text: String)
    ensures
        text@ == "Loading..."@,
        old(world)@.theme_change is Some ==> final(world)@ == old(world)@,
        old(world)@.theme_change is None ==> exists|id: ThemeId|
            may_change_to(old(world)@, id) && final(world)@ == #[trigger] theme_requested(
                old(world)@,
                id,
            ),
{
    let _picked = change_theme(ChangeThemeRandom, world, rng);
    String::from_str("Loading...")
}

/// The line that tells the player where the run stands.
pub fn update_hud(game: &Game) -> (text: String)
    ensures
        text@ == hud_text(*game),
{
    if game.started {
        let mut text = String::from_str("Score: ");
        append_decimal(&mut text, game.points);
        text
    } else {
        String::from_str("JUMP TO START")
    }
}

} // verus!
