//! Themes: the catalog, and the loader that swaps the current theme for
//! another one only when every asset of the other has loaded.

use vstd::prelude::*;
use rand::rngs::StdRng;
use crate::random::pick_one;
use crate::scan::lemma_filter_next;
use crate::skybox::SkyboxCustomMaterial;
use crate::world::{AppState, World, WorldModel};

verus! {

/// Chance, in thousandths, that laying a platform asks for a change of
/// theme.
pub const THEME_CHANGE_CHANCE: u32 = 10;

/// Microseconds by which the first skybox is dated ahead, so that it shows
/// with its fade already over.
pub const FADE_LEAD: u64 = 30_000_000;

/// Name of a theme of the catalog.
#[derive(Clone, Copy, Debug, PartialEq, Eq, Structural)]
pub enum ThemeId {
    Heaven,
    Space,
}

/// An entry of the catalog: a skybox and the models of its platforms, each
/// named by the path of its asset.
#[derive(Debug, PartialEq, Eq)]
pub struct Theme {
    pub id: ThemeId,
    pub skybox: &'static str,
    pub platforms: Vec<&'static str>,
}

/// What the asset loader reports of one asset.
#[derive(Clone, Copy, Debug, PartialEq, Eq, Structural)]
pub enum LoadState {
    Pending,
    Loaded,
    Failed,
}

/// A theme whose assets have been asked for.
#[derive(Clone, Copy, Debug, PartialEq, Eq, Structural)]
pub struct ThemeLoad {
    pub id: ThemeId,
}

/// Request for a change to a theme chosen at random.
#[derive(Clone, Copy, Debug)]
pub struct ChangeThemeRandom;

/// The theme on show: every one of its assets has loaded.
#[derive(Clone, Copy, Debug, PartialEq, Eq, Structural)]
pub struct ThemeCurrent {
    pub theme: ThemeLoad,
}

/// The theme that is loading. There is at most one.
#[derive(Clone, Copy, Debug, PartialEq, Eq, Structural)]
pub struct ThemeChange {
    pub theme: ThemeLoad,
}

/// The themes of the catalog, in its order.
pub open spec fn catalog_ids() -> Seq<ThemeId> {
    seq![ThemeId::Heaven, ThemeId::Space]
}

/// Asset of a theme's skybox.
pub open spec fn skybox_of(id: ThemeId) -> &'static str {
    match id {
        ThemeId::Heaven => "green_explosion.ktx2",
        ThemeId::Space => "nebula_dark.ktx2",
    }
}

/// Assets of a theme's platform models.
pub open spec fn platforms_of(id: ThemeId) -> Seq<&'static str> {
    match id {
        ThemeId::Heaven => seq![
            "ground1.glb",
            "ground2.glb",
            "ground1_top1.glb",
            "ground2_top2.glb",
            "sand.glb",
            "sand_top2.glb",
            "rock.glb",
            "rock_top1.glb",
            "rock_top2.glb",
        ],
        ThemeId::Space => seq![
            "asteroid1.glb",
            "asteroid2.glb",
            "asteroid3.glb",
            "asteroid4.glb",
            "asteroid5.glb",
        ],
    }
}

/// Every theme has at least one platform model.
pub proof fn lemma_theme_has_platforms(id: ThemeId)
    ensures
        platforms_of(id).len() > 0,
{
}

impl ThemeId {
    /// The theme's name.
    pub fn name(&self) -> (s: &'static str)
        ensures
            s == match *self {
                ThemeId::Heaven => "heaven",
                ThemeId::Space => "space",
            },
    {
        match self {
            ThemeId::Heaven => "heaven",
            ThemeId::Space => "space",
        }
    }
}

impl ThemeLoad {
    /// Asset of the theme's skybox.
    pub fn skybox(&self) -> (s: &'static str)
        ensures
            s == skybox_of(self.id),
    {
        match self.id {
            ThemeId::Heaven => "green_explosion.ktx2",
            ThemeId::Space => "nebula_dark.ktx2",
        }
    }

    /// Assets of the theme's platform models.
    pub fn platforms(&self) -> (models: Vec<&'static str>)
        ensures
            models@ == platforms_of(self.id),
            models@.len() > 0,
    {
        let mut models: Vec<&'static str> = Vec::new();
        match self.id {
            ThemeId::Heaven => {
                models.push("ground1.glb");
                models.push("ground2.glb");
                models.push("ground1_top1.glb");
                models.push("ground2_top2.glb");
                models.push("sand.glb");
                models.push("sand_top2.glb");
                models.push("rock.glb");
                models.push("rock_top1.glb");
                models.push("rock_top2.glb");
            },
            ThemeId::Space => {
                models.push("asteroid1.glb");
                models.push("asteroid2.glb");
                models.push("asteroid3.glb");
                models.push("asteroid4.glb");
                models.push("asteroid5.glb");
            },
        }
        assert(models@ =~= platforms_of(self.id));
        models
    }
}

/// The catalog of themes.
pub fn themes() -> (catalog: Vec<Theme>)
    ensures
        catalog@.len() == catalog_ids().len(),
        forall|i: int|
            0 <= i < catalog@.len() ==> {
                &&& (#[trigger] catalog@[i]).id == catalog_ids()[i]
                &&& catalog@[i].skybox == skybox_of(catalog_ids()[i])
                &&& catalog@[i].platforms@ == platforms_of(catalog_ids()[i])
            },
{
    let heaven = ThemeLoad { id: ThemeId::Heaven };
    let space = ThemeLoad { id: ThemeId::Space };
    let mut catalog: Vec<Theme> = Vec::new();
    catalog.push(Theme { id: heaven.id, skybox: heaven.skybox(), platforms: heaven.platforms() });
    catalog.push(Theme { id: space.id, skybox: space.skybox(), platforms: space.platforms() });
    catalog
}

/// Whether the theme `id` is another than the one on show.
pub open spec fn off_show(current: Option<ThemeCurrent>, id: ThemeId) -> bool {
    current matches Some(shown) ==> shown.theme.id != id
}

/// Whether a change to the theme `id` can begin: no theme is loading, and
/// `id` is not the theme on show.
pub open spec fn may_change_to(world: WorldModel, id: ThemeId) -> bool {
    world.theme_change is None && off_show(world.theme_current, id)
}

/// The world after a request for the theme `id`: the theme is loading where
/// the change can begin, and nothing has changed where it cannot.
pub open spec fn theme_requested(world: WorldModel, id: ThemeId) -> WorldModel {
    if may_change_to(world, id) {
        WorldModel { theme_change: Some(ThemeChange { theme: ThemeLoad { id } }), ..world }
    } else {
        world
    }
}

/// Whether every asset of the theme `id` has loaded: the skybox, and one
/// report for each platform model, all of them `Loaded`.
pub open spec fn fully_loaded(id: ThemeId, skybox: LoadState, platforms: Seq<LoadState>) -> bool {
    &&& skybox == LoadState::Loaded
    &&& platforms.len() == platforms_of(id).len()
    &&& forall|i: int| 0 <= i < platforms.len() ==> platforms[i] == LoadState::Loaded
}

/// Whether the loading of some asset has failed.
pub open spec fn load_failed(skybox: LoadState, platforms: Seq<LoadState>) -> bool {
    skybox == LoadState::Failed || platforms.contains(LoadState::Failed)
}

/// The world after the loader has looked at the reports on the assets of
/// the theme that is loading.
///
/// With every asset loaded the theme goes on show and play is on. With
/// some asset failed the attempt is dropped and the theme on show stays.
/// Else, and where no theme is loading, nothing changes.
pub open spec fn theme_applied(
    world: WorldModel,
    skybox: LoadState,
    platforms: Seq<LoadState>,
) -> WorldModel {
    match world.theme_change {
        None => world,
        Some(change) => if fully_loaded(change.theme.id, skybox, platforms) {
            WorldModel {
                state: AppState::Game,
                theme_current: Some(ThemeCurrent { theme: change.theme }),
                theme_change: None,
                ..world
            }
        } else if load_failed(skybox, platforms) {
            WorldModel { theme_change: None, ..world }
        } else {
            world
        },
    }
}

/// The skybox that fades in a theme at the time `elapsed`, in microseconds:
/// from the skybox on show to the new one, or, with none on show, the new
/// one as it will look once the fade is over.
pub open spec fn fade_in(
    current: Option<ThemeCurrent>,
    change: ThemeChange,
    elapsed: u64,
) -> SkyboxCustomMaterial {
    match current {
        Some(current) => SkyboxCustomMaterial {
            time_t0: elapsed,
            sky_texture1: skybox_of(change.theme.id),
            sky_texture2: skybox_of(current.theme.id),
        },
        None => SkyboxCustomMaterial {
            time_t0: if elapsed + FADE_LEAD > u64::MAX {
                u64::MAX
            } else {
                (elapsed + FADE_LEAD) as u64
            },
            sky_texture1: skybox_of(change.theme.id),
            sky_texture2: skybox_of(change.theme.id),
        },
    }
}

/// The theme on show has loaded in full: it went on show only when every
/// report on its assets said `Loaded`, and a failed or unfinished load
/// leaves the theme on show as it was.
pub proof fn lemma_only_loaded_themes_show(
    world: WorldModel,
    skybox: LoadState,
    platforms: Seq<LoadState>,
)
    ensures
        theme_applied(world, skybox, platforms).theme_current != world.theme_current ==> {
            &&& world.theme_change matches Some(change)
            &&& fully_loaded(change.theme.id, skybox, platforms)
            &&& theme_applied(world, skybox, platforms).theme_current == Some(
                ThemeCurrent { theme: change.theme },
            )
        },
        !(world.theme_change matches Some(change) && fully_loaded(
            change.theme.id,
            skybox,
            platforms,
        )) ==> theme_applied(world, skybox, platforms).theme_current == world.theme_current,
{
}

/// Asks for the theme `id`. The change begins where no theme is loading and
/// `id` is not on show; else the request is dropped.
pub fn request_theme(world: &mut World, id: ThemeId) -> (accepted: bool)
    ensures
        accepted == may_change_to(old(world)@, id),
        final(world)@ == theme_requested(old(world)@, id),
{
    let on_show = match world.theme_current {
        Some(current) => current.theme.id == id,
        None => false,
    };
    if world.theme_change.is_none() && !on_show {
        world.theme_change = Some(ThemeChange { theme: ThemeLoad { id } });
        true
    } else {
        false
    }
}

/// The condition that a theme is another than the one on show.
pub open spec fn is_off_show(current: Option<ThemeCurrent>) -> spec_fn(ThemeId) -> bool {
    |id: ThemeId| off_show(current, id)
}

/// The themes of the catalog that are not on show, in the order of the
/// catalog.
pub fn themes_off_show(current: &Option<ThemeCurrent>) -> (others: Vec<ThemeId>)
    ensures
        others@ == catalog_ids().filter(is_off_show(*current)),
        others@.len() > 0,
        forall|k: int| 0 <= k < others@.len() ==> off_show(*current, #[trigger] others@[k]),
        forall|id: ThemeId| off_show(*current, id) ==> others@.contains(id),
{
    let catalog = themes();
    let mut others: Vec<ThemeId> = Vec::new();
    let mut i: usize = 0;
    while i < catalog.len()
        invariant
            i <= catalog@.len(),
            catalog@.len() == catalog_ids().len(),
            forall|j: int| 0 <= j < catalog@.len() ==> (#[trigger] catalog@[j]).id == catalog_ids()[j],
            others@ == catalog_ids().take(i as int).filter(is_off_show(*current)),
            forall|k: int| 0 <= k < others@.len() ==> off_show(*current, #[trigger] others@[k]),
            forall|j: int|
                0 <= j < i && off_show(*current, catalog_ids()[j]) ==> others@.contains(
                    #[trigger] catalog_ids()[j],
                ),
        decreases catalog@.len() - i,
    {
        let id = catalog[i].id;
        proof {
            lemma_filter_next(catalog_ids(), is_off_show(*current), i as int);
        }
        let on_show = match current {
            Some(c) => c.theme.id == id,
            None => false,
        };
        if !on_show {
            let ghost before = others@;
            others.push(id);
            assert(others@[before.len() as int] == id);
            assert forall|j: int|
                0 <= j < i && off_show(*current, catalog_ids()[j]) implies others@.contains(
                #[trigger] catalog_ids()[j],
            ) by {
                let k = choose|k: int| 0 <= k < before.len() && before[k] == catalog_ids()[j];
                assert(others@[k] == catalog_ids()[j]);
            }
        }
        i += 1;
    }
    proof {
        assert(catalog_ids().take(i as int) =~= catalog_ids());
        assert(catalog_ids()[0] == ThemeId::Heaven && catalog_ids()[1] == ThemeId::Space);
        assert forall|id: ThemeId| off_show(*current, id) implies others@.contains(id) by {
            match id {
                ThemeId::Heaven => {
                    assert(others@.contains(catalog_ids()[0]));
                },
                ThemeId::Space => {
                    assert(others@.contains(catalog_ids()[1]));
                },
            }
        }
        let other = match *current {
            Some(c) => match c.theme.id {
                ThemeId::Heaven => ThemeId::Space,
                ThemeId::Space => ThemeId::Heaven,
            },
            None => ThemeId::Heaven,
        };
        assert(others@.contains(other));
    }
    others
}

/// Begins a change to a theme chosen at random among the themes that are
/// not on show. While a theme is loading the request is dropped: nothing
/// changes and nothing is drawn.
pub fn change_theme(_trigger: ChangeThemeRandom, world: &mut World, rng: &mut StdRng) -> (picked:
    Option<ThemeId>)
    ensures
        picked is Some <==> old(world)@.theme_change is None,
        picked matches Some(id) ==> may_change_to(old(world)@, id) && final(world)@
            == theme_requested(old(world)@, id),
        picked is None ==> final(world)@ == old(world)@,
{
    if world.theme_change.is_some() {
        return None;
    }
    let others = themes_off_show(&world.theme_current);
    match pick_one(rng, &others) {
        Some(id) => {
            let accepted = request_theme(world, id);
            assert(accepted);
            Some(id)
        },
        None => None,
    }
}

/// Forced change of theme: where the key was pressed in this tick, a
/// change of theme is asked for.
pub fn force_theme_change(world: &mut World, pressed: bool, rng: &mut StdRng) -> (picked: Option<
    ThemeId,
>)
    ensures
        picked is Some <==> pressed && old(world)@.theme_change is None,
        picked matches Some(id) ==> may_change_to(old(world)@, id) && final(world)@
            == theme_requested(old(world)@, id),
        picked is None ==> final(world)@ == old(world)@,
{
    if pressed {
        change_theme(ChangeThemeRandom, world, rng)
    } else {
        None
    }
}

/// Whether every asset of the theme `id` has loaded.
pub fn is_fully_loaded(id: ThemeId, skybox: LoadState, platforms: &Vec<LoadState>) -> (b: bool)
    ensures
        b == fully_loaded(id, skybox, platforms@),
{
    let wanted = ThemeLoad { id }.platforms();
    if skybox != LoadState::Loaded || platforms.len() != wanted.len() {
        return false;
    }
    let mut i: usize = 0;
    while i < platforms.len()
        invariant
            i <= platforms@.len(),
            forall|j: int| 0 <= j < i ==> platforms@[j] == LoadState::Loaded,
        decreases platforms@.len() - i,
    {
        if platforms[i] != LoadState::Loaded {
            return false;
        }
        i += 1;
    }
    true
}

/// Whether the loading of some asset has failed.
pub fn has_load_failed(skybox: LoadState, platforms: &Vec<LoadState>) -> (b: bool)
    ensures
        b == load_failed(skybox, platforms@),
{
    if skybox == LoadState::Failed {
        return true;
    }
    let mut i: usize = 0;
    while i < platforms.len()
        invariant
            i <= platforms@.len(),
            forall|j: int| 0 <= j < i ==> platforms@[j] != LoadState::Failed,
        decreases platforms@.len() - i,
    {
        if platforms[i] == LoadState::Failed {
            return true;
        }
        i += 1;
    }
    false
}

/// The loader's part of a tick. `skybox` and `platforms` are what the asset
/// loader reports of the assets of the theme that is loading, the platform
/// models in the order of the catalog; `elapsed` is the time on the
/// renderer's clock, in microseconds.
///
/// The theme goes on show only with every asset loaded, and then all at
/// once: the skybox to fade in comes back. A failed asset drops the
/// attempt.
pub fn apply_loaded_theme(
    world: &mut World,
    elapsed: u64,
    skybox: LoadState,
    platforms: &Vec<LoadState>,
) -> (material: Option<SkyboxCustomMaterial>)
    ensures
        final(world)@ == theme_applied(old(world)@, skybox, platforms@),
        match material {
            Some(m) => old(world)@.theme_change matches Some(change) && fully_loaded(
                change.theme.id,
                skybox,
                platforms@,
            ) && m == fade_in(old(world)@.theme_current, change, elapsed),
            None => !(old(world)@.theme_change matches Some(change) && fully_loaded(
                change.theme.id,
                skybox,
                platforms@,
            )),
        },
{
    match world.theme_change {
        None => None,
        Some(change) => {
            if is_fully_loaded(change.theme.id, skybox, platforms) {
                let sky_texture1 = change.theme.skybox();
                let material = match world.theme_current {
                    Some(current) => SkyboxCustomMaterial::new(
                        elapsed,
                        sky_texture1,
                        current.theme.skybox(),
                    ),
                    None => SkyboxCustomMaterial::new(
                        elapsed.saturating_add(FADE_LEAD),
                        sky_texture1,
                        sky_texture1,
                    ),
                };
                world.theme_current = Some(ThemeCurrent { theme: change.theme });
                world.theme_change = None;
                world.state = AppState::Game;
                Some(material)
            } else {
                if has_load_failed(skybox, platforms) {
                    world.theme_change = None;
                }
                None
            }
        },
    }
}

} // verus!
