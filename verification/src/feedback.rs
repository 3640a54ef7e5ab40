use vstd::prelude::*;

use crate::progression::LevelUp;
use crate::tile::{origin, TileCoord, TileKind};
use crate::world::{kind_with, HexEntity, TileClicked, TileDeselected, TilePlaced, TileSelected, TileWorld};

verus! {

broadcast use vstd::seq_lib::group_seq_properties;

/// A sound effect that the game asks for.
#[derive(Debug, Clone, Copy, PartialEq, Eq, Structural)]
pub enum SfxCue {
    /// A tile of the given kind was clicked.
    TileClick(TileKind),
    /// The selection moved.
    Selection,
    /// A tile was placed.
    Placement,
    /// The player reached a new level.
    LevelUp,
}

/// The name of the audio player that a cue spawns.
pub open spec fn sfx_name(cue: SfxCue) -> Seq<char> {
    match cue {
        SfxCue::TileClick(TileKind::Empty) => "Sfx_ClickEmpty"@,
        SfxCue::TileClick(TileKind::Tree) => "Sfx_ClickTree"@,
        SfxCue::TileClick(TileKind::Stone) => "Sfx_ClickStone"@,
        SfxCue::TileClick(TileKind::Wheat) => "Sfx_ClickWheat"@,
        SfxCue::Selection => "Sfx_Selection"@,
        SfxCue::Placement => "Sfx_Placement"@,
        SfxCue::LevelUp => "Sfx_LevelUp"@,
    }
}

impl SfxCue {
    /// The name of the audio player that this cue spawns.
    pub fn player_name(self) -> (name: &'static str)
        ensures
            name@ == sfx_name(self),
    {
        match self {
            SfxCue::TileClick(TileKind::Empty) => "Sfx_ClickEmpty",
            SfxCue::TileClick(TileKind::Tree) => "Sfx_ClickTree",
            SfxCue::TileClick(TileKind::Stone) => "Sfx_ClickStone",
            SfxCue::TileClick(TileKind::Wheat) => "Sfx_ClickWheat",
            SfxCue::Selection => "Sfx_Selection",
            SfxCue::Placement => "Sfx_Placement",
            SfxCue::LevelUp => "Sfx_LevelUp",
        }
    }
}

/// The cues that spawn a player: all of them while sound is enabled, none otherwise.
pub open spec fn played(cues: Seq<SfxCue>, enabled: bool) -> Seq<SfxCue> {
    if enabled {
        cues
    } else {
        Seq::empty()
    }
}

/// The names of the audio players that a frame's cues spawn, one per cue and in their order;
/// while sound is disabled the cues are consumed and nothing plays.
pub fn play_sfx(cues: &Vec<SfxCue>, enabled: bool) -> (players: Vec<&'static str>)
    ensures
        players@.len() == played(cues@, enabled).len(),
        forall|i: int| 0 <= i < players@.len() ==> #[trigger] players@[i]@ == sfx_name(played(cues@, enabled)[i]),
{
    let mut players: Vec<&'static str> = Vec::new();
    if !enabled {
        return players;
    }
    let mut i: usize = 0;
    while i < cues.len()
        invariant
            enabled,
            i <= cues@.len(),
            players@.len() == i,
            forall|j: int| 0 <= j < i ==> #[trigger] players@[j]@ == sfx_name(cues@[j]),
        decreases cues@.len() - i,
    {
        players.push(cues[i].player_name());
        i = i + 1;
    }
    players
}

/// The cues of a frame's tile clicks: one for each click on an entity that is a tile, with
/// that tile's kind, in the order of the clicks.
pub open spec fn click_cues(s: Seq<HexEntity>, clicks: Seq<TileClicked>) -> Seq<SfxCue>
    decreases clicks.len(),
{
    if clicks.len() == 0 {
        Seq::empty()
    } else {
        let earlier = click_cues(s, clicks.drop_last());
        match kind_with(s, clicks.last().entity) {
            Some(kind) => earlier.push(SfxCue::TileClick(kind)),
            None => earlier,
        }
    }
}

/// Asks for the click sound of each clicked tile's kind.
pub fn request_click_sfx(world: &TileWorld, clicks: &Vec<TileClicked>) -> (cues: Vec<SfxCue>)
    ensures
        cues@ == click_cues(world@.0, clicks@),
{
    let mut cues: Vec<SfxCue> = Vec::new();
    let mut i: usize = 0;
    while i < clicks.len()
        invariant
            i <= clicks@.len(),
            cues@ == click_cues(world@.0, clicks@.take(i as int)),
        decreases clicks@.len() - i,
    {
        assert(clicks@.take(i + 1).drop_last() =~= clicks@.take(i as int));
        if let Some(kind) = world.kind_of(clicks[i].entity) {
            cues.push(SfxCue::TileClick(kind));
        }
        i = i + 1;
    }
    assert(clicks@.take(clicks@.len() as int) =~= clicks@);
    cues
}

/// Asks for one selection sound when the selection moved in this frame, however often.
pub fn request_selection_sfx(selected: &Vec<TileSelected>, deselected: &Vec<TileDeselected>) -> (cue: Option<SfxCue>)
    ensures
        cue == (if selected@.len() > 0 || deselected@.len() > 0 {
            Some(SfxCue::Selection)
        } else {
            None
        }),
{
    if selected.len() > 0 || deselected.len() > 0 {
        Some(SfxCue::Selection)
    } else {
        None
    }
}

/// A sequence that repeats one cue.
pub open spec fn repeated(cue: SfxCue, n: nat) -> Seq<SfxCue> {
    Seq::new(n, |i: int| cue)
}

fn repeat_cue(cue: SfxCue, n: usize) -> (cues: Vec<SfxCue>)
    ensures
        cues@ == repeated(cue, n as nat),
{
    let mut cues: Vec<SfxCue> = Vec::new();
    let mut i: usize = 0;
    while i < n
        invariant
            i <= n,
            cues@ == repeated(cue, i as nat),
        decreases n - i,
    {
        cues.push(cue);
        i = i + 1;
        assert(cues@ =~= repeated(cue, i as nat));
    }
    cues
}

/// Asks for one placement sound per placed tile.
pub fn request_placement_sfx(placed: &Vec<TilePlaced>) -> (cues: Vec<SfxCue>)
    ensures
        cues@ == repeated(SfxCue::Placement, placed@.len()),
{
    repeat_cue(SfxCue::Placement, placed.len())
}

/// Asks for one level-up sound per level gained.
pub fn request_level_up_sfx(level_ups: &Vec<LevelUp>) -> (cues: Vec<SfxCue>)
    ensures
        cues@ == repeated(SfxCue::LevelUp, level_ups@.len()),
{
    repeat_cue(SfxCue::LevelUp, level_ups.len())
}

/// Whether particle effects are shown.
pub struct ParticleSettings {
    pub enabled: bool,
}

impl Default for ParticleSettings {
    fn default() -> (settings: ParticleSettings)
        ensures
            settings.enabled,
    {
        ParticleSettings { enabled: true }
    }
}

/// The colours of a click burst.
#[derive(Debug, Clone, Copy, PartialEq, Eq, Structural)]
pub enum ParticlePalette {
    Grass,
    Leaves,
    Stone,
    Wheat,
}

/// What a particle burst shows.
#[derive(Debug, Clone, Copy, PartialEq, Eq, Structural)]
pub enum ParticleBurstKind {
    /// Particles in the colours of the clicked tile.
    TileClick(ParticlePalette),
    /// The ring and rising sparks of a placed tile.
    TileSpawn,
}

/// A request for a particle burst over a hexagon; its position in the scene is the
/// hexagon's centre, or the pointer where the pointer is over that hexagon.
#[derive(Debug, Clone, Copy, PartialEq, Eq, Structural)]
pub struct ParticleBurst {
    pub kind: ParticleBurstKind,
    pub coord: TileCoord,
}

/// The palette of a tile kind: grass for an empty tile, leaves for a tree, stone, and wheat.
pub open spec fn palette_of(kind: TileKind) -> ParticlePalette {
    match kind {
        TileKind::Empty => ParticlePalette::Grass,
        TileKind::Tree => ParticlePalette::Leaves,
        TileKind::Stone => ParticlePalette::Stone,
        TileKind::Wheat => ParticlePalette::Wheat,
    }
}

/// The palette of a tile kind.
pub fn palette(kind: TileKind) -> (p: ParticlePalette)
    ensures
        p == palette_of(kind),
{
    match kind {
        TileKind::Empty => ParticlePalette::Grass,
        TileKind::Tree => ParticlePalette::Leaves,
        TileKind::Stone => ParticlePalette::Stone,
        TileKind::Wheat => ParticlePalette::Wheat,
    }
}

/// The bursts of a frame's tile clicks: one for each click on a tile, in its kind's palette.
pub open spec fn click_bursts(s: Seq<HexEntity>, clicks: Seq<TileClicked>) -> Seq<ParticleBurst>
    decreases clicks.len(),
{
    if clicks.len() == 0 {
        Seq::empty()
    } else {
        let earlier = click_bursts(s, clicks.drop_last());
        match kind_with(s, clicks.last().entity) {
            Some(kind) => earlier.push(
                ParticleBurst {
                    kind: ParticleBurstKind::TileClick(palette_of(kind)),
                    coord: clicks.last().coord,
                },
            ),
            None => earlier,
        }
    }
}

/// Asks for a click burst over each clicked tile.
pub fn request_click_particles(world: &TileWorld, clicks: &Vec<TileClicked>) -> (bursts: Vec<ParticleBurst>)
    ensures
        bursts@ == click_bursts(world@.0, clicks@),
{
    let mut bursts: Vec<ParticleBurst> = Vec::new();
    let mut i: usize = 0;
    while i < clicks.len()
        invariant
            i <= clicks@.len(),
            bursts@ == click_bursts(world@.0, clicks@.take(i as int)),
        decreases clicks@.len() - i,
    {
        assert(clicks@.take(i + 1).drop_last() =~= clicks@.take(i as int));
        let click = clicks[i];
        if let Some(kind) = world.kind_of(click.entity) {
            bursts.push(ParticleBurst { kind: ParticleBurstKind::TileClick(palette(kind)), coord: click.coord });
        }
        i = i + 1;
    }
    assert(clicks@.take(clicks@.len() as int) =~= clicks@);
    bursts
}

/// Asks for a spawn burst over each placed tile, in the order of placement.
pub fn request_spawn_particles(placed: &Vec<TilePlaced>) -> (bursts: Vec<ParticleBurst>)
    ensures
        bursts@.len() == placed@.len(),
        forall|i: int| 0 <= i < placed@.len() ==> #[trigger] bursts@[i] == (ParticleBurst {
            kind: ParticleBurstKind::TileSpawn,
            coord: placed@[i].coord,
        }),
{
    let mut bursts: Vec<ParticleBurst> = Vec::new();
    let mut i: usize = 0;
    while i < placed.len()
        invariant
            i <= placed@.len(),
            bursts@.len() == i,
            forall|j: int| 0 <= j < i ==> #[trigger] bursts@[j] == (ParticleBurst {
                kind: ParticleBurstKind::TileSpawn,
                coord: placed@[j].coord,
            }),
        decreases placed@.len() - i,
    {
        bursts.push(ParticleBurst { kind: ParticleBurstKind::TileSpawn, coord: placed[i].coord });
        i = i + 1;
    }
    bursts
}

/// A particle effect of the game.
#[derive(Debug, Clone, Copy, PartialEq, Eq, Structural)]
pub enum ParticleEffectKind {
    GrassClick,
    LeavesClick,
    StoneClick,
    WheatClick,
    TileSpawnRing,
    TileSpawnRise,
}

/// The click effect of a palette.
pub open spec fn click_effect_of(p: ParticlePalette) -> ParticleEffectKind {
    match p {
        ParticlePalette::Grass => ParticleEffectKind::GrassClick,
        ParticlePalette::Leaves => ParticleEffectKind::LeavesClick,
        ParticlePalette::Stone => ParticleEffectKind::StoneClick,
        ParticlePalette::Wheat => ParticleEffectKind::WheatClick,
    }
}

/// The name of the entity that shows an effect.
pub open spec fn effect_entity_name(e: ParticleEffectKind) -> Seq<char> {
    match e {
        ParticleEffectKind::TileSpawnRing => "Particles_TileSpawnRing"@,
        ParticleEffectKind::TileSpawnRise => "Particles_TileSpawnRise"@,
        _ => "Particles_TileClick"@,
    }
}

/// How long an effect's entity lives, in milliseconds.
pub open spec fn effect_lifetime_ms(e: ParticleEffectKind) -> u32 {
    match e {
        ParticleEffectKind::TileSpawnRing => 700,
        ParticleEffectKind::TileSpawnRise => 900,
        _ => 650,
    }
}

/// The click effect of a palette.
pub fn click_effect(p: ParticlePalette) -> (e: ParticleEffectKind)
    ensures
        e == click_effect_of(p),
{
    match p {
        ParticlePalette::Grass => ParticleEffectKind::GrassClick,
        ParticlePalette::Leaves => ParticleEffectKind::LeavesClick,
        ParticlePalette::Stone => ParticleEffectKind::StoneClick,
        ParticlePalette::Wheat => ParticleEffectKind::WheatClick,
    }
}

impl ParticleEffectKind {
    /// The name of the entity that shows this effect.
    pub fn entity_name(self) -> (name: &'static str)
        ensures
            name@ == effect_entity_name(self),
    {
        match self {
            ParticleEffectKind::TileSpawnRing => "Particles_TileSpawnRing",
            ParticleEffectKind::TileSpawnRise => "Particles_TileSpawnRise",
            _ => "Particles_TileClick",
        }
    }

    /// How long this effect's entity lives, in milliseconds.
    pub fn lifetime_ms(self) -> (ms: u32)
        ensures
            ms == effect_lifetime_ms(self),
    {
        match self {
            ParticleEffectKind::TileSpawnRing => 700,
            ParticleEffectKind::TileSpawnRise => 900,
            _ => 650,
        }
    }
}

/// One particle effect to spawn over a hexagon.
#[derive(Debug, Clone, Copy, PartialEq, Eq, Structural)]
pub struct EffectSpawn {
    pub effect: ParticleEffectKind,
    pub coord: TileCoord,
}

/// The effects of one burst: the palette's click effect, or the spawn ring then the rising sparks.
pub open spec fn burst_effects(b: ParticleBurst) -> Seq<EffectSpawn> {
    match b.kind {
        ParticleBurstKind::TileClick(p) => seq![EffectSpawn { effect: click_effect_of(p), coord: b.coord }],
        ParticleBurstKind::TileSpawn => seq![
            EffectSpawn { effect: ParticleEffectKind::TileSpawnRing, coord: b.coord },
            EffectSpawn { effect: ParticleEffectKind::TileSpawnRise, coord: b.coord },
        ],
    }
}

/// The effects of a frame's bursts, in their order.
pub open spec fn bursts_effects(bursts: Seq<ParticleBurst>) -> Seq<EffectSpawn>
    decreases bursts.len(),
{
    if bursts.len() == 0 {
        Seq::empty()
    } else {
        bursts_effects(bursts.drop_last()) + burst_effects(bursts.last())
    }
}

/// The effects that a frame's bursts spawn; while particles are disabled the bursts are
/// consumed and nothing spawns.
pub fn spawn_bursts(bursts: &Vec<ParticleBurst>, settings: &ParticleSettings) -> (effects: Vec<EffectSpawn>)
    ensures
        effects@ == (if settings.enabled { bursts_effects(bursts@) } else { Seq::empty() }),
{
    let mut effects: Vec<EffectSpawn> = Vec::new();
    if !settings.enabled {
        return effects;
    }
    let mut i: usize = 0;
    while i < bursts.len()
        invariant
            i <= bursts@.len(),
            effects@ == bursts_effects(bursts@.take(i as int)),
        decreases bursts@.len() - i,
    {
        assert(bursts@.take(i + 1).drop_last() =~= bursts@.take(i as int));
        let b = bursts[i];
        match b.kind {
            ParticleBurstKind::TileClick(p) => {
                effects.push(EffectSpawn { effect: click_effect(p), coord: b.coord });
            },
            ParticleBurstKind::TileSpawn => {
                effects.push(EffectSpawn { effect: ParticleEffectKind::TileSpawnRing, coord: b.coord });
                effects.push(EffectSpawn { effect: ParticleEffectKind::TileSpawnRise, coord: b.coord });
            },
        }
        i = i + 1;
    }
    assert(bursts@.take(bursts@.len() as int) =~= bursts@);
    effects
}

/// The models that make up a rendered tile: the hexagon base, then the decoration of its kind.
pub open spec fn tile_mesh_names(kind: TileKind) -> Seq<Seq<char>> {
    match kind {
        TileKind::Empty => seq!["HexTileMesh"@],
        TileKind::Tree => seq!["HexTileMesh"@, "HexTreeMesh"@],
        TileKind::Stone => seq!["HexTileMesh"@, "HexStoneMesh"@],
        TileKind::Wheat => seq!["HexTileMesh"@, "HexDirtMesh"@, "HexWheatMesh"@],
    }
}

/// The names of the models that a rendered tile of this kind spawns, in spawn order.
pub fn tile_meshes(kind: TileKind) -> (names: Vec<&'static str>)
    ensures
        names@.len() == tile_mesh_names(kind).len(),
        forall|i: int| 0 <= i < names@.len() ==> #[trigger] names@[i]@ == tile_mesh_names(kind)[i],
{
    let mut names: Vec<&'static str> = Vec::new();
    names.push("HexTileMesh");
    match kind {
        TileKind::Empty => {},
        TileKind::Tree => names.push("HexTreeMesh"),
        TileKind::Stone => names.push("HexStoneMesh"),
        TileKind::Wheat => {
            names.push("HexDirtMesh");
            names.push("HexWheatMesh");
        },
    }
    names
}

/// How deep a ghost's column reaches below the ground.
#[derive(Debug, Clone, Copy, PartialEq, Eq, Structural)]
pub enum GhostDepth {
    /// Half a hexagon deep.
    Shallow,
    /// A full hexagon deep.
    Full,
}

/// The depth of a ghost's column: shallow at the centre of the world, full elsewhere.
pub fn ghost_depth(coord: TileCoord) -> (depth: GhostDepth)
    ensures
        (depth == GhostDepth::Shallow) == (coord == origin()),
{
    if coord.q == 0 && coord.r == 0 {
        GhostDepth::Shallow
    } else {
        GhostDepth::Full
    }
}

/// Whether the debug tools are shown.
pub struct DebugUi {
    pub visible: bool,
}

impl Default for DebugUi {
    fn default() -> (ui: DebugUi)
        ensures
            !ui.visible,
    {
        DebugUi { visible: false }
    }
}

/// F11 flips the debug tools and shows the frame-rate overlay exactly while they are shown;
/// without the key nothing changes.
pub fn toggle_debug_ui(f11_pressed: bool, state: &mut DebugUi, overlay_enabled: &mut bool)
    ensures
        final(state).visible == (old(state).visible != f11_pressed),
        *final(overlay_enabled) == (if f11_pressed { final(state).visible } else { *old(overlay_enabled) }),
{
    if f11_pressed {
        state.visible = !state.visible;
        *overlay_enabled = state.visible;
    }
}

/// Whether the hexagon axes are drawn.
pub struct ShowAxes(pub bool);

/// F12 flips the axes and shows the performance text exactly while they are drawn; without the
/// key nothing changes.
pub fn toggle(f12_pressed: bool, show_axes: &mut ShowAxes, perf_visible: &mut bool)
    ensures
        final(show_axes).0 == (old(show_axes).0 != f12_pressed),
        *final(perf_visible) == (if f12_pressed { final(show_axes).0 } else { *old(perf_visible) }),
{
    if f12_pressed {
        show_axes.0 = !show_axes.0;
        *perf_visible = show_axes.0;
    }
}

} // verus!
