//! Spawning and removing things: the thing arena and its sector and
//! blockmap lists, map things at level start, players, puffs, blood and
//! missiles, the state machine a thing runs, and the respawning of items
//! and nightmare monsters.

use vstd::prelude::*;
use crate::fixed::{fixed_mul_spec, Fixed, FRACUNIT};
use crate::inter::{div_toward_zero, trunc_div, Player, PlayerState};
use crate::maputl::{aprox_distance, wrapping_abs};
use crate::mobj::{ActionFnId, VIEWHEIGHT};
use crate::random::DoomRandom;
use crate::types::{
    ActionFn, Angle, MapObject, SfxEnum, MF_AMBUSH, MF_COUNTITEM, MF_COUNTKILL, MF_DROPPED, MF_NOBLOCKMAP, MF_NOSECTOR,
    MF_NOTDMATCH, MF_SHADOW, MF_SKULLFLY, MF_SPAWNCEILING, MF_SPECIAL,
};

verus! {

/// A `z` asking for the thing to stand on the floor.
pub const ONFLOORZ: i32 = -2147483648;

/// A `z` asking for the thing to hang from the ceiling.
pub const ONCEILINGZ: i32 = 2147483647;

/// Slots of the item respawn queue (a power of two).
pub const ITEMQUESIZE: usize = 128;

/// Player slots.
pub const MAXPLAYERS: usize = 4;

/// Entries of the thing-info table.
pub const NUMMOBJTYPES: usize = 137;

/// Entries of the state table.
pub const NUMSTATES: usize = 967;

/// Thing types spawned here.
pub const MT_PLAYER: usize = 0;
pub const MT_PUFF: usize = 37;
pub const MT_BLOOD: usize = 38;
pub const MT_TFOG: usize = 39;
pub const MT_IFOG: usize = 40;
pub const MT_SKULL: usize = 18;
/// The invulnerability and invisibility spheres, which never respawn.
pub const MT_INV: usize = 56;
pub const MT_INS: usize = 58;

/// States of short puffs and small splats.
pub const S_BLOOD2: usize = 91;
pub const S_BLOOD3: usize = 92;
pub const S_PUFF3: usize = 95;

/// The null state: a thing entering it is removed.
pub const S_NULL: usize = 0;

/// Map-thing option bit: the thing waits in ambush.
pub const MTF_AMBUSH: i16 = 8;

/// Map-thing option bit: the thing appears only in net games.
pub const MTF_NOTSINGLE: i16 = 16;

/// The colour-translation bits of a thing's flags, and their shift.
pub const MF_TRANSLATION: u32 = 0xc000000;
pub const MF_TRANSSHIFT: u32 = 26;

/// An eighth of a turn.
pub const ANG45: u32 = 0x2000_0000;

/// Tics before a picked-up item comes back (30 seconds).
pub const ITEM_RESPAWN_TICS: i32 = 1050;

/// Tics a killed monster lies before it may respawn (12 seconds).
pub const MONSTER_RESPAWN_TICS: i32 = 420;

/// A thing placed in the map.
#[derive(Clone, Copy, Debug, PartialEq, Eq, Structural, Default)]
pub struct MapThing {
    pub x: i16,
    pub y: i16,
    pub angle: i16,
    pub type_: i16,
    pub options: i16,
}

/// An entry of the state table.
#[derive(Clone, Copy, Debug, PartialEq, Eq, Structural)]
pub struct State {
    pub sprite: i32,
    pub frame: i32,
    pub tics: i32,
    pub action: ActionFnId,
    pub nextstate: usize,
}

/// What spawning reads from a thing type's entry in the thing-info table.
#[derive(Clone, Copy, Debug, PartialEq, Eq, Structural)]
pub struct SpawnInfo {
    /// The map editor number of the type (`-1` for none).
    pub doomednum: i32,
    pub spawnstate: usize,
    pub spawnhealth: i32,
    pub seesound: SfxEnum,
    pub reactiontime: i32,
    pub speed: i32,
    pub radius: i32,
    pub height: i32,
    pub flags: u32,
}

/// The skill level.
#[derive(Clone, Copy, Debug, PartialEq, Eq, Structural)]
pub enum Skill {
    Baby,
    Easy,
    Medium,
    Hard,
    Nightmare,
}

/// The game settings spawning reads.
#[derive(Clone, Copy, Debug, PartialEq, Eq, Structural)]
pub struct GameSettings {
    pub skill: Skill,
    pub netgame: bool,
    pub deathmatch: i32,
    pub nomonsters: bool,
    pub respawnmonsters: bool,
    pub leveltime: i32,
    pub consoleplayer: usize,
}

/// A request the spawning code made of the engine, in the order made.
#[derive(Clone, Copy, Debug, PartialEq, Eq, Structural)]
pub enum SpawnEvent {
    AddThinker { mobj: usize },
    RemoveThinker { mobj: usize },
    Sound { origin: Option<usize>, sfx: SfxEnum },
    StopSound { origin: usize },
    StatusBarStart,
    HudStart,
    TotalKill,
    TotalItem,
    Aim { source: usize, angle: Angle, slope: Fixed, target: Option<usize> },
    CheckPosition { mobj: usize, x: Fixed, y: Fixed, fits: bool },
    TryMove { mobj: usize, x: Fixed, y: Fixed, moved: bool },
    Explode { mobj: usize },
    Action { mobj: usize, action: ActionFnId },
    Reborn { player: usize },
    SetupPsprites { player: usize },
    XYMovement { mobj: usize },
    ZMovement { mobj: usize },
}

/// The thing arena after slot `r` was handed out blank.
pub open spec fn allocated(ms: Seq<MapObject>, r: usize) -> Seq<MapObject> {
    if r == ms.len() { ms.push(blank_mobj()) } else { ms.update(r as int, blank_mobj()) }
}

/// A thing with every field zero or empty.
pub open spec fn blank_mobj() -> MapObject {
    MapObject {
        x: Fixed(0),
        y: Fixed(0),
        z: Fixed(0),
        snext: None,
        sprev: None,
        angle: Angle(0),
        sprite: 0,
        frame: 0,
        bnext: None,
        bprev: None,
        subsector: None,
        floorz: Fixed(0),
        ceilingz: Fixed(0),
        radius: Fixed(0),
        height: Fixed(0),
        momx: Fixed(0),
        momy: Fixed(0),
        momz: Fixed(0),
        validcount: 0,
        type_: 0,
        tics: 0,
        state: None,
        flags: 0,
        health: 0,
        movedir: 0,
        movecount: 0,
        target: None,
        reactiontime: 0,
        threshold: 0,
        player: None,
        lastlook: 0,
        tracer: None,
    }
}

/// The level and engine services spawning uses: the thing arena and the
/// sector and blockmap thing lists, the players and their starts, the item
/// respawn queue, the info and state tables, and engine services (sound,
/// thinkers, moves, aiming, state actions) recorded in order. The engine's
/// moves, explosions and state actions may change any thing or player but
/// never shrink the arena or reshape the level.
pub trait SpawnContext: Sized {
    spec fn mobjs_view(&self) -> Seq<MapObject>;
    /// Each sector's thing-list head.
    spec fn heads_view(&self) -> Seq<Option<usize>>;
    /// Each sector's floor and ceiling height.
    spec fn floors_view(&self) -> Seq<Fixed>;
    spec fn ceilings_view(&self) -> Seq<Fixed>;
    /// The sector of each subsector.
    spec fn subsectors_view(&self) -> Seq<usize>;
    /// `R_PointInSubsector`.
    spec fn subsector_at(&self, x: Fixed, y: Fixed) -> usize;
    /// Each blockmap cell's thing-list head, row by row.
    spec fn links_view(&self) -> Seq<Option<usize>>;
    spec fn orgx_view(&self) -> Fixed;
    spec fn orgy_view(&self) -> Fixed;
    spec fn width_view(&self) -> i32;
    spec fn height_view(&self) -> i32;
    spec fn players_view(&self) -> Seq<Player>;
    spec fn ingame_view(&self) -> Seq<bool>;
    spec fn game_view(&self) -> GameSettings;
    /// Each player's start, once seen.
    spec fn starts_view(&self) -> Seq<Option<MapThing>>;
    spec fn dm_starts_view(&self) -> Seq<MapThing>;
    /// The item respawn queue: the map thing of each removed item and the
    /// tic it was removed at.
    spec fn que_view(&self) -> Seq<(MapThing, i32)>;
    spec fn que_head_view(&self) -> usize;
    spec fn que_tail_view(&self) -> usize;
    /// Where each thing was placed in the map.
    spec fn spawnpoint_view(&self, i: usize) -> MapThing;
    /// The function each thing's thinker runs.
    spec fn thinker_view(&self, i: usize) -> ActionFn;
    spec fn info_view(&self, mobj_type: usize) -> SpawnInfo;
    spec fn state_view(&self, st: usize) -> State;
    spec fn sine_view(&self, i: usize) -> Fixed;
    /// `R_PointToAngle` of an offset.
    spec fn angle_view(&self, dx: Fixed, dy: Fixed) -> Angle;
    spec fn rng_view(&self) -> DoomRandom;
    spec fn requests(&self) -> Seq<SpawnEvent>;

    fn mobjs(&self) -> (r: &[MapObject])
        ensures
            r@ == self.mobjs_view(),
    ;

    fn players(&self) -> (r: &[Player])
        ensures
            r@ == self.players_view(),
    ;

    fn sector_head(&self, sec: usize) -> (r: Option<usize>)
        requires
            sec < self.heads_view().len(),
        ensures
            r == self.heads_view()[sec as int],
    ;

    fn sector_floor(&self, sec: usize) -> (r: Fixed)
        requires
            sec < self.floors_view().len(),
        ensures
            r == self.floors_view()[sec as int],
    ;

    fn sector_ceiling(&self, sec: usize) -> (r: Fixed)
        requires
            sec < self.ceilings_view().len(),
        ensures
            r == self.ceilings_view()[sec as int],
    ;

    fn subsector_sector(&self, ss: usize) -> (r: usize)
        requires
            ss < self.subsectors_view().len(),
        ensures
            r == self.subsectors_view()[ss as int],
    ;

    fn subsector_count(&self) -> (r: usize)
        ensures
            r == self.subsectors_view().len(),
    ;

    fn point_in_subsector(&self, x: Fixed, y: Fixed) -> (r: usize)
        ensures
            r == self.subsector_at(x, y),
    ;

    fn blocklink(&self, cell: usize) -> (r: Option<usize>)
        requires
            cell < self.links_view().len(),
        ensures
            r == self.links_view()[cell as int],
    ;

    fn bmap_orgx(&self) -> (r: Fixed)
        ensures
            r == self.orgx_view(),
    ;

    fn bmap_orgy(&self) -> (r: Fixed)
        ensures
            r == self.orgy_view(),
    ;

    fn bmap_width(&self) -> (r: i32)
        ensures
            r == self.width_view(),
    ;

    fn bmap_height(&self) -> (r: i32)
        ensures
            r == self.height_view(),
    ;

    fn in_game(&self, p: usize) -> (r: bool)
        requires
            p < self.ingame_view().len(),
        ensures
            r == self.ingame_view()[p as int],
    ;

    fn game(&self) -> (r: GameSettings)
        ensures
            r == self.game_view(),
    ;

    fn dm_start_count(&self) -> (r: usize)
        ensures
            r == self.dm_starts_view().len(),
    ;

    fn que_entry(&self, i: usize) -> (r: (MapThing, i32))
        requires
            i < self.que_view().len(),
        ensures
            r == self.que_view()[i as int],
    ;

    fn que_head(&self) -> (r: usize)
        ensures
            r == self.que_head_view(),
    ;

    fn que_tail(&self) -> (r: usize)
        ensures
            r == self.que_tail_view(),
    ;

    fn spawnpoint(&self, i: usize) -> (r: MapThing)
        ensures
            r == self.spawnpoint_view(i),
    ;

    fn thinker(&self, i: usize) -> (r: ActionFn)
        ensures
            r == self.thinker_view(i),
    ;

    fn thing_info(&self, mobj_type: usize) -> (r: SpawnInfo)
        ensures
            r == self.info_view(mobj_type),
    ;

    fn state(&self, st: usize) -> (r: State)
        ensures
            r == self.state_view(st),
    ;

    fn fine_sine(&self, i: usize) -> (r: Fixed)
        requires
            i < 10240,
        ensures
            r == self.sine_view(i),
    ;

    fn point_to_angle(&self, dx: Fixed, dy: Fixed) -> (r: Angle)
        ensures
            r == self.angle_view(dx, dy),
    ;

    /// A free thing slot, now blank: a new one at the end or a freed one.
    fn alloc_mobj(&mut self) -> (r: usize)
        ensures
            forall|t: usize| #[trigger] final(self).info_view(t) == old(self).info_view(t),
            forall|s: usize| #[trigger] final(self).state_view(s) == old(self).state_view(s),
            forall|x: Fixed, y: Fixed| #[trigger] final(self).subsector_at(x, y) == old(self).subsector_at(x, y),
            final(self).subsectors_view() == old(self).subsectors_view(),
            final(self).floors_view() == old(self).floors_view(),
            final(self).ceilings_view() == old(self).ceilings_view(),
            final(self).orgx_view() == old(self).orgx_view(),
            final(self).orgy_view() == old(self).orgy_view(),
            final(self).width_view() == old(self).width_view(),
            final(self).height_view() == old(self).height_view(),
            final(self).game_view() == old(self).game_view(),
            final(self).ingame_view() == old(self).ingame_view(),
            forall|i: usize| #[trigger] final(self).sine_view(i) == old(self).sine_view(i),
            forall|x: Fixed, y: Fixed| #[trigger] final(self).angle_view(x, y) == old(self).angle_view(x, y),
            r <= old(self).mobjs_view().len(),
            final(self).mobjs_view() == allocated(old(self).mobjs_view(), r),
            forall|i: usize| #[trigger] final(self).spawnpoint_view(i) == old(self).spawnpoint_view(i),
            forall|i: usize| i != r ==> #[trigger] final(self).thinker_view(i) == old(self).thinker_view(i),
            final(self).heads_view() == old(self).heads_view(),
            final(self).links_view() == old(self).links_view(),
            final(self).players_view() == old(self).players_view(),
            final(self).starts_view() == old(self).starts_view(),
            final(self).dm_starts_view() == old(self).dm_starts_view(),
            final(self).que_view() == old(self).que_view(),
            final(self).que_head_view() == old(self).que_head_view(),
            final(self).que_tail_view() == old(self).que_tail_view(),
            final(self).rng_view() == old(self).rng_view(),
            final(self).requests() == old(self).requests(),
    ;

    /// Replace thing `idx` by `m`.
    fn set_mobj(&mut self, idx: usize, m: MapObject)
        requires
            idx < old(self).mobjs_view().len(),
        ensures
            forall|t: usize| #[trigger] final(self).info_view(t) == old(self).info_view(t),
            forall|s: usize| #[trigger] final(self).state_view(s) == old(self).state_view(s),
            forall|x: Fixed, y: Fixed| #[trigger] final(self).subsector_at(x, y) == old(self).subsector_at(x, y),
            final(self).subsectors_view() == old(self).subsectors_view(),
            final(self).floors_view() == old(self).floors_view(),
            final(self).ceilings_view() == old(self).ceilings_view(),
            final(self).orgx_view() == old(self).orgx_view(),
            final(self).orgy_view() == old(self).orgy_view(),
            final(self).width_view() == old(self).width_view(),
            final(self).height_view() == old(self).height_view(),
            final(self).game_view() == old(self).game_view(),
            final(self).ingame_view() == old(self).ingame_view(),
            forall|i: usize| #[trigger] final(self).sine_view(i) == old(self).sine_view(i),
            forall|x: Fixed, y: Fixed| #[trigger] final(self).angle_view(x, y) == old(self).angle_view(x, y),
            final(self).mobjs_view() == old(self).mobjs_view().update(idx as int, m),
            forall|i: usize| #[trigger] final(self).spawnpoint_view(i) == old(self).spawnpoint_view(i),
            forall|i: usize| #[trigger] final(self).thinker_view(i) == old(self).thinker_view(i),
            final(self).heads_view() == old(self).heads_view(),
            final(self).links_view() == old(self).links_view(),
            final(self).players_view() == old(self).players_view(),
            final(self).starts_view() == old(self).starts_view(),
            final(self).dm_starts_view() == old(self).dm_starts_view(),
            final(self).que_view() == old(self).que_view(),
            final(self).que_head_view() == old(self).que_head_view(),
            final(self).que_tail_view() == old(self).que_tail_view(),
            final(self).rng_view() == old(self).rng_view(),
            final(self).requests() == old(self).requests(),
    ;

    /// Set the head of sector `sec`'s thing list.
    fn set_sector_head(&mut self, sec: usize, head: Option<usize>)
        requires
            sec < old(self).heads_view().len(),
        ensures
            forall|t: usize| #[trigger] final(self).info_view(t) == old(self).info_view(t),
            forall|s: usize| #[trigger] final(self).state_view(s) == old(self).state_view(s),
            forall|x: Fixed, y: Fixed| #[trigger] final(self).subsector_at(x, y) == old(self).subsector_at(x, y),
            final(self).subsectors_view() == old(self).subsectors_view(),
            final(self).floors_view() == old(self).floors_view(),
            final(self).ceilings_view() == old(self).ceilings_view(),
            final(self).orgx_view() == old(self).orgx_view(),
            final(self).orgy_view() == old(self).orgy_view(),
            final(self).width_view() == old(self).width_view(),
            final(self).height_view() == old(self).height_view(),
            final(self).game_view() == old(self).game_view(),
            final(self).ingame_view() == old(self).ingame_view(),
            forall|i: usize| #[trigger] final(self).sine_view(i) == old(self).sine_view(i),
            forall|x: Fixed, y: Fixed| #[trigger] final(self).angle_view(x, y) == old(self).angle_view(x, y),
            final(self).heads_view() == old(self).heads_view().update(sec as int, head),
            forall|i: usize| #[trigger] final(self).spawnpoint_view(i) == old(self).spawnpoint_view(i),
            forall|i: usize| #[trigger] final(self).thinker_view(i) == old(self).thinker_view(i),
            final(self).mobjs_view() == old(self).mobjs_view(),
            final(self).links_view() == old(self).links_view(),
            final(self).players_view() == old(self).players_view(),
            final(self).starts_view() == old(self).starts_view(),
            final(self).dm_starts_view() == old(self).dm_starts_view(),
            final(self).que_view() == old(self).que_view(),
            final(self).que_head_view() == old(self).que_head_view(),
            final(self).que_tail_view() == old(self).que_tail_view(),
            final(self).rng_view() == old(self).rng_view(),
            final(self).requests() == old(self).requests(),
    ;

    /// Set the head of blockmap cell `cell`'s thing list.
    fn set_blocklink(&mut self, cell: usize, head: Option<usize>)
        requires
            cell < old(self).links_view().len(),
        ensures
            forall|t: usize| #[trigger] final(self).info_view(t) == old(self).info_view(t),
            forall|s: usize| #[trigger] final(self).state_view(s) == old(self).state_view(s),
            forall|x: Fixed, y: Fixed| #[trigger] final(self).subsector_at(x, y) == old(self).subsector_at(x, y),
            final(self).subsectors_view() == old(self).subsectors_view(),
            final(self).floors_view() == old(self).floors_view(),
            final(self).ceilings_view() == old(self).ceilings_view(),
            final(self).orgx_view() == old(self).orgx_view(),
            final(self).orgy_view() == old(self).orgy_view(),
            final(self).width_view() == old(self).width_view(),
            final(self).height_view() == old(self).height_view(),
            final(self).game_view() == old(self).game_view(),
            final(self).ingame_view() == old(self).ingame_view(),
            forall|i: usize| #[trigger] final(self).sine_view(i) == old(self).sine_view(i),
            forall|x: Fixed, y: Fixed| #[trigger] final(self).angle_view(x, y) == old(self).angle_view(x, y),
            final(self).links_view() == old(self).links_view().update(cell as int, head),
            forall|i: usize| #[trigger] final(self).spawnpoint_view(i) == old(self).spawnpoint_view(i),
            forall|i: usize| #[trigger] final(self).thinker_view(i) == old(self).thinker_view(i),
            final(self).mobjs_view() == old(self).mobjs_view(),
            final(self).heads_view() == old(self).heads_view(),
            final(self).players_view() == old(self).players_view(),
            final(self).starts_view() == old(self).starts_view(),
            final(self).dm_starts_view() == old(self).dm_starts_view(),
            final(self).que_view() == old(self).que_view(),
            final(self).que_head_view() == old(self).que_head_view(),
            final(self).que_tail_view() == old(self).que_tail_view(),
            final(self).rng_view() == old(self).rng_view(),
            final(self).requests() == old(self).requests(),
    ;

    /// Replace player `idx` by `p`.
    fn set_player(&mut self, idx: usize, p: Player)
        requires
            idx < old(self).players_view().len(),
        ensures
            forall|t: usize| #[trigger] final(self).info_view(t) == old(self).info_view(t),
            forall|s: usize| #[trigger] final(self).state_view(s) == old(self).state_view(s),
            forall|x: Fixed, y: Fixed| #[trigger] final(self).subsector_at(x, y) == old(self).subsector_at(x, y),
            final(self).subsectors_view() == old(self).subsectors_view(),
            final(self).floors_view() == old(self).floors_view(),
            final(self).ceilings_view() == old(self).ceilings_view(),
            final(self).orgx_view() == old(self).orgx_view(),
            final(self).orgy_view() == old(self).orgy_view(),
            final(self).width_view() == old(self).width_view(),
            final(self).height_view() == old(self).height_view(),
            final(self).game_view() == old(self).game_view(),
            final(self).ingame_view() == old(self).ingame_view(),
            forall|i: usize| #[trigger] final(self).sine_view(i) == old(self).sine_view(i),
            forall|x: Fixed, y: Fixed| #[trigger] final(self).angle_view(x, y) == old(self).angle_view(x, y),
            final(self).players_view() == old(self).players_view().update(idx as int, p),
            forall|i: usize| #[trigger] final(self).spawnpoint_view(i) == old(self).spawnpoint_view(i),
            forall|i: usize| #[trigger] final(self).thinker_view(i) == old(self).thinker_view(i),
            final(self).mobjs_view() == old(self).mobjs_view(),
            final(self).heads_view() == old(self).heads_view(),
            final(self).links_view() == old(self).links_view(),
            final(self).starts_view() == old(self).starts_view(),
            final(self).dm_starts_view() == old(self).dm_starts_view(),
            final(self).que_view() == old(self).que_view(),
            final(self).que_head_view() == old(self).que_head_view(),
            final(self).que_tail_view() == old(self).que_tail_view(),
            final(self).rng_view() == old(self).rng_view(),
            final(self).requests() == old(self).requests(),
    ;

    /// Record player `n`'s start.
    fn set_player_start(&mut self, n: usize, mt: MapThing)
        requires
            n < old(self).starts_view().len(),
        ensures
            forall|t: usize| #[trigger] final(self).info_view(t) == old(self).info_view(t),
            forall|s: usize| #[trigger] final(self).state_view(s) == old(self).state_view(s),
            forall|x: Fixed, y: Fixed| #[trigger] final(self).subsector_at(x, y) == old(self).subsector_at(x, y),
            final(self).subsectors_view() == old(self).subsectors_view(),
            final(self).floors_view() == old(self).floors_view(),
            final(self).ceilings_view() == old(self).ceilings_view(),
            final(self).orgx_view() == old(self).orgx_view(),
            final(self).orgy_view() == old(self).orgy_view(),
            final(self).width_view() == old(self).width_view(),
            final(self).height_view() == old(self).height_view(),
            final(self).game_view() == old(self).game_view(),
            final(self).ingame_view() == old(self).ingame_view(),
            forall|i: usize| #[trigger] final(self).sine_view(i) == old(self).sine_view(i),
            forall|x: Fixed, y: Fixed| #[trigger] final(self).angle_view(x, y) == old(self).angle_view(x, y),
            final(self).starts_view() == old(self).starts_view().update(n as int, Some(mt)),
            forall|i: usize| #[trigger] final(self).spawnpoint_view(i) == old(self).spawnpoint_view(i),
            forall|i: usize| #[trigger] final(self).thinker_view(i) == old(self).thinker_view(i),
            final(self).mobjs_view() == old(self).mobjs_view(),
            final(self).heads_view() == old(self).heads_view(),
            final(self).links_view() == old(self).links_view(),
            final(self).players_view() == old(self).players_view(),
            final(self).dm_starts_view() == old(self).dm_starts_view(),
            final(self).que_view() == old(self).que_view(),
            final(self).que_head_view() == old(self).que_head_view(),
            final(self).que_tail_view() == old(self).que_tail_view(),
            final(self).rng_view() == old(self).rng_view(),
            final(self).requests() == old(self).requests(),
    ;

    /// Add a deathmatch start.
    fn push_dm_start(&mut self, mt: MapThing)
        ensures
            forall|t: usize| #[trigger] final(self).info_view(t) == old(self).info_view(t),
            forall|s: usize| #[trigger] final(self).state_view(s) == old(self).state_view(s),
            forall|x: Fixed, y: Fixed| #[trigger] final(self).subsector_at(x, y) == old(self).subsector_at(x, y),
            final(self).subsectors_view() == old(self).subsectors_view(),
            final(self).floors_view() == old(self).floors_view(),
            final(self).ceilings_view() == old(self).ceilings_view(),
            final(self).orgx_view() == old(self).orgx_view(),
            final(self).orgy_view() == old(self).orgy_view(),
            final(self).width_view() == old(self).width_view(),
            final(self).height_view() == old(self).height_view(),
            final(self).game_view() == old(self).game_view(),
            final(self).ingame_view() == old(self).ingame_view(),
            forall|i: usize| #[trigger] final(self).sine_view(i) == old(self).sine_view(i),
            forall|x: Fixed, y: Fixed| #[trigger] final(self).angle_view(x, y) == old(self).angle_view(x, y),
            final(self).dm_starts_view() == old(self).dm_starts_view().push(mt),
            forall|i: usize| #[trigger] final(self).spawnpoint_view(i) == old(self).spawnpoint_view(i),
            forall|i: usize| #[trigger] final(self).thinker_view(i) == old(self).thinker_view(i),
            final(self).mobjs_view() == old(self).mobjs_view(),
            final(self).heads_view() == old(self).heads_view(),
            final(self).links_view() == old(self).links_view(),
            final(self).players_view() == old(self).players_view(),
            final(self).starts_view() == old(self).starts_view(),
            final(self).que_view() == old(self).que_view(),
            final(self).que_head_view() == old(self).que_head_view(),
            final(self).que_tail_view() == old(self).que_tail_view(),
            final(self).rng_view() == old(self).rng_view(),
            final(self).requests() == old(self).requests(),
    ;

    /// Put `mt`, removed at `time`, in item respawn slot `i`.
    fn set_que(&mut self, i: usize, mt: MapThing, time: i32)
        requires
            i < old(self).que_view().len(),
        ensures
            forall|t: usize| #[trigger] final(self).info_view(t) == old(self).info_view(t),
            forall|s: usize| #[trigger] final(self).state_view(s) == old(self).state_view(s),
            forall|x: Fixed, y: Fixed| #[trigger] final(self).subsector_at(x, y) == old(self).subsector_at(x, y),
            final(self).subsectors_view() == old(self).subsectors_view(),
            final(self).floors_view() == old(self).floors_view(),
            final(self).ceilings_view() == old(self).ceilings_view(),
            final(self).orgx_view() == old(self).orgx_view(),
            final(self).orgy_view() == old(self).orgy_view(),
            final(self).width_view() == old(self).width_view(),
            final(self).height_view() == old(self).height_view(),
            final(self).game_view() == old(self).game_view(),
            final(self).ingame_view() == old(self).ingame_view(),
            forall|i: usize| #[trigger] final(self).sine_view(i) == old(self).sine_view(i),
            forall|x: Fixed, y: Fixed| #[trigger] final(self).angle_view(x, y) == old(self).angle_view(x, y),
            final(self).que_view() == old(self).que_view().update(i as int, (mt, time)),
            forall|k: usize| #[trigger] final(self).spawnpoint_view(k) == old(self).spawnpoint_view(k),
            forall|k: usize| #[trigger] final(self).thinker_view(k) == old(self).thinker_view(k),
            final(self).mobjs_view() == old(self).mobjs_view(),
            final(self).heads_view() == old(self).heads_view(),
            final(self).links_view() == old(self).links_view(),
            final(self).players_view() == old(self).players_view(),
            final(self).starts_view() == old(self).starts_view(),
            final(self).dm_starts_view() == old(self).dm_starts_view(),
            final(self).que_head_view() == old(self).que_head_view(),
            final(self).que_tail_view() == old(self).que_tail_view(),
            final(self).rng_view() == old(self).rng_view(),
            final(self).requests() == old(self).requests(),
    ;

    /// Set the item respawn queue's head.
    fn set_que_head(&mut self, v: usize)
        ensures
            forall|t: usize| #[trigger] final(self).info_view(t) == old(self).info_view(t),
            forall|s: usize| #[trigger] final(self).state_view(s) == old(self).state_view(s),
            forall|x: Fixed, y: Fixed| #[trigger] final(self).subsector_at(x, y) == old(self).subsector_at(x, y),
            final(self).subsectors_view() == old(self).subsectors_view(),
            final(self).floors_view() == old(self).floors_view(),
            final(self).ceilings_view() == old(self).ceilings_view(),
            final(self).orgx_view() == old(self).orgx_view(),
            final(self).orgy_view() == old(self).orgy_view(),
            final(self).width_view() == old(self).width_view(),
            final(self).height_view() == old(self).height_view(),
            final(self).game_view() == old(self).game_view(),
            final(self).ingame_view() == old(self).ingame_view(),
            forall|i: usize| #[trigger] final(self).sine_view(i) == old(self).sine_view(i),
            forall|x: Fixed, y: Fixed| #[trigger] final(self).angle_view(x, y) == old(self).angle_view(x, y),
            final(self).que_head_view() == v,
            forall|k: usize| #[trigger] final(self).spawnpoint_view(k) == old(self).spawnpoint_view(k),
            forall|k: usize| #[trigger] final(self).thinker_view(k) == old(self).thinker_view(k),
            final(self).mobjs_view() == old(self).mobjs_view(),
            final(self).heads_view() == old(self).heads_view(),
            final(self).links_view() == old(self).links_view(),
            final(self).players_view() == old(self).players_view(),
            final(self).starts_view() == old(self).starts_view(),
            final(self).dm_starts_view() == old(self).dm_starts_view(),
            final(self).que_view() == old(self).que_view(),
            final(self).que_tail_view() == old(self).que_tail_view(),
            final(self).rng_view() == old(self).rng_view(),
            final(self).requests() == old(self).requests(),
    ;

    /// Set the item respawn queue's tail.
    fn set_que_tail(&mut self, v: usize)
        ensures
            forall|t: usize| #[trigger] final(self).info_view(t) == old(self).info_view(t),
            forall|s: usize| #[trigger] final(self).state_view(s) == old(self).state_view(s),
            forall|x: Fixed, y: Fixed| #[trigger] final(self).subsector_at(x, y) == old(self).subsector_at(x, y),
            final(self).subsectors_view() == old(self).subsectors_view(),
            final(self).floors_view() == old(self).floors_view(),
            final(self).ceilings_view() == old(self).ceilings_view(),
            final(self).orgx_view() == old(self).orgx_view(),
            final(self).orgy_view() == old(self).orgy_view(),
            final(self).width_view() == old(self).width_view(),
            final(self).height_view() == old(self).height_view(),
            final(self).game_view() == old(self).game_view(),
            final(self).ingame_view() == old(self).ingame_view(),
            forall|i: usize| #[trigger] final(self).sine_view(i) == old(self).sine_view(i),
            forall|x: Fixed, y: Fixed| #[trigger] final(self).angle_view(x, y) == old(self).angle_view(x, y),
            final(self).que_tail_view() == v,
            forall|k: usize| #[trigger] final(self).spawnpoint_view(k) == old(self).spawnpoint_view(k),
            forall|k: usize| #[trigger] final(self).thinker_view(k) == old(self).thinker_view(k),
            final(self).mobjs_view() == old(self).mobjs_view(),
            final(self).heads_view() == old(self).heads_view(),
            final(self).links_view() == old(self).links_view(),
            final(self).players_view() == old(self).players_view(),
            final(self).starts_view() == old(self).starts_view(),
            final(self).dm_starts_view() == old(self).dm_starts_view(),
            final(self).que_view() == old(self).que_view(),
            final(self).que_head_view() == old(self).que_head_view(),
            final(self).rng_view() == old(self).rng_view(),
            final(self).requests() == old(self).requests(),
    ;

    /// `P_Random` on the play stream.
    fn p_random(&mut self) -> (r: u8)
        ensures
            forall|t: usize| #[trigger] final(self).info_view(t) == old(self).info_view(t),
            forall|s: usize| #[trigger] final(self).state_view(s) == old(self).state_view(s),
            forall|x: Fixed, y: Fixed| #[trigger] final(self).subsector_at(x, y) == old(self).subsector_at(x, y),
            final(self).subsectors_view() == old(self).subsectors_view(),
            final(self).floors_view() == old(self).floors_view(),
            final(self).ceilings_view() == old(self).ceilings_view(),
            final(self).orgx_view() == old(self).orgx_view(),
            final(self).orgy_view() == old(self).orgy_view(),
            final(self).width_view() == old(self).width_view(),
            final(self).height_view() == old(self).height_view(),
            final(self).game_view() == old(self).game_view(),
            final(self).ingame_view() == old(self).ingame_view(),
            forall|i: usize| #[trigger] final(self).sine_view(i) == old(self).sine_view(i),
            forall|x: Fixed, y: Fixed| #[trigger] final(self).angle_view(x, y) == old(self).angle_view(x, y),
            r == old(self).rng_view().next_p(),
            final(self).rng_view() == old(self).rng_view().advanced(),
            forall|k: usize| #[trigger] final(self).spawnpoint_view(k) == old(self).spawnpoint_view(k),
            forall|k: usize| #[trigger] final(self).thinker_view(k) == old(self).thinker_view(k),
            final(self).mobjs_view() == old(self).mobjs_view(),
            final(self).heads_view() == old(self).heads_view(),
            final(self).links_view() == old(self).links_view(),
            final(self).players_view() == old(self).players_view(),
            final(self).starts_view() == old(self).starts_view(),
            final(self).dm_starts_view() == old(self).dm_starts_view(),
            final(self).que_view() == old(self).que_view(),
            final(self).que_head_view() == old(self).que_head_view(),
            final(self).que_tail_view() == old(self).que_tail_view(),
            final(self).requests() == old(self).requests(),
    ;

    /// `P_AddThinker`: the thing starts thinking.
    fn p_add_thinker(&mut self, mobj: usize)
        ensures
            forall|t: usize| #[trigger] final(self).info_view(t) == old(self).info_view(t),
            forall|s: usize| #[trigger] final(self).state_view(s) == old(self).state_view(s),
            forall|x: Fixed, y: Fixed| #[trigger] final(self).subsector_at(x, y) == old(self).subsector_at(x, y),
            final(self).subsectors_view() == old(self).subsectors_view(),
            final(self).floors_view() == old(self).floors_view(),
            final(self).ceilings_view() == old(self).ceilings_view(),
            final(self).orgx_view() == old(self).orgx_view(),
            final(self).orgy_view() == old(self).orgy_view(),
            final(self).width_view() == old(self).width_view(),
            final(self).height_view() == old(self).height_view(),
            final(self).game_view() == old(self).game_view(),
            final(self).ingame_view() == old(self).ingame_view(),
            forall|i: usize| #[trigger] final(self).sine_view(i) == old(self).sine_view(i),
            forall|x: Fixed, y: Fixed| #[trigger] final(self).angle_view(x, y) == old(self).angle_view(x, y),
            final(self).requests() == old(self).requests().push(SpawnEvent::AddThinker { mobj }),
            forall|k: usize| #[trigger] final(self).spawnpoint_view(k) == old(self).spawnpoint_view(k),
            final(self).thinker_view(mobj) == ActionFn::MobjThinker,
            forall|k: usize| k != mobj ==> #[trigger] final(self).thinker_view(k) == old(self).thinker_view(k),
            final(self).mobjs_view() == old(self).mobjs_view(),
            final(self).heads_view() == old(self).heads_view(),
            final(self).links_view() == old(self).links_view(),
            final(self).players_view() == old(self).players_view(),
            final(self).starts_view() == old(self).starts_view(),
            final(self).dm_starts_view() == old(self).dm_starts_view(),
            final(self).que_view() == old(self).que_view(),
            final(self).que_head_view() == old(self).que_head_view(),
            final(self).que_tail_view() == old(self).que_tail_view(),
            final(self).rng_view() == old(self).rng_view(),
    ;

    /// `P_RemoveThinker`: the thing is marked for removal.
    fn p_remove_thinker(&mut self, mobj: usize)
        ensures
            forall|t: usize| #[trigger] final(self).info_view(t) == old(self).info_view(t),
            forall|s: usize| #[trigger] final(self).state_view(s) == old(self).state_view(s),
            forall|x: Fixed, y: Fixed| #[trigger] final(self).subsector_at(x, y) == old(self).subsector_at(x, y),
            final(self).subsectors_view() == old(self).subsectors_view(),
            final(self).floors_view() == old(self).floors_view(),
            final(self).ceilings_view() == old(self).ceilings_view(),
            final(self).orgx_view() == old(self).orgx_view(),
            final(self).orgy_view() == old(self).orgy_view(),
            final(self).width_view() == old(self).width_view(),
            final(self).height_view() == old(self).height_view(),
            final(self).game_view() == old(self).game_view(),
            final(self).ingame_view() == old(self).ingame_view(),
            forall|i: usize| #[trigger] final(self).sine_view(i) == old(self).sine_view(i),
            forall|x: Fixed, y: Fixed| #[trigger] final(self).angle_view(x, y) == old(self).angle_view(x, y),
            final(self).requests() == old(self).requests().push(SpawnEvent::RemoveThinker { mobj }),
            forall|k: usize| #[trigger] final(self).spawnpoint_view(k) == old(self).spawnpoint_view(k),
            final(self).thinker_view(mobj) == ActionFn::PendingRemoval,
            forall|k: usize| k != mobj ==> #[trigger] final(self).thinker_view(k) == old(self).thinker_view(k),
            final(self).mobjs_view() == old(self).mobjs_view(),
            final(self).heads_view() == old(self).heads_view(),
            final(self).links_view() == old(self).links_view(),
            final(self).players_view() == old(self).players_view(),
            final(self).starts_view() == old(self).starts_view(),
            final(self).dm_starts_view() == old(self).dm_starts_view(),
            final(self).que_view() == old(self).que_view(),
            final(self).que_head_view() == old(self).que_head_view(),
            final(self).que_tail_view() == old(self).que_tail_view(),
            final(self).rng_view() == old(self).rng_view(),
    ;

    /// `S_StartSound`.
    fn s_start_sound(&mut self, origin: Option<usize>, sfx: SfxEnum)
        ensures
            forall|t: usize| #[trigger] final(self).info_view(t) == old(self).info_view(t),
            forall|s: usize| #[trigger] final(self).state_view(s) == old(self).state_view(s),
            forall|x: Fixed, y: Fixed| #[trigger] final(self).subsector_at(x, y) == old(self).subsector_at(x, y),
            final(self).subsectors_view() == old(self).subsectors_view(),
            final(self).floors_view() == old(self).floors_view(),
            final(self).ceilings_view() == old(self).ceilings_view(),
            final(self).orgx_view() == old(self).orgx_view(),
            final(self).orgy_view() == old(self).orgy_view(),
            final(self).width_view() == old(self).width_view(),
            final(self).height_view() == old(self).height_view(),
            final(self).game_view() == old(self).game_view(),
            final(self).ingame_view() == old(self).ingame_view(),
            forall|i: usize| #[trigger] final(self).sine_view(i) == old(self).sine_view(i),
            forall|x: Fixed, y: Fixed| #[trigger] final(self).angle_view(x, y) == old(self).angle_view(x, y),
            final(self).requests() == old(self).requests().push(SpawnEvent::Sound { origin, sfx }),
            forall|k: usize| #[trigger] final(self).spawnpoint_view(k) == old(self).spawnpoint_view(k),
            forall|k: usize| #[trigger] final(self).thinker_view(k) == old(self).thinker_view(k),
            final(self).mobjs_view() == old(self).mobjs_view(),
            final(self).heads_view() == old(self).heads_view(),
            final(self).links_view() == old(self).links_view(),
            final(self).players_view() == old(self).players_view(),
            final(self).starts_view() == old(self).starts_view(),
            final(self).dm_starts_view() == old(self).dm_starts_view(),
            final(self).que_view() == old(self).que_view(),
            final(self).que_head_view() == old(self).que_head_view(),
            final(self).que_tail_view() == old(self).que_tail_view(),
            final(self).rng_view() == old(self).rng_view(),
    ;

    /// `S_StopSound`.
    fn s_stop_sound(&mut self, origin: usize)
        ensures
            forall|t: usize| #[trigger] final(self).info_view(t) == old(self).info_view(t),
            forall|s: usize| #[trigger] final(self).state_view(s) == old(self).state_view(s),
            forall|x: Fixed, y: Fixed| #[trigger] final(self).subsector_at(x, y) == old(self).subsector_at(x, y),
            final(self).subsectors_view() == old(self).subsectors_view(),
            final(self).floors_view() == old(self).floors_view(),
            final(self).ceilings_view() == old(self).ceilings_view(),
            final(self).orgx_view() == old(self).orgx_view(),
            final(self).orgy_view() == old(self).orgy_view(),
            final(self).width_view() == old(self).width_view(),
            final(self).height_view() == old(self).height_view(),
            final(self).game_view() == old(self).game_view(),
            final(self).ingame_view() == old(self).ingame_view(),
            forall|i: usize| #[trigger] final(self).sine_view(i) == old(self).sine_view(i),
            forall|x: Fixed, y: Fixed| #[trigger] final(self).angle_view(x, y) == old(self).angle_view(x, y),
            final(self).requests() == old(self).requests().push(SpawnEvent::StopSound { origin }),
            forall|k: usize| #[trigger] final(self).spawnpoint_view(k) == old(self).spawnpoint_view(k),
            forall|k: usize| #[trigger] final(self).thinker_view(k) == old(self).thinker_view(k),
            final(self).mobjs_view() == old(self).mobjs_view(),
            final(self).heads_view() == old(self).heads_view(),
            final(self).links_view() == old(self).links_view(),
            final(self).players_view() == old(self).players_view(),
            final(self).starts_view() == old(self).starts_view(),
            final(self).dm_starts_view() == old(self).dm_starts_view(),
            final(self).que_view() == old(self).que_view(),
            final(self).que_head_view() == old(self).que_head_view(),
            final(self).que_tail_view() == old(self).que_tail_view(),
            final(self).rng_view() == old(self).rng_view(),
    ;

    /// `ST_Start`: the status bar starts over.
    fn st_start(&mut self)
        ensures
            forall|t: usize| #[trigger] final(self).info_view(t) == old(self).info_view(t),
            forall|s: usize| #[trigger] final(self).state_view(s) == old(self).state_view(s),
            forall|x: Fixed, y: Fixed| #[trigger] final(self).subsector_at(x, y) == old(self).subsector_at(x, y),
            final(self).subsectors_view() == old(self).subsectors_view(),
            final(self).floors_view() == old(self).floors_view(),
            final(self).ceilings_view() == old(self).ceilings_view(),
            final(self).orgx_view() == old(self).orgx_view(),
            final(self).orgy_view() == old(self).orgy_view(),
            final(self).width_view() == old(self).width_view(),
            final(self).height_view() == old(self).height_view(),
            final(self).game_view() == old(self).game_view(),
            final(self).ingame_view() == old(self).ingame_view(),
            forall|i: usize| #[trigger] final(self).sine_view(i) == old(self).sine_view(i),
            forall|x: Fixed, y: Fixed| #[trigger] final(self).angle_view(x, y) == old(self).angle_view(x, y),
            final(self).requests() == old(self).requests().push(SpawnEvent::StatusBarStart),
            forall|k: usize| #[trigger] final(self).spawnpoint_view(k) == old(self).spawnpoint_view(k),
            forall|k: usize| #[trigger] final(self).thinker_view(k) == old(self).thinker_view(k),
            final(self).mobjs_view() == old(self).mobjs_view(),
            final(self).heads_view() == old(self).heads_view(),
            final(self).links_view() == old(self).links_view(),
            final(self).players_view() == old(self).players_view(),
            final(self).starts_view() == old(self).starts_view(),
            final(self).dm_starts_view() == old(self).dm_starts_view(),
            final(self).que_view() == old(self).que_view(),
            final(self).que_head_view() == old(self).que_head_view(),
            final(self).que_tail_view() == old(self).que_tail_view(),
            final(self).rng_view() == old(self).rng_view(),
    ;

    /// `HU_Start`: the heads-up display starts over.
    fn hu_start(&mut self)
        ensures
            forall|t: usize| #[trigger] final(self).info_view(t) == old(self).info_view(t),
            forall|s: usize| #[trigger] final(self).state_view(s) == old(self).state_view(s),
            forall|x: Fixed, y: Fixed| #[trigger] final(self).subsector_at(x, y) == old(self).subsector_at(x, y),
            final(self).subsectors_view() == old(self).subsectors_view(),
            final(self).floors_view() == old(self).floors_view(),
            final(self).ceilings_view() == old(self).ceilings_view(),
            final(self).orgx_view() == old(self).orgx_view(),
            final(self).orgy_view() == old(self).orgy_view(),
            final(self).width_view() == old(self).width_view(),
            final(self).height_view() == old(self).height_view(),
            final(self).game_view() == old(self).game_view(),
            final(self).ingame_view() == old(self).ingame_view(),
            forall|i: usize| #[trigger] final(self).sine_view(i) == old(self).sine_view(i),
            forall|x: Fixed, y: Fixed| #[trigger] final(self).angle_view(x, y) == old(self).angle_view(x, y),
            final(self).requests() == old(self).requests().push(SpawnEvent::HudStart),
            forall|k: usize| #[trigger] final(self).spawnpoint_view(k) == old(self).spawnpoint_view(k),
            forall|k: usize| #[trigger] final(self).thinker_view(k) == old(self).thinker_view(k),
            final(self).mobjs_view() == old(self).mobjs_view(),
            final(self).heads_view() == old(self).heads_view(),
            final(self).links_view() == old(self).links_view(),
            final(self).players_view() == old(self).players_view(),
            final(self).starts_view() == old(self).starts_view(),
            final(self).dm_starts_view() == old(self).dm_starts_view(),
            final(self).que_view() == old(self).que_view(),
            final(self).que_head_view() == old(self).que_head_view(),
            final(self).que_tail_view() == old(self).que_tail_view(),
            final(self).rng_view() == old(self).rng_view(),
    ;

    /// One more monster to kill in the level's tally.
    fn add_total_kills(&mut self)
        ensures
            forall|t: usize| #[trigger] final(self).info_view(t) == old(self).info_view(t),
            forall|s: usize| #[trigger] final(self).state_view(s) == old(self).state_view(s),
            forall|x: Fixed, y: Fixed| #[trigger] final(self).subsector_at(x, y) == old(self).subsector_at(x, y),
            final(self).subsectors_view() == old(self).subsectors_view(),
            final(self).floors_view() == old(self).floors_view(),
            final(self).ceilings_view() == old(self).ceilings_view(),
            final(self).orgx_view() == old(self).orgx_view(),
            final(self).orgy_view() == old(self).orgy_view(),
            final(self).width_view() == old(self).width_view(),
            final(self).height_view() == old(self).height_view(),
            final(self).game_view() == old(self).game_view(),
            final(self).ingame_view() == old(self).ingame_view(),
            forall|i: usize| #[trigger] final(self).sine_view(i) == old(self).sine_view(i),
            forall|x: Fixed, y: Fixed| #[trigger] final(self).angle_view(x, y) == old(self).angle_view(x, y),
            final(self).requests() == old(self).requests().push(SpawnEvent::TotalKill),
            forall|k: usize| #[trigger] final(self).spawnpoint_view(k) == old(self).spawnpoint_view(k),
            forall|k: usize| #[trigger] final(self).thinker_view(k) == old(self).thinker_view(k),
            final(self).mobjs_view() == old(self).mobjs_view(),
            final(self).heads_view() == old(self).heads_view(),
            final(self).links_view() == old(self).links_view(),
            final(self).players_view() == old(self).players_view(),
            final(self).starts_view() == old(self).starts_view(),
            final(self).dm_starts_view() == old(self).dm_starts_view(),
            final(self).que_view() == old(self).que_view(),
            final(self).que_head_view() == old(self).que_head_view(),
            final(self).que_tail_view() == old(self).que_tail_view(),
            final(self).rng_view() == old(self).rng_view(),
    ;

    /// One more item to find in the level's tally.
    fn add_total_items(&mut self)
        ensures
            forall|t: usize| #[trigger] final(self).info_view(t) == old(self).info_view(t),
            forall|s: usize| #[trigger] final(self).state_view(s) == old(self).state_view(s),
            forall|x: Fixed, y: Fixed| #[trigger] final(self).subsector_at(x, y) == old(self).subsector_at(x, y),
            final(self).subsectors_view() == old(self).subsectors_view(),
            final(self).floors_view() == old(self).floors_view(),
            final(self).ceilings_view() == old(self).ceilings_view(),
            final(self).orgx_view() == old(self).orgx_view(),
            final(self).orgy_view() == old(self).orgy_view(),
            final(self).width_view() == old(self).width_view(),
            final(self).height_view() == old(self).height_view(),
            final(self).game_view() == old(self).game_view(),
            final(self).ingame_view() == old(self).ingame_view(),
            forall|i: usize| #[trigger] final(self).sine_view(i) == old(self).sine_view(i),
            forall|x: Fixed, y: Fixed| #[trigger] final(self).angle_view(x, y) == old(self).angle_view(x, y),
            final(self).requests() == old(self).requests().push(SpawnEvent::TotalItem),
            forall|k: usize| #[trigger] final(self).spawnpoint_view(k) == old(self).spawnpoint_view(k),
            forall|k: usize| #[trigger] final(self).thinker_view(k) == old(self).thinker_view(k),
            final(self).mobjs_view() == old(self).mobjs_view(),
            final(self).heads_view() == old(self).heads_view(),
            final(self).links_view() == old(self).links_view(),
            final(self).players_view() == old(self).players_view(),
            final(self).starts_view() == old(self).starts_view(),
            final(self).dm_starts_view() == old(self).dm_starts_view(),
            final(self).que_view() == old(self).que_view(),
            final(self).que_head_view() == old(self).que_head_view(),
            final(self).que_tail_view() == old(self).que_tail_view(),
            final(self).rng_view() == old(self).rng_view(),
    ;

    /// `P_AimLineAttack`: the slope to aim at and the thing aimed at.
    fn p_aim_line_attack(&mut self, source: usize, angle: Angle, range: Fixed) -> (r: (Fixed, Option<usize>))
        ensures
            forall|t: usize| #[trigger] final(self).info_view(t) == old(self).info_view(t),
            forall|s: usize| #[trigger] final(self).state_view(s) == old(self).state_view(s),
            forall|x: Fixed, y: Fixed| #[trigger] final(self).subsector_at(x, y) == old(self).subsector_at(x, y),
            final(self).subsectors_view() == old(self).subsectors_view(),
            final(self).floors_view() == old(self).floors_view(),
            final(self).ceilings_view() == old(self).ceilings_view(),
            final(self).orgx_view() == old(self).orgx_view(),
            final(self).orgy_view() == old(self).orgy_view(),
            final(self).width_view() == old(self).width_view(),
            final(self).height_view() == old(self).height_view(),
            final(self).game_view() == old(self).game_view(),
            final(self).ingame_view() == old(self).ingame_view(),
            forall|i: usize| #[trigger] final(self).sine_view(i) == old(self).sine_view(i),
            forall|x: Fixed, y: Fixed| #[trigger] final(self).angle_view(x, y) == old(self).angle_view(x, y),
            final(self).requests() == old(self).requests().push(SpawnEvent::Aim { source, angle, slope: r.0, target: r.1 }),
            forall|k: usize| #[trigger] final(self).spawnpoint_view(k) == old(self).spawnpoint_view(k),
            forall|k: usize| #[trigger] final(self).thinker_view(k) == old(self).thinker_view(k),
            final(self).mobjs_view() == old(self).mobjs_view(),
            final(self).heads_view() == old(self).heads_view(),
            final(self).links_view() == old(self).links_view(),
            final(self).players_view() == old(self).players_view(),
            final(self).starts_view() == old(self).starts_view(),
            final(self).dm_starts_view() == old(self).dm_starts_view(),
            final(self).que_view() == old(self).que_view(),
            final(self).que_head_view() == old(self).que_head_view(),
            final(self).que_tail_view() == old(self).que_tail_view(),
            final(self).rng_view() == old(self).rng_view(),
    ;

    /// `P_CheckPosition`: whether the thing would fit at `(x, y)`.
    fn p_check_position(&mut self, mobj: usize, x: Fixed, y: Fixed) -> (r: bool)
        ensures
            forall|t: usize| #[trigger] final(self).info_view(t) == old(self).info_view(t),
            forall|s: usize| #[trigger] final(self).state_view(s) == old(self).state_view(s),
            forall|x: Fixed, y: Fixed| #[trigger] final(self).subsector_at(x, y) == old(self).subsector_at(x, y),
            final(self).subsectors_view() == old(self).subsectors_view(),
            final(self).floors_view() == old(self).floors_view(),
            final(self).ceilings_view() == old(self).ceilings_view(),
            final(self).orgx_view() == old(self).orgx_view(),
            final(self).orgy_view() == old(self).orgy_view(),
            final(self).width_view() == old(self).width_view(),
            final(self).height_view() == old(self).height_view(),
            final(self).game_view() == old(self).game_view(),
            final(self).ingame_view() == old(self).ingame_view(),
            forall|i: usize| #[trigger] final(self).sine_view(i) == old(self).sine_view(i),
            forall|x: Fixed, y: Fixed| #[trigger] final(self).angle_view(x, y) == old(self).angle_view(x, y),
            final(self).mobjs_view().len() >= old(self).mobjs_view().len(),
            final(self).players_view().len() == old(self).players_view().len(),
            final(self).heads_view().len() == old(self).heads_view().len(),
            final(self).links_view().len() == old(self).links_view().len(),
            final(self).que_view().len() == old(self).que_view().len(),
            final(self).starts_view() == old(self).starts_view(),
            final(self).dm_starts_view() == old(self).dm_starts_view(),
            old(self).que_head_view() < ITEMQUESIZE ==> final(self).que_head_view() < ITEMQUESIZE,
            old(self).que_tail_view() < ITEMQUESIZE ==> final(self).que_tail_view() < ITEMQUESIZE,
            final(self).requests() == old(self).requests().push(SpawnEvent::CheckPosition { mobj, x, y, fits: r }),
    ;

    /// `P_TryMove`: whether the thing moved to `(x, y)`; crossing lines may
    /// trigger specials that change anything.
    fn p_try_move(&mut self, mobj: usize, x: Fixed, y: Fixed) -> (r: bool)
        ensures
            forall|t: usize| #[trigger] final(self).info_view(t) == old(self).info_view(t),
            forall|s: usize| #[trigger] final(self).state_view(s) == old(self).state_view(s),
            forall|x: Fixed, y: Fixed| #[trigger] final(self).subsector_at(x, y) == old(self).subsector_at(x, y),
            final(self).subsectors_view() == old(self).subsectors_view(),
            final(self).floors_view() == old(self).floors_view(),
            final(self).ceilings_view() == old(self).ceilings_view(),
            final(self).orgx_view() == old(self).orgx_view(),
            final(self).orgy_view() == old(self).orgy_view(),
            final(self).width_view() == old(self).width_view(),
            final(self).height_view() == old(self).height_view(),
            final(self).game_view() == old(self).game_view(),
            final(self).ingame_view() == old(self).ingame_view(),
            forall|i: usize| #[trigger] final(self).sine_view(i) == old(self).sine_view(i),
            forall|x: Fixed, y: Fixed| #[trigger] final(self).angle_view(x, y) == old(self).angle_view(x, y),
            final(self).mobjs_view().len() >= old(self).mobjs_view().len(),
            final(self).players_view().len() == old(self).players_view().len(),
            final(self).heads_view().len() == old(self).heads_view().len(),
            final(self).links_view().len() == old(self).links_view().len(),
            final(self).que_view().len() == old(self).que_view().len(),
            final(self).starts_view() == old(self).starts_view(),
            final(self).dm_starts_view() == old(self).dm_starts_view(),
            old(self).que_head_view() < ITEMQUESIZE ==> final(self).que_head_view() < ITEMQUESIZE,
            old(self).que_tail_view() < ITEMQUESIZE ==> final(self).que_tail_view() < ITEMQUESIZE,
            final(self).requests() == old(self).requests().push(SpawnEvent::TryMove { mobj, x, y, moved: r }),
    ;

    /// `P_ExplodeMissile`.
    fn p_explode_missile(&mut self, mobj: usize)
        ensures
            forall|t: usize| #[trigger] final(self).info_view(t) == old(self).info_view(t),
            forall|s: usize| #[trigger] final(self).state_view(s) == old(self).state_view(s),
            forall|x: Fixed, y: Fixed| #[trigger] final(self).subsector_at(x, y) == old(self).subsector_at(x, y),
            final(self).subsectors_view() == old(self).subsectors_view(),
            final(self).floors_view() == old(self).floors_view(),
            final(self).ceilings_view() == old(self).ceilings_view(),
            final(self).orgx_view() == old(self).orgx_view(),
            final(self).orgy_view() == old(self).orgy_view(),
            final(self).width_view() == old(self).width_view(),
            final(self).height_view() == old(self).height_view(),
            final(self).game_view() == old(self).game_view(),
            final(self).ingame_view() == old(self).ingame_view(),
            forall|i: usize| #[trigger] final(self).sine_view(i) == old(self).sine_view(i),
            forall|x: Fixed, y: Fixed| #[trigger] final(self).angle_view(x, y) == old(self).angle_view(x, y),
            final(self).mobjs_view().len() >= old(self).mobjs_view().len(),
            final(self).players_view().len() == old(self).players_view().len(),
            final(self).heads_view().len() == old(self).heads_view().len(),
            final(self).links_view().len() == old(self).links_view().len(),
            final(self).que_view().len() == old(self).que_view().len(),
            final(self).starts_view() == old(self).starts_view(),
            final(self).dm_starts_view() == old(self).dm_starts_view(),
            old(self).que_head_view() < ITEMQUESIZE ==> final(self).que_head_view() < ITEMQUESIZE,
            old(self).que_tail_view() < ITEMQUESIZE ==> final(self).que_tail_view() < ITEMQUESIZE,
            final(self).requests() == old(self).requests().push(SpawnEvent::Explode { mobj }),
    ;

    /// Runs state action `action` on thing `mobj`; it may change anything.
    fn run_action(&mut self, mobj: usize, action: ActionFnId)
        ensures
            forall|t: usize| #[trigger] final(self).info_view(t) == old(self).info_view(t),
            forall|s: usize| #[trigger] final(self).state_view(s) == old(self).state_view(s),
            forall|x: Fixed, y: Fixed| #[trigger] final(self).subsector_at(x, y) == old(self).subsector_at(x, y),
            final(self).subsectors_view() == old(self).subsectors_view(),
            final(self).floors_view() == old(self).floors_view(),
            final(self).ceilings_view() == old(self).ceilings_view(),
            final(self).orgx_view() == old(self).orgx_view(),
            final(self).orgy_view() == old(self).orgy_view(),
            final(self).width_view() == old(self).width_view(),
            final(self).height_view() == old(self).height_view(),
            final(self).game_view() == old(self).game_view(),
            final(self).ingame_view() == old(self).ingame_view(),
            forall|i: usize| #[trigger] final(self).sine_view(i) == old(self).sine_view(i),
            forall|x: Fixed, y: Fixed| #[trigger] final(self).angle_view(x, y) == old(self).angle_view(x, y),
            final(self).mobjs_view().len() >= old(self).mobjs_view().len(),
            final(self).players_view().len() == old(self).players_view().len(),
            final(self).heads_view().len() == old(self).heads_view().len(),
            final(self).links_view().len() == old(self).links_view().len(),
            final(self).que_view().len() == old(self).que_view().len(),
            final(self).starts_view() == old(self).starts_view(),
            final(self).dm_starts_view() == old(self).dm_starts_view(),
            old(self).que_head_view() < ITEMQUESIZE ==> final(self).que_head_view() < ITEMQUESIZE,
            old(self).que_tail_view() < ITEMQUESIZE ==> final(self).que_tail_view() < ITEMQUESIZE,
            final(self).requests() == old(self).requests().push(SpawnEvent::Action { mobj, action }),
    ;

    /// `G_PlayerReborn`: the player starts over with the start-of-game
    /// inventory.
    fn g_player_reborn(&mut self, player: usize)
        ensures
            forall|t: usize| #[trigger] final(self).info_view(t) == old(self).info_view(t),
            forall|s: usize| #[trigger] final(self).state_view(s) == old(self).state_view(s),
            forall|x: Fixed, y: Fixed| #[trigger] final(self).subsector_at(x, y) == old(self).subsector_at(x, y),
            final(self).subsectors_view() == old(self).subsectors_view(),
            final(self).floors_view() == old(self).floors_view(),
            final(self).ceilings_view() == old(self).ceilings_view(),
            final(self).orgx_view() == old(self).orgx_view(),
            final(self).orgy_view() == old(self).orgy_view(),
            final(self).width_view() == old(self).width_view(),
            final(self).height_view() == old(self).height_view(),
            final(self).game_view() == old(self).game_view(),
            final(self).ingame_view() == old(self).ingame_view(),
            forall|i: usize| #[trigger] final(self).sine_view(i) == old(self).sine_view(i),
            forall|x: Fixed, y: Fixed| #[trigger] final(self).angle_view(x, y) == old(self).angle_view(x, y),
            final(self).mobjs_view().len() >= old(self).mobjs_view().len(),
            final(self).players_view().len() == old(self).players_view().len(),
            final(self).heads_view().len() == old(self).heads_view().len(),
            final(self).links_view().len() == old(self).links_view().len(),
            final(self).que_view().len() == old(self).que_view().len(),
            final(self).starts_view() == old(self).starts_view(),
            final(self).dm_starts_view() == old(self).dm_starts_view(),
            old(self).que_head_view() < ITEMQUESIZE ==> final(self).que_head_view() < ITEMQUESIZE,
            old(self).que_tail_view() < ITEMQUESIZE ==> final(self).que_tail_view() < ITEMQUESIZE,
            final(self).requests() == old(self).requests().push(SpawnEvent::Reborn { player }),
    ;

    /// `P_XYMovement`.
    fn p_xy_movement(&mut self, mobj: usize)
        ensures
            forall|t: usize| #[trigger] final(self).info_view(t) == old(self).info_view(t),
            forall|s: usize| #[trigger] final(self).state_view(s) == old(self).state_view(s),
            forall|x: Fixed, y: Fixed| #[trigger] final(self).subsector_at(x, y) == old(self).subsector_at(x, y),
            final(self).subsectors_view() == old(self).subsectors_view(),
            final(self).floors_view() == old(self).floors_view(),
            final(self).ceilings_view() == old(self).ceilings_view(),
            final(self).orgx_view() == old(self).orgx_view(),
            final(self).orgy_view() == old(self).orgy_view(),
            final(self).width_view() == old(self).width_view(),
            final(self).height_view() == old(self).height_view(),
            final(self).game_view() == old(self).game_view(),
            final(self).ingame_view() == old(self).ingame_view(),
            forall|i: usize| #[trigger] final(self).sine_view(i) == old(self).sine_view(i),
            forall|x: Fixed, y: Fixed| #[trigger] final(self).angle_view(x, y) == old(self).angle_view(x, y),
            final(self).mobjs_view().len() >= old(self).mobjs_view().len(),
            final(self).players_view().len() == old(self).players_view().len(),
            final(self).heads_view().len() == old(self).heads_view().len(),
            final(self).links_view().len() == old(self).links_view().len(),
            final(self).que_view().len() == old(self).que_view().len(),
            final(self).starts_view() == old(self).starts_view(),
            final(self).dm_starts_view() == old(self).dm_starts_view(),
            old(self).que_head_view() < ITEMQUESIZE ==> final(self).que_head_view() < ITEMQUESIZE,
            old(self).que_tail_view() < ITEMQUESIZE ==> final(self).que_tail_view() < ITEMQUESIZE,
            final(self).requests() == old(self).requests().push(SpawnEvent::XYMovement { mobj }),
    ;

    /// `P_ZMovement`.
    fn p_z_movement(&mut self, mobj: usize)
        ensures
            forall|t: usize| #[trigger] final(self).info_view(t) == old(self).info_view(t),
            forall|s: usize| #[trigger] final(self).state_view(s) == old(self).state_view(s),
            forall|x: Fixed, y: Fixed| #[trigger] final(self).subsector_at(x, y) == old(self).subsector_at(x, y),
            final(self).subsectors_view() == old(self).subsectors_view(),
            final(self).floors_view() == old(self).floors_view(),
            final(self).ceilings_view() == old(self).ceilings_view(),
            final(self).orgx_view() == old(self).orgx_view(),
            final(self).orgy_view() == old(self).orgy_view(),
            final(self).width_view() == old(self).width_view(),
            final(self).height_view() == old(self).height_view(),
            final(self).game_view() == old(self).game_view(),
            final(self).ingame_view() == old(self).ingame_view(),
            forall|i: usize| #[trigger] final(self).sine_view(i) == old(self).sine_view(i),
            forall|x: Fixed, y: Fixed| #[trigger] final(self).angle_view(x, y) == old(self).angle_view(x, y),
            final(self).mobjs_view().len() >= old(self).mobjs_view().len(),
            final(self).players_view().len() == old(self).players_view().len(),
            final(self).heads_view().len() == old(self).heads_view().len(),
            final(self).links_view().len() == old(self).links_view().len(),
            final(self).que_view().len() == old(self).que_view().len(),
            final(self).starts_view() == old(self).starts_view(),
            final(self).dm_starts_view() == old(self).dm_starts_view(),
            old(self).que_head_view() < ITEMQUESIZE ==> final(self).que_head_view() < ITEMQUESIZE,
            old(self).que_tail_view() < ITEMQUESIZE ==> final(self).que_tail_view() < ITEMQUESIZE,
            final(self).requests() == old(self).requests().push(SpawnEvent::ZMovement { mobj }),
    ;

    /// `P_SetupPsprites`: the player's weapon is brought up.
    fn p_setup_psprites(&mut self, player: usize)
        ensures
            forall|t: usize| #[trigger] final(self).info_view(t) == old(self).info_view(t),
            forall|s: usize| #[trigger] final(self).state_view(s) == old(self).state_view(s),
            forall|x: Fixed, y: Fixed| #[trigger] final(self).subsector_at(x, y) == old(self).subsector_at(x, y),
            final(self).subsectors_view() == old(self).subsectors_view(),
            final(self).floors_view() == old(self).floors_view(),
            final(self).ceilings_view() == old(self).ceilings_view(),
            final(self).orgx_view() == old(self).orgx_view(),
            final(self).orgy_view() == old(self).orgy_view(),
            final(self).width_view() == old(self).width_view(),
            final(self).height_view() == old(self).height_view(),
            final(self).game_view() == old(self).game_view(),
            final(self).ingame_view() == old(self).ingame_view(),
            forall|i: usize| #[trigger] final(self).sine_view(i) == old(self).sine_view(i),
            forall|x: Fixed, y: Fixed| #[trigger] final(self).angle_view(x, y) == old(self).angle_view(x, y),
            final(self).mobjs_view().len() >= old(self).mobjs_view().len(),
            final(self).players_view().len() == old(self).players_view().len(),
            final(self).heads_view().len() == old(self).heads_view().len(),
            final(self).links_view().len() == old(self).links_view().len(),
            final(self).que_view().len() == old(self).que_view().len(),
            final(self).starts_view() == old(self).starts_view(),
            final(self).dm_starts_view() == old(self).dm_starts_view(),
            old(self).que_head_view() < ITEMQUESIZE ==> final(self).que_head_view() < ITEMQUESIZE,
            old(self).que_tail_view() < ITEMQUESIZE ==> final(self).que_tail_view() < ITEMQUESIZE,
            final(self).requests() == old(self).requests().push(SpawnEvent::SetupPsprites { player }),
    ;

}

/// The parts of the level spawning never changes: the tables, the
/// geometry, the blockmap's shape, the players in the game and the
/// settings.
pub open spec fn spawn_static<C: SpawnContext>(pre: C, post: C) -> bool {
    &&& forall|t: usize| #[trigger] post.info_view(t) == pre.info_view(t)
    &&& forall|s: usize| #[trigger] post.state_view(s) == pre.state_view(s)
    &&& forall|x: Fixed, y: Fixed| #[trigger] post.subsector_at(x, y) == pre.subsector_at(x, y)
    &&& post.subsectors_view() == pre.subsectors_view()
    &&& post.floors_view() == pre.floors_view()
    &&& post.ceilings_view() == pre.ceilings_view()
    &&& post.orgx_view() == pre.orgx_view()
    &&& post.orgy_view() == pre.orgy_view()
    &&& post.width_view() == pre.width_view()
    &&& post.height_view() == pre.height_view()
    &&& post.game_view() == pre.game_view()
    &&& post.ingame_view() == pre.ingame_view()
    &&& forall|i: usize| #[trigger] post.sine_view(i) == pre.sine_view(i)
    &&& forall|x: Fixed, y: Fixed| #[trigger] post.angle_view(x, y) == pre.angle_view(x, y)
}

/// The level is well formed: every point lies in a subsector and every
/// subsector in a sector, the sector lists agree, the blockmap has
/// `width * height` cells, the players, their starts and the item queue
/// have their fixed sizes, and the queue's ends lie in it.
pub open spec fn spawn_ok<C: SpawnContext>(ctx: C) -> bool {
    &&& forall|x: Fixed, y: Fixed| #[trigger] ctx.subsector_at(x, y) < ctx.subsectors_view().len()
    &&& forall|ss: int| 0 <= ss < ctx.subsectors_view().len() ==> #[trigger] ctx.subsectors_view()[ss] < ctx.heads_view().len()
    &&& ctx.floors_view().len() == ctx.heads_view().len()
    &&& ctx.ceilings_view().len() == ctx.heads_view().len()
    &&& ctx.width_view() >= 0
    &&& ctx.height_view() >= 0
    &&& ctx.links_view().len() == ctx.width_view() * ctx.height_view()
    &&& ctx.links_view().len() <= usize::MAX
    &&& ctx.players_view().len() == MAXPLAYERS
    &&& ctx.ingame_view().len() == MAXPLAYERS
    &&& ctx.starts_view().len() == MAXPLAYERS
    &&& ctx.que_view().len() == ITEMQUESIZE
    &&& ctx.que_head_view() < ITEMQUESIZE
    &&& ctx.que_tail_view() < ITEMQUESIZE
}

/// A well-formed level stays so when only what spawning may change has
/// changed, and the lists keep their lengths.
pub proof fn lemma_spawn_ok<C: SpawnContext>(pre: C, post: C)
    requires
        spawn_ok(pre),
        spawn_static(pre, post),
        post.heads_view().len() == pre.heads_view().len(),
        post.links_view().len() == pre.links_view().len(),
        post.players_view().len() == pre.players_view().len(),
        post.starts_view().len() == pre.starts_view().len(),
        post.que_view().len() == pre.que_view().len(),
        post.que_head_view() < ITEMQUESIZE,
        post.que_tail_view() < ITEMQUESIZE,
    ensures
        spawn_ok(post),
{
    assert forall|x: Fixed, y: Fixed| #[trigger] post.subsector_at(x, y) < post.subsectors_view().len() by {
        assert(post.subsector_at(x, y) == pre.subsector_at(x, y));
    }
}

// ---------------------------------------------------------------------------
// P_SpawnMobj
// ---------------------------------------------------------------------------

/// The blockmap cell holding `(x, y)`, if the point is inside the
/// blockmap.
pub open spec fn cell_of<C: SpawnContext>(ctx: C, x: Fixed, y: Fixed) -> Option<int> {
    let bx = x.0.wrapping_sub(ctx.orgx_view().0) >> 23i32;
    let by = y.0.wrapping_sub(ctx.orgy_view().0) >> 23i32;
    if 0 <= bx < ctx.width_view() && 0 <= by < ctx.height_view() {
        Some(by * ctx.width_view() + bx)
    } else {
        None
    }
}

/// The height a thing is spawned at: on the floor, hanging from the
/// ceiling, or as asked.
pub open spec fn spawn_z(z: Fixed, floorz: Fixed, ceilingz: Fixed, height: i32) -> Fixed {
    if z.0 == ONFLOORZ {
        floorz
    } else if z.0 == ONCEILINGZ {
        Fixed(ceilingz.0.wrapping_sub(height))
    } else {
        z
    }
}

/// The thing `P_SpawnMobj` makes of type `t` at `(x, y, z)`: sized, flagged
/// and given health from its info, in its spawn state, looking first for
/// player `look` (of four), standing in the sector under it at the head of the
/// sector's and the blockmap cell's lists (unless its flags keep it out of
/// them), between that sector's floor and ceiling.
pub open spec fn new_thing<C: SpawnContext>(ctx: C, x: Fixed, y: Fixed, z: Fixed, t: usize, look: u8) -> MapObject {
    let info = ctx.info_view(t);
    let st = ctx.state_view(info.spawnstate);
    let ss = ctx.subsector_at(x, y);
    let sec = ctx.subsectors_view()[ss as int];
    let cell = cell_of(ctx, x, y);
    MapObject {
        x,
        y,
        z: spawn_z(z, ctx.floors_view()[sec as int], ctx.ceilings_view()[sec as int], info.height),
        type_: t,
        radius: Fixed(info.radius),
        height: Fixed(info.height),
        flags: info.flags,
        health: info.spawnhealth,
        reactiontime: if ctx.game_view().skill != Skill::Nightmare { info.reactiontime } else { 0 },
        lastlook: (look % 4) as i32,
        state: Some(info.spawnstate),
        tics: st.tics,
        sprite: st.sprite,
        frame: st.frame,
        subsector: Some(ss),
        snext: if info.flags & MF_NOSECTOR == 0 { ctx.heads_view()[sec as int] } else { None },
        bnext: if info.flags & MF_NOBLOCKMAP == 0 && cell is Some { ctx.links_view()[cell->0] } else { None },
        floorz: ctx.floors_view()[sec as int],
        ceilingz: ctx.ceilings_view()[sec as int],
        ..blank_mobj()
    }
}

/// `ms` after the old head `head` of a list was put behind `r` (its
/// sector-list link when `sector`, else its blockmap link).
pub open spec fn put_behind(ms: Seq<MapObject>, head: Option<usize>, r: usize, sector: bool) -> Seq<MapObject> {
    if head is Some && head->0 < ms.len() {
        let h = head->0;
        if sector {
            ms.update(h as int, MapObject { sprev: Some(r), ..ms[h as int] })
        } else {
            ms.update(h as int, MapObject { bprev: Some(r), ..ms[h as int] })
        }
    } else {
        ms
    }
}

/// The things after thing `r` of type `t` was spawned at `(x, y, z)`,
/// looking first for player `look`.
pub open spec fn spawn_things<C: SpawnContext>(pre: C, x: Fixed, y: Fixed, z: Fixed, t: usize, r: usize, look: u8) -> Seq<MapObject> {
    let info = pre.info_view(t);
    let sec = pre.subsectors_view()[pre.subsector_at(x, y) as int];
    let cell = cell_of(pre, x, y);
    let s1 = allocated(pre.mobjs_view(), r).update(r as int, new_thing(pre, x, y, z, t, look));
    let s2 = if info.flags & MF_NOSECTOR == 0 { put_behind(s1, pre.heads_view()[sec as int], r, true) } else { s1 };
    if info.flags & MF_NOBLOCKMAP == 0 && cell is Some {
        put_behind(s2, pre.links_view()[cell->0], r, false)
    } else {
        s2
    }
}

/// `post` is `pre` after `P_SpawnMobj` of type `t` at `(x, y, z)` made
/// thing `r`: the things are [`spawn_things`], `r` heads its sector's and
/// cell's lists (as its flags allow), one random number was drawn, and `r`
/// thinks; nothing else changed.
pub open spec fn spawned<C: SpawnContext>(pre: C, post: C, x: Fixed, y: Fixed, z: Fixed, t: usize, r: usize) -> bool {
    let info = pre.info_view(t);
    let sec = pre.subsectors_view()[pre.subsector_at(x, y) as int];
    let cell = cell_of(pre, x, y);
    &&& r <= pre.mobjs_view().len()
    &&& post.mobjs_view() == spawn_things(pre, x, y, z, t, r, pre.rng_view().next_p())
    &&& post.heads_view() == if info.flags & MF_NOSECTOR == 0 { pre.heads_view().update(sec as int, Some(r)) } else { pre.heads_view() }
    &&& post.links_view() == if info.flags & MF_NOBLOCKMAP == 0 && cell is Some {
        pre.links_view().update(cell->0, Some(r))
    } else {
        pre.links_view()
    }
    &&& post.rng_view() == pre.rng_view().advanced()
    &&& post.requests() == pre.requests().push(SpawnEvent::AddThinker { mobj: r })
    &&& post.thinker_view(r) == ActionFn::MobjThinker
    &&& forall|i: usize| i != r ==> #[trigger] post.thinker_view(i) == pre.thinker_view(i)
    &&& forall|i: usize| #[trigger] post.spawnpoint_view(i) == pre.spawnpoint_view(i)
    &&& post.players_view() == pre.players_view()
    &&& post.starts_view() == pre.starts_view()
    &&& post.dm_starts_view() == pre.dm_starts_view()
    &&& post.que_view() == pre.que_view()
    &&& post.que_head_view() == pre.que_head_view()
    &&& post.que_tail_view() == pre.que_tail_view()
    &&& spawn_static(pre, post)
}

/// The blockmap cell of `(x, y)` ([`cell_of`]).
fn cell_at<C: SpawnContext>(ctx: &C, x: Fixed, y: Fixed) -> (r: Option<usize>)
    requires
        spawn_ok(*ctx),
    ensures
        r is Some <==> cell_of(*ctx, x, y) is Some,
        r matches Some(c) ==> c == cell_of(*ctx, x, y)->0 && c < ctx.links_view().len(),
{
    let bx = x.0.wrapping_sub(ctx.bmap_orgx().0) >> 23i32;
    let by = y.0.wrapping_sub(ctx.bmap_orgy().0) >> 23i32;
    let w = ctx.bmap_width();
    let h = ctx.bmap_height();
    if 0 <= bx && bx < w && 0 <= by && by < h {
        let ghost links = ctx.links_view().len();
        assert(by * w + bx < w * h) by (nonlinear_arith)
            requires
                0 <= bx < w,
                0 <= by < h,
        ;
        assert(0 <= by * w + bx) by (nonlinear_arith)
            requires
                0 <= bx,
                0 <= by,
                0 <= w,
        ;
        assert(links == w * h);
        let c = (by as usize) * (w as usize) + (bx as usize);
        Some(c)
    } else {
        None
    }
}

/// `P_SpawnMobj`: a new thing of type `mobj_type` at `(x, y, z)` (see
/// [`spawned`] and [`new_thing`]); returns its index.
pub fn p_spawn_mobj<C: SpawnContext>(x: Fixed, y: Fixed, z: Fixed, mobj_type: usize, ctx: &mut C) -> (r: usize)
    requires
        spawn_ok(*old(ctx)),
    ensures
        spawned(*old(ctx), *final(ctx), x, y, z, mobj_type, r),
        spawn_ok(*final(ctx)),
        r < final(ctx).mobjs_view().len(),
{
    let ghost pre = *ctx;
    let info = ctx.thing_info(mobj_type);
    let st = ctx.state(info.spawnstate);
    let game = ctx.game();
    let ss = ctx.point_in_subsector(x, y);
    let sec = ctx.subsector_sector(ss);
    let floorz = ctx.sector_floor(sec);
    let ceilingz = ctx.sector_ceiling(sec);
    let shead = ctx.sector_head(sec);
    let cell = cell_at(ctx, x, y);
    let bhead = match cell {
        Some(c) => ctx.blocklink(c),
        None => None,
    };
    let r = ctx.alloc_mobj();
    let look = ctx.p_random();
    let zz = if z.0 == ONFLOORZ {
        floorz
    } else if z.0 == ONCEILINGZ {
        Fixed(ceilingz.0.wrapping_sub(info.height))
    } else {
        z
    };
    let m = MapObject {
        x,
        y,
        z: zz,
        snext: if info.flags & MF_NOSECTOR == 0 { shead } else { None },
        sprev: None,
        angle: Angle(0),
        sprite: st.sprite,
        frame: st.frame,
        bnext: if info.flags & MF_NOBLOCKMAP == 0 && cell.is_some() { bhead } else { None },
        bprev: None,
        subsector: Some(ss),
        floorz,
        ceilingz,
        radius: Fixed(info.radius),
        height: Fixed(info.height),
        momx: Fixed(0),
        momy: Fixed(0),
        momz: Fixed(0),
        validcount: 0,
        type_: mobj_type,
        tics: st.tics,
        state: Some(info.spawnstate),
        flags: info.flags,
        health: info.spawnhealth,
        movedir: 0,
        movecount: 0,
        target: None,
        reactiontime: if game.skill != Skill::Nightmare { info.reactiontime } else { 0 },
        threshold: 0,
        player: None,
        lastlook: (look % 4) as i32,
        tracer: None,
    };
    assert(m == new_thing(pre, x, y, z, mobj_type, pre.rng_view().next_p()));
    ctx.set_mobj(r, m);
    if info.flags & MF_NOSECTOR == 0 {
        ctx.set_sector_head(sec, Some(r));
        if let Some(h) = shead {
            if h < ctx.mobjs().len() {
                let hm = ctx.mobjs()[h];
                ctx.set_mobj(h, MapObject { sprev: Some(r), ..hm });
            }
        }
    }
    assert(ctx.mobjs_view() == if info.flags & MF_NOSECTOR == 0 {
        put_behind(allocated(pre.mobjs_view(), r).update(r as int, m), shead, r, true)
    } else {
        allocated(pre.mobjs_view(), r).update(r as int, m)
    });
    if info.flags & MF_NOBLOCKMAP == 0 {
        if let Some(c) = cell {
            ctx.set_blocklink(c, Some(r));
            if let Some(h) = bhead {
                if h < ctx.mobjs().len() {
                    let hm = ctx.mobjs()[h];
                    ctx.set_mobj(h, MapObject { bprev: Some(r), ..hm });
                }
            }
        }
    }
    ctx.p_add_thinker(r);
    proof {
        lemma_spawn_ok(pre, *ctx);
    }
    r
}

// ---------------------------------------------------------------------------
// P_RemoveMobj
// ---------------------------------------------------------------------------

/// Whether removing `m` puts it in the item respawn queue: a special item
/// that no monster dropped, other than the two spheres.
pub open spec fn respawns(m: MapObject) -> bool {
    m.flags & MF_SPECIAL != 0 && m.flags & MF_DROPPED == 0 && m.type_ != MT_INV && m.type_ != MT_INS
}

/// `ms` with thing `i`, if it exists, given link `v`: its sector-list
/// back link (`k` 0), forward link (1), blockmap back link (2) or forward
/// link (3).
pub open spec fn with_link(ms: Seq<MapObject>, i: Option<usize>, v: Option<usize>, k: int) -> Seq<MapObject> {
    if i is Some && i->0 < ms.len() {
        let n = i->0 as int;
        ms.update(
            n,
            if k == 0 {
                MapObject { sprev: v, ..ms[n] }
            } else if k == 1 {
                MapObject { snext: v, ..ms[n] }
            } else if k == 2 {
                MapObject { bprev: v, ..ms[n] }
            } else {
                MapObject { bnext: v, ..ms[n] }
            },
        )
    } else {
        ms
    }
}

/// The things after `m` left its lists: in each list it is kept in, its
/// neighbours are joined around it.
pub open spec fn removed_things(ms: Seq<MapObject>, m: MapObject) -> Seq<MapObject> {
    let a = if m.flags & MF_NOSECTOR == 0 { with_link(with_link(ms, m.snext, m.sprev, 0), m.sprev, m.snext, 1) } else { ms };
    if m.flags & MF_NOBLOCKMAP == 0 {
        with_link(with_link(a, m.bnext, m.bprev, 2), m.bprev, m.bnext, 3)
    } else {
        a
    }
}

/// The sector list heads after `m` left: the list it headed starts at its
/// successor.
pub open spec fn removed_heads<C: SpawnContext>(ctx: C, m: MapObject) -> Seq<Option<usize>> {
    if m.flags & MF_NOSECTOR == 0 && m.sprev is None && m.subsector is Some && m.subsector->0 < ctx.subsectors_view().len() {
        ctx.heads_view().update(ctx.subsectors_view()[m.subsector->0 as int] as int, m.snext)
    } else {
        ctx.heads_view()
    }
}

/// The blockmap cell heads after `m` left: the list it headed starts at
/// its successor.
pub open spec fn removed_links<C: SpawnContext>(ctx: C, m: MapObject) -> Seq<Option<usize>> {
    if m.flags & MF_NOBLOCKMAP == 0 && m.bprev is None && cell_of(ctx, m.x, m.y) is Some {
        ctx.links_view().update(cell_of(ctx, m.x, m.y)->0, m.bnext)
    } else {
        ctx.links_view()
    }
}

/// The next slot of the item respawn queue after `i`.
pub open spec fn que_next(i: usize) -> usize {
    ((i + 1) as usize) & 127usize
}

fn next_slot(i: usize) -> (r: usize)
    requires
        i < ITEMQUESIZE,
    ensures
        r == que_next(i),
        r < ITEMQUESIZE,
{
    let n = i + 1;
    assert(n & 127usize < 128) by (bit_vector);
    n & 127
}

/// `post` is `pre` after `P_RemoveMobj` of thing `i`: a respawning item
/// ([`respawns`]) is queued with the time, dropping the oldest entry when
/// the queue is full; the thing leaves its lists; its sound stops and its
/// thinker is removed.
pub open spec fn removed<C: SpawnContext>(pre: C, post: C, i: usize) -> bool {
    removed_from(pre, post, i, pre.mobjs_view())
}

/// [`removed`], with the things as `ms` just before.
pub open spec fn removed_from<C: SpawnContext>(pre: C, post: C, i: usize, ms: Seq<MapObject>) -> bool {
    let m = ms[i as int];
    let h = pre.que_head_view();
    let t = pre.que_tail_view();
    &&& post.mobjs_view() == removed_things(ms, m)
    &&& post.heads_view() == removed_heads(pre, m)
    &&& post.links_view() == removed_links(pre, m)
    &&& if respawns(m) {
        &&& post.que_view() == pre.que_view().update(h as int, (pre.spawnpoint_view(i), pre.game_view().leveltime))
        &&& post.que_head_view() == que_next(h)
        &&& post.que_tail_view() == if que_next(h) == t { que_next(t) } else { t }
    } else {
        &&& post.que_view() == pre.que_view()
        &&& post.que_head_view() == h
        &&& post.que_tail_view() == t
    }
    &&& post.requests() == pre.requests().push(SpawnEvent::StopSound { origin: i }).push(SpawnEvent::RemoveThinker { mobj: i })
    &&& post.thinker_view(i) == ActionFn::PendingRemoval
    &&& forall|k: usize| k != i ==> #[trigger] post.thinker_view(k) == pre.thinker_view(k)
    &&& forall|k: usize| #[trigger] post.spawnpoint_view(k) == pre.spawnpoint_view(k)
    &&& post.players_view() == pre.players_view()
    &&& post.starts_view() == pre.starts_view()
    &&& post.dm_starts_view() == pre.dm_starts_view()
    &&& post.rng_view() == pre.rng_view()
    &&& spawn_static(pre, post)
}

/// Give thing `i`, if it exists, link `v` (see [`with_link`]).
fn set_link<C: SpawnContext>(ctx: &mut C, i: Option<usize>, v: Option<usize>, k: u8)
    requires
        k < 4,
    ensures
        final(ctx).mobjs_view() == with_link(old(ctx).mobjs_view(), i, v, k as int),
        final(ctx).heads_view() == old(ctx).heads_view(),
        final(ctx).links_view() == old(ctx).links_view(),
        final(ctx).que_view() == old(ctx).que_view(),
        final(ctx).que_head_view() == old(ctx).que_head_view(),
        final(ctx).que_tail_view() == old(ctx).que_tail_view(),
        final(ctx).requests() == old(ctx).requests(),
        forall|k: usize| #[trigger] final(ctx).thinker_view(k) == old(ctx).thinker_view(k),
        forall|k: usize| #[trigger] final(ctx).spawnpoint_view(k) == old(ctx).spawnpoint_view(k),
        final(ctx).players_view() == old(ctx).players_view(),
        final(ctx).starts_view() == old(ctx).starts_view(),
        final(ctx).dm_starts_view() == old(ctx).dm_starts_view(),
        final(ctx).rng_view() == old(ctx).rng_view(),
        spawn_static(*old(ctx), *final(ctx)),
{
    if let Some(n) = i {
        if n < ctx.mobjs().len() {
            let m = ctx.mobjs()[n];
            let nm = if k == 0 {
                MapObject { sprev: v, ..m }
            } else if k == 1 {
                MapObject { snext: v, ..m }
            } else if k == 2 {
                MapObject { bprev: v, ..m }
            } else {
                MapObject { bnext: v, ..m }
            };
            ctx.set_mobj(n, nm);
        }
    }
}

/// `P_RemoveMobj`: see [`removed`].
pub fn p_remove_mobj<C: SpawnContext>(mobj_idx: usize, ctx: &mut C)
    requires
        mobj_idx < old(ctx).mobjs_view().len(),
        spawn_ok(*old(ctx)),
    ensures
        removed(*old(ctx), *final(ctx), mobj_idx),
        spawn_ok(*final(ctx)),
{
    let ghost pre = *ctx;
    let m = ctx.mobjs()[mobj_idx];
    if m.flags & MF_SPECIAL != 0 && m.flags & MF_DROPPED == 0 && m.type_ != MT_INV && m.type_ != MT_INS {
        let head = ctx.que_head();
        let sp = ctx.spawnpoint(mobj_idx);
        let time = ctx.game().leveltime;
        ctx.set_que(head, sp, time);
        let nh = next_slot(head);
        ctx.set_que_head(nh);
        let tail = ctx.que_tail();
        if nh == tail {
            let nt = next_slot(tail);
            ctx.set_que_tail(nt);
        }
    }
    let ghost mid = *ctx;
    if m.flags & MF_NOSECTOR == 0 {
        set_link(ctx, m.snext, m.sprev, 0);
        set_link(ctx, m.sprev, m.snext, 1);
        if m.sprev.is_none() {
            if let Some(ss) = m.subsector {
                if ss < ctx.subsector_count() {
                    let sec = ctx.subsector_sector(ss);
                    ctx.set_sector_head(sec, m.snext);
                }
            }
        }
    }
    if m.flags & MF_NOBLOCKMAP == 0 {
        set_link(ctx, m.bnext, m.bprev, 2);
        set_link(ctx, m.bprev, m.bnext, 3);
        if m.bprev.is_none() {
            if let Some(c) = cell_at(ctx, m.x, m.y) {
                ctx.set_blocklink(c, m.bnext);
            }
        }
    }
    ctx.s_stop_sound(mobj_idx);
    ctx.p_remove_thinker(mobj_idx);
    proof {
        lemma_spawn_ok(pre, *ctx);
    }
}

// ---------------------------------------------------------------------------
// P_SetMobjState
// ---------------------------------------------------------------------------

/// Thing `m` having entered state `st`, whose entry is `s`.
pub open spec fn entered(m: MapObject, st: usize, s: State) -> MapObject {
    MapObject { state: Some(st), tics: s.tics, sprite: s.sprite, frame: s.frame, ..m }
}

/// Everything but the things is as in `pre`.
pub open spec fn only_things<C: SpawnContext>(pre: C, post: C) -> bool {
    &&& post.heads_view() == pre.heads_view()
    &&& post.links_view() == pre.links_view()
    &&& post.que_view() == pre.que_view()
    &&& post.que_head_view() == pre.que_head_view()
    &&& post.que_tail_view() == pre.que_tail_view()
    &&& post.requests() == pre.requests()
    &&& forall|k: usize| #[trigger] post.thinker_view(k) == pre.thinker_view(k)
    &&& forall|k: usize| #[trigger] post.spawnpoint_view(k) == pre.spawnpoint_view(k)
    &&& post.players_view() == pre.players_view()
    &&& post.starts_view() == pre.starts_view()
    &&& post.dm_starts_view() == pre.dm_starts_view()
    &&& post.rng_view() == pre.rng_view()
    &&& spawn_static(pre, post)
}

/// `P_SetMobjState`: thing `mobj_idx` enters state `state`, runs its
/// action, and goes on through states that last no time; it is removed on
/// reaching the null state (false). A state with no action and a duration
/// is simply entered; entering the null state removes the thing at once
/// (see [`removed_from`]).
///
/// At most [`NUMSTATES`] states are entered in one call.
pub fn p_set_mobj_state<C: SpawnContext>(mobj_idx: usize, state: usize, ctx: &mut C) -> (r: bool)
    requires
        mobj_idx < old(ctx).mobjs_view().len(),
        spawn_ok(*old(ctx)),
    ensures
        spawn_ok(*final(ctx)),
        final(ctx).mobjs_view().len() >= old(ctx).mobjs_view().len(),
        final(ctx).requests().len() >= old(ctx).requests().len(),
        final(ctx).requests().subrange(0, old(ctx).requests().len() as int) == old(ctx).requests(),
        spawn_static(*old(ctx), *final(ctx)),
        state == S_NULL ==> !r && removed_from(
            *old(ctx),
            *final(ctx),
            mobj_idx,
            old(ctx).mobjs_view().update(mobj_idx as int, MapObject { state: None, ..old(ctx).mobjs_view()[mobj_idx as int] }),
        ),
        state != S_NULL && old(ctx).state_view(state).action == ActionFnId::NoAction && old(ctx).state_view(state).tics != 0 ==> {
            &&& r
            &&& final(ctx).mobjs_view() == old(ctx).mobjs_view().update(
                mobj_idx as int,
                entered(old(ctx).mobjs_view()[mobj_idx as int], state, old(ctx).state_view(state)),
            )
            &&& only_things(*old(ctx), *final(ctx))
        },
{
    let ghost pre = *ctx;
    let mut st = state;
    let mut n: usize = 0;
    while n < NUMSTATES
        invariant
            pre == *old(ctx),
            mobj_idx < ctx.mobjs_view().len(),
            spawn_ok(*ctx),
            ctx.mobjs_view().len() >= pre.mobjs_view().len(),
            ctx.requests().len() >= pre.requests().len(),
            ctx.requests().subrange(0, pre.requests().len() as int) == pre.requests(),
            spawn_static(pre, *ctx),
            n == 0 ==> st == state && *ctx == pre,
            n > 0 ==> state != S_NULL && !(pre.state_view(state).action == ActionFnId::NoAction && pre.state_view(state).tics != 0),
        decreases NUMSTATES - n,
    {
        if st == S_NULL {
            let ghost before = *ctx;
            let m = ctx.mobjs()[mobj_idx];
            ctx.set_mobj(mobj_idx, MapObject { state: None, ..m });
            proof {
                lemma_spawn_ok(before, *ctx);
            }
            let ghost mid = *ctx;
            p_remove_mobj(mobj_idx, ctx);
            proof {
                let mm = mid.mobjs_view()[mobj_idx as int];
                assert(removed_things(mid.mobjs_view(), mm).len() == mid.mobjs_view().len());
                assert(ctx.requests() == mid.requests().push(SpawnEvent::StopSound { origin: mobj_idx }).push(SpawnEvent::RemoveThinker { mobj: mobj_idx }));
                assert(ctx.requests().subrange(0, pre.requests().len() as int) =~= pre.requests());
                if n == 0 {
                    assert(removed_from(pre, *ctx, mobj_idx, mid.mobjs_view()));
                }
            }
            return false;
        }
        let s = ctx.state(st);
        let m = ctx.mobjs()[mobj_idx];
        let ghost before = *ctx;
        ctx.set_mobj(mobj_idx, MapObject { state: Some(st), tics: s.tics, sprite: s.sprite, frame: s.frame, ..m });
        proof {
            lemma_spawn_ok(before, *ctx);
        }
        if s.action != ActionFnId::NoAction {
            let ghost b2 = *ctx;
            ctx.run_action(mobj_idx, s.action);
            proof {
                lemma_spawn_ok(b2, *ctx);
            }
        }
        if ctx.mobjs()[mobj_idx].tics != 0 {
            return true;
        }
        st = s.nextstate;
        n += 1;
    }
    true
}

// ---------------------------------------------------------------------------
// Puffs, blood and missiles
// ---------------------------------------------------------------------------

/// A height `z` jittered by two random numbers, in 1/64 units.
pub open spec fn jittered(z: Fixed, r1: u8, r2: u8) -> Fixed {
    Fixed(z.0.wrapping_add(((r1 as int - r2 as int) * 1024) as i32))
}

/// Tics cut short by up to three, but at least one.
pub open spec fn cut_tics(tics: i32, r: u8) -> i32 {
    let t = tics - (r & 3u8) as int;
    if t < 1 { 1 } else { t as i32 }
}

fn cut(tics: i32, r: u8) -> (t: i32)
    ensures
        t == cut_tics(tics, r),
{
    let d = (r & 3) as i64;
    let v = tics as i64 - d;
    if v < 1 {
        1
    } else {
        v as i32
    }
}

/// What `P_SpawnPuff` or `P_SpawnBlood` makes at `(x, y, z)` of type `t`
/// rising at `momz`, as thing `th`: the thing spawned a jittered height
/// up, with its tics cut, before any shorter state is entered.
pub open spec fn splash<C: SpawnContext>(pre: C, x: Fixed, y: Fixed, z: Fixed, t: usize, momz: i32, th: usize) -> MapObject {
    let rng = pre.rng_view();
    let r1 = rng.next_p();
    let r2 = rng.advanced().next_p();
    let r3 = rng.advanced().advanced().next_p();
    let r4 = rng.advanced().advanced().advanced().next_p();
    let m = spawn_things(pre, x, y, jittered(z, r1, r2), t, th, r3)[th as int];
    MapObject { momz: Fixed(momz), tics: cut_tics(m.tics, r4), ..m }
}

/// Spawn the splash of [`splash`]; returns the new thing.
fn spawn_splash<C: SpawnContext>(x: Fixed, y: Fixed, z: Fixed, t: usize, momz: i32, ctx: &mut C) -> (th: usize)
    requires
        spawn_ok(*old(ctx)),
    ensures
        spawn_ok(*final(ctx)),
        th < final(ctx).mobjs_view().len(),
        final(ctx).mobjs_view().len() >= old(ctx).mobjs_view().len(),
        final(ctx).mobjs_view()[th as int] == splash(*old(ctx), x, y, z, t, momz, th),
        final(ctx).requests() == old(ctx).requests().push(SpawnEvent::AddThinker { mobj: th }),
        final(ctx).rng_view() == old(ctx).rng_view().advanced().advanced().advanced().advanced(),
        spawn_static(*old(ctx), *final(ctx)),
{
    let ghost pre = *ctx;
    let r1 = ctx.p_random();
    let r2 = ctx.p_random();
    let zz = Fixed(z.0.wrapping_add((r1 as i32 - r2 as i32) * 1024));
    proof {
        lemma_spawn_ok(pre, *ctx);
    }
    let th = p_spawn_mobj(x, y, zz, t, ctx);
    let m = ctx.mobjs()[th];
    let r4 = ctx.p_random();
    let tics = cut(m.tics, r4);
    let ghost b = *ctx;
    ctx.set_mobj(th, MapObject { momz: Fixed(momz), tics, ..m });
    proof {
        lemma_spawn_ok(b, *ctx);
    }
    th
}

/// `P_SpawnPuff`: a puff of smoke at `(x, y, z)` ([`splash`] of a rising
/// [`MT_PUFF`]), entering the short puff state at melee range; returns it.
pub fn p_spawn_puff<C: SpawnContext>(x: Fixed, y: Fixed, z: Fixed, at_melee_range: bool, ctx: &mut C) -> (th: usize)
    requires
        spawn_ok(*old(ctx)),
    ensures
        spawn_ok(*final(ctx)),
        th < final(ctx).mobjs_view().len(),
        final(ctx).requests().len() > old(ctx).requests().len(),
        final(ctx).requests()[old(ctx).requests().len() as int] == (SpawnEvent::AddThinker { mobj: th }),
        !at_melee_range ==> final(ctx).mobjs_view()[th as int] == splash(*old(ctx), x, y, z, MT_PUFF, FRACUNIT, th),
        !at_melee_range ==> final(ctx).rng_view() == old(ctx).rng_view().advanced().advanced().advanced().advanced(),
{
    let th = spawn_splash(x, y, z, MT_PUFF, FRACUNIT, ctx);
    if at_melee_range {
        let ghost b = ctx.requests();
        p_set_mobj_state(th, S_PUFF3, ctx);
        assert(ctx.requests()[b.len() - 1] == b[b.len() - 1]);
    }
    th
}

/// `P_SpawnBlood`: a blood splat at `(x, y, z)` ([`splash`] of a faster
/// rising [`MT_BLOOD`]); a hit of 9 to 12 damage enters the smaller splat
/// state, less the smallest. Returns the splat.
pub fn p_spawn_blood<C: SpawnContext>(x: Fixed, y: Fixed, z: Fixed, damage: i32, ctx: &mut C) -> (th: usize)
    requires
        spawn_ok(*old(ctx)),
    ensures
        spawn_ok(*final(ctx)),
        th < final(ctx).mobjs_view().len(),
        final(ctx).requests().len() > old(ctx).requests().len(),
        final(ctx).requests()[old(ctx).requests().len() as int] == (SpawnEvent::AddThinker { mobj: th }),
        damage > 12 ==> final(ctx).mobjs_view()[th as int] == splash(*old(ctx), x, y, z, MT_BLOOD, 131072i32, th),
        damage > 12 ==> final(ctx).rng_view() == old(ctx).rng_view().advanced().advanced().advanced().advanced(),
{
    let th = spawn_splash(x, y, z, MT_BLOOD, 2 * FRACUNIT, ctx);
    let ghost b = ctx.requests();
    if 9 <= damage && damage <= 12 {
        p_set_mobj_state(th, S_BLOOD2, ctx);
        assert(ctx.requests()[b.len() - 1] == b[b.len() - 1]);
    } else if damage < 9 {
        p_set_mobj_state(th, S_BLOOD3, ctx);
        assert(ctx.requests()[b.len() - 1] == b[b.len() - 1]);
    }
    th
}

/// Where a missile `m` first checks its path: half its momentum ahead.
pub open spec fn half_step(m: MapObject) -> (Fixed, Fixed, Fixed) {
    (
        Fixed(m.x.0.wrapping_add(m.momx.0 >> 1i32)),
        Fixed(m.y.0.wrapping_add(m.momy.0 >> 1i32)),
        Fixed(m.z.0.wrapping_add(m.momz.0 >> 1i32)),
    )
}

/// `P_CheckMissileSpawn`: a new missile's tics are cut by a random amount
/// ([`cut_tics`]), it moves half a step ([`half_step`]) and tries to move
/// there; if it cannot, it explodes (false).
pub fn p_check_missile_spawn<C: SpawnContext>(th_idx: usize, ctx: &mut C) -> (r: bool)
    requires
        th_idx < old(ctx).mobjs_view().len(),
        spawn_ok(*old(ctx)),
    ensures
        spawn_ok(*final(ctx)),
        final(ctx).mobjs_view().len() >= old(ctx).mobjs_view().len(),
        spawn_static(*old(ctx), *final(ctx)),
        final(ctx).requests() == old(ctx).requests().push(SpawnEvent::TryMove {
            mobj: th_idx,
            x: half_step(old(ctx).mobjs_view()[th_idx as int]).0,
            y: half_step(old(ctx).mobjs_view()[th_idx as int]).1,
            moved: r,
        }) + if r { Seq::empty() } else { seq![SpawnEvent::Explode { mobj: th_idx }] },
{
    let ghost pre = *ctx;
    let m = ctx.mobjs()[th_idx];
    let rn = ctx.p_random();
    let tics = cut(m.tics, rn);
    let x = Fixed(m.x.0.wrapping_add(m.momx.0 >> 1i32));
    let y = Fixed(m.y.0.wrapping_add(m.momy.0 >> 1i32));
    let z = Fixed(m.z.0.wrapping_add(m.momz.0 >> 1i32));
    let ghost b = *ctx;
    ctx.set_mobj(th_idx, MapObject { tics, x, y, z, ..m });
    proof {
        lemma_spawn_ok(b, *ctx);
    }
    let ghost b2 = *ctx;
    let moved = ctx.p_try_move(th_idx, x, y);
    proof {
        lemma_spawn_ok(b2, *ctx);
    }
    if !moved {
        let ghost b3 = *ctx;
        ctx.p_explode_missile(th_idx);
        proof {
            lemma_spawn_ok(b3, *ctx);
        }
        assert(ctx.requests() =~= pre.requests().push(SpawnEvent::TryMove { mobj: th_idx, x, y, moved }) + seq![SpawnEvent::Explode { mobj: th_idx }]);
        return false;
    }
    assert(ctx.requests() =~= pre.requests().push(SpawnEvent::TryMove { mobj: th_idx, x, y, moved }) + Seq::empty());
    true
}

/// The fine angle of an angle.
pub open spec fn fine_of(a: Angle) -> usize {
    (a.0 >> 19u32) as usize
}

/// A missile's momentum along `an` at `speed`, from the sine table.
pub open spec fn launch_mom<C: SpawnContext>(ctx: C, an: Angle, speed: i32) -> (Fixed, Fixed) {
    (
        Fixed(fixed_mul_spec(speed, ctx.sine_view((fine_of(an) + 2048) as usize).0)),
        Fixed(fixed_mul_spec(speed, ctx.sine_view(fine_of(an)).0)),
    )
}

fn launch<C: SpawnContext>(ctx: &C, an: Angle, speed: i32) -> (r: (Fixed, Fixed))
    ensures
        r == launch_mom(*ctx, an, speed),
{
    let a = an.0;
    assert(a >> 19u32 < 8192) by (bit_vector);
    let fine = (a >> 19u32) as usize;
    (Fixed(speed).fixed_mul(ctx.fine_sine(fine + 2048)), Fixed(speed).fixed_mul(ctx.fine_sine(fine)))
}

/// The climb per tic of a missile from height `z0` to `z1` over offset
/// `(dx, dy)` at `speed`: the height difference spread over the tics the
/// estimated distance takes (at least one).
pub open spec fn climb(z0: i32, z1: i32, dx: i32, dy: i32, speed: i32) -> i32 {
    let q = trunc_div(aprox_distance(dx, dy), speed as int);
    let steps = if q < 1 { 1 } else { q };
    trunc_div(z1.wrapping_sub(z0) as int, steps) as i32
}

fn climb_of(z0: i32, z1: i32, dx: i32, dy: i32, speed: i32) -> (r: i32)
    requires
        speed != 0,
    ensures
        r == climb(z0, z1, dx, dy, speed),
{
    let adx = wrapping_abs_i64(dx);
    let ady = wrapping_abs_i64(dy);
    let big: i64 = if adx < ady { ady } else { adx };
    let small: i64 = if adx < ady { adx } else { ady };
    let oct: i64 = big - big / 8 + small / 2;
    let d: i64 = if oct > big { oct } else { big };
    assert(d == aprox_distance(dx, dy));
    let q = div_toward_zero(d, speed as i64);
    let steps: i64 = if q < 1 { 1 } else { q };
    let num = z1.wrapping_sub(z0) as i64;
    let v = div_toward_zero(num, steps);
    assert(i32::MIN <= v <= i32::MAX) by (nonlinear_arith)
        requires
            v == trunc_div(num as int, steps as int),
            steps >= 1,
            i32::MIN <= num <= i32::MAX,
    {
        assert(crate::inter::abs(num as int) / crate::inter::abs(steps as int) <= crate::inter::abs(num as int)) by (nonlinear_arith)
            requires steps >= 1;
    }
    v as i32
}

/// [`wrapping_abs`] in 64 bits.
fn wrapping_abs_i64(v: i32) -> (r: i64)
    ensures
        r == wrapping_abs(v),
        -2147483648 <= r <= 2147483647,
{
    if v == i32::MIN {
        v as i64
    } else if v < 0 {
        -(v as i64)
    } else {
        v as i64
    }
}

/// The angle from `s` toward `d`, scattered by two random numbers when
/// `d` is a shadow.
pub open spec fn aimed_angle<C: SpawnContext>(ctx: C, s: MapObject, d: MapObject) -> Angle {
    let an = ctx.angle_view(Fixed(d.x.0.wrapping_sub(s.x.0)), Fixed(d.y.0.wrapping_sub(s.y.0)));
    if d.flags & MF_SHADOW != 0 {
        let r1 = ctx.rng_view().next_p();
        let r2 = ctx.rng_view().advanced().next_p();
        Angle(an.0.wrapping_add(((r1 as int - r2 as int) * 1048576) as u32))
    } else {
        an
    }
}

/// The angle a monster's missile from `s` toward `d` flies at: straight
/// at `d`, scattered by the next two numbers of `rng` when `d` is a
/// shadow.
pub open spec fn fire_angle<C: SpawnContext>(ctx: C, s: MapObject, d: MapObject, rng: DoomRandom) -> Angle {
    let an = ctx.angle_view(Fixed(d.x.0.wrapping_sub(s.x.0)), Fixed(d.y.0.wrapping_sub(s.y.0)));
    if d.flags & MF_SHADOW != 0 {
        Angle(an.0.wrapping_add(((rng.next_p() as int - rng.advanced().next_p() as int) * 1048576) as u32))
    } else {
        an
    }
}

/// The missile `th` of type `t` that `P_SpawnMissile` fires from `src` at
/// `dest`, just before its first move: spawned 32 units above `src`,
/// owned by `src`, flying at [`fire_angle`] with the type's speed and
/// climbing toward `dest` ([`climb`]).
pub open spec fn fired<C: SpawnContext>(pre: C, src: usize, dest: usize, t: usize, th: usize) -> MapObject {
    let s = pre.mobjs_view()[src as int];
    let info = pre.info_view(t);
    let ms = spawn_things(pre, s.x, s.y, Fixed(s.z.0.wrapping_add(2097152i32)), t, th, pre.rng_view().next_p());
    let d = ms[dest as int];
    let an = fire_angle(pre, s, d, pre.rng_view().advanced());
    let (momx, momy) = launch_mom(pre, an, info.speed);
    MapObject {
        target: Some(src),
        angle: an,
        momx,
        momy,
        momz: Fixed(climb(s.z.0, d.z.0, d.x.0.wrapping_sub(s.x.0), d.y.0.wrapping_sub(s.y.0), info.speed)),
        ..ms[th as int]
    }
}

/// The requests a missile launch makes before its first move: its
/// thinker, then its see sound if it has one.
pub open spec fn launch_requests(th: usize, seesound: SfxEnum) -> Seq<SpawnEvent> {
    seq![SpawnEvent::AddThinker { mobj: th }] + if seesound != SfxEnum::sfx_None {
        seq![SpawnEvent::Sound { origin: Some(th), sfx: seesound }]
    } else {
        Seq::empty()
    }
}

/// `e` is the first move of missile `th`, at `m`, toward [`half_step`],
/// followed by its explosion if the move failed.
pub open spec fn first_move(e: Seq<SpawnEvent>, th: usize, m: MapObject) -> bool {
    exists|moved: bool| e == seq![SpawnEvent::TryMove { mobj: th, x: half_step(m).0, y: half_step(m).1, moved }]
        + if moved { Seq::empty() } else { seq![SpawnEvent::Explode { mobj: th }] }
}

/// `P_SpawnMissile`: fire a missile of type `mobj_type` from `source_idx`
/// at `dest_idx` ([`fired`]); it checks its first move at once
/// ([`p_check_missile_spawn`]). Returns the missile.
pub fn p_spawn_missile<C: SpawnContext>(source_idx: usize, dest_idx: usize, mobj_type: usize, ctx: &mut C) -> (th: usize)
    requires
        source_idx < old(ctx).mobjs_view().len(),
        dest_idx < old(ctx).mobjs_view().len(),
        old(ctx).info_view(mobj_type).speed != 0,
        spawn_ok(*old(ctx)),
    ensures
        spawn_ok(*final(ctx)),
        th < final(ctx).mobjs_view().len(),
        final(ctx).mobjs_view().len() >= old(ctx).mobjs_view().len(),
        ({
            let n = old(ctx).requests().len() as int;
            let l = launch_requests(th, old(ctx).info_view(mobj_type).seesound);
            &&& final(ctx).requests().len() >= n + l.len()
            &&& final(ctx).requests().subrange(0, n + l.len()) == old(ctx).requests() + l
            &&& first_move(final(ctx).requests().subrange(n + l.len(), final(ctx).requests().len() as int), th, fired(*old(ctx), source_idx, dest_idx, mobj_type, th))
        }),
{
    let ghost pre = *ctx;
    let s = ctx.mobjs()[source_idx];
    let info = ctx.thing_info(mobj_type);
    let th = p_spawn_mobj(s.x, s.y, Fixed(s.z.0.wrapping_add(2097152)), mobj_type, ctx);
    let ghost spawned_at = *ctx;
    if info.seesound != SfxEnum::sfx_None {
        ctx.s_start_sound(Some(th), info.seesound);
    }
    let m = ctx.mobjs()[th];
    ctx.set_mobj(th, MapObject { target: Some(source_idx), ..m });
    let d = ctx.mobjs()[dest_idx];
    let dx = d.x.0.wrapping_sub(s.x.0);
    let dy = d.y.0.wrapping_sub(s.y.0);
    let mut an = ctx.point_to_angle(Fixed(dx), Fixed(dy));
    if d.flags & MF_SHADOW != 0 {
        let r1 = ctx.p_random();
        let r2 = ctx.p_random();
        an = Angle(an.0.wrapping_add(#[verifier::truncate] (((r1 as i32 - r2 as i32) * 1048576) as u32)));
    }
    let (momx, momy) = launch(ctx, an, info.speed);
    let momz = climb_of(s.z.0, d.z.0, dx, dy, info.speed);
    let m2 = ctx.mobjs()[th];
    let ghost b = *ctx;
    ctx.set_mobj(th, MapObject { angle: an, momx, momy, momz: Fixed(momz), ..m2 });
    proof {
        lemma_spawn_ok(pre, spawned_at);
        lemma_spawn_ok(spawned_at, *ctx);
        assert(ctx.mobjs_view()[th as int] == fired(pre, source_idx, dest_idx, mobj_type, th));
    }
    let ghost before_move = ctx.requests();
    let moved = p_check_missile_spawn(th, ctx);
    proof {
        let n = pre.requests().len() as int;
        let l = launch_requests(th, info.seesound);
        assert(before_move =~= pre.requests() + l);
        assert(ctx.requests().subrange(0, n + l.len()) =~= pre.requests() + l);
        let rest = ctx.requests().subrange(n + l.len(), ctx.requests().len() as int);
        let mm = fired(pre, source_idx, dest_idx, mobj_type, th);
        assert(rest =~= seq![SpawnEvent::TryMove { mobj: th, x: half_step(mm).0, y: half_step(mm).1, moved }]
            + if moved { Seq::empty() } else { seq![SpawnEvent::Explode { mobj: th }] });
    }
    th
}

/// Hitscan and aiming reach: 2048 units.
pub const MISSILERANGE: i32 = 134217728;

/// `e` is a player's missile aim from `src` facing `a0`: straight ahead;
/// when that finds nothing, a little to one side; when that finds nothing
/// too, a little to the other.
pub open spec fn player_aims(e: Seq<SpawnEvent>, src: usize, a0: Angle) -> bool {
    let right = Angle(a0.0.wrapping_add(0x400_0000u32));
    let left = Angle(a0.0.wrapping_sub(0x400_0000u32));
    &&& e.len() >= 1
    &&& e[0] is Aim && e[0]->Aim_source == src && e[0]->Aim_angle == a0
    &&& e[0]->Aim_target is Some ==> e.len() == 1
    &&& e[0]->Aim_target is None ==> {
        &&& e.len() >= 2
        &&& e[1] is Aim && e[1]->Aim_source == src && e[1]->Aim_angle == right
        &&& e[1]->Aim_target is Some ==> e.len() == 2
        &&& e[1]->Aim_target is None ==> e.len() == 3 && e[2] is Aim && e[2]->Aim_source == src && e[2]->Aim_angle == left
    }
}

/// The angle and slope a player's missile flies at after aims `e`: those
/// of the aim that found a target, else straight ahead and level.
pub open spec fn aim_pick(e: Seq<SpawnEvent>, a0: Angle) -> (Angle, Fixed) {
    if e.last()->Aim_target is Some {
        (e.last()->Aim_angle, e.last()->Aim_slope)
    } else {
        (a0, Fixed(0))
    }
}

/// The missile `th` of type `t` a player's thing `src` fires along `an` at
/// `slope`, just before its first move.
pub open spec fn player_fired<C: SpawnContext>(pre: C, src: usize, t: usize, th: usize, an: Angle, slope: Fixed) -> MapObject {
    let s = pre.mobjs_view()[src as int];
    let info = pre.info_view(t);
    let ms = spawn_things(pre, s.x, s.y, Fixed(s.z.0.wrapping_add(2097152i32)), t, th, pre.rng_view().next_p());
    let (momx, momy) = launch_mom(pre, an, info.speed);
    MapObject { target: Some(src), angle: an, momx, momy, momz: Fixed(fixed_mul_spec(info.speed, slope.0)), ..ms[th as int] }
}

/// Requests `e` after those of `pre` are `k` aims ([`player_aims`]), the
/// launch of missile `th` along the aim picked ([`aim_pick`]), and its
/// first move ([`player_fired`], [`first_move`]).
pub open spec fn player_shot<C: SpawnContext>(pre: C, e: Seq<SpawnEvent>, src: usize, t: usize, k: int, th: usize) -> bool {
    let n = pre.requests().len() as int;
    let a0 = pre.mobjs_view()[src as int].angle;
    &&& 1 <= k <= 3
    &&& n + k <= e.len()
    &&& player_aims(e.subrange(n, n + k), src, a0)
    &&& {
        let (an, slope) = aim_pick(e.subrange(n, n + k), a0);
        let l = launch_requests(th, pre.info_view(t).seesound);
        &&& e.len() >= n + k + l.len()
        &&& e.subrange(n + k, n + k + l.len()) == l
        &&& first_move(e.subrange(n + k + l.len(), e.len() as int), th, player_fired(pre, src, t, th, an, slope))
    }
}

/// The aims of [`player_aims`] from `src` facing `a0`; returns the angle
/// and slope picked ([`aim_pick`]).
fn missile_aim<C: SpawnContext>(src: usize, a0: Angle, ctx: &mut C) -> (r: (Angle, Fixed))
    ensures
        final(ctx).requests().len() >= old(ctx).requests().len() + 1,
        final(ctx).requests().len() <= old(ctx).requests().len() + 3,
        final(ctx).requests().subrange(0, old(ctx).requests().len() as int) == old(ctx).requests(),
        player_aims(final(ctx).requests().subrange(old(ctx).requests().len() as int, final(ctx).requests().len() as int), src, a0),
        r == aim_pick(final(ctx).requests().subrange(old(ctx).requests().len() as int, final(ctx).requests().len() as int), a0),
        final(ctx).mobjs_view() == old(ctx).mobjs_view(),
        final(ctx).rng_view() == old(ctx).rng_view(),
        final(ctx).heads_view() == old(ctx).heads_view(),
        final(ctx).links_view() == old(ctx).links_view(),
        final(ctx).que_view() == old(ctx).que_view(),
        final(ctx).que_head_view() == old(ctx).que_head_view(),
        final(ctx).que_tail_view() == old(ctx).que_tail_view(),
        final(ctx).players_view() == old(ctx).players_view(),
        final(ctx).starts_view() == old(ctx).starts_view(),
        forall|i: usize| #[trigger] final(ctx).thinker_view(i) == old(ctx).thinker_view(i),
        forall|i: usize| #[trigger] final(ctx).spawnpoint_view(i) == old(ctx).spawnpoint_view(i),
        spawn_static(*old(ctx), *final(ctx)),
{
    let ghost pre = *ctx;
    let ghost n = pre.requests().len() as int;
    let (s1, t1) = ctx.p_aim_line_attack(src, a0, Fixed(MISSILERANGE));
    if t1.is_some() {
        assert(ctx.requests().subrange(n, n + 1) =~= seq![SpawnEvent::Aim { source: src, angle: a0, slope: s1, target: t1 }]);
        assert(ctx.requests().subrange(0, n) =~= pre.requests());
        return (a0, s1);
    }
    let right = Angle(a0.0.wrapping_add(0x400_0000));
    let (s2, t2) = ctx.p_aim_line_attack(src, right, Fixed(MISSILERANGE));
    if t2.is_some() {
        assert(ctx.requests().subrange(n, n + 2) =~= seq![
            SpawnEvent::Aim { source: src, angle: a0, slope: s1, target: t1 },
            SpawnEvent::Aim { source: src, angle: right, slope: s2, target: t2 },
        ]);
        assert(ctx.requests().subrange(0, n) =~= pre.requests());
        return (right, s2);
    }
    let left = Angle(a0.0.wrapping_sub(0x400_0000));
    let (s3, t3) = ctx.p_aim_line_attack(src, left, Fixed(MISSILERANGE));
    assert(ctx.requests().subrange(n, n + 3) =~= seq![
        SpawnEvent::Aim { source: src, angle: a0, slope: s1, target: t1 },
        SpawnEvent::Aim { source: src, angle: right, slope: s2, target: t2 },
        SpawnEvent::Aim { source: src, angle: left, slope: s3, target: t3 },
    ]);
    assert(ctx.requests().subrange(0, n) =~= pre.requests());
    if t3.is_some() {
        (left, s3)
    } else {
        (a0, Fixed(0))
    }
}

/// `P_SpawnPlayerMissile`: the player's thing `source_idx` aims
/// ([`player_aims`]) and fires a missile of type `mobj_type` along the aim
/// picked ([`aim_pick`], [`player_fired`]), which checks its first move.
pub fn p_spawn_player_missile<C: SpawnContext>(source_idx: usize, mobj_type: usize, ctx: &mut C)
    requires
        source_idx < old(ctx).mobjs_view().len(),
        spawn_ok(*old(ctx)),
    ensures
        spawn_ok(*final(ctx)),
        final(ctx).mobjs_view().len() >= old(ctx).mobjs_view().len(),
        ({
            let n = old(ctx).requests().len() as int;
            let e = final(ctx).requests();
            &&& e.len() >= n
            &&& e.subrange(0, n) == old(ctx).requests()
            &&& exists|k: int, th: usize| #[trigger] player_shot(*old(ctx), e, source_idx, mobj_type, k, th)
        }),
{
    let ghost pre = *ctx;
    let ghost n = pre.requests().len() as int;
    let s = ctx.mobjs()[source_idx];
    let a0 = s.angle;
    let (an, slope) = missile_aim(source_idx, a0, ctx);
    let ghost k = ctx.requests().len() - n;
    let ghost aims = ctx.requests().subrange(n, n + k);
    let ghost after_aims = *ctx;
    let info = ctx.thing_info(mobj_type);
    let th = p_spawn_mobj(s.x, s.y, Fixed(s.z.0.wrapping_add(2097152)), mobj_type, ctx);
    if info.seesound != SfxEnum::sfx_None {
        ctx.s_start_sound(Some(th), info.seesound);
    }
    let (momx, momy) = launch(ctx, an, info.speed);
    let m = ctx.mobjs()[th];
    ctx.set_mobj(th, MapObject { target: Some(source_idx), angle: an, momx, momy, momz: Fixed(info.speed).fixed_mul(slope), ..m });
    proof {
        lemma_spawn_ok(pre, *ctx);
        assert(spawn_things(after_aims, s.x, s.y, Fixed(s.z.0.wrapping_add(2097152i32)), mobj_type, th, after_aims.rng_view().next_p())
            == spawn_things(pre, s.x, s.y, Fixed(s.z.0.wrapping_add(2097152i32)), mobj_type, th, pre.rng_view().next_p()));
        assert(ctx.mobjs_view()[th as int] == player_fired(pre, source_idx, mobj_type, th, an, slope));
    }
    let ghost before_move = ctx.requests();
    let moved = p_check_missile_spawn(th, ctx);
    proof {
        let e = ctx.requests();
        let l = launch_requests(th, info.seesound);
        assert(before_move =~= pre.requests() + aims + l);
        assert(e.subrange(0, n) =~= pre.requests());
        assert(e.subrange(n, n + k) =~= aims);
        assert(e.subrange(n + k, n + k + l.len()) =~= l);
        let mm = player_fired(pre, source_idx, mobj_type, th, an, slope);
        assert(e.subrange(n + k + l.len(), e.len() as int) =~= seq![SpawnEvent::TryMove { mobj: th, x: half_step(mm).0, y: half_step(mm).1, moved }]
            + if moved { Seq::empty() } else { seq![SpawnEvent::Explode { mobj: th }] });
        assert(player_shot(pre, e, source_idx, mobj_type, k, th));
    }
}

// ---------------------------------------------------------------------------
// Map things and players
// ---------------------------------------------------------------------------

/// The first thing type at or after `i` whose editor number is `d`.
pub open spec fn find_type<C: SpawnContext>(ctx: C, d: i32, i: int) -> Option<usize>
    decreases NUMMOBJTYPES - i,
{
    if i < 0 || i >= NUMMOBJTYPES {
        None
    } else if ctx.info_view(i as usize).doomednum == d {
        Some(i as usize)
    } else {
        find_type(ctx, d, i + 1)
    }
}

proof fn lemma_find_type_bound<C: SpawnContext>(ctx: C, d: i32, i: int)
    ensures
        find_type(ctx, d, i) matches Some(t) ==> t < NUMMOBJTYPES,
    decreases NUMMOBJTYPES - i,
{
    if 0 <= i < NUMMOBJTYPES {
        lemma_find_type_bound(ctx, d, i + 1);
    }
}

/// The thing type with editor number `d`, if any.
pub fn type_of_doomednum<C: SpawnContext>(d: i32, ctx: &C) -> (r: Option<usize>)
    ensures
        r == find_type(*ctx, d, 0),
        r matches Some(t) ==> t < NUMMOBJTYPES,
{
    proof {
        lemma_find_type_bound(*ctx, d, 0);
    }
    let mut i: usize = 0;
    while i < NUMMOBJTYPES
        invariant
            i <= NUMMOBJTYPES,
            find_type(*ctx, d, 0) matches Some(t) ==> t < NUMMOBJTYPES,
            find_type(*ctx, d, 0) == find_type(*ctx, d, i as int),
        decreases NUMMOBJTYPES - i,
    {
        if ctx.thing_info(i).doomednum == d {
            return Some(i);
        }
        i += 1;
    }
    None
}

/// The map coordinate `v` in fixed point.
pub open spec fn map_coord(v: i16) -> Fixed {
    Fixed((v as int * 65536) as i32)
}

fn to_fixed(v: i16) -> (r: Fixed)
    ensures
        r == map_coord(v),
{
    Fixed((v as i32) * 65536)
}

/// The facing of a map thing: its angle in degrees, in eighths of a turn.
pub open spec fn map_angle(a: i16) -> Angle {
    Angle(ANG45.wrapping_mul((a as u32) / 45u32))
}

fn to_angle(a: i16) -> (r: Angle)
    ensures
        r == map_angle(a),
{
    Angle(ANG45.wrapping_mul((#[verifier::truncate] (a as u32)) / 45))
}

/// The skill bit a map thing's options must have to appear.
pub open spec fn skill_bit(skill: Skill) -> i16 {
    match skill {
        Skill::Baby => 1,
        Skill::Easy => 1,
        Skill::Medium => 2,
        Skill::Hard => 4,
        Skill::Nightmare => 4,
    }
}

/// What `P_SpawnMapThing` does with a map thing.
#[derive(Clone, Copy, Debug, PartialEq, Eq, Structural)]
pub enum MapThingPlan {
    /// A deathmatch start is recorded.
    DeathmatchStart,
    /// Player `n`'s start is recorded (and the player spawned outside
    /// deathmatch).
    PlayerStart { n: usize },
    /// Nothing appears.
    Skip,
    /// A thing of this type is spawned.
    Spawn { mobj_type: usize },
}

/// [`MapThingPlan`] of `mt`: deathmatch and player starts by type; then
/// things for net games only are skipped outside them, things not for
/// this skill are skipped, unknown types are skipped, deathmatch-only
/// things are skipped outside deathmatch, and monsters are skipped when
/// there are to be none.
pub open spec fn plan_of<C: SpawnContext>(ctx: C, mt: MapThing) -> MapThingPlan {
    let g = ctx.game_view();
    if mt.type_ == 11 {
        MapThingPlan::DeathmatchStart
    } else if 1 <= mt.type_ <= 4 {
        MapThingPlan::PlayerStart { n: (mt.type_ - 1) as usize }
    } else if mt.options & MTF_NOTSINGLE != 0 && !g.netgame {
        MapThingPlan::Skip
    } else if mt.options & skill_bit(g.skill) == 0 {
        MapThingPlan::Skip
    } else {
        match find_type(ctx, mt.type_ as i32, 0) {
            None => MapThingPlan::Skip,
            Some(t) => {
                let flags = ctx.info_view(t).flags;
                if g.deathmatch == 0 && flags & MF_NOTDMATCH != 0 {
                    MapThingPlan::Skip
                } else if g.nomonsters && (t == MT_SKULL || flags & MF_COUNTKILL != 0) {
                    MapThingPlan::Skip
                } else {
                    MapThingPlan::Spawn { mobj_type: t }
                }
            },
        }
    }
}

/// The decision of `P_SpawnMapThing`: see [`plan_of`].
pub fn map_thing_plan<C: SpawnContext>(mt: &MapThing, ctx: &C) -> (r: MapThingPlan)
    ensures
        r == plan_of(*ctx, *mt),
        r matches MapThingPlan::Spawn { mobj_type } ==> mobj_type < NUMMOBJTYPES,
{
    let g = ctx.game();
    if mt.type_ == 11 {
        return MapThingPlan::DeathmatchStart;
    }
    if 1 <= mt.type_ && mt.type_ <= 4 {
        return MapThingPlan::PlayerStart { n: (mt.type_ - 1) as usize };
    }
    if mt.options & MTF_NOTSINGLE != 0 && !g.netgame {
        return MapThingPlan::Skip;
    }
    let bit: i16 = match g.skill {
        Skill::Baby => 1,
        Skill::Easy => 1,
        Skill::Medium => 2,
        Skill::Hard => 4,
        Skill::Nightmare => 4,
    };
    if mt.options & bit == 0 {
        return MapThingPlan::Skip;
    }
    match type_of_doomednum(mt.type_ as i32, ctx) {
        None => MapThingPlan::Skip,
        Some(t) => {
            let flags = ctx.thing_info(t).flags;
            if g.deathmatch == 0 && flags & MF_NOTDMATCH != 0 {
                MapThingPlan::Skip
            } else if g.nomonsters && (t == MT_SKULL || flags & MF_COUNTKILL != 0) {
                MapThingPlan::Skip
            } else {
                MapThingPlan::Spawn { mobj_type: t }
            }
        },
    }
}

/// A placed map thing `m` (just spawned), given random number `r`: its
/// tics randomised so animations do not run in step, facing the map
/// thing's angle, and waiting in ambush when the options say so.
pub open spec fn placed(m: MapObject, mt: MapThing, r: u8) -> MapObject {
    MapObject {
        tics: if m.tics > 0 { (1 + (r as int % m.tics as int)) as i32 } else { m.tics },
        angle: map_angle(mt.angle),
        flags: if mt.options & MTF_AMBUSH != 0 { m.flags | MF_AMBUSH } else { m.flags },
        ..m
    }
}

/// The tally requests for a new thing with flags `flags`.
pub open spec fn tally_requests(flags: u32) -> Seq<SpawnEvent> {
    (if flags & MF_COUNTKILL != 0 { seq![SpawnEvent::TotalKill] } else { Seq::empty() }) + (if flags & MF_COUNTITEM != 0 {
        seq![SpawnEvent::TotalItem]
    } else {
        Seq::empty()
    })
}

/// `post` is `pre` after map thing `mt` was placed as thing `th` of type
/// `t`: spawned at its map position on the floor or ceiling, then
/// [`placed`]; counted in the tallies.
pub open spec fn thing_placed<C: SpawnContext>(pre: C, post: C, mt: MapThing, t: usize, th: usize) -> bool {
    let info = pre.info_view(t);
    let z = if info.flags & MF_SPAWNCEILING != 0 { Fixed(ONCEILINGZ) } else { Fixed(ONFLOORZ) };
    let ms = spawn_things(pre, map_coord(mt.x), map_coord(mt.y), z, t, th, pre.rng_view().next_p());
    let m = ms[th as int];
    let r = pre.rng_view().advanced().next_p();
    &&& th < ms.len()
    &&& post.mobjs_view() == ms.update(th as int, placed(m, mt, r))
    &&& post.rng_view() == if m.tics > 0 { pre.rng_view().advanced().advanced() } else { pre.rng_view().advanced() }
    &&& post.requests() == pre.requests().push(SpawnEvent::AddThinker { mobj: th }) + tally_requests(m.flags)
}

/// `P_SpawnMapThing`: as [`plan_of`] says, record a deathmatch start (up to
/// ten), record a player start and spawn the player outside deathmatch,
/// do nothing, or place a thing ([`thing_placed`]).
pub fn p_spawn_map_thing<C: SpawnContext>(mthing: &MapThing, ctx: &mut C)
    requires
        spawn_ok(*old(ctx)),
    ensures
        spawn_ok(*final(ctx)),
        spawn_static(*old(ctx), *final(ctx)),
        plan_of(*old(ctx), *mthing) == MapThingPlan::DeathmatchStart ==> {
            &&& final(ctx).dm_starts_view() == if old(ctx).dm_starts_view().len() < 10 {
                old(ctx).dm_starts_view().push(*mthing)
            } else {
                old(ctx).dm_starts_view()
            }
            &&& final(ctx).mobjs_view() == old(ctx).mobjs_view()
            &&& final(ctx).requests() == old(ctx).requests()
            &&& final(ctx).starts_view() == old(ctx).starts_view()
            &&& final(ctx).players_view() == old(ctx).players_view()
        },
        plan_of(*old(ctx), *mthing) matches MapThingPlan::PlayerStart { n } ==> {
            &&& final(ctx).starts_view()[n as int] == Some(*mthing)
            &&& old(ctx).game_view().deathmatch > 0 ==> {
                &&& final(ctx).mobjs_view() == old(ctx).mobjs_view()
                &&& final(ctx).requests() == old(ctx).requests()
                &&& final(ctx).starts_view() == old(ctx).starts_view().update(n as int, Some(*mthing))
                &&& final(ctx).players_view() == old(ctx).players_view()
                &&& final(ctx).dm_starts_view() == old(ctx).dm_starts_view()
            }
        },
        plan_of(*old(ctx), *mthing) == MapThingPlan::Skip ==> *final(ctx) == *old(ctx),
        plan_of(*old(ctx), *mthing) matches MapThingPlan::Spawn { mobj_type } ==> exists|th: usize| #[trigger] thing_placed(*old(ctx), *final(ctx), *mthing, mobj_type, th),
{
    let ghost pre = *ctx;
    match map_thing_plan(mthing, ctx) {
        MapThingPlan::DeathmatchStart => {
            if ctx.dm_start_count() < 10 {
                ctx.push_dm_start(*mthing);
            }
            proof {
                lemma_spawn_ok(pre, *ctx);
            }
        },
        MapThingPlan::PlayerStart { n } => {
            ctx.set_player_start(n, *mthing);
            proof {
                lemma_spawn_ok(pre, *ctx);
            }
            let ghost mid = *ctx;
            if ctx.game().deathmatch > 0 {
                return;
            }
            p_spawn_player(mthing, ctx);
            assert(ctx.starts_view() == mid.starts_view());
        },
        MapThingPlan::Skip => {},
        MapThingPlan::Spawn { mobj_type } => {
            let info = ctx.thing_info(mobj_type);
            let z = if info.flags & MF_SPAWNCEILING != 0 { Fixed(ONCEILINGZ) } else { Fixed(ONFLOORZ) };
            let x = to_fixed(mthing.x);
            let y = to_fixed(mthing.y);
            let th = p_spawn_mobj(x, y, z, mobj_type, ctx);
            let ghost sp = *ctx;
            let m = ctx.mobjs()[th];
            let mut tics = m.tics;
            if tics > 0 {
                let r = ctx.p_random();
                tics = 1 + (r as i32) % tics;
            }
            let angle = to_angle(mthing.angle);
            let flags = if mthing.options & MTF_AMBUSH != 0 { m.flags | MF_AMBUSH } else { m.flags };
            let ghost b = *ctx;
            ctx.set_mobj(th, MapObject { tics, angle, flags, ..m });
            proof {
                lemma_spawn_ok(b, *ctx);
            }
            let ghost before_tally = ctx.requests();
            if m.flags & MF_COUNTKILL != 0 {
                ctx.add_total_kills();
            }
            if m.flags & MF_COUNTITEM != 0 {
                ctx.add_total_items();
            }
            proof {
                lemma_spawn_ok(sp, *ctx);
                assert(ctx.requests() =~= before_tally + tally_requests(m.flags));
                assert(thing_placed(pre, *ctx, *mthing, mobj_type, th));
            }
        },
    }
}

/// Player `p` coming into the level with thing `th`: alive, nothing
/// pending, the view at standing height.
pub open spec fn joined(p: Player, th: usize) -> Player {
    Player {
        mobj: Some(th),
        playerstate: PlayerState::Live,
        refire: 0,
        message: None,
        damagecount: 0,
        bonuscount: 0,
        extralight: 0,
        fixedcolormap: 0,
        viewheight: Fixed(VIEWHEIGHT),
        ..p
    }
}

/// The thing `m` of player `n` starting at `mt`: colour-translated for
/// players after the first, facing the start's angle, the player's, with
/// the player's health.
pub open spec fn player_thing(m: MapObject, n: usize, mt: MapThing, health: i32) -> MapObject {
    MapObject {
        flags: if n > 0 { (m.flags & !MF_TRANSLATION) | ((n as u32) << 26u32) } else { m.flags },
        angle: map_angle(mt.angle),
        player: Some(n),
        health,
        ..m
    }
}

/// The player slot of a player start, when it is one of the four.
pub open spec fn start_slot(mt: MapThing) -> Option<usize> {
    if 1 <= mt.type_ <= 4 { Some((mt.type_ - 1) as usize) } else { None }
}

/// The requests of a player's arrival in slot `n` as thing `th`: a reborn
/// player starts over first; the thing thinks; the weapon comes up; the
/// console player's status bar and display start over.
pub open spec fn arrival_requests(n: usize, th: usize, reborn: bool, console: bool) -> Seq<SpawnEvent> {
    (if reborn { seq![SpawnEvent::Reborn { player: n }] } else { Seq::empty() }) + seq![
        SpawnEvent::AddThinker { mobj: th },
        SpawnEvent::SetupPsprites { player: n },
    ] + if console { seq![SpawnEvent::StatusBarStart, SpawnEvent::HudStart] } else { Seq::empty() }
}

/// The requests of `post` after `pre` are the arrival of player `n` as
/// thing `th` ([`arrival_requests`]).
pub open spec fn arrived<C: SpawnContext>(pre: C, post: C, n: usize, th: usize) -> bool {
    post.requests() == pre.requests() + arrival_requests(
        n,
        th,
        pre.players_view()[n as int].playerstate == PlayerState::Reborn,
        n == pre.game_view().consoleplayer,
    )
}

/// `P_SpawnPlayer`: a player in the game whose start `mthing` is comes in
/// as a new thing ([`player_thing`], [`joined`]), with every key in
/// deathmatch; others do not.
pub fn p_spawn_player<C: SpawnContext>(mthing: &MapThing, ctx: &mut C)
    requires
        mthing.type_ != 0,
        spawn_ok(*old(ctx)),
    ensures
        spawn_ok(*final(ctx)),
        spawn_static(*old(ctx), *final(ctx)),
        final(ctx).mobjs_view().len() >= old(ctx).mobjs_view().len(),
        final(ctx).starts_view() == old(ctx).starts_view(),
        final(ctx).dm_starts_view() == old(ctx).dm_starts_view(),
        match start_slot(*mthing) {
            None => *final(ctx) == *old(ctx),
            Some(n) => if !old(ctx).ingame_view()[n as int] {
                *final(ctx) == *old(ctx)
            } else {
                &&& exists|th: usize| #[trigger] arrived(*old(ctx), *final(ctx), n, th)
                &&& old(ctx).game_view().deathmatch > 0 ==> forall|c: int| 0 <= c < 6 ==> #[trigger] final(ctx).players_view()[n as int].cards@[c]
            },
        },
{
    let ghost pre = *ctx;
    if mthing.type_ < 1 || mthing.type_ > 4 {
        return;
    }
    let n = (mthing.type_ - 1) as usize;
    if !ctx.in_game(n) {
        return;
    }
    let reborn = ctx.players()[n].playerstate == PlayerState::Reborn;
    if reborn {
        ctx.g_player_reborn(n);
        proof {
            lemma_spawn_ok(pre, *ctx);
        }
    }
    let ghost r1 = ctx.requests();
    let x = to_fixed(mthing.x);
    let y = to_fixed(mthing.y);
    let th = p_spawn_mobj(x, y, Fixed(ONFLOORZ), MT_PLAYER, ctx);
    let m = ctx.mobjs()[th];
    let health = ctx.players()[n].health;
    let flags = if n > 0 { (m.flags & !MF_TRANSLATION) | ((n as u32) << 26u32) } else { m.flags };
    let ghost b = *ctx;
    ctx.set_mobj(th, MapObject { flags, angle: to_angle(mthing.angle), player: Some(n), health, ..m });
    let p = ctx.players()[n];
    ctx.set_player(
        n,
        Player {
            mobj: Some(th),
            playerstate: PlayerState::Live,
            refire: 0,
            message: None,
            damagecount: 0,
            bonuscount: 0,
            extralight: 0,
            fixedcolormap: 0,
            viewheight: Fixed(VIEWHEIGHT),
            ..p
        },
    );
    proof {
        lemma_spawn_ok(b, *ctx);
    }
    let ghost b2 = *ctx;
    ctx.p_setup_psprites(n);
    proof {
        lemma_spawn_ok(b2, *ctx);
    }
    let console = n == ctx.game().consoleplayer;
    if console {
        ctx.st_start();
        ctx.hu_start();
    }
    if ctx.game().deathmatch > 0 {
        let q = ctx.players()[n];
        ctx.set_player(n, Player { cards: [true; 6], ..q });
    }
    proof {
        lemma_spawn_ok(b2, *ctx);
        assert(ctx.requests() =~= pre.requests() + arrival_requests(
            n,
            th,
            pre.players_view()[n as int].playerstate == PlayerState::Reborn,
            n == pre.game_view().consoleplayer,
        ));
        assert(arrived(pre, *ctx, n, th));
    }
}

// ---------------------------------------------------------------------------
// Respawning
// ---------------------------------------------------------------------------

/// Whether an item is due back: in deathmatch mode 2, with the queue not
/// empty, and its oldest entry taken at least [`ITEM_RESPAWN_TICS`] ago.
pub open spec fn item_due<C: SpawnContext>(ctx: C) -> bool {
    let g = ctx.game_view();
    &&& g.deathmatch == 2
    &&& ctx.que_head_view() != ctx.que_tail_view()
    &&& g.leveltime.wrapping_sub(ctx.que_view()[ctx.que_tail_view() as int].1) >= ITEM_RESPAWN_TICS
}

/// The requests and result of an item coming back as thing `mo` (of a
/// known type), after item fog `fog` with its sound.
pub open spec fn item_back<C: SpawnContext>(pre: C, post: C, fog: usize, mo: usize) -> bool {
    let mt = pre.que_view()[pre.que_tail_view() as int].0;
    let fogged = pre.requests() + seq![SpawnEvent::AddThinker { mobj: fog }, SpawnEvent::Sound { origin: Some(fog), sfx: SfxEnum::sfx_itmbk }];
    &&& post.que_tail_view() == que_next(pre.que_tail_view())
    &&& match find_type(pre, mt.type_ as i32, 0) {
        None => post.requests() == fogged,
        Some(t) => {
            &&& post.requests() == fogged.push(SpawnEvent::AddThinker { mobj: mo })
            &&& mo < post.mobjs_view().len()
            &&& post.mobjs_view()[mo as int].type_ == t
            &&& post.mobjs_view()[mo as int].angle == map_angle(mt.angle)
        },
    }
}

/// `P_RespawnSpecials`: when an item is due back ([`item_due`]), item fog
/// appears where it was, with a sound, and the item reappears there
/// facing as placed ([`item_back`]); the queue moves on either way.
pub fn p_respawn_specials<C: SpawnContext>(ctx: &mut C)
    requires
        spawn_ok(*old(ctx)),
    ensures
        spawn_ok(*final(ctx)),
        spawn_static(*old(ctx), *final(ctx)),
        !item_due(*old(ctx)) ==> *final(ctx) == *old(ctx),
        item_due(*old(ctx)) ==> exists|fog: usize, mo: usize| #[trigger] item_back(*old(ctx), *final(ctx), fog, mo),
{
    let ghost pre = *ctx;
    let g = ctx.game();
    if g.deathmatch != 2 {
        return;
    }
    let head = ctx.que_head();
    let tail = ctx.que_tail();
    if head == tail {
        return;
    }
    let (mt, time) = ctx.que_entry(tail);
    if g.leveltime.wrapping_sub(time) < ITEM_RESPAWN_TICS {
        return;
    }
    let x = to_fixed(mt.x);
    let y = to_fixed(mt.y);
    let ss = ctx.point_in_subsector(x, y);
    let sec = ctx.subsector_sector(ss);
    let floorz = ctx.sector_floor(sec);
    let fog = p_spawn_mobj(x, y, floorz, MT_IFOG, ctx);
    ctx.s_start_sound(Some(fog), SfxEnum::sfx_itmbk);
    let ghost fogged = *ctx;
    let nt = next_slot(tail);
    match type_of_doomednum(mt.type_ as i32, ctx) {
        None => {
            ctx.set_que_tail(nt);
            proof {
                lemma_spawn_ok(pre, *ctx);
                lemma_find_type_same(pre, fogged, mt.type_ as i32, 0);
                assert(ctx.requests() =~= pre.requests() + seq![SpawnEvent::AddThinker { mobj: fog }, SpawnEvent::Sound { origin: Some(fog), sfx: SfxEnum::sfx_itmbk }]);
                assert(item_back(pre, *ctx, fog, 0));
            }
        },
        Some(t) => {
            let info = ctx.thing_info(t);
            let z = if info.flags & MF_SPAWNCEILING != 0 { Fixed(ONCEILINGZ) } else { Fixed(ONFLOORZ) };
            let mo = p_spawn_mobj(x, y, z, t, ctx);
            let m = ctx.mobjs()[mo];
            proof {
                let sp_things = spawn_things(fogged, x, y, z, t, mo, fogged.rng_view().next_p());
                assert(sp_things[mo as int].type_ == t);
                assert(m.type_ == t);
            }
            ctx.set_mobj(mo, MapObject { angle: to_angle(mt.angle), ..m });
            ctx.set_que_tail(nt);
            proof {
                assert(ctx.requests() =~= pre.requests() + seq![SpawnEvent::AddThinker { mobj: fog }, SpawnEvent::Sound { origin: Some(fog), sfx: SfxEnum::sfx_itmbk }].push(SpawnEvent::AddThinker { mobj: mo }));
                lemma_spawn_ok(pre, *ctx);
                assert(find_type(pre, mt.type_ as i32, 0) == find_type(fogged, mt.type_ as i32, 0)) by {
                    lemma_find_type_same(pre, fogged, mt.type_ as i32, 0);
                }
                assert(item_back(pre, *ctx, fog, mo));
            }
        },
    }
}

/// [`find_type`] reads only the info table.
proof fn lemma_find_type_same<C: SpawnContext>(a: C, b: C, d: i32, i: int)
    requires
        forall|t: usize| #[trigger] a.info_view(t) == b.info_view(t),
    ensures
        find_type(a, d, i) == find_type(b, d, i),
    decreases NUMMOBJTYPES - i,
{
    if 0 <= i < NUMMOBJTYPES {
        lemma_find_type_same(a, b, d, i + 1);
        assert(a.info_view(i as usize) == b.info_view(i as usize));
    }
}

/// `P_NightmareRespawn`: a dead monster comes back at its spawn point when
/// it fits there ([`respawned`]); it does not otherwise.
pub fn p_nightmare_respawn<C: SpawnContext>(mobj_idx: usize, ctx: &mut C)
    requires
        mobj_idx < old(ctx).mobjs_view().len(),
        spawn_ok(*old(ctx)),
    ensures
        spawn_ok(*final(ctx)),
        spawn_static(*old(ctx), *final(ctx)),
        final(ctx).mobjs_view().len() >= old(ctx).mobjs_view().len(),
        ({
            let sp = old(ctx).spawnpoint_view(mobj_idx);
            let n = old(ctx).requests().len() as int;
            &&& final(ctx).requests().len() > n
            &&& final(ctx).requests().subrange(0, n) == old(ctx).requests()
            &&& final(ctx).requests()[n] is CheckPosition
            &&& final(ctx).requests()[n]->CheckPosition_mobj == mobj_idx
            &&& final(ctx).requests()[n]->CheckPosition_x == map_coord(sp.x)
            &&& final(ctx).requests()[n]->CheckPosition_y == map_coord(sp.y)
            &&& !final(ctx).requests()[n]->fits ==> final(ctx).requests().len() == n + 1
        }),
{
    let ghost pre = *ctx;
    let ghost n = pre.requests().len() as int;
    let sp = ctx.spawnpoint(mobj_idx);
    let x = to_fixed(sp.x);
    let y = to_fixed(sp.y);
    let fits = ctx.p_check_position(mobj_idx, x, y);
    proof {
        lemma_spawn_ok(pre, *ctx);
    }
    let ghost checked = ctx.requests();
    if !fits {
        return;
    }
    come_back(mobj_idx, sp, x, y, ctx);
    proof {
        assert(ctx.requests().subrange(0, n) =~= ctx.requests().subrange(0, n + 1).subrange(0, n));
        assert(ctx.requests()[n] == checked[n]);
    }
}

/// `b` is `a` but for its list links.
pub open spec fn kept_but_links(a: MapObject, b: MapObject) -> bool {
    b == MapObject { snext: b.snext, sprev: b.sprev, bnext: b.bnext, bprev: b.bprev, ..a }
}

/// [`come_back`] of thing `i` placed as `sp`, from `pre` through `c`
/// (after the two fogs `fog1`, `fog2`, each with a sound) to `post`: when
/// the thing's type is known, new monster `nm` of that type, facing as
/// placed, in ambush if placed so, reacting after 18 tics; and thing `i`
/// removed.
pub open spec fn come_back_run<C: SpawnContext>(pre: C, c: C, post: C, i: usize, sp: MapThing, fog1: usize, fog2: usize, nm: usize) -> bool {
    let t = c.mobjs_view()[i as int].type_;
    &&& c.requests() == pre.requests() + seq![
        SpawnEvent::AddThinker { mobj: fog1 },
        SpawnEvent::Sound { origin: Some(fog1), sfx: SfxEnum::sfx_telept },
        SpawnEvent::AddThinker { mobj: fog2 },
        SpawnEvent::Sound { origin: Some(fog2), sfx: SfxEnum::sfx_telept },
    ]
    &&& if t >= NUMMOBJTYPES {
        post == c
    } else {
        &&& post.requests() == c.requests() + seq![
            SpawnEvent::AddThinker { mobj: nm },
            SpawnEvent::StopSound { origin: i },
            SpawnEvent::RemoveThinker { mobj: i },
        ]
        &&& nm < post.mobjs_view().len()
        &&& post.mobjs_view()[nm as int].angle == map_angle(sp.angle)
        &&& post.mobjs_view()[nm as int].reactiontime == 18
        &&& sp.options & MTF_AMBUSH != 0 ==> post.mobjs_view()[nm as int].flags & MF_AMBUSH != 0
        &&& post.thinker_view(i) == ActionFn::PendingRemoval
    }
}

/// The respawn itself, once thing `mobj_idx` fits at its spawn point
/// `(x, y)` placed as `sp`: fog at the old and the new place, each with a
/// sound; the new monster (of the old one's type, when it is a known
/// type) facing as placed, in ambush if placed so, reacting after 18
/// tics; the old one removed.
#[verifier::rlimit(40)]
fn come_back<C: SpawnContext>(mobj_idx: usize, sp: MapThing, x: Fixed, y: Fixed, ctx: &mut C)
    requires
        mobj_idx < old(ctx).mobjs_view().len(),
        spawn_ok(*old(ctx)),
    ensures
        spawn_ok(*final(ctx)),
        spawn_static(*old(ctx), *final(ctx)),
        final(ctx).mobjs_view().len() >= old(ctx).mobjs_view().len(),
        final(ctx).requests().len() >= old(ctx).requests().len(),
        final(ctx).requests().subrange(0, old(ctx).requests().len() as int) == old(ctx).requests(),
        exists|c: C, fog1: usize, fog2: usize, nm: usize| #[trigger] come_back_run(*old(ctx), c, *final(ctx), mobj_idx, sp, fog1, fog2, nm),
{
    let ghost pre = *ctx;
    let m = ctx.mobjs()[mobj_idx];
    let ss1 = ctx.point_in_subsector(m.x, m.y);
    let sec1 = ctx.subsector_sector(ss1);
    let floor1 = ctx.sector_floor(sec1);
    let fog1 = p_spawn_mobj(m.x, m.y, floor1, MT_TFOG, ctx);
    ctx.s_start_sound(Some(fog1), SfxEnum::sfx_telept);
    let ss2 = ctx.point_in_subsector(x, y);
    let sec2 = ctx.subsector_sector(ss2);
    let floor2 = ctx.sector_floor(sec2);
    let fog2 = p_spawn_mobj(x, y, floor2, MT_TFOG, ctx);
    ctx.s_start_sound(Some(fog2), SfxEnum::sfx_telept);
    proof {
        lemma_spawn_ok(pre, *ctx);
        assert(ctx.requests() =~= pre.requests() + seq![
            SpawnEvent::AddThinker { mobj: fog1 },
            SpawnEvent::Sound { origin: Some(fog1), sfx: SfxEnum::sfx_telept },
            SpawnEvent::AddThinker { mobj: fog2 },
            SpawnEvent::Sound { origin: Some(fog2), sfx: SfxEnum::sfx_telept },
        ]);
    }
    let ghost c = *ctx;
    let t = ctx.mobjs()[mobj_idx].type_;
    if t >= NUMMOBJTYPES {
        assert(ctx.requests().subrange(0, pre.requests().len() as int) =~= pre.requests());
        assert(come_back_run(pre, c, *ctx, mobj_idx, sp, fog1, fog2, 0));
        return;
    }
    let nm = p_spawn_mobj(x, y, floor2, t, ctx);
    let a = ctx.mobjs()[nm];
    let flags = if sp.options & MTF_AMBUSH != 0 { a.flags | MF_AMBUSH } else { a.flags };
    let ghost b = *ctx;
    ctx.set_mobj(nm, MapObject { angle: to_angle(sp.angle), flags, reactiontime: 18, ..a });
    proof {
        lemma_spawn_ok(b, *ctx);
    }
    let ghost before = *ctx;
    p_remove_mobj(mobj_idx, ctx);
    assert(ctx.requests().subrange(0, pre.requests().len() as int) =~= pre.requests());
    proof {
        let bm = before.mobjs_view()[mobj_idx as int];
        let a1 = if bm.flags & MF_NOSECTOR == 0 {
            with_link(with_link(before.mobjs_view(), bm.snext, bm.sprev, 0), bm.sprev, bm.snext, 1)
        } else {
            before.mobjs_view()
        };
        assert(kept_but_links(before.mobjs_view()[nm as int], a1[nm as int]));
        assert(kept_but_links(before.mobjs_view()[nm as int], ctx.mobjs_view()[nm as int]));
        assert(ctx.requests() =~= c.requests() + seq![
            SpawnEvent::AddThinker { mobj: nm },
            SpawnEvent::StopSound { origin: mobj_idx },
            SpawnEvent::RemoveThinker { mobj: mobj_idx },
        ]);
        if sp.options & MTF_AMBUSH != 0 {
            let af = a.flags;
            assert((af | 0x20u32) & 0x20u32 != 0) by (bit_vector);
        }
        assert(come_back_run(pre, c, *ctx, mobj_idx, sp, fog1, fog2, nm));
    }
}

// ---------------------------------------------------------------------------
// P_MobjThinker
// ---------------------------------------------------------------------------

/// A thing with no momentum, not flying as a skull, resting on its floor.
pub open spec fn at_rest(m: MapObject) -> bool {
    m.momx.0 == 0 && m.momy.0 == 0 && m.flags & MF_SKULLFLY == 0 && m.z == m.floorz && m.momz.0 == 0
}

/// `P_MobjThinker`: a thing's tic. A thing being removed does nothing. A
/// moving thing moves (horizontally, then vertically), unless removed by
/// it; then its state's tics count down and at zero it enters the next
/// state; a monster that counts as a kill, while monsters respawn, waits
/// twelve seconds and then now and then tries to come back
/// ([`p_nightmare_respawn`]). A thing at rest with tics left and nothing
/// to respawn just counts down.
pub fn p_mobj_thinker<C: SpawnContext>(mobj_idx: usize, ctx: &mut C)
    requires
        mobj_idx < old(ctx).mobjs_view().len(),
        spawn_ok(*old(ctx)),
    ensures
        spawn_ok(*final(ctx)),
        spawn_static(*old(ctx), *final(ctx)),
        final(ctx).mobjs_view().len() >= old(ctx).mobjs_view().len(),
        old(ctx).thinker_view(mobj_idx) == ActionFn::PendingRemoval ==> *final(ctx) == *old(ctx),
        ({
            let m = old(ctx).mobjs_view()[mobj_idx as int];
            old(ctx).thinker_view(mobj_idx) != ActionFn::PendingRemoval && at_rest(m) && m.tics != -1 && m.tics - 1 > 0
                && (m.flags & MF_COUNTKILL == 0 || !old(ctx).game_view().respawnmonsters) ==> {
                &&& final(ctx).mobjs_view() == old(ctx).mobjs_view().update(mobj_idx as int, MapObject { tics: (m.tics - 1) as i32, ..m })
                &&& only_things(*old(ctx), *final(ctx))
            }
        }),
{
    let ghost pre = *ctx;
    if ctx.thinker(mobj_idx) == ActionFn::PendingRemoval {
        return;
    }
    let m = ctx.mobjs()[mobj_idx];
    if m.momx.0 != 0 || m.momy.0 != 0 || m.flags & MF_SKULLFLY != 0 {
        ctx.p_xy_movement(mobj_idx);
        proof {
            lemma_spawn_ok(pre, *ctx);
        }
        if ctx.thinker(mobj_idx) == ActionFn::PendingRemoval {
            return;
        }
    }
    let m = ctx.mobjs()[mobj_idx];
    if m.z != m.floorz || m.momz.0 != 0 {
        let ghost b = *ctx;
        ctx.p_z_movement(mobj_idx);
        proof {
            lemma_spawn_ok(b, *ctx);
        }
        if ctx.thinker(mobj_idx) == ActionFn::PendingRemoval {
            return;
        }
    }
    let m = ctx.mobjs()[mobj_idx];
    if m.tics != -1 {
        let tics = m.tics.wrapping_sub(1);
        let ghost b = *ctx;
        ctx.set_mobj(mobj_idx, MapObject { tics, ..m });
        proof {
            lemma_spawn_ok(b, *ctx);
        }
        if tics <= 0 {
            let next = match m.state {
                Some(st) => ctx.state(st).nextstate,
                None => S_NULL,
            };
            p_set_mobj_state(mobj_idx, next, ctx);
            return;
        }
    }
    let g = ctx.game();
    if m.flags & MF_COUNTKILL == 0 || !g.respawnmonsters {
        return;
    }
    let c = ctx.mobjs()[mobj_idx];
    let count = c.movecount.wrapping_add(1);
    let ghost b = *ctx;
    ctx.set_mobj(mobj_idx, MapObject { movecount: count, ..c });
    proof {
        lemma_spawn_ok(b, *ctx);
    }
    if count < MONSTER_RESPAWN_TICS {
        return;
    }
    if g.leveltime & 31 != 0 {
        return;
    }
    let ghost b2 = *ctx;
    let r = ctx.p_random();
    proof {
        lemma_spawn_ok(b2, *ctx);
    }
    if r > 4 {
        return;
    }
    p_nightmare_respawn(mobj_idx, ctx);
}

} // verus!
