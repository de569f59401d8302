//! Monster behaviour: range checks, turning to the target, and the action
//! functions monster states run (attacks, sounds, deaths).

use vstd::prelude::*;
use crate::fixed::{fixed_mul_spec, Fixed, FRACUNIT};
use crate::maputl::{aprox_distance, p_aprox_distance, wrapping_abs};
use crate::inter::{div_toward_zero, trunc_div, Skill};
use crate::random::DoomRandom;
use crate::spec::{FloorType, VldoorType};
use crate::types::{
    Angle, LineDef, MapObject, SfxEnum, MF_CORPSE, ML_SOUNDBLOCK, ML_TWOSIDED, MF_AMBUSH, MF_FLOAT, MF_INFLOAT, MF_JUSTATTACKED, MF_JUSTHIT, MF_SHADOW,
    MF_SHOOTABLE, MF_SKULLFLY, MF_SOLID,
};

verus! {

/// Melee reach: 64 units.
pub const MELEERANGE: i32 = 4194304;

/// Hitscan and aiming reach: 2048 units.
pub const MISSILERANGE: i32 = 134217728;

/// The spread of a mancubus volley: an eighth of a right angle.
pub const FATSPREAD: u32 = 0x0800_0000;

/// The state index of the null state (no state).
pub const S_NULL: usize = 0;

/// Thing types the monster code names, as indices into the thing-info table.
pub const MT_VILE: usize = 3;
pub const MT_FIRE: usize = 4;
pub const MT_UNDEAD: usize = 5;
pub const MT_TRACER: usize = 6;
pub const MT_FATSHOT: usize = 9;
pub const MT_BRUISERSHOT: usize = 16;
pub const MT_SKULL: usize = 18;
pub const MT_SPIDER: usize = 19;
pub const MT_CYBORG: usize = 21;
pub const MT_TROOPSHOT: usize = 31;
pub const MT_HEADSHOT: usize = 32;
pub const MT_ROCKET: usize = 33;
pub const MT_ARACHPLAZ: usize = 36;

/// The game variant being played.
#[derive(Clone, Copy, Debug, PartialEq, Eq, Structural)]
pub enum GameMode {
    Shareware,
    Registered,
    Commercial,
    Retail,
    Indetermined,
}

/// What the monster code reads from a thing type's entry in the
/// thing-info table.
#[derive(Clone, Copy, Debug, PartialEq, Eq, Structural)]
pub struct MobjInfo {
    /// State entered on seeing a target.
    pub seestate: usize,
    /// Melee attack state, [`S_NULL`] when the type has none.
    pub meleestate: usize,
    pub painsound: SfxEnum,
    pub deathsound: SfxEnum,
    pub radius: Fixed,
    /// State a monster idles in.
    pub spawnstate: usize,
    /// Ranged attack state, [`S_NULL`] when the type has none.
    pub missilestate: usize,
    pub seesound: SfxEnum,
    pub attacksound: SfxEnum,
    /// Sound a monster makes now and then while chasing.
    pub activesound: SfxEnum,
    /// Walking speed (whole units per step).
    pub speed: i32,
    /// How hard the thing is to push.
    pub mass: i32,
}

/// What raising a corpse of a thing type gives it back: the state it
/// rises in, and the height, flags and health it is spawned with.
#[derive(Clone, Copy, Debug, PartialEq, Eq, Structural)]
pub struct RaiseInfo {
    pub raisestate: usize,
    pub height: Fixed,
    pub flags: u32,
    pub spawnhealth: i32,
}

/// What sound propagation reads and marks in a sector: its heights (an
/// opening between two sectors lets sound through) and its flood marks.
#[derive(Clone, Copy, Debug, PartialEq, Eq, Structural)]
pub struct SectorSound {
    pub floorheight: Fixed,
    pub ceilingheight: Fixed,
    /// The flood that last marked the sector.
    pub validcount: i32,
    /// 1 when reached with no sound-blocking line crossed, 2 with one.
    pub soundtraversed: i32,
    /// The thing whose noise reached the sector.
    pub soundtarget: Option<usize>,
}

/// A request the monster code made of the engine, in the order made.
#[derive(Clone, Copy, Debug, PartialEq, Eq, Structural)]
pub enum EnemyEvent {
    /// `S_StartSound` at a thing (or everywhere for `None`).
    Sound { origin: Option<usize>, sfx: SfxEnum },
    /// `P_LineAttack` (a hitscan shot).
    LineAttack { source: usize, angle: Angle, range: Fixed, slope: Fixed, damage: i32 },
    /// `P_RadiusAttack` (an explosion).
    RadiusAttack { spot: usize, source: usize, damage: i32 },
    /// `P_DamageMobj`.
    Damage { victim: usize, inflictor: Option<usize>, by: Option<usize>, damage: i32 },
    /// `P_SetMobjState`.
    SetState { mobj: usize, state: usize },
    /// `P_SpawnMissile` of type `mtype` from `source` toward `dest`, fired
    /// while `source` faced `angle`.
    SpawnMissile { source: usize, dest: usize, mtype: usize, angle: Angle },
    /// `P_SpawnMobj`.
    SpawnMobj { x: Fixed, y: Fixed, z: Fixed, mtype: usize },
    /// Doors tagged `tag` were started.
    DoorByTag { tag: i16, door_type: VldoorType },
    /// Floors tagged `tag` were started.
    FloorByTag { tag: i16, floor_type: FloorType },
    /// `G_ExitLevel`.
    ExitLevel,
    /// `P_TryMove` of a thing to `(x, y)`, and whether it moved.
    TryMove { mobj: usize, x: Fixed, y: Fixed, moved: bool },
    /// `P_UseSpecialLine` by a thing, and whether the line did something.
    UseLine { mobj: usize, line: usize, used: bool },
    /// `P_LookForPlayers`, and whether a target was found.
    LookForPlayers { mobj: usize, allaround: bool, found: bool },
    /// The arch-vile's search around `(x, y)` for a corpse it can raise,
    /// and the corpse it found.
    CorpseSearch { x: Fixed, y: Fixed, corpse: Option<usize> },
    /// `P_TeleportMove` of a thing to `(x, y)`.
    TeleportMove { mobj: usize, x: Fixed, y: Fixed },
    /// `P_RemoveMobj`.
    RemoveMobj { mobj: usize },
    /// `P_SpawnPuff`.
    SpawnPuff { x: Fixed, y: Fixed, z: Fixed },
}

/// The level and engine services monster actions use: the things, the
/// play random stream, the thing-info table, the angle table, sight and
/// aiming checks, sound, attacks and spawning. The engine implements it;
/// its attacks and spawns may change any thing, and draw random numbers,
/// but never shrink the thing arena.
pub trait EnemyContext: Sized {
    /// The things.
    spec fn mobjs_view(&self) -> Seq<MapObject>;
    /// The play random stream.
    spec fn rng_view(&self) -> DoomRandom;
    /// Everything requested so far, in order.
    spec fn events(&self) -> Seq<EnemyEvent>;
    /// Whether thing `t1` can see thing `t2`.
    spec fn sight_view(&self, t1: usize, t2: usize) -> bool;
    /// The thing-info table entry of a thing type.
    spec fn info_view(&self, mobj_type: usize) -> MobjInfo;
    /// `R_PointToAngle2`: the angle from the first point to the second.
    spec fn angle_view(&self, x1: Fixed, y1: Fixed, x2: Fixed, y2: Fixed) -> Angle;
    /// The game variant.
    spec fn mode_view(&self) -> GameMode;
    /// The episode and map being played.
    spec fn episode_view(&self) -> i32;
    spec fn map_view(&self) -> i32;
    /// The things that currently think, in thinker-list order.
    spec fn thinkers_view(&self) -> Seq<usize>;
    /// Whether monsters play fast: the nightmare skill or respawning
    /// monsters.
    spec fn fast_view(&self) -> bool;
    /// Whether this is a net game.
    spec fn netgame_view(&self) -> bool;
    /// Whether the last move that failed left room to float up or down.
    spec fn floatok_view(&self) -> bool;
    /// The special lines the last move touched.
    spec fn spechit_view(&self) -> Seq<usize>;
    /// The thing that last made noise in the sector of a subsector.
    spec fn soundtarget_view(&self, subsector: usize) -> Option<usize>;
    /// The fine sine table (its cosines start a quarter turn in).
    spec fn sine_view(&self, i: usize) -> Fixed;
    /// The game tic.
    spec fn gametic_view(&self) -> i32;
    /// The sectors, as sound sees them.
    spec fn sounds_view(&self) -> Seq<SectorSound>;
    /// The lines.
    spec fn lines_view(&self) -> Seq<LineDef>;
    /// The sector of a subsector.
    spec fn subsector_sector_view(&self, subsector: usize) -> usize;
    /// The skill being played.
    spec fn skill_view(&self) -> Skill;
    /// The tics of state `s` in the state table.
    spec fn state_tics_view(&self, s: usize) -> i32;
    /// What raising a corpse of a thing type gives it back.
    spec fn raise_view(&self, mobj_type: usize) -> RaiseInfo;

    /// What raising a corpse of a thing type gives it back.
    fn raise_info(&self, mobj_type: usize) -> (r: RaiseInfo)
        ensures
            r == self.raise_view(mobj_type),
    ;

    /// The arch-vile's search around `(x, y)` for a corpse it can raise
    /// (`PIT_VileCheck` over the blockmap): the corpse found, if any. The
    /// corpses it tries stop moving; nothing else changes.
    fn find_vile_corpse(&mut self, x: Fixed, y: Fixed) -> (r: Option<usize>)
        ensures
            forall|t: usize| #[trigger] final(self).info_view(t) == old(self).info_view(t),
            forall|a: Fixed, b: Fixed, c: Fixed, d: Fixed| #[trigger] final(self).angle_view(a, b, c, d) == old(self).angle_view(a, b, c, d),
            final(self).mode_view() == old(self).mode_view(),
            forall|i: usize| #[trigger] final(self).sine_view(i) == old(self).sine_view(i),
            final(self).fast_view() == old(self).fast_view(),
            final(self).netgame_view() == old(self).netgame_view(),
            final(self).mobjs_view().len() == old(self).mobjs_view().len(),
            forall|i: int| 0 <= i < old(self).mobjs_view().len()
                ==> #[trigger] corpse_readied(old(self).mobjs_view()[i], final(self).mobjs_view()[i]),
            r matches Some(c) ==> c < old(self).mobjs_view().len(),
            final(self).events() == old(self).events().push(EnemyEvent::CorpseSearch { x, y, corpse: r }),
    ;

    /// The skill being played.
    fn gameskill(&self) -> (r: Skill)
        ensures
            r == self.skill_view(),
    ;

    /// The tics of state `s`.
    fn state_tics(&self, s: usize) -> (r: i32)
        ensures
            r == self.state_tics_view(s),
    ;

    fn mobjs(&self) -> (r: &[MapObject])
        ensures
            r@ == self.mobjs_view(),
    ;

    /// Replace thing `idx` by `m`.
    fn set_mobj(&mut self, idx: usize, m: MapObject)
        requires
            idx < old(self).mobjs_view().len(),
        ensures
            forall|t: usize| #[trigger] final(self).info_view(t) == old(self).info_view(t),
            forall|a: Fixed, b: Fixed, c: Fixed, d: Fixed| #[trigger] final(self).angle_view(a, b, c, d) == old(self).angle_view(a, b, c, d),
            final(self).mode_view() == old(self).mode_view(),
            forall|i: usize| #[trigger] final(self).sine_view(i) == old(self).sine_view(i),
            final(self).fast_view() == old(self).fast_view(),
            final(self).netgame_view() == old(self).netgame_view(),
            final(self).mobjs_view() == old(self).mobjs_view().update(idx as int, m),
            final(self).rng_view() == old(self).rng_view(),
            final(self).events() == old(self).events(),
            final(self).thinkers_view() == old(self).thinkers_view(),
            forall|ss: usize| #[trigger] final(self).soundtarget_view(ss) == old(self).soundtarget_view(ss),
            (m.x == old(self).mobjs_view()[idx as int].x && m.y == old(self).mobjs_view()[idx as int].y
                && m.z == old(self).mobjs_view()[idx as int].z) ==> forall|a: usize, b: usize|
                #[trigger] final(self).sight_view(a, b) == old(self).sight_view(a, b),
    ;

    /// The thing-info table entry of `mobj_type`.
    fn mobj_info(&self, mobj_type: usize) -> (r: MobjInfo)
        ensures
            r == self.info_view(mobj_type),
    ;

    /// `R_PointToAngle2`.
    fn point_to_angle2(&self, x1: Fixed, y1: Fixed, x2: Fixed, y2: Fixed) -> (r: Angle)
        ensures
            r == self.angle_view(x1, y1, x2, y2),
    ;

    /// The game variant.
    fn gamemode(&self) -> (r: GameMode)
        ensures
            r == self.mode_view(),
    ;

    fn gameepisode(&self) -> (r: i32)
        ensures
            r == self.episode_view(),
    ;

    fn fast_monsters(&self) -> (r: bool)
        ensures
            r == self.fast_view(),
    ;

    fn netgame(&self) -> (r: bool)
        ensures
            r == self.netgame_view(),
    ;

    fn floatok(&self) -> (r: bool)
        ensures
            r == self.floatok_view(),
    ;

    fn spechit(&self) -> (r: Vec<usize>)
        ensures
            r@ == self.spechit_view(),
    ;

    fn sound_target(&self, subsector: usize) -> (r: Option<usize>)
        ensures
            r == self.soundtarget_view(subsector),
    ;

    fn gamemap(&self) -> (r: i32)
        ensures
            r == self.map_view(),
    ;

    /// Entry `i` of the fine sine table.
    fn fine_sine(&self, i: usize) -> (r: Fixed)
        requires
            i < 10240,
        ensures
            r == self.sine_view(i),
    ;

    fn gametic(&self) -> (r: i32)
        ensures
            r == self.gametic_view(),
    ;

    /// Sector `idx` as sound sees it.
    fn sector_sound(&self, idx: usize) -> (r: SectorSound)
        requires
            idx < self.sounds_view().len(),
        ensures
            r == self.sounds_view()[idx as int],
    ;

    fn lines(&self) -> (r: &[LineDef])
        ensures
            r@ == self.lines_view(),
    ;

    fn subsector_sector(&self, subsector: usize) -> (r: usize)
        ensures
            r == self.subsector_sector_view(subsector),
    ;

    /// Mark sector `idx` as reached by flood `validcount`, having crossed
    /// `traversed - 1` sound-blocking lines, with the noise of `target`.
    fn mark_sector(&mut self, idx: usize, validcount: i32, traversed: i32, target: Option<usize>)
        requires
            idx < old(self).sounds_view().len(),
        ensures
            final(self).sounds_view() == old(self).sounds_view().update(
                idx as int,
                SectorSound { validcount, soundtraversed: traversed, soundtarget: target, ..old(self).sounds_view()[idx as int] },
            ),
            final(self).lines_view() == old(self).lines_view(),
            forall|ss: usize| #[trigger] final(self).subsector_sector_view(ss) == old(self).subsector_sector_view(ss),
            forall|t: usize| #[trigger] final(self).info_view(t) == old(self).info_view(t),
            forall|a: Fixed, b: Fixed, c: Fixed, d: Fixed| #[trigger] final(self).angle_view(a, b, c, d) == old(self).angle_view(a, b, c, d),
            final(self).mode_view() == old(self).mode_view(),
            forall|i: usize| #[trigger] final(self).sine_view(i) == old(self).sine_view(i),
            final(self).fast_view() == old(self).fast_view(),
            final(self).netgame_view() == old(self).netgame_view(),
            final(self).mobjs_view() == old(self).mobjs_view(),
            final(self).rng_view() == old(self).rng_view(),
            final(self).events() == old(self).events(),
    ;

    /// `P_SpawnPuff`: a puff of smoke at `(x, y, z)`.
    fn p_spawn_puff(&mut self, x: Fixed, y: Fixed, z: Fixed)
        ensures
            forall|t: usize| #[trigger] final(self).info_view(t) == old(self).info_view(t),
            forall|a: Fixed, b: Fixed, c: Fixed, d: Fixed| #[trigger] final(self).angle_view(a, b, c, d) == old(self).angle_view(a, b, c, d),
            final(self).mode_view() == old(self).mode_view(),
            forall|i: usize| #[trigger] final(self).sine_view(i) == old(self).sine_view(i),
            final(self).fast_view() == old(self).fast_view(),
            final(self).netgame_view() == old(self).netgame_view(),
            final(self).mobjs_view().len() >= old(self).mobjs_view().len(),
            final(self).events() == old(self).events().push(EnemyEvent::SpawnPuff { x, y, z }),
            forall|i: int| 0 <= i < old(self).mobjs_view().len() ==> #[trigger] final(self).mobjs_view()[i] == old(self).mobjs_view()[i],
            final(self).rng_view() == old(self).rng_view(),
    ;

    /// `S_StartSound`.
    fn s_start_sound(&mut self, origin: Option<usize>, sfx: SfxEnum)
        ensures
            forall|t: usize| #[trigger] final(self).info_view(t) == old(self).info_view(t),
            forall|a: Fixed, b: Fixed, c: Fixed, d: Fixed| #[trigger] final(self).angle_view(a, b, c, d) == old(self).angle_view(a, b, c, d),
            final(self).mode_view() == old(self).mode_view(),
            forall|i: usize| #[trigger] final(self).sine_view(i) == old(self).sine_view(i),
            final(self).fast_view() == old(self).fast_view(),
            final(self).netgame_view() == old(self).netgame_view(),
            forall|a: usize, b: usize| #[trigger] final(self).sight_view(a, b) == old(self).sight_view(a, b),
            final(self).mobjs_view() == old(self).mobjs_view(),
            final(self).rng_view() == old(self).rng_view(),
            final(self).events() == old(self).events().push(EnemyEvent::Sound { origin, sfx }),
    ;

    /// `P_Random` on the play stream.
    fn p_random(&mut self) -> (r: u8)
        ensures
            forall|t: usize| #[trigger] final(self).info_view(t) == old(self).info_view(t),
            forall|a: Fixed, b: Fixed, c: Fixed, d: Fixed| #[trigger] final(self).angle_view(a, b, c, d) == old(self).angle_view(a, b, c, d),
            final(self).mode_view() == old(self).mode_view(),
            forall|i: usize| #[trigger] final(self).sine_view(i) == old(self).sine_view(i),
            final(self).fast_view() == old(self).fast_view(),
            final(self).netgame_view() == old(self).netgame_view(),
            forall|a: usize, b: usize| #[trigger] final(self).sight_view(a, b) == old(self).sight_view(a, b),
            r == old(self).rng_view().next_p(),
            final(self).rng_view() == old(self).rng_view().advanced(),
            final(self).mobjs_view() == old(self).mobjs_view(),
            final(self).events() == old(self).events(),
            final(self).thinkers_view() == old(self).thinkers_view(),
    ;

    /// `P_CheckSight`.
    fn p_check_sight(&mut self, t1: usize, t2: usize) -> (r: bool)
        ensures
            forall|t: usize| #[trigger] final(self).info_view(t) == old(self).info_view(t),
            forall|a: Fixed, b: Fixed, c: Fixed, d: Fixed| #[trigger] final(self).angle_view(a, b, c, d) == old(self).angle_view(a, b, c, d),
            final(self).mode_view() == old(self).mode_view(),
            forall|i: usize| #[trigger] final(self).sine_view(i) == old(self).sine_view(i),
            final(self).fast_view() == old(self).fast_view(),
            final(self).netgame_view() == old(self).netgame_view(),
            forall|a: usize, b: usize| #[trigger] final(self).sight_view(a, b) == old(self).sight_view(a, b),
            r == old(self).sight_view(t1, t2),
            final(self).mobjs_view() == old(self).mobjs_view(),
            final(self).rng_view() == old(self).rng_view(),
            final(self).events() == old(self).events(),
    ;

    /// `P_AimLineAttack`: the slope to shoot at and the thing aimed at, if any.
    fn p_aim_line_attack(&mut self, source: usize, angle: Angle, range: Fixed) -> (r: (Fixed, Option<usize>))
        ensures
            forall|t: usize| #[trigger] final(self).info_view(t) == old(self).info_view(t),
            forall|a: Fixed, b: Fixed, c: Fixed, d: Fixed| #[trigger] final(self).angle_view(a, b, c, d) == old(self).angle_view(a, b, c, d),
            final(self).mode_view() == old(self).mode_view(),
            forall|i: usize| #[trigger] final(self).sine_view(i) == old(self).sine_view(i),
            final(self).fast_view() == old(self).fast_view(),
            final(self).netgame_view() == old(self).netgame_view(),
            forall|a: usize, b: usize| #[trigger] final(self).sight_view(a, b) == old(self).sight_view(a, b),
            final(self).mobjs_view() == old(self).mobjs_view(),
            final(self).rng_view() == old(self).rng_view(),
            final(self).events() == old(self).events(),
    ;

    /// `P_LineAttack`.
    fn p_line_attack(&mut self, source: usize, angle: Angle, range: Fixed, slope: Fixed, damage: i32)
        ensures
            forall|t: usize| #[trigger] final(self).info_view(t) == old(self).info_view(t),
            forall|a: Fixed, b: Fixed, c: Fixed, d: Fixed| #[trigger] final(self).angle_view(a, b, c, d) == old(self).angle_view(a, b, c, d),
            final(self).mode_view() == old(self).mode_view(),
            forall|i: usize| #[trigger] final(self).sine_view(i) == old(self).sine_view(i),
            final(self).fast_view() == old(self).fast_view(),
            final(self).netgame_view() == old(self).netgame_view(),
            final(self).mobjs_view().len() >= old(self).mobjs_view().len(),
            final(self).events() == old(self).events().push(EnemyEvent::LineAttack { source, angle, range, slope, damage }),
    ;

    /// `P_RadiusAttack`.
    fn p_radius_attack(&mut self, spot: usize, source: usize, damage: i32)
        ensures
            forall|t: usize| #[trigger] final(self).info_view(t) == old(self).info_view(t),
            forall|a: Fixed, b: Fixed, c: Fixed, d: Fixed| #[trigger] final(self).angle_view(a, b, c, d) == old(self).angle_view(a, b, c, d),
            final(self).mode_view() == old(self).mode_view(),
            forall|i: usize| #[trigger] final(self).sine_view(i) == old(self).sine_view(i),
            final(self).fast_view() == old(self).fast_view(),
            final(self).netgame_view() == old(self).netgame_view(),
            final(self).mobjs_view().len() >= old(self).mobjs_view().len(),
            final(self).events() == old(self).events().push(EnemyEvent::RadiusAttack { spot, source, damage }),
    ;

    /// `P_DamageMobj`.
    fn p_damage_mobj(&mut self, target: usize, inflictor: Option<usize>, source: Option<usize>, damage: i32)
        ensures
            forall|t: usize| #[trigger] final(self).info_view(t) == old(self).info_view(t),
            forall|a: Fixed, b: Fixed, c: Fixed, d: Fixed| #[trigger] final(self).angle_view(a, b, c, d) == old(self).angle_view(a, b, c, d),
            final(self).mode_view() == old(self).mode_view(),
            forall|i: usize| #[trigger] final(self).sine_view(i) == old(self).sine_view(i),
            final(self).fast_view() == old(self).fast_view(),
            final(self).netgame_view() == old(self).netgame_view(),
            final(self).mobjs_view().len() >= old(self).mobjs_view().len(),
            final(self).events() == old(self).events().push(EnemyEvent::Damage { victim: target, inflictor, by: source, damage }),
    ;

    /// `P_SetMobjState`: whether the thing still exists afterwards.
    fn p_set_mobj_state(&mut self, mobj: usize, state: usize) -> (r: bool)
        ensures
            forall|t: usize| #[trigger] final(self).info_view(t) == old(self).info_view(t),
            forall|a: Fixed, b: Fixed, c: Fixed, d: Fixed| #[trigger] final(self).angle_view(a, b, c, d) == old(self).angle_view(a, b, c, d),
            final(self).mode_view() == old(self).mode_view(),
            forall|i: usize| #[trigger] final(self).sine_view(i) == old(self).sine_view(i),
            final(self).fast_view() == old(self).fast_view(),
            final(self).netgame_view() == old(self).netgame_view(),
            final(self).mobjs_view().len() >= old(self).mobjs_view().len(),
            final(self).events() == old(self).events().push(EnemyEvent::SetState { mobj, state }),
    ;

    /// `P_SpawnMissile`: the new missile's index.
    fn p_spawn_missile(&mut self, source: usize, dest: usize, mtype: usize) -> (r: usize)
        requires
            source < old(self).mobjs_view().len(),
        ensures
            forall|t: usize| #[trigger] final(self).info_view(t) == old(self).info_view(t),
            forall|a: Fixed, b: Fixed, c: Fixed, d: Fixed| #[trigger] final(self).angle_view(a, b, c, d) == old(self).angle_view(a, b, c, d),
            final(self).mode_view() == old(self).mode_view(),
            forall|i: usize| #[trigger] final(self).sine_view(i) == old(self).sine_view(i),
            final(self).fast_view() == old(self).fast_view(),
            final(self).netgame_view() == old(self).netgame_view(),
            r < final(self).mobjs_view().len(),
            final(self).mobjs_view().len() >= old(self).mobjs_view().len(),
            final(self).events() == old(self).events().push(
                EnemyEvent::SpawnMissile { source, dest, mtype, angle: old(self).mobjs_view()[source as int].angle },
            ),
    ;

    /// `P_SpawnMobj`: the new thing's index.
    fn p_spawn_mobj(&mut self, x: Fixed, y: Fixed, z: Fixed, mtype: usize) -> (r: usize)
        ensures
            forall|t: usize| #[trigger] final(self).info_view(t) == old(self).info_view(t),
            forall|a: Fixed, b: Fixed, c: Fixed, d: Fixed| #[trigger] final(self).angle_view(a, b, c, d) == old(self).angle_view(a, b, c, d),
            final(self).mode_view() == old(self).mode_view(),
            forall|i: usize| #[trigger] final(self).sine_view(i) == old(self).sine_view(i),
            final(self).fast_view() == old(self).fast_view(),
            final(self).netgame_view() == old(self).netgame_view(),
            r < final(self).mobjs_view().len(),
            final(self).mobjs_view().len() >= old(self).mobjs_view().len(),
            final(self).events() == old(self).events().push(EnemyEvent::SpawnMobj { x, y, z, mtype }),
    ;

    /// The things that currently think (are in the thinker list).
    fn collect_mobj_thinker_indices(&self) -> (r: Vec<usize>)
        ensures
            r@ == self.thinkers_view(),
            forall|i: int| 0 <= i < r@.len() ==> #[trigger] r@[i] < self.mobjs_view().len(),
    ;

    /// Start the doors tagged `tag`.
    fn ev_do_door_by_tag(&mut self, tag: i16, door_type: VldoorType) -> (r: bool)
        ensures
            forall|t: usize| #[trigger] final(self).info_view(t) == old(self).info_view(t),
            forall|a: Fixed, b: Fixed, c: Fixed, d: Fixed| #[trigger] final(self).angle_view(a, b, c, d) == old(self).angle_view(a, b, c, d),
            final(self).mode_view() == old(self).mode_view(),
            forall|i: usize| #[trigger] final(self).sine_view(i) == old(self).sine_view(i),
            final(self).fast_view() == old(self).fast_view(),
            final(self).netgame_view() == old(self).netgame_view(),
            final(self).mobjs_view().len() >= old(self).mobjs_view().len(),
            final(self).events() == old(self).events().push(EnemyEvent::DoorByTag { tag, door_type }),
    ;

    /// Start the floors tagged `tag`.
    fn ev_do_floor_by_tag(&mut self, tag: i16, floor_type: FloorType) -> (r: bool)
        ensures
            forall|t: usize| #[trigger] final(self).info_view(t) == old(self).info_view(t),
            forall|a: Fixed, b: Fixed, c: Fixed, d: Fixed| #[trigger] final(self).angle_view(a, b, c, d) == old(self).angle_view(a, b, c, d),
            final(self).mode_view() == old(self).mode_view(),
            forall|i: usize| #[trigger] final(self).sine_view(i) == old(self).sine_view(i),
            final(self).fast_view() == old(self).fast_view(),
            final(self).netgame_view() == old(self).netgame_view(),
            final(self).mobjs_view().len() >= old(self).mobjs_view().len(),
            final(self).events() == old(self).events().push(EnemyEvent::FloorByTag { tag, floor_type }),
    ;

    /// `P_TryMove`: whether the thing could move to `(x, y)`; crossing
    /// lines may trigger specials that change anything.
    fn p_try_move(&mut self, mobj: usize, x: Fixed, y: Fixed) -> (r: bool)
        ensures
            forall|t: usize| #[trigger] final(self).info_view(t) == old(self).info_view(t),
            forall|a: Fixed, b: Fixed, c: Fixed, d: Fixed| #[trigger] final(self).angle_view(a, b, c, d) == old(self).angle_view(a, b, c, d),
            final(self).mode_view() == old(self).mode_view(),
            forall|i: usize| #[trigger] final(self).sine_view(i) == old(self).sine_view(i),
            final(self).fast_view() == old(self).fast_view(),
            final(self).netgame_view() == old(self).netgame_view(),
            final(self).mobjs_view().len() >= old(self).mobjs_view().len(),
            final(self).events() == old(self).events().push(EnemyEvent::TryMove { mobj, x, y, moved: r }),
    ;

    /// `P_UseSpecialLine`: a monster tries a special line it bumped into.
    fn p_use_special_line(&mut self, mobj: usize, line: usize, side: i32) -> (r: bool)
        ensures
            forall|t: usize| #[trigger] final(self).info_view(t) == old(self).info_view(t),
            forall|a: Fixed, b: Fixed, c: Fixed, d: Fixed| #[trigger] final(self).angle_view(a, b, c, d) == old(self).angle_view(a, b, c, d),
            final(self).mode_view() == old(self).mode_view(),
            forall|i: usize| #[trigger] final(self).sine_view(i) == old(self).sine_view(i),
            final(self).fast_view() == old(self).fast_view(),
            final(self).netgame_view() == old(self).netgame_view(),
            final(self).mobjs_view().len() >= old(self).mobjs_view().len(),
            final(self).events() == old(self).events().push(EnemyEvent::UseLine { mobj, line, used: r }),
    ;

    /// `P_LookForPlayers`: whether the monster found (and targeted) a
    /// player.
    fn p_look_for_players(&mut self, mobj: usize, allaround: bool) -> (r: bool)
        ensures
            forall|t: usize| #[trigger] final(self).info_view(t) == old(self).info_view(t),
            forall|a: Fixed, b: Fixed, c: Fixed, d: Fixed| #[trigger] final(self).angle_view(a, b, c, d) == old(self).angle_view(a, b, c, d),
            final(self).mode_view() == old(self).mode_view(),
            forall|i: usize| #[trigger] final(self).sine_view(i) == old(self).sine_view(i),
            final(self).fast_view() == old(self).fast_view(),
            final(self).netgame_view() == old(self).netgame_view(),
            final(self).mobjs_view().len() >= old(self).mobjs_view().len(),
            final(self).events() == old(self).events().push(EnemyEvent::LookForPlayers { mobj, allaround, found: r }),
            final(self).rng_view() == old(self).rng_view(),
            final(self).mobjs_view().len() == old(self).mobjs_view().len(),
            forall|i: int| 0 <= i < old(self).mobjs_view().len() && i != mobj ==>
                #[trigger] final(self).mobjs_view()[i] == old(self).mobjs_view()[i],
            mobj < old(self).mobjs_view().len() ==> final(self).mobjs_view()[mobj as int]
                == (MapObject { target: final(self).mobjs_view()[mobj as int].target, ..old(self).mobjs_view()[mobj as int] }),
    ;

    /// `P_TeleportMove`: whether the thing could be put at `(x, y)`.
    fn p_teleport_move(&mut self, mobj: usize, x: Fixed, y: Fixed) -> (r: bool)
        ensures
            forall|t: usize| #[trigger] final(self).info_view(t) == old(self).info_view(t),
            forall|a: Fixed, b: Fixed, c: Fixed, d: Fixed| #[trigger] final(self).angle_view(a, b, c, d) == old(self).angle_view(a, b, c, d),
            final(self).mode_view() == old(self).mode_view(),
            forall|i: usize| #[trigger] final(self).sine_view(i) == old(self).sine_view(i),
            final(self).fast_view() == old(self).fast_view(),
            final(self).netgame_view() == old(self).netgame_view(),
            final(self).mobjs_view().len() >= old(self).mobjs_view().len(),
            final(self).events() == old(self).events().push(EnemyEvent::TeleportMove { mobj, x, y }),
    ;

    /// `P_RemoveMobj`: the thing leaves the level (its slot stays).
    fn p_remove_mobj(&mut self, mobj: usize)
        ensures
            forall|t: usize| #[trigger] final(self).info_view(t) == old(self).info_view(t),
            forall|a: Fixed, b: Fixed, c: Fixed, d: Fixed| #[trigger] final(self).angle_view(a, b, c, d) == old(self).angle_view(a, b, c, d),
            final(self).mode_view() == old(self).mode_view(),
            forall|i: usize| #[trigger] final(self).sine_view(i) == old(self).sine_view(i),
            final(self).fast_view() == old(self).fast_view(),
            final(self).netgame_view() == old(self).netgame_view(),
            final(self).mobjs_view().len() >= old(self).mobjs_view().len(),
            final(self).events() == old(self).events().push(EnemyEvent::RemoveMobj { mobj }),
    ;

    /// `G_ExitLevel`.
    fn g_exit_level(&mut self)
        ensures
            forall|t: usize| #[trigger] final(self).info_view(t) == old(self).info_view(t),
            forall|a: Fixed, b: Fixed, c: Fixed, d: Fixed| #[trigger] final(self).angle_view(a, b, c, d) == old(self).angle_view(a, b, c, d),
            final(self).mode_view() == old(self).mode_view(),
            forall|i: usize| #[trigger] final(self).sine_view(i) == old(self).sine_view(i),
            final(self).fast_view() == old(self).fast_view(),
            final(self).netgame_view() == old(self).netgame_view(),
            final(self).mobjs_view() == old(self).mobjs_view(),
            final(self).rng_view() == old(self).rng_view(),
            final(self).events() == old(self).events().push(EnemyEvent::ExitLevel),
    ;
}

/// The engine's tables (thing info, angles, sines) and the game settings
/// (variant, fast monsters, net game) are unchanged.
pub open spec fn same_tables<C: EnemyContext>(pre: C, post: C) -> bool {
    &&& forall|t: usize| #[trigger] post.info_view(t) == pre.info_view(t)
    &&& forall|a: Fixed, b: Fixed, c: Fixed, d: Fixed| #[trigger] post.angle_view(a, b, c, d) == pre.angle_view(a, b, c, d)
    &&& post.mode_view() == pre.mode_view()
    &&& post.fast_view() == pre.fast_view()
    &&& post.netgame_view() == pre.netgame_view()
    &&& forall|i: usize| #[trigger] post.sine_view(i) == pre.sine_view(i)
}

/// Only one thing changed: thing `idx` is now `m`; nothing was requested
/// and the random stream is untouched.
pub open spec fn only_mobj<C: EnemyContext>(pre: C, post: C, idx: usize, m: MapObject) -> bool {
    &&& same_tables(pre, post)
    &&& post.mobjs_view() == pre.mobjs_view().update(idx as int, m)
    &&& post.rng_view() == pre.rng_view()
    &&& post.events() == pre.events()
}

/// Only `e` was requested; the things and the random stream are untouched.
pub open spec fn only_event<C: EnemyContext>(pre: C, post: C, e: EnemyEvent) -> bool {
    &&& same_tables(pre, post)
    &&& post.mobjs_view() == pre.mobjs_view()
    &&& post.rng_view() == pre.rng_view()
    &&& post.events() == pre.events().push(e)
}

/// Nothing changed.
pub open spec fn nothing<C: EnemyContext>(pre: C, post: C) -> bool {
    &&& same_tables(pre, post)
    &&& post.mobjs_view() == pre.mobjs_view()
    &&& post.rng_view() == pre.rng_view()
    &&& post.events() == pre.events()
}

// ---------------------------------------------------------------------------
// Simple actions
// ---------------------------------------------------------------------------

/// `A_Fall`: the corpse is no longer solid.
pub fn a_fall<C: EnemyContext>(actor_idx: usize, ctx: &mut C)
    requires
        actor_idx < old(ctx).mobjs_view().len(),
    ensures
        only_mobj(*old(ctx), *final(ctx), actor_idx, MapObject { flags: old(ctx).mobjs_view()[actor_idx as int].flags & !MF_SOLID, ..old(ctx).mobjs_view()[actor_idx as int] }),
        final(ctx).thinkers_view() == old(ctx).thinkers_view(),
{
    let mut m = ctx.mobjs()[actor_idx];
    m.flags = m.flags & !MF_SOLID;
    ctx.set_mobj(actor_idx, m);
}

/// `A_XScream`: the gibbing sound.
pub fn a_xscream<C: EnemyContext>(actor_idx: usize, ctx: &mut C)
    ensures
        only_event(*old(ctx), *final(ctx), EnemyEvent::Sound { origin: Some(actor_idx), sfx: SfxEnum::sfx_slop }),
{
    ctx.s_start_sound(Some(actor_idx), SfxEnum::sfx_slop);
}

/// `A_Pain`: the type's pain sound.
pub fn a_pain<C: EnemyContext>(actor_idx: usize, ctx: &mut C)
    requires
        actor_idx < old(ctx).mobjs_view().len(),
    ensures
        only_event(*old(ctx), *final(ctx), EnemyEvent::Sound {
            origin: Some(actor_idx),
            sfx: old(ctx).info_view(old(ctx).mobjs_view()[actor_idx as int].type_).painsound,
        }),
{
    let info = ctx.mobj_info(ctx.mobjs()[actor_idx].type_);
    ctx.s_start_sound(Some(actor_idx), info.painsound);
}

/// The death sound `A_Scream` plays for a type whose death sound is `ds`,
/// given the random value `r` it draws for the variant sounds: the three
/// zombie deaths and the two imp deaths are picked among at random.
pub open spec fn scream_sound(ds: SfxEnum, r: u8) -> SfxEnum {
    if ds == SfxEnum::sfx_podth1 || ds == SfxEnum::sfx_podth2 || ds == SfxEnum::sfx_podth3 {
        if r % 3 == 0 {
            SfxEnum::sfx_podth1
        } else if r % 3 == 1 {
            SfxEnum::sfx_podth2
        } else {
            SfxEnum::sfx_podth3
        }
    } else if ds == SfxEnum::sfx_bgdth1 || ds == SfxEnum::sfx_bgdth2 {
        if r % 2 == 0 { SfxEnum::sfx_bgdth1 } else { SfxEnum::sfx_bgdth2 }
    } else {
        ds
    }
}

/// Whether `A_Scream` draws a random number for a death sound.
pub open spec fn scream_draws(ds: SfxEnum) -> bool {
    ds == SfxEnum::sfx_podth1 || ds == SfxEnum::sfx_podth2 || ds == SfxEnum::sfx_podth3 || ds == SfxEnum::sfx_bgdth1
        || ds == SfxEnum::sfx_bgdth2
}

/// `A_Scream`: the type's death sound (see [`scream_sound`]), heard
/// everywhere for the spider mastermind and the cyberdemon.
pub fn a_scream<C: EnemyContext>(actor_idx: usize, ctx: &mut C)
    requires
        actor_idx < old(ctx).mobjs_view().len(),
    ensures
        ({
            let m = old(ctx).mobjs_view()[actor_idx as int];
            let ds = old(ctx).info_view(m.type_).deathsound;
            let rng = old(ctx).rng_view();
            let origin = if m.type_ == MT_SPIDER || m.type_ == MT_CYBORG { None } else { Some(actor_idx) };
            &&& final(ctx).mobjs_view() == old(ctx).mobjs_view()
            &&& final(ctx).rng_view() == if scream_draws(ds) { rng.advanced() } else { rng }
            &&& final(ctx).events() == old(ctx).events().push(EnemyEvent::Sound { origin, sfx: scream_sound(ds, rng.next_p()) })
        }),
{
    let mobj_type = ctx.mobjs()[actor_idx].type_;
    let info = ctx.mobj_info(mobj_type);
    let ds = info.deathsound;
    let sfx = match ds {
        SfxEnum::sfx_podth1 | SfxEnum::sfx_podth2 | SfxEnum::sfx_podth3 => {
            let r = ctx.p_random();
            if r % 3 == 0 {
                SfxEnum::sfx_podth1
            } else if r % 3 == 1 {
                SfxEnum::sfx_podth2
            } else {
                SfxEnum::sfx_podth3
            }
        },
        SfxEnum::sfx_bgdth1 | SfxEnum::sfx_bgdth2 => {
            let r = ctx.p_random();
            if r % 2 == 0 {
                SfxEnum::sfx_bgdth1
            } else {
                SfxEnum::sfx_bgdth2
            }
        },
        _ => ds,
    };
    if mobj_type == MT_SPIDER || mobj_type == MT_CYBORG {
        ctx.s_start_sound(None, sfx);
    } else {
        ctx.s_start_sound(Some(actor_idx), sfx);
    }
}

/// `A_Explode`: an explosion of 128 damage at the thing, credited to its
/// target (the shooter) or else to itself.
pub fn a_explode<C: EnemyContext>(actor_idx: usize, ctx: &mut C)
    requires
        actor_idx < old(ctx).mobjs_view().len(),
    ensures
        final(ctx).events() == old(ctx).events().push(EnemyEvent::RadiusAttack {
            spot: actor_idx,
            source: match old(ctx).mobjs_view()[actor_idx as int].target {
                Some(t) => t,
                None => actor_idx,
            },
            damage: 128,
        }),
{
    let source = match ctx.mobjs()[actor_idx].target {
        Some(t) => t,
        None => actor_idx,
    };
    ctx.p_radius_attack(actor_idx, source, 128);
}

/// `A_OpenShotgun2`: the super shotgun opening sound.
pub fn a_open_shotgun2<C: EnemyContext>(actor_idx: usize, ctx: &mut C)
    ensures
        only_event(*old(ctx), *final(ctx), EnemyEvent::Sound { origin: Some(actor_idx), sfx: SfxEnum::sfx_dbopn }),
{
    ctx.s_start_sound(Some(actor_idx), SfxEnum::sfx_dbopn);
}

/// `A_LoadShotgun2`: the super shotgun loading sound.
pub fn a_load_shotgun2<C: EnemyContext>(actor_idx: usize, ctx: &mut C)
    ensures
        only_event(*old(ctx), *final(ctx), EnemyEvent::Sound { origin: Some(actor_idx), sfx: SfxEnum::sfx_dbload }),
{
    ctx.s_start_sound(Some(actor_idx), SfxEnum::sfx_dbload);
}

/// `A_CloseShotgun2`: the super shotgun closing sound.
pub fn a_close_shotgun2<C: EnemyContext>(actor_idx: usize, ctx: &mut C)
    ensures
        only_event(*old(ctx), *final(ctx), EnemyEvent::Sound { origin: Some(actor_idx), sfx: SfxEnum::sfx_dbcls }),
{
    ctx.s_start_sound(Some(actor_idx), SfxEnum::sfx_dbcls);
}

/// `A_VileStart`: the arch-vile's attack sound.
pub fn a_vile_start<C: EnemyContext>(actor_idx: usize, ctx: &mut C)
    ensures
        only_event(*old(ctx), *final(ctx), EnemyEvent::Sound { origin: Some(actor_idx), sfx: SfxEnum::sfx_vilatk }),
{
    ctx.s_start_sound(Some(actor_idx), SfxEnum::sfx_vilatk);
}

/// `A_BrainPain`: the boss brain's pain sound, heard everywhere.
pub fn a_brain_pain<C: EnemyContext>(_actor_idx: usize, ctx: &mut C)
    ensures
        only_event(*old(ctx), *final(ctx), EnemyEvent::Sound { origin: None, sfx: SfxEnum::sfx_bospn }),
{
    ctx.s_start_sound(None, SfxEnum::sfx_bospn);
}

/// `A_BrainDie`: the level ends.
pub fn a_brain_die<C: EnemyContext>(_actor_idx: usize, ctx: &mut C)
    ensures
        only_event(*old(ctx), *final(ctx), EnemyEvent::ExitLevel),
{
    ctx.g_exit_level();
}

/// `A_PlayerScream`: the player's death sound, the extreme one in the
/// commercial game when health fell below -50.
pub fn a_player_scream<C: EnemyContext>(actor_idx: usize, ctx: &mut C)
    requires
        actor_idx < old(ctx).mobjs_view().len(),
    ensures
        only_event(*old(ctx), *final(ctx), EnemyEvent::Sound {
            origin: Some(actor_idx),
            sfx: if old(ctx).mode_view() == GameMode::Commercial && old(ctx).mobjs_view()[actor_idx as int].health < -50 {
                SfxEnum::sfx_pdiehi
            } else {
                SfxEnum::sfx_pldeth
            },
        }),
{
    let health = ctx.mobjs()[actor_idx].health;
    let is_commercial = ctx.gamemode() == GameMode::Commercial;
    let sfx = if is_commercial && health < -50 { SfxEnum::sfx_pdiehi } else { SfxEnum::sfx_pldeth };
    ctx.s_start_sound(Some(actor_idx), sfx);
}

// ---------------------------------------------------------------------------
// Facing and range checks
// ---------------------------------------------------------------------------

/// The random fuzz added to an angle from two draws `r1`, `r2`, shifted by `shift`.
pub open spec fn fuzz(r1: u8, r2: u8, shift: u32) -> u32 {
    ((r1 as i32 - r2 as i32) as u32) << shift
}

/// The things and random stream after `A_FaceTarget` of thing `actor`:
/// it stops ambushing and, with a target, turns toward it; toward a target
/// with partial invisibility it turns by a random fuzz besides.
pub open spec fn face_target<C: EnemyContext>(ctx: C, actor: usize) -> (Seq<MapObject>, DoomRandom) {
    let mobjs = ctx.mobjs_view();
    let rng = ctx.rng_view();
    let m = mobjs[actor as int];
    let m1 = MapObject { flags: m.flags & !MF_AMBUSH, ..m };
    let s1 = mobjs.update(actor as int, m1);
    match m.target {
        None => (s1, rng),
        Some(t) => {
            let tg = s1[t as int];
            let a = ctx.angle_view(m.x, m.y, tg.x, tg.y);
            if (tg.flags & MF_SHADOW) != 0 {
                let r1 = rng.next_p();
                let r2 = rng.advanced().next_p();
                (s1.update(actor as int, MapObject { angle: Angle(a.0.wrapping_add(fuzz(r1, r2, 21))), ..m1 }), rng.advanced().advanced())
            } else {
                (s1.update(actor as int, MapObject { angle: a, ..m1 }), rng)
            }
        },
    }
}

/// The thing `actor` and its target, if any, exist.
pub open spec fn target_ok(mobjs: Seq<MapObject>, actor: usize) -> bool {
    &&& actor < mobjs.len()
    &&& mobjs[actor as int].target matches Some(t) ==> t < mobjs.len()
}

/// `A_FaceTarget`: see [`face_target`]. Nothing is requested.
pub fn a_face_target<C: EnemyContext>(actor_idx: usize, ctx: &mut C)
    requires
        target_ok(old(ctx).mobjs_view(), actor_idx),
    ensures
        (final(ctx).mobjs_view(), final(ctx).rng_view()) == face_target(*old(ctx), actor_idx),
        final(ctx).events() == old(ctx).events(),
        same_tables(*old(ctx), *final(ctx)),
        final(ctx).thinkers_view() == old(ctx).thinkers_view(),
        forall|a: usize, b: usize| #[trigger] final(ctx).sight_view(a, b) == old(ctx).sight_view(a, b),
{
    let mut m = ctx.mobjs()[actor_idx];
    m.flags = m.flags & !MF_AMBUSH;
    ctx.set_mobj(actor_idx, m);
    let target_idx = match m.target {
        Some(t) => t,
        None => return,
    };
    let tg = ctx.mobjs()[target_idx];
    let angle = ctx.point_to_angle2(m.x, m.y, tg.x, tg.y);
    if (tg.flags & MF_SHADOW) != 0 {
        let r1 = ctx.p_random();
        let r2 = ctx.p_random();
        let f: u32 = (#[verifier::truncate] ((r1 as i32 - r2 as i32) as u32)) << 21u32;
        m.angle = Angle(angle.0.wrapping_add(f));
    } else {
        m.angle = angle;
    }
    ctx.set_mobj(actor_idx, m);
}

/// How far the melee check measures from `m` to `t`: the octagonal distance
/// of the wrapped coordinate differences.
pub open spec fn melee_distance(m: MapObject, t: MapObject) -> int {
    aprox_distance(
        wrapping_abs(m.x.0.wrapping_sub(t.x.0)) as i32,
        wrapping_abs(m.y.0.wrapping_sub(t.y.0)) as i32,
    )
}

/// The target `t` is within melee reach of `m`: closer than
/// [`MELEERANGE`] less 20 units plus the target type's radius.
pub open spec fn in_melee_reach<C: EnemyContext>(ctx: C, m: MapObject, t: MapObject) -> bool {
    melee_distance(m, t) < MELEERANGE - 20 * FRACUNIT + ctx.info_view(t.type_).radius.0
}

/// The distance and reach computations of the melee check fit.
pub open spec fn melee_fits<C: EnemyContext>(ctx: C, actor: usize) -> bool {
    let mobjs = ctx.mobjs_view();
    mobjs[actor as int].target matches Some(t) ==> {
        let m = mobjs[actor as int];
        let tg = mobjs[t as int];
        &&& i32::MIN <= wrapping_abs(wrapping_abs(m.x.0.wrapping_sub(tg.x.0)) as i32)
            + wrapping_abs(wrapping_abs(m.y.0.wrapping_sub(tg.y.0)) as i32) <= i32::MAX
        &&& i32::MIN <= MELEERANGE - 20 * FRACUNIT + ctx.info_view(tg.type_).radius.0 <= i32::MAX
    }
}

/// `P_CheckMeleeRange`: the thing has a target, within melee reach (see
/// [`in_melee_reach`]), that it can see. Nothing changes.
pub fn p_check_melee_range<C: EnemyContext>(actor_idx: usize, ctx: &mut C) -> (r: bool)
    requires
        target_ok(old(ctx).mobjs_view(), actor_idx),
        melee_fits(*old(ctx), actor_idx),
    ensures
        nothing(*old(ctx), *final(ctx)),
        forall|a: usize, b: usize| #[trigger] final(ctx).sight_view(a, b) == old(ctx).sight_view(a, b),
        r == match old(ctx).mobjs_view()[actor_idx as int].target {
            None => false,
            Some(t) => in_melee_reach(*old(ctx), old(ctx).mobjs_view()[actor_idx as int], old(ctx).mobjs_view()[t as int])
                && old(ctx).sight_view(actor_idx, t),
        },
{
    let actor = ctx.mobjs()[actor_idx];
    let target_idx = match actor.target {
        Some(t) => t,
        None => return false,
    };
    let target = ctx.mobjs()[target_idx];
    let dx = abs_of_wrapped(actor.x.0.wrapping_sub(target.x.0));
    let dy = abs_of_wrapped(actor.y.0.wrapping_sub(target.y.0));
    let dist = p_aprox_distance(Fixed(dx), Fixed(dy));
    let info = ctx.mobj_info(target.type_);
    let melee_threshold = MELEERANGE - 20 * FRACUNIT + info.radius.0;
    if dist.0 >= melee_threshold {
        return false;
    }
    ctx.p_check_sight(actor_idx, target_idx)
}

/// `i32::wrapping_abs`.
fn abs_of_wrapped(v: i32) -> (r: i32)
    ensures
        r == wrapping_abs(v),
{
    if v == i32::MIN {
        v
    } else if v < 0 {
        -v
    } else {
        v
    }
}

/// The distance score `P_CheckMissileRange` compares with a random number
/// for thing `m` (type info `info`) and its target `t`, or `None` when it
/// refuses to fire whatever the number: the octagonal distance less 64
/// units (and 128 more without a melee attack), in whole units; an
/// arch-vile refuses beyond 896, a revenant refuses under 196 and halves
/// the rest, the cyberdemon, spider mastermind and lost soul halve it;
/// at most 200, or 160 for the two bosses.
pub open spec fn missile_score(m: MapObject, t: MapObject, info: MobjInfo) -> Option<int> {
    let d0 = aprox_distance(m.x.0.wrapping_sub(t.x.0), m.y.0.wrapping_sub(t.y.0)) - 64 * FRACUNIT;
    let d1 = if info.meleestate == S_NULL { d0 - 128 * FRACUNIT } else { d0 };
    let d = ((d1 as i32) >> 16i32) as int;
    let ty = m.type_;
    if ty == MT_VILE && d > 14 * 64 {
        None
    } else if ty == MT_UNDEAD && d < 196 {
        None
    } else {
        let h = if ty == MT_UNDEAD || ty == MT_CYBORG || ty == MT_SPIDER || ty == MT_SKULL { ((d as i32) >> 1i32) as int } else { d };
        let c = if h > 200 { 200 } else { h };
        Some(if (ty == MT_CYBORG || ty == MT_SPIDER) && c > 160 { 160 } else { c })
    }
}

/// The distance computations of the missile check fit.
pub open spec fn missile_fits(mobjs: Seq<MapObject>, actor: usize) -> bool {
    mobjs[actor as int].target matches Some(t) ==> {
        let m = mobjs[actor as int];
        let tg = mobjs[t as int];
        i32::MIN <= wrapping_abs(m.x.0.wrapping_sub(tg.x.0)) + wrapping_abs(m.y.0.wrapping_sub(tg.y.0)) <= i32::MAX
    }
}

/// `P_CheckMissileRange`: whether the thing fires at its target now.
///
/// Just hit by its target, it fires back when it can see it (and forgets
/// it was hit). Otherwise: never without a target or while its reaction
/// time runs; else when one random number is at least the distance score
/// ([`missile_score`]) and it can see the target.
pub fn p_check_missile_range<C: EnemyContext>(actor_idx: usize, ctx: &mut C) -> (r: bool)
    requires
        target_ok(old(ctx).mobjs_view(), actor_idx),
        missile_fits(old(ctx).mobjs_view(), actor_idx),
    ensures
        same_tables(*old(ctx), *final(ctx)),
        ({
            let m = old(ctx).mobjs_view()[actor_idx as int];
            let rng = old(ctx).rng_view();
            if (m.flags & MF_JUSTHIT) != 0 {
                match m.target {
                    None => !r && nothing(*old(ctx), *final(ctx)),
                    Some(t) => if old(ctx).sight_view(actor_idx, t) {
                        r && only_mobj(*old(ctx), *final(ctx), actor_idx, MapObject { flags: m.flags & !MF_JUSTHIT, ..m })
                    } else {
                        !r && nothing(*old(ctx), *final(ctx))
                    },
                }
            } else {
                match m.target {
                    None => !r && nothing(*old(ctx), *final(ctx)),
                    Some(t) => if m.reactiontime > 0 {
                        !r && nothing(*old(ctx), *final(ctx))
                    } else {
                        match missile_score(m, old(ctx).mobjs_view()[t as int], old(ctx).info_view(m.type_)) {
                            None => !r && nothing(*old(ctx), *final(ctx)),
                            Some(score) => {
                                &&& r == (rng.next_p() >= score && old(ctx).sight_view(actor_idx, t))
                                &&& final(ctx).mobjs_view() == old(ctx).mobjs_view()
                                &&& final(ctx).rng_view() == rng.advanced()
                                &&& final(ctx).events() == old(ctx).events()
                            },
                        }
                    },
                }
            }
        }),
{
    let actor = ctx.mobjs()[actor_idx];
    if (actor.flags & MF_JUSTHIT) != 0 {
        let target_idx = match actor.target {
            Some(t) => t,
            None => return false,
        };
        if !ctx.p_check_sight(actor_idx, target_idx) {
            return false;
        }
        let mut m = actor;
        m.flags = m.flags & !MF_JUSTHIT;
        ctx.set_mobj(actor_idx, m);
        return true;
    }
    let target_idx = match actor.target {
        Some(t) => t,
        None => return false,
    };
    if actor.reactiontime > 0 {
        return false;
    }
    let target = ctx.mobjs()[target_idx];
    let dx = Fixed(actor.x.0.wrapping_sub(target.x.0));
    let dy = Fixed(actor.y.0.wrapping_sub(target.y.0));
    let mut dist = p_aprox_distance(dx, dy).0 - 64 * FRACUNIT;
    let info = ctx.mobj_info(actor.type_);
    if info.meleestate == S_NULL {
        dist = dist - 128 * FRACUNIT;
    }
    dist = dist >> 16i32;
    let ty = actor.type_;
    if ty == MT_VILE {
        if dist > 14 * 64 {
            return false;
        }
    } else if ty == MT_UNDEAD {
        if dist < 196 {
            return false;
        }
        dist = dist >> 1i32;
    } else if ty == MT_CYBORG || ty == MT_SPIDER || ty == MT_SKULL {
        dist = dist >> 1i32;
    }
    if dist > 200 {
        dist = 200;
    }
    if (ty == MT_CYBORG || ty == MT_SPIDER) && dist > 160 {
        dist = 160;
    }
    let rng_val = ctx.p_random() as i32;
    if rng_val < dist {
        return false;
    }
    ctx.p_check_sight(actor_idx, target_idx)
}


// ---------------------------------------------------------------------------
// Looking and chasing
// ---------------------------------------------------------------------------

/// `P_LookForPlayers`: the engine looks for a player the monster can see
/// (all around it, or only in front) and targets it; whether it found one.
pub fn p_look_for_players<C: EnemyContext>(actor_idx: usize, allaround: bool, ctx: &mut C) -> (r: bool)
    ensures
        same_tables(*old(ctx), *final(ctx)),
        final(ctx).rng_view() == old(ctx).rng_view(),
        final(ctx).events() == old(ctx).events().push(EnemyEvent::LookForPlayers { mobj: actor_idx, allaround, found: r }),
        final(ctx).mobjs_view().len() == old(ctx).mobjs_view().len(),
        forall|i: int| 0 <= i < old(ctx).mobjs_view().len() && i != actor_idx ==>
            #[trigger] final(ctx).mobjs_view()[i] == old(ctx).mobjs_view()[i],
        actor_idx < old(ctx).mobjs_view().len() ==> final(ctx).mobjs_view()[actor_idx as int]
            == (MapObject { target: final(ctx).mobjs_view()[actor_idx as int].target, ..old(ctx).mobjs_view()[actor_idx as int] }),
{
    ctx.p_look_for_players(actor_idx, allaround)
}

/// The sight sound a monster whose type's sight sound is `ss` makes, given
/// the random value `r`: the three zombie and the two imp sight sounds are
/// picked among at random.
pub open spec fn see_sound(ss: SfxEnum, r: u8) -> SfxEnum {
    if ss == SfxEnum::sfx_posit1 || ss == SfxEnum::sfx_posit2 || ss == SfxEnum::sfx_posit3 {
        if r % 3 == 0 {
            SfxEnum::sfx_posit1
        } else if r % 3 == 1 {
            SfxEnum::sfx_posit2
        } else {
            SfxEnum::sfx_posit3
        }
    } else if ss == SfxEnum::sfx_bgsit1 || ss == SfxEnum::sfx_bgsit2 {
        if r % 2 == 0 { SfxEnum::sfx_bgsit1 } else { SfxEnum::sfx_bgsit2 }
    } else {
        ss
    }
}

/// What a monster waking up requests: its sight sound ([`see_sound`],
/// heard everywhere for the spider mastermind and the cyberdemon; none
/// when the type has none), then its see state.
pub open spec fn see_requests(actor: usize, ty: usize, info: MobjInfo, rng: DoomRandom) -> Seq<EnemyEvent> {
    let origin = if ty == MT_SPIDER || ty == MT_CYBORG { None } else { Some(actor) };
    let sounds = if info.seesound == SfxEnum::sfx_None {
        Seq::<EnemyEvent>::empty()
    } else {
        seq![EnemyEvent::Sound { origin, sfx: see_sound(info.seesound, rng.next_p()) }]
    };
    sounds.push(EnemyEvent::SetState { mobj: actor, state: info.seestate })
}

/// A monster wakes up: see [`see_requests`].
fn goto_seesound<C: EnemyContext>(actor_idx: usize, ctx: &mut C)
    requires
        actor_idx < old(ctx).mobjs_view().len(),
    ensures
        same_tables(*old(ctx), *final(ctx)),
        final(ctx).mobjs_view().len() >= old(ctx).mobjs_view().len(),
        final(ctx).events() == old(ctx).events() + see_requests(
            actor_idx,
            old(ctx).mobjs_view()[actor_idx as int].type_,
            old(ctx).info_view(old(ctx).mobjs_view()[actor_idx as int].type_),
            old(ctx).rng_view(),
        ),
{
    let ghost pre = *ctx;
    let actor_type = ctx.mobjs()[actor_idx].type_;
    let info = ctx.mobj_info(actor_type);
    let ss = info.seesound;
    let sfx = match ss {
        SfxEnum::sfx_posit1 | SfxEnum::sfx_posit2 | SfxEnum::sfx_posit3 => {
            let r = ctx.p_random();
            if r % 3 == 0 {
                SfxEnum::sfx_posit1
            } else if r % 3 == 1 {
                SfxEnum::sfx_posit2
            } else {
                SfxEnum::sfx_posit3
            }
        },
        SfxEnum::sfx_bgsit1 | SfxEnum::sfx_bgsit2 => {
            let r = ctx.p_random();
            if r % 2 == 0 {
                SfxEnum::sfx_bgsit1
            } else {
                SfxEnum::sfx_bgsit2
            }
        },
        _ => ss,
    };
    let ghost mid = ctx.events();
    if sfx != SfxEnum::sfx_None {
        if actor_type == MT_SPIDER || actor_type == MT_CYBORG {
            ctx.s_start_sound(None, sfx);
        } else {
            ctx.s_start_sound(Some(actor_idx), sfx);
        }
    }
    ctx.p_set_mobj_state(actor_idx, info.seestate);
    proof {
        let reqs = see_requests(actor_idx, actor_type, info, pre.rng_view());
        if ss == SfxEnum::sfx_None {
            assert(ctx.events() =~= pre.events() + reqs);
        } else {
            assert(ctx.events() =~= pre.events() + reqs);
        }
    }
}

/// The thing that woke a monster `m` by noise: the last noise maker in
/// its sector, when it can be shot.
pub open spec fn heard<C: EnemyContext>(ctx: C, m: MapObject) -> Option<usize> {
    match m.subsector {
        None => None,
        Some(ss) => match ctx.soundtarget_view(ss) {
            Some(t) => if ctx.mobjs_view()[t as int].flags & MF_SHOOTABLE != 0 { Some(t) } else { None },
            None => None,
        },
    }
}

/// The noise maker of the monster's sector, if any, is a thing.
pub open spec fn sound_target_ok<C: EnemyContext>(ctx: C, actor: usize) -> bool {
    &&& actor < ctx.mobjs_view().len()
    &&& ctx.mobjs_view()[actor as int].subsector matches Some(ss) ==> (ctx.soundtarget_view(ss) matches Some(t)
        ==> t < ctx.mobjs_view().len())
}

/// `A_Look`: an idle monster forgets its threshold. A shootable noise
/// maker in its sector becomes its target, and wakes it ([`see_requests`])
/// unless it lies in ambush and cannot see it. Otherwise it looks for
/// players in front of it and wakes when it finds one.
pub fn a_look<C: EnemyContext>(actor_idx: usize, ctx: &mut C)
    requires
        sound_target_ok(*old(ctx), actor_idx),
    ensures
        ({
            let pre = *old(ctx);
            let post = *final(ctx);
            let m = pre.mobjs_view()[actor_idx as int];
            let n = pre.events().len() as int;
            let wake = see_requests(actor_idx, m.type_, pre.info_view(m.type_), pre.rng_view());
            &&& same_tables(pre, post)
            &&& post.mobjs_view().len() >= pre.mobjs_view().len()
            &&& if heard(pre, m) matches Some(t) && ((m.flags & MF_AMBUSH) == 0 || pre.sight_view(actor_idx, t)) {
                post.events() == pre.events() + wake
            } else {
                let look = EnemyEvent::LookForPlayers { mobj: actor_idx, allaround: false, found: post.events()[n]->found };
                &&& post.events().len() > n
                &&& post.events()[n] is LookForPlayers
                &&& post.events() == pre.events().push(look) + if post.events()[n]->found { wake } else { Seq::empty() }
            }
        }),
{
    let ghost pre = *ctx;
    let mut m = ctx.mobjs()[actor_idx];
    m.threshold = 0;
    ctx.set_mobj(actor_idx, m);
    match m.subsector {
        None => {
            let found = p_look_for_players(actor_idx, false, ctx);
            if found {
                goto_seesound(actor_idx, ctx);
            }
            proof {
                let look = EnemyEvent::LookForPlayers { mobj: actor_idx, allaround: false, found };
                assert(ctx.events()[pre.events().len() as int] == look);
                if !found {
                    assert(ctx.events() =~= pre.events().push(look) + Seq::empty());
                }
            }
            return;
        },
        Some(ss) => {
            let st = ctx.sound_target(ss);
            if let Some(targ_idx) = st {
                let shootable = ctx.mobjs()[targ_idx].flags & MF_SHOOTABLE != 0;
                if shootable {
                    let mut a = ctx.mobjs()[actor_idx];
                    a.target = Some(targ_idx);
                    ctx.set_mobj(actor_idx, a);
                    if m.flags & MF_AMBUSH != 0 {
                        if ctx.p_check_sight(actor_idx, targ_idx) {
                            goto_seesound(actor_idx, ctx);
                            return;
                        }
                    } else {
                        goto_seesound(actor_idx, ctx);
                        return;
                    }
                }
            }
        },
    }
    let found = p_look_for_players(actor_idx, false, ctx);
    if found {
        goto_seesound(actor_idx, ctx);
    }
    proof {
        let look = EnemyEvent::LookForPlayers { mobj: actor_idx, allaround: false, found };
        assert(ctx.events()[pre.events().len() as int] == look);
        if !found {
            assert(ctx.events() =~= pre.events().push(look) + Seq::empty());
        }
    }
}

/// No thinking thing is a live thing of type `t`.
pub open spec fn none_alive(ms: Seq<MapObject>, thinkers: Seq<usize>, t: usize) -> bool {
    forall|k: int| 0 <= k < thinkers.len() ==> !(#[trigger] ms[thinkers[k] as int].type_ == t && ms[thinkers[k] as int].health > 0)
}

/// `A_KeenDie`: a Commander Keen falls ([`a_fall`]); when no thinking
/// thing of its type is alive any more, the doors tagged 666 open.
pub fn a_keen_die<C: EnemyContext>(actor_idx: usize, ctx: &mut C)
    requires
        actor_idx < old(ctx).mobjs_view().len(),
    ensures
        ({
            let pre = *old(ctx);
            let post = *final(ctx);
            let m = pre.mobjs_view()[actor_idx as int];
            let fallen = MapObject { flags: m.flags & !MF_SOLID, ..m };
            let ms = pre.mobjs_view().update(actor_idx as int, fallen);
            if none_alive(ms, pre.thinkers_view(), m.type_) {
                &&& same_tables(pre, post)
                &&& post.events() == pre.events().push(EnemyEvent::DoorByTag { tag: 666, door_type: VldoorType::Open })
            } else {
                only_mobj(pre, post, actor_idx, fallen)
            }
        }),
{
    let ghost pre = *ctx;
    a_fall(actor_idx, ctx);
    let ghost fallen = ctx.mobjs_view()[actor_idx as int];
    let keen_type = ctx.mobjs()[actor_idx].type_;
    let indices = ctx.collect_mobj_thinker_indices();
    let mut i: usize = 0;
    while i < indices.len()
        invariant
            0 <= i <= indices@.len(),
            pre == *old(ctx),
            only_mobj(pre, *ctx, actor_idx, fallen),
            ctx.thinkers_view() == pre.thinkers_view(),
            actor_idx < pre.mobjs_view().len(),
            fallen == (MapObject { flags: pre.mobjs_view()[actor_idx as int].flags & !MF_SOLID, ..pre.mobjs_view()[actor_idx as int] }),
            keen_type == pre.mobjs_view()[actor_idx as int].type_,
            indices@ == ctx.thinkers_view(),
            forall|k: int| 0 <= k < indices@.len() ==> #[trigger] indices@[k] < ctx.mobjs_view().len(),
            forall|k: int| 0 <= k < i ==> !(#[trigger] ctx.mobjs_view()[indices@[k] as int].type_ == keen_type
                && ctx.mobjs_view()[indices@[k] as int].health > 0),
        decreases indices@.len() - i,
    {
        let mo = ctx.mobjs()[indices[i]];
        if mo.type_ == keen_type && mo.health > 0 {
            assert(!none_alive(ctx.mobjs_view(), ctx.thinkers_view(), keen_type)) by {
                assert(ctx.mobjs_view()[ctx.thinkers_view()[i as int] as int].type_ == keen_type);
            }
            return;
        }
        i = i + 1;
    }
    ctx.ev_do_door_by_tag(666, VldoorType::Open);
}

// ---------------------------------------------------------------------------
// Attacks
// ---------------------------------------------------------------------------

/// The damage of a zombie's hitscan shot from the random value `r`: 3 to 15.
pub open spec fn shot_damage(r: u8) -> i32 {
    (((r % 5) as i32 + 1) * 3) as i32
}

/// The line attack of one hitscan shot from thing `actor` aimed at `bangle`
/// with `slope`, drawing three random values from `rng`: the angle spread
/// by the first two, the damage from the third.
pub open spec fn hitscan_shot(actor: usize, bangle: Angle, slope: Fixed, rng: DoomRandom) -> EnemyEvent {
    let a = rng.next_p();
    let b = rng.advanced().next_p();
    let c = rng.advanced().advanced().next_p();
    EnemyEvent::LineAttack {
        source: actor,
        angle: Angle(bangle.0.wrapping_add(fuzz(a, b, 20))),
        range: Fixed(MISSILERANGE),
        slope,
        damage: shot_damage(c),
    }
}

/// Fire one hitscan shot (see [`hitscan_shot`]).
fn fire_hitscan<C: EnemyContext>(actor_idx: usize, bangle: Angle, slope: Fixed, ctx: &mut C)
    ensures
        final(ctx).events() == old(ctx).events().push(hitscan_shot(actor_idx, bangle, slope, old(ctx).rng_view())),
        final(ctx).mobjs_view().len() >= old(ctx).mobjs_view().len(),
{
    let r1 = ctx.p_random();
    let r2 = ctx.p_random();
    let spread: u32 = (#[verifier::truncate] ((r1 as i32 - r2 as i32) as u32)) << 20u32;
    let fire_angle = Angle(bangle.0.wrapping_add(spread));
    let r3 = ctx.p_random();
    let damage = ((r3 % 5) as i32 + 1) * 3;
    ctx.p_line_attack(actor_idx, fire_angle, Fixed(MISSILERANGE), slope, damage);
}

/// `A_PosAttack`: with a target, the zombie faces it ([`face_target`]),
/// fires its pistol (sound) and shoots once: the angle spread by two
/// random values, 3 to 15 damage from a third, at the slope aiming along
/// the spread angle finds.
#[verifier::rlimit(40)]
pub fn a_pos_attack<C: EnemyContext>(actor_idx: usize, ctx: &mut C)
    requires
        target_ok(old(ctx).mobjs_view(), actor_idx),
    ensures
        old(ctx).mobjs_view()[actor_idx as int].target is None ==> nothing(*old(ctx), *final(ctx)),
        old(ctx).mobjs_view()[actor_idx as int].target is Some ==> {
            let (ms1, r1) = face_target(*old(ctx), actor_idx);
            exists|slope: Fixed| final(ctx).events() == old(ctx).events().push(
                EnemyEvent::Sound { origin: Some(actor_idx), sfx: SfxEnum::sfx_pistol },
            ).push(#[trigger] hitscan_shot(actor_idx, ms1[actor_idx as int].angle, slope, r1))
        },
{
    if ctx.mobjs()[actor_idx].target.is_none() {
        return;
    }
    a_face_target(actor_idx, ctx);
    let angle = ctx.mobjs()[actor_idx].angle;
    ctx.s_start_sound(Some(actor_idx), SfxEnum::sfx_pistol);
    let r1 = ctx.p_random();
    let r2 = ctx.p_random();
    let spread: u32 = (#[verifier::truncate] ((r1 as i32 - r2 as i32) as u32)) << 20u32;
    let fire_angle = Angle(angle.0.wrapping_add(spread));
    let r3 = ctx.p_random();
    let damage = ((r3 % 5) as i32 + 1) * 3;
    let (slope, _target) = ctx.p_aim_line_attack(actor_idx, fire_angle, Fixed(MISSILERANGE));
    ctx.p_line_attack(actor_idx, fire_angle, Fixed(MISSILERANGE), slope, damage);
    assert(ctx.events() == old(ctx).events().push(
        EnemyEvent::Sound { origin: Some(actor_idx), sfx: SfxEnum::sfx_pistol },
    ).push(hitscan_shot(actor_idx, angle, slope, face_target(*old(ctx), actor_idx).1)));
}

/// `A_SPosAttack`: with a target, the shotgun sound; the sergeant faces
/// its target ([`face_target`]), aims once along its facing and fires three
/// hitscan shots at that slope, each spread and damaged by its own three
/// random values (the first by the values following the facing's draws).
pub fn a_spos_attack<C: EnemyContext>(actor_idx: usize, ctx: &mut C)
    requires
        target_ok(old(ctx).mobjs_view(), actor_idx),
    ensures
        old(ctx).mobjs_view()[actor_idx as int].target is None ==> nothing(*old(ctx), *final(ctx)),
        old(ctx).mobjs_view()[actor_idx as int].target is Some ==> {
            let (ms1, r1) = face_target(*old(ctx), actor_idx);
            let bangle = ms1[actor_idx as int].angle;
            exists|slope: Fixed, r2: DoomRandom, r3: DoomRandom| final(ctx).events() == old(ctx).events().push(
                EnemyEvent::Sound { origin: Some(actor_idx), sfx: SfxEnum::sfx_shotgn },
            ).push(#[trigger] hitscan_shot(actor_idx, bangle, slope, r1)).push(#[trigger] hitscan_shot(actor_idx, bangle, slope, r2)).push(
                #[trigger] hitscan_shot(actor_idx, bangle, slope, r3),
            )
        },
{
    if ctx.mobjs()[actor_idx].target.is_none() {
        return;
    }
    ctx.s_start_sound(Some(actor_idx), SfxEnum::sfx_shotgn);
    a_face_target(actor_idx, ctx);
    let bangle = ctx.mobjs()[actor_idx].angle;
    let (slope, _target) = ctx.p_aim_line_attack(actor_idx, bangle, Fixed(MISSILERANGE));
    fire_hitscan(actor_idx, bangle, slope, ctx);
    let ghost rb = ctx.rng_view();
    fire_hitscan(actor_idx, bangle, slope, ctx);
    let ghost rc = ctx.rng_view();
    fire_hitscan(actor_idx, bangle, slope, ctx);
    assert(ctx.events() == old(ctx).events().push(
        EnemyEvent::Sound { origin: Some(actor_idx), sfx: SfxEnum::sfx_shotgn },
    ).push(hitscan_shot(actor_idx, bangle, slope, face_target(*old(ctx), actor_idx).1)).push(
        hitscan_shot(actor_idx, bangle, slope, rb),
    ).push(hitscan_shot(actor_idx, bangle, slope, rc)));
}

/// `A_CPosAttack`: with a target, the shotgun sound; the chaingunner faces
/// its target ([`face_target`]), aims along its facing and fires one
/// hitscan shot at that slope.
pub fn a_cpos_attack<C: EnemyContext>(actor_idx: usize, ctx: &mut C)
    requires
        target_ok(old(ctx).mobjs_view(), actor_idx),
    ensures
        old(ctx).mobjs_view()[actor_idx as int].target is None ==> nothing(*old(ctx), *final(ctx)),
        old(ctx).mobjs_view()[actor_idx as int].target is Some ==> {
            let (ms1, r1) = face_target(*old(ctx), actor_idx);
            exists|slope: Fixed| final(ctx).events() == old(ctx).events().push(
                EnemyEvent::Sound { origin: Some(actor_idx), sfx: SfxEnum::sfx_shotgn },
            ).push(#[trigger] hitscan_shot(actor_idx, ms1[actor_idx as int].angle, slope, r1))
        },
{
    if ctx.mobjs()[actor_idx].target.is_none() {
        return;
    }
    ctx.s_start_sound(Some(actor_idx), SfxEnum::sfx_shotgn);
    a_face_target(actor_idx, ctx);
    let bangle = ctx.mobjs()[actor_idx].angle;
    let (slope, _target) = ctx.p_aim_line_attack(actor_idx, bangle, Fixed(MISSILERANGE));
    fire_hitscan(actor_idx, bangle, slope, ctx);
    assert(ctx.events() == old(ctx).events().push(
        EnemyEvent::Sound { origin: Some(actor_idx), sfx: SfxEnum::sfx_shotgn },
    ).push(hitscan_shot(actor_idx, bangle, slope, face_target(*old(ctx), actor_idx).1)));
}

/// The refire check shared by the chaingunner and the spider mastermind:
/// after facing the target, a random value below `keep` keeps firing;
/// otherwise, without a target, or with a dead or unseen one, the thing
/// returns to its type's see state.
fn refire<C: EnemyContext>(actor_idx: usize, keep: u8, ctx: &mut C)
    requires
        target_ok(old(ctx).mobjs_view(), actor_idx),
    ensures
        refired::<C>(*old(ctx), *final(ctx), actor_idx, keep),
{
    a_face_target(actor_idx, ctx);
    let r = ctx.p_random();
    if r < keep {
        return;
    }
    let m = ctx.mobjs()[actor_idx];
    let target_idx = match m.target {
        Some(t) => t,
        None => {
            let see_state = ctx.mobj_info(m.type_).seestate;
            ctx.p_set_mobj_state(actor_idx, see_state);
            return;
        },
    };
    let target_dead = ctx.mobjs()[target_idx].health <= 0;
    if target_dead || !ctx.p_check_sight(actor_idx, target_idx) {
        let see_state = ctx.mobj_info(m.type_).seestate;
        ctx.p_set_mobj_state(actor_idx, see_state);
    }
}

/// What the refire check with threshold `keep` does (see [`a_cpos_refire`]).
pub open spec fn refired<C: EnemyContext>(pre: C, post: C, actor: usize, keep: u8) -> bool {
    let (ms1, r1) = face_target(pre, actor);
    let m = ms1[actor as int];
    let stop = EnemyEvent::SetState { mobj: actor, state: pre.info_view(m.type_).seestate };
    if r1.next_p() < keep {
        post.mobjs_view() == ms1 && post.rng_view() == r1.advanced() && post.events() == pre.events()
    } else {
        match m.target {
            None => post.events() == pre.events().push(stop),
            Some(t) => if ms1[t as int].health <= 0 {
                post.events() == pre.events().push(stop)
            } else {
                ||| post.events() == pre.events().push(stop)
                ||| post.mobjs_view() == ms1 && post.rng_view() == r1.advanced() && post.events() == pre.events()
            },
        }
    }
}

/// `A_CPosRefire`: the chaingunner keeps firing on a random value under 40;
/// otherwise it stops (returns to its see state) when its target is gone,
/// dead or out of sight.
pub fn a_cpos_refire<C: EnemyContext>(actor_idx: usize, ctx: &mut C)
    requires
        target_ok(old(ctx).mobjs_view(), actor_idx),
    ensures
        refired::<C>(*old(ctx), *final(ctx), actor_idx, 40),
{
    refire(actor_idx, 40, ctx);
}

/// `A_SpidRefire`: as [`a_cpos_refire`], keeping firing on a random value under 10.
pub fn a_spid_refire<C: EnemyContext>(actor_idx: usize, ctx: &mut C)
    requires
        target_ok(old(ctx).mobjs_view(), actor_idx),
    ensures
        refired::<C>(*old(ctx), *final(ctx), actor_idx, 10),
{
    refire(actor_idx, 10, ctx);
}

/// A missile of type `mtype` from thing `actor` at its target, fired
/// facing as in `ms1`.
pub open spec fn missile_at_target(ms1: Seq<MapObject>, actor: usize, mtype: usize) -> EnemyEvent {
    EnemyEvent::SpawnMissile { source: actor, dest: ms1[actor as int].target->0, mtype, angle: ms1[actor as int].angle }
}

/// Face the target, then fire a missile of type `mtype` at it.
fn face_and_fire<C: EnemyContext>(actor_idx: usize, mtype: usize, ctx: &mut C)
    requires
        target_ok(old(ctx).mobjs_view(), actor_idx),
        old(ctx).mobjs_view()[actor_idx as int].target is Some,
    ensures
        final(ctx).events() == old(ctx).events().push(
            missile_at_target(face_target(*old(ctx), actor_idx).0, actor_idx, mtype),
        ),
{
    a_face_target(actor_idx, ctx);
    let target_idx = match ctx.mobjs()[actor_idx].target {
        Some(t) => t,
        None => 0,
    };
    ctx.p_spawn_missile(actor_idx, target_idx, mtype);
}

/// `A_BspiAttack`: with a target, the arachnotron faces it and fires a plasma ball.
pub fn a_bspi_attack<C: EnemyContext>(actor_idx: usize, ctx: &mut C)
    requires
        target_ok(old(ctx).mobjs_view(), actor_idx),
    ensures
        old(ctx).mobjs_view()[actor_idx as int].target is None ==> nothing(*old(ctx), *final(ctx)),
        old(ctx).mobjs_view()[actor_idx as int].target is Some ==> final(ctx).events() == old(ctx).events().push(
            missile_at_target(face_target(*old(ctx), actor_idx).0, actor_idx, MT_ARACHPLAZ),
        ),
{
    if ctx.mobjs()[actor_idx].target.is_none() {
        return;
    }
    face_and_fire(actor_idx, MT_ARACHPLAZ, ctx);
}

/// `A_CyberAttack`: with a target, the cyberdemon faces it and fires a rocket.
pub fn a_cyber_attack<C: EnemyContext>(actor_idx: usize, ctx: &mut C)
    requires
        target_ok(old(ctx).mobjs_view(), actor_idx),
    ensures
        old(ctx).mobjs_view()[actor_idx as int].target is None ==> nothing(*old(ctx), *final(ctx)),
        old(ctx).mobjs_view()[actor_idx as int].target is Some ==> final(ctx).events() == old(ctx).events().push(
            missile_at_target(face_target(*old(ctx), actor_idx).0, actor_idx, MT_ROCKET),
        ),
{
    if ctx.mobjs()[actor_idx].target.is_none() {
        return;
    }
    face_and_fire(actor_idx, MT_ROCKET, ctx);
}

/// A melee hit of `damage` by thing `actor` on its target in `ms1`.
pub open spec fn melee_hit(ms1: Seq<MapObject>, actor: usize, damage: i32) -> EnemyEvent {
    EnemyEvent::Damage { victim: ms1[actor as int].target->0, inflictor: Some(actor), by: Some(actor), damage }
}

/// The melee outcome of a monster attack after facing (`ms1`, `r1`): with
/// the target within reach and in sight, the `sound` (if any) and a hit of
/// `(r % modulus + 1) * scale` damage for the next random value `r`;
/// otherwise a missile of type `missile` at the target, or, for a monster
/// without one, nothing more.
pub open spec fn melee_or_missile<C: EnemyContext>(
    pre: C,
    post: C,
    ms1: Seq<MapObject>,
    r1: DoomRandom,
    actor: usize,
    sound: Option<SfxEnum>,
    modulus: u8,
    scale: i32,
    missile: Option<usize>,
) -> bool {
    let hit = melee_hit(ms1, actor, (((r1.next_p() % modulus) as i32 + 1) * scale) as i32);
    let hit_events = match sound {
        Some(sfx) => pre.events().push(EnemyEvent::Sound { origin: Some(actor), sfx }).push(hit),
        None => pre.events().push(hit),
    };
    let miss_events = match missile {
        Some(mt) => pre.events().push(missile_at_target(ms1, actor, mt)),
        None => pre.events(),
    };
    let t = ms1[actor as int].target->0;
    &&& same_tables(pre, post)
    &&& if in_melee_reach(pre, ms1[actor as int], ms1[t as int]) && pre.sight_view(actor, t) {
        post.events() == hit_events
    } else {
        &&& post.events() == miss_events
        &&& missile is None ==> post.mobjs_view() == ms1 && post.rng_view() == r1
    }
}

/// `A_TroopAttack`: with a target, the imp faces it; within melee reach
/// and sight it claws (sound, 3 to 24 damage), else it throws a fireball.
pub fn a_troop_attack<C: EnemyContext>(actor_idx: usize, ctx: &mut C)
    requires
        target_ok(old(ctx).mobjs_view(), actor_idx),
        melee_fits(*old(ctx), actor_idx),
    ensures
        old(ctx).mobjs_view()[actor_idx as int].target is None ==> nothing(*old(ctx), *final(ctx)),
        old(ctx).mobjs_view()[actor_idx as int].target is Some ==> {
            let (ms1, r1) = face_target(*old(ctx), actor_idx);
            melee_or_missile::<C>(*old(ctx), *final(ctx), ms1, r1, actor_idx, Some(SfxEnum::sfx_claw), 8, 3, Some(MT_TROOPSHOT))
        },
{
    if ctx.mobjs()[actor_idx].target.is_none() {
        return;
    }
    a_face_target(actor_idx, ctx);
    let target_idx = match ctx.mobjs()[actor_idx].target {
        Some(t) => t,
        None => 0,
    };
    let ghost ms1 = ctx.mobjs_view();
    if p_check_melee_range(actor_idx, ctx) {
        ctx.s_start_sound(Some(actor_idx), SfxEnum::sfx_claw);
        let damage = ((ctx.p_random() % 8) as i32 + 1) * 3;
        ctx.p_damage_mobj(target_idx, Some(actor_idx), Some(actor_idx), damage);
        assert(in_melee_reach(*old(ctx), ms1[actor_idx as int], ms1[ms1[actor_idx as int].target->0 as int]));
        return;
    }
    ctx.p_spawn_missile(actor_idx, target_idx, MT_TROOPSHOT);
}

/// `A_SargAttack`: with a target, the demon faces it and, within melee
/// reach and sight, bites for 4 to 40 damage.
pub fn a_sarg_attack<C: EnemyContext>(actor_idx: usize, ctx: &mut C)
    requires
        target_ok(old(ctx).mobjs_view(), actor_idx),
        melee_fits(*old(ctx), actor_idx),
    ensures
        old(ctx).mobjs_view()[actor_idx as int].target is None ==> nothing(*old(ctx), *final(ctx)),
        old(ctx).mobjs_view()[actor_idx as int].target is Some ==> {
            let (ms1, r1) = face_target(*old(ctx), actor_idx);
            melee_or_missile::<C>(*old(ctx), *final(ctx), ms1, r1, actor_idx, None, 10, 4, None)
        },
{
    if ctx.mobjs()[actor_idx].target.is_none() {
        return;
    }
    a_face_target(actor_idx, ctx);
    let target_idx = match ctx.mobjs()[actor_idx].target {
        Some(t) => t,
        None => 0,
    };
    let ghost ms1 = ctx.mobjs_view();
    if p_check_melee_range(actor_idx, ctx) {
        let damage = ((ctx.p_random() % 10) as i32 + 1) * 4;
        ctx.p_damage_mobj(target_idx, Some(actor_idx), Some(actor_idx), damage);
        assert(in_melee_reach(*old(ctx), ms1[actor_idx as int], ms1[ms1[actor_idx as int].target->0 as int]));
    }
}

/// `A_HeadAttack`: with a target, the cacodemon faces it; within melee
/// reach and sight it bites for 10 to 60 damage, else it spits a ball.
pub fn a_head_attack<C: EnemyContext>(actor_idx: usize, ctx: &mut C)
    requires
        target_ok(old(ctx).mobjs_view(), actor_idx),
        melee_fits(*old(ctx), actor_idx),
    ensures
        old(ctx).mobjs_view()[actor_idx as int].target is None ==> nothing(*old(ctx), *final(ctx)),
        old(ctx).mobjs_view()[actor_idx as int].target is Some ==> {
            let (ms1, r1) = face_target(*old(ctx), actor_idx);
            melee_or_missile::<C>(*old(ctx), *final(ctx), ms1, r1, actor_idx, None, 6, 10, Some(MT_HEADSHOT))
        },
{
    if ctx.mobjs()[actor_idx].target.is_none() {
        return;
    }
    a_face_target(actor_idx, ctx);
    let target_idx = match ctx.mobjs()[actor_idx].target {
        Some(t) => t,
        None => 0,
    };
    let ghost ms1 = ctx.mobjs_view();
    if p_check_melee_range(actor_idx, ctx) {
        let damage = ((ctx.p_random() % 6) as i32 + 1) * 10;
        ctx.p_damage_mobj(target_idx, Some(actor_idx), Some(actor_idx), damage);
        assert(in_melee_reach(*old(ctx), ms1[actor_idx as int], ms1[ms1[actor_idx as int].target->0 as int]));
        return;
    }
    ctx.p_spawn_missile(actor_idx, target_idx, MT_HEADSHOT);
}

/// `A_BruisAttack`: with a target and without turning to it, the baron
/// claws (sound, 10 to 80 damage) within melee reach and sight, else
/// throws a ball.
pub fn a_bruis_attack<C: EnemyContext>(actor_idx: usize, ctx: &mut C)
    requires
        target_ok(old(ctx).mobjs_view(), actor_idx),
        melee_fits(*old(ctx), actor_idx),
    ensures
        old(ctx).mobjs_view()[actor_idx as int].target is None ==> nothing(*old(ctx), *final(ctx)),
        old(ctx).mobjs_view()[actor_idx as int].target is Some ==> melee_or_missile::<C>(
            *old(ctx),
            *final(ctx),
            old(ctx).mobjs_view(),
            old(ctx).rng_view(),
            actor_idx,
            Some(SfxEnum::sfx_claw),
            8,
            10,
            Some(MT_BRUISERSHOT),
        ),
{
    let target_idx = match ctx.mobjs()[actor_idx].target {
        Some(t) => t,
        None => return,
    };
    let ghost ms1 = ctx.mobjs_view();
    if p_check_melee_range(actor_idx, ctx) {
        ctx.s_start_sound(Some(actor_idx), SfxEnum::sfx_claw);
        let damage = ((ctx.p_random() % 8) as i32 + 1) * 10;
        ctx.p_damage_mobj(target_idx, Some(actor_idx), Some(actor_idx), damage);
        assert(in_melee_reach(*old(ctx), ms1[actor_idx as int], ms1[ms1[actor_idx as int].target->0 as int]));
        return;
    }
    ctx.p_spawn_missile(actor_idx, target_idx, MT_BRUISERSHOT);
}

/// `A_SkelWhoosh`: with a target, the revenant faces it and swings (sound).
pub fn a_skel_whoosh<C: EnemyContext>(actor_idx: usize, ctx: &mut C)
    requires
        target_ok(old(ctx).mobjs_view(), actor_idx),
    ensures
        old(ctx).mobjs_view()[actor_idx as int].target is None ==> nothing(*old(ctx), *final(ctx)),
        old(ctx).mobjs_view()[actor_idx as int].target is Some ==> {
            let (ms1, r1) = face_target(*old(ctx), actor_idx);
            &&& final(ctx).mobjs_view() == ms1
            &&& final(ctx).rng_view() == r1
            &&& final(ctx).events() == old(ctx).events().push(EnemyEvent::Sound { origin: Some(actor_idx), sfx: SfxEnum::sfx_skeswg })
        },
{
    if ctx.mobjs()[actor_idx].target.is_none() {
        return;
    }
    a_face_target(actor_idx, ctx);
    ctx.s_start_sound(Some(actor_idx), SfxEnum::sfx_skeswg);
}

/// `A_SkelFist`: with a target, the revenant faces it and, within melee
/// reach and sight, punches (sound) for 6 to 60 damage.
pub fn a_skel_fist<C: EnemyContext>(actor_idx: usize, ctx: &mut C)
    requires
        target_ok(old(ctx).mobjs_view(), actor_idx),
        melee_fits(*old(ctx), actor_idx),
    ensures
        old(ctx).mobjs_view()[actor_idx as int].target is None ==> nothing(*old(ctx), *final(ctx)),
        old(ctx).mobjs_view()[actor_idx as int].target is Some ==> {
            let (ms1, r1) = face_target(*old(ctx), actor_idx);
            melee_or_missile::<C>(*old(ctx), *final(ctx), ms1, r1, actor_idx, Some(SfxEnum::sfx_skeatk), 10, 6, None)
        },
{
    if ctx.mobjs()[actor_idx].target.is_none() {
        return;
    }
    a_face_target(actor_idx, ctx);
    let target_idx = match ctx.mobjs()[actor_idx].target {
        Some(t) => t,
        None => 0,
    };
    let ghost ms1 = ctx.mobjs_view();
    if p_check_melee_range(actor_idx, ctx) {
        let damage = ((ctx.p_random() % 10) as i32 + 1) * 6;
        ctx.s_start_sound(Some(actor_idx), SfxEnum::sfx_skeatk);
        ctx.p_damage_mobj(target_idx, Some(actor_idx), Some(actor_idx), damage);
        assert(in_melee_reach(*old(ctx), ms1[actor_idx as int], ms1[ms1[actor_idx as int].target->0 as int]));
    }
}

/// `A_FatRaise`: the mancubus faces its target (see [`face_target`]) and
/// roars (sound).
pub fn a_fat_raise<C: EnemyContext>(actor_idx: usize, ctx: &mut C)
    requires
        target_ok(old(ctx).mobjs_view(), actor_idx),
    ensures
        ({
            let (ms1, r1) = face_target(*old(ctx), actor_idx);
            &&& final(ctx).mobjs_view() == ms1
            &&& final(ctx).rng_view() == r1
            &&& final(ctx).events() == old(ctx).events().push(EnemyEvent::Sound { origin: Some(actor_idx), sfx: SfxEnum::sfx_manatk })
        }),
{
    a_face_target(actor_idx, ctx);
    ctx.s_start_sound(Some(actor_idx), SfxEnum::sfx_manatk);
}

/// Turn thing `actor` to `angle`, keeping whatever else it is now.
fn turn_to<C: EnemyContext>(actor_idx: usize, angle: Angle, ctx: &mut C)
    requires
        actor_idx < old(ctx).mobjs_view().len(),
    ensures
        only_mobj(*old(ctx), *final(ctx), actor_idx, MapObject { angle, ..old(ctx).mobjs_view()[actor_idx as int] }),
{
    let mut m = ctx.mobjs()[actor_idx];
    m.angle = angle;
    ctx.set_mobj(actor_idx, m);
}

/// A mancubus volley: with a target, face it (facing `a`), fire a fatshot
/// while turned to `a + d1`, another while turned to `a + d2` (angles
/// wrapping), then face `a` again.
fn fat_volley<C: EnemyContext>(actor_idx: usize, d1: u32, d2: u32, ctx: &mut C)
    requires
        target_ok(old(ctx).mobjs_view(), actor_idx),
        old(ctx).mobjs_view()[actor_idx as int].target is Some,
    ensures
        fat_volleyed::<C>(*old(ctx), *final(ctx), actor_idx, d1, d2),
{
    a_face_target(actor_idx, ctx);
    let angle = ctx.mobjs()[actor_idx].angle;
    let target_idx = match ctx.mobjs()[actor_idx].target {
        Some(t) => t,
        None => 0,
    };
    turn_to(actor_idx, Angle(angle.0.wrapping_add(d1)), ctx);
    ctx.p_spawn_missile(actor_idx, target_idx, MT_FATSHOT);
    turn_to(actor_idx, Angle(angle.0.wrapping_add(d2)), ctx);
    ctx.p_spawn_missile(actor_idx, target_idx, MT_FATSHOT);
    turn_to(actor_idx, angle, ctx);
}

/// What a mancubus volley with turns `d1`, `d2` does (see [`a_fat_attack1`]).
pub open spec fn fat_volleyed<C: EnemyContext>(pre: C, post: C, actor: usize, d1: u32, d2: u32) -> bool {
    let ms1 = face_target(pre, actor).0;
    let a = ms1[actor as int].angle;
    let t = ms1[actor as int].target->0;
    &&& post.events() == pre.events().push(
        EnemyEvent::SpawnMissile { source: actor, dest: t, mtype: MT_FATSHOT, angle: Angle(a.0.wrapping_add(d1)) },
    ).push(EnemyEvent::SpawnMissile { source: actor, dest: t, mtype: MT_FATSHOT, angle: Angle(a.0.wrapping_add(d2)) })
    &&& post.mobjs_view()[actor as int].angle == a
}

/// `A_FatAttack1`: with a target, a mancubus volley turned [`FATSPREAD`]
/// left, then [`FATSPREAD`] right, of its facing; it ends facing the target.
pub fn a_fat_attack1<C: EnemyContext>(actor_idx: usize, ctx: &mut C)
    requires
        target_ok(old(ctx).mobjs_view(), actor_idx),
    ensures
        old(ctx).mobjs_view()[actor_idx as int].target is None ==> nothing(*old(ctx), *final(ctx)),
        old(ctx).mobjs_view()[actor_idx as int].target is Some ==> fat_volleyed::<C>(
            *old(ctx),
            *final(ctx),
            actor_idx,
            FATSPREAD,
            0u32.wrapping_sub(FATSPREAD),
        ),
{
    if ctx.mobjs()[actor_idx].target.is_none() {
        return;
    }
    fat_volley(actor_idx, FATSPREAD, 0u32.wrapping_sub(FATSPREAD), ctx);
}

/// `A_FatAttack2`: as [`a_fat_attack1`], turned [`FATSPREAD`] right, then
/// half of it right.
pub fn a_fat_attack2<C: EnemyContext>(actor_idx: usize, ctx: &mut C)
    requires
        target_ok(old(ctx).mobjs_view(), actor_idx),
    ensures
        old(ctx).mobjs_view()[actor_idx as int].target is None ==> nothing(*old(ctx), *final(ctx)),
        old(ctx).mobjs_view()[actor_idx as int].target is Some ==> fat_volleyed::<C>(
            *old(ctx),
            *final(ctx),
            actor_idx,
            0u32.wrapping_sub(FATSPREAD),
            0u32.wrapping_sub(FATSPREAD / 2),
        ),
{
    if ctx.mobjs()[actor_idx].target.is_none() {
        return;
    }
    fat_volley(actor_idx, 0u32.wrapping_sub(FATSPREAD), 0u32.wrapping_sub(FATSPREAD / 2), ctx);
}

/// `A_FatAttack3`: as [`a_fat_attack1`], turned half [`FATSPREAD`] left,
/// then half of it right.
pub fn a_fat_attack3<C: EnemyContext>(actor_idx: usize, ctx: &mut C)
    requires
        target_ok(old(ctx).mobjs_view(), actor_idx),
    ensures
        old(ctx).mobjs_view()[actor_idx as int].target is None ==> nothing(*old(ctx), *final(ctx)),
        old(ctx).mobjs_view()[actor_idx as int].target is Some ==> fat_volleyed::<C>(
            *old(ctx),
            *final(ctx),
            actor_idx,
            FATSPREAD / 2,
            0u32.wrapping_sub(FATSPREAD / 2),
        ),
{
    if ctx.mobjs()[actor_idx].target.is_none() {
        return;
    }
    fat_volley(actor_idx, FATSPREAD / 2, 0u32.wrapping_sub(FATSPREAD / 2), ctx);
}

// ---------------------------------------------------------------------------
// A_BossDeath
// ---------------------------------------------------------------------------

/// Boss types.
pub const MT_FATSO: usize = 8;
pub const MT_BRUISER: usize = 15;
pub const MT_BABY: usize = 20;

/// Whether a thing of type `t` dying on this map is a boss whose death
/// may end it: the mancubi and arachnotrons of MAP07; the barons of E1M8,
/// the cyberdemon of E2M8, the spider mastermind of E3M8, the cyberdemon
/// of E4M6 and the mastermind of E4M8; anything on map 8 of a later
/// episode.
pub open spec fn boss_level(mode: GameMode, episode: i32, map: i32, t: usize) -> bool {
    if mode == GameMode::Commercial {
        map == 7 && (t == MT_FATSO || t == MT_BABY)
    } else if episode == 1 {
        map == 8 && t == MT_BRUISER
    } else if episode == 2 {
        map == 8 && t == MT_CYBORG
    } else if episode == 3 {
        map == 8 && t == MT_SPIDER
    } else if episode == 4 {
        (map == 6 && t == MT_CYBORG) || (map == 8 && t == MT_SPIDER)
    } else {
        map == 8
    }
}

/// What the last boss's death does: MAP07 lowers the floors tagged 666
/// (mancubi) or raises those tagged 667 (arachnotrons); the first three
/// episodes and E4M8 lower the floors tagged 666; E4M6 blazes open the
/// doors tagged 666; other episodes end the level.
pub open spec fn boss_trigger(mode: GameMode, episode: i32, map: i32, t: usize) -> EnemyEvent {
    if mode == GameMode::Commercial {
        if t == MT_FATSO {
            EnemyEvent::FloorByTag { tag: 666, floor_type: FloorType::LowerFloorToLowest }
        } else {
            EnemyEvent::FloorByTag { tag: 667, floor_type: FloorType::RaiseToTexture }
        }
    } else if episode == 1 || episode == 2 || episode == 3 || (episode == 4 && map == 8) {
        EnemyEvent::FloorByTag { tag: 666, floor_type: FloorType::LowerFloorToLowest }
    } else if episode == 4 {
        EnemyEvent::DoorByTag { tag: 666, door_type: VldoorType::BlazeOpen }
    } else {
        EnemyEvent::ExitLevel
    }
}

/// No thinking thing other than `actor` is a live thing of type `t`.
pub open spec fn others_dead(ms: Seq<MapObject>, thinkers: Seq<usize>, actor: usize, t: usize) -> bool {
    forall|k: int| 0 <= k < thinkers.len() && thinkers[k] != actor ==>
        !(#[trigger] ms[thinkers[k] as int].type_ == t && ms[thinkers[k] as int].health > 0)
}

fn is_boss_level(mode: GameMode, episode: i32, map: i32, t: usize) -> (r: bool)
    ensures
        r == boss_level(mode, episode, map, t),
{
    if mode == GameMode::Commercial {
        map == 7 && (t == MT_FATSO || t == MT_BABY)
    } else if episode == 1 {
        map == 8 && t == MT_BRUISER
    } else if episode == 2 {
        map == 8 && t == MT_CYBORG
    } else if episode == 3 {
        map == 8 && t == MT_SPIDER
    } else if episode == 4 {
        (map == 6 && t == MT_CYBORG) || (map == 8 && t == MT_SPIDER)
    } else {
        map == 8
    }
}

/// `A_BossDeath`: when the dying thing is a boss of this map
/// ([`boss_level`]) and no other boss of its type is alive among the
/// thinking things, the map's boss trigger fires ([`boss_trigger`]);
/// otherwise nothing happens.
pub fn a_boss_death<C: EnemyContext>(actor_idx: usize, ctx: &mut C)
    requires
        actor_idx < old(ctx).mobjs_view().len(),
    ensures
        ({
            let pre = *old(ctx);
            let t = pre.mobjs_view()[actor_idx as int].type_;
            if boss_level(pre.mode_view(), pre.episode_view(), pre.map_view(), t)
                && others_dead(pre.mobjs_view(), pre.thinkers_view(), actor_idx, t) {
                &&& same_tables(pre, *final(ctx))
                &&& final(ctx).events() == pre.events().push(boss_trigger(pre.mode_view(), pre.episode_view(), pre.map_view(), t))
            } else {
                nothing(pre, *final(ctx))
            }
        }),
{
    let mode = ctx.gamemode();
    let map = ctx.gamemap();
    let episode = ctx.gameepisode();
    let t = ctx.mobjs()[actor_idx].type_;
    if !is_boss_level(mode, episode, map, t) {
        return;
    }
    let idxs = ctx.collect_mobj_thinker_indices();
    let mut k: usize = 0;
    while k < idxs.len()
        invariant
            0 <= k <= idxs@.len(),
            idxs@ == ctx.thinkers_view(),
            forall|i: int| 0 <= i < idxs@.len() ==> #[trigger] idxs@[i] < ctx.mobjs_view().len(),
            t == ctx.mobjs_view()[actor_idx as int].type_,
            forall|j: int| 0 <= j < k && idxs@[j] != actor_idx ==>
                !(#[trigger] ctx.mobjs_view()[idxs@[j] as int].type_ == t && ctx.mobjs_view()[idxs@[j] as int].health > 0),
        decreases idxs@.len() - k,
    {
        let idx = idxs[k];
        if idx != actor_idx {
            let mo = ctx.mobjs()[idx];
            if mo.type_ == t && mo.health > 0 {
                return;
            }
        }
        k = k + 1;
    }
    if mode == GameMode::Commercial {
        if t == MT_FATSO {
            ctx.ev_do_floor_by_tag(666, FloorType::LowerFloorToLowest);
        } else {
            ctx.ev_do_floor_by_tag(667, FloorType::RaiseToTexture);
        }
    } else if episode == 1 || episode == 2 || episode == 3 || (episode == 4 && map == 8) {
        ctx.ev_do_floor_by_tag(666, FloorType::LowerFloorToLowest);
    } else if episode == 4 {
        ctx.ev_do_door_by_tag(666, VldoorType::BlazeOpen);
    } else {
        ctx.g_exit_level();
    }
}

// ---------------------------------------------------------------------------
// Walking
// ---------------------------------------------------------------------------

/// Movement directions: the eight compass points from east,
/// anticlockwise, and none.
pub const DI_EAST: i32 = 0;
pub const DI_NORTHEAST: i32 = 1;
pub const DI_NORTH: i32 = 2;
pub const DI_NORTHWEST: i32 = 3;
pub const DI_WEST: i32 = 4;
pub const DI_SOUTHWEST: i32 = 5;
pub const DI_SOUTH: i32 = 6;
pub const DI_SOUTHEAST: i32 = 7;
pub const DI_NODIR: i32 = 8;

/// The unit step of a direction along x (a diagonal is about 0.717).
pub open spec fn xspeed(d: int) -> i32 {
    if d == 0 {
        FRACUNIT
    } else if d == 1 || d == 7 {
        47000
    } else if d == 3 || d == 5 {
        -47000i32
    } else if d == 4 {
        (-FRACUNIT) as i32
    } else {
        0
    }
}

/// The unit step of a direction along y.
pub open spec fn yspeed(d: int) -> i32 {
    if d == 2 {
        FRACUNIT
    } else if d == 1 || d == 3 {
        47000
    } else if d == 5 || d == 7 {
        -47000i32
    } else if d == 6 {
        (-FRACUNIT) as i32
    } else {
        0
    }
}

fn step_x(d: i32) -> (r: i32)
    ensures
        r == xspeed(d as int),
{
    if d == 0 {
        FRACUNIT
    } else if d == 1 || d == 7 {
        47000
    } else if d == 3 || d == 5 {
        -47000
    } else if d == 4 {
        -FRACUNIT
    } else {
        0
    }
}

fn step_y(d: i32) -> (r: i32)
    ensures
        r == yspeed(d as int),
{
    if d == 2 {
        FRACUNIT
    } else if d == 1 || d == 3 {
        47000
    } else if d == 5 || d == 7 {
        -47000
    } else if d == 6 {
        -FRACUNIT
    } else {
        0
    }
}

/// The spot a step of thing `m` (walking speed `speed`) along its
/// direction leads to.
pub open spec fn step_dest(m: MapObject, speed: i32) -> (Fixed, Fixed) {
    (
        Fixed(m.x.0.wrapping_add(fixed_mul_spec(speed, xspeed(m.movedir as int)))),
        Fixed(m.y.0.wrapping_add(fixed_mul_spec(speed, yspeed(m.movedir as int)))),
    )
}

/// Only requests `kind` of thing `a` follow index `n`.
pub open spec fn uses_after(evs: Seq<EnemyEvent>, n: int, a: usize) -> bool {
    forall|k: int| n < k < evs.len() ==> (#[trigger] evs[k] matches EnemyEvent::UseLine { mobj, .. } && mobj == a)
}

/// What [`p_move`] of thing `actor` did from `pre` to `post`, returning
/// `r`.
pub open spec fn move_outcome<C: EnemyContext>(pre: C, post: C, actor: usize, r: bool) -> bool {
    let m = pre.mobjs_view()[actor as int];
    let n = pre.events().len() as int;
    if !(0 <= m.movedir < 8) {
        !r && nothing(pre, post)
    } else {
        let (tx, ty) = step_dest(m, pre.info_view(m.type_).speed);
        &&& same_tables(pre, post)
        &&& post.mobjs_view().len() >= pre.mobjs_view().len()
        &&& post.events().len() > n
        &&& post.events().subrange(0, n) == pre.events()
        &&& post.events()[n] == (EnemyEvent::TryMove { mobj: actor, x: tx, y: ty, moved: post.events()[n]->moved })
        &&& if post.events()[n]->moved {
            &&& r
            &&& post.events().len() == n + 1
            &&& post.mobjs_view()[actor as int].flags & MF_INFLOAT == 0
            &&& post.mobjs_view()[actor as int].flags & MF_FLOAT == 0
                ==> post.mobjs_view()[actor as int].z == post.mobjs_view()[actor as int].floorz
        } else {
            &&& uses_after(post.events(), n, actor)
            &&& post.events().len() == n + 1 ==> (r ==> post.mobjs_view()[actor as int].flags & MF_INFLOAT != 0)
            &&& post.events().len() > n + 1 ==> (r <==> exists|k: int| n < k < post.events().len() && #[trigger] post.events()[k]->used)
        }
    }
}

/// `P_Move`: a monster steps along its direction (none, or an impossible
/// one: no move, false). Moved: it is no longer floating and a walker
/// stands on its floor (true). Blocked: a floater with room rises or
/// sinks toward its target's height instead (true); otherwise it tries
/// the special lines it bumped into, last first, and succeeds when one
/// worked.
pub fn p_move<C: EnemyContext>(actor_idx: usize, ctx: &mut C) -> (r: bool)
    requires
        actor_idx < old(ctx).mobjs_view().len(),
    ensures
        move_outcome(*old(ctx), *final(ctx), actor_idx, r),
{
    let ghost pre = *ctx;
    let m = ctx.mobjs()[actor_idx];
    let dir = m.movedir;
    if dir < 0 || dir >= 8 {
        return false;
    }
    let speed = ctx.mobj_info(m.type_).speed;
    let tx = Fixed(m.x.0.wrapping_add(Fixed(speed).fixed_mul(Fixed(step_x(dir))).0));
    let ty = Fixed(m.y.0.wrapping_add(Fixed(speed).fixed_mul(Fixed(step_y(dir))).0));
    let good = ctx.p_try_move(actor_idx, tx, ty);
    let ghost n = pre.events().len() as int;
    assert(ctx.events().subrange(0, n) =~= pre.events());
    if !good {
        let cur = ctx.mobjs()[actor_idx];
        if cur.flags & MF_FLOAT != 0 && ctx.floatok() {
            let target_z = match cur.target {
                Some(t) => if t < ctx.mobjs().len() { ctx.mobjs()[t].z } else { cur.z },
                None => cur.z,
            };
            let mut f = cur;
            if cur.z.0 < target_z.0 {
                f.z = Fixed(cur.z.0.wrapping_add(4 * FRACUNIT));
            } else {
                f.z = Fixed(cur.z.0.wrapping_sub(4 * FRACUNIT));
            }
            let fl = cur.flags;
            f.flags = fl | MF_INFLOAT;
            assert((fl | 0x200000u32) & 0x200000u32 != 0) by (bit_vector);
            ctx.set_mobj(actor_idx, f);
            return true;
        }
        let hits = ctx.spechit();
        if hits.len() == 0 {
            return false;
        }
        let mut c = cur;
        c.movedir = DI_NODIR;
        ctx.set_mobj(actor_idx, c);
        let mut good_line = false;
        let mut k: usize = hits.len();
        let ghost n1 = ctx.events().len() as int;
        assert(n1 == n + 1);
        while k > 0
            invariant
                0 <= k <= hits@.len(),
                hits@.len() > 0,
                n1 == n + 1,
                ctx.events().len() == n1 + (hits@.len() - k),
                ctx.events().subrange(0, n1) == old(ctx).events().push(EnemyEvent::TryMove { mobj: actor_idx, x: tx, y: ty, moved: false }),
                old(ctx).events().len() == n,
                actor_idx < ctx.mobjs_view().len(),
                same_tables(pre, *ctx),
                pre == *old(ctx),
                ctx.mobjs_view().len() >= pre.mobjs_view().len(),
                uses_after(ctx.events(), n, actor_idx),
                good_line <==> exists|j: int| n < j < ctx.events().len() && #[trigger] ctx.events()[j]->used,
            decreases k,
        {
            k = k - 1;
            let ghost before = ctx.events();
            let used = ctx.p_use_special_line(actor_idx, hits[k], 0);
            if used {
                good_line = true;
            }
            proof {
                assert(ctx.events().subrange(0, n1) =~= before.subrange(0, n1));
                assert forall|j: int| n < j < ctx.events().len() implies (#[trigger] ctx.events()[j] matches EnemyEvent::UseLine { mobj, .. } && mobj == actor_idx) by {
                    if j < before.len() {
                        assert(ctx.events()[j] == before[j]);
                    }
                }
                if good_line {
                    if used {
                        assert(ctx.events()[before.len() as int]->used);
                    } else {
                        let j0 = choose|j: int| n < j < before.len() && #[trigger] before[j]->used;
                        assert(ctx.events()[j0] == before[j0]);
                    }
                } else {
                    assert forall|j: int| n < j < ctx.events().len() implies !(#[trigger] ctx.events()[j]->used) by {
                        if j < before.len() {
                            assert(ctx.events()[j] == before[j]);
                        }
                    }
                }
            }
        }
        assert(ctx.events().subrange(0, n) =~= pre.events());
        assert(ctx.events()[n] == ctx.events().subrange(0, n1)[n]);
        return good_line;
    }
    let mut d = ctx.mobjs()[actor_idx];
    let fl = d.flags;
    d.flags = fl & !MF_INFLOAT;
    assert((fl & !0x200000u32) & 0x200000u32 == 0) by (bit_vector);
    if d.flags & MF_FLOAT == 0 {
        d.z = d.floorz;
    }
    ctx.set_mobj(actor_idx, d);
    assert(ctx.events().subrange(0, n) =~= pre.events());
    true
}

/// Only steps and line uses of thing `a` follow index `n`.
pub open spec fn walks_after(evs: Seq<EnemyEvent>, n: int, a: usize) -> bool {
    forall|k: int| n <= k < evs.len() ==> {
        ||| (#[trigger] evs[k] matches EnemyEvent::TryMove { mobj, .. } && mobj == a)
        ||| (evs[k] matches EnemyEvent::UseLine { mobj, .. } && mobj == a)
    }
}

proof fn lemma_walks_extend(a: Seq<EnemyEvent>, b: Seq<EnemyEvent>, n: int, m: int, x: usize)
    requires
        0 <= n <= m <= a.len() <= b.len(),
        b.subrange(0, a.len() as int) == a,
        walks_after(a, n, x),
        walks_after(b, a.len() as int, x),
    ensures
        walks_after(b, n, x),
{
    assert forall|k: int| n <= k < b.len() implies {
        ||| (#[trigger] b[k] matches EnemyEvent::TryMove { mobj, .. } && mobj == x)
        ||| (b[k] matches EnemyEvent::UseLine { mobj, .. } && mobj == x)
    } by {
        if k < a.len() {
            assert(b[k] == b.subrange(0, a.len() as int)[k]);
        }
    }
}

/// From `pre` to `post` only a number of the play stream was drawn.
pub open spec fn drew<C: EnemyContext>(pre: C, post: C) -> bool {
    &&& same_tables(pre, post)
    &&& post.mobjs_view() == pre.mobjs_view()
    &&& post.events() == pre.events()
    &&& post.rng_view() == pre.rng_view().advanced()
}

/// What [`p_try_walk`] of thing `actor` did from `pre` to `post`,
/// returning `r`: a step ([`move_outcome`], leaving `cm`); when it worked
/// the walk count is the next random number's low four bits.
pub open spec fn walk_outcome<C: EnemyContext>(pre: C, cm: C, post: C, actor: usize, r: bool) -> bool {
    &&& move_outcome(pre, cm, actor, r)
    &&& r ==> {
        &&& same_tables(cm, post)
        &&& post.events() == cm.events()
        &&& post.rng_view() == cm.rng_view().advanced()
        &&& post.mobjs_view() == cm.mobjs_view().update(
            actor as int,
            MapObject { movecount: (cm.rng_view().next_p() & 15) as i32, ..cm.mobjs_view()[actor as int] },
        )
    }
    &&& !r ==> post == cm
}

/// From `pre` to `post` thing `actor` turned to direction `dir` and tried
/// to walk that way ([`walk_outcome`]), with result `r`.
pub open spec fn tried<C: EnemyContext>(pre: C, post: C, actor: usize, dir: i32, r: bool) -> bool {
    exists|cs: C, cm: C| #[trigger] turned_to(pre, cs, actor, dir) && #[trigger] walk_outcome(cs, cm, post, actor, r)
}

/// From `pre` to `post` only thing `actor`'s direction became `dir`.
pub open spec fn turned_to<C: EnemyContext>(pre: C, post: C, actor: usize, dir: i32) -> bool {
    only_mobj(pre, post, actor, MapObject { movedir: dir, ..pre.mobjs_view()[actor as int] })
}

/// `P_TryWalk`: a step ([`p_move`]); when it works the monster keeps
/// going that way for a random 0 to 15 more steps.
fn p_try_walk<C: EnemyContext>(actor_idx: usize, ctx: &mut C) -> (r: bool)
    requires
        actor_idx < old(ctx).mobjs_view().len(),
    ensures
        same_tables(*old(ctx), *final(ctx)),
        final(ctx).mobjs_view().len() >= old(ctx).mobjs_view().len(),
        final(ctx).events().len() >= old(ctx).events().len(),
        final(ctx).events().subrange(0, old(ctx).events().len() as int) == old(ctx).events(),
        walks_after(final(ctx).events(), old(ctx).events().len() as int, actor_idx),
        0 <= old(ctx).mobjs_view()[actor_idx as int].movedir < 8 ==> {
            let m = old(ctx).mobjs_view()[actor_idx as int];
            let (tx, ty) = step_dest(m, old(ctx).info_view(m.type_).speed);
            &&& final(ctx).events().len() > old(ctx).events().len()
            &&& final(ctx).events()[old(ctx).events().len() as int]
                == (EnemyEvent::TryMove { mobj: actor_idx, x: tx, y: ty, moved: final(ctx).events()[old(ctx).events().len() as int]->moved })
        },
        r ==> 0 <= final(ctx).mobjs_view()[actor_idx as int].movecount <= 15,
        exists|cm: C| #[trigger] walk_outcome(*old(ctx), cm, *final(ctx), actor_idx, r),
{
    let ghost pre = *ctx;
    let moved = p_move(actor_idx, ctx);
    let ghost cm = *ctx;
    if !moved {
        assert(walk_outcome(pre, cm, *ctx, actor_idx, false));
        proof {
            let n = pre.events().len() as int;
            if ctx.events().len() > n {
                assert forall|k: int| n <= k < ctx.events().len() implies {
                    ||| (#[trigger] ctx.events()[k] matches EnemyEvent::TryMove { mobj, .. } && mobj == actor_idx)
                    ||| (ctx.events()[k] matches EnemyEvent::UseLine { mobj, .. } && mobj == actor_idx)
                } by {}
            }
        }
        return false;
    }
    let r = ctx.p_random();
    let mut m = ctx.mobjs()[actor_idx];
    m.movecount = (r & 15) as i32;
    assert(r & 15 <= 15) by (bit_vector);
    ctx.set_mobj(actor_idx, m);
    assert(walk_outcome(pre, cm, *ctx, actor_idx, true));
    true
}

/// The direction opposite to `d` (none for none).
pub open spec fn opposite(d: i32) -> i32 {
    if 0 <= d < 8 { ((d + 4) % 8) as i32 } else { DI_NODIR }
}

/// The diagonal toward a target `(dx, dy)` away.
pub open spec fn diagonal(dx: i32, dy: i32) -> i32 {
    if dy < 0 {
        if dx > 0 { DI_SOUTHEAST } else { DI_SOUTHWEST }
    } else {
        if dx > 0 { DI_NORTHEAST } else { DI_NORTHWEST }
    }
}

/// The east-west and north-south directions toward a target `(dx, dy)`
/// away: none within 10 units.
pub open spec fn chase_dirs(dx: i32, dy: i32) -> (i32, i32) {
    (
        if dx > 10 * FRACUNIT { DI_EAST } else if dx < -10 * FRACUNIT { DI_WEST } else { DI_NODIR },
        if dy < -10 * FRACUNIT { DI_SOUTH } else if dy > 10 * FRACUNIT { DI_NORTH } else { DI_NODIR },
    )
}

fn try_dir<C: EnemyContext>(actor_idx: usize, dir: i32, ctx: &mut C) -> (r: bool)
    requires
        actor_idx < old(ctx).mobjs_view().len(),
    ensures
        same_tables(*old(ctx), *final(ctx)),
        final(ctx).mobjs_view().len() >= old(ctx).mobjs_view().len(),
        final(ctx).events().len() >= old(ctx).events().len(),
        final(ctx).events().subrange(0, old(ctx).events().len() as int) == old(ctx).events(),
        walks_after(final(ctx).events(), old(ctx).events().len() as int, actor_idx),
        0 <= dir < 8 ==> {
            let m = MapObject { movedir: dir, ..old(ctx).mobjs_view()[actor_idx as int] };
            let (tx, ty) = step_dest(m, old(ctx).info_view(m.type_).speed);
            &&& final(ctx).events().len() > old(ctx).events().len()
            &&& final(ctx).events()[old(ctx).events().len() as int]
                == (EnemyEvent::TryMove { mobj: actor_idx, x: tx, y: ty, moved: final(ctx).events()[old(ctx).events().len() as int]->moved })
        },
        tried(*old(ctx), *final(ctx), actor_idx, dir, r),
{
    let mut m = ctx.mobjs()[actor_idx];
    m.movedir = dir;
    ctx.set_mobj(actor_idx, m);
    let ghost cs = *ctx;
    let r = p_try_walk(actor_idx, ctx);
    proof {
        let cm = choose|cm: C| #[trigger] walk_outcome(cs, cm, *ctx, actor_idx, r);
        assert(turned_to(*old(ctx), cs, actor_idx, dir));
        assert(walk_outcome(cs, cm, *ctx, actor_idx, r));
    }
    r
}

/// When the target is more than 10 units off on both axes and the
/// diagonal toward it is not straight back, the first request after `pre`
/// in `evs` is the step along that diagonal.
pub open spec fn diagonal_first<C: EnemyContext>(pre: C, actor_idx: usize, evs: Seq<EnemyEvent>) -> bool {
    let m = pre.mobjs_view()[actor_idx as int];
    let n = pre.events().len() as int;
    match m.target {
        None => true,
        Some(t) => {
            let tg = pre.mobjs_view()[t as int];
            let dx = tg.x.0.wrapping_sub(m.x.0);
            let dy = tg.y.0.wrapping_sub(m.y.0);
            let (d_x, d_y) = chase_dirs(dx, dy);
            let diag = diagonal(dx, dy);
            (d_x != DI_NODIR && d_y != DI_NODIR && diag != opposite(m.movedir)) ==> {
                let (tx, ty) = step_dest(MapObject { movedir: diag, ..m }, pre.info_view(m.type_).speed);
                &&& evs.len() > n
                &&& evs[n] == (EnemyEvent::TryMove { mobj: actor_idx, x: tx, y: ty, moved: evs[n]->moved })
            }
        },
    }
}

proof fn lemma_diagonal_first_extend<C: EnemyContext>(pre: C, actor_idx: usize, a: Seq<EnemyEvent>, b: Seq<EnemyEvent>)
    requires
        pre.events().len() <= a.len() <= b.len(),
        b.subrange(0, a.len() as int) == a,
        diagonal_first(pre, actor_idx, a),
    ensures
        diagonal_first(pre, actor_idx, b),
{
    let n = pre.events().len() as int;
    if a.len() > n {
        assert(b[n] == b.subrange(0, a.len() as int)[n]);
    }
}

/// The directions of the sweep over the first `k` of the eight, upward
/// when random number `r` is odd and downward otherwise, leaving out
/// `turnaround`.
pub open spec fn sweep_dirs(r: u8, turnaround: i32, k: int) -> Seq<i32>
    decreases k,
{
    if k <= 0 {
        Seq::empty()
    } else {
        let d = if r & 1 != 0 { (k - 1) as i32 } else { (7 - (k - 1)) as i32 };
        let p = sweep_dirs(r, turnaround, k - 1);
        if d != turnaround {
            p.push(d)
        } else {
            p
        }
    }
}

/// The directions `P_NewChaseDir` tries after the diagonal, in order, for
/// a target `(dx, dy)` away, old direction `olddir` and random number `r`:
/// the two straight ones (the larger offset first, or swapped when `r`
/// exceeds 200), the old direction, the sweep ([`sweep_dirs`]) and last
/// straight back; none of them straight back but the last.
pub open spec fn chase_tries(dx: i32, dy: i32, olddir: i32, r: u8) -> Seq<i32> {
    let (d_x, d_y) = chase_dirs(dx, dy);
    let turnaround = opposite(olddir);
    let adx = if dx < 0 { -dx } else { dx as int };
    let ady = if dy < 0 { -dy } else { dy as int };
    let x_first = r > 200 || ady > adx;
    let (d1, d2) = if x_first { (d_x, d_y) } else { (d_y, d_x) };
    (if d1 != DI_NODIR && d1 != turnaround { seq![d1] } else { Seq::empty() })
        + (if d2 != DI_NODIR && d2 != turnaround { seq![d2] } else { Seq::empty() })
        + (if olddir != DI_NODIR { seq![olddir] } else { Seq::empty() })
        + sweep_dirs(r, turnaround, 8)
        + (if turnaround != DI_NODIR { seq![turnaround] } else { Seq::empty() })
}

/// The first `j` directions of `ds` were tried in turn by thing `actor`
/// through states `ss` ([`tried`]), all failing but the last, which
/// worked when `ok`; when none worked, all were tried.
pub open spec fn tries_run<C: EnemyContext>(ss: Seq<C>, ds: Seq<i32>, actor: usize, j: int, ok: bool) -> bool {
    &&& 0 <= j <= ds.len()
    &&& ss.len() == j + 1
    &&& forall|i: int| #![trigger ds[i]] 0 <= i < j ==> tried(ss[i], ss[i + 1], actor, ds[i], i == j - 1 && ok)
    &&& ok ==> j >= 1
    &&& !ok ==> j == ds.len()
}

/// The diagonal try of [`new_dir_steps`], from `pre` to `cdiag`.
pub open spec fn diag_phase<C: EnemyContext>(pre: C, cdiag: C, ok0: bool, actor: usize) -> bool {
    let m = pre.mobjs_view()[actor as int];
    let tg = pre.mobjs_view()[m.target->0 as int];
    let dx = tg.x.0.wrapping_sub(m.x.0);
    let dy = tg.y.0.wrapping_sub(m.y.0);
    let (d_x, d_y) = chase_dirs(dx, dy);
    let turnaround = opposite(m.movedir);
    let diag = diagonal(dx, dy);
    if d_x != DI_NODIR && d_y != DI_NODIR {
        if diag != turnaround {
            tried(pre, cdiag, actor, diag, ok0)
        } else {
            !ok0 && turned_to(pre, cdiag, actor, diag)
        }
    } else {
        !ok0 && cdiag == pre
    }
}

/// [`p_new_chase_dir`] of thing `actor` (with a target) from `pre` to
/// `post`: with both offsets over 10 units it turns to the diagonal toward
/// the target and, unless that is straight back, tries it (`ok0`, leaving
/// `cdiag`); done if that worked. Otherwise it draws a random number
/// (leaving `cr`) and tries [`chase_tries`] in turn through states `ss`
/// ([`tries_run`]), stopping at the first that works; when none does it
/// stands still ([`DI_NODIR`]).
pub open spec fn new_dir_steps<C: EnemyContext>(pre: C, cdiag: C, ok0: bool, cr: C, ss: Seq<C>, j: int, ok: bool, post: C, actor: usize) -> bool {
    let m = pre.mobjs_view()[actor as int];
    let tg = pre.mobjs_view()[m.target->0 as int];
    let dx = tg.x.0.wrapping_sub(m.x.0);
    let dy = tg.y.0.wrapping_sub(m.y.0);
    let (d_x, d_y) = chase_dirs(dx, dy);
    let turnaround = opposite(m.movedir);
    &&& diag_phase(pre, cdiag, ok0, actor)
    &&& ok0 ==> post == cdiag
    &&& !ok0 ==> {
        &&& drew(cdiag, cr)
        &&& ss.len() > 0
        &&& ss[0] == cr
        &&& tries_run(ss, chase_tries(dx, dy, m.movedir, cdiag.rng_view().next_p()), actor, j, ok)
        &&& ok ==> post == ss[j]
        &&& !ok ==> turned_to(ss[j], post, actor, DI_NODIR)
    }
}

/// `P_NewChaseDir`: a monster with a target picks a way toward it. It
/// tries, each only when it is not straight back: the diagonal toward the
/// target (when both offsets exceed 10 units), the two straight
/// directions (the larger offset first, or at random), its old
/// direction, every direction in a random sweep order, and at last
/// straight back; failing all, it stands still. Only its steps and the
/// lines it bumps into are requested; the first request is the first of
/// those tries.
#[verifier::rlimit(60)]
pub fn p_new_chase_dir<C: EnemyContext>(actor_idx: usize, ctx: &mut C)
    requires
        target_ok(old(ctx).mobjs_view(), actor_idx),
    ensures
        ({
            let pre = *old(ctx);
            let post = *final(ctx);
            let n = pre.events().len() as int;
            match pre.mobjs_view()[actor_idx as int].target {
                None => nothing(pre, post),
                Some(_) => {
                    &&& same_tables(pre, post)
                    &&& post.mobjs_view().len() >= pre.mobjs_view().len()
                    &&& post.events().len() >= n
                    &&& post.events().subrange(0, n) == pre.events()
                    &&& walks_after(post.events(), n, actor_idx)
                    &&& diagonal_first(pre, actor_idx, post.events())
                    &&& exists|cdiag: C, ok0: bool, cr: C, ss: Seq<C>, j: int, ok: bool|
                        #[trigger] new_dir_steps(pre, cdiag, ok0, cr, ss, j, ok, post, actor_idx)
                },
            }
        }),
{
    let ghost pre = *ctx;
    let ghost n = pre.events().len() as int;
    let m = ctx.mobjs()[actor_idx];
    let t = match m.target {
        Some(t) => t,
        None => return,
    };
    let tg = ctx.mobjs()[t];
    let olddir = m.movedir;
    let turnaround = if 0 <= olddir && olddir < 8 { (olddir + 4) % 8 } else { DI_NODIR };
    let dx = tg.x.0.wrapping_sub(m.x.0);
    let dy = tg.y.0.wrapping_sub(m.y.0);
    let d_x = if dx > 10 * FRACUNIT { DI_EAST } else if dx < -10 * FRACUNIT { DI_WEST } else { DI_NODIR };
    let d_y = if dy < -10 * FRACUNIT { DI_SOUTH } else if dy > 10 * FRACUNIT { DI_NORTH } else { DI_NODIR };
    assert(ctx.events().subrange(0, n) =~= pre.events());
    let mut ok0 = false;
    if d_x != DI_NODIR && d_y != DI_NODIR {
        let diag = if dy < 0 {
            if dx > 0 { DI_SOUTHEAST } else { DI_SOUTHWEST }
        } else {
            if dx > 0 { DI_NORTHEAST } else { DI_NORTHWEST }
        };
        if diag != turnaround {
            ok0 = try_dir(actor_idx, diag, ctx);
            if ok0 {
                proof {
                    assert(new_dir_steps(pre, *ctx, true, *ctx, Seq::empty(), 0, false, *ctx, actor_idx));
                }
                return;
            }
        } else {
            let mut d = m;
            d.movedir = diag;
            ctx.set_mobj(actor_idx, d);
            assert(turned_to(pre, *ctx, actor_idx, diag));
        }
    }
    let ghost cdiag = *ctx;
    let ghost after_diag = ctx.events();
    assert(walks_after(after_diag, n, actor_idx));
    assert(diagonal_first(pre, actor_idx, after_diag));
    let r = ctx.p_random();
    let ghost cr = *ctx;
    let adx: i64 = if dx < 0 { -(dx as i64) } else { dx as i64 };
    let ady: i64 = if dy < 0 { -(dy as i64) } else { dy as i64 };
    let x_first = r > 200 || ady > adx;
    let (d1, d2) = if x_first { (d_x, d_y) } else { (d_y, d_x) };
    let mut tries: Vec<i32> = Vec::new();
    if d1 != DI_NODIR && d1 != turnaround {
        tries.push(d1);
    }
    if d2 != DI_NODIR && d2 != turnaround {
        tries.push(d2);
    }
    if olddir != DI_NODIR {
        tries.push(olddir);
    }
    let ghost head = tries@;
    let mut k: i32 = 0;
    while k < 8
        invariant
            0 <= k <= 8,
            tries@.len() <= 3 + k,
            tries@ == head + sweep_dirs(r, turnaround, k as int),
        decreases 8 - k,
    {
        let tdir = if r & 1 != 0 { k } else { 7 - k };
        if tdir != turnaround {
            tries.push(tdir);
        }
        proof {
            assert(tries@ =~= head + sweep_dirs(r, turnaround, k + 1));
        }
        k = k + 1;
    }
    if turnaround != DI_NODIR {
        tries.push(turnaround);
    }
    proof {
        assert(turnaround == opposite(olddir));
        assert(cdiag.rng_view().next_p() == r);
        assert(tries@ =~= chase_tries(dx, dy, olddir, r));
    }
    let ghost mut ss: Seq<C> = seq![cr];
    let mut i: usize = 0;
    while i < tries.len()
        invariant
            0 <= i <= tries@.len(),
            ss.len() == i + 1,
            ss[0] == cr,
            diag_phase(pre, cdiag, false, actor_idx),
            drew(cdiag, cr),
            tries@ == chase_tries(dx, dy, olddir, cdiag.rng_view().next_p()),
            m == pre.mobjs_view()[actor_idx as int],
            tg == pre.mobjs_view()[m.target->0 as int],
            dx == tg.x.0.wrapping_sub(m.x.0),
            dy == tg.y.0.wrapping_sub(m.y.0),
            olddir == m.movedir,
            ss[i as int] == *ctx,
            forall|i2: int| #![trigger tries@[i2]] 0 <= i2 < i ==> tried(ss[i2], ss[i2 + 1], actor_idx, tries@[i2], false),
            actor_idx < ctx.mobjs_view().len(),
            same_tables(pre, *ctx),
            ctx.mobjs_view().len() >= pre.mobjs_view().len(),
            ctx.events().len() >= n,
            ctx.events().subrange(0, n) == pre.events(),
            walks_after(ctx.events(), n, actor_idx),
            pre.events().len() == n,
            after_diag.len() >= n,
            after_diag.len() <= ctx.events().len(),
            ctx.events().subrange(0, after_diag.len() as int) == after_diag,
            diagonal_first(pre, actor_idx, after_diag),
            actor_idx < pre.mobjs_view().len(),
            pre.mobjs_view()[actor_idx as int].target is Some,
            pre == *old(ctx),
        decreases tries@.len() - i,
    {
        let ghost before = ctx.events();
        let ghost ss0 = ss;
        let worked = try_dir(actor_idx, tries[i], ctx);
        proof {
            ss = ss.push(*ctx);
            assert forall|i2: int| #![trigger tries@[i2]] 0 <= i2 < i implies tried(ss[i2], ss[i2 + 1], actor_idx, tries@[i2], false) by {
                assert(ss[i2] == ss0[i2] && ss[i2 + 1] == ss0[i2 + 1]);
            }
            assert(tried(ss[i as int], ss[i + 1], actor_idx, tries@[i as int], worked));
        }
        if worked {
            proof {
                lemma_walks_extend(before, ctx.events(), n, n, actor_idx);
                assert(ctx.events().subrange(0, n) =~= ctx.events().subrange(0, before.len() as int).subrange(0, n));
                assert(ctx.events().subrange(0, after_diag.len() as int) =~= ctx.events().subrange(0, before.len() as int).subrange(0, after_diag.len() as int));
                lemma_diagonal_first_extend(pre, actor_idx, after_diag, ctx.events());
                assert(tries_run(ss, tries@, actor_idx, i + 1, true));
                assert(new_dir_steps(pre, cdiag, false, cr, ss, i + 1, true, *ctx, actor_idx));
            }
            return;
        }
        proof {
            lemma_walks_extend(before, ctx.events(), n, n, actor_idx);
            assert(ctx.events().subrange(0, n) =~= ctx.events().subrange(0, before.len() as int).subrange(0, n));
            assert(ctx.events().subrange(0, after_diag.len() as int) =~= ctx.events().subrange(0, before.len() as int).subrange(0, after_diag.len() as int));
        }
        i = i + 1;
    }
    proof {
        lemma_diagonal_first_extend(pre, actor_idx, after_diag, ctx.events());
    }
    let ghost last = *ctx;
    let mut s = ctx.mobjs()[actor_idx];
    s.movedir = DI_NODIR;
    ctx.set_mobj(actor_idx, s);
    proof {
        assert(tries_run(ss, tries@, actor_idx, tries@.len() as int, false));
        assert(turned_to(last, *ctx, actor_idx, DI_NODIR));
        assert(new_dir_steps(pre, cdiag, false, cr, ss, tries@.len() as int, false, *ctx, actor_idx));
    }
}


/// The angle a thing facing `a` turns to on its way to direction `d`:
/// straight to it when it is at most 45 degrees off, else 45 degrees
/// toward it; a thing without a direction (8 and up) keeps its angle.
pub open spec fn turn_toward(a: u32, d: i32) -> u32 {
    if d < 8 {
        let goal = (d as u32) << 29u32;
        let delta = goal.wrapping_sub(a);
        if delta == 0 {
            a
        } else if delta < 0x8000_0000 {
            if delta > 0x2000_0000 { a.wrapping_add(0x2000_0000) } else { goal }
        } else {
            if 0u32.wrapping_sub(delta) > 0x2000_0000 { a.wrapping_sub(0x2000_0000) } else { goal }
        }
    } else {
        a
    }
}

/// A chasing monster `m` after its first step: its reaction time and
/// threshold count down to 0, and it turns toward its direction
/// ([`turn_toward`]).
pub open spec fn chase_turned(m: MapObject) -> MapObject {
    MapObject {
        reactiontime: if m.reactiontime > 0 { (m.reactiontime - 1) as i32 } else { m.reactiontime },
        threshold: if m.threshold > 0 { (m.threshold - 1) as i32 } else { m.threshold },
        angle: Angle(turn_toward(m.angle.0, m.movedir)),
        ..m
    }
}

/// The target of `m`, in things `ms`, can still be shot and lives.
pub open spec fn target_alive(ms: Seq<MapObject>, m: MapObject) -> bool {
    match m.target {
        None => false,
        Some(t) => ms[t as int].flags & MF_SHOOTABLE != 0 && ms[t as int].health > 0,
    }
}

/// Whether the missile check of thing `actor`, among things `ms`, fires
/// (as [`p_check_missile_range`] decides it, on the sight and random
/// stream of `ctx`).
pub open spec fn missile_fires<C: EnemyContext>(ctx: C, ms: Seq<MapObject>, actor: usize) -> bool {
    let m = ms[actor as int];
    match m.target {
        None => false,
        Some(t) => if (m.flags & MF_JUSTHIT) != 0 {
            ctx.sight_view(actor, t)
        } else if m.reactiontime > 0 {
            false
        } else {
            match missile_score(m, ms[t as int], ctx.info_view(m.type_)) {
                None => false,
                Some(score) => ctx.rng_view().next_p() >= score && ctx.sight_view(actor, t),
            }
        },
    }
}

/// Every request from index `n` on is one a chasing thing `a` makes of
/// itself: a step, a line use, a look for players, a state change or a
/// sound at it.
pub open spec fn chase_requests_after(evs: Seq<EnemyEvent>, n: int, a: usize) -> bool {
    forall|k: int| n <= k < evs.len() ==> {
        ||| (#[trigger] evs[k] matches EnemyEvent::TryMove { mobj, .. } && mobj == a)
        ||| (evs[k] matches EnemyEvent::UseLine { mobj, .. } && mobj == a)
        ||| (evs[k] matches EnemyEvent::LookForPlayers { mobj, .. } && mobj == a)
        ||| (evs[k] matches EnemyEvent::SetState { mobj, .. } && mobj == a)
        ||| (evs[k] matches EnemyEvent::Sound { origin, .. } && origin == Some(a))
    }
}

proof fn lemma_chase_extend(a: Seq<EnemyEvent>, b: Seq<EnemyEvent>, n: int, x: usize)
    requires
        0 <= n <= a.len() <= b.len(),
        b.subrange(0, a.len() as int) == a,
        chase_requests_after(a, n, x),
        walks_after(b, a.len() as int, x),
    ensures
        chase_requests_after(b, n, x),
{
    assert forall|k: int| n <= k < b.len() implies {
        ||| (#[trigger] b[k] matches EnemyEvent::TryMove { mobj, .. } && mobj == x)
        ||| (b[k] matches EnemyEvent::UseLine { mobj, .. } && mobj == x)
        ||| (b[k] matches EnemyEvent::LookForPlayers { mobj, .. } && mobj == x)
        ||| (b[k] matches EnemyEvent::SetState { mobj, .. } && mobj == x)
        ||| (b[k] matches EnemyEvent::Sound { origin, .. } && origin == Some(x))
    } by {
        if k < a.len() {
            assert(b[k] == b.subrange(0, a.len() as int)[k]);
        }
    }
}

proof fn lemma_chase_push(a: Seq<EnemyEvent>, n: int, x: usize, e: EnemyEvent)
    requires
        0 <= n <= a.len(),
        chase_requests_after(a, n, x),
        walks_after(seq![e], 0, x)
            || (e matches EnemyEvent::LookForPlayers { mobj, .. } && mobj == x)
            || (e matches EnemyEvent::SetState { mobj, .. } && mobj == x)
            || (e matches EnemyEvent::Sound { origin, .. } && origin == Some(x)),
    ensures
        chase_requests_after(a.push(e), n, x),
{
    assert forall|k: int| n <= k < a.push(e).len() implies {
        ||| (#[trigger] a.push(e)[k] matches EnemyEvent::TryMove { mobj, .. } && mobj == x)
        ||| (a.push(e)[k] matches EnemyEvent::UseLine { mobj, .. } && mobj == x)
        ||| (a.push(e)[k] matches EnemyEvent::LookForPlayers { mobj, .. } && mobj == x)
        ||| (a.push(e)[k] matches EnemyEvent::SetState { mobj, .. } && mobj == x)
        ||| (a.push(e)[k] matches EnemyEvent::Sound { origin, .. } && origin == Some(x))
    } by {
        if k == a.len() {
            if walks_after(seq![e], 0, x) {
                assert(seq![e][0] == e);
            }
        }
    }
}

/// A chasing monster's step along its direction ([`p_move`]).
fn chase_step<C: EnemyContext>(actor_idx: usize, ctx: &mut C) -> (r: bool)
    requires
        actor_idx < old(ctx).mobjs_view().len(),
    ensures
        same_tables(*old(ctx), *final(ctx)),
        final(ctx).mobjs_view().len() >= old(ctx).mobjs_view().len(),
        final(ctx).events().len() >= old(ctx).events().len(),
        final(ctx).events().subrange(0, old(ctx).events().len() as int) == old(ctx).events(),
        walks_after(final(ctx).events(), old(ctx).events().len() as int, actor_idx),
        move_outcome(*old(ctx), *final(ctx), actor_idx, r),
{
    let ghost pre = *ctx;
    let r = p_move(actor_idx, ctx);
    proof {
        let n = pre.events().len() as int;
        if ctx.events().len() > n {
            assert forall|k: int| n <= k < ctx.events().len() implies {
                ||| (#[trigger] ctx.events()[k] matches EnemyEvent::TryMove { mobj, .. } && mobj == actor_idx)
                ||| (ctx.events()[k] matches EnemyEvent::UseLine { mobj, .. } && mobj == actor_idx)
            } by {}
        }
    }
    r
}

/// The thing's target exists.
fn target_in_range<C: EnemyContext>(actor_idx: usize, ctx: &C) -> (r: bool)
    requires
        actor_idx < ctx.mobjs_view().len(),
    ensures
        r == target_ok(ctx.mobjs_view(), actor_idx),
{
    match ctx.mobjs()[actor_idx].target {
        Some(t) => t < ctx.mobjs().len(),
        None => true,
    }
}

/// The first step of [`a_chase`]: see [`chase_turned`].
fn chase_turn<C: EnemyContext>(actor_idx: usize, ctx: &mut C)
    requires
        actor_idx < old(ctx).mobjs_view().len(),
    ensures
        only_mobj(*old(ctx), *final(ctx), actor_idx, chase_turned(old(ctx).mobjs_view()[actor_idx as int])),
        forall|a: usize, b: usize| #[trigger] final(ctx).sight_view(a, b) == old(ctx).sight_view(a, b),
{
    let mut m = ctx.mobjs()[actor_idx];
    if m.reactiontime > 0 {
        m.reactiontime = m.reactiontime - 1;
    }
    if m.threshold > 0 {
        m.threshold = m.threshold - 1;
    }
    if m.movedir < 8 {
        let goal: u32 = (m.movedir as u32) << 29u32;
        let a = m.angle.0;
        let delta = goal.wrapping_sub(a);
        let step: u32 = 0x2000_0000;
        if delta != 0 {
            if delta < 0x8000_0000 {
                if delta > step {
                    m.angle = Angle(a.wrapping_add(step));
                } else {
                    m.angle = Angle(goal);
                }
            } else {
                let neg_delta = 0u32.wrapping_sub(delta);
                if neg_delta > step {
                    m.angle = Angle(a.wrapping_sub(step));
                } else {
                    m.angle = Angle(goal);
                }
            }
        }
    }
    ctx.set_mobj(actor_idx, m);
}

/// What [`p_new_chase_dir`] of thing `actor` did from `pre` to `post`:
/// nothing without a target, else the tries of [`new_dir_steps`] (and its
/// requests, [`diagonal_first`]).
pub open spec fn new_dir_outcome<C: EnemyContext>(pre: C, post: C, actor: usize) -> bool {
    match pre.mobjs_view()[actor as int].target {
        None => nothing(pre, post),
        Some(_) => {
            &&& same_tables(pre, post)
            &&& post.mobjs_view().len() >= pre.mobjs_view().len()
            &&& post.events().len() >= pre.events().len()
            &&& post.events().subrange(0, pre.events().len() as int) == pre.events()
            &&& diagonal_first(pre, actor, post.events())
            &&& exists|cdiag: C, ok0: bool, cr: C, ss: Seq<C>, j: int, ok: bool|
                #[trigger] new_dir_steps(pre, cdiag, ok0, cr, ss, j, ok, post, actor)
        },
    }
}

/// [`chase_walk`] of thing `actor` from `pre` to `post`, through `c0`
/// (after looking for players), `cd` (after counting down its walk), `c1`
/// (after stepping, `moved` telling whether it got on) and `c2` (after
/// picking a new direction): in a net game with no threshold left, a
/// monster that cannot see its target (or thing 0, without one) looks for
/// players all around and stops when it finds one. Otherwise its walk
/// count goes down; while it was still walking it steps ([`move_outcome`]);
/// done or blocked, with a target that exists, it picks a new direction
/// ([`new_dir_outcome`]); then, having an active sound, it makes it when
/// the next random number is below 3.
pub open spec fn chase_walk_run<C: EnemyContext>(pre: C, c0: C, cd: C, c1: C, c2: C, post: C, actor: usize, moved: bool) -> bool {
    let m = pre.mobjs_view()[actor as int];
    let t = match m.target {
        Some(t) => t,
        None => 0,
    };
    let look = pre.netgame_view() && m.threshold == 0 && !pre.sight_view(actor, t);
    let found = look && c0.events().last()->LookForPlayers_found;
    let w = c0.mobjs_view()[actor as int];
    let need_dir = w.movecount <= 0 || !moved;
    &&& if look {
        &&& c0.events() == pre.events().push(EnemyEvent::LookForPlayers { mobj: actor, allaround: true, found })
        &&& same_tables(pre, c0)
        &&& c0.mobjs_view().len() == pre.mobjs_view().len()
    } else {
        nothing(pre, c0)
    }
    &&& if found {
        post == c0
    } else {
        &&& only_mobj(c0, cd, actor, MapObject { movecount: (w.movecount - 1) as i32, ..w })
        &&& if w.movecount > 0 { move_outcome(cd, c1, actor, moved) } else { c1 == cd }
        &&& if need_dir && actor < c1.mobjs_view().len() && target_ok(c1.mobjs_view(), actor) {
            new_dir_outcome(c1, c2, actor)
        } else {
            c2 == c1
        }
        &&& if actor < c2.mobjs_view().len() && c2.info_view(c2.mobjs_view()[actor as int].type_).activesound != SfxEnum::sfx_None {
            let sfx = c2.info_view(c2.mobjs_view()[actor as int].type_).activesound;
            &&& same_tables(c2, post)
            &&& post.mobjs_view() == c2.mobjs_view()
            &&& post.rng_view() == c2.rng_view().advanced()
            &&& post.events() == if c2.rng_view().next_p() < 3 {
                c2.events().push(EnemyEvent::Sound { origin: Some(actor), sfx })
            } else {
                c2.events()
            }
        } else {
            post == c2
        }
    }
}

/// The last part of [`a_chase`]: in a net game with no threshold left, a
/// monster that lost sight of its target looks for another player (and
/// stops there when it finds one); then it walks on, or picks a new
/// direction when done walking or blocked (when its target exists); now
/// and then it makes its active sound.
fn chase_walk<C: EnemyContext>(actor_idx: usize, ctx: &mut C)
    requires
        actor_idx < old(ctx).mobjs_view().len(),
        old(ctx).mobjs_view()[actor_idx as int].movecount > i32::MIN,
    ensures
        same_tables(*old(ctx), *final(ctx)),
        final(ctx).mobjs_view().len() >= old(ctx).mobjs_view().len(),
        final(ctx).events().len() >= old(ctx).events().len(),
        final(ctx).events().subrange(0, old(ctx).events().len() as int) == old(ctx).events(),
        chase_requests_after(final(ctx).events(), old(ctx).events().len() as int, actor_idx),
        exists|c0: C, cd: C, c1: C, c2: C, moved: bool| #[trigger] chase_walk_run(*old(ctx), c0, cd, c1, c2, *final(ctx), actor_idx, moved),
{
    let ghost pre = *ctx;
    let ghost n = pre.events().len() as int;
    assert(chase_requests_after(pre.events(), n, actor_idx));
    if ctx.netgame() && ctx.mobjs()[actor_idx].threshold == 0 {
        let target_idx = match ctx.mobjs()[actor_idx].target {
            Some(t) => t,
            None => 0,
        };
        if !ctx.p_check_sight(actor_idx, target_idx) {
            let found = p_look_for_players(actor_idx, true, ctx);
            proof {
                lemma_chase_push(pre.events(), n, actor_idx, EnemyEvent::LookForPlayers { mobj: actor_idx, allaround: true, found });
                assert(ctx.events().subrange(0, n) =~= pre.events());
            }
            if found {
                assert(chase_walk_run(pre, *ctx, *ctx, *ctx, *ctx, *ctx, actor_idx, false));
                return;
            }
        }
    }
    let ghost c0 = *ctx;
    let ghost e2 = ctx.events();
    assert(e2.subrange(0, n) =~= pre.events());
    let mut w = ctx.mobjs()[actor_idx];
    let movecount = w.movecount;
    w.movecount = movecount - 1;
    ctx.set_mobj(actor_idx, w);
    let ghost cd = *ctx;
    let mut need_dir = movecount <= 0;
    let mut moved = true;
    if !need_dir {
        moved = chase_step(actor_idx, ctx);
        proof {
            lemma_chase_extend(e2, ctx.events(), n, actor_idx);
            assert(ctx.events().subrange(0, n) =~= ctx.events().subrange(0, e2.len() as int).subrange(0, n));
        }
        need_dir = !moved;
    }
    let ghost c1 = *ctx;
    if need_dir && actor_idx < ctx.mobjs().len() && target_in_range(actor_idx, ctx) {
        let ghost e3 = ctx.events();
        new_chase_dir(actor_idx, ctx);
        proof {
            lemma_chase_extend(e3, ctx.events(), n, actor_idx);
            assert(ctx.events().subrange(0, n) =~= ctx.events().subrange(0, e3.len() as int).subrange(0, n));
        }
    }
    let ghost c2 = *ctx;
    if actor_idx < ctx.mobjs().len() {
        let ghost e4 = ctx.events();
        let info2 = ctx.mobj_info(ctx.mobjs()[actor_idx].type_);
        if info2.activesound != SfxEnum::sfx_None {
            let r = ctx.p_random();
            if r < 3 {
                ctx.s_start_sound(Some(actor_idx), info2.activesound);
                proof {
                    lemma_chase_push(e4, n, actor_idx, EnemyEvent::Sound { origin: Some(actor_idx), sfx: info2.activesound });
                    assert(ctx.events().subrange(0, n) =~= e4.subrange(0, n));
                }
            }
        }
    }
    assert(chase_walk_run(pre, c0, cd, c1, c2, *ctx, actor_idx, moved));
}

/// [`p_new_chase_dir`] for a thing whose target exists, in the terms
/// [`a_chase`] needs.
fn new_chase_dir<C: EnemyContext>(actor_idx: usize, ctx: &mut C)
    requires
        target_ok(old(ctx).mobjs_view(), actor_idx),
    ensures
        same_tables(*old(ctx), *final(ctx)),
        final(ctx).mobjs_view().len() >= old(ctx).mobjs_view().len(),
        final(ctx).events().len() >= old(ctx).events().len(),
        final(ctx).events().subrange(0, old(ctx).events().len() as int) == old(ctx).events(),
        walks_after(final(ctx).events(), old(ctx).events().len() as int, actor_idx),
        new_dir_outcome(*old(ctx), *final(ctx), actor_idx),
{
    let ghost pre = *ctx;
    p_new_chase_dir(actor_idx, ctx);
    proof {
        if pre.mobjs_view()[actor_idx as int].target is None {
            assert(ctx.events().subrange(0, pre.events().len() as int) =~= pre.events());
        }
    }
}

/// From `ct` to `cl` thing `actor` looked for players all around: only its
/// target may have changed, and the look was requested.
pub open spec fn looked<C: EnemyContext>(ct: C, cl: C, actor: usize) -> bool {
    let m = ct.mobjs_view()[actor as int];
    &&& same_tables(ct, cl)
    &&& cl.rng_view() == ct.rng_view()
    &&& cl.mobjs_view() == ct.mobjs_view().update(actor as int, MapObject { target: cl.mobjs_view()[actor as int].target, ..m })
    &&& cl.events().len() == ct.events().len() + 1
    &&& cl.events().subrange(0, ct.events().len() as int) == ct.events()
    &&& cl.events().last() is LookForPlayers
}

/// From `ct` to `cj` thing `actor` only forgot that it just attacked.
pub open spec fn forgot_attack<C: EnemyContext>(ct: C, cj: C, actor: usize) -> bool {
    let m1 = ct.mobjs_view()[actor as int];
    only_mobj(ct, cj, actor, MapObject { flags: m1.flags & !MF_JUSTATTACKED, ..m1 })
}

/// From `ct` to `ca` the attack checks of [`a_chase`] found no attack:
/// nothing was requested and the walk count is kept.
pub open spec fn declined<C: EnemyContext>(ct: C, ca: C, actor: usize) -> bool {
    &&& same_tables(ct, ca)
    &&& ca.events() == ct.events()
    &&& ca.mobjs_view().len() == ct.mobjs_view().len()
    &&& ca.mobjs_view()[actor as int].movecount == ct.mobjs_view()[actor as int].movecount
}

/// From `ct`, no attack ([`declined`], leaving `ca`), then a walk
/// ([`chase_walk_run`]) to `post`.
pub open spec fn walked_on<C: EnemyContext>(ct: C, ca: C, c0: C, cd: C, c1: C, c2: C, post: C, actor: usize, moved: bool) -> bool {
    &&& declined(ct, ca, actor)
    &&& chase_walk_run(ca, c0, cd, c1, c2, post, actor, moved)
}

/// The states of [`a_chase`] of thing `actor` from `pre` to `post`: first
/// it turns ([`chase_turned`], leaving `ct`); without a live target it
/// looks for players ([`looked`]), which ends it when one is found; with a
/// live target,
/// having just attacked and monsters not fast, it forgets that and picks
/// a new direction ([`new_dir_outcome`]); not having just attacked and
/// with neither attack taken, it walks on ([`walked_on`]).
pub open spec fn chase_run<C: EnemyContext>(pre: C, ct: C, post: C, actor: usize) -> bool {
    let m1 = chase_turned(pre.mobjs_view()[actor as int]);
    let ms = ct.mobjs_view();
    let info = ct.info_view(m1.type_);
    let melee = info.meleestate != S_NULL && in_melee_reach(ct, m1, ms[m1.target->0 as int])
        && ct.sight_view(actor, m1.target->0);
    let missile = info.missilestate != S_NULL && (ct.fast_view() || m1.movecount == 0)
        && missile_fires(ct, ms, actor);
    &&& only_mobj(pre, ct, actor, m1)
    &&& !target_alive(ms, m1) ==> exists|cl: C| #[trigger] looked(ct, cl, actor) && (post.events().len() == cl.events().len() ==> post == cl)
    &&& (target_alive(ms, m1) && m1.flags & MF_JUSTATTACKED != 0 && !pre.fast_view()) ==> exists|cj: C|
        #[trigger] forgot_attack(ct, cj, actor) && new_dir_outcome(cj, post, actor)
    &&& (target_alive(ms, m1) && m1.flags & MF_JUSTATTACKED == 0 && !melee && !missile) ==> exists|ca: C, c0: C, cd: C, c1: C, c2: C, moved: bool|
        #[trigger] walked_on(ct, ca, c0, cd, c1, c2, post, actor, moved)
}

/// What [`a_chase`] does to a monster `actor_idx` in the world `pre`,
/// leaving `post`.
pub open spec fn chased<C: EnemyContext>(pre: C, post: C, actor_idx: usize) -> bool {
    &&& ({
        let n = pre.events().len() as int;
        let m = pre.mobjs_view()[actor_idx as int];
        let m1 = chase_turned(m);
        let mid = pre.mobjs_view().update(actor_idx as int, m1);
        let info = pre.info_view(m.type_);
        &&& same_tables(pre, post)
        &&& post.mobjs_view().len() >= pre.mobjs_view().len()
        &&& post.events().len() >= n
        &&& post.events().subrange(0, n) == pre.events()
        &&& chase_requests_after(post.events(), n, actor_idx)
        &&& if !target_alive(mid, m1) {
            &&& post.events().len() > n
            &&& post.events()[n] is LookForPlayers
            &&& post.events() == pre.events().push(
                EnemyEvent::LookForPlayers { mobj: actor_idx, allaround: true, found: post.events()[n]->found },
            ) + if post.events()[n]->found {
                Seq::empty()
            } else {
                seq![EnemyEvent::SetState { mobj: actor_idx, state: info.spawnstate }]
            }
        } else if m1.flags & MF_JUSTATTACKED != 0 {
            if pre.fast_view() {
                only_mobj(pre, post, actor_idx, MapObject { flags: m1.flags & !MF_JUSTATTACKED, ..m1 })
            } else {
                walks_after(post.events(), n, actor_idx)
            }
        } else if info.meleestate != S_NULL && in_melee_reach(pre, m1, mid[m1.target->0 as int])
            && pre.sight_view(actor_idx, m1.target->0) {
            post.events() == pre.events() + if info.attacksound == SfxEnum::sfx_None {
                seq![EnemyEvent::SetState { mobj: actor_idx, state: info.meleestate }]
            } else {
                seq![
                    EnemyEvent::Sound { origin: Some(actor_idx), sfx: info.attacksound },
                    EnemyEvent::SetState { mobj: actor_idx, state: info.meleestate },
                ]
            }
        } else if info.missilestate != S_NULL && (pre.fast_view() || m1.movecount == 0)
            && missile_fires(pre, mid, actor_idx) {
            &&& post.events() == pre.events().push(EnemyEvent::SetState { mobj: actor_idx, state: info.missilestate })
            &&& post.mobjs_view()[actor_idx as int].flags & MF_JUSTATTACKED != 0
        } else {
            true
        }
    })
    &&& exists|ct: C| #[trigger] chase_run(pre, ct, post, actor_idx)
}

/// `A_Chase`: a monster's step of pursuit.
///
/// Its reaction time and threshold count down and it turns toward its
/// direction ([`chase_turned`]). Without a live shootable target it looks
/// for players all around, and unless one is found it goes back to its
/// spawn state. Having just attacked, it forgets that and, unless monsters
/// are fast, picks a new direction ([`p_new_chase_dir`]). Otherwise it
/// attacks: in melee reach of a target it sees, with its attack sound and
/// melee state; when the missile check fires (fast monsters check every
/// time, others only when done walking), with its missile state, marked
/// as having just attacked. Otherwise, in a net game with no threshold
/// left, it looks for another player when it lost sight of its target;
/// then it walks on, or picks a new direction when done walking or
/// blocked; now and then (3 in 256) it makes its active sound. Every
/// request it makes is about itself.
pub fn a_chase<C: EnemyContext>(actor_idx: usize, ctx: &mut C)
    requires
        target_ok(old(ctx).mobjs_view(), actor_idx),
        melee_fits(*old(ctx), actor_idx),
        missile_fits(old(ctx).mobjs_view(), actor_idx),
        old(ctx).mobjs_view()[actor_idx as int].movecount > i32::MIN,
    ensures
        chased(*old(ctx), *final(ctx), actor_idx),
{
    let ghost pre = *ctx;
    let ghost n = pre.events().len() as int;
    chase_turn(actor_idx, ctx);
    let ghost ct = *ctx;
    let m = ctx.mobjs()[actor_idx];
    let ghost mid = ctx.mobjs_view();
    let valid = match m.target {
        Some(t) => {
            let tg = ctx.mobjs()[t];
            tg.flags & MF_SHOOTABLE != 0 && tg.health > 0
        },
        None => false,
    };
    if !valid {
        let found = p_look_for_players(actor_idx, true, ctx);
        let ghost cl = *ctx;
        proof {
            assert(ctx.events().subrange(0, ct.events().len() as int) =~= ct.events());
            assert(ctx.mobjs_view() =~= ct.mobjs_view().update(actor_idx as int, MapObject { target: ctx.mobjs_view()[actor_idx as int].target, ..ct.mobjs_view()[actor_idx as int] }));
            assert(looked(ct, cl, actor_idx));
        }
        let ghost look = EnemyEvent::LookForPlayers { mobj: actor_idx, allaround: true, found };
        if found {
            proof {
                assert(ctx.events() =~= pre.events().push(look) + Seq::empty());
                lemma_chase_push(pre.events(), n, actor_idx, look);
                assert(ctx.events().subrange(0, n) =~= pre.events());
                assert(!target_alive(ct.mobjs_view(), m));
                assert(chase_run(pre, ct, *ctx, actor_idx));
            }
            return;
        }
        let info = ctx.mobj_info(ctx.mobjs()[actor_idx].type_);
        ctx.p_set_mobj_state(actor_idx, info.spawnstate);
        proof {
            let st = EnemyEvent::SetState { mobj: actor_idx, state: info.spawnstate };
            assert(ctx.events() =~= pre.events().push(look) + seq![st]);
            lemma_chase_push(pre.events(), n, actor_idx, look);
            lemma_chase_push(pre.events().push(look), n, actor_idx, st);
            assert(ctx.events().subrange(0, n) =~= pre.events());
            assert(!target_alive(ct.mobjs_view(), m));
            assert(chase_run(pre, ct, *ctx, actor_idx));
        }
        return;
    }
    if m.flags & MF_JUSTATTACKED != 0 {
        let mut a = m;
        a.flags = m.flags & !MF_JUSTATTACKED;
        ctx.set_mobj(actor_idx, a);
        assert(ctx.mobjs_view() =~= pre.mobjs_view().update(actor_idx as int, a));
        if !ctx.fast_monsters() {
            let ghost cj = *ctx;
            new_chase_dir(actor_idx, ctx);
            proof {
                lemma_chase_extend(pre.events(), ctx.events(), n, actor_idx);
                assert(forgot_attack(ct, cj, actor_idx));
                assert(chase_run(pre, ct, *ctx, actor_idx));
                assert(ctx.events().subrange(0, n) =~= pre.events());
            }
        } else {
            assert(ctx.events().subrange(0, n) =~= pre.events());
            assert(chase_run(pre, ct, *ctx, actor_idx));
        }
        return;
    }
    if chase_attack(actor_idx, ctx) {
        assert(chase_run(pre, ct, *ctx, actor_idx));
        assert(ctx.events().subrange(0, n) =~= pre.events());
        return;
    }
    let ghost ca = *ctx;
    chase_walk(actor_idx, ctx);
    proof {
        let (c0, cd, c1, c2, moved) = choose|c0: C, cd: C, c1: C, c2: C, moved: bool| #[trigger] chase_walk_run(ca, c0, cd, c1, c2, *ctx, actor_idx, moved);
        assert(walked_on(ct, ca, c0, cd, c1, c2, *ctx, actor_idx, moved));
        assert(chase_run(pre, ct, *ctx, actor_idx));
    }
}

/// The state an arch-vile enters to raise a corpse.
pub const S_VILE_HEAL1: usize = 266;

/// Thing `b` is thing `a` as the arch-vile's corpse search leaves it:
/// unchanged, or, for a corpse, stopped.
pub open spec fn corpse_readied(a: MapObject, b: MapObject) -> bool {
    ||| b == a
    ||| a.flags & MF_CORPSE != 0 && b == (MapObject { momx: Fixed(0), momy: Fixed(0), ..a })
}

/// The arch-vile `actor` searched for a corpse around where it stands in
/// `pre`, leaving `mid`; the search's answer is the last event of `mid`.
pub open spec fn corpse_searched<C: EnemyContext>(pre: C, mid: C, actor: usize) -> bool {
    let m = pre.mobjs_view()[actor as int];
    let found = mid.events().last()->corpse;
    &&& same_tables(pre, mid)
    &&& mid.mobjs_view().len() == pre.mobjs_view().len()
    &&& forall|i: int| 0 <= i < pre.mobjs_view().len() ==> #[trigger] corpse_readied(pre.mobjs_view()[i], mid.mobjs_view()[i])
    &&& mid.events() == pre.events().push(EnemyEvent::CorpseSearch { x: m.x, y: m.y, corpse: found })
    &&& found matches Some(c) ==> c < pre.mobjs_view().len()
}

/// Corpse `k` raised, in the world `w`: the height, radius, flags and
/// health of its type, and no target.
pub open spec fn corpse_raised<C: EnemyContext>(w: C, k: MapObject) -> MapObject {
    let ri = w.raise_view(k.type_);
    MapObject {
        height: ri.height,
        radius: w.info_view(k.type_).radius,
        flags: ri.flags,
        health: ri.spawnhealth,
        target: None,
        ..k
    }
}

/// The arch-vile `actor` raises `corpse` (from `mid`): it turns toward
/// the corpse (`s0`) and enters its heal state, the corpse makes the
/// raising sound (`s1`) and enters the raise state of its type (`s2`),
/// and it gets back what its type is spawned with ([`corpse_raised`]).
pub open spec fn vile_raised<C: EnemyContext>(mid: C, s0: C, s1: C, s2: C, post: C, actor: usize, corpse: Option<usize>) -> bool {
    match corpse {
        Some(c) => {
            let a = mid.mobjs_view()[actor as int];
            let k = mid.mobjs_view()[c as int];
            &&& s0.mobjs_view() == mid.mobjs_view().update(actor as int, MapObject { angle: mid.angle_view(a.x, a.y, k.x, k.y), ..a })
            &&& s0.events() == mid.events()
            &&& same_tables(mid, s0)
            &&& s1.events() == s0.events().push(EnemyEvent::SetState { mobj: actor, state: S_VILE_HEAL1 }).push(
                EnemyEvent::Sound { origin: Some(c), sfx: SfxEnum::sfx_slop },
            )
            &&& same_tables(s0, s1)
            &&& c < s1.mobjs_view().len()
            &&& s2.events() == s1.events().push(
                EnemyEvent::SetState { mobj: c, state: s1.raise_view(s1.mobjs_view()[c as int].type_).raisestate },
            )
            &&& same_tables(s1, s2)
            &&& c < s2.mobjs_view().len()
            &&& post.mobjs_view() == s2.mobjs_view().update(c as int, corpse_raised(s2, s2.mobjs_view()[c as int]))
            &&& post.events() == s2.events()
            &&& same_tables(s2, post)
        },
        None => false,
    }
}

/// What the arch-vile does after its search found `corpse`: raises it,
/// or, with none found, chases as any monster does ([`chased`]).
pub open spec fn vile_went_on<C: EnemyContext>(mid: C, post: C, actor: usize, corpse: Option<usize>) -> bool {
    if corpse is None {
        chased(mid, post, actor)
    } else {
        exists|s0: C, s1: C, s2: C| #[trigger] vile_raised(mid, s0, s1, s2, post, actor, corpse)
    }
}

/// `A_VileChase`: the arch-vile looks around itself for a corpse to raise
/// ([`corpse_searched`]); it raises the one found, or else chases
/// ([`vile_went_on`]).
pub fn a_vile_chase<C: EnemyContext>(actor_idx: usize, ctx: &mut C)
    requires
        target_ok(old(ctx).mobjs_view(), actor_idx),
        melee_fits(*old(ctx), actor_idx),
        missile_fits(old(ctx).mobjs_view(), actor_idx),
        old(ctx).mobjs_view()[actor_idx as int].movecount > i32::MIN,
    ensures
        exists|mid: C| #[trigger] corpse_searched(*old(ctx), mid, actor_idx)
            && vile_went_on(mid, *final(ctx), actor_idx, mid.events().last()->corpse),
{
    let ghost pre = *ctx;
    let m = ctx.mobjs()[actor_idx];
    let found = ctx.find_vile_corpse(m.x, m.y);
    let ghost mid = *ctx;
    proof {
        assert(corpse_searched(pre, mid, actor_idx));
    }
    match found {
        Some(c) => {
            let a = ctx.mobjs()[actor_idx];
            let k = ctx.mobjs()[c];
            let angle = ctx.point_to_angle2(a.x, a.y, k.x, k.y);
            ctx.set_mobj(actor_idx, MapObject { angle, ..a });
            let ghost s0 = *ctx;
            ctx.p_set_mobj_state(actor_idx, S_VILE_HEAL1);
            ctx.s_start_sound(Some(c), SfxEnum::sfx_slop);
            let ghost s1 = *ctx;
            let ri = ctx.raise_info(ctx.mobjs()[c].type_);
            ctx.p_set_mobj_state(c, ri.raisestate);
            let ghost s2 = *ctx;
            let t = ctx.mobjs()[c].type_;
            let back = ctx.raise_info(t);
            let info = ctx.mobj_info(t);
            let mut k2 = ctx.mobjs()[c];
            k2.height = back.height;
            k2.radius = info.radius;
            k2.flags = back.flags;
            k2.health = back.spawnhealth;
            k2.target = None;
            ctx.set_mobj(c, k2);
            proof {
                assert(vile_raised(mid, s0, s1, s2, *ctx, actor_idx, Some(c)));
            }
        },
        None => {
            proof {
                let pa = pre.mobjs_view()[actor_idx as int];
                assert(corpse_readied(pa, mid.mobjs_view()[actor_idx as int]));
                if let Some(t) = pa.target {
                    assert(corpse_readied(pre.mobjs_view()[t as int], mid.mobjs_view()[t as int]));
                }
            }
            a_chase(actor_idx, ctx);
        },
    }
}

/// The attacks of [`a_chase`], for a thing with a live target that did
/// not just attack: whether it attacked.
fn chase_attack<C: EnemyContext>(actor_idx: usize, ctx: &mut C) -> (r: bool)
    requires
        target_ok(old(ctx).mobjs_view(), actor_idx),
        old(ctx).mobjs_view()[actor_idx as int].target is Some,
        melee_fits(*old(ctx), actor_idx),
        missile_fits(old(ctx).mobjs_view(), actor_idx),
    ensures
        ({
            let pre = *old(ctx);
            let post = *final(ctx);
            let m = pre.mobjs_view()[actor_idx as int];
            let info = pre.info_view(m.type_);
            let melee = info.meleestate != S_NULL && in_melee_reach(pre, m, pre.mobjs_view()[m.target->0 as int])
                && pre.sight_view(actor_idx, m.target->0);
            let missile = info.missilestate != S_NULL && (pre.fast_view() || m.movecount == 0)
                && missile_fires(pre, pre.mobjs_view(), actor_idx);
            &&& r == (melee || missile)
            &&& r ==> same_tables(pre, post)
            &&& r ==> post.mobjs_view().len() >= pre.mobjs_view().len()
            &&& melee ==> post.events() == pre.events() + if info.attacksound == SfxEnum::sfx_None {
                seq![EnemyEvent::SetState { mobj: actor_idx, state: info.meleestate }]
            } else {
                seq![
                    EnemyEvent::Sound { origin: Some(actor_idx), sfx: info.attacksound },
                    EnemyEvent::SetState { mobj: actor_idx, state: info.meleestate },
                ]
            }
            &&& (!melee && missile) ==> {
                &&& post.events() == pre.events().push(EnemyEvent::SetState { mobj: actor_idx, state: info.missilestate })
                &&& post.mobjs_view()[actor_idx as int].flags & MF_JUSTATTACKED != 0
            }
            &&& !r ==> {
                &&& same_tables(pre, post)
                &&& post.events() == pre.events()
                &&& post.mobjs_view().len() == pre.mobjs_view().len()
                &&& post.mobjs_view()[actor_idx as int].movecount == m.movecount
            }
        }),
{
    let ghost pre = *ctx;
    let m = ctx.mobjs()[actor_idx];
    let info = ctx.mobj_info(m.type_);
    if info.meleestate != S_NULL {
        if p_check_melee_range(actor_idx, ctx) {
            if info.attacksound != SfxEnum::sfx_None {
                ctx.s_start_sound(Some(actor_idx), info.attacksound);
            }
            ctx.p_set_mobj_state(actor_idx, info.meleestate);
            proof {
                let st = EnemyEvent::SetState { mobj: actor_idx, state: info.meleestate };
                if info.attacksound == SfxEnum::sfx_None {
                    assert(ctx.events() =~= pre.events() + seq![st]);
                } else {
                    let snd = EnemyEvent::Sound { origin: Some(actor_idx), sfx: info.attacksound };
                    assert(ctx.events() =~= pre.events() + seq![snd, st]);
                }
            }
            return true;
        }
    }
    if info.missilestate != S_NULL {
        let fast = ctx.fast_monsters();
        let movecount = ctx.mobjs()[actor_idx].movecount;
        if fast || movecount == 0 {
            let fire = p_check_missile_range(actor_idx, ctx);
            if fire {
                ctx.p_set_mobj_state(actor_idx, info.missilestate);
                let mut a = ctx.mobjs()[actor_idx];
                let fl = a.flags;
                a.flags = fl | MF_JUSTATTACKED;
                ctx.set_mobj(actor_idx, a);
                assert((fl | 0x80u32) & 0x80u32 != 0) by (bit_vector);
                return true;
            }
        }
    }
    false
}


// ---------------------------------------------------------------------------
// Walking noises, the spawn cubes and the boss brain
// ---------------------------------------------------------------------------

/// A sound at thing `actor`, then [`a_chase`]: the requests after the
/// sound are all about the thing itself.
fn noisy_chase<C: EnemyContext>(actor_idx: usize, sfx: SfxEnum, ctx: &mut C)
    requires
        target_ok(old(ctx).mobjs_view(), actor_idx),
        melee_fits(*old(ctx), actor_idx),
        missile_fits(old(ctx).mobjs_view(), actor_idx),
        old(ctx).mobjs_view()[actor_idx as int].movecount > i32::MIN,
    ensures
        same_tables(*old(ctx), *final(ctx)),
        final(ctx).mobjs_view().len() >= old(ctx).mobjs_view().len(),
        final(ctx).events().len() > old(ctx).events().len(),
        final(ctx).events().subrange(0, old(ctx).events().len() as int) == old(ctx).events(),
        final(ctx).events()[old(ctx).events().len() as int] == (EnemyEvent::Sound { origin: Some(actor_idx), sfx }),
        chase_requests_after(final(ctx).events(), old(ctx).events().len() + 1int, actor_idx),
{
    let ghost pre = *ctx;
    ctx.s_start_sound(Some(actor_idx), sfx);
    let ghost mid = ctx.events();
    a_chase(actor_idx, ctx);
    proof {
        let n = pre.events().len() as int;
        assert(ctx.events()[n] == ctx.events().subrange(0, mid.len() as int)[n]);
        assert(ctx.events().subrange(0, n) =~= ctx.events().subrange(0, mid.len() as int).subrange(0, n));
    }
}

/// `A_Hoof`: the cyberdemon's hoof sound, then [`a_chase`].
pub fn a_hoof<C: EnemyContext>(actor_idx: usize, ctx: &mut C)
    requires
        target_ok(old(ctx).mobjs_view(), actor_idx),
        melee_fits(*old(ctx), actor_idx),
        missile_fits(old(ctx).mobjs_view(), actor_idx),
        old(ctx).mobjs_view()[actor_idx as int].movecount > i32::MIN,
    ensures
        same_tables(*old(ctx), *final(ctx)),
        final(ctx).mobjs_view().len() >= old(ctx).mobjs_view().len(),
        final(ctx).events().len() > old(ctx).events().len(),
        final(ctx).events().subrange(0, old(ctx).events().len() as int) == old(ctx).events(),
        final(ctx).events()[old(ctx).events().len() as int] == (EnemyEvent::Sound { origin: Some(actor_idx), sfx: SfxEnum::sfx_hoof }),
        chase_requests_after(final(ctx).events(), old(ctx).events().len() + 1int, actor_idx),
{
    noisy_chase(actor_idx, SfxEnum::sfx_hoof, ctx);
}

/// `A_Metal`: the spider mastermind's clank, then [`a_chase`].
pub fn a_metal<C: EnemyContext>(actor_idx: usize, ctx: &mut C)
    requires
        target_ok(old(ctx).mobjs_view(), actor_idx),
        melee_fits(*old(ctx), actor_idx),
        missile_fits(old(ctx).mobjs_view(), actor_idx),
        old(ctx).mobjs_view()[actor_idx as int].movecount > i32::MIN,
    ensures
        same_tables(*old(ctx), *final(ctx)),
        final(ctx).mobjs_view().len() >= old(ctx).mobjs_view().len(),
        final(ctx).events().len() > old(ctx).events().len(),
        final(ctx).events().subrange(0, old(ctx).events().len() as int) == old(ctx).events(),
        final(ctx).events()[old(ctx).events().len() as int] == (EnemyEvent::Sound { origin: Some(actor_idx), sfx: SfxEnum::sfx_metal }),
        chase_requests_after(final(ctx).events(), old(ctx).events().len() + 1int, actor_idx),
{
    noisy_chase(actor_idx, SfxEnum::sfx_metal, ctx);
}

/// `A_BabyMetal`: the arachnotron's step, then [`a_chase`].
pub fn a_baby_metal<C: EnemyContext>(actor_idx: usize, ctx: &mut C)
    requires
        target_ok(old(ctx).mobjs_view(), actor_idx),
        melee_fits(*old(ctx), actor_idx),
        missile_fits(old(ctx).mobjs_view(), actor_idx),
        old(ctx).mobjs_view()[actor_idx as int].movecount > i32::MIN,
    ensures
        same_tables(*old(ctx), *final(ctx)),
        final(ctx).mobjs_view().len() >= old(ctx).mobjs_view().len(),
        final(ctx).events().len() > old(ctx).events().len(),
        final(ctx).events().subrange(0, old(ctx).events().len() as int) == old(ctx).events(),
        final(ctx).events()[old(ctx).events().len() as int] == (EnemyEvent::Sound { origin: Some(actor_idx), sfx: SfxEnum::sfx_bspwlk }),
        chase_requests_after(final(ctx).events(), old(ctx).events().len() + 1int, actor_idx),
{
    noisy_chase(actor_idx, SfxEnum::sfx_bspwlk, ctx);
}

/// Monster types a spawn cube may bring.
pub const MT_TROOP: usize = 11;
pub const MT_SERGEANT: usize = 12;
pub const MT_SHADOWS: usize = 13;
pub const MT_HEAD: usize = 14;
pub const MT_KNIGHT: usize = 17;
pub const MT_PAIN: usize = 22;
pub const MT_SPAWNFIRE: usize = 29;

/// The monster a spawn cube brings for the random value `r`: imp 50 in
/// 256, demon 40, spectre 30, pain elemental 10, cacodemon 30, arch-vile
/// 2, revenant 10, arachnotron 20, mancubus 30, hell knight 24, baron 10.
pub open spec fn spawn_fly_type(r: u8) -> usize {
    if r < 50 {
        MT_TROOP
    } else if r < 90 {
        MT_SERGEANT
    } else if r < 120 {
        MT_SHADOWS
    } else if r < 130 {
        MT_PAIN
    } else if r < 160 {
        MT_HEAD
    } else if r < 162 {
        MT_VILE
    } else if r < 172 {
        MT_UNDEAD
    } else if r < 192 {
        MT_BABY
    } else if r < 222 {
        MT_FATSO
    } else if r < 246 {
        MT_KNIGHT
    } else {
        MT_BRUISER
    }
}

/// See [`spawn_fly_type`].
pub fn pick_spawn_type(r: u8) -> (t: usize)
    ensures
        t == spawn_fly_type(r),
{
    if r < 50 {
        MT_TROOP
    } else if r < 90 {
        MT_SERGEANT
    } else if r < 120 {
        MT_SHADOWS
    } else if r < 130 {
        MT_PAIN
    } else if r < 160 {
        MT_HEAD
    } else if r < 162 {
        MT_VILE
    } else if r < 172 {
        MT_UNDEAD
    } else if r < 192 {
        MT_BABY
    } else if r < 222 {
        MT_FATSO
    } else if r < 246 {
        MT_KNIGHT
    } else {
        MT_BRUISER
    }
}

/// The cube's flight: its reaction time counts down, and while it was
/// positive, or without a target, nothing else happens.
pub open spec fn cube_flying(m: MapObject) -> bool {
    m.reactiontime > 0 || m.target is None
}

/// `A_SpawnFly`: a spawn cube counts down its flight. Arrived at its
/// target spot: spawn fire there with the teleport sound, a monster of a
/// random type ([`spawn_fly_type`]) that looks all around for players,
/// enters its see state and is teleported onto the spot; the cube is
/// removed.
pub fn a_spawn_fly<C: EnemyContext>(actor_idx: usize, ctx: &mut C)
    requires
        target_ok(old(ctx).mobjs_view(), actor_idx),
        old(ctx).mobjs_view()[actor_idx as int].reactiontime > i32::MIN,
    ensures
        ({
            let pre = *old(ctx);
            let post = *final(ctx);
            let m = pre.mobjs_view()[actor_idx as int];
            let counted = MapObject { reactiontime: (m.reactiontime - 1) as i32, ..m };
            let n = pre.events().len() as int;
            if cube_flying(m) {
                only_mobj(pre, post, actor_idx, counted)
            } else {
                let tg = pre.mobjs_view()[m.target->0 as int];
                let evs = post.events();
                &&& same_tables(pre, post)
                &&& evs.len() == n + 7
                &&& evs.subrange(0, n) == pre.events()
                &&& evs[n] == (EnemyEvent::SpawnMobj { x: tg.x, y: tg.y, z: tg.z, mtype: MT_SPAWNFIRE })
                &&& evs[n + 1] matches EnemyEvent::Sound { origin: Some(_), sfx } && sfx == SfxEnum::sfx_telept
                &&& exists|r: u8| evs[n + 2] == (EnemyEvent::SpawnMobj { x: tg.x, y: tg.y, z: tg.z, mtype: #[trigger] spawn_fly_type(r) })
                &&& evs[n + 3] matches EnemyEvent::LookForPlayers { mobj: k, allaround, .. } && allaround && {
                    &&& evs[n + 4] matches EnemyEvent::SetState { mobj, .. } && mobj == k
                    &&& evs[n + 5] == (EnemyEvent::TeleportMove { mobj: k, x: tg.x, y: tg.y })
                }
                &&& evs[n + 6] == (EnemyEvent::RemoveMobj { mobj: actor_idx })
            }
        }),
{
    let ghost pre = *ctx;
    let mut m = ctx.mobjs()[actor_idx];
    let rt = m.reactiontime;
    m.reactiontime = rt - 1;
    ctx.set_mobj(actor_idx, m);
    if rt > 0 {
        return;
    }
    let targ_idx = match m.target {
        Some(t) => t,
        None => return,
    };
    let targ = ctx.mobjs()[targ_idx];
    let (tx, ty, tz) = (targ.x, targ.y, targ.z);
    let fog = ctx.p_spawn_mobj(tx, ty, tz, MT_SPAWNFIRE);
    ctx.s_start_sound(Some(fog), SfxEnum::sfx_telept);
    let r = ctx.p_random();
    let mtype = pick_spawn_type(r);
    let newmobj = ctx.p_spawn_mobj(tx, ty, tz, mtype);
    let _found = p_look_for_players(newmobj, true, ctx);
    let see_state = ctx.mobj_info(ctx.mobjs()[newmobj].type_).seestate;
    ctx.p_set_mobj_state(newmobj, see_state);
    let _ = ctx.p_teleport_move(newmobj, tx, ty);
    ctx.p_remove_mobj(actor_idx);
    proof {
        let n = pre.events().len() as int;
        assert(ctx.events().subrange(0, n) =~= pre.events());
        assert(ctx.events()[n + 2] == (EnemyEvent::SpawnMobj { x: tx, y: ty, z: tz, mtype: spawn_fly_type(r) }));
    }
}

/// `A_SpawnSound`: the cube's flight noise, then [`a_spawn_fly`].
pub fn a_spawn_sound<C: EnemyContext>(actor_idx: usize, ctx: &mut C)
    requires
        target_ok(old(ctx).mobjs_view(), actor_idx),
        old(ctx).mobjs_view()[actor_idx as int].reactiontime > i32::MIN,
    ensures
        final(ctx).events().len() > old(ctx).events().len(),
        final(ctx).events().subrange(0, old(ctx).events().len() + 1int)
            == old(ctx).events().push(EnemyEvent::Sound { origin: Some(actor_idx), sfx: SfxEnum::sfx_boscub }),
        same_tables(*old(ctx), *final(ctx)),
{
    let ghost pre = *ctx;
    ctx.s_start_sound(Some(actor_idx), SfxEnum::sfx_boscub);
    let ghost mid = ctx.events();
    a_spawn_fly(actor_idx, ctx);
    proof {
        let n = mid.len() as int;
        if cube_flying(pre.mobjs_view()[actor_idx as int]) {
            assert(ctx.events() == mid);
        } else {
            assert(ctx.events().subrange(0, n) =~= mid);
        }
    }
}

/// The rocket explosion state the dying brain's blasts enter.
pub const S_BRAINEXPLODE1: usize = 795;

/// `A_BrainExplode`: one blast near the dying brain: a rocket spawned up
/// to 255 times 2048 units either side along x at height 128 plus up to
/// 510 units, rising by a random speed, in its explosion state.
pub fn a_brain_explode<C: EnemyContext>(actor_idx: usize, ctx: &mut C)
    requires
        actor_idx < old(ctx).mobjs_view().len(),
        i32::MIN + 255 * 2048 <= old(ctx).mobjs_view()[actor_idx as int].x.0 <= i32::MAX - 255 * 2048,
    ensures
        ({
            let pre = *old(ctx);
            let m = pre.mobjs_view()[actor_idx as int];
            let rng = pre.rng_view();
            let a = rng.next_p();
            let b = rng.advanced().next_p();
            let c = rng.advanced().advanced().next_p();
            let evs = final(ctx).events();
            let n = pre.events().len() as int;
            &&& same_tables(pre, *final(ctx))
            &&& evs.len() == n + 2
            &&& evs.subrange(0, n) == pre.events()
            &&& evs[n] == (EnemyEvent::SpawnMobj {
                x: Fixed((m.x.0 + (a - b) * 2048) as i32),
                y: m.y,
                z: Fixed((128 + c * 2 * FRACUNIT) as i32),
                mtype: MT_ROCKET,
            })
            &&& evs[n + 1] matches EnemyEvent::SetState { state, .. } && state == S_BRAINEXPLODE1
        }),
{
    let ghost pre = *ctx;
    let actor_x = ctx.mobjs()[actor_idx].x.0;
    let actor_y = ctx.mobjs()[actor_idx].y.0;
    let r1 = ctx.p_random() as i32;
    let r2 = ctx.p_random() as i32;
    let x = actor_x + (r1 - r2) * 2048;
    let r3 = ctx.p_random() as i32;
    let z = 128 + r3 * 2 * FRACUNIT;
    let th = ctx.p_spawn_mobj(Fixed(x), Fixed(actor_y), Fixed(z), MT_ROCKET);
    let r4 = ctx.p_random() as i32;
    let mut t = ctx.mobjs()[th];
    t.momz = Fixed(r4 * 512);
    ctx.set_mobj(th, t);
    ctx.p_set_mobj_state(th, S_BRAINEXPLODE1);
    if th < ctx.mobjs().len() {
        let r5 = ctx.p_random() as i32;
        let mut t2 = ctx.mobjs()[th];
        let tics = t2.tics;
        let sub = r5 & 7;
        assert(0 <= r5 & 7 <= 7) by (bit_vector)
            requires
                0 <= r5 <= 255,
        ;
        t2.tics = if tics < i32::MIN + 8 { 1 } else { tics - sub };
        if t2.tics < 1 {
            t2.tics = 1;
        }
        ctx.set_mobj(th, t2);
    }
    proof {
        let n = pre.events().len() as int;
        assert(ctx.events().subrange(0, n) =~= pre.events());
    }
}


/// The thing type of the spots the boss brain spits its cubes at.
pub const MT_BOSSTARGET: usize = 27;

/// The most spots the boss brain remembers.
pub const MAX_BRAIN_TARGETS: usize = 32;

/// What the boss brain remembers between its actions: the spots it spits
/// cubes at, in the order it found them, the one it spits at next, and
/// the toggle that skips every other spit on the easy skills.
pub struct BrainState {
    pub targets: Vec<usize>,
    pub target_on: usize,
    pub easy: i32,
}

impl BrainState {
    /// A brain that knows no spots yet.
    pub fn new() -> (r: Self)
        ensures
            r.targets@ == Seq::<usize>::empty(),
            r.target_on == 0,
            r.easy == 0,
    {
        BrainState { targets: Vec::new(), target_on: 0, easy: 0 }
    }
}

/// Whether a thing index names a boss-target spot among things `ms`.
pub open spec fn is_boss_spot(ms: Seq<MapObject>) -> spec_fn(usize) -> bool {
    |i: usize| i < ms.len() && ms[i as int].type_ == MT_BOSSTARGET
}

/// At most the first [`MAX_BRAIN_TARGETS`] entries of `s`.
pub open spec fn first_spots(s: Seq<usize>) -> Seq<usize> {
    if s.len() <= MAX_BRAIN_TARGETS {
        s
    } else {
        s.take(MAX_BRAIN_TARGETS as int)
    }
}

/// The spots the waking brain finds: the first [`MAX_BRAIN_TARGETS`]
/// boss-target things among `thinkers`, in thinker order.
pub open spec fn boss_spots(ms: Seq<MapObject>, thinkers: Seq<usize>) -> Seq<usize> {
    first_spots(thinkers.filter(is_boss_spot(ms)))
}

/// `A_BrainAwake`: the boss brain wakes, finds its spots
/// ([`boss_spots`]; the next spot to spit at stays as it was), and its
/// waking sound is heard everywhere.
pub fn a_brain_awake<C: EnemyContext>(_actor_idx: usize, ctx: &mut C, brain: &mut BrainState)
    ensures
        final(brain).targets@ == boss_spots(old(ctx).mobjs_view(), old(ctx).thinkers_view()),
        final(brain).target_on == old(brain).target_on,
        final(brain).easy == old(brain).easy,
        only_event(*old(ctx), *final(ctx), EnemyEvent::Sound { origin: None, sfx: SfxEnum::sfx_bossit }),
{
    let indices = ctx.collect_mobj_thinker_indices();
    let ghost ms = ctx.mobjs_view();
    let ghost pred = is_boss_spot(ms);
    let mut targets: Vec<usize> = Vec::new();
    let mut k: usize = 0;
    while k < indices.len()
        invariant
            k <= indices.len(),
            ms == ctx.mobjs_view(),
            pred == is_boss_spot(ms),
            forall|i: int| 0 <= i < indices@.len() ==> #[trigger] indices@[i] < ms.len(),
            targets@ == first_spots(indices@.take(k as int).filter(pred)),
        decreases indices.len() - k,
    {
        let idx = indices[k];
        let ghost f = indices@.take(k as int).filter(pred);
        proof {
            reveal(Seq::filter);
            assert(indices@.take(k as int + 1).drop_last() =~= indices@.take(k as int));
            assert(indices@.take(k as int + 1).last() == idx);
        }
        let spot = ctx.mobjs()[idx].type_ == MT_BOSSTARGET;
        assert(spot == pred(idx));
        if spot && targets.len() < MAX_BRAIN_TARGETS {
            targets.push(idx);
            assert(f.len() < MAX_BRAIN_TARGETS);
        } else if spot {
            proof {
                let f1 = f.push(idx);
                assert(f1.take(MAX_BRAIN_TARGETS as int) =~= f.take(MAX_BRAIN_TARGETS as int));
            }
        }
        k += 1;
    }
    proof {
        assert(indices@.take(indices@.len() as int) =~= indices@);
    }
    brain.targets = targets;
    ctx.s_start_sound(None, SfxEnum::sfx_bossit);
}

/// The spawn cube the brain spits.
pub const MT_SPAWNSHOT: usize = 28;

/// Every spot the brain remembers is a thing.
pub open spec fn brain_ok(b: BrainState, n: nat) -> bool {
    forall|i: int| 0 <= i < b.targets@.len() ==> #[trigger] b.targets@[i] < n
}

/// The skills on which the brain skips every other spit.
pub open spec fn easy_skill(s: Skill) -> bool {
    s == Skill::Baby || s == Skill::Easy
}

/// The spot the brain spits at when it spits: `None` when it knows no
/// spots, skips this spit (every other one on the easy skills), or its
/// next-spot counter has run past the spots it knows.
pub open spec fn spit_target(b: BrainState, skill: Skill) -> Option<usize> {
    if b.targets@.len() == 0 || (easy_skill(skill) && (b.easy ^ 1) == 0) || b.target_on >= b.targets@.len() {
        None
    } else {
        Some(b.targets@[b.target_on as int])
    }
}

/// The brain's memory after a spit: the toggle flips when it knows a
/// spot, and the counter moves on (round the spots) when it does not skip.
pub open spec fn brain_after_spit(b: BrainState, b2: BrainState, skill: Skill) -> bool {
    &&& b2.targets@ == b.targets@
    &&& if b.targets@.len() == 0 {
        b2.easy == b.easy && b2.target_on == b.target_on
    } else {
        &&& b2.easy == b.easy ^ 1
        &&& if easy_skill(skill) && b2.easy == 0 {
            b2.target_on == b.target_on
        } else {
            b2.target_on == (b.target_on + 1) % (b.targets@.len() as int)
        }
    }
}

/// The tics a cube's flight is counted in: those of its state, at least
/// one.
pub open spec fn cube_state_tics<C: EnemyContext>(ctx: C, state: Option<usize>) -> int {
    match state {
        Some(s) => if ctx.state_tics_view(s) > 0 { ctx.state_tics_view(s) as int } else { 1 },
        None => 1,
    }
}

/// The cube `c` spat from the brain at `brain_y` toward a spot at
/// `spot_y`, as the brain leaves it in `mid` (the world right after the
/// spawn): aimed at the spot, and, when it moves along y, given the tics
/// it takes to fly there ([`trunc_div`] of the distance by its y speed,
/// then by its state's tics).
pub open spec fn cube_aimed<C: EnemyContext>(mid: C, c: MapObject, t: usize, brain_y: i32, spot_y: i32) -> MapObject {
    let rt = if c.momy.0 != 0 {
        trunc_div(trunc_div(spot_y.wrapping_sub(brain_y) as int, c.momy.0 as int), cube_state_tics(mid, c.state)) as i32
    } else {
        c.reactiontime
    };
    MapObject { target: Some(t), reactiontime: rt, ..c }
}

/// What a spit at spot `target` does: a spawn cube fired from the brain
/// at it (the world `mid`, with the cube at `cube`), aimed
/// ([`cube_aimed`]), then the spit sound, heard everywhere.
pub open spec fn spat<C: EnemyContext>(pre: C, mid: C, post: C, cube: usize, actor: usize, target: Option<usize>) -> bool {
    match target {
        Some(t) => {
            &&& mid.events() == pre.events().push(
                EnemyEvent::SpawnMissile { source: actor, dest: t, mtype: MT_SPAWNSHOT, angle: pre.mobjs_view()[actor as int].angle },
            )
            &&& same_tables(pre, mid)
            &&& cube < mid.mobjs_view().len()
            &&& actor < mid.mobjs_view().len()
            &&& same_tables(mid, post)
            &&& post.mobjs_view() == mid.mobjs_view().update(
                cube as int,
                cube_aimed(mid, mid.mobjs_view()[cube as int], t, mid.mobjs_view()[actor as int].y.0, pre.mobjs_view()[t as int].y.0),
            )
            &&& post.events() == mid.events().push(EnemyEvent::Sound { origin: None, sfx: SfxEnum::sfx_bospit })
        },
        None => false,
    }
}

/// What the brain's spit at `target` (none: no spit) did to the world.
pub open spec fn spit_done<C: EnemyContext>(pre: C, post: C, actor: usize, target: Option<usize>) -> bool {
    if target is None {
        nothing(pre, post)
    } else {
        exists|mid: C, cube: usize| #[trigger] spat(pre, mid, post, cube, actor, target)
    }
}

/// Moving on from entry `i` round `n` entries is moving on from `i % n`.
proof fn lemma_next_round(i: int, n: int)
    requires
        i >= 0,
        n > 0,
    ensures
        (if i % n + 1 < n { i % n + 1 } else { 0 }) == (i + 1) % n,
{
    vstd::arithmetic::div_mod::lemma_add_mod_noop(i, 1, n);
    vstd::arithmetic::div_mod::lemma_mod_bound(i, n);
    if n == 1 {
        assert((i + 1) % 1 == 0) by (nonlinear_arith);
    } else {
        vstd::arithmetic::div_mod::lemma_small_mod(1, n as nat);
        if i % n + 1 < n {
            vstd::arithmetic::div_mod::lemma_small_mod((i % n + 1) as nat, n as nat);
        } else {
            vstd::arithmetic::div_mod::lemma_mod_self_0(n);
        }
    }
}

/// `A_BrainSpit`: the brain spits a spawn cube at its next spot
/// ([`spit_target`]; its memory moves on as [`brain_after_spit`] says);
/// when it does not spit, nothing happens.
pub fn a_brain_spit<C: EnemyContext>(actor_idx: usize, ctx: &mut C, brain: &mut BrainState)
    requires
        actor_idx < old(ctx).mobjs_view().len(),
        brain_ok(*old(brain), old(ctx).mobjs_view().len()),
    ensures
        brain_after_spit(*old(brain), *final(brain), old(ctx).skill_view()),
        spit_done(*old(ctx), *final(ctx), actor_idx, spit_target(*old(brain), old(ctx).skill_view())),
{
    let ghost pre = *ctx;
    let ghost b0 = *brain;
    let len = brain.targets.len();
    if len == 0 {
        return;
    }
    brain.easy = brain.easy ^ 1;
    let skill = ctx.gameskill();
    if (skill == Skill::Baby || skill == Skill::Easy) && brain.easy == 0 {
        return;
    }
    let idx = brain.target_on;
    let m = idx % len;
    brain.target_on = if m + 1 < len { m + 1 } else { 0 };
    proof {
        lemma_next_round(idx as int, len as int);
    }
    if idx >= len {
        return;
    }
    let t = brain.targets[idx];
    let spot_y = ctx.mobjs()[t].y;
    let cube = ctx.p_spawn_missile(actor_idx, t, MT_SPAWNSHOT);
    let ghost mid = *ctx;
    let mut c = ctx.mobjs()[cube];
    c.target = Some(t);
    let momy = c.momy.0;
    let tics: i32 = match c.state {
        Some(si) => {
            let st = ctx.state_tics(si);
            if st > 0 { st } else { 1 }
        },
        None => 1,
    };
    if momy != 0 {
        let dist = spot_y.0.wrapping_sub(ctx.mobjs()[actor_idx].y.0);
        let travel = div_toward_zero(dist as i64, momy as i64);
        let rt = div_toward_zero(travel, tics as i64);
        c.reactiontime = rt as i32;
    }
    ctx.set_mobj(cube, c);
    ctx.s_start_sound(None, SfxEnum::sfx_bospit);
    proof {
        assert(spat(pre, mid, *ctx, cube, actor_idx, Some(t)));
    }
}

/// How many blasts the dying brain's scream sets off.
pub const SCREAM_BLASTS: usize = 65;

/// Where along x blast `j` of the dying brain at `ax` goes off: from 196
/// units west of it eastward, 8 units apart.
pub open spec fn scream_x(ax: int, j: int) -> int {
    ax + (8 * j - 196) * FRACUNIT
}

/// Blast `j` of the brain's death scream, among the events `evs` that
/// followed the first `n`: a rocket spawned at [`scream_x`], 320 units
/// south of the brain at `(ax, ay)`, at height 128 plus up to 510 units
/// in steps of 2, then put in its explosion state.
pub open spec fn scream_blast(evs: Seq<EnemyEvent>, n: int, j: int, ax: int, ay: int) -> bool {
    &&& evs[n + 2 * j] matches EnemyEvent::SpawnMobj { x, y, z, mtype } && x.0 == scream_x(ax, j)
        && y.0 == ay - 320 * FRACUNIT && mtype == MT_ROCKET && 128 <= z.0 <= 128 + 255 * 2 * FRACUNIT
        && (z.0 - 128) % (2 * FRACUNIT) == 0
    &&& evs[n + 2 * j + 1] matches EnemyEvent::SetState { state, .. } && state == S_BRAINEXPLODE1
}

/// `A_BrainScream`: the boss brain's death: a row of [`SCREAM_BLASTS`]
/// rocket blasts ([`scream_blast`]) from 196 units west of it to 316 units
/// east, then its death cry, heard everywhere.
pub fn a_brain_scream<C: EnemyContext>(actor_idx: usize, ctx: &mut C)
    requires
        actor_idx < old(ctx).mobjs_view().len(),
        i32::MIN + 196 * FRACUNIT <= old(ctx).mobjs_view()[actor_idx as int].x.0 <= i32::MAX - 324 * FRACUNIT,
        i32::MIN + 320 * FRACUNIT <= old(ctx).mobjs_view()[actor_idx as int].y.0,
    ensures
        ({
            let pre = *old(ctx);
            let m = pre.mobjs_view()[actor_idx as int];
            let evs = final(ctx).events();
            let n = pre.events().len() as int;
            &&& same_tables(pre, *final(ctx))
            &&& evs.len() == n + 2 * SCREAM_BLASTS + 1
            &&& evs.subrange(0, n) == pre.events()
            &&& forall|j: int| 0 <= j < SCREAM_BLASTS ==> #[trigger] scream_blast(evs, n, j, m.x.0 as int, m.y.0 as int)
            &&& evs[n + 2 * SCREAM_BLASTS] == (EnemyEvent::Sound { origin: None, sfx: SfxEnum::sfx_bosdth })
        }),
{
    let ghost pre = *ctx;
    let ghost n = pre.events().len() as int;
    let actor_x = ctx.mobjs()[actor_idx].x.0;
    let actor_y = ctx.mobjs()[actor_idx].y.0;
    let end = actor_x + 320 * FRACUNIT;
    let y = actor_y - 320 * FRACUNIT;
    let mut x = actor_x - 196 * FRACUNIT;
    let mut j: usize = 0;
    while x < end
        invariant
            j <= SCREAM_BLASTS,
            x == scream_x(actor_x as int, j as int),
            end == actor_x + 320 * FRACUNIT,
            y == actor_y - 320 * FRACUNIT,
            i32::MIN + 196 * FRACUNIT <= actor_x <= i32::MAX - 324 * FRACUNIT,
            same_tables(pre, *ctx),
            n == pre.events().len(),
            ctx.events().len() == n + 2 * j,
            ctx.events().subrange(0, n) == pre.events(),
            forall|k: int| 0 <= k < j ==> #[trigger] scream_blast(ctx.events(), n, k, actor_x as int, actor_y as int),
        decreases SCREAM_BLASTS - j,
    {
        let ghost e0 = ctx.events();
        let r1 = ctx.p_random() as i32;
        let z = 128 + r1 * 2 * FRACUNIT;
        let th = ctx.p_spawn_mobj(Fixed(x), Fixed(y), Fixed(z), MT_ROCKET);
        let r2 = ctx.p_random() as i32;
        let mut t = ctx.mobjs()[th];
        t.momz = Fixed(r2 * 512);
        ctx.set_mobj(th, t);
        ctx.p_set_mobj_state(th, S_BRAINEXPLODE1);
        let r3 = ctx.p_random() as i32;
        let mut t2 = ctx.mobjs()[th];
        let tics = t2.tics;
        let sub = r3 & 7;
        assert(0 <= r3 & 7 <= 7) by (bit_vector)
            requires
                0 <= r3 <= 255,
        ;
        t2.tics = if tics < i32::MIN + 8 { 1 } else { tics - sub };
        if t2.tics < 1 {
            t2.tics = 1;
        }
        ctx.set_mobj(th, t2);
        proof {
            let evs = ctx.events();
            assert((z - 128) == r1 * (2 * FRACUNIT));
            assert(evs.subrange(0, e0.len() as int) =~= e0);
            assert forall|k: int| 0 <= k < j + 1 implies #[trigger] scream_blast(evs, n, k, actor_x as int, actor_y as int) by {
                if k < j {
                    assert(scream_blast(e0, n, k, actor_x as int, actor_y as int));
                    assert(evs[n + 2 * k] == e0[n + 2 * k]);
                    assert(evs[n + 2 * k + 1] == e0[n + 2 * k + 1]);
                }
            }
            assert(evs.subrange(0, n) =~= pre.events());
        }
        x = x + 8 * FRACUNIT;
        j = j + 1;
    }
    let ghost e0 = ctx.events();
    ctx.s_start_sound(None, SfxEnum::sfx_bosdth);
    proof {
        let evs = ctx.events();
        assert(j == SCREAM_BLASTS);
        assert(evs.subrange(0, n) =~= pre.events());
        assert forall|k: int| 0 <= k < SCREAM_BLASTS implies #[trigger] scream_blast(evs, n, k, actor_x as int, actor_y as int) by {
            assert(scream_blast(e0, n, k, actor_x as int, actor_y as int));
            assert(evs[n + 2 * k] == e0[n + 2 * k]);
            assert(evs[n + 2 * k + 1] == e0[n + 2 * k + 1]);
        }
    }
}


// ---------------------------------------------------------------------------
// The arch-vile's fire, the revenant's missile and the lost soul
// ---------------------------------------------------------------------------

/// The cosine of fine angle `fine` (the sine a quarter turn later).
pub open spec fn fine_cos<C: EnemyContext>(ctx: C, fine: u32) -> Fixed {
    ctx.sine_view((fine + 2048) as usize)
}

/// The sine of fine angle `fine`.
pub open spec fn fine_sin<C: EnemyContext>(ctx: C, fine: u32) -> Fixed {
    ctx.sine_view(fine as usize)
}

/// The fine angle of an angle.
pub open spec fn fine_of(a: Angle) -> u32 {
    a.0 >> 19u32
}

fn fine_index(a: Angle) -> (r: u32)
    ensures
        r == fine_of(a),
        r < 8192,
{
    let v = a.0;
    let f = v >> 19u32;
    assert(v >> 19u32 < 8192) by (bit_vector);
    f
}

/// The fire `f` of an arch-vile placed 24 units in front of its victim
/// `dest`, as seen from the arch-vile facing `facing`, at the victim's
/// height.
pub open spec fn fire_placed<C: EnemyContext>(ctx: C, f: MapObject, dest: MapObject, facing: Angle) -> MapObject {
    let fine = fine_of(facing);
    MapObject {
        x: Fixed(dest.x.0.wrapping_add(fixed_mul_spec(fine_cos(ctx, fine).0, 1572864i32))),
        y: Fixed(dest.y.0.wrapping_add(fixed_mul_spec(fine_sin(ctx, fine).0, 1572864i32))),
        z: dest.z,
        ..f
    }
}

/// Both ends of the fire `f` exist: its victim (tracer) and its arch-vile
/// (target).
pub open spec fn fire_ok(ms: Seq<MapObject>, f: usize) -> bool {
    &&& f < ms.len()
    &&& ms[f as int].tracer matches Some(d) ==> d < ms.len()
    &&& ms[f as int].target matches Some(v) ==> v < ms.len()
}

/// What [`a_fire`] does to fire `f` in state `pre`.
pub open spec fn fire_moved<C: EnemyContext>(pre: C, post: C, f: usize) -> bool {
    let ms = pre.mobjs_view();
    let m = ms[f as int];
    match (m.tracer, m.target) {
        (Some(d), Some(v)) => if pre.sight_view(v, d) {
            only_mobj(pre, post, f, fire_placed(pre, m, ms[d as int], ms[v as int].angle))
        } else {
            nothing(pre, post)
        },
        _ => nothing(pre, post),
    }
}

/// `A_Fire`: an arch-vile's fire keeps in front of its victim (see
/// [`fire_placed`]) while the arch-vile sees the victim.
pub fn a_fire<C: EnemyContext>(actor_idx: usize, ctx: &mut C)
    requires
        fire_ok(old(ctx).mobjs_view(), actor_idx),
    ensures
        fire_moved(*old(ctx), *final(ctx), actor_idx),
        forall|a: usize, b: usize| #[trigger] final(ctx).sight_view(a, b) == old(ctx).sight_view(a, b)
            || final(ctx).mobjs_view()[actor_idx as int] != old(ctx).mobjs_view()[actor_idx as int],
{
    let m = ctx.mobjs()[actor_idx];
    let dest_idx = match m.tracer {
        Some(t) => t,
        None => return,
    };
    let source_idx = match m.target {
        Some(s) => s,
        None => return,
    };
    if !ctx.p_check_sight(source_idx, dest_idx) {
        return;
    }
    let dest = ctx.mobjs()[dest_idx];
    let angle = ctx.mobjs()[source_idx].angle;
    let fine = fine_index(angle);
    let cos = ctx.fine_sine(fine as usize + 2048);
    let sin = ctx.fine_sine(fine as usize);
    let mut f = m;
    f.x = Fixed(dest.x.0.wrapping_add(cos.fixed_mul(Fixed(24 * FRACUNIT)).0));
    f.y = Fixed(dest.y.0.wrapping_add(sin.fixed_mul(Fixed(24 * FRACUNIT)).0));
    f.z = dest.z;
    ctx.set_mobj(actor_idx, f);
}

/// `A_StartFire`: the fire's starting roar, then [`a_fire`].
pub fn a_start_fire<C: EnemyContext>(actor_idx: usize, ctx: &mut C)
    requires
        fire_ok(old(ctx).mobjs_view(), actor_idx),
    ensures
        ({
            let pre = *old(ctx);
            let post = *final(ctx);
            &&& post.events() == pre.events().push(EnemyEvent::Sound { origin: Some(actor_idx), sfx: SfxEnum::sfx_flamst })
            &&& same_tables(pre, post)
            &&& post.rng_view() == pre.rng_view()
            &&& post.mobjs_view().len() == pre.mobjs_view().len()
            &&& forall|i: int| 0 <= i < pre.mobjs_view().len() && i != actor_idx ==> #[trigger] post.mobjs_view()[i] == pre.mobjs_view()[i]
        }),
{
    ctx.s_start_sound(Some(actor_idx), SfxEnum::sfx_flamst);
    a_fire(actor_idx, ctx);
}

/// `A_FireCrackle`: the fire's crackle, then [`a_fire`].
pub fn a_fire_crackle<C: EnemyContext>(actor_idx: usize, ctx: &mut C)
    requires
        fire_ok(old(ctx).mobjs_view(), actor_idx),
    ensures
        ({
            let pre = *old(ctx);
            let post = *final(ctx);
            &&& post.events() == pre.events().push(EnemyEvent::Sound { origin: Some(actor_idx), sfx: SfxEnum::sfx_flame })
            &&& same_tables(pre, post)
            &&& post.rng_view() == pre.rng_view()
            &&& post.mobjs_view().len() == pre.mobjs_view().len()
            &&& forall|i: int| 0 <= i < pre.mobjs_view().len() && i != actor_idx ==> #[trigger] post.mobjs_view()[i] == pre.mobjs_view()[i]
        }),
{
    ctx.s_start_sound(Some(actor_idx), SfxEnum::sfx_flame);
    a_fire(actor_idx, ctx);
}

/// The links of an arch-vile's fire: in state `cs` (just after the fire
/// `fire` was spawned) and afterwards in `post`, the fire knows the
/// arch-vile `actor` as its source and the arch-vile's target of `cs` as
/// its victim, and the arch-vile knows the fire (a fire that took the
/// arch-vile's own slot aside).
pub open spec fn vile_lit<C: EnemyContext>(cs: C, post: C, actor: usize, fire: usize) -> bool {
    &&& fire < post.mobjs_view().len()
    &&& actor < post.mobjs_view().len()
    &&& post.mobjs_view()[fire as int].target == Some(actor)
    &&& fire != actor ==> post.mobjs_view()[actor as int].tracer == Some(fire)
    &&& fire != actor ==> post.mobjs_view()[fire as int].tracer == cs.mobjs_view()[actor as int].target
}

/// `A_VileTarget`: with a target, the arch-vile faces it and lights a
/// fire on it, spawned at the target's x for both coordinates (as Doom
/// does), which then moves in front of the target
/// ([`a_fire`]); the fire knows the arch-vile, the arch-vile its fire.
pub fn a_vile_target<C: EnemyContext>(actor_idx: usize, ctx: &mut C)
    requires
        target_ok(old(ctx).mobjs_view(), actor_idx),
    ensures
        old(ctx).mobjs_view()[actor_idx as int].target is None ==> nothing(*old(ctx), *final(ctx)),
        old(ctx).mobjs_view()[actor_idx as int].target is Some ==> {
            let tg = old(ctx).mobjs_view()[old(ctx).mobjs_view()[actor_idx as int].target->0 as int];
            &&& same_tables(*old(ctx), *final(ctx))
            &&& final(ctx).events() == old(ctx).events().push(EnemyEvent::SpawnMobj { x: tg.x, y: tg.x, z: tg.z, mtype: MT_FIRE })
            &&& exists|k: int| 0 <= k < final(ctx).mobjs_view().len() && #[trigger] final(ctx).mobjs_view()[k].target == Some(actor_idx)
            &&& exists|cs: C, fire: usize| #[trigger] vile_lit(cs, *final(ctx), actor_idx, fire)
        },
{
    let target_idx = match ctx.mobjs()[actor_idx].target {
        Some(t) => t,
        None => return,
    };
    a_face_target(actor_idx, ctx);
    let tg = ctx.mobjs()[target_idx];
    let fog = ctx.p_spawn_mobj(tg.x, tg.x, tg.z, MT_FIRE);
    let ghost cs = *ctx;
    if actor_idx < ctx.mobjs().len() {
        let mut a = ctx.mobjs()[actor_idx];
        a.tracer = Some(fog);
        ctx.set_mobj(actor_idx, a);
    }
    let mut f = ctx.mobjs()[fog];
    f.target = Some(actor_idx);
    f.tracer = if actor_idx < ctx.mobjs().len() { ctx.mobjs()[actor_idx].target } else { None };
    ctx.set_mobj(fog, f);
    assert(vile_lit(cs, *ctx, actor_idx, fog));
    if fire_ok_exec(fog, ctx) {
        a_fire(fog, ctx);
    }
    assert(ctx.mobjs_view()[fog as int].target == Some(actor_idx));
    assert(vile_lit(cs, *ctx, actor_idx, fog));
}

/// See [`fire_ok`].
fn fire_ok_exec<C: EnemyContext>(f: usize, ctx: &C) -> (r: bool)
    ensures
        r == fire_ok(ctx.mobjs_view(), f),
{
    let ms = ctx.mobjs();
    if f >= ms.len() {
        return false;
    }
    let d_ok = match ms[f].tracer {
        Some(d) => d < ms.len(),
        None => true,
    };
    let v_ok = match ms[f].target {
        Some(v) => v < ms.len(),
        None => true,
    };
    d_ok && v_ok
}

/// The upward push of the arch-vile's blast on a thing of mass `mass`.
pub open spec fn vile_lift(mass: i32) -> i32 {
    if mass > 0 { ((1000 * FRACUNIT) as int / (mass as int)) as i32 } else { 0 }
}

/// `A_VileAttack`: with a target it can see after facing it, the
/// arch-vile's blast: the explosion sound, 20 damage to the target, which
/// is thrown up ([`vile_lift`] of its mass), and, when its fire exists,
/// the fire moves 24 units in front of the target and explodes for 70.
pub fn a_vile_attack<C: EnemyContext>(actor_idx: usize, ctx: &mut C)
    requires
        target_ok(old(ctx).mobjs_view(), actor_idx),
    ensures
        ({
            let pre = *old(ctx);
            let post = *final(ctx);
            let n = pre.events().len() as int;
            let m = pre.mobjs_view()[actor_idx as int];
            match m.target {
                None => nothing(pre, post),
                Some(t) => if !pre.sight_view(actor_idx, t) {
                    let (ms1, r1) = face_target(pre, actor_idx);
                    &&& post.mobjs_view() == ms1
                    &&& post.rng_view() == r1
                    &&& post.events() == pre.events()
                } else {
                    &&& same_tables(pre, post)
                    &&& post.events().len() == n + 2 || post.events().len() == n + 3
                    &&& post.events().subrange(0, n + 2) == pre.events().push(
                        EnemyEvent::Sound { origin: Some(actor_idx), sfx: SfxEnum::sfx_barexp },
                    ).push(EnemyEvent::Damage { victim: t, inflictor: Some(actor_idx), by: Some(actor_idx), damage: 20 })
                    &&& post.events().len() == n + 3 ==> (post.events()[n + 2] matches EnemyEvent::RadiusAttack { source, damage, .. }
                        && source == actor_idx && damage == 70)
                },
            }
        }),
{
    let ghost pre = *ctx;
    let target_idx = match ctx.mobjs()[actor_idx].target {
        Some(t) => t,
        None => return,
    };
    a_face_target(actor_idx, ctx);
    if !ctx.p_check_sight(actor_idx, target_idx) {
        return;
    }
    ctx.s_start_sound(Some(actor_idx), SfxEnum::sfx_barexp);
    ctx.p_damage_mobj(target_idx, Some(actor_idx), Some(actor_idx), 20);
    let mut tg = ctx.mobjs()[target_idx];
    let mass = ctx.mobj_info(tg.type_).mass;
    tg.momz = if mass > 0 { Fixed(1000 * FRACUNIT / mass) } else { Fixed(0) };
    ctx.set_mobj(target_idx, tg);
    let ghost two = ctx.events();
    let fire_idx = match ctx.mobjs()[actor_idx].tracer {
        Some(f) => f,
        None => {
            assert(ctx.events().subrange(0, pre.events().len() + 2int) =~= ctx.events());
            return;
        },
    };
    if fire_idx >= ctx.mobjs().len() {
        assert(ctx.events().subrange(0, pre.events().len() + 2int) =~= ctx.events());
        return;
    }
    let tx = ctx.mobjs()[target_idx].x;
    let ty = ctx.mobjs()[target_idx].y;
    let fine = fine_index(ctx.mobjs()[actor_idx].angle);
    let cos = ctx.fine_sine(fine as usize + 2048);
    let sin = ctx.fine_sine(fine as usize);
    let off_x = cos.0.wrapping_mul(24 * FRACUNIT) >> 16i32;
    let off_y = sin.0.wrapping_mul(24 * FRACUNIT) >> 16i32;
    let mut f = ctx.mobjs()[fire_idx];
    f.x = Fixed(tx.0.wrapping_add(off_x));
    f.y = Fixed(ty.0.wrapping_add(off_y));
    ctx.set_mobj(fire_idx, f);
    ctx.p_radius_attack(fire_idx, actor_idx, 70);
    assert(ctx.events().subrange(0, pre.events().len() + 2int) =~= two);
}

/// `A_SkelMissile`: with a target, the revenant faces it and fires a
/// homing missile at it from 16 units up; the missile homes on the target
/// and starts one tic of its flight ahead.
pub fn a_skel_missile<C: EnemyContext>(actor_idx: usize, ctx: &mut C)
    requires
        target_ok(old(ctx).mobjs_view(), actor_idx),
        old(ctx).mobjs_view()[actor_idx as int].z.0 <= i32::MAX - 16 * FRACUNIT,
    ensures
        old(ctx).mobjs_view()[actor_idx as int].target is None ==> nothing(*old(ctx), *final(ctx)),
        old(ctx).mobjs_view()[actor_idx as int].target is Some ==> {
            let (ms1, _r1) = face_target(*old(ctx), actor_idx);
            &&& same_tables(*old(ctx), *final(ctx))
            &&& final(ctx).events() == old(ctx).events().push(EnemyEvent::SpawnMissile {
                source: actor_idx,
                dest: old(ctx).mobjs_view()[actor_idx as int].target->0,
                mtype: MT_TRACER,
                angle: ms1[actor_idx as int].angle,
            })
        },
{
    let target_idx = match ctx.mobjs()[actor_idx].target {
        Some(t) => t,
        None => return,
    };
    a_face_target(actor_idx, ctx);
    let mut a = ctx.mobjs()[actor_idx];
    a.z = Fixed(a.z.0 + 16 * FRACUNIT);
    ctx.set_mobj(actor_idx, a);
    let mo = ctx.p_spawn_missile(actor_idx, target_idx, MT_TRACER);
    if actor_idx < ctx.mobjs().len() {
        let mut b = ctx.mobjs()[actor_idx];
        b.z = Fixed(b.z.0.wrapping_sub(16 * FRACUNIT));
        ctx.set_mobj(actor_idx, b);
    }
    let mut missile = ctx.mobjs()[mo];
    missile.tracer = if actor_idx < ctx.mobjs().len() { ctx.mobjs()[actor_idx].target } else { None };
    missile.x = Fixed(missile.x.0.wrapping_add(missile.momx.0));
    missile.y = Fixed(missile.y.0.wrapping_add(missile.momy.0));
    ctx.set_mobj(mo, missile);
}

/// The lost soul's charging speed.
pub const SKULLSPEED: i32 = 20 * 65536;

/// A lost soul `m` launched at its target `tg` along facing `a`: flying,
/// at [`SKULLSPEED`] along its facing, and climbing toward the target's
/// middle so as to get there when it arrives.
pub open spec fn skull_launched<C: EnemyContext>(ctx: C, m: MapObject, tg: MapObject) -> MapObject {
    let fine = fine_of(m.angle);
    let dist = aprox_distance(tg.x.0.wrapping_sub(m.x.0), tg.y.0.wrapping_sub(m.y.0));
    let q = dist / (SKULLSPEED as int);
    let steps = if q < 1 { 1 } else { q };
    let num = tg.z.0.wrapping_add(trunc_div(tg.height.0 as int, 2) as i32).wrapping_sub(m.z.0);
    MapObject {
        flags: m.flags | MF_SKULLFLY,
        momx: Fixed(fixed_mul_spec(SKULLSPEED, fine_cos(ctx, fine).0)),
        momy: Fixed(fixed_mul_spec(SKULLSPEED, fine_sin(ctx, fine).0)),
        momz: Fixed(trunc_div(num as int, steps) as i32),
        ..m
    }
}

/// The distance from thing `a` to its target fits the distance
/// arithmetic.
pub open spec fn target_distance_fits(ms: Seq<MapObject>, a: usize) -> bool {
    ms[a as int].target matches Some(t) ==> {
        let m = ms[a as int];
        let tg = ms[t as int];
        i32::MIN <= wrapping_abs(tg.x.0.wrapping_sub(m.x.0)) + wrapping_abs(tg.y.0.wrapping_sub(m.y.0)) <= i32::MAX
    }
}

/// `A_SkullAttack`: with a target, the lost soul screams its attack
/// sound, faces the target ([`face_target`]) and charges
/// ([`skull_launched`]).
pub fn a_skull_attack<C: EnemyContext>(actor_idx: usize, ctx: &mut C)
    requires
        target_ok(old(ctx).mobjs_view(), actor_idx),
        target_distance_fits(old(ctx).mobjs_view(), actor_idx),
    ensures
        ({
            let pre = *old(ctx);
            let post = *final(ctx);
            let m = pre.mobjs_view()[actor_idx as int];
            match m.target {
                None => nothing(pre, post),
                Some(t) => {
                    let (ms1, r1) = face_target(pre, actor_idx);
                    &&& same_tables(pre, post)
                    &&& post.events() == pre.events().push(
                        EnemyEvent::Sound { origin: Some(actor_idx), sfx: pre.info_view(m.type_).attacksound },
                    )
                    &&& post.rng_view() == r1
                    &&& post.mobjs_view() == ms1.update(actor_idx as int, skull_launched(pre, ms1[actor_idx as int], ms1[t as int]))
                },
            }
        }),
{
    let ghost pre = *ctx;
    let target_idx = match ctx.mobjs()[actor_idx].target {
        Some(t) => t,
        None => return,
    };
    let info = ctx.mobj_info(ctx.mobjs()[actor_idx].type_);
    ctx.s_start_sound(Some(actor_idx), info.attacksound);
    let ghost mid = *ctx;
    a_face_target(actor_idx, ctx);
    let mut a = ctx.mobjs()[actor_idx];
    let tg = ctx.mobjs()[target_idx];
    a.flags = a.flags | MF_SKULLFLY;
    let fine = fine_index(a.angle);
    let cos = ctx.fine_sine(fine as usize + 2048);
    let sin = ctx.fine_sine(fine as usize);
    a.momx = Fixed(SKULLSPEED).fixed_mul(cos);
    a.momy = Fixed(SKULLSPEED).fixed_mul(sin);
    proof {
        assert(face_target(mid, actor_idx) == face_target(pre, actor_idx));
    }
    let dist = p_aprox_distance(Fixed(tg.x.0.wrapping_sub(a.x.0)), Fixed(tg.y.0.wrapping_sub(a.y.0)));
    let half = div_toward_zero(tg.height.0 as i64, 2) as i32;
    let num = tg.z.0.wrapping_add(half).wrapping_sub(a.z.0);
    let q = dist.0 / SKULLSPEED;
    let steps: i32 = if q < 1 { 1 } else { q };
    a.momz = Fixed(div_toward_zero(num as i64, steps as i64) as i32);
    ctx.set_mobj(actor_idx, a);
}


// ---------------------------------------------------------------------------
// The pain elemental
// ---------------------------------------------------------------------------

/// How many of the things `ts` (indices into `ms`) are of type `t`.
pub open spec fn count_type(ms: Seq<MapObject>, ts: Seq<usize>, t: usize) -> nat
    decreases ts.len(),
{
    if ts.len() == 0 {
        0
    } else {
        count_type(ms, ts.drop_last(), t) + if ms[ts.last() as int].type_ == t { 1nat } else { 0nat }
    }
}

proof fn lemma_count_type_mono(ms: Seq<MapObject>, ts: Seq<usize>, t: usize, i: int, j: int)
    requires
        0 <= i <= j <= ts.len(),
    ensures
        count_type(ms, ts.subrange(0, i), t) <= count_type(ms, ts.subrange(0, j), t),
    decreases j - i,
{
    if i < j {
        lemma_count_type_mono(ms, ts, t, i, j - 1);
        assert(ts.subrange(0, j).drop_last() =~= ts.subrange(0, j - 1));
    }
}

/// Where a pain elemental `m` spits a lost soul (radius `skull_radius`)
/// along `angle`: far enough ahead for the two not to touch, 8 units up.
pub open spec fn skull_spot<C: EnemyContext>(ctx: C, m: MapObject, skull_radius: i32, angle: Angle) -> (Fixed, Fixed, Fixed) {
    let fine = fine_of(angle);
    let prestep = (4 * FRACUNIT + trunc_div(3 * (m.radius.0 + skull_radius), 2)) as i32;
    (
        Fixed(m.x.0.wrapping_add(fixed_mul_spec(prestep, fine_cos(ctx, fine).0))),
        Fixed(m.y.0.wrapping_add(fixed_mul_spec(prestep, fine_sin(ctx, fine).0))),
        Fixed((m.z.0 + 8 * FRACUNIT) as i32),
    )
}

/// The spot arithmetic of a pain elemental `m` fits.
pub open spec fn skull_spot_fits<C: EnemyContext>(ctx: C, m: MapObject) -> bool {
    let sr = ctx.info_view(MT_SKULL).radius.0;
    &&& i32::MIN <= 3 * (m.radius.0 + sr) <= i32::MAX
    &&& i32::MIN <= 4 * FRACUNIT + trunc_div(3 * (m.radius.0 + sr), 2) <= i32::MAX
    &&& m.z.0 + 8 * FRACUNIT <= i32::MAX
}

/// What `A_PainShootSkull` of thing `actor` along `angle` does from `pre`
/// with the things at `ms` and the random stream at `rng`: nothing, with
/// 20 lost souls already thinking; otherwise a soul spawned at
/// [`skull_spot`] and moved there, killed at once (10000 damage from the
/// elemental) when it could not be, or else charging with a sound at most.
pub open spec fn skull_shot<C: EnemyContext>(pre: C, ms: Seq<MapObject>, rng: DoomRandom, post: C, actor: usize, angle: Angle) -> bool {
    let n = pre.events().len() as int;
    let m = ms[actor as int];
    let (px, py, pz) = skull_spot(pre, m, pre.info_view(MT_SKULL).radius.0, angle);
    let evs = post.events();
    &&& same_tables(pre, post)
    &&& if count_type(ms, pre.thinkers_view(), MT_SKULL) >= 20 {
        &&& post.mobjs_view() == ms
        &&& post.rng_view() == rng
        &&& evs == pre.events()
    } else {
        &&& evs.len() >= n + 2
        &&& evs.subrange(0, n) == pre.events()
        &&& evs[n] == (EnemyEvent::SpawnMobj { x: px, y: py, z: pz, mtype: MT_SKULL })
        &&& evs[n + 1] matches EnemyEvent::TryMove { mobj: k, x, y, moved } && x == px && y == py && if moved {
            evs.len() <= n + 3 && (evs.len() == n + 3 ==> (evs[n + 2] matches EnemyEvent::Sound { origin, .. } && origin == Some(k)))
        } else {
            evs.len() == n + 3 && evs[n + 2] == (EnemyEvent::Damage { victim: k, inflictor: Some(actor), by: Some(actor), damage: 10000 })
        }
    }
}

/// `A_PainShootSkull`: unless 20 lost souls already think, a pain
/// elemental spits one along `angle` ([`skull_spot`]). When it cannot be
/// moved there it is killed at once (10000 damage, from the elemental);
/// otherwise it takes the elemental's target and charges
/// ([`a_skull_attack`], when that target exists).
#[verifier::rlimit(40)]
fn a_pain_shoot_skull<C: EnemyContext>(actor_idx: usize, angle: Angle, ctx: &mut C)
    requires
        actor_idx < old(ctx).mobjs_view().len(),
        skull_spot_fits(*old(ctx), old(ctx).mobjs_view()[actor_idx as int]),
    ensures
        skull_shot(*old(ctx), old(ctx).mobjs_view(), old(ctx).rng_view(), *final(ctx), actor_idx, angle),
{
    let ghost pre = *ctx;
    let ghost n = pre.events().len() as int;
    let indices = ctx.collect_mobj_thinker_indices();
    let mut count: u32 = 0;
    let mut i: usize = 0;
    while i < indices.len()
        invariant
            0 <= i <= indices@.len(),
            indices@ == pre.thinkers_view(),
            *ctx == pre,
            forall|k: int| 0 <= k < indices@.len() ==> #[trigger] indices@[k] < pre.mobjs_view().len(),
            count == count_type(pre.mobjs_view(), indices@.subrange(0, i as int), MT_SKULL),
            count < 20,
        decreases indices@.len() - i,
    {
        assert(indices@.subrange(0, i + 1).drop_last() =~= indices@.subrange(0, i as int));
        if ctx.mobjs()[indices[i]].type_ == MT_SKULL {
            count = count + 1;
        }
        if count >= 20 {
            proof {
                lemma_count_type_mono(pre.mobjs_view(), indices@, MT_SKULL, i + 1, indices@.len() as int);
                assert(indices@.subrange(0, indices@.len() as int) =~= indices@);
            }
            return;
        }
        i = i + 1;
    }
    assert(indices@.subrange(0, indices@.len() as int) =~= indices@);
    let m = ctx.mobjs()[actor_idx];
    let skull_radius = ctx.mobj_info(MT_SKULL).radius.0;
    let fine = fine_index(angle);
    let cos = ctx.fine_sine(fine as usize + 2048);
    let sin = ctx.fine_sine(fine as usize);
    let twice = 3 * (m.radius.0 + skull_radius);
    let prestep = Fixed(4 * FRACUNIT + div_toward_zero(twice as i64, 2) as i32);
    let px = Fixed(m.x.0.wrapping_add(prestep.fixed_mul(cos).0));
    let py = Fixed(m.y.0.wrapping_add(prestep.fixed_mul(sin).0));
    let pz = Fixed(m.z.0 + 8 * FRACUNIT);
    let skull = ctx.p_spawn_mobj(px, py, pz, MT_SKULL);
    if !ctx.p_try_move(skull, px, py) {
        ctx.p_damage_mobj(skull, Some(actor_idx), Some(actor_idx), 10000);
        assert(ctx.events().subrange(0, n) =~= pre.events());
        return;
    }
    let ghost two = ctx.events();
    let owner_target = if actor_idx < ctx.mobjs().len() { ctx.mobjs()[actor_idx].target } else { None };
    let mut sk = ctx.mobjs()[skull];
    sk.target = owner_target;
    ctx.set_mobj(skull, sk);
    if target_in_range(skull, ctx) && distance_fits_exec(skull, ctx) {
        a_skull_attack(skull, ctx);
    }
    assert(ctx.events().subrange(0, n) =~= pre.events());
    assert(ctx.events().subrange(0, n + 2) =~= two);
    assert(ctx.events()[n + 1] == two[n + 1]);
}

/// See [`target_distance_fits`].
fn distance_fits_exec<C: EnemyContext>(a: usize, ctx: &C) -> (r: bool)
    requires
        target_ok(ctx.mobjs_view(), a),
    ensures
        r == target_distance_fits(ctx.mobjs_view(), a),
{
    let ms = ctx.mobjs();
    match ms[a].target {
        None => true,
        Some(t) => {
            let dx = abs_of_wrapped(ms[t].x.0.wrapping_sub(ms[a].x.0)) as i64;
            let dy = abs_of_wrapped(ms[t].y.0.wrapping_sub(ms[a].y.0)) as i64;
            let sum = dx + dy;
            i32::MIN as i64 <= sum && sum <= i32::MAX as i64
        },
    }
}

/// `A_PainAttack`: with a target, the pain elemental faces it and spits a
/// lost soul its way ([`a_pain_shoot_skull`]).
pub fn a_pain_attack<C: EnemyContext>(actor_idx: usize, ctx: &mut C)
    requires
        target_ok(old(ctx).mobjs_view(), actor_idx),
        skull_spot_fits(*old(ctx), old(ctx).mobjs_view()[actor_idx as int]),
    ensures
        old(ctx).mobjs_view()[actor_idx as int].target is None ==> nothing(*old(ctx), *final(ctx)),
        old(ctx).mobjs_view()[actor_idx as int].target is Some ==> {
            let (ms1, r1) = face_target(*old(ctx), actor_idx);
            skull_shot(*old(ctx), ms1, r1, *final(ctx), actor_idx, ms1[actor_idx as int].angle)
        },
{
    let ghost pre = *ctx;
    if ctx.mobjs()[actor_idx].target.is_none() {
        return;
    }
    a_face_target(actor_idx, ctx);
    let angle = ctx.mobjs()[actor_idx].angle;
    a_pain_shoot_skull(actor_idx, angle, ctx);
}

/// Whether a pain elemental `actor` in `c` can spit a soul: it exists and
/// its spot arithmetic fits.
pub open spec fn can_spit<C: EnemyContext>(c: C, actor: usize) -> bool {
    actor < c.mobjs_view().len() && skull_spot_fits(c, c.mobjs_view()[actor as int])
}

/// `A_PainDie` from `pre` to `post` through `c1` and `c2`: the elemental
/// falls ([`a_fall`]) and spits a soul a quarter turn from its facing
/// ([`skull_shot`]), reaching `c1`; then, where it still can, one half a
/// turn round (reaching `c2`) and one three quarters round.
pub open spec fn pain_die_run<C: EnemyContext>(pre: C, c1: C, c2: C, post: C, actor: usize) -> bool {
    let m = pre.mobjs_view()[actor as int];
    let ms0 = pre.mobjs_view().update(actor as int, MapObject { flags: m.flags & !MF_SOLID, ..m });
    &&& skull_shot(pre, ms0, pre.rng_view(), c1, actor, Angle(m.angle.0.wrapping_add(0x4000_0000u32)))
    &&& if can_spit(c1, actor) {
        skull_shot(c1, c1.mobjs_view(), c1.rng_view(), c2, actor, Angle(m.angle.0.wrapping_add(0x8000_0000u32)))
    } else {
        c2 == c1
    }
    &&& if can_spit(c2, actor) {
        skull_shot(c2, c2.mobjs_view(), c2.rng_view(), post, actor, Angle(m.angle.0.wrapping_add(0xC000_0000u32)))
    } else {
        post == c2
    }
}

/// `A_PainDie`: the pain elemental falls ([`a_fall`]) and spits lost
/// souls a quarter, a half and three quarters of a turn from its facing.
pub fn a_pain_die<C: EnemyContext>(actor_idx: usize, ctx: &mut C)
    requires
        actor_idx < old(ctx).mobjs_view().len(),
        skull_spot_fits(*old(ctx), old(ctx).mobjs_view()[actor_idx as int]),
    ensures
        same_tables(*old(ctx), *final(ctx)),
        final(ctx).events().subrange(0, old(ctx).events().len() as int) == old(ctx).events(),
        exists|c1: C, c2: C| #[trigger] pain_die_run(*old(ctx), c1, c2, *final(ctx), actor_idx),
{
    let ghost pre = *ctx;
    a_fall(actor_idx, ctx);
    let angle = ctx.mobjs()[actor_idx].angle;
    proof {
        assert(skull_spot_fits(pre, ctx.mobjs_view()[actor_idx as int]));
    }
    a_pain_shoot_skull(actor_idx, Angle(angle.0.wrapping_add(0x4000_0000)), ctx);
    let ghost c1 = *ctx;
    let ghost e1 = ctx.events();
    if actor_idx < ctx.mobjs().len() && spot_fits_exec(actor_idx, ctx) {
        a_pain_shoot_skull(actor_idx, Angle(angle.0.wrapping_add(0x8000_0000)), ctx);
    }
    let ghost c2 = *ctx;
    let ghost e2 = ctx.events();
    if actor_idx < ctx.mobjs().len() && spot_fits_exec(actor_idx, ctx) {
        a_pain_shoot_skull(actor_idx, Angle(angle.0.wrapping_add(0xC000_0000)), ctx);
    }
    assert(pain_die_run(pre, c1, c2, *ctx, actor_idx));
    proof {
        let n = pre.events().len() as int;
        assert(e1.subrange(0, n) == pre.events());
        assert(e2.subrange(0, n) =~= e2.subrange(0, e1.len() as int).subrange(0, n));
        assert(ctx.events().subrange(0, n) =~= ctx.events().subrange(0, e2.len() as int).subrange(0, n));
    }
}

/// See [`skull_spot_fits`].
fn spot_fits_exec<C: EnemyContext>(a: usize, ctx: &C) -> (r: bool)
    requires
        a < ctx.mobjs_view().len(),
    ensures
        r == skull_spot_fits(*ctx, ctx.mobjs_view()[a as int]),
{
    let m = ctx.mobjs()[a];
    let sr = ctx.mobj_info(MT_SKULL).radius.0 as i64;
    let t = 3 * (m.radius.0 as i64 + sr);
    if t < i32::MIN as i64 || t > i32::MAX as i64 {
        return false;
    }
    let half = div_toward_zero(t, 2);
    let p = 4 * (FRACUNIT as i64) + half;
    p >= i32::MIN as i64 && p <= i32::MAX as i64 && (m.z.0 as i64) + 8 * (FRACUNIT as i64) <= i32::MAX as i64
}


// ---------------------------------------------------------------------------
// The revenant's homing missile
// ---------------------------------------------------------------------------

/// How far a homing missile turns per adjustment.
pub const TRACEANGLE: u32 = 0x0c00_0000;

/// The facing of a missile facing `cur` that wants to face `exact`: it
/// turns by [`TRACEANGLE`] the short way round, or straight to `exact`
/// when that turn would overshoot.
pub open spec fn traced_angle(cur: u32, exact: u32) -> u32 {
    if exact == cur {
        cur
    } else if exact.wrapping_sub(cur) > 0x8000_0000 {
        let a = cur.wrapping_sub(TRACEANGLE);
        if exact.wrapping_sub(a) < 0x8000_0000 { exact } else { a }
    } else {
        let a = cur.wrapping_add(TRACEANGLE);
        if exact.wrapping_sub(a) > 0x8000_0000 { exact } else { a }
    }
}

/// A homing missile `m` (speed `speed`) steered at `dest`, which lies
/// along `exact` from it: it turns ([`traced_angle`]), flies at its speed
/// along its new facing, and its climb changes by an eighth of a unit
/// toward the slope that would bring it 40 units above `dest`'s feet.
pub open spec fn traced<C: EnemyContext>(ctx: C, m: MapObject, dest: MapObject, exact: Angle, speed: i32) -> MapObject {
    let a = traced_angle(m.angle.0, exact.0);
    let fine = a >> 19u32;
    let d = aprox_distance(dest.x.0.wrapping_sub(m.x.0), dest.y.0.wrapping_sub(m.y.0));
    let q = trunc_div(d, speed as int);
    let steps = if q < 1 { 1 } else { q };
    let slope = trunc_div(dest.z.0.wrapping_add(2621440i32).wrapping_sub(m.z.0) as int, steps);
    MapObject {
        angle: Angle(a),
        momx: Fixed(fixed_mul_spec(speed, fine_cos(ctx, fine).0)),
        momy: Fixed(fixed_mul_spec(speed, fine_sin(ctx, fine).0)),
        momz: Fixed(if slope < m.momz.0 { m.momz.0 - FRACUNIT / 8 } else { m.momz.0 + FRACUNIT / 8 } as i32),
        ..m
    }
}

/// The steering arithmetic of missile `a` fits: its target exists, the
/// distance to it fits, the missile's speed is not 0 (nor -1 with the
/// least distance), and its climb can change by an eighth.
pub open spec fn tracer_fits<C: EnemyContext>(ctx: C, a: usize) -> bool {
    let ms = ctx.mobjs_view();
    let m = ms[a as int];
    let speed = ctx.info_view(m.type_).speed;
    &&& a < ms.len()
    &&& m.tracer matches Some(d) ==> {
        &&& d < ms.len()
        &&& i32::MIN <= wrapping_abs(ms[d as int].x.0.wrapping_sub(m.x.0)) + wrapping_abs(ms[d as int].y.0.wrapping_sub(m.y.0)) <= i32::MAX
        &&& speed != 0
        &&& !(speed == -1 && aprox_distance(ms[d as int].x.0.wrapping_sub(m.x.0), ms[d as int].y.0.wrapping_sub(m.y.0)) == i32::MIN)
        &&& i32::MIN + FRACUNIT / 8 <= m.momz.0 <= i32::MAX - FRACUNIT / 8
    }
}

/// `A_Tracer`: every fourth game tic a homing missile leaves a puff of
/// smoke where it is and, while its target lives, steers at it
/// ([`traced`]).
pub fn a_tracer<C: EnemyContext>(actor_idx: usize, ctx: &mut C)
    requires
        tracer_fits(*old(ctx), actor_idx),
    ensures
        ({
            let pre = *old(ctx);
            let post = *final(ctx);
            let ms = pre.mobjs_view();
            let m = ms[actor_idx as int];
            if pre.gametic_view() & 3 != 0 {
                nothing(pre, post)
            } else {
                &&& same_tables(pre, post)
                &&& post.rng_view() == pre.rng_view()
                &&& post.events() == pre.events().push(EnemyEvent::SpawnPuff { x: m.x, y: m.y, z: m.z })
                &&& post.mobjs_view().len() >= ms.len()
                &&& forall|i: int| 0 <= i < ms.len() && i != actor_idx ==> #[trigger] post.mobjs_view()[i] == ms[i]
                &&& post.mobjs_view()[actor_idx as int] == match m.tracer {
                    Some(d) => if ms[d as int].health > 0 {
                        traced(pre, m, ms[d as int], pre.angle_view(m.x, m.y, ms[d as int].x, ms[d as int].y), pre.info_view(m.type_).speed)
                    } else {
                        m
                    },
                    None => m,
                }
            }
        }),
{
    let ghost pre = *ctx;
    if ctx.gametic() & 3 != 0 {
        return;
    }
    let m = ctx.mobjs()[actor_idx];
    ctx.p_spawn_puff(m.x, m.y, m.z);
    let dest_idx = match m.tracer {
        Some(t) => t,
        None => return,
    };
    let dest = ctx.mobjs()[dest_idx];
    if dest.health <= 0 {
        return;
    }
    let exact = ctx.point_to_angle2(m.x, m.y, dest.x, dest.y);
    let cur = m.angle.0;
    let mut a = cur;
    if exact.0 != cur {
        if exact.0.wrapping_sub(cur) > 0x8000_0000 {
            a = cur.wrapping_sub(TRACEANGLE);
            if exact.0.wrapping_sub(a) < 0x8000_0000 {
                a = exact.0;
            }
        } else {
            a = cur.wrapping_add(TRACEANGLE);
            if exact.0.wrapping_sub(a) > 0x8000_0000 {
                a = exact.0;
            }
        }
    }
    let mut t = m;
    t.angle = Angle(a);
    let fine = fine_index(t.angle);
    let speed = ctx.mobj_info(m.type_).speed;
    let cos = ctx.fine_sine(fine as usize + 2048);
    let sin = ctx.fine_sine(fine as usize);
    t.momx = Fixed(speed).fixed_mul(cos);
    t.momy = Fixed(speed).fixed_mul(sin);
    let d = p_aprox_distance(Fixed(dest.x.0.wrapping_sub(m.x.0)), Fixed(dest.y.0.wrapping_sub(m.y.0)));
    let q = div_toward_zero(d.0 as i64, speed as i64);
    let steps: i64 = if q < 1 { 1 } else { q };
    assert(steps <= 0x8000_0000) by {
        assert(trunc_div(d.0 as int, speed as int) <= 0x8000_0000) by (nonlinear_arith)
            requires
                i32::MIN <= d.0 <= i32::MAX,
                speed != 0,
                i32::MIN <= speed <= i32::MAX,
        {
        }
    }
    let num = dest.z.0.wrapping_add(40 * FRACUNIT).wrapping_sub(m.z.0);
    let slope = div_toward_zero(num as i64, steps);
    t.momz = if slope < m.momz.0 as i64 { Fixed(m.momz.0 - FRACUNIT / 8) } else { Fixed(m.momz.0 + FRACUNIT / 8) };
    ctx.set_mobj(actor_idx, t);
}


// ---------------------------------------------------------------------------
// Sound propagation
// ---------------------------------------------------------------------------

/// How much farther flood `vc` can still improve a sector's mark: 3 when
/// the flood has not reached it, 2 when it came through more than one
/// sound-blocking line, 1 through one, 0 through none.
pub open spec fn mark_weight(s: SectorSound, vc: i32) -> nat {
    if s.validcount != vc {
        3
    } else if s.soundtraversed > 2 {
        2
    } else if s.soundtraversed == 2 {
        1
    } else {
        0
    }
}

/// The room flood `vc` has left to improve the marks of sectors `ss`.
pub open spec fn flood_room(ss: Seq<SectorSound>, vc: i32) -> nat
    decreases ss.len(),
{
    if ss.len() == 0 {
        0
    } else {
        flood_room(ss.drop_last(), vc) + mark_weight(ss.last(), vc)
    }
}

proof fn lemma_flood_room_update(ss: Seq<SectorSound>, vc: i32, i: int, x: SectorSound)
    requires
        0 <= i < ss.len(),
    ensures
        flood_room(ss.update(i, x), vc) + mark_weight(ss[i], vc) == flood_room(ss, vc) + mark_weight(x, vc),
    decreases ss.len(),
{
    if i == ss.len() - 1 {
        assert(ss.update(i, x).drop_last() =~= ss.drop_last());
    } else {
        lemma_flood_room_update(ss.drop_last(), vc, i, x);
        assert(ss.update(i, x).drop_last() =~= ss.drop_last().update(i, x));
    }
}

/// Flood `vc` has reached sector `s` having crossed at most `k - 1`
/// sound-blocking lines.
pub open spec fn reached(s: SectorSound, vc: i32, k: int) -> bool {
    s.validcount == vc && s.soundtraversed <= k
}

/// Whether sound passes between sectors `a` and `b`: the opening between
/// the lower ceiling and the higher floor is not closed.
pub open spec fn sound_opening(a: SectorSound, b: SectorSound) -> bool {
    let top = if a.ceilingheight.0 < b.ceilingheight.0 { a.ceilingheight.0 } else { b.ceilingheight.0 };
    let bottom = if a.floorheight.0 > b.floorheight.0 { a.floorheight.0 } else { b.floorheight.0 };
    top - bottom > 0
}

/// The lines name existing sectors.
pub open spec fn lines_in(lines: Seq<LineDef>, n: nat) -> bool {
    forall|i: int| 0 <= i < lines.len() ==> {
        &&& (#[trigger] lines[i]).frontsector matches Some(f) ==> f < n
        &&& lines[i].backsector matches Some(b) ==> b < n
    }
}

/// How flood `vc` with the noise of `target` may change sectors: a sector
/// keeps its heights and is either unchanged or newly reached (crossing
/// at most one blocking line) with that noise; every reach only improves.
pub open spec fn flood_step(pre: Seq<SectorSound>, post: Seq<SectorSound>, vc: i32, target: Option<usize>) -> bool {
    &&& post.len() == pre.len()
    &&& forall|i: int| 0 <= i < pre.len() ==> {
        ||| #[trigger] post[i] == pre[i]
        ||| (post[i] == SectorSound { validcount: vc, soundtraversed: post[i].soundtraversed, soundtarget: target, ..pre[i] }
            && 1 <= post[i].soundtraversed <= 2)
    }
    &&& forall|i: int| 0 <= i < pre.len() && (#[trigger] pre[i]).validcount == vc
        ==> post[i].validcount == vc && post[i].soundtraversed <= pre[i].soundtraversed
    &&& flood_room(post, vc) <= flood_room(pre, vc)
}

proof fn lemma_flood_step_trans(a: Seq<SectorSound>, b: Seq<SectorSound>, c: Seq<SectorSound>, vc: i32, target: Option<usize>)
    requires
        flood_step(a, b, vc, target),
        flood_step(b, c, vc, target),
    ensures
        flood_step(a, c, vc, target),
{
    assert forall|i: int| 0 <= i < a.len() implies {
        ||| #[trigger] c[i] == a[i]
        ||| (c[i] == SectorSound { validcount: vc, soundtraversed: c[i].soundtraversed, soundtarget: target, ..a[i] }
            && 1 <= c[i].soundtraversed <= 2)
    } by {
        assert(b[i] == a[i] || b[i].floorheight == a[i].floorheight);
    }
    assert forall|i: int| 0 <= i < a.len() && (#[trigger] a[i]).validcount == vc
        implies c[i].validcount == vc && c[i].soundtraversed <= a[i].soundtraversed by {
        assert(b[i].validcount == vc);
    }
}

/// Every two-sided line of sector `sec` through which sound passes leads
/// to a sector flood `vc` has reached: crossing no more blocking lines
/// than `blocks` for a plain line, and (only from an unblocked start)
/// through a blocking line with one more.
pub open spec fn spread_from(ss: Seq<SectorSound>, lines: Seq<LineDef>, sec: usize, blocks: i32, vc: i32) -> bool {
    forall|l: int| 0 <= l < lines.len() ==> {
        let line = #[trigger] lines[l];
        let other = if line.frontsector == Some(sec) { line.backsector } else { line.frontsector };
        ((line.frontsector == Some(sec) || line.backsector == Some(sec)) && (line.flags & ML_TWOSIDED) != 0
            && other is Some && sound_opening(ss[sec as int], ss[other->0 as int])) ==> {
            if (line.flags & ML_SOUNDBLOCK) == 0 {
                reached(ss[other->0 as int], vc, blocks + 1)
            } else {
                blocks == 0 ==> reached(ss[other->0 as int], vc, 2)
            }
        }
    }
}

/// The sector that sound passes to from sector `a` through `line` (in
/// sectors `ss`), if any: the line is two-sided, joins `a` to another
/// sector, and the opening between them is not closed.
pub open spec fn sound_through(ss: Seq<SectorSound>, line: LineDef, a: usize) -> Option<usize> {
    let other = if line.frontsector == Some(a) { line.backsector } else { line.frontsector };
    if (line.frontsector == Some(a) || line.backsector == Some(a)) && (line.flags & ML_TWOSIDED) != 0 && other is Some
        && sound_opening(ss[a as int], ss[other->0 as int]) {
        other
    } else {
        None
    }
}

/// Sectors `p` form a chain that sound passes along, sector `p[k]` to
/// `p[k + 1]` through line `lines[ls[k]]`.
pub open spec fn sound_path(ss: Seq<SectorSound>, lines: Seq<LineDef>, p: Seq<usize>, ls: Seq<int>) -> bool {
    &&& p.len() >= 1
    &&& ls.len() + 1 == p.len()
    &&& forall|k: int| 0 <= k < p.len() ==> #[trigger] p[k] < ss.len()
    &&& forall|k: int| #![trigger ls[k]] 0 <= k < ls.len() ==> 0 <= ls[k] < lines.len() && sound_through(ss, lines[ls[k]], p[k]) == Some(p[k + 1])
}

/// Sound can pass from sector `a` to sector `b` through open two-sided
/// lines (any number of them, blocking or not).
pub open spec fn sound_reaches(ss: Seq<SectorSound>, lines: Seq<LineDef>, a: usize, b: usize) -> bool {
    exists|p: Seq<usize>, ls: Seq<int>| #[trigger] sound_path(ss, lines, p, ls) && p[0] == a && p[p.len() - 1] == b
}

/// The sectors of `a` and `b` have the same heights.
pub open spec fn same_heights(a: Seq<SectorSound>, b: Seq<SectorSound>) -> bool {
    &&& a.len() == b.len()
    &&& forall|i: int| 0 <= i < a.len() ==> (#[trigger] a[i]).floorheight == b[i].floorheight && a[i].ceilingheight == b[i].ceilingheight
}

proof fn lemma_flood_heights(a: Seq<SectorSound>, b: Seq<SectorSound>, vc: i32, target: Option<usize>)
    requires
        flood_step(a, b, vc, target),
    ensures
        same_heights(a, b),
{
    assert forall|i: int| 0 <= i < a.len() implies (#[trigger] a[i]).floorheight == b[i].floorheight && a[i].ceilingheight == b[i].ceilingheight by {
        assert(b[i] == a[i] || b[i].floorheight == a[i].floorheight);
    }
}

proof fn lemma_sound_path_heights(a: Seq<SectorSound>, b: Seq<SectorSound>, lines: Seq<LineDef>, p: Seq<usize>, ls: Seq<int>)
    requires
        same_heights(a, b),
        sound_path(a, lines, p, ls),
    ensures
        sound_path(b, lines, p, ls),
{
    assert forall|k: int| #![trigger ls[k]] 0 <= k < ls.len() implies 0 <= ls[k] < lines.len() && sound_through(b, lines[ls[k]], p[k]) == Some(p[k + 1]) by {
        assert(p[k] < a.len());
        let line = lines[ls[k]];
        let other = if line.frontsector == Some(p[k]) { line.backsector } else { line.frontsector };
        assert(sound_through(a, line, p[k]) == Some(p[k + 1]));
        assert(other == Some(p[k + 1]));
        assert(p[k + 1] < a.len());
        assert(a[p[k] as int].floorheight == b[p[k] as int].floorheight);
        assert(a[p[k + 1] as int].floorheight == b[p[k + 1] as int].floorheight);
    }
}

proof fn lemma_sound_path_prepend(ss: Seq<SectorSound>, lines: Seq<LineDef>, p: Seq<usize>, ls: Seq<int>, s: usize, l: int)
    requires
        sound_path(ss, lines, p, ls),
        s < ss.len(),
        0 <= l < lines.len(),
        sound_through(ss, lines[l], s) == Some(p[0]),
    ensures
        sound_path(ss, lines, seq![s] + p, seq![l] + ls),
        (seq![s] + p)[0] == s,
        (seq![s] + p)[p.len() as int] == p[p.len() - 1],
{
    let p2 = seq![s] + p;
    let l2 = seq![l] + ls;
    assert forall|k: int| 0 <= k < p2.len() implies #[trigger] p2[k] < ss.len() by {
        if k > 0 {
            assert(p2[k] == p[k - 1]);
        }
    }
    assert forall|k: int| #![trigger l2[k]] 0 <= k < l2.len() implies 0 <= l2[k] < lines.len() && sound_through(ss, lines[l2[k]], p2[k]) == Some(p2[k + 1]) by {
        if k > 0 {
            assert(l2[k] == ls[k - 1]);
            assert(p2[k] == p[k - 1] && p2[k + 1] == p[k]);
        }
    }
}

proof fn lemma_sound_spread(
    pre: Seq<SectorSound>,
    before: Seq<SectorSound>,
    after: Seq<SectorSound>,
    lines: Seq<LineDef>,
    start: usize,
    other: usize,
    l: int,
    vc: i32,
    target: Option<usize>,
)
    requires
        start < pre.len(),
        0 <= l < lines.len(),
        same_heights(pre, before),
        flood_step(before, after, vc, target),
        sound_through(pre, lines[l], start) == Some(other),
        forall|j: int| 0 <= j < pre.len() && #[trigger] before[j] != pre[j] ==> sound_reaches(pre, lines, start, j as usize),
        forall|j: int| 0 <= j < before.len() && #[trigger] after[j] != before[j] ==> sound_reaches(before, lines, other, j as usize),
    ensures
        forall|j: int| 0 <= j < pre.len() && #[trigger] after[j] != pre[j] ==> sound_reaches(pre, lines, start, j as usize),
{
    assert forall|j: int| 0 <= j < pre.len() && #[trigger] after[j] != pre[j] implies sound_reaches(pre, lines, start, j as usize) by {
        if before[j] != pre[j] {
        } else {
            assert(after[j] != before[j]);
            let (p, ls) = choose|p: Seq<usize>, ls: Seq<int>| #[trigger] sound_path(before, lines, p, ls) && p[0] == other && p[p.len() - 1] == j as usize;
            assert(same_heights(before, pre)) by {
                assert forall|i: int| 0 <= i < before.len() implies (#[trigger] before[i]).floorheight == pre[i].floorheight && before[i].ceilingheight == pre[i].ceilingheight by {
                    assert(pre[i].floorheight == before[i].floorheight);
                }
            }
            lemma_sound_path_heights(before, pre, lines, p, ls);
            lemma_sound_path_prepend(pre, lines, p, ls, start, l);
            let p2 = seq![start] + p;
            assert(p2[p2.len() - 1] == j as usize);
            assert(sound_path(pre, lines, p2, seq![l] + ls) && p2[0] == start && p2[p2.len() - 1] == j as usize);
        }
    }
}

/// `P_RecursiveSound`: noise of `sound_target` floods from sector
/// `sector_idx`, reached having crossed `soundblocks` (0 or 1) blocking
/// lines, during flood `validcount`. A sector the flood already reached
/// at least as well stops it. Otherwise the sector is marked, and the
/// noise goes on through every two-sided line of it with an opening: on
/// through a plain line, and through a first blocking line but not a
/// second. Only sector marks change ([`flood_step`]); the sector ends up
/// reached, and when it was not before, so is every neighbour the noise
/// goes on to ([`spread_from`]).
pub fn p_recursive_sound<C: EnemyContext>(
    sector_idx: usize,
    soundblocks: i32,
    sound_target: Option<usize>,
    validcount: i32,
    ctx: &mut C,
)
    requires
        sector_idx < old(ctx).sounds_view().len(),
        0 <= soundblocks <= 1,
        lines_in(old(ctx).lines_view(), old(ctx).sounds_view().len()),
    ensures
        flood_step(old(ctx).sounds_view(), final(ctx).sounds_view(), validcount, sound_target),
        final(ctx).lines_view() == old(ctx).lines_view(),
        final(ctx).mobjs_view() == old(ctx).mobjs_view(),
        final(ctx).rng_view() == old(ctx).rng_view(),
        final(ctx).events() == old(ctx).events(),
        same_tables(*old(ctx), *final(ctx)),
        reached(final(ctx).sounds_view()[sector_idx as int], validcount, soundblocks + 1),
        reached(old(ctx).sounds_view()[sector_idx as int], validcount, soundblocks + 1)
            ==> final(ctx).sounds_view() == old(ctx).sounds_view(),
        !reached(old(ctx).sounds_view()[sector_idx as int], validcount, soundblocks + 1)
            ==> spread_from(final(ctx).sounds_view(), final(ctx).lines_view(), sector_idx, soundblocks, validcount),
        !reached(old(ctx).sounds_view()[sector_idx as int], validcount, soundblocks + 1) ==> final(ctx).sounds_view()[sector_idx as int] == (SectorSound {
            validcount,
            soundtraversed: (soundblocks + 1) as i32,
            soundtarget: sound_target,
            ..old(ctx).sounds_view()[sector_idx as int]
        }),
        forall|i: int| 0 <= i < old(ctx).sounds_view().len() && reached(old(ctx).sounds_view()[i], validcount, soundblocks + 1)
            ==> #[trigger] final(ctx).sounds_view()[i] == old(ctx).sounds_view()[i],
        forall|i: int| 0 <= i < old(ctx).sounds_view().len() && #[trigger] final(ctx).sounds_view()[i] != old(ctx).sounds_view()[i]
            ==> sound_reaches(old(ctx).sounds_view(), old(ctx).lines_view(), sector_idx, i as usize),
    decreases flood_room(old(ctx).sounds_view(), validcount),
{
    let ghost pre = *ctx;
    let sec = ctx.sector_sound(sector_idx);
    if sec.validcount == validcount && sec.soundtraversed <= soundblocks + 1 {
        return;
    }
    ctx.mark_sector(sector_idx, validcount, soundblocks + 1, sound_target);
    proof {
        let p0 = seq![sector_idx];
        let l0 = Seq::<int>::empty();
        assert(sound_path(pre.sounds_view(), pre.lines_view(), p0, l0));
    }
    proof {
        lemma_flood_room_update(pre.sounds_view(), validcount, sector_idx as int,
            SectorSound { validcount, soundtraversed: (soundblocks + 1) as i32, soundtarget: sound_target, ..sec });
    }
    let ghost marked = ctx.sounds_view();
    let num_lines = ctx.lines().len();
    let mut i: usize = 0;
    while i < num_lines
        invariant
            0 <= i <= num_lines,
            pre == *old(ctx),
            num_lines == ctx.lines_view().len(),
            ctx.lines_view() == pre.lines_view(),
            lines_in(pre.lines_view(), pre.sounds_view().len()),
            sector_idx < pre.sounds_view().len(),
            0 <= soundblocks <= 1,
            flood_step(pre.sounds_view(), ctx.sounds_view(), validcount, sound_target),
            flood_step(marked, ctx.sounds_view(), validcount, sound_target),
            flood_room(ctx.sounds_view(), validcount) < flood_room(pre.sounds_view(), validcount),
            reached(ctx.sounds_view()[sector_idx as int], validcount, soundblocks + 1),
            ctx.sounds_view()[sector_idx as int].floorheight == pre.sounds_view()[sector_idx as int].floorheight,
            ctx.sounds_view()[sector_idx as int].ceilingheight == pre.sounds_view()[sector_idx as int].ceilingheight,
            ctx.mobjs_view() == pre.mobjs_view(),
            ctx.rng_view() == pre.rng_view(),
            ctx.events() == pre.events(),
            same_tables(pre, *ctx),
            ctx.sounds_view()[sector_idx as int] == marked[sector_idx as int],
            marked[sector_idx as int] == (SectorSound {
                validcount,
                soundtraversed: (soundblocks + 1) as i32,
                soundtarget: sound_target,
                ..pre.sounds_view()[sector_idx as int]
            }),
            !reached(pre.sounds_view()[sector_idx as int], validcount, soundblocks + 1),
            forall|j: int| 0 <= j < pre.sounds_view().len() && reached(pre.sounds_view()[j], validcount, soundblocks + 1)
                ==> #[trigger] ctx.sounds_view()[j] == pre.sounds_view()[j],
            forall|j: int| 0 <= j < pre.sounds_view().len() && #[trigger] ctx.sounds_view()[j] != pre.sounds_view()[j]
                ==> sound_reaches(pre.sounds_view(), pre.lines_view(), sector_idx, j as usize),
            forall|l: int| 0 <= l < i ==> {
                let line = #[trigger] pre.lines_view()[l];
                let other = if line.frontsector == Some(sector_idx) { line.backsector } else { line.frontsector };
                ((line.frontsector == Some(sector_idx) || line.backsector == Some(sector_idx)) && (line.flags & ML_TWOSIDED) != 0
                    && other is Some && sound_opening(ctx.sounds_view()[sector_idx as int], ctx.sounds_view()[other->0 as int])) ==> {
                    if (line.flags & ML_SOUNDBLOCK) == 0 {
                        reached(ctx.sounds_view()[other->0 as int], validcount, soundblocks + 1)
                    } else {
                        soundblocks == 0 ==> reached(ctx.sounds_view()[other->0 as int], validcount, 2)
                    }
                }
            },
        decreases num_lines - i,
    {
        let line = ctx.lines()[i];
        let ghost before = ctx.sounds_view();
        if (line.frontsector == Some(sector_idx) || line.backsector == Some(sector_idx)) && (line.flags & ML_TWOSIDED) != 0 {
            let other = if line.frontsector == Some(sector_idx) { line.backsector } else { line.frontsector };
            if let Some(other_idx) = other {
                let front = ctx.sector_sound(sector_idx);
                let o = ctx.sector_sound(other_idx);
                let top = if front.ceilingheight.0 < o.ceilingheight.0 { front.ceilingheight.0 } else { o.ceilingheight.0 };
                let bottom = if front.floorheight.0 > o.floorheight.0 { front.floorheight.0 } else { o.floorheight.0 };
                let open = (top as i64) - (bottom as i64) > 0;
                if open {
                    proof {
                        lemma_flood_heights(pre.sounds_view(), before, validcount, sound_target);
                        assert(sound_through(pre.sounds_view(), pre.lines_view()[i as int], sector_idx) == Some(other_idx));
                    }
                    if (line.flags & ML_SOUNDBLOCK) != 0 {
                        if soundblocks == 0 {
                            p_recursive_sound(other_idx, 1, sound_target, validcount, ctx);
                            proof { lemma_sound_spread(pre.sounds_view(), before, ctx.sounds_view(), pre.lines_view(), sector_idx, other_idx, i as int, validcount, sound_target); }
                        }
                    } else {
                        p_recursive_sound(other_idx, soundblocks, sound_target, validcount, ctx);
                        proof { lemma_sound_spread(pre.sounds_view(), before, ctx.sounds_view(), pre.lines_view(), sector_idx, other_idx, i as int, validcount, sound_target); }
                    }
                }
            }
        }
        proof {
            lemma_flood_step_trans(pre.sounds_view(), before, ctx.sounds_view(), validcount, sound_target);
            lemma_flood_step_trans(marked, before, ctx.sounds_view(), validcount, sound_target);
            let cur = ctx.sounds_view();
            assert(cur[sector_idx as int] == before[sector_idx as int] || cur[sector_idx as int].floorheight == before[sector_idx as int].floorheight);
            assert forall|l: int| 0 <= l < i + 1 implies {
                let line = #[trigger] pre.lines_view()[l];
                let other = if line.frontsector == Some(sector_idx) { line.backsector } else { line.frontsector };
                ((line.frontsector == Some(sector_idx) || line.backsector == Some(sector_idx)) && (line.flags & ML_TWOSIDED) != 0
                    && other is Some && sound_opening(cur[sector_idx as int], cur[other->0 as int])) ==> {
                    if (line.flags & ML_SOUNDBLOCK) == 0 {
                        reached(cur[other->0 as int], validcount, soundblocks + 1)
                    } else {
                        soundblocks == 0 ==> reached(cur[other->0 as int], validcount, 2)
                    }
                }
            } by {
                let line = pre.lines_view()[l];
                let other = if line.frontsector == Some(sector_idx) { line.backsector } else { line.frontsector };
                if other is Some && other->0 < pre.sounds_view().len() {
                    let oi = other->0 as int;
                    assert(cur[oi] == before[oi] || cur[oi].floorheight == before[oi].floorheight);
                    assert(reached(before[oi], validcount, soundblocks + 1) ==> reached(cur[oi], validcount, soundblocks + 1));
                    assert(reached(before[oi], validcount, 2) ==> reached(cur[oi], validcount, 2));
                }
            }
        }
        i = i + 1;
    }
}

/// `P_NoiseAlert`: a new flood (`validcount` goes up by one) carries the
/// noise of `target_idx` from the sector of the emitter
/// ([`p_recursive_sound`]); an emitter outside the map makes none.
pub fn p_noise_alert<C: EnemyContext>(target_idx: usize, emitter_idx: usize, validcount: &mut i32, ctx: &mut C)
    requires
        emitter_idx < old(ctx).mobjs_view().len(),
        *old(validcount) < i32::MAX,
        lines_in(old(ctx).lines_view(), old(ctx).sounds_view().len()),
        old(ctx).mobjs_view()[emitter_idx as int].subsector matches Some(ss)
            ==> old(ctx).subsector_sector_view(ss) < old(ctx).sounds_view().len(),
    ensures
        match old(ctx).mobjs_view()[emitter_idx as int].subsector {
            None => *final(validcount) == *old(validcount) && final(ctx).sounds_view() == old(ctx).sounds_view(),
            Some(ss) => {
                let sec = old(ctx).subsector_sector_view(ss) as int;
                &&& *final(validcount) == *old(validcount) + 1
                &&& flood_step(old(ctx).sounds_view(), final(ctx).sounds_view(), *final(validcount), Some(target_idx))
                &&& reached(final(ctx).sounds_view()[sec], *final(validcount), 1)
            },
        },
        final(ctx).mobjs_view() == old(ctx).mobjs_view(),
        final(ctx).events() == old(ctx).events(),
{
    let ss = match ctx.mobjs()[emitter_idx].subsector {
        Some(ss) => ss,
        None => return,
    };
    let sector = ctx.subsector_sector(ss);
    *validcount = *validcount + 1;
    p_recursive_sound(sector, 0, Some(target_idx), *validcount, ctx);
}

/// A monster type whose missile score no type rule adjusts.
pub open spec fn plain_shooter(ty: usize) -> bool {
    ty != MT_VILE && ty != MT_UNDEAD && ty != MT_CYBORG && ty != MT_SPIDER && ty != MT_SKULL
}

/// `x` whole units, in fixed point, back to whole units.
proof fn lemma_whole_units(x: i32)
    requires
        -32768 <= x <= 32767,
    ensures
        (((x * 65536) as i32) >> 16i32) == x,
{
    assert((((x * 65536) as i32) >> 16i32) == x) by (bit_vector)
        requires
            -32768 <= x <= 32767,
    ;
}

/// Taking 128 units off a fixed-point value takes 128 off its whole units.
proof fn lemma_less_128_units(x: i32)
    requires
        i32::MIN + 128 * 65536 <= x,
    ensures
        (((x - 128 * 65536) as i32) >> 16i32) == (x >> 16i32) - 128,
{
    assert((((x - 128 * 65536) as i32) >> 16i32) == (x >> 16i32) - 128) by (bit_vector)
        requires
            i32::MIN + 128 * 65536 <= x,
    ;
}

/// A monster without a melee attack counts its target 128 units nearer
/// when it decides whether to fire: for the same monster and target, its
/// missile score is 128 below that of a monster with a melee attack, both
/// capped at 200, so it never fires less readily.
pub proof fn law_no_melee_scores_lower(m: MapObject, t: MapObject, info: MobjInfo, melee: usize)
    requires
        plain_shooter(m.type_),
        melee != S_NULL,
        i32::MIN + 128 * FRACUNIT <= aprox_distance(m.x.0.wrapping_sub(t.x.0), m.y.0.wrapping_sub(t.y.0)) - 64 * FRACUNIT <= i32::MAX,
    ensures
        ({
            let without = missile_score(m, t, MobjInfo { meleestate: S_NULL, ..info });
            let with = missile_score(m, t, MobjInfo { meleestate: melee, ..info });
            &&& without is Some && with is Some
            &&& without->0 <= with->0
            &&& without->0 >= with->0 - 128
            &&& with->0 < 200 ==> without->0 == with->0 - 128
        }),
{
    let d0 = aprox_distance(m.x.0.wrapping_sub(t.x.0), m.y.0.wrapping_sub(t.y.0)) - 64 * FRACUNIT;
    lemma_less_128_units(d0 as i32);
}

/// Along an axis, a plain monster `k` whole units from its target scores
/// `k - 192` without a melee attack and `k - 64` with one, at most 200.
pub proof fn law_missile_score_along_axis(m: MapObject, t: MapObject, info: MobjInfo, k: int)
    requires
        plain_shooter(m.type_),
        0 <= k <= 32767,
        m.y == t.y,
        m.x.0 - t.x.0 == k * FRACUNIT || t.x.0 - m.x.0 == k * FRACUNIT,
    ensures
        info.meleestate == S_NULL ==> missile_score(m, t, info) == Some(if k - 192 > 200 { 200 } else { k - 192 }),
        info.meleestate != S_NULL ==> missile_score(m, t, info) == Some(if k - 64 > 200 { 200 } else { k - 64 }),
{
    let dx = m.x.0.wrapping_sub(t.x.0);
    let dy = m.y.0.wrapping_sub(t.y.0);
    assert(dx == m.x.0 - t.x.0);
    assert(dy == 0);
    assert(aprox_distance(dx, dy) == k * FRACUNIT);
    if info.meleestate == S_NULL {
        lemma_whole_units((k - 192) as i32);
        assert((k - 192) * 65536 == k * FRACUNIT - 64 * FRACUNIT - 128 * FRACUNIT);
    } else {
        lemma_whole_units((k - 64) as i32);
        assert((k - 64) * 65536 == k * FRACUNIT - 64 * FRACUNIT);
    }
}

} // verus!
