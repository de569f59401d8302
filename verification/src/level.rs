//! Self-contained levels that carry out the engine services the specials
//! and the monster actions ask for by recording each request: a small
//! engine for running those functions on given data and reading back what
//! they did.

use vstd::prelude::*;
use crate::enemy::{EnemyContext, EnemyEvent, GameMode, MobjInfo, RaiseInfo, SectorSound};
use crate::fixed::Fixed;
use crate::mobj::{players_linked, MobjContext, MobjEvent};
use crate::movement::{same_shape, MoveEvent, MovementContext, SlideContext, SlideEvent, SlideHit};
use crate::inter::{player_views, AmmoType, GameRules, InterContext, InterEvent, Player, PlayerView, PspDef, Skill, ThingInfo, WeaponType};
use crate::pspr::{PspState, PsprContext, PsprEvent, WeaponInfo};
use crate::hitscan::{intercept_ok, MapContext, MapEvent};
use crate::spawn::{allocated, GameSettings, MapThing, SpawnContext, SpawnEvent, SpawnInfo, State, ITEMQUESIZE};
use crate::mobj::ActionFnId;
use crate::types::ActionFn;
use crate::maputl::Intercept;
use crate::random::DoomRandom;
use crate::spec::{FloorType, CeilingT, FloorMoveT, PlatT, SpecContext, SpecEvent, VldoorT, VldoorType};
use crate::types::{Angle, LineDef, MapObject, Sector, SfxEnum, SideDef, Subsector, Vertex};

verus! {

/// Things, a thing-info table and fixed answers to the geometric questions
/// (every angle asked for is `toward`, sight is `sight`, aiming finds
/// `aim_slope`); every request is appended to `log`, spawned things are
/// appended to `mobjs` and nothing else changes.
pub struct MonsterLevel {
    pub mobjs: Vec<MapObject>,
    pub rng: DoomRandom,
    pub infos: Vec<MobjInfo>,
    pub mode: GameMode,
    pub toward: Angle,
    pub sight: bool,
    pub aim_slope: Fixed,
    pub thinkers: Vec<usize>,
    pub episode: i32,
    pub map: i32,
    pub fast: bool,
    pub netgame: bool,
    /// Moves succeed (the thing goes where asked) unless `blocked`; a
    /// failed move leaves `floatok` and the touched lines `spechit`.
    pub blocked: bool,
    pub floatok: bool,
    pub spechit: Vec<usize>,
    /// What special lines answer, and what a look for players finds.
    pub lines_work: bool,
    pub finds_player: bool,
    /// The noise maker of every sector.
    pub soundtarget: Option<usize>,
    /// Every entry of the sine table, and the game tic.
    pub sine: Fixed,
    pub gametic: i32,
    /// The sectors as sound sees them, the lines, and the sector of each
    /// subsector (0 for one not listed).
    pub sounds: Vec<SectorSound>,
    pub lines: Vec<LineDef>,
    pub subsector_sectors: Vec<usize>,
    /// The skill, and the tics of every state.
    pub skill: Skill,
    pub state_tics: i32,
    /// The corpse an arch-vile's search finds, and what raising a corpse
    /// of any type gives back.
    pub corpse: Option<usize>,
    pub raise: RaiseInfo,
    pub log: Vec<EnemyEvent>,
}

/// The entries of `ts` that index one of `n` things, in order.
pub open spec fn valid_thinkers(ts: Seq<usize>, n: nat) -> Seq<usize>
    decreases ts.len(),
{
    if ts.len() == 0 {
        Seq::empty()
    } else {
        let rest = valid_thinkers(ts.drop_last(), n);
        if ts.last() < n { rest.push(ts.last()) } else { rest }
    }
}

proof fn lemma_valid_thinkers_bounded(ts: Seq<usize>, n: nat)
    ensures
        forall|i: int| 0 <= i < valid_thinkers(ts, n).len() ==> #[trigger] valid_thinkers(ts, n)[i] < n,
    decreases ts.len(),
{
    if ts.len() > 0 {
        lemma_valid_thinkers_bounded(ts.drop_last(), n);
        let rest = valid_thinkers(ts.drop_last(), n);
        assert forall|i: int| 0 <= i < valid_thinkers(ts, n).len() implies #[trigger] valid_thinkers(ts, n)[i] < n by {
            if i < rest.len() {
                assert(valid_thinkers(ts, n)[i] == rest[i]);
            }
        }
    }
}

/// The info of a thing type missing from the table: no states, no sounds,
/// no size.
pub open spec fn no_info() -> MobjInfo {
    MobjInfo {
        seestate: 0,
        meleestate: 0,
        painsound: SfxEnum::sfx_None,
        deathsound: SfxEnum::sfx_None,
        radius: Fixed(0),
        spawnstate: 0,
        missilestate: 0,
        seesound: SfxEnum::sfx_None,
        attacksound: SfxEnum::sfx_None,
        activesound: SfxEnum::sfx_None,
        speed: 0,
        mass: 0,
    }
}

impl MonsterLevel {
    /// A level with things `mobjs`, info table `infos`, every thing
    /// thinking, the random stream at its start and nothing requested.
    pub fn new(mobjs: Vec<MapObject>, infos: Vec<MobjInfo>, mode: GameMode) -> (r: MonsterLevel)
        ensures
            r.mobjs@ == mobjs@,
            r.infos@ == infos@,
            r.mode == mode,
            r.rng.prndindex == 0,
            r.toward == Angle(0),
            r.sight,
            r.aim_slope == Fixed(0),
            r.thinkers@.len() == mobjs@.len(),
            r.episode == 1,
            r.map == 1,
            r.skill == Skill::Medium,
            r.state_tics == 4,
            r.corpse is None,
            forall|i: int| 0 <= i < mobjs@.len() ==> #[trigger] r.thinkers@[i] == i,
            r.log@.len() == 0,
    {
        let n = mobjs.len();
        let mut thinkers: Vec<usize> = Vec::new();
        let mut i: usize = 0;
        while i < n
            invariant
                0 <= i <= n,
                thinkers@.len() == i,
                forall|k: int| 0 <= k < i ==> #[trigger] thinkers@[k] == k,
            decreases n - i,
        {
            thinkers.push(i);
            i = i + 1;
        }
        MonsterLevel {
            mobjs,
            rng: DoomRandom::new(),
            infos,
            mode,
            toward: Angle(0),
            sight: true,
            aim_slope: Fixed(0),
            thinkers,
            episode: 1,
            map: 1,
            fast: false,
            netgame: false,
            blocked: false,
            floatok: false,
            spechit: Vec::new(),
            lines_work: false,
            finds_player: false,
            soundtarget: None,
            sine: Fixed(0),
            gametic: 0,
            sounds: Vec::new(),
            lines: Vec::new(),
            subsector_sectors: Vec::new(),
            skill: Skill::Medium,
            state_tics: 4,
            corpse: None,
            raise: RaiseInfo { raisestate: 0, height: Fixed(0), flags: 0, spawnhealth: 0 },
            log: Vec::new(),
        }
    }
}

impl EnemyContext for MonsterLevel {
    open spec fn mobjs_view(&self) -> Seq<MapObject> {
        self.mobjs@
    }

    open spec fn rng_view(&self) -> DoomRandom {
        self.rng
    }

    open spec fn events(&self) -> Seq<EnemyEvent> {
        self.log@
    }

    open spec fn sight_view(&self, t1: usize, t2: usize) -> bool {
        self.sight
    }

    open spec fn info_view(&self, mobj_type: usize) -> MobjInfo {
        if mobj_type < self.infos@.len() {
            self.infos@[mobj_type as int]
        } else {
            no_info()
        }
    }

    open spec fn angle_view(&self, x1: Fixed, y1: Fixed, x2: Fixed, y2: Fixed) -> Angle {
        self.toward
    }

    open spec fn mode_view(&self) -> GameMode {
        self.mode
    }

    open spec fn episode_view(&self) -> i32 {
        self.episode
    }

    open spec fn map_view(&self) -> i32 {
        self.map
    }

    open spec fn thinkers_view(&self) -> Seq<usize> {
        valid_thinkers(self.thinkers@, self.mobjs@.len())
    }

    open spec fn fast_view(&self) -> bool {
        self.fast
    }

    open spec fn netgame_view(&self) -> bool {
        self.netgame
    }

    open spec fn floatok_view(&self) -> bool {
        self.floatok
    }

    open spec fn spechit_view(&self) -> Seq<usize> {
        self.spechit@
    }

    open spec fn soundtarget_view(&self, subsector: usize) -> Option<usize> {
        self.soundtarget
    }

    open spec fn sine_view(&self, i: usize) -> Fixed {
        self.sine
    }

    open spec fn gametic_view(&self) -> i32 {
        self.gametic
    }

    open spec fn sounds_view(&self) -> Seq<SectorSound> {
        self.sounds@
    }

    open spec fn lines_view(&self) -> Seq<LineDef> {
        self.lines@
    }

    open spec fn subsector_sector_view(&self, subsector: usize) -> usize {
        if subsector < self.subsector_sectors@.len() { self.subsector_sectors@[subsector as int] } else { 0 }
    }

    open spec fn skill_view(&self) -> Skill {
        self.skill
    }

    open spec fn state_tics_view(&self, s: usize) -> i32 {
        self.state_tics
    }

    open spec fn raise_view(&self, mobj_type: usize) -> RaiseInfo {
        self.raise
    }

    fn raise_info(&self, mobj_type: usize) -> (r: RaiseInfo) {
        self.raise
    }

    fn find_vile_corpse(&mut self, x: Fixed, y: Fixed) -> (r: Option<usize>) {
        let r = match self.corpse {
            Some(c) => if c < self.mobjs.len() { Some(c) } else { None },
            None => None,
        };
        self.log.push(EnemyEvent::CorpseSearch { x, y, corpse: r });
        r
    }

    fn gameskill(&self) -> (r: Skill) {
        self.skill
    }

    fn state_tics(&self, s: usize) -> (r: i32) {
        self.state_tics
    }

    fn mobjs(&self) -> (r: &[MapObject]) {
        self.mobjs.as_slice()
    }

    fn set_mobj(&mut self, idx: usize, m: MapObject) {
        self.mobjs.set(idx, m);
    }

    fn mobj_info(&self, mobj_type: usize) -> (r: MobjInfo) {
        if mobj_type < self.infos.len() {
            self.infos[mobj_type]
        } else {
            MobjInfo {
        seestate: 0,
        meleestate: 0,
        painsound: SfxEnum::sfx_None,
        deathsound: SfxEnum::sfx_None,
        radius: Fixed(0),
        spawnstate: 0,
        missilestate: 0,
        seesound: SfxEnum::sfx_None,
        attacksound: SfxEnum::sfx_None,
        activesound: SfxEnum::sfx_None,
        speed: 0,
        mass: 0,
    }
        }
    }

    fn point_to_angle2(&self, x1: Fixed, y1: Fixed, x2: Fixed, y2: Fixed) -> (r: Angle) {
        self.toward
    }

    fn gamemode(&self) -> (r: GameMode) {
        self.mode
    }

    fn gameepisode(&self) -> (r: i32) {
        self.episode
    }

    fn fast_monsters(&self) -> (r: bool) {
        self.fast
    }

    fn netgame(&self) -> (r: bool) {
        self.netgame
    }

    fn floatok(&self) -> (r: bool) {
        self.floatok
    }

    fn spechit(&self) -> (r: Vec<usize>) {
        self.spechit.clone()
    }

    fn sound_target(&self, subsector: usize) -> (r: Option<usize>) {
        self.soundtarget
    }

    fn gamemap(&self) -> (r: i32) {
        self.map
    }

    fn fine_sine(&self, i: usize) -> (r: Fixed) {
        self.sine
    }

    fn gametic(&self) -> (r: i32) {
        self.gametic
    }

    fn sector_sound(&self, idx: usize) -> (r: SectorSound) {
        self.sounds[idx]
    }

    fn lines(&self) -> (r: &[LineDef]) {
        self.lines.as_slice()
    }

    fn subsector_sector(&self, subsector: usize) -> (r: usize) {
        if subsector < self.subsector_sectors.len() { self.subsector_sectors[subsector] } else { 0 }
    }

    fn mark_sector(&mut self, idx: usize, validcount: i32, traversed: i32, target: Option<usize>) {
        let s = SectorSound { validcount, soundtraversed: traversed, soundtarget: target, ..self.sounds[idx] };
        self.sounds.set(idx, s);
    }

    fn p_spawn_puff(&mut self, x: Fixed, y: Fixed, z: Fixed) {
        self.log.push(EnemyEvent::SpawnPuff { x, y, z });
    }

    fn s_start_sound(&mut self, origin: Option<usize>, sfx: SfxEnum) {
        self.log.push(EnemyEvent::Sound { origin, sfx });
    }

    fn p_random(&mut self) -> (r: u8) {
        self.rng.p_random()
    }

    fn p_check_sight(&mut self, t1: usize, t2: usize) -> (r: bool) {
        self.sight
    }

    fn p_aim_line_attack(&mut self, source: usize, angle: Angle, range: Fixed) -> (r: (Fixed, Option<usize>)) {
        (self.aim_slope, None)
    }

    fn p_line_attack(&mut self, source: usize, angle: Angle, range: Fixed, slope: Fixed, damage: i32) {
        self.log.push(EnemyEvent::LineAttack { source, angle, range, slope, damage });
    }

    fn p_radius_attack(&mut self, spot: usize, source: usize, damage: i32) {
        self.log.push(EnemyEvent::RadiusAttack { spot, source, damage });
    }

    fn p_damage_mobj(&mut self, target: usize, inflictor: Option<usize>, source: Option<usize>, damage: i32) {
        self.log.push(EnemyEvent::Damage { victim: target, inflictor, by: source, damage });
    }

    fn p_set_mobj_state(&mut self, mobj: usize, state: usize) -> (r: bool) {
        self.log.push(EnemyEvent::SetState { mobj, state });
        true
    }

    fn p_spawn_missile(&mut self, source: usize, dest: usize, mtype: usize) -> (r: usize) {
        let angle = self.mobjs[source].angle;
        self.log.push(EnemyEvent::SpawnMissile { source, dest, mtype, angle });
        let m = MapObject { type_: mtype, target: Some(source), angle, ..self.mobjs[source] };
        self.mobjs.push(m);
        self.mobjs.len() - 1
    }

    fn p_spawn_mobj(&mut self, x: Fixed, y: Fixed, z: Fixed, mtype: usize) -> (r: usize) {
        self.log.push(EnemyEvent::SpawnMobj { x, y, z, mtype });
        let m = if self.mobjs.len() > 0 {
            MapObject { x, y, z, type_: mtype, target: None, tracer: None, ..self.mobjs[0] }
        } else {
            MapObject {
                x,
                y,
                z,
                snext: None,
                sprev: None,
                angle: Angle(0),
                sprite: 0,
                frame: 0,
                bnext: None,
                bprev: None,
                subsector: None,
                floorz: Fixed(0),
                ceilingz: Fixed(0),
                radius: Fixed(0),
                height: Fixed(0),
                momx: Fixed(0),
                momy: Fixed(0),
                momz: Fixed(0),
                validcount: 0,
                type_: mtype,
                tics: 0,
                state: None,
                flags: 0,
                health: 0,
                movedir: 0,
                movecount: 0,
                target: None,
                reactiontime: 0,
                threshold: 0,
                player: None,
                lastlook: 0,
                tracer: None,
            }
        };
        self.mobjs.push(m);
        self.mobjs.len() - 1
    }

    fn collect_mobj_thinker_indices(&self) -> (r: Vec<usize>) {
        let mut out: Vec<usize> = Vec::new();
        let mut i: usize = 0;
        while i < self.thinkers.len()
            invariant
                0 <= i <= self.thinkers@.len(),
                out@ == valid_thinkers(self.thinkers@.subrange(0, i as int), self.mobjs@.len()),
            decreases self.thinkers@.len() - i,
        {
            assert(self.thinkers@.subrange(0, i as int) =~= self.thinkers@.subrange(0, i as int + 1).drop_last());
            if self.thinkers[i] < self.mobjs.len() {
                out.push(self.thinkers[i]);
            }
            i = i + 1;
        }
        assert(self.thinkers@.subrange(0, i as int) =~= self.thinkers@);
        proof {
            lemma_valid_thinkers_bounded(self.thinkers@, self.mobjs@.len());
        }
        out
    }

    fn ev_do_door_by_tag(&mut self, tag: i16, door_type: VldoorType) -> (r: bool) {
        self.log.push(EnemyEvent::DoorByTag { tag, door_type });
        true
    }

    fn ev_do_floor_by_tag(&mut self, tag: i16, floor_type: FloorType) -> (r: bool) {
        self.log.push(EnemyEvent::FloorByTag { tag, floor_type });
        true
    }

    fn g_exit_level(&mut self) {
        self.log.push(EnemyEvent::ExitLevel);
    }

    fn p_teleport_move(&mut self, mobj: usize, x: Fixed, y: Fixed) -> (r: bool) {
        self.log.push(EnemyEvent::TeleportMove { mobj, x, y });
        true
    }

    fn p_remove_mobj(&mut self, mobj: usize) {
        self.log.push(EnemyEvent::RemoveMobj { mobj });
    }

    fn p_try_move(&mut self, mobj: usize, x: Fixed, y: Fixed) -> (r: bool) {
        let moved = !self.blocked && mobj < self.mobjs.len();
        self.log.push(EnemyEvent::TryMove { mobj, x, y, moved });
        if moved {
            let m = MapObject { x, y, ..self.mobjs[mobj] };
            self.mobjs.set(mobj, m);
        }
        moved
    }

    fn p_use_special_line(&mut self, mobj: usize, line: usize, side: i32) -> (r: bool) {
        let used = self.lines_work;
        self.log.push(EnemyEvent::UseLine { mobj, line, used });
        used
    }

    fn p_look_for_players(&mut self, mobj: usize, allaround: bool) -> (r: bool) {
        let found = self.finds_player;
        self.log.push(EnemyEvent::LookForPlayers { mobj, allaround, found });
        found
    }
}

/// A mover registered with a [`SectorLevel`].
#[derive(Clone, Copy, Debug, PartialEq, Eq, Structural)]
pub enum Mover {
    Ceiling(CeilingT),
    Door(VldoorT),
    Floor(FloorMoveT),
    Plat(PlatT),
}

/// A level for the sector specials: its map data, the players behind the
/// things and their keys, the random stream, and what was asked for. A
/// registered mover is appended to `movers` and its index is the handle
/// stored in its sector; sounds, messages and reactivations are recorded.
pub struct SectorLevel {
    pub sectors: Vec<Sector>,
    pub lines: Vec<LineDef>,
    pub sides: Vec<SideDef>,
    pub mobj_players: Vec<Option<usize>>,
    pub player_cards: Vec<[bool; 6]>,
    pub rng: DoomRandom,
    pub movers: Vec<Mover>,
    pub sounds: Vec<(Option<usize>, SfxEnum)>,
    pub messages: Vec<(usize, String)>,
    pub activated_ceilings: Vec<i32>,
    pub activated_plats: Vec<i32>,
    pub log: Ghost<Seq<SpecEvent>>,
}

impl SectorLevel {
    /// A level with the given data, no movers, the random stream at its
    /// start and nothing requested.
    pub fn new(
        sectors: Vec<Sector>,
        lines: Vec<LineDef>,
        sides: Vec<SideDef>,
        mobj_players: Vec<Option<usize>>,
        player_cards: Vec<[bool; 6]>,
    ) -> (r: SectorLevel)
        ensures
            r.sectors@ == sectors@,
            r.lines@ == lines@,
            r.sides@ == sides@,
            r.mobj_players@ == mobj_players@,
            r.player_cards@ == player_cards@,
            r.rng.prndindex == 0,
            r.movers@.len() == 0,
            r.sounds@.len() == 0,
            r.messages@.len() == 0,
            r.log@.len() == 0,
    {
        SectorLevel {
            sectors,
            lines,
            sides,
            mobj_players,
            player_cards,
            rng: DoomRandom::new(),
            movers: Vec::new(),
            sounds: Vec::new(),
            messages: Vec::new(),
            activated_ceilings: Vec::new(),
            activated_plats: Vec::new(),
            log: Ghost(Seq::empty()),
        }
    }

    /// Occupy sector `sec` with mover `m`.
    fn register(&mut self, sec: usize, m: Mover)
        requires
            sec < old(self).sectors@.len(),
        ensures
            final(self).movers@ == old(self).movers@.push(m),
            final(self).sectors@ == old(self).sectors@.update(
                sec as int,
                Sector { specialdata: Some(old(self).movers@.len() as usize), ..old(self).sectors@[sec as int] },
            ),
            final(self).lines@ == old(self).lines@,
            final(self).sides@ == old(self).sides@,
            final(self).mobj_players@ == old(self).mobj_players@,
            final(self).player_cards@ == old(self).player_cards@,
            final(self).rng == old(self).rng,
            final(self).log == old(self).log,
    {
        let h = self.movers.len();
        self.movers.push(m);
        self.sectors[sec].specialdata = Some(h);
    }
}

impl SpecContext for SectorLevel {
    open spec fn sectors_view(&self) -> Seq<Sector> {
        self.sectors@
    }

    open spec fn lines_view(&self) -> Seq<LineDef> {
        self.lines@
    }

    open spec fn sides_view(&self) -> Seq<SideDef> {
        self.sides@
    }

    open spec fn mobj_players_view(&self) -> Seq<Option<usize>> {
        self.mobj_players@
    }

    open spec fn player_cards_view(&self) -> Seq<[bool; 6]> {
        self.player_cards@
    }

    open spec fn rng_view(&self) -> DoomRandom {
        self.rng
    }

    open spec fn door_direction_view(&self, h: usize) -> Option<i32> {
        if h < self.movers@.len() {
            match self.movers@[h as int] {
                Mover::Door(d) => Some(d.direction),
                _ => None,
            }
        } else {
            None
        }
    }

    open spec fn events(&self) -> Seq<SpecEvent> {
        self.log@
    }

    fn sectors(&self) -> (r: &[Sector]) {
        self.sectors.as_slice()
    }

    fn lines(&self) -> (r: &[LineDef]) {
        self.lines.as_slice()
    }

    fn sides(&self) -> (r: &[SideDef]) {
        self.sides.as_slice()
    }

    fn mobj_player(&self, thing: usize) -> (r: Option<usize>) {
        self.mobj_players[thing]
    }

    fn player_cards(&self, player: usize) -> (r: [bool; 6]) {
        self.player_cards[player]
    }

    fn door_direction(&self, h: usize) -> (r: Option<i32>) {
        if h < self.movers.len() {
            match self.movers[h] {
                Mover::Door(d) => Some(d.direction),
                _ => None,
            }
        } else {
            None
        }
    }

    fn set_door_direction(&mut self, h: usize, direction: i32) {
        if let Mover::Door(d) = self.movers[h] {
            self.movers.set(h, Mover::Door(VldoorT { direction, ..d }));
        }
        self.log = Ghost(self.log@.push(SpecEvent::SetDoorDirection { handle: h, direction }));
    }

    fn set_sector_special(&mut self, sec: usize, special: i16) {
        self.sectors[sec].special = special;
    }

    fn set_sector_floorpic(&mut self, sec: usize, pic: i16) {
        self.sectors[sec].floorpic = pic;
    }

    fn set_line_special(&mut self, line: usize, special: i16) {
        self.lines[line].special = special;
    }

    fn set_player_message(&mut self, player: usize, text: &str) {
        self.messages.push((player, text.to_string()));
        self.log = Ghost(self.log@.push(SpecEvent::Message { player, text: text@ }));
    }

    fn s_start_sound(&mut self, origin: Option<usize>, sfx: SfxEnum) {
        self.sounds.push((origin, sfx));
        self.log = Ghost(self.log@.push(SpecEvent::Sound { origin, sfx }));
    }

    fn p_random(&mut self) -> (r: u8) {
        self.rng.p_random()
    }

    fn p_add_thinker_ceiling(&mut self, ceiling: CeilingT) {
        self.register(ceiling.sector, Mover::Ceiling(ceiling));
        self.log = Ghost(self.log@.push(SpecEvent::AddCeiling(ceiling)));
    }

    fn p_add_thinker_door(&mut self, door: VldoorT) {
        let h = self.movers.len();
        self.register(door.sector, Mover::Door(door));
        assert(self.movers@[h as int] == Mover::Door(door));
        assert(self.door_direction_view(h) == Some(door.direction));
        self.log = Ghost(self.log@.push(SpecEvent::AddDoor(door)));
    }

    fn p_add_thinker_floor(&mut self, floor: FloorMoveT) {
        self.register(floor.sector, Mover::Floor(floor));
        self.log = Ghost(self.log@.push(SpecEvent::AddFloor(floor)));
    }

    fn p_add_thinker_plat(&mut self, plat: PlatT) {
        self.register(plat.sector, Mover::Plat(plat));
        self.log = Ghost(self.log@.push(SpecEvent::AddPlat(plat)));
    }

    fn p_activate_in_stasis_ceiling(&mut self, tag: i32) {
        self.activated_ceilings.push(tag);
        self.log = Ghost(self.log@.push(SpecEvent::ActivateCeilings(tag)));
    }

    fn p_activate_in_stasis_plat(&mut self, tag: i32) {
        self.activated_plats.push(tag);
        self.log = Ghost(self.log@.push(SpecEvent::ActivatePlats(tag)));
    }
}

/// Things, players and a thing-info table, with fixed answers to the
/// table lookups (every angle asked for is `toward`, every sine `sine`);
/// every request is appended to `log`, a spawned thing is appended to
/// `mobjs` as a copy of the first thing (or a blank one) at the spot
/// asked for, the automap closes when asked, and nothing else changes.
pub struct InterLevel {
    pub mobjs: Vec<MapObject>,
    pub players: Vec<Player>,
    pub rng: DoomRandom,
    pub infos: Vec<ThingInfo>,
    pub rules: GameRules,
    pub automap: bool,
    pub toward: Angle,
    pub sine: Fixed,
    pub log: Vec<InterEvent>,
    pub seen: Ghost<Seq<(InterEvent, Seq<MapObject>, Seq<PlayerView>)>>,
}

/// The info of a thing type missing from the table: all zero.
pub open spec fn no_thing_info() -> ThingInfo {
    ThingInfo { spawnstate: 0, seestate: 0, spawnhealth: 0, painstate: 0, painchance: 0, deathstate: 0, xdeathstate: 0, mass: 0 }
}

impl InterLevel {
    /// A level with the given things, players, table and rules, the
    /// automap closed, the random stream at its start, zero angles and
    /// sines, and nothing requested.
    pub fn new(mobjs: Vec<MapObject>, players: Vec<Player>, infos: Vec<ThingInfo>, rules: GameRules) -> (r: InterLevel)
        ensures
            r.mobjs@ == mobjs@,
            r.players@ == players@,
            r.infos@ == infos@,
            r.rules == rules,
            !r.automap,
            r.rng.prndindex == 0,
            r.toward == Angle(0),
            r.sine == Fixed(0),
            r.log@.len() == 0,
    {
        InterLevel {
            mobjs,
            players,
            rng: DoomRandom::new(),
            infos,
            rules,
            automap: false,
            toward: Angle(0),
            sine: Fixed(0),
            log: Vec::new(),
            seen: Ghost(Seq::empty()),
        }
    }

    fn record(&mut self, e: InterEvent)
        ensures
            final(self).mobjs@ == old(self).mobjs@,
            final(self).players@ == old(self).players@,
            final(self).rng == old(self).rng,
            final(self).infos@ == old(self).infos@,
            final(self).rules == old(self).rules,
            final(self).automap == old(self).automap,
            final(self).toward == old(self).toward,
            final(self).sine == old(self).sine,
            final(self).log@ == old(self).log@.push(e),
            final(self).seen@ == old(self).seen@.push((e, old(self).mobjs@, player_views(old(self).players@))),
    {
        self.seen = Ghost(self.seen@.push((e, self.mobjs@, player_views(self.players@))));
        self.log.push(e);
    }
}

impl InterContext for InterLevel {
    open spec fn mobjs_view(&self) -> Seq<MapObject> {
        self.mobjs@
    }

    open spec fn players_view(&self) -> Seq<PlayerView> {
        player_views(self.players@)
    }

    open spec fn rng_view(&self) -> DoomRandom {
        self.rng
    }

    open spec fn requests(&self) -> Seq<(InterEvent, Seq<MapObject>, Seq<PlayerView>)> {
        self.seen@
    }

    open spec fn info_view(&self, mobj_type: usize) -> ThingInfo {
        if mobj_type < self.infos@.len() {
            self.infos@[mobj_type as int]
        } else {
            no_thing_info()
        }
    }

    open spec fn angle_view(&self, x1: Fixed, y1: Fixed, x2: Fixed, y2: Fixed) -> Angle {
        self.toward
    }

    open spec fn sine_view(&self, i: usize) -> Fixed {
        self.sine
    }

    open spec fn rules_view(&self) -> GameRules {
        self.rules
    }

    open spec fn automap_view(&self) -> bool {
        self.automap
    }

    fn mobjs(&self) -> (r: &[MapObject]) {
        self.mobjs.as_slice()
    }

    fn players(&self) -> (r: &[Player]) {
        self.players.as_slice()
    }

    fn set_mobj(&mut self, idx: usize, m: MapObject) {
        self.mobjs.set(idx, m);
    }

    fn set_player(&mut self, idx: usize, p: Player) {
        self.players.set(idx, p);
        assert(player_views(self.players@) =~= player_views(old(self).players@).update(idx as int, p@));
    }

    fn thing_info(&self, mobj_type: usize) -> (r: ThingInfo) {
        if mobj_type < self.infos.len() {
            self.infos[mobj_type]
        } else {
            ThingInfo { spawnstate: 0, seestate: 0, spawnhealth: 0, painstate: 0, painchance: 0, deathstate: 0, xdeathstate: 0, mass: 0 }
        }
    }

    fn rules(&self) -> (r: GameRules) {
        self.rules
    }

    fn automap_active(&self) -> (r: bool) {
        self.automap
    }

    fn point_to_angle2(&self, x1: Fixed, y1: Fixed, x2: Fixed, y2: Fixed) -> (r: Angle) {
        self.toward
    }

    fn fine_sine(&self, i: usize) -> (r: Fixed) {
        self.sine
    }

    fn p_random(&mut self) -> (r: u8) {
        self.rng.p_random()
    }

    fn s_start_sound(&mut self, origin: Option<usize>, sfx: SfxEnum) {
        self.record(InterEvent::Sound { origin, sfx });
    }

    fn i_tactile(&mut self, on: i32, off: i32, total: i32) {
        self.record(InterEvent::Tactile { on, off, total });
    }

    fn am_stop(&mut self) {
        self.record(InterEvent::AutomapStop);
        self.automap = false;
    }

    fn p_drop_weapon(&mut self, player: usize) {
        self.record(InterEvent::DropWeapon { player });
    }

    fn p_remove_mobj(&mut self, mobj: usize) {
        self.record(InterEvent::RemoveMobj { mobj });
    }

    fn p_spawn_mobj(&mut self, x: Fixed, y: Fixed, z: Fixed, mtype: usize) -> (r: usize) {
        self.record(InterEvent::SpawnMobj { x, y, z, mtype });
        let m = if self.mobjs.len() > 0 {
            MapObject { x, y, z, type_: mtype, target: None, tracer: None, player: None, ..self.mobjs[0] }
        } else {
            MapObject {
                x,
                y,
                z,
                snext: None,
                sprev: None,
                angle: Angle(0),
                sprite: 0,
                frame: 0,
                bnext: None,
                bprev: None,
                subsector: None,
                floorz: Fixed(0),
                ceilingz: Fixed(0),
                radius: Fixed(0),
                height: Fixed(0),
                momx: Fixed(0),
                momy: Fixed(0),
                momz: Fixed(0),
                validcount: 0,
                type_: mtype,
                tics: 0,
                state: None,
                flags: 0,
                health: 0,
                movedir: 0,
                movecount: 0,
                target: None,
                reactiontime: 0,
                threshold: 0,
                player: None,
                lastlook: 0,
                tracer: None,
            }
        };
        self.mobjs.push(m);
        self.mobjs.len() - 1
    }

    fn p_set_mobj_state(&mut self, mobj: usize, state: usize) -> (r: bool) {
        self.record(InterEvent::SetState { mobj, state });
        true
    }
}

/// Things, players and a thing-info table for the movement code: moves
/// succeed (the thing goes where asked) unless `blocked`; every subsector
/// has ceiling flat `ceilingpic`, the sky is `sky`; every request is
/// appended to `log` and nothing else changes.
pub struct MoveLevel {
    pub mobjs: Vec<MapObject>,
    pub players: Vec<Player>,
    pub rng: DoomRandom,
    pub infos: Vec<ThingInfo>,
    pub blocked: bool,
    pub sky: i16,
    pub ceilingpic: i16,
    pub log: Vec<MobjEvent>,
    pub seen: Ghost<Seq<(MobjEvent, Seq<MapObject>, Seq<PlayerView>)>>,
}

impl MoveLevel {
    /// A level with the given things, players and table, open to moves,
    /// a sky of 1 over ceilings of 0, the random stream at its start and
    /// nothing requested.
    pub fn new(mobjs: Vec<MapObject>, players: Vec<Player>, infos: Vec<ThingInfo>) -> (r: MoveLevel)
        ensures
            r.mobjs@ == mobjs@,
            r.players@ == players@,
            r.infos@ == infos@,
            !r.blocked,
            r.sky == 1,
            r.ceilingpic == 0,
            r.rng.prndindex == 0,
            r.log@.len() == 0,
    {
        MoveLevel {
            mobjs,
            players,
            rng: DoomRandom::new(),
            infos,
            blocked: false,
            sky: 1,
            ceilingpic: 0,
            log: Vec::new(),
            seen: Ghost(Seq::empty()),
        }
    }

    fn record(&mut self, e: MobjEvent)
        ensures
            final(self).mobjs@ == old(self).mobjs@,
            final(self).players@ == old(self).players@,
            final(self).rng == old(self).rng,
            final(self).infos@ == old(self).infos@,
            final(self).blocked == old(self).blocked,
            final(self).sky == old(self).sky,
            final(self).ceilingpic == old(self).ceilingpic,
            final(self).log@ == old(self).log@.push(e),
            final(self).seen@ == old(self).seen@.push((e, old(self).mobjs@, player_views(old(self).players@))),
    {
        self.seen = Ghost(self.seen@.push((e, self.mobjs@, player_views(self.players@))));
        self.log.push(e);
    }
}

impl MobjContext for MoveLevel {
    open spec fn mobjs_view(&self) -> Seq<MapObject> {
        self.mobjs@
    }

    open spec fn players_view(&self) -> Seq<PlayerView> {
        player_views(self.players@)
    }

    open spec fn rng_view(&self) -> DoomRandom {
        self.rng
    }

    open spec fn requests(&self) -> Seq<(MobjEvent, Seq<MapObject>, Seq<PlayerView>)> {
        self.seen@
    }

    open spec fn info_view(&self, mobj_type: usize) -> ThingInfo {
        if mobj_type < self.infos@.len() {
            self.infos@[mobj_type as int]
        } else {
            no_thing_info()
        }
    }

    open spec fn sky_view(&self) -> i16 {
        self.sky
    }

    open spec fn ceilingpic_view(&self, subsector: usize) -> i16 {
        self.ceilingpic
    }

    fn mobjs(&self) -> (r: &[MapObject]) {
        self.mobjs.as_slice()
    }

    fn players(&self) -> (r: &[Player]) {
        self.players.as_slice()
    }

    fn set_mobj(&mut self, idx: usize, m: MapObject) {
        self.mobjs.set(idx, m);
    }

    fn set_player(&mut self, idx: usize, p: Player) {
        self.players.set(idx, p);
        assert(player_views(self.players@) =~= player_views(old(self).players@).update(idx as int, p@));
    }

    fn thing_info(&self, mobj_type: usize) -> (r: ThingInfo) {
        if mobj_type < self.infos.len() {
            self.infos[mobj_type]
        } else {
            ThingInfo { spawnstate: 0, seestate: 0, spawnhealth: 0, painstate: 0, painchance: 0, deathstate: 0, xdeathstate: 0, mass: 0 }
        }
    }

    fn sky_flatnum(&self) -> (r: i16) {
        self.sky
    }

    fn sector_ceilingpic(&self, subsector: usize) -> (r: i16) {
        self.ceilingpic
    }

    fn p_random(&mut self) -> (r: u8) {
        self.rng.p_random()
    }

    fn s_start_sound(&mut self, origin: Option<usize>, sfx: SfxEnum) {
        self.record(MobjEvent::Sound { origin, sfx });
    }

    fn p_set_mobj_state(&mut self, mobj: usize, state: usize) -> (r: bool) {
        self.record(MobjEvent::SetState { mobj, state });
        true
    }

    fn p_try_move(&mut self, mobj: usize, x: Fixed, y: Fixed) -> (r: bool) {
        let moved = !self.blocked && mobj < self.mobjs.len();
        self.record(MobjEvent::TryMove { mobj, x, y, moved });
        if !moved {
            return false;
        }
        let m = MapObject { x, y, ..self.mobjs[mobj] };
        self.mobjs.set(mobj, m);
        assert(players_linked(old(self).mobjs@, player_views(old(self).players@)) ==> players_linked(self.mobjs@, player_views(self.players@))) by {
            if players_linked(old(self).mobjs@, player_views(old(self).players@)) {
                assert forall|k: int| 0 <= k < self.mobjs@.len() implies (#[trigger] self.mobjs@[k].player matches Some(p) ==> p < player_views(self.players@).len()) by {
                    assert(self.mobjs@[k].player == old(self).mobjs@[k].player);
                }
            }
        }
        true
    }

    fn p_slide_move(&mut self, mobj: usize) {
        self.record(MobjEvent::SlideMove { mobj });
    }

    fn p_remove_mobj(&mut self, mobj: usize) {
        self.record(MobjEvent::RemoveMobj { mobj });
    }
}

/// Things, lines and vertices for the slide code: every trace finds
/// `wall` when it is nearer than the best so far; moves succeed (the
/// thing goes where asked) unless `blocked`; every angle asked for is
/// `toward` and every sine `sine`; every request is appended to `log`.
pub struct SlideLevel {
    pub mobjs: Vec<MapObject>,
    pub lines: Vec<LineDef>,
    pub vertexes: Vec<Vertex>,
    pub wall: SlideHit,
    pub blocked: bool,
    pub toward: Angle,
    pub sine: Fixed,
    pub log: Vec<SlideEvent>,
    pub seen: Ghost<Seq<(SlideEvent, Seq<MapObject>)>>,
}

impl SlideLevel {
    /// A level with the given things, lines and vertices, no wall in
    /// reach, open to moves, zero angles and sines, nothing requested.
    pub fn new(mobjs: Vec<MapObject>, lines: Vec<LineDef>, vertexes: Vec<Vertex>) -> (r: SlideLevel)
        ensures
            r.mobjs@ == mobjs@,
            r.lines@ == lines@,
            r.vertexes@ == vertexes@,
            r.wall == (SlideHit { frac: Fixed(65537), line: None }),
            !r.blocked,
            r.log@.len() == 0,
    {
        SlideLevel {
            mobjs,
            lines,
            vertexes,
            wall: SlideHit { frac: Fixed(65537), line: None },
            blocked: false,
            toward: Angle(0),
            sine: Fixed(0),
            log: Vec::new(),
            seen: Ghost(Seq::empty()),
        }
    }
}

impl SlideContext for SlideLevel {
    open spec fn mobjs_view(&self) -> Seq<MapObject> {
        self.mobjs@
    }

    open spec fn lines_view(&self) -> Seq<LineDef> {
        self.lines@
    }

    open spec fn vertexes_view(&self) -> Seq<Vertex> {
        self.vertexes@
    }

    open spec fn requests(&self) -> Seq<(SlideEvent, Seq<MapObject>)> {
        self.seen@
    }

    open spec fn angle_view(&self, x1: Fixed, y1: Fixed, x2: Fixed, y2: Fixed) -> Angle {
        self.toward
    }

    open spec fn sine_view(&self, i: usize) -> Fixed {
        self.sine
    }

    fn mobjs(&self) -> (r: &[MapObject]) {
        self.mobjs.as_slice()
    }

    fn lines(&self) -> (r: &[LineDef]) {
        self.lines.as_slice()
    }

    fn vertexes(&self) -> (r: &[Vertex]) {
        self.vertexes.as_slice()
    }

    fn set_mobj(&mut self, idx: usize, m: MapObject) {
        self.mobjs.set(idx, m);
    }

    fn point_to_angle2(&self, x1: Fixed, y1: Fixed, x2: Fixed, y2: Fixed) -> (r: Angle) {
        self.toward
    }

    fn fine_sine(&self, i: usize) -> (r: Fixed) {
        self.sine
    }

    fn slide_trace(&mut self, x1: Fixed, y1: Fixed, x2: Fixed, y2: Fixed, best: SlideHit) -> (r: SlideHit) {
        let w = self.wall;
        let found = if w.frac.0 >= 0 && w.frac.0 < best.frac.0 && (match w.line {
            Some(l) => l < self.lines.len(),
            None => false,
        }) {
            w
        } else {
            best
        };
        self.seen = Ghost(self.seen@.push((SlideEvent::Trace { x1, y1, x2, y2, best, found }, self.mobjs@)));
        self.log.push(SlideEvent::Trace { x1, y1, x2, y2, best, found });
        found
    }

    fn p_try_move(&mut self, mobj: usize, x: Fixed, y: Fixed) -> (r: bool) {
        let moved = !self.blocked && mobj < self.mobjs.len();
        self.seen = Ghost(self.seen@.push((SlideEvent::TryMove { mobj, x, y, moved }, self.mobjs@)));
        self.log.push(SlideEvent::TryMove { mobj, x, y, moved });
        if moved {
            let m = MapObject { x, y, ..self.mobjs[mobj] };
            self.mobjs.set(mobj, m);
        }
        assert forall|l: int| 0 <= l < old(self).lines@.len() implies same_shape(#[trigger] self.lines@[l], old(self).lines@[l]) by {}
        moved
    }
}


/// A level for the weapon code: things, a weapon table, fixed answers to
/// the geometric questions (every angle asked for is `toward`, every sine
/// `sine`, every aim finds `aim_slope` and `aim_target`), and a state
/// table where each state is followed by the next. Running a weapon
/// sprite only records the request and puts the sprite in that state
/// (off for state 0).
pub struct WeaponLevel {
    pub mobjs: Vec<MapObject>,
    pub weapons: Vec<WeaponInfo>,
    pub mode: GameMode,
    pub leveltime: i32,
    pub sine: Fixed,
    pub toward: Angle,
    pub aim_slope: Fixed,
    pub aim_target: Option<usize>,
    pub log: Vec<PsprEvent>,
    pub players: Vec<Player>,
    /// The state table the weapon sprites walk.
    pub states: Vec<PspState>,
}

/// The entry of a state missing from the table: no tics, no action.
pub open spec fn no_psp_state() -> PspState {
    PspState { tics: -1i32, misc1: 0, misc2: 0, action: ActionFnId::NoAction, nextstate: 0 }
}

/// The entry of a weapon missing from the table.
pub open spec fn no_weapon() -> WeaponInfo {
    WeaponInfo { ammo: AmmoType::NoAmmo, upstate: 0, downstate: 0, readystate: 0, atkstate: 0, flashstate: 0 }
}

impl WeaponLevel {
    /// A level with things `mobjs` and weapon table `weapons`, nothing
    /// requested.
    pub fn new(mobjs: Vec<MapObject>, weapons: Vec<WeaponInfo>, mode: GameMode) -> (r: WeaponLevel)
        ensures
            r.mobjs@ == mobjs@,
            r.weapons@ == weapons@,
            r.mode == mode,
            r.log@.len() == 0,
            r.players@.len() == 0,
    {
        WeaponLevel {
            mobjs,
            weapons,
            mode,
            leveltime: 0,
            sine: Fixed(0),
            toward: Angle(0),
            aim_slope: Fixed(0),
            aim_target: None,
            log: Vec::new(),
            players: Vec::new(),
            states: Vec::new(),
        }
    }
}

impl PsprContext for WeaponLevel {
    open spec fn psp_state_view(&self, s: usize) -> PspState {
        if s < self.states@.len() { self.states@[s as int] } else { no_psp_state() }
    }

    fn psp_state(&self, s: usize) -> (r: PspState) {
        if s < self.states.len() {
            self.states[s]
        } else {
            PspState { tics: -1i32, misc1: 0i32, misc2: 0i32, action: ActionFnId::NoAction, nextstate: 0usize }
        }
    }

    fn psprite_action(&mut self, player: &mut Player, position: usize, action: ActionFnId, rng: &mut DoomRandom) {
        self.log.push(PsprEvent::Action { position, action });
        self.players.push(*player);
    }

    open spec fn mobjs_view(&self) -> Seq<MapObject> {
        self.mobjs@
    }

    open spec fn events(&self) -> Seq<PsprEvent> {
        self.log@
    }

    open spec fn psprite_players(&self) -> Seq<Player> {
        self.players@
    }

    open spec fn weapon_view(&self, w: WeaponType) -> WeaponInfo {
        let i = crate::inter::weapon_slot(w);
        if 0 <= i < self.weapons@.len() { self.weapons@[i] } else { no_weapon() }
    }

    open spec fn mode_view(&self) -> GameMode {
        self.mode
    }

    open spec fn leveltime_view(&self) -> i32 {
        self.leveltime
    }

    open spec fn sine_view(&self, i: usize) -> Fixed {
        self.sine
    }

    open spec fn angle_view(&self, x1: Fixed, y1: Fixed, x2: Fixed, y2: Fixed) -> Angle {
        self.toward
    }

    open spec fn next_state_view(&self, s: usize) -> usize {
        if s < usize::MAX { (s + 1) as usize } else { 0 }
    }

    fn mobjs(&self) -> (r: &[MapObject]) {
        self.mobjs.as_slice()
    }

    fn weapon_info(&self, w: WeaponType) -> (r: WeaponInfo) {
        let i = w.slot();
        if i < self.weapons.len() {
            self.weapons[i]
        } else {
            WeaponInfo { ammo: AmmoType::NoAmmo, upstate: 0, downstate: 0, readystate: 0, atkstate: 0, flashstate: 0 }
        }
    }

    fn game_mode(&self) -> (r: GameMode) {
        self.mode
    }

    fn level_time(&self) -> (r: i32) {
        self.leveltime
    }

    fn fine_sine(&self, i: usize) -> (r: Fixed) {
        self.sine
    }

    fn point_to_angle2(&self, x1: Fixed, y1: Fixed, x2: Fixed, y2: Fixed) -> (r: Angle) {
        self.toward
    }

    fn next_state(&self, s: usize) -> (r: usize) {
        if s < usize::MAX { s + 1 } else { 0 }
    }

    fn p_set_psprite(&mut self, player: &mut Player, position: usize, state: usize, rng: &mut DoomRandom) {
        self.log.push(PsprEvent::SetPsprite { position, state });
        self.players.push(*player);
        if position < 2 {
            let d = player.psprites[position];
            let nd = PspDef { state: if state == 0 { None } else { Some(state) }, ..d };
            if position == 0 {
                player.psprites = [nd, player.psprites[1]];
            } else {
                player.psprites = [player.psprites[0], nd];
            }
        }
    }

    fn p_set_mobj_state(&mut self, mobj: usize, state: usize) -> (r: bool) {
        self.log.push(PsprEvent::SetMobjState { mobj, state });
        true
    }

    fn p_noise_alert(&mut self, target: usize, emitter: usize) {
        self.log.push(PsprEvent::NoiseAlert { target, emitter });
    }

    fn p_aim_line_attack(&mut self, source: usize, angle: Angle, range: Fixed) -> (r: (Fixed, Option<usize>)) {
        let target = match self.aim_target {
            Some(t) => if t < self.mobjs.len() { Some(t) } else { None },
            None => None,
        };
        self.log.push(PsprEvent::Aim { source, angle, range, slope: self.aim_slope, target });
        (self.aim_slope, target)
    }

    fn p_line_attack(&mut self, source: usize, angle: Angle, range: Fixed, slope: Fixed, damage: i32) {
        self.log.push(PsprEvent::LineAttack { source, angle, range, slope, damage });
    }

    fn p_spawn_player_missile(&mut self, source: usize, mtype: usize) {
        self.log.push(PsprEvent::SpawnPlayerMissile { source, mtype });
    }

    fn p_spawn_mobj(&mut self, x: Fixed, y: Fixed, z: Fixed, mtype: usize) -> (r: usize) {
        self.log.push(PsprEvent::SpawnMobj { x, y, z, mtype });
        self.mobjs.len()
    }

    fn p_damage_mobj(&mut self, target: usize, inflictor: Option<usize>, source: Option<usize>, damage: i32) {
        self.log.push(PsprEvent::Damage { victim: target, inflictor, by: source, damage });
    }

    fn s_start_sound(&mut self, origin: Option<usize>, sfx: SfxEnum) {
        self.log.push(PsprEvent::Sound { origin, sfx });
    }

    fn set_mobj(&mut self, idx: usize, m: MapObject) {
        self.mobjs.set(idx, m);
    }
}


/// A level for position checks: the map, with every spot in subsector
/// `subsector`; the blockmap cell (0, 0) lists things `cell_things` and
/// lines `cell_lines`, other cells nothing; every thing type has impact
/// damage `damage` and spawn state `spawnstate`; requests are recorded.
/// The entries of `s` below `n`, in order.
pub open spec fn kept_below(s: Seq<usize>, n: int) -> Seq<usize>
    decreases s.len(),
{
    if s.len() == 0 {
        Seq::empty()
    } else {
        let p = kept_below(s.drop_last(), n);
        if s.last() < n {
            p.push(s.last())
        } else {
            p
        }
    }
}

/// The lines `ls` after the entries of `cells` were walked in check `vc`:
/// each existing line not yet marked with `vc` is marked and listed.
pub open spec fn marked_lines(cells: Seq<usize>, ls: Seq<LineDef>, vc: i32) -> (Seq<LineDef>, Seq<usize>)
    decreases cells.len(),
{
    if cells.len() == 0 {
        (ls, Seq::empty())
    } else {
        let p = marked_lines(cells.drop_last(), ls, vc);
        let li = cells.last();
        if li < p.0.len() && p.0[li as int].validcount != vc {
            (p.0.update(li as int, LineDef { validcount: vc, ..p.0[li as int] }), p.1.push(li))
        } else {
            p
        }
    }
}

proof fn lemma_marked_lines_len(cells: Seq<usize>, ls: Seq<LineDef>, vc: i32)
    ensures
        marked_lines(cells, ls, vc).0.len() == ls.len(),
    decreases cells.len(),
{
    if cells.len() > 0 {
        lemma_marked_lines_len(cells.drop_last(), ls, vc);
    }
}

pub struct PositionLevel {
    pub mobjs: Vec<MapObject>,
    pub lines: Vec<LineDef>,
    pub vertexes: Vec<Vertex>,
    pub sectors: Vec<Sector>,
    pub subsectors: Vec<Subsector>,
    pub subsector: usize,
    pub validcount: i32,
    pub orgx: Fixed,
    pub orgy: Fixed,
    pub damage: i32,
    pub spawnstate: usize,
    pub map: i32,
    pub cell_things: Vec<usize>,
    pub cell_lines: Vec<usize>,
    pub rng: DoomRandom,
    pub log: Vec<MoveEvent>,
}

impl MovementContext for PositionLevel {
    open spec fn mobjs_view(&self) -> Seq<MapObject> {
        self.mobjs@
    }

    open spec fn lines_view(&self) -> Seq<LineDef> {
        self.lines@
    }

    open spec fn vertexes_view(&self) -> Seq<Vertex> {
        self.vertexes@
    }

    open spec fn sectors_view(&self) -> Seq<Sector> {
        self.sectors@
    }

    open spec fn subsectors_view(&self) -> Seq<Subsector> {
        self.subsectors@
    }

    open spec fn subsector_at(&self, x: Fixed, y: Fixed) -> usize {
        self.subsector
    }

    open spec fn validcount_view(&self) -> i32 {
        self.validcount
    }

    open spec fn orgx_view(&self) -> Fixed {
        self.orgx
    }

    open spec fn orgy_view(&self) -> Fixed {
        self.orgy
    }

    open spec fn damage_view(&self, t: usize) -> i32 {
        self.damage
    }

    open spec fn spawnstate_view(&self, t: usize) -> usize {
        self.spawnstate
    }

    open spec fn map_view(&self) -> i32 {
        self.map
    }

    open spec fn rng_view(&self) -> DoomRandom {
        self.rng
    }

    open spec fn events(&self) -> Seq<MoveEvent> {
        self.log@
    }

    fn mobjs(&self) -> (r: &[MapObject]) {
        self.mobjs.as_slice()
    }

    fn lines(&self) -> (r: &[LineDef]) {
        self.lines.as_slice()
    }

    fn vertexes(&self) -> (r: &[Vertex]) {
        self.vertexes.as_slice()
    }

    fn sectors(&self) -> (r: &[Sector]) {
        self.sectors.as_slice()
    }

    fn subsectors(&self) -> (r: &[Subsector]) {
        self.subsectors.as_slice()
    }

    fn point_in_subsector(&self, x: Fixed, y: Fixed) -> (r: usize) {
        self.subsector
    }

    fn bmap_orgx(&self) -> (r: Fixed) {
        self.orgx
    }

    fn bmap_orgy(&self) -> (r: Fixed) {
        self.orgy
    }

    fn info_damage(&self, t: usize) -> (r: i32) {
        self.damage
    }

    fn info_spawnstate(&self, t: usize) -> (r: usize) {
        self.spawnstate
    }

    fn gamemap(&self) -> (r: i32) {
        self.map
    }

    fn block_things(&self, bx: i32, by: i32) -> (r: Vec<usize>)
        ensures
            bx == 0 && by == 0 ==> r@ == kept_below(self.cell_things@, self.mobjs@.len() as int),
            !(bx == 0 && by == 0) ==> r@.len() == 0,
    {
        let mut out: Vec<usize> = Vec::new();
        if bx == 0 && by == 0 {
            let mut i: usize = 0;
            while i < self.cell_things.len()
                invariant
                    0 <= i <= self.cell_things@.len(),
                    forall|k: int| 0 <= k < out@.len() ==> #[trigger] out@[k] < self.mobjs@.len(),
                    out@ == kept_below(self.cell_things@.subrange(0, i as int), self.mobjs@.len() as int),
                decreases self.cell_things@.len() - i,
            {
                let t = self.cell_things[i];
                proof {
                    let s1 = self.cell_things@.subrange(0, i + 1);
                    assert(s1.drop_last() =~= self.cell_things@.subrange(0, i as int));
                    assert(s1.last() == t);
                }
                if t < self.mobjs.len() {
                    out.push(t);
                }
                i = i + 1;
            }
            proof {
                assert(self.cell_things@.subrange(0, i as int) =~= self.cell_things@);
            }
        }
        out
    }

    fn block_lines(&mut self, bx: i32, by: i32, vc: i32) -> (r: Vec<usize>)
        ensures
            bx == 0 && by == 0 ==> (final(self).lines@, r@) == marked_lines(old(self).cell_lines@, old(self).lines@, vc),
            !(bx == 0 && by == 0) ==> r@.len() == 0 && final(self).lines@ == old(self).lines@,
            final(self).cell_lines@ == old(self).cell_lines@,
    {
        let mut out: Vec<usize> = Vec::new();
        if bx == 0 && by == 0 {
            let mut i: usize = 0;
            while i < self.cell_lines.len()
                invariant
                    0 <= i <= self.cell_lines@.len(),
                    self.cell_lines@ == old(self).cell_lines@,
                    (self.lines@, out@) == marked_lines(self.cell_lines@.subrange(0, i as int), old(self).lines@, vc),
                    forall|k: int| 0 <= k < out@.len() ==> #[trigger] out@[k] < self.lines@.len(),
                    self.vertexes@ == old(self).vertexes@,
                    self.subsectors@ == old(self).subsectors@,
                    self.subsector == old(self).subsector,
                    self.orgx == old(self).orgx,
                    self.orgy == old(self).orgy,
                    self.damage == old(self).damage,
                    self.spawnstate == old(self).spawnstate,
                    self.map == old(self).map,
                    self.mobjs@ == old(self).mobjs@,
                    self.rng == old(self).rng,
                    self.log@ == old(self).log@,
                decreases self.cell_lines@.len() - i,
            {
                let li = self.cell_lines[i];
                proof {
                    let s1 = self.cell_lines@.subrange(0, i + 1);
                    assert(s1.drop_last() =~= self.cell_lines@.subrange(0, i as int));
                    assert(s1.last() == li);
                    lemma_marked_lines_len(self.cell_lines@.subrange(0, i as int), old(self).lines@, vc);
                }
                if li < self.lines.len() && self.lines[li].validcount != vc {
                    let ld = LineDef { validcount: vc, ..self.lines[li] };
                    self.lines.set(li, ld);
                    out.push(li);
                }
                i = i + 1;
            }
            proof {
                assert(self.cell_lines@.subrange(0, i as int) =~= self.cell_lines@);
            }
        }
        out
    }

    fn inc_validcount(&mut self) -> (r: i32) {
        self.validcount = self.validcount.wrapping_add(1);
        self.validcount
    }

    fn p_random(&mut self) -> (r: u8) {
        self.rng.p_random()
    }

    fn set_mobj(&mut self, idx: usize, m: MapObject) {
        self.mobjs.set(idx, m);
    }

    fn p_damage_mobj(&mut self, target: usize, inflictor: Option<usize>, source: Option<usize>, damage: i32) {
        self.log.push(MoveEvent::Damage { victim: target, inflictor, by: source, damage });
    }

    fn p_touch_special_thing(&mut self, special: usize, toucher: usize) {
        self.log.push(MoveEvent::TouchSpecial { special, toucher });
    }

    fn p_set_mobj_state(&mut self, mobj: usize, state: usize) -> (r: bool) {
        self.log.push(MoveEvent::SetState { mobj, state });
        true
    }

    fn p_cross_special_line(&mut self, line: usize, side: i32, thing: usize) {
        self.log.push(MoveEvent::CrossLine { line, side, thing });
    }

    fn unset_thing_position(&mut self, thing: usize) {
        self.log.push(MoveEvent::Unlink { thing });
    }

    fn set_thing_position(&mut self, thing: usize) {
        self.log.push(MoveEvent::Link { thing });
    }
}

/// The intercepts of `ics` that name a line below `nl` or a thing below
/// `nm`, in order.
pub open spec fn valid_intercepts(ics: Seq<Intercept>, nl: int, nm: int) -> Seq<Intercept>
    decreases ics.len(),
{
    if ics.len() == 0 {
        Seq::empty()
    } else {
        let rest = valid_intercepts(ics.drop_last(), nl, nm);
        if intercept_ok(ics.last(), nl, nm) { rest.push(ics.last()) } else { rest }
    }
}

proof fn lemma_valid_intercepts(ics: Seq<Intercept>, nl: int, nm: int)
    ensures
        forall|i: int| 0 <= i < valid_intercepts(ics, nl, nm).len() ==> intercept_ok(#[trigger] valid_intercepts(ics, nl, nm)[i], nl, nm),
    decreases ics.len(),
{
    if ics.len() > 0 {
        lemma_valid_intercepts(ics.drop_last(), nl, nm);
        let rest = valid_intercepts(ics.drop_last(), nl, nm);
        assert forall|i: int| 0 <= i < valid_intercepts(ics, nl, nm).len() implies intercept_ok(#[trigger] valid_intercepts(ics, nl, nm)[i], nl, nm) by {
            if i < rest.len() {
                assert(valid_intercepts(ics, nl, nm)[i] == rest[i]);
            }
        }
    }
}

/// A level for the hitscan, use and crushing code: every trace crosses
/// `path` (as far as it names lines and things that exist), blockmap cell
/// `(0, 0)` holds `cell` (the things in it that exist) and the others
/// nothing, sight is `sight`, a thing fits after a height change unless
/// `squashed` lists it, and spawned things are appended; every request is
/// appended to `log`.
pub struct HitLevel {
    pub mobjs: Vec<MapObject>,
    pub lines: Vec<LineDef>,
    pub sectors: Vec<Sector>,
    pub vertexes: Vec<Vertex>,
    pub skyflatnum: i16,
    pub leveltime: i32,
    pub rng: DoomRandom,
    pub sight: bool,
    pub sine: Vec<Fixed>,
    pub path: Vec<Intercept>,
    pub cell: Vec<usize>,
    pub orgx: Fixed,
    pub orgy: Fixed,
    pub width: i32,
    pub height: i32,
    pub players: Vec<Option<usize>>,
    pub squashed: Vec<usize>,
    pub log: Vec<MapEvent>,
}

/// A thing of type `mtype` at `(x, y, z)`, all else zero or empty.
fn bare_mobj(x: Fixed, y: Fixed, z: Fixed, mtype: usize) -> (r: MapObject)
    ensures
        r == (MapObject { x, y, z, type_: mtype, ..crate::spawn::blank_mobj() }),
{
    MapObject {
        x,
        y,
        z,
        snext: None,
        sprev: None,
        angle: Angle(0),
        sprite: 0,
        frame: 0,
        bnext: None,
        bprev: None,
        subsector: None,
        floorz: Fixed(0),
        ceilingz: Fixed(0),
        radius: Fixed(0),
        height: Fixed(0),
        momx: Fixed(0),
        momy: Fixed(0),
        momz: Fixed(0),
        validcount: 0,
        type_: mtype,
        tics: 0,
        state: None,
        flags: 0,
        health: 0,
        movedir: 0,
        movecount: 0,
        target: None,
        reactiontime: 0,
        threshold: 0,
        player: None,
        lastlook: 0,
        tracer: None,
    }
}

impl MapContext for HitLevel {
    open spec fn mobjs_view(&self) -> Seq<MapObject> {
        self.mobjs@
    }

    open spec fn lines_view(&self) -> Seq<LineDef> {
        self.lines@
    }

    open spec fn sectors_view(&self) -> Seq<Sector> {
        self.sectors@
    }

    open spec fn vertexes_view(&self) -> Seq<Vertex> {
        self.vertexes@
    }

    open spec fn sky_view(&self) -> i16 {
        self.skyflatnum
    }

    open spec fn leveltime_view(&self) -> i32 {
        self.leveltime
    }

    open spec fn rng_view(&self) -> DoomRandom {
        self.rng
    }

    open spec fn events(&self) -> Seq<MapEvent> {
        self.log@
    }

    open spec fn sight_view(&self, t1: usize, t2: usize) -> bool {
        self.sight
    }

    open spec fn sine_view(&self, i: usize) -> Fixed {
        if i < self.sine@.len() { self.sine@[i as int] } else { Fixed(0) }
    }

    open spec fn path_view(&self, x1: Fixed, y1: Fixed, x2: Fixed, y2: Fixed, flags: i32) -> Seq<Intercept> {
        valid_intercepts(self.path@, self.lines@.len() as int, self.mobjs@.len() as int)
    }

    open spec fn cell_view(&self, bx: i32, by: i32) -> Seq<usize> {
        if bx == 0 && by == 0 { valid_thinkers(self.cell@, self.mobjs@.len()) } else { Seq::empty() }
    }

    open spec fn orgx_view(&self) -> Fixed {
        self.orgx
    }

    open spec fn orgy_view(&self) -> Fixed {
        self.orgy
    }

    open spec fn width_view(&self) -> i32 {
        self.width
    }

    open spec fn height_view(&self) -> i32 {
        self.height
    }

    open spec fn players_view(&self) -> Seq<Option<usize>> {
        self.players@
    }

    fn mobjs(&self) -> (r: &[MapObject]) {
        self.mobjs.as_slice()
    }

    fn lines(&self) -> (r: &[LineDef]) {
        self.lines.as_slice()
    }

    fn sectors(&self) -> (r: &[Sector]) {
        self.sectors.as_slice()
    }

    fn vertexes(&self) -> (r: &[Vertex]) {
        self.vertexes.as_slice()
    }

    fn sky_flatnum(&self) -> (r: i16) {
        self.skyflatnum
    }

    fn leveltime(&self) -> (r: i32) {
        self.leveltime
    }

    fn bmap_orgx(&self) -> (r: Fixed) {
        self.orgx
    }

    fn bmap_orgy(&self) -> (r: Fixed) {
        self.orgy
    }

    fn bmap_width(&self) -> (r: i32) {
        self.width
    }

    fn bmap_height(&self) -> (r: i32) {
        self.height
    }

    fn fine_sine(&self, i: usize) -> (r: Fixed) {
        if i < self.sine.len() { self.sine[i] } else { Fixed(0) }
    }

    fn player_mobj(&self, p: usize) -> (r: Option<usize>) {
        self.players[p]
    }

    fn path_intercepts(&self, x1: Fixed, y1: Fixed, x2: Fixed, y2: Fixed, flags: i32) -> (r: Vec<Intercept>) {
        let ghost nl = self.lines@.len() as int;
        let ghost nm = self.mobjs@.len() as int;
        let mut out: Vec<Intercept> = Vec::new();
        let mut i: usize = 0;
        while i < self.path.len()
            invariant
                0 <= i <= self.path@.len(),
                nl == self.lines@.len(),
                nm == self.mobjs@.len(),
                out@ == valid_intercepts(self.path@.subrange(0, i as int), nl, nm),
            decreases self.path@.len() - i,
        {
            assert(self.path@.subrange(0, i as int) =~= self.path@.subrange(0, i as int + 1).drop_last());
            let ic = self.path[i];
            let ok = match ic.d {
                crate::maputl::InterceptData::Line(l) => l < self.lines.len(),
                crate::maputl::InterceptData::Thing(t) => t < self.mobjs.len(),
            };
            if ok {
                out.push(ic);
            }
            i = i + 1;
        }
        proof {
            assert(self.path@.subrange(0, self.path@.len() as int) =~= self.path@);
            lemma_valid_intercepts(self.path@, nl, nm);
        }
        out
    }

    fn cell_things(&self, bx: i32, by: i32) -> (r: Vec<usize>) {
        let mut out: Vec<usize> = Vec::new();
        if bx == 0 && by == 0 {
            let mut i: usize = 0;
            while i < self.cell.len()
                invariant
                    0 <= i <= self.cell@.len(),
                    out@ == valid_thinkers(self.cell@.subrange(0, i as int), self.mobjs@.len()),
                decreases self.cell@.len() - i,
            {
                assert(self.cell@.subrange(0, i as int) =~= self.cell@.subrange(0, i as int + 1).drop_last());
                if self.cell[i] < self.mobjs.len() {
                    out.push(self.cell[i]);
                }
                i = i + 1;
            }
            proof {
                assert(self.cell@.subrange(0, self.cell@.len() as int) =~= self.cell@);
                lemma_valid_thinkers_bounded(self.cell@, self.mobjs@.len());
            }
        }
        out
    }

    fn set_mobj(&mut self, idx: usize, m: MapObject) {
        self.mobjs.set(idx, m);
    }

    fn p_random(&mut self) -> (r: u8) {
        self.rng.p_random()
    }

    fn p_check_sight(&mut self, t1: usize, t2: usize) -> (r: bool) {
        self.sight
    }

    fn p_spawn_puff(&mut self, x: Fixed, y: Fixed, z: Fixed, at_melee: bool) {
        self.log.push(MapEvent::SpawnPuff { x, y, z, at_melee });
        self.mobjs.push(bare_mobj(x, y, z, 37));
    }

    fn p_spawn_blood(&mut self, x: Fixed, y: Fixed, z: Fixed, damage: i32) {
        self.log.push(MapEvent::SpawnBlood { x, y, z, damage });
        self.mobjs.push(bare_mobj(x, y, z, 38));
    }

    fn p_spawn_mobj(&mut self, x: Fixed, y: Fixed, z: Fixed, mtype: usize) -> (r: usize) {
        self.log.push(MapEvent::SpawnMobj { x, y, z, mtype });
        self.mobjs.push(bare_mobj(x, y, z, mtype));
        self.mobjs.len() - 1
    }

    fn p_damage_mobj(&mut self, target: usize, inflictor: Option<usize>, source: Option<usize>, damage: i32) {
        self.log.push(MapEvent::Damage { target, inflictor, source, damage });
    }

    fn p_set_mobj_state(&mut self, mobj: usize, state: usize) -> (r: bool) {
        self.log.push(MapEvent::SetState { mobj, state });
        if mobj < self.mobjs.len() {
            let m = self.mobjs[mobj];
            self.mobjs.set(mobj, MapObject { state: Some(state), ..m });
        }
        true
    }

    fn p_remove_mobj(&mut self, mobj: usize) {
        self.log.push(MapEvent::RemoveMobj { mobj });
    }

    fn p_thing_height_clip(&mut self, thing: usize) -> (r: bool) {
        let mut fits = true;
        let mut i: usize = 0;
        while i < self.squashed.len()
            decreases self.squashed@.len() - i,
        {
            if self.squashed[i] == thing {
                fits = false;
            }
            i = i + 1;
        }
        self.log.push(MapEvent::HeightClip { thing, fits });
        fits
    }

    fn p_shoot_special_line(&mut self, thing: usize, line: usize) {
        self.log.push(MapEvent::ShootSpecial { thing, line });
    }

    fn p_use_special_line(&mut self, thing: usize, line: usize, side: i32) {
        self.log.push(MapEvent::UseSpecial { thing, line, side });
    }

    fn s_start_sound(&mut self, origin: Option<usize>, sfx: SfxEnum) {
        self.log.push(MapEvent::Sound { origin, sfx });
    }
}

/// The info of a thing type missing from the table: no number, no state,
/// no size.
pub open spec fn no_spawn_info() -> SpawnInfo {
    SpawnInfo {
        doomednum: -1i32,
        spawnstate: 0,
        spawnhealth: 0,
        seesound: SfxEnum::sfx_None,
        reactiontime: 0,
        speed: 0,
        radius: 0,
        height: 0,
        flags: 0,
    }
}

/// A state missing from the table: the null state, lasting forever.
pub open spec fn no_state() -> State {
    State { sprite: 0, frame: 0, tics: -1i32, action: ActionFnId::NoAction, nextstate: 0 }
}

/// A level for spawning: every point lies in subsector `subsector`, every
/// offset's angle is `toward`, the engine's moves and position checks
/// answer `moves` and `fits`, aiming finds `aim`; state actions, rebirth,
/// weapon setup and movement are only recorded. Things missing from
/// `thinkers` or `spawnpoints` have no thinker and were placed nowhere.
pub struct SpawnLevel {
    pub mobjs: Vec<MapObject>,
    pub heads: Vec<Option<usize>>,
    pub floors: Vec<Fixed>,
    pub ceilings: Vec<Fixed>,
    pub subsectors: Vec<usize>,
    pub subsector: usize,
    pub links: Vec<Option<usize>>,
    pub orgx: Fixed,
    pub orgy: Fixed,
    pub width: i32,
    pub height: i32,
    pub players: Vec<Player>,
    pub ingame: Vec<bool>,
    pub game: GameSettings,
    pub starts: Vec<Option<MapThing>>,
    pub dm_starts: Vec<MapThing>,
    pub que: Vec<(MapThing, i32)>,
    pub que_head: usize,
    pub que_tail: usize,
    pub spawnpoints: Vec<MapThing>,
    pub thinkers: Vec<ActionFn>,
    pub infos: Vec<SpawnInfo>,
    pub states: Vec<State>,
    pub sine: Vec<Fixed>,
    pub toward: Angle,
    pub moves: bool,
    pub fits: bool,
    pub aim: (Fixed, Option<usize>),
    pub rng: DoomRandom,
    pub log: Vec<SpawnEvent>,
}

impl SpawnLevel {
    fn set_thinker(&mut self, i: usize, f: ActionFn)
        ensures
            forall|k: usize| k != i ==> (if k < final(self).thinkers@.len() { final(self).thinkers@[k as int] } else { ActionFn::NoAction })
                == (if k < old(self).thinkers@.len() { old(self).thinkers@[k as int] } else { ActionFn::NoAction }),
            i < final(self).thinkers@.len(),
            final(self).thinkers@[i as int] == f,
            final(self).mobjs == old(self).mobjs,
            final(self).heads == old(self).heads,
            final(self).links == old(self).links,
            final(self).players == old(self).players,
            final(self).starts == old(self).starts,
            final(self).dm_starts == old(self).dm_starts,
            final(self).que == old(self).que,
            final(self).que_head == old(self).que_head,
            final(self).que_tail == old(self).que_tail,
            final(self).spawnpoints == old(self).spawnpoints,
            final(self).rng == old(self).rng,
            final(self).log == old(self).log,
            final(self).infos == old(self).infos,
            final(self).states == old(self).states,
            final(self).subsector == old(self).subsector,
            final(self).subsectors == old(self).subsectors,
            final(self).floors == old(self).floors,
            final(self).ceilings == old(self).ceilings,
            final(self).orgx == old(self).orgx,
            final(self).orgy == old(self).orgy,
            final(self).width == old(self).width,
            final(self).height == old(self).height,
            final(self).ingame == old(self).ingame,
            final(self).game == old(self).game,
            final(self).sine == old(self).sine,
            final(self).toward == old(self).toward,
    {
        while self.thinkers.len() <= i
            invariant
                old(self).thinkers@.len() <= self.thinkers@.len(),
                forall|k: int| 0 <= k < old(self).thinkers@.len() ==> self.thinkers@[k] == old(self).thinkers@[k],
                forall|k: int| old(self).thinkers@.len() <= k < self.thinkers@.len() ==> self.thinkers@[k] == ActionFn::NoAction,
                self.mobjs == old(self).mobjs,
                self.heads == old(self).heads,
                self.links == old(self).links,
                self.players == old(self).players,
                self.starts == old(self).starts,
                self.dm_starts == old(self).dm_starts,
                self.que == old(self).que,
                self.que_head == old(self).que_head,
                self.que_tail == old(self).que_tail,
                self.spawnpoints == old(self).spawnpoints,
                self.rng == old(self).rng,
                self.log == old(self).log,
                self.infos == old(self).infos,
                self.states == old(self).states,
                self.subsector == old(self).subsector,
                self.subsectors == old(self).subsectors,
                self.floors == old(self).floors,
                self.ceilings == old(self).ceilings,
                self.orgx == old(self).orgx,
                self.orgy == old(self).orgy,
                self.width == old(self).width,
                self.height == old(self).height,
                self.ingame == old(self).ingame,
                self.game == old(self).game,
                self.sine == old(self).sine,
                self.toward == old(self).toward,
            decreases i + 1 - self.thinkers@.len(),
        {
            self.thinkers.push(ActionFn::NoAction);
        }
        self.thinkers.set(i, f);
    }
}

impl SpawnContext for SpawnLevel {
    open spec fn mobjs_view(&self) -> Seq<MapObject> {
        self.mobjs@
    }

    open spec fn heads_view(&self) -> Seq<Option<usize>> {
        self.heads@
    }

    open spec fn floors_view(&self) -> Seq<Fixed> {
        self.floors@
    }

    open spec fn ceilings_view(&self) -> Seq<Fixed> {
        self.ceilings@
    }

    open spec fn subsectors_view(&self) -> Seq<usize> {
        self.subsectors@
    }

    open spec fn subsector_at(&self, x: Fixed, y: Fixed) -> usize {
        self.subsector
    }

    open spec fn links_view(&self) -> Seq<Option<usize>> {
        self.links@
    }

    open spec fn orgx_view(&self) -> Fixed {
        self.orgx
    }

    open spec fn orgy_view(&self) -> Fixed {
        self.orgy
    }

    open spec fn width_view(&self) -> i32 {
        self.width
    }

    open spec fn height_view(&self) -> i32 {
        self.height
    }

    open spec fn players_view(&self) -> Seq<Player> {
        self.players@
    }

    open spec fn ingame_view(&self) -> Seq<bool> {
        self.ingame@
    }

    open spec fn game_view(&self) -> GameSettings {
        self.game
    }

    open spec fn starts_view(&self) -> Seq<Option<MapThing>> {
        self.starts@
    }

    open spec fn dm_starts_view(&self) -> Seq<MapThing> {
        self.dm_starts@
    }

    open spec fn que_view(&self) -> Seq<(MapThing, i32)> {
        self.que@
    }

    open spec fn que_head_view(&self) -> usize {
        self.que_head
    }

    open spec fn que_tail_view(&self) -> usize {
        self.que_tail
    }

    open spec fn spawnpoint_view(&self, i: usize) -> MapThing {
        if i < self.spawnpoints@.len() {
            self.spawnpoints@[i as int]
        } else {
            MapThing { x: 0, y: 0, angle: 0, type_: 0, options: 0 }
        }
    }

    open spec fn thinker_view(&self, i: usize) -> ActionFn {
        if i < self.thinkers@.len() { self.thinkers@[i as int] } else { ActionFn::NoAction }
    }

    open spec fn info_view(&self, mobj_type: usize) -> SpawnInfo {
        if mobj_type < self.infos@.len() { self.infos@[mobj_type as int] } else { no_spawn_info() }
    }

    open spec fn state_view(&self, st: usize) -> State {
        if st < self.states@.len() { self.states@[st as int] } else { no_state() }
    }

    open spec fn sine_view(&self, i: usize) -> Fixed {
        if i < self.sine@.len() { self.sine@[i as int] } else { Fixed(0) }
    }

    open spec fn angle_view(&self, dx: Fixed, dy: Fixed) -> Angle {
        self.toward
    }

    open spec fn rng_view(&self) -> DoomRandom {
        self.rng
    }

    open spec fn requests(&self) -> Seq<SpawnEvent> {
        self.log@
    }

    fn mobjs(&self) -> (r: &[MapObject]) {
        self.mobjs.as_slice()
    }

    fn players(&self) -> (r: &[Player]) {
        self.players.as_slice()
    }

    fn sector_head(&self, sec: usize) -> (r: Option<usize>) {
        self.heads[sec]
    }

    fn sector_floor(&self, sec: usize) -> (r: Fixed) {
        self.floors[sec]
    }

    fn sector_ceiling(&self, sec: usize) -> (r: Fixed) {
        self.ceilings[sec]
    }

    fn subsector_sector(&self, ss: usize) -> (r: usize) {
        self.subsectors[ss]
    }

    fn subsector_count(&self) -> (r: usize) {
        self.subsectors.len()
    }

    fn point_in_subsector(&self, x: Fixed, y: Fixed) -> (r: usize) {
        self.subsector
    }

    fn blocklink(&self, cell: usize) -> (r: Option<usize>) {
        self.links[cell]
    }

    fn bmap_orgx(&self) -> (r: Fixed) {
        self.orgx
    }

    fn bmap_orgy(&self) -> (r: Fixed) {
        self.orgy
    }

    fn bmap_width(&self) -> (r: i32) {
        self.width
    }

    fn bmap_height(&self) -> (r: i32) {
        self.height
    }

    fn in_game(&self, p: usize) -> (r: bool) {
        self.ingame[p]
    }

    fn game(&self) -> (r: GameSettings) {
        self.game
    }

    fn dm_start_count(&self) -> (r: usize) {
        self.dm_starts.len()
    }

    fn que_entry(&self, i: usize) -> (r: (MapThing, i32)) {
        self.que[i]
    }

    fn que_head(&self) -> (r: usize) {
        self.que_head
    }

    fn que_tail(&self) -> (r: usize) {
        self.que_tail
    }

    fn spawnpoint(&self, i: usize) -> (r: MapThing) {
        if i < self.spawnpoints.len() {
            self.spawnpoints[i]
        } else {
            MapThing { x: 0, y: 0, angle: 0, type_: 0, options: 0 }
        }
    }

    fn thinker(&self, i: usize) -> (r: ActionFn) {
        if i < self.thinkers.len() { self.thinkers[i] } else { ActionFn::NoAction }
    }

    fn thing_info(&self, mobj_type: usize) -> (r: SpawnInfo) {
        if mobj_type < self.infos.len() {
            self.infos[mobj_type]
        } else {
            SpawnInfo {
                doomednum: -1,
                spawnstate: 0,
                spawnhealth: 0,
                seesound: SfxEnum::sfx_None,
                reactiontime: 0,
                speed: 0,
                radius: 0,
                height: 0,
                flags: 0,
            }
        }
    }

    fn state(&self, st: usize) -> (r: State) {
        if st < self.states.len() {
            self.states[st]
        } else {
            State { sprite: 0, frame: 0, tics: -1, action: ActionFnId::NoAction, nextstate: 0 }
        }
    }

    fn fine_sine(&self, i: usize) -> (r: Fixed) {
        if i < self.sine.len() { self.sine[i] } else { Fixed(0) }
    }

    fn point_to_angle(&self, dx: Fixed, dy: Fixed) -> (r: Angle) {
        self.toward
    }

    fn alloc_mobj(&mut self) -> (r: usize) {
        self.mobjs.push(bare_mobj(Fixed(0), Fixed(0), Fixed(0), 0));
        self.mobjs.len() - 1
    }

    fn set_mobj(&mut self, idx: usize, m: MapObject) {
        self.mobjs.set(idx, m);
    }

    fn set_sector_head(&mut self, sec: usize, head: Option<usize>) {
        self.heads.set(sec, head);
    }

    fn set_blocklink(&mut self, cell: usize, head: Option<usize>) {
        self.links.set(cell, head);
    }

    fn set_player(&mut self, idx: usize, p: Player) {
        self.players.set(idx, p);
    }

    fn set_player_start(&mut self, n: usize, mt: MapThing) {
        self.starts.set(n, Some(mt));
    }

    fn push_dm_start(&mut self, mt: MapThing) {
        self.dm_starts.push(mt);
    }

    fn set_que(&mut self, i: usize, mt: MapThing, time: i32) {
        self.que.set(i, (mt, time));
    }

    fn set_que_head(&mut self, v: usize) {
        self.que_head = v;
    }

    fn set_que_tail(&mut self, v: usize) {
        self.que_tail = v;
    }

    fn p_random(&mut self) -> (r: u8) {
        self.rng.p_random()
    }

    fn p_add_thinker(&mut self, mobj: usize) {
        self.log.push(SpawnEvent::AddThinker { mobj });
        self.set_thinker(mobj, ActionFn::MobjThinker);
    }

    fn p_remove_thinker(&mut self, mobj: usize) {
        self.log.push(SpawnEvent::RemoveThinker { mobj });
        self.set_thinker(mobj, ActionFn::PendingRemoval);
    }

    fn s_start_sound(&mut self, origin: Option<usize>, sfx: SfxEnum) {
        self.log.push(SpawnEvent::Sound { origin, sfx });
    }

    fn s_stop_sound(&mut self, origin: usize) {
        self.log.push(SpawnEvent::StopSound { origin });
    }

    fn st_start(&mut self) {
        self.log.push(SpawnEvent::StatusBarStart);
    }

    fn hu_start(&mut self) {
        self.log.push(SpawnEvent::HudStart);
    }

    fn add_total_kills(&mut self) {
        self.log.push(SpawnEvent::TotalKill);
    }

    fn add_total_items(&mut self) {
        self.log.push(SpawnEvent::TotalItem);
    }

    fn p_aim_line_attack(&mut self, source: usize, angle: Angle, range: Fixed) -> (r: (Fixed, Option<usize>)) {
        let r = self.aim;
        self.log.push(SpawnEvent::Aim { source, angle, slope: r.0, target: r.1 });
        r
    }

    fn p_check_position(&mut self, mobj: usize, x: Fixed, y: Fixed) -> (r: bool) {
        let fits = self.fits;
        self.log.push(SpawnEvent::CheckPosition { mobj, x, y, fits });
        fits
    }

    fn p_try_move(&mut self, mobj: usize, x: Fixed, y: Fixed) -> (r: bool) {
        let moved = self.moves;
        self.log.push(SpawnEvent::TryMove { mobj, x, y, moved });
        moved
    }

    fn p_explode_missile(&mut self, mobj: usize) {
        self.log.push(SpawnEvent::Explode { mobj });
    }

    fn run_action(&mut self, mobj: usize, action: ActionFnId) {
        self.log.push(SpawnEvent::Action { mobj, action });
    }

    fn p_xy_movement(&mut self, mobj: usize) {
        self.log.push(SpawnEvent::XYMovement { mobj });
    }

    fn p_z_movement(&mut self, mobj: usize) {
        self.log.push(SpawnEvent::ZMovement { mobj });
    }

    fn g_player_reborn(&mut self, player: usize) {
        self.log.push(SpawnEvent::Reborn { player });
    }

    fn p_setup_psprites(&mut self, player: usize) {
        self.log.push(SpawnEvent::SetupPsprites { player });
    }
}

} // verus!
