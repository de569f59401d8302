//! The player's weapon: raising and lowering it, choosing another when
//! ammunition runs out, firing, and the attacks of each weapon.

use vstd::prelude::*;
use crate::enemy::{MELEERANGE, MISSILERANGE, MT_ROCKET, S_NULL};
use crate::fixed::{fixed_mul_spec, Fixed, FRACUNIT};
use crate::inter::{ammo_slot, weapon_slot, AmmoType, Player, PlayerState, PowerType, PspDef, WeaponType};
use crate::mobj::{ActionFnId, S_PLAY};
use crate::enemy::GameMode;
use crate::random::{advanced_by, DoomRandom};
use crate::types::{Angle, MapObject, SfxEnum, MF_JUSTATTACKED};

verus! {

/// The weapon sprite and the muzzle-flash sprite.
pub const PS_WEAPON: usize = 0;
pub const PS_FLASH: usize = 1;

/// How fast a weapon drops out of and rises into view, per tic.
pub const LOWERSPEED: i32 = 393216;
pub const RAISESPEED: i32 = 393216;
/// The weapon's offset when out of view, and when ready.
pub const WEAPONBOTTOM: i32 = 8388608;
pub const WEAPONTOP: i32 = 2097152;
/// Cells a BFG shot takes.
pub const BFGCELLS: i32 = 40;
/// The fire button.
pub const BT_ATTACK: u8 = 1;
/// The number of states in the state table.
pub const NUMSTATES: usize = 967;

/// States of the player's body and of the chainsaw and chaingun sprites.
pub const S_PLAY_ATK1: usize = 154;
pub const S_PLAY_ATK2: usize = 155;
pub const S_SAW: usize = 67;
pub const S_CHAIN1: usize = 52;

/// Thing types the weapons spawn.
pub const MT_PLASMA: usize = 34;
pub const MT_BFG: usize = 35;
pub const MT_EXTRABFG: usize = 42;

/// What the weapon code reads from a weapon's entry in the weapon table:
/// the ammunition it uses and its states.
#[derive(Clone, Copy, Debug, PartialEq, Eq, Structural)]
pub struct WeaponInfo {
    pub ammo: AmmoType,
    pub upstate: usize,
    pub downstate: usize,
    pub readystate: usize,
    pub atkstate: usize,
    pub flashstate: usize,
}

/// What the weapon-sprite state walk reads from a state-table entry: its
/// tics, its two misc values (a sprite offset when the first is not 0), its
/// action and the state after it.
#[derive(Clone, Copy, Debug, PartialEq, Eq, Structural)]
pub struct PspState {
    pub tics: i32,
    pub misc1: i32,
    pub misc2: i32,
    pub action: ActionFnId,
    pub nextstate: usize,
}

/// A request the weapon code made of the engine, in the order made.
#[derive(Clone, Copy, Debug, PartialEq, Eq, Structural)]
pub enum PsprEvent {
    /// The weapon action `action` of sprite `position` was run.
    Action { position: usize, action: ActionFnId },
    /// Weapon sprite `position` of the player was set to `state`.
    SetPsprite { position: usize, state: usize },
    SetMobjState { mobj: usize, state: usize },
    NoiseAlert { target: usize, emitter: usize },
    /// An aim along `angle`, and what it found.
    Aim { source: usize, angle: Angle, range: Fixed, slope: Fixed, target: Option<usize> },
    LineAttack { source: usize, angle: Angle, range: Fixed, slope: Fixed, damage: i32 },
    SpawnPlayerMissile { source: usize, mtype: usize },
    SpawnMobj { x: Fixed, y: Fixed, z: Fixed, mtype: usize },
    Damage { victim: usize, inflictor: Option<usize>, by: Option<usize>, damage: i32 },
    Sound { origin: Option<usize>, sfx: SfxEnum },
}

/// The engine services the weapon code uses: the things, the weapon and
/// state tables, the fine sine table, the level time, and the requests it
/// carries out. The weapon actions ask the engine to set a weapon sprite
/// (which walks the state table as [`p_set_psprite`] does); the engine
/// runs the weapon action a state names.
pub trait PsprContext: Sized {
    spec fn mobjs_view(&self) -> Seq<MapObject>;
    /// Everything requested so far, in order.
    spec fn events(&self) -> Seq<PsprEvent>;
    /// The player as it was at each weapon sprite request, in order.
    spec fn psprite_players(&self) -> Seq<Player>;
    spec fn weapon_view(&self, w: WeaponType) -> WeaponInfo;
    spec fn mode_view(&self) -> GameMode;
    spec fn leveltime_view(&self) -> i32;
    spec fn sine_view(&self, i: usize) -> Fixed;
    spec fn angle_view(&self, x1: Fixed, y1: Fixed, x2: Fixed, y2: Fixed) -> Angle;
    /// The state following state `s` in the state table.
    spec fn next_state_view(&self, s: usize) -> usize;
    /// The state-table entry of state `s`.
    spec fn psp_state_view(&self, s: usize) -> PspState;

    fn mobjs(&self) -> (r: &[MapObject])
        ensures
            r@ == self.mobjs_view(),
    ;

    fn weapon_info(&self, w: WeaponType) -> (r: WeaponInfo)
        ensures
            r == self.weapon_view(w),
    ;

    fn game_mode(&self) -> (r: GameMode)
        ensures
            r == self.mode_view(),
    ;

    fn level_time(&self) -> (r: i32)
        ensures
            r == self.leveltime_view(),
    ;

    fn fine_sine(&self, i: usize) -> (r: Fixed)
        requires
            i < 10240,
        ensures
            r == self.sine_view(i),
    ;

    fn point_to_angle2(&self, x1: Fixed, y1: Fixed, x2: Fixed, y2: Fixed) -> (r: Angle)
        ensures
            r == self.angle_view(x1, y1, x2, y2),
    ;

    fn next_state(&self, s: usize) -> (r: usize)
        ensures
            r == self.next_state_view(s),
    ;

    /// The state-table entry of state `s`.
    fn psp_state(&self, s: usize) -> (r: PspState)
        ensures
            r == self.psp_state_view(s),
    ;

    /// Run weapon action `action` for sprite `position` of the player (the
    /// actions' dispatch is the engine's); the table stays as it is.
    fn psprite_action(&mut self, player: &mut Player, position: usize, action: ActionFnId, rng: &mut DoomRandom)
        ensures
            forall|s: usize| #[trigger] final(self).psp_state_view(s) == old(self).psp_state_view(s),
            final(self).events() == old(self).events().push(PsprEvent::Action { position, action }),
            final(self).psprite_players() == old(self).psprite_players().push(*old(player)),
    ;

    /// `P_SetPsprite`: the state table runs weapon sprite `position` of
    /// the player from `state` on, calling the weapon actions of the states
    /// it passes; the player stays the same thing.
    fn p_set_psprite(&mut self, player: &mut Player, position: usize, state: usize, rng: &mut DoomRandom)
        ensures
            forall|w: WeaponType| #[trigger] final(self).weapon_view(w) == old(self).weapon_view(w),
            final(self).mode_view() == old(self).mode_view(),
            final(self).leveltime_view() == old(self).leveltime_view(),
            forall|i: usize| #[trigger] final(self).sine_view(i) == old(self).sine_view(i),
            forall|a: Fixed, b: Fixed, c: Fixed, d: Fixed| #[trigger] final(self).angle_view(a, b, c, d) == old(self).angle_view(a, b, c, d),
            forall|s: usize| #[trigger] final(self).next_state_view(s) == old(self).next_state_view(s),
            final(self).mobjs_view().len() >= old(self).mobjs_view().len(),
            final(player).mobj == old(player).mobj,
            final(self).events() == old(self).events().push(PsprEvent::SetPsprite { position, state }),
            final(self).psprite_players() == old(self).psprite_players().push(*old(player)),
    ;

    /// `P_SetMobjState`.
    fn p_set_mobj_state(&mut self, mobj: usize, state: usize) -> (r: bool)
        ensures
            forall|w: WeaponType| #[trigger] final(self).weapon_view(w) == old(self).weapon_view(w),
            final(self).mode_view() == old(self).mode_view(),
            final(self).leveltime_view() == old(self).leveltime_view(),
            forall|i: usize| #[trigger] final(self).sine_view(i) == old(self).sine_view(i),
            forall|a: Fixed, b: Fixed, c: Fixed, d: Fixed| #[trigger] final(self).angle_view(a, b, c, d) == old(self).angle_view(a, b, c, d),
            forall|s: usize| #[trigger] final(self).next_state_view(s) == old(self).next_state_view(s),
            final(self).mobjs_view().len() >= old(self).mobjs_view().len(),
            final(self).psprite_players() == old(self).psprite_players(),
            final(self).events() == old(self).events().push(PsprEvent::SetMobjState { mobj, state }),
    ;

    /// `P_NoiseAlert`.
    fn p_noise_alert(&mut self, target: usize, emitter: usize)
        ensures
            forall|w: WeaponType| #[trigger] final(self).weapon_view(w) == old(self).weapon_view(w),
            final(self).mode_view() == old(self).mode_view(),
            final(self).leveltime_view() == old(self).leveltime_view(),
            forall|i: usize| #[trigger] final(self).sine_view(i) == old(self).sine_view(i),
            forall|a: Fixed, b: Fixed, c: Fixed, d: Fixed| #[trigger] final(self).angle_view(a, b, c, d) == old(self).angle_view(a, b, c, d),
            forall|s: usize| #[trigger] final(self).next_state_view(s) == old(self).next_state_view(s),
            final(self).mobjs_view().len() >= old(self).mobjs_view().len(),
            final(self).psprite_players() == old(self).psprite_players(),
            final(self).events() == old(self).events().push(PsprEvent::NoiseAlert { target, emitter }),
    ;

    /// `P_AimLineAttack`: the slope to shoot at and the thing aimed at, if any.
    fn p_aim_line_attack(&mut self, source: usize, angle: Angle, range: Fixed) -> (r: (Fixed, Option<usize>))
        ensures
            forall|w: WeaponType| #[trigger] final(self).weapon_view(w) == old(self).weapon_view(w),
            final(self).mode_view() == old(self).mode_view(),
            final(self).leveltime_view() == old(self).leveltime_view(),
            forall|i: usize| #[trigger] final(self).sine_view(i) == old(self).sine_view(i),
            forall|a: Fixed, b: Fixed, c: Fixed, d: Fixed| #[trigger] final(self).angle_view(a, b, c, d) == old(self).angle_view(a, b, c, d),
            forall|s: usize| #[trigger] final(self).next_state_view(s) == old(self).next_state_view(s),
            final(self).mobjs_view().len() >= old(self).mobjs_view().len(),
            final(self).psprite_players() == old(self).psprite_players(),
            final(self).mobjs_view() == old(self).mobjs_view(),
            final(self).events() == old(self).events().push(PsprEvent::Aim { source, angle, range, slope: r.0, target: r.1 }),
            r.1 matches Some(t) ==> t < final(self).mobjs_view().len(),
    ;

    /// `P_LineAttack`.
    fn p_line_attack(&mut self, source: usize, angle: Angle, range: Fixed, slope: Fixed, damage: i32)
        ensures
            forall|w: WeaponType| #[trigger] final(self).weapon_view(w) == old(self).weapon_view(w),
            final(self).mode_view() == old(self).mode_view(),
            final(self).leveltime_view() == old(self).leveltime_view(),
            forall|i: usize| #[trigger] final(self).sine_view(i) == old(self).sine_view(i),
            forall|a: Fixed, b: Fixed, c: Fixed, d: Fixed| #[trigger] final(self).angle_view(a, b, c, d) == old(self).angle_view(a, b, c, d),
            forall|s: usize| #[trigger] final(self).next_state_view(s) == old(self).next_state_view(s),
            final(self).mobjs_view().len() >= old(self).mobjs_view().len(),
            final(self).psprite_players() == old(self).psprite_players(),
            final(self).events() == old(self).events().push(PsprEvent::LineAttack { source, angle, range, slope, damage }),
    ;

    /// `P_SpawnPlayerMissile`.
    fn p_spawn_player_missile(&mut self, source: usize, mtype: usize)
        ensures
            forall|w: WeaponType| #[trigger] final(self).weapon_view(w) == old(self).weapon_view(w),
            final(self).mode_view() == old(self).mode_view(),
            final(self).leveltime_view() == old(self).leveltime_view(),
            forall|i: usize| #[trigger] final(self).sine_view(i) == old(self).sine_view(i),
            forall|a: Fixed, b: Fixed, c: Fixed, d: Fixed| #[trigger] final(self).angle_view(a, b, c, d) == old(self).angle_view(a, b, c, d),
            forall|s: usize| #[trigger] final(self).next_state_view(s) == old(self).next_state_view(s),
            final(self).mobjs_view().len() >= old(self).mobjs_view().len(),
            final(self).psprite_players() == old(self).psprite_players(),
            final(self).events() == old(self).events().push(PsprEvent::SpawnPlayerMissile { source, mtype }),
    ;

    /// `P_SpawnMobj`.
    fn p_spawn_mobj(&mut self, x: Fixed, y: Fixed, z: Fixed, mtype: usize) -> (r: usize)
        ensures
            forall|w: WeaponType| #[trigger] final(self).weapon_view(w) == old(self).weapon_view(w),
            final(self).mode_view() == old(self).mode_view(),
            final(self).leveltime_view() == old(self).leveltime_view(),
            forall|i: usize| #[trigger] final(self).sine_view(i) == old(self).sine_view(i),
            forall|a: Fixed, b: Fixed, c: Fixed, d: Fixed| #[trigger] final(self).angle_view(a, b, c, d) == old(self).angle_view(a, b, c, d),
            forall|s: usize| #[trigger] final(self).next_state_view(s) == old(self).next_state_view(s),
            final(self).mobjs_view().len() >= old(self).mobjs_view().len(),
            final(self).psprite_players() == old(self).psprite_players(),
            final(self).events() == old(self).events().push(PsprEvent::SpawnMobj { x, y, z, mtype }),
    ;

    /// `P_DamageMobj`.
    fn p_damage_mobj(&mut self, target: usize, inflictor: Option<usize>, source: Option<usize>, damage: i32)
        ensures
            forall|w: WeaponType| #[trigger] final(self).weapon_view(w) == old(self).weapon_view(w),
            final(self).mode_view() == old(self).mode_view(),
            final(self).leveltime_view() == old(self).leveltime_view(),
            forall|i: usize| #[trigger] final(self).sine_view(i) == old(self).sine_view(i),
            forall|a: Fixed, b: Fixed, c: Fixed, d: Fixed| #[trigger] final(self).angle_view(a, b, c, d) == old(self).angle_view(a, b, c, d),
            forall|s: usize| #[trigger] final(self).next_state_view(s) == old(self).next_state_view(s),
            final(self).mobjs_view().len() >= old(self).mobjs_view().len(),
            final(self).psprite_players() == old(self).psprite_players(),
            final(self).events() == old(self).events().push(PsprEvent::Damage { victim: target, inflictor, by: source, damage }),
    ;

    /// `S_StartSound`.
    fn s_start_sound(&mut self, origin: Option<usize>, sfx: SfxEnum)
        ensures
            forall|w: WeaponType| #[trigger] final(self).weapon_view(w) == old(self).weapon_view(w),
            final(self).mode_view() == old(self).mode_view(),
            final(self).leveltime_view() == old(self).leveltime_view(),
            forall|i: usize| #[trigger] final(self).sine_view(i) == old(self).sine_view(i),
            forall|a: Fixed, b: Fixed, c: Fixed, d: Fixed| #[trigger] final(self).angle_view(a, b, c, d) == old(self).angle_view(a, b, c, d),
            forall|s: usize| #[trigger] final(self).next_state_view(s) == old(self).next_state_view(s),
            final(self).mobjs_view().len() >= old(self).mobjs_view().len(),
            final(self).psprite_players() == old(self).psprite_players(),
            final(self).mobjs_view() == old(self).mobjs_view(),
            final(self).events() == old(self).events().push(PsprEvent::Sound { origin, sfx }),
    ;

    /// Replace thing `idx` by `m`.
    fn set_mobj(&mut self, idx: usize, m: MapObject)
        requires
            idx < old(self).mobjs_view().len(),
        ensures
            forall|w: WeaponType| #[trigger] final(self).weapon_view(w) == old(self).weapon_view(w),
            final(self).mode_view() == old(self).mode_view(),
            final(self).leveltime_view() == old(self).leveltime_view(),
            forall|i: usize| #[trigger] final(self).sine_view(i) == old(self).sine_view(i),
            forall|a: Fixed, b: Fixed, c: Fixed, d: Fixed| #[trigger] final(self).angle_view(a, b, c, d) == old(self).angle_view(a, b, c, d),
            forall|s: usize| #[trigger] final(self).next_state_view(s) == old(self).next_state_view(s),
            final(self).psprite_players() == old(self).psprite_players(),
            final(self).mobjs_view() == old(self).mobjs_view().update(idx as int, m),
            final(self).events() == old(self).events(),
    ;

}

/// The engine's tables and the level time are unchanged.
pub open spec fn same_tables<C: PsprContext>(pre: C, post: C) -> bool {
    &&& forall|w: WeaponType| #[trigger] post.weapon_view(w) == pre.weapon_view(w)
    &&& post.mode_view() == pre.mode_view()
    &&& post.leveltime_view() == pre.leveltime_view()
    &&& forall|i: usize| #[trigger] post.sine_view(i) == pre.sine_view(i)
    &&& forall|a: Fixed, b: Fixed, c: Fixed, d: Fixed| #[trigger] post.angle_view(a, b, c, d) == pre.angle_view(a, b, c, d)
    &&& forall|s: usize| #[trigger] post.next_state_view(s) == pre.next_state_view(s)
}


/// Player `q` is player `p` with weapon sprite `i` (0 or 1) replaced by
/// `d`.
pub open spec fn with_psp(q: Player, p: Player, i: int, d: PspDef) -> bool {
    &&& q == Player { psprites: q.psprites, ..p }
    &&& q.psprites[i] == d
    &&& q.psprites[1 - i] == p.psprites[1 - i]
}

/// `p` with weapon sprite `i` replaced by `d`.
fn set_psp(p: &mut Player, i: usize, d: PspDef)
    requires
        i < 2,
    ensures
        with_psp(*final(p), *old(p), i as int, d),
{
    if i == 0 {
        p.psprites = [d, p.psprites[1]];
    } else {
        p.psprites = [p.psprites[0], d];
    }
}

/// Ammunition one shot of weapon `w` needs: 40 cells for the BFG, 2
/// shells for the super shotgun, else 1.
pub open spec fn shot_cost(w: WeaponType) -> i32 {
    if w == WeaponType::Bfg {
        BFGCELLS
    } else if w == WeaponType::SuperShotgun {
        2
    } else {
        1
    }
}

/// The player has what one shot of the ready weapon needs.
pub open spec fn has_ammo<C: PsprContext>(ctx: C, p: Player) -> bool {
    let a = ctx.weapon_view(p.readyweapon).ammo;
    a == AmmoType::NoAmmo || p.ammo[ammo_slot(a)] >= shot_cost(p.readyweapon)
}

/// The weapon a player out of ammunition switches to, in order of
/// preference: plasma rifle (not in shareware), super shotgun (commercial
/// only, more than 2 shells), chaingun, shotgun, pistol (any clip),
/// chainsaw, rocket launcher, BFG (not in shareware, more than 40 cells),
/// else the fist.
pub open spec fn ammo_choice(p: Player, mode: GameMode) -> WeaponType {
    if p.weaponowned[5] && p.ammo[2] > 0 && mode != GameMode::Shareware {
        WeaponType::Plasma
    } else if p.weaponowned[8] && p.ammo[1] > 2 && mode == GameMode::Commercial {
        WeaponType::SuperShotgun
    } else if p.weaponowned[3] && p.ammo[0] > 0 {
        WeaponType::Chaingun
    } else if p.weaponowned[2] && p.ammo[1] > 0 {
        WeaponType::Shotgun
    } else if p.ammo[0] > 0 {
        WeaponType::Pistol
    } else if p.weaponowned[7] {
        WeaponType::Chainsaw
    } else if p.weaponowned[4] && p.ammo[3] > 0 {
        WeaponType::Missile
    } else if p.weaponowned[6] && p.ammo[2] > 40 && mode != GameMode::Shareware {
        WeaponType::Bfg
    } else {
        WeaponType::Fist
    }
}

/// What [`p_check_ammo`] requests of the engine: nothing with enough
/// ammunition; else the ready weapon's sprite goes to its down state,
/// the player now waiting for the weapon of [`ammo_choice`].
pub open spec fn ammo_checked<C: PsprContext>(pre: C, post: C, p: Player) -> bool {
    if has_ammo(pre, p) {
        &&& post.events() == pre.events()
        &&& post.psprite_players() == pre.psprite_players()
        &&& post.mobjs_view() == pre.mobjs_view()
    } else {
        &&& post.events() == pre.events().push(
            PsprEvent::SetPsprite { position: PS_WEAPON, state: pre.weapon_view(p.readyweapon).downstate },
        )
        &&& post.psprite_players() == pre.psprite_players().push(
            Player { pendingweapon: ammo_choice(p, pre.mode_view()), ..p },
        )
        &&& post.mobjs_view().len() >= pre.mobjs_view().len()
    }
}

/// `P_CheckAmmo`: whether the player has ammunition for a shot of the
/// ready weapon ([`has_ammo`]); when not, it starts switching to another
/// ([`ammo_checked`]).
pub fn p_check_ammo<C: PsprContext>(player: &mut Player, ctx: &mut C, rng: &mut DoomRandom) -> (r: bool)
    requires
        old(player).readyweapon != WeaponType::NoChange,
    ensures
        r == has_ammo(*old(ctx), *old(player)),
        ammo_checked(*old(ctx), *final(ctx), *old(player)),
        same_tables(*old(ctx), *final(ctx)),
        r ==> *final(player) == *old(player),
        final(player).mobj == old(player).mobj,
{
    let info = ctx.weapon_info(player.readyweapon);
    let ammo = info.ammo;
    let count: i32 = if player.readyweapon == WeaponType::Bfg {
        BFGCELLS
    } else if player.readyweapon == WeaponType::SuperShotgun {
        2
    } else {
        1
    };
    if ammo == AmmoType::NoAmmo || player.ammo[ammo.slot()] >= count {
        return true;
    }
    let mode = ctx.game_mode();
    let p = *player;
    let choice = if p.weaponowned[5] && p.ammo[2] > 0 && mode != GameMode::Shareware {
        WeaponType::Plasma
    } else if p.weaponowned[8] && p.ammo[1] > 2 && mode == GameMode::Commercial {
        WeaponType::SuperShotgun
    } else if p.weaponowned[3] && p.ammo[0] > 0 {
        WeaponType::Chaingun
    } else if p.weaponowned[2] && p.ammo[1] > 0 {
        WeaponType::Shotgun
    } else if p.ammo[0] > 0 {
        WeaponType::Pistol
    } else if p.weaponowned[7] {
        WeaponType::Chainsaw
    } else if p.weaponowned[4] && p.ammo[3] > 0 {
        WeaponType::Missile
    } else if p.weaponowned[6] && p.ammo[2] > 40 && mode != GameMode::Shareware {
        WeaponType::Bfg
    } else {
        WeaponType::Fist
    };
    player.pendingweapon = choice;
    ctx.p_set_psprite(player, PS_WEAPON, info.downstate, rng);
    false
}

/// What [`p_fire_weapon`] requests: as [`ammo_checked`] without
/// ammunition; else the player's body goes to its first attack state (when
/// the player has a body), the weapon sprite to the attack state, and
/// monsters hear the shot (with a body).
pub open spec fn weapon_fired<C: PsprContext>(pre: C, post: C, p: Player) -> bool {
    if !has_ammo(pre, p) {
        ammo_checked(pre, post, p)
    } else {
        let body = match p.mobj {
            Some(mo) => seq![PsprEvent::SetMobjState { mobj: mo, state: S_PLAY_ATK1 }],
            None => Seq::empty(),
        };
        let alert = match p.mobj {
            Some(mo) => seq![PsprEvent::NoiseAlert { target: mo, emitter: mo }],
            None => Seq::empty(),
        };
        &&& post.events() == pre.events() + body
            + seq![PsprEvent::SetPsprite { position: PS_WEAPON, state: pre.weapon_view(p.readyweapon).atkstate }] + alert
        &&& post.psprite_players() == pre.psprite_players().push(p)
        &&& post.mobjs_view().len() >= pre.mobjs_view().len()
    }
}

/// `P_FireWeapon`: with ammunition ([`p_check_ammo`]) the player fires
/// ([`weapon_fired`]).
pub fn p_fire_weapon<C: PsprContext>(player: &mut Player, ctx: &mut C, rng: &mut DoomRandom)
    requires
        old(player).readyweapon != WeaponType::NoChange,
    ensures
        weapon_fired(*old(ctx), *final(ctx), *old(player)),
        same_tables(*old(ctx), *final(ctx)),
        final(player).mobj == old(player).mobj,
{
    let ghost pre = *ctx;
    let ghost p0 = *player;
    if !p_check_ammo(player, ctx, rng) {
        return;
    }
    if let Some(mo) = player.mobj {
        ctx.p_set_mobj_state(mo, S_PLAY_ATK1);
    }
    let atk = ctx.weapon_info(player.readyweapon).atkstate;
    ctx.p_set_psprite(player, PS_WEAPON, atk, rng);
    if let Some(mo) = player.mobj {
        ctx.p_noise_alert(mo, mo);
    }
    proof {
        let atk_e = PsprEvent::SetPsprite { position: PS_WEAPON, state: atk };
        match p0.mobj {
            Some(mo) => {
                assert(ctx.events() =~= pre.events() + seq![PsprEvent::SetMobjState { mobj: mo, state: S_PLAY_ATK1 }]
                    + seq![atk_e] + seq![PsprEvent::NoiseAlert { target: mo, emitter: mo }]);
            },
            None => {
                assert(ctx.events() =~= pre.events() + Seq::<PsprEvent>::empty() + seq![atk_e] + Seq::<PsprEvent>::empty());
            },
        }
    }
}

/// The weapon a player brings up: the pending one, or the ready one when
/// none is pending.
pub open spec fn raised_weapon(p: Player) -> WeaponType {
    if p.pendingweapon == WeaponType::NoChange { p.readyweapon } else { p.pendingweapon }
}

/// What [`p_bring_up_weapon`] requests: the chainsaw's start-up sound
/// (for the chainsaw, with a body), then the weapon sprite, placed at the
/// bottom with nothing pending any more, goes to the weapon's up state.
pub open spec fn brought_up<C: PsprContext>(pre: C, post: C, p: Player) -> bool {
    let w = raised_weapon(p);
    let sound = if w == WeaponType::Chainsaw && p.mobj is Some {
        seq![PsprEvent::Sound { origin: p.mobj, sfx: SfxEnum::sfx_sawup }]
    } else {
        Seq::empty()
    };
    &&& post.events() == pre.events() + sound + seq![PsprEvent::SetPsprite { position: PS_WEAPON, state: pre.weapon_view(w).upstate }]
    &&& post.psprite_players().len() == pre.psprite_players().len() + 1
    &&& post.psprite_players().subrange(0, pre.psprite_players().len() as int) == pre.psprite_players()
    &&& with_psp(
        post.psprite_players().last(),
        Player { pendingweapon: WeaponType::NoChange, ..p },
        0,
        PspDef { sy: Fixed(WEAPONBOTTOM), ..p.psprites[0] },
    )
    &&& post.mobjs_view().len() >= pre.mobjs_view().len()
}

/// `P_BringUpWeapon`: see [`brought_up`].
pub fn p_bring_up_weapon<C: PsprContext>(player: &mut Player, ctx: &mut C, rng: &mut DoomRandom)
    requires
        raised_weapon(*old(player)) != WeaponType::NoChange,
    ensures
        brought_up(*old(ctx), *final(ctx), *old(player)),
        same_tables(*old(ctx), *final(ctx)),
        final(player).mobj == old(player).mobj,
{
    let ghost pre = *ctx;
    let ghost p0 = *player;
    if player.pendingweapon == WeaponType::NoChange {
        player.pendingweapon = player.readyweapon;
    }
    if player.pendingweapon == WeaponType::Chainsaw {
        if let Some(mo) = player.mobj {
            ctx.s_start_sound(Some(mo), SfxEnum::sfx_sawup);
        }
    }
    let newstate = ctx.weapon_info(player.pendingweapon).upstate;
    player.pendingweapon = WeaponType::NoChange;
    let d = PspDef { sy: Fixed(WEAPONBOTTOM), ..player.psprites[0] };
    set_psp(player, PS_WEAPON, d);
    let ghost snap = *player;
    ctx.p_set_psprite(player, PS_WEAPON, newstate, rng);
    proof {
        let up = PsprEvent::SetPsprite { position: PS_WEAPON, state: newstate };
        if raised_weapon(p0) == WeaponType::Chainsaw && p0.mobj is Some {
            assert(ctx.events() =~= pre.events() + seq![PsprEvent::Sound { origin: p0.mobj, sfx: SfxEnum::sfx_sawup }] + seq![up]);
        } else {
            assert(ctx.events() =~= pre.events() + Seq::<PsprEvent>::empty() + seq![up]);
        }
        assert(ctx.psprite_players().subrange(0, pre.psprite_players().len() as int) =~= pre.psprite_players());
        assert(ctx.psprite_players().last() == snap);
    }
}

/// `A_CheckReload`: [`p_check_ammo`].
pub fn a_check_reload<C: PsprContext>(player: &mut Player, psp_idx: usize, ctx: &mut C, rng: &mut DoomRandom)
    requires
        old(player).readyweapon != WeaponType::NoChange,
    ensures
        ammo_checked(*old(ctx), *final(ctx), *old(player)),
        same_tables(*old(ctx), *final(ctx)),
{
    p_check_ammo(player, ctx, rng);
}

/// `A_ReFire`: with the trigger still held, nothing pending and the
/// player alive, the player fires again ([`weapon_fired`]) one more shot
/// into the series; otherwise the series ends and the ammunition is
/// checked ([`ammo_checked`]).
pub fn a_refire<C: PsprContext>(player: &mut Player, psp_idx: usize, ctx: &mut C, rng: &mut DoomRandom)
    requires
        old(player).readyweapon != WeaponType::NoChange,
        old(player).refire < i32::MAX,
    ensures
        ({
            let p = *old(player);
            if (p.buttons & BT_ATTACK) != 0 && p.pendingweapon == WeaponType::NoChange && p.health > 0 {
                weapon_fired(*old(ctx), *final(ctx), Player { refire: (p.refire + 1) as i32, ..p })
            } else {
                ammo_checked(*old(ctx), *final(ctx), Player { refire: 0, ..p })
            }
        }),
        same_tables(*old(ctx), *final(ctx)),
{
    if (player.buttons & BT_ATTACK) != 0 && player.pendingweapon == WeaponType::NoChange && player.health > 0 {
        player.refire = player.refire + 1;
        p_fire_weapon(player, ctx, rng);
    } else {
        player.refire = 0;
        p_check_ammo(player, ctx, rng);
    }
}

/// `A_Lower`: the weapon sprite drops by [`LOWERSPEED`]. Once out of
/// view: a dead player's stays at the bottom; a dying player's weapon
/// sprite is turned off; otherwise the pending weapon becomes the ready
/// one and is brought up ([`brought_up`]).
pub fn a_lower<C: PsprContext>(player: &mut Player, psp_idx: usize, ctx: &mut C, rng: &mut DoomRandom)
    requires
        psp_idx < 2,
        ({
            let p = *old(player);
            let sy = p.psprites[psp_idx as int].sy.0.wrapping_add(LOWERSPEED);
            (sy >= WEAPONBOTTOM && p.playerstate != PlayerState::Dead && p.health > 0)
                ==> p.pendingweapon != WeaponType::NoChange
        }),
    ensures
        ({
            let p = *old(player);
            let d = p.psprites[psp_idx as int];
            let sy = d.sy.0.wrapping_add(LOWERSPEED);
            let lowered = PspDef { sy: Fixed(sy), ..d };
            if sy < WEAPONBOTTOM {
                &&& with_psp(*final(player), p, psp_idx as int, lowered)
                &&& final(ctx).events() == old(ctx).events()
            } else if p.playerstate == PlayerState::Dead {
                &&& with_psp(*final(player), p, psp_idx as int, PspDef { sy: Fixed(WEAPONBOTTOM), ..d })
                &&& final(ctx).events() == old(ctx).events()
            } else if p.health <= 0 {
                &&& final(ctx).events() == old(ctx).events().push(PsprEvent::SetPsprite { position: PS_WEAPON, state: S_NULL })
                &&& final(ctx).psprite_players().len() == old(ctx).psprite_players().len() + 1
                &&& with_psp(final(ctx).psprite_players().last(), p, psp_idx as int, lowered)
            } else {
                exists|q: Player| #[trigger] with_psp(q, p, psp_idx as int, lowered)
                    && brought_up(*old(ctx), *final(ctx), Player { readyweapon: p.pendingweapon, ..q })
            }
        }),
        same_tables(*old(ctx), *final(ctx)),
{
    let ghost pre = *ctx;
    let d = player.psprites[psp_idx];
    let sy = d.sy.0.wrapping_add(LOWERSPEED);
    set_psp(player, psp_idx, PspDef { sy: Fixed(sy), ..d });
    let ghost q = *player;
    if sy < WEAPONBOTTOM {
        return;
    }
    if player.playerstate == PlayerState::Dead {
        set_psp(player, psp_idx, PspDef { sy: Fixed(WEAPONBOTTOM), ..d });
        return;
    }
    if player.health <= 0 {
        ctx.p_set_psprite(player, PS_WEAPON, S_NULL, rng);
        return;
    }
    player.readyweapon = player.pendingweapon;
    p_bring_up_weapon(player, ctx, rng);
    assert(with_psp(q, *old(player), psp_idx as int, PspDef { sy: Fixed(sy), ..d }));
}

/// `A_Raise`: the weapon sprite rises by [`RAISESPEED`]; at the top it
/// stops there and goes to the weapon's ready state.
pub fn a_raise<C: PsprContext>(player: &mut Player, psp_idx: usize, ctx: &mut C, rng: &mut DoomRandom)
    requires
        psp_idx < 2,
        old(player).readyweapon != WeaponType::NoChange,
    ensures
        ({
            let p = *old(player);
            let d = p.psprites[psp_idx as int];
            let sy = d.sy.0.wrapping_sub(RAISESPEED);
            if sy > WEAPONTOP {
                &&& with_psp(*final(player), p, psp_idx as int, PspDef { sy: Fixed(sy), ..d })
                &&& final(ctx).events() == old(ctx).events()
            } else {
                &&& final(ctx).events() == old(ctx).events().push(
                    PsprEvent::SetPsprite { position: PS_WEAPON, state: old(ctx).weapon_view(p.readyweapon).readystate },
                )
                &&& final(ctx).psprite_players().len() == old(ctx).psprite_players().len() + 1
                &&& with_psp(final(ctx).psprite_players().last(), p, psp_idx as int, PspDef { sy: Fixed(WEAPONTOP), ..d })
            }
        }),
        same_tables(*old(ctx), *final(ctx)),
{
    let d = player.psprites[psp_idx];
    let sy = d.sy.0.wrapping_sub(RAISESPEED);
    if sy > WEAPONTOP {
        set_psp(player, psp_idx, PspDef { sy: Fixed(sy), ..d });
        return;
    }
    set_psp(player, psp_idx, PspDef { sy: Fixed(WEAPONTOP), ..d });
    let ready = ctx.weapon_info(player.readyweapon).readystate;
    ctx.p_set_psprite(player, PS_WEAPON, ready, rng);
}

/// `A_GunFlash`: the player's body goes to its second attack state (with
/// a body) and the flash sprite to the weapon's flash state.
pub fn a_gun_flash<C: PsprContext>(player: &mut Player, psp_idx: usize, ctx: &mut C, rng: &mut DoomRandom)
    requires
        old(player).readyweapon != WeaponType::NoChange,
    ensures
        final(ctx).events() == old(ctx).events() + match old(player).mobj {
            Some(mo) => seq![PsprEvent::SetMobjState { mobj: mo, state: S_PLAY_ATK2 }],
            None => Seq::empty(),
        } + seq![PsprEvent::SetPsprite { position: PS_FLASH, state: old(ctx).weapon_view(old(player).readyweapon).flashstate }],
        final(ctx).psprite_players() == old(ctx).psprite_players().push(*old(player)),
        same_tables(*old(ctx), *final(ctx)),
{
    let ghost pre = *ctx;
    if let Some(mo) = player.mobj {
        ctx.p_set_mobj_state(mo, S_PLAY_ATK2);
    }
    let flash = ctx.weapon_info(player.readyweapon).flashstate;
    ctx.p_set_psprite(player, PS_FLASH, flash, rng);
    proof {
        let f = PsprEvent::SetPsprite { position: PS_FLASH, state: flash };
        match old(player).mobj {
            Some(mo) => {
                assert(ctx.events() =~= pre.events() + seq![PsprEvent::SetMobjState { mobj: mo, state: S_PLAY_ATK2 }] + seq![f]);
            },
            None => {
                assert(ctx.events() =~= pre.events() + Seq::<PsprEvent>::empty() + seq![f]);
            },
        }
    }
}

/// `A_Light0`: no muzzle light.
pub fn a_light0<C: PsprContext>(player: &mut Player, psp_idx: usize, ctx: &mut C, rng: &mut DoomRandom)
    ensures
        *final(player) == (Player { extralight: 0, ..*old(player) }),
{
    player.extralight = 0;
}

/// `A_Light1`: muzzle light 1.
pub fn a_light1<C: PsprContext>(player: &mut Player, psp_idx: usize, ctx: &mut C, rng: &mut DoomRandom)
    ensures
        *final(player) == (Player { extralight: 1, ..*old(player) }),
{
    player.extralight = 1;
}

/// `A_Light2`: muzzle light 2.
pub fn a_light2<C: PsprContext>(player: &mut Player, psp_idx: usize, ctx: &mut C, rng: &mut DoomRandom)
    ensures
        *final(player) == (Player { extralight: 2, ..*old(player) }),
{
    player.extralight = 2;
}

/// The sound at the player's body, if it has one.
pub open spec fn body_sound(p: Player, sfx: SfxEnum) -> Seq<PsprEvent> {
    match p.mobj {
        Some(mo) => seq![PsprEvent::Sound { origin: Some(mo), sfx }],
        None => Seq::empty(),
    }
}

fn play_at_body<C: PsprContext>(player: &Player, sfx: SfxEnum, ctx: &mut C)
    ensures
        final(ctx).events() == old(ctx).events() + body_sound(*player, sfx),
        final(ctx).mobjs_view() == old(ctx).mobjs_view(),
        final(ctx).psprite_players() == old(ctx).psprite_players(),
        same_tables(*old(ctx), *final(ctx)),
{
    if let Some(mo) = player.mobj {
        ctx.s_start_sound(Some(mo), sfx);
        assert(ctx.events() =~= old(ctx).events() + body_sound(*player, sfx));
    } else {
        assert(ctx.events() =~= old(ctx).events() + body_sound(*player, sfx));
    }
}

/// `A_BFGsound`: the BFG's charging sound.
pub fn a_bfg_sound<C: PsprContext>(player: &mut Player, psp_idx: usize, ctx: &mut C, rng: &mut DoomRandom)
    ensures
        final(ctx).events() == old(ctx).events() + body_sound(*old(player), SfxEnum::sfx_bfg),
        *final(player) == *old(player),
{
    play_at_body(player, SfxEnum::sfx_bfg, ctx);
}

/// `A_OpenShotgun2`: the super shotgun breaks open.
pub fn a_open_shotgun2<C: PsprContext>(player: &mut Player, ctx: &mut C)
    ensures
        final(ctx).events() == old(ctx).events() + body_sound(*old(player), SfxEnum::sfx_dbopn),
        *final(player) == *old(player),
{
    play_at_body(player, SfxEnum::sfx_dbopn, ctx);
}

/// `A_LoadShotgun2`: shells go into the super shotgun.
pub fn a_load_shotgun2<C: PsprContext>(player: &mut Player, ctx: &mut C)
    ensures
        final(ctx).events() == old(ctx).events() + body_sound(*old(player), SfxEnum::sfx_dbload),
        *final(player) == *old(player),
{
    play_at_body(player, SfxEnum::sfx_dbload, ctx);
}

/// `A_CloseShotgun2`: the super shotgun snaps shut, then [`a_refire`].
pub fn a_close_shotgun2<C: PsprContext>(player: &mut Player, psp_idx: usize, ctx: &mut C, rng: &mut DoomRandom)
    requires
        old(player).readyweapon != WeaponType::NoChange,
        old(player).refire < i32::MAX,
    ensures
        final(ctx).events().len() >= old(ctx).events().len() + body_sound(*old(player), SfxEnum::sfx_dbcls).len(),
        final(ctx).events().subrange(0, (old(ctx).events().len() + body_sound(*old(player), SfxEnum::sfx_dbcls).len()) as int)
            == old(ctx).events() + body_sound(*old(player), SfxEnum::sfx_dbcls),
        same_tables(*old(ctx), *final(ctx)),
{
    let ghost pre = *ctx;
    play_at_body(player, SfxEnum::sfx_dbcls, ctx);
    let ghost mid = ctx.events();
    a_refire(player, psp_idx, ctx, rng);
    proof {
        let p = *old(player);
        assert(ctx.events().subrange(0, mid.len() as int) =~= mid);
    }
}

/// `P_CalcSwing`: the weapon swing for a player whose view bobs by `bob`
/// at level time `level_time`: the bob times the sine of
/// `117 * level_time` fine angles, and minus that times the sine half a
/// turn further.
pub fn p_calc_swing<C: PsprContext>(player: &Player, level_time: i32, ctx: &C) -> (r: (Fixed, Fixed))
    requires
        0 <= level_time,
        117 * level_time + 4096 <= usize::MAX,
    ensures
        ({
            let a = ((117 * level_time) as usize & 8191usize) as usize;
            let b = ((117 * level_time + 4096) as usize & 8191usize) as usize;
            let swingx = fixed_mul_spec(player.bob.0, ctx.sine_view(a).0);
            r == (Fixed(swingx), Fixed(0i32.wrapping_sub(fixed_mul_spec(swingx, ctx.sine_view(b).0))))
        }),
{
    let t = 117usize * (level_time as usize);
    let t2 = t + 4096;
    let a = t & 8191usize;
    let b = t2 & 8191usize;
    assert(t & 8191usize <= 8191usize) by (bit_vector);
    assert(t2 & 8191usize <= 8191usize) by (bit_vector);
    let swingx = player.bob.fixed_mul(ctx.fine_sine(a));
    let swingy = Fixed(0i32.wrapping_sub(swingx.fixed_mul(ctx.fine_sine(b)).0));
    (swingx, swingy)
}

/// `P_SetupPsprites`: both weapon sprites are turned off (tics -1) and
/// the ready weapon is brought up ([`brought_up`]).
pub fn p_setup_psprites<C: PsprContext>(player: &mut Player, ctx: &mut C, rng: &mut DoomRandom)
    requires
        old(player).readyweapon != WeaponType::NoChange,
    ensures
        ({
            let p = *old(player);
            let off0 = PspDef { state: None, tics: -1i32, ..p.psprites[0] };
            let off1 = PspDef { state: None, tics: -1i32, ..p.psprites[1] };
            brought_up(*old(ctx), *final(ctx), Player { pendingweapon: p.readyweapon, psprites: [off0, off1], ..p })
        }),
        same_tables(*old(ctx), *final(ctx)),
{
    let ghost p0 = *player;
    let d0 = PspDef { state: None, tics: -1, ..player.psprites[0] };
    let d1 = PspDef { state: None, tics: -1, ..player.psprites[1] };
    player.psprites = [d0, d1];
    let ghost q = *player;
    player.pendingweapon = player.readyweapon;
    p_bring_up_weapon(player, ctx, rng);
}


/// `P_DropWeapon`: the weapon sprite goes to the ready weapon's down
/// state.
pub fn p_drop_weapon<C: PsprContext>(player: &mut Player, ctx: &mut C, rng: &mut DoomRandom)
    requires
        old(player).readyweapon != WeaponType::NoChange,
    ensures
        final(ctx).events() == old(ctx).events().push(
            PsprEvent::SetPsprite { position: PS_WEAPON, state: old(ctx).weapon_view(old(player).readyweapon).downstate },
        ),
        final(ctx).psprite_players() == old(ctx).psprite_players().push(*old(player)),
        same_tables(*old(ctx), *final(ctx)),
{
    let down = ctx.weapon_info(player.readyweapon).downstate;
    ctx.p_set_psprite(player, PS_WEAPON, down, rng);
}

/// A random spread of `shift` bits from two random values.
pub open spec fn spread(a: u8, b: u8, shift: u32) -> u32 {
    (((a as i32) - (b as i32)) as u32) << shift
}

fn spread_of(a: u8, b: u8, shift: u32) -> (r: u32)
    requires
        shift < 32,
    ensures
        r == spread(a, b, shift),
{
    (#[verifier::truncate] ((a as i32 - b as i32) as u32)) << shift
}

/// The body of the player exists.
pub open spec fn body_ok<C: PsprContext>(ctx: C, p: Player) -> bool {
    p.mobj matches Some(mo) ==> mo < ctx.mobjs_view().len()
}

/// The auto-aim reach of hitscan weapons.
pub const AUTOAIM: i32 = 67108864;

/// `P_BulletSlope`: the slope hitscan shots of the player take. Without a
/// body: level. Otherwise up to three aims along the body's facing, then
/// 2 to the 26th angle units to the left, then as far to the right: the
/// slope of the first aim that finds a thing, or of the last.
pub fn p_bullet_slope<C: PsprContext>(player: &Player, ctx: &mut C) -> (r: Fixed)
    requires
        body_ok(*old(ctx), *player),
    ensures
        same_tables(*old(ctx), *final(ctx)),
        final(ctx).mobjs_view() == old(ctx).mobjs_view(),
        final(ctx).psprite_players() == old(ctx).psprite_players(),
        match player.mobj {
            None => r == Fixed(0) && final(ctx).events() == old(ctx).events(),
            Some(mo) => {
                let an = old(ctx).mobjs_view()[mo as int].angle.0;
                let e = final(ctx).events();
                let n = old(ctx).events().len() as int;
                &&& e.len() > n
                &&& e.subrange(0, n) == old(ctx).events()
                &&& e[n] == (PsprEvent::Aim { source: mo, angle: Angle(an), range: Fixed(AUTOAIM), slope: e[n]->Aim_slope, target: e[n]->Aim_target })
                &&& if e[n]->Aim_target is Some {
                    e.len() == n + 1 && r == e[n]->Aim_slope
                } else {
                    &&& e.len() > n + 1
                    &&& e[n + 1] == (PsprEvent::Aim {
                        source: mo, angle: Angle(an.wrapping_add(0x0400_0000)), range: Fixed(AUTOAIM),
                        slope: e[n + 1]->Aim_slope, target: e[n + 1]->Aim_target,
                    })
                    &&& if e[n + 1]->Aim_target is Some {
                        e.len() == n + 2 && r == e[n + 1]->Aim_slope
                    } else {
                        &&& e.len() == n + 3
                        &&& e[n + 2] == (PsprEvent::Aim {
                            source: mo, angle: Angle(an.wrapping_sub(0x0400_0000)), range: Fixed(AUTOAIM),
                            slope: e[n + 2]->Aim_slope, target: e[n + 2]->Aim_target,
                        })
                        &&& r == e[n + 2]->Aim_slope
                    }
                }
            },
        },
{
    let ghost pre = *ctx;
    let mo = match player.mobj {
        Some(mo) => mo,
        None => return Fixed(0),
    };
    let an = ctx.mobjs()[mo].angle;
    let (slope, target) = ctx.p_aim_line_attack(mo, an, Fixed(AUTOAIM));
    if target.is_some() {
        assert(ctx.events().subrange(0, pre.events().len() as int) =~= pre.events());
        return slope;
    }
    let (slope2, target2) = ctx.p_aim_line_attack(mo, Angle(an.0.wrapping_add(0x0400_0000)), Fixed(AUTOAIM));
    if target2.is_some() {
        assert(ctx.events().subrange(0, pre.events().len() as int) =~= pre.events());
        return slope2;
    }
    let (slope3, _t3) = ctx.p_aim_line_attack(mo, Angle(an.0.wrapping_sub(0x0400_0000)), Fixed(AUTOAIM));
    assert(ctx.events().subrange(0, pre.events().len() as int) =~= pre.events());
    slope3
}

/// A bullet's damage from the random value `r`: 5, 10 or 15.
pub open spec fn bullet_damage(r: u8) -> i32 {
    (5 * ((r % 3) as i32 + 1)) as i32
}

/// `P_GunShot`: one bullet from the player's body (none without a body)
/// at `slope`, along its facing, spread by two random values unless
/// `accurate`; its damage from a first random value.
pub fn p_gun_shot<C: PsprContext>(player: &Player, bulletslope: Fixed, accurate: bool, ctx: &mut C, rng: &mut DoomRandom)
    requires
        body_ok(*old(ctx), *player),
    ensures
        same_tables(*old(ctx), *final(ctx)),
        final(ctx).psprite_players() == old(ctx).psprite_players(),
        final(ctx).mobjs_view().len() >= old(ctx).mobjs_view().len(),
        ({
            let r0 = *old(rng);
            let r1 = r0.advanced();
            match player.mobj {
                None => final(ctx).events() == old(ctx).events() && *final(rng) == r1,
                Some(mo) => {
                    let an = old(ctx).mobjs_view()[mo as int].angle.0;
                    let angle = if accurate { an } else { an.wrapping_add(spread(r1.next_p(), r1.advanced().next_p(), 18)) };
                    &&& final(ctx).events() == old(ctx).events().push(PsprEvent::LineAttack {
                        source: mo,
                        angle: Angle(angle),
                        range: Fixed(MISSILERANGE),
                        slope: bulletslope,
                        damage: bullet_damage(r0.next_p()),
                    })
                    &&& *final(rng) == if accurate { r1 } else { r1.advanced().advanced() }
                },
            }
        }),
{
    let r = rng.p_random();
    let damage = 5 * ((r % 3) as i32 + 1);
    let mo = match player.mobj {
        Some(mo) => mo,
        None => return,
    };
    let mut angle = ctx.mobjs()[mo].angle.0;
    if !accurate {
        let a = rng.p_random();
        let b = rng.p_random();
        angle = angle.wrapping_add(spread_of(a, b, 18));
    }
    ctx.p_line_attack(mo, Angle(angle), Fixed(MISSILERANGE), bulletslope, damage);
}

/// From index `k` on, every request is an aim or a shot by thing `mo`.
pub open spec fn shots_after(e: Seq<PsprEvent>, k: int, mo: usize) -> bool {
    forall|i: int| k <= i < e.len() ==> {
        ||| (#[trigger] e[i] matches PsprEvent::Aim { source, .. } && source == mo)
        ||| (e[i] matches PsprEvent::LineAttack { source, .. } && source == mo)
    }
}

proof fn lemma_shots_extend(a: Seq<PsprEvent>, b: Seq<PsprEvent>, k: int, mo: usize)
    requires
        0 <= k <= a.len() <= b.len(),
        b.subrange(0, a.len() as int) == a,
        shots_after(a, k, mo),
        shots_after(b, a.len() as int, mo),
    ensures
        shots_after(b, k, mo),
{
    assert forall|i: int| k <= i < b.len() implies {
        ||| (#[trigger] b[i] matches PsprEvent::Aim { source, .. } && source == mo)
        ||| (b[i] matches PsprEvent::LineAttack { source, .. } && source == mo)
    } by {
        if i < a.len() {
            assert(b[i] == b.subrange(0, a.len() as int)[i]);
        }
    }
}

/// The random stream after `k` shots ([`p_gun_shot`]) from `r`: a shot
/// from a body draws one number, three when not `accurate`; without a
/// body, one.
pub open spec fn after_shots(r: DoomRandom, k: nat, accurate: bool, body: bool) -> DoomRandom
    decreases k,
{
    if k == 0 {
        r
    } else {
        let p = after_shots(r, (k - 1) as nat, accurate, body);
        if body && !accurate { p.advanced().advanced().advanced() } else { p.advanced() }
    }
}

/// `e` is `k` shots by thing `mo` at `slope` over [`MISSILERANGE`], the
/// `j`-th dealing the damage of the first number it drew from `r`.
pub open spec fn shot_run(e: Seq<PsprEvent>, mo: usize, slope: Fixed, r: DoomRandom, accurate: bool, k: nat) -> bool {
    &&& e.len() == k
    &&& forall|j: int| 0 <= j < k ==> (#[trigger] e[j] matches PsprEvent::LineAttack { source, range, slope: s, damage, .. }
        && source == mo && range == Fixed(MISSILERANGE) && s == slope && damage == bullet_damage(after_shots(r, j as nat, accurate, true).next_p()))
}

/// Requests `e` from `n` on are `a` aims (one to three) by thing `mo`,
/// then `shots` shots ([`shot_run`]) at the slope the last aim gave.
pub open spec fn aimed_shots(e: Seq<PsprEvent>, n: int, a: int, mo: usize, r: DoomRandom, accurate: bool, shots: nat) -> bool {
    &&& 1 <= a <= 3
    &&& n + a <= e.len()
    &&& forall|i: int| n <= i < n + a ==> (#[trigger] e[i] matches PsprEvent::Aim { source, .. } && source == mo)
    &&& shot_run(e.subrange(n + a, e.len() as int), mo, e[n + a - 1]->Aim_slope, r, accurate, shots)
}

/// The bullet slope ([`p_bullet_slope`]) and `shots` shots at it
/// ([`p_gun_shot`]): one to three aims by the body, the last of which gave
/// the slope, then the shots ([`shot_run`]); without a body, no requests.
fn slope_and_shots<C: PsprContext>(player: &Player, shots: u32, accurate: bool, ctx: &mut C, rng: &mut DoomRandom)
    requires
        body_ok(*old(ctx), *player),
    ensures
        same_tables(*old(ctx), *final(ctx)),
        final(ctx).psprite_players() == old(ctx).psprite_players(),
        final(ctx).mobjs_view().len() >= old(ctx).mobjs_view().len(),
        final(ctx).events().len() >= old(ctx).events().len(),
        final(ctx).events().subrange(0, old(ctx).events().len() as int) == old(ctx).events(),
        player.mobj matches Some(mo) ==> shots_after(final(ctx).events(), old(ctx).events().len() as int, mo),
        player.mobj is None ==> final(ctx).events() == old(ctx).events(),
        *final(rng) == after_shots(*old(rng), shots as nat, accurate, player.mobj is Some),
        player.mobj matches Some(mo) ==> exists|a: int| #[trigger] aimed_shots(final(ctx).events(), old(ctx).events().len() as int, a, mo, *old(rng), accurate, shots as nat),
{
    let ghost pre = *ctx;
    let ghost r0 = *rng;
    let ghost n = pre.events().len() as int;
    let slope = p_bullet_slope(player, ctx);
    let ghost m = ctx.events().len() as int;
    proof {
        if player.mobj is Some {
            assert(slope == ctx.events()[m - 1]->Aim_slope);
            assert(shot_run(ctx.events().subrange(m, m), player.mobj->0, slope, r0, accurate, 0));
        }
    }
    proof {
        if let Some(mo) = player.mobj {
            let e = ctx.events();
            assert forall|i: int| n <= i < e.len() implies {
                ||| (#[trigger] e[i] matches PsprEvent::Aim { source, .. } && source == mo)
                ||| (e[i] matches PsprEvent::LineAttack { source, .. } && source == mo)
            } by {}
        }
    }
    let mut k: u32 = 0;
    while k < shots
        invariant
            body_ok(*ctx, *player),
            same_tables(pre, *ctx),
            ctx.psprite_players() == pre.psprite_players(),
            ctx.mobjs_view().len() >= pre.mobjs_view().len(),
            ctx.events().len() >= n,
            ctx.events().subrange(0, n) == pre.events(),
            n == pre.events().len(),
            player.mobj matches Some(mo) ==> shots_after(ctx.events(), n, mo),
            player.mobj is None ==> ctx.events() == pre.events(),
            *rng == after_shots(r0, k as nat, accurate, player.mobj is Some),
            k <= shots,
            player.mobj is Some ==> {
                &&& n < m <= n + 3
                &&& m <= ctx.events().len()
                &&& forall|i: int| n <= i < m ==> (#[trigger] ctx.events()[i] matches PsprEvent::Aim { source, .. } && source == player.mobj->0)
                &&& slope == ctx.events()[m - 1]->Aim_slope
                &&& shot_run(ctx.events().subrange(m, ctx.events().len() as int), player.mobj->0, slope, r0, accurate, k as nat)
            },
        decreases shots - k,
    {
        let ghost before = ctx.events();
        let ghost rb = *rng;
        p_gun_shot(player, slope, accurate, ctx, rng);
        proof {
            if let Some(mo) = player.mobj {
                let e = ctx.events();
                assert(e == before.push(e.last()));
                assert forall|i: int| n <= i < m implies (#[trigger] e[i] matches PsprEvent::Aim { source, .. } && source == mo) by {
                    assert(e[i] == before[i]);
                }
                let sr = e.subrange(m, e.len() as int);
                let sb = before.subrange(m, before.len() as int);
                assert forall|j: int| 0 <= j < k + 1 implies (#[trigger] sr[j] matches PsprEvent::LineAttack { source, range, slope: s, damage, .. }
                    && source == mo && range == Fixed(MISSILERANGE) && s == slope && damage == bullet_damage(after_shots(r0, j as nat, accurate, true).next_p())) by {
                    if j < k {
                        assert(sr[j] == sb[j]);
                    }
                }
            }
        }
        proof {
            assert(ctx.events().subrange(0, before.len() as int) =~= before);
            if let Some(mo) = player.mobj {
                lemma_shots_extend(before, ctx.events(), n, mo);
            }
            assert(ctx.events().subrange(0, n) =~= before.subrange(0, n));
        }
        k = k + 1;
    }
    proof {
        if let Some(mo) = player.mobj {
            assert(aimed_shots(ctx.events(), n, m - n, mo, r0, accurate, shots as nat));
        }
    }
}

/// Take `amount` of the ready weapon's ammunition (none for a weapon
/// without).
fn use_ammo<C: PsprContext>(player: &mut Player, amount: i32, ctx: &C)
    requires
        0 <= amount,
        ctx.weapon_view(old(player).readyweapon).ammo != AmmoType::NoAmmo ==>
            old(player).ammo[ammo_slot(ctx.weapon_view(old(player).readyweapon).ammo)] >= i32::MIN + amount,
    ensures
        used_ammo(*old(player), *final(player), ctx.weapon_view(old(player).readyweapon).ammo, amount),
{
    let a = ctx.weapon_info(player.readyweapon).ammo;
    if a != AmmoType::NoAmmo {
        let i = a.slot();
        player.ammo[i] = player.ammo[i] - amount;
    }
}

/// Player `q` is `p` after using `amount` of ammunition `a` (none of
/// no ammunition).
pub open spec fn used_ammo(p: Player, q: Player, a: AmmoType, amount: i32) -> bool {
    if a == AmmoType::NoAmmo {
        q == p
    } else {
        &&& q == Player { ammo: q.ammo, ..p }
        &&& q.ammo[ammo_slot(a)] == p.ammo[ammo_slot(a)] - amount
        &&& forall|i: int| 0 <= i < 4 && i != ammo_slot(a) ==> q.ammo[i] == p.ammo[i]
    }
}

/// The start of a hitscan weapon's shot: its sound at the body, the body
/// in its second attack state, and the flash sprite set to `flash`.
pub open spec fn shot_start<C: PsprContext>(pre: C, p: Player, sfx: SfxEnum, flash: usize) -> Seq<PsprEvent> {
    let body = match p.mobj {
        Some(mo) => seq![PsprEvent::Sound { origin: Some(mo), sfx }, PsprEvent::SetMobjState { mobj: mo, state: S_PLAY_ATK2 }],
        None => Seq::empty(),
    };
    pre.events() + body.push(PsprEvent::SetPsprite { position: PS_FLASH, state: flash })
}

/// The flash of a shot started with player `p` using `amount`: the last
/// weapon sprite request was made for `p` less that ammunition.
pub open spec fn flash_player<C: PsprContext>(pre: C, post: C, p: Player, amount: i32) -> bool {
    &&& post.psprite_players().len() == pre.psprite_players().len() + 1
    &&& post.psprite_players().subrange(0, pre.psprite_players().len() as int) == pre.psprite_players()
    &&& used_ammo(p, post.psprite_players().last(), pre.weapon_view(p.readyweapon).ammo, amount)
}

/// The ammunition of the ready weapon suffices for taking `amount`.
pub open spec fn can_take<C: PsprContext>(ctx: C, p: Player, amount: i32) -> bool {
    ctx.weapon_view(p.readyweapon).ammo != AmmoType::NoAmmo ==>
        p.ammo[ammo_slot(ctx.weapon_view(p.readyweapon).ammo)] >= i32::MIN + amount
}

fn start_shot<C: PsprContext>(player: &mut Player, sfx: SfxEnum, amount: i32, ctx: &mut C, rng: &mut DoomRandom)
    requires
        0 <= amount,
        old(player).readyweapon != WeaponType::NoChange,
        can_take(*old(ctx), *old(player), amount),
    ensures
        final(ctx).events() == shot_start(*old(ctx), *old(player), sfx, old(ctx).weapon_view(old(player).readyweapon).flashstate),
        flash_player(*old(ctx), *final(ctx), *old(player), amount),
        same_tables(*old(ctx), *final(ctx)),
        final(ctx).mobjs_view().len() >= old(ctx).mobjs_view().len(),
        final(player).mobj == old(player).mobj,
{
    let ghost pre = *ctx;
    let ghost p0 = *player;
    if let Some(mo) = player.mobj {
        ctx.s_start_sound(Some(mo), sfx);
        ctx.p_set_mobj_state(mo, S_PLAY_ATK2);
    }
    use_ammo(player, amount, ctx);
    let flash = ctx.weapon_info(player.readyweapon).flashstate;
    ctx.p_set_psprite(player, PS_FLASH, flash, rng);
    proof {
        assert(ctx.psprite_players().subrange(0, pre.psprite_players().len() as int) =~= pre.psprite_players());
        let f = PsprEvent::SetPsprite { position: PS_FLASH, state: flash };
        match p0.mobj {
            Some(mo) => {
                assert(ctx.events() =~= pre.events() + seq![PsprEvent::Sound { origin: Some(mo), sfx }, PsprEvent::SetMobjState { mobj: mo, state: S_PLAY_ATK2 }].push(f));
            },
            None => {
                assert(ctx.events() =~= pre.events() + Seq::<PsprEvent>::empty().push(f));
            },
        }
    }
}

/// What a hitscan weapon's shot requests: [`shot_start`], then only aims
/// and shots from the body.
pub open spec fn hitscan_fired<C: PsprContext>(pre: C, post: C, p: Player, sfx: SfxEnum, amount: i32) -> bool {
    let evs = shot_start(pre, p, sfx, pre.weapon_view(p.readyweapon).flashstate);
    &&& post.events().len() >= evs.len()
    &&& post.events().subrange(0, evs.len() as int) == evs
    &&& flash_player(pre, post, p, amount)
    &&& (p.mobj matches Some(mo) ==> shots_after(post.events(), evs.len() as int, mo))
    &&& (p.mobj is None ==> post.events() == evs)
}

/// `A_FirePistol`: the pistol's sound, one bullet of clip used, the
/// flash, and one bullet ([`p_gun_shot`]), accurate for the first of a
/// series.
pub fn a_fire_pistol<C: PsprContext>(player: &mut Player, psp_idx: usize, ctx: &mut C, rng: &mut DoomRandom)
    requires
        old(player).readyweapon != WeaponType::NoChange,
        can_take(*old(ctx), *old(player), 1),
        body_ok(*old(ctx), *old(player)),
    ensures
        hitscan_fired(*old(ctx), *final(ctx), *old(player), SfxEnum::sfx_pistol, 1),
        same_tables(*old(ctx), *final(ctx)),
{
    let ghost pre = *ctx;
    start_shot(player, SfxEnum::sfx_pistol, 1, ctx, rng);
    let ghost mid = ctx.events();
    if body_ok_exec(player, ctx) {
        let accurate = player.refire == 0;
        slope_and_shots(player, 1, accurate, ctx, rng);
    }
    assert(ctx.events().subrange(0, mid.len() as int) == mid);
}

fn body_ok_exec<C: PsprContext>(player: &Player, ctx: &C) -> (r: bool)
    ensures
        r == body_ok(*ctx, *player),
{
    match player.mobj {
        Some(mo) => mo < ctx.mobjs().len(),
        None => true,
    }
}

/// `A_FireShotgun`: the shotgun's sound, a shell used, the flash, and
/// seven spread pellets ([`p_gun_shot`]).
pub fn a_fire_shotgun<C: PsprContext>(player: &mut Player, psp_idx: usize, ctx: &mut C, rng: &mut DoomRandom)
    requires
        old(player).readyweapon != WeaponType::NoChange,
        can_take(*old(ctx), *old(player), 1),
        body_ok(*old(ctx), *old(player)),
    ensures
        hitscan_fired(*old(ctx), *final(ctx), *old(player), SfxEnum::sfx_shotgn, 1),
        same_tables(*old(ctx), *final(ctx)),
{
    start_shot(player, SfxEnum::sfx_shotgn, 1, ctx, rng);
    let ghost mid = ctx.events();
    if body_ok_exec(player, ctx) {
        slope_and_shots(player, 7, false, ctx, rng);
    }
    assert(ctx.events().subrange(0, mid.len() as int) == mid);
}

/// `A_FireCGun`: the pistol sound; with no bullet left (for a weapon
/// that uses ammunition) nothing more; else a bullet used, the body in
/// its second attack state, the flash matching the chaingun frame, and
/// one bullet, accurate for the first of a series.
pub fn a_fire_cgun<C: PsprContext>(player: &mut Player, psp_idx: usize, ctx: &mut C, rng: &mut DoomRandom)
    requires
        psp_idx < 2,
        old(player).readyweapon != WeaponType::NoChange,
        body_ok(*old(ctx), *old(player)),
        old(ctx).weapon_view(old(player).readyweapon).flashstate + NUMSTATES <= usize::MAX,
    ensures
        ({
            let p = *old(player);
            let pre = *old(ctx);
            let a = pre.weapon_view(p.readyweapon).ammo;
            let n = pre.events().len() as int;
            let sound = body_sound(p, SfxEnum::sfx_pistol);
            &&& final(ctx).events().len() >= n + sound.len()
            &&& final(ctx).events().subrange(0, n + sound.len()) == pre.events() + sound
            &&& (a != AmmoType::NoAmmo && p.ammo[ammo_slot(a)] <= 0) ==> final(ctx).events() == pre.events() + sound
                && *final(player) == p
        }),
        same_tables(*old(ctx), *final(ctx)),
{
    let ghost pre = *ctx;
    play_at_body(player, SfxEnum::sfx_pistol, ctx);
    let ghost mid = ctx.events();
    let a = ctx.weapon_info(player.readyweapon).ammo;
    if a != AmmoType::NoAmmo {
        if player.ammo[a.slot()] <= 0 {
            return;
        }
        let i = a.slot();
        player.ammo[i] = player.ammo[i] - 1;
    }
    if let Some(mo) = player.mobj {
        ctx.p_set_mobj_state(mo, S_PLAY_ATK2);
    }
    let base = ctx.weapon_info(player.readyweapon).flashstate;
    let st = match player.psprites[psp_idx].state {
        Some(s) => s,
        None => 0,
    };
    let offset = if st > S_CHAIN1 { st - S_CHAIN1 } else { 0 };
    if offset < NUMSTATES && base + offset < NUMSTATES {
        ctx.p_set_psprite(player, PS_FLASH, base + offset, rng);
    }
    if body_ok_exec(player, ctx) {
        let accurate = player.refire == 0;
        slope_and_shots(player, 1, accurate, ctx, rng);
    }
    assert(ctx.events().subrange(0, mid.len() as int) =~= mid);
}

/// `A_FireShotgun2`: the super shotgun's sound, two shells used, the
/// flash, and (with a body) twenty pellets from the bullet slope, each
/// spread by 19 bits across and 5 bits in slope, 5 to 15 damage each.
pub fn a_fire_shotgun2<C: PsprContext>(player: &mut Player, psp_idx: usize, ctx: &mut C, rng: &mut DoomRandom)
    requires
        old(player).readyweapon != WeaponType::NoChange,
        can_take(*old(ctx), *old(player), 2),
        body_ok(*old(ctx), *old(player)),
    ensures
        hitscan_fired(*old(ctx), *final(ctx), *old(player), SfxEnum::sfx_dshtgn, 2),
        same_tables(*old(ctx), *final(ctx)),
{
    start_shot(player, SfxEnum::sfx_dshtgn, 2, ctx, rng);
    let ghost mid = ctx.events();
    if !body_ok_exec(player, ctx) {
        return;
    }
    let ghost n = mid.len() as int;
    let slope = p_bullet_slope(player, ctx);
    let mo = match player.mobj {
        Some(mo) => mo,
        None => {
            assert(ctx.events().subrange(0, n) =~= mid);
            return;
        },
    };
    proof {
        let e = ctx.events();
        assert forall|i: int| n <= i < e.len() implies {
            ||| (#[trigger] e[i] matches PsprEvent::Aim { source, .. } && source == mo)
            ||| (e[i] matches PsprEvent::LineAttack { source, .. } && source == mo)
        } by {}
    }
    let mut k: u32 = 0;
    while k < 20
        invariant
            mo < ctx.mobjs_view().len(),
            same_tables(*old(ctx), *ctx),
            flash_player(*old(ctx), *ctx, *old(player), 2),
            ctx.events().len() >= n,
            ctx.events().subrange(0, n) == mid,
            n == mid.len(),
            shots_after(ctx.events(), n, mo),
        decreases 20 - k,
    {
        let r = rng.p_random();
        let damage = 5 * ((r % 3) as i32 + 1);
        let angle = ctx.mobjs()[mo].angle.0;
        let a1 = rng.p_random();
        let a2 = rng.p_random();
        let h = spread_of(a1, a2, 19);
        let b1 = rng.p_random();
        let b2 = rng.p_random();
        let v = (b1 as i32 - b2 as i32) * 32;
        let ghost before = ctx.events();
        ctx.p_line_attack(mo, Angle(angle.wrapping_add(h)), Fixed(MISSILERANGE), Fixed(slope.0.wrapping_add(v)), damage);
        proof {
            assert(ctx.events().subrange(0, n) =~= before.subrange(0, n));
            assert(ctx.events().subrange(0, before.len() as int) =~= before);
            lemma_shots_extend(before, ctx.events(), n, mo);
        }
        k = k + 1;
    }
}

/// `A_FireMissile`: a rocket used and one fired from the body.
pub fn a_fire_missile<C: PsprContext>(player: &mut Player, psp_idx: usize, ctx: &mut C, rng: &mut DoomRandom)
    requires
        old(player).ammo[3] > i32::MIN,
    ensures
        used_ammo(*old(player), *final(player), AmmoType::Missile, 1),
        final(ctx).events() == old(ctx).events() + match old(player).mobj {
            Some(mo) => seq![PsprEvent::SpawnPlayerMissile { source: mo, mtype: MT_ROCKET }],
            None => Seq::empty(),
        },
        same_tables(*old(ctx), *final(ctx)),
{
    player.ammo[3] = player.ammo[3] - 1;
    if let Some(mo) = player.mobj {
        ctx.p_spawn_player_missile(mo, MT_ROCKET);
        assert(ctx.events() =~= old(ctx).events() + seq![PsprEvent::SpawnPlayerMissile { source: mo, mtype: MT_ROCKET }]);
    } else {
        assert(ctx.events() =~= old(ctx).events() + Seq::<PsprEvent>::empty());
    }
}

/// `A_FireBFG`: 40 cells used and a BFG ball fired from the body.
pub fn a_fire_bfg<C: PsprContext>(player: &mut Player, psp_idx: usize, ctx: &mut C, rng: &mut DoomRandom)
    requires
        old(player).ammo[2] >= i32::MIN + BFGCELLS,
    ensures
        used_ammo(*old(player), *final(player), AmmoType::Cell, BFGCELLS),
        final(ctx).events() == old(ctx).events() + match old(player).mobj {
            Some(mo) => seq![PsprEvent::SpawnPlayerMissile { source: mo, mtype: MT_BFG }],
            None => Seq::empty(),
        },
        same_tables(*old(ctx), *final(ctx)),
{
    player.ammo[2] = player.ammo[2] - BFGCELLS;
    if let Some(mo) = player.mobj {
        ctx.p_spawn_player_missile(mo, MT_BFG);
        assert(ctx.events() =~= old(ctx).events() + seq![PsprEvent::SpawnPlayerMissile { source: mo, mtype: MT_BFG }]);
    } else {
        assert(ctx.events() =~= old(ctx).events() + Seq::<PsprEvent>::empty());
    }
}

/// `A_FirePlasma`: a cell used; the flash sprite goes to the weapon's
/// flash state or the one after it, at random; a plasma ball is fired
/// from the body.
pub fn a_fire_plasma<C: PsprContext>(player: &mut Player, psp_idx: usize, ctx: &mut C, rng: &mut DoomRandom)
    requires
        old(player).ammo[2] > i32::MIN,
        old(player).readyweapon != WeaponType::NoChange,
        old(ctx).weapon_view(old(player).readyweapon).flashstate + 1 < NUMSTATES,
    ensures
        ({
            let p = *old(player);
            let flash = (old(ctx).weapon_view(p.readyweapon).flashstate + (old(rng).next_p() & 1) as usize) as usize;
            &&& final(ctx).events() == old(ctx).events().push(PsprEvent::SetPsprite { position: PS_FLASH, state: flash })
                + match p.mobj {
                    Some(mo) => seq![PsprEvent::SpawnPlayerMissile { source: mo, mtype: MT_PLASMA }],
                    None => Seq::empty(),
                }
            &&& final(ctx).psprite_players().len() == old(ctx).psprite_players().len() + 1
            &&& used_ammo(p, final(ctx).psprite_players().last(), AmmoType::Cell, 1)
        }),
        same_tables(*old(ctx), *final(ctx)),
{
    let ghost pre = *ctx;
    player.ammo[2] = player.ammo[2] - 1;
    let base = ctx.weapon_info(player.readyweapon).flashstate;
    let r = rng.p_random();
    let bit = r & 1;
    assert(r & 1 <= 1) by (bit_vector);
    ctx.p_set_psprite(player, PS_FLASH, base + bit as usize, rng);
    let ghost mid = ctx.events();
    if let Some(mo) = player.mobj {
        ctx.p_spawn_player_missile(mo, MT_PLASMA);
        assert(ctx.events() =~= mid + seq![PsprEvent::SpawnPlayerMissile { source: mo, mtype: MT_PLASMA }]);
    } else {
        assert(ctx.events() =~= mid + Seq::<PsprEvent>::empty());
    }
}

/// The damage of one fist or chainsaw blow from the random value `r`:
/// 2 to 20 for the fist (ten times that with the strength power-up), 2
/// to 20 for the chainsaw.
pub open spec fn punch_damage(r: u8, berserk: bool) -> i32 {
    let d = (((r % 10) as i32 + 1) * 2) as i32;
    if berserk { (d * 10) as i32 } else { d }
}

/// `A_Punch`: a fist blow (see [`punch_damage`]; without a body nothing
/// more): an aim at melee reach along the body's facing spread by two
/// random values, and the blow at that slope; a hit makes the punch sound
/// and turns the body toward the thing hit.
pub fn a_punch<C: PsprContext>(player: &mut Player, psp_idx: usize, ctx: &mut C, rng: &mut DoomRandom)
    requires
        body_ok(*old(ctx), *old(player)),
    ensures
        ({
            let p = *old(player);
            let r0 = *old(rng);
            let damage = punch_damage(r0.next_p(), p.powers[1] != 0);
            let e = final(ctx).events();
            let n = old(ctx).events().len() as int;
            match p.mobj {
                None => e == old(ctx).events(),
                Some(mo) => {
                    let r1 = r0.advanced();
                    let angle = Angle(old(ctx).mobjs_view()[mo as int].angle.0.wrapping_add(spread(r1.next_p(), r1.advanced().next_p(), 18)));
                    &&& e.len() >= n + 2
                    &&& e.subrange(0, n) == old(ctx).events()
                    &&& e[n] == (PsprEvent::Aim { source: mo, angle, range: Fixed(MELEERANGE), slope: e[n]->Aim_slope, target: e[n]->Aim_target })
                    &&& e[n + 1] == (PsprEvent::LineAttack { source: mo, angle, range: Fixed(MELEERANGE), slope: e[n]->Aim_slope, damage })
                    &&& e.len() == if e[n]->Aim_target is Some { n + 3 } else { n + 2 }
                    &&& e[n]->Aim_target is Some ==> e[n + 2] == (PsprEvent::Sound { origin: Some(mo), sfx: SfxEnum::sfx_punch })
                },
            }
        }),
        *final(player) == *old(player),
        same_tables(*old(ctx), *final(ctx)),
{
    let ghost pre = *ctx;
    let r = rng.p_random();
    let mut damage = ((r % 10) as i32 + 1) * 2;
    if player.powers[1] != 0 {
        damage = damage * 10;
    }
    let mo = match player.mobj {
        Some(mo) => mo,
        None => return,
    };
    let a = rng.p_random();
    let b = rng.p_random();
    let angle = Angle(ctx.mobjs()[mo].angle.0.wrapping_add(spread_of(a, b, 18)));
    let (slope, target) = ctx.p_aim_line_attack(mo, angle, Fixed(MELEERANGE));
    ctx.p_line_attack(mo, angle, Fixed(MELEERANGE), slope, damage);
    if let Some(t) = target {
        ctx.s_start_sound(Some(mo), SfxEnum::sfx_punch);
        let m = ctx.mobjs()[mo];
        let tg = ctx.mobjs()[t];
        let face = ctx.point_to_angle2(m.x, m.y, tg.x, tg.y);
        ctx.set_mobj(mo, MapObject { angle: face, ..m });
    }
    assert(ctx.events().subrange(0, pre.events().len() as int) =~= pre.events());
}

/// How far the chainsaw may turn the body per blow.
pub const SAW_TURN: u32 = 53687091;
/// How far short of the thing hit a turning chainsaw stops.
pub const SAW_SHORT: u32 = 51130563;

/// The facing of a body facing `cur` after a chainsaw hit on a thing along
/// `target`: straight at it when within [`SAW_TURN`], else stopping
/// [`SAW_SHORT`] short of it on the side it turns from (staying put when
/// the thing is just left of it).
pub open spec fn saw_facing(cur: u32, target: u32) -> u32 {
    let diff = target.wrapping_sub(cur);
    if diff > 0x8000_0000 {
        if 0u32.wrapping_sub(diff) > SAW_TURN { target.wrapping_add(SAW_SHORT) } else { cur }
    } else if diff > SAW_TURN {
        target.wrapping_sub(SAW_SHORT)
    } else {
        target
    }
}

/// `A_Saw`: a chainsaw blow (2 to 20 damage; without a body nothing
/// more) at melee reach plus one, spread by two random values; a miss
/// makes the idle-full sound, a hit the hit sound, and the body turns
/// toward the thing hit ([`saw_facing`]) and counts as having just
/// attacked.
pub fn a_saw<C: PsprContext>(player: &mut Player, psp_idx: usize, ctx: &mut C, rng: &mut DoomRandom)
    requires
        body_ok(*old(ctx), *old(player)),
    ensures
        ({
            let p = *old(player);
            let r0 = *old(rng);
            let damage = punch_damage(r0.next_p(), false);
            let e = final(ctx).events();
            let n = old(ctx).events().len() as int;
            match p.mobj {
                None => e == old(ctx).events(),
                Some(mo) => {
                    let r1 = r0.advanced();
                    let angle = Angle(old(ctx).mobjs_view()[mo as int].angle.0.wrapping_add(spread(r1.next_p(), r1.advanced().next_p(), 18)));
                    let range = Fixed((MELEERANGE + 1) as i32);
                    &&& e.len() == n + 3
                    &&& e.subrange(0, n) == old(ctx).events()
                    &&& e[n] == (PsprEvent::Aim { source: mo, angle, range, slope: e[n]->Aim_slope, target: e[n]->Aim_target })
                    &&& e[n + 1] == (PsprEvent::LineAttack { source: mo, angle, range, slope: e[n]->Aim_slope, damage })
                    &&& e[n + 2] == (PsprEvent::Sound {
                        origin: Some(mo),
                        sfx: if e[n]->Aim_target is Some { SfxEnum::sfx_sawhit } else { SfxEnum::sfx_sawful },
                    })
                    &&& e[n]->Aim_target is Some ==> final(ctx).mobjs_view()[mo as int].flags & MF_JUSTATTACKED != 0
                },
            }
        }),
        *final(player) == *old(player),
        same_tables(*old(ctx), *final(ctx)),
{
    let ghost pre = *ctx;
    let r = rng.p_random();
    let damage = ((r % 10) as i32 + 1) * 2;
    let mo = match player.mobj {
        Some(mo) => mo,
        None => return,
    };
    let a = rng.p_random();
    let b = rng.p_random();
    let angle = Angle(ctx.mobjs()[mo].angle.0.wrapping_add(spread_of(a, b, 18)));
    let range = Fixed(MELEERANGE + 1);
    let (slope, target) = ctx.p_aim_line_attack(mo, angle, range);
    ctx.p_line_attack(mo, angle, range, slope, damage);
    let t = match target {
        Some(t) => t,
        None => {
            ctx.s_start_sound(Some(mo), SfxEnum::sfx_sawful);
            assert(ctx.events().subrange(0, pre.events().len() as int) =~= pre.events());
            return;
        },
    };
    ctx.s_start_sound(Some(mo), SfxEnum::sfx_sawhit);
    let m = ctx.mobjs()[mo];
    let tg = ctx.mobjs()[t];
    let ta = ctx.point_to_angle2(m.x, m.y, tg.x, tg.y).0;
    let cur = m.angle.0;
    let diff = ta.wrapping_sub(cur);
    let facing = if diff > 0x8000_0000 {
        if 0u32.wrapping_sub(diff) > SAW_TURN { ta.wrapping_add(SAW_SHORT) } else { cur }
    } else if diff > SAW_TURN {
        ta.wrapping_sub(SAW_SHORT)
    } else {
        ta
    };
    let fl = m.flags;
    ctx.set_mobj(mo, MapObject { angle: Angle(facing), flags: fl | MF_JUSTATTACKED, ..m });
    assert((fl | 0x80u32) & 0x80u32 != 0) by (bit_vector);
    assert(ctx.events().subrange(0, pre.events().len() as int) =~= pre.events());
}

/// `P_MovePsprites`: each weapon sprite that is on and not held forever
/// (tics -1) counts down a tic; one that runs out goes to its next state.
/// Then the flash sprite takes the weapon sprite's offset. Only weapon
/// sprite changes are requested.
pub fn p_move_psprites<C: PsprContext>(player: &mut Player, ctx: &mut C, rng: &mut DoomRandom)
    ensures
        final(player).psprites[1].sx == final(player).psprites[0].sx,
        final(player).psprites[1].sy == final(player).psprites[0].sy,
        final(player).mobj == old(player).mobj,
        final(ctx).events().len() <= old(ctx).events().len() + 2,
        final(ctx).events().subrange(0, old(ctx).events().len() as int) == old(ctx).events(),
        forall|i: int| old(ctx).events().len() <= i < final(ctx).events().len() ==> (#[trigger] final(ctx).events()[i]) is SetPsprite,
        same_tables(*old(ctx), *final(ctx)),
{
    let ghost pre = *ctx;
    let ghost n = pre.events().len() as int;
    let mut i: usize = 0;
    while i < 2
        invariant
            0 <= i <= 2,
            player.mobj == old(player).mobj,
            same_tables(pre, *ctx),
            ctx.events().len() <= n + i,
            ctx.events().len() >= n,
            ctx.events().subrange(0, n) == pre.events(),
            n == pre.events().len(),
            forall|k: int| n <= k < ctx.events().len() ==> (#[trigger] ctx.events()[k]) is SetPsprite,
        decreases 2 - i,
    {
        let d = player.psprites[i];
        if let Some(st) = d.state {
            if d.tics != -1 {
                let tics = d.tics.wrapping_sub(1);
                set_psp(player, i, PspDef { tics, ..d });
                if tics <= 0 {
                    let next = ctx.next_state(st);
                    let ghost before = ctx.events();
                    ctx.p_set_psprite(player, i, next, rng);
                    assert(ctx.events().subrange(0, n) =~= before.subrange(0, n));
                }
            }
        }
        i = i + 1;
    }
    let w = player.psprites[0];
    let f = PspDef { sx: w.sx, sy: w.sy, ..player.psprites[1] };
    player.psprites = [w, f];
}

/// A BFG flash at the thing hit: a fourth of its height up.
pub open spec fn bfg_flash_spot(t: MapObject) -> (Fixed, Fixed, Fixed) {
    (t.x, t.y, Fixed(t.z.0.wrapping_add(t.height.0 >> 2i32)))
}

/// The damage of a BFG ray: fifteen numbers drawn from `r`, each cut to 1
/// to 8 (the first `j` of them for `damage_sum(r, j)`).
pub open spec fn damage_sum(r: DoomRandom, j: nat) -> int
    decreases j,
{
    if j == 0 {
        0
    } else {
        damage_sum(r, (j - 1) as nat) + (advanced_by(r, (j - 1) as nat).next_p() & 7u8) + 1
    }
}

proof fn lemma_advanced_by_last(r: DoomRandom, n: nat)
    ensures
        advanced_by(r, n + 1) == advanced_by(r, n).advanced(),
    decreases n,
{
    if n > 0 {
        lemma_advanced_by_last(r.advanced(), (n - 1) as nat);
        assert(advanced_by(r, n + 1) == advanced_by(r.advanced(), n));
        assert(advanced_by(r, n) == advanced_by(r.advanced(), (n - 1) as nat));
    } else {
        assert(advanced_by(r.advanced(), 0) == r.advanced());
        assert(advanced_by(r, 1) == advanced_by(r.advanced(), 0));
    }
}

/// `e` is `k` BFG rays by shooter `src`, the random stream going from `r`
/// to `rf`: each ray an aim over auto-aim reach; one that finds a thing
/// `t` then a BFG flash and damage to `t` from the shooter of the next
/// fifteen numbers ([`damage_sum`]).
pub open spec fn bfg_rays(e: Seq<PsprEvent>, src: usize, r: DoomRandom, rf: DoomRandom, k: nat) -> bool
    decreases k,
{
    if k == 0 {
        e.len() == 0 && rf == r
    } else {
        &&& e.len() >= 1
        &&& e[0] matches PsprEvent::Aim { source, range, .. } && source == src && range == Fixed(AUTOAIM)
        &&& match e[0]->Aim_target {
            None => bfg_rays(e.drop_first(), src, r, rf, (k - 1) as nat),
            Some(t) => {
                &&& e.len() >= 3
                &&& e[1] matches PsprEvent::SpawnMobj { mtype, .. } && mtype == MT_EXTRABFG
                &&& e[2] == (PsprEvent::Damage { victim: t, inflictor: Some(src), by: Some(src), damage: damage_sum(r, 15) as i32 })
                &&& bfg_rays(e.subrange(3, e.len() as int), src, advanced_by(r, 15), rf, (k - 1) as nat)
            },
        }
    }
}

/// Rays `a` followed by one more ray `b` are `k + 1` rays.
proof fn lemma_bfg_rays_push(a: Seq<PsprEvent>, b: Seq<PsprEvent>, src: usize, r: DoomRandom, r1: DoomRandom, r2: DoomRandom, k: nat)
    requires
        bfg_rays(a, src, r, r1, k),
        bfg_rays(b, src, r1, r2, 1),
    ensures
        bfg_rays(a + b, src, r, r2, k + 1),
    decreases k,
{
    if k == 0 {
        assert(a + b =~= b);
    } else {
        match a[0]->Aim_target {
            None => {
                lemma_bfg_rays_push(a.drop_first(), b, src, r, r1, r2, (k - 1) as nat);
                assert((a + b).drop_first() =~= a.drop_first() + b);
            },
            Some(t) => {
                lemma_bfg_rays_push(a.subrange(3, a.len() as int), b, src, advanced_by(r, 15), r1, r2, (k - 1) as nat);
                assert((a + b).subrange(3, (a + b).len() as int) =~= a.subrange(3, a.len() as int) + b);
            },
        }
    }
}

/// `A_BFGSpray`: the BFG ball `mo_idx` explodes for its shooter (none
/// without one): 40 aims at auto-aim reach fanned over a quarter turn
/// around the shooter's facing; each thing found gets a BFG flash on it
/// and damage from the shooter of fifteen random values of 1 to 8.
pub fn a_bfg_spray<C: PsprContext>(mo_idx: usize, ctx: &mut C, rng: &mut DoomRandom)
    requires
        mo_idx < old(ctx).mobjs_view().len(),
        old(ctx).mobjs_view()[mo_idx as int].target matches Some(s) ==> s < old(ctx).mobjs_view().len(),
    ensures
        same_tables(*old(ctx), *final(ctx)),
        final(ctx).psprite_players() == old(ctx).psprite_players(),
        final(ctx).events().subrange(0, old(ctx).events().len() as int) == old(ctx).events(),
        ({
            let n = old(ctx).events().len() as int;
            let e = final(ctx).events();
            match old(ctx).mobjs_view()[mo_idx as int].target {
                None => e == old(ctx).events() && *final(rng) == *old(rng),
                Some(src) => bfg_rays(e.subrange(n, e.len() as int), src, *old(rng), *final(rng), 40) && forall|i: int| n <= i < e.len() ==> {
                    ||| (#[trigger] e[i] matches PsprEvent::Aim { source, range, .. } && source == src && range == Fixed(AUTOAIM))
                    ||| (e[i] matches PsprEvent::SpawnMobj { mtype, .. } && mtype == MT_EXTRABFG)
                    ||| (e[i] matches PsprEvent::Damage { inflictor, by, damage, .. } && inflictor == Some(src) && by == Some(src)
                        && 15 <= damage <= 120)
                },
            }
        }),
{
    let ghost pre = *ctx;
    let ghost n = pre.events().len() as int;
    let src = match ctx.mobjs()[mo_idx].target {
        Some(s) => s,
        None => return,
    };
    let ghost r0 = *rng;
    let mut i: u32 = 0;
    proof {
        assert(ctx.events().subrange(n, ctx.events().len() as int) =~= Seq::<PsprEvent>::empty());
    }
    while i < 40
        invariant
            src < ctx.mobjs_view().len(),
            same_tables(pre, *ctx),
            ctx.psprite_players() == pre.psprite_players(),
            ctx.events().len() >= n,
            ctx.events().subrange(0, n) == pre.events(),
            n == pre.events().len(),
            i <= 40,
            bfg_rays(ctx.events().subrange(n, ctx.events().len() as int), src, r0, *rng, i as nat),
            forall|k: int| n <= k < ctx.events().len() ==> {
                ||| (#[trigger] ctx.events()[k] matches PsprEvent::Aim { source, range, .. } && source == src && range == Fixed(AUTOAIM))
                ||| (ctx.events()[k] matches PsprEvent::SpawnMobj { mtype, .. } && mtype == MT_EXTRABFG)
                ||| (ctx.events()[k] matches PsprEvent::Damage { inflictor, by, damage, .. } && inflictor == Some(src) && by == Some(src)
                    && 15 <= damage <= 120)
            },
        decreases 40 - i,
    {
        let a = ctx.mobjs()[src].angle.0;
        let an = Angle(a.wrapping_sub(0x2000_0000).wrapping_add(26843545u32.wrapping_mul(i)));
        let ghost e0 = ctx.events();
        let ghost rs = *rng;
        let (_slope, found) = ctx.p_aim_line_attack(src, an, Fixed(AUTOAIM));
        if let Some(t) = found {
            let tg = ctx.mobjs()[t];
            ctx.p_spawn_mobj(tg.x, tg.y, Fixed(tg.z.0.wrapping_add(tg.height.0 >> 2i32)), MT_EXTRABFG);
            let mut damage: i32 = 0;
            let mut j: u32 = 0;
            while j < 15
                invariant
                    j <= 15,
                    j <= damage <= 8 * j,
                    damage == damage_sum(rs, j as nat),
                    *rng == advanced_by(rs, j as nat),
                decreases 15 - j,
            {
                proof {
                    lemma_advanced_by_last(rs, j as nat);
                }
                let r = rng.p_random();
                let bits = r & 7;
                assert(r & 7 <= 7) by (bit_vector);
                damage = damage + bits as i32 + 1;
                j = j + 1;
            }
            ctx.p_damage_mobj(t, Some(src), Some(src), damage);
        }
        proof {
            assert(ctx.events().subrange(0, n) =~= e0.subrange(0, n));
            let b = ctx.events().subrange(e0.len() as int, ctx.events().len() as int);
            if found is Some {
                assert(b.subrange(3, b.len() as int) =~= Seq::<PsprEvent>::empty());
            } else {
                assert(b.drop_first() =~= Seq::<PsprEvent>::empty());
            }
            reveal_with_fuel(bfg_rays, 2);
            assert(bfg_rays(b, src, rs, *rng, 1));
            lemma_bfg_rays_push(e0.subrange(n, e0.len() as int), b, src, r0, rs, *rng, i as nat);
            assert(ctx.events().subrange(n, ctx.events().len() as int) =~= e0.subrange(n, e0.len() as int) + b);
        }
        i = i + 1;
    }
}

/// `A_WeaponReady`: the weapon at rest. A body in an attack state goes
/// back to standing; a ready chainsaw idles noisily. With a weapon
/// pending or the player dead, the weapon goes down. With the trigger
/// pressed (and, for the rocket launcher and the BFG, newly pressed) the
/// player fires ([`p_fire_weapon`]). Otherwise the trigger counts as
/// released when it is, and the weapon sprite bobs with the view.
pub fn a_weapon_ready<C: PsprContext>(player: &mut Player, psp_idx: usize, ctx: &mut C, rng: &mut DoomRandom)
    requires
        psp_idx < 2,
        old(player).readyweapon != WeaponType::NoChange,
        body_ok(*old(ctx), *old(player)),
    ensures
        same_tables(*old(ctx), *final(ctx)),
        final(ctx).events().len() >= old(ctx).events().len(),
        final(ctx).events().subrange(0, old(ctx).events().len() as int) == old(ctx).events(),
        ({
            let p = *old(player);
            let pre = *old(ctx);
            let fires = (p.buttons & BT_ATTACK) != 0
                && (p.attackdown == 0 || (p.readyweapon != WeaponType::Missile && p.readyweapon != WeaponType::Bfg));
            let t = (128usize.wrapping_mul(pre.leveltime_view() as usize) & 8191usize) as usize;
            let d = p.psprites[psp_idx as int];
            let bobbed = PspDef {
                sx: Fixed(FRACUNIT.wrapping_add(fixed_mul_spec(p.bob.0, pre.sine_view((t + 2048) as usize).0))),
                sy: Fixed(WEAPONTOP.wrapping_add(fixed_mul_spec(p.bob.0, pre.sine_view((t & 4095usize) as usize).0))),
                ..d
            };
            (p.pendingweapon == WeaponType::NoChange && p.health > 0 && !fires) ==>
                with_psp(*final(player), Player { attackdown: if (p.buttons & BT_ATTACK) != 0 { p.attackdown } else { 0 }, ..p },
                    psp_idx as int, bobbed)
        }),
{
    let ghost pre = *ctx;
    let ghost n = pre.events().len() as int;
    if let Some(mo) = player.mobj {
        let st = ctx.mobjs()[mo].state;
        if st == Some(S_PLAY_ATK1) || st == Some(S_PLAY_ATK2) {
            ctx.p_set_mobj_state(mo, S_PLAY);
        }
    }
    if player.readyweapon == WeaponType::Chainsaw && player.psprites[psp_idx].state == Some(S_SAW) {
        if let Some(mo) = player.mobj {
            ctx.s_start_sound(Some(mo), SfxEnum::sfx_sawidl);
        }
    }
    assert(ctx.events().subrange(0, n) =~= pre.events());
    let ghost e1 = ctx.events();
    if player.pendingweapon != WeaponType::NoChange || player.health <= 0 {
        let down = ctx.weapon_info(player.readyweapon).downstate;
        ctx.p_set_psprite(player, PS_WEAPON, down, rng);
        assert(ctx.events().subrange(0, n) =~= e1.subrange(0, n));
        return;
    }
    if (player.buttons & BT_ATTACK) != 0 {
        if player.attackdown == 0 || (player.readyweapon != WeaponType::Missile && player.readyweapon != WeaponType::Bfg) {
            player.attackdown = 1;
            p_fire_weapon(player, ctx, rng);
            proof {
                let e = ctx.events();
                if has_ammo(*old(ctx), *player) || true {
                    assert(e.subrange(0, n) =~= e.subrange(0, e1.len() as int).subrange(0, n)) by {
                        assert(e.len() >= e1.len());
                        assert(e.subrange(0, e1.len() as int) =~= e1);
                    }
                }
            }
            return;
        }
    } else {
        player.attackdown = 0;
    }
    let lt = ctx.level_time();
    let m = 128usize.wrapping_mul(lt as usize);
    let t = m & 8191usize;
    assert(m & 8191usize <= 8191usize) by (bit_vector);
    let t2 = t & 4095usize;
    assert(t & 4095usize <= t) by (bit_vector);
    let d = player.psprites[psp_idx];
    let cos = ctx.fine_sine(t + 2048);
    let sin = ctx.fine_sine(t2);
    let nd = PspDef {
        sx: Fixed(FRACUNIT.wrapping_add(player.bob.fixed_mul(cos).0)),
        sy: Fixed(WEAPONTOP.wrapping_add(player.bob.fixed_mul(sin).0)),
        ..d
    };
    set_psp(player, psp_idx, nd);
}


// ---------------------------------------------------------------------------
// The weapon-sprite state walk
// ---------------------------------------------------------------------------

/// Sprite `d` on entering state `s` (entry `st`): its state and tics, and
/// its screen offset from the misc values when the first is not 0.
pub open spec fn psp_entered(d: PspDef, s: usize, st: PspState) -> PspDef {
    if st.misc1 != 0 {
        PspDef {
            state: Some(s),
            tics: st.tics,
            sx: Fixed(((st.misc1 as u32) << 16u32) as i32),
            sy: Fixed(((st.misc2 as u32) << 16u32) as i32),
        }
    } else {
        PspDef { state: Some(s), tics: st.tics, ..d }
    }
}

/// One state of the walk, from player `p` and engine `c` entering state
/// `s` (not [`S_NULL`]), to `p2` and `c2`: the sprite enters the state
/// ([`psp_entered`]), and when the state has an action the engine runs it
/// on the player so set.
pub open spec fn psp_step<C: PsprContext>(p: Player, c: C, s: usize, p2: Player, c2: C, position: usize) -> bool {
    let st = c.psp_state_view(s);
    let d = psp_entered(p.psprites@[position as int], s, st);
    &&& s != S_NULL
    &&& if st.action == ActionFnId::NoAction {
        with_psp(p2, p, position as int, d) && c2 == c
    } else {
        &&& forall|t: usize| #[trigger] c2.psp_state_view(t) == c.psp_state_view(t)
        &&& c2.events() == c.events().push(PsprEvent::Action { position, action: st.action })
        &&& c2.psprite_players().len() == c.psprite_players().len() + 1
        &&& c2.psprite_players().subrange(0, c.psprite_players().len() as int) == c.psprite_players()
        &&& with_psp(c2.psprite_players().last(), p, position as int, d)
    }
}

/// After a step leaving `p2`, the walk goes on: the sprite still has a
/// state and no tics.
pub open spec fn psp_goes_on(p2: Player, position: usize) -> bool {
    p2.psprites@[position as int].state is Some && p2.psprites@[position as int].tics == 0
}

/// The state the walk enters next from `p2` (in engine `c2`): the one after
/// the sprite's current state.
pub open spec fn psp_next<C: PsprContext>(p2: Player, c2: C, position: usize) -> usize {
    c2.psp_state_view(p2.psprites@[position as int].state->0).nextstate
}

/// `P_SetPsprite`'s walk from player `ps[0]`, engine `cs[0]`, state
/// `sts[0]`: `n` steps that went on ([`psp_step`], [`psp_goes_on`], each
/// entering [`psp_next`]), then the last one, ending in `pf` and `cf`:
/// [`S_NULL`] turns the sprite off; otherwise a step whose sprite lost its
/// state or has tics stops it; after [`NUMSTATES`] states it stops.
pub open spec fn psp_walk<C: PsprContext>(ps: Seq<Player>, cs: Seq<C>, sts: Seq<usize>, n: int, pf: Player, cf: C, position: usize) -> bool {
    &&& ps.len() == n + 1 && cs.len() == n + 1 && sts.len() == n + 1
    &&& 0 <= n <= NUMSTATES
    &&& forall|i: int| #![trigger sts[i]] 0 <= i < n ==> {
        &&& psp_step(ps[i], cs[i], sts[i], ps[i + 1], cs[i + 1], position)
        &&& psp_goes_on(ps[i + 1], position)
        &&& sts[i + 1] == psp_next(ps[i + 1], cs[i + 1], position)
    }
    &&& if n == NUMSTATES {
        pf == ps[n] && cf == cs[n]
    } else if sts[n] == S_NULL {
        with_psp(pf, ps[n], position as int, PspDef { state: None, ..ps[n].psprites@[position as int] }) && cf == cs[n]
    } else {
        psp_step(ps[n], cs[n], sts[n], pf, cf, position) && !psp_goes_on(pf, position)
    }
}

/// One state of the walk: see [`psp_step`].
fn psp_run_state<C: PsprContext>(player: &mut Player, position: usize, s: usize, ctx: &mut C, rng: &mut DoomRandom)
    requires
        position < 2,
        s != S_NULL,
    ensures
        psp_step(*old(player), *old(ctx), s, *final(player), *final(ctx), position),
{
    let st = ctx.psp_state(s);
    let d = if st.misc1 != 0 {
        PspDef {
            state: Some(s),
            tics: st.tics,
            sx: Fixed(((st.misc1 as u32) << 16u32) as i32),
            sy: Fixed(((st.misc2 as u32) << 16u32) as i32),
        }
    } else {
        PspDef { state: Some(s), tics: st.tics, ..player.psprites[position] }
    };
    assert(d == psp_entered(old(player).psprites@[position as int], s, st));
    set_psp(player, position, d);
    if st.action != ActionFnId::NoAction {
        let ghost q = *player;
        ctx.psprite_action(player, position, st.action, rng);
        assert(ctx.psprite_players().last() == q);
        assert(ctx.psprite_players().subrange(0, old(ctx).psprite_players().len() as int) =~= old(ctx).psprite_players());
    }
}

/// `P_SetPsprite`: weapon sprite `position` of the player runs through the
/// state table from state `stnum` ([`psp_walk`]): [`S_NULL`] turns it off;
/// otherwise it enters the state (tics, and a screen offset from the
/// state's misc values), the engine runs the state's action, and while the
/// sprite then still has a state and no tics it goes on to the next state.
/// A walk through [`NUMSTATES`] states (a zero-tic cycle, on which it
/// would never stop) ends there.
pub fn p_set_psprite<C: PsprContext>(player: &mut Player, position: usize, stnum: usize, ctx: &mut C, rng: &mut DoomRandom)
    requires
        position < 2,
    ensures
        exists|ps: Seq<Player>, cs: Seq<C>, sts: Seq<usize>, n: int|
            #[trigger] psp_walk(ps, cs, sts, n, *final(player), *final(ctx), position) && ps[0] == *old(player) && cs[0] == *old(ctx)
                && sts[0] == stnum,
{
    let ghost mut ps: Seq<Player> = seq![*player];
    let ghost mut cs: Seq<C> = seq![*ctx];
    let ghost mut sts: Seq<usize> = seq![stnum];
    let mut s = stnum;
    let mut count: usize = 0;
    while count < NUMSTATES
        invariant
            position < 2,
            count <= NUMSTATES,
            ps.len() == count + 1 && cs.len() == count + 1 && sts.len() == count + 1,
            ps[0] == *old(player) && cs[0] == *old(ctx) && sts[0] == stnum,
            ps[count as int] == *player && cs[count as int] == *ctx && sts[count as int] == s,
            forall|i: int| #![trigger sts[i]] 0 <= i < count ==> {
                &&& psp_step(ps[i], cs[i], sts[i], ps[i + 1], cs[i + 1], position)
                &&& psp_goes_on(ps[i + 1], position)
                &&& sts[i + 1] == psp_next(ps[i + 1], cs[i + 1], position)
            },
        decreases NUMSTATES - count,
    {
        let ghost p0 = *player;
        let ghost c0 = *ctx;
        if s == S_NULL {
            let d = PspDef { state: None, ..player.psprites[position] };
            set_psp(player, position, d);
            assert(psp_walk(ps, cs, sts, count as int, *player, *ctx, position));
            return;
        }
        psp_run_state(player, position, s, ctx, rng);
        let cur = player.psprites[position];
        match cur.state {
            None => {
                assert(psp_walk(ps, cs, sts, count as int, *player, *ctx, position));
                return;
            },
            Some(idx) => {
                if cur.tics != 0 {
                    assert(psp_walk(ps, cs, sts, count as int, *player, *ctx, position));
                    return;
                }
                s = ctx.psp_state(idx).nextstate;
            },
        }
        proof {
            let ps0 = ps;
            let cs0 = cs;
            let sts0 = sts;
            ps = ps.push(*player);
            cs = cs.push(*ctx);
            sts = sts.push(s);
            assert forall|i: int| #![trigger sts[i]] 0 <= i < count + 1 implies {
                &&& psp_step(ps[i], cs[i], sts[i], ps[i + 1], cs[i + 1], position)
                &&& psp_goes_on(ps[i + 1], position)
                &&& sts[i + 1] == psp_next(ps[i + 1], cs[i + 1], position)
            } by {
                if i < count {
                    assert(ps[i] == ps0[i] && ps[i + 1] == ps0[i + 1] && cs[i] == cs0[i] && cs[i + 1] == cs0[i + 1] && sts[i] == sts0[i] && sts[i + 1] == sts0[i + 1]);
                }
            }
        }
        count = count + 1;
    }
    assert(psp_walk(ps, cs, sts, count as int, *player, *ctx, position));
}

} // verus!
