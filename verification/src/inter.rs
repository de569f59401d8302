//! Interactions between things: pickups, damage and kills.

use vstd::prelude::*;
use crate::enemy::{GameMode, MT_SKULL, MT_VILE, S_NULL};
use crate::movement::same_but_links;
use crate::fixed::{fixed_mul_spec, Fixed, FRACUNIT};
use crate::random::DoomRandom;
use crate::types::{
    Angle, MapObject, SfxEnum, MF_CORPSE, MF_COUNTITEM, MF_COUNTKILL, MF_DROPOFF, MF_DROPPED, MF_FLOAT,
    MF_JUSTHIT, MF_NOCLIP, MF_NOGRAVITY, MF_SHADOW, MF_SHOOTABLE, MF_SKULLFLY, MF_SOLID,
};

verus! {

/// Bonus flash frames added per pickup.
pub const BONUSADD: i32 = 6;

/// Health that health pickups raise a player to.
pub const MAXHEALTH: i32 = 100;

/// Tics a monster keeps chasing the thing that hurt it.
pub const BASETHRESHOLD: i32 = 100;

/// Tics of invulnerability given by the sphere.
pub const INVULNTICS: i32 = 1050;

/// Tics of partial invisibility.
pub const INVISTICS: i32 = 2100;

/// Tics of light amplification.
pub const INFRATICS: i32 = 4200;

/// Tics of radiation shielding.
pub const IRONTICS: i32 = 2100;

/// Number of ammunition kinds.
pub const NUMAMMO: usize = 4;

/// Number of weapons.
pub const NUMWEAPONS: usize = 9;

/// Number of power-up kinds.
pub const NUMPOWERS: usize = 6;

/// Number of key cards and skulls.
pub const NUMCARDS: usize = 6;

/// Most players in a game.
pub const MAXPLAYERS: usize = 4;

/// Cheat bit: no damage below 1000.
pub const CF_GODMODE: i32 = 2;

/// Maximum ammunition per kind before a backpack doubles it.
pub const MAXAMMO: [i32; 4] = [200, 50, 300, 50];

/// Ammunition in one clip of each kind.
pub const CLIPAMMO: [i32; 4] = [10, 4, 20, 1];

/// Kinds of ammunition.
#[derive(Clone, Copy, Debug, PartialEq, Eq, Structural)]
pub enum AmmoType {
    Clip,
    Shell,
    Cell,
    Missile,
    NoAmmo,
}

/// Weapons, in slot order.
#[derive(Clone, Copy, Debug, PartialEq, Eq, Structural)]
pub enum WeaponType {
    Fist,
    Pistol,
    Shotgun,
    Chaingun,
    Missile,
    Plasma,
    Bfg,
    Chainsaw,
    SuperShotgun,
    NoChange,
}

/// Power-ups, in slot order.
#[derive(Clone, Copy, Debug, PartialEq, Eq, Structural)]
pub enum PowerType {
    Invulnerability,
    Strength,
    Invisibility,
    IronFeet,
    AllMap,
    InfraRed,
}

/// Keys, in slot order.
#[derive(Clone, Copy, Debug, PartialEq, Eq, Structural)]
pub enum Card {
    BlueCard,
    YellowCard,
    RedCard,
    BlueSkull,
    YellowSkull,
    RedSkull,
}

/// Skill levels.
#[derive(Clone, Copy, Debug, PartialEq, Eq, Structural)]
pub enum Skill {
    Baby,
    Easy,
    Medium,
    Hard,
    Nightmare,
}

/// Whether a player is playing, dead, or waiting to respawn.
#[derive(Clone, Copy, Debug, PartialEq, Eq, Structural)]
pub enum PlayerState {
    Live,
    Dead,
    Reborn,
}

/// The slot of an ammunition kind (`NUMAMMO` for none).
pub open spec fn ammo_slot(a: AmmoType) -> int {
    match a {
        AmmoType::Clip => 0,
        AmmoType::Shell => 1,
        AmmoType::Cell => 2,
        AmmoType::Missile => 3,
        AmmoType::NoAmmo => 4,
    }
}

/// The slot of a weapon (`NUMWEAPONS` for no change).
pub open spec fn weapon_slot(w: WeaponType) -> int {
    match w {
        WeaponType::Fist => 0,
        WeaponType::Pistol => 1,
        WeaponType::Shotgun => 2,
        WeaponType::Chaingun => 3,
        WeaponType::Missile => 4,
        WeaponType::Plasma => 5,
        WeaponType::Bfg => 6,
        WeaponType::Chainsaw => 7,
        WeaponType::SuperShotgun => 8,
        WeaponType::NoChange => 9,
    }
}

/// The slot of a power-up.
pub open spec fn power_slot(p: PowerType) -> int {
    match p {
        PowerType::Invulnerability => 0,
        PowerType::Strength => 1,
        PowerType::Invisibility => 2,
        PowerType::IronFeet => 3,
        PowerType::AllMap => 4,
        PowerType::InfraRed => 5,
    }
}

/// The slot of a key.
pub open spec fn card_slot(c: Card) -> int {
    match c {
        Card::BlueCard => 0,
        Card::YellowCard => 1,
        Card::RedCard => 2,
        Card::BlueSkull => 3,
        Card::YellowSkull => 4,
        Card::RedSkull => 5,
    }
}

/// The ammunition a weapon uses.
pub open spec fn weapon_ammo(w: WeaponType) -> AmmoType {
    match w {
        WeaponType::Pistol | WeaponType::Chaingun => AmmoType::Clip,
        WeaponType::Shotgun | WeaponType::SuperShotgun => AmmoType::Shell,
        WeaponType::Plasma | WeaponType::Bfg => AmmoType::Cell,
        WeaponType::Missile => AmmoType::Missile,
        _ => AmmoType::NoAmmo,
    }
}

/// Ammunition in one clip of a kind.
pub open spec fn clip_ammo(slot: int) -> int {
    if slot == 0 {
        10
    } else if slot == 1 {
        4
    } else if slot == 2 {
        20
    } else {
        1
    }
}

impl AmmoType {
    /// The slot of this ammunition kind.
    pub fn slot(self) -> (r: usize)
        ensures
            r == ammo_slot(self),
    {
        match self {
            AmmoType::Clip => 0,
            AmmoType::Shell => 1,
            AmmoType::Cell => 2,
            AmmoType::Missile => 3,
            AmmoType::NoAmmo => 4,
        }
    }
}

impl WeaponType {
    /// The slot of this weapon.
    pub fn slot(self) -> (r: usize)
        ensures
            r == weapon_slot(self),
    {
        match self {
            WeaponType::Fist => 0,
            WeaponType::Pistol => 1,
            WeaponType::Shotgun => 2,
            WeaponType::Chaingun => 3,
            WeaponType::Missile => 4,
            WeaponType::Plasma => 5,
            WeaponType::Bfg => 6,
            WeaponType::Chainsaw => 7,
            WeaponType::SuperShotgun => 8,
            WeaponType::NoChange => 9,
        }
    }

    /// The ammunition this weapon uses.
    pub fn ammo(self) -> (r: AmmoType)
        ensures
            r == weapon_ammo(self),
    {
        match self {
            WeaponType::Pistol | WeaponType::Chaingun => AmmoType::Clip,
            WeaponType::Shotgun | WeaponType::SuperShotgun => AmmoType::Shell,
            WeaponType::Plasma | WeaponType::Bfg => AmmoType::Cell,
            WeaponType::Missile => AmmoType::Missile,
            _ => AmmoType::NoAmmo,
        }
    }
}

impl PowerType {
    /// The slot of this power-up.
    pub fn slot(self) -> (r: usize)
        ensures
            r == power_slot(self),
    {
        match self {
            PowerType::Invulnerability => 0,
            PowerType::Strength => 1,
            PowerType::Invisibility => 2,
            PowerType::IronFeet => 3,
            PowerType::AllMap => 4,
            PowerType::InfraRed => 5,
        }
    }
}

impl Card {
    /// The slot of this key.
    pub fn slot(self) -> (r: usize)
        ensures
            r == card_slot(self),
    {
        match self {
            Card::BlueCard => 0,
            Card::YellowCard => 1,
            Card::RedCard => 2,
            Card::BlueSkull => 3,
            Card::YellowSkull => 4,
            Card::RedSkull => 5,
        }
    }
}

/// What the interaction code reads and writes of a player.
#[derive(Clone, Copy, Debug)]
pub struct Player {
    pub health: i32,
    pub armorpoints: i32,
    /// 0 = none, 1 = green, 2 = blue.
    pub armortype: i32,
    /// Tics left (or 1 for on) per power-up slot.
    pub powers: [i32; 6],
    pub cards: [bool; 6],
    pub backpack: bool,
    /// Kills of each other player (own slot: suicides, counted down).
    pub frags: [i32; 4],
    pub readyweapon: WeaponType,
    pub pendingweapon: WeaponType,
    pub weaponowned: [bool; 9],
    pub ammo: [i32; 4],
    pub maxammo: [i32; 4],
    pub cheats: i32,
    /// The last pickup message shown.
    pub message: Option<&'static str>,
    pub bonuscount: i32,
    pub damagecount: i32,
    pub killcount: i32,
    pub itemcount: i32,
    pub playerstate: PlayerState,
    /// The thing that last hurt the player.
    pub attacker: Option<usize>,
    /// Eye height above the floor, and its change per tic.
    pub viewheight: Fixed,
    pub deltaviewheight: Fixed,
    /// The movement command of this tic: forward and sideways.
    pub forwardmove: i8,
    pub sidemove: i8,
    /// The thing the player moves.
    pub mobj: Option<usize>,
    /// The weapon and muzzle-flash sprites.
    pub psprites: [PspDef; 2],
    /// Shots fired in a row with the trigger held.
    pub refire: i32,
    /// Whether the trigger was held last tic.
    pub attackdown: i32,
    /// The buttons of this tic's command.
    pub buttons: u8,
    /// Extra light of a muzzle flash.
    pub extralight: i32,
    /// The colour map forced by a power-up (0 for none).
    pub fixedcolormap: i32,
    /// How far the view bobs.
    pub bob: Fixed,
}

/// A player's weapon or flash sprite: its state (none when off), the tics
/// left in it and its offset on the screen.
#[derive(Clone, Copy, Debug, PartialEq, Eq, Structural)]
pub struct PspDef {
    pub state: Option<usize>,
    pub tics: i32,
    pub sx: Fixed,
    pub sy: Fixed,
}

/// The mathematical picture of a player: integers and sequences.
#[verifier::ext_equal]
pub struct PlayerView {
    pub health: int,
    pub armorpoints: int,
    pub armortype: int,
    pub powers: Seq<i32>,
    pub cards: Seq<bool>,
    pub backpack: bool,
    pub frags: Seq<i32>,
    pub readyweapon: WeaponType,
    pub pendingweapon: WeaponType,
    pub weaponowned: Seq<bool>,
    pub ammo: Seq<i32>,
    pub maxammo: Seq<i32>,
    pub cheats: i32,
    pub message: Option<&'static str>,
    pub bonuscount: int,
    pub damagecount: int,
    pub killcount: int,
    pub itemcount: int,
    pub playerstate: PlayerState,
    pub attacker: Option<usize>,
    pub viewheight: Fixed,
    pub deltaviewheight: Fixed,
    pub forwardmove: i8,
    pub sidemove: i8,
    pub mobj: Option<usize>,
    pub psprites: Seq<PspDef>,
    pub refire: i32,
    pub attackdown: i32,
    pub buttons: u8,
    pub extralight: i32,
    pub fixedcolormap: i32,
    pub bob: Fixed,
}

impl View for Player {
    type V = PlayerView;

    open spec fn view(&self) -> PlayerView {
        PlayerView {
            health: self.health as int,
            armorpoints: self.armorpoints as int,
            armortype: self.armortype as int,
            powers: self.powers@,
            cards: self.cards@,
            backpack: self.backpack,
            frags: self.frags@,
            readyweapon: self.readyweapon,
            pendingweapon: self.pendingweapon,
            weaponowned: self.weaponowned@,
            ammo: self.ammo@,
            maxammo: self.maxammo@,
            cheats: self.cheats,
            message: self.message,
            bonuscount: self.bonuscount as int,
            damagecount: self.damagecount as int,
            killcount: self.killcount as int,
            itemcount: self.itemcount as int,
            playerstate: self.playerstate,
            attacker: self.attacker,
            viewheight: self.viewheight,
            deltaviewheight: self.deltaviewheight,
            forwardmove: self.forwardmove,
            sidemove: self.sidemove,
            mobj: self.mobj,
            psprites: self.psprites@,
            refire: self.refire,
            attackdown: self.attackdown,
            buttons: self.buttons,
            extralight: self.extralight,
            fixedcolormap: self.fixedcolormap,
            bob: self.bob,
        }
    }
}

// ---------------------------------------------------------------------------
// Giving things to a player
// ---------------------------------------------------------------------------

/// The weapon a player switches to on getting ammunition of kind `a`
/// after having none of it.
pub open spec fn ammo_switch(p: PlayerView, a: AmmoType) -> WeaponType {
    match a {
        AmmoType::Clip => if p.readyweapon == WeaponType::Fist {
            if p.weaponowned[3] {
                WeaponType::Chaingun
            } else {
                WeaponType::Pistol
            }
        } else {
            p.pendingweapon
        },
        AmmoType::Shell => if (p.readyweapon == WeaponType::Fist || p.readyweapon == WeaponType::Pistol)
            && p.weaponowned[2] {
            WeaponType::Shotgun
        } else {
            p.pendingweapon
        },
        AmmoType::Cell => if (p.readyweapon == WeaponType::Fist || p.readyweapon == WeaponType::Pistol)
            && p.weaponowned[5] {
            WeaponType::Plasma
        } else {
            p.pendingweapon
        },
        AmmoType::Missile => if p.readyweapon == WeaponType::Fist && p.weaponowned[4] {
            WeaponType::Missile
        } else {
            p.pendingweapon
        },
        AmmoType::NoAmmo => p.pendingweapon,
    }
}

/// `P_GiveAmmo`: `num` clips of kind `a` (half a clip for `num == 0`),
/// doubled on the easiest and hardest skills, capped at the maximum;
/// refused (`false`, nothing changes) for no ammunition or a full supply.
/// A player who had none of the kind may switch weapon.
pub open spec fn give_ammo(p: PlayerView, a: AmmoType, num: int, skill: Skill) -> (PlayerView, bool) {
    let at = ammo_slot(a);
    if a == AmmoType::NoAmmo || p.ammo[at] >= p.maxammo[at] {
        (p, false)
    } else {
        let base = if num != 0 { num * clip_ammo(at) } else { clip_ammo(at) / 2 };
        let give = if skill == Skill::Baby || skill == Skill::Nightmare { base * 2 } else { base };
        let total = p.ammo[at] + give;
        let capped = if total > p.maxammo[at] { p.maxammo[at] as int } else { total };
        let p1 = PlayerView { ammo: p.ammo.update(at, capped as i32), ..p };
        if p.ammo[at] != 0 {
            (p1, true)
        } else {
            (PlayerView { pendingweapon: ammo_switch(p1, a), ..p1 }, true)
        }
    }
}

/// The player's arrays have their fixed lengths.
pub open spec fn player_shaped(p: PlayerView) -> bool {
    &&& p.powers.len() == NUMPOWERS
    &&& p.cards.len() == NUMCARDS
    &&& p.frags.len() == MAXPLAYERS
    &&& p.weaponowned.len() == NUMWEAPONS
    &&& p.ammo.len() == NUMAMMO
    &&& p.maxammo.len() == NUMAMMO
}

/// No counter of the player is so close to the top of `i32` that a
/// pickup could overflow it.
pub open spec fn player_fits(p: PlayerView) -> bool {
    &&& p.health <= i32::MAX - 200
    &&& p.armorpoints <= i32::MAX - 200
    &&& p.bonuscount <= i32::MAX - 2 * BONUSADD
    &&& p.itemcount < i32::MAX
    &&& forall|i: int| 0 <= i < NUMAMMO ==> #[trigger] p.ammo[i] <= i32::MAX - 200
    &&& forall|i: int| 0 <= i < NUMAMMO ==> i32::MIN / 2 <= #[trigger] p.maxammo[i] <= i32::MAX / 2
}

proof fn lemma_player_shaped(p: Player)
    ensures
        player_shaped(p@),
{
}

fn p_give_ammo(player: &mut Player, ammo_type: AmmoType, num: i32, gameskill: Skill) -> (r: bool)
    requires
        0 <= num <= 5,
        ammo_type != AmmoType::NoAmmo ==> old(player).ammo[ammo_slot(ammo_type)] <= i32::MAX - 200,
    ensures
        (final(player)@, r) == give_ammo(old(player)@, ammo_type, num as int, gameskill),
{
    if ammo_type == AmmoType::NoAmmo {
        return false;
    }
    let at = ammo_type.slot();
    if player.ammo[at] >= player.maxammo[at] {
        return false;
    }
    let clip = CLIPAMMO[at];
    assert(clip == clip_ammo(at as int));
    let mut give: i32 = if num != 0 { num * clip } else { clip / 2 };
    if gameskill == Skill::Baby || gameskill == Skill::Nightmare {
        give = give * 2;
    }
    let oldammo = player.ammo[at];
    player.ammo[at] = player.ammo[at] + give;
    if player.ammo[at] > player.maxammo[at] {
        player.ammo[at] = player.maxammo[at];
    }
    assert(player.ammo@ =~= give_ammo(old(player)@, ammo_type, num as int, gameskill).0.ammo);
    if oldammo != 0 {
        assert(player@ =~= give_ammo(old(player)@, ammo_type, num as int, gameskill).0);
        return true;
    }
    match ammo_type {
        AmmoType::Clip => {
            if player.readyweapon == WeaponType::Fist {
                if player.weaponowned[3] {
                    player.pendingweapon = WeaponType::Chaingun;
                } else {
                    player.pendingweapon = WeaponType::Pistol;
                }
            }
        },
        AmmoType::Shell => {
            if (player.readyweapon == WeaponType::Fist || player.readyweapon == WeaponType::Pistol)
                && player.weaponowned[2] {
                player.pendingweapon = WeaponType::Shotgun;
            }
        },
        AmmoType::Cell => {
            if (player.readyweapon == WeaponType::Fist || player.readyweapon == WeaponType::Pistol)
                && player.weaponowned[5] {
                player.pendingweapon = WeaponType::Plasma;
            }
        },
        AmmoType::Missile => {
            if player.readyweapon == WeaponType::Fist && player.weaponowned[4] {
                player.pendingweapon = WeaponType::Missile;
            }
        },
        AmmoType::NoAmmo => {},
    }
    assert(player@ =~= give_ammo(old(player)@, ammo_type, num as int, gameskill).0);
    true
}

/// `P_GiveWeapon`. In a cooperative or first-style deathmatch net game a
/// placed weapon is only taken once (five clips in deathmatch, two
/// otherwise) and left for the others (`false`); elsewhere the player
/// gets its ammunition (half a clip when it was dropped) and the weapon,
/// and accepts the pickup when either was new.
pub open spec fn give_weapon(p: PlayerView, w: WeaponType, dropped: bool, skill: Skill, netgame: bool, deathmatch: int) -> (PlayerView, bool) {
    let ws = weapon_slot(w);
    let a = weapon_ammo(w);
    if netgame && deathmatch != 2 && !dropped {
        if p.weaponowned[ws] {
            (p, false)
        } else {
            let p1 = PlayerView { bonuscount: p.bonuscount + BONUSADD, weaponowned: p.weaponowned.update(ws, true), ..p };
            let p2 = give_ammo(p1, a, if deathmatch != 0 { 5 } else { 2 }, skill).0;
            (PlayerView { pendingweapon: w, ..p2 }, false)
        }
    } else {
        let (p1, gave_ammo) = give_ammo(p, a, if dropped { 0 } else { 2 }, skill);
        if p1.weaponowned[ws] {
            (p1, gave_ammo)
        } else {
            (PlayerView { weaponowned: p1.weaponowned.update(ws, true), pendingweapon: w, ..p1 }, true)
        }
    }
}

fn p_give_weapon(player: &mut Player, weapon: WeaponType, dropped: bool, gameskill: Skill, netgame: bool, deathmatch: i32) -> (r: bool)
    requires
        weapon != WeaponType::NoChange,
        player_fits(old(player)@),
    ensures
        (final(player)@, r) == give_weapon(old(player)@, weapon, dropped, gameskill, netgame, deathmatch as int),
{
    let ws = weapon.slot();
    let ammo_type = weapon.ammo();
    proof {
        lemma_player_shaped(*player);
    }
    if netgame && deathmatch != 2 && !dropped {
        if player.weaponowned[ws] {
            return false;
        }
        player.bonuscount = player.bonuscount + BONUSADD;
        player.weaponowned[ws] = true;
        assert(player@ =~= PlayerView { bonuscount: old(player)@.bonuscount + BONUSADD, weaponowned: old(player)@.weaponowned.update(ws as int, true), ..old(player)@ });
        if deathmatch != 0 {
            p_give_ammo(player, ammo_type, 5, gameskill);
        } else {
            p_give_ammo(player, ammo_type, 2, gameskill);
        }
        player.pendingweapon = weapon;
        false
    } else {
        let gave_ammo = if dropped {
            p_give_ammo(player, ammo_type, 0, gameskill)
        } else {
            p_give_ammo(player, ammo_type, 2, gameskill)
        };
        if player.weaponowned[ws] {
            gave_ammo
        } else {
            let ghost mid = player@;
            player.weaponowned[ws] = true;
            player.pendingweapon = weapon;
            assert(player@ =~= PlayerView { weaponowned: mid.weaponowned.update(ws as int, true), pendingweapon: weapon, ..mid });
            true
        }
    }
}

/// `P_GiveBody`: health up by `num`, capped at [`MAXHEALTH`]; refused
/// when the player already has that much.
pub open spec fn give_body(p: PlayerView, num: int) -> (PlayerView, bool) {
    if p.health >= MAXHEALTH {
        (p, false)
    } else {
        let h = p.health + num;
        (PlayerView { health: if h > MAXHEALTH { MAXHEALTH as int } else { h }, ..p }, true)
    }
}

fn p_give_body(player: &mut Player, num: i32) -> (r: bool)
    requires
        0 <= num <= 100,
    ensures
        (final(player)@, r) == give_body(old(player)@, num as int),
{
    if player.health >= MAXHEALTH {
        return false;
    }
    player.health = player.health + num;
    if player.health > MAXHEALTH {
        player.health = MAXHEALTH;
    }
    assert(player@ =~= give_body(old(player)@, num as int).0);
    true
}

/// `P_GiveArmor`: armor of kind `armortype` at `100 * armortype` points;
/// refused when the player already has at least that many points.
pub open spec fn give_armor(p: PlayerView, armortype: int) -> (PlayerView, bool) {
    let hits = armortype * 100;
    if p.armorpoints >= hits {
        (p, false)
    } else {
        (PlayerView { armortype, armorpoints: hits, ..p }, true)
    }
}

fn p_give_armor(player: &mut Player, armortype: i32) -> (r: bool)
    requires
        1 <= armortype <= 2,
    ensures
        (final(player)@, r) == give_armor(old(player)@, armortype as int),
{
    let hits = armortype * 100;
    if player.armorpoints >= hits {
        return false;
    }
    player.armortype = armortype;
    player.armorpoints = hits;
    assert(player@ =~= give_armor(old(player)@, armortype as int).0);
    true
}

/// `P_GiveCard`: a key the player lacks is added, with a fresh pickup
/// flash; an owned key changes nothing.
pub open spec fn give_card(p: PlayerView, c: Card) -> PlayerView {
    if p.cards[card_slot(c)] {
        p
    } else {
        PlayerView { bonuscount: BONUSADD as int, cards: p.cards.update(card_slot(c), true), ..p }
    }
}

fn p_give_card(player: &mut Player, card: Card)
    ensures
        final(player)@ == give_card(old(player)@, card),
{
    let c = card.slot();
    if player.cards[c] {
        return;
    }
    player.bonuscount = BONUSADD;
    player.cards[c] = true;
    assert(player@ =~= give_card(old(player)@, card));
}

/// `P_GivePower`: the power's timer is set to its full duration; the
/// berserk pack also heals to [`MAXHEALTH`] and turns strength on; the
/// map is refused when already owned.
pub open spec fn give_power(p: PlayerView, power: PowerType) -> (PlayerView, bool) {
    let s = power_slot(power);
    match power {
        PowerType::Invulnerability => (PlayerView { powers: p.powers.update(s, INVULNTICS), ..p }, true),
        PowerType::Strength => {
            let p1 = give_body(p, 100).0;
            (PlayerView { powers: p1.powers.update(s, 1), ..p1 }, true)
        },
        PowerType::Invisibility => (PlayerView { powers: p.powers.update(s, INVISTICS), ..p }, true),
        PowerType::IronFeet => (PlayerView { powers: p.powers.update(s, IRONTICS), ..p }, true),
        PowerType::AllMap => if p.powers[s] != 0 {
            (p, false)
        } else {
            (PlayerView { powers: p.powers.update(s, 1), ..p }, true)
        },
        PowerType::InfraRed => (PlayerView { powers: p.powers.update(s, INFRATICS), ..p }, true),
    }
}

/// `P_GivePower`: gives `power` to the player; `false` only for a map the
/// player already has.
pub fn p_give_power(player: &mut Player, power: PowerType) -> (r: bool)
    ensures
        (final(player)@, r) == give_power(old(player)@, power),
{
    let s = power.slot();
    match power {
        PowerType::Invulnerability => {
            player.powers[s] = INVULNTICS;
        },
        PowerType::Strength => {
            p_give_body(player, 100);
            player.powers[s] = 1;
        },
        PowerType::Invisibility => {
            player.powers[s] = INVISTICS;
        },
        PowerType::IronFeet => {
            player.powers[s] = IRONTICS;
        },
        PowerType::AllMap => {
            if player.powers[s] != 0 {
                return false;
            }
            player.powers[s] = 1;
        },
        PowerType::InfraRed => {
            player.powers[s] = INFRATICS;
        },
    }
    assert(player@ =~= give_power(old(player)@, power).0);
    true
}

// ---------------------------------------------------------------------------
// Pickups
// ---------------------------------------------------------------------------

pub const GOTARMOR: &'static str = "Picked up the armor.";
pub const GOTMEGA: &'static str = "Picked up the MegaArmor!";
pub const GOTHTHBONUS: &'static str = "Picked up a health bonus.";
pub const GOTARMBONUS: &'static str = "Picked up an armor bonus.";
pub const GOTSTIM: &'static str = "Picked up a stimpack.";
pub const GOTMEDINEED: &'static str = "Picked up a medikit that you REALLY need!";
pub const GOTMEDIKIT: &'static str = "Picked up a medikit.";
pub const GOTSUPER: &'static str = "Supercharge!";
pub const GOTBLUECARD: &'static str = "Picked up a blue keycard.";
pub const GOTYELWCARD: &'static str = "Picked up a yellow keycard.";
pub const GOTREDCARD: &'static str = "Picked up a red keycard.";
pub const GOTBLUESKUL: &'static str = "Picked up a blue skull key.";
pub const GOTYELWSKUL: &'static str = "Picked up a yellow skull key.";
pub const GOTREDSKULL: &'static str = "Picked up a red skull key.";
pub const GOTINVUL: &'static str = "Invulnerability!";
pub const GOTBERSERK: &'static str = "Berserk!";
pub const GOTINVIS: &'static str = "Partial Invisibility";
pub const GOTSUIT: &'static str = "Radiation Shielding Suit";
pub const GOTMAP: &'static str = "Computer Area Map";
pub const GOTVISOR: &'static str = "Light Amplification Visor";
pub const GOTMSPHERE: &'static str = "MegaSphere!";
pub const GOTCLIP: &'static str = "Picked up a clip.";
pub const GOTCLIPBOX: &'static str = "Picked up a box of bullets.";
pub const GOTROCKET: &'static str = "Picked up a rocket.";
pub const GOTROCKBOX: &'static str = "Picked up a box of rockets.";
pub const GOTCELL: &'static str = "Picked up an energy cell.";
pub const GOTCELLBOX: &'static str = "Picked up an energy cell pack.";
pub const GOTSHELLS: &'static str = "Picked up 4 shotgun shells.";
pub const GOTSHELLBOX: &'static str = "Picked up a box of shotgun shells.";
pub const GOTBACKPACK: &'static str = "Picked up a backpack full of ammo!";
pub const GOTBFG9000: &'static str = "You got the BFG9000!  Oh, yes.";
pub const GOTCHAINGUN: &'static str = "You got the chaingun!";
pub const GOTCHAINSAW: &'static str = "A chainsaw!  Find some meat!";
pub const GOTLAUNCHER: &'static str = "You got the rocket launcher!";
pub const GOTPLASMA: &'static str = "You got the plasma gun!";
pub const GOTSHOTGUN: &'static str = "You got the shotgun!";
pub const GOTSHOTGUN2: &'static str = "You got the super shotgun!";

/// Sprites of the things a player can pick up.
pub const SPR_ARM1: i32 = 55;
pub const SPR_ARM2: i32 = 56;
pub const SPR_BON1: i32 = 60;
pub const SPR_BON2: i32 = 61;
pub const SPR_BKEY: i32 = 62;
pub const SPR_RKEY: i32 = 63;
pub const SPR_YKEY: i32 = 64;
pub const SPR_BSKU: i32 = 65;
pub const SPR_RSKU: i32 = 66;
pub const SPR_YSKU: i32 = 67;
pub const SPR_STIM: i32 = 68;
pub const SPR_MEDI: i32 = 69;
pub const SPR_SOUL: i32 = 70;
pub const SPR_PINV: i32 = 71;
pub const SPR_PSTR: i32 = 72;
pub const SPR_PINS: i32 = 73;
pub const SPR_MEGA: i32 = 74;
pub const SPR_SUIT: i32 = 75;
pub const SPR_PMAP: i32 = 76;
pub const SPR_PVIS: i32 = 77;
pub const SPR_CLIP: i32 = 78;
pub const SPR_AMMO: i32 = 79;
pub const SPR_ROCK: i32 = 80;
pub const SPR_BROK: i32 = 81;
pub const SPR_CELL: i32 = 82;
pub const SPR_CELP: i32 = 83;
pub const SPR_SHEL: i32 = 84;
pub const SPR_SBOX: i32 = 85;
pub const SPR_BPAK: i32 = 86;
pub const SPR_BFUG: i32 = 87;
pub const SPR_MGUN: i32 = 88;
pub const SPR_CSAW: i32 = 89;
pub const SPR_LAUN: i32 = 90;
pub const SPR_PLAS: i32 = 91;
pub const SPR_SHOT: i32 = 92;
pub const SPR_SGN2: i32 = 93;

/// The rules of the game being played.
#[derive(Clone, Copy, Debug, PartialEq, Eq, Structural)]
pub struct GameRules {
    pub skill: Skill,
    pub mode: GameMode,
    pub netgame: bool,
    pub deathmatch: i32,
    pub consoleplayer: usize,
}

/// What an accepted pickup does besides changing the player: the sound
/// played at the toucher, whether the item leaves the level, whether the
/// toucher's thing takes the player's new health, and whether it turns
/// shadowy.
#[derive(Clone, Copy, Debug, PartialEq, Eq, Structural)]
pub struct Pickup {
    pub sound: SfxEnum,
    pub remove: bool,
    pub sync_health: bool,
    pub shadow: bool,
}

/// The player with pickup message `m`.
pub open spec fn with_message(p: PlayerView, m: &'static str) -> PlayerView {
    PlayerView { message: Some(m), ..p }
}

/// A give that may be refused: accepted, it shows `m` and has effect `k`.
pub open spec fn accept(given: (PlayerView, bool), m: &'static str, k: Pickup) -> (PlayerView, Option<Pickup>) {
    if given.1 {
        (with_message(given.0, m), Some(k))
    } else {
        (given.0, None)
    }
}

/// A key pickup: the message only for a key the player lacked.
pub open spec fn key_pickup(p: PlayerView, c: Card, m: &'static str, k: Pickup) -> (PlayerView, Option<Pickup>) {
    let p1 = if p.cards[card_slot(c)] { p } else { with_message(p, m) };
    (give_card(p1, c), Some(k))
}

/// The backpack: doubled maximums (first backpack only) and a clip of
/// every kind.
pub open spec fn backpack(p: PlayerView, skill: Skill) -> PlayerView {
    let p0 = if !p.backpack {
        PlayerView { maxammo: p.maxammo.map_values(|v: i32| (v * 2) as i32), backpack: true, ..p }
    } else {
        p
    };
    let p1 = give_ammo(p0, AmmoType::Clip, 1, skill).0;
    let p2 = give_ammo(p1, AmmoType::Shell, 1, skill).0;
    let p3 = give_ammo(p2, AmmoType::Cell, 1, skill).0;
    give_ammo(p3, AmmoType::Missile, 1, skill).0
}

/// The player, and the pickup's effect (`None`: refused), when the player
/// touches an item drawn with `sprite`; `dropped` is whether a monster
/// dropped it.
#[verifier::opaque]
pub open spec fn pickup(p: PlayerView, sprite: i32, dropped: bool, rules: GameRules) -> (PlayerView, Option<Pickup>) {
    if sprite <= SPR_SOUL {
        pickup_health(p, sprite, rules)
    } else if sprite <= SPR_PVIS {
        pickup_power(p, sprite, rules)
    } else if sprite <= SPR_BPAK {
        pickup_ammo(p, sprite, dropped, rules)
    } else {
        pickup_weapon(p, sprite, dropped, rules)
    }
}

/// An ordinary item: the item sound, and the item leaves.
pub open spec fn item_pickup() -> Pickup {
    Pickup { sound: SfxEnum::sfx_itemup, remove: true, sync_health: false, shadow: false }
}

/// A power-up: the power-up sound, and the item leaves.
pub open spec fn power_pickup() -> Pickup {
    Pickup { sound: SfxEnum::sfx_getpow, ..item_pickup() }
}

/// Armor, health and keys.
pub open spec fn pickup_health(p: PlayerView, sprite: i32, rules: GameRules) -> (PlayerView, Option<Pickup>) {
    let item = item_pickup();
    let key = Pickup { remove: !rules.netgame, ..item };
    if sprite == SPR_ARM1 {
        accept(give_armor(p, 1), GOTARMOR, item)
    } else if sprite == SPR_ARM2 {
        accept(give_armor(p, 2), GOTMEGA, item)
    } else if sprite == SPR_BON1 {
        let h = if p.health + 1 > 200 { 200 } else { p.health + 1 };
        (with_message(PlayerView { health: h, ..p }, GOTHTHBONUS), Some(Pickup { sync_health: true, ..item }))
    } else if sprite == SPR_BON2 {
        let a = if p.armorpoints + 1 > 200 { 200 } else { p.armorpoints + 1 };
        let t = if p.armortype == 0 { 1 } else { p.armortype };
        (with_message(PlayerView { armorpoints: a, armortype: t, ..p }, GOTARMBONUS), Some(item))
    } else if sprite == SPR_SOUL {
        let h = if p.health + 100 > 200 { 200 } else { p.health + 100 };
        (with_message(PlayerView { health: h, ..p }, GOTSUPER), Some(Pickup { sync_health: true, ..power_pickup() }))
    } else if sprite == SPR_BKEY {
        key_pickup(p, Card::BlueCard, GOTBLUECARD, key)
    } else if sprite == SPR_YKEY {
        key_pickup(p, Card::YellowCard, GOTYELWCARD, key)
    } else if sprite == SPR_RKEY {
        key_pickup(p, Card::RedCard, GOTREDCARD, key)
    } else if sprite == SPR_BSKU {
        key_pickup(p, Card::BlueSkull, GOTBLUESKUL, key)
    } else if sprite == SPR_YSKU {
        key_pickup(p, Card::YellowSkull, GOTYELWSKUL, key)
    } else if sprite == SPR_RSKU {
        key_pickup(p, Card::RedSkull, GOTREDSKULL, key)
    } else if sprite == SPR_STIM {
        accept(give_body(p, 10), GOTSTIM, item)
    } else if sprite == SPR_MEDI {
        accept(give_body(p, 25), if p.health < 25 { GOTMEDINEED } else { GOTMEDIKIT }, item)
    } else {
        (p, None)
    }
}

/// Power-ups and the megasphere.
pub open spec fn pickup_power(p: PlayerView, sprite: i32, rules: GameRules) -> (PlayerView, Option<Pickup>) {
    let power = power_pickup();
    if sprite == SPR_PINV {
        accept(give_power(p, PowerType::Invulnerability), GOTINVUL, power)
    } else if sprite == SPR_PSTR {
        let p1 = with_message(give_power(p, PowerType::Strength).0, GOTBERSERK);
        let p2 = if p1.readyweapon != WeaponType::Fist { PlayerView { pendingweapon: WeaponType::Fist, ..p1 } } else { p1 };
        (p2, Some(power))
    } else if sprite == SPR_PINS {
        accept(give_power(p, PowerType::Invisibility), GOTINVIS, Pickup { shadow: true, ..power })
    } else if sprite == SPR_MEGA {
        if rules.mode != GameMode::Commercial {
            (p, None)
        } else {
            (with_message(PlayerView { health: 200, armorpoints: 200, armortype: 2, ..p }, GOTMSPHERE),
             Some(Pickup { sync_health: true, ..power }))
        }
    } else if sprite == SPR_SUIT {
        accept(give_power(p, PowerType::IronFeet), GOTSUIT, power)
    } else if sprite == SPR_PMAP {
        accept(give_power(p, PowerType::AllMap), GOTMAP, power)
    } else if sprite == SPR_PVIS {
        accept(give_power(p, PowerType::InfraRed), GOTVISOR, power)
    } else {
        (p, None)
    }
}

/// Ammunition and the backpack.
pub open spec fn pickup_ammo(p: PlayerView, sprite: i32, dropped: bool, rules: GameRules) -> (PlayerView, Option<Pickup>) {
    let item = item_pickup();
    let skill = rules.skill;
    if sprite == SPR_CLIP {
        accept(give_ammo(p, AmmoType::Clip, if dropped { 0 } else { 1 }, skill), GOTCLIP, item)
    } else if sprite == SPR_AMMO {
        accept(give_ammo(p, AmmoType::Clip, 5, skill), GOTCLIPBOX, item)
    } else if sprite == SPR_ROCK {
        accept(give_ammo(p, AmmoType::Missile, 1, skill), GOTROCKET, item)
    } else if sprite == SPR_BROK {
        accept(give_ammo(p, AmmoType::Missile, 5, skill), GOTROCKBOX, item)
    } else if sprite == SPR_CELL {
        accept(give_ammo(p, AmmoType::Cell, 1, skill), GOTCELL, item)
    } else if sprite == SPR_CELP {
        accept(give_ammo(p, AmmoType::Cell, 5, skill), GOTCELLBOX, item)
    } else if sprite == SPR_SHEL {
        accept(give_ammo(p, AmmoType::Shell, 1, skill), GOTSHELLS, item)
    } else if sprite == SPR_SBOX {
        accept(give_ammo(p, AmmoType::Shell, 5, skill), GOTSHELLBOX, item)
    } else if sprite == SPR_BPAK {
        (with_message(backpack(p, skill), GOTBACKPACK), Some(item))
    } else {
        (p, None)
    }
}

/// Weapons.
pub open spec fn pickup_weapon(p: PlayerView, sprite: i32, dropped: bool, rules: GameRules) -> (PlayerView, Option<Pickup>) {
    let weapon = Pickup { sound: SfxEnum::sfx_wpnup, ..item_pickup() };
    let skill = rules.skill;
    let dm = rules.deathmatch as int;
    if sprite == SPR_BFUG {
        accept(give_weapon(p, WeaponType::Bfg, dropped, skill, rules.netgame, dm), GOTBFG9000, weapon)
    } else if sprite == SPR_MGUN {
        accept(give_weapon(p, WeaponType::Chaingun, dropped, skill, rules.netgame, dm), GOTCHAINGUN, weapon)
    } else if sprite == SPR_CSAW {
        accept(give_weapon(p, WeaponType::Chainsaw, dropped, skill, rules.netgame, dm), GOTCHAINSAW, weapon)
    } else if sprite == SPR_LAUN {
        accept(give_weapon(p, WeaponType::Missile, dropped, skill, rules.netgame, dm), GOTLAUNCHER, weapon)
    } else if sprite == SPR_PLAS {
        accept(give_weapon(p, WeaponType::Plasma, dropped, skill, rules.netgame, dm), GOTPLASMA, weapon)
    } else if sprite == SPR_SHOT {
        accept(give_weapon(p, WeaponType::Shotgun, dropped, skill, rules.netgame, dm), GOTSHOTGUN, weapon)
    } else if sprite == SPR_SGN2 {
        accept(give_weapon(p, WeaponType::SuperShotgun, dropped, skill, rules.netgame, dm), GOTSHOTGUN2, weapon)
    } else {
        (p, None)
    }
}

fn give_key(player: &mut Player, card: Card, m: &'static str, k: Pickup) -> (r: Option<Pickup>)
    ensures
        (final(player)@, r) == key_pickup(old(player)@, card, m, k),
{
    if !player.cards[card.slot()] {
        player.message = Some(m);
    }
    p_give_card(player, card);
    Some(k)
}

fn give_weapon_pickup(player: &mut Player, w: WeaponType, dropped: bool, rules: GameRules, m: &'static str, k: Pickup) -> (r: Option<Pickup>)
    requires
        w != WeaponType::NoChange,
        player_fits(old(player)@),
    ensures
        (final(player)@, r) == accept(give_weapon(old(player)@, w, dropped, rules.skill, rules.netgame, rules.deathmatch as int), m, k),
{
    if !p_give_weapon(player, w, dropped, rules.skill, rules.netgame, rules.deathmatch) {
        return None;
    }
    player.message = Some(m);
    Some(k)
}

fn give_ammo_pickup(player: &mut Player, a: AmmoType, num: i32, skill: Skill, m: &'static str, k: Pickup) -> (r: Option<Pickup>)
    requires
        a != AmmoType::NoAmmo,
        0 <= num <= 5,
        player_fits(old(player)@),
    ensures
        (final(player)@, r) == accept(give_ammo(old(player)@, a, num as int, skill), m, k),
{
    proof {
        lemma_player_shaped(*player);
        assert(old(player)@.ammo[ammo_slot(a)] <= i32::MAX - 200);
    }
    if !p_give_ammo(player, a, num, skill) {
        return None;
    }
    player.message = Some(m);
    Some(k)
}

fn give_power_pickup(player: &mut Player, power: PowerType, m: &'static str, k: Pickup) -> (r: Option<Pickup>)
    ensures
        (final(player)@, r) == accept(give_power(old(player)@, power), m, k),
{
    if !p_give_power(player, power) {
        return None;
    }
    player.message = Some(m);
    Some(k)
}

fn give_backpack(player: &mut Player, skill: Skill)
    requires
        player_fits(old(player)@),
    ensures
        final(player)@ == with_message(backpack(old(player)@, skill), GOTBACKPACK),
{
    proof {
        lemma_player_shaped(*player);
    }
    let ghost p0 = if !old(player)@.backpack {
        PlayerView { maxammo: old(player)@.maxammo.map_values(|v: i32| (v * 2) as i32), backpack: true, ..old(player)@ }
    } else {
        old(player)@
    };
    if !player.backpack {
        let mut i: usize = 0;
        while i < NUMAMMO
            invariant
                0 <= i <= NUMAMMO,
                player_fits(old(player)@),
                player_shaped(old(player)@),
                player@ == (PlayerView { maxammo: player@.maxammo, ..old(player)@ }),
                player@.maxammo.len() == NUMAMMO,
                forall|j: int| 0 <= j < i ==> #[trigger] player@.maxammo[j] == old(player)@.maxammo[j] * 2,
                forall|j: int| i <= j < NUMAMMO ==> #[trigger] player@.maxammo[j] == old(player)@.maxammo[j],
            decreases NUMAMMO - i,
        {
            assert(i32::MIN / 2 <= player@.maxammo[i as int] <= i32::MAX / 2);
            player.maxammo[i] = player.maxammo[i] * 2;
            i = i + 1;
        }
        player.backpack = true;
    }
    assert(player@ =~= p0);
    p_give_ammo(player, AmmoType::Clip, 1, skill);
    p_give_ammo(player, AmmoType::Shell, 1, skill);
    p_give_ammo(player, AmmoType::Cell, 1, skill);
    p_give_ammo(player, AmmoType::Missile, 1, skill);
    player.message = Some(GOTBACKPACK);
}

fn give_health_pickup(player: &mut Player, sprite: i32, rules: GameRules) -> (r: Option<Pickup>)
    requires
        player_fits(old(player)@),
    ensures
        (final(player)@, r) == pickup_health(old(player)@, sprite, rules),
{
    let item = Pickup { sound: SfxEnum::sfx_itemup, remove: true, sync_health: false, shadow: false };
    let key = Pickup { remove: !rules.netgame, ..item };
    if sprite == SPR_ARM1 {
        if !p_give_armor(player, 1) {
            return None;
        }
        player.message = Some(GOTARMOR);
        Some(item)
    } else if sprite == SPR_ARM2 {
        if !p_give_armor(player, 2) {
            return None;
        }
        player.message = Some(GOTMEGA);
        Some(item)
    } else if sprite == SPR_BON1 {
        player.health = player.health + 1;
        if player.health > 200 {
            player.health = 200;
        }
        player.message = Some(GOTHTHBONUS);
        assert(player@ =~= pickup_health(old(player)@, sprite, rules).0);
        Some(Pickup { sync_health: true, ..item })
    } else if sprite == SPR_BON2 {
        player.armorpoints = player.armorpoints + 1;
        if player.armorpoints > 200 {
            player.armorpoints = 200;
        }
        if player.armortype == 0 {
            player.armortype = 1;
        }
        player.message = Some(GOTARMBONUS);
        assert(player@ =~= pickup_health(old(player)@, sprite, rules).0);
        Some(item)
    } else if sprite == SPR_SOUL {
        player.health = player.health + 100;
        if player.health > 200 {
            player.health = 200;
        }
        player.message = Some(GOTSUPER);
        assert(player@ =~= pickup_health(old(player)@, sprite, rules).0);
        Some(Pickup { sound: SfxEnum::sfx_getpow, sync_health: true, ..item })
    } else if sprite == SPR_BKEY {
        give_key(player, Card::BlueCard, GOTBLUECARD, key)
    } else if sprite == SPR_YKEY {
        give_key(player, Card::YellowCard, GOTYELWCARD, key)
    } else if sprite == SPR_RKEY {
        give_key(player, Card::RedCard, GOTREDCARD, key)
    } else if sprite == SPR_BSKU {
        give_key(player, Card::BlueSkull, GOTBLUESKUL, key)
    } else if sprite == SPR_YSKU {
        give_key(player, Card::YellowSkull, GOTYELWSKUL, key)
    } else if sprite == SPR_RSKU {
        give_key(player, Card::RedSkull, GOTREDSKULL, key)
    } else if sprite == SPR_STIM {
        if !p_give_body(player, 10) {
            return None;
        }
        player.message = Some(GOTSTIM);
        Some(item)
    } else if sprite == SPR_MEDI {
        let need = player.health < 25;
        if !p_give_body(player, 25) {
            return None;
        }
        if need {
            player.message = Some(GOTMEDINEED);
        } else {
            player.message = Some(GOTMEDIKIT);
        }
        Some(item)
    } else {
        None
    }
}

fn give_power_item(player: &mut Player, sprite: i32, rules: GameRules) -> (r: Option<Pickup>)
    ensures
        (final(player)@, r) == pickup_power(old(player)@, sprite, rules),
{
    let power = Pickup { sound: SfxEnum::sfx_getpow, remove: true, sync_health: false, shadow: false };
    if sprite == SPR_PINV {
        give_power_pickup(player, PowerType::Invulnerability, GOTINVUL, power)
    } else if sprite == SPR_PSTR {
        p_give_power(player, PowerType::Strength);
        player.message = Some(GOTBERSERK);
        if player.readyweapon != WeaponType::Fist {
            player.pendingweapon = WeaponType::Fist;
        }
        Some(power)
    } else if sprite == SPR_PINS {
        give_power_pickup(player, PowerType::Invisibility, GOTINVIS, Pickup { shadow: true, ..power })
    } else if sprite == SPR_MEGA {
        if rules.mode != GameMode::Commercial {
            return None;
        }
        player.health = 200;
        player.armorpoints = 200;
        player.armortype = 2;
        player.message = Some(GOTMSPHERE);
        assert(player@ =~= pickup_power(old(player)@, sprite, rules).0);
        Some(Pickup { sync_health: true, ..power })
    } else if sprite == SPR_SUIT {
        give_power_pickup(player, PowerType::IronFeet, GOTSUIT, power)
    } else if sprite == SPR_PMAP {
        give_power_pickup(player, PowerType::AllMap, GOTMAP, power)
    } else if sprite == SPR_PVIS {
        give_power_pickup(player, PowerType::InfraRed, GOTVISOR, power)
    } else {
        None
    }
}

fn give_ammo_item(player: &mut Player, sprite: i32, dropped: bool, rules: GameRules) -> (r: Option<Pickup>)
    requires
        player_fits(old(player)@),
    ensures
        (final(player)@, r) == pickup_ammo(old(player)@, sprite, dropped, rules),
{
    let item = Pickup { sound: SfxEnum::sfx_itemup, remove: true, sync_health: false, shadow: false };
    let skill = rules.skill;
    if sprite == SPR_CLIP {
        give_ammo_pickup(player, AmmoType::Clip, if dropped { 0 } else { 1 }, skill, GOTCLIP, item)
    } else if sprite == SPR_AMMO {
        give_ammo_pickup(player, AmmoType::Clip, 5, skill, GOTCLIPBOX, item)
    } else if sprite == SPR_ROCK {
        give_ammo_pickup(player, AmmoType::Missile, 1, skill, GOTROCKET, item)
    } else if sprite == SPR_BROK {
        give_ammo_pickup(player, AmmoType::Missile, 5, skill, GOTROCKBOX, item)
    } else if sprite == SPR_CELL {
        give_ammo_pickup(player, AmmoType::Cell, 1, skill, GOTCELL, item)
    } else if sprite == SPR_CELP {
        give_ammo_pickup(player, AmmoType::Cell, 5, skill, GOTCELLBOX, item)
    } else if sprite == SPR_SHEL {
        give_ammo_pickup(player, AmmoType::Shell, 1, skill, GOTSHELLS, item)
    } else if sprite == SPR_SBOX {
        give_ammo_pickup(player, AmmoType::Shell, 5, skill, GOTSHELLBOX, item)
    } else if sprite == SPR_BPAK {
        give_backpack(player, skill);
        Some(item)
    } else {
        None
    }
}

fn give_weapon_item(player: &mut Player, sprite: i32, dropped: bool, rules: GameRules) -> (r: Option<Pickup>)
    requires
        player_fits(old(player)@),
    ensures
        (final(player)@, r) == pickup_weapon(old(player)@, sprite, dropped, rules),
{
    let weapon = Pickup { sound: SfxEnum::sfx_wpnup, remove: true, sync_health: false, shadow: false };
    if sprite == SPR_BFUG {
        give_weapon_pickup(player, WeaponType::Bfg, dropped, rules, GOTBFG9000, weapon)
    } else if sprite == SPR_MGUN {
        give_weapon_pickup(player, WeaponType::Chaingun, dropped, rules, GOTCHAINGUN, weapon)
    } else if sprite == SPR_CSAW {
        give_weapon_pickup(player, WeaponType::Chainsaw, dropped, rules, GOTCHAINSAW, weapon)
    } else if sprite == SPR_LAUN {
        give_weapon_pickup(player, WeaponType::Missile, dropped, rules, GOTLAUNCHER, weapon)
    } else if sprite == SPR_PLAS {
        give_weapon_pickup(player, WeaponType::Plasma, dropped, rules, GOTPLASMA, weapon)
    } else if sprite == SPR_SHOT {
        give_weapon_pickup(player, WeaponType::Shotgun, dropped, rules, GOTSHOTGUN, weapon)
    } else if sprite == SPR_SGN2 {
        give_weapon_pickup(player, WeaponType::SuperShotgun, dropped, rules, GOTSHOTGUN2, weapon)
    } else {
        None
    }
}

proof fn lemma_give_ammo_counts(p: PlayerView, a: AmmoType, num: int, skill: Skill)
    ensures
        give_ammo(p, a, num, skill).0.bonuscount == p.bonuscount,
        give_ammo(p, a, num, skill).0.itemcount == p.itemcount,
{
}

proof fn lemma_weapon_counts(p: PlayerView, w: WeaponType, dropped: bool, skill: Skill, netgame: bool, dm: int)
    requires
        player_fits(p),
    ensures
        give_weapon(p, w, dropped, skill, netgame, dm).0.itemcount == p.itemcount,
        give_weapon(p, w, dropped, skill, netgame, dm).0.bonuscount <= i32::MAX - BONUSADD,
{
    let ws = weapon_slot(w);
    let p1 = PlayerView { bonuscount: p.bonuscount + BONUSADD, weaponowned: p.weaponowned.update(ws, true), ..p };
    lemma_give_ammo_counts(p1, weapon_ammo(w), if dm != 0 { 5 } else { 2 }, skill);
    lemma_give_ammo_counts(p, weapon_ammo(w), if dropped { 0 } else { 2 }, skill);
}

proof fn lemma_ammo_counts(p: PlayerView, sprite: i32, dropped: bool, rules: GameRules)
    requires
        player_fits(p),
    ensures
        pickup_ammo(p, sprite, dropped, rules).0.itemcount == p.itemcount,
        pickup_ammo(p, sprite, dropped, rules).0.bonuscount == p.bonuscount,
{
    let skill = rules.skill;
    lemma_give_ammo_counts(p, AmmoType::Clip, if dropped { 0 } else { 1 }, skill);
    lemma_give_ammo_counts(p, AmmoType::Clip, 5, skill);
    lemma_give_ammo_counts(p, AmmoType::Shell, 1, skill);
    lemma_give_ammo_counts(p, AmmoType::Shell, 5, skill);
    lemma_give_ammo_counts(p, AmmoType::Cell, 1, skill);
    lemma_give_ammo_counts(p, AmmoType::Cell, 5, skill);
    lemma_give_ammo_counts(p, AmmoType::Missile, 1, skill);
    lemma_give_ammo_counts(p, AmmoType::Missile, 5, skill);
    let p0 = if !p.backpack {
        PlayerView { maxammo: p.maxammo.map_values(|v: i32| (v * 2) as i32), backpack: true, ..p }
    } else {
        p
    };
    let p1 = give_ammo(p0, AmmoType::Clip, 1, skill).0;
    let p2 = give_ammo(p1, AmmoType::Shell, 1, skill).0;
    let p3 = give_ammo(p2, AmmoType::Cell, 1, skill).0;
    lemma_give_ammo_counts(p0, AmmoType::Clip, 1, skill);
    lemma_give_ammo_counts(p1, AmmoType::Shell, 1, skill);
    lemma_give_ammo_counts(p2, AmmoType::Cell, 1, skill);
    lemma_give_ammo_counts(p3, AmmoType::Missile, 1, skill);
}

proof fn lemma_weapon_item_counts(p: PlayerView, sprite: i32, dropped: bool, rules: GameRules)
    requires
        player_fits(p),
    ensures
        pickup_weapon(p, sprite, dropped, rules).0.itemcount == p.itemcount,
        pickup_weapon(p, sprite, dropped, rules).0.bonuscount <= i32::MAX - BONUSADD,
{
    let skill = rules.skill;
    let dm = rules.deathmatch as int;
    lemma_weapon_counts(p, WeaponType::Bfg, dropped, skill, rules.netgame, dm);
    lemma_weapon_counts(p, WeaponType::Chaingun, dropped, skill, rules.netgame, dm);
    lemma_weapon_counts(p, WeaponType::Chainsaw, dropped, skill, rules.netgame, dm);
    lemma_weapon_counts(p, WeaponType::Missile, dropped, skill, rules.netgame, dm);
    lemma_weapon_counts(p, WeaponType::Plasma, dropped, skill, rules.netgame, dm);
    lemma_weapon_counts(p, WeaponType::Shotgun, dropped, skill, rules.netgame, dm);
    lemma_weapon_counts(p, WeaponType::SuperShotgun, dropped, skill, rules.netgame, dm);
}

proof fn lemma_health_item_counts(p: PlayerView, sprite: i32, rules: GameRules)
    requires
        player_fits(p),
    ensures
        pickup_health(p, sprite, rules).0.itemcount == p.itemcount,
        pickup_health(p, sprite, rules).0.bonuscount <= i32::MAX - BONUSADD,
{
}

proof fn lemma_power_item_counts(p: PlayerView, sprite: i32, rules: GameRules)
    requires
        player_fits(p),
    ensures
        pickup_power(p, sprite, rules).0.itemcount == p.itemcount,
        pickup_power(p, sprite, rules).0.bonuscount <= i32::MAX - BONUSADD,
{
}

/// A pickup leaves the item count alone and the flash counter within
/// one more flash of the top of `i32`.
proof fn lemma_pickup_counts(p: PlayerView, sprite: i32, dropped: bool, rules: GameRules)
    requires
        player_fits(p),
    ensures
        pickup(p, sprite, dropped, rules).0.itemcount == p.itemcount,
        pickup(p, sprite, dropped, rules).0.bonuscount <= i32::MAX - BONUSADD,
{
    reveal(pickup);
    lemma_health_item_counts(p, sprite, rules);
    lemma_power_item_counts(p, sprite, rules);
    lemma_ammo_counts(p, sprite, dropped, rules);
    lemma_weapon_item_counts(p, sprite, dropped, rules);
}

/// The pickup part of `P_TouchSpecialThing`: what touching an item drawn
/// with `sprite` gives the player, and what else the pickup does.
pub fn give_pickup(player: &mut Player, sprite: i32, dropped: bool, rules: GameRules) -> (r: Option<Pickup>)
    requires
        player_fits(old(player)@),
    ensures
        (final(player)@, r) == pickup(old(player)@, sprite, dropped, rules),
{
    reveal(pickup);
    if sprite <= SPR_SOUL {
        give_health_pickup(player, sprite, rules)
    } else if sprite <= SPR_PVIS {
        give_power_item(player, sprite, rules)
    } else if sprite <= SPR_BPAK {
        give_ammo_item(player, sprite, dropped, rules)
    } else {
        give_weapon_item(player, sprite, dropped, rules)
    }
}

// ---------------------------------------------------------------------------
// The engine the interactions run against
// ---------------------------------------------------------------------------

/// What the interaction code reads from a thing type's entry in the
/// thing-info table.
#[derive(Clone, Copy, Debug, PartialEq, Eq, Structural)]
pub struct ThingInfo {
    pub spawnstate: usize,
    pub seestate: usize,
    pub spawnhealth: i32,
    pub painstate: usize,
    pub painchance: i32,
    pub deathstate: usize,
    pub xdeathstate: usize,
    pub mass: i32,
}

/// A request the interaction code made of the engine.
#[derive(Clone, Copy, Debug, PartialEq, Eq, Structural)]
pub enum InterEvent {
    /// `S_StartSound`.
    Sound { origin: Option<usize>, sfx: SfxEnum },
    /// `P_SetMobjState`.
    SetState { mobj: usize, state: usize },
    /// `P_SpawnMobj`.
    SpawnMobj { x: Fixed, y: Fixed, z: Fixed, mtype: usize },
    /// `P_RemoveMobj`.
    RemoveMobj { mobj: usize },
    /// `P_DropWeapon` for a dying player.
    DropWeapon { player: usize },
    /// `AM_Stop`.
    AutomapStop,
    /// `I_Tactile`.
    Tactile { on: i32, off: i32, total: i32 },
}

/// The players as mathematical values.
pub open spec fn player_views(ps: Seq<Player>) -> Seq<PlayerView> {
    ps.map_values(|p: Player| p@)
}

/// The things, players, play random stream, thing-info table, angle and
/// sine tables, game rules and automap the interaction code works on,
/// and the engine services it calls. Every request is recorded with the
/// things and players as they stood when it was made.
pub trait InterContext: Sized {
    spec fn mobjs_view(&self) -> Seq<MapObject>;
    spec fn players_view(&self) -> Seq<PlayerView>;
    spec fn rng_view(&self) -> DoomRandom;
    /// Every request so far, with the things and players it saw.
    spec fn requests(&self) -> Seq<(InterEvent, Seq<MapObject>, Seq<PlayerView>)>;
    spec fn info_view(&self, mobj_type: usize) -> ThingInfo;
    /// `R_PointToAngle2`.
    spec fn angle_view(&self, x1: Fixed, y1: Fixed, x2: Fixed, y2: Fixed) -> Angle;
    /// The fine sine table (its cosines start a quarter turn in).
    spec fn sine_view(&self, i: usize) -> Fixed;
    spec fn rules_view(&self) -> GameRules;
    /// Whether the automap is showing.
    spec fn automap_view(&self) -> bool;

    fn mobjs(&self) -> (r: &[MapObject])
        ensures
            r@ == self.mobjs_view(),
    ;

    fn players(&self) -> (r: &[Player])
        ensures
            player_views(r@) == self.players_view(),
    ;

    /// Replace thing `idx` by `m`.
    fn set_mobj(&mut self, idx: usize, m: MapObject)
        requires
            idx < old(self).mobjs_view().len(),
        ensures
            forall|t: usize| #[trigger] final(self).info_view(t) == old(self).info_view(t),
            forall|a: Fixed, b: Fixed, c: Fixed, d: Fixed| #[trigger] final(self).angle_view(a, b, c, d) == old(self).angle_view(a, b, c, d),
            forall|i: usize| #[trigger] final(self).sine_view(i) == old(self).sine_view(i),
            final(self).rules_view() == old(self).rules_view(),
            final(self).mobjs_view() == old(self).mobjs_view().update(idx as int, m),
            final(self).players_view() == old(self).players_view(),
            final(self).rng_view() == old(self).rng_view(),
            final(self).automap_view() == old(self).automap_view(),
            final(self).requests() == old(self).requests(),
    ;

    /// Replace player `idx` by `p`.
    fn set_player(&mut self, idx: usize, p: Player)
        requires
            idx < old(self).players_view().len(),
        ensures
            forall|t: usize| #[trigger] final(self).info_view(t) == old(self).info_view(t),
            forall|a: Fixed, b: Fixed, c: Fixed, d: Fixed| #[trigger] final(self).angle_view(a, b, c, d) == old(self).angle_view(a, b, c, d),
            forall|i: usize| #[trigger] final(self).sine_view(i) == old(self).sine_view(i),
            final(self).rules_view() == old(self).rules_view(),
            final(self).mobjs_view() == old(self).mobjs_view(),
            final(self).players_view() == old(self).players_view().update(idx as int, p@),
            final(self).rng_view() == old(self).rng_view(),
            final(self).automap_view() == old(self).automap_view(),
            final(self).requests() == old(self).requests(),
    ;

    fn thing_info(&self, mobj_type: usize) -> (r: ThingInfo)
        ensures
            r == self.info_view(mobj_type),
    ;

    fn rules(&self) -> (r: GameRules)
        ensures
            r == self.rules_view(),
    ;

    fn automap_active(&self) -> (r: bool)
        ensures
            r == self.automap_view(),
    ;

    fn point_to_angle2(&self, x1: Fixed, y1: Fixed, x2: Fixed, y2: Fixed) -> (r: Angle)
        ensures
            r == self.angle_view(x1, y1, x2, y2),
    ;

    /// Entry `i` of the fine sine table.
    fn fine_sine(&self, i: usize) -> (r: Fixed)
        requires
            i < 10240,
        ensures
            r == self.sine_view(i),
    ;

    /// `P_Random` on the play stream.
    fn p_random(&mut self) -> (r: u8)
        ensures
            forall|t: usize| #[trigger] final(self).info_view(t) == old(self).info_view(t),
            forall|a: Fixed, b: Fixed, c: Fixed, d: Fixed| #[trigger] final(self).angle_view(a, b, c, d) == old(self).angle_view(a, b, c, d),
            forall|i: usize| #[trigger] final(self).sine_view(i) == old(self).sine_view(i),
            final(self).rules_view() == old(self).rules_view(),
            r == old(self).rng_view().next_p(),
            final(self).rng_view() == old(self).rng_view().advanced(),
            final(self).mobjs_view() == old(self).mobjs_view(),
            final(self).players_view() == old(self).players_view(),
            final(self).automap_view() == old(self).automap_view(),
            final(self).requests() == old(self).requests(),
    ;

    fn s_start_sound(&mut self, origin: Option<usize>, sfx: SfxEnum)
        ensures
            forall|t: usize| #[trigger] final(self).info_view(t) == old(self).info_view(t),
            forall|a: Fixed, b: Fixed, c: Fixed, d: Fixed| #[trigger] final(self).angle_view(a, b, c, d) == old(self).angle_view(a, b, c, d),
            forall|i: usize| #[trigger] final(self).sine_view(i) == old(self).sine_view(i),
            final(self).rules_view() == old(self).rules_view(),
            final(self).mobjs_view() == old(self).mobjs_view(),
            final(self).players_view() == old(self).players_view(),
            final(self).rng_view() == old(self).rng_view(),
            final(self).automap_view() == old(self).automap_view(),
            final(self).requests() == old(self).requests().push((InterEvent::Sound { origin, sfx }, old(self).mobjs_view(), old(self).players_view())),
    ;

    fn i_tactile(&mut self, on: i32, off: i32, total: i32)
        ensures
            forall|t: usize| #[trigger] final(self).info_view(t) == old(self).info_view(t),
            forall|a: Fixed, b: Fixed, c: Fixed, d: Fixed| #[trigger] final(self).angle_view(a, b, c, d) == old(self).angle_view(a, b, c, d),
            forall|i: usize| #[trigger] final(self).sine_view(i) == old(self).sine_view(i),
            final(self).rules_view() == old(self).rules_view(),
            final(self).mobjs_view() == old(self).mobjs_view(),
            final(self).players_view() == old(self).players_view(),
            final(self).rng_view() == old(self).rng_view(),
            final(self).automap_view() == old(self).automap_view(),
            final(self).requests() == old(self).requests().push((InterEvent::Tactile { on, off, total }, old(self).mobjs_view(), old(self).players_view())),
    ;

    /// `AM_Stop`: the automap closes.
    fn am_stop(&mut self)
        ensures
            forall|t: usize| #[trigger] final(self).info_view(t) == old(self).info_view(t),
            forall|a: Fixed, b: Fixed, c: Fixed, d: Fixed| #[trigger] final(self).angle_view(a, b, c, d) == old(self).angle_view(a, b, c, d),
            forall|i: usize| #[trigger] final(self).sine_view(i) == old(self).sine_view(i),
            final(self).rules_view() == old(self).rules_view(),
            final(self).mobjs_view() == old(self).mobjs_view(),
            final(self).players_view() == old(self).players_view(),
            final(self).rng_view() == old(self).rng_view(),
            !final(self).automap_view(),
            final(self).requests() == old(self).requests().push((InterEvent::AutomapStop, old(self).mobjs_view(), old(self).players_view())),
    ;

    /// `P_DropWeapon`: lowers the weapon sprite of a dying player, which
    /// the player picture here does not hold.
    fn p_drop_weapon(&mut self, player: usize)
        ensures
            forall|t: usize| #[trigger] final(self).info_view(t) == old(self).info_view(t),
            forall|a: Fixed, b: Fixed, c: Fixed, d: Fixed| #[trigger] final(self).angle_view(a, b, c, d) == old(self).angle_view(a, b, c, d),
            forall|i: usize| #[trigger] final(self).sine_view(i) == old(self).sine_view(i),
            final(self).rules_view() == old(self).rules_view(),
            final(self).mobjs_view() == old(self).mobjs_view(),
            final(self).players_view() == old(self).players_view(),
            final(self).rng_view() == old(self).rng_view(),
            final(self).automap_view() == old(self).automap_view(),
            final(self).requests() == old(self).requests().push((InterEvent::DropWeapon { player }, old(self).mobjs_view(), old(self).players_view())),
    ;

    /// `P_RemoveMobj`: unlinks and frees a thing; players are untouched.
    fn p_remove_mobj(&mut self, mobj: usize)
        ensures
            forall|t: usize| #[trigger] final(self).info_view(t) == old(self).info_view(t),
            forall|a: Fixed, b: Fixed, c: Fixed, d: Fixed| #[trigger] final(self).angle_view(a, b, c, d) == old(self).angle_view(a, b, c, d),
            forall|i: usize| #[trigger] final(self).sine_view(i) == old(self).sine_view(i),
            final(self).rules_view() == old(self).rules_view(),
            final(self).mobjs_view().len() == old(self).mobjs_view().len(),
            final(self).players_view() == old(self).players_view(),
            final(self).rng_view() == old(self).rng_view(),
            final(self).automap_view() == old(self).automap_view(),
            forall|i: int| 0 <= i < old(self).mobjs_view().len() ==> same_but_links(old(self).mobjs_view()[i], #[trigger] final(self).mobjs_view()[i]),
            final(self).requests() == old(self).requests().push((InterEvent::RemoveMobj { mobj }, old(self).mobjs_view(), old(self).players_view())),
    ;

    /// `P_SpawnMobj`: the new thing's index.
    fn p_spawn_mobj(&mut self, x: Fixed, y: Fixed, z: Fixed, mtype: usize) -> (r: usize)
        ensures
            forall|t: usize| #[trigger] final(self).info_view(t) == old(self).info_view(t),
            forall|a: Fixed, b: Fixed, c: Fixed, d: Fixed| #[trigger] final(self).angle_view(a, b, c, d) == old(self).angle_view(a, b, c, d),
            forall|i: usize| #[trigger] final(self).sine_view(i) == old(self).sine_view(i),
            final(self).rules_view() == old(self).rules_view(),
            r < final(self).mobjs_view().len(),
            final(self).mobjs_view()[r as int].type_ == mtype,
            final(self).mobjs_view()[r as int].x == x,
            final(self).mobjs_view()[r as int].y == y,
            final(self).mobjs_view().len() >= old(self).mobjs_view().len(),
            final(self).players_view() == old(self).players_view(),
            final(self).automap_view() == old(self).automap_view(),
            final(self).requests() == old(self).requests().push((InterEvent::SpawnMobj { x, y, z, mtype }, old(self).mobjs_view(), old(self).players_view())),
    ;

    /// `P_SetMobjState`: its state actions may change any thing or
    /// player; things are never taken away.
    fn p_set_mobj_state(&mut self, mobj: usize, state: usize) -> (r: bool)
        ensures
            forall|t: usize| #[trigger] final(self).info_view(t) == old(self).info_view(t),
            forall|a: Fixed, b: Fixed, c: Fixed, d: Fixed| #[trigger] final(self).angle_view(a, b, c, d) == old(self).angle_view(a, b, c, d),
            forall|i: usize| #[trigger] final(self).sine_view(i) == old(self).sine_view(i),
            final(self).rules_view() == old(self).rules_view(),
            final(self).mobjs_view().len() >= old(self).mobjs_view().len(),
            final(self).players_view().len() == old(self).players_view().len(),
            final(self).requests() == old(self).requests().push((InterEvent::SetState { mobj, state }, old(self).mobjs_view(), old(self).players_view())),
    ;
}

/// The engine's tables and the game rules are unchanged.
pub open spec fn same_tables<C: InterContext>(pre: C, post: C) -> bool {
    &&& forall|t: usize| #[trigger] post.info_view(t) == pre.info_view(t)
    &&& forall|a: Fixed, b: Fixed, c: Fixed, d: Fixed| #[trigger] post.angle_view(a, b, c, d) == pre.angle_view(a, b, c, d)
    &&& forall|i: usize| #[trigger] post.sine_view(i) == pre.sine_view(i)
    &&& post.rules_view() == pre.rules_view()
}

/// Things, players, random stream and automap are unchanged.
pub open spec fn kept<C: InterContext>(pre: C, post: C) -> bool {
    &&& same_tables(pre, post)
    &&& post.mobjs_view() == pre.mobjs_view()
    &&& post.players_view() == pre.players_view()
    &&& post.rng_view() == pre.rng_view()
    &&& post.automap_view() == pre.automap_view()
}

/// Request `e` was recorded with the world as `pre` had it.
pub open spec fn logged<C: InterContext>(pre: C, post: C, e: InterEvent) -> bool {
    post.requests() == pre.requests().push((e, pre.mobjs_view(), pre.players_view()))
}

// ---------------------------------------------------------------------------
// P_TouchSpecialThing
// ---------------------------------------------------------------------------

/// The item is within the toucher's reach: no higher than the toucher is
/// tall, no more than 8 units below.
pub open spec fn within_reach(special: MapObject, toucher: MapObject) -> bool {
    let delta = special.z.0 - toucher.z.0;
    delta <= toucher.height.0 && delta >= -8 * FRACUNIT
}

/// The toucher's thing after an accepted pickup: it takes the player's
/// health and turns shadowy when the pickup says so.
pub open spec fn touched_thing(t: MapObject, p: PlayerView, k: Pickup) -> MapObject {
    let t1 = if k.sync_health { MapObject { health: p.health as i32, ..t } } else { t };
    if k.shadow { MapObject { flags: t1.flags | MF_SHADOW, ..t1 } } else { t1 }
}

/// The player after an accepted pickup and before the pickup flash: an
/// item that counts adds to the player's item count.
pub open spec fn counted(p: PlayerView, special: MapObject) -> PlayerView {
    if special.flags & MF_COUNTITEM != 0 { PlayerView { itemcount: p.itemcount + 1, ..p } } else { p }
}

/// A touch that can hand the item to a player: in reach, a live toucher
/// that is a player.
pub open spec fn touch_player<C: InterContext>(c: C, special: usize, toucher: usize) -> Option<usize> {
    let sp = c.mobjs_view()[special as int];
    let to = c.mobjs_view()[toucher as int];
    if within_reach(sp, to) && to.health > 0 { to.player } else { None }
}

/// `P_TouchSpecialThing`: a live player touching an item in reach gets
/// what [`pickup`] gives. Refused, only the player's picture may have
/// changed (a net-game weapon taken but left). Accepted: the toucher's
/// thing is updated ([`touched_thing`]), counted items add to the item
/// count, the item is removed unless it stays for the other players, the
/// player gets a pickup flash and the pickup sound plays at the toucher.
#[verifier::rlimit(40)]
pub fn p_touch_special_thing<C: InterContext>(special_idx: usize, toucher_idx: usize, ctx: &mut C)
    requires
        special_idx < old(ctx).mobjs_view().len(),
        toucher_idx < old(ctx).mobjs_view().len(),
        i32::MIN <= old(ctx).mobjs_view()[special_idx as int].z.0 - old(ctx).mobjs_view()[toucher_idx as int].z.0 <= i32::MAX,
        touch_player(*old(ctx), special_idx, toucher_idx) matches Some(p)
            ==> p < old(ctx).players_view().len() && player_fits(old(ctx).players_view()[p as int]),
    ensures
        same_tables(*old(ctx), *final(ctx)),
        final(ctx).rng_view() == old(ctx).rng_view(),
        final(ctx).automap_view() == old(ctx).automap_view(),
        ({
            let pre = *old(ctx);
            let post = *final(ctx);
            let sp = pre.mobjs_view()[special_idx as int];
            let to = pre.mobjs_view()[toucher_idx as int];
            match touch_player(pre, special_idx, toucher_idx) {
                None => kept(pre, post) && post.requests() == pre.requests(),
                Some(pl) => {
                    let (pv, eff) = pickup(pre.players_view()[pl as int], sp.sprite, sp.flags & MF_DROPPED != 0, pre.rules_view());
                    match eff {
                        None => post.mobjs_view() == pre.mobjs_view()
                            && post.players_view() == pre.players_view().update(pl as int, pv)
                            && post.requests() == pre.requests(),
                        Some(k) => {
                            let mobjs1 = pre.mobjs_view().update(toucher_idx as int, touched_thing(to, pv, k));
                            let pv1 = counted(pv, sp);
                            let players1 = pre.players_view().update(pl as int, pv1);
                            let players2 = pre.players_view().update(pl as int, PlayerView { bonuscount: pv1.bonuscount + BONUSADD, ..pv1 });
                            let sound = InterEvent::Sound { origin: Some(toucher_idx), sfx: k.sound };
                            &&& post.players_view() == players2
                            &&& post.mobjs_view().len() == pre.mobjs_view().len()
                            &&& if k.remove {
                                &&& post.requests() == pre.requests()
                                    .push((InterEvent::RemoveMobj { mobj: special_idx }, mobjs1, players1))
                                    .push((sound, post.mobjs_view(), players2))
                                &&& forall|i: int| 0 <= i < mobjs1.len() ==> same_but_links(mobjs1[i], #[trigger] post.mobjs_view()[i])
                            } else {
                                &&& post.mobjs_view() == mobjs1
                                &&& post.requests() == pre.requests().push((sound, mobjs1, players2))
                            }
                        },
                    }
                },
            }
        }),
{
    let ghost pre = *ctx;
    let special = ctx.mobjs()[special_idx];
    let toucher = ctx.mobjs()[toucher_idx];
    let delta = special.z.0 - toucher.z.0;
    if delta > toucher.height.0 {
        return;
    }
    if delta < -8 * FRACUNIT {
        return;
    }
    if toucher.health <= 0 {
        return;
    }
    let player_idx = match toucher.player {
        Some(idx) => idx,
        None => return,
    };
    assert(touch_player(pre, special_idx, toucher_idx) == Some(player_idx));
    let rules = ctx.rules();
    let mut player = ctx.players()[player_idx];
    assert(player@ == pre.players_view()[player_idx as int]);
    let eff = give_pickup(&mut player, special.sprite, special.flags & MF_DROPPED != 0, rules);
    let ghost pv = player@;
    proof {
        lemma_pickup_counts(pre.players_view()[player_idx as int], special.sprite, special.flags & MF_DROPPED != 0, rules);
    }
    assert((pv, eff) == pickup(pre.players_view()[player_idx as int], special.sprite, special.flags & MF_DROPPED != 0, pre.rules_view()));
    let k = match eff {
        Some(k) => k,
        None => {
            ctx.set_player(player_idx, player);
            return;
        },
    };
    let mut t = toucher;
    if k.sync_health {
        t.health = player.health;
    }
    if k.shadow {
        t.flags = t.flags | MF_SHADOW;
    }
    assert(t == touched_thing(toucher, pv, k));
    ctx.set_mobj(toucher_idx, t);
    if special.flags & MF_COUNTITEM != 0 {
        player.itemcount = player.itemcount + 1;
    }
    assert(player@ =~= counted(pv, special));
    ctx.set_player(player_idx, player);
    let ghost mid = *ctx;
    assert(mid.mobjs_view() == pre.mobjs_view().update(toucher_idx as int, touched_thing(toucher, pv, k)));
    assert(mid.players_view() == pre.players_view().update(player_idx as int, counted(pv, special)));
    if k.remove {
        ctx.p_remove_mobj(special_idx);
    }
    player.bonuscount = player.bonuscount + BONUSADD;
    assert(player@ =~= PlayerView { bonuscount: counted(pv, special).bonuscount + BONUSADD, ..counted(pv, special) });
    ctx.set_player(player_idx, player);
    assert(ctx.players_view() =~= pre.players_view().update(player_idx as int, player@));
    ctx.s_start_sound(Some(toucher_idx), k.sound);
}

// ---------------------------------------------------------------------------
// P_KillMobj
// ---------------------------------------------------------------------------

/// Thing types that drop an item when killed, and the items.
pub const MT_POSSESSED: usize = 1;
pub const MT_SHOTGUY: usize = 2;
pub const MT_CHAINGUY: usize = 10;
pub const MT_WOLFSS: usize = 23;
pub const MT_CLIP: usize = 63;
pub const MT_CHAINGUN: usize = 73;
pub const MT_SHOTGUN: usize = 77;

/// Spawn height meaning "on the floor".
pub const ONFLOORZ: i32 = i32::MIN;

/// A killed thing: no longer shootable, floating or flying (and falling,
/// unless it is a lost soul), a corpse that may drop off ledges, a quarter
/// as tall.
pub open spec fn corpse(m: MapObject) -> MapObject {
    let f1 = m.flags & !(MF_SHOOTABLE | MF_FLOAT | MF_SKULLFLY);
    let f2 = if m.type_ != MT_SKULL { f1 & !MF_NOGRAVITY } else { f1 };
    MapObject { flags: f2 | MF_CORPSE | MF_DROPOFF, height: Fixed(m.height.0 >> 2u32), ..m }
}

/// The player with `delta` added to its frags of `victim`.
pub open spec fn fragged(p: PlayerView, victim: int, delta: int) -> PlayerView {
    PlayerView { frags: p.frags.update(victim, (p.frags[victim] + delta) as i32), ..p }
}

/// The player with one more kill.
pub open spec fn one_more_kill(p: PlayerView) -> PlayerView {
    PlayerView { killcount: p.killcount + 1, ..p }
}

/// Kill and frag tallies after `target` dies, killed by `source`: a player
/// killing a player gains a frag (a suicide loses one), a player killing a
/// counted monster gains a kill, a player dying with no killer loses a
/// frag; in a single-player game a counted monster not killed by a player
/// still counts for the first player.
pub open spec fn credited(players: Seq<PlayerView>, mobjs: Seq<MapObject>, source: Option<usize>, target: MapObject, netgame: bool) -> Seq<PlayerView> {
    let ps1 = match source {
        Some(s) => match mobjs[s as int].player {
            Some(sp) => match target.player {
                Some(tp) => if sp == tp {
                    players.update(sp as int, fragged(players[sp as int], sp as int, -1))
                } else {
                    players.update(sp as int, fragged(players[sp as int], tp as int, 1))
                },
                None => if target.flags & MF_COUNTKILL != 0 {
                    players.update(sp as int, one_more_kill(players[sp as int]))
                } else {
                    players
                },
            },
            None => players,
        },
        None => match target.player {
            Some(tp) => players.update(tp as int, fragged(players[tp as int], tp as int, -1)),
            None => players,
        },
    };
    let by_player = match source {
        Some(s) => mobjs[s as int].player is Some,
        None => false,
    };
    if !netgame && target.flags & MF_COUNTKILL != 0 && target.player is None && !by_player {
        ps1.update(0, one_more_kill(ps1[0]))
    } else {
        ps1
    }
}

/// The state a thing dies into: the extreme death when its health fell
/// below minus its spawn health and it has one, else the plain death.
pub open spec fn death_state(info: ThingInfo, health: i32) -> usize {
    if health < -info.spawnhealth && info.xdeathstate != S_NULL {
        info.xdeathstate
    } else {
        info.deathstate
    }
}

/// The item a killed thing of type `t` drops.
pub open spec fn dropped_item(t: usize) -> Option<usize> {
    if t == MT_WOLFSS || t == MT_POSSESSED {
        Some(MT_CLIP)
    } else if t == MT_SHOTGUY {
        Some(MT_SHOTGUN)
    } else if t == MT_CHAINGUY {
        Some(MT_CHAINGUN)
    } else {
        None
    }
}

/// Things and players once `target` is dead, before its death state is
/// set: the corpse (a dead player's no longer solid), the tallies, and a
/// dead player's state.
pub open spec fn kill_world(ms: Seq<MapObject>, ps: Seq<PlayerView>, netgame: bool, source: Option<usize>, target: usize) -> (Seq<MapObject>, Seq<PlayerView>) {
    let t = corpse(ms[target as int]);
    let ps1 = credited(ps, ms, source, t, netgame);
    match t.player {
        Some(tp) => (
            ms.update(target as int, MapObject { flags: t.flags & !MF_SOLID, ..t }),
            ps1.update(tp as int, PlayerView { playerstate: PlayerState::Dead, ..ps1[tp as int] }),
        ),
        None => (ms.update(target as int, t), ps1),
    }
}

/// The requests once `target`'s death state is set: a dead player drops
/// the weapon and, as the console player, closes a showing automap.
pub open spec fn kill_requests(
    reqs: Seq<(InterEvent, Seq<MapObject>, Seq<PlayerView>)>,
    ms: Seq<MapObject>,
    ps: Seq<PlayerView>,
    info: ThingInfo,
    rules: GameRules,
    automap: bool,
    source: Option<usize>,
    target: usize,
) -> Seq<(InterEvent, Seq<MapObject>, Seq<PlayerView>)> {
    let (ms1, ps1) = kill_world(ms, ps, rules.netgame, source, target);
    let t = ms[target as int];
    let die = (InterEvent::SetState { mobj: target, state: death_state(info, t.health) }, ms1, ps1);
    match t.player {
        Some(tp) => {
            let r1 = reqs.push((InterEvent::DropWeapon { player: tp }, ms1, ps1));
            let r2 = if tp == rules.consoleplayer && automap {
                r1.push((InterEvent::AutomapStop, ms1, ps1))
            } else {
                r1
            };
            r2.push(die)
        },
        None => reqs.push(die),
    }
}

/// What a kill of `target` by `source`, started with things `ms`, players
/// `ps` and requests `reqs`, leaves in `post`: the requests of
/// [`kill_requests`], then the dropped item spawned where the corpse lies
/// (whose tics, as for a corpse dropping nothing, are at least 1) and
/// marked as dropped.
pub open spec fn killed_from<C: InterContext>(
    ms: Seq<MapObject>,
    ps: Seq<PlayerView>,
    reqs: Seq<(InterEvent, Seq<MapObject>, Seq<PlayerView>)>,
    info: ThingInfo,
    rules: GameRules,
    automap: bool,
    source: Option<usize>,
    target: usize,
    post: C,
) -> bool {
    let kreqs = kill_requests(reqs, ms, ps, info, rules, automap, source, target);
    let n = kreqs.len();
    &&& post.requests().len() >= n
    &&& post.requests().subrange(0, n as int) == kreqs
    &&& match dropped_item(ms[target as int].type_) {
        None => post.requests().len() == n && post.mobjs_view()[target as int].tics >= 1,
        Some(item) => {
            let (e, ms2, ps2) = post.requests()[n as int];
            &&& post.requests().len() == n + 1
            &&& e == InterEvent::SpawnMobj { x: ms2[target as int].x, y: ms2[target as int].y, z: Fixed(ONFLOORZ), mtype: item }
            &&& ms2[target as int].tics >= 1
            &&& exists|i: int| 0 <= i < post.mobjs_view().len() && #[trigger] post.mobjs_view()[i].flags & MF_DROPPED != 0
            &&& exists|cs: C, i: usize| #[trigger] item_marked(cs, post, i, item, ms2[target as int].x, ms2[target as int].y)
        },
    }
}

/// From `cs` (just after the dropped item `i`, of type `item`, was
/// spawned at `(x, y)`) to `post` only the item was marked as dropped.
pub open spec fn item_marked<C: InterContext>(cs: C, post: C, i: usize, item: usize, x: Fixed, y: Fixed) -> bool {
    &&& i < cs.mobjs_view().len()
    &&& cs.mobjs_view()[i as int].type_ == item
    &&& cs.mobjs_view()[i as int].x == x
    &&& cs.mobjs_view()[i as int].y == y
    &&& post.mobjs_view() == cs.mobjs_view().update(i as int, MapObject { flags: cs.mobjs_view()[i as int].flags | MF_DROPPED, ..cs.mobjs_view()[i as int] })
    &&& post.players_view() == cs.players_view()
    &&& post.requests() == cs.requests()
}

/// After the death state of thing `t` was set (the engine's answer to it
/// is `cd`): its tics are cut by a random 0 to 3 (to at least 1), and
/// nothing else changes but, when it drops an item (`item`), the item's
/// spawn, which is requested with that world.
pub open spec fn after_death<C: InterContext>(cd: C, post: C, t: usize, item: bool) -> bool {
    let m = cd.mobjs_view()[t as int];
    let r = (cd.rng_view().next_p() & 3) as int;
    let w = cd.mobjs_view().update(t as int, MapObject { tics: if m.tics - r < 1 { 1 } else { (m.tics - r) as i32 }, ..m });
    &&& t < cd.mobjs_view().len()
    &&& !item ==> post.mobjs_view() == w && post.players_view() == cd.players_view() && post.rng_view() == cd.rng_view().advanced()
        && post.requests() == cd.requests()
    &&& item ==> post.requests().len() > cd.requests().len() && post.requests()[cd.requests().len() as int].1 == w
}

/// The tallies `target`'s death touches can count once more.
pub open spec fn kill_fits<C: InterContext>(c: C, source: Option<usize>, target: usize) -> bool {
    let t = c.mobjs_view()[target as int];
    let ps = c.players_view();
    &&& target < c.mobjs_view().len()
    &&& source matches Some(s) ==> s < c.mobjs_view().len()
    &&& c.info_view(t.type_).spawnhealth > i32::MIN
    &&& t.player matches Some(tp) ==> tp < ps.len() && tp < MAXPLAYERS
    &&& source matches Some(s) ==> (c.mobjs_view()[s as int].player matches Some(sp) ==> sp < ps.len())
    &&& ps.len() > 0
    &&& forall|i: int| 0 <= i < ps.len() ==> #[trigger] tally_fits(ps[i])
}

/// A player's kill and frag counters can move by one.
pub open spec fn tally_fits(p: PlayerView) -> bool {
    &&& p.killcount < i32::MAX
    &&& p.frags.len() == MAXPLAYERS
    &&& forall|i: int| 0 <= i < MAXPLAYERS ==> i32::MIN < #[trigger] p.frags[i] < i32::MAX
}

fn credit_kill<C: InterContext>(source_idx: Option<usize>, target: MapObject, ctx: &mut C)
    requires
        source_idx matches Some(s) ==> s < old(ctx).mobjs_view().len()
            && (old(ctx).mobjs_view()[s as int].player matches Some(sp) ==> sp < old(ctx).players_view().len()),
        target.player matches Some(tp) ==> tp < old(ctx).players_view().len() && tp < MAXPLAYERS,
        old(ctx).players_view().len() > 0,
        forall|i: int| 0 <= i < old(ctx).players_view().len() ==> #[trigger] tally_fits(old(ctx).players_view()[i]),
    ensures
        final(ctx).players_view().len() == old(ctx).players_view().len(),
        final(ctx).players_view() == credited(old(ctx).players_view(), old(ctx).mobjs_view(), source_idx, target, old(ctx).rules_view().netgame),
        same_tables(*old(ctx), *final(ctx)),
        final(ctx).mobjs_view() == old(ctx).mobjs_view(),
        final(ctx).rng_view() == old(ctx).rng_view(),
        final(ctx).automap_view() == old(ctx).automap_view(),
        final(ctx).requests() == old(ctx).requests(),
{
    let ghost pre = *ctx;
    let netgame = ctx.rules().netgame;
    let mut by_player = false;
    match source_idx {
        Some(s) => {
            match ctx.mobjs()[s].player {
                Some(sp) => {
                    by_player = true;
                    let mut p = ctx.players()[sp];
                    assert(tally_fits(pre.players_view()[sp as int]));
                    match target.player {
                        Some(tp) => {
                            if sp == tp {
                                p.frags[sp] = p.frags[sp] - 1;
                                assert(p@ =~= fragged(pre.players_view()[sp as int], sp as int, -1));
                            } else {
                                p.frags[tp] = p.frags[tp] + 1;
                                assert(p@ =~= fragged(pre.players_view()[sp as int], tp as int, 1));
                            }
                            ctx.set_player(sp, p);
                        },
                        None => {
                            if target.flags & MF_COUNTKILL != 0 {
                                p.killcount = p.killcount + 1;
                                assert(p@ =~= one_more_kill(pre.players_view()[sp as int]));
                                ctx.set_player(sp, p);
                            }
                        },
                    }
                },
                None => {},
            }
        },
        None => {
            if let Some(tp) = target.player {
                let mut p = ctx.players()[tp];
                assert(tally_fits(pre.players_view()[tp as int]));
                p.frags[tp] = p.frags[tp] - 1;
                assert(p@ =~= fragged(pre.players_view()[tp as int], tp as int, -1));
                ctx.set_player(tp, p);
            }
        },
    }
    if !netgame && target.flags & MF_COUNTKILL != 0 && target.player.is_none() && !by_player {
        let mut p = ctx.players()[0];
        assert(tally_fits(pre.players_view()[0]));
        p.killcount = p.killcount + 1;
        assert(p@ =~= one_more_kill(ctx.players_view()[0]));
        ctx.set_player(0, p);
    }
}

/// `P_KillMobj`: `target` dies, killed by `source` (`None`: by the
/// world). Until its death state is set the outcome is exact
/// ([`kill_world`], [`kill_requests`]); the death state's actions are the
/// engine's. Afterwards its remaining tics are shortened by a random 0 to
/// 3, never below 1, and a zombie, sergeant, commando or SS drops its
/// item, spawned on the floor where it lies and marked as dropped.
#[verifier::rlimit(50)]
pub fn p_kill_mobj<C: InterContext>(source_idx: Option<usize>, target_idx: usize, ctx: &mut C)
    requires
        kill_fits(*old(ctx), source_idx, target_idx),
    ensures
        same_tables(*old(ctx), *final(ctx)),
        final(ctx).mobjs_view().len() >= old(ctx).mobjs_view().len(),
        final(ctx).players_view().len() == old(ctx).players_view().len(),
        killed_from(
            old(ctx).mobjs_view(),
            old(ctx).players_view(),
            old(ctx).requests(),
            old(ctx).info_view(old(ctx).mobjs_view()[target_idx as int].type_),
            old(ctx).rules_view(),
            old(ctx).automap_view(),
            source_idx,
            target_idx,
            *final(ctx),
        ),
        exists|cd: C| #[trigger] after_death(cd, *final(ctx), target_idx, dropped_item(old(ctx).mobjs_view()[target_idx as int].type_) is Some),
{
    let ghost pre = *ctx;
    let original = ctx.mobjs()[target_idx];
    let mut t = original;
    t.flags = t.flags & !(MF_SHOOTABLE | MF_FLOAT | MF_SKULLFLY);
    if t.type_ != MT_SKULL {
        t.flags = t.flags & !MF_NOGRAVITY;
    }
    t.flags = t.flags | MF_CORPSE | MF_DROPOFF;
    t.height = Fixed(t.height.0 >> 2u32);
    assert(t == corpse(original));
    ctx.set_mobj(target_idx, t);
    let rules = ctx.rules();
    credit_kill(source_idx, t, ctx);
    if let Some(tp) = t.player {
        let mut p = ctx.players()[tp];
        p.playerstate = PlayerState::Dead;
        ctx.set_player(tp, p);
        t.flags = t.flags & !MF_SOLID;
        ctx.set_mobj(target_idx, t);
        let ghost (ms, ps) = kill_world(pre.mobjs_view(), pre.players_view(), pre.rules_view().netgame, source_idx, target_idx);
        assert(ctx.mobjs_view() =~= ms);
        assert(ctx.players_view() =~= ps);
        ctx.p_drop_weapon(tp);
        if tp == rules.consoleplayer && ctx.automap_active() {
            ctx.am_stop();
        }
    } else {
        let ghost (ms, ps) = kill_world(pre.mobjs_view(), pre.players_view(), pre.rules_view().netgame, source_idx, target_idx);
        assert(ctx.mobjs_view() =~= ms);
        assert(ctx.players_view() =~= ps);
    }
    let info = ctx.thing_info(original.type_);
    let state = if original.health < -info.spawnhealth && info.xdeathstate != S_NULL {
        info.xdeathstate
    } else {
        info.deathstate
    };
    ctx.p_set_mobj_state(target_idx, state);
    let ghost cd = *ctx;
    assert(ctx.requests() =~= kill_requests(pre.requests(), pre.mobjs_view(), pre.players_view(), pre.info_view(original.type_), pre.rules_view(), pre.automap_view(), source_idx, target_idx));
    let ghost n = ctx.requests().len();
    let r = (ctx.p_random() & 3) as i32;
    let mut m = ctx.mobjs()[target_idx];
    let nt: i64 = m.tics as i64 - r as i64;
    m.tics = if nt < 1 { 1 } else { nt as i32 };
    ctx.set_mobj(target_idx, m);
    let item = if original.type_ == MT_WOLFSS || original.type_ == MT_POSSESSED {
        Some(MT_CLIP)
    } else if original.type_ == MT_SHOTGUY {
        Some(MT_SHOTGUN)
    } else if original.type_ == MT_CHAINGUY {
        Some(MT_CHAINGUN)
    } else {
        None
    };
    if let Some(mt) = item {
        let ghost before = *ctx;
        let idx = ctx.p_spawn_mobj(m.x, m.y, Fixed(ONFLOORZ), mt);
        let ghost cs = *ctx;
        let mut d = ctx.mobjs()[idx];
        let g = d.flags;
        let f = g | MF_DROPPED;
        assert(f & MF_DROPPED != 0) by (bit_vector)
            requires
                f == g | 0x20000u32,
        ;
        d.flags = f;
        ctx.set_mobj(idx, d);
        assert(ctx.mobjs_view()[idx as int].flags & MF_DROPPED != 0);
        assert(ctx.requests().subrange(0, n as int) =~= before.requests());
        assert(item_marked(cs, *ctx, idx, mt, m.x, m.y));
        assert(after_death(cd, *ctx, target_idx, true));
    } else {
        assert(ctx.requests().subrange(0, n as int) =~= ctx.requests());
        assert(after_death(cd, *ctx, target_idx, false));
    }
}

// ---------------------------------------------------------------------------
// P_DamageMobj
// ---------------------------------------------------------------------------

/// Half a turn.
pub const ANG180: u32 = 0x8000_0000;

/// Division truncated toward zero, as the machine divides.
pub open spec fn trunc_div(a: int, b: int) -> int {
    let q = abs(a) / abs(b);
    if (a < 0) == (b < 0) { q } else { -q }
}

/// Mathematical absolute value.
pub open spec fn abs(a: int) -> int {
    if a < 0 { -a } else { a }
}

/// `a / b` on 64-bit integers, truncated toward zero.
pub(crate) fn div_toward_zero(a: i64, b: i64) -> (r: i64)
    requires
        b != 0,
        a > i64::MIN,
        b > i64::MIN,
    ensures
        r == trunc_div(a as int, b as int),
{
    let ua: u64 = if a < 0 { (-a) as u64 } else { a as u64 };
    let ub: u64 = if b < 0 { (-b) as u64 } else { b as u64 };
    let q: u64 = ua / ub;
    assert(q <= ua) by (nonlinear_arith)
        requires
            q == ua / ub,
            ub >= 1,
    ;
    if (a < 0) == (b < 0) {
        q as i64
    } else {
        -(q as i64)
    }
}

/// A skull in flight stops dead when hit.
pub open spec fn stopped(t: MapObject) -> MapObject {
    if t.flags & MF_SKULLFLY != 0 {
        MapObject { momx: Fixed(0), momy: Fixed(0), momz: Fixed(0), ..t }
    } else {
        t
    }
}

/// The damage after the easiest skill halves what players take.
pub open spec fn skill_damage(t: MapObject, rules: GameRules, damage: i32) -> i32 {
    if t.player is Some && rules.skill == Skill::Baby { damage >> 1u32 } else { damage }
}

/// The damage comes from a player swinging the chainsaw.
pub open spec fn by_saw(ms: Seq<MapObject>, ps: Seq<PlayerView>, source: Option<usize>) -> bool {
    source matches Some(s) && ms[s as int].player matches Some(sp)
        && ps[sp as int].readyweapon == WeaponType::Chainsaw
}

/// The hit pushes the target: something hit it, it is not a ghost, and it
/// was not the chainsaw.
pub open spec fn pushes(t: MapObject, ms: Seq<MapObject>, ps: Seq<PlayerView>, inflictor: Option<usize>, source: Option<usize>) -> bool {
    inflictor is Some && t.flags & MF_NOCLIP == 0 && !by_saw(ms, ps, source)
}

/// The push: damage times an eighth of a unit times 100, over the mass.
pub open spec fn base_thrust(d: i32, mass: i32) -> i32 {
    trunc_div(d as int * 819200, mass as int) as i32
}

/// A killing blow of under 40 from well above may throw the body toward
/// the attacker.
pub open spec fn may_fall_forward(d: i32, t: MapObject, im: MapObject) -> bool {
    d < 40 && d > t.health && im.z.0 - t.z.0 > 64 * FRACUNIT
}

/// Thing `t` pushed along `ang` by `thrust`.
pub open spec fn pushed<C: InterContext>(c: C, t: MapObject, ang: Angle, thrust: i32) -> MapObject {
    let fine = ((ang.0 >> 19u32) & 0x1FFFu32) as usize;
    let cos = c.sine_view((fine + 2048) as usize);
    let sin = c.sine_view(fine);
    MapObject {
        momx: Fixed(t.momx.0.wrapping_add(fixed_mul_spec(thrust, cos.0))),
        momy: Fixed(t.momy.0.wrapping_add(fixed_mul_spec(thrust, sin.0))),
        ..t
    }
}

/// The things and the random stream after the hit's push (away from the
/// inflictor, or, for a fall forward, toward it four times as hard), and
/// the damage after the skill adjustment.
pub open spec fn shove<C: InterContext>(c: C, target: usize, inflictor: Option<usize>, source: Option<usize>, damage: i32) -> (Seq<MapObject>, DoomRandom, i32) {
    let t = stopped(c.mobjs_view()[target as int]);
    let ms0 = c.mobjs_view().update(target as int, t);
    let d = skill_damage(t, c.rules_view(), damage);
    if pushes(t, ms0, c.players_view(), inflictor, source) {
        let im = ms0[inflictor.unwrap() as int];
        let ang = c.angle_view(im.x, im.y, t.x, t.y);
        let th = base_thrust(d, c.info_view(t.type_).mass);
        if may_fall_forward(d, t, im) {
            let rng = c.rng_view();
            if rng.next_p() & 1 != 0 {
                (ms0.update(target as int, pushed(c, t, Angle(ang.0.wrapping_add(ANG180)), (th * 4) as i32)), rng.advanced(), d)
            } else {
                (ms0.update(target as int, pushed(c, t, ang, th)), rng.advanced(), d)
            }
        } else {
            (ms0.update(target as int, pushed(c, t, ang, th)), c.rng_view(), d)
        }
    } else {
        (ms0, c.rng_view(), d)
    }
}

/// A god-mode or invulnerable player ignores damage under 1000.
pub open spec fn immune(p: PlayerView, d: int) -> bool {
    (p.cheats & CF_GODMODE != 0 || p.powers[0] != 0) && d < 1000
}

/// The armor's share of the damage: a third for green armor, half for
/// blue, at most the points left.
pub open spec fn armor_share(p: PlayerView, d: int) -> int {
    if p.armortype == 0 {
        0
    } else if p.armortype == 1 {
        trunc_div(d, 3)
    } else {
        trunc_div(d, 2)
    }
}

/// A player taking `d` damage from `source`: the armor absorbs its share
/// (and is gone when that used it up), the rest comes off health (not
/// below 0) and adds to the damage flash (up to 100). Also the damage
/// left after the armor.
pub open spec fn hurt_player(p: PlayerView, d: int, source: Option<usize>) -> (PlayerView, int) {
    let s0 = armor_share(p, d);
    let (p1, saved) = if s0 > 0 {
        if p.armorpoints <= s0 {
            (PlayerView { armorpoints: 0, armortype: 0, ..p }, p.armorpoints)
        } else {
            (PlayerView { armorpoints: p.armorpoints - s0, ..p }, s0)
        }
    } else {
        (p, 0)
    };
    let d2 = d - saved;
    let h = p1.health - d2;
    let dc = p1.damagecount + d2;
    (PlayerView {
        attacker: source,
        health: if h < 0 { 0 } else { h },
        damagecount: if dc > 100 { 100 } else { dc },
        ..p1
    }, d2)
}

/// The target takes the retaliation its damage provokes: it reacts at
/// once, and turns on `source` unless it is busy chasing another target
/// (an arch-vile is always worth turning on).
pub open spec fn retargets(m: MapObject, ms: Seq<MapObject>, source: Option<usize>, target: usize) -> bool {
    source matches Some(src) && src != target
        && (m.threshold == 0 || m.target is None || ms[src as int].type_ == MT_VILE)
}

/// Thing `m` after its retaliation.
pub open spec fn retargeted(m: MapObject, ms: Seq<MapObject>, source: Option<usize>, target: usize) -> MapObject {
    let m1 = MapObject { reactiontime: 0, ..m };
    if retargets(m, ms, source, target) {
        MapObject { target: source, threshold: BASETHRESHOLD, ..m1 }
    } else {
        m1
    }
}

/// The retaliation, ending in world `ms` (things) with the see-state
/// request `see` made or not: some state `x` of the target became
/// [`retargeted`], and a sleeping monster that turned on the source was
/// woken into its see state.
pub open spec fn retaliated(ms: Seq<MapObject>, info: ThingInfo, source: Option<usize>, target: usize, see: bool) -> bool {
    exists|x: MapObject| {
        &&& #[trigger] retargeted(x, ms, source, target) == ms[target as int]
        &&& see == (retargets(x, ms, source, target) && x.state == Some(info.spawnstate) && info.seestate != S_NULL)
    }
}

/// The arithmetic of a hit stays within `i32`, and the things, players
/// and tables it reads are there.
pub open spec fn damage_fits<C: InterContext>(c: C, target: usize, inflictor: Option<usize>, source: Option<usize>, damage: i32) -> bool {
    let ms = c.mobjs_view();
    let t = stopped(ms[target as int]);
    let ms0 = ms.update(target as int, t);
    let d = skill_damage(t, c.rules_view(), damage);
    let (ms1, rng1, d1) = shove(c, target, inflictor, source, damage);
    &&& target < ms.len()
    &&& inflictor matches Some(i) ==> i < ms.len()
    &&& kill_fits(c, source, target)
    &&& pushes(t, ms0, c.players_view(), inflictor, source) ==> {
        let im = ms0[inflictor.unwrap() as int];
        let th = base_thrust(d, c.info_view(t.type_).mass);
        &&& c.info_view(t.type_).mass != 0
        &&& (d < 40 && d > t.health) ==> i32::MIN <= im.z.0 - t.z.0 <= i32::MAX
        &&& may_fall_forward(d, t, im) ==> i32::MIN <= th * 4 <= i32::MAX
    }
    &&& match t.player {
        Some(tp) => {
            let (pv, d2) = hurt_player(c.players_view()[tp as int], d as int, source);
            &&& i32::MIN <= d2 <= i32::MAX
            &&& i32::MIN <= c.players_view()[tp as int].health - d2 <= i32::MAX
            &&& i32::MIN <= c.players_view()[tp as int].damagecount + d2 <= i32::MAX
            &&& i32::MIN <= 40 + d2
            &&& i32::MIN <= ms1[target as int].health - d2 <= i32::MAX
        },
        None => i32::MIN <= ms1[target as int].health - d <= i32::MAX,
    }
}

fn wields_saw<C: InterContext>(source: Option<usize>, ctx: &C) -> (r: bool)
    requires
        source matches Some(s) ==> s < ctx.mobjs_view().len()
            && (ctx.mobjs_view()[s as int].player matches Some(sp) ==> sp < ctx.players_view().len()),
    ensures
        r == by_saw(ctx.mobjs_view(), ctx.players_view(), source),
{
    match source {
        Some(s) => match ctx.mobjs()[s].player {
            Some(sp) => ctx.players()[sp].readyweapon == WeaponType::Chainsaw,
            None => false,
        },
        None => false,
    }
}

/// The first stage of a hit: stop a flying skull, halve a player's damage
/// on the easiest skill, push the target.
fn shove_target<C: InterContext>(target_idx: usize, inflictor_idx: Option<usize>, source_idx: Option<usize>, damage: i32, ctx: &mut C) -> (d: i32)
    requires
        damage_fits(*old(ctx), target_idx, inflictor_idx, source_idx, damage),
    ensures
        (final(ctx).mobjs_view(), final(ctx).rng_view(), d) == shove(*old(ctx), target_idx, inflictor_idx, source_idx, damage),
        same_tables(*old(ctx), *final(ctx)),
        final(ctx).players_view() == old(ctx).players_view(),
        final(ctx).automap_view() == old(ctx).automap_view(),
        final(ctx).requests() == old(ctx).requests(),
{
    let ghost pre = *ctx;
    let mut t = ctx.mobjs()[target_idx];
    if t.flags & MF_SKULLFLY != 0 {
        t.momx = Fixed(0);
        t.momy = Fixed(0);
        t.momz = Fixed(0);
    }
    ctx.set_mobj(target_idx, t);
    let rules = ctx.rules();
    let mut d = damage;
    if t.player.is_some() && rules.skill == Skill::Baby {
        d = d >> 1u32;
    }
    if let Some(inf) = inflictor_idx {
        if t.flags & MF_NOCLIP == 0 && !wields_saw(source_idx, ctx) {
            let im = ctx.mobjs()[inf];
            let mut ang = ctx.point_to_angle2(im.x, im.y, t.x, t.y);
            let mass = ctx.thing_info(t.type_).mass;
            let q = div_toward_zero(d as i64 * 819200, mass as i64);
            let mut thrust: i32 = #[verifier::truncate] (q as i32);
            if d < 40 && d > t.health && im.z.0 - t.z.0 > 64 * FRACUNIT {
                if ctx.p_random() & 1 != 0 {
                    ang = Angle(ang.0.wrapping_add(ANG180));
                    thrust = thrust * 4;
                }
            }
            let a = ang.0;
            let fine: u32 = (a >> 19u32) & 0x1FFFu32;
            assert(((a >> 19u32) & 0x1FFFu32) <= 0x1FFFu32) by (bit_vector);
            let cos = ctx.fine_sine(fine as usize + 2048);
            let sin = ctx.fine_sine(fine as usize);
            t.momx = Fixed(t.momx.0.wrapping_add(Fixed(thrust).fixed_mul(cos).0));
            t.momy = Fixed(t.momy.0.wrapping_add(Fixed(thrust).fixed_mul(sin).0));
            ctx.set_mobj(target_idx, t);
            assert(ctx.mobjs_view() =~= shove(pre, target_idx, inflictor_idx, source_idx, damage).0);
        }
    }
    d
}

/// The player part of a hit: `None` when the player shrugs it off;
/// otherwise the player is hurt, the controller rumbles, and the damage
/// left after the armor is returned.
fn hurt_target_player<C: InterContext>(tp: usize, d: i32, source_idx: Option<usize>, ctx: &mut C) -> (r: Option<i32>)
    requires
        tp < old(ctx).players_view().len(),
        player_shaped(old(ctx).players_view()[tp as int]),
        ({
            let (pv, d2) = hurt_player(old(ctx).players_view()[tp as int], d as int, source_idx);
            &&& i32::MIN <= d2 <= i32::MAX
            &&& i32::MIN <= old(ctx).players_view()[tp as int].health - d2 <= i32::MAX
            &&& i32::MIN <= old(ctx).players_view()[tp as int].damagecount + d2 <= i32::MAX
            &&& i32::MIN <= 40 + d2
        }),
    ensures
        same_tables(*old(ctx), *final(ctx)),
        final(ctx).mobjs_view() == old(ctx).mobjs_view(),
        final(ctx).rng_view() == old(ctx).rng_view(),
        final(ctx).automap_view() == old(ctx).automap_view(),
        ({
            let p = old(ctx).players_view()[tp as int];
            let (pv, d2) = hurt_player(p, d as int, source_idx);
            if immune(p, d as int) {
                &&& r is None
                &&& final(ctx).players_view() == old(ctx).players_view()
                &&& final(ctx).requests() == old(ctx).requests()
            } else {
                let ps = old(ctx).players_view().update(tp as int, pv);
                let total = 40 + if d2 < 100 { d2 } else { 100 };
                &&& r == Some(d2 as i32)
                &&& final(ctx).players_view() == ps
                &&& final(ctx).requests() == old(ctx).requests().push(
                    (InterEvent::Tactile { on: 40, off: 10, total: total as i32 }, old(ctx).mobjs_view(), ps),
                )
            }
        }),
{
    let ghost pre = *ctx;
    let mut p = ctx.players()[tp];
    assert(p@ == pre.players_view()[tp as int]);
    if (p.cheats & CF_GODMODE != 0 || p.powers[0] != 0) && d < 1000 {
        return None;
    }
    let mut dd = d;
    let mut saved: i32 = 0;
    if p.armortype != 0 {
        let dl = d as i64;
        if p.armortype == 1 {
            saved = div_toward_zero(dl, 3) as i32;
        } else {
            saved = div_toward_zero(dl, 2) as i32;
        }
    }
    assert(saved == armor_share(pre.players_view()[tp as int], d as int));
    if saved > 0 {
        if p.armorpoints <= saved {
            saved = p.armorpoints;
            p.armortype = 0;
        }
        p.armorpoints = p.armorpoints - saved;
        dd = dd - saved;
    }
    p.attacker = source_idx;
    p.health = p.health - dd;
    if p.health < 0 {
        p.health = 0;
    }
    p.damagecount = p.damagecount + dd;
    if p.damagecount > 100 {
        p.damagecount = 100;
    }
    assert(p@ =~= hurt_player(pre.players_view()[tp as int], d as int, source_idx).0);
    ctx.set_player(tp, p);
    let capped = if dd < 100 { dd } else { 100 };
    ctx.i_tactile(40, 10, 40 + capped);
    Some(dd)
}

/// The player stage of a hit on the target (things `ms`): `None` when a
/// player target shrugs it off; otherwise the players, the requests and
/// the damage the target's thing takes.
pub open spec fn struck<C: InterContext>(c: C, ms: Seq<MapObject>, target: usize, d: i32, source: Option<usize>) -> Option<(Seq<PlayerView>, Seq<(InterEvent, Seq<MapObject>, Seq<PlayerView>)>, int)> {
    match ms[target as int].player {
        Some(tp) => {
            let p = c.players_view()[tp as int];
            if immune(p, d as int) {
                None
            } else {
                let (pv, d2) = hurt_player(p, d as int, source);
                let ps = c.players_view().update(tp as int, pv);
                let total = 40 + if d2 < 100 { d2 } else { 100 };
                Some((ps, c.requests().push((InterEvent::Tactile { on: 40, off: 10, total: total as i32 }, ms, ps)), d2))
            }
        },
        None => Some((c.players_view(), c.requests(), d as int)),
    }
}

/// After the pain state of thing `t` was set (the engine's answer to it is
/// `cp`), the world the damage leaves (or requests its see state with) is
/// `cp`'s, with the thing turned on its attacker ([`retargeted`]); nothing
/// else follows but that request.
pub open spec fn ache_left<C: InterContext>(cp: C, post: C, t: usize, source: Option<usize>) -> bool {
    let k = cp.requests().len() as int;
    let see = post.requests().len() == k + 1;
    let w_ms = if see { post.requests()[k].1 } else { post.mobjs_view() };
    let w_ps = if see { post.requests()[k].2 } else { post.players_view() };
    &&& w_ms == cp.mobjs_view().update(t as int, retargeted(cp.mobjs_view()[t as int], cp.mobjs_view(), source, t))
    &&& w_ps == cp.players_view()
    &&& post.requests().len() >= k
    &&& post.requests().subrange(0, k) == cp.requests()
    &&& !see ==> post.rng_view() == cp.rng_view() && post.automap_view() == cp.automap_view()
}

/// `P_DamageMobj`: `target` takes `damage` from `inflictor` (what hit it)
/// on behalf of `source` (who is to blame). Things that cannot be shot or
/// are dead are left alone. Otherwise the target is pushed ([`shove`]); a
/// player target may shrug the hit off, or is hurt ([`hurt_player`]);
/// the target's thing loses the damage left. At or below zero health it
/// dies as [`p_kill_mobj`] says ([`killed_from`]). Otherwise, on a random
/// roll under its pain chance (never for a flying skull), it flinches
/// and enters its pain state; then it retaliates ([`retaliated`]),
/// entering its see state when woken. Up to the pain request, and when
/// there is none, to the end, the outcome is exact.
pub fn p_damage_mobj<C: InterContext>(target_idx: usize, inflictor_idx: Option<usize>, source_idx: Option<usize>, damage: i32, ctx: &mut C)
    requires
        damage_fits(*old(ctx), target_idx, inflictor_idx, source_idx, damage),
    ensures
        same_tables(*old(ctx), *final(ctx)),
        final(ctx).mobjs_view().len() >= old(ctx).mobjs_view().len(),
        final(ctx).players_view().len() == old(ctx).players_view().len(),
        ({
            let pre = *old(ctx);
            let post = *final(ctx);
            let t0 = pre.mobjs_view()[target_idx as int];
            if t0.flags & MF_SHOOTABLE == 0 || t0.health <= 0 {
                kept(pre, post) && post.requests() == pre.requests()
            } else {
                let (ms1, rng1, d) = shove(pre, target_idx, inflictor_idx, source_idx, damage);
                let t1 = ms1[target_idx as int];
                let info = pre.info_view(t1.type_);
                match struck(pre, ms1, target_idx, d, source_idx) {
                    None => {
                        &&& post.mobjs_view() == ms1
                        &&& post.rng_view() == rng1
                        &&& post.players_view() == pre.players_view()
                        &&& post.automap_view() == pre.automap_view()
                        &&& post.requests() == pre.requests()
                    },
                    Some((ps2, reqs2, d2)) => {
                        let t2 = MapObject { health: (t1.health - d2) as i32, ..t1 };
                        let ms2 = ms1.update(target_idx as int, t2);
                        if t2.health <= 0 {
                            killed_from(ms2, ps2, reqs2, info, pre.rules_view(), pre.automap_view(), source_idx, target_idx, post)
                        } else {
                            let pain = (rng1.next_p() as i32) < info.painchance && t2.flags & MF_SKULLFLY == 0;
                            let ms3 = if pain { ms2.update(target_idx as int, MapObject { flags: t2.flags | MF_JUSTHIT, ..t2 }) } else { ms2 };
                            let ached = pain && info.painstate != S_NULL;
                            let reqs3 = if ached {
                                reqs2.push((InterEvent::SetState { mobj: target_idx, state: info.painstate }, ms3, ps2))
                            } else {
                                reqs2
                            };
                            let k = reqs3.len();
                            let see = post.requests().len() == k + 1;
                            let w_ms = if see { post.requests()[k as int].1 } else { post.mobjs_view() };
                            let w_ps = if see { post.requests()[k as int].2 } else { post.players_view() };
                            &&& post.requests().len() == k || see
                            &&& post.requests().subrange(0, k as int) == reqs3
                            &&& see ==> post.requests()[k as int].0 == InterEvent::SetState { mobj: target_idx, state: info.seestate }
                            &&& retaliated(w_ms, info, source_idx, target_idx, see)
                            &&& !ached ==> {
                                &&& w_ms == ms3.update(target_idx as int, retargeted(ms3[target_idx as int], ms3, source_idx, target_idx))
                                &&& w_ps == ps2
                                &&& !see ==> post.rng_view() == rng1.advanced() && post.automap_view() == pre.automap_view()
                            }
                            &&& ached ==> exists|cp: C| #[trigger] ache_left(cp, post, target_idx, source_idx)
                        }
                    },
                }
            }
        }),
{
    let ghost pre = *ctx;
    let t0 = ctx.mobjs()[target_idx];
    if t0.flags & MF_SHOOTABLE == 0 {
        return;
    }
    if t0.health <= 0 {
        return;
    }
    let d = shove_target(target_idx, inflictor_idx, source_idx, damage, ctx);
    let ghost shoved = *ctx;
    let mut t = ctx.mobjs()[target_idx];
    let mut d2 = d;
    if let Some(tp) = t.player {
        let pl = ctx.players()[tp];
        proof {
            lemma_player_shaped(pl);
        }
        match hurt_target_player(tp, d, source_idx, ctx) {
            Some(left) => {
                d2 = left;
            },
            None => {
                return;
            },
        }
    }
    let ghost hit = *ctx;
    t.health = t.health - d2;
    ctx.set_mobj(target_idx, t);
    let info = ctx.thing_info(t.type_);
    if t.health <= 0 {
        proof {
            assert forall|i: int| 0 <= i < ctx.players_view().len() implies #[trigger] tally_fits(ctx.players_view()[i]) by {
                assert(tally_fits(pre.players_view()[i]));
                if let Some(tp) = t.player {
                    if i == tp {
                        let pv = hurt_player(pre.players_view()[i], d as int, source_idx).0;
                        assert(pv.killcount == pre.players_view()[i].killcount);
                        assert(pv.frags == pre.players_view()[i].frags);
                    }
                }
            }
            assert(ctx.mobjs_view()[target_idx as int].type_ == pre.mobjs_view()[target_idx as int].type_);
            assert(ctx.mobjs_view()[target_idx as int].player == pre.mobjs_view()[target_idx as int].player);
            if let Some(s) = source_idx {
                assert(ctx.mobjs_view()[s as int].player == pre.mobjs_view()[s as int].player);
            }
        }
        assert(kill_fits(*ctx, source_idx, target_idx));
        p_kill_mobj(source_idx, target_idx, ctx);
        return;
    }
    let roll = ctx.p_random();
    let pain = (roll as i32) < info.painchance && t.flags & MF_SKULLFLY == 0;
    if pain {
        t.flags = t.flags | MF_JUSTHIT;
        ctx.set_mobj(target_idx, t);
        if info.painstate != S_NULL {
            ctx.p_set_mobj_state(target_idx, info.painstate);
        }
    }
    let ghost reqs3 = ctx.requests();
    let ghost cp = *ctx;
    let ghost x = ctx.mobjs_view()[target_idx as int];
    let ghost xs = ctx.mobjs_view();
    let mut m = ctx.mobjs()[target_idx];
    m.reactiontime = 0;
    ctx.set_mobj(target_idx, m);
    if let Some(src) = source_idx {
        let vile = ctx.mobjs()[src].type_ == MT_VILE;
        let should = if m.threshold != 0 && m.target.is_some() { vile } else { true };
        if should && src != target_idx {
            m.target = Some(src);
            m.threshold = BASETHRESHOLD;
            ctx.set_mobj(target_idx, m);
            assert(retargeted(x, ctx.mobjs_view(), source_idx, target_idx) == ctx.mobjs_view()[target_idx as int]);
            if m.state == Some(info.spawnstate) && info.seestate != S_NULL {
                ctx.p_set_mobj_state(target_idx, info.seestate);
            }
        } else {
            assert(retargeted(x, ctx.mobjs_view(), source_idx, target_idx) == ctx.mobjs_view()[target_idx as int]);
        }
    } else {
        assert(retargeted(x, ctx.mobjs_view(), source_idx, target_idx) == ctx.mobjs_view()[target_idx as int]);
    }
    assert(ctx.requests().subrange(0, reqs3.len() as int) =~= reqs3);
    proof {
        let k = reqs3.len();
        let see = ctx.requests().len() == k + 1;
        let w_ms = if see { ctx.requests()[k as int].1 } else { ctx.mobjs_view() };
        let w_ps = if see { ctx.requests()[k as int].2 } else { ctx.players_view() };
        assert(w_ps == cp.players_view());
        assert(!see ==> ctx.rng_view() == cp.rng_view());
        assert(!see ==> ctx.automap_view() == cp.automap_view());
        assert(w_ms == cp.mobjs_view().update(target_idx as int, retargeted(cp.mobjs_view()[target_idx as int], cp.mobjs_view(), source_idx, target_idx)));
        assert(ache_left(cp, *ctx, target_idx, source_idx));
    }
}

/// Blue armor (type 2) with points to spare takes half of the damage,
/// rounded down: the armor loses `s` points with `2 s <= d <= 2 s + 1`, the
/// health loses the rest `d - s` (down to 0), and that rest is the damage
/// left. For the same player and damage of 2 or of at least 4, blue armor
/// leaves strictly less damage than green armor (type 1); at 3 both take 1.
pub proof fn law_blue_armor_takes_half(p: PlayerView, d: int, source: Option<usize>)
    requires
        0 <= d,
        p.armorpoints > d,
    ensures
        ({
            let b = PlayerView { armortype: 2, ..p };
            let (after, left) = hurt_player(b, d, source);
            let s = p.armorpoints - after.armorpoints;
            &&& 2 * s <= d <= 2 * s + 1
            &&& left == d - s
            &&& after.armortype == 2
            &&& after.health == if p.health - left < 0 { 0 } else { p.health - left }
        }),
        (d == 2 || d >= 4) ==> hurt_player(PlayerView { armortype: 2, ..p }, d, source).1 < hurt_player(PlayerView { armortype: 1, ..p }, d, source).1,
{
    let b = PlayerView { armortype: 2, ..p };
    let g = PlayerView { armortype: 1, ..p };
    assert(armor_share(b, d) == d / 2);
    assert(armor_share(g, d) == d / 3);
    if d == 2 || d >= 4 {
        vstd::arithmetic::div_mod::lemma_fundamental_div_mod(d, 3);
        vstd::arithmetic::div_mod::lemma_fundamental_div_mod(d, 2);
        vstd::arithmetic::div_mod::lemma_mod_bound(d, 2);
        vstd::arithmetic::div_mod::lemma_mod_bound(d, 3);
        if d == 2 {
            assert(d / 3 == 0 && d / 2 == 1);
        } else {
            assert(d / 3 < d / 2);
        }
    }
}

} // verus!
