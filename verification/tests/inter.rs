use lib::enemy::GameMode;
use lib::fixed::{Fixed, FRACUNIT};
use lib::inter::{
    give_pickup, p_damage_mobj, p_give_power, p_kill_mobj, p_touch_special_thing, GameRules, InterEvent, Player, PspDef,
    PlayerState, PowerType, Skill, ThingInfo, WeaponType, BASETHRESHOLD, GOTBACKPACK, GOTBLUECARD, GOTMEDINEED,
    GOTSHOTGUN, GOTSUPER, INVULNTICS, MT_CLIP, MT_POSSESSED, ONFLOORZ, SPR_BKEY, SPR_BPAK, SPR_MEDI, SPR_SHOT,
    SPR_SOUL, SPR_STIM,
};
use lib::level::InterLevel;
use lib::types::{
    MapObject, SfxEnum, MF_CORPSE, MF_COUNTKILL, MF_DROPOFF, MF_DROPPED, MF_JUSTHIT, MF_SHOOTABLE, MF_SOLID,
};

const F: i32 = FRACUNIT;

fn player() -> Player {
    Player {
        health: 100,
        armorpoints: 0,
        armortype: 0,
        powers: [0; 6],
        cards: [false; 6],
        backpack: false,
        frags: [0; 4],
        readyweapon: WeaponType::Pistol,
        pendingweapon: WeaponType::NoChange,
        weaponowned: [true, true, false, false, false, false, false, false, false],
        ammo: [50, 0, 0, 0],
        maxammo: [200, 50, 300, 50],
        cheats: 0,
        message: None,
        bonuscount: 0,
        damagecount: 0,
        killcount: 0,
        itemcount: 0,
        playerstate: PlayerState::Live,
        attacker: None,
        viewheight: Fixed(41 * F),
        deltaviewheight: Fixed(0),
        forwardmove: 0,
        sidemove: 0,
        mobj: None,
        psprites: [PspDef { state: None, tics: 0, sx: Fixed(0), sy: Fixed(0) }; 2],
        refire: 0,
        attackdown: 0,
        buttons: 0,
        extralight: 0,
        fixedcolormap: 0,
        bob: Fixed(0),
    }
}

fn rules(skill: Skill, netgame: bool) -> GameRules {
    GameRules { skill, mode: GameMode::Commercial, netgame, deathmatch: 0, consoleplayer: 0 }
}

fn info() -> ThingInfo {
    ThingInfo {
        spawnstate: 10,
        seestate: 11,
        spawnhealth: 20,
        painstate: 12,
        painchance: 0,
        deathstate: 13,
        xdeathstate: 14,
        mass: 100,
    }
}

/// Thing 0 is the player's thing, thing 1 an item drawn with `sprite`.
fn pickup_level(sprite: i32, p: Player, netgame: bool) -> InterLevel {
    let toucher = MapObject { health: p.health, height: Fixed(56 * F), player: Some(0), ..MapObject::default() };
    let item = MapObject { sprite, ..MapObject::default() };
    InterLevel::new(vec![toucher, item], vec![p], vec![info(); 80], rules(Skill::Medium, netgame))
}

#[test]
fn give_power_sets_timers() {
    let mut p = player();
    assert!(p_give_power(&mut p, PowerType::Invulnerability));
    assert_eq!(p.powers[0], INVULNTICS);
    p.health = 40;
    assert!(p_give_power(&mut p, PowerType::Strength));
    assert_eq!(p.health, 100);
    assert_eq!(p.powers[1], 1);
    assert!(p_give_power(&mut p, PowerType::AllMap));
    assert!(!p_give_power(&mut p, PowerType::AllMap));
    assert_eq!(p.powers[4], 1);
}

#[test]
fn medikit_when_badly_hurt() {
    let mut p = player();
    p.health = 20;
    let mut lv = pickup_level(SPR_MEDI, p, false);
    p_touch_special_thing(1, 0, &mut lv);
    assert_eq!(lv.players[0].health, 45);
    assert_eq!(lv.players[0].message, Some(GOTMEDINEED));
    assert_eq!(lv.players[0].bonuscount, 6);
    assert_eq!(
        lv.log,
        vec![
            InterEvent::RemoveMobj { mobj: 1 },
            InterEvent::Sound { origin: Some(0), sfx: SfxEnum::sfx_itemup },
        ]
    );
}

#[test]
fn stimpack_refused_at_full_health() {
    let mut lv = pickup_level(SPR_STIM, player(), false);
    p_touch_special_thing(1, 0, &mut lv);
    assert_eq!(lv.players[0].health, 100);
    assert_eq!(lv.players[0].bonuscount, 0);
    assert!(lv.log.is_empty());
}

#[test]
fn item_out_of_reach_is_not_touched() {
    let mut p = player();
    p.health = 20;
    let mut lv = pickup_level(SPR_MEDI, p, false);
    lv.mobjs[1].z = Fixed(60 * F);
    p_touch_special_thing(1, 0, &mut lv);
    assert_eq!(lv.players[0].health, 20);
    assert!(lv.log.is_empty());
}

#[test]
fn key_stays_in_net_games() {
    let mut lv = pickup_level(SPR_BKEY, player(), true);
    p_touch_special_thing(1, 0, &mut lv);
    assert!(lv.players[0].cards[0]);
    assert_eq!(lv.players[0].message, Some(GOTBLUECARD));
    assert_eq!(lv.players[0].bonuscount, 12);
    assert_eq!(lv.log, vec![InterEvent::Sound { origin: Some(0), sfx: SfxEnum::sfx_itemup }]);
}

#[test]
fn soulsphere_caps_at_200_and_syncs_the_thing() {
    let mut p = player();
    p.health = 150;
    let mut lv = pickup_level(SPR_SOUL, p, false);
    p_touch_special_thing(1, 0, &mut lv);
    assert_eq!(lv.players[0].health, 200);
    assert_eq!(lv.mobjs[0].health, 200);
    assert_eq!(lv.players[0].message, Some(GOTSUPER));
    assert_eq!(lv.log[1], InterEvent::Sound { origin: Some(0), sfx: SfxEnum::sfx_getpow });
}

#[test]
fn backpack_doubles_capacity_once() {
    let mut p = player();
    assert_eq!(give_pickup(&mut p, SPR_BPAK, false, rules(Skill::Medium, false)).is_some(), true);
    assert_eq!(p.maxammo, [400, 100, 600, 100]);
    assert_eq!(p.ammo, [60, 4, 20, 1]);
    assert_eq!(p.message, Some(GOTBACKPACK));
    give_pickup(&mut p, SPR_BPAK, false, rules(Skill::Medium, false));
    assert_eq!(p.maxammo, [400, 100, 600, 100]);
}

#[test]
fn shotgun_pickup_switches_and_loads() {
    let mut p = player();
    let r = give_pickup(&mut p, SPR_SHOT, false, rules(Skill::Medium, false)).unwrap();
    assert_eq!(r.sound, SfxEnum::sfx_wpnup);
    assert!(p.weaponowned[2]);
    assert_eq!(p.pendingweapon, WeaponType::Shotgun);
    assert_eq!(p.ammo[1], 8);
    assert_eq!(p.message, Some(GOTSHOTGUN));
    let mut q = player();
    give_pickup(&mut q, SPR_SHOT, false, rules(Skill::Baby, false));
    assert_eq!(q.ammo[1], 16);
}

#[test]
fn net_game_weapon_is_left_for_others() {
    let mut p = player();
    let r = give_pickup(&mut p, SPR_SHOT, false, rules(Skill::Medium, true));
    assert!(r.is_none());
    assert!(p.weaponowned[2]);
    assert_eq!(p.bonuscount, 6);
    assert_eq!(p.pendingweapon, WeaponType::Shotgun);
}

/// Thing 0 is the killer (player 0's thing), thing 1 a zombie.
fn kill_level() -> InterLevel {
    let killer = MapObject { health: 100, player: Some(0), ..MapObject::default() };
    let zombie = MapObject {
        x: Fixed(5 * F),
        y: Fixed(7 * F),
        health: 0,
        height: Fixed(56 * F),
        tics: 4,
        type_: MT_POSSESSED,
        flags: MF_SHOOTABLE | MF_SOLID | MF_COUNTKILL,
        ..MapObject::default()
    };
    InterLevel::new(vec![killer, zombie], vec![player()], vec![info(); 80], rules(Skill::Medium, false))
}

#[test]
fn killing_a_zombie_drops_a_clip() {
    let mut lv = kill_level();
    p_kill_mobj(Some(0), 1, &mut lv);
    assert_eq!(lv.players[0].killcount, 1);
    assert_eq!(lv.mobjs[1].flags, MF_SOLID | MF_COUNTKILL | MF_CORPSE | MF_DROPOFF);
    assert_eq!(lv.mobjs[1].height, Fixed(14 * F));
    assert_eq!(
        lv.log,
        vec![
            InterEvent::SetState { mobj: 1, state: 13 },
            InterEvent::SpawnMobj { x: Fixed(5 * F), y: Fixed(7 * F), z: Fixed(ONFLOORZ), mtype: MT_CLIP },
        ]
    );
    assert_eq!(lv.mobjs.len(), 3);
    assert_ne!(lv.mobjs[2].flags & MF_DROPPED, 0);
    // The first play-stream value is 8: 8 & 3 takes nothing off.
    assert_eq!(lv.mobjs[1].tics, 4);
}

#[test]
fn overkill_uses_the_extreme_death() {
    let mut lv = kill_level();
    lv.mobjs[1].health = -30;
    p_kill_mobj(None, 1, &mut lv);
    assert_eq!(lv.log[0], InterEvent::SetState { mobj: 1, state: 14 });
    // No killer in a single-player game still counts for the first player.
    assert_eq!(lv.players[0].killcount, 1);
}

#[test]
fn dying_player_drops_weapon_and_loses_a_frag() {
    let mut lv = kill_level();
    lv.mobjs[1] = MapObject { player: Some(0), health: -1, flags: MF_SHOOTABLE | MF_SOLID, ..MapObject::default() };
    lv.automap = true;
    p_kill_mobj(None, 1, &mut lv);
    assert_eq!(lv.players[0].frags[0], -1);
    assert_eq!(lv.players[0].playerstate, PlayerState::Dead);
    assert_eq!(lv.mobjs[1].flags & MF_SOLID, 0);
    assert!(!lv.automap);
    assert_eq!(
        lv.log,
        vec![
            InterEvent::DropWeapon { player: 0 },
            InterEvent::AutomapStop,
            InterEvent::SetState { mobj: 1, state: 13 },
        ]
    );
}

/// Thing 0 is player 0's thing with green armor, thing 1 a monster.
fn damage_level() -> InterLevel {
    let mut p = player();
    p.armortype = 1;
    p.armorpoints = 100;
    let me = MapObject { health: 100, player: Some(0), flags: MF_SHOOTABLE, ..MapObject::default() };
    let imp = MapObject { health: 60, flags: MF_SHOOTABLE, state: Some(10), ..MapObject::default() };
    InterLevel::new(vec![me, imp], vec![p], vec![info(); 80], rules(Skill::Medium, false))
}

#[test]
fn armor_absorbs_a_third() {
    let mut lv = damage_level();
    p_damage_mobj(0, None, Some(1), 30, &mut lv);
    assert_eq!(lv.players[0].armorpoints, 90);
    assert_eq!(lv.players[0].health, 80);
    assert_eq!(lv.players[0].damagecount, 20);
    assert_eq!(lv.players[0].attacker, Some(1));
    assert_eq!(lv.mobjs[0].health, 80);
    assert_eq!(lv.log, vec![InterEvent::Tactile { on: 40, off: 10, total: 60 }]);
    assert_eq!(lv.mobjs[0].target, Some(1));
    assert_eq!(lv.mobjs[0].threshold, BASETHRESHOLD);
}

#[test]
fn god_mode_ignores_small_damage() {
    let mut lv = damage_level();
    lv.players[0].cheats = 2;
    p_damage_mobj(0, None, Some(1), 30, &mut lv);
    assert_eq!(lv.players[0].health, 100);
    assert!(lv.log.is_empty());
}

#[test]
fn unshootable_things_take_no_damage() {
    let mut lv = damage_level();
    lv.mobjs[1].flags = 0;
    p_damage_mobj(1, None, Some(0), 30, &mut lv);
    assert_eq!(lv.mobjs[1].health, 60);
    assert!(lv.log.is_empty());
}

#[test]
fn pain_and_wake_up() {
    let mut lv = damage_level();
    lv.infos[0].painchance = 256;
    p_damage_mobj(1, None, Some(0), 10, &mut lv);
    assert_eq!(lv.mobjs[1].health, 50);
    assert_ne!(lv.mobjs[1].flags & MF_JUSTHIT, 0);
    assert_eq!(lv.mobjs[1].reactiontime, 0);
    assert_eq!(lv.mobjs[1].target, Some(0));
    assert_eq!(
        lv.log,
        vec![InterEvent::SetState { mobj: 1, state: 12 }, InterEvent::SetState { mobj: 1, state: 11 }]
    );
}

#[test]
fn lethal_damage_kills() {
    let mut lv = damage_level();
    p_damage_mobj(1, None, Some(0), 100, &mut lv);
    assert_eq!(lv.mobjs[1].health, -40);
    assert_ne!(lv.mobjs[1].flags & MF_CORPSE, 0);
    assert_eq!(lv.log, vec![InterEvent::SetState { mobj: 1, state: 14 }]);
}
