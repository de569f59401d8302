use lib::enemy::GameMode;
use lib::fixed::{Fixed, FRACUNIT};
use lib::inter::{AmmoType, Player, PlayerState, PspDef, WeaponType};
use lib::level::WeaponLevel;
use lib::pspr::{
    a_bfg_spray, a_fire_bfg, a_fire_missile, a_fire_pistol, a_fire_plasma, a_fire_shotgun, a_fire_shotgun2,
    a_gun_flash, a_light1, a_light2, a_lower, a_punch, a_raise, a_refire, a_saw, a_weapon_ready, p_bring_up_weapon,
    p_bullet_slope, p_calc_swing, p_check_ammo, p_fire_weapon, p_gun_shot, p_move_psprites, p_set_psprite, p_setup_psprites,
    PspState, PsprEvent, WeaponInfo, AUTOAIM, BT_ATTACK, MT_BFG, MT_EXTRABFG, S_PLAY_ATK1, WEAPONBOTTOM, WEAPONTOP,
};
use lib::mobj::ActionFnId;
use lib::random::DoomRandom;
use lib::types::{Angle, MapObject, SfxEnum, MF_JUSTATTACKED};

const F: i32 = FRACUNIT;

fn weapons() -> Vec<WeaponInfo> {
    let ammo = [
        AmmoType::NoAmmo,
        AmmoType::Clip,
        AmmoType::Shell,
        AmmoType::Clip,
        AmmoType::Missile,
        AmmoType::Cell,
        AmmoType::Cell,
        AmmoType::NoAmmo,
        AmmoType::Shell,
    ];
    (0..9)
        .map(|i| WeaponInfo {
            ammo: ammo[i],
            upstate: 10 * i + 101,
            downstate: 10 * i + 102,
            readystate: 10 * i + 103,
            atkstate: 10 * i + 104,
            flashstate: 10 * i + 105,
        })
        .collect()
}

fn player() -> Player {
    Player {
        health: 100,
        armorpoints: 0,
        armortype: 0,
        powers: [0; 6],
        cards: [false; 6],
        backpack: false,
        frags: [0; 4],
        readyweapon: WeaponType::Pistol,
        pendingweapon: WeaponType::NoChange,
        weaponowned: [true, true, false, false, false, false, false, false, false],
        ammo: [50, 0, 0, 0],
        maxammo: [200, 50, 300, 50],
        cheats: 0,
        message: None,
        bonuscount: 0,
        damagecount: 0,
        killcount: 0,
        itemcount: 0,
        playerstate: PlayerState::Live,
        attacker: None,
        viewheight: Fixed(41 * F),
        deltaviewheight: Fixed(0),
        forwardmove: 0,
        sidemove: 0,
        mobj: Some(0),
        psprites: [PspDef { state: None, tics: 0, sx: Fixed(0), sy: Fixed(0) }; 2],
        refire: 0,
        attackdown: 0,
        buttons: 0,
        extralight: 0,
        fixedcolormap: 0,
        bob: Fixed(0),
    }
}

fn level(mode: GameMode) -> WeaponLevel {
    let body = MapObject { angle: Angle(0x1000_0000), ..MapObject::default() };
    let other = MapObject { x: Fixed(100 * F), height: Fixed(56 * F), ..MapObject::default() };
    WeaponLevel::new(vec![body, other], weapons(), mode)
}

fn draws(n: usize) -> Vec<u8> {
    let mut r = DoomRandom::new();
    (0..n).map(|_| r.p_random()).collect()
}

#[test]
fn enough_ammo_changes_nothing() {
    let mut lv = level(GameMode::Commercial);
    let mut p = player();
    let mut rng = DoomRandom::new();
    assert!(p_check_ammo(&mut p, &mut lv, &mut rng));
    assert!(lv.log.is_empty());
    assert_eq!(p.pendingweapon, WeaponType::NoChange);
}

#[test]
fn empty_pistol_switches_to_shotgun() {
    let mut lv = level(GameMode::Commercial);
    let mut p = player();
    p.ammo = [0, 8, 0, 0];
    p.weaponowned[2] = true;
    let mut rng = DoomRandom::new();
    assert!(!p_check_ammo(&mut p, &mut lv, &mut rng));
    assert_eq!(lv.log, vec![PsprEvent::SetPsprite { position: 0, state: 112 }]);
    assert_eq!(lv.players[0].pendingweapon, WeaponType::Shotgun);
}

#[test]
fn shareware_skips_plasma_and_falls_to_fist() {
    let mut lv = level(GameMode::Shareware);
    let mut p = player();
    p.ammo = [0, 0, 100, 0];
    p.weaponowned[5] = true;
    let mut rng = DoomRandom::new();
    assert!(!p_check_ammo(&mut p, &mut lv, &mut rng));
    assert_eq!(lv.players[0].pendingweapon, WeaponType::Fist);
}

#[test]
fn bfg_needs_forty_cells() {
    let mut lv = level(GameMode::Commercial);
    let mut p = player();
    p.readyweapon = WeaponType::Bfg;
    p.weaponowned[6] = true;
    p.ammo = [0, 0, 39, 0];
    let mut rng = DoomRandom::new();
    assert!(!p_check_ammo(&mut p, &mut lv, &mut rng));
    assert_eq!(lv.players[0].pendingweapon, WeaponType::Fist);
    assert_eq!(lv.log, vec![PsprEvent::SetPsprite { position: 0, state: 162 }]);
}

#[test]
fn firing_attacks_and_alerts() {
    let mut lv = level(GameMode::Commercial);
    let mut p = player();
    let mut rng = DoomRandom::new();
    p_fire_weapon(&mut p, &mut lv, &mut rng);
    assert_eq!(
        lv.log,
        vec![
            PsprEvent::SetMobjState { mobj: 0, state: S_PLAY_ATK1 },
            PsprEvent::SetPsprite { position: 0, state: 114 },
            PsprEvent::NoiseAlert { target: 0, emitter: 0 },
        ]
    );
}

#[test]
fn chainsaw_comes_up_revving() {
    let mut lv = level(GameMode::Commercial);
    let mut p = player();
    p.pendingweapon = WeaponType::Chainsaw;
    let mut rng = DoomRandom::new();
    p_bring_up_weapon(&mut p, &mut lv, &mut rng);
    assert_eq!(
        lv.log,
        vec![PsprEvent::Sound { origin: Some(0), sfx: SfxEnum::sfx_sawup }, PsprEvent::SetPsprite { position: 0, state: 171 }]
    );
    assert_eq!(lv.players[0].psprites[0].sy, Fixed(WEAPONBOTTOM));
    assert_eq!(p.pendingweapon, WeaponType::NoChange);
}

#[test]
fn lowering_then_switching() {
    let mut lv = level(GameMode::Commercial);
    let mut p = player();
    let mut rng = DoomRandom::new();
    a_lower(&mut p, 0, &mut lv, &mut rng);
    assert_eq!(p.psprites[0].sy, Fixed(6 * F));
    assert!(lv.log.is_empty());
    p.psprites[0].sy = Fixed(WEAPONBOTTOM - 6 * F);
    p.pendingweapon = WeaponType::Shotgun;
    a_lower(&mut p, 0, &mut lv, &mut rng);
    assert_eq!(p.readyweapon, WeaponType::Shotgun);
    assert_eq!(lv.log, vec![PsprEvent::SetPsprite { position: 0, state: 121 }]);
}

#[test]
fn dead_player_keeps_weapon_down() {
    let mut lv = level(GameMode::Commercial);
    let mut p = player();
    p.playerstate = PlayerState::Dead;
    p.psprites[0].sy = Fixed(WEAPONBOTTOM);
    let mut rng = DoomRandom::new();
    a_lower(&mut p, 0, &mut lv, &mut rng);
    assert_eq!(p.psprites[0].sy, Fixed(WEAPONBOTTOM));
    assert!(lv.log.is_empty());
}

#[test]
fn raising_reaches_ready() {
    let mut lv = level(GameMode::Commercial);
    let mut p = player();
    p.psprites[0].sy = Fixed(WEAPONTOP + 3 * F);
    let mut rng = DoomRandom::new();
    a_raise(&mut p, 0, &mut lv, &mut rng);
    assert_eq!(p.psprites[0].sy, Fixed(WEAPONTOP));
    assert_eq!(lv.log, vec![PsprEvent::SetPsprite { position: 0, state: 113 }]);
}

#[test]
fn refire_counts_and_released_trigger_resets() {
    let mut lv = level(GameMode::Commercial);
    let mut p = player();
    p.buttons = BT_ATTACK;
    let mut rng = DoomRandom::new();
    a_refire(&mut p, 0, &mut lv, &mut rng);
    assert_eq!(p.refire, 1);
    assert_eq!(lv.log.len(), 3);
    p.buttons = 0;
    a_refire(&mut p, 0, &mut lv, &mut rng);
    assert_eq!(p.refire, 0);
    assert_eq!(lv.log.len(), 3);
}

#[test]
fn gun_flash_and_lights() {
    let mut lv = level(GameMode::Commercial);
    let mut p = player();
    let mut rng = DoomRandom::new();
    a_gun_flash(&mut p, 0, &mut lv, &mut rng);
    assert_eq!(
        lv.log,
        vec![PsprEvent::SetMobjState { mobj: 0, state: 155 }, PsprEvent::SetPsprite { position: 1, state: 115 }]
    );
    a_light2(&mut p, 0, &mut lv, &mut rng);
    assert_eq!(p.extralight, 2);
    a_light1(&mut p, 0, &mut lv, &mut rng);
    assert_eq!(p.extralight, 1);
}

#[test]
fn swing_follows_the_bob() {
    let mut lv = level(GameMode::Commercial);
    lv.sine = Fixed(F);
    let mut p = player();
    p.bob = Fixed(3 * F);
    assert_eq!(p_calc_swing(&p, 10, &lv), (Fixed(3 * F), Fixed(-3 * F)));
}

#[test]
fn bullet_slope_sweeps_three_ways() {
    let mut lv = level(GameMode::Commercial);
    lv.aim_slope = Fixed(77);
    let p = player();
    assert_eq!(p_bullet_slope(&p, &mut lv), Fixed(77));
    assert_eq!(lv.log.len(), 3);
    assert_eq!(
        lv.log[1],
        PsprEvent::Aim { source: 0, angle: Angle(0x1400_0000), range: Fixed(AUTOAIM), slope: Fixed(77), target: None }
    );
    assert_eq!(
        lv.log[2],
        PsprEvent::Aim { source: 0, angle: Angle(0x0c00_0000), range: Fixed(AUTOAIM), slope: Fixed(77), target: None }
    );
    let mut lv2 = level(GameMode::Commercial);
    lv2.aim_target = Some(1);
    p_bullet_slope(&p, &mut lv2);
    assert_eq!(lv2.log.len(), 1);
}

#[test]
fn accurate_shot_damage() {
    let mut lv = level(GameMode::Commercial);
    let p = player();
    let mut rng = DoomRandom::new();
    p_gun_shot(&p, Fixed(5), true, &mut lv, &mut rng);
    let r = draws(1)[0];
    assert_eq!(
        lv.log,
        vec![PsprEvent::LineAttack {
            source: 0,
            angle: Angle(0x1000_0000),
            range: Fixed(2048 * F),
            slope: Fixed(5),
            damage: 5 * ((r % 3) as i32 + 1)
        }]
    );
}

#[test]
fn pistol_uses_a_bullet() {
    let mut lv = level(GameMode::Commercial);
    let mut p = player();
    let mut rng = DoomRandom::new();
    a_fire_pistol(&mut p, 0, &mut lv, &mut rng);
    assert_eq!(lv.log[0], PsprEvent::Sound { origin: Some(0), sfx: SfxEnum::sfx_pistol });
    assert_eq!(lv.log[1], PsprEvent::SetMobjState { mobj: 0, state: 155 });
    assert_eq!(lv.log[2], PsprEvent::SetPsprite { position: 1, state: 115 });
    assert_eq!(lv.players[0].ammo[0], 49);
    assert_eq!(p.ammo[0], 49);
    let shots = lv.log.iter().filter(|e| matches!(e, PsprEvent::LineAttack { .. })).count();
    assert_eq!(shots, 1);
}

#[test]
fn shotguns_fire_their_pellets() {
    let mut lv = level(GameMode::Commercial);
    let mut p = player();
    p.readyweapon = WeaponType::Shotgun;
    p.ammo = [0, 10, 0, 0];
    let mut rng = DoomRandom::new();
    a_fire_shotgun(&mut p, 0, &mut lv, &mut rng);
    let shots = lv.log.iter().filter(|e| matches!(e, PsprEvent::LineAttack { .. })).count();
    assert_eq!(shots, 7);
    assert_eq!(p.ammo[1], 9);
    let mut lv2 = level(GameMode::Commercial);
    p.readyweapon = WeaponType::SuperShotgun;
    a_fire_shotgun2(&mut p, 0, &mut lv2, &mut rng);
    let shots2 = lv2.log.iter().filter(|e| matches!(e, PsprEvent::LineAttack { .. })).count();
    assert_eq!(shots2, 20);
    assert_eq!(p.ammo[1], 7);
}

#[test]
fn missiles_use_ammo() {
    let mut lv = level(GameMode::Commercial);
    let mut p = player();
    p.ammo = [0, 0, 100, 5];
    let mut rng = DoomRandom::new();
    a_fire_missile(&mut p, 0, &mut lv, &mut rng);
    a_fire_bfg(&mut p, 0, &mut lv, &mut rng);
    assert_eq!(p.ammo, [0, 0, 60, 4]);
    assert_eq!(lv.log[1], PsprEvent::SpawnPlayerMissile { source: 0, mtype: MT_BFG });
    p.readyweapon = WeaponType::Plasma;
    a_fire_plasma(&mut p, 0, &mut lv, &mut rng);
    assert_eq!(p.ammo[2], 59);
    let r = draws(1)[0];
    assert_eq!(lv.log[2], PsprEvent::SetPsprite { position: 1, state: 155 + (r & 1) as usize });
}

#[test]
fn berserk_punch_hits_hard() {
    let mut lv = level(GameMode::Commercial);
    lv.aim_target = Some(1);
    let mut p = player();
    p.weaponowned = [true; 9];
    p.powers[1] = 1;
    let mut rng = DoomRandom::new();
    a_punch(&mut p, 0, &mut lv, &mut rng);
    let r = draws(1)[0];
    let damage = ((r % 10) as i32 + 1) * 2 * 10;
    assert!(matches!(lv.log[1], PsprEvent::LineAttack { damage: d, .. } if d == damage));
    assert_eq!(lv.log[2], PsprEvent::Sound { origin: Some(0), sfx: SfxEnum::sfx_punch });
}

#[test]
fn saw_misses_and_hits() {
    let mut lv = level(GameMode::Commercial);
    let mut p = player();
    let mut rng = DoomRandom::new();
    a_saw(&mut p, 0, &mut lv, &mut rng);
    assert_eq!(lv.log[2], PsprEvent::Sound { origin: Some(0), sfx: SfxEnum::sfx_sawful });
    lv.aim_target = Some(1);
    lv.toward = Angle(0x1000_0000);
    a_saw(&mut p, 0, &mut lv, &mut rng);
    assert_eq!(lv.log[5], PsprEvent::Sound { origin: Some(0), sfx: SfxEnum::sfx_sawhit });
    assert_ne!(lv.mobjs[0].flags & MF_JUSTATTACKED, 0);
    assert_eq!(lv.mobjs[0].angle, Angle(0x1000_0000));
}

#[test]
fn psprites_count_down_and_flash_follows() {
    let mut lv = level(GameMode::Commercial);
    let mut p = player();
    p.psprites[0] = PspDef { state: Some(50), tics: 1, sx: Fixed(3), sy: Fixed(4) };
    p.psprites[1] = PspDef { state: Some(60), tics: 5, sx: Fixed(0), sy: Fixed(0) };
    let mut rng = DoomRandom::new();
    p_move_psprites(&mut p, &mut lv, &mut rng);
    assert_eq!(lv.log, vec![PsprEvent::SetPsprite { position: 0, state: 51 }]);
    assert_eq!(p.psprites[1].tics, 4);
    assert_eq!((p.psprites[1].sx, p.psprites[1].sy), (Fixed(3), Fixed(4)));
}

#[test]
fn bfg_spray_fans_forty_rays() {
    let mut lv = level(GameMode::Commercial);
    lv.mobjs.push(MapObject { target: Some(0), ..MapObject::default() });
    let mut rng = DoomRandom::new();
    a_bfg_spray(2, &mut lv, &mut rng);
    let aims = lv.log.iter().filter(|e| matches!(e, PsprEvent::Aim { .. })).count();
    assert_eq!(aims, 40);
    assert_eq!(lv.log.len(), 40);
    let mut lv2 = level(GameMode::Commercial);
    lv2.aim_target = Some(1);
    lv2.mobjs.push(MapObject { target: Some(0), ..MapObject::default() });
    a_bfg_spray(2, &mut lv2, &mut rng);
    assert_eq!(lv2.log.len(), 120);
    assert_eq!(lv2.log[1], PsprEvent::SpawnMobj { x: Fixed(100 * F), y: Fixed(0), z: Fixed(14 * F), mtype: MT_EXTRABFG });
    assert!(matches!(lv2.log[2], PsprEvent::Damage { victim: 1, damage: d, .. } if (15..=120).contains(&d)));
}

#[test]
fn ready_weapon_bobs_or_fires() {
    let mut lv = level(GameMode::Commercial);
    lv.sine = Fixed(F);
    let mut p = player();
    p.bob = Fixed(2 * F);
    p.attackdown = 1;
    let mut rng = DoomRandom::new();
    a_weapon_ready(&mut p, 0, &mut lv, &mut rng);
    assert!(lv.log.is_empty());
    assert_eq!(p.attackdown, 0);
    assert_eq!(p.psprites[0].sx, Fixed(3 * F));
    assert_eq!(p.psprites[0].sy, Fixed(WEAPONTOP + 2 * F));
    p.buttons = BT_ATTACK;
    a_weapon_ready(&mut p, 0, &mut lv, &mut rng);
    assert_eq!(p.attackdown, 1);
    assert_eq!(lv.log[1], PsprEvent::SetPsprite { position: 0, state: 114 });
}

#[test]
fn setup_turns_sprites_off_and_raises() {
    let mut lv = level(GameMode::Commercial);
    let mut p = player();
    p.psprites[1].state = Some(9);
    let mut rng = DoomRandom::new();
    p_setup_psprites(&mut p, &mut lv, &mut rng);
    assert_eq!(lv.log, vec![PsprEvent::SetPsprite { position: 0, state: 111 }]);
    assert_eq!(p.psprites[1].state, None);
    assert_eq!(p.psprites[1].tics, -1);
}

#[test]
fn psprite_walks_zero_tic_states() {
    let mut lv = level(GameMode::Commercial);
    // State 1: no tics, an offset, an action; state 2: no tics; state 3: 4 tics.
    lv.states = vec![
        PspState { tics: -1, misc1: 0, misc2: 0, action: ActionFnId::NoAction, nextstate: 0 },
        PspState { tics: 0, misc1: 3, misc2: 5, action: ActionFnId::A_Light1, nextstate: 2 },
        PspState { tics: 0, misc1: 0, misc2: 0, action: ActionFnId::NoAction, nextstate: 3 },
        PspState { tics: 4, misc1: 0, misc2: 0, action: ActionFnId::NoAction, nextstate: 1 },
    ];
    let mut p = player();
    let mut rng = DoomRandom::new();
    p_set_psprite(&mut p, 0, 1, &mut lv, &mut rng);
    assert_eq!(p.psprites[0], PspDef { state: Some(3), tics: 4, sx: Fixed(3 * F), sy: Fixed(5 * F) });
    assert_eq!(lv.log, vec![PsprEvent::Action { position: 0, action: ActionFnId::A_Light1 }]);
    assert_eq!(p.psprites[1], PspDef { state: None, tics: 0, sx: Fixed(0), sy: Fixed(0) });
}

#[test]
fn psprite_null_state_turns_it_off() {
    let mut lv = level(GameMode::Commercial);
    let mut p = player();
    p.psprites[1] = PspDef { state: Some(7), tics: 2, sx: Fixed(1), sy: Fixed(2) };
    let mut rng = DoomRandom::new();
    p_set_psprite(&mut p, 1, 0, &mut lv, &mut rng);
    assert_eq!(p.psprites[1], PspDef { state: None, tics: 2, sx: Fixed(1), sy: Fixed(2) });
    assert!(lv.log.is_empty());
}
