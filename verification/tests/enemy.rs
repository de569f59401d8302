use lib::enemy::{
    a_brain_die, a_brain_pain, a_bruis_attack, a_cpos_refire, a_explode, a_face_target, a_fall,
    a_fat_attack1, a_pain, a_player_scream, a_pos_attack, a_scream, a_spos_attack, a_troop_attack,
    a_xscream, p_check_melee_range, p_check_missile_range, EnemyEvent, GameMode, MobjInfo, FATSPREAD,
    MISSILERANGE, MT_FATSHOT, MT_TROOPSHOT,
};
use lib::fixed::{Fixed, FRACUNIT};
use lib::level::MonsterLevel;
use lib::random::DoomRandom;
use lib::types::{Angle, MapObject, SfxEnum, MF_AMBUSH, MF_JUSTHIT, MF_SHOOTABLE, MF_SOLID};

const F: i32 = FRACUNIT;

fn info() -> MobjInfo {
    MobjInfo {
        seestate: 17, meleestate: 0, painsound: SfxEnum::sfx_popain, deathsound: SfxEnum::sfx_podth1, radius: Fixed(20 * F),
        spawnstate: 10,
        missilestate: 0,
        seesound: SfxEnum::sfx_None,
        attacksound: SfxEnum::sfx_None,
        activesound: SfxEnum::sfx_None,
        speed: 8,
        mass: 100,
    }
}

/// A monster (thing 0) with a target (thing 1) `dist` units east of it.
fn duel(dist: i32) -> MonsterLevel {
    let monster = MapObject { target: Some(1), flags: MF_AMBUSH | MF_SOLID, ..MapObject::default() };
    let player = MapObject { x: Fixed(dist * F), health: 100, ..MapObject::default() };
    let mut lv = MonsterLevel::new(vec![monster, player], vec![info(); 40], GameMode::Commercial);
    lv.toward = Angle(0x4000_0000);
    lv
}

/// The play-stream values from the start of the table.
fn draws(n: usize) -> Vec<u8> {
    let mut r = DoomRandom::new();
    (0..n).map(|_| r.p_random()).collect()
}

#[test]
fn fall_clears_solid_only() {
    let mut lv = duel(100);
    lv.mobjs[0].flags = MF_SOLID | MF_SHOOTABLE;
    a_fall(0, &mut lv);
    assert_eq!(lv.mobjs[0].flags, MF_SHOOTABLE);
    assert!(lv.log.is_empty());
}

#[test]
fn sounds_of_simple_actions() {
    let mut lv = duel(100);
    a_xscream(0, &mut lv);
    a_pain(0, &mut lv);
    a_brain_pain(0, &mut lv);
    a_brain_die(0, &mut lv);
    assert_eq!(
        lv.log,
        vec![
            EnemyEvent::Sound { origin: Some(0), sfx: SfxEnum::sfx_slop },
            EnemyEvent::Sound { origin: Some(0), sfx: SfxEnum::sfx_popain },
            EnemyEvent::Sound { origin: None, sfx: SfxEnum::sfx_bospn },
            EnemyEvent::ExitLevel,
        ]
    );
}

#[test]
fn scream_picks_zombie_variant() {
    let mut lv = duel(100);
    a_scream(0, &mut lv);
    let r = draws(1)[0];
    let expected = match r % 3 {
        0 => SfxEnum::sfx_podth1,
        1 => SfxEnum::sfx_podth2,
        _ => SfxEnum::sfx_podth3,
    };
    assert_eq!(lv.log, vec![EnemyEvent::Sound { origin: Some(0), sfx: expected }]);
}

#[test]
fn player_scream_extreme_in_commercial() {
    let mut lv = duel(100);
    lv.mobjs[1].health = -60;
    a_player_scream(1, &mut lv);
    lv.mode = GameMode::Shareware;
    a_player_scream(1, &mut lv);
    assert_eq!(
        lv.log,
        vec![
            EnemyEvent::Sound { origin: Some(1), sfx: SfxEnum::sfx_pdiehi },
            EnemyEvent::Sound { origin: Some(1), sfx: SfxEnum::sfx_pldeth },
        ]
    );
}

#[test]
fn explode_credits_the_shooter() {
    let mut lv = duel(100);
    a_explode(0, &mut lv);
    lv.mobjs[0].target = None;
    a_explode(0, &mut lv);
    assert_eq!(
        lv.log,
        vec![
            EnemyEvent::RadiusAttack { spot: 0, source: 1, damage: 128 },
            EnemyEvent::RadiusAttack { spot: 0, source: 0, damage: 128 },
        ]
    );
}

#[test]
fn face_target_turns_and_wakes() {
    let mut lv = duel(100);
    a_face_target(0, &mut lv);
    assert_eq!(lv.mobjs[0].angle, Angle(0x4000_0000));
    assert_eq!(lv.mobjs[0].flags & MF_AMBUSH, 0);
    assert_eq!(lv.rng.prndindex, 0);
}

#[test]
fn melee_range_depends_on_distance() {
    let mut near = duel(50);
    assert!(p_check_melee_range(0, &mut near));
    let mut far = duel(200);
    assert!(!p_check_melee_range(0, &mut far));
    let mut blind = duel(50);
    blind.sight = false;
    assert!(!p_check_melee_range(0, &mut blind));
}

#[test]
fn missile_range_after_being_hit() {
    let mut lv = duel(1000);
    lv.mobjs[0].flags |= MF_JUSTHIT;
    assert!(p_check_missile_range(0, &mut lv));
    assert_eq!(lv.mobjs[0].flags & MF_JUSTHIT, 0);
    assert_eq!(lv.rng.prndindex, 0);
}

#[test]
fn missile_range_waits_for_reaction() {
    let mut lv = duel(100);
    lv.mobjs[0].reactiontime = 3;
    assert!(!p_check_missile_range(0, &mut lv));
    assert_eq!(lv.rng.prndindex, 0);
}

#[test]
fn missile_range_close_target_roll() {
    // At 64 units with no melee attack the score is 0, so any roll fires.
    let mut lv = duel(64);
    assert!(p_check_missile_range(0, &mut lv));
    assert_eq!(lv.rng.prndindex, 1);
}

#[test]
fn pos_attack_fires_one_shot() {
    let mut lv = duel(100);
    a_pos_attack(0, &mut lv);
    let r = draws(3);
    let spread = ((r[0] as i32 - r[1] as i32) as u32) << 20;
    assert_eq!(
        lv.log,
        vec![
            EnemyEvent::Sound { origin: Some(0), sfx: SfxEnum::sfx_pistol },
            EnemyEvent::LineAttack {
                source: 0,
                angle: Angle(0x4000_0000u32.wrapping_add(spread)),
                range: Fixed(MISSILERANGE),
                slope: Fixed(0),
                damage: ((r[2] % 5) as i32 + 1) * 3,
            },
        ]
    );
}

#[test]
fn spos_attack_fires_three_shots() {
    let mut lv = duel(100);
    a_spos_attack(0, &mut lv);
    assert_eq!(lv.log.len(), 4);
    assert_eq!(lv.log[0], EnemyEvent::Sound { origin: Some(0), sfx: SfxEnum::sfx_shotgn });
    assert_eq!(lv.rng.prndindex, 9);
}

#[test]
fn attacks_without_target_do_nothing() {
    let mut lv = duel(100);
    lv.mobjs[0].target = None;
    a_pos_attack(0, &mut lv);
    a_troop_attack(0, &mut lv);
    assert!(lv.log.is_empty());
}

#[test]
fn imp_claws_close_and_throws_far() {
    let mut near = duel(50);
    a_troop_attack(0, &mut near);
    let r = draws(1)[0];
    assert_eq!(
        near.log,
        vec![
            EnemyEvent::Sound { origin: Some(0), sfx: SfxEnum::sfx_claw },
            EnemyEvent::Damage { victim: 1, inflictor: Some(0), by: Some(0), damage: ((r % 8) as i32 + 1) * 3 },
        ]
    );
    let mut far = duel(500);
    a_troop_attack(0, &mut far);
    assert_eq!(
        far.log,
        vec![EnemyEvent::SpawnMissile { source: 0, dest: 1, mtype: MT_TROOPSHOT, angle: Angle(0x4000_0000) }]
    );
}

#[test]
fn baron_claws_without_turning() {
    let mut lv = duel(50);
    a_bruis_attack(0, &mut lv);
    assert_eq!(lv.mobjs[0].angle, Angle(0));
    assert_eq!(lv.log.len(), 2);
}

#[test]
fn fat_volley_spreads_and_restores() {
    let mut lv = duel(500);
    a_fat_attack1(0, &mut lv);
    assert_eq!(
        lv.log,
        vec![
            EnemyEvent::SpawnMissile { source: 0, dest: 1, mtype: MT_FATSHOT, angle: Angle(0x4000_0000 + FATSPREAD) },
            EnemyEvent::SpawnMissile { source: 0, dest: 1, mtype: MT_FATSHOT, angle: Angle(0x4000_0000 - FATSPREAD) },
        ]
    );
    assert_eq!(lv.mobjs[0].angle, Angle(0x4000_0000));
}

#[test]
fn refire_stops_without_sight() {
    let mut lv = duel(100);
    lv.sight = false;
    // Skip ahead to a roll of at least 40.
    let rolls = draws(256);
    let start = rolls.iter().position(|&r| r >= 40).unwrap();
    for _ in 0..start {
        lv.rng.p_random();
    }
    a_cpos_refire(0, &mut lv);
    assert_eq!(lv.log, vec![EnemyEvent::SetState { mobj: 0, state: 17 }]);
}
