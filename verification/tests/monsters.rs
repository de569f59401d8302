use lib::enemy::{
    a_baby_metal, a_brain_explode, a_fire, a_fire_crackle, a_hoof, a_metal, a_pain_attack, a_pain_die, a_skel_missile,
    a_skull_attack, a_spawn_fly, a_spawn_sound, a_start_fire, a_tracer, a_vile_attack, a_vile_target, p_noise_alert,
    p_recursive_sound, pick_spawn_type, EnemyEvent, GameMode, MobjInfo, SectorSound, DI_NODIR, MT_FIRE, MT_ROCKET,
    MT_SKULL, MT_SPAWNFIRE, MT_TRACER, MT_TROOP, S_BRAINEXPLODE1, SKULLSPEED,
};
use lib::fixed::{Fixed, FRACUNIT};
use lib::level::MonsterLevel;
use lib::random::DoomRandom;
use lib::types::{Angle, LineDef, MapObject, SfxEnum, MF_SHOOTABLE, MF_SKULLFLY, ML_SOUNDBLOCK, ML_TWOSIDED};

const F: i32 = FRACUNIT;

fn info() -> MobjInfo {
    MobjInfo {
        seestate: 17,
        meleestate: 0,
        painsound: SfxEnum::sfx_None,
        deathsound: SfxEnum::sfx_None,
        radius: Fixed(16 * F),
        spawnstate: 10,
        missilestate: 0,
        seesound: SfxEnum::sfx_None,
        attacksound: SfxEnum::sfx_sklatk,
        activesound: SfxEnum::sfx_None,
        speed: 10 * F,
        mass: 100,
    }
}

/// A monster (thing 0) and its target (thing 1) `dx` units east.
fn pair(dx: i32) -> MonsterLevel {
    let monster = MapObject { target: Some(1), health: 20, movedir: DI_NODIR, radius: Fixed(31 * F), ..MapObject::default() };
    let victim = MapObject { x: Fixed(dx * F), health: 100, flags: MF_SHOOTABLE, height: Fixed(56 * F), ..MapObject::default() };
    MonsterLevel::new(vec![monster, victim], vec![info(); 40], GameMode::Commercial)
}

fn draws(n: usize) -> Vec<u8> {
    let mut r = DoomRandom::new();
    (0..n).map(|_| r.p_random()).collect()
}

#[test]
fn walking_noises_come_first() {
    let mut lv = pair(500);
    a_hoof(0, &mut lv);
    a_metal(0, &mut lv);
    a_baby_metal(0, &mut lv);
    let sounds: Vec<&EnemyEvent> = lv.log.iter().filter(|e| matches!(e, EnemyEvent::Sound { .. })).collect();
    assert_eq!(lv.log[0], EnemyEvent::Sound { origin: Some(0), sfx: SfxEnum::sfx_hoof });
    assert_eq!(sounds.len(), 3);
}

#[test]
fn spawn_types_by_roll() {
    assert_eq!(pick_spawn_type(0), MT_TROOP);
    assert_eq!(pick_spawn_type(49), MT_TROOP);
    assert_eq!(pick_spawn_type(50), 12);
    assert_eq!(pick_spawn_type(160), 3);
    assert_eq!(pick_spawn_type(161), 3);
    assert_eq!(pick_spawn_type(255), 15);
}

#[test]
fn cube_in_flight_counts_down() {
    let mut lv = pair(100);
    lv.mobjs[0].reactiontime = 3;
    a_spawn_fly(0, &mut lv);
    assert_eq!(lv.mobjs[0].reactiontime, 2);
    assert!(lv.log.is_empty());
}

#[test]
fn cube_arrival_brings_a_monster() {
    let mut lv = pair(100);
    a_spawn_sound(0, &mut lv);
    let r = draws(1)[0];
    assert_eq!(lv.log.len(), 8);
    assert_eq!(lv.log[0], EnemyEvent::Sound { origin: Some(0), sfx: SfxEnum::sfx_boscub });
    assert_eq!(lv.log[1], EnemyEvent::SpawnMobj { x: Fixed(100 * F), y: Fixed(0), z: Fixed(0), mtype: MT_SPAWNFIRE });
    assert_eq!(lv.log[3], EnemyEvent::SpawnMobj { x: Fixed(100 * F), y: Fixed(0), z: Fixed(0), mtype: pick_spawn_type(r) });
    assert_eq!(lv.log[6], EnemyEvent::TeleportMove { mobj: 3, x: Fixed(100 * F), y: Fixed(0) });
    assert_eq!(lv.log[7], EnemyEvent::RemoveMobj { mobj: 0 });
}

#[test]
fn brain_blast_position() {
    let mut lv = pair(100);
    a_brain_explode(0, &mut lv);
    let r = draws(3);
    let x = (r[0] as i32 - r[1] as i32) * 2048;
    let z = 128 + r[2] as i32 * 2 * F;
    assert_eq!(lv.log[0], EnemyEvent::SpawnMobj { x: Fixed(x), y: Fixed(0), z: Fixed(z), mtype: MT_ROCKET });
    assert_eq!(lv.log[1], EnemyEvent::SetState { mobj: 2, state: S_BRAINEXPLODE1 });
}

#[test]
fn fire_keeps_in_front_of_the_victim() {
    let mut lv = pair(100);
    lv.sine = Fixed(F);
    let fire = MapObject { tracer: Some(1), target: Some(0), ..MapObject::default() };
    lv.mobjs.push(fire);
    a_fire(2, &mut lv);
    assert_eq!(lv.mobjs[2].x, Fixed(124 * F));
    assert_eq!(lv.mobjs[2].y, Fixed(24 * F));
    a_start_fire(2, &mut lv);
    a_fire_crackle(2, &mut lv);
    assert_eq!(
        lv.log,
        vec![
            EnemyEvent::Sound { origin: Some(2), sfx: SfxEnum::sfx_flamst },
            EnemyEvent::Sound { origin: Some(2), sfx: SfxEnum::sfx_flame },
        ]
    );
}

#[test]
fn fire_out_of_sight_stays() {
    let mut lv = pair(100);
    lv.sight = false;
    let fire = MapObject { tracer: Some(1), target: Some(0), x: Fixed(7), ..MapObject::default() };
    lv.mobjs.push(fire);
    a_fire(2, &mut lv);
    assert_eq!(lv.mobjs[2].x, Fixed(7));
}

#[test]
fn vile_lights_a_fire_at_the_target_x() {
    let mut lv = pair(100);
    lv.mobjs[1].y = Fixed(50 * F);
    a_vile_target(0, &mut lv);
    assert_eq!(lv.log, vec![EnemyEvent::SpawnMobj { x: Fixed(100 * F), y: Fixed(100 * F), z: Fixed(0), mtype: MT_FIRE }]);
    assert_eq!(lv.mobjs[0].tracer, Some(2));
    assert_eq!(lv.mobjs[2].target, Some(0));
    assert_eq!(lv.mobjs[2].tracer, Some(1));
}

#[test]
fn vile_blast_lifts_and_explodes() {
    let mut lv = pair(100);
    lv.mobjs[0].tracer = Some(1);
    a_vile_attack(0, &mut lv);
    assert_eq!(
        lv.log,
        vec![
            EnemyEvent::Sound { origin: Some(0), sfx: SfxEnum::sfx_barexp },
            EnemyEvent::Damage { victim: 1, inflictor: Some(0), by: Some(0), damage: 20 },
            EnemyEvent::RadiusAttack { spot: 1, source: 0, damage: 70 },
        ]
    );
    assert_eq!(lv.mobjs[1].momz, Fixed(1000 * F / 100));
}

#[test]
fn vile_without_sight_only_turns() {
    let mut lv = pair(100);
    lv.sight = false;
    a_vile_attack(0, &mut lv);
    assert!(lv.log.is_empty());
}

#[test]
fn revenant_fires_a_homing_missile() {
    let mut lv = pair(100);
    a_skel_missile(0, &mut lv);
    assert_eq!(lv.log, vec![EnemyEvent::SpawnMissile { source: 0, dest: 1, mtype: MT_TRACER, angle: Angle(0) }]);
    assert_eq!(lv.mobjs[0].z, Fixed(0));
}

#[test]
fn lost_soul_charges() {
    let mut lv = pair(100);
    lv.sine = Fixed(F);
    a_skull_attack(0, &mut lv);
    assert_eq!(lv.log, vec![EnemyEvent::Sound { origin: Some(0), sfx: SfxEnum::sfx_sklatk }]);
    let m = lv.mobjs[0];
    assert_ne!(m.flags & MF_SKULLFLY, 0);
    assert_eq!(m.momx, Fixed(SKULLSPEED));
    assert_eq!(m.momy, Fixed(SKULLSPEED));
    assert_eq!(m.momz, Fixed(28 * F / 5));
}

#[test]
fn pain_elemental_spits_a_soul() {
    let mut lv = pair(300);
    lv.sine = Fixed(F);
    a_pain_attack(0, &mut lv);
    let step = 4 * F + 3 * (31 * F + 16 * F) / 2;
    assert_eq!(lv.log[0], EnemyEvent::SpawnMobj { x: Fixed(step), y: Fixed(step), z: Fixed(8 * F), mtype: MT_SKULL });
    assert_eq!(lv.log[1], EnemyEvent::TryMove { mobj: 2, x: Fixed(step), y: Fixed(step), moved: true });
    assert_eq!(lv.log[2], EnemyEvent::Sound { origin: Some(2), sfx: SfxEnum::sfx_sklatk });
}

#[test]
fn stuck_soul_is_killed() {
    let mut lv = pair(300);
    lv.blocked = true;
    a_pain_attack(0, &mut lv);
    assert_eq!(lv.log[2], EnemyEvent::Damage { victim: 2, inflictor: Some(0), by: Some(0), damage: 10000 });
}

#[test]
fn too_many_souls_stop_the_spitting() {
    let mut lv = pair(300);
    for _ in 0..20 {
        lv.mobjs.push(MapObject { type_: MT_SKULL, ..MapObject::default() });
        lv.thinkers.push(lv.mobjs.len() - 1);
    }
    a_pain_die(0, &mut lv);
    assert!(lv.log.is_empty());
}

#[test]
fn dying_elemental_spits_three() {
    let mut lv = pair(300);
    a_pain_die(0, &mut lv);
    let spawns = lv.log.iter().filter(|e| matches!(e, EnemyEvent::SpawnMobj { mtype: MT_SKULL, .. })).count();
    assert_eq!(spawns, 3);
}

#[test]
fn tracer_steers_every_fourth_tic() {
    let mut lv = pair(100);
    lv.mobjs[0].tracer = Some(1);
    lv.toward = Angle(0x2000_0000);
    lv.gametic = 5;
    a_tracer(0, &mut lv);
    assert!(lv.log.is_empty());
    lv.gametic = 8;
    a_tracer(0, &mut lv);
    assert_eq!(lv.log, vec![EnemyEvent::SpawnPuff { x: Fixed(0), y: Fixed(0), z: Fixed(0) }]);
    assert_eq!(lv.mobjs[0].angle, Angle(0x0c00_0000));
    assert_eq!(lv.mobjs[0].momz, Fixed(F / 8));
}

fn room(floor: i32, ceiling: i32) -> SectorSound {
    SectorSound { floorheight: Fixed(floor * F), ceilingheight: Fixed(ceiling * F), validcount: 0, soundtraversed: 0, soundtarget: None }
}

fn wall(front: usize, back: usize, flags: i16) -> LineDef {
    LineDef { frontsector: Some(front), backsector: Some(back), flags: flags | ML_TWOSIDED, ..LineDef::default() }
}

#[test]
fn noise_floods_through_open_lines_and_one_blocker() {
    let mut lv = pair(100);
    lv.sounds = vec![room(0, 128), room(0, 128), room(0, 128), room(0, 128), room(0, 0)];
    lv.lines = vec![wall(0, 1, 0), wall(1, 2, ML_SOUNDBLOCK), wall(2, 3, ML_SOUNDBLOCK), wall(0, 4, 0)];
    lv.mobjs[0].subsector = Some(0);
    lv.subsector_sectors = vec![0];
    let mut vc = 7;
    p_noise_alert(1, 0, &mut vc, &mut lv);
    assert_eq!(vc, 8);
    assert_eq!((lv.sounds[0].validcount, lv.sounds[0].soundtraversed, lv.sounds[0].soundtarget), (8, 1, Some(1)));
    assert_eq!((lv.sounds[1].validcount, lv.sounds[1].soundtraversed), (8, 1));
    assert_eq!((lv.sounds[2].validcount, lv.sounds[2].soundtraversed), (8, 2));
    assert_eq!(lv.sounds[3].validcount, 0);
    assert_eq!(lv.sounds[4].validcount, 0);
}

#[test]
fn flood_stops_at_a_reached_sector() {
    let mut lv = pair(100);
    lv.sounds = vec![room(0, 128), room(0, 128)];
    lv.sounds[0].validcount = 3;
    lv.sounds[0].soundtraversed = 1;
    lv.lines = vec![wall(0, 1, 0)];
    p_recursive_sound(0, 0, Some(1), 3, &mut lv);
    assert_eq!(lv.sounds[1].validcount, 0);
}
