use lib::enemy::{
    a_brain_awake, a_brain_scream, a_brain_spit, BrainState, EnemyEvent, GameMode, MobjInfo, MAX_BRAIN_TARGETS, MT_BOSSTARGET, MT_ROCKET,
    MT_SPAWNSHOT, SCREAM_BLASTS, S_BRAINEXPLODE1,
};
use lib::fixed::{Fixed, FRACUNIT};
use lib::inter::Skill;
use lib::level::MonsterLevel;
use lib::random::DoomRandom;
use lib::types::{MapObject, SfxEnum};

const F: i32 = FRACUNIT;
const MT_BOSSBRAIN: usize = 25;

fn info() -> MobjInfo {
    MobjInfo {
        seestate: 0,
        meleestate: 0,
        painsound: SfxEnum::sfx_None,
        deathsound: SfxEnum::sfx_None,
        radius: Fixed(0),
        spawnstate: 0,
        missilestate: 0,
        seesound: SfxEnum::sfx_None,
        attacksound: SfxEnum::sfx_None,
        activesound: SfxEnum::sfx_None,
        speed: 0,
        mass: 100,
    }
}

fn thing(t: usize, x: i32, y: i32) -> MapObject {
    MapObject { type_: t, x: Fixed(x), y: Fixed(y), ..MapObject::default() }
}

fn level(mobjs: Vec<MapObject>) -> MonsterLevel {
    MonsterLevel::new(mobjs, vec![info(); 40], GameMode::Commercial)
}

fn draws(n: usize) -> Vec<u8> {
    let mut r = DoomRandom::new();
    (0..n).map(|_| r.p_random()).collect()
}

#[test]
fn waking_brain_finds_its_spots_in_order() {
    let mut lv = level(vec![
        thing(MT_BOSSBRAIN, 0, 0),
        thing(MT_BOSSTARGET, 10, 0),
        thing(3, 0, 0),
        thing(MT_BOSSTARGET, 20, 0),
    ]);
    let mut brain = BrainState::new();
    brain.target_on = 1;
    a_brain_awake(0, &mut lv, &mut brain);
    assert_eq!(brain.targets, vec![1, 3]);
    assert_eq!(brain.target_on, 1);
    assert_eq!(lv.log, vec![EnemyEvent::Sound { origin: None, sfx: SfxEnum::sfx_bossit }]);
}

#[test]
fn waking_brain_remembers_at_most_thirty_two_spots() {
    let mut mobjs = vec![thing(MT_BOSSBRAIN, 0, 0)];
    for _ in 0..40 {
        mobjs.push(thing(MT_BOSSTARGET, 0, 0));
    }
    let mut lv = level(mobjs);
    let mut brain = BrainState::new();
    brain.targets = vec![7];
    a_brain_awake(0, &mut lv, &mut brain);
    assert_eq!(brain.targets.len(), MAX_BRAIN_TARGETS);
    assert_eq!(brain.targets, (1..33).collect::<Vec<usize>>());
}

#[test]
fn dying_brain_sets_off_a_row_of_blasts() {
    let mut lv = level(vec![thing(MT_BOSSBRAIN, 1000 * F, 500 * F)]);
    a_brain_scream(0, &mut lv);
    assert_eq!(SCREAM_BLASTS, 65);
    assert_eq!(lv.log.len(), 2 * SCREAM_BLASTS + 1);
    let r = draws(3 * SCREAM_BLASTS);
    for j in 0..SCREAM_BLASTS {
        let x = 1000 * F + (8 * j as i32 - 196) * F;
        let z = 128 + r[3 * j] as i32 * 2 * F;
        assert_eq!(
            lv.log[2 * j],
            EnemyEvent::SpawnMobj { x: Fixed(x), y: Fixed(180 * F), z: Fixed(z), mtype: MT_ROCKET }
        );
        assert_eq!(lv.log[2 * j + 1], EnemyEvent::SetState { mobj: j + 1, state: S_BRAINEXPLODE1 });
    }
    assert_eq!(lv.log[0], EnemyEvent::SpawnMobj { x: Fixed(804 * F), y: Fixed(180 * F), z: Fixed(128 + r[0] as i32 * 2 * F), mtype: MT_ROCKET });
    assert_eq!(
        lv.log[2 * SCREAM_BLASTS - 2],
        EnemyEvent::SpawnMobj { x: Fixed(1316 * F), y: Fixed(180 * F), z: Fixed(128 + r[192] as i32 * 2 * F), mtype: MT_ROCKET }
    );
    assert_eq!(lv.log[2 * SCREAM_BLASTS], EnemyEvent::Sound { origin: None, sfx: SfxEnum::sfx_bosdth });
}

fn spitting_level() -> MonsterLevel {
    let brain = MapObject { momy: Fixed(2 * F), state: Some(5), ..thing(MT_BOSSBRAIN, 0, 0) };
    let mut lv = level(vec![brain, thing(MT_BOSSTARGET, 0, 256 * F)]);
    lv.state_tics = 4;
    lv
}

#[test]
fn brain_spits_a_cube_timed_to_reach_its_spot() {
    let mut lv = spitting_level();
    let mut brain = BrainState::new();
    brain.targets = vec![1];
    a_brain_spit(0, &mut lv, &mut brain);
    assert_eq!(
        lv.log,
        vec![
            EnemyEvent::SpawnMissile { source: 0, dest: 1, mtype: MT_SPAWNSHOT, angle: lv.mobjs[0].angle },
            EnemyEvent::Sound { origin: None, sfx: SfxEnum::sfx_bospit },
        ]
    );
    // 256 units at 2 units a tic, counted in states of 4 tics.
    assert_eq!(lv.mobjs[2].target, Some(1));
    assert_eq!(lv.mobjs[2].reactiontime, 32);
    assert_eq!(brain.easy, 1);
    assert_eq!(brain.target_on, 0);
}

#[test]
fn brain_spits_at_its_spots_in_turn() {
    let mut lv = spitting_level();
    lv.mobjs.push(thing(MT_BOSSTARGET, 0, -256 * F));
    let mut brain = BrainState::new();
    brain.targets = vec![1, 2];
    a_brain_spit(0, &mut lv, &mut brain);
    a_brain_spit(0, &mut lv, &mut brain);
    assert!(matches!(lv.log[0], EnemyEvent::SpawnMissile { dest: 1, .. }));
    assert!(matches!(lv.log[2], EnemyEvent::SpawnMissile { dest: 2, .. }));
    assert_eq!(lv.mobjs[4].reactiontime, -32);
    assert_eq!(brain.target_on, 0);
}

#[test]
fn brain_on_easy_skips_every_other_spit() {
    let mut lv = spitting_level();
    lv.skill = Skill::Easy;
    let mut brain = BrainState::new();
    brain.targets = vec![1];
    a_brain_spit(0, &mut lv, &mut brain);
    assert_eq!(lv.log.len(), 2);
    a_brain_spit(0, &mut lv, &mut brain);
    assert_eq!(lv.log.len(), 2);
    assert_eq!(brain.easy, 0);
    a_brain_spit(0, &mut lv, &mut brain);
    assert_eq!(lv.log.len(), 4);
}

#[test]
fn brain_without_spots_does_nothing() {
    let mut lv = spitting_level();
    let mut brain = BrainState::new();
    a_brain_spit(0, &mut lv, &mut brain);
    assert!(lv.log.is_empty());
    assert_eq!(brain.easy, 0);
    assert_eq!(brain.target_on, 0);
}
