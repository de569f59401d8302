use lib::enemy::{a_boss_death, EnemyEvent, GameMode, MobjInfo, MT_BABY, MT_BRUISER, MT_CYBORG};
use lib::fixed::Fixed;
use lib::level::MonsterLevel;
use lib::mobj::{dispatch_state_action, ActionFnId};
use lib::spec::{FloorType, VldoorType};
use lib::types::{MapObject, SfxEnum, MF_SHOOTABLE, MF_SOLID};

fn info() -> MobjInfo {
    MobjInfo {
        seestate: 17, meleestate: 0, painsound: SfxEnum::sfx_None, deathsound: SfxEnum::sfx_None, radius: Fixed(0),
        spawnstate: 10,
        missilestate: 0,
        seesound: SfxEnum::sfx_None,
        attacksound: SfxEnum::sfx_None,
        activesound: SfxEnum::sfx_None,
        speed: 8,
        mass: 100,
    }
}

/// Two things of type `t`: thing 0 is dying, thing 1 has `other_health`.
fn bosses(mode: GameMode, episode: i32, map: i32, t: usize, other_health: i32) -> MonsterLevel {
    let dying = MapObject { type_: t, health: 0, ..MapObject::default() };
    let other = MapObject { type_: t, health: other_health, ..MapObject::default() };
    let mut lv = MonsterLevel::new(vec![dying, other], vec![info(); 40], mode);
    lv.episode = episode;
    lv.map = map;
    lv
}

#[test]
fn last_baron_of_e1m8_lowers_the_floor() {
    let mut lv = bosses(GameMode::Registered, 1, 8, MT_BRUISER, 0);
    a_boss_death(0, &mut lv);
    assert_eq!(lv.log, vec![EnemyEvent::FloorByTag { tag: 666, floor_type: FloorType::LowerFloorToLowest }]);
}

#[test]
fn a_live_boss_keeps_the_level_going() {
    let mut lv = bosses(GameMode::Registered, 1, 8, MT_BRUISER, 100);
    a_boss_death(0, &mut lv);
    assert!(lv.log.is_empty());
}

#[test]
fn wrong_map_or_type_does_nothing() {
    let mut lv = bosses(GameMode::Registered, 1, 7, MT_BRUISER, 0);
    a_boss_death(0, &mut lv);
    assert!(lv.log.is_empty());
    let mut lv = bosses(GameMode::Registered, 1, 8, MT_CYBORG, 0);
    a_boss_death(0, &mut lv);
    assert!(lv.log.is_empty());
}

#[test]
fn arachnotrons_of_map07_raise_floors() {
    let mut lv = bosses(GameMode::Commercial, 1, 7, MT_BABY, 0);
    a_boss_death(0, &mut lv);
    assert_eq!(lv.log, vec![EnemyEvent::FloorByTag { tag: 667, floor_type: FloorType::RaiseToTexture }]);
}

#[test]
fn cyberdemon_of_e4m6_opens_doors() {
    let mut lv = bosses(GameMode::Retail, 4, 6, MT_CYBORG, -5);
    a_boss_death(0, &mut lv);
    assert_eq!(lv.log, vec![EnemyEvent::DoorByTag { tag: 666, door_type: VldoorType::BlazeOpen }]);
}

#[test]
fn later_episodes_end_the_level() {
    let mut lv = bosses(GameMode::Retail, 5, 8, 0, 0);
    a_boss_death(0, &mut lv);
    assert_eq!(lv.log, vec![EnemyEvent::ExitLevel]);
}

#[test]
fn state_actions_run_here_or_not_at_all() {
    let mut lv = bosses(GameMode::Registered, 1, 1, 0, 0);
    lv.mobjs[0].flags = MF_SOLID | MF_SHOOTABLE;
    dispatch_state_action(0, ActionFnId::A_Fall, &mut lv);
    assert_eq!(lv.mobjs[0].flags, MF_SHOOTABLE);
    dispatch_state_action(0, ActionFnId::A_Look, &mut lv);
    dispatch_state_action(0, ActionFnId::A_Pain, &mut lv);
    dispatch_state_action(0, ActionFnId::A_Scream, &mut lv);
    assert!(lv.log.is_empty());
    dispatch_state_action(0, ActionFnId::A_XScream, &mut lv);
    assert_eq!(lv.log, vec![EnemyEvent::Sound { origin: Some(0), sfx: SfxEnum::sfx_slop }]);
}
