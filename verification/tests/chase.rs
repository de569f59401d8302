use lib::enemy::{
    a_chase, a_keen_die, a_look, p_move, p_new_chase_dir, EnemyEvent, GameMode, MobjInfo, DI_EAST, DI_NODIR,
    DI_NORTHEAST,
};
use lib::fixed::{Fixed, FRACUNIT};
use lib::level::MonsterLevel;
use lib::spec::VldoorType;
use lib::types::{Angle, MapObject, SfxEnum, MF_AMBUSH, MF_INFLOAT, MF_JUSTATTACKED, MF_SHOOTABLE, MF_SOLID};

const F: i32 = FRACUNIT;

fn info() -> MobjInfo {
    MobjInfo {
        seestate: 17,
        meleestate: 0,
        painsound: SfxEnum::sfx_None,
        deathsound: SfxEnum::sfx_None,
        radius: Fixed(20 * F),
        spawnstate: 10,
        missilestate: 0,
        seesound: SfxEnum::sfx_None,
        attacksound: SfxEnum::sfx_None,
        activesound: SfxEnum::sfx_None,
        speed: 8 * F,
        mass: 100,
    }
}

/// A monster (thing 0) and a player (thing 1) `dx`, `dy` units away.
fn pair(dx: i32, dy: i32) -> MonsterLevel {
    let monster = MapObject { target: Some(1), flags: MF_SOLID | MF_SHOOTABLE, health: 20, movedir: DI_NODIR, ..MapObject::default() };
    let player = MapObject { x: Fixed(dx * F), y: Fixed(dy * F), health: 100, flags: MF_SHOOTABLE, ..MapObject::default() };
    MonsterLevel::new(vec![monster, player], vec![info(); 40], GameMode::Commercial)
}

#[test]
fn move_east_steps_by_speed() {
    let mut lv = pair(100, 0);
    lv.mobjs[0].movedir = DI_EAST;
    lv.mobjs[0].flags |= MF_INFLOAT;
    assert!(p_move(0, &mut lv));
    assert_eq!(lv.log, vec![EnemyEvent::TryMove { mobj: 0, x: Fixed(8 * F), y: Fixed(0), moved: true }]);
    assert_eq!(lv.mobjs[0].flags & MF_INFLOAT, 0);
}

#[test]
fn move_without_direction_fails_quietly() {
    let mut lv = pair(100, 0);
    assert!(!p_move(0, &mut lv));
    assert!(lv.log.is_empty());
}

#[test]
fn blocked_move_tries_bumped_lines() {
    let mut lv = pair(100, 0);
    lv.mobjs[0].movedir = DI_EAST;
    lv.blocked = true;
    lv.spechit = vec![3, 5];
    lv.lines_work = true;
    assert!(p_move(0, &mut lv));
    assert_eq!(lv.log[0], EnemyEvent::TryMove { mobj: 0, x: Fixed(8 * F), y: Fixed(0), moved: false });
    assert_eq!(lv.log[1], EnemyEvent::UseLine { mobj: 0, line: 5, used: true });
}

#[test]
fn chase_dir_tries_the_diagonal_first() {
    let mut lv = pair(100, 100);
    p_new_chase_dir(0, &mut lv);
    let step = Fixed(8 * F).fixed_mul(Fixed(47000)).0;
    assert_eq!(lv.log[0], EnemyEvent::TryMove { mobj: 0, x: Fixed(step), y: Fixed(step), moved: true });
    assert_eq!(lv.mobjs[0].movedir, DI_NORTHEAST);
    assert!(lv.mobjs[0].movecount <= 15);
}

#[test]
fn chase_dir_gives_up_when_boxed_in() {
    let mut lv = pair(100, 100);
    lv.blocked = true;
    p_new_chase_dir(0, &mut lv);
    assert_eq!(lv.mobjs[0].movedir, DI_NODIR);
    assert!(lv.log.iter().all(|e| matches!(e, EnemyEvent::TryMove { mobj: 0, moved: false, .. })));
}

#[test]
fn look_wakes_on_a_heard_player() {
    let mut lv = pair(100, 0);
    lv.mobjs[0].target = None;
    lv.mobjs[0].subsector = Some(0);
    lv.soundtarget = Some(1);
    lv.mobjs[0].threshold = 5;
    a_look(0, &mut lv);
    assert_eq!(lv.log, vec![EnemyEvent::SetState { mobj: 0, state: 17 }]);
    assert_eq!(lv.mobjs[0].target, Some(1));
    assert_eq!(lv.mobjs[0].threshold, 0);
}

#[test]
fn ambusher_that_cannot_see_keeps_looking() {
    let mut lv = pair(100, 0);
    lv.mobjs[0].subsector = Some(0);
    lv.mobjs[0].flags |= MF_AMBUSH;
    lv.soundtarget = Some(1);
    lv.sight = false;
    a_look(0, &mut lv);
    assert_eq!(lv.log, vec![EnemyEvent::LookForPlayers { mobj: 0, allaround: false, found: false }]);
}

#[test]
fn look_in_the_void_asks_for_players() {
    let mut lv = pair(100, 0);
    lv.infos[0].seesound = SfxEnum::sfx_sgtsit;
    lv.finds_player = true;
    a_look(0, &mut lv);
    assert_eq!(
        lv.log,
        vec![
            EnemyEvent::LookForPlayers { mobj: 0, allaround: false, found: true },
            EnemyEvent::Sound { origin: Some(0), sfx: SfxEnum::sfx_sgtsit },
            EnemyEvent::SetState { mobj: 0, state: 17 },
        ]
    );
}

#[test]
fn keen_death_opens_doors_when_last() {
    let mut lv = pair(100, 0);
    lv.mobjs[0].health = 0;
    lv.mobjs[1].type_ = 1;
    a_keen_die(0, &mut lv);
    assert_eq!(lv.mobjs[0].flags & MF_SOLID, 0);
    assert_eq!(lv.log, vec![EnemyEvent::DoorByTag { tag: 666, door_type: VldoorType::Open }]);
}

#[test]
fn keen_death_waits_for_the_others() {
    let mut lv = pair(100, 0);
    lv.mobjs[0].health = 0;
    a_keen_die(0, &mut lv);
    assert!(lv.log.is_empty());
}

#[test]
fn chase_without_target_returns_to_spawn() {
    let mut lv = pair(100, 0);
    lv.mobjs[1].health = 0;
    lv.mobjs[0].reactiontime = 3;
    lv.mobjs[0].threshold = 2;
    a_chase(0, &mut lv);
    assert_eq!(
        lv.log,
        vec![
            EnemyEvent::LookForPlayers { mobj: 0, allaround: true, found: false },
            EnemyEvent::SetState { mobj: 0, state: 10 },
        ]
    );
    assert_eq!(lv.mobjs[0].reactiontime, 2);
    assert_eq!(lv.mobjs[0].threshold, 1);
}

#[test]
fn chase_turns_45_degrees_at_a_time() {
    let mut lv = pair(100, 0);
    lv.mobjs[0].movedir = 4;
    lv.mobjs[0].movecount = 3;
    a_chase(0, &mut lv);
    assert_eq!(lv.mobjs[0].angle, Angle(0xE000_0000));
    assert_eq!(lv.log[0], EnemyEvent::TryMove { mobj: 0, x: Fixed(-8 * F), y: Fixed(0), moved: true });
    assert_eq!(lv.mobjs[0].movecount, 2);
}

#[test]
fn chase_after_attacking_picks_a_new_way() {
    let mut lv = pair(100, 0);
    lv.mobjs[0].flags |= MF_JUSTATTACKED;
    a_chase(0, &mut lv);
    assert_eq!(lv.mobjs[0].flags & MF_JUSTATTACKED, 0);
    assert_eq!(lv.log[0], EnemyEvent::TryMove { mobj: 0, x: Fixed(8 * F), y: Fixed(0), moved: true });
}

#[test]
fn fast_chase_after_attacking_only_forgets() {
    let mut lv = pair(100, 0);
    lv.mobjs[0].flags |= MF_JUSTATTACKED;
    lv.fast = true;
    a_chase(0, &mut lv);
    assert_eq!(lv.mobjs[0].flags & MF_JUSTATTACKED, 0);
    assert!(lv.log.is_empty());
}

#[test]
fn chase_claws_in_reach() {
    let mut lv = pair(30, 0);
    lv.infos[0].meleestate = 40;
    lv.infos[0].attacksound = SfxEnum::sfx_claw;
    a_chase(0, &mut lv);
    assert_eq!(
        lv.log,
        vec![
            EnemyEvent::Sound { origin: Some(0), sfx: SfxEnum::sfx_claw },
            EnemyEvent::SetState { mobj: 0, state: 40 },
        ]
    );
}
