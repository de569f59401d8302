use lib::fixed::{Fixed, FRACUNIT};
use lib::level::PositionLevel;
use lib::movement::{
    p_check_position, p_teleport_move, p_thing_height_clip, p_try_move, pit_check_thing, MoveEvent, MovementState,
    ThingAction,
};
use lib::random::DoomRandom;
use lib::types::{
    LineDef, MapObject, Sector, SlopeType, Subsector, Vertex, MF_MISSILE, MF_PICKUP, MF_SHOOTABLE, MF_SKULLFLY, MF_SOLID,
    MF_SPECIAL,
};

const F: i32 = FRACUNIT;

fn room(floor: i32, ceiling: i32) -> Sector {
    let mut s = Sector::default();
    s.floorheight = Fixed(floor * F);
    s.ceilingheight = Fixed(ceiling * F);
    s
}

/// A vertical line at `x` from y = -64 to 64, one-sided or into sector 1.
fn vline(v1: usize, x: i32, back: bool, special: i16) -> LineDef {
    LineDef {
        v1,
        v2: v1 + 1,
        dx: Fixed(0),
        dy: Fixed(128 * F),
        special,
        sidenum: [0, if back { 1 } else { -1 }],
        bbox: [Fixed(64 * F), Fixed(-64 * F), Fixed(x * F), Fixed(x * F)],
        slopetype: SlopeType::Vertical,
        frontsector: Some(0),
        backsector: if back { Some(1) } else { None },
        ..LineDef::default()
    }
}

fn thing(x: i32) -> MapObject {
    MapObject {
        x: Fixed(x * F),
        radius: Fixed(16 * F),
        height: Fixed(56 * F),
        flags: MF_SOLID | MF_SHOOTABLE,
        ..MapObject::default()
    }
}

/// A room with a wall at x = 64 and `extra` lines, thing 0 at the origin.
fn level(extra: Vec<LineDef>, back_floor: i32) -> PositionLevel {
    let mut lines = vec![vline(0, 64, false, 0)];
    lines.extend(extra);
    let n = lines.len();
    PositionLevel {
        mobjs: vec![thing(0)],
        lines,
        vertexes: vec![
            Vertex { x: Fixed(64 * F), y: Fixed(-64 * F) },
            Vertex { x: Fixed(64 * F), y: Fixed(64 * F) },
            Vertex { x: Fixed(20 * F), y: Fixed(-64 * F) },
            Vertex { x: Fixed(20 * F), y: Fixed(64 * F) },
        ],
        sectors: vec![room(0, 128), room(back_floor, 128)],
        subsectors: vec![Subsector { sector: 0, ..Subsector::default() }],
        subsector: 0,
        validcount: 0,
        orgx: Fixed(-64 * F),
        orgy: Fixed(-64 * F),
        damage: 3,
        spawnstate: 9,
        map: 1,
        cell_things: vec![0],
        cell_lines: (0..n).collect(),
        rng: DoomRandom::new(),
        log: Vec::new(),
    }
}

#[test]
fn free_move_relinks_the_thing() {
    let mut lv = level(vec![], 0);
    let mut ms = MovementState::default();
    assert!(p_try_move(0, Fixed(10 * F), Fixed(0), &mut ms, &mut lv));
    assert_eq!(lv.log, vec![MoveEvent::Unlink { thing: 0 }, MoveEvent::Link { thing: 0 }]);
    assert_eq!(lv.mobjs[0].x, Fixed(10 * F));
    assert_eq!(lv.mobjs[0].ceilingz, Fixed(128 * F));
    assert!(ms.floatok);
}

#[test]
fn wall_blocks_the_move() {
    let mut lv = level(vec![], 0);
    let mut ms = MovementState::default();
    assert!(!p_try_move(0, Fixed(56 * F), Fixed(0), &mut ms, &mut lv));
    assert!(lv.log.is_empty());
    assert_eq!(lv.mobjs[0].x, Fixed(0));
}

#[test]
fn high_step_blocks_but_opening_floats() {
    let mut lv = level(vec![vline(2, 20, true, 0)], 40);
    let mut ms = MovementState::default();
    assert!(!p_try_move(0, Fixed(30 * F), Fixed(0), &mut ms, &mut lv));
    assert!(ms.floatok);
    assert_eq!(ms.tmfloorz, Fixed(40 * F));
}

#[test]
fn crossing_a_special_line_triggers_it() {
    let mut lv = level(vec![vline(2, 20, true, 97)], 0);
    let mut ms = MovementState::default();
    assert!(p_try_move(0, Fixed(30 * F), Fixed(0), &mut ms, &mut lv));
    assert_eq!(ms.spechit, vec![1]);
    assert_eq!(
        lv.log,
        vec![
            MoveEvent::Unlink { thing: 0 },
            MoveEvent::Link { thing: 0 },
            MoveEvent::CrossLine { line: 1, side: 1, thing: 0 },
        ]
    );
}

#[test]
fn solid_thing_in_the_way() {
    let mut lv = level(vec![], 0);
    lv.mobjs.push(thing(30));
    lv.cell_things = vec![0, 1];
    let mut ms = MovementState::default();
    assert!(!p_check_position(0, Fixed(10 * F), Fixed(0), &mut ms, &mut lv));
    assert!(lv.log.is_empty());
}

#[test]
fn missile_hits_for_its_damage() {
    let mut lv = level(vec![], 0);
    lv.mobjs[0].flags = MF_MISSILE;
    lv.mobjs[0].target = Some(1);
    lv.mobjs.push(thing(30));
    lv.cell_things = vec![0, 1];
    let mut ms = MovementState::default();
    assert!(!p_check_position(0, Fixed(10 * F), Fixed(0), &mut ms, &mut lv));
    let r = DoomRandom::new().p_random();
    assert_eq!(lv.log, vec![MoveEvent::Damage { victim: 1, inflictor: Some(0), by: Some(1), damage: ((r % 8) as i32 + 1) * 3 }]);
}

#[test]
fn lost_soul_slams_and_stops() {
    let mut lv = level(vec![], 0);
    lv.mobjs[0].flags = MF_SKULLFLY | MF_SOLID;
    lv.mobjs[0].momx = Fixed(20 * F);
    lv.mobjs.push(thing(30));
    lv.cell_things = vec![0, 1];
    let mut ms = MovementState::default();
    assert!(!p_check_position(0, Fixed(10 * F), Fixed(0), &mut ms, &mut lv));
    assert_eq!(lv.log.len(), 2);
    assert_eq!(lv.log[1], MoveEvent::SetState { mobj: 0, state: 9 });
    assert_eq!(lv.mobjs[0].flags & MF_SKULLFLY, 0);
    assert_eq!(lv.mobjs[0].momx, Fixed(0));
}

#[test]
fn pickups_do_not_block() {
    let mut lv = level(vec![], 0);
    lv.mobjs[0].flags = MF_SOLID | MF_PICKUP;
    lv.mobjs.push(MapObject { flags: MF_SPECIAL, ..thing(20) });
    lv.cell_things = vec![0, 1];
    let mut ms = MovementState::default();
    assert!(p_check_position(0, Fixed(10 * F), Fixed(0), &mut ms, &mut lv));
    assert_eq!(lv.log, vec![MoveEvent::TouchSpecial { special: 1, toucher: 0 }]);
}

#[test]
fn thing_check_rules() {
    let mut ms = MovementState::default();
    ms.tmthing_idx = Some(0);
    ms.tmradius = Fixed(16 * F);
    ms.tmheight = Fixed(16 * F);
    ms.tmflags = MF_MISSILE;
    ms.tmz = Fixed(100 * F);
    let t = thing(20);
    assert_eq!(pit_check_thing(1, &t, &ms), (true, ThingAction::Continue));
    ms.tmz = Fixed(0);
    assert_eq!(pit_check_thing(1, &t, &ms), (false, ThingAction::MissileHit { target: 1, inflictor: 0, source: None }));
    assert_eq!(pit_check_thing(0, &t, &ms), (true, ThingAction::Continue));
    let far = thing(40);
    assert_eq!(pit_check_thing(1, &far, &ms), (true, ThingAction::Continue));
}

#[test]
fn monster_cannot_telefrag_outside_map30() {
    let mut lv = level(vec![], 0);
    lv.mobjs.push(thing(30));
    lv.cell_things = vec![0, 1];
    let mut ms = MovementState::default();
    assert!(!p_teleport_move(0, Fixed(20 * F), Fixed(0), &mut ms, &mut lv));
    assert!(lv.log.is_empty());
    lv.map = 30;
    assert!(p_teleport_move(0, Fixed(20 * F), Fixed(0), &mut ms, &mut lv));
    assert_eq!(lv.log[0], MoveEvent::Damage { victim: 1, inflictor: Some(0), by: Some(0), damage: 10000 });
    assert_eq!(lv.mobjs[0].x, Fixed(20 * F));
}

#[test]
fn height_clip_follows_the_floor() {
    let mut lv = level(vec![], 0);
    lv.sectors[0].floorheight = Fixed(8 * F);
    let mut ms = MovementState::default();
    assert!(p_thing_height_clip(0, &mut ms, &mut lv));
    assert_eq!(lv.mobjs[0].z, Fixed(8 * F));
    assert_eq!(lv.mobjs[0].floorz, Fixed(8 * F));
    lv.sectors[0].ceilingheight = Fixed(40 * F);
    assert!(!p_thing_height_clip(0, &mut ms, &mut lv));
}
