use lib::ceilng::{ev_do_ceiling, CEILSPEED};
use lib::doors::{
    ev_do_door, ev_do_locked_door, ev_vertical_door, p_spawn_door_close_in30, p_spawn_door_raise_in5_mins,
    BLAZE_DOOR_SPEED, PD_BLUEK, PD_BLUEO,
};
use lib::fixed::{Fixed, FRACUNIT};
use lib::floor::{ev_build_stairs, ev_do_floor, t_move_floor};
use lib::level::{Mover, SectorLevel};
use lib::plats::{ev_do_plat, p_activate_in_stasis};
use lib::random::DoomRandom;
use lib::spec::{
    CeilingT, CeilingType, FloorMoveT, FloorType, PlatStatus, PlatT, PlatType, StairType, VldoorT, VldoorType,
    FLOORSPEED, PLATSPEED, VDOORSPEED, VDOORWAIT,
};
use lib::types::{ActionFn, LineDef, Sector, SfxEnum, SideDef, Thinker, ML_TWOSIDED, IT_BLUECARD};

const F: i32 = FRACUNIT;

/// Sector 0: a room (floor 0, ceiling 128). Sector 1: a closed door (floor
/// and ceiling 0) tagged 5. Line 0 joins them (front 0, back 1); line 1 is
/// a one-sided switch line in the room tagged 5 with special `special`.
fn door_level(special: i16) -> SectorLevel {
    let room = Sector { floorheight: Fixed(0), ceilingheight: Fixed(128 * F), floorpic: 4, lines: vec![0, 1], ..Sector::default() };
    let door = Sector { floorheight: Fixed(0), ceilingheight: Fixed(0), tag: 5, floorpic: 9, special: 3, lines: vec![0], ..Sector::default() };
    let joint = LineDef { flags: ML_TWOSIDED, sidenum: [0, 1], frontsector: Some(0), backsector: Some(1), special, ..LineDef::default() };
    let switch = LineDef { sidenum: [0, -1], frontsector: Some(0), tag: 5, special, ..LineDef::default() };
    let sides = vec![SideDef { sector: 0, ..SideDef::default() }, SideDef { sector: 1, ..SideDef::default() }];
    SectorLevel::new(vec![room, door], vec![joint, switch], sides, vec![Some(0), None], vec![[false; 6]])
}

fn normal_door(sector: usize, direction: i32) -> VldoorT {
    VldoorT {
        thinker: Thinker { function: ActionFn::VerticalDoor },
        door_type: VldoorType::Normal,
        sector,
        topheight: Fixed(124 * F),
        speed: Fixed(VDOORSPEED),
        direction,
        topwait: VDOORWAIT,
        topcountdown: 0,
    }
}

#[test]
fn do_door_opens_tagged_sector_once() {
    let mut lv = door_level(0);
    assert!(ev_do_door(1, VldoorType::Normal, &mut lv));
    assert_eq!(lv.sounds, vec![(Some(1), SfxEnum::sfx_doropn)]);
    assert_eq!(lv.movers, vec![Mover::Door(normal_door(1, 1))]);
    assert_eq!(lv.sectors[1].specialdata, Some(0));
    // The sector is now busy: nothing more happens.
    assert!(!ev_do_door(1, VldoorType::Normal, &mut lv));
    assert_eq!(lv.movers.len(), 1);
}

#[test]
fn do_door_blaze_close() {
    let mut lv = door_level(0);
    assert!(ev_do_door(1, VldoorType::BlazeClose, &mut lv));
    let expected = VldoorT { door_type: VldoorType::BlazeClose, direction: -1, speed: Fixed(BLAZE_DOOR_SPEED), ..normal_door(1, -1) };
    assert_eq!(lv.movers, vec![Mover::Door(expected)]);
    assert_eq!(lv.sounds, vec![(Some(1), SfxEnum::sfx_bdcls)]);
}

#[test]
fn locked_remote_door_needs_key() {
    let mut lv = door_level(99);
    assert!(!ev_do_locked_door(1, VldoorType::Normal, 0, &mut lv));
    assert_eq!(lv.messages, vec![(0, PD_BLUEO.to_string())]);
    assert_eq!(lv.sounds, vec![(None, SfxEnum::sfx_oof)]);
    assert!(lv.movers.is_empty());
    // Monsters cannot use it at all.
    assert!(!ev_do_locked_door(1, VldoorType::Normal, 1, &mut lv));
    assert_eq!(lv.sounds.len(), 1);
    // With the blue card it opens.
    lv.player_cards[0][IT_BLUECARD] = true;
    assert!(ev_do_locked_door(1, VldoorType::Normal, 0, &mut lv));
    assert_eq!(lv.movers.len(), 1);
}

#[test]
fn vertical_door_opens_then_reverses() {
    let mut lv = door_level(1);
    ev_vertical_door(0, 0, &mut lv);
    assert_eq!(lv.sounds, vec![(Some(1), SfxEnum::sfx_doropn)]);
    assert_eq!(lv.movers, vec![Mover::Door(normal_door(1, 1))]);
    // Used again while opening, by a player: it closes.
    ev_vertical_door(0, 0, &mut lv);
    assert_eq!(lv.movers, vec![Mover::Door(normal_door(1, -1))]);
    // Used while closing: it opens again.
    ev_vertical_door(0, 1, &mut lv);
    assert_eq!(lv.movers, vec![Mover::Door(normal_door(1, 1))]);
    // A monster does not close an opening door.
    ev_vertical_door(0, 1, &mut lv);
    assert_eq!(lv.movers, vec![Mover::Door(normal_door(1, 1))]);
}

#[test]
fn vertical_door_locked_and_one_shot() {
    let mut locked = door_level(26);
    ev_vertical_door(0, 0, &mut locked);
    assert_eq!(locked.messages, vec![(0, PD_BLUEK.to_string())]);
    assert!(locked.movers.is_empty());
    let mut open_stay = door_level(31);
    ev_vertical_door(0, 0, &mut open_stay);
    assert_eq!(open_stay.lines[0].special, 0);
    assert_eq!(open_stay.movers, vec![Mover::Door(VldoorT { door_type: VldoorType::Open, ..normal_door(1, 1) })]);
}

#[test]
fn spawned_doors() {
    let mut lv = door_level(0);
    p_spawn_door_close_in30(1, &mut lv);
    let close = VldoorT { topheight: Fixed(0), topwait: 0, direction: 0, topcountdown: 1050, ..normal_door(1, 0) };
    assert_eq!(lv.movers, vec![Mover::Door(close)]);
    assert_eq!(lv.sectors[1].special, 0);
    let mut lv2 = door_level(0);
    p_spawn_door_raise_in5_mins(1, 1, &mut lv2);
    let raise = VldoorT { door_type: VldoorType::RaiseIn5Mins, direction: 2, topcountdown: 10500, ..normal_door(1, 2) };
    assert_eq!(lv2.movers, vec![Mover::Door(raise)]);
}

#[test]
fn do_floor_raise_24() {
    let mut lv = door_level(0);
    assert!(ev_do_floor(1, FloorType::RaiseFloor24, &mut lv));
    let expected = FloorMoveT {
        thinker: Thinker { function: ActionFn::NoAction },
        floor_type: FloorType::RaiseFloor24,
        crush: false,
        sector: 1,
        direction: 1,
        newsecspecial: 0,
        newtexture: 0,
        floordestheight: Fixed(24 * F),
        speed: Fixed(FLOORSPEED),
    };
    assert_eq!(lv.movers, vec![Mover::Floor(expected)]);
}

#[test]
fn do_floor_raise_24_and_change() {
    let mut lv = door_level(0);
    assert!(ev_do_floor(1, FloorType::RaiseFloor24AndChange, &mut lv));
    match lv.movers[0] {
        Mover::Floor(f) => {
            assert_eq!(f.newtexture, 4);
            assert_eq!(f.newsecspecial, 3);
        }
        _ => panic!("expected a floor mover"),
    }
}

#[test]
fn move_floor_changes_nothing() {
    let mut lv = door_level(0);
    t_move_floor(0, &mut lv);
    assert!(lv.movers.is_empty());
    assert_eq!(lv.sectors[1].floorheight, Fixed(0));
}

#[test]
fn stairs_climb_matching_neighbours() {
    let s0 = Sector { tag: 7, floorpic: 3, lines: vec![0], ..Sector::default() };
    let s1 = Sector { floorpic: 3, lines: vec![0, 1], ..Sector::default() };
    let s2 = Sector { floorpic: 3, lines: vec![1], ..Sector::default() };
    let l0 = LineDef { flags: ML_TWOSIDED, frontsector: Some(0), backsector: Some(1), ..LineDef::default() };
    let l1 = LineDef { flags: ML_TWOSIDED, frontsector: Some(1), backsector: Some(2), ..LineDef::default() };
    let trigger = LineDef { tag: 7, ..LineDef::default() };
    let mut lv = SectorLevel::new(vec![s0, s1, s2], vec![l0, l1, trigger], vec![], vec![], vec![]);
    assert!(ev_build_stairs(2, StairType::Build8, &mut lv));
    let step = |sector: usize, h: i32| {
        Mover::Floor(FloorMoveT {
            thinker: Thinker { function: ActionFn::NoAction },
            floor_type: FloorType::RaiseFloor,
            crush: false,
            sector,
            direction: 1,
            newsecspecial: 0,
            newtexture: 0,
            floordestheight: Fixed(h),
            speed: Fixed(FLOORSPEED / 4),
        })
    };
    assert_eq!(lv.movers, vec![step(0, 8 * F), step(1, 16 * F), step(2, 24 * F)]);
    assert!(lv.sectors.iter().all(|s| s.specialdata.is_some()));
}

#[test]
fn do_ceiling_lower_to_floor() {
    let mut lv = door_level(0);
    lv.sectors[1].ceilingheight = Fixed(64 * F);
    assert!(ev_do_ceiling(1, CeilingType::LowerToFloor, &mut lv));
    let expected = CeilingT {
        thinker: Thinker { function: ActionFn::MoveCeiling },
        ceiling_type: CeilingType::LowerToFloor,
        sector: 1,
        bottomheight: Fixed(0),
        topheight: Fixed(0),
        speed: Fixed(CEILSPEED),
        crush: false,
        direction: -1,
        tag: 5,
        olddirection: 0,
    };
    assert_eq!(lv.movers, vec![Mover::Ceiling(expected)]);
    assert!(lv.activated_ceilings.is_empty());
}

#[test]
fn crushers_first_reactivate() {
    let mut lv = door_level(0);
    assert!(ev_do_ceiling(1, CeilingType::CrushAndRaise, &mut lv));
    assert_eq!(lv.activated_ceilings, vec![5]);
}

#[test]
fn do_plat_down_wait_up_stay() {
    let mut lv = door_level(0);
    assert!(ev_do_plat(1, PlatType::DownWaitUpStay, 0, &mut lv));
    let expected = PlatT {
        thinker: Thinker { function: ActionFn::NoAction },
        sector: 1,
        speed: Fixed(PLATSPEED * 4),
        low: Fixed(0),
        high: Fixed(0),
        wait: 105,
        count: 0,
        status: PlatStatus::Down,
        oldstatus: PlatStatus::Up,
        crush: false,
        tag: 5,
        plat_type: PlatType::DownWaitUpStay,
    };
    assert_eq!(lv.movers, vec![Mover::Plat(expected)]);
    assert_eq!(lv.sounds, vec![(None, SfxEnum::sfx_pstart)]);
}

#[test]
fn do_plat_perpetual_rolls_direction() {
    let mut lv = door_level(0);
    assert!(ev_do_plat(1, PlatType::PerpetualRaise, 0, &mut lv));
    assert_eq!(lv.activated_plats, vec![5]);
    let roll = DoomRandom::new().p_random();
    match lv.movers[0] {
        Mover::Plat(p) => {
            assert_eq!(p.status, if roll & 1 != 0 { PlatStatus::Down } else { PlatStatus::Up });
            assert_eq!(p.high, Fixed(0));
        }
        _ => panic!("expected a platform"),
    }
    assert_eq!(lv.rng.prndindex, 1);
}

#[test]
fn do_plat_raise_and_change_takes_front_picture() {
    let mut lv = door_level(0);
    assert!(ev_do_plat(1, PlatType::RaiseAndChange, 3, &mut lv));
    assert_eq!(lv.sectors[1].floorpic, 4);
    assert_eq!(lv.sounds, vec![(None, SfxEnum::sfx_stnmov)]);
    match lv.movers[0] {
        Mover::Plat(p) => assert_eq!(p.high, Fixed(3 * F)),
        _ => panic!("expected a platform"),
    }
}

#[test]
fn activate_in_stasis_asks_engine() {
    let mut lv = door_level(0);
    p_activate_in_stasis(9, &mut lv);
    assert_eq!(lv.activated_plats, vec![9]);
}
