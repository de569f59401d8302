use lib::doors::t_vertical_door;
use lib::fixed::{Fixed, FRACUNIT};
use lib::spec::{VldoorT, VldoorType, VDOORSPEED, VDOORWAIT};
use lib::types::{Sector, SfxEnum};

fn make_test_door(direction: i32, door_type: VldoorType) -> VldoorT {
    let mut door = VldoorT::new(0);
    door.direction = direction;
    door.door_type = door_type;
    door.speed = Fixed::new(VDOORSPEED);
    door.topwait = VDOORWAIT;
    door.topheight = Fixed::new(128 * FRACUNIT);
    door.topcountdown = VDOORWAIT;
    door
}

fn make_test_sector() -> Sector {
    Sector {
        floorheight: Fixed(0),
        ceilingheight: Fixed::new(128 * FRACUNIT),
        specialdata: Some(42),
        ..Sector::default()
    }
}

fn noop_change(_crush: bool) -> bool {
    false
}

struct SoundCollector {
    sounds: Vec<SfxEnum>,
}

impl SoundCollector {
    fn new() -> Self {
        Self { sounds: Vec::new() }
    }
}

#[test]
fn test_t_vertical_door_waiting_decrement() {
    let mut door = make_test_door(0, VldoorType::Normal);
    door.topcountdown = 50;
    let mut sector = make_test_sector();
    let mut sounds = SoundCollector::new();

    let result = t_vertical_door(&mut door, &mut sector, &mut noop_change, &mut |sfx| {
        sounds.sounds.push(sfx)
    });

    assert!(!result); // should NOT remove thinker
    assert_eq!(door.topcountdown, 49); // decremented
    assert_eq!(door.direction, 0); // still waiting
    assert!(sounds.sounds.is_empty()); // no sound yet
}

#[test]
fn test_t_vertical_door_waiting_timeout_normal() {
    let mut door = make_test_door(0, VldoorType::Normal);
    door.topcountdown = 1; // will hit zero
    let mut sector = make_test_sector();
    let mut sounds = SoundCollector::new();

    let result = t_vertical_door(&mut door, &mut sector, &mut noop_change, &mut |sfx| {
        sounds.sounds.push(sfx)
    });

    assert!(!result);
    assert_eq!(door.direction, -1); // started closing
    assert_eq!(sounds.sounds, vec![SfxEnum::sfx_dorcls]);
}

#[test]
fn test_t_vertical_door_waiting_timeout_blaze_raise() {
    let mut door = make_test_door(0, VldoorType::BlazeRaise);
    door.topcountdown = 1;
    let mut sector = make_test_sector();
    let mut sounds = SoundCollector::new();

    let result = t_vertical_door(&mut door, &mut sector, &mut noop_change, &mut |sfx| {
        sounds.sounds.push(sfx)
    });

    assert!(!result);
    assert_eq!(door.direction, -1);
    assert_eq!(sounds.sounds, vec![SfxEnum::sfx_bdcls]);
}

#[test]
fn test_t_vertical_door_waiting_timeout_close30_then_open() {
    let mut door = make_test_door(0, VldoorType::Close30ThenOpen);
    door.topcountdown = 1;
    let mut sector = make_test_sector();
    let mut sounds = SoundCollector::new();

    let result = t_vertical_door(&mut door, &mut sector, &mut noop_change, &mut |sfx| {
        sounds.sounds.push(sfx)
    });

    assert!(!result);
    assert_eq!(door.direction, 1); // started opening
    assert_eq!(sounds.sounds, vec![SfxEnum::sfx_doropn]);
}

#[test]
fn test_t_vertical_door_initial_wait_raise_in_5_mins() {
    let mut door = make_test_door(2, VldoorType::RaiseIn5Mins);
    door.topcountdown = 1;
    let mut sector = make_test_sector();
    let mut sounds = SoundCollector::new();

    let result = t_vertical_door(&mut door, &mut sector, &mut noop_change, &mut |sfx| {
        sounds.sounds.push(sfx)
    });

    assert!(!result);
    assert_eq!(door.direction, 1);
    assert_eq!(door.door_type, VldoorType::Normal); // converted
    assert_eq!(sounds.sounds, vec![SfxEnum::sfx_doropn]);
}

#[test]
fn test_t_vertical_door_closing_past_dest_normal() {
    let mut door = make_test_door(-1, VldoorType::Normal);
    let mut sector = make_test_sector();
    // Sector ceiling is already at floor height → PastDest
    sector.ceilingheight = sector.floorheight;
    let mut sounds = SoundCollector::new();

    let result = t_vertical_door(&mut door, &mut sector, &mut noop_change, &mut |sfx| {
        sounds.sounds.push(sfx)
    });

    assert!(result); // should remove thinker
    assert!(sector.specialdata.is_none()); // cleared
}

#[test]
fn test_t_vertical_door_closing_past_dest_blaze() {
    let mut door = make_test_door(-1, VldoorType::BlazeRaise);
    let mut sector = make_test_sector();
    sector.ceilingheight = sector.floorheight;
    let mut sounds = SoundCollector::new();

    let result = t_vertical_door(&mut door, &mut sector, &mut noop_change, &mut |sfx| {
        sounds.sounds.push(sfx)
    });

    assert!(result); // should remove
    assert!(sector.specialdata.is_none());
    assert_eq!(sounds.sounds, vec![SfxEnum::sfx_bdcls]);
}

#[test]
fn test_t_vertical_door_closing_past_dest_close30_then_open() {
    let mut door = make_test_door(-1, VldoorType::Close30ThenOpen);
    let mut sector = make_test_sector();
    sector.ceilingheight = sector.floorheight;
    let mut sounds = SoundCollector::new();

    let result = t_vertical_door(&mut door, &mut sector, &mut noop_change, &mut |sfx| {
        sounds.sounds.push(sfx)
    });

    assert!(!result); // should NOT remove (transitions to waiting)
    assert_eq!(door.direction, 0);
    assert_eq!(door.topcountdown, 35 * 30);
}

#[test]
fn test_t_vertical_door_closing_crushed_reverses() {
    let mut door = make_test_door(-1, VldoorType::Normal);
    let mut sector = make_test_sector();
    // Ceiling is above floor, but change_sector reports crush
    sector.ceilingheight = Fixed::new(64 * FRACUNIT);
    let mut sounds = SoundCollector::new();

    // Make change_sector always report crush
    let mut crush_fn = |_crush: bool| -> bool { true };

    let result = t_vertical_door(&mut door, &mut sector, &mut crush_fn, &mut |sfx| {
        sounds.sounds.push(sfx)
    });

    assert!(!result);
    assert_eq!(door.direction, 1); // reversed to opening
    assert_eq!(sounds.sounds, vec![SfxEnum::sfx_doropn]);
}

#[test]
fn test_t_vertical_door_closing_crushed_close_type_no_reverse() {
    let mut door = make_test_door(-1, VldoorType::Close);
    let mut sector = make_test_sector();
    sector.ceilingheight = Fixed::new(64 * FRACUNIT);
    let mut sounds = SoundCollector::new();

    let mut crush_fn = |_crush: bool| -> bool { true };

    let result = t_vertical_door(&mut door, &mut sector, &mut crush_fn, &mut |sfx| {
        sounds.sounds.push(sfx)
    });

    assert!(!result);
    assert_eq!(door.direction, -1); // still closing (no reverse for Close type)
    assert!(sounds.sounds.is_empty());
}

#[test]
fn test_t_vertical_door_closing_crushed_blaze_close_no_reverse() {
    let mut door = make_test_door(-1, VldoorType::BlazeClose);
    let mut sector = make_test_sector();
    sector.ceilingheight = Fixed::new(64 * FRACUNIT);
    let mut sounds = SoundCollector::new();

    let mut crush_fn = |_crush: bool| -> bool { true };

    let result = t_vertical_door(&mut door, &mut sector, &mut crush_fn, &mut |sfx| {
        sounds.sounds.push(sfx)
    });

    assert!(!result);
    assert_eq!(door.direction, -1); // still closing
    assert!(sounds.sounds.is_empty());
}

#[test]
fn test_t_vertical_door_opening_past_dest_normal() {
    let mut door = make_test_door(1, VldoorType::Normal);
    door.topheight = Fixed::new(128 * FRACUNIT);
    let mut sector = make_test_sector();
    // Ceiling already at topheight → PastDest
    sector.ceilingheight = door.topheight;
    let mut sounds = SoundCollector::new();

    let result = t_vertical_door(&mut door, &mut sector, &mut noop_change, &mut |sfx| {
        sounds.sounds.push(sfx)
    });

    assert!(!result); // stays active (waiting)
    assert_eq!(door.direction, 0); // now waiting
    assert_eq!(door.topcountdown, VDOORWAIT);
}

#[test]
fn test_t_vertical_door_opening_past_dest_open_type() {
    let mut door = make_test_door(1, VldoorType::Open);
    door.topheight = Fixed::new(128 * FRACUNIT);
    let mut sector = make_test_sector();
    sector.ceilingheight = door.topheight;
    let mut sounds = SoundCollector::new();

    let result = t_vertical_door(&mut door, &mut sector, &mut noop_change, &mut |sfx| {
        sounds.sounds.push(sfx)
    });

    assert!(result); // should remove (stays open permanently)
    assert!(sector.specialdata.is_none());
}

#[test]
fn test_t_vertical_door_opening_past_dest_blaze_open() {
    let mut door = make_test_door(1, VldoorType::BlazeOpen);
    door.topheight = Fixed::new(128 * FRACUNIT);
    let mut sector = make_test_sector();
    sector.ceilingheight = door.topheight;
    let mut sounds = SoundCollector::new();

    let result = t_vertical_door(&mut door, &mut sector, &mut noop_change, &mut |sfx| {
        sounds.sounds.push(sfx)
    });

    assert!(result); // should remove
    assert!(sector.specialdata.is_none());
}
