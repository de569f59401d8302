use lib::ceilng::{
    ev_ceiling_crush_stop, p_activate_in_stasis_ceiling, p_add_active_ceiling, play_sounds,
    p_remove_active_ceiling, t_move_ceiling, ActiveCeilings, CEILSPEED, MAXCEILINGS,
};
use lib::fixed::{Fixed, FRACUNIT};
use lib::spec::{CeilingT, CeilingType};
use lib::types::{ActionFn, DegenMobj, Sector, SfxEnum, Thinker};

fn make_test_sector() -> Sector {
    Sector {
        floorheight: Fixed(0),
        ceilingheight: Fixed(128 * FRACUNIT),
        floorpic: 0,
        ceilingpic: 0,
        lightlevel: 255,
        special: 0,
        tag: 0,
        soundtraversed: 0,
        soundtarget: None,
        blockbox: [0; 4],
        soundorg: DegenMobj { x: Fixed(0), y: Fixed(0), z: Fixed(0) },
        validcount: 0,
        thinglist: None,
        specialdata: None,
        linecount: 0,
        lines: Vec::new(),
    }
}

fn make_test_ceiling_t(sector: usize) -> CeilingT {
    CeilingT {
        thinker: Thinker::new(ActionFn::MoveCeiling),
        ceiling_type: CeilingType::CrushAndRaise,
        sector,
        bottomheight: Fixed(0),
        topheight: Fixed(128 * FRACUNIT),
        speed: Fixed(CEILSPEED),
        crush: true,
        direction: -1,
        tag: 0,
        olddirection: 0,
    }
}

#[test]
fn test_maxceilings_value() {
    assert_eq!(MAXCEILINGS, 30);
}

#[test]
fn test_ceilspeed_value() {
    assert_eq!(Fixed(CEILSPEED), Fixed(FRACUNIT));
    assert_eq!(CEILSPEED, 65536);
}

#[test]
fn test_active_ceilings_new() {
    let ac = ActiveCeilings::new();
    for slot in ac.slots.iter() {
        assert!(slot.is_none());
    }
}

#[test]
fn test_active_ceilings_add_remove() {
    let mut ac = ActiveCeilings::new();
    assert_eq!(ac.add(42), Some(0));
    assert_eq!(ac.add(99), Some(1));
    ac.remove(42);
    assert!(ac.slots[0].is_none());
    assert_eq!(ac.slots[1], Some(99));
}

#[test]
fn test_active_ceilings_add_fills_first_free_slot() {
    let mut ac = ActiveCeilings::new();
    ac.add(10);
    ac.add(20);
    ac.add(30);
    ac.remove(20);
    assert_eq!(ac.add(40), Some(1));
}

#[test]
fn test_active_ceilings_full() {
    let mut ac = ActiveCeilings::new();
    for i in 0..MAXCEILINGS {
        assert!(ac.add(i).is_some());
    }
    assert!(ac.add(999).is_none());
}

#[test]
fn test_active_ceilings_remove_nonexistent() {
    let mut ac = ActiveCeilings::new();
    ac.add(10);
    ac.remove(999);
    assert_eq!(ac.slots[0], Some(10));
}

#[test]
fn test_active_ceilings_default() {
    let ac = ActiveCeilings::default();
    for slot in ac.slots.iter() {
        assert!(slot.is_none());
    }
}

#[test]
fn test_p_add_active_ceiling_success() {
    let mut ac = ActiveCeilings::new();
    p_add_active_ceiling(&mut ac, 5);
    assert_eq!(ac.slots[0], Some(5));
}

#[test]
fn test_p_add_active_ceiling_full_no_panic() {
    let mut ac = ActiveCeilings::new();
    for i in 0..MAXCEILINGS {
        p_add_active_ceiling(&mut ac, i);
    }
    p_add_active_ceiling(&mut ac, 999);
}

#[test]
fn test_p_remove_active_ceiling() {
    let mut ac = ActiveCeilings::new();
    let mut sectors = vec![make_test_sector()];
    let mut ceilings = vec![make_test_ceiling_t(0)];

    sectors[0].specialdata = Some(42);
    ac.add(0);

    p_remove_active_ceiling(0, &mut ceilings, &mut sectors, &mut ac);

    assert!(sectors[0].specialdata.is_none());
    assert_eq!(ceilings[0].thinker.function, ActionFn::PendingRemoval);
    assert!(ac.slots[0].is_none());
}

#[test]
fn test_p_activate_in_stasis_ceiling_matching() {
    let mut ac = ActiveCeilings::new();
    let mut ceilings = vec![make_test_ceiling_t(0), make_test_ceiling_t(0)];

    ceilings[0].tag = 5;
    ceilings[0].direction = 0;
    ceilings[0].olddirection = -1;
    ceilings[0].thinker.function = ActionFn::NoAction;

    ceilings[1].tag = 5;
    ceilings[1].direction = 1;
    ceilings[1].thinker.function = ActionFn::MoveCeiling;

    ac.add(0);
    ac.add(1);

    p_activate_in_stasis_ceiling(5, &mut ceilings, &ac);

    assert_eq!(ceilings[0].direction, -1);
    assert_eq!(ceilings[0].thinker.function, ActionFn::MoveCeiling);
    assert_eq!(ceilings[1].direction, 1);
}

#[test]
fn test_p_activate_in_stasis_ceiling_wrong_tag() {
    let mut ac = ActiveCeilings::new();
    let mut ceilings = vec![make_test_ceiling_t(0)];

    ceilings[0].tag = 3;
    ceilings[0].direction = 0;
    ceilings[0].olddirection = -1;
    ceilings[0].thinker.function = ActionFn::NoAction;
    ac.add(0);

    p_activate_in_stasis_ceiling(5, &mut ceilings, &ac);

    assert_eq!(ceilings[0].direction, 0);
    assert_eq!(ceilings[0].thinker.function, ActionFn::NoAction);
}

#[test]
fn test_ev_ceiling_crush_stop_matching() {
    let mut ac = ActiveCeilings::new();
    let mut ceilings = vec![make_test_ceiling_t(0)];

    ceilings[0].tag = 7;
    ceilings[0].direction = -1;
    ceilings[0].thinker.function = ActionFn::MoveCeiling;
    ac.add(0);

    let result = ev_ceiling_crush_stop(7, &mut ceilings, &ac);

    assert!(result);
    assert_eq!(ceilings[0].olddirection, -1);
    assert_eq!(ceilings[0].direction, 0);
    assert_eq!(ceilings[0].thinker.function, ActionFn::NoAction);
}

#[test]
fn test_ev_ceiling_crush_stop_already_stopped() {
    let mut ac = ActiveCeilings::new();
    let mut ceilings = vec![make_test_ceiling_t(0)];

    ceilings[0].tag = 7;
    ceilings[0].direction = 0;
    ac.add(0);

    let result = ev_ceiling_crush_stop(7, &mut ceilings, &ac);

    assert!(!result);
    assert_eq!(ceilings[0].direction, 0);
}

#[test]
fn test_ev_ceiling_crush_stop_wrong_tag() {
    let mut ac = ActiveCeilings::new();
    let mut ceilings = vec![make_test_ceiling_t(0)];

    ceilings[0].tag = 7;
    ceilings[0].direction = -1;
    ac.add(0);

    let result = ev_ceiling_crush_stop(999, &mut ceilings, &ac);

    assert!(!result);
    assert_eq!(ceilings[0].direction, -1);
}

#[test]
fn test_t_move_ceiling_stasis_does_nothing() {
    let mut ceiling = make_test_ceiling_t(0);
    ceiling.direction = 0;
    let mut sector = make_test_sector();

    let remove = t_move_ceiling(&mut ceiling, &mut sector, 0, &mut |_| false, &mut |_| {});

    assert!(!remove);
    assert_eq!(ceiling.direction, 0);
}

#[test]
fn test_t_move_ceiling_raise_to_highest_removes_on_pastdest() {
    let mut ceiling = make_test_ceiling_t(0);
    ceiling.ceiling_type = CeilingType::RaiseToHighest;
    ceiling.direction = 1;
    ceiling.topheight = Fixed(100 * FRACUNIT);
    let mut sector = make_test_sector();
    sector.ceilingheight = Fixed(100 * FRACUNIT);

    let remove = t_move_ceiling(&mut ceiling, &mut sector, 0, &mut |_| false, &mut |_| {});

    assert!(remove);
}

#[test]
fn test_t_move_ceiling_crush_and_raise_reverses_on_up_pastdest() {
    let mut ceiling = make_test_ceiling_t(0);
    ceiling.ceiling_type = CeilingType::CrushAndRaise;
    ceiling.direction = 1;
    ceiling.topheight = Fixed(100 * FRACUNIT);
    let mut sector = make_test_sector();
    sector.ceilingheight = Fixed(100 * FRACUNIT);

    let remove = t_move_ceiling(&mut ceiling, &mut sector, 0, &mut |_| false, &mut |_| {});

    assert!(!remove);
    assert_eq!(ceiling.direction, -1);
}

#[test]
fn test_t_move_ceiling_silent_crush_plays_pstop_on_up_pastdest() {
    let mut ceiling = make_test_ceiling_t(0);
    ceiling.ceiling_type = CeilingType::SilentCrushAndRaise;
    ceiling.direction = 1;
    ceiling.topheight = Fixed(100 * FRACUNIT);
    let mut sector = make_test_sector();
    sector.ceilingheight = Fixed(100 * FRACUNIT);

    let mut sounds_played = Vec::new();
    let remove = t_move_ceiling(&mut ceiling, &mut sector, 0, &mut |_| false, &mut |sfx| {
        sounds_played.push(sfx)
    });

    assert!(!remove);
    assert_eq!(ceiling.direction, -1);
    assert!(sounds_played.contains(&SfxEnum::sfx_pstop));
}

#[test]
fn test_t_move_ceiling_lower_to_floor_removes_on_pastdest() {
    let mut ceiling = make_test_ceiling_t(0);
    ceiling.ceiling_type = CeilingType::LowerToFloor;
    ceiling.direction = -1;
    ceiling.bottomheight = Fixed(0);
    let mut sector = make_test_sector();
    sector.ceilingheight = Fixed(0);

    let remove = t_move_ceiling(&mut ceiling, &mut sector, 0, &mut |_| false, &mut |_| {});

    assert!(remove);
}

#[test]
fn test_t_move_ceiling_sound_every_8_tics() {
    let mut ceiling = make_test_ceiling_t(0);
    ceiling.ceiling_type = CeilingType::CrushAndRaise;
    ceiling.direction = -1;
    ceiling.bottomheight = Fixed(-1000 * FRACUNIT);
    ceiling.speed = Fixed(CEILSPEED);
    ceiling.crush = true;
    let mut sector = make_test_sector();
    sector.ceilingheight = Fixed(100 * FRACUNIT);

    let mut sound_count_0 = 0;
    t_move_ceiling(&mut ceiling, &mut sector, 0, &mut |_| false, &mut |_| {
        sound_count_0 += 1
    });
    assert_eq!(sound_count_0, 1);

    let mut sound_count_3 = 0;
    t_move_ceiling(&mut ceiling, &mut sector, 3, &mut |_| false, &mut |_| {
        sound_count_3 += 1
    });
    assert_eq!(sound_count_3, 0);

    let mut sound_count_8 = 0;
    t_move_ceiling(&mut ceiling, &mut sector, 8, &mut |_| false, &mut |_| {
        sound_count_8 += 1
    });
    assert_eq!(sound_count_8, 1);
}

#[test]
fn test_t_move_ceiling_silent_crush_no_movement_sound() {
    let mut ceiling = make_test_ceiling_t(0);
    ceiling.ceiling_type = CeilingType::SilentCrushAndRaise;
    ceiling.direction = -1;
    ceiling.bottomheight = Fixed(-1000 * FRACUNIT);
    ceiling.speed = Fixed(CEILSPEED);
    ceiling.crush = true;
    let mut sector = make_test_sector();
    sector.ceilingheight = Fixed(100 * FRACUNIT);

    let mut sounds = Vec::new();
    t_move_ceiling(&mut ceiling, &mut sector, 0, &mut |_| false, &mut |sfx| {
        sounds.push(sfx)
    });

    assert!(!sounds.contains(&SfxEnum::sfx_stnmov));
}

#[test]
fn sounds_play_once_each_in_order() {
    let sounds = vec![SfxEnum::sfx_stnmov, SfxEnum::sfx_pstop, SfxEnum::sfx_stnmov];
    let mut heard: Vec<SfxEnum> = Vec::new();
    play_sounds(&sounds, &mut |s: SfxEnum| heard.push(s));
    assert_eq!(heard, sounds);
    let mut count = 0;
    play_sounds(&Vec::new(), &mut |_s: SfxEnum| count += 1);
    assert_eq!(count, 0);
}
