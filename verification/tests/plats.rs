use lib::fixed::{Fixed, FRACUNIT};
use lib::plats::{
    ev_stop_plat, p_activate_in_stasis_raw, p_add_active_plat, p_remove_active_plat, t_plat_raise,
    ActivePlats,
};
use lib::spec::{PlatStatus, PlatT, PlatType, MAXPLATS, PLATSPEED};
use lib::types::{ActionFn, DegenMobj, Sector, SfxEnum};

// ---- ActivePlats tests ----

#[test]
fn test_active_plats_add_remove() {
    let mut ap = ActivePlats::new();
    assert_eq!(ap.add(10), Some(0));
    assert_eq!(ap.add(20), Some(1));
    ap.remove(10);
    assert!(ap.slots[0].is_none());
    assert_eq!(ap.slots[1], Some(20));
}

#[test]
fn test_active_plats_full() {
    let mut ap = ActivePlats::new();
    for i in 0..MAXPLATS {
        assert!(ap.add(i).is_some());
    }
    assert!(ap.add(999).is_none());
}

#[test]
fn test_active_plats_default() {
    let ap = ActivePlats::default();
    assert!(ap.slots.iter().all(|s| s.is_none()));
}

#[test]
fn test_active_plats_add_to_freed_slot() {
    let mut ap = ActivePlats::new();
    ap.add(10);
    ap.add(20);
    ap.remove(10);
    // Should reuse slot 0
    assert_eq!(ap.add(30), Some(0));
    assert_eq!(ap.slots[0], Some(30));
    assert_eq!(ap.slots[1], Some(20));
}

// ---- PlatStatus re-export test ----

#[test]
fn test_plat_status_variants() {
    let _ = PlatStatus::Up;
    let _ = PlatStatus::Down;
    let _ = PlatStatus::Waiting;
    let _ = PlatStatus::InStasis;
}

// ---- T_PlatRaise tests ----

fn make_test_plat(status: PlatStatus, plat_type: PlatType) -> PlatT {
    let mut plat = PlatT::new(0);
    plat.status = status;
    plat.plat_type = plat_type;
    plat.speed = Fixed::new(PLATSPEED);
    plat.low = Fixed::new(0);
    plat.high = Fixed::new(128 * FRACUNIT);
    plat.wait = 105; // PLATWAIT * 35
    plat.count = 10;
    plat.crush = false;
    plat
}

fn make_test_sector(floorheight: i32) -> Sector {
    Sector {
        floorheight: Fixed::new(floorheight),
        ceilingheight: Fixed::new(256 * FRACUNIT),
        floorpic: 0,
        ceilingpic: 0,
        lightlevel: 128,
        special: 0,
        tag: 1,
        soundtraversed: 0,
        soundtarget: None,
        validcount: 0,
        specialdata: Some(0),
        soundorg: DegenMobj::default(),
        linecount: 0,
        lines: Vec::new(),
        blockbox: [0; 4],
        thinglist: None,
    }
}

#[test]
fn test_t_plat_raise_waiting_countdown() {
    let mut plat = make_test_plat(PlatStatus::Waiting, PlatType::PerpetualRaise);
    plat.count = 5;
    let mut sector = make_test_sector(0);
    let mut sounds: Vec<SfxEnum> = Vec::new();

    let should_remove = t_plat_raise(&mut plat, &mut sector, 100, &mut |_| false, &mut |sfx| {
        sounds.push(sfx)
    });

    assert!(!should_remove);
    assert_eq!(plat.count, 4);
    assert_eq!(plat.status, PlatStatus::Waiting);
    assert!(sounds.is_empty());
}

#[test]
fn test_t_plat_raise_waiting_expired_at_low() {
    let mut plat = make_test_plat(PlatStatus::Waiting, PlatType::PerpetualRaise);
    plat.count = 1; // Will decrement to 0
    plat.low = Fixed::new(0);
    let mut sector = make_test_sector(0); // floorheight == low
    let mut sounds: Vec<SfxEnum> = Vec::new();

    let should_remove = t_plat_raise(&mut plat, &mut sector, 100, &mut |_| false, &mut |sfx| {
        sounds.push(sfx)
    });

    assert!(!should_remove);
    assert_eq!(plat.count, 0);
    assert_eq!(plat.status, PlatStatus::Up);
    assert_eq!(sounds, vec![SfxEnum::sfx_pstart]);
}

#[test]
fn test_t_plat_raise_waiting_expired_at_high() {
    let mut plat = make_test_plat(PlatStatus::Waiting, PlatType::PerpetualRaise);
    plat.count = 1;
    plat.low = Fixed::new(0);
    let mut sector = make_test_sector(128 * FRACUNIT); // floorheight != low
    let mut sounds: Vec<SfxEnum> = Vec::new();

    let should_remove = t_plat_raise(&mut plat, &mut sector, 100, &mut |_| false, &mut |sfx| {
        sounds.push(sfx)
    });

    assert!(!should_remove);
    assert_eq!(plat.status, PlatStatus::Down);
    assert_eq!(sounds, vec![SfxEnum::sfx_pstart]);
}

#[test]
fn test_t_plat_raise_in_stasis_noop() {
    let mut plat = make_test_plat(PlatStatus::InStasis, PlatType::PerpetualRaise);
    let mut sector = make_test_sector(0);
    let mut sounds: Vec<SfxEnum> = Vec::new();

    let should_remove = t_plat_raise(&mut plat, &mut sector, 100, &mut |_| false, &mut |sfx| {
        sounds.push(sfx)
    });

    assert!(!should_remove);
    assert!(sounds.is_empty());
}

// ---- EV_StopPlat tests ----

#[test]
fn test_ev_stop_plat_sets_stasis() {
    let mut plats = vec![make_test_plat(PlatStatus::Up, PlatType::PerpetualRaise)];
    plats[0].tag = 5;
    let mut active = ActivePlats::new();
    active.add(0);

    ev_stop_plat(5, &mut plats, &active);

    assert_eq!(plats[0].status, PlatStatus::InStasis);
    assert_eq!(plats[0].oldstatus, PlatStatus::Up);
    assert_eq!(
        plats[0].thinker.function,
        ActionFn::NoAction
    );
}

#[test]
fn test_ev_stop_plat_skips_already_stasis() {
    let mut plats = vec![make_test_plat(
        PlatStatus::InStasis,
        PlatType::PerpetualRaise,
    )];
    plats[0].tag = 5;
    let old_status = plats[0].oldstatus;
    let mut active = ActivePlats::new();
    active.add(0);

    ev_stop_plat(5, &mut plats, &active);

    // Should remain unchanged since already InStasis.
    assert_eq!(plats[0].status, PlatStatus::InStasis);
    assert_eq!(plats[0].oldstatus, old_status);
}

#[test]
fn test_ev_stop_plat_skips_wrong_tag() {
    let mut plats = vec![make_test_plat(PlatStatus::Up, PlatType::PerpetualRaise)];
    plats[0].tag = 5;
    let mut active = ActivePlats::new();
    active.add(0);

    ev_stop_plat(999, &mut plats, &active);

    // Should remain unchanged since tag doesn't match.
    assert_eq!(plats[0].status, PlatStatus::Up);
}

// ---- P_ActivateInStasis tests ----

#[test]
fn test_p_activate_in_stasis_raw_reactivates() {
    let mut plats = vec![make_test_plat(
        PlatStatus::InStasis,
        PlatType::PerpetualRaise,
    )];
    plats[0].tag = 5;
    plats[0].oldstatus = PlatStatus::Down;
    let active = ActivePlats {
        slots: {
            let mut s = [None; MAXPLATS];
            s[0] = Some(0);
            s
        },
    };

    p_activate_in_stasis_raw(5, &mut plats, &active);

    assert_eq!(plats[0].status, PlatStatus::Down);
    assert_eq!(
        plats[0].thinker.function,
        ActionFn::PlatRaise
    );
}

#[test]
fn test_p_activate_in_stasis_raw_skips_non_stasis() {
    let mut plats = vec![make_test_plat(PlatStatus::Up, PlatType::PerpetualRaise)];
    plats[0].tag = 5;
    let active = ActivePlats {
        slots: {
            let mut s = [None; MAXPLATS];
            s[0] = Some(0);
            s
        },
    };

    p_activate_in_stasis_raw(5, &mut plats, &active);

    // Should remain unchanged since not in stasis.
    assert_eq!(plats[0].status, PlatStatus::Up);
}

#[test]
fn test_p_activate_in_stasis_raw_skips_wrong_tag() {
    let mut plats = vec![make_test_plat(
        PlatStatus::InStasis,
        PlatType::PerpetualRaise,
    )];
    plats[0].tag = 5;
    plats[0].oldstatus = PlatStatus::Down;
    let active = ActivePlats {
        slots: {
            let mut s = [None; MAXPLATS];
            s[0] = Some(0);
            s
        },
    };

    p_activate_in_stasis_raw(999, &mut plats, &active);

    // Should remain unchanged since tag doesn't match.
    assert_eq!(plats[0].status, PlatStatus::InStasis);
}

// ---- P_AddActivePlat tests ----

#[test]
fn test_p_add_active_plat_success() {
    let mut active = ActivePlats::new();
    p_add_active_plat(&mut active, 42);
    assert_eq!(active.slots[0], Some(42));
}

#[test]
fn test_p_remove_active_plat() {
    let mut plats = vec![make_test_plat(PlatStatus::Up, PlatType::DownWaitUpStay)];
    plats[0].sector = 0;
    let mut sectors = vec![make_test_sector(0)];
    sectors[0].specialdata = Some(0);
    let mut active = ActivePlats::new();
    active.add(0);

    p_remove_active_plat(0, &mut plats, &mut sectors, &mut active);

    assert!(sectors[0].specialdata.is_none());
    assert_eq!(
        plats[0].thinker.function,
        ActionFn::PendingRemoval
    );
    assert!(active.slots[0].is_none());
}
