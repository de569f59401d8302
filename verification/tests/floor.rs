use lib::fixed::{Fixed, FRACUNIT};
use lib::floor::t_move_plane;
use lib::spec::ResultE;
use lib::types::Sector;

#[test]
fn test_t_move_plane_floor_lower_past_dest() {
    let mut sector = Sector {
        floorheight: Fixed::new(10 * FRACUNIT),
        ..Sector::default()
    };
    let speed = Fixed::new(3 * FRACUNIT);
    let dest = Fixed::new(8 * FRACUNIT);
    let mut called = false;
    let res = t_move_plane(&mut sector, speed, dest, false, 0, -1, &mut |_crush| {
        called = true;
        false
    });
    assert_eq!(res, ResultE::PastDest);
    assert_eq!(sector.floorheight, dest);
}

#[test]
fn test_t_move_plane_floor_lower_ok() {
    let mut sector = Sector {
        floorheight: Fixed::new(100 * FRACUNIT),
        ..Sector::default()
    };
    let speed = Fixed::new(FRACUNIT);
    let dest = Fixed::new(10 * FRACUNIT);
    let res = t_move_plane(&mut sector, speed, dest, false, 0, -1, &mut |_crush| false);
    assert_eq!(res, ResultE::MoveOk);
    assert_eq!(sector.floorheight, Fixed::new(99 * FRACUNIT));
}

#[test]
fn test_t_move_plane_ceiling_raise_past_dest() {
    let mut sector = Sector {
        ceilingheight: Fixed::new(126 * FRACUNIT),
        ..Sector::default()
    };
    let speed = Fixed::new(3 * FRACUNIT);
    let dest = Fixed::new(128 * FRACUNIT);
    let res = t_move_plane(&mut sector, speed, dest, false, 1, 1, &mut |_crush| false);
    assert_eq!(res, ResultE::PastDest);
    assert_eq!(sector.ceilingheight, dest);
}

#[test]
fn test_t_move_plane_ceiling_lower_crush() {
    let mut sector = Sector {
        ceilingheight: Fixed::new(100 * FRACUNIT),
        ..Sector::default()
    };
    let speed = Fixed::new(FRACUNIT);
    let dest = Fixed::new(10 * FRACUNIT);
    let res = t_move_plane(&mut sector, speed, dest, true, 1, -1, &mut |_crush| true);
    assert_eq!(res, ResultE::Crushed);
}

#[test]
fn test_t_move_plane_floor_raise_crush() {
    let mut sector = Sector {
        floorheight: Fixed::new(10 * FRACUNIT),
        ..Sector::default()
    };
    let speed = Fixed::new(FRACUNIT);
    let dest = Fixed::new(100 * FRACUNIT);
    let res = t_move_plane(&mut sector, speed, dest, true, 0, 1, &mut |_crush| true);
    assert_eq!(res, ResultE::Crushed);
}

#[test]
fn test_t_move_plane_floor_raise_nocrush_reverts() {
    let mut sector = Sector {
        floorheight: Fixed::new(10 * FRACUNIT),
        ..Sector::default()
    };
    let speed = Fixed::new(FRACUNIT);
    let dest = Fixed::new(100 * FRACUNIT);
    let res = t_move_plane(&mut sector, speed, dest, false, 0, 1, &mut |_crush| true);
    assert_eq!(res, ResultE::Crushed);
    assert_eq!(sector.floorheight, Fixed::new(10 * FRACUNIT));
}

#[test]
fn test_t_move_plane_floor_raise_crush_keeps_new_height() {
    let mut sector = Sector {
        floorheight: Fixed::new(10 * FRACUNIT),
        ..Sector::default()
    };
    let mut calls = 0;
    let res = t_move_plane(&mut sector, Fixed::new(FRACUNIT), Fixed::new(100 * FRACUNIT), true, 0, 1, &mut |_c| {
        calls += 1;
        true
    });
    assert_eq!(res, ResultE::Crushed);
    assert_eq!(sector.floorheight, Fixed::new(11 * FRACUNIT));
    assert_eq!(calls, 1);
}

#[test]
fn test_t_move_plane_ceiling_raise_unchecked() {
    let mut sector = Sector {
        ceilingheight: Fixed::new(10 * FRACUNIT),
        ..Sector::default()
    };
    let mut calls = 0;
    let res = t_move_plane(&mut sector, Fixed::new(2 * FRACUNIT), Fixed::new(100 * FRACUNIT), false, 1, 1, &mut |_c| {
        calls += 1;
        true
    });
    assert_eq!(res, ResultE::MoveOk);
    assert_eq!(sector.ceilingheight, Fixed::new(12 * FRACUNIT));
    assert_eq!(calls, 0);
}
