use lib::fixed::{Fixed, FRACUNIT};
use lib::inter::{Player, PlayerState, PspDef, ThingInfo, WeaponType};
use lib::level::MoveLevel;
use lib::mobj::{p_explode_missile, p_xy_movement, p_z_movement, MobjEvent, FRICTION};
use lib::types::{MapObject, SfxEnum, MF_MISSILE, MF_NOGRAVITY};

const F: i32 = FRACUNIT;

fn player() -> Player {
    Player {
        health: 100,
        armorpoints: 0,
        armortype: 0,
        powers: [0; 6],
        cards: [false; 6],
        backpack: false,
        frags: [0; 4],
        readyweapon: WeaponType::Pistol,
        pendingweapon: WeaponType::NoChange,
        weaponowned: [true, true, false, false, false, false, false, false, false],
        ammo: [50, 0, 0, 0],
        maxammo: [200, 50, 300, 50],
        cheats: 0,
        message: None,
        bonuscount: 0,
        damagecount: 0,
        killcount: 0,
        itemcount: 0,
        playerstate: PlayerState::Live,
        attacker: None,
        viewheight: Fixed(41 * F),
        deltaviewheight: Fixed(0),
        forwardmove: 0,
        sidemove: 0,
        mobj: None,
        psprites: [PspDef { state: None, tics: 0, sx: Fixed(0), sy: Fixed(0) }; 2],
        refire: 0,
        attackdown: 0,
        buttons: 0,
        extralight: 0,
        fixedcolormap: 0,
        bob: Fixed(0),
    }
}

fn info() -> ThingInfo {
    ThingInfo {
        spawnstate: 10,
        seestate: 11,
        spawnhealth: 20,
        painstate: 12,
        painchance: 0,
        deathstate: 13,
        xdeathstate: 14,
        mass: 100,
    }
}

fn level(m: MapObject) -> MoveLevel {
    MoveLevel::new(vec![m], vec![player()], vec![info(); 4])
}

fn room() -> MapObject {
    MapObject { floorz: Fixed(0), ceilingz: Fixed(128 * F), height: Fixed(56 * F), ..MapObject::default() }
}

#[test]
fn gravity_starts_a_fall_at_twice_its_pull() {
    let mut lv = level(MapObject { z: Fixed(50 * F), ..room() });
    p_z_movement(0, &mut lv);
    assert_eq!(lv.mobjs[0].z, Fixed(50 * F));
    assert_eq!(lv.mobjs[0].momz, Fixed(-2 * F));
    p_z_movement(0, &mut lv);
    assert_eq!(lv.mobjs[0].z, Fixed(48 * F));
    assert_eq!(lv.mobjs[0].momz, Fixed(-3 * F));
}

#[test]
fn hard_landing_says_oof() {
    let mut lv = level(MapObject { z: Fixed(10 * F), momz: Fixed(-20 * F), player: Some(0), ..room() });
    p_z_movement(0, &mut lv);
    assert_eq!(lv.mobjs[0].z, Fixed(0));
    assert_eq!(lv.mobjs[0].momz, Fixed(0));
    assert_eq!(lv.players[0].deltaviewheight, Fixed(-20 * F >> 3));
    assert_eq!(lv.log, vec![MobjEvent::Sound { origin: Some(0), sfx: SfxEnum::sfx_oof }]);
}

#[test]
fn ceiling_stops_a_rising_thing() {
    let mut lv = level(MapObject { z: Fixed(70 * F), momz: Fixed(5 * F), flags: MF_NOGRAVITY, ..room() });
    p_z_movement(0, &mut lv);
    assert_eq!(lv.mobjs[0].z, Fixed(72 * F));
    assert_eq!(lv.mobjs[0].momz, Fixed(0));
}

#[test]
fn missile_explodes_on_the_floor() {
    let mut lv = level(MapObject { z: Fixed(4 * F), momz: Fixed(-8 * F), flags: MF_MISSILE | MF_NOGRAVITY, tics: 3, ..room() });
    p_z_movement(0, &mut lv);
    assert_eq!(lv.log, vec![MobjEvent::SetState { mobj: 0, state: 13 }]);
    assert_eq!(lv.mobjs[0].flags & MF_MISSILE, 0);
    assert_eq!(lv.mobjs[0].momz, Fixed(0));
    assert!(lv.mobjs[0].tics >= 1);
}

#[test]
fn explode_missile_directly() {
    let mut lv = level(MapObject { momx: Fixed(F), flags: MF_MISSILE, tics: 0, ..room() });
    p_explode_missile(0, &mut lv);
    assert_eq!(lv.mobjs[0].momx, Fixed(0));
    assert_eq!(lv.mobjs[0].tics, 1);
    assert_eq!(lv.log, vec![MobjEvent::SetState { mobj: 0, state: 13 }]);
}

#[test]
fn friction_slows_a_sliding_thing() {
    let mut lv = level(MapObject { momx: Fixed(2 * F), ..room() });
    p_xy_movement(0, &mut lv);
    assert_eq!(lv.mobjs[0].x, Fixed(2 * F));
    assert_eq!(lv.mobjs[0].momx, Fixed(((2 * F as i64 * FRICTION as i64) >> 16) as i32));
    assert_eq!(lv.log, vec![MobjEvent::TryMove { mobj: 0, x: Fixed(2 * F), y: Fixed(0), moved: true }]);
}

#[test]
fn long_moves_go_in_halves() {
    let mut lv = level(MapObject { momx: Fixed(20 * F), momy: Fixed(-3 * F), ..room() });
    p_xy_movement(0, &mut lv);
    assert_eq!(
        lv.log,
        vec![
            MobjEvent::TryMove { mobj: 0, x: Fixed(10 * F), y: Fixed(-3 * F / 2), moved: true },
            MobjEvent::TryMove { mobj: 0, x: Fixed(20 * F), y: Fixed(-3 * F / 2 * 2), moved: true },
        ]
    );
}

#[test]
fn speed_is_limited() {
    let mut lv = level(MapObject { momx: Fixed(100 * F), ..room() });
    p_xy_movement(0, &mut lv);
    assert_eq!(lv.mobjs[0].x, Fixed(30 * F));
}

#[test]
fn slow_things_stop() {
    let mut lv = level(MapObject { momx: Fixed(0x800), ..room() });
    p_xy_movement(0, &mut lv);
    assert_eq!(lv.mobjs[0].momx, Fixed(0));
    assert_eq!(lv.mobjs[0].x, Fixed(0x800));
}

#[test]
fn blocked_missile_under_sky_vanishes() {
    let mut lv = level(MapObject { momx: Fixed(F), flags: MF_MISSILE, subsector: Some(0), ..room() });
    lv.blocked = true;
    lv.ceilingpic = 1;
    p_xy_movement(0, &mut lv);
    assert_eq!(lv.log, vec![MobjEvent::TryMove { mobj: 0, x: Fixed(F), y: Fixed(0), moved: false }, MobjEvent::RemoveMobj { mobj: 0 }]);
}

#[test]
fn blocked_thing_stops() {
    let mut lv = level(MapObject { momx: Fixed(5 * F), ..room() });
    lv.blocked = true;
    p_xy_movement(0, &mut lv);
    assert_eq!(lv.mobjs[0].x, Fixed(0));
    assert_eq!(lv.mobjs[0].momx, Fixed(0));
}
