use lib::fixed::{Fixed, FRACUNIT};
use lib::hitscan::{
    p_aim_line_attack, p_change_sector, p_line_attack, p_radius_attack, p_use_lines, pit_change_sector,
    pit_radius_attack, CrushAction, MapEvent, S_GIBS,
};
use lib::level::HitLevel;
use lib::maputl::{Intercept, InterceptData};
use lib::random::DoomRandom;
use lib::types::{
    Angle, LineDef, MapObject, Sector, SfxEnum, SlopeType, Vertex, MF_DROPPED, MF_NOBLOOD, MF_SHOOTABLE, MF_SOLID,
};

const F: i32 = FRACUNIT;
const MISSILERANGE: i32 = 2048 * F;

fn room(floor: i32, ceiling: i32) -> Sector {
    let mut s = Sector::default();
    s.floorheight = Fixed(floor * F);
    s.ceilingheight = Fixed(ceiling * F);
    s.ceilingpic = 3;
    s
}

fn shooter() -> MapObject {
    MapObject { height: Fixed(56 * F), radius: Fixed(16 * F), flags: MF_SOLID | MF_SHOOTABLE, health: 100, ..MapObject::default() }
}

fn target(flags: u32) -> MapObject {
    MapObject { x: Fixed(1024 * F), height: Fixed(56 * F), radius: Fixed(20 * F), flags, health: 100, type_: 1, ..MapObject::default() }
}

/// A vertical wall at x = 64 from y = -64 to 64, into sector 1 when `back`.
fn wall(back: bool, special: i16) -> LineDef {
    LineDef {
        v1: 0,
        v2: 1,
        dx: Fixed(0),
        dy: Fixed(128 * F),
        flags: if back { 4 } else { 0 },
        special,
        sidenum: [0, if back { 1 } else { -1 }],
        slopetype: SlopeType::Vertical,
        frontsector: Some(0),
        backsector: if back { Some(1) } else { None },
        ..LineDef::default()
    }
}

fn sines() -> Vec<Fixed> {
    let mut v = vec![Fixed(0); 10240];
    v[2048] = Fixed(F);
    v
}

fn line_at(frac: i32, l: usize) -> Intercept {
    Intercept { frac: Fixed(frac), is_a_line: true, d: InterceptData::Line(l) }
}

fn thing_at(frac: i32, t: usize) -> Intercept {
    Intercept { frac: Fixed(frac), is_a_line: false, d: InterceptData::Thing(t) }
}

fn level(mobjs: Vec<MapObject>, lines: Vec<LineDef>, sectors: Vec<Sector>, path: Vec<Intercept>) -> HitLevel {
    HitLevel {
        mobjs,
        lines,
        sectors,
        vertexes: vec![Vertex { x: Fixed(64 * F), y: Fixed(-64 * F) }, Vertex { x: Fixed(64 * F), y: Fixed(64 * F) }],
        skyflatnum: 9,
        leveltime: 0,
        rng: DoomRandom::new(),
        sight: true,
        sine: sines(),
        path,
        cell: vec![],
        orgx: Fixed(0),
        orgy: Fixed(0),
        width: 1,
        height: 1,
        players: vec![Some(0)],
        squashed: vec![],
        log: vec![],
    }
}

#[test]
fn aim_finds_thing_in_window() {
    let lvl = level(vec![shooter(), target(MF_SHOOTABLE)], vec![], vec![room(0, 128)], vec![thing_at(F / 2, 1)]);
    assert_eq!(p_aim_line_attack(0, Angle(0), Fixed(MISSILERANGE), &lvl), (Fixed(-512), Some(1)));
}

#[test]
fn aim_with_nothing_is_level() {
    let lvl = level(vec![shooter()], vec![], vec![room(0, 128)], vec![]);
    assert_eq!(p_aim_line_attack(0, Angle(0), Fixed(MISSILERANGE), &lvl), (Fixed(0), None));
}

#[test]
fn aim_ignores_unshootable_and_self() {
    let lvl = level(vec![shooter(), target(0)], vec![], vec![room(0, 128)], vec![thing_at(F / 4, 0), thing_at(F / 2, 1)]);
    assert_eq!(p_aim_line_attack(0, Angle(0), Fixed(MISSILERANGE), &lvl), (Fixed(0), None));
}

#[test]
fn aim_blocked_by_one_sided_wall() {
    let lvl = level(
        vec![shooter(), target(MF_SHOOTABLE)],
        vec![wall(false, 0)],
        vec![room(0, 128)],
        vec![line_at(F / 4, 0), thing_at(F / 2, 1)],
    );
    assert_eq!(p_aim_line_attack(0, Angle(0), Fixed(MISSILERANGE), &lvl), (Fixed(0), None));
}

#[test]
fn aim_over_ledge_misses_low_thing() {
    let lvl = level(
        vec![shooter(), target(MF_SHOOTABLE)],
        vec![wall(true, 0)],
        vec![room(0, 128), room(48, 128)],
        vec![line_at(F / 4, 0), thing_at(F / 2, 1)],
    );
    assert_eq!(p_aim_line_attack(0, Angle(0), Fixed(MISSILERANGE), &lvl), (Fixed(0), None));
}

#[test]
fn shot_bleeds_and_damages_thing() {
    let mut lvl = level(vec![shooter(), target(MF_SHOOTABLE)], vec![], vec![room(0, 128)], vec![thing_at(F / 2, 1)]);
    let hit = p_line_attack(0, Angle(0), Fixed(MISSILERANGE), Fixed(-512), 10, &mut lvl);
    assert_eq!(hit, Some(1));
    assert_eq!(
        lvl.log,
        vec![
            MapEvent::SpawnBlood { x: Fixed(66453504), y: Fixed(0), z: Fixed(1840128), damage: 10 },
            MapEvent::Damage { target: 1, inflictor: Some(0), source: Some(0), damage: 10 },
        ]
    );
}

#[test]
fn shot_at_bloodless_thing_puffs() {
    let mut lvl =
        level(vec![shooter(), target(MF_SHOOTABLE | MF_NOBLOOD)], vec![], vec![room(0, 128)], vec![thing_at(F / 2, 1)]);
    let hit = p_line_attack(0, Angle(0), Fixed(MISSILERANGE), Fixed(-512), 0, &mut lvl);
    assert_eq!(hit, None);
    assert_eq!(lvl.log, vec![MapEvent::SpawnPuff { x: Fixed(66453504), y: Fixed(0), z: Fixed(1840128), at_melee: false }]);
}

#[test]
fn shot_into_wall_puffs_and_triggers_special() {
    let mut lvl = level(vec![shooter()], vec![wall(false, 46)], vec![room(0, 128)], vec![line_at(F / 2, 0)]);
    let hit = p_line_attack(0, Angle(0), Fixed(MISSILERANGE), Fixed(0), 10, &mut lvl);
    assert_eq!(hit, None);
    assert_eq!(
        lvl.log,
        vec![
            MapEvent::ShootSpecial { thing: 0, line: 0 },
            MapEvent::SpawnPuff { x: Fixed(66846720), y: Fixed(0), z: Fixed(36 * F), at_melee: false },
        ]
    );
}

#[test]
fn shot_into_sky_does_nothing() {
    let mut sky = room(0, 16);
    sky.ceilingpic = 9;
    let mut lvl = level(vec![shooter()], vec![wall(false, 0)], vec![sky], vec![line_at(F / 2, 0)]);
    assert_eq!(p_line_attack(0, Angle(0), Fixed(MISSILERANGE), Fixed(0), 10, &mut lvl), None);
    assert!(lvl.log.is_empty());
}

#[test]
fn use_blocked_wall_grunts() {
    let mut lvl = level(vec![shooter()], vec![wall(false, 0)], vec![room(0, 128)], vec![line_at(F / 2, 0)]);
    p_use_lines(0, &mut lvl);
    assert_eq!(lvl.log, vec![MapEvent::Sound { origin: Some(0), sfx: SfxEnum::sfx_noway }]);
}

#[test]
fn use_special_line_from_its_side() {
    let mut lvl = level(vec![shooter()], vec![wall(false, 1)], vec![room(0, 128)], vec![line_at(F / 2, 0)]);
    p_use_lines(0, &mut lvl);
    assert_eq!(lvl.log, vec![MapEvent::UseSpecial { thing: 0, line: 0, side: 1 }]);
}

#[test]
fn use_without_player_thing_does_nothing() {
    let mut lvl = level(vec![shooter()], vec![wall(false, 1)], vec![room(0, 128)], vec![line_at(F / 2, 0)]);
    lvl.players = vec![None];
    p_use_lines(0, &mut lvl);
    assert!(lvl.log.is_empty());
}

#[test]
fn use_through_open_line_finds_nothing() {
    let mut lvl = level(vec![shooter()], vec![wall(true, 0)], vec![room(0, 128), room(0, 128)], vec![line_at(F / 2, 0)]);
    p_use_lines(0, &mut lvl);
    assert!(lvl.log.is_empty());
}

fn near(x: i32, mtype: usize, flags: u32) -> MapObject {
    MapObject { x: Fixed(x * F), radius: Fixed(20 * F), flags, type_: mtype, health: 100, ..MapObject::default() }
}

#[test]
fn blast_damage_falls_with_distance() {
    assert_eq!(pit_radius_attack(&near(32, 1, MF_SHOOTABLE), Fixed(0), Fixed(0), 128), Some(116));
    assert_eq!(pit_radius_attack(&near(10, 1, MF_SHOOTABLE), Fixed(0), Fixed(0), 128), Some(128));
    assert_eq!(pit_radius_attack(&near(200, 1, MF_SHOOTABLE), Fixed(0), Fixed(0), 128), None);
    assert_eq!(pit_radius_attack(&near(32, 21, MF_SHOOTABLE), Fixed(0), Fixed(0), 128), None);
    assert_eq!(pit_radius_attack(&near(32, 19, MF_SHOOTABLE), Fixed(0), Fixed(0), 128), None);
    assert_eq!(pit_radius_attack(&near(32, 1, 0), Fixed(0), Fixed(0), 128), None);
}

#[test]
fn blast_hurts_visible_things_in_reach() {
    let mut lvl = level(
        vec![shooter(), near(32, 1, MF_SHOOTABLE), near(32, 21, MF_SHOOTABLE), near(300, 1, MF_SHOOTABLE)],
        vec![],
        vec![room(0, 128)],
        vec![],
    );
    lvl.cell = vec![1, 2, 3];
    p_radius_attack(0, 0, 128, &mut lvl);
    assert_eq!(lvl.log, vec![MapEvent::Damage { target: 1, inflictor: Some(0), source: Some(0), damage: 116 }]);
}

#[test]
fn blast_spares_things_out_of_sight() {
    let mut lvl = level(vec![shooter(), near(32, 1, MF_SHOOTABLE)], vec![], vec![room(0, 128)], vec![]);
    lvl.cell = vec![1];
    lvl.sight = false;
    p_radius_attack(0, 0, 128, &mut lvl);
    assert!(lvl.log.is_empty());
}

#[test]
fn crush_choices() {
    let corpse = MapObject { health: 0, ..near(0, 1, MF_SHOOTABLE) };
    assert_eq!(pit_change_sector(&corpse, true), CrushAction::Fits);
    assert_eq!(pit_change_sector(&corpse, false), CrushAction::Gib);
    assert_eq!(pit_change_sector(&near(0, 1, MF_DROPPED), false), CrushAction::Remove);
    assert_eq!(pit_change_sector(&near(0, 1, 0), false), CrushAction::Ignore);
    assert_eq!(pit_change_sector(&near(0, 1, MF_SHOOTABLE), false), CrushAction::Crush);
}

#[test]
fn change_sector_gibs_removes_and_crushes() {
    let corpse = MapObject { health: 0, height: Fixed(16 * F), ..near(0, 1, MF_SOLID) };
    let crushed = MapObject { z: Fixed(8 * F), height: Fixed(56 * F), ..near(0, 1, MF_SHOOTABLE) };
    let mut lvl = level(
        vec![shooter(), corpse, near(0, 1, MF_DROPPED), near(0, 1, 0), crushed],
        vec![],
        vec![room(0, 128)],
        vec![],
    );
    lvl.cell = vec![1, 2, 3, 4];
    lvl.squashed = vec![1, 2, 3, 4];
    assert!(p_change_sector(0, true, &mut lvl));
    assert_eq!(
        lvl.log,
        vec![
            MapEvent::HeightClip { thing: 1, fits: false },
            MapEvent::SetState { mobj: 1, state: S_GIBS },
            MapEvent::HeightClip { thing: 2, fits: false },
            MapEvent::RemoveMobj { mobj: 2 },
            MapEvent::HeightClip { thing: 3, fits: false },
            MapEvent::HeightClip { thing: 4, fits: false },
            MapEvent::Damage { target: 4, inflictor: None, source: None, damage: 10 },
            MapEvent::SpawnMobj { x: Fixed(0), y: Fixed(0), z: Fixed(36 * F), mtype: 38 },
        ]
    );
    assert_eq!(lvl.mobjs[1].flags & MF_SOLID, 0);
    assert_eq!(lvl.mobjs[1].height, Fixed(0));
    assert_eq!(lvl.mobjs[1].radius, Fixed(0));
    assert_eq!(lvl.mobjs[5].momx, Fixed((8 - 109) * 4096));
    assert_eq!(lvl.mobjs[5].momy, Fixed((220 - 222) * 4096));
}

#[test]
fn change_sector_between_crush_tics_only_reports() {
    let mut lvl = level(vec![shooter(), near(0, 1, MF_SHOOTABLE)], vec![], vec![room(0, 128)], vec![]);
    lvl.cell = vec![1];
    lvl.squashed = vec![1];
    lvl.leveltime = 1;
    assert!(p_change_sector(0, true, &mut lvl));
    assert_eq!(lvl.log, vec![MapEvent::HeightClip { thing: 1, fits: false }]);
}

#[test]
fn change_sector_all_fit() {
    let mut lvl = level(vec![shooter(), near(0, 1, MF_SHOOTABLE)], vec![], vec![room(0, 128)], vec![]);
    lvl.cell = vec![1];
    assert!(!p_change_sector(0, true, &mut lvl));
    assert_eq!(lvl.log, vec![MapEvent::HeightClip { thing: 1, fits: true }]);
}
