use lib::lights::{
    ev_light_turn_on, ev_start_light_strobing, ev_turn_tag_lights_off, p_spawn_fire_flicker,
    p_spawn_glowing_light, p_spawn_light_flash, p_spawn_strobe_flash, t_fire_flicker, t_glow,
    t_light_flash, t_strobe_flash, FASTDARK, GLOWSPEED, SLOWDARK, STROBEBRIGHT,
};
use lib::random::DoomRandom;
use lib::spec::{FireFlickerT, GlowT, LightFlashT, StrobeFlashT};
use lib::tick::ThinkerList;
use lib::types::{ActionFn, LineDef, Sector, ML_TWOSIDED};

// ---- Constant validation ------------------------------------------------

#[test]
fn test_constants() {
    assert_eq!(GLOWSPEED, 8);
    assert_eq!(STROBEBRIGHT, 5);
    assert_eq!(FASTDARK, 15);
    assert_eq!(SLOWDARK, 35);
}

// ---- Helper: create a two-sided line connecting two sectors ---------------

fn make_two_sided_line(tag: i16, front: usize, back: usize) -> LineDef {
    LineDef {
        tag,
        flags: ML_TWOSIDED,
        frontsector: Some(front),
        backsector: Some(back),
        ..LineDef::default()
    }
}

fn make_sector(tag: i16, lightlevel: i16, line_indices: Vec<usize>) -> Sector {
    Sector {
        tag,
        lightlevel,
        linecount: line_indices.len() as i32,
        lines: line_indices,
        ..Sector::default()
    }
}

// ---- T_FireFlicker tests ------------------------------------------------

#[test]
fn test_fire_flicker_countdown() {
    let mut rng = DoomRandom::new();
    let mut sectors = vec![make_sector(0, 200, vec![])];
    let mut flicker = FireFlickerT::new(0);
    flicker.maxlight = 200;
    flicker.minlight = 100;
    flicker.count = 3;

    t_fire_flicker(&mut flicker, &mut sectors, &mut rng);

    // Count decremented from 3 to 2, no light change
    assert_eq!(flicker.count, 2);
    assert_eq!(sectors[0].lightlevel, 200);
}

#[test]
fn test_fire_flicker_triggers_at_zero() {
    let mut rng = DoomRandom::new();
    let mut sectors = vec![make_sector(0, 200, vec![])];
    let mut flicker = FireFlickerT::new(0);
    flicker.maxlight = 200;
    flicker.minlight = 100;
    flicker.count = 1; // Will decrement to 0 → trigger

    t_fire_flicker(&mut flicker, &mut sectors, &mut rng);

    // Count should be reset to 4
    assert_eq!(flicker.count, 4);
    // Light should be between minlight and maxlight
    let light = sectors[0].lightlevel as i32;
    assert!(
        (100..=200).contains(&light),
        "Light {} out of range [100, 200]",
        light
    );
}

#[test]
fn test_fire_flicker_clamps_to_minlight() {
    // Force a specific RNG state where amount would push below minlight.
    // We create a scenario where maxlight - amount < minlight, so
    // the result should be minlight.
    let mut rng = DoomRandom::new();
    let mut sectors = vec![make_sector(0, 180, vec![])];
    let mut flicker = FireFlickerT::new(0);
    flicker.maxlight = 180;
    flicker.minlight = 170;
    flicker.count = 1;

    // Run multiple times to exercise clamping. At least some iterations
    // will produce amount > 10 (maxlight - minlight) which forces clamping.
    for _ in 0..20 {
        flicker.count = 1;
        t_fire_flicker(&mut flicker, &mut sectors, &mut rng);
        let light = sectors[0].lightlevel as i32;
        assert!(
            (170..=180).contains(&light),
            "Light {} out of range [170, 180]",
            light
        );
    }
}

// ---- T_LightFlash tests ------------------------------------------------

#[test]
fn test_light_flash_countdown() {
    let mut rng = DoomRandom::new();
    let mut sectors = vec![make_sector(0, 200, vec![])];
    let mut flash = LightFlashT::new(0);
    flash.maxlight = 200;
    flash.minlight = 100;
    flash.maxtime = 64;
    flash.mintime = 7;
    flash.count = 5;

    t_light_flash(&mut flash, &mut sectors, &mut rng);

    assert_eq!(flash.count, 4);
    assert_eq!(sectors[0].lightlevel, 200);
}

#[test]
fn test_light_flash_toggle_to_min() {
    let mut rng = DoomRandom::new();
    let mut sectors = vec![make_sector(0, 200, vec![])];
    let mut flash = LightFlashT::new(0);
    flash.maxlight = 200;
    flash.minlight = 100;
    flash.maxtime = 64;
    flash.mintime = 7;
    flash.count = 1; // Will trigger

    t_light_flash(&mut flash, &mut sectors, &mut rng);

    // Was at maxlight (200), should switch to minlight
    assert_eq!(sectors[0].lightlevel, 100);
    // Count should be (P_Random() & mintime) + 1, range [1, 8]
    assert!(flash.count >= 1 && flash.count <= 8);
}

#[test]
fn test_light_flash_toggle_to_max() {
    let mut rng = DoomRandom::new();
    let mut sectors = vec![make_sector(0, 100, vec![])];
    let mut flash = LightFlashT::new(0);
    flash.maxlight = 200;
    flash.minlight = 100;
    flash.maxtime = 64;
    flash.mintime = 7;
    flash.count = 1;

    t_light_flash(&mut flash, &mut sectors, &mut rng);

    // Was at minlight (100), should switch to maxlight
    assert_eq!(sectors[0].lightlevel, 200);
    // Count should be (P_Random() & maxtime) + 1, range [1, 65]
    assert!(flash.count >= 1 && flash.count <= 65);
}

// ---- T_StrobeFlash tests -----------------------------------------------

#[test]
fn test_strobe_flash_countdown() {
    let mut sectors = vec![make_sector(0, 200, vec![])];
    let mut strobe = StrobeFlashT::new(0);
    strobe.maxlight = 200;
    strobe.minlight = 50;
    strobe.brighttime = STROBEBRIGHT;
    strobe.darktime = SLOWDARK;
    strobe.count = 3;

    t_strobe_flash(&mut strobe, &mut sectors);

    assert_eq!(strobe.count, 2);
    assert_eq!(sectors[0].lightlevel, 200);
}

#[test]
fn test_strobe_flash_dark_to_bright() {
    let mut sectors = vec![make_sector(0, 50, vec![])];
    let mut strobe = StrobeFlashT::new(0);
    strobe.maxlight = 200;
    strobe.minlight = 50;
    strobe.brighttime = STROBEBRIGHT;
    strobe.darktime = SLOWDARK;
    strobe.count = 1; // Will trigger

    t_strobe_flash(&mut strobe, &mut sectors);

    // Was at minlight, should switch to maxlight
    assert_eq!(sectors[0].lightlevel, 200);
    assert_eq!(strobe.count, STROBEBRIGHT);
}

#[test]
fn test_strobe_flash_bright_to_dark() {
    let mut sectors = vec![make_sector(0, 200, vec![])];
    let mut strobe = StrobeFlashT::new(0);
    strobe.maxlight = 200;
    strobe.minlight = 50;
    strobe.brighttime = STROBEBRIGHT;
    strobe.darktime = SLOWDARK;
    strobe.count = 1;

    t_strobe_flash(&mut strobe, &mut sectors);

    // Was at maxlight (not minlight), should switch to minlight
    assert_eq!(sectors[0].lightlevel, 50);
    assert_eq!(strobe.count, SLOWDARK);
}

// ---- T_Glow tests ------------------------------------------------------

#[test]
fn test_glow_darkening() {
    let mut sectors = vec![make_sector(0, 160, vec![])];
    let mut glow = GlowT::new(0);
    glow.minlight = 50;
    glow.maxlight = 200;
    glow.direction = -1;

    t_glow(&mut glow, &mut sectors);

    // 160 - 8 = 152, which is > minlight (50), so no reverse
    assert_eq!(sectors[0].lightlevel, 152);
    assert_eq!(glow.direction, -1);
}

#[test]
fn test_glow_darkening_reverses_with_undo() {
    // Light at 58, min at 50. After subtract 8 → 50, which is <= minlight.
    // Undo: 50 + 8 = 58. Direction reverses to +1.
    let mut sectors = vec![make_sector(0, 58, vec![])];
    let mut glow = GlowT::new(0);
    glow.minlight = 50;
    glow.maxlight = 200;
    glow.direction = -1;

    t_glow(&mut glow, &mut sectors);

    // Light should be undone to 58 (not set to minlight 50!)
    assert_eq!(sectors[0].lightlevel, 58);
    assert_eq!(glow.direction, 1);
}

#[test]
fn test_glow_darkening_reverses_past_min() {
    // Light at 55, min at 50. After subtract 8 → 47, which is <= minlight.
    // Undo: 47 + 8 = 55. Direction reverses to +1.
    let mut sectors = vec![make_sector(0, 55, vec![])];
    let mut glow = GlowT::new(0);
    glow.minlight = 50;
    glow.maxlight = 200;
    glow.direction = -1;

    t_glow(&mut glow, &mut sectors);

    // Light should be undone to 55 (original value)
    assert_eq!(sectors[0].lightlevel, 55);
    assert_eq!(glow.direction, 1);
}

#[test]
fn test_glow_brightening() {
    let mut sectors = vec![make_sector(0, 100, vec![])];
    let mut glow = GlowT::new(0);
    glow.minlight = 50;
    glow.maxlight = 200;
    glow.direction = 1;

    t_glow(&mut glow, &mut sectors);

    // 100 + 8 = 108, which is < maxlight (200), so no reverse
    assert_eq!(sectors[0].lightlevel, 108);
    assert_eq!(glow.direction, 1);
}

#[test]
fn test_glow_brightening_reverses_with_undo() {
    // Light at 192, max at 200. After add 8 → 200, which is >= maxlight.
    // Undo: 200 - 8 = 192. Direction reverses to -1.
    let mut sectors = vec![make_sector(0, 192, vec![])];
    let mut glow = GlowT::new(0);
    glow.minlight = 50;
    glow.maxlight = 200;
    glow.direction = 1;

    t_glow(&mut glow, &mut sectors);

    // Light should be undone to 192 (not set to maxlight 200!)
    assert_eq!(sectors[0].lightlevel, 192);
    assert_eq!(glow.direction, -1);
}

#[test]
fn test_glow_brightening_reverses_past_max() {
    // Light at 196, max at 200. After add 8 → 204, which is >= maxlight.
    // Undo: 204 - 8 = 196. Direction reverses to -1.
    let mut sectors = vec![make_sector(0, 196, vec![])];
    let mut glow = GlowT::new(0);
    glow.minlight = 50;
    glow.maxlight = 200;
    glow.direction = 1;

    t_glow(&mut glow, &mut sectors);

    assert_eq!(sectors[0].lightlevel, 196);
    assert_eq!(glow.direction, -1);
}

// ---- EV_TurnTagLightsOff tests -----------------------------------------

#[test]
fn test_ev_turn_tag_lights_off_basic() {
    // Sector 0: tag=1, light=200, neighbor sector 1 with light=50
    let lines = vec![make_two_sided_line(1, 0, 1)];
    let mut sectors = vec![make_sector(1, 200, vec![0]), make_sector(0, 50, vec![])];

    let trigger = LineDef {
        tag: 1,
        ..LineDef::default()
    };

    ev_turn_tag_lights_off(&trigger, &mut sectors, &lines);

    // Sector 0 should be set to the minimum neighbor light (50)
    assert_eq!(sectors[0].lightlevel, 50);
    // Sector 1 is untagged, should be unchanged
    assert_eq!(sectors[1].lightlevel, 50);
}

#[test]
fn test_ev_turn_tag_lights_off_no_neighbor() {
    // Sector 0: tag=1, light=200, no two-sided lines
    let lines = vec![LineDef {
        tag: 1,
        flags: 0, // One-sided
        ..LineDef::default()
    }];
    let mut sectors = vec![make_sector(1, 200, vec![0])];

    let trigger = LineDef {
        tag: 1,
        ..LineDef::default()
    };

    ev_turn_tag_lights_off(&trigger, &mut sectors, &lines);

    // No neighbors found, light stays at own level
    assert_eq!(sectors[0].lightlevel, 200);
}

// ---- EV_LightTurnOn tests ----------------------------------------------

#[test]
fn test_ev_light_turn_on_with_bright_value() {
    let lines = vec![LineDef::default()];
    let mut sectors = vec![make_sector(2, 50, vec![])];

    let trigger = LineDef {
        tag: 2,
        ..LineDef::default()
    };

    ev_light_turn_on(&trigger, 255, &mut sectors, &lines);

    assert_eq!(sectors[0].lightlevel, 255);
}

#[test]
fn test_ev_light_turn_on_find_max_neighbor() {
    // Sector 0: tag=3, light=50, neighbor sector 1 with light=180
    let lines = vec![make_two_sided_line(3, 0, 1)];
    let mut sectors = vec![make_sector(3, 50, vec![0]), make_sector(0, 180, vec![])];

    let trigger = LineDef {
        tag: 3,
        ..LineDef::default()
    };

    // bright=0 → search neighbors for max
    ev_light_turn_on(&trigger, 0, &mut sectors, &lines);

    assert_eq!(sectors[0].lightlevel, 180);
}

#[test]
fn test_ev_light_turn_on_bright_persists_across_sectors() {
    // Two tagged sectors. Sector 0 has neighbor with light 180.
    // Sector 2 has neighbor with light 100.
    // Due to C behavior, bright found for sector 0 (180) persists,
    // so sector 2 also gets 180 instead of 100.
    let lines = vec![
        make_two_sided_line(4, 0, 1), // line 0: sector 0 ↔ sector 1
        make_two_sided_line(4, 2, 3), // line 1: sector 2 ↔ sector 3
    ];
    let mut sectors = vec![
        make_sector(4, 50, vec![0]), // sector 0: tagged, neighbor is sector 1
        make_sector(0, 180, vec![]), // sector 1: neighbor, light=180
        make_sector(4, 50, vec![1]), // sector 2: tagged, neighbor is sector 3
        make_sector(0, 100, vec![]), // sector 3: neighbor, light=100
    ];

    let trigger = LineDef {
        tag: 4,
        ..LineDef::default()
    };

    ev_light_turn_on(&trigger, 0, &mut sectors, &lines);

    // Both tagged sectors should get 180 (the max from sector 0's neighbor)
    // due to the C-faithful bright variable persistence
    assert_eq!(sectors[0].lightlevel, 180);
    assert_eq!(sectors[2].lightlevel, 180);
}

// ---- Spawn function tests -----------------------------------------------

#[test]
fn test_spawn_fire_flicker() {
    let lines = vec![make_two_sided_line(0, 0, 1)];
    let mut sectors = vec![make_sector(0, 200, vec![0]), make_sector(0, 100, vec![])];
    let mut thinkers = ThinkerList::new();
    let mut storage: Vec<FireFlickerT> = Vec::new();

    // Sector 0 has special=1 before spawn
    sectors[0].special = 1;

    p_spawn_fire_flicker(0, &mut sectors, &lines, &mut thinkers, &mut storage);

    // Special should be cleared
    assert_eq!(sectors[0].special, 0);
    // Storage should have one entry
    assert_eq!(storage.len(), 1);
    assert_eq!(storage[0].maxlight, 200);
    // minlight = P_FindMinSurroundingLight(200) + 16 = 100 + 16 = 116
    assert_eq!(storage[0].minlight, 116);
    assert_eq!(storage[0].count, 4);
    assert_eq!(storage[0].thinker.function, ActionFn::FireFlicker);
}

#[test]
fn test_spawn_light_flash() {
    let lines = vec![make_two_sided_line(0, 0, 1)];
    let mut sectors = vec![make_sector(0, 200, vec![0]), make_sector(0, 80, vec![])];
    let mut rng = DoomRandom::new();
    let mut thinkers = ThinkerList::new();
    let mut storage: Vec<LightFlashT> = Vec::new();

    sectors[0].special = 1;

    p_spawn_light_flash(
        0,
        &mut sectors,
        &lines,
        &mut rng,
        &mut thinkers,
        &mut storage,
    );

    assert_eq!(sectors[0].special, 0);
    assert_eq!(storage.len(), 1);
    assert_eq!(storage[0].maxlight, 200);
    assert_eq!(storage[0].minlight, 80);
    assert_eq!(storage[0].maxtime, 64);
    assert_eq!(storage[0].mintime, 7);
    assert!(storage[0].count >= 1 && storage[0].count <= 65);
    assert_eq!(storage[0].thinker.function, ActionFn::LightFlash);
}

#[test]
fn test_spawn_strobe_flash_not_synced() {
    let lines = vec![make_two_sided_line(0, 0, 1)];
    let mut sectors = vec![make_sector(0, 200, vec![0]), make_sector(0, 60, vec![])];
    let mut rng = DoomRandom::new();
    let mut thinkers = ThinkerList::new();
    let mut storage: Vec<StrobeFlashT> = Vec::new();

    sectors[0].special = 1;

    p_spawn_strobe_flash(
        0,
        FASTDARK,
        false,
        &mut sectors,
        &lines,
        &mut rng,
        &mut thinkers,
        &mut storage,
    );

    assert_eq!(sectors[0].special, 0);
    assert_eq!(storage.len(), 1);
    assert_eq!(storage[0].maxlight, 200);
    assert_eq!(storage[0].minlight, 60);
    assert_eq!(storage[0].darktime, FASTDARK);
    assert_eq!(storage[0].brighttime, STROBEBRIGHT);
    // Not synced: count = (P_Random() & 7) + 1, range [1, 8]
    assert!(storage[0].count >= 1 && storage[0].count <= 8);
}

#[test]
fn test_spawn_strobe_flash_synced() {
    let lines = vec![make_two_sided_line(0, 0, 1)];
    let mut sectors = vec![make_sector(0, 200, vec![0]), make_sector(0, 60, vec![])];
    let mut rng = DoomRandom::new();
    let mut thinkers = ThinkerList::new();
    let mut storage: Vec<StrobeFlashT> = Vec::new();

    p_spawn_strobe_flash(
        0,
        SLOWDARK,
        true,
        &mut sectors,
        &lines,
        &mut rng,
        &mut thinkers,
        &mut storage,
    );

    // Synced: count = 1
    assert_eq!(storage[0].count, 1);
}

#[test]
fn test_spawn_strobe_flash_minlight_equals_maxlight() {
    // When no neighbor has lower light, minlight should be forced to 0
    let lines = vec![make_two_sided_line(0, 0, 1)];
    let mut sectors = vec![
        make_sector(0, 200, vec![0]),
        make_sector(0, 200, vec![]), // Same light level
    ];
    let mut rng = DoomRandom::new();
    let mut thinkers = ThinkerList::new();
    let mut storage: Vec<StrobeFlashT> = Vec::new();

    p_spawn_strobe_flash(
        0,
        SLOWDARK,
        true,
        &mut sectors,
        &lines,
        &mut rng,
        &mut thinkers,
        &mut storage,
    );

    // minlight forced to 0 because it equaled maxlight
    assert_eq!(storage[0].minlight, 0);
    assert_eq!(storage[0].maxlight, 200);
}

#[test]
fn test_spawn_glowing_light() {
    let lines = vec![make_two_sided_line(0, 0, 1)];
    let mut sectors = vec![make_sector(0, 200, vec![0]), make_sector(0, 80, vec![])];
    let mut thinkers = ThinkerList::new();
    let mut storage: Vec<GlowT> = Vec::new();

    sectors[0].special = 1;

    p_spawn_glowing_light(0, &mut sectors, &lines, &mut thinkers, &mut storage);

    assert_eq!(sectors[0].special, 0);
    assert_eq!(storage.len(), 1);
    assert_eq!(storage[0].maxlight, 200);
    assert_eq!(storage[0].minlight, 80);
    assert_eq!(storage[0].direction, -1); // Starts darkening
    assert_eq!(storage[0].thinker.function, ActionFn::Glow);
}

// ---- EV_StartLightStrobing tests ----------------------------------------

#[test]
fn test_ev_start_light_strobing() {
    let lines = vec![make_two_sided_line(5, 0, 1)];
    let mut sectors = vec![make_sector(5, 200, vec![0]), make_sector(0, 80, vec![])];
    let mut rng = DoomRandom::new();
    let mut thinkers = ThinkerList::new();
    let mut strobes: Vec<StrobeFlashT> = Vec::new();

    let trigger = LineDef {
        tag: 5,
        ..LineDef::default()
    };

    ev_start_light_strobing(
        &trigger,
        &mut sectors,
        &lines,
        &mut rng,
        &mut thinkers,
        &mut strobes,
    );

    // Should have spawned one strobe for sector 0
    assert_eq!(strobes.len(), 1);
    assert_eq!(strobes[0].darktime, SLOWDARK);
    assert_eq!(sectors[0].special, 0);
}

#[test]
fn test_ev_start_light_strobing_skips_active_special() {
    let lines = vec![make_two_sided_line(5, 0, 1)];
    let mut sectors = vec![make_sector(5, 200, vec![0]), make_sector(0, 80, vec![])];
    // Mark sector 0 as having an active special
    sectors[0].specialdata = Some(42);

    let mut rng = DoomRandom::new();
    let mut thinkers = ThinkerList::new();
    let mut strobes: Vec<StrobeFlashT> = Vec::new();

    let trigger = LineDef {
        tag: 5,
        ..LineDef::default()
    };

    ev_start_light_strobing(
        &trigger,
        &mut sectors,
        &lines,
        &mut rng,
        &mut thinkers,
        &mut strobes,
    );

    // Should NOT have spawned any strobes (sector has active special)
    assert_eq!(strobes.len(), 0);
}
