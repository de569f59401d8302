//! Sector light effects: fire flicker, broken-light flash, strobe and glow,
//! and the line triggers that switch tagged lights.

use vstd::prelude::*;
use crate::random::DoomRandom;
use crate::spec::{
    same_geometry, find_max_light, find_min_light, find_tagged_from, level_wf, lemma_find_tagged_from, max_surrounding_light,
    min_neighbor_light, p_find_min_surrounding_light, p_find_sector_from_line_tag, FireFlickerT, GlowT, LightFlashT,
    StrobeFlashT,
};
use crate::tick::{p_add_thinker, ThinkerEntry, ThinkerList};
use crate::types::{ActionFn, LineDef, Sector, Thinker};

verus! {

/// Light change per tic of a glow.
pub const GLOWSPEED: i32 = 8;
/// Tics a strobe stays bright.
pub const STROBEBRIGHT: i32 = 5;
/// Tics a fast strobe stays dark.
pub const FASTDARK: i32 = 15;
/// Tics a slow strobe stays dark.
pub const SLOWDARK: i32 = 35;

/// `sectors` with the light level of sector `i` set to `l`.
pub open spec fn with_light(sectors: Seq<Sector>, i: int, l: i16) -> Seq<Sector> {
    sectors.update(i, Sector { lightlevel: l, ..sectors[i] })
}

/// The light a fire flicker sets when it fires with random value `r`:
/// `maxlight` less 0, 16, 32 or 48, but `minlight` when the sector's current
/// light less that amount would fall below `minlight`.
pub open spec fn flicker_light(f: FireFlickerT, current: i16, r: u8) -> i16 {
    let amount = ((r as i32) & 3) * 16;
    if (current as int) - amount < f.minlight {
        f.minlight as i16
    } else {
        (f.maxlight - amount) as i16
    }
}

/// `T_FireFlicker`: count down; every 4th tic set the sector's light as
/// [`flicker_light`] states from one draw of the play random stream.
pub fn t_fire_flicker(flicker: &mut FireFlickerT, sectors: &mut [Sector], rng: &mut DoomRandom)
    requires
        old(flicker).sector < old(sectors)@.len(),
        old(flicker).count > i32::MIN,
        old(flicker).maxlight >= i32::MIN + 48,
    ensures
        old(flicker).count - 1 != 0 ==> {
            &&& *final(flicker) == FireFlickerT { count: (old(flicker).count - 1) as i32, ..*old(flicker) }
            &&& final(sectors)@ == old(sectors)@
            &&& *final(rng) == *old(rng)
        },
        old(flicker).count - 1 == 0 ==> {
            &&& *final(flicker) == FireFlickerT { count: 4, ..*old(flicker) }
            &&& final(sectors)@ == with_light(
                old(sectors)@,
                old(flicker).sector as int,
                flicker_light(*old(flicker), old(sectors)@[old(flicker).sector as int].lightlevel, old(rng).next_p()),
            )
            &&& *final(rng) == old(rng).advanced()
        },
{
    flicker.count = flicker.count - 1;
    if flicker.count != 0 {
        return;
    }
    let r = rng.p_random();
    assert((r as i32) & 3 <= 3 && (r as i32) & 3 >= 0) by (bit_vector);
    let amount = ((r as i32) & 3) * 16;
    let s = flicker.sector;
    if (sectors[s].lightlevel as i32) - amount < flicker.minlight {
        sectors[s].lightlevel = flicker.minlight as i16;
    } else {
        sectors[s].lightlevel = (flicker.maxlight - amount) as i16;
    }
    flicker.count = 4;
    assert(sectors@ =~= with_light(old(sectors)@, s as int, flicker_light(*old(flicker), old(sectors)@[s as int].lightlevel, r)));
}

/// `P_SpawnFireFlicker`: clear the sector's special and register a fire
/// flicker between the sector's light (`maxlight`) and the darkest
/// neighbouring light plus 16 (`minlight`), firing in 4 tics. The flicker is
/// appended to `storage` and a thinker for it to `thinkers`.
pub fn p_spawn_fire_flicker(
    sector_idx: usize,
    sectors: &mut [Sector],
    lines: &[LineDef],
    thinkers: &mut ThinkerList,
    storage: &mut Vec<FireFlickerT>,
)
    requires
        level_wf(old(sectors)@, lines@),
        sector_idx < old(sectors)@.len(),
    ensures
        final(sectors)@ == old(sectors)@.update(sector_idx as int, Sector { special: 0, ..old(sectors)@[sector_idx as int] }),
        final(storage)@ == old(storage)@.push(FireFlickerT {
            thinker: Thinker { function: ActionFn::FireFlicker },
            sector: sector_idx,
            count: 4,
            maxlight: old(sectors)@[sector_idx as int].lightlevel as i32,
            minlight: (min_neighbor_light(old(sectors)@, lines@, sector_idx as int, old(sectors)@[sector_idx as int].lightlevel as int) + 16) as i32,
        }),
        final(thinkers).entries@ == old(thinkers).entries@.push(ThinkerEntry { function: ActionFn::FireFlicker, data: old(storage)@.len() as usize }),
{
    let lightlevel = sectors[sector_idx].lightlevel as i32;
    let m = p_find_min_surrounding_light(sector_idx, lightlevel, sectors, lines);
    proof {
        crate::spec::lemma_fold_le_init(sectors@, lines@, sector_idx as int, lightlevel as int, sectors@[sector_idx as int].lines@.len() as int, crate::spec::step_min_light());
    }
    let minlight = m + 16;
    sectors[sector_idx].special = 0;
    let mut flicker = FireFlickerT::new(sector_idx);
    flicker.thinker.function = ActionFn::FireFlicker;
    flicker.maxlight = lightlevel;
    flicker.minlight = minlight;
    flicker.count = 4;
    let data_idx = storage.len();
    storage.push(flicker);
    p_add_thinker(thinkers, ActionFn::FireFlicker, data_idx);
}

/// `T_LightFlash`: count down; at zero a sector at `maxlight` drops to
/// `minlight` for `(P_Random & mintime) + 1` tics, otherwise it rises to
/// `maxlight` for `(P_Random & maxtime) + 1` tics.
pub fn t_light_flash(flash: &mut LightFlashT, sectors: &mut [Sector], rng: &mut DoomRandom)
    requires
        old(flash).sector < old(sectors)@.len(),
        old(flash).count > i32::MIN,
    ensures
        old(flash).count - 1 != 0 ==> {
            &&& *final(flash) == LightFlashT { count: (old(flash).count - 1) as i32, ..*old(flash) }
            &&& final(sectors)@ == old(sectors)@
            &&& *final(rng) == *old(rng)
        },
        old(flash).count - 1 == 0 ==> {
            let at_max = old(sectors)@[old(flash).sector as int].lightlevel as i32 == old(flash).maxlight;
            let r = old(rng).next_p() as i32;
            &&& *final(rng) == old(rng).advanced()
            &&& final(sectors)@ == with_light(
                old(sectors)@,
                old(flash).sector as int,
                if at_max { old(flash).minlight as i16 } else { old(flash).maxlight as i16 },
            )
            &&& *final(flash) == LightFlashT {
                count: if at_max { ((r & old(flash).mintime) + 1) as i32 } else { ((r & old(flash).maxtime) + 1) as i32 },
                ..*old(flash)
            }
        },
{
    flash.count = flash.count - 1;
    if flash.count != 0 {
        return;
    }
    let s = flash.sector;
    if (sectors[s].lightlevel as i32) == flash.maxlight {
        sectors[s].lightlevel = flash.minlight as i16;
        let r = rng.p_random() as i32;
        let m = flash.mintime;
        assert(0 <= r & m <= 255) by (bit_vector)
            requires
                0 <= r <= 255,
        ;
        flash.count = (r & m) + 1;
    } else {
        sectors[s].lightlevel = flash.maxlight as i16;
        let r = rng.p_random() as i32;
        let m = flash.maxtime;
        assert(0 <= r & m <= 255) by (bit_vector)
            requires
                0 <= r <= 255,
        ;
        flash.count = (r & m) + 1;
    }
    assert(sectors@ =~= with_light(
        old(sectors)@,
        s as int,
        if old(sectors)@[s as int].lightlevel as i32 == old(flash).maxlight { old(flash).minlight as i16 } else { old(flash).maxlight as i16 },
    ));
}

/// `P_SpawnLightFlash`: clear the sector's special and register a light
/// flash between the sector's light and the darkest neighbouring light, with
/// `maxtime` 64, `mintime` 7 and a first count of `(P_Random & 64) + 1`.
pub fn p_spawn_light_flash(
    sector_idx: usize,
    sectors: &mut [Sector],
    lines: &[LineDef],
    rng: &mut DoomRandom,
    thinkers: &mut ThinkerList,
    storage: &mut Vec<LightFlashT>,
)
    requires
        level_wf(old(sectors)@, lines@),
        sector_idx < old(sectors)@.len(),
    ensures
        final(sectors)@ == old(sectors)@.update(sector_idx as int, Sector { special: 0, ..old(sectors)@[sector_idx as int] }),
        *final(rng) == old(rng).advanced(),
        final(storage)@ == old(storage)@.push(LightFlashT {
            thinker: Thinker { function: ActionFn::LightFlash },
            sector: sector_idx,
            count: (((old(rng).next_p() as i32) & 64) + 1) as i32,
            maxlight: old(sectors)@[sector_idx as int].lightlevel as i32,
            minlight: min_neighbor_light(old(sectors)@, lines@, sector_idx as int, old(sectors)@[sector_idx as int].lightlevel as int) as i32,
            maxtime: 64,
            mintime: 7,
        }),
        final(thinkers).entries@ == old(thinkers).entries@.push(ThinkerEntry { function: ActionFn::LightFlash, data: old(storage)@.len() as usize }),
{
    let lightlevel = sectors[sector_idx].lightlevel as i32;
    let minlight = p_find_min_surrounding_light(sector_idx, lightlevel, sectors, lines);
    sectors[sector_idx].special = 0;
    let mut flash = LightFlashT::new(sector_idx);
    flash.thinker.function = ActionFn::LightFlash;
    flash.maxlight = lightlevel;
    flash.minlight = minlight;
    flash.maxtime = 64;
    flash.mintime = 7;
    let r = rng.p_random() as i32;
    assert(0 <= r & 64 <= 255) by (bit_vector)
        requires
            0 <= r <= 255,
    ;
    flash.count = (r & flash.maxtime) + 1;
    let data_idx = storage.len();
    storage.push(flash);
    p_add_thinker(thinkers, ActionFn::LightFlash, data_idx);
}

/// `T_StrobeFlash`: count down; at zero a sector at `minlight` goes to
/// `maxlight` for `brighttime` tics, otherwise to `minlight` for `darktime`.
pub fn t_strobe_flash(strobe: &mut StrobeFlashT, sectors: &mut [Sector])
    requires
        old(strobe).sector < old(sectors)@.len(),
        old(strobe).count > i32::MIN,
    ensures
        old(strobe).count - 1 != 0 ==> {
            &&& *final(strobe) == StrobeFlashT { count: (old(strobe).count - 1) as i32, ..*old(strobe) }
            &&& final(sectors)@ == old(sectors)@
        },
        old(strobe).count - 1 == 0 ==> {
            let dark = old(sectors)@[old(strobe).sector as int].lightlevel as i32 == old(strobe).minlight;
            &&& final(sectors)@ == with_light(
                old(sectors)@,
                old(strobe).sector as int,
                if dark { old(strobe).maxlight as i16 } else { old(strobe).minlight as i16 },
            )
            &&& *final(strobe) == StrobeFlashT {
                count: if dark { old(strobe).brighttime } else { old(strobe).darktime },
                ..*old(strobe)
            }
        },
{
    strobe.count = strobe.count - 1;
    if strobe.count != 0 {
        return;
    }
    let s = strobe.sector;
    if (sectors[s].lightlevel as i32) == strobe.minlight {
        sectors[s].lightlevel = strobe.maxlight as i16;
        strobe.count = strobe.brighttime;
    } else {
        sectors[s].lightlevel = strobe.minlight as i16;
        strobe.count = strobe.darktime;
    }
    assert(sectors@ =~= with_light(
        old(sectors)@,
        s as int,
        if old(sectors)@[s as int].lightlevel as i32 == old(strobe).minlight { old(strobe).maxlight as i16 } else { old(strobe).minlight as i16 },
    ));
}

/// The strobe `p_spawn_strobe_flash` creates for a sector of light `light`
/// whose darkest neighbouring light is `min`, given the random value `r`
/// used when not in sync: dark for `fast_or_slow` tics, bright for
/// [`STROBEBRIGHT`], dark level `min` (or 0 when that equals the sector's
/// own light), first toggle after 1 tic in sync or `(r & 7) + 1` tics.
pub open spec fn new_strobe(sector: usize, light: i32, min: i32, fast_or_slow: i32, in_sync: bool, r: u8) -> StrobeFlashT {
    StrobeFlashT {
        thinker: Thinker { function: ActionFn::StrobeFlash },
        sector,
        count: if in_sync { 1 } else { (((r as i32) & 7) + 1) as i32 },
        minlight: if min == light { 0 } else { min },
        maxlight: light,
        darktime: fast_or_slow,
        brighttime: STROBEBRIGHT,
    }
}

/// `P_SpawnStrobeFlash`: clear the sector's special and register the strobe
/// [`new_strobe`] states; one play random value is drawn unless `in_sync`.
pub fn p_spawn_strobe_flash(
    sector_idx: usize,
    fast_or_slow: i32,
    in_sync: bool,
    sectors: &mut [Sector],
    lines: &[LineDef],
    rng: &mut DoomRandom,
    thinkers: &mut ThinkerList,
    storage: &mut Vec<StrobeFlashT>,
)
    requires
        level_wf(old(sectors)@, lines@),
        sector_idx < old(sectors)@.len(),
    ensures
        final(sectors)@ == old(sectors)@.update(sector_idx as int, Sector { special: 0, ..old(sectors)@[sector_idx as int] }),
        *final(rng) == if in_sync { *old(rng) } else { old(rng).advanced() },
        final(storage)@ == old(storage)@.push(new_strobe(
            sector_idx,
            old(sectors)@[sector_idx as int].lightlevel as i32,
            min_neighbor_light(old(sectors)@, lines@, sector_idx as int, old(sectors)@[sector_idx as int].lightlevel as int) as i32,
            fast_or_slow,
            in_sync,
            old(rng).next_p(),
        )),
        final(thinkers).entries@ == old(thinkers).entries@.push(ThinkerEntry { function: ActionFn::StrobeFlash, data: old(storage)@.len() as usize }),
{
    let lightlevel = sectors[sector_idx].lightlevel as i32;
    let mut minlight = p_find_min_surrounding_light(sector_idx, lightlevel, sectors, lines);
    let mut strobe = StrobeFlashT::new(sector_idx);
    strobe.thinker.function = ActionFn::StrobeFlash;
    strobe.darktime = fast_or_slow;
    strobe.brighttime = STROBEBRIGHT;
    strobe.maxlight = lightlevel;
    if minlight == lightlevel {
        minlight = 0;
    }
    strobe.minlight = minlight;
    sectors[sector_idx].special = 0;
    if !in_sync {
        let r = rng.p_random() as i32;
        assert(0 <= r & 7 <= 7) by (bit_vector)
            requires
                0 <= r <= 255,
        ;
        strobe.count = (r & 7) + 1;
    } else {
        strobe.count = 1;
    }
    let data_idx = storage.len();
    storage.push(strobe);
    p_add_thinker(thinkers, ActionFn::StrobeFlash, data_idx);
}

/// The light level a glowing sector has after one tic of `T_Glow` from
/// level `l`: [`GLOWSPEED`] darker or brighter in the glow's direction,
/// unless that would reach its minimum or maximum, where it stays put.
pub open spec fn glow_level(g: GlowT, l: int) -> int {
    if g.direction == -1 {
        if l - GLOWSPEED <= g.minlight { l } else { l - GLOWSPEED }
    } else if g.direction == 1 {
        if l + GLOWSPEED >= g.maxlight { l } else { l + GLOWSPEED }
    } else {
        l
    }
}

/// The glow after one tic from level `l`: it turns round where
/// [`glow_level`] stays put.
pub open spec fn glow_after(g: GlowT, l: int) -> GlowT {
    if g.direction == -1 && l - GLOWSPEED <= g.minlight {
        GlowT { direction: 1, ..g }
    } else if g.direction == 1 && l + GLOWSPEED >= g.maxlight {
        GlowT { direction: -1i32, ..g }
    } else {
        g
    }
}

/// Law: a glowing light that is strictly between its minimum and maximum
/// stays strictly between them, tic after tic.
pub proof fn law_glow_stays_in_range(g: GlowT, l: int)
    requires
        g.minlight < l < g.maxlight,
    ensures
        g.minlight < glow_level(g, l) < g.maxlight,
        glow_after(g, l).minlight == g.minlight,
        glow_after(g, l).maxlight == g.maxlight,
{
}

/// `T_Glow`: a darkening glow (-1) loses [`GLOWSPEED`] light per tic and a
/// brightening glow (1) gains it; a step that would reach `minlight` (or
/// `maxlight`) is not taken, and the glow turns around instead.
pub fn t_glow(glow: &mut GlowT, sectors: &mut [Sector])
    requires
        old(glow).sector < old(sectors)@.len(),
        old(glow).direction == -1 ==> old(sectors)@[old(glow).sector as int].lightlevel >= i16::MIN + GLOWSPEED,
        old(glow).direction == 1 ==> old(sectors)@[old(glow).sector as int].lightlevel <= i16::MAX - GLOWSPEED,
    ensures
        final(sectors)@[old(glow).sector as int].lightlevel == glow_level(*old(glow), old(sectors)@[old(glow).sector as int].lightlevel as int),
        *final(glow) == glow_after(*old(glow), old(sectors)@[old(glow).sector as int].lightlevel as int),
        ({
            let l = old(sectors)@[old(glow).sector as int].lightlevel as int;
            if old(glow).direction == -1 {
                if l - GLOWSPEED <= old(glow).minlight {
                    final(sectors)@ == old(sectors)@ && *final(glow) == GlowT { direction: 1, ..*old(glow) }
                } else {
                    final(sectors)@ == with_light(old(sectors)@, old(glow).sector as int, (l - GLOWSPEED) as i16)
                        && *final(glow) == *old(glow)
                }
            } else if old(glow).direction == 1 {
                if l + GLOWSPEED >= old(glow).maxlight {
                    final(sectors)@ == old(sectors)@ && *final(glow) == GlowT { direction: -1i32, ..*old(glow) }
                } else {
                    final(sectors)@ == with_light(old(sectors)@, old(glow).sector as int, (l + GLOWSPEED) as i16)
                        && *final(glow) == *old(glow)
                }
            } else {
                final(sectors)@ == old(sectors)@ && *final(glow) == *old(glow)
            }
        }),
{
    let s = glow.sector;
    if glow.direction == -1 {
        sectors[s].lightlevel = sectors[s].lightlevel - 8;
        if (sectors[s].lightlevel as i32) <= glow.minlight {
            sectors[s].lightlevel = sectors[s].lightlevel + 8;
            glow.direction = 1;
            assert(sectors@ =~= old(sectors)@);
        }
    } else if glow.direction == 1 {
        sectors[s].lightlevel = sectors[s].lightlevel + 8;
        if (sectors[s].lightlevel as i32) >= glow.maxlight {
            sectors[s].lightlevel = sectors[s].lightlevel - 8;
            glow.direction = -1;
            assert(sectors@ =~= old(sectors)@);
        }
    }
}

/// `P_SpawnGlowingLight`: clear the sector's special and register a glow
/// between the darkest neighbouring light and the sector's light, darkening first.
pub fn p_spawn_glowing_light(
    sector_idx: usize,
    sectors: &mut [Sector],
    lines: &[LineDef],
    thinkers: &mut ThinkerList,
    storage: &mut Vec<GlowT>,
)
    requires
        level_wf(old(sectors)@, lines@),
        sector_idx < old(sectors)@.len(),
    ensures
        final(sectors)@ == old(sectors)@.update(sector_idx as int, Sector { special: 0, ..old(sectors)@[sector_idx as int] }),
        final(storage)@ == old(storage)@.push(GlowT {
            thinker: Thinker { function: ActionFn::Glow },
            sector: sector_idx,
            minlight: min_neighbor_light(old(sectors)@, lines@, sector_idx as int, old(sectors)@[sector_idx as int].lightlevel as int) as i32,
            maxlight: old(sectors)@[sector_idx as int].lightlevel as i32,
            direction: -1i32,
        }),
        final(thinkers).entries@ == old(thinkers).entries@.push(ThinkerEntry { function: ActionFn::Glow, data: old(storage)@.len() as usize }),
{
    let lightlevel = sectors[sector_idx].lightlevel as i32;
    let minlight = p_find_min_surrounding_light(sector_idx, lightlevel, sectors, lines);
    let mut glow = GlowT::new(sector_idx);
    glow.thinker.function = ActionFn::Glow;
    glow.minlight = minlight;
    glow.maxlight = lightlevel;
    glow.direction = -1;
    sectors[sector_idx].special = 0;
    let data_idx = storage.len();
    storage.push(glow);
    p_add_thinker(thinkers, ActionFn::Glow, data_idx);
}

/// `EV_TurnTagLightsOff` over the first `n` sectors: each sector tagged
/// `tag`, in order, takes the darkest light among itself and its
/// neighbours as they are at that point.
pub open spec fn lights_off_upto(sectors: Seq<Sector>, lines: Seq<LineDef>, tag: i16, n: int) -> Seq<Sector>
    decreases n,
{
    if n <= 0 {
        sectors
    } else {
        let s = lights_off_upto(sectors, lines, tag, n - 1);
        if s[n - 1].tag == tag {
            with_light(s, n - 1, min_neighbor_light(s, lines, n - 1, s[n - 1].lightlevel as int) as i16)
        } else {
            s
        }
    }
}

proof fn lemma_with_light_geometry(sectors: Seq<Sector>, lines: Seq<LineDef>, i: int, l: i16)
    requires
        0 <= i < sectors.len(),
        level_wf(sectors, lines),
    ensures
        level_wf(with_light(sectors, i, l), lines),
        with_light(sectors, i, l).len() == sectors.len(),
        forall|j: int| 0 <= j < sectors.len() ==> (#[trigger] with_light(sectors, i, l)[j]).lines@ == sectors[j].lines@
            && with_light(sectors, i, l)[j].tag == sectors[j].tag,
{
    let t = with_light(sectors, i, l);
    assert forall|a: int, k: int| 0 <= a < t.len() && 0 <= k < t[a].lines@.len() implies #[trigger] t[a].lines@[k] < lines.len() by {
        assert(t[a].lines@ == sectors[a].lines@);
        assert(sectors[a].lines@[k] < lines.len());
    }
}

proof fn lemma_lights_off_shape(sectors: Seq<Sector>, lines: Seq<LineDef>, tag: i16, n: int)
    requires
        level_wf(sectors, lines),
        0 <= n <= sectors.len(),
    ensures
        level_wf(lights_off_upto(sectors, lines, tag, n), lines),
        lights_off_upto(sectors, lines, tag, n).len() == sectors.len(),
        forall|j: int| 0 <= j < sectors.len() ==> (#[trigger] lights_off_upto(sectors, lines, tag, n)[j]).lines@ == sectors[j].lines@
            && lights_off_upto(sectors, lines, tag, n)[j].tag == sectors[j].tag,
    decreases n,
{
    if n > 0 {
        lemma_lights_off_shape(sectors, lines, tag, n - 1);
        let s = lights_off_upto(sectors, lines, tag, n - 1);
        if s[n - 1].tag == tag {
            lemma_with_light_geometry(s, lines, n - 1, min_neighbor_light(s, lines, n - 1, s[n - 1].lightlevel as int) as i16);
        }
    }
}

/// `EV_TurnTagLightsOff`: every sector with the line's tag, in order, takes
/// the darkest light level among itself and its neighbours (as already
/// changed by earlier sectors), as [`lights_off_upto`] states.
pub fn ev_turn_tag_lights_off(line: &LineDef, sectors: &mut [Sector], lines: &[LineDef])
    requires
        level_wf(old(sectors)@, lines@),
    ensures
        final(sectors)@ == lights_off_upto(old(sectors)@, lines@, line.tag, old(sectors)@.len() as int),
{
    let tag = line.tag;
    let mut j: usize = 0;
    while j < sectors.len()
        invariant
            0 <= j <= sectors@.len(),
            sectors@.len() == old(sectors)@.len(),
            level_wf(old(sectors)@, lines@),
            sectors@ == lights_off_upto(old(sectors)@, lines@, tag, j as int),
        decreases sectors@.len() - j,
    {
        proof {
            lemma_lights_off_shape(old(sectors)@, lines@, tag, j as int);
        }
        if sectors[j].tag == tag {
            let own = sectors[j].lightlevel as i32;
            let m = find_min_light(j, own, sectors, lines);
            proof {
                crate::spec::lemma_fold_le_init(sectors@, lines@, j as int, own as int, sectors@[j as int].lines@.len() as int, crate::spec::step_min_light());
                crate::spec::lemma_fold_ge(sectors@, lines@, j as int, own as int, sectors@[j as int].lines@.len() as int, crate::spec::step_min_light(), i16::MIN as int);
            }
            sectors[j].lightlevel = m as i16;
        }
        proof {
            assert(sectors@ =~= lights_off_upto(old(sectors)@, lines@, tag, j + 1));
        }
        j = j + 1;
    }
}

/// `EV_LightTurnOn` over the first `n` sectors, with the running `bright`
/// value: each sector tagged `tag`, in order, is set to `bright`; while
/// `bright` is 0 it is first replaced by the brightest neighbouring light of
/// that sector (as the sectors are at that point), and keeps that value for
/// the later sectors.
pub open spec fn lights_on_upto(sectors: Seq<Sector>, lines: Seq<LineDef>, tag: i16, bright: int, n: int) -> (Seq<Sector>, int)
    decreases n,
{
    if n <= 0 {
        (sectors, bright)
    } else {
        let (s, b) = lights_on_upto(sectors, lines, tag, bright, n - 1);
        if s[n - 1].tag == tag {
            let b2 = if b == 0 { max_surrounding_light(s, lines, n - 1, 0) } else { b };
            (with_light(s, n - 1, b2 as i16), b2)
        } else {
            (s, b)
        }
    }
}

proof fn lemma_lights_on_shape(sectors: Seq<Sector>, lines: Seq<LineDef>, tag: i16, bright: int, n: int)
    requires
        level_wf(sectors, lines),
        0 <= n <= sectors.len(),
        i32::MIN <= bright <= i32::MAX,
    ensures
        level_wf(lights_on_upto(sectors, lines, tag, bright, n).0, lines),
        lights_on_upto(sectors, lines, tag, bright, n).0.len() == sectors.len(),
        i32::MIN <= lights_on_upto(sectors, lines, tag, bright, n).1 <= i32::MAX,
        forall|j: int| 0 <= j < sectors.len() ==> (#[trigger] lights_on_upto(sectors, lines, tag, bright, n).0[j]).lines@ == sectors[j].lines@
            && lights_on_upto(sectors, lines, tag, bright, n).0[j].tag == sectors[j].tag,
    decreases n,
{
    if n > 0 {
        lemma_lights_on_shape(sectors, lines, tag, bright, n - 1);
        let (s, b) = lights_on_upto(sectors, lines, tag, bright, n - 1);
        if s[n - 1].tag == tag {
            let b2 = if b == 0 { max_surrounding_light(s, lines, n - 1, 0) } else { b };
            if b == 0 {
                crate::spec::lemma_fold_le_max(s, lines, n - 1, 0, s[n - 1].lines@.len() as int, crate::spec::step_max_light());
                crate::spec::lemma_fold_ge(s, lines, n - 1, 0, s[n - 1].lines@.len() as int, crate::spec::step_max_light(), 0);
            }
            lemma_with_light_geometry(s, lines, n - 1, b2 as i16);
        }
    }
}

/// `EV_LightTurnOn`: every sector with the line's tag, in order, is set to
/// `bright`; when `bright` is 0 the brightest neighbouring light of the
/// first such sector is used, and that value then stays for the rest (the
/// original engine reuses the parameter), as [`lights_on_upto`] states.
pub fn ev_light_turn_on(line: &LineDef, bright_in: i32, sectors: &mut [Sector], lines: &[LineDef])
    requires
        level_wf(old(sectors)@, lines@),
    ensures
        final(sectors)@ == lights_on_upto(old(sectors)@, lines@, line.tag, bright_in as int, old(sectors)@.len() as int).0,
{
    let tag = line.tag;
    let mut bright = bright_in;
    let mut i: usize = 0;
    while i < sectors.len()
        invariant
            0 <= i <= sectors@.len(),
            sectors@.len() == old(sectors)@.len(),
            level_wf(old(sectors)@, lines@),
            (sectors@, bright as int) == lights_on_upto(old(sectors)@, lines@, tag, bright_in as int, i as int),
        decreases sectors@.len() - i,
    {
        proof {
            lemma_lights_on_shape(old(sectors)@, lines@, tag, bright_in as int, i as int);
        }
        if sectors[i].tag == tag {
            if bright == 0 {
                bright = find_max_light(i, 0, sectors, lines);
            }
            sectors[i].lightlevel = bright as i16;
        }
        proof {
            assert(sectors@ =~= lights_on_upto(old(sectors)@, lines@, tag, bright_in as int, i + 1).0);
        }
        i = i + 1;
    }
}

/// The strobes `EV_StartLightStrobing` spawns for the sectors from index
/// `from` on, in order, and the generator afterwards: one slow,
/// unsynchronised strobe for each sector tagged `tag` that no mover occupies.
pub open spec fn strobe_spawns(sectors: Seq<Sector>, lines: Seq<LineDef>, tag: i16, from: int, rng: DoomRandom) -> (Seq<StrobeFlashT>, DoomRandom)
    decreases sectors.len() - from,
{
    if from < 0 || from >= sectors.len() {
        (seq![], rng)
    } else if sectors[from].tag == tag && sectors[from].specialdata is None {
        let light = sectors[from].lightlevel as i32;
        let st = new_strobe(from as usize, light, min_neighbor_light(sectors, lines, from, light as int) as i32, SLOWDARK, false, rng.next_p());
        let (rest, r2) = strobe_spawns(sectors, lines, tag, from + 1, rng.advanced());
        (seq![st] + rest, r2)
    } else {
        strobe_spawns(sectors, lines, tag, from + 1, rng)
    }
}

/// The sectors from index `from` on that `EV_StartLightStrobing` strobes.
pub open spec fn strobed(sectors: Seq<Sector>, tag: i16, from: int, j: int) -> bool {
    from <= j < sectors.len() && sectors[j].tag == tag && sectors[j].specialdata is None
}

proof fn lemma_strobe_skip(sectors: Seq<Sector>, lines: Seq<LineDef>, tag: i16, from: int, to: int, rng: DoomRandom)
    requires
        0 <= from <= to <= sectors.len(),
        forall|j: int| from <= j < to ==> sectors[j].tag != tag,
    ensures
        strobe_spawns(sectors, lines, tag, from, rng) == strobe_spawns(sectors, lines, tag, to, rng),
    decreases to - from,
{
    if from < to {
        lemma_strobe_skip(sectors, lines, tag, from + 1, to, rng);
    }
}

proof fn lemma_strobe_spawns_same(a: Seq<Sector>, b: Seq<Sector>, lines: Seq<LineDef>, tag: i16, from: int, rng: DoomRandom)
    requires
        same_geometry(a, b),
        level_wf(a, lines),
        forall|j: int| 0 <= j < a.len() ==> (#[trigger] a[j]).specialdata == b[j].specialdata,
        0 <= from,
    ensures
        strobe_spawns(a, lines, tag, from, rng) == strobe_spawns(b, lines, tag, from, rng),
    decreases a.len() - from,
{
    if from < a.len() {
        assert(a[from].specialdata == b[from].specialdata);
        assert(a[from].lines@ == b[from].lines@);
        if a[from].tag == tag && a[from].specialdata is None {
            crate::spec::lemma_steps_same_geometry(a, b, 0);
            crate::spec::lemma_fold_same_geometry(a, b, lines, from, a[from].lightlevel as int, a[from].lines@.len() as int, crate::spec::step_min_light());
            lemma_strobe_spawns_same(a, b, lines, tag, from + 1, rng.advanced());
        } else {
            lemma_strobe_spawns_same(a, b, lines, tag, from + 1, rng);
        }
    }
}

/// `EV_StartLightStrobing`: every sector with the line's tag that no mover
/// occupies, in order, gets a slow unsynchronised strobe (see
/// [`p_spawn_strobe_flash`]); the strobes and the generator are those
/// [`strobe_spawns`] states, and each strobed sector's special is cleared.
pub fn ev_start_light_strobing(
    line: &LineDef,
    sectors: &mut [Sector],
    lines: &[LineDef],
    rng: &mut DoomRandom,
    thinkers: &mut ThinkerList,
    strobes: &mut Vec<StrobeFlashT>,
)
    requires
        level_wf(old(sectors)@, lines@),
        old(sectors)@.len() < i32::MAX,
    ensures
        final(strobes)@ == old(strobes)@ + strobe_spawns(old(sectors)@, lines@, line.tag, 0, *old(rng)).0,
        *final(rng) == strobe_spawns(old(sectors)@, lines@, line.tag, 0, *old(rng)).1,
        final(thinkers).entries@.len() == old(thinkers).entries@.len() + strobe_spawns(old(sectors)@, lines@, line.tag, 0, *old(rng)).0.len(),
        forall|k: int| 0 <= k < strobe_spawns(old(sectors)@, lines@, line.tag, 0, *old(rng)).0.len() ==>
            #[trigger] final(thinkers).entries@[old(thinkers).entries@.len() + k] == (ThinkerEntry {
                function: ActionFn::StrobeFlash,
                data: (old(strobes)@.len() + k) as usize,
            }),
        forall|k: int| 0 <= k < old(thinkers).entries@.len() ==> #[trigger] final(thinkers).entries@[k] == old(thinkers).entries@[k],
        final(sectors)@.len() == old(sectors)@.len(),
        forall|j: int| 0 <= j < old(sectors)@.len() ==> #[trigger] final(sectors)@[j] == if strobed(old(sectors)@, line.tag, 0, j) {
            Sector { special: 0, ..old(sectors)@[j] }
        } else {
            old(sectors)@[j]
        },
{
    let ghost s0 = sectors@;
    let ghost r0 = *rng;
    let ghost all = strobe_spawns(s0, lines@, line.tag, 0, r0);
    let mut secnum: i32 = -1;
    loop
        invariant_except_break
            -1 <= secnum < sectors@.len(),
            sectors@.len() == s0.len(),
            s0.len() < i32::MAX,
            level_wf(s0, lines@),
            same_geometry(s0, sectors@),
            forall|j: int| 0 <= j < s0.len() ==> (#[trigger] sectors@[j]).specialdata == s0[j].specialdata,
            forall|j: int| 0 <= j < s0.len() ==> #[trigger] sectors@[j] == if strobed(s0, line.tag, 0, j) && j <= secnum {
                Sector { special: 0, ..s0[j] }
            } else {
                s0[j]
            },
            ({
                let (rest, rend) = strobe_spawns(s0, lines@, line.tag, secnum + 1, *rng);
                &&& all.0 == strobes@.subrange(old(strobes)@.len() as int, strobes@.len() as int) + rest
                &&& all.1 == rend
            }),
            strobes@.len() >= old(strobes)@.len(),
            strobes@.subrange(0, old(strobes)@.len() as int) == old(strobes)@,
            thinkers.entries@.len() == old(thinkers).entries@.len() + (strobes@.len() - old(strobes)@.len()),
            forall|k: int| 0 <= k < strobes@.len() - old(strobes)@.len() ==>
                #[trigger] thinkers.entries@[old(thinkers).entries@.len() + k] == (ThinkerEntry {
                    function: ActionFn::StrobeFlash,
                    data: (old(strobes)@.len() + k) as usize,
                }),
            forall|k: int| 0 <= k < old(thinkers).entries@.len() ==> #[trigger] thinkers.entries@[k] == old(thinkers).entries@[k],
        ensures
            strobes@ == old(strobes)@ + all.0,
            *rng == all.1,
            thinkers.entries@.len() == old(thinkers).entries@.len() + all.0.len(),
            forall|k: int| 0 <= k < all.0.len() ==>
                #[trigger] thinkers.entries@[old(thinkers).entries@.len() + k] == (ThinkerEntry {
                    function: ActionFn::StrobeFlash,
                    data: (old(strobes)@.len() + k) as usize,
                }),
            forall|k: int| 0 <= k < old(thinkers).entries@.len() ==> #[trigger] thinkers.entries@[k] == old(thinkers).entries@[k],
            sectors@.len() == s0.len(),
            forall|j: int| 0 <= j < s0.len() ==> #[trigger] sectors@[j] == if strobed(s0, line.tag, 0, j) {
                Sector { special: 0, ..s0[j] }
            } else {
                s0[j]
            },
        decreases sectors@.len() - secnum,
    {
        let ghost prev = secnum;
        secnum = p_find_sector_from_line_tag(line, secnum, sectors);
        proof {
            crate::spec::lemma_find_same_geometry(s0, sectors@, line.tag, prev + 1);
            lemma_find_tagged_from(s0, line.tag, prev + 1);
        }
        if secnum < 0 {
            proof {
                lemma_strobe_skip(s0, lines@, line.tag, prev + 1, s0.len() as int, *rng);
                assert(strobes@ =~= old(strobes)@ + all.0) by {
                    assert(strobes@ =~= strobes@.subrange(0, old(strobes)@.len() as int) + strobes@.subrange(old(strobes)@.len() as int, strobes@.len() as int));
                }
                assert forall|j: int| 0 <= j < s0.len() implies #[trigger] sectors@[j] == if strobed(s0, line.tag, 0, j) {
                    Sector { special: 0, ..s0[j] }
                } else {
                    s0[j]
                } by {
                    if strobed(s0, line.tag, 0, j) && j > prev {
                        assert(s0[j].tag != line.tag);
                    }
                }
            }
            break;
        }
        let sec_idx = secnum as usize;
        proof {
            lemma_strobe_skip(s0, lines@, line.tag, prev + 1, secnum as int, *rng);
        }
        if sectors[sec_idx].specialdata.is_some() {
            proof {
                assert forall|j: int| 0 <= j < s0.len() implies #[trigger] sectors@[j] == if strobed(s0, line.tag, 0, j) && j <= secnum {
                    Sector { special: 0, ..s0[j] }
                } else {
                    s0[j]
                } by {
                    if j > prev && j < secnum {
                        assert(s0[j].tag != line.tag);
                    }
                }
            }
            continue;
        }
        let ghost before = sectors@;
        let ghost rbefore = *rng;
        proof {
            crate::spec::lemma_wf_same_geometry(s0, sectors@, lines@);
            crate::spec::lemma_steps_same_geometry(s0, sectors@, 0);
            assert(s0[sec_idx as int].lines@ == sectors@[sec_idx as int].lines@);
            crate::spec::lemma_fold_same_geometry(s0, sectors@, lines@, sec_idx as int, s0[sec_idx as int].lightlevel as int, s0[sec_idx as int].lines@.len() as int, crate::spec::step_min_light());
        }
        p_spawn_strobe_flash(sec_idx, SLOWDARK, false, sectors, lines, rng, thinkers, strobes);
        proof {
            assert(s0[sec_idx as int].lines@ == before[sec_idx as int].lines@);
            let st = strobes@.last();
            assert(strobes@.subrange(old(strobes)@.len() as int, strobes@.len() as int) =~= before_strobes_tail(strobes@, old(strobes)@.len() as int).push(st));
            assert forall|j: int| 0 <= j < s0.len() implies #[trigger] sectors@[j] == if strobed(s0, line.tag, 0, j) && j <= secnum {
                Sector { special: 0, ..s0[j] }
            } else {
                s0[j]
            } by {
                if j > prev && j < secnum {
                    assert(s0[j].tag != line.tag);
                }
            }
            assert(same_geometry(s0, sectors@)) by {
                assert forall|i: int| 0 <= i < s0.len() implies {
                    &&& #[trigger] s0[i].lines@ == sectors@[i].lines@
                    &&& s0[i].floorheight == sectors@[i].floorheight
                    &&& s0[i].ceilingheight == sectors@[i].ceilingheight
                    &&& s0[i].lightlevel == sectors@[i].lightlevel
                    &&& s0[i].tag == sectors@[i].tag
                } by {
                    assert(sectors@[i] == if strobed(s0, line.tag, 0, i) && i <= secnum {
                        Sector { special: 0, ..s0[i] }
                    } else {
                        s0[i]
                    });
                }
            }
        }
    }
}

/// The strobes appended after the first `start` entries.
pub open spec fn before_strobes_tail(all: Seq<StrobeFlashT>, start: int) -> Seq<StrobeFlashT> {
    all.subrange(start, all.len() - 1)
}

} // verus!
