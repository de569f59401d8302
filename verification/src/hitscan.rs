//! Hitscan aiming and shooting, using lines, explosions, and what happens to
//! the things in a sector whose floor or ceiling moved.
//!
//! A trace is walked by handing its intercepts, nearest first, to a step
//! function that decides whether to go on; each step function here is a
//! pure function of the level and the trace, stated exactly, and each
//! attack is the fold of its step over the intercepts the engine found.

use vstd::prelude::*;
use crate::enemy::{MELEERANGE, MT_CYBORG, MT_SPIDER};
use crate::fixed::{fixed_div_spec, fixed_mul_spec, Fixed, FRACUNIT};
use crate::inter::{div_toward_zero, trunc_div};
use crate::maputl::{
    line_opening, opening_fits, p_line_opening, p_point_on_line_side, point_on_line_side, point_side_fits,
    wrapping_abs, Intercept, InterceptData, MapUtilState, PT_ADDLINES, PT_ADDTHINGS,
};
use crate::movement::MAXRADIUS;
use crate::random::DoomRandom;
use crate::types::{
    Angle, LineDef, MapObject, Sector, SfxEnum, Vertex, BOXBOTTOM, BOXLEFT, BOXRIGHT, BOXTOP, MF_DROPPED, MF_NOBLOOD,
    MF_SHOOTABLE, MF_SOLID, ML_TWOSIDED,
};

verus! {

/// How far ahead a player reaches to use a line: 64 units.
pub const USERANGE: i32 = 4194304;

/// The half-height of the auto-aim window, as a slope: 100/160.
pub const AIM_WINDOW: i32 = 40960;

/// The most special lines one shot records for activation.
pub const MAX_SHOOT_SPECIALS: usize = 64;

/// The state of a thing crushed into a pile of gibs.
pub const S_GIBS: usize = 895;

/// The thing type of a blood splat.
pub const MT_BLOOD: usize = 38;

/// What a shot being traced reads: who fires, from what height, how far,
/// along which line (origin and full-length offset), and the sky flat.
#[derive(Clone, Copy, Debug, PartialEq, Eq, Structural)]
pub struct ShotTrace {
    pub shooter: usize,
    pub shootz: Fixed,
    pub range: Fixed,
    pub x: Fixed,
    pub y: Fixed,
    pub dx: Fixed,
    pub dy: Fixed,
    pub skyflatnum: i16,
}

/// The auto-aim state: the open window of slopes, and once a target is
/// found, the slope to it and the target.
#[derive(Clone, Copy, Debug, PartialEq, Eq, Structural)]
pub struct AimWindow {
    pub topslope: Fixed,
    pub bottomslope: Fixed,
    pub aimslope: Fixed,
    pub linetarget: Option<usize>,
}

/// What a hitscan shot hit.
#[derive(Clone, Copy, Debug, PartialEq, Eq, Structural)]
pub enum ShootHit {
    /// Nothing within range.
    Nothing,
    /// A wall, with the puff's position.
    Wall { x: Fixed, y: Fixed, z: Fixed },
    /// The sky: no effect.
    Sky,
    /// A thing, with the impact position and whether it bleeds.
    Thing { target: usize, x: Fixed, y: Fixed, z: Fixed, no_blood: bool },
}

/// What a use trace found.
#[derive(Clone, Copy, Debug, PartialEq, Eq, Structural)]
pub enum UseResult {
    /// Nothing in reach.
    Nothing,
    /// A wall without a special: the player grunts.
    NoWay,
    /// A special line, and the side of it the user stands on.
    UseSpecial { line: usize, side: i32 },
}

/// A request these functions made of the engine, in the order made.
#[derive(Clone, Copy, Debug, PartialEq, Eq, Structural)]
pub enum MapEvent {
    /// `P_ShootSpecialLine`.
    ShootSpecial { thing: usize, line: usize },
    /// `P_UseSpecialLine`.
    UseSpecial { thing: usize, line: usize, side: i32 },
    /// `S_StartSound`.
    Sound { origin: Option<usize>, sfx: SfxEnum },
    /// `P_SpawnPuff`; `at_melee` when the attack had melee range.
    SpawnPuff { x: Fixed, y: Fixed, z: Fixed, at_melee: bool },
    /// `P_SpawnBlood`.
    SpawnBlood { x: Fixed, y: Fixed, z: Fixed, damage: i32 },
    /// `P_SpawnMobj`.
    SpawnMobj { x: Fixed, y: Fixed, z: Fixed, mtype: usize },
    /// `P_DamageMobj`.
    Damage { target: usize, inflictor: Option<usize>, source: Option<usize>, damage: i32 },
    /// `P_SetMobjState`.
    SetState { mobj: usize, state: usize },
    /// `P_RemoveMobj`.
    RemoveMobj { mobj: usize },
    /// `P_ThingHeightClip`, and whether the thing fit.
    HeightClip { thing: usize, fits: bool },
}

/// The level and engine services these functions use. The engine walks
/// traces (handing back the intercepts it would hand a traverser, nearest
/// first) and lists blockmap cells; its spawns, damage and line specials
/// may change anything but never shrink the thing arena.
pub trait MapContext: Sized {
    spec fn mobjs_view(&self) -> Seq<MapObject>;
    spec fn lines_view(&self) -> Seq<LineDef>;
    spec fn sectors_view(&self) -> Seq<Sector>;
    spec fn vertexes_view(&self) -> Seq<Vertex>;
    /// The flat that marks a sky ceiling.
    spec fn sky_view(&self) -> i16;
    spec fn leveltime_view(&self) -> i32;
    spec fn rng_view(&self) -> DoomRandom;
    /// Everything requested so far, in order.
    spec fn events(&self) -> Seq<MapEvent>;
    /// Whether thing `t1` can see thing `t2`.
    spec fn sight_view(&self, t1: usize, t2: usize) -> bool;
    /// The fine sine table (its cosines start a quarter turn in).
    spec fn sine_view(&self, i: usize) -> Fixed;
    /// The intercepts of the trace from `(x1, y1)` to `(x2, y2)` that a
    /// traverser is handed, nearest first, for path flags `flags`.
    spec fn path_view(&self, x1: Fixed, y1: Fixed, x2: Fixed, y2: Fixed, flags: i32) -> Seq<Intercept>;
    /// The things linked into blockmap cell `(bx, by)`, in list order.
    spec fn cell_view(&self, bx: i32, by: i32) -> Seq<usize>;
    spec fn orgx_view(&self) -> Fixed;
    spec fn orgy_view(&self) -> Fixed;
    spec fn width_view(&self) -> i32;
    spec fn height_view(&self) -> i32;
    /// Each player's thing, if it has one.
    spec fn players_view(&self) -> Seq<Option<usize>>;

    fn mobjs(&self) -> (r: &[MapObject])
        ensures
            r@ == self.mobjs_view(),
    ;

    fn lines(&self) -> (r: &[LineDef])
        ensures
            r@ == self.lines_view(),
    ;

    fn sectors(&self) -> (r: &[Sector])
        ensures
            r@ == self.sectors_view(),
    ;

    fn vertexes(&self) -> (r: &[Vertex])
        ensures
            r@ == self.vertexes_view(),
    ;

    fn sky_flatnum(&self) -> (r: i16)
        ensures
            r == self.sky_view(),
    ;

    fn leveltime(&self) -> (r: i32)
        ensures
            r == self.leveltime_view(),
    ;

    fn bmap_orgx(&self) -> (r: Fixed)
        ensures
            r == self.orgx_view(),
    ;

    fn bmap_orgy(&self) -> (r: Fixed)
        ensures
            r == self.orgy_view(),
    ;

    fn bmap_width(&self) -> (r: i32)
        ensures
            r == self.width_view(),
    ;

    fn bmap_height(&self) -> (r: i32)
        ensures
            r == self.height_view(),
    ;

    /// Entry `i` of the fine sine table.
    fn fine_sine(&self, i: usize) -> (r: Fixed)
        requires
            i < 10240,
        ensures
            r == self.sine_view(i),
    ;

    /// Player `p`'s thing, if it has one.
    fn player_mobj(&self, p: usize) -> (r: Option<usize>)
        requires
            p < self.players_view().len(),
        ensures
            r == self.players_view()[p as int],
    ;

    /// The intercepts a traverser of the trace would be handed.
    fn path_intercepts(&self, x1: Fixed, y1: Fixed, x2: Fixed, y2: Fixed, flags: i32) -> (r: Vec<Intercept>)
        ensures
            r@ == self.path_view(x1, y1, x2, y2, flags),
            forall|i: int| 0 <= i < r@.len() ==> intercept_ok(#[trigger] r@[i], self.lines_view().len() as int, self.mobjs_view().len() as int),
    ;

    /// The things in blockmap cell `(bx, by)`.
    fn cell_things(&self, bx: i32, by: i32) -> (r: Vec<usize>)
        ensures
            r@ == self.cell_view(bx, by),
            forall|i: int| 0 <= i < r@.len() ==> #[trigger] r@[i] < self.mobjs_view().len(),
    ;

    /// Replace thing `idx` by `m`.
    fn set_mobj(&mut self, idx: usize, m: MapObject)
        requires
            idx < old(self).mobjs_view().len(),
        ensures
            final(self).mobjs_view() == old(self).mobjs_view().update(idx as int, m),
            final(self).rng_view() == old(self).rng_view(),
            final(self).events() == old(self).events(),
    ;

    /// `P_Random` on the play stream.
    fn p_random(&mut self) -> (r: u8)
        ensures
            r == old(self).rng_view().next_p(),
            final(self).rng_view() == old(self).rng_view().advanced(),
            final(self).mobjs_view() == old(self).mobjs_view(),
            final(self).events() == old(self).events(),
    ;

    /// `P_CheckSight`.
    fn p_check_sight(&mut self, t1: usize, t2: usize) -> (r: bool)
        ensures
            r == old(self).sight_view(t1, t2),
            final(self).mobjs_view() == old(self).mobjs_view(),
            final(self).rng_view() == old(self).rng_view(),
            final(self).events() == old(self).events(),
    ;

    /// `P_SpawnPuff`.
    fn p_spawn_puff(&mut self, x: Fixed, y: Fixed, z: Fixed, at_melee: bool)
        ensures
            final(self).mobjs_view().len() >= old(self).mobjs_view().len(),
            final(self).events() == old(self).events().push(MapEvent::SpawnPuff { x, y, z, at_melee }),
    ;

    /// `P_SpawnBlood`.
    fn p_spawn_blood(&mut self, x: Fixed, y: Fixed, z: Fixed, damage: i32)
        ensures
            final(self).mobjs_view().len() >= old(self).mobjs_view().len(),
            final(self).events() == old(self).events().push(MapEvent::SpawnBlood { x, y, z, damage }),
    ;

    /// `P_SpawnMobj`: the new thing's index.
    fn p_spawn_mobj(&mut self, x: Fixed, y: Fixed, z: Fixed, mtype: usize) -> (r: usize)
        ensures
            r < final(self).mobjs_view().len(),
            final(self).mobjs_view().len() >= old(self).mobjs_view().len(),
            final(self).events() == old(self).events().push(MapEvent::SpawnMobj { x, y, z, mtype }),
    ;

    /// `P_DamageMobj`.
    fn p_damage_mobj(&mut self, target: usize, inflictor: Option<usize>, source: Option<usize>, damage: i32)
        ensures
            final(self).mobjs_view().len() >= old(self).mobjs_view().len(),
            final(self).events() == old(self).events().push(MapEvent::Damage { target, inflictor, source, damage }),
    ;

    /// `P_SetMobjState`: whether the thing still exists afterwards.
    fn p_set_mobj_state(&mut self, mobj: usize, state: usize) -> (r: bool)
        ensures
            final(self).mobjs_view().len() >= old(self).mobjs_view().len(),
            final(self).events() == old(self).events().push(MapEvent::SetState { mobj, state }),
    ;

    /// `P_RemoveMobj`: the thing leaves the level (its slot stays).
    fn p_remove_mobj(&mut self, mobj: usize)
        ensures
            final(self).mobjs_view().len() >= old(self).mobjs_view().len(),
            final(self).events() == old(self).events().push(MapEvent::RemoveMobj { mobj }),
    ;

    /// `P_ThingHeightClip`: whether the thing fits between its new floor
    /// and ceiling.
    fn p_thing_height_clip(&mut self, thing: usize) -> (r: bool)
        ensures
            final(self).mobjs_view().len() >= old(self).mobjs_view().len(),
            final(self).rng_view() == old(self).rng_view(),
            final(self).events() == old(self).events().push(MapEvent::HeightClip { thing, fits: r }),
    ;

    /// `P_ShootSpecialLine`.
    fn p_shoot_special_line(&mut self, thing: usize, line: usize)
        ensures
            final(self).mobjs_view().len() >= old(self).mobjs_view().len(),
            final(self).events() == old(self).events().push(MapEvent::ShootSpecial { thing, line }),
    ;

    /// `P_UseSpecialLine`.
    fn p_use_special_line(&mut self, thing: usize, line: usize, side: i32)
        ensures
            final(self).mobjs_view().len() >= old(self).mobjs_view().len(),
            final(self).events() == old(self).events().push(MapEvent::UseSpecial { thing, line, side }),
    ;

    /// `S_StartSound`.
    fn s_start_sound(&mut self, origin: Option<usize>, sfx: SfxEnum)
        ensures
            final(self).mobjs_view() == old(self).mobjs_view(),
            final(self).rng_view() == old(self).rng_view(),
            final(self).events() == old(self).events().push(MapEvent::Sound { origin, sfx }),
    ;
}

/// An intercept names a line or thing that exists.
pub open spec fn intercept_ok(ic: Intercept, n_lines: int, n_mobjs: int) -> bool {
    match ic.d {
        InterceptData::Line(l) => l < n_lines,
        InterceptData::Thing(t) => t < n_mobjs,
    }
}

/// Every line's sectors exist, and its opening can be computed.
pub open spec fn level_ok(lines: Seq<LineDef>, sectors: Seq<Sector>) -> bool {
    forall|i: int| 0 <= i < lines.len() ==> {
        &&& opening_fits(#[trigger] lines[i], sectors)
        &&& (lines[i].frontsector matches Some(f) ==> f < sectors.len())
        &&& (lines[i].backsector matches Some(b) ==> b < sectors.len())
    }
}

// ---------------------------------------------------------------------------
// Openings and slopes
// ---------------------------------------------------------------------------

/// The opening through a line as `(top, bottom, range)`: all zero for a
/// line without a back side, else from the higher floor to the lower
/// ceiling of its two sectors.
pub open spec fn opening_of(l: LineDef, sectors: Seq<Sector>) -> (Fixed, Fixed, Fixed) {
    if l.sidenum@[1] == -1 {
        (Fixed(0), Fixed(0), Fixed(0))
    } else {
        let front = sectors[l.frontsector->0 as int];
        let back = sectors[l.backsector->0 as int];
        let top = if front.ceilingheight.0 < back.ceilingheight.0 { front.ceilingheight } else { back.ceilingheight };
        let bottom = if front.floorheight.0 > back.floorheight.0 { front.floorheight } else { back.floorheight };
        (top, bottom, Fixed((top.0 - bottom.0) as i32))
    }
}

/// [`opening_of`], computed by `P_LineOpening` on a fresh state.
fn line_opening_of(l: &LineDef, sectors: &[Sector]) -> (r: (Fixed, Fixed, Fixed))
    requires
        opening_fits(*l, sectors@),
    ensures
        r == opening_of(*l, sectors@),
{
    let mut st = MapUtilState::new();
    p_line_opening(&mut st, l, sectors);
    (st.opentop, st.openbottom, st.openrange)
}

/// The slope from the shot's height to height `h` at distance `dist`.
pub open spec fn slope_to(h: i32, shootz: i32, dist: i32) -> i32 {
    fixed_div_spec(h.wrapping_sub(shootz), dist)
}

fn slope(h: i32, shootz: i32, dist: i32) -> (r: i32)
    ensures
        r == slope_to(h, shootz, dist),
{
    Fixed(h.wrapping_sub(shootz)).fixed_div(Fixed(dist)).0
}

// ---------------------------------------------------------------------------
// Aiming
// ---------------------------------------------------------------------------

/// The aim window at the start: `AIM_WINDOW` above and below level.
pub open spec fn initial_window() -> AimWindow {
    AimWindow { topslope: Fixed(AIM_WINDOW), bottomslope: Fixed(-40960i32), aimslope: Fixed(0), linetarget: None }
}

/// One aiming step at line `l`: a one-sided or closed line stops the
/// aim; a line at distance zero is passed; otherwise a floor step narrows
/// the window from below and a ceiling step from above, and the aim goes
/// on while the window stays open.
pub open spec fn aim_line(t: ShotTrace, w: AimWindow, l: LineDef, frac: Fixed, sectors: Seq<Sector>) -> (bool, AimWindow) {
    if l.flags & ML_TWOSIDED == 0 {
        (false, w)
    } else {
        let (top, bottom, range) = opening_of(l, sectors);
        if range.0 <= 0 {
            (false, w)
        } else {
            let dist = fixed_mul_spec(t.range.0, frac.0);
            if dist == 0 {
                (true, w)
            } else {
                let w1 = if l.frontsector is Some && l.backsector is Some {
                    let front = sectors[l.frontsector->0 as int];
                    let back = sectors[l.backsector->0 as int];
                    let bs = slope_to(bottom.0, t.shootz.0, dist);
                    let ts = slope_to(top.0, t.shootz.0, dist);
                    AimWindow {
                        bottomslope: if front.floorheight != back.floorheight && bs > w.bottomslope.0 {
                            Fixed(bs)
                        } else {
                            w.bottomslope
                        },
                        topslope: if front.ceilingheight != back.ceilingheight && ts < w.topslope.0 {
                            Fixed(ts)
                        } else {
                            w.topslope
                        },
                        ..w
                    }
                } else {
                    w
                };
                (w1.bottomslope.0 < w1.topslope.0, w1)
            }
        }
    }
}

/// One aiming step at thing `ti`: the shooter itself, a thing that cannot
/// be shot, one at distance zero and one wholly above or below the window
/// are passed; otherwise it is the target, aimed at the middle of the
/// part of it inside the window.
pub open spec fn aim_thing(t: ShotTrace, w: AimWindow, ti: usize, frac: Fixed, th: MapObject) -> (bool, AimWindow) {
    if ti == t.shooter || th.flags & MF_SHOOTABLE == 0 {
        (true, w)
    } else {
        let dist = fixed_mul_spec(t.range.0, frac.0);
        if dist == 0 {
            (true, w)
        } else {
            let tt = slope_to(th.z.0.wrapping_add(th.height.0), t.shootz.0, dist);
            let tb = slope_to(th.z.0, t.shootz.0, dist);
            if tt < w.bottomslope.0 || tb > w.topslope.0 {
                (true, w)
            } else {
                let top = if tt > w.topslope.0 { w.topslope.0 } else { tt };
                let bottom = if tb < w.bottomslope.0 { w.bottomslope.0 } else { tb };
                (false, AimWindow { aimslope: Fixed(trunc_div(top + bottom, 2) as i32), linetarget: Some(ti), ..w })
            }
        }
    }
}

/// One aiming step (`PTR_AimTraverse`): whether to go on, and the window.
pub open spec fn aim_step(t: ShotTrace, w: AimWindow, ic: Intercept, lines: Seq<LineDef>, sectors: Seq<Sector>, mobjs: Seq<MapObject>) -> (bool, AimWindow) {
    match ic.d {
        InterceptData::Line(l) => aim_line(t, w, lines[l as int], ic.frac, sectors),
        InterceptData::Thing(i) => aim_thing(t, w, i, ic.frac, mobjs[i as int]),
    }
}

/// The aim after handing `ics` to [`aim_step`] in order until it stops.
pub open spec fn aim_run(t: ShotTrace, w: AimWindow, ics: Seq<Intercept>, lines: Seq<LineDef>, sectors: Seq<Sector>, mobjs: Seq<MapObject>) -> AimWindow
    decreases ics.len(),
{
    if ics.len() == 0 {
        w
    } else {
        let (go, w1) = aim_step(t, w, ics[0], lines, sectors, mobjs);
        if go {
            aim_run(t, w1, ics.drop_first(), lines, sectors, mobjs)
        } else {
            w1
        }
    }
}

/// `PTR_AimTraverse`: see [`aim_step`].
pub fn ptr_aim_traverse(t: &ShotTrace, w: &mut AimWindow, ic: &Intercept, lines: &[LineDef], sectors: &[Sector], mobjs: &[MapObject]) -> (r: bool)
    requires
        intercept_ok(*ic, lines@.len() as int, mobjs@.len() as int),
        level_ok(lines@, sectors@),
    ensures
        (r, *final(w)) == aim_step(*t, *old(w), *ic, lines@, sectors@, mobjs@),
{
    match ic.d {
        InterceptData::Line(li) => {
            let l = &lines[li];
            proof {
                assert(opening_fits(lines@[li as int], sectors@));
            }
            if l.flags & ML_TWOSIDED == 0 {
                return false;
            }
            let (top, bottom, range) = line_opening_of(l, sectors);
            if range.0 <= 0 {
                return false;
            }
            let dist = t.range.fixed_mul(ic.frac).0;
            if dist == 0 {
                return true;
            }
            match (l.frontsector, l.backsector) {
                (Some(f), Some(b)) => {
                    let front = &sectors[f];
                    let back = &sectors[b];
                    let bs = slope(bottom.0, t.shootz.0, dist);
                    let ts = slope(top.0, t.shootz.0, dist);
                    if front.floorheight != back.floorheight && bs > w.bottomslope.0 {
                        w.bottomslope = Fixed(bs);
                    }
                    if front.ceilingheight != back.ceilingheight && ts < w.topslope.0 {
                        w.topslope = Fixed(ts);
                    }
                },
                _ => {},
            }
            w.bottomslope.0 < w.topslope.0
        },
        InterceptData::Thing(ti) => {
            let th = &mobjs[ti];
            if ti == t.shooter || th.flags & MF_SHOOTABLE == 0 {
                return true;
            }
            let dist = t.range.fixed_mul(ic.frac).0;
            if dist == 0 {
                return true;
            }
            let tt = slope(th.z.0.wrapping_add(th.height.0), t.shootz.0, dist);
            let tb = slope(th.z.0, t.shootz.0, dist);
            if tt < w.bottomslope.0 || tb > w.topslope.0 {
                return true;
            }
            let top = if tt > w.topslope.0 { w.topslope.0 } else { tt };
            let bottom = if tb < w.bottomslope.0 { w.bottomslope.0 } else { tb };
            let mid = div_toward_zero(top as i64 + bottom as i64, 2);
            w.aimslope = Fixed(mid as i32);
            w.linetarget = Some(ti);
            false
        },
    }
}

// ---------------------------------------------------------------------------
// Traces
// ---------------------------------------------------------------------------

/// The fine angle of an angle.
pub open spec fn fine_angle(a: Angle) -> usize {
    (a.0 >> 19u32) as usize
}

/// The trace of a shot by `source` along `angle` for `range`: from the
/// shooter's centre, at 8 units above its middle, over `range`'s whole
/// units times the angle's cosine and sine.
pub open spec fn trace_of<C: MapContext>(ctx: C, source: usize, angle: Angle, range: Fixed) -> ShotTrace {
    let m = ctx.mobjs_view()[source as int];
    let fine = fine_angle(angle);
    let len = range.0 >> 16i32;
    ShotTrace {
        shooter: source,
        shootz: Fixed(m.z.0.wrapping_add(m.height.0 >> 1i32).wrapping_add(524288i32)),
        range,
        x: m.x,
        y: m.y,
        dx: Fixed((len * ctx.sine_view((fine + 2048) as usize).0) as i32),
        dy: Fixed((len * ctx.sine_view(fine).0) as i32),
        skyflatnum: ctx.sky_view(),
    }
}

/// The intercepts the engine hands a traverser of `t`.
pub open spec fn trace_intercepts<C: MapContext>(ctx: C, t: ShotTrace, flags: i32) -> Seq<Intercept> {
    ctx.path_view(t.x, t.y, Fixed(t.x.0.wrapping_add(t.dx.0)), Fixed(t.y.0.wrapping_add(t.dy.0)), flags)
}

fn make_trace<C: MapContext>(ctx: &C, source: usize, angle: Angle, range: Fixed) -> (t: ShotTrace)
    requires
        source < ctx.mobjs_view().len(),
    ensures
        t == trace_of(*ctx, source, angle, range),
{
    let m = &ctx.mobjs()[source];
    let a = angle.0;
    assert(a >> 19u32 < 8192) by (bit_vector);
    let fine = (a >> 19u32) as usize;
    let raw = range.0;
    let len = raw >> 16i32;
    let cos = ctx.fine_sine(fine + 2048);
    let sin = ctx.fine_sine(fine);
    let l64 = len as i64;
    let c64 = cos.0 as i64;
    let s64 = sin.0 as i64;
    assert(-0x8000 <= l64 <= 0x7fff) by (bit_vector)
        requires
            l64 == (raw >> 16i32) as i64,
    ;
    assert(-0x4000_0000_0000 <= l64 * c64 <= 0x4000_0000_0000) by (nonlinear_arith)
        requires
            -0x8000 <= l64 <= 0x7fff,
            -0x8000_0000 <= c64 <= 0x7fff_ffff,
    ;
    assert(-0x4000_0000_0000 <= l64 * s64 <= 0x4000_0000_0000) by (nonlinear_arith)
        requires
            -0x8000 <= l64 <= 0x7fff,
            -0x8000_0000 <= s64 <= 0x7fff_ffff,
    ;
    ShotTrace {
        shooter: source,
        shootz: Fixed(m.z.0.wrapping_add(m.height.0 >> 1i32).wrapping_add(524288)),
        range,
        x: m.x,
        y: m.y,
        dx: Fixed(#[verifier::truncate] ((l64 * c64) as i32)),
        dy: Fixed(#[verifier::truncate] ((l64 * s64) as i32)),
        skyflatnum: ctx.sky_flatnum(),
    }
}

/// What `P_AimLineAttack` finds: the slope to the target and the target,
/// or a level slope and no target.
pub open spec fn aim_result<C: MapContext>(ctx: C, source: usize, angle: Angle, range: Fixed) -> (Fixed, Option<usize>) {
    let t = trace_of(ctx, source, angle, range);
    let w = aim_run(t, initial_window(), trace_intercepts(ctx, t, PT_ADDLINES | PT_ADDTHINGS), ctx.lines_view(), ctx.sectors_view(), ctx.mobjs_view());
    if w.linetarget is Some {
        (w.aimslope, w.linetarget)
    } else {
        (Fixed(0), None)
    }
}

/// `P_AimLineAttack`: auto-aim from `source_idx` along `angle` up to
/// `distance`; see [`aim_result`].
pub fn p_aim_line_attack<C: MapContext>(source_idx: usize, angle: Angle, distance: Fixed, ctx: &C) -> (r: (Fixed, Option<usize>))
    requires
        source_idx < ctx.mobjs_view().len(),
        level_ok(ctx.lines_view(), ctx.sectors_view()),
    ensures
        r == aim_result(*ctx, source_idx, angle, distance),
{
    let t = make_trace(ctx, source_idx, angle, distance);
    let ics = ctx.path_intercepts(
        t.x,
        t.y,
        Fixed(t.x.0.wrapping_add(t.dx.0)),
        Fixed(t.y.0.wrapping_add(t.dy.0)),
        PT_ADDLINES | PT_ADDTHINGS,
    );
    let lines = ctx.lines();
    let sectors = ctx.sectors();
    let mobjs = ctx.mobjs();
    let ghost w0 = initial_window();
    let mut w = AimWindow { topslope: Fixed(AIM_WINDOW), bottomslope: Fixed(-40960i32), aimslope: Fixed(0), linetarget: None };
    let mut i: usize = 0;
    let mut done = false;
    proof {
        assert(ics@.subrange(0, ics@.len() as int) =~= ics@);
    }
    while i < ics.len() && !done
        invariant
            i <= ics@.len(),
            forall|k: int| 0 <= k < ics@.len() ==> intercept_ok(#[trigger] ics@[k], lines@.len() as int, mobjs@.len() as int),
            level_ok(lines@, sectors@),
            !done ==> aim_run(t, w0, ics@, lines@, sectors@, mobjs@) == aim_run(t, w, ics@.subrange(i as int, ics@.len() as int), lines@, sectors@, mobjs@),
            done ==> aim_run(t, w0, ics@, lines@, sectors@, mobjs@) == w,
        decreases ics@.len() - i,
    {
        proof {
            let s = ics@.subrange(i as int, ics@.len() as int);
            assert(s[0] == ics@[i as int]);
            assert(s.drop_first() =~= ics@.subrange(i + 1, ics@.len() as int));
        }
        let go = ptr_aim_traverse(&t, &mut w, &ics[i], lines, sectors, mobjs);
        if !go {
            done = true;
        }
        i += 1;
    }
    proof {
        assert(ics@.subrange(ics@.len() as int, ics@.len() as int) =~= Seq::<Intercept>::empty());
    }
    if w.linetarget.is_some() {
        (w.aimslope, w.linetarget)
    } else {
        (Fixed(0), None)
    }
}

// ---------------------------------------------------------------------------
// Shooting
// ---------------------------------------------------------------------------

/// The point of the trace at fraction `f`, with the height the shot has
/// climbed by then along `aimslope`.
pub open spec fn shot_point(t: ShotTrace, aimslope: Fixed, f: i32) -> (Fixed, Fixed, Fixed) {
    (
        Fixed(t.x.0.wrapping_add(fixed_mul_spec(t.dx.0, f))),
        Fixed(t.y.0.wrapping_add(fixed_mul_spec(t.dy.0, f))),
        Fixed(t.shootz.0.wrapping_add(fixed_mul_spec(aimslope.0, fixed_mul_spec(t.range.0, f)))),
    )
}

fn shot_point_at(t: &ShotTrace, aimslope: Fixed, f: i32) -> (r: (Fixed, Fixed, Fixed))
    ensures
        r == shot_point(*t, aimslope, f),
{
    (
        Fixed(t.x.0.wrapping_add(t.dx.fixed_mul(Fixed(f)).0)),
        Fixed(t.y.0.wrapping_add(t.dy.fixed_mul(Fixed(f)).0)),
        Fixed(t.shootz.0.wrapping_add(aimslope.fixed_mul(t.range.fixed_mul(Fixed(f))).0)),
    )
}

/// A shot stopped by line `l` at fraction `frac`: the puff goes 4 units
/// short of the wall, unless the wall belongs to the sky (the point is
/// above a sky ceiling, or both sides have sky ceilings).
pub open spec fn hit_line(t: ShotTrace, aimslope: Fixed, l: LineDef, frac: Fixed, sectors: Seq<Sector>) -> ShootHit {
    let f = frac.0.wrapping_sub(fixed_div_spec(262144i32, t.range.0));
    let (x, y, z) = shot_point(t, aimslope, f);
    if l.frontsector is Some && sectors[l.frontsector->0 as int].ceilingpic == t.skyflatnum && (z.0
        > sectors[l.frontsector->0 as int].ceilingheight.0 || (l.backsector is Some
        && sectors[l.backsector->0 as int].ceilingpic == t.skyflatnum)) {
        ShootHit::Sky
    } else {
        ShootHit::Wall { x, y, z }
    }
}

/// One shooting step at line `l`: a one-sided line stops the shot; a
/// two-sided one stops it when its floor step rises above, or its ceiling
/// step comes down below, the shot's slope.
pub open spec fn shoot_line(t: ShotTrace, aimslope: Fixed, l: LineDef, frac: Fixed, sectors: Seq<Sector>) -> (bool, ShootHit) {
    if l.flags & ML_TWOSIDED == 0 {
        (false, hit_line(t, aimslope, l, frac, sectors))
    } else {
        let (top, bottom, range) = opening_of(l, sectors);
        let dist = fixed_mul_spec(t.range.0, frac.0);
        if l.frontsector is Some && l.backsector is Some {
            let front = sectors[l.frontsector->0 as int];
            let back = sectors[l.backsector->0 as int];
            if front.floorheight != back.floorheight && slope_to(bottom.0, t.shootz.0, dist) > aimslope.0 {
                (false, hit_line(t, aimslope, l, frac, sectors))
            } else if front.ceilingheight != back.ceilingheight && slope_to(top.0, t.shootz.0, dist) < aimslope.0 {
                (false, hit_line(t, aimslope, l, frac, sectors))
            } else {
                (true, ShootHit::Nothing)
            }
        } else {
            (true, ShootHit::Nothing)
        }
    }
}

/// One shooting step at thing `ti`: the shooter, a thing that cannot be
/// shot, one at distance zero, and one the shot passes over or under are
/// passed; otherwise the shot hits it 10 units short of where the trace
/// meets it.
pub open spec fn shoot_thing(t: ShotTrace, aimslope: Fixed, ti: usize, frac: Fixed, th: MapObject) -> (bool, ShootHit) {
    if ti == t.shooter || th.flags & MF_SHOOTABLE == 0 {
        (true, ShootHit::Nothing)
    } else {
        let dist = fixed_mul_spec(t.range.0, frac.0);
        if dist == 0 {
            (true, ShootHit::Nothing)
        } else if slope_to(th.z.0.wrapping_add(th.height.0), t.shootz.0, dist) < aimslope.0 {
            (true, ShootHit::Nothing)
        } else if slope_to(th.z.0, t.shootz.0, dist) > aimslope.0 {
            (true, ShootHit::Nothing)
        } else {
            let f = frac.0.wrapping_sub(fixed_div_spec(655360i32, t.range.0));
            let (x, y, z) = shot_point(t, aimslope, f);
            (false, ShootHit::Thing { target: ti, x, y, z, no_blood: th.flags & MF_NOBLOOD != 0 })
        }
    }
}

/// One shooting step (`PTR_ShootTraverse`): whether to go on, and what was
/// hit.
pub open spec fn shoot_step(t: ShotTrace, aimslope: Fixed, ic: Intercept, lines: Seq<LineDef>, sectors: Seq<Sector>, mobjs: Seq<MapObject>) -> (bool, ShootHit) {
    match ic.d {
        InterceptData::Line(l) => shoot_line(t, aimslope, lines[l as int], ic.frac, sectors),
        InterceptData::Thing(i) => shoot_thing(t, aimslope, i, ic.frac, mobjs[i as int]),
    }
}

/// The special lines recorded after a step at `ic`: a special line the
/// shot reaches is recorded while fewer than [`MAX_SHOOT_SPECIALS`] are.
pub open spec fn recorded_specials(specials: Seq<usize>, ic: Intercept, lines: Seq<LineDef>) -> Seq<usize> {
    match ic.d {
        InterceptData::Line(l) => if lines[l as int].special != 0 && specials.len() < MAX_SHOOT_SPECIALS {
            specials.push(l)
        } else {
            specials
        },
        InterceptData::Thing(_) => specials,
    }
}

/// What a shot along `t` at `aimslope` hit, and the special lines it
/// reached, after handing `ics` to [`shoot_step`] in order until it stops.
pub open spec fn shoot_run(t: ShotTrace, aimslope: Fixed, ics: Seq<Intercept>, specials: Seq<usize>, lines: Seq<LineDef>, sectors: Seq<Sector>, mobjs: Seq<MapObject>) -> (ShootHit, Seq<usize>)
    decreases ics.len(),
{
    if ics.len() == 0 {
        (ShootHit::Nothing, specials)
    } else {
        let sp = recorded_specials(specials, ics[0], lines);
        let (go, hit) = shoot_step(t, aimslope, ics[0], lines, sectors, mobjs);
        if go {
            shoot_run(t, aimslope, ics.drop_first(), sp, lines, sectors, mobjs)
        } else {
            (hit, sp)
        }
    }
}

/// `PTR_ShootTraverse`: records a reached special line in `specials` and
/// returns whether to go on and what was hit; see [`shoot_step`].
pub fn ptr_shoot_traverse(t: &ShotTrace, aimslope: Fixed, ic: &Intercept, specials: &mut Vec<usize>, lines: &[LineDef], sectors: &[Sector], mobjs: &[MapObject]) -> (r: (bool, ShootHit))
    requires
        intercept_ok(*ic, lines@.len() as int, mobjs@.len() as int),
        level_ok(lines@, sectors@),
    ensures
        r == shoot_step(*t, aimslope, *ic, lines@, sectors@, mobjs@),
        final(specials)@ == recorded_specials(old(specials)@, *ic, lines@),
{
    match ic.d {
        InterceptData::Line(li) => {
            let l = &lines[li];
            proof {
                assert(opening_fits(lines@[li as int], sectors@));
            }
            if l.special != 0 && specials.len() < MAX_SHOOT_SPECIALS {
                specials.push(li);
            }
            if l.flags & ML_TWOSIDED == 0 {
                return (false, shoot_hit_line(t, aimslope, l, ic.frac, sectors));
            }
            let (top, bottom, _range) = line_opening_of(l, sectors);
            let dist = t.range.fixed_mul(ic.frac).0;
            match (l.frontsector, l.backsector) {
                (Some(f), Some(b)) => {
                    let front = &sectors[f];
                    let back = &sectors[b];
                    if front.floorheight != back.floorheight && slope(bottom.0, t.shootz.0, dist) > aimslope.0 {
                        return (false, shoot_hit_line(t, aimslope, l, ic.frac, sectors));
                    }
                    if front.ceilingheight != back.ceilingheight && slope(top.0, t.shootz.0, dist) < aimslope.0 {
                        return (false, shoot_hit_line(t, aimslope, l, ic.frac, sectors));
                    }
                    (true, ShootHit::Nothing)
                },
                _ => (true, ShootHit::Nothing),
            }
        },
        InterceptData::Thing(ti) => (ptr_shoot_traverse_thing(t, aimslope, ti, ic.frac, &mobjs[ti]), ShootHit::Nothing).0,
    }
}

/// The wall hit of [`hit_line`].
fn shoot_hit_line(t: &ShotTrace, aimslope: Fixed, l: &LineDef, frac: Fixed, sectors: &[Sector]) -> (r: ShootHit)
    requires
        l.frontsector matches Some(f) ==> f < sectors@.len(),
        l.backsector matches Some(b) ==> b < sectors@.len(),
    ensures
        r == hit_line(*t, aimslope, *l, frac, sectors@),
{
    let f = frac.0.wrapping_sub(Fixed(262144).fixed_div(t.range).0);
    let (x, y, z) = shot_point_at(t, aimslope, f);
    if let Some(fi) = l.frontsector {
        let front = &sectors[fi];
        if front.ceilingpic == t.skyflatnum {
            if z.0 > front.ceilingheight.0 {
                return ShootHit::Sky;
            }
            if let Some(bi) = l.backsector {
                if sectors[bi].ceilingpic == t.skyflatnum {
                    return ShootHit::Sky;
                }
            }
        }
    }
    ShootHit::Wall { x, y, z }
}

/// The thing step of [`shoot_thing`].
fn ptr_shoot_traverse_thing(t: &ShotTrace, aimslope: Fixed, ti: usize, frac: Fixed, th: &MapObject) -> (r: (bool, ShootHit))
    ensures
        r == shoot_thing(*t, aimslope, ti, frac, *th),
{
    if ti == t.shooter || th.flags & MF_SHOOTABLE == 0 {
        return (true, ShootHit::Nothing);
    }
    let dist = t.range.fixed_mul(frac).0;
    if dist == 0 {
        return (true, ShootHit::Nothing);
    }
    if slope(th.z.0.wrapping_add(th.height.0), t.shootz.0, dist) < aimslope.0 {
        return (true, ShootHit::Nothing);
    }
    if slope(th.z.0, t.shootz.0, dist) > aimslope.0 {
        return (true, ShootHit::Nothing);
    }
    let f = frac.0.wrapping_sub(Fixed(655360).fixed_div(t.range).0);
    let (x, y, z) = shot_point_at(t, aimslope, f);
    (false, ShootHit::Thing { target: ti, x, y, z, no_blood: th.flags & MF_NOBLOOD != 0 })
}

/// What a shot by `source` along `angle` over `range` at `slope` hits, and
/// the special lines it reaches.
pub open spec fn shot_result<C: MapContext>(ctx: C, source: usize, angle: Angle, range: Fixed, slope: Fixed) -> (ShootHit, Seq<usize>) {
    let t = trace_of(ctx, source, angle, range);
    shoot_run(t, slope, trace_intercepts(ctx, t, PT_ADDLINES | PT_ADDTHINGS), Seq::empty(), ctx.lines_view(), ctx.sectors_view(), ctx.mobjs_view())
}

/// The shot special lines activated by `thing`, in order.
pub open spec fn shoot_special_events(thing: usize, specials: Seq<usize>) -> Seq<MapEvent> {
    specials.map_values(|l: usize| MapEvent::ShootSpecial { thing, line: l })
}

/// What a hit asks of the engine: a puff at a wall; at a thing, a puff if
/// it does not bleed, else blood, then the damage if there is any.
pub open spec fn hit_events(source: usize, hit: ShootHit, damage: i32, at_melee: bool) -> Seq<MapEvent> {
    match hit {
        ShootHit::Wall { x, y, z } => seq![MapEvent::SpawnPuff { x, y, z, at_melee }],
        ShootHit::Thing { target, x, y, z, no_blood } => (if no_blood {
            seq![MapEvent::SpawnPuff { x, y, z, at_melee }]
        } else {
            seq![MapEvent::SpawnBlood { x, y, z, damage }]
        }) + (if damage != 0 {
            seq![MapEvent::Damage { target, inflictor: Some(source), source: Some(source), damage }]
        } else {
            Seq::empty()
        }),
        _ => Seq::empty(),
    }
}

/// The thing a shot damaged, if any.
pub open spec fn shot_target(hit: ShootHit, damage: i32) -> Option<usize> {
    match hit {
        ShootHit::Thing { target, .. } => if damage != 0 { Some(target) } else { None },
        _ => None,
    }
}

/// `P_LineAttack`: fire a hitscan shot from `source_idx` along `angle` for
/// `distance` at `slope`. The special lines it reached are shot, in
/// order, then the hit is dealt with (see [`hit_events`]); returns the
/// thing damaged, if any.
pub fn p_line_attack<C: MapContext>(source_idx: usize, angle: Angle, distance: Fixed, slope: Fixed, damage: i32, ctx: &mut C) -> (r: Option<usize>)
    requires
        source_idx < old(ctx).mobjs_view().len(),
        level_ok(old(ctx).lines_view(), old(ctx).sectors_view()),
    ensures
        final(ctx).events() == old(ctx).events() + shoot_special_events(source_idx, shot_result(*old(ctx), source_idx, angle, distance, slope).1)
            + hit_events(source_idx, shot_result(*old(ctx), source_idx, angle, distance, slope).0, damage, distance.0 == MELEERANGE),
        r == shot_target(shot_result(*old(ctx), source_idx, angle, distance, slope).0, damage),
{
    let ghost pre = *ctx;
    let t = make_trace(ctx, source_idx, angle, distance);
    let ics = ctx.path_intercepts(
        t.x,
        t.y,
        Fixed(t.x.0.wrapping_add(t.dx.0)),
        Fixed(t.y.0.wrapping_add(t.dy.0)),
        PT_ADDLINES | PT_ADDTHINGS,
    );
    let mut specials: Vec<usize> = Vec::new();
    let mut hit = ShootHit::Nothing;
    {
        let lines = ctx.lines();
        let sectors = ctx.sectors();
        let mobjs = ctx.mobjs();
        let mut i: usize = 0;
        let mut done = false;
        proof {
            assert(ics@.subrange(0, ics@.len() as int) =~= ics@);
        }
        while i < ics.len() && !done
            invariant
                i <= ics@.len(),
                forall|k: int| 0 <= k < ics@.len() ==> intercept_ok(#[trigger] ics@[k], lines@.len() as int, mobjs@.len() as int),
                level_ok(lines@, sectors@),
                !done ==> shoot_run(t, slope, ics@, Seq::empty(), lines@, sectors@, mobjs@)
                    == shoot_run(t, slope, ics@.subrange(i as int, ics@.len() as int), specials@, lines@, sectors@, mobjs@),
                done ==> shoot_run(t, slope, ics@, Seq::empty(), lines@, sectors@, mobjs@) == (hit, specials@),
                !done ==> hit == ShootHit::Nothing,
            decreases ics@.len() - i,
        {
            proof {
                let s = ics@.subrange(i as int, ics@.len() as int);
                assert(s[0] == ics@[i as int]);
                assert(s.drop_first() =~= ics@.subrange(i + 1, ics@.len() as int));
            }
            let (go, h) = ptr_shoot_traverse(&t, slope, &ics[i], &mut specials, lines, sectors, mobjs);
            if !go {
                done = true;
                hit = h;
            }
            i += 1;
        }
        proof {
            assert(ics@.subrange(ics@.len() as int, ics@.len() as int) =~= Seq::<Intercept>::empty());
        }
    }
    assert((hit, specials@) == shot_result(pre, source_idx, angle, distance, slope));
    let ghost ev0 = ctx.events();
    let mut k: usize = 0;
    while k < specials.len()
        invariant
            k <= specials@.len(),
            ctx.events() == ev0 + shoot_special_events(source_idx, specials@.take(k as int)),
        decreases specials@.len() - k,
    {
        ctx.p_shoot_special_line(source_idx, specials[k]);
        proof {
            assert(shoot_special_events(source_idx, specials@.take(k + 1)) =~= shoot_special_events(source_idx, specials@.take(k as int)).push(
                MapEvent::ShootSpecial { thing: source_idx, line: specials@[k as int] },
            ));
        }
        k += 1;
    }
    proof {
        assert(specials@.take(specials@.len() as int) =~= specials@);
    }
    let ghost ev1 = ctx.events();
    let at_melee = distance.0 == MELEERANGE;
    match hit {
        ShootHit::Wall { x, y, z } => {
            ctx.p_spawn_puff(x, y, z, at_melee);
            proof {
                assert(ctx.events() =~= ev1 + hit_events(source_idx, hit, damage, at_melee));
            }
            None
        },
        ShootHit::Thing { target, x, y, z, no_blood } => {
            if no_blood {
                ctx.p_spawn_puff(x, y, z, at_melee);
            } else {
                ctx.p_spawn_blood(x, y, z, damage);
            }
            if damage != 0 {
                ctx.p_damage_mobj(target, Some(source_idx), Some(source_idx), damage);
                proof {
                    assert(ctx.events() =~= ev1 + hit_events(source_idx, hit, damage, at_melee));
                }
                Some(target)
            } else {
                proof {
                    assert(ctx.events() =~= ev1 + hit_events(source_idx, hit, damage, at_melee));
                }
                None
            }
        },
        _ => {
            proof {
                assert(ctx.events() =~= ev1 + hit_events(source_idx, hit, damage, at_melee));
            }
            None
        },
    }
}

// ---------------------------------------------------------------------------
// Using lines
// ---------------------------------------------------------------------------

/// One use step (`PTR_UseTraverse`) for a user at `(x, y)`: a line without
/// a special is looked through while it has an opening and otherwise stops
/// the use with a grunt; the first special line reached is used, from the
/// side the user stands on; things are passed.
pub open spec fn use_step(x: i32, y: i32, ic: Intercept, lines: Seq<LineDef>, sectors: Seq<Sector>, verts: Seq<Vertex>) -> (bool, UseResult) {
    match ic.d {
        InterceptData::Line(li) => {
            let l = lines[li as int];
            if l.special == 0 {
                if opening_of(l, sectors).2.0 <= 0 {
                    (false, UseResult::NoWay)
                } else {
                    (true, UseResult::Nothing)
                }
            } else {
                (false, UseResult::UseSpecial { line: li, side: point_on_line_side(x, y, l, verts[l.v1 as int]) })
            }
        },
        InterceptData::Thing(_) => (true, UseResult::Nothing),
    }
}

/// What a use trace finds, handing `ics` to [`use_step`] until it stops.
pub open spec fn use_run(x: i32, y: i32, ics: Seq<Intercept>, lines: Seq<LineDef>, sectors: Seq<Sector>, verts: Seq<Vertex>) -> UseResult
    decreases ics.len(),
{
    if ics.len() == 0 {
        UseResult::Nothing
    } else {
        let (go, res) = use_step(x, y, ics[0], lines, sectors, verts);
        if go {
            use_run(x, y, ics.drop_first(), lines, sectors, verts)
        } else {
            res
        }
    }
}

/// Every special line's first vertex exists, and the side of it that
/// `(x, y)` is on can be computed.
pub open spec fn use_fits(lines: Seq<LineDef>, verts: Seq<Vertex>, x: i32, y: i32) -> bool {
    forall|i: int| 0 <= i < lines.len() && #[trigger] lines[i].special != 0 ==> {
        &&& lines[i].v1 < verts.len()
        &&& point_side_fits(x, y, lines[i], verts[lines[i].v1 as int])
    }
}

/// `PTR_UseTraverse`: see [`use_step`].
pub fn ptr_use_traverse(x: Fixed, y: Fixed, ic: &Intercept, lines: &[LineDef], sectors: &[Sector], verts: &[Vertex]) -> (r: (bool, UseResult))
    requires
        ic.d matches InterceptData::Line(l) ==> l < lines@.len(),
        level_ok(lines@, sectors@),
        use_fits(lines@, verts@, x.0, y.0),
    ensures
        r == use_step(x.0, y.0, *ic, lines@, sectors@, verts@),
{
    match ic.d {
        InterceptData::Line(li) => {
            let l = &lines[li];
            proof {
                assert(opening_fits(lines@[li as int], sectors@));
            }
            if l.special == 0 {
                let (_top, _bottom, range) = line_opening_of(l, sectors);
                if range.0 <= 0 {
                    (false, UseResult::NoWay)
                } else {
                    (true, UseResult::Nothing)
                }
            } else {
                proof {
                    assert(lines@[li as int].special != 0);
                }
                let side = p_point_on_line_side(x, y, l, verts);
                (false, UseResult::UseSpecial { line: li, side })
            }
        },
        InterceptData::Thing(_) => (true, UseResult::Nothing),
    }
}

/// What a player's use asks of the engine: for a player with a thing,
/// the use trace runs 64 units ahead of it; a grunt for a blocked way,
/// or the special line found is used.
pub open spec fn use_events<C: MapContext>(ctx: C, player: usize) -> Seq<MapEvent> {
    match ctx.players_view()[player as int] {
        None => Seq::empty(),
        Some(mo) => {
            let m = ctx.mobjs_view()[mo as int];
            let fine = fine_angle(m.angle);
            let x2 = Fixed(m.x.0.wrapping_add((64 * ctx.sine_view((fine + 2048) as usize).0) as i32));
            let y2 = Fixed(m.y.0.wrapping_add((64 * ctx.sine_view(fine).0) as i32));
            match use_run(m.x.0, m.y.0, ctx.path_view(m.x, m.y, x2, y2, PT_ADDLINES), ctx.lines_view(), ctx.sectors_view(), ctx.vertexes_view()) {
                UseResult::Nothing => Seq::empty(),
                UseResult::NoWay => seq![MapEvent::Sound { origin: Some(mo), sfx: SfxEnum::sfx_noway }],
                UseResult::UseSpecial { line, side } => seq![MapEvent::UseSpecial { thing: mo, line, side }],
            }
        },
    }
}

/// `P_UseLines`: player `player_idx` uses what is in front of it; see
/// [`use_events`].
pub fn p_use_lines<C: MapContext>(player_idx: usize, ctx: &mut C)
    requires
        player_idx < old(ctx).players_view().len(),
        level_ok(old(ctx).lines_view(), old(ctx).sectors_view()),
        old(ctx).players_view()[player_idx as int] matches Some(mo) ==> {
            &&& mo < old(ctx).mobjs_view().len()
            &&& use_fits(old(ctx).lines_view(), old(ctx).vertexes_view(), old(ctx).mobjs_view()[mo as int].x.0, old(ctx).mobjs_view()[mo as int].y.0)
        },
    ensures
        final(ctx).events() == old(ctx).events() + use_events(*old(ctx), player_idx),
{
    let ghost pre = *ctx;
    let mo_idx = match ctx.player_mobj(player_idx) {
        Some(m) => m,
        None => {
            assert(ctx.events() =~= pre.events() + use_events(pre, player_idx));
            return;
        },
    };
    let mo = &ctx.mobjs()[mo_idx];
    let x = mo.x;
    let y = mo.y;
    let a = mo.angle.0;
    assert(a >> 19u32 < 8192) by (bit_vector);
    let fine = (a >> 19u32) as usize;
    let cos = ctx.fine_sine(fine + 2048).0 as i64;
    let sin = ctx.fine_sine(fine).0 as i64;
    let x2 = Fixed(x.0.wrapping_add(#[verifier::truncate] ((64 * cos) as i32)));
    let y2 = Fixed(y.0.wrapping_add(#[verifier::truncate] ((64 * sin) as i32)));
    let ics = ctx.path_intercepts(x, y, x2, y2, PT_ADDLINES);
    let mut res = UseResult::Nothing;
    {
        let lines = ctx.lines();
        let sectors = ctx.sectors();
        let verts = ctx.vertexes();
        let ghost n_mobjs = ctx.mobjs_view().len();
        let mut i: usize = 0;
        let mut done = false;
        proof {
            assert(ics@.subrange(0, ics@.len() as int) =~= ics@);
        }
        while i < ics.len() && !done
            invariant
                i <= ics@.len(),
                forall|k: int| 0 <= k < ics@.len() ==> intercept_ok(#[trigger] ics@[k], lines@.len() as int, n_mobjs as int),
                level_ok(lines@, sectors@),
                use_fits(lines@, verts@, x.0, y.0),
                !done ==> use_run(x.0, y.0, ics@, lines@, sectors@, verts@) == use_run(x.0, y.0, ics@.subrange(i as int, ics@.len() as int), lines@, sectors@, verts@),
                done ==> use_run(x.0, y.0, ics@, lines@, sectors@, verts@) == res,
                !done ==> res == UseResult::Nothing,
            decreases ics@.len() - i,
        {
            proof {
                let s = ics@.subrange(i as int, ics@.len() as int);
                assert(s[0] == ics@[i as int]);
                assert(s.drop_first() =~= ics@.subrange(i + 1, ics@.len() as int));
                assert(intercept_ok(ics@[i as int], lines@.len() as int, n_mobjs as int));
            }
            let (go, r) = ptr_use_traverse(x, y, &ics[i], lines, sectors, verts);
            if !go {
                done = true;
                res = r;
            }
            i += 1;
        }
        proof {
            assert(ics@.subrange(ics@.len() as int, ics@.len() as int) =~= Seq::<Intercept>::empty());
        }
    }
    match res {
        UseResult::Nothing => {},
        UseResult::NoWay => {
            ctx.s_start_sound(Some(mo_idx), SfxEnum::sfx_noway);
        },
        UseResult::UseSpecial { line, side } => {
            ctx.p_use_special_line(mo_idx, line, side);
        },
    }
    assert(ctx.events() =~= pre.events() + use_events(pre, player_idx));
}

// ---------------------------------------------------------------------------
// Explosions
// ---------------------------------------------------------------------------

/// The reach of an explosion of `damage`, as the engine computes it:
/// `(damage + MAXRADIUS) << FRACBITS` in 32-bit arithmetic.
pub open spec fn blast_reach(damage: i32) -> i32 {
    (damage.wrapping_add(MAXRADIUS) as int * 65536) as i32
}

/// `PIT_RadiusAttack`: the damage an explosion of `damage` at `(x, y)`
/// does to `thing`, if any. Things that cannot be shot, and the two boss
/// types, take none; others take `damage` less their distance in whole
/// units (the larger axis offset, less their radius, at least 0), when
/// that is positive.
pub open spec fn radius_damage(thing: MapObject, x: i32, y: i32, damage: i32) -> Option<i32> {
    if thing.flags & MF_SHOOTABLE == 0 || thing.type_ == MT_CYBORG || thing.type_ == MT_SPIDER {
        None
    } else {
        let dx = wrapping_abs(thing.x.0.wrapping_sub(x)) as i32;
        let dy = wrapping_abs(thing.y.0.wrapping_sub(y)) as i32;
        let d0 = if dx > dy { dx } else { dy };
        let d1 = d0.wrapping_sub(thing.radius.0) >> 16i32;
        let d = if d1 < 0 { 0 } else { d1 };
        if d >= damage {
            None
        } else {
            Some((damage - d) as i32)
        }
    }
}

fn wrapping_abs_of(v: i32) -> (r: i32)
    ensures
        r == wrapping_abs(v),
{
    if v == i32::MIN {
        v
    } else if v < 0 {
        -v
    } else {
        v
    }
}

/// `PIT_RadiusAttack`: see [`radius_damage`].
pub fn pit_radius_attack(thing: &MapObject, x: Fixed, y: Fixed, damage: i32) -> (r: Option<i32>)
    ensures
        r == radius_damage(*thing, x.0, y.0, damage),
{
    if thing.flags & MF_SHOOTABLE == 0 || thing.type_ == MT_CYBORG || thing.type_ == MT_SPIDER {
        return None;
    }
    let dx = wrapping_abs_of(thing.x.0.wrapping_sub(x.0));
    let dy = wrapping_abs_of(thing.y.0.wrapping_sub(y.0));
    let d0 = if dx > dy { dx } else { dy };
    let d1 = d0.wrapping_sub(thing.radius.0) >> 16i32;
    let d = if d1 < 0 { 0 } else { d1 };
    if d >= damage {
        None
    } else {
        Some(damage - d)
    }
}

/// Every request in `e` is damage by `spot` for `source`, of more than
/// nothing and at most `damage`.
pub open spec fn blast_events(e: Seq<MapEvent>, spot: usize, source: usize, damage: i32) -> bool {
    forall|i: int| 0 <= i < e.len() ==> (#[trigger] e[i] matches MapEvent::Damage { inflictor, source: by, damage: d, .. }
        && inflictor == Some(spot) && by == Some(source) && 0 < d <= damage)
}

/// The blockmap rows or columns an explosion reaching `reach` around `c`
/// covers, on a blockmap whose origin is `org`.
pub open spec fn blast_span(c: i32, reach: i32, org: i32) -> (i32, i32) {
    (c.wrapping_sub(reach).wrapping_sub(org) >> 23i32, c.wrapping_add(reach).wrapping_sub(org) >> 23i32)
}

/// The cells `(x, y)` of row `y` with `xl <= x < x_end` that lie on a
/// `w` by `h` blockmap, left to right.
pub open spec fn row_cells(y: int, xl: int, x_end: int, w: int, h: int) -> Seq<(int, int)>
    decreases x_end - xl,
{
    if x_end <= xl {
        Seq::empty()
    } else {
        let p = row_cells(y, xl, x_end - 1, w, h);
        if 0 <= x_end - 1 < w && 0 <= y < h {
            p.push((x_end - 1, y))
        } else {
            p
        }
    }
}

/// The cells of rows `yl <= y < y_end`, columns `xl..=xh`, that lie on a
/// `w` by `h` blockmap, row by row from the bottom.
pub open spec fn span_cells(yl: int, y_end: int, xl: int, xh: int, w: int, h: int) -> Seq<(int, int)>
    decreases y_end - yl,
{
    if y_end <= yl {
        Seq::empty()
    } else {
        span_cells(yl, y_end - 1, xl, xh, w, h) + row_cells(y_end - 1, xl, xh + 1, w, h)
    }
}

/// Entries `a..b` of `ts` are the things of `cell` as listed in state `c`.
pub open spec fn cell_listed<C: MapContext>(c: C, ts: Seq<usize>, a: int, b: int, cell: (int, int)) -> bool {
    let l = c.cell_view(cell.0 as i32, cell.1 as i32);
    &&& 0 <= a <= b <= ts.len()
    &&& b - a == l.len()
    &&& forall|j: int| a <= j < b ==> #[trigger] ts[j] == l[j - a]
}

/// A walk over `cells` in order: the things visited, `ts`, are the lists
/// of the cells, each read (from `ss`, the state before each visit) when
/// the walk reached that cell; `offs[k]` is where cell `k`'s things start.
pub open spec fn walked<C: MapContext>(ss: Seq<C>, ts: Seq<usize>, cells: Seq<(int, int)>, offs: Seq<int>) -> bool {
    &&& ss.len() == ts.len() + 1
    &&& offs.len() == cells.len() + 1
    &&& offs[0] == 0
    &&& offs[cells.len() as int] == ts.len()
    &&& forall|k: int| 0 <= k < cells.len() ==> #[trigger] cell_listed(ss[offs[k]], ts, offs[k], offs[k + 1], cells[k])
}

/// One thing of an explosion: from state `c0` to `c1`, thing `t` takes
/// its [`radius_damage`] from the blast at `(x, y)` when it can see the
/// spot, and nothing else is requested.
pub open spec fn blast_step<C: MapContext>(c0: C, c1: C, t: usize, spot: usize, source: usize, x: i32, y: i32, damage: i32) -> bool {
    &&& t < c0.mobjs_view().len()
    &&& c1.mobjs_view().len() >= c0.mobjs_view().len()
    &&& match radius_damage(c0.mobjs_view()[t as int], x, y, damage) {
        Some(d) => if c0.sight_view(t, spot) {
            c1.events() == c0.events().push(MapEvent::Damage { target: t, inflictor: Some(spot), source: Some(source), damage: d })
        } else {
            c1.events() == c0.events() && c1.mobjs_view() == c0.mobjs_view()
        },
        None => c1 == c0,
    }
}

/// The cells an explosion at thing `spot` of state `c` covers.
pub open spec fn blast_cells<C: MapContext>(c: C, spot: usize, damage: i32) -> Seq<(int, int)> {
    let m = c.mobjs_view()[spot as int];
    let reach = blast_reach(damage);
    let (yl, yh) = blast_span(m.y.0, reach, c.orgy_view().0);
    let (xl, xh) = blast_span(m.x.0, reach, c.orgx_view().0);
    span_cells(yl as int, yh + 1, xl as int, xh as int, c.width_view() as int, c.height_view() as int)
}

/// A whole explosion from `pre` to `post`: the states `ss` and things `ts`
/// of a walk over [`blast_cells`], each visit a [`blast_step`].
pub open spec fn blast_run<C: MapContext>(pre: C, post: C, ss: Seq<C>, ts: Seq<usize>, offs: Seq<int>, spot: usize, source: usize, damage: i32) -> bool {
    let m = pre.mobjs_view()[spot as int];
    &&& walked(ss, ts, blast_cells(pre, spot, damage), offs)
    &&& ss[0] == pre
    &&& ss[ts.len() as int] == post
    &&& forall|i: int| 0 <= i < ts.len() ==> #[trigger] blast_step(ss[i], ss[i + 1], ts[i], spot, source, m.x.0, m.y.0, damage)
}

/// `P_RadiusAttack`: an explosion at thing `spot_idx` set off by
/// `source_idx` hurts each thing in the blockmap cells it reaches by
/// [`radius_damage`], when the thing can see the spot. The cells are
/// walked row by row ([`blast_cells`]), each cell's things in list order,
/// as [`blast_run`] states.
pub fn p_radius_attack<C: MapContext>(spot_idx: usize, source_idx: usize, damage: i32, ctx: &mut C)
    requires
        spot_idx < old(ctx).mobjs_view().len(),
    ensures
        final(ctx).events().len() >= old(ctx).events().len(),
        final(ctx).events().take(old(ctx).events().len() as int) == old(ctx).events(),
        blast_events(final(ctx).events().skip(old(ctx).events().len() as int), spot_idx, source_idx, damage),
        final(ctx).mobjs_view().len() >= old(ctx).mobjs_view().len(),
        exists|ss: Seq<C>, ts: Seq<usize>, offs: Seq<int>| #[trigger] blast_run(*old(ctx), *final(ctx), ss, ts, offs, spot_idx, source_idx, damage),
{
    let ghost pre = *ctx;
    let reach = (#[verifier::truncate] ((damage.wrapping_add(MAXRADIUS) as i64 * 65536) as i32));
    let spot = &ctx.mobjs()[spot_idx];
    let sx = spot.x;
    let sy = spot.y;
    let orgx = ctx.bmap_orgx();
    let orgy = ctx.bmap_orgy();
    let bw = ctx.bmap_width();
    let bh = ctx.bmap_height();
    let yl = sy.0.wrapping_sub(reach).wrapping_sub(orgy.0) >> 23i32;
    let yh = sy.0.wrapping_add(reach).wrapping_sub(orgy.0) >> 23i32;
    let xl = sx.0.wrapping_sub(reach).wrapping_sub(orgx.0) >> 23i32;
    let xh = sx.0.wrapping_add(reach).wrapping_sub(orgx.0) >> 23i32;
    proof {
        assert(reach == blast_reach(damage));
        assert((yl, yh) == blast_span(sy.0, reach, orgy.0));
        assert((xl, xh) == blast_span(sx.0, reach, orgx.0));
    }
    let ghost mut ss: Seq<C> = seq![*ctx];
    let ghost mut ts: Seq<usize> = Seq::empty();
    let ghost mut offs: Seq<int> = seq![0int];
    let ghost mut cells: Seq<(int, int)> = Seq::empty();
    let mut by: i64 = yl as i64;
    while by <= yh as i64
        invariant
            yl as i64 <= by,
            by <= yh as i64 + 1 || by == yl as i64,
            pre == *old(ctx),
            spot_idx < pre.mobjs_view().len(),
            sx == pre.mobjs_view()[spot_idx as int].x,
            sy == pre.mobjs_view()[spot_idx as int].y,
            ctx.events().len() >= pre.events().len(),
            ctx.events().take(pre.events().len() as int) == pre.events(),
            blast_events(ctx.events().skip(pre.events().len() as int), spot_idx, source_idx, damage),
            ctx.mobjs_view().len() >= pre.mobjs_view().len(),
            walked(ss, ts, cells, offs),
            ss[0] == pre,
            ss[ts.len() as int] == *ctx,
            forall|i: int| 0 <= i < ts.len() ==> #[trigger] blast_step(ss[i], ss[i + 1], ts[i], spot_idx, source_idx, sx.0, sy.0, damage),
            cells == span_cells(yl as int, by as int, xl as int, xh as int, bw as int, bh as int),
        decreases yh as i64 + 1 - by,
    {
        let mut bx: i64 = xl as i64;
        while bx <= xh as i64
            invariant
                i32::MIN <= by <= i32::MAX,
                yl as i64 <= by <= yh as i64,
                xl as i64 <= bx,
                bx <= xh as i64 + 1 || bx == xl as i64,
                pre == *old(ctx),
                spot_idx < pre.mobjs_view().len(),
                ctx.events().len() >= pre.events().len(),
                ctx.events().take(pre.events().len() as int) == pre.events(),
                blast_events(ctx.events().skip(pre.events().len() as int), spot_idx, source_idx, damage),
                ctx.mobjs_view().len() >= pre.mobjs_view().len(),
                walked(ss, ts, cells, offs),
                ss[0] == pre,
                ss[ts.len() as int] == *ctx,
                forall|i: int| 0 <= i < ts.len() ==> #[trigger] blast_step(ss[i], ss[i + 1], ts[i], spot_idx, source_idx, sx.0, sy.0, damage),
                cells == span_cells(yl as int, by as int, xl as int, xh as int, bw as int, bh as int) + row_cells(by as int, xl as int, bx as int, bw as int, bh as int),
            decreases xh as i64 + 1 - bx,
        {
            let ghost cells0 = cells;
            if bx >= 0 && bx < bw as i64 && by >= 0 && by < bh as i64 {
                let things = ctx.cell_things(bx as i32, by as i32);
                let ghost c_cell = *ctx;
                let ghost off0 = ts.len() as int;
                proof {
                    assert(ss.subrange(0, off0 + 1) =~= ss);
                    assert(ts.subrange(0, off0) =~= ts);
                }
                let mut k: usize = 0;
                while k < things.len()
                    invariant
                        forall|j: int| 0 <= j < things@.len() ==> #[trigger] things@[j] < ctx.mobjs_view().len(),
                        things@ == c_cell.cell_view(bx as i32, by as i32),
                        pre == *old(ctx),
                        spot_idx < pre.mobjs_view().len(),
                        ctx.events().len() >= pre.events().len(),
                        ctx.events().take(pre.events().len() as int) == pre.events(),
                        blast_events(ctx.events().skip(pre.events().len() as int), spot_idx, source_idx, damage),
                        ctx.mobjs_view().len() >= pre.mobjs_view().len(),
                        walked(ss.subrange(0, off0 + 1), ts.subrange(0, off0), cells0, offs),
                        0 <= off0 <= ts.len(),
                        ss.len() == ts.len() + 1,
                        ss[off0] == c_cell,
                        ts.len() == off0 + k,
                        k <= things@.len(),
                        forall|j: int| off0 <= j < ts.len() ==> #[trigger] ts[j] == things@[j - off0],
                        ss[0] == pre,
                        ss[ts.len() as int] == *ctx,
                        forall|i: int| 0 <= i < ts.len() ==> #[trigger] blast_step(ss[i], ss[i + 1], ts[i], spot_idx, source_idx, sx.0, sy.0, damage),
                    decreases things@.len() - k,
                {
                    let t = things[k];
                    let ghost c0 = *ctx;
                    let m = ctx.mobjs()[t];
                    if let Some(d) = pit_radius_attack(&m, sx, sy, damage) {
                        if ctx.p_check_sight(t, spot_idx) {
                            let ghost before = ctx.events();
                            ctx.p_damage_mobj(t, Some(spot_idx), Some(source_idx), d);
                            proof {
                                assert(ctx.events().take(pre.events().len() as int) =~= before.take(pre.events().len() as int));
                                assert(ctx.events().skip(pre.events().len() as int) =~= before.skip(pre.events().len() as int).push(
                                    MapEvent::Damage { target: t, inflictor: Some(spot_idx), source: Some(source_idx), damage: d },
                                ));
                            }
                        }
                    }
                    proof {
                        assert(blast_step(c0, *ctx, t, spot_idx, source_idx, sx.0, sy.0, damage));
                        let ss1 = ss.push(*ctx);
                        let ts1 = ts.push(t);
                        assert(ss1.subrange(0, off0 + 1) =~= ss.subrange(0, off0 + 1));
                        assert(ts1.subrange(0, off0) =~= ts.subrange(0, off0));
                        assert forall|i: int| 0 <= i < ts1.len() implies #[trigger] blast_step(ss1[i], ss1[i + 1], ts1[i], spot_idx, source_idx, sx.0, sy.0, damage) by {
                            if i < ts.len() {
                                assert(ss1[i] == ss[i] && ss1[i + 1] == ss[i + 1] && ts1[i] == ts[i]);
                            }
                        }
                        ss = ss1;
                        ts = ts1;
                    }
                    k += 1;
                }
                proof {
                    let cell = (bx as int, by as int);
                    let cells1 = cells0.push(cell);
                    let offs1 = offs.push(ts.len() as int);
                    assert(cell_listed(ss[off0], ts, off0, ts.len() as int, cell));
                    let sso = ss.subrange(0, off0 + 1);
                    let tso = ts.subrange(0, off0);
                    assert forall|kk: int| 0 <= kk < cells1.len() implies #[trigger] cell_listed(ss[offs1[kk]], ts, offs1[kk], offs1[kk + 1], cells1[kk]) by {
                        if kk < cells0.len() {
                            assert(cell_listed(sso[offs[kk]], tso, offs[kk], offs[kk + 1], cells0[kk]));
                            assert(offs1[kk] == offs[kk] && offs1[kk + 1] == offs[kk + 1]);
                            assert(offs[kk + 1] <= off0);
                            assert(sso[offs[kk]] == ss[offs[kk]]);
                            let l = ss[offs[kk]].cell_view(cells0[kk].0 as i32, cells0[kk].1 as i32);
                            assert forall|j: int| offs[kk] <= j < offs[kk + 1] implies #[trigger] ts[j] == l[j - offs[kk]] by {
                                assert(tso[j] == ts[j]);
                            }
                        }
                    }
                    cells = cells1;
                    offs = offs1;
                }
            } else {
                proof {
                    assert(walked(ss, ts, cells, offs));
                }
            }
            bx += 1;
        }
        proof {
            if xh as int + 1 <= xl as int {
                assert(row_cells(by as int, xl as int, bx as int, bw as int, bh as int) =~= row_cells(by as int, xl as int, xh + 1, bw as int, bh as int));
            }
        }
        by += 1;
    }
    proof {
        if yh as int + 1 <= yl as int {
            assert(span_cells(yl as int, by as int, xl as int, xh as int, bw as int, bh as int) =~= span_cells(yl as int, yh + 1, xl as int, xh as int, bw as int, bh as int));
        }
        assert(cells == blast_cells(pre, spot_idx, damage));
        assert(blast_run(pre, *ctx, ss, ts, offs, spot_idx, source_idx, damage));
    }
}

// ---------------------------------------------------------------------------
// Sector height changes
// ---------------------------------------------------------------------------

/// What happens to a thing after a sector it touches changed height.
#[derive(Clone, Copy, Debug, PartialEq, Eq, Structural)]
pub enum CrushAction {
    /// It still fits.
    Fits,
    /// A corpse: crushed into gibs.
    Gib,
    /// A dropped item: removed.
    Remove,
    /// Something that cannot be shot: left alone.
    Ignore,
    /// A living thing: it does not fit and is crushed.
    Crush,
}

/// `PIT_ChangeSector`'s choice for `thing`, given whether it fit after
/// the height change.
pub open spec fn crush_action(thing: MapObject, fits: bool) -> CrushAction {
    if fits {
        CrushAction::Fits
    } else if thing.health <= 0 {
        CrushAction::Gib
    } else if thing.flags & MF_DROPPED != 0 {
        CrushAction::Remove
    } else if thing.flags & MF_SHOOTABLE == 0 {
        CrushAction::Ignore
    } else {
        CrushAction::Crush
    }
}

/// `PIT_ChangeSector`'s choice: see [`crush_action`].
pub fn pit_change_sector(thing: &MapObject, fits: bool) -> (r: CrushAction)
    ensures
        r == crush_action(*thing, fits),
{
    if fits {
        CrushAction::Fits
    } else if thing.health <= 0 {
        CrushAction::Gib
    } else if thing.flags & MF_DROPPED != 0 {
        CrushAction::Remove
    } else if thing.flags & MF_SHOOTABLE == 0 {
        CrushAction::Ignore
    } else {
        CrushAction::Crush
    }
}

/// A corpse crushed into gibs: no longer solid, and flat.
pub open spec fn gibbed(m: MapObject) -> MapObject {
    MapObject { flags: m.flags & !MF_SOLID, height: Fixed(0), radius: Fixed(0), ..m }
}

/// The momentum a blood splat gets from two pairs of random numbers.
pub open spec fn splat_speed(r1: u8, r2: u8) -> Fixed {
    Fixed(((r1 as int - r2 as int) * 4096) as i32)
}

/// 10 crushing damage from nowhere, or a blood splat.
pub open spec fn crush_hurt(e: MapEvent) -> bool {
    ||| e matches MapEvent::Damage { inflictor, source, damage, .. } && inflictor is None && source is None && damage == 10
    ||| e matches MapEvent::SpawnMobj { mtype, .. } && mtype == MT_BLOOD
}

/// A height clip the thing failed.
pub open spec fn failed_clip(e: MapEvent) -> bool {
    e matches MapEvent::HeightClip { fits, .. } && !fits
}

/// Every request in `e` is one a sector change makes: a height clip, a
/// corpse turned to gibs, a dropped item removed, and only when things
/// are `hurt`, 10 crushing damage and a blood splat.
pub open spec fn crush_events(e: Seq<MapEvent>, hurt: bool) -> bool {
    forall|i: int| 0 <= i < e.len() ==> {
        ||| #[trigger] e[i] is HeightClip
        ||| e[i] matches MapEvent::SetState { state, .. } && state == S_GIBS
        ||| e[i] is RemoveMobj
        ||| hurt && crush_hurt(e[i])
    }
}

/// The blood of a crushed thing `t`, from state `ca` to `c1`: 10 crushing
/// damage (state `cd`), a blood splat at its middle (state `ce`, new thing
/// `b`), and four play-stream numbers for the splat's momentum.
pub open spec fn bleeds<C: MapContext>(ca: C, cd: C, ce: C, c1: C, t: usize, b: usize) -> bool {
    let c = cd.mobjs_view()[t as int];
    let bz = Fixed(c.z.0.wrapping_add(c.height.0 >> 1i32));
    let g0 = ce.rng_view();
    let g1 = g0.advanced();
    let g2 = g1.advanced();
    let g3 = g2.advanced();
    &&& cd.events() == ca.events().push(MapEvent::Damage { target: t, inflictor: None, source: None, damage: 10 })
    &&& cd.mobjs_view().len() >= ca.mobjs_view().len()
    &&& ce.events() == cd.events().push(MapEvent::SpawnMobj { x: c.x, y: c.y, z: bz, mtype: MT_BLOOD })
    &&& ce.mobjs_view().len() >= cd.mobjs_view().len()
    &&& b < ce.mobjs_view().len()
    &&& c1.events() == ce.events()
    &&& c1.rng_view() == g3.advanced()
    &&& c1.mobjs_view() == ce.mobjs_view().update(
        b as int,
        MapObject { momx: splat_speed(g0.next_p(), g1.next_p()), momy: splat_speed(g2.next_p(), g3.next_p()), ..ce.mobjs_view()[b as int] },
    )
}

/// What follows the height clip of thing `t` (state `ca`, whether it fit
/// `fits`), up to state `c1`: [`crush_action`] decides; corpses are set to
/// [`S_GIBS`] (state `cb`) and made [`gibbed`], dropped items removed, and
/// living things, when `hurt`, [`bleeds`].
pub open spec fn after_clip<C: MapContext>(ca: C, c1: C, t: usize, fits: bool, hurt: bool) -> bool {
    match crush_action(ca.mobjs_view()[t as int], fits) {
        CrushAction::Gib => exists|cb: C| {
            &&& #[trigger] cb.events() == ca.events().push(MapEvent::SetState { mobj: t, state: S_GIBS })
            &&& cb.mobjs_view().len() >= ca.mobjs_view().len()
            &&& c1.mobjs_view() == cb.mobjs_view().update(t as int, gibbed(cb.mobjs_view()[t as int]))
            &&& c1.events() == cb.events()
            &&& c1.rng_view() == cb.rng_view()
        },
        CrushAction::Remove => c1.events() == ca.events().push(MapEvent::RemoveMobj { mobj: t }) && c1.mobjs_view().len()
            >= ca.mobjs_view().len(),
        CrushAction::Crush => if hurt {
            exists|cd: C, ce: C, b: usize| #[trigger] bleeds(ca, cd, ce, c1, t, b)
        } else {
            c1 == ca
        },
        _ => c1 == ca,
    }
}

/// One thing of a sector change, from state `c0` to `c1`: thing `t` is
/// height-clipped (state `ca`), then dealt with by [`after_clip`];
/// `crushed` is whether it was a living thing that did not fit.
pub open spec fn crush_step<C: MapContext>(c0: C, c1: C, t: usize, hurt: bool, crushed: bool) -> bool {
    &&& t < c0.mobjs_view().len()
    &&& exists|ca: C, fits: bool| {
        &&& #[trigger] clipped(c0, ca, t, fits)
        &&& crushed == (crush_action(ca.mobjs_view()[t as int], fits) == CrushAction::Crush)
        &&& after_clip(ca, c1, t, fits, hurt)
    }
}

/// From state `c0` to `ca`, thing `t` was height-clipped and `fits` is
/// whether it fit.
pub open spec fn clipped<C: MapContext>(c0: C, ca: C, t: usize, fits: bool) -> bool {
    &&& ca.events() == c0.events().push(MapEvent::HeightClip { thing: t, fits })
    &&& ca.mobjs_view().len() >= c0.mobjs_view().len()
    &&& ca.rng_view() == c0.rng_view()
}

/// The cells of sector `sector`'s block box in state `c`.
pub open spec fn crush_cells<C: MapContext>(c: C, sector: usize) -> Seq<(int, int)> {
    let bb = c.sectors_view()[sector as int].blockbox;
    span_cells(bb[BOXBOTTOM as int] as int, bb[BOXTOP as int] + 1, bb[BOXLEFT as int] as int, bb[BOXRIGHT as int] as int, c.width_view() as int, c.height_view() as int)
}

/// A whole sector change from `pre` to `post`: the states `ss` and things
/// `ts` of a walk over [`crush_cells`], each visit a [`crush_step`] with
/// flag `cs[i]`; `r` is whether any visited thing was crushed.
pub open spec fn crush_run<C: MapContext>(pre: C, post: C, ss: Seq<C>, ts: Seq<usize>, offs: Seq<int>, cs: Seq<bool>, sector: usize, crunch: bool, r: bool) -> bool {
    let hurt = crunch && pre.leveltime_view() & 3 == 0;
    &&& walked(ss, ts, crush_cells(pre, sector), offs)
    &&& ss[0] == pre
    &&& ss[ts.len() as int] == post
    &&& cs.len() == ts.len()
    &&& forall|i: int| 0 <= i < ts.len() ==> #[trigger] crush_step(ss[i], ss[i + 1], ts[i], hurt, cs[i])
    &&& r == exists|i: int| 0 <= i < cs.len() && #[trigger] cs[i]
}

/// `P_ChangeSector`: after sector `sector_idx` changed height, each thing
/// in the blockmap cells of its box is height-clipped; those that no
/// longer fit are dealt with by [`crush_action`] (corpses become [`gibbed`]
/// gibs, dropped items go, living things are crushed, and every fourth tic
/// of a crushing move take 10 damage and bleed). Returns whether a living
/// thing did not fit; that is never so unless some thing failed its clip.
/// The cells are walked row by row, each cell's things in list order, as
/// [`crush_run`] states.
pub fn p_change_sector<C: MapContext>(sector_idx: usize, crunch: bool, ctx: &mut C) -> (r: bool)
    requires
        sector_idx < old(ctx).sectors_view().len(),
    ensures
        final(ctx).events().len() >= old(ctx).events().len(),
        final(ctx).events().take(old(ctx).events().len() as int) == old(ctx).events(),
        crush_events(final(ctx).events().skip(old(ctx).events().len() as int), crunch && old(ctx).leveltime_view() & 3 == 0),
        r ==> exists|i: int| old(ctx).events().len() <= i < final(ctx).events().len() && failed_clip(#[trigger] final(ctx).events()[i]),
        final(ctx).mobjs_view().len() >= old(ctx).mobjs_view().len(),
        exists|ss: Seq<C>, ts: Seq<usize>, offs: Seq<int>, cs: Seq<bool>|
            #[trigger] crush_run(*old(ctx), *final(ctx), ss, ts, offs, cs, sector_idx, crunch, r),
{
    let ghost pre = *ctx;
    let ghost n = pre.events().len() as int;
    let bb = ctx.sectors()[sector_idx].blockbox;
    let top = bb[BOXTOP];
    let bottom = bb[BOXBOTTOM];
    let left = bb[BOXLEFT];
    let right = bb[BOXRIGHT];
    let bw = ctx.bmap_width();
    let bh = ctx.bmap_height();
    let hurt = crunch && ctx.leveltime() & 3 == 0;
    let mut nofit = false;
    let ghost mut wit: int = 0;
    let ghost mut ss: Seq<C> = seq![*ctx];
    let ghost mut ts: Seq<usize> = Seq::empty();
    let ghost mut offs: Seq<int> = seq![0int];
    let ghost mut cells: Seq<(int, int)> = Seq::empty();
    let ghost mut cs: Seq<bool> = Seq::empty();
    let mut by: i64 = bottom as i64;
    while by <= top as i64
        invariant
            n == pre.events().len(),
            pre == *old(ctx),
            bottom as i64 <= by,
            by <= top as i64 + 1 || by == bottom as i64,
            ctx.events().len() >= n,
            ctx.events().take(n) == pre.events(),
            crush_events(ctx.events().skip(n), hurt),
            nofit ==> n <= wit < ctx.events().len() && failed_clip(ctx.events()[wit]),
            ctx.mobjs_view().len() >= pre.mobjs_view().len(),
            walked(ss, ts, cells, offs),
            ss[0] == pre,
            ss[ts.len() as int] == *ctx,
            cs.len() == ts.len(),
            forall|i: int| 0 <= i < ts.len() ==> #[trigger] crush_step(ss[i], ss[i + 1], ts[i], hurt, cs[i]),
            nofit == exists|i: int| 0 <= i < cs.len() && #[trigger] cs[i],
            cells == span_cells(bottom as int, by as int, left as int, right as int, bw as int, bh as int),
        decreases top as i64 + 1 - by,
    {
        let mut bx: i64 = left as i64;
        while bx <= right as i64
            invariant
                i32::MIN <= by <= i32::MAX,
                bottom as i64 <= by <= top as i64,
                left as i64 <= bx,
                bx <= right as i64 + 1 || bx == left as i64,
                n == pre.events().len(),
                pre == *old(ctx),
                ctx.events().len() >= n,
                ctx.events().take(n) == pre.events(),
                crush_events(ctx.events().skip(n), hurt),
                nofit ==> n <= wit < ctx.events().len() && failed_clip(ctx.events()[wit]),
                ctx.mobjs_view().len() >= pre.mobjs_view().len(),
                walked(ss, ts, cells, offs),
                ss[0] == pre,
                ss[ts.len() as int] == *ctx,
                cs.len() == ts.len(),
                forall|i: int| 0 <= i < ts.len() ==> #[trigger] crush_step(ss[i], ss[i + 1], ts[i], hurt, cs[i]),
                nofit == exists|i: int| 0 <= i < cs.len() && #[trigger] cs[i],
                cells == span_cells(bottom as int, by as int, left as int, right as int, bw as int, bh as int) + row_cells(by as int, left as int, bx as int, bw as int, bh as int),
            decreases right as i64 + 1 - bx,
        {
            let ghost cells0 = cells;
            if bx >= 0 && bx < bw as i64 && by >= 0 && by < bh as i64 {
                let things = ctx.cell_things(bx as i32, by as i32);
                let ghost c_cell = *ctx;
                let ghost off0 = ts.len() as int;
                proof {
                    assert(ss.subrange(0, off0 + 1) =~= ss);
                    assert(ts.subrange(0, off0) =~= ts);
                }
                let mut k: usize = 0;
                while k < things.len()
                    invariant
                        forall|j: int| 0 <= j < things@.len() ==> #[trigger] things@[j] < ctx.mobjs_view().len(),
                        things@ == c_cell.cell_view(bx as i32, by as i32),
                        n == pre.events().len(),
                        pre == *old(ctx),
                        ctx.events().len() >= n,
                        ctx.events().take(n) == pre.events(),
                        crush_events(ctx.events().skip(n), hurt),
                        nofit ==> n <= wit < ctx.events().len() && failed_clip(ctx.events()[wit]),
                        ctx.mobjs_view().len() >= pre.mobjs_view().len(),
                        walked(ss.subrange(0, off0 + 1), ts.subrange(0, off0), cells0, offs),
                        0 <= off0 <= ts.len(),
                        ss.len() == ts.len() + 1,
                        ss[off0] == c_cell,
                        ts.len() == off0 + k,
                        k <= things@.len(),
                        forall|j: int| off0 <= j < ts.len() ==> #[trigger] ts[j] == things@[j - off0],
                        ss[0] == pre,
                        ss[ts.len() as int] == *ctx,
                        cs.len() == ts.len(),
                        forall|i: int| 0 <= i < ts.len() ==> #[trigger] crush_step(ss[i], ss[i + 1], ts[i], hurt, cs[i]),
                        nofit == exists|i: int| 0 <= i < cs.len() && #[trigger] cs[i],
                    decreases things@.len() - k,
                {
                    let t = things[k];
                    let ghost c0 = *ctx;
                    let ghost e0 = ctx.events();
                    let fits = ctx.p_thing_height_clip(t);
                    let ghost ca = *ctx;
                    proof {
                        assert(ctx.events().take(n) =~= e0.take(n));
                        assert(ctx.events().skip(n) =~= e0.skip(n).push(MapEvent::HeightClip { thing: t, fits }));
                        assert(ctx.events()[e0.len() as int] == MapEvent::HeightClip { thing: t, fits });
                    }
                    let ghost clip_at = e0.len() as int;
                    let m = ctx.mobjs()[t];
                    let action = pit_change_sector(&m, fits);
                    match action {
                        CrushAction::Gib => {
                            let ghost e1 = ctx.events();
                            ctx.p_set_mobj_state(t, S_GIBS);
                            let ghost cb = *ctx;
                            proof {
                                assert(ctx.events().take(n) =~= e1.take(n));
                                assert(ctx.events().skip(n) =~= e1.skip(n).push(MapEvent::SetState { mobj: t, state: S_GIBS }));
                                assert(ctx.events()[clip_at] == e1[clip_at]);
                            }
                            let g = ctx.mobjs()[t];
                            ctx.set_mobj(t, MapObject { flags: g.flags & !MF_SOLID, height: Fixed(0), radius: Fixed(0), ..g });
                            proof {
                                assert(cb.events() == ca.events().push(MapEvent::SetState { mobj: t, state: S_GIBS }));
                                assert(after_clip(ca, *ctx, t, fits, hurt));
                            }
                        },
                        CrushAction::Remove => {
                            let ghost e1 = ctx.events();
                            ctx.p_remove_mobj(t);
                            proof {
                                assert(ctx.events().take(n) =~= e1.take(n));
                                assert(ctx.events().skip(n) =~= e1.skip(n).push(MapEvent::RemoveMobj { mobj: t }));
                                assert(ctx.events()[clip_at] == e1[clip_at]);
                            }
                        },
                        CrushAction::Crush => {
                            nofit = true;
                            if hurt {
                                let ghost e1 = ctx.events();
                                ctx.p_damage_mobj(t, None, None, 10);
                                let ghost cd = *ctx;
                                proof {
                                    assert(ctx.events().take(n) =~= e1.take(n));
                                    assert(ctx.events().skip(n) =~= e1.skip(n).push(
                                        MapEvent::Damage { target: t, inflictor: None, source: None, damage: 10 },
                                    ));
                                    assert(ctx.events()[clip_at] == e1[clip_at]);
                                }
                                let c = ctx.mobjs()[t];
                                let bz = Fixed(c.z.0.wrapping_add(c.height.0 >> 1i32));
                                let ghost e2 = ctx.events();
                                let blood = ctx.p_spawn_mobj(c.x, c.y, bz, MT_BLOOD);
                                let ghost ce = *ctx;
                                proof {
                                    assert(ctx.events().take(n) =~= e2.take(n));
                                    assert(ctx.events().skip(n) =~= e2.skip(n).push(MapEvent::SpawnMobj { x: c.x, y: c.y, z: bz, mtype: MT_BLOOD }));
                                    assert(ctx.events()[clip_at] == e2[clip_at]);
                                }
                                let r1 = ctx.p_random();
                                let r2 = ctx.p_random();
                                let r3 = ctx.p_random();
                                let r4 = ctx.p_random();
                                let momx = Fixed((r1 as i32 - r2 as i32) * 4096);
                                let momy = Fixed((r3 as i32 - r4 as i32) * 4096);
                                let b = ctx.mobjs()[blood];
                                ctx.set_mobj(blood, MapObject { momx, momy, ..b });
                                proof {
                                    assert(momx == splat_speed(r1, r2));
                                    assert(momy == splat_speed(r3, r4));
                                    assert(bleeds(ca, cd, ce, *ctx, t, blood));
                                    assert(after_clip(ca, *ctx, t, fits, hurt));
                                }
                            }
                            assert(failed_clip(ctx.events()[clip_at]));
                            proof {
                                wit = clip_at;
                            }
                        },
                        _ => {},
                    }
                    proof {
                        let crushed = action == CrushAction::Crush;
                        assert(clipped(c0, ca, t, fits));
                        assert(after_clip(ca, *ctx, t, fits, hurt));
                        assert(crush_step(c0, *ctx, t, hurt, crushed));
                        let ss1 = ss.push(*ctx);
                        let ts1 = ts.push(t);
                        let cs1 = cs.push(crushed);
                        assert(ss1.subrange(0, off0 + 1) =~= ss.subrange(0, off0 + 1));
                        assert(ts1.subrange(0, off0) =~= ts.subrange(0, off0));
                        assert forall|i: int| 0 <= i < ts1.len() implies #[trigger] crush_step(ss1[i], ss1[i + 1], ts1[i], hurt, cs1[i]) by {
                            if i < ts.len() {
                                assert(ss1[i] == ss[i] && ss1[i + 1] == ss[i + 1] && ts1[i] == ts[i] && cs1[i] == cs[i]);
                            }
                        }
                        if nofit {
                            if crushed {
                                assert(cs1[cs.len() as int]);
                            } else {
                                let i0 = choose|i: int| 0 <= i < cs.len() && #[trigger] cs[i];
                                assert(cs1[i0]);
                            }
                        }
                        assert(nofit == exists|i: int| 0 <= i < cs1.len() && #[trigger] cs1[i]);
                        ss = ss1;
                        ts = ts1;
                        cs = cs1;
                    }
                    k += 1;
                }
                proof {
                    let cell = (bx as int, by as int);
                    let cells1 = cells0.push(cell);
                    let offs1 = offs.push(ts.len() as int);
                    assert(cell_listed(ss[off0], ts, off0, ts.len() as int, cell));
                    let sso = ss.subrange(0, off0 + 1);
                    let tso = ts.subrange(0, off0);
                    assert forall|kk: int| 0 <= kk < cells1.len() implies #[trigger] cell_listed(ss[offs1[kk]], ts, offs1[kk], offs1[kk + 1], cells1[kk]) by {
                        if kk < cells0.len() {
                            assert(cell_listed(sso[offs[kk]], tso, offs[kk], offs[kk + 1], cells0[kk]));
                            assert(offs1[kk] == offs[kk] && offs1[kk + 1] == offs[kk + 1]);
                            assert(offs[kk + 1] <= off0);
                            assert(sso[offs[kk]] == ss[offs[kk]]);
                            let l = ss[offs[kk]].cell_view(cells0[kk].0 as i32, cells0[kk].1 as i32);
                            assert forall|j: int| offs[kk] <= j < offs[kk + 1] implies #[trigger] ts[j] == l[j - offs[kk]] by {
                                assert(tso[j] == ts[j]);
                            }
                        }
                    }
                    cells = cells1;
                    offs = offs1;
                }
            }
            bx += 1;
        }
        proof {
            if right as int + 1 <= left as int {
                assert(row_cells(by as int, left as int, bx as int, bw as int, bh as int) =~= row_cells(by as int, left as int, right + 1, bw as int, bh as int));
            }
        }
        by += 1;
    }
    proof {
        if top as int + 1 <= bottom as int {
            assert(span_cells(bottom as int, by as int, left as int, right as int, bw as int, bh as int) =~= span_cells(bottom as int, top + 1, left as int, right as int, bw as int, bh as int));
        }
        assert(cells == crush_cells(pre, sector_idx));
        assert(crush_run(pre, *ctx, ss, ts, offs, cs, sector_idx, crunch, nofit));
        if nofit {
            assert(failed_clip(ctx.events()[wit]));
        }
    }
    nofit
}

/// A shot only ever hits a thing that can be shot, and never its shooter.
pub proof fn law_shot_hits_only_shootable(
    t: ShotTrace,
    aimslope: Fixed,
    ics: Seq<Intercept>,
    specials: Seq<usize>,
    lines: Seq<LineDef>,
    sectors: Seq<Sector>,
    mobjs: Seq<MapObject>,
)
    ensures
        shoot_run(t, aimslope, ics, specials, lines, sectors, mobjs).0 matches ShootHit::Thing { target, .. }
            ==> mobjs[target as int].flags & MF_SHOOTABLE != 0 && target != t.shooter,
    decreases ics.len(),
{
    if ics.len() > 0 {
        let sp = recorded_specials(specials, ics[0], lines);
        law_shot_hits_only_shootable(t, aimslope, ics.drop_first(), sp, lines, sectors, mobjs);
    }
}

/// A thing that cannot be shot changes no shot: putting it anywhere on the
/// trace leaves what the shot hits and the special lines it reaches as
/// they were.
pub proof fn law_unshootable_thing_changes_no_shot(
    t: ShotTrace,
    aimslope: Fixed,
    ics: Seq<Intercept>,
    k: int,
    ic: Intercept,
    specials: Seq<usize>,
    lines: Seq<LineDef>,
    sectors: Seq<Sector>,
    mobjs: Seq<MapObject>,
)
    requires
        0 <= k <= ics.len(),
        ic.d matches InterceptData::Thing(i) && mobjs[i as int].flags & MF_SHOOTABLE == 0,
    ensures
        shoot_run(t, aimslope, ics.insert(k, ic), specials, lines, sectors, mobjs) == shoot_run(t, aimslope, ics, specials, lines, sectors, mobjs),
    decreases k,
{
    if k == 0 {
        assert(ics.insert(0, ic).drop_first() =~= ics);
        assert(ics.insert(0, ic)[0] == ic);
    } else {
        let sp = recorded_specials(specials, ics[0], lines);
        law_unshootable_thing_changes_no_shot(t, aimslope, ics.drop_first(), k - 1, ic, sp, lines, sectors, mobjs);
        assert(ics.insert(k, ic)[0] == ics[0]);
        assert(ics.insert(k, ic).drop_first() =~= ics.drop_first().insert(k - 1, ic));
    }
}

/// What `P_LineAttack` hits is a thing that can be shot, never its shooter.
pub proof fn law_line_attack_hits_only_shootable<C: MapContext>(ctx: C, source: usize, angle: Angle, range: Fixed, slope: Fixed)
    ensures
        shot_result(ctx, source, angle, range, slope).0 matches ShootHit::Thing { target, .. }
            ==> ctx.mobjs_view()[target as int].flags & MF_SHOOTABLE != 0 && target != source,
{
    let t = trace_of(ctx, source, angle, range);
    law_shot_hits_only_shootable(t, slope, trace_intercepts(ctx, t, PT_ADDLINES | PT_ADDTHINGS), Seq::empty(), ctx.lines_view(), ctx.sectors_view(), ctx.mobjs_view());
}

} // verus!
