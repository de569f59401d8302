//! Sliding along walls: a player blocked by a wall keeps moving along it.

use vstd::prelude::*;
use crate::fixed::{fixed_mul_spec, Fixed, FRACUNIT};
use crate::inter::ANG180;
use crate::maputl::{
    abs_int, box_on_line_side, box_side_fits, line_opening, opening_fits, p_box_on_line_side, p_line_opening, point_on_line_side,
    point_side_fits, p_point_on_line_side,
    wrapping_abs, MapUtilState,
};
use crate::enemy::{MT_BRUISER, MT_KNIGHT};
use crate::random::DoomRandom;
use crate::types::{
    Angle, LineDef, MapObject, Sector, SlopeType, Subsector, Vertex, BOXBOTTOM, BOXLEFT, BOXRIGHT, BOXTOP, ML_BLOCKING, ML_BLOCKMONSTERS,
    MF_DROPOFF, MF_FLOAT, MF_MISSILE, MF_NOCLIP, MF_PICKUP, MF_TELEPORT, MF_SHOOTABLE, MF_SKULLFLY, MF_SOLID, MF_SPECIAL,
};

verus! {

/// How far short of the wall a slide stops.
pub const SLIDE_FUDGE: i32 = 0x800;

/// The nearest blocking wall a slide trace found: the fraction of the
/// move at which it is hit, and the line (none yet: beyond the move).
#[derive(Clone, Copy, Debug, PartialEq, Eq, Structural)]
pub struct SlideHit {
    pub frac: Fixed,
    pub line: Option<usize>,
}

/// A request the slide code made of the engine, with what came back.
#[derive(Clone, Copy, Debug, PartialEq, Eq, Structural)]
pub enum SlideEvent {
    /// A wall trace from `(x1, y1)` to `(x2, y2)` improving on `best`.
    Trace { x1: Fixed, y1: Fixed, x2: Fixed, y2: Fixed, best: SlideHit, found: SlideHit },
    /// `P_TryMove` of the thing to `(x, y)`, and whether it moved.
    TryMove { mobj: usize, x: Fixed, y: Fixed, moved: bool },
}

/// Every line's first vertex exists.
pub open spec fn lines_ok(lines: Seq<LineDef>, verts: Seq<Vertex>) -> bool {
    forall|l: int| 0 <= l < lines.len() ==> #[trigger] lines[l].v1 < verts.len()
}

/// A line with the same vertices, direction and slope class.
pub open spec fn same_shape(a: LineDef, b: LineDef) -> bool {
    a.v1 == b.v1 && a.dx == b.dx && a.dy == b.dy && a.slopetype == b.slopetype
}

/// The things, lines and vertices the slide code works on, the angle and
/// sine tables, and the engine's wall traces and moves. Every request is
/// recorded with what it returned and the things as they stood.
pub trait SlideContext: Sized {
    spec fn mobjs_view(&self) -> Seq<MapObject>;
    spec fn lines_view(&self) -> Seq<LineDef>;
    spec fn vertexes_view(&self) -> Seq<Vertex>;
    spec fn requests(&self) -> Seq<(SlideEvent, Seq<MapObject>)>;
    /// `R_PointToAngle2`.
    spec fn angle_view(&self, x1: Fixed, y1: Fixed, x2: Fixed, y2: Fixed) -> Angle;
    /// The fine sine table (its cosines start a quarter turn in).
    spec fn sine_view(&self, i: usize) -> Fixed;

    fn mobjs(&self) -> (r: &[MapObject])
        ensures
            r@ == self.mobjs_view(),
    ;

    fn lines(&self) -> (r: &[LineDef])
        ensures
            r@ == self.lines_view(),
    ;

    fn vertexes(&self) -> (r: &[Vertex])
        ensures
            r@ == self.vertexes_view(),
    ;

    /// Replace thing `idx` by `m`.
    fn set_mobj(&mut self, idx: usize, m: MapObject)
        requires
            idx < old(self).mobjs_view().len(),
        ensures
            forall|a: Fixed, b: Fixed, c: Fixed, d: Fixed| #[trigger] final(self).angle_view(a, b, c, d) == old(self).angle_view(a, b, c, d),
            forall|i: usize| #[trigger] final(self).sine_view(i) == old(self).sine_view(i),
            final(self).mobjs_view() == old(self).mobjs_view().update(idx as int, m),
            final(self).lines_view() == old(self).lines_view(),
            final(self).vertexes_view() == old(self).vertexes_view(),
            final(self).requests() == old(self).requests(),
    ;

    fn point_to_angle2(&self, x1: Fixed, y1: Fixed, x2: Fixed, y2: Fixed) -> (r: Angle)
        ensures
            r == self.angle_view(x1, y1, x2, y2),
    ;

    /// Entry `i` of the fine sine table.
    fn fine_sine(&self, i: usize) -> (r: Fixed)
        requires
            i < 10240,
        ensures
            r == self.sine_view(i),
    ;

    /// A path traverse along the given line, through the lines it crosses,
    /// nearest first: a wall that blocks the sliding thing nearer than
    /// `best` (at a fraction not behind the start) becomes the best.
    fn slide_trace(&mut self, x1: Fixed, y1: Fixed, x2: Fixed, y2: Fixed, best: SlideHit) -> (r: SlideHit)
        ensures
            forall|a: Fixed, b: Fixed, c: Fixed, d: Fixed| #[trigger] final(self).angle_view(a, b, c, d) == old(self).angle_view(a, b, c, d),
            forall|i: usize| #[trigger] final(self).sine_view(i) == old(self).sine_view(i),
            final(self).mobjs_view() == old(self).mobjs_view(),
            final(self).lines_view() == old(self).lines_view(),
            final(self).vertexes_view() == old(self).vertexes_view(),
            r == best || (0 <= r.frac.0 < best.frac.0 && (r.line matches Some(l) && l < old(self).lines_view().len())),
            final(self).requests() == old(self).requests().push(
                (SlideEvent::Trace { x1, y1, x2, y2, best, found: r }, old(self).mobjs_view()),
            ),
    ;

    /// `P_TryMove`: whether the thing moved to `(x, y)`; crossing lines
    /// may trigger specials that change things and lines, never their
    /// number or vertices.
    fn p_try_move(&mut self, mobj: usize, x: Fixed, y: Fixed) -> (r: bool)
        ensures
            forall|a: Fixed, b: Fixed, c: Fixed, d: Fixed| #[trigger] final(self).angle_view(a, b, c, d) == old(self).angle_view(a, b, c, d),
            forall|i: usize| #[trigger] final(self).sine_view(i) == old(self).sine_view(i),
            final(self).mobjs_view().len() >= old(self).mobjs_view().len(),
            final(self).lines_view().len() == old(self).lines_view().len(),
            forall|l: int| 0 <= l < old(self).lines_view().len() ==> same_shape(#[trigger] final(self).lines_view()[l], old(self).lines_view()[l]),
            final(self).vertexes_view() == old(self).vertexes_view(),
            final(self).requests() == old(self).requests().push(
                (SlideEvent::TryMove { mobj, x, y, moved: r }, old(self).mobjs_view()),
            ),
    ;
}

// ---------------------------------------------------------------------------
// Sliding along a wall
// ---------------------------------------------------------------------------

/// The side of line `line` (first vertex `v1`) that `(x, y)` is on, as
/// `P_PointOnLineSide` finds it, with the offsets from `v1` wrapping.
pub open spec fn wrapped_side(x: i32, y: i32, line: LineDef, v1: Vertex) -> i32 {
    if line.dx.0 == 0 {
        if x <= v1.x.0 {
            if line.dy.0 > 0 { 1 } else { 0 }
        } else {
            if line.dy.0 < 0 { 1 } else { 0 }
        }
    } else if line.dy.0 == 0 {
        if y <= v1.y.0 {
            if line.dx.0 < 0 { 1 } else { 0 }
        } else {
            if line.dx.0 > 0 { 1 } else { 0 }
        }
    } else {
        let left = fixed_mul_spec(line.dy.0 >> 16i32, x.wrapping_sub(v1.x.0));
        let right = fixed_mul_spec(y.wrapping_sub(v1.y.0), line.dx.0 >> 16i32);
        if right < left { 0 } else { 1 }
    }
}

/// `P_AproxDistance` with its sums wrapping.
pub open spec fn wrapped_aprox(dx: i32, dy: i32) -> i32 {
    let adx = wrapping_abs(dx) as i32;
    let ady = wrapping_abs(dy) as i32;
    if adx < ady {
        adx.wrapping_add(ady).wrapping_sub((adx / 2) as i32)
    } else {
        adx.wrapping_add(ady).wrapping_sub((ady / 2) as i32)
    }
}

/// `P_HitSlideLine`: the move `(tmx, tmy)` of a thing at `(x, y)` turned
/// along line `ld`: an east-west wall keeps only the east-west part, a
/// north-south wall only the north-south part; otherwise the move's
/// length, cut by the cosine of its angle to the wall (taken from the
/// side the thing is on), is laid along the wall.
pub open spec fn slid<C: SlideContext>(c: C, ld: LineDef, v1: Vertex, x: i32, y: i32, tmx: i32, tmy: i32) -> (i32, i32) {
    if ld.slopetype == SlopeType::Horizontal {
        (tmx, 0)
    } else if ld.slopetype == SlopeType::Vertical {
        (0, tmy)
    } else {
        let la0 = c.angle_view(Fixed(0), Fixed(0), ld.dx, ld.dy).0;
        let la = if wrapped_side(x, y, ld, v1) == 1 { la0.wrapping_add(ANG180) } else { la0 };
        let ma = c.angle_view(Fixed(0), Fixed(0), Fixed(tmx), Fixed(tmy)).0;
        let d0 = ma.wrapping_sub(la);
        let d = if d0 > ANG180 { d0.wrapping_add(ANG180) } else { d0 };
        let newlen = fixed_mul_spec(wrapped_aprox(tmx, tmy), c.sine_view(((d >> 19u32) + 2048) as usize).0);
        let lf = (la >> 19u32) as usize;
        (fixed_mul_spec(newlen, c.sine_view((lf + 2048) as usize).0), fixed_mul_spec(newlen, c.sine_view(lf).0))
    }
}

fn side_wrapping(x: i32, y: i32, line: &LineDef, v1: &Vertex) -> (r: i32)
    ensures
        r == wrapped_side(x, y, *line, *v1),
{
    if line.dx.0 == 0 {
        if x <= v1.x.0 {
            return if line.dy.0 > 0 { 1 } else { 0 };
        }
        return if line.dy.0 < 0 { 1 } else { 0 };
    }
    if line.dy.0 == 0 {
        if y <= v1.y.0 {
            return if line.dx.0 < 0 { 1 } else { 0 };
        }
        return if line.dx.0 > 0 { 1 } else { 0 };
    }
    let left = Fixed(line.dy.0 >> 16i32).fixed_mul(Fixed(x.wrapping_sub(v1.x.0)));
    let right = Fixed(y.wrapping_sub(v1.y.0)).fixed_mul(Fixed(line.dx.0 >> 16i32));
    if right.0 < left.0 {
        0
    } else {
        1
    }
}

fn aprox_wrapping(dx: i32, dy: i32) -> (r: i32)
    ensures
        r == wrapped_aprox(dx, dy),
{
    let adx: i32 = if dx == i32::MIN { dx } else if dx < 0 { -dx } else { dx };
    let ady: i32 = if dy == i32::MIN { dy } else if dy < 0 { -dy } else { dy };
    let hx: i32 = if adx < 0 { -1073741824 } else { adx / 2 };
    let hy: i32 = if ady < 0 { -1073741824 } else { ady / 2 };
    if adx < ady {
        adx.wrapping_add(ady).wrapping_sub(hx)
    } else {
        adx.wrapping_add(ady).wrapping_sub(hy)
    }
}

/// `P_HitSlideLine`: see [`slid`].
pub fn p_hit_slide_line<C: SlideContext>(ld: &LineDef, x: Fixed, y: Fixed, tmx: i32, tmy: i32, ctx: &C) -> (r: (i32, i32))
    requires
        ld.v1 < ctx.vertexes_view().len(),
    ensures
        r == slid(*ctx, *ld, ctx.vertexes_view()[ld.v1 as int], x.0, y.0, tmx, tmy),
{
    if ld.slopetype == SlopeType::Horizontal {
        return (tmx, 0);
    }
    if ld.slopetype == SlopeType::Vertical {
        return (0, tmy);
    }
    let v1 = ctx.vertexes()[ld.v1];
    let side = side_wrapping(x.0, y.0, ld, &v1);
    let mut la = ctx.point_to_angle2(Fixed(0), Fixed(0), ld.dx, ld.dy).0;
    if side == 1 {
        la = la.wrapping_add(ANG180);
    }
    let ma = ctx.point_to_angle2(Fixed(0), Fixed(0), Fixed(tmx), Fixed(tmy)).0;
    let mut d = ma.wrapping_sub(la);
    if d > ANG180 {
        d = d.wrapping_add(ANG180);
    }
    assert(d >> 19u32 <= 8191) by (bit_vector);
    assert(la >> 19u32 <= 8191) by (bit_vector);
    let movelen = aprox_wrapping(tmx, tmy);
    let newlen = Fixed(movelen).fixed_mul(ctx.fine_sine((d >> 19u32) as usize + 2048));
    let lf = (la >> 19u32) as usize;
    (newlen.fixed_mul(ctx.fine_sine(lf + 2048)).0, newlen.fixed_mul(ctx.fine_sine(lf)).0)
}

// ---------------------------------------------------------------------------
// P_SlideMove
// ---------------------------------------------------------------------------

/// The starting best of a slide: nothing hit within the whole move.
pub open spec fn no_hit() -> SlideHit {
    SlideHit { frac: Fixed((FRACUNIT + 1) as i32), line: None }
}

/// The leading and trailing edge coordinates of a thing of radius `r`
/// at `p` moving at `mom` along one axis.
pub open spec fn lead_trail(p: i32, r: i32, mom: i32) -> (i32, i32) {
    if mom > 0 { (p.wrapping_add(r), p.wrapping_sub(r)) } else { (p.wrapping_sub(r), p.wrapping_add(r)) }
}

/// The trace of the thing's full move from corner `(x1, y1)`.
pub open spec fn trace_of(x1: i32, y1: i32, m: MapObject, best: SlideHit, found: SlideHit) -> SlideEvent {
    SlideEvent::Trace {
        x1: Fixed(x1),
        y1: Fixed(y1),
        x2: Fixed(x1.wrapping_add(m.momx.0)),
        y2: Fixed(y1.wrapping_add(m.momy.0)),
        best,
        found,
    }
}

/// From request `p` the slide ends by stair-stepping: try the move along
/// y only, and when that fails along x only.
pub open spec fn stairstep(reqs: Seq<(SlideEvent, Seq<MapObject>)>, p: int, i: usize) -> bool {
    &&& 0 <= p < reqs.len()
    &&& i < reqs[p].1.len()
    &&& {
        let m = reqs[p].1[i as int];
        match reqs[p].0 {
            SlideEvent::TryMove { mobj, x, y, moved } => {
                &&& mobj == i
                &&& x == m.x
                &&& y == Fixed(m.y.0.wrapping_add(m.momy.0))
                &&& if moved {
                    reqs.len() == p + 1
                } else {
                    &&& reqs.len() == p + 2
                    &&& reqs[p + 1].0 == (SlideEvent::TryMove {
                        mobj: i,
                        x: Fixed(m.x.0.wrapping_add(m.momx.0)),
                        y: m.y,
                        moved: reqs[p + 1].0->moved,
                    })
                }
            },
            _ => false,
        }
    }
}

/// What is left of the move after the wall at fraction `f`: 1.0 less
/// `f`, at most 1.0.
pub open spec fn remainder(f: int) -> int {
    if FRACUNIT - f > FRACUNIT { FRACUNIT as int } else { FRACUNIT - f }
}

/// From request `p` on, the requests are attempt `hit` of `P_SlideMove`
/// for thing `i` and what follows (tables and line shapes from `c`): three
/// traces from the thing's corners along its move find the nearest wall.
/// With none, it stair-steps. Otherwise it moves up to just short of the
/// wall (stair-stepping when that fails), and then, unless nothing of the
/// move is left, turns the rest along the wall ([`slid`]), takes that as
/// its momentum and tries it; when that fails too the next attempt
/// follows, and the third attempt is a stair-step.
pub open spec fn slide_from<C: SlideContext>(c: C, reqs: Seq<(SlideEvent, Seq<MapObject>)>, p: int, hit: int, i: usize) -> bool
    decreases 3 - hit,
{
    if hit >= 3 {
        stairstep(reqs, p, i)
    } else {
        &&& 0 <= p
        &&& p + 3 <= reqs.len()
        &&& i < reqs[p].1.len()
        &&& {
            let m = reqs[p].1[i as int];
            let (lx, tx) = lead_trail(m.x.0, m.radius.0, m.momx.0);
            let (ly, ty) = lead_trail(m.y.0, m.radius.0, m.momy.0);
            let b1 = reqs[p].0->found;
            let b2 = reqs[p + 1].0->found;
            let b = reqs[p + 2].0->found;
            &&& reqs[p].0 == trace_of(lx, ly, m, no_hit(), b1)
            &&& reqs[p + 1].0 == trace_of(tx, ly, m, b1, b2)
            &&& reqs[p + 2].0 == trace_of(lx, ty, m, b2, b)
            &&& if b.frac.0 == FRACUNIT + 1 {
                stairstep(reqs, p + 3, i)
            } else {
                let f = b.frac.0 - SLIDE_FUDGE;
                let nx = fixed_mul_spec(m.momx.0, f as i32);
                let ny = fixed_mul_spec(m.momy.0, f as i32);
                let q = if f > 0 { p + 4 } else { p + 3 };
                let first_ok = f > 0 ==> {
                    &&& p + 4 <= reqs.len()
                    &&& i < reqs[p + 3].1.len()
                    &&& reqs[p + 3].0 == (SlideEvent::TryMove {
                        mobj: i,
                        x: Fixed(reqs[p + 3].1[i as int].x.0.wrapping_add(nx)),
                        y: Fixed(reqs[p + 3].1[i as int].y.0.wrapping_add(ny)),
                        moved: reqs[p + 3].0->moved,
                    })
                };
                let rem = remainder(b.frac.0 as int);
                let tm0 = (fixed_mul_spec(m.momx.0, rem as i32), fixed_mul_spec(m.momy.0, rem as i32));
                &&& first_ok
                &&& if f > 0 && !reqs[p + 3].0->moved {
                    stairstep(reqs, p + 4, i)
                } else if rem <= 0 {
                    reqs.len() == q
                } else {
                    &&& q < reqs.len()
                    &&& i < reqs[q].1.len()
                    &&& {
                        let w = reqs[q].1[i as int];
                        let tm = match b.line {
                            Some(l) => slid(c, c.lines_view()[l as int], c.vertexes_view()[c.lines_view()[l as int].v1 as int], w.x.0, w.y.0, tm0.0, tm0.1),
                            None => tm0,
                        };
                        &&& w.momx.0 == tm.0
                        &&& w.momy.0 == tm.1
                        &&& reqs[q].0 == (SlideEvent::TryMove {
                            mobj: i,
                            x: Fixed(w.x.0.wrapping_add(tm.0)),
                            y: Fixed(w.y.0.wrapping_add(tm.1)),
                            moved: reqs[q].0->moved,
                        })
                        &&& if reqs[q].0->moved { reqs.len() == q + 1 } else { slide_from(c, reqs, q + 1, hit + 1, i) }
                    }
                }
            }
        }
    }
}

/// The engine's tables and the lines' shapes are those of `base`.
pub open spec fn same_geometry<C: SlideContext>(base: C, c: C) -> bool {
    &&& forall|a: Fixed, b: Fixed, x: Fixed, d: Fixed| #[trigger] c.angle_view(a, b, x, d) == base.angle_view(a, b, x, d)
    &&& forall|i: usize| #[trigger] c.sine_view(i) == base.sine_view(i)
    &&& c.lines_view().len() == base.lines_view().len()
    &&& forall|l: int| 0 <= l < base.lines_view().len() ==> same_shape(#[trigger] c.lines_view()[l], base.lines_view()[l])
    &&& c.vertexes_view() == base.vertexes_view()
}

fn stair_step<C: SlideContext>(mobj_idx: usize, ctx: &mut C, Ghost(base): Ghost<C>)
    requires
        mobj_idx < old(ctx).mobjs_view().len(),
        same_geometry(base, *old(ctx)),
    ensures
        same_geometry(base, *final(ctx)),
        final(ctx).requests().len() >= old(ctx).requests().len(),
        final(ctx).requests().subrange(0, old(ctx).requests().len() as int) == old(ctx).requests(),
        stairstep(final(ctx).requests(), old(ctx).requests().len() as int, mobj_idx),
{
    let ghost n = ctx.requests().len();
    let m = ctx.mobjs()[mobj_idx];
    if !ctx.p_try_move(mobj_idx, m.x, Fixed(m.y.0.wrapping_add(m.momy.0))) {
        ctx.p_try_move(mobj_idx, Fixed(m.x.0.wrapping_add(m.momx.0)), m.y);
    }
    assert(ctx.requests().subrange(0, n as int) =~= old(ctx).requests());
}

proof fn lemma_prefix_index<A>(a: Seq<A>, b: Seq<A>, k: int)
    requires
        a.len() <= b.len(),
        b.subrange(0, a.len() as int) == a,
        0 <= k < a.len(),
    ensures
        b[k] == a[k],
{
    assert(b.subrange(0, a.len() as int)[k] == b[k]);
}

/// The three corner traces of an attempt, and the best wall they found.
fn three_traces<C: SlideContext>(mobj_idx: usize, ctx: &mut C, Ghost(base): Ghost<C>) -> (r: SlideHit)
    requires
        mobj_idx < old(ctx).mobjs_view().len(),
        same_geometry(base, *old(ctx)),
    ensures
        same_geometry(base, *final(ctx)),
        final(ctx).mobjs_view() == old(ctx).mobjs_view(),
        r == no_hit() || (0 <= r.frac.0 < FRACUNIT + 1 && (r.line matches Some(l) && l < base.lines_view().len())),
        ({
            let m = old(ctx).mobjs_view()[mobj_idx as int];
            let ms = old(ctx).mobjs_view();
            let n = old(ctx).requests().len() as int;
            let reqs = final(ctx).requests();
            let (lx, tx) = lead_trail(m.x.0, m.radius.0, m.momx.0);
            let (ly, ty) = lead_trail(m.y.0, m.radius.0, m.momy.0);
            &&& reqs.len() == n + 3
            &&& reqs.subrange(0, n) == old(ctx).requests()
            &&& reqs[n].1 == ms && reqs[n + 1].1 == ms && reqs[n + 2].1 == ms
            &&& reqs[n].0 == trace_of(lx, ly, m, no_hit(), reqs[n].0->found)
            &&& reqs[n + 1].0 == trace_of(tx, ly, m, reqs[n].0->found, reqs[n + 1].0->found)
            &&& reqs[n + 2].0 == trace_of(lx, ty, m, reqs[n + 1].0->found, r)
        }),
{
    let m = ctx.mobjs()[mobj_idx];
    let (leadx, trailx) = if m.momx.0 > 0 {
        (m.x.0.wrapping_add(m.radius.0), m.x.0.wrapping_sub(m.radius.0))
    } else {
        (m.x.0.wrapping_sub(m.radius.0), m.x.0.wrapping_add(m.radius.0))
    };
    let (leady, traily) = if m.momy.0 > 0 {
        (m.y.0.wrapping_add(m.radius.0), m.y.0.wrapping_sub(m.radius.0))
    } else {
        (m.y.0.wrapping_sub(m.radius.0), m.y.0.wrapping_add(m.radius.0))
    };
    let start = SlideHit { frac: Fixed(FRACUNIT + 1), line: None };
    let b1 = ctx.slide_trace(Fixed(leadx), Fixed(leady), Fixed(leadx.wrapping_add(m.momx.0)), Fixed(leady.wrapping_add(m.momy.0)), start);
    let b2 = ctx.slide_trace(Fixed(trailx), Fixed(leady), Fixed(trailx.wrapping_add(m.momx.0)), Fixed(leady.wrapping_add(m.momy.0)), b1);
    let b = ctx.slide_trace(Fixed(leadx), Fixed(traily), Fixed(leadx.wrapping_add(m.momx.0)), Fixed(traily.wrapping_add(m.momy.0)), b2);
    assert(ctx.requests().subrange(0, old(ctx).requests().len() as int) =~= old(ctx).requests());
    b
}

#[verifier::rlimit(60)]
fn slide_attempt<C: SlideContext>(mobj_idx: usize, hit: i32, ctx: &mut C, Ghost(base): Ghost<C>)
    requires
        1 <= hit <= 3,
        mobj_idx < old(ctx).mobjs_view().len(),
        same_geometry(base, *old(ctx)),
        lines_ok(base.lines_view(), base.vertexes_view()),
    ensures
        same_geometry(base, *final(ctx)),
        final(ctx).requests().len() >= old(ctx).requests().len(),
        final(ctx).requests().subrange(0, old(ctx).requests().len() as int) == old(ctx).requests(),
        slide_from(base, final(ctx).requests(), old(ctx).requests().len() as int, hit as int, mobj_idx),
    decreases 3 - hit,
{
    let ghost n = ctx.requests().len();
    if hit == 3 {
        stair_step(mobj_idx, ctx, Ghost(base));
        return;
    }
    let m = ctx.mobjs()[mobj_idx];
    let b = three_traces(mobj_idx, ctx, Ghost(base));
    let ghost traced = ctx.requests();
    assert(b.frac.0 >= 0 || b.frac.0 == FRACUNIT + 1);
    if b.frac.0 == FRACUNIT + 1 {
        stair_step(mobj_idx, ctx, Ghost(base));
        assert(ctx.requests().subrange(0, n as int) =~= old(ctx).requests());
        assert(ctx.requests().subrange(0, traced.len() as int) =~= traced);
        return;
    }
    let f = b.frac.0 - SLIDE_FUDGE;
    if f > 0 {
        let nx = m.momx.fixed_mul(Fixed(f));
        let ny = m.momy.fixed_mul(Fixed(f));
        let cur = ctx.mobjs()[mobj_idx];
        if !ctx.p_try_move(mobj_idx, Fixed(cur.x.0.wrapping_add(nx.0)), Fixed(cur.y.0.wrapping_add(ny.0))) {
            let ghost tried = ctx.requests();
            stair_step(mobj_idx, ctx, Ghost(base));
            assert(ctx.requests().subrange(0, n as int) =~= old(ctx).requests());
            assert(ctx.requests().subrange(0, tried.len() as int) =~= tried);
            proof {
                lemma_prefix_index(tried, ctx.requests(), n as int);
                lemma_prefix_index(tried, ctx.requests(), n as int + 1);
                lemma_prefix_index(tried, ctx.requests(), n as int + 2);
                lemma_prefix_index(tried, ctx.requests(), n as int + 3);
            }
            return;
        }
    }
    let ghost before_turn = ctx.requests();
    let rem0 = FRACUNIT - b.frac.0;
    let rem = if rem0 > FRACUNIT { FRACUNIT } else { rem0 };
    if rem <= 0 {
        assert(ctx.requests().subrange(0, n as int) =~= old(ctx).requests());
        return;
    }
    let mut tmx = m.momx.fixed_mul(Fixed(rem)).0;
    let mut tmy = m.momy.fixed_mul(Fixed(rem)).0;
    let w0 = ctx.mobjs()[mobj_idx];
    if let Some(l) = b.line {
        let ld = ctx.lines()[l];
        assert(same_shape(ld, base.lines_view()[l as int]));
        let turned = p_hit_slide_line(&ld, w0.x, w0.y, tmx, tmy, ctx);
        tmx = turned.0;
        tmy = turned.1;
    }
    let mut w = w0;
    w.momx = Fixed(tmx);
    w.momy = Fixed(tmy);
    ctx.set_mobj(mobj_idx, w);
    let ghost before_move = ctx.requests();
    if !ctx.p_try_move(mobj_idx, Fixed(w.x.0.wrapping_add(tmx)), Fixed(w.y.0.wrapping_add(tmy))) {
        let ghost tried = ctx.requests();
        slide_attempt(mobj_idx, hit + 1, ctx, Ghost(base));
        assert(ctx.requests().subrange(0, n as int) =~= old(ctx).requests());
        assert(ctx.requests().subrange(0, tried.len() as int) =~= tried);
        proof {
            lemma_prefix_index(tried, ctx.requests(), n as int);
            lemma_prefix_index(tried, ctx.requests(), n as int + 1);
            lemma_prefix_index(tried, ctx.requests(), n as int + 2);
            if tried.len() > n + 4 {
                lemma_prefix_index(tried, ctx.requests(), n as int + 3);
            }
            lemma_prefix_index(tried, ctx.requests(), before_move.len() as int);
        }
        return;
    }
    assert(ctx.requests().subrange(0, n as int) =~= old(ctx).requests());
}

/// `P_SlideMove`: slides thing `mobj_idx` along the walls in its way, as
/// [`slide_from`] describes from its first attempt on.
pub fn p_slide_move<C: SlideContext>(mobj_idx: usize, ctx: &mut C)
    requires
        mobj_idx < old(ctx).mobjs_view().len(),
        lines_ok(old(ctx).lines_view(), old(ctx).vertexes_view()),
    ensures
        final(ctx).requests().len() >= old(ctx).requests().len(),
        final(ctx).requests().subrange(0, old(ctx).requests().len() as int) == old(ctx).requests(),
        slide_from(*old(ctx), final(ctx).requests(), old(ctx).requests().len() as int, 1, mobj_idx),
{
    let ghost base = *ctx;
    slide_attempt(mobj_idx, 1, ctx, Ghost(base));
}


// ---------------------------------------------------------------------------
// Position checks
// ---------------------------------------------------------------------------

/// At most this many special lines are remembered per move.
pub const MAXSPECIALCROSS: usize = 8;
/// The largest radius a thing has (blockmap searches reach this far).
pub const MAXRADIUS: i32 = 2097152;
/// The highest step a walker climbs.
pub const MAXSTEPHEIGHT: i32 = 1572864;

/// The state of a position check: the moving thing as cached for the
/// check, its box at the destination, and what the check found: the
/// heights bounding it, the line lowering the ceiling, and the special
/// lines it touches.
pub struct MovementState {
    pub tmbbox: [Fixed; 4],
    pub tmthing_idx: Option<usize>,
    pub tmflags: u32,
    pub tmx: Fixed,
    pub tmy: Fixed,
    pub tmradius: Fixed,
    pub tmheight: Fixed,
    pub tmz: Fixed,
    pub tmtype: usize,
    /// Impact damage and spawn state of the moving thing's type.
    pub tm_info_damage: i32,
    pub tm_info_spawnstate: usize,
    /// The moving thing's target and that target's type.
    pub tm_target: Option<usize>,
    pub tm_target_type: Option<usize>,
    pub tm_player: Option<usize>,
    /// Whether the thing would fit the opening by changing height.
    pub floatok: bool,
    pub tmfloorz: Fixed,
    pub tmceilingz: Fixed,
    pub tmdropoffz: Fixed,
    pub ceilingline: Option<usize>,
    /// The special lines touched, at most [`MAXSPECIALCROSS`].
    pub spechit: Vec<usize>,
    /// The opening of the last two-sided line looked at.
    pub map_util: MapUtilState,
}

impl MovementState {
    /// Everything zero, nothing cached, no lines.
    pub fn default() -> (r: MovementState)
        ensures
            r.tmthing_idx is None,
            r.spechit@.len() == 0,
            !r.floatok,
            r.ceilingline is None,
    {
        MovementState {
            tmbbox: [Fixed(0); 4],
            tmthing_idx: None,
            tmflags: 0,
            tmx: Fixed(0),
            tmy: Fixed(0),
            tmradius: Fixed(0),
            tmheight: Fixed(0),
            tmz: Fixed(0),
            tmtype: 0,
            tm_info_damage: 0,
            tm_info_spawnstate: 0,
            tm_target: None,
            tm_target_type: None,
            tm_player: None,
            floatok: false,
            tmfloorz: Fixed(0),
            tmceilingz: Fixed(0),
            tmdropoffz: Fixed(0),
            ceilingline: None,
            spechit: Vec::new(),
            map_util: MapUtilState::new(),
        }
    }
}

/// The check's inputs (the cached thing, its destination and box) agree.
pub open spec fn same_inputs(a: MovementState, b: MovementState) -> bool {
    &&& a.tmbbox == b.tmbbox
    &&& a.tmthing_idx == b.tmthing_idx
    &&& a.tmflags == b.tmflags
    &&& a.tmx == b.tmx
    &&& a.tmy == b.tmy
    &&& a.tmradius == b.tmradius
    &&& a.tmheight == b.tmheight
    &&& a.tmz == b.tmz
    &&& a.tmtype == b.tmtype
    &&& a.tm_info_damage == b.tm_info_damage
    &&& a.tm_info_spawnstate == b.tm_info_spawnstate
    &&& a.tm_target == b.tm_target
    &&& a.tm_target_type == b.tm_target_type
    &&& a.tm_player == b.tm_player
    &&& a.floatok == b.floatok
}

/// The box misses the line's bounding box.
pub open spec fn box_misses(b: [Fixed; 4], ld: LineDef) -> bool {
    ||| b@[BOXRIGHT as int].0 <= ld.bbox@[BOXLEFT as int].0
    ||| b@[BOXLEFT as int].0 >= ld.bbox@[BOXRIGHT as int].0
    ||| b@[BOXTOP as int].0 <= ld.bbox@[BOXBOTTOM as int].0
    ||| b@[BOXBOTTOM as int].0 >= ld.bbox@[BOXTOP as int].0
}

/// Whether line `ld` stops the move outright: a one-sided line, a line
/// blocking everything, or one blocking monsters for a thing that is not
/// a player.
pub open spec fn line_stops(ms: MovementState, ld: LineDef) -> bool {
    ||| ld.backsector is None
    ||| (ld.flags & ML_BLOCKING) != 0
    ||| (ms.tm_player is None && (ld.flags & ML_BLOCKMONSTERS) != 0)
}

/// `PIT_CheckLine` on line `idx`: a line the box does not cross is
/// passed; one that stops the move ([`line_stops`]) blocks; through any
/// other the opening narrows the heights (the lower ceiling, remembering
/// the line, the higher floor, the lower drop-off) and a special line is
/// remembered while there is room.
pub open spec fn line_checked(pre: MovementState, post: MovementState, r: bool, idx: usize, ld: LineDef, sectors: Seq<Sector>, v1: Vertex) -> bool {
    if box_misses(pre.tmbbox, ld) || box_on_line_side(pre.tmbbox, ld, v1) != -1 {
        r && post == pre
    } else if line_stops(pre, ld) {
        !r && post == pre
    } else {
        let mu = line_opening(pre.map_util, ld, sectors);
        let lowers = mu.opentop.0 < pre.tmceilingz.0;
        &&& r
        &&& same_inputs(pre, post)
        &&& post.map_util == mu
        &&& post.tmceilingz == if lowers { mu.opentop } else { pre.tmceilingz }
        &&& post.ceilingline == if lowers { Some(idx) } else { pre.ceilingline }
        &&& post.tmfloorz == if mu.openbottom.0 > pre.tmfloorz.0 { mu.openbottom } else { pre.tmfloorz }
        &&& post.tmdropoffz == if mu.lowfloor.0 < pre.tmdropoffz.0 { mu.lowfloor } else { pre.tmdropoffz }
        &&& post.spechit@ == if ld.special != 0 && pre.spechit@.len() < MAXSPECIALCROSS {
            pre.spechit@.push(idx)
        } else {
            pre.spechit@
        }
    }
}

/// `PIT_CheckLine`: see [`line_checked`].
pub fn pit_check_line(line_idx: usize, ld: &LineDef, ms: &mut MovementState, sectors: &[Sector], vertexes: &[Vertex]) -> (r: bool)
    requires
        ld.v1 < vertexes@.len(),
        box_side_fits(old(ms).tmbbox, *ld, vertexes@[ld.v1 as int]),
        opening_fits(*ld, sectors@),
        old(ms).spechit@.len() <= MAXSPECIALCROSS,
    ensures
        line_checked(*old(ms), *final(ms), r, line_idx, *ld, sectors@, vertexes@[ld.v1 as int]),
        final(ms).spechit@.len() <= MAXSPECIALCROSS,
{
    let b = ms.tmbbox;
    if b[BOXRIGHT].0 <= ld.bbox[BOXLEFT].0 || b[BOXLEFT].0 >= ld.bbox[BOXRIGHT].0 || b[BOXTOP].0 <= ld.bbox[BOXBOTTOM].0
        || b[BOXBOTTOM].0 >= ld.bbox[BOXTOP].0 {
        return true;
    }
    if p_box_on_line_side(&b, ld, vertexes) != -1 {
        return true;
    }
    if ld.backsector.is_none() {
        return false;
    }
    if (ld.flags & ML_BLOCKING) != 0 {
        return false;
    }
    if ms.tm_player.is_none() && (ld.flags & ML_BLOCKMONSTERS) != 0 {
        return false;
    }
    p_line_opening(&mut ms.map_util, ld, sectors);
    let open_top = ms.map_util.opentop;
    let open_bottom = ms.map_util.openbottom;
    let low_floor = ms.map_util.lowfloor;
    if open_top.0 < ms.tmceilingz.0 {
        ms.tmceilingz = open_top;
        ms.ceilingline = Some(line_idx);
    }
    if open_bottom.0 > ms.tmfloorz.0 {
        ms.tmfloorz = open_bottom;
    }
    if low_floor.0 < ms.tmdropoffz.0 {
        ms.tmdropoffz = low_floor;
    }
    if ld.special != 0 && ms.spechit.len() < MAXSPECIALCROSS {
        ms.spechit.push(line_idx);
    }
    true
}

/// What a thing the moving thing runs into makes happen, once the
/// engine can act.
#[derive(Clone, Copy, Debug, PartialEq, Eq, Structural)]
pub enum ThingAction {
    /// Nothing.
    Continue,
    /// A charging lost soul slams into `target`.
    SkullSlam { attacker: usize, target: usize },
    /// A missile hits `target`, credited to `source`.
    MissileHit { target: usize, inflictor: usize, source: Option<usize> },
    /// The moving thing picks up `special`.
    Pickup { special: usize, toucher: usize },
}

/// The arithmetic of checking thing `thing` against the move fits.
pub open spec fn thing_fits(thing: MapObject, ms: MovementState) -> bool {
    &&& i32::MIN <= thing.radius.0 + ms.tmradius.0 <= i32::MAX
    &&& i32::MIN < thing.x.0 - ms.tmx.0 <= i32::MAX
    &&& i32::MIN < thing.y.0 - ms.tmy.0 <= i32::MAX
    &&& i32::MIN <= thing.z.0 + thing.height.0 <= i32::MAX
    &&& i32::MIN <= ms.tmz.0 + ms.tmheight.0 <= i32::MAX
}

/// `PIT_CheckThing` on thing `idx`: whether the move may go on, and what
/// happens. Things that are neither solid, special nor shootable, things
/// out of reach (the two radii, on either axis) and the mover itself are
/// passed. A charging lost soul slams into the thing. A missile passes
/// over or under it, passes a knight or baron fired by one of the same
/// kind, is stopped by a solid thing it cannot hurt and hits anything
/// shootable. A special thing is picked up by a thing that picks up,
/// and blocks only when solid; any other thing blocks when solid.
pub open spec fn thing_check(idx: usize, thing: MapObject, ms: MovementState) -> (bool, ThingAction) {
    let tm = ms.tmthing_idx->0;
    let solid = (thing.flags & MF_SOLID) != 0;
    let blockdist = thing.radius.0 + ms.tmradius.0;
    if (thing.flags & MF_SOLID) == 0 && (thing.flags & MF_SPECIAL) == 0 && (thing.flags & MF_SHOOTABLE) == 0 {
        (true, ThingAction::Continue)
    } else if abs_int(thing.x.0 - ms.tmx.0) >= blockdist || abs_int(thing.y.0 - ms.tmy.0) >= blockdist {
        (true, ThingAction::Continue)
    } else if idx == tm {
        (true, ThingAction::Continue)
    } else if (ms.tmflags & MF_SKULLFLY) != 0 {
        (false, ThingAction::SkullSlam { attacker: tm, target: idx })
    } else if (ms.tmflags & MF_MISSILE) != 0 {
        if ms.tmz.0 > thing.z.0 + thing.height.0 || ms.tmz.0 + ms.tmheight.0 < thing.z.0 {
            (true, ThingAction::Continue)
        } else if ms.tm_target is Some && ms.tm_target_type == Some(thing.type_) && (thing.type_ == MT_KNIGHT || thing.type_ == MT_BRUISER) {
            (true, ThingAction::Continue)
        } else if (thing.flags & MF_SHOOTABLE) == 0 {
            (!solid, ThingAction::Continue)
        } else {
            (false, ThingAction::MissileHit { target: idx, inflictor: tm, source: ms.tm_target })
        }
    } else if (thing.flags & MF_SPECIAL) != 0 {
        if (ms.tmflags & MF_PICKUP) != 0 {
            (!solid, ThingAction::Pickup { special: idx, toucher: tm })
        } else {
            (!solid, ThingAction::Continue)
        }
    } else {
        (!solid, ThingAction::Continue)
    }
}

/// `PIT_CheckThing`: see [`thing_check`].
pub fn pit_check_thing(thing_idx: usize, thing: &MapObject, ms: &MovementState) -> (r: (bool, ThingAction))
    requires
        ms.tmthing_idx is Some,
        thing_fits(*thing, *ms),
    ensures
        r == thing_check(thing_idx, *thing, *ms),
{
    if (thing.flags & MF_SOLID) == 0 && (thing.flags & MF_SPECIAL) == 0 && (thing.flags & MF_SHOOTABLE) == 0 {
        return (true, ThingAction::Continue);
    }
    let tm = match ms.tmthing_idx {
        Some(t) => t,
        None => return (true, ThingAction::Continue),
    };
    let blockdist = thing.radius.0 + ms.tmradius.0;
    let dx = thing.x.0 - ms.tmx.0;
    let dy = thing.y.0 - ms.tmy.0;
    let adx = if dx < 0 { -dx } else { dx };
    let ady = if dy < 0 { -dy } else { dy };
    if adx >= blockdist || ady >= blockdist {
        return (true, ThingAction::Continue);
    }
    if thing_idx == tm {
        return (true, ThingAction::Continue);
    }
    if (ms.tmflags & MF_SKULLFLY) != 0 {
        return (false, ThingAction::SkullSlam { attacker: tm, target: thing_idx });
    }
    let solid = (thing.flags & MF_SOLID) != 0;
    if (ms.tmflags & MF_MISSILE) != 0 {
        if ms.tmz.0 > thing.z.0 + thing.height.0 {
            return (true, ThingAction::Continue);
        }
        if ms.tmz.0 + ms.tmheight.0 < thing.z.0 {
            return (true, ThingAction::Continue);
        }
        if ms.tm_target.is_some() && ms.tm_target_type == Some(thing.type_) && (thing.type_ == MT_KNIGHT || thing.type_ == MT_BRUISER) {
            return (true, ThingAction::Continue);
        }
        if (thing.flags & MF_SHOOTABLE) == 0 {
            return (!solid, ThingAction::Continue);
        }
        return (false, ThingAction::MissileHit { target: thing_idx, inflictor: tm, source: ms.tm_target });
    }
    if (thing.flags & MF_SPECIAL) != 0 {
        if (ms.tmflags & MF_PICKUP) != 0 {
            return (!solid, ThingAction::Pickup { special: thing_idx, toucher: tm });
        }
        return (!solid, ThingAction::Continue);
    }
    (!solid, ThingAction::Continue)
}


/// A request the position code made of the engine, in the order made.
#[derive(Clone, Copy, Debug, PartialEq, Eq, Structural)]
pub enum MoveEvent {
    Damage { victim: usize, inflictor: Option<usize>, by: Option<usize>, damage: i32 },
    TouchSpecial { special: usize, toucher: usize },
    SetState { mobj: usize, state: usize },
    /// A thing crossed special line `line` from side `side`.
    CrossLine { line: usize, side: i32, thing: usize },
    /// A thing was taken out of, or put into, the sector and blockmap
    /// lists.
    Unlink { thing: usize },
    Link { thing: usize },
}

/// The level the position code works on: things, lines, vertices,
/// sectors and subsectors, the blockmap (as the things and the lines
/// listed in each cell), the thing-info entries it reads, the random
/// stream, and the engine's answers to its requests.
pub trait MovementContext: Sized {
    spec fn mobjs_view(&self) -> Seq<MapObject>;
    spec fn lines_view(&self) -> Seq<LineDef>;
    spec fn vertexes_view(&self) -> Seq<Vertex>;
    spec fn sectors_view(&self) -> Seq<Sector>;
    spec fn subsectors_view(&self) -> Seq<Subsector>;
    /// `R_PointInSubsector`.
    spec fn subsector_at(&self, x: Fixed, y: Fixed) -> usize;
    spec fn validcount_view(&self) -> i32;
    spec fn orgx_view(&self) -> Fixed;
    spec fn orgy_view(&self) -> Fixed;
    /// Impact damage and spawn state of a thing type.
    spec fn damage_view(&self, t: usize) -> i32;
    spec fn spawnstate_view(&self, t: usize) -> usize;
    spec fn map_view(&self) -> i32;
    spec fn rng_view(&self) -> DoomRandom;
    spec fn events(&self) -> Seq<MoveEvent>;

    fn mobjs(&self) -> (r: &[MapObject])
        ensures
            r@ == self.mobjs_view(),
    ;

    fn lines(&self) -> (r: &[LineDef])
        ensures
            r@ == self.lines_view(),
    ;

    fn vertexes(&self) -> (r: &[Vertex])
        ensures
            r@ == self.vertexes_view(),
    ;

    fn sectors(&self) -> (r: &[Sector])
        ensures
            r@ == self.sectors_view(),
    ;

    fn subsectors(&self) -> (r: &[Subsector])
        ensures
            r@ == self.subsectors_view(),
    ;

    fn point_in_subsector(&self, x: Fixed, y: Fixed) -> (r: usize)
        ensures
            r == self.subsector_at(x, y),
    ;

    fn bmap_orgx(&self) -> (r: Fixed)
        ensures
            r == self.orgx_view(),
    ;

    fn bmap_orgy(&self) -> (r: Fixed)
        ensures
            r == self.orgy_view(),
    ;

    fn info_damage(&self, t: usize) -> (r: i32)
        ensures
            r == self.damage_view(t),
    ;

    fn info_spawnstate(&self, t: usize) -> (r: usize)
        ensures
            r == self.spawnstate_view(t),
    ;

    fn gamemap(&self) -> (r: i32)
        ensures
            r == self.map_view(),
    ;

    /// The things listed in blockmap cell `(bx, by)` (none outside the
    /// map).
    fn block_things(&self, bx: i32, by: i32) -> (r: Vec<usize>)
        ensures
            forall|i: int| 0 <= i < r@.len() ==> #[trigger] r@[i] < self.mobjs_view().len(),
    ;

    /// The lines listed in blockmap cell `(bx, by)` not yet looked at in
    /// check `vc`, now marked as looked at (none outside the map).
    fn block_lines(&mut self, bx: i32, by: i32, vc: i32) -> (r: Vec<usize>)
        ensures
            forall|i: int| 0 <= i < r@.len() ==> #[trigger] r@[i] < final(self).lines_view().len(),
            final(self).vertexes_view() == old(self).vertexes_view(),
            final(self).subsectors_view() == old(self).subsectors_view(),
            forall|x: Fixed, y: Fixed| #[trigger] final(self).subsector_at(x, y) == old(self).subsector_at(x, y),
            final(self).orgx_view() == old(self).orgx_view(),
            final(self).orgy_view() == old(self).orgy_view(),
            forall|t: usize| #[trigger] final(self).damage_view(t) == old(self).damage_view(t),
            forall|t: usize| #[trigger] final(self).spawnstate_view(t) == old(self).spawnstate_view(t),
            final(self).map_view() == old(self).map_view(),
            final(self).mobjs_view() == old(self).mobjs_view(),
            final(self).rng_view() == old(self).rng_view(),
            final(self).events() == old(self).events(),
    ;

    /// A new check: the check counter goes up by one.
    fn inc_validcount(&mut self) -> (r: i32)
        ensures
            final(self).vertexes_view() == old(self).vertexes_view(),
            final(self).subsectors_view() == old(self).subsectors_view(),
            forall|x: Fixed, y: Fixed| #[trigger] final(self).subsector_at(x, y) == old(self).subsector_at(x, y),
            final(self).orgx_view() == old(self).orgx_view(),
            final(self).orgy_view() == old(self).orgy_view(),
            forall|t: usize| #[trigger] final(self).damage_view(t) == old(self).damage_view(t),
            forall|t: usize| #[trigger] final(self).spawnstate_view(t) == old(self).spawnstate_view(t),
            final(self).map_view() == old(self).map_view(),
            final(self).mobjs_view() == old(self).mobjs_view(),
            final(self).rng_view() == old(self).rng_view(),
            final(self).events() == old(self).events(),
            r == final(self).validcount_view(),
            r == old(self).validcount_view().wrapping_add(1),
    ;

    fn p_random(&mut self) -> (r: u8)
        ensures
            final(self).vertexes_view() == old(self).vertexes_view(),
            final(self).subsectors_view() == old(self).subsectors_view(),
            forall|x: Fixed, y: Fixed| #[trigger] final(self).subsector_at(x, y) == old(self).subsector_at(x, y),
            final(self).orgx_view() == old(self).orgx_view(),
            final(self).orgy_view() == old(self).orgy_view(),
            forall|t: usize| #[trigger] final(self).damage_view(t) == old(self).damage_view(t),
            forall|t: usize| #[trigger] final(self).spawnstate_view(t) == old(self).spawnstate_view(t),
            final(self).map_view() == old(self).map_view(),
            final(self).mobjs_view() == old(self).mobjs_view(),
            r == old(self).rng_view().next_p(),
            final(self).rng_view() == old(self).rng_view().advanced(),
            final(self).events() == old(self).events(),
    ;

    fn set_mobj(&mut self, idx: usize, m: MapObject)
        requires
            idx < old(self).mobjs_view().len(),
        ensures
            final(self).vertexes_view() == old(self).vertexes_view(),
            final(self).subsectors_view() == old(self).subsectors_view(),
            forall|x: Fixed, y: Fixed| #[trigger] final(self).subsector_at(x, y) == old(self).subsector_at(x, y),
            final(self).orgx_view() == old(self).orgx_view(),
            final(self).orgy_view() == old(self).orgy_view(),
            forall|t: usize| #[trigger] final(self).damage_view(t) == old(self).damage_view(t),
            forall|t: usize| #[trigger] final(self).spawnstate_view(t) == old(self).spawnstate_view(t),
            final(self).map_view() == old(self).map_view(),
            final(self).mobjs_view() == old(self).mobjs_view().update(idx as int, m),
            final(self).rng_view() == old(self).rng_view(),
            final(self).events() == old(self).events(),
    ;

    fn p_damage_mobj(&mut self, target: usize, inflictor: Option<usize>, source: Option<usize>, damage: i32)
        ensures
            final(self).vertexes_view() == old(self).vertexes_view(),
            final(self).subsectors_view() == old(self).subsectors_view(),
            forall|x: Fixed, y: Fixed| #[trigger] final(self).subsector_at(x, y) == old(self).subsector_at(x, y),
            final(self).orgx_view() == old(self).orgx_view(),
            final(self).orgy_view() == old(self).orgy_view(),
            forall|t: usize| #[trigger] final(self).damage_view(t) == old(self).damage_view(t),
            forall|t: usize| #[trigger] final(self).spawnstate_view(t) == old(self).spawnstate_view(t),
            final(self).map_view() == old(self).map_view(),
            final(self).mobjs_view().len() == old(self).mobjs_view().len(),
            final(self).events() == old(self).events().push(MoveEvent::Damage { victim: target, inflictor, by: source, damage }),
    ;

    fn p_touch_special_thing(&mut self, special: usize, toucher: usize)
        ensures
            final(self).vertexes_view() == old(self).vertexes_view(),
            final(self).subsectors_view() == old(self).subsectors_view(),
            forall|x: Fixed, y: Fixed| #[trigger] final(self).subsector_at(x, y) == old(self).subsector_at(x, y),
            final(self).orgx_view() == old(self).orgx_view(),
            final(self).orgy_view() == old(self).orgy_view(),
            forall|t: usize| #[trigger] final(self).damage_view(t) == old(self).damage_view(t),
            forall|t: usize| #[trigger] final(self).spawnstate_view(t) == old(self).spawnstate_view(t),
            final(self).map_view() == old(self).map_view(),
            final(self).mobjs_view().len() == old(self).mobjs_view().len(),
            final(self).events() == old(self).events().push(MoveEvent::TouchSpecial { special, toucher }),
    ;

    fn p_set_mobj_state(&mut self, mobj: usize, state: usize) -> (r: bool)
        ensures
            final(self).vertexes_view() == old(self).vertexes_view(),
            final(self).subsectors_view() == old(self).subsectors_view(),
            forall|x: Fixed, y: Fixed| #[trigger] final(self).subsector_at(x, y) == old(self).subsector_at(x, y),
            final(self).orgx_view() == old(self).orgx_view(),
            final(self).orgy_view() == old(self).orgy_view(),
            forall|t: usize| #[trigger] final(self).damage_view(t) == old(self).damage_view(t),
            forall|t: usize| #[trigger] final(self).spawnstate_view(t) == old(self).spawnstate_view(t),
            final(self).map_view() == old(self).map_view(),
            final(self).mobjs_view().len() == old(self).mobjs_view().len(),
            final(self).events() == old(self).events().push(MoveEvent::SetState { mobj, state }),
    ;

    fn p_cross_special_line(&mut self, line: usize, side: i32, thing: usize)
        ensures
            final(self).vertexes_view() == old(self).vertexes_view(),
            final(self).subsectors_view() == old(self).subsectors_view(),
            forall|x: Fixed, y: Fixed| #[trigger] final(self).subsector_at(x, y) == old(self).subsector_at(x, y),
            final(self).orgx_view() == old(self).orgx_view(),
            final(self).orgy_view() == old(self).orgy_view(),
            forall|t: usize| #[trigger] final(self).damage_view(t) == old(self).damage_view(t),
            forall|t: usize| #[trigger] final(self).spawnstate_view(t) == old(self).spawnstate_view(t),
            final(self).map_view() == old(self).map_view(),
            final(self).mobjs_view().len() == old(self).mobjs_view().len(),
            final(self).events() == old(self).events().push(MoveEvent::CrossLine { line, side, thing }),
    ;

    /// `P_UnsetThingPosition`.
    fn unset_thing_position(&mut self, thing: usize)
        ensures
            final(self).vertexes_view() == old(self).vertexes_view(),
            final(self).subsectors_view() == old(self).subsectors_view(),
            forall|x: Fixed, y: Fixed| #[trigger] final(self).subsector_at(x, y) == old(self).subsector_at(x, y),
            final(self).orgx_view() == old(self).orgx_view(),
            final(self).orgy_view() == old(self).orgy_view(),
            forall|t: usize| #[trigger] final(self).damage_view(t) == old(self).damage_view(t),
            forall|t: usize| #[trigger] final(self).spawnstate_view(t) == old(self).spawnstate_view(t),
            final(self).map_view() == old(self).map_view(),
            final(self).mobjs_view().len() == old(self).mobjs_view().len(),
            forall|i: int| 0 <= i < old(self).mobjs_view().len() ==> #[trigger] final(self).mobjs_view()[i].x == old(self).mobjs_view()[i].x
                && final(self).mobjs_view()[i].y == old(self).mobjs_view()[i].y,
            forall|i: int| 0 <= i < old(self).mobjs_view().len() ==> same_but_links(old(self).mobjs_view()[i], #[trigger] final(self).mobjs_view()[i]),
            final(self).events() == old(self).events().push(MoveEvent::Unlink { thing }),
    ;

    /// `P_SetThingPosition` at the thing's coordinates.
    fn set_thing_position(&mut self, thing: usize)
        ensures
            final(self).vertexes_view() == old(self).vertexes_view(),
            final(self).subsectors_view() == old(self).subsectors_view(),
            forall|x: Fixed, y: Fixed| #[trigger] final(self).subsector_at(x, y) == old(self).subsector_at(x, y),
            final(self).orgx_view() == old(self).orgx_view(),
            final(self).orgy_view() == old(self).orgy_view(),
            forall|t: usize| #[trigger] final(self).damage_view(t) == old(self).damage_view(t),
            forall|t: usize| #[trigger] final(self).spawnstate_view(t) == old(self).spawnstate_view(t),
            final(self).map_view() == old(self).map_view(),
            final(self).mobjs_view().len() == old(self).mobjs_view().len(),
            forall|i: int| 0 <= i < old(self).mobjs_view().len() ==> #[trigger] final(self).mobjs_view()[i].x == old(self).mobjs_view()[i].x
                && final(self).mobjs_view()[i].y == old(self).mobjs_view()[i].y,
            forall|i: int| 0 <= i < old(self).mobjs_view().len() ==> same_but_links(old(self).mobjs_view()[i], #[trigger] final(self).mobjs_view()[i]),
            final(self).events() == old(self).events().push(MoveEvent::Link { thing }),
    ;
}

/// `b` is `a` with only its sector and blockmap links (and subsector)
/// possibly changed.
pub open spec fn same_but_links(a: MapObject, b: MapObject) -> bool {
    b == MapObject { snext: b.snext, sprev: b.sprev, bnext: b.bnext, bprev: b.bprev, subsector: b.subsector, ..a }
}

/// The map's fixed parts are unchanged: vertices, subsectors, the
/// blockmap origin, the thing-info entries and the map number.
pub open spec fn same_level<C: MovementContext>(pre: C, post: C) -> bool {
    &&& post.vertexes_view() == pre.vertexes_view()
    &&& post.subsectors_view() == pre.subsectors_view()
    &&& forall|x: Fixed, y: Fixed| #[trigger] post.subsector_at(x, y) == pre.subsector_at(x, y)
    &&& post.orgx_view() == pre.orgx_view()
    &&& post.orgy_view() == pre.orgy_view()
    &&& forall|t: usize| #[trigger] post.damage_view(t) == pre.damage_view(t)
    &&& forall|t: usize| #[trigger] post.spawnstate_view(t) == pre.spawnstate_view(t)
    &&& post.map_view() == pre.map_view()
}

/// The check state `ms` has the thing `idx` of `ctx` cached, at
/// destination `(x, y)` with its box around it.
pub open spec fn cached_for<C: MovementContext>(ms: MovementState, ctx: C, idx: usize, x: Fixed, y: Fixed) -> bool {
    let ms_ = ctx.mobjs_view();
    let m = ms_[idx as int];
    let r = m.radius.0;
    &&& ms.tmthing_idx == Some(idx)
    &&& ms.tmflags == m.flags
    &&& ms.tmradius == m.radius
    &&& ms.tmheight == m.height
    &&& ms.tmz == m.z
    &&& ms.tmtype == m.type_
    &&& ms.tm_player == m.player
    &&& ms.tm_target == m.target
    &&& ms.tm_info_damage == ctx.damage_view(m.type_)
    &&& ms.tm_info_spawnstate == ctx.spawnstate_view(m.type_)
    &&& ms.tm_target_type == match m.target {
        Some(t) => if t < ms_.len() { Some(ms_[t as int].type_) } else { None },
        None => None,
    }
    &&& ms.tmx == x
    &&& ms.tmy == y
    &&& ms.tmbbox@[BOXTOP as int].0 == y.0 + r
    &&& ms.tmbbox@[BOXBOTTOM as int].0 == y.0 - r
    &&& ms.tmbbox@[BOXRIGHT as int].0 == x.0 + r
    &&& ms.tmbbox@[BOXLEFT as int].0 == x.0 - r
}

/// The sector under `(x, y)`.
pub open spec fn sector_under<C: MovementContext>(ctx: C, x: Fixed, y: Fixed) -> Sector {
    ctx.sectors_view()[ctx.subsectors_view()[ctx.subsector_at(x, y) as int].sector as int]
}

/// A check of thing `idx` at `(x, y)` can be set up: the thing and the
/// sector under the spot exist, and its box and the blockmap cells it
/// reaches fit.
pub open spec fn check_fits<C: MovementContext>(ctx: C, idx: usize, x: Fixed, y: Fixed) -> bool {
    let r = ctx.mobjs_view()[idx as int].radius.0;
    let ss = ctx.subsector_at(x, y);
    &&& idx < ctx.mobjs_view().len()
    &&& ss < ctx.subsectors_view().len()
    &&& ctx.subsectors_view()[ss as int].sector < ctx.sectors_view().len()
    &&& i32::MIN <= x.0 - r - ctx.orgx_view().0 - MAXRADIUS
    &&& x.0 + r - ctx.orgx_view().0 + MAXRADIUS <= i32::MAX
    &&& i32::MIN <= y.0 - r - ctx.orgy_view().0 - MAXRADIUS
    &&& y.0 + r - ctx.orgy_view().0 + MAXRADIUS <= i32::MAX
    &&& i32::MIN <= x.0 - r && x.0 + r <= i32::MAX
    &&& i32::MIN <= y.0 - r && y.0 + r <= i32::MAX
    &&& 0 <= r
}

/// A check set up: the thing cached at `(x, y)`, the heights those of the
/// sector under it, no ceiling line and no special lines.
pub open spec fn check_begun<C: MovementContext>(ms: MovementState, ctx: C, idx: usize, x: Fixed, y: Fixed) -> bool {
    let sec = sector_under(ctx, x, y);
    &&& cached_for(ms, ctx, idx, x, y)
    &&& ms.tmfloorz == sec.floorheight
    &&& ms.tmdropoffz == sec.floorheight
    &&& ms.tmceilingz == sec.ceilingheight
    &&& ms.ceilingline is None
    &&& ms.spechit@.len() == 0
}

fn begin_check<C: MovementContext>(thing_idx: usize, x: Fixed, y: Fixed, ms: &mut MovementState, ctx: &mut C)
    requires
        check_fits(*old(ctx), thing_idx, x, y),
    ensures
        check_begun(*final(ms), *old(ctx), thing_idx, x, y),
        final(ms).floatok == old(ms).floatok,
        final(ms).map_util == old(ms).map_util,
        same_level(*old(ctx), *final(ctx)),
        final(ctx).mobjs_view() == old(ctx).mobjs_view(),
        final(ctx).rng_view() == old(ctx).rng_view(),
        final(ctx).events() == old(ctx).events(),
        final(ctx).validcount_view() == old(ctx).validcount_view().wrapping_add(1),
{
    let mobjs = ctx.mobjs();
    let m = mobjs[thing_idx];
    ms.tmthing_idx = Some(thing_idx);
    ms.tmflags = m.flags;
    ms.tmradius = m.radius;
    ms.tmheight = m.height;
    ms.tmz = m.z;
    ms.tmtype = m.type_;
    ms.tm_player = m.player;
    ms.tm_target = m.target;
    ms.tm_info_damage = ctx.info_damage(m.type_);
    ms.tm_info_spawnstate = ctx.info_spawnstate(m.type_);
    ms.tm_target_type = match m.target {
        Some(t) => if t < mobjs.len() { Some(mobjs[t].type_) } else { None },
        None => None,
    };
    ms.tmx = x;
    ms.tmy = y;
    let r = m.radius.0;
    ms.tmbbox = [Fixed(y.0 + r), Fixed(y.0 - r), Fixed(x.0 - r), Fixed(x.0 + r)];
    let ss = ctx.point_in_subsector(x, y);
    let sec = ctx.subsectors()[ss].sector;
    let fh = ctx.sectors()[sec].floorheight;
    let ch = ctx.sectors()[sec].ceilingheight;
    ms.tmfloorz = fh;
    ms.tmdropoffz = fh;
    ms.tmceilingz = ch;
    ms.ceilingline = None;
    ms.spechit = Vec::new();
    let _ = ctx.inc_validcount();
}


/// The arithmetic of line `ld`'s check fits (see [`pit_check_line`]).
pub open spec fn line_fits(ld: LineDef, ms: MovementState, sectors: Seq<Sector>, verts: Seq<Vertex>) -> bool {
    &&& ld.v1 < verts.len()
    &&& box_side_fits(ms.tmbbox, ld, verts[ld.v1 as int])
    &&& opening_fits(ld, sectors)
}

fn point_fits_exec(x: i32, y: i32, ld: &LineDef, v1: &Vertex) -> (r: bool)
    ensures
        r == point_side_fits(x, y, *ld, *v1),
{
    if ld.dx.0 != 0 && ld.dy.0 != 0 {
        let a = x as i64 - v1.x.0 as i64;
        let b = y as i64 - v1.y.0 as i64;
        i32::MIN as i64 <= a && a <= i32::MAX as i64 && i32::MIN as i64 <= b && b <= i32::MAX as i64
    } else {
        true
    }
}

fn line_fits_exec(ld: &LineDef, ms: &MovementState, sectors: &[Sector], verts: &[Vertex]) -> (r: bool)
    ensures
        r == line_fits(*ld, *ms, sectors@, verts@),
{
    if ld.v1 >= verts.len() {
        return false;
    }
    let v1 = &verts[ld.v1];
    let b = ms.tmbbox;
    let box_ok = match ld.slopetype {
        SlopeType::Positive => point_fits_exec(b[BOXLEFT].0, b[BOXTOP].0, ld, v1) && point_fits_exec(b[BOXRIGHT].0, b[BOXBOTTOM].0, ld, v1),
        SlopeType::Negative => point_fits_exec(b[BOXRIGHT].0, b[BOXTOP].0, ld, v1) && point_fits_exec(b[BOXLEFT].0, b[BOXBOTTOM].0, ld, v1),
        _ => true,
    };
    if !box_ok {
        return false;
    }
    if ld.sidenum[1] == -1 {
        return true;
    }
    let (f, k) = match (ld.frontsector, ld.backsector) {
        (Some(f), Some(k)) => (f, k),
        _ => return false,
    };
    if f >= sectors.len() || k >= sectors.len() {
        return false;
    }
    let front = &sectors[f];
    let back = &sectors[k];
    let top = if front.ceilingheight.0 < back.ceilingheight.0 { front.ceilingheight.0 } else { back.ceilingheight.0 };
    let bottom = if front.floorheight.0 > back.floorheight.0 { front.floorheight.0 } else { back.floorheight.0 };
    let d = top as i64 - bottom as i64;
    i32::MIN as i64 <= d && d <= i32::MAX as i64
}

fn thing_fits_exec(thing: &MapObject, ms: &MovementState) -> (r: bool)
    ensures
        r == thing_fits(*thing, *ms),
{
    let a = thing.radius.0 as i64 + ms.tmradius.0 as i64;
    let b = thing.x.0 as i64 - ms.tmx.0 as i64;
    let c = thing.y.0 as i64 - ms.tmy.0 as i64;
    let d = thing.z.0 as i64 + thing.height.0 as i64;
    let e = ms.tmz.0 as i64 + ms.tmheight.0 as i64;
    let lo = i32::MIN as i64;
    let hi = i32::MAX as i64;
    lo <= a && a <= hi && lo < b && b <= hi && lo < c && c <= hi && lo <= d && d <= hi && lo <= e && e <= hi
}

/// The heights a check found are at least as tight as the sector's.
pub open spec fn heights_within(ms: MovementState, sec: Sector) -> bool {
    &&& ms.tmfloorz.0 >= sec.floorheight.0
    &&& ms.tmceilingz.0 <= sec.ceilingheight.0
    &&& ms.tmdropoffz.0 <= sec.floorheight.0
}

/// From index `n` on, the requests are those the things a check of thing
/// `idx` runs into make: pickups by it, damage it does, and its state.
pub open spec fn check_requests(e: Seq<MoveEvent>, n: int, idx: usize) -> bool {
    forall|i: int| n <= i < e.len() ==> {
        ||| (#[trigger] e[i] matches MoveEvent::TouchSpecial { toucher, .. } && toucher == idx)
        ||| (e[i] matches MoveEvent::Damage { inflictor, .. } && inflictor == Some(idx))
        ||| (e[i] matches MoveEvent::SetState { mobj, .. } && mobj == idx)
    }
}

/// Only pickups by thing `idx` follow index `n`.
pub open spec fn pickups_after(e: Seq<MoveEvent>, n: int, idx: usize) -> bool {
    forall|i: int| n <= i < e.len() ==> (#[trigger] e[i] matches MoveEvent::TouchSpecial { toucher, .. } && toucher == idx)
}

/// The block range `[lo, hi]` of coordinates `a` less `org`, in map block
/// units, widened by `pad`.
fn block_of(a: i32, org: i32, pad: i32) -> (r: i64)
    requires
        i32::MIN <= a - org + pad <= i32::MAX,
    ensures
        -256 <= r <= 255,
        r == ((a - org + pad) as i32 >> 23i32),
{
    let v: i64 = a as i64 - org as i64 + pad as i64;
    let w: i32 = v as i32;
    assert(i32::MIN <= v <= i32::MAX && w == v ==> (v >> 23i64) == (w >> 23i32) as i64) by (bit_vector);
    let r = v >> 23i64;
    assert(i32::MIN <= v <= i32::MAX ==> -256 <= (v >> 23i64) <= 255) by (bit_vector);
    r
}

/// What a position check of thing `idx` at `(x, y)` leaves, from level
/// `pre` and check state `ms0` to `post` and `ms`, with result `r`: the
/// thing cached, the level's fixed parts and the number of things kept,
/// only the requests of things run into added; a thing without clipping
/// passes with the check just begun, the things and requests unchanged and
/// the check counter stepped once; a passed check leaves heights within
/// the sector under the spot and only pickups requested.
pub open spec fn check_done<C: MovementContext>(pre: C, post: C, ms0: MovementState, ms: MovementState, idx: usize, x: Fixed, y: Fixed, r: bool) -> bool {
    &&& cached_for(ms, pre, idx, x, y)
    &&& ms.floatok == ms0.floatok
    &&& ms.spechit@.len() <= MAXSPECIALCROSS
    &&& same_level(pre, post)
    &&& post.mobjs_view().len() == pre.mobjs_view().len()
    &&& post.events().len() >= pre.events().len()
    &&& post.events().subrange(0, pre.events().len() as int) == pre.events()
    &&& check_requests(post.events(), pre.events().len() as int, idx)
    &&& (pre.mobjs_view()[idx as int].flags & MF_NOCLIP) != 0 ==> {
        &&& r
        &&& check_begun(ms, pre, idx, x, y)
        &&& post.events() == pre.events()
        &&& post.mobjs_view() == pre.mobjs_view()
        &&& post.validcount_view() == pre.validcount_view().wrapping_add(1)
    }
    &&& r ==> heights_within(ms, sector_under(pre, x, y))
    &&& r ==> pickups_after(post.events(), pre.events().len() as int, idx)
}

/// `P_CheckPosition`: whether thing `idx` could stand at `(x, y)`; the
/// check state holds what was found (see [`check_begun`]; the heights
/// then narrowed by the lines crossing the box, [`pit_check_line`]).
/// A thing without clipping always can. Otherwise the things in the
/// blockmap cells the box reaches (widened by [`MAXRADIUS`]) are checked
/// ([`pit_check_thing`]): a pickup is made on the spot; a lost soul
/// slamming into one does its impact damage (1 to 8 times its type's)
/// and stops with its momentum cleared in its spawn state; a missile
/// hitting one does its impact damage to it; either, or a thing in the
/// way, stops the check. Then the lines of the cells the box covers are
/// checked; one in the way stops it.
pub fn p_check_position<C: MovementContext>(thing_idx: usize, x: Fixed, y: Fixed, ms: &mut MovementState, ctx: &mut C) -> (r: bool)
    requires
        check_fits(*old(ctx), thing_idx, x, y),
    ensures
        check_done(*old(ctx), *final(ctx), *old(ms), *final(ms), thing_idx, x, y, r),
{
    let ghost pre = *ctx;
    let ghost n = pre.events().len() as int;
    let ghost fl0 = old(ms).floatok;
    begin_check(thing_idx, x, y, ms, ctx);
    let ghost ms0 = *ms;
    if (ms.tmflags & MF_NOCLIP) != 0 {
        proof {
            assert(ctx.events().subrange(0, n) =~= pre.events());
        }
        return true;
    }
    let orgx = ctx.bmap_orgx().0;
    let orgy = ctx.bmap_orgy().0;
    let xl = block_of(ms.tmbbox[BOXLEFT].0, orgx, -MAXRADIUS);
    let xh = block_of(ms.tmbbox[BOXRIGHT].0, orgx, MAXRADIUS);
    let yl = block_of(ms.tmbbox[BOXBOTTOM].0, orgy, -MAXRADIUS);
    let yh = block_of(ms.tmbbox[BOXTOP].0, orgy, MAXRADIUS);
    let mut all: Vec<usize> = Vec::new();
    let mut bx: i64 = xl;
    while bx <= xh
        invariant
            forall|i: int| 0 <= i < all@.len() ==> #[trigger] all@[i] < ctx.mobjs_view().len(),
            -256 <= xl <= bx,
            xh <= 255,
            -256 <= yl,
            yh <= 255,
        decreases xh + 1 - bx,
    {
        let mut by: i64 = yl;
        while by <= yh
            invariant
                forall|i: int| 0 <= i < all@.len() ==> #[trigger] all@[i] < ctx.mobjs_view().len(),
                -256 <= yl <= by,
                yh <= 255,
                -256 <= bx <= 255,
            decreases yh + 1 - by,
        {
            let things = ctx.block_things(bx as i32, by as i32);
            let mut k: usize = 0;
            while k < things.len()
                invariant
                    forall|i: int| 0 <= i < all@.len() ==> #[trigger] all@[i] < ctx.mobjs_view().len(),
                    forall|i: int| 0 <= i < things@.len() ==> #[trigger] things@[i] < ctx.mobjs_view().len(),
                decreases things@.len() - k,
            {
                all.push(things[k]);
                k = k + 1;
            }
            by = by + 1;
        }
        bx = bx + 1;
    }
    let mut i: usize = 0;
    while i < all.len()
        invariant
            0 <= i <= all@.len(),
            forall|j: int| 0 <= j < all@.len() ==> #[trigger] all@[j] < ctx.mobjs_view().len(),
            ms.tmthing_idx == Some(thing_idx),
            thing_idx < ctx.mobjs_view().len(),
            same_level(pre, *ctx),
            *ms == ms0,
            check_begun(ms0, pre, thing_idx, x, y),
            pre == *old(ctx),
            fl0 == old(ms).floatok,
            (ms0.tmflags & MF_NOCLIP) == 0,
            ms0.floatok == fl0,
            ctx.mobjs_view().len() == pre.mobjs_view().len(),
            ctx.events().len() >= n,
            ctx.events().subrange(0, n) == pre.events(),
            n == pre.events().len(),
            pickups_after(ctx.events(), n, thing_idx),
        decreases all@.len() - i,
    {
        let ti = all[i];
        let thing = ctx.mobjs()[ti];
        if !thing_fits_exec(&thing, ms) {
            proof { lemma_pickups_are_requests(ctx.events(), n, thing_idx); }
            return false;
        }
        let (cont, action) = pit_check_thing(ti, &thing, ms);
        let ghost before = ctx.events();
        match action {
            ThingAction::SkullSlam { attacker, target } => {
                let rv = ctx.p_random();
                let damage = ((rv % 8) as i32 + 1).wrapping_mul(ms.tm_info_damage);
                ctx.p_damage_mobj(target, Some(attacker), Some(attacker), damage);
                let mut mo = ctx.mobjs()[attacker];
                mo.flags = mo.flags & !MF_SKULLFLY;
                mo.momx = Fixed(0);
                mo.momy = Fixed(0);
                mo.momz = Fixed(0);
                ctx.set_mobj(attacker, mo);
                ctx.p_set_mobj_state(attacker, ms.tm_info_spawnstate);
                proof { lemma_slam_requests(before, ctx.events(), n, thing_idx, target, damage, ms.tm_info_spawnstate); }
                return false;
            },
            ThingAction::MissileHit { target, inflictor, source } => {
                let rv = ctx.p_random();
                let damage = ((rv % 8) as i32 + 1).wrapping_mul(ms.tm_info_damage);
                ctx.p_damage_mobj(target, Some(inflictor), source, damage);
                proof { lemma_hit_requests(before, ctx.events(), n, thing_idx, target, source, damage); }
                return false;
            },
            ThingAction::Pickup { special, toucher } => {
                ctx.p_touch_special_thing(special, toucher);
                proof {
                    assert forall|j: int| n <= j < ctx.events().len() implies
                        (#[trigger] ctx.events()[j] matches MoveEvent::TouchSpecial { toucher, .. } && toucher == thing_idx) by {
                        if j < before.len() {
                            assert(ctx.events()[j] == before[j]);
                        }
                    }
                    assert(ctx.events().subrange(0, n) =~= before.subrange(0, n));
                }
            },
            ThingAction::Continue => {},
        }
        if !cont {
            proof { lemma_pickups_are_requests(ctx.events(), n, thing_idx); }
            return false;
        }
        i = i + 1;
    }
    let ghost after_things = ctx.events();
    let vc = ctx.inc_validcount();
    let lxl = block_of(ms.tmbbox[BOXLEFT].0, orgx, 0);
    let lxh = block_of(ms.tmbbox[BOXRIGHT].0, orgx, 0);
    let lyl = block_of(ms.tmbbox[BOXBOTTOM].0, orgy, 0);
    let lyh = block_of(ms.tmbbox[BOXTOP].0, orgy, 0);
    let mut bx2: i64 = lxl;
    while bx2 <= lxh
        invariant
            -256 <= lxl <= bx2,
            lxh <= 255,
            -256 <= lyl,
            lyh <= 255,
            check_begun(ms0, pre, thing_idx, x, y),
            pre == *old(ctx),
            fl0 == old(ms).floatok,
            (ms0.tmflags & MF_NOCLIP) == 0,
            ms0.floatok == fl0,
            pickups_after(after_things, n, thing_idx),
            after_things.len() >= n,
            after_things.subrange(0, n) == pre.events(),
            n == pre.events().len(),
            same_inputs(ms0, *ms),
            heights_within(*ms, sector_under(pre, x, y)),
            ms.spechit@.len() <= MAXSPECIALCROSS,
            same_level(pre, *ctx),
            ctx.mobjs_view().len() == pre.mobjs_view().len(),
            ctx.events() == after_things,
        decreases lxh + 1 - bx2,
    {
        let mut by2: i64 = lyl;
        while by2 <= lyh
            invariant
                -256 <= lyl <= by2,
                lyh <= 255,
                -256 <= bx2 <= 255,
                check_begun(ms0, pre, thing_idx, x, y),
                pre == *old(ctx),
                fl0 == old(ms).floatok,
                (ms0.tmflags & MF_NOCLIP) == 0,
            (ms0.tmflags & MF_NOCLIP) == 0,
            pre == *old(ctx),
            fl0 == old(ms).floatok,
            (ms0.tmflags & MF_NOCLIP) == 0,
                ms0.floatok == fl0,
                pickups_after(after_things, n, thing_idx),
                after_things.len() >= n,
                after_things.subrange(0, n) == pre.events(),
                n == pre.events().len(),
                same_inputs(ms0, *ms),
                heights_within(*ms, sector_under(pre, x, y)),
                ms.spechit@.len() <= MAXSPECIALCROSS,
                same_level(pre, *ctx),
                ctx.mobjs_view().len() == pre.mobjs_view().len(),
                ctx.events() == after_things,
            decreases lyh + 1 - by2,
        {
            let lines = ctx.block_lines(bx2 as i32, by2 as i32, vc);
            let mut k: usize = 0;
            while k < lines.len()
                invariant
                    same_inputs(ms0, *ms),
                    heights_within(*ms, sector_under(pre, x, y)),
                    ms.spechit@.len() <= MAXSPECIALCROSS,
                    same_level(pre, *ctx),
                    ctx.mobjs_view().len() == pre.mobjs_view().len(),
                    ctx.events() == after_things,
                    forall|j: int| 0 <= j < lines@.len() ==> #[trigger] lines@[j] < ctx.lines_view().len(),
                    check_begun(ms0, pre, thing_idx, x, y),
                    pre == *old(ctx),
                    fl0 == old(ms).floatok,
                    (ms0.tmflags & MF_NOCLIP) == 0,
                (ms0.tmflags & MF_NOCLIP) == 0,
            (ms0.tmflags & MF_NOCLIP) == 0,
                pre == *old(ctx),
                fl0 == old(ms).floatok,
                (ms0.tmflags & MF_NOCLIP) == 0,
            (ms0.tmflags & MF_NOCLIP) == 0,
            pre == *old(ctx),
            fl0 == old(ms).floatok,
            (ms0.tmflags & MF_NOCLIP) == 0,
                    ms0.floatok == fl0,
                    pickups_after(after_things, n, thing_idx),
                    after_things.len() >= n,
                    after_things.subrange(0, n) == pre.events(),
                    n == pre.events().len(),
                decreases lines@.len() - k,
            {
                let li = lines[k];
                let ld = ctx.lines()[li];
                if !line_fits_exec(&ld, ms, ctx.sectors(), ctx.vertexes()) {
                    proof { lemma_pickups_are_requests(ctx.events(), n, thing_idx); }
                    return false;
                }
                if !pit_check_line(li, &ld, ms, ctx.sectors(), ctx.vertexes()) {
                    proof { lemma_pickups_are_requests(ctx.events(), n, thing_idx); }
                    return false;
                }
                k = k + 1;
            }
            by2 = by2 + 1;
        }
        bx2 = bx2 + 1;
    }
    proof { lemma_pickups_are_requests(ctx.events(), n, thing_idx); }
    true
}

proof fn lemma_pickups_are_requests(e: Seq<MoveEvent>, n: int, idx: usize)
    requires
        pickups_after(e, n, idx),
    ensures
        check_requests(e, n, idx),
{
    assert forall|i: int| n <= i < e.len() implies {
        ||| (#[trigger] e[i] matches MoveEvent::TouchSpecial { toucher, .. } && toucher == idx)
        ||| (e[i] matches MoveEvent::Damage { inflictor, .. } && inflictor == Some(idx))
        ||| (e[i] matches MoveEvent::SetState { mobj, .. } && mobj == idx)
    } by {
        assert(e[i] matches MoveEvent::TouchSpecial { toucher, .. } && toucher == idx);
    }
}

proof fn lemma_slam_requests(a: Seq<MoveEvent>, b: Seq<MoveEvent>, n: int, idx: usize, target: usize, damage: i32, st: usize)
    requires
        0 <= n <= a.len(),
        pickups_after(a, n, idx),
        b == a.push(MoveEvent::Damage { victim: target, inflictor: Some(idx), by: Some(idx), damage }).push(MoveEvent::SetState { mobj: idx, state: st }),
    ensures
        check_requests(b, n, idx),
        b.subrange(0, n) == a.subrange(0, n),
{
    assert forall|i: int| n <= i < b.len() implies {
        ||| (#[trigger] b[i] matches MoveEvent::TouchSpecial { toucher, .. } && toucher == idx)
        ||| (b[i] matches MoveEvent::Damage { inflictor, .. } && inflictor == Some(idx))
        ||| (b[i] matches MoveEvent::SetState { mobj, .. } && mobj == idx)
    } by {
        if i < a.len() {
            assert(b[i] == a[i]);
        }
    }
    assert(b.subrange(0, n) =~= a.subrange(0, n));
}

proof fn lemma_hit_requests(a: Seq<MoveEvent>, b: Seq<MoveEvent>, n: int, idx: usize, target: usize, source: Option<usize>, damage: i32)
    requires
        0 <= n <= a.len(),
        pickups_after(a, n, idx),
        b == a.push(MoveEvent::Damage { victim: target, inflictor: Some(idx), by: source, damage }),
    ensures
        check_requests(b, n, idx),
        b.subrange(0, n) == a.subrange(0, n),
{
    assert forall|i: int| n <= i < b.len() implies {
        ||| (#[trigger] b[i] matches MoveEvent::TouchSpecial { toucher, .. } && toucher == idx)
        ||| (b[i] matches MoveEvent::Damage { inflictor, .. } && inflictor == Some(idx))
        ||| (b[i] matches MoveEvent::SetState { mobj, .. } && mobj == idx)
    } by {
        if i < a.len() {
            assert(b[i] == a[i]);
        }
    }
    assert(b.subrange(0, n) =~= a.subrange(0, n));
}


/// Whether a thing `m` fits the heights a check found: the opening is
/// tall enough, and unless teleporting it need not duck under the ceiling
/// nor climb more than a step; unless it may drop off or floats, the
/// drop below is at most a step.
pub open spec fn vertical_ok(ms: MovementState, m: MapObject) -> bool {
    let teleport = (m.flags & MF_TELEPORT) != 0;
    &&& ms.tmceilingz.0 - ms.tmfloorz.0 >= m.height.0
    &&& (!teleport ==> ms.tmceilingz.0 - m.z.0 >= m.height.0)
    &&& (!teleport ==> ms.tmfloorz.0 - m.z.0 <= MAXSTEPHEIGHT)
    &&& (((m.flags & MF_DROPOFF) == 0 && (m.flags & MF_FLOAT) == 0) ==> ms.tmfloorz.0 - ms.tmdropoffz.0 <= MAXSTEPHEIGHT)
}

/// From index `n` on: pickups by thing `idx`, its unlinking and relinking,
/// then the special lines it crossed.
pub open spec fn moved_requests(e: Seq<MoveEvent>, n: int, idx: usize) -> bool {
    exists|k: int| #![trigger e[k]] n <= k && k + 1 < e.len() && {
        &&& pickups_after(e.subrange(0, k), n, idx)
        &&& e[k] == MoveEvent::Unlink { thing: idx }
        &&& e[k + 1] == MoveEvent::Link { thing: idx }
        &&& forall|i: int| k + 2 <= i < e.len() ==> (#[trigger] e[i] matches MoveEvent::CrossLine { thing, .. } && thing == idx)
    }
}

/// The side of line `li` that `(x, y)` is on ([`point_on_line_side`]),
/// when the line and its first vertex exist and the side can be computed.
fn crossed_side<C: MovementContext>(li: usize, x: Fixed, y: Fixed, ctx: &C) -> (r: Option<i32>)
    ensures
        r == if li < ctx.lines_view().len() && ctx.lines_view()[li as int].v1 < ctx.vertexes_view().len()
            && point_side_fits(x.0, y.0, ctx.lines_view()[li as int], ctx.vertexes_view()[ctx.lines_view()[li as int].v1 as int]) {
            Some(point_on_line_side(x.0, y.0, ctx.lines_view()[li as int], ctx.vertexes_view()[ctx.lines_view()[li as int].v1 as int]))
        } else {
            None
        },
{
    let lines = ctx.lines();
    if li >= lines.len() {
        return None;
    }
    let ld = lines[li];
    let verts = ctx.vertexes();
    if ld.v1 >= verts.len() || !point_fits_exec(x.0, y.0, &ld, &verts[ld.v1]) {
        return None;
    }
    Some(p_point_on_line_side(x, y, &ld, verts))
}

/// From `mid` to `linked`: thing `idx` unlinked, placed at `(x, y)`
/// between the heights of check state `ms` (its other fields kept), and
/// relinked.
pub open spec fn try_placed<C: MovementContext>(mid: C, linked: C, idx: usize, x: Fixed, y: Fixed, ms: MovementState) -> bool {
    let m = mid.mobjs_view()[idx as int];
    &&& linked.mobjs_view().len() == mid.mobjs_view().len()
    &&& same_but_links(MapObject { x, y, floorz: ms.tmfloorz, ceilingz: ms.tmceilingz, ..m }, linked.mobjs_view()[idx as int])
    &&& linked.events() == mid.events().push(MoveEvent::Unlink { thing: idx }).push(MoveEvent::Link { thing: idx })
}

/// A whole `P_TryMove` of thing `idx` to `(x, y)` from `pre` (check state
/// `ms0`) to `post` (check state `ms`), with result `r`: the position check
/// ([`check_done`], its result `checked`) leaves `mid` and `msc`; the move
/// succeeds exactly when the check passed and the thing, as it then is,
/// does not clip or fits the heights found ([`vertical_ok`]); `floatok`
/// records a passed check of a clipping thing whose opening is tall
/// enough; a failed move changes nothing more, a successful one places the
/// thing ([`try_placed`]) and then only special-line crossings by it are
/// requested.
pub open spec fn try_run<C: MovementContext>(
    pre: C,
    mid: C,
    ms0: MovementState,
    msc: MovementState,
    ms: MovementState,
    post: C,
    idx: usize,
    x: Fixed,
    y: Fixed,
    checked: bool,
    r: bool,
) -> bool {
    let mo = mid.mobjs_view()[idx as int];
    let noclip = (mo.flags & MF_NOCLIP) != 0;
    &&& check_done(pre, mid, MovementState { floatok: false, ..ms0 }, msc, idx, x, y, checked)
    &&& r == (checked && (noclip || vertical_ok(msc, mo)))
    &&& ms == (MovementState { floatok: checked && !noclip && msc.tmceilingz.0 - msc.tmfloorz.0 >= mo.height.0, ..msc })
    &&& !r ==> post == mid
    &&& r ==> exists|linked: C| {
        &&& #[trigger] try_placed(mid, linked, idx, x, y, msc)
        &&& post.events().len() >= linked.events().len()
        &&& post.events().subrange(0, linked.events().len() as int) == linked.events()
        &&& forall|i: int| linked.events().len() <= i < post.events().len() ==> (#[trigger] post.events()[i] matches MoveEvent::CrossLine { thing, .. } && thing == idx)
    }
}

/// `P_TryMove`: thing `idx` tries to move to `(x, y)`. The position
/// must pass [`p_check_position`], and, unless the thing does not clip,
/// the heights found must fit it ([`vertical_ok`]; `floatok` tells
/// whether the opening itself was tall enough). Then it is unlinked,
/// placed there between the heights found and relinked, and, unless
/// teleporting or unclipped, every special line it touched whose side it
/// changed is crossed, the last touched first.
pub fn p_try_move<C: MovementContext>(thing_idx: usize, x: Fixed, y: Fixed, ms: &mut MovementState, ctx: &mut C) -> (r: bool)
    requires
        check_fits(*old(ctx), thing_idx, x, y),
    ensures
        cached_for(*final(ms), *old(ctx), thing_idx, x, y),
        same_level(*old(ctx), *final(ctx)),
        final(ctx).mobjs_view().len() == old(ctx).mobjs_view().len(),
        final(ctx).events().len() >= old(ctx).events().len(),
        final(ctx).events().subrange(0, old(ctx).events().len() as int) == old(ctx).events(),
        r ==> moved_requests(final(ctx).events(), old(ctx).events().len() as int, thing_idx),
        r ==> heights_within(*final(ms), sector_under(*old(ctx), x, y)),
        !r ==> check_requests(final(ctx).events(), old(ctx).events().len() as int, thing_idx),
        exists|mid: C, msc: MovementState, checked: bool| #[trigger] try_run(*old(ctx), mid, *old(ms), msc, *final(ms), *final(ctx), thing_idx, x, y, checked, r),
{
    let ghost pre = *ctx;
    let ghost n = pre.events().len() as int;
    ms.floatok = false;
    let ok = p_check_position(thing_idx, x, y, ms, ctx);
    let ghost mid = *ctx;
    let ghost msc = *ms;
    if !ok {
        proof {
            assert(try_run(pre, mid, *old(ms), msc, *ms, *ctx, thing_idx, x, y, ok, false));
        }
        return false;
    }
    let ghost checked = ctx.events();
    let mo = ctx.mobjs()[thing_idx];
    if (mo.flags & MF_NOCLIP) == 0 {
        let fl = ms.tmfloorz.0 as i64;
        let ce = ms.tmceilingz.0 as i64;
        let dr = ms.tmdropoffz.0 as i64;
        let z = mo.z.0 as i64;
        let h = mo.height.0 as i64;
        if ce - fl < h {
            proof {
                lemma_pickups_are_requests(ctx.events(), n, thing_idx);
                assert(try_run(pre, mid, *old(ms), msc, *ms, *ctx, thing_idx, x, y, ok, false));
            }
            return false;
        }
        ms.floatok = true;
        if (mo.flags & MF_TELEPORT) == 0 && ce - z < h {
            proof {
                lemma_pickups_are_requests(ctx.events(), n, thing_idx);
                assert(try_run(pre, mid, *old(ms), msc, *ms, *ctx, thing_idx, x, y, ok, false));
            }
            return false;
        }
        if (mo.flags & MF_TELEPORT) == 0 && fl - z > MAXSTEPHEIGHT as i64 {
            proof {
                lemma_pickups_are_requests(ctx.events(), n, thing_idx);
                assert(try_run(pre, mid, *old(ms), msc, *ms, *ctx, thing_idx, x, y, ok, false));
            }
            return false;
        }
        if (mo.flags & MF_DROPOFF) == 0 && (mo.flags & MF_FLOAT) == 0 && fl - dr > MAXSTEPHEIGHT as i64 {
            proof {
                lemma_pickups_are_requests(ctx.events(), n, thing_idx);
                assert(try_run(pre, mid, *old(ms), msc, *ms, *ctx, thing_idx, x, y, ok, false));
            }
            return false;
        }
    }
    let oldx = mo.x;
    let oldy = mo.y;
    ctx.unset_thing_position(thing_idx);
    let mut m2 = ctx.mobjs()[thing_idx];
    m2.floorz = ms.tmfloorz;
    m2.ceilingz = ms.tmceilingz;
    m2.x = x;
    m2.y = y;
    ctx.set_mobj(thing_idx, m2);
    ctx.set_thing_position(thing_idx);
    let ghost linked = *ctx;
    proof {
        assert(try_placed(mid, linked, thing_idx, x, y, msc));
    }
    let ghost k = checked.len() as int;
    proof {
        assert(ctx.events() == checked.push(MoveEvent::Unlink { thing: thing_idx }).push(MoveEvent::Link { thing: thing_idx }));
        assert(ctx.events().subrange(0, k) =~= checked);
    }
    let flags2 = ctx.mobjs()[thing_idx].flags;
    if (flags2 & MF_TELEPORT) == 0 && (flags2 & MF_NOCLIP) == 0 {
        let count = ms.spechit.len();
        let mut data: Vec<(usize, i16)> = Vec::new();
        let mut i: usize = count;
        while i > 0
            invariant
                i <= count,
            decreases i,
        {
            i = i - 1;
            if i < ms.spechit.len() {
                let li = ms.spechit[i];
                if li < ctx.lines().len() {
                    data.push((li, ctx.lines()[li].special));
                }
            }
        }
        let mut j: usize = 0;
        while j < data.len()
            invariant
                same_level(pre, *ctx),
                ctx.mobjs_view().len() == pre.mobjs_view().len(),
                k == checked.len(),
                ctx.events().len() >= k + 2,
                ctx.events().subrange(0, k + 2) == checked.push(MoveEvent::Unlink { thing: thing_idx }).push(MoveEvent::Link { thing: thing_idx }),
                forall|i: int| k + 2 <= i < ctx.events().len() ==> (#[trigger] ctx.events()[i] matches MoveEvent::CrossLine { thing, .. } && thing == thing_idx),
            decreases data@.len() - j,
        {
            let (li, special) = data[j];
            let side = crossed_side(li, x, y, ctx);
            let oldside = crossed_side(li, oldx, oldy, ctx);
            if let (Some(s1), Some(s0)) = (side, oldside) {
                if s1 != s0 && special != 0 {
                    let ghost before = ctx.events();
                    ctx.p_cross_special_line(li, s0, thing_idx);
                    proof {
                        assert(ctx.events().subrange(0, k + 2) =~= before.subrange(0, k + 2));
                        assert forall|i: int| k + 2 <= i < ctx.events().len() implies
                            (#[trigger] ctx.events()[i] matches MoveEvent::CrossLine { thing, .. } && thing == thing_idx) by {
                            if i < before.len() {
                                assert(ctx.events()[i] == before[i]);
                            }
                        }
                    }
                }
            }
            j = j + 1;
        }
    }
    proof {
        let e = ctx.events();
        assert(e.subrange(0, k) =~= checked);
        assert(e.subrange(0, k).subrange(0, n) =~= e.subrange(0, n));
        assert(e[k] == e.subrange(0, k + 2)[k]);
        assert(e[k + 1] == e.subrange(0, k + 2)[k + 1]);
        assert(pickups_after(e.subrange(0, k), n, thing_idx));
        assert(e.subrange(0, n) =~= checked.subrange(0, n));
        assert(linked.events() == e.subrange(0, k + 2));
        assert(try_run(pre, mid, *old(ms), msc, *ms, *ctx, thing_idx, x, y, ok, true));
    }
    true
}

/// Thing `m` between the heights of check state `ms`: on its new floor
/// when it stood on its floor (`onfloor`), else pushed down under the new
/// ceiling when it no longer fits there.
pub open spec fn height_clipped(m: MapObject, ms: MovementState, onfloor: bool) -> MapObject {
    let m1 = MapObject { floorz: ms.tmfloorz, ceilingz: ms.tmceilingz, ..m };
    if onfloor {
        MapObject { z: ms.tmfloorz, ..m1 }
    } else if m1.z.0 + m1.height.0 > m1.ceilingz.0 {
        MapObject { z: Fixed(m1.ceilingz.0.wrapping_sub(m1.height.0)), ..m1 }
    } else {
        m1
    }
}

/// A height clip of thing `idx` from `pre` (check state `ms0`) to `post`
/// (check state `ms`): a position check at its spot ([`check_done`],
/// leaving `cc`), then the thing [`height_clipped`] between the heights
/// found.
pub open spec fn clip_run<C: MovementContext>(pre: C, cc: C, ms0: MovementState, ms: MovementState, post: C, idx: usize, chk: bool) -> bool {
    let m0 = pre.mobjs_view()[idx as int];
    &&& check_done(pre, cc, ms0, ms, idx, m0.x, m0.y, chk)
    &&& post.mobjs_view() == cc.mobjs_view().update(idx as int, height_clipped(cc.mobjs_view()[idx as int], ms, m0.z == m0.floorz))
    &&& post.events() == cc.events()
}

/// `P_ThingHeightClip`: after the sector heights changed, thing `idx`
/// takes the heights a check at its spot finds; a thing that stood on
/// its floor stays on the new floor; a floating one is pushed down only
/// as far as the new ceiling demands. Whether it still fits.
pub fn p_thing_height_clip<C: MovementContext>(thing_idx: usize, ms: &mut MovementState, ctx: &mut C) -> (r: bool)
    requires
        thing_idx < old(ctx).mobjs_view().len(),
        check_fits(*old(ctx), thing_idx, old(ctx).mobjs_view()[thing_idx as int].x, old(ctx).mobjs_view()[thing_idx as int].y),
    ensures
        ({
            let m0 = old(ctx).mobjs_view()[thing_idx as int];
            let m = final(ctx).mobjs_view()[thing_idx as int];
            &&& m.floorz == final(ms).tmfloorz
            &&& m.ceilingz == final(ms).tmceilingz
            &&& m0.z == m0.floorz ==> m.z == final(ms).tmfloorz
            &&& r == (m.ceilingz.0 - m.floorz.0 >= m.height.0)
        }),
        cached_for(*final(ms), *old(ctx), thing_idx, old(ctx).mobjs_view()[thing_idx as int].x, old(ctx).mobjs_view()[thing_idx as int].y),
        same_level(*old(ctx), *final(ctx)),
        final(ctx).mobjs_view().len() == old(ctx).mobjs_view().len(),
        final(ctx).events().subrange(0, old(ctx).events().len() as int) == old(ctx).events(),
        check_requests(final(ctx).events(), old(ctx).events().len() as int, thing_idx),
        exists|cc: C, chk: bool| #[trigger] clip_run(*old(ctx), cc, *old(ms), *final(ms), *final(ctx), thing_idx, chk),
{
    let m0 = ctx.mobjs()[thing_idx];
    let onfloor = m0.z.0 == m0.floorz.0;
    let chk = p_check_position(thing_idx, m0.x, m0.y, ms, ctx);
    let ghost cc = *ctx;
    let mut m = ctx.mobjs()[thing_idx];
    m.floorz = ms.tmfloorz;
    m.ceilingz = ms.tmceilingz;
    if onfloor {
        m.z = ms.tmfloorz;
    } else if m.z.0 as i64 + m.height.0 as i64 > m.ceilingz.0 as i64 {
        m.z = Fixed(m.ceilingz.0.wrapping_sub(m.height.0));
    }
    ctx.set_mobj(thing_idx, m);
    assert(m == height_clipped(cc.mobjs_view()[thing_idx as int], *ms, m0.z == m0.floorz));
    assert(check_done(*old(ctx), cc, *old(ms), *ms, thing_idx, m0.x, m0.y, chk));
    assert(clip_run(*old(ctx), cc, *old(ms), *ms, *ctx, thing_idx, chk));
    m.ceilingz.0 as i64 - m.floorz.0 as i64 >= m.height.0 as i64
}

/// `PIT_StompThing`: a teleporting thing telefrags (10000 damage) a
/// shootable thing within reach other than itself; a monster may only
/// do so on MAP30, elsewhere such a thing stops it.
pub fn pit_stomp_thing<C: MovementContext>(thing_idx: usize, ms: &MovementState, ctx: &mut C) -> (r: bool)
    requires
        thing_idx < old(ctx).mobjs_view().len(),
        ms.tmthing_idx is Some,
        thing_fits(old(ctx).mobjs_view()[thing_idx as int], *ms),
    ensures
        ({
            let t = old(ctx).mobjs_view()[thing_idx as int];
            let tm = ms.tmthing_idx->0;
            let blockdist = t.radius.0 + ms.tmradius.0;
            let passes = (t.flags & MF_SHOOTABLE) == 0 || abs_int(t.x.0 - ms.tmx.0) >= blockdist
                || abs_int(t.y.0 - ms.tmy.0) >= blockdist || thing_idx == tm;
            if passes {
                r && final(ctx).events() == old(ctx).events()
            } else if ms.tm_player is None && old(ctx).map_view() != 30 {
                !r && final(ctx).events() == old(ctx).events()
            } else {
                r && final(ctx).events() == old(ctx).events().push(
                    MoveEvent::Damage { victim: thing_idx, inflictor: Some(tm), by: Some(tm), damage: 10000 },
                )
            }
        }),
        same_level(*old(ctx), *final(ctx)),
        final(ctx).mobjs_view().len() == old(ctx).mobjs_view().len(),
{
    let t = ctx.mobjs()[thing_idx];
    if (t.flags & MF_SHOOTABLE) == 0 {
        return true;
    }
    let tm = match ms.tmthing_idx {
        Some(i) => i,
        None => return true,
    };
    let blockdist = t.radius.0 + ms.tmradius.0;
    let dx = t.x.0 - ms.tmx.0;
    let dy = t.y.0 - ms.tmy.0;
    let adx = if dx < 0 { -dx } else { dx };
    let ady = if dy < 0 { -dy } else { dy };
    if adx >= blockdist || ady >= blockdist {
        return true;
    }
    if thing_idx == tm {
        return true;
    }
    if ms.tm_player.is_none() && ctx.gamemap() != 30 {
        return false;
    }
    ctx.p_damage_mobj(thing_idx, Some(tm), Some(tm), 10000);
    true
}

/// `P_TeleportMove`: thing `idx` is set up at `(x, y)` as for a check;
/// every shootable thing in the way is telefragged ([`pit_stomp_thing`])
/// unless one stops it. Then it is unlinked, put at the spot standing on
/// the floor there, and relinked.
pub fn p_teleport_move<C: MovementContext>(thing_idx: usize, x: Fixed, y: Fixed, ms: &mut MovementState, ctx: &mut C) -> (r: bool)
    requires
        check_fits(*old(ctx), thing_idx, x, y),
    ensures
        check_begun(*final(ms), *old(ctx), thing_idx, x, y),
        same_level(*old(ctx), *final(ctx)),
        final(ctx).mobjs_view().len() == old(ctx).mobjs_view().len(),
        final(ctx).events().len() >= old(ctx).events().len(),
        final(ctx).events().subrange(0, old(ctx).events().len() as int) == old(ctx).events(),
        forall|i: int| old(ctx).events().len() <= i < final(ctx).events().len() ==> {
            ||| (#[trigger] final(ctx).events()[i] matches MoveEvent::Damage { inflictor, by, damage, .. }
                && inflictor == Some(thing_idx) && by == Some(thing_idx) && damage == 10000)
            ||| (r && final(ctx).events()[i] == MoveEvent::Unlink { thing: thing_idx })
            ||| (r && final(ctx).events()[i] == MoveEvent::Link { thing: thing_idx })
        },
        r ==> final(ctx).mobjs_view()[thing_idx as int].x == x && final(ctx).mobjs_view()[thing_idx as int].y == y,
{
    let ghost pre = *ctx;
    let ghost n = pre.events().len() as int;
    begin_check(thing_idx, x, y, ms, ctx);
    let ghost ms0 = *ms;
    let orgx = ctx.bmap_orgx().0;
    let orgy = ctx.bmap_orgy().0;
    let xl = block_of(ms.tmbbox[BOXLEFT].0, orgx, -MAXRADIUS);
    let xh = block_of(ms.tmbbox[BOXRIGHT].0, orgx, MAXRADIUS);
    let yl = block_of(ms.tmbbox[BOXBOTTOM].0, orgy, -MAXRADIUS);
    let yh = block_of(ms.tmbbox[BOXTOP].0, orgy, MAXRADIUS);
    let mut bx: i64 = xl;
    while bx <= xh
        invariant
            -256 <= xl <= bx,
            xh <= 255,
            -256 <= yl,
            yh <= 255,
            *ms == ms0,
            ms0.tmthing_idx == Some(thing_idx),
            check_begun(ms0, pre, thing_idx, x, y),
            pre == *old(ctx),
            same_level(pre, *ctx),
            ctx.mobjs_view().len() == pre.mobjs_view().len(),
            ctx.events().len() >= n,
            ctx.events().subrange(0, n) == pre.events(),
            n == pre.events().len(),
            forall|i: int| n <= i < ctx.events().len() ==> (#[trigger] ctx.events()[i] matches MoveEvent::Damage { inflictor, by, damage, .. }
                && inflictor == Some(thing_idx) && by == Some(thing_idx) && damage == 10000),
        decreases xh + 1 - bx,
    {
        let mut by: i64 = yl;
        while by <= yh
            invariant
                -256 <= yl <= by,
                yh <= 255,
                -256 <= bx <= 255,
                *ms == ms0,
                ms0.tmthing_idx == Some(thing_idx),
                check_begun(ms0, pre, thing_idx, x, y),
                pre == *old(ctx),
                same_level(pre, *ctx),
                ctx.mobjs_view().len() == pre.mobjs_view().len(),
                ctx.events().len() >= n,
                ctx.events().subrange(0, n) == pre.events(),
                n == pre.events().len(),
                forall|i: int| n <= i < ctx.events().len() ==> (#[trigger] ctx.events()[i] matches MoveEvent::Damage { inflictor, by, damage, .. }
                    && inflictor == Some(thing_idx) && by == Some(thing_idx) && damage == 10000),
            decreases yh + 1 - by,
        {
            let things = ctx.block_things(bx as i32, by as i32);
            let mut k: usize = 0;
            while k < things.len()
                invariant
                    *ms == ms0,
                    ms0.tmthing_idx == Some(thing_idx),
                    check_begun(ms0, pre, thing_idx, x, y),
                    pre == *old(ctx),
                    same_level(pre, *ctx),
                    ctx.mobjs_view().len() == pre.mobjs_view().len(),
                    forall|i: int| 0 <= i < things@.len() ==> #[trigger] things@[i] < ctx.mobjs_view().len(),
                    ctx.events().len() >= n,
                    ctx.events().subrange(0, n) == pre.events(),
                    n == pre.events().len(),
                    forall|i: int| n <= i < ctx.events().len() ==> (#[trigger] ctx.events()[i] matches MoveEvent::Damage { inflictor, by, damage, .. }
                        && inflictor == Some(thing_idx) && by == Some(thing_idx) && damage == 10000),
                decreases things@.len() - k,
            {
                let ti = things[k];
                let t = ctx.mobjs()[ti];
                if !thing_fits_exec(&t, ms) {
                    return false;
                }
                let ghost before = ctx.events();
                if !pit_stomp_thing(ti, ms, ctx) {
                    return false;
                }
                proof {
                    assert(ctx.events().subrange(0, n) =~= before.subrange(0, n));
                }
                k = k + 1;
            }
            by = by + 1;
        }
        bx = bx + 1;
    }
    let ghost stomped = ctx.events();
    ctx.unset_thing_position(thing_idx);
    let mut m = ctx.mobjs()[thing_idx];
    m.x = x;
    m.y = y;
    m.z = ms.tmfloorz;
    m.floorz = ms.tmfloorz;
    m.ceilingz = ms.tmceilingz;
    ctx.set_mobj(thing_idx, m);
    ctx.set_thing_position(thing_idx);
    proof {
        assert(ctx.events() == stomped.push(MoveEvent::Unlink { thing: thing_idx }).push(MoveEvent::Link { thing: thing_idx }));
        assert(ctx.events().subrange(0, n) =~= stomped.subrange(0, n));
    }
    true
}

/// A missile fired by a knight or a baron goes through a thing of its
/// shooter's own kind: touching it, the move goes on with nothing done,
/// and a missile only ever hits something shootable that is not of its
/// knight or baron shooter's kind. (A missile that is also a charging
/// lost soul slams instead.)
pub proof fn law_same_kind_missiles_pass(idx: usize, thing: MapObject, ms: MovementState)
    requires
        ms.tmflags & MF_SKULLFLY == 0,
    ensures
        (ms.tmflags & MF_MISSILE != 0 && ms.tm_target is Some && ms.tm_target_type == Some(thing.type_)
            && (thing.type_ == MT_KNIGHT || thing.type_ == MT_BRUISER)) ==> thing_check(idx, thing, ms) == (true, ThingAction::Continue),
        thing_check(idx, thing, ms).1 is MissileHit ==> {
            &&& thing.flags & MF_SHOOTABLE != 0
            &&& !(ms.tm_target is Some && ms.tm_target_type == Some(thing.type_) && (thing.type_ == MT_KNIGHT || thing.type_ == MT_BRUISER))
        },
{
}

} // verus!
