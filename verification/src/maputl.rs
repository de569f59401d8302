//! Map utilities used by movement and collision: distances, which side of
//! a line a point or box lies on, line openings, linking things into the
//! sector and blockmap lists, and tracing lines through the blockmap.

use vstd::prelude::*;
use crate::fixed::{fixed_div_spec, fixed_mul_spec, Fixed, FRACBITS, FRACUNIT};
use crate::types::{
    LineDef, MapObject, Sector, SlopeType, Subsector, Vertex, BOXBOTTOM, BOXLEFT, BOXRIGHT, BOXTOP, MF_NOBLOCKMAP,
    MF_NOSECTOR,
};

verus! {

/// Capacity of the intercept buffer.
pub const MAXINTERCEPTS: usize = 128;

/// Path traverse flag: collect line intercepts.
pub const PT_ADDLINES: i32 = 1;

/// Path traverse flag: collect thing intercepts.
pub const PT_ADDTHINGS: i32 = 2;

/// Path traverse flag: stop at the first one-sided line before the target.
pub const PT_EARLYOUT: i32 = 4;

/// The largest `i32`, used as "no intercept" distance.
pub const MAXINT: i32 = 0x7fff_ffff;

/// Blockmap cells are 128 units wide: `FRACBITS + 7`.
pub const MAPBLOCKSHIFT: i32 = 23;

/// A parametric line from `(x, y)` in direction `(dx, dy)`.
#[derive(Clone, Copy, Debug, Default, PartialEq, Eq, Structural)]
pub struct Divline {
    pub x: Fixed,
    pub y: Fixed,
    pub dx: Fixed,
    pub dy: Fixed,
}

/// What an intercept crossed: a line or a thing, by index.
#[derive(Clone, Copy, Debug, PartialEq, Eq, Structural)]
pub enum InterceptData {
    Line(usize),
    Thing(usize),
}

impl Default for InterceptData {
    fn default() -> (r: InterceptData)
        ensures
            r == InterceptData::Line(0),
    {
        InterceptData::Line(0)
    }
}

/// A point where a trace crosses a line or a thing, at fraction `frac`
/// of the trace (1.0 = its end).
#[derive(Clone, Copy, Debug, PartialEq, Eq, Structural)]
pub struct Intercept {
    pub frac: Fixed,
    pub is_a_line: bool,
    pub d: InterceptData,
}

impl Default for Intercept {
    fn default() -> (r: Intercept)
        ensures
            r == Intercept::blank(),
    {
        Intercept { frac: Fixed(0), is_a_line: false, d: InterceptData::Line(0) }
    }
}

impl Intercept {
    /// The empty intercept.
    pub open spec fn blank() -> Intercept {
        Intercept { frac: Fixed(0), is_a_line: false, d: InterceptData::Line(0) }
    }
}

/// The state the collision code shares between calls: the intercept
/// buffer and its fill count, the current trace, the early-out and path
/// flags, and the last line opening computed.
#[derive(Clone, Debug)]
pub struct MapUtilState {
    pub intercepts: [Intercept; MAXINTERCEPTS],
    pub intercept_p: usize,
    pub trace: Divline,
    pub earlyout: bool,
    pub ptflags: i32,
    pub opentop: Fixed,
    pub openbottom: Fixed,
    pub openrange: Fixed,
    pub lowfloor: Fixed,
}

impl MapUtilState {
    /// An empty buffer and everything zero.
    pub fn new() -> (r: MapUtilState)
        ensures
            forall|i: int| 0 <= i < MAXINTERCEPTS ==> #[trigger] r.intercepts@[i] == Intercept::blank(),
            r.intercept_p == 0,
            r.trace == (Divline { x: Fixed(0), y: Fixed(0), dx: Fixed(0), dy: Fixed(0) }),
            !r.earlyout,
            r.ptflags == 0,
            r.opentop == Fixed(0),
            r.openbottom == Fixed(0),
            r.openrange == Fixed(0),
            r.lowfloor == Fixed(0),
    {
        let blank = Intercept { frac: Fixed(0), is_a_line: false, d: InterceptData::Line(0) };
        MapUtilState {
            intercepts: [blank; 128],
            intercept_p: 0,
            trace: Divline { x: Fixed(0), y: Fixed(0), dx: Fixed(0), dy: Fixed(0) },
            earlyout: false,
            ptflags: 0,
            opentop: Fixed(0),
            openbottom: Fixed(0),
            openrange: Fixed(0),
            lowfloor: Fixed(0),
        }
    }
}

impl Default for MapUtilState {
    fn default() -> (r: MapUtilState)
        ensures
            r.intercept_p == 0,
            r.ptflags == 0,
    {
        MapUtilState::new()
    }
}

// ---------------------------------------------------------------------------
// Distance and sides
// ---------------------------------------------------------------------------

/// `abs` as two's complement computes it: `i32::MIN` stays negative.
pub open spec fn wrapping_abs(v: i32) -> int {
    if v == i32::MIN {
        v as int
    } else if v < 0 {
        -v
    } else {
        v as int
    }
}

/// `P_AproxDistance`: an estimate of the length of `(dx, dy)` within about
/// 4% ([`within_four_percent`]): the larger of `|dx|` and `|dy|`, or
/// seven eighths of it plus half the smaller when that is more (each part
/// rounded down).
pub open spec fn aprox_distance(dx: i32, dy: i32) -> int {
    let adx = wrapping_abs(dx);
    let ady = wrapping_abs(dy);
    let big = if adx < ady { ady } else { adx };
    let small = if adx < ady { adx } else { ady };
    let oct = big - big / 8 + small / 2;
    if oct > big { oct } else { big }
}

/// `r` is within 4% (and one unit) of the length `sqrt(s)` of `(dx, dy)`,
/// `s = dx * dx + dy * dy`: `0.96 * sqrt(s) - 1 <= r <= 1.04 * sqrt(s) + 1`,
/// written without the root.
pub open spec fn within_four_percent(dx: i32, dy: i32, r: int) -> bool {
    let s = (dx as int) * (dx as int) + (dy as int) * (dy as int);
    &&& 576 * s <= 625 * (r + 1) * (r + 1)
    &&& r <= 1 || 625 * (r - 1) * (r - 1) <= 676 * s
}

proof fn lemma_octagon_within(big: int, small: int)
    requires
        0 <= small <= big,
    ensures
        ({
            let oct = big - big / 8 + small / 2;
            let z = if oct > big { oct } else { big };
            let s = big * big + small * small;
            &&& 576 * s <= 625 * (z + 1) * (z + 1)
            &&& z <= 1 || 625 * (z - 1) * (z - 1) <= 676 * s
        }),
{
    let e = big / 8;
    let h = small / 2;
    assert(8 * e <= big < 8 * e + 8) by (nonlinear_arith)
        requires
            e == big / 8,
            big >= 0,
    ;
    assert(2 * h <= small < 2 * h + 2) by (nonlinear_arith)
        requires
            h == small / 2,
            small >= 0,
    ;
    let oct = big - e + h;
    let z = if oct > big { oct } else { big };
    let s = big * big + small * small;
    if 4 * small <= big {
        assert(576 * s <= 625 * big * big) by (nonlinear_arith)
            requires
                0 <= small,
                4 * small <= big,
                s == big * big + small * small,
        ;
        assert(625 * big * big <= 625 * (z + 1) * (z + 1)) by (nonlinear_arith)
            requires
                0 <= big <= z,
        ;
    } else {
        assert(36864 * s <= 625 * (7 * big + 4 * small) * (7 * big + 4 * small)) by (nonlinear_arith)
            requires
                0 <= small <= big,
                big < 4 * small,
                s == big * big + small * small,
        ;
        assert(0 <= 7 * big + 4 * small <= 8 * (z + 1));
        assert(625 * (7 * big + 4 * small) * (7 * big + 4 * small) <= 625 * (8 * (z + 1)) * (8 * (z + 1))) by (nonlinear_arith)
            requires
                0 <= 7 * big + 4 * small <= 8 * (z + 1),
        ;
        assert(36864 * s <= 40000 * (z + 1) * (z + 1)) by (nonlinear_arith)
            requires
                36864 * s <= 625 * (8 * (z + 1)) * (8 * (z + 1)),
        ;
        assert(576 * s <= 625 * (z + 1) * (z + 1)) by (nonlinear_arith)
            requires
                36864 * s <= 40000 * (z + 1) * (z + 1),
        ;
    }
    if z > 1 {
        if z == big {
            assert(625 * (z - 1) * (z - 1) <= 676 * s) by (nonlinear_arith)
                requires
                    z == big,
                    z > 1,
                    s == big * big + small * small,
                    small >= 0,
            ;
        } else {
            assert(0 <= 8 * (z - 1) <= 7 * big + 4 * small);
            assert(625 * (7 * big + 4 * small) * (7 * big + 4 * small) <= 43264 * s) by (nonlinear_arith)
                requires
                    0 <= small <= big,
                    s == big * big + small * small,
            ;
            assert(625 * (8 * (z - 1)) * (8 * (z - 1)) <= 625 * (7 * big + 4 * small) * (7 * big + 4 * small)) by (nonlinear_arith)
                requires
                    0 <= 8 * (z - 1) <= 7 * big + 4 * small,
            ;
            assert(625 * (z - 1) * (z - 1) <= 676 * s) by (nonlinear_arith)
                requires
                    625 * (8 * (z - 1)) * (8 * (z - 1)) <= 43264 * s,
            ;
        }
    }
}

/// [`wrapping_abs`].
fn abs_wrapping(v: i32) -> (r: i32)
    ensures
        r == wrapping_abs(v),
{
    if v == i32::MIN {
        v
    } else if v < 0 {
        -v
    } else {
        v
    }
}

/// Half of `v`, rounded down, for a `v` that is `i32::MIN` or not negative.
fn half_down(v: i32) -> (r: i32)
    requires
        v >= 0 || v == i32::MIN,
    ensures
        r == v / 2,
{
    if v < 0 {
        -1073741824
    } else {
        ((v as u32) / 2) as i32
    }
}

/// `P_AproxDistance`: see [`aprox_distance`]; for offsets other than
/// `i32::MIN` the estimate is within 4% of the length
/// ([`within_four_percent`]). The sum of the two absolute values must fit.
pub fn p_aprox_distance(dx: Fixed, dy: Fixed) -> (r: Fixed)
    requires
        i32::MIN <= wrapping_abs(dx.0) + wrapping_abs(dy.0) <= i32::MAX,
    ensures
        r.0 == aprox_distance(dx.0, dy.0),
        dx.0 != i32::MIN && dy.0 != i32::MIN ==> within_four_percent(dx.0, dy.0, r.0 as int),
{
    let adx = abs_wrapping(dx.0);
    let ady = abs_wrapping(dy.0);
    let (big, small) = if adx < ady { (ady, adx) } else { (adx, ady) };
    assert(big >= 0);
    let oct: i64 = big as i64 - (big / 8) as i64 + half_down(small) as i64;
    let r = if oct > big as i64 { oct as i32 } else { big };
    proof {
        if dx.0 != i32::MIN && dy.0 != i32::MIN {
            lemma_octagon_within(big as int, small as int);
            assert((dx.0 as int) * (dx.0 as int) + (dy.0 as int) * (dy.0 as int) == (big as int) * (big as int) + (small as int) * (small as int)) by (nonlinear_arith)
                requires
                    (big == adx && small == ady) || (big == ady && small == adx),
                    adx == dx.0 || adx == -dx.0,
                    ady == dy.0 || ady == -dy.0,
            ;
        }
    }
    Fixed(r)
}

/// `P_PointOnLineSide`: 0 when `(x, y)` is on the front (right) side of
/// `line`, whose first vertex is `v1`, 1 on the back side. Axis-parallel
/// lines compare a coordinate; others compare the cross products with the
/// line's direction cut down to its integer part.
pub open spec fn point_on_line_side(x: i32, y: i32, line: LineDef, v1: Vertex) -> i32 {
    if line.dx.0 == 0 {
        if x <= v1.x.0 {
            if line.dy.0 > 0 { 1 } else { 0 }
        } else {
            if line.dy.0 < 0 { 1 } else { 0 }
        }
    } else if line.dy.0 == 0 {
        if y <= v1.y.0 {
            if line.dx.0 < 0 { 1 } else { 0 }
        } else {
            if line.dx.0 > 0 { 1 } else { 0 }
        }
    } else {
        let left = fixed_mul_spec(line.dy.0 >> 16i32, (x - v1.x.0) as i32);
        let right = fixed_mul_spec((y - v1.y.0) as i32, line.dx.0 >> 16i32);
        if right < left { 0 } else { 1 }
    }
}

/// The offsets [`point_on_line_side`] takes from `v1` fit.
pub open spec fn point_side_fits(x: i32, y: i32, line: LineDef, v1: Vertex) -> bool {
    line.dx.0 != 0 && line.dy.0 != 0 ==> {
        &&& i32::MIN <= x - v1.x.0 <= i32::MAX
        &&& i32::MIN <= y - v1.y.0 <= i32::MAX
    }
}

/// `P_PointOnLineSide`: see [`point_on_line_side`].
pub fn p_point_on_line_side(x: Fixed, y: Fixed, line: &LineDef, vertexes: &[Vertex]) -> (r: i32)
    requires
        line.v1 < vertexes@.len(),
        point_side_fits(x.0, y.0, *line, vertexes@[line.v1 as int]),
    ensures
        r == point_on_line_side(x.0, y.0, *line, vertexes@[line.v1 as int]),
{
    let v1 = &vertexes[line.v1];
    if line.dx.0 == 0 {
        if x.0 <= v1.x.0 {
            return if line.dy.0 > 0 { 1 } else { 0 };
        }
        return if line.dy.0 < 0 { 1 } else { 0 };
    }
    if line.dy.0 == 0 {
        if y.0 <= v1.y.0 {
            return if line.dx.0 < 0 { 1 } else { 0 };
        }
        return if line.dx.0 > 0 { 1 } else { 0 };
    }
    let dx = Fixed(x.0 - v1.x.0);
    let dy = Fixed(y.0 - v1.y.0);
    let left = Fixed(line.dy.0 >> 16i32).fixed_mul(dx);
    let right = dy.fixed_mul(Fixed(line.dx.0 >> 16i32));
    if right.0 < left.0 {
        0
    } else {
        1
    }
}

/// `P_BoxOnLineSide`: 0 or 1 when the box `bx` lies wholly on the front or
/// back side of the (infinite) line `ld`, -1 when it crosses it. Two
/// opposite corners, chosen by the line's slope, are tested; for an
/// axis-parallel line a coordinate comparison, flipped for a line running
/// the other way, stands for the side test.
pub open spec fn box_on_line_side(bx: [Fixed; 4], ld: LineDef, v1: Vertex) -> i32 {
    let (p1, p2) = match ld.slopetype {
        SlopeType::Horizontal => {
            let flip = ld.dx.0 < 0;
            (
                if (bx@[BOXTOP as int].0 > v1.y.0) != flip { 1i32 } else { 0i32 },
                if (bx@[BOXBOTTOM as int].0 > v1.y.0) != flip { 1i32 } else { 0i32 },
            )
        },
        SlopeType::Vertical => {
            let flip = ld.dy.0 < 0;
            (
                if (bx@[BOXRIGHT as int].0 < v1.x.0) != flip { 1i32 } else { 0i32 },
                if (bx@[BOXLEFT as int].0 < v1.x.0) != flip { 1i32 } else { 0i32 },
            )
        },
        SlopeType::Positive => (
            point_on_line_side(bx@[BOXLEFT as int].0, bx@[BOXTOP as int].0, ld, v1),
            point_on_line_side(bx@[BOXRIGHT as int].0, bx@[BOXBOTTOM as int].0, ld, v1),
        ),
        SlopeType::Negative => (
            point_on_line_side(bx@[BOXRIGHT as int].0, bx@[BOXTOP as int].0, ld, v1),
            point_on_line_side(bx@[BOXLEFT as int].0, bx@[BOXBOTTOM as int].0, ld, v1),
        ),
    };
    if p1 == p2 { p1 } else { -1i32 }
}

/// The corner tests of [`box_on_line_side`] fit.
pub open spec fn box_side_fits(bx: [Fixed; 4], ld: LineDef, v1: Vertex) -> bool {
    match ld.slopetype {
        SlopeType::Positive => {
            &&& point_side_fits(bx@[BOXLEFT as int].0, bx@[BOXTOP as int].0, ld, v1)
            &&& point_side_fits(bx@[BOXRIGHT as int].0, bx@[BOXBOTTOM as int].0, ld, v1)
        },
        SlopeType::Negative => {
            &&& point_side_fits(bx@[BOXRIGHT as int].0, bx@[BOXTOP as int].0, ld, v1)
            &&& point_side_fits(bx@[BOXLEFT as int].0, bx@[BOXBOTTOM as int].0, ld, v1)
        },
        _ => true,
    }
}

/// `P_BoxOnLineSide`: see [`box_on_line_side`].
pub fn p_box_on_line_side(tmbox: &[Fixed; 4], ld: &LineDef, vertexes: &[Vertex]) -> (r: i32)
    requires
        ld.v1 < vertexes@.len(),
        box_side_fits(*tmbox, *ld, vertexes@[ld.v1 as int]),
    ensures
        r == box_on_line_side(*tmbox, *ld, vertexes@[ld.v1 as int]),
{
    let v1 = &vertexes[ld.v1];
    let (p1, p2): (i32, i32) = match ld.slopetype {
        SlopeType::Horizontal => {
            let mut p1: i32 = if tmbox[BOXTOP].0 > v1.y.0 { 1 } else { 0 };
            let mut p2: i32 = if tmbox[BOXBOTTOM].0 > v1.y.0 { 1 } else { 0 };
            if ld.dx.0 < 0 {
                p1 = 1 - p1;
                p2 = 1 - p2;
            }
            (p1, p2)
        },
        SlopeType::Vertical => {
            let mut p1: i32 = if tmbox[BOXRIGHT].0 < v1.x.0 { 1 } else { 0 };
            let mut p2: i32 = if tmbox[BOXLEFT].0 < v1.x.0 { 1 } else { 0 };
            if ld.dy.0 < 0 {
                p1 = 1 - p1;
                p2 = 1 - p2;
            }
            (p1, p2)
        },
        SlopeType::Positive => {
            let p1 = p_point_on_line_side(tmbox[BOXLEFT], tmbox[BOXTOP], ld, vertexes);
            let p2 = p_point_on_line_side(tmbox[BOXRIGHT], tmbox[BOXBOTTOM], ld, vertexes);
            (p1, p2)
        },
        SlopeType::Negative => {
            let p1 = p_point_on_line_side(tmbox[BOXRIGHT], tmbox[BOXTOP], ld, vertexes);
            let p2 = p_point_on_line_side(tmbox[BOXLEFT], tmbox[BOXBOTTOM], ld, vertexes);
            (p1, p2)
        },
    };
    if p1 == p2 {
        p1
    } else {
        -1
    }
}

/// `P_PointOnDivlineSide`: 0 when `(x, y)` is on the front side of the
/// divline, 1 on the back. Axis-parallel divlines compare a coordinate.
/// Otherwise, when an odd number of the divline's direction components and
/// the point's offsets are negative, the sign of `dy ^ x offset` decides;
/// else the cross products, each factor cut to its upper 24 bits, do.
pub open spec fn point_on_divline_side(x: i32, y: i32, line: Divline) -> i32 {
    if line.dx.0 == 0 {
        if x <= line.x.0 {
            if line.dy.0 > 0 { 1 } else { 0 }
        } else {
            if line.dy.0 < 0 { 1 } else { 0 }
        }
    } else if line.dy.0 == 0 {
        if y <= line.y.0 {
            if line.dx.0 < 0 { 1 } else { 0 }
        } else {
            if line.dx.0 > 0 { 1 } else { 0 }
        }
    } else {
        let dx = (x - line.x.0) as i32;
        let dy = (y - line.y.0) as i32;
        if (line.dy.0 ^ line.dx.0 ^ dx ^ dy) < 0 {
            if (line.dy.0 ^ dx) < 0 { 1 } else { 0 }
        } else {
            let left = fixed_mul_spec(line.dy.0 >> 8i32, dx >> 8i32);
            let right = fixed_mul_spec(dy >> 8i32, line.dx.0 >> 8i32);
            if right < left { 0 } else { 1 }
        }
    }
}

/// The offsets [`point_on_divline_side`] takes fit.
pub open spec fn divline_side_fits(x: i32, y: i32, line: Divline) -> bool {
    line.dx.0 != 0 && line.dy.0 != 0 ==> {
        &&& i32::MIN <= x - line.x.0 <= i32::MAX
        &&& i32::MIN <= y - line.y.0 <= i32::MAX
    }
}

/// `P_PointOnDivlineSide`: see [`point_on_divline_side`].
pub fn p_point_on_divline_side(x: Fixed, y: Fixed, line: &Divline) -> (r: i32)
    requires
        divline_side_fits(x.0, y.0, *line),
    ensures
        r == point_on_divline_side(x.0, y.0, *line),
{
    if line.dx.0 == 0 {
        if x.0 <= line.x.0 {
            return if line.dy.0 > 0 { 1 } else { 0 };
        }
        return if line.dy.0 < 0 { 1 } else { 0 };
    }
    if line.dy.0 == 0 {
        if y.0 <= line.y.0 {
            return if line.dx.0 < 0 { 1 } else { 0 };
        }
        return if line.dx.0 > 0 { 1 } else { 0 };
    }
    let dx = x.0 - line.x.0;
    let dy = y.0 - line.y.0;
    if (line.dy.0 ^ line.dx.0 ^ dx ^ dy) < 0 {
        if (line.dy.0 ^ dx) < 0 {
            return 1;
        }
        return 0;
    }
    let left = Fixed(line.dy.0 >> 8i32).fixed_mul(Fixed(dx >> 8i32));
    let right = Fixed(dy >> 8i32).fixed_mul(Fixed(line.dx.0 >> 8i32));
    if right.0 < left.0 {
        0
    } else {
        1
    }
}

/// `P_MakeDivline`: the divline from a linedef's first vertex along its direction.
pub fn p_make_divline(li: &LineDef, vertexes: &[Vertex]) -> (r: Divline)
    requires
        li.v1 < vertexes@.len(),
    ensures
        r == (Divline { x: vertexes@[li.v1 as int].x, y: vertexes@[li.v1 as int].y, dx: li.dx, dy: li.dy }),
{
    let v1 = &vertexes[li.v1];
    Divline { x: v1.x, y: v1.y, dx: li.dx, dy: li.dy }
}

/// `P_InterceptVector`: the fraction along `v2` at which `v1` crosses it,
/// or 0 for parallel lines, computed with 24-bit cut factors:
/// `num / den` with `den = (v1.dy >> 8) * v2.dx - (v1.dx >> 8) * v2.dy` and
/// `num = ((v1.x - v2.x) >> 8) * v1.dy + ((v2.y - v1.y) >> 8) * v1.dx`, all
/// in fixed point.
pub open spec fn intercept_vector(v2: Divline, v1: Divline) -> i32 {
    let den = fixed_mul_spec(v1.dy.0 >> 8i32, v2.dx.0) - fixed_mul_spec(v1.dx.0 >> 8i32, v2.dy.0);
    if den == 0 {
        0
    } else {
        let num = fixed_mul_spec(((v1.x.0 - v2.x.0) as i32) >> 8i32, v1.dy.0) + fixed_mul_spec(
            ((v2.y.0 - v1.y.0) as i32) >> 8i32,
            v1.dx.0,
        );
        fixed_div_spec(num as i32, den as i32)
    }
}

/// The sums and differences [`intercept_vector`] forms fit, and the
/// division does not see `i32::MIN`.
pub open spec fn intercept_fits(v2: Divline, v1: Divline) -> bool {
    let den = fixed_mul_spec(v1.dy.0 >> 8i32, v2.dx.0) - fixed_mul_spec(v1.dx.0 >> 8i32, v2.dy.0);
    &&& i32::MIN < den <= i32::MAX
    &&& den != 0 ==> {
        &&& i32::MIN <= v1.x.0 - v2.x.0 <= i32::MAX
        &&& i32::MIN <= v2.y.0 - v1.y.0 <= i32::MAX
        &&& i32::MIN < fixed_mul_spec(((v1.x.0 - v2.x.0) as i32) >> 8i32, v1.dy.0) + fixed_mul_spec(
            ((v2.y.0 - v1.y.0) as i32) >> 8i32,
            v1.dx.0,
        ) <= i32::MAX
    }
}

/// `P_InterceptVector`: see [`intercept_vector`].
pub fn p_intercept_vector(v2: &Divline, v1: &Divline) -> (r: Fixed)
    requires
        intercept_fits(*v2, *v1),
    ensures
        r.0 == intercept_vector(*v2, *v1),
{
    let den = Fixed(v1.dy.0 >> 8i32).fixed_mul(v2.dx).0 - Fixed(v1.dx.0 >> 8i32).fixed_mul(v2.dy).0;
    if den == 0 {
        return Fixed(0);
    }
    let num = Fixed((v1.x.0 - v2.x.0) >> 8i32).fixed_mul(v1.dy).0 + Fixed((v2.y.0 - v1.y.0) >> 8i32).fixed_mul(v1.dx).0;
    Fixed(num).fixed_div(Fixed(den))
}

// ---------------------------------------------------------------------------
// Line openings
// ---------------------------------------------------------------------------

/// `P_LineOpening` on `state`: for a one-sided line (no back sidedef) the
/// opening is empty; otherwise it spans from the higher floor to the lower
/// ceiling of the two sectors, and `lowfloor` is the lower floor.
pub open spec fn line_opening(state: MapUtilState, ld: LineDef, sectors: Seq<Sector>) -> MapUtilState {
    if ld.sidenum@[1] == -1 {
        MapUtilState { openrange: Fixed(0), ..state }
    } else {
        let front = sectors[ld.frontsector->0 as int];
        let back = sectors[ld.backsector->0 as int];
        let top = if front.ceilingheight.0 < back.ceilingheight.0 { front.ceilingheight } else { back.ceilingheight };
        let (bottom, low) = if front.floorheight.0 > back.floorheight.0 {
            (front.floorheight, back.floorheight)
        } else {
            (back.floorheight, front.floorheight)
        };
        MapUtilState { opentop: top, openbottom: bottom, lowfloor: low, openrange: Fixed((top.0 - bottom.0) as i32), ..state }
    }
}

/// A two-sided line names both sectors, and its opening's size fits.
pub open spec fn opening_fits(ld: LineDef, sectors: Seq<Sector>) -> bool {
    ld.sidenum@[1] != -1 ==> {
        &&& ld.frontsector is Some
        &&& ld.backsector is Some
        &&& ld.frontsector->0 < sectors.len()
        &&& ld.backsector->0 < sectors.len()
        &&& {
            let front = sectors[ld.frontsector->0 as int];
            let back = sectors[ld.backsector->0 as int];
            let top = if front.ceilingheight.0 < back.ceilingheight.0 { front.ceilingheight.0 } else { back.ceilingheight.0 };
            let bottom = if front.floorheight.0 > back.floorheight.0 { front.floorheight.0 } else { back.floorheight.0 };
            i32::MIN <= top - bottom <= i32::MAX
        }
    }
}

/// `P_LineOpening`: see [`line_opening`].
pub fn p_line_opening(state: &mut MapUtilState, linedef: &LineDef, sectors: &[Sector])
    requires
        opening_fits(*linedef, sectors@),
    ensures
        *final(state) == line_opening(*old(state), *linedef, sectors@),
{
    if linedef.sidenum[1] == -1 {
        state.openrange = Fixed(0);
        return;
    }
    let front_idx = match linedef.frontsector {
        Some(f) => f,
        None => return,
    };
    let back_idx = match linedef.backsector {
        Some(b) => b,
        None => return,
    };
    let front = &sectors[front_idx];
    let back = &sectors[back_idx];
    if front.ceilingheight.0 < back.ceilingheight.0 {
        state.opentop = front.ceilingheight;
    } else {
        state.opentop = back.ceilingheight;
    }
    if front.floorheight.0 > back.floorheight.0 {
        state.openbottom = front.floorheight;
        state.lowfloor = back.floorheight;
    } else {
        state.openbottom = back.floorheight;
        state.lowfloor = front.floorheight;
    }
    state.openrange = Fixed(state.opentop.0 - state.openbottom.0);
}

// ---------------------------------------------------------------------------
// Thing positions
// ---------------------------------------------------------------------------

/// The thing is kept in its sector's thing list.
pub open spec fn sector_linked(m: MapObject) -> bool {
    (m.flags & MF_NOSECTOR) == 0
}

/// The thing is kept in its blockmap cell's thing list.
pub open spec fn block_linked(m: MapObject) -> bool {
    (m.flags & MF_NOBLOCKMAP) == 0
}

/// The blockmap cell holding the point `(x, y)`, as an index into the
/// cell heads, or `None` when the point is off the blockmap.
pub open spec fn block_cell(x: i32, y: i32, orgx: i32, orgy: i32, width: i32, height: i32) -> Option<int> {
    let bx = ((x - orgx) as i32) >> 23i32;
    let by = ((y - orgy) as i32) >> 23i32;
    if 0 <= bx < width && 0 <= by < height {
        Some(by * width + bx)
    } else {
        None
    }
}

/// The offsets from the blockmap origin fit, and the cell of `(x, y)`, if
/// any, is one of the `n` cell heads.
pub open spec fn cell_fits(x: i32, y: i32, orgx: i32, orgy: i32, width: i32, height: i32, n: int) -> bool {
    &&& i32::MIN <= x - orgx <= i32::MAX
    &&& i32::MIN <= y - orgy <= i32::MAX
    &&& block_cell(x, y, orgx, orgy, width, height) matches Some(i) ==> i < n && i <= i32::MAX
}

/// `ms` with thing `i`, if any, given `sprev` `v`.
pub open spec fn with_sprev(ms: Seq<MapObject>, i: Option<usize>, v: Option<usize>) -> Seq<MapObject> {
    match i {
        Some(n) => ms.update(n as int, MapObject { sprev: v, ..ms[n as int] }),
        None => ms,
    }
}

/// `ms` with thing `i`, if any, given `snext` `v`.
pub open spec fn with_snext(ms: Seq<MapObject>, i: Option<usize>, v: Option<usize>) -> Seq<MapObject> {
    match i {
        Some(n) => ms.update(n as int, MapObject { snext: v, ..ms[n as int] }),
        None => ms,
    }
}

/// `ms` with thing `i`, if any, given `bprev` `v`.
pub open spec fn with_bprev(ms: Seq<MapObject>, i: Option<usize>, v: Option<usize>) -> Seq<MapObject> {
    match i {
        Some(n) => ms.update(n as int, MapObject { bprev: v, ..ms[n as int] }),
        None => ms,
    }
}

/// `ms` with thing `i`, if any, given `bnext` `v`.
pub open spec fn with_bnext(ms: Seq<MapObject>, i: Option<usize>, v: Option<usize>) -> Seq<MapObject> {
    match i {
        Some(n) => ms.update(n as int, MapObject { bnext: v, ..ms[n as int] }),
        None => ms,
    }
}

/// The things after `P_UnsetThingPosition` of thing `t` (`m` being `t`
/// before): in its sector list the neighbours are joined around it, then
/// likewise in its blockmap list; a list it is not kept in is not touched.
pub open spec fn unset_things(ms: Seq<MapObject>, m: MapObject) -> Seq<MapObject> {
    let a = if sector_linked(m) { with_snext(with_sprev(ms, m.snext, m.sprev), m.sprev, m.snext) } else { ms };
    if block_linked(m) { with_bnext(with_bprev(a, m.bnext, m.bprev), m.bprev, m.bnext) } else { a }
}

/// The sectors after `P_UnsetThingPosition` of a thing `m`: when it headed
/// its sector's list, the list now starts at its successor.
pub open spec fn unset_sectors(secs: Seq<Sector>, subs: Seq<Subsector>, m: MapObject) -> Seq<Sector> {
    if sector_linked(m) && m.sprev is None && m.subsector is Some {
        let sec = subs[m.subsector->0 as int].sector as int;
        secs.update(sec, Sector { thinglist: m.snext, ..secs[sec] })
    } else {
        secs
    }
}

/// The blockmap cell heads after `P_UnsetThingPosition` of a thing `m`:
/// when it headed its cell's list, the list now starts at its successor.
pub open spec fn unset_links(links: Seq<Option<usize>>, m: MapObject, orgx: i32, orgy: i32, width: i32, height: i32) -> Seq<Option<usize>> {
    if block_linked(m) && m.bprev is None {
        match block_cell(m.x.0, m.y.0, orgx, orgy, width, height) {
            Some(i) => links.update(i, m.bnext),
            None => links,
        }
    } else {
        links
    }
}

/// The thing's list neighbours exist, and so does the sector of its
/// subsector; its position's cell fits the blockmap.
pub open spec fn unset_fits(ms: Seq<MapObject>, secs: Seq<Sector>, subs: Seq<Subsector>, n_links: int, m: MapObject, orgx: i32, orgy: i32, width: i32, height: i32) -> bool {
    &&& (m.snext matches Some(n) ==> n < ms.len())
    &&& (m.sprev matches Some(n) ==> n < ms.len())
    &&& (m.bnext matches Some(n) ==> n < ms.len())
    &&& (m.bprev matches Some(n) ==> n < ms.len())
    &&& (m.subsector matches Some(ss) ==> ss < subs.len() && subs[ss as int].sector < secs.len())
    &&& cell_fits(m.x.0, m.y.0, orgx, orgy, width, height, n_links)
}

/// `P_UnsetThingPosition`: take thing `thing_idx` out of its sector's and
/// its blockmap cell's thing lists (see [`unset_things`], [`unset_sectors`],
/// [`unset_links`]).
pub fn p_unset_thing_position(
    thing_idx: usize,
    mobjs: &mut [MapObject],
    sectors: &mut [Sector],
    subsectors: &[Subsector],
    blocklinks: &mut [Option<usize>],
    bmaporgx: Fixed,
    bmaporgy: Fixed,
    bmapwidth: i32,
    bmapheight: i32,
)
    requires
        thing_idx < old(mobjs)@.len(),
        unset_fits(old(mobjs)@, old(sectors)@, subsectors@, old(blocklinks)@.len() as int, old(mobjs)@[thing_idx as int], bmaporgx.0, bmaporgy.0, bmapwidth, bmapheight),
    ensures
        final(mobjs)@ == unset_things(old(mobjs)@, old(mobjs)@[thing_idx as int]),
        final(sectors)@ == unset_sectors(old(sectors)@, subsectors@, old(mobjs)@[thing_idx as int]),
        final(blocklinks)@ == unset_links(old(blocklinks)@, old(mobjs)@[thing_idx as int], bmaporgx.0, bmaporgy.0, bmapwidth, bmapheight),
{
    let ghost m0 = mobjs@[thing_idx as int];
    let flags = mobjs[thing_idx].flags;
    let snext = mobjs[thing_idx].snext;
    let sprev = mobjs[thing_idx].sprev;
    let bnext = mobjs[thing_idx].bnext;
    let bprev = mobjs[thing_idx].bprev;
    let subsector_opt = mobjs[thing_idx].subsector;
    let x = mobjs[thing_idx].x;
    let y = mobjs[thing_idx].y;
    if (flags & MF_NOSECTOR) == 0 {
        if let Some(snext_idx) = snext {
            mobjs[snext_idx].sprev = sprev;
        }
        if let Some(sprev_idx) = sprev {
            mobjs[sprev_idx].snext = snext;
        } else if let Some(ss_idx) = subsector_opt {
            let sec_idx = subsectors[ss_idx].sector;
            sectors[sec_idx].thinglist = snext;
        }
    }
    proof {
        assert(mobjs@ =~= if sector_linked(m0) { with_snext(with_sprev(old(mobjs)@, m0.snext, m0.sprev), m0.sprev, m0.snext) } else { old(mobjs)@ });
    }
    if (flags & MF_NOBLOCKMAP) == 0 {
        if let Some(bnext_idx) = bnext {
            mobjs[bnext_idx].bprev = bprev;
        }
        if let Some(bprev_idx) = bprev {
            mobjs[bprev_idx].bnext = bnext;
        } else {
            let blockx = (x.0 - bmaporgx.0) >> 23i32;
            let blocky = (y.0 - bmaporgy.0) >> 23i32;
            if blockx >= 0 && blockx < bmapwidth && blocky >= 0 && blocky < bmapheight {
                let idx = (blocky * bmapwidth + blockx) as usize;
                blocklinks[idx] = bnext;
            }
        }
    }
    proof {
        assert(mobjs@ =~= unset_things(old(mobjs)@, m0));
        assert(blocklinks@ =~= unset_links(old(blocklinks)@, m0, bmaporgx.0, bmaporgy.0, bmapwidth, bmapheight));
        assert(sectors@ =~= unset_sectors(old(sectors)@, subsectors@, m0));
    }
}

/// The things after `P_SetThingPosition` put thing `t` (`m` before) in
/// subsector `ss` of sector `sec`: it records the subsector; when kept in
/// sector lists it becomes the head of `sec`'s list in front of the old
/// head `shead`; when kept in blockmap lists it becomes the head of its
/// cell's list in front of the old head `bhead`, or has no blockmap
/// neighbours when off the map.
pub open spec fn set_things(ms: Seq<MapObject>, t: usize, ss: usize, shead: Option<usize>, cell: Option<int>, bhead: Option<usize>) -> Seq<MapObject> {
    let m = ms[t as int];
    let a = ms.update(t as int, MapObject { subsector: Some(ss), ..m });
    let b = if sector_linked(m) {
        with_sprev(a.update(t as int, MapObject { sprev: None, snext: shead, ..a[t as int] }), shead, Some(t))
    } else {
        a
    };
    if block_linked(m) {
        match cell {
            Some(i) => with_bprev(b.update(t as int, MapObject { bprev: None, bnext: bhead, ..b[t as int] }), bhead, Some(t)),
            None => b.update(t as int, MapObject { bnext: None, bprev: None, ..b[t as int] }),
        }
    } else {
        b
    }
}

/// The heads of the sector and blockmap lists a placed thing may enter exist.
pub open spec fn set_fits(ms: Seq<MapObject>, secs: Seq<Sector>, n_links: int, links: Seq<Option<usize>>, m: MapObject, orgx: i32, orgy: i32, width: i32, height: i32) -> bool {
    &&& forall|j: int| 0 <= j < secs.len() ==> ((#[trigger] secs[j]).thinglist matches Some(h) ==> h < ms.len())
    &&& forall|j: int| 0 <= j < links.len() ==> ((#[trigger] links[j]) matches Some(h) ==> h < ms.len())
    &&& cell_fits(m.x.0, m.y.0, orgx, orgy, width, height, n_links)
}

/// `P_SetThingPosition`: put thing `thing_idx` in the subsector
/// `point_in_subsector` gives for its position and at the head of its
/// sector's and blockmap cell's thing lists (see [`set_things`]). Every
/// subsector the lookup gives must exist, with its sector.
pub fn p_set_thing_position<F: Fn(Fixed, Fixed) -> usize>(
    thing_idx: usize,
    mobjs: &mut [MapObject],
    sectors: &mut [Sector],
    subsectors: &[Subsector],
    blocklinks: &mut [Option<usize>],
    bmaporgx: Fixed,
    bmaporgy: Fixed,
    bmapwidth: i32,
    bmapheight: i32,
    point_in_subsector: F,
)
    requires
        thing_idx < old(mobjs)@.len(),
        call_requires(point_in_subsector, (old(mobjs)@[thing_idx as int].x, old(mobjs)@[thing_idx as int].y)),
        forall|ss: usize| #[trigger] call_ensures(point_in_subsector, (old(mobjs)@[thing_idx as int].x, old(mobjs)@[thing_idx as int].y), ss)
            ==> ss < subsectors@.len() && subsectors@[ss as int].sector < old(sectors)@.len(),
        set_fits(old(mobjs)@, old(sectors)@, old(blocklinks)@.len() as int, old(blocklinks)@, old(mobjs)@[thing_idx as int], bmaporgx.0, bmaporgy.0, bmapwidth, bmapheight),
    ensures
        ({
            let m = old(mobjs)@[thing_idx as int];
            let cell = block_cell(m.x.0, m.y.0, bmaporgx.0, bmaporgy.0, bmapwidth, bmapheight);
            exists|ss: usize| {
                &&& #[trigger] call_ensures(point_in_subsector, (m.x, m.y), ss)
                &&& {
                    let sec = subsectors@[ss as int].sector as int;
                    let shead = old(sectors)@[sec].thinglist;
                    let bhead = match cell { Some(i) => old(blocklinks)@[i], None => None };
                    &&& final(mobjs)@ == set_things(old(mobjs)@, thing_idx, ss, shead, cell, bhead)
                    &&& final(sectors)@ == if sector_linked(m) {
                        old(sectors)@.update(sec, Sector { thinglist: Some(thing_idx), ..old(sectors)@[sec] })
                    } else {
                        old(sectors)@
                    }
                    &&& final(blocklinks)@ == if block_linked(m) && cell is Some {
                        old(blocklinks)@.update(cell->0, Some(thing_idx))
                    } else {
                        old(blocklinks)@
                    }
                }
            }
        }),
{
    let ghost ms0 = mobjs@;
    let x = mobjs[thing_idx].x;
    let y = mobjs[thing_idx].y;
    let flags = mobjs[thing_idx].flags;
    let ss_idx = point_in_subsector(x, y);
    assert(call_ensures(point_in_subsector, (ms0[thing_idx as int].x, ms0[thing_idx as int].y), ss_idx));
    mobjs[thing_idx].subsector = Some(ss_idx);
    let sec_idx = subsectors[ss_idx].sector;
    let ghost shead = sectors@[sec_idx as int].thinglist;
    let ghost m = ms0[thing_idx as int];
    let ghost cell = block_cell(m.x.0, m.y.0, bmaporgx.0, bmaporgy.0, bmapwidth, bmapheight);
    let ghost bhead = match cell { Some(i) => blocklinks@[i], None => None };
    if (flags & MF_NOSECTOR) == 0 {
        mobjs[thing_idx].sprev = None;
        let old_head = sectors[sec_idx].thinglist;
        mobjs[thing_idx].snext = old_head;
        if let Some(old_head_idx) = old_head {
            assert(old_head_idx < ms0.len());
            mobjs[old_head_idx].sprev = Some(thing_idx);
        }
        sectors[sec_idx].thinglist = Some(thing_idx);
    }
    proof {
        let a = ms0.update(thing_idx as int, MapObject { subsector: Some(ss_idx), ..m });
        assert(mobjs@ =~= if sector_linked(m) {
            with_sprev(a.update(thing_idx as int, MapObject { sprev: None, snext: shead, ..a[thing_idx as int] }), shead, Some(thing_idx))
        } else {
            a
        });
    }
    if (flags & MF_NOBLOCKMAP) == 0 {
        let blockx = (x.0 - bmaporgx.0) >> 23i32;
        let blocky = (y.0 - bmaporgy.0) >> 23i32;
        if blockx >= 0 && blockx < bmapwidth && blocky >= 0 && blocky < bmapheight {
            let idx = (blocky * bmapwidth + blockx) as usize;
            mobjs[thing_idx].bprev = None;
            let old_head = blocklinks[idx];
            mobjs[thing_idx].bnext = old_head;
            if let Some(old_head_idx) = old_head {
                assert(old_head_idx < ms0.len());
                mobjs[old_head_idx].bprev = Some(thing_idx);
            }
            blocklinks[idx] = Some(thing_idx);
        } else {
            mobjs[thing_idx].bnext = None;
            mobjs[thing_idx].bprev = None;
        }
    }
    proof {
        assert(mobjs@ =~= set_things(ms0, thing_idx, ss_idx, shead, cell, bhead));
    }
}

// ---------------------------------------------------------------------------
// Blockmap iteration
// ---------------------------------------------------------------------------

/// The line list of a blockmap cell: starting at `offset` in `lump`, line
/// numbers of existing lines up to a -1 end marker at `end`.
pub open spec fn block_list(lump: Seq<i16>, offset: int, end: int, n_lines: int) -> bool {
    &&& 0 <= offset <= end < lump.len()
    &&& lump[end] == -1
    &&& forall|i: int| offset <= i < end ==> 0 <= #[trigger] lump[i] < n_lines
}

/// A line-list callback that may be called in any state with any line.
pub open spec fn line_callable<F: FnMut(usize, LineDef) -> bool>() -> bool {
    forall|f: F, i: usize, l: LineDef| call_requires(f, (i, l))
}

/// `P_BlockLinesIterator`: call `func` on each line listed for blockmap
/// cell `(x, y)`, in list order, skipping lines already marked with
/// `validcount` and marking the others, until `func` returns false.
/// Returns false exactly when it stopped so; a cell off the blockmap has
/// no lines. Only the marks of listed lines change, and when the whole list
/// was walked every listed line is marked.
pub fn p_block_lines_iterator<F: FnMut(usize, LineDef) -> bool>(
    x: i32,
    y: i32,
    blockmap: &[i16],
    blockmaplump: &[i16],
    lines: &mut [LineDef],
    bmapwidth: i32,
    bmapheight: i32,
    validcount: i32,
    func: &mut F,
) -> (r: bool)
    requires
        line_callable::<F>(),
        0 <= x < bmapwidth && 0 <= y < bmapheight ==> {
            &&& y * bmapwidth + x < blockmap@.len()
            &&& y * bmapwidth + x <= i32::MAX
            &&& exists|end: int| #[trigger] block_list(blockmaplump@, blockmap@[y * bmapwidth + x] as int, end, old(lines)@.len() as int)
        },
    ensures
        final(lines)@.len() == old(lines)@.len(),
        forall|j: int| 0 <= j < old(lines)@.len() ==> (#[trigger] final(lines)@[j]) == (LineDef { validcount: final(lines)@[j].validcount, ..old(lines)@[j] }),
        forall|j: int| 0 <= j < old(lines)@.len() ==> #[trigger] final(lines)@[j].validcount == old(lines)@[j].validcount || final(lines)@[j].validcount == validcount,
        !(0 <= x < bmapwidth && 0 <= y < bmapheight) ==> r && final(lines)@ == old(lines)@,
        0 <= x < bmapwidth && 0 <= y < bmapheight ==> {
            let offset = blockmap@[y * bmapwidth + x] as int;
            r ==> forall|end: int, i: int| #[trigger] block_list(blockmaplump@, offset, end, old(lines)@.len() as int) && offset <= i < end
                ==> #[trigger] final(lines)@[blockmaplump@[i] as int].validcount == validcount
        },
{
    if x < 0 || y < 0 || x >= bmapwidth || y >= bmapheight {
        return true;
    }
    let table_idx = (y * bmapwidth + x) as usize;
    let ghost offset = blockmap@[table_idx as int] as int;
    let ghost end = choose|end: int| block_list(blockmaplump@, offset, end, old(lines)@.len() as int);
    let mut list_idx: usize = blockmap[table_idx] as usize;
    while blockmaplump[list_idx] != -1
        invariant
            line_callable::<F>(),
            0 <= x < bmapwidth && 0 <= y < bmapheight,
            block_list(blockmaplump@, offset, end, old(lines)@.len() as int),
            offset <= list_idx <= end,
            lines@.len() == old(lines)@.len(),
            forall|j: int| 0 <= j < old(lines)@.len() ==> (#[trigger] lines@[j]) == (LineDef { validcount: lines@[j].validcount, ..old(lines)@[j] }),
            forall|j: int| 0 <= j < old(lines)@.len() ==> #[trigger] lines@[j].validcount == old(lines)@[j].validcount || lines@[j].validcount == validcount,
            forall|i: int| offset <= i < list_idx ==> #[trigger] lines@[blockmaplump@[i] as int].validcount == validcount,
        decreases end - list_idx,
    {
        let line_num = blockmaplump[list_idx] as usize;
        list_idx = list_idx + 1;
        if lines[line_num].validcount == validcount {
            continue;
        }
        lines[line_num].validcount = validcount;
        let ld = lines[line_num];
        if !func(line_num, ld) {
            return false;
        }
    }
    proof {
        assert forall|end2: int, i: int| #[trigger] block_list(blockmaplump@, offset, end2, old(lines)@.len() as int) && offset <= i < end2
            implies #[trigger] lines@[blockmaplump@[i] as int].validcount == validcount by {
            if end2 != end {
                if end2 < end {
                    assert(blockmaplump@[end2] == -1);
                    assert(0 <= blockmaplump@[end2]);
                } else {
                    assert(blockmaplump@[end] == -1);
                    assert(0 <= blockmaplump@[end]);
                }
            }
        }
    }
    true
}

/// The blockmap thing list from `cur` ends within `n` links.
pub open spec fn chain_ends(ms: Seq<MapObject>, cur: Option<usize>, n: nat) -> bool
    decreases n,
{
    match cur {
        None => true,
        Some(i) => n > 0 && i < ms.len() && chain_ends(ms, ms[i as int].bnext, (n - 1) as nat),
    }
}

/// A thing-list callback that may be called in any state with any thing.
pub open spec fn thing_callable<F: FnMut(usize, &MapObject) -> bool>() -> bool {
    forall|f: F, i: usize, m: &MapObject| call_requires(f, (i, m))
}

/// The things of the blockmap list from `cur`, following `bnext` links,
/// at most `n` of them.
pub open spec fn chain_seq(ms: Seq<MapObject>, cur: Option<usize>, n: nat) -> Seq<usize>
    decreases n,
{
    match cur {
        None => Seq::empty(),
        Some(i) => if n == 0 || i >= ms.len() {
            Seq::empty()
        } else {
            seq![i] + chain_seq(ms, ms[i as int].bnext, (n - 1) as nat)
        },
    }
}

/// Some run of a callback of type `F` on thing `i` went on (returned true).
pub open spec fn went_on<F: FnMut(usize, &MapObject) -> bool>(ms: Seq<MapObject>, i: usize) -> bool {
    exists|g: F| #[trigger] call_ensures(g, (i, &ms[i as int]), true)
}

/// Some run of a callback of type `F` on thing `i` stopped (returned false).
pub open spec fn stopped_at<F: FnMut(usize, &MapObject) -> bool>(ms: Seq<MapObject>, i: usize) -> bool {
    exists|g: F| #[trigger] call_ensures(g, (i, &ms[i as int]), false)
}

/// Each of the first `k` things of `c` was handed to a callback of type
/// `F`, which went on (returned true).
pub open spec fn handed_true<F: FnMut(usize, &MapObject) -> bool>(ms: Seq<MapObject>, c: Seq<usize>, k: int) -> bool {
    forall|j: int| 0 <= j < k ==> #[trigger] went_on::<F>(ms, c[j])
}

/// `P_BlockThingsIterator`: call `func` on each thing in the list of
/// blockmap cell `(x, y)`, following the `bnext` links, until it returns
/// false. Returns false exactly when it stopped so; a cell off the
/// blockmap, or with no things, gives true without a call.
pub fn p_block_things_iterator<F: FnMut(usize, &MapObject) -> bool>(
    x: i32,
    y: i32,
    blocklinks: &[Option<usize>],
    mobjs: &[MapObject],
    bmapwidth: i32,
    bmapheight: i32,
    func: &mut F,
) -> (r: bool)
    requires
        thing_callable::<F>(),
        0 <= x < bmapwidth && 0 <= y < bmapheight ==> {
            &&& y * bmapwidth + x < blocklinks@.len()
            &&& y * bmapwidth + x <= i32::MAX
            &&& chain_ends(mobjs@, blocklinks@[y * bmapwidth + x], mobjs@.len())
        },
    ensures
        !(0 <= x < bmapwidth && 0 <= y < bmapheight) ==> r,
        0 <= x < bmapwidth && 0 <= y < bmapheight && blocklinks@[y * bmapwidth + x] is None ==> r,
        !r ==> exists|i: usize, g: F| #[trigger] call_ensures(g, (i, &mobjs@[i as int]), false),
        0 <= x < bmapwidth && 0 <= y < bmapheight ==> {
            let c = chain_seq(mobjs@, blocklinks@[y * bmapwidth + x], mobjs@.len());
            ||| r && handed_true::<F>(mobjs@, c, c.len() as int)
            ||| !r && exists|k: int| 0 <= k < c.len() && #[trigger] handed_true::<F>(mobjs@, c, k)
                && stopped_at::<F>(mobjs@, c[k])
        },
{
    if x < 0 || y < 0 || x >= bmapwidth || y >= bmapheight {
        return true;
    }
    let idx = (y * bmapwidth + x) as usize;
    let mut mobj_opt = blocklinks[idx];
    if mobj_opt.is_none() {
        return true;
    }
    let ghost mut fuel: nat = mobjs@.len();
    let ghost c = chain_seq(mobjs@, blocklinks@[idx as int], mobjs@.len());
    let ghost mut k: int = 0;
    while mobj_opt.is_some()
        invariant
            thing_callable::<F>(),
            0 <= x < bmapwidth && 0 <= y < bmapheight,
            idx == y * bmapwidth + x,
            blocklinks@[idx as int] is Some,
            chain_ends(mobjs@, mobj_opt, fuel),
            c == chain_seq(mobjs@, blocklinks@[idx as int], mobjs@.len()),
            0 <= k <= c.len(),
            c.subrange(k, c.len() as int) == chain_seq(mobjs@, mobj_opt, fuel),
            handed_true::<F>(mobjs@, c, k),
        decreases fuel,
    {
        let mobj_idx = match mobj_opt {
            Some(i) => i,
            None => 0,
        };
        proof {
            assert(chain_seq(mobjs@, mobj_opt, fuel) == seq![mobj_idx] + chain_seq(mobjs@, mobjs@[mobj_idx as int].bnext, (fuel - 1) as nat));
            assert(c.subrange(k, c.len() as int)[0] == mobj_idx);
            assert(c[k] == c.subrange(k, c.len() as int)[0]);
            assert(c.subrange(k + 1, c.len() as int) =~= c.subrange(k, c.len() as int).drop_first());
        }
        let next = mobjs[mobj_idx].bnext;
        let ghost g = *func;
        if !func(mobj_idx, &mobjs[mobj_idx]) {
            assert(call_ensures(g, (mobj_idx, &mobjs@[mobj_idx as int]), false));
            assert(stopped_at::<F>(mobjs@, mobj_idx));
            assert(c[k] == mobj_idx);
            assert(handed_true::<F>(mobjs@, c, k));
            return false;
        }
        proof {
            assert(call_ensures(g, (mobj_idx, &mobjs@[mobj_idx as int]), true));
            assert(c[k] == mobj_idx);
            assert(went_on::<F>(mobjs@, mobj_idx));
            assert forall|j: int| 0 <= j < k + 1 implies #[trigger] went_on::<F>(mobjs@, c[j]) by {
                if j < k {
                    assert(handed_true::<F>(mobjs@, c, k));
                }
            }
            assert(c.subrange(k + 1, c.len() as int) =~= c.subrange(k, c.len() as int).drop_first());
            k = k + 1;
        }
        mobj_opt = next;
        proof {
            fuel = (fuel - 1) as nat;
        }
    }
    proof {
        assert(c.subrange(k, c.len() as int).len() == 0);
    }
    true
}

// ---------------------------------------------------------------------------
// Intercepts
// ---------------------------------------------------------------------------

/// A trace longer than 16 units along either axis.
pub open spec fn long_trace(t: Divline) -> bool {
    t.dx.0 > 16 * FRACUNIT || t.dy.0 > 16 * FRACUNIT || t.dx.0 < -(16 * FRACUNIT) || t.dy.0 < -(16 * FRACUNIT)
}

/// The sides used to decide whether trace `t` crosses line `ld` (vertices
/// `v1`, `v2`): for a long trace, the sides of the line's ends relative to
/// the trace; otherwise the sides of the trace's ends relative to the line.
pub open spec fn line_crossing(t: Divline, ld: LineDef, v1: Vertex, v2: Vertex) -> (i32, i32) {
    if long_trace(t) {
        (point_on_divline_side(v1.x.0, v1.y.0, t), point_on_divline_side(v2.x.0, v2.y.0, t))
    } else {
        (
            point_on_line_side(t.x.0, t.y.0, ld, v1),
            point_on_line_side((t.x.0 + t.dx.0) as i32, (t.y.0 + t.dy.0) as i32, ld, v1),
        )
    }
}

/// The divline along line `ld` from its first vertex `v1`.
pub open spec fn divline_of(ld: LineDef, v1: Vertex) -> Divline {
    Divline { x: v1.x, y: v1.y, dx: ld.dx, dy: ld.dy }
}

/// The side tests and the intercept of trace `t` with line `ld` fit.
pub open spec fn line_intercept_fits(t: Divline, ld: LineDef, v1: Vertex, v2: Vertex) -> bool {
    &&& long_trace(t) ==> divline_side_fits(v1.x.0, v1.y.0, t) && divline_side_fits(v2.x.0, v2.y.0, t)
    &&& !long_trace(t) ==> {
        &&& i32::MIN <= t.x.0 + t.dx.0 <= i32::MAX
        &&& i32::MIN <= t.y.0 + t.dy.0 <= i32::MAX
        &&& point_side_fits(t.x.0, t.y.0, ld, v1)
        &&& point_side_fits((t.x.0 + t.dx.0) as i32, (t.y.0 + t.dy.0) as i32, ld, v1)
    }
    &&& line_crossing(t, ld, v1, v2).0 != line_crossing(t, ld, v1, v2).1 ==> intercept_fits(t, divline_of(ld, v1))
}

/// `post` is `pre` with `ic` appended to the intercept buffer, or `pre`
/// itself when the buffer is full.
pub open spec fn recorded(pre: MapUtilState, post: MapUtilState, ic: Intercept) -> bool {
    &&& post.trace == pre.trace
    &&& post.earlyout == pre.earlyout
    &&& post.ptflags == pre.ptflags
    &&& post.opentop == pre.opentop
    &&& post.openbottom == pre.openbottom
    &&& post.openrange == pre.openrange
    &&& post.lowfloor == pre.lowfloor
    &&& if pre.intercept_p < MAXINTERCEPTS {
        &&& post.intercepts@ == pre.intercepts@.update(pre.intercept_p as int, ic)
        &&& post.intercept_p == pre.intercept_p + 1
    } else {
        &&& post.intercepts@ == pre.intercepts@
        &&& post.intercept_p == pre.intercept_p
    }
}

/// `PIT_AddLineIntercepts`: when the trace crosses line `ld` (see
/// [`line_crossing`]) at a fraction not behind its start, record the
/// crossing; but stop (return false) instead when early-out is on and a
/// one-sided line is crossed before the trace's end. Returns true otherwise.
pub fn pit_add_line_intercepts(state: &mut MapUtilState, line_idx: usize, ld: &LineDef, vertexes: &[Vertex]) -> (r: bool)
    requires
        ld.v1 < vertexes@.len(),
        ld.v2 < vertexes@.len(),
        line_intercept_fits(old(state).trace, *ld, vertexes@[ld.v1 as int], vertexes@[ld.v2 as int]),
    ensures
        ({
            let t = old(state).trace;
            let v1 = vertexes@[ld.v1 as int];
            let (s1, s2) = line_crossing(t, *ld, v1, vertexes@[ld.v2 as int]);
            let frac = intercept_vector(t, divline_of(*ld, v1));
            if s1 == s2 || frac < 0 {
                r && *final(state) == *old(state)
            } else if old(state).earlyout && frac < FRACUNIT && ld.backsector is None {
                !r && *final(state) == *old(state)
            } else {
                r && recorded(*old(state), *final(state), Intercept { frac: Fixed(frac), is_a_line: true, d: InterceptData::Line(line_idx) })
            }
        }),
{
    let v1 = &vertexes[ld.v1];
    let v2 = &vertexes[ld.v2];
    let trace_local = state.trace;
    let (s1, s2) = if trace_local.dx.0 > FRACUNIT * 16 || trace_local.dy.0 > FRACUNIT * 16 || trace_local.dx.0 < -(FRACUNIT * 16)
        || trace_local.dy.0 < -(FRACUNIT * 16) {
        (p_point_on_divline_side(v1.x, v1.y, &trace_local), p_point_on_divline_side(v2.x, v2.y, &trace_local))
    } else {
        (
            p_point_on_line_side(trace_local.x, trace_local.y, ld, vertexes),
            p_point_on_line_side(
                Fixed(trace_local.x.0 + trace_local.dx.0),
                Fixed(trace_local.y.0 + trace_local.dy.0),
                ld,
                vertexes,
            ),
        )
    };
    if s1 == s2 {
        return true;
    }
    let dl = p_make_divline(ld, vertexes);
    let frac = p_intercept_vector(&trace_local, &dl);
    if frac.0 < 0 {
        return true;
    }
    if state.earlyout && frac.0 < FRACUNIT && ld.backsector.is_none() {
        return false;
    }
    if state.intercept_p < MAXINTERCEPTS {
        let p = state.intercept_p;
        state.intercepts[p] = Intercept { frac, is_a_line: true, d: InterceptData::Line(line_idx) };
        state.intercept_p = p + 1;
    }
    true
}

/// The corners of `thing`'s box that `PIT_AddThingIntercepts` tests against
/// trace `t`: the diagonal running across the trace's direction.
pub open spec fn thing_corners(t: Divline, thing: MapObject) -> (int, int, int, int) {
    let r = thing.radius.0;
    if (t.dx.0 ^ t.dy.0) > 0 {
        (thing.x.0 - r, thing.y.0 + r, thing.x.0 + r, thing.y.0 - r)
    } else {
        (thing.x.0 - r, thing.y.0 - r, thing.x.0 + r, thing.y.0 + r)
    }
}

/// The divline along that diagonal.
pub open spec fn corner_divline(c: (int, int, int, int)) -> Divline {
    Divline { x: Fixed(c.0 as i32), y: Fixed(c.1 as i32), dx: Fixed((c.2 - c.0) as i32), dy: Fixed((c.3 - c.1) as i32) }
}

/// The corner coordinates, the diagonal, the side tests and the intercept fit.
pub open spec fn thing_intercept_fits(t: Divline, thing: MapObject) -> bool {
    let c = thing_corners(t, thing);
    &&& i32::MIN <= thing.x.0 - thing.radius.0 <= i32::MAX
    &&& i32::MIN <= thing.x.0 + thing.radius.0 <= i32::MAX
    &&& i32::MIN <= thing.y.0 - thing.radius.0 <= i32::MAX
    &&& i32::MIN <= thing.y.0 + thing.radius.0 <= i32::MAX
    &&& i32::MIN <= c.2 - c.0 <= i32::MAX
    &&& i32::MIN <= c.3 - c.1 <= i32::MAX
    &&& divline_side_fits(c.0 as i32, c.1 as i32, t)
    &&& divline_side_fits(c.2 as i32, c.3 as i32, t)
    &&& point_on_divline_side(c.0 as i32, c.1 as i32, t) != point_on_divline_side(c.2 as i32, c.3 as i32, t)
        ==> intercept_fits(t, corner_divline(c))
}

/// `PIT_AddThingIntercepts`: when the trace crosses the thing's diagonal
/// ([`thing_corners`]) at a fraction not behind its start, record the
/// crossing. Always returns true.
pub fn pit_add_thing_intercepts(state: &mut MapUtilState, thing_idx: usize, thing: &MapObject) -> (r: bool)
    requires
        thing_intercept_fits(old(state).trace, *thing),
    ensures
        r,
        ({
            let t = old(state).trace;
            let c = thing_corners(t, *thing);
            let frac = intercept_vector(t, corner_divline(c));
            if point_on_divline_side(c.0 as i32, c.1 as i32, t) == point_on_divline_side(c.2 as i32, c.3 as i32, t) || frac < 0 {
                *final(state) == *old(state)
            } else {
                recorded(*old(state), *final(state), Intercept { frac: Fixed(frac), is_a_line: false, d: InterceptData::Thing(thing_idx) })
            }
        }),
{
    let trace_local = state.trace;
    let tracepositive = (trace_local.dx.0 ^ trace_local.dy.0) > 0;
    let (x1, y1, x2, y2) = if tracepositive {
        (
            Fixed(thing.x.0 - thing.radius.0),
            Fixed(thing.y.0 + thing.radius.0),
            Fixed(thing.x.0 + thing.radius.0),
            Fixed(thing.y.0 - thing.radius.0),
        )
    } else {
        (
            Fixed(thing.x.0 - thing.radius.0),
            Fixed(thing.y.0 - thing.radius.0),
            Fixed(thing.x.0 + thing.radius.0),
            Fixed(thing.y.0 + thing.radius.0),
        )
    };
    let s1 = p_point_on_divline_side(x1, y1, &trace_local);
    let s2 = p_point_on_divline_side(x2, y2, &trace_local);
    if s1 == s2 {
        return true;
    }
    let dl = Divline { x: x1, y: y1, dx: Fixed(x2.0 - x1.0), dy: Fixed(y2.0 - y1.0) };
    let frac = p_intercept_vector(&trace_local, &dl);
    if frac.0 < 0 {
        return true;
    }
    if state.intercept_p < MAXINTERCEPTS {
        let p = state.intercept_p;
        state.intercepts[p] = Intercept { frac, is_a_line: false, d: InterceptData::Thing(thing_idx) };
        state.intercept_p = p + 1;
    }
    true
}

/// An intercept callback that may be called with any intercept.
pub open spec fn traverser_callable<F: Fn(&Intercept) -> bool>(f: F) -> bool {
    forall|ic: &Intercept| call_requires(f, (ic,))
}

/// Everything but the intercept buffer's contents is as in `pre`.
pub open spec fn same_but_fracs(pre: MapUtilState, post: MapUtilState) -> bool {
    &&& post.intercept_p == pre.intercept_p
    &&& post.trace == pre.trace
    &&& post.earlyout == pre.earlyout
    &&& post.ptflags == pre.ptflags
    &&& post.opentop == pre.opentop
    &&& post.openbottom == pre.openbottom
    &&& post.openrange == pre.openrange
    &&& post.lowfloor == pre.lowfloor
}

/// How many of the first `n` intercepts of `cur` are as in `o`.
pub open spec fn unchanged_count(cur: Seq<Intercept>, o: Seq<Intercept>, n: int) -> int
    decreases n,
{
    if n <= 0 {
        0
    } else {
        unchanged_count(cur, o, n - 1) + if cur[n - 1] == o[n - 1] { 1int } else { 0int }
    }
}

proof fn lemma_unchanged_count_update(cur: Seq<Intercept>, o: Seq<Intercept>, n: int, i: int, x: Intercept)
    requires
        0 <= i < n <= cur.len(),
        cur[i] == o[i],
        x != o[i],
    ensures
        unchanged_count(cur.update(i, x), o, n) == unchanged_count(cur, o, n) - 1,
    decreases n,
{
    if n - 1 != i {
        lemma_unchanged_count_update(cur, o, n - 1, i, x);
    } else {
        lemma_unchanged_count_same(cur, cur.update(i, x), o, n - 1);
    }
}

proof fn lemma_unchanged_count_same(a: Seq<Intercept>, b: Seq<Intercept>, o: Seq<Intercept>, n: int)
    requires
        n <= a.len(),
        n <= b.len(),
        forall|k: int| 0 <= k < n ==> a[k] == b[k],
    ensures
        unchanged_count(a, o, n) == unchanged_count(b, o, n),
    decreases n,
{
    if n > 0 {
        lemma_unchanged_count_same(a, b, o, n - 1);
    }
}

proof fn lemma_unchanged_count_zero(cur: Seq<Intercept>, o: Seq<Intercept>, n: int)
    requires
        unchanged_count(cur, o, n) <= 0,
    ensures
        forall|k: int| 0 <= k < n ==> cur[k] != o[k],
    decreases n,
{
    if n > 0 {
        assert(unchanged_count(cur, o, n - 1) >= 0) by {
            lemma_unchanged_count_nonneg(cur, o, n - 1);
        }
        lemma_unchanged_count_zero(cur, o, n - 1);
    }
}

proof fn lemma_unchanged_count_all(o: Seq<Intercept>, n: int)
    requires
        0 <= n,
    ensures
        unchanged_count(o, o, n) == n,
    decreases n,
{
    if n > 0 {
        lemma_unchanged_count_all(o, n - 1);
    }
}

proof fn lemma_unchanged_count_nonneg(cur: Seq<Intercept>, o: Seq<Intercept>, n: int)
    ensures
        unchanged_count(cur, o, n) >= 0,
    decreases n,
{
    if n > 0 {
        lemma_unchanged_count_nonneg(cur, o, n - 1);
    }
}

/// What handing the intercepts of `pre` to `func` nearest first (up to
/// `maxfrac`) leaves, with result `r`: only the intercept buffer's
/// fractions change; a changed intercept is the old one marked with
/// [`MAXINT`], was within `maxfrac`, and was handed to `func`, which went
/// on; no marked intercept was farther than an unmarked one; on true every
/// unmarked intercept lies beyond `maxfrac` (or at [`MAXINT`]); on false
/// `func` stopped on one of the recorded intercepts as it stands after.
pub open spec fn traversed<F: Fn(&Intercept) -> bool>(pre: MapUtilState, post: MapUtilState, func: F, maxfrac: Fixed, r: bool) -> bool {
    &&& pre.intercept_p == 0 ==> r
    &&& same_but_fracs(pre, post)
    &&& forall|i: int| 0 <= i < MAXINTERCEPTS ==> {
        ||| #[trigger] post.intercepts@[i] == pre.intercepts@[i]
        ||| post.intercepts@[i] == (Intercept { frac: Fixed(MAXINT), ..pre.intercepts@[i] })
            && pre.intercepts@[i].frac.0 <= maxfrac.0
            && i < pre.intercept_p
    }
    &&& forall|i: int| 0 <= i < pre.intercept_p && #[trigger] post.intercepts@[i] != pre.intercepts@[i]
        ==> call_ensures(func, (&pre.intercepts@[i],), true)
    &&& forall|i: int, j: int|
        0 <= i < pre.intercept_p && 0 <= j < pre.intercept_p
            && #[trigger] post.intercepts@[i] != pre.intercepts@[i]
            && #[trigger] post.intercepts@[j] == pre.intercepts@[j]
            ==> pre.intercepts@[i].frac.0 <= pre.intercepts@[j].frac.0
    &&& r ==> forall|i: int| 0 <= i < pre.intercept_p && #[trigger] post.intercepts@[i] == pre.intercepts@[i]
        ==> pre.intercepts@[i].frac.0 > maxfrac.0 || pre.intercepts@[i].frac.0 == MAXINT
    &&& !r ==> exists|i: int| 0 <= i < pre.intercept_p && call_ensures(func, (#[trigger] &post.intercepts@[i],), false)
}

/// `P_TraverseIntercepts`: hand the recorded intercepts to `func` nearest
/// first, each once, marking each one handed over by setting its fraction
/// to [`MAXINT`], until the nearest left is beyond `maxfrac` (true), all
/// were handed over (true), or `func` returns false (false).
///
/// Stated: only intercepts within `maxfrac` are marked, each marked one was
/// handed to `func`, which went on; every marked intercept was no farther
/// than any unmarked one; on true every unmarked intercept lies beyond
/// `maxfrac` (or at [`MAXINT`], where marking changes nothing); on false
/// `func` stopped on one of the recorded intercepts as it stands now.
pub fn p_traverse_intercepts<F: Fn(&Intercept) -> bool>(state: &mut MapUtilState, func: F, maxfrac: Fixed) -> (r: bool)
    requires
        old(state).intercept_p <= MAXINTERCEPTS,
        traverser_callable(func),
    ensures
        traversed(*old(state), *final(state), func, maxfrac, r),
{
    let ghost o = state.intercepts@;
    let ghost s0 = *state;
    let p = state.intercept_p;
    let mut count: usize = p;
    proof {
        lemma_unchanged_count_all(o, p as int);
    }
    while count > 0
        invariant
            p == s0.intercept_p,
            s0 == *old(state),
            count <= p,
            p <= MAXINTERCEPTS,
            o == s0.intercepts@,
            o.len() == MAXINTERCEPTS,
            traverser_callable(func),
            same_but_fracs(s0, *state),
            forall|i: int| 0 <= i < MAXINTERCEPTS ==> {
                ||| #[trigger] state.intercepts@[i] == o[i]
                ||| state.intercepts@[i] == (Intercept { frac: Fixed(MAXINT), ..o[i] }) && o[i].frac.0 <= maxfrac.0 && i < p
            },
            forall|i: int| 0 <= i < p && #[trigger] state.intercepts@[i] != o[i] ==> call_ensures(func, (&o[i],), true),
            forall|i: int, j: int|
                0 <= i < p && 0 <= j < p && #[trigger] state.intercepts@[i] != o[i] && #[trigger] state.intercepts@[j] == o[j]
                    ==> o[i].frac.0 <= o[j].frac.0,
            unchanged_count(state.intercepts@, o, p as int) <= count
                || forall|i: int| 0 <= i < p && #[trigger] state.intercepts@[i] == o[i] ==> o[i].frac.0 == MAXINT,
        decreases count,
    {
        count = count - 1;
        let mut dist: i32 = MAXINT;
        let mut in_idx: usize = 0;
        let mut scan: usize = 0;
        while scan < p
            invariant
                p == state.intercept_p,
                p <= MAXINTERCEPTS,
                0 <= scan <= p,
                in_idx < MAXINTERCEPTS,
                forall|k: int| 0 <= k < scan ==> #[trigger] state.intercepts@[k].frac.0 >= dist,
                dist < MAXINT ==> in_idx < scan && state.intercepts@[in_idx as int].frac.0 == dist,
                dist == MAXINT ==> in_idx == 0,
            decreases p - scan,
        {
            if state.intercepts[scan].frac.0 < dist {
                dist = state.intercepts[scan].frac.0;
                in_idx = scan;
            }
            scan = scan + 1;
        }
        if dist > maxfrac.0 {
            proof {
                assert forall|i: int| 0 <= i < p && #[trigger] state.intercepts@[i] == o[i]
                    implies o[i].frac.0 > maxfrac.0 || o[i].frac.0 == MAXINT by {
                    assert(state.intercepts@[i].frac.0 >= dist);
                }
            }
            return true;
        }
        proof {
            assert(in_idx < p);
        }
        if !func(&state.intercepts[in_idx]) {
            return false;
        }
        let ghost before = state.intercepts@;
        state.intercepts[in_idx].frac = Fixed(MAXINT);
        proof {
            let cur = state.intercepts@;
            let x = Intercept { frac: Fixed(MAXINT), ..before[in_idx as int] };
            assert(cur == before.update(in_idx as int, x));
            if dist < MAXINT {
                assert(before[in_idx as int] == o[in_idx as int]);
            }
            assert forall|i: int| 0 <= i < MAXINTERCEPTS implies {
                ||| #[trigger] cur[i] == o[i]
                ||| cur[i] == (Intercept { frac: Fixed(MAXINT), ..o[i] }) && o[i].frac.0 <= maxfrac.0 && i < p
            } by {
                if i == in_idx {
                    assert(dist <= maxfrac.0);
                    assert(0 < p);
                    assert(cur[i] == (Intercept { frac: Fixed(MAXINT), ..before[i] }));
                    if before[i] == o[i] {
                        assert(o[i].frac.0 <= dist || dist == MAXINT);
                    }
                } else {
                    assert(cur[i] == before[i]);
                }
            }
            assert forall|i: int| 0 <= i < p && #[trigger] cur[i] != o[i] implies call_ensures(func, (&o[i],), true) by {
                if i != in_idx {
                    assert(cur[i] == before[i]);
                } else if before[i] == o[i] {
                    assert(call_ensures(func, (&before[i],), true));
                }
            }
            assert forall|i: int, j: int|
                0 <= i < p && 0 <= j < p && #[trigger] cur[i] != o[i] && #[trigger] cur[j] == o[j]
                implies o[i].frac.0 <= o[j].frac.0 by {
                assert(before[j] == o[j] || j == in_idx);
                if j != in_idx {
                    assert(before[j].frac.0 >= dist);
                    if i == in_idx {
                        if before[i] != o[i] {
                        }
                    } else {
                        assert(before[i] == cur[i]);
                    }
                }
            }
            if dist < MAXINT {
                assert(x != o[in_idx as int]);
                lemma_unchanged_count_update(before, o, p as int, in_idx as int, x);
                if !(unchanged_count(before, o, p as int) <= count + 1) {
                    assert forall|i: int| 0 <= i < p && #[trigger] cur[i] == o[i] implies o[i].frac.0 == MAXINT by {
                        if i != in_idx {
                            assert(before[i] == cur[i]);
                        }
                    }
                }
            } else {
                assert forall|i: int| 0 <= i < p && #[trigger] cur[i] == o[i] implies o[i].frac.0 == MAXINT by {
                    if i != in_idx {
                        assert(before[i] == cur[i]);
                        assert(before[i].frac.0 >= dist);
                    } else {
                        assert(cur[i].frac.0 == MAXINT);
                    }
                }
            }
        }
    }
    proof {
        if unchanged_count(state.intercepts@, o, p as int) <= 0 {
            lemma_unchanged_count_zero(state.intercepts@, o, p as int);
        }
    }
    true
}

// ---------------------------------------------------------------------------
// Laws
// ---------------------------------------------------------------------------

/// Law: the approximate distance does not depend on the order or the signs
/// of the two offsets, lies between the larger of their sizes and their
/// sum, and is within 4% (and one unit) of the true length (for offsets
/// other than `i32::MIN`, whose size does not fit).
pub proof fn law_aprox_distance(dx: i32, dy: i32)
    requires
        dx != i32::MIN,
        dy != i32::MIN,
    ensures
        aprox_distance(dx, dy) == aprox_distance(dy, dx),
        aprox_distance(dx, dy) == aprox_distance((-dx) as i32, dy),
        aprox_distance(dx, dy) == aprox_distance(dx, (-dy) as i32),
        abs_int(dx as int) <= aprox_distance(dx, dy) <= abs_int(dx as int) + abs_int(dy as int),
        abs_int(dy as int) <= aprox_distance(dx, dy),
        within_four_percent(dx, dy, aprox_distance(dx, dy)),
{
    let adx = wrapping_abs(dx);
    let ady = wrapping_abs(dy);
    let big = if adx < ady { ady } else { adx };
    let small = if adx < ady { adx } else { ady };
    lemma_octagon_within(big, small);
    assert((dx as int) * (dx as int) + (dy as int) * (dy as int) == big * big + small * small) by (nonlinear_arith)
        requires
            (big == adx && small == ady) || (big == ady && small == adx),
            adx == dx || adx == -dx,
            ady == dy || ady == -dy,
    ;
}

/// Mathematical absolute value.
pub open spec fn abs_int(v: int) -> int {
    if v < 0 {
        -v
    } else {
        v
    }
}

// ---------------------------------------------------------------------------
// P_PathTraverse
// ---------------------------------------------------------------------------

/// Blockmap cells are this wide (in 16.16 units).
pub const MAPBLOCKSIZE: i32 = 0x800000;

/// From blockmap-relative 16.16 coordinates to fractions of a cell.
pub const MAPBTOFRAC: i32 = 7;

/// A start coordinate exactly on a cell boundary is moved one unit on.
pub open spec fn nudged(v: i32, org: i32) -> int {
    if ((v - org) as i32) & 0x7FFFFFi32 == 0 { v + FRACUNIT } else { v as int }
}

/// The trace `P_PathTraverse` follows from `(x1, y1)` (nudged off cell
/// boundaries) to `(x2, y2)`.
pub open spec fn path_trace(x1: i32, y1: i32, x2: i32, y2: i32, orgx: i32, orgy: i32) -> Divline {
    let sx = nudged(x1, orgx);
    let sy = nudged(y1, orgy);
    Divline { x: Fixed(sx as i32), y: Fixed(sy as i32), dx: Fixed((x2 - sx) as i32), dy: Fixed((y2 - sy) as i32) }
}

/// The set-up arithmetic of `P_PathTraverse` stays within `i32`.
pub open spec fn path_fits(x1: i32, y1: i32, x2: i32, y2: i32, orgx: i32, orgy: i32) -> bool {
    &&& i32::MIN <= x1 - orgx <= i32::MAX
    &&& i32::MIN <= y1 - orgy <= i32::MAX
    &&& nudged(x1, orgx) <= i32::MAX
    &&& nudged(y1, orgy) <= i32::MAX
    &&& i32::MIN <= nudged(x1, orgx) - orgx <= i32::MAX
    &&& i32::MIN <= nudged(y1, orgy) - orgy <= i32::MAX
    &&& i32::MIN <= x2 - orgx <= i32::MAX
    &&& i32::MIN <= y2 - orgy <= i32::MAX
    &&& i32::MIN < x2 - nudged(x1, orgx) <= i32::MAX
    &&& i32::MIN < y2 - nudged(y1, orgy) <= i32::MAX
}

/// Every line of the map has its vertices and can be tested against `t`.
pub open spec fn lines_traceable(t: Divline, lines: Seq<LineDef>, verts: Seq<Vertex>) -> bool {
    forall|l: int| 0 <= l < lines.len() ==> {
        &&& #[trigger] lines[l].v1 < verts.len()
        &&& lines[l].v2 < verts.len()
        &&& line_intercept_fits(t, lines[l], verts[lines[l].v1 as int], verts[lines[l].v2 as int])
    }
}

/// Every thing can be tested against `t`.
pub open spec fn things_traceable(t: Divline, ms: Seq<MapObject>) -> bool {
    forall|i: int| 0 <= i < ms.len() ==> thing_intercept_fits(t, #[trigger] ms[i])
}

/// Every cell of the blockmap lists existing lines and has a thing chain
/// that ends.
pub open spec fn blockmap_ok(blockmap: Seq<i16>, lump: Seq<i16>, blocklinks: Seq<Option<usize>>, ms: Seq<MapObject>, n_lines: int, width: i32, height: i32) -> bool {
    forall|x: i32, y: i32| 0 <= x < width && 0 <= y < height ==> {
        &&& #[trigger] (y * width + x) < blockmap.len()
        &&& y * width + x < blocklinks.len()
        &&& y * width + x <= i32::MAX
        &&& exists|end: int| #[trigger] block_list(lump, blockmap[y * width + x] as int, end, n_lines)
        &&& chain_ends(ms, blocklinks[y * width + x], ms.len())
    }
}

/// The collection so far kept the trace, flags and opening, and the
/// buffer count within its capacity.
pub open spec fn collecting(pre: MapUtilState, post: MapUtilState) -> bool {
    &&& post.trace == pre.trace
    &&& post.earlyout == pre.earlyout
    &&& post.ptflags == pre.ptflags
    &&& post.opentop == pre.opentop
    &&& post.openbottom == pre.openbottom
    &&& post.openrange == pre.openrange
    &&& post.lowfloor == pre.lowfloor
    &&& post.intercept_p <= MAXINTERCEPTS
}

/// The intercept buffer of `st`: its contents and its count.
pub open spec fn buffer_of(st: MapUtilState) -> (Seq<Intercept>, int) {
    (st.intercepts@, st.intercept_p as int)
}

/// Buffer `b` with `ic` recorded, when there is room.
pub open spec fn push_intercept(b: (Seq<Intercept>, int), ic: Intercept) -> (Seq<Intercept>, int) {
    if b.1 < MAXINTERCEPTS {
        (b.0.update(b.1, ic), b.1 + 1)
    } else {
        b
    }
}

/// The fraction at which trace `t` crosses `thing`'s diagonal, when
/// `PIT_AddThingIntercepts` records it.
pub open spec fn thing_crossing(t: Divline, thing: MapObject) -> Option<i32> {
    let c = thing_corners(t, thing);
    let frac = intercept_vector(t, corner_divline(c));
    if point_on_divline_side(c.0 as i32, c.1 as i32, t) == point_on_divline_side(c.2 as i32, c.3 as i32, t) || frac < 0 {
        None
    } else {
        Some(frac)
    }
}

/// Buffer `b` after the things `c` (indices into `ms`), in order, were
/// tested against trace `t`.
pub open spec fn things_fold(t: Divline, ms: Seq<MapObject>, c: Seq<usize>, b: (Seq<Intercept>, int)) -> (Seq<Intercept>, int)
    decreases c.len(),
{
    if c.len() == 0 {
        b
    } else {
        let prev = things_fold(t, ms, c.drop_last(), b);
        match thing_crossing(t, ms[c.last() as int]) {
            None => prev,
            Some(f) => push_intercept(prev, Intercept { frac: Fixed(f), is_a_line: false, d: InterceptData::Thing(c.last()) }),
        }
    }
}

/// The block-lines walk over list entries `from..to` of `lump` with
/// `PIT_AddLineIntercepts` as its callback: the lines (with their marks),
/// the intercept buffer, and whether the walk stopped early. Lines already
/// marked with `vc` are passed over; a stopped walk looks at nothing more.
pub open spec fn lines_fold(
    t: Divline,
    lump: Seq<i16>,
    from: int,
    to: int,
    ls: Seq<LineDef>,
    verts: Seq<Vertex>,
    vc: i32,
    b: (Seq<Intercept>, int),
    earlyout: bool,
) -> (Seq<LineDef>, (Seq<Intercept>, int), bool)
    decreases to - from,
{
    if to <= from {
        (ls, b, false)
    } else {
        let prev = lines_fold(t, lump, from, to - 1, ls, verts, vc, b, earlyout);
        let n = lump[to - 1] as int;
        if prev.2 || prev.0[n].validcount == vc {
            prev
        } else {
            let ld = LineDef { validcount: vc, ..prev.0[n] };
            let ls2 = prev.0.update(n, ld);
            let v1 = verts[ld.v1 as int];
            let (s1, s2) = line_crossing(t, ld, v1, verts[ld.v2 as int]);
            let frac = intercept_vector(t, divline_of(ld, v1));
            if s1 == s2 || frac < 0 {
                (ls2, prev.1, false)
            } else if earlyout && frac < FRACUNIT && ld.backsector is None {
                (ls2, prev.1, true)
            } else {
                (ls2, push_intercept(prev.1, Intercept { frac: Fixed(frac), is_a_line: true, d: InterceptData::Line(n as usize) }), false)
            }
        }
    }
}

proof fn lemma_lines_fold_stopped(
    t: Divline,
    lump: Seq<i16>,
    from: int,
    to: int,
    to2: int,
    ls: Seq<LineDef>,
    verts: Seq<Vertex>,
    vc: i32,
    b: (Seq<Intercept>, int),
    earlyout: bool,
)
    requires
        from <= to <= to2,
        lines_fold(t, lump, from, to, ls, verts, vc, b, earlyout).2,
    ensures
        lines_fold(t, lump, from, to2, ls, verts, vc, b, earlyout) == lines_fold(t, lump, from, to, ls, verts, vc, b, earlyout),
    decreases to2 - to,
{
    if to2 > to {
        lemma_lines_fold_stopped(t, lump, from, to, to2 - 1, ls, verts, vc, b, earlyout);
    }
}

/// The line intercepts of blockmap cell `(x, y)` (the block-lines walk
/// with `PIT_AddLineIntercepts` as its callback).
fn add_block_lines(
    state: &mut MapUtilState,
    x: i32,
    y: i32,
    blockmap: &[i16],
    blockmaplump: &[i16],
    lines: &mut [LineDef],
    vertexes: &[Vertex],
    bmapwidth: i32,
    bmapheight: i32,
    validcount: i32,
) -> (r: bool)
    requires
        old(state).intercept_p <= MAXINTERCEPTS,
        lines_traceable(old(state).trace, old(lines)@, vertexes@),
        0 <= x < bmapwidth && 0 <= y < bmapheight ==> {
            &&& y * bmapwidth + x < blockmap@.len()
            &&& y * bmapwidth + x <= i32::MAX
            &&& exists|end: int| #[trigger] block_list(blockmaplump@, blockmap@[y * bmapwidth + x] as int, end, old(lines)@.len() as int)
        },
    ensures
        collecting(*old(state), *final(state)),
        final(lines)@.len() == old(lines)@.len(),
        forall|j: int| 0 <= j < old(lines)@.len() ==> (#[trigger] final(lines)@[j]) == (LineDef { validcount: final(lines)@[j].validcount, ..old(lines)@[j] }),
        forall|j: int| 0 <= j < old(lines)@.len() ==> #[trigger] final(lines)@[j].validcount == old(lines)@[j].validcount || final(lines)@[j].validcount == validcount,
        !r ==> final(state).earlyout,
        !(0 <= x < bmapwidth && 0 <= y < bmapheight) ==> r && *final(state) == *old(state) && final(lines)@ == old(lines)@,
        0 <= x < bmapwidth && 0 <= y < bmapheight ==> forall|end: int|
            #[trigger] block_list(blockmaplump@, blockmap@[y * bmapwidth + x] as int, end, old(lines)@.len() as int) ==> {
                let f = lines_fold(
                    old(state).trace,
                    blockmaplump@,
                    blockmap@[y * bmapwidth + x] as int,
                    end,
                    old(lines)@,
                    vertexes@,
                    validcount,
                    buffer_of(*old(state)),
                    old(state).earlyout,
                );
                &&& final(lines)@ == f.0
                &&& buffer_of(*final(state)) == f.1
                &&& r == !f.2
            },
{
    if x < 0 || y < 0 || x >= bmapwidth || y >= bmapheight {
        return true;
    }
    let table_idx = (y * bmapwidth + x) as usize;
    let ghost offset = blockmap@[table_idx as int] as int;
    let ghost end = choose|end: int| block_list(blockmaplump@, offset, end, old(lines)@.len() as int);
    let ghost s0 = *state;
    let mut list_idx: usize = blockmap[table_idx] as usize;
    while blockmaplump[list_idx] != -1
        invariant
            0 <= x < bmapwidth && 0 <= y < bmapheight,
            table_idx == y * bmapwidth + x,
            offset == blockmap@[table_idx as int] as int,
            block_list(blockmaplump@, offset, end, old(lines)@.len() as int),
            offset <= list_idx <= end,
            s0 == *old(state),
            collecting(s0, *state),
            lines_traceable(s0.trace, old(lines)@, vertexes@),
            lines@.len() == old(lines)@.len(),
            forall|j: int| 0 <= j < old(lines)@.len() ==> (#[trigger] lines@[j]) == (LineDef { validcount: lines@[j].validcount, ..old(lines)@[j] }),
            forall|j: int| 0 <= j < old(lines)@.len() ==> #[trigger] lines@[j].validcount == old(lines)@[j].validcount || lines@[j].validcount == validcount,
            (lines@, buffer_of(*state), false) == lines_fold(s0.trace, blockmaplump@, offset, list_idx as int, old(lines)@, vertexes@, validcount, buffer_of(s0), s0.earlyout),
        decreases end - list_idx,
    {
        let line_num = blockmaplump[list_idx] as usize;
        list_idx = list_idx + 1;
        if lines[line_num].validcount == validcount {
            continue;
        }
        let ghost ls_before = lines@;
        lines[line_num].validcount = validcount;
        let ld = lines[line_num];
        assert(ld == (LineDef { validcount, ..old(lines)@[line_num as int] }));
        assert(ld == (LineDef { validcount, ..ls_before[line_num as int] }));
        assert(lines@ == ls_before.update(line_num as int, ld));
        assert(lines_traceable(s0.trace, old(lines)@, vertexes@));
        assert(old(lines)@[line_num as int].v1 < vertexes@.len());
        if !pit_add_line_intercepts(state, line_num, &ld, vertexes) {
            proof {
                assert(list_idx <= end);
                lemma_lines_fold_stopped(s0.trace, blockmaplump@, offset, list_idx as int, end, old(lines)@, vertexes@, validcount, buffer_of(s0), s0.earlyout);
                assert forall|end2: int| #[trigger] block_list(blockmaplump@, offset, end2, old(lines)@.len() as int) implies end2 == end by {
                    if end2 < end {
                        assert(0 <= blockmaplump@[end2]);
                    } else if end2 > end {
                        assert(0 <= blockmaplump@[end]);
                    }
                }
            }
            return false;
        }
    }
    proof {
        assert forall|end2: int| #[trigger] block_list(blockmaplump@, offset, end2, old(lines)@.len() as int) implies end2 == list_idx by {
            if end2 < list_idx {
                assert(0 <= blockmaplump@[end2]);
            } else if end2 > list_idx {
                assert(0 <= blockmaplump@[list_idx as int]);
            }
        }
    }
    true
}

/// The thing intercepts of blockmap cell `(x, y)` (the block-things walk
/// with `PIT_AddThingIntercepts` as its callback, which never stops it).
fn add_block_things(
    state: &mut MapUtilState,
    x: i32,
    y: i32,
    blocklinks: &[Option<usize>],
    mobjs: &[MapObject],
    bmapwidth: i32,
    bmapheight: i32,
)
    requires
        old(state).intercept_p <= MAXINTERCEPTS,
        things_traceable(old(state).trace, mobjs@),
        0 <= x < bmapwidth && 0 <= y < bmapheight ==> {
            &&& y * bmapwidth + x < blocklinks@.len()
            &&& y * bmapwidth + x <= i32::MAX
            &&& chain_ends(mobjs@, blocklinks@[y * bmapwidth + x], mobjs@.len())
        },
    ensures
        collecting(*old(state), *final(state)),
        !(0 <= x < bmapwidth && 0 <= y < bmapheight) ==> *final(state) == *old(state),
        0 <= x < bmapwidth && 0 <= y < bmapheight ==> buffer_of(*final(state)) == things_fold(
            old(state).trace,
            mobjs@,
            chain_seq(mobjs@, blocklinks@[y * bmapwidth + x], mobjs@.len()),
            buffer_of(*old(state)),
        ),
{
    if x < 0 || y < 0 || x >= bmapwidth || y >= bmapheight {
        return;
    }
    let idx = (y * bmapwidth + x) as usize;
    let mut mobj_opt = blocklinks[idx];
    let ghost s0 = *state;
    let ghost mut fuel: nat = mobjs@.len();
    let ghost c = chain_seq(mobjs@, blocklinks@[idx as int], mobjs@.len());
    let ghost mut k: int = 0;
    proof {
        assert(c.subrange(0, 0) =~= Seq::<usize>::empty());
        assert(c.subrange(0, c.len() as int) =~= c);
    }
    while mobj_opt.is_some()
        invariant
            s0 == *old(state),
            collecting(s0, *state),
            things_traceable(s0.trace, mobjs@),
            chain_ends(mobjs@, mobj_opt, fuel),
            0 <= k <= c.len(),
            c.subrange(k, c.len() as int) == chain_seq(mobjs@, mobj_opt, fuel),
            buffer_of(*state) == things_fold(s0.trace, mobjs@, c.subrange(0, k), buffer_of(s0)),
        decreases fuel,
    {
        let mobj_idx = match mobj_opt {
            Some(i) => i,
            None => 0,
        };
        proof {
            assert(chain_seq(mobjs@, mobj_opt, fuel) == seq![mobj_idx] + chain_seq(mobjs@, mobjs@[mobj_idx as int].bnext, (fuel - 1) as nat));
            assert(c.subrange(k, c.len() as int)[0] == mobj_idx);
            assert(c[k] == c.subrange(k, c.len() as int)[0]);
            assert(c.subrange(k + 1, c.len() as int) =~= c.subrange(k, c.len() as int).drop_first());
            assert(c.subrange(0, k + 1).drop_last() =~= c.subrange(0, k));
            assert(c.subrange(0, k + 1).last() == mobj_idx);
        }
        let next = mobjs[mobj_idx].bnext;
        assert(thing_intercept_fits(s0.trace, mobjs@[mobj_idx as int]));
        pit_add_thing_intercepts(state, mobj_idx, &mobjs[mobj_idx]);
        mobj_opt = next;
        proof {
            fuel = (fuel - 1) as nat;
            k = k + 1;
        }
    }
    proof {
        assert(c.subrange(k, c.len() as int).len() == 0);
        assert(c.subrange(0, k) =~= c);
    }
}

/// `|v|` for a `v` other than `i32::MIN`.
fn abs_i32(v: i32) -> (r: i32)
    requires
        v != i32::MIN,
    ensures
        r == abs_int(v as int),
{
    if v < 0 { -v } else { v }
}

/// The fixed part of the blockmap walk along a trace: the end cell, the
/// cell steps along each axis, and the intercept steps.
#[derive(Clone, Copy)]
pub struct PathGrid {
    pub xt2: i32,
    pub yt2: i32,
    pub mapxstep: i32,
    pub mapystep: i32,
    pub xstep: i32,
    pub ystep: i32,
}

/// Where the blockmap walk stands: its cell and its two intercepts.
#[derive(Clone, Copy)]
pub struct PathPos {
    pub mapx: i32,
    pub mapy: i32,
    pub xintercept: i32,
    pub yintercept: i32,
}

/// One axis of the walk's set-up, from the start offset `adj1` (cell `t1`)
/// toward cell `t2`, with `along` and `across` the trace's extents along
/// and across that axis: the cell step, the partial first step and the
/// intercept step across.
pub open spec fn axis_setup(adj1: i32, t1: i32, t2: i32, along: i32, across: i32) -> (i32, i32, i32) {
    let a = abs_int(along as int) as i32;
    let step = if a != 0 { fixed_div_spec(across, a) } else { (256 * FRACUNIT) as i32 };
    if t2 > t1 {
        (1i32, (FRACUNIT - ((adj1 >> 7i32) & 0xFFFFi32)) as i32, step)
    } else if t2 < t1 {
        (-1i32, (adj1 >> 7i32) & 0xFFFFi32, step)
    } else {
        (0i32, FRACUNIT as i32, (256 * FRACUNIT) as i32)
    }
}

/// The start offsets of the walk: the nudged start relative to the origin.
pub open spec fn path_adj(x1: i32, y1: i32, orgx: i32, orgy: i32) -> (i32, i32) {
    ((nudged(x1, orgx) - orgx) as i32, (nudged(y1, orgy) - orgy) as i32)
}

/// The grid of the walk along the trace from `(x1, y1)` to `(x2, y2)`.
pub open spec fn path_grid(x1: i32, y1: i32, x2: i32, y2: i32, orgx: i32, orgy: i32) -> PathGrid {
    let (ax, ay) = path_adj(x1, y1, orgx, orgy);
    let xt2 = ((x2 - orgx) as i32) >> 23i32;
    let yt2 = ((y2 - orgy) as i32) >> 23i32;
    let ddx = (x2 - nudged(x1, orgx)) as i32;
    let ddy = (y2 - nudged(y1, orgy)) as i32;
    let (mxs, px, ystep) = axis_setup(ax, ax >> 23i32, xt2, ddx, ddy);
    let (mys, py, xstep) = axis_setup(ay, ay >> 23i32, yt2, ddy, ddx);
    PathGrid { xt2, yt2, mapxstep: mxs, mapystep: mys, xstep, ystep }
}

/// Where the walk along the trace from `(x1, y1)` to `(x2, y2)` starts.
pub open spec fn path_start(x1: i32, y1: i32, x2: i32, y2: i32, orgx: i32, orgy: i32) -> PathPos {
    let (ax, ay) = path_adj(x1, y1, orgx, orgy);
    let g = path_grid(x1, y1, x2, y2, orgx, orgy);
    let ddx = (x2 - nudged(x1, orgx)) as i32;
    let ddy = (y2 - nudged(y1, orgy)) as i32;
    let px = axis_setup(ax, ax >> 23i32, g.xt2, ddx, ddy).1;
    let py = axis_setup(ay, ay >> 23i32, g.yt2, ddy, ddx).1;
    PathPos {
        mapx: ax >> 23i32,
        mapy: ay >> 23i32,
        xintercept: (ax >> 7i32).wrapping_add(fixed_mul_spec(py, g.xstep)),
        yintercept: (ay >> 7i32).wrapping_add(fixed_mul_spec(px, g.ystep)),
    }
}

/// One step of the walk: across a column boundary when the y intercept is
/// still in this row, else across a row boundary when the x intercept is
/// still in this column (else it stays).
pub open spec fn path_step(g: PathGrid, p: PathPos) -> PathPos {
    if (p.yintercept >> 16i32) == p.mapy {
        PathPos { mapx: (p.mapx + g.mapxstep) as i32, yintercept: p.yintercept.wrapping_add(g.ystep), ..p }
    } else if (p.xintercept >> 16i32) == p.mapx {
        PathPos { mapy: (p.mapy + g.mapystep) as i32, xintercept: p.xintercept.wrapping_add(g.xstep), ..p }
    } else {
        p
    }
}

/// The cells the walk visits from `p`, at most `n` of them, ending at the
/// end cell.
pub open spec fn path_cells(g: PathGrid, p: PathPos, n: nat) -> Seq<(int, int)>
    decreases n,
{
    if n == 0 {
        Seq::empty()
    } else if p.mapx == g.xt2 && p.mapy == g.yt2 {
        seq![(p.mapx as int, p.mapy as int)]
    } else {
        seq![(p.mapx as int, p.mapy as int)] + path_cells(g, path_step(g, p), (n - 1) as nat)
    }
}

/// The end of the block list at `offset`.
pub open spec fn block_end(lump: Seq<i16>, offset: int, n_lines: int) -> int {
    choose|end: int| block_list(lump, offset, end, n_lines)
}

/// The blockmap of a walk: its tables, the level's vertexes and things,
/// and the check number.
pub struct PathMap {
    pub blockmap: Seq<i16>,
    pub lump: Seq<i16>,
    pub blocklinks: Seq<Option<usize>>,
    pub mobjs: Seq<MapObject>,
    pub vertexes: Seq<Vertex>,
    pub width: i32,
    pub height: i32,
    pub validcount: i32,
}

/// The collection of the walk over `cells` along trace `t` with path flags
/// `flags` and lines `ls` (of which there are `n_lines` to begin with): the
/// lines (with their marks), the intercept buffer, and whether an
/// early-out stop cut it short. Each cell on the map gives its lines
/// ([`lines_fold`]) and then its things ([`things_fold`]), as the flags ask.
pub open spec fn path_collect(
    t: Divline,
    cells: Seq<(int, int)>,
    flags: i32,
    m: PathMap,
    n_lines: int,
    ls: Seq<LineDef>,
    b: (Seq<Intercept>, int),
    earlyout: bool,
) -> (Seq<LineDef>, (Seq<Intercept>, int), bool)
    decreases cells.len(),
{
    if cells.len() == 0 {
        (ls, b, false)
    } else {
        let prev = path_collect(t, cells.drop_last(), flags, m, n_lines, ls, b, earlyout);
        if prev.2 {
            prev
        } else {
            cell_collect(t, cells.last(), flags, m, n_lines, prev.0, prev.1, earlyout)
        }
    }
}

/// The collection of one cell of the walk: its lines ([`lines_fold`]) and
/// then its things ([`things_fold`]), as the flags ask, when it lies on the
/// map; the third part is whether an early-out stop cut it short.
pub open spec fn cell_collect(
    t: Divline,
    cell: (int, int),
    flags: i32,
    m: PathMap,
    n_lines: int,
    ls: Seq<LineDef>,
    b: (Seq<Intercept>, int),
    earlyout: bool,
) -> (Seq<LineDef>, (Seq<Intercept>, int), bool) {
    let (x, y) = cell;
    let on_map = 0 <= x < m.width && 0 <= y < m.height;
    let idx = y * m.width + x;
    let after_lines = if flags & PT_ADDLINES != 0 && on_map {
        let off = m.blockmap[idx] as int;
        lines_fold(t, m.lump, off, block_end(m.lump, off, n_lines), ls, m.vertexes, m.validcount, b, earlyout)
    } else {
        (ls, b, false)
    };
    if after_lines.2 {
        after_lines
    } else if flags & PT_ADDTHINGS != 0 && on_map {
        (after_lines.0, things_fold(t, m.mobjs, chain_seq(m.mobjs, m.blocklinks[idx], m.mobjs.len()), after_lines.1), false)
    } else {
        after_lines
    }
}

/// The collection of blockmap cell `(x, y)` for the walk: see
/// [`cell_collect`]. Returns false when an early-out stop cut it short.
fn collect_cell(
    state: &mut MapUtilState,
    x: i32,
    y: i32,
    flags: i32,
    blockmap: &[i16],
    blockmaplump: &[i16],
    lines: &mut [LineDef],
    vertexes: &[Vertex],
    mobjs: &[MapObject],
    blocklinks: &[Option<usize>],
    bmapwidth: i32,
    bmapheight: i32,
    validcount: i32,
) -> (ok: bool)
    requires
        old(state).intercept_p <= MAXINTERCEPTS,
        lines_traceable(old(state).trace, old(lines)@, vertexes@),
        things_traceable(old(state).trace, mobjs@),
        blockmap_ok(blockmap@, blockmaplump@, blocklinks@, mobjs@, old(lines)@.len() as int, bmapwidth, bmapheight),
    ensures
        collecting(*old(state), *final(state)),
        final(lines)@.len() == old(lines)@.len(),
        forall|j: int| 0 <= j < old(lines)@.len() ==> (#[trigger] final(lines)@[j]) == (LineDef { validcount: final(lines)@[j].validcount, ..old(lines)@[j] }),
        forall|j: int| 0 <= j < old(lines)@.len() ==> #[trigger] final(lines)@[j].validcount == old(lines)@[j].validcount || final(lines)@[j].validcount == validcount,
        ({
            let m = PathMap {
                blockmap: blockmap@,
                lump: blockmaplump@,
                blocklinks: blocklinks@,
                mobjs: mobjs@,
                vertexes: vertexes@,
                width: bmapwidth,
                height: bmapheight,
                validcount,
            };
            let f = cell_collect(old(state).trace, (x as int, y as int), flags, m, old(lines)@.len() as int, old(lines)@, buffer_of(*old(state)), old(state).earlyout);
            &&& final(lines)@ == f.0
            &&& buffer_of(*final(state)) == f.1
            &&& ok == !f.2
        }),
{
    let ghost on_map = 0 <= x < bmapwidth && 0 <= y < bmapheight;
    let ghost n_lines = old(lines)@.len() as int;
    proof {
        if on_map {
            let idx = y * bmapwidth + x;
            assert((y * bmapwidth + x) < blockmap@.len());
            let off = blockmap@[idx] as int;
            assert(exists|end: int| #[trigger] block_list(blockmaplump@, off, end, n_lines));
            assert(block_list(blockmaplump@, off, block_end(blockmaplump@, off, n_lines), n_lines));
        }
    }
    if (flags & PT_ADDLINES) != 0 {
        if !add_block_lines(state, x, y, blockmap, blockmaplump, lines, vertexes, bmapwidth, bmapheight, validcount) {
            return false;
        }
    }
    if (flags & PT_ADDTHINGS) != 0 {
        add_block_things(state, x, y, blocklinks, mobjs, bmapwidth, bmapheight);
    }
    true
}

proof fn lemma_path_collect_stopped(
    t: Divline,
    a: Seq<(int, int)>,
    rest: Seq<(int, int)>,
    flags: i32,
    m: PathMap,
    n_lines: int,
    ls: Seq<LineDef>,
    b: (Seq<Intercept>, int),
    earlyout: bool,
)
    requires
        path_collect(t, a, flags, m, n_lines, ls, b, earlyout).2,
    ensures
        path_collect(t, a + rest, flags, m, n_lines, ls, b, earlyout) == path_collect(t, a, flags, m, n_lines, ls, b, earlyout),
    decreases rest.len(),
{
    if rest.len() > 0 {
        lemma_path_collect_stopped(t, a, rest.drop_last(), flags, m, n_lines, ls, b, earlyout);
        assert((a + rest).drop_last() =~= a + rest.drop_last());
    } else {
        assert(a + rest =~= a);
    }
}

/// `P_PathTraverse`: follows the trace from `(x1, y1)` (nudged off cell
/// boundaries) to `(x2, y2)` through the blockmap cell by cell, for at
/// most 64 cells, collecting the crossings of lines (`PT_ADDLINES`) and
/// things (`PT_ADDTHINGS`) of each cell, then hands them to `trav`
/// nearest first ([`p_traverse_intercepts`] up to 1.0). It returns false
/// when an early-out stop (`PT_EARLYOUT`) cut the collection short or
/// `trav` stopped. The trace, the early-out flag and a fresh
/// `validcount` (marking the lines looked at) are left behind; only line
/// marks change. The cells walked are [`path_cells`] (along [`path_grid`]
/// from [`path_start`]), what they give is [`path_collect`], and the
/// hand-over is as [`traversed`] states.
#[verifier::rlimit(60)]
pub fn p_path_traverse<F: Fn(&Intercept) -> bool>(
    state: &mut MapUtilState,
    x1: Fixed,
    y1: Fixed,
    x2: Fixed,
    y2: Fixed,
    flags: i32,
    trav: F,
    blockmap: &[i16],
    blockmaplump: &[i16],
    lines: &mut [LineDef],
    vertexes: &[Vertex],
    mobjs: &[MapObject],
    blocklinks: &[Option<usize>],
    bmaporgx: Fixed,
    bmaporgy: Fixed,
    bmapwidth: i32,
    bmapheight: i32,
    validcount: &mut i32,
) -> (r: bool)
    requires
        traverser_callable(trav),
        *old(validcount) < i32::MAX,
        path_fits(x1.0, y1.0, x2.0, y2.0, bmaporgx.0, bmaporgy.0),
        lines_traceable(path_trace(x1.0, y1.0, x2.0, y2.0, bmaporgx.0, bmaporgy.0), old(lines)@, vertexes@),
        things_traceable(path_trace(x1.0, y1.0, x2.0, y2.0, bmaporgx.0, bmaporgy.0), mobjs@),
        blockmap_ok(blockmap@, blockmaplump@, blocklinks@, mobjs@, old(lines)@.len() as int, bmapwidth, bmapheight),
    ensures
        final(state).trace == path_trace(x1.0, y1.0, x2.0, y2.0, bmaporgx.0, bmaporgy.0),
        final(state).earlyout == (flags & PT_EARLYOUT != 0),
        *final(validcount) == *old(validcount) + 1,
        final(state).intercept_p <= MAXINTERCEPTS,
        final(lines)@.len() == old(lines)@.len(),
        forall|j: int| 0 <= j < old(lines)@.len() ==> (#[trigger] final(lines)@[j]) == (LineDef { validcount: final(lines)@[j].validcount, ..old(lines)@[j] }),
        forall|j: int| 0 <= j < old(lines)@.len() ==> #[trigger] final(lines)@[j].validcount == old(lines)@[j].validcount || final(lines)@[j].validcount == *final(validcount),
        flags & (PT_ADDLINES | PT_ADDTHINGS) == 0 ==> r && final(state).intercept_p == 0,
        ({
            let cells = path_cells(path_grid(x1.0, y1.0, x2.0, y2.0, bmaporgx.0, bmaporgy.0), path_start(x1.0, y1.0, x2.0, y2.0, bmaporgx.0, bmaporgy.0), 64);
            let m = PathMap {
                blockmap: blockmap@,
                lump: blockmaplump@,
                blocklinks: blocklinks@,
                mobjs: mobjs@,
                vertexes: vertexes@,
                width: bmapwidth,
                height: bmapheight,
                validcount: *final(validcount),
            };
            let f = path_collect(
                path_trace(x1.0, y1.0, x2.0, y2.0, bmaporgx.0, bmaporgy.0),
                cells,
                flags,
                m,
                old(lines)@.len() as int,
                old(lines)@,
                (old(state).intercepts@, 0int),
                flags & PT_EARLYOUT != 0,
            );
            &&& final(lines)@ == f.0
            &&& f.2 ==> !r && buffer_of(*final(state)) == f.1
            &&& !f.2 ==> exists|mid: MapUtilState| buffer_of(mid) == f.1 && #[trigger] traversed(mid, *final(state), trav, Fixed(FRACUNIT), r)
        }),
{
    state.earlyout = (flags & PT_EARLYOUT) != 0;
    *validcount = *validcount + 1;
    let vc = *validcount;
    state.intercept_p = 0;
    let mut sx = x1.0;
    let mut sy = y1.0;
    if ((sx - bmaporgx.0) & 0x7FFFFF) == 0 {
        sx = sx + FRACUNIT;
    }
    if ((sy - bmaporgy.0) & 0x7FFFFF) == 0 {
        sy = sy + FRACUNIT;
    }
    assert(sx == nudged(x1.0, bmaporgx.0));
    assert(sy == nudged(y1.0, bmaporgy.0));
    state.trace = Divline { x: Fixed(sx), y: Fixed(sy), dx: Fixed(x2.0 - sx), dy: Fixed(y2.0 - sy) };
    let adj_x1 = sx - bmaporgx.0;
    let adj_y1 = sy - bmaporgy.0;
    let xt1 = adj_x1 >> 23i32;
    let yt1 = adj_y1 >> 23i32;
    let adj_x2 = x2.0 - bmaporgx.0;
    let adj_y2 = y2.0 - bmaporgy.0;
    let xt2 = adj_x2 >> 23i32;
    let yt2 = adj_y2 >> 23i32;
    assert(-256 <= adj_x1 >> 23i32 <= 255) by (bit_vector);
    assert(-256 <= adj_y1 >> 23i32 <= 255) by (bit_vector);
    assert(0 <= (adj_x1 >> 7i32) & 0xFFFFi32 <= 0xFFFF) by (bit_vector);
    assert(0 <= (adj_y1 >> 7i32) & 0xFFFFi32 <= 0xFFFF) by (bit_vector);
    let ddx = x2.0 - sx;
    let ddy = y2.0 - sy;
    assert(ddx == adj_x2 - adj_x1);
    assert(ddy == adj_y2 - adj_y1);
    let mapxstep: i32;
    let partial_x: i32;
    let ystep: i32;
    if xt2 > xt1 {
        mapxstep = 1;
        partial_x = FRACUNIT - ((adj_x1 >> 7i32) & 0xFFFFi32);
        let a = abs_i32(ddx);
        ystep = if a != 0 { Fixed(ddy).fixed_div(Fixed(a)).0 } else { 256 * FRACUNIT };
    } else if xt2 < xt1 {
        mapxstep = -1;
        partial_x = (adj_x1 >> 7i32) & 0xFFFFi32;
        let a = abs_i32(ddx);
        ystep = if a != 0 { Fixed(ddy).fixed_div(Fixed(a)).0 } else { 256 * FRACUNIT };
    } else {
        mapxstep = 0;
        partial_x = FRACUNIT;
        ystep = 256 * FRACUNIT;
    }
    let mut yintercept: i32 = (adj_y1 >> 7i32).wrapping_add(Fixed(partial_x).fixed_mul(Fixed(ystep)).0);
    let mapystep: i32;
    let partial_y: i32;
    let xstep: i32;
    if yt2 > yt1 {
        mapystep = 1;
        partial_y = FRACUNIT - ((adj_y1 >> 7i32) & 0xFFFFi32);
        let a = abs_i32(ddy);
        xstep = if a != 0 { Fixed(ddx).fixed_div(Fixed(a)).0 } else { 256 * FRACUNIT };
    } else if yt2 < yt1 {
        mapystep = -1;
        partial_y = (adj_y1 >> 7i32) & 0xFFFFi32;
        let a = abs_i32(ddy);
        xstep = if a != 0 { Fixed(ddx).fixed_div(Fixed(a)).0 } else { 256 * FRACUNIT };
    } else {
        mapystep = 0;
        partial_y = FRACUNIT;
        xstep = 256 * FRACUNIT;
    }
    let mut xintercept: i32 = (adj_x1 >> 7i32).wrapping_add(Fixed(partial_y).fixed_mul(Fixed(xstep)).0);
    let mut mapx = xt1;
    let mut mapy = yt1;
    let ghost s0 = *state;
    let mut count: u32 = 0;
    assert(flags & (1i32 | 2i32) == 0 ==> flags & 1i32 == 0 && flags & 2i32 == 0) by (bit_vector);
    let ghost g = PathGrid { xt2, yt2, mapxstep, mapystep, xstep, ystep };
    let ghost start = PathPos { mapx, mapy, xintercept, yintercept };
    proof {
        assert(path_adj(x1.0, y1.0, bmaporgx.0, bmaporgy.0) == (adj_x1, adj_y1));
        assert(g == path_grid(x1.0, y1.0, x2.0, y2.0, bmaporgx.0, bmaporgy.0));
        assert(start == path_start(x1.0, y1.0, x2.0, y2.0, bmaporgx.0, bmaporgy.0));
    }
    let ghost full = path_cells(g, start, 64);
    let ghost m = PathMap {
        blockmap: blockmap@,
        lump: blockmaplump@,
        blocklinks: blocklinks@,
        mobjs: mobjs@,
        vertexes: vertexes@,
        width: bmapwidth,
        height: bmapheight,
        validcount: vc,
    };
    let ghost n_lines = old(lines)@.len() as int;
    let ghost b0 = (s0.intercepts@, 0int);
    let ghost eo = flags & PT_EARLYOUT != 0;
    let ghost mut visited: Seq<(int, int)> = Seq::empty();
    let ghost mut done = false;
    proof {
        assert(full == visited + path_cells(g, PathPos { mapx, mapy, xintercept, yintercept }, (64 - count) as nat));
    }
    while count < 64
        invariant_except_break
            !done,
        invariant
            full == visited + if done { Seq::empty() } else { path_cells(g, PathPos { mapx, mapy, xintercept, yintercept }, (64 - count) as nat) },
            (lines@, buffer_of(*state), false) == path_collect(s0.trace, visited, flags, m, n_lines, old(lines)@, b0, eo),
            g == (PathGrid { xt2, yt2, mapxstep, mapystep, xstep, ystep }),
            m.blockmap == blockmap@ && m.lump == blockmaplump@ && m.blocklinks == blocklinks@ && m.mobjs == mobjs@,
            m.vertexes == vertexes@ && m.width == bmapwidth && m.height == bmapheight && m.validcount == vc,
            n_lines == old(lines)@.len(),
            b0 == (s0.intercepts@, 0int),
            b0 == (old(state).intercepts@, 0int),
            full == path_cells(path_grid(x1.0, y1.0, x2.0, y2.0, bmaporgx.0, bmaporgy.0), path_start(x1.0, y1.0, x2.0, y2.0, bmaporgx.0, bmaporgy.0), 64),
            eo == s0.earlyout,
            0 <= count <= 64,
            *validcount == vc,
            vc == *old(validcount) + 1,
            collecting(s0, *state),
            s0.intercept_p == 0,
            s0.earlyout == (flags & PT_EARLYOUT != 0),
            s0.trace == path_trace(x1.0, y1.0, x2.0, y2.0, bmaporgx.0, bmaporgy.0),
            lines_traceable(s0.trace, old(lines)@, vertexes@),
            things_traceable(s0.trace, mobjs@),
            blockmap_ok(blockmap@, blockmaplump@, blocklinks@, mobjs@, old(lines)@.len() as int, bmapwidth, bmapheight),
            lines@.len() == old(lines)@.len(),
            forall|j: int| 0 <= j < old(lines)@.len() ==> (#[trigger] lines@[j]) == (LineDef { validcount: lines@[j].validcount, ..old(lines)@[j] }),
            forall|j: int| 0 <= j < old(lines)@.len() ==> #[trigger] lines@[j].validcount == old(lines)@[j].validcount || lines@[j].validcount == vc,
            -256 <= xt1 <= 255,
            -256 <= yt1 <= 255,
            mapx - xt1 <= count && xt1 - mapx <= count,
            mapy - yt1 <= count && yt1 - mapy <= count,
            -1 <= mapxstep <= 1,
            -1 <= mapystep <= 1,
            flags & (PT_ADDLINES | PT_ADDTHINGS) == 0 ==> state.intercept_p == 0,
            flags & (PT_ADDLINES | PT_ADDTHINGS) == 0 ==> flags & PT_ADDLINES == 0 && flags & PT_ADDTHINGS == 0,
        ensures
            done || count >= 64,
        decreases 64 - count,
    {
        let ghost cell = (mapx as int, mapy as int);
        let ghost pos = PathPos { mapx, mapy, xintercept, yintercept };
        let ghost rest = path_cells(g, pos, (64 - count) as nat);
        let ghost v1 = visited.push(cell);
        proof {
            assert(v1.drop_last() =~= visited);
            assert(v1.last() == cell);
        }
        let ghost prev = path_collect(s0.trace, visited, flags, m, n_lines, old(lines)@, b0, eo);
        let ghost st = *state;
        let ghost ls0 = lines@;
        let ok = collect_cell(state, mapx, mapy, flags, blockmap, blockmaplump, lines, vertexes, mobjs, blocklinks, bmapwidth, bmapheight, vc);
        proof {
            let m2 = PathMap {
                blockmap: blockmap@,
                lump: blockmaplump@,
                blocklinks: blocklinks@,
                mobjs: mobjs@,
                vertexes: vertexes@,
                width: bmapwidth,
                height: bmapheight,
                validcount: vc,
            };
            assert(m == m2);
            assert(prev.0 == ls0 && prev.1 == buffer_of(st) && !prev.2);
            assert(st.trace == s0.trace && st.earlyout == eo);
            assert(ls0.len() == n_lines);
            let f = cell_collect(s0.trace, cell, flags, m, n_lines, prev.0, prev.1, eo);
            assert(path_collect(s0.trace, v1, flags, m, n_lines, old(lines)@, b0, eo) == f);
            assert(lines@ == f.0 && buffer_of(*state) == f.1 && ok == !f.2);
        }
        if !ok {
            proof {
                assert(path_collect(s0.trace, v1, flags, m, n_lines, old(lines)@, b0, eo).2);
                let tail = if mapx == xt2 && mapy == yt2 { Seq::<(int, int)>::empty() } else { path_cells(g, path_step(g, pos), (64 - count - 1) as nat) };
                assert(rest == seq![cell] + tail);
                assert(full =~= v1 + tail);
                lemma_path_collect_stopped(s0.trace, v1, tail, flags, m, n_lines, old(lines)@, b0, eo);
            }
            return false;
        }
        proof {
            assert((lines@, buffer_of(*state), false) == path_collect(s0.trace, v1, flags, m, n_lines, old(lines)@, b0, eo));
        }
        if mapx == xt2 && mapy == yt2 {
            proof {
                assert(rest == seq![cell]);
                assert(full =~= v1);
                visited = v1;
                done = true;
            }
            break;
        }
        proof {
            assert(rest == seq![cell] + path_cells(g, path_step(g, pos), (64 - count - 1) as nat));
        }
        if (yintercept >> 16i32) == mapy {
            yintercept = yintercept.wrapping_add(ystep);
            mapx = mapx + mapxstep;
            proof {
                assert((pos.yintercept >> 16i32) == pos.mapy);
                assert(path_step(g, pos) == (PathPos { mapx: (pos.mapx + g.mapxstep) as i32, yintercept: pos.yintercept.wrapping_add(g.ystep), ..pos }));
            }
        } else if (xintercept >> 16i32) == mapx {
            xintercept = xintercept.wrapping_add(xstep);
            mapy = mapy + mapystep;
            proof {
                assert((pos.yintercept >> 16i32) != pos.mapy);
                assert((pos.xintercept >> 16i32) == pos.mapx);
            }
        } else {
            proof {
                assert((pos.yintercept >> 16i32) != pos.mapy);
                assert((pos.xintercept >> 16i32) != pos.mapx);
            }
        }
        proof {
            assert(PathPos { mapx, mapy, xintercept, yintercept } == path_step(g, pos));
            assert(full =~= v1 + path_cells(g, PathPos { mapx, mapy, xintercept, yintercept }, (64 - count - 1) as nat));
            visited = v1;
        }
        count = count + 1;
    }
    proof {
        if !done {
            assert(full =~= visited);
        }
    }
    let ghost mid = *state;
    let r = p_traverse_intercepts(state, trav, Fixed(FRACUNIT));
    proof {
        assert(buffer_of(mid) == path_collect(s0.trace, full, flags, m, n_lines, old(lines)@, b0, eo).1);
        assert(traversed(mid, *state, trav, Fixed(FRACUNIT), r));
    }
    r
}

} // verus!
