//! Moving a sector's floor or ceiling plane, floor movers and staircases.

use vstd::prelude::*;
use crate::fixed::{Fixed, FRACUNIT};
use crate::spec::{
    any_free_tagged, free_tagged, highest_floor_surrounding, keeps_level, lemma_find_same_geometry,
    lemma_find_tagged_from, lemma_fold_same_geometry, lemma_occupied_geometry, lemma_steps_same_geometry,
    lemma_tagged_spawns_skip, lemma_wf_same_geometry, level_wf, lowest_ceiling_surrounding, lowest_floor_surrounding,
    next_highest_floor, occupied_upto, p_find_highest_floor_surrounding, p_find_lowest_ceiling_surrounding,
    p_find_lowest_floor_surrounding, p_find_next_highest_floor, p_find_sector_from_line_tag, step_highest_floor,
    step_lowest_ceiling, step_lowest_floor, step_next_floor, tagged_spawns, untouched, FloorMoveT, FloorType,
    ResultE, SpecContext, SpecEvent, StairType, FLOORSPEED, fold_neighbors, next_sector,
};
use crate::random::DoomRandom;
use crate::types::{LineDef, SfxEnum, Sector, SideDef, ML_TWOSIDED};
use vstd::set_lib::{lemma_int_range, set_int_range};

verus! {

/// A change-sector callback that may be called in any state with any flag.
pub open spec fn change_callable<F: FnMut(bool) -> bool>() -> bool {
    forall|f: F, c: bool| call_requires(f, (c,))
}

/// A sound callback that may be called in any state with any sound.
pub open spec fn sound_callable<G: FnMut(SfxEnum)>() -> bool {
    forall|g: G, s: SfxEnum| call_requires(g, (s,))
}

/// The height of the floor (`floor_or_ceiling == 0`) or ceiling plane.
pub open spec fn plane_height(s: Sector, floor_or_ceiling: i32) -> int {
    if floor_or_ceiling == 0 {
        s.floorheight.0 as int
    } else {
        s.ceilingheight.0 as int
    }
}

/// `s` with the floor (0) or ceiling (1) plane at height `h`; any other
/// selector leaves the sector as it is.
pub open spec fn with_plane(s: Sector, floor_or_ceiling: i32, h: int) -> Sector {
    if floor_or_ceiling == 0 {
        Sector { floorheight: Fixed(h as i32), ..s }
    } else if floor_or_ceiling == 1 {
        Sector { ceilingheight: Fixed(h as i32), ..s }
    } else {
        s
    }
}

/// The heights `t_move_plane` computes stay in `i32`.
pub open spec fn plane_move_fits(h0: int, speed: int, direction: i32) -> bool {
    &&& direction == -1 ==> i32::MIN <= h0 - speed <= i32::MAX
    &&& direction == 1 ==> i32::MIN <= h0 + speed <= i32::MAX
}

/// One tic of `T_MovePlane` from height `h0`: the new height and the result,
/// given whether the change-sector check reported something that does not fit
/// (`blocked`). A plane that would pass `dest` stops at `dest`. When the
/// check fails the plane returns to `h0`, except for a crushing floor raise
/// or ceiling lowering that has not reached `dest`, which keeps its new height.
/// A ceiling rising without reaching `dest` is not checked.
pub open spec fn plane_step(
    h0: int,
    speed: int,
    dest: int,
    crush: bool,
    floor_or_ceiling: i32,
    direction: i32,
    blocked: bool,
) -> (int, ResultE) {
    if (floor_or_ceiling != 0 && floor_or_ceiling != 1) || (direction != 1 && direction != -1) {
        (h0, ResultE::MoveOk)
    } else {
        let past = if direction == -1 { h0 - speed < dest } else { h0 + speed > dest };
        let t = if past { dest } else if direction == -1 { h0 - speed } else { h0 + speed };
        let crushing_move = (floor_or_ceiling == 0 && direction == 1) || (floor_or_ceiling == 1
            && direction == -1);
        if floor_or_ceiling == 1 && direction == 1 && !past {
            (t, ResultE::MoveOk)
        } else if !blocked {
            (t, if past { ResultE::PastDest } else { ResultE::MoveOk })
        } else if crush && crushing_move && !past {
            (t, ResultE::Crushed)
        } else {
            (h0, ResultE::Crushed)
        }
    }
}

/// Law: a moving plane never passes its destination: one tic toward a
/// destination it has not passed leaves it on the same side (or at the
/// destination), and when the move reports reaching it the plane is
/// exactly there. (Speeds are not negative.)
pub proof fn law_plane_never_passes_dest(
    h0: int,
    speed: int,
    dest: int,
    crush: bool,
    floor_or_ceiling: i32,
    direction: i32,
    blocked: bool,
)
    requires
        speed >= 0,
    ensures
        ({
            let (h, r) = plane_step(h0, speed, dest, crush, floor_or_ceiling, direction, blocked);
            &&& r == ResultE::PastDest ==> h == dest
            &&& direction == -1 && h0 >= dest ==> dest <= h <= h0
            &&& direction == 1 && h0 <= dest ==> h0 <= h <= dest
        }),
{
}

/// Whether one tic of `T_MovePlane` asks the change-sector check: a valid
/// move, other than a ceiling rising without reaching `dest`.
pub open spec fn plane_checked(h0: int, speed: int, dest: int, floor_or_ceiling: i32, direction: i32) -> bool {
    let past = if direction == -1 { h0 - speed < dest } else { h0 + speed > dest };
    &&& floor_or_ceiling == 0 || floor_or_ceiling == 1
    &&& direction == 1 || direction == -1
    &&& !(floor_or_ceiling == 1 && direction == 1 && !past)
}

/// `blocked` is an answer a change-sector callback of type `F` can give
/// when asked with `crush`, wherever the move asks it.
pub open spec fn plane_answer<F: FnMut(bool) -> bool>(
    h0: int,
    speed: int,
    dest: int,
    crush: bool,
    floor_or_ceiling: i32,
    direction: i32,
    blocked: bool,
) -> bool {
    plane_checked(h0, speed, dest, floor_or_ceiling, direction) ==> exists|g: F| call_ensures(g, (crush,), blocked)
}

/// `T_MovePlane`: move the floor (`floor_or_ceiling == 0`) or ceiling (`1`)
/// of `sector` one tic toward `dest` at `speed`, lowering for `direction`
/// -1 and raising for 1. `change_sector_fn(crush)` is the engine's
/// `P_ChangeSector`: it reports whether something no longer fits; on such a
/// report the move is undone (and the check repeated) unless a crushing mover
/// is still on its way. Returns `PastDest` when the plane reached `dest`,
/// `Crushed` when blocked, `MoveOk` otherwise.
pub fn t_move_plane<F: FnMut(bool) -> bool>(
    sector: &mut Sector,
    speed: Fixed,
    dest: Fixed,
    crush: bool,
    floor_or_ceiling: i32,
    direction: i32,
    change_sector_fn: &mut F,
) -> (res: ResultE)
    requires
        change_callable::<F>(),
        plane_move_fits(plane_height(*old(sector), floor_or_ceiling), speed.0 as int, direction),
    ensures
        exists|blocked: bool|
            {
                let (h, r) = #[trigger] plane_step(
                    plane_height(*old(sector), floor_or_ceiling),
                    speed.0 as int,
                    dest.0 as int,
                    crush,
                    floor_or_ceiling,
                    direction,
                    blocked,
                );
                &&& *final(sector) == with_plane(*old(sector), floor_or_ceiling, h)
                &&& res == r
                &&& plane_answer::<F>(
                    plane_height(*old(sector), floor_or_ceiling),
                    speed.0 as int,
                    dest.0 as int,
                    crush,
                    floor_or_ceiling,
                    direction,
                    blocked,
                )
            },
{
    let ghost h0 = plane_height(*sector, floor_or_ceiling);
    if (floor_or_ceiling != 0 && floor_or_ceiling != 1) || (direction != 1 && direction != -1) {
        assert(plane_step(h0, speed.0 as int, dest.0 as int, crush, floor_or_ceiling, direction, false) == (h0, ResultE::MoveOk));
        assert(with_plane(*old(sector), floor_or_ceiling, h0) == *old(sector));
        return ResultE::MoveOk;
    }
    let lastpos = if floor_or_ceiling == 0 { sector.floorheight } else { sector.ceilingheight };
    let past = if direction == -1 { lastpos.0 - speed.0 < dest.0 } else { lastpos.0 + speed.0 > dest.0 };
    let target = if past { dest.0 } else if direction == -1 { lastpos.0 - speed.0 } else { lastpos.0 + speed.0 };
    let crushing_move = (floor_or_ceiling == 0 && direction == 1) || (floor_or_ceiling == 1 && direction == -1);
    if floor_or_ceiling == 0 {
        sector.floorheight = Fixed(target);
    } else {
        sector.ceilingheight = Fixed(target);
    }
    if floor_or_ceiling == 1 && direction == 1 && !past {
        assert(plane_step(h0, speed.0 as int, dest.0 as int, crush, floor_or_ceiling, direction, false) == (target as int, ResultE::MoveOk));
        return ResultE::MoveOk;
    }
    let ghost g1 = *change_sector_fn;
    let blocked = change_sector_fn(crush);
    assert(call_ensures(g1, (crush,), blocked));
    assert(plane_answer::<F>(h0, speed.0 as int, dest.0 as int, crush, floor_or_ceiling, direction, blocked));
    if !blocked {
        let r = if past { ResultE::PastDest } else { ResultE::MoveOk };
        assert(plane_step(h0, speed.0 as int, dest.0 as int, crush, floor_or_ceiling, direction, false) == (target as int, r));
        return r;
    }
    if crush && crushing_move && !past {
        assert(plane_step(h0, speed.0 as int, dest.0 as int, crush, floor_or_ceiling, direction, true) == (target as int, ResultE::Crushed));
        return ResultE::Crushed;
    }
    if floor_or_ceiling == 0 {
        sector.floorheight = lastpos;
    } else {
        sector.ceilingheight = lastpos;
    }
    change_sector_fn(crush);
    assert(plane_step(h0, speed.0 as int, dest.0 as int, crush, floor_or_ceiling, direction, true) == (h0, ResultE::Crushed));
    ResultE::Crushed
}

/// `T_MoveFloor` as the engine calls it: the floor movers' state lives with
/// the engine, which moves the plane with [`t_move_plane`] itself, so this
/// entry point reads the level and changes nothing.
pub fn t_move_floor<C: SpecContext>(floor_idx: usize, ctx: &mut C)
    requires
        old(ctx).sectors_view().len() > 0,
    ensures
        untouched(*old(ctx), *final(ctx)),
{
    let _ = (floor_idx, ctx.sectors()[0].floorheight);
}

/// Fast floor movers run at four times [`FLOORSPEED`].
pub const TURBO_FLOOR_SPEED: i32 = 262144;

/// A donut's floor rises at half [`FLOORSPEED`].
pub const DONUT_FLOOR_SPEED: i32 = 32768;

/// A line joins two sectors.
pub open spec fn two_sided(line: LineDef) -> bool {
    (line.flags & ML_TWOSIDED) != 0
}

/// Every line has a front sidedef, and every sidedef's sector exists.
pub open spec fn sides_wf(sectors: Seq<Sector>, lines: Seq<LineDef>, sides: Seq<SideDef>) -> bool {
    &&& forall|j: int| 0 <= j < lines.len() ==> 0 <= (#[trigger] lines[j]).sidenum@[0] < sides.len()
    &&& forall|k: int| 0 <= k < sides.len() ==> (#[trigger] sides[k]).sector < sectors.len()
}

/// The raise of `RaiseToTexture` over the first `n` of a sector's lines
/// `sec_lines`: 128 units once a two-sided one has a lower texture on its
/// front side, else `i32::MAX`.
pub open spec fn texture_raise(lines: Seq<LineDef>, sides: Seq<SideDef>, sec_lines: Seq<usize>, n: int) -> int
    decreases n,
{
    if n <= 0 {
        i32::MAX as int
    } else {
        let prev = texture_raise(lines, sides, sec_lines, n - 1);
        let li = lines[sec_lines[n - 1] as int];
        if two_sided(li) && sides[li.sidenum@[0] as int].bottomtexture >= 0 && 128 * FRACUNIT < prev {
            128 * FRACUNIT
        } else {
            prev
        }
    }
}

/// The sector across the first two-sided line, from the `k`-th on, of
/// sector `sec` (whose lines are `sec_lines`), if any.
pub open spec fn change_source(lines: Seq<LineDef>, sec_lines: Seq<usize>, sec: usize, k: int) -> Option<usize>
    decreases sec_lines.len() - k,
{
    if k < 0 || k >= sec_lines.len() {
        None
    } else {
        match crate::spec::next_sector(lines[sec_lines[k] as int], sec) {
            Some(o) => Some(o),
            None => change_source(lines, sec_lines, sec, k + 1),
        }
    }
}

/// The sector [`change_source`] finds exists.
pub proof fn lemma_change_source_in_level(sectors: Seq<Sector>, lines: Seq<LineDef>, sec_lines: Seq<usize>, sec: usize, k: int)
    requires
        level_wf(sectors, lines),
        forall|i: int| 0 <= i < sec_lines.len() ==> #[trigger] sec_lines[i] < lines.len(),
    ensures
        change_source(lines, sec_lines, sec, k) matches Some(o) ==> o < sectors.len(),
    decreases sec_lines.len() - k,
{
    if 0 <= k < sec_lines.len() {
        let li = lines[sec_lines[k] as int];
        assert(sec_lines[k] < lines.len());
        lemma_change_source_in_level(sectors, lines, sec_lines, sec, k + 1);
    }
}

/// The height the floor of sector `j` moves to under `EV_DoFloor`.
///
/// | kind | destination |
/// |---|---|
/// | lower | highest neighbouring floor |
/// | lower to lowest, lower and change | lowest floor around |
/// | turbo lower | highest neighbouring floor, 8 units higher unless it is the floor itself |
/// | raise | lowest ceiling around, at most the sector's ceiling |
/// | raise and crush | the same, 8 units lower |
/// | turbo raise, raise to nearest, donut | next higher neighbouring floor |
/// | raise 24, raise 24 and change | floor + 24 |
/// | raise 512 | floor + 512 |
/// | raise to texture | floor + [`texture_raise`] |
pub open spec fn floor_dest(ft: FloorType, sectors: Seq<Sector>, lines: Seq<LineDef>, sides: Seq<SideDef>, j: int) -> int {
    let s = sectors[j];
    let fh = s.floorheight.0 as int;
    let up = if lowest_ceiling_surrounding(sectors, lines, j) > s.ceilingheight.0 {
        s.ceilingheight.0 as int
    } else {
        lowest_ceiling_surrounding(sectors, lines, j)
    };
    match ft {
        FloorType::LowerFloor => highest_floor_surrounding(sectors, lines, j),
        FloorType::LowerFloorToLowest | FloorType::LowerAndChange => lowest_floor_surrounding(sectors, lines, j),
        FloorType::TurboLower => if highest_floor_surrounding(sectors, lines, j) != fh {
            highest_floor_surrounding(sectors, lines, j) + 8 * FRACUNIT
        } else {
            fh
        },
        FloorType::RaiseFloor => up,
        FloorType::RaiseFloorCrush => up - 8 * FRACUNIT,
        FloorType::RaiseFloorTurbo | FloorType::RaiseFloorToNearest | FloorType::DonutRaise => next_highest_floor(sectors, lines, j, fh),
        FloorType::RaiseFloor24 | FloorType::RaiseFloor24AndChange => fh + 24 * FRACUNIT,
        FloorType::RaiseFloor512 => fh + 512 * FRACUNIT,
        FloorType::RaiseToTexture => fh + texture_raise(lines, sides, s.lines@, s.lines@.len() as int),
    }
}

/// Every sector tagged `tag` has a [`floor_dest`] that fits a fixed-point value.
pub open spec fn floor_dests_fit(ft: FloorType, sectors: Seq<Sector>, lines: Seq<LineDef>, sides: Seq<SideDef>, tag: i16) -> bool {
    forall|j: int| 0 <= j < sectors.len() && (#[trigger] sectors[j]).tag == tag ==> i32::MIN <= floor_dest(ft, sectors, lines, sides, j) <= i32::MAX
}

/// The floor kinds that read sidedefs.
pub open spec fn reads_sides(ft: FloorType) -> bool {
    ft == FloorType::RaiseToTexture || ft == FloorType::RaiseFloor24AndChange
}

/// The floor mover `EV_DoFloor` on line `line` creates for sector `j`: it
/// moves to [`floor_dest`], lowering kinds down and raising kinds up, at
/// [`FLOORSPEED`] ([`TURBO_FLOOR_SPEED`] for the turbo kinds,
/// [`DONUT_FLOOR_SPEED`] for a donut); only raise-and-crush crushes.
/// Raise 24 and change takes the floor picture of the sector on the line's
/// front side and keeps the sector's special; lower and change takes the
/// picture and special of the sector across the first two-sided line, or
/// keeps the sector's own picture when there is none.
pub open spec fn new_floor(ft: FloorType, sectors: Seq<Sector>, lines: Seq<LineDef>, sides: Seq<SideDef>, line: int, j: int) -> FloorMoveT {
    let s = sectors[j];
    let base = FloorMoveT {
        floor_type: ft,
        floordestheight: Fixed(floor_dest(ft, sectors, lines, sides, j) as i32),
        speed: Fixed(FLOORSPEED),
        direction: 1,
        ..FloorMoveT::blank(j as usize)
    };
    match ft {
        FloorType::LowerFloor | FloorType::LowerFloorToLowest => FloorMoveT { direction: -1i32, ..base },
        FloorType::TurboLower => FloorMoveT { direction: -1i32, speed: Fixed(TURBO_FLOOR_SPEED), ..base },
        FloorType::RaiseFloorCrush => FloorMoveT { crush: true, ..base },
        FloorType::RaiseFloorTurbo => FloorMoveT { speed: Fixed(TURBO_FLOOR_SPEED), ..base },
        FloorType::DonutRaise => FloorMoveT { speed: Fixed(DONUT_FLOOR_SPEED), ..base },
        FloorType::RaiseFloor24AndChange => FloorMoveT {
            newtexture: sectors[sides[lines[line].sidenum@[0] as int].sector as int].floorpic,
            newsecspecial: s.special as i32,
            ..base
        },
        FloorType::LowerAndChange => match change_source(lines, s.lines@, j as usize, 0) {
            Some(o) => FloorMoveT {
                direction: -1i32,
                newtexture: sectors[o as int].floorpic,
                newsecspecial: sectors[o as int].special as i32,
                ..base
            },
            None => FloorMoveT { direction: -1i32, newtexture: s.floorpic, ..base },
        },
        _ => base,
    }
}

/// The request `EV_DoFloor` makes for each selected sector.
pub open spec fn floor_spawn(ft: FloorType, sectors: Seq<Sector>, lines: Seq<LineDef>, sides: Seq<SideDef>, line: int) -> spec_fn(int, DoomRandom) -> (Seq<SpecEvent>, DoomRandom) {
    |j: int, r: DoomRandom| (seq![SpecEvent::AddFloor(new_floor(ft, sectors, lines, sides, line, j))], r)
}

/// [`texture_raise`] over all of a sector's lines.
fn find_texture_raise(sec_lines: &Vec<usize>, lines: &[LineDef], sides: &[SideDef]) -> (r: i32)
    requires
        forall|k: int| 0 <= k < sec_lines@.len() ==> #[trigger] sec_lines@[k] < lines@.len(),
        forall|j: int| 0 <= j < lines@.len() ==> 0 <= (#[trigger] lines@[j]).sidenum@[0] < sides@.len(),
    ensures
        r == texture_raise(lines@, sides@, sec_lines@, sec_lines@.len() as int),
{
    let mut min_size: i32 = i32::MAX;
    let mut i: usize = 0;
    while i < sec_lines.len()
        invariant
            0 <= i <= sec_lines@.len(),
            forall|k: int| 0 <= k < sec_lines@.len() ==> #[trigger] sec_lines@[k] < lines@.len(),
            forall|j: int| 0 <= j < lines@.len() ==> 0 <= (#[trigger] lines@[j]).sidenum@[0] < sides@.len(),
            min_size == texture_raise(lines@, sides@, sec_lines@, i as int),
        decreases sec_lines@.len() - i,
    {
        let li = &lines[sec_lines[i]];
        if (li.flags & ML_TWOSIDED) != 0 {
            let side = &sides[li.sidenum[0] as usize];
            if side.bottomtexture >= 0 {
                let tex_height: i32 = 128 * FRACUNIT;
                if tex_height < min_size {
                    min_size = tex_height;
                }
            }
        }
        i = i + 1;
    }
    min_size
}

/// [`change_source`] from a sector's first line on.
fn find_change_source(sec: usize, sec_lines: &Vec<usize>, lines: &[LineDef]) -> (r: Option<usize>)
    requires
        forall|k: int| 0 <= k < sec_lines@.len() ==> #[trigger] sec_lines@[k] < lines@.len(),
    ensures
        r == change_source(lines@, sec_lines@, sec, 0),
{
    let mut i: usize = 0;
    while i < sec_lines.len()
        invariant
            0 <= i <= sec_lines@.len(),
            forall|k: int| 0 <= k < sec_lines@.len() ==> #[trigger] sec_lines@[k] < lines@.len(),
            change_source(lines@, sec_lines@, sec, 0) == change_source(lines@, sec_lines@, sec, i as int),
        decreases sec_lines@.len() - i,
    {
        if let Some(other) = crate::spec::get_next_sector(&lines[sec_lines[i]], sec) {
            return Some(other);
        }
        i = i + 1;
    }
    None
}

/// What `EV_DoFloor` on line `line_idx` does, going from `pre` to `post`
/// and returning `rtn`: see [`ev_do_floor`].
pub open spec fn floors_done<C: SpecContext>(pre: C, post: C, line_idx: usize, ft: FloorType, rtn: bool) -> bool {
    let tag = pre.lines_view()[line_idx as int].tag;
    let s0 = pre.sectors_view();
    &&& post.events() == pre.events() + tagged_spawns(s0, tag, 0, pre.rng_view(), floor_spawn(ft, s0, pre.lines_view(), pre.sides_view(), line_idx as int)).0
    &&& rtn == any_free_tagged(s0, tag, 0)
    &&& occupied_upto(s0, post.sectors_view(), tag, s0.len() as int)
    &&& post.lines_view() == pre.lines_view()
    &&& keeps_level(pre, post)
}

/// `EV_DoFloor`: for every sector tagged like the line that no mover
/// occupies, in order, register the floor mover [`new_floor`] states,
/// which occupies the sector. Returns whether any mover was created.
pub fn ev_do_floor<C: SpecContext>(line_idx: usize, floor_type: FloorType, ctx: &mut C) -> (rtn: bool)
    requires
        line_idx < old(ctx).lines_view().len(),
        level_wf(old(ctx).sectors_view(), old(ctx).lines_view()),
        old(ctx).sectors_view().len() < i32::MAX,
        reads_sides(floor_type) ==> sides_wf(old(ctx).sectors_view(), old(ctx).lines_view(), old(ctx).sides_view()),
        floor_dests_fit(floor_type, old(ctx).sectors_view(), old(ctx).lines_view(), old(ctx).sides_view(), old(ctx).lines_view()[line_idx as int].tag),
    ensures
        floors_done(*old(ctx), *final(ctx), line_idx, floor_type, rtn),
{
    let tag = ctx.lines()[line_idx].tag;
    let ghost s0 = ctx.sectors_view();
    let ghost l0 = ctx.lines_view();
    let ghost sd0 = ctx.sides_view();
    let ghost r0 = ctx.rng_view();
    let ghost f = floor_spawn(floor_type, s0, l0, sd0, line_idx as int);
    let ghost all = tagged_spawns(s0, tag, 0, r0, f).0;
    let ghost base = ctx.events();
    let mut rtn = false;
    let mut secnum: i32 = -1;
    loop
        invariant_except_break
            -1 <= secnum < s0.len(),
            s0.len() < i32::MAX,
            line_idx < l0.len(),
            tag == l0[line_idx as int].tag,
            level_wf(s0, l0),
            reads_sides(floor_type) ==> sides_wf(s0, l0, sd0),
            floor_dests_fit(floor_type, s0, l0, sd0, tag),
            f == floor_spawn(floor_type, s0, l0, sd0, line_idx as int),
            ctx.lines_view() == l0,
            ctx.sides_view() == sd0,
            sd0 == old(ctx).sides_view(),
            ctx.mobj_players_view() == old(ctx).mobj_players_view(),
            ctx.player_cards_view() == old(ctx).player_cards_view(),
            ctx.rng_view() == r0,
            r0 == old(ctx).rng_view(),
            forall|g: usize| #[trigger] ctx.door_direction_view(g) == old(ctx).door_direction_view(g),
            occupied_upto(s0, ctx.sectors_view(), tag, secnum as int),
            base + all == ctx.events() + tagged_spawns(s0, tag, secnum + 1, r0, f).0,
            rtn == exists|j: int| 0 <= j <= secnum && free_tagged(#[trigger] s0[j], tag),
        ensures
            base + all == ctx.events(),
            rtn == any_free_tagged(s0, tag, 0),
            occupied_upto(s0, ctx.sectors_view(), tag, s0.len() as int),
            ctx.lines_view() == l0,
            ctx.sides_view() == old(ctx).sides_view(),
            ctx.mobj_players_view() == old(ctx).mobj_players_view(),
            ctx.player_cards_view() == old(ctx).player_cards_view(),
            ctx.rng_view() == old(ctx).rng_view(),
            forall|g: usize| #[trigger] ctx.door_direction_view(g) == old(ctx).door_direction_view(g),
        decreases s0.len() - secnum,
    {
        let ghost prev = secnum;
        proof {
            lemma_occupied_geometry(s0, ctx.sectors_view(), tag, prev as int);
            lemma_find_same_geometry(s0, ctx.sectors_view(), tag, prev + 1);
            lemma_find_tagged_from(s0, tag, prev + 1);
        }
        secnum = p_find_sector_from_line_tag(&ctx.lines()[line_idx], secnum, ctx.sectors());
        if secnum < 0 {
            proof {
                lemma_tagged_spawns_skip(s0, tag, prev + 1, s0.len() as int, r0, f);
                assert(base + all =~= ctx.events());
                assert(rtn == any_free_tagged(s0, tag, 0)) by {
                    if any_free_tagged(s0, tag, 0) {
                        let j = choose|j: int| 0 <= j < s0.len() && free_tagged(#[trigger] s0[j], tag);
                        if j > prev {
                            assert(s0[j].tag != tag);
                        }
                    }
                }
                let cur = ctx.sectors_view();
                assert forall|j: int| 0 <= j < s0.len() implies #[trigger] cur[j] == if j <= s0.len() && free_tagged(s0[j], tag) {
                    Sector { specialdata: cur[j].specialdata, ..s0[j] }
                } else {
                    s0[j]
                } by {
                    if j > prev {
                        assert(s0[j].tag != tag);
                        assert(cur[j] == s0[j]);
                    }
                }
                assert forall|j: int| 0 <= j <= s0.len() && 0 <= j < s0.len() && free_tagged(s0[j], tag) implies (#[trigger] cur[j]).specialdata is Some by {
                    if j > prev {
                        assert(s0[j].tag != tag);
                    }
                }
            }
            break;
        }
        let sec_idx = secnum as usize;
        proof {
            lemma_tagged_spawns_skip(s0, tag, prev + 1, secnum as int, r0, f);
            assert(ctx.sectors_view()[sec_idx as int] == s0[sec_idx as int]);
        }
        if ctx.sectors()[sec_idx].specialdata.is_some() {
            proof {
                let cur = ctx.sectors_view();
                assert forall|j: int| 0 <= j < s0.len() implies #[trigger] cur[j] == if j <= secnum && free_tagged(s0[j], tag) {
                    Sector { specialdata: cur[j].specialdata, ..s0[j] }
                } else {
                    s0[j]
                } by {
                    if j > prev && j < secnum {
                        assert(s0[j].tag != tag);
                    }
                }
                assert(rtn == exists|j: int| 0 <= j <= secnum && free_tagged(#[trigger] s0[j], tag)) by {
                    if exists|j: int| 0 <= j <= secnum && free_tagged(#[trigger] s0[j], tag) {
                        let j = choose|j: int| 0 <= j <= secnum && free_tagged(#[trigger] s0[j], tag);
                        if j > prev && j < secnum {
                            assert(s0[j].tag != tag);
                        }
                    }
                }
            }
            continue;
        }
        rtn = true;
        let ghost before = ctx.sectors_view();
        proof {
            let fh = s0[sec_idx as int].floorheight.0 as int;
            let n = s0[sec_idx as int].lines@.len() as int;
            lemma_wf_same_geometry(s0, before, l0);
            lemma_steps_same_geometry(s0, before, fh);
            lemma_fold_same_geometry(s0, before, l0, sec_idx as int, i32::MAX as int, n, step_lowest_ceiling());
            lemma_fold_same_geometry(s0, before, l0, sec_idx as int, -500 * FRACUNIT, n, step_highest_floor());
            lemma_fold_same_geometry(s0, before, l0, sec_idx as int, fh, n, step_lowest_floor());
            lemma_fold_same_geometry(s0, before, l0, sec_idx as int, i32::MAX as int + 1, n, step_next_floor(fh));
            assert(0 <= sec_idx < s0.len() && s0[sec_idx as int].tag == tag);
            assert(i32::MIN <= floor_dest(floor_type, s0, l0, sd0, sec_idx as int) <= i32::MAX);
        }
        let sector = &ctx.sectors()[sec_idx];
        let fh = sector.floorheight;
        let mut floor = FloorMoveT::new(sec_idx);
        floor.floor_type = floor_type;
        match floor_type {
            FloorType::LowerFloor => {
                floor.direction = -1;
                floor.speed = Fixed(FLOORSPEED);
                floor.floordestheight = p_find_highest_floor_surrounding(sec_idx, ctx.sectors(), ctx.lines());
            },
            FloorType::LowerFloorToLowest => {
                floor.direction = -1;
                floor.speed = Fixed(FLOORSPEED);
                floor.floordestheight = p_find_lowest_floor_surrounding(sec_idx, ctx.sectors(), ctx.lines());
            },
            FloorType::TurboLower => {
                floor.direction = -1;
                floor.speed = Fixed(TURBO_FLOOR_SPEED);
                let high = p_find_highest_floor_surrounding(sec_idx, ctx.sectors(), ctx.lines());
                floor.floordestheight = if high.0 != fh.0 { Fixed(high.0 + 8 * FRACUNIT) } else { high };
            },
            FloorType::RaiseFloorCrush | FloorType::RaiseFloor => {
                floor.direction = 1;
                floor.speed = Fixed(FLOORSPEED);
                floor.crush = floor_type == FloorType::RaiseFloorCrush;
                let mut dest = p_find_lowest_ceiling_surrounding(sec_idx, ctx.sectors(), ctx.lines());
                if dest.0 > sector.ceilingheight.0 {
                    dest = sector.ceilingheight;
                }
                if floor_type == FloorType::RaiseFloorCrush {
                    dest = Fixed(dest.0 - 8 * FRACUNIT);
                }
                floor.floordestheight = dest;
            },
            FloorType::RaiseFloorTurbo => {
                floor.direction = 1;
                floor.speed = Fixed(TURBO_FLOOR_SPEED);
                floor.floordestheight = p_find_next_highest_floor(sec_idx, fh, ctx.sectors(), ctx.lines());
            },
            FloorType::RaiseFloorToNearest => {
                floor.direction = 1;
                floor.speed = Fixed(FLOORSPEED);
                floor.floordestheight = p_find_next_highest_floor(sec_idx, fh, ctx.sectors(), ctx.lines());
            },
            FloorType::RaiseFloor24 => {
                floor.direction = 1;
                floor.speed = Fixed(FLOORSPEED);
                floor.floordestheight = Fixed(fh.0 + 24 * FRACUNIT);
            },
            FloorType::RaiseFloor512 => {
                floor.direction = 1;
                floor.speed = Fixed(FLOORSPEED);
                floor.floordestheight = Fixed(fh.0 + 512 * FRACUNIT);
            },
            FloorType::RaiseFloor24AndChange => {
                floor.direction = 1;
                floor.speed = Fixed(FLOORSPEED);
                floor.floordestheight = Fixed(fh.0 + 24 * FRACUNIT);
                let side_idx = ctx.lines()[line_idx].sidenum[0] as usize;
                let front_sec_idx = ctx.sides()[side_idx].sector;
                proof {
                    assert(ctx.sectors_view()[front_sec_idx as int].floorpic == s0[front_sec_idx as int].floorpic);
                }
                floor.newtexture = ctx.sectors()[front_sec_idx].floorpic;
                floor.newsecspecial = sector.special as i32;
            },
            FloorType::RaiseToTexture => {
                floor.direction = 1;
                floor.speed = Fixed(FLOORSPEED);
                let min_size = find_texture_raise(&sector.lines, ctx.lines(), ctx.sides());
                floor.floordestheight = Fixed(fh.0 + min_size);
            },
            FloorType::LowerAndChange => {
                floor.direction = -1;
                floor.speed = Fixed(FLOORSPEED);
                floor.floordestheight = p_find_lowest_floor_surrounding(sec_idx, ctx.sectors(), ctx.lines());
                floor.newtexture = sector.floorpic;
                proof {
                    lemma_change_source_in_level(s0, l0, s0[sec_idx as int].lines@, sec_idx, 0);
                }
                if let Some(other) = find_change_source(sec_idx, &sector.lines, ctx.lines()) {
                    proof {
                        assert(ctx.sectors_view()[other as int] == (Sector { specialdata: ctx.sectors_view()[other as int].specialdata, ..s0[other as int] }));
                    }
                    floor.newtexture = ctx.sectors()[other].floorpic;
                    floor.newsecspecial = ctx.sectors()[other].special as i32;
                }
            },
            FloorType::DonutRaise => {
                floor.direction = 1;
                floor.speed = Fixed(DONUT_FLOOR_SPEED);
                floor.floordestheight = p_find_next_highest_floor(sec_idx, fh, ctx.sectors(), ctx.lines());
            },
        }
        assert(floor == new_floor(floor_type, s0, l0, sd0, line_idx as int, sec_idx as int));
        let ghost ev_before = ctx.events();
        ctx.p_add_thinker_floor(floor);
        proof {
            assert(free_tagged(s0[secnum as int], tag));
            assert(f(secnum as int, r0) == (seq![SpecEvent::AddFloor(floor)], r0));
            assert(tagged_spawns(s0, tag, secnum as int, r0, f).0 == seq![SpecEvent::AddFloor(floor)] + tagged_spawns(s0, tag, secnum + 1, r0, f).0);
            assert(ctx.events() == ev_before.push(SpecEvent::AddFloor(floor)));
            let cur = ctx.sectors_view();
            assert forall|j: int| 0 <= j < s0.len() implies #[trigger] cur[j] == if j <= secnum && free_tagged(s0[j], tag) {
                Sector { specialdata: cur[j].specialdata, ..s0[j] }
            } else {
                s0[j]
            } by {
                if j > prev && j < secnum {
                    assert(s0[j].tag != tag);
                }
                if j != secnum {
                    assert(cur[j] == before[j]);
                }
            }
            assert forall|j: int| 0 <= j <= secnum && 0 <= j < s0.len() && free_tagged(s0[j], tag) implies (#[trigger] cur[j]).specialdata is Some by {
                if j > prev && j < secnum {
                    assert(s0[j].tag != tag);
                }
                if j != secnum {
                    assert(cur[j] == before[j]);
                }
            }
            assert(base + all =~= ctx.events() + tagged_spawns(s0, tag, secnum + 1, r0, f).0);
        }
    }
    rtn
}

/// Each step of a staircase is this much higher than the one before: 8
/// units, or 16 for turbo stairs.
pub open spec fn stair_size(st: StairType) -> int {
    match st {
        StairType::Build8 => 8 * FRACUNIT,
        StairType::Turbo16 => 16 * FRACUNIT,
    }
}

/// The speed of a staircase's steps: a quarter of [`FLOORSPEED`], or four
/// times it for turbo stairs.
pub open spec fn stair_speed(st: StairType) -> i32 {
    match st {
        StairType::Build8 => 16384,
        StairType::Turbo16 => 262144,
    }
}

/// The sector a staircase climbing from sector `cur` can continue into
/// across the two-sided line `li`, when `li` borders `cur`.
pub open spec fn stair_neighbor(li: LineDef, cur: usize) -> Option<usize> {
    if !two_sided(li) {
        None
    } else if li.frontsector == Some(cur) {
        li.backsector
    } else if li.backsector == Some(cur) {
        li.frontsector
    } else {
        None
    }
}

/// The next step of a staircase climbing from sector `cur`: across the
/// first of its lines, from the `k`-th on, a sector with the staircase's
/// floor picture `texture` that is still free.
pub open spec fn next_stair(sectors: Seq<Sector>, lines: Seq<LineDef>, free: Set<int>, cur: usize, texture: i16, k: int) -> Option<usize>
    decreases sectors[cur as int].lines@.len() - k,
{
    if k < 0 || k >= sectors[cur as int].lines@.len() {
        None
    } else {
        match stair_neighbor(lines[sectors[cur as int].lines@[k] as int], cur) {
            Some(o) => if sectors[o as int].floorpic == texture && free.contains(o as int) {
                Some(o)
            } else {
                next_stair(sectors, lines, free, cur, texture, k + 1)
            },
            None => next_stair(sectors, lines, free, cur, texture, k + 1),
        }
    }
}

/// The floor mover raising step sector `sec` to `height`.
pub open spec fn stair_floor(sec: usize, height: int, speed: i32) -> FloorMoveT {
    FloorMoveT {
        direction: 1,
        floor_type: FloorType::RaiseFloor,
        speed: Fixed(speed),
        floordestheight: Fixed(height as i32),
        ..FloorMoveT::blank(sec)
    }
}

/// The rest of a staircase climbing from sector `cur`, whose step rises to
/// `height`, while the sectors in `free` are free: the requests, the
/// sectors still free afterwards, and whether every step height fits.
pub open spec fn stair_run(
    sectors: Seq<Sector>,
    lines: Seq<LineDef>,
    free: Set<int>,
    cur: usize,
    texture: i16,
    height: int,
    size: int,
    speed: i32,
) -> (Seq<SpecEvent>, Set<int>, bool)
    decreases free.len(),
{
    if !free.finite() {
        (seq![], free, true)
    } else {
        match next_stair(sectors, lines, free, cur, texture, 0) {
            Some(o) => if free.contains(o as int) {
                let h = height + size;
                let next = stair_run(sectors, lines, free.remove(o as int), o, texture, h, size, speed);
                (seq![SpecEvent::AddFloor(stair_floor(o, h, speed))] + next.0, next.1, next.2 && h <= i32::MAX)
            } else {
                (seq![], free, true)
            },
            None => (seq![], free, true),
        }
    }
}

/// The staircases started from the sectors from index `from` on while the
/// sectors in `free` are free: every sector tagged `tag` still free when
/// its turn comes rises one step and starts a [`stair_run`] over sectors
/// with its floor picture. Gives the requests, the sectors still free
/// afterwards, and whether every step height fits.
pub open spec fn stairs_from(
    sectors: Seq<Sector>,
    lines: Seq<LineDef>,
    tag: i16,
    free: Set<int>,
    from: int,
    size: int,
    speed: i32,
) -> (Seq<SpecEvent>, Set<int>, bool)
    decreases sectors.len() - from,
{
    if from < 0 || from >= sectors.len() {
        (seq![], free, true)
    } else if sectors[from].tag == tag && free.contains(from) {
        let h = sectors[from].floorheight.0 + size;
        let run = stair_run(sectors, lines, free.remove(from), from as usize, sectors[from].floorpic, h, size, speed);
        let rest = stairs_from(sectors, lines, tag, run.1, from + 1, size, speed);
        (seq![SpecEvent::AddFloor(stair_floor(from as usize, h, speed))] + run.0 + rest.0, rest.1, run.2 && rest.2 && h <= i32::MAX)
    } else {
        stairs_from(sectors, lines, tag, free, from + 1, size, speed)
    }
}

/// The sectors no mover occupies.
pub open spec fn initially_free(sectors: Seq<Sector>) -> Set<int> {
    set_int_range(0, sectors.len() as int).filter(|j: int| sectors[j].specialdata is None)
}

/// `EV_BuildStairs` on a line tagged `tag` in a level with sectors
/// `sectors`: [`stairs_from`] over all sectors, starting with the free ones.
pub open spec fn staircase(sectors: Seq<Sector>, lines: Seq<LineDef>, tag: i16, st: StairType) -> (Seq<SpecEvent>, Set<int>, bool) {
    stairs_from(sectors, lines, tag, initially_free(sectors), 0, stair_size(st), stair_speed(st))
}

/// `cur` is `s0` with movers in exactly the sectors outside `free`.
pub open spec fn stairs_state(s0: Seq<Sector>, cur: Seq<Sector>, free: Set<int>) -> bool {
    &&& cur.len() == s0.len()
    &&& free.finite()
    &&& forall|j: int| free.contains(j) ==> 0 <= j < s0.len()
    &&& forall|j: int| 0 <= j < s0.len() ==> #[trigger] cur[j] == (Sector { specialdata: cur[j].specialdata, ..s0[j] })
    &&& forall|j: int| 0 <= j < s0.len() ==> (free.contains(j) <==> (#[trigger] cur[j]).specialdata is None)
}

/// Untagged sectors start no staircase.
pub proof fn lemma_stairs_skip(
    sectors: Seq<Sector>,
    lines: Seq<LineDef>,
    tag: i16,
    free: Set<int>,
    from: int,
    to: int,
    size: int,
    speed: i32,
)
    requires
        0 <= from <= to <= sectors.len(),
        forall|j: int| from <= j < to ==> sectors[j].tag != tag,
    ensures
        stairs_from(sectors, lines, tag, free, from, size, speed) == stairs_from(sectors, lines, tag, free, to, size, speed),
    decreases to - from,
{
    if from < to {
        lemma_stairs_skip(sectors, lines, tag, free, from + 1, to, size, speed);
    }
}

/// [`next_stair`] from sector `cur`, read off the current sectors.
fn find_stair_step(
    sectors: &[Sector],
    lines: &[LineDef],
    cur: usize,
    texture: i16,
    Ghost(s0): Ghost<Seq<Sector>>,
    Ghost(free): Ghost<Set<int>>,
) -> (r: Option<usize>)
    requires
        level_wf(s0, lines@),
        cur < s0.len(),
        stairs_state(s0, sectors@, free),
    ensures
        r == next_stair(s0, lines@, free, cur, texture, 0),
        r matches Some(o) ==> o < s0.len() && free.contains(o as int),
{
    assert(sectors@[cur as int] == (Sector { specialdata: sectors@[cur as int].specialdata, ..s0[cur as int] }));
    let n = sectors[cur].lines.len();
    let mut k: usize = 0;
    while k < n
        invariant
            level_wf(s0, lines@),
            cur < s0.len(),
            stairs_state(s0, sectors@, free),
            n == s0[cur as int].lines@.len(),
            sectors@[cur as int].lines@ == s0[cur as int].lines@,
            0 <= k <= n,
            next_stair(s0, lines@, free, cur, texture, 0) == next_stair(s0, lines@, free, cur, texture, k as int),
        decreases n - k,
    {
        let l = sectors[cur].lines[k];
        assert(l < lines@.len());
        let li = &lines[l];
        if (li.flags & ML_TWOSIDED) != 0 {
            let other = if li.frontsector == Some(cur) {
                li.backsector
            } else if li.backsector == Some(cur) {
                li.frontsector
            } else {
                None
            };
            if let Some(o) = other {
                assert(o < s0.len());
                assert(sectors@[o as int] == (Sector { specialdata: sectors@[o as int].specialdata, ..s0[o as int] }));
                if sectors[o].floorpic == texture && sectors[o].specialdata.is_none() {
                    return Some(o);
                }
            }
        }
        k = k + 1;
    }
    None
}

/// What `EV_BuildStairs` on line `line_idx` does, going from `pre` to
/// `post` and returning `rtn`: see [`ev_build_stairs`].
pub open spec fn stairs_done<C: SpecContext>(pre: C, post: C, line_idx: usize, st: StairType, rtn: bool) -> bool {
    let tag = pre.lines_view()[line_idx as int].tag;
    let s0 = pre.sectors_view();
    let built = staircase(s0, pre.lines_view(), tag, st);
    &&& post.events() == pre.events() + built.0
    &&& rtn == any_free_tagged(s0, tag, 0)
    &&& stairs_state(s0, post.sectors_view(), built.1)
    &&& post.lines_view() == pre.lines_view()
    &&& keeps_level(pre, post)
}

/// `EV_BuildStairs`: every sector tagged like the line that is free when
/// its turn comes, in order, rises one step ([`stair_size`] above its
/// floor, at [`stair_speed`]); then the staircase climbs, step by step,
/// into the first free neighbour with the same floor picture, each step
/// one [`stair_size`] higher ([`staircase`] states the whole). Every step
/// is a registered floor mover occupying its sector. Returns whether any
/// staircase was started.
pub fn ev_build_stairs<C: SpecContext>(line_idx: usize, stair_type: StairType, ctx: &mut C) -> (rtn: bool)
    requires
        line_idx < old(ctx).lines_view().len(),
        level_wf(old(ctx).sectors_view(), old(ctx).lines_view()),
        old(ctx).sectors_view().len() < i32::MAX,
        staircase(old(ctx).sectors_view(), old(ctx).lines_view(), old(ctx).lines_view()[line_idx as int].tag, stair_type).2,
    ensures
        stairs_done(*old(ctx), *final(ctx), line_idx, stair_type, rtn),
{
    let tag = ctx.lines()[line_idx].tag;
    let (speed, size): (i32, i32) = match stair_type {
        StairType::Build8 => (FLOORSPEED / 4, 8 * FRACUNIT),
        StairType::Turbo16 => (FLOORSPEED * 4, 16 * FRACUNIT),
    };
    let ghost s0 = ctx.sectors_view();
    let ghost l0 = ctx.lines_view();
    let ghost total = staircase(s0, l0, tag, stair_type);
    let ghost base = ctx.events();
    let ghost free0 = initially_free(s0);
    let ghost mut free = free0;
    proof {
        lemma_int_range(0, s0.len() as int);
        assert(free0.finite());
        assert forall|j: int| free0.contains(j) <==> 0 <= j < s0.len() && s0[j].specialdata is None by {}
        assert forall|j: int| 0 <= j < s0.len() implies (free.contains(j) <==> (#[trigger] ctx.sectors_view()[j]).specialdata is None) by {}
    }
    let mut rtn = false;
    let mut secnum: i32 = -1;
    loop
        invariant_except_break
            -1 <= secnum < s0.len(),
            s0.len() < i32::MAX,
            line_idx < l0.len(),
            tag == l0[line_idx as int].tag,
            level_wf(s0, l0),
            speed == stair_speed(stair_type),
            size == stair_size(stair_type),
            total == stairs_from(s0, l0, tag, free0, 0, size as int, speed),
            free0 == initially_free(s0),
            ctx.lines_view() == l0,
            ctx.sides_view() == old(ctx).sides_view(),
            ctx.mobj_players_view() == old(ctx).mobj_players_view(),
            ctx.player_cards_view() == old(ctx).player_cards_view(),
            ctx.rng_view() == old(ctx).rng_view(),
            forall|g: usize| #[trigger] ctx.door_direction_view(g) == old(ctx).door_direction_view(g),
            stairs_state(s0, ctx.sectors_view(), free),
            forall|j: int| free.contains(j) ==> free0.contains(j),
            forall|j: int| free0.contains(j) <==> 0 <= j < s0.len() && s0[j].specialdata is None,
            base + total.0 == ctx.events() + stairs_from(s0, l0, tag, free, secnum + 1, size as int, speed).0,
            total.1 == stairs_from(s0, l0, tag, free, secnum + 1, size as int, speed).1,
            stairs_from(s0, l0, tag, free, secnum + 1, size as int, speed).2,
            rtn ==> any_free_tagged(s0, tag, 0),
            (exists|j: int| 0 <= j <= secnum && free_tagged(#[trigger] s0[j], tag)) ==> rtn,
            rtn || free == free0,
        ensures
            base + total.0 == ctx.events(),
            rtn == any_free_tagged(s0, tag, 0),
            stairs_state(s0, ctx.sectors_view(), total.1),
            ctx.lines_view() == l0,
            ctx.sides_view() == old(ctx).sides_view(),
            ctx.mobj_players_view() == old(ctx).mobj_players_view(),
            ctx.player_cards_view() == old(ctx).player_cards_view(),
            ctx.rng_view() == old(ctx).rng_view(),
            forall|g: usize| #[trigger] ctx.door_direction_view(g) == old(ctx).door_direction_view(g),
        decreases s0.len() - secnum,
    {
        let ghost prev = secnum;
        proof {
            let cur = ctx.sectors_view();
            assert forall|i: int| 0 <= i < s0.len() implies {
                &&& #[trigger] s0[i].lines@ == cur[i].lines@
                &&& s0[i].floorheight == cur[i].floorheight
                &&& s0[i].ceilingheight == cur[i].ceilingheight
                &&& s0[i].lightlevel == cur[i].lightlevel
                &&& s0[i].tag == cur[i].tag
            } by {
                assert(cur[i] == (Sector { specialdata: cur[i].specialdata, ..s0[i] }));
            }
            lemma_find_same_geometry(s0, cur, tag, prev + 1);
            lemma_find_tagged_from(s0, tag, prev + 1);
        }
        secnum = p_find_sector_from_line_tag(&ctx.lines()[line_idx], secnum, ctx.sectors());
        if secnum < 0 {
            proof {
                lemma_stairs_skip(s0, l0, tag, free, prev + 1, s0.len() as int, size as int, speed);
                assert(base + total.0 =~= ctx.events());
                assert(rtn == any_free_tagged(s0, tag, 0)) by {
                    if any_free_tagged(s0, tag, 0) {
                        let j = choose|j: int| 0 <= j < s0.len() && free_tagged(#[trigger] s0[j], tag);
                        if j > prev {
                            assert(s0[j].tag != tag);
                        }
                    }
                }
            }
            break;
        }
        let sec_idx = secnum as usize;
        proof {
            lemma_stairs_skip(s0, l0, tag, free, prev + 1, secnum as int, size as int, speed);
            assert(ctx.sectors_view()[sec_idx as int] == (Sector { specialdata: ctx.sectors_view()[sec_idx as int].specialdata, ..s0[sec_idx as int] }));
        }
        if ctx.sectors()[sec_idx].specialdata.is_some() {
            proof {
                assert(!free.contains(secnum as int));
                assert(free_tagged(s0[secnum as int], tag) ==> rtn) by {
                    if s0[secnum as int].specialdata is None {
                        assert(free0.contains(secnum as int));
                    }
                }
                assert((exists|j: int| 0 <= j <= secnum && free_tagged(#[trigger] s0[j], tag)) ==> rtn);
            }
            continue;
        }
        proof {
            assert(free.contains(secnum as int));
            assert(free0.contains(secnum as int));
            assert(free_tagged(s0[secnum as int], tag));
        }
        rtn = true;
        let ghost run0 = stair_run(s0, l0, free.remove(secnum as int), sec_idx, s0[secnum as int].floorpic, s0[secnum as int].floorheight.0 + size, size as int, speed);
        let fh = ctx.sectors()[sec_idx].floorheight;
        let mut height: i32 = fh.0 + size;
        let mut floor = FloorMoveT::new(sec_idx);
        floor.direction = 1;
        floor.floor_type = FloorType::RaiseFloor;
        floor.speed = Fixed(speed);
        floor.floordestheight = Fixed(height);
        let texture = ctx.sectors()[sec_idx].floorpic;
        let ghost before = ctx.sectors_view();
        let ghost ev_before = ctx.events();
        ctx.p_add_thinker_floor(floor);
        proof {
            assert(floor == stair_floor(sec_idx, height as int, speed));
            free = free.remove(secnum as int);
            let cur = ctx.sectors_view();
            assert forall|j: int| 0 <= j < s0.len() implies #[trigger] cur[j] == (Sector { specialdata: cur[j].specialdata, ..s0[j] }) by {
                if j != secnum {
                    assert(cur[j] == before[j]);
                }
            }
            assert forall|j: int| 0 <= j < s0.len() implies (free.contains(j) <==> (#[trigger] cur[j]).specialdata is None) by {
                if j != secnum {
                    assert(cur[j] == before[j]);
                }
            }
            assert(base + total.0 =~= ctx.events() + run0.0 + stairs_from(s0, l0, tag, run0.1, secnum + 1, size as int, speed).0);
        }
        let mut cur_sec = sec_idx;
        loop
            invariant_except_break
                0 <= secnum < s0.len(),
                s0.len() < i32::MAX,
                line_idx < l0.len(),
                tag == l0[line_idx as int].tag,
                level_wf(s0, l0),
                speed == stair_speed(stair_type),
                size == stair_size(stair_type),
                total == stairs_from(s0, l0, tag, free0, 0, size as int, speed),
                free0 == initially_free(s0),
                ctx.lines_view() == l0,
                ctx.sides_view() == old(ctx).sides_view(),
                ctx.mobj_players_view() == old(ctx).mobj_players_view(),
                ctx.player_cards_view() == old(ctx).player_cards_view(),
                ctx.rng_view() == old(ctx).rng_view(),
                forall|g: usize| #[trigger] ctx.door_direction_view(g) == old(ctx).door_direction_view(g),
                stairs_state(s0, ctx.sectors_view(), free),
                forall|j: int| free.contains(j) ==> free0.contains(j),
                forall|j: int| free0.contains(j) <==> 0 <= j < s0.len() && s0[j].specialdata is None,
                cur_sec < s0.len(),
                height >= fh.0,
                ({
                    let run = stair_run(s0, l0, free, cur_sec, texture, height as int, size as int, speed);
                    let rest = stairs_from(s0, l0, tag, run.1, secnum + 1, size as int, speed);
                    &&& base + total.0 == ctx.events() + run.0 + rest.0
                    &&& total.1 == rest.1
                    &&& run.2 && rest.2
                }),
                rtn,
                any_free_tagged(s0, tag, 0),
            ensures
                forall|j: int| free.contains(j) ==> free0.contains(j),
                base + total.0 == ctx.events() + stairs_from(s0, l0, tag, free, secnum + 1, size as int, speed).0,
                total.1 == stairs_from(s0, l0, tag, free, secnum + 1, size as int, speed).1,
                stairs_from(s0, l0, tag, free, secnum + 1, size as int, speed).2,
                stairs_state(s0, ctx.sectors_view(), free),
                ctx.lines_view() == l0,
                ctx.sides_view() == old(ctx).sides_view(),
                ctx.mobj_players_view() == old(ctx).mobj_players_view(),
                ctx.player_cards_view() == old(ctx).player_cards_view(),
                ctx.rng_view() == old(ctx).rng_view(),
                forall|g: usize| #[trigger] ctx.door_direction_view(g) == old(ctx).door_direction_view(g),
            decreases free.len(),
        {
            let next = find_stair_step(ctx.sectors(), ctx.lines(), cur_sec, texture, Ghost(s0), Ghost(free));
            match next {
                None => {
                    proof {
                        assert(base + total.0 =~= ctx.events() + stairs_from(s0, l0, tag, free, secnum + 1, size as int, speed).0);
                    }
                    break;
                },
                Some(o) => {
                    let ghost run = stair_run(s0, l0, free, cur_sec, texture, height as int, size as int, speed);
                    let ghost next_run = stair_run(s0, l0, free.remove(o as int), o, texture, height + size, size as int, speed);
                    assert(run == (seq![SpecEvent::AddFloor(stair_floor(o, height + size, speed))] + next_run.0, next_run.1, next_run.2 && height + size <= i32::MAX));
                    height = height + size;
                    let mut step = FloorMoveT::new(o);
                    step.direction = 1;
                    step.floor_type = FloorType::RaiseFloor;
                    step.speed = Fixed(speed);
                    step.floordestheight = Fixed(height);
                    let ghost before = ctx.sectors_view();
                    let ghost ev_before = ctx.events();
                    ctx.p_add_thinker_floor(step);
                    proof {
                        assert(step == stair_floor(o, height as int, speed));
                        free = free.remove(o as int);
                        let cur = ctx.sectors_view();
                        assert forall|j: int| 0 <= j < s0.len() implies #[trigger] cur[j] == (Sector { specialdata: cur[j].specialdata, ..s0[j] }) by {
                            if j != o {
                                assert(cur[j] == before[j]);
                            }
                        }
                        assert forall|j: int| 0 <= j < s0.len() implies (free.contains(j) <==> (#[trigger] cur[j]).specialdata is None) by {
                            if j != o {
                                assert(cur[j] == before[j]);
                            }
                        }
                        assert(base + total.0 =~= ctx.events() + next_run.0 + stairs_from(s0, l0, tag, next_run.1, secnum + 1, size as int, speed).0);
                    }
                    cur_sec = o;
                },
            }
        }
        proof {
            assert((exists|j: int| 0 <= j <= secnum && free_tagged(#[trigger] s0[j], tag)) ==> rtn);
        }
    }
    rtn
}

/// The sector across line `k` of sector `j`'s lines, if that line has two
/// sides.
pub open spec fn neighbour_at(sectors: Seq<Sector>, lines: Seq<LineDef>, j: int, k: int) -> Option<usize> {
    next_sector(lines[sectors[j].lines@[k] as int], j as usize)
}

/// Keeping the highest floor over the first `n` neighbours of sector `j`,
/// from -500 units, gives at least -500 units, no neighbour's floor is
/// higher, and the result is -500 units or some neighbour's floor.
proof fn lemma_highest_neighbour_floor(sectors: Seq<Sector>, lines: Seq<LineDef>, j: int, n: int)
    requires
        0 <= n,
    ensures
        ({
            let v = fold_neighbors(sectors, lines, j, -500 * FRACUNIT, n, step_highest_floor());
            &&& v >= -500 * FRACUNIT
            &&& forall|k: int| 0 <= k < n ==> (#[trigger] neighbour_at(sectors, lines, j, k) matches Some(o)
                ==> sectors[o as int].floorheight.0 <= v)
            &&& v == -500 * FRACUNIT || exists|k: int| 0 <= k < n && (#[trigger] neighbour_at(sectors, lines, j, k) matches Some(o)
                && sectors[o as int].floorheight.0 == v)
        }),
    decreases n,
{
    if n > 0 {
        lemma_highest_neighbour_floor(sectors, lines, j, n - 1);
        let prev = fold_neighbors(sectors, lines, j, -500 * FRACUNIT, n - 1, step_highest_floor());
        let v = fold_neighbors(sectors, lines, j, -500 * FRACUNIT, n, step_highest_floor());
        let nb = neighbour_at(sectors, lines, j, n - 1);
        if v != prev && v != -500 * FRACUNIT {
            assert(nb matches Some(o) && sectors[o as int].floorheight.0 == v);
        } else if v != -500 * FRACUNIT {
            let k0 = choose|k: int| 0 <= k < n - 1 && (#[trigger] neighbour_at(sectors, lines, j, k) matches Some(o)
                && sectors[o as int].floorheight.0 == prev);
            assert(0 <= k0 < n && (neighbour_at(sectors, lines, j, k0) matches Some(o) && sectors[o as int].floorheight.0 == v));
        }
    }
}

/// `EV_DoFloor` with a plain lower floor lowers sector `j` to the highest
/// floor around it: no neighbouring floor is above the destination, which
/// is some neighbour's floor, or -500 units when every neighbour is lower
/// (or there is none).
pub proof fn law_lower_floor_goes_to_highest_neighbour(
    sectors: Seq<Sector>,
    lines: Seq<LineDef>,
    sides: Seq<SideDef>,
    line: int,
    j: int,
)
    requires
        0 <= j < sectors.len(),
    ensures
        ({
            let f = new_floor(FloorType::LowerFloor, sectors, lines, sides, line, j);
            let dest = f.floordestheight.0;
            let n = sectors[j].lines@.len() as int;
            &&& f.direction == -1
            &&& dest >= -500 * FRACUNIT
            &&& forall|k: int| 0 <= k < n ==> (#[trigger] neighbour_at(sectors, lines, j, k) matches Some(o)
                ==> sectors[o as int].floorheight.0 <= dest)
            &&& dest == -500 * FRACUNIT || exists|k: int| 0 <= k < n && (#[trigger] neighbour_at(sectors, lines, j, k) matches Some(o)
                && sectors[o as int].floorheight.0 == dest)
        }),
{
    let n = sectors[j].lines@.len() as int;
    lemma_highest_neighbour_floor(sectors, lines, j, n);
    let v = highest_floor_surrounding(sectors, lines, j);
    assert(v <= i32::MAX);
    assert((v as i32) as int == v);
}

} // verus!
