//! Vertical doors: the door thinker, triggered doors, locked doors and
//! doors spawned by sector specials.

use vstd::prelude::*;
use crate::fixed::{Fixed, FRACUNIT};
use crate::floor::{plane_answer, change_callable, plane_height, plane_move_fits, plane_step, sound_callable, t_move_plane, with_plane};
use crate::ceilng::{play_sounds, played};
use crate::spec::{
    any_free_tagged, free_tagged, lemma_find_same_geometry, lemma_find_tagged_from, lemma_fold_same_geometry,
    lemma_occupied_geometry, lemma_steps_same_geometry, lemma_tagged_spawns_skip, lemma_wf_same_geometry, level_wf,
    lowest_ceiling_surrounding, occupied_upto, p_find_lowest_ceiling_surrounding, p_find_sector_from_line_tag,
    step_lowest_ceiling, tagged_spawns, keeps_level, keeps_level_adding_doors, untouched, ResultE, SpecContext, SpecEvent, VldoorT, VldoorType, VDOORSPEED, VDOORWAIT,
};
use crate::random::DoomRandom;
use crate::types::{
    ActionFn, LineDef, SfxEnum, Sector, Thinker, IT_BLUECARD, IT_BLUESKULL, IT_REDCARD, IT_REDSKULL, IT_YELLOWCARD,
    IT_YELLOWSKULL,
};

verus! {

/// What a door mover does this tic, given the result `res` of its ceiling
/// move (ignored unless the door is opening or closing): the updated mover,
/// whether it is finished, and the sounds it makes.
///
/// Waiting at the top (0), the countdown runs; at zero a raising door starts
/// closing and a close-then-open door starts opening. In the initial wait
/// (2), a raise-in-5-minutes door becomes a normal door and opens at zero.
/// Closing (-1): at the floor blazing doors finish with a slam, normal and
/// close doors finish, a close-then-open door waits 30 seconds; when
/// blocked, any door but the close kinds reopens. Opening (1): at the top a
/// raising door waits `topwait` tics, the stay-open kinds finish.
pub open spec fn door_reaction(d: VldoorT, res: ResultE) -> (VldoorT, bool, Seq<SfxEnum>) {
    if d.direction == 0 {
        let d1 = VldoorT { topcountdown: (d.topcountdown - 1) as i32, ..d };
        if d1.topcountdown <= 0 {
            match d.door_type {
                VldoorType::BlazeRaise => (VldoorT { direction: -1i32, ..d1 }, false, seq![SfxEnum::sfx_bdcls]),
                VldoorType::Normal => (VldoorT { direction: -1i32, ..d1 }, false, seq![SfxEnum::sfx_dorcls]),
                VldoorType::Close30ThenOpen => (VldoorT { direction: 1, ..d1 }, false, seq![SfxEnum::sfx_doropn]),
                _ => (d1, false, seq![]),
            }
        } else {
            (d1, false, seq![])
        }
    } else if d.direction == 2 {
        let d1 = VldoorT { topcountdown: (d.topcountdown - 1) as i32, ..d };
        if d1.topcountdown <= 0 && d.door_type == VldoorType::RaiseIn5Mins {
            (VldoorT { direction: 1, door_type: VldoorType::Normal, ..d1 }, false, seq![SfxEnum::sfx_doropn])
        } else {
            (d1, false, seq![])
        }
    } else if d.direction == -1 {
        if res == ResultE::PastDest {
            match d.door_type {
                VldoorType::BlazeRaise | VldoorType::BlazeClose => (d, true, seq![SfxEnum::sfx_bdcls]),
                VldoorType::Normal | VldoorType::Close => (d, true, seq![]),
                VldoorType::Close30ThenOpen => (VldoorT { direction: 0, topcountdown: 1050i32, ..d }, false, seq![]),
                _ => (d, false, seq![]),
            }
        } else if res == ResultE::Crushed {
            match d.door_type {
                VldoorType::BlazeClose | VldoorType::Close => (d, false, seq![]),
                _ => (VldoorT { direction: 1, ..d }, false, seq![SfxEnum::sfx_doropn]),
            }
        } else {
            (d, false, seq![])
        }
    } else if d.direction == 1 {
        if res == ResultE::PastDest {
            match d.door_type {
                VldoorType::BlazeRaise | VldoorType::Normal => (VldoorT { direction: 0, topcountdown: d.topwait, ..d }, false, seq![]),
                VldoorType::Close30ThenOpen | VldoorType::BlazeOpen | VldoorType::Open => (d, true, seq![]),
                _ => (d, false, seq![]),
            }
        } else {
            (d, false, seq![])
        }
    } else {
        (d, false, seq![])
    }
}

/// The door's reaction to its move result (see [`door_reaction`]): the
/// updated mover, whether it is finished, and the sounds to play in order.
pub fn door_transition(door: &VldoorT, res: ResultE) -> (r: (VldoorT, bool, Vec<SfxEnum>))
    requires
        door.direction == 0 || door.direction == 2 ==> door.topcountdown > i32::MIN,
    ensures
        (r.0, r.1, r.2@) == door_reaction(*door, res),
{
    let mut d = *door;
    let mut sounds: Vec<SfxEnum> = Vec::new();
    let mut remove = false;
    if d.direction == 0 {
        d.topcountdown = d.topcountdown - 1;
        if d.topcountdown <= 0 {
            match d.door_type {
                VldoorType::BlazeRaise => {
                    d.direction = -1;
                    sounds.push(SfxEnum::sfx_bdcls);
                },
                VldoorType::Normal => {
                    d.direction = -1;
                    sounds.push(SfxEnum::sfx_dorcls);
                },
                VldoorType::Close30ThenOpen => {
                    d.direction = 1;
                    sounds.push(SfxEnum::sfx_doropn);
                },
                _ => {},
            }
        }
    } else if d.direction == 2 {
        d.topcountdown = d.topcountdown - 1;
        if d.topcountdown <= 0 && d.door_type == VldoorType::RaiseIn5Mins {
            d.direction = 1;
            d.door_type = VldoorType::Normal;
            sounds.push(SfxEnum::sfx_doropn);
        }
    } else if d.direction == -1 {
        if res == ResultE::PastDest {
            match d.door_type {
                VldoorType::BlazeRaise | VldoorType::BlazeClose => {
                    sounds.push(SfxEnum::sfx_bdcls);
                    remove = true;
                },
                VldoorType::Normal | VldoorType::Close => {
                    remove = true;
                },
                VldoorType::Close30ThenOpen => {
                    d.direction = 0;
                    d.topcountdown = 35 * 30;
                },
                _ => {},
            }
        } else if res == ResultE::Crushed {
            match d.door_type {
                VldoorType::BlazeClose | VldoorType::Close => {},
                _ => {
                    d.direction = 1;
                    sounds.push(SfxEnum::sfx_doropn);
                },
            }
        }
    } else if d.direction == 1 {
        if res == ResultE::PastDest {
            match d.door_type {
                VldoorType::BlazeRaise | VldoorType::Normal => {
                    d.direction = 0;
                    d.topcountdown = d.topwait;
                },
                VldoorType::Close30ThenOpen | VldoorType::BlazeOpen | VldoorType::Open => {
                    remove = true;
                },
                _ => {},
            }
        }
    }
    proof {
        assert(sounds@ =~= door_reaction(*door, res).2);
    }
    (d, remove, sounds)
}

/// Where a moving door's ceiling is headed: the floor when closing, the
/// door's top height when opening.
pub open spec fn door_dest(d: VldoorT, s: Sector) -> i32 {
    if d.direction == -1 {
        s.floorheight.0
    } else {
        d.topheight.0
    }
}

/// The sector after a finished door releases it.
pub open spec fn released(s: Sector, finished: bool) -> Sector {
    if finished {
        Sector { specialdata: None, ..s }
    } else {
        s
    }
}

/// `T_VerticalDoor`: one tic of a door mover. A waiting door counts down;
/// an opening or closing door moves the sector's ceiling (never crushing)
/// toward its destination (see [`t_move_plane`]); then the door reacts as
/// [`door_reaction`] states. A finished door frees its sector
/// (`specialdata` cleared) and the function returns `true`.
pub fn t_vertical_door<F: FnMut(bool) -> bool, G: FnMut(SfxEnum)>(
    door: &mut VldoorT,
    sector: &mut Sector,
    change_sector_fn: &mut F,
    sound_fn: &mut G,
) -> (remove: bool)
    requires
        change_callable::<F>(),
        sound_callable::<G>(),
        plane_move_fits(old(sector).ceilingheight.0 as int, old(door).speed.0 as int, old(door).direction),
        old(door).direction == 0 || old(door).direction == 2 ==> old(door).topcountdown > i32::MIN,
    ensures
        old(door).direction != 1 && old(door).direction != -1 ==> {
            &&& *final(door) == door_reaction(*old(door), ResultE::MoveOk).0
            &&& remove == door_reaction(*old(door), ResultE::MoveOk).1
            &&& *final(sector) == *old(sector)
            &&& exists|gs: Seq<G>| #[trigger] played(*old(sound_fn), gs, door_reaction(*old(door), ResultE::MoveOk).2)
        },
        old(door).direction == 1 || old(door).direction == -1 ==> exists|blocked: bool|
            {
                let (h, r) = #[trigger] plane_step(
                    old(sector).ceilingheight.0 as int,
                    old(door).speed.0 as int,
                    door_dest(*old(door), *old(sector)) as int,
                    false,
                    1,
                    old(door).direction,
                    blocked,
                );
                &&& *final(sector) == released(with_plane(*old(sector), 1, h), door_reaction(*old(door), r).1)
                &&& *final(door) == door_reaction(*old(door), r).0
                &&& remove == door_reaction(*old(door), r).1
                &&& plane_answer::<F>(
                    old(sector).ceilingheight.0 as int,
                    old(door).speed.0 as int,
                    door_dest(*old(door), *old(sector)) as int,
                    false,
                    1,
                    old(door).direction,
                    blocked,
                )
                &&& exists|gs: Seq<G>| #[trigger] played(*old(sound_fn), gs, door_reaction(*old(door), r).2)
            },
{
    if door.direction != 1 && door.direction != -1 {
        let (next, remove, sounds) = door_transition(door, ResultE::MoveOk);
        *door = next;
        play_sounds(&sounds, sound_fn);
        proof {
            let gs = choose|gs: Seq<G>| #[trigger] played(*old(sound_fn), gs, sounds@);
            assert(played(*old(sound_fn), gs, door_reaction(*old(door), ResultE::MoveOk).2));
        }
        return remove;
    }
    let dest = if door.direction == -1 { sector.floorheight } else { door.topheight };
    let ghost s0 = *sector;
    let res = t_move_plane(sector, door.speed, dest, false, 1, door.direction, change_sector_fn);
    let ghost blocked = choose|b: bool|
        {
            let (h, r) = #[trigger] plane_step(plane_height(s0, 1), door.speed.0 as int, dest.0 as int, false, 1, door.direction, b);
            *sector == with_plane(s0, 1, h) && res == r
                && plane_answer::<F>(plane_height(s0, 1), door.speed.0 as int, dest.0 as int, false, 1, door.direction, b)
        };
    assert({
        let (h, r) = plane_step(plane_height(s0, 1), door.speed.0 as int, dest.0 as int, false, 1, door.direction, blocked);
        *sector == with_plane(s0, 1, h) && res == r
            && plane_answer::<F>(plane_height(s0, 1), door.speed.0 as int, dest.0 as int, false, 1, door.direction, blocked)
    });
    let (next, remove, sounds) = door_transition(door, res);
    *door = next;
    if remove {
        sector.specialdata = None;
    }
    play_sounds(&sounds, sound_fn);
    proof {
        let gs = choose|gs: Seq<G>| #[trigger] played(*old(sound_fn), gs, sounds@);
        assert(played(*old(sound_fn), gs, door_reaction(*old(door), res).2));
    }
    assert(s0 == *old(sector));
    assert(dest.0 == door_dest(*old(door), *old(sector)));
    assert({
        let (h, r) = plane_step(old(sector).ceilingheight.0 as int, old(door).speed.0 as int, door_dest(*old(door), *old(sector)) as int, false, 1, old(door).direction, blocked);
        &&& *sector == released(with_plane(*old(sector), 1, h), door_reaction(*old(door), r).1)
        &&& *door == door_reaction(*old(door), r).0
        &&& remove == door_reaction(*old(door), r).1
        &&& plane_answer::<F>(old(sector).ceilingheight.0 as int, old(door).speed.0 as int, door_dest(*old(door), *old(sector)) as int, false, 1, old(door).direction, blocked)
        &&& exists|gs: Seq<G>| #[trigger] played(*old(sound_fn), gs, door_reaction(*old(door), r).2)
    });
    remove
}

/// Blazing doors move at four times [`VDOORSPEED`].
pub const BLAZE_DOOR_SPEED: i32 = 524288;

/// The height a door opens to: 4 units below the lowest neighbouring ceiling.
pub open spec fn door_top(sectors: Seq<Sector>, lines: Seq<LineDef>, j: int) -> int {
    lowest_ceiling_surrounding(sectors, lines, j) - 4 * FRACUNIT
}

/// The door kinds whose top is [`door_top`].
pub open spec fn uses_door_top(dt: VldoorType) -> bool {
    match dt {
        VldoorType::BlazeClose | VldoorType::Close | VldoorType::BlazeRaise | VldoorType::BlazeOpen
        | VldoorType::Normal | VldoorType::Open => true,
        _ => false,
    }
}

/// Every sector tagged `tag` has a [`door_top`] that fits a fixed-point value.
pub open spec fn door_tops_fit(sectors: Seq<Sector>, lines: Seq<LineDef>, tag: i16) -> bool {
    forall|j: int| 0 <= j < sectors.len() && (#[trigger] sectors[j]).tag == tag ==> door_top(sectors, lines, j) >= i32::MIN
}

/// The door mover `EV_DoDoor` creates for sector `j`.
///
/// | kind | direction | speed | top |
/// |---|---|---|---|
/// | blazing close | down | [`BLAZE_DOOR_SPEED`] | [`door_top`] |
/// | close | down | [`VDOORSPEED`] | [`door_top`] |
/// | close 30 s then open | down | [`VDOORSPEED`] | the sector's ceiling |
/// | blazing raise / open | up | [`BLAZE_DOOR_SPEED`] | [`door_top`] |
/// | normal / open | up | [`VDOORSPEED`] | [`door_top`] |
/// | raise in 5 minutes | waiting | [`VDOORSPEED`] | 0 |
///
/// All wait [`VDOORWAIT`] tics at the top and run `VerticalDoor`.
pub open spec fn new_door(dt: VldoorType, sectors: Seq<Sector>, lines: Seq<LineDef>, j: int) -> VldoorT {
    let base = VldoorT {
        thinker: Thinker { function: ActionFn::VerticalDoor },
        door_type: dt,
        topwait: VDOORWAIT,
        speed: Fixed(VDOORSPEED),
        ..VldoorT::blank(j as usize)
    };
    let top = Fixed(door_top(sectors, lines, j) as i32);
    match dt {
        VldoorType::BlazeClose => VldoorT { topheight: top, direction: -1i32, speed: Fixed(BLAZE_DOOR_SPEED), ..base },
        VldoorType::Close => VldoorT { topheight: top, direction: -1i32, ..base },
        VldoorType::Close30ThenOpen => VldoorT { topheight: sectors[j].ceilingheight, direction: -1i32, ..base },
        VldoorType::BlazeRaise | VldoorType::BlazeOpen => VldoorT { topheight: top, direction: 1, speed: Fixed(BLAZE_DOOR_SPEED), ..base },
        VldoorType::Normal | VldoorType::Open => VldoorT { topheight: top, direction: 1, ..base },
        _ => base,
    }
}

/// The sound `EV_DoDoor` starts at sector `j` for a new door: closing doors
/// always sound, opening doors only when they have somewhere to go.
pub open spec fn new_door_sounds(dt: VldoorType, sectors: Seq<Sector>, lines: Seq<LineDef>, j: int) -> Seq<SpecEvent> {
    let origin = Some(j as usize);
    let moves = door_top(sectors, lines, j) != sectors[j].ceilingheight.0;
    match dt {
        VldoorType::BlazeClose => seq![SpecEvent::Sound { origin, sfx: SfxEnum::sfx_bdcls }],
        VldoorType::Close | VldoorType::Close30ThenOpen => seq![SpecEvent::Sound { origin, sfx: SfxEnum::sfx_dorcls }],
        VldoorType::BlazeRaise | VldoorType::BlazeOpen => if moves {
            seq![SpecEvent::Sound { origin, sfx: SfxEnum::sfx_bdopn }]
        } else {
            seq![]
        },
        VldoorType::Normal | VldoorType::Open => if moves {
            seq![SpecEvent::Sound { origin, sfx: SfxEnum::sfx_doropn }]
        } else {
            seq![]
        },
        _ => seq![],
    }
}

/// The requests `EV_DoDoor` makes for each selected sector.
pub open spec fn door_spawn(dt: VldoorType, sectors: Seq<Sector>, lines: Seq<LineDef>) -> spec_fn(int, DoomRandom) -> (Seq<SpecEvent>, DoomRandom) {
    |j: int, r: DoomRandom| (new_door_sounds(dt, sectors, lines, j) + seq![SpecEvent::AddDoor(new_door(dt, sectors, lines, j))], r)
}

/// What `EV_DoDoor` on line `line_idx` does, going from `pre` to `post`
/// and returning `rtn`: see [`ev_do_door`].
pub open spec fn doors_done<C: SpecContext>(pre: C, post: C, line_idx: usize, dt: VldoorType, rtn: bool) -> bool {
    let tag = pre.lines_view()[line_idx as int].tag;
    let s0 = pre.sectors_view();
    &&& post.events() == pre.events() + tagged_spawns(s0, tag, 0, pre.rng_view(), door_spawn(dt, s0, pre.lines_view())).0
    &&& rtn == any_free_tagged(s0, tag, 0)
    &&& occupied_upto(s0, post.sectors_view(), tag, s0.len() as int)
    &&& post.lines_view() == pre.lines_view()
    &&& keeps_level_adding_doors(pre, post)
}

/// `EV_DoDoor`: for every sector tagged like the line that no mover
/// occupies, in order, start the sound [`new_door_sounds`] states and
/// register the door [`new_door`] states, which occupies the sector.
/// Returns whether any door was created.
pub fn ev_do_door<C: SpecContext>(line_idx: usize, door_type: VldoorType, ctx: &mut C) -> (rtn: bool)
    requires
        line_idx < old(ctx).lines_view().len(),
        level_wf(old(ctx).sectors_view(), old(ctx).lines_view()),
        old(ctx).sectors_view().len() < i32::MAX,
        uses_door_top(door_type) ==> door_tops_fit(old(ctx).sectors_view(), old(ctx).lines_view(), old(ctx).lines_view()[line_idx as int].tag),
    ensures
        doors_done(*old(ctx), *final(ctx), line_idx, door_type, rtn),
{
    let tag = ctx.lines()[line_idx].tag;
    let ghost s0 = ctx.sectors_view();
    let ghost l0 = ctx.lines_view();
    let ghost r0 = ctx.rng_view();
    let ghost f = door_spawn(door_type, s0, l0);
    let ghost all = tagged_spawns(s0, tag, 0, r0, f).0;
    let ghost base = ctx.events();
    let mut rtn = false;
    let mut secnum: i32 = -1;
    loop
        invariant_except_break
            -1 <= secnum < s0.len(),
            s0.len() < i32::MAX,
            line_idx < l0.len(),
            tag == l0[line_idx as int].tag,
            level_wf(s0, l0),
            uses_door_top(door_type) ==> door_tops_fit(s0, l0, tag),
            f == door_spawn(door_type, s0, l0),
            ctx.lines_view() == l0,
            ctx.sides_view() == old(ctx).sides_view(),
            ctx.mobj_players_view() == old(ctx).mobj_players_view(),
            ctx.player_cards_view() == old(ctx).player_cards_view(),
            ctx.rng_view() == r0,
            r0 == old(ctx).rng_view(),
            forall|g: usize| old(ctx).door_direction_view(g) is Some ==> #[trigger] ctx.door_direction_view(g) == old(ctx).door_direction_view(g),
            occupied_upto(s0, ctx.sectors_view(), tag, secnum as int),
            base + all == ctx.events() + tagged_spawns(s0, tag, secnum + 1, r0, f).0,
            rtn == exists|j: int| 0 <= j <= secnum && free_tagged(#[trigger] s0[j], tag),
        ensures
            base + all == ctx.events(),
            rtn == any_free_tagged(s0, tag, 0),
            occupied_upto(s0, ctx.sectors_view(), tag, s0.len() as int),
            ctx.lines_view() == l0,
            ctx.sides_view() == old(ctx).sides_view(),
            ctx.mobj_players_view() == old(ctx).mobj_players_view(),
            ctx.player_cards_view() == old(ctx).player_cards_view(),
            ctx.rng_view() == old(ctx).rng_view(),
            forall|g: usize| old(ctx).door_direction_view(g) is Some ==> #[trigger] ctx.door_direction_view(g) == old(ctx).door_direction_view(g),
        decreases s0.len() - secnum,
    {
        let ghost prev = secnum;
        proof {
            lemma_occupied_geometry(s0, ctx.sectors_view(), tag, prev as int);
            lemma_find_same_geometry(s0, ctx.sectors_view(), tag, prev + 1);
            lemma_find_tagged_from(s0, tag, prev + 1);
        }
        secnum = p_find_sector_from_line_tag(&ctx.lines()[line_idx], secnum, ctx.sectors());
        if secnum < 0 {
            proof {
                lemma_tagged_spawns_skip(s0, tag, prev + 1, s0.len() as int, r0, f);
                assert(base + all =~= ctx.events());
                assert(rtn == any_free_tagged(s0, tag, 0)) by {
                    if any_free_tagged(s0, tag, 0) {
                        let j = choose|j: int| 0 <= j < s0.len() && free_tagged(#[trigger] s0[j], tag);
                        if j > prev {
                            assert(s0[j].tag != tag);
                        }
                    }
                }
                let cur = ctx.sectors_view();
                assert forall|j: int| 0 <= j < s0.len() implies #[trigger] cur[j] == if j <= s0.len() && free_tagged(s0[j], tag) {
                    Sector { specialdata: cur[j].specialdata, ..s0[j] }
                } else {
                    s0[j]
                } by {
                    if j > prev {
                        assert(s0[j].tag != tag);
                        assert(cur[j] == s0[j]);
                    }
                }
                assert forall|j: int| 0 <= j <= s0.len() && 0 <= j < s0.len() && free_tagged(s0[j], tag) implies (#[trigger] cur[j]).specialdata is Some by {
                    if j > prev {
                        assert(s0[j].tag != tag);
                    }
                }
            }
            break;
        }
        let sec_idx = secnum as usize;
        proof {
            lemma_tagged_spawns_skip(s0, tag, prev + 1, secnum as int, r0, f);
            assert(ctx.sectors_view()[sec_idx as int] == s0[sec_idx as int]);
        }
        if ctx.sectors()[sec_idx].specialdata.is_some() {
            proof {
                let cur = ctx.sectors_view();
                assert forall|j: int| 0 <= j < s0.len() implies #[trigger] cur[j] == if j <= secnum && free_tagged(s0[j], tag) {
                    Sector { specialdata: cur[j].specialdata, ..s0[j] }
                } else {
                    s0[j]
                } by {
                    if j > prev && j < secnum {
                        assert(s0[j].tag != tag);
                    }
                }
                assert(rtn == exists|j: int| 0 <= j <= secnum && free_tagged(#[trigger] s0[j], tag)) by {
                    if exists|j: int| 0 <= j <= secnum && free_tagged(#[trigger] s0[j], tag) {
                        let j = choose|j: int| 0 <= j <= secnum && free_tagged(#[trigger] s0[j], tag);
                        if j > prev && j < secnum {
                            assert(s0[j].tag != tag);
                        }
                    }
                }
            }
            continue;
        }
        rtn = true;
        let ghost before = ctx.sectors_view();
        let ghost ev_before = ctx.events();
        proof {
            lemma_wf_same_geometry(s0, before, l0);
            lemma_steps_same_geometry(s0, before, 0);
            lemma_fold_same_geometry(s0, before, l0, sec_idx as int, i32::MAX as int, s0[sec_idx as int].lines@.len() as int, step_lowest_ceiling());
        }
        let mut door = VldoorT::new(sec_idx);
        door.thinker = Thinker::new(ActionFn::VerticalDoor);
        door.door_type = door_type;
        door.topwait = VDOORWAIT;
        door.speed = Fixed(VDOORSPEED);
        let ceilingheight = ctx.sectors()[sec_idx].ceilingheight;
        match door_type {
            VldoorType::BlazeClose => {
                let low = p_find_lowest_ceiling_surrounding(sec_idx, ctx.sectors(), ctx.lines());
                door.topheight = Fixed(low.0 - 4 * FRACUNIT);
                door.direction = -1;
                door.speed = Fixed(BLAZE_DOOR_SPEED);
                ctx.s_start_sound(Some(sec_idx), SfxEnum::sfx_bdcls);
            },
            VldoorType::Close => {
                let low = p_find_lowest_ceiling_surrounding(sec_idx, ctx.sectors(), ctx.lines());
                door.topheight = Fixed(low.0 - 4 * FRACUNIT);
                door.direction = -1;
                ctx.s_start_sound(Some(sec_idx), SfxEnum::sfx_dorcls);
            },
            VldoorType::Close30ThenOpen => {
                door.topheight = ceilingheight;
                door.direction = -1;
                ctx.s_start_sound(Some(sec_idx), SfxEnum::sfx_dorcls);
            },
            VldoorType::BlazeRaise | VldoorType::BlazeOpen => {
                door.direction = 1;
                let low = p_find_lowest_ceiling_surrounding(sec_idx, ctx.sectors(), ctx.lines());
                door.topheight = Fixed(low.0 - 4 * FRACUNIT);
                door.speed = Fixed(BLAZE_DOOR_SPEED);
                if door.topheight.0 != ceilingheight.0 {
                    ctx.s_start_sound(Some(sec_idx), SfxEnum::sfx_bdopn);
                }
            },
            VldoorType::Normal | VldoorType::Open => {
                door.direction = 1;
                let low = p_find_lowest_ceiling_surrounding(sec_idx, ctx.sectors(), ctx.lines());
                door.topheight = Fixed(low.0 - 4 * FRACUNIT);
                if door.topheight.0 != ceilingheight.0 {
                    ctx.s_start_sound(Some(sec_idx), SfxEnum::sfx_doropn);
                }
            },
            _ => {},
        }
        assert(door == new_door(door_type, s0, l0, sec_idx as int));
        assert(ctx.events() == ev_before + new_door_sounds(door_type, s0, l0, sec_idx as int));
        assert(ctx.sectors_view() == before);
        let ghost ev_mid = ctx.events();
        ctx.p_add_thinker_door(door);
        proof {
            assert(free_tagged(s0[secnum as int], tag));
            assert(f(secnum as int, r0) == (new_door_sounds(door_type, s0, l0, secnum as int) + seq![SpecEvent::AddDoor(door)], r0));
            assert(tagged_spawns(s0, tag, secnum as int, r0, f).0 == new_door_sounds(door_type, s0, l0, secnum as int) + seq![SpecEvent::AddDoor(door)] + tagged_spawns(s0, tag, secnum + 1, r0, f).0);
            assert(ctx.events() == ev_mid.push(SpecEvent::AddDoor(door)));
            let cur = ctx.sectors_view();
            assert forall|j: int| 0 <= j < s0.len() implies #[trigger] cur[j] == if j <= secnum && free_tagged(s0[j], tag) {
                Sector { specialdata: cur[j].specialdata, ..s0[j] }
            } else {
                s0[j]
            } by {
                if j > prev && j < secnum {
                    assert(s0[j].tag != tag);
                }
                if j != secnum {
                    assert(cur[j] == before[j]);
                }
            }
            assert forall|j: int| 0 <= j <= secnum && 0 <= j < s0.len() && free_tagged(s0[j], tag) implies (#[trigger] cur[j]).specialdata is Some by {
                if j > prev && j < secnum {
                    assert(s0[j].tag != tag);
                }
                if j != secnum {
                    assert(cur[j] == before[j]);
                }
            }
            assert(base + all =~= ctx.events() + tagged_spawns(s0, tag, secnum + 1, r0, f).0);
        }
    }
    rtn
}

/// Shown when a locked switch or walk line needs a blue key.
pub const PD_BLUEO: &'static str = "You need a blue key to activate this object";
/// Shown when a locked switch or walk line needs a red key.
pub const PD_REDO: &'static str = "You need a red key to activate this object";
/// Shown when a locked switch or walk line needs a yellow key.
pub const PD_YELLOWO: &'static str = "You need a yellow key to activate this object";
/// Shown when a locked door needs a blue key.
pub const PD_BLUEK: &'static str = "You need a blue key to open this door";
/// Shown when a locked door needs a red key.
pub const PD_REDK: &'static str = "You need a red key to open this door";
/// Shown when a locked door needs a yellow key.
pub const PD_YELLOWK: &'static str = "You need a yellow key to open this door";

/// The colour of a lock: either the card or the skull key of that colour opens it.
#[derive(Clone, Copy, Debug, PartialEq, Eq, Structural)]
pub enum KeyColor {
    Blue,
    Yellow,
    Red,
}

/// A player holding `cards` can open a lock of colour `c`.
pub open spec fn has_key(cards: [bool; 6], c: KeyColor) -> bool {
    match c {
        KeyColor::Blue => cards@[IT_BLUECARD as int] || cards@[IT_BLUESKULL as int],
        KeyColor::Yellow => cards@[IT_YELLOWCARD as int] || cards@[IT_YELLOWSKULL as int],
        KeyColor::Red => cards@[IT_REDCARD as int] || cards@[IT_REDSKULL as int],
    }
}

/// The lock on a remotely triggered door (switch or walk line special).
pub open spec fn remote_door_lock(special: i16) -> Option<KeyColor> {
    if special == 99 || special == 133 {
        Some(KeyColor::Blue)
    } else if special == 134 || special == 135 {
        Some(KeyColor::Red)
    } else if special == 136 || special == 137 {
        Some(KeyColor::Yellow)
    } else {
        None
    }
}

/// The message refusing a locked remote door.
pub open spec fn object_message(c: KeyColor) -> Seq<char> {
    match c {
        KeyColor::Blue => PD_BLUEO@,
        KeyColor::Red => PD_REDO@,
        KeyColor::Yellow => PD_YELLOWO@,
    }
}

/// The player was refused: shown `text`, with an "oof" everywhere, and
/// nothing else happened.
pub open spec fn refused<C: SpecContext>(pre: C, post: C, player: usize, text: Seq<char>) -> bool {
    &&& keeps_level(pre, post)
    &&& post.sectors_view() == pre.sectors_view()
    &&& post.lines_view() == pre.lines_view()
    &&& post.events() == pre.events().push(SpecEvent::Message { player, text }).push(
        SpecEvent::Sound { origin: None, sfx: SfxEnum::sfx_oof },
    )
}

/// Whether player `player` lacks the key `lock` asks for.
fn lacks_key<C: SpecContext>(ctx: &C, player: usize, lock: KeyColor) -> (r: bool)
    requires
        player < ctx.player_cards_view().len(),
    ensures
        r == !has_key(ctx.player_cards_view()[player as int], lock),
{
    let cards = ctx.player_cards(player);
    match lock {
        KeyColor::Blue => !cards[IT_BLUECARD] && !cards[IT_BLUESKULL],
        KeyColor::Yellow => !cards[IT_YELLOWCARD] && !cards[IT_YELLOWSKULL],
        KeyColor::Red => !cards[IT_REDCARD] && !cards[IT_REDSKULL],
    }
}

/// `EV_DoLockedDoor`: only a player can use a locked remote door. A player
/// without the key [`remote_door_lock`] names is refused with
/// [`object_message`] and an "oof"; otherwise the line acts as
/// [`ev_do_door`]. Returns whether a door was started.
pub fn ev_do_locked_door<C: SpecContext>(line_idx: usize, door_type: VldoorType, thing_idx: usize, ctx: &mut C) -> (rtn: bool)
    requires
        line_idx < old(ctx).lines_view().len(),
        thing_idx < old(ctx).mobj_players_view().len(),
        old(ctx).mobj_players_view()[thing_idx as int] matches Some(p) ==> p < old(ctx).player_cards_view().len(),
        level_wf(old(ctx).sectors_view(), old(ctx).lines_view()),
        old(ctx).sectors_view().len() < i32::MAX,
        uses_door_top(door_type) ==> door_tops_fit(old(ctx).sectors_view(), old(ctx).lines_view(), old(ctx).lines_view()[line_idx as int].tag),
    ensures
        ({
            let p = old(ctx).mobj_players_view()[thing_idx as int];
            let lock = remote_door_lock(old(ctx).lines_view()[line_idx as int].special);
            if p is None {
                !rtn && untouched(*old(ctx), *final(ctx))
            } else if lock is Some && !has_key(old(ctx).player_cards_view()[p->0 as int], lock->0) {
                !rtn && refused(*old(ctx), *final(ctx), p->0, object_message(lock->0))
            } else {
                doors_done(*old(ctx), *final(ctx), line_idx, door_type, rtn)
            }
        }),
{
    let player = match ctx.mobj_player(thing_idx) {
        Some(p) => p,
        None => return false,
    };
    let special = ctx.lines()[line_idx].special;
    let lock = if special == 99 || special == 133 {
        Some(KeyColor::Blue)
    } else if special == 134 || special == 135 {
        Some(KeyColor::Red)
    } else if special == 136 || special == 137 {
        Some(KeyColor::Yellow)
    } else {
        None
    };
    if let Some(c) = lock {
        if lacks_key(ctx, player, c) {
            let text = match c {
                KeyColor::Blue => PD_BLUEO,
                KeyColor::Red => PD_REDO,
                KeyColor::Yellow => PD_YELLOWO,
            };
            ctx.set_player_message(player, text);
            ctx.s_start_sound(None, SfxEnum::sfx_oof);
            return false;
        }
    }
    ev_do_door(line_idx, door_type, ctx)
}

/// The lock on a door a player uses directly.
pub open spec fn manual_door_lock(special: i16) -> Option<KeyColor> {
    if special == 26 || special == 32 {
        Some(KeyColor::Blue)
    } else if special == 27 || special == 34 {
        Some(KeyColor::Yellow)
    } else if special == 28 || special == 33 {
        Some(KeyColor::Red)
    } else {
        None
    }
}

/// The message refusing a locked door.
pub open spec fn door_message(c: KeyColor) -> Seq<char> {
    match c {
        KeyColor::Blue => PD_BLUEK@,
        KeyColor::Red => PD_REDK@,
        KeyColor::Yellow => PD_YELLOWK@,
    }
}

/// The raising doors, which a second use reverses while they move.
pub open spec fn reverses_active_door(special: i16) -> bool {
    special == 1 || special == 26 || special == 27 || special == 28 || special == 117
}

/// The doors that stay open, whose line can be used only once.
pub open spec fn stays_open(special: i16) -> bool {
    (31 <= special <= 34) || special == 118
}

/// The sound a used door starts with.
pub open spec fn manual_door_sound(special: i16) -> SfxEnum {
    if special == 117 || special == 118 {
        SfxEnum::sfx_bdopn
    } else {
        SfxEnum::sfx_doropn
    }
}

/// The door mover `EV_VerticalDoor` creates for the sector `sec` behind a
/// line with special `special`: it opens to [`door_top`], a blazing raise
/// (117) or blazing open (118) at [`BLAZE_DOOR_SPEED`], an open-stay door
/// (31 to 34) at [`VDOORSPEED`], anything else as a normal door.
pub open spec fn manual_door(special: i16, sectors: Seq<Sector>, lines: Seq<LineDef>, sec: int) -> VldoorT {
    let dt = if special == 117 {
        VldoorType::BlazeRaise
    } else if special == 118 {
        VldoorType::BlazeOpen
    } else if 31 <= special <= 34 {
        VldoorType::Open
    } else {
        VldoorType::Normal
    };
    let speed = if special == 117 || special == 118 { BLAZE_DOOR_SPEED } else { VDOORSPEED };
    VldoorT {
        thinker: Thinker { function: ActionFn::VerticalDoor },
        door_type: dt,
        direction: 1,
        speed: Fixed(speed),
        topwait: VDOORWAIT,
        topheight: Fixed(door_top(sectors, lines, sec) as i32),
        ..VldoorT::blank(sec as usize)
    }
}

/// `post` is `pre` with sector `sec` now occupied by a mover and its
/// special set to `special`.
pub open spec fn claimed(pre: Seq<Sector>, post: Seq<Sector>, sec: int, special: i16) -> bool {
    &&& post.len() == pre.len()
    &&& post[sec] == (Sector { special, specialdata: post[sec].specialdata, ..pre[sec] })
    &&& post[sec].specialdata is Some
    &&& forall|j: int| 0 <= j < pre.len() && j != sec ==> #[trigger] post[j] == pre[j]
}

/// Door `h` was turned to `direction`, and nothing else happened.
pub open spec fn redirected<C: SpecContext>(pre: C, post: C, h: usize, direction: i32) -> bool {
    &&& post.sectors_view() == pre.sectors_view()
    &&& post.lines_view() == pre.lines_view()
    &&& post.sides_view() == pre.sides_view()
    &&& post.mobj_players_view() == pre.mobj_players_view()
    &&& post.player_cards_view() == pre.player_cards_view()
    &&& post.rng_view() == pre.rng_view()
    &&& post.door_direction_view(h) == Some(direction)
    &&& forall|g: usize| g != h ==> #[trigger] post.door_direction_view(g) == pre.door_direction_view(g)
    &&& post.events() == pre.events().push(SpecEvent::SetDoorDirection { handle: h, direction })
}

/// `EV_VerticalDoor`: thing `thing_idx` uses the door behind line `line_idx`.
///
/// A locked door ([`manual_door_lock`]) ignores things that are not
/// players and refuses a player without the key with [`door_message`] and an
/// "oof". A one-sided line does nothing. If a mover already occupies the
/// sector behind the line and the line raises doors
/// ([`reverses_active_door`]), the door, if it is one, is turned around: a
/// closing door reopens, an opening or waiting door closes, but only for a
/// player. Otherwise the door sound plays at the sector, a line of a door
/// that stays open loses its special, and the door [`manual_door`] states
/// is registered.
pub fn ev_vertical_door<C: SpecContext>(line_idx: usize, thing_idx: usize, ctx: &mut C)
    requires
        line_idx < old(ctx).lines_view().len(),
        thing_idx < old(ctx).mobj_players_view().len(),
        old(ctx).mobj_players_view()[thing_idx as int] matches Some(p) ==> p < old(ctx).player_cards_view().len(),
        level_wf(old(ctx).sectors_view(), old(ctx).lines_view()),
        old(ctx).lines_view()[line_idx as int].backsector matches Some(b) ==> door_top(old(ctx).sectors_view(), old(ctx).lines_view(), b as int) >= i32::MIN,
    ensures
        ({
            let pre = *old(ctx);
            let post = *final(ctx);
            let sp = pre.lines_view()[line_idx as int].special;
            let p = pre.mobj_players_view()[thing_idx as int];
            let lock = manual_door_lock(sp);
            let back = pre.lines_view()[line_idx as int].backsector;
            if lock is Some && p is None {
                untouched(pre, post)
            } else if lock is Some && !has_key(pre.player_cards_view()[p->0 as int], lock->0) {
                refused(pre, post, p->0, door_message(lock->0))
            } else if back is None {
                untouched(pre, post)
            } else if pre.sectors_view()[back->0 as int].specialdata is Some && reverses_active_door(sp) {
                let h = pre.sectors_view()[back->0 as int].specialdata->0;
                match pre.door_direction_view(h) {
                    None => untouched(pre, post),
                    Some(d) => if d == -1 {
                        redirected(pre, post, h, 1)
                    } else if p is None {
                        untouched(pre, post)
                    } else {
                        redirected(pre, post, h, -1i32)
                    },
                }
            } else {
                let sec = back->0;
                let door = manual_door(sp, pre.sectors_view(), pre.lines_view(), sec as int);
                &&& post.events() == pre.events().push(
                    SpecEvent::Sound { origin: Some(sec), sfx: manual_door_sound(sp) },
                ).push(SpecEvent::AddDoor(door))
                &&& post.lines_view() == if stays_open(sp) {
                    pre.lines_view().update(line_idx as int, LineDef { special: 0, ..pre.lines_view()[line_idx as int] })
                } else {
                    pre.lines_view()
                }
                &&& claimed(pre.sectors_view(), post.sectors_view(), sec as int, pre.sectors_view()[sec as int].special)
                &&& keeps_level_adding_doors(pre, post)
            }
        }),
{
    let special = ctx.lines()[line_idx].special;
    let lock = if special == 26 || special == 32 {
        Some(KeyColor::Blue)
    } else if special == 27 || special == 34 {
        Some(KeyColor::Yellow)
    } else if special == 28 || special == 33 {
        Some(KeyColor::Red)
    } else {
        None
    };
    if let Some(c) = lock {
        let player = match ctx.mobj_player(thing_idx) {
            Some(p) => p,
            None => return,
        };
        if lacks_key(ctx, player, c) {
            let text = match c {
                KeyColor::Blue => PD_BLUEK,
                KeyColor::Red => PD_REDK,
                KeyColor::Yellow => PD_YELLOWK,
            };
            ctx.set_player_message(player, text);
            ctx.s_start_sound(None, SfxEnum::sfx_oof);
            return;
        }
    }
    let sec_idx = match ctx.lines()[line_idx].backsector {
        Some(s) => s,
        None => return,
    };
    if ctx.sectors()[sec_idx].specialdata.is_some() {
        if special == 1 || special == 26 || special == 27 || special == 28 || special == 117 {
            let is_player = ctx.mobj_player(thing_idx).is_some();
            let handle = match ctx.sectors()[sec_idx].specialdata {
                Some(h) => h,
                None => return,
            };
            if let Some(direction) = ctx.door_direction(handle) {
                if direction == -1 {
                    ctx.set_door_direction(handle, 1);
                } else {
                    if !is_player {
                        return;
                    }
                    ctx.set_door_direction(handle, -1);
                }
            }
            return;
        }
    }
    if special == 117 || special == 118 {
        ctx.s_start_sound(Some(sec_idx), SfxEnum::sfx_bdopn);
    } else {
        ctx.s_start_sound(Some(sec_idx), SfxEnum::sfx_doropn);
    }
    let low = p_find_lowest_ceiling_surrounding(sec_idx, ctx.sectors(), ctx.lines());
    let mut door = VldoorT::new(sec_idx);
    door.thinker = Thinker::new(ActionFn::VerticalDoor);
    door.direction = 1;
    door.speed = Fixed(VDOORSPEED);
    door.topwait = VDOORWAIT;
    if special == 1 || special == 26 || special == 27 || special == 28 {
        door.door_type = VldoorType::Normal;
    } else if 31 <= special && special <= 34 {
        door.door_type = VldoorType::Open;
        ctx.set_line_special(line_idx, 0);
    } else if special == 117 {
        door.door_type = VldoorType::BlazeRaise;
        door.speed = Fixed(BLAZE_DOOR_SPEED);
    } else if special == 118 {
        door.door_type = VldoorType::BlazeOpen;
        door.speed = Fixed(BLAZE_DOOR_SPEED);
        ctx.set_line_special(line_idx, 0);
    } else {
        door.door_type = VldoorType::Normal;
    }
    door.topheight = Fixed(low.0 - 4 * FRACUNIT);
    ctx.p_add_thinker_door(door);
}

/// The door `P_SpawnDoorCloseIn30` puts in a sector `s` (index `sec`): a
/// normal door waiting at the top for 30 seconds (1050 tics), then closing.
pub open spec fn door_close_in30(s: Sector, sec: usize) -> VldoorT {
    VldoorT {
        thinker: Thinker { function: ActionFn::VerticalDoor },
        direction: 0,
        door_type: VldoorType::Normal,
        speed: Fixed(VDOORSPEED),
        topcountdown: 1050,
        topheight: s.ceilingheight,
        ..VldoorT::blank(sec)
    }
}

/// `P_SpawnDoorCloseIn30`: sector `sector_idx` loses its special and gets
/// the door [`door_close_in30`] states.
pub fn p_spawn_door_close_in30<C: SpecContext>(sector_idx: usize, ctx: &mut C)
    requires
        sector_idx < old(ctx).sectors_view().len(),
    ensures
        final(ctx).events() == old(ctx).events().push(
            SpecEvent::AddDoor(door_close_in30(old(ctx).sectors_view()[sector_idx as int], sector_idx)),
        ),
        claimed(old(ctx).sectors_view(), final(ctx).sectors_view(), sector_idx as int, 0),
        final(ctx).lines_view() == old(ctx).lines_view(),
        keeps_level_adding_doors(*old(ctx), *final(ctx)),
{
    let mut door = VldoorT::new(sector_idx);
    door.thinker = Thinker::new(ActionFn::VerticalDoor);
    door.direction = 0;
    door.door_type = VldoorType::Normal;
    door.speed = Fixed(VDOORSPEED);
    door.topcountdown = 30 * 35;
    door.topheight = ctx.sectors()[sector_idx].ceilingheight;
    ctx.set_sector_special(sector_idx, 0);
    ctx.p_add_thinker_door(door);
}

/// The door `P_SpawnDoorRaiseIn5Mins` puts in sector `sec`: in its initial
/// wait for 5 minutes (10500 tics), then opening to [`door_top`] as a
/// normal door that waits [`VDOORWAIT`] tics at the top.
pub open spec fn door_raise_in5_mins(sectors: Seq<Sector>, lines: Seq<LineDef>, sec: usize) -> VldoorT {
    VldoorT {
        thinker: Thinker { function: ActionFn::VerticalDoor },
        direction: 2,
        door_type: VldoorType::RaiseIn5Mins,
        speed: Fixed(VDOORSPEED),
        topheight: Fixed(door_top(sectors, lines, sec as int) as i32),
        topwait: VDOORWAIT,
        topcountdown: 10500,
        ..VldoorT::blank(sec)
    }
}

/// `P_SpawnDoorRaiseIn5Mins`: sector `sector_idx` loses its special and
/// gets the door [`door_raise_in5_mins`] states.
pub fn p_spawn_door_raise_in5_mins<C: SpecContext>(sector_idx: usize, _secnum: i32, ctx: &mut C)
    requires
        sector_idx < old(ctx).sectors_view().len(),
        level_wf(old(ctx).sectors_view(), old(ctx).lines_view()),
        door_top(old(ctx).sectors_view(), old(ctx).lines_view(), sector_idx as int) >= i32::MIN,
    ensures
        final(ctx).events() == old(ctx).events().push(
            SpecEvent::AddDoor(door_raise_in5_mins(old(ctx).sectors_view(), old(ctx).lines_view(), sector_idx)),
        ),
        claimed(old(ctx).sectors_view(), final(ctx).sectors_view(), sector_idx as int, 0),
        final(ctx).lines_view() == old(ctx).lines_view(),
        keeps_level_adding_doors(*old(ctx), *final(ctx)),
{
    let mut door = VldoorT::new(sector_idx);
    door.thinker = Thinker::new(ActionFn::VerticalDoor);
    door.direction = 2;
    door.door_type = VldoorType::RaiseIn5Mins;
    door.speed = Fixed(VDOORSPEED);
    let low = p_find_lowest_ceiling_surrounding(sector_idx, ctx.sectors(), ctx.lines());
    door.topheight = Fixed(low.0 - 4 * FRACUNIT);
    door.topwait = VDOORWAIT;
    door.topcountdown = 5 * 60 * 35;
    ctx.set_sector_special(sector_idx, 0);
    ctx.p_add_thinker_door(door);
}

} // verus!
