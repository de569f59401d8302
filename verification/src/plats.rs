//! Platforms (lifts): the platform thinker, triggered platforms and the
//! table of active platforms.

use vstd::prelude::*;
use crate::fixed::{Fixed, FRACUNIT};
use crate::floor::{plane_answer, change_callable, plane_height, plane_move_fits, plane_step, sound_callable, t_move_plane, with_plane};
use crate::ceilng::{first_free, first_holding, play_sounds, played, slots_add, slots_remove, tracked_before};
use crate::floor::sides_wf;
use crate::spec::{
    any_free_tagged, free_tagged, highest_floor_surrounding, keeps_level, lemma_find_same_geometry,
    lemma_find_tagged_from, lemma_fold_same_geometry, lemma_steps_same_geometry, lemma_tagged_spawns_skip,
    lemma_wf_same_geometry, level_wf, lowest_floor_surrounding, next_highest_floor, p_find_highest_floor_surrounding,
    p_find_lowest_floor_surrounding, p_find_next_highest_floor, p_find_sector_from_line_tag, same_geometry,
    step_highest_floor, step_lowest_floor, step_next_floor, tagged_spawns, untouched, PlatStatus, PlatT, PlatType,
    ResultE, SpecContext, SpecEvent, MAXPLATS, PLATSPEED, PLATWAIT,
};
use crate::random::DoomRandom;
use crate::types::{ActionFn, LineDef, SfxEnum, Sector, SideDef, Thinker};

verus! {

/// Tracks the active platforms, so that they can be stopped and restarted
/// by tag. Each slot holds the index of a platform mover or is free.
pub struct ActivePlats {
    pub slots: [Option<usize>; MAXPLATS],
}

impl ActivePlats {
    /// All slots free.
    pub fn new() -> (r: ActivePlats)
        ensures
            forall|i: int| 0 <= i < MAXPLATS ==> r.slots@[i] is None,
    {
        ActivePlats { slots: [None; MAXPLATS] }
    }

    /// Track `plat_idx` in the first free slot. Returns that slot, or `None`
    /// (changing nothing) when every slot is taken.
    pub fn add(&mut self, plat_idx: usize) -> (r: Option<usize>)
        ensures
            first_free(old(self).slots@) == -1 ==> r is None && final(self).slots@ == old(self).slots@,
            first_free(old(self).slots@) != -1 ==> r == Some(first_free(old(self).slots@) as usize)
                && final(self).slots@ == old(self).slots@.update(first_free(old(self).slots@), Some(plat_idx)),
    {
        slots_add(&mut self.slots, plat_idx)
    }

    /// Free the first slot tracking `plat_idx`; no change when there is none.
    pub fn remove(&mut self, plat_idx: usize)
        ensures
            first_holding(old(self).slots@, plat_idx) == -1 ==> final(self).slots@ == old(self).slots@,
            first_holding(old(self).slots@, plat_idx) != -1 ==> final(self).slots@
                == old(self).slots@.update(first_holding(old(self).slots@, plat_idx), None),
    {
        slots_remove(&mut self.slots, plat_idx)
    }
}

impl Default for ActivePlats {
    fn default() -> (r: ActivePlats)
        ensures
            forall|i: int| 0 <= i < MAXPLATS ==> r.slots@[i] is None,
    {
        ActivePlats::new()
    }
}

/// The direction a platform's floor moves in: up (1), down (-1), or not at all (0).
pub open spec fn plat_direction(p: PlatT) -> i32 {
    match p.status {
        PlatStatus::Up => 1,
        PlatStatus::Down => -1i32,
        _ => 0,
    }
}

/// Where a moving platform's floor is headed and whether it crushes: up to
/// `high` with the platform's crush flag, down to `low` never crushing.
pub open spec fn plat_dest(p: PlatT) -> (i32, bool) {
    if p.status == PlatStatus::Up {
        (p.high.0, p.crush)
    } else {
        (p.low.0, false)
    }
}

/// What a platform does this tic, given the result `res` of its floor move
/// (ignored unless it is moving) and its sector's floor height: the updated
/// platform, whether it is finished, and the sounds it makes.
///
/// Going up, a raise-and-change platform grinds every 8 tics; a blocked
/// non-crushing platform starts back down after its wait; reaching `high`
/// it waits, and the one-shot kinds finish there. Going down, reaching
/// `low` it waits. Waiting, the count runs down; at zero it heads up if its
/// floor is at `low`, down otherwise. In stasis nothing happens.
pub open spec fn plat_reaction(p: PlatT, res: ResultE, leveltime: i32, floorheight: i32) -> (PlatT, bool, Seq<SfxEnum>) {
    match p.status {
        PlatStatus::Up => {
            let mv: Seq<SfxEnum> = if (p.plat_type == PlatType::RaiseAndChange || p.plat_type == PlatType::RaiseToNearestAndChange)
                && (leveltime & 7) == 0 {
                seq![SfxEnum::sfx_stnmov]
            } else {
                seq![]
            };
            if res == ResultE::Crushed && !p.crush {
                (PlatT { count: p.wait, status: PlatStatus::Down, ..p }, false, mv.push(SfxEnum::sfx_pstart))
            } else if res == ResultE::PastDest {
                let one_shot = p.plat_type == PlatType::BlazeDWUS || p.plat_type == PlatType::DownWaitUpStay
                    || p.plat_type == PlatType::RaiseAndChange || p.plat_type == PlatType::RaiseToNearestAndChange;
                (PlatT { count: p.wait, status: PlatStatus::Waiting, ..p }, one_shot, mv.push(SfxEnum::sfx_pstop))
            } else {
                (p, false, mv)
            }
        },
        PlatStatus::Down => {
            if res == ResultE::PastDest {
                (PlatT { count: p.wait, status: PlatStatus::Waiting, ..p }, false, seq![SfxEnum::sfx_pstop])
            } else {
                (p, false, seq![])
            }
        },
        PlatStatus::Waiting => {
            let p1 = PlatT { count: (p.count - 1) as i32, ..p };
            if p1.count == 0 {
                let st = if floorheight == p.low.0 { PlatStatus::Up } else { PlatStatus::Down };
                (PlatT { status: st, ..p1 }, false, seq![SfxEnum::sfx_pstart])
            } else {
                (p1, false, seq![])
            }
        },
        PlatStatus::InStasis => (p, false, seq![]),
    }
}

/// The platform's reaction to its move result (see [`plat_reaction`]).
pub fn plat_transition(plat: &PlatT, res: ResultE, leveltime: i32, floorheight: Fixed) -> (r: (PlatT, bool, Vec<SfxEnum>))
    requires
        plat.status == PlatStatus::Waiting ==> plat.count > i32::MIN,
    ensures
        (r.0, r.1, r.2@) == plat_reaction(*plat, res, leveltime, floorheight.0),
{
    let mut p = *plat;
    let mut sounds: Vec<SfxEnum> = Vec::new();
    let mut remove = false;
    match p.status {
        PlatStatus::Up => {
            if (p.plat_type == PlatType::RaiseAndChange || p.plat_type == PlatType::RaiseToNearestAndChange)
                && (leveltime & 7) == 0 {
                sounds.push(SfxEnum::sfx_stnmov);
            }
            if res == ResultE::Crushed && !p.crush {
                p.count = p.wait;
                p.status = PlatStatus::Down;
                sounds.push(SfxEnum::sfx_pstart);
            } else if res == ResultE::PastDest {
                p.count = p.wait;
                p.status = PlatStatus::Waiting;
                sounds.push(SfxEnum::sfx_pstop);
                match p.plat_type {
                    PlatType::BlazeDWUS | PlatType::DownWaitUpStay | PlatType::RaiseAndChange | PlatType::RaiseToNearestAndChange => {
                        remove = true;
                    },
                    _ => {},
                }
            }
        },
        PlatStatus::Down => {
            if res == ResultE::PastDest {
                p.count = p.wait;
                p.status = PlatStatus::Waiting;
                sounds.push(SfxEnum::sfx_pstop);
            }
        },
        PlatStatus::Waiting => {
            p.count = p.count - 1;
            if p.count == 0 {
                if floorheight.0 == p.low.0 {
                    p.status = PlatStatus::Up;
                } else {
                    p.status = PlatStatus::Down;
                }
                sounds.push(SfxEnum::sfx_pstart);
            }
        },
        PlatStatus::InStasis => {},
    }
    proof {
        assert(sounds@ =~= plat_reaction(*plat, res, leveltime, floorheight.0).2);
    }
    (p, remove, sounds)
}

/// `T_PlatRaise`: one tic of a platform. A platform going up or down moves
/// its sector's floor toward `high` or `low` (see [`t_move_plane`]); then
/// it reacts as [`plat_reaction`] states. Returns `true` when the platform
/// is finished and must be removed.
pub fn t_plat_raise<F: FnMut(bool) -> bool, G: FnMut(SfxEnum)>(
    plat: &mut PlatT,
    sector: &mut Sector,
    leveltime: i32,
    change_sector_fn: &mut F,
    sound_fn: &mut G,
) -> (remove: bool)
    requires
        change_callable::<F>(),
        sound_callable::<G>(),
        plane_move_fits(old(sector).floorheight.0 as int, old(plat).speed.0 as int, plat_direction(*old(plat))),
        old(plat).status == PlatStatus::Waiting ==> old(plat).count > i32::MIN,
    ensures
        plat_direction(*old(plat)) == 0 ==> {
            &&& *final(plat) == plat_reaction(*old(plat), ResultE::MoveOk, leveltime, old(sector).floorheight.0).0
            &&& remove == plat_reaction(*old(plat), ResultE::MoveOk, leveltime, old(sector).floorheight.0).1
            &&& *final(sector) == *old(sector)
            &&& exists|gs: Seq<G>| #[trigger] played(*old(sound_fn), gs, plat_reaction(*old(plat), ResultE::MoveOk, leveltime, old(sector).floorheight.0).2)
        },
        plat_direction(*old(plat)) != 0 ==> exists|blocked: bool|
            {
                let (h, r) = #[trigger] plane_step(
                    old(sector).floorheight.0 as int,
                    old(plat).speed.0 as int,
                    plat_dest(*old(plat)).0 as int,
                    plat_dest(*old(plat)).1,
                    0,
                    plat_direction(*old(plat)),
                    blocked,
                );
                &&& *final(sector) == with_plane(*old(sector), 0, h)
                &&& *final(plat) == plat_reaction(*old(plat), r, leveltime, h as i32).0
                &&& remove == plat_reaction(*old(plat), r, leveltime, h as i32).1
                &&& plane_answer::<F>(
                    old(sector).floorheight.0 as int,
                    old(plat).speed.0 as int,
                    plat_dest(*old(plat)).0 as int,
                    plat_dest(*old(plat)).1,
                    0,
                    plat_direction(*old(plat)),
                    blocked,
                )
                &&& exists|gs: Seq<G>| #[trigger] played(*old(sound_fn), gs, plat_reaction(*old(plat), r, leveltime, h as i32).2)
            },
{
    if plat.status != PlatStatus::Up && plat.status != PlatStatus::Down {
        let (next, remove, sounds) = plat_transition(plat, ResultE::MoveOk, leveltime, sector.floorheight);
        *plat = next;
        play_sounds(&sounds, sound_fn);
        proof {
            let gs = choose|gs: Seq<G>| #[trigger] played(*old(sound_fn), gs, sounds@);
            assert(played(*old(sound_fn), gs, plat_reaction(*old(plat), ResultE::MoveOk, leveltime, old(sector).floorheight.0).2));
        }
        return remove;
    }
    let (dest, crush, dir) = if plat.status == PlatStatus::Up {
        (plat.high, plat.crush, 1i32)
    } else {
        (plat.low, false, -1i32)
    };
    let ghost s0 = *sector;
    let res = t_move_plane(sector, plat.speed, dest, crush, 0, dir, change_sector_fn);
    let ghost blocked = choose|b: bool|
        {
            let (h, r) = #[trigger] plane_step(plane_height(s0, 0), plat.speed.0 as int, dest.0 as int, crush, 0, dir, b);
            *sector == with_plane(s0, 0, h) && res == r
                && plane_answer::<F>(plane_height(s0, 0), plat.speed.0 as int, dest.0 as int, crush, 0, dir, b)
        };
    assert({
        let (h, r) = plane_step(plane_height(s0, 0), plat.speed.0 as int, dest.0 as int, crush, 0, dir, blocked);
        *sector == with_plane(s0, 0, h) && res == r
            && plane_answer::<F>(plane_height(s0, 0), plat.speed.0 as int, dest.0 as int, crush, 0, dir, blocked)
    });
    let (next, remove, sounds) = plat_transition(plat, res, leveltime, sector.floorheight);
    *plat = next;
    play_sounds(&sounds, sound_fn);
    proof {
        let gs = choose|gs: Seq<G>| #[trigger] played(*old(sound_fn), gs, sounds@);
        assert(played(*old(sound_fn), gs, plat_reaction(*old(plat), res, leveltime, sector.floorheight.0).2));
    }
    assert(s0 == *old(sector));
    assert({
        let (h, r) = plane_step(old(sector).floorheight.0 as int, old(plat).speed.0 as int, plat_dest(*old(plat)).0 as int, plat_dest(*old(plat)).1, 0, plat_direction(*old(plat)), blocked);
        &&& *sector == with_plane(*old(sector), 0, h)
        &&& *plat == plat_reaction(*old(plat), r, leveltime, h as i32).0
        &&& remove == plat_reaction(*old(plat), r, leveltime, h as i32).1
        &&& plane_answer::<F>(old(sector).floorheight.0 as int, old(plat).speed.0 as int, plat_dest(*old(plat)).0 as int, plat_dest(*old(plat)).1, 0, plat_direction(*old(plat)), blocked)
        &&& exists|gs: Seq<G>| #[trigger] played(*old(sound_fn), gs, plat_reaction(*old(plat), r, leveltime, h as i32).2)
    });
    remove
}

/// A platform with tag `tag` that is not in stasis.
pub open spec fn active_with_tag(p: PlatT, tag: i32) -> bool {
    p.tag == tag && p.status != PlatStatus::InStasis
}

/// The platform put in stasis: its status saved, its thinker paused.
pub open spec fn plat_stopped(p: PlatT) -> PlatT {
    PlatT { oldstatus: p.status, status: PlatStatus::InStasis, thinker: Thinker { function: ActionFn::NoAction }, ..p }
}

/// A platform with tag `tag` in stasis.
pub open spec fn stasis_with_tag(p: PlatT, tag: i32) -> bool {
    p.tag == tag && p.status == PlatStatus::InStasis
}

/// The platform resumed: its saved status restored, its thinker running.
pub open spec fn plat_resumed(p: PlatT) -> PlatT {
    PlatT { status: p.oldstatus, thinker: Thinker { function: ActionFn::PlatRaise }, ..p }
}

/// Platform `j` of `ps` after `EV_StopPlat` with tag `tag`: put in stasis
/// when tracked in `slots` and active with that tag.
pub open spec fn plat_stop_result(ps: Seq<PlatT>, slots: Seq<Option<usize>>, tag: i32, j: int) -> PlatT {
    if tracked_before(slots, j, slots.len() as int) && active_with_tag(ps[j], tag) {
        plat_stopped(ps[j])
    } else {
        ps[j]
    }
}

/// Platform `j` of `ps` after `P_ActivateInStasis` with tag `tag`: resumed
/// when tracked in `slots` and in stasis with that tag.
pub open spec fn plat_activate_result(ps: Seq<PlatT>, slots: Seq<Option<usize>>, tag: i32, j: int) -> PlatT {
    if tracked_before(slots, j, slots.len() as int) && stasis_with_tag(ps[j], tag) {
        plat_resumed(ps[j])
    } else {
        ps[j]
    }
}

proof fn lemma_tracked_step(slots: Seq<Option<usize>>, j: int, k: int)
    requires
        0 <= k < slots.len(),
    ensures
        tracked_before(slots, j, k + 1) == (tracked_before(slots, j, k) || slots[k] == Some(j as usize)),
{
    if slots[k] == Some(j as usize) {
        assert(slots[k] == Some(j as usize));
    }
    if tracked_before(slots, j, k + 1) && !tracked_before(slots, j, k) {
        let s = choose|s: int| 0 <= s < k + 1 && #[trigger] slots[s] == Some(j as usize);
        assert(s == k);
    }
}

/// `EV_StopPlat`: every tracked platform with tag `tag` that is not in
/// stasis goes into stasis, saving its status.
pub fn ev_stop_plat(tag: i32, plats: &mut [PlatT], active: &ActivePlats)
    ensures
        final(plats)@.len() == old(plats)@.len(),
        forall|j: int| 0 <= j < old(plats)@.len() ==> #[trigger] final(plats)@[j] == plat_stop_result(old(plats)@, active.slots@, tag, j),
{
    let mut k: usize = 0;
    while k < MAXPLATS
        invariant
            0 <= k <= MAXPLATS,
            plats@.len() == old(plats)@.len(),
            forall|j: int| 0 <= j < old(plats)@.len() ==> #[trigger] plats@[j] == if tracked_before(active.slots@, j, k as int)
                && active_with_tag(old(plats)@[j], tag) {
                plat_stopped(old(plats)@[j])
            } else {
                old(plats)@[j]
            },
        decreases MAXPLATS - k,
    {
        proof {
            assert forall|j: int| 0 <= j < old(plats)@.len() implies tracked_before(active.slots@, j, k + 1)
                == (tracked_before(active.slots@, j, k as int) || active.slots@[k as int] == Some(j as usize)) by {
                lemma_tracked_step(active.slots@, j, k as int);
            }
        }
        if let Some(pi) = active.slots[k] {
            if pi < plats.len() && plats[pi].tag == tag && plats[pi].status != PlatStatus::InStasis {
                plats[pi].oldstatus = plats[pi].status;
                plats[pi].status = PlatStatus::InStasis;
                plats[pi].thinker.function = ActionFn::NoAction;
            }
        }
        k = k + 1;
    }
}

/// `P_ActivateInStasis` on the platform table: every tracked platform with
/// tag `tag` in stasis resumes its saved status.
pub fn p_activate_in_stasis_raw(tag: i32, plats: &mut [PlatT], active: &ActivePlats)
    ensures
        final(plats)@.len() == old(plats)@.len(),
        forall|j: int| 0 <= j < old(plats)@.len() ==> #[trigger] final(plats)@[j] == plat_activate_result(old(plats)@, active.slots@, tag, j),
{
    let mut k: usize = 0;
    while k < MAXPLATS
        invariant
            0 <= k <= MAXPLATS,
            plats@.len() == old(plats)@.len(),
            forall|j: int| 0 <= j < old(plats)@.len() ==> #[trigger] plats@[j] == if tracked_before(active.slots@, j, k as int)
                && stasis_with_tag(old(plats)@[j], tag) {
                plat_resumed(old(plats)@[j])
            } else {
                old(plats)@[j]
            },
        decreases MAXPLATS - k,
    {
        proof {
            assert forall|j: int| 0 <= j < old(plats)@.len() implies tracked_before(active.slots@, j, k + 1)
                == (tracked_before(active.slots@, j, k as int) || active.slots@[k as int] == Some(j as usize)) by {
                lemma_tracked_step(active.slots@, j, k as int);
            }
        }
        if let Some(pi) = active.slots[k] {
            if pi < plats.len() && plats[pi].tag == tag && plats[pi].status == PlatStatus::InStasis {
                plats[pi].status = plats[pi].oldstatus;
                plats[pi].thinker.function = ActionFn::PlatRaise;
            }
        }
        k = k + 1;
    }
}

/// `P_AddActivePlat`: track `plat_idx` in the first free slot. The engine
/// aborts when every slot is taken, so a free slot is required.
pub fn p_add_active_plat(active: &mut ActivePlats, plat_idx: usize)
    requires
        first_free(old(active).slots@) != -1,
    ensures
        final(active).slots@ == old(active).slots@.update(first_free(old(active).slots@), Some(plat_idx)),
{
    let _ = active.add(plat_idx);
}

/// `P_RemoveActivePlat`: free the platform's sector, mark the platform for
/// removal from the thinker list, and stop tracking it.
pub fn p_remove_active_plat(
    plat_idx: usize,
    plats: &mut [PlatT],
    sectors: &mut [Sector],
    active: &mut ActivePlats,
)
    requires
        plat_idx < old(plats)@.len(),
        old(plats)@[plat_idx as int].sector < old(sectors)@.len(),
    ensures
        final(sectors)@ == old(sectors)@.update(
            old(plats)@[plat_idx as int].sector as int,
            Sector { specialdata: None, ..old(sectors)@[old(plats)@[plat_idx as int].sector as int] },
        ),
        final(plats)@ == old(plats)@.update(
            plat_idx as int,
            PlatT { thinker: Thinker { function: ActionFn::PendingRemoval }, ..old(plats)@[plat_idx as int] },
        ),
        first_holding(old(active).slots@, plat_idx) == -1 ==> final(active).slots@ == old(active).slots@,
        first_holding(old(active).slots@, plat_idx) != -1 ==> final(active).slots@ == old(active).slots@.update(
            first_holding(old(active).slots@, plat_idx),
            None,
        ),
{
    let sec_idx = plats[plat_idx].sector;
    sectors[sec_idx].specialdata = None;
    plats[plat_idx].thinker.function = ActionFn::PendingRemoval;
    active.remove(plat_idx);
}

/// `P_ActivateInStasis`: resume the engine's platforms in stasis tagged `tag`.
pub fn p_activate_in_stasis<C: SpecContext>(tag: i32, ctx: &mut C)
    ensures
        final(ctx).events() == old(ctx).events().push(SpecEvent::ActivatePlats(tag)),
        final(ctx).sectors_view() == old(ctx).sectors_view(),
        final(ctx).lines_view() == old(ctx).lines_view(),
        keeps_level(*old(ctx), *final(ctx)),
{
    ctx.p_activate_in_stasis_plat(tag);
}

/// Platforms that change the floor move at half [`PLATSPEED`].
pub const PLAT_SLOW_SPEED: i32 = 32768;
/// Down-wait-up-stay lifts move at four times [`PLATSPEED`].
pub const PLAT_FAST_SPEED: i32 = 262144;
/// Blazing lifts move at eight times [`PLATSPEED`].
pub const PLAT_BLAZE_SPEED: i32 = 524288;

/// The floor picture of the sector on the front side of line `line`.
pub open spec fn front_floorpic(sectors: Seq<Sector>, lines: Seq<LineDef>, sides: Seq<SideDef>, line: int) -> i16 {
    sectors[sides[lines[line].sidenum@[0] as int].sector as int].floorpic
}

/// The platforms that take a new floor picture.
pub open spec fn changes_floor(pt: PlatType) -> bool {
    pt == PlatType::RaiseAndChange || pt == PlatType::RaiseToNearestAndChange
}

/// The sound a new platform starts with, heard everywhere.
pub open spec fn plat_sound(pt: PlatType) -> SfxEnum {
    if changes_floor(pt) {
        SfxEnum::sfx_stnmov
    } else {
        SfxEnum::sfx_pstart
    }
}

/// The platform `EV_DoPlat` creates in sector `j`, given the random value
/// `roll` a perpetual platform draws for its first direction.
///
/// | kind | speed | low | high | wait | starts |
/// |---|---|---|---|---|---|
/// | raise to nearest and change | [`PLAT_SLOW_SPEED`] | floor | next higher floor | 0 | up |
/// | raise and change | [`PLAT_SLOW_SPEED`] | floor | floor + `amount` units | 0 | up |
/// | down-wait-up-stay | [`PLAT_FAST_SPEED`] | lowest floor around, at most the floor | floor | 105 | down |
/// | blazing down-wait-up-stay | [`PLAT_BLAZE_SPEED`] | the same | floor | 105 | down |
/// | perpetual raise | [`PLATSPEED`] | the same | highest neighbouring floor, at least the floor | 105 | down for an odd `roll`, else up |
///
/// None crushes; each carries the sector's tag.
pub open spec fn new_plat(pt: PlatType, sectors: Seq<Sector>, lines: Seq<LineDef>, amount: i32, j: int, roll: u8) -> PlatT {
    let s = sectors[j];
    let fh = s.floorheight;
    let lfs = lowest_floor_surrounding(sectors, lines, j);
    let hfs = highest_floor_surrounding(sectors, lines, j);
    let low = if lfs > fh.0 { fh } else { Fixed(lfs as i32) };
    let base = PlatT { plat_type: pt, crush: false, tag: s.tag as i32, ..PlatT::blank(j as usize) };
    match pt {
        PlatType::RaiseToNearestAndChange => PlatT {
            speed: Fixed(PLAT_SLOW_SPEED),
            high: Fixed(next_highest_floor(sectors, lines, j, fh.0 as int) as i32),
            wait: 0,
            status: PlatStatus::Up,
            low: fh,
            ..base
        },
        PlatType::RaiseAndChange => PlatT {
            speed: Fixed(PLAT_SLOW_SPEED),
            high: Fixed((fh.0 + amount * FRACUNIT) as i32),
            wait: 0,
            status: PlatStatus::Up,
            low: fh,
            ..base
        },
        PlatType::DownWaitUpStay => PlatT { speed: Fixed(PLAT_FAST_SPEED), low, high: fh, wait: 105, status: PlatStatus::Down, ..base },
        PlatType::BlazeDWUS => PlatT { speed: Fixed(PLAT_BLAZE_SPEED), low, high: fh, wait: 105, status: PlatStatus::Down, ..base },
        PlatType::PerpetualRaise => PlatT {
            speed: Fixed(PLATSPEED),
            low,
            high: if hfs < fh.0 { fh } else { Fixed(hfs as i32) },
            wait: 105,
            status: if (roll & 1) != 0 { PlatStatus::Down } else { PlatStatus::Up },
            ..base
        },
    }
}

/// The requests `EV_DoPlat` makes for each selected sector: the platform's
/// sound, then the platform; a perpetual platform draws one random value.
pub open spec fn plat_spawn(pt: PlatType, sectors: Seq<Sector>, lines: Seq<LineDef>, amount: i32) -> spec_fn(int, DoomRandom) -> (Seq<SpecEvent>, DoomRandom) {
    |j: int, r: DoomRandom|
        if pt == PlatType::PerpetualRaise {
            (seq![SpecEvent::Sound { origin: None, sfx: plat_sound(pt) }, SpecEvent::AddPlat(new_plat(pt, sectors, lines, amount, j, r.next_p()))], r.advanced())
        } else {
            (seq![SpecEvent::Sound { origin: None, sfx: plat_sound(pt) }, SpecEvent::AddPlat(new_plat(pt, sectors, lines, amount, j, 0))], r)
        }
}

/// A sector after `EV_DoPlat` of kind `pt` chose it, `pic` being the front
/// floor picture: a changing platform takes `pic`, and a raise to nearest
/// also loses the sector's special.
pub open spec fn plat_sector(pt: PlatType, s: Sector, pic: i16) -> Sector {
    match pt {
        PlatType::RaiseToNearestAndChange => Sector { floorpic: pic, special: 0, ..s },
        PlatType::RaiseAndChange => Sector { floorpic: pic, ..s },
        _ => s,
    }
}

/// `cur` is `s0` after `EV_DoPlat` chose the sectors up to index `upto`
/// that `s0` had free and tagged `tag`: those are now occupied and changed
/// as [`plat_sector`] states, the others are as they were.
pub open spec fn plats_upto(s0: Seq<Sector>, cur: Seq<Sector>, tag: i16, upto: int, pt: PlatType, pic: i16) -> bool {
    &&& cur.len() == s0.len()
    &&& forall|j: int| 0 <= j < s0.len() ==> #[trigger] cur[j] == if j <= upto && free_tagged(s0[j], tag) {
        Sector { specialdata: cur[j].specialdata, ..plat_sector(pt, s0[j], pic) }
    } else {
        s0[j]
    }
    &&& forall|j: int| 0 <= j <= upto && 0 <= j < s0.len() && free_tagged(s0[j], tag) ==> (#[trigger] cur[j]).specialdata is Some
}

/// Every sector a raise-and-change platform would move has room: the raise
/// and the new height fit fixed-point values.
pub open spec fn plat_raise_fits(sectors: Seq<Sector>, tag: i16, amount: i32) -> bool {
    forall|j: int| 0 <= j < sectors.len() && free_tagged(#[trigger] sectors[j], tag) ==> {
        &&& i32::MIN <= amount * FRACUNIT <= i32::MAX
        &&& i32::MIN <= sectors[j].floorheight.0 + amount * FRACUNIT <= i32::MAX
    }
}

/// [`plats_upto`] keeps what the searches read, and the sectors after `upto`.
pub proof fn lemma_plats_geometry(s0: Seq<Sector>, cur: Seq<Sector>, tag: i16, upto: int, pt: PlatType, pic: i16)
    requires
        plats_upto(s0, cur, tag, upto, pt, pic),
        upto >= -1,
    ensures
        same_geometry(s0, cur),
        forall|j: int| upto < j < s0.len() ==> #[trigger] cur[j] == s0[j],
{
    assert forall|i: int| 0 <= i < s0.len() implies {
        &&& #[trigger] s0[i].lines@ == cur[i].lines@
        &&& s0[i].floorheight == cur[i].floorheight
        &&& s0[i].ceilingheight == cur[i].ceilingheight
        &&& s0[i].lightlevel == cur[i].lightlevel
        &&& s0[i].tag == cur[i].tag
    } by {
        assert(cur[i] == if i <= upto && free_tagged(s0[i], tag) {
            Sector { specialdata: cur[i].specialdata, ..plat_sector(pt, s0[i], pic) }
        } else {
            s0[i]
        });
    }
    assert forall|j: int| upto < j < s0.len() implies #[trigger] cur[j] == s0[j] by {
        assert(cur[j] == if j <= upto && free_tagged(s0[j], tag) {
            Sector { specialdata: cur[j].specialdata, ..plat_sector(pt, s0[j], pic) }
        } else {
            s0[j]
        });
    }
}

/// What `EV_DoPlat` on line `line_idx` does, going from `pre` to `post`
/// and returning `rtn`: see [`ev_do_plat`].
pub open spec fn plats_done<C: SpecContext>(pre: C, post: C, line_idx: usize, pt: PlatType, amount: i32, rtn: bool) -> bool {
    let tag = pre.lines_view()[line_idx as int].tag;
    let s0 = pre.sectors_view();
    let l0 = pre.lines_view();
    let first: Seq<SpecEvent> = if pt == PlatType::PerpetualRaise { seq![SpecEvent::ActivatePlats(tag as i32)] } else { seq![] };
    let spawned = tagged_spawns(s0, tag, 0, pre.rng_view(), plat_spawn(pt, s0, l0, amount));
    &&& post.events() == pre.events() + first + spawned.0
    &&& post.rng_view() == spawned.1
    &&& rtn == any_free_tagged(s0, tag, 0)
    &&& plats_upto(s0, post.sectors_view(), tag, s0.len() as int, pt, front_floorpic(s0, l0, pre.sides_view(), line_idx as int))
    &&& post.lines_view() == l0
    &&& post.sides_view() == pre.sides_view()
    &&& post.mobj_players_view() == pre.mobj_players_view()
    &&& post.player_cards_view() == pre.player_cards_view()
    &&& forall|g: usize| #[trigger] post.door_direction_view(g) == pre.door_direction_view(g)
}

/// `EV_DoPlat`: a perpetual platform first resumes its tag's platforms in
/// stasis. Then for every sector tagged like the line that no mover
/// occupies, in order: a changing platform gives the sector the floor
/// picture of the line's front sector (and a raise to nearest clears its
/// special), the platform's sound starts, and the platform [`new_plat`]
/// states is registered, occupying the sector. Returns whether any platform
/// was created.
pub fn ev_do_plat<C: SpecContext>(line_idx: usize, plat_type: PlatType, amount: i32, ctx: &mut C) -> (rtn: bool)
    requires
        line_idx < old(ctx).lines_view().len(),
        level_wf(old(ctx).sectors_view(), old(ctx).lines_view()),
        old(ctx).sectors_view().len() < i32::MAX,
        changes_floor(plat_type) ==> sides_wf(old(ctx).sectors_view(), old(ctx).lines_view(), old(ctx).sides_view()),
        plat_type == PlatType::RaiseAndChange ==> plat_raise_fits(old(ctx).sectors_view(), old(ctx).lines_view()[line_idx as int].tag, amount),
    ensures
        plats_done(*old(ctx), *final(ctx), line_idx, plat_type, amount, rtn),
{
    let tag = ctx.lines()[line_idx].tag;
    if plat_type == PlatType::PerpetualRaise {
        p_activate_in_stasis(tag as i32, ctx);
    }
    let ghost e0 = old(ctx).events();
    let ghost s0 = ctx.sectors_view();
    let ghost l0 = ctx.lines_view();
    let ghost sd0 = ctx.sides_view();
    let ghost r0 = ctx.rng_view();
    let ghost pic = front_floorpic(s0, l0, sd0, line_idx as int);
    let ghost f = plat_spawn(plat_type, s0, l0, amount);
    let ghost all = tagged_spawns(s0, tag, 0, r0, f);
    let ghost base = ctx.events();
    proof {
        assert(base == e0 + (if plat_type == PlatType::PerpetualRaise { seq![SpecEvent::ActivatePlats(tag as i32)] } else { seq![] }));
    }
    let mut rtn = false;
    let mut secnum: i32 = -1;
    loop
        invariant_except_break
            -1 <= secnum < s0.len(),
            s0.len() < i32::MAX,
            line_idx < l0.len(),
            tag == l0[line_idx as int].tag,
            level_wf(s0, l0),
            changes_floor(plat_type) ==> sides_wf(s0, l0, sd0),
            plat_type == PlatType::RaiseAndChange ==> plat_raise_fits(s0, tag, amount),
            f == plat_spawn(plat_type, s0, l0, amount),
            pic == front_floorpic(s0, l0, sd0, line_idx as int),
            all == tagged_spawns(s0, tag, 0, r0, f),
            ctx.lines_view() == l0,
            ctx.sides_view() == sd0,
            sd0 == old(ctx).sides_view(),
            ctx.mobj_players_view() == old(ctx).mobj_players_view(),
            ctx.player_cards_view() == old(ctx).player_cards_view(),
            forall|g: usize| #[trigger] ctx.door_direction_view(g) == old(ctx).door_direction_view(g),
            plats_upto(s0, ctx.sectors_view(), tag, secnum as int, plat_type, pic),
            base + all.0 == ctx.events() + tagged_spawns(s0, tag, secnum + 1, ctx.rng_view(), f).0,
            all.1 == tagged_spawns(s0, tag, secnum + 1, ctx.rng_view(), f).1,
            rtn == exists|j: int| 0 <= j <= secnum && free_tagged(#[trigger] s0[j], tag),
        ensures
            base + all.0 == ctx.events(),
            all.1 == ctx.rng_view(),
            rtn == any_free_tagged(s0, tag, 0),
            plats_upto(s0, ctx.sectors_view(), tag, s0.len() as int, plat_type, pic),
            ctx.lines_view() == l0,
            ctx.sides_view() == old(ctx).sides_view(),
            ctx.mobj_players_view() == old(ctx).mobj_players_view(),
            ctx.player_cards_view() == old(ctx).player_cards_view(),
            forall|g: usize| #[trigger] ctx.door_direction_view(g) == old(ctx).door_direction_view(g),
        decreases s0.len() - secnum,
    {
        let ghost prev = secnum;
        let ghost rng_now = ctx.rng_view();
        proof {
            lemma_plats_geometry(s0, ctx.sectors_view(), tag, prev as int, plat_type, pic);
            lemma_find_same_geometry(s0, ctx.sectors_view(), tag, prev + 1);
            lemma_find_tagged_from(s0, tag, prev + 1);
        }
        secnum = p_find_sector_from_line_tag(&ctx.lines()[line_idx], secnum, ctx.sectors());
        if secnum < 0 {
            proof {
                lemma_tagged_spawns_skip(s0, tag, prev + 1, s0.len() as int, rng_now, f);
                assert(base + all.0 =~= ctx.events());
                assert(rtn == any_free_tagged(s0, tag, 0)) by {
                    if any_free_tagged(s0, tag, 0) {
                        let j = choose|j: int| 0 <= j < s0.len() && free_tagged(#[trigger] s0[j], tag);
                        if j > prev {
                            assert(s0[j].tag != tag);
                        }
                    }
                }
                let cur = ctx.sectors_view();
                assert forall|j: int| 0 <= j < s0.len() implies #[trigger] cur[j] == if j <= s0.len() && free_tagged(s0[j], tag) {
                    Sector { specialdata: cur[j].specialdata, ..plat_sector(plat_type, s0[j], pic) }
                } else {
                    s0[j]
                } by {
                    if j > prev {
                        assert(s0[j].tag != tag);
                        assert(cur[j] == s0[j]);
                    }
                }
                assert forall|j: int| 0 <= j <= s0.len() && 0 <= j < s0.len() && free_tagged(s0[j], tag) implies (#[trigger] cur[j]).specialdata is Some by {
                    if j > prev {
                        assert(s0[j].tag != tag);
                    }
                }
            }
            break;
        }
        let sec_idx = secnum as usize;
        proof {
            lemma_tagged_spawns_skip(s0, tag, prev + 1, secnum as int, rng_now, f);
            assert(ctx.sectors_view()[sec_idx as int] == s0[sec_idx as int]);
        }
        if ctx.sectors()[sec_idx].specialdata.is_some() {
            proof {
                let cur = ctx.sectors_view();
                assert forall|j: int| 0 <= j < s0.len() implies #[trigger] cur[j] == if j <= secnum && free_tagged(s0[j], tag) {
                    Sector { specialdata: cur[j].specialdata, ..plat_sector(plat_type, s0[j], pic) }
                } else {
                    s0[j]
                } by {
                    if j > prev && j < secnum {
                        assert(s0[j].tag != tag);
                    }
                }
                assert(rtn == exists|j: int| 0 <= j <= secnum && free_tagged(#[trigger] s0[j], tag)) by {
                    if exists|j: int| 0 <= j <= secnum && free_tagged(#[trigger] s0[j], tag) {
                        let j = choose|j: int| 0 <= j <= secnum && free_tagged(#[trigger] s0[j], tag);
                        if j > prev && j < secnum {
                            assert(s0[j].tag != tag);
                        }
                    }
                }
            }
            continue;
        }
        rtn = true;
        let ghost before = ctx.sectors_view();
        let ghost ev_before = ctx.events();
        proof {
            let fh0 = s0[sec_idx as int].floorheight.0 as int;
            let n = s0[sec_idx as int].lines@.len() as int;
            lemma_wf_same_geometry(s0, before, l0);
            lemma_steps_same_geometry(s0, before, fh0);
            lemma_fold_same_geometry(s0, before, l0, sec_idx as int, -500 * FRACUNIT, n, step_highest_floor());
            lemma_fold_same_geometry(s0, before, l0, sec_idx as int, fh0, n, step_lowest_floor());
            lemma_fold_same_geometry(s0, before, l0, sec_idx as int, i32::MAX as int + 1, n, step_next_floor(fh0));
            assert(free_tagged(s0[secnum as int], tag));
        }
        let fh = ctx.sectors()[sec_idx].floorheight;
        let mut plat = PlatT::new(sec_idx);
        plat.plat_type = plat_type;
        plat.crush = false;
        plat.tag = ctx.sectors()[sec_idx].tag as i32;
        let ghost roll: u8 = if plat_type == PlatType::PerpetualRaise { rng_now.next_p() } else { 0 };
        match plat_type {
            PlatType::RaiseToNearestAndChange => {
                plat.speed = Fixed(PLAT_SLOW_SPEED);
                let front_side_idx = ctx.lines()[line_idx].sidenum[0] as usize;
                let front_sec = ctx.sides()[front_side_idx].sector;
                proof {
                    assert(ctx.sectors_view()[front_sec as int] == if front_sec <= prev && free_tagged(s0[front_sec as int], tag) {
                        Sector { specialdata: ctx.sectors_view()[front_sec as int].specialdata, ..plat_sector(plat_type, s0[front_sec as int], pic) }
                    } else {
                        s0[front_sec as int]
                    });
                }
                let new_floorpic = ctx.sectors()[front_sec].floorpic;
                plat.high = p_find_next_highest_floor(sec_idx, fh, ctx.sectors(), ctx.lines());
                plat.wait = 0;
                plat.status = PlatStatus::Up;
                plat.low = fh;
                ctx.set_sector_floorpic(sec_idx, new_floorpic);
                ctx.set_sector_special(sec_idx, 0);
                ctx.s_start_sound(None, SfxEnum::sfx_stnmov);
            },
            PlatType::RaiseAndChange => {
                plat.speed = Fixed(PLAT_SLOW_SPEED);
                let front_side_idx = ctx.lines()[line_idx].sidenum[0] as usize;
                let front_sec = ctx.sides()[front_side_idx].sector;
                proof {
                    assert(ctx.sectors_view()[front_sec as int] == if front_sec <= prev && free_tagged(s0[front_sec as int], tag) {
                        Sector { specialdata: ctx.sectors_view()[front_sec as int].specialdata, ..plat_sector(plat_type, s0[front_sec as int], pic) }
                    } else {
                        s0[front_sec as int]
                    });
                }
                let new_floorpic = ctx.sectors()[front_sec].floorpic;
                plat.high = Fixed(fh.0 + amount * FRACUNIT);
                plat.wait = 0;
                plat.status = PlatStatus::Up;
                plat.low = fh;
                ctx.set_sector_floorpic(sec_idx, new_floorpic);
                ctx.s_start_sound(None, SfxEnum::sfx_stnmov);
            },
            PlatType::DownWaitUpStay => {
                plat.speed = Fixed(PLATSPEED * 4);
                plat.low = p_find_lowest_floor_surrounding(sec_idx, ctx.sectors(), ctx.lines());
                if plat.low.0 > fh.0 {
                    plat.low = fh;
                }
                plat.high = fh;
                plat.wait = PLATWAIT * 35;
                plat.status = PlatStatus::Down;
                ctx.s_start_sound(None, SfxEnum::sfx_pstart);
            },
            PlatType::BlazeDWUS => {
                plat.speed = Fixed(PLATSPEED * 8);
                plat.low = p_find_lowest_floor_surrounding(sec_idx, ctx.sectors(), ctx.lines());
                if plat.low.0 > fh.0 {
                    plat.low = fh;
                }
                plat.high = fh;
                plat.wait = PLATWAIT * 35;
                plat.status = PlatStatus::Down;
                ctx.s_start_sound(None, SfxEnum::sfx_pstart);
            },
            PlatType::PerpetualRaise => {
                plat.speed = Fixed(PLATSPEED);
                plat.low = p_find_lowest_floor_surrounding(sec_idx, ctx.sectors(), ctx.lines());
                if plat.low.0 > fh.0 {
                    plat.low = fh;
                }
                plat.high = p_find_highest_floor_surrounding(sec_idx, ctx.sectors(), ctx.lines());
                if plat.high.0 < fh.0 {
                    plat.high = fh;
                }
                plat.wait = PLATWAIT * 35;
                let rng_val = ctx.p_random();
                plat.status = if (rng_val & 1) != 0 { PlatStatus::Down } else { PlatStatus::Up };
                ctx.s_start_sound(None, SfxEnum::sfx_pstart);
            },
        }
        assert(plat == new_plat(plat_type, s0, l0, amount, sec_idx as int, roll));
        let ghost ev_mid = ctx.events();
        let ghost mid = ctx.sectors_view();
        ctx.p_add_thinker_plat(plat);
        proof {
            assert(ev_mid == ev_before.push(SpecEvent::Sound { origin: None, sfx: plat_sound(plat_type) }));
            assert(f(secnum as int, rng_now).0 =~= seq![SpecEvent::Sound { origin: None, sfx: plat_sound(plat_type) }, SpecEvent::AddPlat(plat)]);
            assert(f(secnum as int, rng_now).1 == ctx.rng_view());
            assert(tagged_spawns(s0, tag, secnum as int, rng_now, f).0 == f(secnum as int, rng_now).0 + tagged_spawns(s0, tag, secnum + 1, ctx.rng_view(), f).0);
            assert(ctx.events() == ev_mid.push(SpecEvent::AddPlat(plat)));
            let cur = ctx.sectors_view();
            assert(mid[secnum as int] == plat_sector(plat_type, before[secnum as int], pic));
            assert forall|j: int| 0 <= j < s0.len() implies #[trigger] cur[j] == if j <= secnum && free_tagged(s0[j], tag) {
                Sector { specialdata: cur[j].specialdata, ..plat_sector(plat_type, s0[j], pic) }
            } else {
                s0[j]
            } by {
                if j > prev && j < secnum {
                    assert(s0[j].tag != tag);
                }
                if j != secnum {
                    assert(cur[j] == mid[j]);
                    assert(mid[j] == before[j]);
                }
            }
            assert forall|j: int| 0 <= j <= secnum && 0 <= j < s0.len() && free_tagged(s0[j], tag) implies (#[trigger] cur[j]).specialdata is Some by {
                if j > prev && j < secnum {
                    assert(s0[j].tag != tag);
                }
                if j != secnum {
                    assert(cur[j] == mid[j]);
                    assert(mid[j] == before[j]);
                }
            }
            assert(base + all.0 =~= ctx.events() + tagged_spawns(s0, tag, secnum + 1, ctx.rng_view(), f).0);
        }
    }
    rtn
}

/// Law: stopping a tag's platforms (`EV_StopPlat`) and then reactivating
/// the tag (`P_ActivateInStasis`) gives every platform back as it was, a
/// stopped one keeping its status as its saved status; this holds for a
/// platform that, when tracked with the tag, was active and running.
pub proof fn law_stop_plat_then_activate(ps: Seq<PlatT>, slots: Seq<Option<usize>>, tag: i32, j: int)
    requires
        0 <= j < ps.len(),
        tracked_before(slots, j, slots.len() as int) && ps[j].tag == tag ==> ps[j].status != PlatStatus::InStasis
            && ps[j].thinker.function == ActionFn::PlatRaise,
    ensures
        plat_activate_result(Seq::new(ps.len(), |k: int| plat_stop_result(ps, slots, tag, k)), slots, tag, j) == if tracked_before(
            slots,
            j,
            slots.len() as int,
        ) && ps[j].tag == tag {
            PlatT { oldstatus: ps[j].status, ..ps[j] }
        } else {
            ps[j]
        },
{
    let mid = Seq::new(ps.len(), |k: int| plat_stop_result(ps, slots, tag, k));
    assert(mid[j] == plat_stop_result(ps, slots, tag, j));
}

} // verus!
