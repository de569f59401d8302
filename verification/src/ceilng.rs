//! Ceiling movers: crushers and raising/lowering ceilings.

use vstd::prelude::*;
use crate::fixed::{Fixed, FRACUNIT};
use crate::floor::{plane_answer, change_callable, plane_height, plane_move_fits, plane_step, sound_callable, t_move_plane, with_plane};
use crate::spec::{
    any_free_tagged, free_tagged, highest_ceiling_surrounding, lemma_find_same_geometry, lemma_find_tagged_from,
    lemma_fold_same_geometry, lemma_occupied_geometry, lemma_steps_same_geometry, lemma_tagged_spawns_skip,
    lemma_wf_same_geometry, level_wf, occupied_upto, p_find_highest_ceiling_surrounding,
    p_find_sector_from_line_tag, step_highest_ceiling, tagged_spawns, CeilingT, CeilingType, ResultE, SpecContext,
    SpecEvent,
};
use crate::random::DoomRandom;
use crate::types::{ActionFn, LineDef, SfxEnum, Sector};

verus! {

/// Maximum number of simultaneously tracked ceiling movers.
pub const MAXCEILINGS: usize = 30;

/// Default ceiling speed (1.0 per tic).
pub const CEILSPEED: i32 = 65536;

/// Index of the first free slot at or after `from`, or -1.
pub open spec fn free_from(slots: Seq<Option<usize>>, from: int) -> int
    decreases slots.len() - from,
{
    if from < 0 || from >= slots.len() {
        -1
    } else if slots[from] is None {
        from
    } else {
        free_from(slots, from + 1)
    }
}

/// Index of the first free slot, or -1 when all are taken.
pub open spec fn first_free(slots: Seq<Option<usize>>) -> int {
    free_from(slots, 0)
}

/// Index of the first slot at or after `from` holding `idx`, or -1.
pub open spec fn holding_from(slots: Seq<Option<usize>>, idx: usize, from: int) -> int
    decreases slots.len() - from,
{
    if from < 0 || from >= slots.len() {
        -1
    } else if slots[from] == Some(idx) {
        from
    } else {
        holding_from(slots, idx, from + 1)
    }
}

/// Index of the first slot holding `idx`, or -1.
pub open spec fn first_holding(slots: Seq<Option<usize>>, idx: usize) -> int {
    holding_from(slots, idx, 0)
}

/// Place `idx` in the first free slot; returns the slot, or `None` when full.
pub fn slots_add(slots: &mut [Option<usize>], idx: usize) -> (r: Option<usize>)
    ensures
        first_free(old(slots)@) == -1 ==> r is None && final(slots)@ == old(slots)@,
        first_free(old(slots)@) != -1 ==> r == Some(first_free(old(slots)@) as usize)
            && final(slots)@ == old(slots)@.update(first_free(old(slots)@), Some(idx)),
{
    let mut i: usize = 0;
    while i < slots.len()
        invariant
            slots@ == old(slots)@,
            0 <= i <= slots@.len(),
            free_from(slots@, 0) == free_from(slots@, i as int),
        decreases slots@.len() - i,
    {
        if slots[i].is_none() {
            slots[i] = Some(idx);
            return Some(i);
        }
        i = i + 1;
    }
    None
}

/// Clear the first slot holding `idx`, if any.
pub fn slots_remove(slots: &mut [Option<usize>], idx: usize)
    ensures
        first_holding(old(slots)@, idx) == -1 ==> final(slots)@ == old(slots)@,
        first_holding(old(slots)@, idx) != -1 ==> final(slots)@ == old(slots)@.update(first_holding(old(slots)@, idx), None),
{
    let mut i: usize = 0;
    while i < slots.len()
        invariant
            slots@ == old(slots)@,
            0 <= i <= slots@.len(),
            holding_from(slots@, idx, 0) == holding_from(slots@, idx, i as int),
        decreases slots@.len() - i,
    {
        if slots[i] == Some(idx) {
            slots[i] = None;
            return;
        }
        i = i + 1;
    }
}

/// Tracks the active ceiling movers, so that crushers can be stopped and
/// restarted by tag. Each slot holds the index of a ceiling mover or is free.
#[derive(Debug)]
pub struct ActiveCeilings {
    pub slots: [Option<usize>; MAXCEILINGS],
}

impl ActiveCeilings {
    /// All slots free.
    pub fn new() -> (r: ActiveCeilings)
        ensures
            forall|i: int| 0 <= i < MAXCEILINGS ==> r.slots@[i] is None,
    {
        ActiveCeilings { slots: [None; MAXCEILINGS] }
    }

    /// Track `ceiling_idx` in the first free slot. Returns that slot, or
    /// `None` (changing nothing) when every slot is taken.
    pub fn add(&mut self, ceiling_idx: usize) -> (r: Option<usize>)
        ensures
            first_free(old(self).slots@) == -1 ==> r is None && final(self).slots@ == old(self).slots@,
            first_free(old(self).slots@) != -1 ==> r == Some(first_free(old(self).slots@) as usize)
                && final(self).slots@ == old(self).slots@.update(first_free(old(self).slots@), Some(ceiling_idx)),
    {
        slots_add(&mut self.slots, ceiling_idx)
    }

    /// Free the first slot tracking `ceiling_idx`; no change when there is none.
    pub fn remove(&mut self, ceiling_idx: usize)
        ensures
            first_holding(old(self).slots@, ceiling_idx) == -1 ==> final(self).slots@ == old(self).slots@,
            first_holding(old(self).slots@, ceiling_idx) != -1 ==> final(self).slots@
                == old(self).slots@.update(first_holding(old(self).slots@, ceiling_idx), None),
    {
        slots_remove(&mut self.slots, ceiling_idx)
    }
}

impl Default for ActiveCeilings {
    fn default() -> (r: ActiveCeilings)
        ensures
            forall|i: int| 0 <= i < MAXCEILINGS ==> r.slots@[i] is None,
    {
        ActiveCeilings::new()
    }
}

/// The sound a ceiling mover makes while moving this tic: the stone-grind
/// every 8 tics, except for the silent crusher.
pub open spec fn ceiling_move_sound(c: CeilingT, leveltime: i32) -> Seq<SfxEnum> {
    if (leveltime & 7) == 0 && c.ceiling_type != CeilingType::SilentCrushAndRaise {
        seq![SfxEnum::sfx_stnmov]
    } else {
        seq![]
    }
}

/// What a moving ceiling mover does after its plane moved with result
/// `res`: the updated mover, whether it is finished, and the sounds it makes.
///
/// Going up, reaching the top finishes `RaiseToHighest` and turns the
/// crushers back down (the silent one with a stop sound). Going down,
/// reaching the bottom turns the crushers back up (restoring normal speed
/// except for the fast one; the silent one with a stop sound) and finishes
/// `LowerAndCrush` and `LowerToFloor`; being blocked slows the slow
/// crushers and `LowerAndCrush` to 1/8 speed.
pub open spec fn ceiling_reaction(c: CeilingT, res: ResultE, leveltime: i32) -> (CeilingT, bool, Seq<SfxEnum>) {
    let mv = ceiling_move_sound(c, leveltime);
    if c.direction == 1 {
        if res == ResultE::PastDest {
            match c.ceiling_type {
                CeilingType::RaiseToHighest => (c, true, mv),
                CeilingType::SilentCrushAndRaise => (CeilingT { direction: -1i32, ..c }, false, mv.push(SfxEnum::sfx_pstop)),
                CeilingType::FastCrushAndRaise | CeilingType::CrushAndRaise => (CeilingT { direction: -1i32, ..c }, false, mv),
                _ => (c, false, mv),
            }
        } else {
            (c, false, mv)
        }
    } else if c.direction == -1 {
        if res == ResultE::PastDest {
            match c.ceiling_type {
                CeilingType::SilentCrushAndRaise => (CeilingT { speed: Fixed(CEILSPEED), direction: 1, ..c }, false, mv.push(SfxEnum::sfx_pstop)),
                CeilingType::CrushAndRaise => (CeilingT { speed: Fixed(CEILSPEED), direction: 1, ..c }, false, mv),
                CeilingType::FastCrushAndRaise => (CeilingT { direction: 1, ..c }, false, mv),
                CeilingType::LowerAndCrush | CeilingType::LowerToFloor => (c, true, mv),
                _ => (c, false, mv),
            }
        } else if res == ResultE::Crushed {
            match c.ceiling_type {
                CeilingType::SilentCrushAndRaise | CeilingType::CrushAndRaise | CeilingType::LowerAndCrush =>
                    (CeilingT { speed: Fixed(8192), ..c }, false, mv),
                _ => (c, false, mv),
            }
        } else {
            (c, false, mv)
        }
    } else {
        (c, false, seq![])
    }
}

/// The reaction of a ceiling mover to the result of its plane move
/// (see [`ceiling_reaction`]): the updated mover, whether it is finished,
/// and the sounds to play, in order.
pub fn ceiling_transition(ceiling: &CeilingT, res: ResultE, leveltime: i32) -> (r: (CeilingT, bool, Vec<SfxEnum>))
    ensures
        (r.0, r.1, r.2@) == ceiling_reaction(*ceiling, res, leveltime),
{
    let mut sounds: Vec<SfxEnum> = Vec::new();
    let mut c = *ceiling;
    if c.direction != 1 && c.direction != -1 {
        return (c, false, sounds);
    }
    if (leveltime & 7) == 0 && c.ceiling_type != CeilingType::SilentCrushAndRaise {
        sounds.push(SfxEnum::sfx_stnmov);
    }
    let mut remove = false;
    if c.direction == 1 {
        if res == ResultE::PastDest {
            match c.ceiling_type {
                CeilingType::RaiseToHighest => {
                    remove = true;
                },
                CeilingType::SilentCrushAndRaise => {
                    sounds.push(SfxEnum::sfx_pstop);
                    c.direction = -1;
                },
                CeilingType::FastCrushAndRaise | CeilingType::CrushAndRaise => {
                    c.direction = -1;
                },
                _ => {},
            }
        }
    } else {
        if res == ResultE::PastDest {
            match c.ceiling_type {
                CeilingType::SilentCrushAndRaise => {
                    sounds.push(SfxEnum::sfx_pstop);
                    c.speed = Fixed(CEILSPEED);
                    c.direction = 1;
                },
                CeilingType::CrushAndRaise => {
                    c.speed = Fixed(CEILSPEED);
                    c.direction = 1;
                },
                CeilingType::FastCrushAndRaise => {
                    c.direction = 1;
                },
                CeilingType::LowerAndCrush | CeilingType::LowerToFloor => {
                    remove = true;
                },
                _ => {},
            }
        } else if res == ResultE::Crushed {
            match c.ceiling_type {
                CeilingType::SilentCrushAndRaise | CeilingType::CrushAndRaise | CeilingType::LowerAndCrush => {
                    c.speed = Fixed(8192);
                },
                _ => {},
            }
        }
    }
    proof {
        let mv = ceiling_move_sound(*ceiling, leveltime);
        assert(sounds@ =~= ceiling_reaction(*ceiling, res, leveltime).2);
    }
    (c, remove, sounds)
}

/// Where a ceiling mover's plane is headed and whether it crushes on the way:
/// up to `topheight` without crushing, down to `bottomheight` with the
/// mover's crush flag.
pub open spec fn ceiling_dest(c: CeilingT) -> (i32, bool) {
    if c.direction == 1 {
        (c.topheight.0, false)
    } else {
        (c.bottomheight.0, c.crush)
    }
}

/// `gs` are the states of a sound callback at each of its calls, starting
/// from `first`, and the `i`-th call was handed `sounds[i]`.
pub open spec fn played<G: FnMut(SfxEnum)>(first: G, gs: Seq<G>, sounds: Seq<SfxEnum>) -> bool {
    &&& gs.len() == sounds.len()
    &&& sounds.len() > 0 ==> gs[0] == first
    &&& forall|i: int| 0 <= i < sounds.len() ==> call_ensures(#[trigger] gs[i], (sounds[i],), ())
}

/// Play `sounds` in order: `sound_fn` is called once with each of them.
pub fn play_sounds<G: FnMut(SfxEnum)>(sounds: &Vec<SfxEnum>, sound_fn: &mut G)
    requires
        sound_callable::<G>(),
    ensures
        exists|gs: Seq<G>| #[trigger] played(*old(sound_fn), gs, sounds@),
{
    let mut i: usize = 0;
    let ghost mut gs: Seq<G> = Seq::empty();
    while i < sounds.len()
        invariant
            sound_callable::<G>(),
            i <= sounds@.len(),
            played(*old(sound_fn), gs, sounds@.subrange(0, i as int)),
            i == 0 ==> *sound_fn == *old(sound_fn),
        decreases sounds@.len() - i,
    {
        let ghost g = *sound_fn;
        sound_fn(sounds[i]);
        proof {
            gs = gs.push(g);
            assert(sounds@.subrange(0, i + 1).drop_last() =~= sounds@.subrange(0, i as int));
            assert forall|j: int| 0 <= j < i + 1 implies call_ensures(#[trigger] gs[j], (sounds@.subrange(0, i + 1)[j],), ()) by {
                if j < i {
                    assert(sounds@.subrange(0, i + 1)[j] == sounds@.subrange(0, i as int)[j]);
                }
            }
        }
        i = i + 1;
    }
    proof {
        assert(sounds@.subrange(0, i as int) =~= sounds@);
    }
}

/// `T_MoveCeiling`: one tic of a ceiling mover. A mover in stasis
/// (direction 0) does nothing. Otherwise the sector's ceiling moves toward
/// the mover's destination (see [`t_move_plane`]) and the mover reacts to
/// the result as [`ceiling_reaction`] states; its sounds go to `sound_fn`.
/// Returns `true` when the mover is finished and must be removed.
pub fn t_move_ceiling<F: FnMut(bool) -> bool, G: FnMut(SfxEnum)>(
    ceiling: &mut CeilingT,
    sector: &mut Sector,
    leveltime: i32,
    change_sector_fn: &mut F,
    sound_fn: &mut G,
) -> (remove: bool)
    requires
        change_callable::<F>(),
        sound_callable::<G>(),
        plane_move_fits(old(sector).ceilingheight.0 as int, old(ceiling).speed.0 as int, old(ceiling).direction),
    ensures
        old(ceiling).direction != 1 && old(ceiling).direction != -1 ==> !remove && *final(ceiling) == *old(
            ceiling,
        ) && *final(sector) == *old(sector) && *final(sound_fn) == *old(sound_fn),
        old(ceiling).direction == 1 || old(ceiling).direction == -1 ==> exists|blocked: bool|
            {
                let (h, r) = #[trigger] plane_step(
                    old(sector).ceilingheight.0 as int,
                    old(ceiling).speed.0 as int,
                    ceiling_dest(*old(ceiling)).0 as int,
                    ceiling_dest(*old(ceiling)).1,
                    1,
                    old(ceiling).direction,
                    blocked,
                );
                &&& *final(sector) == with_plane(*old(sector), 1, h)
                &&& *final(ceiling) == ceiling_reaction(*old(ceiling), r, leveltime).0
                &&& remove == ceiling_reaction(*old(ceiling), r, leveltime).1
                &&& plane_answer::<F>(
                    old(sector).ceilingheight.0 as int,
                    old(ceiling).speed.0 as int,
                    ceiling_dest(*old(ceiling)).0 as int,
                    ceiling_dest(*old(ceiling)).1,
                    1,
                    old(ceiling).direction,
                    blocked,
                )
                &&& exists|gs: Seq<G>| #[trigger] played(*old(sound_fn), gs, ceiling_reaction(*old(ceiling), r, leveltime).2)
            },
{
    if ceiling.direction != 1 && ceiling.direction != -1 {
        return false;
    }
    let (dest, crush) = if ceiling.direction == 1 {
        (ceiling.topheight, false)
    } else {
        (ceiling.bottomheight, ceiling.crush)
    };
    let ghost s0 = *sector;
    let res = t_move_plane(sector, ceiling.speed, dest, crush, 1, ceiling.direction, change_sector_fn);
    let ghost blocked = choose|b: bool|
        {
            let (h, r) = #[trigger] plane_step(plane_height(s0, 1), ceiling.speed.0 as int, dest.0 as int, crush, 1, ceiling.direction, b);
            *sector == with_plane(s0, 1, h) && res == r
                && plane_answer::<F>(plane_height(s0, 1), ceiling.speed.0 as int, dest.0 as int, crush, 1, ceiling.direction, b)
        };
    assert({
        let (h, r) = plane_step(plane_height(s0, 1), ceiling.speed.0 as int, dest.0 as int, crush, 1, ceiling.direction, blocked);
        *sector == with_plane(s0, 1, h) && res == r
            && plane_answer::<F>(plane_height(s0, 1), ceiling.speed.0 as int, dest.0 as int, crush, 1, ceiling.direction, blocked)
    });
    let (next, remove, sounds) = ceiling_transition(ceiling, res, leveltime);
    *ceiling = next;
    play_sounds(&sounds, sound_fn);
    proof {
        let gs = choose|gs: Seq<G>| #[trigger] played(*old(sound_fn), gs, sounds@);
        assert(sounds@ == ceiling_reaction(*old(ceiling), res, leveltime).2);
        assert(played(*old(sound_fn), gs, ceiling_reaction(*old(ceiling), res, leveltime).2));
    }
    assert(plane_height(s0, 1) == s0.ceilingheight.0 as int);
    assert(s0 == *old(sector));
    assert(dest.0 == ceiling_dest(*old(ceiling)).0);
    assert(crush == ceiling_dest(*old(ceiling)).1);
    assert({
        let (h, r) = plane_step(old(sector).ceilingheight.0 as int, old(ceiling).speed.0 as int, ceiling_dest(*old(ceiling)).0 as int, ceiling_dest(*old(ceiling)).1, 1, old(ceiling).direction, blocked);
        &&& *sector == with_plane(*old(sector), 1, h)
        &&& *ceiling == ceiling_reaction(*old(ceiling), r, leveltime).0
        &&& remove == ceiling_reaction(*old(ceiling), r, leveltime).1
        &&& plane_answer::<F>(old(sector).ceilingheight.0 as int, old(ceiling).speed.0 as int, ceiling_dest(*old(ceiling)).0 as int, ceiling_dest(*old(ceiling)).1, 1, old(ceiling).direction, blocked)
        &&& exists|gs: Seq<G>| #[trigger] played(*old(sound_fn), gs, ceiling_reaction(*old(ceiling), r, leveltime).2)
    });
    remove
}

/// `P_AddActiveCeiling`: track `ceiling_idx` in the first free slot. When
/// every slot is taken the request is dropped.
pub fn p_add_active_ceiling(active: &mut ActiveCeilings, ceiling_idx: usize)
    ensures
        first_free(old(active).slots@) == -1 ==> final(active).slots@ == old(active).slots@,
        first_free(old(active).slots@) != -1 ==> final(active).slots@ == old(active).slots@.update(
            first_free(old(active).slots@),
            Some(ceiling_idx),
        ),
{
    let _ = active.add(ceiling_idx);
}

/// `P_RemoveActiveCeiling`: free the mover's sector, mark the mover for
/// removal from the thinker list, and stop tracking it.
pub fn p_remove_active_ceiling(
    ceiling_idx: usize,
    ceilings: &mut [CeilingT],
    sectors: &mut [Sector],
    active: &mut ActiveCeilings,
)
    requires
        ceiling_idx < old(ceilings)@.len(),
        old(ceilings)@[ceiling_idx as int].sector < old(sectors)@.len(),
    ensures
        final(sectors)@ == old(sectors)@.update(
            old(ceilings)@[ceiling_idx as int].sector as int,
            Sector { specialdata: None, ..old(sectors)@[old(ceilings)@[ceiling_idx as int].sector as int] },
        ),
        final(ceilings)@ == old(ceilings)@.update(
            ceiling_idx as int,
            CeilingT { thinker: crate::types::Thinker { function: ActionFn::PendingRemoval }, ..old(ceilings)@[ceiling_idx as int] },
        ),
        first_holding(old(active).slots@, ceiling_idx) == -1 ==> final(active).slots@ == old(active).slots@,
        first_holding(old(active).slots@, ceiling_idx) != -1 ==> final(active).slots@ == old(active).slots@.update(
            first_holding(old(active).slots@, ceiling_idx),
            None,
        ),
{
    let sec_idx = ceilings[ceiling_idx].sector;
    sectors[sec_idx].specialdata = None;
    ceilings[ceiling_idx].thinker.function = ActionFn::PendingRemoval;
    active.remove(ceiling_idx);
}

/// Some slot before `k` tracks mover `j`.
pub open spec fn tracked_before(slots: Seq<Option<usize>>, j: int, k: int) -> bool {
    exists|s: int| 0 <= s < k && #[trigger] slots[s] == Some(j as usize)
}

/// A ceiling mover with tag `tag` waiting in stasis.
pub open spec fn in_stasis_with_tag(c: CeilingT, tag: i32) -> bool {
    c.tag == tag && c.direction == 0
}

/// The mover resumed: its saved direction restored and its thinker running again.
pub open spec fn resumed(c: CeilingT) -> CeilingT {
    CeilingT { direction: c.olddirection, thinker: crate::types::Thinker { function: ActionFn::MoveCeiling }, ..c }
}

/// A moving ceiling mover with tag `tag`.
pub open spec fn moving_with_tag(c: CeilingT, tag: i32) -> bool {
    c.tag == tag && c.direction != 0
}

/// The mover put in stasis: its direction saved, its thinker paused.
pub open spec fn stopped(c: CeilingT) -> CeilingT {
    CeilingT { olddirection: c.direction, thinker: crate::types::Thinker { function: ActionFn::NoAction }, direction: 0, ..c }
}

/// Mover `j` of `cs` after `P_ActivateInStasisCeiling` with tag `tag`:
/// resumed when tracked in `slots` and in stasis with that tag.
pub open spec fn ceiling_activated(cs: Seq<CeilingT>, slots: Seq<Option<usize>>, tag: i32, j: int) -> CeilingT {
    if tracked_before(slots, j, slots.len() as int) && in_stasis_with_tag(cs[j], tag) {
        resumed(cs[j])
    } else {
        cs[j]
    }
}

/// Mover `j` of `cs` after `EV_CeilingCrushStop` with tag `tag`: stopped
/// when tracked in `slots` and moving with that tag.
pub open spec fn ceiling_crush_stopped(cs: Seq<CeilingT>, slots: Seq<Option<usize>>, tag: i32, j: int) -> CeilingT {
    if tracked_before(slots, j, slots.len() as int) && moving_with_tag(cs[j], tag) {
        stopped(cs[j])
    } else {
        cs[j]
    }
}

/// `P_ActivateInStasisCeiling`: every tracked ceiling mover with tag `tag`
/// that is in stasis resumes moving in its saved direction. Slots naming
/// no existing mover are skipped.
pub fn p_activate_in_stasis_ceiling(tag: i32, ceilings: &mut [CeilingT], active: &ActiveCeilings)
    ensures
        final(ceilings)@.len() == old(ceilings)@.len(),
        forall|j: int| 0 <= j < old(ceilings)@.len() ==> #[trigger] final(ceilings)@[j] == ceiling_activated(old(ceilings)@, active.slots@, tag, j),
{
    let mut k: usize = 0;
    while k < MAXCEILINGS
        invariant
            0 <= k <= MAXCEILINGS,
            ceilings@.len() == old(ceilings)@.len(),
            forall|j: int| 0 <= j < old(ceilings)@.len() ==> #[trigger] ceilings@[j] == if tracked_before(active.slots@, j, k as int)
                && in_stasis_with_tag(old(ceilings)@[j], tag) {
                resumed(old(ceilings)@[j])
            } else {
                old(ceilings)@[j]
            },
        decreases MAXCEILINGS - k,
    {
        if let Some(ci) = active.slots[k] {
            if ci < ceilings.len() && ceilings[ci].tag == tag && ceilings[ci].direction == 0 {
                ceilings[ci].direction = ceilings[ci].olddirection;
                ceilings[ci].thinker.function = ActionFn::MoveCeiling;
            }
        }
        proof {
            assert forall|j: int| 0 <= j < old(ceilings)@.len() implies tracked_before(active.slots@, j, k + 1)
                == (tracked_before(active.slots@, j, k as int) || active.slots@[k as int] == Some(j as usize)) by {
                if active.slots@[k as int] == Some(j as usize) {
                    assert(active.slots@[k as int] == Some(j as usize));
                }
                if tracked_before(active.slots@, j, k + 1) && !tracked_before(active.slots@, j, k as int) {
                    let s = choose|s: int| 0 <= s < k + 1 && #[trigger] active.slots@[s] == Some(j as usize);
                    assert(s == k);
                }
            }
        }
        k = k + 1;
    }
}

/// `EV_CeilingCrushStop`: every tracked ceiling mover with tag `tag` that
/// is moving goes into stasis, saving its direction. Returns whether any
/// mover was stopped.
pub fn ev_ceiling_crush_stop(tag: i32, ceilings: &mut [CeilingT], active: &ActiveCeilings) -> (rtn: bool)
    ensures
        final(ceilings)@.len() == old(ceilings)@.len(),
        forall|j: int| 0 <= j < old(ceilings)@.len() ==> #[trigger] final(ceilings)@[j] == ceiling_crush_stopped(old(ceilings)@, active.slots@, tag, j),
        rtn == exists|j: int| 0 <= j < old(ceilings)@.len() && tracked_before(active.slots@, j, MAXCEILINGS as int)
            && moving_with_tag(#[trigger] old(ceilings)@[j], tag),
{
    let mut rtn = false;
    let mut k: usize = 0;
    while k < MAXCEILINGS
        invariant
            0 <= k <= MAXCEILINGS,
            ceilings@.len() == old(ceilings)@.len(),
            forall|j: int| 0 <= j < old(ceilings)@.len() ==> #[trigger] ceilings@[j] == if tracked_before(active.slots@, j, k as int)
                && moving_with_tag(old(ceilings)@[j], tag) {
                stopped(old(ceilings)@[j])
            } else {
                old(ceilings)@[j]
            },
            rtn == exists|j: int| 0 <= j < old(ceilings)@.len() && tracked_before(active.slots@, j, k as int)
                && moving_with_tag(#[trigger] old(ceilings)@[j], tag),
        decreases MAXCEILINGS - k,
    {
        proof {
            assert forall|j: int| 0 <= j < old(ceilings)@.len() implies tracked_before(active.slots@, j, k + 1)
                == (tracked_before(active.slots@, j, k as int) || active.slots@[k as int] == Some(j as usize)) by {
                if active.slots@[k as int] == Some(j as usize) {
                    assert(active.slots@[k as int] == Some(j as usize));
                }
                if tracked_before(active.slots@, j, k + 1) && !tracked_before(active.slots@, j, k as int) {
                    let s = choose|s: int| 0 <= s < k + 1 && #[trigger] active.slots@[s] == Some(j as usize);
                    assert(s == k);
                }
            }
        }
        if let Some(ci) = active.slots[k] {
            if ci < ceilings.len() && ceilings[ci].tag == tag && ceilings[ci].direction != 0 {
                ceilings[ci].olddirection = ceilings[ci].direction;
                ceilings[ci].thinker.function = ActionFn::NoAction;
                ceilings[ci].direction = 0;
                rtn = true;
                assert(tracked_before(active.slots@, ci as int, k + 1) && moving_with_tag(old(ceilings)@[ci as int], tag));
            }
        }
        k = k + 1;
    }
    rtn
}

/// The ceiling mover `EV_DoCeiling` creates for sector `j`.
///
/// | kind | direction | speed | crush | heights |
/// |---|---|---|---|---|
/// | fast crusher | down | 2 x [`CEILSPEED`] | yes | top = ceiling, bottom = floor + 8 |
/// | silent / normal crusher | down | [`CEILSPEED`] | yes | top = ceiling, bottom = floor + 8 |
/// | lower and crush | down | [`CEILSPEED`] | no | bottom = floor + 8 |
/// | lower to floor | down | [`CEILSPEED`] | no | bottom = floor |
/// | raise to highest | up | [`CEILSPEED`] | no | top = highest neighbouring ceiling |
///
/// The mover carries the sector's tag and runs `MoveCeiling`.
pub open spec fn new_ceiling(ct: CeilingType, sectors: Seq<Sector>, lines: Seq<LineDef>, j: int) -> CeilingT {
    let s = sectors[j];
    let base = CeilingT {
        thinker: crate::types::Thinker { function: ActionFn::MoveCeiling },
        ceiling_type: ct,
        tag: s.tag as i32,
        ..CeilingT::blank(j as usize)
    };
    match ct {
        CeilingType::FastCrushAndRaise => CeilingT {
            crush: true,
            topheight: s.ceilingheight,
            bottomheight: Fixed((s.floorheight.0 + 8 * FRACUNIT) as i32),
            direction: -1i32,
            speed: Fixed(131072),
            ..base
        },
        CeilingType::SilentCrushAndRaise | CeilingType::CrushAndRaise => CeilingT {
            crush: true,
            topheight: s.ceilingheight,
            bottomheight: Fixed((s.floorheight.0 + 8 * FRACUNIT) as i32),
            direction: -1i32,
            speed: Fixed(CEILSPEED),
            ..base
        },
        CeilingType::LowerAndCrush => CeilingT {
            bottomheight: Fixed((s.floorheight.0 + 8 * FRACUNIT) as i32),
            direction: -1i32,
            speed: Fixed(CEILSPEED),
            ..base
        },
        CeilingType::LowerToFloor => CeilingT {
            bottomheight: s.floorheight,
            direction: -1i32,
            speed: Fixed(CEILSPEED),
            ..base
        },
        CeilingType::RaiseToHighest => CeilingT {
            topheight: Fixed(highest_ceiling_surrounding(sectors, lines, j) as i32),
            direction: 1,
            speed: Fixed(CEILSPEED),
            ..base
        },
    }
}

/// The request `EV_DoCeiling` makes for each selected sector.
pub open spec fn ceiling_spawn(ct: CeilingType, sectors: Seq<Sector>, lines: Seq<LineDef>) -> spec_fn(int, DoomRandom) -> (Seq<SpecEvent>, DoomRandom) {
    |j: int, r: DoomRandom| (seq![SpecEvent::AddCeiling(new_ceiling(ct, sectors, lines, j))], r)
}

/// The crushers, which first resume their tag's movers in stasis.
pub open spec fn is_crusher(ct: CeilingType) -> bool {
    ct == CeilingType::FastCrushAndRaise || ct == CeilingType::SilentCrushAndRaise || ct == CeilingType::CrushAndRaise
}

/// Sectors tagged `tag` have room for a mover 8 units above their floor.
pub open spec fn tagged_floors_fit(sectors: Seq<Sector>, tag: i16) -> bool {
    forall|j: int| 0 <= j < sectors.len() && (#[trigger] sectors[j]).tag == tag ==> sectors[j].floorheight.0 + 8 * FRACUNIT <= i32::MAX
}

/// `EV_DoCeiling`: for the crushers, first resume the line's tagged
/// ceiling movers in stasis; then, for every sector tagged like the line
/// that no mover occupies, in order, register the mover [`new_ceiling`]
/// states, which occupies the sector. Returns whether any mover was created.
pub fn ev_do_ceiling<C: SpecContext>(line_idx: usize, ceiling_type: CeilingType, ctx: &mut C) -> (rtn: bool)
    requires
        line_idx < old(ctx).lines_view().len(),
        level_wf(old(ctx).sectors_view(), old(ctx).lines_view()),
        old(ctx).sectors_view().len() < i32::MAX,
        tagged_floors_fit(old(ctx).sectors_view(), old(ctx).lines_view()[line_idx as int].tag),
    ensures
        ({
            let tag = old(ctx).lines_view()[line_idx as int].tag;
            let s0 = old(ctx).sectors_view();
            let pre: Seq<SpecEvent> = if is_crusher(ceiling_type) { seq![SpecEvent::ActivateCeilings(tag as i32)] } else { seq![] };
            &&& final(ctx).events() == old(ctx).events() + pre
                + tagged_spawns(s0, tag, 0, old(ctx).rng_view(), ceiling_spawn(ceiling_type, s0, old(ctx).lines_view())).0
            &&& rtn == any_free_tagged(s0, tag, 0)
            &&& occupied_upto(s0, final(ctx).sectors_view(), tag, s0.len() as int)
        }),
        final(ctx).lines_view() == old(ctx).lines_view(),
        final(ctx).sides_view() == old(ctx).sides_view(),
        final(ctx).mobj_players_view() == old(ctx).mobj_players_view(),
        final(ctx).player_cards_view() == old(ctx).player_cards_view(),
        final(ctx).rng_view() == old(ctx).rng_view(),
        forall|g: usize| #[trigger] final(ctx).door_direction_view(g) == old(ctx).door_direction_view(g),
{
    let ghost e0 = ctx.events();
    let tag = ctx.lines()[line_idx].tag;
    match ceiling_type {
        CeilingType::FastCrushAndRaise | CeilingType::SilentCrushAndRaise | CeilingType::CrushAndRaise => {
            ctx.p_activate_in_stasis_ceiling(tag as i32);
        },
        _ => {},
    }
    let ghost s0 = ctx.sectors_view();
    let ghost l0 = ctx.lines_view();
    let ghost r0 = ctx.rng_view();
    let ghost f = ceiling_spawn(ceiling_type, s0, l0);
    let ghost all = tagged_spawns(s0, tag, 0, r0, f).0;
    let ghost base = ctx.events();
    proof {
        assert(ctx.events() == e0 + (if is_crusher(ceiling_type) { seq![SpecEvent::ActivateCeilings(tag as i32)] } else { seq![] }));
    }
    let mut rtn = false;
    let mut secnum: i32 = -1;
    loop
        invariant_except_break
            -1 <= secnum < s0.len(),
            s0.len() < i32::MAX,
            line_idx < l0.len(),
            tag == l0[line_idx as int].tag,
            level_wf(s0, l0),
            tagged_floors_fit(s0, tag),
            f == ceiling_spawn(ceiling_type, s0, l0),
            ctx.lines_view() == l0,
            ctx.sides_view() == old(ctx).sides_view(),
            ctx.mobj_players_view() == old(ctx).mobj_players_view(),
            ctx.player_cards_view() == old(ctx).player_cards_view(),
            ctx.rng_view() == r0,
            r0 == old(ctx).rng_view(),
            forall|g: usize| #[trigger] ctx.door_direction_view(g) == old(ctx).door_direction_view(g),
            occupied_upto(s0, ctx.sectors_view(), tag, secnum as int),
            base + all == ctx.events() + tagged_spawns(s0, tag, secnum + 1, r0, f).0,
            rtn == exists|j: int| 0 <= j <= secnum && free_tagged(#[trigger] s0[j], tag),
        ensures
            base + all == ctx.events(),
            rtn == any_free_tagged(s0, tag, 0),
            occupied_upto(s0, ctx.sectors_view(), tag, s0.len() as int),
            ctx.lines_view() == l0,
            ctx.sides_view() == old(ctx).sides_view(),
            ctx.mobj_players_view() == old(ctx).mobj_players_view(),
            ctx.player_cards_view() == old(ctx).player_cards_view(),
            ctx.rng_view() == old(ctx).rng_view(),
            forall|g: usize| #[trigger] ctx.door_direction_view(g) == old(ctx).door_direction_view(g),
        decreases s0.len() - secnum,
    {
        let ghost prev = secnum;
        proof {
            lemma_occupied_geometry(s0, ctx.sectors_view(), tag, prev as int);
            lemma_find_same_geometry(s0, ctx.sectors_view(), tag, prev + 1);
            lemma_find_tagged_from(s0, tag, prev + 1);
        }
        secnum = p_find_sector_from_line_tag(&ctx.lines()[line_idx], secnum, ctx.sectors());
        if secnum < 0 {
            proof {
                lemma_tagged_spawns_skip(s0, tag, prev + 1, s0.len() as int, r0, f);
                assert(base + all =~= ctx.events());
                assert(rtn == any_free_tagged(s0, tag, 0)) by {
                    if any_free_tagged(s0, tag, 0) {
                        let j = choose|j: int| 0 <= j < s0.len() && free_tagged(#[trigger] s0[j], tag);
                        if j > prev {
                            assert(s0[j].tag != tag);
                        }
                    }
                }
                let cur = ctx.sectors_view();
                assert forall|j: int| 0 <= j < s0.len() implies #[trigger] cur[j] == if j <= s0.len() && free_tagged(s0[j], tag) {
                    Sector { specialdata: cur[j].specialdata, ..s0[j] }
                } else {
                    s0[j]
                } by {
                    if j > prev {
                        assert(s0[j].tag != tag);
                        assert(cur[j] == s0[j]);
                    }
                }
                assert forall|j: int| 0 <= j <= s0.len() && 0 <= j < s0.len() && free_tagged(s0[j], tag) implies (#[trigger] cur[j]).specialdata is Some by {
                    if j > prev {
                        assert(s0[j].tag != tag);
                    }
                }
            }
            break;
        }
        let sec_idx = secnum as usize;
        proof {
            lemma_tagged_spawns_skip(s0, tag, prev + 1, secnum as int, r0, f);
            assert(ctx.sectors_view()[sec_idx as int] == s0[sec_idx as int]);
        }
        if ctx.sectors()[sec_idx].specialdata.is_some() {
            proof {
                let cur = ctx.sectors_view();
                assert forall|j: int| 0 <= j < s0.len() implies #[trigger] cur[j] == if j <= secnum && free_tagged(s0[j], tag) {
                    Sector { specialdata: cur[j].specialdata, ..s0[j] }
                } else {
                    s0[j]
                } by {
                    if j > prev && j < secnum {
                        assert(s0[j].tag != tag);
                    }
                }
                assert(rtn == exists|j: int| 0 <= j <= secnum && free_tagged(#[trigger] s0[j], tag)) by {
                    if exists|j: int| 0 <= j <= secnum && free_tagged(#[trigger] s0[j], tag) {
                        let j = choose|j: int| 0 <= j <= secnum && free_tagged(#[trigger] s0[j], tag);
                        if j > prev && j < secnum {
                            assert(s0[j].tag != tag);
                        }
                    }
                }
            }
            continue;
        }
        rtn = true;
        let ghost before = ctx.sectors_view();
        let sector = &ctx.sectors()[sec_idx];
        let mut ceiling = CeilingT::new(sec_idx);
        ceiling.thinker.function = ActionFn::MoveCeiling;
        ceiling.crush = false;
        match ceiling_type {
            CeilingType::FastCrushAndRaise => {
                ceiling.crush = true;
                ceiling.topheight = sector.ceilingheight;
                ceiling.bottomheight = Fixed(sector.floorheight.0 + 8 * FRACUNIT);
                ceiling.direction = -1;
                ceiling.speed = Fixed(CEILSPEED * 2);
            },
            CeilingType::SilentCrushAndRaise | CeilingType::CrushAndRaise => {
                ceiling.crush = true;
                ceiling.topheight = sector.ceilingheight;
                ceiling.bottomheight = Fixed(sector.floorheight.0 + 8 * FRACUNIT);
                ceiling.direction = -1;
                ceiling.speed = Fixed(CEILSPEED);
            },
            CeilingType::LowerAndCrush => {
                ceiling.bottomheight = Fixed(sector.floorheight.0 + 8 * FRACUNIT);
                ceiling.direction = -1;
                ceiling.speed = Fixed(CEILSPEED);
            },
            CeilingType::LowerToFloor => {
                ceiling.bottomheight = sector.floorheight;
                ceiling.direction = -1;
                ceiling.speed = Fixed(CEILSPEED);
            },
            CeilingType::RaiseToHighest => {
                proof {
                    lemma_wf_same_geometry(s0, before, l0);
                    lemma_steps_same_geometry(s0, before, 0);
                    lemma_fold_same_geometry(s0, before, l0, sec_idx as int, 0, s0[sec_idx as int].lines@.len() as int, step_highest_ceiling());
                }
                ceiling.topheight = p_find_highest_ceiling_surrounding(sec_idx, ctx.sectors(), ctx.lines());
                ceiling.direction = 1;
                ceiling.speed = Fixed(CEILSPEED);
            },
        }
        ceiling.tag = ctx.sectors()[sec_idx].tag as i32;
        ceiling.ceiling_type = ceiling_type;
        assert(ceiling == new_ceiling(ceiling_type, s0, l0, sec_idx as int));
        let ghost ev_before = ctx.events();
        ctx.p_add_thinker_ceiling(ceiling);
        proof {
            assert(free_tagged(s0[secnum as int], tag));
            assert(f(secnum as int, r0) == (seq![SpecEvent::AddCeiling(ceiling)], r0));
            assert(tagged_spawns(s0, tag, secnum as int, r0, f).0 == seq![SpecEvent::AddCeiling(ceiling)] + tagged_spawns(s0, tag, secnum + 1, r0, f).0);
            assert(ctx.events() == ev_before.push(SpecEvent::AddCeiling(ceiling)));
            let cur = ctx.sectors_view();
            assert forall|j: int| 0 <= j < s0.len() implies #[trigger] cur[j] == if j <= secnum && free_tagged(s0[j], tag) {
                Sector { specialdata: cur[j].specialdata, ..s0[j] }
            } else {
                s0[j]
            } by {
                if j > prev && j < secnum {
                    assert(s0[j].tag != tag);
                }
                if j != secnum {
                    assert(cur[j] == before[j]);
                }
            }
            assert forall|j: int| 0 <= j <= secnum && 0 <= j < s0.len() && free_tagged(s0[j], tag) implies (#[trigger] cur[j]).specialdata is Some by {
                if j > prev && j < secnum {
                    assert(s0[j].tag != tag);
                }
                if j != secnum {
                    assert(cur[j] == before[j]);
                }
            }
            assert(base + all =~= ctx.events() + tagged_spawns(s0, tag, secnum + 1, r0, f).0);
        }
    }
    rtn
}

// ---------------------------------------------------------------------------
// Laws
// ---------------------------------------------------------------------------

/// The first slot holding `idx` from `from` on is `at`, when the slots
/// from `from` up to `at` do not hold it and slot `at` does.
proof fn lemma_holding_at(slots: Seq<Option<usize>>, idx: usize, from: int, at: int)
    requires
        0 <= from <= at < slots.len(),
        slots[at] == Some(idx),
        forall|k: int| from <= k < at ==> slots[k] != Some(idx),
    ensures
        holding_from(slots, idx, from) == at,
    decreases at - from,
{
    if from < at {
        lemma_holding_at(slots, idx, from + 1, at);
    }
}

/// No slot from `from` on holds `idx` when the search finds none.
proof fn lemma_not_holding(slots: Seq<Option<usize>>, idx: usize, from: int)
    requires
        0 <= from,
        holding_from(slots, idx, from) == -1,
    ensures
        forall|k: int| from <= k < slots.len() ==> slots[k] != Some(idx),
    decreases slots.len() - from,
{
    if from < slots.len() {
        lemma_not_holding(slots, idx, from + 1);
    }
}

/// The first free slot from `from` on is free.
proof fn lemma_free_from(slots: Seq<Option<usize>>, from: int)
    requires
        0 <= from,
        free_from(slots, from) != -1,
    ensures
        from <= free_from(slots, from) < slots.len(),
        slots[free_from(slots, from)] is None,
    decreases slots.len() - from,
{
    if from < slots.len() && slots[from] is Some {
        lemma_free_from(slots, from + 1);
    }
}

/// Law: tracking a mover that was not tracked, which takes the first free
/// slot, and then untracking it, which frees the first slot holding it,
/// leaves the table of active movers as it was. (Both tables of active
/// movers, ceilings and platforms, add and remove this way.)
pub proof fn law_track_then_untrack(slots: Seq<Option<usize>>, idx: usize)
    requires
        first_free(slots) != -1,
        first_holding(slots, idx) == -1,
    ensures
        ({
            let added = slots.update(first_free(slots), Some(idx));
            &&& first_holding(added, idx) == first_free(slots)
            &&& added.update(first_holding(added, idx), None) == slots
        }),
{
    let ff = first_free(slots);
    lemma_free_from(slots, 0);
    lemma_not_holding(slots, idx, 0);
    let added = slots.update(ff, Some(idx));
    lemma_holding_at(added, idx, 0, ff);
    assert(added.update(ff, None) =~= slots);
}

/// Law: stopping a tag's crushers (`EV_CeilingCrushStop`) and then
/// reactivating the tag (`P_ActivateInStasisCeiling`) gives every mover
/// back as it was, a stopped one keeping the direction it moved in as its
/// saved direction; this holds for a mover that, when tracked with the tag,
/// was moving and running.
pub proof fn law_crush_stop_then_activate(cs: Seq<CeilingT>, slots: Seq<Option<usize>>, tag: i32, j: int)
    requires
        0 <= j < cs.len(),
        tracked_before(slots, j, slots.len() as int) && cs[j].tag == tag ==> cs[j].direction != 0
            && cs[j].thinker.function == ActionFn::MoveCeiling,
    ensures
        ceiling_activated(Seq::new(cs.len(), |k: int| ceiling_crush_stopped(cs, slots, tag, k)), slots, tag, j) == if tracked_before(
            slots,
            j,
            slots.len() as int,
        ) && cs[j].tag == tag {
            CeilingT { olddirection: cs[j].direction, ..cs[j] }
        } else {
            cs[j]
        },
{
    let mid = Seq::new(cs.len(), |k: int| ceiling_crush_stopped(cs, slots, tag, k));
    assert(mid[j] == ceiling_crush_stopped(cs, slots, tag, j));
}

} // verus!
