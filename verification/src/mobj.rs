//! Thing movement: horizontal movement with friction, vertical movement
//! with gravity, and missiles exploding.

use vstd::prelude::*;
use crate::enemy::{
    a_explode, a_fall, a_pain, a_player_scream, a_scream, a_xscream, nothing, only_event, only_mobj, scream_draws,
    scream_sound, EnemyContext, EnemyEvent, GameMode, MT_CYBORG, MT_SPIDER,
};
use crate::fixed::{fixed_mul_spec, Fixed, FRACUNIT};
use crate::inter::{player_views, trunc_div, Player, PlayerView, ThingInfo};
use crate::random::DoomRandom;
use crate::types::{
    MapObject, SfxEnum, MF_CORPSE, MF_SOLID, MF_FLOAT, MF_INFLOAT, MF_MISSILE, MF_NOCLIP, MF_NOGRAVITY, MF_SKULLFLY,
};

verus! {

/// Below this speed a thing on the ground stops.
pub const STOPSPEED: i32 = 0x1000;

/// The share of its speed a thing on the ground keeps each tic.
pub const FRICTION: i32 = 0xe800;

/// Fall acceleration per tic.
pub const GRAVITY: i32 = 65536;

/// Most a thing moves in one tic, per axis.
pub const MAXMOVE: i32 = 1966080;

/// Speed at which floating monsters rise and sink.
pub const FLOATSPEED: i32 = 262144;

/// Player eye height above the floor.
pub const VIEWHEIGHT: i32 = 2686976;

/// Cheat bit: the player stops dead when not moving.
pub const CF_NOMOMENTUM: i32 = 4;

/// The player's standing state and first running state.
pub const S_PLAY: usize = 149;
pub const S_PLAY_RUN1: usize = 150;

/// A request the movement code made of the engine.
#[derive(Clone, Copy, Debug, PartialEq, Eq, Structural)]
pub enum MobjEvent {
    /// `S_StartSound`.
    Sound { origin: Option<usize>, sfx: SfxEnum },
    /// `P_SetMobjState`.
    SetState { mobj: usize, state: usize },
    /// `P_TryMove` to `(x, y)`, and whether the thing got there.
    TryMove { mobj: usize, x: Fixed, y: Fixed, moved: bool },
    /// `P_SlideMove`.
    SlideMove { mobj: usize },
    /// `P_RemoveMobj`.
    RemoveMobj { mobj: usize },
}

/// The things, players, play random stream, thing-info table, sky and
/// sector ceilings the movement code works on, and the engine services it
/// calls. Every request is recorded with the things and players as they
/// stood when it was made.
pub trait MobjContext: Sized {
    spec fn mobjs_view(&self) -> Seq<MapObject>;
    spec fn players_view(&self) -> Seq<PlayerView>;
    spec fn rng_view(&self) -> DoomRandom;
    spec fn requests(&self) -> Seq<(MobjEvent, Seq<MapObject>, Seq<PlayerView>)>;
    spec fn info_view(&self, mobj_type: usize) -> ThingInfo;
    /// The sky's flat number.
    spec fn sky_view(&self) -> i16;
    /// The ceiling flat of the sector a subsector belongs to.
    spec fn ceilingpic_view(&self, subsector: usize) -> i16;

    fn mobjs(&self) -> (r: &[MapObject])
        ensures
            r@ == self.mobjs_view(),
    ;

    fn players(&self) -> (r: &[Player])
        ensures
            player_views(r@) == self.players_view(),
    ;

    /// Replace thing `idx` by `m`.
    fn set_mobj(&mut self, idx: usize, m: MapObject)
        requires
            idx < old(self).mobjs_view().len(),
        ensures
            forall|t: usize| #[trigger] final(self).info_view(t) == old(self).info_view(t),
            final(self).sky_view() == old(self).sky_view(),
            forall|s: usize| #[trigger] final(self).ceilingpic_view(s) == old(self).ceilingpic_view(s),
            final(self).mobjs_view() == old(self).mobjs_view().update(idx as int, m),
            final(self).players_view() == old(self).players_view(),
            final(self).rng_view() == old(self).rng_view(),
            final(self).requests() == old(self).requests(),
    ;

    /// Replace player `idx` by `p`.
    fn set_player(&mut self, idx: usize, p: Player)
        requires
            idx < old(self).players_view().len(),
        ensures
            forall|t: usize| #[trigger] final(self).info_view(t) == old(self).info_view(t),
            final(self).sky_view() == old(self).sky_view(),
            forall|s: usize| #[trigger] final(self).ceilingpic_view(s) == old(self).ceilingpic_view(s),
            final(self).mobjs_view() == old(self).mobjs_view(),
            final(self).players_view() == old(self).players_view().update(idx as int, p@),
            final(self).rng_view() == old(self).rng_view(),
            final(self).requests() == old(self).requests(),
    ;

    fn thing_info(&self, mobj_type: usize) -> (r: ThingInfo)
        ensures
            r == self.info_view(mobj_type),
    ;

    fn sky_flatnum(&self) -> (r: i16)
        ensures
            r == self.sky_view(),
    ;

    fn sector_ceilingpic(&self, subsector: usize) -> (r: i16)
        ensures
            r == self.ceilingpic_view(subsector),
    ;

    /// `P_Random` on the play stream.
    fn p_random(&mut self) -> (r: u8)
        ensures
            forall|t: usize| #[trigger] final(self).info_view(t) == old(self).info_view(t),
            final(self).sky_view() == old(self).sky_view(),
            forall|s: usize| #[trigger] final(self).ceilingpic_view(s) == old(self).ceilingpic_view(s),
            r == old(self).rng_view().next_p(),
            final(self).rng_view() == old(self).rng_view().advanced(),
            final(self).mobjs_view() == old(self).mobjs_view(),
            final(self).players_view() == old(self).players_view(),
            final(self).requests() == old(self).requests(),
    ;

    fn s_start_sound(&mut self, origin: Option<usize>, sfx: SfxEnum)
        ensures
            forall|t: usize| #[trigger] final(self).info_view(t) == old(self).info_view(t),
            final(self).sky_view() == old(self).sky_view(),
            forall|s: usize| #[trigger] final(self).ceilingpic_view(s) == old(self).ceilingpic_view(s),
            final(self).mobjs_view() == old(self).mobjs_view(),
            final(self).players_view() == old(self).players_view(),
            final(self).rng_view() == old(self).rng_view(),
            final(self).requests() == old(self).requests().push(
                (MobjEvent::Sound { origin, sfx }, old(self).mobjs_view(), old(self).players_view()),
            ),
    ;

    /// `P_SetMobjState`: its state actions may change any thing or
    /// player; things are never taken away.
    fn p_set_mobj_state(&mut self, mobj: usize, state: usize) -> (r: bool)
        ensures
            forall|t: usize| #[trigger] final(self).info_view(t) == old(self).info_view(t),
            final(self).sky_view() == old(self).sky_view(),
            final(self).mobjs_view().len() >= old(self).mobjs_view().len(),
            final(self).players_view().len() == old(self).players_view().len(),
            players_linked(old(self).mobjs_view(), old(self).players_view()) ==> players_linked(final(self).mobjs_view(), final(self).players_view()),
            final(self).requests() == old(self).requests().push(
                (MobjEvent::SetState { mobj, state }, old(self).mobjs_view(), old(self).players_view()),
            ),
    ;

    /// `P_TryMove`: whether the thing could move to `(x, y)`; crossing
    /// lines may trigger specials that change anything.
    fn p_try_move(&mut self, mobj: usize, x: Fixed, y: Fixed) -> (r: bool)
        ensures
            forall|t: usize| #[trigger] final(self).info_view(t) == old(self).info_view(t),
            final(self).sky_view() == old(self).sky_view(),
            final(self).mobjs_view().len() >= old(self).mobjs_view().len(),
            final(self).players_view().len() == old(self).players_view().len(),
            players_linked(old(self).mobjs_view(), old(self).players_view()) ==> players_linked(final(self).mobjs_view(), final(self).players_view()),
            final(self).requests() == old(self).requests().push(
                (MobjEvent::TryMove { mobj, x, y, moved: r }, old(self).mobjs_view(), old(self).players_view()),
            ),
    ;

    /// `P_SlideMove`: a blocked player slides along the wall.
    fn p_slide_move(&mut self, mobj: usize)
        ensures
            forall|t: usize| #[trigger] final(self).info_view(t) == old(self).info_view(t),
            final(self).sky_view() == old(self).sky_view(),
            final(self).mobjs_view().len() >= old(self).mobjs_view().len(),
            final(self).players_view().len() == old(self).players_view().len(),
            players_linked(old(self).mobjs_view(), old(self).players_view()) ==> players_linked(final(self).mobjs_view(), final(self).players_view()),
            final(self).requests() == old(self).requests().push(
                (MobjEvent::SlideMove { mobj }, old(self).mobjs_view(), old(self).players_view()),
            ),
    ;

    /// `P_RemoveMobj`: unlinks and frees a thing; players are untouched.
    fn p_remove_mobj(&mut self, mobj: usize)
        ensures
            forall|t: usize| #[trigger] final(self).info_view(t) == old(self).info_view(t),
            final(self).sky_view() == old(self).sky_view(),
            final(self).mobjs_view().len() == old(self).mobjs_view().len(),
            final(self).players_view() == old(self).players_view(),
            final(self).rng_view() == old(self).rng_view(),
            final(self).requests() == old(self).requests().push(
                (MobjEvent::RemoveMobj { mobj }, old(self).mobjs_view(), old(self).players_view()),
            ),
    ;
}

/// Every thing's player is one of the players.
pub open spec fn players_linked(ms: Seq<MapObject>, ps: Seq<PlayerView>) -> bool {
    forall|k: int| 0 <= k < ms.len() ==> (#[trigger] ms[k].player matches Some(p) ==> p < ps.len())
}

// ---------------------------------------------------------------------------
// P_ExplodeMissile
// ---------------------------------------------------------------------------

/// A thing with its momentum zeroed.
pub open spec fn halted(m: MapObject) -> MapObject {
    MapObject { momx: Fixed(0), momy: Fixed(0), momz: Fixed(0), ..m }
}

/// What exploding missile `i` from things `ms`, players `ps` and requests
/// `reqs` leaves in `post`: it stops and its death state is set; after
/// that state's actions it is no longer a missile and lasts at least a
/// tic.
pub open spec fn exploded_from<C: MobjContext>(
    ms: Seq<MapObject>,
    ps: Seq<PlayerView>,
    reqs: Seq<(MobjEvent, Seq<MapObject>, Seq<PlayerView>)>,
    info: ThingInfo,
    i: usize,
    post: C,
) -> bool {
    &&& post.requests() == reqs.push((MobjEvent::SetState { mobj: i, state: info.deathstate }, ms.update(i as int, halted(ms[i as int])), ps))
    &&& post.mobjs_view().len() >= ms.len()
    &&& post.players_view().len() == ps.len()
    &&& post.mobjs_view()[i as int].flags & MF_MISSILE == 0
    &&& post.mobjs_view()[i as int].tics >= 1
}

/// `P_ExplodeMissile`: the missile stops, enters its death state, has
/// its tics shortened by a random 0 to 3 (never below 1) and stops being
/// a missile.
pub fn p_explode_missile<C: MobjContext>(mobj_idx: usize, ctx: &mut C)
    requires
        mobj_idx < old(ctx).mobjs_view().len(),
    ensures
        forall|t: usize| #[trigger] final(ctx).info_view(t) == old(ctx).info_view(t),
        final(ctx).sky_view() == old(ctx).sky_view(),
        exploded_from(
            old(ctx).mobjs_view(),
            old(ctx).players_view(),
            old(ctx).requests(),
            old(ctx).info_view(old(ctx).mobjs_view()[mobj_idx as int].type_),
            mobj_idx,
            *final(ctx),
        ),
{
    let mut m = ctx.mobjs()[mobj_idx];
    m.momx = Fixed(0);
    m.momy = Fixed(0);
    m.momz = Fixed(0);
    ctx.set_mobj(mobj_idx, m);
    let deathstate = ctx.thing_info(m.type_).deathstate;
    ctx.p_set_mobj_state(mobj_idx, deathstate);
    let ghost after = ctx.requests();
    let r = (ctx.p_random() & 3) as i64;
    let mut e = ctx.mobjs()[mobj_idx];
    let nt: i64 = e.tics as i64 - r;
    e.tics = if nt < 1 { 1 } else { nt as i32 };
    let f = e.flags;
    e.flags = f & !MF_MISSILE;
    assert((f & !0x10000u32) & 0x10000u32 == 0) by (bit_vector);
    ctx.set_mobj(mobj_idx, e);
}

// ---------------------------------------------------------------------------
// P_ZMovement
// ---------------------------------------------------------------------------

/// Half of `v`, rounded toward zero.
fn half(v: i32) -> (r: i32)
    ensures
        r == trunc_div(v as int, 2),
        v - 1 <= 2 * r <= v + 1,
{
    if v >= 0 {
        v / 2
    } else {
        let w: i64 = -(v as i64);
        -((w / 2) as i32)
    }
}

/// A player whose floor rose above the feet: the eyes drop by the rise
/// and start to climb back toward [`VIEWHEIGHT`].
pub open spec fn stepped_up(p: PlayerView, m: MapObject) -> PlayerView {
    let vh = p.viewheight.0.wrapping_sub(m.floorz.0.wrapping_sub(m.z.0));
    PlayerView { viewheight: Fixed(vh), deltaviewheight: Fixed(VIEWHEIGHT.wrapping_sub(vh) >> 3u32), ..p }
}

/// The players once thing `m`'s player, if its floor rose, stepped up.
pub open spec fn z_players(ps: Seq<PlayerView>, m: MapObject) -> Seq<PlayerView> {
    match m.player {
        Some(p) => if m.z.0 < m.floorz.0 { ps.update(p as int, stepped_up(ps[p as int], m)) } else { ps },
        None => ps,
    }
}

/// A floating monster drifts toward its target's middle height (things
/// `ms`), by [`FLOATSPEED`] when farther than that.
pub open spec fn floated(m: MapObject, ms: Seq<MapObject>) -> MapObject {
    if m.flags & MF_FLOAT != 0 && m.flags & MF_SKULLFLY == 0 && m.flags & MF_INFLOAT == 0 && m.target is Some {
        let ti = m.target.unwrap();
        let tz = if ti < ms.len() { ms[ti as int].z.0 } else { 0i32 };
        let th = if ti < ms.len() { ms[ti as int].height.0 } else { 0i32 };
        let mid = tz.wrapping_add(trunc_div(th as int, 2) as i32);
        let dist = mid.wrapping_sub(m.z.0);
        if dist < -FLOATSPEED {
            MapObject { z: Fixed(m.z.0.wrapping_sub(FLOATSPEED)), ..m }
        } else if dist > FLOATSPEED {
            MapObject { z: Fixed(m.z.0.wrapping_add(FLOATSPEED)), ..m }
        } else {
            m
        }
    } else {
        m
    }
}

/// A flying skull bounces: its vertical speed reverses.
pub open spec fn bounced(m: MapObject) -> MapObject {
    if m.flags & MF_SKULLFLY != 0 { MapObject { momz: Fixed((-m.momz.0) as i32), ..m } } else { m }
}

/// A thing that reached its floor while moving at `momz0`: a skull
/// bounces, a falling thing stops falling, and it stands on the floor.
pub open spec fn landed(m: MapObject, momz0: i32) -> MapObject {
    let m1 = bounced(m);
    let m2 = if momz0 < 0 { MapObject { momz: Fixed(0), ..m1 } } else { m1 };
    MapObject { z: m.floorz, ..m2 }
}

/// Gravity on a thing in the air: a resting thing starts falling at twice
/// [`GRAVITY`], a moving one speeds up by [`GRAVITY`].
pub open spec fn fallen(m: MapObject) -> MapObject {
    if m.flags & MF_NOGRAVITY == 0 {
        MapObject { momz: Fixed(if m.momz.0 == 0 { (-2 * GRAVITY) as i32 } else { m.momz.0.wrapping_sub(GRAVITY) }), ..m }
    } else {
        m
    }
}

/// The thing's top is above its ceiling.
pub open spec fn above_ceiling(m: MapObject) -> bool {
    m.z.0.wrapping_add(m.height.0) > m.ceilingz.0
}

/// A thing pushed under its ceiling: no longer rising, top at the
/// ceiling, a skull bouncing back down.
pub open spec fn ceilinged(m: MapObject) -> MapObject {
    let m1 = MapObject {
        momz: if m.momz.0 > 0 { Fixed(0) } else { m.momz },
        z: Fixed(m.ceilingz.0.wrapping_sub(m.height.0)),
        ..m
    };
    bounced(m1)
}

/// A missile that hits floor or ceiling explodes (a ghost passes).
pub open spec fn explodes(m: MapObject) -> bool {
    m.flags & MF_MISSILE != 0 && m.flags & MF_NOCLIP == 0
}

/// A hard landing: a player falling faster than eight times gravity.
pub open spec fn hard_landing(m0: MapObject) -> bool {
    m0.player is Some && m0.momz.0 < -8 * GRAVITY
}

/// After the floor part, what the ceiling part leaves in `post`, from
/// thing `i` being `m` in `ms`, players `ps` and requests `reqs`.
pub open spec fn ceiling_part<C: MobjContext>(
    ms: Seq<MapObject>,
    m: MapObject,
    ps: Seq<PlayerView>,
    reqs: Seq<(MobjEvent, Seq<MapObject>, Seq<PlayerView>)>,
    info: ThingInfo,
    rng: DoomRandom,
    i: usize,
    post: C,
) -> bool {
    let m4 = if above_ceiling(m) { ceilinged(m) } else { m };
    if above_ceiling(m) && explodes(m4) {
        exploded_from(ms.update(i as int, m4), ps, reqs, info, i, post)
    } else {
        &&& post.mobjs_view() == ms.update(i as int, m4)
        &&& post.players_view() == ps
        &&& post.requests() == reqs
        &&& post.rng_view() == rng
    }
}

/// The skull speeds `p_z_movement` reverses can be negated.
pub open spec fn z_fits<C: MobjContext>(c: C, i: usize) -> bool {
    let m0 = c.mobjs_view()[i as int];
    let m1 = MapObject { z: Fixed(m0.z.0.wrapping_add(m0.momz.0)), ..m0 };
    let m2 = floated(m1, c.mobjs_view().update(i as int, m1));
    let m3 = if m2.z.0 <= m2.floorz.0 { landed(m2, m0.momz.0) } else { fallen(m2) };
    &&& i < c.mobjs_view().len()
    &&& m0.player matches Some(p) ==> p < c.players_view().len()
    &&& m0.flags & MF_SKULLFLY != 0 && m2.z.0 <= m2.floorz.0 ==> m0.momz.0 != i32::MIN
    &&& m0.flags & MF_SKULLFLY != 0 && above_ceiling(m3) && !(m2.z.0 <= m2.floorz.0 && explodes(m3)) ==> m3.momz.0 != i32::MIN
}

fn z_ceiling<C: MobjContext>(mobj_idx: usize, m: MapObject, ctx: &mut C)
    requires
        mobj_idx < old(ctx).mobjs_view().len(),
        old(ctx).mobjs_view()[mobj_idx as int] == m,
        m.flags & MF_SKULLFLY != 0 && above_ceiling(m) ==> m.momz.0 != i32::MIN,
    ensures
        forall|t: usize| #[trigger] final(ctx).info_view(t) == old(ctx).info_view(t),
        final(ctx).sky_view() == old(ctx).sky_view(),
        ceiling_part(old(ctx).mobjs_view(), m, old(ctx).players_view(), old(ctx).requests(), old(ctx).info_view(m.type_), old(ctx).rng_view(), mobj_idx, *final(ctx)),
{
    let ghost pre = *ctx;
    let mut m = m;
    if m.z.0.wrapping_add(m.height.0) > m.ceilingz.0 {
        if m.momz.0 > 0 {
            m.momz = Fixed(0);
        }
        m.z = Fixed(m.ceilingz.0.wrapping_sub(m.height.0));
        if m.flags & MF_SKULLFLY != 0 {
            m.momz = Fixed(-m.momz.0);
        }
        ctx.set_mobj(mobj_idx, m);
        if m.flags & MF_MISSILE != 0 && m.flags & MF_NOCLIP == 0 {
            p_explode_missile(mobj_idx, ctx);
            return;
        }
    }
    assert(ctx.mobjs_view() =~= pre.mobjs_view().update(mobj_idx as int, m));
}

/// The start of `P_ZMovement`: step-up, vertical move and float drift.
fn z_start<C: MobjContext>(mobj_idx: usize, ctx: &mut C) -> (m: MapObject)
    requires
        z_fits(*old(ctx), mobj_idx),
    ensures
        forall|t: usize| #[trigger] final(ctx).info_view(t) == old(ctx).info_view(t),
        final(ctx).sky_view() == old(ctx).sky_view(),
        ({
            let m0 = old(ctx).mobjs_view()[mobj_idx as int];
            let m1 = MapObject { z: Fixed(m0.z.0.wrapping_add(m0.momz.0)), ..m0 };
            &&& m == floated(m1, old(ctx).mobjs_view().update(mobj_idx as int, m1))
            &&& final(ctx).mobjs_view() == old(ctx).mobjs_view().update(mobj_idx as int, m)
            &&& final(ctx).players_view() == z_players(old(ctx).players_view(), m0)
            &&& final(ctx).rng_view() == old(ctx).rng_view()
            &&& final(ctx).requests() == old(ctx).requests()
        }),
{
    let ghost pre = *ctx;
    let m0 = ctx.mobjs()[mobj_idx];
    if let Some(p) = m0.player {
        if m0.z.0 < m0.floorz.0 {
            let mut pl = ctx.players()[p];
            let diff = m0.floorz.0.wrapping_sub(m0.z.0);
            pl.viewheight = Fixed(pl.viewheight.0.wrapping_sub(diff));
            pl.deltaviewheight = Fixed(VIEWHEIGHT.wrapping_sub(pl.viewheight.0) >> 3u32);
            ctx.set_player(p, pl);
            assert(pl@ =~= stepped_up(pre.players_view()[p as int], m0));
        }
    }
    assert(ctx.players_view() =~= z_players(pre.players_view(), m0));
    let mut m = m0;
    m.z = Fixed(m.z.0.wrapping_add(m.momz.0));
    ctx.set_mobj(mobj_idx, m);
    let ghost m1 = m;
    if m.flags & MF_FLOAT != 0 && m.flags & MF_SKULLFLY == 0 && m.flags & MF_INFLOAT == 0 {
        if let Some(ti) = m.target {
            let tz = if ti < ctx.mobjs().len() { ctx.mobjs()[ti].z.0 } else { 0 };
            let th = if ti < ctx.mobjs().len() { ctx.mobjs()[ti].height.0 } else { 0 };
            let mid = tz.wrapping_add(half(th));
            let dist = mid.wrapping_sub(m.z.0);
            if dist < -FLOATSPEED {
                m.z = Fixed(m.z.0.wrapping_sub(FLOATSPEED));
            } else if dist > FLOATSPEED {
                m.z = Fixed(m.z.0.wrapping_add(FLOATSPEED));
            }
            ctx.set_mobj(mobj_idx, m);
        }
    }
    assert(ctx.mobjs_view() =~= pre.mobjs_view().update(mobj_idx as int, m));
    m
}

/// `P_ZMovement`: a player whose floor rose steps up; the thing moves by
/// its vertical speed and a floating monster drifts toward its target.
/// On or below its floor it lands ([`landed`]; a hard landing jolts the
/// player's view and says "oof"), and a missile explodes; in the air
/// gravity pulls it ([`fallen`]). Then a thing poking through its ceiling
/// is pushed under it ([`ceilinged`]), and a missile explodes.
#[verifier::rlimit(30)]
pub fn p_z_movement<C: MobjContext>(mobj_idx: usize, ctx: &mut C)
    requires
        z_fits(*old(ctx), mobj_idx),
    ensures
        forall|t: usize| #[trigger] final(ctx).info_view(t) == old(ctx).info_view(t),
        final(ctx).sky_view() == old(ctx).sky_view(),
        ({
            let pre = *old(ctx);
            let i = mobj_idx;
            let m0 = pre.mobjs_view()[i as int];
            let info = pre.info_view(m0.type_);
            let ps1 = z_players(pre.players_view(), m0);
            let m1 = MapObject { z: Fixed(m0.z.0.wrapping_add(m0.momz.0)), ..m0 };
            let m2 = floated(m1, pre.mobjs_view().update(i as int, m1));
            if m2.z.0 <= m2.floorz.0 {
                let oof = m0.momz.0 < 0 && hard_landing(m0);
                let ps2 = if oof {
                    ps1.update(m0.player.unwrap() as int, PlayerView { deltaviewheight: Fixed(m0.momz.0 >> 3u32), ..ps1[m0.player.unwrap() as int] })
                } else {
                    ps1
                };
                let reqs = if oof {
                    pre.requests().push((MobjEvent::Sound { origin: Some(i), sfx: SfxEnum::sfx_oof }, pre.mobjs_view().update(i as int, bounced(m2)), ps2))
                } else {
                    pre.requests()
                };
                let m3 = landed(m2, m0.momz.0);
                if explodes(m3) {
                    exploded_from(pre.mobjs_view().update(i as int, m3), ps2, reqs, info, i, *final(ctx))
                } else {
                    ceiling_part(pre.mobjs_view(), m3, ps2, reqs, info, pre.rng_view(), i, *final(ctx))
                }
            } else {
                ceiling_part(pre.mobjs_view(), fallen(m2), ps1, pre.requests(), info, pre.rng_view(), i, *final(ctx))
            }
        }),
{
    let ghost pre = *ctx;
    let m0 = ctx.mobjs()[mobj_idx];
    let mut m = z_start(mobj_idx, ctx);
    let ghost m2 = m;
    assert(ctx.players_view().len() == pre.players_view().len());
    assert(m.player == m0.player);
    let momz0 = m.momz.0;
    if m.z.0 <= m.floorz.0 {
        if m.flags & MF_SKULLFLY != 0 {
            m.momz = Fixed(-m.momz.0);
            ctx.set_mobj(mobj_idx, m);
        }
        assert(ctx.mobjs_view() =~= pre.mobjs_view().update(mobj_idx as int, bounced(m2)));
        if momz0 < 0 {
            if let Some(p) = m.player {
                if momz0 < -8 * GRAVITY {
                    let mut pl = ctx.players()[p];
                    pl.deltaviewheight = Fixed(momz0 >> 3u32);
                    ctx.set_player(p, pl);
                    ctx.s_start_sound(Some(mobj_idx), SfxEnum::sfx_oof);
                }
            }
            m.momz = Fixed(0);
        }
        m.z = m.floorz;
        ctx.set_mobj(mobj_idx, m);
        assert(m == landed(m2, momz0));
        assert(ctx.mobjs_view() =~= pre.mobjs_view().update(mobj_idx as int, m));
        if m.flags & MF_MISSILE != 0 && m.flags & MF_NOCLIP == 0 {
            p_explode_missile(mobj_idx, ctx);
            return;
        }
    } else if m.flags & MF_NOGRAVITY == 0 {
        if m.momz.0 == 0 {
            m.momz = Fixed(-2 * GRAVITY);
        } else {
            m.momz = Fixed(m.momz.0.wrapping_sub(GRAVITY));
        }
        ctx.set_mobj(mobj_idx, m);
    }
    assert(ctx.mobjs_view() =~= pre.mobjs_view().update(mobj_idx as int, m));
    let ghost mid = *ctx;
    z_ceiling(mobj_idx, m, ctx);
    proof {
        let m4 = if above_ceiling(m) { ceilinged(m) } else { m };
        assert(mid.mobjs_view().update(mobj_idx as int, m4) =~= pre.mobjs_view().update(mobj_idx as int, m4));
    }
}

// ---------------------------------------------------------------------------
// P_XYMovement
// ---------------------------------------------------------------------------

/// A speed limited to [`MAXMOVE`] either way.
pub open spec fn clamp_move(v: i32) -> i32 {
    if v > MAXMOVE {
        MAXMOVE
    } else if v < -MAXMOVE {
        (-MAXMOVE) as i32
    } else {
        v
    }
}

/// A move too long to try in one go (over half of [`MAXMOVE`] on an
/// axis).
pub open spec fn too_long(x: i32, y: i32) -> bool {
    x > MAXMOVE / 2 || y > MAXMOVE / 2 || x < -(MAXMOVE / 2) || y < -(MAXMOVE / 2)
}

/// The step tried next from remaining move `(x, y)`, and what remains
/// after it: half of a long move, else all of it.
pub open spec fn next_step(x: i32, y: i32) -> (i32, i32, i32, i32) {
    if too_long(x, y) {
        let hx = trunc_div(x as int, 2) as i32;
        let hy = trunc_div(y as int, 2) as i32;
        (hx, hy, hx, hy)
    } else {
        (x, y, 0, 0)
    }
}

/// Steps left to try from remaining move `(x, y)`.
pub open spec fn steps_left(x: i32, y: i32) -> nat {
    if x == 0 && y == 0 {
        0
    } else if too_long(x, y) {
        2
    } else {
        1
    }
}

/// The friction stage of `P_XYMovement` for thing `m` with player `p`
/// (if it has one): missiles, flying skulls and things in the air keep
/// their speed; a player with the no-momentum cheat, a nearly still
/// corpse, or a thing slower than [`STOPSPEED`] (a player only when not
/// trying to move) stops; anything else keeps [`FRICTION`] of its speed.
/// Also whether a stopping player's running animation is reset.
pub open spec fn friction(m: MapObject, p: Option<PlayerView>) -> (MapObject, bool) {
    let stop = MapObject { momx: Fixed(0), momy: Fixed(0), ..m };
    if m.flags & (MF_MISSILE | MF_SKULLFLY) != 0 || m.z.0 > m.floorz.0 {
        (m, false)
    } else if p matches Some(pv) && pv.cheats & CF_NOMOMENTUM != 0 {
        (stop, false)
    } else if m.flags & MF_CORPSE != 0 && -4096 < m.momx.0 < 4096 && -4096 < m.momy.0 < 4096 {
        (stop, false)
    } else if -STOPSPEED < m.momx.0 < STOPSPEED && -STOPSPEED < m.momy.0 < STOPSPEED
        && (p matches Some(pv) ==> pv.forwardmove == 0 && pv.sidemove == 0) {
        (stop, p is Some && (m.state matches Some(st) && S_PLAY_RUN1 <= st < S_PLAY_RUN1 + 4))
    } else {
        (MapObject { momx: Fixed(fixed_mul_spec(m.momx.0, FRICTION)), momy: Fixed(fixed_mul_spec(m.momy.0, FRICTION)), ..m }, false)
    }
}

/// The player of thing `m` in `ps`, if it has one.
pub open spec fn player_of(m: MapObject, ps: Seq<PlayerView>) -> Option<PlayerView> {
    match m.player {
        Some(p) => Some(ps[p as int]),
        None => None,
    }
}

/// The friction stage, from thing `i` in world `(ms, ps)`, leaves `post`.
pub open spec fn slowed<C: MobjContext>(ms: Seq<MapObject>, ps: Seq<PlayerView>, i: usize, post: C) -> bool {
    let m = ms[i as int];
    let (m2, stand) = friction(m, player_of(m, ps));
    if stand {
        &&& post.requests().last() == (MobjEvent::SetState { mobj: i, state: S_PLAY }, ms, ps)
        &&& post.mobjs_view()[i as int].momx == Fixed(0)
        &&& post.mobjs_view()[i as int].momy == Fixed(0)
    } else {
        post.mobjs_view() == ms.update(i as int, m2) && post.players_view() == ps
    }
}

fn xy_friction<C: MobjContext>(mobj_idx: usize, ctx: &mut C)
    requires
        mobj_idx < old(ctx).mobjs_view().len(),
        players_linked(old(ctx).mobjs_view(), old(ctx).players_view()),
    ensures
        forall|t: usize| #[trigger] final(ctx).info_view(t) == old(ctx).info_view(t),
        final(ctx).sky_view() == old(ctx).sky_view(),
        slowed(old(ctx).mobjs_view(), old(ctx).players_view(), mobj_idx, *final(ctx)),
        final(ctx).requests().len() >= old(ctx).requests().len(),
        final(ctx).requests().subrange(0, old(ctx).requests().len() as int) == old(ctx).requests(),
{
    let ghost pre = *ctx;
    let mut m = ctx.mobjs()[mobj_idx];
    if m.flags & (MF_MISSILE | MF_SKULLFLY) != 0 {
        assert(ctx.mobjs_view() =~= pre.mobjs_view().update(mobj_idx as int, m));
        return;
    }
    if m.z.0 > m.floorz.0 {
        assert(ctx.mobjs_view() =~= pre.mobjs_view().update(mobj_idx as int, m));
        return;
    }
    let mut fwd: i8 = 0;
    let mut side: i8 = 0;
    if let Some(p) = m.player {
        let pl = ctx.players()[p];
        fwd = pl.forwardmove;
        side = pl.sidemove;
        if pl.cheats & CF_NOMOMENTUM != 0 {
            m.momx = Fixed(0);
            m.momy = Fixed(0);
            ctx.set_mobj(mobj_idx, m);
            return;
        }
    }
    if m.flags & MF_CORPSE != 0 {
        if m.momx.0 > -4096 && m.momx.0 < 4096 && m.momy.0 > -4096 && m.momy.0 < 4096 {
            m.momx = Fixed(0);
            m.momy = Fixed(0);
            ctx.set_mobj(mobj_idx, m);
            return;
        }
    }
    if m.momx.0 > -STOPSPEED && m.momx.0 < STOPSPEED && m.momy.0 > -STOPSPEED && m.momy.0 < STOPSPEED {
        let should_stop = m.player.is_none() || (fwd == 0 && side == 0);
        if should_stop {
            if m.player.is_some() {
                if let Some(st) = m.state {
                    if st >= S_PLAY_RUN1 && st < S_PLAY_RUN1 + 4 {
                        ctx.p_set_mobj_state(mobj_idx, S_PLAY);
                        let mut n = ctx.mobjs()[mobj_idx];
                        n.momx = Fixed(0);
                        n.momy = Fixed(0);
                        ctx.set_mobj(mobj_idx, n);
                        assert(ctx.requests().subrange(0, pre.requests().len() as int) =~= pre.requests());
                        return;
                    }
                }
            }
            m.momx = Fixed(0);
            m.momy = Fixed(0);
            ctx.set_mobj(mobj_idx, m);
            return;
        }
    }
    m.momx = m.momx.fixed_mul(Fixed(FRICTION));
    m.momy = m.momy.fixed_mul(Fixed(FRICTION));
    ctx.set_mobj(mobj_idx, m);
}

/// One try of `P_XYMovement` from `c0` to `c1`: thing `i` tries the step
/// `(dx, dy)` from where it stands (leaving `cm`; `moved` tells whether it
/// got there); blocked, a player slides and anything else but a missile
/// stops (its speed set to zero).
pub open spec fn xy_try<C: MobjContext>(c0: C, cm: C, c1: C, i: usize, dx: i32, dy: i32, moved: bool) -> bool {
    let cur = c0.mobjs_view()[i as int];
    let b = cm.mobjs_view()[i as int];
    &&& cm.requests() == c0.requests().push(
        (MobjEvent::TryMove { mobj: i, x: Fixed(cur.x.0.wrapping_add(dx)), y: Fixed(cur.y.0.wrapping_add(dy)), moved }, c0.mobjs_view(), c0.players_view()),
    )
    &&& moved ==> c1 == cm
    &&& !moved ==> if b.player is Some {
        c1.requests() == cm.requests().push((MobjEvent::SlideMove { mobj: i }, cm.mobjs_view(), cm.players_view()))
    } else {
        &&& b.flags & MF_MISSILE == 0
        &&& c1.mobjs_view() == cm.mobjs_view().update(i as int, MapObject { momx: Fixed(0), momy: Fixed(0), ..b })
        &&& c1.players_view() == cm.players_view()
        &&& c1.requests() == cm.requests()
    }
}

/// A blocked missile ends the movement of thing `i` from `cm` to `post`:
/// it vanishes under a sky ceiling, else it explodes ([`exploded_from`]).
pub open spec fn missile_ended<C: MobjContext>(cm: C, post: C, i: usize) -> bool {
    let b = cm.mobjs_view()[i as int];
    &&& b.player is None
    &&& b.flags & MF_MISSILE != 0
    &&& if b.subsector matches Some(ss) && cm.ceilingpic_view(ss) == cm.sky_view() {
        post.requests() == cm.requests().push((MobjEvent::RemoveMobj { mobj: i }, cm.mobjs_view(), cm.players_view()))
    } else {
        exploded_from(cm.mobjs_view(), cm.players_view(), cm.requests(), cm.info_view(b.type_), i, post)
    }
}

/// The moving part of `P_XYMovement` of thing `i` from `pre` to `post`:
/// `k` tries of the step [`next_step`] gives (two halves of a long move,
/// else one), through states `ss` (with `cms` after each try's move and
/// `moveds` its result); either a blocked missile `ended` it at the last
/// try ([`missile_ended`]), or all tries were made ([`xy_try`]) and
/// friction ([`slowed`]) applied to the world they left.
pub open spec fn xy_run<C: MobjContext>(pre: C, post: C, ss: Seq<C>, cms: Seq<C>, moveds: Seq<bool>, k: int, ended: bool, i: usize) -> bool {
    let m = pre.mobjs_view()[i as int];
    let (sx, sy, rx, ry) = next_step(clamp_move(m.momx.0), clamp_move(m.momy.0));
    let steps = if too_long(clamp_move(m.momx.0), clamp_move(m.momy.0)) { 2int } else { 1int };
    &&& 1 <= k <= steps
    &&& ss.len() == k + 1
    &&& cms.len() == k
    &&& moveds.len() == k
    &&& ss[0] == pre
    &&& forall|j: int| #![trigger moveds[j]] 0 <= j < k && (j < k - 1 || !ended) ==> xy_try(ss[j], cms[j], ss[j + 1], i, sx, sy, moveds[j])
    &&& ended ==> {
        let cm = cms[k - 1];
        &&& cm.requests() == ss[k - 1].requests().push(
            (MobjEvent::TryMove {
                mobj: i,
                x: Fixed(ss[k - 1].mobjs_view()[i as int].x.0.wrapping_add(sx)),
                y: Fixed(ss[k - 1].mobjs_view()[i as int].y.0.wrapping_add(sy)),
                moved: false,
            }, ss[k - 1].mobjs_view(), ss[k - 1].players_view()),
        )
        &&& !moveds[k - 1]
        &&& missile_ended(cm, post, i)
    }
    &&& !ended ==> {
        &&& k == steps
        &&& slowed(ss[k].mobjs_view(), ss[k].players_view(), i, post)
        &&& post.requests().len() >= ss[k].requests().len()
        &&& post.requests().subrange(0, ss[k].requests().len() as int) == ss[k].requests()
    }
}

/// `P_XYMovement`. A thing without horizontal speed stays put, but a
/// flying skull that stopped drops out of flight and returns to its spawn
/// state. Otherwise its speed, limited to [`MAXMOVE`] per axis, is tried
/// from where the thing stands, in halves when long ([`next_step`]). A
/// blocked player slides, a blocked missile explodes (or vanishes under a
/// sky ceiling), anything else blocked stops. Then friction applies
/// ([`friction`]) to the thing as it came to rest ([`slowed`]).
pub fn p_xy_movement<C: MobjContext>(mobj_idx: usize, ctx: &mut C)
    requires
        mobj_idx < old(ctx).mobjs_view().len(),
        players_linked(old(ctx).mobjs_view(), old(ctx).players_view()),
    ensures
        forall|t: usize| #[trigger] final(ctx).info_view(t) == old(ctx).info_view(t),
        final(ctx).sky_view() == old(ctx).sky_view(),
        ({
            let pre = *old(ctx);
            let m = pre.mobjs_view()[mobj_idx as int];
            let n0 = pre.requests().len();
            if m.momx.0 == 0 && m.momy.0 == 0 {
                if m.flags & MF_SKULLFLY != 0 {
                    let calm = MapObject { flags: m.flags & !MF_SKULLFLY, momx: Fixed(0), momy: Fixed(0), momz: Fixed(0), ..m };
                    final(ctx).requests() == pre.requests().push(
                        (MobjEvent::SetState { mobj: mobj_idx, state: pre.info_view(m.type_).spawnstate },
                         pre.mobjs_view().update(mobj_idx as int, calm), pre.players_view()),
                    )
                } else {
                    &&& final(ctx).mobjs_view() == pre.mobjs_view()
                    &&& final(ctx).players_view() == pre.players_view()
                    &&& final(ctx).requests() == pre.requests()
                }
            } else {
                let (sx, sy, rx, ry) = next_step(clamp_move(m.momx.0), clamp_move(m.momy.0));
                &&& final(ctx).requests().len() > n0
                &&& final(ctx).requests().subrange(0, n0 as int) == pre.requests()
                &&& final(ctx).requests()[n0 as int] == (
                    MobjEvent::TryMove {
                        mobj: mobj_idx,
                        x: Fixed(m.x.0.wrapping_add(sx)),
                        y: Fixed(m.y.0.wrapping_add(sy)),
                        moved: final(ctx).requests()[n0 as int].0->moved,
                    },
                    pre.mobjs_view(),
                    pre.players_view(),
                )
                &&& exists|ss: Seq<C>, cms: Seq<C>, moveds: Seq<bool>, k: int, ended: bool|
                    #[trigger] xy_run(pre, *final(ctx), ss, cms, moveds, k, ended, mobj_idx)
            }
        }),
{
    let ghost pre = *ctx;
    let m = ctx.mobjs()[mobj_idx];
    if m.momx.0 == 0 && m.momy.0 == 0 {
        if m.flags & MF_SKULLFLY != 0 {
            let spawn = ctx.thing_info(m.type_).spawnstate;
            let mut calm = m;
            calm.flags = calm.flags & !MF_SKULLFLY;
            calm.momx = Fixed(0);
            calm.momy = Fixed(0);
            calm.momz = Fixed(0);
            ctx.set_mobj(mobj_idx, calm);
            ctx.p_set_mobj_state(mobj_idx, spawn);
        }
        return;
    }
    let mut xmove: i32 = if m.momx.0 > MAXMOVE { MAXMOVE } else if m.momx.0 < -MAXMOVE { -MAXMOVE } else { m.momx.0 };
    let mut ymove: i32 = if m.momy.0 > MAXMOVE { MAXMOVE } else if m.momy.0 < -MAXMOVE { -MAXMOVE } else { m.momy.0 };
    let ghost first = next_step(xmove, ymove);
    let ghost steps = if too_long(xmove, ymove) { 2int } else { 1int };
    let ghost mut ss: Seq<C> = seq![*ctx];
    let ghost mut cms: Seq<C> = Seq::empty();
    let ghost mut moveds: Seq<bool> = Seq::empty();
    let mut tries: usize = 0;
    while xmove != 0 || ymove != 0
        invariant
            steps == if too_long(clamp_move(m.momx.0), clamp_move(m.momy.0)) { 2int } else { 1int },
            tries + steps_left(xmove, ymove) == steps,
            tries == 1 && xmove != 0 || tries == 1 && ymove != 0 ==> (xmove, ymove) == (first.0, first.1),
            ss.len() == tries + 1,
            cms.len() == tries,
            moveds.len() == tries,
            ss[0] == pre,
            ss[tries as int] == *ctx,
            forall|j: int| #![trigger moveds[j]] 0 <= j < tries ==> xy_try(ss[j], cms[j], ss[j + 1], mobj_idx, first.0, first.1, moveds[j]),
            pre == *old(ctx),
            m.momx.0 != 0 || m.momy.0 != 0,
            tries + steps_left(xmove, ymove) <= 2,
            tries > 0 ==> !too_long(xmove, ymove),
            mobj_idx < ctx.mobjs_view().len(),
            players_linked(ctx.mobjs_view(), ctx.players_view()),
            -MAXMOVE <= xmove <= MAXMOVE,
            -MAXMOVE <= ymove <= MAXMOVE,
            forall|t: usize| #[trigger] ctx.info_view(t) == pre.info_view(t),
            ctx.sky_view() == pre.sky_view(),
            pre.mobjs_view()[mobj_idx as int] == m,
            ctx.requests().len() >= pre.requests().len() + tries,
            ctx.requests().subrange(0, pre.requests().len() as int) == pre.requests(),
            tries == 0 ==> *ctx == pre && (xmove, ymove) == (clamp_move(m.momx.0), clamp_move(m.momy.0)),
            tries > 0 ==> ctx.requests()[pre.requests().len() as int] == (
                MobjEvent::TryMove {
                    mobj: mobj_idx,
                    x: Fixed(m.x.0.wrapping_add(first.0)),
                    y: Fixed(m.y.0.wrapping_add(first.1)),
                    moved: ctx.requests()[pre.requests().len() as int].0->moved,
                },
                pre.mobjs_view(),
                pre.players_view(),
            ),
            first == next_step(clamp_move(m.momx.0), clamp_move(m.momy.0)),
        decreases steps_left(xmove, ymove),
    {
        let cur = ctx.mobjs()[mobj_idx];
        let (ptryx, ptryy) = if xmove > MAXMOVE / 2 || ymove > MAXMOVE / 2 || xmove < -(MAXMOVE / 2) || ymove < -(MAXMOVE / 2) {
            let hx = half(xmove);
            let hy = half(ymove);
            assert(-(MAXMOVE / 2) <= hx <= MAXMOVE / 2);
            assert(-(MAXMOVE / 2) <= hy <= MAXMOVE / 2);
            assert(hx != 0 || hy != 0);
            xmove = hx;
            ymove = hy;
            (Fixed(cur.x.0.wrapping_add(hx)), Fixed(cur.y.0.wrapping_add(hy)))
        } else {
            let px = Fixed(cur.x.0.wrapping_add(xmove));
            let py = Fixed(cur.y.0.wrapping_add(ymove));
            xmove = 0;
            ymove = 0;
            (px, py)
        };
        let ghost before = *ctx;
        proof {
            assert(ptryx == Fixed(before.mobjs_view()[mobj_idx as int].x.0.wrapping_add(first.0)));
            assert(ptryy == Fixed(before.mobjs_view()[mobj_idx as int].y.0.wrapping_add(first.1)));
        }
        let moved = ctx.p_try_move(mobj_idx, ptryx, ptryy);
        let ghost cm = *ctx;
        assert(ctx.requests().subrange(0, pre.requests().len() as int) =~= pre.requests());
        assert(tries == 0 ==> ctx.requests()[pre.requests().len() as int] == ctx.requests().last());
        if !moved {
            let b = ctx.mobjs()[mobj_idx];
            if b.player.is_some() {
                ctx.p_slide_move(mobj_idx);
            } else if b.flags & MF_MISSILE != 0 {
                if let Some(sub) = b.subsector {
                    if ctx.sector_ceilingpic(sub) == ctx.sky_flatnum() {
                        ctx.p_remove_mobj(mobj_idx);
                        assert(ctx.requests().subrange(0, pre.requests().len() as int) =~= pre.requests());
                        proof {
                            let cms1 = cms.push(cm);
                            let moveds1 = moveds.push(false);
                            assert(missile_ended(cm, *ctx, mobj_idx));
                            assert forall|j: int| #![trigger moveds1[j]] 0 <= j < tries
                                implies xy_try(ss.push(cm)[j], cms1[j], ss.push(cm)[j + 1], mobj_idx, first.0, first.1, moveds1[j]) by {
                                assert(cms1[j] == cms[j] && moveds1[j] == moveds[j]);
                                assert(ss.push(cm)[j] == ss[j] && ss.push(cm)[j + 1] == ss[j + 1]);
                            }
                            assert(xy_run(pre, *ctx, ss.push(cm), cms1, moveds1, tries + 1, true, mobj_idx));
                        }
                        return;
                    }
                }
                proof {
                    assert(ctx.info_view(b.type_) == pre.info_view(b.type_));
                }
                p_explode_missile(mobj_idx, ctx);
                assert(ctx.requests().subrange(0, pre.requests().len() as int) =~= pre.requests());
                proof {
                    let cms1 = cms.push(cm);
                    let moveds1 = moveds.push(false);
                    assert(missile_ended(cm, *ctx, mobj_idx));
                    assert forall|j: int| #![trigger moveds1[j]] 0 <= j < tries
                        implies xy_try(ss.push(cm)[j], cms1[j], ss.push(cm)[j + 1], mobj_idx, first.0, first.1, moveds1[j]) by {
                        assert(cms1[j] == cms[j] && moveds1[j] == moveds[j]);
                        assert(ss.push(cm)[j] == ss[j] && ss.push(cm)[j + 1] == ss[j + 1]);
                    }
                    assert(xy_run(pre, *ctx, ss.push(cm), cms1, moveds1, tries + 1, true, mobj_idx));
                }
                return;
            } else {
                let mut z = b;
                z.momx = Fixed(0);
                z.momy = Fixed(0);
                ctx.set_mobj(mobj_idx, z);
            }
            assert(ctx.requests().subrange(0, pre.requests().len() as int) =~= pre.requests());
        }
        proof {
            assert(xy_try(before, cm, *ctx, mobj_idx, first.0, first.1, moved));
            let ss0 = ss;
            let cms0 = cms;
            let mv0 = moveds;
            ss = ss.push(*ctx);
            cms = cms.push(cm);
            moveds = moveds.push(moved);
            assert forall|j: int| #![trigger moveds[j]] 0 <= j < tries + 1 implies xy_try(ss[j], cms[j], ss[j + 1], mobj_idx, first.0, first.1, moveds[j]) by {
                if j < tries {
                    assert(ss[j] == ss0[j] && ss[j + 1] == ss0[j + 1] && cms[j] == cms0[j] && moveds[j] == mv0[j]);
                }
            }
        }
        tries = tries + 1;
    }
    let ghost rest = *ctx;
    xy_friction(mobj_idx, ctx);
    assert(ctx.requests().subrange(0, pre.requests().len() as int) =~= pre.requests());
    proof {
        assert(ss[tries as int] == rest);
        assert(xy_run(pre, *ctx, ss, cms, moveds, tries as int, false, mobj_idx));
    }
}

// ---------------------------------------------------------------------------
// State actions
// ---------------------------------------------------------------------------

/// The action a state runs on entry.
#[allow(non_camel_case_types)]
#[derive(Clone, Copy, Debug, PartialEq, Eq, Structural)]
pub enum ActionFnId {
    NoAction,
    A_Light0,
    A_WeaponReady,
    A_Lower,
    A_Raise,
    A_Punch,
    A_ReFire,
    A_FirePistol,
    A_Light1,
    A_FireShotgun,
    A_Light2,
    A_FireShotgun2,
    A_CheckReload,
    A_OpenShotgun2,
    A_LoadShotgun2,
    A_CloseShotgun2,
    A_FireCGun,
    A_GunFlash,
    A_FireMissile,
    A_Saw,
    A_FirePlasma,
    A_BFGsound,
    A_FireBFG,
    A_BFGSpray,
    A_Explode,
    A_Pain,
    A_PlayerScream,
    A_Fall,
    A_XScream,
    A_Look,
    A_Chase,
    A_FaceTarget,
    A_PosAttack,
    A_Scream,
    A_SPosAttack,
    A_VileChase,
    A_VileStart,
    A_VileTarget,
    A_VileAttack,
    A_StartFire,
    A_Fire,
    A_FireCrackle,
    A_Tracer,
    A_SkelWhoosh,
    A_SkelFist,
    A_SkelMissile,
    A_FatRaise,
    A_FatAttack1,
    A_FatAttack2,
    A_FatAttack3,
    A_BossDeath,
    A_CPosAttack,
    A_CPosRefire,
    A_TroopAttack,
    A_SargAttack,
    A_HeadAttack,
    A_BruisAttack,
    A_SkullAttack,
    A_Metal,
    A_SpidRefire,
    A_BabyMetal,
    A_BspiAttack,
    A_Hoof,
    A_CyberAttack,
    A_PainAttack,
    A_PainDie,
    A_KeenDie,
    A_BrainPain,
    A_BrainScream,
    A_BrainDie,
    A_BrainAwake,
    A_BrainSpit,
    A_SpawnSound,
    A_SpawnFly,
    A_BrainExplode,
}

/// The state actions the thing state machine runs itself, as each acts
/// on thing `i` (`pre` to `post`); every other action is run elsewhere
/// (monster thinking, weapon sprites) and does nothing here.
pub open spec fn state_action<C: EnemyContext>(action: ActionFnId, i: usize, pre: C, post: C) -> bool {
    let m = pre.mobjs_view()[i as int];
    let info = pre.info_view(m.type_);
    match action {
        ActionFnId::A_Fall => only_mobj(pre, post, i, MapObject { flags: m.flags & !MF_SOLID, ..m }),
        ActionFnId::A_XScream => only_event(pre, post, EnemyEvent::Sound { origin: Some(i), sfx: SfxEnum::sfx_slop }),
        ActionFnId::A_Pain => if info.painsound != SfxEnum::sfx_None {
            only_event(pre, post, EnemyEvent::Sound { origin: Some(i), sfx: info.painsound })
        } else {
            nothing(pre, post)
        },
        ActionFnId::A_Scream => if info.deathsound != SfxEnum::sfx_None {
            let rng = pre.rng_view();
            let origin = if m.type_ == MT_SPIDER || m.type_ == MT_CYBORG { None } else { Some(i) };
            &&& post.mobjs_view() == pre.mobjs_view()
            &&& post.rng_view() == if scream_draws(info.deathsound) { rng.advanced() } else { rng }
            &&& post.events() == pre.events().push(EnemyEvent::Sound { origin, sfx: scream_sound(info.deathsound, rng.next_p()) })
        } else {
            nothing(pre, post)
        },
        ActionFnId::A_PlayerScream => only_event(pre, post, EnemyEvent::Sound {
            origin: Some(i),
            sfx: if pre.mode_view() == GameMode::Commercial && m.health < -50 { SfxEnum::sfx_pdiehi } else { SfxEnum::sfx_pldeth },
        }),
        ActionFnId::A_Explode => post.events() == pre.events().push(EnemyEvent::RadiusAttack {
            spot: i,
            source: match m.target {
                Some(t) => t,
                None => i,
            },
            damage: 128,
        }),
        _ => nothing(pre, post),
    }
}

/// Runs the action of a state thing `mobj_idx` entered ([`state_action`]).
pub fn dispatch_state_action<C: EnemyContext>(mobj_idx: usize, action: ActionFnId, ctx: &mut C)
    requires
        mobj_idx < old(ctx).mobjs_view().len(),
    ensures
        state_action(action, mobj_idx, *old(ctx), *final(ctx)),
{
    match action {
        ActionFnId::A_Fall => a_fall(mobj_idx, ctx),
        ActionFnId::A_XScream => a_xscream(mobj_idx, ctx),
        ActionFnId::A_Pain => {
            let info = ctx.mobj_info(ctx.mobjs()[mobj_idx].type_);
            if info.painsound != SfxEnum::sfx_None {
                a_pain(mobj_idx, ctx);
            }
        },
        ActionFnId::A_Scream => {
            let info = ctx.mobj_info(ctx.mobjs()[mobj_idx].type_);
            if info.deathsound != SfxEnum::sfx_None {
                a_scream(mobj_idx, ctx);
            }
        },
        ActionFnId::A_PlayerScream => a_player_scream(mobj_idx, ctx),
        ActionFnId::A_Explode => a_explode(mobj_idx, ctx),
        _ => {},
    }
}

} // verus!
