//! Mover records shared by the sector-special modules, the neighbour
//! searches they use, and the context through which they reach the level.

use vstd::prelude::*;
use crate::fixed::{Fixed, FRACUNIT};
use crate::random::DoomRandom;
use crate::types::{ActionFn, LineDef, Sector, SfxEnum, SideDef, Thinker, ML_TWOSIDED};

verus! {

// ---------------------------------------------------------------------------
// Speeds and limits
// ---------------------------------------------------------------------------

/// Floor mover speed (1.0 per tic).
pub const FLOORSPEED: i32 = 65536;
/// Vertical door speed (2.0 per tic).
pub const VDOORSPEED: i32 = 131072;
/// Tics a raised door waits before closing.
pub const VDOORWAIT: i32 = 150;
/// Platform speed (1.0 per tic).
pub const PLATSPEED: i32 = 65536;
/// Seconds a platform waits (multiplied by 35 tics per second).
pub const PLATWAIT: i32 = 3;
/// Maximum number of simultaneously tracked platforms.
pub const MAXPLATS: usize = 30;

// ---------------------------------------------------------------------------
// Mover records
// ---------------------------------------------------------------------------

/// Outcome of moving a plane one tic.
#[derive(Clone, Copy, Debug, PartialEq, Eq, Structural)]
pub enum ResultE {
    /// Still moving.
    MoveOk,
    Crushed,
    PastDest,
}

/// Ceiling mover kinds.
#[derive(Clone, Copy, Debug, PartialEq, Eq, Structural)]
pub enum CeilingType {
    LowerToFloor,
    RaiseToHighest,
    LowerAndCrush,
    CrushAndRaise,
    FastCrushAndRaise,
    SilentCrushAndRaise,
}

/// A ceiling mover.
#[derive(Clone, Copy, Debug, PartialEq, Eq, Structural)]
pub struct CeilingT {
    pub thinker: Thinker,
    pub ceiling_type: CeilingType,
    pub sector: usize,
    pub bottomheight: Fixed,
    pub topheight: Fixed,
    pub speed: Fixed,
    pub crush: bool,
    /// 1 = up, 0 = waiting (in stasis), -1 = down.
    pub direction: i32,
    pub tag: i32,
    /// Direction saved while in stasis.
    pub olddirection: i32,
}

impl CeilingT {
    /// A ceiling mover for `sector` with every other field cleared.
    pub fn new(sector: usize) -> (r: CeilingT)
        ensures
            r == CeilingT::blank(sector),
    {
        CeilingT {
            thinker: Thinker { function: ActionFn::NoAction },
            ceiling_type: CeilingType::LowerToFloor,
            sector,
            bottomheight: Fixed(0),
            topheight: Fixed(0),
            speed: Fixed(0),
            crush: false,
            direction: 0,
            tag: 0,
            olddirection: 0,
        }
    }

    pub open spec fn blank(sector: usize) -> CeilingT {
        CeilingT {
            thinker: Thinker { function: ActionFn::NoAction },
            ceiling_type: CeilingType::LowerToFloor,
            sector,
            bottomheight: Fixed(0),
            topheight: Fixed(0),
            speed: Fixed(0),
            crush: false,
            direction: 0,
            tag: 0,
            olddirection: 0,
        }
    }
}

/// Vertical door kinds.
#[derive(Clone, Copy, Debug, PartialEq, Eq, Structural)]
pub enum VldoorType {
    Normal,
    Close30ThenOpen,
    Close,
    Open,
    RaiseIn5Mins,
    BlazeRaise,
    BlazeOpen,
    BlazeClose,
}

/// A vertical door mover.
#[derive(Clone, Copy, Debug, PartialEq, Eq, Structural)]
pub struct VldoorT {
    pub thinker: Thinker,
    pub door_type: VldoorType,
    pub sector: usize,
    pub topheight: Fixed,
    pub speed: Fixed,
    /// 1 = up, 0 = waiting at top, -1 = down, 2 = initial wait.
    pub direction: i32,
    /// Tics to wait at the top.
    pub topwait: i32,
    /// Countdown while waiting.
    pub topcountdown: i32,
}

impl VldoorT {
    /// A door mover for `sector` with every other field cleared.
    pub fn new(sector: usize) -> (r: VldoorT)
        ensures
            r == VldoorT::blank(sector),
    {
        VldoorT {
            thinker: Thinker { function: ActionFn::NoAction },
            door_type: VldoorType::Normal,
            sector,
            topheight: Fixed(0),
            speed: Fixed(0),
            direction: 0,
            topwait: 0,
            topcountdown: 0,
        }
    }

    pub open spec fn blank(sector: usize) -> VldoorT {
        VldoorT {
            thinker: Thinker { function: ActionFn::NoAction },
            door_type: VldoorType::Normal,
            sector,
            topheight: Fixed(0),
            speed: Fixed(0),
            direction: 0,
            topwait: 0,
            topcountdown: 0,
        }
    }
}

/// Platform states.
#[derive(Clone, Copy, Debug, PartialEq, Eq, Structural)]
pub enum PlatStatus {
    Up,
    Down,
    Waiting,
    InStasis,
}

/// Platform kinds.
#[derive(Clone, Copy, Debug, PartialEq, Eq, Structural)]
pub enum PlatType {
    PerpetualRaise,
    DownWaitUpStay,
    RaiseAndChange,
    RaiseToNearestAndChange,
    BlazeDWUS,
}

/// A platform (lift) mover.
#[derive(Clone, Copy, Debug, PartialEq, Eq, Structural)]
pub struct PlatT {
    pub thinker: Thinker,
    pub sector: usize,
    pub speed: Fixed,
    pub low: Fixed,
    pub high: Fixed,
    pub wait: i32,
    pub count: i32,
    pub status: PlatStatus,
    pub oldstatus: PlatStatus,
    pub crush: bool,
    pub tag: i32,
    pub plat_type: PlatType,
}

impl PlatT {
    /// A platform mover for `sector` with every other field cleared.
    pub fn new(sector: usize) -> (r: PlatT)
        ensures
            r == PlatT::blank(sector),
    {
        PlatT {
            thinker: Thinker { function: ActionFn::NoAction },
            sector,
            speed: Fixed(0),
            low: Fixed(0),
            high: Fixed(0),
            wait: 0,
            count: 0,
            status: PlatStatus::Up,
            oldstatus: PlatStatus::Up,
            crush: false,
            tag: 0,
            plat_type: PlatType::PerpetualRaise,
        }
    }

    pub open spec fn blank(sector: usize) -> PlatT {
        PlatT {
            thinker: Thinker { function: ActionFn::NoAction },
            sector,
            speed: Fixed(0),
            low: Fixed(0),
            high: Fixed(0),
            wait: 0,
            count: 0,
            status: PlatStatus::Up,
            oldstatus: PlatStatus::Up,
            crush: false,
            tag: 0,
            plat_type: PlatType::PerpetualRaise,
        }
    }
}

/// Floor mover kinds.
#[derive(Clone, Copy, Debug, PartialEq, Eq, Structural)]
pub enum FloorType {
    LowerFloor,
    LowerFloorToLowest,
    TurboLower,
    RaiseFloor,
    RaiseFloorToNearest,
    RaiseToTexture,
    LowerAndChange,
    RaiseFloor24,
    RaiseFloor24AndChange,
    RaiseFloorCrush,
    RaiseFloorTurbo,
    DonutRaise,
    RaiseFloor512,
}

/// Staircase kinds.
#[derive(Clone, Copy, Debug, PartialEq, Eq, Structural)]
pub enum StairType {
    Build8,
    Turbo16,
}

/// A floor mover.
#[derive(Clone, Copy, Debug, PartialEq, Eq, Structural)]
pub struct FloorMoveT {
    pub thinker: Thinker,
    pub floor_type: FloorType,
    pub crush: bool,
    pub sector: usize,
    pub direction: i32,
    pub newsecspecial: i32,
    pub newtexture: i16,
    pub floordestheight: Fixed,
    pub speed: Fixed,
}

impl FloorMoveT {
    /// A floor mover for `sector` with every other field cleared.
    pub fn new(sector: usize) -> (r: FloorMoveT)
        ensures
            r == FloorMoveT::blank(sector),
    {
        FloorMoveT {
            thinker: Thinker { function: ActionFn::NoAction },
            floor_type: FloorType::LowerFloor,
            crush: false,
            sector,
            direction: 0,
            newsecspecial: 0,
            newtexture: 0,
            floordestheight: Fixed(0),
            speed: Fixed(0),
        }
    }

    pub open spec fn blank(sector: usize) -> FloorMoveT {
        FloorMoveT {
            thinker: Thinker { function: ActionFn::NoAction },
            floor_type: FloorType::LowerFloor,
            crush: false,
            sector,
            direction: 0,
            newsecspecial: 0,
            newtexture: 0,
            floordestheight: Fixed(0),
            speed: Fixed(0),
        }
    }
}


/// A fire-flicker light effect.
#[derive(Clone, Copy, Debug, PartialEq, Eq, Structural)]
pub struct FireFlickerT {
    pub thinker: Thinker,
    pub sector: usize,
    pub count: i32,
    pub maxlight: i32,
    pub minlight: i32,
}

impl FireFlickerT {
    /// A fire flicker for `sector` with every other field cleared.
    pub fn new(sector: usize) -> (r: FireFlickerT)
        ensures
            r == (FireFlickerT { thinker: Thinker { function: ActionFn::NoAction }, sector, count: 0, maxlight: 0, minlight: 0 }),
    {
        FireFlickerT { thinker: Thinker { function: ActionFn::NoAction }, sector, count: 0, maxlight: 0, minlight: 0 }
    }
}

/// A randomly flashing (broken) light.
#[derive(Clone, Copy, Debug, PartialEq, Eq, Structural)]
pub struct LightFlashT {
    pub thinker: Thinker,
    pub sector: usize,
    pub count: i32,
    pub maxlight: i32,
    pub minlight: i32,
    pub maxtime: i32,
    pub mintime: i32,
}

impl LightFlashT {
    /// A light flash for `sector` with every other field cleared.
    pub fn new(sector: usize) -> (r: LightFlashT)
        ensures
            r == (LightFlashT {
                thinker: Thinker { function: ActionFn::NoAction },
                sector,
                count: 0,
                maxlight: 0,
                minlight: 0,
                maxtime: 0,
                mintime: 0,
            }),
    {
        LightFlashT {
            thinker: Thinker { function: ActionFn::NoAction },
            sector,
            count: 0,
            maxlight: 0,
            minlight: 0,
            maxtime: 0,
            mintime: 0,
        }
    }
}

/// A strobing light.
#[derive(Clone, Copy, Debug, PartialEq, Eq, Structural)]
pub struct StrobeFlashT {
    pub thinker: Thinker,
    pub sector: usize,
    pub count: i32,
    pub minlight: i32,
    pub maxlight: i32,
    pub darktime: i32,
    pub brighttime: i32,
}

impl StrobeFlashT {
    /// A strobe for `sector` with every other field cleared.
    pub fn new(sector: usize) -> (r: StrobeFlashT)
        ensures
            r == (StrobeFlashT {
                thinker: Thinker { function: ActionFn::NoAction },
                sector,
                count: 0,
                minlight: 0,
                maxlight: 0,
                darktime: 0,
                brighttime: 0,
            }),
    {
        StrobeFlashT {
            thinker: Thinker { function: ActionFn::NoAction },
            sector,
            count: 0,
            minlight: 0,
            maxlight: 0,
            darktime: 0,
            brighttime: 0,
        }
    }
}

/// A smoothly glowing light.
#[derive(Clone, Copy, Debug, PartialEq, Eq, Structural)]
pub struct GlowT {
    pub thinker: Thinker,
    pub sector: usize,
    pub minlight: i32,
    pub maxlight: i32,
    pub direction: i32,
}

impl GlowT {
    /// A glow for `sector` with every other field cleared.
    pub fn new(sector: usize) -> (r: GlowT)
        ensures
            r == (GlowT { thinker: Thinker { function: ActionFn::NoAction }, sector, minlight: 0, maxlight: 0, direction: 0 }),
    {
        GlowT { thinker: Thinker { function: ActionFn::NoAction }, sector, minlight: 0, maxlight: 0, direction: 0 }
    }
}

// ---------------------------------------------------------------------------
// Level well-formedness
// ---------------------------------------------------------------------------

/// Every line a sector lists exists, and every sector a line names exists.
pub open spec fn level_wf(sectors: Seq<Sector>, lines: Seq<LineDef>) -> bool {
    &&& forall|i: int, k: int|
        0 <= i < sectors.len() && 0 <= k < sectors[i].lines@.len() ==> #[trigger] sectors[i].lines@[k]
            < lines.len()
    &&& forall|j: int| 0 <= j < lines.len() ==> ((#[trigger] lines[j]).frontsector is Some ==> lines[j].frontsector.unwrap() < sectors.len())
    &&& forall|j: int| 0 <= j < lines.len() ==> ((#[trigger] lines[j]).backsector is Some ==> lines[j].backsector.unwrap() < sectors.len())
}

// ---------------------------------------------------------------------------
// Neighbour searches
// ---------------------------------------------------------------------------

/// `getNextSector`: across a two-sided line, the sector that is not `sec`.
pub open spec fn next_sector(line: LineDef, sec: usize) -> Option<usize> {
    if (line.flags & ML_TWOSIDED) == 0 {
        None
    } else if line.frontsector == Some(sec) {
        line.backsector
    } else {
        line.frontsector
    }
}

/// `getNextSector`: the sector on the other side of a two-sided line, or
/// `None` for a one-sided line.
pub fn get_next_sector(line: &LineDef, sec: usize) -> (r: Option<usize>)
    ensures
        r == next_sector(*line, sec),
{
    if (line.flags & ML_TWOSIDED) == 0 {
        None
    } else if line.frontsector == Some(sec) {
        line.backsector
    } else {
        line.frontsector
    }
}

/// First sector at index `>= from` whose tag is `tag`, or -1.
pub open spec fn find_tagged_from(sectors: Seq<Sector>, tag: i16, from: int) -> int
    decreases sectors.len() - from,
{
    if from < 0 || from >= sectors.len() {
        -1
    } else if sectors[from].tag == tag {
        from
    } else {
        find_tagged_from(sectors, tag, from + 1)
    }
}

pub proof fn lemma_find_tagged_from(sectors: Seq<Sector>, tag: i16, from: int)
    requires
        0 <= from,
    ensures
        find_tagged_from(sectors, tag, from) == -1 || (from <= find_tagged_from(sectors, tag, from)
            < sectors.len() && sectors[find_tagged_from(sectors, tag, from)].tag == tag),
        forall|j: int|
            from <= j < sectors.len() && (find_tagged_from(sectors, tag, from) == -1 || j
                < find_tagged_from(sectors, tag, from)) ==> sectors[j].tag != tag,
    decreases sectors.len() - from,
{
    if from < sectors.len() && sectors[from].tag != tag {
        lemma_find_tagged_from(sectors, tag, from + 1);
    }
}

/// `P_FindSectorFromLineTag`: the first sector after `start` whose tag is
/// the line's tag, or -1 when there is none.
pub fn p_find_sector_from_line_tag(line: &LineDef, start: i32, sectors: &[Sector]) -> (r: i32)
    requires
        sectors@.len() < i32::MAX,
        -1 <= start < i32::MAX,
    ensures
        r == find_tagged_from(sectors@, line.tag, start + 1),
{
    let mut i: usize = (start + 1) as usize;
    if i >= sectors.len() {
        return -1;
    }
    while i < sectors.len()
        invariant
            start + 1 <= i <= sectors@.len(),
            sectors@.len() < i32::MAX,
            find_tagged_from(sectors@, line.tag, start + 1) == find_tagged_from(sectors@, line.tag, i as int),
        decreases sectors@.len() - i,
    {
        if sectors[i].tag == line.tag {
            return i as i32;
        }
        i = i + 1;
    }
    -1
}

/// `P_FindMinSurroundingLight`: the least light level among the neighbours
/// of `sector`, or `max` when that is less.
pub fn p_find_min_surrounding_light(sector: usize, max: i32, sectors: &[Sector], lines: &[LineDef]) -> (r: i32)
    requires
        level_wf(sectors@, lines@),
        sector < sectors@.len(),
    ensures
        r == min_neighbor_light(sectors@, lines@, sector as int, max as int),
{
    find_min_light(sector, max, sectors, lines)
}

/// Fold `step` over the sectors across the first `n` lines of sector `sec`,
/// in line order, starting from `init`. One-sided lines are skipped.
pub open spec fn fold_neighbors(
    sectors: Seq<Sector>,
    lines: Seq<LineDef>,
    sec: int,
    init: int,
    n: int,
    step: spec_fn(int, Sector) -> int,
) -> int
    decreases n,
{
    if n <= 0 {
        init
    } else {
        let prev = fold_neighbors(sectors, lines, sec, init, n - 1, step);
        match next_sector(lines[sectors[sec].lines@[n - 1] as int], sec as usize) {
            Some(o) => step(prev, sectors[o as int]),
            None => prev,
        }
    }
}

/// Keep the lower floor.
pub open spec fn step_lowest_floor() -> spec_fn(int, Sector) -> int {
    |acc: int, s: Sector| if (s.floorheight.0 as int) < acc { s.floorheight.0 as int } else { acc }
}

/// Keep the higher floor.
pub open spec fn step_highest_floor() -> spec_fn(int, Sector) -> int {
    |acc: int, s: Sector| if (s.floorheight.0 as int) > acc { s.floorheight.0 as int } else { acc }
}

/// Keep the lower ceiling.
pub open spec fn step_lowest_ceiling() -> spec_fn(int, Sector) -> int {
    |acc: int, s: Sector| if (s.ceilingheight.0 as int) < acc { s.ceilingheight.0 as int } else { acc }
}

/// Keep the higher ceiling.
pub open spec fn step_highest_ceiling() -> spec_fn(int, Sector) -> int {
    |acc: int, s: Sector| if (s.ceilingheight.0 as int) > acc { s.ceilingheight.0 as int } else { acc }
}

/// Keep the lowest floor that is above `current`.
pub open spec fn step_next_floor(current: int) -> spec_fn(int, Sector) -> int {
    |acc: int, s: Sector|
        if (s.floorheight.0 as int) > current && (s.floorheight.0 as int) < acc {
            s.floorheight.0 as int
        } else {
            acc
        }
}

/// Keep the brighter light level.
pub open spec fn step_max_light() -> spec_fn(int, Sector) -> int {
    |acc: int, s: Sector| if (s.lightlevel as int) > acc { s.lightlevel as int } else { acc }
}

/// Keep the darker light level.
pub open spec fn step_min_light() -> spec_fn(int, Sector) -> int {
    |acc: int, s: Sector| if (s.lightlevel as int) < acc { s.lightlevel as int } else { acc }
}

/// A fold whose step keeps `i32` values `i32` stays in `i32`.
pub proof fn lemma_fold_neighbors_i32(
    sectors: Seq<Sector>,
    lines: Seq<LineDef>,
    sec: int,
    init: int,
    n: int,
    step: spec_fn(int, Sector) -> int,
)
    requires
        level_wf(sectors, lines),
        0 <= sec < sectors.len(),
        0 <= n <= sectors[sec].lines@.len(),
        i32::MIN <= init <= i32::MAX + 1,
        forall|a: int, s: Sector| i32::MIN <= a <= i32::MAX + 1 ==> i32::MIN <= #[trigger] step(a, s) <= i32::MAX + 1,
    ensures
        i32::MIN <= fold_neighbors(sectors, lines, sec, init, n, step) <= i32::MAX + 1,
    decreases n,
{
    if n > 0 {
        lemma_fold_neighbors_i32(sectors, lines, sec, init, n - 1, step);
    }
}

/// `P_FindLowestFloorSurrounding`: the lowest floor among the sector and its neighbours.
pub open spec fn lowest_floor_surrounding(sectors: Seq<Sector>, lines: Seq<LineDef>, sec: int) -> int {
    fold_neighbors(sectors, lines, sec, sectors[sec].floorheight.0 as int, sectors[sec].lines@.len() as int, step_lowest_floor())
}

/// `P_FindHighestFloorSurrounding`: the highest neighbouring floor, or -500.0
/// when every neighbour is lower (or there is none).
pub open spec fn highest_floor_surrounding(sectors: Seq<Sector>, lines: Seq<LineDef>, sec: int) -> int {
    fold_neighbors(sectors, lines, sec, -500 * FRACUNIT, sectors[sec].lines@.len() as int, step_highest_floor())
}

/// `P_FindLowestCeilingSurrounding`: the lowest neighbouring ceiling, or
/// `i32::MAX` when there is no neighbour.
pub open spec fn lowest_ceiling_surrounding(sectors: Seq<Sector>, lines: Seq<LineDef>, sec: int) -> int {
    fold_neighbors(sectors, lines, sec, i32::MAX as int, sectors[sec].lines@.len() as int, step_lowest_ceiling())
}

/// `P_FindHighestCeilingSurrounding`: the highest neighbouring ceiling, or 0
/// when every neighbour is lower (or there is none).
pub open spec fn highest_ceiling_surrounding(sectors: Seq<Sector>, lines: Seq<LineDef>, sec: int) -> int {
    fold_neighbors(sectors, lines, sec, 0, sectors[sec].lines@.len() as int, step_highest_ceiling())
}

/// `P_FindNextHighestFloor`: the lowest neighbouring floor above `current`,
/// or `current` when there is none.
pub open spec fn next_highest_floor(sectors: Seq<Sector>, lines: Seq<LineDef>, sec: int, current: int) -> int {
    let r = fold_neighbors(sectors, lines, sec, i32::MAX as int + 1, sectors[sec].lines@.len() as int, step_next_floor(current));
    if r == i32::MAX as int + 1 {
        current
    } else {
        r
    }
}

/// Shared loop of the neighbour searches: returns the fold of `step` over the
/// neighbours of `sector`, computed with the matching executable step.
fn find_surrounding(
    sector: usize,
    init: i64,
    sectors: &[Sector],
    lines: &[LineDef],
    kind: u8,
    current: i32,
) -> (r: i64)
    requires
        level_wf(sectors@, lines@),
        sector < sectors@.len(),
        i32::MIN <= init <= i32::MAX + 1,
        kind < 7,
    ensures
        r == fold_neighbors(sectors@, lines@, sector as int, init as int, sectors@[sector as int].lines@.len() as int, step_of(kind, current as int)),
        i32::MIN <= r <= i32::MAX + 1,
{
    let mut acc = init;
    let n = sectors[sector].lines.len();
    let mut k: usize = 0;
    while k < n
        invariant
            level_wf(sectors@, lines@),
            sector < sectors@.len(),
            n == sectors@[sector as int].lines@.len(),
            0 <= k <= n,
            kind < 7,
            i32::MIN <= init <= i32::MAX + 1,
            acc == fold_neighbors(sectors@, lines@, sector as int, init as int, k as int, step_of(kind, current as int)),
        decreases n - k,
    {
        proof {
            lemma_fold_neighbors_i32(sectors@, lines@, sector as int, init as int, k as int, step_of(kind, current as int));
        }
        let l = sectors[sector].lines[k];
        assert(l < lines@.len());
        if let Some(other) = get_next_sector(&lines[l], sector) {
            let s = &sectors[other];
            let f = s.floorheight.0 as i64;
            let c = s.ceilingheight.0 as i64;
            let light = s.lightlevel as i64;
            acc = match kind {
                0 => if f < acc { f } else { acc },
                1 => if f > acc { f } else { acc },
                2 => if c < acc { c } else { acc },
                3 => if c > acc { c } else { acc },
                4 => if f > current as i64 && f < acc { f } else { acc },
                5 => if light > acc { light } else { acc },
                _ => if light < acc { light } else { acc },
            };
        }
        k = k + 1;
    }
    proof {
        lemma_fold_neighbors_i32(sectors@, lines@, sector as int, init as int, n as int, step_of(kind, current as int));
    }
    acc
}

/// The step a search kind folds with.
pub open spec fn step_of(kind: u8, current: int) -> spec_fn(int, Sector) -> int {
    if kind == 0 {
        step_lowest_floor()
    } else if kind == 1 {
        step_highest_floor()
    } else if kind == 2 {
        step_lowest_ceiling()
    } else if kind == 3 {
        step_highest_ceiling()
    } else if kind == 4 {
        step_next_floor(current)
    } else if kind == 5 {
        step_max_light()
    } else {
        step_min_light()
    }
}

/// `P_FindLowestFloorSurrounding`.
pub fn p_find_lowest_floor_surrounding(sector: usize, sectors: &[Sector], lines: &[LineDef]) -> (r: Fixed)
    requires
        level_wf(sectors@, lines@),
        sector < sectors@.len(),
    ensures
        r.0 == lowest_floor_surrounding(sectors@, lines@, sector as int),
{
    let r = find_surrounding(sector, sectors[sector].floorheight.0 as i64, sectors, lines, 0, 0);
    assert(r <= sectors@[sector as int].floorheight.0) by {
        lemma_fold_le_init(sectors@, lines@, sector as int, sectors@[sector as int].floorheight.0 as int, sectors@[sector as int].lines@.len() as int, step_lowest_floor());
    }
    Fixed(r as i32)
}

/// A fold whose step never raises its accumulator ends at most at `init`.
pub proof fn lemma_fold_le_init(
    sectors: Seq<Sector>,
    lines: Seq<LineDef>,
    sec: int,
    init: int,
    n: int,
    step: spec_fn(int, Sector) -> int,
)
    requires
        forall|a: int, s: Sector| #[trigger] step(a, s) <= a,
    ensures
        fold_neighbors(sectors, lines, sec, init, n, step) <= init,
    decreases n,
{
    if n > 0 {
        lemma_fold_le_init(sectors, lines, sec, init, n - 1, step);
    }
}

/// `P_FindHighestFloorSurrounding`.
pub fn p_find_highest_floor_surrounding(sector: usize, sectors: &[Sector], lines: &[LineDef]) -> (r: Fixed)
    requires
        level_wf(sectors@, lines@),
        sector < sectors@.len(),
    ensures
        r.0 == highest_floor_surrounding(sectors@, lines@, sector as int),
{
    let r = find_surrounding(sector, -500 * 65536, sectors, lines, 1, 0);
    assert(r <= i32::MAX) by {
        lemma_fold_le_max(sectors@, lines@, sector as int, -500 * FRACUNIT, sectors@[sector as int].lines@.len() as int, step_highest_floor());
    }
    Fixed(r as i32)
}

/// A fold whose step only ever yields `init`-bounded or `i32` values stays in `i32`.
pub proof fn lemma_fold_le_max(
    sectors: Seq<Sector>,
    lines: Seq<LineDef>,
    sec: int,
    init: int,
    n: int,
    step: spec_fn(int, Sector) -> int,
)
    requires
        init <= i32::MAX,
        forall|a: int, s: Sector| a <= i32::MAX ==> #[trigger] step(a, s) <= i32::MAX,
    ensures
        fold_neighbors(sectors, lines, sec, init, n, step) <= i32::MAX,
    decreases n,
{
    if n > 0 {
        lemma_fold_le_max(sectors, lines, sec, init, n - 1, step);
    }
}

/// `P_FindLowestCeilingSurrounding`.
pub fn p_find_lowest_ceiling_surrounding(sector: usize, sectors: &[Sector], lines: &[LineDef]) -> (r: Fixed)
    requires
        level_wf(sectors@, lines@),
        sector < sectors@.len(),
    ensures
        r.0 == lowest_ceiling_surrounding(sectors@, lines@, sector as int),
{
    let r = find_surrounding(sector, i32::MAX as i64, sectors, lines, 2, 0);
    assert(r <= i32::MAX) by {
        lemma_fold_le_init(sectors@, lines@, sector as int, i32::MAX as int, sectors@[sector as int].lines@.len() as int, step_lowest_ceiling());
    }
    Fixed(r as i32)
}

/// `P_FindHighestCeilingSurrounding`.
pub fn p_find_highest_ceiling_surrounding(sector: usize, sectors: &[Sector], lines: &[LineDef]) -> (r: Fixed)
    requires
        level_wf(sectors@, lines@),
        sector < sectors@.len(),
    ensures
        r.0 == highest_ceiling_surrounding(sectors@, lines@, sector as int),
{
    let r = find_surrounding(sector, 0, sectors, lines, 3, 0);
    assert(r <= i32::MAX) by {
        lemma_fold_le_max(sectors@, lines@, sector as int, 0, sectors@[sector as int].lines@.len() as int, step_highest_ceiling());
    }
    Fixed(r as i32)
}

/// `P_FindNextHighestFloor`.
pub fn p_find_next_highest_floor(sector: usize, current: Fixed, sectors: &[Sector], lines: &[LineDef]) -> (r: Fixed)
    requires
        level_wf(sectors@, lines@),
        sector < sectors@.len(),
    ensures
        r.0 == next_highest_floor(sectors@, lines@, sector as int, current.0 as int),
{
    let r = find_surrounding(sector, i32::MAX as i64 + 1, sectors, lines, 4, current.0);
    if r == i32::MAX as i64 + 1 {
        current
    } else {
        Fixed(r as i32)
    }
}

/// The brightest neighbouring light level, or `init` when that is brighter.
pub open spec fn max_surrounding_light(sectors: Seq<Sector>, lines: Seq<LineDef>, sec: int, init: int) -> int {
    fold_neighbors(sectors, lines, sec, init, sectors[sec].lines@.len() as int, step_max_light())
}

/// The darkest neighbouring light level, or `init` when that is darker.
pub open spec fn min_neighbor_light(sectors: Seq<Sector>, lines: Seq<LineDef>, sec: int, init: int) -> int {
    fold_neighbors(sectors, lines, sec, init, sectors[sec].lines@.len() as int, step_min_light())
}

/// Brightest light among the neighbours of `sector`, starting from `init`.
pub fn find_max_light(sector: usize, init: i32, sectors: &[Sector], lines: &[LineDef]) -> (r: i32)
    requires
        level_wf(sectors@, lines@),
        sector < sectors@.len(),
    ensures
        r == max_surrounding_light(sectors@, lines@, sector as int, init as int),
{
    let r = find_surrounding(sector, init as i64, sectors, lines, 5, 0);
    assert(r <= i32::MAX) by {
        lemma_fold_le_max(sectors@, lines@, sector as int, init as int, sectors@[sector as int].lines@.len() as int, step_max_light());
    }
    r as i32
}

/// Darkest light among the neighbours of `sector`, starting from `init`.
pub fn find_min_light(sector: usize, init: i32, sectors: &[Sector], lines: &[LineDef]) -> (r: i32)
    requires
        level_wf(sectors@, lines@),
        sector < sectors@.len(),
    ensures
        r == min_neighbor_light(sectors@, lines@, sector as int, init as int),
{
    let r = find_surrounding(sector, init as i64, sectors, lines, 6, 0);
    assert(r <= i32::MAX) by {
        lemma_fold_le_init(sectors@, lines@, sector as int, init as int, sectors@[sector as int].lines@.len() as int, step_min_light());
    }
    r as i32
}

/// A fold whose step never takes its accumulator below `lo` stays at least `lo`.
pub proof fn lemma_fold_ge(
    sectors: Seq<Sector>,
    lines: Seq<LineDef>,
    sec: int,
    init: int,
    n: int,
    step: spec_fn(int, Sector) -> int,
    lo: int,
)
    requires
        init >= lo,
        forall|a: int, s: Sector| a >= lo ==> #[trigger] step(a, s) >= lo,
    ensures
        fold_neighbors(sectors, lines, sec, init, n, step) >= lo,
    decreases n,
{
    if n > 0 {
        lemma_fold_ge(sectors, lines, sec, init, n - 1, step, lo);
    }
}

/// Two sector lists with the same lines, heights, light levels and tags:
/// they differ at most in pictures, specials and occupying movers.
pub open spec fn same_geometry(a: Seq<Sector>, b: Seq<Sector>) -> bool {
    &&& a.len() == b.len()
    &&& forall|i: int| 0 <= i < a.len() ==> {
        &&& #[trigger] a[i].lines@ == b[i].lines@
        &&& a[i].floorheight == b[i].floorheight
        &&& a[i].ceilingheight == b[i].ceilingheight
        &&& a[i].lightlevel == b[i].lightlevel
        &&& a[i].tag == b[i].tag
    }
}

/// The neighbour folds only read what [`same_geometry`] keeps.
pub proof fn lemma_fold_same_geometry(
    a: Seq<Sector>,
    b: Seq<Sector>,
    lines: Seq<LineDef>,
    sec: int,
    init: int,
    n: int,
    step: spec_fn(int, Sector) -> int,
)
    requires
        same_geometry(a, b),
        level_wf(a, lines),
        0 <= sec < a.len(),
        0 <= n <= a[sec].lines@.len(),
        forall|x: int, i: int| 0 <= i < a.len() ==> #[trigger] step(x, a[i]) == step(x, b[i]),
    ensures
        fold_neighbors(a, lines, sec, init, n, step) == fold_neighbors(b, lines, sec, init, n, step),
    decreases n,
{
    if n > 0 {
        lemma_fold_same_geometry(a, b, lines, sec, init, n - 1, step);
        assert(a[sec].lines@[n - 1] == b[sec].lines@[n - 1]);
        let l = a[sec].lines@[n - 1];
        assert(l < lines.len());
        match next_sector(lines[l as int], sec as usize) {
            Some(o) => {
                assert(o < a.len());
                assert(step(fold_neighbors(b, lines, sec, init, n - 1, step), a[o as int]) == step(fold_neighbors(b, lines, sec, init, n - 1, step), b[o as int]));
            },
            None => {},
        }
    }
}

/// Every search step reads only what [`same_geometry`] keeps.
pub proof fn lemma_steps_same_geometry(a: Seq<Sector>, b: Seq<Sector>, current: int)
    requires
        same_geometry(a, b),
    ensures
        forall|x: int, i: int| 0 <= i < a.len() ==> #[trigger] step_lowest_floor()(x, a[i]) == step_lowest_floor()(x, b[i]),
        forall|x: int, i: int| 0 <= i < a.len() ==> #[trigger] step_highest_floor()(x, a[i]) == step_highest_floor()(x, b[i]),
        forall|x: int, i: int| 0 <= i < a.len() ==> #[trigger] step_lowest_ceiling()(x, a[i]) == step_lowest_ceiling()(x, b[i]),
        forall|x: int, i: int| 0 <= i < a.len() ==> #[trigger] step_highest_ceiling()(x, a[i]) == step_highest_ceiling()(x, b[i]),
        forall|x: int, i: int| 0 <= i < a.len() ==> #[trigger] step_next_floor(current)(x, a[i]) == step_next_floor(current)(x, b[i]),
        forall|x: int, i: int| 0 <= i < a.len() ==> #[trigger] step_max_light()(x, a[i]) == step_max_light()(x, b[i]),
        forall|x: int, i: int| 0 <= i < a.len() ==> #[trigger] step_min_light()(x, a[i]) == step_min_light()(x, b[i]),
{
    assert forall|x: int, i: int| 0 <= i < a.len() implies #[trigger] step_lowest_floor()(x, a[i]) == step_lowest_floor()(x, b[i]) by {
        assert(a[i].lines@ == b[i].lines@);
    }
    assert forall|x: int, i: int| 0 <= i < a.len() implies #[trigger] step_highest_floor()(x, a[i]) == step_highest_floor()(x, b[i]) by {
        assert(a[i].lines@ == b[i].lines@);
    }
    assert forall|x: int, i: int| 0 <= i < a.len() implies #[trigger] step_lowest_ceiling()(x, a[i]) == step_lowest_ceiling()(x, b[i]) by {
        assert(a[i].lines@ == b[i].lines@);
    }
    assert forall|x: int, i: int| 0 <= i < a.len() implies #[trigger] step_highest_ceiling()(x, a[i]) == step_highest_ceiling()(x, b[i]) by {
        assert(a[i].lines@ == b[i].lines@);
    }
    assert forall|x: int, i: int| 0 <= i < a.len() implies #[trigger] step_next_floor(current)(x, a[i]) == step_next_floor(current)(x, b[i]) by {
        assert(a[i].lines@ == b[i].lines@);
    }
    assert forall|x: int, i: int| 0 <= i < a.len() implies #[trigger] step_max_light()(x, a[i]) == step_max_light()(x, b[i]) by {
        assert(a[i].lines@ == b[i].lines@);
    }
    assert forall|x: int, i: int| 0 <= i < a.len() implies #[trigger] step_min_light()(x, a[i]) == step_min_light()(x, b[i]) by {
        assert(a[i].lines@ == b[i].lines@);
    }
}

/// Level well-formedness only depends on what [`same_geometry`] keeps.
pub proof fn lemma_wf_same_geometry(a: Seq<Sector>, b: Seq<Sector>, lines: Seq<LineDef>)
    requires
        same_geometry(a, b),
        level_wf(a, lines),
    ensures
        level_wf(b, lines),
{
    assert forall|i: int, k: int| 0 <= i < b.len() && 0 <= k < b[i].lines@.len() implies #[trigger] b[i].lines@[k] < lines.len() by {
        assert(a[i].lines@ == b[i].lines@);
        assert(a[i].lines@[k] < lines.len());
    }
}

/// The tag search only reads the tags.
pub proof fn lemma_find_same_geometry(a: Seq<Sector>, b: Seq<Sector>, tag: i16, from: int)
    requires
        same_geometry(a, b),
    ensures
        find_tagged_from(a, tag, from) == find_tagged_from(b, tag, from),
    decreases a.len() - from,
{
    if 0 <= from < a.len() {
        assert(a[from].lines@ == b[from].lines@);
        lemma_find_same_geometry(a, b, tag, from + 1);
    }
}

// ---------------------------------------------------------------------------
// The level as the sector specials see it
// ---------------------------------------------------------------------------

/// A request a sector special made of the engine, in the order made.
pub enum SpecEvent {
    /// `S_StartSound` at a sector's sound origin (or everywhere for `None`).
    Sound { origin: Option<usize>, sfx: SfxEnum },
    /// A message shown to a player.
    Message { player: usize, text: Seq<char> },
    /// A new ceiling mover was registered.
    AddCeiling(CeilingT),
    /// A new door mover was registered.
    AddDoor(VldoorT),
    /// A new floor mover was registered.
    AddFloor(FloorMoveT),
    /// A new platform was registered.
    AddPlat(PlatT),
    /// Ceiling movers in stasis with this tag were resumed.
    ActivateCeilings(i32),
    /// Platforms in stasis with this tag were resumed.
    ActivatePlats(i32),
    /// The door mover with this handle was given a new direction.
    SetDoorDirection { handle: usize, direction: i32 },
}

/// The level and engine services the sector specials act through: the map
/// data, the things and players they check, the play random stream, sound,
/// and the registration of new movers. The engine implements it.
pub trait SpecContext: Sized {
    /// The sectors.
    spec fn sectors_view(&self) -> Seq<Sector>;
    /// The linedefs.
    spec fn lines_view(&self) -> Seq<LineDef>;
    /// The sidedefs.
    spec fn sides_view(&self) -> Seq<SideDef>;
    /// For each thing, the player controlling it.
    spec fn mobj_players_view(&self) -> Seq<Option<usize>>;
    /// For each player, the keys held.
    spec fn player_cards_view(&self) -> Seq<[bool; 6]>;
    /// The play random stream.
    spec fn rng_view(&self) -> DoomRandom;
    /// The direction of the door mover with handle `h`, if `h` is a door.
    spec fn door_direction_view(&self, h: usize) -> Option<i32>;
    /// Everything requested so far, in order.
    spec fn events(&self) -> Seq<SpecEvent>;

    fn sectors(&self) -> (r: &[Sector])
        ensures
            r@ == self.sectors_view(),
    ;

    fn lines(&self) -> (r: &[LineDef])
        ensures
            r@ == self.lines_view(),
    ;

    fn sides(&self) -> (r: &[SideDef])
        ensures
            r@ == self.sides_view(),
    ;

    /// The player controlling thing `thing`, if any.
    fn mobj_player(&self, thing: usize) -> (r: Option<usize>)
        requires
            thing < self.mobj_players_view().len(),
        ensures
            r == self.mobj_players_view()[thing as int],
    ;

    /// The keys player `player` holds.
    fn player_cards(&self, player: usize) -> (r: [bool; 6])
        requires
            player < self.player_cards_view().len(),
        ensures
            r == self.player_cards_view()[player as int],
    ;

    /// The direction of the door mover with handle `h`, if it is one.
    fn door_direction(&self, h: usize) -> (r: Option<i32>)
        ensures
            r == self.door_direction_view(h),
    ;

    /// Give the door mover with handle `h` a new direction.
    fn set_door_direction(&mut self, h: usize, direction: i32)
        requires
            old(self).door_direction_view(h) is Some,
        ensures
            final(self).sectors_view() == old(self).sectors_view(),
            final(self).lines_view() == old(self).lines_view(),
            final(self).sides_view() == old(self).sides_view(),
            final(self).mobj_players_view() == old(self).mobj_players_view(),
            final(self).player_cards_view() == old(self).player_cards_view(),
            final(self).rng_view() == old(self).rng_view(),
            forall|g: usize| g != h ==> #[trigger] final(self).door_direction_view(g) == old(self).door_direction_view(g),
            final(self).door_direction_view(h) == Some(direction),
            final(self).events() == old(self).events().push(SpecEvent::SetDoorDirection { handle: h, direction }),
    ;

    /// Set sector `sec`'s special.
    fn set_sector_special(&mut self, sec: usize, special: i16)
        requires
            sec < old(self).sectors_view().len(),
        ensures
            final(self).lines_view() == old(self).lines_view(),
            final(self).sides_view() == old(self).sides_view(),
            final(self).mobj_players_view() == old(self).mobj_players_view(),
            final(self).player_cards_view() == old(self).player_cards_view(),
            final(self).rng_view() == old(self).rng_view(),
            forall|g: usize| #[trigger] final(self).door_direction_view(g) == old(self).door_direction_view(g),
            final(self).events() == old(self).events(),
            final(self).sectors_view() == old(self).sectors_view().update(
                sec as int,
                Sector { special, ..old(self).sectors_view()[sec as int] },
            ),
    ;

    /// Set sector `sec`'s floor picture.
    fn set_sector_floorpic(&mut self, sec: usize, pic: i16)
        requires
            sec < old(self).sectors_view().len(),
        ensures
            final(self).lines_view() == old(self).lines_view(),
            final(self).sides_view() == old(self).sides_view(),
            final(self).mobj_players_view() == old(self).mobj_players_view(),
            final(self).player_cards_view() == old(self).player_cards_view(),
            final(self).rng_view() == old(self).rng_view(),
            forall|g: usize| #[trigger] final(self).door_direction_view(g) == old(self).door_direction_view(g),
            final(self).events() == old(self).events(),
            final(self).sectors_view() == old(self).sectors_view().update(
                sec as int,
                Sector { floorpic: pic, ..old(self).sectors_view()[sec as int] },
            ),
    ;

    /// Set line `line`'s special.
    fn set_line_special(&mut self, line: usize, special: i16)
        requires
            line < old(self).lines_view().len(),
        ensures
            final(self).sectors_view() == old(self).sectors_view(),
            final(self).sides_view() == old(self).sides_view(),
            final(self).mobj_players_view() == old(self).mobj_players_view(),
            final(self).player_cards_view() == old(self).player_cards_view(),
            final(self).rng_view() == old(self).rng_view(),
            forall|g: usize| #[trigger] final(self).door_direction_view(g) == old(self).door_direction_view(g),
            final(self).events() == old(self).events(),
            final(self).lines_view() == old(self).lines_view().update(
                line as int,
                LineDef { special, ..old(self).lines_view()[line as int] },
            ),
    ;

    /// Show `text` to player `player`.
    fn set_player_message(&mut self, player: usize, text: &str)
        ensures
            final(self).sectors_view() == old(self).sectors_view(),
            final(self).lines_view() == old(self).lines_view(),
            final(self).sides_view() == old(self).sides_view(),
            final(self).mobj_players_view() == old(self).mobj_players_view(),
            final(self).player_cards_view() == old(self).player_cards_view(),
            final(self).rng_view() == old(self).rng_view(),
            forall|g: usize| #[trigger] final(self).door_direction_view(g) == old(self).door_direction_view(g),
            final(self).events() == old(self).events().push(SpecEvent::Message { player, text: text@ }),
    ;

    /// `S_StartSound`.
    fn s_start_sound(&mut self, origin: Option<usize>, sfx: SfxEnum)
        ensures
            final(self).sectors_view() == old(self).sectors_view(),
            final(self).lines_view() == old(self).lines_view(),
            final(self).sides_view() == old(self).sides_view(),
            final(self).mobj_players_view() == old(self).mobj_players_view(),
            final(self).player_cards_view() == old(self).player_cards_view(),
            final(self).rng_view() == old(self).rng_view(),
            forall|g: usize| #[trigger] final(self).door_direction_view(g) == old(self).door_direction_view(g),
            final(self).events() == old(self).events().push(SpecEvent::Sound { origin, sfx }),
    ;

    /// `P_Random` on the play stream.
    fn p_random(&mut self) -> (r: u8)
        ensures
            r == old(self).rng_view().next_p(),
            final(self).rng_view() == old(self).rng_view().advanced(),
            final(self).sectors_view() == old(self).sectors_view(),
            final(self).lines_view() == old(self).lines_view(),
            final(self).sides_view() == old(self).sides_view(),
            final(self).mobj_players_view() == old(self).mobj_players_view(),
            final(self).player_cards_view() == old(self).player_cards_view(),
            forall|g: usize| #[trigger] final(self).door_direction_view(g) == old(self).door_direction_view(g),
            final(self).events() == old(self).events(),
    ;

    /// Register a new ceiling mover and mark its sector occupied.
    fn p_add_thinker_ceiling(&mut self, ceiling: CeilingT)
        requires
            ceiling.sector < old(self).sectors_view().len(),
        ensures
            final(self).lines_view() == old(self).lines_view(),
            final(self).sides_view() == old(self).sides_view(),
            final(self).mobj_players_view() == old(self).mobj_players_view(),
            final(self).player_cards_view() == old(self).player_cards_view(),
            final(self).rng_view() == old(self).rng_view(),
            forall|g: usize| #[trigger] final(self).door_direction_view(g) == old(self).door_direction_view(g),
            final(self).sectors_view().len() == old(self).sectors_view().len(),
            final(self).sectors_view()[ceiling.sector as int].specialdata is Some,
            final(self).sectors_view()[ceiling.sector as int] == (Sector { specialdata: final(self).sectors_view()[ceiling.sector as int].specialdata, ..old(self).sectors_view()[ceiling.sector as int] }),
            forall|j: int| 0 <= j < old(self).sectors_view().len() && j != ceiling.sector ==> #[trigger] final(self).sectors_view()[j] == old(self).sectors_view()[j],
            final(self).events() == old(self).events().push(SpecEvent::AddCeiling(ceiling)),
    ;

    /// Register a new door mover and mark its sector occupied.
    fn p_add_thinker_door(&mut self, door: VldoorT)
        requires
            door.sector < old(self).sectors_view().len(),
        ensures
            final(self).lines_view() == old(self).lines_view(),
            final(self).sides_view() == old(self).sides_view(),
            final(self).mobj_players_view() == old(self).mobj_players_view(),
            final(self).player_cards_view() == old(self).player_cards_view(),
            final(self).rng_view() == old(self).rng_view(),
            forall|g: usize| old(self).door_direction_view(g) is Some ==> #[trigger] final(self).door_direction_view(g) == old(self).door_direction_view(g),
            final(self).sectors_view().len() == old(self).sectors_view().len(),
            final(self).sectors_view()[door.sector as int].specialdata is Some,
            final(self).door_direction_view(final(self).sectors_view()[door.sector as int].specialdata->0) == Some(door.direction),
            final(self).sectors_view()[door.sector as int] == (Sector { specialdata: final(self).sectors_view()[door.sector as int].specialdata, ..old(self).sectors_view()[door.sector as int] }),
            forall|j: int| 0 <= j < old(self).sectors_view().len() && j != door.sector ==> #[trigger] final(self).sectors_view()[j] == old(self).sectors_view()[j],
            final(self).events() == old(self).events().push(SpecEvent::AddDoor(door)),
    ;

    /// Register a new floor mover and mark its sector occupied.
    fn p_add_thinker_floor(&mut self, floor: FloorMoveT)
        requires
            floor.sector < old(self).sectors_view().len(),
        ensures
            final(self).lines_view() == old(self).lines_view(),
            final(self).sides_view() == old(self).sides_view(),
            final(self).mobj_players_view() == old(self).mobj_players_view(),
            final(self).player_cards_view() == old(self).player_cards_view(),
            final(self).rng_view() == old(self).rng_view(),
            forall|g: usize| #[trigger] final(self).door_direction_view(g) == old(self).door_direction_view(g),
            final(self).sectors_view().len() == old(self).sectors_view().len(),
            final(self).sectors_view()[floor.sector as int].specialdata is Some,
            final(self).sectors_view()[floor.sector as int] == (Sector { specialdata: final(self).sectors_view()[floor.sector as int].specialdata, ..old(self).sectors_view()[floor.sector as int] }),
            forall|j: int| 0 <= j < old(self).sectors_view().len() && j != floor.sector ==> #[trigger] final(self).sectors_view()[j] == old(self).sectors_view()[j],
            final(self).events() == old(self).events().push(SpecEvent::AddFloor(floor)),
    ;

    /// Register a new platform (tracking it as active) and mark its sector occupied.
    fn p_add_thinker_plat(&mut self, plat: PlatT)
        requires
            plat.sector < old(self).sectors_view().len(),
        ensures
            final(self).lines_view() == old(self).lines_view(),
            final(self).sides_view() == old(self).sides_view(),
            final(self).mobj_players_view() == old(self).mobj_players_view(),
            final(self).player_cards_view() == old(self).player_cards_view(),
            final(self).rng_view() == old(self).rng_view(),
            forall|g: usize| #[trigger] final(self).door_direction_view(g) == old(self).door_direction_view(g),
            final(self).sectors_view().len() == old(self).sectors_view().len(),
            final(self).sectors_view()[plat.sector as int].specialdata is Some,
            final(self).sectors_view()[plat.sector as int] == (Sector { specialdata: final(self).sectors_view()[plat.sector as int].specialdata, ..old(self).sectors_view()[plat.sector as int] }),
            forall|j: int| 0 <= j < old(self).sectors_view().len() && j != plat.sector ==> #[trigger] final(self).sectors_view()[j] == old(self).sectors_view()[j],
            final(self).events() == old(self).events().push(SpecEvent::AddPlat(plat)),
    ;

    /// Resume the ceiling movers in stasis tagged `tag`.
    fn p_activate_in_stasis_ceiling(&mut self, tag: i32)
        ensures
            final(self).sectors_view() == old(self).sectors_view(),
            final(self).lines_view() == old(self).lines_view(),
            final(self).sides_view() == old(self).sides_view(),
            final(self).mobj_players_view() == old(self).mobj_players_view(),
            final(self).player_cards_view() == old(self).player_cards_view(),
            final(self).rng_view() == old(self).rng_view(),
            forall|g: usize| #[trigger] final(self).door_direction_view(g) == old(self).door_direction_view(g),
            final(self).events() == old(self).events().push(SpecEvent::ActivateCeilings(tag)),
    ;

    /// Resume the platforms in stasis tagged `tag`.
    fn p_activate_in_stasis_plat(&mut self, tag: i32)
        ensures
            final(self).sectors_view() == old(self).sectors_view(),
            final(self).lines_view() == old(self).lines_view(),
            final(self).sides_view() == old(self).sides_view(),
            final(self).mobj_players_view() == old(self).mobj_players_view(),
            final(self).player_cards_view() == old(self).player_cards_view(),
            final(self).rng_view() == old(self).rng_view(),
            forall|g: usize| #[trigger] final(self).door_direction_view(g) == old(self).door_direction_view(g),
            final(self).events() == old(self).events().push(SpecEvent::ActivatePlats(tag)),
    ;
}


/// What a special never changes: the sidedefs, the things' players, the
/// players' keys, the random stream and the doors' directions.
pub open spec fn keeps_level<C: SpecContext>(pre: C, post: C) -> bool {
    &&& post.sides_view() == pre.sides_view()
    &&& post.mobj_players_view() == pre.mobj_players_view()
    &&& post.player_cards_view() == pre.player_cards_view()
    &&& post.rng_view() == pre.rng_view()
    &&& forall|g: usize| #[trigger] post.door_direction_view(g) == pre.door_direction_view(g)
}

/// As [`keeps_level`], except that new doors may have appeared: the doors
/// there were keep their directions.
pub open spec fn keeps_level_adding_doors<C: SpecContext>(pre: C, post: C) -> bool {
    &&& post.sides_view() == pre.sides_view()
    &&& post.mobj_players_view() == pre.mobj_players_view()
    &&& post.player_cards_view() == pre.player_cards_view()
    &&& post.rng_view() == pre.rng_view()
    &&& forall|g: usize| pre.door_direction_view(g) is Some ==> #[trigger] post.door_direction_view(g) == pre.door_direction_view(g)
}

/// Nothing changed and nothing was requested.
pub open spec fn untouched<C: SpecContext>(pre: C, post: C) -> bool {
    &&& keeps_level(pre, post)
    &&& post.sectors_view() == pre.sectors_view()
    &&& post.lines_view() == pre.lines_view()
    &&& post.events() == pre.events()
}

// ---------------------------------------------------------------------------
// Walking the sectors a line's tag selects
// ---------------------------------------------------------------------------

/// A sector tagged `tag` that no mover occupies.
pub open spec fn free_tagged(s: Sector, tag: i16) -> bool {
    s.tag == tag && s.specialdata is None
}

/// The requests made for the sectors from index `from` on: for each sector
/// tagged `tag` and not occupied, in order, the requests `f` makes for it
/// given the random stream at that point; and the random stream afterwards.
pub open spec fn tagged_spawns(
    sectors: Seq<Sector>,
    tag: i16,
    from: int,
    rng: DoomRandom,
    f: spec_fn(int, DoomRandom) -> (Seq<SpecEvent>, DoomRandom),
) -> (Seq<SpecEvent>, DoomRandom)
    decreases sectors.len() - from,
{
    if from < 0 || from >= sectors.len() {
        (seq![], rng)
    } else if free_tagged(sectors[from], tag) {
        let (e, r2) = f(from, rng);
        let (rest, r3) = tagged_spawns(sectors, tag, from + 1, r2, f);
        (e + rest, r3)
    } else {
        tagged_spawns(sectors, tag, from + 1, rng, f)
    }
}

/// Untagged sectors make no requests.
pub proof fn lemma_tagged_spawns_skip(
    sectors: Seq<Sector>,
    tag: i16,
    from: int,
    to: int,
    rng: DoomRandom,
    f: spec_fn(int, DoomRandom) -> (Seq<SpecEvent>, DoomRandom),
)
    requires
        0 <= from <= to <= sectors.len(),
        forall|j: int| from <= j < to ==> sectors[j].tag != tag,
    ensures
        tagged_spawns(sectors, tag, from, rng, f) == tagged_spawns(sectors, tag, to, rng, f),
    decreases to - from,
{
    if from < to {
        lemma_tagged_spawns_skip(sectors, tag, from + 1, to, rng, f);
    }
}

/// Some sector from index `from` on is tagged `tag` and free.
pub open spec fn any_free_tagged(sectors: Seq<Sector>, tag: i16, from: int) -> bool {
    exists|j: int| from <= j < sectors.len() && free_tagged(#[trigger] sectors[j], tag)
}

/// `sectors` after registering movers: equal to `s0` except that the
/// sectors up to `upto` that `s0` had free and tagged are now occupied.
pub open spec fn occupied_upto(s0: Seq<Sector>, cur: Seq<Sector>, tag: i16, upto: int) -> bool {
    &&& cur.len() == s0.len()
    &&& forall|j: int| 0 <= j < s0.len() ==> #[trigger] cur[j] == if j <= upto && free_tagged(s0[j], tag) {
        Sector { specialdata: cur[j].specialdata, ..s0[j] }
    } else {
        s0[j]
    }
    &&& forall|j: int| 0 <= j <= upto && 0 <= j < s0.len() && free_tagged(s0[j], tag) ==> (#[trigger] cur[j]).specialdata is Some
}

pub proof fn lemma_occupied_geometry(s0: Seq<Sector>, cur: Seq<Sector>, tag: i16, upto: int)
    requires
        occupied_upto(s0, cur, tag, upto),
        upto >= -1,
    ensures
        same_geometry(s0, cur),
        forall|j: int| upto < j < s0.len() ==> #[trigger] cur[j] == s0[j],
{
    assert forall|i: int| 0 <= i < s0.len() implies {
        &&& #[trigger] s0[i].lines@ == cur[i].lines@
        &&& s0[i].floorheight == cur[i].floorheight
        &&& s0[i].ceilingheight == cur[i].ceilingheight
        &&& s0[i].lightlevel == cur[i].lightlevel
        &&& s0[i].tag == cur[i].tag
    } by {
        assert(cur[i] == if i <= upto && free_tagged(s0[i], tag) {
            Sector { specialdata: cur[i].specialdata, ..s0[i] }
        } else {
            s0[i]
        });
    }
    assert forall|j: int| upto < j < s0.len() implies #[trigger] cur[j] == s0[j] by {
        assert(cur[j] == if j <= upto && free_tagged(s0[j], tag) {
            Sector { specialdata: cur[j].specialdata, ..s0[j] }
        } else {
            s0[j]
        });
    }
}

} // verus!
